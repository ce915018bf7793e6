//! Session state, usage accounting, and per-model cost rates.
//!
//! Costs are carried in nanodollars (10^-9 USD): every per-token rate in the
//! table is an exact multiple of one nanodollar, so all cost arithmetic is
//! exact decimal arithmetic on integers.

use vstd::prelude::*;
use vstd::string::StringExecFns;

verus! {

/// Tracks token usage for one turn: cached, input, and output tokens.
#[derive(Debug, Clone, Copy, PartialEq, Eq, Structural)]
pub struct Usage {
    /// Number of cached input tokens.
    pub cached_input_tokens: u64,
    /// Number of non-cached input tokens.
    pub input_tokens: u64,
    /// Number of output tokens.
    pub output_tokens: u64,
}

impl Usage {
    /// Builds a `Usage` from the raw token counts a backend reports.
    ///
    /// The raw prompt count includes the cached tokens, so the non-cached
    /// input count is the saturating difference: when a misreport makes the
    /// cached count exceed the prompt count, the input count is zero, never
    /// negative.
    pub fn from_raw(prompt_tokens: u64, cached_tokens: u64, completion_tokens: u64) -> (r: Usage)
        ensures
            r.cached_input_tokens == cached_tokens,
            r.output_tokens == completion_tokens,
            r.input_tokens == if prompt_tokens >= cached_tokens {
                prompt_tokens - cached_tokens
            } else {
                0
            },
            cached_tokens > prompt_tokens ==> r.input_tokens == 0,
    {
        Usage {
            cached_input_tokens: cached_tokens,
            input_tokens: if prompt_tokens >= cached_tokens {
                prompt_tokens - cached_tokens
            } else {
                0
            },
            output_tokens: completion_tokens,
        }
    }
}

/// A conversation session, tracking the backend cursor and accumulated cost.
#[derive(Debug, Clone, PartialEq, Eq)]
pub struct Session {
    /// Cursor for the previous response, if any. Only the Responses dialect
    /// writes it.
    pub cursor: Option<String>,
    /// Total cost of the session, in nanodollars.
    pub cost: u128,
}

impl Session {
    /// A fresh session: no cursor, zero cost.
    pub fn new() -> (r: Session)
        ensures
            r.cursor is None,
            r.cost == 0,
    {
        Session { cursor: None, cost: 0 }
    }
}

impl Default for Session {
    /// The default session is the fresh session.
    fn default() -> (r: Self)
        ensures
            r.cursor is None,
            r.cost == 0,
    {
        Session::new()
    }
}

/// Supported models for message generation.
#[derive(Debug, Clone, Copy, PartialEq, Eq, Structural)]
pub enum Model {
    /// GPT-4.1 model (default).
    Gpt4_1,
    /// GPT-4.1 Mini model.
    Gpt4_1Mini,
    /// GPT-4.1 Nano model.
    Gpt4_1Nano,
    /// O3 model.
    O3,
    /// O4 Mini model.
    O4Mini,
}

impl Default for Model {
    /// The default model is GPT-4.1.
    fn default() -> (r: Self)
        ensures
            r == Model::Gpt4_1,
    {
        Model::Gpt4_1
    }
}

/// Nanodollars per non-cached input token.
pub open spec fn input_rate(m: Model) -> u64 {
    match m {
        Model::Gpt4_1 => 2000,
        Model::Gpt4_1Mini => 400,
        Model::Gpt4_1Nano => 100,
        Model::O3 => 10000,
        Model::O4Mini => 1100,
    }
}

/// Nanodollars per cached input token.
pub open spec fn cached_input_rate(m: Model) -> u64 {
    match m {
        Model::Gpt4_1 => 500,
        Model::Gpt4_1Mini => 100,
        Model::Gpt4_1Nano => 25,
        Model::O3 => 2500,
        Model::O4Mini => 275,
    }
}

/// Nanodollars per output token.
pub open spec fn output_rate(m: Model) -> u64 {
    match m {
        Model::Gpt4_1 => 8000,
        Model::Gpt4_1Mini => 1600,
        Model::Gpt4_1Nano => 400,
        Model::O3 => 40000,
        Model::O4Mini => 4400,
    }
}

/// The cost of one turn, in nanodollars:
/// input·rate_in + cached·rate_cached + output·rate_out.
pub open spec fn cost_nanos(m: Model, u: Usage) -> int {
    input_rate(m) * u.input_tokens + cached_input_rate(m) * u.cached_input_tokens + output_rate(m)
        * u.output_tokens
}

/// Every rate in the table is at most this bound, which keeps the cost of one
/// turn well inside `u128`.
pub open spec fn rate_bound() -> int {
    40000
}

/// The cost of one turn is nonnegative and bounded, so it always fits in `u128`.
pub proof fn lemma_cost_nanos_bounds(m: Model, u: Usage)
    ensures
        0 <= cost_nanos(m, u),
        cost_nanos(m, u) <= 3 * rate_bound() * 0xFFFF_FFFF_FFFF_FFFF,
{
    assert(input_rate(m) * u.input_tokens <= rate_bound() * 0xFFFF_FFFF_FFFF_FFFF)
        by (nonlinear_arith)
        requires
            input_rate(m) <= rate_bound(),
            u.input_tokens <= 0xFFFF_FFFF_FFFF_FFFF,
            0 <= input_rate(m),
            0 <= u.input_tokens,
    ;
    assert(cached_input_rate(m) * u.cached_input_tokens <= rate_bound() * 0xFFFF_FFFF_FFFF_FFFF)
        by (nonlinear_arith)
        requires
            cached_input_rate(m) <= rate_bound(),
            u.cached_input_tokens <= 0xFFFF_FFFF_FFFF_FFFF,
            0 <= cached_input_rate(m),
            0 <= u.cached_input_tokens,
    ;
    assert(output_rate(m) * u.output_tokens <= rate_bound() * 0xFFFF_FFFF_FFFF_FFFF)
        by (nonlinear_arith)
        requires
            output_rate(m) <= rate_bound(),
            u.output_tokens <= 0xFFFF_FFFF_FFFF_FFFF,
            0 <= output_rate(m),
            0 <= u.output_tokens,
    ;
    assert(0 <= input_rate(m) * u.input_tokens) by (nonlinear_arith)
        requires
            0 <= input_rate(m),
            0 <= u.input_tokens,
    ;
    assert(0 <= cached_input_rate(m) * u.cached_input_tokens) by (nonlinear_arith)
        requires
            0 <= cached_input_rate(m),
            0 <= u.cached_input_tokens,
    ;
    assert(0 <= output_rate(m) * u.output_tokens) by (nonlinear_arith)
        requires
            0 <= output_rate(m),
            0 <= u.output_tokens,
    ;
}

impl Model {
    /// Nanodollars per non-cached input token.
    pub fn cost_per_input_token(self) -> (r: u64)
        ensures
            r == input_rate(self),
    {
        match self {
            Model::Gpt4_1 => 2000,
            Model::Gpt4_1Mini => 400,
            Model::Gpt4_1Nano => 100,
            Model::O3 => 10000,
            Model::O4Mini => 1100,
        }
    }

    /// Nanodollars per cached input token.
    pub fn cost_per_cached_input_token(self) -> (r: u64)
        ensures
            r == cached_input_rate(self),
    {
        match self {
            Model::Gpt4_1 => 500,
            Model::Gpt4_1Mini => 100,
            Model::Gpt4_1Nano => 25,
            Model::O3 => 2500,
            Model::O4Mini => 275,
        }
    }

    /// Nanodollars per output token.
    pub fn cost_per_output_token(self) -> (r: u64)
        ensures
            r == output_rate(self),
    {
        match self {
            Model::Gpt4_1 => 8000,
            Model::Gpt4_1Mini => 1600,
            Model::Gpt4_1Nano => 400,
            Model::O3 => 40000,
            Model::O4Mini => 4400,
        }
    }

    /// The cost of one turn with this model, in nanodollars.
    pub fn cost(self, usage: &Usage) -> (r: u128)
        ensures
            r == cost_nanos(self, *usage),
    {
        proof {
            lemma_cost_nanos_bounds(self, *usage);
        }
        let a: u128 = (self.cost_per_input_token() as u128) * (usage.input_tokens as u128);
        let b: u128 = (self.cost_per_cached_input_token() as u128) * (
        usage.cached_input_tokens as u128);
        let c: u128 = (self.cost_per_output_token() as u128) * (usage.output_tokens as u128);
        a + b + c
    }

    /// The lowercase wire identifier of the model.
    pub fn identifier(self) -> (r: String)
        ensures
            r@ == model_identifier(self),
    {
        match self {
            Model::Gpt4_1 => String::from_str("gpt-4.1"),
            Model::Gpt4_1Mini => String::from_str("gpt-4.1-mini"),
            Model::Gpt4_1Nano => String::from_str("gpt-4.1-nano"),
            Model::O3 => String::from_str("o3"),
            Model::O4Mini => String::from_str("o4-mini"),
        }
    }
}

/// The lowercase wire identifier of each model.
pub open spec fn model_identifier(m: Model) -> Seq<char> {
    match m {
        Model::Gpt4_1 => "gpt-4.1"@,
        Model::Gpt4_1Mini => "gpt-4.1-mini"@,
        Model::Gpt4_1Nano => "gpt-4.1-nano"@,
        Model::O3 => "o3"@,
        Model::O4Mini => "o4-mini"@,
    }
}

impl Session {
    /// Accrues the cost of one turn into the session.
    pub fn accrue_cost(&mut self, model: Model, usage: &Usage)
        requires
            old(self).cost + cost_nanos(model, *usage) <= u128::MAX,
        ensures
            final(self).cost == old(self).cost + cost_nanos(model, *usage),
            final(self).cursor == old(self).cursor,
    {
        proof {
            lemma_cost_nanos_bounds(model, *usage);
        }
        let turn = model.cost(usage);
        self.cost = self.cost + turn;
    }
}

/// The summed cost of a sequence of turns, in nanodollars.
pub open spec fn total_cost_nanos(m: Model, usages: Seq<Usage>) -> int
    decreases usages.len(),
{
    if usages.len() == 0 {
        0
    } else {
        total_cost_nanos(m, usages.drop_last()) + cost_nanos(m, usages.last())
    }
}

/// The session cost after accruing each turn of a sequence in order, starting
/// from `cost0`.
pub open spec fn cost_after_turns(cost0: int, m: Model, usages: Seq<Usage>) -> int
    decreases usages.len(),
{
    if usages.len() == 0 {
        cost0
    } else {
        cost_after_turns(cost0, m, usages.drop_last()) + cost_nanos(m, usages.last())
    }
}

/// Cost additivity: the session cost after any number of turns equals the
/// starting cost plus the sum of the per-turn costs.
pub proof fn lemma_cost_additivity(cost0: int, m: Model, usages: Seq<Usage>)
    ensures
        cost_after_turns(cost0, m, usages) == cost0 + total_cost_nanos(m, usages),
    decreases usages.len(),
{
    if usages.len() > 0 {
        lemma_cost_additivity(cost0, m, usages.drop_last());
    }
}

/// Configuration for generating messages.
#[derive(Debug, Clone, Copy, PartialEq, Eq, Structural)]
pub struct GenerateConfig {
    /// Model to use for generation.
    pub model: Model,
    /// Tool selection strategy.
    pub tool_choice: crate::config::ToolChoice,
}

impl Default for GenerateConfig {
    /// The default configuration: GPT-4.1 with automatic tool choice.
    fn default() -> (r: Self)
        ensures
            r.model == Model::Gpt4_1,
            r.tool_choice == crate::config::ToolChoice::Auto,
    {
        GenerateConfig { model: Model::Gpt4_1, tool_choice: crate::config::ToolChoice::Auto }
    }
}

} // verus!

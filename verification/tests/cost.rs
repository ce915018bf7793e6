use aiflow::Model;
use aiflow::Session;
use aiflow::Usage;

#[test]
fn rates_match_the_table() {
    // Rates are carried in nanodollars per token: exact decimal arithmetic.
    assert_eq!(Model::Gpt4_1.cost_per_input_token(), 2000);
    assert_eq!(Model::Gpt4_1.cost_per_cached_input_token(), 500);
    assert_eq!(Model::Gpt4_1.cost_per_output_token(), 8000);
    assert_eq!(Model::Gpt4_1Mini.cost_per_input_token(), 400);
    assert_eq!(Model::Gpt4_1Mini.cost_per_cached_input_token(), 100);
    assert_eq!(Model::Gpt4_1Mini.cost_per_output_token(), 1600);
    assert_eq!(Model::Gpt4_1Nano.cost_per_input_token(), 100);
    assert_eq!(Model::Gpt4_1Nano.cost_per_cached_input_token(), 25);
    assert_eq!(Model::Gpt4_1Nano.cost_per_output_token(), 400);
    assert_eq!(Model::O3.cost_per_input_token(), 10000);
    assert_eq!(Model::O3.cost_per_cached_input_token(), 2500);
    assert_eq!(Model::O3.cost_per_output_token(), 40000);
    assert_eq!(Model::O4Mini.cost_per_input_token(), 1100);
    assert_eq!(Model::O4Mini.cost_per_cached_input_token(), 275);
    assert_eq!(Model::O4Mini.cost_per_output_token(), 4400);
}

#[test]
fn cost_formula_is_exact() {
    let usage = Usage {
        cached_input_tokens: 3,
        input_tokens: 5,
        output_tokens: 2,
    };
    // 5 * 2000 + 3 * 500 + 2 * 8000 nanodollars.
    assert_eq!(Model::Gpt4_1.cost(&usage), 27_500);
    // 5 * 1100 + 3 * 275 + 2 * 4400 nanodollars.
    assert_eq!(Model::O4Mini.cost(&usage), 15_125);
}

#[test]
fn saturating_subtraction_never_goes_negative() {
    // A misreport where cached tokens exceed prompt tokens yields zero
    // non-cached input tokens, never a negative count.
    let usage = Usage::from_raw(3, 10, 1);
    assert_eq!(usage.input_tokens, 0);
    assert_eq!(usage.cached_input_tokens, 10);
    assert_eq!(usage.output_tokens, 1);

    let normal = Usage::from_raw(10, 3, 1);
    assert_eq!(normal.input_tokens, 7);
}

#[test]
fn session_cost_adds_up_across_turns() {
    let mut session = Session::new();
    let first = Usage {
        cached_input_tokens: 0,
        input_tokens: 5,
        output_tokens: 2,
    };
    let second = Usage {
        cached_input_tokens: 4,
        input_tokens: 1,
        output_tokens: 3,
    };
    session.accrue_cost(Model::Gpt4_1, &first);
    session.accrue_cost(Model::Gpt4_1, &second);
    let expected = Model::Gpt4_1.cost(&first) + Model::Gpt4_1.cost(&second);
    assert_eq!(session.cost, expected);
    assert_eq!(session.cost, 26_000 + (2000 + 4 * 500 + 3 * 8000));
}

#[test]
fn model_identifiers_are_lowercase_wire_names() {
    assert_eq!(Model::Gpt4_1.identifier(), "gpt-4.1");
    assert_eq!(Model::Gpt4_1Mini.identifier(), "gpt-4.1-mini");
    assert_eq!(Model::Gpt4_1Nano.identifier(), "gpt-4.1-nano");
    assert_eq!(Model::O3.identifier(), "o3");
    assert_eq!(Model::O4Mini.identifier(), "o4-mini");
    assert_eq!(Model::default(), Model::Gpt4_1);
}

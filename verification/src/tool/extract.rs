//! Extractors: one-shot consumers of a mutable call state. Each takes its
//! piece of the call exactly once; a second take fails.

use vstd::prelude::*;

verus! {

/// The mutable state of one tool call during extraction: each field is
/// consumed at most once.
#[derive(Debug, Clone, PartialEq, Eq)]
pub struct Call {
    /// The backend call identifier, until taken.
    pub id: Option<String>,
    /// The JSON text of the arguments, until taken.
    pub args: Option<String>,
}

impl Call {
    /// A call state holding an id and argument text, both not yet taken.
    pub fn new(id: String, args: String) -> (r: Call)
        ensures
            r.id matches Some(i) && i@ == id@,
            r.args matches Some(a) && a@ == args@,
    {
        Call { id: Some(id), args: Some(args) }
    }
}

/// Extraction failed: the requested piece of the call was absent or already
/// taken.
#[derive(Debug, Clone, Copy, PartialEq, Eq, Structural)]
pub struct ExtractError;

/// Wrapper for extracting the backend call identifier from a tool call.
#[derive(Debug, Clone, PartialEq, Eq)]
pub struct Id(pub String);

impl Id {
    /// Takes the call identifier out of the state; fails if it is absent.
    pub fn try_from(state: &mut Call) -> (r: Result<Id, ExtractError>)
        ensures
            r is Ok <==> old(state).id is Some,
            r matches Ok(id) ==> Some(id.0) == old(state).id,
            final(state).id is None,
            final(state).args == old(state).args,
    {
        match self::take_id(state) {
            Some(id) => Ok(Id(id)),
            None => Err(ExtractError),
        }
    }
}

/// Wrapper for extracting arguments of type `T` from a tool call.
#[derive(Debug, Clone, PartialEq, Eq)]
pub struct Args<T>(pub T);

impl Args<String> {
    /// Takes the argument JSON text out of the state; fails if it is absent.
    /// Deserializing the text into a typed value is the embedder's step.
    pub fn try_from(state: &mut Call) -> (r: Result<Args<String>, ExtractError>)
        ensures
            r is Ok <==> old(state).args is Some,
            r matches Ok(a) ==> Some(a.0) == old(state).args,
            final(state).args is None,
            final(state).id == old(state).id,
    {
        match self::take_args(state) {
            Some(args) => Ok(Args(args)),
            None => Err(ExtractError),
        }
    }
}

/// Wrapper for a tool's pre-registered typed context. The context value is
/// registered and downcast by the embedder.
#[derive(Debug, Clone, PartialEq, Eq)]
pub struct Context<T>(pub T);

/// Takes the call identifier out of the state.
fn take_id(state: &mut Call) -> (r: Option<String>)
    ensures
        r == old(state).id,
        final(state).id is None,
        final(state).args == old(state).args,
{
    let mut taken: Option<String> = None;
    core::mem::swap(&mut taken, &mut state.id);
    taken
}

/// Takes the argument JSON text out of the state.
fn take_args(state: &mut Call) -> (r: Option<String>)
    ensures
        r == old(state).args,
        final(state).args is None,
        final(state).id == old(state).id,
{
    let mut taken: Option<String> = None;
    core::mem::swap(&mut taken, &mut state.args);
    taken
}

} // verus!

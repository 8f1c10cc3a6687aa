use vstd::prelude::*;

verus! {

/// Shared application state.
///
/// One value of this type is built at startup and then shared, read-only,
/// by every request handler; the embedding program is responsible for
/// constructing it exactly once and keeping it alive for the life of the
/// process.
pub struct App {}

impl App {
    /// Builds the application state. Construction is deterministic and
    /// side-effect-free; every call returns an equal value, so a program
    /// that memoizes the first call hands the same state to every caller.
    pub fn get() -> (a: App)
        ensures
            a == (App {}),
    {
        App {}
    }
}

} // verus!

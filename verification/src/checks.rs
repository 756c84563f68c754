//! Checks that stop at the first thing that is wrong.
use vstd::prelude::*;

verus! {

/// The first problem among the items `from..n`, where `problem` says what is
/// wrong with an item.
pub open spec fn first_problem(
    problem: spec_fn(int) -> Option<Seq<char>>,
    from: int,
    n: int,
) -> Option<Seq<char>>
    decreases n - from,
{
    if from >= n {
        None
    } else {
        match problem(from) {
            Some(text) => Some(text),
            None => first_problem(problem, from + 1, n),
        }
    }
}

/// There is no first problem exactly when no item has one.
pub proof fn no_problem(problem: spec_fn(int) -> Option<Seq<char>>, from: int, n: int)
    ensures
        first_problem(problem, from, n) is None <==> forall|i: int|
            from <= i < n ==> #[trigger] problem(i) is None,
    decreases n - from,
{
    if from < n {
        no_problem(problem, from + 1, n);
        if problem(from) is None && first_problem(problem, from + 1, n) is None {
            assert forall|i: int| from <= i < n implies #[trigger] problem(i) is None by {
                if i > from {
                    assert(from + 1 <= i < n);
                }
            }
        }
    }
}

/// Why a configuration is refused.
#[derive(Debug, Clone, PartialEq, Eq)]
pub struct ConfigError {
    /// The reason, as an operator reads it.
    pub message: String,
}

impl ConfigError {
    /// The error with this message.
    pub fn new(message: String) -> (r: Self)
        ensures
            r.message == message,
    {
        ConfigError { message }
    }

    /// The text of the error.
    pub fn to_text(&self) -> (r: String)
        ensures
            r@ == self.message@,
    {
        self.message.clone()
    }
}

/// Whether the outcome of a check is the one that `problem` calls for: success
/// where there is no problem, and otherwise an error with its text.
pub open spec fn reports(outcome: Result<(), ConfigError>, problem: Option<Seq<char>>) -> bool {
    match outcome {
        Ok(_) => problem is None,
        Err(error) => problem == Some(error.message@),
    }
}

} // verus!

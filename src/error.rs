use vstd::prelude::*;

verus! {

/// Failure of an operation against the container runtime.
#[derive(Debug, Clone, PartialEq, Eq)]
pub enum PodmanError {
    /// The runtime ran and exited unsuccessfully; holds its standard-error text.
    Command(String),
    /// The runtime could not be started at all; holds the reason.
    Spawn(String),
}

impl PodmanError {
    /// The text carried by the error, as shown to the user.
    pub fn message(&self) -> (r: String)
        ensures
            r@ == match self {
                PodmanError::Command(t) => t@,
                PodmanError::Spawn(t) => t@,
            },
    {
        match self {
            PodmanError::Command(t) => t.clone(),
            PodmanError::Spawn(t) => t.clone(),
        }
    }
}

} // verus!

//! The execution context: what every handler run is given besides its job.
use vstd::prelude::*;

verus! {

/// The dependencies that handlers share, such as a mail client's handle.
///
/// It is made once, at start-up, and then only read: there is no way to change
/// what it holds. State that changes belongs in an outside resource.
pub struct ExecutionContext<D> {
    dependencies: D,
}

impl<D> View for ExecutionContext<D> {
    type V = D;

    closed spec fn view(&self) -> D {
        self.dependencies
    }
}

impl<D> ExecutionContext<D> {
    /// Wraps the dependencies for sharing.
    pub fn new(dependencies: D) -> (context: Self)
        ensures
            context@ == dependencies,
    {
        ExecutionContext { dependencies }
    }

    /// What was put in when the context was made.
    pub fn dependencies(&self) -> (dependencies: &D)
        ensures
            *dependencies == self@,
    {
        &self.dependencies
    }
}

} // verus!

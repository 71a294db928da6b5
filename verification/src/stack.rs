//! The call stack of active scopes, kept so that the host can see which
//! scope is running; every enter is matched by exactly one exit, on error
//! paths too, and the discipline is proved rather than checked at run time.

use vstd::prelude::*;

verus! {

/// The stack of handles of the scopes whose blocks are running.
#[derive(Debug)]
pub struct ProgramStack {
    pub stack: Vec<usize>,
}

impl ProgramStack {
    pub fn new() -> (r: ProgramStack)
        ensures
            r.stack@ == Seq::<usize>::empty(),
    {
        ProgramStack { stack: Vec::new() }
    }

    pub fn push(&mut self, ctx: usize)
        ensures
            final(self).stack@ == old(self).stack@.push(ctx),
    {
        self.stack.push(ctx);
    }

    /// Pops the top entry: exactly the last one pushed.
    pub fn pop(&mut self) -> (r: Option<usize>)
        ensures
            old(self).stack@.len() == 0 ==> r is None && final(self).stack@ == old(self).stack@,
            old(self).stack@.len() > 0 ==> r == Some(old(self).stack@.last())
                && final(self).stack@ == old(self).stack@.drop_last(),
    {
        self.stack.pop()
    }
}

} // verus!

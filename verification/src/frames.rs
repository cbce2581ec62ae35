//! The call stack of the interpreter.
use vstd::prelude::*;
use crate::function::{frames_of, AmaFunc, Frame};

verus! {

/// The hard ceiling of the recursion depth.
pub const RECURSION_LIMIT: usize = 1000;

/// A call stack of bounded depth.
pub struct FrameStack {
    stack: Vec<AmaFunc>,
}

impl View for FrameStack {
    type V = Seq<Frame>;

    closed spec fn view(&self) -> Seq<Frame> {
        frames_of(self.stack@)
    }
}

impl FrameStack {
    /// The stack never holds more than `RECURSION_LIMIT` frames.
    pub open spec fn wf(&self) -> bool {
        self@.len() <= RECURSION_LIMIT
    }

    /// An empty stack.
    pub fn new() -> (r: FrameStack)
        ensures
            r.wf(),
            r@ == Seq::<Frame>::empty(),
    {
        let r = FrameStack { stack: Vec::new() };
        assert(r@ =~= Seq::<Frame>::empty());
        r
    }

    /// The number of active frames.
    pub fn depth(&self) -> (n: usize)
        requires
            self.wf(),
        ensures
            n == self@.len(),
            n <= RECURSION_LIMIT,
    {
        self.stack.len()
    }

    /// Pushes a frame. Fails, and leaves the stack as it is, exactly when
    /// the stack already holds `RECURSION_LIMIT` frames.
    pub fn push(&mut self, frame: AmaFunc) -> (r: Result<(), ()>)
        requires
            old(self).wf(),
        ensures
            final(self).wf(),
            r is Err <==> old(self)@.len() == RECURSION_LIMIT,
            r is Ok ==> final(self)@ == old(self)@.push(frame@),
            r is Err ==> final(self)@ == old(self)@,
    {
        if self.stack.len() == RECURSION_LIMIT {
            return Err(());
        }
        self.stack.push(frame);
        assert(self@ =~= old(self)@.push(frame@));
        Ok(())
    }

    /// Pops the topmost frame. Fails exactly when the stack is empty.
    pub fn pop(&mut self) -> (r: Result<AmaFunc, ()>)
        requires
            old(self).wf(),
        ensures
            final(self).wf(),
            r is Err <==> old(self)@.len() == 0,
            r matches Ok(top) ==> top@ == old(self)@.last() && final(self)@ == old(
                self,
            )@.drop_last(),
            r is Err ==> final(self)@ == old(self)@,
    {
        match self.stack.pop() {
            Some(top) => {
                assert(self@ =~= old(self)@.drop_last());
                Ok(top)
            },
            None => Err(()),
        }
    }

    /// The frame at a depth, the outermost frame at depth zero.
    pub fn get(&self, i: usize) -> (r: &AmaFunc)
        requires
            i < self@.len(),
        ensures
            r@ == self@[i as int],
    {
        &self.stack[i]
    }

    /// Ends every frame.
    pub fn clear(&mut self)
        ensures
            final(self)@ == Seq::<Frame>::empty(),
    {
        self.stack.clear();
        assert(self@ =~= Seq::<Frame>::empty());
    }

    /// The topmost frame.
    pub fn peek(&self) -> (r: &AmaFunc)
        requires
            self.wf(),
            self@.len() > 0,
        ensures
            r@ == self@.last(),
    {
        &self.stack[self.stack.len() - 1]
    }

    /// The topmost frame, for writing. The frames below it stay as they
    /// are.
    pub fn peek_mut(&mut self) -> (r: &mut AmaFunc)
        requires
            old(self).wf(),
            old(self)@.len() > 0,
        ensures
            r@ == old(self)@.last(),
            final(self).wf(),
            final(self)@ == old(self)@.drop_last().push(final(r)@),
    {
        let n: usize = self.stack.len();
        &mut self.stack[n - 1]
    }
}

} // verus!

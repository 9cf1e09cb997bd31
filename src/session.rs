use vstd::prelude::*;
use crate::paint::{LinePlan, PaintError, PaintOp};

verus! {

/// Replays a [`LinePlan`] against a surface: hands out one call at a time and
/// takes the surface's answer. The first refused call ends the pass with that
/// error; no call after it is handed out.
pub struct PaintSession {
    ops: Vec<PaintOp>,
    end: Result<(), PaintError>,
    next: usize,
    failed: Option<PaintError>,
}

impl PaintSession {
    /// The calls of the plan.
    pub closed spec fn calls(&self) -> Seq<PaintOp> {
        self.ops@
    }

    /// How the plan ends once every call has succeeded.
    pub closed spec fn end(&self) -> Result<(), PaintError> {
        self.end
    }

    /// Number of calls the surface has accepted.
    pub closed spec fn accepted(&self) -> nat {
        self.next as nat
    }

    /// The error of the call the surface refused, if one was.
    pub closed spec fn failure(&self) -> Option<PaintError> {
        self.failed
    }

    pub closed spec fn wf(&self) -> bool {
        self.next <= self.ops@.len()
    }

    /// The call to make now, if the pass goes on.
    pub open spec fn pending(&self) -> Option<PaintOp> {
        if self.failure() is None && self.accepted() < self.calls().len() {
            Some(self.calls()[self.accepted() as int])
        } else {
            None
        }
    }

    /// The result of the pass, once it is over.
    pub open spec fn result(&self) -> Option<Result<(), PaintError>> {
        match self.failure() {
            Some(e) => Some(Err(e)),
            None => if self.accepted() == self.calls().len() {
                Some(self.end())
            } else {
                None
            },
        }
    }

    /// A refused call ends the pass: once the surface has refused a call with
    /// `e`, no further call is handed out and the pass fails with `e`.
    pub proof fn lemma_refusal_ends(&self, e: PaintError)
        requires
            self.failure() == Some(e),
        ensures
            self.pending() is None,
            self.result() == Some(Err::<(), PaintError>(e)),
    {
    }

    /// While no call has been refused, the calls are handed out in the plan's
    /// order: the next one is the first that has not been accepted.
    pub proof fn lemma_calls_in_order(&self)
        requires
            self.wf(),
            self.failure() is None,
            self.accepted() < self.calls().len(),
        ensures
            self.pending() == Some(self.calls()[self.accepted() as int]),
            self.result() is None,
    {
    }

    pub fn new(plan: LinePlan) -> (r: Self)
        ensures
            r.wf(),
            r.calls() == plan.ops@,
            r.end() == plan.outcome,
            r.accepted() == 0,
            r.failure() is None,
    {
        PaintSession { ops: plan.ops, end: plan.outcome, next: 0, failed: None }
    }

    /// The call the surface is to make now; `None` once the pass is over.
    pub fn next_call(&self) -> (r: Option<PaintOp>)
        requires
            self.wf(),
        ensures
            r == self.pending(),
    {
        if self.failed.is_none() && self.next < self.ops.len() {
            Some(self.ops[self.next])
        } else {
            None
        }
    }

    /// Records the surface's answer to the pending call. With no call
    /// pending the session is left as it is.
    pub fn report(&mut self, answer: Result<(), PaintError>)
        requires
            old(self).wf(),
        ensures
            final(self).wf(),
            final(self).calls() == old(self).calls(),
            final(self).end() == old(self).end(),
            old(self).pending() is None ==> *final(self) == *old(self),
            old(self).pending() is Some ==> match answer {
                Ok(()) => final(self).accepted() == old(self).accepted() + 1
                    && final(self).failure() is None,
                Err(e) => final(self).accepted() == old(self).accepted()
                    && final(self).failure() == Some(e),
            },
    {
        if self.failed.is_none() && self.next < self.ops.len() {
            match answer {
                Ok(()) => {
                    self.next = self.next + 1;
                },
                Err(e) => {
                    self.failed = Some(e);
                },
            }
        }
    }

    /// The result of the pass: `None` while calls remain.
    pub fn outcome(&self) -> (r: Option<Result<(), PaintError>>)
        requires
            self.wf(),
        ensures
            r == self.result(),
    {
        match self.failed {
            Some(e) => Some(Err(e)),
            None => if self.next == self.ops.len() {
                Some(self.end)
            } else {
                None
            },
        }
    }
}

} // verus!

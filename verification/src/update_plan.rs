use vstd::prelude::*;
use crate::error::XDPError;
use crate::result::XDPResult;

verus! {

/// What an update of many elements needs next from its caller.
#[derive(Copy, Clone, Debug, PartialEq, Eq, Structural)]
pub enum UpdateStep {
    /// The update of the element at this index, by itself.
    One(usize),
    /// The update of all the elements in one call.
    Bulk,
    /// Nothing: the update is over.
    Done,
}

/// What the caller found when it did what the plan asked for.
pub enum UpdateEvent {
    /// The answer to `UpdateStep::One`.
    One(XDPResult<()>),
    /// The answer to `UpdateStep::Bulk`: how many elements the kernel took.
    Bulk(XDPResult<u32>),
}

/// An update of many elements. Where the kernel knows the batch calls it is
/// one call for all of them; where it does not, it is one call for each, in
/// their order, up to the first that fails.
pub struct UpdatePlan {
    step: UpdateStep,
    len: usize,
    applied: u32,
    error: Option<XDPError>,
}

/// The state of a plan: what it asks for, the number of elements, the count
/// that it reports if nothing fails, and the error that stopped it.
pub struct PlanView {
    pub step: UpdateStep,
    pub len: nat,
    pub applied: u32,
    pub error: Option<XDPError>,
}

impl PlanView {
    /// A plan that updates `len` elements one by one.
    pub open spec fn one_by_one(len: usize) -> Self {
        PlanView {
            step: if len == 0 {
                UpdateStep::Done
            } else {
                UpdateStep::One(0)
            },
            len: len as nat,
            applied: len as u32,
            error: None,
        }
    }

    /// A plan that updates `len` elements in one call.
    pub open spec fn bulk(len: usize) -> Self {
        PlanView { step: UpdateStep::Bulk, len: len as nat, applied: len as u32, error: None }
    }

    /// The plan after `event`. An event that does not answer what the plan
    /// asked for leaves it as it is.
    pub open spec fn advanced(self, event: UpdateEvent) -> Self {
        match (self.step, event) {
            (UpdateStep::One(i), UpdateEvent::One(Ok(_))) => PlanView {
                step: if i + 1 < self.len {
                    UpdateStep::One((i + 1) as usize)
                } else {
                    UpdateStep::Done
                },
                ..self
            },
            (UpdateStep::One(_), UpdateEvent::One(Err(e))) => PlanView {
                step: UpdateStep::Done,
                error: Some(e),
                ..self
            },
            (UpdateStep::Bulk, UpdateEvent::Bulk(Ok(count))) => PlanView {
                step: UpdateStep::Done,
                applied: count,
                ..self
            },
            (UpdateStep::Bulk, UpdateEvent::Bulk(Err(e))) => PlanView {
                step: UpdateStep::Done,
                error: Some(e),
                ..self
            },
            _ => self,
        }
    }

    /// What the plan reports: the error that stopped it, else the count.
    pub open spec fn outcome(self) -> XDPResult<u32> {
        match self.error {
            Some(e) => Err(e),
            None => Ok(self.applied),
        }
    }

}

impl UpdatePlan {
    /// A plan asks for no element but those that are there.
    #[verifier::type_invariant]
    spec fn asks_within(self) -> bool {
        self.step matches UpdateStep::One(i) ==> i < self.len
    }
}

impl View for UpdatePlan {
    type V = PlanView;

    closed spec fn view(&self) -> PlanView {
        PlanView {
            step: self.step,
            len: self.len as nat,
            applied: self.applied,
            error: self.error,
        }
    }
}

impl UpdatePlan {
    /// A plan that updates `len` elements one by one. If none fails it
    /// reports `len`, cut down to 32 bits.
    pub fn one_by_one(len: usize) -> (plan: Self)
        ensures
            plan@ == PlanView::one_by_one(len),
    {
        UpdatePlan {
            step: if len == 0 {
                UpdateStep::Done
            } else {
                UpdateStep::One(0)
            },
            len,
            applied: #[verifier::truncate]
            (len as u32),
            error: None,
        }
    }

    /// A plan that updates `len` elements in one call. It reports the count
    /// that the kernel reports.
    pub fn bulk(len: usize) -> (plan: Self)
        ensures
            plan@ == PlanView::bulk(len),
    {
        UpdatePlan {
            step: UpdateStep::Bulk,
            len,
            applied: #[verifier::truncate]
            (len as u32),
            error: None,
        }
    }

    /// What the plan needs next. An element that it asks for is one of the
    /// elements of the plan.
    pub fn step(&self) -> (step: UpdateStep)
        ensures
            step == self@.step,
            step matches UpdateStep::One(i) ==> i < self@.len,
    {
        proof {
            use_type_invariant(self);
        }
        self.step
    }

    /// Takes the answer to what the plan asked for.
    pub fn advance(&mut self, event: UpdateEvent)
        ensures
            final(self)@ == old(self)@.advanced(event),
    {
        proof {
            use_type_invariant(&*self);
        }
        match event {
            UpdateEvent::One(updated) => {
                if let UpdateStep::One(i) = self.step {
                    match updated {
                        Ok(_) => {
                            if i < usize::MAX && i + 1 < self.len {
                                self.step = UpdateStep::One(i + 1);
                            } else {
                                self.step = UpdateStep::Done;
                            }
                        },
                        Err(e) => {
                            self.error = Some(e);
                            self.step = UpdateStep::Done;
                        },
                    }
                }
            },
            UpdateEvent::Bulk(updated) => {
                if let UpdateStep::Bulk = self.step {
                    match updated {
                        Ok(count) => {
                            self.applied = count;
                            self.step = UpdateStep::Done;
                        },
                        Err(e) => {
                            self.error = Some(e);
                            self.step = UpdateStep::Done;
                        },
                    }
                }
            },
        }
    }

    /// Ends the plan: the error that stopped it, else the number of elements
    /// that were updated.
    pub fn finish(self) -> (r: XDPResult<u32>)
        ensures
            r == self@.outcome(),
    {
        match self.error {
            Some(e) => Err(e),
            None => Ok(self.applied),
        }
    }
}

/// The plan as it ends when every step it asks for is answered by `kernel`,
/// for at most `fuel` steps.
pub open spec fn run_plan(plan: PlanView, kernel: spec_fn(UpdateStep) -> UpdateEvent, fuel: nat)
    -> PlanView
    decreases fuel,
{
    if fuel == 0 || plan.step is Done {
        plan
    } else {
        run_plan(plan.advanced(kernel(plan.step)), kernel, (fuel - 1) as nat)
    }
}

/// A plan that goes one by one and has updated the first `i` elements.
pub open spec fn one_by_one_after(len: usize, i: int) -> PlanView {
    PlanView {
        step: if i < len {
            UpdateStep::One(i as usize)
        } else {
            UpdateStep::Done
        },
        len: len as nat,
        applied: len as u32,
        error: None,
    }
}

/// Without the batch calls every element is still updated: a plan that goes
/// one by one over `len` elements, none of which fails, asks for the elements
/// 0, 1, 2, ... in that order, each once, and ends after the last with
/// the count `len`.
pub proof fn lemma_one_by_one_updates_all(
    len: usize,
    kernel: spec_fn(UpdateStep) -> UpdateEvent,
    i: nat,
)
    requires
        forall|j: usize| j < len ==> #[trigger] kernel(UpdateStep::One(j)) == UpdateEvent::One(Ok(())),
        i <= len,
    ensures
        run_plan(PlanView::one_by_one(len), kernel, i) == one_by_one_after(len, i as int),
        run_plan(PlanView::one_by_one(len), kernel, len as nat).outcome() == Ok::<u32, XDPError>(
            len as u32,
        ),
{
    lemma_one_by_one_from(len, kernel, 0, i);
    lemma_one_by_one_from(len, kernel, 0, len as nat);
    assert(PlanView::one_by_one(len) == one_by_one_after(len, 0));
}

proof fn lemma_one_by_one_from(
    len: usize,
    kernel: spec_fn(UpdateStep) -> UpdateEvent,
    done: nat,
    more: nat,
)
    requires
        forall|j: usize| j < len ==> #[trigger] kernel(UpdateStep::One(j)) == UpdateEvent::One(Ok(())),
        done + more <= len,
    ensures
        run_plan(one_by_one_after(len, done as int), kernel, more) == one_by_one_after(
            len,
            (done + more) as int,
        ),
    decreases more,
{
    if more > 0 {
        let here = one_by_one_after(len, done as int);
        assert(kernel(UpdateStep::One(done as usize)) == UpdateEvent::One(Ok(())));
        assert(here.advanced(kernel(here.step)) == one_by_one_after(len, (done + 1) as int));
        lemma_one_by_one_from(len, kernel, done + 1, (more - 1) as nat);
    }
}

/// A plan that goes one by one stops at the first element that fails and
/// reports that failure: the elements after it are not asked for.
pub proof fn lemma_one_by_one_stops_at_failure(
    len: usize,
    kernel: spec_fn(UpdateStep) -> UpdateEvent,
    first: usize,
    e: XDPError,
    fuel: nat,
)
    requires
        first < len,
        forall|j: usize| j < first ==> #[trigger] kernel(UpdateStep::One(j)) == UpdateEvent::One(Ok(())),
        kernel(UpdateStep::One(first)) == UpdateEvent::One(Err(e)),
        fuel > first,
    ensures
        run_plan(PlanView::one_by_one(len), kernel, first as nat).step == UpdateStep::One(first),
        run_plan(PlanView::one_by_one(len), kernel, fuel).step is Done,
        run_plan(PlanView::one_by_one(len), kernel, fuel).outcome() == Err::<u32, XDPError>(e),
{
    assert(PlanView::one_by_one(len) == one_by_one_after(len, 0));
    lemma_one_by_one_until(len, kernel, first, e, 0, first as nat);
    lemma_one_by_one_until(len, kernel, first, e, 0, fuel);
}

proof fn lemma_one_by_one_until(
    len: usize,
    kernel: spec_fn(UpdateStep) -> UpdateEvent,
    first: usize,
    e: XDPError,
    done: nat,
    fuel: nat,
)
    requires
        first < len,
        forall|j: usize| j < first ==> #[trigger] kernel(UpdateStep::One(j)) == UpdateEvent::One(Ok(())),
        kernel(UpdateStep::One(first)) == UpdateEvent::One(Err(e)),
        done <= first,
    ensures
        done + fuel <= first ==> run_plan(one_by_one_after(len, done as int), kernel, fuel)
            == one_by_one_after(len, (done + fuel) as int),
        done + fuel > first ==> run_plan(one_by_one_after(len, done as int), kernel, fuel) == (
        PlanView {
            step: UpdateStep::Done,
            len: len as nat,
            applied: len as u32,
            error: Some(e),
        }),
    decreases fuel,
{
    if fuel > 0 {
        let here = one_by_one_after(len, done as int);
        let next = here.advanced(kernel(here.step));
        if done < first {
            assert(kernel(UpdateStep::One(done as usize)) == UpdateEvent::One(Ok(())));
            assert(next == one_by_one_after(len, (done + 1) as int));
            lemma_one_by_one_until(len, kernel, first, e, done + 1, (fuel - 1) as nat);
        } else {
            assert(next.step is Done);
            assert(run_plan(next, kernel, (fuel - 1) as nat) == next);
        }
    }
}

} // verus!

//! Combinations of things that are polled until they are ready.

use vstd::prelude::*;

verus! {

/// What a poll comes to.
#[derive(Debug)]
pub enum PollState<R> {
    Ready(R),
    Pending,
}

/// Something that is polled until it is ready.
pub trait Pollable: Sized {
    type Output;

    /// Whether a poll can take the thing from one state to another with this
    /// outcome.
    spec fn polled(before: Self, after: Self, outcome: PollState<Self::Output>) -> bool;

    fn poll(&mut self) -> (outcome: PollState<Self::Output>)
        ensures
            Self::polled(*old(self), *final(self), outcome),
    ;
}

/// The first of two that is ready.
pub struct Or<A, B> {
    pub a: A,
    pub b: B,
}

impl<R, A: Pollable<Output = R>, B: Pollable<Output = R>> Pollable for Or<A, B> {
    type Output = R;

    /// The second one is polled only where the first is not ready.
    open spec fn polled(before: Self, after: Self, outcome: PollState<R>) -> bool {
        ||| outcome is Ready && A::polled(before.a, after.a, outcome) && after.b == before.b
        ||| A::polled(before.a, after.a, PollState::Pending) && B::polled(
            before.b,
            after.b,
            outcome,
        )
    }

    fn poll(&mut self) -> (outcome: PollState<R>) {
        match self.a.poll() {
            PollState::Ready(value) => PollState::Ready(value),
            PollState::Pending => self.b.poll(),
        }
    }
}

/// Puts two things together.
pub trait OrExt: Pollable {
    fn or<B: Pollable<Output = Self::Output>>(self, other: B) -> (both: Or<Self, B>)
        ensures
            both.a == self,
            both.b == other,
    ;
}

impl<F: Pollable> OrExt for F {
    fn or<B: Pollable<Output = F::Output>>(self, other: B) -> (both: Or<F, B>) {
        Or { a: self, b: other }
    }
}

/// The first of many that is ready.
pub struct OrMany<F> {
    futures: Vec<F>,
}

/// Whether the first things were polled and none of them was ready.
pub open spec fn all_pending<F: Pollable>(before: Seq<F>, after: Seq<F>, count: int) -> bool {
    forall|i: int|
        #![trigger after[i]]
        0 <= i < count ==> F::polled(before[i], after[i], PollState::Pending)
}

/// Whether the things behind a position were not polled.
pub open spec fn untouched<F>(before: Seq<F>, after: Seq<F>, from: int) -> bool {
    forall|i: int| #![trigger after[i]] from <= i < before.len() ==> after[i] == before[i]
}

/// What polling things in order until one is ready does.
pub open spec fn many_polled<F: Pollable>(
    before: Seq<F>,
    after: Seq<F>,
    outcome: PollState<F::Output>,
) -> bool {
    &&& after.len() == before.len()
    &&& match outcome {
        PollState::Pending => all_pending(before, after, before.len() as int),
        PollState::Ready(_) => exists|at: int|
            #![trigger after[at]]
            0 <= at < before.len() && all_pending(before, after, at) && F::polled(
                before[at],
                after[at],
                outcome,
            ) && untouched(before, after, at + 1),
    }
}

impl<F: Pollable> OrMany<F> {
    pub closed spec fn parts(&self) -> Seq<F> {
        self.futures@
    }

    pub fn new() -> (many: Self)
        ensures
            many.parts() == Seq::<F>::empty(),
    {
        OrMany { futures: Vec::new() }
    }

    pub fn push(&mut self, future: F)
        ensures
            final(self).parts() == old(self).parts().push(future),
    {
        self.futures.push(future);
    }
}

impl<F: Pollable> Pollable for OrMany<F> {
    type Output = F::Output;

    open spec fn polled(before: Self, after: Self, outcome: PollState<F::Output>) -> bool {
        many_polled(before.parts(), after.parts(), outcome)
    }

    fn poll(&mut self) -> (outcome: PollState<F::Output>) {
        let mut i: usize = 0;
        while i < self.futures.len()
            invariant
                i <= self.parts().len(),
                self.parts().len() == old(self).parts().len(),
                all_pending(old(self).parts(), self.parts(), i as int),
                untouched(old(self).parts(), self.parts(), i as int),
            decreases self.parts().len() - i,
        {
            assert(self.parts()[i as int] == old(self).parts()[i as int]);
            let ghost earlier = self.parts();
            match self.futures[i].poll() {
                PollState::Ready(value) => {
                    proof {
                        let after = self.parts();
                        assert(all_pending(old(self).parts(), after, i as int)) by {
                            assert forall|j: int| #![trigger after[j]] 0 <= j < i implies F::polled(
                                old(self).parts()[j],
                                after[j],
                                PollState::Pending,
                            ) by {
                                assert(after[j] == earlier[j]);
                            }
                        }
                        assert(untouched(old(self).parts(), after, i + 1)) by {
                            assert forall|j: int|
                                #![trigger after[j]]
                                i + 1 <= j < after.len() implies after[j]
                                == old(self).parts()[j] by {
                                assert(after[j] == earlier[j]);
                            }
                        }
                        assert(F::polled(
                            old(self).parts()[i as int],
                            after[i as int],
                            PollState::Ready(value),
                        ));
                    }
                    return PollState::Ready(value);
                },
                PollState::Pending => {
                    proof {
                        let after = self.parts();
                        assert forall|j: int| #![trigger after[j]] 0 <= j < i + 1 implies F::polled(
                            old(self).parts()[j],
                            after[j],
                            PollState::Pending,
                        ) by {
                            if j < i {
                                assert(after[j] == earlier[j]);
                            }
                        }
                        assert forall|j: int|
                            #![trigger after[j]]
                            i + 1 <= j < after.len() implies after[j] == old(self).parts()[j] by {
                            assert(after[j] == earlier[j]);
                        }
                    }
                },
            }
            i = i + 1;
        }
        PollState::Pending
    }
}

/// Puts many things together.
pub trait OrManyExt: Pollable {
    fn or_many(self, others: Vec<Self>) -> (many: OrMany<Self>)
        ensures
            many.parts() == seq![self] + others@,
    ;
}

impl<F: Pollable> OrManyExt for F {
    fn or_many(self, others: Vec<F>) -> (many: OrMany<F>) {
        let mut many = OrMany::new();
        many.push(self);
        let ghost listed = others@;
        assert(many.parts() =~= seq![self] + listed.take(0));
        for other in iter: others
            invariant
                iter.seq() == listed,
                many.parts() == seq![self] + listed.take(iter.index()),
        {
            many.push(other);
            assert(many.parts() =~= seq![self] + listed.take(iter.index() + 1));
        }
        assert(listed.take(listed.len() as int) =~= listed);
        many
    }
}

/// Something with a limit on how long it is waited for.
pub struct Timeout<F, S> {
    pub future: F,
    pub sleep: S,
}

impl<F: Pollable, S: Pollable<Output = ()>> Pollable for Timeout<F, S> {
    type Output = Option<F::Output>;

    /// The limit counts only where the thing itself is not ready.
    open spec fn polled(before: Self, after: Self, outcome: PollState<Option<F::Output>>) -> bool {
        match outcome {
            PollState::Ready(Some(value)) => F::polled(
                before.future,
                after.future,
                PollState::Ready(value),
            ) && after.sleep == before.sleep,
            PollState::Ready(None) => F::polled(before.future, after.future, PollState::Pending)
                && S::polled(before.sleep, after.sleep, PollState::Ready(())),
            PollState::Pending => F::polled(before.future, after.future, PollState::Pending)
                && S::polled(before.sleep, after.sleep, PollState::Pending),
        }
    }

    fn poll(&mut self) -> (outcome: PollState<Option<F::Output>>) {
        if let PollState::Ready(value) = self.future.poll() {
            return PollState::Ready(Some(value));
        }
        match self.sleep.poll() {
            PollState::Ready(over) => {
                assert(over == ());
                PollState::Ready(None)
            },
            PollState::Pending => PollState::Pending,
        }
    }
}

} // verus!

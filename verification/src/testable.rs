//! The property adapter: predicates of any fixed arity presented to the
//! runner through one invocation contract.
//!
//! The runner only ever calls [`Testable::apply`] and inspects the returned
//! [`Outcome`]; how many arguments the predicate takes, and how they are
//! generated, is the adapter's business alone.

use core::marker::PhantomData;

use vstd::prelude::*;

use crate::arbitrary::Arbitrary;
use crate::outcome::{Outcome, fail_size, fail_text, is_pass};

verus! {

/// Something the runner can try: one `apply` generates fresh arguments,
/// invokes the predicate on them, and classifies the boolean result.
pub trait Testable {
    /// The adapter may invoke its predicate on whatever the generation
    /// strategy produces.
    spec fn wf(&self) -> bool;

    /// The predicate can only return true on generated arguments.
    spec fn must_pass(&self) -> bool;

    /// The predicate can only return false on generated arguments.
    spec fn must_fail(&self) -> bool;

    /// What one trial may report: a failure is genuine, carries the combined
    /// size of its arguments, and renders them.
    spec fn outcome_ok(&self, o: Outcome) -> bool;

    /// Run one trial: generate, invoke, classify.
    fn apply(&self) -> (r: Outcome)
        requires
            self.wf(),
        ensures
            self.outcome_ok(r),
            self.must_pass() ==> is_pass(r),
            self.must_fail() ==> !is_pass(r),
    ;
}

/// A one-argument predicate together with the generation of its argument.
pub struct Prop1<T, F> {
    pub f: F,
    pub marker: PhantomData<T>,
}

/// A failure outcome reports a generated argument on which the predicate can
/// return false, its size, and its rendering.
pub open spec fn failure_reports_witness1<T: Arbitrary, F: Fn(&T) -> bool>(
    f: F,
    o: Outcome,
) -> bool {
    exists|t: T|
        #![trigger call_ensures(f, (&t,), false)]
        t.can_generate() && fail_size(o) == t.size_spec() && fail_text(o) == t.render_spec()
            && call_ensures(f, (&t,), false)
}

impl<T: Arbitrary, F: Fn(&T) -> bool> Prop1<T, F> {
    /// Wrap a one-argument predicate for the runner.
    pub fn new(f: F) -> (r: Self)
        ensures
            r.f == f,
    {
        Prop1 { f, marker: PhantomData }
    }
}

impl<T: Arbitrary, F: Fn(&T) -> bool> Testable for Prop1<T, F> {
    open spec fn wf(&self) -> bool {
        forall|t: &T| call_requires(self.f, (t,))
    }

    open spec fn must_pass(&self) -> bool {
        forall|t: &T, b: bool| t.can_generate() && #[trigger] call_ensures(self.f, (t,), b) ==> b
    }

    open spec fn must_fail(&self) -> bool {
        forall|t: &T, b: bool| t.can_generate() && #[trigger] call_ensures(self.f, (t,), b) ==> !b
    }

    open spec fn outcome_ok(&self, o: Outcome) -> bool {
        !is_pass(o) ==> failure_reports_witness1(self.f, o)
    }

    fn apply(&self) -> (r: Outcome) {
        let t = T::gen();
        if (self.f)(&t) {
            Outcome::Pass
        } else {
            let size = t.size();
            let rendering = t.render();
            let o = Outcome::Failure(size, rendering);
            proof {
                assert(call_ensures(self.f, (&t,), false));
                assert(failure_reports_witness1(self.f, o));
            }
            o
        }
    }
}

/// A two-argument predicate together with the generation of its arguments.
pub struct Prop2<T, U, F> {
    pub f: F,
    pub marker: PhantomData<(T, U)>,
}

/// The combined size of two arguments: the sum of their sizes, saturating at
/// the largest machine word.
pub open spec fn sum_size(a: nat, b: nat) -> nat {
    if a + b > usize::MAX as nat {
        usize::MAX as nat
    } else {
        a + b
    }
}

/// A failure outcome reports a generated pair of arguments on which the
/// predicate can return false; its size is the sum of the two argument
/// sizes, and its rendering shows both arguments, left to right.
pub open spec fn failure_reports_witness2<T: Arbitrary, U: Arbitrary, F: Fn(&T, &U) -> bool>(
    f: F,
    o: Outcome,
) -> bool {
    exists|t: T, u: U|
        #![trigger call_ensures(f, (&t, &u), false)]
        t.can_generate() && u.can_generate() && fail_size(o) == sum_size(
            t.size_spec(),
            u.size_spec(),
        ) && fail_text(o) == t.render_spec() + ", "@ + u.render_spec() && call_ensures(
            f,
            (&t, &u),
            false,
        )
}

impl<T: Arbitrary, U: Arbitrary, F: Fn(&T, &U) -> bool> Prop2<T, U, F> {
    /// Wrap a two-argument predicate for the runner.
    pub fn new(f: F) -> (r: Self)
        ensures
            r.f == f,
    {
        Prop2 { f, marker: PhantomData }
    }
}

impl<T: Arbitrary, U: Arbitrary, F: Fn(&T, &U) -> bool> Testable for Prop2<T, U, F> {
    open spec fn wf(&self) -> bool {
        forall|t: &T, u: &U| call_requires(self.f, (t, u))
    }

    open spec fn must_pass(&self) -> bool {
        forall|t: &T, u: &U, b: bool|
            t.can_generate() && u.can_generate() && #[trigger] call_ensures(self.f, (t, u), b) ==> b
    }

    open spec fn must_fail(&self) -> bool {
        forall|t: &T, u: &U, b: bool|
            t.can_generate() && u.can_generate() && #[trigger] call_ensures(self.f, (t, u), b)
                ==> !b
    }

    open spec fn outcome_ok(&self, o: Outcome) -> bool {
        !is_pass(o) ==> failure_reports_witness2(self.f, o)
    }

    fn apply(&self) -> (r: Outcome) {
        let t = T::gen();
        let u = U::gen();
        if (self.f)(&t, &u) {
            Outcome::Pass
        } else {
            let s1 = t.size();
            let s2 = u.size();
            let size = if s1 <= usize::MAX - s2 {
                s1 + s2
            } else {
                usize::MAX
            };
            assert(size as nat == sum_size(t.size_spec(), u.size_spec()));
            let mut rendering_chars: Vec<char> = Vec::new();
            let ts = t.render();
            crate::text::push_str_chars(&mut rendering_chars, ts.as_str());
            crate::text::push_str_chars(&mut rendering_chars, ", ");
            let us = u.render();
            crate::text::push_str_chars(&mut rendering_chars, us.as_str());
            let rendering = crate::text::chars_to_string(&rendering_chars);
            let o = Outcome::Failure(size, rendering);
            proof {
                assert(rendering@ =~= t.render_spec() + ", "@ + u.render_spec());
                assert(call_ensures(self.f, (&t, &u), false));
                assert(failure_reports_witness2(self.f, o));
            }
            o
        }
    }
}

} // verus!

//! The generation strategy: types that can produce random instances of
//! themselves, report a size for any instance, and render an instance.

use vstd::prelude::*;

use crate::text::{dec_spec, dec_string, join_comma, push_dec, push_str_chars, chars_to_string};

verus! {

/// Relies on rand::random: one draw from the process-global random source.
/// Nothing is assumed about which value comes back.
#[verifier::external_body]
fn random_u64() -> u64 {
    rand::random()
}

/// The capability of a type to produce random instances of itself, to report
/// a non-negative size for any instance, and to render an instance as text.
///
/// The size is a pure function of the value's content, used only to rank
/// already-collected failures; it never guides generation.
pub trait Arbitrary: Sized {
    /// The size of a value: a proxy for its structural complexity.
    ///
    /// The default stands in for implementations written outside verified
    /// code, which cannot state their own; verified implementations
    /// override it.
    open spec fn size_spec(&self) -> nat {
        0
    }

    /// The values that generation may produce.  The default, like the one of
    /// [`Self::size_spec`], only stands in for unverified implementations.
    open spec fn can_generate(&self) -> bool {
        true
    }

    /// The textual rendering of a value.  The default, like the one of
    /// [`Self::size_spec`], only stands in for unverified implementations.
    open spec fn render_spec(&self) -> Seq<char> {
        Seq::empty()
    }

    /// Produce one fresh random value.  Generation never fails.
    fn gen() -> (r: Self)
        ensures
            r.can_generate(),
    ;

    /// The size of this value.
    fn size(&self) -> (r: usize)
        ensures
            r as nat == self.size_spec(),
    ;

    /// Render this value as text.
    fn render(&self) -> (r: String)
        ensures
            r@ == self.render_spec(),
    ;
}

/// Calling the size function twice on the same value yields the same result.
pub fn size_idempotent<T: Arbitrary>(v: &T) -> (r: bool)
    ensures
        r,
{
    let first = v.size();
    let second = v.size();
    first == second
}

impl Arbitrary for usize {
    open spec fn size_spec(&self) -> nat {
        *self as nat
    }

    open spec fn can_generate(&self) -> bool {
        *self < 1024
    }

    open spec fn render_spec(&self) -> Seq<char> {
        dec_spec(*self as nat)
    }

    /// Draws a raw random value and reduces it modulo 1024.
    fn gen() -> (r: Self) {
        let raw = random_u64();
        (raw % 1024) as usize
    }

    fn size(&self) -> (r: usize) {
        *self
    }

    fn render(&self) -> (r: String) {
        dec_string(*self)
    }
}

impl Arbitrary for isize {
    open spec fn size_spec(&self) -> nat {
        if *self >= 0 {
            *self as nat
        } else {
            (-(*self as int)) as nat
        }
    }

    open spec fn can_generate(&self) -> bool {
        -1023 <= *self <= 1023
    }

    open spec fn render_spec(&self) -> Seq<char> {
        if *self < 0 {
            seq!['-'] + dec_spec((-(*self as int)) as nat)
        } else {
            dec_spec(*self as nat)
        }
    }

    /// Draws a raw random value and reduces it to a remainder of magnitude at
    /// most 1023, which may be negative.
    fn gen() -> (r: Self) {
        let raw = random_u64();
        let m = (raw % 2047) as isize;
        m - 1023
    }

    fn size(&self) -> (r: usize) {
        if *self >= 0 {
            *self as usize
        } else {
            let m = -(*self + 1);
            (m as usize) + 1
        }
    }

    fn render(&self) -> (r: String) {
        let mut cs: Vec<char> = Vec::new();
        if *self < 0 {
            cs.push('-');
        }
        let magnitude = self.size();
        push_dec(&mut cs, magnitude);
        proof {
            if *self < 0 {
                assert(cs@ =~= seq!['-'] + dec_spec((-(*self as int)) as nat));
            } else {
                assert(cs@ =~= dec_spec(*self as nat));
            }
        }
        chars_to_string(&cs)
    }
}

impl<T: Arbitrary> Arbitrary for Vec<T> {
    /// The size of a sequence is its element count, a deliberately shallow
    /// metric; a deeper aggregate is left to user-supplied implementations.
    open spec fn size_spec(&self) -> nat {
        self@.len()
    }

    open spec fn can_generate(&self) -> bool {
        &&& self@.len() < 100
        &&& forall|i: int| 0 <= i < self@.len() ==> #[trigger] self@[i].can_generate()
    }

    open spec fn render_spec(&self) -> Seq<char> {
        seq!['['] + join_comma(self@.map_values(|t: T| t.render_spec())) + seq![']']
    }

    /// Draws a raw random length selector, reduces it modulo 100, and
    /// generates that many elements independently, in order.
    fn gen() -> (r: Self) {
        let raw = random_u64();
        let n = (raw % 100) as usize;
        let mut v: Vec<T> = Vec::new();
        while v.len() < n
            invariant
                v@.len() <= n,
                n < 100,
                forall|i: int| 0 <= i < v@.len() ==> #[trigger] v@[i].can_generate(),
            decreases n - v@.len(),
        {
            v.push(T::gen());
        }
        v
    }

    fn size(&self) -> (r: usize) {
        self.len()
    }

    fn render(&self) -> (r: String) {
        let ghost parts: Seq<Seq<char>> = self@.map_values(|t: T| t.render_spec());
        let mut cs: Vec<char> = Vec::new();
        cs.push('[');
        let mut i: usize = 0;
        while i < self.len()
            invariant
                i <= self@.len(),
                parts == self@.map_values(|t: T| t.render_spec()),
                cs@ == seq!['['] + join_comma(parts.take(i as int)),
            decreases self@.len() - i,
        {
            if i > 0 {
                push_str_chars(&mut cs, ", ");
            }
            let es = self[i].render();
            push_str_chars(&mut cs, es.as_str());
            proof {
                assert(parts.take(i + 1 as int).drop_last() =~= parts.take(i as int));
                assert(parts.take(i + 1 as int).last() == parts[i as int]);
                assert(parts[i as int] == self@[i as int].render_spec());
                if i == 0 {
                    assert(join_comma(parts.take(1)) == parts[0]);
                    assert(cs@ =~= seq!['['] + join_comma(parts.take(1)));
                } else {
                    assert(join_comma(parts.take(i + 1 as int)) == join_comma(parts.take(i as int))
                        + ", "@ + parts[i as int]);
                    assert(cs@ =~= seq!['['] + join_comma(parts.take(i + 1 as int)));
                }
            }
            i += 1;
        }
        cs.push(']');
        proof {
            assert(parts.take(self@.len() as int) =~= parts);
            assert(cs@ =~= seq!['['] + join_comma(parts) + seq![']']);
        }
        chars_to_string(&cs)
    }
}

} // verus!

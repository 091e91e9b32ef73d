use quickcheck::{quick_check_silent, Arbitrary, Prop1, Prop2};

fn reverse<A: Clone>(v: &Vec<A>) -> Vec<A> {
    // intentionally buggy - should prepend, but appends
    let mut newvec = Vec::new();
    for e in v.iter() {
        newvec.push(e.clone());
    }
    newvec
}

fn prop_reverse_reverse_uints(v: &Vec<usize>) -> bool {
    reverse(&reverse(v)) == *v
}

fn prop_reverse_moves_first_to_last(v: &Vec<usize>) -> bool {
    if v.len() > 0 {
        reverse(v)[v.len() - 1] == v[0]
    } else {
        true // trivially
    }
}

#[test]
fn lib_reverse_uint_vecs() {
    assert!(quick_check_silent(
        "reversing a list twice yields the same list",
        Prop1::new(prop_reverse_reverse_uints)
    ));
    assert!(!quick_check_silent(
        "reversing a list moves first to last",
        Prop1::new(prop_reverse_moves_first_to_last)
    ));
}

#[derive(Clone, PartialEq)]
struct Foo {
    n: usize,
    xs: Vec<isize>,
}

impl Arbitrary for Foo {
    fn gen() -> Foo {
        Foo { n: Arbitrary::gen(), xs: Arbitrary::gen() }
    }

    fn size(&self) -> usize {
        self.xs.len()
    }

    fn render(&self) -> String {
        format!("Foo {{ n: {}, xs: {} }}", self.n, self.xs.render())
    }
}

fn add_foos(a1: &Foo, a2: &Foo) -> Foo {
    let mut new_xs = Vec::new();
    new_xs.extend(a1.xs.iter().cloned());
    new_xs.extend(a2.xs.iter().cloned());
    Foo { n: a1.n + a2.n, xs: new_xs }
}

// this is obviously not true
fn prop_add_foos_commutes(a1: &Foo, a2: &Foo) -> bool {
    add_foos(a1, a2) == add_foos(a2, a1)
}

fn prop_add_zero_foo_identity(a: &Foo) -> bool {
    add_foos(a, &Foo { n: 0, xs: Vec::new() }) == *a
}

#[test]
fn lib_struct_gen() {
    assert!(!quick_check_silent("add_foos is commutative", Prop2::new(prop_add_foos_commutes)));
    assert!(quick_check_silent(
        "add_foos with a zero Foo is an identity",
        Prop1::new(prop_add_zero_foo_identity)
    ));
}

use quickcheck::{
    quick_check2, quick_check_silent, rank_indices, report_lines, result_str, run_trials,
    size_idempotent, verdict_of, Arbitrary, Outcome, Prop1, Prop2,
};

#[test]
fn unsigned_generation_is_bounded() {
    for _ in 0..200 {
        let v: usize = Arbitrary::gen();
        assert!(v <= 1023);
    }
}

#[test]
fn signed_generation_is_bounded() {
    for _ in 0..200 {
        let v: isize = Arbitrary::gen();
        assert!(-1023 <= v && v <= 1023);
    }
}

#[test]
fn sequence_generation_is_bounded() {
    for _ in 0..50 {
        let v: Vec<usize> = Arbitrary::gen();
        assert!(v.len() <= 99);
        for e in &v {
            assert!(*e <= 1023);
        }
    }
}

#[test]
fn size_is_idempotent() {
    let v: Vec<usize> = vec![4, 5, 6];
    assert!(size_idempotent(&v));
    assert_eq!(v.size(), 3);
    let n: isize = -17;
    assert!(size_idempotent(&n));
    assert_eq!(n.size(), 17);
    let m: usize = 512;
    assert!(size_idempotent(&m));
    assert_eq!(m.size(), 512);
}

#[test]
fn rendering_is_decimal() {
    assert_eq!(0usize.render(), "0");
    assert_eq!(1024usize.render(), "1024");
    assert_eq!((-308isize).render(), "-308");
    let v: Vec<usize> = vec![10, 2, 300];
    assert_eq!(v.render(), "[10, 2, 300]");
    let w: Vec<isize> = vec![-5, 0, 7];
    assert_eq!(w.render(), "[-5, 0, 7]");
    let empty: Vec<usize> = Vec::new();
    assert_eq!(empty.render(), "[]");
}

#[test]
fn ranking_orders_failures_by_size() {
    let sizes: Vec<usize> = vec![9, 1, 5, 1, 3, 7, 2];
    let order = rank_indices(&sizes);
    assert_eq!(order.len(), 7);
    let ranked: Vec<usize> = order.iter().map(|&i| sizes[i]).collect();
    assert_eq!(&ranked[..5], &[1, 1, 2, 3, 5]);
    // stable: the two size-1 entries keep their collection order
    assert_eq!(order[0], 1);
    assert_eq!(order[1], 3);
}

#[test]
fn result_str_extracts_rendering() {
    assert_eq!(result_str(Outcome::Pass), "");
    assert_eq!(result_str(Outcome::Failure(3, "[1, 2, 3]".to_string())), "[1, 2, 3]");
}

#[test]
fn report_success_is_one_line() {
    let outcomes: Vec<Outcome> = (0..100).map(|_| Outcome::Pass).collect();
    assert!(verdict_of(&outcomes));
    let lines = report_lines("everything holds", &outcomes);
    assert_eq!(lines.len(), 1);
    assert_eq!(lines[0], "+++ OK, passed 100 tests for everything holds");
}

#[test]
fn report_shows_all_when_few_fail() {
    let outcomes = vec![
        Outcome::Pass,
        Outcome::Failure(4, "four".to_string()),
        Outcome::Pass,
        Outcome::Failure(2, "two".to_string()),
    ];
    assert!(!verdict_of(&outcomes));
    let lines = report_lines("some property", &outcomes);
    assert_eq!(lines.len(), 3);
    assert_eq!(lines[0], "*** Failed 'some property' on:");
    assert_eq!(lines[1], "four");
    assert_eq!(lines[2], "two");
}

#[test]
fn report_truncates_to_smallest_five() {
    let sizes = [9usize, 1, 5, 1, 3, 7, 2];
    let mut outcomes = Vec::new();
    for (i, s) in sizes.iter().enumerate() {
        outcomes.push(Outcome::Failure(*s, format!("case {}", i)));
    }
    let lines = report_lines("always fails", &outcomes);
    assert_eq!(lines.len(), 7);
    assert_eq!(lines[0], "*** Failed 'always fails' on:");
    assert_eq!(lines[1], "case 1");
    assert_eq!(lines[2], "case 3");
    assert_eq!(lines[3], "case 6");
    assert_eq!(lines[4], "case 4");
    assert_eq!(lines[5], "case 2");
    assert_eq!(lines[6], "...and more");
}

#[test]
fn report_truncates_already_at_five_failures() {
    let mut outcomes = Vec::new();
    for i in 0..5usize {
        outcomes.push(Outcome::Failure(5 - i, format!("f{}", i)));
    }
    let lines = report_lines("edge", &outcomes);
    assert_eq!(lines.len(), 7);
    assert_eq!(lines[1], "f4");
    assert_eq!(lines[5], "f0");
    assert_eq!(lines[6], "...and more");
}

fn prop_identity(x: &usize) -> bool {
    *x == *x
}

fn prop_never(_x: &usize) -> bool {
    false
}

#[test]
fn tautology_passes_every_trial() {
    assert!(quick_check_silent("a value equals itself", Prop1::new(prop_identity)));
    let outcomes = run_trials(&Prop1::new(prop_identity));
    assert_eq!(outcomes.len(), 100);
    assert!(verdict_of(&outcomes));
}

#[test]
fn contradiction_fails_every_trial() {
    assert!(!quick_check_silent("nothing holds", Prop1::new(prop_never)));
    let outcomes = run_trials(&Prop1::new(prop_never));
    assert_eq!(outcomes.len(), 100);
    assert!(!verdict_of(&outcomes));
    let lines = report_lines("nothing holds", &outcomes);
    assert_eq!(lines.len(), 7);
    assert_eq!(lines[0], "*** Failed 'nothing holds' on:");
    assert_eq!(lines[6], "...and more");
    // the five shown renderings are the generated values, ascending in size
    let shown: Vec<usize> = lines[1..6].iter().map(|s| s.parse().unwrap()).collect();
    for w in shown.windows(2) {
        assert!(w[0] <= w[1]);
    }
}

fn prop_sub_commutes(a: &usize, b: &usize) -> bool {
    a.wrapping_sub(*b) == b.wrapping_sub(*a)
}

#[test]
fn two_argument_properties_use_summed_sizes() {
    assert!(!quick_check2("subtraction is commutative", prop_sub_commutes));
    let outcomes = run_trials(&Prop2::new(prop_sub_commutes));
    let mut saw_failure = false;
    for o in outcomes {
        if let Outcome::Failure(size, text) = o {
            saw_failure = true;
            let parts: Vec<usize> = text.split(", ").map(|p| p.parse().unwrap()).collect();
            assert_eq!(parts.len(), 2);
            assert_eq!(size, parts[0] + parts[1]);
        }
    }
    assert!(saw_failure);
}

use quickcheck::{quick_check_silent, result_str, run_trials, verdict_of, Outcome, Prop1};

fn reverse(v: &Vec<usize>) -> Vec<usize> {
    let mut out = Vec::new();
    for e in v.iter().rev() {
        out.push(*e);
    }
    out
}

// a deliberately defective reverse: it mishandles two-element lists
fn defective_reverse(v: &Vec<usize>) -> Vec<usize> {
    if v.len() == 2 {
        vec![v[0]]
    } else {
        reverse(v)
    }
}

fn prop_reverse_twice_is_identity(v: &Vec<usize>) -> bool {
    reverse(&reverse(v)) == *v
}

fn prop_defective_reverse_twice_is_identity(v: &Vec<usize>) -> bool {
    defective_reverse(&defective_reverse(v)) == *v
}

#[test]
fn correct_reverse_round_trips() {
    for _ in 0..3 {
        assert!(quick_check_silent(
            "reversing twice yields the original",
            Prop1::new(prop_reverse_twice_is_identity)
        ));
    }
}

#[test]
fn defective_reverse_is_caught_on_short_lists() {
    // the defect only bites on two-element lists, which roughly one trial in
    // a hundred draws, so run batches until one contains a failure
    let mut found: Option<String> = None;
    for _ in 0..300 {
        let outcomes = run_trials(&Prop1::new(prop_defective_reverse_twice_is_identity));
        if !verdict_of(&outcomes) {
            for o in outcomes {
                if let Outcome::Failure(..) = o {
                    found = Some(result_str(o));
                    break;
                }
            }
            break;
        }
    }
    let rendering = found.expect("no failing batch in 300 runs");
    // every counterexample is a two-element list: exactly one separator
    assert!(rendering.starts_with('['));
    assert!(rendering.ends_with(']'));
    assert_eq!(rendering.matches(", ").count(), 1);
}

use xalg::formula::OperatorFlag;
use xalg::polynomial::{NeedBrackets, Polynomial};
use xalg::{generate, ErrorKind};

fn all_flags() -> Vec<OperatorFlag> {
    vec![
        OperatorFlag::Add,
        OperatorFlag::Sub,
        OperatorFlag::Mul,
        OperatorFlag::Div,
        OperatorFlag::Pow,
    ]
}

fn paren_counts(s: &str) -> (usize, usize) {
    let open = s.chars().filter(|c| *c == '(').count();
    let close = s.chars().filter(|c| *c == ')').count();
    (open, close)
}

#[test]
fn negative_depth_is_wrong_number() {
    assert!(matches!(generate(-1, 3, 3, &all_flags()), Err(ErrorKind::WrongNumber)));
}

#[test]
fn zero_exponent_limit_is_wrong_number() {
    assert!(matches!(generate(2, 0, 3, &all_flags()), Err(ErrorKind::WrongNumber)));
}

#[test]
fn low_coefficient_limit_is_wrong_number() {
    assert!(matches!(generate(2, 3, 1, &all_flags()), Err(ErrorKind::WrongNumber)));
}

#[test]
fn empty_flags_is_no_flag() {
    assert!(matches!(generate(2, 3, 3, &Vec::new()), Err(ErrorKind::NoFlag)));
}

#[test]
fn range_violation_wins_over_missing_flags() {
    assert!(matches!(generate(-1, 3, 3, &Vec::new()), Err(ErrorKind::WrongNumber)));
}

// With the tightest valid limits every random draw is forced, so the result
// is completely determined: a bare monomial rendering as `1`.
#[test]
fn tightest_limits_force_the_output() {
    for _ in 0..32 {
        let tree = generate(0, 1, 2, &all_flags()).unwrap();
        assert_eq!(tree.export(NeedBrackets::False), "1");
    }
}

#[test]
fn single_flag_trees_export_nonempty_balanced_text() {
    for flag in all_flags() {
        let tree = generate(3, 4, 5, &vec![flag]).unwrap();
        let text = tree.export(NeedBrackets::False);
        assert!(!text.is_empty());
        let (open, close) = paren_counts(&text);
        assert_eq!(open, close);
    }
}

#[test]
fn generated_exports_are_balanced_and_stable() {
    for _ in 0..16 {
        let tree = generate(4, 5, 6, &all_flags()).unwrap();
        let text = tree.export(NeedBrackets::False);
        assert!(!text.is_empty());
        let (open, close) = paren_counts(&text);
        assert_eq!(open, close);
        assert_eq!(text, tree.export(NeedBrackets::False));
    }
}

#[test]
fn polynomial_generate_exports_balanced_text() {
    for _ in 0..16 {
        let tree = Polynomial::generate(3, 4, 5);
        let text = tree.export(NeedBrackets::False);
        assert!(!text.is_empty());
        let (open, close) = paren_counts(&text);
        assert_eq!(open, close);
        assert_eq!(text, tree.export(NeedBrackets::False));
    }
}

// With the power flag alone, an exponent limit of 2 fixes every power
// exponent to exactly 2, and the tight coefficient limit fixes the leaf, so
// the depth-1 tree renders deterministically.
#[test]
fn small_exponent_limit_fixes_the_power_exponent() {
    for _ in 0..16 {
        let tree = generate(1, 2, 2, &vec![OperatorFlag::Pow]).unwrap();
        assert_eq!(tree.export(NeedBrackets::False), "(1)^{2}");
    }
}

// With a larger limit the drawn power exponent stays in [2, limit).
#[test]
fn power_exponent_stays_below_the_limit() {
    for _ in 0..16 {
        let tree = generate(1, 4, 2, &vec![OperatorFlag::Pow]).unwrap();
        let text = tree.export(NeedBrackets::False);
        assert!(
            text.ends_with("^{2}") || text.ends_with("^{3}"),
            "exponent out of range in {}",
            text
        );
    }
}

// Only enabled operator kinds appear: with addition alone the export is
// monomials joined by plus signs, without any other operator's marker.
#[test]
fn only_enabled_operators_appear() {
    for _ in 0..16 {
        let tree = generate(3, 3, 3, &vec![OperatorFlag::Add]).unwrap();
        let text = tree.export(NeedBrackets::False);
        assert!(!text.contains('\\'), "foreign operator in {}", text);
        assert!(!text.contains('('), "foreign operator in {}", text);
        assert!(text.contains('+'), "no addition in {}", text);
    }
}

// The coefficient is drawn from [1, 3) and the exponent budget from [0, 1):
// at depth 0 the literal can only render as `1` or `2`, never as an echo of
// the inputs.
#[test]
fn leaf_draws_stay_in_range() {
    for _ in 0..32 {
        let tree = generate(0, 1, 3, &all_flags()).unwrap();
        let text = tree.export(NeedBrackets::False);
        assert!(text == "1" || text == "2", "unexpected leaf {}", text);
    }
}

use xalg::formula::{Formula, Operators};
use xalg::monomial::Monomial;
use xalg::polynomial::{NeedBrackets, Operators as PolyOperators, Polynomial};

fn lit(exponents: Vec<i64>, coefficient: i64) -> Formula {
    Formula::new(Operators::Lit(Monomial::new(exponents, coefficient)))
}

fn poly_lit(exponents: Vec<i64>, coefficient: i64) -> Polynomial {
    Polynomial::new(PolyOperators::Wrap(Monomial::new(exponents, coefficient)))
}

#[test]
fn export_test() {
    assert_eq!(
        Formula::new(Operators::Add(
            Box::new(lit(vec![1, 0, 2], 10)),
            Box::new(Formula::new(Operators::Sub(
                Box::new(lit(vec![], 1)),
                Box::new(lit(vec![0], 13)),
            ))),
        ))
        .export(NeedBrackets::False),
        r"10x_{1}x_{3}^{2}+1-13"
    );
    assert_eq!(
        Formula::new(Operators::Mul(
            Box::new(lit(vec![1, 0, 2], 10)),
            Box::new(Formula::new(Operators::Sub(
                Box::new(lit(vec![], 1)),
                Box::new(lit(vec![0], 13)),
            ))),
        ))
        .export(NeedBrackets::False),
        r"10x_{1}x_{3}^{2}\times{}(1-13)"
    )
}

#[test]
fn polynomial_export_matches_formula() {
    let tree = Polynomial::new(PolyOperators::Add(
        Box::new(poly_lit(vec![1, 0, 2], 10)),
        Box::new(Polynomial::new(PolyOperators::Sub(
            Box::new(poly_lit(vec![], 1)),
            Box::new(poly_lit(vec![0], 13)),
        ))),
    ));
    assert_eq!(tree.export(NeedBrackets::False), r"10x_{1}x_{3}^{2}+1-13");
    let tree = Polynomial::new(PolyOperators::Mul(
        Box::new(poly_lit(vec![1, 0, 2], 10)),
        Box::new(Polynomial::new(PolyOperators::Sub(
            Box::new(poly_lit(vec![], 1)),
            Box::new(poly_lit(vec![0], 13)),
        ))),
    ));
    assert_eq!(tree.export(NeedBrackets::False), r"10x_{1}x_{3}^{2}\times{}(1-13)");
}

#[test]
fn coefficient_zero_exports_zero() {
    assert_eq!(lit(vec![5, 7], 0).export(NeedBrackets::False), "0");
    assert_eq!(lit(vec![], 0).export(NeedBrackets::False), "0");
}

#[test]
fn coefficient_one_all_zero_exponents_exports_one() {
    assert_eq!(lit(vec![0, 0], 1).export(NeedBrackets::False), "1");
    assert_eq!(lit(vec![], 1).export(NeedBrackets::False), "1");
}

#[test]
fn monomial_rendering() {
    assert_eq!(Monomial::new(vec![2], 3).export(), r"3x_{1}^{2}");
    assert_eq!(Monomial::new(vec![1], 1).export(), r"x_{1}");
    assert_eq!(Monomial::new(vec![0, 0, 1], 1).export(), r"x_{3}");
    assert_eq!(Monomial::new(vec![3], 12).export(), r"12x_{1}^{3}");
}

#[test]
fn division_renders_fraction_block() {
    let tree = Formula::new(Operators::Div(Box::new(lit(vec![], 3)), Box::new(lit(vec![], 4))));
    assert_eq!(tree.export(NeedBrackets::False), r"\frac{3}{4}");
}

#[test]
fn power_renders_parenthesized_base() {
    let tree = Formula::new(Operators::Pow(Box::new(lit(vec![], 3)), 2));
    assert_eq!(tree.export(NeedBrackets::False), r"(3)^{2}");
}

// The four outcomes of {own category} x {incoming requirement}: only an
// unprotected node under a bracket-demanding father is wrapped.
#[test]
fn unprotected_node_wrapped_only_under_demanding_father() {
    let add = Formula::new(Operators::Add(Box::new(lit(vec![], 1)), Box::new(lit(vec![], 2))));
    assert_eq!(add.export(NeedBrackets::True), "(1+2)");
    assert_eq!(add.export(NeedBrackets::False), "1+2");
    assert_eq!(add.export(NeedBrackets::Never), "1+2");
}

#[test]
fn demanding_node_never_wrapped_itself() {
    let mul = Formula::new(Operators::Mul(Box::new(lit(vec![], 1)), Box::new(lit(vec![], 2))));
    assert_eq!(mul.export(NeedBrackets::True), r"1\times{}2");
    assert_eq!(mul.export(NeedBrackets::False), r"1\times{}2");
}

#[test]
fn self_delimited_node_never_wrapped() {
    let div = Formula::new(Operators::Div(Box::new(lit(vec![], 1)), Box::new(lit(vec![], 2))));
    assert_eq!(div.export(NeedBrackets::True), r"\frac{1}{2}");
    let pow = Formula::new(Operators::Pow(Box::new(lit(vec![], 1)), 2));
    assert_eq!(pow.export(NeedBrackets::True), r"(1)^{2}");
    assert_eq!(lit(vec![], 5).export(NeedBrackets::True), "5");
}

#[test]
fn mul_forces_brackets_of_loose_children_only() {
    let add = || Formula::new(Operators::Add(Box::new(lit(vec![], 1)), Box::new(lit(vec![], 2))));
    let div = Formula::new(Operators::Div(Box::new(lit(vec![], 1)), Box::new(lit(vec![], 2))));
    let mul = Formula::new(Operators::Mul(Box::new(add()), Box::new(div)));
    assert_eq!(mul.export(NeedBrackets::False), r"(1+2)\times{}\frac{1}{2}");
    let nested_add = Formula::new(Operators::Add(Box::new(add()), Box::new(lit(vec![], 3))));
    assert_eq!(nested_add.export(NeedBrackets::False), "1+2+3");
}

// Export is pure: repeated calls on the same tree yield identical strings.
#[test]
fn export_is_idempotent() {
    let tree = Formula::new(Operators::Mul(
        Box::new(Formula::new(Operators::Sub(
            Box::new(lit(vec![1], 2)),
            Box::new(lit(vec![], 7)),
        ))),
        Box::new(lit(vec![2, 1], 9)),
    ));
    let first = tree.export(NeedBrackets::False);
    let second = tree.export(NeedBrackets::False);
    assert_eq!(first, second);
    let poly = Polynomial::new(PolyOperators::Pow(Box::new(poly_lit(vec![1], 4)), 3));
    assert_eq!(poly.export(NeedBrackets::False), poly.export(NeedBrackets::False));
}

#[test]
fn digits_render_in_decimal() {
    assert_eq!(xalg::digits::digits_string(0), "0");
    assert_eq!(xalg::digits::digits_string(9), "9");
    assert_eq!(xalg::digits::digits_string(10), "10");
    assert_eq!(xalg::digits::digits_string(907), "907");
}

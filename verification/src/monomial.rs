//! Monomials: a coefficient together with a sequence of per-variable
//! exponents, generated by randomly partitioning an exponent budget, and
//! rendered as markup text.

use vstd::prelude::*;

use crate::digits::{
    lemma_count_char_concat, lemma_digits_paren_free, paren_free, push_digits, spec_digits,
};
use crate::rng;

verus! {

/// A single term: a coefficient and one exponent per variable position
/// (1-based when rendered).
pub struct Monomial {
    pub exponents: Vec<i64>,
    pub coefficient: i64,
}

/// The rendering of the factor for variable position `pos` with exponent `e`:
/// nothing for a zero exponent, the bare variable for exponent one, and an
/// explicit exponent block otherwise.
pub open spec fn factor_text(pos: nat, e: int) -> Seq<char> {
    if e == 0 {
        Seq::<char>::empty()
    } else if e == 1 {
        "x_{"@ + spec_digits(pos) + "}"@
    } else {
        "x_{"@ + spec_digits(pos) + "}^{"@ + spec_digits(e as nat) + "}"@
    }
}

/// The concatenated factors of `exps` from index `i` on.
pub open spec fn factors_from(exps: Seq<i64>, i: nat) -> Seq<char>
    decreases exps.len() - i,
{
    if i >= exps.len() {
        Seq::<char>::empty()
    } else {
        factor_text(i + 1, exps[i as int] as int) + factors_from(exps, i + 1)
    }
}

/// The total of a sequence of exponents.
pub open spec fn sum_exps(exps: Seq<i64>) -> int
    decreases exps.len(),
{
    if exps.len() == 0 {
        0
    } else {
        sum_exps(exps.drop_last()) + exps.last()
    }
}

/// Whether every exponent of `exps` is zero, so that no factor is rendered.
pub open spec fn all_zero(exps: Seq<i64>) -> bool {
    forall|i: int| 0 <= i < exps.len() ==> exps[i] == 0
}

impl Monomial {
    /// A well-formed monomial: a non-negative coefficient and non-negative
    /// exponents, which the decimal rendering presumes.
    pub open spec fn wf(&self) -> bool {
        &&& self.coefficient >= 0
        &&& forall|i: int| 0 <= i < self.exponents@.len() ==> self.exponents@[i] >= 0
    }

    /// What the generator guarantees of a leaf built from an exponent
    /// budget drawn from `[0, exponent_limit)`: the coefficient lies in
    /// `[1, coefficient_limit)`, every exponent lies in
    /// `[0, exponent_limit)`, and the exponents sum to at most
    /// `exponent_limit - 2` (the partition consumes at most `budget - 1`,
    /// and the budget is below the limit).
    pub open spec fn in_limits(&self, exponent_limit: int, coefficient_limit: int) -> bool {
        &&& 1 <= self.coefficient < coefficient_limit
        &&& forall|i: int|
            0 <= i < self.exponents@.len() ==> 0 <= #[trigger] self.exponents@[i]
                < exponent_limit
        &&& sum_exps(self.exponents@) <= (if exponent_limit >= 2 {
            exponent_limit - 2
        } else {
            0
        })
    }

    /// The full rendering: a zero coefficient renders as just `0`; a unit
    /// coefficient is omitted unless no factor is rendered, in which case it
    /// stands as `1`; any other coefficient renders in decimal before the
    /// factors.
    pub open spec fn text(&self) -> Seq<char> {
        if self.coefficient == 0 {
            "0"@
        } else if self.coefficient == 1 {
            if all_zero(self.exponents@) {
                "1"@
            } else {
                factors_from(self.exponents@, 0)
            }
        } else {
            spec_digits(self.coefficient as nat) + factors_from(self.exponents@, 0)
        }
    }

    /// Builds a monomial from its parts.
    pub fn new(exponents: Vec<i64>, coefficient: i64) -> (r: Self)
        requires
            coefficient >= 0,
            forall|i: int| 0 <= i < exponents@.len() ==> exponents@[i] >= 0,
        ensures
            r.exponents@ == exponents@,
            r.coefficient == coefficient,
            r.wf(),
    {
        Self { exponents, coefficient }
    }

    /// Randomly generates one monomial: the coefficient is drawn from
    /// `[1, coefficient_limit)`, and the exponents partition `exponent_limit`
    /// by repeatedly drawing from `[0, remaining)` while more than one unit
    /// of budget remains. A bound on the iteration count makes the loop
    /// terminate even on an unbroken streak of zero draws, which the bare
    /// partition loop would spin on.
    pub fn generate(exponent_limit: i64, coefficient_limit: i64) -> (r: Self)
        requires
            exponent_limit >= 0,
            coefficient_limit >= 2,
        ensures
            r.wf(),
            1 <= r.coefficient < coefficient_limit,
            forall|i: int|
                0 <= i < r.exponents@.len() ==> 0 <= #[trigger] r.exponents@[i] < exponent_limit,
            exponent_limit >= 1 ==> sum_exps(r.exponents@) <= exponent_limit - 1,
            exponent_limit <= 1 ==> r.exponents@.len() == 0,
            exponent_limit >= 2 ==> r.exponents@.len() >= 1,
            r.exponents@.len() <= exponent_limit,
            exponent_limit >= 2 ==> (sum_exps(r.exponents@) == exponent_limit - 1
                || r.exponents@.len() == exponent_limit),
    {
        let coefficient = rng::random_i64(1, coefficient_limit);
        let mut exponents: Vec<i64> = Vec::new();
        let mut remaining: i64 = exponent_limit;
        let mut fuel: i64 = exponent_limit;
        while remaining > 1 && fuel > 0
            invariant
                0 <= remaining <= exponent_limit,
                0 <= fuel,
                exponent_limit >= 1 ==> remaining >= 1,
                sum_exps(exponents@) + remaining == exponent_limit,
                fuel + exponents@.len() == exponent_limit,
                exponents@.len() == 0 ==> remaining == exponent_limit && fuel == exponent_limit,
                forall|i: int|
                    0 <= i < exponents@.len() ==> 0 <= #[trigger] exponents@[i] < exponent_limit,
                exponent_limit <= 1 ==> exponents@.len() == 0,
            decreases fuel,
        {
            let exp = rng::random_i64(0, remaining);
            let ghost before: Seq<i64> = exponents@;
            exponents.push(exp);
            remaining = remaining - exp;
            fuel = fuel - 1;
            proof {
                assert(exponents@.drop_last() =~= before);
            }
        }
        Self { exponents, coefficient }
    }

    /// Renders the monomial; the result is exactly `self.text()`, so repeated
    /// calls yield identical strings.
    pub fn export(&self) -> (r: String)
        requires
            self.wf(),
        ensures
            r@ == self.text(),
    {
        if self.coefficient == 0 {
            return String::from_str("0");
        }
        let mut s = String::new();
        if self.coefficient != 1 {
            push_digits(&mut s, self.coefficient as u64);
        }
        let ghost prefix: Seq<char> = s@;
        let mut any: bool = false;
        let mut i: usize = 0;
        while i < self.exponents.len()
            invariant
                self.wf(),
                i <= self.exponents@.len(),
                any == !all_zero(self.exponents@.subrange(0, i as int)),
                s@ + factors_from(self.exponents@, i as nat) == prefix + factors_from(
                    self.exponents@,
                    0,
                ),
            decreases self.exponents@.len() - i,
        {
            let e = self.exponents[i];
            let ghost s_before: Seq<char> = s@;
            if e != 0 {
                any = true;
                s.append("x_{");
                push_digits(&mut s, (i as u64) + 1);
                if e == 1 {
                    s.append("}");
                } else {
                    s.append("}^{");
                    push_digits(&mut s, e as u64);
                    s.append("}");
                }
            }
            proof {
                assert(s@ =~= s_before + factor_text(i as nat + 1, self.exponents@[i as int] as int));
                assert(factors_from(self.exponents@, i as nat) == factor_text(
                    i as nat + 1,
                    self.exponents@[i as int] as int,
                ) + factors_from(self.exponents@, i as nat + 1));
                assert(s@ + factors_from(self.exponents@, i as nat + 1) =~= s_before
                    + factors_from(self.exponents@, i as nat));
                let s0 = self.exponents@.subrange(0, i as int);
                let s1 = self.exponents@.subrange(0, i as int + 1);
                assert(s1 =~= s0.push(self.exponents@[i as int]));
                if e == 0 {
                    if all_zero(s0) {
                        assert forall|j: int| 0 <= j < s1.len() implies s1[j] == 0 by {
                            if j < i as int {
                                assert(s0[j] == 0);
                            } else {
                                assert(s1[j] == self.exponents@[i as int]);
                            }
                        }
                    } else {
                        let j = choose|j: int| 0 <= j < s0.len() && s0[j] != 0;
                        assert(s1[j] == s0[j]);
                        assert(!all_zero(s1));
                    }
                } else {
                    assert(s1[i as int] != 0);
                    assert(!all_zero(s1));
                }
            }
            i = i + 1;
        }
        proof {
            assert(factors_from(self.exponents@, i as nat) =~= Seq::<char>::empty());
            assert(s@ =~= prefix + factors_from(self.exponents@, 0));
            assert(self.exponents@.subrange(0, i as int) =~= self.exponents@);
        }
        if self.coefficient == 1 && !any {
            return String::from_str("1");
        }
        proof {
            if self.coefficient == 1 {
                assert(prefix =~= Seq::<char>::empty());
                assert(s@ =~= factors_from(self.exponents@, 0));
            }
        }
        s
    }
}

/// The rendering of a well-formed monomial never contains a parenthesis.
pub proof fn lemma_monomial_paren_free(m: &Monomial)
    requires
        m.wf(),
    ensures
        paren_free(m.text()),
{
    reveal_strlit("0");
    reveal_strlit("1");
    lemma_strlit_paren_free();
    lemma_factors_paren_free(m.exponents@, 0);
    if m.coefficient == 0 {
    } else if m.coefficient == 1 {
    } else {
        lemma_digits_paren_free(m.coefficient as nat);
        lemma_count_char_concat(
            spec_digits(m.coefficient as nat),
            factors_from(m.exponents@, 0),
            '(',
        );
        lemma_count_char_concat(
            spec_digits(m.coefficient as nat),
            factors_from(m.exponents@, 0),
            ')',
        );
    }
}

/// The rendering of a well-formed monomial is never empty.
pub proof fn lemma_monomial_nonempty(m: &Monomial)
    requires
        m.wf(),
    ensures
        m.text().len() > 0,
{
    reveal_strlit("0");
    reveal_strlit("1");
    if m.coefficient == 1 && !all_zero(m.exponents@) {
        let i = choose|i: int| 0 <= i < m.exponents@.len() && m.exponents@[i] != 0;
        lemma_factors_nonempty(m.exponents@, 0, i);
    } else if m.coefficient >= 2 {
        lemma_digits_nonempty(m.coefficient as nat);
    }
}

/// Decimal text has at least one character.
proof fn lemma_digits_nonempty(n: nat)
    ensures
        spec_digits(n).len() >= 1,
{
    if n >= 10 {
        assert(spec_digits(n) == spec_digits(n / 10) + seq![
            crate::digits::digit_char((n % 10) as int),
        ]);
    }
}

/// If some exponent from `k` on is non-zero, the factors from `k` on render
/// to something.
proof fn lemma_factors_nonempty(exps: Seq<i64>, k: nat, i: int)
    requires
        k <= i < exps.len(),
        exps[i] != 0,
    ensures
        factors_from(exps, k).len() > 0,
    decreases exps.len() - k,
{
    reveal_strlit("x_{");
    if i == k {
        assert(factor_text(k + 1, exps[k as int] as int).len() > 0);
    } else {
        lemma_factors_nonempty(exps, k + 1, i);
    }
}

/// None of the constant fragments of a factor holds a parenthesis.
proof fn lemma_strlit_paren_free()
    ensures
        paren_free("x_{"@),
        paren_free("}"@),
        paren_free("}^{"@),
        paren_free("0"@),
        paren_free("1"@),
{
    reveal_strlit("x_{");
    reveal_strlit("}");
    reveal_strlit("}^{");
    reveal_strlit("0");
    reveal_strlit("1");
    lemma_seq_paren_free("x_{"@);
    lemma_seq_paren_free("}"@);
    lemma_seq_paren_free("}^{"@);
    lemma_seq_paren_free("0"@);
    lemma_seq_paren_free("1"@);
}

/// Counting characters in a short concrete sequence without parentheses.
proof fn lemma_seq_paren_free(s: Seq<char>)
    requires
        s.len() <= 3,
        forall|i: int| 0 <= i < s.len() ==> s[i] != '(' && s[i] != ')',
    ensures
        paren_free(s),
    decreases s.len(),
{
    if s.len() > 0 {
        lemma_seq_paren_free(s.drop_last());
    }
}

/// One factor's rendering never contains a parenthesis.
proof fn lemma_factor_paren_free(pos: nat, e: int)
    ensures
        paren_free(factor_text(pos, e)),
{
    lemma_strlit_paren_free();
    lemma_digits_paren_free(pos);
    if e != 0 && e != 1 {
        lemma_digits_paren_free(e as nat);
        lemma_count_char_concat("x_{"@, spec_digits(pos), '(');
        lemma_count_char_concat("x_{"@ + spec_digits(pos), "}^{"@, '(');
        lemma_count_char_concat("x_{"@ + spec_digits(pos) + "}^{"@, spec_digits(e as nat), '(');
        lemma_count_char_concat(
            "x_{"@ + spec_digits(pos) + "}^{"@ + spec_digits(e as nat),
            "}"@,
            '(',
        );
        lemma_count_char_concat("x_{"@, spec_digits(pos), ')');
        lemma_count_char_concat("x_{"@ + spec_digits(pos), "}^{"@, ')');
        lemma_count_char_concat("x_{"@ + spec_digits(pos) + "}^{"@, spec_digits(e as nat), ')');
        lemma_count_char_concat(
            "x_{"@ + spec_digits(pos) + "}^{"@ + spec_digits(e as nat),
            "}"@,
            ')',
        );
    } else if e == 1 {
        lemma_count_char_concat("x_{"@, spec_digits(pos), '(');
        lemma_count_char_concat("x_{"@ + spec_digits(pos), "}"@, '(');
        lemma_count_char_concat("x_{"@, spec_digits(pos), ')');
        lemma_count_char_concat("x_{"@ + spec_digits(pos), "}"@, ')');
    }
}

/// The factors' rendering never contains a parenthesis.
proof fn lemma_factors_paren_free(exps: Seq<i64>, k: nat)
    ensures
        paren_free(factors_from(exps, k)),
    decreases exps.len() - k,
{
    if k < exps.len() {
        lemma_factor_paren_free(k + 1, exps[k as int] as int);
        lemma_factors_paren_free(exps, k + 1);
        lemma_count_char_concat(
            factor_text(k + 1, exps[k as int] as int),
            factors_from(exps, k + 1),
            '(',
        );
        lemma_count_char_concat(
            factor_text(k + 1, exps[k as int] as int),
            factors_from(exps, k + 1),
            ')',
        );
    }
}

} // verus!

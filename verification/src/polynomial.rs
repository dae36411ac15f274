//! The polynomial AST: a variant of the generator and exporter in which
//! every operator kind is always enabled. It shares the monomial leaf and
//! the bracket-requirement scheme with the formula AST.

use vstd::prelude::*;

use crate::digits::{
    balanced, lemma_concat3_counts, lemma_concat3_counts_wrap, lemma_concat5_counts,
    lemma_digits_paren_free, lemma_fragments, push_digits, spec_digits,
};
use crate::monomial::{lemma_monomial_nonempty, lemma_monomial_paren_free, Monomial};
use crate::rng;

verus! {

/// The enum which denotes whether an operator needs brackets or not.
#[derive(PartialEq, Eq, Structural, Copy, Clone, Debug)]
pub enum NeedBrackets {
    /// The kid(s) of it need brackets.
    True,
    /// The kid(s) of it do(es)n't need brackets.
    False,
    /// Never need brackets for both itself and its kid(s).
    Never,
}

/// The shape of one polynomial node: an operator over owned children, or a
/// monomial leaf. A power's exponent is a scalar, not a subtree.
pub enum Operators {
    /// Addition of two subtrees.
    Add(Box<Polynomial>, Box<Polynomial>),
    /// Subtraction of two subtrees.
    Sub(Box<Polynomial>, Box<Polynomial>),
    /// Multiplication of two subtrees.
    Mul(Box<Polynomial>, Box<Polynomial>),
    /// Division of two subtrees, rendered as a fraction block.
    Div(Box<Polynomial>, Box<Polynomial>),
    /// A base subtree raised to a scalar exponent.
    Pow(Box<Polynomial>, i64),
    /// A literal monomial leaf.
    Wrap(Monomial),
}

/// The polynomial AST.
pub struct Polynomial {
    pub operator: Operators,
}

impl Polynomial {
    /// Wraps a node shape into a polynomial.
    pub fn new(operator: Operators) -> (r: Self)
        ensures
            r.operator == operator,
    {
        Self { operator }
    }

    /// The height of the tree: zero at a leaf, one more than the tallest
    /// child elsewhere.
    pub open spec fn height(self) -> nat
        decreases self,
    {
        match self.operator {
            Operators::Wrap(_) => 0,
            Operators::Add(l, r) => 1 + if l.height() >= r.height() {
                l.height()
            } else {
                r.height()
            },
            Operators::Sub(l, r) => 1 + if l.height() >= r.height() {
                l.height()
            } else {
                r.height()
            },
            Operators::Mul(l, r) => 1 + if l.height() >= r.height() {
                l.height()
            } else {
                r.height()
            },
            Operators::Div(l, r) => 1 + if l.height() >= r.height() {
                l.height()
            } else {
                r.height()
            },
            Operators::Pow(b, _) => 1 + b.height(),
        }
    }

    /// A well-formed tree: every leaf is well formed and every power
    /// exponent is non-negative, which the decimal rendering presumes.
    pub open spec fn wf(self) -> bool
        decreases self,
    {
        match self.operator {
            Operators::Wrap(m) => m.wf(),
            Operators::Add(l, r) => l.wf() && r.wf(),
            Operators::Sub(l, r) => l.wf() && r.wf(),
            Operators::Mul(l, r) => l.wf() && r.wf(),
            Operators::Div(l, r) => l.wf() && r.wf(),
            Operators::Pow(b, p) => p >= 0 && b.wf(),
        }
    }

    /// What generation guarantees of the tree's content: every leaf lies
    /// within the numeric limits, and every power exponent is exactly 2
    /// when the exponent limit is at most 2 and otherwise lies in
    /// `[2, exponent_limit)`.
    pub open spec fn conforms(self, exponent_limit: int, coefficient_limit: int) -> bool
        decreases self,
    {
        match self.operator {
            Operators::Wrap(m) => m.in_limits(exponent_limit, coefficient_limit),
            Operators::Add(l, r) => l.conforms(exponent_limit, coefficient_limit) && r.conforms(
                exponent_limit,
                coefficient_limit,
            ),
            Operators::Sub(l, r) => l.conforms(exponent_limit, coefficient_limit) && r.conforms(
                exponent_limit,
                coefficient_limit,
            ),
            Operators::Mul(l, r) => l.conforms(exponent_limit, coefficient_limit) && r.conforms(
                exponent_limit,
                coefficient_limit,
            ),
            Operators::Div(l, r) => l.conforms(exponent_limit, coefficient_limit) && r.conforms(
                exponent_limit,
                coefficient_limit,
            ),
            Operators::Pow(b, p) => (if exponent_limit <= 2 {
                p == 2
            } else {
                2 <= p < exponent_limit
            }) && b.conforms(exponent_limit, coefficient_limit),
        }
    }

    /// Whether every path of the tree carries exactly `d` operators: a
    /// monomial leaf stands exactly where the decremented depth reaches
    /// zero.
    pub open spec fn leaves_at_depth(self, d: int) -> bool
        decreases self,
    {
        match self.operator {
            Operators::Wrap(_) => d == 0,
            Operators::Add(l, r) => d >= 1 && l.leaves_at_depth(d - 1) && r.leaves_at_depth(
                d - 1,
            ),
            Operators::Sub(l, r) => d >= 1 && l.leaves_at_depth(d - 1) && r.leaves_at_depth(
                d - 1,
            ),
            Operators::Mul(l, r) => d >= 1 && l.leaves_at_depth(d - 1) && r.leaves_at_depth(
                d - 1,
            ),
            Operators::Div(l, r) => d >= 1 && l.leaves_at_depth(d - 1) && r.leaves_at_depth(
                d - 1,
            ),
            Operators::Pow(b, _) => d >= 1 && b.leaves_at_depth(d - 1),
        }
    }

    /// The bracket category of this node's operator alone.
    pub open spec fn spec_need_brackets(self) -> NeedBrackets {
        match self.operator {
            Operators::Add(_, _) => NeedBrackets::False,
            Operators::Sub(_, _) => NeedBrackets::False,
            Operators::Mul(_, _) => NeedBrackets::True,
            Operators::Wrap(_) => NeedBrackets::Never,
            Operators::Div(_, _) => NeedBrackets::Never,
            Operators::Pow(_, _) => NeedBrackets::Never,
        }
    }

    /// The exact text `export` produces: the node renders its body, handing
    /// each child its own category, and wraps the body in parentheses
    /// exactly when the father demanded brackets and the node itself is in
    /// the unprotected category.
    pub open spec fn export_text(self, father_need_brackets: NeedBrackets) -> Seq<char>
        decreases self,
    {
        let own = self.spec_need_brackets();
        let body = match self.operator {
            Operators::Wrap(m) => m.text(),
            Operators::Add(l, r) => l.export_text(own) + "+"@ + r.export_text(own),
            Operators::Sub(l, r) => l.export_text(own) + "-"@ + r.export_text(own),
            Operators::Mul(l, r) => l.export_text(own) + "\\times{}"@ + r.export_text(own),
            Operators::Div(l, r) => "\\frac{"@ + l.export_text(own) + "}{"@ + r.export_text(own)
                + "}"@,
            Operators::Pow(b, p) => "("@ + b.export_text(own) + ")^{"@ + spec_digits(p as nat)
                + "}"@,
        };
        if father_need_brackets == NeedBrackets::True && own == NeedBrackets::False {
            "("@ + body + ")"@
        } else {
            body
        }
    }

    /// The bracket category of this node, as a pure function of its variant.
    pub fn need_brackets(&self) -> (r: NeedBrackets)
        ensures
            r == self.spec_need_brackets(),
    {
        match self.operator {
            Operators::Add(_, _) | Operators::Sub(_, _) => NeedBrackets::False,
            Operators::Mul(_, _) => NeedBrackets::True,
            Operators::Wrap(_) | Operators::Div(_, _) | Operators::Pow(_, _) => NeedBrackets::Never,
        }
    }

    /// Recursively generates a tree; every operator kind is eligible at
    /// every level, and both children of a binary node are generated
    /// independently with the depth decremented.
    pub fn generate(depth: i64, exponent_limit: i64, coefficient_limit: i64) -> (r: Self)
        requires
            depth >= 0,
            exponent_limit >= 1,
            coefficient_limit >= 2,
        ensures
            r.wf(),
            r.height() <= depth,
            r.conforms(exponent_limit as int, coefficient_limit as int),
            r.leaves_at_depth(depth as int),
        decreases depth,
    {
        let operator = if depth == 0 {
            Operators::Wrap(
                Monomial::generate(rng::random_i64(0, exponent_limit), coefficient_limit),
            )
        } else {
            let depth = depth - 1;
            match rng::random_index(5) {
                0 => Operators::Add(
                    Box::new(Polynomial::generate(depth, exponent_limit, coefficient_limit)),
                    Box::new(Polynomial::generate(depth, exponent_limit, coefficient_limit)),
                ),
                1 => Operators::Sub(
                    Box::new(Polynomial::generate(depth, exponent_limit, coefficient_limit)),
                    Box::new(Polynomial::generate(depth, exponent_limit, coefficient_limit)),
                ),
                2 => Operators::Mul(
                    Box::new(Polynomial::generate(depth, exponent_limit, coefficient_limit)),
                    Box::new(Polynomial::generate(depth, exponent_limit, coefficient_limit)),
                ),
                3 => Operators::Div(
                    Box::new(Polynomial::generate(depth, exponent_limit, coefficient_limit)),
                    Box::new(Polynomial::generate(depth, exponent_limit, coefficient_limit)),
                ),
                _ => Operators::Pow(
                    Box::new(Polynomial::generate(depth, exponent_limit, coefficient_limit)),
                    if 2 >= exponent_limit {
                        2
                    } else {
                        rng::random_i64(2, exponent_limit)
                    },
                ),
            }
        };
        Self { operator }
    }

    /// Exports the AST to markup text. The result is exactly
    /// `self.export_text(father_need_brackets)`, a pure function of the tree
    /// and the incoming requirement, so repeated calls yield identical
    /// strings; the top-level caller passes `NeedBrackets::False`.
    pub fn export(&self, father_need_brackets: NeedBrackets) -> (r: String)
        requires
            self.wf(),
        ensures
            r@ == self.export_text(father_need_brackets),
        decreases *self,
    {
        let own = self.need_brackets();
        let origin: String = match &self.operator {
            Operators::Wrap(m) => m.export(),
            Operators::Add(l, r) => {
                let mut s = l.export(own);
                s.append("+");
                let rt = r.export(own);
                s.append(rt.as_str());
                s
            },
            Operators::Sub(l, r) => {
                let mut s = l.export(own);
                s.append("-");
                let rt = r.export(own);
                s.append(rt.as_str());
                s
            },
            Operators::Mul(l, r) => {
                let mut s = l.export(own);
                s.append("\\times{}");
                let rt = r.export(own);
                s.append(rt.as_str());
                s
            },
            Operators::Div(l, r) => {
                let mut s = String::from_str("\\frac{");
                let lt = l.export(own);
                s.append(lt.as_str());
                s.append("}{");
                let rt = r.export(own);
                s.append(rt.as_str());
                s.append("}");
                s
            },
            Operators::Pow(b, p) => {
                let mut s = String::from_str("(");
                let bt = b.export(own);
                s.append(bt.as_str());
                s.append(")^{");
                push_digits(&mut s, *p as u64);
                s.append("}");
                s
            },
        };
        if father_need_brackets == NeedBrackets::True && own == NeedBrackets::False {
            let mut s = String::from_str("(");
            s.append(origin.as_str());
            s.append(")");
            s
        } else {
            origin
        }
    }
}

/// Parenthesis balance: however deep the tree and whatever the incoming
/// requirement, the exported text holds as many open as close parentheses.
pub proof fn lemma_export_balanced(p: Polynomial, father_need_brackets: NeedBrackets)
    requires
        p.wf(),
    ensures
        balanced(p.export_text(father_need_brackets)),
    decreases p,
{
    let own = p.spec_need_brackets();
    lemma_fragments('(');
    lemma_fragments(')');
    let body = match p.operator {
        Operators::Wrap(m) => m.text(),
        Operators::Add(l, r) => l.export_text(own) + "+"@ + r.export_text(own),
        Operators::Sub(l, r) => l.export_text(own) + "-"@ + r.export_text(own),
        Operators::Mul(l, r) => l.export_text(own) + "\\times{}"@ + r.export_text(own),
        Operators::Div(l, r) => "\\frac{"@ + l.export_text(own) + "}{"@ + r.export_text(own)
            + "}"@,
        Operators::Pow(b, pe) => "("@ + b.export_text(own) + ")^{"@ + spec_digits(pe as nat)
            + "}"@,
    };
    match p.operator {
        Operators::Wrap(m) => {
            lemma_monomial_paren_free(&m);
        },
        Operators::Add(l, r) => {
            lemma_export_balanced(*l, own);
            lemma_export_balanced(*r, own);
            lemma_concat3_counts(l.export_text(own), "+"@, r.export_text(own));
        },
        Operators::Sub(l, r) => {
            lemma_export_balanced(*l, own);
            lemma_export_balanced(*r, own);
            lemma_concat3_counts(l.export_text(own), "-"@, r.export_text(own));
        },
        Operators::Mul(l, r) => {
            lemma_export_balanced(*l, own);
            lemma_export_balanced(*r, own);
            lemma_concat3_counts(l.export_text(own), "\\times{}"@, r.export_text(own));
        },
        Operators::Div(l, r) => {
            lemma_export_balanced(*l, own);
            lemma_export_balanced(*r, own);
            lemma_concat5_counts(
                "\\frac{"@,
                l.export_text(own),
                "}{"@,
                r.export_text(own),
                "}"@,
            );
        },
        Operators::Pow(b, pe) => {
            lemma_export_balanced(*b, own);
            lemma_digits_paren_free(pe as nat);
            lemma_concat5_counts("("@, b.export_text(own), ")^{"@, spec_digits(pe as nat), "}"@);
        },
    }
    if father_need_brackets == NeedBrackets::True && own == NeedBrackets::False {
        lemma_concat3_counts_wrap(body);
    }
}

/// The exported text of a well-formed tree is never empty.
pub proof fn lemma_export_nonempty(p: Polynomial, father_need_brackets: NeedBrackets)
    requires
        p.wf(),
    ensures
        p.export_text(father_need_brackets).len() > 0,
    decreases p,
{
    let own = p.spec_need_brackets();
    match p.operator {
        Operators::Wrap(m) => {
            lemma_monomial_nonempty(&m);
        },
        Operators::Add(l, _) => {
            lemma_export_nonempty(*l, own);
        },
        Operators::Sub(l, _) => {
            lemma_export_nonempty(*l, own);
        },
        Operators::Mul(l, _) => {
            lemma_export_nonempty(*l, own);
        },
        Operators::Div(_, _) => {
            reveal_strlit("\\frac{");
        },
        Operators::Pow(_, _) => {
            reveal_strlit("(");
        },
    }
}

} // verus!

//! The formula AST: a depth-bounded, randomly generated operator tree over
//! monomials, together with its bracket-minimizing exporter.

use vstd::prelude::*;

use crate::digits::{
    balanced, lemma_concat3_counts, lemma_concat3_counts_wrap, lemma_concat5_counts,
    lemma_digits_paren_free, lemma_fragments, push_digits, spec_digits,
};
use crate::monomial::{lemma_monomial_nonempty, lemma_monomial_paren_free, Monomial};
use crate::rng;

pub use crate::polynomial::NeedBrackets;

verus! {

/// The operators a caller may enable for random generation.
#[derive(Copy, Clone, Hash, Eq, PartialEq, Structural)]
pub enum OperatorFlag {
    /// Feature flag of addition.
    Add,
    /// Feature flag of subtraction.
    Sub,
    /// Feature flag of multiplication.
    Mul,
    /// Feature flag of division.
    Div,
    /// Feature flag of power.
    Pow,
}

/// The shape of one formula node: an operator over owned children, or a
/// literal monomial. A power's exponent is a scalar, not a subtree.
pub enum Operators {
    /// Addition of two subtrees.
    Add(Box<Formula>, Box<Formula>),
    /// Subtraction of two subtrees.
    Sub(Box<Formula>, Box<Formula>),
    /// Multiplication of two subtrees.
    Mul(Box<Formula>, Box<Formula>),
    /// Division of two subtrees, rendered as a fraction block.
    Div(Box<Formula>, Box<Formula>),
    /// A base subtree raised to a scalar exponent.
    Pow(Box<Formula>, i64),
    /// A literal monomial leaf.
    Lit(Monomial),
}

/// The parameters that steer one generation step.
#[derive(Copy, Clone)]
pub(crate) struct Info<'a> {
    pub depth: i64,
    pub exponent_limit: i64,
    pub coefficient_limit: i64,
    pub operator_flags: &'a Vec<OperatorFlag>,
}

impl<'a> Info<'a> {
    /// The preconditions the validating entry point establishes once.
    pub(crate) open spec fn wf(&self) -> bool {
        &&& self.depth >= 0
        &&& self.exponent_limit >= 1
        &&& self.coefficient_limit >= 2
        &&& self.operator_flags@.len() > 0
    }

    pub(crate) fn new(
        depth: i64,
        exponent_limit: i64,
        coefficient_limit: i64,
        operator_flags: &'a Vec<OperatorFlag>,
    ) -> (r: Self)
        ensures
            r.depth == depth,
            r.exponent_limit == exponent_limit,
            r.coefficient_limit == coefficient_limit,
            r.operator_flags == operator_flags,
    {
        Self { depth, exponent_limit, coefficient_limit, operator_flags }
    }
}

/// The formula AST.
pub struct Formula {
    pub operator: Operators,
}

impl Formula {
    /// Wraps a node shape into a formula.
    pub fn new(operator: Operators) -> (r: Self)
        ensures
            r.operator == operator,
    {
        Self { operator }
    }

    /// The height of the tree: zero at a leaf, one more than the tallest
    /// child elsewhere.
    pub open spec fn height(self) -> nat
        decreases self,
    {
        match self.operator {
            Operators::Lit(_) => 0,
            Operators::Add(l, r) => 1 + if l.height() >= r.height() {
                l.height()
            } else {
                r.height()
            },
            Operators::Sub(l, r) => 1 + if l.height() >= r.height() {
                l.height()
            } else {
                r.height()
            },
            Operators::Mul(l, r) => 1 + if l.height() >= r.height() {
                l.height()
            } else {
                r.height()
            },
            Operators::Div(l, r) => 1 + if l.height() >= r.height() {
                l.height()
            } else {
                r.height()
            },
            Operators::Pow(b, _) => 1 + b.height(),
        }
    }

    /// A well-formed tree: every literal is well formed and every power
    /// exponent is non-negative, which the decimal rendering presumes.
    pub open spec fn wf(self) -> bool
        decreases self,
    {
        match self.operator {
            Operators::Lit(m) => m.wf(),
            Operators::Add(l, r) => l.wf() && r.wf(),
            Operators::Sub(l, r) => l.wf() && r.wf(),
            Operators::Mul(l, r) => l.wf() && r.wf(),
            Operators::Div(l, r) => l.wf() && r.wf(),
            Operators::Pow(b, p) => p >= 0 && b.wf(),
        }
    }

    /// What generation guarantees of the tree's content: every operator
    /// node's kind is a member of the enabled flags, every leaf lies within
    /// the numeric limits, and every power exponent is exactly 2 when the
    /// exponent limit is at most 2 and otherwise lies in
    /// `[2, exponent_limit)`.
    pub open spec fn conforms(
        self,
        exponent_limit: int,
        coefficient_limit: int,
        flags: Seq<OperatorFlag>,
    ) -> bool
        decreases self,
    {
        match self.operator {
            Operators::Lit(m) => m.in_limits(exponent_limit, coefficient_limit),
            Operators::Add(l, r) => flags.contains(OperatorFlag::Add) && l.conforms(
                exponent_limit,
                coefficient_limit,
                flags,
            ) && r.conforms(exponent_limit, coefficient_limit, flags),
            Operators::Sub(l, r) => flags.contains(OperatorFlag::Sub) && l.conforms(
                exponent_limit,
                coefficient_limit,
                flags,
            ) && r.conforms(exponent_limit, coefficient_limit, flags),
            Operators::Mul(l, r) => flags.contains(OperatorFlag::Mul) && l.conforms(
                exponent_limit,
                coefficient_limit,
                flags,
            ) && r.conforms(exponent_limit, coefficient_limit, flags),
            Operators::Div(l, r) => flags.contains(OperatorFlag::Div) && l.conforms(
                exponent_limit,
                coefficient_limit,
                flags,
            ) && r.conforms(exponent_limit, coefficient_limit, flags),
            Operators::Pow(b, p) => flags.contains(OperatorFlag::Pow) && (if exponent_limit
                <= 2 {
                p == 2
            } else {
                2 <= p < exponent_limit
            }) && b.conforms(exponent_limit, coefficient_limit, flags),
        }
    }

    /// Whether every path of the tree carries exactly `d` operators: a
    /// literal leaf stands exactly where the decremented depth reaches zero.
    pub open spec fn leaves_at_depth(self, d: int) -> bool
        decreases self,
    {
        match self.operator {
            Operators::Lit(_) => d == 0,
            Operators::Add(l, r) => d >= 1 && l.leaves_at_depth(d - 1) && r.leaves_at_depth(
                d - 1,
            ),
            Operators::Sub(l, r) => d >= 1 && l.leaves_at_depth(d - 1) && r.leaves_at_depth(
                d - 1,
            ),
            Operators::Mul(l, r) => d >= 1 && l.leaves_at_depth(d - 1) && r.leaves_at_depth(
                d - 1,
            ),
            Operators::Div(l, r) => d >= 1 && l.leaves_at_depth(d - 1) && r.leaves_at_depth(
                d - 1,
            ),
            Operators::Pow(b, _) => d >= 1 && b.leaves_at_depth(d - 1),
        }
    }

    /// The bracket category of this node's operator alone: addition and
    /// subtraction neither need nor provide protection, multiplication
    /// demands brackets of loose children, and literals, fractions and
    /// powers carry their own delimiters.
    pub open spec fn spec_need_brackets(self) -> NeedBrackets {
        match self.operator {
            Operators::Add(_, _) => NeedBrackets::False,
            Operators::Sub(_, _) => NeedBrackets::False,
            Operators::Mul(_, _) => NeedBrackets::True,
            Operators::Lit(_) => NeedBrackets::Never,
            Operators::Div(_, _) => NeedBrackets::Never,
            Operators::Pow(_, _) => NeedBrackets::Never,
        }
    }

    /// The exact text `export` produces: the node renders its body, handing
    /// each child its own category, and wraps the body in parentheses
    /// exactly when the father demanded brackets and the node itself is in
    /// the unprotected category.
    pub open spec fn export_text(self, father_need_brackets: NeedBrackets) -> Seq<char>
        decreases self,
    {
        let own = self.spec_need_brackets();
        let body = match self.operator {
            Operators::Lit(m) => m.text(),
            Operators::Add(l, r) => l.export_text(own) + "+"@ + r.export_text(own),
            Operators::Sub(l, r) => l.export_text(own) + "-"@ + r.export_text(own),
            Operators::Mul(l, r) => l.export_text(own) + "\\times{}"@ + r.export_text(own),
            Operators::Div(l, r) => "\\frac{"@ + l.export_text(own) + "}{"@ + r.export_text(own)
                + "}"@,
            Operators::Pow(b, p) => "("@ + b.export_text(own) + ")^{"@ + spec_digits(p as nat)
                + "}"@,
        };
        if father_need_brackets == NeedBrackets::True && own == NeedBrackets::False {
            "("@ + body + ")"@
        } else {
            body
        }
    }

    /// The bracket category of this node, as a pure function of its variant.
    pub fn need_brackets(&self) -> (r: NeedBrackets)
        ensures
            r == self.spec_need_brackets(),
    {
        match self.operator {
            Operators::Add(_, _) | Operators::Sub(_, _) => NeedBrackets::False,
            Operators::Mul(_, _) => NeedBrackets::True,
            Operators::Lit(_) | Operators::Div(_, _) | Operators::Pow(_, _) => NeedBrackets::Never,
        }
    }

    /// Recursively generates a tree. Every recursion level draws its own
    /// operator kind from the enabled flags, and both children of a binary
    /// node are generated independently with the depth decremented; a leaf
    /// is a monomial over a freshly drawn exponent budget.
    pub(crate) fn generate(info: Info<'_>) -> (r: Self)
        requires
            info.wf(),
        ensures
            r.wf(),
            r.height() <= info.depth,
            r.conforms(
                info.exponent_limit as int,
                info.coefficient_limit as int,
                info.operator_flags@,
            ),
            r.leaves_at_depth(info.depth as int),
        decreases info.depth,
    {
        if info.depth == 0 {
            let budget = rng::random_i64(0, info.exponent_limit);
            Self {
                operator: Operators::Lit(Monomial::generate(budget, info.coefficient_limit)),
            }
        } else {
            let next = Info::new(
                info.depth - 1,
                info.exponent_limit,
                info.coefficient_limit,
                info.operator_flags,
            );
            let idx = rng::random_index(info.operator_flags.len());
            proof {
                assert(info.operator_flags@.contains(info.operator_flags@[idx as int]));
            }
            match info.operator_flags[idx] {
                OperatorFlag::Add => Self {
                    operator: Operators::Add(
                        Box::new(Formula::generate(next)),
                        Box::new(Formula::generate(next)),
                    ),
                },
                OperatorFlag::Sub => Self {
                    operator: Operators::Sub(
                        Box::new(Formula::generate(next)),
                        Box::new(Formula::generate(next)),
                    ),
                },
                OperatorFlag::Mul => Self {
                    operator: Operators::Mul(
                        Box::new(Formula::generate(next)),
                        Box::new(Formula::generate(next)),
                    ),
                },
                OperatorFlag::Div => Self {
                    operator: Operators::Div(
                        Box::new(Formula::generate(next)),
                        Box::new(Formula::generate(next)),
                    ),
                },
                OperatorFlag::Pow => Self {
                    operator: Operators::Pow(
                        Box::new(Formula::generate(next)),
                        if 2 >= info.exponent_limit {
                            2
                        } else {
                            rng::random_i64(2, info.exponent_limit)
                        },
                    ),
                },
            }
        }
    }

    /// Exports the tree to markup text. The result is exactly
    /// `self.export_text(father_need_brackets)`, a pure function of the tree
    /// and the incoming requirement, so repeated calls yield identical
    /// strings; the top-level caller passes `NeedBrackets::False`.
    pub fn export(&self, father_need_brackets: NeedBrackets) -> (r: String)
        requires
            self.wf(),
        ensures
            r@ == self.export_text(father_need_brackets),
        decreases *self,
    {
        let own = self.need_brackets();
        let body: String = match &self.operator {
            Operators::Lit(m) => m.export(),
            Operators::Add(l, r) => {
                let mut s = l.export(own);
                s.append("+");
                let rt = r.export(own);
                s.append(rt.as_str());
                s
            },
            Operators::Sub(l, r) => {
                let mut s = l.export(own);
                s.append("-");
                let rt = r.export(own);
                s.append(rt.as_str());
                s
            },
            Operators::Mul(l, r) => {
                let mut s = l.export(own);
                s.append("\\times{}");
                let rt = r.export(own);
                s.append(rt.as_str());
                s
            },
            Operators::Div(l, r) => {
                let mut s = String::from_str("\\frac{");
                let lt = l.export(own);
                s.append(lt.as_str());
                s.append("}{");
                let rt = r.export(own);
                s.append(rt.as_str());
                s.append("}");
                s
            },
            Operators::Pow(b, p) => {
                let mut s = String::from_str("(");
                let bt = b.export(own);
                s.append(bt.as_str());
                s.append(")^{");
                push_digits(&mut s, *p as u64);
                s.append("}");
                s
            },
        };
        if father_need_brackets == NeedBrackets::True && own == NeedBrackets::False {
            let mut s = String::from_str("(");
            s.append(body.as_str());
            s.append(")");
            s
        } else {
            body
        }
    }
}

/// Parenthesis balance: however deep the tree and whatever the incoming
/// requirement, the exported text holds as many open as close parentheses.
pub proof fn lemma_export_balanced(f: Formula, father_need_brackets: NeedBrackets)
    requires
        f.wf(),
    ensures
        balanced(f.export_text(father_need_brackets)),
    decreases f,
{
    let own = f.spec_need_brackets();
    lemma_fragments('(');
    lemma_fragments(')');
    let body = match f.operator {
        Operators::Lit(m) => m.text(),
        Operators::Add(l, r) => l.export_text(own) + "+"@ + r.export_text(own),
        Operators::Sub(l, r) => l.export_text(own) + "-"@ + r.export_text(own),
        Operators::Mul(l, r) => l.export_text(own) + "\\times{}"@ + r.export_text(own),
        Operators::Div(l, r) => "\\frac{"@ + l.export_text(own) + "}{"@ + r.export_text(own)
            + "}"@,
        Operators::Pow(b, p) => "("@ + b.export_text(own) + ")^{"@ + spec_digits(p as nat)
            + "}"@,
    };
    match f.operator {
        Operators::Lit(m) => {
            lemma_monomial_paren_free(&m);
        },
        Operators::Add(l, r) => {
            lemma_export_balanced(*l, own);
            lemma_export_balanced(*r, own);
            lemma_concat3_counts(l.export_text(own), "+"@, r.export_text(own));
        },
        Operators::Sub(l, r) => {
            lemma_export_balanced(*l, own);
            lemma_export_balanced(*r, own);
            lemma_concat3_counts(l.export_text(own), "-"@, r.export_text(own));
        },
        Operators::Mul(l, r) => {
            lemma_export_balanced(*l, own);
            lemma_export_balanced(*r, own);
            lemma_concat3_counts(l.export_text(own), "\\times{}"@, r.export_text(own));
        },
        Operators::Div(l, r) => {
            lemma_export_balanced(*l, own);
            lemma_export_balanced(*r, own);
            lemma_concat5_counts(
                "\\frac{"@,
                l.export_text(own),
                "}{"@,
                r.export_text(own),
                "}"@,
            );
        },
        Operators::Pow(b, p) => {
            lemma_export_balanced(*b, own);
            lemma_digits_paren_free(p as nat);
            lemma_concat5_counts("("@, b.export_text(own), ")^{"@, spec_digits(p as nat), "}"@);
        },
    }
    if father_need_brackets == NeedBrackets::True && own == NeedBrackets::False {
        lemma_concat3_counts_wrap(body);
    }
}

/// The exported text of a well-formed tree is never empty.
pub proof fn lemma_export_nonempty(f: Formula, father_need_brackets: NeedBrackets)
    requires
        f.wf(),
    ensures
        f.export_text(father_need_brackets).len() > 0,
    decreases f,
{
    let own = f.spec_need_brackets();
    match f.operator {
        Operators::Lit(m) => {
            lemma_monomial_nonempty(&m);
        },
        Operators::Add(l, _) => {
            lemma_export_nonempty(*l, own);
        },
        Operators::Sub(l, _) => {
            lemma_export_nonempty(*l, own);
        },
        Operators::Mul(l, _) => {
            lemma_export_nonempty(*l, own);
        },
        Operators::Div(_, _) => {
            reveal_strlit("\\frac{");
        },
        Operators::Pow(_, _) => {
            reveal_strlit("(");
        },
    }
}

} // verus!

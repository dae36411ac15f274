//! Decimal rendering of non-negative integers, together with the character
//! counting facts that the exporters' parenthesis-balance lemmas rely on.

use vstd::prelude::*;

verus! {

/// The character for one decimal digit.
pub open spec fn digit_char(d: int) -> char
    recommends
        0 <= d < 10,
{
    if d == 0 {
        '0'
    } else if d == 1 {
        '1'
    } else if d == 2 {
        '2'
    } else if d == 3 {
        '3'
    } else if d == 4 {
        '4'
    } else if d == 5 {
        '5'
    } else if d == 6 {
        '6'
    } else if d == 7 {
        '7'
    } else if d == 8 {
        '8'
    } else {
        '9'
    }
}

/// The decimal text of a non-negative integer, most significant digit first.
pub open spec fn spec_digits(n: nat) -> Seq<char>
    decreases n,
{
    if n < 10 {
        seq![digit_char(n as int)]
    } else {
        spec_digits(n / 10) + seq![digit_char((n % 10) as int)]
    }
}

/// One digit as a string slice.
fn digit_str(d: u64) -> (r: &'static str)
    requires
        d < 10,
    ensures
        r@ == seq![digit_char(d as int)],
{
    proof {
        reveal_strlit("0");
        reveal_strlit("1");
        reveal_strlit("2");
        reveal_strlit("3");
        reveal_strlit("4");
        reveal_strlit("5");
        reveal_strlit("6");
        reveal_strlit("7");
        reveal_strlit("8");
        reveal_strlit("9");
    }
    let r: &'static str = match d {
        0 => "0",
        1 => "1",
        2 => "2",
        3 => "3",
        4 => "4",
        5 => "5",
        6 => "6",
        7 => "7",
        8 => "8",
        _ => "9",
    };
    proof {
        assert(r@ =~= seq![digit_char(d as int)]);
    }
    r
}

/// Appends the decimal text of `n` to `s`.
pub fn push_digits(s: &mut String, n: u64)
    ensures
        final(s)@ == old(s)@ + spec_digits(n as nat),
    decreases n,
{
    if n < 10 {
        s.append(digit_str(n));
    } else {
        push_digits(s, n / 10);
        s.append(digit_str(n % 10));
        proof {
            assert(old(s)@ + spec_digits((n / 10) as nat) + seq![digit_char((n % 10) as int)]
                =~= old(s)@ + spec_digits(n as nat));
        }
    }
}

/// The decimal text of `n` as a fresh string.
pub fn digits_string(n: u64) -> (r: String)
    ensures
        r@ == spec_digits(n as nat),
{
    let mut s = String::new();
    push_digits(&mut s, n);
    proof {
        assert(Seq::<char>::empty() + spec_digits(n as nat) =~= spec_digits(n as nat));
    }
    s
}

/// How often `c` occurs in `s`.
pub open spec fn count_char(s: Seq<char>, c: char) -> nat
    decreases s.len(),
{
    if s.len() == 0 {
        0
    } else {
        count_char(s.drop_last(), c) + (if s.last() == c {
            1nat
        } else {
            0nat
        })
    }
}

/// A string with as many open as close parentheses.
pub open spec fn balanced(s: Seq<char>) -> bool {
    count_char(s, '(') == count_char(s, ')')
}

/// A string without any parenthesis at all.
pub open spec fn paren_free(s: Seq<char>) -> bool {
    count_char(s, '(') == 0 && count_char(s, ')') == 0
}

/// Character counts add up over concatenation.
pub proof fn lemma_count_char_concat(a: Seq<char>, b: Seq<char>, c: char)
    ensures
        count_char(a + b, c) == count_char(a, c) + count_char(b, c),
    decreases b.len(),
{
    if b.len() == 0 {
        assert(a + b =~= a);
    } else {
        lemma_count_char_concat(a, b.drop_last(), c);
        assert((a + b).drop_last() =~= a + b.drop_last());
        assert((a + b).last() == b.last());
    }
}

/// A one-character string holds just that character.
pub proof fn lemma_count_char_single(x: char, c: char)
    ensures
        count_char(seq![x], c) == (if x == c {
            1nat
        } else {
            0nat
        }),
{
    assert(seq![x].drop_last() =~= Seq::<char>::empty());
    assert(seq![x].last() == x);
    assert(count_char(Seq::<char>::empty(), c) == 0);
}

/// Decimal text never contains a parenthesis.
pub proof fn lemma_digits_paren_free(n: nat)
    ensures
        paren_free(spec_digits(n)),
    decreases n,
{
    if n < 10 {
        lemma_count_char_single(digit_char(n as int), '(');
        lemma_count_char_single(digit_char(n as int), ')');
    } else {
        lemma_digits_paren_free(n / 10);
        lemma_count_char_concat(spec_digits(n / 10), seq![digit_char((n % 10) as int)], '(');
        lemma_count_char_concat(spec_digits(n / 10), seq![digit_char((n % 10) as int)], ')');
        lemma_count_char_single(digit_char((n % 10) as int), '(');
        lemma_count_char_single(digit_char((n % 10) as int), ')');
    }
}

/// None of the constant fragments of the exporter holds a parenthesis.
pub proof fn lemma_fragments(c: char)
    requires
        c == '(' || c == ')',
    ensures
        count_char("+"@, c) == 0,
        count_char("-"@, c) == 0,
        count_char("\\times{}"@, c) == 0,
        count_char("\\frac{"@, c) == 0,
        count_char("}{"@, c) == 0,
        count_char("}"@, c) == 0,
        count_char(")^{"@, c) == (if c == ')' {
            1nat
        } else {
            0nat
        }),
        count_char("("@, c) == (if c == '(' {
            1nat
        } else {
            0nat
        }),
        count_char(")"@, c) == (if c == ')' {
            1nat
        } else {
            0nat
        }),
{
    reveal_strlit("+");
    reveal_strlit("-");
    reveal_strlit("\\times{}");
    reveal_strlit("\\frac{");
    reveal_strlit("}{");
    reveal_strlit("}");
    reveal_strlit(")^{");
    reveal_strlit("(");
    reveal_strlit(")");
    lemma_count_absent("+"@, c);
    lemma_count_absent("-"@, c);
    lemma_count_absent("\\times{}"@, c);
    lemma_count_absent("\\frac{"@, c);
    lemma_count_absent("}{"@, c);
    lemma_count_absent("}"@, c);
    lemma_count_char_single('(', c);
    assert("("@ =~= seq!['(']);
    lemma_count_char_single(')', c);
    assert(")"@ =~= seq![')']);
    if c == '(' {
        lemma_count_absent(")^{"@, c);
    } else {
        lemma_count_first_only(")^{"@, c);
    }
}

/// A character that occurs nowhere in a sequence counts zero times.
pub proof fn lemma_count_absent(s: Seq<char>, c: char)
    requires
        forall|i: int| 0 <= i < s.len() ==> s[i] != c,
    ensures
        count_char(s, c) == 0,
    decreases s.len(),
{
    if s.len() > 0 {
        lemma_count_absent(s.drop_last(), c);
    }
}

/// A character that occurs only at the front of a sequence counts once.
pub proof fn lemma_count_first_only(s: Seq<char>, c: char)
    requires
        1 <= s.len(),
        s[0] == c,
        forall|i: int| 1 <= i < s.len() ==> s[i] != c,
    ensures
        count_char(s, c) == 1,
    decreases s.len(),
{
    if s.len() == 1 {
        assert(s.drop_last() =~= Seq::<char>::empty());
        assert(count_char(Seq::<char>::empty(), c) == 0);
        assert(s.last() == s[0]);
    } else {
        lemma_count_first_only(s.drop_last(), c);
    }
}

/// Both parenthesis counts of a three-part concatenation.
pub proof fn lemma_concat3_counts(a: Seq<char>, m: Seq<char>, b: Seq<char>)
    ensures
        count_char(a + m + b, '(') == count_char(a, '(') + count_char(m, '(') + count_char(
            b,
            '(',
        ),
        count_char(a + m + b, ')') == count_char(a, ')') + count_char(m, ')') + count_char(
            b,
            ')',
        ),
{
    lemma_count_char_concat(a, m, '(');
    lemma_count_char_concat(a + m, b, '(');
    lemma_count_char_concat(a, m, ')');
    lemma_count_char_concat(a + m, b, ')');
}

/// Both parenthesis counts of the five-part concatenations the fraction and
/// power renderings produce.
pub proof fn lemma_concat5_counts(
    a: Seq<char>,
    b: Seq<char>,
    c: Seq<char>,
    d: Seq<char>,
    e: Seq<char>,
)
    ensures
        count_char(a + b + c + d + e, '(') == count_char(a, '(') + count_char(b, '(')
            + count_char(c, '(') + count_char(d, '(') + count_char(e, '('),
        count_char(a + b + c + d + e, ')') == count_char(a, ')') + count_char(b, ')')
            + count_char(c, ')') + count_char(d, ')') + count_char(e, ')'),
{
    lemma_count_char_concat(a, b, '(');
    lemma_count_char_concat(a + b, c, '(');
    lemma_count_char_concat(a + b + c, d, '(');
    lemma_count_char_concat(a + b + c + d, e, '(');
    lemma_count_char_concat(a, b, ')');
    lemma_count_char_concat(a + b, c, ')');
    lemma_count_char_concat(a + b + c, d, ')');
    lemma_count_char_concat(a + b + c + d, e, ')');
}

/// Wrapping a body in one pair of parentheses raises both counts by one.
pub proof fn lemma_concat3_counts_wrap(body: Seq<char>)
    ensures
        count_char("("@ + body + ")"@, '(') == count_char(body, '(') + 1,
        count_char("("@ + body + ")"@, ')') == count_char(body, ')') + 1,
{
    lemma_fragments('(');
    lemma_fragments(')');
    lemma_concat3_counts("("@, body, ")"@);
}

} // verus!

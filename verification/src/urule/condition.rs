//! The condition-expression grammar: a tokenizer and a recursive-descent
//! parser for boolean formulas over selector names, with `not` binding
//! tightest, then `and`, then `or`, parentheses overriding, and the
//! quantifier forms `N of pattern`, `all of pattern` and `N of them`. The
//! text left of the first `|` is the expression; what follows belongs to the
//! aggregation clause.

use vstd::prelude::*;
use crate::strings::{is_ws, spec_split, split_str, ws};

verus! {

broadcast use vstd::std_specs::vec::axiom_vec_index_decreases;

/// A selector pattern of a quantifier: every selector, a name prefix, or one
/// exact name.
#[derive(Debug)]
pub enum CondPattern {
    Them,
    Prefix(Vec<char>),
    Exact(Vec<char>),
}

/// The pattern over character sequences.
pub enum SpecPattern {
    Them,
    Prefix(Seq<char>),
    Exact(Seq<char>),
}

impl View for CondPattern {
    type V = SpecPattern;

    open spec fn view(&self) -> SpecPattern {
        match self {
            CondPattern::Them => SpecPattern::Them,
            CondPattern::Prefix(p) => SpecPattern::Prefix(p@),
            CondPattern::Exact(p) => SpecPattern::Exact(p@),
        }
    }
}

/// A parsed condition expression.
#[derive(Debug)]
pub enum CondExpr {
    Selector(Vec<char>),
    NotExpr(Box<CondExpr>),
    AndExpr(Box<CondExpr>, Box<CondExpr>),
    OrExpr(Box<CondExpr>, Box<CondExpr>),
    OfCount(u32, CondPattern),
    OfAll(CondPattern),
}

/// The expression over character sequences.
pub enum SpecCondExpr {
    Selector(Seq<char>),
    NotExpr(Box<SpecCondExpr>),
    AndExpr(Box<SpecCondExpr>, Box<SpecCondExpr>),
    OrExpr(Box<SpecCondExpr>, Box<SpecCondExpr>),
    OfCount(int, SpecPattern),
    OfAll(SpecPattern),
}

pub open spec fn view_expr(e: CondExpr) -> SpecCondExpr
    decreases e,
{
    match e {
        CondExpr::Selector(w) => SpecCondExpr::Selector(w@),
        CondExpr::NotExpr(b) => SpecCondExpr::NotExpr(Box::new(view_expr(*b))),
        CondExpr::AndExpr(a, b) => SpecCondExpr::AndExpr(
            Box::new(view_expr(*a)),
            Box::new(view_expr(*b)),
        ),
        CondExpr::OrExpr(a, b) => SpecCondExpr::OrExpr(
            Box::new(view_expr(*a)),
            Box::new(view_expr(*b)),
        ),
        CondExpr::OfCount(n, p) => SpecCondExpr::OfCount(n as int, p@),
        CondExpr::OfAll(p) => SpecCondExpr::OfAll(p@),
    }
}

impl View for CondExpr {
    type V = SpecCondExpr;

    open spec fn view(&self) -> SpecCondExpr {
        view_expr(*self)
    }
}

/// A character that ends a word: whitespace or a parenthesis.
pub open spec fn is_delim(c: char) -> bool {
    is_ws(c) || c == '(' || c == ')'
}

fn delim(c: char) -> (r: bool)
    ensures
        r == is_delim(c),
{
    ws(c) || c == '(' || c == ')'
}

/// The token sequence of an expression text: parentheses stand alone, other
/// words are maximal runs without whitespace or parentheses.
pub open spec fn spec_tokens(s: Seq<char>) -> Seq<Seq<char>>
    decreases s.len(),
{
    if s.len() == 0 {
        Seq::empty()
    } else if is_ws(s[0]) {
        spec_tokens(s.drop_first())
    } else if s[0] == '(' || s[0] == ')' {
        seq![seq![s[0]]] + spec_tokens(s.drop_first())
    } else {
        let r = spec_tokens(s.drop_first());
        if s.len() > 1 && !is_delim(s[1]) && r.len() > 0 {
            seq![seq![s[0]] + r[0]] + r.drop_first()
        } else {
            seq![seq![s[0]]] + r
        }
    }
}

fn tokens_rec(cs: &Vec<char>, i: usize) -> (r: Vec<Vec<char>>)
    requires
        i <= cs@.len(),
    ensures
        r@.len() == spec_tokens(cs@.skip(i as int)).len(),
        forall|k: int|
            0 <= k < r@.len() ==> r@[k]@ == spec_tokens(cs@.skip(i as int))[k],
    decreases cs@.len() - i,
{
    if i == cs.len() {
        proof {
            assert(cs@.skip(i as int) =~= Seq::<char>::empty());
        }
        Vec::new()
    } else {
        let c = cs[i];
        proof {
            assert(cs@.skip(i as int)[0] == cs@[i as int]);
            assert(cs@.skip(i as int).drop_first() =~= cs@.skip(i as int + 1));
            if i + 1 < cs@.len() {
                assert(cs@.skip(i as int)[1] == cs@[i as int + 1]);
            }
        }
        let mut rest = tokens_rec(cs, i + 1);
        if ws(c) {
            rest
        } else if c == '(' || c == ')' {
            let mut single: Vec<char> = Vec::new();
            single.push(c);
            rest.insert(0, single);
            rest
        } else {
            if i + 1 < cs.len() && !delim(cs[i + 1]) && rest.len() > 0 {
                let mut head = rest.remove(0);
                head.insert(0, c);
                rest.insert(0, head);
                proof {
                    let full = spec_tokens(cs@.skip(i as int));
                    let sub = spec_tokens(cs@.skip(i as int + 1));
                    assert(rest@[0]@ =~= seq![cs@[i as int]] + sub[0]);
                    assert(full == seq![seq![cs@[i as int]] + sub[0]] + sub.drop_first());
                }
                rest
            } else {
                let mut single: Vec<char> = Vec::new();
                single.push(c);
                rest.insert(0, single);
                proof {
                    assert(rest@[0]@ =~= seq![cs@[i as int]]);
                }
                rest
            }
        }
    }
}

/// The views of a word list.
pub open spec fn words_view(v: Seq<Vec<char>>) -> Seq<Seq<char>> {
    Seq::new(v.len(), |i: int| v[i]@)
}

/// A decimal digit.
pub open spec fn is_digit(c: char) -> bool {
    '0' <= c && c <= '9'
}

/// A non-empty word made only of digits.
pub open spec fn all_digits(w: Seq<char>) -> bool {
    w.len() > 0 && forall|i: int| 0 <= i < w.len() ==> is_digit(#[trigger] w[i])
}

/// The value of a digit word, most significant digit first.
pub open spec fn digits_val(w: Seq<char>) -> int
    decreases w.len(),
{
    if w.len() == 0 {
        0
    } else {
        digits_val(w.drop_last()) * 10 + (w.last() as int - 48)
    }
}

/// A word the grammar accepts as a quantifier pattern.
pub open spec fn valid_pattern_word(w: Seq<char>) -> bool {
    w != "("@ && w != ")"@ && w.len() > 0
}

/// The pattern a word denotes: `them`, a `*`-ended prefix, or an exact name.
pub open spec fn spec_pattern(w: Seq<char>) -> SpecPattern {
    if w == "them"@ {
        SpecPattern::Them
    } else if w.len() > 0 && w.last() == '*' {
        SpecPattern::Prefix(w.drop_last())
    } else {
        SpecPattern::Exact(w)
    }
}

/// A word that can only be a keyword or punctuation, never a selector.
pub open spec fn is_reserved_word(w: Seq<char>) -> bool {
    w == "not"@ || w == "and"@ || w == "or"@ || w == "of"@ || w == "all"@ || w == "them"@ || w
        == "("@ || w == ")"@
}

/// A primary expression: a parenthesised expression, a quantifier, or a
/// selector name.
pub open spec fn sp_primary(toks: Seq<Seq<char>>, pos: int) -> Option<(SpecCondExpr, int)>
    decreases toks.len() - pos, 0int,
{
    if !(0 <= pos && pos < toks.len()) {
        Option::None
    } else {
        let w = toks[pos];
        if w == "("@ {
            match sp_or(toks, pos + 1) {
                Option::Some((e, p)) => {
                    if p < toks.len() && toks[p] == ")"@ {
                        Option::Some((e, p + 1))
                    } else {
                        Option::None
                    }
                },
                Option::None => Option::None,
            }
        } else if w == "all"@ {
            if pos + 2 < toks.len() && toks[pos + 1] == "of"@ && valid_pattern_word(
                toks[pos + 2],
            ) {
                Option::Some((SpecCondExpr::OfAll(spec_pattern(toks[pos + 2])), pos + 3))
            } else {
                Option::None
            }
        } else if all_digits(w) {
            if digits_val(w) <= 0xFFFF_FFFF && pos + 2 < toks.len() && toks[pos + 1] == "of"@
                && valid_pattern_word(toks[pos + 2]) {
                Option::Some(
                    (SpecCondExpr::OfCount(digits_val(w), spec_pattern(toks[pos + 2])), pos + 3),
                )
            } else {
                Option::None
            }
        } else if is_reserved_word(w) {
            Option::None
        } else {
            Option::Some((SpecCondExpr::Selector(w), pos + 1))
        }
    }
}

/// A `not` chain over a primary.
pub open spec fn sp_unary(toks: Seq<Seq<char>>, pos: int) -> Option<(SpecCondExpr, int)>
    decreases toks.len() - pos, 1int,
{
    if 0 <= pos && pos < toks.len() && toks[pos] == "not"@ {
        match sp_unary(toks, pos + 1) {
            Option::Some((e, p)) => Option::Some((SpecCondExpr::NotExpr(Box::new(e)), p)),
            Option::None => Option::None,
        }
    } else {
        sp_primary(toks, pos)
    }
}

/// Left-associated `and` chains.
pub open spec fn sp_and(toks: Seq<Seq<char>>, pos: int) -> Option<(SpecCondExpr, int)>
    decreases toks.len() - pos, 2int,
{
    match sp_unary(toks, pos) {
        Option::Some((l, p)) => {
            if pos < p && p <= toks.len() {
                sp_and_more(toks, p, l)
            } else {
                Option::None
            }
        },
        Option::None => Option::None,
    }
}

pub open spec fn sp_and_more(toks: Seq<Seq<char>>, pos: int, lhs: SpecCondExpr) -> Option<
    (SpecCondExpr, int),
>
    decreases toks.len() - pos, 3int,
{
    if 0 <= pos && pos < toks.len() && toks[pos] == "and"@ {
        match sp_unary(toks, pos + 1) {
            Option::Some((r, p2)) => {
                if pos + 1 < p2 && p2 <= toks.len() {
                    sp_and_more(
                        toks,
                        p2,
                        SpecCondExpr::AndExpr(Box::new(lhs), Box::new(r)),
                    )
                } else {
                    Option::None
                }
            },
            Option::None => Option::None,
        }
    } else {
        Option::Some((lhs, pos))
    }
}

/// Left-associated `or` chains, the loosest level.
pub open spec fn sp_or(toks: Seq<Seq<char>>, pos: int) -> Option<(SpecCondExpr, int)>
    decreases toks.len() - pos, 4int,
{
    match sp_and(toks, pos) {
        Option::Some((l, p)) => {
            if pos < p && p <= toks.len() {
                sp_or_more(toks, p, l)
            } else {
                Option::None
            }
        },
        Option::None => Option::None,
    }
}

pub open spec fn sp_or_more(toks: Seq<Seq<char>>, pos: int, lhs: SpecCondExpr) -> Option<
    (SpecCondExpr, int),
>
    decreases toks.len() - pos, 5int,
{
    if 0 <= pos && pos < toks.len() && toks[pos] == "or"@ {
        match sp_and(toks, pos + 1) {
            Option::Some((r, p2)) => {
                if pos + 1 < p2 && p2 <= toks.len() {
                    sp_or_more(toks, p2, SpecCondExpr::OrExpr(Box::new(lhs), Box::new(r)))
                } else {
                    Option::None
                }
            },
            Option::None => Option::None,
        }
    } else {
        Option::Some((lhs, pos))
    }
}

/// The expression denoted by a whole condition text: the part left of the
/// first `|` must tokenize to a non-empty sequence that the grammar derives
/// completely.
pub open spec fn spec_parse_condition(s: Seq<char>) -> Option<SpecCondExpr> {
    let toks = spec_tokens(spec_split(s, '|')[0]);
    if toks.len() == 0 {
        Option::None
    } else {
        match sp_or(toks, 0) {
            Option::Some((e, p)) => {
                if p == toks.len() {
                    Option::Some(e)
                } else {
                    Option::None
                }
            },
            Option::None => Option::None,
        }
    }
}

fn word_is(w: &Vec<char>, lit: &str) -> (r: bool)
    ensures
        r == (w@ == lit@),
{
    let l = crate::strings::chars_of(lit);
    crate::strings::vec_eq(w, &l)
}

fn word_all_digits(w: &Vec<char>) -> (r: bool)
    ensures
        r == all_digits(w@),
{
    if w.len() == 0 {
        return false;
    }
    let mut i: usize = 0;
    while i < w.len()
        invariant
            i <= w@.len(),
            forall|k: int| 0 <= k < i ==> is_digit(#[trigger] w@[k]),
        decreases w@.len() - i,
    {
        let c = w[i];
        if !('0' <= c && c <= '9') {
            return false;
        }
        i = i + 1;
    }
    true
}

proof fn lemma_digits_val_nonneg(w: Seq<char>)
    requires
        forall|i: int| 0 <= i < w.len() ==> is_digit(#[trigger] w[i]),
    ensures
        digits_val(w) >= 0,
    decreases w.len(),
{
    if w.len() > 0 {
        lemma_digits_val_nonneg(w.drop_last());
    }
}

proof fn lemma_digits_val_mono(w: Seq<char>, i: int)
    requires
        forall|k: int| 0 <= k < w.len() ==> is_digit(#[trigger] w[k]),
        0 <= i <= w.len(),
    ensures
        digits_val(w) >= digits_val(w.take(i)),
    decreases w.len() - i,
{
    if i < w.len() {
        lemma_digits_val_mono(w, i + 1);
        assert(w.take(i + 1).drop_last() =~= w.take(i));
        assert(w.take(i + 1).last() == w[i]);
        assert(forall|k: int| 0 <= k < w.take(i).len() ==> is_digit(#[trigger] w.take(i)[k]));
        lemma_digits_val_nonneg(w.take(i));
    } else {
        assert(w.take(i) =~= w);
    }
}

fn word_digits_val(w: &Vec<char>) -> (r: Option<u32>)
    requires
        all_digits(w@),
    ensures
        match r {
            Option::Some(v) => digits_val(w@) == v as int,
            Option::None => digits_val(w@) > 0xFFFF_FFFF,
        },
{
    let mut acc: u64 = 0;
    let mut i: usize = 0;
    while i < w.len()
        invariant
            i <= w@.len(),
            all_digits(w@),
            acc as int == digits_val(w@.take(i as int)),
            acc <= 0xFFFF_FFFF * 10 + 9,
        decreases w@.len() - i,
    {
        if acc > 0xFFFF_FFFF {
            proof {
                lemma_digits_val_mono(w@, i as int);
            }
            return Option::None;
        }
        let c = w[i];
        proof {
            assert(is_digit(w@[i as int]));
            assert(w@.take(i as int + 1).drop_last() =~= w@.take(i as int));
            assert(w@.take(i as int + 1).last() == w@[i as int]);
        }
        acc = acc * 10 + (c as u64 - 48);
        i = i + 1;
    }
    proof {
        assert(w@.take(w@.len() as int) =~= w@);
    }
    if acc > 0xFFFF_FFFF {
        Option::None
    } else {
        Option::Some(acc as u32)
    }
}

fn pattern_of(w: &Vec<char>) -> (r: CondPattern)
    ensures
        r@ == spec_pattern(w@),
{
    if word_is(w, "them") {
        CondPattern::Them
    } else if w.len() > 0 && w[w.len() - 1] == '*' {
        let p = crate::strings::subvec(w, 0, w.len() - 1);
        proof {
            assert(w@.drop_last() =~= w@.subrange(0, w@.len() - 1));
        }
        CondPattern::Prefix(p)
    } else {
        let c = crate::strings::subvec(w, 0, w.len());
        proof {
            assert(w@.subrange(0, w@.len() as int) =~= w@);
        }
        CondPattern::Exact(c)
    }
}

fn word_reserved(w: &Vec<char>) -> (r: bool)
    ensures
        r == is_reserved_word(w@),
{
    word_is(w, "not") || word_is(w, "and") || word_is(w, "or") || word_is(w, "of") || word_is(
        w,
        "all",
    ) || word_is(w, "them") || word_is(w, "(") || word_is(w, ")")
}

fn parse_primary(toks: &Vec<Vec<char>>, pos: usize) -> (r: Option<(CondExpr, usize)>)
    requires
        pos <= toks@.len(),
    ensures
        match r {
            Option::Some((e, p)) => sp_primary(words_view(toks@), pos as int) == Option::Some(
                (e@, p as int),
            ) && pos < p <= toks@.len(),
            Option::None => sp_primary(words_view(toks@), pos as int) is None,
        },
    decreases toks@.len() - pos, 0int,
{
    let n = toks.len();
    if pos == n {
        return Option::None;
    }
    let w = &toks[pos];
    proof {
        assert(words_view(toks@)[pos as int] == toks@[pos as int]@);
    }
    if word_is(w, "(") {
        match parse_or(toks, pos + 1) {
            Option::Some((e, p)) => {
                if p < n {
                    proof {
                        assert(words_view(toks@)[p as int] == toks@[p as int]@);
                    }
                    if word_is(&toks[p], ")") {
                        return Option::Some((e, p + 1));
                    }
                }
                Option::None
            },
            Option::None => Option::None,
        }
    } else if word_is(w, "all") {
        if n - pos > 2 {
            proof {
                assert(words_view(toks@)[pos as int + 1] == toks@[pos as int + 1]@);
                assert(words_view(toks@)[pos as int + 2] == toks@[pos as int + 2]@);
            }
            if word_is(&toks[pos + 1], "of") {
                let pw = &toks[pos + 2];
                if !word_is(pw, "(") && !word_is(pw, ")") && pw.len() > 0 {
                    let pat = pattern_of(pw);
                    return Option::Some((CondExpr::OfAll(pat), pos + 3));
                }
            }
        }
        Option::None
    } else if word_all_digits(w) {
        let v = match word_digits_val(w) {
            Option::Some(v) => v,
            Option::None => {
                return Option::None;
            },
        };
        if n - pos > 2 {
            proof {
                assert(words_view(toks@)[pos as int + 1] == toks@[pos as int + 1]@);
                assert(words_view(toks@)[pos as int + 2] == toks@[pos as int + 2]@);
            }
            if word_is(&toks[pos + 1], "of") {
                let pw = &toks[pos + 2];
                if !word_is(pw, "(") && !word_is(pw, ")") && pw.len() > 0 {
                    let pat = pattern_of(pw);
                    return Option::Some((CondExpr::OfCount(v, pat), pos + 3));
                }
            }
        }
        Option::None
    } else if word_reserved(w) {
        Option::None
    } else {
        let c = crate::strings::subvec(w, 0, w.len());
        proof {
            assert(w@.subrange(0, w@.len() as int) =~= w@);
        }
        Option::Some((CondExpr::Selector(c), pos + 1))
    }
}

fn parse_unary(toks: &Vec<Vec<char>>, pos: usize) -> (r: Option<(CondExpr, usize)>)
    requires
        pos <= toks@.len(),
    ensures
        match r {
            Option::Some((e, p)) => sp_unary(words_view(toks@), pos as int) == Option::Some(
                (e@, p as int),
            ) && pos < p <= toks@.len(),
            Option::None => sp_unary(words_view(toks@), pos as int) is None,
        },
    decreases toks@.len() - pos, 1int,
{
    let n = toks.len();
    if pos < n {
        proof {
            assert(words_view(toks@)[pos as int] == toks@[pos as int]@);
        }
        if word_is(&toks[pos], "not") {
            return match parse_unary(toks, pos + 1) {
                Option::Some((e, p)) => Option::Some((CondExpr::NotExpr(Box::new(e)), p)),
                Option::None => Option::None,
            };
        }
    }
    parse_primary(toks, pos)
}

fn parse_and(toks: &Vec<Vec<char>>, pos: usize) -> (r: Option<(CondExpr, usize)>)
    requires
        pos <= toks@.len(),
    ensures
        match r {
            Option::Some((e, p)) => sp_and(words_view(toks@), pos as int) == Option::Some(
                (e@, p as int),
            ) && pos < p <= toks@.len(),
            Option::None => sp_and(words_view(toks@), pos as int) is None,
        },
    decreases toks@.len() - pos, 2int,
{
    match parse_unary(toks, pos) {
        Option::Some((l, p)) => parse_and_more(toks, p, l),
        Option::None => Option::None,
    }
}

fn parse_and_more(toks: &Vec<Vec<char>>, pos: usize, lhs: CondExpr) -> (r: Option<
    (CondExpr, usize)>)
    requires
        pos <= toks@.len(),
    ensures
        match r {
            Option::Some((e, p)) => sp_and_more(words_view(toks@), pos as int, lhs@)
                == Option::Some((e@, p as int)) && pos <= p <= toks@.len(),
            Option::None => sp_and_more(words_view(toks@), pos as int, lhs@) is None,
        },
    decreases toks@.len() - pos, 3int,
{
    let n = toks.len();
    if pos < n {
        proof {
            assert(words_view(toks@)[pos as int] == toks@[pos as int]@);
        }
        if word_is(&toks[pos], "and") {
            return match parse_unary(toks, pos + 1) {
                Option::Some((r2, p2)) => parse_and_more(
                    toks,
                    p2,
                    CondExpr::AndExpr(Box::new(lhs), Box::new(r2)),
                ),
                Option::None => Option::None,
            };
        }
    }
    Option::Some((lhs, pos))
}

fn parse_or(toks: &Vec<Vec<char>>, pos: usize) -> (r: Option<(CondExpr, usize)>)
    requires
        pos <= toks@.len(),
    ensures
        match r {
            Option::Some((e, p)) => sp_or(words_view(toks@), pos as int) == Option::Some(
                (e@, p as int),
            ) && pos < p <= toks@.len(),
            Option::None => sp_or(words_view(toks@), pos as int) is None,
        },
    decreases toks@.len() - pos, 4int,
{
    match parse_and(toks, pos) {
        Option::Some((l, p)) => parse_or_more(toks, p, l),
        Option::None => Option::None,
    }
}

fn parse_or_more(toks: &Vec<Vec<char>>, pos: usize, lhs: CondExpr) -> (r: Option<
    (CondExpr, usize)>)
    requires
        pos <= toks@.len(),
    ensures
        match r {
            Option::Some((e, p)) => sp_or_more(words_view(toks@), pos as int, lhs@)
                == Option::Some((e@, p as int)) && pos <= p <= toks@.len(),
            Option::None => sp_or_more(words_view(toks@), pos as int, lhs@) is None,
        },
    decreases toks@.len() - pos, 5int,
{
    let n = toks.len();
    if pos < n {
        proof {
            assert(words_view(toks@)[pos as int] == toks@[pos as int]@);
        }
        if word_is(&toks[pos], "or") {
            return match parse_and(toks, pos + 1) {
                Option::Some((r2, p2)) => parse_or_more(
                    toks,
                    p2,
                    CondExpr::OrExpr(Box::new(lhs), Box::new(r2)),
                ),
                Option::None => Option::None,
            };
        }
    }
    Option::Some((lhs, pos))
}

/// Parses the expression part of a condition text.
pub fn parse_condition(s: &str) -> (r: Option<CondExpr>)
    ensures
        match r {
            Option::Some(e) => spec_parse_condition(s@) == Option::Some(e@),
            Option::None => spec_parse_condition(s@) is None,
        },
{
    let segs = split_str(s, '|');
    let expr_part = &segs[0];
    let toks = tokens_rec(expr_part, 0);
    proof {
        assert(expr_part@.skip(0) =~= expr_part@);
        assert(words_view(toks@) =~= spec_tokens(spec_split(s@, '|')[0])) by {
            assert(forall|k: int|
                0 <= k < toks@.len() ==> words_view(toks@)[k] == toks@[k]@);
        }
    }
    if toks.len() == 0 {
        return Option::None;
    }
    match parse_or(&toks, 0) {
        Option::Some((e, p)) => {
            if p == toks.len() {
                Option::Some(e)
            } else {
                Option::None
            }
        },
        Option::None => Option::None,
    }
}

} // verus!

//! Matching a compiled rule against event records: the typed comparator
//! algebra, selector evaluation, the condition-expression grammar, and the
//! per-event memoised evaluation context.

pub mod matches;
pub mod value_modifiers;
pub mod agrupation;
pub mod condition;

use vstd::prelude::*;
use crate::field::{field_to_text, spec_field_text, SiemField, SiemLog};
use crate::rule::{SigmaRuleDetection, SigmaValues};
use crate::strings::{seq_contains, spec_split, split_str, str_contains, str_eq, string_of, vec_eq};
use crate::urule::matches::{match_equals, spec_match_equals};
use crate::urule::value_modifiers::{base64_of, to_base64, BASE64_INPUT_LIMIT};
use vstd::string::StrSliceExecFns;

verus! {

broadcast use vstd::std_specs::vec::axiom_vec_index_decreases;

/// The transform chain of a field-key applied to a field's text: each
/// `base64` segment encodes the text so far; an unknown segment, or a text
/// too long to encode, makes the selector resolve to a non-match.
pub open spec fn spec_transform_chain(mods: Seq<Seq<char>>, text: Seq<char>) -> Option<Seq<char>>
    decreases mods.len(),
{
    if mods.len() == 0 {
        Option::Some(text)
    } else if mods[0] == "base64"@ {
        if text.len() > BASE64_INPUT_LIMIT as nat {
            Option::None
        } else {
            spec_transform_chain(mods.drop_first(), base64_of(text))
        }
    } else {
        Option::None
    }
}

/// A textual comparison of an expected value against a transformed field
/// text: containment or equality for a present text, emptiness for an absent
/// one, ANY-of-list for lists, and `false` for an integer.
pub open spec fn spec_text_cmp(v: SigmaValues, t: Seq<char>, contains: bool) -> bool
    decreases v,
{
    match v {
        SigmaValues::Text(o) => match o {
            Option::Some(s) => if contains {
                seq_contains(t, s@)
            } else {
                s@ == t
            },
            Option::None => t.len() == 0,
        },
        SigmaValues::Int(_) => false,
        SigmaValues::Array(l) => exists|i: int|
            0 <= i < l@.len() && spec_text_cmp(#[trigger] l@[i], t, contains),
    }
}

/// The key's trailing segments select the base64-offset-aware containment
/// comparator.
pub open spec fn key_is_b64offset(rest: Seq<Seq<char>>) -> bool {
    rest.len() >= 2 && rest[rest.len() - 2] == "base64offset"@ && rest[rest.len() - 1]
        == "contains"@
}

/// The key's trailing segment selects the containment comparator.
pub open spec fn key_is_contains(rest: Seq<Seq<char>>) -> bool {
    !key_is_b64offset(rest) && rest.len() >= 1 && rest[rest.len() - 1] == "contains"@
}

/// The transform segments of a key: everything between the field name and
/// the comparator-selecting suffix.
pub open spec fn key_transforms(rest: Seq<Seq<char>>) -> Seq<Seq<char>> {
    if key_is_b64offset(rest) {
        rest.take(rest.len() - 2)
    } else if key_is_contains(rest) {
        rest.take(rest.len() - 1)
    } else {
        rest
    }
}

/// One field-key/value pair of a selection against an event: the key splits
/// on `|` into the field name, transform segments and an optional comparator
/// suffix. An absent field matches exactly the explicit-absence marker; a
/// present field compares raw under the default comparator without
/// transforms, and through its transformed text otherwise.
pub open spec fn spec_matches_selection(key: Seq<char>, value: SigmaValues, log: SiemLog) -> bool {
    let segs = spec_split(key, '|');
    let name = segs[0];
    let rest = segs.drop_first();
    let b64o = key_is_b64offset(rest);
    let cont = key_is_contains(rest);
    let transforms = key_transforms(rest);
    match log.spec_field(name) {
        Option::None => value == SigmaValues::Text(Option::<String>::None),
        Option::Some(f) => {
            if transforms.len() == 0 && !b64o && !cont {
                spec_match_equals(value, f)
            } else {
                match spec_transform_chain(transforms, spec_field_text(f)) {
                    Option::None => false,
                    Option::Some(t) => spec_text_cmp(value, t, b64o || cont),
                }
            }
        },
    }
}

/// Whether one named detection entry matches an event: keywords with OR
/// semantics over the raw message, selections with AND semantics over all
/// pairs. A `Condition` entry is not a selector; dispatching one is vacuously
/// true, and rule compilation rejects conditions that reach it.
pub open spec fn spec_match_entry(e: SigmaRuleDetection, log: SiemLog) -> bool {
    match e {
        SigmaRuleDetection::Keywords(ks) => exists|i: int|
            0 <= i < ks@.len() && seq_contains(log.spec_message(), (#[trigger] ks@[i])@),
        SigmaRuleDetection::Selection(pairs) => forall|i: int|
            0 <= i < pairs@.len() ==> spec_matches_selection(
                (#[trigger] pairs@[i]).0@,
                pairs@[i].1,
                log,
            ),
        SigmaRuleDetection::Condition(_) => true,
    }
}

#[verifier::loop_isolation(false)]
fn text_cmp(value: &SigmaValues, t: &str, contains: bool) -> (r: bool)
    ensures
        r == spec_text_cmp(*value, t@, contains),
    decreases *value,
{
    match value {
        SigmaValues::Text(o) => match o {
            Option::Some(s) => {
                if contains {
                    str_contains(t, s.as_str())
                } else {
                    str_eq(s.as_str(), t)
                }
            },
            Option::None => t.is_empty(),
        },
        SigmaValues::Int(_) => false,
        SigmaValues::Array(l) => {
            let mut i: usize = 0;
            while i < l.len()
                invariant
                    i <= l@.len(),
                    forall|k: int| 0 <= k < i ==> !spec_text_cmp(#[trigger] l@[k], t@, contains),
                decreases l@.len() - i,
            {
                if text_cmp(&l[i], t, contains) {
                    return true;
                }
                i = i + 1;
            }
            false
        },
    }
}

/// One field-key/value pair of a selection, against an event.
#[verifier::loop_isolation(false)]
pub fn matches_selection(key: &str, value: &SigmaValues, log: &SiemLog) -> (r: bool)
    ensures
        r == spec_matches_selection(key@, *value, *log),
{
    let segs = split_str(key, '|');
    let n = segs.len();
    let name = string_of(&segs[0]);
    let b64_w = crate::strings::chars_of("base64offset");
    let cont_w = crate::strings::chars_of("contains");
    let ghost rest = spec_split(key@, '|').drop_first();
    proof {
        assert(forall|k: int| 0 <= k < rest.len() ==> rest[k] == spec_split(key@, '|')[k + 1]);
    }
    let b64o = n >= 3 && vec_eq(&segs[n - 2], &b64_w) && vec_eq(&segs[n - 1], &cont_w);
    let cont = !b64o && n >= 2 && vec_eq(&segs[n - 1], &cont_w);
    proof {
        reveal_strlit("base64offset");
        reveal_strlit("contains");
        assert(b64o == key_is_b64offset(rest));
        assert(cont == key_is_contains(rest));
    }
    // the transform segments occupy positions 1 .. t_end of the split key
    let t_end: usize = if b64o {
        n - 2
    } else if cont {
        n - 1
    } else {
        n
    };
    proof {
        assert(key_transforms(rest).len() == t_end - 1);
        assert(forall|k: int|
            0 <= k < key_transforms(rest).len() ==> key_transforms(rest)[k] == rest[k]);
    }
    let field = match log.field(name.as_str()) {
        Option::Some(f) => f,
        Option::None => {
            return match value {
                SigmaValues::Text(o) => match o {
                    Option::None => true,
                    Option::Some(_) => false,
                },
                _ => false,
            };
        },
    };
    if t_end == 1 && !b64o && !cont {
        return match_equals(value, field);
    }
    let mut text = field_to_text(field);
    let base64_w = crate::strings::chars_of("base64");
    proof {
        reveal_strlit("base64");
        assert(key_transforms(rest).skip(0) =~= key_transforms(rest));
    }
    let mut i: usize = 1;
    while i < t_end
        invariant
            1 <= i <= t_end,
            t_end <= n,
            n == segs@.len(),
            base64_w@ == "base64"@,
            n == spec_split(key@, '|').len(),
            forall|k: int| 0 <= k < n ==> (#[trigger] segs@[k])@ == spec_split(key@, '|')[k],
            rest == spec_split(key@, '|').drop_first(),
            key_transforms(rest).len() == t_end - 1,
            forall|k: int|
                0 <= k < key_transforms(rest).len() ==> key_transforms(rest)[k] == rest[k],
            forall|k: int| 0 <= k < rest.len() ==> rest[k] == spec_split(key@, '|')[k + 1],
            spec_transform_chain(key_transforms(rest), spec_field_text(*field))
                == spec_transform_chain(key_transforms(rest).skip(i - 1), text@),
        decreases t_end - i,
    {
        proof {
            assert(key_transforms(rest).skip(i - 1)[0] == rest[i - 1]);
            assert(rest[i - 1] == segs@[i as int]@);
            assert(key_transforms(rest).skip(i - 1).drop_first() =~= key_transforms(rest).skip(
                i as int,
            ));
        }
        if vec_eq(&segs[i], &base64_w) {
            if text.as_str().unicode_len() > BASE64_INPUT_LIMIT {
                return false;
            }
            text = to_base64(text.as_str());
        } else {
            return false;
        }
        i = i + 1;
    }
    proof {
        assert(key_transforms(rest).skip(t_end - 1) =~= Seq::<Seq<char>>::empty());
    }
    text_cmp(value, text.as_str(), b64o || cont)
}

/// Whether a named detection entry matches an event.
#[verifier::loop_isolation(false)]
pub fn match_rule_condition(condition: &SigmaRuleDetection, log: &SiemLog) -> (r: bool)
    ensures
        r == spec_match_entry(*condition, *log),
{
    match condition {
        SigmaRuleDetection::Keywords(keywords) => {
            let mut i: usize = 0;
            while i < keywords.len()
                invariant
                    i <= keywords@.len(),
                    forall|k: int|
                        0 <= k < i ==> !seq_contains(log.spec_message(), (#[trigger] keywords@[k])@),
                decreases keywords@.len() - i,
            {
                if str_contains(log.message(), keywords[i].as_str()) {
                    return true;
                }
                i = i + 1;
            }
            false
        },
        SigmaRuleDetection::Selection(map) => {
            let mut i: usize = 0;
            while i < map.len()
                invariant
                    i <= map@.len(),
                    forall|k: int|
                        0 <= k < i ==> spec_matches_selection(
                            (#[trigger] map@[k]).0@,
                            map@[k].1,
                            *log,
                        ),
                decreases map@.len() - i,
            {
                if !matches_selection(map[i].0.as_str(), &map[i].1, log) {
                    return false;
                }
                i = i + 1;
            }
            true
        },
        SigmaRuleDetection::Condition(_) => true,
    }
}

} // verus!

use std::sync::Arc;
use crate::rule::{DetectionMap, SigmaError, SigmaRule};
use crate::strings::{chars_of, seq_starts_with, vec_starts_with};
use crate::table::{assoc_get, assoc_lookup, assoc_set, assoc_unique, lemma_assoc_lookup_index};
use crate::urule::agrupation::{agrupation_from_rule, spec_agrupation, SigmaAgrupation};
use crate::urule::condition::{parse_condition, spec_parse_condition, CondExpr, CondPattern,
    SpecCondExpr, SpecPattern};

verus! {

/// Whether a quantifier pattern covers a selector name.
pub open spec fn pat_matches(p: SpecPattern, name: Seq<char>) -> bool {
    match p {
        SpecPattern::Them => true,
        SpecPattern::Prefix(pre) => seq_starts_with(name, pre),
        SpecPattern::Exact(e) => name == e,
    }
}

/// Whether a detection entry belongs to a quantifier group: its name matches
/// the pattern and is not the `condition` entry itself.
pub open spec fn sel_is_counted(entry: (String, SigmaRuleDetection), p: SpecPattern) -> bool {
    entry.0@ != "condition"@ && pat_matches(p, entry.0@)
}

/// How many detection entries a quantifier pattern covers.
pub open spec fn sel_counts(entries: Seq<(String, SigmaRuleDetection)>, p: SpecPattern) -> int
    decreases entries.len(),
{
    if entries.len() == 0 {
        0
    } else {
        sel_counts(entries.drop_last(), p) + if sel_is_counted(entries.last(), p) {
            1int
        } else {
            0int
        }
    }
}

/// How many covered entries match the event.
pub open spec fn sel_true_counts(
    entries: Seq<(String, SigmaRuleDetection)>,
    p: SpecPattern,
    log: SiemLog,
) -> int
    decreases entries.len(),
{
    if entries.len() == 0 {
        0
    } else {
        sel_true_counts(entries.drop_last(), p, log) + if sel_is_counted(entries.last(), p)
            && spec_match_entry(entries.last().1, log) {
            1int
        } else {
            0int
        }
    }
}

/// A selector name resolves through the detection map; an unknown name is
/// false.
pub open spec fn spec_eval_selector(det: DetectionMap, name: Seq<char>, log: SiemLog) -> bool {
    match det.spec_get(name) {
        Option::Some(e) => spec_match_entry(e, log),
        Option::None => false,
    }
}

/// The meaning of a condition expression against one event: boolean
/// connectives over selector results, and thresholds over the quantifier
/// counts.
pub open spec fn spec_eval_expr(e: SpecCondExpr, det: DetectionMap, log: SiemLog) -> bool
    decreases e,
{
    match e {
        SpecCondExpr::Selector(n) => spec_eval_selector(det, n, log),
        SpecCondExpr::NotExpr(b) => !spec_eval_expr(*b, det, log),
        SpecCondExpr::AndExpr(a, b) => spec_eval_expr(*a, det, log) && spec_eval_expr(
            *b,
            det,
            log,
        ),
        SpecCondExpr::OrExpr(a, b) => spec_eval_expr(*a, det, log) || spec_eval_expr(
            *b,
            det,
            log,
        ),
        SpecCondExpr::OfCount(n, p) => sel_true_counts(det.entries(), p, log) >= n,
        SpecCondExpr::OfAll(p) => sel_true_counts(det.entries(), p, log) == sel_counts(
            det.entries(),
            p,
        ),
    }
}

/// The first load-time fault of an expression, in evaluation order: a name
/// that is no usable selector, or a quantifier pattern covering no selector.
pub open spec fn spec_wf_err(e: SpecCondExpr, det: DetectionMap) -> Option<SigmaError>
    decreases e,
{
    match e {
        SpecCondExpr::Selector(n) => match det.spec_get(n) {
            Option::None => Option::Some(SigmaError::UnknownSelector),
            Option::Some(x) => match x {
                SigmaRuleDetection::Condition(_) => Option::Some(SigmaError::UnknownSelector),
                _ => Option::None,
            },
        },
        SpecCondExpr::NotExpr(b) => spec_wf_err(*b, det),
        SpecCondExpr::AndExpr(a, b) => if spec_wf_err(*a, det) is Some {
            spec_wf_err(*a, det)
        } else {
            spec_wf_err(*b, det)
        },
        SpecCondExpr::OrExpr(a, b) => if spec_wf_err(*a, det) is Some {
            spec_wf_err(*a, det)
        } else {
            spec_wf_err(*b, det)
        },
        SpecCondExpr::OfCount(_, p) => if sel_counts(det.entries(), p) >= 1 {
            Option::None
        } else {
            Option::Some(SigmaError::EmptyPattern)
        },
        SpecCondExpr::OfAll(p) => if sel_counts(det.entries(), p) >= 1 {
            Option::None
        } else {
            Option::Some(SigmaError::EmptyPattern)
        },
    }
}

/// Every cached selector result agrees with the selector's meaning for this
/// event.
pub open spec fn cache_ok(cache: Seq<(String, bool)>, det: DetectionMap, log: SiemLog) -> bool {
    forall|n: Seq<char>|
        (#[trigger] assoc_lookup(cache, n)) matches Option::Some(v) ==> v == spec_eval_selector(
            det,
            n,
            log,
        )
}

fn exec_pat_matches(pat: &CondPattern, name: &String) -> (r: bool)
    ensures
        r == pat_matches(pat@, name@),
{
    match pat {
        CondPattern::Them => true,
        CondPattern::Prefix(pre) => {
            let nc = chars_of(name.as_str());
            vec_starts_with(&nc, pre)
        },
        CondPattern::Exact(e) => {
            let nc = chars_of(name.as_str());
            vec_eq(&nc, e)
        },
    }
}

/// Resolves one selector name through the memo cache: a hit returns the
/// cached result, a miss computes, stores and returns it.
fn match_condition_impl(
    rule: &SigmaRule,
    cache: &mut Vec<(String, bool)>,
    name: &str,
    log: &SiemLog,
) -> (r: bool)
    requires
        assoc_unique(old(cache)@),
        cache_ok(old(cache)@, rule.detection, *log),
    ensures
        r == spec_eval_selector(rule.detection, name@, *log),
        assoc_unique(final(cache)@),
        cache_ok(final(cache)@, rule.detection, *log),
        assoc_lookup(final(cache)@, name@) is Some,
        assoc_lookup(old(cache)@, name@) is Some ==> final(cache)@ == old(cache)@,
        forall|other: Seq<char>|
            assoc_lookup(old(cache)@, other) is Some ==> assoc_lookup(final(cache)@, other)
                == assoc_lookup(old(cache)@, other),
{
    let cached = match assoc_get(cache, name) {
        Option::Some(b) => Option::Some(*b),
        Option::None => Option::None,
    };
    match cached {
        Option::Some(b) => b,
        Option::None => {
            let result = match rule.detection.get(name) {
                Option::Some(e) => match_rule_condition(e, log),
                Option::None => false,
            };
            assoc_set(cache, name.to_owned(), result);
            proof {
                assert forall|n: Seq<char>|
                    ((#[trigger] assoc_lookup(cache@, n)) matches Option::Some(v) ==> v
                        == spec_eval_selector(rule.detection, n, *log)) by {
                    if n != name@ {
                        assert(assoc_lookup(cache@, n) == assoc_lookup(old(cache)@, n));
                    }
                }
            }
            result
        },
    }
}

/// Counts the selectors a pattern covers, without evaluating them.
#[verifier::loop_isolation(false)]
fn count_static(det: &DetectionMap, pat: &CondPattern) -> (r: usize)
    ensures
        r as int == sel_counts(det.entries(), pat@),
{
    let n = det.len();
    let mut total: usize = 0;
    let mut i: usize = 0;
    while i < n
        invariant
            i <= n,
            total <= i,
            total as int == sel_counts(det.entries().take(i as int), pat@),
        decreases n - i,
    {
        let (name, _) = det.entry_at(i);
        proof {
            assert(det.entries().take(i as int + 1).drop_last() =~= det.entries().take(i as int));
            assert(det.entries().take(i as int + 1).last() == det.entries()[i as int]);
        }
        if !str_eq(name.as_str(), "condition") && exec_pat_matches(pat, name) {
            total = total + 1;
        }
        i = i + 1;
    }
    proof {
        assert(det.entries().take(n as int) =~= det.entries());
    }
    total
}

/// Evaluates a quantifier group: how many selectors the pattern covers, and
/// how many of them match the event, each computed at most once through the
/// cache.
#[verifier::loop_isolation(false)]
fn count_quant(
    rule: &SigmaRule,
    pat: &CondPattern,
    cache: &mut Vec<(String, bool)>,
    log: &SiemLog,
) -> (r: (usize, usize))
    requires
        rule.detection.wf(),
        assoc_unique(old(cache)@),
        cache_ok(old(cache)@, rule.detection, *log),
    ensures
        r.0 as int == sel_counts(rule.detection.entries(), pat@),
        r.1 as int == sel_true_counts(rule.detection.entries(), pat@, *log),
        assoc_unique(final(cache)@),
        cache_ok(final(cache)@, rule.detection, *log),
{
    let n = rule.detection.len();
    let mut total: usize = 0;
    let mut tr: usize = 0;
    let mut i: usize = 0;
    while i < n
        invariant
            i <= n,
            total <= i,
            tr <= total,
            total as int == sel_counts(rule.detection.entries().take(i as int), pat@),
            tr as int == sel_true_counts(rule.detection.entries().take(i as int), pat@, *log),
            assoc_unique(cache@),
            cache_ok(cache@, rule.detection, *log),
        decreases n - i,
    {
        let (name, _) = rule.detection.entry_at(i);
        proof {
            assert(rule.detection.entries().take(i as int + 1).drop_last()
                =~= rule.detection.entries().take(i as int));
            assert(rule.detection.entries().take(i as int + 1).last()
                == rule.detection.entries()[i as int]);
        }
        if !str_eq(name.as_str(), "condition") && exec_pat_matches(pat, name) {
            total = total + 1;
            let owned = name.clone();
            let b = match_condition_impl(rule, cache, owned.as_str(), log);
            proof {
                lemma_assoc_lookup_index(rule.detection.entries(), i as int);
            }
            if b {
                tr = tr + 1;
            }
        }
        i = i + 1;
    }
    proof {
        assert(rule.detection.entries().take(n as int) =~= rule.detection.entries());
    }
    (total, tr)
}

/// The load-time well-formedness check of a compiled expression.
fn check_expr(e: &CondExpr, det: &DetectionMap) -> (r: Option<SigmaError>)
    ensures
        r == spec_wf_err(e@, *det),
    decreases *e,
{
    match e {
        CondExpr::Selector(w) => {
            let name = string_of(w);
            match det.get(name.as_str()) {
                Option::None => Option::Some(SigmaError::UnknownSelector),
                Option::Some(x) => match x {
                    SigmaRuleDetection::Condition(_) => Option::Some(SigmaError::UnknownSelector),
                    _ => Option::None,
                },
            }
        },
        CondExpr::NotExpr(b) => check_expr(&*b, det),
        CondExpr::AndExpr(a, b) => match check_expr(&*a, det) {
            Option::Some(err) => Option::Some(err),
            Option::None => check_expr(&*b, det),
        },
        CondExpr::OrExpr(a, b) => match check_expr(&*a, det) {
            Option::Some(err) => Option::Some(err),
            Option::None => check_expr(&*b, det),
        },
        CondExpr::OfCount(_, p) => {
            if count_static(det, p) >= 1 {
                Option::None
            } else {
                Option::Some(SigmaError::EmptyPattern)
            }
        },
        CondExpr::OfAll(p) => {
            if count_static(det, p) >= 1 {
                Option::None
            } else {
                Option::Some(SigmaError::EmptyPattern)
            }
        },
    }
}

/// Evaluates a compiled expression against one event, resolving selectors
/// through the memo cache.
fn eval_expr(
    expr: &CondExpr,
    rule: &SigmaRule,
    cache: &mut Vec<(String, bool)>,
    log: &SiemLog,
) -> (r: bool)
    requires
        rule.detection.wf(),
        assoc_unique(old(cache)@),
        cache_ok(old(cache)@, rule.detection, *log),
    ensures
        r == spec_eval_expr(expr@, rule.detection, *log),
        assoc_unique(final(cache)@),
        cache_ok(final(cache)@, rule.detection, *log),
    decreases *expr,
{
    match expr {
        CondExpr::Selector(w) => {
            let name = string_of(w);
            match_condition_impl(rule, cache, name.as_str(), log)
        },
        CondExpr::NotExpr(b) => !eval_expr(&*b, rule, cache, log),
        CondExpr::AndExpr(a, b) => {
            if eval_expr(&*a, rule, cache, log) {
                eval_expr(&*b, rule, cache, log)
            } else {
                false
            }
        },
        CondExpr::OrExpr(a, b) => {
            if eval_expr(&*a, rule, cache, log) {
                true
            } else {
                eval_expr(&*b, rule, cache, log)
            }
        },
        CondExpr::OfCount(k, p) => {
            let (_, tr) = count_quant(rule, p, cache, log);
            let threshold = *k;
            (tr as u64) >= (threshold as u64)
        },
        CondExpr::OfAll(p) => {
            let (total, tr) = count_quant(rule, p, cache, log);
            total == tr
        },
    }
}

} // verus!

verus! {

/// A compiled rule: the shared immutable rule, its aggregation descriptor,
/// the compiled condition expression, and a per-event cache of selector
/// results. Clone a compiled rule to get an independent evaluation context
/// for the next event; the clone shares the rule and starts with an empty
/// cache.
pub struct SiemSigmaRule {
    rule: Arc<SigmaRule>,
    agrupation: SigmaAgrupation,
    ast: CondExpr,
    conditions: Vec<(String, bool)>,
}

/// Relies on `Arc::clone`: the clone is a handle to the same shared rule,
/// not a copy of it.
#[verifier::external_body]
fn arc_clone(rule: &Arc<SigmaRule>) -> (r: Arc<SigmaRule>)
    ensures
        r == *rule,
{
    rule.clone()
}

fn clone_agrupation(a: &SigmaAgrupation) -> (r: SigmaAgrupation)
    ensures
        r@ == a@,
{
    match a {
        SigmaAgrupation::Count(g) => SigmaAgrupation::Count(g.clone()),
        SigmaAgrupation::CountParamBy(p, g) => SigmaAgrupation::CountParamBy(p.clone(), g.clone()),
        SigmaAgrupation::Max(p, g) => SigmaAgrupation::Max(p.clone(), g.clone()),
        SigmaAgrupation::Min(p, g) => SigmaAgrupation::Min(p.clone(), g.clone()),
        SigmaAgrupation::Avg(p, g) => SigmaAgrupation::Avg(p.clone(), g.clone()),
        SigmaAgrupation::Sum(p, g) => SigmaAgrupation::Sum(p.clone(), g.clone()),
        SigmaAgrupation::NoAgrupation => SigmaAgrupation::NoAgrupation,
    }
}

fn clone_pattern(p: &CondPattern) -> (r: CondPattern)
    ensures
        r@ == p@,
{
    match p {
        CondPattern::Them => CondPattern::Them,
        CondPattern::Prefix(w) => {
            let c = crate::strings::subvec(w, 0, w.len());
            proof {
                assert(w@.subrange(0, w@.len() as int) =~= w@);
            }
            CondPattern::Prefix(c)
        },
        CondPattern::Exact(w) => {
            let c = crate::strings::subvec(w, 0, w.len());
            proof {
                assert(w@.subrange(0, w@.len() as int) =~= w@);
            }
            CondPattern::Exact(c)
        },
    }
}

fn clone_expr(e: &CondExpr) -> (r: CondExpr)
    ensures
        r@ == e@,
    decreases *e,
{
    match e {
        CondExpr::Selector(w) => {
            let c = crate::strings::subvec(w, 0, w.len());
            proof {
                assert(w@.subrange(0, w@.len() as int) =~= w@);
            }
            CondExpr::Selector(c)
        },
        CondExpr::NotExpr(b) => CondExpr::NotExpr(Box::new(clone_expr(&*b))),
        CondExpr::AndExpr(a, b) => CondExpr::AndExpr(
            Box::new(clone_expr(&*a)),
            Box::new(clone_expr(&*b)),
        ),
        CondExpr::OrExpr(a, b) => CondExpr::OrExpr(
            Box::new(clone_expr(&*a)),
            Box::new(clone_expr(&*b)),
        ),
        CondExpr::OfCount(n, p) => CondExpr::OfCount(*n, clone_pattern(p)),
        CondExpr::OfAll(p) => CondExpr::OfAll(clone_pattern(p)),
    }
}

/// What compiling a rule must produce: each load-time fault mapped to its
/// error, in the order the checks run, and on success an instance carrying
/// the rule, its descriptor, the compiled expression and an empty cache.
pub open spec fn compiles_to(rule: SigmaRule, r: Result<SiemSigmaRule, SigmaError>) -> bool {
    match rule.detection.spec_get("condition"@) {
        Option::None => r == Result::<SiemSigmaRule, SigmaError>::Err(SigmaError::MissingCondition),
        Option::Some(e) => match e {
            SigmaRuleDetection::Condition(c) => match spec_agrupation(c@) {
                Result::Err(_) => r == Result::<SiemSigmaRule, SigmaError>::Err(
                    SigmaError::InvalidAggregation,
                ),
                Result::Ok(agr) => match spec_parse_condition(c@) {
                    Option::None => r == Result::<SiemSigmaRule, SigmaError>::Err(
                        SigmaError::InvalidCondition,
                    ),
                    Option::Some(ast) => match spec_wf_err(ast, rule.detection) {
                        Option::Some(err) => r == Result::<SiemSigmaRule, SigmaError>::Err(err),
                        Option::None => r matches Result::Ok(inst) && inst.spec_rule() == rule
                            && inst.spec_agrupation()@ == agr && inst.spec_ast() == ast
                            && inst.cache_view() == Seq::<(String, bool)>::empty(),
                    },
                },
            },
            _ => r == Result::<SiemSigmaRule, SigmaError>::Err(SigmaError::InvalidConditionFormat),
        },
    }
}

impl SiemSigmaRule {
    /// The underlying rule.
    pub closed spec fn spec_rule(self) -> SigmaRule {
        *self.rule
    }

    /// The precomputed aggregation descriptor.
    pub closed spec fn spec_agrupation(self) -> SigmaAgrupation {
        self.agrupation
    }

    /// The compiled condition expression.
    pub closed spec fn spec_ast(self) -> SpecCondExpr {
        self.ast@
    }

    /// The memo cache of this evaluation context.
    pub closed spec fn cache_view(self) -> Seq<(String, bool)> {
        self.conditions@
    }

    /// The instance is usable: unique selector names and a duplicate-free
    /// cache.
    pub open spec fn wf(self) -> bool {
        self.spec_rule().detection.wf() && assoc_unique(self.cache_view())
    }

    /// The cache holds only results that are right for this event.
    pub open spec fn cache_consistent(self, log: SiemLog) -> bool {
        cache_ok(self.cache_view(), self.spec_rule().detection, log)
    }

    /// Compiles a rule: reads the aggregation descriptor, parses the
    /// condition grammar and checks every referenced selector, reporting the
    /// first fault as a load-time error.
    pub fn new(rule: Arc<SigmaRule>) -> (r: Result<SiemSigmaRule, SigmaError>)
        requires
            rule.detection.wf(),
        ensures
            compiles_to(*rule, r),
            r matches Result::Ok(inst) ==> inst.wf() && forall|log: SiemLog|
                inst.cache_consistent(log),
    {
        let agrupation = match agrupation_from_rule(&rule) {
            Result::Ok(a) => a,
            Result::Err(e) => {
                return Result::Err(e);
            },
        };
        let ast = match rule.detection.get("condition") {
            Option::Some(entry) => match entry {
                SigmaRuleDetection::Condition(c) => match parse_condition(c.as_str()) {
                    Option::Some(ast) => ast,
                    Option::None => {
                        return Result::Err(SigmaError::InvalidCondition);
                    },
                },
                _ => {
                    return Result::Err(SigmaError::InvalidConditionFormat);
                },
            },
            Option::None => {
                return Result::Err(SigmaError::MissingCondition);
            },
        };
        match check_expr(&ast, &rule.detection) {
            Option::Some(err) => {
                return Result::Err(err);
            },
            Option::None => {},
        }
        let inst = SiemSigmaRule { rule, agrupation, ast, conditions: Vec::new() };
        proof {
            assert forall|log: SiemLog| inst.cache_consistent(log) by {
                assert(forall|n: Seq<char>|
                    assoc_lookup(Seq::<(String, bool)>::empty(), n) is None);
            }
        }
        Result::Ok(inst)
    }

    /// The log-source category, where the rule names one.
    pub fn category(&self) -> (r: Option<&str>)
        ensures
            match r {
                Option::Some(s) => s@ == self.spec_rule().logsource.category@ && s@.len() > 0,
                Option::None => self.spec_rule().logsource.category@.len() == 0,
            },
    {
        let cat = self.rule.logsource.category.as_str();
        if cat.is_empty() {
            Option::None
        } else {
            Option::Some(cat)
        }
    }

    /// The log-source product, where the rule names one.
    pub fn product(&self) -> (r: Option<&str>)
        ensures
            match r {
                Option::Some(s) => s@ == self.spec_rule().logsource.product@ && s@.len() > 0,
                Option::None => self.spec_rule().logsource.product@.len() == 0,
            },
    {
        let cat = self.rule.logsource.product.as_str();
        if cat.is_empty() {
            Option::None
        } else {
            Option::Some(cat)
        }
    }

    /// The log-source service, where the rule names one.
    pub fn service(&self) -> (r: Option<&str>)
        ensures
            match r {
                Option::Some(s) => s@ == self.spec_rule().logsource.service@ && s@.len() > 0,
                Option::None => self.spec_rule().logsource.service@.len() == 0,
            },
    {
        let cat = self.rule.logsource.service.as_str();
        if cat.is_empty() {
            Option::None
        } else {
            Option::Some(cat)
        }
    }

    /// The aggregation descriptor, computed once at load time.
    pub fn agrupation(&self) -> (r: &SigmaAgrupation)
        ensures
            *r == self.spec_agrupation(),
    {
        &self.agrupation
    }

    /// Resolves one selector by name through this context's cache, computing
    /// it at most once per event.
    pub fn match_condition(&mut self, condition: &str, log: &SiemLog) -> (r: bool)
        requires
            old(self).wf(),
            old(self).cache_consistent(*log),
        ensures
            r == spec_eval_selector(old(self).spec_rule().detection, condition@, *log),
            assoc_lookup(final(self).cache_view(), condition@) == Option::Some(r),
            assoc_lookup(old(self).cache_view(), condition@) is Some ==> final(self).cache_view()
                == old(self).cache_view(),
            final(self).wf(),
            final(self).cache_consistent(*log),
            final(self).spec_rule() == old(self).spec_rule(),
            final(self).spec_agrupation() == old(self).spec_agrupation(),
            final(self).spec_ast() == old(self).spec_ast(),
    {
        match_condition_impl(&self.rule, &mut self.conditions, condition, log)
    }

    /// Evaluates the compiled condition against one event. The result
    /// depends only on the rule, the compiled expression and the event —
    /// never on which selector results the cache already holds.
    pub fn match_rule(&mut self, log: &SiemLog) -> (r: bool)
        requires
            old(self).wf(),
            old(self).cache_consistent(*log),
        ensures
            r == spec_eval_expr(old(self).spec_ast(), old(self).spec_rule().detection, *log),
            final(self).wf(),
            final(self).cache_consistent(*log),
            final(self).spec_rule() == old(self).spec_rule(),
            final(self).spec_agrupation() == old(self).spec_agrupation(),
            final(self).spec_ast() == old(self).spec_ast(),
    {
        eval_expr(&self.ast, &self.rule, &mut self.conditions, log)
    }
}

/// The match outcome never depends on the evaluation context: two contexts
/// compiled from the same rule to the same expression assign every event the
/// same result, whatever their caches hold.
pub proof fn lemma_match_independent_of_context(a: SiemSigmaRule, b: SiemSigmaRule, log: SiemLog)
    requires
        a.spec_rule() == b.spec_rule(),
        a.spec_ast() == b.spec_ast(),
    ensures
        spec_eval_expr(a.spec_ast(), a.spec_rule().detection, log) == spec_eval_expr(
            b.spec_ast(),
            b.spec_rule().detection,
            log,
        ),
{
}

impl Clone for SiemSigmaRule {
    /// A fresh evaluation context over the same shared rule: the clone keeps
    /// the rule, descriptor and compiled expression, and starts with an
    /// empty cache, so two contexts never see each other's results.
    fn clone(&self) -> (r: Self)
        ensures
            r.spec_rule() == self.spec_rule(),
            r.spec_agrupation()@ == self.spec_agrupation()@,
            r.spec_ast() == self.spec_ast(),
            r.cache_view() == Seq::<(String, bool)>::empty(),
            self.wf() ==> r.wf(),
            forall|log: SiemLog| r.cache_consistent(log),
    {
        let r = SiemSigmaRule {
            rule: arc_clone(&self.rule),
            agrupation: clone_agrupation(&self.agrupation),
            ast: clone_expr(&self.ast),
            conditions: Vec::new(),
        };
        proof {
            assert forall|log: SiemLog| r.cache_consistent(log) by {
                assert(forall|n: Seq<char>|
                    assoc_lookup(Seq::<(String, bool)>::empty(), n) is None);
            }
        }
        r
    }
}

} // verus!

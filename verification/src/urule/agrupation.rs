//! Extraction of the aggregation descriptor from a rule's condition text.
//! The clause recognised is: whitespace, a function name among `count`,
//! `avg`, `max`, `min` and `sum`, an optional parenthesised argument, then
//! whitespace, `by`, whitespace and a group-field token. The leftmost such
//! clause decides; a condition with ` by ` that fits no clause is simply a
//! rule without aggregation, not an error.

use vstd::prelude::*;
use crate::rule::{SigmaError, SigmaRule, SigmaRuleDetection};
use crate::strings::{chars_of, is_ws, seq_contains, seq_starts_with, starts_with_at,
    str_contains, string_of, subvec, ws};

verus! {

/// The aggregation requested by a rule, over the group field and, where one
/// applies, the measured parameter.
#[derive(Debug, Clone)]
pub enum SigmaAgrupation {
    /// Count of matching events grouped by a parameter.
    Count(String),
    /// Count of distinct values of the first parameter, grouped by the
    /// second.
    CountParamBy(String, String),
    /// Maximum of a parameter per group.
    Max(String, String),
    /// Minimum of a parameter per group.
    Min(String, String),
    /// Average of a parameter per group.
    Avg(String, String),
    /// Sum of a parameter per group.
    Sum(String, String),
    /// No aggregation clause.
    NoAgrupation,
}

/// The same descriptor over character sequences, the form contracts use.
pub enum SpecAgrupation {
    Count(Seq<char>),
    CountParamBy(Seq<char>, Seq<char>),
    Max(Seq<char>, Seq<char>),
    Min(Seq<char>, Seq<char>),
    Avg(Seq<char>, Seq<char>),
    Sum(Seq<char>, Seq<char>),
    NoAgrupation,
}

impl View for SigmaAgrupation {
    type V = SpecAgrupation;

    open spec fn view(&self) -> SpecAgrupation {
        match self {
            SigmaAgrupation::Count(g) => SpecAgrupation::Count(g@),
            SigmaAgrupation::CountParamBy(p, g) => SpecAgrupation::CountParamBy(p@, g@),
            SigmaAgrupation::Max(p, g) => SpecAgrupation::Max(p@, g@),
            SigmaAgrupation::Min(p, g) => SpecAgrupation::Min(p@, g@),
            SigmaAgrupation::Avg(p, g) => SpecAgrupation::Avg(p@, g@),
            SigmaAgrupation::Sum(p, g) => SpecAgrupation::Sum(p@, g@),
            SigmaAgrupation::NoAgrupation => SpecAgrupation::NoAgrupation,
        }
    }
}

/// The five aggregation function names.
#[derive(Debug, Clone, Copy, PartialEq, Eq, Structural)]
pub enum AggFn {
    Count,
    Avg,
    Max,
    Min,
    Sum,
}

/// The position of the first non-whitespace character, or `-1`.
pub open spec fn first_nonws(s: Seq<char>) -> int
    decreases s.len(),
{
    if s.len() == 0 {
        -1
    } else if !is_ws(s[0]) {
        0
    } else {
        let r = first_nonws(s.drop_first());
        if r < 0 {
            -1
        } else {
            r + 1
        }
    }
}

/// The position of the first whitespace character, or `-1`.
pub open spec fn first_ws(s: Seq<char>) -> int
    decreases s.len(),
{
    if s.len() == 0 {
        -1
    } else if is_ws(s[0]) {
        0
    } else {
        let r = first_ws(s.drop_first());
        if r < 0 {
            -1
        } else {
            r + 1
        }
    }
}

/// The position of the first closing parenthesis, or `-1`.
pub open spec fn first_close(s: Seq<char>) -> int
    decreases s.len(),
{
    if s.len() == 0 {
        -1
    } else if s[0] == ')' {
        0
    } else {
        let r = first_close(s.drop_first());
        if r < 0 {
            -1
        } else {
            r + 1
        }
    }
}

/// The aggregation function name starting at `i`, with the position just
/// after it.
pub open spec fn agg_name_at(s: Seq<char>, i: int) -> Option<(AggFn, int)> {
    if seq_starts_with(s.skip(i), "count"@) {
        Option::Some((AggFn::Count, i + 5))
    } else if seq_starts_with(s.skip(i), "avg"@) {
        Option::Some((AggFn::Avg, i + 3))
    } else if seq_starts_with(s.skip(i), "max"@) {
        Option::Some((AggFn::Max, i + 3))
    } else if seq_starts_with(s.skip(i), "min"@) {
        Option::Some((AggFn::Min, i + 3))
    } else if seq_starts_with(s.skip(i), "sum"@) {
        Option::Some((AggFn::Sum, i + 3))
    } else {
        Option::None
    }
}

/// The tail of an aggregation clause from position `j2`: whitespace, `by`,
/// whitespace, then the group token, a maximal non-whitespace run. The last
/// component of a match is the position just after the group token.
pub open spec fn agg_match_tail(s: Seq<char>, j2: int, name: AggFn, arg: Seq<char>) -> Option<
    (AggFn, Seq<char>, Seq<char>, int),
> {
    if !(0 <= j2 && j2 < s.len() && is_ws(s[j2])) {
        Option::None
    } else {
        let m = first_nonws(s.skip(j2));
        if m < 0 {
            Option::None
        } else {
            let k2 = j2 + m;
            if !seq_starts_with(s.skip(k2), "by"@) {
                Option::None
            } else if !(k2 + 2 < s.len() && is_ws(s[k2 + 2])) {
                Option::None
            } else {
                let m2 = first_nonws(s.skip(k2 + 2));
                if m2 < 0 {
                    Option::None
                } else {
                    let g0 = k2 + 2 + m2;
                    let we = first_ws(s.skip(g0));
                    let g1 = if we < 0 {
                        s.len() as int
                    } else {
                        g0 + we
                    };
                    Option::Some((name, arg, s.subrange(g0, g1), g1))
                }
            }
        }
    }
}

/// An aggregation clause anchored at the whitespace character `i`: the
/// function name, its argument (empty when absent or empty), the group
/// token, and the position just after the clause.
pub open spec fn agg_match_at(s: Seq<char>, i: int) -> Option<(AggFn, Seq<char>, Seq<char>, int)> {
    if !(0 <= i && i < s.len() && is_ws(s[i])) {
        Option::None
    } else {
        match agg_name_at(s, i + 1) {
            Option::None => Option::None,
            Option::Some((name, j)) => {
                if j < s.len() && s[j] == '(' {
                    let k = first_close(s.skip(j + 1));
                    if k < 0 {
                        Option::None
                    } else {
                        agg_match_tail(s, j + 1 + k + 1, name, s.subrange(j + 1, j + 1 + k))
                    }
                } else {
                    agg_match_tail(s, j, name, Seq::empty())
                }
            },
        }
    }
}

/// The leftmost aggregation clause at or after position `i`.
pub open spec fn agg_first(s: Seq<char>, i: int) -> Option<(AggFn, Seq<char>, Seq<char>, int)>
    decreases s.len() - i,
{
    if !(0 <= i && i < s.len()) {
        Option::None
    } else {
        match agg_match_at(s, i) {
            Option::Some(r) => Option::Some(r),
            Option::None => agg_first(s, i + 1),
        }
    }
}

/// The aggregation descriptor of a condition text: none without ` by ` or a
/// recognisable clause; `Count` for an empty argument; an error for another
/// function without an argument, and for a second recognisable clause after
/// the first — one condition requests at most one aggregation.
pub open spec fn spec_agrupation(cond: Seq<char>) -> Result<SpecAgrupation, ()> {
    if !seq_contains(cond, " by "@) {
        Result::Ok(SpecAgrupation::NoAgrupation)
    } else {
        match agg_first(cond, 0) {
            Option::None => Result::Ok(SpecAgrupation::NoAgrupation),
            Option::Some((name, arg, group, end)) => {
                if agg_first(cond, end) is Some {
                    Result::Err(())
                } else if arg.len() == 0 {
                    if name == AggFn::Count {
                        Result::Ok(SpecAgrupation::Count(group))
                    } else {
                        Result::Err(())
                    }
                } else {
                    match name {
                        AggFn::Count => Result::Ok(SpecAgrupation::CountParamBy(arg, group)),
                        AggFn::Max => Result::Ok(SpecAgrupation::Max(arg, group)),
                        AggFn::Min => Result::Ok(SpecAgrupation::Min(arg, group)),
                        AggFn::Avg => Result::Ok(SpecAgrupation::Avg(arg, group)),
                        AggFn::Sum => Result::Ok(SpecAgrupation::Sum(arg, group)),
                    }
                }
            },
        }
    }
}

fn find_nonws(cs: &Vec<char>, from: usize) -> (r: Option<usize>)
    requires
        from <= cs@.len(),
    ensures
        match r {
            Option::Some(j) => from <= j < cs@.len() && first_nonws(cs@.skip(from as int)) == j
                - from,
            Option::None => first_nonws(cs@.skip(from as int)) == -1,
        },
    decreases cs@.len() - from,
{
    if from == cs.len() {
        proof {
            assert(cs@.skip(from as int) =~= Seq::<char>::empty());
        }
        Option::None
    } else {
        proof {
            assert(cs@.skip(from as int)[0] == cs@[from as int]);
            assert(cs@.skip(from as int).drop_first() =~= cs@.skip(from as int + 1));
        }
        if !ws(cs[from]) {
            Option::Some(from)
        } else {
            find_nonws(cs, from + 1)
        }
    }
}

fn find_ws(cs: &Vec<char>, from: usize) -> (r: Option<usize>)
    requires
        from <= cs@.len(),
    ensures
        match r {
            Option::Some(j) => from <= j < cs@.len() && first_ws(cs@.skip(from as int)) == j - from,
            Option::None => first_ws(cs@.skip(from as int)) == -1,
        },
    decreases cs@.len() - from,
{
    if from == cs.len() {
        proof {
            assert(cs@.skip(from as int) =~= Seq::<char>::empty());
        }
        Option::None
    } else {
        proof {
            assert(cs@.skip(from as int)[0] == cs@[from as int]);
            assert(cs@.skip(from as int).drop_first() =~= cs@.skip(from as int + 1));
        }
        if ws(cs[from]) {
            Option::Some(from)
        } else {
            find_ws(cs, from + 1)
        }
    }
}

fn find_close(cs: &Vec<char>, from: usize) -> (r: Option<usize>)
    requires
        from <= cs@.len(),
    ensures
        match r {
            Option::Some(j) => from <= j < cs@.len() && first_close(cs@.skip(from as int)) == j
                - from,
            Option::None => first_close(cs@.skip(from as int)) == -1,
        },
    decreases cs@.len() - from,
{
    if from == cs.len() {
        proof {
            assert(cs@.skip(from as int) =~= Seq::<char>::empty());
        }
        Option::None
    } else {
        proof {
            assert(cs@.skip(from as int)[0] == cs@[from as int]);
            assert(cs@.skip(from as int).drop_first() =~= cs@.skip(from as int + 1));
        }
        if cs[from] == ')' {
            Option::Some(from)
        } else {
            find_close(cs, from + 1)
        }
    }
}

fn name_at(cs: &Vec<char>, i: usize) -> (r: Option<(AggFn, usize)>)
    requires
        i <= cs@.len(),
    ensures
        match r {
            Option::Some((name, j)) => agg_name_at(cs@, i as int) == Option::Some(
                (name, j as int),
            ) && i < j <= cs@.len(),
            Option::None => agg_name_at(cs@, i as int) is None,
        },
{
    let _n = cs.len();
    let count_w = chars_of("count");
    let avg_w = chars_of("avg");
    let max_w = chars_of("max");
    let min_w = chars_of("min");
    let sum_w = chars_of("sum");
    proof {
        reveal_strlit("count");
        reveal_strlit("avg");
        reveal_strlit("max");
        reveal_strlit("min");
        reveal_strlit("sum");
    }
    if starts_with_at(cs, i, &count_w) {
        Option::Some((AggFn::Count, i + 5))
    } else if starts_with_at(cs, i, &avg_w) {
        Option::Some((AggFn::Avg, i + 3))
    } else if starts_with_at(cs, i, &max_w) {
        Option::Some((AggFn::Max, i + 3))
    } else if starts_with_at(cs, i, &min_w) {
        Option::Some((AggFn::Min, i + 3))
    } else if starts_with_at(cs, i, &sum_w) {
        Option::Some((AggFn::Sum, i + 3))
    } else {
        Option::None
    }
}

fn match_tail_at(cs: &Vec<char>, j2: usize, name: AggFn, arg: Vec<char>) -> (r: Option<
    (AggFn, Vec<char>, Vec<char>, usize)>)
    requires
        j2 <= cs@.len(),
    ensures
        match r {
            Option::Some((n, a, g, e)) => agg_match_tail(cs@, j2 as int, name, arg@)
                == Option::Some((n, a@, g@, e as int)) && e <= cs@.len(),
            Option::None => agg_match_tail(cs@, j2 as int, name, arg@) is None,
        },
{
    if j2 == cs.len() || !ws(cs[j2]) {
        return Option::None;
    }
    let m = match find_nonws(cs, j2) {
        Option::Some(k) => k,
        Option::None => {
            return Option::None;
        },
    };
    // m is the absolute position of the first non-whitespace at or after j2
    let by_w = chars_of("by");
    proof {
        reveal_strlit("by");
    }
    if !starts_with_at(cs, m, &by_w) {
        return Option::None;
    }
    if m + 2 == cs.len() || !ws(cs[m + 2]) {
        return Option::None;
    }
    let g0 = match find_nonws(cs, m + 2) {
        Option::Some(k) => k,
        Option::None => {
            return Option::None;
        },
    };
    let g1 = match find_ws(cs, g0) {
        Option::Some(k) => k,
        Option::None => cs.len(),
    };
    let group = subvec(cs, g0, g1);
    Option::Some((name, arg, group, g1))
}

fn try_match_at(cs: &Vec<char>, i: usize) -> (r: Option<(AggFn, Vec<char>, Vec<char>, usize)>)
    requires
        i < cs@.len(),
    ensures
        match r {
            Option::Some((n, a, g, e)) => agg_match_at(cs@, i as int) == Option::Some(
                (n, a@, g@, e as int),
            ) && e <= cs@.len(),
            Option::None => agg_match_at(cs@, i as int) is None,
        },
{
    let _n = cs.len();
    if !ws(cs[i]) {
        return Option::None;
    }
    let (name, j) = match name_at(cs, i + 1) {
        Option::Some(p) => p,
        Option::None => {
            return Option::None;
        },
    };
    if j < cs.len() && cs[j] == '(' {
        let k = match find_close(cs, j + 1) {
            Option::Some(k) => k,
            Option::None => {
                return Option::None;
            },
        };
        // k is the absolute position of the closing parenthesis
        let arg = subvec(cs, j + 1, k);
        proof {
            assert(k - (j + 1) == first_close(cs@.skip(j + 1)));
            assert(cs@.subrange(j + 1, j + 1 + first_close(cs@.skip(j + 1))) =~= arg@);
        }
        match_tail_at(cs, k + 1, name, arg)
    } else {
        match_tail_at(cs, j, name, Vec::new())
    }
}

fn find_agg(cs: &Vec<char>, from: usize) -> (r: Option<(AggFn, Vec<char>, Vec<char>, usize)>)
    requires
        from <= cs@.len(),
    ensures
        match r {
            Option::Some((n, a, g, e)) => agg_first(cs@, from as int) == Option::Some(
                (n, a@, g@, e as int),
            ) && e <= cs@.len(),
            Option::None => agg_first(cs@, from as int) is None,
        },
{
    let n = cs.len();
    let mut i: usize = from;
    while i < n
        invariant
            n == cs@.len(),
            from <= i <= n,
            agg_first(cs@, from as int) == agg_first(cs@, i as int),
        decreases n - i,
    {
        match try_match_at(cs, i) {
            Option::Some(m) => {
                return Option::Some(m);
            },
            Option::None => {
                proof {
                    assert(agg_first(cs@, i as int) == agg_first(cs@, i as int + 1));
                }
                i = i + 1;
            },
        }
    }
    Option::None
}

/// The aggregation descriptor of a rule, read from its `condition` entry.
pub fn agrupation_from_rule(rule: &SigmaRule) -> (r: Result<SigmaAgrupation, SigmaError>)
    ensures
        match rule.detection.spec_get("condition"@) {
            Option::None => r == Result::<SigmaAgrupation, SigmaError>::Err(
                SigmaError::MissingCondition,
            ),
            Option::Some(e) => match e {
                SigmaRuleDetection::Condition(c) => match spec_agrupation(c@) {
                    Result::Ok(a) => r matches Result::Ok(x) && x@ == a,
                    Result::Err(_) => r == Result::<SigmaAgrupation, SigmaError>::Err(
                        SigmaError::InvalidAggregation,
                    ),
                },
                _ => r == Result::<SigmaAgrupation, SigmaError>::Err(
                    SigmaError::InvalidConditionFormat,
                ),
            },
        },
{
    let condition = match rule.detection.get("condition") {
        Option::Some(entry) => match entry {
            SigmaRuleDetection::Condition(c) => c,
            _ => {
                return Result::Err(SigmaError::InvalidConditionFormat);
            },
        },
        Option::None => {
            return Result::Err(SigmaError::MissingCondition);
        },
    };
    agrupation_of_condition(condition.as_str())
}

/// The aggregation descriptor of a condition text.
pub fn agrupation_of_condition(condition: &str) -> (r: Result<SigmaAgrupation, SigmaError>)
    ensures
        match spec_agrupation(condition@) {
            Result::Ok(a) => r matches Result::Ok(x) && x@ == a,
            Result::Err(_) => r == Result::<SigmaAgrupation, SigmaError>::Err(
                SigmaError::InvalidAggregation,
            ),
        },
{
    if !str_contains(condition, " by ") {
        return Result::Ok(SigmaAgrupation::NoAgrupation);
    }
    let cs = chars_of(condition);
    match find_agg(&cs, 0) {
        Option::None => Result::Ok(SigmaAgrupation::NoAgrupation),
        Option::Some((name, arg, group, end)) => {
            if find_agg(&cs, end).is_some() {
                return Result::Err(SigmaError::InvalidAggregation);
            }
            let group_s = string_of(&group);
            if arg.len() == 0 {
                if name == AggFn::Count {
                    Result::Ok(SigmaAgrupation::Count(group_s))
                } else {
                    Result::Err(SigmaError::InvalidAggregation)
                }
            } else {
                let arg_s = string_of(&arg);
                match name {
                    AggFn::Count => Result::Ok(SigmaAgrupation::CountParamBy(arg_s, group_s)),
                    AggFn::Max => Result::Ok(SigmaAgrupation::Max(arg_s, group_s)),
                    AggFn::Min => Result::Ok(SigmaAgrupation::Min(arg_s, group_s)),
                    AggFn::Avg => Result::Ok(SigmaAgrupation::Avg(arg_s, group_s)),
                    AggFn::Sum => Result::Ok(SigmaAgrupation::Sum(arg_s, group_s)),
                }
            }
        },
    }
}

} // verus!

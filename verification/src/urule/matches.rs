//! The comparator algebra between an expected rule value and an observed
//! event field. A list value applies its comparator element-wise: ANY-of-list
//! for `Contains`, `Equals` and the orderings, ALL-of-list for `ContainsAll`
//! and `All`. Integer values widen to the field's numeric domain before
//! comparing. Every unhandled pairing of value kind and field kind yields
//! `false`, never an error.

use vstd::prelude::*;
use crate::field::{SiemField, SiemIp};
use crate::rule::SigmaValues;
use crate::strings::{seq_contains, str_contains};

verus! {

broadcast use vstd::std_specs::vec::axiom_vec_index_decreases;

/// How an expected value is compared against an observed field.
#[derive(Debug, Clone, Copy)]
pub enum FieldComparision {
    Contains,
    ContainsAll,
    All,
    Bigger,
    Lesser,
    Equals,
    BoE,
    LoE,
}

/// The text carried by a text-like field, if the field is text-like.
pub open spec fn field_text_value(f: SiemField) -> Option<Seq<char>> {
    match f {
        SiemField::Text(s) => Option::Some(s@),
        SiemField::Domain(s) => Option::Some(s@),
        SiemField::User(s) => Option::Some(s@),
        SiemField::AssetID(s) => Option::Some(s@),
        _ => Option::None,
    }
}

/// An expected integer widened to a 32-bit unsigned domain: two's
/// complement, so a negative value wraps.
pub open spec fn widen_u32(n: i32) -> int {
    if n >= 0 {
        n as int
    } else {
        n as int + 0x1_0000_0000
    }
}

/// An expected integer widened to a 64-bit unsigned domain.
pub open spec fn widen_u64(n: i32) -> int {
    if n >= 0 {
        n as int
    } else {
        n as int + 0x1_0000_0000_0000_0000
    }
}

/// An expected integer widened to a 128-bit unsigned domain.
pub open spec fn widen_u128(n: i32) -> int {
    if n >= 0 {
        n as int
    } else {
        n as int + 0x1_0000_0000_0000_0000_0000_0000_0000_0000
    }
}

/// The ordering relation selected by a comparator, over unbounded integers.
pub open spec fn spec_int_cmp(cmp: FieldComparision, a: int, b: int) -> bool {
    match cmp {
        FieldComparision::Bigger => a > b,
        FieldComparision::Lesser => a < b,
        FieldComparision::BoE => a >= b,
        FieldComparision::LoE => a <= b,
        FieldComparision::Equals => a == b,
        _ => false,
    }
}

/// `Contains`: substring containment in a text-like field, where an absent
/// expected text asks for an empty field; ANY-of-list for lists.
pub open spec fn spec_match_contains(v: SigmaValues, f: SiemField) -> bool
    decreases v,
{
    match v {
        SigmaValues::Text(o) => match field_text_value(f) {
            Option::Some(t) => match o {
                Option::Some(s) => seq_contains(t, s@),
                Option::None => t.len() == 0,
            },
            Option::None => false,
        },
        SigmaValues::Int(_) => false,
        SigmaValues::Array(l) => exists|i: int|
            0 <= i < l@.len() && spec_match_contains(#[trigger] l@[i], f),
    }
}

/// `ContainsAll`: every list element is contained.
pub open spec fn spec_match_contains_all(v: SigmaValues, f: SiemField) -> bool {
    match v {
        SigmaValues::Array(l) => forall|i: int|
            0 <= i < l@.len() ==> spec_match_contains(#[trigger] l@[i], f),
        _ => false,
    }
}

/// `Equals`: exact text equality under the same absence rule, equality after
/// widening for numeric and address fields; ANY-of-list for lists.
pub open spec fn spec_match_equals(v: SigmaValues, f: SiemField) -> bool
    decreases v,
{
    match v {
        SigmaValues::Text(o) => match field_text_value(f) {
            Option::Some(t) => match o {
                Option::Some(s) => s@ == t,
                Option::None => t.len() == 0,
            },
            Option::None => false,
        },
        SigmaValues::Int(n) => match f {
            SiemField::U32(m) => widen_u32(n) == m as int,
            SiemField::I64(m) => (n as i64) == m,
            SiemField::U64(m) => widen_u64(n) == m as int,
            SiemField::IP(SiemIp::V4(ip)) => widen_u32(n) == ip as int,
            SiemField::IP(SiemIp::V6(ip)) => widen_u128(n) == ip as int,
            _ => false,
        },
        SigmaValues::Array(l) => exists|i: int|
            0 <= i < l@.len() && spec_match_equals(#[trigger] l@[i], f),
    }
}

/// `All`: every list element equals the field; a scalar compares as under
/// `Equals`.
pub open spec fn spec_match_equals_all(v: SigmaValues, f: SiemField) -> bool {
    match v {
        SigmaValues::Array(l) => forall|i: int|
            0 <= i < l@.len() ==> spec_match_equals(#[trigger] l@[i], f),
        _ => spec_match_equals(v, f),
    }
}

/// An ordering comparator: the expected integer, widened to the field's
/// numeric domain, stands on the left of the relation; ANY-of-list for lists.
pub open spec fn spec_match_order(v: SigmaValues, f: SiemField, cmp: FieldComparision) -> bool
    decreases v,
{
    match v {
        SigmaValues::Int(n) => match f {
            SiemField::U32(m) => spec_int_cmp(cmp, widen_u32(n), m as int),
            SiemField::I64(m) => spec_int_cmp(cmp, (n as i64) as int, m as int),
            SiemField::U64(m) => spec_int_cmp(cmp, widen_u64(n), m as int),
            SiemField::IP(SiemIp::V4(ip)) => spec_int_cmp(cmp, widen_u32(n), ip as int),
            SiemField::IP(SiemIp::V6(ip)) => spec_int_cmp(cmp, widen_u128(n), ip as int),
            _ => false,
        },
        SigmaValues::Array(l) => exists|i: int|
            0 <= i < l@.len() && spec_match_order(#[trigger] l@[i], f, cmp),
        _ => false,
    }
}

/// The comparator dispatch: which relation each `FieldComparision` denotes.
pub open spec fn spec_match_field_value(v: SigmaValues, f: SiemField, cmp: FieldComparision) -> bool {
    match cmp {
        FieldComparision::Contains => spec_match_contains(v, f),
        FieldComparision::ContainsAll => spec_match_contains_all(v, f),
        FieldComparision::Equals => spec_match_equals(v, f),
        FieldComparision::All => spec_match_equals_all(v, f),
        _ => spec_match_order(v, f, cmp),
    }
}

fn exec_widen_u32(n: i32) -> (r: u32)
    ensures
        r as int == widen_u32(n),
{
    if n >= 0 {
        n as u32
    } else {
        (((n as i64) + 0x1_0000_0000i64) as u32)
    }
}

fn exec_widen_u64(n: i32) -> (r: u64)
    ensures
        r as int == widen_u64(n),
{
    if n >= 0 {
        n as u64
    } else {
        (((n as i128) + 0x1_0000_0000_0000_0000i128) as u64)
    }
}

fn exec_widen_u128(n: i32) -> (r: u128)
    ensures
        r as int == widen_u128(n),
{
    if n >= 0 {
        n as u128
    } else {
        let magnitude = (-(n as i64)) as u128;
        u128::MAX - (magnitude - 1)
    }
}

fn text_kind<'a>(f: &'a SiemField) -> (r: Option<&'a String>)
    ensures
        match r {
            Option::Some(s) => field_text_value(*f) == Option::Some(s@),
            Option::None => field_text_value(*f) is None,
        },
{
    match f {
        SiemField::Text(s) => Option::Some(s),
        SiemField::Domain(s) => Option::Some(s),
        SiemField::User(s) => Option::Some(s),
        SiemField::AssetID(s) => Option::Some(s),
        _ => Option::None,
    }
}

/// Whether the expected value is contained in the field.
#[verifier::loop_isolation(false)]
pub fn match_contains(value: &SigmaValues, field: &SiemField) -> (r: bool)
    ensures
        r == spec_match_contains(*value, *field),
    decreases *value,
{
    match value {
        SigmaValues::Text(o) => match text_kind(field) {
            Option::Some(t) => match o {
                Option::Some(s) => str_contains(t.as_str(), s.as_str()),
                Option::None => t.as_str().is_empty(),
            },
            Option::None => false,
        },
        SigmaValues::Int(_) => false,
        SigmaValues::Array(l) => {
            let mut i: usize = 0;
            while i < l.len()
                invariant
                    i <= l@.len(),
                    forall|k: int| 0 <= k < i ==> !spec_match_contains(#[trigger] l@[k], *field),
                decreases l@.len() - i,
            {
                if match_contains(&l[i], field) {
                    return true;
                }
                i = i + 1;
            }
            false
        },
    }
}

/// Whether every element of an expected list is contained in the field.
#[verifier::loop_isolation(false)]
pub fn match_contains_all(value: &SigmaValues, field: &SiemField) -> (r: bool)
    ensures
        r == spec_match_contains_all(*value, *field),
{
    match value {
        SigmaValues::Array(l) => {
            let mut i: usize = 0;
            while i < l.len()
                invariant
                    i <= l@.len(),
                    forall|k: int| 0 <= k < i ==> spec_match_contains(#[trigger] l@[k], *field),
                decreases l@.len() - i,
            {
                if !match_contains(&l[i], field) {
                    return false;
                }
                i = i + 1;
            }
            true
        },
        _ => false,
    }
}

/// Whether the expected value equals the field.
#[verifier::loop_isolation(false)]
pub fn match_equals(value: &SigmaValues, field: &SiemField) -> (r: bool)
    ensures
        r == spec_match_equals(*value, *field),
    decreases *value,
{
    match value {
        SigmaValues::Text(o) => match text_kind(field) {
            Option::Some(t) => match o {
                Option::Some(s) => crate::strings::str_eq(t.as_str(), s.as_str()),
                Option::None => t.as_str().is_empty(),
            },
            Option::None => false,
        },
        SigmaValues::Int(n) => match field {
            SiemField::U32(m) => exec_widen_u32(*n) == *m,
            SiemField::I64(m) => (*n as i64) == *m,
            SiemField::U64(m) => exec_widen_u64(*n) == *m,
            SiemField::IP(SiemIp::V4(ip)) => exec_widen_u32(*n) == *ip,
            SiemField::IP(SiemIp::V6(ip)) => exec_widen_u128(*n) == *ip,
            _ => false,
        },
        SigmaValues::Array(l) => {
            let mut i: usize = 0;
            while i < l.len()
                invariant
                    i <= l@.len(),
                    forall|k: int| 0 <= k < i ==> !spec_match_equals(#[trigger] l@[k], *field),
                decreases l@.len() - i,
            {
                if match_equals(&l[i], field) {
                    return true;
                }
                i = i + 1;
            }
            false
        },
    }
}

/// Whether every element of an expected list equals the field; a scalar
/// compares as under `Equals`.
#[verifier::loop_isolation(false)]
pub fn match_equals_all(value: &SigmaValues, field: &SiemField) -> (r: bool)
    ensures
        r == spec_match_equals_all(*value, *field),
{
    match value {
        SigmaValues::Array(l) => {
            let mut i: usize = 0;
            while i < l.len()
                invariant
                    i <= l@.len(),
                    forall|k: int| 0 <= k < i ==> spec_match_equals(#[trigger] l@[k], *field),
                decreases l@.len() - i,
            {
                if !match_equals(&l[i], field) {
                    return false;
                }
                i = i + 1;
            }
            true
        },
        _ => match_equals(value, field),
    }
}

#[verifier::loop_isolation(false)]
fn match_order(value: &SigmaValues, field: &SiemField, cmp: FieldComparision) -> (r: bool)
    ensures
        r == spec_match_order(*value, *field, cmp),
    decreases *value,
{
    match value {
        SigmaValues::Int(n) => match field {
            SiemField::U32(m) => cmp_u128(cmp, exec_widen_u32(*n) as u128, *m as u128),
            SiemField::I64(m) => cmp_i64(cmp, *n as i64, *m),
            SiemField::U64(m) => cmp_u128(cmp, exec_widen_u64(*n) as u128, *m as u128),
            SiemField::IP(SiemIp::V4(ip)) => cmp_u128(cmp, exec_widen_u32(*n) as u128, *ip as u128),
            SiemField::IP(SiemIp::V6(ip)) => cmp_u128(cmp, exec_widen_u128(*n), *ip),
            _ => false,
        },
        SigmaValues::Array(l) => {
            let mut i: usize = 0;
            while i < l.len()
                invariant
                    i <= l@.len(),
                    forall|k: int|
                        0 <= k < i ==> !spec_match_order(#[trigger] l@[k], *field, cmp),
                decreases l@.len() - i,
            {
                if match_order(&l[i], field, cmp) {
                    return true;
                }
                i = i + 1;
            }
            false
        },
        _ => false,
    }
}

fn cmp_u128(cmp: FieldComparision, a: u128, b: u128) -> (r: bool)
    ensures
        r == spec_int_cmp(cmp, a as int, b as int),
{
    match cmp {
        FieldComparision::Bigger => a > b,
        FieldComparision::Lesser => a < b,
        FieldComparision::BoE => a >= b,
        FieldComparision::LoE => a <= b,
        FieldComparision::Equals => a == b,
        _ => false,
    }
}

fn cmp_i64(cmp: FieldComparision, a: i64, b: i64) -> (r: bool)
    ensures
        r == spec_int_cmp(cmp, a as int, b as int),
{
    match cmp {
        FieldComparision::Bigger => a > b,
        FieldComparision::Lesser => a < b,
        FieldComparision::BoE => a >= b,
        FieldComparision::LoE => a <= b,
        FieldComparision::Equals => a == b,
        _ => false,
    }
}

/// Whether the expected integer stands strictly above the field value.
pub fn match_bigger(value: &SigmaValues, field: &SiemField) -> (r: bool)
    ensures
        r == spec_match_order(*value, *field, FieldComparision::Bigger),
{
    match_order(value, field, FieldComparision::Bigger)
}

/// Whether the expected integer stands strictly below the field value.
pub fn match_lesser(value: &SigmaValues, field: &SiemField) -> (r: bool)
    ensures
        r == spec_match_order(*value, *field, FieldComparision::Lesser),
{
    match_order(value, field, FieldComparision::Lesser)
}

/// Whether the expected integer stands at or above the field value.
pub fn match_bigger_equals(value: &SigmaValues, field: &SiemField) -> (r: bool)
    ensures
        r == spec_match_order(*value, *field, FieldComparision::BoE),
{
    match_order(value, field, FieldComparision::BoE)
}

/// Whether the expected integer stands at or below the field value.
pub fn match_lesser_equals(value: &SigmaValues, field: &SiemField) -> (r: bool)
    ensures
        r == spec_match_order(*value, *field, FieldComparision::LoE),
{
    match_order(value, field, FieldComparision::LoE)
}

/// Applies the comparator selected by `comparision`.
pub fn match_field_value(value: &SigmaValues, field: &SiemField, comparision: &FieldComparision) -> (r:
    bool)
    ensures
        r == spec_match_field_value(*value, *field, *comparision),
{
    match comparision {
        FieldComparision::Contains => match_contains(value, field),
        FieldComparision::ContainsAll => match_contains_all(value, field),
        FieldComparision::Equals => match_equals(value, field),
        FieldComparision::Bigger => match_bigger(value, field),
        FieldComparision::Lesser => match_lesser(value, field),
        FieldComparision::BoE => match_bigger_equals(value, field),
        FieldComparision::LoE => match_lesser_equals(value, field),
        FieldComparision::All => match_equals_all(value, field),
    }
}

} // verus!


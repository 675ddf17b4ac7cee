//! The event side of matching: a log record exposes a raw message and a set
//! of named, typed fields. Rules compare against a field either through its
//! typed value or through its textual representation, so the text of every
//! field kind is pinned down here as a spec-level character sequence.

use vstd::prelude::*;
use crate::strings::push_char;
use crate::table::{assoc_lookup, assoc_unique, assoc_get, assoc_set};

verus! {

/// An IP address as its fixed-width integer representation.
#[derive(Clone, Copy, Debug)]
pub enum SiemIp {
    V4(u32),
    V6(u128),
}

/// A typed event field. The four textual kinds (plain text, domain, user
/// identity, asset identifier) compare identically; the numeric kinds carry
/// their machine representation.
#[derive(Clone, Debug)]
pub enum SiemField {
    Text(String),
    Domain(String),
    User(String),
    AssetID(String),
    U32(u32),
    I64(i64),
    U64(u64),
    IP(SiemIp),
}

/// The decimal digit character for `d`.
pub open spec fn digit_char(d: nat) -> char {
    (((48 + d) as u8) as char)
}

/// The decimal digits of `n`, most significant first, with no leading zero.
pub open spec fn dec_digits(n: nat) -> Seq<char>
    decreases n,
{
    if n < 10 {
        seq![digit_char(n)]
    } else {
        dec_digits(n / 10).push(digit_char(n % 10))
    }
}

/// The lower-case hexadecimal digit character for `d`.
pub open spec fn hex_digit_char(d: nat) -> char {
    if d < 10 {
        digit_char(d)
    } else {
        (((87 + d) as u8) as char)
    }
}

/// A hexadecimal group of exactly four digits, as in an IPv6 address.
pub open spec fn hex4(g: nat) -> Seq<char> {
    seq![
        hex_digit_char(g / 4096 % 16),
        hex_digit_char(g / 256 % 16),
        hex_digit_char(g / 16 % 16),
        hex_digit_char(g % 16),
    ]
}

/// The dotted-quad text of an IPv4 address.
pub open spec fn ip4_text(ip: nat) -> Seq<char> {
    dec_digits(ip / 0x1000000 % 256) + seq!['.'] + dec_digits(ip / 0x10000 % 256) + seq!['.']
        + dec_digits(ip / 0x100 % 256) + seq!['.'] + dec_digits(ip % 256)
}

/// The text of an IPv6 address: eight fixed-width hexadecimal groups.
pub open spec fn ip6_text(ip: nat) -> Seq<char> {
    hex4(ip / 0x10000000000000000000000000000 % 65536) + seq![':'] + hex4(
        ip / 0x1000000000000000000000000 % 65536,
    ) + seq![':'] + hex4(ip / 0x100000000000000000000 % 65536) + seq![':'] + hex4(
        ip / 0x10000000000000000 % 65536,
    ) + seq![':'] + hex4(ip / 0x1000000000000 % 65536) + seq![':'] + hex4(ip / 0x100000000 % 65536)
        + seq![':'] + hex4(ip / 0x10000 % 65536) + seq![':'] + hex4(ip % 65536)
}

/// The text of a signed value: a minus sign for negatives, then the digits.
pub open spec fn int_text(n: int) -> Seq<char> {
    if n >= 0 {
        dec_digits(n as nat)
    } else {
        seq!['-'] + dec_digits((-n) as nat)
    }
}

/// The textual representation of a field, the form modifiers and substring
/// comparators operate on.
pub open spec fn spec_field_text(f: SiemField) -> Seq<char> {
    match f {
        SiemField::Text(s) => s@,
        SiemField::Domain(s) => s@,
        SiemField::User(s) => s@,
        SiemField::AssetID(s) => s@,
        SiemField::U32(n) => dec_digits(n as nat),
        SiemField::I64(n) => int_text(n as int),
        SiemField::U64(n) => dec_digits(n as nat),
        SiemField::IP(SiemIp::V4(ip)) => ip4_text(ip as nat),
        SiemField::IP(SiemIp::V6(ip)) => ip6_text(ip as nat),
    }
}

fn digit_of(d: u64) -> (c: char)
    requires
        d < 10,
    ensures
        c == digit_char(d as nat),
{
    ((48 + d as u8) as char)
}

fn hex_digit_of(d: u64) -> (c: char)
    requires
        d < 16,
    ensures
        c == hex_digit_char(d as nat),
{
    if d < 10 {
        digit_of(d)
    } else {
        ((87 + d as u8) as char)
    }
}

fn push_dec(out: &mut String, n: u64)
    ensures
        final(out)@ == old(out)@ + dec_digits(n as nat),
    decreases n,
{
    if n < 10 {
        push_char(out, digit_of(n));
        proof {
            assert(final(out)@ =~= old(out)@ + dec_digits(n as nat));
        }
    } else {
        push_dec(out, n / 10);
        push_char(out, digit_of(n % 10));
        proof {
            assert((n / 10) as nat == n as nat / 10);
            assert((n % 10) as nat == n as nat % 10);
            assert(final(out)@ =~= old(out)@ + dec_digits(n as nat));
        }
    }
}

fn push_hex4(out: &mut String, g: u64)
    requires
        g < 65536,
    ensures
        final(out)@ == old(out)@ + hex4(g as nat),
{
    push_char(out, hex_digit_of(g / 4096 % 16));
    push_char(out, hex_digit_of(g / 256 % 16));
    push_char(out, hex_digit_of(g / 16 % 16));
    push_char(out, hex_digit_of(g % 16));
    proof {
        assert(final(out)@ =~= old(out)@ + hex4(g as nat));
    }
}

/// The decimal text of an unsigned value.
pub fn u64_text(n: u64) -> (r: String)
    ensures
        r@ == dec_digits(n as nat),
{
    let mut r = String::new();
    push_dec(&mut r, n);
    proof {
        assert(r@ =~= dec_digits(n as nat));
    }
    r
}

/// The decimal text of a signed value.
pub fn i64_text(n: i64) -> (r: String)
    ensures
        r@ == int_text(n as int),
{
    if n >= 0 {
        u64_text(n as u64)
    } else {
        let mut r = String::new();
        push_char(&mut r, '-');
        let m: u64 = if n == i64::MIN {
            9223372036854775808u64
        } else {
            (-n) as u64
        };
        proof {
            assert(m as nat == (-(n as int)) as nat);
        }
        push_dec(&mut r, m);
        proof {
            assert(r@ =~= int_text(n as int));
        }
        r
    }
}

/// The textual representation of a field.
pub fn field_to_text(f: &SiemField) -> (r: String)
    ensures
        r@ == spec_field_text(*f),
{
    match f {
        SiemField::Text(s) => s.clone(),
        SiemField::Domain(s) => s.clone(),
        SiemField::User(s) => s.clone(),
        SiemField::AssetID(s) => s.clone(),
        SiemField::U32(n) => u64_text(*n as u64),
        SiemField::I64(n) => i64_text(*n),
        SiemField::U64(n) => u64_text(*n),
        SiemField::IP(SiemIp::V4(ip)) => {
            let v = *ip;
            let mut r = String::new();
            push_dec(&mut r, (v / 0x1000000 % 256) as u64);
            push_char(&mut r, '.');
            push_dec(&mut r, (v / 0x10000 % 256) as u64);
            push_char(&mut r, '.');
            push_dec(&mut r, (v / 0x100 % 256) as u64);
            push_char(&mut r, '.');
            push_dec(&mut r, (v % 256) as u64);
            proof {
                assert(r@ =~= ip4_text(v as nat));
            }
            r
        },
        SiemField::IP(SiemIp::V6(ip)) => {
            let v = *ip;
            let mut r = String::new();
            push_hex4(&mut r, (v / 0x10000000000000000000000000000 % 65536) as u64);
            push_char(&mut r, ':');
            push_hex4(&mut r, (v / 0x1000000000000000000000000 % 65536) as u64);
            push_char(&mut r, ':');
            push_hex4(&mut r, (v / 0x100000000000000000000 % 65536) as u64);
            push_char(&mut r, ':');
            push_hex4(&mut r, (v / 0x10000000000000000 % 65536) as u64);
            push_char(&mut r, ':');
            push_hex4(&mut r, (v / 0x1000000000000 % 65536) as u64);
            push_char(&mut r, ':');
            push_hex4(&mut r, (v / 0x100000000 % 65536) as u64);
            push_char(&mut r, ':');
            push_hex4(&mut r, (v / 0x10000 % 65536) as u64);
            push_char(&mut r, ':');
            push_hex4(&mut r, (v % 65536) as u64);
            proof {
                assert(r@ =~= ip6_text(v as nat));
            }
            r
        },
    }
}

/// An event record: a raw message plus named fields, with unique names.
#[derive(Clone, Debug)]
pub struct SiemLog {
    message: String,
    fields: Vec<(String, SiemField)>,
}

impl SiemLog {
    /// The field bound to `name`, if any.
    pub closed spec fn spec_field(self, name: Seq<char>) -> Option<SiemField> {
        assoc_lookup(self.fields@, name)
    }

    pub closed spec fn spec_message(self) -> Seq<char> {
        self.message@
    }

    pub closed spec fn wf(self) -> bool {
        assoc_unique(self.fields@)
    }

    /// A log carrying only the raw message.
    pub fn new(message: String) -> (r: SiemLog)
        ensures
            r.wf(),
            r.spec_message() == message@,
            forall|name: Seq<char>| r.spec_field(name) is None,
    {
        SiemLog { message, fields: Vec::new() }
    }

    /// The raw message.
    pub fn message(&self) -> (r: &str)
        ensures
            r@ == self.spec_message(),
    {
        self.message.as_str()
    }

    /// Binds a field, replacing any previous binding of the same name.
    pub fn add_field(&mut self, name: &str, value: SiemField)
        requires
            old(self).wf(),
        ensures
            final(self).wf(),
            final(self).spec_message() == old(self).spec_message(),
            final(self).spec_field(name@) == Option::Some(value),
            forall|other: Seq<char>|
                other != name@ ==> final(self).spec_field(other) == old(self).spec_field(other),
    {
        assoc_set(&mut self.fields, name.to_owned(), value);
    }

    /// The field bound to `name`, if any.
    pub fn field(&self, name: &str) -> (r: Option<&SiemField>)
        ensures
            match r {
                Option::Some(f) => self.spec_field(name@) == Option::Some(*f),
                Option::None => self.spec_field(name@) is None,
            },
    {
        assoc_get(&self.fields, name)
    }
}

} // verus!

//! The durable text encoding of a persisted record.
//!
//! A record is written as one structured-text object with the four fields
//! `if_name` (a quoted string), `direction` (`"Ingress"` or `"Egress"`),
//! `priority` and `handle` (decimal numbers). The encoder always writes
//! the fields in that order; the parser accepts them in any order, each
//! exactly once, with optional blank space between tokens, and rejects
//! everything else. Parsing what the encoder wrote returns the original
//! record; `lemma_record_round_trip` proves it.

use vstd::prelude::*;
use crate::point::{bytes_eq, name_byte_ok, valid_if_name, AttachPoint, Direction,
    PersistedRecord, PointV};

verus! {

/// The byte that opens and closes a quoted string.
pub open spec fn q_mark() -> u8 {
    0x22
}

/// `w` wrapped in quotes.
pub open spec fn quoted(w: Seq<u8>) -> Seq<u8> {
    seq![q_mark()] + w + seq![q_mark()]
}

/// The bytes of the field name `if_name`.
pub open spec fn key_if_name() -> Seq<u8> {
    seq![0x69u8, 0x66, 0x5f, 0x6e, 0x61, 0x6d, 0x65]
}

/// The bytes of the field name `direction`.
pub open spec fn key_direction() -> Seq<u8> {
    seq![0x64u8, 0x69, 0x72, 0x65, 0x63, 0x74, 0x69, 0x6f, 0x6e]
}

/// The bytes of the field name `priority`.
pub open spec fn key_priority() -> Seq<u8> {
    seq![0x70u8, 0x72, 0x69, 0x6f, 0x72, 0x69, 0x74, 0x79]
}

/// The bytes of the field name `handle`.
pub open spec fn key_handle() -> Seq<u8> {
    seq![0x68u8, 0x61, 0x6e, 0x64, 0x6c, 0x65]
}

/// The bytes of the direction value `Ingress`.
pub open spec fn word_ingress() -> Seq<u8> {
    seq![0x49u8, 0x6e, 0x67, 0x72, 0x65, 0x73, 0x73]
}

/// The bytes of the direction value `Egress`.
pub open spec fn word_egress() -> Seq<u8> {
    seq![0x45u8, 0x67, 0x72, 0x65, 0x73, 0x73]
}

/// The value bytes for a direction.
pub open spec fn direction_word(d: Direction) -> Seq<u8> {
    match d {
        Direction::Ingress => word_ingress(),
        Direction::Egress => word_egress(),
    }
}

/// Whether a byte is a decimal digit.
pub open spec fn is_digit(b: u8) -> bool {
    0x30 <= b && b <= 0x39
}

/// The value of a digit byte.
pub open spec fn digit_val(b: u8) -> nat {
    (b - 0x30) as nat
}

/// The decimal digits of `n`, most significant first, no leading zeros
/// (a lone zero for zero).
pub open spec fn dec_digits(n: nat) -> Seq<u8>
    decreases n,
{
    if n < 10 {
        seq![(0x30 + n) as u8]
    } else {
        dec_digits(n / 10).push((0x30 + n % 10) as u8)
    }
}

/// The canonical encoding of a record: the four fields in declaration
/// order, compact, as one object.
pub open spec fn spec_encode_record(p: PointV) -> Seq<u8> {
    seq![0x7bu8] + quoted(key_if_name()) + seq![0x3au8] + quoted(p.if_name) + seq![0x2cu8]
        + quoted(key_direction()) + seq![0x3au8] + quoted(direction_word(p.direction))
        + seq![0x2cu8] + quoted(key_priority()) + seq![0x3au8] + dec_digits(p.priority as nat)
        + seq![0x2cu8] + quoted(key_handle()) + seq![0x3au8] + dec_digits(p.handle as nat)
        + seq![0x7du8]
}

/// The field name `if_name`, as bytes.
fn make_key_if_name() -> (v: Vec<u8>)
    ensures
        v@ == key_if_name(),
{
    let mut v: Vec<u8> = Vec::new();
    v.push(0x69);
    v.push(0x66);
    v.push(0x5f);
    v.push(0x6e);
    v.push(0x61);
    v.push(0x6d);
    v.push(0x65);
    proof {
        assert(v@ =~= key_if_name());
    }
    v
}

/// The field name `direction`, as bytes.
fn make_key_direction() -> (v: Vec<u8>)
    ensures
        v@ == key_direction(),
{
    let mut v: Vec<u8> = Vec::new();
    v.push(0x64);
    v.push(0x69);
    v.push(0x72);
    v.push(0x65);
    v.push(0x63);
    v.push(0x74);
    v.push(0x69);
    v.push(0x6f);
    v.push(0x6e);
    proof {
        assert(v@ =~= key_direction());
    }
    v
}

/// The field name `priority`, as bytes.
fn make_key_priority() -> (v: Vec<u8>)
    ensures
        v@ == key_priority(),
{
    let mut v: Vec<u8> = Vec::new();
    v.push(0x70);
    v.push(0x72);
    v.push(0x69);
    v.push(0x6f);
    v.push(0x72);
    v.push(0x69);
    v.push(0x74);
    v.push(0x79);
    proof {
        assert(v@ =~= key_priority());
    }
    v
}

/// The field name `handle`, as bytes.
fn make_key_handle() -> (v: Vec<u8>)
    ensures
        v@ == key_handle(),
{
    let mut v: Vec<u8> = Vec::new();
    v.push(0x68);
    v.push(0x61);
    v.push(0x6e);
    v.push(0x64);
    v.push(0x6c);
    v.push(0x65);
    proof {
        assert(v@ =~= key_handle());
    }
    v
}

/// The direction value `Ingress`, as bytes.
fn make_word_ingress() -> (v: Vec<u8>)
    ensures
        v@ == word_ingress(),
{
    let mut v: Vec<u8> = Vec::new();
    v.push(0x49);
    v.push(0x6e);
    v.push(0x67);
    v.push(0x72);
    v.push(0x65);
    v.push(0x73);
    v.push(0x73);
    proof {
        assert(v@ =~= word_ingress());
    }
    v
}

/// The direction value `Egress`, as bytes.
fn make_word_egress() -> (v: Vec<u8>)
    ensures
        v@ == word_egress(),
{
    let mut v: Vec<u8> = Vec::new();
    v.push(0x45);
    v.push(0x67);
    v.push(0x72);
    v.push(0x65);
    v.push(0x73);
    v.push(0x73);
    proof {
        assert(v@ =~= word_egress());
    }
    v
}

/// Appends `w` in quotes.
fn push_quoted(out: &mut Vec<u8>, w: &Vec<u8>)
    ensures
        final(out)@ == old(out)@ + quoted(w@),
{
    let ghost start = out@;
    out.push(0x22);
    let mut i: usize = 0;
    while i < w.len()
        invariant
            0 <= i <= w@.len(),
            out@ == start + seq![q_mark()] + w@.subrange(0, i as int),
        decreases w@.len() - i,
    {
        out.push(w[i]);
        proof {
            assert(out@ =~= start + seq![q_mark()] + w@.subrange(0, i + 1));
        }
        i = i + 1;
    }
    out.push(0x22);
    proof {
        assert(w@.subrange(0, w@.len() as int) =~= w@);
        assert(final(out)@ =~= old(out)@ + quoted(w@));
    }
}

/// Appends the decimal digits of `n`.
fn push_dec(out: &mut Vec<u8>, n: u32)
    ensures
        final(out)@ == old(out)@ + dec_digits(n as nat),
    decreases n,
{
    if n < 10 {
        out.push(0x30 + n as u8);
        proof {
            assert(final(out)@ =~= old(out)@ + dec_digits(n as nat));
        }
    } else {
        push_dec(out, n / 10);
        out.push(0x30 + (n % 10) as u8);
        proof {
            assert(final(out)@ =~= old(out)@ + dec_digits(n as nat));
        }
    }
}

/// Writes a record in the canonical encoding.
pub fn encode_record(r: &PersistedRecord) -> (out: Vec<u8>)
    ensures
        out@ == spec_encode_record(r@),
{
    let mut out: Vec<u8> = Vec::new();
    out.push(0x7b);
    push_quoted(&mut out, &make_key_if_name());
    out.push(0x3a);
    push_quoted(&mut out, &r.point.if_name);
    out.push(0x2c);
    push_quoted(&mut out, &make_key_direction());
    out.push(0x3a);
    match r.point.direction {
        Direction::Ingress => push_quoted(&mut out, &make_word_ingress()),
        Direction::Egress => push_quoted(&mut out, &make_word_egress()),
    }
    out.push(0x2c);
    push_quoted(&mut out, &make_key_priority());
    out.push(0x3a);
    push_dec(&mut out, r.point.priority as u32);
    out.push(0x2c);
    push_quoted(&mut out, &make_key_handle());
    out.push(0x3a);
    push_dec(&mut out, r.point.handle);
    out.push(0x7d);
    proof {
        assert(out@ =~= spec_encode_record(r@));
    }
    out
}

/// Whether a byte is blank space the parser passes over.
pub open spec fn is_ws(b: u8) -> bool {
    b == 0x20 || b == 0x09 || b == 0x0a || b == 0x0d
}

/// The first position at or after `i` that holds no blank space.
pub open spec fn skip_ws(s: Seq<u8>, i: int) -> int
    decreases s.len() - i,
{
    if 0 <= i < s.len() && is_ws(s[i]) {
        skip_ws(s, i + 1)
    } else {
        i
    }
}

/// The position of the closing quote of a string whose content starts at
/// `i`: the first quote at or after `i`, provided only name bytes stand
/// before it.
pub open spec fn scan_string_end(s: Seq<u8>, i: int) -> Option<int>
    decreases s.len() - i,
{
    if i < 0 || i >= s.len() {
        None
    } else if s[i] == q_mark() {
        Some(i)
    } else if name_byte_ok(s[i]) {
        scan_string_end(s, i + 1)
    } else {
        None
    }
}

/// Parses a quoted string at `i`: the content and the position after the
/// closing quote.
pub open spec fn spec_parse_string(s: Seq<u8>, i: int) -> Option<(Seq<u8>, int)> {
    if 0 <= i < s.len() && s[i] == q_mark() {
        match scan_string_end(s, i + 1) {
            Some(j) => Some((s.subrange(i + 1, j), j + 1)),
            None => None,
        }
    } else {
        None
    }
}

/// Folds decimal digits left to right onto `acc`, rejecting values that
/// do not fit the widest field.
pub open spec fn spec_parse_num_loop(s: Seq<u8>, i: int, acc: nat) -> Option<(nat, int)>
    decreases s.len() - i,
{
    if 0 <= i < s.len() && is_digit(s[i]) {
        if acc * 10 + digit_val(s[i]) > 0xFFFF_FFFF {
            None
        } else {
            spec_parse_num_loop(s, i + 1, acc * 10 + digit_val(s[i]))
        }
    } else {
        Some((acc, i))
    }
}

/// Parses a decimal number at `i`: its value and the position after its
/// digits.
pub open spec fn spec_parse_number(s: Seq<u8>, i: int) -> Option<(nat, int)> {
    if 0 <= i < s.len() && is_digit(s[i]) {
        spec_parse_num_loop(s, i, 0)
    } else {
        None
    }
}

/// Parses a direction value at `i`.
pub open spec fn spec_parse_direction(s: Seq<u8>, i: int) -> Option<(Direction, int)> {
    match spec_parse_string(s, i) {
        Some((w, j)) => if w == word_ingress() {
            Some((Direction::Ingress, j))
        } else if w == word_egress() {
            Some((Direction::Egress, j))
        } else {
            None
        },
        None => None,
    }
}

/// The fields seen so far while parsing an object.
#[verifier::ext_equal]
pub struct FieldsV {
    pub if_name: Option<Seq<u8>>,
    pub direction: Option<Direction>,
    pub priority: Option<u16>,
    pub handle: Option<u32>,
}

/// No field seen yet.
pub open spec fn no_fields() -> FieldsV {
    FieldsV { if_name: None, direction: None, priority: None, handle: None }
}

/// Parses one `"key": value` member at `i` into the accumulator: an
/// unknown key, a repeated key, or a value of the wrong shape or range
/// rejects the object.
pub open spec fn spec_parse_member(s: Seq<u8>, i: int, acc: FieldsV) -> Option<(FieldsV, int)> {
    match spec_parse_string(s, i) {
        Some((k, j)) => {
            let j2 = skip_ws(s, j);
            if 0 <= j2 < s.len() && s[j2] == 0x3a {
                let v = skip_ws(s, j2 + 1);
                if k == key_if_name() {
                    if acc.if_name is Some {
                        None
                    } else {
                        match spec_parse_string(s, v) {
                            Some((w, j3)) => if valid_if_name(w) {
                                Some((FieldsV { if_name: Some(w), ..acc }, j3))
                            } else {
                                None
                            },
                            None => None,
                        }
                    }
                } else if k == key_direction() {
                    if acc.direction is Some {
                        None
                    } else {
                        match spec_parse_direction(s, v) {
                            Some((d, j3)) => Some((FieldsV { direction: Some(d), ..acc }, j3)),
                            None => None,
                        }
                    }
                } else if k == key_priority() {
                    if acc.priority is Some {
                        None
                    } else {
                        match spec_parse_number(s, v) {
                            Some((n, j3)) => if n <= 0xFFFF {
                                Some((FieldsV { priority: Some(n as u16), ..acc }, j3))
                            } else {
                                None
                            },
                            None => None,
                        }
                    }
                } else if k == key_handle() {
                    if acc.handle is Some {
                        None
                    } else {
                        match spec_parse_number(s, v) {
                            Some((n, j3)) => Some((FieldsV { handle: Some(n as u32), ..acc }, j3)),
                            None => None,
                        }
                    }
                } else {
                    None
                }
            } else {
                None
            }
        },
        None => None,
    }
}

/// After a member: the position after a separating comma, if one stands
/// next.
pub open spec fn after_comma(s: Seq<u8>, i: int) -> Option<int> {
    let j = skip_ws(s, i);
    if 0 <= j < s.len() && s[j] == 0x2c {
        Some(skip_ws(s, j + 1))
    } else {
        None
    }
}

/// After the last member: demands the closing brace and then nothing but
/// blank space to the end.
pub open spec fn object_closed(s: Seq<u8>, i: int) -> bool {
    let j = skip_ws(s, i);
    &&& 0 <= j < s.len()
    &&& s[j] == 0x7d
    &&& skip_ws(s, j + 1) == s.len()
}

/// The record the four collected fields make, if all are present.
pub open spec fn fields_to_point(f: FieldsV) -> Option<PointV> {
    match (f.if_name, f.direction, f.priority, f.handle) {
        (Some(n), Some(d), Some(p), Some(h)) => Some(
            PointV { if_name: n, direction: d, priority: p, handle: h },
        ),
        _ => None,
    }
}

/// Parses a whole record: an object of exactly the four fields, each
/// once, in any order, with optional blank space between tokens.
pub open spec fn spec_parse_record(s: Seq<u8>) -> Option<PointV> {
    let i = skip_ws(s, 0);
    if 0 <= i < s.len() && s[i] == 0x7b {
        match spec_parse_member(s, skip_ws(s, i + 1), no_fields()) {
            Some((a1, p1)) => match after_comma(s, p1) {
                Some(q1) => match spec_parse_member(s, q1, a1) {
                    Some((a2, p2)) => match after_comma(s, p2) {
                        Some(q2) => match spec_parse_member(s, q2, a2) {
                            Some((a3, p3)) => match after_comma(s, p3) {
                                Some(q3) => match spec_parse_member(s, q3, a3) {
                                    Some((a4, p4)) => if object_closed(s, p4) {
                                        fields_to_point(a4)
                                    } else {
                                        None
                                    },
                                    None => None,
                                },
                                None => None,
                            },
                            None => None,
                        },
                        None => None,
                    },
                    None => None,
                },
                None => None,
            },
            None => None,
        }
    } else {
        None
    }
}

/// Advances past blank space.
fn skip_ws_x(s: &Vec<u8>, i: usize) -> (j: usize)
    requires
        i <= s@.len(),
    ensures
        j as int == skip_ws(s@, i as int),
        i <= j <= s@.len(),
{
    let mut j = i;
    while j < s.len() && (s[j] == 0x20 || s[j] == 0x09 || s[j] == 0x0a || s[j] == 0x0d)
        invariant
            i <= j <= s@.len(),
            skip_ws(s@, i as int) == skip_ws(s@, j as int),
        decreases s@.len() - j,
    {
        j = j + 1;
    }
    j
}

/// Reads a quoted string.
fn parse_string_x(s: &Vec<u8>, i: usize) -> (r: Option<(Vec<u8>, usize)>)
    ensures
        match r {
            Some(v) => spec_parse_string(s@, i as int) == Some((v.0@, v.1 as int)) && v.1
                <= s@.len(),
            None => spec_parse_string(s@, i as int) is None,
        },
{
    if i >= s.len() || s[i] != 0x22 {
        return None;
    }
    let mut j = i + 1;
    let mut content: Vec<u8> = Vec::new();
    while j < s.len()
        invariant
            i + 1 <= j <= s@.len(),
            i < s@.len(),
            s@[i as int] == q_mark(),
            content@ == s@.subrange(i + 1, j as int),
            scan_string_end(s@, i + 1) == scan_string_end(s@, j as int),
        decreases s@.len() - j,
    {
        let b = s[j];
        if b == 0x22 {
            return Some((content, j + 1));
        }
        if !(0x20 <= b && b < 0x7f && b != 0x5c) {
            return None;
        }
        content.push(b);
        j = j + 1;
        proof {
            assert(content@ =~= s@.subrange(i + 1, j as int));
        }
    }
    None
}

/// Reads a decimal number that fits the widest field.
fn parse_number_x(s: &Vec<u8>, i: usize) -> (r: Option<(u32, usize)>)
    ensures
        match r {
            Some(v) => spec_parse_number(s@, i as int) == Some((v.0 as nat, v.1 as int)) && v.1
                <= s@.len(),
            None => spec_parse_number(s@, i as int) is None,
        },
{
    if i >= s.len() || !(0x30 <= s[i] && s[i] <= 0x39) {
        return None;
    }
    let mut acc: u64 = 0;
    let mut j = i;
    while j < s.len() && 0x30 <= s[j] && s[j] <= 0x39
        invariant
            i <= j <= s@.len(),
            acc <= 0xFFFF_FFFF,
            spec_parse_num_loop(s@, i as int, 0) == spec_parse_num_loop(s@, j as int, acc as nat),
        decreases s@.len() - j,
    {
        let d = (s[j] - 0x30) as u64;
        let v = acc * 10 + d;
        if v > 0xFFFF_FFFF {
            return None;
        }
        acc = v;
        j = j + 1;
    }
    Some((acc as u32, j))
}

/// Reads a direction value.
fn parse_direction_x(s: &Vec<u8>, i: usize) -> (r: Option<(Direction, usize)>)
    ensures
        match r {
            Some(v) => spec_parse_direction(s@, i as int) == Some((v.0, v.1 as int)) && v.1
                <= s@.len(),
            None => spec_parse_direction(s@, i as int) is None,
        },
{
    match parse_string_x(s, i) {
        Some((w, j)) => {
            if bytes_eq(&w, &make_word_ingress()) {
                Some((Direction::Ingress, j))
            } else if bytes_eq(&w, &make_word_egress()) {
                Some((Direction::Egress, j))
            } else {
                None
            }
        },
        None => None,
    }
}

/// The fields collected so far while reading an object.
struct Fields {
    if_name: Option<Vec<u8>>,
    direction: Option<Direction>,
    priority: Option<u16>,
    handle: Option<u32>,
}

impl View for Fields {
    type V = FieldsV;

    closed spec fn view(&self) -> FieldsV {
        FieldsV {
            if_name: match self.if_name {
                Some(ref v) => Some(v@),
                None => None,
            },
            direction: self.direction,
            priority: self.priority,
            handle: self.handle,
        }
    }
}

/// Reads one `"key": value` member into the accumulator.
fn parse_member_x(s: &Vec<u8>, i: usize, acc: Fields) -> (r: Option<(Fields, usize)>)
    ensures
        match r {
            Some(v) => spec_parse_member(s@, i as int, acc@) == Some((v.0@, v.1 as int)) && v.1
                <= s@.len(),
            None => spec_parse_member(s@, i as int, acc@) is None,
        },
{
    let (k, j) = match parse_string_x(s, i) {
        Some(v) => v,
        None => {
            return None;
        },
    };
    let j2 = skip_ws_x(s, j);
    if j2 >= s.len() || s[j2] != 0x3a {
        return None;
    }
    let v = skip_ws_x(s, j2 + 1);
    if bytes_eq(&k, &make_key_if_name()) {
        if acc.if_name.is_some() {
            return None;
        }
        match parse_string_x(s, v) {
            Some((w, j3)) => {
                if crate::point::check_if_name(&w) {
                    Some((Fields { if_name: Some(w), ..acc }, j3))
                } else {
                    None
                }
            },
            None => None,
        }
    } else if bytes_eq(&k, &make_key_direction()) {
        if acc.direction.is_some() {
            return None;
        }
        match parse_direction_x(s, v) {
            Some((d, j3)) => Some((Fields { direction: Some(d), ..acc }, j3)),
            None => None,
        }
    } else if bytes_eq(&k, &make_key_priority()) {
        if acc.priority.is_some() {
            return None;
        }
        match parse_number_x(s, v) {
            Some((n, j3)) => {
                if n <= 0xFFFF {
                    Some((Fields { priority: Some(n as u16), ..acc }, j3))
                } else {
                    None
                }
            },
            None => None,
        }
    } else if bytes_eq(&k, &make_key_handle()) {
        if acc.handle.is_some() {
            return None;
        }
        match parse_number_x(s, v) {
            Some((n, j3)) => Some((Fields { handle: Some(n), ..acc }, j3)),
            None => None,
        }
    } else {
        None
    }
}

/// Passes a separating comma.
fn after_comma_x(s: &Vec<u8>, i: usize) -> (r: Option<usize>)
    requires
        i <= s@.len(),
    ensures
        match r {
            Some(j) => after_comma(s@, i as int) == Some(j as int) && j <= s@.len(),
            None => after_comma(s@, i as int) is None,
        },
{
    let j = skip_ws_x(s, i);
    if j < s.len() && s[j] == 0x2c {
        Some(skip_ws_x(s, j + 1))
    } else {
        None
    }
}

/// Demands the closing brace and then nothing but blank space.
fn object_closed_x(s: &Vec<u8>, i: usize) -> (r: bool)
    requires
        i <= s@.len(),
    ensures
        r == object_closed(s@, i as int),
{
    let j = skip_ws_x(s, i);
    if j < s.len() && s[j] == 0x7d {
        skip_ws_x(s, j + 1) == s.len()
    } else {
        false
    }
}

/// Reads a record from its durable encoding: an object of exactly the
/// four fields, each once, in any order, with optional blank space
/// between tokens. Anything else yields nothing.
pub fn parse_record(s: &Vec<u8>) -> (r: Option<PersistedRecord>)
    ensures
        (match r {
            Some(rec) => Some(rec@),
            None => None,
        }) == spec_parse_record(s@),
{
    let i = skip_ws_x(s, 0);
    if i >= s.len() || s[i] != 0x7b {
        return None;
    }
    let start = skip_ws_x(s, i + 1);
    let acc = Fields { if_name: None, direction: None, priority: None, handle: None };
    let (a1, p1) = match parse_member_x(s, start, acc) {
        Some(v) => v,
        None => {
            return None;
        },
    };
    let q1 = match after_comma_x(s, p1) {
        Some(v) => v,
        None => {
            return None;
        },
    };
    let (a2, p2) = match parse_member_x(s, q1, a1) {
        Some(v) => v,
        None => {
            return None;
        },
    };
    let q2 = match after_comma_x(s, p2) {
        Some(v) => v,
        None => {
            return None;
        },
    };
    let (a3, p3) = match parse_member_x(s, q2, a2) {
        Some(v) => v,
        None => {
            return None;
        },
    };
    let q3 = match after_comma_x(s, p3) {
        Some(v) => v,
        None => {
            return None;
        },
    };
    let (a4, p4) = match parse_member_x(s, q3, a3) {
        Some(v) => v,
        None => {
            return None;
        },
    };
    if !object_closed_x(s, p4) {
        return None;
    }
    match (a4.if_name, a4.direction, a4.priority, a4.handle) {
        (Some(n), Some(d), Some(p), Some(h)) => {
            let rec = PersistedRecord {
                point: AttachPoint { if_name: n, direction: d, priority: p, handle: h },
            };
            Some(rec)
        },
        _ => None,
    }
}

/// Scanning hits the closing quote when only name bytes stand before it.
proof fn lemma_scan_to_quote(s: Seq<u8>, a: int, b: int)
    requires
        0 <= a <= b < s.len(),
        forall|k: int| a <= k < b ==> name_byte_ok(s[k]),
        s[b] == q_mark(),
    ensures
        scan_string_end(s, a) == Some(b),
    decreases b - a,
{
    if a < b {
        lemma_scan_to_quote(s, a + 1, b);
    }
}

/// A quoted word of name bytes parses to exactly that word.
proof fn lemma_parse_string_at(s: Seq<u8>, i: int, w: Seq<u8>)
    requires
        0 <= i,
        i + w.len() + 2 <= s.len(),
        s.subrange(i, i + w.len() + 2) == quoted(w),
        forall|k: int| 0 <= k < w.len() ==> name_byte_ok(w[k]),
    ensures
        spec_parse_string(s, i) == Some((w, i + w.len() + 2)),
{
    let n = w.len() as int;
    let qw = quoted(w);
    assert(s[i] == q_mark()) by {
        assert(s.subrange(i, i + n + 2)[0] == s[i]);
        assert(qw[0] == q_mark());
    }
    assert(s[i + n + 1] == q_mark()) by {
        assert(s.subrange(i, i + n + 2)[n + 1] == s[i + n + 1]);
        assert(qw[n + 1] == q_mark());
    }
    assert forall|k: int| i + 1 <= k < i + 1 + n implies name_byte_ok(s[k]) by {
        assert(s.subrange(i, i + n + 2)[k - i] == s[k]);
        assert(qw[k - i] == w[k - i - 1]);
    }
    lemma_scan_to_quote(s, i + 1, i + 1 + n);
    assert(s.subrange(i + 1, i + 1 + n) =~= w) by {
        assert forall|k: int| 0 <= k < n implies s.subrange(i + 1, i + 1 + n)[k] == w[k] by {
            assert(s.subrange(i, i + n + 2)[k + 1] == s[i + 1 + k]);
            assert(qw[k + 1] == w[k]);
        }
    }
}

/// Folds decimal digits left to right onto `acc`, as the number parser
/// does, rejecting values that do not fit the widest field.
spec fn fold10(acc: nat, ds: Seq<u8>) -> Option<nat>
    decreases ds.len(),
{
    if ds.len() == 0 {
        Some(acc)
    } else if acc * 10 + digit_val(ds[0]) > 0xFFFF_FFFF {
        None
    } else {
        fold10(acc * 10 + digit_val(ds[0]), ds.drop_first())
    }
}

/// The number parser computes the fold of the digit run it consumes.
proof fn lemma_num_loop_fold(s: Seq<u8>, i: int, j: int, acc: nat)
    requires
        0 <= i <= j <= s.len(),
        forall|k: int| i <= k < j ==> is_digit(s[k]),
        j == s.len() || !is_digit(s[j]),
    ensures
        spec_parse_num_loop(s, i, acc) == (match fold10(acc, s.subrange(i, j)) {
            Some(v) => Some((v, j)),
            None => None,
        }),
    decreases j - i,
{
    let ds = s.subrange(i, j);
    if i == j {
        assert(ds.len() == 0);
    } else {
        assert(ds[0] == s[i]);
        if acc * 10 + digit_val(s[i]) > 0xFFFF_FFFF {
        } else {
            lemma_num_loop_fold(s, i + 1, j, acc * 10 + digit_val(s[i]));
            assert(ds.drop_first() =~= s.subrange(i + 1, j));
        }
    }
}

/// The decimal digits of a number are digits, and there is at least one.
proof fn lemma_dec_digits_shape(n: nat)
    ensures
        dec_digits(n).len() >= 1,
        forall|k: int| 0 <= k < dec_digits(n).len() ==> is_digit(#[trigger] dec_digits(n)[k]),
    decreases n,
{
    if n < 10 {
    } else {
        lemma_dec_digits_shape(n / 10);
        assert forall|k: int| 0 <= k < dec_digits(n).len() implies is_digit(
            #[trigger] dec_digits(n)[k],
        ) by {
            if k < dec_digits(n / 10).len() {
                assert(dec_digits(n)[k] == dec_digits(n / 10)[k]);
            } else {
                assert(dec_digits(n)[k] == (0x30 + n % 10) as u8);
            }
        }
    }
}

/// Folding distributes over concatenation of digit runs.
proof fn lemma_fold10_append(acc: nat, a: Seq<u8>, b: Seq<u8>)
    ensures
        fold10(acc, a + b) == (match fold10(acc, a) {
            Some(v) => fold10(v, b),
            None => None::<nat>,
        }),
    decreases a.len(),
{
    if a.len() == 0 {
        assert(a + b =~= b);
    } else {
        assert((a + b)[0] == a[0]);
        if acc * 10 + digit_val(a[0]) > 0xFFFF_FFFF {
        } else {
            assert((a + b).drop_first() =~= a.drop_first() + b);
            lemma_fold10_append(acc * 10 + digit_val(a[0]), a.drop_first(), b);
        }
    }
}

/// Folding the decimal digits of `n` from zero gives back `n`.
proof fn lemma_fold10_dec_digits(n: nat)
    requires
        n <= 0xFFFF_FFFF,
    ensures
        fold10(0, dec_digits(n)) == Some(n),
    decreases n,
{
    if n < 10 {
        let ds = dec_digits(n);
        assert(digit_val(ds[0]) == n);
        assert(fold10(0, ds) == fold10(n, ds.drop_first()));
        assert(ds.drop_first().len() == 0);
        assert(fold10(n, ds.drop_first()) == Some(n));
    } else {
        lemma_fold10_dec_digits(n / 10);
        let last = (0x30 + n % 10) as u8;
        assert(dec_digits(n) =~= dec_digits(n / 10) + seq![last]);
        lemma_fold10_append(0, dec_digits(n / 10), seq![last]);
        assert((n / 10) * 10 + n % 10 == n) by (nonlinear_arith);
        assert(digit_val(last) == n % 10);
        let v = (n / 10) * 10 + n % 10;
        assert(fold10(0, dec_digits(n)) == fold10(n / 10, seq![last]));
        assert(fold10(n / 10, seq![last]) == fold10(v, seq![last].drop_first()));
        assert(seq![last].drop_first().len() == 0);
        assert(fold10(v, seq![last].drop_first()) == Some(v));
    }
}

/// The decimal digits of `n`, followed by a non-digit, parse to `n`.
proof fn lemma_parse_number_at(s: Seq<u8>, i: int, n: nat)
    requires
        0 <= i,
        n <= 0xFFFF_FFFF,
        i + dec_digits(n).len() < s.len(),
        s.subrange(i, i + dec_digits(n).len()) == dec_digits(n),
        !is_digit(s[i + dec_digits(n).len()]),
    ensures
        spec_parse_number(s, i) == Some((n, i + dec_digits(n).len())),
{
    let l = dec_digits(n).len() as int;
    lemma_dec_digits_shape(n);
    assert forall|k: int| i <= k < i + l implies is_digit(s[k]) by {
        assert(s.subrange(i, i + l)[k - i] == s[k]);
        assert(is_digit(dec_digits(n)[k - i]));
    }
    assert(s[i] == dec_digits(n)[0]);
    lemma_num_loop_fold(s, i, i + l, 0);
    lemma_fold10_dec_digits(n);
}

/// An `"if_name": "<name>"` member parses into the name field.
proof fn lemma_member_if_name(s: Seq<u8>, i: int, acc: FieldsV, w: Seq<u8>)
    requires
        acc.if_name is None,
        valid_if_name(w),
        0 <= i,
        i + 12 + w.len() <= s.len(),
        s.subrange(i, i + 9) == quoted(key_if_name()),
        s[i + 9] == 0x3a,
        s.subrange(i + 10, i + 12 + w.len()) == quoted(w),
    ensures
        spec_parse_member(s, i, acc) == Some(
            (FieldsV { if_name: Some(w), ..acc }, i + 12 + w.len()),
        ),
{
    lemma_literal_bytes();
    lemma_parse_string_at(s, i, key_if_name());
    assert(skip_ws(s, i + 9) == i + 9);
    assert(s[i + 10] == q_mark()) by {
        assert(s.subrange(i + 10, i + 12 + w.len())[0] == s[i + 10]);
        assert(quoted(w)[0] == q_mark());
    }
    assert(skip_ws(s, i + 10) == i + 10);
    lemma_parse_string_at(s, i + 10, w);
}

/// A `"direction": "<word>"` member parses into the direction field.
proof fn lemma_member_direction(s: Seq<u8>, i: int, acc: FieldsV, d: Direction)
    requires
        acc.direction is None,
        0 <= i,
        i + 14 + direction_word(d).len() <= s.len(),
        s.subrange(i, i + 11) == quoted(key_direction()),
        s[i + 11] == 0x3a,
        s.subrange(i + 12, i + 14 + direction_word(d).len()) == quoted(direction_word(d)),
    ensures
        spec_parse_member(s, i, acc) == Some(
            (FieldsV { direction: Some(d), ..acc }, i + 14 + direction_word(d).len()),
        ),
{
    let dw = direction_word(d);
    lemma_literal_bytes();
    lemma_parse_string_at(s, i, key_direction());
    assert(key_direction() != key_if_name()) by {
        assert(key_direction().len() == 9 && key_if_name().len() == 7);
    }
    assert(skip_ws(s, i + 11) == i + 11);
    assert(s[i + 12] == q_mark()) by {
        assert(s.subrange(i + 12, i + 14 + dw.len())[0] == s[i + 12]);
        assert(quoted(dw)[0] == q_mark());
    }
    assert(skip_ws(s, i + 12) == i + 12);
    lemma_parse_string_at(s, i + 12, dw);
    match d {
        Direction::Ingress => {
        },
        Direction::Egress => {
            assert(word_egress() != word_ingress()) by {
                assert(word_egress().len() == 6 && word_ingress().len() == 7);
            }
        },
    }
}

/// A `"priority": <digits>` member parses into the priority field.
proof fn lemma_member_priority(s: Seq<u8>, i: int, acc: FieldsV, n: u16)
    requires
        acc.priority is None,
        0 <= i,
        i + 11 + dec_digits(n as nat).len() < s.len(),
        s.subrange(i, i + 10) == quoted(key_priority()),
        s[i + 10] == 0x3a,
        s.subrange(i + 11, i + 11 + dec_digits(n as nat).len()) == dec_digits(n as nat),
        !is_digit(s[i + 11 + dec_digits(n as nat).len()]),
    ensures
        spec_parse_member(s, i, acc) == Some(
            (FieldsV { priority: Some(n), ..acc }, i + 11 + dec_digits(n as nat).len()),
        ),
{
    let ds = dec_digits(n as nat);
    lemma_literal_bytes();
    lemma_dec_digits_shape(n as nat);
    lemma_parse_string_at(s, i, key_priority());
    assert(key_priority() != key_if_name()) by {
        assert(key_priority().len() == 8 && key_if_name().len() == 7);
    }
    assert(key_priority() != key_direction()) by {
        assert(key_priority().len() == 8 && key_direction().len() == 9);
    }
    assert(skip_ws(s, i + 10) == i + 10);
    assert(s[i + 11] == ds[0]) by {
        assert(s.subrange(i + 11, i + 11 + ds.len())[0] == s[i + 11]);
    }
    assert(is_digit(s[i + 11]));
    assert(skip_ws(s, i + 11) == i + 11);
    lemma_parse_number_at(s, i + 11, n as nat);
}

/// A `"handle": <digits>` member parses into the handle field.
proof fn lemma_member_handle(s: Seq<u8>, i: int, acc: FieldsV, n: u32)
    requires
        acc.handle is None,
        0 <= i,
        i + 9 + dec_digits(n as nat).len() < s.len(),
        s.subrange(i, i + 8) == quoted(key_handle()),
        s[i + 8] == 0x3a,
        s.subrange(i + 9, i + 9 + dec_digits(n as nat).len()) == dec_digits(n as nat),
        !is_digit(s[i + 9 + dec_digits(n as nat).len()]),
    ensures
        spec_parse_member(s, i, acc) == Some(
            (FieldsV { handle: Some(n), ..acc }, i + 9 + dec_digits(n as nat).len()),
        ),
{
    let ds = dec_digits(n as nat);
    lemma_literal_bytes();
    lemma_dec_digits_shape(n as nat);
    lemma_parse_string_at(s, i, key_handle());
    assert(key_handle() != key_if_name()) by {
        assert(key_handle().len() == 6 && key_if_name().len() == 7);
    }
    assert(key_handle() != key_direction()) by {
        assert(key_handle().len() == 6 && key_direction().len() == 9);
    }
    assert(key_handle() != key_priority()) by {
        assert(key_handle().len() == 6 && key_priority().len() == 8);
    }
    assert(skip_ws(s, i + 8) == i + 8);
    assert(s[i + 9] == ds[0]) by {
        assert(s.subrange(i + 9, i + 9 + ds.len())[0] == s[i + 9]);
    }
    assert(is_digit(s[i + 9]));
    assert(skip_ws(s, i + 9) == i + 9);
    lemma_parse_number_at(s, i + 9, n as nat);
}

/// The six literals of the encoding are made of name bytes.
proof fn lemma_literal_bytes()
    ensures
        forall|k: int| 0 <= k < 7 ==> name_byte_ok(#[trigger] key_if_name()[k]),
        forall|k: int| 0 <= k < 9 ==> name_byte_ok(#[trigger] key_direction()[k]),
        forall|k: int| 0 <= k < 8 ==> name_byte_ok(#[trigger] key_priority()[k]),
        forall|k: int| 0 <= k < 6 ==> name_byte_ok(#[trigger] key_handle()[k]),
        forall|k: int| 0 <= k < 7 ==> name_byte_ok(#[trigger] word_ingress()[k]),
        forall|k: int| 0 <= k < 6 ==> name_byte_ok(#[trigger] word_egress()[k]),
{
}

/// Round trip of the durable encoding: parsing what the encoder wrote
/// for any record with a usable interface name yields exactly that
/// record, all four identity fields equal.
#[verifier::rlimit(60)]
pub proof fn lemma_record_round_trip(p: PointV)
    requires
        valid_if_name(p.if_name),
    ensures
        spec_parse_record(spec_encode_record(p)) == Some(p),
{
    let s = spec_encode_record(p);
    let nl = p.if_name.len() as int;
    let dw = direction_word(p.direction);
    let dl = dw.len() as int;
    let pd = dec_digits(p.priority as nat);
    let pl = pd.len() as int;
    let hd = dec_digits(p.handle as nat);
    let hl = hd.len() as int;
    let i1: int = 1;
    let p1: int = i1 + 12 + nl;
    let i2: int = p1 + 1;
    let p2: int = i2 + 14 + dl;
    let i3: int = p2 + 1;
    let p3: int = i3 + 11 + pl;
    let i4: int = p3 + 1;
    let p4: int = i4 + 9 + hl;
    assert(s.len() == p4 + 1);
    assert(s[0] == 0x7b);
    assert(s.subrange(i1, i1 + 9) =~= quoted(key_if_name()));
    assert(s[i1 + 9] == 0x3a);
    assert(s.subrange(i1 + 10, p1) =~= quoted(p.if_name));
    assert(s[p1] == 0x2c);
    assert(s.subrange(i2, i2 + 11) =~= quoted(key_direction()));
    assert(s[i2 + 11] == 0x3a);
    assert(s.subrange(i2 + 12, p2) =~= quoted(dw));
    assert(s[p2] == 0x2c);
    assert(s.subrange(i3, i3 + 10) =~= quoted(key_priority()));
    assert(s[i3 + 10] == 0x3a);
    assert(s.subrange(i3 + 11, p3) =~= pd);
    assert(s[p3] == 0x2c);
    assert(s.subrange(i4, i4 + 8) =~= quoted(key_handle()));
    assert(s[i4 + 8] == 0x3a);
    assert(s.subrange(i4 + 9, p4) =~= hd);
    assert(s[p4] == 0x7d);
    assert(skip_ws(s, 0) == 0);
    assert(s[i1] == q_mark()) by {
        assert(s.subrange(i1, i1 + 9)[0] == s[i1]);
        assert(quoted(key_if_name())[0] == q_mark());
    }
    assert(skip_ws(s, i1) == i1);
    let f0 = no_fields();
    lemma_member_if_name(s, i1, f0, p.if_name);
    let f1 = FieldsV {
        if_name: Some(p.if_name),
        direction: None,
        priority: None,
        handle: None,
    };
    assert(spec_parse_member(s, i1, f0) == Some((f1, p1)));
    assert(s[i2] == q_mark()) by {
        assert(s.subrange(i2, i2 + 11)[0] == s[i2]);
        assert(quoted(key_direction())[0] == q_mark());
    }
    assert(skip_ws(s, p1) == p1);
    assert(skip_ws(s, i2) == i2);
    assert(after_comma(s, p1) == Some(i2));
    lemma_member_direction(s, i2, f1, p.direction);
    let f2 = FieldsV {
        if_name: Some(p.if_name),
        direction: Some(p.direction),
        priority: None,
        handle: None,
    };
    assert(spec_parse_member(s, i2, f1) == Some((f2, p2)));
    assert(s[i3] == q_mark()) by {
        assert(s.subrange(i3, i3 + 10)[0] == s[i3]);
        assert(quoted(key_priority())[0] == q_mark());
    }
    assert(skip_ws(s, p2) == p2);
    assert(skip_ws(s, i3) == i3);
    assert(after_comma(s, p2) == Some(i3));
    assert(!is_digit(s[p3]));
    lemma_member_priority(s, i3, f2, p.priority);
    let f3 = FieldsV {
        if_name: Some(p.if_name),
        direction: Some(p.direction),
        priority: Some(p.priority),
        handle: None,
    };
    assert(spec_parse_member(s, i3, f2) == Some((f3, p3)));
    assert(s[i4] == q_mark()) by {
        assert(s.subrange(i4, i4 + 8)[0] == s[i4]);
        assert(quoted(key_handle())[0] == q_mark());
    }
    assert(skip_ws(s, p3) == p3);
    assert(skip_ws(s, i4) == i4);
    assert(after_comma(s, p3) == Some(i4));
    assert(!is_digit(s[p4]));
    lemma_member_handle(s, i4, f3, p.handle);
    let f4 = FieldsV {
        if_name: Some(p.if_name),
        direction: Some(p.direction),
        priority: Some(p.priority),
        handle: Some(p.handle),
    };
    assert(spec_parse_member(s, i4, f3) == Some((f4, p4)));
    assert(skip_ws(s, p4) == p4);
    assert(skip_ws(s, p4 + 1) == s.len());
    assert(object_closed(s, p4));
    assert(fields_to_point(f4) == Some(p)) by {
        assert(PointV {
            if_name: p.if_name,
            direction: p.direction,
            priority: p.priority,
            handle: p.handle,
        } =~= p);
    }
    assert(spec_parse_record(s) == Some(p));
}

} // verus!

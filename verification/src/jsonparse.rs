//! A strict reading of the JSON texts this library produces, defined at
//! the specification level, together with round-trip lemmas.  These are
//! the library's statements that its serialized forms are lossless: a
//! produced text determines the request it came from.
use vstd::prelude::*;

use crate::textfmt::dec_digits;
use crate::textfmt::escape_char;
use crate::textfmt::escape_text;
use crate::textfmt::hex_char;
use crate::textfmt::spec_i64_dec;
use crate::payload::spec_adhoc_fields;
use crate::payload::spec_ids_array;
use crate::payload::spec_ids_inner;
use crate::payload::spec_location_group_request_json;
use crate::payload::spec_schedule_group_request_json;
use crate::payload::spec_location_obj;
use crate::payload::spec_locations_array;
use crate::payload::spec_locations_inner;

verus! {

/// The value of a hex digit character, or 16 for any other character.
pub open spec fn hex_val(c: char) -> nat {
    if c == '0' {
        0
    } else if c == '1' {
        1
    } else if c == '2' {
        2
    } else if c == '3' {
        3
    } else if c == '4' {
        4
    } else if c == '5' {
        5
    } else if c == '6' {
        6
    } else if c == '7' {
        7
    } else if c == '8' {
        8
    } else if c == '9' {
        9
    } else if c == 'a' {
        10
    } else if c == 'b' {
        11
    } else if c == 'c' {
        12
    } else if c == 'd' {
        13
    } else if c == 'e' {
        14
    } else if c == 'f' {
        15
    } else {
        16
    }
}

pub open spec fn is_dec_digit(c: char) -> bool {
    hex_val(c) < 10
}

pub proof fn lemma_hex_val_hex_char(k: nat)
    requires
        k < 16,
    ensures
        hex_val(hex_char(k)) == k,
{
}

/// Consume leading decimal digits, accumulating their value.
pub open spec fn parse_nat_loop(acc: nat, s: Seq<char>) -> (nat, Seq<char>)
    decreases s.len(),
{
    if s.len() > 0 && is_dec_digit(s[0]) {
        parse_nat_loop(acc * 10 + hex_val(s[0]), s.subrange(1, s.len() as int))
    } else {
        (acc, s)
    }
}

/// Read a natural number written in decimal: at least one digit.
pub open spec fn parse_nat(s: Seq<char>) -> Option<(nat, Seq<char>)> {
    if s.len() > 0 && is_dec_digit(s[0]) {
        Some(parse_nat_loop(0, s))
    } else {
        None
    }
}

/// Read an integer: an optional minus sign, then digits.
pub open spec fn parse_int(s: Seq<char>) -> Option<(int, Seq<char>)> {
    if s.len() > 0 && s[0] == '-' {
        match parse_nat(s.subrange(1, s.len() as int)) {
            Some((n, r)) => Some((-(n as int), r)),
            None => None,
        }
    } else {
        match parse_nat(s) {
            Some((n, r)) => Some((n as int, r)),
            None => None,
        }
    }
}

pub open spec fn pow10(k: nat) -> nat
    decreases k,
{
    if k == 0 {
        1
    } else {
        10 * pow10((k - 1) as nat)
    }
}

pub proof fn lemma_parse_nat_loop_suffix(acc: nat, s: Seq<char>)
    ensures
        parse_nat_loop(acc, s).1.len() <= s.len(),
    decreases s.len(),
{
    if s.len() > 0 && is_dec_digit(s[0]) {
        lemma_parse_nat_loop_suffix(acc * 10 + hex_val(s[0]), s.subrange(1, s.len() as int));
    }
}

pub proof fn lemma_dec_digits_all_digits(n: nat)
    ensures
        dec_digits(n).len() >= 1,
        forall|i: int| 0 <= i < dec_digits(n).len() ==> is_dec_digit(#[trigger] dec_digits(n)[i]),
    decreases n,
{
    if n < 10 {
        lemma_hex_val_hex_char(n);
    } else {
        lemma_dec_digits_all_digits(n / 10);
        lemma_hex_val_hex_char(n % 10);
        assert forall|i: int| 0 <= i < dec_digits(n).len() implies is_dec_digit(
            #[trigger] dec_digits(n)[i],
        ) by {
            if i < dec_digits(n / 10).len() {
                assert(dec_digits(n)[i] == dec_digits(n / 10)[i]);
            } else {
                assert(dec_digits(n)[i] == hex_char(n % 10));
            }
        }
    }
}

pub proof fn lemma_parse_nat_loop_digits(acc: nat, n: nat, rest: Seq<char>)
    ensures
        parse_nat_loop(acc, dec_digits(n) + rest) == parse_nat_loop(
            acc * pow10(dec_digits(n).len()) + n,
            rest,
        ),
    decreases n,
{
    let s = dec_digits(n) + rest;
    if n < 10 {
        lemma_hex_val_hex_char(n);
        assert(s[0] == hex_char(n));
        assert(s.subrange(1, s.len() as int) =~= rest);
        assert(pow10(0) == 1);
        assert(pow10(1) == 10);
        assert(acc * pow10(1) + n == acc * 10 + n) by (nonlinear_arith)
            requires
                pow10(1) == 10,
        ;
    } else {
        let d = n % 10;
        let hd = n / 10;
        let l1 = dec_digits(hd).len();
        lemma_hex_val_hex_char(d);
        assert(dec_digits(n) =~= dec_digits(hd).push(hex_char(d)));
        assert(s =~= dec_digits(hd) + (seq![hex_char(d)] + rest));
        lemma_parse_nat_loop_digits(acc, hd, seq![hex_char(d)] + rest);
        let acc2 = acc * pow10(l1) + hd;
        let t = seq![hex_char(d)] + rest;
        assert(t[0] == hex_char(d));
        assert(is_dec_digit(t[0]));
        assert(t.subrange(1, t.len() as int) =~= rest);
        assert(parse_nat_loop(acc2, t) == parse_nat_loop(acc2 * 10 + d, rest));
        assert(dec_digits(n).len() == l1 + 1);
        assert(pow10(l1 + 1) == 10 * pow10(l1));
        assert(acc2 * 10 + d == acc * pow10(l1 + 1) + n) by (nonlinear_arith)
            requires
                acc2 == acc * pow10(l1) + hd,
                pow10(l1 + 1) == 10 * pow10(l1),
                hd == n / 10,
                d == n % 10,
                n >= 10,
        ;
    }
}

pub proof fn lemma_parse_nat_of_digits(n: nat, rest: Seq<char>)
    requires
        rest.len() == 0 || !is_dec_digit(rest[0]),
    ensures
        parse_nat(dec_digits(n) + rest) == Some((n, rest)),
{
    let s = dec_digits(n) + rest;
    lemma_dec_digits_all_digits(n);
    assert(s[0] == dec_digits(n)[0]);
    lemma_parse_nat_loop_digits(0, n, rest);
    assert(0 * pow10(dec_digits(n).len()) + n == n) by (nonlinear_arith);
    assert(parse_nat_loop(0, s) == parse_nat_loop(n, rest));
    assert(parse_nat_loop(n, rest) == (n, rest));
}

pub proof fn lemma_parse_int_of_i64(v: i64, rest: Seq<char>)
    requires
        rest.len() == 0 || !is_dec_digit(rest[0]),
    ensures
        parse_int(spec_i64_dec(v as int) + rest) == Some((v as int, rest)),
{
    let s = spec_i64_dec(v as int) + rest;
    if v >= 0 {
        assert(s =~= dec_digits(v as nat) + rest);
        lemma_parse_nat_of_digits(v as nat, rest);
        lemma_dec_digits_all_digits(v as nat);
        assert(s[0] == dec_digits(v as nat)[0]);
        assert(is_dec_digit(s[0]));
        assert(s[0] != '-');
    } else {
        let m = (-(v as int)) as nat;
        assert(spec_i64_dec(v as int) == seq!['-'] + dec_digits(m));
        assert(s[0] == '-');
        assert(s.subrange(1, s.len() as int) =~= dec_digits(m) + rest);
        lemma_parse_nat_of_digits(m, rest);
        assert(parse_int(s) == Some((-(m as int), rest)));
        assert(-(m as int) == v as int);
    }
}

/// The control character with the given code, for codes under 32.
pub open spec fn low_code_char(n: nat) -> char {
    if n == 0 {
        '\u{0}'
    } else if n == 1 {
        '\u{1}'
    } else if n == 2 {
        '\u{2}'
    } else if n == 3 {
        '\u{3}'
    } else if n == 4 {
        '\u{4}'
    } else if n == 5 {
        '\u{5}'
    } else if n == 6 {
        '\u{6}'
    } else if n == 7 {
        '\u{7}'
    } else if n == 8 {
        '\u{8}'
    } else if n == 9 {
        '\u{9}'
    } else if n == 10 {
        '\u{a}'
    } else if n == 11 {
        '\u{b}'
    } else if n == 12 {
        '\u{c}'
    } else if n == 13 {
        '\u{d}'
    } else if n == 14 {
        '\u{e}'
    } else if n == 15 {
        '\u{f}'
    } else if n == 16 {
        '\u{10}'
    } else if n == 17 {
        '\u{11}'
    } else if n == 18 {
        '\u{12}'
    } else if n == 19 {
        '\u{13}'
    } else if n == 20 {
        '\u{14}'
    } else if n == 21 {
        '\u{15}'
    } else if n == 22 {
        '\u{16}'
    } else if n == 23 {
        '\u{17}'
    } else if n == 24 {
        '\u{18}'
    } else if n == 25 {
        '\u{19}'
    } else if n == 26 {
        '\u{1a}'
    } else if n == 27 {
        '\u{1b}'
    } else if n == 28 {
        '\u{1c}'
    } else if n == 29 {
        '\u{1d}'
    } else if n == 30 {
        '\u{1e}'
    } else {
        '\u{1f}'
    }
}

pub proof fn lemma_low_code_char_inverse(c: char)
    requires
        (c as nat) < 32,
    ensures
        low_code_char(c as nat) == c,
{
}

/// Read the remainder of a JSON string literal, after its opening
/// quote: the decoded content and the text after the closing quote.
/// Only the escapes the library itself writes are recognized.
pub open spec fn parse_jstring(s: Seq<char>) -> Option<(Seq<char>, Seq<char>)>
    decreases s.len(),
{
    if s.len() == 0 {
        None
    } else if s[0] == '"' {
        Some((Seq::empty(), s.subrange(1, s.len() as int)))
    } else if s[0] == '\\' {
        if s.len() >= 2 && (s[1] == '"' || s[1] == '\\') {
            match parse_jstring(s.subrange(2, s.len() as int)) {
                Some((t, r)) => Some((seq![s[1]] + t, r)),
                None => None,
            }
        } else if s.len() >= 6 && s[1] == 'u' && s[2] == '0' && s[3] == '0' && hex_val(s[4]) * 16
            + hex_val(s[5]) < 32 {
            match parse_jstring(s.subrange(6, s.len() as int)) {
                Some((t, r)) => Some(
                    (seq![low_code_char(hex_val(s[4]) * 16 + hex_val(s[5]))] + t, r),
                ),
                None => None,
            }
        } else {
            None
        }
    } else {
        match parse_jstring(s.subrange(1, s.len() as int)) {
            Some((t, r)) => Some((seq![s[0]] + t, r)),
            None => None,
        }
    }
}

/// Escaping then reading back a string literal recovers the original
/// text exactly, whatever follows the closing quote.
pub proof fn lemma_parse_jstring_escape(d: Seq<char>, rest: Seq<char>)
    ensures
        parse_jstring(escape_text(d) + seq!['"'] + rest) == Some((d, rest)),
    decreases d.len(),
{
    let s = escape_text(d) + seq!['"'] + rest;
    if d.len() == 0 {
        assert(s[0] == '"');
        assert(s.subrange(1, s.len() as int) =~= rest);
    } else {
        let c = d[0];
        let d2 = d.subrange(1, d.len() as int);
        assert(escape_text(d) == escape_char(c) + escape_text(d2));
        lemma_parse_jstring_escape(d2, rest);
        let tail = escape_text(d2) + seq!['"'] + rest;
        if c == '"' {
            assert(s =~= seq!['\\', '"'] + tail);
            assert(s[0] == '\\' && s[1] == '"');
            assert(s.subrange(2, s.len() as int) =~= tail);
            assert(seq![s[1]] + d2 =~= d);
        } else if c == '\\' {
            assert(s =~= seq!['\\', '\\'] + tail);
            assert(s[0] == '\\' && s[1] == '\\');
            assert(s.subrange(2, s.len() as int) =~= tail);
            assert(seq![s[1]] + d2 =~= d);
        } else if (c as nat) < 32 {
            let hi = (c as nat) / 16;
            let lo = (c as nat) % 16;
            assert(s =~= seq!['\\', 'u', '0', '0', hex_char(hi), hex_char(lo)] + tail);
            assert(s[0] == '\\' && s[1] == 'u' && s[2] == '0' && s[3] == '0');
            lemma_hex_val_hex_char(hi);
            lemma_hex_val_hex_char(lo);
            assert(hex_val(s[4]) * 16 + hex_val(s[5]) == c as nat);
            assert(s.subrange(6, s.len() as int) =~= tail);
            lemma_low_code_char_inverse(c);
            assert(seq![low_code_char(c as nat)] + d2 =~= d);
        } else {
            assert(s =~= seq![c] + tail);
            assert(s[0] == c);
            assert(s[0] != '"' && s[0] != '\\');
            assert(s.subrange(1, s.len() as int) =~= tail);
            assert(seq![s[0]] + d2 =~= d);
        }
    }
}

/// The text after a known prefix, or `None` where the prefix is absent.
pub open spec fn strip_prefix(p: Seq<char>, s: Seq<char>) -> Option<Seq<char>> {
    if p.len() <= s.len() && s.subrange(0, p.len() as int) == p {
        Some(s.subrange(p.len() as int, s.len() as int))
    } else {
        None
    }
}

pub proof fn lemma_strip_prefix(p: Seq<char>, t: Seq<char>)
    ensures
        strip_prefix(p, p + t) == Some(t),
{
    assert((p + t).subrange(0, p.len() as int) =~= p);
    assert((p + t).subrange(p.len() as int, (p + t).len() as int) =~= t);
}

pub proof fn lemma_parse_jstring_suffix(s: Seq<char>)
    ensures
        parse_jstring(s) matches Some(p) ==> p.1.len() < s.len(),
    decreases s.len(),
{
    if s.len() == 0 {
    } else if s[0] == '"' {
    } else if s[0] == '\\' {
        if s.len() >= 2 && (s[1] == '"' || s[1] == '\\') {
            lemma_parse_jstring_suffix(s.subrange(2, s.len() as int));
        } else if s.len() >= 6 && s[1] == 'u' && s[2] == '0' && s[3] == '0' && hex_val(s[4]) * 16
            + hex_val(s[5]) < 32 {
            lemma_parse_jstring_suffix(s.subrange(6, s.len() as int));
        }
    } else {
        lemma_parse_jstring_suffix(s.subrange(1, s.len() as int));
    }
}

pub proof fn lemma_spec_i64_dec_first(v: i64)
    ensures
        spec_i64_dec(v as int).len() >= 1,
        spec_i64_dec(v as int)[0] == '-' || is_dec_digit(spec_i64_dec(v as int)[0]),
{
    if v >= 0 {
        lemma_dec_digits_all_digits(v as nat);
    } else {
        lemma_dec_digits_all_digits((-(v as int)) as nat);
    }
}

/// Read a non-empty comma-separated list of integers, up to and past
/// the closing bracket.
pub open spec fn parse_ids_items(s: Seq<char>) -> Option<(Seq<i64>, Seq<char>)>
    decreases s.len(),
    via parse_ids_items_dec
{
    match parse_int(s) {
        None => None,
        Some((v, r)) => {
            if v < i64::MIN as int || v > i64::MAX as int {
                None
            } else if r.len() > 0 && r[0] == ',' {
                match parse_ids_items(r.subrange(1, r.len() as int)) {
                    Some((vs, r2)) => Some((seq![v as i64] + vs, r2)),
                    None => None,
                }
            } else if r.len() > 0 && r[0] == ']' {
                Some((seq![v as i64], r.subrange(1, r.len() as int)))
            } else {
                None
            }
        },
    }
}

#[via_fn]
proof fn parse_ids_items_dec(s: Seq<char>) {
    if s.len() > 0 && s[0] == '-' {
        lemma_parse_nat_loop_suffix(0, s.subrange(1, s.len() as int));
    }
    lemma_parse_nat_loop_suffix(0, s);
}

/// Read a JSON array of integers.
pub open spec fn parse_ids_array(s: Seq<char>) -> Option<(Seq<i64>, Seq<char>)> {
    if s.len() >= 2 && s[0] == '[' && s[1] == ']' {
        Some((Seq::empty(), s.subrange(2, s.len() as int)))
    } else if s.len() >= 1 && s[0] == '[' {
        parse_ids_items(s.subrange(1, s.len() as int))
    } else {
        None
    }
}

pub proof fn lemma_parse_ids_items(ids: Seq<i64>, rest: Seq<char>)
    requires
        ids.len() >= 1,
    ensures
        parse_ids_items(spec_ids_inner(ids) + seq![']'] + rest) == Some((ids, rest)),
    decreases ids.len(),
{
    reveal_strlit(",");
    let s = spec_ids_inner(ids) + seq![']'] + rest;
    if ids.len() == 1 {
        let r0 = seq![']'] + rest;
        assert(s =~= spec_i64_dec(ids[0] as int) + r0);
        lemma_parse_int_of_i64(ids[0], r0);
        assert(r0[0] == ']');
        assert(r0.subrange(1, r0.len() as int) =~= rest);
        assert(seq![(ids[0] as int) as i64] =~= ids);
    } else {
        let ids2 = ids.subrange(1, ids.len() as int);
        assert(","@ =~= seq![',']);
        let tail_items = spec_ids_inner(ids2) + seq![']'] + rest;
        let r0 = seq![','] + tail_items;
        assert(s =~= spec_i64_dec(ids[0] as int) + r0);
        lemma_parse_int_of_i64(ids[0], r0);
        assert(r0[0] == ',');
        assert(r0.subrange(1, r0.len() as int) =~= tail_items);
        lemma_parse_ids_items(ids2, rest);
        assert(seq![(ids[0] as int) as i64] + ids2 =~= ids);
    }
}

pub proof fn lemma_parse_ids_array(ids: Seq<i64>, rest: Seq<char>)
    ensures
        parse_ids_array(spec_ids_array(ids) + rest) == Some((ids, rest)),
{
    reveal_strlit("[");
    reveal_strlit("]");
    assert("["@ =~= seq!['[']);
    assert("]"@ =~= seq![']']);
    let s = spec_ids_array(ids) + rest;
    if ids.len() == 0 {
        assert(s =~= seq!['[', ']'] + rest);
        assert(s[0] == '[' && s[1] == ']');
        assert(s.subrange(2, s.len() as int) =~= rest);
        assert(parse_ids_array(s) == Some((Seq::<i64>::empty(), rest)));
        assert(Seq::<i64>::empty() =~= ids);
    } else {
        assert(s[0] == '[');
        assert(s.subrange(1, s.len() as int) =~= spec_ids_inner(ids) + seq![']'] + rest);
        lemma_parse_ids_items(ids, rest);
        lemma_spec_i64_dec_first(ids[0]);
        if ids.len() == 1 {
            assert(s[1] == spec_i64_dec(ids[0] as int)[0]);
        } else {
            assert(s[1] == spec_i64_dec(ids[0] as int)[0]);
        }
        assert(s[1] != ']');
    }
}

/// Read a non-empty comma-separated list of `{"LocationID": id}`
/// objects, up to and past the closing bracket.
pub open spec fn parse_location_objs(s: Seq<char>) -> Option<(Seq<i64>, Seq<char>)>
    decreases s.len(),
    via parse_location_objs_dec
{
    match strip_prefix("{\"LocationID\":"@, s) {
        None => None,
        Some(s1) => match parse_int(s1) {
            None => None,
            Some((v, r)) => {
                if v < i64::MIN as int || v > i64::MAX as int {
                    None
                } else if r.len() >= 2 && r[0] == '}' && r[1] == ',' {
                    match parse_location_objs(r.subrange(2, r.len() as int)) {
                        Some((vs, r2)) => Some((seq![v as i64] + vs, r2)),
                        None => None,
                    }
                } else if r.len() >= 2 && r[0] == '}' && r[1] == ']' {
                    Some((seq![v as i64], r.subrange(2, r.len() as int)))
                } else {
                    None
                }
            },
        },
    }
}

#[via_fn]
proof fn parse_location_objs_dec(s: Seq<char>) {
    reveal_strlit("{\"LocationID\":");
    let p = "{\"LocationID\":"@;
    if p.len() <= s.len() && s.subrange(0, p.len() as int) == p {
        let s1 = s.subrange(p.len() as int, s.len() as int);
        if s1.len() > 0 && s1[0] == '-' {
            lemma_parse_nat_loop_suffix(0, s1.subrange(1, s1.len() as int));
        }
        lemma_parse_nat_loop_suffix(0, s1);
    }
}

/// Read the backend's `Locations` array.
pub open spec fn parse_locations_array(s: Seq<char>) -> Option<(Seq<i64>, Seq<char>)> {
    if s.len() >= 2 && s[0] == '[' && s[1] == ']' {
        Some((Seq::empty(), s.subrange(2, s.len() as int)))
    } else if s.len() >= 1 && s[0] == '[' {
        parse_location_objs(s.subrange(1, s.len() as int))
    } else {
        None
    }
}

pub proof fn lemma_parse_location_objs(ids: Seq<i64>, rest: Seq<char>)
    requires
        ids.len() >= 1,
    ensures
        parse_location_objs(spec_locations_inner(ids) + seq![']'] + rest) == Some((ids, rest)),
    decreases ids.len(),
{
    reveal_strlit("{\"LocationID\":");
    reveal_strlit("}");
    reveal_strlit(",");
    let p = "{\"LocationID\":"@;
    let s = spec_locations_inner(ids) + seq![']'] + rest;
    if ids.len() == 1 {
        let r0 = seq!['}', ']'] + rest;
        assert(spec_location_obj(ids[0]) == p + spec_i64_dec(ids[0] as int) + "}"@);
        assert("}"@ =~= seq!['}']);
        assert(s =~= p + (spec_i64_dec(ids[0] as int) + r0));
        lemma_strip_prefix(p, spec_i64_dec(ids[0] as int) + r0);
        lemma_parse_int_of_i64(ids[0], r0);
        assert(r0[0] == '}' && r0[1] == ']');
        assert(r0.subrange(2, r0.len() as int) =~= rest);
        assert(seq![(ids[0] as int) as i64] =~= ids);
    } else {
        let ids2 = ids.subrange(1, ids.len() as int);
        assert(","@ =~= seq![',']);
        assert("}"@ =~= seq!['}']);
        let tail_items = spec_locations_inner(ids2) + seq![']'] + rest;
        let r0 = seq!['}', ','] + tail_items;
        assert(spec_locations_inner(ids) == spec_location_obj(ids[0]) + ","@
            + spec_locations_inner(ids2));
        assert(s =~= p + (spec_i64_dec(ids[0] as int) + r0));
        lemma_strip_prefix(p, spec_i64_dec(ids[0] as int) + r0);
        lemma_parse_int_of_i64(ids[0], r0);
        assert(r0[0] == '}' && r0[1] == ',');
        assert(r0.subrange(2, r0.len() as int) =~= tail_items);
        lemma_parse_location_objs(ids2, rest);
        assert(seq![(ids[0] as int) as i64] + ids2 =~= ids);
    }
}

/// A `Locations` array built from a sequence of identifiers reads back
/// as exactly that sequence: one object per identifier, holding it
/// under `LocationID`, in input order.
pub proof fn lemma_locations_array_round_trip(ids: Seq<i64>, rest: Seq<char>)
    ensures
        parse_locations_array(spec_locations_array(ids) + rest) == Some((ids, rest)),
{
    reveal_strlit("[");
    reveal_strlit("]");
    reveal_strlit("{\"LocationID\":");
    assert("["@ =~= seq!['[']);
    assert("]"@ =~= seq![']']);
    let s = spec_locations_array(ids) + rest;
    if ids.len() == 0 {
        assert(s =~= seq!['[', ']'] + rest);
        assert(s[0] == '[' && s[1] == ']');
        assert(s.subrange(2, s.len() as int) =~= rest);
        assert(Seq::<i64>::empty() =~= ids);
    } else {
        assert(s[0] == '[');
        assert(s.subrange(1, s.len() as int) =~= spec_locations_inner(ids) + seq![']'] + rest);
        lemma_parse_location_objs(ids, rest);
        let p = "{\"LocationID\":"@;
        if ids.len() == 1 {
            assert(s[1] == p[0]);
        } else {
            assert(s[1] == p[0]);
        }
        assert(s[1] == '{');
        assert(s[1] != ']');
    }
}

/// Read a non-empty list of `AdhocFields` entries.  Every entry must
/// carry the fixed learning-period field name; the result holds the
/// entries' values, in order.
pub open spec fn parse_adhoc_entries(s: Seq<char>) -> Option<(Seq<Seq<char>>, Seq<char>)>
    decreases s.len(),
    via parse_adhoc_entries_dec
{
    match strip_prefix("{\"FieldName\":\"adhoc_LearningPeriod\",\"Value\":\""@, s) {
        None => None,
        Some(s1) => match parse_jstring(s1) {
            None => None,
            Some((value, r)) => {
                if r.len() >= 2 && r[0] == '}' && r[1] == ',' {
                    match parse_adhoc_entries(r.subrange(2, r.len() as int)) {
                        Some((vs, r2)) => Some((seq![value] + vs, r2)),
                        None => None,
                    }
                } else if r.len() >= 2 && r[0] == '}' && r[1] == ']' {
                    Some((seq![value], r.subrange(2, r.len() as int)))
                } else {
                    None
                }
            },
        },
    }
}

#[via_fn]
proof fn parse_adhoc_entries_dec(s: Seq<char>) {
    reveal_strlit("{\"FieldName\":\"adhoc_LearningPeriod\",\"Value\":\"");
    let p = "{\"FieldName\":\"adhoc_LearningPeriod\",\"Value\":\""@;
    if p.len() <= s.len() && s.subrange(0, p.len() as int) == p {
        lemma_parse_jstring_suffix(s.subrange(p.len() as int, s.len() as int));
    }
}

/// Read the `AdhocFields` array.
pub open spec fn parse_adhoc_fields(s: Seq<char>) -> Option<(Seq<Seq<char>>, Seq<char>)> {
    if s.len() >= 2 && s[0] == '[' && s[1] == ']' {
        Some((Seq::empty(), s.subrange(2, s.len() as int)))
    } else if s.len() >= 1 && s[0] == '[' {
        parse_adhoc_entries(s.subrange(1, s.len() as int))
    } else {
        None
    }
}

/// The `AdhocFields` array always reads back as exactly one entry: its
/// field name is the fixed learning-period name, which the reading
/// checks, and its value is the supplied learning-period text, whatever
/// that text holds.
pub proof fn lemma_adhoc_fields_round_trip(learning_period: Seq<char>, rest: Seq<char>)
    ensures
        parse_adhoc_fields(spec_adhoc_fields(learning_period) + rest) == Some(
            (seq![learning_period], rest),
        ),
{
    reveal_strlit("[{\"FieldName\":\"adhoc_LearningPeriod\",\"Value\":\"");
    reveal_strlit("{\"FieldName\":\"adhoc_LearningPeriod\",\"Value\":\"");
    reveal_strlit("\"}]");
    let big = "[{\"FieldName\":\"adhoc_LearningPeriod\",\"Value\":\""@;
    let p = "{\"FieldName\":\"adhoc_LearningPeriod\",\"Value\":\""@;
    let s = spec_adhoc_fields(learning_period) + rest;
    assert(big =~= seq!['['] + p);
    let tail = escape_text(learning_period) + seq!['"'] + (seq!['}', ']'] + rest);
    assert(s =~= seq!['['] + (p + tail));
    assert(s[0] == '[');
    assert(s.subrange(1, s.len() as int) =~= p + tail);
    lemma_strip_prefix(p, tail);
    lemma_parse_jstring_escape(learning_period, seq!['}', ']'] + rest);
    let r = seq!['}', ']'] + rest;
    assert(r[0] == '}' && r[1] == ']');
    assert(r.subrange(2, r.len() as int) =~= rest);
    assert(s[1] == p[0]);
    assert(s[1] == '{');
}

/// Read back a whole caller-facing location-group request document.
pub open spec fn parse_location_group_request_text(s: Seq<char>) -> Option<(Seq<char>, Seq<i64>)> {
    match strip_prefix("{\"description\":\""@, s) {
        None => None,
        Some(s1) => match parse_jstring(s1) {
            None => None,
            Some((d, s2)) => match strip_prefix(",\"location_ids\":"@, s2) {
                None => None,
                Some(s3) => match parse_ids_array(s3) {
                    None => None,
                    Some((ids, s4)) => if s4 == "}"@ {
                        Some((d, ids))
                    } else {
                        None
                    },
                },
            },
        },
    }
}

/// Serializing a location-group request and reading the text back
/// yields the description and the location identifiers unchanged, in
/// order and in full: the caller-facing form is lossless.
pub proof fn lemma_location_group_request_round_trip(description: Seq<char>, ids: Seq<i64>)
    ensures
        parse_location_group_request_text(
            spec_location_group_request_json(description, ids),
        ) == Some((description, ids)),
{
    reveal_strlit("{\"description\":\"");
    reveal_strlit("\",\"location_ids\":");
    reveal_strlit(",\"location_ids\":");
    let p1 = "{\"description\":\""@;
    let mid = "\",\"location_ids\":"@;
    let p2 = ",\"location_ids\":"@;
    let s = spec_location_group_request_json(description, ids);
    assert(mid =~= seq!['"'] + p2);
    let after_str = p2 + (spec_ids_array(ids) + "}"@);
    let tail1 = escape_text(description) + seq!['"'] + after_str;
    assert(s =~= p1 + tail1);
    lemma_strip_prefix(p1, tail1);
    lemma_parse_jstring_escape(description, after_str);
    lemma_strip_prefix(p2, spec_ids_array(ids) + "}"@);
    lemma_parse_ids_array(ids, "}"@);
}

/// Read back a whole caller-facing schedule-group request document.
pub open spec fn parse_schedule_group_request_text(s: Seq<char>) -> Option<
    (Seq<char>, i64, Seq<char>, Seq<char>, Seq<char>),
> {
    match strip_prefix("{\"description\":\""@, s) {
        None => None,
        Some(s1) => match parse_jstring(s1) {
            None => None,
            Some((d, s2)) => match strip_prefix(",\"location_group_id\":"@, s2) {
                None => None,
                Some(s3) => match parse_int(s3) {
                    None => None,
                    Some((v, s4)) => {
                        if v < i64::MIN as int || v > i64::MAX as int {
                            None
                        } else {
                            match strip_prefix(",\"start_date\":\""@, s4) {
                                None => None,
                                Some(s5) => match parse_jstring(s5) {
                                    None => None,
                                    Some((sd, s6)) => match strip_prefix(",\"end_date\":\""@, s6) {
                                        None => None,
                                        Some(s7) => match parse_jstring(s7) {
                                            None => None,
                                            Some((ed, s8)) => match strip_prefix(
                                                ",\"learning_period\":\""@,
                                                s8,
                                            ) {
                                                None => None,
                                                Some(s9) => match parse_jstring(s9) {
                                                    None => None,
                                                    Some((lp, s10)) => if s10 == "}"@ {
                                                        Some((d, v as i64, sd, ed, lp))
                                                    } else {
                                                        None
                                                    },
                                                },
                                            },
                                        },
                                    },
                                },
                            }
                        }
                    },
                },
            },
        },
    }
}

/// Serializing a schedule-group request and reading the text back
/// yields every field unchanged: the caller-facing form is lossless.
pub proof fn lemma_schedule_group_request_round_trip(
    description: Seq<char>,
    location_group_id: i64,
    start_date: Seq<char>,
    end_date: Seq<char>,
    learning_period: Seq<char>,
)
    ensures
        parse_schedule_group_request_text(
            spec_schedule_group_request_json(
                description,
                location_group_id,
                start_date,
                end_date,
                learning_period,
            ),
        ) == Some((description, location_group_id, start_date, end_date, learning_period)),
{
    reveal_strlit("{\"description\":\"");
    reveal_strlit("\",\"location_group_id\":");
    reveal_strlit(",\"location_group_id\":");
    reveal_strlit(",\"start_date\":\"");
    reveal_strlit("\",\"end_date\":\"");
    reveal_strlit(",\"end_date\":\"");
    reveal_strlit("\",\"learning_period\":\"");
    reveal_strlit(",\"learning_period\":\"");
    reveal_strlit("\"}");
    reveal_strlit("}");
    let p1 = "{\"description\":\""@;
    let p2 = ",\"location_group_id\":"@;
    let p3 = ",\"start_date\":\""@;
    let p4 = ",\"end_date\":\""@;
    let p5 = ",\"learning_period\":\""@;
    let s = spec_schedule_group_request_json(
        description,
        location_group_id,
        start_date,
        end_date,
        learning_period,
    );
    assert("\",\"location_group_id\":"@ =~= seq!['"'] + p2);
    assert("\",\"end_date\":\""@ =~= seq!['"'] + p4);
    assert("\",\"learning_period\":\""@ =~= seq!['"'] + p5);
    assert("\"}"@ =~= seq!['"'] + "}"@);
    let after_lp = "}"@;
    let t9 = escape_text(learning_period) + seq!['"'] + after_lp;
    let t8 = p5 + t9;
    let t7 = escape_text(end_date) + seq!['"'] + t8;
    let t6 = p4 + t7;
    let t5 = escape_text(start_date) + seq!['"'] + t6;
    let t4 = p3 + t5;
    let t3 = spec_i64_dec(location_group_id as int) + t4;
    let t2 = p2 + t3;
    let t1 = escape_text(description) + seq!['"'] + t2;
    assert(s =~= p1 + t1);
    lemma_strip_prefix(p1, t1);
    lemma_parse_jstring_escape(description, t2);
    lemma_strip_prefix(p2, t3);
    lemma_parse_int_of_i64(location_group_id, t4);
    lemma_strip_prefix(p3, t5);
    lemma_parse_jstring_escape(start_date, t6);
    lemma_strip_prefix(p4, t7);
    lemma_parse_jstring_escape(end_date, t8);
    lemma_strip_prefix(p5, t9);
    lemma_parse_jstring_escape(learning_period, after_lp);
}

} // verus!

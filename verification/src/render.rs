//! Rendering of JSON values to their canonical compact text: no spaces,
//! object fields in order, strings escaped the way the wire format
//! expects.

use vstd::prelude::*;

use crate::json::deep_arr_from;
use crate::json::deep_obj_from;
use crate::json::lemma_deep_arr_from;
use crate::json::lemma_deep_obj_from;
use crate::json::JsonValue;
use crate::json::Jx;
use crate::strutil::push_char;

verus! {

/// The decimal digit character for `n` in `0..10`.
pub open spec fn digit_char(n: int) -> char {
    if n == 0 {
        '0'
    } else if n == 1 {
        '1'
    } else if n == 2 {
        '2'
    } else if n == 3 {
        '3'
    } else if n == 4 {
        '4'
    } else if n == 5 {
        '5'
    } else if n == 6 {
        '6'
    } else if n == 7 {
        '7'
    } else if n == 8 {
        '8'
    } else {
        '9'
    }
}

/// The lowercase hexadecimal digit character for `n` in `0..16`.
pub open spec fn hex_char(n: int) -> char {
    if n < 10 {
        digit_char(n)
    } else if n == 10 {
        'a'
    } else if n == 11 {
        'b'
    } else if n == 12 {
        'c'
    } else if n == 13 {
        'd'
    } else if n == 14 {
        'e'
    } else {
        'f'
    }
}

/// The decimal digits of a nonnegative integer, most significant first.
pub open spec fn nat_digits(n: int) -> Seq<char>
    decreases n,
{
    if n < 10 {
        seq![digit_char(n)]
    } else {
        nat_digits(n / 10).push(digit_char(n % 10))
    }
}

/// The decimal literal of an integer.
pub open spec fn int_lit(i: int) -> Seq<char> {
    if i < 0 {
        seq!['-'] + nat_digits(-i)
    } else {
        nat_digits(i)
    }
}

/// How one character is written inside a JSON string literal.
pub open spec fn escape_char(c: char) -> Seq<char> {
    if c == '"' {
        seq!['\\', '"']
    } else if c == '\\' {
        seq!['\\', '\\']
    } else if c == '\u{8}' {
        seq!['\\', 'b']
    } else if c == '\u{c}' {
        seq!['\\', 'f']
    } else if c == '\n' {
        seq!['\\', 'n']
    } else if c == '\r' {
        seq!['\\', 'r']
    } else if c == '\t' {
        seq!['\\', 't']
    } else if (c as u32) < 0x20 {
        seq!['\\', 'u', '0', '0', hex_char(c as u32 as int / 16), hex_char(c as u32 as int % 16)]
    } else {
        seq![c]
    }
}

/// How a whole character sequence is written inside a string literal.
pub open spec fn escape_seq(s: Seq<char>) -> Seq<char>
    decreases s.len(),
{
    if s.len() == 0 {
        Seq::empty()
    } else {
        escape_char(s[0]) + escape_seq(s.drop_first())
    }
}

/// A string literal: quotes around the escaped characters.
pub open spec fn string_lit(s: Seq<char>) -> Seq<char> {
    seq!['"'] + escape_seq(s) + seq!['"']
}

/// The canonical compact text of a JSON value.
pub open spec fn json_text(j: Jx) -> Seq<char>
    decreases j,
{
    match j {
        Jx::Null => seq!['n', 'u', 'l', 'l'],
        Jx::Bool(b) => if b {
            seq!['t', 'r', 'u', 'e']
        } else {
            seq!['f', 'a', 'l', 's', 'e']
        },
        Jx::Int(i) => int_lit(i),
        Jx::Num(t) => t,
        Jx::Str(s) => string_lit(s),
        Jx::Arr(items) => seq!['['] + arr_items_text(items, 0) + seq![']'],
        Jx::Obj(fields) => seq!['{'] + obj_fields_text(fields, 0) + seq!['}'],
    }
}

/// The comma-separated texts of the elements of `items` from `k` on.
pub open spec fn arr_items_text(items: Seq<Jx>, k: int) -> Seq<char>
    decreases items, items.len() - k,
{
    if k < 0 || k >= items.len() {
        Seq::empty()
    } else if k == items.len() - 1 {
        json_text(items[k])
    } else {
        json_text(items[k]) + seq![','] + arr_items_text(items, k + 1)
    }
}

/// The comma-separated texts of the fields of `fields` from `k` on.
pub open spec fn obj_fields_text(fields: Seq<(Seq<char>, Jx)>, k: int) -> Seq<char>
    decreases fields, fields.len() - k,
{
    if k < 0 || k >= fields.len() {
        Seq::empty()
    } else if k == fields.len() - 1 {
        string_lit(fields[k].0) + seq![':'] + json_text(fields[k].1)
    } else {
        string_lit(fields[k].0) + seq![':'] + json_text(fields[k].1) + seq![','] + obj_fields_text(
            fields,
            k + 1,
        )
    }
}

/// The decimal digit character for `n`, as executable code.
fn digit_char_of(n: u64) -> (c: char)
    requires
        n < 10,
    ensures
        c == digit_char(n as int),
{
    match n {
        0 => '0',
        1 => '1',
        2 => '2',
        3 => '3',
        4 => '4',
        5 => '5',
        6 => '6',
        7 => '7',
        8 => '8',
        _ => '9',
    }
}

/// The hexadecimal digit character for `n`, as executable code.
fn hex_char_of(n: u32) -> (c: char)
    requires
        n < 16,
    ensures
        c == hex_char(n as int),
{
    match n {
        0 => '0',
        1 => '1',
        2 => '2',
        3 => '3',
        4 => '4',
        5 => '5',
        6 => '6',
        7 => '7',
        8 => '8',
        9 => '9',
        10 => 'a',
        11 => 'b',
        12 => 'c',
        13 => 'd',
        14 => 'e',
        _ => 'f',
    }
}

/// Appends the decimal digits of `n` to `out`.
fn write_digits(n: u64, out: &mut String)
    ensures
        final(out)@ == old(out)@ + nat_digits(n as int),
    decreases n,
{
    if n < 10 {
        push_char(out, digit_char_of(n));
    } else {
        write_digits(n / 10, out);
        push_char(out, digit_char_of(n % 10));
    }
}

/// Appends the decimal literal of `i` to `out`.
fn write_int(i: i64, out: &mut String)
    ensures
        final(out)@ == old(out)@ + int_lit(i as int),
{
    if i >= 0 {
        write_digits(i as u64, out);
    } else {
        push_char(out, '-');
        let m: u64 = if i == i64::MIN {
            9223372036854775808u64
        } else {
            (-i) as u64
        };
        write_digits(m, out);
        proof {
            assert(old(out)@ + int_lit(i as int) =~= out@);
        }
    }
}

/// `escape_seq` of one more character at the end.
proof fn lemma_escape_push(s: Seq<char>, c: char)
    ensures
        escape_seq(s.push(c)) =~= escape_seq(s) + escape_char(c),
    decreases s.len(),
{
    if s.len() == 0 {
        assert(s.push(c)[0] == c);
        assert(s.push(c).drop_first() =~= Seq::<char>::empty());
    } else {
        assert(s.push(c)[0] == s[0]);
        assert(s.push(c).drop_first() =~= s.drop_first().push(c));
        lemma_escape_push(s.drop_first(), c);
        assert(escape_seq(s.push(c)) == escape_char(s[0]) + escape_seq(s.push(c).drop_first()));
        assert(escape_seq(s.push(c).drop_first()) == escape_seq(s.drop_first().push(c)));
        assert(escape_seq(s) == escape_char(s[0]) + escape_seq(s.drop_first()));
    }
}

/// Appends the escaped characters of `s` to `out`.
fn write_escaped(s: &str, out: &mut String)
    ensures
        final(out)@ == old(out)@ + escape_seq(s@),
{
    let ghost out0 = out@;
    let n = vstd::string::StrSliceExecFns::unicode_len(s);
    let mut i: usize = 0;
    proof {
        assert(s@.subrange(0, 0) =~= Seq::<char>::empty());
    }
    while i < n
        invariant
            0 <= i <= n,
            n == s@.len(),
            out@ == out0 + escape_seq(s@.subrange(0, i as int)),
        decreases n - i,
    {
        let c = vstd::string::StrSliceExecFns::get_char(s, i);
        if c == '"' {
            push_char(out, '\\');
            push_char(out, '"');
        } else if c == '\\' {
            push_char(out, '\\');
            push_char(out, '\\');
        } else if c == '\u{8}' {
            push_char(out, '\\');
            push_char(out, 'b');
        } else if c == '\u{c}' {
            push_char(out, '\\');
            push_char(out, 'f');
        } else if c == '\n' {
            push_char(out, '\\');
            push_char(out, 'n');
        } else if c == '\r' {
            push_char(out, '\\');
            push_char(out, 'r');
        } else if c == '\t' {
            push_char(out, '\\');
            push_char(out, 't');
        } else if (c as u32) < 0x20 {
            push_char(out, '\\');
            push_char(out, 'u');
            push_char(out, '0');
            push_char(out, '0');
            push_char(out, hex_char_of((c as u32) / 16));
            push_char(out, hex_char_of((c as u32) % 16));
        } else {
            push_char(out, c);
        }
        proof {
            assert(s@.subrange(0, i + 1) =~= s@.subrange(0, i as int).push(s@[i as int]));
            lemma_escape_push(s@.subrange(0, i as int), s@[i as int]);
            assert(out@ =~= out0 + escape_seq(s@.subrange(0, i + 1)));
        }
        i = i + 1;
    }
    proof {
        assert(s@.subrange(0, n as int) =~= s@);
    }
}

/// Appends a string literal for `s` to `out`.
fn write_string_lit(s: &str, out: &mut String)
    ensures
        final(out)@ == old(out)@ + string_lit(s@),
{
    push_char(out, '"');
    write_escaped(s, out);
    push_char(out, '"');
    proof {
        assert(final(out)@ =~= old(out)@ + string_lit(s@));
    }
}

/// Appends the canonical text of `v` to `out`.
pub fn write_json(v: &JsonValue, out: &mut String)
    ensures
        final(out)@ == old(out)@ + json_text(v.deep()),
    decreases *v, 0int, 0int,
{
    match v {
        JsonValue::Null => {
            push_char(out, 'n');
            push_char(out, 'u');
            push_char(out, 'l');
            push_char(out, 'l');
            proof {
                assert(final(out)@ =~= old(out)@ + json_text(v.deep()));
            }
        },
        JsonValue::Bool(b) => {
            if *b {
                push_char(out, 't');
                push_char(out, 'r');
                push_char(out, 'u');
                push_char(out, 'e');
            } else {
                push_char(out, 'f');
                push_char(out, 'a');
                push_char(out, 'l');
                push_char(out, 's');
                push_char(out, 'e');
            }
            proof {
                assert(final(out)@ =~= old(out)@ + json_text(v.deep()));
            }
        },
        JsonValue::Int(i) => {
            write_int(*i, out);
        },
        JsonValue::Num(t) => {
            vstd::string::StringExecFns::append(out, t.as_str());
        },
        JsonValue::Str(s) => {
            write_string_lit(s.as_str(), out);
        },
        JsonValue::Arr(items) => {
            push_char(out, '[');
            write_arr_from(items, 0, out);
            push_char(out, ']');
            proof {
                assert(final(out)@ =~= old(out)@ + json_text(v.deep()));
            }
        },
        JsonValue::Obj(fields) => {
            push_char(out, '{');
            write_obj_from(fields, 0, out);
            push_char(out, '}');
            proof {
                assert(final(out)@ =~= old(out)@ + json_text(v.deep()));
            }
        },
    }
}

/// Appends the comma-separated texts of the elements of `items` from
/// `k` on to `out`.
fn write_arr_from(items: &Vec<JsonValue>, k: usize, out: &mut String)
    requires
        k <= items@.len(),
    ensures
        final(out)@ == old(out)@ + arr_items_text(deep_arr_from(*items, 0), k as int),
    decreases *items, items@.len() - k, 1int,
{
    proof {
        lemma_deep_arr_from(*items, 0);
    }
    if k < items.len() {
        write_json(&items[k], out);
        if k + 1 < items.len() {
            push_char(out, ',');
            write_arr_from(items, k + 1, out);
        }
        proof {
            assert(final(out)@ =~= old(out)@ + arr_items_text(deep_arr_from(*items, 0), k as int));
        }
    }
}

/// Appends the comma-separated texts of the fields of `fields` from
/// `k` on to `out`.
fn write_obj_from(fields: &Vec<(String, JsonValue)>, k: usize, out: &mut String)
    requires
        k <= fields@.len(),
    ensures
        final(out)@ == old(out)@ + obj_fields_text(deep_obj_from(*fields, 0), k as int),
    decreases *fields, fields@.len() - k, 1int,
{
    proof {
        lemma_deep_obj_from(*fields, 0);
    }
    if k < fields.len() {
        write_string_lit(fields[k].0.as_str(), out);
        push_char(out, ':');
        write_json(&fields[k].1, out);
        if k + 1 < fields.len() {
            push_char(out, ',');
            write_obj_from(fields, k + 1, out);
        }
        proof {
            assert(final(out)@ =~= old(out)@ + obj_fields_text(
                deep_obj_from(*fields, 0),
                k as int,
            ));
        }
    }
}

/// The canonical compact text of `v` as a string.
pub fn to_json_string(v: &JsonValue) -> (r: String)
    ensures
        r@ == json_text(v.deep()),
{
    let mut out = String::new();
    write_json(v, &mut out);
    proof {
        assert(out@ =~= json_text(v.deep()));
    }
    out
}

} // verus!

//! Parsing of JSON text into values.
//!
//! The grammar is standard JSON with two documented restrictions: string
//! escapes of the form `\uXXXX` are only accepted for code points below
//! `0x80`, and integers longer than eighteen digits are kept as numeric
//! literals rather than converted.  A handful of branches below return
//! `None` on index arithmetic that a parse can never produce; they keep
//! the recursion visibly bounded.

use vstd::prelude::*;

use crate::json::check_json_number;
use crate::json::deep_arr_from;
use crate::json::deep_obj_from;
use crate::json::digits_end;
use crate::json::is_digit;
use crate::json::is_json_number;
use crate::json::lemma_deep_arr_from;
use crate::json::lemma_deep_obj_from;
use crate::json::lemma_digits_end;
use crate::json::scan_digits;
use crate::json::JsonValue;
use crate::json::Jx;
use crate::strutil::chars_to_string;
use crate::strutil::str_to_chars;

verus! {

/// Whether `c` is JSON whitespace.
pub open spec fn is_ws(c: char) -> bool {
    c == ' ' || c == '\t' || c == '\n' || c == '\r'
}

/// First index at or after `i` that does not hold whitespace.
pub open spec fn ws_end(s: Seq<char>, i: int) -> int
    decreases s.len() - i,
{
    if i < 0 || i >= s.len() {
        i
    } else if is_ws(s[i]) {
        ws_end(s, i + 1)
    } else {
        i
    }
}

/// `ws_end` stays within bounds, covers whitespace only, and stops at a
/// non-whitespace character.
pub proof fn lemma_ws_end(s: Seq<char>, i: int)
    requires
        0 <= i <= s.len(),
    ensures
        i <= ws_end(s, i) <= s.len(),
        forall|k: int| i <= k < ws_end(s, i) ==> is_ws(#[trigger] s[k]),
        ws_end(s, i) == s.len() || !is_ws(s[ws_end(s, i)]),
    decreases s.len() - i,
{
    if i < s.len() && is_ws(s[i]) {
        lemma_ws_end(s, i + 1);
    }
}

/// Where a numeric literal starting at `i` ends, by maximal munch.
pub open spec fn num_end_at(s: Seq<char>, i: int) -> int {
    let sign = if i < s.len() && s[i] == '-' {
        i + 1
    } else {
        i
    };
    let i1 = digits_end(s, sign);
    let i2 = if i1 < s.len() && s[i1] == '.' {
        digits_end(s, i1 + 1)
    } else {
        i1
    };
    if i2 < s.len() && (s[i2] == 'e' || s[i2] == 'E') {
        let j = if i2 + 1 < s.len() && (s[i2 + 1] == '+' || s[i2 + 1] == '-') {
            i2 + 2
        } else {
            i2 + 1
        };
        digits_end(s, j)
    } else {
        i2
    }
}

/// Whether `t` is an optional minus sign followed only by digits.
pub open spec fn is_int_lexeme(t: Seq<char>) -> bool {
    let sign: int = if t.len() > 0 && t[0] == '-' {
        1int
    } else {
        0int
    };
    t.len() > sign && digits_end(t, sign) == t.len()
}

/// The numeric value of `c` as a decimal digit.
pub open spec fn digit_val(c: char) -> int {
    c as u32 - '0' as u32
}

/// The value of the digits of `t` in `[i, j)`.
pub open spec fn digits_val(t: Seq<char>, i: int, j: int) -> int
    decreases j - i,
{
    if i >= j {
        0
    } else {
        digits_val(t, i, j - 1) * 10 + digit_val(t[j - 1])
    }
}

/// The value of an integer lexeme.
pub open spec fn int_lexeme_val(t: Seq<char>) -> int {
    if t.len() > 0 && t[0] == '-' {
        -digits_val(t, 1, t.len() as int)
    } else {
        digits_val(t, 0, t.len() as int)
    }
}

/// Ten to the power `n`.
pub open spec fn pow10(n: int) -> int
    decreases n,
{
    if n <= 0 {
        1
    } else {
        10 * pow10(n - 1)
    }
}

/// Digit runs are bounded by a power of ten.
pub proof fn lemma_digits_val_bound(t: Seq<char>, i: int, j: int)
    requires
        forall|k: int| i <= k < j ==> is_digit(#[trigger] t[k]),
    ensures
        0 <= digits_val(t, i, j) < pow10(j - i),
    decreases j - i,
{
    if i < j {
        lemma_digits_val_bound(t, i, j - 1);
        assert(digit_val(t[j - 1]) <= 9);
    }
}

/// The longest integer lexeme that is converted to a 64-bit integer
/// rather than kept as literal text.
pub open spec fn max_int_digits() -> int {
    18
}

/// Whether a valid numeric lexeme is parsed as an `Int`.
pub open spec fn lexeme_is_small_int(t: Seq<char>) -> bool {
    let sign: int = if t.len() > 0 && t[0] == '-' {
        1int
    } else {
        0int
    };
    is_int_lexeme(t) && t.len() - sign <= max_int_digits()
}

/// The numeric value of `c` as a hexadecimal digit, or `-1`.
pub open spec fn hex_val(c: char) -> int {
    if '0' <= c && c <= '9' {
        c as u32 - '0' as u32
    } else if 'a' <= c && c <= 'f' {
        c as u32 - 'a' as u32 + 10
    } else if 'A' <= c && c <= 'F' {
        c as u32 - 'A' as u32 + 10
    } else {
        -1
    }
}

/// Parses a string body at `i` (just past the opening quote): the
/// characters, and the index just past the closing quote.
pub open spec fn sp_string(s: Seq<char>, i: int) -> Option<(Seq<char>, int)>
    decreases s.len() - i, 0int,
{
    if i < 0 || i >= s.len() {
        None
    } else if s[i] == '"' {
        Some((Seq::empty(), i + 1))
    } else if s[i] == '\\' {
        if i + 1 >= s.len() {
            None
        } else {
            let e = s[i + 1];
            if e == 'u' {
                if i + 6 > s.len() {
                    None
                } else {
                    let h = hex_val(s[i + 2]) * 4096 + hex_val(s[i + 3]) * 256 + hex_val(
                        s[i + 4],
                    ) * 16 + hex_val(s[i + 5]);
                    if hex_val(s[i + 2]) < 0 || hex_val(s[i + 3]) < 0 || hex_val(s[i + 4]) < 0
                        || hex_val(s[i + 5]) < 0 || h >= 0x80 {
                        None
                    } else {
                        match sp_string(s, i + 6) {
                            Some((rest, j)) => Some((seq![(h as u8) as char] + rest, j)),
                            None => None,
                        }
                    }
                }
            } else {
                let d: char = if e == '"' {
                    '"'
                } else if e == '\\' {
                    '\\'
                } else if e == '/' {
                    '/'
                } else if e == 'b' {
                    '\u{8}'
                } else if e == 'f' {
                    '\u{c}'
                } else if e == 'n' {
                    '\n'
                } else if e == 'r' {
                    '\r'
                } else {
                    '\t'
                };
                if e == '"' || e == '\\' || e == '/' || e == 'b' || e == 'f' || e == 'n' || e == 'r'
                    || e == 't' {
                    match sp_string(s, i + 2) {
                        Some((rest, j)) => Some((seq![d] + rest, j)),
                        None => None,
                    }
                } else {
                    None
                }
            }
        }
    } else if (s[i] as u32) < 0x20 {
        None
    } else {
        match sp_string(s, i + 1) {
            Some((rest, j)) => Some((seq![s[i]] + rest, j)),
            None => None,
        }
    }
}

/// Parses one value at `i`, skipping leading whitespace: the value and
/// the index just past it.
pub open spec fn sp_value(s: Seq<char>, i: int) -> Option<(Jx, int)>
    decreases s.len() - i, 1int,
{
    if i < 0 || i >= s.len() {
        None
    } else if is_ws(s[i]) {
        sp_value(s, i + 1)
    } else if s[i] == 'n' {
        if i + 4 <= s.len() && s[i + 1] == 'u' && s[i + 2] == 'l' && s[i + 3] == 'l' {
            Some((Jx::Null, i + 4))
        } else {
            None
        }
    } else if s[i] == 't' {
        if i + 4 <= s.len() && s[i + 1] == 'r' && s[i + 2] == 'u' && s[i + 3] == 'e' {
            Some((Jx::Bool(true), i + 4))
        } else {
            None
        }
    } else if s[i] == 'f' {
        if i + 5 <= s.len() && s[i + 1] == 'a' && s[i + 2] == 'l' && s[i + 3] == 's' && s[i + 4]
            == 'e' {
            Some((Jx::Bool(false), i + 5))
        } else {
            None
        }
    } else if s[i] == '"' {
        match sp_string(s, i + 1) {
            Some((cs, j)) => Some((Jx::Str(cs), j)),
            None => None,
        }
    } else if s[i] == '-' || is_digit(s[i]) {
        let e = num_end_at(s, i);
        if i < e <= s.len() {
            let t = s.subrange(i, e);
            if is_json_number(t) {
                if lexeme_is_small_int(t) {
                    Some((Jx::Int(int_lexeme_val(t)), e))
                } else {
                    Some((Jx::Num(t), e))
                }
            } else {
                None
            }
        } else {
            None
        }
    } else if s[i] == '[' {
        let j = ws_end(s, i + 1);
        if j < s.len() && s[j] == ']' {
            Some((Jx::Arr(Seq::empty()), j + 1))
        } else if j <= i || j > s.len() {
            None
        } else {
            match sp_elems(s, j) {
                Some((items, k)) => Some((Jx::Arr(items), k)),
                None => None,
            }
        }
    } else if s[i] == '{' {
        let j = ws_end(s, i + 1);
        if j < s.len() && s[j] == '}' {
            Some((Jx::Obj(Seq::empty()), j + 1))
        } else if j <= i || j > s.len() {
            None
        } else {
            match sp_fields(s, j) {
                Some((fields, k)) => Some((Jx::Obj(fields), k)),
                None => None,
            }
        }
    } else {
        None
    }
}

/// Parses the elements of a non-empty array from `i` up to and past the
/// closing bracket.
pub open spec fn sp_elems(s: Seq<char>, i: int) -> Option<(Seq<Jx>, int)>
    decreases s.len() - i, 2int,
{
    if i < 0 || i >= s.len() {
        None
    } else {
        match sp_value(s, i) {
            None => None,
            Some((v, j)) => if j <= i || j > s.len() {
                None
            } else {
                let j2 = ws_end(s, j);
                if j2 < j {
                    None
                } else if j2 < s.len() && s[j2] == ']' {
                    Some((seq![v], j2 + 1))
                } else if j2 < s.len() && s[j2] == ',' {
                    match sp_elems(s, j2 + 1) {
                        Some((rest, k)) => Some((seq![v] + rest, k)),
                        None => None,
                    }
                } else {
                    None
                }
            },
        }
    }
}

/// Parses the fields of a non-empty object from `i` up to and past the
/// closing brace.
pub open spec fn sp_fields(s: Seq<char>, i: int) -> Option<(Seq<(Seq<char>, Jx)>, int)>
    decreases s.len() - i, 2int,
{
    if i < 0 || i >= s.len() {
        None
    } else if is_ws(s[i]) {
        sp_fields(s, i + 1)
    } else if s[i] == '"' {
        match sp_string(s, i + 1) {
            None => None,
            Some((key, j)) => if j <= i || j > s.len() {
                None
            } else {
                let j2 = ws_end(s, j);
                if j2 < j {
                    None
                } else if j2 < s.len() && s[j2] == ':' {
                    match sp_value(s, j2 + 1) {
                        None => None,
                        Some((v, k)) => if k <= j2 || k > s.len() {
                            None
                        } else {
                            let k2 = ws_end(s, k);
                            if k2 < k {
                                None
                            } else if k2 < s.len() && s[k2] == '}' {
                                Some((seq![(key, v)], k2 + 1))
                            } else if k2 < s.len() && s[k2] == ',' {
                                match sp_fields(s, k2 + 1) {
                                    Some((rest, m)) => Some((seq![(key, v)] + rest, m)),
                                    None => None,
                                }
                            } else {
                                None
                            }
                        },
                    }
                } else {
                    None
                }
            },
        }
    } else {
        None
    }
}

/// Parses a complete JSON document: one value, with nothing but
/// whitespace after it.
pub open spec fn sp_json(s: Seq<char>) -> Option<Jx> {
    match sp_value(s, 0) {
        None => None,
        Some((v, j)) => if 0 <= j <= s.len() && ws_end(s, j) == s.len() {
            Some(v)
        } else {
            None
        },
    }
}

/// Every value the parser accepts is well formed: its numeric literals
/// are valid JSON numbers, so the value can always be rendered back to
/// text.
pub proof fn lemma_sp_value_wf(s: Seq<char>, i: int)
    ensures
        match sp_value(s, i) {
            Some(p) => crate::json::wf(p.0),
            None => true,
        },
    decreases s.len() - i, 1int,
{
    if i < 0 || i >= s.len() {
    } else if is_ws(s[i]) {
        lemma_sp_value_wf(s, i + 1);
    } else if s[i] == '[' {
        let j = ws_end(s, i + 1);
        if j < s.len() && s[j] == ']' {
            assert(crate::json::wf_arr(Seq::<Jx>::empty()));
        } else if j <= i || j > s.len() {
        } else {
            lemma_sp_elems_wf(s, j);
        }
    } else if s[i] == '{' {
        let j = ws_end(s, i + 1);
        if j < s.len() && s[j] == '}' {
            assert(crate::json::wf_obj(Seq::<(Seq<char>, Jx)>::empty()));
        } else if j <= i || j > s.len() {
        } else {
            lemma_sp_fields_wf(s, j);
        }
    }
}

/// Every element list the parser accepts holds well-formed elements.
proof fn lemma_sp_elems_wf(s: Seq<char>, i: int)
    ensures
        match sp_elems(s, i) {
            Some(p) => crate::json::wf_arr(p.0),
            None => true,
        },
    decreases s.len() - i, 2int,
{
    if 0 <= i < s.len() {
        lemma_sp_value_wf(s, i);
        match sp_value(s, i) {
            None => {},
            Some((v, j)) => {
                if j <= i || j > s.len() {
                } else {
                    let j2 = ws_end(s, j);
                    if j2 < j {
                    } else if j2 < s.len() && s[j2] == ']' {
                        assert(seq![v][0] == v);
                        assert(seq![v].drop_first() =~= Seq::<Jx>::empty());
                        assert(crate::json::wf_arr(Seq::<Jx>::empty()));
                        assert(crate::json::wf_arr(seq![v]));
                    } else if j2 < s.len() && s[j2] == ',' {
                        lemma_sp_elems_wf(s, j2 + 1);
                        match sp_elems(s, j2 + 1) {
                            Some((rest, _)) => {
                                assert((seq![v] + rest)[0] == v);
                                assert((seq![v] + rest).drop_first() =~= rest);
                                assert(crate::json::wf_arr(seq![v] + rest));
                            },
                            None => {},
                        }
                    }
                }
            },
        }
    }
}

/// Every field list the parser accepts holds well-formed values.
proof fn lemma_sp_fields_wf(s: Seq<char>, i: int)
    ensures
        match sp_fields(s, i) {
            Some(p) => crate::json::wf_obj(p.0),
            None => true,
        },
    decreases s.len() - i, 2int,
{
    if i < 0 || i >= s.len() {
    } else if is_ws(s[i]) {
        lemma_sp_fields_wf(s, i + 1);
    } else if s[i] == '"' {
        match sp_string(s, i + 1) {
            None => {},
            Some((key, j)) => {
                if j <= i || j > s.len() {
                } else {
                    let j2 = ws_end(s, j);
                    if j2 < j {
                    } else if j2 < s.len() && s[j2] == ':' {
                        lemma_sp_value_wf(s, j2 + 1);
                        match sp_value(s, j2 + 1) {
                            None => {},
                            Some((v, k)) => {
                                if k <= j2 || k > s.len() {
                                } else {
                                    let k2 = ws_end(s, k);
                                    if k2 < k {
                                    } else if k2 < s.len() && s[k2] == '}' {
                                        assert(seq![(key, v)][0] == (key, v));
                                        assert(seq![(key, v)].drop_first() =~= Seq::<
                                            (Seq<char>, Jx),
                                        >::empty());
                                        assert(crate::json::wf_obj(Seq::<
                                            (Seq<char>, Jx),
                                        >::empty()));
                                        assert(crate::json::wf_obj(seq![(key, v)]));
                                    } else if k2 < s.len() && s[k2] == ',' {
                                        lemma_sp_fields_wf(s, k2 + 1);
                                        match sp_fields(s, k2 + 1) {
                                            Some((rest, _)) => {
                                                assert((seq![(key, v)] + rest)[0] == (key, v));
                                                assert((seq![(key, v)] + rest).drop_first()
                                                    =~= rest);
                                                assert(crate::json::wf_obj(seq![(key, v)] + rest));
                                            },
                                            None => {},
                                        }
                                    }
                                }
                            },
                        }
                    }
                }
            },
        }
    }
}

/// `ws_end` equals any index with the scanning properties.
proof fn lemma_ws_end_agrees(s: Seq<char>, i: int, j: int)
    requires
        0 <= i <= j <= s.len(),
        forall|k: int| i <= k < j ==> is_ws(#[trigger] s[k]),
        j == s.len() || !is_ws(s[j]),
    ensures
        ws_end(s, i) == j,
    decreases j - i,
{
    if i < j {
        lemma_ws_end_agrees(s, i + 1, j);
    }
}

/// First index at or after `i` without whitespace, as executable code.
pub fn scan_ws(cs: &Vec<char>, i: usize) -> (j: usize)
    requires
        i <= cs@.len(),
    ensures
        j as int == ws_end(cs@, i as int),
        i <= j <= cs@.len(),
{
    let n = cs.len();
    let mut j = i;
    while j < n && (cs[j] == ' ' || cs[j] == '\t' || cs[j] == '\n' || cs[j] == '\r')
        invariant
            i <= j <= n,
            n == cs@.len(),
            forall|k: int| i <= k < j ==> is_ws(#[trigger] cs@[k]),
        decreases n - j,
    {
        j = j + 1;
    }
    proof {
        lemma_ws_end_agrees(cs@, i as int, j as int);
    }
    j
}

/// The characters of `cs` in `[i, j)`, copied out.
fn copy_range(cs: &Vec<char>, i: usize, j: usize) -> (r: Vec<char>)
    requires
        i <= j <= cs@.len(),
    ensures
        r@ == cs@.subrange(i as int, j as int),
{
    let mut out: Vec<char> = Vec::new();
    let mut k = i;
    while k < j
        invariant
            i <= k <= j <= cs@.len(),
            out@ =~= cs@.subrange(i as int, k as int),
        decreases j - k,
    {
        out.push(cs[k]);
        proof {
            assert(out@ =~= cs@.subrange(i as int, k + 1));
        }
        k = k + 1;
    }
    proof {
        assert(out@ =~= cs@.subrange(i as int, j as int));
    }
    out
}

/// Where a numeric literal starting at `i` ends, as executable code.
fn scan_num_end(cs: &Vec<char>, i: usize) -> (e: usize)
    requires
        i < cs@.len(),
    ensures
        e as int == num_end_at(cs@, i as int),
        i <= e <= cs@.len(),
{
    let n = cs.len();
    let sign = if cs[i] == '-' {
        i + 1
    } else {
        i
    };
    let i1 = scan_digits(cs, sign);
    let i2 = if i1 < n && cs[i1] == '.' {
        scan_digits(cs, i1 + 1)
    } else {
        i1
    };
    if i2 < n && (cs[i2] == 'e' || cs[i2] == 'E') {
        let j = if i2 + 1 < n && (cs[i2 + 1] == '+' || cs[i2 + 1] == '-') {
            i2 + 2
        } else {
            i2 + 1
        };
        scan_digits(cs, j)
    } else {
        i2
    }
}

/// `pow10` never decreases.
proof fn lemma_pow10_mono(a: int, b: int)
    requires
        a <= b,
    ensures
        pow10(a) <= pow10(b),
        pow10(a) >= 1,
    decreases b - a, b,
{
    if a == b {
        if b > 0 {
            lemma_pow10_mono(a - 1, b - 1);
        }
    } else {
        lemma_pow10_mono(a, b - 1);
    }
}

/// The 64-bit value of a small integer lexeme.
fn parse_int_lexeme(lex: &Vec<char>) -> (r: i64)
    requires
        is_json_number(lex@),
        lexeme_is_small_int(lex@),
    ensures
        r as int == int_lexeme_val(lex@),
{
    let n = lex.len();
    let sign: usize = if lex[0] == '-' {
        1
    } else {
        0
    };
    proof {
        lemma_digits_end(lex@, sign as int);
        lemma_pow10_mono(n - sign, 18);
        assert(pow10(18) == 1000000000000000000) by {
            reveal_with_fuel(pow10, 19);
        }
    }
    let mut acc: i64 = 0;
    let mut k = sign;
    while k < n
        invariant
            sign <= k <= n,
            n == lex@.len(),
            n - sign <= 18,
            forall|m: int| sign <= m < n ==> is_digit(#[trigger] lex@[m]),
            acc as int == digits_val(lex@, sign as int, k as int),
            0 <= acc,
            (acc as int) < pow10(k - sign),
            pow10(n - sign) <= 1000000000000000000,
        decreases n - k,
    {
        let c = lex[k];
        let d: i64 = (c as u32 - 48) as i64;
        proof {
            assert(is_digit(lex@[k as int]));
            assert(0 <= d <= 9);
            lemma_pow10_mono(k - sign, n - 1 - sign);
            assert(10 * pow10(k - sign) == pow10(k + 1 - sign));
            lemma_pow10_mono(k + 1 - sign, n - sign);
        }
        acc = acc * 10 + d;
        k = k + 1;
    }
    if sign == 1 {
        -acc
    } else {
        acc
    }
}

/// The hexadecimal value of `c`, or `-1` when `c` is no such digit.
fn hex_val_of(c: char) -> (v: i32)
    ensures
        v as int == hex_val(c),
{
    if '0' <= c && c <= '9' {
        (c as u32 - 48) as i32
    } else if 'a' <= c && c <= 'f' {
        (c as u32 - 97 + 10) as i32
    } else if 'A' <= c && c <= 'F' {
        (c as u32 - 65 + 10) as i32
    } else {
        -1
    }
}

/// Parses a string body at `i`, just past the opening quote.
fn p_string(cs: &Vec<char>, i: usize) -> (r: Option<(Vec<char>, usize)>)
    requires
        i <= cs@.len(),
    ensures
        r matches Some(p) ==> sp_string(cs@, i as int) == Some((p.0@, p.1 as int)) && i < p.1
            <= cs@.len(),
        r is None ==> sp_string(cs@, i as int) is None,
    decreases cs@.len() - i,
{
    let n = cs.len();
    if i >= n {
        return None;
    }
    let c = cs[i];
    if c == '"' {
        let empty: Vec<char> = Vec::new();
        proof {
            assert(empty@ =~= Seq::<char>::empty());
        }
        Some((empty, i + 1))
    } else if c == '\\' {
        if i + 1 >= n {
            return None;
        }
        let e = cs[i + 1];
        if e == 'u' {
            if n - i < 6 {
                return None;
            }
            let h2 = hex_val_of(cs[i + 2]);
            let h3 = hex_val_of(cs[i + 3]);
            let h4 = hex_val_of(cs[i + 4]);
            let h5 = hex_val_of(cs[i + 5]);
            if h2 < 0 || h3 < 0 || h4 < 0 || h5 < 0 {
                return None;
            }
            let h: i32 = h2 * 4096 + h3 * 256 + h4 * 16 + h5;
            if h >= 0x80 {
                return None;
            }
            match p_string(cs, i + 6) {
                Some((mut rest, j)) => {
                    let decoded: char = (h as u8) as char;
                    rest.insert(0, decoded);
                    proof {
                        assert(rest@ =~= seq![decoded] + rest@.drop_first());
                    }
                    Some((rest, j))
                },
                None => None,
            }
        } else if e == '"' || e == '\\' || e == '/' || e == 'b' || e == 'f' || e == 'n' || e == 'r'
            || e == 't' {
            let d: char = if e == '"' {
                '"'
            } else if e == '\\' {
                '\\'
            } else if e == '/' {
                '/'
            } else if e == 'b' {
                '\u{8}'
            } else if e == 'f' {
                '\u{c}'
            } else if e == 'n' {
                '\n'
            } else if e == 'r' {
                '\r'
            } else {
                '\t'
            };
            match p_string(cs, i + 2) {
                Some((mut rest, j)) => {
                    rest.insert(0, d);
                    proof {
                        assert(rest@ =~= seq![d] + rest@.drop_first());
                    }
                    Some((rest, j))
                },
                None => None,
            }
        } else {
            None
        }
    } else if (c as u32) < 0x20 {
        None
    } else {
        match p_string(cs, i + 1) {
            Some((mut rest, j)) => {
                rest.insert(0, c);
                proof {
                    assert(rest@ =~= seq![c] + rest@.drop_first());
                }
                Some((rest, j))
            },
            None => None,
        }
    }
}

/// Parses one value at `i`, skipping leading whitespace.
fn p_value(cs: &Vec<char>, i: usize) -> (r: Option<(JsonValue, usize)>)
    requires
        i <= cs@.len(),
    ensures
        r matches Some(p) ==> sp_value(cs@, i as int) == Some((p.0.deep(), p.1 as int)) && i < p.1
            <= cs@.len(),
        r is None ==> sp_value(cs@, i as int) is None,
    decreases cs@.len() - i, 1int,
{
    let n = cs.len();
    if i >= n {
        return None;
    }
    let c = cs[i];
    if c == ' ' || c == '\t' || c == '\n' || c == '\r' {
        p_value(cs, i + 1)
    } else if c == 'n' {
        if n - i >= 4 && cs[i + 1] == 'u' && cs[i + 2] == 'l' && cs[i + 3] == 'l' {
            Some((JsonValue::Null, i + 4))
        } else {
            None
        }
    } else if c == 't' {
        if n - i >= 4 && cs[i + 1] == 'r' && cs[i + 2] == 'u' && cs[i + 3] == 'e' {
            Some((JsonValue::Bool(true), i + 4))
        } else {
            None
        }
    } else if c == 'f' {
        if n - i >= 5 && cs[i + 1] == 'a' && cs[i + 2] == 'l' && cs[i + 3] == 's' && cs[i + 4]
            == 'e' {
            Some((JsonValue::Bool(false), i + 5))
        } else {
            None
        }
    } else if c == '"' {
        match p_string(cs, i + 1) {
            Some((t, j)) => Some((JsonValue::Str(chars_to_string(&t)), j)),
            None => None,
        }
    } else if c == '-' || ('0' <= c && c <= '9') {
        let e = scan_num_end(cs, i);
        if e <= i {
            return None;
        }
        let lex = copy_range(cs, i, e);
        if !check_json_number(&lex) {
            return None;
        }
        let sign: usize = if lex[0] == '-' {
            1
        } else {
            0
        };
        let small_int = scan_digits(&lex, sign) == lex.len() && lex.len() > sign && lex.len()
            - sign <= 18;
        if small_int {
            Some((JsonValue::Int(parse_int_lexeme(&lex)), e))
        } else {
            Some((JsonValue::Num(chars_to_string(&lex)), e))
        }
    } else if c == '[' {
        let j = scan_ws(cs, i + 1);
        if j < n && cs[j] == ']' {
            let items: Vec<JsonValue> = Vec::new();
            proof {
                assert(deep_arr_from(items, 0) =~= Seq::<Jx>::empty());
            }
            Some((JsonValue::Arr(items), j + 1))
        } else if j <= i {
            None
        } else {
            match p_elems(cs, j) {
                Some((items, k)) => Some((JsonValue::Arr(items), k)),
                None => None,
            }
        }
    } else if c == '{' {
        let j = scan_ws(cs, i + 1);
        if j < n && cs[j] == '}' {
            let fields: Vec<(String, JsonValue)> = Vec::new();
            proof {
                assert(deep_obj_from(fields, 0) =~= Seq::<(Seq<char>, Jx)>::empty());
            }
            Some((JsonValue::Obj(fields), j + 1))
        } else if j <= i {
            None
        } else {
            match p_fields(cs, j) {
                Some((fields, k)) => Some((JsonValue::Obj(fields), k)),
                None => None,
            }
        }
    } else {
        None
    }
}

/// Parses the elements of a non-empty array from `i`.
fn p_elems(cs: &Vec<char>, i: usize) -> (r: Option<(Vec<JsonValue>, usize)>)
    requires
        i <= cs@.len(),
    ensures
        r matches Some(p) ==> sp_elems(cs@, i as int) == Some((deep_arr_from(p.0, 0), p.1 as int))
            && i < p.1 <= cs@.len(),
        r is None ==> sp_elems(cs@, i as int) is None,
    decreases cs@.len() - i, 2int,
{
    let n = cs.len();
    if i >= n {
        return None;
    }
    match p_value(cs, i) {
        None => None,
        Some((v, j)) => {
            let j2 = scan_ws(cs, j);
            if j2 < n && cs[j2] == ']' {
                let mut items: Vec<JsonValue> = Vec::new();
                items.push(v);
                proof {
                    lemma_deep_arr_from(items, 0);
                    assert(deep_arr_from(items, 0) =~= seq![items@[0].deep()]);
                }
                Some((items, j2 + 1))
            } else if j2 < n && cs[j2] == ',' {
                match p_elems(cs, j2 + 1) {
                    Some((mut rest, k)) => {
                        let ghost rest0 = rest;
                        rest.insert(0, v);
                        proof {
                            lemma_deep_arr_from(rest, 0);
                            lemma_deep_arr_from(rest0, 0);
                            assert forall|m: int| 0 <= m < rest@.len() implies deep_arr_from(
                                rest,
                                0,
                            )[m] == (seq![v.deep()] + deep_arr_from(rest0, 0))[m] by {
                                if m > 0 {
                                    assert(rest@[m] == rest0@[m - 1]);
                                }
                            }
                            assert(deep_arr_from(rest, 0) =~= seq![v.deep()] + deep_arr_from(
                                rest0,
                                0,
                            ));
                        }
                        Some((rest, k))
                    },
                    None => None,
                }
            } else {
                None
            }
        },
    }
}

/// Parses the fields of a non-empty object from `i`.
fn p_fields(cs: &Vec<char>, i: usize) -> (r: Option<(Vec<(String, JsonValue)>, usize)>)
    requires
        i <= cs@.len(),
    ensures
        r matches Some(p) ==> sp_fields(cs@, i as int) == Some(
            (deep_obj_from(p.0, 0), p.1 as int),
        ) && i < p.1 <= cs@.len(),
        r is None ==> sp_fields(cs@, i as int) is None,
    decreases cs@.len() - i, 2int,
{
    let n = cs.len();
    if i >= n {
        return None;
    }
    let c = cs[i];
    if c == ' ' || c == '\t' || c == '\n' || c == '\r' {
        p_fields(cs, i + 1)
    } else if c == '"' {
        match p_string(cs, i + 1) {
            None => None,
            Some((keychars, j)) => {
                let key = chars_to_string(&keychars);
                let j2 = scan_ws(cs, j);
                if j2 < n && cs[j2] == ':' {
                    match p_value(cs, j2 + 1) {
                        None => None,
                        Some((v, k)) => {
                            let k2 = scan_ws(cs, k);
                            if k2 < n && cs[k2] == '}' {
                                let mut fields: Vec<(String, JsonValue)> = Vec::new();
                                fields.push((key, v));
                                proof {
                                    lemma_deep_obj_from(fields, 0);
                                    assert(deep_obj_from(fields, 0) =~= seq![
                                        (fields@[0].0@, fields@[0].1.deep()),
                                    ]);
                                }
                                Some((fields, k2 + 1))
                            } else if k2 < n && cs[k2] == ',' {
                                match p_fields(cs, k2 + 1) {
                                    Some((mut rest, m)) => {
                                        let ghost rest0 = rest;
                                        let ghost kv = (key@, v.deep());
                                        rest.insert(0, (key, v));
                                        proof {
                                            lemma_deep_obj_from(rest, 0);
                                            lemma_deep_obj_from(rest0, 0);
                                            assert forall|q: int|
                                                0 <= q < rest@.len() implies deep_obj_from(
                                                rest,
                                                0,
                                            )[q] == (seq![kv] + deep_obj_from(rest0, 0))[q] by {
                                                if q > 0 {
                                                    assert(rest@[q] == rest0@[q - 1]);
                                                }
                                            }
                                            assert(deep_obj_from(rest, 0) =~= seq![kv]
                                                + deep_obj_from(rest0, 0));
                                        }
                                        Some((rest, m))
                                    },
                                    None => None,
                                }
                            } else {
                                None
                            }
                        },
                    }
                } else {
                    None
                }
            },
        }
    } else {
        None
    }
}

/// Parses a complete JSON document from `s`: exactly the values that
/// `sp_json` accepts, with the value it gives.
pub fn parse_json(s: &str) -> (r: Option<JsonValue>)
    ensures
        r matches Some(v) ==> sp_json(s@) == Some(v.deep()) && crate::json::wf(v.deep()),
        r is None ==> sp_json(s@) is None,
{
    proof {
        lemma_sp_value_wf(s@, 0);
    }
    let cs = str_to_chars(s);
    match p_value(&cs, 0) {
        None => None,
        Some((v, j)) => {
            let j2 = scan_ws(&cs, j);
            if j2 == cs.len() {
                Some(v)
            } else {
                None
            }
        },
    }
}

} // verus!

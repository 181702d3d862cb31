//! JSON values as exchanged with the remote API, together with their
//! mathematical model.
//!
//! Numbers are either 64-bit integers or, for anything that does not fit
//! (fractions, exponents, very long integers), a raw numeric literal kept
//! as text.  A value is well formed when every such literal is a valid
//! JSON number; only well-formed values can be rendered to text.

use vstd::prelude::*;

use crate::strutil::str_eq;
use crate::strutil::str_to_chars;

verus! {

/// Mathematical model of a JSON value: strings become sequences of
/// characters, arrays and objects become sequences of models.
pub enum Jx {
    Null,
    Bool(bool),
    Int(int),
    /// A raw numeric literal, kept as written.
    Num(Seq<char>),
    Str(Seq<char>),
    Arr(Seq<Jx>),
    Obj(Seq<(Seq<char>, Jx)>),
}

/// A JSON value.  Object fields keep their order; duplicate keys are
/// tolerated and lookups return the first match.
#[derive(Debug, PartialEq, Eq)]
pub enum JsonValue {
    Null,
    Bool(bool),
    Int(i64),
    /// A number that is not a 64-bit integer, as its raw literal text.
    Num(String),
    Str(String),
    Arr(Vec<JsonValue>),
    Obj(Vec<(String, JsonValue)>),
}

/// The models of the elements of `s` from index `i` on.
pub open spec fn deep_arr_from(s: Vec<JsonValue>, i: int) -> Seq<Jx>
    decreases s, s.len() - i,
{
    if i < 0 || i >= s.len() {
        Seq::empty()
    } else {
        seq![s[i].deep()] + deep_arr_from(s, i + 1)
    }
}

/// The models of the fields of `s` from index `i` on.
pub open spec fn deep_obj_from(s: Vec<(String, JsonValue)>, i: int) -> Seq<(Seq<char>, Jx)>
    decreases s, s.len() - i,
{
    if i < 0 || i >= s.len() {
        Seq::empty()
    } else {
        seq![(s[i].0@, s[i].1.deep())] + deep_obj_from(s, i + 1)
    }
}

impl JsonValue {
    /// The mathematical model of this value.
    pub open spec fn deep(self) -> Jx
        decreases self,
    {
        match self {
            JsonValue::Null => Jx::Null,
            JsonValue::Bool(b) => Jx::Bool(b),
            JsonValue::Int(i) => Jx::Int(i as int),
            JsonValue::Num(t) => Jx::Num(t@),
            JsonValue::Str(s) => Jx::Str(s@),
            JsonValue::Arr(items) => Jx::Arr(deep_arr_from(items, 0)),
            JsonValue::Obj(fields) => Jx::Obj(deep_obj_from(fields, 0)),
        }
    }
}

/// `deep_arr_from` is the element-wise model of the tail of `s`.
pub proof fn lemma_deep_arr_from(s: Vec<JsonValue>, i: int)
    requires
        0 <= i <= s.len(),
    ensures
        deep_arr_from(s, i).len() == s.len() - i,
        forall|k: int| i <= k < s.len() ==> deep_arr_from(s, i)[k - i] == s[k].deep(),
    decreases s.len() - i,
{
    if i < s.len() {
        lemma_deep_arr_from(s, i + 1);
    }
}

/// Whether `c` is a decimal digit.
pub open spec fn is_digit(c: char) -> bool {
    '0' <= c && c <= '9'
}

/// First index at or after `i` that does not hold a decimal digit.
pub open spec fn digits_end(s: Seq<char>, i: int) -> int
    decreases s.len() - i,
{
    if i < 0 || i >= s.len() {
        i
    } else if is_digit(s[i]) {
        digits_end(s, i + 1)
    } else {
        i
    }
}

/// End of the integer part of a numeric literal: an optional minus sign
/// followed by digits.
pub open spec fn num_int_end(s: Seq<char>) -> int {
    digits_end(s, if s.len() > 0 && s[0] == '-' { 1int } else { 0int })
}

/// End of the fractional part, which extends the integer part.
pub open spec fn num_frac_end(s: Seq<char>) -> int {
    let i1 = num_int_end(s);
    if i1 < s.len() && s[i1] == '.' {
        digits_end(s, i1 + 1)
    } else {
        i1
    }
}

/// Start of the exponent's digits, past `e`/`E` and an optional sign.
pub open spec fn num_exp_digits_start(s: Seq<char>) -> int {
    let i2 = num_frac_end(s);
    if i2 + 1 < s.len() && (s[i2 + 1] == '+' || s[i2 + 1] == '-') {
        i2 + 2
    } else {
        i2 + 1
    }
}

/// Whether `s` is a JSON numeric literal: `-?int frac? exp?`, where the
/// integer part may not have a leading zero unless it is exactly `0`.
pub open spec fn is_json_number(s: Seq<char>) -> bool {
    let sign: int = if s.len() > 0 && s[0] == '-' { 1int } else { 0int };
    let i1 = num_int_end(s);
    let i2 = num_frac_end(s);
    &&& i1 > sign
    &&& (s[sign] == '0' ==> i1 == sign + 1)
    &&& (i1 < s.len() && s[i1] == '.' ==> i2 > i1 + 1)
    &&& if i2 < s.len() && (s[i2] == 'e' || s[i2] == 'E') {
        let j = num_exp_digits_start(s);
        let i3 = digits_end(s, j);
        i3 > j && i3 == s.len()
    } else {
        i2 == s.len()
    }
}

/// Whether every numeric literal inside `j` is a valid JSON number, so
/// that `j` can be rendered to text.
pub open spec fn wf(j: Jx) -> bool
    decreases j,
{
    match j {
        Jx::Null => true,
        Jx::Bool(_) => true,
        Jx::Int(_) => true,
        Jx::Num(t) => is_json_number(t),
        Jx::Str(_) => true,
        Jx::Arr(items) => wf_arr(items),
        Jx::Obj(fields) => wf_obj(fields),
    }
}

/// `wf` over every element of `items`.
pub open spec fn wf_arr(items: Seq<Jx>) -> bool
    decreases items,
{
    items.len() == 0 || (wf(items[0]) && wf_arr(items.drop_first()))
}

/// `wf` over the value of every field of `fields`.
pub open spec fn wf_obj(fields: Seq<(Seq<char>, Jx)>) -> bool
    decreases fields,
{
    fields.len() == 0 || (wf(fields[0].1) && wf_obj(fields.drop_first()))
}

/// `wf_arr` holds exactly when `wf` holds of every element.
pub proof fn lemma_wf_arr(items: Seq<Jx>)
    ensures
        wf_arr(items) <==> (forall|k: int| 0 <= k < items.len() ==> wf(#[trigger] items[k])),
    decreases items.len(),
{
    if items.len() > 0 {
        lemma_wf_arr(items.drop_first());
        assert(forall|k: int|
            1 <= k < items.len() ==> items.drop_first()[k - 1] == #[trigger] items[k]);
    }
}

/// `wf_obj` holds exactly when `wf` holds of every field value.
pub proof fn lemma_wf_obj(fields: Seq<(Seq<char>, Jx)>)
    ensures
        wf_obj(fields) <==> (forall|k: int|
            0 <= k < fields.len() ==> wf(#[trigger] fields[k].1)),
    decreases fields.len(),
{
    if fields.len() > 0 {
        lemma_wf_obj(fields.drop_first());
        assert(forall|k: int|
            1 <= k < fields.len() ==> fields.drop_first()[k - 1] == #[trigger] fields[k]);
    }
}

/// The value of the first field named `key`, if any.
pub open spec fn obj_lookup(fields: Seq<(Seq<char>, Jx)>, key: Seq<char>) -> Option<Jx>
    decreases fields,
{
    if fields.len() == 0 {
        None
    } else if fields[0].0 == key {
        Some(fields[0].1)
    } else {
        obj_lookup(fields.drop_first(), key)
    }
}

/// Field lookup on a value: `None` unless `j` is an object with such a
/// field.
pub open spec fn get_field(j: Jx, key: Seq<char>) -> Option<Jx> {
    match j {
        Jx::Obj(fields) => obj_lookup(fields, key),
        _ => None,
    }
}

/// `deep_obj_from` is the field-wise model of the tail of `s`.
pub proof fn lemma_deep_obj_from(s: Vec<(String, JsonValue)>, i: int)
    requires
        0 <= i <= s.len(),
    ensures
        deep_obj_from(s, i).len() == s.len() - i,
        forall|k: int| i <= k < s.len() ==> deep_obj_from(s, i)[k - i] == (s[k].0@, s[k].1.deep()),
    decreases s.len() - i,
{
    if i < s.len() {
        lemma_deep_obj_from(s, i + 1);
    }
}

/// `digits_end` stays within bounds, covers digits only, and stops at a
/// non-digit.
pub proof fn lemma_digits_end(s: Seq<char>, i: int)
    requires
        0 <= i <= s.len(),
    ensures
        i <= digits_end(s, i) <= s.len(),
        forall|k: int| i <= k < digits_end(s, i) ==> is_digit(#[trigger] s[k]),
        digits_end(s, i) == s.len() || !is_digit(s[digits_end(s, i)]),
    decreases s.len() - i,
{
    if i < s.len() && is_digit(s[i]) {
        lemma_digits_end(s, i + 1);
    }
}

/// First index at or after `i` without a digit, as executable code.
pub fn scan_digits(cs: &Vec<char>, i: usize) -> (j: usize)
    requires
        i <= cs@.len(),
    ensures
        j == digits_end(cs@, i as int),
        i <= j <= cs@.len(),
{
    let n = cs.len();
    let mut j = i;
    while j < n && '0' <= cs[j] && cs[j] <= '9'
        invariant
            i <= j <= n,
            n == cs@.len(),
            forall|k: int| i <= k < j ==> is_digit(#[trigger] cs@[k]),
        decreases n - j,
    {
        j = j + 1;
    }
    proof {
        lemma_digits_end_agrees(cs@, i as int, j as int);
    }
    j
}

/// `digits_end` equals any index with the scanning properties.
proof fn lemma_digits_end_agrees(s: Seq<char>, i: int, j: int)
    requires
        0 <= i <= j <= s.len(),
        forall|k: int| i <= k < j ==> is_digit(#[trigger] s[k]),
        j == s.len() || !is_digit(s[j]),
    ensures
        digits_end(s, i) == j,
    decreases j - i,
{
    if i < j {
        lemma_digits_end_agrees(s, i + 1, j);
    }
}

/// Whether the characters of `cs` form a JSON numeric literal.
pub fn check_json_number(cs: &Vec<char>) -> (r: bool)
    ensures
        r == is_json_number(cs@),
{
    let n = cs.len();
    let sign: usize = if n > 0 && cs[0] == '-' {
        1
    } else {
        0
    };
    let i1 = scan_digits(cs, sign);
    if i1 == sign {
        return false;
    }
    if cs[sign] == '0' && i1 != sign + 1 {
        return false;
    }
    let i2 = if i1 < n && cs[i1] == '.' {
        let e = scan_digits(cs, i1 + 1);
        if e == i1 + 1 {
            return false;
        }
        e
    } else {
        i1
    };
    if i2 < n && (cs[i2] == 'e' || cs[i2] == 'E') {
        let j = if i2 + 1 < n && (cs[i2 + 1] == '+' || cs[i2 + 1] == '-') {
            i2 + 2
        } else {
            i2 + 1
        };
        let i3 = scan_digits(cs, if j <= n {
            j
        } else {
            n
        });
        i3 > j && i3 == n
    } else {
        i2 == n
    }
}

impl JsonValue {
    /// Whether every numeric literal inside `self` is valid, so that
    /// `self` can be rendered to text.
    pub fn check_wf(&self) -> (r: bool)
        ensures
            r == wf(self.deep()),
        decreases *self, 0int,
    {
        match self {
            JsonValue::Null => true,
            JsonValue::Bool(_) => true,
            JsonValue::Int(_) => true,
            JsonValue::Num(t) => {
                let cs = str_to_chars(t.as_str());
                check_json_number(&cs)
            },
            JsonValue::Str(_) => true,
            JsonValue::Arr(items) => {
                let r = check_wf_arr(items, 0);
                proof {
                    lemma_deep_arr_from(*items, 0);
                    let m = deep_arr_from(*items, 0);
                    lemma_wf_arr(m);
                    if r {
                        assert forall|k: int| 0 <= k < m.len() implies wf(#[trigger] m[k]) by {
                            assert(m[k] == items@[k].deep());
                        }
                    } else {
                        assert(exists|j: int|
                            0 <= j < items@.len() && !wf(#[trigger] items@[j].deep()));
                        let j = choose|j: int|
                            0 <= j < items@.len() && !wf(#[trigger] items@[j].deep());
                        assert(!wf(m[j]));
                    }
                }
                r
            },
            JsonValue::Obj(fields) => {
                let r = check_wf_obj(fields, 0);
                proof {
                    lemma_deep_obj_from(*fields, 0);
                    let m = deep_obj_from(*fields, 0);
                    lemma_wf_obj(m);
                    if r {
                        assert forall|k: int| 0 <= k < m.len() implies wf(#[trigger] m[k].1) by {
                            assert(m[k] == (fields@[k].0@, fields@[k].1.deep()));
                        }
                    } else {
                        assert(exists|j: int|
                            0 <= j < fields@.len() && !wf(#[trigger] fields@[j].1.deep()));
                        let j = choose|j: int|
                            0 <= j < fields@.len() && !wf(#[trigger] fields@[j].1.deep());
                        assert(!wf(m[j].1));
                    }
                }
                r
            },
        }
    }
}

/// Whether every element of `items` from index `k` on is well formed.
fn check_wf_arr(items: &Vec<JsonValue>, k: usize) -> (r: bool)
    requires
        k <= items@.len(),
    ensures
        r == (forall|j: int| k <= j < items@.len() ==> wf(#[trigger] items@[j].deep())),
    decreases *items, items@.len() - k, 1int,
{
    if k == items.len() {
        true
    } else {
        if !items[k].check_wf() {
            false
        } else {
            check_wf_arr(items, k + 1)
        }
    }
}

/// Whether every field value of `fields` from index `k` on is well
/// formed.
fn check_wf_obj(fields: &Vec<(String, JsonValue)>, k: usize) -> (r: bool)
    requires
        k <= fields@.len(),
    ensures
        r == (forall|j: int| k <= j < fields@.len() ==> wf(#[trigger] fields@[j].1.deep())),
    decreases *fields, fields@.len() - k, 1int,
{
    if k == fields.len() {
        true
    } else {
        if !fields[k].1.check_wf() {
            false
        } else {
            check_wf_obj(fields, k + 1)
        }
    }
}

impl JsonValue {

    /// The value of the first field named `key`, if `self` is an object
    /// that has one.
    pub fn get(&self, key: &str) -> (r: Option<&JsonValue>)
        ensures
            match r {
                Some(w) => get_field(self.deep(), key@) == Some(w.deep()),
                None => get_field(self.deep(), key@) is None,
            },
    {
        match self {
            JsonValue::Obj(fields) => {
                proof {
                    lemma_deep_obj_from(*fields, 0);
                    assert(deep_obj_from(*fields, 0).skip(0) =~= deep_obj_from(*fields, 0));
                }
                let n = fields.len();
                let mut k: usize = 0;
                while k < n
                    invariant
                        0 <= k <= n,
                        n == fields@.len(),
                        self.deep() == Jx::Obj(deep_obj_from(*fields, 0)),
                        deep_obj_from(*fields, 0).len() == n,
                        forall|j: int| 0 <= j < n ==> deep_obj_from(*fields, 0)[j]
                            == (fields@[j].0@, fields@[j].1.deep()),
                        obj_lookup(deep_obj_from(*fields, 0), key@) == obj_lookup(
                            deep_obj_from(*fields, 0).skip(k as int),
                            key@,
                        ),
                    decreases n - k,
                {
                    proof {
                        lemma_obj_lookup_skip(deep_obj_from(*fields, 0), k as int, key@);
                    }
                    if str_eq(fields[k].0.as_str(), key) {
                        return Some(&fields[k].1);
                    }
                    k = k + 1;
                }
                None
            },
            _ => None,
        }
    }
}

impl JsonValue {
    /// A structurally equal copy of `self`.
    pub fn deep_clone(&self) -> (r: JsonValue)
        ensures
            r.deep() == self.deep(),
        decreases *self, 0int,
    {
        match self {
            JsonValue::Null => JsonValue::Null,
            JsonValue::Bool(b) => JsonValue::Bool(*b),
            JsonValue::Int(i) => JsonValue::Int(*i),
            JsonValue::Num(t) => JsonValue::Num(t.clone()),
            JsonValue::Str(s) => JsonValue::Str(s.clone()),
            JsonValue::Arr(items) => {
                let mut out: Vec<JsonValue> = Vec::new();
                clone_arr_into(items, 0, &mut out);
                proof {
                    lemma_deep_arr_from(*items, 0);
                    lemma_deep_arr_from(out, 0);
                    assert forall|j: int| 0 <= j < items@.len() implies deep_arr_from(out, 0)[j]
                        == deep_arr_from(*items, 0)[j] by {
                        assert(out@[j].deep() == items@[j].deep());
                    }
                    assert(deep_arr_from(out, 0) =~= deep_arr_from(*items, 0));
                }
                JsonValue::Arr(out)
            },
            JsonValue::Obj(fields) => {
                let mut out: Vec<(String, JsonValue)> = Vec::new();
                clone_obj_into(fields, 0, &mut out);
                proof {
                    lemma_deep_obj_from(*fields, 0);
                    lemma_deep_obj_from(out, 0);
                    assert forall|j: int| 0 <= j < fields@.len() implies deep_obj_from(out, 0)[j]
                        == deep_obj_from(*fields, 0)[j] by {
                        assert(out@[j].0@ == fields@[j].0@);
                        assert(out@[j].1.deep() == fields@[j].1.deep());
                    }
                    assert(deep_obj_from(out, 0) =~= deep_obj_from(*fields, 0));
                }
                JsonValue::Obj(out)
            },
        }
    }
}

/// Appends copies of the elements of `items` from index `k` on to `out`.
fn clone_arr_into(items: &Vec<JsonValue>, k: usize, out: &mut Vec<JsonValue>)
    requires
        k <= items@.len(),
    ensures
        final(out)@.len() == old(out)@.len() + items@.len() - k,
        forall|j: int| 0 <= j < old(out)@.len() ==> final(out)@[j] == old(out)@[j],
        forall|j: int| k <= j < items@.len() ==> final(out)@[old(out)@.len() + j - k].deep()
            == #[trigger] items@[j].deep(),
    decreases *items, items@.len() - k, 1int,
{
    if k < items.len() {
        let c = items[k].deep_clone();
        out.push(c);
        clone_arr_into(items, k + 1, out);
    }
}

/// Appends copies of the fields of `fields` from index `k` on to `out`.
pub(crate) fn clone_obj_into(
    fields: &Vec<(String, JsonValue)>,
    k: usize,
    out: &mut Vec<(String, JsonValue)>,
)
    requires
        k <= fields@.len(),
    ensures
        final(out)@.len() == old(out)@.len() + fields@.len() - k,
        forall|j: int| 0 <= j < old(out)@.len() ==> final(out)@[j] == old(out)@[j],
        forall|j: int| k <= j < fields@.len() ==> (
            final(out)@[old(out)@.len() + j - k].0@ == #[trigger] fields@[j].0@
            && final(out)@[old(out)@.len() + j - k].1.deep() == fields@[j].1.deep()
        ),
    decreases *fields, fields@.len() - k, 1int,
{
    if k < fields.len() {
        let key = fields[k].0.clone();
        let val = fields[k].1.deep_clone();
        out.push((key, val));
        clone_obj_into(fields, k + 1, out);
    }
}

/// A one-field object, as a model.
pub open spec fn obj1(k: Seq<char>, v: Jx) -> Jx {
    Jx::Obj(Seq::empty().push((k, v)))
}

/// A two-field object, as a model.
pub open spec fn obj2(k1: Seq<char>, v1: Jx, k2: Seq<char>, v2: Jx) -> Jx {
    Jx::Obj(Seq::empty().push((k1, v1)).push((k2, v2)))
}

/// A JSON object with one field.
pub fn json_obj1(k1: &str, v1: JsonValue) -> (r: JsonValue)
    ensures
        r.deep() == obj1(k1@, v1.deep()),
{
    let mut fields: Vec<(String, JsonValue)> = Vec::new();
    fields.push((k1.to_owned(), v1));
    proof {
        lemma_deep_obj_from(fields, 0);
        assert(deep_obj_from(fields, 0) =~= Seq::empty().push((k1@, fields@[0].1.deep())));
    }
    JsonValue::Obj(fields)
}

/// A JSON object with two fields, in order.
pub fn json_obj2(k1: &str, v1: JsonValue, k2: &str, v2: JsonValue) -> (r: JsonValue)
    ensures
        r.deep() == obj2(k1@, v1.deep(), k2@, v2.deep()),
{
    let mut fields: Vec<(String, JsonValue)> = Vec::new();
    fields.push((k1.to_owned(), v1));
    fields.push((k2.to_owned(), v2));
    proof {
        lemma_deep_obj_from(fields, 0);
        assert(deep_obj_from(fields, 0) =~= Seq::empty().push((k1@, fields@[0].1.deep())).push(
            (k2@, fields@[1].1.deep()),
        ));
    }
    JsonValue::Obj(fields)
}

/// A JSON string value.
pub fn json_str(s: &str) -> (r: JsonValue)
    ensures
        r.deep() == Jx::Str(s@),
{
    JsonValue::Str(s.to_owned())
}

/// Unrolling `obj_lookup` by one field when that field's key differs.
pub proof fn lemma_obj_lookup_skip(fields: Seq<(Seq<char>, Jx)>, k: int, key: Seq<char>)
    requires
        0 <= k < fields.len(),
    ensures
        fields[k].0 == key ==> obj_lookup(fields.skip(k), key) == Some::<Jx>(fields[k].1),
        fields[k].0 != key ==> obj_lookup(fields.skip(k), key) == obj_lookup(
            fields.skip(k + 1),
            key,
        ),
{
    assert(fields.skip(k).len() > 0);
    assert(fields.skip(k)[0] == fields[k]);
    assert(fields.skip(k).drop_first() =~= fields.skip(k + 1));
}

} // verus!

//! Declared input shapes and their derivation into the JSON Schema
//! subset that the remote API accepts, together with structural
//! validation of argument values against a shape.

use vstd::prelude::*;

use crate::json::deep_obj_from;
use crate::json::json_obj1;
use crate::json::json_obj2;
use crate::json::json_str;
use crate::json::lemma_deep_arr_from;
use crate::json::lemma_deep_obj_from;
use crate::json::obj1;
use crate::json::obj2;
use crate::json::obj_lookup;
use crate::json::JsonValue;
use crate::json::Jx;

verus! {

/// A statically declared input shape: scalars, arrays, and records.
#[derive(Debug, PartialEq, Eq)]
pub enum Shape {
    Str,
    Int,
    Num,
    Bool,
    Array(Box<Shape>),
    Object(Vec<FieldDecl>),
}

/// One declared record field.
#[derive(Debug, PartialEq, Eq)]
pub struct FieldDecl {
    pub name: String,
    pub shape: Shape,
    pub required: bool,
}

/// Model of a shape.
pub enum ShapeV {
    Str,
    Int,
    Num,
    Bool,
    Array(Box<ShapeV>),
    Object(Seq<FieldV>),
}

/// Model of a declared field.
pub struct FieldV {
    pub name: Seq<char>,
    pub shape: ShapeV,
    pub required: bool,
}

/// The models of the fields of `ds` from index `k` on.
pub open spec fn decls_deep_from(ds: Vec<FieldDecl>, k: int) -> Seq<FieldV>
    decreases ds, ds.len() - k,
{
    if k < 0 || k >= ds.len() {
        Seq::empty()
    } else {
        seq![ds[k].deep()] + decls_deep_from(ds, k + 1)
    }
}

/// `decls_deep_from` is the field-wise model of the tail of `ds`.
pub proof fn lemma_decls_deep_from(ds: Vec<FieldDecl>, k: int)
    requires
        0 <= k <= ds.len(),
    ensures
        decls_deep_from(ds, k).len() == ds.len() - k,
        forall|m: int| k <= m < ds.len() ==> decls_deep_from(ds, k)[m - k] == ds[m].deep(),
    decreases ds.len() - k,
{
    if k < ds.len() {
        lemma_decls_deep_from(ds, k + 1);
    }
}

impl FieldDecl {
    /// The mathematical model of this field.
    pub open spec fn deep(self) -> FieldV
        decreases self,
    {
        FieldV { name: self.name@, shape: self.shape.deep(), required: self.required }
    }
}

impl Shape {
    /// The mathematical model of this shape.
    pub open spec fn deep(self) -> ShapeV
        decreases self,
    {
        match self {
            Shape::Str => ShapeV::Str,
            Shape::Int => ShapeV::Int,
            Shape::Num => ShapeV::Num,
            Shape::Bool => ShapeV::Bool,
            Shape::Array(el) => ShapeV::Array(Box::new(el.deep())),
            Shape::Object(ds) => ShapeV::Object(decls_deep_from(ds, 0)),
        }
    }
}

/// A three-field object, as a model.
pub open spec fn obj3(k1: Seq<char>, v1: Jx, k2: Seq<char>, v2: Jx, k3: Seq<char>, v3: Jx) -> Jx {
    Jx::Obj(Seq::empty().push((k1, v1)).push((k2, v2)).push((k3, v3)))
}

/// A JSON object with three fields, in order.
pub fn json_obj3(
    k1: &str,
    v1: JsonValue,
    k2: &str,
    v2: JsonValue,
    k3: &str,
    v3: JsonValue,
) -> (r: JsonValue)
    ensures
        r.deep() == obj3(k1@, v1.deep(), k2@, v2.deep(), k3@, v3.deep()),
{
    let mut fields: Vec<(String, JsonValue)> = Vec::new();
    fields.push((k1.to_owned(), v1));
    fields.push((k2.to_owned(), v2));
    fields.push((k3.to_owned(), v3));
    proof {
        lemma_deep_obj_from(fields, 0);
        assert(deep_obj_from(fields, 0) =~= Seq::empty().push((k1@, fields@[0].1.deep())).push(
            (k2@, fields@[1].1.deep()),
        ).push((k3@, fields@[2].1.deep())));
    }
    JsonValue::Obj(fields)
}

/// The schema properties of the declared fields from index `k` on: one
/// schema per field, in order.
pub open spec fn props_from(ds: Seq<FieldV>, k: int) -> Seq<(Seq<char>, Jx)>
    decreases ds, ds.len() - k, 1int,
{
    if k < 0 || k >= ds.len() {
        Seq::empty()
    } else {
        seq![(ds[k].name, schema_of(ds[k].shape))] + props_from(ds, k + 1)
    }
}

/// The names of the required fields from index `k` on, as JSON strings.
pub open spec fn required_from(ds: Seq<FieldV>, k: int) -> Seq<Jx>
    decreases ds.len() - k,
{
    if k < 0 || k >= ds.len() {
        Seq::empty()
    } else if ds[k].required {
        seq![Jx::Str(ds[k].name)] + required_from(ds, k + 1)
    } else {
        required_from(ds, k + 1)
    }
}

/// The JSON Schema of a shape, in the documented subset: scalars map to
/// a `type` object, arrays add `items`, records add `properties` and the
/// names of their required fields.
pub open spec fn schema_of(s: ShapeV) -> Jx
    decreases s, 0int, 0int,
{
    match s {
        ShapeV::Str => obj1("type"@, Jx::Str("string"@)),
        ShapeV::Int => obj1("type"@, Jx::Str("integer"@)),
        ShapeV::Num => obj1("type"@, Jx::Str("number"@)),
        ShapeV::Bool => obj1("type"@, Jx::Str("boolean"@)),
        ShapeV::Array(el) => obj2("type"@, Jx::Str("array"@), "items"@, schema_of(*el)),
        ShapeV::Object(ds) => obj3(
            "type"@,
            Jx::Str("object"@),
            "properties"@,
            Jx::Obj(props_from(ds, 0)),
            "required"@,
            Jx::Arr(required_from(ds, 0)),
        ),
    }
}

/// Whether `j` matches shape `s`: scalars by kind (`number` also accepts
/// integers), arrays element-wise, records field-wise with unknown
/// fields ignored.
pub open spec fn matches_shape(j: Jx, s: ShapeV) -> bool
    decreases s, 0int, 0int,
{
    match s {
        ShapeV::Str => j is Str,
        ShapeV::Int => j is Int,
        ShapeV::Num => j is Int || j is Num,
        ShapeV::Bool => j is Bool,
        ShapeV::Array(el) => match j {
            Jx::Arr(items) => all_match_from(items, *el, 0),
            _ => false,
        },
        ShapeV::Object(ds) => match j {
            Jx::Obj(fs) => fields_match_from(fs, ds, 0),
            _ => false,
        },
    }
}

/// Whether every element of `items` from index `k` on matches `el`.
pub open spec fn all_match_from(items: Seq<Jx>, el: ShapeV, k: int) -> bool
    decreases el, items.len() - k, 1int,
{
    if k < 0 || k >= items.len() {
        true
    } else {
        matches_shape(items[k], el) && all_match_from(items, el, k + 1)
    }
}

/// Whether the object fields `fs` satisfy the declared fields of `ds`
/// from index `k` on: a required field must be present and match; an
/// optional one may be absent or `null`, and must match when present.
pub open spec fn fields_match_from(fs: Seq<(Seq<char>, Jx)>, ds: Seq<FieldV>, k: int) -> bool
    decreases ds, ds.len() - k, 1int,
{
    if k < 0 || k >= ds.len() {
        true
    } else {
        let ok = match obj_lookup(fs, ds[k].name) {
            None => !ds[k].required,
            Some(Jx::Null) => !ds[k].required,
            Some(v) => matches_shape(v, ds[k].shape),
        };
        ok && fields_match_from(fs, ds, k + 1)
    }
}

/// The fields of an object value; the empty sequence otherwise.
pub open spec fn obj_fields(j: Jx) -> Seq<(Seq<char>, Jx)> {
    match j {
        Jx::Obj(fs) => fs,
        _ => Seq::empty(),
    }
}

impl Shape {
    /// The JSON Schema document for this shape, derived once at
    /// registration time.
    pub fn derive_schema(&self) -> (r: JsonValue)
        ensures
            r.deep() == schema_of(self.deep()),
        decreases *self, 0int, 0int,
    {
        match self {
            Shape::Str => json_obj1("type", json_str("string")),
            Shape::Int => json_obj1("type", json_str("integer")),
            Shape::Num => json_obj1("type", json_str("number")),
            Shape::Bool => json_obj1("type", json_str("boolean")),
            Shape::Array(el) => json_obj2("type", json_str("array"), "items", el.derive_schema()),
            Shape::Object(ds) => {
                let props = props_build_from(ds, 0);
                let req = required_build_from(ds, 0);
                proof {
                    crate::json::lemma_deep_obj_from(props, 0);
                }
                json_obj3(
                    "type",
                    json_str("object"),
                    "properties",
                    JsonValue::Obj(props),
                    "required",
                    JsonValue::Arr(req),
                )
            },
        }
    }
}

/// The schema properties of the declared fields from index `k` on.
fn props_build_from(ds: &Vec<FieldDecl>, k: usize) -> (r: Vec<(String, JsonValue)>)
    requires
        k <= ds@.len(),
    ensures
        deep_obj_from(r, 0) == props_from(decls_deep_from(*ds, 0), k as int),
    decreases *ds, ds@.len() - k, 1int,
{
    proof {
        lemma_decls_deep_from(*ds, 0);
    }
    if k == ds.len() {
        let out: Vec<(String, JsonValue)> = Vec::new();
        proof {
            assert(deep_obj_from(out, 0) =~= Seq::<(Seq<char>, Jx)>::empty());
        }
        out
    } else {
        let name = ds[k].name.clone();
        let sch = ds[k].shape.derive_schema();
        let mut rest = props_build_from(ds, k + 1);
        let ghost rest0 = rest;
        rest.insert(0, (name, sch));
        proof {
            lemma_deep_obj_from(rest, 0);
            lemma_deep_obj_from(rest0, 0);
            assert forall|m: int| 0 <= m < rest@.len() implies deep_obj_from(rest, 0)[m] == (
            seq![(ds@[k as int].name@, schema_of(ds@[k as int].shape.deep()))] + deep_obj_from(
                rest0,
                0,
            ))[m] by {
                if m > 0 {
                    assert(rest@[m] == rest0@[m - 1]);
                }
            }
            assert(deep_obj_from(rest, 0) =~= seq![
                (ds@[k as int].name@, schema_of(ds@[k as int].shape.deep())),
            ] + deep_obj_from(rest0, 0));
        }
        rest
    }
}

/// The names of the required fields from index `k` on, as JSON strings.
fn required_build_from(ds: &Vec<FieldDecl>, k: usize) -> (r: Vec<JsonValue>)
    requires
        k <= ds@.len(),
    ensures
        crate::json::deep_arr_from(r, 0) == required_from(decls_deep_from(*ds, 0), k as int),
    decreases ds@.len() - k,
{
    proof {
        lemma_decls_deep_from(*ds, 0);
    }
    if k == ds.len() {
        let out: Vec<JsonValue> = Vec::new();
        proof {
            assert(crate::json::deep_arr_from(out, 0) =~= Seq::<Jx>::empty());
        }
        out
    } else {
        let mut rest = required_build_from(ds, k + 1);
        if ds[k].required {
            let ghost rest0 = rest;
            rest.insert(0, JsonValue::Str(ds[k].name.clone()));
            proof {
                lemma_deep_arr_from(rest, 0);
                lemma_deep_arr_from(rest0, 0);
                assert forall|m: int| 0 <= m < rest@.len() implies crate::json::deep_arr_from(
                    rest,
                    0,
                )[m] == (seq![Jx::Str(ds@[k as int].name@)] + crate::json::deep_arr_from(
                    rest0,
                    0,
                ))[m] by {
                    if m > 0 {
                        assert(rest@[m] == rest0@[m - 1]);
                    }
                }
                assert(crate::json::deep_arr_from(rest, 0) =~= seq![Jx::Str(ds@[k as int].name@)]
                    + crate::json::deep_arr_from(rest0, 0));
            }
        }
        rest
    }
}

/// Whether `v` matches shape `s`, as executable code.
pub fn value_matches(v: &JsonValue, s: &Shape) -> (r: bool)
    ensures
        r == matches_shape(v.deep(), s.deep()),
    decreases *s, 0int, 0int,
{
    match s {
        Shape::Str => matches!(v, JsonValue::Str(_)),
        Shape::Int => matches!(v, JsonValue::Int(_)),
        Shape::Num => matches!(v, JsonValue::Int(_)) || matches!(v, JsonValue::Num(_)),
        Shape::Bool => matches!(v, JsonValue::Bool(_)),
        Shape::Array(el) => match v {
            JsonValue::Arr(items) => elems_match_from(items, el, 0),
            _ => false,
        },
        Shape::Object(ds) => match v {
            JsonValue::Obj(_) => decls_check_from(v, ds, 0),
            _ => false,
        },
    }
}

/// Whether every element of `items` from index `k` on matches `el`.
fn elems_match_from(items: &Vec<JsonValue>, el: &Shape, k: usize) -> (r: bool)
    requires
        k <= items@.len(),
    ensures
        r == all_match_from(crate::json::deep_arr_from(*items, 0), el.deep(), k as int),
    decreases *el, items@.len() - k, 1int,
{
    proof {
        lemma_deep_arr_from(*items, 0);
    }
    if k == items.len() {
        true
    } else {
        value_matches(&items[k], el) && elems_match_from(items, el, k + 1)
    }
}

/// Whether the object `v` satisfies the declared fields from index `k`
/// on.
fn decls_check_from(v: &JsonValue, ds: &Vec<FieldDecl>, k: usize) -> (r: bool)
    requires
        k <= ds@.len(),
        v.deep() is Obj,
    ensures
        r == fields_match_from(obj_fields(v.deep()), decls_deep_from(*ds, 0), k as int),
    decreases *ds, ds@.len() - k, 1int,
{
    proof {
        lemma_decls_deep_from(*ds, 0);
    }
    if k == ds.len() {
        true
    } else {
        let d = &ds[k];
        let ok = match v.get(d.name.as_str()) {
            None => !d.required,
            Some(JsonValue::Null) => !d.required,
            Some(w) => value_matches(w, &d.shape),
        };
        ok && decls_check_from(v, ds, k + 1)
    }
}

} // verus!

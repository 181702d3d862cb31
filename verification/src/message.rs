//! Conversation turns and their parts, with their wire-format JSON
//! encoding and decoding.

use vstd::prelude::*;

use crate::json::deep_arr_from;
use crate::json::get_field;
use crate::json::lemma_deep_arr_from;
use crate::strutil::str_eq;
use crate::json::json_obj1;
use crate::json::json_obj2;
use crate::json::json_str;
use crate::json::obj1;
use crate::json::obj2;
use crate::json::JsonValue;
use crate::json::Jx;

verus! {

/// The sender of a conversation turn.
#[derive(Debug, Clone, Copy, PartialEq, Eq, Structural)]
pub enum Role {
    User,
    Model,
}

/// Inline text.
#[derive(Debug, PartialEq, Eq)]
pub struct Text(pub String);

/// Raw media bytes: a MIME type and base64-encoded data.
#[derive(Debug, PartialEq, Eq)]
pub struct Blob {
    pub mime_type: String,
    pub data: String,
}

/// A function call issued by the model: a tool name with optional JSON
/// arguments.
#[derive(Debug, PartialEq, Eq)]
pub struct FunctionCall {
    pub name: String,
    pub args: Option<JsonValue>,
}

/// The result returned for a function call; `name` echoes the call's
/// name.
#[derive(Debug, PartialEq, Eq)]
pub struct FunctionResponse {
    pub name: String,
    pub response: JsonValue,
}

/// URI-based file data.
#[derive(Debug, PartialEq, Eq)]
pub struct FileData {
    pub mime_type: Option<String>,
    pub file_uri: String,
}

/// One part of a conversation turn.
#[derive(Debug, PartialEq, Eq)]
pub enum Part {
    Text(Text),
    InlineData(Blob),
    FunctionCall(FunctionCall),
    FunctionResponse(FunctionResponse),
    FileData(FileData),
}

/// The ordered parts of one turn.
#[derive(Debug, PartialEq, Eq)]
pub struct Parts(pub Vec<Part>);

/// One conversation turn: a role together with its parts.
#[derive(Debug, PartialEq, Eq)]
pub enum Content {
    User { parts: Parts },
    Model { parts: Parts },
}

/// An ordered sequence of conversation turns.
#[derive(Debug, PartialEq, Eq)]
pub struct Contents(pub Vec<Content>);

/// Model of a function call.
pub struct CallV {
    pub name: Seq<char>,
    pub args: Option<Jx>,
}

/// Model of a function response.
pub struct RespV {
    pub name: Seq<char>,
    pub response: Jx,
}

/// Model of a part.
pub enum PartV {
    Text(Seq<char>),
    InlineData(Seq<char>, Seq<char>),
    FunctionCall(CallV),
    FunctionResponse(RespV),
    FileData(Option<Seq<char>>, Seq<char>),
}

/// Model of a turn.
pub struct ContentV {
    pub role: Role,
    pub parts: Seq<PartV>,
}

impl FunctionCall {
    /// The mathematical model of this call.
    pub open spec fn deep(self) -> CallV {
        CallV {
            name: self.name@,
            args: match self.args {
                Some(a) => Some(a.deep()),
                None => None,
            },
        }
    }
}

impl FunctionResponse {
    /// The mathematical model of this response.
    pub open spec fn deep(self) -> RespV {
        RespV { name: self.name@, response: self.response.deep() }
    }
}

impl Part {
    /// The mathematical model of this part.
    pub open spec fn deep(self) -> PartV {
        match self {
            Part::Text(t) => PartV::Text(t.0@),
            Part::InlineData(b) => PartV::InlineData(b.mime_type@, b.data@),
            Part::FunctionCall(c) => PartV::FunctionCall(c.deep()),
            Part::FunctionResponse(r) => PartV::FunctionResponse(r.deep()),
            Part::FileData(f) => PartV::FileData(
                match f.mime_type {
                    Some(m) => Some(m@),
                    None => None,
                },
                f.file_uri@,
            ),
        }
    }
}

/// The models of the elements of `parts` from index `i` on.
pub open spec fn parts_deep_from(parts: Vec<Part>, i: int) -> Seq<PartV>
    decreases parts.len() - i,
{
    if i < 0 || i >= parts.len() {
        Seq::empty()
    } else {
        seq![parts[i].deep()] + parts_deep_from(parts, i + 1)
    }
}

/// `parts_deep_from` is the element-wise model of the tail of `parts`.
pub proof fn lemma_parts_deep_from(parts: Vec<Part>, i: int)
    requires
        0 <= i <= parts.len(),
    ensures
        parts_deep_from(parts, i).len() == parts.len() - i,
        forall|k: int| i <= k < parts.len() ==> parts_deep_from(parts, i)[k - i]
            == parts[k].deep(),
    decreases parts.len() - i,
{
    if i < parts.len() {
        lemma_parts_deep_from(parts, i + 1);
    }
}

impl Parts {
    /// The mathematical model of this part list.
    pub open spec fn deep(self) -> Seq<PartV> {
        parts_deep_from(self.0, 0)
    }
}

impl Content {
    /// The role of this turn.
    pub open spec fn spec_role(self) -> Role {
        match self {
            Content::User { .. } => Role::User,
            Content::Model { .. } => Role::Model,
        }
    }

    /// The part list of this turn.
    pub open spec fn spec_parts(self) -> Parts {
        match self {
            Content::User { parts } => parts,
            Content::Model { parts } => parts,
        }
    }

    /// The mathematical model of this turn.
    pub open spec fn deep(self) -> ContentV {
        ContentV { role: self.spec_role(), parts: self.spec_parts().deep() }
    }
}

/// The models of the elements of `cs` from index `i` on.
pub open spec fn contents_deep_from(cs: Vec<Content>, i: int) -> Seq<ContentV>
    decreases cs.len() - i,
{
    if i < 0 || i >= cs.len() {
        Seq::empty()
    } else {
        seq![cs[i].deep()] + contents_deep_from(cs, i + 1)
    }
}

/// `contents_deep_from` is the element-wise model of the tail of `cs`.
pub proof fn lemma_contents_deep_from(cs: Vec<Content>, i: int)
    requires
        0 <= i <= cs.len(),
    ensures
        contents_deep_from(cs, i).len() == cs.len() - i,
        forall|k: int| i <= k < cs.len() ==> contents_deep_from(cs, i)[k - i] == cs[k].deep(),
    decreases cs.len() - i,
{
    if i < cs.len() {
        lemma_contents_deep_from(cs, i + 1);
    }
}

impl Contents {
    /// The mathematical model of this turn sequence.
    pub open spec fn deep(self) -> Seq<ContentV> {
        contents_deep_from(self.0, 0)
    }
}

/// The wire spelling of a role.
pub open spec fn role_text(r: Role) -> Seq<char> {
    match r {
        Role::User => "user"@,
        Role::Model => "model"@,
    }
}

/// The wire JSON of a function call: `name`, then `args` (`null` when
/// absent).
pub open spec fn call_jx(c: CallV) -> Jx {
    obj2("name"@, Jx::Str(c.name), "args"@, match c.args {
        Some(a) => a,
        None => Jx::Null,
    })
}

/// The wire JSON of a function response.
pub open spec fn resp_jx(r: RespV) -> Jx {
    obj2("name"@, Jx::Str(r.name), "response"@, r.response)
}

/// The wire JSON of a part: an object with exactly one variant key.
pub open spec fn part_jx(p: PartV) -> Jx {
    match p {
        PartV::Text(s) => obj1("text"@, Jx::Str(s)),
        PartV::InlineData(m, d) => obj1(
            "inlineData"@,
            obj2("mimeType"@, Jx::Str(m), "data"@, Jx::Str(d)),
        ),
        PartV::FunctionCall(c) => obj1("functionCall"@, call_jx(c)),
        PartV::FunctionResponse(r) => obj1("functionResponse"@, resp_jx(r)),
        PartV::FileData(m, u) => obj1(
            "fileData"@,
            obj2("mimeType"@, match m {
                Some(t) => Jx::Str(t),
                None => Jx::Null,
            }, "fileUri"@, Jx::Str(u)),
        ),
    }
}

/// The wire JSON of a part list.
pub open spec fn parts_jx(ps: Seq<PartV>) -> Seq<Jx> {
    ps.map_values(|p: PartV| part_jx(p))
}

/// The wire JSON of a turn: `role`, then `parts`.
pub open spec fn content_jx(c: ContentV) -> Jx {
    obj2("role"@, Jx::Str(role_text(c.role)), "parts"@, Jx::Arr(parts_jx(c.parts)))
}

/// The wire JSON of a turn sequence.
pub open spec fn contents_jx(cs: Seq<ContentV>) -> Seq<Jx> {
    cs.map_values(|c: ContentV| content_jx(c))
}

/// Decoding of a role from its wire JSON.
pub open spec fn parse_role(j: Jx) -> Option<Role> {
    if j == Jx::Str("user"@) {
        Some(Role::User)
    } else if j == Jx::Str("model"@) {
        Some(Role::Model)
    } else {
        None
    }
}

/// Decoding of inline text from a part object.
pub open spec fn parse_text(j: Jx) -> Option<Seq<char>> {
    match get_field(j, "text"@) {
        Some(Jx::Str(s)) => Some(s),
        _ => None,
    }
}

/// Decoding of a function call from its wire JSON: `name` is required;
/// absent or `null` arguments mean no arguments.
pub open spec fn parse_call(j: Jx) -> Option<CallV> {
    match get_field(j, "name"@) {
        Some(Jx::Str(nm)) => Some(
            CallV {
                name: nm,
                args: match get_field(j, "args"@) {
                    Some(Jx::Null) => None,
                    Some(a) => Some(a),
                    None => None,
                },
            },
        ),
        _ => None,
    }
}

/// Decoding of a function response: both fields are required.
pub open spec fn parse_resp(j: Jx) -> Option<RespV> {
    match get_field(j, "name"@) {
        Some(Jx::Str(nm)) => match get_field(j, "response"@) {
            Some(resp) => Some(RespV { name: nm, response: resp }),
            None => None,
        },
        _ => None,
    }
}

/// Decoding of inline media: MIME type and data are required strings.
pub open spec fn parse_blob(j: Jx) -> Option<(Seq<char>, Seq<char>)> {
    match get_field(j, "mimeType"@) {
        Some(Jx::Str(m)) => match get_field(j, "data"@) {
            Some(Jx::Str(d)) => Some((m, d)),
            _ => None,
        },
        _ => None,
    }
}

/// Decoding of file data: the URI is required, the MIME type optional.
pub open spec fn parse_file(j: Jx) -> Option<(Option<Seq<char>>, Seq<char>)> {
    match get_field(j, "fileUri"@) {
        Some(Jx::Str(u)) => match get_field(j, "mimeType"@) {
            Some(Jx::Str(m)) => Some((Some(m), u)),
            Some(Jx::Null) => Some((None, u)),
            Some(_) => None,
            None => Some((None, u)),
        },
        _ => None,
    }
}

/// Decoding of a part: the variant is picked by which key is present.
pub open spec fn parse_part(j: Jx) -> Option<PartV> {
    if get_field(j, "text"@) is Some {
        match parse_text(j) {
            Some(s) => Some(PartV::Text(s)),
            None => None,
        }
    } else if get_field(j, "inlineData"@) is Some {
        match get_field(j, "inlineData"@) {
            Some(b) => match parse_blob(b) {
                Some((m, d)) => Some(PartV::InlineData(m, d)),
                None => None,
            },
            None => None,
        }
    } else if get_field(j, "functionCall"@) is Some {
        match get_field(j, "functionCall"@) {
            Some(c) => match parse_call(c) {
                Some(cv) => Some(PartV::FunctionCall(cv)),
                None => None,
            },
            None => None,
        }
    } else if get_field(j, "functionResponse"@) is Some {
        match get_field(j, "functionResponse"@) {
            Some(fr) => match parse_resp(fr) {
                Some(rv) => Some(PartV::FunctionResponse(rv)),
                None => None,
            },
            None => None,
        }
    } else if get_field(j, "fileData"@) is Some {
        match get_field(j, "fileData"@) {
            Some(f) => match parse_file(f) {
                Some((m, u)) => Some(PartV::FileData(m, u)),
                None => None,
            },
            None => None,
        }
    } else {
        None
    }
}

/// Decoding of a part array: every element must decode.
pub open spec fn parse_parts(items: Seq<Jx>) -> Option<Seq<PartV>>
    decreases items.len(),
{
    if items.len() == 0 {
        Some(Seq::empty())
    } else {
        match parse_part(items[0]) {
            None => None,
            Some(p) => match parse_parts(items.drop_first()) {
                None => None,
                Some(rest) => Some(seq![p] + rest),
            },
        }
    }
}

/// Decoding of a turn: a role and a part array, in any field order.
pub open spec fn parse_content(j: Jx) -> Option<ContentV> {
    match get_field(j, "role"@) {
        Some(rj) => match parse_role(rj) {
            Some(role) => match get_field(j, "parts"@) {
                Some(Jx::Arr(items)) => match parse_parts(items) {
                    Some(ps) => Some(ContentV { role, parts: ps }),
                    None => None,
                },
                Some(_) => None,
                None => None,
            },
            None => None,
        },
        None => None,
    }
}

impl Role {
    /// The wire spelling of this role.
    pub fn as_str(&self) -> (r: &'static str)
        ensures
            r@ == role_text(*self),
    {
        match self {
            Role::User => "user",
            Role::Model => "model",
        }
    }

    /// The wire JSON of this role: a bare string.
    pub fn to_json(&self) -> (r: JsonValue)
        ensures
            r.deep() == Jx::Str(role_text(*self)),
    {
        json_str(self.as_str())
    }
}

impl FunctionCall {
    /// The wire JSON of this call.
    pub fn to_json(&self) -> (r: JsonValue)
        ensures
            r.deep() == call_jx(self.deep()),
    {
        let args = match &self.args {
            Some(a) => a.deep_clone(),
            None => JsonValue::Null,
        };
        json_obj2("name", json_str(self.name.as_str()), "args", args)
    }
}

impl FunctionResponse {
    /// The wire JSON of this response.
    pub fn to_json(&self) -> (r: JsonValue)
        ensures
            r.deep() == resp_jx(self.deep()),
    {
        json_obj2(
            "name",
            json_str(self.name.as_str()),
            "response",
            self.response.deep_clone(),
        )
    }
}

impl Text {
    /// The wire JSON of inline text, keyed as a part.
    pub fn to_json(&self) -> (r: JsonValue)
        ensures
            r.deep() == part_jx(PartV::Text(self.0@)),
    {
        json_obj1("text", json_str(self.0.as_str()))
    }
}

impl Part {
    /// The wire JSON of this part.
    pub fn to_json(&self) -> (r: JsonValue)
        ensures
            r.deep() == part_jx(self.deep()),
    {
        match self {
            Part::Text(t) => t.to_json(),
            Part::InlineData(b) => json_obj1(
                "inlineData",
                json_obj2(
                    "mimeType",
                    json_str(b.mime_type.as_str()),
                    "data",
                    json_str(b.data.as_str()),
                ),
            ),
            Part::FunctionCall(c) => json_obj1("functionCall", c.to_json()),
            Part::FunctionResponse(fr) => json_obj1("functionResponse", fr.to_json()),
            Part::FileData(f) => {
                let mime = match &f.mime_type {
                    Some(m) => json_str(m.as_str()),
                    None => JsonValue::Null,
                };
                json_obj1(
                    "fileData",
                    json_obj2("mimeType", mime, "fileUri", json_str(f.file_uri.as_str())),
                )
            },
        }
    }
}

impl Parts {
    /// The wire JSON of this part list: an array.
    pub fn to_json(&self) -> (r: JsonValue)
        ensures
            r.deep() == Jx::Arr(parts_jx(self.deep())),
    {
        proof {
            lemma_parts_deep_from(self.0, 0);
        }
        let n = self.0.len();
        let mut out: Vec<JsonValue> = Vec::new();
        let mut i: usize = 0;
        while i < n
            invariant
                0 <= i <= n,
                n == self.0@.len(),
                self.deep().len() == n,
                forall|k: int| 0 <= k < n ==> self.deep()[k] == self.0@[k].deep(),
                out@.len() == i,
                forall|k: int| 0 <= k < i ==> out@[k].deep() == part_jx(
                    #[trigger] self.0@[k].deep(),
                ),
            decreases n - i,
        {
            out.push(self.0[i].to_json());
            i = i + 1;
        }
        proof {
            crate::json::lemma_deep_arr_from(out, 0);
            assert forall|k: int| 0 <= k < n implies crate::json::deep_arr_from(out, 0)[k]
                == parts_jx(self.deep())[k] by {
                assert(parts_jx(self.deep())[k] == part_jx(self.deep()[k]));
            }
            assert(crate::json::deep_arr_from(out, 0) =~= parts_jx(self.deep()));
        }
        JsonValue::Arr(out)
    }
}

impl Role {
    /// Decodes a role from its wire JSON.
    pub fn from_json(v: &JsonValue) -> (r: Option<Role>)
        ensures
            r == parse_role(v.deep()),
    {
        match v {
            JsonValue::Str(s) => {
                if str_eq(s.as_str(), "user") {
                    Some(Role::User)
                } else if str_eq(s.as_str(), "model") {
                    Some(Role::Model)
                } else {
                    None
                }
            },
            _ => None,
        }
    }
}

impl Text {
    /// Decodes inline text from a part object.
    pub fn from_json(v: &JsonValue) -> (r: Option<Text>)
        ensures
            r matches Some(t) ==> parse_text(v.deep()) == Some(t.0@),
            r is None ==> parse_text(v.deep()) is None,
    {
        match v.get("text") {
            Some(JsonValue::Str(s)) => Some(Text(s.clone())),
            _ => None,
        }
    }
}

impl FunctionCall {
    /// Decodes a function call from its wire JSON.
    pub fn from_json(v: &JsonValue) -> (r: Option<FunctionCall>)
        ensures
            r matches Some(c) ==> parse_call(v.deep()) == Some(c.deep()),
            r is None ==> parse_call(v.deep()) is None,
    {
        let name = match v.get("name") {
            Some(JsonValue::Str(s)) => s.clone(),
            _ => {
                return None;
            },
        };
        let args = match v.get("args") {
            Some(JsonValue::Null) => None,
            Some(a) => Some(a.deep_clone()),
            None => None,
        };
        Some(FunctionCall { name, args })
    }
}

impl FunctionResponse {
    /// Decodes a function response from its wire JSON.
    pub fn from_json(v: &JsonValue) -> (r: Option<FunctionResponse>)
        ensures
            r matches Some(fr) ==> parse_resp(v.deep()) == Some(fr.deep()),
            r is None ==> parse_resp(v.deep()) is None,
    {
        let name = match v.get("name") {
            Some(JsonValue::Str(s)) => s.clone(),
            _ => {
                return None;
            },
        };
        let response = match v.get("response") {
            Some(resp) => resp.deep_clone(),
            None => {
                return None;
            },
        };
        Some(FunctionResponse { name, response })
    }
}

impl Blob {
    /// Decodes inline media from its wire JSON.
    pub fn from_json(v: &JsonValue) -> (r: Option<Blob>)
        ensures
            r matches Some(b) ==> parse_blob(v.deep()) == Some((b.mime_type@, b.data@)),
            r is None ==> parse_blob(v.deep()) is None,
    {
        let mime_type = match v.get("mimeType") {
            Some(JsonValue::Str(s)) => s.clone(),
            _ => {
                return None;
            },
        };
        let data = match v.get("data") {
            Some(JsonValue::Str(s)) => s.clone(),
            _ => {
                return None;
            },
        };
        Some(Blob { mime_type, data })
    }
}

impl FileData {
    /// Decodes file data from its wire JSON.
    pub fn from_json(v: &JsonValue) -> (r: Option<FileData>)
        ensures
            r matches Some(f) ==> parse_file(v.deep()) == Some(
                (match f.mime_type {
                    Some(m) => Some(m@),
                    None => None,
                }, f.file_uri@),
            ),
            r is None ==> parse_file(v.deep()) is None,
    {
        let file_uri = match v.get("fileUri") {
            Some(JsonValue::Str(s)) => s.clone(),
            _ => {
                return None;
            },
        };
        let mime_type = match v.get("mimeType") {
            Some(JsonValue::Str(s)) => Some(s.clone()),
            Some(JsonValue::Null) => None,
            Some(_) => {
                return None;
            },
            None => None,
        };
        Some(FileData { mime_type, file_uri })
    }
}

impl Part {
    /// Decodes a part from its wire JSON, picking the variant by the key
    /// that is present.
    pub fn from_json(v: &JsonValue) -> (r: Option<Part>)
        ensures
            r matches Some(p) ==> parse_part(v.deep()) == Some(p.deep()),
            r is None ==> parse_part(v.deep()) is None,
    {
        match v.get("text") {
            Some(tv) => {
                return match tv {
                    JsonValue::Str(s) => Some(Part::Text(Text(s.clone()))),
                    _ => None,
                };
            },
            None => {},
        }
        match v.get("inlineData") {
            Some(b) => {
                return match Blob::from_json(b) {
                    Some(bl) => Some(Part::InlineData(bl)),
                    None => None,
                };
            },
            None => {},
        }
        match v.get("functionCall") {
            Some(c) => {
                return match FunctionCall::from_json(c) {
                    Some(fc) => Some(Part::FunctionCall(fc)),
                    None => None,
                };
            },
            None => {},
        }
        match v.get("functionResponse") {
            Some(fr) => {
                return match FunctionResponse::from_json(fr) {
                    Some(resp) => Some(Part::FunctionResponse(resp)),
                    None => None,
                };
            },
            None => {},
        }
        match v.get("fileData") {
            Some(f) => {
                return match FileData::from_json(f) {
                    Some(fd) => Some(Part::FileData(fd)),
                    None => None,
                };
            },
            None => {},
        }
        None
    }
}

/// Unrolling `parse_parts` at the front of a suffix.
proof fn lemma_parse_parts_skip(s: Seq<Jx>, k: int)
    requires
        0 <= k < s.len(),
    ensures
        parse_parts(s.skip(k)) == (match parse_part(s[k]) {
            None => None,
            Some(p) => match parse_parts(s.skip(k + 1)) {
                None => None,
                Some(rest) => Some(seq![p] + rest),
            },
        }),
{
    assert(s.skip(k).len() > 0);
    assert(s.skip(k)[0] == s[k]);
    assert(s.skip(k).drop_first() =~= s.skip(k + 1));
}

/// Decodes the elements of `items` from index `k` on as parts.
fn parts_from_json_from(items: &Vec<JsonValue>, k: usize) -> (r: Option<Vec<Part>>)
    requires
        k <= items@.len(),
    ensures
        r matches Some(ps) ==> parse_parts(deep_arr_from(*items, 0).skip(k as int)) == Some(
            parts_deep_from(ps, 0),
        ),
        r is None ==> parse_parts(deep_arr_from(*items, 0).skip(k as int)) is None,
    decreases items@.len() - k,
{
    proof {
        lemma_deep_arr_from(*items, 0);
    }
    let n = items.len();
    if k == n {
        let out: Vec<Part> = Vec::new();
        proof {
            assert(deep_arr_from(*items, 0).skip(k as int) =~= Seq::<Jx>::empty());
            assert(parts_deep_from(out, 0) =~= Seq::<PartV>::empty());
        }
        Some(out)
    } else {
        proof {
            lemma_parse_parts_skip(deep_arr_from(*items, 0), k as int);
        }
        match Part::from_json(&items[k]) {
            None => None,
            Some(p) => {
                match parts_from_json_from(items, k + 1) {
                    None => None,
                    Some(mut rest) => {
                        let ghost rest0 = rest;
                        rest.insert(0, p);
                        proof {
                            lemma_parts_deep_from(rest, 0);
                            lemma_parts_deep_from(rest0, 0);
                            assert forall|m: int| 0 <= m < rest@.len() implies parts_deep_from(
                                rest,
                                0,
                            )[m] == (seq![p.deep()] + parts_deep_from(rest0, 0))[m] by {
                                if m > 0 {
                                    assert(rest@[m] == rest0@[m - 1]);
                                }
                            }
                            assert(parts_deep_from(rest, 0) =~= seq![p.deep()] + parts_deep_from(
                                rest0,
                                0,
                            ));
                        }
                        Some(rest)
                    },
                }
            },
        }
    }
}

impl Content {
    /// Decodes a turn from its wire JSON.
    pub fn from_json(v: &JsonValue) -> (r: Option<Content>)
        ensures
            r matches Some(c) ==> parse_content(v.deep()) == Some(c.deep()),
            r is None ==> parse_content(v.deep()) is None,
    {
        let role = match v.get("role") {
            Some(rv) => match Role::from_json(rv) {
                Some(role) => role,
                None => {
                    return None;
                },
            },
            None => {
                return None;
            },
        };
        match v.get("parts") {
            Some(pv) => match pv {
                JsonValue::Arr(items) => {
                    proof {
                        assert(deep_arr_from(*items, 0).skip(0) =~= deep_arr_from(*items, 0));
                    }
                    match parts_from_json_from(items, 0) {
                        Some(ps) => Some(
                            match role {
                                Role::User => Content::User { parts: Parts(ps) },
                                Role::Model => Content::Model { parts: Parts(ps) },
                            },
                        ),
                        None => None,
                    }
                },
                _ => None,
            },
            None => None,
        }
    }

    /// The wire JSON of this turn: `role`, then `parts`.
    pub fn to_json(&self) -> (r: JsonValue)
        ensures
            r.deep() == content_jx(self.deep()),
    {
        let role_json = match self {
            Content::User { .. } => json_str("user"),
            Content::Model { .. } => json_str("model"),
        };
        let parts_json = match self {
            Content::User { parts } => parts.to_json(),
            Content::Model { parts } => parts.to_json(),
        };
        json_obj2("role", role_json, "parts", parts_json)
    }
}

/// The function calls among `ps`, in order.
pub open spec fn calls_of(ps: Seq<PartV>) -> Seq<CallV>
    decreases ps.len(),
{
    if ps.len() == 0 {
        Seq::empty()
    } else {
        match ps[0] {
            PartV::FunctionCall(c) => seq![c] + calls_of(ps.drop_first()),
            _ => calls_of(ps.drop_first()),
        }
    }
}

/// The call of `p` as a sequence: one element for a function call,
/// nothing otherwise.
pub open spec fn one_call(p: PartV) -> Seq<CallV> {
    match p {
        PartV::FunctionCall(c) => seq![c],
        _ => Seq::empty(),
    }
}

/// `calls_of` of one more part at the end.
pub proof fn lemma_calls_of_push(ps: Seq<PartV>, p: PartV)
    ensures
        calls_of(ps.push(p)) =~= calls_of(ps) + one_call(p),
    decreases ps.len(),
{
    if ps.len() == 0 {
        reveal_with_fuel(calls_of, 3);
        assert(ps.push(p)[0] == p);
        assert(ps.push(p).drop_first() =~= Seq::<PartV>::empty());
        assert(calls_of(ps) =~= Seq::<CallV>::empty());
        match p {
            PartV::FunctionCall(c) => {
                assert(calls_of(ps.push(p)) =~= seq![c]);
                assert(calls_of(ps) + one_call(p) =~= seq![c]);
            },
            _ => {
                assert(calls_of(ps.push(p)) =~= Seq::<CallV>::empty());
                assert(calls_of(ps) + one_call(p) =~= Seq::<CallV>::empty());
            },
        }
    } else {
        assert(ps.push(p)[0] == ps[0]);
        assert(ps.push(p).drop_first() =~= ps.drop_first().push(p));
        lemma_calls_of_push(ps.drop_first(), p);
        assert(calls_of(ps.push(p).drop_first()) == calls_of(ps.drop_first().push(p)));
        match ps[0] {
            PartV::FunctionCall(c0) => {
                assert(calls_of(ps.push(p)) == seq![c0] + calls_of(ps.drop_first().push(p)));
                assert(calls_of(ps) == seq![c0] + calls_of(ps.drop_first()));
                assert(calls_of(ps.push(p)) =~= calls_of(ps) + one_call(p));
            },
            _ => {
                assert(calls_of(ps.push(p)) == calls_of(ps.drop_first().push(p)));
                assert(calls_of(ps) == calls_of(ps.drop_first()));
                assert(calls_of(ps.push(p)) =~= calls_of(ps) + one_call(p));
            },
        }
    }
}

impl Content {
    /// An empty turn with role `User`.
    pub fn user() -> (r: Content)
        ensures
            r.deep().role == Role::User,
            r.deep().parts == Seq::<PartV>::empty(),
    {
        let r = Content::User { parts: Parts(Vec::new()) };
        proof {
            assert(r.deep().parts =~= Seq::<PartV>::empty());
        }
        r
    }

    /// An empty turn with role `Model`.
    pub fn model() -> (r: Content)
        ensures
            r.deep().role == Role::Model,
            r.deep().parts == Seq::<PartV>::empty(),
    {
        let r = Content::Model { parts: Parts(Vec::new()) };
        proof {
            assert(r.deep().parts =~= Seq::<PartV>::empty());
        }
        r
    }

    /// The parts of this turn.
    pub fn parts(&self) -> (r: &Parts)
        ensures
            *r == self.spec_parts(),
    {
        match self {
            Content::User { parts } => parts,
            Content::Model { parts } => parts,
        }
    }

    /// This turn with its parts replaced.
    pub fn set_parts(self, parts: Vec<Part>) -> (r: Content)
        ensures
            r.spec_role() == self.spec_role(),
            r.spec_parts() == Parts(parts),
    {
        match self {
            Content::User { .. } => Content::User { parts: Parts(parts) },
            Content::Model { .. } => Content::Model { parts: Parts(parts) },
        }
    }

    /// Appends one part to this turn.
    pub fn push_part(&mut self, part: Part)
        ensures
            final(self).spec_role() == old(self).spec_role(),
            final(self).spec_parts().0@ == old(self).spec_parts().0@.push(part),
    {
        match self {
            Content::User { parts } => parts.0.push(part),
            Content::Model { parts } => parts.0.push(part),
        }
    }

    /// This turn with one part appended.
    pub fn add_part(self, part: Part) -> (r: Content)
        ensures
            r.spec_role() == self.spec_role(),
            r.spec_parts().0@ == self.spec_parts().0@.push(part),
    {
        let mut c = self;
        c.push_part(part);
        c
    }

    /// `Some(self)` when this turn's role is `User`.
    pub fn as_user(&self) -> (r: Option<&Content>)
        ensures
            self.spec_role() == Role::User ==> r == Some(self),
            self.spec_role() == Role::Model ==> r is None,
    {
        match self {
            Content::User { .. } => Some(self),
            Content::Model { .. } => None,
        }
    }

    /// This turn, which must have role `User`.
    pub fn expect_user(&self) -> (r: &Content)
        requires
            self.spec_role() == Role::User,
        ensures
            r == self,
    {
        match self.as_user() {
            Some(c) => c,
            None => unreached(),
        }
    }

    /// `Some(self)` when this turn's role is `Model`.
    pub fn as_model(&self) -> (r: Option<&Content>)
        ensures
            self.spec_role() == Role::Model ==> r == Some(self),
            self.spec_role() == Role::User ==> r is None,
    {
        match self {
            Content::Model { .. } => Some(self),
            Content::User { .. } => None,
        }
    }

    /// This turn, which must have role `Model`.
    pub fn expect_model(&self) -> (r: &Content)
        requires
            self.spec_role() == Role::Model,
        ensures
            r == self,
    {
        match self.as_model() {
            Some(c) => c,
            None => unreached(),
        }
    }
}

impl Part {
    /// `Some` of the text when this part is inline text.
    pub fn as_text(&self) -> (r: Option<&Text>)
        ensures
            match r {
                Some(t) => self.deep() == PartV::Text(t.0@),
                None => !(self.deep() is Text),
            },
    {
        match self {
            Part::Text(t) => Some(t),
            _ => None,
        }
    }

    /// The text of this part, which must be inline text.
    pub fn expect_text(&self) -> (r: &Text)
        requires
            self.deep() is Text,
        ensures
            self.deep() == PartV::Text(r.0@),
    {
        match self.as_text() {
            Some(t) => t,
            None => unreached(),
        }
    }

    /// `Some` of the media when this part is inline media.
    pub fn as_inline_data(&self) -> (r: Option<&Blob>)
        ensures
            match r {
                Some(b) => self.deep() == PartV::InlineData(b.mime_type@, b.data@),
                None => !(self.deep() is InlineData),
            },
    {
        match self {
            Part::InlineData(b) => Some(b),
            _ => None,
        }
    }

    /// The media of this part, which must be inline media.
    pub fn expect_inline_data(&self) -> (r: &Blob)
        requires
            self.deep() is InlineData,
        ensures
            self.deep() == PartV::InlineData(r.mime_type@, r.data@),
    {
        match self.as_inline_data() {
            Some(b) => b,
            None => unreached(),
        }
    }

    /// `Some` of the call when this part is a function call.
    pub fn as_function_call(&self) -> (r: Option<&FunctionCall>)
        ensures
            match r {
                Some(c) => self.deep() == PartV::FunctionCall(c.deep()),
                None => !(self.deep() is FunctionCall),
            },
    {
        match self {
            Part::FunctionCall(c) => Some(c),
            _ => None,
        }
    }

    /// The call of this part, which must be a function call.
    pub fn expect_function_call(&self) -> (r: &FunctionCall)
        requires
            self.deep() is FunctionCall,
        ensures
            self.deep() == PartV::FunctionCall(r.deep()),
    {
        match self.as_function_call() {
            Some(c) => c,
            None => unreached(),
        }
    }

    /// `Some` of the response when this part is a function response.
    pub fn as_function_response(&self) -> (r: Option<&FunctionResponse>)
        ensures
            match r {
                Some(fr) => self.deep() == PartV::FunctionResponse(fr.deep()),
                None => !(self.deep() is FunctionResponse),
            },
    {
        match self {
            Part::FunctionResponse(fr) => Some(fr),
            _ => None,
        }
    }

    /// The response of this part, which must be a function response.
    pub fn expect_function_response(&self) -> (r: &FunctionResponse)
        requires
            self.deep() is FunctionResponse,
        ensures
            self.deep() == PartV::FunctionResponse(r.deep()),
    {
        match self.as_function_response() {
            Some(fr) => fr,
            None => unreached(),
        }
    }

    /// `Some` of the file data when this part is file data.
    pub fn as_file_data(&self) -> (r: Option<&FileData>)
        ensures
            match r {
                Some(f) => self.deep() == PartV::FileData(
                    match f.mime_type {
                        Some(m) => Some(m@),
                        None => None,
                    },
                    f.file_uri@,
                ),
                None => !(self.deep() is FileData),
            },
    {
        match self {
            Part::FileData(f) => Some(f),
            _ => None,
        }
    }

    /// The file data of this part, which must be file data.
    pub fn expect_file_data(&self) -> (r: &FileData)
        requires
            self.deep() is FileData,
        ensures
            self.deep() is FileData,
    {
        match self.as_file_data() {
            Some(f) => f,
            None => unreached(),
        }
    }
}

impl Parts {
    /// The number of parts.
    pub fn len(&self) -> (r: usize)
        ensures
            r == self.0@.len(),
    {
        self.0.len()
    }

    /// Whether there are no parts.
    pub fn is_empty(&self) -> (r: bool)
        ensures
            r == (self.0@.len() == 0),
    {
        self.0.len() == 0
    }

    /// Appends one part.
    pub fn push(&mut self, part: Part)
        ensures
            final(self).0@ == old(self).0@.push(part),
    {
        self.0.push(part);
    }

    /// The function calls among these parts, in order.
    pub fn get_function_calls(&self) -> (r: Vec<&FunctionCall>)
        ensures
            r@.len() == calls_of(self.deep()).len(),
            forall|m: int| 0 <= m < r@.len() ==> r@[m].deep() == calls_of(self.deep())[m],
    {
        proof {
            lemma_parts_deep_from(self.0, 0);
        }
        let ghost whole = self.deep();
        let n = self.0.len();
        let mut out: Vec<&FunctionCall> = Vec::new();
        let mut i: usize = 0;
        proof {
            assert(whole.subrange(0, 0) =~= Seq::<PartV>::empty());
        }
        while i < n
            invariant
                0 <= i <= n,
                n == self.0@.len(),
                whole == self.deep(),
                whole.len() == n,
                forall|k: int| 0 <= k < n ==> whole[k] == self.0@[k].deep(),
                out@.len() == calls_of(whole.subrange(0, i as int)).len(),
                forall|m: int| 0 <= m < out@.len() ==> out@[m].deep() == calls_of(
                    whole.subrange(0, i as int),
                )[m],
            decreases n - i,
        {
            proof {
                assert(whole.subrange(0, i + 1) =~= whole.subrange(0, i as int).push(
                    whole[i as int],
                ));
                lemma_calls_of_push(whole.subrange(0, i as int), whole[i as int]);
            }
            match &self.0[i] {
                Part::FunctionCall(c) => {
                    out.push(c);
                },
                _ => {},
            }
            i = i + 1;
        }
        proof {
            assert(whole.subrange(0, n as int) =~= whole);
        }
        out
    }
}

impl Contents {
    /// Appends one turn.
    pub fn push(&mut self, content: Content)
        ensures
            final(self).0@ == old(self).0@.push(content),
    {
        self.0.push(content);
    }

    /// The number of turns.
    pub fn len(&self) -> (r: usize)
        ensures
            r == self.0@.len(),
    {
        self.0.len()
    }

    /// Whether there are no turns.
    pub fn is_empty(&self) -> (r: bool)
        ensures
            r == (self.0@.len() == 0),
    {
        self.0.len() == 0
    }
}

} // verus!

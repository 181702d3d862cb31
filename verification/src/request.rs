//! Outgoing generation requests, their wire JSON, the request URLs, and
//! the interpretation of a raw HTTP reply into a response or a
//! structured error.

use vstd::prelude::*;

use crate::json::get_field;
use crate::json::json_str;
use crate::json::JsonValue;
use crate::json::Jx;
use crate::message::content_jx;
use crate::message::contents_jx;
use crate::message::Content;
use crate::message::Contents;
use crate::parse::parse_json;
use crate::parse::sp_json;
use crate::response::parse_response;
use crate::response::GenerateContentResponse;
use crate::safety::settings_jx_from;
use crate::safety::SafetySettings;
use crate::strutil::opt_text;
use crate::strutil::str_concat;
use crate::tools::tools_jx;
use crate::tools::ToolBox;

verus! {

/// A failure of a send or stream operation.  Dispatch failures never
/// appear here: they are turned into function responses instead.
#[derive(Debug, PartialEq, Eq)]
pub enum ApiRequestError {
    /// The transport failed; carries the transport's own message.
    TransportFailure(String),
    /// The API rejected the request.
    InvalidRequestError {
        code: Option<String>,
        details: JsonValue,
        message: String,
        status: Option<String>,
    },
    /// The reply could not be read as a response.
    UnexpectedResponse { response: String },
    /// A streamed frame held data that could not be decoded; carries
    /// the raw offending text.
    InvalidEventData(String),
    /// The API reported rate limiting.
    RateLimit,
    /// The conversation loop reached its configured iteration bound.
    LoopIterationExceeded { iterations: u64 },
}

/// The detail carried by an API error reply.
#[derive(Debug, PartialEq, Eq)]
pub struct ApiErrorDetail {
    pub message: String,
    pub param: Option<String>,
    pub code: Option<String>,
}

/// The rendered text of an error detail: the message, then the
/// parameter and code when present.
pub open spec fn detail_text(
    message: Seq<char>,
    param: Option<Seq<char>>,
    code: Option<Seq<char>>,
) -> Seq<char> {
    message + (match param {
        Some(p) => " (parameter: "@ + p + ")"@,
        None => Seq::<char>::empty(),
    }) + (match code {
        Some(c) => " (code: "@ + c + ")"@,
        None => Seq::<char>::empty(),
    })
}

impl ApiErrorDetail {
    /// The rendered text of this detail.
    pub fn text(&self) -> (r: String)
        ensures
            r@ == detail_text(self.message@, opt_text(self.param), opt_text(self.code)),
    {
        let mut s = self.message.clone();
        match &self.param {
            Some(p) => {
                s = str_concat(s, " (parameter: ");
                s = str_concat(s, p.as_str());
                s = str_concat(s, ")");
            },
            None => {},
        }
        match &self.code {
            Some(c) => {
                s = str_concat(s, " (code: ");
                s = str_concat(s, c.as_str());
                s = str_concat(s, ")");
            },
            None => {},
        }
        proof {
            assert(s@ =~= detail_text(self.message@, opt_text(self.param), opt_text(self.code)));
        }
        s
    }
}

/// A field of the error object of an error reply; `Null` when absent.
pub open spec fn err_field(j: Jx, key: Seq<char>) -> Jx {
    match get_field(j, "error"@) {
        Some(ej) => match get_field(ej, key) {
            Some(v) => v,
            None => Jx::Null,
        },
        None => Jx::Null,
    }
}

/// A string field of the error object, when it is a string.
pub open spec fn err_str_field(j: Jx, key: Seq<char>) -> Option<Seq<char>> {
    match err_field(j, key) {
        Jx::Str(s) => Some(s),
        _ => None,
    }
}

/// Reads one field of the error object of `v`, as `Null` when absent.
fn get_err_field(v: &JsonValue, key: &str) -> (r: JsonValue)
    ensures
        r.deep() == err_field(v.deep(), key@),
{
    match v.get("error") {
        Some(ej) => match ej.get(key) {
            Some(w) => w.deep_clone(),
            None => JsonValue::Null,
        },
        None => JsonValue::Null,
    }
}

/// Reads one string field of the error object of `v`.
fn get_err_str(v: &JsonValue, key: &str) -> (r: Option<String>)
    ensures
        opt_text(r) == err_str_field(v.deep(), key@),
{
    match v.get("error") {
        Some(ej) => match ej.get(key) {
            Some(JsonValue::Str(s)) => Some(s.clone()),
            _ => None,
        },
        None => None,
    }
}

/// Interprets a raw HTTP reply.  A success status must carry a response
/// body; 429 reports rate limiting; any other status is an API
/// rejection whose code, details, message and status are taken from the
/// error body, with `no message` standing in for a missing message.
pub fn interpret_response(status: u16, body: &str) -> (r: Result<
    GenerateContentResponse,
    ApiRequestError,
>)
    ensures
        (status == 200 || status == 201) ==> match sp_json(body@) {
            Some(j) => match parse_response(j) {
                Some(rv) => r matches Ok(resp) && resp.deep() == rv,
                None => r matches Err(e) && (e matches ApiRequestError::UnexpectedResponse {
                    response,
                } && response@ == body@),
            },
            None => r matches Err(e) && (e matches ApiRequestError::UnexpectedResponse {
                response,
            } && response@ == body@),
        },
        status == 429 ==> (r matches Err(e) && e is RateLimit),
        (status != 200 && status != 201 && status != 429) ==> match sp_json(body@) {
            Some(j) => r matches Err(e) && (e matches ApiRequestError::InvalidRequestError {
                code,
                details,
                message,
                status: st,
            } && opt_text(code) == err_str_field(j, "code"@) && details.deep() == err_field(
                j,
                "details"@,
            ) && message@ == (match err_str_field(j, "message"@) {
                Some(m) => m,
                None => "no message"@,
            }) && opt_text(st) == err_str_field(j, "status"@)),
            None => r matches Err(e) && (e matches ApiRequestError::UnexpectedResponse {
                response,
            } && response@ == body@),
        },
{
    if status == 200 || status == 201 {
        match parse_json(body) {
            Some(v) => match GenerateContentResponse::from_json(&v) {
                Some(resp) => Ok(resp),
                None => Err(ApiRequestError::UnexpectedResponse { response: body.to_owned() }),
            },
            None => Err(ApiRequestError::UnexpectedResponse { response: body.to_owned() }),
        }
    } else if status == 429 {
        Err(ApiRequestError::RateLimit)
    } else {
        match parse_json(body) {
            Some(v) => {
                let message = match get_err_str(&v, "message") {
                    Some(m) => m,
                    None => "no message".to_owned(),
                };
                Err(
                    ApiRequestError::InvalidRequestError {
                        code: get_err_str(&v, "code"),
                        details: get_err_field(&v, "details"),
                        message,
                        status: get_err_str(&v, "status"),
                    },
                )
            },
            None => Err(ApiRequestError::UnexpectedResponse { response: body.to_owned() }),
        }
    }
}

/// The base address of the generation service.
pub open spec fn base_url_text() -> Seq<char> {
    "https://generativelanguage.googleapis.com"@
}

/// The address a request is sent to.
pub open spec fn request_url_text(
    api_version: Seq<char>,
    model: Seq<char>,
    api_key: Seq<char>,
    stream: bool,
) -> Seq<char> {
    base_url_text() + "/"@ + api_version + "/models/"@ + model + (if stream {
        ":streamGenerateContent?alt=sse&key="@
    } else {
        ":generateContent?key="@
    }) + api_key
}

/// Builds the address a request is sent to.
pub fn request_url(api_version: &str, model: &str, api_key: &str, stream: bool) -> (r: String)
    ensures
        r@ == request_url_text(api_version@, model@, api_key@, stream),
{
    let mut url = str_concat("https://generativelanguage.googleapis.com".to_owned(), "/");
    url = str_concat(url, api_version);
    url = str_concat(url, "/models/");
    url = str_concat(url, model);
    url = if stream {
        str_concat(url, ":streamGenerateContent?alt=sse&key=")
    } else {
        str_concat(url, ":generateContent?key=")
    };
    url = str_concat(url, api_key);
    proof {
        assert(url@ =~= request_url_text(api_version@, model@, api_key@, stream));
    }
    url
}

impl Contents {
    /// The wire JSON of this turn sequence: an array.
    pub fn to_json(&self) -> (r: JsonValue)
        ensures
            r.deep() == Jx::Arr(contents_jx(self.deep())),
    {
        proof {
            crate::message::lemma_contents_deep_from(self.0, 0);
        }
        let n = self.0.len();
        let mut out: Vec<JsonValue> = Vec::new();
        let mut i: usize = 0;
        while i < n
            invariant
                0 <= i <= n,
                n == self.0@.len(),
                self.deep().len() == n,
                forall|k: int| 0 <= k < n ==> self.deep()[k] == self.0@[k].deep(),
                out@.len() == i,
                forall|k: int| 0 <= k < i ==> out@[k].deep() == content_jx(
                    #[trigger] self.0@[k].deep(),
                ),
            decreases n - i,
        {
            out.push(self.0[i].to_json());
            i = i + 1;
        }
        proof {
            crate::json::lemma_deep_arr_from(out, 0);
            assert forall|k: int| 0 <= k < n implies crate::json::deep_arr_from(out, 0)[k]
                == contents_jx(self.deep())[k] by {
                assert(contents_jx(self.deep())[k] == content_jx(self.deep()[k]));
            }
            assert(crate::json::deep_arr_from(out, 0) =~= contents_jx(self.deep()));
        }
        JsonValue::Arr(out)
    }
}

/// One generation request: the conversation so far, the registry whose
/// declarations are sent along, optional safety settings, an optional
/// system instruction, optional generation options already rendered as
/// JSON, and the model name.
#[derive(Debug)]
pub struct GenerateContentRequest<T> {
    pub contents: Contents,
    pub tools: ToolBox<T>,
    pub safety_settings: Option<SafetySettings>,
    pub system_instruction: Option<Content>,
    pub generation_config: Option<JsonValue>,
    pub model: String,
}

impl<T> GenerateContentRequest<T> {
    /// The fields of this request's wire JSON, in order.  Empty
    /// registries and absent options are omitted entirely.
    pub open spec fn request_fields(self) -> Seq<(Seq<char>, Jx)> {
        let s = Seq::empty().push(("contents"@, Jx::Arr(contents_jx(self.contents.deep()))));
        let s = if self.tools.deep().len() == 0 {
            s
        } else {
            s.push(("tools"@, tools_jx(self.tools.deep())))
        };
        let s = match self.safety_settings {
            Some(ss) => s.push(("safety_settings"@, Jx::Arr(settings_jx_from(ss.0@, 0)))),
            None => s,
        };
        let s = match self.system_instruction {
            Some(c) => s.push(("system_instruction"@, content_jx(c.deep()))),
            None => s,
        };
        let s = match self.generation_config {
            Some(g) => s.push(("generation_config"@, g.deep())),
            None => s,
        };
        s.push(("model"@, Jx::Str(self.model@)))
    }

    /// The wire JSON of this request.
    pub open spec fn jx(self) -> Jx {
        Jx::Obj(self.request_fields())
    }

    /// Appends one turn to the request.
    pub fn add_content(&mut self, content: Content)
        ensures
            final(self).contents.0@ == old(self).contents.0@.push(content),
            final(self).tools == old(self).tools,
            final(self).safety_settings == old(self).safety_settings,
            final(self).system_instruction == old(self).system_instruction,
            final(self).generation_config == old(self).generation_config,
            final(self).model == old(self).model,
    {
        self.contents.push(content);
    }

    /// Renders this request to its wire JSON.
    pub fn to_json(&self) -> (r: JsonValue)
        ensures
            r.deep() == self.jx(),
    {
        let mut fields: Vec<(String, JsonValue)> = Vec::new();
        fields.push(("contents".to_owned(), self.contents.to_json()));
        let ghost g1 = Seq::<(Seq<char>, Jx)>::empty().push(
            ("contents"@, Jx::Arr(contents_jx(self.contents.deep()))),
        );
        proof {
            assert(fields@.len() == g1.len());
            assert(forall|m: int| 0 <= m < g1.len() ==> ((#[trigger] fields@[m]).0@,
            fields@[m].1.deep()) == g1[m]);
        }
        if !self.tools.is_empty() {
            fields.push(("tools".to_owned(), self.tools.declarations_json()));
        }
        let ghost g2 = if self.tools.deep().len() == 0 {
            g1
        } else {
            g1.push(("tools"@, tools_jx(self.tools.deep())))
        };
        proof {
            assert(fields@.len() == g2.len());
            assert(forall|m: int| 0 <= m < g2.len() ==> ((#[trigger] fields@[m]).0@,
            fields@[m].1.deep()) == g2[m]);
        }
        match &self.safety_settings {
            Some(ss) => {
                fields.push(("safety_settings".to_owned(), ss.to_json()));
            },
            None => {},
        }
        let ghost g3 = match &self.safety_settings {
            Some(ss) => g2.push(("safety_settings"@, Jx::Arr(settings_jx_from(ss.0@, 0)))),
            None => g2,
        };
        proof {
            assert(fields@.len() == g3.len());
            assert(forall|m: int| 0 <= m < g3.len() ==> ((#[trigger] fields@[m]).0@,
            fields@[m].1.deep()) == g3[m]);
        }
        match &self.system_instruction {
            Some(c) => {
                fields.push(("system_instruction".to_owned(), c.to_json()));
            },
            None => {},
        }
        let ghost g4 = match &self.system_instruction {
            Some(c) => g3.push(("system_instruction"@, content_jx(c.deep()))),
            None => g3,
        };
        proof {
            assert(fields@.len() == g4.len());
            assert(forall|m: int| 0 <= m < g4.len() ==> ((#[trigger] fields@[m]).0@,
            fields@[m].1.deep()) == g4[m]);
        }
        match &self.generation_config {
            Some(g) => {
                fields.push(("generation_config".to_owned(), g.deep_clone()));
            },
            None => {},
        }
        let ghost g5 = match &self.generation_config {
            Some(g) => g4.push(("generation_config"@, g.deep())),
            None => g4,
        };
        proof {
            assert(fields@.len() == g5.len());
            assert(forall|m: int| 0 <= m < g5.len() ==> ((#[trigger] fields@[m]).0@,
            fields@[m].1.deep()) == g5[m]);
        }
        fields.push(("model".to_owned(), json_str(self.model.as_str())));
        proof {
            crate::json::lemma_deep_obj_from(fields, 0);
            assert(self.request_fields() == g5.push(("model"@, Jx::Str(self.model@))));
            assert forall|m: int| 0 <= m < fields@.len() implies crate::json::deep_obj_from(
                fields,
                0,
            )[m] == self.request_fields()[m] by {
                assert(crate::json::deep_obj_from(fields, 0)[m] == (fields@[m].0@,
                fields@[m].1.deep()));
            }
            assert(crate::json::deep_obj_from(fields, 0) =~= self.request_fields());
        }
        JsonValue::Obj(fields)
    }
}

} // verus!

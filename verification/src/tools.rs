//! The tool-calling subsystem: a registry of named tools with derived
//! schemas, a dispatcher that converts every failure into a well-formed
//! function response, and a type-keyed context for handler resources.

use vstd::prelude::*;

use crate::json::deep_obj_from;
use crate::json::json_obj1;
use crate::json::json_str;
use crate::json::lemma_deep_obj_from;
use crate::json::obj1;
use crate::json::obj_lookup;
use crate::json::wf;
use crate::json::JsonValue;
use crate::json::Jx;
use crate::message::FunctionCall;
use crate::message::FunctionResponse;
use crate::parse::is_ws;
use crate::parse::sp_json;
use crate::schema::matches_shape;
use crate::schema::schema_of;
use crate::schema::value_matches;
use crate::schema::Shape;
use crate::schema::ShapeV;
use crate::strutil::opt_text;
use crate::strutil::str_concat;
use crate::strutil::str_eq;
use crate::strutil::str_to_chars;

verus! {

/// A failure while dispatching a function call.  None of these is ever
/// surfaced as a failure of the overall request: each is converted into
/// the payload of a function response.
#[derive(Debug, PartialEq, Eq)]
pub enum FunctionCallError {
    ExecutionFailed(String),
    ToolNotFound(String),
    InputDeserializationFailed(String),
    OutputSerializationFailed(String),
    SchemaGenerationFailed(String),
}

/// The report for an unknown tool name.
pub open spec fn not_found_text(name: Seq<char>) -> Seq<char> {
    "Tool not found: "@ + name
}

/// The report for arguments that do not deserialize into the tool's
/// declared input shape.
pub open spec fn input_deser_text(detail: Seq<char>) -> Seq<char> {
    "input deserialization failed: "@ + detail
}

/// The report for a tool output that cannot be serialized.
pub open spec fn output_ser_text(detail: Seq<char>) -> Seq<char> {
    "output serialization failed: "@ + detail
}

/// The message text of a dispatch failure.
pub open spec fn error_text(e: FunctionCallError) -> Seq<char> {
    match e {
        FunctionCallError::ExecutionFailed(d) => "Failed to execute tool: "@ + d@,
        FunctionCallError::ToolNotFound(d) => not_found_text(d@),
        FunctionCallError::InputDeserializationFailed(d) => input_deser_text(d@),
        FunctionCallError::OutputSerializationFailed(d) => output_ser_text(d@),
        FunctionCallError::SchemaGenerationFailed(d) => "Failed to generate input schema: "@
            + d@,
    }
}

impl FunctionCallError {
    /// The message for this failure.
    pub fn message(&self) -> (r: String)
        ensures
            r@ == error_text(*self),
    {
        match self {
            FunctionCallError::ExecutionFailed(d) => str_concat(
                "Failed to execute tool: ".to_owned(),
                d.as_str(),
            ),
            FunctionCallError::ToolNotFound(d) => str_concat(
                "Tool not found: ".to_owned(),
                d.as_str(),
            ),
            FunctionCallError::InputDeserializationFailed(d) => str_concat(
                "input deserialization failed: ".to_owned(),
                d.as_str(),
            ),
            FunctionCallError::OutputSerializationFailed(d) => str_concat(
                "output serialization failed: ".to_owned(),
                d.as_str(),
            ),
            FunctionCallError::SchemaGenerationFailed(d) => str_concat(
                "Failed to generate input schema: ".to_owned(),
                d.as_str(),
            ),
        }
    }
}

/// The JSON payload that reports a dispatch failure to the model.
pub open spec fn err_payload(msg: Seq<char>) -> Jx {
    obj1("error"@, Jx::Str(msg))
}

/// A resource bag for handlers, keyed by a caller-chosen identity
/// (typically the name of the resource's type).  An insertion shadows
/// any earlier entry under the same key; retrieval returns a copy of
/// the newest entry, never an alias, so handlers cannot corrupt the
/// canonical value.
#[derive(Debug)]
pub struct ToolContext {
    entries: Vec<(String, JsonValue)>,
}

impl ToolContext {
    /// The mathematical model: key-value pairs, newest first.
    pub closed spec fn deep(self) -> Seq<(Seq<char>, Jx)> {
        deep_obj_from(self.entries, 0)
    }

    /// An empty context.
    pub fn new() -> (r: ToolContext)
        ensures
            r.deep() == Seq::<(Seq<char>, Jx)>::empty(),
    {
        let r = ToolContext { entries: Vec::new() };
        proof {
            assert(r.deep() =~= Seq::<(Seq<char>, Jx)>::empty());
        }
        r
    }

    /// Stores `value` under `key`, replacing what any later `get` sees
    /// for that key and leaving every other key unchanged.
    pub fn set(&mut self, key: &str, value: JsonValue)
        ensures
            obj_lookup(final(self).deep(), key@) == Some(value.deep()),
            forall|k2: Seq<char>| k2 != key@ ==> #[trigger] obj_lookup(final(self).deep(), k2)
                == obj_lookup(old(self).deep(), k2),
    {
        let ghost old_deep = self.deep();
        let ghost pair = (key@, value.deep());
        self.entries.insert(0, (key.to_owned(), value));
        proof {
            lemma_deep_obj_from(self.entries, 0);
            crate::json::lemma_deep_obj_from(old(self).entries, 0);
            assert forall|m: int| 0 <= m < self.entries@.len() implies deep_obj_from(
                self.entries,
                0,
            )[m] == (seq![pair] + old_deep)[m] by {
                if m > 0 {
                    assert(self.entries@[m] == old(self).entries@[m - 1]);
                }
            }
            assert(self.deep() =~= seq![pair] + old_deep);
            assert(self.deep()[0] == pair);
            assert(self.deep().drop_first() =~= old_deep);
        }
    }

    /// A copy of the value stored under `key`, if any.
    pub fn get(&self, key: &str) -> (r: Option<JsonValue>)
        ensures
            match r {
                Some(v) => obj_lookup(self.deep(), key@) == Some(v.deep()),
                None => obj_lookup(self.deep(), key@) is None,
            },
    {
        proof {
            lemma_deep_obj_from(self.entries, 0);
            assert(self.deep().skip(0) =~= self.deep());
        }
        let n = self.entries.len();
        let mut i: usize = 0;
        while i < n
            invariant
                0 <= i <= n,
                n == self.entries@.len(),
                self.deep().len() == n,
                forall|m: int| 0 <= m < n ==> self.deep()[m] == (self.entries@[m].0@,
                self.entries@[m].1.deep()),
                obj_lookup(self.deep(), key@) == obj_lookup(self.deep().skip(i as int), key@),
            decreases n - i,
        {
            proof {
                crate::json::lemma_obj_lookup_skip(self.deep(), i as int, key@);
            }
            if str_eq(self.entries[i].0.as_str(), key) {
                return Some(self.entries[i].1.deep_clone());
            }
            i = i + 1;
        }
        None
    }
}

/// Configuration of the function-calling behaviour sent with a request.
#[derive(Debug, PartialEq, Eq)]
pub struct ToolConfig {
    pub function_calling_config: Option<FunctionCallingConfig>,
}

/// The function-calling mode and an optional allow-list of tool names.
#[derive(Debug, PartialEq, Eq)]
pub struct FunctionCallingConfig {
    pub mode: Option<Mode>,
    pub allowed_function_names: Option<Vec<String>>,
}

/// How the model is allowed to use function calling.
#[derive(Debug, Clone, Copy, PartialEq, Eq, Structural)]
pub enum Mode {
    /// Unspecified mode; not meant to be sent.
    ModeUnspecified,
    /// The model decides between a call and a text answer.
    Auto,
    /// The model must predict a function call.
    Any,
    /// The model must not predict any function call.
    ModeNone,
}

impl ToolConfig {
    /// This configuration with its function-calling part replaced.
    pub fn function_calling_config(self, function_calling_config: FunctionCallingConfig) -> (r:
        ToolConfig)
        ensures
            r.function_calling_config == Some(function_calling_config),
    {
        ToolConfig { function_calling_config: Some(function_calling_config) }
    }

    /// This configuration with only a mode set.
    pub fn mode(self, mode: Mode) -> (r: ToolConfig)
        ensures
            r.function_calling_config matches Some(fcc) && fcc.mode == Some(mode)
                && fcc.allowed_function_names is None,
    {
        self.function_calling_config(FunctionCallingConfig::new().mode(mode))
    }
}

impl FunctionCallingConfig {
    /// A configuration with nothing set.
    pub fn new() -> (r: FunctionCallingConfig)
        ensures
            r.mode is None,
            r.allowed_function_names is None,
    {
        FunctionCallingConfig { mode: None, allowed_function_names: None }
    }

    /// This configuration with the mode set.
    pub fn mode(self, mode: Mode) -> (r: FunctionCallingConfig)
        ensures
            r.mode == Some(mode),
            r.allowed_function_names == self.allowed_function_names,
    {
        FunctionCallingConfig { mode: Some(mode), ..self }
    }

    /// This configuration with the allow-list set.
    pub fn allowed_function_names(self, allowed_function_names: Vec<String>) -> (r:
        FunctionCallingConfig)
        ensures
            r.mode == self.mode,
            r.allowed_function_names == Some(allowed_function_names),
    {
        FunctionCallingConfig { allowed_function_names: Some(allowed_function_names), ..self }
    }
}

/// Accumulates streamed argument text and builds a function call once
/// complete.
#[derive(Debug, PartialEq, Eq)]
pub struct FunctionCallBuilder {
    pub name: String,
    pub args: String,
}

/// Whether `s` is nothing but whitespace.
pub open spec fn blank(s: Seq<char>) -> bool {
    forall|i: int| 0 <= i < s.len() ==> is_ws(#[trigger] s[i])
}

impl FunctionCallBuilder {
    /// A builder for a call of the named tool, with no argument text.
    pub fn new(name: &str) -> (r: FunctionCallBuilder)
        ensures
            r.name@ == name@,
            r.args@ == Seq::<char>::empty(),
    {
        FunctionCallBuilder { name: name.to_owned(), args: String::new() }
    }

    /// Appends a piece of argument text.
    pub fn push_str(&mut self, s: &str)
        ensures
            final(self).name@ == old(self).name@,
            final(self).args@ == old(self).args@ + s@,
    {
        vstd::string::StringExecFns::append(&mut self.args, s);
    }

    /// Builds the call: blank argument text means no arguments; anything
    /// else must parse as JSON.
    pub fn build(self) -> (r: Result<FunctionCall, String>)
        ensures
            blank(self.args@) ==> (r matches Ok(c) && c.name@ == self.name@ && c.args is None),
            !blank(self.args@) ==> match sp_json(self.args@) {
                Some(j) => r matches Ok(c) && c.name@ == self.name@ && (c.args matches Some(a)
                    && a.deep() == j),
                None => r is Err,
            },
    {
        let cs = str_to_chars(self.args.as_str());
        let e = crate::parse::scan_ws(&cs, 0);
        if e == cs.len() {
            proof {
                crate::parse::lemma_ws_end(cs@, 0);
            }
            Ok(FunctionCall { name: self.name, args: None })
        } else {
            proof {
                crate::parse::lemma_ws_end(cs@, 0);
                assert(!is_ws(cs@[e as int]));
            }
            match crate::parse::parse_json(self.args.as_str()) {
                Some(v) => Ok(FunctionCall { name: self.name, args: Some(v) }),
                None => Err("invalid JSON in function call arguments".to_owned()),
            }
        }
    }
}

/// A tool as the host application implements it: a name, an optional
/// description, a declared input shape, and a handler from plain JSON to
/// plain JSON or an error message.  A handler that must suspend runs
/// outside the library instead: `ToolBox::plan` decides, the caller
/// runs the handler, and `finish_call` wraps its outcome.
pub trait Tool {
    fn name(&self) -> String;

    fn description(&self) -> Option<String>;

    fn input_shape(&self) -> Shape;

    fn invoke(&self, args: JsonValue) -> Result<JsonValue, String>;
}

/// Model of a registered tool.
pub struct EntryV<T> {
    pub name: Seq<char>,
    pub description: Option<Seq<char>>,
    pub shape: ShapeV,
    pub schema: Jx,
    pub tool: T,
}

/// A registered tool: its metadata, the schema derived once at
/// registration, and the tool itself.
#[derive(Debug)]
pub struct ToolEntry<T> {
    name: String,
    description: Option<String>,
    shape: Shape,
    schema: JsonValue,
    tool: T,
}

impl<T> ToolEntry<T> {
    /// The mathematical model of this entry.
    pub closed spec fn deep(self) -> EntryV<T> {
        EntryV {
            name: self.name@,
            description: opt_text(self.description),
            shape: self.shape.deep(),
            schema: self.schema.deep(),
            tool: self.tool,
        }
    }

    /// A new entry; the schema is derived from the shape here, once.
    pub fn new(name: String, description: Option<String>, shape: Shape, tool: T) -> (r: ToolEntry<
        T,
    >)
        ensures
            r.deep() == (EntryV {
                name: name@,
                description: opt_text(description),
                shape: shape.deep(),
                schema: schema_of(shape.deep()),
                tool: tool,
            }),
    {
        let schema = shape.derive_schema();
        ToolEntry { name, description, shape, schema, tool }
    }

    /// The tool's name.
    pub fn name(&self) -> (r: &String)
        ensures
            r@ == self.deep().name,
    {
        &self.name
    }

    /// The tool's description.
    pub fn description(&self) -> (r: &Option<String>)
        ensures
            opt_text(*r) == self.deep().description,
    {
        &self.description
    }

    /// The schema derived at registration.
    pub fn schema(&self) -> (r: &JsonValue)
        ensures
            r.deep() == self.deep().schema,
    {
        &self.schema
    }

    /// The tool itself.
    pub fn tool(&self) -> (r: &T)
        ensures
            *r == self.deep().tool,
    {
        &self.tool
    }
}

impl<T: Tool> ToolEntry<T> {
    /// An entry built from the tool's own metadata.
    pub fn of_tool(tool: T) -> (r: ToolEntry<T>)
        ensures
            r.deep().schema == schema_of(r.deep().shape),
            r.deep().tool == tool,
    {
        let name = tool.name();
        let description = tool.description();
        let shape = tool.input_shape();
        ToolEntry::new(name, description, shape, tool)
    }
}

/// The first registered entry with the given name, if any.
pub open spec fn lookup_entry<T>(s: Seq<EntryV<T>>, name: Seq<char>) -> Option<EntryV<T>>
    decreases s.len(),
{
    if s.len() == 0 {
        None
    } else if s[0].name == name {
        Some(s[0])
    } else {
        lookup_entry(s.drop_first(), name)
    }
}

/// Whether the registered names are pairwise distinct.
pub open spec fn unique_names<T>(s: Seq<EntryV<T>>) -> bool {
    forall|i: int, j: int| 0 <= i < j < s.len() ==> (#[trigger] s[i].name) != (#[trigger] s[j].name)
}

/// The models of the entries of `s` from index `k` on.
spec fn entries_deep_from<T>(s: Vec<ToolEntry<T>>, k: int) -> Seq<EntryV<T>>
    decreases s.len() - k,
{
    if k < 0 || k >= s.len() {
        Seq::empty()
    } else {
        seq![s[k].deep()] + entries_deep_from(s, k + 1)
    }
}

/// `entries_deep_from` is the element-wise model of the tail of `s`.
proof fn lemma_entries_deep_from<T>(s: Vec<ToolEntry<T>>, k: int)
    requires
        0 <= k <= s.len(),
    ensures
        entries_deep_from(s, k).len() == s.len() - k,
        forall|m: int| k <= m < s.len() ==> entries_deep_from(s, k)[m - k] == s[m].deep(),
    decreases s.len() - k,
{
    if k < s.len() {
        lemma_entries_deep_from(s, k + 1);
    }
}

/// Looking a name up after replacing the first entry that carries it.
proof fn lemma_lookup_update<T>(s: Seq<EntryV<T>>, i: int, e: EntryV<T>, n: Seq<char>)
    requires
        0 <= i < s.len(),
        s[i].name == e.name,
        forall|j: int| 0 <= j < i ==> (#[trigger] s[j].name) != e.name,
    ensures
        lookup_entry(s.update(i, e), n) == if n == e.name {
            Some(e)
        } else {
            lookup_entry(s, n)
        },
    decreases i,
{
    let t = s.update(i, e);
    assert(t.len() == s.len());
    if i == 0 {
        assert(t[0] == e);
        assert(t.drop_first() =~= s.drop_first());
    } else {
        assert(t[0] == s[0]);
        assert(t.drop_first() =~= s.drop_first().update(i - 1, e));
        assert(forall|j: int| 0 <= j < i - 1 ==> (#[trigger] s.drop_first()[j].name) != e.name);
        lemma_lookup_update(s.drop_first(), i - 1, e, n);
    }
}

/// Looking a name up after appending an entry whose name is new.
proof fn lemma_lookup_push<T>(s: Seq<EntryV<T>>, e: EntryV<T>, n: Seq<char>)
    ensures
        lookup_entry(s.push(e), n) == (match lookup_entry(s, n) {
            Some(x) => Some(x),
            None => if e.name == n {
                Some(e)
            } else {
                None
            },
        }),
    decreases s.len(),
{
    if s.len() == 0 {
        reveal_with_fuel(lookup_entry, 3);
        assert(s.push(e)[0] == e);
        assert(s.push(e).drop_first() =~= Seq::<EntryV<T>>::empty());
    } else {
        assert(s.push(e)[0] == s[0]);
        assert(s.push(e).drop_first() =~= s.drop_first().push(e));
        lemma_lookup_push(s.drop_first(), e, n);
    }
}

/// Unrolling `lookup_entry` at the front of a suffix.
proof fn lemma_lookup_skip<T>(s: Seq<EntryV<T>>, k: int, n: Seq<char>)
    requires
        0 <= k < s.len(),
    ensures
        s[k].name == n ==> lookup_entry(s.skip(k), n) == Some(s[k]),
        s[k].name != n ==> lookup_entry(s.skip(k), n) == lookup_entry(s.skip(k + 1), n),
{
    assert(s.skip(k).len() > 0);
    assert(s.skip(k)[0] == s[k]);
    assert(s.skip(k).drop_first() =~= s.skip(k + 1));
}

/// A named collection of invocable tools.  Registration derives each
/// tool's schema once; re-registering an existing name overwrites the
/// earlier entry, deliberately and silently.  Lookups are exact and
/// case-sensitive.
#[derive(Debug)]
pub struct ToolBox<T> {
    entries: Vec<ToolEntry<T>>,
}

impl<T> ToolBox<T> {
    /// The mathematical model of this registry: the entries in
    /// registration order.
    pub closed spec fn deep(self) -> Seq<EntryV<T>> {
        entries_deep_from(self.entries, 0)
    }

    /// Registered names are pairwise distinct.
    pub open spec fn wf(self) -> bool {
        unique_names(self.deep())
    }

    /// An empty registry.
    pub fn new() -> (r: ToolBox<T>)
        ensures
            r.deep() == Seq::<EntryV<T>>::empty(),
            r.wf(),
    {
        let r = ToolBox { entries: Vec::new() };
        proof {
            assert(r.deep() =~= Seq::<EntryV<T>>::empty());
        }
        r
    }

    /// The number of registered tools.
    pub fn len(&self) -> (r: usize)
        ensures
            r == self.deep().len(),
    {
        proof {
            lemma_entries_deep_from(self.entries, 0);
        }
        self.entries.len()
    }

    /// Whether no tool is registered.
    pub fn is_empty(&self) -> (r: bool)
        ensures
            r == (self.deep().len() == 0),
    {
        proof {
            lemma_entries_deep_from(self.entries, 0);
        }
        self.entries.len() == 0
    }

    /// Registers an entry.  A lookup under its name afterwards finds
    /// exactly this entry; every other name is unaffected; an existing
    /// entry under the same name is overwritten, so the count grows only
    /// for a fresh name.
    pub fn register(&mut self, entry: ToolEntry<T>)
        requires
            old(self).wf(),
        ensures
            final(self).wf(),
            lookup_entry(final(self).deep(), entry.deep().name) == Some(entry.deep()),
            forall|n2: Seq<char>| n2 != entry.deep().name ==> #[trigger] lookup_entry(
                final(self).deep(),
                n2,
            ) == lookup_entry(old(self).deep(), n2),
            final(self).deep().len() == if lookup_entry(old(self).deep(), entry.deep().name)
                is Some {
                old(self).deep().len()
            } else {
                old(self).deep().len() + 1
            },
    {
        proof {
            lemma_entries_deep_from(self.entries, 0);
        }
        let ghost s0 = self.deep();
        let n = self.entries.len();
        let mut i: usize = 0;
        while i < n
            invariant
                0 <= i <= n,
                n == self.entries@.len(),
                self == old(self),
                s0 == self.deep(),
                s0 == old(self).deep(),
                unique_names(s0),
                s0.len() == n,
                forall|m: int| 0 <= m < n ==> s0[m] == self.entries@[m].deep(),
                forall|j: int| 0 <= j < i ==> (#[trigger] s0[j].name) != entry.deep().name,
            decreases n - i,
        {
            if str_eq(self.entries[i].name.as_str(), entry.name.as_str()) {
                proof {
                    assert(s0[i as int].name == entry.deep().name);
                    assert(lookup_entry(s0, entry.deep().name) is Some) by {
                        lemma_lookup_is_some_of_witness(s0, i as int, entry.deep().name);
                    }
                }
                self.entries[i] = entry;
                proof {
                    lemma_entries_deep_from(self.entries, 0);
                    assert forall|m: int| 0 <= m < n implies self.deep()[m] == s0.update(
                        i as int,
                        entry.deep(),
                    )[m] by {
                        assert(self.deep()[m] == self.entries@[m].deep());
                    }
                    assert(self.deep() =~= s0.update(i as int, entry.deep()));
                    assert forall|a: int, b: int|
                        0 <= a < b < self.deep().len() implies (#[trigger] self.deep()[a].name)
                        != (#[trigger] self.deep()[b].name) by {
                        if a == i {
                            assert(self.deep()[a] == entry.deep());
                        } else {
                            assert(self.deep()[a] == s0[a]);
                        }
                        if b == i {
                            assert(self.deep()[b] == entry.deep());
                        } else {
                            assert(self.deep()[b] == s0[b]);
                        }
                        assert(s0[a].name != s0[b].name);
                        assert(entry.deep().name == s0[i as int].name);
                    }
                    assert forall|n2: Seq<char>| true implies #[trigger] lookup_entry(
                        self.deep(),
                        n2,
                    ) == (if n2 == entry.deep().name {
                        Some(entry.deep())
                    } else {
                        lookup_entry(s0, n2)
                    }) by {
                        lemma_lookup_update(s0, i as int, entry.deep(), n2);
                    }
                }
                return ;
            }
            i = i + 1;
        }
        proof {
            assert(lookup_entry(s0, entry.deep().name) is None) by {
                lemma_lookup_none_when_no_witness(s0, entry.deep().name);
            }
        }
        self.entries.push(entry);
        proof {
            lemma_entries_deep_from(self.entries, 0);
            assert forall|m: int| 0 <= m < n + 1 implies self.deep()[m] == s0.push(
                entry.deep(),
            )[m] by {
                assert(self.deep()[m] == self.entries@[m].deep());
            }
            assert(self.deep() =~= s0.push(entry.deep()));
            assert forall|a: int, b: int|
                0 <= a < b < self.deep().len() implies (#[trigger] self.deep()[a].name)
                != (#[trigger] self.deep()[b].name) by {
                if b < n {
                    assert(self.deep()[a].name == s0[a].name);
                    assert(self.deep()[b].name == s0[b].name);
                } else {
                    assert(self.deep()[a].name == s0[a].name);
                    assert(self.deep()[b].name == entry.deep().name);
                    assert(s0[a].name != entry.deep().name);
                }
            }
            assert forall|n2: Seq<char>| true implies #[trigger] lookup_entry(self.deep(), n2) == (
            match lookup_entry(s0, n2) {
                Some(x) => Some(x),
                None => if entry.deep().name == n2 {
                    Some(entry.deep())
                } else {
                    None
                },
            }) by {
                lemma_lookup_push(s0, entry.deep(), n2);
            }
        }
    }

    /// The first registered entry under `name`, if any.
    pub fn get(&self, name: &str) -> (r: Option<&ToolEntry<T>>)
        ensures
            match r {
                Some(e) => lookup_entry(self.deep(), name@) == Some(e.deep()),
                None => lookup_entry(self.deep(), name@) is None,
            },
    {
        proof {
            lemma_entries_deep_from(self.entries, 0);
            assert(self.deep().skip(0) =~= self.deep());
        }
        let n = self.entries.len();
        let mut i: usize = 0;
        while i < n
            invariant
                0 <= i <= n,
                n == self.entries@.len(),
                self.deep().len() == n,
                forall|m: int| 0 <= m < n ==> self.deep()[m] == self.entries@[m].deep(),
                lookup_entry(self.deep(), name@) == lookup_entry(
                    self.deep().skip(i as int),
                    name@,
                ),
            decreases n - i,
        {
            proof {
                lemma_lookup_skip(self.deep(), i as int, name@);
            }
            if str_eq(self.entries[i].name.as_str(), name) {
                return Some(&self.entries[i]);
            }
            i = i + 1;
        }
        None
    }
}

/// The arguments of a call, with absent arguments read as an empty
/// object.
pub open spec fn call_args_jx(c: crate::message::CallV) -> Jx {
    match c.args {
        Some(a) => a,
        None => Jx::Obj(Seq::empty()),
    }
}

/// The shape-mismatch detail used by the dispatcher.
pub open spec fn shape_mismatch_detail() -> Seq<char> {
    "arguments do not match the declared input shape"@
}

/// The invalid-output detail used by the dispatcher.
pub open spec fn bad_output_detail() -> Seq<char> {
    "tool output holds an invalid numeric literal"@
}

/// What the dispatcher replies for a handler outcome: a well-formed
/// output verbatim, an ill-formed one as a serialization failure, and a
/// handler error as an error payload with the handler's message.
pub open spec fn wrap_outcome(out: Result<Jx, Seq<char>>) -> Jx {
    match out {
        Ok(j) => if wf(j) {
            j
        } else {
            err_payload(output_ser_text(bad_output_detail()))
        },
        Err(m) => err_payload(m),
    }
}

/// What dispatching a call against registry `s` yields: the response
/// name echoes the call's name; an unknown name or mismatched arguments
/// give the exact error payload; a matching call gives whatever
/// `wrap_outcome` makes of the handler's outcome.
pub open spec fn invoke_rel<T>(
    s: Seq<EntryV<T>>,
    c: crate::message::CallV,
    name: Seq<char>,
    payload: Jx,
) -> bool {
    &&& name == c.name
    &&& match lookup_entry(s, c.name) {
        None => payload == err_payload(not_found_text(c.name)),
        Some(e) => if matches_shape(call_args_jx(c), e.shape) {
            exists|out: Result<Jx, Seq<char>>| payload == #[trigger] wrap_outcome(out)
        } else {
            payload == err_payload(input_deser_text(shape_mismatch_detail()))
        },
    }
}

/// The dispatcher's decision for one function call.
#[derive(Debug)]
pub enum DispatchPlan {
    /// The response is already determined; no handler runs.
    Reply(FunctionResponse),
    /// Run the named tool's handler on these validated arguments.
    Run { name: String, args: JsonValue },
}

/// A function response whose payload reports `err` under an `error`
/// key.
pub fn error_response(name: String, err: FunctionCallError) -> (r: FunctionResponse)
    ensures
        r.name@ == name@,
        r.response.deep() == err_payload(error_text(err)),
{
    let msg = err.message();
    FunctionResponse { name, response: json_obj1("error", JsonValue::Str(msg)) }
}

/// Wraps a handler outcome into the function response for `name`.
pub fn finish_call(name: String, outcome: Result<JsonValue, String>) -> (r: FunctionResponse)
    ensures
        r.name@ == name@,
        r.response.deep() == wrap_outcome(match outcome {
            Ok(v) => Ok(v.deep()),
            Err(m) => Err(m@),
        }),
{
    match outcome {
        Ok(v) => {
            if v.check_wf() {
                FunctionResponse { name, response: v }
            } else {
                error_response(
                    name,
                    FunctionCallError::OutputSerializationFailed(
                        "tool output holds an invalid numeric literal".to_owned(),
                    ),
                )
            }
        },
        Err(m) => FunctionResponse { name, response: json_obj1("error", JsonValue::Str(m)) },
    }
}

impl<T> ToolBox<T> {
    /// Decides how to dispatch one call: an unknown name or mismatched
    /// arguments yield a ready error response; otherwise the handler is
    /// to be run on the validated arguments (absent arguments are read
    /// as an empty object).
    pub fn plan(&self, call: &FunctionCall) -> (r: DispatchPlan)
        ensures
            match lookup_entry(self.deep(), call.name@) {
                None => (r matches DispatchPlan::Reply(resp) && resp.name@ == call.name@
                    && resp.response.deep() == err_payload(not_found_text(call.name@))),
                Some(e) => if matches_shape(call_args_jx(call.deep()), e.shape) {
                    r matches DispatchPlan::Run { name, args } && name@ == call.name@
                        && args.deep() == call_args_jx(call.deep())
                } else {
                    r matches DispatchPlan::Reply(resp) && resp.name@ == call.name@
                        && resp.response.deep() == err_payload(
                        input_deser_text(shape_mismatch_detail()),
                    )
                },
            },
    {
        match self.get(call.name.as_str()) {
            None => DispatchPlan::Reply(
                error_response(
                    call.name.clone(),
                    FunctionCallError::ToolNotFound(call.name.clone()),
                ),
            ),
            Some(entry) => {
                let args = match &call.args {
                    Some(a) => a.deep_clone(),
                    None => {
                        let fields: Vec<(String, JsonValue)> = Vec::new();
                        proof {
                            assert(deep_obj_from(fields, 0) =~= Seq::<(Seq<char>, Jx)>::empty());
                        }
                        JsonValue::Obj(fields)
                    },
                };
                if value_matches(&args, &entry.shape) {
                    DispatchPlan::Run { name: call.name.clone(), args }
                } else {
                    DispatchPlan::Reply(
                        error_response(
                            call.name.clone(),
                            FunctionCallError::InputDeserializationFailed(
                                "arguments do not match the declared input shape".to_owned(),
                            ),
                        ),
                    )
                }
            },
        }
    }
}

impl<T: Tool> ToolBox<T> {
    /// Registers a tool under the name and shape it declares for
    /// itself, overwriting any earlier tool under the same name.
    pub fn add(&mut self, tool: T)
        requires
            old(self).wf(),
        ensures
            final(self).wf(),
            exists|e: EntryV<T>| #[trigger] lookup_entry(final(self).deep(), e.name) == Some(e)
                && e.schema == schema_of(e.shape) && e.tool == tool,
    {
        let entry = ToolEntry::of_tool(tool);
        let ghost ev = entry.deep();
        self.register(entry);
        proof {
            assert(lookup_entry(self.deep(), ev.name) == Some(ev));
        }
    }

    /// Dispatches one call: never panics, always returns a response
    /// that echoes the call's name.  An unknown name or mismatched
    /// arguments are reported in the payload; otherwise the handler
    /// runs and its outcome is wrapped by `finish_call`.
    pub fn invoke(&self, call: FunctionCall) -> (r: FunctionResponse)
        ensures
            invoke_rel(self.deep(), call.deep(), r.name@, r.response.deep()),
    {
        let FunctionCall { name, args } = call;
        match self.get(name.as_str()) {
            None => {
                let err = FunctionCallError::ToolNotFound(name.clone());
                error_response(name, err)
            },
            Some(entry) => {
                let args_v = match args {
                    Some(a) => a,
                    None => {
                        let fields: Vec<(String, JsonValue)> = Vec::new();
                        proof {
                            assert(deep_obj_from(fields, 0) =~= Seq::<(Seq<char>, Jx)>::empty());
                        }
                        JsonValue::Obj(fields)
                    },
                };
                if value_matches(&args_v, &entry.shape) {
                    let out = entry.tool.invoke(args_v);
                    let ghost out_spec: Result<Jx, Seq<char>> = (match out {
                        Ok(ref v) => Ok(v.deep()),
                        Err(ref m) => Err(m@),
                    });
                    let r = finish_call(name, out);
                    proof {
                        assert(r.response.deep() == wrap_outcome(out_spec));
                    }
                    r
                } else {
                    let err = FunctionCallError::InputDeserializationFailed(
                        "arguments do not match the declared input shape".to_owned(),
                    );
                    error_response(name, err)
                }
            },
        }
    }
}

/// The wire description of one registered tool, as sent to the model.
#[derive(Debug)]
pub struct ToolMetadataInfo {
    pub name: String,
    pub description: Option<String>,
    pub parameters: JsonValue,
}

/// The declaration list sent with a request.
#[derive(Debug)]
pub struct FunctionDeclarations {
    pub function_declarations: Vec<ToolMetadataInfo>,
}

/// The wire JSON of one tool declaration: the description is omitted
/// when there is none.
pub open spec fn decl_jx<T>(e: EntryV<T>) -> Jx {
    match e.description {
        Some(d) => crate::schema::obj3(
            "name"@,
            Jx::Str(e.name),
            "description"@,
            Jx::Str(d),
            "parameters"@,
            e.schema,
        ),
        None => crate::json::obj2("name"@, Jx::Str(e.name), "parameters"@, e.schema),
    }
}

/// The wire JSON of the declarations of the entries from index `k` on.
pub open spec fn decls_jx_from<T>(s: Seq<EntryV<T>>, k: int) -> Seq<Jx>
    decreases s.len() - k,
{
    if k < 0 || k >= s.len() {
        Seq::empty()
    } else {
        seq![decl_jx(s[k])] + decls_jx_from(s, k + 1)
    }
}

/// The wire JSON of a registry's declaration list.
pub open spec fn tools_jx<T>(s: Seq<EntryV<T>>) -> Jx {
    Jx::Arr(seq![obj1("functionDeclarations"@, Jx::Arr(decls_jx_from(s, 0)))])
}

/// The wire declarations of the entries from index `k` on.
fn decls_build_from<T>(entries: &Vec<ToolEntry<T>>, k: usize) -> (r: Vec<JsonValue>)
    requires
        k <= entries@.len(),
    ensures
        crate::json::deep_arr_from(r, 0) == decls_jx_from(entries_deep_from(*entries, 0), k as int),
    decreases entries@.len() - k,
{
    proof {
        lemma_entries_deep_from(*entries, 0);
    }
    if k == entries.len() {
        let out: Vec<JsonValue> = Vec::new();
        proof {
            assert(crate::json::deep_arr_from(out, 0) =~= Seq::<Jx>::empty());
        }
        out
    } else {
        let e = &entries[k];
        let d = match &e.description {
            Some(text) => crate::schema::json_obj3(
                "name",
                json_str(e.name.as_str()),
                "description",
                json_str(text.as_str()),
                "parameters",
                e.schema.deep_clone(),
            ),
            None => crate::json::json_obj2(
                "name",
                json_str(e.name.as_str()),
                "parameters",
                e.schema.deep_clone(),
            ),
        };
        let mut rest = decls_build_from(entries, k + 1);
        let ghost rest0 = rest;
        rest.insert(0, d);
        proof {
            crate::json::lemma_deep_arr_from(rest, 0);
            crate::json::lemma_deep_arr_from(rest0, 0);
            assert forall|m: int| 0 <= m < rest@.len() implies crate::json::deep_arr_from(
                rest,
                0,
            )[m] == (seq![decl_jx(entries_deep_from(*entries, 0)[k as int])]
                + crate::json::deep_arr_from(rest0, 0))[m] by {
                if m > 0 {
                    assert(rest@[m] == rest0@[m - 1]);
                }
            }
            assert(crate::json::deep_arr_from(rest, 0) =~= seq![
                decl_jx(entries_deep_from(*entries, 0)[k as int]),
            ] + crate::json::deep_arr_from(rest0, 0));
        }
        rest
    }
}

impl<T> ToolBox<T> {
    /// The wire-format declaration list for the current registry state.
    pub fn declarations_json(&self) -> (r: JsonValue)
        ensures
            r.deep() == tools_jx(self.deep()),
    {
        let decls = decls_build_from(&self.entries, 0);
        let inner = json_obj1("functionDeclarations", JsonValue::Arr(decls));
        let mut outer: Vec<JsonValue> = Vec::new();
        outer.push(inner);
        proof {
            crate::json::lemma_deep_arr_from(outer, 0);
            assert(crate::json::deep_arr_from(outer, 0) =~= seq![outer@[0].deep()]);
        }
        JsonValue::Arr(outer)
    }

    /// The declaration list as plain data, one entry per registered
    /// tool, in registration order.
    pub fn metadata(&self) -> (r: Vec<FunctionDeclarations>)
        ensures
            r@.len() == 1,
            r@[0].function_declarations@.len() == self.deep().len(),
            forall|k: int| 0 <= k < self.deep().len() ==> {
                &&& (#[trigger] r@[0].function_declarations@[k]).name@ == self.deep()[k].name
                &&& opt_text(r@[0].function_declarations@[k].description)
                    == self.deep()[k].description
                &&& r@[0].function_declarations@[k].parameters.deep() == self.deep()[k].schema
            },
    {
        proof {
            lemma_entries_deep_from(self.entries, 0);
        }
        let n = self.entries.len();
        let mut infos: Vec<ToolMetadataInfo> = Vec::new();
        let mut i: usize = 0;
        while i < n
            invariant
                0 <= i <= n,
                n == self.entries@.len(),
                self.deep().len() == n,
                forall|m: int| 0 <= m < n ==> self.deep()[m] == self.entries@[m].deep(),
                infos@.len() == i,
                forall|m: int| 0 <= m < i ==> {
                    &&& (#[trigger] infos@[m]).name@ == self.deep()[m].name
                    &&& opt_text(infos@[m].description) == self.deep()[m].description
                    &&& infos@[m].parameters.deep() == self.deep()[m].schema
                },
            decreases n - i,
        {
            let e = &self.entries[i];
            let description = match &e.description {
                Some(d) => Some(d.clone()),
                None => None,
            };
            infos.push(
                ToolMetadataInfo {
                    name: e.name.clone(),
                    description,
                    parameters: e.schema.deep_clone(),
                },
            );
            i = i + 1;
        }
        let mut out: Vec<FunctionDeclarations> = Vec::new();
        out.push(FunctionDeclarations { function_declarations: infos });
        out
    }
}

/// A name that occurs at some index is found.
proof fn lemma_lookup_is_some_of_witness<T>(s: Seq<EntryV<T>>, i: int, n: Seq<char>)
    requires
        0 <= i < s.len(),
        s[i].name == n,
    ensures
        lookup_entry(s, n) is Some,
    decreases s.len(),
{
    if s[0].name != n {
        lemma_lookup_is_some_of_witness(s.drop_first(), i - 1, n);
    }
}

/// A name that occurs at no index is not found.
proof fn lemma_lookup_none_when_no_witness<T>(s: Seq<EntryV<T>>, n: Seq<char>)
    requires
        forall|j: int| 0 <= j < s.len() ==> (#[trigger] s[j].name) != n,
    ensures
        lookup_entry(s, n) is None,
    decreases s.len(),
{
    if s.len() > 0 {
        assert(forall|j: int|
            0 <= j < s.drop_first().len() ==> (#[trigger] s.drop_first()[j].name) == s[j + 1].name);
        lemma_lookup_none_when_no_witness(s.drop_first(), n);
    }
}

} // verus!

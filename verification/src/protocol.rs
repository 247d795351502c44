//! Parsing of the agent CLI's `stream-json` protocol and construction of the
//! input messages written back on stdin.
//!
//! The CLI emits one JSON object per line. Lines are read as JSON trees, and
//! the fields of interest are picked out of them; unknown fields are ignored,
//! which keeps the parser resilient to additive changes in the protocol.
use crate::json::fields_tree;
use crate::json::is_message;
use crate::json::json_rendering;
use crate::json::json_text;
use crate::json::object_value;
use crate::json::read_json;
use crate::json::text_value;
use crate::json::value_text;
use crate::json::Json;
use crate::json::JsonView;
use crate::json::MESSAGE_DEPTH;
use crate::model::F64Bits;
use crate::model::TokenUsage;
use crate::text::first_chars;
use crate::text::is_white_space;
use crate::text::opt_text;
use crate::text::same_text;
use crate::text::take_chars;
use crate::text::texts;
use crate::text::trimmed;
use crate::text::trimmed_end;
use crate::text::trimmed_start;
use vstd::prelude::*;
use vstd::string::StringExecFns;

verus! {

/// A parsed, dashboard-relevant view of a single output line.
#[allow(inconsistent_fields)]
#[derive(Debug)]
pub enum Event {
    /// `system`/`init`: the handshake. Carries the model and agent session id.
    Init { session_id: Option<String>, model: Option<String>, cwd: Option<String> },
    /// `system` with some other subtype (e.g. `api_retry`).
    System { subtype: String, text: String },
    /// An assistant turn. `text` is the concatenated visible text; `tools`
    /// lists any tool calls made in the message.
    Assistant { text: String, tools: Vec<String> },
    /// A tool result echoed back as a `user` message.
    ToolResult { text: String },
    /// Incremental token text.
    TextDelta { text: String },
    /// End of a turn.
    Result {
        is_error: bool,
        text: Option<String>,
        usage: TokenUsage,
        cost_usd: Option<F64Bits>,
        num_turns: Option<u32>,
        session_id: Option<String>,
    },
    /// Anything not specifically modelled; preserved for the raw log.
    Other { kind: String },
}

/// The mathematical content of an [`Event`].
#[allow(inconsistent_fields)]
pub enum EventView {
    Init {
        session_id: Option<Seq<char>>,
        model: Option<Seq<char>>,
        cwd: Option<Seq<char>>,
    },
    System { subtype: Seq<char>, text: Seq<char> },
    Assistant { text: Seq<char>, tools: Seq<Seq<char>> },
    ToolResult { text: Seq<char> },
    TextDelta { text: Seq<char> },
    Result {
        is_error: bool,
        text: Option<Seq<char>>,
        usage: TokenUsage,
        cost_usd: Option<F64Bits>,
        num_turns: Option<u32>,
        session_id: Option<Seq<char>>,
    },
    Other { kind: Seq<char> },
}

impl View for Event {
    type V = EventView;

    open spec fn view(&self) -> EventView {
        match *self {
            Event::Init { session_id, model, cwd } => EventView::Init {
                session_id: opt_text(session_id),
                model: opt_text(model),
                cwd: opt_text(cwd),
            },
            Event::System { subtype, text } => EventView::System {
                subtype: subtype@,
                text: text@,
            },
            Event::Assistant { text, tools } => EventView::Assistant {
                text: text@,
                tools: texts(tools@),
            },
            Event::ToolResult { text } => EventView::ToolResult { text: text@ },
            Event::TextDelta { text } => EventView::TextDelta { text: text@ },
            Event::Result { is_error, text, usage, cost_usd, num_turns, session_id } =>
            EventView::Result {
                is_error,
                text: opt_text(text),
                usage,
                cost_usd,
                num_turns,
                session_id: opt_text(session_id),
            },
            Event::Other { kind } => EventView::Other { kind: kind@ },
        }
    }
}

// ---- what a line means -----------------------------------------------------

/// The number in a field, or zero where there is none.
pub open spec fn count_field(v: JsonView, key: Seq<char>) -> u64 {
    match v.unsigned_field(key) {
        Some(n) => n,
        None => 0,
    }
}

/// The token account of a `usage` object, tolerating absent fields.
pub open spec fn usage_of(usage: JsonView) -> TokenUsage {
    TokenUsage {
        input_tokens: count_field(usage, "input_tokens"@),
        output_tokens: count_field(usage, "output_tokens"@),
        cache_creation_tokens: count_field(usage, "cache_creation_input_tokens"@),
        cache_read_tokens: count_field(usage, "cache_read_input_tokens"@),
    }
}

/// The text of a field, or nothing where there is no such text.
pub open spec fn text_or_empty(v: JsonView, key: Seq<char>) -> Seq<char> {
    match v.text_field(key) {
        Some(s) => s,
        None => Seq::empty(),
    }
}

/// The `text` fields of the items, one after the other.
pub open spec fn joined_texts(items: Seq<JsonView>) -> Seq<char>
    decreases items.len(),
{
    if items.len() == 0 {
        Seq::empty()
    } else {
        joined_texts(items.drop_last()) + text_or_empty(items.last(), "text"@)
    }
}

/// Arbitrary `content` as one text.
pub open spec fn flat_text(v: JsonView) -> Seq<char> {
    match v {
        JsonView::Text(s) => s,
        JsonView::List(items) => joined_texts(items),
        _ => Seq::empty(),
    }
}

/// The visible text of one content block.
pub open spec fn block_text(block: JsonView) -> Seq<char> {
    let kind = block.text_field("type"@);
    if kind == Some("text"@) {
        text_or_empty(block, "text"@)
    } else if kind == Some("tool_result"@) {
        match block.field("content"@) {
            Some(c) => flat_text(c),
            None => Seq::empty(),
        }
    } else {
        Seq::empty()
    }
}

/// The tool that one content block calls.
pub open spec fn block_tool(block: JsonView) -> Option<Seq<char>> {
    if block.text_field("type"@) == Some("tool_use"@) {
        block.text_field("name"@)
    } else {
        None
    }
}

/// The visible text of a list of content blocks.
pub open spec fn blocks_text(blocks: Seq<JsonView>) -> Seq<char>
    decreases blocks.len(),
{
    if blocks.len() == 0 {
        Seq::empty()
    } else {
        blocks_text(blocks.drop_last()) + block_text(blocks.last())
    }
}

/// The tools that a list of content blocks calls, in order.
pub open spec fn blocks_tools(blocks: Seq<JsonView>) -> Seq<Seq<char>>
    decreases blocks.len(),
{
    if blocks.len() == 0 {
        Seq::empty()
    } else {
        match block_tool(blocks.last()) {
            Some(name) => blocks_tools(blocks.drop_last()).push(name),
            None => blocks_tools(blocks.drop_last()),
        }
    }
}

/// The visible text of a message.
pub open spec fn message_text(message: Option<JsonView>) -> Seq<char> {
    match message {
        Some(m) => match m.field("content"@) {
            Some(JsonView::Text(s)) => s,
            Some(JsonView::List(blocks)) => blocks_text(blocks),
            _ => Seq::empty(),
        },
        None => Seq::empty(),
    }
}

/// The tools that a message calls.
pub open spec fn message_tools(message: Option<JsonView>) -> Seq<Seq<char>> {
    match message {
        Some(m) => match m.field("content"@) {
            Some(JsonView::List(blocks)) => blocks_tools(blocks),
            _ => Seq::empty(),
        },
        None => Seq::empty(),
    }
}

/// The incremental text that a stream event carries.
pub open spec fn delta_text(v: JsonView) -> Seq<char> {
    match v.field("event"@) {
        Some(e) => match e.field("delta"@) {
            Some(d) => if d.text_field("type"@) == Some("text_delta"@) {
                text_or_empty(d, "text"@)
            } else {
                Seq::empty()
            },
            None => Seq::empty(),
        },
        None => Seq::empty(),
    }
}

/// How much of a system line is kept.
pub const SYSTEM_TEXT_CHARS: usize = 400;

/// The event that a JSON value stands for; `line` is the text it was read from.
pub open spec fn event_of(v: JsonView, line: Seq<char>) -> EventView {
    let kind = match v.text_field("type"@) {
        Some(s) => s,
        None => "unknown"@,
    };
    if kind == "system"@ {
        let subtype = text_or_empty(v, "subtype"@);
        if subtype == "init"@ {
            EventView::Init {
                session_id: v.text_field("session_id"@),
                model: v.text_field("model"@),
                cwd: v.text_field("cwd"@),
            }
        } else {
            EventView::System { subtype, text: first_chars(line, SYSTEM_TEXT_CHARS as int) }
        }
    } else if kind == "assistant"@ {
        EventView::Assistant {
            text: message_text(v.field("message"@)),
            tools: message_tools(v.field("message"@)),
        }
    } else if kind == "user"@ {
        EventView::ToolResult { text: message_text(v.field("message"@)) }
    } else if kind == "stream_event"@ {
        if delta_text(v).len() == 0 {
            EventView::Other { kind: "stream_event"@ }
        } else {
            EventView::TextDelta { text: delta_text(v) }
        }
    } else if kind == "result"@ {
        EventView::Result {
            is_error: v.bool_field("is_error"@) == Some(true),
            text: v.text_field("result"@),
            usage: match v.field("usage"@) {
                Some(u) => usage_of(u),
                None => TokenUsage::none(),
            },
            cost_usd: v.double_field("total_cost_usd"@),
            num_turns: match v.unsigned_field("num_turns"@) {
                Some(n) => Some(n as u32),
                None => None,
            },
            session_id: v.text_field("session_id"@),
        }
    } else {
        EventView::Other { kind }
    }
}

/// The event on a line of output: none where the line is blank or not JSON.
pub open spec fn line_event(line: Seq<char>) -> Option<EventView> {
    if trimmed(line).len() == 0 {
        None
    } else {
        match json_text(trimmed(line)) {
            Some(v) => Some(event_of(v, trimmed(line))),
            None => None,
        }
    }
}

// ---- parsing ---------------------------------------------------------------

fn count_of(v: &Json, key: &str) -> (r: u64)
    ensures
        r == count_field(v@, key@),
{
    match v.get_unsigned(key) {
        Some(n) => n,
        None => 0,
    }
}

/// Extract a [`TokenUsage`] from a `usage` object, tolerating absent fields.
pub fn parse_usage(usage: &Json) -> (r: TokenUsage)
    ensures
        r == usage_of(usage@),
{
    TokenUsage {
        input_tokens: count_of(usage, "input_tokens"),
        output_tokens: count_of(usage, "output_tokens"),
        cache_creation_tokens: count_of(usage, "cache_creation_input_tokens"),
        cache_read_tokens: count_of(usage, "cache_read_input_tokens"),
    }
}

fn text_of(v: &Json, key: &str) -> (r: String)
    ensures
        r@ == text_or_empty(v@, key@),
{
    match v.get_text(key) {
        Some(s) => s.clone(),
        None => String::new(),
    }
}

fn opt_text_of(v: &Json, key: &str) -> (r: Option<String>)
    ensures
        opt_text(r) == v@.text_field(key@),
{
    match v.get_text(key) {
        Some(s) => Some(s.clone()),
        None => None,
    }
}

fn has_text(v: &Json, key: &str, value: &str) -> (r: bool)
    ensures
        r == (v@.text_field(key@) == Some(value@)),
{
    match v.get_text(key) {
        Some(s) => same_text(s.as_str(), value),
        None => false,
    }
}

/// Best-effort flatten of arbitrary `content` into a string.
pub fn flatten_text(v: &Json) -> (r: String)
    ensures
        r@ == flat_text(v@),
{
    match v {
        Json::Text(s) => s.clone(),
        Json::List(items) => {
            let mut out = String::new();
            let ghost trees = crate::json::list_tree(items@);
            proof {
                crate::json::lemma_list_tree(items@);
            }
            let mut i: usize = 0;
            while i < items.len()
                invariant
                    i <= items@.len(),
                    trees.len() == items@.len(),
                    forall|j: int| 0 <= j < items@.len() ==> #[trigger] trees[j] == items@[j]@,
                    out@ == joined_texts(trees.take(i as int)),
                decreases items@.len() - i,
            {
                proof {
                    assert(trees.take(i + 1).drop_last() =~= trees.take(i as int));
                    assert(trees.take(i + 1).last() == trees[i as int]);
                }
                out.append(text_of(&items[i], "text").as_str());
                i = i + 1;
            }
            proof {
                assert(trees.take(i as int) =~= trees);
            }
            out
        },
        _ => String::new(),
    }
}

/// Pull the visible text and tool names out of a message object.
pub fn parse_message_content(message: &Json) -> (r: (String, Vec<String>))
    ensures
        r.0@ == message_text(Some(message@)),
        texts(r.1@) == message_tools(Some(message@)),
{
    let mut text = String::new();
    let mut tools: Vec<String> = Vec::new();
    assert(texts(tools@) =~= Seq::<Seq<char>>::empty());
    match message.get("content") {
        Some(Json::Text(s)) => {
            text.append(s.as_str());
            assert(text@ =~= s@);
        },
        Some(Json::List(blocks)) => {
            let ghost trees = crate::json::list_tree(blocks@);
            proof {
                crate::json::lemma_list_tree(blocks@);
            }
            let mut i: usize = 0;
            while i < blocks.len()
                invariant
                    i <= blocks@.len(),
                    trees.len() == blocks@.len(),
                    forall|j: int| 0 <= j < blocks@.len() ==> #[trigger] trees[j] == blocks@[j]@,
                    text@ == blocks_text(trees.take(i as int)),
                    texts(tools@) == blocks_tools(trees.take(i as int)),
                decreases blocks@.len() - i,
            {
                let b = &blocks[i];
                proof {
                    assert(trees.take(i + 1).drop_last() =~= trees.take(i as int));
                    assert(trees.take(i + 1).last() == trees[i as int]);
                    reveal_strlit("text");
                    reveal_strlit("tool_use");
                    reveal_strlit("tool_result");
                    assert("text"@.len() != "tool_use"@.len());
                    assert("text"@.len() != "tool_result"@.len());
                    assert("tool_use"@.len() != "tool_result"@.len());
                }
                let ghost before = text@;
                if has_text(b, "type", "text") {
                    text.append(text_of(b, "text").as_str());
                } else if has_text(b, "type", "tool_use") {
                    assert(before + Seq::<char>::empty() =~= before);
                    match b.get_text("name") {
                        Some(name) => {
                            let ghost had = tools@;
                            tools.push(name.clone());
                            assert(texts(tools@) =~= texts(had).push(name@));
                        },
                        None => {},
                    }
                } else if has_text(b, "type", "tool_result") {
                    assert(before + Seq::<char>::empty() =~= before);
                    // Tool results carry their own content array or string.
                    match b.get("content") {
                        Some(c) => {
                            text.append(flatten_text(c).as_str());
                        },
                        None => {},
                    }
                } else {
                    assert(before + Seq::<char>::empty() =~= before);
                }
                i = i + 1;
            }
            proof {
                assert(trees.take(i as int) =~= trees);
            }
        },
        _ => {},
    }
    (text, tools)
}

fn message_of(v: &Json) -> (r: (String, Vec<String>))
    ensures
        r.0@ == message_text(v@.field("message"@)),
        texts(r.1@) == message_tools(v@.field("message"@)),
{
    match v.get("message") {
        Some(m) => parse_message_content(m),
        None => {
            let tools: Vec<String> = Vec::new();
            assert(texts(tools@) =~= Seq::<Seq<char>>::empty());
            (String::new(), tools)
        },
    }
}

fn delta_of(v: &Json) -> (r: String)
    ensures
        r@ == delta_text(v@),
{
    match v.get("event") {
        Some(e) => match e.get("delta") {
            Some(d) => if has_text(d, "type", "text_delta") {
                text_of(d, "text")
            } else {
                String::new()
            },
            None => String::new(),
        },
        None => String::new(),
    }
}

/// The event that a JSON value stands for; `line` is the text it was read from.
pub fn event_from(v: &Json, line: &str) -> (r: Event)
    ensures
        r@ == event_of(v@, line@),
{
    let kind = match v.get_text("type") {
        Some(s) => s.clone(),
        None => "unknown".to_owned(),
    };
    if same_text(kind.as_str(), "system") {
        let subtype = text_of(v, "subtype");
        if same_text(subtype.as_str(), "init") {
            Event::Init {
                session_id: opt_text_of(v, "session_id"),
                model: opt_text_of(v, "model"),
                cwd: opt_text_of(v, "cwd"),
            }
        } else {
            Event::System { subtype, text: take_chars(line, SYSTEM_TEXT_CHARS) }
        }
    } else if same_text(kind.as_str(), "assistant") {
        let (text, tools) = message_of(v);
        Event::Assistant { text, tools }
    } else if same_text(kind.as_str(), "user") {
        let (text, _) = message_of(v);
        Event::ToolResult { text }
    } else if same_text(kind.as_str(), "stream_event") {
        let text = delta_of(v);
        if text.as_str().is_empty() {
            Event::Other { kind: "stream_event".to_owned() }
        } else {
            Event::TextDelta { text }
        }
    } else if same_text(kind.as_str(), "result") {
        let usage = match v.get("usage") {
            Some(u) => parse_usage(u),
            None => TokenUsage::default(),
        };
        let is_error = match v.get_bool("is_error") {
            Some(b) => b,
            None => false,
        };
        let num_turns: Option<u32> = match v.get_unsigned("num_turns") {
            Some(n) => {
                #[verifier::truncate]
                let turns: u32 = n as u32;
                Some(turns)
            },
            None => None,
        };
        Event::Result {
            is_error,
            text: opt_text_of(v, "result"),
            usage,
            cost_usd: v.get_double("total_cost_usd"),
            num_turns,
            session_id: opt_text_of(v, "session_id"),
        }
    } else {
        Event::Other { kind }
    }
}

/// Parse one line of `stream-json` output into an [`Event`].
///
/// Returns `None` only when the line is not valid JSON (blank lines, etc.).
pub fn parse_line(line: &str) -> (r: Option<Event>)
    ensures
        match r {
            Some(e) => line_event(line@) == Some(e@),
            None => line_event(line@) is None,
        },
{
    let line = line.trim();
    if line.is_empty() {
        return None;
    }
    match read_json(line) {
        Some(v) => Some(event_from(&v, line)),
        None => None,
    }
}

// ---- writing ---------------------------------------------------------------

/// The message that hands a prompt to the agent.
pub open spec fn user_message(prompt: Seq<char>) -> JsonView {
    JsonView::Object(
        map![
            "type"@ => JsonView::Text("user"@),
            "message"@ => JsonView::Object(
                map!["role"@ => JsonView::Text("user"@), "content"@ => JsonView::Text(prompt)],
            ),
        ],
    )
}

/// The line that hands a prompt to the agent.
pub open spec fn user_line(prompt: Seq<char>) -> Seq<char> {
    json_rendering(user_message(prompt)).push('\n')
}

proof fn lemma_user_message(prompt: Seq<char>)
    ensures
        user_message(prompt).text_field("type"@) == Some("user"@),
        message_text(user_message(prompt).field("message"@)) == prompt,
        is_message(user_message(prompt), MESSAGE_DEPTH as nat),
        forall|line: Seq<char>|
            event_of(user_message(prompt), line) == (EventView::ToolResult { text: prompt }),
{
    reveal_strlit("type");
    reveal_strlit("message");
    reveal_strlit("role");
    reveal_strlit("content");
    reveal_strlit("user");
    reveal_strlit("system");
    reveal_strlit("assistant");
    assert("type"@.len() != "message"@.len());
    assert("role"@.len() != "content"@.len());
    assert("user"@.len() != "system"@.len());
    assert("user"@.len() != "assistant"@.len());
    reveal_with_fuel(is_message, 3);
}

/// White space at the end of a text that has none at its ends is trimmed off.
proof fn lemma_trim_newline(s: Seq<char>)
    requires
        s.len() > 0,
        !is_white_space(s[0]),
        !is_white_space(s.last()),
    ensures
        trimmed(s.push('\n')) == s,
{
    reveal_with_fuel(trimmed_end, 2);
    assert(s.push('\n').drop_last() =~= s);
    assert(trimmed_start(s.push('\n')) == s.push('\n'));
}

/// Build a `user` message line to write to the CLI's stdin in stream-json input
/// mode. The newline delimits the message: there is one at the end and nowhere
/// else, and the line reads back as a `user` message with the prompt.
pub fn user_message_line(prompt: &str) -> (r: String)
    ensures
        r@ == user_line(prompt@),
        r@.last() == '\n',
        forall|i: int| 0 <= i < r@.len() - 1 ==> r@[i] != '\n',
        json_text(trimmed(r@)) == Some(user_message(prompt@)),
        line_event(r@) == Some(EventView::ToolResult { text: prompt@ }),
{
    let mut inner: Vec<(String, serde_json::Value)> = Vec::new();
    inner.push(("role".to_owned(), text_value("user")));
    inner.push(("content".to_owned(), text_value(prompt)));
    let mut outer: Vec<(String, serde_json::Value)> = Vec::new();
    let ghost inner_fields = inner@;
    outer.push(("type".to_owned(), text_value("user")));
    outer.push(("message".to_owned(), object_value(inner)));
    let ghost outer_fields = outer@;
    let value = object_value(outer);
    proof {
        reveal_with_fuel(fields_tree, 3);
        assert(inner_fields.drop_last().drop_last() =~= Seq::empty());
        assert(outer_fields.drop_last().drop_last() =~= Seq::empty());
        assert(fields_tree(inner_fields) =~= map![
            "role"@ => JsonView::Text("user"@),
            "content"@ => JsonView::Text(prompt@),
        ]);
        assert(fields_tree(outer_fields) =~= user_message(prompt@)->Object_0);
        lemma_user_message(prompt@);
    }
    let mut line = value_text(&value);
    proof {
        lemma_trim_newline(line@);
    }
    line.push('\n');
    line
}

} // verus!

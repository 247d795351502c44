//! What a line of a worker's output means, in terms of the JSON object on it.
use crate::json::json_text;
use crate::json::lemma_list_tree;
use crate::json::list_tree;
use crate::json::object_tree;
use crate::json::Json;
use crate::json::JsonView;
use crate::model::TokenUsage;
use crate::protocol::block_text;
use crate::protocol::block_tool;
use crate::protocol::blocks_text;
use crate::protocol::blocks_tools;
use crate::protocol::event_of;
use crate::protocol::joined_texts;
use crate::protocol::line_event;
use crate::protocol::user_message;
use crate::protocol::EventView;
use crate::text::trimmed;
use vstd::prelude::*;

verus! {

/// Whether a value is an object of the given type.
pub open spec fn has_type(v: JsonView, kind: Seq<char>) -> bool {
    &&& v is Object
    &&& v->Object_0.contains_key("type"@)
    &&& v->Object_0["type"@] == JsonView::Text(kind)
}

/// Whether a value is a message of the given type with the given content.
pub open spec fn is_message_line(v: JsonView, kind: Seq<char>, content: JsonView) -> bool {
    &&& has_type(v, kind)
    &&& v->Object_0.contains_key("message"@)
    &&& v->Object_0["message"@] is Object
    &&& v->Object_0["message"@]->Object_0.contains_key("content"@)
    &&& v->Object_0["message"@]->Object_0["content"@] == content
}

/// Whether a value is a content block of the given type that holds `value` under
/// `key`.
pub open spec fn is_block(v: JsonView, kind: Seq<char>, key: Seq<char>, value: JsonView) -> bool {
    &&& has_type(v, kind)
    &&& v->Object_0.contains_key(key)
    &&& v->Object_0[key] == value
}

/// The kinds of line are told apart.
proof fn lemma_kinds()
    ensures
        "system"@ != "assistant"@,
        "system"@ != "user"@,
        "system"@ != "stream_event"@,
        "system"@ != "result"@,
        "assistant"@ != "user"@,
        "assistant"@ != "stream_event"@,
        "assistant"@ != "result"@,
        "user"@ != "stream_event"@,
        "user"@ != "result"@,
        "stream_event"@ != "result"@,
        "text"@ != "tool_use"@,
        "text"@ != "tool_result"@,
        "tool_use"@ != "tool_result"@,
        "unknown"@ != "system"@,
        "unknown"@ != "assistant"@,
        "unknown"@ != "user"@,
        "unknown"@ != "stream_event"@,
        "unknown"@ != "result"@,
        "init"@.len() > 0,
{
    reveal_strlit("system");
    reveal_strlit("assistant");
    reveal_strlit("user");
    reveal_strlit("stream_event");
    reveal_strlit("result");
    reveal_strlit("text");
    reveal_strlit("tool_use");
    reveal_strlit("tool_result");
    reveal_strlit("unknown");
    reveal_strlit("init");
    assert("system"@.len() == 6 && "system"@[0] == 's');
    assert("result"@.len() == 6 && "result"@[0] == 'r');
    assert("assistant"@.len() == 9);
    assert("user"@.len() == 4);
    assert("stream_event"@.len() == 12);
    assert("unknown"@.len() == 7);
    assert("text"@.len() == 4);
    assert("tool_use"@.len() == 8);
    assert("tool_result"@.len() == 11);
}

// ---- lines -----------------------------------------------------------------

/// A line counts without the white space around it. A blank line, and one that
/// is no JSON, means nothing; any other means something.
pub proof fn every_json_line_is_an_event(line: Seq<char>, v: JsonView)
    ensures
        trimmed(line).len() == 0 ==> line_event(line) is None,
        json_text(trimmed(line)) is None ==> line_event(line) is None,
        trimmed(line).len() > 0 && json_text(trimmed(line)) == Some(v) ==> line_event(line) == Some(
            event_of(v, trimmed(line)),
        ),
{
}

/// An object of a type that is not known, or without one, is kept by its type.
pub proof fn an_unknown_line_is_kept(v: JsonView, line: Seq<char>, kind: Seq<char>)
    requires
        kind != "system"@,
        kind != "assistant"@,
        kind != "user"@,
        kind != "stream_event"@,
        kind != "result"@,
    ensures
        has_type(v, kind) ==> event_of(v, line) == (EventView::Other { kind }),
        (v is Object && !v->Object_0.contains_key("type"@)) || !(v is Object) ==> event_of(v, line)
            == (EventView::Other { kind: "unknown"@ }),
{
    lemma_kinds();
}

// ---- system ----------------------------------------------------------------

/// The handshake carries the conversation, the model and the directory, each
/// where the object holds it as a text.
pub proof fn the_handshake(v: JsonView, line: Seq<char>)
    requires
        has_type(v, "system"@),
        v->Object_0.contains_key("subtype"@),
        v->Object_0["subtype"@] == JsonView::Text("init"@),
    ensures
        ({
            let m = v->Object_0;
            let e = event_of(v, line);
            &&& e is Init
            &&& m.contains_key("session_id"@) && m["session_id"@] is Text ==> e->Init_session_id
                == Some(m["session_id"@]->Text_0)
            &&& !(m.contains_key("session_id"@) && m["session_id"@] is Text)
                ==> e->Init_session_id is None
            &&& m.contains_key("model"@) && m["model"@] is Text ==> e->model == Some(
                m["model"@]->Text_0,
            )
            &&& !(m.contains_key("model"@) && m["model"@] is Text) ==> e->model is None
            &&& m.contains_key("cwd"@) && m["cwd"@] is Text ==> e->cwd == Some(m["cwd"@]->Text_0)
            &&& !(m.contains_key("cwd"@) && m["cwd"@] is Text) ==> e->cwd is None
        }),
{
}

/// Any other system line keeps its subtype and its first 400 characters.
pub proof fn another_system_line(v: JsonView, line: Seq<char>, subtype: Seq<char>)
    requires
        has_type(v, "system"@),
        subtype != "init"@,
    ensures
        ({
            let m = v->Object_0;
            let shown = if line.len() <= 400 {
                line
            } else {
                line.take(400)
            };
            &&& m.contains_key("subtype"@) && m["subtype"@] == JsonView::Text(subtype) ==> event_of(
                v,
                line,
            ) == (EventView::System { subtype, text: shown })
            &&& !m.contains_key("subtype"@) || !(m["subtype"@] is Text) ==> event_of(v, line) == (
            EventView::System { subtype: Seq::empty(), text: shown })
        }),
{
    lemma_kinds();
    assert(Seq::<char>::empty() != "init"@);
}

// ---- messages --------------------------------------------------------------

/// A message whose content is one text says that text.
pub proof fn a_plain_message(v: JsonView, line: Seq<char>, s: Seq<char>)
    ensures
        is_message_line(v, "assistant"@, JsonView::Text(s)) ==> event_of(v, line) == (
        EventView::Assistant { text: s, tools: Seq::empty() }),
        is_message_line(v, "user"@, JsonView::Text(s)) ==> event_of(v, line) == (
        EventView::ToolResult { text: s }),
{
    lemma_kinds();
}

/// A tool that answers with a text: a user message with one such block parses to
/// a tool result with that text.
pub proof fn a_tool_answers_with_a_text(
    v: JsonView,
    line: Seq<char>,
    block: JsonView,
    s: Seq<char>,
)
    requires
        is_block(block, "tool_result"@, "content"@, JsonView::Text(s)),
        is_message_line(v, "user"@, JsonView::List(seq![block])),
    ensures
        event_of(v, line) == (EventView::ToolResult { text: s }),
{
    lemma_kinds();
    lemma_one_block(block);
}

/// The user message that carries one tool's answer, as an object.
pub open spec fn tool_result_message(content: JsonView) -> JsonView {
    JsonView::Object(
        map![
            "type"@ => JsonView::Text("user"@),
            "message"@ => JsonView::Object(
                map![
                    "role"@ => JsonView::Text("user"@),
                    "content"@ => JsonView::List(
                        seq![
                            JsonView::Object(
                                map![
                                    "type"@ => JsonView::Text("tool_result"@),
                                    "content"@ => content,
                                ],
                            ),
                        ],
                    ),
                ],
            ),
        ],
    )
}

/// A tool's answer comes through unchanged, whatever it says: from the object,
/// and from a line that holds the object.
pub proof fn a_tools_answer_comes_through(line: Seq<char>, s: Seq<char>)
    ensures
        event_of(tool_result_message(JsonView::Text(s)), line) == (EventView::ToolResult {
            text: s,
        }),
        trimmed(line).len() > 0 && json_text(trimmed(line)) == Some(
            tool_result_message(JsonView::Text(s)),
        ) ==> line_event(line) == Some(EventView::ToolResult { text: s }),
{
    reveal_strlit("type");
    reveal_strlit("message");
    reveal_strlit("role");
    reveal_strlit("content");
    assert("type"@.len() == 4 && "message"@.len() == 7);
    assert("role"@.len() == 4 && "content"@.len() == 7);
    let v = tool_result_message(JsonView::Text(s));
    let block = v->Object_0["message"@]->Object_0["content"@]->List_0[0];
    assert(v->Object_0["message"@]->Object_0["content"@] == JsonView::List(seq![block]));
    a_tool_answers_with_a_text(v, line, block, s);
    a_tool_answers_with_a_text(v, trimmed(line), block, s);
}

/// A tool that answers with a list of items: their texts, one after the other.
/// One more item with a text adds that text, and one without adds nothing.
pub proof fn a_tool_answers_with_a_list(
    line: Seq<char>,
    v: JsonView,
    block: JsonView,
    items: Seq<JsonView>,
    w: JsonView,
    longer: JsonView,
    item: JsonView,
    t: Seq<char>,
)
    requires
        is_block(block, "tool_result"@, "content"@, JsonView::List(items)),
        is_message_line(v, "user"@, JsonView::List(seq![block])),
        is_block(longer, "tool_result"@, "content"@, JsonView::List(items.push(item))),
        is_message_line(w, "user"@, JsonView::List(seq![longer])),
    ensures
        event_of(v, line) is ToolResult,
        event_of(w, line) is ToolResult,
        items.len() == 0 ==> event_of(v, line)->ToolResult_text.len() == 0,
        item is Object && item->Object_0.contains_key("text"@) && item->Object_0["text"@]
            == JsonView::Text(t) ==> event_of(w, line)->ToolResult_text == event_of(
            v,
            line,
        )->ToolResult_text + t,
        !(item is Object && item->Object_0.contains_key("text"@)
            && item->Object_0["text"@] is Text) ==> event_of(w, line)->ToolResult_text == event_of(
            v,
            line,
        )->ToolResult_text,
{
    lemma_kinds();
    lemma_one_block(block);
    lemma_one_block(longer);
    assert(items.push(item).drop_last() =~= items);
    assert(joined_texts(items) + Seq::<char>::empty() =~= joined_texts(items));
}

proof fn lemma_one_block(block: JsonView)
    ensures
        blocks_text(seq![block]) == block_text(block),
{
    reveal_with_fuel(blocks_text, 2);
    assert(seq![block].drop_last() =~= Seq::<JsonView>::empty());
    assert(Seq::<char>::empty() + block_text(block) =~= block_text(block));
}

/// The blocks of a message add up: one more text block adds its text, one more
/// tool call adds the tool, in the order in which they stand; a block of another
/// kind adds nothing. A message without blocks is empty.
pub proof fn blocks_add_up(
    line: Seq<char>,
    v: JsonView,
    blocks: Seq<JsonView>,
    w: JsonView,
    block: JsonView,
    t: Seq<char>,
)
    requires
        is_message_line(v, "assistant"@, JsonView::List(blocks)),
        is_message_line(w, "assistant"@, JsonView::List(blocks.push(block))),
    ensures
        ({
            let e = event_of(v, line);
            let f = event_of(w, line);
            &&& e is Assistant
            &&& f is Assistant
            &&& blocks.len() == 0 ==> e->Assistant_text.len() == 0 && e->tools.len() == 0
            &&& is_block(block, "text"@, "text"@, JsonView::Text(t)) ==> f->Assistant_text
                == e->Assistant_text + t && f->tools == e->tools
            &&& is_block(block, "tool_use"@, "name"@, JsonView::Text(t)) ==> f->Assistant_text
                == e->Assistant_text && f->tools == e->tools.push(t)
            &&& is_block(block, "tool_result"@, "content"@, JsonView::Text(t))
                ==> f->Assistant_text == e->Assistant_text + t && f->tools == e->tools
            &&& has_type(block, t) && t != "text"@ && t != "tool_use"@ && t != "tool_result"@
                ==> f->Assistant_text == e->Assistant_text && f->tools == e->tools
            &&& !(block is Object) ==> f->Assistant_text == e->Assistant_text && f->tools
                == e->tools
        }),
{
    lemma_kinds();
    assert(blocks.push(block).drop_last() =~= blocks);
    assert(blocks.push(block).last() == block);
    assert(blocks_text(blocks.push(block)) == blocks_text(blocks) + block_text(block));
    assert(blocks_text(blocks) + Seq::<char>::empty() =~= blocks_text(blocks));
    assert(block_tool(block) is None ==> blocks_tools(blocks.push(block)) == blocks_tools(blocks));
}

/// What a user message says is what an assistant's with the same content would.
pub proof fn both_sides_are_read_alike(
    line: Seq<char>,
    v: JsonView,
    w: JsonView,
    content: JsonView,
)
    requires
        is_message_line(v, "assistant"@, content),
        is_message_line(w, "user"@, content),
    ensures
        event_of(v, line) is Assistant,
        event_of(w, line) == (EventView::ToolResult { text: event_of(v, line)->Assistant_text }),
{
    lemma_kinds();
}

/// Without a message, or with one that has no content, nothing is said.
pub proof fn a_message_without_content(v: JsonView, line: Seq<char>)
    requires
        v is Object,
        !v->Object_0.contains_key("message"@) || (v->Object_0["message"@] is Object
            && !v->Object_0["message"@]->Object_0.contains_key("content"@)),
    ensures
        has_type(v, "assistant"@) ==> event_of(v, line) == (EventView::Assistant {
            text: Seq::empty(),
            tools: Seq::empty(),
        }),
        has_type(v, "user"@) ==> event_of(v, line) == (EventView::ToolResult {
            text: Seq::empty(),
        }),
{
    lemma_kinds();
}

/// Incremental text is that of a text delta; a stream event without one is only
/// kept by its type.
pub proof fn incremental_text(v: JsonView, line: Seq<char>, e: JsonView, d: JsonView, t: Seq<char>)
    requires
        has_type(v, "stream_event"@),
        v->Object_0.contains_key("event"@),
        v->Object_0["event"@] == e,
        e is Object,
        e->Object_0.contains_key("delta"@),
        e->Object_0["delta"@] == d,
    ensures
        is_block(d, "text_delta"@, "text"@, JsonView::Text(t)) && t.len() > 0 ==> event_of(v, line)
            == (EventView::TextDelta { text: t }),
        is_block(d, "text_delta"@, "text"@, JsonView::Text(t)) && t.len() == 0 ==> event_of(v, line)
            == (EventView::Other { kind: "stream_event"@ }),
        !has_type(d, "text_delta"@) ==> event_of(v, line) == (EventView::Other {
            kind: "stream_event"@,
        }),
{
    lemma_kinds();
}

// ---- results ---------------------------------------------------------------

/// The end of a turn: an error only where it says so; its text, its cost, its
/// count of turns and the conversation, each where the object holds it.
pub proof fn the_end_of_a_turn(v: JsonView, line: Seq<char>)
    requires
        has_type(v, "result"@),
    ensures
        ({
            let m = v->Object_0;
            let e = event_of(v, line);
            &&& e is Result
            &&& e->is_error <==> m.contains_key("is_error"@) && m["is_error"@] == JsonView::Bool(
                true,
            )
            &&& m.contains_key("result"@) && m["result"@] is Text ==> e->Result_text == Some(
                m["result"@]->Text_0,
            )
            &&& !(m.contains_key("result"@) && m["result"@] is Text) ==> e->Result_text is None
            &&& m.contains_key("total_cost_usd"@) && m["total_cost_usd"@] is Number ==> e->cost_usd
                == m["total_cost_usd"@]->double
            &&& !(m.contains_key("total_cost_usd"@) && m["total_cost_usd"@] is Number)
                ==> e->cost_usd is None
            &&& m.contains_key("session_id"@) && m["session_id"@] is Text ==> e->Result_session_id
                == Some(m["session_id"@]->Text_0)
            &&& !(m.contains_key("session_id"@) && m["session_id"@] is Text)
                ==> e->Result_session_id is None
            &&& !(m.contains_key("num_turns"@) && m["num_turns"@] is Number
                && m["num_turns"@]->unsigned is Some) ==> e->num_turns is None
            &&& m.contains_key("num_turns"@) && m["num_turns"@] is Number
                && m["num_turns"@]->unsigned is Some && m["num_turns"@]->unsigned->0 <= u32::MAX
                ==> e->num_turns is Some && e->num_turns->0 == m["num_turns"@]->unsigned->0
        }),
{
    lemma_kinds();
}

/// Whether `n` is the count that an object holds under `key`: nothing counts as
/// zero.
pub open spec fn counts(m: Map<Seq<char>, JsonView>, key: Seq<char>, n: u64) -> bool {
    if m.contains_key(key) && m[key] is Number && m[key]->unsigned is Some {
        n == m[key]->unsigned->0
    } else {
        n == 0
    }
}

/// The tokens of a turn, kind by kind.
pub proof fn the_tokens_of_a_turn(v: JsonView, line: Seq<char>)
    requires
        has_type(v, "result"@),
    ensures
        ({
            let m = v->Object_0;
            let e = event_of(v, line);
            &&& e is Result
            &&& m.contains_key("usage"@) && m["usage"@] is Object ==> {
                let u = m["usage"@]->Object_0;
                &&& counts(u, "input_tokens"@, e->usage.input_tokens)
                &&& counts(u, "output_tokens"@, e->usage.output_tokens)
                &&& counts(u, "cache_creation_input_tokens"@, e->usage.cache_creation_tokens)
                &&& counts(u, "cache_read_input_tokens"@, e->usage.cache_read_tokens)
            }
            &&& !(m.contains_key("usage"@) && m["usage"@] is Object) ==> e->usage == (TokenUsage {
                input_tokens: 0,
                output_tokens: 0,
                cache_creation_tokens: 0,
                cache_read_tokens: 0,
            })
        }),
{
    lemma_kinds();
}

// ---- what is passed over ---------------------------------------------------

/// A type that is no text is no type.
pub proof fn a_type_is_a_text(v: JsonView, line: Seq<char>)
    requires
        v is Object,
        v->Object_0.contains_key("type"@),
        !(v->Object_0["type"@] is Text),
    ensures
        event_of(v, line) == (EventView::Other { kind: "unknown"@ }),
{
    lemma_kinds();
}

/// Content that is neither a text nor a list says nothing.
pub proof fn other_content_says_nothing(
    v: JsonView,
    line: Seq<char>,
    content: JsonView,
    block: JsonView,
)
    requires
        !(content is Text),
        !(content is List),
    ensures
        is_message_line(v, "assistant"@, content) ==> event_of(v, line) == (EventView::Assistant {
            text: Seq::empty(),
            tools: Seq::empty(),
        }),
        is_message_line(v, "user"@, content) ==> event_of(v, line) == (EventView::ToolResult {
            text: Seq::empty(),
        }),
        is_block(block, "tool_result"@, "content"@, content) && is_message_line(
            v,
            "user"@,
            JsonView::List(seq![block]),
        ) ==> event_of(v, line) == (EventView::ToolResult { text: Seq::empty() }),
{
    lemma_kinds();
    lemma_one_block(block);
}

/// A block that lacks what its kind says, or has no kind, adds nothing.
pub proof fn an_incomplete_block_adds_nothing(
    line: Seq<char>,
    v: JsonView,
    blocks: Seq<JsonView>,
    w: JsonView,
    block: JsonView,
)
    requires
        is_message_line(v, "assistant"@, JsonView::List(blocks)),
        is_message_line(w, "assistant"@, JsonView::List(blocks.push(block))),
        block is Object,
        ({
            let m = block->Object_0;
            ||| !m.contains_key("type"@)
            ||| has_type(block, "text"@) && !(m.contains_key("text"@) && m["text"@] is Text)
            ||| has_type(block, "tool_use"@) && !(m.contains_key("name"@) && m["name"@] is Text)
            ||| has_type(block, "tool_result"@) && !m.contains_key("content"@)
        }),
    ensures
        event_of(w, line) == event_of(v, line),
{
    lemma_kinds();
    assert(blocks.push(block).drop_last() =~= blocks);
    assert(blocks.push(block).last() == block);
    assert(blocks_text(blocks.push(block)) == blocks_text(blocks) + block_text(block));
    assert(blocks_text(blocks) + Seq::<char>::empty() =~= blocks_text(blocks));
    assert(block_tool(block) is None);
}

/// A stream event without a delta is only kept by its type.
pub proof fn a_stream_event_without_text(v: JsonView, line: Seq<char>)
    requires
        has_type(v, "stream_event"@),
        ({
            let m = v->Object_0;
            ||| !m.contains_key("event"@)
            ||| !(m["event"@] is Object)
            ||| !m["event"@]->Object_0.contains_key("delta"@)
        }),
    ensures
        event_of(v, line) == (EventView::Other { kind: "stream_event"@ }),
{
    lemma_kinds();
}

/// A count of turns beyond 32 bits is reduced to its lowest 32 bits.
pub proof fn a_count_of_turns_wraps(v: JsonView, line: Seq<char>, n: u64)
    requires
        has_type(v, "result"@),
        v->Object_0.contains_key("num_turns"@),
        v->Object_0["num_turns"@] is Number,
        v->Object_0["num_turns"@]->unsigned == Some(n),
    ensures
        event_of(v, line)->num_turns is Some,
        event_of(v, line)->num_turns->0 == n % 0x1_0000_0000,
{
    lemma_kinds();
    assert((n as u32) == n % 0x1_0000_0000) by (bit_vector);
}

// ---- what is written -------------------------------------------------------

/// A prompt is handed over as a message of the user, and the object says nothing
/// else.
pub proof fn what_a_prompt_line_says(prompt: Seq<char>)
    ensures
        user_message(prompt) is Object,
        ({
            let m = user_message(prompt)->Object_0;
            let inner = m["message"@]->Object_0;
            &&& m.dom() == set!["type"@, "message"@]
            &&& m["type"@] == JsonView::Text("user"@)
            &&& m["message"@] is Object
            &&& inner.dom() == set!["role"@, "content"@]
            &&& inner["role"@] == JsonView::Text("user"@)
            &&& inner["content"@] == JsonView::Text(prompt)
        }),
{
    reveal_strlit("type");
    reveal_strlit("message");
    reveal_strlit("role");
    reveal_strlit("content");
    assert("type"@.len() != "message"@.len());
    assert("role"@.len() != "content"@.len());
    let m = user_message(prompt)->Object_0;
    assert(m.dom() =~= set!["type"@, "message"@]);
    assert(m["message"@]->Object_0.dom() =~= set!["role"@, "content"@]);
}

// ---- trees -----------------------------------------------------------------

/// What a list and an object hold: the items in order; of two fields with one key
/// the later one.
pub proof fn what_a_tree_holds(items: Seq<Json>, fields: Seq<(String, Json)>, f: (String, Json))
    ensures
        list_tree(items).len() == items.len(),
        forall|i: int| 0 <= i < items.len() ==> #[trigger] list_tree(items)[i] == items[i]@,
        object_tree(Seq::empty()) == Map::<Seq<char>, JsonView>::empty(),
        object_tree(fields.push(f)).contains_key(f.0@),
        object_tree(fields.push(f))[f.0@] == f.1@,
        forall|key: Seq<char>|
            key != f.0@ ==> object_tree(fields.push(f)).contains_key(key) == object_tree(
                fields,
            ).contains_key(key) && #[trigger] object_tree(fields.push(f))[key] == object_tree(
                fields,
            )[key],
{
    lemma_list_tree(items);
    assert(fields.push(f).drop_last() =~= fields);
}

} // verus!

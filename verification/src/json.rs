//! JSON values as plain trees, and the boundary to the `serde_json` crate.
use crate::model::F64Bits;
use vstd::prelude::*;

verus! {

/// A JSON value. A number is held as the two readings the protocol uses: as an
/// unsigned integer where it is one, and as a double.
#[derive(Debug)]
pub enum Json {
    Null,
    Bool(bool),
    Number { unsigned: Option<u64>, double: Option<F64Bits> },
    Text(String),
    List(Vec<Json>),
    /// Where a key occurs twice, the later field counts.
    Object(Vec<(String, Json)>),
}

/// The mathematical content of a [`Json`].
pub enum JsonView {
    Null,
    Bool(bool),
    Number { unsigned: Option<u64>, double: Option<F64Bits> },
    Text(Seq<char>),
    List(Seq<JsonView>),
    Object(Map<Seq<char>, JsonView>),
}

/// The tree that a value stands for.
pub open spec fn json_tree(v: Json) -> JsonView
    decreases v,
{
    match v {
        Json::Null => JsonView::Null,
        Json::Bool(b) => JsonView::Bool(b),
        Json::Number { unsigned, double } => JsonView::Number { unsigned, double },
        Json::Text(s) => JsonView::Text(s@),
        Json::List(items) => JsonView::List(list_tree(items@)),
        Json::Object(fields) => JsonView::Object(object_tree(fields@)),
    }
}

/// The trees of a list of values.
pub open spec fn list_tree(items: Seq<Json>) -> Seq<JsonView>
    decreases items,
{
    if items.len() == 0 {
        Seq::empty()
    } else {
        list_tree(items.drop_last()).push(json_tree(items.last()))
    }
}

/// The fields of an object, by key.
pub open spec fn object_tree(fields: Seq<(String, Json)>) -> Map<Seq<char>, JsonView>
    decreases fields,
{
    if fields.len() == 0 {
        Map::empty()
    } else {
        object_tree(fields.drop_last()).insert(fields.last().0@, json_tree(fields.last().1))
    }
}

impl View for Json {
    type V = JsonView;

    open spec fn view(&self) -> JsonView {
        json_tree(*self)
    }
}

pub(crate) proof fn lemma_list_tree(items: Seq<Json>)
    ensures
        list_tree(items).len() == items.len(),
        forall|i: int| 0 <= i < items.len() ==> #[trigger] list_tree(items)[i] == items[i]@,
    decreases items.len(),
{
    if items.len() > 0 {
        lemma_list_tree(items.drop_last());
        assert forall|i: int| 0 <= i < items.len() implies #[trigger] list_tree(items)[i]
            == items[i]@ by {
            if i < items.len() - 1 {
                assert(items.drop_last()[i] == items[i]);
            }
        }
    }
}

// ---- reading ---------------------------------------------------------------

impl JsonView {
    /// The field of an object; nothing for a missing key or another kind of value.
    pub open spec fn field(self, key: Seq<char>) -> Option<JsonView> {
        match self {
            JsonView::Object(fields) => if fields.contains_key(key) {
                Some(fields[key])
            } else {
                None
            },
            _ => None,
        }
    }

    /// The text of a string value.
    pub open spec fn text(self) -> Option<Seq<char>> {
        match self {
            JsonView::Text(s) => Some(s),
            _ => None,
        }
    }

    /// The text of a field that holds a string.
    pub open spec fn text_field(self, key: Seq<char>) -> Option<Seq<char>> {
        match self.field(key) {
            Some(v) => v.text(),
            None => None,
        }
    }

    /// The truth value of a field that holds one.
    pub open spec fn bool_field(self, key: Seq<char>) -> Option<bool> {
        match self.field(key) {
            Some(JsonView::Bool(b)) => Some(b),
            _ => None,
        }
    }

    /// A field that holds an unsigned integer.
    pub open spec fn unsigned_field(self, key: Seq<char>) -> Option<u64> {
        match self.field(key) {
            Some(JsonView::Number { unsigned, .. }) => unsigned,
            _ => None,
        }
    }

    /// A field that holds a number, as a double.
    pub open spec fn double_field(self, key: Seq<char>) -> Option<F64Bits> {
        match self.field(key) {
            Some(JsonView::Number { double, .. }) => double,
            _ => None,
        }
    }
}

impl Json {
    /// The field of an object.
    pub fn get(&self, key: &str) -> (r: Option<&Json>)
        ensures
            match r {
                Some(v) => self@.field(key@) == Some(v@),
                None => self@.field(key@) is None,
            },
    {
        match self {
            Json::Object(fields) => {
                let mut n: usize = fields.len();
                assert(fields@.take(n as int) =~= fields@);
                while n > 0
                    invariant
                        n <= fields@.len(),
                        self@ == JsonView::Object(object_tree(fields@)),
                        object_tree(fields@).contains_key(key@) == object_tree(
                            fields@.take(n as int),
                        ).contains_key(key@),
                        object_tree(fields@).contains_key(key@) ==> object_tree(fields@)[key@]
                            == object_tree(fields@.take(n as int))[key@],
                    decreases n,
                {
                    let ghost front = fields@.take(n as int);
                    n = n - 1;
                    proof {
                        assert(front.drop_last() =~= fields@.take(n as int));
                        assert(front.last() == fields@[n as int]);
                    }
                    if crate::text::same_text(fields[n].0.as_str(), key) {
                        return Some(&fields[n].1);
                    }
                }
                None
            },
            _ => None,
        }
    }

    /// The text of a string value.
    pub fn as_text(&self) -> (r: Option<&String>)
        ensures
            match r {
                Some(s) => self@.text() == Some(s@),
                None => self@.text() is None,
            },
    {
        match self {
            Json::Text(s) => Some(s),
            _ => None,
        }
    }

    /// The text of a field that holds a string.
    pub fn get_text(&self, key: &str) -> (r: Option<&String>)
        ensures
            match r {
                Some(s) => self@.text_field(key@) == Some(s@),
                None => self@.text_field(key@) is None,
            },
    {
        match self.get(key) {
            Some(v) => v.as_text(),
            None => None,
        }
    }

    /// The truth value of a field that holds one.
    pub fn get_bool(&self, key: &str) -> (r: Option<bool>)
        ensures
            r == self@.bool_field(key@),
    {
        match self.get(key) {
            Some(Json::Bool(b)) => Some(*b),
            _ => None,
        }
    }

    /// A field that holds an unsigned integer.
    pub fn get_unsigned(&self, key: &str) -> (r: Option<u64>)
        ensures
            r == self@.unsigned_field(key@),
    {
        match self.get(key) {
            Some(Json::Number { unsigned, .. }) => *unsigned,
            _ => None,
        }
    }

    /// A field that holds a number, as a double.
    pub fn get_double(&self, key: &str) -> (r: Option<F64Bits>)
        ensures
            r == self@.double_field(key@),
    {
        match self.get(key) {
            Some(Json::Number { double, .. }) => *double,
            _ => None,
        }
    }
}

// ---- serde_json ------------------------------------------------------------

/// The crate's own value type, which Verus does not look into.
#[verifier::external_type_specification]
#[verifier::external_body]
pub struct ExValue(serde_json::Value);

/// One level of a `serde_json::Value`.
enum Node {
    Null,
    Bool(bool),
    Number { unsigned: Option<u64>, double: Option<F64Bits> },
    Text(String),
    List(Vec<serde_json::Value>),
    Object(Vec<(String, serde_json::Value)>),
}

/// The tree that a `serde_json::Value` holds.
pub uninterp spec fn value_tree(value: serde_json::Value) -> JsonView;

/// What `serde_json::from_str` reads from a text: a tree, or nothing where the
/// text is not one JSON value.
pub uninterp spec fn json_text(text: Seq<char>) -> Option<JsonView>;

/// The compact text that `serde_json` writes for a tree of objects and strings.
pub uninterp spec fn json_rendering(tree: JsonView) -> Seq<char>;

/// The fields of an object, by key.
pub open spec fn fields_tree(fields: Seq<(String, serde_json::Value)>) -> Map<
    Seq<char>,
    JsonView,
>
    decreases fields.len(),
{
    if fields.len() == 0 {
        Map::empty()
    } else {
        fields_tree(fields.drop_last()).insert(fields.last().0@, value_tree(fields.last().1))
    }
}

spec fn node_tree(node: Node) -> JsonView {
    match node {
        Node::Null => JsonView::Null,
        Node::Bool(b) => JsonView::Bool(b),
        Node::Number { unsigned, double } => JsonView::Number { unsigned, double },
        Node::Text(s) => JsonView::Text(s@),
        Node::List(items) => JsonView::List(
            items@.map_values(|v: serde_json::Value| value_tree(v)),
        ),
        Node::Object(fields) => JsonView::Object(fields_tree(fields@)),
    }
}

/// Whether no two fields have the same key.
spec fn distinct_keys(fields: Seq<(String, serde_json::Value)>) -> bool {
    forall|i: int, j: int|
        #![trigger fields[i], fields[j]]
        0 <= i < j < fields.len() ==> fields[i].0@ != fields[j].0@
}

/// `serde_json::from_str` to a `serde_json::Value`: gives the tree that the text
/// stands for, or fails where the text is not one JSON value.
#[verifier::external_body]
fn parse_value(text: &str) -> (r: Option<serde_json::Value>)
    ensures
        match r {
            Some(v) => json_text(text@) == Some(value_tree(v)),
            None => json_text(text@) is None,
        },
{
    serde_json::from_str(text).ok()
}

/// Takes a `serde_json::Value` apart by one level: `as_u64` and `as_f64` of a
/// number, the items of an array, the fields of an object (a map: no key twice).
#[verifier::external_body]
fn open_value(value: serde_json::Value) -> (r: Node)
    ensures
        node_tree(r) == value_tree(value),
        match r {
            Node::Object(fields) => distinct_keys(fields@),
            _ => true,
        },
{
    match value {
        serde_json::Value::Null => Node::Null,
        serde_json::Value::Bool(b) => Node::Bool(b),
        serde_json::Value::Number(n) => Node::Number {
            unsigned: n.as_u64(),
            double: n.as_f64().map(|d| F64Bits(d.to_bits())),
        },
        serde_json::Value::String(s) => Node::Text(s),
        serde_json::Value::Array(items) => Node::List(items),
        serde_json::Value::Object(fields) => Node::Object(fields.into_iter().collect()),
    }
}

proof fn lemma_fields_tree(fields: Seq<(String, serde_json::Value)>)
    ensures
        fields_tree(fields).dom().finite(),
        distinct_keys(fields) ==> forall|i: int|
            0 <= i < fields.len() ==> #[trigger] fields_tree(fields).contains_key(fields[i].0@)
                && fields_tree(fields)[fields[i].0@] == value_tree(fields[i].1),
    decreases fields.len(),
{
    if fields.len() > 0 {
        let front = fields.drop_last();
        lemma_fields_tree(front);
        if distinct_keys(fields) {
            assert(distinct_keys(front)) by {
                assert forall|i: int, j: int|
                    #![trigger front[i], front[j]]
                    0 <= i < j < front.len() implies front[i].0@ != front[j].0@ by {
                    assert(front[i] == fields[i] && front[j] == fields[j]);
                }
            }
            assert forall|i: int| 0 <= i < fields.len() implies #[trigger] fields_tree(
                fields,
            ).contains_key(fields[i].0@) && fields_tree(fields)[fields[i].0@] == value_tree(
                fields[i].1,
            ) by {
                if i < front.len() {
                    assert(front[i] == fields[i]);
                    assert(fields_tree(front).contains_key(front[i].0@));
                    assert(fields[i].0@ != fields[fields.len() - 1].0@);
                }
            }
        }
    }
}

/// The plain tree of a `serde_json::Value`.
fn json_of_value(value: serde_json::Value) -> (r: Json)
    ensures
        r@ == value_tree(value),
    decreases value_tree(value),
{
    let ghost tree = value_tree(value);
    match open_value(value) {
        Node::Null => Json::Null,
        Node::Bool(b) => Json::Bool(b),
        Node::Number { unsigned, double } => Json::Number { unsigned, double },
        Node::Text(s) => Json::Text(s),
        Node::List(items) => {
            let ghost all = items@;
            let mut rest = items;
            let mut back: Vec<Json> = Vec::new();
            while rest.len() > 0
                invariant
                    tree == value_tree(value),
                    tree == JsonView::List(all.map_values(|v: serde_json::Value| value_tree(v))),
                    rest@ == all.take(rest@.len() as int),
                    rest@.len() + back@.len() == all.len(),
                    forall|i: int|
                        0 <= i < back@.len() ==> (#[trigger] back@[i])@ == value_tree(
                            all[all.len() - 1 - i],
                        ),
                decreases rest@.len(),
            {
                let ghost n = rest@.len() as int;
                match rest.pop() {
                    Some(item) => {
                        proof {
                            assert(item == all[n - 1]);
                            let trees = all.map_values(|v: serde_json::Value| value_tree(v));
                            assert(value_tree(item) == trees[n - 1]);
                            assert(decreases_to!(tree => tree->List_0));
                            assert(decreases_to!(trees => trees[n - 1]));
                        }
                        back.push(json_of_value(item));
                    },
                    None => {},
                }
            }
            let mut out: Vec<Json> = Vec::new();
            while back.len() > 0
                invariant
                    out@.len() + back@.len() == all.len(),
                    forall|i: int|
                        0 <= i < back@.len() ==> (#[trigger] back@[i])@ == value_tree(
                            all[all.len() - 1 - i],
                        ),
                    forall|i: int|
                        0 <= i < out@.len() ==> (#[trigger] out@[i])@ == value_tree(all[i]),
                decreases back@.len(),
            {
                match back.pop() {
                    Some(item) => {
                        out.push(item);
                    },
                    None => {},
                }
            }
            proof {
                lemma_list_tree(out@);
                assert(list_tree(out@) =~= all.map_values(
                    |v: serde_json::Value| value_tree(v),
                ));
            }
            Json::List(out)
        },
        Node::Object(fields) => {
            let ghost all = fields@;
            let mut rest = fields;
            let mut back: Vec<(String, Json)> = Vec::new();
            proof {
                lemma_fields_tree(all);
            }
            while rest.len() > 0
                invariant
                    tree == value_tree(value),
                    tree == JsonView::Object(fields_tree(all)),
                    fields_tree(all).dom().finite(),
                    forall|i: int|
                        0 <= i < all.len() ==> #[trigger] fields_tree(all).contains_key(
                            all[i].0@,
                        ) && fields_tree(all)[all[i].0@] == value_tree(all[i].1),
                    rest@ == all.take(rest@.len() as int),
                    rest@.len() + back@.len() == all.len(),
                    forall|i: int|
                        0 <= i < back@.len() ==> (#[trigger] back@[i]).0 == all[all.len() - 1
                            - i].0 && back@[i].1@ == value_tree(all[all.len() - 1 - i].1),
                decreases rest@.len(),
            {
                let ghost n = rest@.len() as int;
                match rest.pop() {
                    Some((key, item)) => {
                        proof {
                            assert(key == all[n - 1].0 && item == all[n - 1].1);
                            let trees = fields_tree(all);
                            assert(trees.contains_key(all[n - 1].0@));
                            assert(decreases_to!(tree => tree->Object_0));
                            assert(decreases_to!(trees => trees[key@]));
                        }
                        back.push((key, json_of_value(item)));
                    },
                    None => {},
                }
            }
            let mut out: Vec<(String, Json)> = Vec::new();
            proof {
                assert(all.take(0) =~= Seq::<(String, serde_json::Value)>::empty());
            }
            while back.len() > 0
                invariant
                    out@.len() + back@.len() == all.len(),
                    forall|i: int|
                        0 <= i < back@.len() ==> (#[trigger] back@[i]).0 == all[all.len() - 1
                            - i].0 && back@[i].1@ == value_tree(all[all.len() - 1 - i].1),
                    object_tree(out@) == fields_tree(all.take(out@.len() as int)),
                decreases back@.len(),
            {
                let ghost n = out@.len() as int;
                let ghost before = out@;
                match back.pop() {
                    Some(item) => {
                        out.push(item);
                        proof {
                            assert(out@.drop_last() =~= before);
                            assert(all.take(n + 1).drop_last() =~= all.take(n));
                            assert(all.take(n + 1).last() == all[n]);
                        }
                    },
                    None => {},
                }
            }
            proof {
                assert(all.take(all.len() as int) =~= all);
            }
            Json::Object(out)
        },
    }
}

/// Read a text as one JSON value.
pub fn read_json(text: &str) -> (r: Option<Json>)
    ensures
        match r {
            Some(v) => json_text(text@) == Some(v@),
            None => json_text(text@) is None,
        },
{
    match parse_value(text) {
        Some(value) => Some(json_of_value(value)),
        None => None,
    }
}

// ---- writing ---------------------------------------------------------------

/// Whether a tree is made of strings and, at most `depth` levels deep, objects.
pub open spec fn is_message(tree: JsonView, depth: nat) -> bool
    decreases depth,
{
    match tree {
        JsonView::Text(_) => true,
        JsonView::Object(fields) => depth > 0 && forall|k: Seq<char>|
            fields.contains_key(k) ==> is_message(#[trigger] fields[k], (depth - 1) as nat),
        _ => false,
    }
}

/// How deep a message may be nested.
pub const MESSAGE_DEPTH: u64 = 16;

/// `serde_json::Value::String` of a text.
#[verifier::external_body]
pub(crate) fn text_value(text: &str) -> (r: serde_json::Value)
    ensures
        value_tree(r) == JsonView::Text(text@),
{
    serde_json::Value::String(text.to_owned())
}

/// `serde_json::Value` collected from key and value pairs: an object, in which
/// the later of two fields with one key stays.
#[verifier::external_body]
pub(crate) fn object_value(fields: Vec<(String, serde_json::Value)>) -> (r: serde_json::Value)
    ensures
        value_tree(r) == JsonView::Object(fields_tree(fields@)),
{
    fields.into_iter().collect()
}

/// `serde_json::Value::to_string`: the compact text of a tree of objects and
/// strings. `serde_json::from_str` reads the same tree back from it; control
/// characters are escaped, so no line break stands in it; an object's text is
/// enclosed in braces.
#[verifier::external_body]
pub(crate) fn value_text(value: &serde_json::Value) -> (r: String)
    requires
        is_message(value_tree(*value), MESSAGE_DEPTH as nat),
    ensures
        r@ == json_rendering(value_tree(*value)),
        json_text(r@) == Some(value_tree(*value)),
        forall|i: int| 0 <= i < r@.len() ==> r@[i] != '\n' && r@[i] != '\r',
        value_tree(*value) is Object ==> r@.len() >= 2 && r@[0] == '{' && r@.last() == '}',
{
    value.to_string()
}

} // verus!

//! JSON documents: the tree that the supervisor reads messages from, and how a line of text
//! becomes one.
use vstd::prelude::*;

use crate::text::same_text;

verus! {

/// A JSON document as a mathematical value. Of a number only the integer counts: a number that
/// is no integer, or one out of the range of `i64`, is `Number(None)`.
pub enum Tree {
    Null,
    Bool(bool),
    Number(Option<i64>),
    Text(Seq<char>),
    List(Seq<Tree>),
    Record(Seq<(Seq<char>, Tree)>),
}

/// A JSON document.
#[derive(Debug)]
pub enum Json {
    Null,
    Bool(bool),
    Number(Option<i64>),
    Text(String),
    List(Vec<Json>),
    Record(Vec<(String, Json)>),
}

impl View for Json {
    type V = Tree;

    open spec fn view(&self) -> Tree {
        tree_of(*self)
    }
}

/// The mathematical value of `json`.
pub open spec fn tree_of(json: Json) -> Tree
    decreases json,
{
    match json {
        Json::Null => Tree::Null,
        Json::Bool(b) => Tree::Bool(b),
        Json::Number(n) => Tree::Number(n),
        Json::Text(s) => Tree::Text(s@),
        Json::List(items) => Tree::List(
            Seq::new(
                items@.len(),
                |i: int|
                    if 0 <= i < items@.len() {
                        tree_of(items@[i])
                    } else {
                        Tree::Null
                    },
            ),
        ),
        Json::Record(entries) => Tree::Record(
            Seq::new(
                entries@.len(),
                |i: int|
                    if 0 <= i < entries@.len() {
                        (entries@[i].0@, tree_of(entries@[i].1))
                    } else {
                        (seq![], Tree::Null)
                    },
            ),
        ),
    }
}

/// The value of the first entry under `key`.
pub open spec fn entry_of(entries: Seq<(Seq<char>, Tree)>, key: Seq<char>) -> Option<Tree>
    decreases entries.len(),
{
    if entries.len() == 0 {
        None
    } else if entries[0].0 == key {
        Some(entries[0].1)
    } else {
        entry_of(entries.drop_first(), key)
    }
}

impl Tree {
    /// The value under `key`, where this is a record that has one.
    pub open spec fn field(self, key: Seq<char>) -> Option<Tree> {
        match self {
            Tree::Record(entries) => entry_of(entries, key),
            _ => None,
        }
    }

    /// The value under `inner` in the record under `outer`.
    pub open spec fn nested(self, outer: Seq<char>, inner: Seq<char>) -> Option<Tree> {
        match self.field(outer) {
            Some(tree) => tree.field(inner),
            None => None,
        }
    }

    /// The text under `key`.
    pub open spec fn text_field(self, key: Seq<char>) -> Option<Seq<char>> {
        match self.field(key) {
            Some(Tree::Text(s)) => Some(s),
            _ => None,
        }
    }

    /// The integer under `key`.
    pub open spec fn integer_field(self, key: Seq<char>) -> Option<i64> {
        match self.field(key) {
            Some(Tree::Number(n)) => n,
            _ => None,
        }
    }
}

impl Json {
    /// The value under `key`, where this is a record that has one.
    pub fn field(&self, key: &str) -> (r: Option<&Json>)
        ensures
            match r {
                Some(json) => self@.field(key@) == Some(json@),
                None => self@.field(key@) is None,
            },
    {
        match self {
            Json::Record(entries) => {
                let ghost all = self@->Record_0;
                let mut i: usize = 0;
                proof {
                    assert(all.skip(0) =~= all);
                }
                while i < entries.len()
                    invariant
                        i <= entries@.len(),
                        *self == Json::Record(*entries),
                        self@ == Tree::Record(all),
                        all.len() == entries@.len(),
                        entry_of(all, key@) == entry_of(all.skip(i as int), key@),
                    decreases entries@.len() - i,
                {
                    proof {
                        assert(all[i as int] == (entries@[i as int].0@, entries@[i as int].1@));
                        assert(all.skip(i as int)[0] == all[i as int]);
                        assert(all.skip(i as int).drop_first() =~= all.skip(i + 1));
                    }
                    if same_text(entries[i].0.as_str(), key) {
                        return Some(&entries[i].1);
                    }
                    i += 1;
                }
                None
            },
            _ => None,
        }
    }

    /// The value under `inner` in the record under `outer`.
    pub fn nested(&self, outer: &str, inner: &str) -> (r: Option<&Json>)
        ensures
            match r {
                Some(json) => self@.nested(outer@, inner@) == Some(json@),
                None => self@.nested(outer@, inner@) is None,
            },
    {
        match self.field(outer) {
            Some(json) => json.field(inner),
            None => None,
        }
    }

    /// The text under `key`.
    pub fn text_field(&self, key: &str) -> (r: Option<&String>)
        ensures
            match r {
                Some(s) => self@.text_field(key@) == Some(s@),
                None => self@.text_field(key@) is None,
            },
    {
        match self.field(key) {
            Some(Json::Text(s)) => Some(s),
            _ => None,
        }
    }

    /// The integer under `key`.
    pub fn integer_field(&self, key: &str) -> (r: Option<i64>)
        ensures
            r == self@.integer_field(key@),
    {
        match self.field(key) {
            Some(Json::Number(n)) => *n,
            _ => None,
        }
    }

    pub fn is_null(&self) -> (r: bool)
        ensures
            r == (self@ is Null),
    {
        match self {
            Json::Null => true,
            _ => false,
        }
    }
}

// ---------------------------------------------------------------------------
// Reading and quoting text
// ---------------------------------------------------------------------------
/// The type of parsed documents of `serde_json`.
#[verifier::external_type_specification]
#[verifier::external_body]
pub struct ExValue(serde_json::Value);

/// What a parsed document of `serde_json` holds.
pub uninterp spec fn value_tree(value: serde_json::Value) -> Tree;

/// The document that `text` denotes, or `None` where `text` is no JSON. This is what
/// `serde_json::from_str` makes of it.
pub uninterp spec fn json_document(text: Seq<char>) -> Option<Tree>;

/// `text` as a JSON string, quoted and escaped as `serde_json::to_string` does it.
pub uninterp spec fn json_quoted(text: Seq<char>) -> Seq<char>;

/// `serde_json::from_str` into a document. Which texts it accepts, and the document that they
/// denote, are named, not described.
#[verifier::external_body]
fn read_value(text: &str) -> (r: Option<serde_json::Value>)
    ensures
        match r {
            Some(value) => json_document(text@) == Some(value_tree(value)),
            None => json_document(text@) is None,
        },
{
    serde_json::from_str::<serde_json::Value>(text).ok()
}

/// The outermost layer of a parsed document.
enum Layer {
    Null,
    Bool(bool),
    Number(Option<i64>),
    Text(String),
    List(Vec<serde_json::Value>),
    Record(Vec<(String, serde_json::Value)>),
}

spec fn layer_tree(layer: Layer) -> Tree {
    match layer {
        Layer::Null => Tree::Null,
        Layer::Bool(b) => Tree::Bool(b),
        Layer::Number(n) => Tree::Number(n),
        Layer::Text(s) => Tree::Text(s@),
        Layer::List(items) => Tree::List(Seq::new(items@.len(), |i: int| value_tree(items@[i]))),
        Layer::Record(entries) => Tree::Record(
            Seq::new(entries@.len(), |i: int| (entries@[i].0@, value_tree(entries@[i].1))),
        ),
    }
}

/// Takes the variants of `serde_json::Value` apart, one by one. A number is taken as
/// `serde_json::Number::as_i64` gives it.
#[verifier::external_body]
fn open_value(value: serde_json::Value) -> (layer: Layer)
    ensures
        value_tree(value) == layer_tree(layer),
{
    match value {
        serde_json::Value::Null => Layer::Null,
        serde_json::Value::Bool(b) => Layer::Bool(b),
        serde_json::Value::Number(n) => Layer::Number(n.as_i64()),
        serde_json::Value::String(s) => Layer::Text(s),
        serde_json::Value::Array(items) => Layer::List(items),
        serde_json::Value::Object(entries) => Layer::Record(entries.into_iter().collect()),
    }
}

/// The document that `value` holds.
fn from_value(value: serde_json::Value) -> (json: Json)
    ensures
        json@ == value_tree(value),
    decreases value_tree(value),
{
    let ghost whole = value_tree(value);
    match open_value(value) {
        Layer::Null => Json::Null,
        Layer::Bool(b) => Json::Bool(b),
        Layer::Number(n) => Json::Number(n),
        Layer::Text(s) => Json::Text(s),
        Layer::List(items) => {
            let ghost all = items@;
            let mut done: Vec<Json> = Vec::new();
            for item in it: items
                invariant
                    it.seq() == all,
                    done@.len() == it.index(),
                    whole is List,
                    whole->List_0.len() == all.len(),
                    forall|i: int| 0 <= i < all.len() ==> whole->List_0[i] == value_tree(
                        #[trigger] all[i],
                    ),
                    forall|i: int|
                        0 <= i < done@.len() ==> (#[trigger] done@[i])@ == whole->List_0[i],
                    value_tree(value) == whole,
            {
                proof {
                    assert(all[it.index()] == item);
                    assert(value_tree(item) == whole->List_0[it.index()]);
                }
                done.push(from_value(item));
            }
            let json = Json::List(done);
            proof {
                assert(json@->List_0 =~= whole->List_0);
            }
            json
        },
        Layer::Record(entries) => {
            let ghost all = entries@;
            let mut done: Vec<(String, Json)> = Vec::new();
            for entry in it: entries
                invariant
                    it.seq() == all,
                    done@.len() == it.index(),
                    whole is Record,
                    whole->Record_0.len() == all.len(),
                    forall|i: int|
                        0 <= i < all.len() ==> whole->Record_0[i] == (
                            (#[trigger] all[i]).0@,
                            value_tree(all[i].1),
                        ),
                    forall|i: int|
                        0 <= i < done@.len() ==> ((#[trigger] done@[i]).0@, done@[i].1@)
                            == whole->Record_0[i],
                    value_tree(value) == whole,
            {
                let (key, inner) = entry;
                proof {
                    assert(all[it.index()] == (key, inner));
                    assert(whole->Record_0[it.index()] == (key@, value_tree(inner)));
                    assert(decreases_to!(whole => whole->Record_0[it.index()].1));
                }
                done.push((key, from_value(inner)));
            }
            let json = Json::Record(done);
            proof {
                assert(json@->Record_0 =~= whole->Record_0);
            }
            json
        },
    }
}

/// The document that `text` denotes, or `None` where it is no JSON.
pub fn parse_json(text: &str) -> (r: Option<Json>)
    ensures
        match r {
            Some(json) => json_document(text@) == Some(json@),
            None => json_document(text@) is None,
        },
{
    match read_value(text) {
        Some(value) => Some(from_value(value)),
        None => None,
    }
}

/// `serde_json::to_string` on a string: the JSON string for `text`. The escapes are named, not
/// described. Read as JSON, the result denotes the text.
#[verifier::external_body]
pub(crate) fn quote_json(text: &str) -> (r: String)
    ensures
        r@ == json_quoted(text@),
        json_document(r@) == Some(Tree::Text(text@)),
{
    serde_json::to_string(text).unwrap()
}

/// A field is the first entry of a record with its key: entries with other keys before it do not
/// matter, nor do any behind it, and what is no record has no fields.
pub proof fn a_field_is_the_first_entry_with_its_key(
    front: Seq<(Seq<char>, Tree)>,
    key: Seq<char>,
    value: Tree,
    back: Seq<(Seq<char>, Tree)>,
    tree: Tree,
)
    requires
        forall|i: int| 0 <= i < front.len() ==> (#[trigger] front[i]).0 != key,
    ensures
        Tree::Record(front).field(key) is None,
        Tree::Record(front + seq![(key, value)] + back).field(key) == Some(value),
        !(tree is Record) ==> tree.field(key) is None,
    decreases front.len(),
{
    let all = front + seq![(key, value)] + back;
    if front.len() == 0 {
        assert(all[0] == (key, value));
    } else {
        let rest = front.drop_first();
        assert forall|i: int| 0 <= i < rest.len() implies (#[trigger] rest[i]).0 != key by {
            assert(rest[i] == front[i + 1]);
        }
        a_field_is_the_first_entry_with_its_key(rest, key, value, back, tree);
        assert(all[0] == front[0]);
        assert(all.drop_first() =~= rest + seq![(key, value)] + back);
    }
}

/// A field counts as a text only where a text stands in it, and as an integer only where an integer
/// stands in it.
pub proof fn fields_have_their_own_kinds(tree: Tree, key: Seq<char>, s: Seq<char>, n: i64)
    ensures
        tree.text_field(key) == Some(s) <==> tree.field(key) == Some(Tree::Text(s)),
        tree.integer_field(key) == Some(n) <==> tree.field(key) == Some(Tree::Number(Some(n))),
{
}

/// A nested field is a field of a field.
pub proof fn nested_fields_lie_one_in_the_other(
    tree: Tree,
    outer: Seq<char>,
    inner: Seq<char>,
    middle: Tree,
    value: Tree,
)
    ensures
        tree.field(outer) is None ==> tree.nested(outer, inner) is None,
        tree.field(outer) == Some(middle) ==> (tree.nested(outer, inner) == Some(value)
            <==> middle.field(inner) == Some(value)),
{
}

/// The tree of a document has the shape and the values of the document.
pub proof fn the_tree_of_a_document_has_its_values(json: Json)
    ensures
        json is Null <==> json@ is Null,
        json is Bool <==> json@ is Bool,
        json is Number <==> json@ is Number,
        json is Text <==> json@ is Text,
        json is List <==> json@ is List,
        json is Record <==> json@ is Record,
        json is Bool ==> json@->Bool_0 == json->Bool_0,
        json is Number ==> json@->Number_0 == json->Number_0,
        json is Text ==> json@->Text_0 == json->Text_0@,
        json is List ==> {
            &&& json@->List_0.len() == json->List_0@.len()
            &&& forall|i: int|
                0 <= i < json->List_0@.len() ==> #[trigger] json@->List_0[i] == json->List_0@[i]@
        },
        json is Record ==> {
            &&& json@->Record_0.len() == json->Record_0@.len()
            &&& forall|i: int|
                0 <= i < json->Record_0@.len() ==> #[trigger] json@->Record_0[i] == (
                    json->Record_0@[i].0@,
                    json->Record_0@[i].1@,
                )
        },
{
}

} // verus!

//! JSON documents: what the members of an object are.
use crate::text;
use serde_json::Value;
use vstd::prelude::*;

verus! {

/// What a member of a JSON object is.
#[derive(Debug)]
pub enum JsonKind {
    Null,
    Bool(bool),
    /// A number, with its value where that is an unsigned integer.
    Number(Option<u64>),
    Text(String),
    /// An array, with the texts of its items where they are texts.
    Array(Vec<Option<String>>),
    Object,
}

/// What a member of a JSON object is, with its text.
pub enum JsonFacts {
    Null,
    Bool(bool),
    Number(Option<u64>),
    Text(Seq<char>),
    Array(Seq<Option<Seq<char>>>),
    Object,
}

impl View for JsonKind {
    type V = JsonFacts;

    open spec fn view(&self) -> JsonFacts {
        match *self {
            JsonKind::Null => JsonFacts::Null,
            JsonKind::Bool(b) => JsonFacts::Bool(b),
            JsonKind::Number(n) => JsonFacts::Number(n),
            JsonKind::Text(s) => JsonFacts::Text(s@),
            JsonKind::Array(v) => JsonFacts::Array(
                v@.map_values(|o: Option<String>| text::opt(o)),
            ),
            JsonKind::Object => JsonFacts::Object,
        }
    }
}

/// What a document is: an object with its members, or something else.
pub enum JsonDocument {
    Object(Vec<(String, JsonKind)>),
    Other,
}

/// What a document is: an object with its members, or something else.
pub enum DocumentFacts {
    Object(Map<Seq<char>, JsonFacts>),
    Other,
}

/// The members of a list, later ones first.
pub open spec fn members(v: Seq<(String, JsonKind)>) -> Map<Seq<char>, JsonFacts>
    decreases v.len(),
{
    if v.len() == 0 {
        Map::empty()
    } else {
        members(v.drop_last()).insert(v.last().0@, v.last().1@)
    }
}

impl View for JsonDocument {
    type V = DocumentFacts;

    open spec fn view(&self) -> DocumentFacts {
        match *self {
            JsonDocument::Object(v) => DocumentFacts::Object(members(v@)),
            JsonDocument::Other => DocumentFacts::Other,
        }
    }
}

/// What `serde_json` reads from a text: the document, or why it is malformed.
pub uninterp spec fn parsed_json(s: Seq<char>) -> Result<DocumentFacts, Seq<char>>;

/// The views of a parsed document.
pub open spec fn document(r: Result<JsonDocument, String>) -> Result<DocumentFacts, Seq<char>> {
    match r {
        Ok(d) => Ok(d@),
        Err(e) => Err(e@),
    }
}

/// Calls `serde_json::from_str` and hands out the members of the object it
/// reads. The document is determined by the text; how JSON is read is not
/// restated here.
#[verifier::external_body]
pub(crate) fn parse_json(s: &str) -> (r: Result<JsonDocument, String>)
    ensures
        document(r) == parsed_json(s@),
{
    let kind = |v: Value| match v {
        Value::Null => JsonKind::Null,
        Value::Bool(b) => JsonKind::Bool(b),
        Value::Number(n) => JsonKind::Number(n.as_u64()),
        Value::String(s) => JsonKind::Text(s),
        Value::Array(a) => JsonKind::Array(a.iter().map(|v| v.as_str().map(String::from)).collect()),
        Value::Object(_) => JsonKind::Object,
    };
    Ok(match serde_json::from_str(s).map_err(|e| e.to_string())? {
        Value::Object(m) => JsonDocument::Object(m.into_iter().map(|(k, v)| (k, kind(v))).collect()),
        _ => JsonDocument::Other,
    })
}

impl JsonDocument {
    /// The member with the given name.
    pub fn member(&self, name: &str) -> (r: Option<&JsonKind>)
        ensures
            (match r {
                Some(k) => Some(k@),
                None => None,
            }) == self@.member(name@),
    {
        match self {
            JsonDocument::Object(v) => {
                let mut i: usize = v.len();
                assert(v@.take(v@.len() as int) == v@);
                while i > 0
                    invariant
                        i <= v@.len(),
                        self@ == DocumentFacts::Object(members(v@)),
                        members(v@).contains_key(name@) == members(
                            v@.take(i as int),
                        ).contains_key(name@),
                        members(v@).contains_key(name@) ==> members(v@)[name@] == members(
                            v@.take(i as int),
                        )[name@],
                    decreases i,
                {
                    assert(v@.take(i as int).drop_last() == v@.take(i - 1));
                    assert(v@.take(i as int).last() == v@[i - 1]);
                    i -= 1;
                    if text::same(v[i].0.as_str(), name) {
                        return Some(&v[i].1);
                    }
                }
                None
            },
            JsonDocument::Other => None,
        }
    }
}

impl DocumentFacts {
    /// The member with the given name.
    pub open spec fn member(self, name: Seq<char>) -> Option<JsonFacts> {
        match self {
            DocumentFacts::Object(m) => if m.contains_key(name) {
                Some(m[name])
            } else {
                None
            },
            DocumentFacts::Other => None,
        }
    }
}

} // verus!

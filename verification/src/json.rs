//! JSON as the encoder speaks it: the text of a request, and what is read of a
//! reply.

use crate::asset::hex_digit;
use crate::text::{optional_text, texts};
use vstd::prelude::*;
use vstd::utf8::encode_utf8;

verus! {

/// How a character is written within a JSON string.
pub open spec fn json_escaped_char(c: char) -> Seq<char> {
    if c == '"' {
        seq!['\\', '"']
    } else if c == '\\' {
        seq!['\\', '\\']
    } else if c == '\u{8}' {
        seq!['\\', 'b']
    } else if c == '\t' {
        seq!['\\', 't']
    } else if c == '\n' {
        seq!['\\', 'n']
    } else if c == '\u{c}' {
        seq!['\\', 'f']
    } else if c == '\r' {
        seq!['\\', 'r']
    } else if ' ' > c {
        seq!['\\', 'u', '0', '0', hex_digit(c as nat / 16), hex_digit(c as nat % 16)]
    } else {
        seq![c]
    }
}

/// The characters of `text`, each as it is written within a JSON string.
pub open spec fn json_escaped(text: Seq<char>) -> Seq<char>
    decreases text.len(),
{
    if text.len() == 0 {
        Seq::empty()
    } else {
        json_escaped(text.drop_last()) + json_escaped_char(text.last())
    }
}

/// The JSON string that holds `text`.
pub open spec fn json_string(text: Seq<char>) -> Seq<char> {
    seq!['"'] + json_escaped(text) + seq!['"']
}

/// The JSON object with one member, whose value is written as `value`.
pub open spec fn json_object(key: Seq<char>, value: Seq<char>) -> Seq<char> {
    seq!['{'] + json_string(key) + seq![':'] + value + seq!['}']
}

/// The member of a JSON object, as far as an embedding is read from it.
#[derive(Debug, PartialEq, Eq)]
pub enum Member {
    Null,
    Bool,
    Number,
    /// A string.
    Text { text: String },
    /// An array: of each item its number in decimal notation, where it is one.
    List { items: Vec<Option<String>> },
    Object,
}

/// A member with its texts as sequences of characters.
pub enum MemberView {
    Null,
    Bool,
    Number,
    Text { text: Seq<char> },
    List { items: Seq<Option<Seq<char>>> },
    Object,
}

impl View for Member {
    type V = MemberView;

    open spec fn view(&self) -> MemberView {
        match self {
            Member::Null => MemberView::Null,
            Member::Bool => MemberView::Bool,
            Member::Number => MemberView::Number,
            Member::Text { text } => MemberView::Text { text: text@ },
            Member::List { items } => MemberView::List {
                items: items@.map_values(|item: Option<String>| optional_text(item)),
            },
            Member::Object => MemberView::Object,
        }
    }
}

/// The view of a member, where there is one.
pub open spec fn member_view(member: Option<Member>) -> Option<MemberView> {
    match member {
        Some(m) => Some(m@),
        None => None,
    }
}

/// The member `key` of the JSON document `body`, where that is an object with such
/// a member, as `serde_json` reads it; `Err` where `body` is not JSON.
pub uninterp spec fn document_member(body: Seq<u8>, key: Seq<char>) -> Result<
    Option<MemberView>,
    (),
>;

/// The numbers of the JSON array `text`, each in decimal notation, as `serde_json`
/// reads them; the text of its error where `text` is not an array of numbers.
pub uninterp spec fn number_list(text: Seq<char>) -> Result<Seq<Seq<char>>, Seq<char>>;

/// An array whose items are all numbers.
pub open spec fn number_items(numbers: Seq<Seq<char>>) -> MemberView {
    MemberView::List { items: numbers.map_values(|number: Seq<char>| Some(number)) }
}

/// The texts of a list of strings, or of an error.
pub open spec fn texts_result(r: Result<Vec<String>, String>) -> Result<Seq<Seq<char>>, Seq<char>> {
    match r {
        Ok(list) => Ok(texts(list@)),
        Err(error) => Err(error@),
    }
}

/// The `to_string` of nested `serde_json::Map`s, each with one member: objects
/// without any space, keys and text as JSON strings.
#[verifier::external_body]
pub(crate) fn nested_text(outer: &str, middle: &str, inner: &str, text: &str) -> (s: String)
    ensures
        s@ == json_object(
            outer@,
            json_object(middle@, json_object(inner@, json_string(text@))),
        ),
{
    let mut innermost = serde_json::Map::new();
    innermost.insert(inner.to_owned(), serde_json::Value::from(text));
    let mut between = serde_json::Map::new();
    between.insert(middle.to_owned(), serde_json::Value::Object(innermost));
    let mut outermost = serde_json::Map::new();
    outermost.insert(outer.to_owned(), serde_json::Value::Object(between));
    serde_json::Value::Object(outermost).to_string()
}

/// `serde_json::from_slice` and the `get` of the value that it gives: the member
/// as `document_member` names it, which depends on the bytes and the key alone. A
/// number is taken as `as_f64` gives it, in the notation of its `to_string`. A string
/// that is written as `json_string` says reads as what it holds, and a text that
/// `read_numbers` takes for an array of numbers is an array of those numbers here
/// too. Which other bytes are JSON, what number a text stands for, and how its
/// `to_string` looks, is left unsaid.
#[verifier::external_body]
pub(crate) fn read_member(body: &[u8], key: &str) -> (r: Result<Option<Member>, ()>)
    ensures
        (match r {
            Ok(member) => Ok(member_view(member)),
            Err(e) => Err(e),
        }) == document_member(body@, key@),
        forall|text: Seq<char>|
            body@ == #[trigger] encode_utf8(json_object(key@, json_string(text))) ==> (match r {
                Ok(member) => member_view(member) == Some(MemberView::Text { text }),
                Err(_) => false,
            }),
        forall|text: Seq<char>|
            body@ == #[trigger] encode_utf8(json_object(key@, text)) && number_list(text) is Ok
                ==> (match r {
                Ok(member) => member_view(member) == Some(number_items(number_list(text)->Ok_0)),
                Err(_) => false,
            }),
{
    let value: serde_json::Value = serde_json::from_slice(body).map_err(|_| ())?;
    Ok(value.get(key).map(|member| match member {
        serde_json::Value::Null => Member::Null,
        serde_json::Value::Bool(_) => Member::Bool,
        serde_json::Value::Number(_) => Member::Number,
        serde_json::Value::String(text) => Member::Text { text: text.clone() },
        serde_json::Value::Array(values) => Member::List {
            items: values.iter().map(|v| v.as_f64().map(|n| n.to_string())).collect(),
        },
        serde_json::Value::Object(_) => Member::Object,
    }))
}

/// `serde_json::from_str` into a list of numbers of double precision: the numbers
/// as `number_list` names them, in the notation of their `to_string`, or the text
/// of the error. Both depend on the text alone; what they are is left to
/// `serde_json`.
#[verifier::external_body]
pub(crate) fn read_numbers(text: &str) -> (r: Result<Vec<String>, String>)
    ensures
        texts_result(r) == number_list(text@),
{
    match serde_json::from_str::<Vec<_>>(text) {
        Ok(numbers) => Ok(numbers.into_iter().map(|n| {
            // The argument of `from_f64` makes the numbers those of double precision.
            let _ = serde_json::Number::from_f64(n);
            n.to_string()
        }).collect()),
        Err(error) => Err(error.to_string()),
    }
}

} // verus!

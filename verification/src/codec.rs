//! Parsing of JSON and TOML text into documents, and writing of documents
//! as JSON text.

use crate::document::Member;
use crate::document::Node;
use crate::document::Tree;
use vstd::prelude::*;

verus! {

/// `serde_json::Error`, the error of the `serde_json` crate.
#[verifier::external_type_specification]
#[verifier::external_body]
pub struct ExJsonError(serde_json::Error);

/// `serde_json::Value`, a parsed JSON value. Nothing inside it is visible
/// here.
#[verifier::external_type_specification]
#[verifier::external_body]
pub struct ExJsonValue(serde_json::Value);

/// `toml::de::Error`, the error of the `toml` crate's parser.
#[verifier::external_type_specification]
#[verifier::external_body]
pub struct ExTomlError(toml::de::Error);

/// `toml::Value`, a parsed TOML value. Nothing inside it is visible here.
#[verifier::external_type_specification]
#[verifier::external_body]
pub struct ExTomlValue(toml::Value);

/// The document that `text` holds when read as JSON, or `None` where
/// `serde_json` does not take it for one JSON value.
pub uninterp spec fn json_tree(text: Seq<char>) -> Option<Tree>;

/// The document that `text` holds when read as TOML, or `None` where `toml`
/// does not take it for a TOML document.
pub uninterp spec fn toml_tree(text: Seq<char>) -> Option<Tree>;

/// Turns a value of `serde_json` into a document, variant by variant. An
/// object's members keep the order in which `serde_json` holds them. A number
/// is taken through `serde_json::Number::as_f64` and stands by the decimal
/// text of that value; one that has no such value stands as `Null`.
#[verifier::external_body]
fn node_of_json(value: &serde_json::Value) -> Node {
    match value {
        serde_json::Value::Null => Node::Null,
        serde_json::Value::Bool(b) => Node::Bool(*b),
        serde_json::Value::Number(n) => n.as_f64().map_or(Node::Null, |x| Node::Number(x.to_string())),
        serde_json::Value::String(s) => Node::Text(s.clone()),
        serde_json::Value::Array(items) => Node::List(items.iter().map(node_of_json).collect()),
        serde_json::Value::Object(map) => Node::Table(
            map.iter().map(|(k, v)| Member { key: k.clone(), value: node_of_json(v) }).collect(),
        ),
    }
}

/// Turns a value of `toml` into a document, variant by variant. A table's
/// members keep the order in which `toml` holds them. An integer, a float and
/// a datetime stand by the text that their `Display` gives.
#[verifier::external_body]
fn node_of_toml(value: &toml::Value) -> Node {
    match value {
        toml::Value::String(s) => Node::Text(s.clone()),
        toml::Value::Integer(i) => Node::Number(i.to_string()),
        toml::Value::Float(x) => Node::Number(x.to_string()),
        toml::Value::Boolean(b) => Node::Bool(*b),
        toml::Value::Datetime(d) => Node::Moment(d.to_string()),
        toml::Value::Array(items) => Node::List(items.iter().map(node_of_toml).collect()),
        toml::Value::Table(map) => Node::Table(
            map.iter().map(|(k, v)| Member { key: k.clone(), value: node_of_toml(v) }).collect(),
        ),
    }
}

/// Calls `serde_json::from_str` for a `serde_json::Value` and turns the value
/// into a document. The call fails on text that is not one JSON value;
/// whether it fails and what it yields depend on the text alone, and the
/// contract gives that document its name.
#[verifier::external_body]
pub(crate) fn parse_json(text: &str) -> (parsed: Result<Node, serde_json::Error>)
    ensures
        parsed is Ok <==> json_tree(text@) is Some,
        parsed matches Ok(doc) ==> json_tree(text@) == Some(doc@),
{
    serde_json::from_str::<serde_json::Value>(text).map(|value| node_of_json(&value))
}

/// Calls `toml::from_str` for a `toml::Value` and turns the value into a
/// document. The call fails on text that is not a TOML document; whether it
/// fails and what it yields depend on the text alone, and the contract gives
/// that document its name.
#[verifier::external_body]
pub(crate) fn parse_toml(text: &str) -> (parsed: Result<Node, toml::de::Error>)
    ensures
        parsed is Ok <==> toml_tree(text@) is Some,
        parsed matches Ok(doc) ==> toml_tree(text@) == Some(doc@),
{
    toml::from_str::<toml::Value>(text).map(|value| node_of_toml(&value))
}

/// The JSON text of a document, or `None` where the document holds a number
/// whose text is no JSON number.
pub uninterp spec fn json_text(doc: Tree) -> Option<Seq<char>>;

/// Turns a document into a value of `serde_json`, variant by variant. The
/// text of a number is parsed by `serde_json::Number`; a date or time stands
/// as a string.
#[verifier::external_body]
fn json_of_node(node: &Node) -> Result<serde_json::Value, serde_json::Error> {
    Ok(match node {
        Node::Null => serde_json::Value::Null,
        Node::Bool(b) => serde_json::Value::Bool(*b),
        Node::Number(text) => serde_json::Value::Number(text.parse()?),
        Node::Text(text) | Node::Moment(text) => serde_json::Value::String(text.clone()),
        Node::List(items) => serde_json::Value::Array(items.iter().map(json_of_node).collect::<Result<_, _>>()?),
        Node::Table(members) => serde_json::Value::Object(
            members.iter().map(|m| Ok((m.key.clone(), json_of_node(&m.value)?))).collect::<Result<_, serde_json::Error>>()?,
        ),
    })
}

/// Turns the document into a value of `serde_json` and calls
/// `serde_json::to_string_pretty` on it. Whether this fails and what text it
/// yields depend on the content of the document alone, and the contract
/// gives that text its name.
#[verifier::external_body]
pub(crate) fn render_json(doc: &Node) -> (rendered: Result<String, serde_json::Error>)
    ensures
        rendered is Ok <==> json_text(doc@) is Some,
        rendered matches Ok(text) ==> json_text(doc@) == Some(text@),
{
    json_of_node(doc).and_then(|value| serde_json::to_string_pretty(&value))
}

} // verus!

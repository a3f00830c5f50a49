//! How the payload of a command reads to the user.

use vstd::prelude::*;
use vstd::utf8::{decode_utf8, valid_utf8};

verus! {

/// What the bytes of a payload read as.
#[derive(Debug, PartialEq, Eq)]
pub enum Rendered {
    /// JSON, printed anew.
    Json(String),
    /// Text.
    Text(String),
    /// Neither.
    Binary,
}

/// The mathematical value of a [`Rendered`].
pub enum RenderedView {
    Json(Seq<char>),
    Text(Seq<char>),
    Binary,
}

impl View for Rendered {
    type V = RenderedView;

    open spec fn view(&self) -> RenderedView {
        match self {
            Rendered::Json(text) => RenderedView::Json(text@),
            Rendered::Text(text) => RenderedView::Text(text@),
            Rendered::Binary => RenderedView::Binary,
        }
    }
}

/// The JSON value that `data` holds, printed on one line; nothing where
/// `data` is no JSON.
pub uninterp spec fn compact_json(data: Seq<u8>) -> Option<Seq<char>>;

/// The JSON value that `data` holds, printed over several lines and
/// indented; nothing where `data` is no JSON.
pub uninterp spec fn pretty_json(data: Seq<u8>) -> Option<Seq<char>>;

/// `serde_json::from_slice` into a `serde_json::Value`, and
/// `serde_json::to_string` of that value. The same bytes give the same text.
#[verifier::external_body]
fn print_compact(data: &[u8]) -> (res: Option<String>)
    ensures
        match res {
            Some(text) => compact_json(data@) == Some(text@),
            None => compact_json(data@) is None,
        },
{
    match serde_json::from_slice::<serde_json::Value>(data) {
        Ok(json) => Some(serde_json::to_string(&json).unwrap_or_default()),
        Err(_) => None,
    }
}

/// `serde_json::from_slice` into a `serde_json::Value`, and
/// `serde_json::to_string_pretty` of that value. The same bytes give the
/// same text.
#[verifier::external_body]
fn print_pretty(data: &[u8]) -> (res: Option<String>)
    ensures
        match res {
            Some(text) => pretty_json(data@) == Some(text@),
            None => pretty_json(data@) is None,
        },
{
    match serde_json::from_slice::<serde_json::Value>(data) {
        Ok(json) => Some(serde_json::to_string_pretty(&json).unwrap_or_default()),
        Err(_) => None,
    }
}

/// `String::from_utf8` on a copy of the bytes: the text that they encode, or
/// nothing where they are no UTF-8.
#[verifier::external_body]
fn decode(data: &[u8]) -> (res: Option<String>)
    ensures
        match res {
            Some(text) => valid_utf8(data@) && text@ == decode_utf8(data@),
            None => !valid_utf8(data@),
        },
{
    match String::from_utf8(data.to_vec()) {
        Ok(text) => Some(text),
        Err(_) => None,
    }
}

/// What `data` reads as: JSON where it is JSON, printed over several lines
/// where `expanded` asks for it; else text where it is UTF-8; else neither.
pub open spec fn rendered(data: Seq<u8>, expanded: bool) -> RenderedView {
    let json = if expanded {
        pretty_json(data)
    } else {
        compact_json(data)
    };
    match json {
        Some(text) => RenderedView::Json(text),
        None => if valid_utf8(data) {
            RenderedView::Text(decode_utf8(data))
        } else {
            RenderedView::Binary
        },
    }
}

/// What `data` reads as.
pub fn render_payload(data: &[u8], expanded: bool) -> (res: Rendered)
    ensures
        res@ == rendered(data@, expanded),
{
    let json = if expanded {
        print_pretty(data)
    } else {
        print_compact(data)
    };
    match json {
        Some(text) => Rendered::Json(text),
        None => match decode(data) {
            Some(text) => Rendered::Text(text),
            None => Rendered::Binary,
        },
    }
}

} // verus!

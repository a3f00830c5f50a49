//! Settings that the address of the page carries: the value of the
//! parameter `c` of the query, as URL-safe base64 of the settings' JSON text.

use vstd::prelude::*;

verus! {

/// The name of the parameter that carries settings.
pub const CONFIG_PARAMETER: &'static str = "c";

/// The parameters of the query of the address `href`, in order, each with its
/// value; nothing where `href` is no address.
pub uninterp spec fn query_of(href: Seq<char>) -> Option<Seq<(Seq<char>, Seq<char>)>>;

/// The bytes that `text` stands for as URL-safe base64 with padding; nothing
/// where it stands for none.
pub uninterp spec fn base64_of(text: Seq<char>) -> Option<Seq<u8>>;

/// The values of a list of parameters, in order.
pub open spec fn pair_views(pairs: Seq<(String, String)>) -> Seq<(Seq<char>, Seq<char>)> {
    Seq::new(pairs.len(), |i: int| (pairs[i].0@, pairs[i].1@))
}

/// `url::Url::parse`, and `Url::query_pairs` of the address that it gives:
/// the decoded parameters of the query in their order, or nothing where the
/// text is no address. The same text gives the same parameters.
#[verifier::external_body]
fn query_pairs(href: &str) -> (res: Option<Vec<(String, String)>>)
    ensures
        match res {
            Some(pairs) => query_of(href@) == Some(pair_views(pairs@)),
            None => query_of(href@) is None,
        },
{
    match url::Url::parse(href) {
        Ok(url) => Some(url.query_pairs().map(|(k, v)| (k.into_owned(), v.into_owned())).collect()),
        Err(_) => None,
    }
}

/// `base64::decode_config` with `base64::URL_SAFE`: the bytes that the text
/// stands for, or nothing where it is no such base64. The same text gives
/// the same bytes.
#[verifier::external_body]
fn decode(text: &str) -> (res: Option<Vec<u8>>)
    ensures
        match res {
            Some(bytes) => base64_of(text@) == Some(bytes@),
            None => base64_of(text@) is None,
        },
{
    match base64::decode_config(text, base64::URL_SAFE) {
        Ok(bytes) => Some(bytes),
        Err(_) => None,
    }
}

/// The value of the first of `pairs` that is called `name`.
pub open spec fn first_value(pairs: Seq<(Seq<char>, Seq<char>)>, name: Seq<char>) -> Option<
    Seq<char>,
>
    decreases pairs.len(),
{
    if pairs.len() == 0 {
        None
    } else if pairs.first().0 == name {
        Some(pairs.first().1)
    } else {
        first_value(pairs.drop_first(), name)
    }
}

/// The value of the first of `pairs` that is called `name`.
pub fn find_parameter(pairs: &Vec<(String, String)>, name: &str) -> (res: Option<String>)
    ensures
        match res {
            Some(value) => first_value(pair_views(pairs@), name@) == Some(value@),
            None => first_value(pair_views(pairs@), name@) is None,
        },
{
    let ghost all = pair_views(pairs@);
    assert(all.skip(0) =~= all);
    let mut i: usize = 0;
    while i < pairs.len()
        invariant
            i <= pairs.len(),
            all == pair_views(pairs@),
            first_value(all, name@) == first_value(all.skip(i as int), name@),
        decreases pairs.len() - i,
    {
        assert(all.skip(i as int).first() == all[i as int]);
        assert(all.skip(i as int).drop_first() =~= all.skip(i + 1));
        if *pairs[i].0.as_str() == *name {
            return Some(pairs[i].1.clone());
        }
        i += 1;
    }
    None
}

/// What an address says about settings.
#[derive(Debug)]
pub enum Provided {
    /// Nothing: the address has no parameter that carries settings.
    Nothing,
    /// Something that cannot be read as base64.
    Unreadable,
    /// The JSON text of settings.
    Settings(Vec<u8>),
}

/// The text of the settings that the address `href` carries, if it carries
/// any.
pub open spec fn config_text(href: Seq<char>) -> Option<Seq<char>> {
    match query_of(href) {
        Some(pairs) => first_value(pairs, CONFIG_PARAMETER@),
        None => None,
    }
}

/// The text of the settings that the address `href` carries, if it carries
/// any.
pub fn find_config_str(href: &str) -> (res: Option<String>)
    ensures
        match res {
            Some(text) => config_text(href@) == Some(text@),
            None => config_text(href@) is None,
        },
{
    match query_pairs(href) {
        Some(pairs) => find_parameter(&pairs, CONFIG_PARAMETER),
        None => None,
    }
}

/// What the address `href` says about settings.
pub fn find_config(href: &str) -> (res: Provided)
    ensures
        match config_text(href@) {
            None => res is Nothing,
            Some(text) => match base64_of(text) {
                None => res is Unreadable,
                Some(bytes) => res matches Provided::Settings(found) && found@ == bytes,
            },
        },
{
    match find_config_str(href) {
        Some(text) => match decode(text.as_str()) {
            Some(bytes) => Provided::Settings(bytes),
            None => Provided::Unreadable,
        },
        None => Provided::Nothing,
    }
}

} // verus!

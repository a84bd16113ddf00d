//! Reading JSON texts.
//!
//! A text is parsed by `serde_json`, and a place in it is given by a JSON pointer
//! such as `/choices/0/message`. What stands at a place is named here as a function
//! of the text and the pointer.

use vstd::prelude::*;
use crate::text;

verus! {

/// The string that stands at a place of a JSON text.
pub uninterp spec fn json_string(doc: Seq<char>, pointer: Seq<char>) -> Option<Seq<char>>;

/// The whole number that stands at a place of a JSON text.
pub uninterp spec fn json_number(doc: Seq<char>, pointer: Seq<char>) -> Option<u64>;

/// The items, each as JSON text, of the array that stands at a place of a JSON
/// text.
pub uninterp spec fn json_items(doc: Seq<char>, pointer: Seq<char>) -> Option<Seq<Seq<char>>>;

/// The JSON text of what stands at a place of a JSON text, without the given key
/// where it is an object, and `null` where nothing stands there.
pub uninterp spec fn json_without(doc: Seq<char>, pointer: Seq<char>, key: Seq<char>) -> Seq<char>;

/// What is wrong with a text that is no JSON, in the words of `serde_json`; `None`
/// for one that is.
pub uninterp spec fn json_error(doc: Seq<char>) -> Option<Seq<char>>;

/// `serde_json::from_str` to a `Value`, and `Error::to_string`.
#[verifier::external_body]
pub(crate) fn parse_error(doc: &str) -> (r: Option<String>)
    ensures
        text::opt_view(r) == json_error(doc@),
{
    serde_json::from_str::<serde_json::Value>(doc).err().map(|e| e.to_string())
}

/// `serde_json::from_str`, `Value::pointer` and `Value::as_str`: `None` where the
/// text is no JSON, the place is missing, or no string stands there.
#[verifier::external_body]
pub(crate) fn string_at(doc: &str, pointer: &str) -> (r: Option<String>)
    ensures
        text::opt_view(r) == json_string(doc@, pointer@),
{
    let v: serde_json::Value = serde_json::from_str(doc).ok()?;
    v.pointer(pointer).and_then(|x| x.as_str()).map(|s| s.to_string())
}

/// `serde_json::from_str`, `Value::pointer` and `Value::as_u64`: `None` where the
/// text is no JSON, the place is missing, or no whole number of 64 bits stands
/// there.
#[verifier::external_body]
pub(crate) fn number_at(doc: &str, pointer: &str) -> (r: Option<u64>)
    ensures
        r == json_number(doc@, pointer@),
{
    let v: serde_json::Value = serde_json::from_str(doc).ok()?;
    v.pointer(pointer).and_then(|x| x.as_u64())
}

/// `serde_json::from_str`, `Value::pointer`, `Value::as_array` and
/// `Value::to_string` of each item: `None` where the text is no JSON, the place is
/// missing, or no array stands there.
#[verifier::external_body]
pub(crate) fn items_at(doc: &str, pointer: &str) -> (r: Option<Vec<String>>)
    ensures
        text::opt_views(r) == json_items(doc@, pointer@),
{
    let v: serde_json::Value = serde_json::from_str(doc).ok()?;
    v.pointer(pointer).and_then(|x| x.as_array()).map(
        |a| a.iter().map(|x| x.to_string()).collect(),
    )
}

/// `serde_json::from_str`, `Value::pointer`, `Map::remove` and `Value::to_string`.
#[verifier::external_body]
pub(crate) fn without_key(doc: &str, pointer: &str, key: &str) -> (r: String)
    ensures
        r@ == json_without(doc@, pointer@, key@),
{
    let v: serde_json::Value = serde_json::from_str(doc).unwrap_or_default();
    let mut x = v.pointer(pointer).cloned().unwrap_or_default();
    if let Some(o) = x.as_object_mut() {
        o.remove(key);
    }
    x.to_string()
}

/// A text as a JSON string, as `serde_json` writes it.
pub uninterp spec fn json_text(s: Seq<char>) -> Seq<char>;

/// The JSON text of an object with the given key set to the given JSON text, as
/// `serde_json` writes it.
pub uninterp spec fn json_with(doc: Seq<char>, key: Seq<char>, value: Seq<char>) -> Seq<char>;

/// The JSON text of an array with the given JSON text behind its items, as
/// `serde_json` writes it.
pub uninterp spec fn json_pushed(doc: Seq<char>, item: Seq<char>) -> Seq<char>;

/// `serde_json::Value::from` a text, and `Value::to_string`.
#[verifier::external_body]
pub(crate) fn encode_text(s: &str) -> (r: String)
    ensures
        r@ == json_text(s@),
{
    serde_json::Value::from(s).to_string()
}

/// `serde_json::from_str` on both texts, `Map::insert` and `Value::to_string`. A
/// text that is no JSON counts as `null`; what is no object stays as it is.
#[verifier::external_body]
pub(crate) fn with_key(doc: &str, key: &str, value: &str) -> (r: String)
    ensures
        r@ == json_with(doc@, key@, value@),
{
    let mut v: serde_json::Value = serde_json::from_str(doc).unwrap_or_default();
    let x: serde_json::Value = serde_json::from_str(value).unwrap_or_default();
    if let Some(o) = v.as_object_mut() {
        o.insert(key.to_string(), x);
    }
    v.to_string()
}

/// `serde_json::from_str` on both texts, `Value::as_array_mut`, `Vec::push` and
/// `Value::to_string`. A text that is no JSON counts as `null`; what is no array
/// stays as it is.
#[verifier::external_body]
pub(crate) fn pushed(doc: &str, item: &str) -> (r: String)
    ensures
        r@ == json_pushed(doc@, item@),
{
    let mut v: serde_json::Value = serde_json::from_str(doc).unwrap_or_default();
    let x: serde_json::Value = serde_json::from_str(item).unwrap_or_default();
    if let Some(a) = v.as_array_mut() {
        a.push(x);
    }
    v.to_string()
}

/// The JSON text of an object with the given key set to a text.
pub open spec fn with_text(doc: Seq<char>, key: Seq<char>, value: Seq<char>) -> Seq<char> {
    json_with(doc, key, json_text(value))
}

/// Sets a key of an object to a text.
pub fn set_text(doc: &str, key: &str, value: &str) -> (r: String)
    ensures
        r@ == with_text(doc@, key@, value@),
{
    with_key(doc, key, encode_text(value).as_str())
}

/// The JSON text of the array of the given JSON texts.
pub open spec fn array_of(items: Seq<Seq<char>>) -> Seq<char>
    decreases items.len(),
{
    if items.len() == 0 {
        "[]"@
    } else {
        json_pushed(array_of(items.drop_last()), items.last())
    }
}

/// Renders the array of the given JSON texts.
pub fn array_text(items: &Vec<String>) -> (r: String)
    ensures
        r@ == array_of(text::views(items@)),
{
    let ghost all = text::views(items@);
    let mut out = text::owned("[]");
    let mut i: usize = 0;
    assert(array_of(all.take(0)) == "[]"@);
    while i < items.len()
        invariant
            i <= items@.len(),
            all == text::views(items@),
            out@ == array_of(all.take(i as int)),
        decreases items@.len() - i,
    {
        out = pushed(out.as_str(), items[i].as_str());
        i += 1;
        assert(all.take(i as int).drop_last() == all.take(i - 1));
        assert(all.take(i as int).last() == items@[i - 1]@);
    }
    assert(all.take(all.len() as int) == all);
    out
}

// ---------------------------------------------------------------------------
// Laws
// ---------------------------------------------------------------------------

/// A list is written item by item: one item more is pushed behind what was there, and
/// nothing is an empty list.
pub proof fn law_lists_are_written_item_by_item(items: Seq<Seq<char>>, item: Seq<char>)
    ensures
        array_of(items.push(item)) == json_pushed(array_of(items), item),
        array_of(Seq::empty()) == "[]"@,
{
    assert(items.push(item).drop_last() =~= items);
}

/// A text is put under its key as a text of JSON, not as it stands.
pub proof fn law_texts_are_encoded(doc: Seq<char>, key: Seq<char>, value: Seq<char>)
    ensures
        with_text(doc, key, value) == json_with(doc, key, json_text(value)),
{
}

} // verus!

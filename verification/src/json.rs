//! The JSON texts that the library reads and writes itself, by serde_json.

use vstd::prelude::*;

use crate::text;

verus! {

/// The numbers of a list in decimal notation.
pub open spec fn decimals(list: Seq<i64>) -> Seq<Seq<char>> {
    list.map_values(|n: i64| text::decimal(n as int))
}

/// A list of numbers as JSON: `[1440,60]`.
pub open spec fn i64_list_json(list: Seq<i64>) -> Seq<char> {
    "["@ + text::joined(decimals(list), ","@) + "]"@
}

/// The text that was written, if writing succeeded.
pub open spec fn written_text(res: Result<String, String>) -> Option<Seq<char>> {
    match res {
        Ok(text) => Some(text@),
        Err(_) => None,
    }
}

/// The outcome of reading a list of numbers.
pub open spec fn list_outcome(res: Result<Vec<i64>, String>) -> Result<Seq<i64>, Seq<char>> {
    match res {
        Ok(list) => Ok(list@),
        Err(message) => Err(message@),
    }
}

/// The text that was written is read as this list.
pub open spec fn reads_back(res: Result<String, String>, list: Seq<i64>) -> bool {
    res matches Ok(text) && parsed_i64_list(text@) == Ok::<Seq<i64>, Seq<char>>(list)
}

/// Reading succeeded and gave this list.
pub open spec fn gave_list(res: Result<Vec<i64>, String>, list: Seq<i64>) -> bool {
    res matches Ok(found) && found@ == list
}

/// Outcomes are told as they are.
pub proof fn outcomes_are_told_as_they_are(text: String, list: Vec<i64>, expected: Seq<i64>)
    ensures
        written_text(Ok(text)) == Some(text@),
        written_text(Err(text)) is None,
        list_outcome(Ok(list)) == Ok::<_, Seq<char>>(list@),
        list_outcome(Err(text)) == Err::<Seq<i64>, _>(text@),
        gave_list(Ok(list), expected) <==> list@ == expected,
        !gave_list(Err(text), expected),
        !reads_back(Err(text), expected),
        reads_back(Ok(text), expected) <==> parsed_i64_list(text@) == Ok::<_, Seq<char>>(expected),
{
}

/// What `serde_json::from_str` reads as a list of numbers from a text: the list, or its
/// complaint.
pub uninterp spec fn parsed_i64_list(text: Seq<char>) -> Result<Seq<i64>, Seq<char>>;

/// The text that a JSON pointer finds in a JSON text, by `serde_json::from_str`,
/// `serde_json::Value::pointer` and `serde_json::Value::as_str`: nothing, where the text is no
/// JSON, where it has no such place or where no string stands there.
pub uninterp spec fn pointed_text(json: Seq<char>, pointer: Seq<char>) -> Option<Seq<char>>;

/// Calls `serde_json::to_string` on a list of numbers. It succeeds, and gives the numbers in
/// decimal notation, between brackets, with commas between them. `serde_json::from_str` reads
/// the list back from that text.
#[verifier::external_body]
fn serde_write_i64_list(list: &Vec<i64>) -> (res: Result<String, String>)
    ensures
        written_text(res) == Some(i64_list_json(list@)),
        reads_back(res, list@),
{
    match serde_json::to_string(list) {
        Ok(json) => Ok(json),
        Err(err) => Err(err.to_string()),
    }
}

/// Calls `serde_json::from_str` for a list of numbers. What it gives is a function of the text.
/// A list as `serde_json::to_string` writes it is read back.
#[verifier::external_body]
fn serde_parse_i64_list(json: &str) -> (res: Result<Vec<i64>, String>)
    ensures
        list_outcome(res) == parsed_i64_list(json@),
        forall|list: Seq<i64>| #[trigger]
            i64_list_json(list) == json@ ==> gave_list(res, list),
{
    match serde_json::from_str::<Vec<i64>>(json) {
        Ok(list) => Ok(list),
        Err(err) => Err(err.to_string()),
    }
}

/// Calls `serde_json::from_str`, `serde_json::Value::pointer` and `serde_json::Value::as_str`.
/// What they give is a function of the text and the pointer.
#[verifier::external_body]
fn serde_pointer_text(json: &str, pointer: &str) -> (res: Option<String>)
    ensures
        match res {
            Some(found) => pointed_text(json@, pointer@) == Some(found@),
            None => pointed_text(json@, pointer@) is None,
        },
{
    let value: serde_json::Value = match serde_json::from_str(json) {
        Ok(value) => value,
        Err(_) => return None,
    };
    match value.pointer(pointer)?.as_str() {
        Some(found) => Some(found.to_string()),
        None => None,
    }
}

/// Writes a list of numbers, which is read back from what is written.
pub fn write_i64_vec(list: &Vec<i64>) -> (res: Result<String, String>)
    ensures
        written_text(res) == Some(i64_list_json(list@)),
        reads_back(res, list@),
{
    serde_write_i64_list(list)
}

/// Reads a list of numbers. One that [`write_i64_vec`] wrote is read back.
pub fn parse_i64_vec(value: &str) -> (res: Result<Vec<i64>, String>)
    ensures
        list_outcome(res) == parsed_i64_list(value@),
        forall|list: Seq<i64>| #[trigger]
            i64_list_json(list) == value@ ==> gave_list(res, list),
{
    serde_parse_i64_list(value)
}

/// Finds the text at a place in a JSON text.
pub fn find_text(json: &str, pointer: &str) -> (res: Option<String>)
    ensures
        match pointed_text(json@, pointer@) {
            Some(text) => res matches Some(found) && found@ == text,
            None => res is None,
        },
{
    serde_pointer_text(json, pointer)
}

} // verus!

use vstd::prelude::*;

verus! {

#[verifier::external_type_specification]
#[verifier::external_body]
pub struct ExJsonError(serde_json::Error);

/// The pretty-printed JSON text of a list of strings.
pub uninterp spec fn pretty_json(messages: Seq<String>) -> Seq<char>;

/// The list of strings that a JSON text holds, `None` where the text is not a
/// JSON array of strings.
pub uninterp spec fn parsed_string_list(text: Seq<char>) -> Option<Seq<String>>;

/// Relies on `serde_json::to_string_pretty`: the JSON text of the list, which
/// depends on the strings alone. It cannot fail on a list of strings: it
/// writes into a `Vec<u8>`, there are no map keys, and `String` serializes
/// without error.
#[verifier::external_body]
fn to_pretty_json(messages: &Vec<String>) -> (r: Result<String, serde_json::Error>)
    ensures
        r is Ok,
        r matches Ok(s) ==> s@ == pretty_json(messages@),
{
    serde_json::to_string_pretty(messages)
}

/// Relies on `serde_json::from_str::<Vec<String>>`: whether the text parses as
/// a JSON array of strings, and which strings it holds, depend on the text
/// alone. A failure comes back as serde_json's message.
#[verifier::external_body]
fn parse_string_list(text: &str) -> (r: Result<Vec<String>, String>)
    ensures
        r is Ok <==> parsed_string_list(text@) is Some,
        r matches Ok(v) ==> v@ == parsed_string_list(text@)->0,
{
    serde_json::from_str::<Vec<String>>(text).map_err(|e| e.to_string())
}

/// The text of a log snapshot: the messages, in order, as a pretty-printed
/// JSON array.
pub fn encode_snapshot(messages: &Vec<String>) -> (s: String)
    ensures
        s@ == pretty_json(messages@),
{
    match to_pretty_json(messages) {
        Ok(s) => s,
        Err(_) => String::new(),
    }
}

/// The messages that a log snapshot holds, in order; where the text is not a
/// JSON array of strings, the parser's message.
pub fn decode_snapshot(text: &str) -> (r: Result<Vec<String>, String>)
    ensures
        r is Ok <==> parsed_string_list(text@) is Some,
        r matches Ok(v) ==> v@ == parsed_string_list(text@)->0,
{
    parse_string_list(text)
}

/// Picks the snapshot to load among saved log files, given their modification
/// times in directory order, as nanoseconds from the Unix epoch (a file
/// whose time cannot be read counts as the epoch):
/// the newest, and among equally new ones the first. `None` where there is
/// no file.
pub fn newest_snapshot(modified: &Vec<i128>) -> (r: Option<usize>)
    ensures
        r is None <==> modified@.len() == 0,
        r matches Some(i) ==> {
            &&& i < modified@.len()
            &&& forall|j: int| 0 <= j < modified@.len() ==> modified@[j] <= modified@[i as int]
            &&& forall|j: int| 0 <= j < i ==> modified@[j] < modified@[i as int]
        },
{
    if modified.len() == 0 {
        return None;
    }
    let mut best: usize = 0;
    let mut k: usize = 1;
    while k < modified.len()
        invariant
            0 <= best < k <= modified@.len(),
            forall|j: int| 0 <= j < k ==> modified@[j] <= modified@[best as int],
            forall|j: int| 0 <= j < best ==> modified@[j] < modified@[best as int],
        decreases modified@.len() - k,
    {
        if modified[k] > modified[best] {
            best = k;
        }
        k = k + 1;
    }
    Some(best)
}

} // verus!

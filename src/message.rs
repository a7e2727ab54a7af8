use vstd::prelude::*;

verus! {

/// A message as the codec hands it to the dispatch path.
///
/// Decoding turned the request bytes into a structured value; all that the
/// dispatch path reads of it is its JSON rendering, which may have failed.
pub struct DecodedMessage {
    pub json: Option<String>,
}

impl DecodedMessage {
    /// A decoded message whose JSON rendering is `json`.
    pub fn rendered(json: String) -> (m: DecodedMessage)
        ensures
            m.json == Some(json),
    {
        DecodedMessage { json: Some(json) }
    }

    /// A decoded message that the codec could not render as JSON.
    pub fn unrenderable() -> (m: DecodedMessage)
        ensures
            m.json is None,
    {
        DecodedMessage { json: None }
    }

    /// The JSON rendering of the message, or `None` where rendering failed.
    pub fn to_json_string(&self) -> (r: Option<String>)
        ensures
            r == self.json,
    {
        match &self.json {
            Some(s) => Some(s.clone()),
            None => None,
        }
    }
}

} // verus!

use vstd::prelude::*;
use vstd::string::StringExecFns;

verus! {

/// A per-request failure: the HTTP status code the response carries and a
/// human-readable diagnostic. Constructing one never publishes records.
#[derive(Debug, PartialEq, Eq)]
pub struct ErrorMessage {
    pub code: u16,
    pub message: String,
}

impl ErrorMessage {
    /// An error with the given status code and message.
    pub fn new(code: u16, message: String) -> (r: ErrorMessage)
        ensures
            r.code == code,
            r.message@ == message@,
    {
        ErrorMessage { code, message }
    }

    /// The HTTP status code carried by the error.
    pub fn status_code(&self) -> (c: u16)
        ensures
            c == self.code,
    {
        self.code
    }
}

/// A malformed-payload failure: status 400, message prefixed "Bad JSON: ".
pub fn json_error(s: String) -> (r: ErrorMessage)
    ensures
        r.code == 400,
        r.message@ == "Bad JSON: "@ + s@,
{
    ErrorMessage::new(400, String::from_str("Bad JSON: ").concat(s.as_str()))
}

/// The diagnostic for a compressed body that does not decompress.
pub fn decompress_failure_message() -> (s: String)
    ensures
        s@ == "Failed decompressing payload"@,
{
    String::from_str("Failed decompressing payload")
}

/// The diagnostic for a compression token this source does not support.
pub fn unsupported_encoding_message() -> (s: String)
    ensures
        s@ == "Unsupported encoding"@,
{
    String::from_str("Unsupported encoding")
}

} // verus!

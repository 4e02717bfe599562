use vstd::prelude::*;

verus! {

/// The key under which a plain-text line is stored.
pub open spec fn spec_message_key() -> Seq<char> {
    "message"@
}

/// The key under which the decode-time timestamp is stored.
pub open spec fn spec_timestamp_key() -> Seq<char> {
    "timestamp"@
}

/// The key under which the source kind is stored.
pub open spec fn spec_source_type_key() -> Seq<char> {
    "source_type"@
}

/// The fixed tag identifying this source kind.
pub open spec fn spec_source_type() -> Seq<char> {
    "http"@
}

/// The key under which a plain-text line is stored.
pub fn message_key() -> (s: &'static str)
    ensures
        s@ == spec_message_key(),
{
    "message"
}

/// The key under which the decode-time timestamp is stored.
pub fn timestamp_key() -> (s: &'static str)
    ensures
        s@ == spec_timestamp_key(),
{
    "timestamp"
}

/// The key under which the source kind is stored.
pub fn source_type_key() -> (s: &'static str)
    ensures
        s@ == spec_source_type_key(),
{
    "source_type"
}

/// The fixed tag identifying this source kind.
pub fn source_type_tag() -> (s: &'static str)
    ensures
        s@ == spec_source_type(),
{
    "http"
}

} // verus!

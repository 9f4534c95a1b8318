//! Declaring a namespace on the envelope of a response that uses it
//! undeclared.

use crate::text::{contains, includes_str, push_str, replace, replace_all, to_chars};
use vstd::prelude::*;

verus! {

/// `xml` with `prefix` declared as `uri` on every envelope tag.
pub open spec fn declared_on_envelope(xml: Seq<char>, prefix: Seq<char>, uri: Seq<char>) -> Seq<
    char,
> {
    replace_all(
        xml,
        "<SOAP-ENV:Envelope"@,
        "<SOAP-ENV:Envelope xmlns:"@ + prefix + "=\""@ + uri + "\""@,
    )
}

/// `xml` with `prefix` declared on the envelope where the document has
/// `marker` and does not declare the prefix.
pub open spec fn declared_if_used(
    xml: Seq<char>,
    prefix: Seq<char>,
    uri: Seq<char>,
    marker: Seq<char>,
) -> Seq<char> {
    if !contains(xml, "xmlns:"@ + prefix + "="@) && contains(xml, marker) {
        declared_on_envelope(xml, prefix, uri)
    } else {
        xml
    }
}

/// The executable form of `declared_on_envelope`.
pub fn declare_on_envelope(xml: &Vec<char>, prefix: &str, uri: &str) -> (r: Vec<char>)
    ensures
        r@ == declared_on_envelope(xml@, prefix@, uri@),
{
    let tag = to_chars("<SOAP-ENV:Envelope");
    let mut with: Vec<char> = Vec::new();
    push_str(&mut with, "<SOAP-ENV:Envelope xmlns:");
    push_str(&mut with, prefix);
    push_str(&mut with, "=\"");
    push_str(&mut with, uri);
    push_str(&mut with, "\"");
    replace(xml, &tag, &with)
}

/// The executable form of `declared_if_used`.
pub fn declare_if_used(xml: Vec<char>, prefix: &str, uri: &str, marker: &str) -> (r: Vec<char>)
    ensures
        r@ == declared_if_used(xml@, prefix@, uri@, marker@),
{
    let mut key: Vec<char> = Vec::new();
    push_str(&mut key, "xmlns:");
    push_str(&mut key, prefix);
    push_str(&mut key, "=");
    if !crate::text::includes(&xml, &key) && includes_str(&xml, marker) {
        declare_on_envelope(&xml, prefix, uri)
    } else {
        xml
    }
}

} // verus!

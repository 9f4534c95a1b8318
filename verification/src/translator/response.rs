//! Dispatch of a camera response to the rules of its model.

use crate::text::{
    begins_with, contains, from_chars, includes_str, push_all, push_str, replace_all, replace_str,
    same_text, starts_with, texts, to_chars,
};
use crate::translator::reolink::{quirks_applied, ReolinkEventTranslator, TranslationError};
use vstd::prelude::*;

verus! {

/// The entry point of response translation. It holds no state.
pub struct ResponseTranslator;

/// What translation makes of `xml` for a camera of `model`: the quirks of
/// the supported vendor, and nothing for any other model.
pub open spec fn translated(xml: Seq<char>, model: Seq<char>, quirks: Seq<Seq<char>>) -> Seq<
    char,
> {
    if model == "reolink"@ {
        quirks_applied(xml, quirks)
    } else {
        xml
    }
}

/// `xml` behind an XML declaration, unless it begins with one.
pub open spec fn with_declaration(xml: Seq<char>) -> Seq<char> {
    if starts_with(xml, "<?xml"@) {
        xml
    } else {
        "<?xml version=\"1.0\" encoding=\"UTF-8\"?>"@ + xml
    }
}

/// `xml` with the envelope namespace declared on every envelope tag,
/// unless the document declares it somewhere.
pub open spec fn with_envelope_namespace(xml: Seq<char>) -> Seq<char> {
    if contains(xml, "xmlns:SOAP-ENV="@) {
        xml
    } else {
        replace_all(
            xml,
            "<SOAP-ENV:Envelope"@,
            "<SOAP-ENV:Envelope xmlns:SOAP-ENV=\"http://www.w3.org/2003/05/soap-envelope\""@,
        )
    }
}

/// A response made presentable: declaration first, envelope namespace declared.
pub open spec fn valid_soap(xml: Seq<char>) -> Seq<char> {
    with_envelope_namespace(with_declaration(xml))
}

impl ResponseTranslator {
    /// Whether rules exist for cameras of `camera_model`.
    pub fn knows_model(camera_model: &str) -> (r: bool)
        ensures
            r == (camera_model@ == "reolink"@),
    {
        same_text(camera_model, "reolink")
    }

    /// Translates a camera response by the rules of the camera's model. A
    /// model without rules leaves the response as it is. The translation
    /// never fails.
    pub fn translate(xml: &str, camera_model: &str, quirks: &[String]) -> (r: Result<
        String,
        TranslationError,
    >)
        ensures
            r matches Ok(out) && out@ == translated(xml@, camera_model@, texts(quirks@)),
    {
        if same_text(camera_model, "reolink") {
            ReolinkEventTranslator::translate_response(xml, quirks)
        } else {
            Ok(from_chars(&to_chars(xml)))
        }
    }

    /// Puts an XML declaration before a response that lacks one, and
    /// declares the envelope namespace where the response does not.
    pub fn ensure_valid_soap(xml: &str) -> (r: Result<String, TranslationError>)
        ensures
            r matches Ok(out) && out@ == valid_soap(xml@),
    {
        let chars = to_chars(xml);
        let head = to_chars("<?xml");
        let declared = if begins_with(&chars, &head) {
            chars
        } else {
            let mut out: Vec<char> = Vec::new();
            push_str(&mut out, "<?xml version=\"1.0\" encoding=\"UTF-8\"?>");
            push_all(&mut out, &chars);
            out
        };
        let fixed = if includes_str(&declared, "xmlns:SOAP-ENV=") {
            declared
        } else {
            replace_str(
                &declared,
                "<SOAP-ENV:Envelope",
                "<SOAP-ENV:Envelope xmlns:SOAP-ENV=\"http://www.w3.org/2003/05/soap-envelope\"",
            )
        };
        Ok(from_chars(&fixed))
    }
}

} // verus!

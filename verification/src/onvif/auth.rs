//! WS-Security username tokens with a password digest.

use crate::clock::{created_stamp, created_text, now_millis, utc_instant};
use crate::random::random_uuid;
use crate::text::{
    contains, find_in, from_chars, includes_str, insert_at, inserted, push_str, replace,
    replace_all, to_chars,
};
use crate::translator::reolink::declaration_point;
use base64::engine::general_purpose::STANDARD;
use base64::Engine;
use sha1::{Digest, Sha1};
use vstd::prelude::*;
use vstd::string::*;
use vstd::utf8::encode_utf8;

verus! {

/// The credentials from which security headers are made.
#[derive(Debug, Clone)]
pub struct WsSecurityAuth {
    pub username: String,
    pub password: String,
}

/// The SHA-1 digest of `data`.
pub uninterp spec fn sha1_digest(data: Seq<u8>) -> Seq<u8>;

/// `data` in base64, standard alphabet, padded.
pub uninterp spec fn base64_text(data: Seq<u8>) -> Seq<char>;

/// The SHA-1 digest of `data`.
///
/// Trusted: `sha1::Sha1` through `Digest::digest`. The contract names the
/// digest and gives its length, twenty bytes.
#[verifier::external_body]
fn sha1_of(data: &[u8]) -> (digest: Vec<u8>)
    ensures
        digest@ == sha1_digest(data@),
        digest@.len() == 20,
{
    Sha1::digest(data).to_vec()
}

/// `data` in base64.
///
/// Trusted: `base64::engine::general_purpose::STANDARD` through
/// `Engine::encode`, which fails only where the encoded length exceeds
/// `usize`. The contract names the text and gives its length: four
/// characters for every three bytes begun, as the engine pads.
#[verifier::external_body]
fn base64_of(data: &[u8]) -> (text: String)
    requires
        data@.len() <= usize::MAX / 2,
    ensures
        text@ == base64_text(data@),
        text@.len() == 4 * ((data@.len() + 2) / 3),
{
    STANDARD.encode(data)
}

/// The digest of a username token: base64 of the SHA-1 of the nonce, the
/// creation time and the password, in that order and with nothing between.
pub open spec fn digest_text(nonce: Seq<u8>, created: Seq<char>, password: Seq<char>) -> Seq<
    char,
> {
    base64_text(sha1_digest(nonce + encode_utf8(created) + encode_utf8(password)))
}

/// The `wsse:Security` block with the given parts.
pub open spec fn security_block(
    username: Seq<char>,
    digest: Seq<char>,
    nonce: Seq<char>,
    created: Seq<char>,
) -> Seq<char> {
    "<wsse:Security xmlns:wsse=\"http://docs.oasis-open.org/wss/2004/01/oasis-200401-wss-wssecurity-secext-1.0.xsd\" xmlns:wsu=\"http://docs.oasis-open.org/wss/2004/01/oasis-200401-wss-wssecurity-utility-1.0.xsd\">\n  <wsse:UsernameToken>\n    <wsse:Username>"@
        + username
        + "</wsse:Username>\n    <wsse:Password Type=\"http://docs.oasis-open.org/wss/2004/01/oasis-200401-wss-username-token-profile-1.0#PasswordDigest\">"@
        + digest
        + "</wsse:Password>\n    <wsse:Nonce EncodingType=\"http://docs.oasis-open.org/wss/2004/01/oasis-200401-wss-soap-message-security-1.0#Base64Binary\">"@
        + nonce + "</wsse:Nonce>\n    <wsu:Created>"@ + created
        + "</wsu:Created>\n  </wsse:UsernameToken>\n</wsse:Security>"@
}

/// The security header for the given credentials, nonce and creation time.
pub open spec fn security_header(
    username: Seq<char>,
    password: Seq<char>,
    nonce: Seq<u8>,
    created: Seq<char>,
) -> Seq<char> {
    security_block(username, digest_text(nonce, created, password), base64_text(nonce), created)
}

/// A request with `header` put into it: behind every opening tag of a
/// header block, or, where the request has none, in a header block of its
/// own behind the envelope's opening tag. A request with neither is
/// returned as it is.
pub open spec fn with_security(soap_xml: Seq<char>, header: Seq<char>) -> Seq<char> {
    if contains(soap_xml, "<SOAP-ENV:Header>"@) {
        replace_all(soap_xml, "<SOAP-ENV:Header>"@, "<SOAP-ENV:Header>"@ + header)
    } else {
        match declaration_point(soap_xml) {
            Some(at) => insert_at(
                soap_xml,
                at + 1,
                "<SOAP-ENV:Header>"@ + header + "</SOAP-ENV:Header>"@,
            ),
            None => soap_xml,
        }
    }
}

/// Appends the bytes of `src` to `dst`.
fn push_bytes(dst: &mut Vec<u8>, src: &[u8])
    ensures
        final(dst)@ == old(dst)@ + src@,
{
    let mut i: usize = 0;
    while i < src.len()
        invariant
            i <= src.len(),
            dst@ == old(dst)@ + src@.take(i as int),
        decreases src.len() - i,
    {
        dst.push(src[i]);
        i += 1;
    }
    assert(src@.take(src.len() as int) == src@);
}

impl WsSecurityAuth {
    /// Credentials for `username` with `password`.
    pub fn new(username: String, password: String) -> (r: WsSecurityAuth)
        ensures
            r.username == username,
            r.password == password,
    {
        WsSecurityAuth { username, password }
    }

    /// The password digest of a username token.
    pub fn password_digest(nonce: &[u8], created: &str, password: &str) -> (r: String)
        ensures
            r@ == digest_text(nonce@, created@, password@),
    {
        let mut data: Vec<u8> = Vec::new();
        push_bytes(&mut data, nonce);
        push_bytes(&mut data, created.as_bytes());
        push_bytes(&mut data, password.as_bytes());
        let digest = sha1_of(data.as_slice());
        base64_of(digest.as_slice())
    }

    /// The security header for a given nonce and creation time.
    pub fn header_with(&self, nonce: &[u8], created: &str) -> (r: String)
        requires
            nonce@.len() <= usize::MAX / 2,
        ensures
            r@ == security_header(self.username@, self.password@, nonce@, created@),
    {
        let digest = WsSecurityAuth::password_digest(nonce, created, self.password.as_str());
        let nonce_text = base64_of(nonce);
        let mut out: Vec<char> = Vec::new();
        push_str(
            &mut out,
            "<wsse:Security xmlns:wsse=\"http://docs.oasis-open.org/wss/2004/01/oasis-200401-wss-wssecurity-secext-1.0.xsd\" xmlns:wsu=\"http://docs.oasis-open.org/wss/2004/01/oasis-200401-wss-wssecurity-utility-1.0.xsd\">\n  <wsse:UsernameToken>\n    <wsse:Username>",
        );
        push_str(&mut out, self.username.as_str());
        push_str(
            &mut out,
            "</wsse:Username>\n    <wsse:Password Type=\"http://docs.oasis-open.org/wss/2004/01/oasis-200401-wss-username-token-profile-1.0#PasswordDigest\">",
        );
        push_str(&mut out, digest.as_str());
        push_str(
            &mut out,
            "</wsse:Password>\n    <wsse:Nonce EncodingType=\"http://docs.oasis-open.org/wss/2004/01/oasis-200401-wss-soap-message-security-1.0#Base64Binary\">",
        );
        push_str(&mut out, nonce_text.as_str());
        push_str(&mut out, "</wsse:Nonce>\n    <wsu:Created>");
        push_str(&mut out, created);
        push_str(&mut out, "</wsu:Created>\n  </wsse:UsernameToken>\n</wsse:Security>");
        from_chars(&out)
    }

    /// A security header with a fresh nonce and the current time. No two
    /// calls need agree: whatever nonce and instant were drawn, the header
    /// is the one that `security_header` describes for them.
    pub fn generate_header(&self) -> (r: String)
        ensures
            exists|nonce: Seq<u8>, now: int|
                nonce.len() == 16 && utc_instant(now) && r@ == #[trigger] security_header(
                    self.username@,
                    self.password@,
                    nonce,
                    created_text(now),
                ),
    {
        let nonce = random_uuid().0;
        let now = now_millis();
        match created_stamp(now) {
            Some(created) => {
                let header = self.header_with(nonce.as_slice(), created.as_str());
                assert(header@ == security_header(
                    self.username@,
                    self.password@,
                    nonce@,
                    created_text(now as int),
                ));
                header
            },
            None => {
                assert(false);
                String::new()
            },
        }
    }

    /// `soap_xml` with `security_header` put into it.
    pub fn insert_security(soap_xml: &str, security_header: &str) -> (r: String)
        ensures
            r@ == with_security(soap_xml@, security_header@),
    {
        let xml = to_chars(soap_xml);
        if includes_str(&xml, "<SOAP-ENV:Header>") {
            let tag = to_chars("<SOAP-ENV:Header>");
            let mut with: Vec<char> = Vec::new();
            push_str(&mut with, "<SOAP-ENV:Header>");
            push_str(&mut with, security_header);
            from_chars(&replace(&xml, &tag, &with))
        } else {
            let tag = to_chars("<SOAP-ENV:Envelope");
            let close: Vec<char> = vec!['>'];
            assert(close@ == seq!['>']);
            assert(close@.len() == 1);
            let found = match find_in(&xml, &tag, 0) {
                Some(start) => find_in(&xml, &close, start),
                None => None,
            };
            match found {
                Some(at) => {
                    assert(at + close@.len() <= xml@.len());
                    assert(at + 1 <= xml.len());
                    let mut block: Vec<char> = Vec::new();
                    push_str(&mut block, "<SOAP-ENV:Header>");
                    push_str(&mut block, security_header);
                    push_str(&mut block, "</SOAP-ENV:Header>");
                    from_chars(&inserted(&xml, at + 1, &block))
                },
                None => from_chars(&xml),
            }
        }
    }

    /// `soap_xml` with a freshly generated security header put into it.
    pub fn add_to_soap_header(&self, soap_xml: &str) -> (r: String)
        ensures
            exists|nonce: Seq<u8>, now: int|
                nonce.len() == 16 && utc_instant(now) && r@ == with_security(
                    soap_xml@,
                    #[trigger] security_header(
                        self.username@,
                        self.password@,
                        nonce,
                        created_text(now),
                    ),
                ),
    {
        let header = self.generate_header();
        WsSecurityAuth::insert_security(soap_xml, header.as_str())
    }
}

} // verus!

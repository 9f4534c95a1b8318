//! The media service: its requests, and the repair of its responses.

use crate::config::host_of;
use crate::onvif::namespaces::{declare_if_used, declared_if_used};
use crate::text::{
    find, find_in, from_chars, lemma_find_from, lemma_find_skip, pair, pair_views, push_all,
    push_range, push_str, to_chars,
};
use vstd::prelude::*;

verus! {

/// The media service. It holds no state.
pub struct MediaService;

/// A profiles response with the schema and media namespaces declared where
/// they are used undeclared.
pub open spec fn profiles_normalized(xml: Seq<char>) -> Seq<char> {
    declared_if_used(
        declared_if_used(xml, "tt"@, "http://www.onvif.org/ver10/schema"@, "<tt:"@),
        "trt"@,
        "http://www.onvif.org/ver10/media/wsdl"@,
        "<trt:"@,
    )
}

/// A character that can stand in the name of a host.
pub open spec fn is_host_char(c: char) -> bool {
    ('a' <= c <= 'z') || ('A' <= c <= 'Z') || ('0' <= c <= '9') || c == '.' || c == '-'
}

/// `xml` with `with` in place of every occurrence of `address` that is a
/// whole scheme and host: one behind which the text ends or a character
/// stands that belongs to no host name, such as `:`, `/` or `<`. An
/// occurrence that a longer host name continues is left alone.
pub open spec fn host_replaced(xml: Seq<char>, address: Seq<char>, with: Seq<char>) -> Seq<char>
    decreases xml.len(),
{
    if address.len() == 0 {
        xml
    } else {
        match find(xml, address) {
            None => xml,
            Some(at) => {
                proof {
                    lemma_find_from(xml, address, 0);
                }
                let end = at + address.len();
                let rest = host_replaced(xml.skip(end), address, with);
                if end < xml.len() && is_host_char(xml[end]) {
                    xml.take(end) + rest
                } else {
                    xml.take(at) + with + rest
                }
            },
        }
    }
}

/// `host_replaced` for each pair of `table` in turn.
pub open spec fn hosts_replaced(xml: Seq<char>, table: Seq<(Seq<char>, Seq<char>)>) -> Seq<char>
    decreases table.len(),
{
    if table.len() == 0 {
        xml
    } else {
        host_replaced(hosts_replaced(xml, table.drop_last()), table.last().0, table.last().1)
    }
}

/// The placeholder hosts that cameras put into stream and snapshot
/// addresses, each with what stands for it when the camera is at `host`.
pub open spec fn placeholder_table(host: Seq<char>) -> Seq<(Seq<char>, Seq<char>)> {
    seq![
        ("rtsp://127.0.0.1"@, "rtsp://"@ + host),
        ("rtsp://localhost"@, "rtsp://"@ + host),
        ("rtsp://0.0.0.0"@, "rtsp://"@ + host),
        ("http://127.0.0.1"@, "http://"@ + host),
        ("http://localhost"@, "http://"@ + host),
        ("http://0.0.0.0"@, "http://"@ + host),
    ]
}

/// `xml` with the placeholder hosts of `rtsp://` and `http://` addresses
/// replaced by the host of the camera at `address`, wherever such a host
/// is the whole host of an address: before a port, a path or the end of
/// the address. Ports and paths stay.
pub open spec fn localhost_urls_fixed(xml: Seq<char>, address: Seq<char>) -> Seq<char> {
    hosts_replaced(xml, placeholder_table(host_of(address)))
}

/// A stream or snapshot address response repaired: the schema namespace
/// declared where `<tt:Uri>` is used undeclared, and placeholder hosts
/// replaced.
pub open spec fn stream_uri_fixed(xml: Seq<char>, address: Seq<char>) -> Seq<char> {
    localhost_urls_fixed(
        declared_if_used(xml, "tt"@, "http://www.onvif.org/ver10/schema"@, "<tt:Uri>"@),
        address,
    )
}

/// The request for the address of a stream.
pub open spec fn stream_uri_request_text(protocol: Seq<char>, profile_token: Seq<char>) -> Seq<
    char,
> {
    "<trt:GetStreamUri xmlns:trt=\"http://www.onvif.org/ver10/media/wsdl\">\n  <trt:StreamSetup>\n    <tt:Stream xmlns:tt=\"http://www.onvif.org/ver10/schema\">RTP-Unicast</tt:Stream>\n    <tt:Transport xmlns:tt=\"http://www.onvif.org/ver10/schema\">\n      <tt:Protocol>"@
        + protocol
        + "</tt:Protocol>\n    </tt:Transport>\n  </trt:StreamSetup>\n  <trt:ProfileToken>"@
        + profile_token + "</trt:ProfileToken>\n</trt:GetStreamUri>"@
}

/// The request for the address of a snapshot.
pub open spec fn snapshot_uri_request_text(profile_token: Seq<char>) -> Seq<char> {
    "<trt:GetSnapshotUri xmlns:trt=\"http://www.onvif.org/ver10/media/wsdl\">\n  <trt:ProfileToken>"@
        + profile_token + "</trt:ProfileToken>\n</trt:GetSnapshotUri>"@
}

/// The host part of an address, as characters.
fn host_chars(address: &str) -> (r: Vec<char>)
    ensures
        r@ == host_of(address@),
{
    let chars = to_chars(address);
    let colon: Vec<char> = vec![':'];
    assert(colon@ == seq![':']);
    match find_in(&chars, &colon, 0) {
        Some(i) => {
            let mut host: Vec<char> = Vec::new();
            push_range(&mut host, &chars, 0, i);
            assert(chars@.subrange(0, i as int) == chars@.take(i as int));
            host
        },
        None => chars,
    }
}

/// Whether `c` can stand in the name of a host.
fn host_char(c: char) -> (r: bool)
    ensures
        r == is_host_char(c),
{
    ('a' <= c && c <= 'z') || ('A' <= c && c <= 'Z') || ('0' <= c && c <= '9') || c == '.' || c
        == '-'
}

/// The executable form of `host_replaced`.
fn replace_host(xml: &Vec<char>, address: &Vec<char>, with: &Vec<char>) -> (r: Vec<char>)
    ensures
        r@ == host_replaced(xml@, address@, with@),
{
    let mut out: Vec<char> = Vec::new();
    let mut pos: usize = 0;
    assert(xml@.skip(0) == xml@);
    assert(out@ + xml@ == xml@);
    if address.len() == 0 {
        push_all(&mut out, xml);
        return out;
    }
    loop
        invariant
            pos <= xml.len(),
            address@.len() > 0,
            host_replaced(xml@, address@, with@) == out@ + host_replaced(
                xml@.skip(pos as int),
                address@,
                with@,
            ),
        decreases xml.len() - pos,
    {
        let ghost rest = xml@.skip(pos as int);
        proof {
            lemma_find_skip(xml@, address@, pos as int);
        }
        match find_in(xml, address, pos) {
            None => {
                push_range(&mut out, xml, pos, xml.len());
                assert(xml@.subrange(pos as int, xml.len() as int) == rest);
                return out;
            },
            Some(at) => {
                assert(at + address@.len() <= xml@.len());
                assert(at + address.len() <= xml.len());
                let end = at + address.len();
                proof {
                    assert(rest.skip(end - pos) == xml@.skip(end as int));
                    if end < xml.len() {
                        assert(rest[end - pos] == xml@[end as int]);
                    }
                }
                if end < xml.len() && host_char(xml[end]) {
                    push_range(&mut out, xml, pos, end);
                    assert(rest.take(end - pos) == xml@.subrange(pos as int, end as int));
                } else {
                    push_range(&mut out, xml, pos, at);
                    push_all(&mut out, with);
                    assert(rest.take(at - pos) == xml@.subrange(pos as int, at as int));
                }
                pos = end;
            },
        }
    }
}

/// The executable form of `hosts_replaced`.
fn replace_hosts(xml: Vec<char>, table: &Vec<(String, String)>) -> (r: Vec<char>)
    ensures
        r@ == hosts_replaced(xml@, pair_views(table@)),
{
    let ghost all = pair_views(table@);
    let ghost start = xml@;
    let mut cur = xml;
    let mut k: usize = 0;
    assert(all.take(0) == Seq::<(Seq<char>, Seq<char>)>::empty());
    while k < table.len()
        invariant
            k <= table.len(),
            all == pair_views(table@),
            cur@ == hosts_replaced(start, all.take(k as int)),
        decreases table.len() - k,
    {
        proof {
            let upto = all.take(k + 1);
            assert(upto.drop_last() == all.take(k as int));
            assert(upto.last() == all[k as int]);
        }
        let address = to_chars(table[k].0.as_str());
        let with = to_chars(table[k].1.as_str());
        cur = replace_host(&cur, &address, &with);
        k += 1;
    }
    assert(all.take(k as int) == all);
    cur
}

/// The executable form of `placeholder_table`.
fn placeholders(host: &str) -> (r: Vec<(String, String)>)
    ensures
        pair_views(r@) == placeholder_table(host@),
{
    let mut rtsp: Vec<char> = Vec::new();
    push_str(&mut rtsp, "rtsp://");
    push_str(&mut rtsp, host);
    let mut http: Vec<char> = Vec::new();
    push_str(&mut http, "http://");
    push_str(&mut http, host);
    let rtsp = from_chars(&rtsp);
    let http = from_chars(&http);
    let mut table: Vec<(String, String)> = Vec::new();
    table.push(pair("rtsp://127.0.0.1", rtsp.as_str()));
    table.push(pair("rtsp://localhost", rtsp.as_str()));
    table.push(pair("rtsp://0.0.0.0", rtsp.as_str()));
    table.push(pair("http://127.0.0.1", http.as_str()));
    table.push(pair("http://localhost", http.as_str()));
    table.push(pair("http://0.0.0.0", http.as_str()));
    assert(pair_views(table@) == placeholder_table(host@));
    table
}

/// The executable form of `localhost_urls_fixed`, on characters.
fn fix_placeholders(xml: Vec<char>, camera_address: &str) -> (r: Vec<char>)
    ensures
        r@ == localhost_urls_fixed(xml@, camera_address@),
{
    let host = from_chars(&host_chars(camera_address));
    replace_hosts(xml, &placeholders(host.as_str()))
}

/// Replaces the placeholder hosts in the addresses of a response by the
/// host of the camera, which is configured at `camera_address`.
pub fn fix_localhost_urls(xml: &str, camera_address: &str) -> (r: String)
    ensures
        r@ == localhost_urls_fixed(xml@, camera_address@),
{
    from_chars(&fix_placeholders(to_chars(xml), camera_address))
}

impl MediaService {
    /// The request for a camera's media profiles.
    pub fn profiles_request() -> (r: String)
        ensures
            r@ == "<trt:GetProfiles xmlns:trt=\"http://www.onvif.org/ver10/media/wsdl\"/>"@,
    {
        from_chars(&to_chars("<trt:GetProfiles xmlns:trt=\"http://www.onvif.org/ver10/media/wsdl\"/>"))
    }

    /// The request for the address of the stream of a profile.
    pub fn stream_uri_request(profile_token: &str, protocol: &str) -> (r: String)
        ensures
            r@ == stream_uri_request_text(protocol@, profile_token@),
    {
        let mut out: Vec<char> = Vec::new();
        push_str(
            &mut out,
            "<trt:GetStreamUri xmlns:trt=\"http://www.onvif.org/ver10/media/wsdl\">\n  <trt:StreamSetup>\n    <tt:Stream xmlns:tt=\"http://www.onvif.org/ver10/schema\">RTP-Unicast</tt:Stream>\n    <tt:Transport xmlns:tt=\"http://www.onvif.org/ver10/schema\">\n      <tt:Protocol>",
        );
        push_str(&mut out, protocol);
        push_str(
            &mut out,
            "</tt:Protocol>\n    </tt:Transport>\n  </trt:StreamSetup>\n  <trt:ProfileToken>",
        );
        push_str(&mut out, profile_token);
        push_str(&mut out, "</trt:ProfileToken>\n</trt:GetStreamUri>");
        from_chars(&out)
    }

    /// The request for the address of the snapshot of a profile.
    pub fn snapshot_uri_request(profile_token: &str) -> (r: String)
        ensures
            r@ == snapshot_uri_request_text(profile_token@),
    {
        let mut out: Vec<char> = Vec::new();
        push_str(
            &mut out,
            "<trt:GetSnapshotUri xmlns:trt=\"http://www.onvif.org/ver10/media/wsdl\">\n  <trt:ProfileToken>",
        );
        push_str(&mut out, profile_token);
        push_str(&mut out, "</trt:ProfileToken>\n</trt:GetSnapshotUri>");
        from_chars(&out)
    }

    /// Declares the schema and media namespaces where a profiles response
    /// uses them undeclared.
    pub fn normalize_profiles(xml: &str) -> (r: String)
        ensures
            r@ == profiles_normalized(xml@),
    {
        let schema = declare_if_used(
            to_chars(xml),
            "tt",
            "http://www.onvif.org/ver10/schema",
            "<tt:",
        );
        from_chars(
            &declare_if_used(schema, "trt", "http://www.onvif.org/ver10/media/wsdl", "<trt:"),
        )
    }

    /// Repairs a stream or snapshot address response of the camera that
    /// is configured at `camera_address`.
    pub fn fix_stream_uri_response(xml: &str, camera_address: &str) -> (r: String)
        ensures
            r@ == stream_uri_fixed(xml@, camera_address@),
    {
        let declared = declare_if_used(
            to_chars(xml),
            "tt",
            "http://www.onvif.org/ver10/schema",
            "<tt:Uri>",
        );
        from_chars(&fix_placeholders(declared, camera_address))
    }

    /// Repairs a profiles response: namespaces first, then placeholder hosts.
    pub fn fix_profiles_response(xml: &str, camera_address: &str) -> (r: String)
        ensures
            r@ == stream_uri_fixed(profiles_normalized(xml@), camera_address@),
    {
        let normalized = MediaService::normalize_profiles(xml);
        MediaService::fix_stream_uri_response(normalized.as_str(), camera_address)
    }
}

} // verus!

//! The device service: its requests, and the repair of its responses.

use crate::onvif::namespaces::{declare_if_used, declared_if_used};
use crate::text::{
    find_from, find_in, from_chars, lemma_find_from, lemma_rfind_from, push_all, push_range,
    push_str, rfind, rfind_between, texts, to_chars,
};
use vstd::prelude::*;

verus! {

/// The device service. It holds no state.
pub struct DeviceService;

/// A device information response with the schema and device namespaces
/// declared where they are used undeclared.
pub open spec fn device_info_fixed(xml: Seq<char>) -> Seq<char> {
    declared_if_used(
        declared_if_used(xml, "tt"@, "http://www.onvif.org/ver10/schema"@, "<tt:"@),
        "tds"@,
        "http://www.onvif.org/ver10/device/wsdl"@,
        "<tds:"@,
    )
}

/// The services whose addresses a camera reports.
pub open spec fn service_names() -> Seq<Seq<char>> {
    seq![
        "device_service"@,
        "media_service"@,
        "event_service"@,
        "ptz_service"@,
        "imaging_service"@,
        "analytics_service"@,
        "deviceIO_service"@,
        "Media2"@,
    ]
}

/// Where the address that ends at `end` begins: at the last `http://` or
/// `https://` of `xml[from..end]`, whichever stands nearer to `end`.
pub open spec fn address_start(xml: Seq<char>, from: int, end: int) -> Option<int> {
    let part = xml.subrange(from, end);
    match (rfind(part, "http://"@), rfind(part, "https://"@)) {
        (Some(plain), Some(secure)) => Some(
            from + if plain > secure {
                plain
            } else {
                secure
            },
        ),
        (Some(plain), None) => Some(from + plain),
        (None, Some(secure)) => Some(from + secure),
        (None, None) => None,
    }
}

/// `xml` with every address that ends in `path` at or after `from`
/// replaced by `address`. The document is read from left to right; an
/// address reaches from its scheme to the end of the path, and a path
/// without a scheme between it and the text before is left alone.
pub open spec fn addresses_replaced(
    xml: Seq<char>,
    from: int,
    path: Seq<char>,
    address: Seq<char>,
) -> Seq<char>
    decreases xml.len() - from,
{
    if path.len() == 0 || from < 0 {
        xml
    } else {
        match find_from(xml, path, from) {
            Some(at) => {
                proof {
                    lemma_find_from(xml, path, from);
                    lemma_address_start(xml, from, at);
                }
                match address_start(xml, from, at) {
                    Some(start) => addresses_replaced(
                        xml.take(start) + address + xml.skip(at + path.len()),
                        start + address.len(),
                        path,
                        address,
                    ),
                    None => addresses_replaced(xml, at + path.len(), path, address),
                }
            },
            None => xml,
        }
    }
}

/// The path of `service` on a camera.
pub open spec fn camera_path(service: Seq<char>) -> Seq<char> {
    "/onvif/"@ + service
}

/// The gateway's address of `service` of the camera `camera_id`.
pub open spec fn gateway_address(base_url: Seq<char>, camera_id: Seq<char>, service: Seq<char>) -> Seq<
    char,
> {
    base_url + "/onvif/"@ + camera_id + seq!['/'] + service
}

/// `xml` with the addresses of the given services, one service after the
/// other, replaced by the gateway's.
pub open spec fn services_rewritten(
    xml: Seq<char>,
    camera_id: Seq<char>,
    base_url: Seq<char>,
    services: Seq<Seq<char>>,
) -> Seq<char>
    decreases services.len(),
{
    if services.len() == 0 {
        xml
    } else {
        addresses_replaced(
            services_rewritten(xml, camera_id, base_url, services.drop_last()),
            0,
            camera_path(services.last()),
            gateway_address(base_url, camera_id, services.last()),
        )
    }
}

/// A capabilities or services response with the cameras' own service
/// addresses replaced by the gateway's.
pub open spec fn capability_urls_rewritten(
    xml: Seq<char>,
    camera_id: Seq<char>,
    base_url: Seq<char>,
) -> Seq<char> {
    services_rewritten(xml, camera_id, base_url, service_names())
}

/// An address start lies between `from` and `end`.
pub proof fn lemma_address_start(xml: Seq<char>, from: int, end: int)
    requires
        0 <= from <= end <= xml.len(),
    ensures
        address_start(xml, from, end) matches Some(start) ==> from <= start <= end,
{
    let part = xml.subrange(from, end);
    lemma_rfind_from(part, "http://"@, part.len() - "http://"@.len());
    lemma_rfind_from(part, "https://"@, part.len() - "https://"@.len());
}

/// The executable form of `address_start`.
fn start_of_address(xml: &Vec<char>, from: usize, end: usize) -> (r: Option<usize>)
    requires
        from <= end <= xml.len(),
    ensures
        r matches Some(start) ==> address_start(xml@, from as int, end as int) == Some(
            start as int,
        ) && from <= start <= end,
        r is None ==> address_start(xml@, from as int, end as int) is None,
{
    proof {
        lemma_address_start(xml@, from as int, end as int);
    }
    let plain = rfind_between(xml, &to_chars("http://"), from, end);
    let secure = rfind_between(xml, &to_chars("https://"), from, end);
    match (plain, secure) {
        (Some(p), Some(s)) => Some(
            if p > s {
                p
            } else {
                s
            },
        ),
        (Some(p), None) => Some(p),
        (None, Some(s)) => Some(s),
        (None, None) => None,
    }
}

/// The executable form of `addresses_replaced`, from the start of `xml`.
fn replace_addresses(xml: Vec<char>, path: &Vec<char>, address: &Vec<char>) -> (r: Vec<char>)
    ensures
        r@ == addresses_replaced(xml@, 0, path@, address@),
{
    let ghost wanted = addresses_replaced(xml@, 0, path@, address@);
    if path.len() == 0 {
        return xml;
    }
    let mut cur = xml;
    let mut from: usize = 0;
    loop
        invariant
            path@.len() > 0,
            from <= cur@.len(),
            wanted == addresses_replaced(xml@, 0, path@, address@),
            wanted == addresses_replaced(cur@, from as int, path@, address@),
        decreases cur@.len() - from,
    {
        match find_in(&cur, path, from) {
            None => {
                return cur;
            },
            Some(at) => {
                assert(at + path@.len() <= cur@.len());
                assert(at + path.len() <= cur.len());
                match start_of_address(&cur, from, at) {
                    Some(start) => {
                        let mut next: Vec<char> = Vec::new();
                        push_range(&mut next, &cur, 0, start);
                        push_all(&mut next, address);
                        push_range(&mut next, &cur, at + path.len(), cur.len());
                        proof {
                            assert(cur@.subrange(0, start as int) == cur@.take(start as int));
                            assert(cur@.subrange(at + path@.len(), cur@.len() as int)
                                == cur@.skip(at + path@.len()));
                        }
                        assert(next@.len() == start + address@.len() + (cur@.len() - at
                            - path@.len()));
                        assert(start + address.len() <= next.len());
                        from = start + address.len();
                        cur = next;
                    },
                    None => {
                        from = at + path.len();
                    },
                }
            },
        }
    }
}

impl DeviceService {
    /// The request for a camera's device information.
    pub fn device_information_request() -> (r: String)
        ensures
            r@ == "<tds:GetDeviceInformation xmlns:tds=\"http://www.onvif.org/ver10/device/wsdl\"/>"@,
    {
        from_chars(
            &to_chars(
                "<tds:GetDeviceInformation xmlns:tds=\"http://www.onvif.org/ver10/device/wsdl\"/>",
            ),
        )
    }

    /// The request for all of a camera's capabilities.
    pub fn capabilities_request() -> (r: String)
        ensures
            r@
                == "<tds:GetCapabilities xmlns:tds=\"http://www.onvif.org/ver10/device/wsdl\"><tds:Category>All</tds:Category></tds:GetCapabilities>"@,
    {
        from_chars(
            &to_chars(
                "<tds:GetCapabilities xmlns:tds=\"http://www.onvif.org/ver10/device/wsdl\"><tds:Category>All</tds:Category></tds:GetCapabilities>",
            ),
        )
    }

    /// The request for a camera's services, with their capabilities.
    pub fn services_request() -> (r: String)
        ensures
            r@
                == "<tds:GetServices xmlns:tds=\"http://www.onvif.org/ver10/device/wsdl\"><tds:IncludeCapability>true</tds:IncludeCapability></tds:GetServices>"@,
    {
        from_chars(
            &to_chars(
                "<tds:GetServices xmlns:tds=\"http://www.onvif.org/ver10/device/wsdl\"><tds:IncludeCapability>true</tds:IncludeCapability></tds:GetServices>",
            ),
        )
    }

    /// Declares the schema and device namespaces where a device
    /// information response uses them undeclared.
    pub fn fix_device_info_namespaces(xml: &str) -> (r: String)
        ensures
            r@ == device_info_fixed(xml@),
    {
        let schema = declare_if_used(
            to_chars(xml),
            "tt",
            "http://www.onvif.org/ver10/schema",
            "<tt:",
        );
        from_chars(
            &declare_if_used(schema, "tds", "http://www.onvif.org/ver10/device/wsdl", "<tds:"),
        )
    }

    /// Replaces the camera's own service addresses in a capabilities
    /// response by the gateway's, so that clients come back to the gateway.
    pub fn rewrite_capability_urls(xml: &str, camera_id: &str, base_url: &str) -> (r: String)
        ensures
            r@ == capability_urls_rewritten(xml@, camera_id@, base_url@),
    {
        let mut services: Vec<String> = Vec::new();
        services.push(from_chars(&to_chars("device_service")));
        services.push(from_chars(&to_chars("media_service")));
        services.push(from_chars(&to_chars("event_service")));
        services.push(from_chars(&to_chars("ptz_service")));
        services.push(from_chars(&to_chars("imaging_service")));
        services.push(from_chars(&to_chars("analytics_service")));
        services.push(from_chars(&to_chars("deviceIO_service")));
        services.push(from_chars(&to_chars("Media2")));
        let ghost all = texts(services@);
        assert(all == service_names());
        let mut cur = to_chars(xml);
        let mut k: usize = 0;
        assert(all.take(0) == Seq::<Seq<char>>::empty());
        while k < services.len()
            invariant
                k <= services.len(),
                all == texts(services@),
                cur@ == services_rewritten(xml@, camera_id@, base_url@, all.take(k as int)),
            decreases services.len() - k,
        {
            proof {
                let upto = all.take(k + 1);
                assert(upto.drop_last() == all.take(k as int));
                assert(upto.last() == all[k as int]);
            }
            let mut path: Vec<char> = Vec::new();
            push_str(&mut path, "/onvif/");
            push_str(&mut path, services[k].as_str());
            let mut address: Vec<char> = Vec::new();
            push_str(&mut address, base_url);
            push_str(&mut address, "/onvif/");
            push_str(&mut address, camera_id);
            address.push('/');
            push_str(&mut address, services[k].as_str());
            proof {
                assert(path@ == camera_path(all[k as int]));
                assert(address@ == gateway_address(base_url@, camera_id@, all[k as int]));
            }
            cur = replace_addresses(cur, &path, &address);
            k += 1;
        }
        assert(all.take(k as int) == all);
        from_chars(&cur)
    }

    /// Replaces the camera's own service addresses in a services response
    /// by the gateway's.
    pub fn rewrite_service_urls(xml: &str, camera_id: &str, base_url: &str) -> (r: String)
        ensures
            r@ == capability_urls_rewritten(xml@, camera_id@, base_url@),
    {
        DeviceService::rewrite_capability_urls(xml, camera_id, base_url)
    }
}

} // verus!

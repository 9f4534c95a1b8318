//! The gateway's configuration: where it listens and which cameras it serves.

use crate::text::{
    find, find_in, from_chars, push_all, push_range, push_str, same_text, to_chars, trim, trimmed,
};
use vstd::prelude::*;

verus! {

/// The whole configuration.
#[derive(Debug, Clone)]
pub struct AppConfig {
    pub proxy: ProxyConfig,
    pub cameras: Vec<CameraConfig>,
}

/// How the gateway itself is reached.
#[derive(Debug, Clone)]
pub struct ProxyConfig {
    pub listen_address: String,
    pub base_path: String,
    pub log_level: String,
    /// The address under which clients reach the gateway, where it is fixed.
    pub base_url: Option<String>,
}

/// The connection facts of one camera.
#[derive(Debug, Clone)]
pub struct CameraConfig {
    pub id: String,
    pub name: String,
    pub address: String,
    pub username: String,
    pub password: String,
    pub model: String,
    pub enable_smart_detection: bool,
    pub quirks: Vec<String>,
}

/// The log level of a configuration that names none.
pub fn default_log_level() -> (r: String)
    ensures
        r@ == "info"@,
{
    from_chars(&to_chars("info"))
}

/// The model of a camera whose configuration names none.
pub fn default_model() -> (r: String)
    ensures
        r@ == "reolink"@,
{
    from_chars(&to_chars("reolink"))
}

/// Index of the first camera of `cameras[from..]` whose id is `id`.
pub open spec fn camera_index_from(cameras: Seq<CameraConfig>, id: Seq<char>, from: int) -> Option<
    int,
>
    decreases cameras.len() - from,
{
    if from < 0 || from >= cameras.len() {
        None
    } else if cameras[from].id@ == id {
        Some(from)
    } else {
        camera_index_from(cameras, id, from + 1)
    }
}

/// Index of the first camera whose id is `id`.
pub open spec fn camera_index(cameras: Seq<CameraConfig>, id: Seq<char>) -> Option<int> {
    camera_index_from(cameras, id, 0)
}

/// The host part of `address`: what stands before the first colon, or all
/// of it where there is none.
pub open spec fn host_of(address: Seq<char>) -> Seq<char> {
    match find(address, seq![':']) {
        Some(i) => address.take(i),
        None => address,
    }
}

/// The port in a listen address: what stands between its first colon and
/// its second, or its end; `8000` where the address has no colon.
pub open spec fn port_of(listen_address: Seq<char>) -> Seq<char> {
    match find(listen_address, seq![':']) {
        Some(i) => {
            let rest = listen_address.skip(i + 1);
            match find(rest, seq![':']) {
                Some(j) => rest.take(j),
                None => rest,
            }
        },
        None => "8000"@,
    }
}

/// The address under which clients reach the gateway: the configured one
/// unless it is blank, else the one from the environment, else one made
/// of the machine's own address, or the loopback address, and the port on
/// which the gateway listens.
pub open spec fn base_url_resolved(
    configured: Option<Seq<char>>,
    from_environment: Option<Seq<char>>,
    listen_address: Seq<char>,
    local_ip: Option<Seq<char>>,
) -> Seq<char> {
    if configured is Some && trim(configured->0).len() > 0 {
        configured->0
    } else if from_environment is Some {
        from_environment->0
    } else {
        "http://"@ + (if local_ip is Some {
            local_ip->0
        } else {
            "127.0.0.1"@
        }) + seq![':'] + port_of(listen_address)
    }
}

/// What `camera_index_from` returns is the first index at or after `from`
/// with the wanted id.
pub proof fn lemma_camera_index_from(cameras: Seq<CameraConfig>, id: Seq<char>, from: int)
    requires
        0 <= from,
    ensures
        match camera_index_from(cameras, id, from) {
            Some(i) => from <= i < cameras.len() && cameras[i].id@ == id && forall|j: int|
                from <= j < i ==> cameras[j].id@ != id,
            None => forall|j: int| from <= j < cameras.len() ==> cameras[j].id@ != id,
        },
    decreases cameras.len() - from,
{
    if from < cameras.len() && cameras[from].id@ != id {
        lemma_camera_index_from(cameras, id, from + 1);
    }
}

impl AppConfig {
    /// The first configured camera with the id `camera_id`.
    pub fn get_camera(&self, camera_id: &str) -> (r: Option<&CameraConfig>)
        ensures
            match camera_index(self.cameras@, camera_id@) {
                Some(i) => r == Some(&self.cameras@[i]),
                None => r is None,
            },
    {
        let mut i: usize = 0;
        while i < self.cameras.len()
            invariant
                camera_index(self.cameras@, camera_id@) == camera_index_from(
                    self.cameras@,
                    camera_id@,
                    i as int,
                ),
            decreases self.cameras.len() - i,
        {
            if same_text(self.cameras[i].id.as_str(), camera_id) {
                return Some(&self.cameras[i]);
            }
            i += 1;
        }
        None
    }
}

impl CameraConfig {
    /// The address of the camera's HTTP services.
    pub fn base_url(&self) -> (r: String)
        ensures
            r@ == "http://"@ + self.address@,
    {
        let mut url: Vec<char> = Vec::new();
        push_str(&mut url, "http://");
        push_str(&mut url, self.address.as_str());
        from_chars(&url)
    }

    /// The camera's host, without the port.
    pub fn host(&self) -> (r: String)
        ensures
            r@ == host_of(self.address@),
    {
        let address = to_chars(self.address.as_str());
        let colon: Vec<char> = vec![':'];
        assert(colon@ == seq![':']);
        match find_in(&address, &colon, 0) {
            Some(i) => {
                let mut host: Vec<char> = Vec::new();
                push_range(&mut host, &address, 0, i);
                assert(address@.subrange(0, i as int) == address@.take(i as int));
                from_chars(&host)
            },
            None => from_chars(&address),
        }
    }
}

/// The view of an optional text.
pub open spec fn optional_text(text: Option<&str>) -> Option<Seq<char>> {
    match text {
        Some(t) => Some(t@),
        None => None,
    }
}

/// The port in a listen address, as characters.
fn port_chars(listen_address: &str) -> (r: Vec<char>)
    ensures
        r@ == port_of(listen_address@),
{
    let chars = to_chars(listen_address);
    let colon: Vec<char> = vec![':'];
    assert(colon@ == seq![':']);
    assert(colon@.len() == 1);
    match find_in(&chars, &colon, 0) {
        Some(i) => {
            assert(i + colon@.len() <= chars@.len());
            assert(i + 1 <= chars.len());
            let mut rest: Vec<char> = Vec::new();
            push_range(&mut rest, &chars, i + 1, chars.len());
            assert(chars@.subrange(i + 1, chars@.len() as int) == chars@.skip(i + 1));
            match find_in(&rest, &colon, 0) {
                Some(j) => {
                    let mut port: Vec<char> = Vec::new();
                    push_range(&mut port, &rest, 0, j);
                    assert(rest@.subrange(0, j as int) == rest@.take(j as int));
                    port
                },
                None => rest,
            }
        },
        None => to_chars("8000"),
    }
}

/// The address under which clients reach the gateway.
pub fn resolve_base_url(
    configured: Option<&str>,
    from_environment: Option<&str>,
    listen_address: &str,
    local_ip: Option<&str>,
) -> (r: String)
    ensures
        r@ == base_url_resolved(
            optional_text(configured),
            optional_text(from_environment),
            listen_address@,
            optional_text(local_ip),
        ),
{
    match configured {
        Some(url) => {
            let chars = to_chars(url);
            let kept = trimmed(&chars, 0, chars.len());
            assert(chars@.subrange(0, chars@.len() as int) == chars@);
            if kept.len() > 0 {
                return from_chars(&chars);
            }
        },
        None => {},
    }
    match from_environment {
        Some(url) => {
            return from_chars(&to_chars(url));
        },
        None => {},
    }
    let mut out: Vec<char> = Vec::new();
    push_str(&mut out, "http://");
    match local_ip {
        Some(ip) => {
            push_str(&mut out, ip);
        },
        None => {
            push_str(&mut out, "127.0.0.1");
        },
    }
    out.push(':');
    let port = port_chars(listen_address);
    push_all(&mut out, &port);
    from_chars(&out)
}

} // verus!

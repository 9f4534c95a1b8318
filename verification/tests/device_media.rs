use onvif_proxy::onvif::device::DeviceService;
use onvif_proxy::onvif::media::{fix_localhost_urls, MediaService};

#[test]
fn rewrite_localhost_rtsp_url() {
    assert_eq!(
        fix_localhost_urls("rtsp://127.0.0.1:554/stream", "192.168.1.10:8000"),
        "rtsp://192.168.1.10:554/stream"
    );
}

#[test]
fn rewrite_each_placeholder_host() {
    let xml = "a rtsp://localhost:554/x b rtsp://0.0.0.0:1/y c http://127.0.0.1:80/s d http://localhost:81/t e http://0.0.0.0:82/u f https://127.0.0.1:1/z g rtsp://127.0.0.1/path";
    assert_eq!(
        fix_localhost_urls(xml, "cam.lan:8000"),
        "a rtsp://cam.lan:554/x b rtsp://cam.lan:1/y c http://cam.lan:80/s d http://cam.lan:81/t e http://cam.lan:82/u f https://127.0.0.1:1/z g rtsp://cam.lan/path"
    );
    assert_eq!(fix_localhost_urls("rtsp://127.0.0.1:554/", "10.0.0.9"), "rtsp://10.0.0.9:554/");
}

#[test]
fn rewrite_placeholder_host_without_a_port() {
    let address = "192.168.1.10:8000";
    assert_eq!(fix_localhost_urls("rtsp://0.0.0.0/stream", address), "rtsp://192.168.1.10/stream");
    assert_eq!(fix_localhost_urls("http://localhost", address), "http://192.168.1.10");
    assert_eq!(
        fix_localhost_urls("<tt:Uri>http://127.0.0.1</tt:Uri>", address),
        "<tt:Uri>http://192.168.1.10</tt:Uri>"
    );
    assert_eq!(fix_localhost_urls("a=\"rtsp://localhost\" b", address), "a=\"rtsp://192.168.1.10\" b");
    let once = fix_localhost_urls("rtsp://0.0.0.0/stream http://localhost:80/x", address);
    assert_eq!(fix_localhost_urls(&once, address), once);
}

#[test]
fn longer_host_names_are_left_alone() {
    let address = "192.168.1.10:8000";
    for xml in [
        "http://localhost.example.com/x",
        "http://127.0.0.10:80/x",
        "rtsp://0.0.0.0.example/x",
        "rtsp://localhost-2/x",
        "http://localhosts",
        "ftp://localhost/x",
    ] {
        assert_eq!(fix_localhost_urls(xml, address), xml);
    }
    assert_eq!(
        fix_localhost_urls("http://localhost.lan/a http://localhost/b", address),
        "http://localhost.lan/a http://192.168.1.10/b"
    );
}

#[test]
fn fix_stream_uri_declares_schema_namespace() {
    let xml = "<SOAP-ENV:Envelope><tt:Uri>rtsp://127.0.0.1:554/s</tt:Uri></SOAP-ENV:Envelope>";
    assert_eq!(
        MediaService::fix_stream_uri_response(xml, "192.168.1.10:8000"),
        "<SOAP-ENV:Envelope xmlns:tt=\"http://www.onvif.org/ver10/schema\"><tt:Uri>rtsp://192.168.1.10:554/s</tt:Uri></SOAP-ENV:Envelope>"
    );
    let declared = "<SOAP-ENV:Envelope xmlns:tt=\"x\"><tt:Uri>u</tt:Uri></SOAP-ENV:Envelope>";
    assert_eq!(MediaService::fix_stream_uri_response(declared, "h"), declared);
}

#[test]
fn normalize_profiles_declares_in_order() {
    let xml = "<SOAP-ENV:Envelope><trt:P><tt:N/></trt:P></SOAP-ENV:Envelope>";
    assert_eq!(
        MediaService::normalize_profiles(xml),
        "<SOAP-ENV:Envelope xmlns:trt=\"http://www.onvif.org/ver10/media/wsdl\" xmlns:tt=\"http://www.onvif.org/ver10/schema\"><trt:P><tt:N/></trt:P></SOAP-ENV:Envelope>"
    );
    assert_eq!(
        MediaService::fix_profiles_response(xml, "h:1"),
        MediaService::normalize_profiles(xml)
    );
}

#[test]
fn media_requests() {
    assert_eq!(
        MediaService::profiles_request(),
        "<trt:GetProfiles xmlns:trt=\"http://www.onvif.org/ver10/media/wsdl\"/>"
    );
    assert_eq!(
        MediaService::stream_uri_request("000", "RTSP"),
        "<trt:GetStreamUri xmlns:trt=\"http://www.onvif.org/ver10/media/wsdl\">
  <trt:StreamSetup>
    <tt:Stream xmlns:tt=\"http://www.onvif.org/ver10/schema\">RTP-Unicast</tt:Stream>
    <tt:Transport xmlns:tt=\"http://www.onvif.org/ver10/schema\">
      <tt:Protocol>RTSP</tt:Protocol>
    </tt:Transport>
  </trt:StreamSetup>
  <trt:ProfileToken>000</trt:ProfileToken>
</trt:GetStreamUri>"
    );
    assert_eq!(
        MediaService::snapshot_uri_request("001"),
        "<trt:GetSnapshotUri xmlns:trt=\"http://www.onvif.org/ver10/media/wsdl\">
  <trt:ProfileToken>001</trt:ProfileToken>
</trt:GetSnapshotUri>"
    );
}

#[test]
fn device_requests() {
    assert_eq!(
        DeviceService::device_information_request(),
        "<tds:GetDeviceInformation xmlns:tds=\"http://www.onvif.org/ver10/device/wsdl\"/>"
    );
    assert_eq!(
        DeviceService::capabilities_request(),
        "<tds:GetCapabilities xmlns:tds=\"http://www.onvif.org/ver10/device/wsdl\"><tds:Category>All</tds:Category></tds:GetCapabilities>"
    );
    assert_eq!(
        DeviceService::services_request(),
        "<tds:GetServices xmlns:tds=\"http://www.onvif.org/ver10/device/wsdl\"><tds:IncludeCapability>true</tds:IncludeCapability></tds:GetServices>"
    );
}

#[test]
fn fix_device_info_namespaces_on_every_envelope_tag() {
    let xml = "<SOAP-ENV:Envelope><tds:A><tt:B/></tds:A></SOAP-ENV:Envelope>";
    assert_eq!(
        DeviceService::fix_device_info_namespaces(xml),
        "<SOAP-ENV:Envelope xmlns:tds=\"http://www.onvif.org/ver10/device/wsdl\" xmlns:tt=\"http://www.onvif.org/ver10/schema\"><tds:A><tt:B/></tds:A></SOAP-ENV:Envelope>"
    );
    assert_eq!(DeviceService::fix_device_info_namespaces("<a/>"), "<a/>");
}

#[test]
fn rewrite_capability_urls_points_back_at_gateway() {
    let xml = "<tt:XAddr>http://192.168.30.11:8000/onvif/device_service</tt:XAddr><tt:XAddr>http://192.168.30.11:8000/onvif/media_service</tt:XAddr><tt:XAddr>https://192.168.30.11/onvif/event_service</tt:XAddr><tt:XAddr>http://192.168.30.11:8000/onvif/Media2</tt:XAddr>";
    assert_eq!(
        DeviceService::rewrite_capability_urls(xml, "cam1", "http://gw:9000"),
        "<tt:XAddr>http://gw:9000/onvif/cam1/device_service</tt:XAddr><tt:XAddr>http://gw:9000/onvif/cam1/media_service</tt:XAddr><tt:XAddr>http://gw:9000/onvif/cam1/event_service</tt:XAddr><tt:XAddr>http://gw:9000/onvif/cam1/Media2</tt:XAddr>"
    );
}

#[test]
fn rewrite_capability_urls_edge_cases() {
    assert_eq!(DeviceService::rewrite_capability_urls("", "c", "http://gw"), "");
    assert_eq!(
        DeviceService::rewrite_capability_urls("<a>/onvif/ptz_service</a>", "c", "http://gw"),
        "<a>/onvif/ptz_service</a>"
    );
    let twice = "<a>http://x/onvif/imaging_service</a><b>http://x/onvif/imaging_service</b>";
    assert_eq!(
        DeviceService::rewrite_service_urls(twice, "c", "http://gw"),
        "<a>http://gw/onvif/c/imaging_service</a><b>http://gw/onvif/c/imaging_service</b>"
    );
    let secure = "<a>https://x/onvif/analytics_service</a><b>https://y/onvif/analytics_service</b>";
    assert_eq!(
        DeviceService::rewrite_service_urls(secure, "c", "http://gw"),
        "<a>http://gw/onvif/c/analytics_service</a><b>http://gw/onvif/c/analytics_service</b>"
    );
    let own = "http://gw/onvif/c/deviceIO_service";
    assert_eq!(DeviceService::rewrite_service_urls(own, "c", "http://gw"), own);
}

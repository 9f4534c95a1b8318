use onvif_proxy::config::CameraConfig;
use onvif_proxy::onvif::events::EventsService;
use onvif_proxy::onvif::soap::{SoapEnvelope, SoapError};
use onvif_proxy::server::routes::{
    camera_call, complete, extract_value, handle_device_service, handle_events_service,
    handle_media2_service, handle_media_service, handle_subscription, health_check, route_device,
    settle, settle_at, soap_response, subscription_call, subscription_not_found, HttpReply,
    Operation, Plan, Routed,
};

fn camera() -> CameraConfig {
    CameraConfig {
        id: "cam1".to_string(),
        name: "Front".to_string(),
        address: "192.168.1.10:8000".to_string(),
        username: "admin".to_string(),
        password: "pw".to_string(),
        model: "reolink".to_string(),
        enable_smart_detection: false,
        quirks: vec!["add_missing_namespaces".to_string()],
    }
}

fn envelope(body: &str) -> String {
    format!("<s:Envelope xmlns:s=\"http://www.w3.org/2003/05/soap-envelope\"><s:Body>{}</s:Body></s:Envelope>", body)
}

fn reply_of(routed: Routed) -> HttpReply {
    match routed {
        Routed::Reply(reply) => reply,
        Routed::Run(plan) => panic!("unexpected operation {:?}", plan),
    }
}

fn plan_of(routed: Routed) -> Plan {
    match routed {
        Routed::Run(plan) => plan,
        Routed::Reply(reply) => panic!("unexpected reply {:?}", reply),
    }
}

#[test]
fn unknown_camera_is_not_found_on_every_route() {
    let body = envelope("<GetProfiles/>");
    for routed in [
        handle_device_service(None, &body),
        handle_media_service(None, &body),
        handle_media2_service(None, &body),
        handle_events_service(None, &body),
        handle_subscription(None, "sub", &body),
        handle_device_service(None, "not xml"),
    ] {
        let reply = reply_of(routed);
        assert_eq!(reply.status, 404);
        assert_eq!(reply.body, "Camera not found");
        assert!(!reply.soap);
        assert_eq!(reply.content_type(), "text/plain; charset=utf-8");
    }
}

#[test]
fn unparsable_envelope_is_a_client_error() {
    let cam = camera();
    let reply = reply_of(handle_device_service(Some(&cam), "<a></b>"));
    assert_eq!(reply.status, 400);
    assert!(reply.body.starts_with("Invalid SOAP: XML parsing error: "));
    let reply = reply_of(handle_media_service(Some(&cam), "<s:Envelope/>"));
    assert_eq!(reply.status, 400);
    assert_eq!(reply.body, "Invalid SOAP: SOAP Body not found");
    assert_eq!(reply_of(handle_media2_service(Some(&cam), "")).status, 400);
    assert_eq!(reply_of(handle_events_service(Some(&cam), "")).status, 400);
    assert_eq!(reply_of(handle_subscription(Some(&cam), "s", "")).status, 400);
}

#[test]
fn device_route_by_action() {
    let cam = camera();
    let probe = reply_of(handle_device_service(Some(&cam), &envelope("")));
    assert_eq!((probe.status, probe.body.as_str()), (200, "OK"));
    for (action, expected) in [
        ("GetDeviceInformation", "GetDeviceInformation"),
        ("tds:GetCapabilities", "GetCapabilities"),
        ("GetServices", "GetServices"),
    ] {
        let plan = plan_of(handle_device_service(Some(&cam), &envelope(&format!("<{}/>", action))));
        assert!(plan.translate);
        assert_eq!(format!("{:?}", plan.operation), expected);
    }
    let reply = reply_of(handle_device_service(Some(&cam), &envelope("<tds:Reboot/>")));
    assert_eq!(reply.status, 501);
    assert_eq!(reply.body, "Action not implemented: Reboot");
    let reply = reply_of(route_device(true, Err(SoapError::MissingBody)));
    assert_eq!(reply.status, 400);
    let parsed = SoapEnvelope::parse(&envelope("<GetServices/>"));
    assert!(matches!(plan_of(route_device(true, parsed)).operation, Operation::GetServices));
}

#[test]
fn media_route_by_action() {
    let cam = camera();
    let plan = plan_of(handle_media_service(Some(&cam), &envelope("<trt:GetProfiles/>")));
    assert!(plan.translate);
    assert!(matches!(plan.operation, Operation::GetProfiles));
    let body = envelope("<trt:GetStreamUri><trt:StreamSetup><tt:Transport><tt:Protocol> UDP </tt:Protocol></tt:Transport></trt:StreamSetup><trt:ProfileToken>001</trt:ProfileToken></trt:GetStreamUri>");
    match plan_of(handle_media_service(Some(&cam), &body)).operation {
        Operation::GetStreamUri { profile_token, protocol } => {
            assert_eq!(profile_token, "001");
            assert_eq!(protocol, "UDP");
        }
        other => panic!("unexpected {:?}", other),
    }
    match plan_of(handle_media_service(Some(&cam), &envelope("<GetStreamUri/>"))).operation {
        Operation::GetStreamUri { profile_token, protocol } => {
            assert_eq!(profile_token, "000");
            assert_eq!(protocol, "RTSP");
        }
        other => panic!("unexpected {:?}", other),
    }
    match plan_of(handle_media_service(Some(&cam), &envelope("<GetSnapshotUri><ProfileToken>7</ProfileToken></GetSnapshotUri>"))).operation {
        Operation::GetSnapshotUri { profile_token } => assert_eq!(profile_token, "7"),
        other => panic!("unexpected {:?}", other),
    }
    let reply = reply_of(handle_media_service(Some(&cam), &envelope("")));
    assert_eq!((reply.status, reply.body.as_str()), (501, "Action not implemented: "));
    let ver20 = envelope("<tr2:GetProfiles xmlns:tr2=\"http://www.onvif.org/ver20/media/wsdl\"><tr2:Type>All</tr2:Type></tr2:GetProfiles>");
    let plan = plan_of(handle_media_service(Some(&cam), &ver20));
    assert!(!plan.translate);
    match plan.operation {
        Operation::Media2Relay { body } => assert_eq!(
            body,
            "<tr2:GetProfiles xmlns:tr2=\"http://www.onvif.org/ver20/media/wsdl\"><tr2:Type>All</tr2:Type></tr2:GetProfiles>"
        ),
        other => panic!("unexpected {:?}", other),
    }
}

#[test]
fn media2_route_forwards_the_body() {
    let cam = camera();
    let plan = plan_of(handle_media2_service(Some(&cam), &envelope("<tr2:GetStreamUri><tr2:ProfileToken>0</tr2:ProfileToken></tr2:GetStreamUri>")));
    assert!(!plan.translate);
    match &plan.operation {
        Operation::Media2Forward { body } => {
            assert_eq!(body, "<tr2:GetStreamUri><tr2:ProfileToken>0</tr2:ProfileToken></tr2:GetStreamUri>")
        }
        other => panic!("unexpected {:?}", other),
    }
    let (path, body) = camera_call(&plan.operation).unwrap();
    assert_eq!(path, "/onvif/Media2");
    assert_eq!(body, "<tr2:GetStreamUri><tr2:ProfileToken>0</tr2:ProfileToken></tr2:GetStreamUri>");
    let reply = complete(&plan, &cam, "http://gw", Ok("<tt:Uri>rtsp://127.0.0.1:554/s</tt:Uri>".to_string()));
    assert_eq!(reply.status, 200);
    assert!(reply.soap);
    assert_eq!(reply.body, "<tt:Uri>rtsp://192.168.1.10:554/s</tt:Uri>");
    assert_eq!(reply.content_type(), "application/soap+xml; charset=utf-8");
}

#[test]
fn events_and_subscription_routes() {
    let cam = camera();
    assert!(matches!(plan_of(handle_events_service(Some(&cam), &envelope("<tev:GetEventProperties/>"))).operation, Operation::GetEventProperties));
    assert!(matches!(plan_of(handle_events_service(Some(&cam), &envelope("<tev:CreatePullPointSubscription/>"))).operation, Operation::CreatePullPointSubscription));
    let pull = envelope("<tev:PullMessages><tev:Timeout>PT5S</tev:Timeout><tev:MessageLimit> 3 </tev:MessageLimit></tev:PullMessages>");
    let plan = plan_of(handle_events_service(Some(&cam), &pull));
    assert!(plan.translate);
    match plan.operation {
        Operation::PullMessages { subscription_ref, timeout, message_limit } => {
            assert_eq!(subscription_ref, "");
            assert_eq!(timeout, "PT5S");
            assert_eq!(message_limit, 3);
        }
        other => panic!("unexpected {:?}", other),
    }
    let plan = plan_of(handle_subscription(Some(&cam), "sub-9", &pull));
    assert!(!plan.translate);
    match plan.operation {
        Operation::PullMessages { subscription_ref, timeout, message_limit } => {
            assert_eq!(subscription_ref, "sub-9");
            assert_eq!(timeout, "PT5S");
            assert_eq!(message_limit, 3);
        }
        other => panic!("unexpected {:?}", other),
    }
    match plan_of(handle_subscription(Some(&cam), "sub-9", &envelope("<PullMessages><MessageLimit>many</MessageLimit></PullMessages>"))).operation {
        Operation::PullMessages { timeout, message_limit, .. } => {
            assert_eq!(timeout, "PT1S");
            assert_eq!(message_limit, 10);
        }
        other => panic!("unexpected {:?}", other),
    }
    match plan_of(handle_subscription(Some(&cam), "sub-9", &envelope("<wsnt:Renew/>"))).operation {
        Operation::Renew { subscription_ref } => assert_eq!(subscription_ref, "sub-9"),
        other => panic!("unexpected {:?}", other),
    }
    match plan_of(handle_subscription(Some(&cam), "sub-9", &envelope("<wsnt:Unsubscribe/>"))).operation {
        Operation::Unsubscribe { subscription_ref } => assert_eq!(subscription_ref, "sub-9"),
        other => panic!("unexpected {:?}", other),
    }
    match plan_of(handle_events_service(Some(&cam), &envelope("<wsnt:Renew/>"))).operation {
        Operation::Renew { subscription_ref } => assert_eq!(subscription_ref, ""),
        other => panic!("unexpected {:?}", other),
    }
    assert!(matches!(plan_of(handle_events_service(Some(&cam), &envelope("<wsnt:Unsubscribe/>"))).operation, Operation::Unsubscribe { .. }));
    assert_eq!(reply_of(handle_events_service(Some(&cam), &envelope("<Other/>"))).status, 501);
    assert_eq!(reply_of(handle_subscription(Some(&cam), "s", &envelope("<GetEventProperties/>"))).status, 501);
}

#[test]
fn extract_value_with_and_without_prefix() {
    assert_eq!(extract_value("<Timeout> PT5S\n</Timeout>", "Timeout"), Some("PT5S".to_string()));
    assert_eq!(extract_value("<tev:Timeout>PT5S</tev:Timeout>", "Timeout"), Some("PT5S".to_string()));
    assert_eq!(extract_value("<tt:A>1</tt:A><trt:A>2</trt:A>", "A"), Some("2".to_string()));
    assert_eq!(extract_value("<tds:A>3</tds:A>", "A"), Some("3".to_string()));
    assert_eq!(extract_value("<A>open<tt:A>4</tt:A>", "A"), Some("4".to_string()));
    assert_eq!(extract_value("<wsa:A>5</wsa:A>", "A"), None);
    assert_eq!(extract_value("<A a=\"1\">5</A>", "A"), None);
    assert_eq!(extract_value("<A></A>", "A"), Some(String::new()));
    assert_eq!(extract_value("<A>\u{a0}x\u{2003}</A>", "A"), Some("x".to_string()));
}

#[test]
fn camera_calls_of_stateless_operations() {
    let (path, body) = camera_call(&Operation::GetDeviceInformation).unwrap();
    assert_eq!(path, "/onvif/device_service");
    assert_eq!(body, "<tds:GetDeviceInformation xmlns:tds=\"http://www.onvif.org/ver10/device/wsdl\"/>");
    assert_eq!(camera_call(&Operation::GetCapabilities).unwrap().0, "/onvif/device_service");
    assert!(camera_call(&Operation::GetServices).unwrap().1.contains("<tds:IncludeCapability>true"));
    assert_eq!(camera_call(&Operation::GetProfiles).unwrap().0, "/onvif/media_service");
    let (path, body) = camera_call(&Operation::GetStreamUri { profile_token: "T".to_string(), protocol: "P".to_string() }).unwrap();
    assert_eq!(path, "/onvif/media_service");
    assert!(body.contains("<tt:Protocol>P</tt:Protocol>") && body.contains("<trt:ProfileToken>T</trt:ProfileToken>"));
    assert!(camera_call(&Operation::GetSnapshotUri { profile_token: "T".to_string() }).unwrap().1.starts_with("<trt:GetSnapshotUri "));
    assert_eq!(camera_call(&Operation::Media2Relay { body: "b".to_string() }).unwrap(), ("/onvif/Media2".to_string(), "b".to_string()));
    assert_eq!(camera_call(&Operation::GetEventProperties).unwrap().0, "/onvif/event_service");
    assert!(camera_call(&Operation::CreatePullPointSubscription).unwrap().1.contains("PT600S"));
    assert!(camera_call(&Operation::Renew { subscription_ref: "r".to_string() }).is_none());
    assert!(camera_call(&Operation::Unsubscribe { subscription_ref: "r".to_string() }).is_none());
    assert!(camera_call(&Operation::PullMessages { subscription_ref: "r".to_string(), timeout: "PT1S".to_string(), message_limit: 1 }).is_none());
}

#[test]
fn subscription_calls_use_the_stored_path() {
    let mut events = EventsService::new();
    events.register_subscription("cam1", "http://gw", "<wsa5:Address>http://c:8000/onvif/Subscription?Idx=1</wsa5:Address>", "r".to_string(), 0);
    let (path, body) = subscription_call(&events, &Operation::Renew { subscription_ref: "r".to_string() }).unwrap();
    assert_eq!(path, "/onvif/Subscription?Idx=1");
    assert_eq!(body, EventsService::renew_request());
    let (path, body) = subscription_call(&events, &Operation::Unsubscribe { subscription_ref: "other".to_string() }).unwrap();
    assert_eq!(path, "/onvif/event_service");
    assert_eq!(body, EventsService::unsubscribe_request());
    assert!(subscription_call(&events, &Operation::GetProfiles).is_none());
}

#[test]
fn complete_repairs_and_translates() {
    let cam = camera();
    let failure = complete(&Plan { operation: Operation::GetProfiles, translate: true }, &cam, "http://gw", Err("timeout".to_string()));
    assert_eq!((failure.status, failure.soap, failure.body.as_str()), (500, false, "Error: timeout"));
    let caps = "<SOAP-ENV:Envelope><tt:XAddr>http://192.168.1.10:8000/onvif/device_service</tt:XAddr></SOAP-ENV:Envelope>";
    let reply = complete(&Plan { operation: Operation::GetCapabilities, translate: true }, &cam, "http://gw", Ok(caps.to_string()));
    assert_eq!(reply.status, 200);
    assert_eq!(
        reply.body,
        "<SOAP-ENV:Envelope xmlns:tt=\"http://www.onvif.org/ver10/schema\"><tt:XAddr>http://gw/onvif/cam1/device_service</tt:XAddr></SOAP-ENV:Envelope>"
    );
    let untranslated = complete(&Plan { operation: Operation::GetServices, translate: false }, &cam, "http://gw", Ok(caps.to_string()));
    assert_eq!(
        untranslated.body,
        "<SOAP-ENV:Envelope><tt:XAddr>http://gw/onvif/cam1/device_service</tt:XAddr></SOAP-ENV:Envelope>"
    );
    let uri = complete(&Plan { operation: Operation::GetSnapshotUri { profile_token: "0".to_string() }, translate: true }, &cam, "http://gw", Ok("http://localhost:80/snap".to_string()));
    assert_eq!(uri.body, "http://192.168.1.10:80/snap");
    let relay = complete(&Plan { operation: Operation::Media2Relay { body: String::new() }, translate: false }, &cam, "http://gw", Ok("rtsp://127.0.0.1:554/s".to_string()));
    assert_eq!(relay.body, "rtsp://127.0.0.1:554/s");
    let props = complete(&Plan { operation: Operation::GetEventProperties, translate: false }, &cam, "http://gw", Ok("<reo:T/>".to_string()));
    assert_eq!(props.body, "<tns1:T/>");
    let info = complete(&Plan { operation: Operation::GetDeviceInformation, translate: false }, &cam, "http://gw", Ok("<SOAP-ENV:Envelope><tds:M/></SOAP-ENV:Envelope>".to_string()));
    assert_eq!(info.body, "<SOAP-ENV:Envelope xmlns:tds=\"http://www.onvif.org/ver10/device/wsdl\"><tds:M/></SOAP-ENV:Envelope>");
    let mut other = camera();
    other.model = "axis".to_string();
    let reply = complete(&Plan { operation: Operation::CreatePullPointSubscription, translate: true }, &other, "http://gw", Ok("<SOAP-ENV:Envelope><tt:A/></SOAP-ENV:Envelope>".to_string()));
    assert_eq!(reply.body, "<SOAP-ENV:Envelope><tt:A/></SOAP-ENV:Envelope>");
}

#[test]
fn fixed_replies() {
    let reply = subscription_not_found();
    assert_eq!((reply.status, reply.soap, reply.body.as_str()), (404, false, "Subscription not found"));
    let reply = health_check();
    assert_eq!((reply.status, reply.soap, reply.body.as_str()), (200, false, "OK"));
    let reply = soap_response("<x/>".to_string());
    assert_eq!((reply.status, reply.soap, reply.body.as_str()), (200, true, "<x/>"));
}

#[test]
fn settle_brings_the_table_up_to_date_only_on_success() {
    let cam = camera();
    let mut events = EventsService::new();
    let create = Plan { operation: Operation::CreatePullPointSubscription, translate: false };
    let failed = settle_at(&mut events, &create, &cam, "http://gw", Err("down".to_string()), "r1".to_string(), 1_000);
    assert_eq!((failed.reply.status, failed.reply.body.as_str()), (500, "Error: down"));
    assert!(failed.poller.is_none());
    assert_eq!(events.len(), 0);
    let granted = settle_at(
        &mut events,
        &create,
        &cam,
        "http://gw",
        Ok("<wsa5:Address>http://c/onvif/Subscription?Idx=1</wsa5:Address>".to_string()),
        "r1".to_string(),
        1_000,
    );
    assert_eq!(granted.reply.status, 200);
    assert_eq!(granted.reply.body, "<wsa5:Address>http://gw/onvif/cam1/subscription/r1</wsa5:Address>");
    assert_eq!(granted.poller.as_deref(), Some("r1"));
    assert_eq!(events.get_subscription("r1").unwrap().expires_at, 601_000);
    let renew = Plan { operation: Operation::Renew { subscription_ref: "r1".to_string() }, translate: false };
    let r = settle_at(&mut events, &renew, &cam, "http://gw", Err("down".to_string()), "x".to_string(), 5_000);
    assert_eq!(r.reply.status, 500);
    assert_eq!(events.get_subscription("r1").unwrap().expires_at, 601_000);
    let r = settle_at(&mut events, &renew, &cam, "http://gw", Ok("<ok/>".to_string()), "x".to_string(), 5_000);
    assert_eq!((r.reply.status, r.reply.body.as_str()), (200, "<ok/>"));
    assert!(r.poller.is_none());
    assert_eq!(events.get_subscription("r1").unwrap().expires_at, 605_000);
    let end = Plan { operation: Operation::Unsubscribe { subscription_ref: "r1".to_string() }, translate: false };
    settle_at(&mut events, &end, &cam, "http://gw", Err("down".to_string()), "x".to_string(), 6_000);
    assert_eq!(events.len(), 1);
    let r = settle_at(&mut events, &end, &cam, "http://gw", Ok("<bye/>".to_string()), "x".to_string(), 6_000);
    assert_eq!(r.reply.body, "<bye/>");
    assert_eq!(events.len(), 0);
    let other = Plan { operation: Operation::GetProfiles, translate: false };
    let r = settle_at(&mut events, &other, &cam, "http://gw", Ok("<p/>".to_string()), "x".to_string(), 7_000);
    assert_eq!((r.reply.body.as_str(), r.poller, events.len()), ("<p/>", None, 0));
    let drawn = settle(&mut events, &create, &cam, "http://gw", Ok("<Address>a</Address>".to_string()));
    let reference = drawn.poller.unwrap();
    assert_eq!(reference.len(), 36);
    assert!(events.get_subscription(&reference).is_some());
    assert_eq!(drawn.reply.body, format!("<Address>http://gw/onvif/cam1/subscription/{}</Address>", reference));
}

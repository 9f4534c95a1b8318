use onvif_proxy::onvif::events::{
    instant_after, CachedEvent, EventsService, MotionPoller, PollOutcome, PullStep,
};

const RESPONSE: &str = "<SOAP-ENV:Envelope><tev:SubscriptionReference><wsa5:Address>http://192.168.1.10:8000/onvif/Subscription?Idx=3</wsa5:Address></tev:SubscriptionReference></SOAP-ENV:Envelope>";

fn service_with(reference: &str) -> EventsService {
    let mut service = EventsService::new();
    service.register_subscription("cam1", "http://gw:9000", RESPONSE, reference.to_string(), 1_000);
    service
}

fn event(n: usize) -> String {
    format!("<e>{}</e>", n)
}

#[test]
fn parse_iso_duration_forms() {
    assert_eq!(EventsService::parse_iso_duration("PT5S"), Some(5));
    assert_eq!(EventsService::parse_iso_duration("PT1M"), Some(60));
    assert_eq!(EventsService::parse_iso_duration("PT10M"), Some(600));
    assert_eq!(EventsService::parse_iso_duration("PT0S"), Some(0));
    assert_eq!(EventsService::parse_iso_duration("PT-5S"), Some(-5));
    assert_eq!(EventsService::parse_iso_duration("PT+5S"), Some(5));
    assert_eq!(EventsService::parse_iso_duration("PT007S"), Some(7));
    assert_eq!(EventsService::parse_iso_duration("PT9223372036854775807S"), Some(i64::MAX));
    assert_eq!(EventsService::parse_iso_duration("PT-9223372036854775808S"), Some(i64::MIN));
    assert_eq!(EventsService::parse_iso_duration("PT9223372036854775808S"), None);
    assert_eq!(EventsService::parse_iso_duration("PT99999999999999999999999999S"), None);
    assert_eq!(EventsService::parse_iso_duration("PT9223372036854775807M"), None);
    assert_eq!(EventsService::parse_iso_duration("PTS"), None);
    assert_eq!(EventsService::parse_iso_duration("PT"), None);
    assert_eq!(EventsService::parse_iso_duration("P"), None);
    assert_eq!(EventsService::parse_iso_duration(""), None);
    assert_eq!(EventsService::parse_iso_duration("PT5H"), None);
    assert_eq!(EventsService::parse_iso_duration("P5S"), None);
    assert_eq!(EventsService::parse_iso_duration("PT5.5S"), None);
    assert_eq!(EventsService::parse_iso_duration("PT 5S"), None);
    assert_eq!(EventsService::parse_iso_duration("PT-S"), None);
    assert_eq!(EventsService::parse_iso_duration("pt5s"), None);
}

#[test]
fn parse_iso_duration_agrees_with_std_parse() {
    for number in ["0", "1", "-1", "+1", "12x", "--1", "", "+", "-", "00", "١٢", "9223372036854775807", "-9223372036854775809"] {
        let text = format!("PT{}S", number);
        assert_eq!(EventsService::parse_iso_duration(&text), number.parse::<i64>().ok(), "{}", text);
    }
}

#[test]
fn extract_subscription_url_tries_each_prefix() {
    assert_eq!(EventsService::extract_subscription_url(RESPONSE), "http://192.168.1.10:8000/onvif/Subscription?Idx=3");
    assert_eq!(EventsService::extract_subscription_url("<wsa:Address>a</wsa:Address>"), "a");
    assert_eq!(EventsService::extract_subscription_url("<Address>b</Address><wsa:Address>a</wsa:Address>"), "a");
    assert_eq!(EventsService::extract_subscription_url("<Address>b</Address>"), "b");
    assert_eq!(EventsService::extract_subscription_url("<wsa5:Address>open<Address>b</Address>"), "b");
    assert_eq!(EventsService::extract_subscription_url("<Address></Address>"), "");
    assert_eq!(EventsService::extract_subscription_url("nothing"), "/onvif/event_service");
}

#[test]
fn rewrite_subscription_ref_replaces_the_address() {
    assert_eq!(
        EventsService::rewrite_subscription_ref(RESPONSE, "http://gw/onvif/cam1/subscription/r"),
        "<SOAP-ENV:Envelope><tev:SubscriptionReference><wsa5:Address>http://gw/onvif/cam1/subscription/r</wsa5:Address></tev:SubscriptionReference></SOAP-ENV:Envelope>"
    );
    assert_eq!(EventsService::rewrite_subscription_ref("<x/>", "p"), "<x/>");
    assert_eq!(
        EventsService::rewrite_subscription_ref("<Address>a</Address><Address>b</Address>", "p"),
        "<Address>p</Address><Address>b</Address>"
    );
}

#[test]
fn subscription_path_from_onvif_on() {
    assert_eq!(EventsService::subscription_path_of("http://192.168.1.10:8000/onvif/Subscription?Idx=3"), "/onvif/Subscription?Idx=3");
    assert_eq!(EventsService::subscription_path_of("http://192.168.1.10/other"), "/onvif/event_service");
    assert_eq!(EventsService::subscription_path_of(""), "/onvif/event_service");
}

#[test]
fn topics_and_event_data() {
    assert_eq!(
        EventsService::map_reolink_topics("<reo:T xmlns:reo=\"u\">tns1:RuleEngine/MyRuleDetector/DogCatDetect</reo:T>"),
        "<tns1:T xmlns:tns1=\"u\">tns1:RuleEngine/CellMotionDetector/Motion</tns1:T>"
    );
    assert_eq!(
        EventsService::normalize_event_properties("<SOAP-ENV:Envelope><a>RuleEngine/MyRuleDetector/PeopleDetect</a></SOAP-ENV:Envelope>"),
        "<SOAP-ENV:Envelope xmlns:tns1=\"http://www.onvif.org/ver10/topics\"><a>RuleEngine/CellMotionDetector/Motion</a></SOAP-ENV:Envelope>"
    );
    assert_eq!(
        EventsService::normalize_event_properties("<SOAP-ENV:Envelope xmlns:tns1=\"x\"/>"),
        "<SOAP-ENV:Envelope xmlns:tns1=\"x\"/>"
    );
    assert_eq!(
        EventsService::normalize_event_data("<tev:Data>Motion</tev:Data>"),
        "<tev:Data>Motion<tt:SimpleItem Name=\"IsMotion\" Value=\"true\"/></tev:Data>"
    );
    assert_eq!(EventsService::normalize_event_data("<tev:Data>IsMotion</tev:Data>"), "<tev:Data>IsMotion</tev:Data>");
    assert_eq!(EventsService::normalize_event_data("<tev:Data>still</tev:Data>"), "<tev:Data>still</tev:Data>");
    assert_eq!(
        EventsService::translate_event_messages("<SOAP-ENV:Envelope><tev:Data>tns1:RuleEngine/MyRuleDetector/VehicleDetect</tev:Data></SOAP-ENV:Envelope>"),
        "<SOAP-ENV:Envelope xmlns:tns1=\"http://www.onvif.org/ver10/topics\"><tev:Data>tns1:RuleEngine/CellMotionDetector/Motion<tt:SimpleItem Name=\"IsMotion\" Value=\"true\"/></tev:Data></SOAP-ENV:Envelope>"
    );
    assert_eq!(
        EventsService::translate_event_messages("<SOAP-ENV:Envelope><tt:A/></SOAP-ENV:Envelope>"),
        "<SOAP-ENV:Envelope xmlns:tt=\"http://www.onvif.org/ver10/schema\"><tt:A/></SOAP-ENV:Envelope>"
    );
}

#[test]
fn extract_events_from_response_blocks() {
    let xml = "x<wsnt:NotificationMessage>1</wsnt:NotificationMessage>y<wsnt:NotificationMessage>2</wsnt:NotificationMessage><wsnt:NotificationMessage>open";
    assert_eq!(
        EventsService::extract_events_from_response(xml),
        Some(vec![
            "<wsnt:NotificationMessage>1</wsnt:NotificationMessage>".to_string(),
            "<wsnt:NotificationMessage>2</wsnt:NotificationMessage>".to_string()
        ])
    );
    assert_eq!(EventsService::extract_events_from_response("none"), None);
    assert_eq!(EventsService::extract_events_from_response("<wsnt:NotificationMessage>open"), None);
}

#[test]
fn motion_event_exact_text() {
    assert_eq!(
        EventsService::motion_event_xml("cam1", true, "2024-01-01T00:00:00.000Z"),
        "<wsnt:NotificationMessage>
  <wsnt:Topic Dialect=\"http://www.onvif.org/ver10/tev/topicExpression/ConcreteSet\">tns1:RuleEngine/CellMotionDetector/Motion</wsnt:Topic>
  <wsnt:Message>
    <tt:Message UtcTime=\"2024-01-01T00:00:00.000Z\">
      <tt:Source>
        <tt:SimpleItem Name=\"VideoSourceConfigurationToken\" Value=\"cam1\"/>
        <tt:SimpleItem Name=\"VideoAnalyticsConfigurationToken\" Value=\"cam1\"/>
        <tt:SimpleItem Name=\"Rule\" Value=\"MotionDetectorRule\"/>
      </tt:Source>
      <tt:Data>
        <tt:SimpleItem Name=\"IsMotion\" Value=\"true\"/>
      </tt:Data>
    </tt:Message>
  </wsnt:Message>
</wsnt:NotificationMessage>"
    );
    assert!(EventsService::motion_event_xml("c", false, "t").contains("Name=\"IsMotion\" Value=\"false\""));
    let now = EventsService::generate_motion_event("cam9", true);
    assert!(now.contains("Value=\"cam9\""));
    let stamp = &now[now.find("UtcTime=\"").unwrap() + 9..];
    let stamp = &stamp[..stamp.find('"').unwrap()];
    assert_eq!(stamp.len(), 24);
    assert!(stamp.ends_with('Z'));
}

#[test]
fn pull_response_exact_text() {
    let events = vec![
        CachedEvent { event_xml: "<a/>".to_string(), received_at: 1 },
        CachedEvent { event_xml: "<b/>".to_string(), received_at: 2 },
    ];
    assert_eq!(
        EventsService::build_pull_messages_response(&events, "NOW", "THEN"),
        "<?xml version=\"1.0\" encoding=\"UTF-8\"?>
<SOAP-ENV:Envelope xmlns:SOAP-ENV=\"http://www.w3.org/2003/05/soap-envelope\" xmlns:tev=\"http://www.onvif.org/ver10/events/wsdl\" xmlns:wsnt=\"http://docs.oasis-open.org/wsn/b-2\" xmlns:tt=\"http://www.onvif.org/ver10/schema\" xmlns:tns1=\"http://www.onvif.org/ver10/topics\">
<SOAP-ENV:Body>
<tev:PullMessagesResponse>
  <tev:CurrentTime>NOW</tev:CurrentTime>
  <tev:TerminationTime>THEN</tev:TerminationTime>
  <a/>
<b/>

</tev:PullMessagesResponse>
</SOAP-ENV:Body>
</SOAP-ENV:Envelope>"
    );
    let empty = EventsService::build_pull_messages_response(&vec![], "NOW", "THEN");
    assert!(empty.contains("</tev:TerminationTime>\n  \n</tev:PullMessagesResponse>"));
}

#[test]
fn pull_response_at_formats_both_times() {
    let xml = EventsService::pull_response_at(&vec![], 1_704_067_200_000).unwrap();
    assert!(xml.contains("<tev:CurrentTime>2024-01-01T00:00:00Z</tev:CurrentTime>"));
    assert!(xml.contains("<tev:TerminationTime>2024-01-01T00:10:00Z</tev:TerminationTime>"));
    let xml = EventsService::pull_response_at(&vec![], 1_704_067_200_999).unwrap();
    assert!(xml.contains("<tev:CurrentTime>2024-01-01T00:00:00Z</tev:CurrentTime>"));
    assert!(EventsService::pull_response_at(&vec![], i64::MAX).is_none());
    assert!(EventsService::pull_response_at(&vec![], i64::MIN).is_none());
    assert!(EventsService::pull_response_now(&vec![]).is_some());
}

#[test]
fn requests_and_motion_state() {
    assert_eq!(
        EventsService::event_properties_request(),
        "<tev:GetEventProperties xmlns:tev=\"http://www.onvif.org/ver10/events/wsdl\"/>"
    );
    assert_eq!(
        EventsService::create_pull_point_request(),
        "<tev:CreatePullPointSubscription xmlns:tev=\"http://www.onvif.org/ver10/events/wsdl\">
  <tev:InitialTerminationTime>PT600S</tev:InitialTerminationTime>
</tev:CreatePullPointSubscription>"
    );
    assert_eq!(
        EventsService::renew_request(),
        "<tev:Renew xmlns:tev=\"http://www.onvif.org/ver10/events/wsdl\">
  <tev:TerminationTime>PT600S</tev:TerminationTime>
</tev:Renew>"
    );
    assert_eq!(
        EventsService::unsubscribe_request(),
        "<tev:Unsubscribe xmlns:tev=\"http://www.onvif.org/ver10/events/wsdl\"/>"
    );
    assert_eq!(
        EventsService::pull_messages_request("PT5S", "10"),
        "<tev:PullMessages xmlns:tev=\"http://www.onvif.org/ver10/events/wsdl\">
  <tev:Timeout>PT5S</tev:Timeout>
  <tev:MessageLimit>10</tev:MessageLimit>
</tev:PullMessages>"
    );
    assert_eq!(
        EventsService::motion_state_query("192.168.1.10", "admin", "pw"),
        "https://192.168.1.10/cgi-bin/api.cgi?cmd=GetMdState&channel=0&user=admin&password=pw"
    );
    assert!(EventsService::parse_motion_state(r#"[{"cmd":"GetMdState","code":0,"value":{"state":1}}]"#));
    assert!(EventsService::parse_motion_state(r#"{"state": 1}"#));
    assert!(!EventsService::parse_motion_state(r#"[{"cmd":"GetMdState","code":0,"value":{"state":0}}]"#));
    assert!(!EventsService::parse_motion_state(""));
}

#[test]
fn instant_after_saturates() {
    assert_eq!(instant_after(5, 600_000), 600_005);
    assert_eq!(instant_after(i64::MAX, 1), i64::MAX);
    assert_eq!(instant_after(i64::MIN, -1), i64::MIN);
    assert_eq!(instant_after(-5, 5), 0);
}

#[test]
fn register_records_the_subscription() {
    let mut service = EventsService::new();
    assert_eq!(service.len(), 0);
    let fixed = service.register_subscription("cam1", "http://gw:9000", RESPONSE, "ref-1".to_string(), 1_000);
    assert_eq!(
        fixed,
        "<SOAP-ENV:Envelope><tev:SubscriptionReference><wsa5:Address>http://gw:9000/onvif/cam1/subscription/ref-1</wsa5:Address></tev:SubscriptionReference></SOAP-ENV:Envelope>"
    );
    let s = service.get_subscription("ref-1").unwrap();
    assert_eq!(s._subscription_ref, "ref-1");
    assert_eq!(s.camera_id, "cam1");
    assert_eq!(s.camera_subscription_url, "http://192.168.1.10:8000/onvif/Subscription?Idx=3");
    assert_eq!(s._created_at, 1_000);
    assert_eq!(s.expires_at, 601_000);
    assert_eq!(s.last_poll, 1_000);
    assert!(s.event_cache.is_empty());
    assert!(service.get_subscription("ref-2").is_none());
    service.register_subscription("cam2", "http://gw", "none", "ref-1".to_string(), 5);
    assert_eq!(service.len(), 1);
    assert_eq!(service.get_subscription("ref-1").unwrap().camera_id, "cam2");
    assert_eq!(service.get_subscription("ref-1").unwrap().camera_subscription_url, "/onvif/event_service");
}

#[test]
fn create_draws_distinct_references() {
    let mut service = EventsService::default();
    let (first, fixed) = service.create_pull_point_subscription("cam1", "http://gw", RESPONSE);
    let (second, _) = service.create_pull_point_subscription("cam1", "http://gw", RESPONSE);
    assert_ne!(first, second);
    assert_eq!(first.len(), 36);
    assert_eq!(service.len(), 2);
    assert!(fixed.contains(&format!("<wsa5:Address>http://gw/onvif/cam1/subscription/{}</wsa5:Address>", first)));
    let made = service.get_subscription(&second).unwrap();
    assert!(made._created_at > 1_600_000_000_000);
    assert_eq!(made.expires_at, made._created_at + 600_000);
    assert_eq!(made.last_poll, made._created_at);
}

#[test]
fn renew_and_unsubscribe() {
    let mut service = service_with("r");
    assert!(service.renew_subscription_at("r", 50_000));
    assert_eq!(service.get_subscription("r").unwrap().expires_at, 650_000);
    assert!(!service.renew_subscription_at("other", 70_000));
    assert_eq!(service.get_subscription("r").unwrap().expires_at, 650_000);
    assert!(service.renew_subscription("r"));
    assert!(service.get_subscription("r").unwrap().expires_at > 1_600_000_000_000);
    assert!(!service.renew_subscription("other"));
    assert!(!service.unsubscribe("other"));
    assert_eq!(service.len(), 1);
    assert!(service.unsubscribe("r"));
    assert_eq!(service.len(), 0);
    assert!(!service.unsubscribe("r"));
}

#[test]
fn steady_motion_gives_one_event() {
    let mut service = service_with("r");
    let mut poller = MotionPoller::new();
    assert_eq!(service.record_poll("r", &mut poller, Some(true), "t1", 2_000), PollOutcome::Cached);
    assert_eq!(service.record_poll("r", &mut poller, Some(true), "t2", 2_500), PollOutcome::Quiet);
    let s = service.get_subscription("r").unwrap();
    assert_eq!(s.event_cache.len(), 1);
    assert_eq!(s.event_cache[0].event_xml, EventsService::motion_event_xml("cam1", true, "t1"));
    assert_eq!(s.event_cache[0].received_at, 2_000);
    assert_eq!(s.last_poll, 2_500);
    assert_eq!(poller.last_motion_state, Some(true));
    assert_eq!(service.record_poll("r", &mut poller, None, "t3", 3_000), PollOutcome::Quiet);
    assert_eq!(poller.last_motion_state, Some(true));
    assert_eq!(service.get_subscription("r").unwrap().last_poll, 3_000);
    assert_eq!(service.record_poll("r", &mut poller, Some(false), "t4", 3_500), PollOutcome::Cached);
    assert_eq!(service.get_subscription("r").unwrap().event_cache.len(), 2);
    assert_eq!(service.record_poll("gone", &mut poller, Some(true), "t5", 4_000), PollOutcome::Gone);
    assert_eq!(poller.last_motion_state, Some(false));
    assert_eq!(service.record_poll_now("r", &mut poller, Some(false)), PollOutcome::Quiet);
    assert_eq!(service.record_poll_now("r", &mut poller, Some(true)), PollOutcome::Cached);
    assert_eq!(service.record_poll_now("gone", &mut poller, Some(true)), PollOutcome::Gone);
}

#[test]
fn poller_observes_edges() {
    let mut poller = MotionPoller::new();
    assert!(!poller.observe(false));
    assert!(!poller.observe(false));
    assert!(poller.observe(true));
    assert!(!poller.observe(true));
    assert!(poller.observe(false));
    let mut fresh = MotionPoller::new();
    assert!(fresh.observe(true));
    assert!(!fresh.observe(true));
}

#[test]
fn camera_at_rest_gives_no_event() {
    let mut service = service_with("r");
    let mut poller = MotionPoller::new();
    let mut state = service.begin_pull_at("r", "PT1S", 10, 1_000).unwrap();
    assert_eq!(service.record_poll("r", &mut poller, Some(false), "t1", 1_500), PollOutcome::Quiet);
    assert_eq!(service.pull_step_at("r", &mut state, 1_500), PullStep::Wait);
    assert_eq!(service.record_poll("r", &mut poller, Some(false), "t2", 2_000), PollOutcome::Quiet);
    assert_eq!(service.pull_step_at("r", &mut state, 2_000), PullStep::Respond);
    assert!(state.events.is_empty());
    assert!(service.get_subscription("r").unwrap().event_cache.is_empty());
    let xml = EventsService::pull_response_at(&state.events, 2_000).unwrap();
    assert!(!xml.contains("<wsnt:NotificationMessage"));
    assert!(xml.contains("<tev:CurrentTime>1970-01-01T00:00:02Z</tev:CurrentTime>"));
}

#[test]
fn cache_keeps_the_newest_hundred() {
    let mut service = service_with("r");
    let mut poller = MotionPoller::new();
    for n in 0..101usize {
        let outcome = service.record_poll("r", &mut poller, Some(n % 2 == 0), &event(n), n as i64);
        assert_eq!(outcome, PollOutcome::Cached);
        let expected = if n < 100 { n + 1 } else { 100 };
        assert_eq!(service.get_subscription("r").unwrap().event_cache.len(), expected);
    }
    let cache = &service.get_subscription("r").unwrap().event_cache;
    assert_eq!(cache.len(), 100);
    assert_eq!(cache[0].received_at, 1);
    assert_eq!(cache[0].event_xml, EventsService::motion_event_xml("cam1", false, &event(1)));
    assert_eq!(cache[99].received_at, 100);
}

#[test]
fn idle_pull_waits_until_its_deadline() {
    let mut service = service_with("r");
    assert!(service.begin_pull_at("unknown", "PT1S", 10, 5_000).is_none());
    let mut state = service.begin_pull_at("r", "PT1S", 10, 5_000).unwrap();
    assert_eq!(state.limit, 10);
    assert_eq!(state.timeout_secs, 1);
    assert_eq!(state.started_at, 5_000);
    assert_eq!(state.deadline, 6_000);
    assert_eq!(service.pull_step_at("r", &mut state, 5_000), PullStep::Wait);
    assert_eq!(service.pull_step_at("r", &mut state, 5_100), PullStep::Wait);
    assert_eq!(service.pull_step_at("r", &mut state, 5_999), PullStep::Wait);
    assert_eq!(service.pull_step_at("r", &mut state, 6_000), PullStep::Respond);
    assert!(state.events.is_empty());
}

#[test]
fn pull_takes_events_in_order_up_to_the_limit() {
    let mut service = service_with("r");
    let mut poller = MotionPoller::new();
    for n in 0..5usize {
        service.record_poll("r", &mut poller, Some(n % 2 == 0), &event(n), n as i64);
    }
    let mut state = service.begin_pull_at("r", "PT1M", 3, 10_000).unwrap();
    assert_eq!(state.timeout_secs, 60);
    assert_eq!(state.deadline, 70_000);
    assert_eq!(service.pull_step_at("r", &mut state, 10_000), PullStep::Respond);
    let got: Vec<i64> = state.events.iter().map(|e| e.received_at).collect();
    assert_eq!(got, vec![0, 1, 2]);
    let left: Vec<i64> = service.get_subscription("r").unwrap().event_cache.iter().map(|e| e.received_at).collect();
    assert_eq!(left, vec![3, 4]);
    assert_eq!(service.pull_step_at("r", &mut state, 10_001), PullStep::Respond);
    assert_eq!(state.events.len(), 3);
    let mut rest = service.begin_pull_at("r", "bogus", -1, 10_000).unwrap();
    assert_eq!(rest.timeout_secs, 1);
    assert_eq!(rest.limit, usize::MAX);
    assert_eq!(service.pull_step_at("r", &mut rest, 10_500), PullStep::Respond);
    assert_eq!(rest.events.len(), 2);
    let mut none = service.begin_pull_at("r", "PT5S", 0, 10_000).unwrap();
    assert_eq!(service.pull_step_at("r", &mut none, 10_000), PullStep::Respond);
    let mut zero = service.begin_pull_at("r", "PT0S", 5, 10_000).unwrap();
    assert_eq!(service.pull_step_at("r", &mut zero, 10_000), PullStep::Respond);
}

#[test]
fn pull_of_a_removed_subscription_answers_at_timeout() {
    let mut service = service_with("r");
    let mut state = service.begin_pull_at("r", "PT2S", 5, 0).unwrap();
    service.unsubscribe("r");
    assert_eq!(service.pull_step_at("r", &mut state, 100), PullStep::Wait);
    assert_eq!(service.pull_step_at("r", &mut state, 2_000), PullStep::Respond);
    assert!(state.events.is_empty());
}

#[test]
fn pull_against_the_clock() {
    let mut service = service_with("r");
    assert!(service.begin_pull("unknown", "PT1S", 10).is_none());
    let mut state = service.begin_pull("r", "PT1S", 10).unwrap();
    assert_eq!(state.deadline, state.started_at + 1_000);
    assert!(state.started_at > 1_600_000_000_000);
    assert_eq!(service.pull_step("r", &mut state), PullStep::Wait);
    let mut poller = MotionPoller::new();
    service.record_poll_now("r", &mut poller, Some(true));
    assert_eq!(service.pull_step("r", &mut state), PullStep::Respond);
    assert_eq!(state.events.len(), 1);
    let mut done = service.begin_pull("r", "PT0S", 10).unwrap();
    assert_eq!(service.pull_step("r", &mut done), PullStep::Respond);
    assert!(done.events.is_empty());
}

#[test]
fn remove_expired_keeps_the_living_in_order() {
    let mut service = EventsService::new();
    service.register_subscription("cam1", "http://gw", RESPONSE, "a".to_string(), 0);
    service.register_subscription("cam1", "http://gw", RESPONSE, "b".to_string(), 1_000);
    service.register_subscription("cam1", "http://gw", RESPONSE, "c".to_string(), 0);
    service.register_subscription("cam1", "http://gw", RESPONSE, "d".to_string(), 2_000);
    assert!(service.remove_expired(600_000).is_empty());
    assert_eq!(service.len(), 4);
    assert_eq!(service.remove_expired(600_001), vec!["a".to_string(), "c".to_string()]);
    assert_eq!(service.len(), 2);
    assert!(service.get_subscription("a").is_none());
    assert_eq!(service.get_subscription("b").unwrap().expires_at, 601_000);
    let mut poller = MotionPoller::new();
    assert_eq!(service.record_poll("a", &mut poller, Some(true), "t", 700_000), PollOutcome::Gone);
    assert_eq!(service.remove_expired(i64::MAX), vec!["b".to_string(), "d".to_string()]);
    assert_eq!(service.len(), 0);
}

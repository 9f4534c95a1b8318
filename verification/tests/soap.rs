use onvif_proxy::onvif::soap::{SoapBody, SoapEnvelope, SoapError, SoapHeader};
use onvif_proxy::onvif::xml::{read_events, XmlEvent};

#[test]
fn test_parse_simple_soap() {
    let xml = r#"<?xml version="1.0" encoding="UTF-8"?>
<SOAP-ENV:Envelope xmlns:SOAP-ENV="http://www.w3.org/2003/05/soap-envelope">
  <SOAP-ENV:Body>
    <GetDeviceInformation xmlns="http://www.onvif.org/ver10/device/wsdl"/>
  </SOAP-ENV:Body>
</SOAP-ENV:Envelope>"#;

    let envelope = SoapEnvelope::parse(xml).unwrap();
    assert_eq!(envelope.body.action, "GetDeviceInformation");
}

#[test]
fn parse_takes_action_from_first_child_in_each_form() {
    for body in ["<Foo></Foo>", "<ns:Foo></ns:Foo>", "<ns:Foo/>", "<Foo/>", "<ns:Foo a=\"1\">t</ns:Foo><ns:Bar/>"] {
        let xml = format!("<s:Envelope xmlns:s=\"urn:s\"><s:Body>{}</s:Body></s:Envelope>", body);
        let envelope = SoapEnvelope::parse(&xml).unwrap();
        assert_eq!(envelope.body.action, "Foo", "{}", body);
        assert_eq!(envelope.extract_action(), "Foo");
    }
}

#[test]
fn parse_captures_body_header_and_namespaces() {
    let xml = "<s:Envelope xmlns:s=\"urn:s\" other=\"x\" xmlns:tt=\"urn:tt\">\
<s:Header><wsse:Security a=\"1\">tok</wsse:Security></s:Header>\
<s:Body><trt:GetStreamUri xmlns:trt=\"urn:trt\"><trt:ProfileToken> 000 </trt:ProfileToken><!-- c --><tt:P>&lt;x</tt:P></trt:GetStreamUri><Later>no</Later></s:Body></s:Envelope>";
    let envelope = SoapEnvelope::parse(xml).unwrap();
    assert_eq!(
        envelope.namespaces,
        vec![
            ("xmlns:s".to_string(), "urn:s".to_string()),
            ("xmlns:tt".to_string(), "urn:tt".to_string())
        ]
    );
    let header = envelope.header.unwrap();
    assert!(header.security.is_none());
    assert_eq!(header.raw_xml, "<wsse:Security a=\"1\">tok</wsse:Security>");
    assert_eq!(envelope.body.action, "GetStreamUri");
    assert_eq!(envelope.body.content, "000<x");
    assert_eq!(
        envelope.body.raw_xml,
        "<trt:GetStreamUri xmlns:trt=\"urn:trt\"><trt:ProfileToken>000</trt:ProfileToken><tt:P>&lt;x</tt:P></trt:GetStreamUri><Later>no</Later>"
    );
}

#[test]
fn parse_tolerates_missing_header_and_empty_body() {
    let envelope = SoapEnvelope::parse("<Envelope><Body/></Envelope>").unwrap();
    assert!(envelope.header.is_none());
    assert_eq!(envelope.body.action, "");
    assert_eq!(envelope.body.content, "");
    assert_eq!(envelope.body.raw_xml, "");
}

#[test]
fn parse_without_body_is_an_error() {
    let r = SoapEnvelope::parse("<s:Envelope xmlns:s=\"urn:s\"><s:Header/></s:Envelope>");
    assert!(matches!(r, Err(SoapError::MissingBody)));
    assert_eq!(r.unwrap_err().message(), "SOAP Body not found");
    assert!(matches!(SoapEnvelope::parse(""), Err(SoapError::MissingBody)));
    assert!(matches!(SoapEnvelope::parse("not xml at all"), Err(SoapError::MissingBody)));
}

#[test]
fn parse_rejects_malformed_documents() {
    let r = SoapEnvelope::parse("<s:Envelope><s:Body><a></b></s:Body></s:Envelope>");
    assert!(matches!(r, Err(SoapError::Body { .. })));
    assert!(r.unwrap_err().message().starts_with("Body parsing error: "));
    let r = SoapEnvelope::parse("<s:Envelope><s:Header><a></b></s:Header><s:Body/></s:Envelope>");
    assert!(matches!(r, Err(SoapError::Header { .. })));
    assert!(r.unwrap_err().message().starts_with("Header parsing error: "));
    let r = SoapEnvelope::parse("<s:Envelope></s:Other><s:Body/></s:Envelope>");
    assert!(matches!(r, Err(SoapError::Xml { .. })));
    assert!(r.unwrap_err().message().starts_with("XML parsing error: "));
    let r = SoapEnvelope::parse("<s:Envelope><s:Body><a>");
    assert!(matches!(r, Err(SoapError::UnclosedBody)));
    assert_eq!(r.unwrap_err().message(), "SOAP Body is not closed");
    let r = SoapEnvelope::parse("<s:Envelope><s:Header><a>");
    assert!(matches!(r, Err(SoapError::UnclosedHeader)));
    assert_eq!(r.unwrap_err().message(), "SOAP Header is not closed");
}

#[test]
fn read_events_expands_empty_elements_and_trims_text() {
    let events = read_events("<?xml version=\"1.0\"?><a x='1' y=\"2\">  hi &amp; bye <b/></a>");
    assert_eq!(events.len(), 7);
    assert!(matches!(events[0], XmlEvent::Other));
    match &events[1] {
        XmlEvent::Start { name, attributes } => {
            assert_eq!(name, "a");
            assert_eq!(
                attributes,
                &vec![("x".to_string(), "1".to_string()), ("y".to_string(), "2".to_string())]
            );
        }
        other => panic!("unexpected {:?}", other),
    }
    assert!(matches!(&events[2], XmlEvent::Text { raw, text } if text == "hi & bye" && raw == "hi &amp; bye"));
    assert!(matches!(&events[3], XmlEvent::Start { name, .. } if name == "b"));
    assert!(matches!(&events[4], XmlEvent::End { name } if name == "b"));
    assert!(matches!(&events[5], XmlEvent::End { name } if name == "a"));
    assert!(matches!(events[6], XmlEvent::Eof));
    let events = read_events("<a></b>");
    assert!(matches!(events.last(), Some(XmlEvent::Fault { .. })));
}

#[test]
fn from_events_reads_a_hand_made_stream() {
    let events = vec![
        XmlEvent::Start { name: "e:Envelope".to_string(), attributes: vec![("xmlns:e".to_string(), "u".to_string()), ("id".to_string(), "1".to_string())] },
        XmlEvent::Start { name: "e:Body".to_string(), attributes: vec![] },
        XmlEvent::Text { raw: "lead".to_string(), text: "lead".to_string() },
        XmlEvent::Start { name: "p:Act".to_string(), attributes: vec![("k".to_string(), "v".to_string())] },
        XmlEvent::Text { raw: "&#105;n".to_string(), text: "in".to_string() },
        XmlEvent::End { name: "p:Act".to_string() },
        XmlEvent::Text { raw: "out".to_string(), text: "out".to_string() },
        XmlEvent::End { name: "e:Body".to_string() },
        XmlEvent::End { name: "e:Envelope".to_string() },
        XmlEvent::Eof,
    ];
    let envelope = SoapEnvelope::from_events(&events).unwrap();
    assert_eq!(envelope.namespaces, vec![("xmlns:e".to_string(), "u".to_string())]);
    assert_eq!(envelope.body.action, "Act");
    assert_eq!(envelope.body.content, "in");
    assert_eq!(envelope.body.raw_xml, "lead<p:Act k=\"v\">&#105;n</p:Act>out");
    assert!(matches!(SoapEnvelope::from_events(&[].to_vec()), Err(SoapError::MissingBody)));
}

#[test]
fn create_response_wraps_the_action() {
    let envelope = SoapEnvelope::create_response("GetProfiles".to_string(), "<x/>".to_string());
    assert!(envelope.header.is_none());
    assert_eq!(envelope.body.action, "GetProfilesResponse");
    assert_eq!(envelope.body.content, "<x/>");
    assert_eq!(envelope.body.raw_xml, "<GetProfilesResponse><x/></GetProfilesResponse>");
    assert_eq!(envelope.namespaces.len(), 6);
    assert_eq!(envelope.namespaces[0], ("xmlns:SOAP-ENV".to_string(), "http://www.w3.org/2003/05/soap-envelope".to_string()));
    assert_eq!(envelope.namespaces[5], ("xmlns:tns1".to_string(), "http://www.onvif.org/ver10/topics".to_string()));
}

#[test]
fn to_xml_writes_parts_in_order() {
    let envelope = SoapEnvelope {
        header: Some(SoapHeader { security: None, raw_xml: "<h/>".to_string() }),
        body: SoapBody { action: "A".to_string(), content: String::new(), raw_xml: "<A/>".to_string() },
        namespaces: vec![("xmlns:a".to_string(), "urn:a".to_string()), ("xmlns:b".to_string(), "urn:b".to_string())],
    };
    assert_eq!(
        envelope.to_xml().unwrap(),
        "<?xml version=\"1.0\" encoding=\"UTF-8\"?><SOAP-ENV:Envelope xmlns:a=\"urn:a\" xmlns:b=\"urn:b\"><SOAP-ENV:Header><h/></SOAP-ENV:Header><SOAP-ENV:Body><A/></SOAP-ENV:Body></SOAP-ENV:Envelope>"
    );
    let plain = SoapEnvelope::create_response("X".to_string(), String::new());
    let xml = plain.to_xml().unwrap();
    assert!(xml.starts_with("<?xml version=\"1.0\" encoding=\"UTF-8\"?><SOAP-ENV:Envelope xmlns:SOAP-ENV="));
    assert!(xml.ends_with("><SOAP-ENV:Body><XResponse></XResponse></SOAP-ENV:Body></SOAP-ENV:Envelope>"));
    assert!(!xml.contains("Header"));
}

#[test]
fn written_envelope_parses_back() {
    let original = SoapEnvelope::create_response("GetServices".to_string(), "text".to_string());
    let parsed = SoapEnvelope::parse(&original.to_xml().unwrap()).unwrap();
    assert_eq!(parsed.namespaces, original.namespaces);
    assert_eq!(parsed.body.action, "GetServicesResponse");
    assert_eq!(parsed.body.content, "text");
    assert_eq!(parsed.body.raw_xml, original.body.raw_xml);
}

#[test]
fn parse_header_and_body_walk_one_element() {
    let events = read_events("<r><h a=\"1\"><x>t</x></h><b><n:Act>in<deep>er</deep></n:Act>tail<Next>no</Next></b></r>");
    let (header, next) = SoapEnvelope::parse_header(&events, 2).unwrap();
    assert_eq!(header.raw_xml, "<x>t</x>");
    assert!(header.security.is_none());
    assert_eq!(next, 6);
    let (body, next) = SoapEnvelope::parse_body(&events, 7).unwrap();
    assert_eq!(body.action, "Act");
    assert_eq!(body.content, "iner");
    assert_eq!(body.raw_xml, "<n:Act>in<deep>er</deep></n:Act>tail<Next>no</Next>");
    assert_eq!(next, 18);
    let (rest, next) = SoapEnvelope::parse_header(&events, 18).unwrap();
    assert_eq!((rest.raw_xml.as_str(), next), ("", 19));
    assert!(matches!(SoapEnvelope::parse_header(&events, 19), Err(SoapError::UnclosedHeader)));
    assert!(matches!(SoapEnvelope::parse_body(&events, events.len()), Err(SoapError::UnclosedBody)));
    assert!(matches!(SoapEnvelope::parse_header(&events, events.len() + 5), Err(SoapError::UnclosedHeader)));
    let broken = read_events("<b><a></c></b>");
    assert!(matches!(SoapEnvelope::parse_body(&broken, 1), Err(SoapError::Body { .. })));
    assert!(matches!(SoapEnvelope::parse_header(&broken, 1), Err(SoapError::Header { .. })));
}

#[test]
fn parse_rejects_a_document_that_ends_inside_an_element() {
    let r = SoapEnvelope::parse("<Envelope><Body><Foo/></Body>");
    assert!(matches!(r, Err(SoapError::UnclosedElement)));
    assert_eq!(r.unwrap_err().message(), "XML document ends inside an element");
    assert!(matches!(SoapEnvelope::parse("<s:Envelope><s:Header/><s:Body/>"), Err(SoapError::UnclosedElement)));
    assert!(matches!(SoapEnvelope::parse("<a><b></b>"), Err(SoapError::UnclosedElement)));
    assert!(SoapEnvelope::parse("<Envelope><x><y/></x><Body><Foo/></Body></Envelope>").is_ok());
    let events = vec![
        XmlEvent::Start { name: "Envelope".to_string(), attributes: vec![] },
        XmlEvent::Start { name: "Body".to_string(), attributes: vec![] },
        XmlEvent::End { name: "Body".to_string() },
        XmlEvent::Eof,
    ];
    assert!(matches!(SoapEnvelope::from_events(&events), Err(SoapError::UnclosedElement)));
    assert!(matches!(SoapEnvelope::from_events(&events[..3].to_vec()), Err(SoapError::UnclosedElement)));
}

use onvif_proxy::camera::client::CameraClient;
use onvif_proxy::config::CameraConfig;
use onvif_proxy::onvif::auth::WsSecurityAuth;

#[test]
fn test_generate_header() {
    let auth = WsSecurityAuth::new("admin".to_string(), "password".to_string());
    let header = auth.generate_header();

    assert!(header.contains("<wsse:Username>admin</wsse:Username>"));
    assert!(header.contains("<wsse:Password"));
    assert!(header.contains("<wsse:Nonce"));
    assert!(header.contains("<wsu:Created"));
}

#[test]
fn password_digest_golden_vector() {
    let nonce: Vec<u8> = (0u8..16).collect();
    let digest = WsSecurityAuth::password_digest(&nonce, "2024-01-01T00:00:00.000Z", "password");
    assert_eq!(digest, "Ijuhn0ouGyLP3vvDqtgaiHz2/YY=");
    assert_eq!(WsSecurityAuth::password_digest(&[], "", ""), "2jmj7l5rSw0yVb/vlWAYkK/YBwk=");
    assert_eq!(WsSecurityAuth::password_digest(b"a", "b", "c"), "qZk+NkcGgWq6PiVxeFDCbJzQ2J0=");
    assert_eq!(WsSecurityAuth::password_digest(b"ab", "", "c"), "qZk+NkcGgWq6PiVxeFDCbJzQ2J0=");
}

#[test]
fn header_with_exact_text() {
    let auth = WsSecurityAuth::new("admin".to_string(), "password".to_string());
    let nonce: Vec<u8> = (0u8..16).collect();
    let header = auth.header_with(&nonce, "2024-01-01T00:00:00.000Z");
    let expected = "<wsse:Security xmlns:wsse=\"http://docs.oasis-open.org/wss/2004/01/oasis-200401-wss-wssecurity-secext-1.0.xsd\" xmlns:wsu=\"http://docs.oasis-open.org/wss/2004/01/oasis-200401-wss-wssecurity-utility-1.0.xsd\">
  <wsse:UsernameToken>
    <wsse:Username>admin</wsse:Username>
    <wsse:Password Type=\"http://docs.oasis-open.org/wss/2004/01/oasis-200401-wss-username-token-profile-1.0#PasswordDigest\">Ijuhn0ouGyLP3vvDqtgaiHz2/YY=</wsse:Password>
    <wsse:Nonce EncodingType=\"http://docs.oasis-open.org/wss/2004/01/oasis-200401-wss-soap-message-security-1.0#Base64Binary\">AAECAwQFBgcICQoLDA0ODw==</wsse:Nonce>
    <wsu:Created>2024-01-01T00:00:00.000Z</wsu:Created>
  </wsse:UsernameToken>
</wsse:Security>";
    assert_eq!(header, expected);
}

fn between<'a>(text: &'a str, open: &str, close: &str) -> &'a str {
    let start = text.find(open).unwrap() + open.len();
    let end = text[start..].find(close).unwrap() + start;
    &text[start..end]
}

#[test]
fn generated_headers_are_fresh_and_consistent() {
    let auth = WsSecurityAuth::new("u".to_string(), "secret".to_string());
    let first = auth.generate_header();
    let second = auth.generate_header();
    let nonce_open = "#Base64Binary\">";
    let n1 = between(&first, nonce_open, "</wsse:Nonce>");
    let n2 = between(&second, nonce_open, "</wsse:Nonce>");
    assert_ne!(n1, n2);
    assert_eq!(n1.len(), 24);
    let created = between(&first, "<wsu:Created>", "</wsu:Created>");
    assert_eq!(created.len(), 24);
    assert!(created.ends_with('Z'));
    assert_eq!(&created[10..11], "T");
    assert_eq!(&created[19..20], ".");
    let digest = between(&first, "#PasswordDigest\">", "</wsse:Password>");
    assert_eq!(digest.len(), 28);
}

#[test]
fn insert_security_into_existing_header() {
    let xml = "<SOAP-ENV:Envelope><SOAP-ENV:Header><a/></SOAP-ENV:Header><SOAP-ENV:Body/></SOAP-ENV:Envelope>";
    assert_eq!(
        WsSecurityAuth::insert_security(xml, "<S/>"),
        "<SOAP-ENV:Envelope><SOAP-ENV:Header><S/><a/></SOAP-ENV:Header><SOAP-ENV:Body/></SOAP-ENV:Envelope>"
    );
}

#[test]
fn insert_security_without_header() {
    let xml = "<SOAP-ENV:Envelope a=\"b\"><SOAP-ENV:Body/></SOAP-ENV:Envelope>";
    assert_eq!(
        WsSecurityAuth::insert_security(xml, "<S/>"),
        "<SOAP-ENV:Envelope a=\"b\"><SOAP-ENV:Header><S/></SOAP-ENV:Header><SOAP-ENV:Body/></SOAP-ENV:Envelope>"
    );
    assert_eq!(WsSecurityAuth::insert_security("<a><b/></a>", "<S/>"), "<a><b/></a>");
    assert_eq!(WsSecurityAuth::insert_security("<SOAP-ENV:Envelope", "<S/>"), "<SOAP-ENV:Envelope");
}

#[test]
fn add_to_soap_header_carries_a_token() {
    let auth = WsSecurityAuth::new("admin".to_string(), "password".to_string());
    let xml = "<SOAP-ENV:Envelope><SOAP-ENV:Header></SOAP-ENV:Header></SOAP-ENV:Envelope>";
    let out = auth.add_to_soap_header(xml);
    assert!(out.starts_with("<SOAP-ENV:Envelope><SOAP-ENV:Header><wsse:Security "));
    assert!(out.ends_with("</wsse:Security></SOAP-ENV:Header></SOAP-ENV:Envelope>"));
    assert!(out.contains("<wsse:Username>admin</wsse:Username>"));
}

fn camera(id: &str, address: &str) -> CameraConfig {
    CameraConfig {
        id: id.to_string(),
        name: "Camera".to_string(),
        address: address.to_string(),
        username: "admin".to_string(),
        password: "password".to_string(),
        model: "reolink".to_string(),
        enable_smart_detection: false,
        quirks: vec![],
    }
}

#[test]
fn client_builds_request_url_and_envelopes() {
    let client = CameraClient::new(camera("front", "192.168.1.10:8000"));
    assert_eq!(client.camera_id(), "front");
    assert_eq!(client.config().address, "192.168.1.10:8000");
    assert_eq!(client.request_url("/onvif/device_service"), "http://192.168.1.10:8000/onvif/device_service");
    let plain = client.soap_request("<x/>", false);
    assert_eq!(plain, CameraClient::plain_request("<x/>"));
    assert_eq!(
        plain,
        "<?xml version=\"1.0\" encoding=\"UTF-8\"?>
<SOAP-ENV:Envelope xmlns:SOAP-ENV=\"http://www.w3.org/2003/05/soap-envelope\" xmlns:tds=\"http://www.onvif.org/ver10/device/wsdl\" xmlns:trt=\"http://www.onvif.org/ver10/media/wsdl\" xmlns:tev=\"http://www.onvif.org/ver10/events/wsdl\" xmlns:tt=\"http://www.onvif.org/ver10/schema\">
<SOAP-ENV:Body>
<x/>
</SOAP-ENV:Body>
</SOAP-ENV:Envelope>"
    );
    assert_eq!(
        CameraClient::secured_request("<S/>", "<x/>"),
        "<?xml version=\"1.0\" encoding=\"UTF-8\"?>
<SOAP-ENV:Envelope xmlns:SOAP-ENV=\"http://www.w3.org/2003/05/soap-envelope\" xmlns:tds=\"http://www.onvif.org/ver10/device/wsdl\" xmlns:trt=\"http://www.onvif.org/ver10/media/wsdl\" xmlns:tev=\"http://www.onvif.org/ver10/events/wsdl\" xmlns:tt=\"http://www.onvif.org/ver10/schema\" xmlns:wsse=\"http://docs.oasis-open.org/wss/2004/01/oasis-200401-wss-wssecurity-secext-1.0.xsd\" xmlns:wsu=\"http://docs.oasis-open.org/wss/2004/01/oasis-200401-wss-wssecurity-utility-1.0.xsd\">
<SOAP-ENV:Header>
<S/>
</SOAP-ENV:Header>
<SOAP-ENV:Body>
<x/>
</SOAP-ENV:Body>
</SOAP-ENV:Envelope>"
    );
    let secured = client.soap_request("<x/>", true);
    assert!(secured.contains("<wsse:Username>admin</wsse:Username>"));
    assert!(secured.ends_with("<SOAP-ENV:Body>\n<x/>\n</SOAP-ENV:Body>\n</SOAP-ENV:Envelope>"));
}

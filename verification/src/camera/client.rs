//! What is sent to one camera: where a SOAP request goes and what
//! envelope carries it.

use crate::clock::{created_text, utc_instant};
use crate::config::CameraConfig;
use crate::onvif::auth::{security_header, WsSecurityAuth};
use crate::text::{from_chars, push_str};
use vstd::prelude::*;

verus! {

/// The connection facts of one camera, with the credentials made ready.
#[derive(Debug, Clone)]
pub struct CameraClient {
    config: CameraConfig,
    auth: WsSecurityAuth,
}

/// The envelope of a request that carries a security header.
pub open spec fn secured_envelope(security: Seq<char>, soap_body: Seq<char>) -> Seq<char> {
    "<?xml version=\"1.0\" encoding=\"UTF-8\"?>\n<SOAP-ENV:Envelope xmlns:SOAP-ENV=\"http://www.w3.org/2003/05/soap-envelope\" xmlns:tds=\"http://www.onvif.org/ver10/device/wsdl\" xmlns:trt=\"http://www.onvif.org/ver10/media/wsdl\" xmlns:tev=\"http://www.onvif.org/ver10/events/wsdl\" xmlns:tt=\"http://www.onvif.org/ver10/schema\" xmlns:wsse=\"http://docs.oasis-open.org/wss/2004/01/oasis-200401-wss-wssecurity-secext-1.0.xsd\" xmlns:wsu=\"http://docs.oasis-open.org/wss/2004/01/oasis-200401-wss-wssecurity-utility-1.0.xsd\">\n<SOAP-ENV:Header>\n"@
        + security + "\n</SOAP-ENV:Header>\n<SOAP-ENV:Body>\n"@ + soap_body
        + "\n</SOAP-ENV:Body>\n</SOAP-ENV:Envelope>"@
}

/// The envelope of a request without a security header.
pub open spec fn plain_envelope(soap_body: Seq<char>) -> Seq<char> {
    "<?xml version=\"1.0\" encoding=\"UTF-8\"?>\n<SOAP-ENV:Envelope xmlns:SOAP-ENV=\"http://www.w3.org/2003/05/soap-envelope\" xmlns:tds=\"http://www.onvif.org/ver10/device/wsdl\" xmlns:trt=\"http://www.onvif.org/ver10/media/wsdl\" xmlns:tev=\"http://www.onvif.org/ver10/events/wsdl\" xmlns:tt=\"http://www.onvif.org/ver10/schema\">\n<SOAP-ENV:Body>\n"@
        + soap_body + "\n</SOAP-ENV:Body>\n</SOAP-ENV:Envelope>"@
}

impl CameraClient {
    /// The camera's configuration.
    pub closed spec fn configuration(&self) -> CameraConfig {
        self.config
    }

    /// The credentials match the configuration.
    pub closed spec fn wf(&self) -> bool {
        self.auth.username@ == self.config.username@ && self.auth.password@
            == self.config.password@
    }

    /// A client for the camera that `config` describes.
    pub fn new(config: CameraConfig) -> (r: CameraClient)
        ensures
            r.configuration() == config,
            r.wf(),
    {
        let auth = WsSecurityAuth::new(config.username.clone(), config.password.clone());
        CameraClient { config, auth }
    }

    /// The camera's identifier.
    pub fn camera_id(&self) -> (r: &str)
        ensures
            r@ == self.configuration().id@,
    {
        self.config.id.as_str()
    }

    /// The camera's configuration.
    pub fn config(&self) -> (r: &CameraConfig)
        ensures
            *r == self.configuration(),
    {
        &self.config
    }

    /// The address to which a request for `service_path` goes.
    pub fn request_url(&self, service_path: &str) -> (r: String)
        ensures
            r@ == "http://"@ + self.configuration().address@ + service_path@,
    {
        let mut url: Vec<char> = Vec::new();
        push_str(&mut url, "http://");
        push_str(&mut url, self.config.address.as_str());
        push_str(&mut url, service_path);
        from_chars(&url)
    }

    /// The envelope that carries `soap_body` behind `security_header`.
    pub fn secured_request(security_header: &str, soap_body: &str) -> (r: String)
        ensures
            r@ == secured_envelope(security_header@, soap_body@),
    {
        let mut out: Vec<char> = Vec::new();
        push_str(
            &mut out,
            "<?xml version=\"1.0\" encoding=\"UTF-8\"?>\n<SOAP-ENV:Envelope xmlns:SOAP-ENV=\"http://www.w3.org/2003/05/soap-envelope\" xmlns:tds=\"http://www.onvif.org/ver10/device/wsdl\" xmlns:trt=\"http://www.onvif.org/ver10/media/wsdl\" xmlns:tev=\"http://www.onvif.org/ver10/events/wsdl\" xmlns:tt=\"http://www.onvif.org/ver10/schema\" xmlns:wsse=\"http://docs.oasis-open.org/wss/2004/01/oasis-200401-wss-wssecurity-secext-1.0.xsd\" xmlns:wsu=\"http://docs.oasis-open.org/wss/2004/01/oasis-200401-wss-wssecurity-utility-1.0.xsd\">\n<SOAP-ENV:Header>\n",
        );
        push_str(&mut out, security_header);
        push_str(&mut out, "\n</SOAP-ENV:Header>\n<SOAP-ENV:Body>\n");
        push_str(&mut out, soap_body);
        push_str(&mut out, "\n</SOAP-ENV:Body>\n</SOAP-ENV:Envelope>");
        from_chars(&out)
    }

    /// The envelope that carries `soap_body` without a security header.
    pub fn plain_request(soap_body: &str) -> (r: String)
        ensures
            r@ == plain_envelope(soap_body@),
    {
        let mut out: Vec<char> = Vec::new();
        push_str(
            &mut out,
            "<?xml version=\"1.0\" encoding=\"UTF-8\"?>\n<SOAP-ENV:Envelope xmlns:SOAP-ENV=\"http://www.w3.org/2003/05/soap-envelope\" xmlns:tds=\"http://www.onvif.org/ver10/device/wsdl\" xmlns:trt=\"http://www.onvif.org/ver10/media/wsdl\" xmlns:tev=\"http://www.onvif.org/ver10/events/wsdl\" xmlns:tt=\"http://www.onvif.org/ver10/schema\">\n<SOAP-ENV:Body>\n",
        );
        push_str(&mut out, soap_body);
        push_str(&mut out, "\n</SOAP-ENV:Body>\n</SOAP-ENV:Envelope>");
        from_chars(&out)
    }

    /// The envelope of a request to the camera. With `use_auth` it carries
    /// a security header made for this request alone, with a fresh nonce
    /// and the current time; without, it carries none.
    pub fn soap_request(&self, soap_body: &str, use_auth: bool) -> (r: String)
        requires
            self.wf(),
        ensures
            !use_auth ==> r@ == plain_envelope(soap_body@),
            use_auth ==> exists|nonce: Seq<u8>, now: int|
                nonce.len() == 16 && utc_instant(now) && r@ == secured_envelope(
                    #[trigger] security_header(
                        self.configuration().username@,
                        self.configuration().password@,
                        nonce,
                        created_text(now),
                    ),
                    soap_body@,
                ),
    {
        if use_auth {
            let header = self.auth.generate_header();
            let request = CameraClient::secured_request(header.as_str(), soap_body);
            proof {
                let (nonce, now) = choose|nonce: Seq<u8>, now: int|
                    nonce.len() == 16 && utc_instant(now) && header@ == #[trigger] security_header(
                        self.auth.username@,
                        self.auth.password@,
                        nonce,
                        created_text(now),
                    );
                assert(request@ == secured_envelope(
                    security_header(
                        self.configuration().username@,
                        self.configuration().password@,
                        nonce,
                        created_text(now),
                    ),
                    soap_body@,
                ));
            }
            request
        } else {
            CameraClient::plain_request(soap_body)
        }
    }
}

} // verus!

//! The decisions of the service routes. A request is routed to a reply or
//! to an operation; the caller runs the operation against the camera or
//! the subscription table and has its outcome completed into a reply.

use crate::config::CameraConfig;
use crate::onvif::device::{capability_urls_rewritten, device_info_fixed, DeviceService};
use crate::clock::{now_millis, utc_instant};
use crate::onvif::events::{
    answer_text, event_properties_normalized, index_of, new_subscription, proxy_subscription_url,
    renewed, subscription_path, subscription_ref_rewritten, subscription_url, with_subscription,
    without_subscription, EventsService, SubscriptionView,
};
use crate::random::random_uuid;
use crate::onvif::media::{
    fix_localhost_urls, localhost_urls_fixed, profiles_normalized, snapshot_uri_request_text,
    stream_uri_fixed, stream_uri_request_text, MediaService,
};
use crate::onvif::soap::{
    envelope_of, fault_text, result_view, SoapEnvelope, SoapEnvelopeView, SoapError, SoapFault,
};
use crate::onvif::xml::xml_tokens;
use crate::text::{
    between_any, between_any_tags, contains, from_chars, includes_str, pair, pair_views,
    parse_between, parse_integer, push_str, same_text, texts, to_chars, trim, trimmed,
};
use crate::translator::response::{translated, ResponseTranslator};
use vstd::prelude::*;

verus! {

/// What is answered to a client: a status, a body, and whether the body
/// is a SOAP envelope or plain text.
#[derive(Debug, Clone)]
pub struct HttpReply {
    pub status: u16,
    pub soap: bool,
    pub body: String,
}

/// What a request asks the gateway to do.
#[derive(Debug, Clone)]
pub enum Operation {
    GetDeviceInformation,
    GetCapabilities,
    GetServices,
    GetProfiles,
    GetStreamUri { profile_token: String, protocol: String },
    GetSnapshotUri { profile_token: String },
    /// A second-version media request that came to the first-version
    /// route: its body goes to the camera and the answer back as it is.
    Media2Relay { body: String },
    /// A second-version media request: its body goes to the camera, and
    /// placeholder hosts in the answer are replaced.
    Media2Forward { body: String },
    GetEventProperties,
    CreatePullPointSubscription,
    PullMessages { subscription_ref: String, timeout: String, message_limit: i32 },
    Renew { subscription_ref: String },
    Unsubscribe { subscription_ref: String },
}

/// An operation to run, and whether its answer passes through the
/// camera's quirks.
#[derive(Debug, Clone)]
pub struct Plan {
    pub operation: Operation,
    pub translate: bool,
}

/// Where a request was routed: to a reply, with no camera contacted, or to
/// an operation.
#[derive(Debug, Clone)]
pub enum Routed {
    Reply(HttpReply),
    Run(Plan),
}

/// The mathematical value of an `HttpReply`.
pub struct ReplyView {
    pub status: int,
    pub soap: bool,
    pub body: Seq<char>,
}

/// The mathematical value of an `Operation`.
pub enum OperationView {
    GetDeviceInformation,
    GetCapabilities,
    GetServices,
    GetProfiles,
    GetStreamUri { profile_token: Seq<char>, protocol: Seq<char> },
    GetSnapshotUri { profile_token: Seq<char> },
    Media2Relay { body: Seq<char> },
    Media2Forward { body: Seq<char> },
    GetEventProperties,
    CreatePullPointSubscription,
    PullMessages { subscription_ref: Seq<char>, timeout: Seq<char>, message_limit: int },
    Renew { subscription_ref: Seq<char> },
    Unsubscribe { subscription_ref: Seq<char> },
}

/// The mathematical value of a `Routed`.
pub enum RoutedView {
    Reply(ReplyView),
    Run { operation: OperationView, translate: bool },
}

impl View for HttpReply {
    type V = ReplyView;

    open spec fn view(&self) -> ReplyView {
        ReplyView { status: self.status as int, soap: self.soap, body: self.body@ }
    }
}

impl View for Operation {
    type V = OperationView;

    open spec fn view(&self) -> OperationView {
        match self {
            Operation::GetDeviceInformation => OperationView::GetDeviceInformation,
            Operation::GetCapabilities => OperationView::GetCapabilities,
            Operation::GetServices => OperationView::GetServices,
            Operation::GetProfiles => OperationView::GetProfiles,
            Operation::GetStreamUri { profile_token, protocol } => OperationView::GetStreamUri {
                profile_token: profile_token@,
                protocol: protocol@,
            },
            Operation::GetSnapshotUri { profile_token } => OperationView::GetSnapshotUri {
                profile_token: profile_token@,
            },
            Operation::Media2Relay { body } => OperationView::Media2Relay { body: body@ },
            Operation::Media2Forward { body } => OperationView::Media2Forward { body: body@ },
            Operation::GetEventProperties => OperationView::GetEventProperties,
            Operation::CreatePullPointSubscription => OperationView::CreatePullPointSubscription,
            Operation::PullMessages {
                subscription_ref,
                timeout,
                message_limit,
            } => OperationView::PullMessages {
                subscription_ref: subscription_ref@,
                timeout: timeout@,
                message_limit: *message_limit as int,
            },
            Operation::Renew { subscription_ref } => OperationView::Renew {
                subscription_ref: subscription_ref@,
            },
            Operation::Unsubscribe { subscription_ref } => OperationView::Unsubscribe {
                subscription_ref: subscription_ref@,
            },
        }
    }
}

impl View for Routed {
    type V = RoutedView;

    open spec fn view(&self) -> RoutedView {
        match self {
            Routed::Reply(reply) => RoutedView::Reply(reply@),
            Routed::Run(plan) => RoutedView::Run {
                operation: plan.operation@,
                translate: plan.translate,
            },
        }
    }
}

/// A reply in plain text.
pub open spec fn plain_reply(status: int, body: Seq<char>) -> RoutedView {
    RoutedView::Reply(ReplyView { status, soap: false, body })
}

/// The reply to a request for a camera that the gateway does not serve.
pub open spec fn camera_not_found() -> RoutedView {
    plain_reply(404, "Camera not found"@)
}

/// The reply to a request that is no SOAP envelope.
pub open spec fn invalid_soap(fault: SoapFault) -> RoutedView {
    plain_reply(400, "Invalid SOAP: "@ + fault_text(fault))
}

/// The reply to a request for an action that the service does not have.
pub open spec fn not_implemented(action: Seq<char>) -> RoutedView {
    plain_reply(501, "Action not implemented: "@ + action)
}

/// An operation whose answer passes through the camera's quirks.
pub open spec fn run_translated(operation: OperationView) -> RoutedView {
    RoutedView::Run { operation, translate: true }
}

/// An operation whose answer goes back without the camera's quirks.
pub open spec fn run_untranslated(operation: OperationView) -> RoutedView {
    RoutedView::Run { operation, translate: false }
}

/// The tags between which a value named `tag` may stand: without a
/// prefix, and with the prefixes of the media, events, device and schema
/// namespaces.
pub open spec fn value_tags(tag: Seq<char>) -> Seq<(Seq<char>, Seq<char>)> {
    seq![
        (seq!['<'] + tag + seq!['>'], seq!['<', '/'] + tag + seq!['>']),
        ("<trt:"@ + tag + seq!['>'], "</trt:"@ + tag + seq!['>']),
        ("<tev:"@ + tag + seq!['>'], "</tev:"@ + tag + seq!['>']),
        ("<tds:"@ + tag + seq!['>'], "</tds:"@ + tag + seq!['>']),
        ("<tt:"@ + tag + seq!['>'], "</tt:"@ + tag + seq!['>']),
    ]
}

/// The text of the first element named `tag`, without the white space
/// around it.
pub open spec fn element_value(xml: Seq<char>, tag: Seq<char>) -> Option<Seq<char>> {
    match between_any(xml, value_tags(tag), 0) {
        Some((from, to)) => Some(trim(xml.subrange(from, to))),
        None => None,
    }
}

/// The text of the first element named `tag`, or `fallback`.
pub open spec fn value_or(xml: Seq<char>, tag: Seq<char>, fallback: Seq<char>) -> Seq<char> {
    match element_value(xml, tag) {
        Some(value) => value,
        None => fallback,
    }
}

/// The message limit of a pull request: the number in its `MessageLimit`
/// element, or ten where there is none that fits 32 bits.
pub open spec fn message_limit_of(xml: Seq<char>) -> int {
    match element_value(xml, "MessageLimit"@) {
        Some(value) => match parse_between(value, i32::MIN as int, i32::MAX as int) {
            Some(limit) => limit,
            None => 10,
        },
        None => 10,
    }
}

/// The pull that `body` asks for, from the subscription `subscription_ref`.
pub open spec fn pull_of(body: Seq<char>, subscription_ref: Seq<char>) -> OperationView {
    OperationView::PullMessages {
        subscription_ref,
        timeout: value_or(body, "Timeout"@, "PT1S"@),
        message_limit: message_limit_of(body),
    }
}

/// Where the device route sends a request.
pub open spec fn routed_device(
    camera_known: bool,
    parsed: Result<SoapEnvelopeView, SoapFault>,
) -> RoutedView {
    if !camera_known {
        camera_not_found()
    } else {
        match parsed {
            Err(fault) => invalid_soap(fault),
            Ok(envelope) => {
                let action = envelope.body.action;
                if action.len() == 0 {
                    plain_reply(200, "OK"@)
                } else if action == "GetDeviceInformation"@ {
                    run_translated(OperationView::GetDeviceInformation)
                } else if action == "GetCapabilities"@ {
                    run_translated(OperationView::GetCapabilities)
                } else if action == "GetServices"@ {
                    run_translated(OperationView::GetServices)
                } else {
                    not_implemented(action)
                }
            },
        }
    }
}

/// Where the media route sends a request.
pub open spec fn routed_media(
    camera_known: bool,
    parsed: Result<SoapEnvelopeView, SoapFault>,
    body: Seq<char>,
) -> RoutedView {
    if !camera_known {
        camera_not_found()
    } else {
        match parsed {
            Err(fault) => invalid_soap(fault),
            Ok(envelope) => {
                let action = envelope.body.action;
                if contains(action, "ver20/media"@) || contains(
                    body,
                    "http://www.onvif.org/ver20/media/wsdl"@,
                ) {
                    run_untranslated(OperationView::Media2Relay { body: envelope.body.raw_xml })
                } else if action == "GetProfiles"@ {
                    run_translated(OperationView::GetProfiles)
                } else if action == "GetStreamUri"@ {
                    run_translated(
                        OperationView::GetStreamUri {
                            profile_token: value_or(body, "ProfileToken"@, "000"@),
                            protocol: value_or(body, "Protocol"@, "RTSP"@),
                        },
                    )
                } else if action == "GetSnapshotUri"@ {
                    run_translated(
                        OperationView::GetSnapshotUri {
                            profile_token: value_or(body, "ProfileToken"@, "000"@),
                        },
                    )
                } else {
                    not_implemented(action)
                }
            },
        }
    }
}

/// Where the second-version media route sends a request.
pub open spec fn routed_media2(
    camera_known: bool,
    parsed: Result<SoapEnvelopeView, SoapFault>,
) -> RoutedView {
    if !camera_known {
        camera_not_found()
    } else {
        match parsed {
            Err(fault) => invalid_soap(fault),
            Ok(envelope) => run_untranslated(
                OperationView::Media2Forward { body: envelope.body.raw_xml },
            ),
        }
    }
}

/// Where the events route sends a request. A pull, renewal or end of
/// subscription that comes by this route names no subscription.
pub open spec fn routed_events(
    camera_known: bool,
    parsed: Result<SoapEnvelopeView, SoapFault>,
    body: Seq<char>,
) -> RoutedView {
    if !camera_known {
        camera_not_found()
    } else {
        match parsed {
            Err(fault) => invalid_soap(fault),
            Ok(envelope) => {
                let action = envelope.body.action;
                if action == "GetEventProperties"@ {
                    run_translated(OperationView::GetEventProperties)
                } else if action == "CreatePullPointSubscription"@ {
                    run_translated(OperationView::CreatePullPointSubscription)
                } else if action == "PullMessages"@ {
                    run_translated(pull_of(body, Seq::empty()))
                } else if action == "Renew"@ {
                    run_translated(OperationView::Renew { subscription_ref: Seq::empty() })
                } else if action == "Unsubscribe"@ {
                    run_translated(OperationView::Unsubscribe { subscription_ref: Seq::empty() })
                } else {
                    not_implemented(action)
                }
            },
        }
    }
}

/// Where the route of the subscription `sub_id` sends a request.
pub open spec fn routed_subscription(
    camera_known: bool,
    parsed: Result<SoapEnvelopeView, SoapFault>,
    body: Seq<char>,
    sub_id: Seq<char>,
) -> RoutedView {
    if !camera_known {
        camera_not_found()
    } else {
        match parsed {
            Err(fault) => invalid_soap(fault),
            Ok(envelope) => {
                let action = envelope.body.action;
                if action == "PullMessages"@ {
                    run_untranslated(pull_of(body, sub_id))
                } else if action == "Renew"@ {
                    run_untranslated(OperationView::Renew { subscription_ref: sub_id })
                } else if action == "Unsubscribe"@ {
                    run_untranslated(OperationView::Unsubscribe { subscription_ref: sub_id })
                } else {
                    not_implemented(action)
                }
            },
        }
    }
}

/// The path and body of the request that a camera gets for an operation;
/// `None` for the operations of a subscription, whose path the
/// subscription determines.
pub open spec fn camera_request(operation: OperationView) -> Option<(Seq<char>, Seq<char>)> {
    match operation {
        OperationView::GetDeviceInformation => Some(
            (
                "/onvif/device_service"@,
                "<tds:GetDeviceInformation xmlns:tds=\"http://www.onvif.org/ver10/device/wsdl\"/>"@,
            ),
        ),
        OperationView::GetCapabilities => Some(
            (
                "/onvif/device_service"@,
                "<tds:GetCapabilities xmlns:tds=\"http://www.onvif.org/ver10/device/wsdl\"><tds:Category>All</tds:Category></tds:GetCapabilities>"@,
            ),
        ),
        OperationView::GetServices => Some(
            (
                "/onvif/device_service"@,
                "<tds:GetServices xmlns:tds=\"http://www.onvif.org/ver10/device/wsdl\"><tds:IncludeCapability>true</tds:IncludeCapability></tds:GetServices>"@,
            ),
        ),
        OperationView::GetProfiles => Some(
            (
                "/onvif/media_service"@,
                "<trt:GetProfiles xmlns:trt=\"http://www.onvif.org/ver10/media/wsdl\"/>"@,
            ),
        ),
        OperationView::GetStreamUri { profile_token, protocol } => Some(
            ("/onvif/media_service"@, stream_uri_request_text(protocol, profile_token)),
        ),
        OperationView::GetSnapshotUri { profile_token } => Some(
            ("/onvif/media_service"@, snapshot_uri_request_text(profile_token)),
        ),
        OperationView::Media2Relay { body } => Some(("/onvif/Media2"@, body)),
        OperationView::Media2Forward { body } => Some(("/onvif/Media2"@, body)),
        OperationView::GetEventProperties => Some(
            (
                "/onvif/event_service"@,
                "<tev:GetEventProperties xmlns:tev=\"http://www.onvif.org/ver10/events/wsdl\"/>"@,
            ),
        ),
        OperationView::CreatePullPointSubscription => Some(
            (
                "/onvif/event_service"@,
                "<tev:CreatePullPointSubscription xmlns:tev=\"http://www.onvif.org/ver10/events/wsdl\">\n  <tev:InitialTerminationTime>PT600S</tev:InitialTerminationTime>\n</tev:CreatePullPointSubscription>"@,
            ),
        ),
        _ => None,
    }
}

/// The path on the camera under which the subscription `reference` is
/// reached: that of the address which the camera gave it, or the events
/// service path where the table has no such subscription.
pub open spec fn stored_path(
    subscriptions: Seq<crate::onvif::events::SubscriptionView>,
    reference: Seq<char>,
) -> Seq<char> {
    match index_of(subscriptions, reference) {
        Some(i) => subscription_path(subscriptions[i].camera_subscription_url),
        None => "/onvif/event_service"@,
    }
}

/// The path and body of the request that a camera gets to renew or end
/// a subscription; `None` for every other operation.
pub open spec fn subscription_request(
    subscriptions: Seq<crate::onvif::events::SubscriptionView>,
    operation: OperationView,
) -> Option<(Seq<char>, Seq<char>)> {
    match operation {
        OperationView::Renew { subscription_ref } => Some(
            (
                stored_path(subscriptions, subscription_ref),
                "<tev:Renew xmlns:tev=\"http://www.onvif.org/ver10/events/wsdl\">\n  <tev:TerminationTime>PT600S</tev:TerminationTime>\n</tev:Renew>"@,
            ),
        ),
        OperationView::Unsubscribe { subscription_ref } => Some(
            (
                stored_path(subscriptions, subscription_ref),
                "<tev:Unsubscribe xmlns:tev=\"http://www.onvif.org/ver10/events/wsdl\"/>"@,
            ),
        ),
        _ => None,
    }
}

/// A camera's answer to an operation, repaired as the operation requires.
pub open spec fn answer_repaired(
    operation: OperationView,
    xml: Seq<char>,
    camera_id: Seq<char>,
    camera_address: Seq<char>,
    base_url: Seq<char>,
) -> Seq<char> {
    match operation {
        OperationView::GetDeviceInformation => device_info_fixed(xml),
        OperationView::GetCapabilities => capability_urls_rewritten(xml, camera_id, base_url),
        OperationView::GetServices => capability_urls_rewritten(xml, camera_id, base_url),
        OperationView::GetProfiles => stream_uri_fixed(profiles_normalized(xml), camera_address),
        OperationView::GetStreamUri { .. } => stream_uri_fixed(xml, camera_address),
        OperationView::GetSnapshotUri { .. } => stream_uri_fixed(xml, camera_address),
        OperationView::Media2Forward { .. } => localhost_urls_fixed(xml, camera_address),
        OperationView::GetEventProperties => event_properties_normalized(xml),
        _ => xml,
    }
}

/// The reply that completes an operation. A failure is answered as a
/// gateway failure; an answer is repaired, passed through the camera's
/// quirks where the plan says so, and sent as a SOAP envelope.
pub open spec fn completed(
    operation: OperationView,
    translate: bool,
    camera: CameraConfig,
    base_url: Seq<char>,
    outcome: Result<Seq<char>, Seq<char>>,
) -> ReplyView {
    match outcome {
        Err(error) => ReplyView { status: 500, soap: false, body: "Error: "@ + error },
        Ok(xml) => {
            let fixed = answer_repaired(operation, xml, camera.id@, camera.address@, base_url);
            ReplyView {
                status: 200,
                soap: true,
                body: if translate {
                    translated(fixed, camera.model@, texts(camera.quirks@))
                } else {
                    fixed
                },
            }
        },
    }
}

/// The view of an outcome.
pub open spec fn outcome_view(outcome: Result<String, String>) -> Result<Seq<char>, Seq<char>> {
    match outcome {
        Ok(xml) => Ok(xml@),
        Err(error) => Err(error@),
    }
}

/// A plain text reply.
fn reply(status: u16, head: &str, tail: &str) -> (r: Routed)
    ensures
        r@ == plain_reply(status as int, head@ + tail@),
{
    let mut body: Vec<char> = Vec::new();
    push_str(&mut body, head);
    push_str(&mut body, tail);
    Routed::Reply(HttpReply { status, soap: false, body: from_chars(&body) })
}

/// A plain text reply with a fixed text.
fn reply_text(status: u16, text: &str) -> (r: Routed)
    ensures
        r@ == plain_reply(status as int, text@),
{
    Routed::Reply(HttpReply { status, soap: false, body: from_chars(&to_chars(text)) })
}

/// The reply to a request for a camera that the gateway does not serve.
fn unknown_camera() -> (r: Routed)
    ensures
        r@ == camera_not_found(),
{
    reply_text(404, "Camera not found")
}

/// The executable form of `value_tags`.
fn tags_of(tag: &str) -> (r: Vec<(String, String)>)
    ensures
        pair_views(r@) == value_tags(tag@),
{
    let mut table: Vec<(String, String)> = Vec::new();
    let mut k: usize = 0;
    let prefixes: [&str; 5] = ["", "trt:", "tev:", "tds:", "tt:"];
    proof {
        reveal_strlit("");
    }
    while k < 5
        invariant
            k <= 5,
            prefixes[0]@ == ""@,
            prefixes[1]@ == "trt:"@,
            prefixes[2]@ == "tev:"@,
            prefixes[3]@ == "tds:"@,
            prefixes[4]@ == "tt:"@,
            table@.len() == k,
            forall|i: int|
                0 <= i < k ==> (#[trigger] table@[i]).0@ == seq!['<'] + prefixes[i]@ + tag@ + seq![
                    '>',
                ] && table@[i].1@ == seq!['<', '/'] + prefixes[i]@ + tag@ + seq!['>'],
        decreases 5 - k,
    {
        let mut open: Vec<char> = Vec::new();
        open.push('<');
        push_str(&mut open, prefixes[k]);
        push_str(&mut open, tag);
        open.push('>');
        let mut close: Vec<char> = Vec::new();
        close.push('<');
        close.push('/');
        push_str(&mut close, prefixes[k]);
        push_str(&mut close, tag);
        close.push('>');
        assert(open@ == seq!['<'] + prefixes[k as int]@ + tag@ + seq!['>']);
        assert(close@ == seq!['<', '/'] + prefixes[k as int]@ + tag@ + seq!['>']);
        table.push((from_chars(&open), from_chars(&close)));
        k += 1;
    }
    proof {
        reveal_strlit("<trt:");
        reveal_strlit("</trt:");
        reveal_strlit("trt:");
        reveal_strlit("<tev:");
        reveal_strlit("</tev:");
        reveal_strlit("tev:");
        reveal_strlit("<tds:");
        reveal_strlit("</tds:");
        reveal_strlit("tds:");
        reveal_strlit("<tt:");
        reveal_strlit("</tt:");
        reveal_strlit("tt:");
        let wanted = value_tags(tag@);
        let got = pair_views(table@);
        assert(seq!['<'] + ""@ + tag@ + seq!['>'] =~= seq!['<'] + tag@ + seq!['>']);
        assert(seq!['<', '/'] + ""@ + tag@ + seq!['>'] =~= seq!['<', '/'] + tag@ + seq!['>']);
        assert(seq!['<'] + "trt:"@ =~= "<trt:"@);
        assert(seq!['<', '/'] + "trt:"@ =~= "</trt:"@);
        assert(seq!['<'] + "tev:"@ =~= "<tev:"@);
        assert(seq!['<', '/'] + "tev:"@ =~= "</tev:"@);
        assert(seq!['<'] + "tds:"@ =~= "<tds:"@);
        assert(seq!['<', '/'] + "tds:"@ =~= "</tds:"@);
        assert(seq!['<'] + "tt:"@ =~= "<tt:"@);
        assert(seq!['<', '/'] + "tt:"@ =~= "</tt:"@);
        assert(got[0] == wanted[0]);
        assert(got[1] == wanted[1]);
        assert(got[2] == wanted[2]);
        assert(got[3] == wanted[3]);
        assert(got[4] == wanted[4]);
        assert(got =~= wanted);
    }
    table
}

/// The text of the first element named `tag` in `xml`, trimmed.
pub fn extract_value(xml: &str, tag: &str) -> (r: Option<String>)
    ensures
        match element_value(xml@, tag@) {
            Some(value) => r matches Some(text) && text@ == value,
            None => r is None,
        },
{
    let chars = to_chars(xml);
    match between_any_tags(&chars, &tags_of(tag)) {
        Some((from, to)) => Some(from_chars(&trimmed(&chars, from, to))),
        None => None,
    }
}

/// The text of the first element named `tag` in `xml`, or `fallback`.
fn value_or_else(xml: &str, tag: &str, fallback: &str) -> (r: String)
    ensures
        r@ == value_or(xml@, tag@, fallback@),
{
    match extract_value(xml, tag) {
        Some(value) => value,
        None => from_chars(&to_chars(fallback)),
    }
}

/// The pull that `body` asks for.
fn pull_from(body: &str, subscription_ref: &str) -> (r: Operation)
    ensures
        r@ == pull_of(body@, subscription_ref@),
{
    let message_limit: i32 = match extract_value(body, "MessageLimit") {
        Some(value) => {
            let chars = to_chars(value.as_str());
            assert(chars@.subrange(0, chars@.len() as int) == chars@);
            match parse_integer(&chars, 0, chars.len(), -0x8000_0000, 0x7fff_ffff) {
                Some(limit) => limit as i32,
                None => 10,
            }
        },
        None => 10,
    };
    Operation::PullMessages {
        subscription_ref: from_chars(&to_chars(subscription_ref)),
        timeout: value_or_else(body, "Timeout", "PT1S"),
        message_limit,
    }
}

/// An operation whose answer passes through the camera's quirks.
fn translated_run(operation: Operation) -> (r: Routed)
    ensures
        r@ == run_translated(operation@),
{
    Routed::Run(Plan { operation, translate: true })
}

/// An operation whose answer goes back without the camera's quirks.
fn untranslated_run(operation: Operation) -> (r: Routed)
    ensures
        r@ == run_untranslated(operation@),
{
    Routed::Run(Plan { operation, translate: false })
}

/// Routes a parsed request of the device route.
pub fn route_device(camera_known: bool, parsed: Result<SoapEnvelope, SoapError>) -> (r: Routed)
    ensures
        r@ == routed_device(camera_known, result_view(parsed)),
{
    if !camera_known {
        return unknown_camera();
    }
    match parsed {
        Err(error) => reply(400, "Invalid SOAP: ", error.message().as_str()),
        Ok(envelope) => {
            let action = envelope.body.action.as_str();
            proof {
                reveal_strlit("");
            }
            if same_text(action, "") {
                assert(action@.len() == 0);
                reply_text(200, "OK")
            } else if same_text(action, "GetDeviceInformation") {
                translated_run(Operation::GetDeviceInformation)
            } else if same_text(action, "GetCapabilities") {
                translated_run(Operation::GetCapabilities)
            } else if same_text(action, "GetServices") {
                translated_run(Operation::GetServices)
            } else {
                assert(action@.len() != 0) by {
                    if action@.len() == 0 {
                        assert(action@ =~= ""@);
                    }
                }
                reply(501, "Action not implemented: ", action)
            }
        },
    }
}

/// Routes a parsed request of the media route.
pub fn route_media(camera_known: bool, parsed: Result<SoapEnvelope, SoapError>, body: &str) -> (r:
    Routed)
    ensures
        r@ == routed_media(camera_known, result_view(parsed), body@),
{
    if !camera_known {
        return unknown_camera();
    }
    match parsed {
        Err(error) => reply(400, "Invalid SOAP: ", error.message().as_str()),
        Ok(envelope) => {
            let action = envelope.body.action.as_str();
            let action_chars = to_chars(action);
            let body_chars = to_chars(body);
            if includes_str(&action_chars, "ver20/media") || includes_str(
                &body_chars,
                "http://www.onvif.org/ver20/media/wsdl",
            ) {
                untranslated_run(Operation::Media2Relay { body: envelope.body.raw_xml.clone() })
            } else if same_text(action, "GetProfiles") {
                translated_run(Operation::GetProfiles)
            } else if same_text(action, "GetStreamUri") {
                translated_run(
                    Operation::GetStreamUri {
                        profile_token: value_or_else(body, "ProfileToken", "000"),
                        protocol: value_or_else(body, "Protocol", "RTSP"),
                    },
                )
            } else if same_text(action, "GetSnapshotUri") {
                translated_run(
                    Operation::GetSnapshotUri {
                        profile_token: value_or_else(body, "ProfileToken", "000"),
                    },
                )
            } else {
                reply(501, "Action not implemented: ", action)
            }
        },
    }
}

/// Routes a parsed request of the second-version media route.
pub fn route_media2(camera_known: bool, parsed: Result<SoapEnvelope, SoapError>) -> (r: Routed)
    ensures
        r@ == routed_media2(camera_known, result_view(parsed)),
{
    if !camera_known {
        return unknown_camera();
    }
    match parsed {
        Err(error) => reply(400, "Invalid SOAP: ", error.message().as_str()),
        Ok(envelope) => untranslated_run(
            Operation::Media2Forward { body: envelope.body.raw_xml.clone() },
        ),
    }
}

/// Routes a parsed request of the events route.
pub fn route_events(camera_known: bool, parsed: Result<SoapEnvelope, SoapError>, body: &str) -> (r:
    Routed)
    ensures
        r@ == routed_events(camera_known, result_view(parsed), body@),
{
    if !camera_known {
        return unknown_camera();
    }
    match parsed {
        Err(error) => reply(400, "Invalid SOAP: ", error.message().as_str()),
        Ok(envelope) => {
            let action = envelope.body.action.as_str();
            proof {
                reveal_strlit("");
                assert(""@ =~= Seq::<char>::empty());
            }
            if same_text(action, "GetEventProperties") {
                translated_run(Operation::GetEventProperties)
            } else if same_text(action, "CreatePullPointSubscription") {
                translated_run(Operation::CreatePullPointSubscription)
            } else if same_text(action, "PullMessages") {
                translated_run(pull_from(body, ""))
            } else if same_text(action, "Renew") {
                translated_run(Operation::Renew { subscription_ref: String::new() })
            } else if same_text(action, "Unsubscribe") {
                translated_run(Operation::Unsubscribe { subscription_ref: String::new() })
            } else {
                reply(501, "Action not implemented: ", action)
            }
        },
    }
}

/// Routes a parsed request of the route of the subscription `sub_id`.
pub fn route_subscription(
    camera_known: bool,
    parsed: Result<SoapEnvelope, SoapError>,
    body: &str,
    sub_id: &str,
) -> (r: Routed)
    ensures
        r@ == routed_subscription(camera_known, result_view(parsed), body@, sub_id@),
{
    if !camera_known {
        return unknown_camera();
    }
    match parsed {
        Err(error) => reply(400, "Invalid SOAP: ", error.message().as_str()),
        Ok(envelope) => {
            let action = envelope.body.action.as_str();
            if same_text(action, "PullMessages") {
                untranslated_run(pull_from(body, sub_id))
            } else if same_text(action, "Renew") {
                untranslated_run(
                    Operation::Renew { subscription_ref: from_chars(&to_chars(sub_id)) },
                )
            } else if same_text(action, "Unsubscribe") {
                untranslated_run(
                    Operation::Unsubscribe { subscription_ref: from_chars(&to_chars(sub_id)) },
                )
            } else {
                reply(501, "Action not implemented: ", action)
            }
        },
    }
}

/// Decides a request of the device route. An unknown camera is answered
/// with "not found" and no operation; otherwise the request is parsed and
/// routed by its action.
pub fn handle_device_service(camera: Option<&CameraConfig>, body: &str) -> (r: Routed)
    ensures
        r@ == routed_device(camera is Some, envelope_of(xml_tokens(body@))),
        camera is None ==> r@ == camera_not_found(),
{
    match camera {
        None => unknown_camera(),
        Some(_) => route_device(true, SoapEnvelope::parse(body)),
    }
}

/// Decides a request of the media route.
pub fn handle_media_service(camera: Option<&CameraConfig>, body: &str) -> (r: Routed)
    ensures
        r@ == routed_media(camera is Some, envelope_of(xml_tokens(body@)), body@),
        camera is None ==> r@ == camera_not_found(),
{
    match camera {
        None => unknown_camera(),
        Some(_) => route_media(true, SoapEnvelope::parse(body), body),
    }
}

/// Decides a request of the second-version media route.
pub fn handle_media2_service(camera: Option<&CameraConfig>, body: &str) -> (r: Routed)
    ensures
        r@ == routed_media2(camera is Some, envelope_of(xml_tokens(body@))),
        camera is None ==> r@ == camera_not_found(),
{
    match camera {
        None => unknown_camera(),
        Some(_) => route_media2(true, SoapEnvelope::parse(body)),
    }
}

/// Decides a request of the events route.
pub fn handle_events_service(camera: Option<&CameraConfig>, body: &str) -> (r: Routed)
    ensures
        r@ == routed_events(camera is Some, envelope_of(xml_tokens(body@)), body@),
        camera is None ==> r@ == camera_not_found(),
{
    match camera {
        None => unknown_camera(),
        Some(_) => route_events(true, SoapEnvelope::parse(body), body),
    }
}

/// Decides a request of the route of the subscription `sub_id`.
pub fn handle_subscription(camera: Option<&CameraConfig>, sub_id: &str, body: &str) -> (r: Routed)
    ensures
        r@ == routed_subscription(camera is Some, envelope_of(xml_tokens(body@)), body@, sub_id@),
        camera is None ==> r@ == camera_not_found(),
{
    match camera {
        None => unknown_camera(),
        Some(_) => route_subscription(true, SoapEnvelope::parse(body), body, sub_id),
    }
}

/// An unknown camera is answered "not found" on every route, whatever the
/// request holds, and no operation is run for it.
pub proof fn law_unknown_camera_is_not_found(
    parsed: Result<SoapEnvelopeView, SoapFault>,
    body: Seq<char>,
    sub_id: Seq<char>,
)
    ensures
        routed_device(false, parsed) == camera_not_found(),
        routed_media(false, parsed, body) == camera_not_found(),
        routed_media2(false, parsed) == camera_not_found(),
        routed_events(false, parsed, body) == camera_not_found(),
        routed_subscription(false, parsed, body, sub_id) == camera_not_found(),
        camera_not_found() is Reply,
        camera_not_found()->Reply_0.status == 404,
{
}

/// A request that is no envelope is answered as the client's error on
/// every route, and no operation is run for it.
pub proof fn law_invalid_soap_is_rejected(fault: SoapFault, body: Seq<char>, sub_id: Seq<char>)
    ensures
        routed_device(true, Err(fault)) == invalid_soap(fault),
        routed_media(true, Err(fault), body) == invalid_soap(fault),
        routed_media2(true, Err(fault)) == invalid_soap(fault),
        routed_events(true, Err(fault), body) == invalid_soap(fault),
        routed_subscription(true, Err(fault), body, sub_id) == invalid_soap(fault),
        invalid_soap(fault)->Reply_0.status == 400,
{
}

/// A pair of owned texts for a request.
fn request(path: &str, body: &str) -> (r: Option<(String, String)>)
    ensures
        r matches Some(p) && p.0@ == path@ && p.1@ == body@,
{
    Some(pair(path, body))
}

/// The path and body of the request that a camera gets for an operation.
pub fn camera_call(operation: &Operation) -> (r: Option<(String, String)>)
    ensures
        match camera_request(operation@) {
            Some((path, body)) => r matches Some(p) && p.0@ == path && p.1@ == body,
            None => r is None,
        },
{
    match operation {
        Operation::GetDeviceInformation => request(
            "/onvif/device_service",
            DeviceService::device_information_request().as_str(),
        ),
        Operation::GetCapabilities => request(
            "/onvif/device_service",
            DeviceService::capabilities_request().as_str(),
        ),
        Operation::GetServices => request(
            "/onvif/device_service",
            DeviceService::services_request().as_str(),
        ),
        Operation::GetProfiles => request(
            "/onvif/media_service",
            MediaService::profiles_request().as_str(),
        ),
        Operation::GetStreamUri { profile_token, protocol } => request(
            "/onvif/media_service",
            MediaService::stream_uri_request(profile_token.as_str(), protocol.as_str()).as_str(),
        ),
        Operation::GetSnapshotUri { profile_token } => request(
            "/onvif/media_service",
            MediaService::snapshot_uri_request(profile_token.as_str()).as_str(),
        ),
        Operation::Media2Relay { body } => request("/onvif/Media2", body.as_str()),
        Operation::Media2Forward { body } => request("/onvif/Media2", body.as_str()),
        Operation::GetEventProperties => request(
            "/onvif/event_service",
            EventsService::event_properties_request().as_str(),
        ),
        Operation::CreatePullPointSubscription => request(
            "/onvif/event_service",
            EventsService::create_pull_point_request().as_str(),
        ),
        Operation::PullMessages { .. } => None,
        Operation::Renew { .. } => None,
        Operation::Unsubscribe { .. } => None,
    }
}

/// The path on the camera under which a subscription is reached.
fn path_of(events: &EventsService, subscription_ref: &str) -> (r: String)
    ensures
        r@ == stored_path(events.view(), subscription_ref@),
{
    match events.get_subscription(subscription_ref) {
        Some(subscription) => EventsService::subscription_path_of(
            subscription.camera_subscription_url.as_str(),
        ),
        None => from_chars(&to_chars("/onvif/event_service")),
    }
}

/// The path and body of the request that a camera gets to renew or end a
/// subscription.
pub fn subscription_call(events: &EventsService, operation: &Operation) -> (r: Option<
    (String, String),
>)
    ensures
        match subscription_request(events.view(), operation@) {
            Some((path, body)) => r matches Some(p) && p.0@ == path && p.1@ == body,
            None => r is None,
        },
{
    match operation {
        Operation::Renew { subscription_ref } => request(
            path_of(events, subscription_ref.as_str()).as_str(),
            EventsService::renew_request().as_str(),
        ),
        Operation::Unsubscribe { subscription_ref } => request(
            path_of(events, subscription_ref.as_str()).as_str(),
            EventsService::unsubscribe_request().as_str(),
        ),
        _ => None,
    }
}

/// Completes an operation into a reply.
pub fn complete(
    plan: &Plan,
    camera: &CameraConfig,
    base_url: &str,
    outcome: Result<String, String>,
) -> (r: HttpReply)
    ensures
        r@ == completed(plan.operation@, plan.translate, *camera, base_url@, outcome_view(outcome)),
{
    match outcome {
        Err(error) => {
            let mut body: Vec<char> = Vec::new();
            push_str(&mut body, "Error: ");
            push_str(&mut body, error.as_str());
            HttpReply { status: 500, soap: false, body: from_chars(&body) }
        },
        Ok(xml) => {
            let id = camera.id.as_str();
            let address = camera.address.as_str();
            let fixed = match &plan.operation {
                Operation::GetDeviceInformation => DeviceService::fix_device_info_namespaces(
                    xml.as_str(),
                ),
                Operation::GetCapabilities => DeviceService::rewrite_capability_urls(
                    xml.as_str(),
                    id,
                    base_url,
                ),
                Operation::GetServices => DeviceService::rewrite_service_urls(
                    xml.as_str(),
                    id,
                    base_url,
                ),
                Operation::GetProfiles => MediaService::fix_profiles_response(
                    xml.as_str(),
                    address,
                ),
                Operation::GetStreamUri { .. } => MediaService::fix_stream_uri_response(
                    xml.as_str(),
                    address,
                ),
                Operation::GetSnapshotUri { .. } => MediaService::fix_stream_uri_response(
                    xml.as_str(),
                    address,
                ),
                Operation::Media2Forward { .. } => fix_localhost_urls(xml.as_str(), address),
                Operation::GetEventProperties => EventsService::normalize_event_properties(
                    xml.as_str(),
                ),
                _ => xml,
            };
            let body = if plan.translate {
                match ResponseTranslator::translate(
                    fixed.as_str(),
                    camera.model.as_str(),
                    camera.quirks.as_slice(),
                ) {
                    Ok(out) => out,
                    Err(_) => fixed,
                }
            } else {
                fixed
            };
            HttpReply { status: 200, soap: true, body }
        },
    }
}

/// What follows the camera's answer to an operation: the reply, and the
/// reference of the subscription for which a poller is to be started.
#[derive(Debug, Clone)]
pub struct Settled {
    pub reply: HttpReply,
    pub poller: Option<String>,
}

/// The subscription table after the camera's answer to an operation. Only
/// an answer changes the table, a failure never: a granted subscription is
/// recorded under `reference` at the instant `now`, a renewed one lives
/// ten minutes from `now`, an ended one is removed.
pub open spec fn table_settled(
    before: Seq<SubscriptionView>,
    operation: OperationView,
    camera_id: Seq<char>,
    outcome: Result<Seq<char>, Seq<char>>,
    reference: Seq<char>,
    now: int,
) -> Seq<SubscriptionView> {
    match outcome {
        Err(_) => before,
        Ok(response) => match operation {
            OperationView::CreatePullPointSubscription => with_subscription(
                before,
                new_subscription(reference, camera_id, subscription_url(response), now),
            ),
            OperationView::Renew { subscription_ref } => renewed(before, subscription_ref, now),
            OperationView::Unsubscribe { subscription_ref } => without_subscription(
                before,
                subscription_ref,
            ),
            _ => before,
        },
    }
}

/// The outcome that is completed into the reply: the camera's own, but
/// for a granted subscription, whose address becomes the gateway's.
pub open spec fn outcome_settled(
    operation: OperationView,
    camera_id: Seq<char>,
    base_url: Seq<char>,
    outcome: Result<Seq<char>, Seq<char>>,
    reference: Seq<char>,
) -> Result<Seq<char>, Seq<char>> {
    match outcome {
        Ok(response) => if operation is CreatePullPointSubscription {
            Ok(
                subscription_ref_rewritten(
                    response,
                    proxy_subscription_url(base_url, camera_id, reference),
                ),
            )
        } else {
            outcome
        },
        Err(_) => outcome,
    }
}

/// The subscription whose poller is to be started: the one that the
/// camera granted, and none where it failed or was asked for something else.
pub open spec fn poller_settled(
    operation: OperationView,
    outcome: Result<Seq<char>, Seq<char>>,
    reference: Seq<char>,
) -> Option<Seq<char>> {
    if outcome is Ok && operation is CreatePullPointSubscription {
        Some(reference)
    } else {
        None
    }
}

/// The camera's answer to an operation was settled with the reference
/// `reference` at the instant `now`: the table went from `before` to
/// `after`, and `reply` and `poller` are what follows.
pub open spec fn settled_with(
    before: Seq<SubscriptionView>,
    operation: OperationView,
    translate: bool,
    camera: CameraConfig,
    base_url: Seq<char>,
    outcome: Result<Seq<char>, Seq<char>>,
    reference: Seq<char>,
    now: int,
    after: Seq<SubscriptionView>,
    reply: ReplyView,
    poller: Option<Seq<char>>,
) -> bool {
    &&& after == table_settled(before, operation, camera.id@, outcome, reference, now)
    &&& reply == completed(
        operation,
        translate,
        camera,
        base_url,
        outcome_settled(operation, camera.id@, base_url, outcome, reference),
    )
    &&& poller == poller_settled(operation, outcome, reference)
}

/// Settles the camera's answer to an operation: brings the subscription
/// table up to date and completes the reply. `reference` is the reference
/// under which a granted subscription is recorded, `now` the instant.
pub fn settle_at(
    events: &mut EventsService,
    plan: &Plan,
    camera: &CameraConfig,
    base_url: &str,
    outcome: Result<String, String>,
    reference: String,
    now: i64,
) -> (r: Settled)
    requires
        old(events).wf(),
    ensures
        final(events).wf(),
        settled_with(
            old(events).view(),
            plan.operation@,
            plan.translate,
            *camera,
            base_url@,
            outcome_view(outcome),
            reference@,
            now as int,
            final(events).view(),
            r.reply@,
            answer_text(r.poller),
        ),
{
    match outcome {
        Err(error) => Settled { reply: complete(plan, camera, base_url, Err(error)), poller: None },
        Ok(response) => match &plan.operation {
            Operation::CreatePullPointSubscription => {
                let fixed = events.register_subscription(
                    camera.id.as_str(),
                    base_url,
                    response.as_str(),
                    reference.clone(),
                    now,
                );
                Settled {
                    reply: complete(plan, camera, base_url, Ok(fixed)),
                    poller: Some(reference),
                }
            },
            Operation::Renew { subscription_ref } => {
                events.renew_subscription_at(subscription_ref.as_str(), now);
                Settled { reply: complete(plan, camera, base_url, Ok(response)), poller: None }
            },
            Operation::Unsubscribe { subscription_ref } => {
                events.unsubscribe(subscription_ref.as_str());
                Settled { reply: complete(plan, camera, base_url, Ok(response)), poller: None }
            },
            _ => Settled { reply: complete(plan, camera, base_url, Ok(response)), poller: None },
        },
    }
}

/// Settles the camera's answer to an operation now, with a fresh reference
/// for a granted subscription. Whatever reference was drawn and whatever
/// the clock read, table, reply and poller are those that `settle_at`
/// gives with them.
pub fn settle(
    events: &mut EventsService,
    plan: &Plan,
    camera: &CameraConfig,
    base_url: &str,
    outcome: Result<String, String>,
) -> (r: Settled)
    requires
        old(events).wf(),
    ensures
        final(events).wf(),
        exists|reference: Seq<char>, now: int|
            utc_instant(now) && #[trigger] settled_with(
                old(events).view(),
                plan.operation@,
                plan.translate,
                *camera,
                base_url@,
                outcome_view(outcome),
                reference,
                now,
                final(events).view(),
                r.reply@,
                answer_text(r.poller),
            ),
{
    let reference = random_uuid().1;
    let now = now_millis();
    let ghost drawn = reference@;
    let r = settle_at(events, plan, camera, base_url, outcome, reference, now);
    assert(settled_with(
        old(events).view(),
        plan.operation@,
        plan.translate,
        *camera,
        base_url@,
        outcome_view(outcome),
        drawn,
        now as int,
        events.view(),
        r.reply@,
        answer_text(r.poller),
    ));
    r
}

/// A camera that fails leaves the subscription table as it is and starts
/// no poller, whatever was asked of it.
pub proof fn law_failure_changes_nothing(
    before: Seq<SubscriptionView>,
    operation: OperationView,
    camera_id: Seq<char>,
    error: Seq<char>,
    reference: Seq<char>,
    now: int,
)
    ensures
        table_settled(before, operation, camera_id, Err(error), reference, now) == before,
        poller_settled(operation, Err(error), reference) is None,
{
}

/// The reply to a pull from a subscription that the table does not hold.
pub fn subscription_not_found() -> (r: HttpReply)
    ensures
        r@ == (ReplyView { status: 404, soap: false, body: "Subscription not found"@ }),
{
    HttpReply { status: 404, soap: false, body: from_chars(&to_chars("Subscription not found")) }
}

/// The reply to the health check.
pub fn health_check() -> (r: HttpReply)
    ensures
        r@ == (ReplyView { status: 200, soap: false, body: "OK"@ }),
{
    HttpReply { status: 200, soap: false, body: from_chars(&to_chars("OK")) }
}

/// A successful reply that carries a SOAP envelope.
pub fn soap_response(xml: String) -> (r: HttpReply)
    ensures
        r@ == (ReplyView { status: 200, soap: true, body: xml@ }),
{
    HttpReply { status: 200, soap: true, body: xml }
}

impl HttpReply {
    /// The content type of the reply.
    pub fn content_type(&self) -> (r: &'static str)
        ensures
            r@ == if self.soap {
                "application/soap+xml; charset=utf-8"@
            } else {
                "text/plain; charset=utf-8"@
            },
    {
        if self.soap {
            "application/soap+xml; charset=utf-8"
        } else {
            "text/plain; charset=utf-8"
        }
    }
}

} // verus!

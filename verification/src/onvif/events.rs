//! Emulated pull-point subscriptions: the subscription table, the bounded
//! event cache that a poller fills, and the texts of the events service.

use crate::clock::{
    now_millis, rfc3339_millis, rfc3339_millis_text, rfc3339_seconds, rfc3339_seconds_text,
    utc_instant,
};
use crate::onvif::namespaces::{declare_on_envelope, declared_on_envelope};
use crate::random::random_uuid;
use crate::text::{
    begins_with, between_any, between_any_tags, contains, digits_value, find, find_from, find_in,
    from_chars, includes_str, lemma_find_from, pair, pair_views, parse_between, parse_integer,
    push_all, push_range, push_str, replace_all, replace_str, same_text, starts_with, substitute,
    substituted, texts, to_chars,
};
use std::collections::VecDeque;
use vstd::prelude::*;

verus! {

/// How many events a subscription keeps for its client.
pub const CACHE_CAPACITY: usize = 100;

/// For how long a subscription lives after its creation or renewal, in milliseconds.
pub const SUBSCRIPTION_LIFETIME_MS: i64 = 600_000;

/// How long a pull waits between two looks at an empty cache, in milliseconds.
pub const PULL_WAIT_MS: u64 = 100;

/// How long a poller waits between two queries of the camera, in milliseconds.
pub const POLL_INTERVAL_MS: u64 = 500;

/// An event that waits for its client.
#[derive(Debug, Clone)]
pub struct CachedEvent {
    pub event_xml: String,
    /// When the event was observed, in milliseconds since the Unix epoch.
    pub received_at: i64,
}

/// One emulated pull point. Times are milliseconds since the Unix epoch.
#[derive(Debug, Clone)]
pub struct Subscription {
    pub _subscription_ref: String,
    pub camera_id: String,
    /// The address that the camera gave its own subscription.
    pub camera_subscription_url: String,
    pub _created_at: i64,
    pub expires_at: i64,
    /// The events that wait, oldest first.
    pub event_cache: VecDeque<CachedEvent>,
    pub last_poll: i64,
}

/// The table of subscriptions, keyed by subscription reference.
pub struct EventsService {
    subscriptions: Vec<Subscription>,
}

/// What a poller remembers between two polls.
#[derive(Debug, Clone)]
pub struct MotionPoller {
    pub last_motion_state: Option<bool>,
}

/// The mathematical value of a `CachedEvent`.
pub struct EventView {
    pub event_xml: Seq<char>,
    pub received_at: int,
}

impl View for CachedEvent {
    type V = EventView;

    open spec fn view(&self) -> EventView {
        EventView { event_xml: self.event_xml@, received_at: self.received_at as int }
    }
}

/// The values of a run of cached events.
pub open spec fn event_views(events: Seq<CachedEvent>) -> Seq<EventView> {
    Seq::new(events.len(), |i: int| events[i]@)
}

/// The mathematical value of a `Subscription`.
pub struct SubscriptionView {
    pub subscription_ref: Seq<char>,
    pub camera_id: Seq<char>,
    pub camera_subscription_url: Seq<char>,
    pub created_at: int,
    pub expires_at: int,
    pub event_cache: Seq<EventView>,
    pub last_poll: int,
}

impl View for Subscription {
    type V = SubscriptionView;

    open spec fn view(&self) -> SubscriptionView {
        SubscriptionView {
            subscription_ref: self._subscription_ref@,
            camera_id: self.camera_id@,
            camera_subscription_url: self.camera_subscription_url@,
            created_at: self._created_at as int,
            expires_at: self.expires_at as int,
            event_cache: event_views(self.event_cache@),
            last_poll: self.last_poll as int,
        }
    }
}

/// The values of a list of subscriptions.
pub open spec fn subscription_views(subscriptions: Seq<Subscription>) -> Seq<SubscriptionView> {
    Seq::new(subscriptions.len(), |i: int| subscriptions[i]@)
}

/// Index of the first of `subscriptions[from..]` with the reference `reference`.
pub open spec fn index_from(
    subscriptions: Seq<SubscriptionView>,
    reference: Seq<char>,
    from: int,
) -> Option<int>
    decreases subscriptions.len() - from,
{
    if from < 0 || from >= subscriptions.len() {
        None
    } else if subscriptions[from].subscription_ref == reference {
        Some(from)
    } else {
        index_from(subscriptions, reference, from + 1)
    }
}

/// Index of the subscription with the reference `reference`.
pub open spec fn index_of(subscriptions: Seq<SubscriptionView>, reference: Seq<char>) -> Option<
    int,
> {
    index_from(subscriptions, reference, 0)
}

/// No two subscriptions share a reference, and no cache is over capacity.
pub open spec fn well_formed(subscriptions: Seq<SubscriptionView>) -> bool {
    &&& forall|i: int, j: int|
        0 <= i < j < subscriptions.len() ==> subscriptions[i].subscription_ref
            != subscriptions[j].subscription_ref
    &&& forall|i: int|
        0 <= i < subscriptions.len() ==> (#[trigger] subscriptions[i]).event_cache.len()
            <= CACHE_CAPACITY
}

/// The values of a run of events without its first are the values of the
/// run without their first.
pub proof fn lemma_event_views_rest(events: Seq<CachedEvent>)
    requires
        events.len() > 0,
    ensures
        event_views(events.drop_first()) == event_views(events).drop_first(),
        event_views(events)[0] == events[0]@,
{
    assert(event_views(events.drop_first()) =~= event_views(events).drop_first());
}

/// What `index_from` returns is the first index at or after `from` with
/// the wanted reference.
pub proof fn lemma_index_from(subscriptions: Seq<SubscriptionView>, reference: Seq<char>, from: int)
    requires
        0 <= from,
    ensures
        match index_from(subscriptions, reference, from) {
            Some(i) => from <= i < subscriptions.len() && subscriptions[i].subscription_ref
                == reference && forall|j: int|
                from <= j < i ==> subscriptions[j].subscription_ref != reference,
            None => forall|j: int|
                from <= j < subscriptions.len() ==> subscriptions[j].subscription_ref
                    != reference,
        },
    decreases subscriptions.len() - from,
{
    if from < subscriptions.len() && subscriptions[from].subscription_ref != reference {
        lemma_index_from(subscriptions, reference, from + 1);
    }
}

/// A cache after `event` arrived: the event goes to the back, and the
/// oldest events leave until no more than the capacity remain.
pub open spec fn cache_with(cache: Seq<EventView>, event: EventView) -> Seq<EventView> {
    let all = cache.push(event);
    if all.len() > CACHE_CAPACITY {
        all.skip(all.len() - CACHE_CAPACITY)
    } else {
        all
    }
}

/// The first `count` events of a cache, at most all of them.
pub open spec fn drained(cache: Seq<EventView>, count: int) -> Seq<EventView> {
    if count <= 0 {
        Seq::empty()
    } else if count >= cache.len() {
        cache
    } else {
        cache.take(count)
    }
}

/// What stays in a cache when its first `count` events left.
pub open spec fn remaining(cache: Seq<EventView>, count: int) -> Seq<EventView> {
    if count <= 0 {
        cache
    } else if count >= cache.len() {
        Seq::empty()
    } else {
        cache.skip(count)
    }
}

/// An instant `millis` later than `now`, held to the range of `i64`.
pub open spec fn later(now: int, millis: int) -> int {
    let t = now + millis;
    if t > i64::MAX {
        i64::MAX as int
    } else if t < i64::MIN {
        i64::MIN as int
    } else {
        t
    }
}

/// The executable form of `later`.
pub fn instant_after(now: i64, millis: i64) -> (r: i64)
    ensures
        r == later(now as int, millis as int),
{
    let t: i128 = now as i128 + millis as i128;
    if t > i64::MAX as i128 {
        i64::MAX
    } else if t < i64::MIN as i128 {
        i64::MIN
    } else {
        t as i64
    }
}

/// Whether a poll that observes `motion` after `last` is a change of
/// state. A camera of which nothing was observed yet is taken to be at
/// rest: its first poll is a change only where it reports motion.
pub open spec fn is_edge(last: Option<bool>, motion: bool) -> bool {
    match last {
        Some(before) => before != motion,
        None => motion,
    }
}

impl MotionPoller {
    /// A poller that has observed nothing.
    pub fn new() -> (r: MotionPoller)
        ensures
            r.last_motion_state is None,
    {
        MotionPoller { last_motion_state: None }
    }

    /// Takes note of an observed state and says whether it differs from
    /// the state observed before: only then an event is due.
    pub fn observe(&mut self, motion_detected: bool) -> (changed: bool)
        ensures
            changed == is_edge(old(self).last_motion_state, motion_detected),
            final(self).last_motion_state == Some(motion_detected),
    {
        let changed = match self.last_motion_state {
            Some(last) => last != motion_detected,
            None => motion_detected,
        };
        self.last_motion_state = Some(motion_detected);
        changed
    }
}

/// Edge triggering: of two polls in a row that observe the same state, the
/// second is no change, whatever was observed before; so steady motion
/// gives one event at the transition and none after. A first poll that
/// reports no motion is no change, and one that reports motion is.
pub proof fn law_steady_state_is_no_edge(last: Option<bool>, motion: bool)
    ensures
        !is_edge(Some(motion), motion),
        is_edge(Some(!motion), motion),
        !is_edge(None, false),
        is_edge(None, true),
{
}

/// Cache eviction: an event that arrives at a full cache leaves the cache
/// full, with its oldest event gone and the new one last. A cache within
/// capacity stays within capacity.
pub proof fn law_full_cache_drops_oldest(cache: Seq<EventView>, event: EventView)
    ensures
        cache.len() <= CACHE_CAPACITY ==> cache_with(cache, event).len() <= CACHE_CAPACITY,
        cache.len() < CACHE_CAPACITY ==> cache_with(cache, event) == cache.push(event),
        cache.len() == CACHE_CAPACITY ==> cache_with(cache, event) == cache.skip(1).push(event)
            && cache_with(cache, event).len() == CACHE_CAPACITY,
        cache_with(cache, event).len() > 0 && cache_with(cache, event).last() == event,
{
    let all = cache.push(event);
    if cache.len() == CACHE_CAPACITY {
        assert(all.skip(1) == cache.skip(1).push(event));
    }
}


/// The vendor's event topics and prefix, and what stands for them.
pub open spec fn topic_table() -> Seq<(Seq<char>, Seq<char>)> {
    seq![
        ("RuleEngine/MyRuleDetector/PeopleDetect"@, "RuleEngine/CellMotionDetector/Motion"@),
        ("RuleEngine/MyRuleDetector/VehicleDetect"@, "RuleEngine/CellMotionDetector/Motion"@),
        ("RuleEngine/MyRuleDetector/DogCatDetect"@, "RuleEngine/CellMotionDetector/Motion"@),
        ("xmlns:reo="@, "xmlns:tns1="@),
        ("<reo:"@, "<tns1:"@),
        ("</reo:"@, "</tns1:"@),
    ]
}

/// `xml` with the vendor's topics mapped to the standard ones.
pub open spec fn topics_mapped(xml: Seq<char>) -> Seq<char> {
    substituted(xml, topic_table())
}

/// An event properties response made standard: the topics namespace
/// declared unless it is, and the vendor's topics mapped.
pub open spec fn event_properties_normalized(xml: Seq<char>) -> Seq<char> {
    topics_mapped(
        if contains(xml, "xmlns:tns1="@) {
            xml
        } else {
            declared_on_envelope(xml, "tns1"@, "http://www.onvif.org/ver10/topics"@)
        },
    )
}

/// `xml` with an `IsMotion` item closing every event data block, where the
/// document speaks of motion and has no such item.
pub open spec fn event_data_normalized(xml: Seq<char>) -> Seq<char> {
    if contains(xml, "Motion"@) && !contains(xml, "IsMotion"@) {
        replace_all(
            xml,
            "</tev:Data>"@,
            "<tt:SimpleItem Name=\"IsMotion\" Value=\"true\"/></tev:Data>"@,
        )
    } else {
        xml
    }
}

/// `xml` with the topics namespace declared where `tns1:` is used undeclared.
pub open spec fn topics_declared(xml: Seq<char>) -> Seq<char> {
    if !contains(xml, "xmlns:tns1="@) && contains(xml, "tns1:"@) {
        declared_on_envelope(xml, "tns1"@, "http://www.onvif.org/ver10/topics"@)
    } else {
        xml
    }
}

/// `xml` with the schema namespace declared where `tt:` is used undeclared.
pub open spec fn schema_declared(xml: Seq<char>) -> Seq<char> {
    if !contains(xml, "xmlns:tt="@) && contains(xml, "tt:"@) {
        declared_on_envelope(xml, "tt"@, "http://www.onvif.org/ver10/schema"@)
    } else {
        xml
    }
}

/// Event messages made standard: namespaces declared, topics mapped, data
/// normalized.
pub open spec fn event_messages_translated(xml: Seq<char>) -> Seq<char> {
    event_data_normalized(topics_mapped(schema_declared(topics_declared(xml))))
}

/// The number of seconds that an ISO 8601 duration of the form `PT<n>S` or
/// `PT<n>M` lasts, `n` an integer that fits 64 bits; minutes whose seconds
/// do not fit, and every other form, give `None`.
pub open spec fn iso_duration(duration: Seq<char>) -> Option<int> {
    if !starts_with(duration, "PT"@) || duration.len() < 3 {
        None
    } else {
        let number = duration.subrange(2, duration.len() - 1);
        if duration.last() == 'S' {
            parse_between(number, i64::MIN as int, i64::MAX as int)
        } else if duration.last() == 'M' {
            match parse_between(number, i64::MIN as int, i64::MAX as int) {
                Some(minutes) => if i64::MIN <= minutes * 60 <= i64::MAX {
                    Some(minutes * 60)
                } else {
                    None
                },
                None => None,
            }
        } else {
            None
        }
    }
}

/// The seconds for which a pull with the given `timeout` waits: the
/// duration, or one second where the text is none.
pub open spec fn timeout_seconds(timeout: Seq<char>) -> int {
    match iso_duration(timeout) {
        Some(seconds) => seconds,
        None => 1,
    }
}

/// The notification messages of `xml[from..]`, each from its opening to
/// its closing tag, in order.
pub open spec fn notification_messages(xml: Seq<char>, from: int) -> Seq<Seq<char>>
    decreases xml.len() - from,
{
    let open = "<wsnt:NotificationMessage>"@;
    let close = "</wsnt:NotificationMessage>"@;
    match find_from(xml, open, from) {
        Some(start) => match find_from(xml, close, start) {
            Some(end) => {
                proof {
                    reveal_strlit("</wsnt:NotificationMessage>");
                    if from >= 0 {
                        lemma_find_from(xml, open, from);
                        lemma_find_from(xml, close, start);
                    }
                }
                seq![xml.subrange(start, end + close.len())] + notification_messages(
                    xml,
                    end + close.len(),
                )
            },
            None => Seq::empty(),
        },
        None => Seq::empty(),
    }
}

/// The tags between which a subscription's address may stand, with the
/// prefixes that cameras use and without one.
pub open spec fn address_tags() -> Seq<(Seq<char>, Seq<char>)> {
    seq![
        ("<wsa5:Address>"@, "</wsa5:Address>"@),
        ("<wsa:Address>"@, "</wsa:Address>"@),
        ("<Address>"@, "</Address>"@),
    ]
}

/// The address that a camera gave its subscription, or the events service
/// path where the response names none.
pub open spec fn subscription_url(xml: Seq<char>) -> Seq<char> {
    match between_any(xml, address_tags(), 0) {
        Some((from, to)) => xml.subrange(from, to),
        None => "/onvif/event_service"@,
    }
}

/// `xml` with `proxy_url` in place of the subscription's address.
pub open spec fn subscription_ref_rewritten(xml: Seq<char>, proxy_url: Seq<char>) -> Seq<char> {
    match between_any(xml, address_tags(), 0) {
        Some((from, to)) => xml.take(from) + proxy_url + xml.skip(to),
        None => xml,
    }
}

/// The gateway's own address of a subscription.
pub open spec fn proxy_subscription_url(
    base_url: Seq<char>,
    camera_id: Seq<char>,
    reference: Seq<char>,
) -> Seq<char> {
    base_url + "/onvif/"@ + camera_id + "/subscription/"@ + reference
}

/// The path on the camera under which its subscription is reached: the
/// address from `/onvif/` on, or the events service path.
pub open spec fn subscription_path(camera_subscription_url: Seq<char>) -> Seq<char> {
    match find(camera_subscription_url, "/onvif/"@) {
        Some(at) => camera_subscription_url.skip(at),
        None => "/onvif/event_service"@,
    }
}

/// How a truth value is written.
pub open spec fn bool_text(b: bool) -> Seq<char> {
    if b {
        "true"@
    } else {
        "false"@
    }
}

/// The notification message that reports a change of the motion state.
pub open spec fn motion_event(camera_id: Seq<char>, motion_active: bool, utc_time: Seq<char>) -> Seq<
    char,
> {
    "<wsnt:NotificationMessage>\n  <wsnt:Topic Dialect=\"http://www.onvif.org/ver10/tev/topicExpression/ConcreteSet\">tns1:RuleEngine/CellMotionDetector/Motion</wsnt:Topic>\n  <wsnt:Message>\n    <tt:Message UtcTime=\""@
        + utc_time
        + "\">\n      <tt:Source>\n        <tt:SimpleItem Name=\"VideoSourceConfigurationToken\" Value=\""@
        + camera_id
        + "\"/>\n        <tt:SimpleItem Name=\"VideoAnalyticsConfigurationToken\" Value=\""@
        + camera_id
        + "\"/>\n        <tt:SimpleItem Name=\"Rule\" Value=\"MotionDetectorRule\"/>\n      </tt:Source>\n      <tt:Data>\n        <tt:SimpleItem Name=\"IsMotion\" Value=\""@
        + bool_text(motion_active)
        + "\"/>\n      </tt:Data>\n    </tt:Message>\n  </wsnt:Message>\n</wsnt:NotificationMessage>"@
}

/// The events of a pull response, each followed by a line break.
pub open spec fn messages_text(events: Seq<EventView>) -> Seq<char>
    decreases events.len(),
{
    if events.len() == 0 {
        Seq::empty()
    } else {
        messages_text(events.drop_last()) + events.last().event_xml + seq!['\n']
    }
}

/// The response to a pull: current and termination time, then the events.
pub open spec fn pull_messages_response(
    events: Seq<EventView>,
    current_time: Seq<char>,
    termination_time: Seq<char>,
) -> Seq<char> {
    "<?xml version=\"1.0\" encoding=\"UTF-8\"?>\n<SOAP-ENV:Envelope xmlns:SOAP-ENV=\"http://www.w3.org/2003/05/soap-envelope\" xmlns:tev=\"http://www.onvif.org/ver10/events/wsdl\" xmlns:wsnt=\"http://docs.oasis-open.org/wsn/b-2\" xmlns:tt=\"http://www.onvif.org/ver10/schema\" xmlns:tns1=\"http://www.onvif.org/ver10/topics\">\n<SOAP-ENV:Body>\n<tev:PullMessagesResponse>\n  <tev:CurrentTime>"@
        + current_time + "</tev:CurrentTime>\n  <tev:TerminationTime>"@ + termination_time
        + "</tev:TerminationTime>\n  "@ + messages_text(events)
        + "\n</tev:PullMessagesResponse>\n</SOAP-ENV:Body>\n</SOAP-ENV:Envelope>"@
}

/// The response to a pull at the instant `now`, with the termination time
/// ten minutes later: `None` where the calendar lacks either instant.
pub open spec fn pull_response_of(events: Seq<EventView>, now: int) -> Option<Seq<char>> {
    if utc_instant(now) && utc_instant(later(now, SUBSCRIPTION_LIFETIME_MS as int)) {
        Some(
            pull_messages_response(
                events,
                rfc3339_seconds_text(now),
                rfc3339_seconds_text(later(now, SUBSCRIPTION_LIFETIME_MS as int)),
            ),
        )
    } else {
        None
    }
}

/// The text of an answer, where there is one.
pub open spec fn answer_text(answer: Option<String>) -> Option<Seq<char>> {
    match answer {
        Some(xml) => Some(xml@),
        None => None,
    }
}

/// The address of the camera's motion state query.
pub open spec fn motion_state_url(host: Seq<char>, username: Seq<char>, password: Seq<char>) -> Seq<
    char,
> {
    "https://"@ + host + "/cgi-bin/api.cgi?cmd=GetMdState&channel=0&user="@ + username
        + "&password="@ + password
}

/// Whether the answer to a motion state query reports motion.
pub open spec fn reports_motion(response_text: Seq<char>) -> bool {
    contains(response_text, "\"state\":1"@) || contains(response_text, "\"state\": 1"@)
}

/// The executable form of `topic_table`.
fn topics() -> (r: Vec<(String, String)>)
    ensures
        pair_views(r@) == topic_table(),
{
    let motion = "RuleEngine/CellMotionDetector/Motion";
    let mut table: Vec<(String, String)> = Vec::new();
    table.push(pair("RuleEngine/MyRuleDetector/PeopleDetect", motion));
    table.push(pair("RuleEngine/MyRuleDetector/VehicleDetect", motion));
    table.push(pair("RuleEngine/MyRuleDetector/DogCatDetect", motion));
    table.push(pair("xmlns:reo=", "xmlns:tns1="));
    table.push(pair("<reo:", "<tns1:"));
    table.push(pair("</reo:", "</tns1:"));
    assert(pair_views(table@) == topic_table());
    table
}

/// The executable form of `address_tags`.
fn addresses() -> (r: Vec<(String, String)>)
    ensures
        pair_views(r@) == address_tags(),
{
    let mut table: Vec<(String, String)> = Vec::new();
    table.push(pair("<wsa5:Address>", "</wsa5:Address>"));
    table.push(pair("<wsa:Address>", "</wsa:Address>"));
    table.push(pair("<Address>", "</Address>"));
    assert(pair_views(table@) == address_tags());
    table
}

/// The executable form of `event_data_normalized`.
fn normalize_data(xml: Vec<char>) -> (r: Vec<char>)
    ensures
        r@ == event_data_normalized(xml@),
{
    if includes_str(&xml, "Motion") && !includes_str(&xml, "IsMotion") {
        replace_str(
            &xml,
            "</tev:Data>",
            "<tt:SimpleItem Name=\"IsMotion\" Value=\"true\"/></tev:Data>",
        )
    } else {
        xml
    }
}

impl EventsService {
    /// The request for a camera's event properties.
    pub fn event_properties_request() -> (r: String)
        ensures
            r@ == "<tev:GetEventProperties xmlns:tev=\"http://www.onvif.org/ver10/events/wsdl\"/>"@,
    {
        from_chars(
            &to_chars("<tev:GetEventProperties xmlns:tev=\"http://www.onvif.org/ver10/events/wsdl\"/>"),
        )
    }

    /// The request that opens a pull point on the camera, for ten minutes.
    pub fn create_pull_point_request() -> (r: String)
        ensures
            r@
                == "<tev:CreatePullPointSubscription xmlns:tev=\"http://www.onvif.org/ver10/events/wsdl\">\n  <tev:InitialTerminationTime>PT600S</tev:InitialTerminationTime>\n</tev:CreatePullPointSubscription>"@,
    {
        from_chars(
            &to_chars(
                "<tev:CreatePullPointSubscription xmlns:tev=\"http://www.onvif.org/ver10/events/wsdl\">\n  <tev:InitialTerminationTime>PT600S</tev:InitialTerminationTime>\n</tev:CreatePullPointSubscription>",
            ),
        )
    }

    /// The request that pulls messages from a camera's own pull point.
    pub fn pull_messages_request(timeout: &str, message_limit: &str) -> (r: String)
        ensures
            r@ == "<tev:PullMessages xmlns:tev=\"http://www.onvif.org/ver10/events/wsdl\">\n  <tev:Timeout>"@
                + timeout@ + "</tev:Timeout>\n  <tev:MessageLimit>"@ + message_limit@
                + "</tev:MessageLimit>\n</tev:PullMessages>"@,
    {
        let mut out: Vec<char> = Vec::new();
        push_str(
            &mut out,
            "<tev:PullMessages xmlns:tev=\"http://www.onvif.org/ver10/events/wsdl\">\n  <tev:Timeout>",
        );
        push_str(&mut out, timeout);
        push_str(&mut out, "</tev:Timeout>\n  <tev:MessageLimit>");
        push_str(&mut out, message_limit);
        push_str(&mut out, "</tev:MessageLimit>\n</tev:PullMessages>");
        from_chars(&out)
    }

    /// The request that renews a camera's subscription for ten minutes.
    pub fn renew_request() -> (r: String)
        ensures
            r@
                == "<tev:Renew xmlns:tev=\"http://www.onvif.org/ver10/events/wsdl\">\n  <tev:TerminationTime>PT600S</tev:TerminationTime>\n</tev:Renew>"@,
    {
        from_chars(
            &to_chars(
                "<tev:Renew xmlns:tev=\"http://www.onvif.org/ver10/events/wsdl\">\n  <tev:TerminationTime>PT600S</tev:TerminationTime>\n</tev:Renew>",
            ),
        )
    }

    /// The request that ends a camera's subscription.
    pub fn unsubscribe_request() -> (r: String)
        ensures
            r@ == "<tev:Unsubscribe xmlns:tev=\"http://www.onvif.org/ver10/events/wsdl\"/>"@,
    {
        from_chars(
            &to_chars("<tev:Unsubscribe xmlns:tev=\"http://www.onvif.org/ver10/events/wsdl\"/>"),
        )
    }

    /// Makes an event properties response standard.
    pub fn normalize_event_properties(xml: &str) -> (r: String)
        ensures
            r@ == event_properties_normalized(xml@),
    {
        let chars = to_chars(xml);
        let declared = if includes_str(&chars, "xmlns:tns1=") {
            chars
        } else {
            declare_on_envelope(&chars, "tns1", "http://www.onvif.org/ver10/topics")
        };
        from_chars(&substitute(declared, &topics()))
    }

    /// Maps the vendor's topics and prefix to the standard ones.
    pub fn map_reolink_topics(xml: &str) -> (r: String)
        ensures
            r@ == topics_mapped(xml@),
    {
        from_chars(&substitute(to_chars(xml), &topics()))
    }

    /// Makes event messages standard.
    pub fn translate_event_messages(xml: &str) -> (r: String)
        ensures
            r@ == event_messages_translated(xml@),
    {
        let chars = to_chars(xml);
        let topics_ok = if !includes_str(&chars, "xmlns:tns1=") && includes_str(&chars, "tns1:") {
            declare_on_envelope(&chars, "tns1", "http://www.onvif.org/ver10/topics")
        } else {
            chars
        };
        let schema_ok = if !includes_str(&topics_ok, "xmlns:tt=") && includes_str(
            &topics_ok,
            "tt:",
        ) {
            declare_on_envelope(&topics_ok, "tt", "http://www.onvif.org/ver10/schema")
        } else {
            topics_ok
        };
        from_chars(&normalize_data(substitute(schema_ok, &topics())))
    }

    /// Gives event data the `IsMotion` item that clients expect.
    pub fn normalize_event_data(xml: &str) -> (r: String)
        ensures
            r@ == event_data_normalized(xml@),
    {
        from_chars(&normalize_data(to_chars(xml)))
    }

    /// The seconds of an ISO 8601 duration of the form `PT<n>S` or `PT<n>M`.
    pub fn parse_iso_duration(duration: &str) -> (r: Option<i64>)
        ensures
            match iso_duration(duration@) {
                Some(seconds) => r == Some(seconds as i64),
                None => r is None,
            },
    {
        let chars = to_chars(duration);
        let head = to_chars("PT");
        proof {
            reveal_strlit("PT");
        }
        if !begins_with(&chars, &head) || chars.len() < 3 {
            return None;
        }
        let last = chars[chars.len() - 1];
        if last == 'S' {
            parse_integer(&chars, 2, chars.len() - 1, i64::MIN, i64::MAX)
        } else if last == 'M' {
            match parse_integer(&chars, 2, chars.len() - 1, i64::MIN, i64::MAX) {
                Some(minutes) => {
                    let seconds: i128 = minutes as i128 * 60;
                    if seconds < i64::MIN as i128 || seconds > i64::MAX as i128 {
                        None
                    } else {
                        Some(seconds as i64)
                    }
                },
                None => None,
            }
        } else {
            None
        }
    }

    /// The notification messages of a pull response, or `None` where it
    /// has none.
    pub fn extract_events_from_response(xml: &str) -> (r: Option<Vec<String>>)
        ensures
            match r {
                Some(events) => texts(events@) == notification_messages(
                    xml@,
                    0,
                ) && events@.len() > 0,
                None => notification_messages(xml@, 0).len() == 0,
            },
    {
        let chars = to_chars(xml);
        let open = to_chars("<wsnt:NotificationMessage>");
        let close = to_chars("</wsnt:NotificationMessage>");
        let mut events: Vec<String> = Vec::new();
        let mut from: usize = 0;
        let ghost all = notification_messages(xml@, 0);
        assert(texts(events@) == Seq::<Seq<char>>::empty());
        loop
            invariant
                chars@ == xml@,
                open@ == "<wsnt:NotificationMessage>"@,
                close@ == "</wsnt:NotificationMessage>"@,
                from <= chars.len(),
                all == notification_messages(xml@, 0),
                all == texts(events@) + notification_messages(
                    xml@,
                    from as int,
                ),
            decreases chars.len() - from,
        {
            let ghost done = texts(events@);
            proof {
                reveal_strlit("</wsnt:NotificationMessage>");
            }
            let found = match find_in(&chars, &open, from) {
                Some(start) => match find_in(&chars, &close, start) {
                    Some(end) => {
                        assert(end + close@.len() <= chars@.len());
                        Some((start, end + close.len()))
                    },
                    None => None,
                },
                None => None,
            };
            match found {
                Some((start, end)) => {
                    let mut block: Vec<char> = Vec::new();
                    push_range(&mut block, &chars, start, end);
                    events.push(from_chars(&block));
                    proof {
                        let item = xml@.subrange(start as int, end as int);
                        assert(texts(events@) == done.push(item));
                        assert(done.push(item) + notification_messages(xml@, end as int) == done + (
                        seq![item] + notification_messages(xml@, end as int)));
                    }
                    from = end;
                },
                None => {
                    assert(notification_messages(xml@, from as int) == Seq::<Seq<char>>::empty());
                    assert(all == done);
                    if events.len() == 0 {
                        return None;
                    }
                    return Some(events);
                },
            }
        }
    }

    /// The response to a pull, with the given events and times.
    pub fn build_pull_messages_response(
        events: &Vec<CachedEvent>,
        current_time: &str,
        termination_time: &str,
    ) -> (r: String)
        ensures
            r@ == pull_messages_response(event_views(events@), current_time@, termination_time@),
    {
        let ghost all = event_views(events@);
        let mut messages: Vec<char> = Vec::new();
        let mut k: usize = 0;
        assert(all.take(0) == Seq::<EventView>::empty());
        while k < events.len()
            invariant
                k <= events.len(),
                all == event_views(events@),
                messages@ == messages_text(all.take(k as int)),
            decreases events.len() - k,
        {
            proof {
                let upto = all.take(k + 1);
                assert(upto.drop_last() == all.take(k as int));
                assert(upto.last() == all[k as int]);
            }
            push_str(&mut messages, events[k].event_xml.as_str());
            messages.push('\n');
            k += 1;
        }
        assert(all.take(k as int) == all);
        let mut out: Vec<char> = Vec::new();
        push_str(
            &mut out,
            "<?xml version=\"1.0\" encoding=\"UTF-8\"?>\n<SOAP-ENV:Envelope xmlns:SOAP-ENV=\"http://www.w3.org/2003/05/soap-envelope\" xmlns:tev=\"http://www.onvif.org/ver10/events/wsdl\" xmlns:wsnt=\"http://docs.oasis-open.org/wsn/b-2\" xmlns:tt=\"http://www.onvif.org/ver10/schema\" xmlns:tns1=\"http://www.onvif.org/ver10/topics\">\n<SOAP-ENV:Body>\n<tev:PullMessagesResponse>\n  <tev:CurrentTime>",
        );
        push_str(&mut out, current_time);
        push_str(&mut out, "</tev:CurrentTime>\n  <tev:TerminationTime>");
        push_str(&mut out, termination_time);
        push_str(&mut out, "</tev:TerminationTime>\n  ");
        push_all(&mut out, &messages);
        push_str(
            &mut out,
            "\n</tev:PullMessagesResponse>\n</SOAP-ENV:Body>\n</SOAP-ENV:Envelope>",
        );
        from_chars(&out)
    }

    /// The response to a pull at the instant `now`: `None` where the
    /// calendar lacks that instant or the one ten minutes later.
    pub fn pull_response_at(events: &Vec<CachedEvent>, now: i64) -> (r: Option<String>)
        ensures
            match r {
                Some(xml) => utc_instant(now as int) && utc_instant(
                    later(now as int, SUBSCRIPTION_LIFETIME_MS as int),
                ) && xml@ == pull_messages_response(
                    event_views(events@),
                    rfc3339_seconds_text(now as int),
                    rfc3339_seconds_text(later(now as int, SUBSCRIPTION_LIFETIME_MS as int)),
                ),
                None => !utc_instant(now as int) || !utc_instant(
                    later(now as int, SUBSCRIPTION_LIFETIME_MS as int),
                ),
            },
    {
        let end = instant_after(now, SUBSCRIPTION_LIFETIME_MS);
        match rfc3339_seconds(now) {
            Some(current) => match rfc3339_seconds(end) {
                Some(termination) => Some(
                    EventsService::build_pull_messages_response(
                        events,
                        current.as_str(),
                        termination.as_str(),
                    ),
                ),
                None => None,
            },
            None => None,
        }
    }

    /// The response to a pull at the current time. Whatever instant the
    /// clock read, the answer is the one that `pull_response_of` describes
    /// for it: the response with both times, and `None` only where the
    /// calendar has no instant ten minutes after the one read.
    pub fn pull_response_now(events: &Vec<CachedEvent>) -> (r: Option<String>)
        ensures
            exists|now: int|
                utc_instant(now) && answer_text(r) == #[trigger] pull_response_of(
                    event_views(events@),
                    now,
                ),
    {
        let now = now_millis();
        let r = EventsService::pull_response_at(events, now);
        assert(answer_text(r) == pull_response_of(event_views(events@), now as int));
        r
    }

    /// The address that a camera gave its subscription.
    pub fn extract_subscription_url(xml: &str) -> (r: String)
        ensures
            r@ == subscription_url(xml@),
    {
        let chars = to_chars(xml);
        match between_any_tags(&chars, &addresses()) {
            Some((from, to)) => {
                let mut url: Vec<char> = Vec::new();
                push_range(&mut url, &chars, from, to);
                from_chars(&url)
            },
            None => from_chars(&to_chars("/onvif/event_service")),
        }
    }

    /// Puts `proxy_url` in place of the subscription's address.
    pub fn rewrite_subscription_ref(xml: &str, proxy_url: &str) -> (r: String)
        ensures
            r@ == subscription_ref_rewritten(xml@, proxy_url@),
    {
        let chars = to_chars(xml);
        match between_any_tags(&chars, &addresses()) {
            Some((from, to)) => {
                let mut out: Vec<char> = Vec::new();
                push_range(&mut out, &chars, 0, from);
                push_str(&mut out, proxy_url);
                push_range(&mut out, &chars, to, chars.len());
                assert(chars@.subrange(0, from as int) == chars@.take(from as int));
                assert(chars@.subrange(to as int, chars@.len() as int) == chars@.skip(to as int));
                from_chars(&out)
            },
            None => from_chars(&chars),
        }
    }

    /// The path on the camera under which its subscription is reached.
    pub fn subscription_path_of(camera_subscription_url: &str) -> (r: String)
        ensures
            r@ == subscription_path(camera_subscription_url@),
    {
        let chars = to_chars(camera_subscription_url);
        let marker = to_chars("/onvif/");
        match find_in(&chars, &marker, 0) {
            Some(at) => {
                let mut path: Vec<char> = Vec::new();
                push_range(&mut path, &chars, at, chars.len());
                assert(chars@.subrange(at as int, chars@.len() as int) == chars@.skip(at as int));
                from_chars(&path)
            },
            None => from_chars(&to_chars("/onvif/event_service")),
        }
    }

    /// The notification message for a change of the motion state, observed
    /// at the time written in `utc_time`.
    pub fn motion_event_xml(camera_id: &str, motion_active: bool, utc_time: &str) -> (r: String)
        ensures
            r@ == motion_event(camera_id@, motion_active, utc_time@),
    {
        let mut out: Vec<char> = Vec::new();
        push_str(
            &mut out,
            "<wsnt:NotificationMessage>\n  <wsnt:Topic Dialect=\"http://www.onvif.org/ver10/tev/topicExpression/ConcreteSet\">tns1:RuleEngine/CellMotionDetector/Motion</wsnt:Topic>\n  <wsnt:Message>\n    <tt:Message UtcTime=\"",
        );
        push_str(&mut out, utc_time);
        push_str(
            &mut out,
            "\">\n      <tt:Source>\n        <tt:SimpleItem Name=\"VideoSourceConfigurationToken\" Value=\"",
        );
        push_str(&mut out, camera_id);
        push_str(
            &mut out,
            "\"/>\n        <tt:SimpleItem Name=\"VideoAnalyticsConfigurationToken\" Value=\"",
        );
        push_str(&mut out, camera_id);
        push_str(
            &mut out,
            "\"/>\n        <tt:SimpleItem Name=\"Rule\" Value=\"MotionDetectorRule\"/>\n      </tt:Source>\n      <tt:Data>\n        <tt:SimpleItem Name=\"IsMotion\" Value=\"",
        );
        if motion_active {
            push_str(&mut out, "true");
        } else {
            push_str(&mut out, "false");
        }
        push_str(
            &mut out,
            "\"/>\n      </tt:Data>\n    </tt:Message>\n  </wsnt:Message>\n</wsnt:NotificationMessage>",
        );
        from_chars(&out)
    }

    /// The notification message for a change of the motion state observed now.
    pub fn generate_motion_event(camera_id: &str, motion_active: bool) -> (r: String)
        ensures
            exists|now: int|
                utc_instant(now) && r@ == #[trigger] motion_event(
                    camera_id@,
                    motion_active,
                    rfc3339_millis_text(now),
                ),
    {
        let now = now_millis();
        match rfc3339_millis(now) {
            Some(time) => {
                let event = EventsService::motion_event_xml(
                    camera_id,
                    motion_active,
                    time.as_str(),
                );
                assert(event@ == motion_event(
                    camera_id@,
                    motion_active,
                    rfc3339_millis_text(now as int),
                ));
                event
            },
            None => {
                assert(false);
                String::new()
            },
        }
    }

    /// The address of the motion state query of the camera at `host`.
    pub fn motion_state_query(host: &str, username: &str, password: &str) -> (r: String)
        ensures
            r@ == motion_state_url(host@, username@, password@),
    {
        let mut out: Vec<char> = Vec::new();
        push_str(&mut out, "https://");
        push_str(&mut out, host);
        push_str(&mut out, "/cgi-bin/api.cgi?cmd=GetMdState&channel=0&user=");
        push_str(&mut out, username);
        push_str(&mut out, "&password=");
        push_str(&mut out, password);
        from_chars(&out)
    }

    /// Whether the answer to a motion state query reports motion.
    pub fn parse_motion_state(response_text: &str) -> (r: bool)
        ensures
            r == reports_motion(response_text@),
    {
        let chars = to_chars(response_text);
        includes_str(&chars, "\"state\":1") || includes_str(&chars, "\"state\": 1")
    }
}


/// The table with `subscription` in it: in place of the one that has its
/// reference, or behind all others.
pub open spec fn with_subscription(
    subscriptions: Seq<SubscriptionView>,
    subscription: SubscriptionView,
) -> Seq<SubscriptionView> {
    match index_of(subscriptions, subscription.subscription_ref) {
        Some(i) => subscriptions.update(i, subscription),
        None => subscriptions.push(subscription),
    }
}

/// The table without the subscription that has the reference `reference`.
pub open spec fn without_subscription(
    subscriptions: Seq<SubscriptionView>,
    reference: Seq<char>,
) -> Seq<SubscriptionView> {
    match index_of(subscriptions, reference) {
        Some(i) => subscriptions.remove(i),
        None => subscriptions,
    }
}

/// A subscription as it is created at the instant `now`.
pub open spec fn new_subscription(
    reference: Seq<char>,
    camera_id: Seq<char>,
    camera_subscription_url: Seq<char>,
    now: int,
) -> SubscriptionView {
    SubscriptionView {
        subscription_ref: reference,
        camera_id,
        camera_subscription_url,
        created_at: now,
        expires_at: later(now, SUBSCRIPTION_LIFETIME_MS as int),
        event_cache: Seq::empty(),
        last_poll: now,
    }
}

/// What a client has pulled so far, and until when it waits for more.
/// Times are milliseconds since the Unix epoch.
#[derive(Debug, Clone)]
pub struct PullState {
    /// The events collected so far, oldest first.
    pub events: Vec<CachedEvent>,
    /// How many events the client asked for at most.
    pub limit: usize,
    /// For how many seconds the client is willing to wait.
    pub timeout_secs: i64,
    pub started_at: i64,
    pub deadline: i64,
}

/// The mathematical value of a `PullState`.
pub struct PullStateView {
    pub events: Seq<EventView>,
    pub limit: int,
    pub timeout_secs: int,
    pub started_at: int,
    pub deadline: int,
}

impl View for PullState {
    type V = PullStateView;

    open spec fn view(&self) -> PullStateView {
        PullStateView {
            events: event_views(self.events@),
            limit: self.limit as int,
            timeout_secs: self.timeout_secs as int,
            started_at: self.started_at as int,
            deadline: self.deadline as int,
        }
    }
}

/// What the handler of a pull does next.
#[derive(Debug, Clone, Copy, PartialEq, Eq)]
pub enum PullStep {
    /// Wait `PULL_WAIT_MS` and look again.
    Wait,
    /// Answer with the events collected.
    Respond,
}

/// What a poll did to a subscription.
#[derive(Debug, Clone, Copy, PartialEq, Eq)]
pub enum PollOutcome {
    /// The subscription is gone; its poller has nothing left to do.
    Gone,
    /// The poll was noted and no event was due.
    Quiet,
    /// The poll was noted and an event was cached.
    Cached,
}

/// How many events a client asks for: its limit, and no bound where the
/// limit is negative.
pub open spec fn effective_limit(message_limit: i32) -> int {
    if message_limit < 0 {
        usize::MAX as int
    } else {
        message_limit as int
    }
}

/// Whole seconds from `started_at` to `now`, none where the clock went back.
pub open spec fn elapsed_seconds(started_at: int, now: int) -> int {
    if now <= started_at {
        0
    } else {
        (now - started_at) / 1000
    }
}

/// A pull goes on collecting: it has fewer events than asked for, and its
/// deadline lies ahead.
pub open spec fn pull_is_open(collected: int, limit: int, now: int, deadline: int) -> bool {
    collected < limit && now < deadline
}

/// How many events a pull takes from a cache.
pub open spec fn pull_takes(collected: int, limit: int, cached: int) -> int {
    if limit - collected < cached {
        limit - collected
    } else {
        cached
    }
}

/// What follows a look at the cache: the pull waits while it has nothing
/// and its timeout has not passed.
pub open spec fn pull_decision(collected: int, timeout_secs: int, started_at: int, now: int) -> PullStep {
    if collected == 0 && (timeout_secs < 0 || elapsed_seconds(started_at, now) < timeout_secs) {
        PullStep::Wait
    } else {
        PullStep::Respond
    }
}

/// A pull as it begins at the instant `now`: nothing collected, the limit
/// and timeout of the request, the deadline the timeout away.
pub open spec fn pull_begun(timeout: Seq<char>, message_limit: i32, now: int) -> PullStateView {
    PullStateView {
        events: Seq::empty(),
        limit: effective_limit(message_limit),
        timeout_secs: timeout_seconds(timeout),
        started_at: now,
        deadline: later(now, later(0, timeout_seconds(timeout) * 1000)),
    }
}

/// The table after the subscription `reference` was renewed at `now`: its
/// life ends ten minutes later. An unknown reference changes nothing.
pub open spec fn renewed(
    subscriptions: Seq<SubscriptionView>,
    reference: Seq<char>,
    now: int,
) -> Seq<SubscriptionView> {
    match index_of(subscriptions, reference) {
        Some(i) => subscriptions.update(
            i,
            SubscriptionView {
                expires_at: later(now, SUBSCRIPTION_LIFETIME_MS as int),
                ..subscriptions[i]
            },
        ),
        None => subscriptions,
    }
}

/// The subscriptions whose life has not ended before the instant `now`,
/// in their order.
pub open spec fn unexpired(subscriptions: Seq<SubscriptionView>, now: int) -> Seq<
    SubscriptionView,
>
    decreases subscriptions.len(),
{
    if subscriptions.len() == 0 {
        Seq::empty()
    } else if subscriptions.last().expires_at < now {
        unexpired(subscriptions.drop_last(), now)
    } else {
        unexpired(subscriptions.drop_last(), now).push(subscriptions.last())
    }
}

/// The references of the subscriptions whose life has ended before the
/// instant `now`, in their order.
pub open spec fn expired(subscriptions: Seq<SubscriptionView>, now: int) -> Seq<Seq<char>>
    decreases subscriptions.len(),
{
    if subscriptions.len() == 0 {
        Seq::empty()
    } else if subscriptions.last().expires_at < now {
        expired(subscriptions.drop_last(), now).push(subscriptions.last().subscription_ref)
    } else {
        expired(subscriptions.drop_last(), now)
    }
}

/// One look of a pull at the cache of the subscription `reference`, at the
/// instant `now`, took the table from `before` to `after`, the pull from
/// `state` to `state_after`, and decided `step`.
///
/// A pull that has what it asked for, or whose deadline has passed,
/// answers and takes nothing. Otherwise it takes the oldest events of the
/// cache, as many as it still lacks, in their order; then it waits if it
/// has none and its timeout has not passed, and answers if not.
pub open spec fn pull_stepped(
    before: Seq<SubscriptionView>,
    state: PullStateView,
    reference: Seq<char>,
    now: int,
    after: Seq<SubscriptionView>,
    state_after: PullStateView,
    step: PullStep,
) -> bool {
    &&& state_after.limit == state.limit
    &&& state_after.timeout_secs == state.timeout_secs
    &&& state_after.started_at == state.started_at
    &&& state_after.deadline == state.deadline
    &&& if pull_is_open(state.events.len() as int, state.limit, now, state.deadline) {
        &&& step == pull_decision(
            state_after.events.len() as int,
            state.timeout_secs,
            state.started_at,
            now,
        )
        &&& match index_of(before, reference) {
            Some(i) => {
                let cache = before[i].event_cache;
                let count = pull_takes(state.events.len() as int, state.limit, cache.len() as int);
                &&& state_after.events == state.events + drained(cache, count)
                &&& after == before.update(
                    i,
                    SubscriptionView { event_cache: remaining(cache, count), ..before[i] },
                )
            },
            None => after == before && state_after.events == state.events,
        }
    } else {
        step == PullStep::Respond && after == before && state_after.events == state.events
    }
}

/// A poll of the camera, made at the instant `now`, took the table from
/// `before` to `after` and the poller's memory from `last` to `last_after`,
/// with the outcome `outcome`.
///
/// `observed` is the motion state that the camera reported, or `None`
/// where the query failed. Only a state that differs from the one observed
/// before is an event: its message, stamped `event_time`, goes to the back
/// of the cache, and the oldest events leave a cache over capacity. The
/// time of the last poll is noted in any case. A subscription that is gone
/// leaves table and poller as they are.
pub open spec fn poll_recorded(
    before: Seq<SubscriptionView>,
    last: Option<bool>,
    reference: Seq<char>,
    observed: Option<bool>,
    event_time: Seq<char>,
    now: int,
    after: Seq<SubscriptionView>,
    last_after: Option<bool>,
    outcome: PollOutcome,
) -> bool {
    match index_of(before, reference) {
        None => outcome == PollOutcome::Gone && after == before && last_after == last,
        Some(i) => {
            let was = before[i];
            match observed {
                Some(motion) => {
                    &&& last_after == Some(motion)
                    &&& if is_edge(last, motion) {
                        &&& outcome == PollOutcome::Cached
                        &&& after == before.update(
                            i,
                            SubscriptionView {
                                event_cache: cache_with(
                                    was.event_cache,
                                    EventView {
                                        event_xml: motion_event(was.camera_id, motion, event_time),
                                        received_at: now,
                                    },
                                ),
                                last_poll: now,
                                ..was
                            },
                        )
                    } else {
                        &&& outcome == PollOutcome::Quiet
                        &&& after == before.update(i, SubscriptionView { last_poll: now, ..was })
                    }
                },
                None => {
                    &&& outcome == PollOutcome::Quiet
                    &&& last_after == last
                    &&& after == before.update(i, SubscriptionView { last_poll: now, ..was })
                },
            }
        },
    }
}

impl EventsService {
    /// The subscriptions of the table, in the order of their creation.
    pub closed spec fn view(&self) -> Seq<SubscriptionView> {
        subscription_views(self.subscriptions@)
    }

    /// The table's invariant: references are unique and caches bounded.
    pub open spec fn wf(&self) -> bool {
        well_formed(self.view())
    }

    /// An empty table.
    pub fn new() -> (r: EventsService)
        ensures
            r.view() == Seq::<SubscriptionView>::empty(),
            r.wf(),
    {
        let r = EventsService { subscriptions: Vec::new() };
        assert(subscription_views(r.subscriptions@) == Seq::<SubscriptionView>::empty());
        r
    }

    /// Index of the subscription with the reference `subscription_ref`.
    fn position(&self, subscription_ref: &str) -> (r: Option<usize>)
        ensures
            r matches Some(i) ==> index_of(self.view(), subscription_ref@) == Some(i as int) && i
                < self.subscriptions@.len(),
            r is None ==> index_of(self.view(), subscription_ref@) is None,
    {
        let mut i: usize = 0;
        while i < self.subscriptions.len()
            invariant
                index_of(self.view(), subscription_ref@) == index_from(
                    self.view(),
                    subscription_ref@,
                    i as int,
                ),
            decreases self.subscriptions.len() - i,
        {
            if same_text(self.subscriptions[i]._subscription_ref.as_str(), subscription_ref) {
                return Some(i);
            }
            i += 1;
        }
        None
    }

    /// The subscription with the reference `subscription_ref`.
    pub fn get_subscription(&self, subscription_ref: &str) -> (r: Option<&Subscription>)
        ensures
            match index_of(self.view(), subscription_ref@) {
                Some(i) => r matches Some(s) && s@ == self.view()[i],
                None => r is None,
            },
    {
        match self.position(subscription_ref) {
            Some(i) => Some(&self.subscriptions[i]),
            None => None,
        }
    }

    /// How many subscriptions the table holds.
    pub fn len(&self) -> (r: usize)
        ensures
            r == self.view().len(),
    {
        self.subscriptions.len()
    }

    /// Records a subscription that a camera granted in `response`, under
    /// the reference `subscription_ref`, and returns the response with the
    /// gateway's address of the subscription in place of the camera's.
    pub fn register_subscription(
        &mut self,
        camera_id: &str,
        base_url: &str,
        response: &str,
        subscription_ref: String,
        now: i64,
    ) -> (r: String)
        requires
            old(self).wf(),
        ensures
            final(self).wf(),
            final(self).view() == with_subscription(
                old(self).view(),
                new_subscription(
                    subscription_ref@,
                    camera_id@,
                    subscription_url(response@),
                    now as int,
                ),
            ),
            r@ == subscription_ref_rewritten(
                response@,
                proxy_subscription_url(base_url@, camera_id@, subscription_ref@),
            ),
    {
        let mut proxy_url: Vec<char> = Vec::new();
        push_str(&mut proxy_url, base_url);
        push_str(&mut proxy_url, "/onvif/");
        push_str(&mut proxy_url, camera_id);
        push_str(&mut proxy_url, "/subscription/");
        push_str(&mut proxy_url, subscription_ref.as_str());
        let proxy = from_chars(&proxy_url);
        let fixed = EventsService::rewrite_subscription_ref(response, proxy.as_str());
        let found = self.position(subscription_ref.as_str());
        let subscription = Subscription {
            _subscription_ref: subscription_ref,
            camera_id: from_chars(&to_chars(camera_id)),
            camera_subscription_url: EventsService::extract_subscription_url(response),
            _created_at: now,
            expires_at: instant_after(now, SUBSCRIPTION_LIFETIME_MS),
            event_cache: VecDeque::new(),
            last_poll: now,
        };
        let ghost before = self.view();
        let ghost added = subscription@;
        assert(added.event_cache == Seq::<EventView>::empty());
        proof {
            lemma_index_from(before, added.subscription_ref, 0);
        }
        match found {
            Some(i) => {
                self.subscriptions.set(i, subscription);
                assert(self.view() == before.update(i as int, added));
            },
            None => {
                self.subscriptions.push(subscription);
                assert(self.view() == before.push(added));
            },
        }
        fixed
    }

    /// Records a subscription that a camera granted in `response`, now and
    /// under a fresh reference, and returns the reference with the
    /// rewritten response. Whatever reference was drawn and whatever the
    /// clock read, the table and the response are those that
    /// `register_subscription` makes with them.
    pub fn create_pull_point_subscription(
        &mut self,
        camera_id: &str,
        base_url: &str,
        response: &str,
    ) -> (r: (String, String))
        requires
            old(self).wf(),
        ensures
            final(self).wf(),
            exists|now: int|
                utc_instant(now) && final(self).view() == with_subscription(
                    old(self).view(),
                    #[trigger] new_subscription(
                        r.0@,
                        camera_id@,
                        subscription_url(response@),
                        now,
                    ),
                ),
            r.1@ == subscription_ref_rewritten(
                response@,
                proxy_subscription_url(base_url@, camera_id@, r.0@),
            ),
    {
        let reference = random_uuid().1;
        let now = now_millis();
        let fixed = self.register_subscription(
            camera_id,
            base_url,
            response,
            reference.clone(),
            now,
        );
        let r = (reference, fixed);
        assert(self.view() == with_subscription(
            old(self).view(),
            new_subscription(r.0@, camera_id@, subscription_url(response@), now as int),
        ));
        r
    }

    /// Extends the life of a subscription to ten minutes from `now`, and
    /// says whether the table has it. An unknown reference changes nothing.
    pub fn renew_subscription_at(&mut self, subscription_ref: &str, now: i64) -> (found: bool)
        requires
            old(self).wf(),
        ensures
            final(self).wf(),
            found == index_of(old(self).view(), subscription_ref@) is Some,
            final(self).view() == renewed(old(self).view(), subscription_ref@, now as int),
    {
        let ghost before = self.view();
        match self.position(subscription_ref) {
            Some(i) => {
                let mut subscription = self.subscriptions.remove(i);
                subscription.expires_at = instant_after(now, SUBSCRIPTION_LIFETIME_MS);
                let ghost changed = subscription@;
                self.subscriptions.insert(i, subscription);
                assert(changed == (SubscriptionView {
                    expires_at: later(now as int, SUBSCRIPTION_LIFETIME_MS as int),
                    ..before[i as int]
                }));
                assert(self.view() == before.update(i as int, changed));
                true
            },
            None => false,
        }
    }

    /// Extends the life of a subscription to ten minutes from now, and says
    /// whether the table has it.
    pub fn renew_subscription(&mut self, subscription_ref: &str) -> (found: bool)
        requires
            old(self).wf(),
        ensures
            final(self).wf(),
            found == index_of(old(self).view(), subscription_ref@) is Some,
            exists|now: int|
                utc_instant(now) && final(self).view() == #[trigger] renewed(
                    old(self).view(),
                    subscription_ref@,
                    now,
                ),
    {
        let now = now_millis();
        let found = self.renew_subscription_at(subscription_ref, now);
        assert(self.view() == renewed(old(self).view(), subscription_ref@, now as int));
        found
    }

    /// Removes a subscription, and says whether the table had it.
    pub fn unsubscribe(&mut self, subscription_ref: &str) -> (found: bool)
        requires
            old(self).wf(),
        ensures
            final(self).wf(),
            found == index_of(old(self).view(), subscription_ref@) is Some,
            final(self).view() == without_subscription(old(self).view(), subscription_ref@),
    {
        let ghost before = self.view();
        match self.position(subscription_ref) {
            Some(i) => {
                self.subscriptions.remove(i);
                assert(self.view() == before.remove(i as int));
                true
            },
            None => false,
        }
    }

    /// Removes the subscriptions whose life has ended before the instant
    /// `now`, and returns their references. The poller of a removed
    /// subscription learns of it at its next poll.
    pub fn remove_expired(&mut self, now: i64) -> (removed: Vec<String>)
        requires
            old(self).wf(),
        ensures
            final(self).wf(),
            final(self).view() == unexpired(old(self).view(), now as int),
            texts(removed@) == expired(old(self).view(), now as int),
    {
        let ghost before = self.view();
        let mut removed: Vec<String> = Vec::new();
        let mut i: usize = 0;
        let ghost mut seen: int = 0;
        assert(before.take(0) == Seq::<SubscriptionView>::empty());
        assert(before.skip(0) == before);
        assert(texts(removed@) == Seq::<Seq<char>>::empty());
        while i < self.subscriptions.len()
            invariant
                0 <= seen <= before.len(),
                i <= self.subscriptions@.len(),
                well_formed(self.view()),
                i == unexpired(before.take(seen), now as int).len(),
                self.view() == unexpired(before.take(seen), now as int) + before.skip(seen),
                texts(removed@) == expired(
                    before.take(seen),
                    now as int,
                ),
            decreases before.len() - seen,
        {
            let ghost kept = unexpired(before.take(seen), now as int);
            let ghost gone = texts(removed@);
            let ghost current = self.view();
            proof {
                assert(current[i as int] == before.skip(seen)[0]);
                assert(seen < before.len());
                let upto = before.take(seen + 1);
                assert(upto.drop_last() == before.take(seen));
                assert(upto.last() == before[seen]);
                assert(before.skip(seen).drop_first() == before.skip(seen + 1));
            }
            if self.subscriptions[i].expires_at < now {
                let subscription = self.subscriptions.remove(i);
                removed.push(subscription._subscription_ref);
                proof {
                    assert(self.view() == current.remove(i as int));
                    assert(current.remove(i as int) == kept + before.skip(seen + 1));
                    assert(texts(removed@) == gone.push(
                        before[seen].subscription_ref,
                    ));
                    seen = seen + 1;
                }
            } else {
                proof {
                    assert(current == kept.push(before[seen]) + before.skip(seen + 1));
                    seen = seen + 1;
                }
                i += 1;
            }
        }
        proof {
            assert(seen == before.len()) by {
                if seen < before.len() {
                    assert((unexpired(before.take(seen), now as int) + before.skip(seen)).len()
                        > i);
                }
            }
            assert(before.take(seen) == before);
            assert(before.skip(seen) == Seq::<SubscriptionView>::empty());
        }
        removed
    }

    /// Begins a pull at the instant `now`. `None` where the table has no
    /// such subscription.
    pub fn begin_pull_at(
        &self,
        subscription_ref: &str,
        timeout: &str,
        message_limit: i32,
        now: i64,
    ) -> (r: Option<PullState>)
        ensures
            r is Some <==> index_of(self.view(), subscription_ref@) is Some,
            r matches Some(state) ==> state@ == pull_begun(timeout@, message_limit, now as int),
    {
        match self.position(subscription_ref) {
            Some(_) => {
                let timeout_secs = match EventsService::parse_iso_duration(timeout) {
                    Some(seconds) => seconds,
                    None => 1,
                };
                let limit: usize = if message_limit < 0 {
                    usize::MAX
                } else {
                    message_limit as usize
                };
                let wait: i128 = timeout_secs as i128 * 1000;
                let wait_ms: i64 = if wait > i64::MAX as i128 {
                    i64::MAX
                } else if wait < i64::MIN as i128 {
                    i64::MIN
                } else {
                    wait as i64
                };
                let state = PullState {
                    events: Vec::new(),
                    limit,
                    timeout_secs,
                    started_at: now,
                    deadline: instant_after(now, wait_ms),
                };
                assert(event_views(state.events@) == Seq::<EventView>::empty());
                Some(state)
            },
            None => None,
        }
    }

    /// Begins a pull now. `None` where the table has no such subscription.
    pub fn begin_pull(&self, subscription_ref: &str, timeout: &str, message_limit: i32) -> (r:
        Option<PullState>)
        ensures
            r is Some <==> index_of(self.view(), subscription_ref@) is Some,
            r matches Some(state) ==> exists|now: int|
                utc_instant(now) && state@ == #[trigger] pull_begun(timeout@, message_limit, now),
    {
        let now = now_millis();
        let r = self.begin_pull_at(subscription_ref, timeout, message_limit, now);
        assert(r matches Some(state) ==> state@ == pull_begun(
            timeout@,
            message_limit,
            now as int,
        ));
        r
    }

    /// One look of a pull at its subscription's cache, at the instant `now`.
    pub fn pull_step_at(&mut self, subscription_ref: &str, state: &mut PullState, now: i64) -> (step:
        PullStep)
        requires
            old(self).wf(),
        ensures
            final(self).wf(),
            pull_stepped(
                old(self).view(),
                old(state)@,
                subscription_ref@,
                now as int,
                final(self).view(),
                final(state)@,
                step,
            ),
    {
        let ghost before = self.view();
        let ghost had = event_views(state.events@);
        if !(state.events.len() < state.limit && now < state.deadline) {
            return PullStep::Respond;
        }
        match self.position(subscription_ref) {
            Some(i) => {
                let mut subscription = self.subscriptions.remove(i);
                let ghost cache = event_views(subscription.event_cache@);
                let ghost count = pull_takes(
                    had.len() as int,
                    state.limit as int,
                    cache.len() as int,
                );
                let mut taken: usize = 0;
                assert(event_views(subscription.event_cache@).len()
                    == subscription.event_cache@.len());
                assert(cache.take(0) == Seq::<EventView>::empty());
                assert(cache.skip(0) == cache);
                assert(had + cache.take(0) == had);
                while state.events.len() < state.limit && subscription.event_cache.len() > 0
                    invariant
                        taken <= cache.len(),
                        taken <= count,
                        state.limit == old(state).limit,
                        state.timeout_secs == old(state).timeout_secs,
                        state.started_at == old(state).started_at,
                        state.deadline == old(state).deadline,
                        count == pull_takes(had.len() as int, state.limit as int, cache.len() as int),
                        subscription@ == (SubscriptionView {
                            event_cache: cache.skip(taken as int),
                            ..before[i as int]
                        }),
                        event_views(subscription.event_cache@) == cache.skip(taken as int),
                        subscription.event_cache@.len() == cache.len() - taken,
                        state.events@.len() == had.len() + taken,
                        event_views(state.events@) == had + cache.take(taken as int),
                    decreases cache.len() - taken,
                {
                    let ghost held = event_views(state.events@);
                    let ghost waiting = subscription.event_cache@;
                    proof {
                        lemma_event_views_rest(waiting);
                        assert(cache.skip(taken as int)[0] == cache[taken as int]);
                        assert(cache.skip(taken as int).drop_first() == cache.skip(taken + 1));
                    }
                    match subscription.event_cache.pop_front() {
                        Some(event) => {
                            assert(subscription.event_cache@ == waiting.drop_first());
                            assert(event@ == cache[taken as int]);
                            state.events.push(event);
                            assert(event_views(state.events@) == held.push(cache[taken as int]));
                            assert(cache.take(taken + 1) == cache.take(taken as int).push(
                                cache[taken as int],
                            ));
                            taken += 1;
                        },
                        None => {},
                    }
                }
                assert(taken == count);
                assert(cache.take(taken as int) == drained(cache, count));
                assert(cache.skip(taken as int) == remaining(cache, count));
                let ghost changed = subscription@;
                self.subscriptions.insert(i, subscription);
                assert(self.view() == before.update(i as int, changed));
            },
            None => {},
        }
        let elapsed: i128 = if now <= state.started_at {
            0
        } else {
            (now as i128 - state.started_at as i128) / 1000
        };
        if state.events.len() == 0 && (state.timeout_secs < 0 || elapsed
            < state.timeout_secs as i128) {
            PullStep::Wait
        } else {
            PullStep::Respond
        }
    }

    /// One look of a pull at its subscription's cache, now.
    pub fn pull_step(&mut self, subscription_ref: &str, state: &mut PullState) -> (step: PullStep)
        requires
            old(self).wf(),
        ensures
            final(self).wf(),
            exists|now: int|
                utc_instant(now) && #[trigger] pull_stepped(
                    old(self).view(),
                    old(state)@,
                    subscription_ref@,
                    now,
                    final(self).view(),
                    final(state)@,
                    step,
                ),
    {
        let now = now_millis();
        let step = self.pull_step_at(subscription_ref, state, now);
        assert(pull_stepped(
            old(self).view(),
            old(state)@,
            subscription_ref@,
            now as int,
            self.view(),
            state@,
            step,
        ));
        step
    }

    /// Notes the outcome of a poll of the camera, made at the instant
    /// `now` and stamped `event_time`, for the subscription
    /// `subscription_ref`.
    pub fn record_poll(
        &mut self,
        subscription_ref: &str,
        poller: &mut MotionPoller,
        observed: Option<bool>,
        event_time: &str,
        now: i64,
    ) -> (outcome: PollOutcome)
        requires
            old(self).wf(),
        ensures
            final(self).wf(),
            poll_recorded(
                old(self).view(),
                old(poller).last_motion_state,
                subscription_ref@,
                observed,
                event_time@,
                now as int,
                final(self).view(),
                final(poller).last_motion_state,
                outcome,
            ),
    {
        let ghost before = self.view();
        match self.position(subscription_ref) {
            None => PollOutcome::Gone,
            Some(i) => {
                let mut subscription = self.subscriptions.remove(i);
                let ghost was = subscription@;
                let mut outcome = PollOutcome::Quiet;
                match observed {
                    Some(motion) => {
                        if poller.observe(motion) {
                            let event_xml = EventsService::motion_event_xml(
                                subscription.camera_id.as_str(),
                                motion,
                                event_time,
                            );
                            let event = CachedEvent { event_xml, received_at: now };
                            let ghost pushed = was.event_cache.push(event@);
                            subscription.event_cache.push_back(event);
                            assert(event_views(subscription.event_cache@) == pushed);
                            let ghost mut dropped: int = 0;
                            assert(pushed.skip(0) == pushed);
                            assert(was == before[i as int]);
                            assert(was.event_cache.len() <= CACHE_CAPACITY);
                            assert(event_views(subscription.event_cache@).len()
                                == subscription.event_cache@.len());
                            while subscription.event_cache.len() > CACHE_CAPACITY
                                invariant
                                    0 <= dropped <= pushed.len(),
                                    pushed.len() <= CACHE_CAPACITY + 1,
                                    event_views(subscription.event_cache@) == pushed.skip(dropped),
                                    subscription.event_cache@.len() == pushed.len() - dropped,
                                    dropped > 0 ==> pushed.len() - dropped >= CACHE_CAPACITY,
                                    subscription@ == (SubscriptionView {
                                        event_cache: pushed.skip(dropped),
                                        ..was
                                    }),
                                decreases subscription.event_cache@.len(),
                            {
                                let ghost waiting = subscription.event_cache@;
                                proof {
                                    lemma_event_views_rest(waiting);
                                    assert(pushed.skip(dropped).drop_first() == pushed.skip(
                                        dropped + 1,
                                    ));
                                }
                                subscription.event_cache.pop_front();
                                proof {
                                    assert(subscription.event_cache@ == waiting.drop_first());
                                    dropped = dropped + 1;
                                }
                            }
                            assert(pushed.skip(0) == pushed);
                            assert(event_views(subscription.event_cache@) == cache_with(
                                was.event_cache,
                                pushed.last(),
                            ));
                            outcome = PollOutcome::Cached;
                        }
                    },
                    None => {},
                }
                subscription.last_poll = now;
                let ghost changed = subscription@;
                self.subscriptions.insert(i, subscription);
                assert(self.view() == before.update(i as int, changed));
                assert(changed.subscription_ref == before[i as int].subscription_ref);
                assert(before[i as int].event_cache.len() <= CACHE_CAPACITY);
                assert(changed.event_cache.len() <= CACHE_CAPACITY) by {
                    law_full_cache_drops_oldest(
                        before[i as int].event_cache,
                        changed.event_cache.last(),
                    );
                }
                assert(well_formed(self.view()));
                outcome
            },
        }
    }

    /// Notes the outcome of a poll made now. Whatever the clock read, the
    /// table and the poller are those that `record_poll` makes with that
    /// instant and its text.
    pub fn record_poll_now(
        &mut self,
        subscription_ref: &str,
        poller: &mut MotionPoller,
        observed: Option<bool>,
    ) -> (outcome: PollOutcome)
        requires
            old(self).wf(),
        ensures
            final(self).wf(),
            exists|now: int|
                utc_instant(now) && #[trigger] poll_recorded(
                    old(self).view(),
                    old(poller).last_motion_state,
                    subscription_ref@,
                    observed,
                    rfc3339_millis_text(now),
                    now,
                    final(self).view(),
                    final(poller).last_motion_state,
                    outcome,
                ),
    {
        let now = now_millis();
        match rfc3339_millis(now) {
            Some(time) => {
                let outcome = self.record_poll(
                    subscription_ref,
                    poller,
                    observed,
                    time.as_str(),
                    now,
                );
                assert(poll_recorded(
                    old(self).view(),
                    old(poller).last_motion_state,
                    subscription_ref@,
                    observed,
                    rfc3339_millis_text(now as int),
                    now as int,
                    self.view(),
                    poller.last_motion_state,
                    outcome,
                ));
                outcome
            },
            None => {
                assert(false);
                PollOutcome::Gone
            },
        }
    }
}

impl Default for EventsService {
    fn default() -> (r: EventsService)
        ensures
            r.view() == Seq::<SubscriptionView>::empty(),
            r.wf(),
    {
        EventsService::new()
    }
}

/// The timeout `PT1S` is one second, and `PT2M` two minutes.
pub proof fn lemma_timeout_examples()
    ensures
        timeout_seconds("PT1S"@) == 1,
        timeout_seconds("PT2M"@) == 120,
        timeout_seconds("soon"@) == 1,
{
    reveal_strlit("PT1S");
    reveal_strlit("PT2M");
    reveal_strlit("soon");
    reveal_strlit("PT");
    let one = "PT1S"@;
    let two = "PT2M"@;
    assert(one.subrange(0, 2) =~= "PT"@);
    assert(two.subrange(0, 2) =~= "PT"@);
    let n1 = one.subrange(2, 3);
    let n2 = two.subrange(2, 3);
    assert(n1.drop_last() =~= Seq::<char>::empty());
    assert(n2.drop_last() =~= Seq::<char>::empty());
    assert(digits_value(n1.drop_last()) == Some(0int));
    assert(digits_value(n2.drop_last()) == Some(0int));
    assert(n1.last() == '1');
    assert(n2.last() == '2');
    assert(digits_value(n1) == Some(1int));
    assert(digits_value(n2) == Some(2int));
    assert("soon"@.subrange(0, 2) != "PT"@) by {
        assert("soon"@.subrange(0, 2)[0] == 's');
    }
}

/// A pull from a subscription whose cache stays empty, with the timeout
/// `PT1S`: while less than a second has passed since it began, each look
/// takes nothing and the pull waits; from its deadline on, it answers,
/// with no event.
pub proof fn law_idle_pull_answers_empty_at_its_deadline(started_at: int, now: int, limit: int)
    requires
        limit > 0,
        i64::MIN <= started_at <= i64::MAX - 1000,
        started_at <= now,
    ensures
        ({
            let timeout = timeout_seconds("PT1S"@);
            let deadline = later(started_at, later(0, timeout * 1000));
            &&& timeout == 1
            &&& deadline == started_at + 1000
            &&& now < deadline ==> pull_is_open(0, limit, now, deadline) && pull_takes(
                0,
                limit,
                0,
            ) == 0 && pull_decision(0, timeout, started_at, now) == PullStep::Wait
            &&& now >= deadline ==> !pull_is_open(0, limit, now, deadline)
        }),
{
    lemma_timeout_examples();
}

/// Edge triggering at the table: of two polls in a row that report
/// motion, made for a subscription of the table by a poller that had
/// observed nothing, the first caches one event and the second none.
pub proof fn law_two_like_polls_cache_one_event(
    before: Seq<SubscriptionView>,
    reference: Seq<char>,
    first_time: Seq<char>,
    first_now: int,
    between: Seq<SubscriptionView>,
    first_last: Option<bool>,
    first_outcome: PollOutcome,
    second_time: Seq<char>,
    second_now: int,
    after: Seq<SubscriptionView>,
    second_last: Option<bool>,
    second_outcome: PollOutcome,
)
    requires
        index_of(before, reference) is Some,
        poll_recorded(
            before,
            None,
            reference,
            Some(true),
            first_time,
            first_now,
            between,
            first_last,
            first_outcome,
        ),
        poll_recorded(
            between,
            first_last,
            reference,
            Some(true),
            second_time,
            second_now,
            after,
            second_last,
            second_outcome,
        ),
    ensures
        ({
            let i = index_of(before, reference)->0;
            &&& first_outcome == PollOutcome::Cached
            &&& second_outcome == PollOutcome::Quiet
            &&& between[i].event_cache == cache_with(
                before[i].event_cache,
                EventView {
                    event_xml: motion_event(before[i].camera_id, true, first_time),
                    received_at: first_now,
                },
            )
            &&& after[i].event_cache == between[i].event_cache
        }),
{
    let i = index_of(before, reference)->0;
    lemma_index_from(before, reference, 0);
    lemma_index_from(between, reference, 0);
    assert(between[i].subscription_ref == reference);
    assert forall|j: int| 0 <= j < i implies between[j].subscription_ref != reference by {
        assert(between[j] == before[j]);
    }
    assert(index_of(between, reference) == Some(i));
}

/// A subscription whose camera stays at rest gets no event: polls that
/// report no motion, made by a poller that had observed nothing, leave the
/// cache as it is, so a pull that follows the creation finds nothing.
pub proof fn law_polls_at_rest_cache_nothing(
    before: Seq<SubscriptionView>,
    reference: Seq<char>,
    first_time: Seq<char>,
    first_now: int,
    between: Seq<SubscriptionView>,
    first_last: Option<bool>,
    first_outcome: PollOutcome,
    second_time: Seq<char>,
    second_now: int,
    after: Seq<SubscriptionView>,
    second_last: Option<bool>,
    second_outcome: PollOutcome,
)
    requires
        index_of(before, reference) is Some,
        poll_recorded(
            before,
            None,
            reference,
            Some(false),
            first_time,
            first_now,
            between,
            first_last,
            first_outcome,
        ),
        poll_recorded(
            between,
            first_last,
            reference,
            Some(false),
            second_time,
            second_now,
            after,
            second_last,
            second_outcome,
        ),
    ensures
        ({
            let i = index_of(before, reference)->0;
            &&& first_outcome == PollOutcome::Quiet
            &&& second_outcome == PollOutcome::Quiet
            &&& between[i].event_cache == before[i].event_cache
            &&& after[i].event_cache == before[i].event_cache
        }),
{
    let i = index_of(before, reference)->0;
    lemma_index_from(before, reference, 0);
    lemma_index_from(between, reference, 0);
    assert(between[i].subscription_ref == reference);
    assert forall|j: int| 0 <= j < i implies between[j].subscription_ref != reference by {
        assert(between[j] == before[j]);
    }
    assert(index_of(between, reference) == Some(i));
}

} // verus!

//! Repair rules for cameras of the one supported vendor: missing namespace
//! declarations, proprietary event topics, duplicate declarations.

use crate::text::{
    contains, find, find_from, find_in, from_chars, includes, includes_str, insert_at, inserted,
    lemma_find_from, lemma_find_from_is, lemma_insert_adds_none, lemma_insert_keeps,
    lemma_contains_within, lemma_replace_absent, lemma_replace_around, lemma_replace_hits,
    lemma_replace_keeps, lemma_replace_puts, lemma_trim_start_len,
    matches_at, pair, pair_views, push_all, push_range,
    push_str, replace_all, replace_str, same_text, substitute, substituted, texts, to_chars,
    trim_start, trimmed_start, untouched,
};
use vstd::prelude::*;

verus! {

/// The translator for the supported vendor. It holds no state.
pub struct ReolinkEventTranslator;

/// A translation that could not be made. No rule of this crate fails, so
/// no function returns one; the type keeps the place of the error in the
/// signatures.
#[derive(Debug, Clone)]
pub struct TranslationError {
    pub message: String,
}

/// What declares the namespace prefix `prefix`: `xmlns:prefix=`.
pub open spec fn declaration_key(prefix: Seq<char>) -> Seq<char> {
    "xmlns:"@ + prefix + seq!['=']
}

/// What opens an element with the prefix `prefix`: `<prefix:`.
pub open spec fn element_opening(prefix: Seq<char>) -> Seq<char> {
    seq!['<'] + prefix + seq![':']
}

/// The attribute that binds `prefix` to `uri`, with the space before it.
pub open spec fn declaration(prefix: Seq<char>, uri: Seq<char>) -> Seq<char> {
    seq![' '] + declaration_key(prefix) + seq!['"'] + uri + seq!['"']
}

/// Where a declaration is inserted: at the first `>` at or after the first
/// `<SOAP-ENV:Envelope`. `None` where the document has no such place.
pub open spec fn declaration_point(xml: Seq<char>) -> Option<int> {
    match find(xml, "<SOAP-ENV:Envelope"@) {
        Some(start) => find_from(xml, seq!['>'], start),
        None => None,
    }
}

/// `xml` with `prefix` declared on the envelope's opening tag, or `xml`
/// itself where there is no such tag.
pub open spec fn with_namespace(xml: Seq<char>, prefix: Seq<char>, uri: Seq<char>) -> Seq<char> {
    match declaration_point(xml) {
        Some(at) => insert_at(xml, at, declaration(prefix, uri)),
        None => xml,
    }
}

/// The document uses `marker` and does not declare `prefix`.
pub open spec fn lacks_namespace(xml: Seq<char>, prefix: Seq<char>, marker: Seq<char>) -> bool {
    !contains(xml, declaration_key(prefix)) && contains(xml, marker)
}

/// `xml` with `prefix` declared where it is used and undeclared.
pub open spec fn repaired(xml: Seq<char>, prefix: Seq<char>, uri: Seq<char>) -> Seq<char> {
    if lacks_namespace(xml, prefix, element_opening(prefix)) {
        with_namespace(xml, prefix, uri)
    } else {
        xml
    }
}

/// `repaired` for each entry of `table` in turn.
pub open spec fn repaired_all(xml: Seq<char>, table: Seq<(Seq<char>, Seq<char>)>) -> Seq<char>
    decreases table.len(),
{
    if table.len() == 0 {
        xml
    } else {
        repaired(repaired_all(xml, table.drop_last()), table.last().0, table.last().1)
    }
}

/// The vendor's namespaces: device, media, events, schema, topics, notification.
pub open spec fn namespace_table() -> Seq<(Seq<char>, Seq<char>)> {
    seq![
        ("tds"@, "http://www.onvif.org/ver10/device/wsdl"@),
        ("trt"@, "http://www.onvif.org/ver10/media/wsdl"@),
        ("tev"@, "http://www.onvif.org/ver10/events/wsdl"@),
        ("tt"@, "http://www.onvif.org/ver10/schema"@),
        ("tns1"@, "http://www.onvif.org/ver10/topics"@),
        ("wsnt"@, "http://docs.oasis-open.org/wsn/b-2"@),
    ]
}

/// The namespaces that a device information response uses.
pub open spec fn device_table() -> Seq<(Seq<char>, Seq<char>)> {
    seq![
        ("tds"@, "http://www.onvif.org/ver10/device/wsdl"@),
        ("tt"@, "http://www.onvif.org/ver10/schema"@),
    ]
}

/// The namespaces that a media profile response uses.
pub open spec fn media_table() -> Seq<(Seq<char>, Seq<char>)> {
    seq![
        ("trt"@, "http://www.onvif.org/ver10/media/wsdl"@),
        ("tt"@, "http://www.onvif.org/ver10/schema"@),
    ]
}

/// The vendor's detection events and what stands for them. Whole topics
/// come before the bare event names that they end in, so that a vendor
/// topic becomes the standard motion topic; the vendor's own prefix becomes
/// `tns1`.
pub open spec fn event_table() -> Seq<(Seq<char>, Seq<char>)> {
    seq![
        (
            "tns1:RuleEngine/MyRuleDetector/PeopleDetect"@,
            "tns1:RuleEngine/CellMotionDetector/Motion"@,
        ),
        (
            "tns1:RuleEngine/MyRuleDetector/VehicleDetect"@,
            "tns1:RuleEngine/CellMotionDetector/Motion"@,
        ),
        (
            "tns1:RuleEngine/MyRuleDetector/DogCatDetect"@,
            "tns1:RuleEngine/CellMotionDetector/Motion"@,
        ),
        ("PeopleDetect"@, "Motion"@),
        ("PersonDetection"@, "Motion"@),
        ("VehicleDetect"@, "Motion"@),
        ("VehicleDetection"@, "Motion"@),
        ("DogCatDetect"@, "Motion"@),
        ("PetDetection"@, "Motion"@),
        ("FaceDetect"@, "Motion"@),
        ("FaceDetection"@, "Motion"@),
        ("SmartDetection"@, "Motion"@),
        ("AIDetection"@, "Motion"@),
        ("xmlns:reo="@, "xmlns:tns1="@),
        ("<reo:"@, "<tns1:"@),
        ("</reo:"@, "</tns1:"@),
    ]
}

/// `xml` with the topics namespace declared where `tns1:` is used and
/// undeclared.
pub open spec fn with_topics_namespace(xml: Seq<char>) -> Seq<char> {
    if lacks_namespace(xml, "tns1"@, "tns1:"@) {
        with_namespace(xml, "tns1"@, "http://www.onvif.org/ver10/topics"@)
    } else {
        xml
    }
}

/// `xml` with a `State` item at the end of every data block, where the
/// document speaks of motion and names no state. The item is written as
/// the block is: with the schema prefix behind `</tt:Data>`'s content,
/// without one in a block that closes with `</Data>`.
pub open spec fn with_state_item(xml: Seq<char>) -> Seq<char> {
    if contains(xml, "Motion"@) && !contains(xml, "State"@) {
        replace_all(
            replace_all(
                xml,
                "</tt:Data>"@,
                "<tt:SimpleItem Name=\"State\" Value=\"true\"/></tt:Data>"@,
            ),
            "</Data>"@,
            "<SimpleItem Name=\"State\" Value=\"true\"/></Data>"@,
        )
    } else {
        xml
    }
}

/// The event topic remapping: the event table, then the topics namespace,
/// then the state item.
pub open spec fn smart_events(xml: Seq<char>) -> Seq<char> {
    with_state_item(with_topics_namespace(substituted(xml, event_table())))
}

/// Where the declaration that starts at `start` ends: just after the
/// second `"` that follows. `None` where fewer than two follow.
pub open spec fn declaration_end(xml: Seq<char>, start: int) -> Option<int> {
    match find_from(xml, seq!['"'], start) {
        Some(first) => match find_from(xml, seq!['"'], first + 1) {
            Some(second) => Some(second + 1),
            None => None,
        },
        None => None,
    }
}

/// A declaration ends after it starts, inside the document.
pub proof fn lemma_declaration_end(xml: Seq<char>, start: int)
    ensures
        declaration_end(xml, start) matches Some(end) ==> 0 <= start && start + 2 <= end
            <= xml.len(),
{
    let quote = seq!['"'];
    if start >= 0 {
        lemma_find_from(xml, quote, start);
        if find_from(xml, quote, start) is Some {
            lemma_find_from(xml, quote, find_from(xml, quote, start)->0 + 1);
        }
    }
}

/// `xml` without the declarations of `key` that start at or after `from`,
/// each cut out together with the white space behind it. The cutting stops
/// at a declaration that has no quoted value.
pub open spec fn without_declarations(xml: Seq<char>, key: Seq<char>, from: int) -> Seq<char>
    decreases xml.len(),
{
    match find_from(xml, key, from) {
        Some(start) => match declaration_end(xml, start) {
            Some(end) => {
                proof {
                    lemma_declaration_end(xml, start);
                    lemma_trim_start_len(xml.skip(end));
                }
                without_declarations(xml.take(start) + trim_start(xml.skip(end)), key, start)
            },
            None => xml,
        },
        None => xml,
    }
}

/// `xml` with only the first declaration of `prefix` kept.
pub open spec fn deduplicated(xml: Seq<char>, prefix: Seq<char>) -> Seq<char> {
    let key = declaration_key(prefix);
    match find(xml, key) {
        Some(first) => match declaration_end(xml, first) {
            Some(end) => without_declarations(xml, key, end),
            None => xml,
        },
        None => xml,
    }
}

/// `deduplicated` for each of `prefixes` in turn.
pub open spec fn deduplicated_all(xml: Seq<char>, prefixes: Seq<Seq<char>>) -> Seq<char>
    decreases prefixes.len(),
{
    if prefixes.len() == 0 {
        xml
    } else {
        deduplicated(deduplicated_all(xml, prefixes.drop_last()), prefixes.last())
    }
}

/// The prefixes whose declarations are deduplicated.
pub open spec fn deduplicated_prefixes() -> Seq<Seq<char>> {
    seq!["tds"@, "trt"@, "tev"@, "tt"@, "tns1"@, "wsnt"@, "SOAP-ENV"@]
}

/// What one named quirk makes of `xml`. An unknown name changes nothing.
pub open spec fn quirk_applied(xml: Seq<char>, quirk: Seq<char>) -> Seq<char> {
    if quirk == "fix_device_info_namespace"@ {
        repaired_all(xml, device_table())
    } else if quirk == "normalize_media_profiles"@ {
        repaired_all(xml, media_table())
    } else if quirk == "translate_smart_events"@ {
        smart_events(xml)
    } else if quirk == "add_missing_namespaces"@ {
        repaired_all(xml, namespace_table())
    } else {
        xml
    }
}

/// What the quirks of `quirks`, applied in order, make of `xml`.
pub open spec fn quirks_applied(xml: Seq<char>, quirks: Seq<Seq<char>>) -> Seq<char>
    decreases quirks.len(),
{
    if quirks.len() == 0 {
        xml
    } else {
        quirk_applied(quirks_applied(xml, quirks.drop_last()), quirks.last())
    }
}


/// The executable form of `declaration_key`.
fn key_of(prefix: &str) -> (r: Vec<char>)
    ensures
        r@ == declaration_key(prefix@),
{
    let mut key: Vec<char> = Vec::new();
    push_str(&mut key, "xmlns:");
    push_str(&mut key, prefix);
    key.push('=');
    key
}

/// The executable form of `element_opening`.
fn opening_of(prefix: &str) -> (r: Vec<char>)
    ensures
        r@ == element_opening(prefix@),
{
    let mut opening: Vec<char> = Vec::new();
    opening.push('<');
    push_str(&mut opening, prefix);
    opening.push(':');
    opening
}

/// The executable form of `declaration_point`.
fn point_of(xml: &Vec<char>) -> (r: Option<usize>)
    ensures
        r matches Some(at) ==> declaration_point(xml@) == Some(at as int) && at < xml@.len(),
        r is None ==> declaration_point(xml@) is None,
{
    let tag = to_chars("<SOAP-ENV:Envelope");
    let close: Vec<char> = vec!['>'];
    assert(close@ == seq!['>']);
    match find_in(xml, &tag, 0) {
        Some(start) => {
            let at = find_in(xml, &close, start);
            assert(at matches Some(a) ==> a + close@.len() <= xml@.len());
            at
        },
        None => None,
    }
}

/// `xml` with `prefix` declared on the envelope's opening tag.
fn declare(xml: Vec<char>, prefix: &str, uri: &str) -> (r: Vec<char>)
    ensures
        r@ == with_namespace(xml@, prefix@, uri@),
{
    match point_of(&xml) {
        Some(at) => {
            let mut decl: Vec<char> = Vec::new();
            decl.push(' ');
            let key = key_of(prefix);
            push_all(&mut decl, &key);
            decl.push('"');
            push_str(&mut decl, uri);
            decl.push('"');
            assert(decl@ == declaration(prefix@, uri@));
            inserted(&xml, at, &decl)
        },
        None => xml,
    }
}

/// `xml` with `prefix` declared where it is used and undeclared.
fn repair(xml: Vec<char>, prefix: &str, uri: &str) -> (r: Vec<char>)
    ensures
        r@ == repaired(xml@, prefix@, uri@),
{
    let key = key_of(prefix);
    let opening = opening_of(prefix);
    if !includes(&xml, &key) && includes(&xml, &opening) {
        declare(xml, prefix, uri)
    } else {
        xml
    }
}

/// `repair` for each entry of `table` in turn.
fn repair_all(xml: Vec<char>, table: &Vec<(String, String)>) -> (r: Vec<char>)
    ensures
        r@ == repaired_all(xml@, pair_views(table@)),
{
    let ghost all = pair_views(table@);
    let ghost start = xml@;
    let mut cur = xml;
    let mut k: usize = 0;
    assert(all.take(0) == Seq::<(Seq<char>, Seq<char>)>::empty());
    while k < table.len()
        invariant
            k <= table.len(),
            all == pair_views(table@),
            cur@ == repaired_all(start, all.take(k as int)),
        decreases table.len() - k,
    {
        proof {
            let upto = all.take(k + 1);
            assert(upto.drop_last() == all.take(k as int));
            assert(upto.last() == all[k as int]);
        }
        cur = repair(cur, table[k].0.as_str(), table[k].1.as_str());
        k += 1;
    }
    assert(all.take(k as int) == all);
    cur
}

/// The executable form of `namespace_table`.
fn namespaces() -> (r: Vec<(String, String)>)
    ensures
        pair_views(r@) == namespace_table(),
{
    let mut table: Vec<(String, String)> = Vec::new();
    table.push(pair("tds", "http://www.onvif.org/ver10/device/wsdl"));
    table.push(pair("trt", "http://www.onvif.org/ver10/media/wsdl"));
    table.push(pair("tev", "http://www.onvif.org/ver10/events/wsdl"));
    table.push(pair("tt", "http://www.onvif.org/ver10/schema"));
    table.push(pair("tns1", "http://www.onvif.org/ver10/topics"));
    table.push(pair("wsnt", "http://docs.oasis-open.org/wsn/b-2"));
    assert(pair_views(table@) == namespace_table());
    table
}

/// The executable form of `device_table`.
fn device_namespaces() -> (r: Vec<(String, String)>)
    ensures
        pair_views(r@) == device_table(),
{
    let mut table: Vec<(String, String)> = Vec::new();
    table.push(pair("tds", "http://www.onvif.org/ver10/device/wsdl"));
    table.push(pair("tt", "http://www.onvif.org/ver10/schema"));
    assert(pair_views(table@) == device_table());
    table
}

/// The executable form of `media_table`.
fn media_namespaces() -> (r: Vec<(String, String)>)
    ensures
        pair_views(r@) == media_table(),
{
    let mut table: Vec<(String, String)> = Vec::new();
    table.push(pair("trt", "http://www.onvif.org/ver10/media/wsdl"));
    table.push(pair("tt", "http://www.onvif.org/ver10/schema"));
    assert(pair_views(table@) == media_table());
    table
}

/// The executable form of `event_table`.
fn events() -> (r: Vec<(String, String)>)
    ensures
        pair_views(r@) == event_table(),
{
    let motion = "tns1:RuleEngine/CellMotionDetector/Motion";
    let mut table: Vec<(String, String)> = Vec::new();
    table.push(pair("tns1:RuleEngine/MyRuleDetector/PeopleDetect", motion));
    table.push(pair("tns1:RuleEngine/MyRuleDetector/VehicleDetect", motion));
    table.push(pair("tns1:RuleEngine/MyRuleDetector/DogCatDetect", motion));
    table.push(pair("PeopleDetect", "Motion"));
    table.push(pair("PersonDetection", "Motion"));
    table.push(pair("VehicleDetect", "Motion"));
    table.push(pair("VehicleDetection", "Motion"));
    table.push(pair("DogCatDetect", "Motion"));
    table.push(pair("PetDetection", "Motion"));
    table.push(pair("FaceDetect", "Motion"));
    table.push(pair("FaceDetection", "Motion"));
    table.push(pair("SmartDetection", "Motion"));
    table.push(pair("AIDetection", "Motion"));
    table.push(pair("xmlns:reo=", "xmlns:tns1="));
    table.push(pair("<reo:", "<tns1:"));
    table.push(pair("</reo:", "</tns1:"));
    assert(pair_views(table@) == event_table());
    table
}

/// The executable form of `smart_events`.
fn remap_events(xml: Vec<char>) -> (r: Vec<char>)
    ensures
        r@ == smart_events(xml@),
{
    let table = events();
    let mapped = substitute(xml, &table);
    let key = key_of("tns1");
    let declared = if !includes(&mapped, &key) && includes_str(&mapped, "tns1:") {
        declare(mapped, "tns1", "http://www.onvif.org/ver10/topics")
    } else {
        mapped
    };
    if includes_str(&declared, "Motion") && !includes_str(&declared, "State") {
        let prefixed = replace_str(
            &declared,
            "</tt:Data>",
            "<tt:SimpleItem Name=\"State\" Value=\"true\"/></tt:Data>",
        );
        replace_str(&prefixed, "</Data>", "<SimpleItem Name=\"State\" Value=\"true\"/></Data>")
    } else {
        declared
    }
}

/// The executable form of `declaration_end`.
fn end_of_declaration(xml: &Vec<char>, start: usize) -> (r: Option<usize>)
    ensures
        r matches Some(end) ==> declaration_end(xml@, start as int) == Some(end as int) && start
            < end <= xml@.len(),
        r is None ==> declaration_end(xml@, start as int) is None,
{
    let quote: Vec<char> = vec!['"'];
    assert(quote@ == seq!['"']);
    assert(quote@.len() == 1);
    match find_in(xml, &quote, start) {
        Some(first) => {
            assert(first + quote@.len() <= xml@.len());
            assert(first + 1 <= xml.len());
            match find_in(xml, &quote, first + 1) {
                Some(second) => {
                    assert(second + quote@.len() <= xml@.len());
                    assert(second + 1 <= xml.len());
                    Some(second + 1)
                },
                None => None,
            }
        },
        None => None,
    }
}

/// The executable form of `without_declarations`.
fn cut_declarations(xml: Vec<char>, key: &Vec<char>, from: usize) -> (r: Vec<char>)
    ensures
        r@ == without_declarations(xml@, key@, from as int),
{
    let ghost wanted = without_declarations(xml@, key@, from as int);
    let mut cur = xml;
    let mut at = from;
    loop
        invariant
            wanted == without_declarations(xml@, key@, from as int),
            wanted == without_declarations(cur@, key@, at as int),
        decreases cur@.len(),
    {
        match find_in(&cur, key, at) {
            None => {
                return cur;
            },
            Some(start) => {
                match end_of_declaration(&cur, start) {
                    None => {
                        return cur;
                    },
                    Some(end) => {
                        let rest = trimmed_start(&cur, end);
                        let mut next: Vec<char> = Vec::new();
                        push_range(&mut next, &cur, 0, start);
                        push_all(&mut next, &rest);
                        proof {
                            assert(cur@.subrange(0, start as int) == cur@.take(start as int));
                            lemma_trim_start_len(cur@.skip(end as int));
                        }
                        cur = next;
                        at = start;
                    },
                }
            },
        }
    }
}

/// The executable form of `deduplicated`.
fn dedupe(xml: Vec<char>, prefix: &str) -> (r: Vec<char>)
    ensures
        r@ == deduplicated(xml@, prefix@),
{
    let key = key_of(prefix);
    match find_in(&xml, &key, 0) {
        Some(first) => match end_of_declaration(&xml, first) {
            Some(end) => cut_declarations(xml, &key, end),
            None => xml,
        },
        None => xml,
    }
}

/// The executable form of `deduplicated_all` over `deduplicated_prefixes`.
fn dedupe_all(xml: Vec<char>) -> (r: Vec<char>)
    ensures
        r@ == deduplicated_all(xml@, deduplicated_prefixes()),
{
    let mut prefixes: Vec<String> = Vec::new();
    prefixes.push(from_chars(&to_chars("tds")));
    prefixes.push(from_chars(&to_chars("trt")));
    prefixes.push(from_chars(&to_chars("tev")));
    prefixes.push(from_chars(&to_chars("tt")));
    prefixes.push(from_chars(&to_chars("tns1")));
    prefixes.push(from_chars(&to_chars("wsnt")));
    prefixes.push(from_chars(&to_chars("SOAP-ENV")));
    let ghost all = texts(prefixes@);
    assert(all == deduplicated_prefixes());
    let ghost start = xml@;
    let mut cur = xml;
    let mut k: usize = 0;
    assert(all.take(0) == Seq::<Seq<char>>::empty());
    while k < prefixes.len()
        invariant
            k <= prefixes.len(),
            all == texts(prefixes@),
            cur@ == deduplicated_all(start, all.take(k as int)),
        decreases prefixes.len() - k,
    {
        proof {
            let upto = all.take(k + 1);
            assert(upto.drop_last() == all.take(k as int));
            assert(upto.last() == all[k as int]);
        }
        cur = dedupe(cur, prefixes[k].as_str());
        k += 1;
    }
    assert(all.take(k as int) == all);
    cur
}

/// The executable form of `quirk_applied`.
fn apply_quirk(xml: Vec<char>, quirk: &str) -> (r: Vec<char>)
    ensures
        r@ == quirk_applied(xml@, quirk@),
{
    if same_text(quirk, "fix_device_info_namespace") {
        repair_all(xml, &device_namespaces())
    } else if same_text(quirk, "normalize_media_profiles") {
        repair_all(xml, &media_namespaces())
    } else if same_text(quirk, "translate_smart_events") {
        remap_events(xml)
    } else if same_text(quirk, "add_missing_namespaces") {
        repair_all(xml, &namespaces())
    } else {
        xml
    }
}

impl ReolinkEventTranslator {
    /// Whether `quirk` names a rule of this translator.
    pub fn knows_quirk(quirk: &str) -> (r: bool)
        ensures
            r == (quirk@ == "fix_device_info_namespace"@ || quirk@ == "normalize_media_profiles"@
                || quirk@ == "translate_smart_events"@ || quirk@ == "add_missing_namespaces"@),
    {
        same_text(quirk, "fix_device_info_namespace") || same_text(
            quirk,
            "normalize_media_profiles",
        ) || same_text(quirk, "translate_smart_events") || same_text(
            quirk,
            "add_missing_namespaces",
        )
    }

    /// Applies the named quirks to `xml`, in order. An unknown name is
    /// skipped. The translation never fails.
    pub fn translate_response(xml: &str, quirks: &[String]) -> (r: Result<
        String,
        TranslationError,
    >)
        ensures
            r matches Ok(out) && out@ == quirks_applied(xml@, texts(quirks@)),
    {
        let ghost all = texts(quirks@);
        let mut cur = to_chars(xml);
        let mut k: usize = 0;
        assert(all.take(0) == Seq::<Seq<char>>::empty());
        while k < quirks.len()
            invariant
                k <= quirks.len(),
                all == texts(quirks@),
                cur@ == quirks_applied(xml@, all.take(k as int)),
            decreases quirks.len() - k,
        {
            proof {
                let upto = all.take(k + 1);
                assert(upto.drop_last() == all.take(k as int));
                assert(upto.last() == all[k as int]);
            }
            cur = apply_quirk(cur, quirks[k].as_str());
            k += 1;
        }
        assert(all.take(k as int) == all);
        Ok(from_chars(&cur))
    }

    /// Declares the device and schema namespaces where a device
    /// information response uses them undeclared.
    pub fn fix_device_info_namespace(xml: &str) -> (r: String)
        ensures
            r@ == repaired_all(xml@, device_table()),
    {
        from_chars(&repair_all(to_chars(xml), &device_namespaces()))
    }

    /// Declares the media and schema namespaces where a profile response
    /// uses them undeclared.
    pub fn normalize_media_profiles(xml: &str) -> (r: String)
        ensures
            r@ == repaired_all(xml@, media_table()),
    {
        from_chars(&repair_all(to_chars(xml), &media_namespaces()))
    }

    /// Replaces the vendor's detection events by the standard motion
    /// topic, declares the topics namespace and adds the state item.
    pub fn translate_smart_events(xml: &str) -> (r: String)
        ensures
            r@ == smart_events(xml@),
    {
        from_chars(&remap_events(to_chars(xml)))
    }

    /// Declares each namespace of the vendor table that the document uses
    /// undeclared.
    pub fn add_missing_namespaces(xml: &str) -> (r: String)
        ensures
            r@ == repaired_all(xml@, namespace_table()),
    {
        from_chars(&repair_all(to_chars(xml), &namespaces()))
    }

    /// Declares `prefix` as `uri` on the envelope's opening tag; a
    /// document without that tag is returned as it is.
    pub fn add_namespace(xml: &str, prefix: &str, uri: &str) -> (r: String)
        ensures
            r@ == with_namespace(xml@, prefix@, uri@),
    {
        from_chars(&declare(to_chars(xml), prefix, uri))
    }

    /// Declares what is missing, then drops repeated declarations.
    pub fn fix_namespace_errors(xml: &str) -> (r: String)
        ensures
            r@ == deduplicated_all(
                repaired_all(xml@, namespace_table()),
                deduplicated_prefixes(),
            ),
    {
        from_chars(&dedupe_all(repair_all(to_chars(xml), &namespaces())))
    }

    /// Keeps the first declaration of each known prefix and cuts out the
    /// later ones.
    pub fn remove_duplicate_namespaces(xml: &str) -> (r: String)
        ensures
            r@ == deduplicated_all(xml@, deduplicated_prefixes()),
    {
        from_chars(&dedupe_all(to_chars(xml)))
    }
}


/// Text without angle brackets and spaces.
pub open spec fn plain(text: Seq<char>) -> bool {
    forall|i: int| 0 <= i < text.len() ==> text[i] != '<' && text[i] != '>' && text[i] != ' '
}

/// A table of plain prefixes and plain addresses.
pub open spec fn plain_table(table: Seq<(Seq<char>, Seq<char>)>) -> bool {
    forall|i: int| 0 <= i < table.len() ==> plain((#[trigger] table[i]).0) && plain(table[i].1)
}

/// The document declares `prefix` or does not use it.
pub open spec fn settled(xml: Seq<char>, prefix: Seq<char>) -> bool {
    !lacks_namespace(xml, prefix, element_opening(prefix))
}

/// The key of a plain prefix has no angle bracket and no space.
proof fn lemma_key_is_plain(prefix: Seq<char>)
    requires
        plain(prefix),
    ensures
        plain(declaration_key(prefix)),
{
    reveal_strlit("xmlns:");
    let head = "xmlns:"@;
    let key = declaration_key(prefix);
    assert forall|i: int| 0 <= i < key.len() implies key[i] != '<' && key[i] != '>' && key[i]
        != ' ' by {
        if i < head.len() {
            assert(key[i] == head[i]);
        } else if i < head.len() + prefix.len() {
            assert(key[i] == prefix[i - head.len()]);
        } else {
            assert(key[i] == '=');
        }
    }
}

/// A declaration of plain parts begins with a space and has no angle bracket.
proof fn lemma_declaration_shape(prefix: Seq<char>, uri: Seq<char>)
    requires
        plain(prefix),
        plain(uri),
    ensures
        declaration(prefix, uri).len() > 0,
        declaration(prefix, uri)[0] == ' ',
        !declaration(prefix, uri).contains('<'),
        !declaration(prefix, uri).contains('>'),
        matches_at(declaration(prefix, uri), declaration_key(prefix), 1),
{
    lemma_key_is_plain(prefix);
    let key = declaration_key(prefix);
    let decl = declaration(prefix, uri);
    assert(decl.subrange(1, 1 + key.len() as int) == key);
    assert forall|i: int| 0 <= i < decl.len() implies decl[i] != '<' && decl[i] != '>' by {
        if i == 0 {
        } else if i < 1 + key.len() {
            assert(decl[i] == key[i - 1]);
        } else if i == 1 + key.len() {
        } else if i < 2 + key.len() + uri.len() {
            assert(decl[i] == uri[i - 2 - key.len()]);
        } else {
        }
    }
}

/// At the declaration point stands a `>`, behind the envelope's name.
proof fn lemma_declaration_point(xml: Seq<char>)
    requires
        declaration_point(xml) is Some,
    ensures
        find(xml, "<SOAP-ENV:Envelope"@) is Some,
        ({
            let start = find(xml, "<SOAP-ENV:Envelope"@)->0;
            let at = declaration_point(xml)->0;
            &&& matches_at(xml, "<SOAP-ENV:Envelope"@, start)
            &&& forall|j: int| 0 <= j < start ==> !matches_at(xml, "<SOAP-ENV:Envelope"@, j)
            &&& start + "<SOAP-ENV:Envelope"@.len() <= at < xml.len()
            &&& xml[at] == '>'
            &&& forall|j: int| start <= j < at ==> xml[j] != '>'
        }),
{
    reveal_strlit("<SOAP-ENV:Envelope");
    let tag = "<SOAP-ENV:Envelope"@;
    let close = seq!['>'];
    lemma_find_from(xml, tag, 0);
    let start = find(xml, tag)->0;
    lemma_find_from(xml, close, start);
    let at = declaration_point(xml)->0;
    assert(xml.subrange(at, at + 1)[0] == '>');
    assert forall|j: int| start <= j < at implies xml[j] != '>' by {
        if xml[j] == '>' {
            assert(xml.subrange(j, j + 1) == close);
            assert(matches_at(xml, close, j));
        }
    }
    if at < start + tag.len() {
        assert(xml.subrange(start, start + tag.len())[at - start] == xml[at]);
        assert(tag[at - start] == '>');
    }
}

/// A document that has a declaration point keeps one when text without `>`
/// is inserted there.
proof fn lemma_point_survives(xml: Seq<char>, ins: Seq<char>)
    requires
        declaration_point(xml) is Some,
        !ins.contains('>'),
    ensures
        declaration_point(insert_at(xml, declaration_point(xml)->0, ins)) == Some(
            declaration_point(xml)->0 + ins.len(),
        ),
{
    let tag = "<SOAP-ENV:Envelope"@;
    let close = seq!['>'];
    lemma_declaration_point(xml);
    let start = find(xml, tag)->0;
    let at = declaration_point(xml)->0;
    let new = insert_at(xml, at, ins);
    assert(new.subrange(start, start + tag.len()) == xml.subrange(start, start + tag.len()));
    assert forall|j: int| 0 <= j < start implies !matches_at(new, tag, j) by {
        assert(!matches_at(xml, tag, j));
        assert(j + tag.len() <= at);
        assert(new.subrange(j, j + tag.len()) == xml.subrange(j, j + tag.len()));
    }
    lemma_find_from_is(new, tag, 0, start);
    let moved = at + ins.len();
    assert(new.subrange(moved, moved + 1) == close);
    assert forall|j: int| start <= j < moved implies !matches_at(new, close, j) by {
        if matches_at(new, close, j) {
            assert(new.subrange(j, j + 1)[0] == '>');
            if j < at {
                assert(new[j] == xml[j]);
            } else {
                assert(new[j] == ins[j - at]);
                assert(ins.contains('>'));
            }
        }
    }
    lemma_find_from_is(new, close, start, moved);
}

/// After its own repair a prefix is settled, where the document has a
/// declaration point.
proof fn lemma_repair_settles(xml: Seq<char>, prefix: Seq<char>, uri: Seq<char>)
    requires
        plain(prefix),
        plain(uri),
        declaration_point(xml) is Some,
    ensures
        settled(repaired(xml, prefix, uri), prefix),
{
    if lacks_namespace(xml, prefix, element_opening(prefix)) {
        let at = declaration_point(xml)->0;
        let decl = declaration(prefix, uri);
        let key = declaration_key(prefix);
        let new = insert_at(xml, at, decl);
        lemma_declaration_point(xml);
        lemma_declaration_shape(prefix, uri);
        assert(new.subrange(at + 1, at + 1 + key.len()) == decl.subrange(1, 1 + key.len() as int));
        assert(matches_at(new, key, at + 1));
        crate::text::lemma_find_from_some(new, key, 0, at + 1);
    }
}

/// The repair of one prefix leaves a settled prefix settled.
proof fn lemma_repair_keeps_settled(
    xml: Seq<char>,
    prefix: Seq<char>,
    other: Seq<char>,
    uri: Seq<char>,
)
    requires
        plain(prefix),
        plain(other),
        plain(uri),
        settled(xml, prefix),
    ensures
        settled(repaired(xml, other, uri), prefix),
{
    if lacks_namespace(xml, other, element_opening(other)) && declaration_point(xml) is Some {
        let at = declaration_point(xml)->0;
        let decl = declaration(other, uri);
        lemma_declaration_point(xml);
        lemma_declaration_shape(other, uri);
        if contains(xml, declaration_key(prefix)) {
            lemma_key_is_plain(prefix);
            let key = declaration_key(prefix);
            if key.contains('>') {
                let i = choose|i: int| 0 <= i < key.len() && key[i] == '>';
                assert(key[i] != '>');
            }
            lemma_insert_keeps(xml, at, decl, key);
        } else {
            let opening = element_opening(prefix);
            assert(opening[0] == '<');
            assert forall|k: int| 1 <= k < opening.len() implies opening[k] != decl[0] by {
                if k < 1 + prefix.len() {
                    assert(opening[k] == prefix[k - 1]);
                }
            }
            lemma_insert_adds_none(xml, at, decl, opening);
        }
    }
}

/// The repair of one prefix keeps the declaration point.
proof fn lemma_repair_keeps_point(xml: Seq<char>, prefix: Seq<char>, uri: Seq<char>)
    requires
        plain(prefix),
        plain(uri),
    ensures
        declaration_point(xml) is Some ==> declaration_point(repaired(xml, prefix, uri)) is Some,
        declaration_point(xml) is None ==> repaired(xml, prefix, uri) == xml,
{
    if declaration_point(xml) is Some && lacks_namespace(xml, prefix, element_opening(prefix)) {
        lemma_declaration_shape(prefix, uri);
        lemma_point_survives(xml, declaration(prefix, uri));
    }
}

/// After the repair of a table every prefix of it is settled, where the
/// document has a declaration point; a document without one is unchanged.
proof fn lemma_repair_settles_all(xml: Seq<char>, table: Seq<(Seq<char>, Seq<char>)>)
    requires
        plain_table(table),
    ensures
        declaration_point(xml) is None ==> repaired_all(xml, table) == xml,
        declaration_point(xml) is Some ==> declaration_point(repaired_all(xml, table)) is Some,
        declaration_point(xml) is Some ==> forall|i: int|
            0 <= i < table.len() ==> settled(repaired_all(xml, table), (#[trigger] table[i]).0),
    decreases table.len(),
{
    if table.len() > 0 {
        let front = table.drop_last();
        let (prefix, uri) = table.last();
        let before = repaired_all(xml, front);
        assert(plain_table(front)) by {
            assert forall|i: int| 0 <= i < front.len() implies plain((#[trigger] front[i]).0)
                && plain(front[i].1) by {
                assert(front[i] == table[i]);
            }
        }
        assert(plain(table[table.len() - 1].0) && plain(table[table.len() - 1].1));
        lemma_repair_settles_all(xml, front);
        lemma_repair_keeps_point(before, prefix, uri);
        if declaration_point(xml) is Some {
            lemma_repair_settles(before, prefix, uri);
            assert forall|i: int| 0 <= i < table.len() implies settled(
                repaired_all(xml, table),
                (#[trigger] table[i]).0,
            ) by {
                if i < front.len() {
                    assert(front[i] == table[i]);
                    lemma_repair_keeps_settled(before, table[i].0, prefix, uri);
                }
            }
        }
    }
}

/// The repair of a table changes nothing where every prefix is settled.
proof fn lemma_settled_is_fixed(xml: Seq<char>, table: Seq<(Seq<char>, Seq<char>)>)
    requires
        forall|i: int| 0 <= i < table.len() ==> settled(xml, (#[trigger] table[i]).0),
    ensures
        repaired_all(xml, table) == xml,
    decreases table.len(),
{
    if table.len() > 0 {
        let front = table.drop_last();
        assert forall|i: int| 0 <= i < front.len() implies settled(xml, (#[trigger] front[i]).0) by {
            assert(front[i] == table[i]);
        }
        lemma_settled_is_fixed(xml, front);
        assert(settled(xml, table[table.len() - 1].0));
    }
}

/// Repairing twice is repairing once, for any table of plain prefixes and
/// addresses.
pub proof fn law_repair_is_idempotent(xml: Seq<char>, table: Seq<(Seq<char>, Seq<char>)>)
    requires
        plain_table(table),
    ensures
        repaired_all(repaired_all(xml, table), table) == repaired_all(xml, table),
{
    lemma_repair_settles_all(xml, table);
    if declaration_point(xml) is Some {
        lemma_settled_is_fixed(repaired_all(xml, table), table);
    }
}

/// The vendor's namespace tables are plain.
pub proof fn lemma_tables_are_plain()
    ensures
        plain_table(namespace_table()),
        plain_table(device_table()),
        plain_table(media_table()),
{
    reveal_strlit("tds");
    reveal_strlit("trt");
    reveal_strlit("tev");
    reveal_strlit("tt");
    reveal_strlit("tns1");
    reveal_strlit("wsnt");
    reveal_strlit("http://www.onvif.org/ver10/device/wsdl");
    reveal_strlit("http://www.onvif.org/ver10/media/wsdl");
    reveal_strlit("http://www.onvif.org/ver10/events/wsdl");
    reveal_strlit("http://www.onvif.org/ver10/schema");
    reveal_strlit("http://www.onvif.org/ver10/topics");
    reveal_strlit("http://docs.oasis-open.org/wsn/b-2");
    assert(plain("tds"@));
    assert(plain("trt"@));
    assert(plain("tev"@));
    assert(plain("tt"@));
    assert(plain("tns1"@));
    assert(plain("wsnt"@));
    assert(plain("http://www.onvif.org/ver10/device/wsdl"@));
    assert(plain("http://www.onvif.org/ver10/media/wsdl"@));
    assert(plain("http://www.onvif.org/ver10/events/wsdl"@));
    assert(plain("http://www.onvif.org/ver10/schema"@));
    assert(plain("http://www.onvif.org/ver10/topics"@));
    assert(plain("http://docs.oasis-open.org/wsn/b-2"@));
}

/// Namespace repair is idempotent: applying it to its own result changes
/// nothing, so no namespace is declared twice by repeating the repair.
pub proof fn law_namespace_repair_is_idempotent(xml: Seq<char>)
    ensures
        repaired_all(repaired_all(xml, namespace_table()), namespace_table()) == repaired_all(
            xml,
            namespace_table(),
        ),
        repaired_all(repaired_all(xml, device_table()), device_table()) == repaired_all(
            xml,
            device_table(),
        ),
        repaired_all(repaired_all(xml, media_table()), media_table()) == repaired_all(
            xml,
            media_table(),
        ),
{
    lemma_tables_are_plain();
    law_repair_is_idempotent(xml, namespace_table());
    law_repair_is_idempotent(xml, device_table());
    law_repair_is_idempotent(xml, media_table());
}

/// Text for a prefix or an address that is plain and has neither an `x`
/// nor an equals sign: no declaration key can begin or end inside it.
pub open spec fn strict(text: Seq<char>) -> bool {
    forall|i: int|
        0 <= i < text.len() ==> text[i] != '<' && text[i] != '>' && text[i] != ' ' && text[i]
            != 'x' && text[i] != '='
}

/// A table of strict prefixes and strict addresses.
pub open spec fn strict_table(table: Seq<(Seq<char>, Seq<char>)>) -> bool {
    forall|i: int| 0 <= i < table.len() ==> strict((#[trigger] table[i]).0) && strict(table[i].1)
}

/// The document declares `prefix` at one place at most.
pub open spec fn declared_at_most_once(xml: Seq<char>, prefix: Seq<char>) -> bool {
    forall|i: int, j: int|
        #![trigger matches_at(xml, declaration_key(prefix), i), matches_at(xml, declaration_key(prefix), j)]
        matches_at(xml, declaration_key(prefix), i) && matches_at(
            xml,
            declaration_key(prefix),
            j,
        ) ==> i == j
}

/// A key of a strict prefix occurs in a text that begins with the key of
/// another strict prefix only where the prefixes are the same.
proof fn lemma_keys_differ(prefix: Seq<char>, other: Seq<char>, text: Seq<char>)
    requires
        strict(prefix),
        strict(other),
        matches_at(text, declaration_key(other), 0),
        matches_at(text, declaration_key(prefix), 0),
    ensures
        prefix == other,
{
    reveal_strlit("xmlns:");
    let head = "xmlns:"@;
    let mine = declaration_key(prefix);
    let theirs = declaration_key(other);
    assert forall|t: int| 0 <= t < mine.len() implies text[t] == mine[t] by {
        assert(text.subrange(0, mine.len() as int)[t] == text[t]);
    }
    assert forall|t: int| 0 <= t < theirs.len() implies text[t] == theirs[t] by {
        assert(text.subrange(0, theirs.len() as int)[t] == text[t]);
    }
    if prefix.len() < other.len() {
        let t = (head.len() + prefix.len()) as int;
        assert(mine[t] == '=');
        assert(theirs[t] == other[prefix.len() as int]);
    } else if prefix.len() > other.len() {
        let t = (head.len() + other.len()) as int;
        assert(theirs[t] == '=');
        assert(mine[t] == prefix[other.len() as int]);
    } else {
        assert forall|t: int| 0 <= t < prefix.len() implies prefix[t] == other[t] by {
            assert(mine[head.len() + t] == prefix[t]);
            assert(theirs[head.len() + t] == other[t]);
        }
        assert(prefix =~= other);
    }
}

/// Where a declaration is inserted before a `>`, a key occurs in the new
/// text either where it occurred, or as the key of the declaration.
proof fn lemma_key_after_insert(
    xml: Seq<char>,
    at: int,
    prefix: Seq<char>,
    other: Seq<char>,
    uri: Seq<char>,
    i: int,
)
    requires
        0 <= at < xml.len(),
        xml[at] == '>',
        strict(prefix),
        strict(other),
        strict(uri),
        matches_at(insert_at(xml, at, declaration(other, uri)), declaration_key(prefix), i),
    ensures
        ({
            let ins = declaration(other, uri);
            let key = declaration_key(prefix);
            ||| i + key.len() <= at && matches_at(xml, key, i)
            ||| i >= at + ins.len() && matches_at(xml, key, i - ins.len())
            ||| i == at + 1 && prefix == other
        }),
{
    reveal_strlit("xmlns:");
    let head = "xmlns:"@;
    let ins = declaration(other, uri);
    let key = declaration_key(prefix);
    let theirs = declaration_key(other);
    let new = insert_at(xml, at, ins);
    let n = key.len() as int;
    assert forall|t: int| 0 <= t < n implies new[i + t] == key[t] by {
        assert(new.subrange(i, i + n)[t] == new[i + t]);
    }
    assert forall|t: int| 0 <= t < n implies key[t] != ' ' && key[t] != '>' by {
        if t < head.len() {
            assert(key[t] == head[t]);
        } else if t < head.len() + prefix.len() {
            assert(key[t] == prefix[t - head.len()]);
        }
    }
    assert(key[0] == 'x');
    if i + n <= at {
        assert(new.subrange(i, i + n) == xml.subrange(i, i + n));
    } else if i >= at + ins.len() {
        assert(new.subrange(i, i + n) == xml.subrange(i - ins.len(), i - ins.len() + n));
    } else if i < at {
        assert(new[at] == ins[0]);
        assert(key[at - i] == ' ');
    } else {
        let o = i - at;
        assert(new[i] == ins[o]);
        assert(ins[o] == 'x');
        if o == 0 {
        } else if o < 1 + theirs.len() {
            assert(ins[o] == theirs[o - 1]);
            if o - 1 == 0 {
            } else if o - 1 < head.len() {
                assert(theirs[o - 1] == head[o - 1]);
            } else if o - 1 < head.len() + other.len() {
                assert(theirs[o - 1] == other[o - 1 - head.len()]);
            } else {
            }
        } else if o == 1 + theirs.len() {
        } else if o < 2 + theirs.len() + uri.len() {
            assert(ins[o] == uri[o - 2 - theirs.len()]);
        } else {
        }
        assert(o == 1);
        let tail = new.skip(at + 1);
        assert(tail.subrange(0, n) == new.subrange(i, i + n));
        assert(tail.subrange(0, theirs.len() as int) == theirs) by {
            assert(new.subrange(at + 1, at + 1 + theirs.len()) == ins.subrange(
                1,
                1 + theirs.len() as int,
            ));
        }
        lemma_keys_differ(prefix, other, tail);
    }
}

/// The repair of one prefix leaves a prefix that is declared at most once
/// declared at most once.
proof fn lemma_repair_keeps_once(xml: Seq<char>, prefix: Seq<char>, other: Seq<char>, uri: Seq<char>)
    requires
        strict(prefix),
        strict(other),
        strict(uri),
        declared_at_most_once(xml, prefix),
    ensures
        declared_at_most_once(repaired(xml, other, uri), prefix),
{
    if lacks_namespace(xml, other, element_opening(other)) && declaration_point(xml) is Some {
        let at = declaration_point(xml)->0;
        let ins = declaration(other, uri);
        let key = declaration_key(prefix);
        let new = insert_at(xml, at, ins);
        lemma_declaration_point(xml);
        lemma_find_from(xml, key, 0);
        assert forall|i: int, j: int| matches_at(new, key, i) && matches_at(new, key, j) implies i
            == j by {
            lemma_key_after_insert(xml, at, prefix, other, uri, i);
            lemma_key_after_insert(xml, at, prefix, other, uri, j);
            if prefix == other {
                assert(!contains(xml, key));
            }
        }
    }
}

/// Namespace repair declares nothing twice: a prefix that the document
/// declares at one place at most is declared at one place at most after
/// the repair of a table of strict prefixes and addresses.
pub proof fn law_repair_declares_at_most_once(
    xml: Seq<char>,
    table: Seq<(Seq<char>, Seq<char>)>,
    prefix: Seq<char>,
)
    requires
        strict_table(table),
        strict(prefix),
        declared_at_most_once(xml, prefix),
    ensures
        declared_at_most_once(repaired_all(xml, table), prefix),
    decreases table.len(),
{
    if table.len() > 0 {
        let front = table.drop_last();
        assert forall|i: int| 0 <= i < front.len() implies strict((#[trigger] front[i]).0)
            && strict(front[i].1) by {
            assert(front[i] == table[i]);
        }
        assert(strict(table[table.len() - 1].0) && strict(table[table.len() - 1].1));
        law_repair_declares_at_most_once(xml, front, prefix);
        lemma_repair_keeps_once(
            repaired_all(xml, front),
            prefix,
            table.last().0,
            table.last().1,
        );
    }
}

/// The vendor's namespace table is strict.
proof fn lemma_namespace_table_is_strict()
    ensures
        strict_table(namespace_table()),
{
    reveal_strlit("tds");
    reveal_strlit("trt");
    reveal_strlit("tev");
    reveal_strlit("tt");
    reveal_strlit("tns1");
    reveal_strlit("wsnt");
    reveal_strlit("http://www.onvif.org/ver10/device/wsdl");
    reveal_strlit("http://www.onvif.org/ver10/media/wsdl");
    reveal_strlit("http://www.onvif.org/ver10/events/wsdl");
    reveal_strlit("http://www.onvif.org/ver10/schema");
    reveal_strlit("http://www.onvif.org/ver10/topics");
    reveal_strlit("http://docs.oasis-open.org/wsn/b-2");
    assert(strict("tds"@));
    assert(strict("trt"@));
    assert(strict("tev"@));
    assert(strict("tt"@));
    assert(strict("tns1"@));
    assert(strict("wsnt"@));
    assert(strict("http://www.onvif.org/ver10/device/wsdl"@));
    assert(strict("http://www.onvif.org/ver10/media/wsdl"@));
    assert(strict("http://www.onvif.org/ver10/events/wsdl"@));
    assert(strict("http://www.onvif.org/ver10/schema"@));
    assert(strict("http://www.onvif.org/ver10/topics"@));
    assert(strict("http://docs.oasis-open.org/wsn/b-2"@));
}

/// The repair of a table keeps the use of a plain prefix.
proof fn lemma_repair_keeps_use(
    xml: Seq<char>,
    table: Seq<(Seq<char>, Seq<char>)>,
    prefix: Seq<char>,
)
    requires
        plain(prefix),
        contains(xml, element_opening(prefix)),
    ensures
        contains(repaired_all(xml, table), element_opening(prefix)),
    decreases table.len(),
{
    if table.len() > 0 {
        let before = repaired_all(xml, table.drop_last());
        lemma_repair_keeps_use(xml, table.drop_last(), prefix);
        let (other, uri) = table.last();
        if lacks_namespace(before, other, element_opening(other)) && declaration_point(before)
            is Some {
            let opening = element_opening(prefix);
            lemma_declaration_point(before);
            if opening.contains('>') {
                let i = choose|i: int| 0 <= i < opening.len() && opening[i] == '>';
                if 1 <= i < 1 + prefix.len() {
                    assert(opening[i] == prefix[i - 1]);
                }
            }
            lemma_insert_keeps(
                before,
                declaration_point(before)->0,
                declaration(other, uri),
                opening,
            );
        }
    }
}

/// No duplicate declarations: a document that declares none of the
/// vendor's namespaces twice declares none twice after the namespace
/// repair, applied once or twice; and a namespace that the document uses
/// undeclared is declared at exactly one place after the repair, where the
/// document has an envelope to bear the declaration.
pub proof fn law_namespace_repair_declares_once(xml: Seq<char>, entry: int)
    requires
        0 <= entry < namespace_table().len(),
        declared_at_most_once(xml, namespace_table()[entry].0),
    ensures
        declared_at_most_once(repaired_all(xml, namespace_table()), namespace_table()[entry].0),
        declared_at_most_once(
            repaired_all(repaired_all(xml, namespace_table()), namespace_table()),
            namespace_table()[entry].0,
        ),
        lacks_namespace(
            xml,
            namespace_table()[entry].0,
            element_opening(namespace_table()[entry].0),
        ) && declaration_point(xml) is Some ==> contains(
            repaired_all(xml, namespace_table()),
            declaration_key(namespace_table()[entry].0),
        ),
{
    lemma_namespace_table_is_strict();
    lemma_tables_are_plain();
    let table = namespace_table();
    let prefix = table[entry].0;
    law_repair_declares_at_most_once(xml, table, prefix);
    law_namespace_repair_is_idempotent(xml);
    if lacks_namespace(xml, prefix, element_opening(prefix)) && declaration_point(xml) is Some {
        lemma_repair_settles_all(xml, table);
        lemma_repair_keeps_use(xml, table, prefix);
        assert(settled(repaired_all(xml, table), table[entry].0));
    }
}

/// The standard topic for motion.
pub open spec fn motion_topic() -> Seq<char> {
    "tns1:RuleEngine/CellMotionDetector/Motion"@
}

/// One of the vendor's three detection topics: for a person, a vehicle,
/// an animal. They are the first three entries of the event table.
pub open spec fn vendor_topic(which: int) -> Seq<char> {
    event_table()[which].0
}

/// What stands at the place of the vendor topic `which` once the first
/// `applied` entries of the event table were applied: the vendor topic
/// until its own entry was, the motion topic from then on.
pub open spec fn topic_after(which: int, applied: int) -> Seq<char> {
    if applied <= which {
        vendor_topic(which)
    } else {
        motion_topic()
    }
}

/// The entry `entry` of the event table leaves the place of the vendor
/// topic `which` alone, in the document that has `a` before the topic and
/// `b` behind it: when the entry is applied, no occurrence of its pattern
/// reaches from the text before or behind into the topic. Where the entry
/// is the topic's own, no earlier occurrence of the topic reaches into it.
pub open spec fn seam_clear(a: Seq<char>, b: Seq<char>, which: int, entry: int) -> bool {
    let table = event_table();
    let before = substituted(a, table.take(entry));
    let behind = substituted(b, table.take(entry));
    let topic = topic_after(which, entry);
    let pattern = table[entry].0;
    if entry == which {
        forall|i: int|
            0 <= i < before.len() && #[trigger] matches_at(before + topic + behind, pattern, i)
                ==> i + pattern.len() <= before.len()
    } else {
        untouched(before + topic + behind, pattern, before.len() as int, topic.len() as int)
    }
}

/// Every entry of the event table leaves the place of the topic alone.
pub open spec fn seams_clear(a: Seq<char>, b: Seq<char>, which: int) -> bool {
    forall|entry: int| 0 <= entry < event_table().len() ==> #[trigger] seam_clear(a, b, which, entry)
}

/// No pattern of the event table is empty.
proof fn lemma_patterns_are_not_empty()
    ensures
        forall|entry: int|
            0 <= entry < event_table().len() ==> (#[trigger] event_table()[entry]).0.len() > 0,
        event_table().len() == 16,
{
    reveal_strlit("tns1:RuleEngine/MyRuleDetector/PeopleDetect");
    reveal_strlit("tns1:RuleEngine/MyRuleDetector/VehicleDetect");
    reveal_strlit("tns1:RuleEngine/MyRuleDetector/DogCatDetect");
    reveal_strlit("PeopleDetect");
    reveal_strlit("PersonDetection");
    reveal_strlit("VehicleDetect");
    reveal_strlit("VehicleDetection");
    reveal_strlit("DogCatDetect");
    reveal_strlit("PetDetection");
    reveal_strlit("FaceDetect");
    reveal_strlit("FaceDetection");
    reveal_strlit("SmartDetection");
    reveal_strlit("AIDetection");
    reveal_strlit("xmlns:reo=");
    reveal_strlit("<reo:");
    reveal_strlit("</reo:");
    let table = event_table();
    assert(table[0].0.len() > 0 && table[1].0.len() > 0 && table[2].0.len() > 0);
    assert(table[3].0.len() > 0 && table[4].0.len() > 0 && table[5].0.len() > 0);
    assert(table[6].0.len() > 0 && table[7].0.len() > 0 && table[8].0.len() > 0);
    assert(table[9].0.len() > 0 && table[10].0.len() > 0 && table[11].0.len() > 0);
    assert(table[12].0.len() > 0 && table[13].0.len() > 0 && table[14].0.len() > 0);
    assert(table[15].0.len() > 0);
}

/// With clear seams the entries of the table work on what stands before
/// the topic and on what stands behind it, and on the topic only by its
/// own entry.
proof fn lemma_topic_stays(a: Seq<char>, b: Seq<char>, which: int, applied: int)
    requires
        0 <= which < 3,
        0 <= applied <= event_table().len(),
        seams_clear(a, b, which),
    ensures
        substituted(a + vendor_topic(which) + b, event_table().take(applied)) == substituted(
            a,
            event_table().take(applied),
        ) + topic_after(which, applied) + substituted(b, event_table().take(applied)),
    decreases applied,
{
    let table = event_table();
    let upto = table.take(applied);
    if applied == 0 {
        assert(substituted(a, upto) == a);
        assert(substituted(b, upto) == b);
    } else {
        let entry = applied - 1;
        lemma_patterns_are_not_empty();
        lemma_topic_stays(a, b, which, entry);
        assert(upto.drop_last() == table.take(entry));
        assert(upto.last() == table[entry]);
        assert(seam_clear(a, b, which, entry));
        let before = substituted(a, table.take(entry));
        let behind = substituted(b, table.take(entry));
        assert(table[entry].0.len() > 0);
        if entry == which {
            assert(table[which].1 == motion_topic());
            lemma_replace_hits(before, behind, table[entry].0, table[entry].1);
        } else {
            lemma_replace_around(
                before,
                topic_after(which, entry),
                behind,
                table[entry].0,
                table[entry].1,
            );
        }
    }
}

/// Topic remapping: a vendor topic for a person, a vehicle or an animal
/// becomes the standard motion topic, at its place, whatever stands
/// before and behind it, provided that no entry of the event table
/// reaches into the topic from the text around it. The text before and
/// the text behind are remapped by themselves, and the remapped document
/// holds the motion topic.
pub proof fn law_vendor_topic_becomes_motion_topic(a: Seq<char>, b: Seq<char>, which: int)
    requires
        0 <= which < 3,
        seams_clear(a, b, which),
    ensures
        substituted(a + vendor_topic(which) + b, event_table()) == substituted(a, event_table())
            + motion_topic() + substituted(b, event_table()),
        contains(smart_events(a + vendor_topic(which) + b), motion_topic()),
{
    reveal_strlit("tns1:RuleEngine/CellMotionDetector/Motion");
    let table = event_table();
    let topic = motion_topic();
    lemma_patterns_are_not_empty();
    lemma_topic_stays(a, b, which, table.len() as int);
    assert(table.take(table.len() as int) == table);
    let before = substituted(a, table);
    let first = substituted(a + vendor_topic(which) + b, table);
    assert(first.subrange(before.len() as int, (before.len() + topic.len()) as int) == topic);
    crate::text::lemma_find_from_some(first, topic, 0, before.len() as int);
    assert(!topic.contains('>') && !topic.contains('<')) by {
        assert forall|i: int| 0 <= i < topic.len() implies topic[i] != '>' && topic[i] != '<' by {}
    }
    let declared = with_topics_namespace(first);
    if declared != first {
        lemma_declaration_point(first);
        lemma_insert_keeps(
            first,
            declaration_point(first)->0,
            declaration("tns1"@, "http://www.onvif.org/ver10/topics"@),
            topic,
        );
    }
    lemma_state_item_keeps(declared, topic);
}

/// Adding the state item keeps a text that is longer than a closing tag
/// of a data block and has no angle bracket.
proof fn lemma_state_item_keeps(xml: Seq<char>, kept: Seq<char>)
    requires
        contains(xml, kept),
        kept.len() > 10,
        !kept.contains('<'),
        !kept.contains('>'),
    ensures
        contains(with_state_item(xml), kept),
{
    reveal_strlit("</tt:Data>");
    reveal_strlit("</Data>");
    let prefixed = "</tt:Data>"@;
    let bare = "</Data>"@;
    assert(prefixed[0] == '<' && prefixed.last() == '>');
    assert(bare[0] == '<' && bare.last() == '>');
    let first = replace_all(
        xml,
        prefixed,
        "<tt:SimpleItem Name=\"State\" Value=\"true\"/></tt:Data>"@,
    );
    lemma_replace_keeps(
        xml,
        prefixed,
        "<tt:SimpleItem Name=\"State\" Value=\"true\"/></tt:Data>"@,
        kept,
    );
    lemma_replace_keeps(first, bare, "<SimpleItem Name=\"State\" Value=\"true\"/></Data>"@, kept);
}

/// The state item: a document that speaks of motion, names no state and
/// has a data block names a state once the item is added; and adding the
/// item to the result changes nothing more.
pub proof fn law_motion_without_state_gets_state(xml: Seq<char>)
    ensures
        contains(xml, "Motion"@) && !contains(xml, "State"@) && (contains(xml, "</tt:Data>"@)
            || contains(xml, "</Data>"@)) ==> contains(
            with_state_item(xml),
            "Name=\"State\""@,
        ),
        with_state_item(with_state_item(xml)) == with_state_item(xml),
{
    reveal_strlit("</tt:Data>");
    reveal_strlit("</Data>");
    reveal_strlit("Name=\"State\"");
    reveal_strlit("State");
    reveal_strlit("<tt:SimpleItem Name=\"State\" Value=\"true\"/></tt:Data>");
    reveal_strlit("<SimpleItem Name=\"State\" Value=\"true\"/></Data>");
    let prefixed = "</tt:Data>"@;
    let bare = "</Data>"@;
    let name = "Name=\"State\""@;
    let item = "<tt:SimpleItem Name=\"State\" Value=\"true\"/></tt:Data>"@;
    let plain_item = "<SimpleItem Name=\"State\" Value=\"true\"/></Data>"@;
    if contains(xml, "Motion"@) && !contains(xml, "State"@) {
        let first = replace_all(xml, prefixed, item);
        let out = replace_all(first, bare, plain_item);
        assert(name.subrange(6, 11) == "State"@);
        assert(matches_at(name, "State"@, 6));
        if contains(xml, prefixed) {
            lemma_replace_puts(xml, prefixed, item);
            assert(item.subrange(15, 27) == name);
            assert(matches_at(item, name, 15));
            lemma_contains_within(first, item, name, 15);
            assert(bare[0] == '<' && bare.last() == '>');
            assert(!name.contains('<') && !name.contains('>')) by {
                assert forall|i: int| 0 <= i < name.len() implies name[i] != '<' && name[i]
                    != '>' by {}
            }
            lemma_replace_keeps(first, bare, plain_item, name);
            lemma_contains_within(out, name, "State"@, 6);
        } else {
            lemma_replace_absent(xml, prefixed, item);
            if contains(xml, bare) {
                lemma_replace_puts(xml, bare, plain_item);
                assert(plain_item.subrange(12, 24) == name);
                assert(matches_at(plain_item, name, 12));
                lemma_contains_within(out, plain_item, name, 12);
                lemma_contains_within(out, name, "State"@, 6);
            } else {
                lemma_replace_absent(xml, bare, plain_item);
            }
        }
    }
}

} // verus!

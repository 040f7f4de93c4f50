//! The captive portal's protocol: its XML replies, how they are read, and what
//! the library concludes from them.

use vstd::prelude::*;
use crate::text::{
    chars_of, concat_chars, contains_exec, contains_text, decimal, decimal_exec, find_from_exec,
    find_text, lemma_find_from, lowercase_text, occurs_at, replace_all, replace_exec, same_text,
    string_of, trim, trim_exec, uppercase_text,
};
use crate::textmap::TextMap;
use quick_xml::events::Event;
use quick_xml::reader::Reader;
pub use crate::clock::get_timestamp;

verus! {

// ---------------------------------------------------------------------------
// Message cleaning
// ---------------------------------------------------------------------------

/// A portal message with CDATA markers removed, the common HTML entities
/// decoded (in this order) and surrounding white space trimmed.
pub open spec fn cleaned(raw: Seq<char>) -> Seq<char> {
    let a = replace_all(raw, "<![CDATA["@, ""@);
    let b = replace_all(a, "]]>"@, ""@);
    let c = replace_all(b, "&#39;"@, "'"@);
    let d = replace_all(c, "&quot;"@, "\""@);
    let e = replace_all(d, "&amp;"@, "&"@);
    let f = replace_all(e, "&lt;"@, "<"@);
    let g = replace_all(f, "&gt;"@, ">"@);
    trim(g)
}

fn replace_literal(s: &Vec<char>, pat: &str, rep: &str) -> (r: Vec<char>)
    requires
        pat@.len() > 0,
    ensures
        r@ == replace_all(s@, pat@, rep@),
{
    let p = chars_of(pat);
    let q = chars_of(rep);
    replace_exec(s, &p, &q)
}

/// Strips CDATA markers and decodes entities in a portal message, then trims it.
pub fn clean_message(raw: &str) -> (r: String)
    ensures
        r@ == cleaned(raw@),
{
    proof {
        reveal_strlit("<![CDATA[");
        reveal_strlit("]]>");
        reveal_strlit("&#39;");
        reveal_strlit("&quot;");
        reveal_strlit("&amp;");
        reveal_strlit("&lt;");
        reveal_strlit("&gt;");
    }
    let s = chars_of(raw);
    let a = replace_literal(&s, "<![CDATA[", "");
    let b = replace_literal(&a, "]]>", "");
    let c = replace_literal(&b, "&#39;", "'");
    let d = replace_literal(&c, "&quot;", "\"");
    let e = replace_literal(&d, "&amp;", "&");
    let f = replace_literal(&e, "&lt;", "<");
    let g = replace_literal(&f, "&gt;", ">");
    string_of(&trim_exec(&g))
}


// ---------------------------------------------------------------------------
// XML events
// ---------------------------------------------------------------------------

#[verifier::external_type_specification]
#[verifier::external_body]
#[verifier::reject_recursive_types(R)]
pub struct ExXmlReader<R>(Reader<R>);

/// One event of an XML reader, with the raw bytes of names and texts decoded
/// as (lossy) UTF-8.
pub enum XmlEvent {
    /// An opening tag, by its qualified name.
    Start(String),
    /// Character data between tags, still escaped.
    Text(String),
    /// The contents of a CDATA section.
    CData(String),
    /// A closing tag.
    End,
    /// The end of the document.
    Eof,
    /// The reader could not go on.
    Failed,
    /// Anything else (empty elements, comments, declarations, ...).
    Other,
}

/// The mathematical form of an [`XmlEvent`].
pub enum XmlEventView {
    Start(Seq<char>),
    Text(Seq<char>),
    CData(Seq<char>),
    End,
    Eof,
    Failed,
    Other,
}

impl View for XmlEvent {
    type V = XmlEventView;

    open spec fn view(&self) -> XmlEventView {
        match self {
            XmlEvent::Start(s) => XmlEventView::Start(s@),
            XmlEvent::Text(s) => XmlEventView::Text(s@),
            XmlEvent::CData(s) => XmlEventView::CData(s@),
            XmlEvent::End => XmlEventView::End,
            XmlEvent::Eof => XmlEventView::Eof,
            XmlEvent::Failed => XmlEventView::Failed,
            XmlEvent::Other => XmlEventView::Other,
        }
    }
}

/// An event after which a reader is not read again.
pub open spec fn is_final_event(e: XmlEventView) -> bool {
    e is Eof || e is Failed
}

/// A stream of events that ends with its first final event.
pub open spec fn is_event_stream(es: Seq<XmlEventView>) -> bool {
    &&& es.len() > 0
    &&& is_final_event(es.last())
    &&& forall|i: int| 0 <= i < es.len() - 1 ==> !is_final_event(#[trigger] es[i])
}

/// The events that quick-xml reads from a document (with text trimming on),
/// up to and including the first end of document or error.
pub uninterp spec fn xml_event_stream(content: Seq<char>) -> Seq<XmlEventView>;

/// The events a quick-xml reader still has to give, up to and including the
/// first end of document or error.
pub uninterp spec fn xml_events_pending(reader: Reader<&[u8]>) -> Seq<XmlEventView>;

/// Opens a quick-xml reader on `xml` (`Reader::from_str`) and turns text
/// trimming on. What it will read is the event stream of `xml`, a function of
/// `xml` alone, which is finite and ends with an end of document or an error.
/// Which events that stream holds is left to quick-xml and not stated here.
#[verifier::external_body]
fn open_xml_reader(xml: &str) -> (reader: Reader<&[u8]>)
    ensures
        xml_events_pending(reader) == xml_event_stream(xml@),
        is_event_stream(xml_events_pending(reader)),
{
    let mut reader = Reader::from_str(xml);
    reader.config_mut().trim_text(true);
    reader
}

/// Reads the next event (`Reader::read_event`): the first pending one, which
/// is then no longer pending.
#[verifier::external_body]
fn next_xml_event(reader: &mut Reader<&[u8]>) -> (event: XmlEvent)
    ensures
        xml_events_pending(*old(reader)).len() > 0 ==> event@ == xml_events_pending(
            *old(reader),
        )[0],
        xml_events_pending(*old(reader)).len() > 0 ==> xml_events_pending(*final(reader))
            == xml_events_pending(*old(reader)).drop_first(),
{
    match reader.read_event() {
        Ok(Event::Start(e)) => XmlEvent::Start(String::from_utf8_lossy(e.name().as_ref()).to_string()),
        Ok(Event::Text(e)) => XmlEvent::Text(String::from_utf8_lossy(e.as_ref()).to_string()),
        Ok(Event::CData(e)) => XmlEvent::CData(String::from_utf8_lossy(e.as_ref()).to_string()),
        Ok(Event::End(_)) => XmlEvent::End,
        Ok(Event::Eof) => XmlEvent::Eof,
        Err(_) => XmlEvent::Failed,
        Ok(_) => XmlEvent::Other,
    }
}


// ---------------------------------------------------------------------------
// Reading a portal reply
// ---------------------------------------------------------------------------

/// `fields` with `text` appended to the value under `tag` (an absent value
/// counts as empty).
pub open spec fn append_field(fields: Map<Seq<char>, Seq<char>>, tag: Seq<char>, text: Seq<char>) -> Map<
    Seq<char>,
    Seq<char>,
> {
    fields.insert(tag, if fields.contains_key(tag) { fields[tag] + text } else { text })
}

/// The fields collected so far and the current tag, after one more event:
/// an opening tag becomes the current tag (in lower case), text and CDATA are
/// appended to the current tag's field when there is a current tag, and a
/// closing tag clears it.
pub open spec fn absorb_event(
    state: (Map<Seq<char>, Seq<char>>, Seq<char>),
    event: XmlEventView,
) -> (Map<Seq<char>, Seq<char>>, Seq<char>) {
    let (fields, tag) = state;
    match event {
        XmlEventView::Start(name) => (fields, lowercase_text(name)),
        XmlEventView::Text(t) => if tag.len() > 0 {
            (append_field(fields, tag, t), tag)
        } else {
            (fields, tag)
        },
        XmlEventView::CData(t) => if tag.len() > 0 {
            (append_field(fields, tag, t), tag)
        } else {
            (fields, tag)
        },
        XmlEventView::End => (fields, Seq::empty()),
        _ => (fields, tag),
    }
}

/// The fields and current tag after a sequence of events, from no fields and no tag.
pub open spec fn absorb_events(events: Seq<XmlEventView>) -> (Map<Seq<char>, Seq<char>>, Seq<char>)
    decreases events.len(),
{
    if events.len() == 0 {
        (Map::empty(), Seq::empty())
    } else {
        absorb_event(absorb_events(events.drop_last()), events.last())
    }
}

/// `fields` with the text between the first `<tag>` of `content` and the
/// first `</tag>` after it stored under `tag`, when both are found.
pub open spec fn salvage_tag(fields: Map<Seq<char>, Seq<char>>, content: Seq<char>, tag: Seq<char>) -> Map<
    Seq<char>,
    Seq<char>,
> {
    let open = "<"@ + tag + ">"@;
    let close = "</"@ + tag + ">"@;
    match find_text(content, open) {
        Some(start) => {
            let from = start + open.len();
            match find_text(content.skip(from), close) {
                Some(end) => fields.insert(tag, content.subrange(from, from + end)),
                None => fields,
            }
        },
        None => fields,
    }
}

/// The fields recovered from a document the XML reader gave up on: the
/// `status`, `message`, `ack`, `logoutmessage` and `state` elements, found by
/// their literal tags, in that order.
pub open spec fn salvage_fields(fields: Map<Seq<char>, Seq<char>>, content: Seq<char>) -> Map<
    Seq<char>,
    Seq<char>,
> {
    let a = salvage_tag(fields, content, "status"@);
    let b = salvage_tag(a, content, "message"@);
    let c = salvage_tag(b, content, "ack"@);
    let d = salvage_tag(c, content, "logoutmessage"@);
    salvage_tag(d, content, "state"@)
}

/// The fields gathered from a reply's events: the text of each element (and,
/// when the events end with a reader failure, what is salvaged from the raw
/// `content`), every value cleaned.
pub open spec fn fields_of(content: Seq<char>, events: Seq<XmlEventView>) -> Map<Seq<char>, Seq<char>> {
    let gathered = absorb_events(events).0;
    let raw = if events.len() > 0 && events.last() is Failed {
        salvage_fields(gathered, content)
    } else {
        gathered
    };
    raw.map_values(|v: Seq<char>| cleaned(v))
}

/// The fields of a portal reply: nothing for a blank document; otherwise the
/// fields gathered from the events quick-xml reads from it.
pub open spec fn parsed_xml(content: Seq<char>) -> Map<Seq<char>, Seq<char>> {
    if trim(content).len() == 0 {
        Map::empty()
    } else {
        fields_of(content, xml_event_stream(content))
    }
}

/// The views of some events.
pub open spec fn events_view(es: Seq<XmlEvent>) -> Seq<XmlEventView> {
    es.map_values(|e: XmlEvent| e@)
}

fn append_to_field(fields: &mut TextMap, tag: &String, text: &String)
    ensures
        final(fields)@ == append_field(old(fields)@, tag@, text@),
{
    let value = match fields.get_string(tag) {
        Some(v) => {
            let mut w = v.clone();
            w.append(text.as_str());
            w
        },
        None => text.clone(),
    };
    fields.insert(tag.clone(), value);
}

fn chars_between(s: &Vec<char>, from: usize, to: usize) -> (r: Vec<char>)
    requires
        from <= to <= s@.len(),
    ensures
        r@ == s@.subrange(from as int, to as int),
{
    let mut r: Vec<char> = Vec::new();
    let mut i = from;
    while i < to
        invariant
            from <= i <= to <= s@.len(),
            r@ == s@.subrange(from as int, i as int),
        decreases to - i,
    {
        r.push(s[i]);
        i = i + 1;
        assert(r@ =~= s@.subrange(from as int, i as int));
    }
    r
}

fn salvage_one(fields: &mut TextMap, content: &Vec<char>, tag: &str)
    ensures
        final(fields)@ == salvage_tag(old(fields)@, content@, tag@),
{
    let mut open = chars_of("<");
    let mut close = chars_of("</");
    let t = chars_of(tag);
    let tail = chars_of(">");
    open.append(&mut t.clone());
    open.append(&mut tail.clone());
    close.append(&mut t.clone());
    close.append(&mut tail.clone());
    proof {
        assert(open@ =~= "<"@ + tag@ + ">"@);
        assert(close@ =~= "</"@ + tag@ + ">"@);
    }
    let n = content.len();
    match find_from_exec(content, &open, 0) {
        Some(start) => {
            proof {
                lemma_find_from(content@, open@, 0);
                assert(occurs_at(content@, open@, start as int));
            }
            let from = start + open.len();
            let rest = chars_between(content, from, content.len());
            assert(rest@ =~= content@.skip(from as int));
            match find_from_exec(&rest, &close, 0) {
                Some(end) => {
                    proof {
                        lemma_find_from(rest@, close@, 0);
                        assert(occurs_at(rest@, close@, end as int));
                    }
                    let value = chars_between(content, from, from + end);
                    fields.insert(String::from_str(tag), string_of(&value));
                },
                None => {},
            }
        },
        None => {},
    }
}

fn clean_fields(raw: &TextMap) -> (r: TextMap)
    ensures
        r@ == raw@.map_values(|v: Seq<char>| cleaned(v)),
{
    let keys = raw.keys();
    let n = raw.len();
    let mut r = TextMap::new();
    let mut i: usize = 0;
    while i < n
        invariant
            n == raw.key_order().len(),
            i <= n,
            raw.key_order().no_duplicates(),
            r@ == Map::new(
                |k: Seq<char>| raw.key_order().take(i as int).contains(k),
                |k: Seq<char>| cleaned(raw@[k]),
            ),
        decreases n - i,
    {
        let (k, v) = raw.entry_at(i);
        let c = clean_message(v.as_str());
        r.insert(k.clone(), c);
        i = i + 1;
        proof {
            broadcast use vstd::seq_lib::group_seq_properties;
            assert(raw.key_order().take(i as int) =~= raw.key_order().take(i - 1).push(k@));
            assert(r@ =~= Map::new(
                |k: Seq<char>| raw.key_order().take(i as int).contains(k),
                |k: Seq<char>| cleaned(raw@[k]),
            ));
        }
    }
    proof {
        assert(raw.key_order().take(n as int) =~= raw.key_order());
        assert(r@ =~= raw@.map_values(|v: Seq<char>| cleaned(v)));
    }
    r
}

/// Gathers the fields of a reply from its events (see [`fields_of`]).
pub fn fields_from_events(content: &str, events: &Vec<XmlEvent>) -> (fields: TextMap)
    ensures
        fields@ == fields_of(content@, events_view(events@)),
{
    let ghost ev = events_view(events@);
    let mut raw = TextMap::new();
    let mut tag = String::new();
    let mut i: usize = 0;
    while i < events.len()
        invariant
            i <= events@.len(),
            ev == events_view(events@),
            (raw@, tag@) == absorb_events(ev.take(i as int)),
        decreases events@.len() - i,
    {
        proof {
            assert(ev.take(i + 1).drop_last() =~= ev.take(i as int));
            assert(ev.take(i + 1).last() == events@[i as int]@);
        }
        match &events[i] {
            XmlEvent::Start(name) => {
                tag = name.as_str().to_lowercase();
            },
            XmlEvent::Text(t) => {
                if !tag.as_str().is_empty() {
                    append_to_field(&mut raw, &tag, t);
                }
            },
            XmlEvent::CData(t) => {
                if !tag.as_str().is_empty() {
                    append_to_field(&mut raw, &tag, t);
                }
            },
            XmlEvent::End => {
                tag = String::new();
            },
            _ => {},
        }
        i = i + 1;
    }
    assert(ev.take(i as int) =~= ev);
    let failed = events.len() > 0 && match &events[events.len() - 1] {
        XmlEvent::Failed => true,
        _ => false,
    };
    if failed {
        let content = chars_of(content);
        salvage_one(&mut raw, &content, "status");
        salvage_one(&mut raw, &content, "message");
        salvage_one(&mut raw, &content, "ack");
        salvage_one(&mut raw, &content, "logoutmessage");
        salvage_one(&mut raw, &content, "state");
    }
    clean_fields(&raw)
}

/// Reads the fields of a portal reply: each element's text, keyed by the
/// lower-cased tag name, with CDATA markers removed and entities decoded.
pub fn parse_xml(xml_content: &str) -> (fields: TextMap)
    ensures
        fields@ == parsed_xml(xml_content@),
{
    let content = chars_of(xml_content);
    let trimmed = trim_exec(&content);
    if trimmed.len() == 0 {
        return TextMap::new();
    }
    let mut reader = open_xml_reader(xml_content);
    let ghost stream = xml_event_stream(xml_content@);
    let mut events: Vec<XmlEvent> = Vec::new();
    loop
        invariant_except_break
            xml_events_pending(reader) == stream.skip(events@.len() as int),
            events@.len() < stream.len(),
        invariant
            is_event_stream(stream),
            events_view(events@) == stream.take(events@.len() as int),
        ensures
            events_view(events@) == stream,
        decreases stream.len() - events@.len(),
    {
        let ghost k = events@.len() as int;
        let event = next_xml_event(&mut reader);
        let last = match &event {
            XmlEvent::Eof => true,
            XmlEvent::Failed => true,
            _ => false,
        };
        proof {
            assert(stream.skip(k)[0] == stream[k]);
        }
        events.push(event);
        proof {
            assert(events_view(events@) =~= stream.take(k + 1));
            assert(stream.skip(k).drop_first() =~= stream.skip(k + 1));
        }
        if last {
            assert(k == stream.len() - 1);
            assert(stream.take(k + 1) =~= stream);
            break ;
        }
    }
    fields_from_events(xml_content, &events)
}

// ---------------------------------------------------------------------------
// Portal endpoints and requests
// ---------------------------------------------------------------------------

/// The portal's base address: `PESU_PORTAL_BASE` when set, else the campus
/// gateway.
pub open spec fn portal_base(env: Option<String>) -> Seq<char> {
    match env {
        Some(b) => b@,
        None => "http://192.168.254.1:8090"@,
    }
}

/// Chooses the portal's base address from the `PESU_PORTAL_BASE` value.
pub fn get_portal_base(env: Option<String>) -> (r: String)
    ensures
        r@ == portal_base(env),
{
    match env {
        Some(b) => b,
        None => String::from_str("http://192.168.254.1:8090"),
    }
}

/// The login endpoint under a portal base address.
pub fn get_login_url(base: &str) -> (r: String)
    ensures
        r@ == base@ + "/login.xml"@,
{
    string_of(&concat_chars(&chars_of(base), &chars_of("/login.xml")))
}

/// The logout endpoint under a portal base address.
pub fn get_logout_url(base: &str) -> (r: String)
    ensures
        r@ == base@ + "/logout.xml"@,
{
    string_of(&concat_chars(&chars_of(base), &chars_of("/logout.xml")))
}

/// The keepalive endpoint under a portal base address.
pub fn get_live_url(base: &str) -> (r: String)
    ensures
        r@ == base@ + "/live"@,
{
    string_of(&concat_chars(&chars_of(base), &chars_of("/live")))
}

/// The page probed to tell whether the portal gateway answers.
pub fn get_probe_url(base: &str) -> (r: String)
    ensures
        r@ == base@ + "/httpclient.html"@,
{
    string_of(&concat_chars(&chars_of(base), &chars_of("/httpclient.html")))
}

/// The user a session request names: the one given, else the active
/// account's user, else `user`.
pub open spec fn session_user(username: Option<Seq<char>>, active: Option<Seq<char>>) -> Seq<char> {
    match username {
        Some(u) => u,
        None => match active {
            Some(a) => a,
            None => "user"@,
        },
    }
}

/// Picks the user a keepalive or logout request names.
pub fn resolve_session_user(username: Option<&str>, active: Option<String>) -> (r: String)
    ensures
        r@ == session_user(
            match username {
                Some(u) => Some(u@),
                None => None,
            },
            match active {
                Some(a) => Some(a@),
                None => None,
            },
        ),
{
    match username {
        Some(u) => String::from_str(u),
        None => match active {
            Some(a) => a,
            None => String::from_str("user"),
        },
    }
}

/// The keepalive query for `user` at time `ts` (milliseconds).
pub open spec fn live_query(live_url: Seq<char>, user: Seq<char>, ts: nat) -> Seq<char> {
    live_url + "?mode=193&username="@ + user + "&a="@ + decimal(ts) + "&producttype=0"@
}

/// Builds the keepalive query URL.
pub fn live_query_url(live_url: &str, user: &str, ts: u128) -> (r: String)
    ensures
        r@ == live_query(live_url@, user@, ts as nat),
{
    let a = concat_chars(&chars_of(live_url), &chars_of("?mode=193&username="));
    let b = concat_chars(&concat_chars(&a, &chars_of(user)), &chars_of("&a="));
    let c = concat_chars(&concat_chars(&b, &decimal_exec(ts)), &chars_of("&producttype=0"));
    string_of(&c)
}

/// A form field of a portal request.
pub struct FormField {
    pub name: String,
    pub value: String,
}

/// The fields of a request as texts.
pub open spec fn form_text(fields: Seq<FormField>) -> Seq<(Seq<char>, Seq<char>)> {
    fields.map_values(|f: FormField| (f.name@, f.value@))
}

fn field(name: &str, value: String) -> (f: FormField)
    ensures
        f.name@ == name@,
        f.value@ == value@,
{
    FormField { name: String::from_str(name), value }
}

/// The login form: mode 191 with the credentials and the time stamp.
pub fn login_form(username: &str, password: &str, ts: u128) -> (r: Vec<FormField>)
    ensures
        form_text(r@) == seq![
            ("mode"@, "191"@),
            ("username"@, username@),
            ("password"@, password@),
            ("a"@, decimal(ts as nat)),
            ("producttype"@, "0"@),
        ],
{
    let mut r: Vec<FormField> = Vec::new();
    r.push(field("mode", String::from_str("191")));
    r.push(field("username", String::from_str(username)));
    r.push(field("password", String::from_str(password)));
    r.push(field("a", string_of(&decimal_exec(ts))));
    r.push(field("producttype", String::from_str("0")));
    assert(form_text(r@) =~= seq![
        ("mode"@, "191"@),
        ("username"@, username@),
        ("password"@, password@),
        ("a"@, decimal(ts as nat)),
        ("producttype"@, "0"@),
    ]);
    r
}

/// The logout form: mode 193 with the user and the time stamp.
pub fn logout_form(user: &str, ts: u128) -> (r: Vec<FormField>)
    ensures
        form_text(r@) == seq![
            ("mode"@, "193"@),
            ("username"@, user@),
            ("a"@, decimal(ts as nat)),
            ("producttype"@, "0"@),
        ],
{
    let mut r: Vec<FormField> = Vec::new();
    r.push(field("mode", String::from_str("193")));
    r.push(field("username", String::from_str(user)));
    r.push(field("a", string_of(&decimal_exec(ts))));
    r.push(field("producttype", String::from_str("0")));
    assert(form_text(r@) =~= seq![
        ("mode"@, "193"@),
        ("username"@, user@),
        ("a"@, decimal(ts as nat)),
        ("producttype"@, "0"@),
    ]);
    r
}

// ---------------------------------------------------------------------------
// Portal replies
// ---------------------------------------------------------------------------

/// How a request to the portal ended.
pub enum PortalReply {
    /// The portal answered with this body.
    Body(String),
    /// The request failed; the text describes the failure.
    Unreachable(String),
    /// The portal answered, but its body could not be read; the text says why.
    BadBody(String),
}

/// A field of a reply, or empty when absent.
pub open spec fn field_or_empty(fields: Map<Seq<char>, Seq<char>>, key: Seq<char>) -> Seq<char> {
    if fields.contains_key(key) {
        fields[key]
    } else {
        Seq::empty()
    }
}

/// What a login reply means: signed in exactly when the status is `LIVE` (in
/// any case); the message (or a default) is the outcome's text.
pub open spec fn login_result(username: Seq<char>, body: Seq<char>) -> Result<Seq<char>, Seq<char>> {
    let fields = parsed_xml(body);
    login_verdict(username, uppercase_text(field_or_empty(fields, "status"@)), field_or_empty(fields, "message"@))
}

/// What a login reply with the (upper-cased) status `status` and the message
/// `message` means: signed in exactly when the status is `LIVE`; the message
/// (or a default) is the outcome's text.
pub open spec fn login_verdict(username: Seq<char>, status: Seq<char>, message: Seq<char>) -> Result<Seq<char>, Seq<char>> {
    if status == "LIVE"@ {
        Ok(if message.len() > 0 { message } else { "Signed in as "@ + username })
    } else {
        Err(
            if message.len() > 0 {
                message
            } else if status == "LOGIN"@ {
                "Login failed: Invalid credentials or session limit reached"@
            } else if status.len() > 0 {
                "Login failed (status: "@ + status + ")"@
            } else {
                "Unexpected response from portal"@
            },
        )
    }
}

/// Decides a login reply from its upper-cased status and its message.
pub fn login_reply(username: &str, status_upper: &str, message: &str) -> (r: Result<String, String>)
    ensures
        result_text(r) == login_verdict(username@, status_upper@, message@),
{
    let status_chars = chars_of(status_upper);
    if same_text(&status_chars, "LIVE") {
        if !message.is_empty() {
            Ok(String::from_str(message))
        } else {
            Ok(string_of(&concat_chars(&chars_of("Signed in as "), &chars_of(username))))
        }
    } else if !message.is_empty() {
        Err(String::from_str(message))
    } else if same_text(&status_chars, "LOGIN") {
        Err(String::from_str("Login failed: Invalid credentials or session limit reached"))
    } else if status_chars.len() > 0 {
        let a = concat_chars(&chars_of("Login failed (status: "), &status_chars);
        Err(string_of(&concat_chars(&a, &chars_of(")"))))
    } else {
        Err(String::from_str("Unexpected response from portal"))
    }
}

/// The outcome of a login request for `username`, given how the request ended.
pub open spec fn login_outcome(username: Seq<char>, reply: PortalReply) -> Result<Seq<char>, Seq<char>> {
    match reply {
        PortalReply::Unreachable(e) => Err("Portal unreachable ("@ + e@ + ")"@),
        PortalReply::BadBody(e) => Err("Invalid response body: "@ + e@),
        PortalReply::Body(b) => login_result(username, b@),
    }
}

/// The text of a result of texts.
pub open spec fn result_text(r: Result<String, String>) -> Result<Seq<char>, Seq<char>> {
    match r {
        Ok(s) => Ok(s@),
        Err(s) => Err(s@),
    }
}

fn field_text(fields: &TextMap, key: &str) -> (r: String)
    ensures
        r@ == field_or_empty(fields@, key@),
{
    match fields.get(key) {
        Some(v) => v.clone(),
        None => String::new(),
    }
}

/// Decides what a login reply for `username` means.
pub fn do_login(username: &str, reply: PortalReply) -> (r: Result<String, String>)
    ensures
        result_text(r) == login_outcome(username@, reply),
{
    match reply {
        PortalReply::Unreachable(e) => {
            let a = concat_chars(&chars_of("Portal unreachable ("), &chars_of(e.as_str()));
            Err(string_of(&concat_chars(&a, &chars_of(")"))))
        },
        PortalReply::BadBody(e) => {
            Err(string_of(&concat_chars(&chars_of("Invalid response body: "), &chars_of(e.as_str()))))
        },
        PortalReply::Body(body) => {
            let fields = parse_xml(body.as_str());
            let status = field_text(&fields, "status").as_str().to_uppercase();
            let message = field_text(&fields, "message");
            login_reply(username, status.as_str(), message.as_str())
        },
    }
}

/// The outcome of a logout request: the reply's message, else its logout
/// message, else a default text.
pub open spec fn logout_outcome(reply: PortalReply) -> Result<Seq<char>, Seq<char>> {
    match reply {
        PortalReply::Unreachable(e) => Err("Portal unreachable ("@ + e@ + ")"@),
        PortalReply::BadBody(e) => Err("Invalid response body: "@ + e@),
        PortalReply::Body(b) => {
            let fields = parsed_xml(b@);
            Ok(
                if fields.contains_key("message"@) {
                    fields["message"@]
                } else if fields.contains_key("logoutmessage"@) {
                    fields["logoutmessage"@]
                } else {
                    "Signed out successfully"@
                },
            )
        },
    }
}

/// Decides what a logout reply means.
pub fn do_logout(reply: PortalReply) -> (r: Result<String, String>)
    ensures
        result_text(r) == logout_outcome(reply),
{
    match reply {
        PortalReply::Unreachable(e) => {
            let a = concat_chars(&chars_of("Portal unreachable ("), &chars_of(e.as_str()));
            Err(string_of(&concat_chars(&a, &chars_of(")"))))
        },
        PortalReply::BadBody(e) => {
            Err(string_of(&concat_chars(&chars_of("Invalid response body: "), &chars_of(e.as_str()))))
        },
        PortalReply::Body(body) => {
            let fields = parse_xml(body.as_str());
            match fields.get("message") {
                Some(m) => Ok(m.clone()),
                None => match fields.get("logoutmessage") {
                    Some(m) => Ok(m.clone()),
                    None => Ok(String::from_str("Signed out successfully")),
                },
            }
        },
    }
}

/// Whether a keepalive reply confirms the session: its `ack` is `ack` or its
/// status mentions `live` or `ok` (both compared in lower case); a failed
/// request or unreadable body confirms nothing.
pub open spec fn live_confirmed(reply: PortalReply) -> bool {
    match reply {
        PortalReply::Body(b) => {
            let fields = parsed_xml(b@);
            live_verdict(
                lowercase_text(field_or_empty(fields, "ack"@)),
                lowercase_text(field_or_empty(fields, "status"@)),
            )
        },
        _ => false,
    }
}

/// Whether a keepalive reply with the (lower-cased) `ack` and `status`
/// confirms the session: the ack is `ack`, or the status mentions `live` or
/// `ok`.
pub open spec fn live_verdict(ack: Seq<char>, status: Seq<char>) -> bool {
    ack == "ack"@ || contains_text(status, "live"@) || contains_text(status, "ok"@)
}

/// Decides a keepalive reply from its lower-cased ack and status.
pub fn live_answer(ack_lower: &str, status_lower: &str) -> (r: bool)
    ensures
        r == live_verdict(ack_lower@, status_lower@),
{
    let status = chars_of(status_lower);
    same_text(&chars_of(ack_lower), "ack") || contains_exec(&status, &chars_of("live")) || contains_exec(
        &status,
        &chars_of("ok"),
    )
}

/// Decides whether a keepalive reply confirms the session.
pub fn is_live_reply(reply: &PortalReply) -> (r: bool)
    ensures
        r == live_confirmed(*reply),
{
    match reply {
        PortalReply::Body(body) => {
            let fields = parse_xml(body.as_str());
            let ack = field_text(&fields, "ack").as_str().to_lowercase();
            let status = field_text(&fields, "status").as_str().to_lowercase();
            live_answer(ack.as_str(), status.as_str())
        },
        _ => false,
    }
}

/// Whether the gateway's answer to the probe shows it online: an HTTP status
/// from 200 up to (not including) 500; `None` when no status came back.
pub open spec fn portal_online(status: Option<u16>) -> bool {
    match status {
        Some(code) => 200 <= code < 500,
        None => false,
    }
}

/// Decides whether the gateway answered the probe.
pub fn is_portal_online(status: Option<u16>) -> (r: bool)
    ensures
        r == portal_online(status),
{
    match status {
        Some(code) => code >= 200 && code < 500,
        None => false,
    }
}

/// What the session check does next.
pub enum LiveStep {
    /// The check is over, with this answer.
    Done(bool),
    /// Wait 500 ms, then ask once more; that answer is final.
    RetryAfterPause,
}

/// After the first keepalive answer: a confirmed session ends the check; an
/// unconfirmed one ends it too unless a retry was asked for.
pub fn check_live(first_confirmed: bool, retry: bool) -> (r: LiveStep)
    ensures
        first_confirmed ==> r == LiveStep::Done(true),
        !first_confirmed && !retry ==> r == LiveStep::Done(false),
        !first_confirmed && retry ==> r == LiveStep::RetryAfterPause,
{
    if first_confirmed {
        LiveStep::Done(true)
    } else if !retry {
        LiveStep::Done(false)
    } else {
        LiveStep::RetryAfterPause
    }
}

} // verus!

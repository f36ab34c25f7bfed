//! The conversation with a player process: newline-delimited JSON.
//!
//! Replies are correlated by `request_id`; everything else is an event,
//! including the `property-change` notifications that were subscribed to. The
//! host reads and writes the socket; the [`Bus`] holds what was said.

use std::collections::{HashMap, HashSet};

use vstd::prelude::*;
use vstd::string::StringSliceAdditionalSpecFns;

use crate::fixed::{decimal, decimal_chars, lemma_decimal_shape, Fixed};
use crate::json::{
    copy_json, document, escaped, escapes, hex_char, parse_json, quotation, quote, Json, JsonView,
};
use crate::number::{all_digits, digits, lemma_digits, print};
use crate::table::Named;
use crate::text::{
    add_chars, add_text, chars_of, copy_text, reads, string_of, text_view, trim, trimmed,
};

verus! {

broadcast use vstd::std_specs::hash::group_hash_axioms;

/// The properties that are subscribed to. Everything needed to show what plays
/// is here, so the common path asks nothing.
pub open spec fn observed_names() -> Seq<Seq<char>> {
    seq![
        "time-pos"@,
        "duration"@,
        "pause"@,
        "eof-reached"@,
        "path"@,
        "vid"@,
        "current-vo"@,
        "core-idle"@,
        "idle-active"@,
        "speed"@,
        "volume"@,
    ]
}

/// The properties that are subscribed to.
pub fn observed() -> (r: Vec<&'static str>)
    ensures
        crate::null::slices(r@) == observed_names(),
{
    let mut out: Vec<&'static str> = Vec::new();
    out.push("time-pos");
    out.push("duration");
    out.push("pause");
    out.push("eof-reached");
    out.push("path");
    out.push("vid");
    out.push("current-vo");
    out.push("core-idle");
    out.push("idle-active");
    out.push("speed");
    out.push("volume");
    assert(crate::null::slices(out@) =~= observed_names());
    out
}

/// What was said on the connection.
#[derive(Debug)]
pub struct Bus {
    replies: HashMap<u64, Json>,
    props: Named<Json>,
    file_loaded: u64,
    end_file: u64,
    connected: bool,
    reason: Option<String>,
    abandoned: HashSet<u64>,
    next_id: u64,
}

/// What was said on the connection.
#[verifier::ext_equal]
pub struct BusView {
    /// Replies that nobody has taken yet, by request.
    pub replies: Map<u64, JsonView>,
    /// The latest value of each property.
    pub props: Map<Seq<char>, JsonView>,
    /// How often a file was loaded, so that a loader can wait for its own.
    pub file_loaded: u64,
    /// How often a file ended.
    pub end_file: u64,
    pub connected: bool,
    /// Why the connection ended, if it did.
    pub reason: Option<Seq<char>>,
    /// Requests whose caller gave up.
    pub abandoned: Set<u64>,
    /// What the next request is called.
    pub next_id: u64,
}

pub open spec fn more(n: u64) -> u64 {
    if n < u64::MAX {
        (n + 1) as u64
    } else {
        n
    }
}

/// A value, or null where there is none.
pub open spec fn or_null(v: Option<JsonView>) -> JsonView {
    match v {
        Some(v) => v,
        None => JsonView::Null,
    }
}

/// The request that a message answers.
pub open spec fn answered(msg: JsonView) -> Option<nat> {
    match msg.get("request_id"@) {
        Some(v) => v.whole(),
        None => None,
    }
}

/// The text behind a key.
pub open spec fn text_at(msg: JsonView, key: Seq<char>) -> Option<Seq<char>> {
    match msg.get(key) {
        Some(v) => v.text(),
        None => None,
    }
}

impl BusView {
    pub open spec fn fresh() -> BusView {
        BusView {
            replies: Map::empty(),
            props: Map::empty(),
            file_loaded: 0,
            end_file: 0,
            connected: true,
            reason: None,
            abandoned: Set::empty(),
            next_id: 1,
        }
    }

    /// No reply is kept for a caller that gave up.
    pub open spec fn wf(self) -> bool {
        forall|rid: u64| #[trigger]
            self.abandoned.contains(rid) ==> !self.replies.dom().contains(rid)
    }

    /// A message taken in. A reply to a request that nobody waits for any more is
    /// dropped; a property without data has become unavailable.
    pub open spec fn dispatched(self, msg: JsonView) -> BusView {
        match answered(msg) {
            Some(rid) => if self.abandoned.contains(rid as u64) {
                BusView { abandoned: self.abandoned.remove(rid as u64), ..self }
            } else {
                BusView { replies: self.replies.insert(rid as u64, msg), ..self }
            },
            None => {
                let event = text_at(msg, "event"@);
                if event == Some("property-change"@) {
                    match text_at(msg, "name"@) {
                        Some(name) => BusView {
                            props: self.props.insert(name, or_null(msg.get("data"@))),
                            ..self
                        },
                        None => self,
                    }
                } else if event == Some("file-loaded"@) {
                    BusView { file_loaded: more(self.file_loaded), ..self }
                } else if event == Some("end-file"@) {
                    BusView { end_file: more(self.end_file), ..self }
                } else {
                    self
                }
            },
        }
    }

    /// A line taken in. A blank or malformed one is no reason to give up a
    /// working connection.
    pub open spec fn heard(self, line: Seq<char>, bytes: Seq<u8>) -> BusView {
        if trimmed(line).len() == 0 {
            self
        } else {
            match document(bytes) {
                Some(msg) => self.dispatched(msg),
                None => self,
            }
        }
    }

    /// The caller of a request gives up: what came for it is dropped, and so is
    /// what still comes.
    pub open spec fn given_up(self, rid: u64) -> BusView {
        BusView {
            replies: self.replies.remove(rid),
            abandoned: self.abandoned.insert(rid),
            ..self
        }
    }

    /// The latest value of a property, or null.
    pub open spec fn prop(self, name: Seq<char>) -> JsonView {
        if self.props.dom().contains(name) {
            self.props[name]
        } else {
            JsonView::Null
        }
    }
}

pub open spec fn said_values(m: Map<u64, Json>) -> Map<u64, JsonView> {
    m.map_values(|j: Json| j@)
}

pub open spec fn said_props(m: Map<Seq<char>, Json>) -> Map<Seq<char>, JsonView> {
    m.map_values(|j: Json| j@)
}

impl View for Bus {
    type V = BusView;

    closed spec fn view(&self) -> BusView {
        BusView {
            replies: said_values(self.replies@),
            props: said_props(self.props@),
            file_loaded: self.file_loaded,
            end_file: self.end_file,
            connected: self.connected,
            reason: text_view(self.reason),
            abandoned: self.abandoned@,
            next_id: self.next_id,
        }
    }
}

/// What a request came to.
#[derive(Debug)]
pub enum Poll {
    /// The reply: its data, and the error it names.
    Reply { data: Json, error: String },
    /// The connection is gone, and why.
    Disconnected(String),
    /// It took too long.
    Timeout,
    /// Nothing yet.
    Wait,
}

/// What a request came to.
pub enum PollView {
    Reply { data: JsonView, error: Seq<char> },
    Disconnected(Seq<char>),
    Timeout,
    Wait,
}

impl View for Poll {
    type V = PollView;

    open spec fn view(&self) -> PollView {
        match *self {
            Poll::Reply { data, error } => PollView::Reply { data: data@, error: error@ },
            Poll::Disconnected(reason) => PollView::Disconnected(reason@),
            Poll::Timeout => PollView::Timeout,
            Poll::Wait => PollView::Wait,
        }
    }
}

/// The error that a reply names; a reply without one is a success.
pub open spec fn error_of(msg: JsonView) -> Seq<char> {
    match text_at(msg, "error"@) {
        Some(e) => e,
        None => "success"@,
    }
}

/// What a request has come to, and the bus after it. `woke_late` is whether the
/// wait before this look ran out, `overdue` whether the deadline has passed.
pub open spec fn polled(bus: BusView, rid: u64, woke_late: bool, overdue: bool) -> (
    PollView,
    BusView,
) {
    if bus.replies.dom().contains(rid) {
        let msg = bus.replies[rid];
        (
            PollView::Reply { data: or_null(msg.get("data"@)), error: error_of(msg) },
            BusView { replies: bus.replies.remove(rid), ..bus },
        )
    } else if woke_late {
        (PollView::Timeout, bus.given_up(rid))
    } else if !bus.connected {
        (
            PollView::Disconnected(
                match bus.reason {
                    Some(reason) => reason,
                    None => "mpv is gone"@,
                },
            ),
            bus.given_up(rid),
        )
    } else if overdue {
        (PollView::Timeout, bus.given_up(rid))
    } else {
        (PollView::Wait, bus)
    }
}

/// Whether a file has been loaded since, or never will be; nothing while it may
/// still be.
pub open spec fn loaded_since(bus: BusView, since: u64, woke_late: bool, overdue: bool) -> Option<
    bool,
> {
    if bus.file_loaded > since {
        Some(true)
    } else if woke_late || !bus.connected || overdue {
        Some(false)
    } else {
        None
    }
}

impl Bus {
    pub closed spec fn sound(&self) -> bool {
        self.props.wf()
    }

    pub open spec fn wf(&self) -> bool {
        self.sound() && self@.wf()
    }

    /// A connection that has just been made.
    pub fn new() -> (r: Self)
        ensures
            r.wf(),
            r@ == BusView::fresh(),
    {
        let r = Bus {
            replies: HashMap::new(),
            props: Named::new(),
            file_loaded: 0,
            end_file: 0,
            connected: true,
            reason: None,
            abandoned: HashSet::new(),
            next_id: 1,
        };
        assert(r@ =~= BusView::fresh());
        r
    }

    /// A name for a request. They count up from one, and start again at zero after
    /// the last.
    pub fn next_request(&mut self) -> (r: u64)
        requires
            old(self).wf(),
        ensures
            final(self).wf(),
            r == old(self)@.next_id,
            final(self)@ == (BusView {
                next_id: if r < u64::MAX {
                    (r + 1) as u64
                } else {
                    0
                },
                ..old(self)@
            }),
    {
        let r: u64 = self.next_id;
        self.next_id = if r < u64::MAX {
            r + 1
        } else {
            0
        };
        r
    }

    /// Stop waiting for a request: drop anything that came for it, and remember to
    /// drop a reply that comes later.
    pub fn abandon(&mut self, rid: u64)
        requires
            old(self).wf(),
        ensures
            final(self).wf(),
            final(self)@ == old(self)@.given_up(rid),
    {
        self.replies.remove(&rid);
        self.abandoned.insert(rid);
        assert(self@ =~= old(self)@.given_up(rid));
    }

    /// Take a message in.
    pub fn dispatch(&mut self, msg: Json)
        requires
            old(self).wf(),
        ensures
            final(self).wf(),
            final(self)@ == old(self)@.dispatched(msg@),
    {
        let rid: Option<u64> = match msg.get("request_id") {
            Some(v) => v.as_u64(),
            None => None,
        };
        match rid {
            Some(rid) => {
                if self.abandoned.remove(&rid) {
                    assert(self@ =~= old(self)@.dispatched(msg@));
                    return;
                }
                assert(!old(self)@.abandoned.contains(rid));
                assert(self@.abandoned =~= old(self)@.abandoned);
                let ghost said = msg@;
                self.replies.insert(rid, msg);
                assert(self@ =~= old(self)@.dispatched(said));
            },
            None => {
                let event = match msg.get("event") {
                    Some(v) => match v.as_str() {
                        Some(t) => chars_of(t.as_str()),
                        None => {
                            return;
                        },
                    },
                    None => {
                        return;
                    },
                };
                if reads(event.as_slice(), "property-change") {
                    let name = match msg.get("name") {
                        Some(v) => match v.as_str() {
                            Some(t) => t.clone(),
                            None => {
                                return;
                            },
                        },
                        None => {
                            return;
                        },
                    };
                    let data = match msg.get("data") {
                        Some(v) => copy_json(v),
                        None => Json::Null,
                    };
                    self.props.set(name.as_str(), data);
                    assert(self@ =~= old(self)@.dispatched(msg@));
                } else if reads(event.as_slice(), "file-loaded") {
                    if self.file_loaded < u64::MAX {
                        self.file_loaded = self.file_loaded + 1;
                    }
                } else if reads(event.as_slice(), "end-file") {
                    if self.end_file < u64::MAX {
                        self.end_file = self.end_file + 1;
                    }
                }
            },
        }
    }

    /// Take a line in.
    pub fn hear(&mut self, line: &str)
        requires
            old(self).wf(),
        ensures
            final(self).wf(),
            final(self)@ == old(self)@.heard(line@, line.spec_bytes()),
    {
        let chars = chars_of(line);
        if trim(chars.as_slice()).len() == 0 {
            return;
        }
        match parse_json(line.as_bytes()) {
            Some(msg) => self.dispatch(msg),
            None => {},
        }
    }

    /// The connection has ended.
    pub fn mark_disconnected(&mut self, reason: String)
        requires
            old(self).wf(),
        ensures
            final(self).wf(),
            final(self)@ == (BusView { connected: false, reason: Some(reason@), ..old(self)@ }),
    {
        self.connected = false;
        self.reason = Some(reason);
    }

    pub fn is_connected(&self) -> (r: bool)
        ensures
            r == self@.connected,
    {
        self.connected
    }

    /// Why the connection ended, if it did.
    pub fn disconnect_reason(&self) -> (r: Option<String>)
        ensures
            text_view(r) == self@.reason,
    {
        copy_text(&self.reason)
    }

    /// Look whether a request has come to anything.
    pub fn poll(&mut self, rid: u64, woke_late: bool, overdue: bool) -> (r: Poll)
        requires
            old(self).wf(),
        ensures
            final(self).wf(),
            (r@, final(self)@) == polled(old(self)@, rid, woke_late, overdue),
    {
        match self.replies.remove(&rid) {
            Some(msg) => {
                let data = match msg.get("data") {
                    Some(v) => copy_json(v),
                    None => Json::Null,
                };
                let error = match msg.get("error") {
                    Some(v) => match v.as_str() {
                        Some(t) => t.clone(),
                        None => "success".to_owned(),
                    },
                    None => "success".to_owned(),
                };
                assert(self@ =~= (BusView {
                    replies: old(self)@.replies.remove(rid),
                    ..old(self)@
                }));
                return Poll::Reply { data, error };
            },
            None => {},
        }
        assert(self@ =~= old(self)@);
        if woke_late {
            self.abandon(rid);
            return Poll::Timeout;
        }
        if !self.connected {
            self.abandon(rid);
            return Poll::Disconnected(
                match &self.reason {
                    Some(reason) => reason.clone(),
                    None => "mpv is gone".to_owned(),
                },
            );
        }
        if overdue {
            self.abandon(rid);
            return Poll::Timeout;
        }
        Poll::Wait
    }

    /// Record a value that was just set successfully. The player answers before
    /// it sends the matching notification, so until then the observed value would
    /// be stale.
    pub fn cache_prop(&mut self, name: &str, value: Json)
        requires
            old(self).wf(),
        ensures
            final(self).wf(),
            final(self)@ == (BusView {
                props: old(self)@.props.insert(name@, value@),
                ..old(self)@
            }),
    {
        self.props.set(name, value);
        assert(self@ =~= (BusView {
            props: old(self)@.props.insert(name@, value@),
            ..old(self)@
        }));
    }

    /// The latest value of a property, or null.
    pub fn prop(&self, name: &str) -> (r: Json)
        requires
            self.wf(),
        ensures
            r@ == self@.prop(name@),
    {
        match self.props.get(name) {
            Some(v) => copy_json(v),
            None => Json::Null,
        }
    }

    /// How often a file was loaded.
    pub fn file_loaded_generation(&self) -> (r: u64)
        ensures
            r == self@.file_loaded,
    {
        self.file_loaded
    }

    /// Whether a file was loaded past `since`, or will not be any more.
    pub fn poll_file_loaded(&self, since: u64, woke_late: bool, overdue: bool) -> (r: Option<bool>)
        ensures
            r == loaded_since(self@, since, woke_late, overdue),
    {
        if self.file_loaded > since {
            Some(true)
        } else if woke_late || !self.connected || overdue {
            Some(false)
        } else {
            None
        }
    }
}

/// A word of a command.
#[derive(Debug)]
pub enum Arg {
    Text(String),
    Number(Fixed),
    Whole(u64),
    Flag(bool),
}

/// A word of a command, with its text as a sequence of characters.
pub enum ArgView {
    Text(Seq<char>),
    Number(Fixed),
    Whole(u64),
    Flag(bool),
}

impl View for Arg {
    type V = ArgView;

    open spec fn view(&self) -> ArgView {
        match *self {
            Arg::Text(t) => ArgView::Text(t@),
            Arg::Number(n) => ArgView::Number(n),
            Arg::Whole(n) => ArgView::Whole(n),
            Arg::Flag(b) => ArgView::Flag(b),
        }
    }
}

impl Clone for Arg {
    fn clone(&self) -> (r: Self)
        ensures
            r == *self,
    {
        match self {
            Arg::Text(t) => Arg::Text(t.clone()),
            Arg::Number(n) => Arg::Number(*n),
            Arg::Whole(n) => Arg::Whole(*n),
            Arg::Flag(b) => Arg::Flag(*b),
        }
    }
}

/// A word as it stands in a line. What is no finite number is null.
pub open spec fn word_text(arg: ArgView) -> Seq<char> {
    match arg {
        ArgView::Text(t) => quotation(t),
        ArgView::Number(Fixed::Nanos(n)) => decimal(n as int),
        ArgView::Number(_) => "null"@,
        ArgView::Whole(n) => digits(n as nat),
        ArgView::Flag(b) => if b {
            "true"@
        } else {
            "false"@
        },
    }
}

/// A word as a value.
pub open spec fn word_value(arg: ArgView) -> JsonView {
    match arg {
        ArgView::Text(t) => JsonView::Text(t),
        ArgView::Number(Fixed::Nanos(n)) => JsonView::Number(decimal(n as int)),
        ArgView::Number(_) => JsonView::Null,
        ArgView::Whole(n) => JsonView::Number(digits(n as nat)),
        ArgView::Flag(b) => JsonView::Bool(b),
    }
}

impl Arg {
    /// The word as a value.
    pub fn value(&self) -> (r: Json)
        ensures
            r@ == word_value(self@),
    {
        match self {
            Arg::Text(t) => Json::Text(t.clone()),
            Arg::Number(Fixed::Nanos(n)) => {
                let chars = decimal_chars(*n);
                Json::Number(string_of(chars.as_slice()))
            },
            Arg::Number(_) => Json::Null,
            Arg::Whole(n) => {
                let chars = print(*n as u128);
                Json::Number(string_of(chars.as_slice()))
            },
            Arg::Flag(b) => Json::Bool(*b),
        }
    }
}

/// Words with commas between them.
pub open spec fn words_text(args: Seq<ArgView>) -> Seq<char>
    decreases args.len(),
{
    if args.len() == 0 {
        Seq::empty()
    } else if args.len() == 1 {
        word_text(args[0])
    } else {
        words_text(args.drop_last()) + ","@ + word_text(args.last())
    }
}

/// A request as a line.
pub open spec fn request_text(args: Seq<ArgView>, rid: u64) -> Seq<char> {
    "{\"command\":["@ + words_text(args) + "],\"request_id\":"@ + digits(rid as nat) + "}"@
}

pub open spec fn arg_views(args: Seq<Arg>) -> Seq<ArgView> {
    Seq::new(args.len(), |i: int| args[i]@)
}

fn word(arg: &Arg) -> (r: Result<Vec<char>, String>)
    ensures
        r matches Ok(chars) && chars@ == word_text(arg@),
{
    match arg {
        Arg::Text(t) => match quote(t.as_str()) {
            Ok(quoted) => Ok(chars_of(quoted.as_str())),
            Err(e) => Err(e),
        },
        Arg::Number(Fixed::Nanos(n)) => Ok(decimal_chars(*n)),
        Arg::Number(_) => Ok(chars_of("null")),
        Arg::Whole(n) => Ok(print(*n as u128)),
        Arg::Flag(b) => Ok(
            chars_of(
                if *b {
                    "true"
                } else {
                    "false"
                },
            ),
        ),
    }
}

/// A request as a line, or what kept it from being written: nothing does, as long
/// as every text can be quoted.
pub fn encode_request(args: &Vec<Arg>, rid: u64) -> (r: Result<String, String>)
    ensures
        r matches Ok(line) && line@ == request_text(arg_views(args@), rid),
{
    let ghost all = arg_views(args@);
    let mut out = chars_of("{\"command\":[");
    let ghost head = out@;
    let mut i: usize = 0;
    assert(head + words_text(all.take(0)) =~= head);
    while i < args.len()
        invariant
            i <= args@.len(),
            all == arg_views(args@),
            head == "{\"command\":["@,
            out@ == head + words_text(all.take(i as int)),
        decreases args@.len() - i,
    {
        let ghost so_far = words_text(all.take(i as int));
        proof {
            assert(all.take(i as int + 1).drop_last() =~= all.take(i as int));
            assert(all.take(i as int + 1).last() == args@[i as int]@);
        }
        let chars = word(&args[i])?;
        if i > 0 {
            add_text(&mut out, ",");
        }
        add_chars(&mut out, chars.as_slice());
        assert(out@ =~= head + words_text(all.take(i as int + 1)));
        i = i + 1;
    }
    assert(all.take(i as int) =~= all);
    let number = print(rid as u128);
    add_text(&mut out, "],\"request_id\":");
    add_chars(&mut out, number.as_slice());
    add_text(&mut out, "}");
    Ok(string_of(out.as_slice()))
}

/// Once its caller has given up, a reply that still comes is not kept, and is
/// not waited for any more.
pub proof fn law_late_reply_is_dropped(bus: BusView, rid: u64, msg: JsonView)
    requires
        answered(msg) == Some(rid as nat),
    ensures
        bus.given_up(rid).dispatched(msg).replies == bus.replies.remove(rid),
        !bus.given_up(rid).dispatched(msg).abandoned.contains(rid),
{
}

/// A reply that somebody waits for reaches them.
pub proof fn law_reply_reaches_its_caller(bus: BusView, rid: u64, msg: JsonView, late: bool)
    requires
        answered(msg) == Some(rid as nat),
        !bus.abandoned.contains(rid),
    ensures
        polled(bus.dispatched(msg), rid, late, late).0 == (PollView::Reply {
            data: or_null(msg.get("data"@)),
            error: error_of(msg),
        }),
{
}

/// Taking messages in never keeps a reply for a caller that gave up.
pub proof fn law_nothing_is_kept_for_nobody(bus: BusView, msg: JsonView)
    requires
        bus.wf(),
    ensures
        bus.dispatched(msg).wf(),
{
}

/// A property that has become unavailable is null, not what it was before.
pub proof fn law_unavailable_property_is_null(bus: BusView, msg: JsonView, name: Seq<char>)
    requires
        answered(msg) is None,
        text_at(msg, "event"@) == Some("property-change"@),
        text_at(msg, "name"@) == Some(name),
        msg.get("data"@) is None,
    ensures
        bus.dispatched(msg).prop(name) is Null,
{
}

/// Whether a text holds no control character, so that it stays on one line.
pub open spec fn printable(s: Seq<char>) -> bool {
    forall|i: int| 0 <= i < s.len() ==> #[trigger] s[i] >= ' '
}

proof fn lemma_joined_printable(a: Seq<char>, b: Seq<char>)
    requires
        printable(a),
        printable(b),
    ensures
        printable(a + b),
{
}

proof fn lemma_escaped_printable(c: char)
    ensures
        printable(escaped(c)),
{
    if (c as u32) < 32 {
        assert(hex_char(c as u32 / 16) >= '0');
        assert(hex_char(c as u32 % 16) >= '0');
    } else {
        assert(c >= ' ');
    }
}

proof fn lemma_escapes_printable(s: Seq<char>)
    ensures
        printable(escapes(s)),
    decreases s.len(),
{
    if s.len() > 0 {
        lemma_escapes_printable(s.drop_last());
        lemma_escaped_printable(s.last());
        lemma_joined_printable(escapes(s.drop_last()), escaped(s.last()));
    }
}

proof fn lemma_word_printable(arg: ArgView)
    ensures
        printable(word_text(arg)),
{
    reveal_strlit("null");
    reveal_strlit("true");
    reveal_strlit("false");
    match arg {
        ArgView::Text(t) => {
            lemma_escapes_printable(t);
        },
        ArgView::Number(Fixed::Nanos(n)) => {
            let m: nat = if n < 0 {
                (-n) as nat
            } else {
                n as nat
            };
            lemma_decimal_shape(m);
            if n < 0 {
                assert(decimal(n as int) =~= seq!['-'] + decimal(m as int));
            }
        },
        ArgView::Whole(n) => {
            lemma_digits(n as nat);
            assert(all_digits(digits(n as nat)));
        },
        _ => {},
    }
}

proof fn lemma_words_printable(args: Seq<ArgView>)
    ensures
        printable(words_text(args)),
    decreases args.len(),
{
    reveal_strlit(",");
    if args.len() == 1 {
        lemma_word_printable(args[0]);
    } else if args.len() > 1 {
        lemma_words_printable(args.drop_last());
        lemma_word_printable(args.last());
        lemma_joined_printable(words_text(args.drop_last()), ","@);
        lemma_joined_printable(words_text(args.drop_last()) + ","@, word_text(args.last()));
    }
}

/// A request is one line, whatever its words hold: a line end within a text is
/// escaped.
pub proof fn law_request_is_one_line(args: Seq<ArgView>, rid: u64)
    ensures
        printable(request_text(args, rid)),
{
    reveal_strlit("{\"command\":[");
    reveal_strlit("],\"request_id\":");
    reveal_strlit("}");
    lemma_words_printable(args);
    lemma_digits(rid as nat);
    assert(all_digits(digits(rid as nat)));
    let a = "{\"command\":["@ + words_text(args);
    let b = a + "],\"request_id\":"@;
    lemma_joined_printable("{\"command\":["@, words_text(args));
    lemma_joined_printable(a, "],\"request_id\":"@);
    lemma_joined_printable(b, digits(rid as nat));
    lemma_joined_printable(b + digits(rid as nat), "}"@);
}

} // verus!

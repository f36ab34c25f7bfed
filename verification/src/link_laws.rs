//! What holds of the conversation with a player process, and of the engine that
//! plays nothing.

use vstd::prelude::*;

use crate::fixed::{product, Fixed};
use crate::ipc::{
    answered, loaded_since, polled, request_text, text_at, word_text, words_text, ArgView, BusView,
    PollView,
};
use crate::json::JsonView;
use crate::null::{fresh, looks_like_video, NullView};
use crate::number::digits;
use crate::text::lowered;
use crate::text_laws::{blank, law_blank_texts, law_last_place};

verus! {

/// A property that changes is known by its latest value, and no other property is
/// touched by it.
pub proof fn law_properties_are_kept(bus: BusView, msg: JsonView, name: Seq<char>, data: JsonView)
    requires
        answered(msg) is None,
        text_at(msg, "event"@) == Some("property-change"@),
        text_at(msg, "name"@) == Some(name),
        msg.get("data"@) == Some(data),
    ensures
        bus.dispatched(msg).prop(name) == data,
        forall|other: Seq<char>|
            other != name ==> #[trigger] bus.dispatched(msg).prop(other) == bus.prop(other),
        bus.dispatched(msg) == (BusView { props: bus.dispatched(msg).props, ..bus }),
        BusView::fresh().prop(name) is Null,
{
}

/// Files that are loaded and files that end are counted, each on its own.
pub proof fn law_events_are_counted(bus: BusView, msg: JsonView)
    requires
        answered(msg) is None,
        bus.file_loaded < u64::MAX,
        bus.end_file < u64::MAX,
    ensures
        text_at(msg, "event"@) == Some("file-loaded"@) ==> bus.dispatched(msg) == (BusView {
            file_loaded: (bus.file_loaded + 1) as u64,
            ..bus
        }),
        text_at(msg, "event"@) == Some("end-file"@) ==> bus.dispatched(msg) == (BusView {
            end_file: (bus.end_file + 1) as u64,
            ..bus
        }),
{
    reveal_strlit("property-change");
    reveal_strlit("file-loaded");
    reveal_strlit("end-file");
    assert("property-change"@.len() == 15 && "file-loaded"@.len() == 11 && "end-file"@.len()
        == 8);
}

/// A message that is no reply and none of the events that are listened for changes
/// nothing; neither does a blank line, or one that is no message.
pub proof fn law_other_messages_mean_nothing(
    bus: BusView,
    msg: JsonView,
    line: Seq<char>,
    bytes: Seq<u8>,
)
    ensures
        answered(msg) is None && text_at(msg, "event"@) is None ==> bus.dispatched(msg) == bus,
        answered(msg) is None && text_at(msg, "event"@) is Some && text_at(msg, "event"@)->0
            != "property-change"@ && text_at(msg, "event"@)->0 != "file-loaded"@ && text_at(
            msg,
            "event"@,
        )->0 != "end-file"@ ==> bus.dispatched(msg) == bus,
        blank(line) ==> bus.heard(line, bytes) == bus,
        crate::json::document(bytes) is None ==> bus.heard(line, bytes) == bus,
        !blank(line) && crate::json::document(bytes) == Some(msg) ==> bus.heard(line, bytes)
            == bus.dispatched(msg),
{
    law_blank_texts(line);
}

/// A reply is told by its data and its error, null and success where it names none,
/// and is taken once.
pub proof fn law_replies_are_taken_once(bus: BusView, rid: u64, late: bool, overdue: bool)
    requires
        bus.replies.dom().contains(rid),
    ensures
        ({
            let msg = bus.replies[rid];
            let (said, after) = polled(bus, rid, late, overdue);
            &&& said is Reply
            &&& msg.get("data"@) is Some ==> said->data == msg.get("data"@)->0
            &&& msg.get("data"@) is None ==> said->data is Null
            &&& text_at(msg, "error"@) is Some ==> said->error == text_at(msg, "error"@)->0
            &&& text_at(msg, "error"@) is None ==> said->error == "success"@
            &&& after == (BusView { replies: bus.replies.remove(rid), ..bus })
        }),
{
}

/// A request that has no reply yet is waited for while the connection stands and
/// its time has not run out; else it ends, and a later reply to it is not wanted.
pub proof fn law_waiting_for_a_reply(bus: BusView, rid: u64, late: bool, overdue: bool)
    requires
        !bus.replies.dom().contains(rid),
    ensures
        ({
            let (said, after) = polled(bus, rid, late, overdue);
            &&& !late && bus.connected && !overdue ==> said is Wait && after == bus
            &&& late || (bus.connected && overdue) ==> said is Timeout
            &&& !late && !bus.connected ==> said == PollView::Disconnected(
                match bus.reason {
                    Some(reason) => reason,
                    None => "mpv is gone"@,
                },
            )
            &&& late || !bus.connected || overdue ==> after.abandoned.contains(rid)
                && after.replies == bus.replies && after.props == bus.props && after.connected
                == bus.connected
        }),
{
    assert(bus.replies.remove(rid) =~= bus.replies);
}

/// A file that is waited for has come once the count goes up; it never will where
/// time runs out or the connection ends first.
pub proof fn law_waiting_for_a_file(bus: BusView, since: u64, late: bool, overdue: bool)
    ensures
        bus.file_loaded > since ==> loaded_since(bus, since, late, overdue) == Some(true),
        bus.file_loaded <= since && (late || overdue || !bus.connected) ==> loaded_since(
            bus,
            since,
            late,
            overdue,
        ) == Some(false),
        bus.file_loaded <= since && !late && !overdue && bus.connected ==> loaded_since(
            bus,
            since,
            late,
            overdue,
        ) is None,
{
}

/// A request carries its words in their order, with commas between them, and the
/// number that its reply will carry.
pub proof fn law_words_of_a_request(args: Seq<ArgView>, last: ArgView, rid: u64)
    ensures
        words_text(seq![last]) == word_text(last),
        args.len() > 0 ==> words_text(args.push(last)) == words_text(args) + ","@ + word_text(
            last,
        ),
        request_text(args, rid) == "{\"command\":["@ + words_text(args) + "],\"request_id\":"@
            + digits(rid as nat) + "}"@,
{
    assert(args.push(last).drop_last() =~= args);
}

/// Words that are flags and numbers are written as such.
pub proof fn law_words_are_values(n: u64, m: i128)
    ensures
        word_text(ArgView::Flag(true)) == "true"@,
        word_text(ArgView::Flag(false)) == "false"@,
        word_text(ArgView::Whole(n)) == digits(n as nat),
        word_text(ArgView::Number(Fixed::Nanos(m))) == crate::fixed::decimal(m as int),
        word_text(ArgView::Number(Fixed::NaN)) == "null"@,
        word_text(ArgView::Number(Fixed::PosInfinity)) == "null"@,
        word_text(ArgView::Number(Fixed::NegInfinity)) == "null"@,
{
}

/// Loading starts a file where it was asked to, from the top where nothing was
/// said, and it plays; what was set before it stays set.
pub proof fn law_null_engine_loads(e: NullView, path: Seq<char>, start: Option<Fixed>)
    ensures
        ({
            let after = e.loaded(path, start);
            &&& after.path == Some(path)
            &&& start is Some ==> after.position == start->0
            &&& start is None ==> after.position == Fixed::Nanos(0)
            &&& !after.paused
            &&& !after.video_visible
            &&& after.duration == e.default_duration
            &&& after.has_video == (e.caps.video && looks_like_video(path))
            &&& after.volume == e.volume
            &&& after.speed == e.speed
            &&& after.ontop == e.ontop
            &&& after.shutdown == e.shutdown
            &&& after.caps == e.caps
            &&& after.calls.len() == e.calls.len() + 1
            &&& after.calls.drop_last() == e.calls
        }),
{
    assert(e.loaded(path, start).calls.drop_last() =~= e.calls);
}

/// Stopping unloads the file and forgets where it was; what was set stays set.
pub proof fn law_null_engine_stops(e: NullView)
    ensures
        ({
            let after = e.stopped();
            &&& after.path is None
            &&& after.duration is None
            &&& after.position == Fixed::Nanos(0)
            &&& !after.has_video
            &&& !after.video_visible
            &&& after.volume == e.volume
            &&& after.speed == e.speed
            &&& after.paused == e.paused
            &&& after.default_duration == e.default_duration
            &&& after.calls == e.calls.push("stop()"@)
        }),
{
}

/// Time moves what plays by as much as its speed makes of it, up to the end.
pub proof fn law_null_engine_plays(e: NullView, secs: i128, p: i128, speed: i128, step: i128)
    requires
        !e.paused,
        e.path is Some,
        e.position == Fixed::Nanos(p),
        e.speed == Fixed::Nanos(speed),
        product(secs, speed) == Fixed::Nanos(step),
        i128::MIN <= p + step <= i128::MAX,
    ensures
        e.duration is None ==> e.ticked(Fixed::Nanos(secs)).position == Fixed::Nanos(
            (p + step) as i128,
        ),
        e.duration matches Some(Fixed::Nanos(d)) ==> e.ticked(Fixed::Nanos(secs)).position
            == if p + step < d {
            Fixed::Nanos((p + step) as i128)
        } else {
            Fixed::Nanos(d)
        },
{
}

/// A new engine is idle, at full volume and its own speed, and has been asked for
/// nothing.
pub proof fn law_null_engine_is_new(id: Seq<char>, containers: Seq<Seq<char>>)
    ensures
        ({
            let e = fresh(id, containers);
            &&& e.path is None
            &&& !e.paused && !e.video_visible && !e.has_video && !e.ontop && !e.shutdown
            &&& e.volume == Fixed::Nanos(100_000_000_000)
            &&& e.speed == Fixed::Nanos(1_000_000_000)
            &&& e.default_duration == Some(Fixed::Nanos(180_000_000_000))
            &&& e.calls.len() == 0
            &&& e.caps.id == id
            &&& e.caps.containers == containers
            &&& e.caps.video && e.caps.ontop_window && !e.caps.native_pip
        }),
{
}

/// It takes a file for video by what follows its last dot, in any case.
pub proof fn law_null_engine_sees_video(base: Seq<char>, ext: Seq<char>)
    requires
        !ext.contains('.'),
    ensures
        looks_like_video(base + "."@ + ext) <==> lowered(ext) == "webm"@ || lowered(ext)
            == "mkv"@ || lowered(ext) == "mp4"@ || lowered(ext) == "mov"@,
        !looks_like_video(ext),
{
    reveal_strlit(".");
    law_last_place(base, '.', ext);
    assert(base + "."@ + ext =~= base + seq!['.'] + ext);
    assert((base + seq!['.'] + ext).skip(base.len() as int + 1) =~= ext);
}

} // verus!

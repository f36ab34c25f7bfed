//! What driving mpv comes to, answer by answer: what is sent to it, what is kept as
//! wanted, and what is said of it.

use vstd::prelude::*;

use crate::engine::{EngineErrorView, SnapshotView};
use crate::fixed::{to_places, Fixed};
use crate::ipc::ArgView;
use crate::json::{Json, JsonView};
use crate::layout::{autofit_text, geometry_text, screen_name, VideoWindowLayout};
use crate::mpv_model::{
    applies, awaits, begin_placement_of, end_placement_of, frames, gets, holds_session, lays_out,
    load_of, loads, outlasts, queues, requests, restores, seek_of, set_layout_of, set_ontop_of,
    set_paused_of, set_speed_of, set_visible_of, set_volume_of, sets, shows_video, shutdown_of,
    snapshot_of, start_text, stop_of, surveys, syncs, terminates, DesiredView, MpvActionView,
    MpvAnswer, MpvRun, MpvView,
};
use crate::script::Progress;

verus! {

/// Whether a run waits for this to be done.
pub open spec fn awaits_word<T>(o: MpvRun<T>, a: MpvActionView) -> bool {
    o.end == Progress::<MpvActionView, T, EngineErrorView>::Ask(a)
}

/// Whether a run is over, and this is the engine it leaves.
pub open spec fn ends_as<T>(o: MpvRun<T>, m: MpvView) -> bool {
    o.end is Done && o.state == m
}

/// A request that mpv set a property, and that it be answered within five seconds.
pub open spec fn setting(name: Seq<char>, value: ArgView) -> MpvActionView {
    MpvActionView::Request {
        args: seq![ArgView::Text("set_property"@), ArgView::Text(name), value],
        timeout_ms: 5_000,
    }
}

/// A reply that says success.
pub open spec fn is_success(answer: MpvAnswer) -> bool {
    answer matches MpvAnswer::Reply { data: _, error } && error@ == "success"@
}

/// A session that was started or adopted, of an engine that was not shut down.
pub open spec fn is_up(m: MpvView) -> bool {
    m.live && m.session is Some
}

/// Whether an operation sends one property to a session that is up, records its
/// value, and then wants what it was asked for.
pub open spec fn sends(
    op: spec_fn(Seq<MpvAnswer>) -> MpvRun<()>,
    name: Seq<char>,
    value: ArgView,
    m: MpvView,
    ok: MpvAnswer,
    word: MpvAnswer,
    wanted: DesiredView,
) -> bool {
    &&& awaits_word(op(Seq::empty()), MpvActionView::Alive)
    &&& awaits_word(op(seq![MpvAnswer::Flag(true)]), setting(name, value))
    &&& awaits_word(op(seq![MpvAnswer::Flag(true), ok]), MpvActionView::Cache { name, value })
    &&& ends_as(
        op(seq![MpvAnswer::Flag(true), ok, word]),
        MpvView { desired: wanted, ..m },
    )
}

/// A number of billionths, held between two others.
pub open spec fn within(n: i128, low: i128, high: i128) -> Fixed {
    Fixed::Nanos(
        if n < low {
            low
        } else if n > high {
            high
        } else {
            n
        },
    )
}

/// A volume between nothing and a hundred percent is sent and kept as it was asked
/// for; one beyond is the nearer of the two. Nothing else that is wanted changes.
pub proof fn law_volume_is_what_was_asked_for(
    m: MpvView,
    n: i128,
    ok: MpvAnswer,
    word: MpvAnswer,
)
    requires
        is_up(m),
        is_success(ok),
    ensures
        sends(
            |s: Seq<MpvAnswer>| set_volume_of(m, s, 0, Fixed::Nanos(n)),
            "volume"@,
            ArgView::Number(within(n, 0, 100_000_000_000)),
            m,
            ok,
            word,
            DesiredView { volume: within(n, 0, 100_000_000_000), ..m.desired },
        ),
{
}

/// A rate between a hundredth and a hundredfold is sent and kept as it was asked for;
/// one beyond is the nearer of the two.
pub proof fn law_speed_is_what_was_asked_for(
    m: MpvView,
    n: i128,
    ok: MpvAnswer,
    word: MpvAnswer,
)
    requires
        is_up(m),
        is_success(ok),
    ensures
        sends(
            |s: Seq<MpvAnswer>| set_speed_of(m, s, 0, Fixed::Nanos(n)),
            "speed"@,
            ArgView::Number(within(n, 10_000_000, 100_000_000_000)),
            m,
            ok,
            word,
            DesiredView { speed: within(n, 10_000_000, 100_000_000_000), ..m.desired },
        ),
{
}

/// Showing the picture selects a video track, and hiding it selects none; keeping the
/// window on top is a switch.
pub proof fn law_window_is_what_was_asked_for(
    m: MpvView,
    on: bool,
    ok: MpvAnswer,
    word: MpvAnswer,
)
    requires
        is_up(m),
        is_success(ok),
    ensures
        sends(
            |s: Seq<MpvAnswer>| set_visible_of(m, s, 0, on),
            "vid"@,
            ArgView::Text(
                if on {
                    "auto"@
                } else {
                    "no"@
                },
            ),
            m,
            ok,
            word,
            DesiredView { video_visible: on, ..m.desired },
        ),
        sends(
            |s: Seq<MpvAnswer>| set_ontop_of(m, s, 0, on),
            "ontop"@,
            ArgView::Flag(on),
            m,
            ok,
            word,
            DesiredView { ontop: on, ..m.desired },
        ),
{
}

/// Pausing sets the switch, and keeps where mpv says it is: what is wanted after it
/// is the pause and that position.
pub proof fn law_pause_is_what_was_asked_for(
    m: MpvView,
    on: bool,
    ok: MpvAnswer,
    word: MpvAnswer,
    position: Json,
)
    requires
        is_up(m),
        is_success(ok),
    ensures
        ({
            let s = seq![MpvAnswer::Flag(true), ok, word];
            let t = seq![MpvAnswer::Flag(true), ok, word, MpvAnswer::Value(position)];
            &&& awaits_word(
                set_paused_of(m, seq![MpvAnswer::Flag(true)], 0, on),
                setting("pause"@, ArgView::Flag(on)),
            )
            &&& awaits_word(set_paused_of(m, s, 0, on), MpvActionView::Property("time-pos"@))
            &&& ends_as(
                set_paused_of(m, t, 0, on),
                MpvView {
                    desired: DesiredView {
                        paused: on,
                        position: match position@.number() {
                            Some(p) => p,
                            None => m.desired.position,
                        },
                        ..m.desired
                    },
                    ..m
                },
            )
        }),
{
}

/// A seek goes where it was asked to, though not before the start. The position and
/// that the end has not been reached are recorded at once, and the position is kept.
pub proof fn law_seek_goes_where_it_was_asked_to(
    m: MpvView,
    n: i128,
    ok: MpvAnswer,
    word: MpvAnswer,
)
    requires
        is_up(m),
        is_success(ok),
    ensures
        ({
            let to = Fixed::Nanos(
                if n < 0 {
                    0
                } else {
                    n
                },
            );
            let up = seq![MpvAnswer::Flag(true)];
            &&& awaits_word(
                seek_of(m, up, 0, Fixed::Nanos(n)),
                MpvActionView::Request {
                    args: seq![
                        ArgView::Text("seek"@),
                        ArgView::Number(to),
                        ArgView::Text("absolute"@),
                    ],
                    timeout_ms: 5_000,
                },
            )
            &&& awaits_word(
                seek_of(m, seq![MpvAnswer::Flag(true), ok], 0, Fixed::Nanos(n)),
                MpvActionView::Cache { name: "time-pos"@, value: ArgView::Number(to) },
            )
            &&& awaits_word(
                seek_of(m, seq![MpvAnswer::Flag(true), ok, word], 0, Fixed::Nanos(n)),
                MpvActionView::Cache { name: "eof-reached"@, value: ArgView::Flag(false) },
            )
            &&& ends_as(
                seek_of(m, seq![MpvAnswer::Flag(true), ok, word, word], 0, Fixed::Nanos(n)),
                MpvView { desired: DesiredView { position: to, ..m.desired }, ..m },
            )
        }),
{
    lemma_seek(m, seq![MpvAnswer::Flag(true)], n, ok, word);
    lemma_seek(m, seq![MpvAnswer::Flag(true), ok], n, ok, word);
    lemma_seek(m, seq![MpvAnswer::Flag(true), ok, word], n, ok, word);
    lemma_seek(m, seq![MpvAnswer::Flag(true), ok, word, word], n, ok, word);
}

/// The stages of a seek in a session that is up.
proof fn lemma_seek(m: MpvView, s: Seq<MpvAnswer>, n: i128, ok: MpvAnswer, word: MpvAnswer)
    requires
        is_up(m),
        is_success(ok),
        1 <= s.len() <= 4,
        s[0] == MpvAnswer::Flag(true),
        s.len() > 1 ==> s[1] == ok,
        s.len() > 2 ==> s[2] == word,
        s.len() > 3 ==> s[3] == word,
    ensures
        ({
            let to = Fixed::Nanos(
                if n < 0 {
                    0
                } else {
                    n
                },
            );
            let o = seek_of(m, s, 0, Fixed::Nanos(n));
            &&& s.len() == 1 ==> awaits_word(
                o,
                MpvActionView::Request {
                    args: seq![
                        ArgView::Text("seek"@),
                        ArgView::Number(to),
                        ArgView::Text("absolute"@),
                    ],
                    timeout_ms: 5_000,
                },
            )
            &&& s.len() == 2 ==> awaits_word(
                o,
                MpvActionView::Cache { name: "time-pos"@, value: ArgView::Number(to) },
            )
            &&& s.len() == 3 ==> awaits_word(
                o,
                MpvActionView::Cache { name: "eof-reached"@, value: ArgView::Flag(false) },
            )
            &&& s.len() == 4 ==> ends_as(
                o,
                MpvView { desired: DesiredView { position: to, ..m.desired }, ..m },
            )
        }),
{
    let h = holds_session(m, s, 0);
    assert(h.end is Done && h.at == 1 && h.state == m);
    let to = crate::fixed::larger(Fixed::Nanos(n), Fixed::Nanos(0));
    assert(to == Fixed::Nanos(
        if n < 0 {
            0
        } else {
            n
        },
    ));
    let r = requests(
        m,
        s,
        1,
        "seek"@,
        seq![ArgView::Text("seek"@), ArgView::Number(to), ArgView::Text("absolute"@)],
        5_000,
    );
    if s.len() > 1 {
        assert(r.end is Done && r.at == 2 && r.state == m);
    }
}

/// Stopping is asked of mpv; after it no file is wanted any more, while volume, rate
/// and window stay as they were.
pub proof fn law_stop_unloads_the_file(m: MpvView, ok: MpvAnswer)
    requires
        is_up(m),
        is_success(ok),
    ensures
        awaits_word(
            stop_of(m, seq![MpvAnswer::Flag(true)], 0),
            MpvActionView::Request { args: seq![ArgView::Text("stop"@)], timeout_ms: 5_000 },
        ),
        ends_as(
            stop_of(m, seq![MpvAnswer::Flag(true), ok], 0),
            MpvView {
                desired: DesiredView {
                    path: None,
                    position: Fixed::Nanos(0),
                    has_video: false,
                    ..m.desired
                },
                ..m
            },
        ),
{
}

/// A property that mpv refuses is a refusal, in mpv's words, and is not wanted.
pub proof fn law_refused_setting_is_not_kept(
    m: MpvView,
    n: i128,
    data: Json,
    error: String,
)
    requires
        is_up(m),
        error@ != "success"@,
    ensures
        ({
            let s = seq![MpvAnswer::Flag(true), MpvAnswer::Reply { data, error }];
            let o = set_volume_of(m, s, 0, Fixed::Nanos(n));
            &&& o.end == Progress::<MpvActionView, (), EngineErrorView>::Failed(
                EngineErrorView::Rejected { operation: "set "@ + "volume"@, message: error@ },
            )
            &&& o.state == m
        }),
{
}

/// The start that mpv is told: the seconds to three places, or none.
pub open spec fn told_start(start_at: Option<Fixed>) -> Seq<char> {
    match start_at {
        Some(Fixed::Nanos(n)) => if n > 0 {
            to_places(Fixed::Nanos(n), 3)
        } else {
            "none"@
        },
        _ => "none"@,
    }
}

/// Loading a file, answer by answer: the picture is selected as it is wanted, the
/// start is set, the file replaces what was loaded, its opening is waited for, and
/// the start is cleared. Then this file is wanted, from there, and not paused; there
/// is video where the track list says so.
pub proof fn law_loading_a_file(
    m: MpvView,
    path: Seq<char>,
    start_at: Option<Fixed>,
    ok: MpvAnswer,
    word: MpvAnswer,
    since: u64,
    tracks: Json,
    error: String,
)
    requires
        is_up(m),
        is_success(ok),
        error@ == "success"@,
        start_at matches Some(s) ==> s is Nanos,
    ensures
        ({
            let a = seq![MpvAnswer::Flag(true)];
            let b = a + seq![ok, word];
            let c = a + seq![ok, word, ok, word];
            let d = c + seq![MpvAnswer::Count(since)];
            let e = d + seq![ok];
            let f = e + seq![MpvAnswer::Flag(true)];
            let g = f + seq![ok, word];
            let h = g + seq![MpvAnswer::Reply { data: tracks, error }];
            &&& awaits_word(
                load_of(m, a, 0, path, start_at),
                setting(
                    "vid"@,
                    ArgView::Text(
                        if m.desired.video_visible {
                            "auto"@
                        } else {
                            "no"@
                        },
                    ),
                ),
            )
            &&& awaits_word(
                load_of(m, b, 0, path, start_at),
                setting("start"@, ArgView::Text(told_start(start_at))),
            )
            &&& awaits_word(load_of(m, c, 0, path, start_at), MpvActionView::Generation)
            &&& awaits_word(
                load_of(m, d, 0, path, start_at),
                MpvActionView::Request {
                    args: seq![
                        ArgView::Text("loadfile"@),
                        ArgView::Text(path),
                        ArgView::Text("replace"@),
                    ],
                    timeout_ms: 5_000,
                },
            )
            &&& awaits_word(
                load_of(m, e, 0, path, start_at),
                MpvActionView::WaitLoaded { since, timeout_ms: 20_000 },
            )
            &&& awaits_word(
                load_of(m, f, 0, path, start_at),
                setting("start"@, ArgView::Text("none"@)),
            )
            &&& awaits_word(
                load_of(m, g, 0, path, start_at),
                MpvActionView::Request {
                    args: seq![ArgView::Text("get_property"@), ArgView::Text("track-list"@)],
                    timeout_ms: 5_000,
                },
            )
            &&& ends_as(
                load_of(m, h, 0, path, start_at),
                MpvView {
                    desired: DesiredView {
                        path: Some(path),
                        position: match start_at {
                            Some(s) => s,
                            None => Fixed::Nanos(0),
                        },
                        has_video: shows_video(Some(tracks@)),
                        paused: false,
                        ..m.desired
                    },
                    ..m
                },
            )
        }),
{
    let a = seq![MpvAnswer::Flag(true)];
    let b = a + seq![ok, word];
    let c = a + seq![ok, word, ok, word];
    let d = c + seq![MpvAnswer::Count(since)];
    let e = d + seq![ok];
    let f = e + seq![MpvAnswer::Flag(true)];
    let g = f + seq![ok, word];
    let h = g + seq![MpvAnswer::Reply { data: tracks, error }];
    assert(start_text(start_at) == told_start(start_at));
    lemma_loading(m, a, path, start_at, ok, word);
    lemma_loading(m, b, path, start_at, ok, word);
    lemma_loading(m, c, path, start_at, ok, word);
    lemma_loading(m, d, path, start_at, ok, word);
    lemma_loading(m, e, path, start_at, ok, word);
    lemma_loading(m, f, path, start_at, ok, word);
    lemma_loading(m, g, path, start_at, ok, word);
    lemma_loading(m, h, path, start_at, ok, word);
}

/// The stages of loading a file into a session that is up.
proof fn lemma_loading(
    m: MpvView,
    s: Seq<MpvAnswer>,
    path: Seq<char>,
    start_at: Option<Fixed>,
    ok: MpvAnswer,
    word: MpvAnswer,
)
    requires
        is_up(m),
        is_success(ok),
        s.len() > 0,
        s[0] == MpvAnswer::Flag(true),
        s.len() > 1 ==> s.len() > 2 && s[1] == ok && s[2] == word,
        s.len() > 3 ==> s.len() > 4 && s[3] == ok && s[4] == word,
        s.len() > 5 ==> s[5] is Count,
        s.len() > 6 ==> s[6] == ok,
    ensures
        s.len() == 1 ==> awaits_word(
            load_of(m, s, 0, path, start_at),
            setting(
                "vid"@,
                ArgView::Text(
                    if m.desired.video_visible {
                        "auto"@
                    } else {
                        "no"@
                    },
                ),
            ),
        ),
        s.len() == 3 ==> awaits_word(
            load_of(m, s, 0, path, start_at),
            setting("start"@, ArgView::Text(start_text(start_at))),
        ),
        s.len() == 5 ==> awaits_word(load_of(m, s, 0, path, start_at), MpvActionView::Generation),
        s.len() == 6 ==> load_of(m, s, 0, path, start_at).end == queues(m, s, 6, path).end,
        s.len() > 6 ==> load_of(m, s, 0, path, start_at) == awaits(
            m,
            s,
            7,
            path,
            start_at,
            s[5]->Count_0,
        ),
{
    assert(load_of(m, s, 0, path, start_at) == loads(m, s, 1, path, start_at));
    let v = sets(
        m,
        s,
        1,
        "vid"@,
        ArgView::Text(crate::mpv_model::selection_text(m.desired.video_visible)),
    );
    if s.len() > 1 {
        assert(v.end is Done && v.at == 3 && v.state == m);
        let w = sets(m, s, 3, "start"@, ArgView::Text(start_text(start_at)));
        if s.len() > 3 {
            assert(w.end is Done && w.at == 5 && w.state == m);
            if s.len() > 6 {
                assert(queues(m, s, 6, path).end is Done);
                assert(queues(m, s, 6, path).at == 7);
            }
        }
    }
}

/// A file that does not open in time is a timeout.
pub proof fn law_file_that_does_not_open(
    m: MpvView,
    path: Seq<char>,
    start_at: Option<Fixed>,
    since: u64,
    ok: MpvAnswer,
    word: MpvAnswer,
)
    requires
        is_success(ok),
    ensures
        awaits(m, seq![MpvAnswer::Flag(false), ok, word], 0, path, start_at, since).end
            == Progress::<MpvActionView, (), EngineErrorView>::Failed(
            EngineErrorView::Timeout { operation: "load "@ + path, timeout_ms: 20_000 },
        ),
{
}

/// What is said of a session: what mpv has reported of position, length, pause and
/// so on. Where it has not said where it is, the position that is wanted stands for
/// it while there is a file.
pub proof fn law_snapshot_is_what_mpv_reports(
    m: MpvView,
    position: Json,
    duration: Json,
    paused: Json,
    idle: Json,
    eof: Json,
    output: Json,
)
    requires
        is_up(m),
    ensures
        ({
            let s = seq![
                MpvAnswer::Value(position),
                MpvAnswer::Value(duration),
                MpvAnswer::Value(paused),
                MpvAnswer::Value(idle),
                MpvAnswer::Value(eof),
                MpvAnswer::Value(output),
            ];
            let o = snapshot_of(m, s, 0);
            &&& awaits_word(snapshot_of(m, s.take(0), 0), MpvActionView::Property("time-pos"@))
            &&& awaits_word(snapshot_of(m, s.take(1), 0), MpvActionView::Property("duration"@))
            &&& awaits_word(snapshot_of(m, s.take(2), 0), MpvActionView::Property("pause"@))
            &&& awaits_word(snapshot_of(m, s.take(3), 0), MpvActionView::Property("idle-active"@))
            &&& awaits_word(snapshot_of(m, s.take(4), 0), MpvActionView::Property("eof-reached"@))
            &&& awaits_word(snapshot_of(m, s.take(5), 0), MpvActionView::Property("current-vo"@))
            &&& o.state == m
            &&& o.end matches Progress::Done(snap) && {
                &&& position@.number() is Some ==> snap.position_secs == position@.number()
                &&& position@.number() is None && m.desired.path is Some ==> snap.position_secs
                    == Some(m.desired.position)
                &&& position@.number() is None && m.desired.path is None ==> snap.position_secs
                    is None
                &&& snap.duration_secs == duration@.number()
                &&& paused@.flag() matches Some(b) ==> snap.paused == b
                &&& paused@.flag() is None ==> snap.paused == m.desired.paused
                &&& idle@.flag() matches Some(b) ==> snap.idle == b
                &&& idle@.flag() is None ==> snap.idle == (m.desired.path is None)
                &&& eof@.flag() matches Some(b) ==> snap.eof == b
                &&& eof@.flag() is None ==> !snap.eof
                &&& snap.has_video == m.desired.has_video
                &&& snap.video_visible == !(output@ is Null)
                &&& snap.path == m.desired.path
            }
        }),
{
    let s = seq![
        MpvAnswer::Value(position),
        MpvAnswer::Value(duration),
        MpvAnswer::Value(paused),
        MpvAnswer::Value(idle),
        MpvAnswer::Value(eof),
        MpvAnswer::Value(output),
    ];
    lemma_survey(m, s, s.take(0));
    lemma_survey(m, s, s.take(1));
    lemma_survey(m, s, s.take(2));
    lemma_survey(m, s, s.take(3));
    lemma_survey(m, s, s.take(4));
    lemma_survey(m, s, s.take(5));
    lemma_survey(m, s, s);
}

proof fn lemma_survey(m: MpvView, s: Seq<MpvAnswer>, t: Seq<MpvAnswer>)
    requires
        is_up(m),
        s.len() == 6,
        forall|i: int| 0 <= i < 6 ==> (#[trigger] s[i]) is Value,
        t.len() <= 6,
        forall|i: int| 0 <= i < t.len() ==> t[i] == s[i],
    ensures
        snapshot_of(m, t, 0) == surveys(m, t, 0),
        t.len() == 0 ==> awaits_word(surveys(m, t, 0), MpvActionView::Property("time-pos"@)),
        t.len() == 1 ==> awaits_word(surveys(m, t, 0), MpvActionView::Property("duration"@)),
        t.len() == 2 ==> awaits_word(surveys(m, t, 0), MpvActionView::Property("pause"@)),
        t.len() == 3 ==> awaits_word(surveys(m, t, 0), MpvActionView::Property("idle-active"@)),
        t.len() == 4 ==> awaits_word(surveys(m, t, 0), MpvActionView::Property("eof-reached"@)),
        t.len() == 5 ==> awaits_word(surveys(m, t, 0), MpvActionView::Property("current-vo"@)),
        t.len() == 6 ==> surveys(m, t, 0).state == m && surveys(m, t, 0).end == Progress::<
            MpvActionView,
            SnapshotView,
            EngineErrorView,
        >::Done(
            crate::mpv_model::in_session(
                m.desired,
                s[0]->Value_0@,
                s[1]->Value_0@,
                s[2]->Value_0@,
                s[3]->Value_0@,
                s[4]->Value_0@,
                s[5]->Value_0@,
            ),
        ),
{
    assert forall|i: int| 0 <= i < t.len() implies (#[trigger] t[i]) is Value by {
        assert(s[i] is Value);
    }
    if t.len() > 0 {
        assert(t[0] is Value);
    }
    if t.len() > 1 {
        assert(t[1] is Value);
    }
    if t.len() > 2 {
        assert(t[2] is Value);
    }
    if t.len() > 3 {
        assert(t[3] is Value);
    }
    if t.len() > 4 {
        assert(t[4] is Value);
    }
    if t.len() > 5 {
        assert(t[5] is Value);
    }
}

/// Whether a track of mpv's list is video and no cover art.
pub open spec fn is_shown(track: JsonView) -> bool {
    &&& track.get("type"@) is Some
    &&& track.get("type"@)->0.text() == Some("video"@)
    &&& !(track.get("albumart"@) is Some && track.get("albumart"@)->0.flag() == Some(true))
}

/// A list shows video where one of its tracks is video and no cover art.
pub proof fn law_cover_art_is_no_video(list: JsonView, items: Seq<JsonView>)
    requires
        list.array() == Some(items),
    ensures
        shows_video(Some(list)) <==> exists|i: int|
            0 <= i < items.len() && is_shown(#[trigger] items[i]),
        !shows_video(None),
{
    assert forall|i: int| 0 <= i < items.len() implies crate::mpv_model::is_picture(
        #[trigger] items[i],
    ) == is_shown(items[i]) by {}
    if shows_video(Some(list)) {
        let i = choose|i: int|
            0 <= i < items.len() && crate::mpv_model::is_picture(#[trigger] items[i]);
        assert(is_shown(items[i]));
    }
    if exists|i: int| 0 <= i < items.len() && is_shown(#[trigger] items[i]) {
        let i = choose|i: int| 0 <= i < items.len() && is_shown(#[trigger] items[i]);
        assert(crate::mpv_model::is_picture(items[i]));
    }
}

/// A layout is kept, and a session that is up is given its screen, its geometry, its
/// size, and whether it is on the full screen.
pub proof fn law_layout_is_sent(
    m: MpvView,
    layout: VideoWindowLayout,
    ok: MpvAnswer,
    word: MpvAnswer,
)
    requires
        is_up(m),
        is_success(ok),
    ensures
        ({
            let a = seq![MpvAnswer::Flag(true)];
            let b = a + seq![ok, word];
            let c = a + seq![ok, word, ok, word];
            let d = a + seq![ok, word, ok, word, ok, word];
            let e = a + seq![ok, word, ok, word, ok, word, ok, word];
            &&& awaits_word(set_layout_of(m, Seq::empty(), 0, layout), MpvActionView::Alive)
            &&& awaits_word(
                set_layout_of(m, a, 0, layout),
                setting("screen"@, ArgView::Text(screen_name(layout))),
            )
            &&& awaits_word(
                set_layout_of(m, b, 0, layout),
                setting("geometry"@, ArgView::Text(geometry_text(layout))),
            )
            &&& awaits_word(
                set_layout_of(m, c, 0, layout),
                setting("autofit"@, ArgView::Text(autofit_text(layout))),
            )
            &&& awaits_word(
                set_layout_of(m, d, 0, layout),
                setting("fullscreen"@, ArgView::Flag(layout is Fullscreen)),
            )
            &&& ends_as(
                set_layout_of(m, e, 0, layout),
                MpvView { desired: DesiredView { layout, ..m.desired }, ..m },
            )
            &&& ends_as(
                set_layout_of(m, seq![MpvAnswer::Flag(false)], 0, layout),
                MpvView { desired: DesiredView { layout, ..m.desired }, ..m },
            )
        }),
{
    let n = MpvView { desired: DesiredView { layout, ..m.desired }, ..m };
    let a = seq![MpvAnswer::Flag(true)];
    let b = a + seq![ok, word];
    let c = a + seq![ok, word, ok, word];
    let d = a + seq![ok, word, ok, word, ok, word];
    let e = a + seq![ok, word, ok, word, ok, word, ok, word];
    lemma_framing(n, a, layout, layout is Fullscreen, ok, word);
    lemma_framing(n, b, layout, layout is Fullscreen, ok, word);
    lemma_framing(n, c, layout, layout is Fullscreen, ok, word);
    lemma_framing(n, d, layout, layout is Fullscreen, ok, word);
    lemma_framing(n, e, layout, layout is Fullscreen, ok, word);
    assert(set_layout_of(m, a, 0, layout) == frames(n, a, 1, layout, layout is Fullscreen));
    assert(set_layout_of(m, b, 0, layout) == frames(n, b, 1, layout, layout is Fullscreen));
    assert(set_layout_of(m, c, 0, layout) == frames(n, c, 1, layout, layout is Fullscreen));
    assert(set_layout_of(m, d, 0, layout) == frames(n, d, 1, layout, layout is Fullscreen));
    assert(set_layout_of(m, e, 0, layout) == frames(n, e, 1, layout, layout is Fullscreen));
}

/// The stages of giving a session its layout, after one answer.
proof fn lemma_framing(
    m: MpvView,
    s: Seq<MpvAnswer>,
    layout: VideoWindowLayout,
    full: bool,
    ok: MpvAnswer,
    word: MpvAnswer,
)
    requires
        is_success(ok),
        s.len() == 1 || s.len() == 3 || s.len() == 5 || s.len() == 7 || s.len() == 9,
        forall|i: int|
            1 <= i < s.len() ==> (#[trigger] s[i]) == (if i % 2 == 1 {
                ok
            } else {
                word
            }),
    ensures
        s.len() == 1 ==> awaits_word(
            frames(m, s, 1, layout, full),
            setting("screen"@, ArgView::Text(screen_name(layout))),
        ),
        s.len() == 3 ==> awaits_word(
            frames(m, s, 1, layout, full),
            setting("geometry"@, ArgView::Text(geometry_text(layout))),
        ),
        s.len() == 5 ==> awaits_word(
            frames(m, s, 1, layout, full),
            setting("autofit"@, ArgView::Text(autofit_text(layout))),
        ),
        s.len() == 7 ==> awaits_word(
            frames(m, s, 1, layout, full),
            setting("fullscreen"@, ArgView::Flag(full)),
        ),
        s.len() == 9 ==> ends_as(frames(m, s, 1, layout, full), m) && frames(
            m,
            s,
            1,
            layout,
            full,
        ).at == 9,
{
    let a = sets(m, s, 1, "screen"@, ArgView::Text(screen_name(layout)));
    if s.len() >= 3 {
        assert(s[1] == ok && s[2] == word);
        assert(a.end is Done && a.at == 3 && a.state == m);
        let b = sets(m, s, 3, "geometry"@, ArgView::Text(geometry_text(layout)));
        if s.len() >= 5 {
            assert(s[3] == ok && s[4] == word);
            assert(b.end is Done && b.at == 5 && b.state == m);
            let c = sets(m, s, 5, "autofit"@, ArgView::Text(autofit_text(layout)));
            if s.len() >= 7 {
                assert(s[5] == ok && s[6] == word);
                assert(c.end is Done && c.at == 7 && c.state == m);
                if s.len() == 9 {
                    assert(s[7] == ok && s[8] == word);
                }
            }
        }
    }
}

/// Answers that say success, each followed by a word.
pub open spec fn pairs(n: nat, ok: MpvAnswer, word: MpvAnswer) -> Seq<MpvAnswer> {
    Seq::new(
        2 * n,
        |i: int|
            if i % 2 == 0 {
                ok
            } else {
                word
            },
    )
}

/// A new mpv is given what is wanted, setting by setting: volume, rate, whether it is
/// on top, the layout of its window, and whether there is a picture.
pub proof fn law_new_mpv_is_given_what_is_wanted(m: MpvView, ok: MpvAnswer, word: MpvAnswer)
    requires
        is_success(ok),
    ensures
        ({
            let d = m.desired;
            let s = |n: nat| applies(m, pairs(n, ok, word), 0);
            &&& awaits_word(s(0), setting("volume"@, ArgView::Number(d.volume)))
            &&& awaits_word(s(1), setting("speed"@, ArgView::Number(d.speed)))
            &&& awaits_word(s(2), setting("ontop"@, ArgView::Flag(d.ontop)))
            &&& awaits_word(s(3), setting("screen"@, ArgView::Text(screen_name(d.layout))))
            &&& awaits_word(s(4), setting("geometry"@, ArgView::Text(geometry_text(d.layout))))
            &&& awaits_word(s(5), setting("autofit"@, ArgView::Text(autofit_text(d.layout))))
            &&& awaits_word(s(6), setting("fullscreen"@, ArgView::Flag(d.layout is Fullscreen)))
            &&& awaits_word(
                s(7),
                setting(
                    "vid"@,
                    ArgView::Text(
                        if d.video_visible {
                            "auto"@
                        } else {
                            "no"@
                        },
                    ),
                ),
            )
            &&& ends_as(s(8), m)
        }),
{
    lemma_applying(m, 0, ok, word);
    lemma_applying(m, 1, ok, word);
    lemma_applying(m, 2, ok, word);
    lemma_applying(m, 3, ok, word);
    lemma_applying(m, 4, ok, word);
    lemma_applying(m, 5, ok, word);
    lemma_applying(m, 6, ok, word);
    lemma_applying(m, 7, ok, word);
    lemma_applying(m, 8, ok, word);
}

/// A property that is set takes two answers.
proof fn lemma_set(
    m: MpvView,
    n: nat,
    k: nat,
    ok: MpvAnswer,
    word: MpvAnswer,
    name: Seq<char>,
    value: ArgView,
)
    requires
        is_success(ok),
        k <= n,
    ensures
        ({
            let o = sets(m, pairs(n, ok, word), 2 * k as int, name, value);
            &&& k == n ==> awaits_word(o, setting(name, value))
            &&& k < n ==> o.end is Done && o.at == 2 * k + 2 && o.state == m
        }),
{
    let s = pairs(n, ok, word);
    if k < n {
        assert(s[2 * k as int] == ok);
        assert(s[2 * k as int + 1] == word);
    }
}

proof fn lemma_applying(m: MpvView, n: nat, ok: MpvAnswer, word: MpvAnswer)
    requires
        is_success(ok),
        n <= 8,
    ensures
        ({
            let d = m.desired;
            let o = applies(m, pairs(n, ok, word), 0);
            &&& n == 0 ==> awaits_word(o, setting("volume"@, ArgView::Number(d.volume)))
            &&& n == 1 ==> awaits_word(o, setting("speed"@, ArgView::Number(d.speed)))
            &&& n == 2 ==> awaits_word(o, setting("ontop"@, ArgView::Flag(d.ontop)))
            &&& n == 3 ==> awaits_word(
                o,
                setting("screen"@, ArgView::Text(screen_name(d.layout))),
            )
            &&& n == 4 ==> awaits_word(
                o,
                setting("geometry"@, ArgView::Text(geometry_text(d.layout))),
            )
            &&& n == 5 ==> awaits_word(
                o,
                setting("autofit"@, ArgView::Text(autofit_text(d.layout))),
            )
            &&& n == 6 ==> awaits_word(
                o,
                setting("fullscreen"@, ArgView::Flag(d.layout is Fullscreen)),
            )
            &&& n == 7 ==> awaits_word(
                o,
                setting(
                    "vid"@,
                    ArgView::Text(
                        if d.video_visible {
                            "auto"@
                        } else {
                            "no"@
                        },
                    ),
                ),
            )
            &&& n == 8 ==> ends_as(o, m)
        }),
{
    let d = m.desired;
    let s = pairs(n, ok, word);
    lemma_set(m, n, 0, ok, word, "volume"@, ArgView::Number(d.volume));
    if n >= 1 {
        lemma_set(m, n, 1, ok, word, "speed"@, ArgView::Number(d.speed));
    }
    if n >= 2 {
        lemma_set(m, n, 2, ok, word, "ontop"@, ArgView::Flag(d.ontop));
    }
    if n >= 3 {
        lemma_set(m, n, 3, ok, word, "screen"@, ArgView::Text(screen_name(d.layout)));
    }
    if n >= 4 {
        lemma_set(m, n, 4, ok, word, "geometry"@, ArgView::Text(geometry_text(d.layout)));
    }
    if n >= 5 {
        lemma_set(m, n, 5, ok, word, "autofit"@, ArgView::Text(autofit_text(d.layout)));
    }
    if n >= 6 {
        lemma_set(m, n, 6, ok, word, "fullscreen"@, ArgView::Flag(d.layout is Fullscreen));
    }
    if n >= 7 {
        assert(lays_out(m, s, 6, d.layout).end is Done && lays_out(m, s, 6, d.layout).at == 14
            && lays_out(m, s, 6, d.layout).state == m);
        lemma_set(
            m,
            n,
            7,
            ok,
            word,
            "vid"@,
            ArgView::Text(crate::mpv_model::selection_text(d.video_visible)),
        );
    }
}

/// The file that was playing is loaded again, from where it was if that is more than
/// half a second in, and paused if it was.
pub proof fn law_file_is_loaded_again(
    m: MpvView,
    path: Seq<char>,
    n: i128,
    ok: MpvAnswer,
    word: MpvAnswer,
    since: u64,
)
    requires
        m.desired.path == Some(path),
        m.desired.position == Fixed::Nanos(n),
        is_success(ok),
    ensures
        ({
            let from = if n > 500_000_000 {
                Some(Fixed::Nanos(n))
            } else {
                None
            };
            let a = seq![ok, word];
            let b = seq![ok, word, ok, word, MpvAnswer::Count(since)];
            &&& awaits_word(
                restores(m, a, 0),
                setting("start"@, ArgView::Text(told_start(from))),
            )
            &&& awaits_word(
                restores(m, b, 0),
                MpvActionView::Request {
                    args: seq![
                        ArgView::Text("loadfile"@),
                        ArgView::Text(path),
                        ArgView::Text("replace"@),
                    ],
                    timeout_ms: 5_000,
                },
            )
        }),
{
    let from = if n > 500_000_000 {
        Some(Fixed::Nanos(n))
    } else {
        None
    };
    assert(crate::mpv_model::taken_up(Fixed::Nanos(n)) == from);
    assert(start_text(from) == told_start(from));
    let a = seq![ok, word];
    let b = seq![ok, word, ok, word, MpvAnswer::Count(since)];
    let vid = ArgView::Text(crate::mpv_model::selection_text(m.desired.video_visible));
    let v = sets(m, a, 0, "vid"@, vid);
    assert(v.end is Done && v.at == 2 && v.state == m);
    let w = sets(m, b, 0, "vid"@, vid);
    assert(w.end is Done && w.at == 2 && w.state == m);
    let x = sets(m, b, 2, "start"@, ArgView::Text(start_text(from)));
    assert(x.end is Done && x.at == 4 && x.state == m);
    assert(loads(m, b, 0, path, from).end == queues(m, b, 5, path).end);
}

/// A request for a property's value.
pub open spec fn getting(name: Seq<char>) -> MpvActionView {
    MpvActionView::Request {
        args: seq![ArgView::Text("get_property"@), ArgView::Text(name)],
        timeout_ms: 5_000,
    }
}

/// What a reply to such a request holds, if it is one.
pub open spec fn value_in(answer: MpvAnswer) -> Option<JsonView> {
    match answer {
        MpvAnswer::Reply { data, error } => if error@ == "success"@ {
            Some(data@)
        } else {
            None
        },
        _ => None,
    }
}

/// An mpv that was already running is asked what it is doing, and that is what is
/// wanted from then on. Nothing is set.
pub proof fn law_running_mpv_is_read(m: MpvView, s: Seq<MpvAnswer>)
    requires
        s.len() == 8,
    ensures
        ({
            let o = syncs(m, s, 0);
            let d = o.state.desired;
            &&& awaits_word(syncs(m, s.take(0), 0), getting("path"@))
            &&& awaits_word(syncs(m, s.take(1), 0), getting("track-list"@))
            &&& awaits_word(syncs(m, s.take(2), 0), getting("time-pos"@))
            &&& awaits_word(syncs(m, s.take(3), 0), getting("pause"@))
            &&& awaits_word(syncs(m, s.take(4), 0), getting("volume"@))
            &&& awaits_word(syncs(m, s.take(5), 0), getting("speed"@))
            &&& awaits_word(syncs(m, s.take(6), 0), getting("ontop"@))
            &&& awaits_word(syncs(m, s.take(7), 0), getting("current-vo"@))
            &&& o.end is Done
            &&& o.state == (MpvView { desired: d, ..m })
            &&& d.path == (match value_in(s[0]) {
                Some(v) => v.text(),
                None => None,
            })
            &&& d.has_video == shows_video(value_in(s[1]))
            &&& d.position == (match value_in(s[2]) {
                Some(v) => match v.number() {
                    Some(n) => n,
                    None => Fixed::Nanos(0),
                },
                None => Fixed::Nanos(0),
            })
            &&& d.paused == (value_in(s[3]) matches Some(v) && v.flag() == Some(true))
            &&& value_in(s[4]) is Some && value_in(s[4])->0.number() is Some ==> d.volume
                == value_in(s[4])->0.number()->0
            &&& value_in(s[4]) is None ==> d.volume == m.desired.volume
            &&& value_in(s[5]) is Some && value_in(s[5])->0.number() is Some ==> d.speed
                == value_in(s[5])->0.number()->0
            &&& value_in(s[5]) is None ==> d.speed == m.desired.speed
            &&& value_in(s[6]) is Some && value_in(s[6])->0.flag() is Some ==> d.ontop == value_in(
                s[6],
            )->0.flag()->0
            &&& value_in(s[6]) is None ==> d.ontop == m.desired.ontop
            &&& d.video_visible == (value_in(s[7]) matches Some(v) && !(v is Null))
            &&& d.layout == m.desired.layout
        }),
{
    lemma_syncing(m, s, 0);
    lemma_syncing(m, s, 1);
    lemma_syncing(m, s, 2);
    lemma_syncing(m, s, 3);
    lemma_syncing(m, s, 4);
    lemma_syncing(m, s, 5);
    lemma_syncing(m, s, 6);
    lemma_syncing(m, s, 7);
    lemma_syncing(m, s, 8);
    assert(s.take(8) =~= s);
}

/// A value that is asked for takes one answer.
proof fn lemma_got(m: MpvView, s: Seq<MpvAnswer>, k: int, n: int, name: Seq<char>)
    requires
        0 <= k <= n <= s.len(),
    ensures
        ({
            let o = gets(m, s.take(n), k, "get_property"@, name);
            &&& k == n ==> awaits_word(o, getting(name))
            &&& k < n ==> o.end == Progress::<
                MpvActionView,
                Option<JsonView>,
                EngineErrorView,
            >::Done(value_in(s[k])) && o.at == k + 1 && o.state == m
        }),
{
}

proof fn lemma_syncing(m: MpvView, s: Seq<MpvAnswer>, n: int)
    requires
        s.len() == 8,
        0 <= n <= 8,
    ensures
        ({
            let o = syncs(m, s.take(n), 0);
            &&& n == 0 ==> awaits_word(o, getting("path"@))
            &&& n == 1 ==> awaits_word(o, getting("track-list"@))
            &&& n == 2 ==> awaits_word(o, getting("time-pos"@))
            &&& n == 3 ==> awaits_word(o, getting("pause"@))
            &&& n == 4 ==> awaits_word(o, getting("volume"@))
            &&& n == 5 ==> awaits_word(o, getting("speed"@))
            &&& n == 6 ==> awaits_word(o, getting("ontop"@))
            &&& n == 7 ==> awaits_word(o, getting("current-vo"@))
            &&& n == 8 ==> o.end is Done && o.state == m.wanting(
                crate::mpv_model::synced(
                    m.desired,
                    value_in(s[0]),
                    value_in(s[1]),
                    value_in(s[2]),
                    value_in(s[3]),
                    value_in(s[4]),
                    value_in(s[5]),
                    value_in(s[6]),
                    value_in(s[7]),
                ),
            )
        }),
{
    lemma_got(m, s, 0, n, "path"@);
    if n >= 1 {
        lemma_got(m, s, 1, n, "track-list"@);
    }
    if n >= 2 {
        lemma_got(m, s, 2, n, "time-pos"@);
    }
    if n >= 3 {
        lemma_got(m, s, 3, n, "pause"@);
    }
    if n >= 4 {
        let t = s.take(n);
        assert(syncs(m, t, 0) == crate::mpv_model::syncs_rest(
            m,
            t,
            4,
            value_in(s[0]),
            value_in(s[1]),
            value_in(s[2]),
            value_in(s[3]),
        ));
        lemma_got(m, s, 4, n, "volume"@);
        if n >= 5 {
            lemma_got(m, s, 5, n, "speed"@);
        }
        if n >= 6 {
            lemma_got(m, s, 6, n, "ontop"@);
        }
        if n >= 7 {
            lemma_got(m, s, 7, n, "current-vo"@);
        }
    }
}

/// Ending a session: mpv is asked to quit within half a second, its end is looked
/// for, one that was started here and does not end in time is killed, and the socket
/// is removed. Then there is no session.
pub proof fn law_ending_a_session(m: MpvView, word: MpvAnswer, seen: MpvAnswer)
    requires
        m.session is Some,
        !(seen is NotYet),
    ensures
        ({
            let own = m.session == Some(false);
            let late = !(seen is Finished);
            let s = seq![word, seen] + (if own && late {
                seq![word]
            } else {
                Seq::empty()
            });
            &&& awaits_word(
                terminates(m, Seq::empty(), 0),
                MpvActionView::Request { args: seq![ArgView::Text("quit"@)], timeout_ms: 500 },
            )
            &&& awaits_word(terminates(m, seq![word], 0), MpvActionView::Fate)
            &&& awaits_word(terminates(m, seq![word, MpvAnswer::NotYet], 0), MpvActionView::Fate)
            &&& own && late ==> awaits_word(
                terminates(m, seq![word, seen], 0),
                MpvActionView::Kill,
            )
            &&& awaits_word(terminates(m, s, 0), MpvActionView::RemoveSocket)
            &&& ends_as(terminates(m, s + seq![word], 0), MpvView { session: None, ..m })
            &&& shutdown_of(MpvView { live: true, ..m }, s + seq![word], 0).state == (MpvView {
                session: None,
                live: false,
                ..m
            })
        }),
{
    let own = m.session == Some(false);
    let late = !(seen is Finished);
    let s = seq![word, seen] + (if own && late {
        seq![word]
    } else {
        Seq::empty()
    });
    let b = m.session->0;
    let t = seq![word, MpvAnswer::NotYet];
    assert(outlasts(m, t, 2, !b).end is Ask);
    assert(outlasts(m, t, 1, !b) == outlasts(m, t, 2, !b));
    lemma_ending(m, s, word, seen);
    lemma_ending(m, s + seq![word], word, seen);
    let off = MpvView { live: false, ..m };
    lemma_ending(off, s + seq![word], word, seen);
}

proof fn lemma_ending(m: MpvView, s: Seq<MpvAnswer>, word: MpvAnswer, seen: MpvAnswer)
    requires
        m.session is Some,
        !(seen is NotYet),
        s.len() >= 2,
        s[0] == word,
        s[1] == seen,
        m.session == Some(false) && !(seen is Finished) ==> s.len() >= 3,
    ensures
        ({
            let k = if m.session == Some(false) && !(seen is Finished) {
                3int
            } else {
                2int
            };
            &&& s.len() == k ==> awaits_word(terminates(m, s, 0), MpvActionView::RemoveSocket)
            &&& s.len() > k ==> ends_as(terminates(m, s, 0), MpvView { session: None, ..m })
        }),
{
    let own = !(m.session->0);
    let o = outlasts(m, s, 1, own);
    assert(o.end is Done && o.state == m);
}

/// The first thing that needs mpv starts one: on a socket of its own, with the layout
/// that is wanted. Where a socket is shared, one that listens on it is adopted first.
pub proof fn law_mpv_is_started_when_needed(m: MpvView, word: MpvAnswer)
    requires
        m.live,
        m.session is None,
    ensures
        awaits_word(holds_session(m, Seq::empty(), 0), MpvActionView::NewSocket),
        !m.shared ==> awaits_word(
            holds_session(m, seq![word], 0),
            MpvActionView::RemoveSocket,
        ) && awaits_word(
            holds_session(m, seq![word, word], 0),
            MpvActionView::Launch { layout: m.desired.layout, detached: false },
        ),
        m.shared ==> awaits_word(holds_session(m, seq![word], 0), MpvActionView::Connect)
            && awaits_word(
            holds_session(m, seq![word, MpvAnswer::Refused], 0),
            MpvActionView::RemoveSocket,
        ) && awaits_word(
            holds_session(m, seq![word, MpvAnswer::Refused, word], 0),
            MpvActionView::MakeFolder,
        ) && awaits_word(
            holds_session(m, seq![word, MpvAnswer::Refused, word, word], 0),
            MpvActionView::Launch { layout: m.desired.layout, detached: true },
        ),
{
}

/// The window to place by hand has the layout that is wanted, but never the full
/// screen, and is shown without a file.
#[verifier::spinoff_prover]
#[verifier::rlimit(40)]
pub proof fn law_placing_a_window(m: MpvView, ok: MpvAnswer, word: MpvAnswer)
    requires
        is_up(m),
        is_success(ok),
    ensures
        ({
            let a = seq![MpvAnswer::Flag(true)];
            let full = a + seq![ok, word, ok, word, ok, word];
            let framed = a + seq![ok, word, ok, word, ok, word, ok, word];
            &&& awaits_word(
                begin_placement_of(m, full, 0),
                setting("fullscreen"@, ArgView::Flag(false)),
            )
            &&& awaits_word(
                begin_placement_of(m, framed, 0),
                setting("force-window"@, ArgView::Flag(true)),
            )
        }),
{
    let a = seq![MpvAnswer::Flag(true)];
    let full = a + seq![ok, word, ok, word, ok, word];
    let framed = a + seq![ok, word, ok, word, ok, word, ok, word];
    lemma_placing(m, full, ok, word);
    lemma_placing(m, framed, ok, word);
}

#[verifier::spinoff_prover]
#[verifier::rlimit(40)]
proof fn lemma_placing(m: MpvView, s: Seq<MpvAnswer>, ok: MpvAnswer, word: MpvAnswer)
    requires
        is_up(m),
        is_success(ok),
        s.len() == 7 || s.len() == 9,
        s[0] == MpvAnswer::Flag(true),
        forall|i: int|
            1 <= i < s.len() ==> (#[trigger] s[i]) == (if i % 2 == 1 {
                ok
            } else {
                word
            }),
    ensures
        awaits_word(
            begin_placement_of(m, s, 0),
            if s.len() == 7 {
                setting("fullscreen"@, ArgView::Flag(false))
            } else {
                setting("force-window"@, ArgView::Flag(true))
            },
        ),
{
    lemma_framing(m, s, m.desired.layout, false, ok, word);
    let h = holds_session(m, s, 0);
    assert(h.end is Done && h.at == 1 && h.state == m);
}

/// When the window has been placed, it is shown no more without a file, and the
/// layout applies as it is.
pub proof fn law_window_has_been_placed(m: MpvView, ok: MpvAnswer, word: MpvAnswer)
    requires
        is_up(m),
        is_success(ok),
    ensures
        ({
            let a = seq![MpvAnswer::Flag(true)];
            let b = seq![MpvAnswer::Flag(true), ok, word];
            &&& awaits_word(
                end_placement_of(m, a, 0),
                setting("force-window"@, ArgView::Flag(false)),
            )
            &&& awaits_word(
                end_placement_of(m, b, 0),
                setting("screen"@, ArgView::Text(screen_name(m.desired.layout))),
            )
        }),
{
    let b = seq![MpvAnswer::Flag(true), ok, word];
    let g = sets(m, b, 1, "force-window"@, ArgView::Flag(false));
    assert(g.end is Done && g.at == 3 && g.state == m);
}

} // verus!

//! What holds of the mpv engine whatever its host answers.

use vstd::prelude::*;

use crate::engine::EngineErrorView;
use crate::fixed::{lt, Fixed};
use crate::ipc::ArgView;
use crate::layout::VideoWindowLayout;
use crate::json::JsonView;
use crate::mpv_model::{
    at_rest, awaits, begin_placement_of, gives_up, holds_session, launches, listens, load_of,
    loudness, number_or, observes, opens, outlasts, pace, queues, replaces, replied, requests,
    seek_of, set_layout_of, set_ontop_of, set_paused_of, set_speed_of, set_visible_of,
    set_volume_of, shut_down, shutdown_of, snapshot_of, spawns, spawns_own, stop_of, terminates,
    tries, watches, DEFAULT_TIMEOUT_MS, DesiredView, MpvActionView, MpvAnswer, MpvRun, MpvView,
};
use crate::script::{done, failed, Progress};

verus! {

/// Once it is shut down, the engine asks for nothing and starts nothing.
pub proof fn law_shut_down_for_good(
    m: MpvView,
    said: Seq<MpvAnswer>,
    path: Seq<char>,
    start_at: Option<Fixed>,
    amount: Fixed,
    on: bool,
)
    requires
        !m.live,
    ensures
        load_of(m, said, 0, path, start_at) == failed::<_, MpvActionView, (), _>(m, 0, shut_down()),
        set_paused_of(m, said, 0, on) == failed::<_, MpvActionView, (), _>(m, 0, shut_down()),
        seek_of(m, said, 0, amount) == failed::<_, MpvActionView, (), _>(m, 0, shut_down()),
        set_volume_of(m, said, 0, amount) == failed::<_, MpvActionView, (), _>(m, 0, shut_down()),
        set_speed_of(m, said, 0, amount) == failed::<_, MpvActionView, (), _>(m, 0, shut_down()),
        set_visible_of(m, said, 0, on) == failed::<_, MpvActionView, (), _>(m, 0, shut_down()),
        set_ontop_of(m, said, 0, on) == failed::<_, MpvActionView, (), _>(m, 0, shut_down()),
        begin_placement_of(m, said, 0) == failed::<_, MpvActionView, Option<u32>, _>(
            m,
            0,
            shut_down(),
        ),
        stop_of(m, said, 0) == failed::<_, MpvActionView, (), _>(m, 0, shut_down()),
        shutdown_of(m, said, 0) == done::<_, MpvActionView, (), EngineErrorView>(m, 0, ()),
{
}

/// A shutdown that has come to an end leaves no session, and the engine shut
/// down.
pub proof fn law_shutdown_leaves_no_session(m: MpvView, said: Seq<MpvAnswer>)
    requires
        m.live,
        shutdown_of(m, said, 0).end is Done,
    ensures
        !shutdown_of(m, said, 0).state.live,
        shutdown_of(m, said, 0).state.session is None,
{
    let ended = MpvView { live: false, ..m };
    if m.session is Some {
        let own = !(m.session->0);
        let quit = tries(
            ended,
            said,
            0,
            MpvActionView::Request {
                args: seq![ArgView::Text("quit"@)],
                timeout_ms: crate::mpv_model::QUIT_TIMEOUT_MS,
            },
        );
        lemma_outlasting_keeps_the_state(quit.state, said, quit.at, own);
    }
}

/// Waiting for the end of a session changes nothing else.
proof fn lemma_outlasting_keeps_the_state(m: MpvView, said: Seq<MpvAnswer>, at: int, own: bool)
    ensures
        outlasts(m, said, at, own).state == m,
    decreases said.len() - at,
{
    if 0 <= at < said.len() && said[at] is NotYet {
        lemma_outlasting_keeps_the_state(m, said, at + 1, own);
    }
}

/// A look at an engine without a session never starts mpv. It asks for nothing,
/// except whether one runs on a shared socket; and where none does, what is said
/// is that nothing plays.
pub proof fn law_looking_starts_nothing(m: MpvView, said: Seq<MpvAnswer>)
    requires
        m.session is None,
        m.shared && m.live ==> said.len() == 0 || said[0] == MpvAnswer::Flag(false),
    ensures
        m.shared && m.live && said.len() == 0 ==> snapshot_of(m, said, 0).end
            == Progress::<MpvActionView, crate::engine::SnapshotView, EngineErrorView>::Ask(
            MpvActionView::Running,
        ),
        !(m.shared && m.live && said.len() == 0) ==> snapshot_of(m, said, 0).end
            == Progress::<MpvActionView, crate::engine::SnapshotView, EngineErrorView>::Done(
            at_rest(m.desired),
        ) && snapshot_of(m, said, 0).state == m,
{
}

/// A layout is only a setting: without a session it is kept, and nothing is asked
/// for.
pub proof fn law_layout_starts_nothing(m: MpvView, said: Seq<MpvAnswer>, layout: VideoWindowLayout)
    requires
        m.session is None,
    ensures
        set_layout_of(m, said, 0, layout) == done::<_, MpvActionView, (), EngineErrorView>(
            m.wanting(DesiredView { layout, ..m.desired }),
            0,
            (),
        ),
{
}

/// The request that clears the start of a file.
pub open spec fn clearing() -> MpvActionView {
    MpvActionView::Request {
        args: seq![
            ArgView::Text("set_property"@),
            ArgView::Text("start"@),
            ArgView::Text("none"@),
        ],
        timeout_ms: DEFAULT_TIMEOUT_MS,
    }
}

/// The start of a file never leaks into the next one: once the wait for the file
/// is over, the next thing asked for is that the start be cleared, whether the
/// file was loaded or not.
pub proof fn law_start_is_cleared_after_the_wait(
    m: MpvView,
    said: Seq<MpvAnswer>,
    at: int,
    path: Seq<char>,
    start_at: Option<Fixed>,
    since: u64,
    loaded: bool,
)
    requires
        0 <= at,
        said.len() == at + 1,
        said[at] == MpvAnswer::Flag(loaded),
    ensures
        awaits(m, said, at, path, start_at, since).end == Progress::<
            MpvActionView,
            (),
            EngineErrorView,
        >::Ask(clearing()),
{
}

/// And where mpv refuses to queue the file, the start is cleared too, before the
/// refusal is reported.
pub proof fn law_start_is_cleared_after_a_refusal(
    m: MpvView,
    said: Seq<MpvAnswer>,
    at: int,
    path: Seq<char>,
)
    requires
        0 <= at,
        said.len() == at + 1,
        replied(said[at], "loadfile"@, DEFAULT_TIMEOUT_MS) is Err,
    ensures
        queues(m, said, at, path).end == Progress::<MpvActionView, (), EngineErrorView>::Ask(
            clearing(),
        ),
{
}

/// Watching a start changes nothing.
proof fn lemma_watching_keeps_the_state(m: MpvView, said: Seq<MpvAnswer>, at: int)
    ensures
        watches(m, said, at).state == m,
    decreases said.len() - at,
{
    if 0 <= at < said.len() && said[at] is NotYet {
        lemma_watching_keeps_the_state(m, said, at + 1);
    }
}

proof fn lemma_observing_keeps_the_state(m: MpvView, said: Seq<MpvAnswer>, at: int, i: nat)
    ensures
        observes(m, said, at, i).state == m,
    decreases crate::ipc::observed_names().len() - i,
{
    if i < crate::ipc::observed_names().len() {
        let first = requests(
            m,
            said,
            at,
            "observe_property"@,
            seq![
                ArgView::Text("observe_property"@),
                ArgView::Whole((i + 1) as u64),
                ArgView::Text(crate::ipc::observed_names()[i as int]),
            ],
            DEFAULT_TIMEOUT_MS,
        );
        lemma_observing_keeps_the_state(m, said, first.at, i + 1);
    }
}

proof fn lemma_launching_keeps_the_state(m: MpvView, said: Seq<MpvAnswer>, at: int)
    ensures
        launches(m, said, at).state == m,
{
    lemma_watching_keeps_the_state(m, said, at + 1);
    let watched = watches(m, said, at + 1);
    lemma_observing_keeps_the_state(m, said, watched.at + 1, 0);
}

proof fn lemma_spawning_keeps_the_state(m: MpvView, said: Seq<MpvAnswer>, at: int)
    ensures
        spawns(m, said, at).state == m,
        spawns_own(m, said, at).state == m,
{
    lemma_own_keeps_the_state(m, said, at);
    lemma_own_keeps_the_state(m, said, at + 1);
    lemma_own_keeps_the_state(m, said, at + 2);
    lemma_observing_keeps_the_state(m, said, at + 2, 0);
}

proof fn lemma_own_keeps_the_state(m: MpvView, said: Seq<MpvAnswer>, at: int)
    ensures
        spawns_own(m, said, at).state == m,
{
    lemma_launching_keeps_the_state(m, said, at + 1);
    lemma_launching_keeps_the_state(m, said, at + 2);
}

/// An mpv that had to be started, and not adopted, is brought to what was wanted
/// before: nothing of volume, speed, window and video is lost, and the file that
/// played is loaded again at the position that is wanted, paused where it was.
pub proof fn law_new_mpv_is_brought_to_what_was_wanted(
    m: MpvView,
    said: Seq<MpvAnswer>,
    at: int,
    ended: Option<Seq<char>>,
)
    requires
        opens(m, said, at, ended).end is Done,
        opens(m, said, at, ended).state.session == Some(false),
        m.session is None,
    ensures
        ({
            let was = m.desired;
            let is = opens(m, said, at, ended).state.desired;
            &&& is.volume == was.volume
            &&& is.speed == was.speed
            &&& is.ontop == was.ontop
            &&& is.layout == was.layout
            &&& is.video_visible == was.video_visible
            &&& is.path == was.path
            &&& is.paused == was.paused
            &&& was.path is Some && lt(Fixed::Nanos(500_000_000), was.position) ==> is.position
                == was.position
        }),
{
    lemma_spawning_keeps_the_state(m, said, at);
}

/// A crash costs no more than a gap: where mpv has ended and another was started for
/// it, the same file is loaded again at the position that mpv had reported last,
/// paused where it was, and nothing else that is wanted has changed.
pub proof fn law_crash_costs_no_place(
    m: MpvView,
    said: Seq<MpvAnswer>,
    at: int,
    position: JsonView,
)
    requires
        m.live,
        m.session is Some,
        0 <= at,
        at + 1 < said.len(),
        said[at] == MpvAnswer::Flag(false),
        said[at + 1] matches MpvAnswer::Value(v) && v@ == position,
        holds_session(m, said, at).end is Done,
        holds_session(m, said, at).state.session == Some(false),
    ensures
        ({
            let was = m.desired;
            let is = holds_session(m, said, at).state.desired;
            let reached = number_or(Some(position), was.position);
            &&& is.volume == was.volume
            &&& is.speed == was.speed
            &&& is.ontop == was.ontop
            &&& is.layout == was.layout
            &&& is.video_visible == was.video_visible
            &&& is.path == was.path
            &&& is.paused == was.paused
            &&& was.path is Some && lt(Fixed::Nanos(500_000_000), reached) ==> is.position
                == reached
        }),
{
    let r = m.reached(position);
    let o = replaces(r, said, at + 2);
    assert(holds_session(m, said, at) == o);
    if at + 2 < said.len() {
        if let MpvAnswer::Text(ended) = said[at + 2] {
            lemma_outlasting_keeps_the_state(r, said, at + 4, !(m.session->0));
            let t = terminates(r, said, at + 3);
            assert(t.end is Done ==> t.state == r.with_session(None));
            law_new_mpv_is_brought_to_what_was_wanted(
                t.state,
                said,
                t.at,
                crate::text::text_view(ended),
            );
        }
    }
}

/// An mpv that was started and cannot be used is not left behind: the next thing
/// asked for is that it be killed, and then that its socket be removed.
pub proof fn law_unusable_mpv_is_killed<T>(
    run: MpvRun<T>,
    said: Seq<MpvAnswer>,
    killed: MpvAnswer,
)
    requires
        run.end is Failed,
        run.at == said.len(),
    ensures
        gives_up(run, said).end == Progress::<MpvActionView, T, EngineErrorView>::Ask(
            MpvActionView::Kill,
        ),
        gives_up(run, said.push(killed)).end == Progress::<MpvActionView, T, EngineErrorView>::Ask(
            MpvActionView::RemoveSocket,
        ),
        gives_up(run, said).state == run.state,
{
}

/// Watching a start rests only on the answers that it has used.
proof fn lemma_watching_rests_on_what_it_used(
    m: MpvView,
    said: Seq<MpvAnswer>,
    at: int,
    n: int,
)
    requires
        0 <= at,
        watches(m, said, at).end is Done,
        watches(m, said, at).at <= n <= said.len(),
    ensures
        at < watches(m, said, at).at,
        watches(m, said.take(n), at) == watches(m, said, at),
    decreases said.len() - at,
{
    if said[at] is NotYet {
        lemma_watching_goes_forward(m, said, at + 1);
        lemma_watching_rests_on_what_it_used(m, said, at + 1, n);
    }
    assert(said.take(n)[at] == said[at]);
}

proof fn lemma_watching_goes_forward(m: MpvView, said: Seq<MpvAnswer>, at: int)
    requires
        0 <= at,
        watches(m, said, at).end is Done,
    ensures
        at < watches(m, said, at).at <= said.len(),
    decreases said.len() - at,
{
    if said[at] is NotYet {
        lemma_watching_goes_forward(m, said, at + 1);
    }
}

/// So does subscribing.
proof fn lemma_observing_rests_on_what_it_used(
    m: MpvView,
    said: Seq<MpvAnswer>,
    at: int,
    i: nat,
    n: int,
)
    requires
        0 <= at <= said.len(),
        observes(m, said, at, i).end !is Ask,
        observes(m, said, at, i).at <= n <= said.len(),
    ensures
        at <= observes(m, said, at, i).at,
        observes(m, said.take(n), at, i) == observes(m, said, at, i),
    decreases crate::ipc::observed_names().len() - i,
{
    if i < crate::ipc::observed_names().len() {
        assert(at < said.len());
        if replied(said[at], "observe_property"@, DEFAULT_TIMEOUT_MS) is Ok {
            lemma_observing_rests_on_what_it_used(m, said, at + 1, i + 1, n);
        }
        assert(said.take(n)[at] == said[at]);
    }
}

/// No mpv that accepted a connection outlives a start that failed: before the
/// failure is told, it was asked that mpv be killed, and then that its socket be
/// removed.
pub proof fn law_failed_start_leaves_no_mpv(m: MpvView, said: Seq<MpvAnswer>, at: int)
    requires
        0 <= at < said.len(),
        said[at] is Finished,
        watches(m, said, at + 1).end is Done,
        launches(m, said, at).end is Failed,
    ensures
        ({
            let o = launches(m, said, at);
            &&& at + 3 < o.at <= said.len()
            &&& launches(m, said.take(o.at - 2), at).end == Progress::<
                MpvActionView,
                (),
                EngineErrorView,
            >::Ask(MpvActionView::Kill)
            &&& launches(m, said.take(o.at - 1), at).end == Progress::<
                MpvActionView,
                (),
                EngineErrorView,
            >::Ask(MpvActionView::RemoveSocket)
        }),
{
    let o = launches(m, said, at);
    let w = watches(m, said, at + 1);
    let l = listens(w.state, said, w.at);
    lemma_watching_goes_forward(m, said, at + 1);
    assert(o == gives_up(l, said));
    assert(w.at < said.len());
    if said[w.at] is Finished {
        lemma_observing_rests_on_what_it_used(w.state, said, w.at + 1, 0, l.at);
        lemma_observing_rests_on_what_it_used(w.state, said, w.at + 1, 0, l.at + 1);
    }
    assert(l.at + 2 == o.at);
    assert forall|n: int| l.at <= n < o.at implies #[trigger] listens(
        w.state,
        said.take(n),
        w.at,
    ) == l && watches(m, said.take(n), at + 1) == w && said.take(n)[at] == said[at] by {
        lemma_watching_rests_on_what_it_used(m, said, at + 1, n);
        assert(said.take(n)[w.at] == said[w.at]);
    }
    assert(listens(w.state, said.take(l.at), w.at) == l);
    assert(listens(w.state, said.take(l.at + 1), w.at) == l);
}

/// The volume that is wanted stays between nothing and all of it, and the rate
/// between a hundredth and a hundredfold, where they are numbers.
pub proof fn law_loudness_and_pace_are_bounded(x: Fixed)
    requires
        !(x is NaN),
    ensures
        !lt(loudness(x), Fixed::Nanos(0)),
        !lt(Fixed::Nanos(100_000_000_000), loudness(x)),
        !lt(pace(x), Fixed::Nanos(10_000_000)),
        !lt(Fixed::Nanos(100_000_000_000), pace(x)),
{
}

/// A shared mpv plays on when the engine is let go.
pub proof fn law_shared_mpv_outlives_its_engine(m: MpvView, said: Seq<MpvAnswer>)
    requires
        m.shared,
    ensures
        crate::mpv_model::release_of(m, said, 0) == done::<_, MpvActionView, (), EngineErrorView>(
            m,
            0,
            (),
        ),
{
}

/// An adopted mpv is never killed: it is asked to quit, and where it does not in
/// time it is left.
pub proof fn law_adopted_mpv_is_not_killed(m: MpvView, said: Seq<MpvAnswer>, at: int)
    ensures
        outlasts(m, said, at, false).end != Progress::<MpvActionView, (), EngineErrorView>::Ask(
            MpvActionView::Kill,
        ),
    decreases said.len() - at,
{
    if 0 <= at < said.len() && said[at] is NotYet {
        law_adopted_mpv_is_not_killed(m, said, at + 1);
    }
}

} // verus!

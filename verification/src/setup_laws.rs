//! What holds of how an mpv is started and seen to end, of what is stored as text,
//! and of the clock.

use vstd::prelude::*;

use crate::clock::{seconds_of, seed_of};
use crate::json::{escapes, quotation};
use crate::layout::{layout_args_text, VideoWindowLayout};
use crate::media_laws::lemma_number_ends;
use crate::mpv_model::{
    fate_of, fixed_args, mpv_containers, process_number, socket_text, spawn_texts, Sighting,
};
use crate::number::{digits, lemma_digits, parsed_upto};
use crate::number_laws::law_bounded_numbers;
use crate::player_model::{key_text, lost_text, positions_of, SettingKey};
use crate::store::index_of_text;
use crate::text::trimmed;
use crate::text_laws::law_trimming;
use crate::track::{media_extension, music_extension, video_extension};

verus! {

/// A session that was asked to end: one whose process was started here has ended
/// with the process, one that was adopted with its connection. It is waited for
/// while there is time, but not where the process cannot be looked at.
pub proof fn law_end_of_a_session(connected: bool, time_left: bool)
    ensures
        fate_of(Some(Sighting::Ended), connected, time_left) is Finished,
        fate_of(Some(Sighting::Unknown), connected, time_left) is TimedOut,
        fate_of(Some(Sighting::Running), connected, true) is NotYet,
        fate_of(Some(Sighting::Running), connected, false) is TimedOut,
        fate_of(None, false, time_left) is Finished,
        fate_of(None, true, true) is NotYet,
        fate_of(None, true, false) is TimedOut,
{
}

/// A process is known by its number.
pub proof fn law_process_numbers(n: nat)
    requires
        n <= u32::MAX,
    ensures
        process_number(n) == n,
{
}

/// An mpv is started on its own terms: without the user's configuration, scripts or
/// terminal, idle rather than ended when nothing plays, holding the last frame of a
/// file, out of the way of media keys and menus, without a frame and above other
/// windows. Its window's layout follows, and the socket that it listens on.
pub proof fn law_arguments_of_an_mpv(socket: Seq<char>, layout: VideoWindowLayout, i: int)
    ensures
        spawn_texts(socket, layout).last() == "--input-ipc-server="@ + socket,
        spawn_texts(socket, layout).len() == 16 + layout_args_text(layout).len(),
        0 <= i < layout_args_text(layout).len() ==> spawn_texts(socket, layout)[15 + i]
            == layout_args_text(layout)[i],
        spawn_texts(socket, layout).take(15) == seq![
            "--no-config"@,
            "--load-scripts=no"@,
            "--idle=yes"@,
            "--no-terminal"@,
            "--force-window=no"@,
            "--keep-open=yes"@,
            "--input-media-keys=no"@,
            "--media-controls=no"@,
            "--macos-app-activation-policy=accessory"@,
            "--macos-menu-shortcuts=no"@,
            "--title-bar=no"@,
            "--border=no"@,
            "--ontop=yes"@,
            "--ontop-level=system"@,
            "--native-fs=no"@,
        ],
{
    assert(spawn_texts(socket, layout).take(15) =~= fixed_args());
}

proof fn lemma_containers_are_media(i: int)
    requires
        0 <= i < mpv_containers().len(),
    ensures
        media_extension(mpv_containers()[i]),
{
    let c = mpv_containers();
    assert(c.len() == 22);
    assert(i < 8 ==> video_extension(c[i]));
    assert(i >= 8 ==> music_extension(c[i]));
}

/// An mpv opens every file that the library takes for media, and the library takes
/// every file that mpv opens.
pub proof fn law_mpv_opens_media(ext: Seq<char>)
    ensures
        media_extension(ext) <==> mpv_containers().contains(ext),
{
    let c = mpv_containers();
    if c.contains(ext) {
        let i = choose|i: int| 0 <= i < c.len() && c[i] == ext;
        lemma_containers_are_media(i);
    }
    if media_extension(ext) {
        assert(c[0] == "webm"@ && c[1] == "mkv"@ && c[2] == "mp4"@ && c[3] == "m4v"@ && c[4]
            == "mov"@ && c[5] == "avi"@ && c[6] == "flv"@ && c[7] == "ts"@);
        assert(c[8] == "m4a"@ && c[9] == "mp3"@ && c[10] == "wav"@ && c[11] == "flac"@ && c[12]
            == "opus"@ && c[13] == "ogg"@ && c[14] == "oga"@ && c[15] == "aac"@);
        assert(c[16] == "alac"@ && c[17] == "aiff"@ && c[18] == "aif"@ && c[19] == "wma"@ && c[20]
            == "wv"@ && c[21] == "ape"@);
    }
}

/// No two engines of their own share a socket.
pub proof fn law_sockets_are_apart(p: u32, n: u64, q: u32, m: u64)
    requires
        socket_text(p, n) == socket_text(q, m),
    ensures
        p == q,
        n == m,
{
    reveal_strlit("setwave-mpv-");
    reveal_strlit("-");
    reveal_strlit(".sock");
    let front = "setwave-mpv-"@;
    let k = front.len() as int;
    let a = digits(n as nat) + ".sock"@;
    let b = digits(m as nat) + ".sock"@;
    assert("-"@ =~= seq!['-']);
    assert(socket_text(p, n).skip(k) =~= digits(p as nat) + seq!['-'] + a);
    assert(socket_text(q, m).skip(k) =~= digits(q as nat) + seq!['-'] + b);
    lemma_number_ends(p as nat, a, q as nat, b);
    lemma_digits(n as nat);
    lemma_digits(m as nat);
    let l = digits(n as nat).len() as int;
    assert(digits(n as nat) =~= a.take(l));
    assert(digits(m as nat) =~= b.take(l));
}

/// Each setting is stored under its own name.
pub proof fn law_settings_have_names(a: SettingKey, b: SettingKey)
    ensures
        key_text(a) == key_text(b) ==> a == b,
        key_text(SettingKey::Repeat) == "repeat"@,
        key_text(SettingKey::Shuffle) == "shuffle"@,
        key_text(SettingKey::EnginePolicy) == "engine_policy"@,
        key_text(SettingKey::Loop) == "queue_loop"@,
        key_text(SettingKey::VideoWindow) == "video_window_size"@,
        key_text(SettingKey::VideoSurface) == "video_surface"@,
{
    reveal_strlit("repeat");
    reveal_strlit("shuffle");
    reveal_strlit("engine_policy");
    reveal_strlit("queue_loop");
    reveal_strlit("video_window_size");
    reveal_strlit("video_surface");
    assert("repeat"@.len() == 6 && "shuffle"@.len() == 7 && "engine_policy"@.len() == 13);
    assert("queue_loop"@.len() == 10 && "video_window_size"@.len() == 17 && "video_surface"@.len()
        == 13);
    assert("engine_policy"@[0] == 'e' && "video_surface"@[0] == 'v');
}

/// A stored row of the queue is read back where the queue has it, and not where the
/// queue has become too short or the text is no number.
pub proof fn law_stored_rows(c: usize, n: nat, text: Seq<char>)
    ensures
        c < n ==> index_of_text(digits(c as nat), n) == Some(c),
        c >= n ==> index_of_text(digits(c as nat), n) is None,
        parsed_upto(text, usize::MAX as nat) is None ==> index_of_text(text, n) is None,
{
    law_bounded_numbers(c as nat, usize::MAX as nat);
}

/// Stored positions are read in their order, and what is no number among them is
/// left out.
pub proof fn law_stored_positions(parts: Seq<Seq<char>>, n: usize, other: Seq<char>)
    ensures
        positions_of(parts.push(digits(n as nat))) == positions_of(parts).push(n),
        parsed_upto(trimmed(other), usize::MAX as nat) is None ==> positions_of(parts.push(other))
            == positions_of(parts),
        positions_of(Seq::empty()).len() == 0,
{
    let d = digits(n as nat);
    let none = Seq::<char>::empty();
    lemma_digits(n as nat);
    assert(crate::number::is_digit(d[0]) && crate::number::is_digit(d[d.len() - 1]));
    law_trimming(none, d, none);
    assert(none + d + none =~= d);
    law_bounded_numbers(n as nat, usize::MAX as nat);
    assert(parts.push(d).drop_last() =~= parts);
    assert(parts.push(other).drop_last() =~= parts);
}

/// A queued track that is gone is named by its id.
pub proof fn law_lost_tracks_are_named(id: i64)
    ensures
        id >= 0 ==> lost_text(id) == "queued track "@ + digits(id as nat)
            + " is no longer in the library"@,
        id < 0 ==> lost_text(id) == "queued track "@ + (seq!['-'] + digits((-id) as nat))
            + " is no longer in the library"@,
{
}

/// The time of a clock is its whole seconds; a clock before the epoch stands at
/// nothing.
pub proof fn law_seconds_of_a_clock(n: u128)
    requires
        n / 1_000_000_000 <= i64::MAX,
    ensures
        seconds_of(Some(n)) * 1_000_000_000 <= n < (seconds_of(Some(n)) + 1) * 1_000_000_000,
        seconds_of(None) == 0,
{
    let s: u128 = n / 1_000_000_000;
    assert(s as u64 as i64 == s);
}

/// A seed is the clock's reading where sixty-four bits hold it, and is there without
/// a clock as well.
pub proof fn law_seeds_of_a_clock(n: u128)
    ensures
        n <= u64::MAX ==> seed_of(Some(n)) == n,
        seed_of(None) != 0,
{
}

/// A quoted text has a quote at either end. Between them, what is plain stands for
/// itself, and a quote or a backslash has a backslash before it.
pub proof fn law_quotations(s: Seq<char>, c: char)
    ensures
        quotation(s) == seq!['"'] + escapes(s) + seq!['"'],
        escapes(Seq::empty()).len() == 0,
        c as u32 >= 32 && c != '"' && c != '\\' ==> escapes(s.push(c)) == escapes(s).push(c),
        c == '"' || c == '\\' ==> escapes(s.push(c)) == escapes(s).push('\\').push(c),
        c == '\n' ==> escapes(s.push(c)) == escapes(s).push('\\').push('n'),
        c == '\t' ==> escapes(s.push(c)) == escapes(s).push('\\').push('t'),
        c == '\r' ==> escapes(s.push(c)) == escapes(s).push('\\').push('r'),
{
    assert(s.push(c).drop_last() =~= s);
    assert(escapes(s.push(c)) == escapes(s) + crate::json::escaped(c));
    assert(escapes(s) + seq![c] =~= escapes(s).push(c));
    assert(escapes(s) + seq!['\\', c] =~= escapes(s).push('\\').push(c));
    assert(escapes(s) + seq!['\\', 'n'] =~= escapes(s).push('\\').push('n'));
    assert(escapes(s) + seq!['\\', 't'] =~= escapes(s).push('\\').push('t'));
    assert(escapes(s) + seq!['\\', 'r'] =~= escapes(s).push('\\').push('r'));
}

} // verus!

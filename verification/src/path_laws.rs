//! What holds of places: the state directory, the socket, and search paths.

use vstd::prelude::*;

use crate::paths::{
    ascii, augmented, coloned, extended, filled, hash_of, hex, inside, lemma_first, listed, parts,
    pieces, places_of, present, same_path, socket_name, socket_place, state_place, unlistable, App,
};

verus! {

/// A name inside a directory stands behind it, with one slash between.
pub proof fn law_names_in_directories(dir: Seq<u8>, name: Seq<u8>)
    ensures
        dir.len() == 0 ==> inside(dir, name) == name,
        dir.len() > 0 && dir.last() != '/' as u8 ==> inside(dir, name) == dir + ascii("/"@) + name,
        inside(dir + ascii("/"@), name) == dir + ascii("/"@) + name,
{
    reveal_strlit("/");
    assert(ascii("/"@) =~= seq![47u8]);
    assert(Seq::<u8>::empty() + name =~= name);
    if dir.len() == 0 {
        assert(dir + name =~= name);
    }
    assert((dir + ascii("/"@)).last() == 47u8);
}

/// The directory that was asked for is taken as it is. Without one, the state lies
/// under the application's name among the user's data; without a place for that,
/// among temporary files.
pub proof fn law_state_directory(app: App, asked: Seq<u8>, data: Option<Seq<u8>>, temp: Seq<u8>)
    ensures
        state_place(app, Some(asked), data, temp) == asked,
        data is Some ==> state_place(app, None, data, temp) == inside(
            data->0,
            ascii(app.dir_text()),
        ),
        state_place(app, None, None, temp) == inside(temp, ascii(app.dir_text())),
{
}

/// The socket lies beside the database where its path has at most a hundred bytes;
/// else among temporary files, under a name made of the state directory's; else,
/// where that is too long as well, in the one place that is always short.
pub proof fn law_place_of_the_socket(app: App, state: Seq<u8>, temp: Seq<u8>)
    ensures
        inside(state, ascii(app.socket_text())).len() <= 100 ==> socket_place(app, state, temp)
            == inside(state, ascii(app.socket_text())),
        inside(state, ascii(app.socket_text())).len() > 100 && inside(
            temp,
            socket_name(app, state),
        ).len() <= 100 ==> socket_place(app, state, temp) == inside(temp, socket_name(app, state)),
        inside(state, ascii(app.socket_text())).len() > 100 && inside(
            temp,
            socket_name(app, state),
        ).len() > 100 ==> socket_place(app, state, temp) == ascii("/tmp/"@) + socket_name(
            app,
            state,
        ),
{
}

/// The two applications share neither a directory nor a database.
pub proof fn law_applications_are_apart()
    ensures
        App::Setwave.dir_text() != App::Setbuddy.dir_text(),
        App::Setwave.database_text() != App::Setbuddy.database_text(),
        App::Setwave.socket_text() != App::Setbuddy.socket_text(),
        App::Setwave.prefix_text() != App::Setbuddy.prefix_text(),
{
    reveal_strlit("Setwave");
    reveal_strlit("Setbuddy");
    reveal_strlit("setwave.db");
    reveal_strlit("setbuddy.db");
    reveal_strlit("mpv.sock");
    reveal_strlit("engine.sock");
    reveal_strlit("setwave-");
    reveal_strlit("setbuddy-");
    assert("Setwave"@.len() == 7 && "Setbuddy"@.len() == 8);
    assert("setwave.db"@.len() == 10 && "setbuddy.db"@.len() == 11);
    assert("mpv.sock"@.len() == 8 && "engine.sock"@.len() == 11);
    assert("setwave-"@.len() == 8 && "setbuddy-"@.len() == 9);
}

/// The hash of a path takes it byte by byte: mix the byte in, then multiply, within
/// sixty-four bits.
pub proof fn law_hash_goes_byte_by_byte(bytes: Seq<u8>, b: u8)
    ensures
        hash_of(Seq::empty()) == 14695981039346656037u64,
        hash_of(bytes.push(b)) as int == ((hash_of(bytes) ^ (b as u64)) * 1099511628211)
            % 18446744073709551616,
{
    assert(bytes.push(b).drop_last() =~= bytes);
    assert(hash_of(bytes.push(b)) == crate::paths::hash_step(hash_of(bytes), b));
}

/// A hash in sixteens: one digit for each four bits, the last ones last.
pub proof fn law_hash_digits(n: nat, d: nat, k: nat)
    requires
        d < 16,
    ensures
        hex(16 * n + d, k + 1) == hex(n, k).push(
            if d < 10 {
                ('0' as int + d) as u8
            } else {
                ('a' as int + d - 10) as u8
            },
        ),
        hex(n, 0).len() == 0,
{
    assert((16 * n + d) / 16 == n && (16 * n + d) % 16 == d);
}

proof fn lemma_pieces_meet(a: Seq<u8>, b: u8, rest: Seq<u8>)
    ensures
        pieces(a + seq![b] + rest, b) == pieces(a, b) + pieces(rest, b),
        pieces(a, b).len() > 0,
    decreases a.len(),
{
    let s = a + seq![b] + rest;
    let k = first_place(a, b);
    lemma_first(a, b, k);
    if k < a.len() {
        assert forall|i: int| 0 <= i < k implies s[i] != b by {
            assert(s[i] == a[i]);
        }
        assert(s[k] == b);
        lemma_first(s, b, k);
        let more = a.skip(k + 1);
        lemma_pieces_meet(more, b, rest);
        assert(s.skip(k + 1) =~= more + seq![b] + rest);
        assert(s.take(k) =~= a.take(k));
        assert(pieces(s, b) == seq![s.take(k)] + pieces(s.skip(k + 1), b));
        assert(pieces(a, b) == seq![a.take(k)] + pieces(more, b));
        assert(pieces(s, b) =~= pieces(a, b) + pieces(rest, b));
    } else {
        assert forall|i: int| 0 <= i < a.len() implies s[i] != b by {
            assert(s[i] == a[i]);
        }
        assert(s[a.len() as int] == b);
        lemma_first(s, b, a.len() as int);
        assert(s.skip(a.len() as int + 1) =~= rest);
        assert(s.take(a.len() as int) =~= a);
        assert(pieces(a, b) == seq![a]);
        assert(pieces(s, b) == seq![s.take(a.len() as int)] + pieces(rest, b));
    }
}

/// Where a byte first stands, found by looking.
proof fn first_place(s: Seq<u8>, b: u8) -> (k: int)
    ensures
        0 <= k <= s.len(),
        k < s.len() ==> s[k] == b,
        forall|i: int| 0 <= i < k ==> s[i] != b,
    decreases s.len(),
{
    if s.len() == 0 || s[0] == b {
        0
    } else {
        let rest = s.drop_first();
        let k = first_place(rest, b);
        assert forall|i: int| 0 <= i < k + 1 implies s[i] != b by {
            if i > 0 {
                assert(rest[i - 1] == s[i]);
            }
        }
        if k < rest.len() {
            assert(rest[k] == s[k + 1]);
        }
        k + 1
    }
}

proof fn lemma_idle_part(front: Seq<Seq<u8>>, x: Seq<u8>, back: Seq<Seq<u8>>)
    requires
        front.len() > 0,
        x.len() == 0 || x == seq![46u8],
    ensures
        parts(front + seq![x] + back) == parts(front + back),
    decreases back.len(),
{
    let with = front + seq![x] + back;
    let without = front + back;
    if back.len() == 0 {
        assert(with.drop_last() =~= front);
        assert(without =~= front);
        assert(with.last() == x);
    } else {
        lemma_idle_part(front, x, back.drop_last());
        assert(with.drop_last() =~= front + seq![x] + back.drop_last());
        assert(without.drop_last() =~= front + back.drop_last());
        assert(with.last() == back.last() && without.last() == back.last());
    }
}

/// Slashes that follow each other count as one, a single dot between slashes means
/// nothing, and so does a slash at the end.
pub proof fn law_same_directory(a: Seq<u8>, b: Seq<u8>)
    requires
        a.len() > 0,
    ensures
        same_path(a + ascii("/"@) + b, a + ascii("//"@) + b),
        same_path(a + ascii("/"@) + b, a + ascii("/./"@) + b),
        same_path(a + ascii("/"@), a),
        same_path(a, a),
{
    reveal_strlit("/");
    reveal_strlit("//");
    reveal_strlit("/./");
    let none = Seq::<u8>::empty();
    let dot = seq![46u8];
    let one = a + ascii("/"@) + b;
    let two = a + ascii("//"@) + b;
    let dotted = a + ascii("/./"@) + b;
    let end = a + ascii("/"@);
    assert(one =~= a + seq![47u8] + b);
    assert(two =~= a + seq![47u8] + (none + seq![47u8] + b));
    assert(dotted =~= a + seq![47u8] + (dot + seq![47u8] + b));
    assert(end =~= a + seq![47u8] + none);
    lemma_pieces_meet(a, 47, b);
    lemma_pieces_meet(a, 47, none + seq![47u8] + b);
    lemma_pieces_meet(none, 47, b);
    lemma_pieces_meet(a, 47, dot + seq![47u8] + b);
    lemma_pieces_meet(dot, 47, b);
    lemma_pieces_meet(a, 47, none);
    lemma_first(none, 47, 0);
    lemma_first(dot, 47, 1);
    assert(pieces(none, 47) =~= seq![none]);
    assert(pieces(dot, 47) =~= seq![dot]);
    let pa = pieces(a, 47);
    let pb = pieces(b, 47);
    assert(pieces(two, 47) =~= pa + seq![none] + pb);
    assert(pieces(dotted, 47) =~= pa + seq![dot] + pb);
    assert(pieces(end, 47) =~= pa + seq![none] + Seq::<Seq<u8>>::empty());
    assert(pa + Seq::<Seq<u8>>::empty() =~= pa);
    lemma_idle_part(pa, none, pb);
    lemma_idle_part(pa, dot, pb);
    lemma_idle_part(pa, none, Seq::empty());
}

/// A path from the root is never one from the working directory.
pub proof fn law_roots_differ(a: Seq<u8>, b: Seq<u8>)
    requires
        b.len() > 0,
        b[0] != '/' as u8,
    ensures
        !same_path(ascii("/"@) + a, b),
{
    reveal_strlit("/");
    assert(('/' as u8) == 47u8);
    assert((ascii("/"@) + a)[0] == 47u8);
}

proof fn lemma_coloned_front(head: Seq<u8>, rest: Seq<Seq<u8>>)
    requires
        rest.len() > 0,
    ensures
        coloned(seq![head] + rest) == head + seq![58u8] + coloned(rest),
    decreases rest.len(),
{
    let all = seq![head] + rest;
    assert(all.last() == rest.last());
    if rest.len() == 1 {
        assert(all.drop_last() =~= seq![head]);
        assert(coloned(seq![head]) == head);
        assert(coloned(rest) == rest[0]);
        assert(coloned(all) == head + seq![58u8] + rest[0]);
    } else {
        assert(all.drop_last() =~= seq![head] + rest.drop_last());
        lemma_coloned_front(head, rest.drop_last());
        assert(coloned(all) == head + seq![58u8] + coloned(rest.drop_last()) + seq![58u8]
            + rest.last());
        assert(coloned(rest) == coloned(rest.drop_last()) + seq![58u8] + rest.last());
        assert(coloned(all) =~= head + seq![58u8] + coloned(rest));
    }
}

/// The directories of a search path, put together again, are the search path, and
/// none of them holds a colon.
pub proof fn law_directories_make_the_path(path: Seq<u8>)
    ensures
        pieces(path, 58).len() > 0,
        coloned(pieces(path, 58)) == path,
        forall|i: int|
            0 <= i < pieces(path, 58).len() ==> !(#[trigger] pieces(path, 58)[i]).contains(58u8),
    decreases path.len(),
{
    let k = first_place(path, 58);
    lemma_first(path, 58, k);
    if k < path.len() {
        let rest = path.skip(k + 1);
        law_directories_make_the_path(rest);
        lemma_coloned_front(path.take(k), pieces(rest, 58));
        assert(pieces(path, 58) == seq![path.take(k)] + pieces(rest, 58));
        assert(path =~= path.take(k) + seq![58u8] + rest);
        assert forall|i: int| 0 <= i < pieces(path, 58).len() implies !(#[trigger] pieces(
            path,
            58,
        )[i]).contains(58u8) by {
            if i > 0 {
                assert(pieces(path, 58)[i] == pieces(rest, 58)[i - 1]);
            }
        }
    } else {
        assert(pieces(path, 58) == seq![path]);
    }
}

/// Empty directories are left out of a list, and every other stays in its order.
pub proof fn law_filled_directories(list: Seq<Seq<u8>>, dir: Seq<u8>)
    ensures
        dir.len() == 0 ==> filled(list.push(dir)) == filled(list),
        dir.len() > 0 ==> filled(list.push(dir)) == filled(list).push(dir),
{
    assert(list.push(dir).drop_last() =~= list);
}

proof fn lemma_nothing_empty(list: Seq<Seq<u8>>)
    requires
        forall|i: int| 0 <= i < list.len() ==> (#[trigger] list[i]).len() > 0,
    ensures
        filled(list) == list,
    decreases list.len(),
{
    if list.len() > 0 {
        let front = list.drop_last();
        assert forall|i: int| 0 <= i < front.len() implies (#[trigger] front[i]).len() > 0 by {
            assert(list[i].len() > 0);
        }
        assert(list[list.len() - 1].len() > 0);
        lemma_nothing_empty(front);
        assert(front.push(list.last()) =~= list);
    }
}

/// A search path without empty directories is left as it is where there is nothing
/// to add, and where what is to be added cannot be named in it.
pub proof fn law_search_path_is_left_alone(path: Seq<u8>, extra: Seq<Seq<u8>>)
    requires
        forall|i: int| 0 <= i < pieces(path, 58).len() ==> (#[trigger] pieces(path, 58)[i]).len()
            > 0,
    ensures
        augmented(path, Seq::empty()) == path,
        unlistable(extended(pieces(path, 58), extra)) ==> augmented(path, extra) == path,
{
    lemma_nothing_empty(pieces(path, 58));
    law_directories_make_the_path(path);
    assert(extended(listed(path), Seq::empty()) == listed(path));
}

/// A directory that is not on a search path yet is added at its end.
pub proof fn law_search_path_grows_at_its_end(path: Seq<u8>, dir: Seq<u8>)
    requires
        forall|i: int| 0 <= i < pieces(path, 58).len() ==> (#[trigger] pieces(path, 58)[i]).len()
            > 0,
        !present(pieces(path, 58), dir),
        !dir.contains(58u8),
    ensures
        augmented(path, seq![dir]) == path + ascii(":"@) + dir,
{
    reveal_strlit(":");
    assert(ascii(":"@) =~= seq![58u8]);
    let dirs = pieces(path, 58);
    lemma_nothing_empty(dirs);
    law_directories_make_the_path(path);
    let one = seq![dir];
    assert(one.drop_last() =~= Seq::<Seq<u8>>::empty());
    assert(extended(dirs, one.drop_last()) == dirs);
    let all = dirs.push(dir);
    assert(extended(dirs, one) == all);
    assert(!unlistable(all)) by {
        if unlistable(all) {
            let i = choose|i: int| 0 <= i < all.len() && (#[trigger] all[i]).contains(58u8);
            if i < dirs.len() {
                assert(!dirs[i].contains(58u8));
            }
        }
    }
    assert(all.drop_last() =~= dirs);
    assert(all.last() == dir);
}

/// A program is looked for in each directory of the search path, in its order.
pub proof fn law_program_is_looked_for_in_order(dir: Seq<u8>, rest: Seq<u8>, name: Seq<u8>)
    requires
        !dir.contains(58u8),
    ensures
        places_of(dir, name) == seq![inside(dir, name)],
        places_of(dir + ascii(":"@) + rest, name) == seq![inside(dir, name)] + places_of(
            rest,
            name,
        ),
{
    reveal_strlit(":");
    assert(dir + ascii(":"@) + rest =~= dir + seq![58u8] + rest);
    assert forall|i: int| 0 <= i < dir.len() implies dir[i] != 58u8 by {
        assert(dir.contains(dir[i]));
    }
    lemma_first(dir, 58, dir.len() as int);
    lemma_pieces_meet(dir, 58, rest);
    assert(pieces(dir, 58) =~= seq![dir]);
    assert(places_of(dir, name) =~= seq![inside(dir, name)]);
    assert(places_of(dir + seq![58u8] + rest, name) =~= seq![inside(dir, name)] + places_of(
        rest,
        name,
    ));
}

} // verus!

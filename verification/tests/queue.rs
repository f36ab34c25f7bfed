//! The play queue: order, repeat, shuffle and loops.

use setbuddy::queue::{Queue, RepeatMode};
use setbuddy::shuffle::{shuffle, Rng};

fn queue_of(n: i64) -> Queue {
    let mut q = Queue::new();
    q.replace((1..=n).collect(), Some(0));
    q
}

#[test]
fn walks_forwards_and_stops_at_the_end() {
    let mut q = queue_of(3);
    assert_eq!(q.current(), Some(1));
    assert_eq!(q.next(), Some(2));
    assert_eq!(q.next(), Some(3));
    assert_eq!(q.next(), None, "repeat off stops at the end");
    assert_eq!(q.current(), Some(3), "and stays on the last track");
}

#[test]
fn repeat_all_wraps_in_both_directions() {
    let mut q = queue_of(3);
    q.set_repeat(RepeatMode::All);
    q.next();
    q.next();
    assert_eq!(q.next(), Some(1), "wraps forwards");
    assert_eq!(q.previous(), Some(3), "wraps backwards");
}

#[test]
fn repeat_one_replays_on_eof_but_not_on_explicit_next() {
    let mut q = queue_of(3);
    q.set_repeat(RepeatMode::One);
    assert_eq!(q.advance_on_eof(), Some(1), "eof replays the same track");
    assert_eq!(q.next(), Some(2), "an explicit next still moves on");
}

#[test]
fn eof_at_the_end_of_a_finite_queue_stops() {
    let mut q = queue_of(2);
    q.next();
    assert_eq!(q.advance_on_eof(), None);
}

#[test]
fn previous_stops_at_the_start_without_repeat() {
    let mut q = queue_of(3);
    assert_eq!(q.previous(), None);
    assert_eq!(q.current(), Some(1));
}

#[test]
fn shuffle_is_a_permutation_that_starts_from_the_current_track() {
    let mut q = queue_of(8);
    q.select_track(5);
    q.set_shuffle(true);
    q.set_seed(42);

    let mut seen = vec![q.current().unwrap()];
    while let Some(t) = q.next() {
        seen.push(t);
    }
    assert_eq!(seen[0], 5, "shuffle keeps playing the current track first");
    let mut sorted = seen.clone();
    sorted.sort_unstable();
    assert_eq!(
        sorted,
        (1..=8).collect::<Vec<_>>(),
        "every track exactly once"
    );
}

#[test]
fn shuffle_seed_is_reproducible() {
    let run = |seed| {
        let mut q = queue_of(10);
        q.set_shuffle(true);
        q.set_seed(seed);
        let mut out = vec![q.current().unwrap()];
        while let Some(t) = q.next() {
            out.push(t);
        }
        out
    };
    assert_eq!(run(7), run(7));
    assert_ne!(run(7), run(8), "different seeds give different orders");
}

#[test]
fn extend_keeps_the_current_track() {
    let mut q = queue_of(2);
    q.next();
    assert_eq!(q.current(), Some(2));
    q.extend(vec![3, 4]);
    assert_eq!(q.current(), Some(2), "adding to the queue must not skip");
    assert_eq!(q.next(), Some(3));
}

#[test]
fn staging_goes_to_the_top_without_changing_what_plays() {
    let mut q = queue_of(3);
    q.next();
    assert_eq!(q.current(), Some(2));
    q.insert_front(vec![90, 91]);
    assert_eq!(q.items(), [90, 91, 1, 2, 3]);
    assert_eq!(q.current(), Some(2), "the playing track must not change");
    assert_eq!(q.current_index(), Some(3));
}

#[test]
fn staging_onto_an_idle_queue_selects_nothing() {
    let mut q = Queue::new();
    q.insert_front(vec![7, 8]);
    assert_eq!(q.items(), [7, 8]);
    assert_eq!(q.current(), None, "staging is not playing");
}

#[test]
fn moving_an_item_carries_the_current_track_with_it() {
    let mut q = queue_of(4);
    q.next();
    q.next();
    assert_eq!(q.current(), Some(3));

    assert!(q.move_item(2, 0), "the playing track moved to the top");
    assert_eq!(q.items(), [3, 1, 2, 4]);
    assert_eq!(q.current_index(), Some(0));
    assert_eq!(q.current(), Some(3));

    assert!(q.move_item(3, 1), "an idle track moved above it");
    assert_eq!(q.items(), [3, 4, 1, 2]);
    assert_eq!(q.current(), Some(3), "still the same track playing");
}

#[test]
fn moving_nowhere_is_refused() {
    let mut q = queue_of(2);
    assert!(!q.move_item(0, 0));
    assert!(!q.move_item(0, 9));
    assert!(!q.move_item(9, 0));
    assert_eq!(q.items(), [1, 2]);
}

#[test]
fn scramble_permutes_only_the_chosen_slots() {
    let mut q = queue_of(8);
    q.set_seed(3);
    q.scramble(Some(&[1, 3, 5, 7]));
    let items = q.items().to_vec();
    assert_eq!(
        [items[0], items[2], items[4], items[6]],
        [1, 3, 5, 7],
        "untouched slots"
    );
    let mut chosen = vec![items[1], items[3], items[5], items[7]];
    chosen.sort_unstable();
    assert_eq!(
        chosen,
        [2, 4, 6, 8],
        "chosen tracks stay in the chosen slots"
    );
}

#[test]
fn scramble_follows_the_current_track() {
    let mut q = queue_of(10);
    q.select_track(4);
    for seed in 1..20 {
        q.set_seed(seed);
        q.scramble(None);
        assert_eq!(
            q.current(),
            Some(4),
            "seed {seed}: current must follow its track"
        );
        assert_eq!(q.items()[q.current_index().unwrap()], 4);
    }
    let mut all = q.items().to_vec();
    all.sort_unstable();
    assert_eq!(all, (1..=10).collect::<Vec<_>>());
}

#[test]
fn scramble_with_fewer_than_two_slots_is_a_no_op() {
    let mut q = queue_of(3);
    q.scramble(Some(&[1]));
    q.scramble(Some(&[7, 9]));
    assert_eq!(q.items(), [1, 2, 3]);
}

#[test]
fn a_loop_confines_next_and_previous_to_its_slots_and_wraps() {
    let mut q = queue_of(6);
    q.set_loop(Some(vec![4, 1, 4, 99]));
    assert_eq!(
        q.loop_set(),
        Some(&[1, 4][..]),
        "sorted, deduplicated, in range"
    );

    assert_eq!(
        q.next(),
        Some(2),
        "from outside the loop, enter at its first slot"
    );
    assert_eq!(q.next(), Some(5));
    assert_eq!(q.next(), Some(2), "wraps regardless of repeat mode");
    assert_eq!(q.previous(), Some(5), "wraps backwards too");
    assert_eq!(q.advance_on_eof(), Some(2), "eof stays inside the loop");
}

#[test]
fn loop_and_repeat_are_exclusive() {
    let mut q = queue_of(3);
    q.set_repeat(RepeatMode::One);
    q.set_loop(Some(vec![0, 1]));
    assert_eq!(q.repeat(), RepeatMode::Off, "a loop replaces repeat");
    q.set_repeat(RepeatMode::All);
    assert_eq!(q.loop_set(), None, "and repeat replaces the loop");
    q.set_loop(Some(vec![]));
    assert_eq!(q.loop_set(), None, "an empty loop is no loop");
}

#[test]
fn the_loop_follows_its_rows_through_staging_and_moves() {
    let mut q = queue_of(5);
    q.set_loop(Some(vec![1, 3]));
    q.insert_front(vec![90, 91]);
    assert_eq!(q.loop_set(), Some(&[3, 5][..]), "pushed down by the stage");
    assert!(q.move_item(0, 6));
    assert_eq!(
        q.loop_set(),
        Some(&[2, 4][..]),
        "pulled up when a row above leaves"
    );
    assert_eq!(
        [q.items()[2], q.items()[4]],
        [2, 4],
        "still the same tracks"
    );
    q.clear();
    assert_eq!(q.loop_set(), None);
}

#[test]
fn empty_queue_is_inert() {
    let mut q = Queue::new();
    assert_eq!(q.next(), None);
    assert_eq!(q.previous(), None);
    assert_eq!(q.advance_on_eof(), None);
    assert!(q.is_empty());
}

/// What is at a position before a move, and what the move makes of it.
fn rows(q: &Queue) -> Vec<i64> {
    q.items().to_vec()
}

#[test]
fn a_shuffled_queue_is_walked_back_the_way_it_came() {
    let mut q = queue_of(9);
    q.set_shuffle(true);
    q.set_seed(11);
    let mut walked = vec![q.current().unwrap()];
    while let Some(t) = q.next() {
        walked.push(t);
    }
    walked.pop();
    while let Some(t) = q.previous() {
        assert_eq!(Some(t), walked.pop());
    }
    assert!(walked.is_empty());
}

#[test]
fn shuffling_leaves_the_rows_where_they_are() {
    let mut q = queue_of(6);
    let before = rows(&q);
    q.set_shuffle(true);
    assert_eq!(rows(&q), before);
    assert!(q.shuffle_enabled());
    q.set_shuffle(false);
    assert_eq!(rows(&q), before);
    assert_eq!(q.current(), Some(1));
}

#[test]
fn a_move_undone_restores_every_row() {
    for (from, to) in [(0usize, 4usize), (4, 0), (1, 3), (3, 2)] {
        let mut q = queue_of(5);
        q.set_loop(Some(vec![0, 2]));
        assert!(q.move_item(from, to));
        assert!(q.move_item(to, from));
        assert_eq!(rows(&q), vec![1, 2, 3, 4, 5]);
        assert_eq!(q.loop_set(), Some(&[0, 2][..]));
    }
}

#[test]
fn retaining_drops_rows_and_follows_the_current_one() {
    let mut q = queue_of(5);
    q.select_track(4);
    q.set_loop(Some(vec![1, 3]));
    assert!(q.retain(&[1, 4, 5]));
    assert_eq!(q.items(), [1, 4, 5]);
    assert_eq!(q.current(), Some(4));
    assert_eq!(q.loop_set(), Some(&[1][..]));
    assert!(!q.retain(&[1, 4, 5]), "nothing was dropped");

    assert!(q.retain(&[1, 5]));
    assert_eq!(q.current(), None, "the current row itself was dropped");
}

#[test]
fn retaining_nothing_empties_the_queue() {
    let mut q = queue_of(3);
    assert!(q.retain(&[]));
    assert!(q.is_empty());
    assert_eq!(q.len(), 0);
    assert_eq!(q.current_index(), None);
}

#[test]
fn selecting_an_unknown_track_changes_nothing() {
    let mut q = queue_of(3);
    assert!(!q.select_track(99));
    assert_eq!(q.current(), Some(1));
}

#[test]
fn a_start_past_the_end_selects_nothing() {
    let mut q = Queue::new();
    q.replace(vec![1, 2], Some(2));
    assert_eq!(q.current(), None);
    assert_eq!(q.next(), Some(1), "next enters at the first row");
}

#[test]
fn repeat_modes_are_read_by_several_words() {
    assert_eq!(RepeatMode::parse(" Off "), Some(RepeatMode::Off));
    assert_eq!(RepeatMode::parse("none"), Some(RepeatMode::Off));
    assert_eq!(RepeatMode::parse("QUEUE"), Some(RepeatMode::All));
    assert_eq!(RepeatMode::parse("track"), Some(RepeatMode::One));
    assert_eq!(RepeatMode::parse("single"), Some(RepeatMode::One));
    assert_eq!(RepeatMode::parse("sometimes"), None);
    for mode in [RepeatMode::Off, RepeatMode::All, RepeatMode::One] {
        assert_eq!(RepeatMode::parse(mode.as_str()), Some(mode));
    }
}

#[test]
fn a_shuffle_is_decided_by_its_seed_alone() {
    let order = shuffle(6, 42);
    assert_eq!(order, shuffle(6, 42));
    let mut sorted = order.clone();
    sorted.sort_unstable();
    assert_eq!(sorted, vec![0, 1, 2, 3, 4, 5]);
    assert!(shuffle(0, 1).is_empty());
    assert_eq!(shuffle(1, 1), vec![0]);
}

#[test]
fn no_seed_leaves_the_generator_at_zero() {
    for seed in [0, 1, 2, 0x9E37_79B9_7F4A_7C15, u64::MAX] {
        let mut rng = Rng::new(seed);
        assert_ne!(rng.state, 0, "seed {seed}");
        let drawn: Vec<u64> = (0..4).map(|_| rng.next_u64()).collect();
        assert!(drawn.iter().all(|n| *n != 0), "seed {seed}");
        assert!(drawn.windows(2).all(|w| w[0] != w[1]), "seed {seed}");
    }
    assert_eq!(Rng::new(1).state, 1 ^ 0x9E37_79B9_7F4A_7C15);
}

#[test]
fn moving_back_brings_the_loop_back() {
    let mut q = Queue::new();
    q.replace(vec![1, 2, 3, 4, 5], Some(2));
    q.set_loop(Some(vec![0, 2, 3]));
    assert!(q.move_item(0, 3));
    assert!(q.move_item(3, 0));
    assert_eq!(q.items(), &[1, 2, 3, 4, 5]);
    assert_eq!(q.current_index(), Some(2));
    assert_eq!(q.loop_set().map(|s| s.to_vec()), Some(vec![0, 2, 3]));
}

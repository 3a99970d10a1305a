//! Queues: adding, removing, moving, searching, shuffling and stepping through them.

use flick::path::MediaPath;
use flick::playlist::shuffle::{draw_picks, fisher_yates, fisher_yates_with};
use flick::playlist::{Candidate, Queue, RemoveOutcome};

fn item(name: &str) -> Candidate {
    (name.to_string(), MediaPath::from_text(&format!("/media/{name}")), None)
}

fn queue_with(names: &[&str]) -> Queue {
    let mut q = Queue::new();
    q.enqueue(names.iter().map(|n| item(n)).collect());
    q
}

fn names(q: &Queue) -> Vec<String> {
    (0..q.len()).map(|i| q.item(i).unwrap().name.clone()).collect()
}

#[test]
fn enqueue_dedupes_by_path() {
    let mut q = Queue::new();
    let added = q.enqueue(vec![item("a.mp4"), item("b.mp4"), item("a.mp4")]);
    assert_eq!(added.len(), 2);
    assert_eq!(q.len(), 2);
}

#[test]
fn remove_last_item_empties_queue() {
    let mut q = queue_with(&["a", "b"]);
    q.remove_at(0);
    let outcome = q.remove_at(0);
    assert_eq!(outcome, RemoveOutcome::QueueEmpty);
    assert!(q.is_empty());
    assert_eq!(q.now_playing(), None);
}

#[test]
fn remove_currently_playing_clamps_to_last_valid_index() {
    let mut q = queue_with(&["a", "b", "c"]);
    q.set_now_playing(Some(2));
    let outcome = q.remove_at(2);
    assert_eq!(outcome, RemoveOutcome::NowPlayingChanged(1));
    assert_eq!(q.now_playing(), Some(1));
}

#[test]
fn remove_before_now_playing_shifts_index_down() {
    let mut q = queue_with(&["a", "b", "c"]);
    q.set_now_playing(Some(2));
    let outcome = q.remove_at(0);
    assert_eq!(outcome, RemoveOutcome::NoPlaybackChange);
    assert_eq!(q.now_playing(), Some(1));
}

#[test]
fn move_item_updates_now_playing_when_moved_item_is_playing() {
    let mut q = queue_with(&["a", "b", "c"]);
    q.set_now_playing(Some(0));
    q.move_item(0, 2);
    assert_eq!(q.now_playing(), Some(2));
    assert_eq!(q.item(2).unwrap().name, "a");
}

#[test]
fn move_item_shifts_now_playing_when_crossed() {
    let mut q = queue_with(&["a", "b", "c"]);
    q.set_now_playing(Some(1));
    q.move_item(2, 0);
    assert_eq!(q.now_playing(), Some(2));
}

#[test]
fn filtered_indices_matches_case_insensitive_substring() {
    let q = queue_with(&["Holiday.mp4", "work.mp4", "holiday2.mp4"]);
    assert_eq!(q.filtered_indices("HOLIDAY"), vec![0, 2]);
    assert_eq!(q.filtered_indices(""), vec![0, 1, 2]);
}

#[test]
fn playable_next_without_loop_stops_at_end() {
    let mut q = queue_with(&["a", "b"]);
    q.set_now_playing(Some(0));
    assert_eq!(q.playable_next("", false, false), Some(1));
    q.set_now_playing(Some(1));
    assert_eq!(q.playable_next("", false, false), None);
}

#[test]
fn playable_next_with_loop_wraps_around() {
    let mut q = queue_with(&["a", "b"]);
    q.set_now_playing(Some(1));
    assert_eq!(q.playable_next("", false, true), Some(0));
}

#[test]
fn playable_prev_without_loop_stops_at_start() {
    let mut q = queue_with(&["a", "b"]);
    q.set_now_playing(Some(0));
    assert_eq!(q.playable_prev("", false, false), None);
}

#[test]
fn single_item_with_loop_repeats_itself() {
    let mut q = queue_with(&["a"]);
    q.set_now_playing(Some(0));
    assert_eq!(q.playable_next("", false, true), Some(0));
}

#[test]
fn reshuffle_jump_to_first_picks_a_valid_item() {
    let mut q = queue_with(&["a", "b", "c", "d", "e"]);
    q.set_now_playing(Some(0));
    let chosen = q.reshuffle_jump_to_first("");
    assert!(chosen.is_some());
    assert!(chosen.unwrap() < 5);
}

#[test]
fn reshuffle_keep_current_first_keeps_now_playing_unchanged() {
    let mut q = queue_with(&["a", "b", "c", "d", "e"]);
    q.set_now_playing(Some(3));
    q.reshuffle_keep_current_first("");
    // What plays never changes in this variant, only the shuffle order does.
    assert_eq!(q.now_playing(), Some(3));
    assert_eq!(q.current_order("", true)[0], 3);
}

#[test]
fn shuffle_preserves_all_elements() {
    let mut order: Vec<usize> = (0..20).collect();
    fisher_yates(&mut order);
    let mut sorted = order.clone();
    sorted.sort();
    assert_eq!(sorted, (0..20).collect::<Vec<_>>());
}

#[test]
fn two_spellings_of_a_path_are_one_item() {
    let mut q = Queue::new();
    let paths = ["/media/a.mp4", "/media//a.mp4", "/media/./a.mp4", "/media/b/../a.mp4"];
    let added = q.enqueue(
        paths.iter().map(|p| ("a".to_string(), MediaPath::from_text(p), None)).collect(),
    );
    assert_eq!(added, vec![0, 1]);
    assert_eq!(q.item(1).unwrap().path.to_text(), "/media/b/../a.mp4");
}

#[test]
fn ids_go_up_and_are_not_reused() {
    let mut q = queue_with(&["a", "b"]);
    assert_eq!(q.item(0).unwrap().id, 1);
    assert_eq!(q.item(1).unwrap().id, 2);
    q.clear();
    assert!(q.is_empty());
    q.enqueue(vec![item("a")]);
    assert_eq!(q.item(0).unwrap().id, 3);
    assert_eq!(q.last_id(), 3);
}

#[test]
fn enqueue_says_where_new_items_are() {
    let mut q = queue_with(&["a", "b"]);
    assert_eq!(q.enqueue(vec![item("b"), item("c"), item("d")]), vec![2, 3]);
    assert_eq!(q.enqueue(vec![item("c")]), Vec::<usize>::new());
    assert_eq!(names(&q), vec!["a", "b", "c", "d"]);
}

#[test]
fn removing_by_path_takes_out_that_item_alone() {
    let mut q = queue_with(&["a", "b", "c"]);
    q.set_now_playing(Some(2));
    let outcome = q.remove_by_path(&MediaPath::from_text("/media/./b"));
    assert_eq!(outcome, Some(RemoveOutcome::NoPlaybackChange));
    assert_eq!(names(&q), vec!["a", "c"]);
    assert_eq!(q.now_playing(), Some(1));
    assert_eq!(q.remove_by_path(&MediaPath::from_text("/media/z")), None);
}

#[test]
fn removing_the_playing_item_plays_the_one_that_moves_up() {
    let mut q = queue_with(&["a", "b", "c"]);
    q.set_now_playing(Some(1));
    assert_eq!(q.remove_at(1), RemoveOutcome::NowPlayingChanged(1));
    assert_eq!(q.item(1).unwrap().name, "c");
}

#[test]
fn moving_there_and_back_restores_the_queue() {
    let mut q = queue_with(&["a", "b", "c", "d"]);
    q.set_now_playing(Some(2));
    q.move_item(0, 3);
    assert_eq!(names(&q), vec!["b", "c", "d", "a"]);
    assert_eq!(q.now_playing(), Some(1));
    q.move_item(3, 0);
    assert_eq!(names(&q), vec!["a", "b", "c", "d"]);
    assert_eq!(q.now_playing(), Some(2));
}

#[test]
fn search_lowercases_beyond_ascii() {
    let q = queue_with(&["ÜBUNG.mp4", "other.mp4"]);
    assert_eq!(q.item(0).unwrap().name_lower, "übung.mp4");
    assert_eq!(q.filtered_indices("Übung"), vec![0]);
    assert_eq!(q.filtered_indices("zzz"), Vec::<usize>::new());
}

#[test]
fn given_draws_make_a_given_order() {
    let mut order: Vec<usize> = vec![0, 1, 2, 3];
    // Place 3 is exchanged with 0, place 2 with 1, place 1 with 1.
    fisher_yates_with(&mut order, &[0, 1, 1]);
    assert_eq!(order, vec![3, 2, 1, 0]);
    let mut same: Vec<usize> = vec![0, 1, 2, 3];
    fisher_yates_with(&mut same, &[3, 2, 1]);
    assert_eq!(same, vec![0, 1, 2, 3]);
}

#[test]
fn every_order_of_three_comes_from_its_own_draws() {
    let mut seen: Vec<Vec<usize>> = Vec::new();
    for first in 0..3 {
        for second in 0..2 {
            let mut order: Vec<usize> = vec![0, 1, 2];
            fisher_yates_with(&mut order, &[first, second]);
            assert!(!seen.contains(&order));
            seen.push(order);
        }
    }
    assert_eq!(seen.len(), 6);
}

#[test]
fn draws_stay_within_their_places() {
    let mut moved = false;
    for _ in 0..50 {
        let picks = draw_picks(10);
        assert_eq!(picks.len(), 9);
        for (k, &pick) in picks.iter().enumerate() {
            assert!(pick <= 9 - k);
            moved = moved || pick != 9 - k;
        }
    }
    assert!(moved);
    assert!(draw_picks(1).is_empty());
    assert!(draw_picks(0).is_empty());
}

#[test]
fn given_order_decides_where_a_jump_lands() {
    let mut q = queue_with(&["aa", "b", "ab", "c"]);
    assert_eq!(q.jump_to_first_of(vec![3, 2, 1, 0], "a"), Some(2));
    assert_eq!(q.now_playing(), Some(2));
    assert_eq!(q.current_order("a", true), vec![2, 0]);
    assert_eq!(q.jump_to_first_of(vec![0, 1, 2, 3], "zzz"), None);
}

#[test]
fn given_order_keeps_the_playing_item_first() {
    let mut q = queue_with(&["a", "b", "c"]);
    q.set_now_playing(Some(1));
    q.keep_current_first_of(vec![2, 0, 1], "");
    assert_eq!(q.current_order("", true), vec![1, 2, 0]);
    q.keep_current_first_of(vec![2, 0, 1], "c");
    assert_eq!(q.current_order("", true), vec![2, 0, 1]);
}

#[test]
fn resetting_leads_back_to_queue_order() {
    let mut q = queue_with(&["a", "b", "c"]);
    q.jump_to_first_of(vec![2, 1, 0], "");
    assert_eq!(q.current_order("", true), vec![2, 1, 0]);
    q.reset_play_order();
    assert_eq!(q.current_order("", true), vec![0, 1, 2]);
}

#[test]
fn items_added_after_a_shuffle_are_not_in_its_order() {
    let mut q = queue_with(&["a", "b"]);
    q.jump_to_first_of(vec![1, 0], "");
    q.enqueue(vec![item("c")]);
    assert_eq!(q.current_order("", true), vec![1, 0]);
    assert_eq!(q.current_order("", false), vec![0, 1, 2]);
}

#[test]
fn stepping_on_and_back_leads_back() {
    let mut q = queue_with(&["a", "b", "c"]);
    q.set_now_playing(Some(2));
    let next = q.playable_next("", false, true).unwrap();
    assert_eq!(next, 0);
    q.set_now_playing(Some(next));
    assert_eq!(q.playable_prev("", false, true), Some(2));
}

#[test]
fn stepping_skips_what_the_search_hides() {
    let mut q = queue_with(&["a1", "b", "a2"]);
    q.set_now_playing(Some(0));
    assert_eq!(q.playable_next("a", false, false), Some(2));
    assert_eq!(q.playable_next("b", false, false), None);
    assert_eq!(q.playable_next("b", false, true), Some(1));
    assert_eq!(q.playable_prev("b", false, true), None);
}

#[test]
fn going_back_from_nowhere_lands_on_the_last_but_one() {
    let q = queue_with(&["a", "b", "c"]);
    assert_eq!(q.playable_prev("", false, true), Some(1));
    assert_eq!(q.playable_prev("", false, false), None);
    assert_eq!(q.playable_next("", false, false), Some(0));
}

#[test]
fn places_in_the_order_of_play() {
    let mut q = queue_with(&["a", "b", "c"]);
    q.jump_to_first_of(vec![2, 0, 1], "");
    assert_eq!(q.play_index_in_order(0, "", true), 2);
    assert_eq!(q.play_index_in_order(7, "", true), 7);
    assert_eq!(q.index_of_in_order(1, "", true), Some(2));
    assert_eq!(q.index_of_in_order(1, "c", true), None);
}

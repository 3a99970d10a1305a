//! What the window shows and how it answers to its user.

use flick::library::ScannedFile;
use flick::path::MediaPath;
use flick::playlist::Candidate;
use flick::thumbnails::sprite::SpriteMeta;
use flick::ui_bridge::controls::{
    counter_text, screenshot_name, speed_text, SpeedCycle,
};
use flick::ui_bridge::enqueue::adding_text;
use flick::ui_bridge::gallery::thumb_work_order;
use flick::ui_bridge::gif::{decode_gif, is_gif_file, tick_gif_animation};
use flick::ui_bridge::playback::VideoEofAdvance;
use flick::ui_bridge::rows::{matching_rows, sprite_status_glyph, PosterImageCache};
use flick::ui_bridge::sprite_preview::{
    frame_cell, pick_frame, Preview, SpriteStart,
};
use flick::ui_bridge::{
    basename, format_file_size, format_time, AbLoopState, AppState, Effect, GalleryReload, Mode,
    SpriteStatus,
};

fn path(text: &str) -> MediaPath {
    MediaPath::from_text(text)
}

fn media(name: &str) -> Candidate {
    (name.to_string(), path(&format!("/m/{name}")), Some(2048))
}

fn library(names: &[&str]) -> AppState {
    let mut state = AppState::new();
    state.enqueue_paths(names.iter().map(|n| media(n)).collect());
    state.set_mode(Mode::All, true);
    state.take_effects();
    state
}

fn in_mode(names: &[&str], mode: Mode) -> AppState {
    let mut state = library(names);
    state.set_mode(mode, true);
    state.take_effects();
    state
}

fn many(count: usize) -> Vec<String> {
    (0..count).map(|k| format!("{k:03}.mp4")).collect()
}

/// Whether the player runs after what it was told.
fn runs(effects: &[Effect], before: bool) -> bool {
    effects.iter().fold(before, |running, effect| match effect {
        Effect::StopPlayer | Effect::PausePlayer => false,
        Effect::LoadVideo { .. } => true,
        _ => running,
    })
}

#[test]
fn program_starts_with_nothing() {
    let state = AppState::new();
    assert_eq!(state.mode, Mode::All);
    assert!(state.active_queue().is_empty());
    assert!(!state.gallery_open && !state.slideshow_on && !state.shuffle_on && !state.loop_on);
    assert!(state.effects.is_empty());
    assert_eq!(state.loading_text(), "");
}

#[test]
fn sizes_as_text() {
    assert_eq!(format_file_size(0), "0 B");
    assert_eq!(format_file_size(1023), "1023 B");
    assert_eq!(format_file_size(1024), "1.0 KB");
    assert_eq!(format_file_size(1280), "1.2 KB");
    assert_eq!(format_file_size(1792), "1.8 KB");
    assert_eq!(format_file_size(1_048_575), "1024.0 KB");
    assert_eq!(format_file_size(5 * 1024 * 1024), "5.0 MB");
    assert_eq!(format_file_size(3 << 40), "3.0 TB");
    assert_eq!(format_file_size(u64::MAX), "16777216.0 TB");
}

#[test]
fn sizes_agree_with_floating_point() {
    let units = ["B", "KB", "MB", "GB", "TB"];
    let mut bytes: u64 = 1;
    for k in 0..4000u64 {
        let mut size = bytes as f64;
        let mut unit = 0;
        while size >= 1024.0 && unit < 4 {
            size /= 1024.0;
            unit += 1;
        }
        let expected = if unit == 0 {
            format!("{bytes} B")
        } else {
            format!("{size:.1} {}", units[unit])
        };
        assert_eq!(format_file_size(bytes), expected);
        bytes = bytes.wrapping_mul(6364136223846793005).wrapping_add(1442695040888963407) >> (k % 60);
    }
}

#[test]
fn times_as_text() {
    assert_eq!(format_time(None), "0:00");
    assert_eq!(format_time(Some(0)), "0:00");
    assert_eq!(format_time(Some(65)), "1:05");
    assert_eq!(format_time(Some(3600)), "1:00:00");
    assert_eq!(format_time(Some(36_125)), "10:02:05");
}

#[test]
fn names_by_which_paths_are_listed() {
    assert_eq!(basename(&path("/a/b.mp4")), "b.mp4");
    assert_eq!(basename(&path("/")), "/");
    assert_eq!(basename(&MediaPath { bytes: vec![47, 97, 0xff] }), "a\u{fffd}");
}

#[test]
fn speeds_and_other_texts() {
    let mut cycle = SpeedCycle::new();
    let shown: Vec<String> = (0..6).map(|_| speed_text(cycle.cycle_speed())).collect();
    assert_eq!(shown, vec!["1.25x", "1.5x", "2x", "0.5x", "0.75x", "1x"]);
    assert_eq!(cycle, SpeedCycle::new());
    assert_eq!(screenshot_name(12), "Flick-Screenshot-12.png");
    assert_eq!(counter_text(2, 10), "2 / 10");
    assert_eq!(adding_text(3), "Adding 3 items…");
    assert_eq!(sprite_status_glyph(SpriteStatus::NotStarted), "-");
    assert_eq!(sprite_status_glyph(SpriteStatus::InProgress), "⏳");
    assert_eq!(sprite_status_glyph(SpriteStatus::Done), "✓");
}

#[test]
fn added_media_goes_to_its_queues() {
    let mut state = AppState::new();
    state.enqueue_paths(vec![media("a.mp4"), media("b.png"), media("c.mkv"), media("a.mp4")]);
    assert_eq!(state.all_queue.len(), 3);
    assert_eq!(state.queue.len(), 2);
    assert_eq!(state.image_queue.len(), 1);
    assert_eq!(state.mode, Mode::All);
    assert!(!state.gallery_open);
    assert!(state.pending_gallery_reload);
    let effects = state.take_effects();
    assert_eq!(effects[0], Effect::ShowAdding(4));
    assert!(state.effects.is_empty());
}

#[test]
fn a_single_item_plays_at_once() {
    let mut state = AppState::new();
    state.enqueue_paths(vec![media("a.mp4")]);
    assert!(state.gallery_open);
    assert_eq!(state.mode, Mode::Video);
    assert_eq!(state.queue.now_playing(), Some(0));
    assert!(runs(&state.take_effects(), false));
    let mut state = AppState::new();
    state.enqueue_paths(vec![media("a.png")]);
    assert!(state.gallery_open);
    assert_eq!(state.image_queue.now_playing(), Some(0));
    let effects = state.take_effects();
    assert!(!runs(&effects, true));
    assert!(effects.contains(&Effect::ShowPicture { mode: Mode::Image, index: 0 }));
}

#[test]
fn adding_nothing_changes_no_queue() {
    let mut state = AppState::new();
    state.enqueue_paths(Vec::new());
    assert!(state.all_queue.is_empty());
    assert_eq!(
        state.take_effects(),
        vec![Effect::ShowLoading { loading: false, gallery_loading: false }]
    );
}

#[test]
fn adding_leads_to_the_mode_of_what_was_added() {
    let mut state = in_mode(&["a.mp4", "b.png"], Mode::Video);
    state.enqueue_paths(vec![media("c.png"), media("d.png")]);
    assert_eq!(state.mode, Mode::Image);
    assert_eq!(state.image_queue.len(), 3);
    state.enqueue_paths(vec![media("e.png"), media("f.mkv")]);
    assert_eq!(state.mode, Mode::All);
    state.enqueue_paths(vec![media("g.mp4"), media("h.mkv")]);
    assert_eq!(state.mode, Mode::Video);
    assert_eq!(state.queue.len(), 4);
    state.enqueue_paths(Vec::new());
    assert_eq!(state.mode, Mode::Video);
    let mut images = AppState::new();
    images.apply_file_import_batch(0, vec![media("a.png"), media("b.png")]);
    assert_eq!(images.mode, Mode::Image);
    assert!(images.queue.is_empty());
}

#[test]
fn known_files_lead_to_their_mode_too() {
    let mut state = library(&["a.mp4", "b.mp4", "c.png"]);
    state.enqueue_paths(vec![media("a.mp4")]);
    assert_eq!(state.mode, Mode::Video);
    assert_eq!(state.queue.len(), 2);
}

#[test]
fn playing_a_video() {
    let mut state = in_mode(&["a.mp4", "b.mp4", "c.png"], Mode::Video);
    state.play_index(1);
    assert_eq!(state.queue.now_playing(), Some(1));
    assert!(state.gallery_open);
    assert_eq!(
        state.take_effects(),
        vec![
            Effect::SetGalleryOpen(true),
            Effect::LoadVideo { mode: Mode::Video, index: 1 },
            Effect::SetPlaying(true),
            Effect::SyncSpritePreview,
            Effect::SetGalleryOpen(true),
            Effect::SetHasItems { mode: Mode::Video, has: true },
            Effect::ShowPosition { mode: Mode::Video, position: 2, total: 2 },
            Effect::FillRows { deferred: false },
        ]
    );
    state.play_index(9);
    assert!(state.take_effects().is_empty());
    state.set_mode(Mode::Image, false);
    state.take_effects();
    state.play_index(0);
    assert!(state.take_effects().is_empty());
}

#[test]
fn showing_an_image_stops_the_player() {
    let mut state = in_mode(&["a.mp4", "b.png", "c.png"], Mode::Image);
    state.show_image_at(1);
    assert_eq!(state.image_queue.now_playing(), Some(1));
    let effects = state.take_effects();
    assert!(!runs(&effects, true));
    assert!(effects.contains(&Effect::ShowPicture { mode: Mode::Image, index: 1 }));
    assert!(effects.contains(&Effect::ShowPosition { mode: Mode::Image, position: 2, total: 2 }));
}

#[test]
fn presenting_all_media() {
    let mut state = library(&["a.mp4", "b.png"]);
    state.present_item(1);
    assert!(!state.all_current_is_video);
    assert!(!runs(&state.take_effects(), true));
    state.present_item(0);
    assert!(state.all_current_is_video);
    let effects = state.take_effects();
    assert!(runs(&effects, false));
    assert!(effects.contains(&Effect::ShowPosition { mode: Mode::All, position: 1, total: 2 }));
}

#[test]
fn switching_to_images_is_silent() {
    let mut state = in_mode(&["a.mp4", "b.png", "c.png"], Mode::Video);
    state.play_index(0);
    state.take_effects();
    state.set_mode(Mode::Image, true);
    assert_eq!(state.mode, Mode::Image);
    assert!(!runs(&state.take_effects(), true));
    state.set_mode(Mode::Image, true);
    assert!(state.take_effects().is_empty());
}

#[test]
fn leaving_videos_pauses() {
    let mut state = in_mode(&["a.mp4", "b.png"], Mode::Video);
    state.set_mode(Mode::All, false);
    let effects = state.take_effects();
    assert_eq!(effects[0], Effect::PausePlayer);
    assert_eq!(effects[1], Effect::SetViewMode(Mode::All));
    assert!(!state.gallery_open);
}

#[test]
fn videos_end_the_slideshow() {
    let mut state = library(&["a.mp4", "b.png"]);
    state.toggle_slideshow();
    assert!(state.slideshow_on);
    state.set_mode(Mode::Video, true);
    assert!(!state.slideshow_on);
    let effects = state.take_effects();
    assert!(effects.contains(&Effect::StopSlideshowTimer));
    state.toggle_slideshow();
    assert!(!state.slideshow_on);
    assert!(state.take_effects().is_empty());
}

#[test]
fn entering_a_mode_shows_its_item_again() {
    let mut state = in_mode(&["a.mp4", "b.mp4", "c.png"], Mode::Video);
    state.play_index(1);
    state.set_mode(Mode::Image, true);
    state.take_effects();
    state.set_mode(Mode::Video, true);
    let effects = state.take_effects();
    assert!(effects.contains(&Effect::LoadVideo { mode: Mode::Video, index: 1 }));
}

#[test]
fn slideshow_shows_a_first_item() {
    let mut state = library(&["a.png", "b.png"]);
    state.slideshow_clicked();
    assert_eq!(state.all_queue.now_playing(), Some(0));
    assert!(state.all_slideshow_wants_timer());
    assert_eq!(state.take_effects().last(), Some(&Effect::StartSlideshowTimer));
    state.slideshow_clicked();
    assert_eq!(state.take_effects().last(), Some(&Effect::StopSlideshowTimer));
}

#[test]
fn slideshow_goes_on_until_the_end() {
    let mut state = in_mode(&["a.png", "b.png"], Mode::Image);
    state.toggle_slideshow();
    assert_eq!(state.image_queue.now_playing(), Some(0));
    state.slideshow_tick();
    assert_eq!(state.image_queue.now_playing(), Some(1));
    assert!(state.slideshow_on);
    state.slideshow_tick();
    assert!(!state.slideshow_on);
    let effects = state.take_effects();
    assert!(effects.contains(&Effect::SetSlideshowOn(false)));
    assert_eq!(effects.last(), Some(&Effect::StopSlideshowTimer));
    state.slideshow_tick();
    assert!(state.take_effects().is_empty());
}

#[test]
fn slideshow_of_all_media_waits_for_videos() {
    let mut state = library(&["a.png", "b.mp4", "c.png"]);
    state.toggle_slideshow();
    state.take_effects();
    state.slideshow_tick();
    assert!(state.all_current_is_video);
    assert!(!state.timer_wanted());
    assert_eq!(state.take_effects().last(), Some(&Effect::StopSlideshowTimer));
    state.video_ended();
    assert_eq!(state.all_queue.now_playing(), Some(2));
    assert_eq!(state.take_effects().last(), Some(&Effect::StartSlideshowTimer));
}

#[test]
fn the_end_of_a_video_leads_on() {
    let mut state = in_mode(&["a.mp4", "b.mp4"], Mode::Video);
    state.play_index(0);
    let advance = state.advance_on_video_eof();
    assert_eq!(
        advance,
        VideoEofAdvance { video_index: Some(1), restart_slideshow_timer: false }
    );
    let stuck = state.advance_on_video_eof();
    assert_eq!(stuck, VideoEofAdvance { video_index: None, restart_slideshow_timer: false });
    state.toggle_loop();
    assert!(state.loop_on);
    assert_eq!(state.advance_on_video_eof().video_index, Some(0));
    state.set_mode(Mode::Image, false);
    assert_eq!(state.advance_on_video_eof().video_index, None);
}

#[test]
fn the_end_of_the_last_video_of_all_media_plans_nothing() {
    let mut state = library(&["a.png", "b.mp4"]);
    state.present_item(1);
    state.take_effects();
    let advance = state.advance_on_video_eof();
    assert_eq!(advance, VideoEofAdvance { video_index: None, restart_slideshow_timer: false });
    assert_eq!(state.all_queue.now_playing(), Some(1));
    state.video_ended();
    assert!(state.take_effects().is_empty());
    let mut state = library(&["a.mp4", "b.mp4", "c.png"]);
    state.present_item(0);
    state.take_effects();
    state.video_ended();
    assert_eq!(state.all_queue.now_playing(), Some(1));
    assert_eq!(state.take_effects().last(), Some(&Effect::ScheduleSprite(1)));
    assert_eq!(state.advance_on_video_eof().video_index, None);
    assert_eq!(state.all_queue.now_playing(), Some(2));
}

#[test]
fn buttons_step_through_the_queue() {
    let mut state = in_mode(&["a.mp4", "b.mp4", "c.mp4"], Mode::Video);
    state.item_clicked(0);
    assert!(state.take_effects().contains(&Effect::ScheduleSprite(0)));
    state.next_track();
    assert_eq!(state.queue.now_playing(), Some(1));
    assert_eq!(state.take_effects().last(), Some(&Effect::ScheduleSprite(1)));
    state.previous_track();
    assert_eq!(state.queue.now_playing(), Some(0));
    state.take_effects();
    state.previous_track();
    assert!(state.take_effects().is_empty());
}

#[test]
fn buttons_step_through_all_media() {
    let mut state = library(&["a.mp4", "b.png"]);
    state.next_track();
    assert_eq!(state.all_queue.now_playing(), Some(0));
    state.next_track();
    assert_eq!(state.all_queue.now_playing(), Some(1));
    let effects = state.take_effects();
    assert_ne!(effects.last(), Some(&Effect::ScheduleSprite(1)));
    assert!(!state.navigate_all_relative(1));
    assert!(state.navigate_all_relative(-1));
}

#[test]
fn images_are_stepped_through() {
    let mut state = in_mode(&["a.png", "b.png"], Mode::Image);
    assert!(state.navigate_image_relative(1));
    assert!(state.navigate_image_relative(1));
    assert!(!state.navigate_image_relative(1));
    assert!(state.navigate_image_relative(-1));
    assert_eq!(state.image_queue.now_playing(), Some(0));
}

#[test]
fn a_ready_player_starts_with_the_first_video() {
    let mut state = in_mode(&["a.mp4", "b.mp4"], Mode::Video);
    state.player_ready();
    assert_eq!(state.queue.now_playing(), Some(0));
    state.take_effects();
    state.player_ready();
    assert!(state.take_effects().is_empty());
}

#[test]
fn removing_media_empties_all_queues_of_it() {
    let mut state = library(&["a.mp4", "b.png", "c.mp4"]);
    state.present_item(0);
    state.remove_item(0);
    assert_eq!(state.all_queue.len(), 2);
    assert_eq!(state.queue.len(), 1);
    assert_eq!(state.image_queue.len(), 1);
    assert_eq!(state.all_queue.now_playing(), Some(0));
    state.take_effects();
    state.remove_item(9);
    assert!(state.take_effects().is_empty());
    state.remove_item(1);
    state.remove_item(0);
    assert!(state.all_queue.is_empty() && state.queue.is_empty() && state.image_queue.is_empty());
    assert!(!state.gallery_open);
    assert!(state.take_effects().contains(&Effect::StopPlayer));
}

#[test]
fn removing_the_playing_video_plays_the_next() {
    let mut state = in_mode(&["a.mp4", "b.mp4", "c.mp4"], Mode::Video);
    state.play_index(2);
    state.take_effects();
    state.remove_item(2);
    let effects = state.take_effects();
    assert!(effects.contains(&Effect::LoadVideo { mode: Mode::Video, index: 1 }));
    state.remove_item(0);
    assert_eq!(state.take_effects(), vec![Effect::FillRows { deferred: false }]);
    state.remove_item(0);
    let effects = state.take_effects();
    assert_eq!(effects[0], Effect::StopPlayer);
    assert!(effects.contains(&Effect::SetHasItems { mode: Mode::Video, has: false }));
    assert!(effects.contains(&Effect::ClearPosition(Mode::Video)));
}

#[test]
fn removing_images() {
    let mut state = in_mode(&["a.png", "b.png", "c.png"], Mode::Image);
    state.show_image_at(1);
    state.take_effects();
    state.remove_item(0);
    let effects = state.take_effects();
    assert!(effects.contains(&Effect::ShowPicture { mode: Mode::Image, index: 0 }));
    state.remove_item(0);
    assert_eq!(state.image_queue.now_playing(), Some(0));
    state.remove_item(0);
    assert!(!state.gallery_open);
    assert!(state.take_effects().contains(&Effect::DropAnimation));
}

#[test]
fn dropping_an_item_before_another() {
    let mut state = in_mode(&["a.mp4", "b.mp4", "c.mp4"], Mode::Video);
    state.reorder_item(0, 3);
    let names: Vec<String> =
        (0..3).map(|i| state.queue.item(i).unwrap().name.clone()).collect();
    assert_eq!(names, vec!["b.mp4", "c.mp4", "a.mp4"]);
    state.take_effects();
    state.reorder_item(1, 1);
    assert!(state.take_effects().is_empty());
    state.reorder_item(2, 0);
    assert_eq!(state.queue.item(0).unwrap().name, "a.mp4");
}

#[test]
fn searching_ignores_case() {
    let mut state = library(&["Holiday.mp4", "work.png", "holiday.png"]);
    state.search_changed("HOLIDAY");
    assert_eq!(state.search_query, "holiday");
    assert_eq!(state.playlist_view().0, vec![0, 2]);
    assert_eq!(state.take_effects(), vec![Effect::FillRows { deferred: false }]);
}

#[test]
fn long_lists_are_filled_bit_by_bit() {
    let names = many(300);
    let refs: Vec<&str> = names.iter().map(|n| n.as_str()).collect();
    let mut state = library(&refs);
    assert!(state.playlist_busy());
    assert!(state.library_loading);
    assert_eq!(
        state.loading_text(),
        "Loading library… (items 0/300, thumbs 0/300)"
    );
    assert!(!state.tick_playlist_rebuild());
    assert_eq!(
        state.take_effects()[0],
        Effect::FillRowRange { from: 0, to: 120, deferred: true }
    );
    state.tick_playlist_rebuild();
    state.tick_playlist_rebuild();
    let effects = state.take_effects();
    assert!(effects.contains(&Effect::FillRowRange { from: 240, to: 300, deferred: true }));
    assert_eq!(
        state.loading_text(),
        "Loading library… (previews 0/300, thumbs 0/300)"
    );
    for bit in 0..3 {
        assert!(state.playlist_busy());
        assert_eq!(state.tick_playlist_rebuild(), bit == 2);
    }
    assert!(!state.playlist_busy());
    state.take_effects();
    assert!(state.tick_playlist_rebuild());
    assert!(state.take_effects().is_empty());
}

#[test]
fn lists_of_eighty_rows_are_filled_at_once() {
    let names = many(81);
    let refs: Vec<&str> = names.iter().map(|n| n.as_str()).collect();
    let mut state = library(&refs[..80]);
    assert!(!state.playlist_busy());
    state.enqueue_paths(vec![media(&names[80])]);
    assert!(state.playlist_busy());
}

#[test]
fn import_ends_once_all_is_idle() {
    let mut state = AppState::new();
    let session = state.begin_import();
    assert_eq!(session, 0);
    assert!(state.library_loading);
    assert_eq!(state.loading_text(), "Importing…");
    assert_eq!(
        state.take_effects(),
        vec![Effect::ShowLoading { loading: true, gallery_loading: true }]
    );
    state.try_finish_import_session();
    assert!(!state.library_loading);
    assert_eq!(state.library_loading_message, "");
    state.take_effects();
    state.try_finish_import_session();
    assert!(state.take_effects().is_empty());
}

#[test]
fn late_batches_are_dropped_after_clearing() {
    let mut state = library(&["a.mp4", "b.mp4"]);
    let session = state.begin_import();
    state.clear_queue();
    assert!(state.all_queue.is_empty() && state.queue.is_empty());
    state.take_effects();
    state.apply_file_import_batch(session, vec![media("c.mp4")]);
    assert!(state.all_queue.is_empty());
    let scanned =
        || vec![ScannedFile { path: path("/m/d.mp4"), size: None, content_hash: None }];
    state.apply_scan_batch(session, scanned());
    assert!(state.all_queue.is_empty());
    assert!(state.take_effects().is_empty());
    state.apply_scan_batch(session + 1, scanned());
    assert_eq!(state.all_queue.item(0).unwrap().name, "d.mp4");
    for mode in [Mode::Video, Mode::Image] {
        let mut state = in_mode(&["a.mp4", "b.mp4", "c.png"], mode);
        let session = state.begin_import();
        state.clear_queue();
        assert_eq!(state.library_session, session + 1);
        state.take_effects();
        state.apply_file_import_batch(session, vec![media("e.mp4"), media("f.png")]);
        state.apply_scan_batch(session, scanned());
        assert_eq!(state.all_queue.len(), 3);
        assert!(state.take_effects().is_empty());
    }
}

#[test]
fn scans_bring_their_hashes() {
    let mut state = AppState::new();
    let file = |name: &str, hash: Option<&str>| ScannedFile {
        path: path(name),
        size: Some(1),
        content_hash: hash.map(|h| h.to_string()),
    };
    state.apply_scan_batch(0, vec![file("/m/a.mp4", Some("h1")), file("/m/b.mp4", None)]);
    assert_eq!(state.known_hash(&path("/m/a.mp4")), Some("h1".to_string()));
    assert_eq!(state.known_hash(&path("/m/b.mp4")), None);
    state.prime_sprite_hash(&path("/m/a.mp4"), "h2".to_string());
    assert_eq!(state.known_hash(&path("/m/./a.mp4")), Some("h1".to_string()));
}

#[test]
fn clearing_one_queue() {
    let mut state = in_mode(&["a.mp4", "b.png"], Mode::Video);
    state.clear_queue();
    assert!(state.queue.is_empty());
    assert_eq!(state.image_queue.len(), 1);
    assert_eq!(
        state.take_effects(),
        vec![Effect::StopPlayer, Effect::SetPlaying(false), Effect::FillRows { deferred: false }]
    );
    state.toggle_mode(false);
    assert_eq!(state.mode, Mode::Image);
    state.clear_queue();
    assert!(state.image_queue.is_empty());
    assert_eq!(state.all_queue.len(), 2);
    state.toggle_mode(false);
    assert_eq!(state.mode, Mode::Video);
}

#[test]
fn shuffle_is_one_switch_for_all_queues() {
    let names = ["a.mp4", "b.mp4", "c.mp4", "d.png", "e.png"];
    let mut state = in_mode(&names, Mode::Video);
    state.toggle_shuffle_with(vec![2, 0, 1], vec![1, 0], vec![4, 3, 2, 1, 0]);
    assert!(state.shuffle_on);
    assert_eq!(state.queue.now_playing(), Some(2));
    assert_eq!(state.queue.current_order("", true), vec![2, 0, 1]);
    assert_eq!(state.image_queue.current_order("", true), vec![1, 0]);
    assert_eq!(state.all_queue.current_order("", true), vec![4, 3, 2, 1, 0]);
    assert!(state
        .take_effects()
        .contains(&Effect::LoadVideo { mode: Mode::Video, index: 2 }));
    state.toggle_shuffle();
    assert!(!state.shuffle_on);
    assert_eq!(state.queue.current_order("", true), vec![0, 1, 2]);
    assert_eq!(state.queue.now_playing(), Some(2));
    state.toggle_shuffle();
    let mut order = state.all_queue.current_order("", true);
    order.sort();
    assert_eq!(order, vec![0, 1, 2, 3, 4]);
}

#[test]
fn shuffle_keeps_the_item_on_show_first() {
    let mut state = library(&["a.png", "b.png", "c.png"]);
    state.present_item(1);
    state.take_effects();
    state.toggle_shuffle();
    assert_eq!(state.all_queue.current_order("", true)[0], 1);
    assert_eq!(state.all_queue.now_playing(), Some(1));
    assert!(state
        .take_effects()
        .contains(&Effect::ShowPosition { mode: Mode::All, position: 1, total: 3 }));
}

#[test]
fn near_pictures_come_first() {
    assert_eq!(thumb_work_order(0, 5, 2), vec![2, 1, 3, 0, 4]);
    assert_eq!(thumb_work_order(0, 4, 0), vec![0, 1, 2, 3]);
    assert_eq!(thumb_work_order(2, 6, 9), vec![5, 4, 3, 2]);
    assert_eq!(thumb_work_order(3, 3, 1), Vec::<usize>::new());
    for focus in 0..7 {
        let mut expected: Vec<usize> = (0..7).collect();
        expected.sort_by_key(|i| i.abs_diff(focus));
        assert_eq!(thumb_work_order(0, 7, focus), expected);
    }
}

#[test]
fn the_grid_is_made_after_it_was_shown() {
    let mut state = library(&["a.mp4", "b.png", "c.mp4"]);
    assert!(state.pending_gallery_reload);
    assert!(state.gallery_busy());
    state.try_start_pending_gallery_reload();
    assert!(state.pending_gallery_reload);
    state.run_pending_gallery_reload();
    assert!(!state.pending_gallery_reload);
    assert_eq!(state.gallery_generation, 1);
    assert_eq!(state.grid.video, vec![true, false, true]);
    assert_eq!(state.gallery_order, vec![0, 1, 2]);
    let effects = state.take_effects();
    assert_eq!(effects[0], Effect::ResetGrid);
    assert_eq!(effects[1], Effect::StartThumbs { generation: 1 });
    let jobs = state.thumb_jobs();
    assert_eq!(jobs.len(), 3);
    assert_eq!((jobs[1].0, jobs[1].1.to_text(), jobs[1].2), (1, "/m/b.png".to_string(), false));
    state.run_pending_gallery_reload();
    assert!(state.take_effects().is_empty());
}

#[test]
fn pictures_of_the_grid_are_counted() {
    let mut state = library(&["a.mp4", "b.png"]);
    state.run_pending_gallery_reload();
    state.take_effects();
    assert!(!state.accepts_thumb(0, 0));
    state.apply_gallery_thumb(0, 0, true);
    assert!(state.take_effects().is_empty());
    state.apply_gallery_thumb(1, 0, true);
    assert_eq!(state.take_effects(), vec![Effect::ShowThumb { row: 0 }]);
    assert_eq!(state.loading_text(), "Loading library… (thumbs 1/2)");
    state.apply_gallery_thumb(1, 1, true);
    assert!(!state.gallery_busy());
    assert_eq!(state.gallery_thumbs_loaded, 2);
}

#[test]
fn missing_pictures_are_tried_three_times_more() {
    let mut state = library(&["a.mp4", "b.png"]);
    state.run_pending_gallery_reload();
    state.apply_gallery_thumb(1, 0, true);
    state.take_effects();
    state.apply_gallery_thumb(1, 1, false);
    let effects = state.take_effects();
    assert_eq!(effects[0], Effect::MarkThumbFailed { row: 1 });
    assert_eq!(effects[1], Effect::ClearThumbFailures);
    assert_eq!(effects[2], Effect::StartThumbs { generation: 2 });
    assert_eq!(state.grid.work, vec![1]);
    for generation in 2..4 {
        state.apply_gallery_thumb(generation, 1, false);
    }
    assert_eq!(state.gallery_thumb_retry_pass, 3);
    assert_eq!(state.gallery_generation, 4);
    state.apply_gallery_thumb(4, 1, false);
    assert_eq!(state.gallery_thumb_retry_pass, 0);
    assert_eq!(state.gallery_generation, 4);
    assert_eq!(state.grid.failed, vec![false, true]);
    assert_eq!(state.loading_text(), "Loading library… (thumbs 1/1 (1 failed))");
    state.try_finish_import_session();
    assert_eq!(state.loading_text(), "");
}

#[test]
fn failures_are_told() {
    let mut state = library(&["a.mp4", "b.png", "c.png"]);
    state.run_pending_gallery_reload();
    state.apply_gallery_thumb(1, 2, false);
    assert_eq!(state.loading_text(), "Loading library… (thumbs 1/3 (1 failed))");
}

#[test]
fn the_grid_grows_at_its_end() {
    let mut state = library(&["a.mp4", "b.png"]);
    state.run_pending_gallery_reload();
    state.apply_gallery_thumb(1, 0, true);
    assert!(!state.try_append_gallery_thumbnails());
    state.apply_gallery_thumb(1, 1, true);
    assert!(!state.try_append_gallery_thumbnails());
    state.all_queue.enqueue(vec![media("c.mp4"), media("d.png")]);
    state.take_effects();
    assert!(state.try_append_gallery_thumbnails());
    assert_eq!(state.grid.video, vec![true, false, true, false]);
    assert_eq!(state.grid.work, vec![2, 3]);
    assert_eq!(state.gallery_thumbs_pending, 4);
    assert_eq!(
        state.take_effects(),
        vec![Effect::ExtendGrid { from: 2 }, Effect::StartThumbs { generation: 2 }]
    );
}

#[test]
fn items_that_are_added_do_not_restart_the_grid() {
    let mut state = library(&["a.mp4", "b.png"]);
    state.run_pending_gallery_reload();
    state.take_effects();
    state.enqueue_paths(vec![media("c.mp4"), media("d.png")]);
    assert!(state.pending_gallery_append);
    assert!(!state.pending_gallery_reload);
    assert_eq!(state.gallery_order, vec![0, 1]);
    assert_eq!(state.gallery_generation, 1);
    state.apply_gallery_thumb(1, 0, true);
    state.try_start_pending_gallery_append();
    assert!(state.pending_gallery_append);
    state.apply_gallery_thumb(1, 1, true);
    state.take_effects();
    state.try_start_pending_gallery_append();
    assert!(!state.pending_gallery_append);
    assert_eq!(state.gallery_order, vec![0, 1, 2, 3]);
    let effects = state.take_effects();
    assert_eq!(effects[0], Effect::ExtendGrid { from: 2 });
    assert_eq!(effects[1], Effect::StartThumbs { generation: 2 });
    state.try_start_pending_gallery_append();
    assert!(state.take_effects().is_empty());
    state.apply_gallery_thumb(2, 2, true);
    state.apply_gallery_thumb(2, 3, true);
    state.take_effects();
    state.enqueue_paths(vec![media("e.mp4"), media("f.png")]);
    assert!(!state.pending_gallery_append);
    let effects = state.take_effects();
    assert!(effects.contains(&Effect::ExtendGrid { from: 4 }));
    assert!(effects.contains(&Effect::StartThumbs { generation: 3 }));
    assert!(!effects.contains(&Effect::ResetGrid));
    assert_eq!(state.grid.video, vec![true, false, true, false, true, false]);
}

/// A library in the mode for all media whose grid has all its pictures.
fn with_grid(names: &[&str]) -> AppState {
    let mut state = library(names);
    state.run_pending_gallery_reload();
    for row in 0..names.len() {
        state.apply_gallery_thumb(1, row, true);
    }
    state.take_effects();
    state
}

#[test]
fn a_grid_can_grow_after_an_item_was_moved_away_and_back() {
    let mut state = with_grid(&["a.mp4", "b.png", "c.mp4"]);
    state.reorder_item(0, 3);
    state.all_queue.enqueue(vec![media("d.png")]);
    assert!(!state.try_append_gallery_thumbnails());
    let mut state = with_grid(&["a.mp4", "b.png", "c.mp4"]);
    state.reorder_item(0, 3);
    state.reorder_item(2, 0);
    state.all_queue.enqueue(vec![media("d.png")]);
    state.take_effects();
    assert!(state.try_append_gallery_thumbnails());
    assert_eq!(state.gallery_order, vec![0, 1, 2, 3]);
    assert_eq!(state.grid.shown[3].to_text(), "/m/d.png");
    assert_eq!(state.gallery_generation, 2);
    assert_eq!(
        state.take_effects(),
        vec![Effect::ExtendGrid { from: 3 }, Effect::StartThumbs { generation: 2 }]
    );
}

#[test]
fn a_grid_can_grow_after_another_mode_was_looked_at() {
    let mut state = with_grid(&["a.mp4", "b.png"]);
    state.set_mode(Mode::Image, false);
    state.set_mode(Mode::All, false);
    state.all_queue.enqueue(vec![media("c.mp4")]);
    assert!(state.try_append_gallery_thumbnails());
}

#[test]
fn a_grid_whose_rows_show_other_items_is_not_added_to() {
    let mut state = with_grid(&["a.mp4", "b.png", "c.mp4"]);
    state.remove_item(1);
    state.all_queue.enqueue(vec![media("d.png"), media("e.png")]);
    assert_eq!(state.all_queue.len(), 4);
    state.take_effects();
    assert!(!state.try_append_gallery_thumbnails());
    assert!(state.take_effects().is_empty());
    assert_eq!(state.gallery_order, vec![0, 1, 2]);
    state.enqueue_paths(vec![media("f.mp4"), media("g.png")]);
    assert!(state.pending_gallery_reload);
    state.run_pending_gallery_reload();
    let shown: Vec<String> = state.grid.shown.iter().map(|p| p.to_text()).collect();
    assert_eq!(shown, vec!["/m/a.mp4", "/m/c.mp4", "/m/d.png", "/m/e.png", "/m/f.mp4", "/m/g.png"]);
}

#[test]
fn a_grid_of_another_mode_is_made_anew() {
    let mut state = library(&["a.mp4", "b.png"]);
    state.run_pending_gallery_reload();
    state.enqueue_paths(vec![media("c.mp4"), media("d.mp4")]);
    assert_eq!(state.mode, Mode::Video);
    assert!(!state.pending_gallery_append);
    assert!(state.pending_gallery_reload);
    state.run_pending_gallery_reload();
    assert_eq!(state.grid.video, vec![true, true, true]);
}

#[test]
fn going_back_to_the_grid() {
    let mut state = library(&["a.mp4", "b.png"]);
    assert!(!state.toggle_gallery());
    state.run_pending_gallery_reload();
    state.gallery_item_clicked(1);
    assert!(state.gallery_open);
    assert_eq!(state.all_queue.now_playing(), Some(1));
    state.take_effects();
    assert!(!state.gallery_clicked());
    assert!(!state.gallery_open);
    assert!(state.take_effects().contains(&Effect::StopSlideshowTimer));
    state.gallery_item_clicked(9);
    assert!(!state.gallery_open);
    assert!(state.open_gallery_grid(GalleryReload::Force));
    state.gallery_item_clicked(0);
    state.search_changed("b");
    assert!(state.return_to_gallery());
    assert!(state.pending_gallery_reload);
}

#[test]
fn rows_of_the_list() {
    let mut state = library(&["a.mp4", "b.png"]);
    state.present_item(0);
    let row = state.playlist_row(0, false, SpriteStatus::Done);
    assert_eq!((row.queue_index, row.name.as_str(), row.playing), (0, "a.mp4", true));
    assert_eq!((row.sprite_status.as_str(), row.file_size_text.as_str()), ("✓", "2.0 KB"));
    assert!(row.is_video);
    let image = state.playlist_row(1, false, SpriteStatus::Done);
    assert_eq!((image.sprite_status.as_str(), image.is_video, image.playing), ("", false, false));
    assert_eq!(state.playlist_row(1, true, SpriteStatus::Done).sprite_status, "-");
    assert_eq!(state.listed_rows(true).0, vec![0]);
    let (rows, paths) = state.listed_rows(false);
    assert_eq!(rows, vec![0, 1]);
    assert_eq!(paths[1].to_text(), "/m/b.png");
    let hashes = vec![Some("x".to_string()), None];
    assert_eq!(matching_rows(&rows, &hashes, "x"), vec![0]);
    assert_eq!(matching_rows(&rows, &hashes, "y"), Vec::<usize>::new());
}

#[test]
fn pictures_of_rows_are_kept_up_to_a_number() {
    let mut cache: PosterImageCache<usize> = PosterImageCache::new();
    for k in 0..513 {
        cache.insert(format!("h{k}"), k);
    }
    assert_eq!(cache.get("h0"), None);
    assert_eq!(cache.get("h1"), Some(&1));
    assert_eq!(cache.get("h512"), Some(&512));
}

#[test]
fn hashes_are_remembered_once_computed() {
    let mut state = AppState::new();
    let file = path("/m/a.mp4");
    assert_eq!(state.sprite_hash_for(&file, None), None);
    assert_eq!(state.sprite_hash_for(&file, Some("h".to_string())), Some("h".to_string()));
    assert_eq!(state.sprite_hash_for(&file, Some("other".to_string())), Some("h".to_string()));
    assert_eq!(state.sprite_hash_for(&file, None), Some("h".to_string()));
}

#[test]
fn how_far_previews_are() {
    let mut state = AppState::new();
    assert_eq!(state.sprite_status_for(None, true), SpriteStatus::NotStarted);
    assert_eq!(state.sprite_status_for(Some("h"), false), SpriteStatus::NotStarted);
    assert_eq!(state.sprite_status_for(Some("h"), true), SpriteStatus::Done);
    assert_eq!(state.sprite_status_for(Some("h"), false), SpriteStatus::Done);
    assert_eq!(state.sync_sprite_preview(SpriteStatus::Done, true), Preview::Clear);
    state.enqueue_paths(vec![media("a.mp4")]);
    assert_eq!(state.sync_sprite_preview(SpriteStatus::Done, true), Preview::Sheet);
    assert_eq!(state.sync_sprite_preview(SpriteStatus::Done, false), Preview::Clear);
    assert_eq!(state.sync_sprite_preview(SpriteStatus::InProgress, false), Preview::Loading);
    assert_eq!(state.sync_sprite_preview(SpriteStatus::NotStarted, false), Preview::Clear);
    state.set_mode(Mode::Image, false);
    assert_eq!(state.sync_sprite_preview(SpriteStatus::InProgress, false), Preview::Clear);
}

#[test]
fn previews_are_made_for_what_stays_on_show() {
    let mut state = in_mode(&["a.mp4", "b.mp4"], Mode::Video);
    state.play_index(0);
    state.take_effects();
    let hash = || Some("h".to_string());
    let start = state.sprite_timer_fired(1, SpriteStatus::NotStarted, hash());
    assert_eq!(start, SpriteStart::Skip);
    assert!(state.take_effects().is_empty());
    let start = state.sprite_timer_fired(0, SpriteStatus::NotStarted, hash());
    assert_eq!(start, SpriteStart::Generate);
    assert_eq!(state.take_effects(), vec![Effect::ShowSpriteLoading]);
    assert_eq!(state.sprite_status_for(Some("h"), false), SpriteStatus::InProgress);
    let again = state.sprite_timer_fired(0, SpriteStatus::InProgress, hash());
    assert_eq!(again, SpriteStart::Skip);
    assert_eq!(state.sprite_timer_fired(0, SpriteStatus::NotStarted, None), SpriteStart::Skip);
    state.take_effects();
    assert_eq!(state.apply_sprite_result("h".to_string(), false, None), SpriteStatus::NotStarted);
    assert_eq!(state.take_effects(), vec![Effect::HideSpriteLoading]);
    assert_eq!(
        state.sprite_timer_fired(0, SpriteStatus::NotStarted, hash()),
        SpriteStart::Generate
    );
    state.take_effects();
    assert_eq!(state.apply_sprite_result("h".to_string(), true, hash()), SpriteStatus::Done);
    assert_eq!(state.take_effects(), vec![Effect::SyncSpritePreview]);
    state.apply_sprite_result("k".to_string(), true, hash());
    assert!(state.take_effects().is_empty());
}

#[test]
fn previews_are_for_videos() {
    let mut state = library(&["a.mp4", "b.png"]);
    assert_eq!(state.previewable(0).unwrap().to_text(), "/m/a.mp4");
    assert!(state.previewable(1).is_none());
    assert!(state.current_video_path().is_none());
    state.present_item(0);
    assert_eq!(state.preview_source().unwrap().to_text(), "/m/a.mp4");
    assert_eq!(state.now_playing_index(), Some(0));
    state.set_mode(Mode::Image, false);
    assert!(state.previewable(0).is_none());
    assert!(state.preview_source().is_none());
    assert_eq!(state.now_playing_index(), None);
    state.take_effects();
    state.schedule_sprite_generation(0);
    assert!(state.take_effects().is_empty());
    state.clear_sprite_preview();
    state.hide_list_sprite_preview();
    assert_eq!(state.take_effects(), vec![Effect::ClearSpritePreview, Effect::HideListPreview]);
}

#[test]
fn frames_lie_in_columns_and_rows() {
    assert_eq!(frame_cell(0, 10), (0, 0));
    assert_eq!(frame_cell(27, 10), (7, 2));
    let mut other = false;
    for _ in 0..100 {
        let frame = pick_frame(7);
        assert!(frame < 7);
        other = other || frame != 6;
    }
    assert!(other);
    assert_eq!(pick_frame(0), 0);
}

#[test]
fn the_list_shows_a_frame_of_what_is_done() {
    let mut state = library(&["a.mp4", "b.png"]);
    let meta = |frame_count: u32| SpriteMeta {
        interval_bits: 0,
        frame_count,
        columns: 10,
        rows: 3,
        thumb_width: 160,
        thumb_height: 90,
    };
    let done = SpriteStatus::Done;
    assert_eq!(state.list_preview_cell(0, done, Some(meta(25)), 13), Some((3, 1)));
    for _ in 0..100 {
        let (col, row) = state.show_list_sprite_preview(0, done, Some(meta(25))).unwrap();
        assert!(row * 10 + col < 25 && col < 10);
    }
    assert_eq!(state.show_list_sprite_preview(0, done, Some(meta(0))), Some((0, 0)));
    assert!(state.take_effects().is_empty());
    assert_eq!(state.show_list_sprite_preview(0, SpriteStatus::InProgress, Some(meta(5))), None);
    assert_eq!(state.show_list_sprite_preview(0, done, None), None);
    assert_eq!(state.show_list_sprite_preview(1, done, Some(meta(5))), None);
    assert_eq!(state.show_list_sprite_preview(7, done, Some(meta(5))), None);
    assert_eq!(state.take_effects(), vec![Effect::HideListPreview; 4]);
}

#[test]
fn two_clicks_loop_a_segment() {
    let bits = |seconds: f64| seconds.to_bits();
    let mut state = AppState::new();
    state.handle_progress_click(false, bits(1.0));
    assert!(state.take_effects().is_empty());
    state.handle_progress_click(true, bits(1.0));
    assert_eq!(state.take_effects(), vec![Effect::SeekExact(bits(1.0))]);
    state.toggle_ab_loop();
    assert_eq!(state.ab_loop, AbLoopState::PickingA);
    state.handle_progress_click(true, bits(2.5));
    assert_eq!(state.ab_loop, AbLoopState::PickingB { a: bits(2.5) });
    state.take_effects();
    state.handle_progress_click(true, bits(2.25));
    assert!(state.take_effects().is_empty());
    state.handle_progress_click(true, bits(10.0));
    assert_eq!(state.ab_loop, AbLoopState::Active { a: bits(2.5), b: bits(10.0) });
    assert_eq!(
        state.take_effects(),
        vec![
            Effect::SetLoopEnd(bits(10.0)),
            Effect::SeekExact(bits(2.5)),
            Effect::ShowAbLoop
        ]
    );
    let view = state.ab_loop_view();
    assert_eq!((view.a, view.b, view.picking, view.active), (Some(bits(2.5)), Some(bits(10.0)), false, true));
    state.toggle_ab_loop();
    assert_eq!(state.ab_loop, AbLoopState::Off);
    assert_eq!(state.take_effects()[0], Effect::ClearLoopPoints);
}

#[test]
fn drags_wait_for_the_player() {
    let mut state = AppState::new();
    state.queue_scrub_ratio(5, true, true);
    assert!(state.take_effects().is_empty());
    state.queue_scrub_ratio(6, true, true);
    state.apply_pending_scrub(false, true);
    assert_eq!(state.take_effects(), vec![Effect::SeekToRatio(6)]);
    state.apply_pending_scrub(false, true);
    assert!(state.take_effects().is_empty());
    state.toggle_ab_loop();
    state.take_effects();
    state.queue_scrub_ratio(7, false, true);
    assert_eq!(state.pending_scrub, None);
    assert!(state.take_effects().is_empty());
    state.toggle_ab_loop();
    state.take_effects();
    state.queue_scrub_ratio(8, false, false);
    assert!(state.take_effects().is_empty());
}

fn gif_of(colors: &[[u8; 4]]) -> Vec<u8> {
    let mut file = Vec::new();
    let mut encoder = image::codecs::gif::GifEncoder::new(&mut file);
    for color in colors {
        let picture = image::RgbaImage::from_pixel(2, 3, image::Rgba(*color));
        let delay = image::Delay::from_numer_denom_ms(50, 1);
        encoder.encode_frame(image::Frame::from_parts(picture, 0, 0, delay)).unwrap();
    }
    drop(encoder);
    file
}

#[test]
fn animations_start_over() {
    let gif = gif_of(&[[255, 0, 0, 255], [0, 255, 0, 255], [0, 0, 255, 255]]);
    let (frames, mut animation) = decode_gif(&gif).unwrap();
    assert_eq!(frames.len(), 3);
    assert_eq!((frames[1].width, frames[1].height, frames[1].delay), (2, 3, 50_000_000));
    assert_eq!(&frames[1].rgba[..4], &[0, 255, 0, 255]);
    assert_eq!(tick_gif_animation(&mut animation, 49_999_999), None);
    assert_eq!(tick_gif_animation(&mut animation, 50_000_000), Some(1));
    assert_eq!(tick_gif_animation(&mut animation, 60_000_000), Some(2));
    assert_eq!(tick_gif_animation(&mut animation, 60_000_000), Some(0));
}

#[test]
fn what_is_no_animation_is_an_error() {
    assert!(decode_gif(b"text").is_err());
    assert!(is_gif_file(&path("/a.GIF")));
    assert!(!is_gif_file(&path("/a.png")));
    assert!(!is_gif_file(&path("/gif")));
}

#[test]
fn paths_for_the_file_manager() {
    let state = library(&["a.mp4", "b.png"]);
    assert_eq!(state.reveal_path(1).unwrap().to_text(), "/m/b.png");
    assert!(state.reveal_path(2).is_none());
}

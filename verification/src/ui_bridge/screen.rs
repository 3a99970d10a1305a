//! What the window shows and what the player does once everything was done that they were told,
//! and how that follows from what the user did.

use super::effect::Effect;
use super::state::{AbLoopState, AppView, Mode};
use vstd::prelude::*;

verus! {

/// Which view the window is in.
pub struct Page {
    pub mode: Mode,
    /// Whether one item is on show (true) or the grid (false).
    pub gallery_open: bool,
    pub current_is_video: bool,
}

/// Which modes are said to have items.
pub struct Has {
    pub videos: bool,
    pub images: bool,
    pub media: bool,
}

/// For each mode, the place of the item on show in the order of play, and how many there are.
pub struct Places {
    pub video: Option<(usize, usize)>,
    pub image: Option<(usize, usize)>,
    pub media: Option<(usize, usize)>,
}

/// What the player does.
pub struct Player {
    /// The item in the player.
    pub loaded: Option<(Mode, usize)>,
    pub runs: bool,
    /// Whether something is shown to play.
    pub playing: bool,
    /// The points between which it loops.
    pub loop_start: Option<u64>,
    pub loop_end: Option<u64>,
    /// Where it was last told to go.
    pub sought: Option<u64>,
    pub share_sought: Option<u32>,
}

/// What the image viewer shows.
pub struct Viewer {
    pub picture: Option<(Mode, usize)>,
    pub animated: bool,
    pub zoomed: bool,
}

/// Which switches are shown to be on, and whether the slideshow's timer runs.
pub struct Switches {
    pub slideshow: bool,
    pub timer: bool,
    pub shuffle: bool,
    pub looping: bool,
}

/// What is shown of previews, of the list and of loading.
pub struct Notes {
    /// Whether the preview of the progress bar is that of the video on show.
    pub preview: bool,
    pub preview_loading: bool,
    pub list_preview: bool,
    /// The item whose preview was planned last.
    pub planned: Option<usize>,
    /// Whether the list still lacks what has to be read from disk.
    pub rows_deferred: bool,
    pub loading: bool,
    pub gallery_loading: bool,
    /// How many items are said to be added.
    pub adding: Option<usize>,
}

/// What the window shows and what the player does.
pub struct Screen {
    pub page: Page,
    pub has: Has,
    pub places: Places,
    pub player: Player,
    pub viewer: Viewer,
    pub switches: Switches,
    pub notes: Notes,
}

impl Has {
    /// With a mode said to have items, or to have none.
    pub open spec fn with(self, mode: Mode, has: bool) -> Has {
        match mode {
            Mode::Video => Has { videos: has, ..self },
            Mode::Image => Has { images: has, ..self },
            Mode::All => Has { media: has, ..self },
        }
    }
}

impl Places {
    /// With the place of the item on show of a mode.
    pub open spec fn with(self, mode: Mode, place: Option<(usize, usize)>) -> Places {
        match mode {
            Mode::Video => Places { video: place, ..self },
            Mode::Image => Places { image: place, ..self },
            Mode::All => Places { media: place, ..self },
        }
    }

    /// The place of the item on show of a mode.
    pub open spec fn of(self, mode: Mode) -> Option<(usize, usize)> {
        match mode {
            Mode::Video => self.video,
            Mode::Image => self.image,
            Mode::All => self.media,
        }
    }
}

impl Screen {
    /// The screen after one thing was done.
    #[verifier::opaque]
    pub open spec fn after(self, effect: Effect) -> Screen {
        match effect {
            Effect::StopPlayer => Screen {
                player: Player { loaded: None, runs: false, ..self.player },
                ..self
            },
            Effect::PausePlayer => Screen {
                player: Player { runs: false, playing: false, ..self.player },
                ..self
            },
            Effect::LoadVideo { mode, index } => Screen {
                player: Player { loaded: Some((mode, index)), runs: true, ..self.player },
                ..self
            },
            Effect::SetPlaying(playing) => Screen {
                player: Player { playing, ..self.player },
                ..self
            },
            Effect::SetLoopStart(t) => Screen {
                player: Player { loop_start: Some(t), ..self.player },
                ..self
            },
            Effect::SetLoopEnd(t) => Screen {
                player: Player { loop_end: Some(t), ..self.player },
                ..self
            },
            Effect::ClearLoopPoints => Screen {
                player: Player { loop_start: None, loop_end: None, ..self.player },
                ..self
            },
            Effect::SeekExact(t) => Screen {
                player: Player { sought: Some(t), ..self.player },
                ..self
            },
            Effect::SeekToRatio(share) => Screen {
                player: Player { share_sought: Some(share), ..self.player },
                ..self
            },
            Effect::ShowPicture { mode, index } => Screen {
                viewer: Viewer { picture: Some((mode, index)), animated: true, ..self.viewer },
                ..self
            },
            Effect::DropAnimation => Screen {
                viewer: Viewer { animated: false, ..self.viewer },
                ..self
            },
            Effect::ResetPictureView => Screen {
                viewer: Viewer { zoomed: false, ..self.viewer },
                ..self
            },
            Effect::SetGalleryOpen(open) => Screen {
                page: Page { gallery_open: open, ..self.page },
                ..self
            },
            Effect::SetCurrentIsVideo(video) => Screen {
                page: Page { current_is_video: video, ..self.page },
                ..self
            },
            Effect::SetViewMode(mode) => Screen {
                page: Page { mode, ..self.page },
                ..self
            },
            Effect::SetHasItems { mode, has } => Screen {
                has: self.has.with(mode, has),
                ..self
            },
            Effect::ShowPosition { mode, position, total } => Screen {
                places: self.places.with(mode, Some((position, total))),
                ..self
            },
            Effect::ClearPosition(mode) => Screen {
                places: self.places.with(mode, None),
                ..self
            },
            Effect::SetSlideshowOn(on) => Screen {
                switches: Switches { slideshow: on, ..self.switches },
                ..self
            },
            Effect::StartSlideshowTimer => Screen {
                switches: Switches { timer: true, ..self.switches },
                ..self
            },
            Effect::StopSlideshowTimer => Screen {
                switches: Switches { timer: false, ..self.switches },
                ..self
            },
            Effect::SetShuffleOn(on) => Screen {
                switches: Switches { shuffle: on, ..self.switches },
                ..self
            },
            Effect::SetLoopOn(on) => Screen {
                switches: Switches { looping: on, ..self.switches },
                ..self
            },
            Effect::ClearSpritePreview => Screen {
                notes: Notes { preview: false, ..self.notes },
                ..self
            },
            Effect::SyncSpritePreview => Screen {
                notes: Notes { preview: true, ..self.notes },
                ..self
            },
            Effect::ShowSpriteLoading => Screen {
                notes: Notes { preview_loading: true, ..self.notes },
                ..self
            },
            Effect::HideSpriteLoading => Screen {
                notes: Notes { preview_loading: false, ..self.notes },
                ..self
            },
            Effect::HideListPreview => Screen {
                notes: Notes { list_preview: false, ..self.notes },
                ..self
            },
            Effect::ScheduleSprite(index) => Screen {
                notes: Notes { planned: Some(index), ..self.notes },
                ..self
            },
            Effect::FillRows { deferred } => Screen {
                notes: Notes { rows_deferred: deferred, ..self.notes },
                ..self
            },
            Effect::ShowLoading { loading, gallery_loading } => Screen {
                notes: Notes { loading, gallery_loading, adding: None, ..self.notes },
                ..self
            },
            Effect::ShowAdding(count) => Screen {
                notes: Notes { adding: Some(count), ..self.notes },
                ..self
            },
            _ => self,
        }
    }
}

/// The screen after several things were done, one after the other.
pub open spec fn seen(effects: Seq<Effect>, before: Screen) -> Screen
    decreases effects.len(),
{
    if effects.len() == 0 {
        before
    } else {
        seen(effects.drop_last(), before).after(effects.last())
    }
}

/// The screen once everything was done that a state asks for, `before` being what it was before.
#[verifier::opaque]
pub open spec fn screen(s: AppView, before: Screen) -> Screen {
    seen(s.effects, before)
}

proof fn lemma_told(s: AppView, effect: Effect, before: Screen)
    ensures
        screen(s.with(effect), before) == screen(s, before).after(effect),
{
    reveal(screen);
    assert(s.with(effect).effects.drop_last() =~= s.effects);
}

pub broadcast proof fn told_stop_player(s: AppView, before: Screen)
    ensures
        #[trigger] screen(s.with(Effect::StopPlayer), before) == (Screen {
            player: Player { loaded: None, runs: false, ..screen(s, before).player },
            ..screen(s, before)
        }),
{
    reveal(Screen::after);
    lemma_told(s, Effect::StopPlayer, before);
}

pub broadcast proof fn told_pause_player(s: AppView, before: Screen)
    ensures
        #[trigger] screen(s.with(Effect::PausePlayer), before) == (Screen {
            player: Player { runs: false, playing: false, ..screen(s, before).player },
            ..screen(s, before)
        }),
{
    reveal(Screen::after);
    lemma_told(s, Effect::PausePlayer, before);
}

pub broadcast proof fn told_load_video(s: AppView, before: Screen, mode: Mode, index: usize)
    ensures
        #[trigger] screen(s.with(Effect::LoadVideo { mode, index }), before) == (Screen {
            player: Player { loaded: Some((mode, index)), runs: true, ..screen(s, before).player },
            ..screen(s, before)
        }),
{
    reveal(Screen::after);
    lemma_told(s, Effect::LoadVideo { mode, index }, before);
}

pub broadcast proof fn told_set_playing(s: AppView, before: Screen, playing: bool)
    ensures
        #[trigger] screen(s.with(Effect::SetPlaying(playing)), before) == (Screen {
            player: Player { playing, ..screen(s, before).player },
            ..screen(s, before)
        }),
{
    reveal(Screen::after);
    lemma_told(s, Effect::SetPlaying(playing), before);
}

pub broadcast proof fn told_set_loop_start(s: AppView, before: Screen, t: u64)
    ensures
        #[trigger] screen(s.with(Effect::SetLoopStart(t)), before) == (Screen {
            player: Player { loop_start: Some(t), ..screen(s, before).player },
            ..screen(s, before)
        }),
{
    reveal(Screen::after);
    lemma_told(s, Effect::SetLoopStart(t), before);
}

pub broadcast proof fn told_set_loop_end(s: AppView, before: Screen, t: u64)
    ensures
        #[trigger] screen(s.with(Effect::SetLoopEnd(t)), before) == (Screen {
            player: Player { loop_end: Some(t), ..screen(s, before).player },
            ..screen(s, before)
        }),
{
    reveal(Screen::after);
    lemma_told(s, Effect::SetLoopEnd(t), before);
}

pub broadcast proof fn told_clear_loop_points(s: AppView, before: Screen)
    ensures
        #[trigger] screen(s.with(Effect::ClearLoopPoints), before) == (Screen {
            player: Player { loop_start: None, loop_end: None, ..screen(s, before).player },
            ..screen(s, before)
        }),
{
    reveal(Screen::after);
    lemma_told(s, Effect::ClearLoopPoints, before);
}

pub broadcast proof fn told_seek_exact(s: AppView, before: Screen, t: u64)
    ensures
        #[trigger] screen(s.with(Effect::SeekExact(t)), before) == (Screen {
            player: Player { sought: Some(t), ..screen(s, before).player },
            ..screen(s, before)
        }),
{
    reveal(Screen::after);
    lemma_told(s, Effect::SeekExact(t), before);
}

pub broadcast proof fn told_seek_to_ratio(s: AppView, before: Screen, share: u32)
    ensures
        #[trigger] screen(s.with(Effect::SeekToRatio(share)), before) == (Screen {
            player: Player { share_sought: Some(share), ..screen(s, before).player },
            ..screen(s, before)
        }),
{
    reveal(Screen::after);
    lemma_told(s, Effect::SeekToRatio(share), before);
}

pub broadcast proof fn told_show_picture(s: AppView, before: Screen, mode: Mode, index: usize)
    ensures
        #[trigger] screen(s.with(Effect::ShowPicture { mode, index }), before) == (Screen {
            viewer: Viewer { picture: Some((mode, index)), animated: true, ..screen(s, before).viewer },
            ..screen(s, before)
        }),
{
    reveal(Screen::after);
    lemma_told(s, Effect::ShowPicture { mode, index }, before);
}

pub broadcast proof fn told_drop_animation(s: AppView, before: Screen)
    ensures
        #[trigger] screen(s.with(Effect::DropAnimation), before) == (Screen {
            viewer: Viewer { animated: false, ..screen(s, before).viewer },
            ..screen(s, before)
        }),
{
    reveal(Screen::after);
    lemma_told(s, Effect::DropAnimation, before);
}

pub broadcast proof fn told_reset_picture_view(s: AppView, before: Screen)
    ensures
        #[trigger] screen(s.with(Effect::ResetPictureView), before) == (Screen {
            viewer: Viewer { zoomed: false, ..screen(s, before).viewer },
            ..screen(s, before)
        }),
{
    reveal(Screen::after);
    lemma_told(s, Effect::ResetPictureView, before);
}

pub broadcast proof fn told_set_gallery_open(s: AppView, before: Screen, open: bool)
    ensures
        #[trigger] screen(s.with(Effect::SetGalleryOpen(open)), before) == (Screen {
            page: Page { gallery_open: open, ..screen(s, before).page },
            ..screen(s, before)
        }),
{
    reveal(Screen::after);
    lemma_told(s, Effect::SetGalleryOpen(open), before);
}

pub broadcast proof fn told_set_current_is_video(s: AppView, before: Screen, video: bool)
    ensures
        #[trigger] screen(s.with(Effect::SetCurrentIsVideo(video)), before) == (Screen {
            page: Page { current_is_video: video, ..screen(s, before).page },
            ..screen(s, before)
        }),
{
    reveal(Screen::after);
    lemma_told(s, Effect::SetCurrentIsVideo(video), before);
}

pub broadcast proof fn told_set_view_mode(s: AppView, before: Screen, mode: Mode)
    ensures
        #[trigger] screen(s.with(Effect::SetViewMode(mode)), before) == (Screen {
            page: Page { mode, ..screen(s, before).page },
            ..screen(s, before)
        }),
{
    reveal(Screen::after);
    lemma_told(s, Effect::SetViewMode(mode), before);
}

pub broadcast proof fn told_set_has_items(s: AppView, before: Screen, mode: Mode, has: bool)
    ensures
        #[trigger] screen(s.with(Effect::SetHasItems { mode, has }), before) == (Screen {
            has: screen(s, before).has.with(mode, has),
            ..screen(s, before)
        }),
{
    reveal(Screen::after);
    lemma_told(s, Effect::SetHasItems { mode, has }, before);
}

pub broadcast proof fn told_show_position(s: AppView, before: Screen, mode: Mode, position: usize, total: usize)
    ensures
        #[trigger] screen(s.with(Effect::ShowPosition { mode, position, total }), before) == (Screen {
            places: screen(s, before).places.with(mode, Some((position, total))),
            ..screen(s, before)
        }),
{
    reveal(Screen::after);
    lemma_told(s, Effect::ShowPosition { mode, position, total }, before);
}

pub broadcast proof fn told_clear_position(s: AppView, before: Screen, mode: Mode)
    ensures
        #[trigger] screen(s.with(Effect::ClearPosition(mode)), before) == (Screen {
            places: screen(s, before).places.with(mode, None),
            ..screen(s, before)
        }),
{
    reveal(Screen::after);
    lemma_told(s, Effect::ClearPosition(mode), before);
}

pub broadcast proof fn told_set_slideshow_on(s: AppView, before: Screen, on: bool)
    ensures
        #[trigger] screen(s.with(Effect::SetSlideshowOn(on)), before) == (Screen {
            switches: Switches { slideshow: on, ..screen(s, before).switches },
            ..screen(s, before)
        }),
{
    reveal(Screen::after);
    lemma_told(s, Effect::SetSlideshowOn(on), before);
}

pub broadcast proof fn told_start_slideshow_timer(s: AppView, before: Screen)
    ensures
        #[trigger] screen(s.with(Effect::StartSlideshowTimer), before) == (Screen {
            switches: Switches { timer: true, ..screen(s, before).switches },
            ..screen(s, before)
        }),
{
    reveal(Screen::after);
    lemma_told(s, Effect::StartSlideshowTimer, before);
}

pub broadcast proof fn told_stop_slideshow_timer(s: AppView, before: Screen)
    ensures
        #[trigger] screen(s.with(Effect::StopSlideshowTimer), before) == (Screen {
            switches: Switches { timer: false, ..screen(s, before).switches },
            ..screen(s, before)
        }),
{
    reveal(Screen::after);
    lemma_told(s, Effect::StopSlideshowTimer, before);
}

pub broadcast proof fn told_set_shuffle_on(s: AppView, before: Screen, on: bool)
    ensures
        #[trigger] screen(s.with(Effect::SetShuffleOn(on)), before) == (Screen {
            switches: Switches { shuffle: on, ..screen(s, before).switches },
            ..screen(s, before)
        }),
{
    reveal(Screen::after);
    lemma_told(s, Effect::SetShuffleOn(on), before);
}

pub broadcast proof fn told_set_loop_on(s: AppView, before: Screen, on: bool)
    ensures
        #[trigger] screen(s.with(Effect::SetLoopOn(on)), before) == (Screen {
            switches: Switches { looping: on, ..screen(s, before).switches },
            ..screen(s, before)
        }),
{
    reveal(Screen::after);
    lemma_told(s, Effect::SetLoopOn(on), before);
}

pub broadcast proof fn told_clear_sprite_preview(s: AppView, before: Screen)
    ensures
        #[trigger] screen(s.with(Effect::ClearSpritePreview), before) == (Screen {
            notes: Notes { preview: false, ..screen(s, before).notes },
            ..screen(s, before)
        }),
{
    reveal(Screen::after);
    lemma_told(s, Effect::ClearSpritePreview, before);
}

pub broadcast proof fn told_sync_sprite_preview(s: AppView, before: Screen)
    ensures
        #[trigger] screen(s.with(Effect::SyncSpritePreview), before) == (Screen {
            notes: Notes { preview: true, ..screen(s, before).notes },
            ..screen(s, before)
        }),
{
    reveal(Screen::after);
    lemma_told(s, Effect::SyncSpritePreview, before);
}

pub broadcast proof fn told_show_sprite_loading(s: AppView, before: Screen)
    ensures
        #[trigger] screen(s.with(Effect::ShowSpriteLoading), before) == (Screen {
            notes: Notes { preview_loading: true, ..screen(s, before).notes },
            ..screen(s, before)
        }),
{
    reveal(Screen::after);
    lemma_told(s, Effect::ShowSpriteLoading, before);
}

pub broadcast proof fn told_hide_sprite_loading(s: AppView, before: Screen)
    ensures
        #[trigger] screen(s.with(Effect::HideSpriteLoading), before) == (Screen {
            notes: Notes { preview_loading: false, ..screen(s, before).notes },
            ..screen(s, before)
        }),
{
    reveal(Screen::after);
    lemma_told(s, Effect::HideSpriteLoading, before);
}

pub broadcast proof fn told_hide_list_preview(s: AppView, before: Screen)
    ensures
        #[trigger] screen(s.with(Effect::HideListPreview), before) == (Screen {
            notes: Notes { list_preview: false, ..screen(s, before).notes },
            ..screen(s, before)
        }),
{
    reveal(Screen::after);
    lemma_told(s, Effect::HideListPreview, before);
}

pub broadcast proof fn told_schedule_sprite(s: AppView, before: Screen, index: usize)
    ensures
        #[trigger] screen(s.with(Effect::ScheduleSprite(index)), before) == (Screen {
            notes: Notes { planned: Some(index), ..screen(s, before).notes },
            ..screen(s, before)
        }),
{
    reveal(Screen::after);
    lemma_told(s, Effect::ScheduleSprite(index), before);
}

pub broadcast proof fn told_fill_rows(s: AppView, before: Screen, deferred: bool)
    ensures
        #[trigger] screen(s.with(Effect::FillRows { deferred }), before) == (Screen {
            notes: Notes { rows_deferred: deferred, ..screen(s, before).notes },
            ..screen(s, before)
        }),
{
    reveal(Screen::after);
    lemma_told(s, Effect::FillRows { deferred }, before);
}

pub broadcast proof fn told_show_loading(s: AppView, before: Screen, loading: bool, gallery_loading: bool)
    ensures
        #[trigger] screen(s.with(Effect::ShowLoading { loading, gallery_loading }), before) == (Screen {
            notes: Notes { loading, gallery_loading, adding: None, ..screen(s, before).notes },
            ..screen(s, before)
        }),
{
    reveal(Screen::after);
    lemma_told(s, Effect::ShowLoading { loading, gallery_loading }, before);
}

pub broadcast proof fn told_show_adding(s: AppView, before: Screen, count: usize)
    ensures
        #[trigger] screen(s.with(Effect::ShowAdding(count)), before) == (Screen {
            notes: Notes { adding: Some(count), ..screen(s, before).notes },
            ..screen(s, before)
        }),
{
    reveal(Screen::after);
    lemma_told(s, Effect::ShowAdding(count), before);
}

pub broadcast proof fn told_show_ab_loop(s: AppView, before: Screen)
    ensures
        #[trigger] screen(s.with(Effect::ShowAbLoop), before) == screen(s, before),
{
    reveal(Screen::after);
    lemma_told(s, Effect::ShowAbLoop, before);
}

pub broadcast proof fn told_fill_row_range(s: AppView, before: Screen, from: usize, to: usize, deferred: bool)
    ensures
        #[trigger] screen(s.with(Effect::FillRowRange { from, to, deferred }), before) == screen(s, before),
{
    reveal(Screen::after);
    lemma_told(s, Effect::FillRowRange { from, to, deferred }, before);
}

pub broadcast proof fn told_reset_grid(s: AppView, before: Screen)
    ensures
        #[trigger] screen(s.with(Effect::ResetGrid), before) == screen(s, before),
{
    reveal(Screen::after);
    lemma_told(s, Effect::ResetGrid, before);
}

pub broadcast proof fn told_extend_grid(s: AppView, before: Screen, from: usize)
    ensures
        #[trigger] screen(s.with(Effect::ExtendGrid { from }), before) == screen(s, before),
{
    reveal(Screen::after);
    lemma_told(s, Effect::ExtendGrid { from }, before);
}

pub broadcast proof fn told_mark_thumb_failed(s: AppView, before: Screen, row: usize)
    ensures
        #[trigger] screen(s.with(Effect::MarkThumbFailed { row }), before) == screen(s, before),
{
    reveal(Screen::after);
    lemma_told(s, Effect::MarkThumbFailed { row }, before);
}

pub broadcast proof fn told_clear_thumb_failures(s: AppView, before: Screen)
    ensures
        #[trigger] screen(s.with(Effect::ClearThumbFailures), before) == screen(s, before),
{
    reveal(Screen::after);
    lemma_told(s, Effect::ClearThumbFailures, before);
}

pub broadcast proof fn told_start_thumbs(s: AppView, before: Screen, generation: u64)
    ensures
        #[trigger] screen(s.with(Effect::StartThumbs { generation }), before) == screen(s, before),
{
    reveal(Screen::after);
    lemma_told(s, Effect::StartThumbs { generation }, before);
}

pub broadcast proof fn told_show_thumb(s: AppView, before: Screen, row: usize)
    ensures
        #[trigger] screen(s.with(Effect::ShowThumb { row }), before) == screen(s, before),
{
    reveal(Screen::after);
    lemma_told(s, Effect::ShowThumb { row }, before);
}

/// What each thing that is asked for does to the screen.
pub broadcast group group_told {
    told_stop_player,
    told_pause_player,
    told_load_video,
    told_set_playing,
    told_set_loop_start,
    told_set_loop_end,
    told_clear_loop_points,
    told_seek_exact,
    told_seek_to_ratio,
    told_show_picture,
    told_drop_animation,
    told_reset_picture_view,
    told_set_gallery_open,
    told_set_current_is_video,
    told_set_view_mode,
    told_set_has_items,
    told_show_position,
    told_clear_position,
    told_set_slideshow_on,
    told_start_slideshow_timer,
    told_stop_slideshow_timer,
    told_set_shuffle_on,
    told_set_loop_on,
    told_clear_sprite_preview,
    told_sync_sprite_preview,
    told_show_sprite_loading,
    told_hide_sprite_loading,
    told_hide_list_preview,
    told_schedule_sprite,
    told_fill_rows,
    told_show_loading,
    told_show_adding,
    told_show_ab_loop,
    told_fill_row_range,
    told_reset_grid,
    told_extend_grid,
    told_mark_thumb_failed,
    told_clear_thumb_failures,
    told_start_thumbs,
    told_show_thumb,
}

/// What is on the screen depends on what was asked for alone.
pub proof fn lemma_same_effects(a: AppView, b: AppView, before: Screen)
    requires
        a.effects == b.effects,
    ensures
        screen(a, before) == screen(b, before),
{
    reveal(screen);
}

/// Handing out what is to be done and asking for more is the same as asking for all of it at once.
pub proof fn effects_may_be_taken_at_any_time(s: AppView, rest: AppView, before: Screen)
    ensures
        screen(AppView { effects: s.effects + rest.effects, ..rest }, before) == screen(
            rest,
            screen(s, before),
        ),
    decreases rest.effects.len(),
{
    reveal(screen);
    let all = s.effects + rest.effects;
    if rest.effects.len() == 0 {
        assert(all =~= s.effects);
    } else {
        let less = AppView { effects: rest.effects.drop_last(), ..rest };
        effects_may_be_taken_at_any_time(s, less, before);
        assert(all.drop_last() =~= s.effects + less.effects);
    }
}

/// The first point of a segment, where one was picked.
pub open spec fn first_point(ab: AbLoopState) -> Option<u64> {
    match ab {
        AbLoopState::Off => None,
        AbLoopState::PickingA => None,
        AbLoopState::PickingB { a } => Some(a),
        AbLoopState::Active { a, b } => Some(a),
    }
}

/// The second point of a segment, where one was picked.
pub open spec fn second_point(ab: AbLoopState) -> Option<u64> {
    match ab {
        AbLoopState::Active { a, b } => Some(b),
        _ => None,
    }
}

/// Whether the player was told of just the points that are picked.
pub open spec fn points_agree(s: AppView, w: Screen) -> bool {
    w.player.loop_start == first_point(s.ab_loop) && w.player.loop_end == second_point(
        s.ab_loop,
    )
}

/// Whatever is pressed, clicked or dragged, the player loops between just the points that are
/// picked: what it was told last of either of them is what was picked, or that there is none.
pub proof fn player_knows_the_picked_points(
    s: AppView,
    before: Screen,
    t: u64,
    seeking: bool,
    loaded: bool,
)
    requires
        points_agree(s, screen(s, before)),
    ensures
        points_agree(s.ab_loop_toggled(), screen(s.ab_loop_toggled(), before)),
        points_agree(s.progress_clicked(t), screen(s.progress_clicked(t), before)),
        points_agree(
            s.scrub_applied(seeking, loaded),
            screen(s.scrub_applied(seeking, loaded), before),
        ),
{
    broadcast use group_told;

    lemma_button(s, before);
    lemma_click(s, before, t);
    if let Some(ratio) = s.pending_scrub {
        let dropped = AppView { pending_scrub: None, ..s };
        lemma_same_effects(dropped, s, before);
    }
}

/// Picking points changes nothing but the points.
pub proof fn picking_changes_nothing_else(s: AppView, t: u64)
    ensures
        s.ab_loop_toggled() == (AppView {
            ab_loop: s.ab_loop_toggled().ab_loop,
            effects: s.ab_loop_toggled().effects,
            ..s
        }),
        s.progress_clicked(t) == (AppView {
            ab_loop: s.progress_clicked(t).ab_loop,
            effects: s.progress_clicked(t).effects,
            ..s
        }),
{
}

proof fn lemma_button(s: AppView, before: Screen)
    ensures
        screen(s.ab_loop_toggled(), before) == if s.ab_loop is Off {
            screen(s, before)
        } else {
            Screen {
                player: Player { loop_start: None, loop_end: None, ..screen(s, before).player },
                ..screen(s, before)
            }
        },
        s.ab_loop_toggled() == (AppView {
            ab_loop: if s.ab_loop is Off {
                AbLoopState::PickingA
            } else {
                AbLoopState::Off
            },
            effects: s.ab_loop_toggled().effects,
            ..s
        }),
{
    broadcast use group_told;

    let picking = AppView { ab_loop: AbLoopState::PickingA, ..s };
    let off = AppView { ab_loop: AbLoopState::Off, ..s };
    lemma_same_effects(picking, s, before);
    lemma_same_effects(off, s, before);
}

#[verifier::rlimit(40)]
proof fn lemma_click(s: AppView, before: Screen, t: u64)
    ensures
        screen(s.progress_clicked(t), before) == match s.ab_loop {
            AbLoopState::PickingA => Screen {
                player: Player { loop_start: Some(t), ..screen(s, before).player },
                ..screen(s, before)
            },
            AbLoopState::PickingB { a } => if t <= a {
                screen(s, before)
            } else {
                Screen {
                    player: Player {
                        loop_end: Some(t),
                        sought: Some(a),
                        ..screen(s, before).player
                    },
                    ..screen(s, before)
                }
            },
            _ => Screen {
                player: Player { sought: Some(t), ..screen(s, before).player },
                ..screen(s, before)
            },
        },
{
    broadcast use group_told;

    match s.ab_loop {
        AbLoopState::PickingA => {
            let one = AppView { ab_loop: AbLoopState::PickingB { a: t }, ..s };
            lemma_same_effects(one, s, before);
        },
        AbLoopState::PickingB { a } => {
            let one = AppView { ab_loop: AbLoopState::Active { a, b: t }, ..s };
            lemma_same_effects(one, s, before);
        },
        _ => {},
    }
}

/// Pressing the button and clicking twice, later the second time, makes the player loop from the
/// first click to the second and go to the first at once. Pressing the button again makes it
/// forget both points. Nothing else changes by it.
#[verifier::rlimit(40)]
pub proof fn two_clicks_loop_between_them(s: AppView, before: Screen, first: u64, second: u64)
    requires
        s.ab_loop is Off,
        points_agree(s, screen(s, before)),
        first < second,
    ensures
        ({
            let picked = s.ab_loop_toggled().progress_clicked(first).progress_clicked(second);
            &&& screen(picked, before) == (Screen {
                player: Player {
                    loop_start: Some(first),
                    loop_end: Some(second),
                    sought: Some(first),
                    ..screen(s, before).player
                },
                ..screen(s, before)
            })
            &&& screen(picked.ab_loop_toggled(), before) == (Screen {
                player: Player {
                    loop_start: None,
                    loop_end: None,
                    sought: Some(first),
                    ..screen(s, before).player
                },
                ..screen(s, before)
            })
            &&& picked.ab_loop_toggled() == (AppView {
                effects: picked.ab_loop_toggled().effects,
                ..s
            })
        }),
{
    broadcast use group_told;

    let on = s.ab_loop_toggled();
    let one = on.progress_clicked(first);
    let two = one.progress_clicked(second);
    lemma_button(s, before);
    lemma_click(on, before, first);
    lemma_click(one, before, second);
    lemma_button(two, before);
}

/// A click while no point is being picked goes to just that time, and changes nothing else.
pub proof fn click_goes_to_its_time(s: AppView, before: Screen, t: u64)
    requires
        s.ab_loop is Off || s.ab_loop is Active,
    ensures
        screen(s.progress_clicked(t), before) == (Screen {
            player: Player { sought: Some(t), ..screen(s, before).player },
            ..screen(s, before)
        }),
        s.progress_clicked(t) == (AppView { effects: s.progress_clicked(t).effects, ..s }),
{
    broadcast use group_told;

    lemma_click(s, before, t);
}

/// A drag leads to just the share that was asked for last, once the player is free, and to nothing
/// while a point is being picked or nothing is loaded. While the player is busy it goes on
/// waiting.
#[verifier::rlimit(40)]
pub proof fn drag_goes_to_its_share(
    s: AppView,
    before: Screen,
    share: u32,
    seeking: bool,
    loaded: bool,
)
    ensures
        ({
            let asked = AppView { pending_scrub: Some(share), ..s };
            let after = asked.scrub_applied(seeking, loaded);
            &&& seeking ==> after == asked
            &&& !seeking ==> after == (AppView {
                pending_scrub: None,
                effects: after.effects,
                ..s
            })
            &&& !seeking && loaded && (s.ab_loop is Off || s.ab_loop is Active) ==> screen(
                after,
                before,
            ) == (Screen {
                player: Player { share_sought: Some(share), ..screen(s, before).player },
                ..screen(s, before)
            })
            &&& !seeking && (!loaded || s.ab_loop is PickingA || s.ab_loop is PickingB)
                ==> after.effects == s.effects
        }),
        s.pending_scrub is None ==> s.scrub_applied(seeking, loaded) == s,
{
    broadcast use group_told;

    let dropped = AppView { pending_scrub: None, ..s };
    lemma_same_effects(dropped, s, before);
}

/// What is shown of a segment: the points that are picked, and whether one is still being picked.
pub proof fn shown_points_are_the_picked_ones(ab: AbLoopState)
    ensures
        ab.start() == first_point(ab),
        ab.end() == second_point(ab),
        ab.is_picking() <==> ab is PickingA || ab is PickingB,
{
}

/// At the start nothing is to be done, no point is picked, the grid is on show in the mode for all
/// media, every switch is off, and nothing is in the library or loading.
pub proof fn program_starts_empty(before: Screen)
    ensures
        ({
            let s = AppView::initial();
            &&& screen(s, before) == before
            &&& s.ab_loop is Off
            &&& s.mode is All
            &&& !s.gallery_open
            &&& !s.slideshow_on
            &&& !s.shuffle_on
            &&& !s.loop_on
            &&& s.search_query.len() == 0
            &&& s.queue.items.len() == 0
            &&& s.image_queue.items.len() == 0
            &&& s.all_queue.items.len() == 0
            &&& s.rebuild is None
            &&& !s.library_loading
            &&& s.thumbs_pending == 0
            &&& s.gallery_order.len() == 0
            &&& s.pending_scrub is None
        }),
{
    reveal(screen);
}

} // verus!

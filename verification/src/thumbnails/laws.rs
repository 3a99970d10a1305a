//! What hashes are made of, how sheets and posters come about, and where they are kept.

use super::cache::{cache_file, cache_folder, program_folder, Platform, POSTER_SIZE};
use super::frame::{frame_filter_of, ExtractError, ExtractErrorView, RawFrame};
use super::hash::{
    content_hash, fresh_hash, has_tail, hash_of, head_len, hex, sample_of, sha1_digest,
    CachedView, FileStamp, SampleView, CHUNK,
};
use super::picture::{
    can_fill, filled_square, picture_poster_of, picture_size, poster_of, rgb_jpeg, rgba_jpeg,
    without_alpha, Sampling,
};
use super::poster::{load_attempts, stage_after, PosterStage};
use super::sprite::{
    entries_with, entry_at, first_error, frames_before_error, sheet_frames, sheet_rows, sheet_with,
    sheet_shows_frames, sheets_wf, SpriteErrorView, CONCURRENCY, SPRITE_MEMORY_CACHE_MAX,
};
use super::sprite_job::{SpriteJobView, SpriteStage};
use crate::path::joined;
use crate::path_key::path_key;
use crate::text::decimal;
use vstd::prelude::*;
use vstd::utf8::encode_utf8;

verus! {

/// Every byte of the first 65536 and of the last 65536 of a file goes into its hash: two files of
/// one size of which the same was taken agree in all of these.
pub proof fn beginning_and_end_go_into_the_hash(a: Seq<u8>, b: Seq<u8>, k: int)
    requires
        a.len() == b.len(),
        sample_of(a) == sample_of(b),
        0 <= k < a.len(),
        k < 65536 || k >= a.len() - 65536,
    ensures
        a[k] == b[k],
{
    let (sa, sb) = (sample_of(a), sample_of(b));
    if k < 65536 {
        assert(sa.head[k] == a[k]);
        assert(sb.head[k] == b[k]);
    } else {
        let at = k - (a.len() - 65536);
        assert(sa.tail[at] == a[k]);
        assert(sb.tail[at] == b[k]);
    }
}

/// What is taken of a file: its size, its first 65536 bytes or all of them where there are fewer,
/// and its last 65536 bytes where there are more.
pub proof fn sample_is_beginning_and_end(content: Seq<u8>)
    requires
        content.len() <= u64::MAX,
    ensures
        sample_of(content).size == content.len(),
        content.len() <= 65536 ==> sample_of(content).head == content && sample_of(
            content,
        ).tail.len() == 0,
        content.len() > 65536 ==> {
            &&& sample_of(content).head.len() == 65536
            &&& sample_of(content).head.is_prefix_of(content)
            &&& sample_of(content).tail.len() == 65536
            &&& sample_of(content).tail.is_suffix_of(content)
        },
        content.len() < 65536 ==> head_len(content.len()) == content.len(),
        content.len() >= 65536 ==> head_len(content.len()) == 65536,
        has_tail(content.len()) <==> content.len() > 65536,
        CHUNK == 65536,
{
    if content.len() <= 65536 {
        assert(sample_of(content).head =~= content);
    } else {
        assert(sample_of(content).tail =~= content.subrange(
            content.len() - 65536,
            content.len() as int,
        ));
    }
}

/// A hash is the digest, in hexadecimal digits, of the size in decimal digits followed by the
/// beginning and then the end of the file.
pub proof fn hash_is_digest_of_size_beginning_end(sample: SampleView, content: Seq<u8>)
    ensures
        hash_of(sample) == hex(
            sha1_digest(encode_utf8(decimal(sample.size as nat)) + sample.head + sample.tail),
        ),
        content_hash(content) == hash_of(sample_of(content)),
{
}

/// A hash is kept for one path and one state of the file: another path, or a file that has
/// changed in size or time, has none from it.
pub proof fn kept_hash_is_for_one_file(
    cache: Map<Seq<u16>, CachedView>,
    path: Seq<u8>,
    kept: CachedView,
    other: Seq<u8>,
    stamp: FileStamp,
)
    requires
        path_key(path) != path_key(other),
    ensures
        fresh_hash(cache.insert(path_key(path), kept), other, stamp) == fresh_hash(
            cache,
            other,
            stamp,
        ),
        fresh_hash(cache.insert(path_key(path), kept), path, stamp) == if kept.stamp.size
            == stamp.size && kept.stamp.mtime == stamp.mtime {
            Some(kept.hash)
        } else {
            None
        },
        fresh_hash(Map::empty(), path, stamp) is None,
{
}

/// A sheet is for one frame at least and 600 at most, and otherwise for as many as asked for. It
/// has as many rows of ten as it takes.
pub proof fn sheet_size_fits_frames(frames: nat)
    ensures
        sheet_frames(frames) == if frames == 0 {
            1
        } else if frames <= 600 {
            frames
        } else {
            600
        },
        frames > 0 ==> (sheet_rows(frames) - 1) * 10 < frames <= sheet_rows(frames) * 10,
        CONCURRENCY == 8,
        POSTER_SIZE == 128,
        SPRITE_MEMORY_CACHE_MAX == 6,
{
}

/// The frames that came before the first one that failed are taken; without a failure all are.
pub proof fn frames_are_taken_up_to_failure(
    results: Seq<Result<RawFrame, ExtractError>>,
    k: int,
)
    requires
        0 <= k <= results.len(),
        forall|j: int| 0 <= j < k ==> #[trigger] results[j] is Ok,
        k < results.len() ==> results[k] is Err,
    ensures
        frames_before_error(results).len() == k,
        forall|j: int|
            0 <= j < k ==> #[trigger] frames_before_error(results)[j] == (results[j]->Ok_0).rgba@,
        k == results.len() ==> first_error(results) is None,
        k < results.len() ==> first_error(results) == Some((results[k]->Err_0)@),
    decreases k,
{
    if k > 0 {
        let rest = results.drop_first();
        assert(results[0] is Ok);
        assert forall|j: int| 0 <= j < k - 1 implies #[trigger] rest[j] is Ok by {
            assert(results[j + 1] is Ok);
        }
        frames_are_taken_up_to_failure(rest, k - 1);
        assert forall|j: int| 0 <= j < k implies #[trigger] frames_before_error(results)[j] == (
        results[j]->Ok_0).rgba@ by {
            if j > 0 {
                assert(frames_before_error(rest)[j - 1] == (rest[j - 1]->Ok_0).rgba@);
            }
        }
    }
}

/// The file of a sheet is made of its pixels, ten small frames wide, at a quality of 80; what is
/// told of it is how it is laid out.
pub proof fn sheet_file_tells_its_layout(job: SpriteJobView)
    ensures
        job.sheet_file() == rgba_jpeg(
            sheet_with(job.frames, sheet_rows(job.frame_count)),
            1600,
            (sheet_rows(job.frame_count) * 90) as u32,
            80,
        ),
        job.meta().interval_bits == job.interval_bits,
        job.meta().frame_count == job.frame_count as u32,
        job.meta().columns == 10,
        job.meta().rows == sheet_rows(job.frame_count) as u32,
        job.meta().thumb_width == 160,
        job.meta().thumb_height == 90,
{
}

/// Making a preview goes from one thing to the next: what is there is not made again, what is
/// marked or cannot be read is given up for that reason, and otherwise frames are extracted. No
/// step changes more than it says.
pub proof fn preview_is_made_step_by_step(
    job: SpriteJobView,
    frames: nat,
    interval_bits: u64,
    error: ExtractErrorView,
    cause: SpriteErrorView,
)
    ensures
        SpriteJobView::initial().stage == SpriteStage::CheckCached,
        SpriteJobView::initial().frames.len() == 0,
        SpriteJobView::initial().file.len() == 0,
        SpriteJobView::initial().error is None,
        job.after_cached(true) == (SpriteJobView { stage: SpriteStage::Ready, ..job }),
        job.after_cached(false) == (SpriteJobView { stage: SpriteStage::CheckInvalid, ..job }),
        job.after_invalid(false) == (SpriteJobView { stage: SpriteStage::Probe, ..job }),
        job.after_invalid(true) == (SpriteJobView {
            stage: SpriteStage::Failed,
            error: Some(
                SpriteErrorView::Extract(ExtractErrorView::Mpv("unreadable media"@)),
            ),
            ..job
        }),
        job.after_probe(frames, interval_bits) == (SpriteJobView {
            stage: SpriteStage::Extract,
            frame_count: sheet_frames(frames),
            interval_bits,
            ..job
        }),
        job.after_failed_probe(error) == (SpriteJobView {
            stage: SpriteStage::MarkInvalid,
            error: Some(SpriteErrorView::Extract(error)),
            ..job
        }),
        job.failed(cause) == (SpriteJobView {
            stage: SpriteStage::Failed,
            error: Some(cause),
            ..job
        }),
{
}

/// The entry for a content hash is the first one that has it.
pub proof fn entry_is_found_by_hash<T>(entries: Seq<(Seq<char>, T)>, hash: Seq<char>, from: int)
    requires
        0 <= from <= entries.len(),
    ensures
        match entry_at(entries, hash, from) {
            Some(i) => from <= i < entries.len() && entries[i].0 == hash && forall|k: int|
                from <= k < i ==> (#[trigger] entries[k]).0 != hash,
            None => forall|k: int| from <= k < entries.len() ==> (#[trigger] entries[k]).0 != hash,
        },
    decreases entries.len() - from,
{
    if from < entries.len() && entries[from].0 != hash {
        entry_is_found_by_hash(entries, hash, from + 1);
    }
}

/// Six sheets are held in memory at most. A new one comes last. It takes the place of the one for
/// the same content, if there is one; otherwise, of six, the one whose use is longest ago goes.
/// The others keep their order.
pub proof fn oldest_sheet_makes_room<T>(entries: Seq<(Seq<char>, T)>, hash: Seq<char>, sheet: T)
    requires
        sheets_wf(entries),
    ensures
        forall|i: int|
            0 <= i < entries.len() && (#[trigger] entries[i]).0 == hash ==> entries_with(
                entries,
                hash,
                sheet,
            ) == entries.remove(i).push((hash, sheet)),
        (forall|i: int| 0 <= i < entries.len() ==> (#[trigger] entries[i]).0 != hash) ==> {
            &&& entries.len() < 6 ==> entries_with(entries, hash, sheet) == entries.push(
                (hash, sheet),
            )
            &&& entries.len() == 6 ==> entries_with(entries, hash, sheet) == entries.remove(0).push(
                (hash, sheet),
            )
        },
        entries_with(entries, hash, sheet).len() <= 6,
{
    entry_is_found_by_hash(entries, hash, 0);
    assert(entries.len() > 0 ==> entries.remove(0) =~= entries.drop_first());
    if let Some(at) = entry_at(entries, hash, 0) {
        assert forall|i: int|
            0 <= i < entries.len() && (#[trigger] entries[i]).0 == hash implies i == at by {
            if i < at {
                assert(entries[i].0 != entries[at].0);
            } else if at < i {
                assert(entries[at].0 != entries[i].0);
            }
        }
    }
}

/// Making a poster goes from one thing to the next. What is there is taken. For a video it is seen
/// first whether it is marked and whether the player can read it, and one that it cannot read is
/// marked; an image is read from its file. Then the poster is written and waited for. Whatever
/// does not work ends it without a poster.
pub proof fn poster_is_made_step_by_step(is_video: bool, yes: bool)
    ensures
        stage_after(is_video, PosterStage::CheckCached, true) is Ready,
        stage_after(true, PosterStage::CheckCached, false) is CheckInvalid,
        stage_after(false, PosterStage::CheckCached, false) is ReadFile,
        stage_after(is_video, PosterStage::CheckInvalid, true) is Failed,
        stage_after(is_video, PosterStage::CheckInvalid, false) is Probe,
        stage_after(is_video, PosterStage::Probe, true) is Extract,
        stage_after(is_video, PosterStage::Probe, false) is MarkInvalid,
        stage_after(is_video, PosterStage::MarkInvalid, yes) is Failed,
        stage_after(is_video, PosterStage::Extract, true) is Write,
        stage_after(is_video, PosterStage::Extract, false) is Failed,
        stage_after(is_video, PosterStage::ReadFile, true) is Write,
        stage_after(is_video, PosterStage::ReadFile, false) is Failed,
        stage_after(is_video, PosterStage::Write, true) is WaitVisible,
        stage_after(is_video, PosterStage::Write, false) is Failed,
        stage_after(is_video, PosterStage::WaitVisible, true) is Ready,
        stage_after(is_video, PosterStage::WaitVisible, false) is Failed,
        stage_after(is_video, PosterStage::Ready, yes) is Ready,
        stage_after(is_video, PosterStage::Failed, yes) is Failed,
{
}

/// The stages of a poster after a number of things were found.
pub open spec fn stage_reached(is_video: bool, stage: PosterStage, found: Seq<bool>) -> PosterStage
    decreases found.len(),
{
    if found.len() == 0 {
        stage
    } else {
        stage_after(
            is_video,
            stage_reached(is_video, stage, found.drop_last()),
            found.last(),
        )
    }
}

/// A poster that is not there yet comes about exactly if everything works on the way to it: for a
/// video that is not marked, reading it, extracting a frame, writing the poster and seeing it; for
/// an image, reading the file, writing the poster and seeing it.
pub proof fn poster_needs_every_step(
    marked: bool,
    readable: bool,
    extracted: bool,
    written: bool,
    seen: bool,
)
    ensures
        stage_reached(
            true,
            PosterStage::CheckCached,
            seq![false, marked, readable, extracted, written, seen],
        ) is Ready <==> !marked && readable && extracted && written && seen,
        stage_reached(true, PosterStage::CheckCached, seq![false, marked, readable, extracted, written, seen])
            is Ready || stage_reached(
            true,
            PosterStage::CheckCached,
            seq![false, marked, readable, extracted, written, seen],
        ) is Failed,
        stage_reached(false, PosterStage::CheckCached, seq![false, readable, written, seen]) is Ready
            <==> readable && written && seen,
{
    reveal_with_fuel(stage_reached, 7);
    let v = seq![false, marked, readable, extracted, written, seen];
    assert(v.drop_last() =~= seq![false, marked, readable, extracted, written]);
    assert(v.drop_last().drop_last() =~= seq![false, marked, readable, extracted]);
    assert(v.drop_last().drop_last().drop_last() =~= seq![false, marked, readable]);
    assert(v.drop_last().drop_last().drop_last().drop_last() =~= seq![false, marked]);
    assert(v.drop_last().drop_last().drop_last().drop_last().drop_last() =~= seq![false]);
    assert(seq![false].drop_last() =~= Seq::<bool>::empty());
    let i = seq![false, readable, written, seen];
    assert(i.drop_last() =~= seq![false, readable, written]);
    assert(i.drop_last().drop_last() =~= seq![false, readable]);
    assert(i.drop_last().drop_last().drop_last() =~= seq![false]);
}

/// A poster is tried to load as often as asked for, but once at least and four times at most.
pub proof fn loading_is_tried_one_to_four_times(asked: int)
    ensures
        1 <= load_attempts(asked) <= 4,
        1 <= asked <= 4 ==> load_attempts(asked) == asked,
        asked < 1 ==> load_attempts(asked) == 1,
        asked > 4 ==> load_attempts(asked) == 4,
{
}

/// Taking the last of the four bytes away from each pixel leaves the other three, pixel by pixel.
pub proof fn pixels_keep_three_bytes(rgba: Seq<u8>, pixel: int, c: int)
    requires
        0 <= pixel < rgba.len() / 4,
        0 <= c < 3,
    ensures
        without_alpha(rgba).len() == (rgba.len() / 4) * 3,
        without_alpha(rgba)[pixel * 3 + c] == rgba[pixel * 4 + c],
{
    let k = pixel * 3 + c;
    assert(k / 3 == pixel && k % 3 == c);
}

/// A poster is a picture of 128 pixels on either side, at a quality of 82. There is one exactly of
/// pixels for each of its places, and of pictures that can be scaled to it.
pub proof fn poster_is_a_square_of_128(rgb: Seq<u8>, picture: image::DynamicImage)
    ensures
        rgb.len() != 49152 ==> poster_of(rgb) is None,
        rgb.len() == 49152 ==> match rgb_jpeg(rgb, 128, 128, 82) {
            Ok(file) => poster_of(rgb) == Some(file),
            Err(_) => poster_of(rgb) is None,
        },
        picture_poster_of(None) is None,
        !can_fill(picture_size(picture), 128) ==> picture_poster_of(Some(picture)) is None,
        can_fill(picture_size(picture), 128) ==> picture_poster_of(Some(picture)) == poster_of(
            filled_square(picture, 128, Sampling::Triangle),
        ),
{
}

/// A picture without pixels fills no square; one that has as many rows as columns, at most 4096,
/// fills any square that is not larger than it.
pub proof fn ordinary_pictures_fill_squares(width: u32, height: u32, side: u32)
    ensures
        width == 0 || height == 0 ==> !can_fill((width, height), side),
        can_fill((width, height), side) == can_fill((height, width), side),
        1 <= side <= width <= 4096 && width == height ==> can_fill((width, height), side),
{
    if 1 <= side <= width <= 4096 && width == height {
        assert(width * side <= 2097152 * width) by (nonlinear_arith)
            requires
                side <= 4096,
                width >= 1,
        ;
        assert((width * side) / (width as int) == side) by (nonlinear_arith)
            requires
                width >= 1,
                side >= 0,
        ;
        assert(16 * (width * (side + 1)) <= 16 * (4096 * 4097)) by (nonlinear_arith)
            requires
                0 <= width <= 4096,
                0 <= side <= 4096,
        ;
    }
}

/// What is kept lies in the folder of its kind below the program's own folder, whose name has a
/// capital outside Linux, in a file that is called after the hash of the content.
pub proof fn kept_files_are_called_after_the_hash(
    base: Seq<u8>,
    platform: Platform,
    folder: Seq<char>,
    hash: Seq<char>,
    ending: Seq<char>,
)
    ensures
        platform is Linux ==> cache_folder(base, platform, folder) == joined(
            joined(base, encode_utf8("flick"@)),
            encode_utf8(folder),
        ),
        platform !is Linux ==> cache_folder(base, platform, folder) == joined(
            joined(base, encode_utf8("Flick"@)),
            encode_utf8(folder),
        ),
        cache_file(base, platform, folder, hash, ending) == joined(
            cache_folder(base, platform, folder),
            encode_utf8(hash + ending),
        ),
        platform is Linux ==> program_folder(platform) == "flick"@,
        platform !is Linux ==> program_folder(platform) == "Flick"@,
{
}

/// Each error says what went wrong in words of its own.
pub proof fn errors_say_what_went_wrong(message: Seq<char>, expected: usize, got: usize)
    ensures
        ExtractErrorView::Mpv(message).text() == "mpv error: "@ + message,
        ExtractErrorView::Timeout.text() == "timed out waiting for frame extraction"@,
        ExtractErrorView::Io(message).text() == "io error: "@ + message,
        (ExtractErrorView::UnexpectedSize { expected, got }).text()
            == "raw frame size mismatch: expected "@ + decimal(expected as nat) + " bytes, got "@
            + decimal(got as nat),
{
}

/// A frame is scaled into a size, keeping its proportions, and padded to the same size.
pub proof fn frames_are_scaled_and_padded_to_one_size(width: nat, height: nat)
    ensures
        frame_filter_of(width, height) == "scale="@ + (decimal(width) + ":"@ + decimal(height))
            + ":force_original_aspect_ratio=decrease,pad="@ + (decimal(width) + ":"@ + decimal(
            height,
        )) + ":(ow-iw)/2:(oh-ih)/2:color=black,format=rgba"@,
{
}

/// Where the frames stand on a sheet: ten in a row, each 160 pixels wide and 90 high, with four
/// bytes for each pixel. Places without a frame are black and let everything shine through.
pub proof fn frames_stand_in_rows_of_ten(
    frames: Seq<Seq<u8>>,
    rows: nat,
    i: int,
    x: int,
    y: int,
    c: int,
)
    requires
        frames.len() <= rows * 10,
        0 <= i < rows * 10,
        0 <= x < 160,
        0 <= y < 90,
        0 <= c < 4,
    ensures
        sheet_with(frames, rows).len() == rows * 90 * 1600 * 4,
        sheet_with(frames, rows)[(((i / 10) * 90 + y) * 1600 + ((i % 10) * 160 + x)) * 4 + c]
            == if i < frames.len() {
            frames[i][(y * 160 + x) * 4 + c]
        } else {
            0
        },
{
    sheet_shows_frames(frames, rows, i, x, y, c);
    lemma_sheet_has_rows(frames, rows);
}

proof fn lemma_sheet_has_rows(frames: Seq<Seq<u8>>, rows: nat)
    ensures
        sheet_with(frames, rows).len() == rows * 90 * 1600 * 4,
    decreases frames.len(),
{
    if frames.len() > 0 {
        lemma_sheet_has_rows(frames.drop_last(), rows);
    }
}

} // verus!

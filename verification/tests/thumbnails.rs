//! Posters, previews and the hashes they are kept under.

use flick::path::MediaPath;
use flick::thumbnails::cache::{
    invalid_marker_file, is_cached, is_poster_cached, meta_file, poster_file, poster_is_ready,
    posters_dir, sprite_file, sprites_dir, temp_file, Platform,
};
use flick::thumbnails::frame::{
    frame_file_name, frame_filter, frame_from_bytes, probe_step, ExtractError, FrameWait,
    PlayerEvent, RawFrame, WaitStep,
};
use flick::thumbnails::hash::sample_plan;
use flick::thumbnails::picture::{drop_alpha, encode_poster, image_poster, picture_poster};
use flick::thumbnails::poster::{
    ensure_poster_visible, frame_poster, generation_step, load_step, PollStep, PosterJob,
    PosterStage,
};
use flick::thumbnails::sprite::{SpriteError, SpriteMemoryCache, SpriteSheet};
use flick::thumbnails::sprite_job::{SpriteJob, SpriteStage};
use flick::thumbnails::{hash_video_file, ContentHashCache, FileSample, FileStamp};
use image::ImageEncoder;
use sha1::Digest;

const CHUNK: usize = 64 * 1024;

fn path(text: &str) -> MediaPath {
    MediaPath::from_text(text)
}

fn hash_bytes(content: &[u8]) -> String {
    hash_video_file(&FileSample::of_content(content))
}

fn stamp(size: u64) -> FileStamp {
    FileStamp { size, mtime: Some(17) }
}

#[test]
fn hash_is_stable_for_same_content() {
    let content = vec![7u8; 1000];
    let a = hash_bytes(&content);
    let b = hash_bytes(&content);
    assert_eq!(a, b);
}

#[test]
fn hash_differs_for_different_content() {
    assert_ne!(hash_bytes(&vec![1u8; 1000]), hash_bytes(&vec![2u8; 1000]));
}

#[test]
fn handles_files_larger_than_two_chunks() {
    let hash = hash_bytes(&vec![3u8; CHUNK * 3]);
    assert_eq!(hash.len(), 40); // SHA-1 hex digest length
}

#[test]
fn prime_content_hash_overwrites_stale_entry() {
    let mut cache = ContentHashCache::new();
    let file = path("/tmp/flick-hash-test-prime-overwrite.bin");
    cache.prime_content_hash(&file, Some(stamp(1000)), "aaaa".to_string());
    cache.prime_content_hash(&file, Some(stamp(1000)), "bbbb".to_string());
    assert_eq!(cache.fresh_hash(&file, stamp(1000)), Some("bbbb".to_string()));
}

#[test]
fn hash_video_file_cached_detects_content_change() {
    let mut cache = ContentHashCache::new();
    let file = path("/tmp/flick-hash-test-cached-change.bin");
    let before = FileSample::of_content(&vec![1u8; 1000]);
    let first = cache.hash_video_file_cached(&file, stamp(1000), &before);
    let after = FileSample::of_content(&vec![2u8; 2000]);
    let second = cache.hash_video_file_cached(&file, stamp(2000), &after);
    assert_ne!(first, second);
    assert_eq!(second, hash_bytes(&vec![2u8; 2000]));
}

#[test]
fn hash_video_file_cached_reuses_unchanged_file() {
    let mut cache = ContentHashCache::new();
    let file = path("/tmp/flick-hash-test-cached-stable.bin");
    let sample = FileSample::of_content(&vec![5u8; 1000]);
    let first = cache.hash_video_file_cached(&file, stamp(1000), &sample);
    let other = FileSample::of_content(&vec![6u8; 1000]);
    let second = cache.hash_video_file_cached(&file, stamp(1000), &other);
    assert_eq!(first, second);
}

#[test]
fn nothing_is_kept_for_a_file_without_a_stamp() {
    let mut cache = ContentHashCache::new();
    let file = path("/gone");
    cache.prime_content_hash(&file, None, "aaaa".to_string());
    assert_eq!(cache.fresh_hash(&file, stamp(1)), None);
    let unknown = FileStamp { size: 1, mtime: None };
    cache.prime_content_hash(&file, Some(unknown), "cccc".to_string());
    assert_eq!(cache.fresh_hash(&path("/./gone"), unknown), Some("cccc".to_string()));
    assert_eq!(cache.fresh_hash(&file, stamp(1)), None);
}

#[test]
fn hash_is_the_digest_of_size_beginning_and_end() {
    assert_eq!(hash_bytes(b""), "b6589fc6ab0dc82cf12099d1c2d40ab994e8410c");
    let content: Vec<u8> = (0..CHUNK * 3).map(|k| (k % 253) as u8).collect();
    let mut data = content.len().to_string().into_bytes();
    data.extend(&content[..CHUNK]);
    data.extend(&content[content.len() - CHUNK..]);
    let digest = sha1::Sha1::digest(&data);
    let expected: String = digest.iter().map(|b| format!("{b:02x}")).collect();
    assert_eq!(hash_bytes(&content), expected);
}

#[test]
fn files_that_begin_and_end_alike_have_one_hash() {
    let a = vec![1u8; CHUNK * 3];
    let mut b = a.clone();
    b[CHUNK + 5] = 2;
    assert_eq!(hash_bytes(&a), hash_bytes(&b));
    b[5] = 2;
    assert_ne!(hash_bytes(&a), hash_bytes(&b));
}

#[test]
fn what_is_read_of_a_file() {
    assert_eq!(sample_plan(0), (0, None));
    assert_eq!(sample_plan(100), (100, None));
    assert_eq!(sample_plan(65536), (65536, None));
    assert_eq!(sample_plan(65537), (65536, Some(1)));
    assert_eq!(sample_plan(102400), (65536, Some(36864)));
    assert_eq!(sample_plan(131072), (65536, Some(65536)));
    assert_eq!(sample_plan(131073), (65536, Some(65537)));
}

#[test]
fn the_end_of_a_file_is_part_of_its_hash() {
    for size in [65537, 102400, 131072] {
        let a = vec![1u8; size];
        let mut b = a.clone();
        b[size - 1] = 2;
        assert_ne!(hash_bytes(&a), hash_bytes(&b));
    }
}

#[test]
fn files_of_the_cache() {
    let (base, on) = (path("/home/u/.cache"), Platform::Linux);
    assert_eq!(sprites_dir(&base, on).to_text(), "/home/u/.cache/flick/sprites");
    assert_eq!(sprite_file(&base, on, "ab").to_text(), "/home/u/.cache/flick/sprites/ab.jpg");
    assert_eq!(meta_file(&base, on, "ab").to_text(), "/home/u/.cache/flick/sprites/ab.json");
    assert_eq!(
        poster_file(&base, on, "ab").to_text(),
        "/home/u/.cache/flick/posters/ab-s128.jpg"
    );
    assert_eq!(
        invalid_marker_file(&base, on, "ab").to_text(),
        "/home/u/.cache/flick/invalid/ab.broken"
    );
    let base = path("/Users/u/Library/Caches");
    let mac = sprite_file(&base, Platform::MacOs, "ab");
    assert_eq!(mac.to_text(), "/Users/u/Library/Caches/Flick/sprites/ab.jpg");
    let windows = posters_dir(&path("C:/Users/u/AppData/Local"), Platform::Windows);
    assert_eq!(windows.to_text(), "C:/Users/u/AppData/Local/Flick/posters");
    assert_eq!(temp_file(&path("/x/ab.jpg")).to_text(), "/x/ab.jpg.tmp");
}

#[test]
fn when_posters_and_previews_are_there() {
    assert!(is_cached(true, true));
    assert!(!is_cached(true, false));
    assert!(!is_cached(false, true));
    assert!(!poster_is_ready(None));
    assert!(!poster_is_ready(Some(0)));
    assert!(is_poster_cached(Some(1)));
}

#[test]
fn frames_have_the_bytes_of_their_size() {
    let frame = frame_from_bytes(2, 1, vec![0; 8]).unwrap();
    assert_eq!((frame.width, frame.height, frame.rgba.len()), (2, 1, 8));
    let error = frame_from_bytes(2, 1, vec![0; 7]).unwrap_err();
    assert!(matches!(error, ExtractError::UnexpectedSize { expected: 8, got: 7 }));
    assert_eq!(error.text(), "raw frame size mismatch: expected 8 bytes, got 7");
}

#[test]
fn texts_of_errors() {
    assert_eq!(ExtractError::Mpv("x".to_string()).text(), "mpv error: x");
    assert_eq!(ExtractError::Timeout.text(), "timed out waiting for frame extraction");
    assert_eq!(ExtractError::Io("gone".to_string()).text(), "io error: gone");
    assert_eq!(SpriteError::Extract(ExtractError::Timeout).text(), ExtractError::Timeout.text());
    assert_eq!(SpriteError::Io("a".to_string()).text(), "a");
    assert_eq!(SpriteError::Image("b".to_string()).text(), "b");
    assert_eq!(SpriteError::Json("c".to_string()).text(), "c");
}

#[test]
fn what_the_player_is_told_for_a_frame() {
    assert_eq!(
        frame_filter(160, 90),
        "scale=160:90:force_original_aspect_ratio=decrease,pad=160:90:(ow-iw)/2:(oh-ih)/2:color=black,format=rgba"
    );
    assert_eq!(frame_file_name(7, 42), "flick-frame-7-42.raw");
}

#[test]
fn a_frame_is_complete_once_the_player_shut_down() {
    let mut wait = FrameWait::new();
    assert!(matches!(wait.step(PlayerEvent::Other), WaitStep::Wait));
    assert!(matches!(wait.step(PlayerEvent::FileLoaded), WaitStep::Wait));
    assert!(matches!(wait.step(PlayerEvent::EndFile), WaitStep::Quit));
    assert!(matches!(wait.step(PlayerEvent::EndFile), WaitStep::Wait));
    assert!(matches!(wait.step(PlayerEvent::Shutdown), WaitStep::Ready));
    let failed = wait.step(PlayerEvent::Error("x".to_string()));
    assert!(matches!(failed, WaitStep::Fail(ExtractError::Mpv(_))));
    assert!(matches!(wait.step(PlayerEvent::Overdue), WaitStep::Fail(ExtractError::Timeout)));
}

#[test]
fn a_length_is_known_once_the_file_is_loaded() {
    assert!(matches!(probe_step(PlayerEvent::Other), WaitStep::Wait));
    assert!(matches!(probe_step(PlayerEvent::Shutdown), WaitStep::Wait));
    assert!(matches!(probe_step(PlayerEvent::FileLoaded), WaitStep::Ready));
    assert!(matches!(probe_step(PlayerEvent::EndFile), WaitStep::Ready));
    assert!(matches!(probe_step(PlayerEvent::Overdue), WaitStep::Fail(ExtractError::Timeout)));
}

fn png_of(width: u32, height: u32, color: [u8; 4]) -> Vec<u8> {
    let mut rgba = Vec::new();
    for _ in 0..width * height {
        rgba.extend(color);
    }
    let mut file = Vec::new();
    image::codecs::png::PngEncoder::new(&mut file)
        .write_image(&rgba, width, height, image::ExtendedColorType::Rgba8)
        .unwrap();
    file
}

fn near(a: [u8; 3], b: [u8; 3]) -> bool {
    (0..3).all(|k| a[k].abs_diff(b[k]) <= 6)
}

#[test]
fn poster_of_an_image_is_a_square_of_its_colours() {
    let png = png_of(40, 20, [200, 30, 60, 255]);
    let poster = image_poster(&png, "png").unwrap();
    let decoded = image::load_from_memory_with_format(&poster, image::ImageFormat::Jpeg).unwrap();
    assert_eq!((decoded.width(), decoded.height()), (128, 128));
    assert!(near(decoded.to_rgb8().get_pixel(64, 64).0, [200, 30, 60]));
}

#[test]
fn posters_are_scaled_by_nearness() {
    let mut picture = image::RgbImage::new(300, 40);
    for (x, y, pixel) in picture.enumerate_pixels_mut() {
        pixel.0 = [(x % 256) as u8, (y * 6) as u8, ((x * y) % 256) as u8];
    }
    let picture = image::DynamicImage::ImageRgb8(picture);
    let square =
        picture.resize_to_fill(128, 128, image::imageops::FilterType::Triangle).to_rgb8();
    let mut expected = Vec::new();
    image::codecs::jpeg::JpegEncoder::new_with_quality(&mut expected, 82)
        .encode_image(&square)
        .unwrap();
    assert_eq!(picture_poster(&picture), Some(expected.clone()));
    let mut png = Vec::new();
    picture
        .write_to(&mut std::io::Cursor::new(&mut png), image::ImageFormat::Png)
        .unwrap();
    assert_eq!(image_poster(&png, "png"), Some(expected));
}

#[test]
fn pictures_without_a_poster() {
    assert!(picture_poster(&image::DynamicImage::new_rgb8(0, 5)).is_none());
    assert!(picture_poster(&image::DynamicImage::new_rgb8(5, 0)).is_none());
    assert!(picture_poster(&image::DynamicImage::new_luma8(1, 3_000_000)).is_none());
    assert!(picture_poster(&image::DynamicImage::new_luma8(3_000_000, 1)).is_none());
    assert!(picture_poster(&image::DynamicImage::new_luma8(1, 1)).is_some());
    assert!(picture_poster(&image::DynamicImage::new_luma8(4000, 2)).is_some());
}

#[test]
fn what_is_no_image_has_no_poster() {
    assert!(image_poster(b"text", "png").is_none());
    assert!(image_poster(&png_of(4, 4, [0; 4]), "txt").is_none());
    assert!(image_poster(&png_of(4, 4, [0; 4]), "jpg").is_none());
    assert!(image_poster(&png_of(4, 4, [0; 4]), "PNG").is_some());
}

#[test]
fn posters_need_a_pixel_for_each_place() {
    assert!(encode_poster(vec![0; 5]).is_none());
    assert!(encode_poster(vec![0; 128 * 128 * 3]).is_some());
}

#[test]
fn pixels_lose_their_alpha() {
    assert_eq!(drop_alpha(&[1, 2, 3, 4, 5, 6, 7, 8]), vec![1, 2, 3, 5, 6, 7]);
    assert_eq!(drop_alpha(&[]), Vec::<u8>::new());
}

fn frame_of(width: u32, height: u32, color: [u8; 4]) -> RawFrame {
    let mut rgba = Vec::new();
    for _ in 0..width * height {
        rgba.extend(color);
    }
    frame_from_bytes(width, height, rgba).unwrap()
}

#[test]
fn poster_of_a_frame_has_its_colours() {
    let poster = frame_poster(&frame_of(128, 128, [10, 200, 90, 255])).unwrap();
    let decoded = image::load_from_memory_with_format(&poster, image::ImageFormat::Jpeg).unwrap();
    assert!(near(decoded.to_rgb8().get_pixel(3, 100).0, [10, 200, 90]));
}

#[test]
fn poster_that_is_there_needs_nothing_more() {
    let mut job = PosterJob::new(true);
    assert_eq!(job.stage, PosterStage::CheckCached);
    job.report(true);
    assert_eq!(job.stage, PosterStage::Ready);
}

#[test]
fn broken_video_is_not_read_again() {
    let mut job = PosterJob::new(true);
    job.report(false);
    assert_eq!(job.stage, PosterStage::CheckInvalid);
    let mut known = PosterJob::new(true);
    known.report(false);
    known.report(true);
    assert_eq!(known.stage, PosterStage::Failed);
    job.report(false);
    assert_eq!(job.stage, PosterStage::Probe);
    job.report(false);
    assert_eq!(job.stage, PosterStage::MarkInvalid);
    job.report(true);
    assert_eq!(job.stage, PosterStage::Failed);
}

#[test]
fn poster_of_a_video_is_written_and_seen() {
    let mut job = PosterJob::new(true);
    job.report(false);
    job.report(false);
    job.report(true);
    assert_eq!(job.stage, PosterStage::Extract);
    job.frame_extracted(Some(&frame_of(128, 128, [1, 2, 3, 255])));
    assert_eq!(job.stage, PosterStage::Write);
    assert_eq!(&job.file[..2], &[0xff, 0xd8]);
    job.report(true);
    assert_eq!(job.stage, PosterStage::WaitVisible);
    job.report(true);
    assert_eq!(job.stage, PosterStage::Ready);
}

#[test]
fn posters_can_fail_at_every_turn() {
    let at_extract = || {
        let mut job = PosterJob::new(true);
        job.report(false);
        job.report(false);
        job.report(true);
        job
    };
    let mut job = at_extract();
    job.frame_extracted(None);
    assert_eq!(job.stage, PosterStage::Failed);
    let mut job = at_extract();
    job.frame_extracted(Some(&frame_of(128, 128, [0; 4])));
    job.report(false);
    assert_eq!(job.stage, PosterStage::Failed);
    let mut job = at_extract();
    job.frame_extracted(Some(&frame_of(128, 128, [0; 4])));
    job.report(true);
    job.report(false);
    assert_eq!(job.stage, PosterStage::Failed);
}

#[test]
fn poster_of_an_image_file() {
    let mut job = PosterJob::new(false);
    job.report(false);
    assert_eq!(job.stage, PosterStage::ReadFile);
    let png = png_of(3, 3, [9, 9, 9, 255]);
    job.file_read(Some(&png), "png");
    assert_eq!(job.stage, PosterStage::Write);
    assert_eq!(job.file, image_poster(&png, "png").unwrap());
    let mut made = PosterJob::new(false);
    made.report(false);
    made.poster_made(Some(vec![7]));
    assert_eq!((made.stage, made.file), (PosterStage::Write, vec![7]));
    let mut none = PosterJob::new(false);
    none.report(false);
    none.poster_made(None);
    assert_eq!(none.stage, PosterStage::Failed);
    let mut gone = PosterJob::new(false);
    gone.report(false);
    gone.file_read(None, "png");
    assert_eq!(gone.stage, PosterStage::Failed);
    let mut broken = PosterJob::new(false);
    broken.report(false);
    broken.file_read(Some(b"text"), "png");
    assert_eq!(broken.stage, PosterStage::Failed);
}

#[test]
fn waiting_and_trying_again() {
    assert_eq!(ensure_poster_visible(false, 0), PollStep::LookAgain(5));
    assert_eq!(ensure_poster_visible(false, 199), PollStep::LookAgain(5));
    assert_eq!(ensure_poster_visible(false, 200), PollStep::GiveUp);
    assert_eq!(ensure_poster_visible(true, 900), PollStep::Found);
    assert_eq!(generation_step(0, false), PollStep::LookAgain(30));
    assert_eq!(generation_step(1, false), PollStep::GiveUp);
    assert_eq!(generation_step(1, true), PollStep::Found);
    assert_eq!(load_step(0, 0, false), PollStep::GiveUp);
    assert_eq!(load_step(1, 3, false), PollStep::LookAgain(2));
    assert_eq!(load_step(2, 3, false), PollStep::GiveUp);
    assert_eq!(load_step(2, 99, false), PollStep::LookAgain(2));
    assert_eq!(load_step(3, 99, false), PollStep::GiveUp);
    assert_eq!(load_step(3, 99, true), PollStep::Found);
}

fn small(color: [u8; 4]) -> RawFrame {
    frame_of(160, 90, color)
}

#[test]
fn sheets_are_filled_in_batches() {
    let mut sheet = SpriteSheet::new(12);
    assert_eq!(sheet.next_batch(), Some((0, 8)));
    let first: Vec<Result<RawFrame, ExtractError>> =
        (0..8).map(|k| Ok(small([k * 20, 0, 0, 255]))).collect();
    sheet.add_batch(first).unwrap();
    assert_eq!(sheet.next_batch(), Some((8, 12)));
    let second: Vec<Result<RawFrame, ExtractError>> =
        (0..4).map(|k| Ok(small([0, 60 + k * 40, 0, 255]))).collect();
    sheet.add_batch(second).unwrap();
    assert_eq!(sheet.next_batch(), None);
    let meta = sheet.meta(1);
    assert_eq!((meta.frame_count, meta.columns, meta.rows), (12, 10, 2));
    assert_eq!((meta.thumb_width, meta.thumb_height), (160, 90));
    let file = sheet.encode().unwrap();
    let decoded = image::load_from_memory_with_format(&file, image::ImageFormat::Jpeg).unwrap();
    assert_eq!((decoded.width(), decoded.height()), (1600, 180));
    let rgb = decoded.to_rgb8();
    assert!(near(rgb.get_pixel(80, 45).0, [0, 0, 0]));
    assert!(near(rgb.get_pixel(7 * 160 + 80, 45).0, [140, 0, 0]));
    assert!(near(rgb.get_pixel(9 * 160 + 80, 45).0, [0, 100, 0]));
    assert!(near(rgb.get_pixel(160 + 80, 90 + 45).0, [0, 180, 0]));
    assert!(near(rgb.get_pixel(5 * 160, 90 + 45).0, [0, 0, 0]));
}

#[test]
fn sheets_have_between_one_and_many_frames() {
    assert_eq!(SpriteSheet::new(0).meta(0).frame_count, 1);
    assert_eq!(SpriteSheet::new(0).meta(0).rows, 1);
    let most = SpriteSheet::new(100_000).meta(0);
    assert_eq!((most.frame_count, most.rows), (600, 60));
}

#[test]
fn the_first_missing_frame_ends_a_batch() {
    let mut sheet = SpriteSheet::new(3);
    let error = sheet
        .add_batch(vec![
            Ok(small([1, 1, 1, 255])),
            Err(ExtractError::Timeout),
            Err(ExtractError::Mpv("later".to_string())),
        ])
        .unwrap_err();
    assert!(matches!(error, SpriteError::Extract(ExtractError::Timeout)));
    assert_eq!(sheet.next_batch(), Some((1, 3)));
}

#[test]
fn preview_is_made_step_by_step() {
    let mut job = SpriteJob::new();
    job.cached(false);
    job.known_invalid(false);
    assert_eq!(job.stage(), SpriteStage::Probe);
    job.probed(Ok((2, 77)));
    assert_eq!(job.next_batch(), (0, 2));
    job.batch_extracted(vec![Ok(small([5, 5, 5, 255]))]);
    assert_eq!(job.stage(), SpriteStage::Extract);
    assert_eq!(job.next_batch(), (1, 2));
    job.batch_extracted(vec![Ok(small([6, 6, 6, 255]))]);
    assert_eq!(job.stage(), SpriteStage::WriteSheet);
    assert_eq!(&job.file()[..2], &[0xff, 0xd8]);
    let meta = job.meta().unwrap();
    assert_eq!((meta.interval_bits, meta.frame_count, meta.rows), (77, 2, 1));
    job.sheet_written(Ok(()));
    assert_eq!(job.stage(), SpriteStage::WriteMeta);
    job.meta_written(Ok(()));
    assert_eq!(job.stage(), SpriteStage::Ready);
    assert!(job.error().is_none());
}

#[test]
fn preview_that_is_there_is_not_made_again() {
    let mut job = SpriteJob::new();
    job.cached(true);
    assert_eq!(job.stage(), SpriteStage::Ready);
}

#[test]
fn previews_can_fail_at_every_turn() {
    let mut job = SpriteJob::new();
    job.cached(false);
    job.known_invalid(true);
    assert_eq!(job.stage(), SpriteStage::Failed);
    assert_eq!(job.error().unwrap().text(), "mpv error: unreadable media");

    let mut job = SpriteJob::new();
    job.cached(false);
    job.known_invalid(false);
    job.probed(Err(ExtractError::Timeout));
    assert_eq!(job.stage(), SpriteStage::MarkInvalid);
    job.marked_invalid();
    assert_eq!(job.stage(), SpriteStage::Failed);

    let at_extract = || {
        let mut job = SpriteJob::new();
        job.cached(false);
        job.known_invalid(false);
        job.probed(Ok((1, 0)));
        job
    };
    let mut job = at_extract();
    job.batch_extracted(vec![Err(ExtractError::Io("x".to_string()))]);
    assert_eq!(job.error().unwrap().text(), "io error: x");

    let mut job = at_extract();
    job.batch_extracted(vec![Ok(small([0; 4]))]);
    job.sheet_written(Err("full".to_string()));
    assert_eq!(job.stage(), SpriteStage::Failed);
    assert_eq!(job.error().unwrap().text(), "full");

    let mut job = at_extract();
    job.batch_extracted(vec![Ok(small([0; 4]))]);
    job.sheet_written(Ok(()));
    job.meta_written(Err(SpriteError::Json("bad".to_string())));
    assert_eq!(job.stage(), SpriteStage::Failed);
    assert_eq!(job.error().unwrap().text(), "bad");
}

#[test]
fn the_sheet_used_longest_ago_makes_room() {
    let mut cache: SpriteMemoryCache<u32> = SpriteMemoryCache::new();
    for k in 0..6u32 {
        cache.insert(format!("h{k}"), k);
    }
    assert_eq!(cache.get("h0"), Some(&0));
    cache.insert("h6".to_string(), 6);
    assert_eq!(cache.get("h1"), None);
    assert_eq!(cache.get("h0"), Some(&0));
    cache.insert("h2".to_string(), 22);
    assert_eq!(cache.get("h2"), Some(&22));
    assert_eq!(cache.get("h3"), Some(&3));
}

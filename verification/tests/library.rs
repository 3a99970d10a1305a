//! What counts as media, and how it is collected.

use flick::file_manager::{explorer_argument, finder_script, path_to_file_uri, reveal_commands};
use flick::import::{
    import_workers, launch_paths, named_media_entries, partition_paths, LaunchArg, PathEntry,
    PickedFile,
};
use flick::library::batch::Batcher;
use flick::library::filter::{bytes_to_sniff, SniffedFile};
use flick::library::magic::{confirm_media_magic, magic_byte_count};
use flick::library::scan::{sort_by_path, FolderScan, FoundEntry, ScannedFile};
use flick::library::{filter_valid_media, is_image_file, is_video_file, media_kind, MediaKind};
use flick::path::MediaPath;

fn path(text: &str) -> MediaPath {
    MediaPath::from_text(text)
}

fn sniffed(text: &str, head: &[u8]) -> SniffedFile {
    SniffedFile { path: path(text), head: head.to_vec() }
}

fn texts(paths: &[MediaPath]) -> Vec<String> {
    paths.iter().map(|p| p.to_text()).collect()
}

const PNG: [u8; 6] = [0x89, 0x50, 0x4e, 0x47, 0x0d, 0x0a];

#[test]
fn detects_video_and_image_extensions_case_insensitively() {
    assert!(is_video_file(&path("clip.MP4")));
    assert!(is_image_file(&path("photo.PNG")));
    assert!(!is_video_file(&path("notes.txt")));
    assert!(!is_image_file(&path("notes.txt")));
}

#[test]
fn validates_png_magic_bytes() {
    assert!(confirm_media_magic(&PNG, "png"));
}

#[test]
fn rejects_mismatched_png_magic_bytes() {
    assert!(!confirm_media_magic(b"not a png", "png"));
}

#[test]
fn trusts_unlisted_extensions_by_default() {
    assert!(confirm_media_magic(b"anything", "mp4"));
}

#[test]
fn validates_transport_stream_sync_bytes() {
    let mut bytes = vec![0u8; 189];
    bytes[0] = 0x47;
    bytes[188] = 0x47;
    assert!(confirm_media_magic(&bytes, "ts"));
}

#[test]
fn file_uri_encodes_spaces() {
    let uri = path_to_file_uri(&path("/home/user/My Videos/clip.mp4"));
    assert!(uri.contains("My%20Videos"));
    assert!(uri.starts_with("file://"));
}

#[test]
fn file_uri_is_exact() {
    assert_eq!(path_to_file_uri(&path("/a-b_c.d/E9")), "file:///a-b_c.d/E9");
    assert_eq!(path_to_file_uri(&path("/ü~")), "file:///%C3%BC%7E");
    let odd = MediaPath { bytes: vec![47, 0xff] };
    assert_eq!(path_to_file_uri(&odd), "file:///%EF%BF%BD");
}

#[test]
fn first_things_to_try_for_showing_a_file() {
    let commands = reveal_commands(&path("/a b"));
    assert_eq!(commands.len(), 7);
    assert_eq!(commands[0].program, "gdbus");
    assert_eq!(commands[0].args[8], "['file:///a%20b']");
    assert_eq!(commands[1].program, "nautilus");
    assert_eq!(commands[6].program, "pcmanfm");
    assert_eq!(commands[6].args, vec!["--select".to_string(), "/a b".to_string()]);
}

#[test]
fn file_managers_of_other_systems() {
    assert_eq!(explorer_argument(&path("C:x")), "/select,C:x");
    assert_eq!(explorer_argument(&path("C:a b")), "/select,\"C:a b\"");
    assert_eq!(
        finder_script(&path("/a\"b\\c")),
        "tell application \"Finder\" to reveal POSIX file \"/a\\\"b\\\\c\""
    );
}

#[test]
fn kind_is_image_unless_the_extension_says_video() {
    assert_eq!(media_kind(&path("a.mkv")), MediaKind::Video);
    assert_eq!(media_kind(&path("a.svg")), MediaKind::Image);
    assert_eq!(media_kind(&path("README")), MediaKind::Image);
}

#[test]
fn hidden_names_and_folders_have_no_extension() {
    assert_eq!(path("/x/.mp4").extension(), None);
    assert_eq!(path("/x/a.b.MP4").extension(), Some(b"MP4".to_vec()));
    assert_eq!(path("/x/a.mp4/..").file_name(), None);
    assert_eq!(path("/x/a.mp4/.").file_name(), Some(b"a.mp4".to_vec()));
    assert_eq!(path("/x/a.").extension(), Some(Vec::new()));
    assert!(!is_video_file(&path("/x/.mp4")));
}

#[test]
fn joining_paths() {
    assert_eq!(path("/a").join(b"b").to_text(), "/a/b");
    assert_eq!(path("/a/").join(b"b").to_text(), "/a/b");
    assert_eq!(path("").join(b"b").to_text(), "b");
    assert_eq!(path("/a").join(b"/b").to_text(), "/b");
}

#[test]
fn magic_of_each_kind() {
    assert!(confirm_media_magic(&[0xff, 0xd8, 0xff, 0xe0], "jpg"));
    assert!(confirm_media_magic(&[0xff, 0xd8, 0xff], "jpeg"));
    assert!(confirm_media_magic(b"GIF89a", "gif"));
    assert!(confirm_media_magic(b"RIFF\x00\x00\x00\x00WEBP", "webp"));
    assert!(!confirm_media_magic(b"RIFF\x00\x00\x00\x00WAVE", "webp"));
    assert!(confirm_media_magic(b"BM", "bmp"));
    assert!(confirm_media_magic(b"II*\x00", "tiff"));
    assert!(confirm_media_magic(b"MM\x00*", "tif"));
    assert!(!confirm_media_magic(&[0x47; 100], "ts"));
    assert!(!confirm_media_magic(b"", "png"));
}

#[test]
fn only_the_start_of_a_file_decides() {
    for ext in ["png", "jpg", "gif", "webp", "bmp", "tiff", "ts", "mts", "avi", "mp4", "zzz"] {
        let count = magic_byte_count(ext);
        let long: Vec<u8> = (0..400usize).map(|k| (k % 251) as u8).collect();
        let start = &long[..count];
        assert_eq!(confirm_media_magic(&long, ext), confirm_media_magic(start, ext));
    }
    assert_eq!(bytes_to_sniff(&path("a.TS")), magic_byte_count("ts"));
}

#[test]
fn filtering_keeps_valid_media_in_order() {
    let kept = filter_valid_media(vec![
        sniffed("/b.mp4", b""),
        sniffed("/a.png", &PNG),
        sniffed("/fake.png", b"text"),
        sniffed("/notes.txt", b""),
    ]);
    assert_eq!(texts(&kept), vec!["/b.mp4", "/a.png", "/notes.txt"]);
}

#[test]
fn files_and_folders_are_parted() {
    let (files, folders) = partition_paths(vec![
        PathEntry { path: path("/f1"), is_dir: false },
        PathEntry { path: path("/d1"), is_dir: true },
        PathEntry { path: path("/f2"), is_dir: false },
    ]);
    assert_eq!(texts(&files), vec!["/f1", "/f2"]);
    assert_eq!(texts(&folders), vec!["/d1"]);
}

#[test]
fn launch_takes_media_first_and_then_folders() {
    let arg = |text: &str, exists: bool, is_dir: bool| LaunchArg {
        file: sniffed(text, b""),
        exists,
        is_dir,
    };
    let paths = launch_paths(vec![
        arg("/folder", true, true),
        arg("/gone.mp4", false, false),
        arg("/clip.mp4", true, false),
        arg("/broken.png", true, false),
        arg("/gone", false, true),
    ]);
    assert_eq!(texts(&paths), vec!["/clip.mp4", "/folder"]);
}

#[test]
fn picked_files_are_named_and_sized() {
    let entries = named_media_entries(vec![
        PickedFile { file: sniffed("/x/clip.mp4", b""), size: Some(7) },
        PickedFile { file: sniffed("/x/fake.png", b"text"), size: Some(8) },
    ]);
    assert_eq!(entries.len(), 1);
    assert_eq!(entries[0].0, "clip.mp4");
    assert_eq!(entries[0].1.to_text(), "/x/clip.mp4");
    assert_eq!(entries[0].2, Some(7));
}

#[test]
fn few_files_need_few_workers() {
    assert_eq!(import_workers(0), 0);
    assert_eq!(import_workers(3), 3);
    assert_eq!(import_workers(900), 4);
}

#[test]
fn batches_make_up_what_was_pushed() {
    let mut batcher: Batcher<usize> = Batcher::new();
    let mut all: Vec<usize> = Vec::new();
    let mut sizes: Vec<usize> = Vec::new();
    for k in 0..120 {
        if let Some(batch) = batcher.push(k) {
            sizes.push(batch.len());
            all.extend(batch);
        }
    }
    if let Some(batch) = batcher.finish() {
        sizes.push(batch.len());
        all.extend(batch);
    }
    assert_eq!(sizes, vec![50, 50, 20]);
    assert_eq!(all, (0..120).collect::<Vec<_>>());
}

fn scanned(text: &str) -> ScannedFile {
    ScannedFile { path: path(text), size: None, content_hash: None }
}

#[test]
fn scanned_files_are_sorted_by_component() {
    let sorted = sort_by_path(vec![scanned("/a-b/x"), scanned("/a/z"), scanned("/a"), scanned("/B")]);
    let order: Vec<String> = sorted.iter().map(|f| f.path.to_text()).collect();
    assert_eq!(order, vec!["/B", "/a", "/a/z", "/a-b/x"]);
}

#[test]
fn scanning_a_folder_delivers_sorted_batches_of_media() {
    let mut scan = FolderScan::new();
    let mut batches: Vec<Vec<String>> = Vec::new();
    for k in (0..51).rev() {
        let entry = FoundEntry {
            is_file: true,
            file: sniffed(&format!("/m/{k:02}.mp4"), b""),
            size: Some(k),
            content_hash: None,
        };
        if let Some(batch) = scan.visit(entry) {
            batches.push(batch.iter().map(|f| f.path.to_text()).collect());
        }
        let noise = FoundEntry {
            is_file: k % 2 == 0,
            file: sniffed(if k % 2 == 0 { "/m/a.txt" } else { "/m/dir.mp4" }, b""),
            size: None,
            content_hash: None,
        };
        assert!(scan.visit(noise).is_none());
    }
    let last = scan.finish().unwrap();
    batches.push(last.iter().map(|f| f.path.to_text()).collect());
    assert_eq!(batches.len(), 2);
    assert_eq!(batches[0].len(), 50);
    assert_eq!(batches[0][0], "/m/01.mp4");
    assert_eq!(batches[0][49], "/m/50.mp4");
    assert_eq!(batches[1], vec!["/m/00.mp4"]);
    assert!(FolderScan::new().finish().is_none());
}

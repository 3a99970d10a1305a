//! Taking in files and folders that the user picked, dropped or named when starting.

use crate::library::filter::{filter_valid_media, path_views, sniffed_views, valid_paths, confirm_file, is_valid_media, SniffedFile, SniffedView};
use crate::library::laws::{is_as_named, validity_is_being_as_named};
use crate::path::MediaPath;
use crate::playlist::item::{candidate_view, candidate_views, Candidate, CandidateView};
use crate::ui_bridge::format::{base_name, basename};
use vstd::prelude::*;

verus! {

/// A path, and whether it names a folder.
#[derive(Debug)]
pub struct PathEntry {
    pub path: MediaPath,
    pub is_dir: bool,
}

/// The paths of those entries that are folders, or of those that are not, in their order.
pub open spec fn paths_of(entries: Seq<PathEntry>, folders: bool) -> Seq<Seq<u8>>
    decreases entries.len(),
{
    if entries.len() == 0 {
        Seq::empty()
    } else {
        let rest = paths_of(entries.drop_last(), folders);
        if entries.last().is_dir == folders {
            rest.push(entries.last().path@)
        } else {
            rest
        }
    }
}

/// Parts files from folders.
pub fn partition_paths(paths: Vec<PathEntry>) -> (parts: (Vec<MediaPath>, Vec<MediaPath>))
    ensures
        path_views(parts.0@) == paths_of(paths@, false),
        path_views(parts.1@) == paths_of(paths@, true),
{
    let ghost all = paths@;
    let mut files: Vec<MediaPath> = Vec::new();
    let mut folders: Vec<MediaPath> = Vec::new();
    assert(all.take(0) =~= Seq::empty());
    assert(path_views(files@) =~= Seq::empty());
    for entry in it: paths
        invariant
            all == it.seq(),
            path_views(files@) == paths_of(all.take(it.index()), false),
            path_views(folders@) == paths_of(all.take(it.index()), true),
    {
        let ghost i = it.index();
        assert(all.take(i + 1).drop_last() =~= all.take(i));
        let ghost (f, d) = (files@, folders@);
        if entry.is_dir {
            folders.push(entry.path);
            assert(path_views(folders@) =~= path_views(d).push(entry.path@));
        } else {
            files.push(entry.path);
            assert(path_views(files@) =~= path_views(f).push(entry.path@));
        }
    }
    assert(all.take(all.len() as int) =~= all);
    (files, folders)
}

/// A path named when starting, with what the file system says of it.
#[derive(Debug)]
pub struct LaunchArg {
    pub file: SniffedFile,
    pub exists: bool,
    pub is_dir: bool,
}

/// The files among the arguments that exist.
pub open spec fn launch_files(args: Seq<LaunchArg>) -> Seq<SniffedView>
    decreases args.len(),
{
    if args.len() == 0 {
        Seq::empty()
    } else {
        let rest = launch_files(args.drop_last());
        if args.last().exists && !args.last().is_dir {
            rest.push(args.last().file@)
        } else {
            rest
        }
    }
}

/// The folders among the arguments that exist.
pub open spec fn launch_folders(args: Seq<LaunchArg>) -> Seq<Seq<u8>>
    decreases args.len(),
{
    if args.len() == 0 {
        Seq::empty()
    } else {
        let rest = launch_folders(args.drop_last());
        if args.last().exists && args.last().is_dir {
            rest.push(args.last().file.path@)
        } else {
            rest
        }
    }
}

/// The paths to take in when starting: of the arguments that exist, the files that are valid
/// media, then the folders.
pub fn launch_paths(args: Vec<LaunchArg>) -> (paths: Vec<MediaPath>)
    ensures
        path_views(paths@) == valid_paths(launch_files(args@)) + launch_folders(args@),
{
    let ghost all = args@;
    let mut files: Vec<SniffedFile> = Vec::new();
    let mut folders: Vec<MediaPath> = Vec::new();
    assert(all.take(0) =~= Seq::empty());
    assert(sniffed_views(files@) =~= Seq::empty());
    assert(path_views(folders@) =~= Seq::empty());
    for arg in it: args
        invariant
            all == it.seq(),
            sniffed_views(files@) == launch_files(all.take(it.index())),
            path_views(folders@) == launch_folders(all.take(it.index())),
    {
        let ghost i = it.index();
        assert(all.take(i + 1).drop_last() =~= all.take(i));
        let ghost (f, d) = (files@, folders@);
        if arg.exists {
            if arg.is_dir {
                folders.push(arg.file.path);
                assert(path_views(folders@) =~= path_views(d).push(arg.file.path@));
            } else {
                files.push(arg.file);
                assert(sniffed_views(files@) =~= sniffed_views(f).push(arg.file@));
            }
        }
    }
    assert(all.take(all.len() as int) =~= all);
    let mut paths = filter_valid_media(files);
    let ghost valid = paths@;
    let ghost tail = folders@;
    paths.append(&mut folders);
    assert(path_views(paths@) =~= path_views(valid) + path_views(tail));
    paths
}

/// A picked file with its size, where that is known.
#[derive(Debug)]
pub struct PickedFile {
    pub file: SniffedFile,
    pub size: Option<u64>,
}

/// The valid media among picked files, each under the name by which it is listed.
pub open spec fn named_entries(files: Seq<PickedFile>) -> Seq<CandidateView>
    decreases files.len(),
{
    if files.len() == 0 {
        Seq::empty()
    } else {
        let rest = named_entries(files.drop_last());
        let last = files.last();
        if is_valid_media(last.file@) {
            rest.push(
                CandidateView {
                    name: base_name(last.file.path@),
                    path: last.file.path@,
                    size_bytes: last.size,
                },
            )
        } else {
            rest
        }
    }
}

/// The valid media among picked files, ready to be queued.
pub fn named_media_entries(files: Vec<PickedFile>) -> (entries: Vec<Candidate>)
    ensures
        candidate_views(entries@) == named_entries(files@),
{
    let ghost all = files@;
    let mut entries: Vec<Candidate> = Vec::new();
    assert(all.take(0) =~= Seq::empty());
    assert(candidate_views(entries@) =~= Seq::empty());
    for picked in it: files
        invariant
            all == it.seq(),
            candidate_views(entries@) == named_entries(all.take(it.index())),
    {
        let ghost i = it.index();
        assert(all.take(i + 1).drop_last() =~= all.take(i));
        let ghost before = entries@;
        if confirm_file(&picked.file) {
            let name = basename(&picked.file.path);
            entries.push((name, picked.file.path, picked.size));
            assert(candidate_views(entries@) =~= candidate_views(before).push(
                candidate_view(entries@.last()),
            ));
        }
    }
    assert(all.take(all.len() as int) =~= all);
    entries
}

/// Parting paths keeps the files in their order and the folders in theirs.
pub proof fn parting_keeps_order(entries: Seq<PathEntry>, folders: bool)
    ensures
        paths_of(entries, folders) == entries.filter(
            |e: PathEntry| e.is_dir == folders,
        ).map_values(|e: PathEntry| e.path@),
    decreases entries.len(),
{
    reveal(Seq::filter);
    let kind = |e: PathEntry| e.is_dir == folders;
    let path = |e: PathEntry| e.path@;
    if entries.len() > 0 {
        parting_keeps_order(entries.drop_last(), folders);
        let rest = entries.drop_last().filter(kind);
        assert(rest.push(entries.last()).map_values(path) =~= rest.map_values(path).push(
            entries.last().path@,
        ));
    } else {
        assert(paths_of(entries, folders) =~= entries.filter(kind).map_values(path));
    }
}

/// Of the paths named when starting, just those that exist are taken in: files as files and
/// folders as folders, each in their order.
pub proof fn only_what_exists_is_taken_in(args: Seq<LaunchArg>)
    ensures
        launch_files(args) == args.filter(|a: LaunchArg| a.exists && !a.is_dir).map_values(
            |a: LaunchArg| a.file@,
        ),
        launch_folders(args) == args.filter(|a: LaunchArg| a.exists && a.is_dir).map_values(
            |a: LaunchArg| a.file.path@,
        ),
    decreases args.len(),
{
    reveal(Seq::filter);
    let is_file = |a: LaunchArg| a.exists && !a.is_dir;
    let is_folder = |a: LaunchArg| a.exists && a.is_dir;
    let file = |a: LaunchArg| a.file@;
    let path = |a: LaunchArg| a.file.path@;
    if args.len() > 0 {
        only_what_exists_is_taken_in(args.drop_last());
        let last = args.last();
        let files = args.drop_last().filter(is_file);
        let folders = args.drop_last().filter(is_folder);
        assert(files.push(last).map_values(file) =~= files.map_values(file).push(last.file@));
        assert(folders.push(last).map_values(path) =~= folders.map_values(path).push(
            last.file.path@,
        ));
    } else {
        assert(launch_files(args) =~= args.filter(is_file).map_values(file));
        assert(launch_folders(args) =~= args.filter(is_folder).map_values(path));
    }
}

/// Of picked files just those that are what their ending says are offered, in their order, each
/// under the name by which it is listed and with its size.
pub proof fn picked_files_are_offered_by_name(files: Seq<PickedFile>)
    ensures
        named_entries(files) == files.filter(|f: PickedFile| is_as_named(f.file@)).map_values(
            |f: PickedFile|
                CandidateView {
                    name: base_name(f.file.path@),
                    path: f.file.path@,
                    size_bytes: f.size,
                },
        ),
    decreases files.len(),
{
    reveal(Seq::filter);
    let valid = |f: PickedFile| is_as_named(f.file@);
    let offer = |f: PickedFile|
        CandidateView { name: base_name(f.file.path@), path: f.file.path@, size_bytes: f.size };
    if files.len() > 0 {
        picked_files_are_offered_by_name(files.drop_last());
        let last = files.last();
        validity_is_being_as_named(last.file@);
        let rest = files.drop_last().filter(valid);
        assert(rest.push(last).map_values(offer) =~= rest.map_values(offer).push(offer(last)));
    } else {
        assert(named_entries(files) =~= files.filter(valid).map_values(offer));
    }
}

/// Each file has a worker to itself, up to four workers.
pub proof fn workers_are_at_most_four()
    ensures
        IMPORT_HASH_WORKERS == 4,
{
}

/// How many workers hash the content of picked files at the same time, at most.
pub const IMPORT_HASH_WORKERS: usize = 4;

/// How many workers to start for `count` files.
pub fn import_workers(count: usize) -> (workers: usize)
    ensures
        workers == if count < IMPORT_HASH_WORKERS {
            count
        } else {
            IMPORT_HASH_WORKERS
        },
{
    if count < IMPORT_HASH_WORKERS {
        count
    } else {
        IMPORT_HASH_WORKERS
    }
}

} // verus!

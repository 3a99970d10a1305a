//! Collecting the media of a folder.

use super::batch::{Batcher, BATCH_SIZE};
use super::ext::{is_image, is_image_file, is_video, is_video_file};
use super::filter::{confirm_file, is_valid_media, SniffedFile, SniffedView};
use crate::path::MediaPath;
use crate::path_key::{compare_keys, key_less, key_less_total, key_less_transitive, path_key};
use vstd::prelude::*;

verus! {

/// A media file found in a folder, with what is cheap to tell while scanning.
#[derive(Debug)]
pub struct ScannedFile {
    pub path: MediaPath,
    pub size: Option<u64>,
    /// The hash of the content, or `None` if it could not be computed.
    pub content_hash: Option<String>,
}

/// What a scanned file holds.
pub struct ScannedView {
    pub path: Seq<u8>,
    pub size: Option<u64>,
    pub content_hash: Option<Seq<char>>,
}

/// The characters of a text, if there is one.
pub open spec fn opt_text(text: Option<String>) -> Option<Seq<char>> {
    match text {
        Some(t) => Some(t@),
        None => None,
    }
}

impl View for ScannedFile {
    type V = ScannedView;

    open spec fn view(&self) -> ScannedView {
        ScannedView {
            path: self.path@,
            size: self.size,
            content_hash: opt_text(self.content_hash),
        }
    }
}

/// The contents of several scanned files.
pub open spec fn scanned_views(files: Seq<ScannedFile>) -> Seq<ScannedView> {
    files.map_values(|f: ScannedFile| f@)
}

/// Whether the path of `a` comes before the path of `b`.
pub open spec fn path_before(a: ScannedView, b: ScannedView) -> bool {
    key_less(path_key(a.path), path_key(b.path))
}

/// Where `x` belongs among files that are sorted: behind the last one that it does not come
/// before.
pub open spec fn place_for(sorted: Seq<ScannedView>, x: ScannedView) -> int
    decreases sorted.len(),
{
    if sorted.len() == 0 {
        0
    } else if path_before(x, sorted.last()) {
        place_for(sorted.drop_last(), x)
    } else {
        sorted.len() as int
    }
}

/// The files sorted by path; files with equal paths keep their order.
pub open spec fn sorted_by_path(files: Seq<ScannedView>) -> Seq<ScannedView>
    decreases files.len(),
{
    if files.len() == 0 {
        Seq::empty()
    } else {
        let rest = sorted_by_path(files.drop_last());
        rest.insert(place_for(rest, files.last()), files.last())
    }
}

/// Whether no file comes before one that stands in front of it.
pub open spec fn is_sorted(files: Seq<ScannedView>) -> bool {
    forall|i: int, j: int|
        0 <= i < j < files.len() ==> !path_before(#[trigger] files[j], #[trigger] files[i])
}

proof fn lemma_place_for(sorted: Seq<ScannedView>, x: ScannedView)
    requires
        is_sorted(sorted),
    ensures
        0 <= place_for(sorted, x) <= sorted.len(),
        forall|i: int|
            place_for(sorted, x) <= i < sorted.len() ==> path_before(x, #[trigger] sorted[i]),
        forall|i: int|
            0 <= i < place_for(sorted, x) ==> !path_before(x, #[trigger] sorted[i]),
    decreases sorted.len(),
{
    if sorted.len() > 0 {
        if path_before(x, sorted.last()) {
            assert(is_sorted(sorted.drop_last()));
            lemma_place_for(sorted.drop_last(), x);
            assert forall|i: int| place_for(sorted, x) <= i < sorted.len() implies path_before(
                x,
                #[trigger] sorted[i],
            ) by {
                if i < sorted.len() - 1 {
                    assert(sorted.drop_last()[i] == sorted[i]);
                }
            }
            assert forall|i: int| 0 <= i < place_for(sorted, x) implies !path_before(
                x,
                #[trigger] sorted[i],
            ) by {
                assert(sorted.drop_last()[i] == sorted[i]);
            }
        } else {
            assert forall|i: int| 0 <= i < sorted.len() implies !path_before(
                x,
                #[trigger] sorted[i],
            ) by {
                if path_before(x, sorted[i]) && i < sorted.len() - 1 {
                    let l = sorted.last();
                    key_less_total(path_key(sorted[i].path), path_key(l.path));
                    key_less_total(path_key(x.path), path_key(l.path));
                    assert(!path_before(l, sorted[i]));
                    if path_before(sorted[i], l) {
                        key_less_transitive(
                            path_key(x.path),
                            path_key(sorted[i].path),
                            path_key(l.path),
                        );
                    }
                }
            }
        }
    }
}

/// Sorting puts the files in order of their paths and keeps every one of them.
pub proof fn sorting_orders_and_keeps_files(files: Seq<ScannedView>)
    ensures
        is_sorted(sorted_by_path(files)),
        sorted_by_path(files).to_multiset() == files.to_multiset(),
        sorted_by_path(files).len() == files.len(),
    decreases files.len(),
{
    broadcast use vstd::seq_lib::group_to_multiset_ensures;

    if files.len() > 0 {
        let x = files.last();
        let rest = sorted_by_path(files.drop_last());
        sorting_orders_and_keeps_files(files.drop_last());
        lemma_place_for(rest, x);
        let at = place_for(rest, x);
        let out = rest.insert(at, x);
        vstd::seq_lib::to_multiset_insert(rest, at, x);
        assert(files =~= files.drop_last().push(x));
        assert forall|i: int, j: int| 0 <= i < j < out.len() implies !path_before(
            #[trigger] out[j],
            #[trigger] out[i],
        ) by {
            if j < at {
                assert(out[j] == rest[j] && out[i] == rest[i]);
            } else if i > at {
                assert(out[j] == rest[j - 1] && out[i] == rest[i - 1]);
            } else if i == at {
                assert(out[j] == rest[j - 1]);
                key_less_total(path_key(x.path), path_key(rest[j - 1].path));
            } else if j == at {
                assert(out[i] == rest[i]);
            } else {
                assert(out[j] == rest[j - 1] && out[i] == rest[i]);
            }
        }
    }
}

/// Sorts files by their paths.
pub fn sort_by_path(files: Vec<ScannedFile>) -> (sorted: Vec<ScannedFile>)
    ensures
        scanned_views(sorted@) == sorted_by_path(scanned_views(files@)),
{
    let ghost views = scanned_views(files@);
    let mut sorted: Vec<ScannedFile> = Vec::new();
    let mut keys: Vec<Vec<u16>> = Vec::new();
    assert(views.take(0) =~= Seq::empty());
    assert(scanned_views(sorted@) =~= Seq::empty());
    for file in it: files
        invariant
            views == scanned_views(it.seq()),
            scanned_views(sorted@) == sorted_by_path(views.take(it.index())),
            keys.len() == sorted.len(),
            forall|k: int|
                0 <= k < keys.len() ==> #[trigger] keys@[k]@ == path_key(sorted@[k].path@),
    {
        let key = file.path.key();
        let ghost rest = scanned_views(sorted@);
        let mut at: usize = sorted.len();
        assert(rest.take(at as int) =~= rest);
        while at > 0 && compare_keys(&key, &keys[at - 1])
            invariant
                at <= sorted.len(),
                keys.len() == sorted.len(),
                rest == scanned_views(sorted@),
                key@ == path_key(file@.path),
                forall|k: int|
                    0 <= k < keys.len() ==> #[trigger] keys@[k]@ == path_key(sorted@[k].path@),
                place_for(rest, file@) == place_for(rest.take(at as int), file@),
            decreases at,
        {
            assert(rest.take(at as int).drop_last() =~= rest.take(at - 1));
            assert(rest.take(at as int).last() == sorted@[at - 1]@);
            assert(keys@[at - 1]@ == path_key(sorted@[at - 1].path@));
            at -= 1;
        }
        if at > 0 {
            assert(rest.take(at as int).last() == sorted@[at - 1]@);
            assert(keys@[at - 1]@ == path_key(sorted@[at - 1].path@));
        }
        assert(place_for(rest, file@) == at);
        let ghost old_keys = keys@;
        let ghost old_sorted = sorted@;
        sorted.insert(at, file);
        keys.insert(at, key);
        proof {
            let i = it.index();
            assert(views[i] == it.seq()[i]@);
            assert(views.take(i + 1).drop_last() =~= views.take(i));
            assert(scanned_views(sorted@) =~= rest.insert(at as int, file@));
            assert forall|k: int| 0 <= k < keys.len() implies #[trigger] keys@[k]@ == path_key(
                sorted@[k].path@,
            ) by {
                if k < at {
                    assert(old_keys[k]@ == path_key(old_sorted[k].path@));
                } else if k > at {
                    assert(old_keys[k - 1]@ == path_key(old_sorted[k - 1].path@));
                }
            }
        }
    }
    assert(views.take(views.len() as int) =~= views);
    sorted
}

/// Something that a walk through a folder came across. Only of media files are the first bytes,
/// the size and the hash of the content ever looked at.
#[derive(Debug)]
pub struct FoundEntry {
    pub is_file: bool,
    pub file: SniffedFile,
    pub size: Option<u64>,
    pub content_hash: Option<String>,
}

/// What a found entry holds.
pub struct FoundView {
    pub is_file: bool,
    pub file: SniffedView,
    pub size: Option<u64>,
    pub content_hash: Option<Seq<char>>,
}

impl View for FoundEntry {
    type V = FoundView;

    open spec fn view(&self) -> FoundView {
        FoundView {
            is_file: self.is_file,
            file: self.file@,
            size: self.size,
            content_hash: opt_text(self.content_hash),
        }
    }
}

impl FoundView {
    /// Whether the entry is a media file that is what its name says.
    pub open spec fn is_media(self) -> bool {
        self.is_file && (is_video(self.file.path) || is_image(self.file.path)) && is_valid_media(
            self.file,
        )
    }

    /// The entry as a scanned file.
    pub open spec fn scanned(self) -> ScannedView {
        ScannedView {
            path: self.file.path,
            size: self.size,
            content_hash: self.content_hash,
        }
    }
}

/// What a batch holds, if there is one.
pub open spec fn batch_view(batch: Option<Vec<ScannedFile>>) -> Option<Seq<ScannedView>> {
    match batch {
        Some(b) => Some(scanned_views(b@)),
        None => None,
    }
}

/// What waits after an entry was come across, and the batch that is handed on then.
pub open spec fn visited(waiting: Seq<ScannedView>, entry: FoundView) -> (
    Seq<ScannedView>,
    Option<Seq<ScannedView>>,
) {
    if !entry.is_media() {
        (waiting, None)
    } else if waiting.len() + 1 < BATCH_SIZE {
        (waiting.push(entry.scanned()), None)
    } else {
        (Seq::empty(), Some(sorted_by_path(waiting.push(entry.scanned()))))
    }
}

/// The batch that is handed on at the end of a walk.
pub open spec fn finished(waiting: Seq<ScannedView>) -> Option<Seq<ScannedView>> {
    if waiting.len() > 0 {
        Some(sorted_by_path(waiting))
    } else {
        None
    }
}

/// Whether a path has the extension of a video or an image.
pub fn is_media_path(path: &MediaPath) -> (media: bool)
    ensures
        media == (is_video(path@) || is_image(path@)),
{
    is_video_file(path) || is_image_file(path)
}

/// A scan in progress: what it found since the last batch.
#[derive(Debug)]
pub struct FolderScan {
    pending: Batcher<ScannedFile>,
}

impl View for FolderScan {
    type V = Seq<ScannedView>;

    closed spec fn view(&self) -> Seq<ScannedView> {
        scanned_views(self.pending@)
    }
}

impl FolderScan {
    /// Less waits than makes a batch.
    pub open spec fn wf(&self) -> bool {
        self@.len() < BATCH_SIZE
    }

    /// A scan that has found nothing yet.
    pub fn new() -> (scan: Self)
        ensures
            scan.wf(),
            scan@ == Seq::<ScannedView>::empty(),
    {
        let scan = FolderScan { pending: Batcher::new() };
        assert(scan@ =~= Seq::empty());
        scan
    }

    /// Takes in an entry; one that is no media file is passed over. Gives back the batch that the
    /// entry has made full, sorted by path.
    pub fn visit(&mut self, entry: FoundEntry) -> (batch: Option<Vec<ScannedFile>>)
        requires
            old(self).wf(),
        ensures
            final(self).wf(),
            (final(self)@, batch_view(batch)) == visited(old(self)@, entry@),
            !entry@.is_media() ==> batch is None && final(self)@ == old(self)@,
            entry@.is_media() && old(self)@.len() + 1 < BATCH_SIZE ==> {
                &&& batch is None
                &&& final(self)@ == old(self)@.push(entry@.scanned())
            },
            entry@.is_media() && old(self)@.len() + 1 == BATCH_SIZE ==> {
                &&& batch matches Some(b) && scanned_views(b@) == sorted_by_path(
                    old(self)@.push(entry@.scanned()),
                )
                &&& final(self)@ == Seq::<ScannedView>::empty()
            },
    {
        if !entry.is_file {
            return None;
        }
        if !is_media_path(&entry.file.path) {
            return None;
        }
        if !confirm_file(&entry.file) {
            return None;
        }
        let file = ScannedFile {
            path: entry.file.path,
            size: entry.size,
            content_hash: entry.content_hash,
        };
        let ghost before = self.pending@;
        let full = self.pending.push(file);
        assert(scanned_views(before.push(file)) =~= scanned_views(before).push(file@));
        match full {
            Some(batch) => {
                assert(self@ =~= Seq::empty());
                Some(sort_by_path(batch))
            },
            None => None,
        }
    }

    /// Gives back what is left at the end of the walk, sorted by path.
    pub fn finish(self) -> (batch: Option<Vec<ScannedFile>>)
        ensures
            batch_view(batch) == finished(self@),
            match batch {
                Some(b) => self@.len() > 0 && scanned_views(b@) == sorted_by_path(self@),
                None => self@.len() == 0,
            },
    {
        match self.pending.finish() {
            Some(batch) => Some(sort_by_path(batch)),
            None => None,
        }
    }
}

} // verus!

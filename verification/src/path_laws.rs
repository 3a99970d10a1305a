//! What the parts of paths are, told by how paths are put together.

use crate::path::{
    classify, components, components_from, extension, file_name, joined, last_dot, lemma_piece_end,
    piece_end, Component,
};
use crate::path_key::{
    component_less, components_less, key_less, name_less, path_key, path_keys_tell_paths_apart,
};
use vstd::prelude::*;

verus! {

/// Whether some bytes hold no separator.
pub open spec fn is_one_piece(piece: Seq<u8>) -> bool {
    forall|k: int| 0 <= k < piece.len() ==> #[trigger] piece[k] != 47
}

/// Whether some bytes are a name: not empty, without a separator, and neither `.` nor `..`.
pub open spec fn is_name(name: Seq<u8>) -> bool {
    &&& name.len() > 0
    &&& is_one_piece(name)
    &&& !(name.len() == 1 && name[0] == 46)
    &&& !(name.len() == 2 && name[0] == 46 && name[1] == 46)
}

proof fn lemma_same_piece_end(a: Seq<u8>, p: Seq<u8>, i: int)
    requires
        0 <= i <= a.len() < p.len(),
        p.take(a.len() as int) == a,
        p[a.len() as int] == 47,
    ensures
        piece_end(p, i) == piece_end(a, i),
    decreases a.len() - i,
{
    assert(forall|k: int| 0 <= k < a.len() ==> p[k] == p.take(a.len() as int)[k]);
    if i < a.len() && a[i] != 47 {
        lemma_same_piece_end(a, p, i + 1);
    }
}

proof fn lemma_last_piece(p: Seq<u8>, piece: Seq<u8>, i: int)
    requires
        0 <= i <= p.len(),
        p.skip(i) == piece,
        is_one_piece(piece),
    ensures
        components_from(p, i) == match classify(piece, i == 0) {
            Some(c) => seq![c],
            None => Seq::<Component>::empty(),
        },
{
    if i < p.len() {
        lemma_piece_end(p, i);
        let end = piece_end(p, i);
        assert(end == p.len()) by {
            if end < p.len() {
                assert(p.skip(i)[end - i] == p[end]);
            }
        }
        assert(p.subrange(i, end) =~= piece);
        assert(components_from(p, end + 1) =~= Seq::empty());
        assert(components_from(p, i) =~= match classify(piece, i == 0) {
            Some(c) => seq![c],
            None => Seq::<Component>::empty(),
        });
    } else {
        assert(piece.len() == 0);
    }
}

proof fn lemma_components_of_longer(a: Seq<u8>, piece: Seq<u8>, i: int)
    requires
        a.len() > 0,
        0 <= i <= a.len(),
        is_one_piece(piece),
    ensures
        components_from(a + seq![47u8] + piece, i) == components_from(a, i) + match classify(
            piece,
            false,
        ) {
            Some(c) => seq![c],
            None => Seq::<Component>::empty(),
        },
    decreases a.len() - i,
{
    let p = a + seq![47u8] + piece;
    let tail = match classify(piece, false) {
        Some(c) => seq![c],
        None => Seq::<Component>::empty(),
    };
    assert(p.take(a.len() as int) =~= a);
    assert(p.skip(a.len() as int + 1) =~= piece);
    lemma_last_piece(p, piece, a.len() as int + 1);
    lemma_same_piece_end(a, p, i);
    lemma_piece_end(a, i);
    let end = piece_end(a, i);
    assert(p.subrange(i, end) =~= a.subrange(i, end));
    if i < a.len() {
        if end < a.len() {
            lemma_components_of_longer(a, piece, end + 1);
        } else {
            assert(components_from(a, end + 1) =~= Seq::empty());
        }
        assert(components_from(p, i) =~= components_from(a, i) + tail);
    } else {
        assert(p.subrange(i, end).len() == 0);
        assert(components_from(a, i) =~= Seq::empty());
        assert(components_from(p, i) =~= components_from(a, i) + tail);
    }
}

/// A path with one more piece behind a separator has one more component: the piece's name, or a
/// step up for `..`. A piece that is empty or `.` adds none.
pub proof fn piece_adds_component(a: Seq<u8>, piece: Seq<u8>)
    requires
        a.len() > 0,
        is_one_piece(piece),
    ensures
        is_name(piece) ==> components(a + seq![47u8] + piece) == components(a).push(
            Component::Normal(piece),
        ),
        piece == seq![46u8, 46u8] ==> components(a + seq![47u8] + piece) == components(a).push(
            Component::ParentDir,
        ),
        piece == seq![46u8] || piece.len() == 0 ==> components(a + seq![47u8] + piece)
            == components(a),
{
    let p = a + seq![47u8] + piece;
    lemma_components_of_longer(a, piece, 0);
    assert(p[0] == a[0]);
    lemma_classify(piece);
    let tail = match classify(piece, false) {
        Some(c) => seq![c],
        None => Seq::<Component>::empty(),
    };
    assert(components(p) =~= components(a) + tail);
}

proof fn lemma_classify(piece: Seq<u8>)
    requires
        is_one_piece(piece),
    ensures
        is_name(piece) ==> classify(piece, true) == Some(Component::Normal(piece)) && classify(
            piece,
            false,
        ) == Some(Component::Normal(piece)),
        piece.len() == 0 || is_name(piece) || piece == seq![46u8] || piece == seq![46u8, 46u8],
        classify(seq![46u8, 46u8], true) == Some(Component::ParentDir),
        classify(seq![46u8, 46u8], false) == Some(Component::ParentDir),
        classify(seq![46u8], true) == Some(Component::CurDir),
        classify(seq![46u8], false) is None,
{
    if piece.len() == 1 && piece[0] == 46 {
        assert(piece =~= seq![46u8]);
    }
    if piece.len() == 2 && piece[0] == 46 && piece[1] == 46 {
        assert(piece =~= seq![46u8, 46u8]);
    }
    assert(seq![46u8].len() == 1 && seq![46u8, 46u8].len() == 2);
}

/// A path of one piece has at most one component, and behind a leading separator that component
/// follows the root.
pub proof fn single_piece_is_component(piece: Seq<u8>)
    requires
        is_one_piece(piece),
    ensures
        is_name(piece) ==> components(piece) == seq![Component::Normal(piece)] && components(
            seq![47u8] + piece,
        ) == seq![Component::RootDir, Component::Normal(piece)],
        piece == seq![46u8, 46u8] ==> components(piece) == seq![Component::ParentDir]
            && components(seq![47u8] + piece) == seq![Component::RootDir, Component::ParentDir],
        piece == seq![46u8] ==> components(piece) == seq![Component::CurDir] && components(
            seq![47u8] + piece,
        ) == seq![Component::RootDir],
        piece.len() == 0 ==> components(piece) == Seq::<Component>::empty() && components(
            seq![47u8] + piece,
        ) == seq![Component::RootDir],
{
    assert(piece.skip(0) =~= piece);
    lemma_last_piece(piece, piece, 0);
    lemma_classify(piece);
    let p = seq![47u8] + piece;
    assert(p.skip(1) =~= piece);
    lemma_last_piece(p, piece, 1);
    assert(p[0] == 47);
    assert(piece_end(p, 0) == 0);
    assert(p.subrange(0, 0).len() == 0);
    assert(components_from(p, 0) == components_from(p, 1));
    if piece.len() == 0 {
        assert(components(piece) =~= Seq::<Component>::empty());
        assert(components(p) =~= seq![Component::RootDir]);
    } else if piece == seq![46u8] {
        assert(components(p) =~= seq![Component::RootDir]);
    } else if piece == seq![46u8, 46u8] {
        assert(components(p) =~= seq![Component::RootDir, Component::ParentDir]);
    } else {
        assert(components(p) =~= seq![Component::RootDir, Component::Normal(piece)]);
    }
}

/// The file name of a path is the name behind its last separator, or the whole path where that is
/// a name. A separator at the end, or a last `.`, makes no difference, and a path that ends in
/// `..` has no file name.
pub proof fn file_name_is_last_name(a: Seq<u8>, name: Seq<u8>)
    requires
        is_name(name),
    ensures
        file_name(name) == Some(name),
        file_name(seq![47u8] + name) == Some(name),
        a.len() > 0 ==> file_name(a + seq![47u8] + name) == Some(name),
        a.len() > 0 ==> file_name(a + seq![47u8]) == file_name(a),
        a.len() > 0 ==> file_name(a + seq![47u8, 46u8]) == file_name(a),
        a.len() > 0 ==> file_name(a + seq![47u8, 46u8, 46u8]) is None,
        file_name(Seq::empty()) is None,
        file_name(seq![47u8]) is None,
        file_name(seq![46u8]) is None,
        file_name(seq![46u8, 46u8]) is None,
{
    single_piece_is_component(name);
    single_piece_is_component(Seq::empty());
    single_piece_is_component(seq![46u8]);
    single_piece_is_component(seq![46u8, 46u8]);
    assert(seq![47u8] + Seq::<u8>::empty() =~= seq![47u8]);
    if a.len() > 0 {
        piece_adds_component(a, name);
        piece_adds_component(a, Seq::empty());
        piece_adds_component(a, seq![46u8]);
        piece_adds_component(a, seq![46u8, 46u8]);
        assert(a + seq![47u8] + Seq::<u8>::empty() =~= a + seq![47u8]);
        assert(a + seq![47u8] + seq![46u8] =~= a + seq![47u8, 46u8]);
        assert(a + seq![47u8] + seq![46u8, 46u8] =~= a + seq![47u8, 46u8, 46u8]);
    }
}

proof fn lemma_last_dot(name: Seq<u8>)
    ensures
        match last_dot(name) {
            Some(dot) => 0 <= dot < name.len() && name[dot] == 46 && forall|k: int|
                dot < k < name.len() ==> #[trigger] name[k] != 46,
            None => forall|k: int| 0 <= k < name.len() ==> #[trigger] name[k] != 46,
        },
    decreases name.len(),
{
    if name.len() > 0 && name.last() != 46 {
        lemma_last_dot(name.drop_last());
        assert forall|k: int| 0 <= k < name.len() - 1 implies name[k] == #[trigger] name.drop_last()[k] by {}
        match last_dot(name) {
            Some(dot) => {
                assert forall|k: int| dot < k < name.len() implies #[trigger] name[k] != 46 by {
                    if k < name.len() - 1 {
                        assert(name.drop_last()[k] != 46);
                    }
                }
            },
            None => {
                assert forall|k: int| 0 <= k < name.len() implies #[trigger] name[k] != 46 by {
                    if k < name.len() - 1 {
                        assert(name.drop_last()[k] != 46);
                    }
                }
            },
        }
    }
}

/// The extension of a path is what stands behind the last dot of its file name, as long as
/// something stands before that dot. A name without a dot has none.
pub proof fn extension_is_behind_last_dot(p: Seq<u8>, stem: Seq<u8>, ext: Seq<u8>)
    requires
        forall|k: int| 0 <= k < ext.len() ==> #[trigger] ext[k] != 46,
    ensures
        file_name(p) == Some(stem + seq![46u8] + ext) && stem.len() > 0 ==> extension(p) == Some(
            ext,
        ),
        file_name(p) == Some(seq![46u8] + ext) ==> extension(p) is None,
        file_name(p) == Some(ext) ==> extension(p) is None,
        file_name(p) is None ==> extension(p) is None,
{
    match file_name(p) {
        Some(name) => {
            lemma_last_dot(name);
            if name == stem + seq![46u8] + ext && stem.len() > 0 {
                assert(name[stem.len() as int] == 46);
                assert forall|k: int| stem.len() < k < name.len() implies #[trigger] name[k] != 46 by {
                    assert(name[k] == ext[k - stem.len() - 1]);
                }
                assert(last_dot(name) == Some(stem.len() as int));
                assert(name.skip(stem.len() as int + 1) =~= ext);
            }
            if name == seq![46u8] + ext {
                assert forall|k: int| 0 < k < name.len() implies #[trigger] name[k] != 46 by {
                    assert(name[k] == ext[k - 1]);
                }
                assert(name[0] == 46);
            }
        },
        None => {},
    }
}

/// Joining a name to a folder names the file of that name in it: the folder's components come
/// first, and the name is last. An absolute path stands for itself, whatever it is joined to.
pub proof fn joining_names_file_in_folder(base: Seq<u8>, name: Seq<u8>)
    ensures
        is_name(name) ==> components(joined(base, name)) == components(base).push(
            Component::Normal(name),
        ),
        is_name(name) ==> file_name(joined(base, name)) == Some(name),
        name.len() > 0 && name[0] == 47 ==> joined(base, name) == name,
{
    if is_name(name) {
        assert(name[0] != 47);
        single_piece_is_component(name);
        if base.len() == 0 {
            assert(joined(base, name) =~= name);
            single_piece_is_component(base);
            assert(seq![Component::Normal(name)] =~= components(base).push(
                Component::Normal(name),
            ));
        } else if base.last() == 47 {
            let a = base.drop_last();
            assert(base =~= a + seq![47u8]);
            if a.len() == 0 {
                assert(base =~= seq![47u8]);
                single_piece_is_component(Seq::empty());
                assert(seq![47u8] + Seq::<u8>::empty() =~= seq![47u8]);
                assert(components(joined(base, name)) =~= components(base).push(
                    Component::Normal(name),
                ));
            } else {
                piece_adds_component(a, name);
                piece_adds_component(a, Seq::empty());
                assert(a + seq![47u8] + Seq::<u8>::empty() =~= base);
                assert(joined(base, name) =~= a + seq![47u8] + name);
            }
        } else {
            piece_adds_component(base, name);
            assert(joined(base, name) =~= base + seq![47u8] + name);
        }
    }
}

/// Whether `a` comes before `b` as words do in a dictionary: at the first place where they
/// differ it has the lower byte, or it ends there.
pub open spec fn word_before(a: Seq<u8>, b: Seq<u8>) -> bool {
    exists|k: int|
        0 <= k <= a.len() && k < b.len() && #[trigger] a.take(k) == b.take(k) && (k == a.len()
            || a[k] < b[k])
}

proof fn lemma_name_less(a: Seq<u8>, b: Seq<u8>)
    ensures
        name_less(a, b) <==> word_before(a, b),
    decreases b.len(),
{
    if b.len() > 0 && a.len() > 0 && a[0] == b[0] {
        let c = a.drop_first();
        let d = b.drop_first();
        lemma_name_less(c, d);
        if word_before(c, d) {
            let k = choose|k: int|
                0 <= k <= c.len() && k < d.len() && #[trigger] c.take(k) == d.take(k) && (k
                    == c.len() || c[k] < d[k]);
            assert(a.take(k + 1) =~= seq![a[0]] + c.take(k));
            assert(b.take(k + 1) =~= seq![b[0]] + d.take(k));
        }
        if word_before(a, b) {
            let k = choose|k: int|
                0 <= k <= a.len() && k < b.len() && #[trigger] a.take(k) == b.take(k) && (k
                    == a.len() || a[k] < b[k]);
            assert(k > 0);
            assert(c.take(k - 1) =~= a.take(k).drop_first());
            assert(d.take(k - 1) =~= b.take(k).drop_first());
        }
    } else {
        if word_before(a, b) {
            let k = choose|k: int|
                0 <= k <= a.len() && k < b.len() && #[trigger] a.take(k) == b.take(k) && (k
                    == a.len() || a[k] < b[k]);
            if k > 0 {
                assert(a.take(k)[0] == b.take(k)[0]);
            }
        }
        if name_less(a, b) {
            assert(a.take(0) =~= b.take(0));
        }
    }
}

/// Whether one component comes before another: the root before `.`, that before `..`, that before
/// every name, and names as words do.
pub open spec fn step_before(a: Component, b: Component) -> bool {
    match (a, b) {
        (Component::Normal(m), Component::Normal(n)) => word_before(m, n),
        (Component::RootDir, Component::RootDir) => false,
        (Component::RootDir, _) => true,
        (Component::CurDir, Component::ParentDir) => true,
        (Component::CurDir, Component::Normal(_)) => true,
        (Component::ParentDir, Component::Normal(_)) => true,
        _ => false,
    }
}

/// Whether the path with the components `a` comes before the one with the components `b`: at the
/// first place where they differ its component comes first, or it ends there.
pub open spec fn steps_before(a: Seq<Component>, b: Seq<Component>) -> bool {
    exists|k: int|
        0 <= k <= a.len() && k < b.len() && #[trigger] a.take(k) == b.take(k) && (k == a.len() || (
        a[k] != b[k] && step_before(a[k], b[k])))
}

proof fn lemma_components_less(a: Seq<Component>, b: Seq<Component>)
    ensures
        components_less(a, b) <==> steps_before(a, b),
    decreases b.len(),
{
    if b.len() > 0 && a.len() > 0 && a[0] == b[0] {
        let c = a.drop_first();
        let d = b.drop_first();
        lemma_components_less(c, d);
        if steps_before(c, d) {
            let k = choose|k: int|
                0 <= k <= c.len() && k < d.len() && #[trigger] c.take(k) == d.take(k) && (k
                    == c.len() || (c[k] != d[k] && step_before(c[k], d[k])));
            assert(a.take(k + 1) =~= seq![a[0]] + c.take(k));
            assert(b.take(k + 1) =~= seq![b[0]] + d.take(k));
        }
        if steps_before(a, b) {
            let k = choose|k: int|
                0 <= k <= a.len() && k < b.len() && #[trigger] a.take(k) == b.take(k) && (k
                    == a.len() || (a[k] != b[k] && step_before(a[k], b[k])));
            assert(k > 0);
            assert(c.take(k - 1) =~= a.take(k).drop_first());
            assert(d.take(k - 1) =~= b.take(k).drop_first());
        }
    } else {
        if a.len() > 0 && b.len() > 0 {
            lemma_component_less(a[0], b[0]);
        }
        if steps_before(a, b) {
            let k = choose|k: int|
                0 <= k <= a.len() && k < b.len() && #[trigger] a.take(k) == b.take(k) && (k
                    == a.len() || (a[k] != b[k] && step_before(a[k], b[k])));
            if k > 0 {
                assert(a.take(k)[0] == b.take(k)[0]);
            }
        }
        if components_less(a, b) {
            assert(a.take(0) =~= b.take(0));
        }
    }
}

proof fn lemma_component_less(a: Component, b: Component)
    requires
        a != b,
    ensures
        component_less(a, b) <==> step_before(a, b),
{
    match (a, b) {
        (Component::Normal(m), Component::Normal(n)) => {
            lemma_name_less(m, n);
        },
        _ => {},
    }
}

/// Paths compare component by component, from the left, and two paths are one exactly where
/// their components are the same.
pub proof fn paths_compare_by_components(a: Seq<u8>, b: Seq<u8>)
    ensures
        key_less(path_key(a), path_key(b)) <==> steps_before(components(a), components(b)),
        path_key(a) == path_key(b) <==> components(a) == components(b),
{
    path_keys_tell_paths_apart(a, b);
    lemma_components_less(components(a), components(b));
}

} // verus!

//! Sort keys of paths: two paths name the same place exactly when their keys are equal, and the
//! keys compare as the paths do.

use crate::path::{classify, components, components_from, Component, MediaPath, DOT, SEPARATOR};
use vstd::prelude::*;

verus! {

/// The key of one component: its kind, and for a name its bytes, moved above the kinds.
pub open spec fn component_key(c: Component) -> Seq<u16> {
    match c {
        Component::RootDir => seq![1u16],
        Component::CurDir => seq![2u16],
        Component::ParentDir => seq![3u16],
        Component::Normal(name) => seq![4u16] + name.map_values(|b: u8| (b + 5) as u16),
    }
}

/// The keys of all components in a row.
pub open spec fn components_key(parts: Seq<Component>) -> Seq<u16>
    decreases parts.len(),
{
    if parts.len() == 0 {
        Seq::empty()
    } else {
        component_key(parts[0]) + components_key(parts.drop_first())
    }
}

/// The key of a path.
pub open spec fn path_key(p: Seq<u8>) -> Seq<u16> {
    components_key(components(p))
}

/// Whether `a` comes before `b` in dictionary order.
pub open spec fn key_less(a: Seq<u16>, b: Seq<u16>) -> bool
    decreases b.len(),
{
    if b.len() == 0 {
        false
    } else if a.len() == 0 {
        true
    } else if a[0] != b[0] {
        a[0] < b[0]
    } else {
        key_less(a.drop_first(), b.drop_first())
    }
}

/// Whether name `a` comes before name `b` in dictionary order.
pub open spec fn name_less(a: Seq<u8>, b: Seq<u8>) -> bool
    decreases b.len(),
{
    if b.len() == 0 {
        false
    } else if a.len() == 0 {
        true
    } else if a[0] != b[0] {
        a[0] < b[0]
    } else {
        name_less(a.drop_first(), b.drop_first())
    }
}

/// Whether component `a` comes before component `b`: the root first, then `.`, then `..`, then
/// the names in dictionary order.
pub open spec fn component_less(a: Component, b: Component) -> bool {
    match (a, b) {
        (Component::Normal(m), Component::Normal(n)) => name_less(m, n),
        _ => component_key(a)[0] < component_key(b)[0],
    }
}

/// Whether the path with components `a` comes before the one with components `b`: the first
/// components in which they differ decide, and a path comes before the longer ones it starts.
pub open spec fn components_less(a: Seq<Component>, b: Seq<Component>) -> bool
    decreases b.len(),
{
    if b.len() == 0 {
        false
    } else if a.len() == 0 {
        true
    } else if a[0] != b[0] {
        component_less(a[0], b[0])
    } else {
        components_less(a.drop_first(), b.drop_first())
    }
}

/// A key that starts with a kind, or is empty.
spec fn starts_with_kind(k: Seq<u16>) -> bool {
    k.len() == 0 || k[0] <= 4
}

proof fn lemma_components_key_starts_with_kind(parts: Seq<Component>)
    ensures
        starts_with_kind(components_key(parts)),
{
    if parts.len() > 0 {
        assert((component_key(parts[0]) + components_key(parts.drop_first()))[0] == component_key(
            parts[0],
        )[0]);
    }
}

proof fn lemma_components_key_push(parts: Seq<Component>, c: Component)
    ensures
        components_key(parts.push(c)) == components_key(parts) + component_key(c),
    decreases parts.len(),
{
    if parts.len() == 0 {
        reveal_with_fuel(components_key, 2);
        assert(parts.push(c).drop_first() =~= Seq::empty());
        assert(components_key(parts.push(c)) =~= component_key(c));
        assert(components_key(parts) + component_key(c) =~= component_key(c));
    } else {
        lemma_components_key_push(parts.drop_first(), c);
        assert(parts.push(c).drop_first() =~= parts.drop_first().push(c));
        assert(components_key(parts.push(c)) =~= components_key(parts) + component_key(c));
    }
}

/// Two names in front of two keys that start with kinds: the names decide when they differ.
proof fn lemma_names_decide(m: Seq<u8>, n: Seq<u8>, k: Seq<u16>, l: Seq<u16>)
    requires
        starts_with_kind(k),
        starts_with_kind(l),
    ensures
        m != n ==> {
            &&& key_less(
                m.map_values(|b: u8| (b + 5) as u16) + k,
                n.map_values(|b: u8| (b + 5) as u16) + l,
            ) == name_less(m, n)
            &&& m.map_values(|b: u8| (b + 5) as u16) + k != n.map_values(|b: u8| (b + 5) as u16) + l
        },
        m == n ==> {
            &&& key_less(
                m.map_values(|b: u8| (b + 5) as u16) + k,
                n.map_values(|b: u8| (b + 5) as u16) + l,
            ) == key_less(k, l)
            &&& (m.map_values(|b: u8| (b + 5) as u16) + k == n.map_values(
                |b: u8| (b + 5) as u16,
            ) + l) == (k == l)
        },
    decreases m.len(),
{
    let km = m.map_values(|b: u8| (b + 5) as u16);
    let kn = n.map_values(|b: u8| (b + 5) as u16);
    let a = km + k;
    let b = kn + l;
    if m.len() == 0 {
        assert(a =~= k);
        if n.len() == 0 {
            assert(m =~= n);
            assert(b =~= l);
        } else {
            assert(b[0] == (n[0] + 5) as u16);
        }
    } else if n.len() == 0 {
        assert(b =~= l);
        assert(a[0] == (m[0] + 5) as u16);
    } else {
        assert(a[0] == (m[0] + 5) as u16);
        assert(b[0] == (n[0] + 5) as u16);
        if m[0] == n[0] {
            lemma_names_decide(m.drop_first(), n.drop_first(), k, l);
            assert(a.drop_first() =~= m.drop_first().map_values(|b: u8| (b + 5) as u16) + k);
            assert(b.drop_first() =~= n.drop_first().map_values(|b: u8| (b + 5) as u16) + l);
            assert((m.drop_first() == n.drop_first()) == (m == n)) by {
                assert(m =~= seq![m[0]] + m.drop_first());
                assert(n =~= seq![n[0]] + n.drop_first());
            }
            assert((a.drop_first() == b.drop_first()) == (a == b)) by {
                assert(a =~= seq![a[0]] + a.drop_first());
                assert(b =~= seq![b[0]] + b.drop_first());
            }
        }
    }
}

/// Comparing the keys of two component lists is comparing the lists.
pub proof fn key_order_is_component_order(a: Seq<Component>, b: Seq<Component>)
    ensures
        components_key(a) == components_key(b) <==> a == b,
        key_less(components_key(a), components_key(b)) == components_less(a, b),
    decreases a.len(),
{
    let ka = components_key(a);
    let kb = components_key(b);
    if a.len() == 0 {
        if b.len() == 0 {
            assert(a =~= b);
        } else {
            assert(kb.len() > 0);
        }
    } else if b.len() == 0 {
        assert(ka.len() > 0);
    } else {
        let ra = components_key(a.drop_first());
        let rb = components_key(b.drop_first());
        lemma_components_key_starts_with_kind(a.drop_first());
        lemma_components_key_starts_with_kind(b.drop_first());
        key_order_is_component_order(a.drop_first(), b.drop_first());
        assert(a == b <==> (a[0] == b[0] && a.drop_first() == b.drop_first())) by {
            assert(a =~= seq![a[0]] + a.drop_first());
            assert(b =~= seq![b[0]] + b.drop_first());
        }
        assert(ka[0] == component_key(a[0])[0]);
        assert(kb[0] == component_key(b[0])[0]);
        assert(ka == kb <==> (ka[0] == kb[0] && ka.drop_first() == kb.drop_first())) by {
            assert(ka =~= seq![ka[0]] + ka.drop_first());
            assert(kb =~= seq![kb[0]] + kb.drop_first());
        }
        match (a[0], b[0]) {
            (Component::Normal(m), Component::Normal(n)) => {
                lemma_names_decide(m, n, ra, rb);
                assert(ka.drop_first() =~= m.map_values(|b: u8| (b + 5) as u16) + ra);
                assert(kb.drop_first() =~= n.map_values(|b: u8| (b + 5) as u16) + rb);
            },
            _ => {
                if ka[0] == kb[0] {
                    assert(ka.drop_first() =~= ra);
                    assert(kb.drop_first() =~= rb);
                }
            },
        }
    }
}

/// Keys are equal exactly where the paths have the same components, and they compare as the
/// components do.
pub proof fn path_keys_tell_paths_apart(a: Seq<u8>, b: Seq<u8>)
    ensures
        path_key(a) == path_key(b) <==> components(a) == components(b),
        key_less(path_key(a), path_key(b)) == components_less(components(a), components(b)),
{
    key_order_is_component_order(components(a), components(b));
}

/// No key comes before itself.
pub proof fn key_less_irreflexive(a: Seq<u16>)
    ensures
        !key_less(a, a),
    decreases a.len(),
{
    if a.len() > 0 {
        key_less_irreflexive(a.drop_first());
    }
}

/// Of two different keys one comes before the other, and only one.
pub proof fn key_less_total(a: Seq<u16>, b: Seq<u16>)
    ensures
        a != b <==> key_less(a, b) || key_less(b, a),
        !(key_less(a, b) && key_less(b, a)),
    decreases a.len(),
{
    if a.len() == 0 && b.len() == 0 {
        assert(a =~= b);
    } else if a.len() > 0 && b.len() > 0 && a[0] == b[0] {
        key_less_total(a.drop_first(), b.drop_first());
        assert(a == b <==> a.drop_first() == b.drop_first()) by {
            assert(a =~= seq![a[0]] + a.drop_first());
            assert(b =~= seq![b[0]] + b.drop_first());
        }
    }
}

/// The order of keys is transitive.
pub proof fn key_less_transitive(a: Seq<u16>, b: Seq<u16>, c: Seq<u16>)
    requires
        key_less(a, b),
        key_less(b, c),
    ensures
        key_less(a, c),
    decreases a.len(),
{
    if a.len() > 0 && a[0] == b[0] && b[0] == c[0] {
        key_less_transitive(a.drop_first(), b.drop_first(), c.drop_first());
    }
}

/// Whether the key `a` comes before the key `b`.
pub fn compare_keys(a: &[u16], b: &[u16]) -> (less: bool)
    ensures
        less == key_less(a@, b@),
{
    let mut i: usize = 0;
    assert(a@.skip(0) =~= a@);
    assert(b@.skip(0) =~= b@);
    while i < a.len() && i < b.len()
        invariant
            i <= a.len(),
            i <= b.len(),
            key_less(a@, b@) == key_less(a@.skip(i as int), b@.skip(i as int)),
        decreases a.len() - i,
    {
        assert(a@.skip(i as int).drop_first() =~= a@.skip(i + 1));
        assert(b@.skip(i as int).drop_first() =~= b@.skip(i + 1));
        if a[i] != b[i] {
            return a[i] < b[i];
        }
        i += 1;
    }
    i < b.len()
}

/// Whether two keys are the same.
pub fn same_key(a: &[u16], b: &[u16]) -> (same: bool)
    ensures
        same == (a@ == b@),
{
    if a.len() != b.len() {
        return false;
    }
    let mut i: usize = 0;
    while i < a.len()
        invariant
            a.len() == b.len(),
            i <= a.len(),
            forall|k: int| 0 <= k < i ==> a@[k] == b@[k],
        decreases a.len() - i,
    {
        if a[i] != b[i] {
            return false;
        }
        i += 1;
    }
    assert(a@ =~= b@);
    true
}

fn push_name(key: &mut Vec<u16>, p: &[u8], from: usize, to: usize)
    requires
        from <= to <= p.len(),
    ensures
        final(key)@ == old(key)@ + component_key(
            Component::Normal(p@.subrange(from as int, to as int)),
        ),
{
    key.push(4u16);
    let mut i: usize = from;
    while i < to
        invariant
            from <= i <= to <= p.len(),
            key@ == old(key)@.push(4u16) + p@.subrange(from as int, i as int).map_values(
                |b: u8| (b + 5) as u16,
            ),
        decreases to - i,
    {
        key.push(p[i] as u16 + 5u16);
        i += 1;
        assert(key@ =~= old(key)@.push(4u16) + p@.subrange(from as int, i as int).map_values(
            |b: u8| (b + 5) as u16,
        ));
    }
    assert(key@ =~= old(key)@ + component_key(
        Component::Normal(p@.subrange(from as int, to as int)),
    ));
}

impl MediaPath {
    /// The key of the path.
    pub fn key(&self) -> (key: Vec<u16>)
        ensures
            key@ == path_key(self@),
    {
        let p = self.bytes.as_slice();
        let mut key: Vec<u16> = Vec::new();
        let ghost mut seen: Seq<Component> = Seq::empty();
        if p.len() > 0 && p[0] == SEPARATOR {
            key.push(1u16);
            proof {
                lemma_components_key_push(seen, Component::RootDir);
                seen = seen.push(Component::RootDir);
                assert(key@ =~= components_key(seen));
            }
        }
        assert(components(p@) =~= seen + components_from(p@, 0));
        let mut i: usize = 0;
        while i < p.len()
            invariant
                components(p@) == seen + components_from(p@, i as int),
                key@ == components_key(seen),
            decreases p.len() - i,
        {
            let end = crate::path::find_piece_end(p, i);
            let ghost piece = p@.subrange(i as int, end as int);
            let len: usize = end - i;
            let is_dot = len == 1 && p[i] == DOT;
            let is_dots = len == 2 && p[i] == DOT && p[i + 1] == DOT;
            proof {
                if is_dot {
                    assert(piece =~= seq![DOT]);
                }
                if is_dots {
                    assert(piece =~= seq![DOT, DOT]);
                }
                if piece == seq![DOT] {
                    assert(piece[0] == DOT);
                }
                if piece == seq![DOT, DOT] {
                    assert(piece[0] == DOT && piece[1] == DOT);
                }
                match classify(piece, i == 0) {
                    Some(c) => {
                        assert(seen + (seq![c] + components_from(p@, end + 1)) =~= seen.push(c)
                            + components_from(p@, end + 1));
                        lemma_components_key_push(seen, c);
                        seen = seen.push(c);
                    },
                    None => {},
                }
            }
            if len > 0 {
                if is_dot {
                    if i == 0 {
                        key.push(2u16);
                    }
                } else if is_dots {
                    key.push(3u16);
                } else {
                    push_name(&mut key, p, i, end);
                }
            }
            assert(key@ =~= components_key(seen));
            if end == p.len() {
                assert(components_from(p@, end + 1) =~= Seq::empty());
                assert(components_from(p@, end as int) =~= Seq::empty());
                i = end;
            } else {
                i = end + 1;
            }
        }
        assert(components(p@) =~= seen);
        key
    }
}

} // verus!

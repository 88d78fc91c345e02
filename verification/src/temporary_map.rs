//! A map whose entries expire when they go unused for a number of frames.
//!
//! Every entry remembers the frame in which it was last inserted or read.
//! The map keeps one list per frame slot; advancing to a new frame empties
//! the slot that is about to be reused and hands back the values it held,
//! so an entry lives for `N` frames after its last use.
use vstd::prelude::*;
use std::collections::HashMap;
use std::hash::Hash;
use vstd::std_specs::hash::obeys_key_model;
use crate::intrusive_linked_list::{IntrusiveLinkedList, Node, NodeHandle};

verus! {

broadcast use vstd::std_specs::hash::group_hash_axioms;

/// A stored entry: its key, its value and the frame of its last use.
pub struct Entry<K, V> {
    key: K,
    value: V,
    frame: usize,
}

/// `keys` with the occurrence of `k` taken out.
pub open spec fn without_key<K>(keys: Seq<K>, k: K) -> Seq<K> {
    keys.remove(keys.index_of(k))
}

/// The frame whose key list holds `k`.
pub open spec fn frame_holding<K>(frames: Seq<Seq<K>>, k: K) -> int {
    choose|f: int| 0 <= f < frames.len() && frames[f].contains(k)
}

/// The per-frame key lists after `k` is used in frame `current`: it leaves
/// the list it was in and goes to the end of the current frame's list,
/// unless it already belongs to the current frame.
pub open spec fn touch_frames<K>(frames: Seq<Seq<K>>, current: int, k: K) -> Seq<Seq<K>> {
    let f = frame_holding(frames, k);
    if f == current {
        frames
    } else {
        frames.update(f, without_key(frames[f], k)).update(current, frames[current].push(k))
    }
}

/// The frame that follows `current` among `n` frame slots.
pub open spec fn next_frame(current: int, n: int) -> int {
    (current + 1) % n
}

/// The values whose entries expire when the frame after `current` begins:
/// those last used in that frame slot, oldest use first.
pub open spec fn expired_values<K, V>(
    entries: Map<K, V>,
    frames: Seq<Seq<K>>,
    current: int,
    n: int,
) -> Seq<V> {
    frames[next_frame(current, n)].map_values(|k: K| entries[k])
}

/// The entries that remain once the frame after `current` begins.
pub open spec fn advanced_entries<K, V>(
    entries: Map<K, V>,
    frames: Seq<Seq<K>>,
    current: int,
    n: int,
) -> Map<K, V> {
    entries.remove_keys(frames[next_frame(current, n)].to_set())
}

/// The per-frame key lists once the frame after `current` begins: the
/// reused slot starts empty.
pub open spec fn advanced_frames<K>(frames: Seq<Seq<K>>, current: int, n: int) -> Seq<Seq<K>> {
    frames.update(next_frame(current, n), Seq::<K>::empty())
}

/// Every key of `entries` sits in exactly one frame list, once.
pub open spec fn frames_partition<K, V>(entries: Map<K, V>, frames: Seq<Seq<K>>) -> bool {
    &&& forall|f: int| 0 <= f < frames.len() ==> (#[trigger] frames[f]).no_duplicates()
    &&& forall|f: int, g: int, i: int, j: int|
        0 <= f < frames.len() && 0 <= g < frames.len() && f != g && 0 <= i < frames[f].len() && 0
            <= j < frames[g].len() ==> #[trigger] frames[f][i] != #[trigger] frames[g][j]
    &&& forall|k: K|
        #[trigger] entries.contains_key(k) <==> exists|f: int|
            0 <= f < frames.len() && (#[trigger] frames[f]).contains(k)
}

type Lists<K, V> = Seq<IntrusiveLinkedList<Entry<K, V>>>;

/// Position `i` of frame list `f` holds an entry stamped with frame `f`
/// whose key the index sends back to that very node.
spec fn entry_ok<K, V>(m: Map<K, (usize, NodeHandle)>, lists: Lists<K, V>, f: int, i: int) -> bool {
    let e = lists[f]@[i];
    &&& e.frame == f
    &&& m.contains_key(e.key)
    &&& m[e.key] == (f as usize, lists[f].handles()[i])
}

/// The index sends key `k` to a live node of a valid frame list, and that node holds `k`.
spec fn key_ok<K, V>(m: Map<K, (usize, NodeHandle)>, lists: Lists<K, V>, n: int, k: K) -> bool {
    let (f, h) = m[k];
    &&& f < n
    &&& lists[f as int].contains_handle(h)
    &&& lists[f as int]@[lists[f as int].handles().index_of(h)].key == k
}

/// The value the index reaches for key `k`.
spec fn value_of<K, V>(m: Map<K, (usize, NodeHandle)>, lists: Lists<K, V>, k: K) -> V {
    let (f, h) = m[k];
    lists[f as int]@[lists[f as int].handles().index_of(h)].value
}

/// Moving the entry of `key` from position `i` of list `f` to the end of
/// list `cur`, and pointing the index at its new node, keeps every entry and
/// key consistent and every value in place.
proof fn lemma_touch<K, V>(
    m0: Map<K, (usize, NodeHandle)>,
    l0: Lists<K, V>,
    m1: Map<K, (usize, NodeHandle)>,
    l1: Lists<K, V>,
    n: int,
    cur: int,
    key: K,
    f: int,
    i: int,
    nh: NodeHandle,
)
    requires
        l0.len() == n,
        0 <= cur < n <= usize::MAX,
        0 <= f < n,
        f != cur,
        forall|g: int| 0 <= g < n ==> (#[trigger] l0[g]).wf(),
        forall|g: int, j: int| 0 <= g < n && 0 <= j < l0[g]@.len() ==> #[trigger] entry_ok(m0, l0, g, j),
        forall|k: K| #[trigger] m0.contains_key(k) ==> key_ok(m0, l0, n, k),
        0 <= i < l0[f]@.len(),
        m0.contains_key(key),
        m0[key] == (f as usize, l0[f].handles()[i]),
        l1.len() == n,
        forall|g: int| 0 <= g < n && g != f && g != cur ==> #[trigger] l1[g] == l0[g],
        l1[f].wf(),
        l1[f]@ == l0[f]@.remove(i),
        l1[f].handles() == l0[f].handles().remove(i),
        l1[cur].wf(),
        l1[cur]@ == l0[cur]@.push(Entry { key, value: l0[f]@[i].value, frame: cur as usize }),
        l1[cur].handles() == l0[cur].handles().push(nh),
        m1 == m0.insert(key, (cur as usize, nh)),
    ensures
        forall|g: int| 0 <= g < n ==> (#[trigger] l1[g]).wf(),
        forall|g: int, j: int| 0 <= g < n && 0 <= j < l1[g]@.len() ==> #[trigger] entry_ok(m1, l1, g, j),
        forall|k: K| #[trigger] m1.contains_key(k) ==> key_ok(m1, l1, n, k),
        forall|k: K| #[trigger] m0.contains_key(k) ==> value_of(m1, l1, k) == value_of(m0, l0, k),
{
    l0[f].lemma_handle_positions();
    l0[cur].lemma_handle_positions();
    l1[f].lemma_handle_positions();
    l1[cur].lemma_handle_positions();
    let h = l0[f].handles()[i];
    let oldc = l0[cur]@.len() as int;
    assert(entry_ok(m0, l0, f, i));
    assert forall|g: int| 0 <= g < n implies (#[trigger] l1[g]).wf() by {
        if g != f && g != cur {
            assert(l1[g] == l0[g]);
        }
    }
    assert forall|g: int, j: int| 0 <= g < n && 0 <= j < l1[g]@.len() implies #[trigger] entry_ok(
        m1,
        l1,
        g,
        j,
    ) by {
        if g == f {
            let oj = if j < i {
                j
            } else {
                j + 1
            };
            assert(l1[f]@[j] == l0[f]@[oj]);
            assert(l1[f].handles()[j] == l0[f].handles()[oj]);
            assert(entry_ok(m0, l0, f, oj));
            assert(l0[f].handles()[oj] != l0[f].handles()[i]);
            assert(l0[f]@[oj].key != key);
            assert(m1[l0[f]@[oj].key] == m0[l0[f]@[oj].key]);
            assert(entry_ok(m1, l1, g, j));
        } else if g == cur {
            if j < oldc {
                assert(l1[cur]@[j] == l0[cur]@[j]);
                assert(l1[cur].handles()[j] == l0[cur].handles()[j]);
                assert(entry_ok(m0, l0, cur, j));
                assert(l0[cur]@[j].key != key);
                assert(entry_ok(m1, l1, g, j));
            } else {
                assert(j == oldc);
                assert(l1[cur].handles()[j] == nh);
                assert(l1[cur]@[j].key == key);
                assert(l1[cur]@[j].frame == cur as usize);
                assert(entry_ok(m1, l1, g, j));
            }
        } else {
            assert(l1[g] == l0[g]);
            assert(entry_ok(m0, l0, g, j));
            assert(l0[g]@[j].key != key);
            assert(entry_ok(m1, l1, g, j));
        }
    }
    assert forall|k: K| #[trigger] m1.contains_key(k) implies key_ok(m1, l1, n, k) && (m0.contains_key(k)
        ==> value_of(m1, l1, k) == value_of(m0, l0, k)) by {
        if k == key {
            assert(l1[cur].handles()[oldc] == nh);
            assert(l1[cur].handles().index_of(nh) == oldc);
            assert(l1[cur].handles().contains(nh));
            assert(key_ok(m0, l0, n, key));
            assert(l0[f].handles().index_of(h) == i);
            assert(key_ok(m1, l1, n, k));
            assert(value_of(m1, l1, k) == value_of(m0, l0, k));
        } else {
            assert(m0.contains_key(k));
            assert(key_ok(m0, l0, n, k));
            let (g, hk) = m0[k];
            let gi = g as int;
            let p = l0[gi].handles().index_of(hk);
            assert(l0[gi].handles().contains(hk));
            assert(0 <= p < l0[gi].handles().len() && l0[gi].handles()[p] == hk);
            if gi == f {
                if p == i {
                    assert(key_ok(m0, l0, n, key));
                    assert(l0[f].handles().index_of(h) == i);
                }
                let np = if p < i {
                    p
                } else {
                    p - 1
                };
                assert(l1[f].handles()[np] == hk);
                assert(l1[f].handles().index_of(hk) == np);
                assert(l1[f].handles().contains(hk));
                assert(l1[f]@[np] == l0[f]@[p]);
            } else if gi == cur {
                assert(l1[cur].handles()[p] == hk);
                assert(l1[cur].handles().index_of(hk) == p);
                assert(l1[cur].handles().contains(hk));
                assert(l1[cur]@[p] == l0[cur]@[p]);
            } else {
                assert(l1[gi] == l0[gi]);
            }
            assert(key_ok(m1, l1, n, k));
            assert(value_of(m1, l1, k) == value_of(m0, l0, k));
        }
    }
    assert forall|k: K| #[trigger] m0.contains_key(k) implies value_of(m1, l1, k) == value_of(m0, l0, k) by {
        assert(m1.contains_key(k));
    }
}

/// Taking the first entry out of list `c` and its key out of the index
/// keeps every other entry and key consistent, with its value.
proof fn lemma_pop_first<K, V>(
    m0: Map<K, (usize, NodeHandle)>,
    l0: Lists<K, V>,
    m1: Map<K, (usize, NodeHandle)>,
    l1: Lists<K, V>,
    n: int,
    c: int,
    key: K,
)
    requires
        l0.len() == n,
        0 <= c < n,
        forall|g: int| 0 <= g < n ==> (#[trigger] l0[g]).wf(),
        forall|g: int, j: int| 0 <= g < n && 0 <= j < l0[g]@.len() ==> #[trigger] entry_ok(m0, l0, g, j),
        forall|k: K| #[trigger] m0.contains_key(k) ==> key_ok(m0, l0, n, k),
        l0[c]@.len() > 0,
        l0[c]@[0].key == key,
        l1.len() == n,
        forall|g: int| 0 <= g < n && g != c ==> #[trigger] l1[g] == l0[g],
        l1[c].wf(),
        l1[c]@ == l0[c]@.remove(0),
        l1[c].handles() == l0[c].handles().remove(0),
        m1 == m0.remove(key),
    ensures
        forall|g: int| 0 <= g < n ==> (#[trigger] l1[g]).wf(),
        forall|g: int, j: int| 0 <= g < n && 0 <= j < l1[g]@.len() ==> #[trigger] entry_ok(m1, l1, g, j),
        forall|k: K| #[trigger] m1.contains_key(k) ==> key_ok(m1, l1, n, k),
        forall|k: K| #[trigger] m1.contains_key(k) ==> value_of(m1, l1, k) == value_of(m0, l0, k),
        m0.contains_key(key),
        value_of(m0, l0, key) == l0[c]@[0].value,
{
    l0[c].lemma_handle_positions();
    l1[c].lemma_handle_positions();
    let h = l0[c].handles()[0];
    assert(entry_ok(m0, l0, c, 0));
    assert(key_ok(m0, l0, n, key));
    assert(l0[c].handles().index_of(h) == 0);
    assert forall|g: int| 0 <= g < n implies (#[trigger] l1[g]).wf() by {
        if g != c {
            assert(l1[g] == l0[g]);
        }
    }
    assert forall|g: int, j: int| 0 <= g < n && 0 <= j < l1[g]@.len() implies #[trigger] entry_ok(m1, l1, g, j) by {
        if g == c {
            assert(l1[c]@[j] == l0[c]@[j + 1]);
            assert(l1[c].handles()[j] == l0[c].handles()[j + 1]);
            assert(entry_ok(m0, l0, c, j + 1));
            assert(l0[c].handles()[j + 1] != l0[c].handles()[0]);
            assert(l0[c]@[j + 1].key != key);
        } else {
            assert(l1[g] == l0[g]);
            assert(entry_ok(m0, l0, g, j));
            if l0[g]@[j].key == key {
                assert(m0[key].0 == g as usize);
            }
        }
    }
    assert forall|k: K| #[trigger] m1.contains_key(k) implies key_ok(m1, l1, n, k) && value_of(m1, l1, k)
        == value_of(m0, l0, k) by {
        assert(m0.contains_key(k) && k != key);
        assert(key_ok(m0, l0, n, k));
        let (g, hk) = m0[k];
        let gi = g as int;
        let p = l0[gi].handles().index_of(hk);
        assert(l0[gi].handles().contains(hk));
        assert(0 <= p < l0[gi].handles().len() && l0[gi].handles()[p] == hk);
        if gi == c {
            assert(p != 0);
            assert(l1[c].handles()[p - 1] == hk);
            assert(l1[c].handles().index_of(hk) == p - 1);
            assert(l1[c].handles().contains(hk));
            assert(l1[c]@[p - 1] == l0[c]@[p]);
        } else {
            assert(l1[gi] == l0[gi]);
        }
    }
}

/// Appending a fresh entry for a key the index lacks, at the end of list
/// `cur`, and indexing it, keeps every entry and key consistent.
proof fn lemma_insert_new<K, V>(
    m0: Map<K, (usize, NodeHandle)>,
    l0: Lists<K, V>,
    m1: Map<K, (usize, NodeHandle)>,
    l1: Lists<K, V>,
    n: int,
    cur: int,
    key: K,
    value: V,
    nh: NodeHandle,
)
    requires
        l0.len() == n,
        0 <= cur < n <= usize::MAX,
        forall|g: int| 0 <= g < n ==> (#[trigger] l0[g]).wf(),
        forall|g: int, j: int| 0 <= g < n && 0 <= j < l0[g]@.len() ==> #[trigger] entry_ok(m0, l0, g, j),
        forall|k: K| #[trigger] m0.contains_key(k) ==> key_ok(m0, l0, n, k),
        !m0.contains_key(key),
        l1.len() == n,
        forall|g: int| 0 <= g < n && g != cur ==> #[trigger] l1[g] == l0[g],
        l1[cur].wf(),
        l1[cur]@ == l0[cur]@.push(Entry { key, value, frame: cur as usize }),
        l1[cur].handles() == l0[cur].handles().push(nh),
        m1 == m0.insert(key, (cur as usize, nh)),
    ensures
        forall|g: int| 0 <= g < n ==> (#[trigger] l1[g]).wf(),
        forall|g: int, j: int| 0 <= g < n && 0 <= j < l1[g]@.len() ==> #[trigger] entry_ok(m1, l1, g, j),
        forall|k: K| #[trigger] m1.contains_key(k) ==> key_ok(m1, l1, n, k),
        forall|k: K| #[trigger] m0.contains_key(k) ==> value_of(m1, l1, k) == value_of(m0, l0, k),
        value_of(m1, l1, key) == value,
{
    l0[cur].lemma_handle_positions();
    l1[cur].lemma_handle_positions();
    let oldc = l0[cur]@.len() as int;
    assert forall|g: int| 0 <= g < n implies (#[trigger] l1[g]).wf() by {
        if g != cur {
            assert(l1[g] == l0[g]);
        }
    }
    assert forall|g: int, j: int| 0 <= g < n && 0 <= j < l1[g]@.len() implies #[trigger] entry_ok(
        m1,
        l1,
        g,
        j,
    ) by {
        if g == cur && j == oldc {
            assert(l1[cur].handles()[j] == nh);
        } else {
            if g == cur {
                assert(l1[cur]@[j] == l0[cur]@[j]);
                assert(l1[cur].handles()[j] == l0[cur].handles()[j]);
            } else {
                assert(l1[g] == l0[g]);
            }
            assert(entry_ok(m0, l0, g, j));
            assert(l0[g]@[j].key != key);
        }
    }
    assert forall|k: K| #[trigger] m1.contains_key(k) implies key_ok(m1, l1, n, k) && (m0.contains_key(k)
        ==> value_of(m1, l1, k) == value_of(m0, l0, k)) by {
        if k == key {
            assert(l1[cur].handles()[oldc] == nh);
            assert(l1[cur].handles().index_of(nh) == oldc);
            assert(l1[cur].handles().contains(nh));
        } else {
            assert(key_ok(m0, l0, n, k));
            let (g, hk) = m0[k];
            let gi = g as int;
            let p = l0[gi].handles().index_of(hk);
            assert(l0[gi].handles().contains(hk));
            assert(0 <= p < l0[gi].handles().len() && l0[gi].handles()[p] == hk);
            if gi == cur {
                assert(l1[cur].handles()[p] == hk);
                assert(l1[cur].handles().index_of(hk) == p);
                assert(l1[cur].handles().contains(hk));
                assert(l1[cur]@[p] == l0[cur]@[p]);
            } else {
                assert(l1[gi] == l0[gi]);
            }
        }
    }
    assert forall|k: K| #[trigger] m0.contains_key(k) implies value_of(m1, l1, k) == value_of(m0, l0, k) by {
        assert(m1.contains_key(k));
    }
    assert(m1.contains_key(key));
    assert(l1[cur].handles()[oldc] == nh);
    assert(l1[cur].handles().index_of(nh) == oldc);
}

/// Overwriting the value of the entry at position `p` of list `cur` keeps
/// every entry and key consistent and changes only that key's value.
proof fn lemma_set_value<K, V>(
    m: Map<K, (usize, NodeHandle)>,
    l0: Lists<K, V>,
    l1: Lists<K, V>,
    n: int,
    cur: int,
    p: int,
    value: V,
)
    requires
        l0.len() == n,
        0 <= cur < n,
        forall|g: int| 0 <= g < n ==> (#[trigger] l0[g]).wf(),
        forall|g: int, j: int| 0 <= g < n && 0 <= j < l0[g]@.len() ==> #[trigger] entry_ok(m, l0, g, j),
        forall|k: K| #[trigger] m.contains_key(k) ==> key_ok(m, l0, n, k),
        0 <= p < l0[cur]@.len(),
        l1.len() == n,
        forall|g: int| 0 <= g < n && g != cur ==> #[trigger] l1[g] == l0[g],
        l1[cur].wf(),
        l1[cur]@ == l0[cur]@.update(p, Entry { value, ..l0[cur]@[p] }),
        l1[cur].handles() == l0[cur].handles(),
    ensures
        forall|g: int| 0 <= g < n ==> (#[trigger] l1[g]).wf(),
        forall|g: int, j: int| 0 <= g < n && 0 <= j < l1[g]@.len() ==> #[trigger] entry_ok(m, l1, g, j),
        forall|k: K| #[trigger] m.contains_key(k) ==> key_ok(m, l1, n, k),
        forall|k: K|
            #[trigger] m.contains_key(k) ==> value_of(m, l1, k) == (if k == l0[cur]@[p].key {
                value
            } else {
                value_of(m, l0, k)
            }),
{
    l0[cur].lemma_handle_positions();
    assert forall|g: int| 0 <= g < n implies (#[trigger] l1[g]).wf() by {
        if g != cur {
            assert(l1[g] == l0[g]);
        }
    }
    assert forall|g: int, j: int| 0 <= g < n && 0 <= j < l1[g]@.len() implies #[trigger] entry_ok(
        m,
        l1,
        g,
        j,
    ) by {
        assert(entry_ok(m, l0, g, j));
        if g != cur {
            assert(l1[g] == l0[g]);
        }
    }
    assert(entry_ok(m, l0, cur, p));
    assert forall|k: K| #[trigger] m.contains_key(k) implies key_ok(m, l1, n, k) && value_of(m, l1, k) == (
    if k == l0[cur]@[p].key {
        value
    } else {
        value_of(m, l0, k)
    }) by {
        assert(key_ok(m, l0, n, k));
        let (g, hk) = m[k];
        let gi = g as int;
        if gi != cur {
            assert(l1[gi] == l0[gi]);
            if k == l0[cur]@[p].key {
                assert(m[k].0 == cur as usize);
            }
        } else {
            let q = l0[cur].handles().index_of(hk);
            assert(l0[cur].handles().contains(hk));
            assert(0 <= q < l0[cur].handles().len() && l0[cur].handles()[q] == hk);
            if q == p {
                assert(k == l0[cur]@[p].key);
            } else {
                assert(l0[cur].handles()[p] != l0[cur].handles()[q]);
            }
        }
    }
}

/// The keys held by the entries of `entries`.
spec fn keys_in<K, V>(entries: Seq<Entry<K, V>>) -> Set<K> {
    Set::new(|k: K| exists|j: int| 0 <= j < entries.len() && entries[j].key == k)
}

/// Emptying list `c` and dropping its keys from the index keeps every
/// remaining entry and key consistent and every remaining value in place.
proof fn lemma_drop_frame<K, V>(
    m0: Map<K, (usize, NodeHandle)>,
    l0: Lists<K, V>,
    m1: Map<K, (usize, NodeHandle)>,
    l1: Lists<K, V>,
    n: int,
    c: int,
)
    requires
        l0.len() == n,
        0 <= c < n,
        forall|g: int| 0 <= g < n ==> (#[trigger] l0[g]).wf(),
        forall|g: int, j: int| 0 <= g < n && 0 <= j < l0[g]@.len() ==> #[trigger] entry_ok(m0, l0, g, j),
        forall|k: K| #[trigger] m0.contains_key(k) ==> key_ok(m0, l0, n, k),
        l1.len() == n,
        forall|g: int| 0 <= g < n && g != c ==> #[trigger] l1[g] == l0[g],
        l1[c].wf(),
        l1[c]@ == Seq::<Entry<K, V>>::empty(),
        m1 == m0.remove_keys(keys_in(l0[c]@)),
    ensures
        forall|g: int| 0 <= g < n ==> (#[trigger] l1[g]).wf(),
        forall|g: int, j: int| 0 <= g < n && 0 <= j < l1[g]@.len() ==> #[trigger] entry_ok(m1, l1, g, j),
        forall|k: K| #[trigger] m1.contains_key(k) ==> key_ok(m1, l1, n, k),
        forall|k: K| #[trigger] m1.contains_key(k) ==> value_of(m1, l1, k) == value_of(m0, l0, k),
{
    let ks = keys_in(l0[c]@);
    assert forall|g: int| 0 <= g < n implies (#[trigger] l1[g]).wf() by {
        if g != c {
            assert(l1[g] == l0[g]);
        }
    }
    assert forall|g: int, j: int| 0 <= g < n && 0 <= j < l1[g]@.len() implies #[trigger] entry_ok(
        m1,
        l1,
        g,
        j,
    ) by {
        assert(g != c);
        assert(l1[g] == l0[g]);
        assert(entry_ok(m0, l0, g, j));
        let k = l0[g]@[j].key;
        if ks.contains(k) {
            let q = choose|q: int| 0 <= q < l0[c]@.len() && l0[c]@[q].key == k;
            assert(entry_ok(m0, l0, c, q));
        }
    }
    assert forall|k: K| #[trigger] m1.contains_key(k) implies key_ok(m1, l1, n, k) && value_of(m1, l1, k)
        == value_of(m0, l0, k) by {
        assert(m0.contains_key(k) && !ks.contains(k));
        assert(key_ok(m0, l0, n, k));
        let (g, h) = m0[k];
        if g as int == c {
            let q = l0[c].handles().index_of(h);
            l0[c].lemma_handle_positions();
            assert(l0[c].handles().contains(h));
            assert(0 <= q < l0[c]@.len());
            assert(l0[c]@[q].key == k);
            assert(ks.contains(k));
        }
        assert(l1[g as int] == l0[g as int]);
    }
}

/// A map from `K` to `V` whose entries expire after `N` frames without use.
pub struct TemporaryMap<K, V, const N: usize> {
    map: HashMap<K, (usize, NodeHandle)>,
    frames: Vec<IntrusiveLinkedList<Entry<K, V>>>,
    current_frame: usize,
}

/// The keys of each frame list, in order.
spec fn keys_of<K, V>(lists: Lists<K, V>) -> Seq<Seq<K>> {
    Seq::new(lists.len(), |f: int| lists[f]@.map_values(|e: Entry<K, V>| e.key))
}

/// Replacing, in list `cf`, the entry of `key` by one with the same key and
/// frame stamp keeps the index, the lists and the stamps in agreement, and
/// changes the value reached for `key` only.
proof fn lemma_value_update<K, V>(m: Map<K, (usize, NodeHandle)>, l0: Lists<K, V>, cf: int, idx: int, key: K)
    requires
        0 <= cf < l0.len(),
        forall|f: int| 0 <= f < l0.len() ==> (#[trigger] l0[f]).wf(),
        forall|f: int, i: int| 0 <= f < l0.len() && 0 <= i < l0[f]@.len() ==> #[trigger] entry_ok(m, l0, f, i),
        forall|k: K| #[trigger] m.contains_key(k) ==> key_ok(m, l0, l0.len() as int, k),
        0 <= idx < l0[cf]@.len(),
        l0[cf]@[idx].key == key,
    ensures
        forall|lst: IntrusiveLinkedList<Entry<K, V>>|
            lst.wf() && lst.handles() == l0[cf].handles() && lst@ == l0[cf]@.update(
                idx,
                Entry { key, value: lst@[idx].value, frame: l0[cf]@[idx].frame },
            ) ==> {
                let l1 = #[trigger] l0.update(cf, lst);
                &&& forall|f: int| 0 <= f < l1.len() ==> (#[trigger] l1[f]).wf()
                &&& forall|f: int, i: int| 0 <= f < l1.len() && 0 <= i < l1[f]@.len() ==> #[trigger] entry_ok(m, l1, f, i)
                &&& forall|k: K| #[trigger] m.contains_key(k) ==> key_ok(m, l1, l1.len() as int, k)
                &&& forall|k: K| m.contains_key(k) && k != key ==> #[trigger] value_of(m, l1, k) == value_of(m, l0, k)
                &&& m.contains_key(key) ==> value_of(m, l1, key) == lst@[idx].value
                &&& keys_of(l1) == keys_of(l0)
            },
{
    assert forall|lst: IntrusiveLinkedList<Entry<K, V>>|
        lst.wf() && lst.handles() == l0[cf].handles() && lst@ == l0[cf]@.update(
            idx,
            Entry { key, value: lst@[idx].value, frame: l0[cf]@[idx].frame },
        ) implies {
            let l1 = #[trigger] l0.update(cf, lst);
            &&& forall|f: int| 0 <= f < l1.len() ==> (#[trigger] l1[f]).wf()
            &&& forall|f: int, i: int| 0 <= f < l1.len() && 0 <= i < l1[f]@.len() ==> #[trigger] entry_ok(m, l1, f, i)
            &&& forall|k: K| #[trigger] m.contains_key(k) ==> key_ok(m, l1, l1.len() as int, k)
            &&& forall|k: K| m.contains_key(k) && k != key ==> #[trigger] value_of(m, l1, k) == value_of(m, l0, k)
            &&& m.contains_key(key) ==> value_of(m, l1, key) == lst@[idx].value
            &&& keys_of(l1) == keys_of(l0)
        } by {
        let l1 = l0.update(cf, lst);
        assert forall|f: int, i: int| 0 <= f < l1.len() && 0 <= i < l1[f]@.len() implies #[trigger] entry_ok(m, l1, f, i) by {
            assert(entry_ok(m, l0, f, i));
        }
        l0[cf].lemma_handle_positions();
        assert forall|k: K| #[trigger] m.contains_key(k) implies key_ok(m, l1, l1.len() as int, k) by {
            assert(key_ok(m, l0, l0.len() as int, k));
            let (fk, hk) = m[k];
            if fk as int == cf {
                let j = l0[cf].handles().index_of(hk);
                if j != idx {
                    assert(lst@[j] == l0[cf]@[j]);
                }
            }
        }
        assert(lst@.map_values(|e: Entry<K, V>| e.key) =~= l0[cf]@.map_values(|e: Entry<K, V>| e.key));
        assert(keys_of(l1) =~= keys_of(l0));
        assert forall|k: K| m.contains_key(k) && k != key implies #[trigger] value_of(m, l1, k) == value_of(m, l0, k) by {
            assert(key_ok(m, l0, l0.len() as int, k));
            let (fk, hk) = m[k];
            if fk as int == cf {
                let j = l0[cf].handles().index_of(hk);
                assert(l0[cf]@[j].key == k);
                assert(j != idx);
            }
        }
        if m.contains_key(key) {
            assert(key_ok(m, l0, l0.len() as int, key));
            let (fk, hk) = m[key];
            let j = l0[fk as int].handles().index_of(hk);
            assert(entry_ok(m, l0, cf, idx));
            assert(m[key] == (cf as usize, l0[cf].handles()[idx]));
            assert(j == idx);
        }
    }
}

impl<K: Hash + Eq + Copy, V, const N: usize> TemporaryMap<K, V, N> {
    /// The stored values by key.
    pub closed spec fn entries(&self) -> Map<K, V> {
        Map::new(
            |k: K| self.map@.contains_key(k),
            |k: K| value_of(self.map@, self.frames@, k),
        )
    }

    /// For each frame slot, the keys last used in it, oldest use first.
    pub closed spec fn frame_keys(&self) -> Seq<Seq<K>> {
        keys_of(self.frames@)
    }

    /// The frame slot of the current frame.
    pub closed spec fn current(&self) -> int {
        self.current_frame as int
    }

    /// The index, the frame lists and the entries' frame stamps agree.
    pub closed spec fn wf(&self) -> bool {
        &&& obeys_key_model::<K>()
        &&& self.frames@.len() == N
        &&& N > 0 ==> self.current_frame < N
        &&& forall|f: int| 0 <= f < N ==> (#[trigger] self.frames@[f]).wf()
        &&& forall|f: int, i: int|
            0 <= f < N && 0 <= i < self.frames@[f]@.len() ==> #[trigger] entry_ok(
                self.map@,
                self.frames@,
                f,
                i,
            )
        &&& forall|k: K| #[trigger] self.map@.contains_key(k) ==> key_ok(self.map@, self.frames@, N as int, k)
    }

    /// The abstract state: each key sits in one frame list, and the current slot is valid.
    pub proof fn lemma_model(&self)
        requires
            self.wf(),
        ensures
            self.frame_keys().len() == N,
            N > 0 ==> 0 <= self.current() < N,
            frames_partition(self.entries(), self.frame_keys()),
            self.entries().dom().finite(),
    {
        self.lemma_keys_located();
    }

    proof fn lemma_keys_located(&self)
        requires
            self.wf(),
        ensures
            self.frame_keys().len() == N,
            frames_partition(self.entries(), self.frame_keys()),
            forall|f: int, i: int|
                0 <= f < N && 0 <= i < self.frames@[f]@.len() ==> #[trigger] self.frame_keys()[f][i]
                    == self.frames@[f]@[i].key,
            forall|f: int| 0 <= f < N ==> #[trigger] self.frame_keys()[f].len() == self.frames@[f]@.len(),
            self.entries().dom().finite(),
            self.entries().dom() == self.map@.dom(),
    {
        let fk = self.frame_keys();
        let lists = self.frames@;
        let m = self.map@;
        assert(self.entries().dom() =~= m.dom());
        assert forall|f: int| 0 <= f < N implies (#[trigger] fk[f]).no_duplicates() by {
            lists[f].lemma_handle_positions();
            assert forall|i: int, j: int| 0 <= i < fk[f].len() && 0 <= j < fk[f].len() && i != j implies fk[f][i]
                != fk[f][j] by {
                assert(entry_ok(m, lists, f, i));
                assert(entry_ok(m, lists, f, j));
            }
        }
        assert forall|f: int, g: int, i: int, j: int|
            0 <= f < fk.len() && 0 <= g < fk.len() && f != g && 0 <= i < fk[f].len() && 0 <= j
                < fk[g].len() implies #[trigger] fk[f][i] != #[trigger] fk[g][j] by {
            assert(entry_ok(m, lists, f, i));
            assert(entry_ok(m, lists, g, j));
        }
        assert forall|k: K| #[trigger] self.entries().contains_key(k) <==> exists|f: int|
            0 <= f < fk.len() && (#[trigger] fk[f]).contains(k) by {
            if m.contains_key(k) {
                assert(key_ok(m, lists, N as int, k));
                let (f, h) = m[k];
                let i = lists[f as int].handles().index_of(h);
                assert(self.frames@[f as int].wf());
                lists[f as int].lemma_handle_positions();
                assert(lists[f as int].handles().contains(h));
                assert(0 <= i < lists[f as int]@.len());
                assert(fk[f as int][i] == k);
                assert(fk[f as int].contains(k));
            }
            if exists|f: int| 0 <= f < fk.len() && (#[trigger] fk[f]).contains(k) {
                let f = choose|f: int| 0 <= f < fk.len() && (#[trigger] fk[f]).contains(k);
                let i = choose|i: int| 0 <= i < fk[f].len() && fk[f][i] == k;
                assert(entry_ok(m, lists, f, i));
            }
        }
        assert(self.map@.dom().finite());
    }

    /// A frame list never holds more keys than the index; one that lacks a
    /// key of the index holds fewer.
    proof fn lemma_frame_len_bound(&self, c: int, k: K)
        requires
            self.wf(),
            0 <= c < N,
            self.map@.contains_key(k),
            !self.frame_keys()[c].contains(k),
        ensures
            self.frames@[c]@.len() < self.map@.len(),
            self.map@.len() <= usize::MAX,
    {
        self.lemma_keys_located();
        let keys = self.frame_keys()[c];
        keys.unique_seq_to_set();
        assert(keys.to_set().subset_of(self.map@.dom().remove(k))) by {
            assert forall|x: K| keys.to_set().contains(x) implies self.map@.dom().remove(k).contains(
                x,
            ) by {
                let i = choose|i: int| 0 <= i < keys.len() && keys[i] == x;
                assert(entry_ok(self.map@, self.frames@, c, i));
            }
        }
        vstd::set_lib::lemma_len_subset(keys.to_set(), self.map@.dom().remove(k));
        assert(self.map.len() == self.map@.len());
    }

    /// Marks `key`, found in the index at `(f, h)`, as used in the current
    /// frame, moving its node to the current frame's list; returns its handle there.
    fn touch(&mut self, key: K, f: usize, h: NodeHandle) -> (nh: NodeHandle)
        requires
            old(self).wf(),
            N > 0,
            old(self).map@.contains_key(key),
            old(self).map@[key] == (f, h),
        ensures
            final(self).wf(),
            final(self).map@.contains_key(key),
            final(self).map@[key] == (final(self).current_frame, nh),
            final(self).entries() == old(self).entries(),
            final(self).frame_keys() == touch_frames(old(self).frame_keys(), old(self).current(), key),
            final(self).current_frame == old(self).current_frame,
    {
        let cur = self.current_frame;
        proof {
            self.lemma_keys_located();
            assert(key_ok(self.map@, self.frames@, N as int, key));
            assert(self.frames@[f as int].wf());
            self.frames@[f as int].lemma_handle_positions();
        }
        let ghost i = self.frames@[f as int].handles().index_of(h);
        let ghost fk0 = self.frame_keys();
        proof {
            assert(0 <= i < self.frames@[f as int]@.len());
            assert(fk0[f as int][i] == key);
            assert(frame_holding(fk0, key) == f) by {
                assert(fk0[f as int].contains(key));
                let g = frame_holding(fk0, key);
                if g != f {
                    let j = choose|j: int| 0 <= j < fk0[g].len() && fk0[g][j] == key;
                    assert(fk0[g][j] != fk0[f as int][i]);
                }
            }
            assert(fk0[f as int].index_of(key) == i) by {
                let j = fk0[f as int].index_of(key);
                assert(fk0[f as int].contains(key));
                assert(fk0[f as int].no_duplicates());
            }
        }
        if f == cur {
            proof {
                assert(fk0[cur as int].contains(key));
            }
            return h;
        }
        proof {
            if fk0[cur as int].contains(key) {
                let j = choose|j: int| 0 <= j < fk0[cur as int].len() && fk0[cur as int][j] == key;
                assert(fk0[cur as int][j] != fk0[f as int][i]);
            }
            self.lemma_frame_len_bound(cur as int, key);
        }
        let ghost m0 = self.map@;
        let ghost l0 = self.frames@;
        let mut node = self.frames[f].remove_node(h);
        let entry = node.data_mut();
        entry.frame = cur;
        let nh = self.frames[cur].append_node(node);
        self.map.insert(key, (cur, nh));
        proof {
            lemma_touch(m0, l0, self.map@, self.frames@, N as int, cur as int, key, f as int, i, nh);
            assert(self.entries() =~= old(self).entries());
            let fk1 = self.frame_keys();
            let expect = touch_frames(fk0, cur as int, key);
            assert forall|g: int| 0 <= g < N implies fk1[g] =~= expect[g] by {
                if g == f {
                    assert(fk1[g] =~= fk0[g].remove(i));
                } else if g == cur {
                    assert(fk1[g] =~= fk0[g].push(key));
                } else {
                    assert(self.frames@[g] == l0[g]);
                }
            }
            assert(fk1 =~= expect);
        }
        nh
    }

    proof fn lemma_frame_len_le(&self, c: int)
        requires
            self.wf(),
            0 <= c < N,
        ensures
            self.frames@[c]@.len() <= self.map@.len(),
            self.map@.len() <= usize::MAX,
            self.entries().len() == self.map@.len(),
    {
        self.lemma_keys_located();
        let keys = self.frame_keys()[c];
        keys.unique_seq_to_set();
        assert(keys.to_set().subset_of(self.map@.dom())) by {
            assert forall|x: K| keys.to_set().contains(x) implies self.map@.dom().contains(x) by {
                let i = choose|i: int| 0 <= i < keys.len() && keys[i] == x;
                assert(entry_ok(self.map@, self.frames@, c, i));
            }
        }
        vstd::set_lib::lemma_len_subset(keys.to_set(), self.map@.dom());
        assert(self.map.len() == self.map@.len());
    }

    /// Stores `value` under `key` in the current frame, returning the value it replaces.
    pub fn insert(&mut self, key: K, value: V) -> (replaced: Option<V>)
        requires
            old(self).wf(),
            N > 0,
            !old(self).entries().contains_key(key) ==> old(self).entries().len() < usize::MAX,
        ensures
            final(self).wf(),
            final(self).current() == old(self).current(),
            final(self).entries() == old(self).entries().insert(key, value),
            replaced == (if old(self).entries().contains_key(key) {
                Some(old(self).entries()[key])
            } else {
                None
            }),
            final(self).frame_keys() == frames_after_insert(
                old(self).entries(),
                old(self).frame_keys(),
                old(self).current(),
                key,
            ),
    {
        let current_frame = self.current_frame;
        proof {
            self.lemma_keys_located();
        }
        match self.map.get(&key) {
            Some(location) => {
                let (f, h) = *location;
                let nh = self.touch(key, f, h);
                let ghost m = self.map@;
                let ghost l0 = self.frames@;
                let ghost fk = self.frame_keys();
                proof {
                    assert(self.frames@[current_frame as int].wf());
                    assert(key_ok(m, l0, N as int, key));
                    l0[current_frame as int].lemma_handle_positions();
                }
                let ghost p = l0[current_frame as int].handles().index_of(nh);
                proof {
                    assert(l0[current_frame as int].handles().contains(nh));
                    assert(entry_ok(m, l0, current_frame as int, p));
                }
                let previous = self.frames[current_frame].replace(
                    nh,
                    Entry { key, value, frame: current_frame },
                );
                proof {
                    lemma_set_value(m, l0, self.frames@, N as int, current_frame as int, p, value);
                    assert(self.entries() =~= old(self).entries().insert(key, value));
                    let fk1 = self.frame_keys();
                    assert forall|g: int| 0 <= g < N implies fk1[g] =~= fk[g] by {
                        if g != current_frame {
                            assert(self.frames@[g] == l0[g]);
                        }
                    }
                    assert(fk1 =~= fk);
                }
                Some(previous.value)
            },
            None => {
                proof {
                    self.lemma_frame_len_le(current_frame as int);
                }
                let ghost m0 = self.map@;
                let ghost l0 = self.frames@;
                let ghost fk0 = self.frame_keys();
                let nh = self.frames[current_frame].append_node(
                    Node::new_boxed(Entry { key, value, frame: current_frame }),
                );
                self.map.insert(key, (current_frame, nh));
                proof {
                    lemma_insert_new(
                        m0,
                        l0,
                        self.map@,
                        self.frames@,
                        N as int,
                        current_frame as int,
                        key,
                        value,
                        nh,
                    );
                    assert(self.entries() =~= old(self).entries().insert(key, value));
                    let fk1 = self.frame_keys();
                    let expect = fk0.update(current_frame as int, fk0[current_frame as int].push(key));
                    assert forall|g: int| 0 <= g < N implies fk1[g] =~= expect[g] by {
                        if g != current_frame {
                            assert(self.frames@[g] == l0[g]);
                        }
                    }
                    assert(fk1 =~= expect);
                }
                None
            },
        }
    }

    /// The value stored under `key`, marking the entry as used in the current frame.
    pub fn get(&mut self, key: &K) -> (found: Option<&V>)
        requires
            old(self).wf(),
        ensures
            final(self).wf(),
            final(self).current() == old(self).current(),
            final(self).entries() == old(self).entries(),
            found == (if old(self).entries().contains_key(*key) {
                Some(&old(self).entries()[*key])
            } else {
                None
            }),
            final(self).frame_keys() == (if old(self).entries().contains_key(*key) {
                touch_frames(old(self).frame_keys(), old(self).current(), *key)
            } else {
                old(self).frame_keys()
            }),
    {
        match self.map.get(key) {
            Some(location) => {
                let (f, h) = *location;
                proof {
                    assert(key_ok(self.map@, self.frames@, N as int, *key));
                }
                let nh = self.touch(*key, f, h);
                let current_frame = self.current_frame;
                proof {
                    assert(self.frames@[current_frame as int].wf());
                    assert(key_ok(self.map@, self.frames@, N as int, *key));
                }
                let entry = self.frames[current_frame].get(nh);
                Some(&entry.value)
            },
            None => None,
        }
    }

    /// The value of `key`, to modify in place, if the map holds it; like
    /// `get`, this counts as a use in the current frame.
    pub fn get_mut(&mut self, key: &K) -> (found: Option<&mut V>)
        requires
            old(self).wf(),
        ensures
            final(self).wf(),
            final(self).current() == old(self).current(),
            found is Some <==> old(self).entries().contains_key(*key),
            match found {
                Some(v) => *v == old(self).entries()[*key] && final(self).entries() == old(self).entries().insert(
                    *key,
                    *final(v),
                ),
                None => final(self).entries() == old(self).entries(),
            },
            final(self).frame_keys() == (if old(self).entries().contains_key(*key) {
                touch_frames(old(self).frame_keys(), old(self).current(), *key)
            } else {
                old(self).frame_keys()
            }),
    {
        match self.map.get(key) {
            Some(location) => {
                let (f, h) = *location;
                proof {
                    assert(key_ok(self.map@, self.frames@, N as int, *key));
                }
                let nh = self.touch(*key, f, h);
                let current_frame = self.current_frame;
                let ghost m = self.map@;
                let ghost l0 = self.frames@;
                let ghost entries1 = self.entries();
                let ghost fk1 = self.frame_keys();
                proof {
                    assert(self.frames@[current_frame as int].wf());
                    assert(key_ok(self.map@, self.frames@, N as int, *key));
                    self.lemma_keys_located();
                }
                let ghost idx = l0[current_frame as int].handles().index_of(nh);
                proof {
                    l0[current_frame as int].lemma_handle_positions();
                    assert(l0[current_frame as int]@[idx].key == *key);
                    lemma_value_update(m, l0, current_frame as int, idx, *key);
                }
                let list = &mut self.frames[current_frame];
                let entry = list.get_mut(nh);
                let v = &mut entry.value;
                Some(v)
            },
            None => None,
        }
    }

    /// Removes the entry used longest ago among those last used in frame
    /// slot `c`, and returns its value, if there is one.
    fn remove_oldest(&mut self, c: usize) -> (v: Option<V>)
        requires
            old(self).wf(),
            c < N,
        ensures
            final(self).wf(),
            final(self).current() == old(self).current(),
            old(self).frame_keys()[c as int].len() == 0 ==> v is None && final(self).entries() == old(self).entries()
                && final(self).frame_keys() == old(self).frame_keys(),
            old(self).frame_keys()[c as int].len() > 0 ==> ({
                let k = old(self).frame_keys()[c as int][0];
                &&& v == Some(old(self).entries()[k])
                &&& final(self).entries() == old(self).entries().remove(k)
                &&& final(self).frame_keys() == old(self).frame_keys().update(
                    c as int,
                    old(self).frame_keys()[c as int].drop_first(),
                )
            }),
    {
        proof {
            self.lemma_keys_located();
            assert(self.frames@[c as int].wf());
        }
        let ghost fk0 = self.frame_keys();
        let ghost e0 = self.entries();
        match self.frames[c].first_handle() {
            None => {
                assert(fk0[c as int].len() == 0);
                None
            },
            Some(h) => {
                let ghost m0 = self.map@;
                let ghost l0 = self.frames@;
                proof {
                    l0[c as int].lemma_handle_positions();
                }
                let node = self.frames[c].remove_node(h);
                let entry = node.into_data();
                let _ = self.map.remove(&entry.key);
                proof {
                    assert(entry == l0[c as int]@[0]);
                    assert(l0[c as int]@.remove(0) =~= l0[c as int]@.drop_first());
                    lemma_pop_first(m0, l0, self.map@, self.frames@, N as int, c as int, entry.key);
                    assert(fk0[c as int][0] == entry.key);
                    assert(self.entries() =~= e0.remove(entry.key));
                    let fk1 = self.frame_keys();
                    let expect = fk0.update(c as int, fk0[c as int].drop_first());
                    assert forall|g: int| 0 <= g < N implies fk1[g] =~= expect[g] by {
                        if g != c as int {
                            assert(self.frames@[g] == l0[g]);
                        }
                    }
                    assert(fk1 =~= expect);
                }
                Some(entry.value)
            },
        }
    }

    /// Moves to the next frame slot and removes, oldest use first, at most
    /// `count` of the entries last used in it `N` frames ago, returning their
    /// values; the others stay in the map, now counted as used in this frame.
    /// This is what taking `count` items from the frame's expiry iterator
    /// and dropping it does.
    pub fn new_frame_taking(&mut self, count: usize) -> (removed: Vec<V>)
        requires
            old(self).wf(),
            N > 0,
        ensures
            final(self).wf(),
            final(self).current() == next_frame(old(self).current(), N as int),
            ({
                let ks = old(self).frame_keys()[next_frame(old(self).current(), N as int)];
                let t = if count < ks.len() {
                    count as int
                } else {
                    ks.len() as int
                };
                &&& removed@ == ks.take(t).map_values(|k: K| old(self).entries()[k])
                &&& final(self).entries() == old(self).entries().remove_keys(ks.take(t).to_set())
                &&& final(self).frame_keys() == old(self).frame_keys().update(
                    next_frame(old(self).current(), N as int),
                    ks.skip(t),
                )
            }),
    {
        proof {
            self.lemma_keys_located();
        }
        let ghost fk0 = self.frame_keys();
        let ghost e0 = self.entries();
        self.current_frame = (self.current_frame + 1) % N;
        let c = self.current_frame;
        let ghost ks = fk0[c as int];
        let avail = self.frames[c].len();
        proof {
            assert(self.frames@[c as int]@.len() == ks.len());
        }
        let t = if count < avail {
            count
        } else {
            avail
        };
        let mut removed: Vec<V> = Vec::new();
        let mut k: usize = 0;
        proof {
            assert(ks.take(0).to_set() =~= Set::<K>::empty());
            assert(e0.remove_keys(Set::<K>::empty()) =~= e0);
            assert(ks.skip(0) =~= ks);
            assert(fk0.update(c as int, ks) =~= fk0);
        }
        while k < t
            invariant
                0 <= c < N,
                t <= ks.len(),
                k <= t,
                self.wf(),
                self.current_frame == c,
                fk0.len() == N,
                ks == fk0[c as int],
                ks.no_duplicates(),
                forall|j: int| 0 <= j < ks.len() ==> #[trigger] e0.contains_key(ks[j]),
                self.entries() == e0.remove_keys(ks.take(k as int).to_set()),
                self.frame_keys() == fk0.update(c as int, ks.skip(k as int)),
                removed@ == ks.take(k as int).map_values(|key: K| e0[key]),
            decreases t - k,
        {
            let ghost fk = self.frame_keys();
            let ghost ents = self.entries();
            let v = self.remove_oldest(c);
            proof {
                assert(fk[c as int] == ks.skip(k as int));
                assert(fk[c as int][0] == ks[k as int]);
                let key = ks[k as int];
                assert(!ks.take(k as int).to_set().contains(key)) by {
                    if ks.take(k as int).to_set().contains(key) {
                        let j = choose|j: int| 0 <= j < ks.take(k as int).len() && ks.take(k as int)[j] == key;
                        assert(ks.take(k as int)[j] == ks[j]);
                        assert(ks[j] == ks[k as int]);
                    }
                }
                assert(ents[key] == e0[key]);
                let ki = k as int;
                let ta = ks.take(ki + 1);
                let tb = ks.take(ki);
                assert forall|x: K| ta.to_set().contains(x) <==> tb.to_set().insert(key).contains(x) by {
                    if ta.contains(x) {
                        let j = choose|j: int| 0 <= j < ta.len() && #[trigger] ta[j] == x;
                        if j < ki {
                            assert(tb[j] == x);
                        }
                    }
                    if tb.contains(x) {
                        let j = choose|j: int| 0 <= j < tb.len() && #[trigger] tb[j] == x;
                        assert(ta[j] == x);
                    }
                    if x == key {
                        assert(ta[ki] == x);
                    }
                }
                assert(ks.take(k + 1).to_set() =~= ks.take(k as int).to_set().insert(key));
                assert(self.entries() =~= e0.remove_keys(ks.take(k + 1).to_set()));
                assert(ks.skip(k as int).drop_first() =~= ks.skip(k + 1));
                assert(fk.update(c as int, ks.skip(k + 1)) =~= fk0.update(c as int, ks.skip(k + 1)));
            }
            match v {
                Some(value) => {
                    removed.push(value);
                },
                None => {},
            }
            proof {
                assert(ks.take(k + 1) =~= ks.take(k as int).push(ks[k as int]));
                assert(removed@ =~= ks.take(k + 1).map_values(|key: K| e0[key]));
            }
            k = k + 1;
        }
        removed
    }

    /// Moves to the next frame slot, removing and returning (oldest use first)
    /// the values of the entries last used `N` frames ago.
    pub fn new_frame(&mut self) -> (removed: Vec<V>)
        requires
            old(self).wf(),
            N > 0,
        ensures
            final(self).wf(),
            final(self).current() == next_frame(old(self).current(), N as int),
            removed@ == expired_values(
                old(self).entries(),
                old(self).frame_keys(),
                old(self).current(),
                N as int,
            ),
            final(self).entries() == advanced_entries(
                old(self).entries(),
                old(self).frame_keys(),
                old(self).current(),
                N as int,
            ),
            final(self).frame_keys() == advanced_frames(
                old(self).frame_keys(),
                old(self).current(),
                N as int,
            ),
    {
        proof {
            self.lemma_keys_located();
        }
        let ghost fk0 = self.frame_keys();
        let ghost ents0 = self.entries();
        self.current_frame = (self.current_frame + 1) % N;
        let c = self.current_frame;
        let ghost m0 = self.map@;
        let ghost l0 = self.frames@;
        proof {
            assert(self.frames@[c as int].wf());
        }
        let drained = self.frames[c].drain();
        let ghost es = drained@;
        let ghost l1 = self.frames@;
        let mut removed: Vec<V> = Vec::new();
        proof {
            l0[c as int].lemma_handle_positions();
            assert forall|a: int, b: int| 0 <= a < es.len() && 0 <= b < es.len() && a != b implies es[a].key
                != es[b].key by {
                assert(entry_ok(m0, l0, c as int, a));
                assert(entry_ok(m0, l0, c as int, b));
            }
            assert(keys_in(es.take(0)) =~= Set::<K>::empty());
            assert(m0.remove_keys(Set::<K>::empty()) =~= m0);
        }
        for entry in it: drained
            invariant
                es == l0[c as int]@,
                it.seq() == es,
                forall|a: int, b: int| 0 <= a < es.len() && 0 <= b < es.len() && a != b ==> es[a].key
                    != es[b].key,
                forall|j: int| 0 <= j < es.len() ==> #[trigger] entry_ok(m0, l0, c as int, j),
                removed@ == es.take(it.index() as int).map_values(|e: Entry<K, V>| e.value),
                self.map@ == m0.remove_keys(keys_in(es.take(it.index() as int))),
                self.frames@ == l1,
                self.current_frame == c,
                obeys_key_model::<K>(),
        {
            let ghost idx = it.index() as int;
            proof {
                assert(entry == es[idx]);
                assert(entry_ok(m0, l0, c as int, idx));
                assert(!keys_in(es.take(idx)).contains(entry.key)) by {
                    if keys_in(es.take(idx)).contains(entry.key) {
                        let j = choose|j: int| 0 <= j < es.take(idx).len() && (#[trigger] es.take(idx)[j]).key == entry.key;
                        assert(es[j].key == es[idx].key);
                    }
                }
            }
            let _ = self.map.remove(&entry.key);
            removed.push(entry.value);
            proof {
                assert(keys_in(es.take(idx + 1)) =~= keys_in(es.take(idx)).insert(entry.key)) by {
                    assert forall|k: K| keys_in(es.take(idx + 1)).contains(k) implies keys_in(
                        es.take(idx),
                    ).insert(entry.key).contains(k) by {
                        let j = choose|j: int| 0 <= j < es.take(idx + 1).len() && (#[trigger] es.take(idx + 1)[j]).key == k;
                        if j < idx {
                            assert(es.take(idx)[j].key == k);
                        }
                    }
                    assert forall|k: K| keys_in(es.take(idx)).insert(entry.key).contains(k) implies keys_in(
                        es.take(idx + 1),
                    ).contains(k) by {
                        if k == entry.key {
                            assert(es.take(idx + 1)[idx].key == k);
                        } else {
                            let j = choose|j: int| 0 <= j < es.take(idx).len() && (#[trigger] es.take(idx)[j]).key == k;
                            assert(es.take(idx + 1)[j].key == k);
                        }
                    }
                }
                assert(self.map@ =~= m0.remove_keys(keys_in(es.take(idx + 1))));
                assert(removed@ =~= es.take(idx + 1).map_values(|e: Entry<K, V>| e.value));
            }
        }
        proof {
            assert(es.take(es.len() as int) =~= es);
            lemma_drop_frame(m0, l0, self.map@, self.frames@, N as int, c as int);
            let ks = fk0[c as int].to_set();
            assert(keys_in(es) =~= ks) by {
                assert forall|k: K| keys_in(es).contains(k) implies ks.contains(k) by {
                    let j = choose|j: int| 0 <= j < es.len() && es[j].key == k;
                    assert(fk0[c as int][j] == k);
                }
                assert forall|k: K| ks.contains(k) implies keys_in(es).contains(k) by {
                    let j = choose|j: int| 0 <= j < fk0[c as int].len() && fk0[c as int][j] == k;
                    assert(es[j].key == k);
                }
            }
            assert(self.entries() =~= ents0.remove_keys(ks));
            assert(removed@ =~= fk0[c as int].map_values(|k: K| ents0[k])) by {
                assert forall|j: int| 0 <= j < es.len() implies removed@[j] == ents0[fk0[c as int][j]] by {
                    assert(entry_ok(m0, l0, c as int, j));
                    assert(l0[c as int].handles().index_of(l0[c as int].handles()[j]) == j);
                }
            }
            let fk1 = self.frame_keys();
            let expect = fk0.update(c as int, Seq::<K>::empty());
            assert forall|g: int| 0 <= g < N implies fk1[g] =~= expect[g] by {
                if g != c {
                    assert(self.frames@[g] == l0[g]);
                }
            }
            assert(fk1 =~= expect);
        }
        removed
    }

    /// An empty map whose current frame is slot 0.
    pub fn new() -> (map: Self)
        requires
            obeys_key_model::<K>(),
        ensures
            map.wf(),
            map.entries() == Map::<K, V>::empty(),
            map.frame_keys() == Seq::new(N as nat, |f: int| Seq::<K>::empty()),
            map.current() == 0,
    {
        let mut frames: Vec<IntrusiveLinkedList<Entry<K, V>>> = Vec::new();
        let mut i: usize = 0;
        while i < N
            invariant
                i <= N,
                frames@.len() == i,
                forall|f: int| 0 <= f < i ==> (#[trigger] frames@[f]).wf() && frames@[f]@
                    == Seq::<Entry<K, V>>::empty(),
            decreases N - i,
        {
            frames.push(IntrusiveLinkedList::new());
            i = i + 1;
        }
        let map = TemporaryMap { map: HashMap::new(), frames, current_frame: 0 };
        assert(map.entries() =~= Map::<K, V>::empty());
        assert(map.frame_keys() =~= Seq::new(N as nat, |f: int| Seq::<K>::empty())) by {
            assert forall|f: int| 0 <= f < N implies map.frame_keys()[f] =~= Seq::<K>::empty() by {
                assert(map.frames@[f]@ == Seq::<Entry<K, V>>::empty());
            }
        }
        map
    }
}

} // verus!

verus! {

/// The frame slot reached after `j` frame advances from `current`.
pub open spec fn current_after(current: int, n: int, j: nat) -> int
    decreases j,
{
    if j == 0 {
        current
    } else {
        current_after(next_frame(current, n), n, (j - 1) as nat)
    }
}

/// The per-frame key lists after `j` frame advances.
pub open spec fn frames_after<K>(frames: Seq<Seq<K>>, current: int, n: int, j: nat) -> Seq<Seq<K>>
    decreases j,
{
    if j == 0 {
        frames
    } else {
        frames_after(advanced_frames(frames, current, n), next_frame(current, n), n, (j - 1) as nat)
    }
}

/// The entries left after `j` frame advances.
pub open spec fn entries_after<K, V>(
    entries: Map<K, V>,
    frames: Seq<Seq<K>>,
    current: int,
    n: int,
    j: nat,
) -> Map<K, V>
    decreases j,
{
    if j == 0 {
        entries
    } else {
        entries_after(
            advanced_entries(entries, frames, current, n),
            advanced_frames(frames, current, n),
            next_frame(current, n),
            n,
            (j - 1) as nat,
        )
    }
}

proof fn lemma_next_frame_value(current: int, n: int)
    requires
        0 <= current < n,
    ensures
        next_frame(current, n) == if current + 1 < n {
            current + 1
        } else {
            0
        },
{
    if current + 1 < n {
        assert((current + 1) % n == current + 1) by (nonlinear_arith)
            requires
                0 <= current + 1 < n,
        ;
    } else {
        assert((current + 1) % n == 0) by (nonlinear_arith)
            requires
                current + 1 == n,
                n > 0,
        ;
    }
}

/// Splits `j + 1` advances into `j` advances followed by one more.
proof fn lemma_after_split<K, V>(
    entries: Map<K, V>,
    frames: Seq<Seq<K>>,
    current: int,
    n: int,
    j: nat,
)
    ensures
        current_after(current, n, j + 1) == next_frame(current_after(current, n, j), n),
        frames_after(frames, current, n, j + 1) == advanced_frames(
            frames_after(frames, current, n, j),
            current_after(current, n, j),
            n,
        ),
        entries_after(entries, frames, current, n, j + 1) == advanced_entries(
            entries_after(entries, frames, current, n, j),
            frames_after(frames, current, n, j),
            current_after(current, n, j),
            n,
        ),
    decreases j,
{
    let e1 = advanced_entries(entries, frames, current, n);
    let f1 = advanced_frames(frames, current, n);
    let c1 = next_frame(current, n);
    assert(current_after(current, n, j + 1) == current_after(c1, n, j));
    assert(frames_after(frames, current, n, j + 1) == frames_after(f1, c1, n, j));
    assert(entries_after(entries, frames, current, n, j + 1) == entries_after(e1, f1, c1, n, j));
    if j > 0 {
        lemma_after_split(e1, f1, c1, n, (j - 1) as nat);
        assert(current_after(current, n, j) == current_after(c1, n, (j - 1) as nat));
        assert(frames_after(frames, current, n, j) == frames_after(f1, c1, n, (j - 1) as nat));
        assert(entries_after(entries, frames, current, n, j) == entries_after(
            e1,
            f1,
            c1,
            n,
            (j - 1) as nat,
        ));
    } else {
        assert(current_after(c1, n, 0) == c1);
        assert(frames_after(f1, c1, n, 0) == f1);
        assert(entries_after(e1, f1, c1, n, 0) == e1);
    }
}

/// `key` lives in slot `home` and `m` advances have passed since the
/// current slot was `home`; then over `i` more advances, with `m + i < n`,
/// the slot `home` is never reused, so `key` keeps its value and its slot.
proof fn lemma_survives<K, V>(
    entries: Map<K, V>,
    frames: Seq<Seq<K>>,
    home: int,
    current: int,
    n: int,
    m: int,
    i: nat,
    key: K,
)
    requires
        0 <= home < n,
        0 <= m,
        m + i < n,
        current == (if home + m < n {
            home + m
        } else {
            home + m - n
        }),
        frames.len() == n,
        frames[home].contains(key),
        forall|s: int| 0 <= s < n && s != home ==> !(#[trigger] frames[s]).contains(key),
        entries.contains_key(key),
    ensures
        entries_after(entries, frames, current, n, i).contains_key(key),
        entries_after(entries, frames, current, n, i)[key] == entries[key],
        current_after(current, n, i) == (if home + m + i < n {
            home + m + i
        } else {
            home + m + i - n
        }),
        frames_after(frames, current, n, i).len() == n,
        frames_after(frames, current, n, i)[home].contains(key),
        forall|s: int|
            0 <= s < n && s != home ==> !(#[trigger] frames_after(frames, current, n, i)[s]).contains(
                key,
            ),
    decreases i,
{
    if i > 0 {
        lemma_next_frame_value(current, n);
        let t = next_frame(current, n);
        assert(t != home);
        let f1 = advanced_frames(frames, current, n);
        let e1 = advanced_entries(entries, frames, current, n);
        assert(!frames[t].to_set().contains(key));
        assert forall|s: int| 0 <= s < n && s != home implies !(#[trigger] f1[s]).contains(key) by {
            if s == t {
                assert(f1[s] =~= Seq::<K>::empty());
            }
        }
        lemma_survives(e1, f1, home, t, n, m + 1, (i - 1) as nat, key);
    }
}

/// An entry used in frame slot `current` (by `insert` or `get`) keeps its
/// value through the next `n - 1` frame advances, and the `n`-th advance
/// removes it and hands its value back.
pub proof fn law_entry_lifetime<K, V>(
    entries: Map<K, V>,
    frames: Seq<Seq<K>>,
    current: int,
    n: int,
    key: K,
)
    requires
        0 <= current < n,
        frames.len() == n,
        frames_partition(entries, frames),
        frames[current].contains(key),
    ensures
        forall|j: nat|
            j < n ==> #[trigger] entries_after(entries, frames, current, n, j).contains_key(key)
                && entries_after(entries, frames, current, n, j)[key] == entries[key],
        !entries_after(entries, frames, current, n, n as nat).contains_key(key),
        expired_values(
            entries_after(entries, frames, current, n, (n - 1) as nat),
            frames_after(frames, current, n, (n - 1) as nat),
            current_after(current, n, (n - 1) as nat),
            n,
        ).contains(entries[key]),
{
    assert(entries.contains_key(key));
    assert forall|s: int| 0 <= s < n && s != current implies !(#[trigger] frames[s]).contains(key) by {
        if frames[s].contains(key) {
            let a = choose|a: int| 0 <= a < frames[s].len() && frames[s][a] == key;
            let b = choose|b: int| 0 <= b < frames[current].len() && frames[current][b] == key;
            assert(frames[s][a] != frames[current][b]);
        }
    }
    assert forall|j: nat| j < n implies #[trigger] entries_after(
        entries,
        frames,
        current,
        n,
        j,
    ).contains_key(key) && entries_after(entries, frames, current, n, j)[key] == entries[key] by {
        lemma_survives(entries, frames, current, current, n, 0, j, key);
    }
    let last = (n - 1) as nat;
    lemma_survives(entries, frames, current, current, n, 0, last, key);
    lemma_after_split(entries, frames, current, n, last);
    let e = entries_after(entries, frames, current, n, last);
    let f = frames_after(frames, current, n, last);
    let c = current_after(current, n, last);
    lemma_next_frame_value(c, n);
    assert(next_frame(c, n) == current);
    assert(f[current].to_set().contains(key));
    let b = choose|b: int| 0 <= b < f[current].len() && f[current][b] == key;
    assert(expired_values(e, f, c, n)[b] == entries[key]);
}

/// Using a stored key (by `insert` or `get`) puts it in the current frame
/// slot, and every key still sits in exactly one slot.
pub proof fn law_use_moves_to_current<K, V>(
    entries: Map<K, V>,
    frames: Seq<Seq<K>>,
    current: int,
    key: K,
)
    requires
        0 <= current < frames.len(),
        frames_partition(entries, frames),
        entries.contains_key(key),
    ensures
        touch_frames(frames, current, key)[current].contains(key),
        touch_frames(frames, current, key).len() == frames.len(),
        frames_partition(entries, touch_frames(frames, current, key)),
{
    let f = frame_holding(frames, key);
    assert(exists|g: int| 0 <= g < frames.len() && (#[trigger] frames[g]).contains(key));
    assert(0 <= f < frames.len() && frames[f].contains(key));
    if f != current {
        let i = frames[f].index_of(key);
        assert(0 <= i < frames[f].len() && frames[f][i] == key);
        let wk = without_key(frames[f], key);
        let t = touch_frames(frames, current, key);
        assert(t[f] == wk);
        assert(t[current] == frames[current].push(key));
        assert(!frames[current].contains(key)) by {
            if frames[current].contains(key) {
                let j = choose|j: int| 0 <= j < frames[current].len() && frames[current][j] == key;
                assert(frames[current][j] != frames[f][i]);
            }
        }
        assert(!wk.contains(key)) by {
            if wk.contains(key) {
                let j = choose|j: int| 0 <= j < wk.len() && wk[j] == key;
                let oj = if j < i {
                    j
                } else {
                    j + 1
                };
                assert(frames[f][oj] == key);
            }
        }
        assert forall|g: int| 0 <= g < t.len() implies (#[trigger] t[g]).no_duplicates() by {
            assert(frames[g].no_duplicates());
            if g == f {
                assert forall|a: int, b: int| 0 <= a < wk.len() && 0 <= b < wk.len() && a != b implies wk[a]
                    != wk[b] by {
                    let oa = if a < i {
                        a
                    } else {
                        a + 1
                    };
                    let ob = if b < i {
                        b
                    } else {
                        b + 1
                    };
                    assert(frames[f][oa] != frames[f][ob]);
                }
            }
        }
        assert forall|g: int, h: int, a: int, b: int|
            0 <= g < t.len() && 0 <= h < t.len() && g != h && 0 <= a < t[g].len() && 0 <= b
                < t[h].len() implies #[trigger] t[g][a] != #[trigger] t[h][b] by {
            let oa = if g == f && a >= i {
                a + 1
            } else {
                a
            };
            let ob = if h == f && b >= i {
                b + 1
            } else {
                b
            };
            if g == current && a == frames[current].len() {
                if h == f {
                    assert(wk.contains(t[h][b]));
                } else {
                    assert(frames[h].contains(t[h][b]));
                }
            } else if h == current && b == frames[current].len() {
                if g == f {
                    assert(wk.contains(t[g][a]));
                } else {
                    assert(frames[g].contains(t[g][a]));
                }
            } else {
                assert(t[g][a] == frames[g][oa]);
                assert(t[h][b] == frames[h][ob]);
            }
        }
        assert forall|k: K| #[trigger] entries.contains_key(k) <==> exists|g: int|
            0 <= g < t.len() && (#[trigger] t[g]).contains(k) by {
            if entries.contains_key(k) {
                if k == key {
                    assert(t[current][frames[current].len() as int] == key);
                    assert(t[current].contains(k));
                } else {
                    let g = choose|g: int| 0 <= g < frames.len() && (#[trigger] frames[g]).contains(k);
                    let a = choose|a: int| 0 <= a < frames[g].len() && frames[g][a] == k;
                    if g == f {
                        assert(a != i);
                        let na = if a < i {
                            a
                        } else {
                            a - 1
                        };
                        assert(t[f][na] == k);
                        assert(t[f].contains(k));
                    } else if g == current {
                        assert(t[current][a] == k);
                        assert(t[current].contains(k));
                    } else {
                        assert(t[g].contains(k));
                    }
                }
            }
            if exists|g: int| 0 <= g < t.len() && (#[trigger] t[g]).contains(k) {
                let g = choose|g: int| 0 <= g < t.len() && (#[trigger] t[g]).contains(k);
                let a = choose|a: int| 0 <= a < t[g].len() && t[g][a] == k;
                if g == current && a == frames[current].len() {
                } else {
                    let oa = if g == f && a >= i {
                        a + 1
                    } else {
                        a
                    };
                    assert(frames[g][oa] == k);
                    assert(frames[g].contains(k));
                }
            }
        }
        assert(t[current][frames[current].len() as int] == key);
    }
}

/// Inserting a new key puts it at the end of the current frame slot, and
/// every key still sits in exactly one slot.
pub proof fn law_insert_new_in_current<K, V>(
    entries: Map<K, V>,
    frames: Seq<Seq<K>>,
    current: int,
    key: K,
    value: V,
)
    requires
        0 <= current < frames.len(),
        frames_partition(entries, frames),
        !entries.contains_key(key),
    ensures
        frames_partition(
            entries.insert(key, value),
            frames.update(current, frames[current].push(key)),
        ),
        frames.update(current, frames[current].push(key))[current].contains(key),
{
    let t = frames.update(current, frames[current].push(key));
    let e = entries.insert(key, value);
    let last = frames[current].len() as int;
    assert(t[current][last] == key);
    assert forall|g: int| 0 <= g < frames.len() implies !(#[trigger] frames[g]).contains(key) by {}
    assert forall|g: int| 0 <= g < t.len() implies (#[trigger] t[g]).no_duplicates() by {
        assert(frames[g].no_duplicates());
        if g == current {
            assert forall|a: int, b: int| 0 <= a < t[g].len() && 0 <= b < t[g].len() && a != b implies t[g][a]
                != t[g][b] by {
                if a == last {
                    assert(frames[g].contains(t[g][b]));
                } else if b == last {
                    assert(frames[g].contains(t[g][a]));
                }
            }
        }
    }
    assert forall|g: int, h: int, a: int, b: int|
        0 <= g < t.len() && 0 <= h < t.len() && g != h && 0 <= a < t[g].len() && 0 <= b < t[h].len()
            implies #[trigger] t[g][a] != #[trigger] t[h][b] by {
        if g == current && a == last {
            assert(frames[h].contains(t[h][b]));
        } else if h == current && b == last {
            assert(frames[g].contains(t[g][a]));
        } else {
            assert(t[g][a] == frames[g][a]);
            assert(t[h][b] == frames[h][b]);
        }
    }
    assert forall|k: K| #[trigger] e.contains_key(k) <==> exists|g: int|
        0 <= g < t.len() && (#[trigger] t[g]).contains(k) by {
        if e.contains_key(k) {
            if k == key {
                assert(t[current].contains(k));
            } else {
                let g = choose|g: int| 0 <= g < frames.len() && (#[trigger] frames[g]).contains(k);
                let a = choose|a: int| 0 <= a < frames[g].len() && frames[g][a] == k;
                assert(t[g][a] == k);
                assert(t[g].contains(k));
            }
        }
        if exists|g: int| 0 <= g < t.len() && (#[trigger] t[g]).contains(k) {
            let g = choose|g: int| 0 <= g < t.len() && (#[trigger] t[g]).contains(k);
            let a = choose|a: int| 0 <= a < t[g].len() && t[g][a] == k;
            if !(g == current && a == last) {
                assert(frames[g][a] == k);
                assert(frames[g].contains(k));
            }
        }
    }
    assert(t[current].contains(key));
}

/// Starting a new frame keeps every remaining key in exactly one slot.
pub proof fn law_advance_keeps_partition<K, V>(
    entries: Map<K, V>,
    frames: Seq<Seq<K>>,
    current: int,
    n: int,
)
    requires
        0 <= current < n,
        frames.len() == n,
        frames_partition(entries, frames),
    ensures
        frames_partition(
            advanced_entries(entries, frames, current, n),
            advanced_frames(frames, current, n),
        ),
{
    lemma_next_frame_value(current, n);
    let c = next_frame(current, n);
    let t = advanced_frames(frames, current, n);
    let e = advanced_entries(entries, frames, current, n);
    assert(t[c] =~= Seq::<K>::empty());
    assert forall|g: int| 0 <= g < t.len() implies (#[trigger] t[g]).no_duplicates() by {
        assert(frames[g].no_duplicates());
    }
    assert forall|g: int, h: int, a: int, b: int|
        0 <= g < t.len() && 0 <= h < t.len() && g != h && 0 <= a < t[g].len() && 0 <= b < t[h].len()
            implies #[trigger] t[g][a] != #[trigger] t[h][b] by {
        assert(t[g][a] == frames[g][a]);
        assert(t[h][b] == frames[h][b]);
    }
    assert forall|k: K| #[trigger] e.contains_key(k) <==> exists|g: int|
        0 <= g < t.len() && (#[trigger] t[g]).contains(k) by {
        if e.contains_key(k) {
            let g = choose|g: int| 0 <= g < frames.len() && (#[trigger] frames[g]).contains(k);
            if g == c {
                assert(frames[c].to_set().contains(k));
            }
            let a = choose|a: int| 0 <= a < frames[g].len() && frames[g][a] == k;
            assert(t[g][a] == k);
            assert(t[g].contains(k));
        }
        if exists|g: int| 0 <= g < t.len() && (#[trigger] t[g]).contains(k) {
            let g = choose|g: int| 0 <= g < t.len() && (#[trigger] t[g]).contains(k);
            let a = choose|a: int| 0 <= a < t[g].len() && t[g][a] == k;
            assert(frames[g][a] == k);
            assert(frames[g].contains(k));
            assert(entries.contains_key(k));
            if frames[c].to_set().contains(k) {
                let b = choose|b: int| 0 <= b < frames[c].len() && frames[c][b] == k;
                assert(frames[c][b] != frames[g][a]);
            }
        }
    }
}

/// The per-frame key lists after `key` is stored in frame slot `current`:
/// a stored key moves to the end of the current slot, a new one is appended
/// there.
pub open spec fn frames_after_insert<K, V>(
    entries: Map<K, V>,
    frames: Seq<Seq<K>>,
    current: int,
    key: K,
) -> Seq<Seq<K>> {
    if entries.contains_key(key) {
        touch_frames(frames, current, key)
    } else {
        frames.update(current, frames[current].push(key))
    }
}

/// After `insert(key, value)` in frame slot `current`, the map holds `value`
/// under `key` through the next `n - 1` frame advances; the `n`-th advance
/// removes the entry and hands `value` back.
pub proof fn law_insert_then_expiry<K, V>(
    entries: Map<K, V>,
    frames: Seq<Seq<K>>,
    current: int,
    n: int,
    key: K,
    value: V,
)
    requires
        0 <= current < n,
        frames.len() == n,
        frames_partition(entries, frames),
    ensures
        ({
            let e = entries.insert(key, value);
            let f = frames_after_insert(entries, frames, current, key);
            &&& forall|j: nat|
                j < n ==> #[trigger] entries_after(e, f, current, n, j).contains_key(key)
                    && entries_after(e, f, current, n, j)[key] == value
            &&& !entries_after(e, f, current, n, n as nat).contains_key(key)
            &&& expired_values(
                entries_after(e, f, current, n, (n - 1) as nat),
                frames_after(f, current, n, (n - 1) as nat),
                current_after(current, n, (n - 1) as nat),
                n,
            ).contains(value)
        }),
{
    let e = entries.insert(key, value);
    let f = frames_after_insert(entries, frames, current, key);
    if entries.contains_key(key) {
        law_use_moves_to_current(entries, frames, current, key);
        assert forall|k: K| #[trigger] e.contains_key(k) == entries.contains_key(k) by {}
        assert(frames_partition(e, f));
    } else {
        law_insert_new_in_current(entries, frames, current, key, value);
    }
    assert(f.len() == n);
    law_entry_lifetime(e, f, current, n, key);
}

/// Of the expiring keys `ks` of a new frame: taking all of them removes and
/// returns what a full `new_frame` does and leaves the slot empty; taking
/// none returns nothing and leaves the entries and the slot as they were.
pub proof fn law_taking_all_or_none<K, V>(entries: Map<K, V>, ks: Seq<K>)
    ensures
        ks.take(ks.len() as int).map_values(|k: K| entries[k]) == ks.map_values(|k: K| entries[k]),
        entries.remove_keys(ks.take(ks.len() as int).to_set()) == entries.remove_keys(ks.to_set()),
        ks.skip(ks.len() as int) == Seq::<K>::empty(),
        ks.take(0).map_values(|k: K| entries[k]) == Seq::<V>::empty(),
        entries.remove_keys(ks.take(0).to_set()) == entries,
        ks.skip(0) == ks,
{
    assert(ks.take(ks.len() as int) =~= ks);
    assert(ks.skip(ks.len() as int) =~= Seq::<K>::empty());
    assert(ks.take(0).map_values(|k: K| entries[k]) =~= Seq::<V>::empty());
    assert(ks.take(0).to_set() =~= Set::<K>::empty());
    assert(entries.remove_keys(Set::<K>::empty()) =~= entries);
    assert(ks.skip(0) =~= ks);
}

} // verus!

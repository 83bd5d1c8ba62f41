use vstd::prelude::*;
use vstd::string::StringSliceAdditionalSpecFns;
use vstd::utf8::encode_utf8;

use crate::order::{bytes_less, bytes_lt, key_lt, lemma_key_lt_order};

verus! {

/// One entry of a query map, read as text: a key and its values in order.
pub type EntryView = (Seq<char>, Seq<Seq<char>>);

/// The texts of a list of strings.
pub open spec fn texts(v: Seq<String>) -> Seq<Seq<char>> {
    v.map_values(|s: String| s@)
}

/// The text view of one stored entry.
pub open spec fn entry_view(e: (String, Vec<String>)) -> EntryView {
    (e.0@, texts(e.1@))
}

/// The text views of a list of key/value pairs.
pub open spec fn pair_texts(p: Seq<(String, String)>) -> Seq<(Seq<char>, Seq<char>)> {
    p.map_values(|q: (String, String)| (q.0@, q.1@))
}

/// Entries whose keys strictly increase in the order of `str`, each with at
/// least one value: the shape of a `BTreeMap<String, Vec<String>>` filled by
/// pushing values under keys.
pub open spec fn entries_wf(e: Seq<EntryView>) -> bool {
    &&& forall|i: int, j: int| 0 <= i < j < e.len() ==> key_lt(#[trigger] e[i].0, #[trigger] e[j].0)
    &&& forall|i: int| 0 <= i < e.len() ==> (#[trigger] e[i]).1.len() > 0
}

/// Whether some entry has key `k`.
pub open spec fn has_key(e: Seq<EntryView>, k: Seq<char>) -> bool {
    exists|i: int| 0 <= i < e.len() && (#[trigger] e[i]).0 == k
}

/// The values stored under `k` (meaningful where `has_key`).
pub open spec fn values_of(e: Seq<EntryView>, k: Seq<char>) -> Seq<Seq<char>> {
    e[choose|i: int| 0 <= i < e.len() && (#[trigger] e[i]).0 == k].1
}

/// The map from keys to their lists of values that the entries describe.
pub open spec fn entries_map(e: Seq<EntryView>) -> Map<Seq<char>, Seq<Seq<char>>> {
    Map::new(|k: Seq<char>| has_key(e, k), |k: Seq<char>| values_of(e, k))
}

/// The map after pushing `v` under `k`, as `entry(k).or_default().push(v)` does.
pub open spec fn add_value(m: Map<Seq<char>, Seq<Seq<char>>>, k: Seq<char>, v: Seq<char>) -> Map<
    Seq<char>,
    Seq<Seq<char>>,
> {
    m.insert(
        k,
        if m.contains_key(k) {
            m[k].push(v)
        } else {
            seq![v]
        },
    )
}

/// The map that pushing each pair in turn builds from the empty map.
pub open spec fn group_pairs(p: Seq<(Seq<char>, Seq<char>)>) -> Map<Seq<char>, Seq<Seq<char>>>
    decreases p.len(),
{
    if p.len() == 0 {
        Map::empty()
    } else {
        add_value(group_pairs(p.drop_last()), p.last().0, p.last().1)
    }
}

/// The values of the pairs whose key is `k`, in the order of the pairs.
pub open spec fn values_under(p: Seq<(Seq<char>, Seq<char>)>, k: Seq<char>) -> Seq<Seq<char>> {
    p.filter(|q: (Seq<char>, Seq<char>)| q.0 == k).map_values(|q: (Seq<char>, Seq<char>)| q.1)
}

/// Grouping pairs keeps every value: a key is in the map exactly when some
/// pair has it, and its values are those of all the pairs with that key, in
/// order, repeated values included (so there are as many as such pairs).
pub proof fn lemma_group_pairs_values(p: Seq<(Seq<char>, Seq<char>)>, k: Seq<char>)
    ensures
        group_pairs(p).contains_key(k) <==> exists|i: int| 0 <= i < p.len() && (#[trigger] p[i]).0 == k,
        group_pairs(p).contains_key(k) ==> group_pairs(p)[k] == values_under(p, k),
        !group_pairs(p).contains_key(k) ==> values_under(p, k).len() == 0,
    decreases p.len(),
{
    reveal(Seq::filter);
    let pred = |q: (Seq<char>, Seq<char>)| q.0 == k;
    let f = |q: (Seq<char>, Seq<char>)| q.1;
    if p.len() == 0 {
        assert(values_under(p, k) =~= Seq::<Seq<char>>::empty());
    } else {
        let r = p.drop_last();
        lemma_group_pairs_values(r, k);
        assert(p.filter(pred) == if pred(p.last()) {
            r.filter(pred).push(p.last())
        } else {
            r.filter(pred)
        });
        if p.last().0 == k {
            assert(r.filter(pred).push(p.last()).map_values(f) =~= r.filter(pred).map_values(f).push(
                p.last().1,
            ));
            assert(p[p.len() - 1].0 == k);
            if !group_pairs(r).contains_key(k) {
                assert(values_under(r, k).len() == 0);
                assert(values_under(r, k) =~= Seq::<Seq<char>>::empty());
            }
        } else {
            assert forall|i: int| 0 <= i < p.len() && (#[trigger] p[i]).0 == k implies 0 <= i < r.len()
                && r[i].0 == k by {}
            assert forall|i: int| 0 <= i < r.len() && (#[trigger] r[i]).0 == k implies 0 <= i < p.len()
                && p[i].0 == k by {
                assert(p[i] == r[i]);
            }
        }
    }
}

/// Pushing a value under a key makes that value the key's last one, keeps
/// the key's earlier values before it, and leaves every other key as it was.
pub proof fn lemma_add_value_lookup(
    m: Map<Seq<char>, Seq<Seq<char>>>,
    k: Seq<char>,
    v: Seq<char>,
    other: Seq<char>,
)
    ensures
        add_value(m, k, v).contains_key(k),
        add_value(m, k, v)[k].last() == v,
        add_value(m, k, v)[k].drop_last() == (if m.contains_key(k) {
            m[k]
        } else {
            Seq::empty()
        }),
        other != k ==> add_value(m, k, v).contains_key(other) == m.contains_key(other),
        other != k && m.contains_key(other) ==> add_value(m, k, v)[other] == m[other],
{
    if m.contains_key(k) {
        assert(m[k].push(v).drop_last() =~= m[k]);
    } else {
        assert(seq![v].drop_last() =~= Seq::<Seq<char>>::empty());
    }
}

/// Under sorted (hence distinct) keys, the entry at `i` is what the map holds for its key.
pub proof fn lemma_entries_map_at(e: Seq<EntryView>, i: int)
    requires
        entries_wf(e),
        0 <= i < e.len(),
    ensures
        entries_map(e).contains_key(e[i].0),
        entries_map(e)[e[i].0] == e[i].1,
{
    lemma_key_lt_order();
    let k = e[i].0;
    assert(has_key(e, k));
    let c = choose|c: int| 0 <= c < e.len() && (#[trigger] e[c]).0 == k;
    if c < i {
        assert(key_lt(e[c].0, e[i].0));
    } else if c > i {
        assert(key_lt(e[i].0, e[c].0));
    }
}

/// A map from `String` keys to lists of `String` values, kept as a list of
/// entries sorted by key in the order of `str`, as a `BTreeMap` walks them.
pub struct QueryMap {
    entries: Vec<(String, Vec<String>)>,
}

impl View for QueryMap {
    type V = Seq<EntryView>;

    closed spec fn view(&self) -> Seq<EntryView> {
        self.entries@.map_values(|e: (String, Vec<String>)| entry_view(e))
    }
}

impl QueryMap {
    /// Keys sorted and distinct, no key without a value.
    pub open spec fn wf(&self) -> bool {
        entries_wf(self@)
    }

    /// The key/values map that this value stands for.
    pub open spec fn as_map(&self) -> Map<Seq<char>, Seq<Seq<char>>> {
        entries_map(self@)
    }

    /// The empty map.
    pub fn new() -> (res: Self)
        ensures
            res.wf(),
            res@ == Seq::<EntryView>::empty(),
            res.as_map() == Map::<Seq<char>, Seq<Seq<char>>>::empty(),
    {
        let res = QueryMap { entries: Vec::new() };
        assert(res@ =~= Seq::<EntryView>::empty());
        assert(res.as_map() =~= Map::<Seq<char>, Seq<Seq<char>>>::empty());
        res
    }

    /// The number of distinct keys.
    pub fn len(&self) -> (res: usize)
        ensures
            res == self@.len(),
    {
        self.entries.len()
    }

    /// Whether the map has no key.
    pub fn is_empty(&self) -> (res: bool)
        ensures
            res == (self@.len() == 0),
    {
        self.entries.len() == 0
    }

    /// The entries, sorted by key.
    pub fn entries(&self) -> (res: &Vec<(String, Vec<String>)>)
        ensures
            res@.map_values(|e: (String, Vec<String>)| entry_view(e)) == self@,
    {
        &self.entries
    }

    /// The values stored under `key`, if any.
    pub fn get(&self, key: &str) -> (res: Option<&Vec<String>>)
        requires
            self.wf(),
        ensures
            match res {
                Some(v) => self.as_map().contains_key(key@) && texts(v@) == self.as_map()[key@],
                None => !self.as_map().contains_key(key@),
            },
    {
        let k = key.to_owned();
        let mut i: usize = 0;
        while i < self.entries.len()
            invariant
                i <= self@.len(),
                self.wf(),
                k@ == key@,
                self@.len() == self.entries@.len(),
                forall|j: int| 0 <= j < i ==> (#[trigger] self@[j]).0 != key@,
            decreases self@.len() - i,
        {
            if self.entries[i].0 == k {
                proof {
                    lemma_entries_map_at(self@, i as int);
                }
                return Some(&self.entries[i].1);
            }
            i += 1;
        }
        None
    }

    /// Pushes `value` onto the values of `key`, adding the key where it is new.
    pub fn insert(&mut self, key: String, value: String)
        requires
            old(self).wf(),
        ensures
            final(self).wf(),
            final(self).as_map() == add_value(old(self).as_map(), key@, value@),
    {
        let ghost old_view = self@;
        let ghost old_entries = self.entries@;
        let ghost old_map = self.as_map();
        let ghost kv = key@;
        let ghost vv = value@;
        proof {
            lemma_key_lt_order();
        }
        let key_bytes = key.as_str().as_bytes();
        let mut i: usize = 0;
        while i < self.entries.len()
            invariant
                i <= self@.len(),
                self@ == old_view,
                self.entries@ == old_entries,
                self@.len() == self.entries@.len(),
                key_bytes@ == encode_utf8(kv),
                forall|j: int| 0 <= j < i ==> key_lt(#[trigger] self@[j].0, kv),
            ensures
                i <= self@.len(),
                self@ == old_view,
                self.entries@ == old_entries,
                forall|j: int| 0 <= j < i ==> key_lt(#[trigger] self@[j].0, kv),
                i == self@.len() || !key_lt(self@[i as int].0, kv),
            decreases self@.len() - i,
        {
            if bytes_less(self.entries[i].0.as_str().as_bytes(), key_bytes) {
                i += 1;
            } else {
                break;
            }
        }
        if i < self.entries.len() && self.entries[i].0 == key {
            let mut e = self.entries.remove(i);
            e.1.push(value);
            self.entries.insert(i, e);
            proof {
                assert(self.entries@ =~= old_entries.update(i as int, e));
                assert(texts(e.1@) =~= old_view[i as int].1.push(vv));
                assert(self@ =~= old_view.update(i as int, (kv, old_view[i as int].1.push(vv))));
                lemma_entries_map_at(old_view, i as int);
                let m = add_value(old_map, kv, vv);
                assert forall|j: int| 0 <= j < self@.len() implies m.contains_key(
                    #[trigger] self@[j].0,
                ) && m[self@[j].0] == self@[j].1 by {
                    if j != i {
                        lemma_entries_map_at(old_view, j);
                        if j < i {
                            assert(key_lt(old_view[j].0, old_view[i as int].0));
                        } else {
                            assert(key_lt(old_view[i as int].0, old_view[j].0));
                        }
                    }
                }
                assert forall|k: Seq<char>| m.contains_key(k) implies has_key(self@, k) by {
                    if k == kv {
                        assert(self@[i as int].0 == k);
                    } else {
                        let c = choose|c: int| 0 <= c < old_view.len() && (#[trigger] old_view[c]).0 == k;
                        assert(self@[c].0 == k);
                    }
                }
                lemma_entries_map_char(self@, m);
            }
        } else {
            proof {
                if i < old_view.len() {
                    assert(old_view[i as int].0 == old_entries[i as int].0@);
                    assert(old_view[i as int].0 != kv);
                    assert(key_lt(kv, old_view[i as int].0));
                }
            }
            let mut vals: Vec<String> = Vec::new();
            vals.push(value);
            let ghost e = (key, vals);
            self.entries.insert(i, (key, vals));
            proof {
                assert(self.entries@ =~= old_entries.insert(i as int, e));
                assert(texts(e.1@) =~= seq![vv]);
                assert(self@ =~= old_view.insert(i as int, (kv, seq![vv])));
                assert forall|j: int| 0 <= j < old_view.len() implies (#[trigger] old_view[j]).0
                    != kv by {
                    if j >= i {
                        assert(key_lt(kv, old_view[i as int].0));
                        if j > i {
                            assert(key_lt(old_view[i as int].0, old_view[j].0));
                        }
                    }
                }
                assert(!old_map.contains_key(kv));
                let m = add_value(old_map, kv, vv);
                assert forall|a: int, b: int| 0 <= a < b < self@.len() implies key_lt(
                    #[trigger] self@[a].0,
                    #[trigger] self@[b].0,
                ) by {
                    if a < i && b == i {
                    } else if a < i && b > i {
                        assert(self@[b] == old_view[b - 1]);
                        if b - 1 > i {
                            assert(key_lt(old_view[i as int].0, old_view[b - 1].0));
                        }
                        assert(key_lt(kv, old_view[b - 1].0));
                    } else if a == i {
                        assert(self@[b] == old_view[b - 1]);
                        if b - 1 > i {
                            assert(key_lt(old_view[i as int].0, old_view[b - 1].0));
                        }
                    } else if a > i {
                        assert(self@[a] == old_view[a - 1]);
                        assert(self@[b] == old_view[b - 1]);
                    }
                }
                assert forall|j: int| 0 <= j < self@.len() implies m.contains_key(
                    #[trigger] self@[j].0,
                ) && m[self@[j].0] == self@[j].1 by {
                    if j < i {
                        lemma_entries_map_at(old_view, j);
                    } else if j > i {
                        assert(self@[j] == old_view[j - 1]);
                        lemma_entries_map_at(old_view, j - 1);
                    }
                }
                assert forall|k: Seq<char>| m.contains_key(k) implies has_key(self@, k) by {
                    if k == kv {
                        assert(self@[i as int].0 == k);
                    } else {
                        let c = choose|c: int| 0 <= c < old_view.len() && (#[trigger] old_view[c]).0 == k;
                        if c < i {
                            assert(self@[c].0 == k);
                        } else {
                            assert(self@[c + 1].0 == k);
                        }
                    }
                }
                lemma_entries_map_char(self@, m);
            }
        }
    }
}

/// Under sorted keys, the entries describe exactly the map that holds each
/// entry's values under its key and has no other key.
pub proof fn lemma_entries_map_char(e: Seq<EntryView>, m: Map<Seq<char>, Seq<Seq<char>>>)
    requires
        entries_wf(e),
        forall|j: int| 0 <= j < e.len() ==> m.contains_key(#[trigger] e[j].0) && m[e[j].0] == e[j].1,
        forall|k: Seq<char>| m.contains_key(k) ==> has_key(e, k),
    ensures
        entries_map(e) == m,
{
    assert forall|k: Seq<char>| #[trigger] entries_map(e).contains_key(k) implies m.contains_key(k)
        && entries_map(e)[k] == m[k] by {
        let c = choose|c: int| 0 <= c < e.len() && (#[trigger] e[c]).0 == k;
        lemma_entries_map_at(e, c);
    }
    assert(entries_map(e) =~= m);
}

/// Builds the map that pushing each `(key, value)` pair in turn under its key
/// gives: keys sorted, each key's values in the order of the pairs.
pub fn build_query_map(pairs: &Vec<(String, String)>) -> (res: QueryMap)
    ensures
        res.wf(),
        res.as_map() == group_pairs(pair_texts(pairs@)),
        forall|k: Seq<char>|
            #![trigger res.as_map().contains_key(k)]
            res.as_map().contains_key(k) <==> exists|i: int|
                0 <= i < pairs@.len() && (#[trigger] pairs@[i]).0@ == k,
        forall|k: Seq<char>|
            #[trigger] res.as_map().contains_key(k) ==> res.as_map()[k] == values_under(
                pair_texts(pairs@),
                k,
            ),
{
    let mut map = QueryMap::new();
    let mut i: usize = 0;
    while i < pairs.len()
        invariant
            i <= pairs@.len(),
            map.wf(),
            map.as_map() == group_pairs(pair_texts(pairs@).take(i as int)),
        decreases pairs@.len() - i,
    {
        let key = pairs[i].0.clone();
        let value = pairs[i].1.clone();
        map.insert(key, value);
        proof {
            assert(pair_texts(pairs@).take(i + 1).drop_last() =~= pair_texts(pairs@).take(i as int));
        }
        i += 1;
    }
    assert(pair_texts(pairs@).take(pairs@.len() as int) =~= pair_texts(pairs@));
    let ghost pt = pair_texts(pairs@);
    assert forall|k: Seq<char>| #[trigger] map.as_map().contains_key(k) <==> exists|i: int|
        0 <= i < pairs@.len() && (#[trigger] pairs@[i]).0@ == k by {
        lemma_group_pairs_values(pt, k);
        if map.as_map().contains_key(k) {
            let i = choose|i: int| 0 <= i < pt.len() && (#[trigger] pt[i]).0 == k;
            assert(pairs@[i].0@ == k);
        }
        if exists|i: int| 0 <= i < pairs@.len() && (#[trigger] pairs@[i]).0@ == k {
            let i = choose|i: int| 0 <= i < pairs@.len() && (#[trigger] pairs@[i]).0@ == k;
            assert(pt[i].0 == k);
        }
    }
    assert forall|k: Seq<char>| #[trigger] map.as_map().contains_key(k) implies map.as_map()[k]
        == values_under(pt, k) by {
        lemma_group_pairs_values(pt, k);
    }
    map
}

} // verus!

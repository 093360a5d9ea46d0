//! The problem cache: a bounded, recency-ordered store of fetched problem
//! records, keyed by problem id. The most recently inserted or retrieved
//! problem sits at the front; the cache never holds more than
//! [`CACHE_CAPACITY`] entries. The backing store is an insertion-ordered
//! map; loading from and saving to disk is the caller's concern, through
//! [`ProblemCache::from_list`] and [`ProblemCache::list`].

use crate::problem::Problem;
use indexmap::IndexMap;
use vstd::prelude::*;

verus! {

/// Most entries the cache may hold.
pub const CACHE_CAPACITY: usize = 10;

#[verifier::external_type_specification]
#[verifier::external_body]
#[verifier::reject_recursive_types(K)]
#[verifier::reject_recursive_types(V)]
#[verifier::reject_recursive_types(S)]
pub struct ExIndexMap<K, V, S>(IndexMap<K, V, S>);

/// What an insertion-ordered map holds: its key-value pairs, in order.
pub uninterp spec fn map_entries(m: IndexMap<u64, Problem>) -> Seq<(u64, Problem)>;

/// No key occurs twice.
pub open spec fn keys_distinct(s: Seq<(u64, Problem)>) -> bool {
    forall|i: int, j: int| 0 <= i < j < s.len() ==> (#[trigger] s[i]).0 != (#[trigger] s[j]).0
}

/// Some entry carries this key.
pub open spec fn has_id(s: Seq<(u64, Problem)>, id: u64) -> bool {
    exists|i: int| 0 <= i < s.len() && (#[trigger] s[i]).0 == id
}

/// The position of the entry carrying this key.
pub open spec fn id_index(s: Seq<(u64, Problem)>, id: u64) -> int {
    choose|i: int| 0 <= i < s.len() && (#[trigger] s[i]).0 == id
}

/// The entries with every entry keyed `id` taken out, order kept.
pub open spec fn without_id(s: Seq<(u64, Problem)>, id: u64) -> Seq<(u64, Problem)>
    decreases s.len(),
{
    if s.len() == 0 {
        s
    } else if s[0].0 == id {
        without_id(s.drop_first(), id)
    } else {
        seq![s[0]] + without_id(s.drop_first(), id)
    }
}

/// Relies on `indexmap::IndexMap::new`: a fresh map is empty.
#[verifier::external_body]
fn im_new() -> (m: IndexMap<u64, Problem>)
    ensures
        map_entries(m) == Seq::<(u64, Problem)>::empty(),
{
    IndexMap::new()
}

/// Relies on `indexmap::IndexMap::len`: the number of entries.
#[verifier::external_body]
fn im_len(m: &IndexMap<u64, Problem>) -> (r: usize)
    ensures
        r == map_entries(*m).len(),
{
    m.len()
}

/// Relies on `indexmap::IndexMap::insert_before` at index 0: the pair
/// lands at the front; an entry with an equal key is taken out (its value
/// replaced, the entry moved to the front); all other entries keep their
/// order. Keys stay pairwise distinct.
#[verifier::external_body]
fn im_insert_front(m: &mut IndexMap<u64, Problem>, id: u64, p: Problem)
    ensures
        map_entries(*final(m)) == seq![(id, p)] + without_id(map_entries(*old(m)), id),
        keys_distinct(map_entries(*old(m))) ==> keys_distinct(map_entries(*final(m))),
{
    m.insert_before(0, id, p);
}

/// Relies on `indexmap::IndexMap::shift_remove`: the entry with this key
/// is taken out, the remaining entries keep their order; the return says
/// whether the key was present.
#[verifier::external_body]
fn im_shift_remove(m: &mut IndexMap<u64, Problem>, id: u64) -> (removed: bool)
    ensures
        removed == has_id(map_entries(*old(m)), id),
        map_entries(*final(m)) == without_id(map_entries(*old(m)), id),
        keys_distinct(map_entries(*old(m))) ==> keys_distinct(map_entries(*final(m))),
{
    m.shift_remove(&id).is_some()
}

/// Relies on `indexmap::IndexMap::shift_remove_index`: the entry at this
/// position is taken out, the remaining entries keep their order.
#[verifier::external_body]
fn im_shift_remove_index(m: &mut IndexMap<u64, Problem>, index: usize)
    requires
        index < map_entries(*old(m)).len(),
    ensures
        map_entries(*final(m)) == map_entries(*old(m)).remove(index as int),
        keys_distinct(map_entries(*old(m))) ==> keys_distinct(map_entries(*final(m))),
{
    m.shift_remove_index(index);
}

/// Relies on `indexmap::IndexMap::clear`: all entries are taken out.
#[verifier::external_body]
fn im_clear(m: &mut IndexMap<u64, Problem>)
    ensures
        map_entries(*final(m)) == Seq::<(u64, Problem)>::empty(),
{
    m.clear()
}

/// Relies on `indexmap::IndexMap::get_index_of`: the position of the entry
/// with this key, or `None` when the key is absent.
#[verifier::external_body]
fn im_get_index_of(m: &IndexMap<u64, Problem>, id: u64) -> (r: Option<usize>)
    ensures
        match r {
            Some(i) => i < map_entries(*m).len() && map_entries(*m)[i as int].0 == id,
            None => !has_id(map_entries(*m), id),
        },
{
    m.get_index_of(&id)
}

/// Relies on `indexmap::IndexMap::move_index` with target 0: the entry at
/// `from` moves to the front, the others keep their order.
#[verifier::external_body]
fn im_move_to_front(m: &mut IndexMap<u64, Problem>, from: usize)
    requires
        from < map_entries(*old(m)).len(),
    ensures
        map_entries(*final(m)) == seq![map_entries(*old(m))[from as int]] + map_entries(
            *old(m),
        ).remove(from as int),
        keys_distinct(map_entries(*old(m))) ==> keys_distinct(map_entries(*final(m))),
{
    m.move_index(from, 0);
}

/// Relies on `indexmap::IndexMap::get`: a copy of the value stored under
/// this key, or `None` when the key is absent.
#[verifier::external_body]
fn im_get_cloned(m: &IndexMap<u64, Problem>, id: u64) -> (r: Option<Problem>)
    ensures
        match r {
            Some(p) => has_id(map_entries(*m), id) && map_entries(*m)[id_index(
                map_entries(*m),
                id,
            )] == (id, p),
            None => !has_id(map_entries(*m), id),
        },
{
    m.get(&id).cloned()
}

/// Relies on `indexmap::IndexMap::values`: copies of the values, in entry
/// order.
#[verifier::external_body]
fn im_values_cloned(m: &IndexMap<u64, Problem>) -> (r: Vec<Problem>)
    ensures
        r@ == map_entries(*m).map_values(|e: (u64, Problem)| e.1),
{
    m.values().cloned().collect()
}

/// Every entry's key is the id of the problem it stores, and no key
/// occurs twice.
pub open spec fn entries_wf(s: Seq<(u64, Problem)>) -> bool {
    keys_distinct(s) && forall|i: int|
        0 <= i < s.len() ==> (#[trigger] s[i]).1.id == s[i].0
}

/// Taking out an absent key changes nothing.
pub proof fn lemma_without_id_absent(s: Seq<(u64, Problem)>, id: u64)
    requires
        !has_id(s, id),
    ensures
        without_id(s, id) == s,
    decreases s.len(),
{
    if s.len() > 0 {
        assert(s[0].0 != id);
        assert(!has_id(s.drop_first(), id)) by {
            if has_id(s.drop_first(), id) {
                let j = choose|j: int|
                    0 <= j < s.drop_first().len() && s.drop_first()[j].0 == id;
                assert(s[j + 1].0 == id);
            }
        }
        lemma_without_id_absent(s.drop_first(), id);
        assert(seq![s[0]] + s.drop_first() =~= s);
    }
}

/// With distinct keys, taking out the key at position `i` is the same as
/// removing that position.
pub proof fn lemma_without_id_at(s: Seq<(u64, Problem)>, i: int)
    requires
        keys_distinct(s),
        0 <= i < s.len(),
    ensures
        without_id(s, s[i].0) == s.remove(i),
    decreases s.len(),
{
    let id = s[i].0;
    if i == 0 {
        assert(!has_id(s.drop_first(), id)) by {
            if has_id(s.drop_first(), id) {
                let j = choose|j: int|
                    0 <= j < s.drop_first().len() && s.drop_first()[j].0 == id;
                assert(s[j + 1].0 == id);
            }
        }
        lemma_without_id_absent(s.drop_first(), id);
        assert(s.remove(0) =~= s.drop_first());
    } else {
        assert(keys_distinct(s.drop_first())) by {
            assert forall|p: int, q: int|
                0 <= p < q < s.drop_first().len() implies (#[trigger] s.drop_first()[p]).0 != (
            #[trigger] s.drop_first()[q]).0 by {
                assert(s.drop_first()[p] == s[p + 1]);
                assert(s.drop_first()[q] == s[q + 1]);
            }
        }
        assert(s.drop_first()[i - 1] == s[i]);
        lemma_without_id_at(s.drop_first(), i - 1);
        assert(s[0].0 != id);
        assert(seq![s[0]] + s.drop_first().remove(i - 1) =~= s.remove(i));
    }
}

/// Keys of the result: a key survives only if it was present and is not
/// the key taken out.
pub proof fn lemma_without_id_has(s: Seq<(u64, Problem)>, id: u64, k: u64)
    ensures
        has_id(without_id(s, id), k) ==> has_id(s, k) && k != id,
    decreases s.len(),
{
    if s.len() > 0 {
        lemma_without_id_has(s.drop_first(), id, k);
        if has_id(without_id(s, id), k) {
            if s[0].0 == id {
                assert(has_id(s.drop_first(), k));
                let m = choose|m: int|
                    0 <= m < s.drop_first().len() && s.drop_first()[m].0 == k;
                assert(s[m + 1].0 == k);
            } else {
                let w = seq![s[0]] + without_id(s.drop_first(), id);
                let j = choose|j: int| 0 <= j < w.len() && w[j].0 == k;
                if j == 0 {
                    assert(s[0].0 == k);
                } else {
                    assert(w[j] == without_id(s.drop_first(), id)[j - 1]);
                    assert(has_id(s.drop_first(), k));
                    let m = choose|m: int|
                        0 <= m < s.drop_first().len() && s.drop_first()[m].0 == k;
                    assert(s[m + 1].0 == k);
                }
            }
        }
    }
}

/// Taking a key out keeps the remaining entries well formed and never
/// grows the sequence.
pub proof fn lemma_without_id_wf(s: Seq<(u64, Problem)>, id: u64)
    requires
        entries_wf(s),
    ensures
        entries_wf(without_id(s, id)),
        without_id(s, id).len() <= s.len(),
    decreases s.len(),
{
    if s.len() > 0 {
        assert(entries_wf(s.drop_first())) by {
            assert forall|p: int, q: int|
                0 <= p < q < s.drop_first().len() implies (#[trigger] s.drop_first()[p]).0 != (
            #[trigger] s.drop_first()[q]).0 by {
                assert(s.drop_first()[p] == s[p + 1]);
                assert(s.drop_first()[q] == s[q + 1]);
            }
            assert forall|p: int|
                0 <= p < s.drop_first().len() implies (#[trigger] s.drop_first()[p]).1.id
                == s.drop_first()[p].0 by {
                assert(s.drop_first()[p] == s[p + 1]);
            }
        }
        lemma_without_id_wf(s.drop_first(), id);
        if s[0].0 != id {
            let w = seq![s[0]] + without_id(s.drop_first(), id);
            assert forall|p: int, q: int|
                0 <= p < q < w.len() implies (#[trigger] w[p]).0 != (#[trigger] w[q]).0 by {
                if p == 0 {
                    assert(w[q] == without_id(s.drop_first(), id)[q - 1]);
                    assert(has_id(without_id(s.drop_first(), id), w[q].0));
                    lemma_without_id_has(s.drop_first(), id, w[q].0);
                    let m = choose|m: int|
                        0 <= m < s.drop_first().len() && s.drop_first()[m].0 == w[q].0;
                    assert(s[m + 1].0 == w[q].0);
                    assert(s[0].0 != s[m + 1].0);
                } else {
                    assert(w[p] == without_id(s.drop_first(), id)[p - 1]);
                    assert(w[q] == without_id(s.drop_first(), id)[q - 1]);
                }
            }
            assert forall|p: int| 0 <= p < w.len() implies (#[trigger] w[p]).1.id == w[p].0 by {
                if p > 0 {
                    assert(w[p] == without_id(s.drop_first(), id)[p - 1]);
                }
            }
        }
    }
}

/// With distinct keys, taking out a present key removes exactly one entry.
pub proof fn lemma_without_id_len(s: Seq<(u64, Problem)>, id: u64)
    requires
        keys_distinct(s),
    ensures
        has_id(s, id) ==> without_id(s, id).len() == s.len() - 1,
        !has_id(s, id) ==> without_id(s, id) == s,
{
    if has_id(s, id) {
        let i = choose|i: int| 0 <= i < s.len() && (#[trigger] s[i]).0 == id;
        lemma_without_id_at(s, i);
        s.remove_ensures(i);
    } else {
        lemma_without_id_absent(s, id);
    }
}

/// A cache-management command.
#[derive(Debug)]
pub enum CacheCommand {
    /// list the cached problems
    List,
    /// remove the listed problems — all of them when no id is given
    Clear {
        problem_ids: Vec<u64>,
    },
    /// import a problem into the cache by hand
    Import {
        id: u64,
    },
}

/// The bounded, recency-ordered problem store.
#[derive(Debug)]
pub struct ProblemCache {
    map: IndexMap<u64, Problem>,
}

impl ProblemCache {
    /// The cache's contents: id-problem pairs, most recent first.
    pub closed spec fn entries(&self) -> Seq<(u64, Problem)> {
        map_entries(self.map)
    }

    /// The cache invariant: entries are well formed (key = problem id,
    /// keys distinct) and there are at most [`CACHE_CAPACITY`] of them.
    pub open spec fn wf(&self) -> bool {
        entries_wf(self.entries()) && self.entries().len() <= CACHE_CAPACITY
    }

    /// An empty cache.
    pub fn new() -> (r: Self)
        ensures
            r.wf(),
            r.entries() == Seq::<(u64, Problem)>::empty(),
    {
        ProblemCache { map: im_new() }
    }

    /// How many problems are cached.
    pub fn len(&self) -> (r: usize)
        ensures
            r == self.entries().len(),
    {
        im_len(&self.map)
    }

    /// A snapshot of the cached problems, most recent first.
    pub fn list(&self) -> (r: Vec<Problem>)
        ensures
            r@ == self.entries().map_values(|e: (u64, Problem)| e.1),
    {
        im_values_cloned(&self.map)
    }

    /// Look a problem up by id. On a hit the entry is promoted to the
    /// front of the recency order; on a miss nothing changes.
    pub fn get(&mut self, id: u64) -> (r: Option<Problem>)
        requires
            old(self).wf(),
        ensures
            final(self).wf(),
            final(self).entries().len() == old(self).entries().len(),
            r is Some <==> has_id(old(self).entries(), id),
            r matches Some(p) ==> p.id == id && old(self).entries()[id_index(
                old(self).entries(),
                id,
            )] == (id, p) && final(self).entries() == seq![(id, p)] + without_id(
                old(self).entries(),
                id,
            ) && final(self).entries()[0] == (id, p),
            r is None ==> final(self).entries() == old(self).entries(),
    {
        let ghost s0 = self.entries();
        match im_get_index_of(&self.map, id) {
            Some(idx) => {
                im_move_to_front(&mut self.map, idx);
                proof {
                    lemma_without_id_at(s0, idx as int);
                    s0.remove_ensures(idx as int);
                }
                let ghost s1 = self.entries();
                let r = im_get_cloned(&self.map, id);
                proof {
                    assert(s1[0].0 == id);
                    assert(has_id(s1, id)) by {
                        assert(s1[0].0 == id);
                    }
                    let ii = id_index(s1, id);
                    assert(0 <= ii < s1.len() && s1[ii].0 == id);
                    assert(ii == 0) by {
                        if ii != 0 {
                            assert(s1[0].0 == s1[ii].0);
                        }
                    }
                    assert(id_index(s0, id) == idx as int) by {
                        let jj = id_index(s0, id);
                        assert(0 <= jj < s0.len() && s0[jj].0 == id) by {
                            assert(s0[idx as int].0 == id);
                        }
                        if jj != idx as int {
                            assert(s0[jj].0 == s0[idx as int].0);
                        }
                    }
                    let p = r.unwrap();
                    assert(s1[0] == s0[idx as int]);
                    assert(p.id == id);
                    assert forall|k: int|
                        0 <= k < s1.len() implies (#[trigger] s1[k]).1.id == s1[k].0 by {
                        if k > 0 {
                            assert(s1[k] == s0.remove(idx as int)[k - 1]);
                            if k - 1 < idx as int {
                                assert(s0.remove(idx as int)[k - 1] == s0[k - 1]);
                            } else {
                                assert(s0.remove(idx as int)[k - 1] == s0[k]);
                            }
                        }
                    }
                }
                r
            },
            None => {
                None
            },
        }
    }

    /// Insert a problem, keyed by its id, at the front of the recency
    /// order. An entry with the same id is replaced; the least recently
    /// used entries beyond the capacity are evicted from the tail.
    pub fn insert(&mut self, problem: Problem)
        requires
            old(self).wf(),
        ensures
            final(self).wf(),
            final(self).entries().len() <= CACHE_CAPACITY,
            final(self).entries()[0] == (problem.id, problem),
            final(self).entries() == inserted(old(self).entries(), problem),
    {
        let ghost s0 = self.entries();
        let id = problem.id;
        proof {
            lemma_without_id_wf(s0, id);
        }
        im_insert_front(&mut self.map, id, problem);
        let ghost s1 = self.entries();
        proof {
            assert forall|k: int| 0 <= k < s1.len() implies (#[trigger] s1[k]).1.id == s1[k].0 by {
                if k > 0 {
                    assert(s1[k] == without_id(s0, id)[k - 1]);
                }
            }
            assert(s1.len() <= CACHE_CAPACITY + 1);
        }
        while im_len(&self.map) > CACHE_CAPACITY
            invariant
                entries_wf(self.entries()),
                s1.len() <= CACHE_CAPACITY + 1,
                self.entries() == s1 || (s1.len() == CACHE_CAPACITY + 1 && self.entries()
                    == s1.take(CACHE_CAPACITY as int)),
            decreases self.entries().len(),
        {
            let ghost cur = self.entries();
            proof {
                assert(cur == s1);
                assert(cur.len() == CACHE_CAPACITY + 1);
            }
            let len = im_len(&self.map);
            im_shift_remove_index(&mut self.map, len - 1);
            proof {
                cur.remove_ensures(cur.len() - 1);
                assert(self.entries() =~= s1.take(CACHE_CAPACITY as int));
                assert forall|p: int, q: int|
                    0 <= p < q < self.entries().len() implies (#[trigger] self.entries()[p]).0 != (
                #[trigger] self.entries()[q]).0 by {
                    assert(self.entries()[p] == cur[p]);
                    assert(self.entries()[q] == cur[q]);
                }
                assert forall|p: int|
                    0 <= p < self.entries().len() implies (#[trigger] self.entries()[p]).1.id
                    == self.entries()[p].0 by {
                    assert(self.entries()[p] == cur[p]);
                }
            }
        }
        proof {
            if s1.len() <= CACHE_CAPACITY {
                assert(self.entries() == s1);
            }
            assert(self.entries()[0] == s1[0]);
        }
    }

    /// Rebuild a cache from a listed snapshot, first problem most recent:
    /// the inverse of [`Self::list`]. Only the first [`CACHE_CAPACITY`]
    /// items are taken, and a later duplicate of an id yields to the
    /// earlier item, so any input produces a well-formed cache.
    pub fn from_list(problems: Vec<Problem>) -> (r: Self)
        ensures
            r.wf(),
            r.entries() == rebuilt(
                problems@.take(
                    vstd::math::min(problems@.len() as int, CACHE_CAPACITY as int),
                ),
            ),
    {
        let mut problems = problems;
        let ghost orig = problems@;
        if problems.len() > CACHE_CAPACITY {
            problems.truncate(CACHE_CAPACITY);
        }
        let ghost ps = problems@;
        proof {
            assert(ps =~= orig.take(vstd::math::min(orig.len() as int, CACHE_CAPACITY as int)));
            assert(rebuilt(ps.subrange(ps.len() as int, ps.len() as int)) =~= Seq::<(
                u64,
                Problem,
            )>::empty());
        }
        let ghost n = ps.len() as int;
        let mut map = im_new();
        while problems.len() > 0
            invariant
                n == ps.len(),
                problems@ == ps.subrange(0, problems@.len() as int),
                problems@.len() <= n,
                map_entries(map) == rebuilt(ps.subrange(problems@.len() as int, n)),
            decreases problems@.len(),
        {
            let ghost len0 = problems@.len() as int;
            let p = match problems.pop() {
                Some(p) => p,
                None => {
                    proof {
                        assert(false);
                    }
                    return ProblemCache { map };
                },
            };
            proof {
                assert(p == ps[len0 - 1]);
                assert(problems@ =~= ps.subrange(0, len0 - 1));
            }
            im_insert_front(&mut map, p.id, p);
            proof {
                let sub = ps.subrange(len0 - 1, n);
                assert(sub[0] == ps[len0 - 1]);
                assert(sub.drop_first() =~= ps.subrange(len0, n));
                assert(map_entries(map) == rebuilt(sub));
            }
        }
        proof {
            assert(ps.subrange(0, n) =~= ps);
            lemma_rebuilt_wf(ps);
        }
        ProblemCache { map }
    }

    /// Remove entries. A non-empty id list removes exactly the entries
    /// whose ids are listed; an empty list clears the whole cache. The
    /// count of entries actually removed is returned.
    pub fn remove(&mut self, ids: &Vec<u64>) -> (count: usize)
        requires
            old(self).wf(),
        ensures
            final(self).wf(),
            ids@.len() == 0 ==> final(self).entries() == Seq::<(u64, Problem)>::empty() && count
                == old(self).entries().len(),
            ids@.len() > 0 ==> final(self).entries() == without_ids(old(self).entries(), ids@)
                && count == old(self).entries().len() - final(self).entries().len(),
    {
        let ghost s0 = self.entries();
        if ids.len() == 0 {
            let count = im_len(&self.map);
            im_clear(&mut self.map);
            return count;
        }
        let mut count: usize = 0;
        let mut k: usize = 0;
        proof {
            assert(without_ids(s0, ids@.take(0)) == s0);
        }
        while k < ids.len()
            invariant
                0 <= k <= ids@.len(),
                entries_wf(self.entries()),
                self.entries() == without_ids(s0, ids@.take(k as int)),
                self.entries().len() <= s0.len() <= CACHE_CAPACITY,
                count == s0.len() - self.entries().len(),
            decreases ids@.len() - k,
        {
            let ghost cur = self.entries();
            let id = ids[k];
            let removed = im_shift_remove(&mut self.map, id);
            proof {
                lemma_without_id_wf(cur, id);
                lemma_without_id_len(cur, id);
                assert(ids@.take(k + 1).drop_last() =~= ids@.take(k as int));
                assert(ids@.take(k + 1).last() == ids@[k as int]);
            }
            if removed {
                count += 1;
            }
            k += 1;
        }
        proof {
            assert(ids@.take(ids@.len() as int) =~= ids@);
        }
        count
    }
}

/// Repeated removal of a list of ids, first id first.
pub open spec fn without_ids(s: Seq<(u64, Problem)>, ids: Seq<u64>) -> Seq<(u64, Problem)>
    decreases ids.len(),
{
    if ids.len() == 0 {
        s
    } else {
        without_id(without_ids(s, ids.drop_last()), ids.last())
    }
}

/// What inserting a problem does to the cache contents: the pair goes to
/// the front, an entry with the same id goes away, and the tail is cut to
/// the capacity.
pub open spec fn inserted(s: Seq<(u64, Problem)>, p: Problem) -> Seq<(u64, Problem)> {
    let w = seq![(p.id, p)] + without_id(s, p.id);
    if w.len() <= CACHE_CAPACITY {
        w
    } else {
        w.take(CACHE_CAPACITY as int)
    }
}

/// Contents rebuilt from a list of problems, first item at the front.
pub open spec fn rebuilt(ps: Seq<Problem>) -> Seq<(u64, Problem)>
    decreases ps.len(),
{
    if ps.len() == 0 {
        Seq::empty()
    } else {
        seq![(ps[0].id, ps[0])] + without_id(rebuilt(ps.drop_first()), ps[0].id)
    }
}

/// The tail of a well-formed entry sequence is well formed.
pub proof fn lemma_tail_wf(s: Seq<(u64, Problem)>)
    requires
        entries_wf(s),
        s.len() > 0,
    ensures
        entries_wf(s.drop_first()),
{
    assert forall|p: int, q: int|
        0 <= p < q < s.drop_first().len() implies (#[trigger] s.drop_first()[p]).0 != (
    #[trigger] s.drop_first()[q]).0 by {
        assert(s.drop_first()[p] == s[p + 1]);
        assert(s.drop_first()[q] == s[q + 1]);
    }
    assert forall|p: int|
        0 <= p < s.drop_first().len() implies (#[trigger] s.drop_first()[p]).1.id
        == s.drop_first()[p].0 by {
        assert(s.drop_first()[p] == s[p + 1]);
    }
}

/// Putting a fresh, consistent entry in front keeps entries well formed.
pub proof fn lemma_cons_wf(e: (u64, Problem), w: Seq<(u64, Problem)>)
    requires
        entries_wf(w),
        !has_id(w, e.0),
        e.1.id == e.0,
    ensures
        entries_wf(seq![e] + w),
{
    let s = seq![e] + w;
    assert forall|p: int, q: int|
        0 <= p < q < s.len() implies (#[trigger] s[p]).0 != (#[trigger] s[q]).0 by {
        if p == 0 {
            assert(s[q] == w[q - 1]);
            if s[q].0 == e.0 {
                assert(has_id(w, e.0)) by {
                    assert(w[q - 1].0 == e.0);
                }
            }
        } else {
            assert(s[p] == w[p - 1]);
            assert(s[q] == w[q - 1]);
        }
    }
    assert forall|p: int| 0 <= p < s.len() implies (#[trigger] s[p]).1.id == s[p].0 by {
        if p > 0 {
            assert(s[p] == w[p - 1]);
        }
    }
}

/// Rebuilt contents are well formed and no longer than their source list.
pub proof fn lemma_rebuilt_wf(ps: Seq<Problem>)
    ensures
        entries_wf(rebuilt(ps)),
        rebuilt(ps).len() <= ps.len(),
    decreases ps.len(),
{
    if ps.len() > 0 {
        lemma_rebuilt_wf(ps.drop_first());
        let id = ps[0].id;
        lemma_without_id_wf(rebuilt(ps.drop_first()), id);
        lemma_without_id_has(rebuilt(ps.drop_first()), id, id);
        lemma_cons_wf((id, ps[0]), without_id(rebuilt(ps.drop_first()), id));
    }
}

/// A key distinct from the one taken out is kept exactly as it was.
pub proof fn lemma_without_id_keeps(s: Seq<(u64, Problem)>, id: u64, k: u64)
    requires
        k != id,
    ensures
        has_id(without_id(s, id), k) == has_id(s, k),
    decreases s.len(),
{
    if s.len() > 0 {
        lemma_without_id_keeps(s.drop_first(), id, k);
        if s[0].0 == id {
            if has_id(s, k) {
                let j = choose|j: int| 0 <= j < s.len() && (#[trigger] s[j]).0 == k;
                assert(j > 0);
                assert(s.drop_first()[j - 1].0 == k);
            }
            if has_id(s.drop_first(), k) {
                let j = choose|j: int|
                    0 <= j < s.drop_first().len() && (#[trigger] s.drop_first()[j]).0 == k;
                assert(s[j + 1].0 == k);
            }
        } else {
            let w = seq![s[0]] + without_id(s.drop_first(), id);
            if has_id(s, k) {
                let j = choose|j: int| 0 <= j < s.len() && (#[trigger] s[j]).0 == k;
                if j == 0 {
                    assert(w[0].0 == k);
                } else {
                    assert(s.drop_first()[j - 1].0 == k);
                    assert(has_id(s.drop_first(), k));
                    let m = choose|m: int|
                        0 <= m < without_id(s.drop_first(), id).len() && (#[trigger] without_id(
                            s.drop_first(),
                            id,
                        )[m]).0 == k;
                    assert(w[m + 1].0 == k);
                }
            }
            if has_id(w, k) {
                let j = choose|j: int| 0 <= j < w.len() && (#[trigger] w[j]).0 == k;
                if j == 0 {
                    assert(s[0].0 == k);
                } else {
                    assert(w[j] == without_id(s.drop_first(), id)[j - 1]);
                    assert(has_id(without_id(s.drop_first(), id), k));
                    let m = choose|m: int|
                        0 <= m < s.drop_first().len() && (#[trigger] s.drop_first()[m]).0 == k;
                    assert(s[m + 1].0 == k);
                }
            }
        }
    }
}

/// Removing an id list removes the listed keys and no others: a key
/// survives if and only if it was present and is not listed.
pub proof fn lemma_without_ids_keys(s: Seq<(u64, Problem)>, ids: Seq<u64>)
    ensures
        forall|k: u64|
            has_id(without_ids(s, ids), k) == (has_id(s, k) && !ids.contains(k)),
    decreases ids.len(),
{
    if ids.len() == 0 {
        assert forall|k: u64|
            has_id(without_ids(s, ids), k) == (has_id(s, k) && !ids.contains(k)) by {
            if ids.contains(k) {
                let j = choose|j: int| 0 <= j < ids.len() && ids[j] == k;
            }
        }
    } else {
        lemma_without_ids_keys(s, ids.drop_last());
        let prev = without_ids(s, ids.drop_last());
        let id = ids.last();
        assert forall|k: u64|
            has_id(without_ids(s, ids), k) == (has_id(s, k) && !ids.contains(k)) by {
            if k == id {
                lemma_without_id_has(prev, id, k);
                assert(ids.contains(k)) by {
                    assert(ids[ids.len() - 1] == k);
                }
            } else {
                lemma_without_id_keeps(prev, id, k);
                assert(ids.contains(k) == ids.drop_last().contains(k)) by {
                    if ids.contains(k) {
                        let j = choose|j: int| 0 <= j < ids.len() && ids[j] == k;
                        assert(j < ids.len() - 1);
                        assert(ids.drop_last()[j] == k);
                    }
                    if ids.drop_last().contains(k) {
                        let j = choose|j: int|
                            0 <= j < ids.drop_last().len() && ids.drop_last()[j] == k;
                        assert(ids[j] == k);
                    }
                }
            }
        }
    }
}

/// Rebuilding a cache from its own listed snapshot yields identical
/// contents in the identical recency order: the cache round-trips through
/// the listed form it is persisted in.
pub proof fn lemma_cache_round_trip(s: Seq<(u64, Problem)>)
    requires
        entries_wf(s),
    ensures
        rebuilt(s.map_values(|e: (u64, Problem)| e.1)) == s,
    decreases s.len(),
{
    let ps = s.map_values(|e: (u64, Problem)| e.1);
    if s.len() == 0 {
        assert(rebuilt(ps) =~= s);
    } else {
        lemma_tail_wf(s);
        assert(ps.drop_first() =~= s.drop_first().map_values(|e: (u64, Problem)| e.1));
        lemma_cache_round_trip(s.drop_first());
        assert(!has_id(s.drop_first(), s[0].0)) by {
            if has_id(s.drop_first(), s[0].0) {
                let j = choose|j: int|
                    0 <= j < s.drop_first().len() && (#[trigger] s.drop_first()[j]).0 == s[0].0;
                assert(s[j + 1].0 == s[0].0);
            }
        }
        lemma_without_id_absent(s.drop_first(), s[0].0);
        assert(ps[0] == s[0].1);
        assert((ps[0].id, ps[0]) == s[0]);
        assert(rebuilt(ps) =~= s);
    }
}

} // verus!

//! A map from text to text that is walked in the order of its keys.

use crate::text;
use vstd::prelude::*;

verus! {

/// Entries in strictly ascending order of their keys.
#[derive(Debug)]
pub struct TextMap {
    pub entries: Vec<(String, String)>,
}

pub open spec fn pair_views(v: Seq<(String, String)>) -> Seq<(Seq<char>, Seq<char>)> {
    v.map_values(|p: (String, String)| (p.0@, p.1@))
}

/// A copy of a list of pairs.
pub fn copy_pairs(v: &Vec<(String, String)>) -> (r: Vec<(String, String)>)
    ensures
        pair_views(r@) == pair_views(v@),
{
    let ghost all = pair_views(v@);
    let mut out: Vec<(String, String)> = Vec::new();
    let mut i: usize = 0;
    while i < v.len()
        invariant
            i <= v@.len(),
            all == pair_views(v@),
            pair_views(out@) == all.take(i as int),
        decreases v@.len() - i,
    {
        let ghost before = pair_views(out@);
        let a = v[i].0.clone();
        let b = v[i].1.clone();
        let ghost pair = (a@, b@);
        out.push((a, b));
        assert(pair_views(out@) =~= before.push(pair));
        assert(all.take(i + 1) =~= all.take(i as int).push(pair));
        i = i + 1;
    }
    assert(all.take(i as int) =~= all);
    out
}

/// Whether the keys strictly ascend.
pub open spec fn ascending(ps: Seq<(Seq<char>, Seq<char>)>) -> bool {
    forall|i: int, j: int|
        #![trigger ps[i], ps[j]]
        0 <= i < j < ps.len() ==> text::text_less(ps[i].0, ps[j].0)
}

pub open spec fn key_at(ps: Seq<(Seq<char>, Seq<char>)>, k: Seq<char>, i: int) -> bool {
    0 <= i < ps.len() && ps[i].0 == k
}

pub open spec fn map_of(ps: Seq<(Seq<char>, Seq<char>)>) -> Map<Seq<char>, Seq<char>> {
    Map::new(
        |k: Seq<char>| exists|i: int| key_at(ps, k, i),
        |k: Seq<char>| ps[choose|i: int| key_at(ps, k, i)].1,
    )
}

/// In ascending entries, a key stands at one place only.
pub proof fn key_unique(ps: Seq<(Seq<char>, Seq<char>)>, i: int, j: int)
    requires
        ascending(ps),
        0 <= i < ps.len(),
        0 <= j < ps.len(),
        ps[i].0 == ps[j].0,
    ensures
        i == j,
{
    text::text_less_irreflexive(ps[i].0);
    if i < j {
        assert(text::text_less(ps[i].0, ps[j].0));
    }
    if j < i {
        assert(text::text_less(ps[j].0, ps[i].0));
    }
}

pub proof fn map_of_at(ps: Seq<(Seq<char>, Seq<char>)>, i: int)
    requires
        ascending(ps),
        0 <= i < ps.len(),
    ensures
        map_of(ps).contains_key(ps[i].0),
        map_of(ps)[ps[i].0] == ps[i].1,
{
    assert(key_at(ps, ps[i].0, i));
    let k = choose|k: int| key_at(ps, ps[i].0, k);
    assert(key_at(ps, ps[i].0, k));
    key_unique(ps, i, k);
}

proof fn insert_keeps_order(
    before: Seq<(Seq<char>, Seq<char>)>,
    at: int,
    k: Seq<char>,
    v: Seq<char>,
)
    requires
        ascending(before),
        0 <= at <= before.len(),
        forall|j: int| 0 <= j < at ==> text::text_less((#[trigger] before[j]).0, k),
        at < before.len() ==> text::text_less(k, before[at].0),
    ensures
        ascending(before.insert(at, (k, v))),
        map_of(before.insert(at, (k, v))) == map_of(before).insert(k, v),
{
    let after = before.insert(at, (k, v));
    assert forall|i: int, j: int|
        #![trigger after[i], after[j]]
        0 <= i < j < after.len() implies text::text_less(after[i].0, after[j].0) by {
        if j < at {
            assert(text::text_less(before[i].0, before[j].0));
        } else if j == at {
            assert(after[i] == before[i]);
        } else if i == at {
            if j - 1 > at {
                assert(text::text_less(before[at].0, before[j - 1].0));
                text::text_less_transitive(k, before[at].0, before[j - 1].0);
            }
        } else if i < at {
            assert(text::text_less(before[i].0, before[j - 1].0));
        } else {
            assert(text::text_less(before[i - 1].0, before[j - 1].0));
        }
    }
    let want = map_of(before).insert(k, v);
    assert forall|m: Seq<char>| map_of(after).contains_key(m) == want.contains_key(m) by {
        if map_of(after).contains_key(m) {
            let i = choose|i: int| key_at(after, m, i);
            assert(key_at(after, m, i));
            if i < at {
                assert(key_at(before, m, i));
            } else if i > at {
                assert(key_at(before, m, i - 1));
            }
        }
        if want.contains_key(m) {
            if m == k {
                assert(key_at(after, m, at));
            } else {
                let i = choose|i: int| key_at(before, m, i);
                assert(key_at(before, m, i));
                if i < at {
                    assert(key_at(after, m, i));
                } else {
                    assert(key_at(after, m, i + 1));
                }
            }
        }
    }
    assert forall|m: Seq<char>| map_of(after).contains_key(m) implies map_of(after)[m]
        == want[m] by {
        let i = choose|i: int| key_at(after, m, i);
        assert(key_at(after, m, i));
        map_of_at(after, i);
        if m == k {
            assert(after[at].0 == k);
            key_unique(after, i, at);
        } else if i < at {
            map_of_at(before, i);
        } else {
            map_of_at(before, i - 1);
        }
    }
    assert(map_of(after) =~= want);
}

proof fn update_keeps_order(
    before: Seq<(Seq<char>, Seq<char>)>,
    at: int,
    v: Seq<char>,
)
    requires
        ascending(before),
        0 <= at < before.len(),
    ensures
        ascending(before.update(at, (before[at].0, v))),
        map_of(before.update(at, (before[at].0, v))) == map_of(before).insert(before[at].0, v),
{
    let k = before[at].0;
    let after = before.update(at, (k, v));
    assert forall|i: int, j: int|
        #![trigger after[i], after[j]]
        0 <= i < j < after.len() implies text::text_less(after[i].0, after[j].0) by {
        assert(text::text_less(before[i].0, before[j].0));
    }
    let want = map_of(before).insert(k, v);
    assert forall|m: Seq<char>| map_of(after).contains_key(m) == want.contains_key(m) by {
        if map_of(after).contains_key(m) {
            let i = choose|i: int| key_at(after, m, i);
            assert(key_at(after, m, i));
            assert(key_at(before, m, i));
        }
        if want.contains_key(m) {
            if m == k {
                assert(key_at(after, m, at));
            } else {
                let i = choose|i: int| key_at(before, m, i);
                assert(key_at(before, m, i));
                assert(key_at(after, m, i));
            }
        }
    }
    assert forall|m: Seq<char>| map_of(after).contains_key(m) implies map_of(after)[m]
        == want[m] by {
        let i = choose|i: int| key_at(after, m, i);
        assert(key_at(after, m, i));
        map_of_at(after, i);
        map_of_at(before, i);
        if m == k {
            key_unique(before, i, at);
        }
    }
    assert(map_of(after) =~= want);
}

impl TextMap {
    pub open spec fn pairs(&self) -> Seq<(Seq<char>, Seq<char>)> {
        pair_views(self.entries@)
    }

    pub open spec fn wf(&self) -> bool {
        ascending(self.pairs())
    }

    pub open spec fn view(&self) -> Map<Seq<char>, Seq<char>> {
        map_of(self.pairs())
    }

    pub fn new() -> (r: TextMap)
        ensures
            r.wf(),
            r.view() == Map::<Seq<char>, Seq<char>>::empty(),
            r.entries@.len() == 0,
    {
        let r = TextMap { entries: Vec::new() };
        proof {
            assert forall|k: Seq<char>| !r.view().contains_key(k) by {
                if r.view().contains_key(k) {
                    let i = choose|i: int| key_at(r.pairs(), k, i);
                    assert(key_at(r.pairs(), k, i));
                }
            }
            assert(r.view() =~= Map::empty());
        }
        r
    }

    /// Sets the value of a key.
    pub fn insert(&mut self, key: String, value: String)
        requires
            old(self).wf(),
        ensures
            final(self).wf(),
            final(self).view() == old(self).view().insert(key@, value@),
    {
        let ghost before = self.pairs();
        let ghost k = key@;
        let ghost v = value@;
        let mut at: usize = 0;
        while at < self.entries.len() && text::less(self.entries[at].0.as_str(), key.as_str())
            invariant
                at <= self.entries@.len(),
                before == self.pairs(),
                k == key@,
                forall|j: int| 0 <= j < at ==> text::text_less((#[trigger] before[j]).0, k),
            decreases self.entries@.len() - at,
        {
            assert(before[at as int].0 == self.entries@[at as int].0@);
            at = at + 1;
        }
        if at < self.entries.len() {
            assert(before[at as int].0 == self.entries@[at as int].0@);
        }
        if at < self.entries.len() && text::same(self.entries[at].0.as_str(), key.as_str()) {
            self.entries.set(at, (key, value));
            assert(self.pairs() =~= before.update(at as int, (k, v)));
            proof {
                update_keeps_order(before, at as int, v);
            }
        } else {
            proof {
                if at < before.len() {
                    text::text_less_total(k, before[at as int].0);
                }
            }
            self.entries.insert(at, (key, value));
            assert(self.pairs() =~= before.insert(at as int, (k, v)));
            proof {
                insert_keeps_order(before, at as int, k, v);
            }
        }
    }
}

} // verus!

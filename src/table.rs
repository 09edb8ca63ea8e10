use vstd::prelude::*;
use crate::chunk::{Chunk, ChunkContent};
use crate::coord::ChunkCoord;

verus! {

/// Chunks by coordinate, one entry per coordinate.
pub struct ChunkTable {
    entries: Vec<(ChunkCoord, Chunk)>,
}

pub open spec fn keys_unique(s: Seq<(ChunkCoord, Chunk)>) -> bool {
    forall|i: int, j: int|
        0 <= i < s.len() && 0 <= j < s.len() && i != j ==> #[trigger] s[i].0 != #[trigger] s[j].0
}

pub open spec fn has_key(s: Seq<(ChunkCoord, Chunk)>, c: ChunkCoord) -> bool {
    exists|i: int| 0 <= i < s.len() && #[trigger] s[i].0 == c
}

pub open spec fn index_of(s: Seq<(ChunkCoord, Chunk)>, c: ChunkCoord) -> int {
    choose|i: int| 0 <= i < s.len() && #[trigger] s[i].0 == c
}

/// The mapping that a sequence of entries with unique keys stands for.
pub open spec fn entries_map(s: Seq<(ChunkCoord, Chunk)>) -> Map<ChunkCoord, ChunkContent> {
    Map::new(|c: ChunkCoord| has_key(s, c), |c: ChunkCoord| s[index_of(s, c)].1@)
}

proof fn lemma_entry_in_map(s: Seq<(ChunkCoord, Chunk)>, i: int)
    requires
        keys_unique(s),
        0 <= i < s.len(),
    ensures
        entries_map(s).contains_key(s[i].0),
        entries_map(s)[s[i].0] == s[i].1@,
{
    let c = s[i].0;
    assert(has_key(s, c));
    let j = index_of(s, c);
    assert(s[j].0 == c);
}

proof fn lemma_push(s: Seq<(ChunkCoord, Chunk)>, c: ChunkCoord, ch: Chunk)
    requires
        keys_unique(s),
        !has_key(s, c),
    ensures
        keys_unique(s.push((c, ch))),
        entries_map(s.push((c, ch))) == entries_map(s).insert(c, ch@),
{
    let t = s.push((c, ch));
    assert forall|i: int, j: int|
        0 <= i < t.len() && 0 <= j < t.len() && i != j implies #[trigger] t[i].0 != #[trigger] t[j].0 by {
        if i < s.len() && j < s.len() {
            assert(t[i] == s[i] && t[j] == s[j]);
        } else if i < s.len() {
            assert(t[i] == s[i]);
        } else {
            assert(t[j] == s[j]);
        }
    }
    assert forall|k: ChunkCoord| #[trigger] has_key(t, k) == (has_key(s, k) || k == c) by {
        if has_key(s, k) {
            let i = choose|i: int| 0 <= i < s.len() && #[trigger] s[i].0 == k;
            assert(t[i] == s[i]);
        }
        if has_key(t, k) && k != c {
            let i = choose|i: int| 0 <= i < t.len() && #[trigger] t[i].0 == k;
            assert(t[i] == s[i]);
        }
        if k == c {
            assert(t[s.len() as int].0 == c);
        }
    }
    assert forall|k: ChunkCoord| #[trigger] entries_map(t).contains_key(k) implies entries_map(t)[k]
        == entries_map(s).insert(c, ch@)[k] by {
        if k == c {
            lemma_entry_in_map(t, s.len() as int);
        } else {
            let i = choose|i: int| 0 <= i < s.len() && #[trigger] s[i].0 == k;
            assert(t[i] == s[i]);
            lemma_entry_in_map(t, i);
            lemma_entry_in_map(s, i);
        }
    }
    assert(entries_map(t) =~= entries_map(s).insert(c, ch@));
}

proof fn lemma_update(s: Seq<(ChunkCoord, Chunk)>, i: int, ch: Chunk)
    requires
        keys_unique(s),
        0 <= i < s.len(),
    ensures
        keys_unique(s.update(i, (s[i].0, ch))),
        entries_map(s.update(i, (s[i].0, ch))) == entries_map(s).insert(s[i].0, ch@),
{
    let c = s[i].0;
    let t = s.update(i, (c, ch));
    assert forall|a: int, b: int|
        0 <= a < t.len() && 0 <= b < t.len() && a != b implies #[trigger] t[a].0 != #[trigger] t[b].0 by {
        assert(t[a].0 == s[a].0 && t[b].0 == s[b].0);
    }
    assert forall|k: ChunkCoord| #[trigger] has_key(t, k) == has_key(s, k) by {
        if has_key(s, k) {
            let j = choose|j: int| 0 <= j < s.len() && #[trigger] s[j].0 == k;
            assert(t[j].0 == k);
        }
        if has_key(t, k) {
            let j = choose|j: int| 0 <= j < t.len() && #[trigger] t[j].0 == k;
            assert(s[j].0 == k);
        }
    }
    assert forall|k: ChunkCoord| #[trigger] entries_map(t).contains_key(k) implies entries_map(t)[k]
        == entries_map(s).insert(c, ch@)[k] by {
        let j = choose|j: int| 0 <= j < s.len() && #[trigger] s[j].0 == k;
        lemma_entry_in_map(t, j);
        if j != i {
            assert(t[j] == s[j]);
            lemma_entry_in_map(s, j);
        }
    }
    assert(entries_map(t) =~= entries_map(s).insert(c, ch@));
}

impl View for ChunkTable {
    type V = Map<ChunkCoord, ChunkContent>;

    closed spec fn view(&self) -> Map<ChunkCoord, ChunkContent> {
        entries_map(self.entries@)
    }
}

impl ChunkTable {
    /// Each coordinate has at most one entry.
    pub closed spec fn wf(&self) -> bool {
        keys_unique(self.entries@)
    }

    pub fn new() -> (r: ChunkTable)
        ensures
            r.wf(),
            r@ == Map::<ChunkCoord, ChunkContent>::empty(),
    {
        let r = ChunkTable { entries: Vec::new() };
        proof {
            assert(r@ =~= Map::<ChunkCoord, ChunkContent>::empty());
        }
        r
    }

    fn find(&self, c: &ChunkCoord) -> (r: Option<usize>)
        requires
            self.wf(),
        ensures
            match r {
                Some(i) => i < self.entries@.len() && self.entries@[i as int].0 == *c,
                None => !self@.contains_key(*c),
            },
    {
        let mut i: usize = 0;
        while i < self.entries.len()
            invariant
                i <= self.entries@.len(),
                forall|j: int| 0 <= j < i ==> #[trigger] self.entries@[j].0 != *c,
            decreases self.entries@.len() - i,
        {
            if self.entries[i].0 == *c {
                return Some(i);
            }
            i += 1;
        }
        None
    }

    /// Number of coordinates held.
    pub fn len(&self) -> (r: usize)
        requires
            self.wf(),
        ensures
            r == self@.len(),
    {
        proof {
            self.lemma_len();
        }
        self.entries.len()
    }

    proof fn lemma_len(&self)
        requires
            self.wf(),
        ensures
            self@.len() == self.entries@.len(),
            self@.dom().finite(),
    {
        lemma_seq_map_len(self.entries@);
    }

    pub fn contains_key(&self, c: &ChunkCoord) -> (r: bool)
        requires
            self.wf(),
        ensures
            r == self@.contains_key(*c),
    {
        match self.find(c) {
            Some(i) => {
                proof {
                    lemma_entry_in_map(self.entries@, i as int);
                }
                true
            },
            None => false,
        }
    }

    /// The chunk held at `c`, if any.
    pub fn get(&self, c: &ChunkCoord) -> (r: Option<&Chunk>)
        requires
            self.wf(),
        ensures
            match r {
                Some(ch) => self@.contains_key(*c) && ch@ == self@[*c],
                None => !self@.contains_key(*c),
            },
    {
        match self.find(c) {
            Some(i) => {
                proof {
                    lemma_entry_in_map(self.entries@, i as int);
                }
                Some(&self.entries[i].1)
            },
            None => None,
        }
    }

    /// Puts `chunk` at `c`, replacing what was there.
    pub fn insert(&mut self, c: ChunkCoord, chunk: Chunk)
        requires
            old(self).wf(),
        ensures
            final(self).wf(),
            final(self)@ == old(self)@.insert(c, chunk@),
    {
        match self.find(&c) {
            Some(i) => {
                proof {
                    lemma_update(self.entries@, i as int, chunk);
                }
                self.entries.set(i, (c, chunk));
            },
            None => {
                proof {
                    lemma_push(self.entries@, c, chunk);
                }
                self.entries.push((c, chunk));
            },
        }
    }

    /// The coordinates held, each once.
    pub fn keys(&self) -> (r: Vec<ChunkCoord>)
        requires
            self.wf(),
        ensures
            r@.to_set() == self@.dom(),
            r@.no_duplicates(),
    {
        let mut out: Vec<ChunkCoord> = Vec::new();
        let mut i: usize = 0;
        while i < self.entries.len()
            invariant
                i <= self.entries@.len(),
                keys_unique(self.entries@),
                out@.len() == i,
                forall|j: int| 0 <= j < i ==> #[trigger] out@[j] == self.entries@[j].0,
            decreases self.entries@.len() - i,
        {
            out.push(self.entries[i].0);
            i += 1;
        }
        proof {
            assert forall|k: ChunkCoord| #[trigger] out@.to_set().contains(k) == self@.dom().contains(
                k,
            ) by {
                if self@.dom().contains(k) {
                    let j = choose|j: int| 0 <= j < self.entries@.len() && #[trigger] self.entries@[j].0 == k;
                    assert(out@[j] == k);
                }
                if out@.contains(k) {
                    let j = choose|j: int| 0 <= j < out@.len() && out@[j] == k;
                    assert(self.entries@[j].0 == k);
                }
            }
            assert(out@.to_set() =~= self@.dom());
            assert forall|a: int, b: int| 0 <= a < out@.len() && 0 <= b < out@.len() && a != b implies out@[a] != out@[b] by {
                assert(out@[a] == self.entries@[a].0);
                assert(out@[b] == self.entries@[b].0);
            }
        }
        out
    }
}

proof fn lemma_seq_map_len(p: Seq<(ChunkCoord, Chunk)>)
    requires
        keys_unique(p),
    ensures
        entries_map(p).len() == p.len(),
        entries_map(p).dom().finite(),
    decreases p.len(),
{
    if p.len() == 0 {
        assert(entries_map(p) =~= Map::<ChunkCoord, ChunkContent>::empty());
    } else {
        let s = p;
        let last = s.last();
        let q = s.drop_last();
        assert forall|i: int, j: int|
            0 <= i < q.len() && 0 <= j < q.len() && i != j implies #[trigger] q[i].0
            != #[trigger] q[j].0 by {
            assert(q[i] == s[i] && q[j] == s[j]);
        }
        assert(!has_key(q, last.0)) by {
            if has_key(q, last.0) {
                let i = choose|i: int| 0 <= i < q.len() && #[trigger] q[i].0 == last.0;
                assert(q[i] == s[i]);
            }
        }
        lemma_push(q, last.0, last.1);
        assert(q.push(last) =~= s);
        lemma_seq_map_len(q);
    }
}

} // verus!

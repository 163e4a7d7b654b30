//! The session registry: the one owner of every launched kernel's
//! resources, keyed by an opaque session id. Callers outside the crate hold
//! only id strings; the embedding guards the whole registry with a single
//! lock and performs process and socket work with the plain values stored
//! here.
use vstd::prelude::*;

verus! {

/// What the registry owns for one launched kernel. The process itself and
/// the cancellation channel are held by the embedding, keyed by the same id;
/// the registry records the plain values every later operation needs: the
/// signing key and ports from the connection descriptor, the descriptor's
/// file path, and the process id.
pub struct SessionEntry {
    pub id: String,
    pub spec_name: String,
    pub connection_file: String,
    pub key: String,
    pub shell_port: u16,
    pub iopub_port: u16,
    pub pid: u32,
}

/// The first entry with the given id, scanning in order. With unique ids
/// this is the only one.
pub open spec fn spec_lookup(s: Seq<SessionEntry>, id: Seq<char>) -> Option<SessionEntry>
    decreases s.len(),
{
    if s.len() == 0 {
        None
    } else if s.first().id@ == id {
        Some(s.first())
    } else {
        spec_lookup(s.drop_first(), id)
    }
}

/// Process-wide session state: a mapping from session id to owned entry,
/// with ids unique.
pub struct SessionRegistry {
    entries: Vec<SessionEntry>,
}

impl SessionRegistry {
    /// The entries, in insertion order.
    pub closed spec fn entries_seq(&self) -> Seq<SessionEntry> {
        self.entries@
    }

    /// Ids are pairwise distinct.
    pub open spec fn wf(&self) -> bool {
        forall|i: int, j: int|
            0 <= i < j < self.entries_seq().len() ==> self.entries_seq()[i].id@
                != self.entries_seq()[j].id@
    }

    /// Some session carries this id.
    pub open spec fn contains_id(&self, id: Seq<char>) -> bool {
        spec_lookup(self.entries_seq(), id) is Some
    }

    /// The entry for this id, if any.
    pub open spec fn entry_for(&self, id: Seq<char>) -> Option<SessionEntry> {
        spec_lookup(self.entries_seq(), id)
    }

    /// Number of live sessions.
    pub closed spec fn spec_len(&self) -> nat {
        self.entries@.len()
    }

    /// An empty registry: no id is present.
    pub fn new() -> (r: SessionRegistry)
        ensures
            r.wf(),
            r.spec_len() == 0,
            forall|id: Seq<char>| !r.contains_id(id),
    {
        let r = SessionRegistry { entries: Vec::new() };
        proof {
            assert forall|id: Seq<char>| !r.contains_id(id) by {
                assert(spec_lookup(r.entries@, id) is None);
            }
        }
        r
    }

    /// Number of live sessions.
    pub fn len(&self) -> (r: usize)
        ensures
            r == self.spec_len(),
    {
        self.entries.len()
    }

    /// Index of the entry with this id, if present.
    fn index_of(&self, id: &str) -> (r: Option<usize>)
        ensures
            match r {
                Some(i) => i < self.entries_seq().len() && self.entries_seq()[i as int].id@ == id@
                    && spec_lookup(self.entries_seq(), id@) == Some(self.entries_seq()[i as int])
                    && forall|k: int| 0 <= k < i ==> self.entries_seq()[k].id@ != id@,
                None => !self.contains_id(id@),
            },
    {
        let n = self.entries.len();
        let mut i: usize = 0;
        proof {
            assert(self.entries@.skip(0) =~= self.entries@);
        }
        while i < n
            invariant
                n == self.entries@.len(),
                i <= n,
                forall|k: int| 0 <= k < i ==> self.entries@[k].id@ != id@,
                spec_lookup(self.entries@.skip(i as int), id@) == spec_lookup(self.entries@, id@),
            decreases n - i,
        {
            let ghost rest = self.entries@.skip(i as int);
            if crate::text::str_eq(self.entries[i].id.as_str(), id) {
                proof {
                    assert(rest.first() == self.entries@[i as int]);
                }
                return Some(i);
            }
            proof {
                assert(rest.drop_first() =~= self.entries@.skip(i + 1));
            }
            i = i + 1;
        }
        proof {
            assert(self.entries@.skip(n as int) =~= Seq::<SessionEntry>::empty());
        }
        None
    }

    /// Whether this id names a live session.
    pub fn contains(&self, id: &str) -> (r: bool)
        ensures
            r == self.contains_id(id@),
    {
        match self.index_of(id) {
            Some(_) => true,
            None => false,
        }
    }

    /// The entry for this id: `Some` exactly when the id is live.
    pub fn lookup(&self, id: &str) -> (r: Option<&SessionEntry>)
        ensures
            match r {
                Some(e) => self.entry_for(id@) == Some(*e) && e.id@ == id@,
                None => !self.contains_id(id@),
            },
    {
        match self.index_of(id) {
            Some(i) => Some(&self.entries[i]),
            None => None,
        }
    }

    /// Registers a session. The id must be fresh, which the caller has from
    /// generating it; every other session is untouched.
    pub fn insert(&mut self, entry: SessionEntry)
        requires
            old(self).wf(),
            !old(self).contains_id(entry.id@),
        ensures
            final(self).wf(),
            final(self).entry_for(entry.id@) == Some(entry),
            final(self).spec_len() == old(self).spec_len() + 1,
            forall|id2: Seq<char>| id2 != entry.id@ ==> final(self).entry_for(id2) == old(
                self,
            ).entry_for(id2),
    {
        proof {
            lemma_lookup_none_means_absent(self.entries@, entry.id@);
        }
        let ghost before = self.entries@;
        self.entries.push(entry);
        proof {
            assert forall|id2: Seq<char>| true implies spec_lookup(self.entries@, id2)
                == if id2 == entry.id@ { Some(entry) } else { spec_lookup(before, id2) } by {
                lemma_lookup_push(before, entry, id2);
            }
        }
    }

    /// Removes and returns the session with this id. Removing an absent id
    /// is a no-op that returns `None`, so a second removal of the same id
    /// always returns `None`.
    pub fn remove(&mut self, id: &str) -> (r: Option<SessionEntry>)
        requires
            old(self).wf(),
        ensures
            final(self).wf(),
            r == old(self).entry_for(id@),
            !final(self).contains_id(id@),
            forall|id2: Seq<char>| id2 != id@ ==> final(self).entry_for(id2) == old(
                self,
            ).entry_for(id2),
            final(self).spec_len() == if old(self).contains_id(id@) {
                old(self).spec_len() - 1
            } else {
                old(self).spec_len() as int
            },
    {
        let ghost before = self.entries@;
        match self.index_of(id) {
            Some(i) => {
                let e = self.entries.remove(i);
                proof {
                    lemma_lookup_remove(before, i as int, id@);
                }
                Some(e)
            },
            None => {
                proof {
                    lemma_lookup_none_means_absent(before, id@);
                }
                None
            },
        }
    }
}

/// A `None` lookup means no entry has the id at all.
proof fn lemma_lookup_none_means_absent(s: Seq<SessionEntry>, id: Seq<char>)
    requires
        spec_lookup(s, id) is None,
    ensures
        forall|i: int| 0 <= i < s.len() ==> s[i].id@ != id,
    decreases s.len(),
{
    if s.len() > 0 {
        lemma_lookup_none_means_absent(s.drop_first(), id);
        assert forall|i: int| 0 <= i < s.len() implies s[i].id@ != id by {
            if i > 0 {
                assert(s.drop_first()[i - 1] == s[i]);
            }
        }
    }
}

/// Pushing an entry adds exactly its id to the mapping, provided the id was
/// absent before.
proof fn lemma_lookup_push(s: Seq<SessionEntry>, entry: SessionEntry, id2: Seq<char>)
    requires
        spec_lookup(s, entry.id@) is None,
    ensures
        spec_lookup(s.push(entry), id2) == if id2 == entry.id@ {
            Some(entry)
        } else {
            spec_lookup(s, id2)
        },
    decreases s.len(),
{
    if s.len() == 0 {
        assert(s.push(entry).first() == entry);
        assert(s.push(entry).drop_first() =~= Seq::<SessionEntry>::empty());
    } else {
        assert(s.push(entry).first() == s.first());
        assert(s.push(entry).drop_first() =~= s.drop_first().push(entry));
        lemma_lookup_push(s.drop_first(), entry, id2);
    }
}

/// Removing the first entry that carries `id` removes `id` from the mapping
/// and leaves every other id's entry unchanged.
proof fn lemma_lookup_remove(s: Seq<SessionEntry>, i: int, id: Seq<char>)
    requires
        0 <= i < s.len(),
        s[i].id@ == id,
        forall|k: int| 0 <= k < i ==> s[k].id@ != id,
        forall|p: int, q: int| 0 <= p < q < s.len() ==> s[p].id@ != s[q].id@,
    ensures
        spec_lookup(s.remove(i), id) is None,
        forall|id2: Seq<char>| id2 != id ==> spec_lookup(s.remove(i), id2) == spec_lookup(s, id2),
        forall|p: int, q: int|
            0 <= p < q < s.remove(i).len() ==> s.remove(i)[p].id@ != s.remove(i)[q].id@,
    decreases s.len(),
{
    let t = s.remove(i);
    if i == 0 {
        assert(t =~= s.drop_first());
        if spec_lookup(t, id) is Some {
            lemma_lookup_some_means_present(t, id);
            let j = choose|j: int| 0 <= j < t.len() && t[j].id@ == id;
            assert(s[j + 1].id@ == id);
            assert(s[0].id@ == s[j + 1].id@);
            assert(false);
        }
        assert forall|id2: Seq<char>| id2 != id implies spec_lookup(t, id2) == spec_lookup(
            s,
            id2,
        ) by {
            assert(s.first().id@ == id);
            assert(spec_lookup(s, id2) == spec_lookup(s.drop_first(), id2));
        }
    } else {
        assert(t.first() == s.first());
        assert(t.drop_first() =~= s.drop_first().remove(i - 1));
        lemma_lookup_remove(s.drop_first(), i - 1, id);
        assert(s.first().id@ != id);
        assert(spec_lookup(t, id) == spec_lookup(t.drop_first(), id));
        assert forall|id2: Seq<char>| id2 != id implies spec_lookup(t, id2) == spec_lookup(
            s,
            id2,
        ) by {
            if s.first().id@ == id2 {
                assert(spec_lookup(t, id2) == Some(t.first()));
                assert(spec_lookup(s, id2) == Some(s.first()));
            } else {
                assert(spec_lookup(t, id2) == spec_lookup(t.drop_first(), id2));
                assert(spec_lookup(s, id2) == spec_lookup(s.drop_first(), id2));
            }
        }
        assert forall|p: int, q: int|
            0 <= p < q < t.len() implies t[p].id@ != t[q].id@ by {
            let pp = if p < i { p } else { p + 1 };
            let qq = if q < i { q } else { q + 1 };
            assert(t[p] == s[pp]);
            assert(t[q] == s[qq]);
        }
    }
}

/// A `Some` lookup exhibits an index holding the id.
proof fn lemma_lookup_some_means_present(s: Seq<SessionEntry>, id: Seq<char>)
    requires
        spec_lookup(s, id) is Some,
    ensures
        exists|i: int| 0 <= i < s.len() && s[i].id@ == id,
    decreases s.len(),
{
    if s.len() > 0 {
        if s.first().id@ == id {
            assert(s[0].id@ == id);
        } else {
            lemma_lookup_some_means_present(s.drop_first(), id);
            let i = choose|i: int| 0 <= i < s.drop_first().len() && s.drop_first()[i].id@ == id;
            assert(s[i + 1].id@ == id);
        }
    }
}

} // verus!

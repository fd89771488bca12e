//! Append-only, per-key logs: the perceptions of each watchpoint, and the
//! test results of each cluster or host.
use crate::watch::{PerceptionView, WatchPoint, WatchPointPerception, WatchPointView};
use vstd::prelude::*;

verus! {

pub open spec fn records_view(s: Seq<WatchPointPerception>) -> Seq<PerceptionView> {
    s.map_values(|p: WatchPointPerception| p@)
}

/// The history after `update(key, record)`, and whether it changed: the
/// record is appended unless it equals the last one under `key`.
pub open spec fn history_update(
    h: Map<WatchPointView, Seq<PerceptionView>>,
    key: WatchPointView,
    record: PerceptionView,
) -> (Map<WatchPointView, Seq<PerceptionView>>, bool) {
    if !h.contains_key(key) {
        (h.insert(key, seq![record]), true)
    } else if h[key].last() == record {
        (h, false)
    } else {
        (h.insert(key, h[key].push(record)), true)
    }
}

/// Pushing a record twice in a row changes the history once: the first
/// call appends it (unless it already is the last record under its key),
/// the second is a no-op, and the key then holds exactly one more record.
pub proof fn lemma_update_idempotent(
    h: Map<WatchPointView, Seq<PerceptionView>>,
    key: WatchPointView,
    record: PerceptionView,
)
    requires
        !(h.contains_key(key) && h[key].last() == record),
    ensures
        history_update(h, key, record).1,
        !history_update(history_update(h, key, record).0, key, record).1,
        history_update(history_update(h, key, record).0, key, record).0 == history_update(
            h,
            key,
            record,
        ).0,
        history_update(h, key, record).0[key].len() == (if h.contains_key(key) {
            h[key].len()
        } else {
            0
        }) + 1,
{
}

struct Entry {
    key: WatchPoint,
    records: Vec<WatchPointPerception>,
}

/// The perceptions recorded for each watchpoint, oldest first.
pub struct History {
    entries: Vec<Entry>,
    model: Ghost<Map<WatchPointView, Seq<PerceptionView>>>,
}

impl View for History {
    type V = Map<WatchPointView, Seq<PerceptionView>>;

    closed spec fn view(&self) -> Map<WatchPointView, Seq<PerceptionView>> {
        self.model@
    }
}

impl History {
    /// Keys are unique, every key holds at least one record, and the model
    /// is what the entries hold.
    pub closed spec fn wf(&self) -> bool {
        &&& forall|i: int, j: int|
            0 <= i < j < self.entries@.len() ==> self.entries@[i].key@ != self.entries@[j].key@
        &&& forall|k: WatchPointView|
            #![trigger self.model@.contains_key(k)]
            self.model@.contains_key(k) <==> exists|i: int|
                0 <= i < self.entries@.len() && self.entries@[i].key@ == k
        &&& forall|i: int|
            0 <= i < self.entries@.len() ==> self.model@[self.entries@[i].key@] == records_view(
                self.entries@[i].records@,
            )
        &&& forall|k: WatchPointView| #[trigger]
            self.model@.contains_key(k) ==> self.model@[k].len() > 0
    }

    /// An empty history.
    pub fn new() -> (r: History)
        ensures
            r.wf(),
            r@ == Map::<WatchPointView, Seq<PerceptionView>>::empty(),
    {
        History { entries: Vec::new(), model: Ghost(Map::empty()) }
    }

    fn index_of(&self, key: &WatchPoint) -> (r: Option<usize>)
        requires
            self.wf(),
        ensures
            r matches Some(i) ==> i < self.entries@.len() && self.entries@[i as int].key@ == key@,
            r is None ==> !self@.contains_key(key@),
    {
        let mut i: usize = 0;
        while i < self.entries.len()
            invariant
                self.wf(),
                0 <= i <= self.entries@.len(),
                forall|j: int| 0 <= j < i ==> self.entries@[j].key@ != key@,
            decreases self.entries@.len() - i,
        {
            if self.entries[i].key.same_as(key) {
                return Some(i);
            }
            i += 1;
        }
        None
    }

    /// The full history under `key`, oldest first; `None` where it has none.
    pub fn find(&self, key: &WatchPoint) -> (r: Option<&Vec<WatchPointPerception>>)
        requires
            self.wf(),
        ensures
            self@.contains_key(key@) ==> r is Some && records_view(r->0@) == self@[key@],
            !self@.contains_key(key@) ==> r is None,
    {
        match self.index_of(key) {
            Some(i) => Some(&self.entries[i].records),
            None => None,
        }
    }

    /// The most recent record under `key`; `None` where it has none.
    pub fn last(&self, key: &WatchPoint) -> (r: Option<&WatchPointPerception>)
        requires
            self.wf(),
        ensures
            self@.contains_key(key@) ==> r is Some && r->0@ == self@[key@].last(),
            !self@.contains_key(key@) ==> r is None,
    {
        match self.index_of(key) {
            Some(i) => {
                let records = &self.entries[i].records;
                assert(self@.contains_key(self.entries@[i as int].key@));
                assert(records_view(records@).len() > 0);
                let n = records.len();
                Some(&records[n - 1])
            },
            None => None,
        }
    }

    /// Appends `record` under `key` unless it is structurally equal to the
    /// last record there; returns whether anything was appended.
    pub fn update(&mut self, key: &WatchPoint, record: WatchPointPerception) -> (changed: bool)
        requires
            old(self).wf(),
        ensures
            final(self).wf(),
            (final(self)@, changed) == history_update(old(self)@, key@, record@),
    {
        match self.index_of(key) {
            Some(i) => {
                let n = self.entries[i].records.len();
                assert(self@.contains_key(self.entries@[i as int].key@));
                assert(records_view(self.entries@[i as int].records@).len() > 0);
                if self.entries[i].records[n - 1].same_as(&record) {
                    return false;
                }
                let ghost k = key@;
                let ghost old_entries = self.entries@;
                let ghost new_records = self.model@[k].push(record@);
                let mut entry = self.entries.remove(i);
                let ghost prev = entry.records@;
                entry.records.push(record);
                assert(records_view(entry.records@) =~= records_view(prev).push(
                    entry.records@.last()@,
                ));
                self.entries.insert(i, entry);
                self.model = Ghost(self.model@.insert(k, new_records));
                assert forall|j: int| 0 <= j < self.entries@.len() && j != i implies
                    #[trigger] self.entries@[j] == old_entries[j] by {}
                assert(self.wf()) by {
                    assert forall|kk: WatchPointView| #[trigger]
                        self.model@.contains_key(kk) <==> exists|j: int|
                            0 <= j < self.entries@.len() && self.entries@[j].key@ == kk by {
                        if self.model@.contains_key(kk) && kk != k {
                            let j = choose|j: int|
                                0 <= j < old_entries.len() && old_entries[j].key@ == kk;
                            assert(self.entries@[j].key@ == kk);
                        }
                        if kk == k {
                            assert(self.entries@[i as int].key@ == kk);
                        }
                        if exists|j: int|
                            0 <= j < self.entries@.len() && self.entries@[j].key@ == kk {
                            let j = choose|j: int|
                                0 <= j < self.entries@.len() && self.entries@[j].key@ == kk;
                            if j != i {
                                assert(old_entries[j].key@ == kk);
                            }
                        }
                    }
                }
                true
            },
            None => {
                let ghost old_entries = self.entries@;
                let ghost k = key@;
                let ghost rv = record@;
                let entry = Entry { key: key.duplicate(), records: vec![record] };
                assert(records_view(entry.records@) =~= seq![rv]);
                self.entries.push(entry);
                self.model = Ghost(self.model@.insert(k, seq![rv]));
                assert(self.wf()) by {
                    assert forall|kk: WatchPointView| #[trigger]
                        self.model@.contains_key(kk) <==> exists|j: int|
                            0 <= j < self.entries@.len() && self.entries@[j].key@ == kk by {
                        if self.model@.contains_key(kk) && kk != k {
                            let j = choose|j: int|
                                0 <= j < old_entries.len() && old_entries[j].key@ == kk;
                            assert(self.entries@[j].key@ == kk);
                        }
                        if kk == k {
                            assert(self.entries@[old_entries.len() as int].key@ == kk);
                        }
                        if exists|j: int|
                            0 <= j < self.entries@.len() && self.entries@[j].key@ == kk {
                            let j = choose|j: int|
                                0 <= j < self.entries@.len() && self.entries@[j].key@ == kk;
                            if j < old_entries.len() {
                                assert(old_entries[j].key@ == kk);
                            }
                        }
                    }
                }
                true
            },
        }
    }
}


struct LogEntry<R> {
    key: u64,
    records: Vec<R>,
}

/// Records appended under integer keys (the identity of a cluster or a
/// host), never overwritten; oldest first.
pub struct RunLog<R> {
    entries: Vec<LogEntry<R>>,
    model: Ghost<Map<u64, Seq<R>>>,
}

impl<R> View for RunLog<R> {
    type V = Map<u64, Seq<R>>;

    closed spec fn view(&self) -> Map<u64, Seq<R>> {
        self.model@
    }
}

impl<R> RunLog<R> {
    /// Keys are unique, every key holds at least one record, and the model
    /// is what the entries hold.
    pub closed spec fn wf(&self) -> bool {
        &&& forall|i: int, j: int|
            0 <= i < j < self.entries@.len() ==> self.entries@[i].key != self.entries@[j].key
        &&& forall|k: u64|
            #![trigger self.model@.contains_key(k)]
            self.model@.contains_key(k) <==> exists|i: int|
                0 <= i < self.entries@.len() && self.entries@[i].key == k
        &&& forall|i: int|
            0 <= i < self.entries@.len() ==> self.model@[self.entries@[i].key]
                == self.entries@[i].records@
        &&& forall|k: u64| #[trigger] self.model@.contains_key(k) ==> self.model@[k].len() > 0
    }

    /// An empty log.
    pub fn new() -> (r: RunLog<R>)
        ensures
            r.wf(),
            r@ == Map::<u64, Seq<R>>::empty(),
    {
        RunLog { entries: Vec::new(), model: Ghost(Map::empty()) }
    }

    fn index_of(&self, key: u64) -> (r: Option<usize>)
        requires
            self.wf(),
        ensures
            r matches Some(i) ==> i < self.entries@.len() && self.entries@[i as int].key == key,
            r is None ==> !self@.contains_key(key),
    {
        let mut i: usize = 0;
        while i < self.entries.len()
            invariant
                self.wf(),
                0 <= i <= self.entries@.len(),
                forall|j: int| 0 <= j < i ==> self.entries@[j].key != key,
            decreases self.entries@.len() - i,
        {
            if self.entries[i].key == key {
                return Some(i);
            }
            i += 1;
        }
        None
    }

    /// Every record under `key`, oldest first; `None` where it has none.
    pub fn find(&self, key: u64) -> (r: Option<&Vec<R>>)
        requires
            self.wf(),
        ensures
            self@.contains_key(key) ==> r is Some && r->0@ == self@[key],
            !self@.contains_key(key) ==> r is None,
    {
        match self.index_of(key) {
            Some(i) => Some(&self.entries[i].records),
            None => None,
        }
    }

    /// Whether anything was ever recorded under `key`.
    pub fn contains(&self, key: u64) -> (r: bool)
        requires
            self.wf(),
        ensures
            r == self@.contains_key(key),
    {
        self.index_of(key).is_some()
    }

    /// Appends `record` under `key`.
    pub fn append(&mut self, key: u64, record: R)
        requires
            old(self).wf(),
        ensures
            final(self).wf(),
            final(self)@ == old(self)@.insert(
                key,
                if old(self)@.contains_key(key) {
                    old(self)@[key].push(record)
                } else {
                    seq![record]
                },
            ),
    {
        let ghost old_entries = self.entries@;
        match self.index_of(key) {
            Some(i) => {
                assert(self@.contains_key(self.entries@[i as int].key));
                let ghost new_records = self.model@[key].push(record);
                let mut entry = self.entries.remove(i);
                entry.records.push(record);
                self.entries.insert(i, entry);
                self.model = Ghost(self.model@.insert(key, new_records));
                assert forall|j: int| 0 <= j < self.entries@.len() && j != i implies
                    #[trigger] self.entries@[j] == old_entries[j] by {}
                assert(self.wf()) by {
                    assert forall|kk: u64| #[trigger]
                        self.model@.contains_key(kk) <==> exists|j: int|
                            0 <= j < self.entries@.len() && self.entries@[j].key == kk by {
                        if self.model@.contains_key(kk) && kk != key {
                            let j = choose|j: int|
                                0 <= j < old_entries.len() && old_entries[j].key == kk;
                            assert(self.entries@[j].key == kk);
                        }
                        if kk == key {
                            assert(self.entries@[i as int].key == kk);
                        }
                        if exists|j: int|
                            0 <= j < self.entries@.len() && self.entries@[j].key == kk {
                            let j = choose|j: int|
                                0 <= j < self.entries@.len() && self.entries@[j].key == kk;
                            if j != i {
                                assert(old_entries[j].key == kk);
                            }
                        }
                    }
                }
            },
            None => {
                let ghost rec = record;
                self.entries.push(LogEntry { key, records: vec![record] });
                self.model = Ghost(self.model@.insert(key, seq![rec]));
                assert(self.entries@.last().records@ =~= seq![rec]);
                assert(self.wf()) by {
                    assert forall|kk: u64| #[trigger]
                        self.model@.contains_key(kk) <==> exists|j: int|
                            0 <= j < self.entries@.len() && self.entries@[j].key == kk by {
                        if self.model@.contains_key(kk) && kk != key {
                            let j = choose|j: int|
                                0 <= j < old_entries.len() && old_entries[j].key == kk;
                            assert(self.entries@[j].key == kk);
                        }
                        if kk == key {
                            assert(self.entries@[old_entries.len() as int].key == kk);
                        }
                        if exists|j: int|
                            0 <= j < self.entries@.len() && self.entries@[j].key == kk {
                            let j = choose|j: int|
                                0 <= j < self.entries@.len() && self.entries@[j].key == kk;
                            if j < old_entries.len() {
                                assert(old_entries[j].key == kk);
                            }
                        }
                    }
                }
            },
        }
    }
}

} // verus!

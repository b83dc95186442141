//! The idempotent transaction ledger: fingerprint → last successful result.
use vstd::prelude::*;
use crate::felt::Felt;
use crate::reader::copy_range;

verus! {

/// The outcome of an action as the network client reports it, with the
/// action's serialized response or error.
#[derive(Debug)]
pub enum ActionResult {
    Success(Vec<Felt>),
    Failure(Vec<Felt>),
}

/// What the ledger keeps for a fingerprint.
pub struct LedgerRecord {
    pub selector: Seq<char>,
    pub output: Seq<Felt>,
}

/// One stored entry, as it is persisted.
#[derive(Debug)]
pub struct LedgerEntry {
    pub tx_id: Vec<u8>,
    pub selector: String,
    pub output: Vec<Felt>,
}

pub open spec fn record_of(e: LedgerEntry) -> LedgerRecord {
    LedgerRecord { selector: e.selector@, output: e.output@ }
}

/// The entries hold exactly the records of `ledger`.
pub open spec fn describes(entries: Seq<LedgerEntry>, ledger: Map<Seq<u8>, LedgerRecord>) -> bool {
    &&& forall|i: int| 0 <= i < entries.len() ==> #[trigger] ledger.contains_key(entries[i].tx_id@)
        && ledger[entries[i].tx_id@] == record_of(entries[i])
    &&& forall|k: Seq<u8>| #[trigger] ledger.contains_key(k) ==> exists|i: int|
        0 <= i < entries.len() && #[trigger] entries[i].tx_id@ == k
}

/// `ledger` is what `from_entries` builds from `entries`: a key for each
/// fingerprint, with the record of its first entry.
pub open spec fn loaded_from(ledger: Map<Seq<u8>, LedgerRecord>, entries: Seq<LedgerEntry>) -> bool {
    &&& forall|k: Seq<u8>| #[trigger] ledger.contains_key(k) <==> exists|i: int|
        0 <= i < entries.len() && #[trigger] entries[i].tx_id@ == k
    &&& forall|k: Seq<u8>| #[trigger] ledger.contains_key(k) ==> exists|i: int|
        0 <= i < entries.len() && #[trigger] entries[i].tx_id@ == k && ledger[k] == record_of(entries[i])
            && first_with_id(entries, i)
}

/// Saving a ledger's entries and loading them again gives back the same
/// ledger: every fingerprint, with the same selector and output.
pub proof fn lemma_reload_preserves_ledger(
    entries: Seq<LedgerEntry>,
    saved: Map<Seq<u8>, LedgerRecord>,
    loaded: Map<Seq<u8>, LedgerRecord>,
)
    requires
        describes(entries, saved),
        loaded_from(loaded, entries),
    ensures
        loaded == saved,
{
    assert forall|k: Seq<u8>| #[trigger] loaded.contains_key(k) <==> saved.contains_key(k) by {
        if loaded.contains_key(k) {
            let i = choose|i: int| 0 <= i < entries.len() && #[trigger] entries[i].tx_id@ == k;
            assert(saved.contains_key(entries[i].tx_id@));
        }
        if saved.contains_key(k) {
            let i = choose|i: int| 0 <= i < entries.len() && #[trigger] entries[i].tx_id@ == k;
            assert(entries[i].tx_id@ == k);
        }
    }
    assert forall|k: Seq<u8>| #[trigger] loaded.contains_key(k) implies loaded[k] == saved[k] by {
        let i = choose|i: int|
            0 <= i < entries.len() && #[trigger] entries[i].tx_id@ == k && loaded[k] == record_of(entries[i])
                && first_with_id(entries, i);
        assert(saved.contains_key(entries[i].tx_id@));
    }
    assert(loaded =~= saved);
}

/// Entry `i` is the first in `entries` with its fingerprint.
pub open spec fn first_with_id(entries: Seq<LedgerEntry>, i: int) -> bool {
    forall|j: int| 0 <= j < i ==> #[trigger] entries[j].tx_id@ != entries[i].tx_id@
}

/// The ledger after `maybe_insert_tx_entry`: a successful result is added
/// under a fingerprint that has no entry yet; anything else leaves it as is.
pub open spec fn ledger_after(
    ledger: Map<Seq<u8>, LedgerRecord>,
    tx_id: Seq<u8>,
    selector: Seq<char>,
    result: ActionResult,
) -> Map<Seq<u8>, LedgerRecord> {
    match result {
        ActionResult::Success(out) => if ledger.contains_key(tx_id) {
            ledger
        } else {
            ledger.insert(tx_id, LedgerRecord { selector, output: out@ })
        },
        ActionResult::Failure(_) => ledger,
    }
}

/// The ledger of successful transactions. Without a persisted store it starts
/// empty; entries are only ever added, never replaced or removed.
pub struct StateManager {
    entries: Vec<LedgerEntry>,
    model: Ghost<Map<Seq<u8>, LedgerRecord>>,
}

fn bytes_eq(a: &Vec<u8>, b: &Vec<u8>) -> (r: bool)
    ensures
        r == (a@ == b@),
{
    if a.len() != b.len() {
        return false;
    }
    let mut i: usize = 0;
    while i < a.len()
        invariant
            i <= a.len() == b.len(),
            forall|j: int| 0 <= j < i ==> a@[j] == b@[j],
        decreases a.len() - i,
    {
        if a[i] != b[i] {
            return false;
        }
        i = i + 1;
    }
    assert(a@ =~= b@);
    true
}

impl View for StateManager {
    type V = Map<Seq<u8>, LedgerRecord>;

    closed spec fn view(&self) -> Map<Seq<u8>, LedgerRecord> {
        self.model@
    }
}

impl StateManager {
    pub closed spec fn wf(&self) -> bool {
        &&& forall|i: int, j: int|
            0 <= i < j < self.entries@.len() ==> #[trigger] self.entries@[i].tx_id@
                != #[trigger] self.entries@[j].tx_id@
        &&& forall|i: int|
            0 <= i < self.entries@.len() ==> self.model@.contains_key(
                #[trigger] self.entries@[i].tx_id@,
            ) && self.model@[self.entries@[i].tx_id@] == record_of(self.entries@[i])
        &&& forall|k: Seq<u8>|
            #[trigger] self.model@.contains_key(k) ==> exists|i: int|
                0 <= i < self.entries@.len() && #[trigger] self.entries@[i].tx_id@ == k
    }

    /// An empty ledger, as used when no store is configured.
    pub fn new() -> (r: StateManager)
        ensures
            r.wf(),
            r@ == Map::<Seq<u8>, LedgerRecord>::empty(),
    {
        StateManager { entries: Vec::new(), model: Ghost(Map::empty()) }
    }

    /// The index of the entry under `tx_id`, if any.
    fn position(&self, tx_id: &Vec<u8>) -> (r: Option<usize>)
        requires
            self.wf(),
        ensures
            match r {
                Some(i) => i < self.entries@.len() && self.entries@[i as int].tx_id@ == tx_id@
                    && self@.contains_key(tx_id@) && self@[tx_id@] == record_of(self.entries@[i as int]),
                None => !self@.contains_key(tx_id@),
            },
    {
        let mut i: usize = 0;
        while i < self.entries.len()
            invariant
                self.wf(),
                i <= self.entries@.len(),
                forall|j: int| 0 <= j < i ==> self.entries@[j].tx_id@ != tx_id@,
            decreases self.entries.len() - i,
        {
            if bytes_eq(&self.entries[i].tx_id, tx_id) {
                assert(self.model@.contains_key(self.entries@[i as int].tx_id@));
                return Some(i);
            }
            i = i + 1;
        }
        None
    }

    /// The cached output of the successful action with this fingerprint.
    pub fn get_output_if_success(&self, tx_id: &Vec<u8>) -> (r: Option<Vec<Felt>>)
        requires
            self.wf(),
        ensures
            match r {
                Some(out) => self@.contains_key(tx_id@) && out@ == self@[tx_id@].output,
                None => !self@.contains_key(tx_id@),
            },
    {
        match self.position(tx_id) {
            Some(i) => {
                let out = &self.entries[i].output;
                Some(copy_range(out, 0, out.len()))
            },
            None => None,
        }
    }

    /// Records `result` under `tx_id` when it is a success and the fingerprint
    /// has no entry yet. Returns whether an entry was added.
    pub fn maybe_insert_tx_entry(&mut self, tx_id: &Vec<u8>, selector: &str, result: &ActionResult) -> (r: bool)
        requires
            old(self).wf(),
        ensures
            final(self).wf(),
            final(self)@ == ledger_after(old(self)@, tx_id@, selector@, *result),
            r == (final(self)@ != old(self)@),
    {
        match result {
            ActionResult::Success(out) => {
                match self.position(tx_id) {
                    Some(_) => false,
                    None => {
                        let entry = LedgerEntry {
                            tx_id: copy_bytes(tx_id),
                            selector: selector.to_owned(),
                            output: copy_range(out, 0, out.len()),
                        };
                        assert(entry.tx_id@ == tx_id@);
                        assert(entry.selector@ == selector@);
                        assert(entry.output@ == out@);
                        self.push_new(entry);
                        assert(self@ == old(self)@.insert(tx_id@, LedgerRecord { selector: selector@, output: out@ }));
                        assert(!old(self)@.contains_key(tx_id@));
                        assert(self@.contains_key(tx_id@));
                        true
                    },
                }
            },
            ActionResult::Failure(_) => false,
        }
    }

    fn push_new(&mut self, entry: LedgerEntry)
        requires
            old(self).wf(),
            !old(self)@.contains_key(entry.tx_id@),
        ensures
            final(self).wf(),
            final(self)@ == old(self)@.insert(entry.tx_id@, record_of(entry)),
    {
        let ghost k = entry.tx_id@;
        let ghost rec = record_of(entry);
        let ghost old_entries = self.entries@;
        self.entries.push(entry);
        self.model = Ghost(self.model@.insert(k, rec));
        assert forall|i: int, j: int|
            0 <= i < j < self.entries@.len() implies #[trigger] self.entries@[i].tx_id@
                != #[trigger] self.entries@[j].tx_id@ by {
            if j == old_entries.len() {
                assert(old(self)@.contains_key(old_entries[i].tx_id@));
            }
        }
        assert forall|kk: Seq<u8>| #[trigger] self.model@.contains_key(kk) implies exists|i: int|
            0 <= i < self.entries@.len() && #[trigger] self.entries@[i].tx_id@ == kk by {
            if kk == k {
                assert(self.entries@[old_entries.len() as int].tx_id@ == kk);
            } else {
                let i = choose|i: int| 0 <= i < old_entries.len() && #[trigger] old_entries[i].tx_id@ == kk;
                assert(self.entries@[i].tx_id@ == kk);
            }
        }
        assert forall|i: int| 0 <= i < self.entries@.len() implies self.model@.contains_key(
            #[trigger] self.entries@[i].tx_id@,
        ) && self.model@[self.entries@[i].tx_id@] == record_of(self.entries@[i]) by {
            if i < old_entries.len() {
                assert(old_entries[i].tx_id@ != k);
            }
        }
    }

    /// A ledger holding the given persisted entries; of entries with the same
    /// fingerprint the first is kept.
    pub fn from_entries(entries: Vec<LedgerEntry>) -> (r: StateManager)
        ensures
            r.wf(),
            loaded_from(r@, entries@),
    {
        let mut r = StateManager::new();
        let mut rest = entries;
        let ghost all = rest@;
        assert(all.len() == rest.len());
        let mut taken: usize = 0;
        let mut pending: Vec<LedgerEntry> = Vec::new();
        while rest.len() > 0
            invariant
                r.wf(),
                taken + rest@.len() == all.len(),
                all.len() <= usize::MAX,
                rest@ == all.subrange(taken as int, all.len() as int),
                forall|k: Seq<u8>| #[trigger] r@.contains_key(k) <==> exists|i: int|
                    0 <= i < taken && #[trigger] all[i].tx_id@ == k,
                forall|k: Seq<u8>| #[trigger] r@.contains_key(k) ==> exists|i: int|
                    0 <= i < taken && #[trigger] all[i].tx_id@ == k && r@[k] == record_of(all[i])
                        && first_with_id(all, i),
            decreases rest.len(),
        {
            let entry = rest.remove(0);
            let ghost k = entry.tx_id@;
            let ghost old_r = r@;
            assert(entry == all[taken as int]);
            match r.position(&entry.tx_id) {
                Some(_) => {
                    pending.push(entry);
                },
                None => {
                    r.push_new(entry);
                },
            }
            taken = taken + 1;
            assert(rest@ =~= all.subrange(taken as int, all.len() as int));
            assert forall|kk: Seq<u8>| #[trigger] r@.contains_key(kk) implies exists|i: int|
                0 <= i < taken && #[trigger] all[i].tx_id@ == kk && r@[kk] == record_of(all[i])
                    && first_with_id(all, i) by {
                if old_r.contains_key(kk) {
                    let i = choose|i: int|
                        0 <= i < taken - 1 && #[trigger] all[i].tx_id@ == kk && old_r[kk] == record_of(all[i])
                            && first_with_id(all, i);
                    assert(all[i].tx_id@ == kk);
                } else {
                    assert(kk == k);
                    assert forall|j: int| 0 <= j < taken - 1 implies #[trigger] all[j].tx_id@ != kk by {
                        if all[j].tx_id@ == kk {
                            assert(old_r.contains_key(kk));
                        }
                    }
                    assert(all[taken - 1].tx_id@ == kk);
                }
            }
            assert forall|kk: Seq<u8>| #[trigger] r@.contains_key(kk) <==> exists|i: int|
                0 <= i < taken && #[trigger] all[i].tx_id@ == kk by {
                if kk == k {
                    assert(all[taken - 1].tx_id@ == kk);
                } else if r@.contains_key(kk) {
                    let i = choose|i: int| 0 <= i < taken - 1 && #[trigger] all[i].tx_id@ == kk;
                    assert(all[i].tx_id@ == kk);
                } else {
                    if exists|i: int| 0 <= i < taken && #[trigger] all[i].tx_id@ == kk {
                        let i = choose|i: int| 0 <= i < taken && #[trigger] all[i].tx_id@ == kk;
                        assert(i != taken - 1);
                    }
                }
            }
        }
        r
    }

    /// The stored entries, in the order in which they were added.
    pub fn entries(&self) -> (r: &Vec<LedgerEntry>)
        requires
            self.wf(),
        ensures
            describes(r@, self@),
            forall|i: int, j: int| 0 <= i < j < r@.len() ==> #[trigger] r@[i].tx_id@ != #[trigger] r@[j].tx_id@,
    {
        &self.entries
    }
}

pub fn copy_bytes(v: &Vec<u8>) -> (r: Vec<u8>)
    ensures
        r@ == v@,
{
    let mut r: Vec<u8> = Vec::new();
    let mut k: usize = 0;
    while k < v.len()
        invariant
            k <= v.len(),
            r@ == v@.subrange(0, k as int),
        decreases v.len() - k,
    {
        r.push(v[k]);
        k = k + 1;
        assert(r@ =~= v@.subrange(0, k as int));
    }
    assert(v@.subrange(0, k as int) =~= v@);
    r
}

} // verus!

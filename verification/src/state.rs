//! Event identities and the ordered log maps of the relay.
//!
//! `LogSource` identifies one observed event and is totally ordered,
//! lexicographically on the pair of transaction hash and event index. A
//! `LogMap` is a strictly key-ordered association vector, so iteration
//! order is key order and keys are unique.
use vstd::prelude::*;
use crate::guard::TaskSet;
use crate::rpc_types::{BlockTag, LogEntry, RpcServices};

verus! {

/// Strict lexicographic order on byte strings: either the strings differ
/// at some position of a common prefix, or the first is a proper prefix
/// of the second.
pub open spec fn spec_lex_lt(a: Seq<u8>, b: Seq<u8>) -> bool {
    ||| exists|i: int|
        0 <= i < a.len() && i < b.len() && (forall|j: int| 0 <= j < i ==> a[j] == b[j])
            && #[trigger] a[i] < #[trigger] b[i]
    ||| a.len() < b.len() && a == b.subrange(0, a.len() as int)
}

/// Three-way lexicographic comparison of byte strings; the result decides
/// the strict order in both directions and equality.
pub fn lex_cmp(a: &[u8], b: &[u8]) -> (r: i8)
    ensures
        -1 <= r <= 1,
        (r == -1) == spec_lex_lt(a@, b@),
        (r == 1) == spec_lex_lt(b@, a@),
        (r == 0) == (a@ == b@),
{
    let a_len: usize = a.len();
    let b_len: usize = b.len();
    let n: usize = if a_len < b_len { a_len } else { b_len };
    let mut i: usize = 0;
    while i < n
        invariant
            n <= a@.len(),
            n <= b@.len(),
            a@.len() < b@.len() ==> n == a@.len(),
            b@.len() <= a@.len() ==> n == b@.len(),
            i <= n,
            forall|j: int| 0 <= j < i ==> a@[j] == b@[j],
        decreases n - i,
    {
        if a[i] < b[i] {
            proof {
                assert(spec_lex_lt(a@, b@));
                assert(a@[i as int] != b@[i as int]);
                assert(a@ != b@);
                assert(!spec_lex_lt(b@, a@));
            }
            return -1;
        }
        if a[i] > b[i] {
            proof {
                assert(spec_lex_lt(b@, a@));
                assert(a@[i as int] != b@[i as int]);
                assert(a@ != b@);
                assert(!spec_lex_lt(a@, b@));
            }
            return 1;
        }
        i = i + 1;
    }
    if a_len == b_len {
        proof {
            assert(a@ =~= b@);
        }
        0
    } else if a_len < b_len {
        proof {
            assert(a@ =~= b@.subrange(0, a@.len() as int));
            assert(spec_lex_lt(a@, b@));
            assert(a@.len() != b@.len());
            assert(a@ != b@);
            assert(!spec_lex_lt(b@, a@));
        }
        -1
    } else {
        proof {
            assert(b@ =~= a@.subrange(0, b@.len() as int));
            assert(spec_lex_lt(b@, a@));
            assert(a@.len() != b@.len());
            assert(a@ != b@);
            assert(!spec_lex_lt(a@, b@));
        }
        1
    }
}

/// The lexicographic order is transitive.
pub proof fn lemma_lex_lt_trans(a: Seq<u8>, b: Seq<u8>, c: Seq<u8>)
    requires
        spec_lex_lt(a, b),
        spec_lex_lt(b, c),
    ensures
        spec_lex_lt(a, c),
{
    if exists|i: int|
        0 <= i < a.len() && i < b.len() && (forall|j: int| 0 <= j < i ==> a[j] == b[j])
            && #[trigger] a[i] < #[trigger] b[i] {
        let i1 = choose|i: int|
            0 <= i < a.len() && i < b.len() && (forall|j: int| 0 <= j < i ==> a[j] == b[j])
                && #[trigger] a[i] < #[trigger] b[i];
        if exists|i: int|
            0 <= i < b.len() && i < c.len() && (forall|j: int| 0 <= j < i ==> b[j] == c[j])
                && #[trigger] b[i] < #[trigger] c[i] {
            let i2 = choose|i: int|
                0 <= i < b.len() && i < c.len() && (forall|j: int| 0 <= j < i ==> b[j] == c[j])
                    && #[trigger] b[i] < #[trigger] c[i];
            if i1 < i2 {
                assert(a[i1] < c[i1]);
                assert(spec_lex_lt(a, c));
            } else if i2 < i1 {
                assert(a[i2] < c[i2]);
                assert(spec_lex_lt(a, c));
            } else {
                assert(a[i1] < c[i1]);
                assert(spec_lex_lt(a, c));
            }
        } else {
            assert(b.len() < c.len() && b == c.subrange(0, b.len() as int));
            assert(b[i1] == c[i1]);
            assert(a[i1] < c[i1]);
            assert(spec_lex_lt(a, c));
        }
    } else {
        assert(a.len() < b.len() && a == b.subrange(0, a.len() as int));
        assert(forall|j: int| 0 <= j < a.len() ==> a[j] == #[trigger] b[j]);
        if exists|i: int|
            0 <= i < b.len() && i < c.len() && (forall|j: int| 0 <= j < i ==> b[j] == c[j])
                && #[trigger] b[i] < #[trigger] c[i] {
            let i2 = choose|i: int|
                0 <= i < b.len() && i < c.len() && (forall|j: int| 0 <= j < i ==> b[j] == c[j])
                    && #[trigger] b[i] < #[trigger] c[i];
            if i2 < a.len() {
                assert(a[i2] < c[i2]);
                assert(spec_lex_lt(a, c));
            } else {
                assert(forall|j: int| 0 <= j < a.len() ==> a[j] == #[trigger] c[j]);
                assert(a.len() < c.len());
                assert(a =~= c.subrange(0, a.len() as int));
                assert(spec_lex_lt(a, c));
            }
        } else {
            assert(b.len() < c.len() && b == c.subrange(0, b.len() as int));
            assert(forall|j: int| 0 <= j < b.len() ==> b[j] == #[trigger] c[j]);
            assert(a =~= c.subrange(0, a.len() as int));
            assert(spec_lex_lt(a, c));
        }
    }
}

/// Unique identity of one observed event: the hash of the transaction it
/// originated from and the event's index inside that transaction.
#[derive(Debug, Clone)]
pub struct LogSource {
    pub transaction_hash: Vec<u8>,
    pub log_index: u64,
}

/// Equality of event identities.
pub open spec fn spec_key_eq(a: LogSource, b: LogSource) -> bool {
    a.transaction_hash@ == b.transaction_hash@ && a.log_index == b.log_index
}

/// Total order on event identities: lexicographic on the pair of the
/// transaction hash and the event index.
pub open spec fn spec_key_lt(a: LogSource, b: LogSource) -> bool {
    ||| spec_lex_lt(a.transaction_hash@, b.transaction_hash@)
    ||| (a.transaction_hash@ == b.transaction_hash@ && a.log_index < b.log_index)
}

impl LogSource {
    /// Three-way comparison deciding the total order and equality.
    pub fn cmp(&self, other: &LogSource) -> (r: i8)
        ensures
            -1 <= r <= 1,
            (r == -1) == spec_key_lt(*self, *other),
            (r == 1) == spec_key_lt(*other, *self),
            (r == 0) == spec_key_eq(*self, *other),
    {
        let c = lex_cmp(self.transaction_hash.as_slice(), other.transaction_hash.as_slice());
        if c != 0 {
            c
        } else if self.log_index < other.log_index {
            -1
        } else if self.log_index > other.log_index {
            1
        } else {
            0
        }
    }
}

/// The order on event identities is transitive.
pub proof fn lemma_key_lt_trans(a: LogSource, b: LogSource, c: LogSource)
    requires
        spec_key_lt(a, b),
        spec_key_lt(b, c),
    ensures
        spec_key_lt(a, c),
{
    if spec_lex_lt(a.transaction_hash@, b.transaction_hash@) {
        if spec_lex_lt(b.transaction_hash@, c.transaction_hash@) {
            lemma_lex_lt_trans(a.transaction_hash@, b.transaction_hash@, c.transaction_hash@);
        }
    }
}

/// The key already stood in the map, or was missing where one was owed:
/// the internal invariant would be violated. The work that hit it aborts
/// with no partial change committed.
#[derive(Debug, Clone, Copy, PartialEq, Eq, Structural)]
pub enum InvariantViolation {
    DuplicateLogSource,
    UnknownLogSource,
    MissingSourceField,
    BlockAlreadySkipped,
}

/// A map from event identities to observed events, kept as a strictly
/// key-ordered association vector: iteration order is key order, and keys
/// are unique.
#[derive(Debug, Clone)]
pub struct LogMap {
    entries: Vec<(LogSource, LogEntry)>,
}

impl LogMap {
    /// The entries in key order.
    pub closed spec fn view(&self) -> Seq<(LogSource, LogEntry)> {
        self.entries@
    }

    /// Keys strictly ascending: ordered and free of duplicates.
    pub open spec fn wf(&self) -> bool {
        forall|i: int, j: int|
            0 <= i < j < self@.len() ==> spec_key_lt(#[trigger] self@[i].0, #[trigger] self@[j].0)
    }

    /// Membership of a key.
    pub open spec fn spec_contains_key(&self, key: LogSource) -> bool {
        exists|i: int| 0 <= i < self@.len() && spec_key_eq(#[trigger] self@[i].0, key)
    }

    /// An empty map.
    pub fn new() -> (r: LogMap)
        ensures
            r@ =~= Seq::<(LogSource, LogEntry)>::empty(),
            r.wf(),
    {
        LogMap { entries: Vec::new() }
    }

    /// Number of entries.
    pub fn len(&self) -> (r: usize)
        ensures
            r == self@.len(),
    {
        self.entries.len()
    }

    /// Decides whether the map is empty.
    pub fn is_empty(&self) -> (r: bool)
        ensures
            r == (self@.len() == 0),
    {
        self.entries.len() == 0
    }

    /// The entry at a position of the key order.
    pub fn entry_at(&self, i: usize) -> (r: &(LogSource, LogEntry))
        requires
            i < self@.len(),
        ensures
            *r == self@[i as int],
    {
        &self.entries[i]
    }

    /// Position of `key` in the key order, if present.
    pub fn find(&self, key: &LogSource) -> (r: Option<usize>)
        ensures
            r is Some ==> r->Some_0 < self@.len() && spec_key_eq(self@[r->Some_0 as int].0, *key),
            r is None ==> !self.spec_contains_key(*key),
    {
        let mut i: usize = 0;
        while i < self.entries.len()
            invariant
                i <= self@.len(),
                forall|j: int| 0 <= j < i ==> !spec_key_eq(#[trigger] self@[j].0, *key),
            decreases self@.len() - i,
        {
            if self.entries[i].0.cmp(key) == 0 {
                return Some(i);
            }
            i = i + 1;
        }
        None
    }

    /// Decides membership of a key.
    pub fn contains_key(&self, key: &LogSource) -> (r: bool)
        ensures
            r == self.spec_contains_key(*key),
    {
        match self.find(key) {
            Some(_) => true,
            None => false,
        }
    }

    /// Number of keys strictly below `key` in the key order: the position
    /// an insertion of `key` would take.
    fn lower_bound(&self, key: &LogSource) -> (p: usize)
        requires
            self.wf(),
        ensures
            p <= self@.len(),
            forall|j: int| 0 <= j < p ==> spec_key_lt(#[trigger] self@[j].0, *key),
            p < self@.len() ==> !spec_key_lt(self@[p as int].0, *key),
    {
        let mut p: usize = 0;
        loop
            invariant
                self.wf(),
                p <= self@.len(),
                forall|j: int| 0 <= j < p ==> spec_key_lt(#[trigger] self@[j].0, *key),
            ensures
                p <= self@.len(),
                forall|j: int| 0 <= j < p ==> spec_key_lt(#[trigger] self@[j].0, *key),
                p < self@.len() ==> !spec_key_lt(self@[p as int].0, *key),
            decreases self@.len() - p,
        {
            if p >= self.entries.len() {
                break;
            }
            let c = self.entries[p].0.cmp(key);
            if c != -1 {
                break;
            }
            p = p + 1;
        }
        p
    }

    /// Inserts an entry under a key not yet present; rejects a duplicate
    /// key with the map unchanged. On success the new entry stands at the
    /// unique position the key order assigns it.
    #[verifier::rlimit(30)]
    pub fn insert_new(&mut self, key: LogSource, value: LogEntry) -> (r: Result<
        (),
        InvariantViolation,
    >)
        requires
            old(self).wf(),
        ensures
            final(self).wf(),
            r is Err <==> old(self).spec_contains_key(key),
            r is Err ==> *final(self) == *old(self) && r->Err_0
                == InvariantViolation::DuplicateLogSource,
            r is Ok ==> exists|p: int|
                0 <= p <= old(self)@.len() && final(self)@ =~= old(self)@.subrange(0, p).push(
                    (key, value),
                ) + old(self)@.subrange(p, old(self)@.len() as int),
            r is Ok ==> final(self).spec_contains_key(key),
            r is Ok ==> final(self)@.len() == old(self)@.len() + 1,
            forall|k: LogSource|
                !spec_key_eq(k, key) ==> final(self).spec_contains_key(k) == old(self).spec_contains_key(k),
    {
        let ghost old_entries = self.entries@;
        let ghost gkey = key;
        let ghost gval = value;
        let p = self.lower_bound(&key);
        if p < self.entries.len() {
            let c = self.entries[p].0.cmp(&key);
            if c == 0 {
                proof {
                    assert(old(self).spec_contains_key(key));
                }
                return Err(InvariantViolation::DuplicateLogSource);
            }
            proof {
                assert(spec_key_lt(key, self@[p as int].0));
            }
        }
        proof {
            // Entries below the position are below the key; entries at or
            // past it are above the key, by ordering and transitivity. So
            // the key is absent and the insertion keeps the order strict.
            assert forall|j: int| p <= j < self@.len() implies spec_key_lt(
                key,
                #[trigger] self@[j].0,
            ) by {
                if j > p {
                    lemma_key_lt_trans(key, self@[p as int].0, self@[j].0);
                }
            }
            assert forall|j: int| 0 <= j < self@.len() implies !spec_key_eq(
                #[trigger] self@[j].0,
                key,
            ) by {
                if j < p {
                    assert(spec_key_lt(self@[j].0, key));
                } else {
                    assert(spec_key_lt(key, self@[j].0));
                }
            }
            assert(!old(self).spec_contains_key(key));
        }
        self.entries.insert(p, (key, value));
        proof {
            assert(self@ =~= old(self)@.subrange(0, p as int).push((gkey, gval)) + old(
                self,
            )@.subrange(p as int, old(self)@.len() as int));
            assert(spec_key_eq(self@[p as int].0, gkey));
            assert forall|i: int, j: int| 0 <= i < j < self@.len() implies spec_key_lt(
                #[trigger] self@[i].0,
                #[trigger] self@[j].0,
            ) by {
                if i < p && j > p {
                    lemma_key_lt_trans(self@[i].0, gkey, self@[j].0);
                }
            }
            assert forall|k: LogSource| !spec_key_eq(k, gkey) implies self.spec_contains_key(k)
                == old(self).spec_contains_key(k) by {
                if old(self).spec_contains_key(k) {
                    let i = choose|i: int|
                        0 <= i < old(self)@.len() && spec_key_eq(#[trigger] old(self)@[i].0, k);
                    if i < p {
                        assert(spec_key_eq(self@[i].0, k));
                    } else {
                        assert(spec_key_eq(self@[i + 1].0, k));
                    }
                    assert(self.spec_contains_key(k));
                }
                if self.spec_contains_key(k) {
                    let i = choose|i: int|
                        0 <= i < self@.len() && spec_key_eq(#[trigger] self@[i].0, k);
                    if i < p {
                        assert(spec_key_eq(old(self)@[i].0, k));
                    } else {
                        assert(i != p);
                        assert(spec_key_eq(old(self)@[i - 1].0, k));
                    }
                    assert(old(self).spec_contains_key(k));
                }
            }
        }
        Ok(())
    }

    /// Removes the entry under `key`, handing its event back; rejects a
    /// missing key with the map unchanged.
    #[verifier::rlimit(30)]
    pub fn remove(&mut self, key: &LogSource) -> (r: Result<LogEntry, InvariantViolation>)
        requires
            old(self).wf(),
        ensures
            final(self).wf(),
            r is Err <==> !old(self).spec_contains_key(*key),
            r is Err ==> *final(self) == *old(self) && r->Err_0
                == InvariantViolation::UnknownLogSource,
            r is Ok ==> exists|p: int|
                0 <= p < old(self)@.len() && spec_key_eq(old(self)@[p].0, *key) && r->Ok_0 == old(self)@[p].1 && final(self)@ =~= old(self)@.subrange(0, p) + old(self)@.subrange(
                    p + 1,
                    old(self)@.len() as int,
                ),
            r is Ok ==> !final(self).spec_contains_key(*key),
            r is Ok ==> final(self)@.len() == old(self)@.len() - 1,
            forall|k: LogSource|
                !spec_key_eq(k, *key) ==> final(self).spec_contains_key(k) == old(self).spec_contains_key(k),
    {
        let ghost old_entries = self.entries@;
        let found = self.find(key);
        match found {
            None => Err(InvariantViolation::UnknownLogSource),
            Some(p) => {
                let (_, value) = self.entries.remove(p);
                proof {
                    assert(self@ =~= old(self)@.subrange(0, p as int) + old(self)@.subrange(
                        p + 1,
                        old(self)@.len() as int,
                    ));
                    // Any other occurrence of the key would sit beside the
                    // removed one, against strict ordering: keys on each
                    // side order strictly around the removed key.
                    assert forall|i: int| 0 <= i < self@.len() implies !spec_key_eq(
                        #[trigger] self@[i].0,
                        *key,
                    ) by {
                        if i < p {
                            assert(spec_key_lt(old(self)@[i].0, old(self)@[p as int].0));
                        } else {
                            assert(spec_key_lt(old(self)@[p as int].0, old(self)@[i + 1].0));
                        }
                    }
                    assert(!self.spec_contains_key(*key));
                    assert forall|k: LogSource| !spec_key_eq(k, *key) implies self.spec_contains_key(
                        k,
                    ) == old(self).spec_contains_key(k) by {
                        if old(self).spec_contains_key(k) {
                            let i = choose|i: int|
                                0 <= i < old(self)@.len() && spec_key_eq(
                                    #[trigger] old(self)@[i].0,
                                    k,
                                );
                            if i < p {
                                assert(spec_key_eq(self@[i].0, k));
                            } else {
                                assert(i != p);
                                assert(spec_key_eq(self@[i - 1].0, k));
                            }
                            assert(self.spec_contains_key(k));
                        }
                        if self.spec_contains_key(k) {
                            let i = choose|i: int|
                                0 <= i < self@.len() && spec_key_eq(#[trigger] self@[i].0, k);
                            if i < p {
                                assert(spec_key_eq(old(self)@[i].0, k));
                            } else {
                                assert(spec_key_eq(old(self)@[i + 1].0, k));
                            }
                            assert(old(self).spec_contains_key(k));
                        }
                    }
                }
                Ok(value)
            },
        }
    }
}

/// Curve of the externally held signing key.
#[derive(Debug, Clone, Copy, PartialEq, Eq, Structural)]
pub enum EcdsaCurve {
    Secp256k1,
}

/// Identifier of the externally held signing key.
#[derive(Debug, Clone)]
pub struct EcdsaKeyId {
    pub curve: EcdsaCurve,
    pub name: String,
}

/// `k` names the event `e` carries: `e` has both source fields, and they
/// equal `k`'s.
pub open spec fn spec_source_matches(e: LogEntry, k: LogSource) -> bool {
    &&& e.transaction_hash is Some
    &&& e.log_index is Some
    &&& k.transaction_hash@ == e.transaction_hash->0@
    &&& k.log_index == e.log_index->0
}

impl LogEntry {
    /// The identity of this event, if the entry carries both source
    /// fields; entries of not-yet-final blocks may lack them.
    pub fn source(&self) -> (r: Option<LogSource>)
        ensures
            r is Some <==> (self.transaction_hash is Some && self.log_index is Some),
            r is Some ==> spec_source_matches(*self, r->Some_0),
    {
        match (&self.transaction_hash, &self.log_index) {
            (Some(h), Some(i)) => Some(LogSource { transaction_hash: h.clone(), log_index: *i }),
            _ => None,
        }
    }
}

/// Decides whether `x` stands in `v`.
pub fn contains_u64(v: &Vec<u64>, x: u64) -> (r: bool)
    ensures
        r == v@.contains(x),
{
    let mut i: usize = 0;
    while i < v.len()
        invariant
            i <= v@.len(),
            forall|j: int| 0 <= j < i ==> v@[j] != x,
        decreases v@.len() - i,
    {
        if v[i] == x {
            return true;
        }
        i = i + 1;
    }
    false
}

/// The single mutable root of the relay. All components read and change
/// the cursor, the log maps, the nonce and the task-guard set through it.
#[derive(Debug, Clone)]
pub struct State {
    pub rpc_services: RpcServices,
    pub get_logs_address: Vec<String>,
    pub get_logs_topics: Option<Vec<Vec<String>>>,
    pub last_scraped_block_number: u64,
    pub last_observed_block_number: Option<u64>,
    pub logs_to_process: LogMap,
    pub processed_logs: LogMap,
    pub skipped_blocks: Vec<u64>,
    pub active_tasks: TaskSet,
    pub ecdsa_pub_key: Option<Vec<u8>>,
    pub ecdsa_key_id: EcdsaKeyId,
    pub evm_address: Option<String>,
    pub nonce: u128,
    pub block_tag: BlockTag,
}

impl State {
    /// Well-formedness: both log maps are strictly key-ordered, no event
    /// identity stands in both, and no block is recorded skipped twice.
    pub open spec fn wf(&self) -> bool {
        &&& self.logs_to_process.wf()
        &&& self.processed_logs.wf()
        &&& forall|k: LogSource|
            !(#[trigger] self.logs_to_process.spec_contains_key(k)
                && self.processed_logs.spec_contains_key(k))
        &&& forall|i: int, j: int|
            0 <= i < j < self.skipped_blocks@.len() ==> #[trigger] self.skipped_blocks@[i]
                != #[trigger] self.skipped_blocks@[j]
    }

    /// Records a newly observed event under its identity in the pending
    /// map. Rejects an entry without source fields, and — as an invariant
    /// violation — an identity already known to either map; on any
    /// rejection the state is unchanged.
    pub fn record_log_to_process(&mut self, log_entry: LogEntry) -> (r: Result<
        (),
        InvariantViolation,
    >)
        requires
            old(self).wf(),
        ensures
            final(self).wf(),
            r is Err ==> *final(self) == *old(self),
            r is Err ==> r->Err_0 == InvariantViolation::MissingSourceField || r->Err_0
                == InvariantViolation::DuplicateLogSource,
            r is Ok ==> final(self).logs_to_process@.len() == old(self).logs_to_process@.len() + 1,
            r is Ok ==> exists|k: LogSource|
                #[trigger] spec_source_matches(log_entry, k) && final(self).logs_to_process.spec_contains_key(k),
            (r == Err::<(), InvariantViolation>(InvariantViolation::MissingSourceField)) <==> (
            log_entry.transaction_hash is None || log_entry.log_index is None),
            log_entry.transaction_hash is Some && log_entry.log_index is Some ==> ((r == Err::<
                (),
                InvariantViolation,
            >(InvariantViolation::DuplicateLogSource)) <==> (exists|k: LogSource|
                #[trigger] spec_source_matches(log_entry, k) && (old(
                    self,
                ).logs_to_process.spec_contains_key(k) || old(self).processed_logs.spec_contains_key(
                    k,
                )))),
            r is Ok ==> forall|k: LogSource|
                spec_source_matches(log_entry, k) ==> #[trigger] final(self).logs_to_process.spec_contains_key(k),
            r is Ok ==> exists|k: LogSource, p: int|
                spec_source_matches(log_entry, k) && 0 <= p <= old(self).logs_to_process@.len()
                    && final(self).logs_to_process@ =~= old(self).logs_to_process@.subrange(
                    0,
                    p,
                ).push((k, log_entry)) + old(self).logs_to_process@.subrange(
                    p,
                    old(self).logs_to_process@.len() as int,
                ),
            r is Ok ==> forall|k: LogSource|
                !spec_source_matches(log_entry, k) ==> #[trigger] final(self).logs_to_process.spec_contains_key(k) == old(self).logs_to_process.spec_contains_key(
                    k,
                ),
            *final(self) == (State {
                logs_to_process: final(self).logs_to_process,
                ..*old(self)
            }),
    {
        let source = match log_entry.source() {
            Some(s) => s,
            None => {
                return Err(InvariantViolation::MissingSourceField);
            },
        };
        let ghost gkey = source;
        proof {
            assert(spec_source_matches(log_entry, gkey));
        }
        if self.processed_logs.contains_key(&source) {
            proof {
                assert(old(self).logs_to_process.spec_contains_key(gkey) || old(
                    self,
                ).processed_logs.spec_contains_key(gkey));
                assert(exists|k: LogSource|
                    #[trigger] spec_source_matches(log_entry, k) && (old(
                        self,
                    ).logs_to_process.spec_contains_key(k) || old(
                        self,
                    ).processed_logs.spec_contains_key(k)));
            }
            return Err(InvariantViolation::DuplicateLogSource);
        }
        let r = self.logs_to_process.insert_new(source, log_entry);
        match r {
            Err(e) => {
                proof {
                    assert(old(self).logs_to_process.spec_contains_key(gkey) || old(
                        self,
                    ).processed_logs.spec_contains_key(gkey));
                }
                Err(e)
            },
            Ok(()) => {
                proof {
                    assert(self.logs_to_process.spec_contains_key(gkey));
                    assert forall|k: LogSource|
                        spec_source_matches(log_entry, k) implies #[trigger] self.logs_to_process.spec_contains_key(
                        k,
                    ) by {
                        let i = choose|i: int|
                            0 <= i < self.logs_to_process@.len() && spec_key_eq(
                                #[trigger] self.logs_to_process@[i].0,
                                gkey,
                            );
                        assert(spec_key_eq(self.logs_to_process@[i].0, k));
                    }
                    assert forall|k: LogSource|
                        spec_source_matches(log_entry, k) && (
                        #[trigger] old(self).logs_to_process.spec_contains_key(k) || old(
                            self,
                        ).processed_logs.spec_contains_key(k)) implies false by {
                        if old(self).logs_to_process.spec_contains_key(k) {
                            let i = choose|i: int|
                                0 <= i < old(self).logs_to_process@.len() && spec_key_eq(
                                    #[trigger] old(self).logs_to_process@[i].0,
                                    k,
                                );
                            assert(spec_key_eq(old(self).logs_to_process@[i].0, gkey));
                            assert(old(self).logs_to_process.spec_contains_key(gkey));
                        } else {
                            let i = choose|i: int|
                                0 <= i < old(self).processed_logs@.len() && spec_key_eq(
                                    #[trigger] old(self).processed_logs@[i].0,
                                    k,
                                );
                            assert(spec_key_eq(old(self).processed_logs@[i].0, gkey));
                            assert(old(self).processed_logs.spec_contains_key(gkey));
                        }
                    }
                    assert forall|k: LogSource|
                        !spec_source_matches(log_entry, k) implies #[trigger] self.logs_to_process.spec_contains_key(
                        k,
                    ) == old(self).logs_to_process.spec_contains_key(k) by {
                        assert(!spec_key_eq(k, gkey));
                    }
                }
                Ok(())
            },
        }
    }

    /// Moves an event from the pending map to the completed map, before
    /// its job body runs: the event is dequeued exactly once, and is not
    /// retried if the body later fails. Rejects an identity that is not
    /// pending, with the state unchanged.
    pub fn record_processed_log(&mut self, source: LogSource) -> (r: Result<
        (),
        InvariantViolation,
    >)
        requires
            old(self).wf(),
        ensures
            final(self).wf(),
            r is Err <==> !old(self).logs_to_process.spec_contains_key(source),
            r is Err ==> *final(self) == *old(self) && r->Err_0
                == InvariantViolation::UnknownLogSource,
            r is Ok ==> !final(self).logs_to_process.spec_contains_key(source) && final(self).processed_logs.spec_contains_key(source),
            r is Ok ==> exists|p: int, q: int|
                0 <= p < old(self).logs_to_process@.len() && spec_key_eq(
                    old(self).logs_to_process@[p].0,
                    source,
                ) && final(self).logs_to_process@ =~= old(self).logs_to_process@.subrange(0, p)
                    + old(self).logs_to_process@.subrange(
                    p + 1,
                    old(self).logs_to_process@.len() as int,
                ) && 0 <= q <= old(self).processed_logs@.len() && final(self).processed_logs@ =~= old(self).processed_logs@.subrange(0, q).push((source, old(self).logs_to_process@[p].1))
                    + old(self).processed_logs@.subrange(
                    q,
                    old(self).processed_logs@.len() as int,
                ),
            forall|k: LogSource|
                !spec_key_eq(k, source) ==> #[trigger] final(self).logs_to_process.spec_contains_key(
                    k,
                ) == old(self).logs_to_process.spec_contains_key(k) && final(self).processed_logs.spec_contains_key(k) == old(self).processed_logs.spec_contains_key(
                    k,
                ),
            *final(self) == (State {
                logs_to_process: final(self).logs_to_process,
                processed_logs: final(self).processed_logs,
                ..*old(self)
            }),
    {
        let removed = match self.logs_to_process.remove(&source) {
            Err(_) => {
                return Err(InvariantViolation::UnknownLogSource);
            },
            Ok(v) => v,
        };
        proof {
            assert(old(self).logs_to_process.spec_contains_key(source));
            assert(!self.processed_logs.spec_contains_key(source));
        }
        let res = self.processed_logs.insert_new(source, removed);
        proof {
            assert(res is Ok);
        }
        match res {
            Ok(()) => Ok(()),
            Err(e) => Err(e),
        }
    }

    /// Records a block whose single-block range still exceeded the
    /// provider size limit. Recording the same block twice is an
    /// invariant violation and leaves the state unchanged.
    pub fn record_skipped_block(&mut self, block_number: u64) -> (r: Result<
        (),
        InvariantViolation,
    >)
        requires
            old(self).wf(),
        ensures
            final(self).wf(),
            r is Err <==> old(self).skipped_blocks@.contains(block_number),
            r is Err ==> *final(self) == *old(self) && r->Err_0
                == InvariantViolation::BlockAlreadySkipped,
            r is Ok ==> final(self).skipped_blocks@ =~= old(self).skipped_blocks@.push(
                block_number,
            ),
            *final(self) == (State {
                skipped_blocks: final(self).skipped_blocks,
                ..*old(self)
            }),
    {
        if contains_u64(&self.skipped_blocks, block_number) {
            return Err(InvariantViolation::BlockAlreadySkipped);
        }
        self.skipped_blocks.push(block_number);
        Ok(())
    }

    /// Decides whether any observed event still awaits its job.
    pub fn has_logs_to_process(&self) -> (r: bool)
        ensures
            r == (self.logs_to_process@.len() != 0),
    {
        !self.logs_to_process.is_empty()
    }
}

/// No event identity is ever present in both the pending and the
/// completed map: in every well-formed state the two maps are disjoint,
/// and since every operation of `State` preserves well-formedness, a key
/// moves from pending to completed at most once and never back.
pub proof fn lemma_maps_disjoint(s: &State, k: LogSource)
    requires
        s.wf(),
    ensures
        !(s.logs_to_process.spec_contains_key(k) && s.processed_logs.spec_contains_key(k)),
{
}

} // verus!

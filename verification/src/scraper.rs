//! The adaptive log scraper.
//!
//! A scrape cycle advances the sync cursor from the last scraped block to
//! the last observed block, one span-limited range at a time. Each range
//! is queried against the redundant providers; an over-size rejection
//! bisects the range, and a single block that still fails is recorded as
//! skipped and stepped over. Disagreement among providers or a hard
//! transport error aborts the cycle with the cursor unchanged; the next
//! trigger resumes it.
//!
//! The provider calls themselves are outbound work of the host; the logic
//! here takes each reply as a value, decides the next step, and applies it
//! to the state. `run_scan_range` and `run_scrape_cycle` drive the same
//! decisions over a list of replies taken in order.
use vstd::prelude::*;
use crate::rpc_types::{ConsensusReply, LogEntry, RpcError};
use crate::state::{
    spec_key_eq, spec_source_matches, InvariantViolation, LogMap, LogSource, State,
};

verus! {

/// Widest block range one log query may span: a provider-imposed limit.
pub const MAX_BLOCK_SPREAD: u64 = 500;

/// The agreed value of one log query: the entries of the range, or the
/// error every provider reported.
#[derive(Debug, Clone)]
pub enum GetLogsResult {
    Logs(Vec<LogEntry>),
    Error(RpcError),
}

/// What to do after one provider reply for the window `[from, hi]`.
#[derive(Debug)]
pub enum ScanStep {
    /// All providers agreed on the window's entries: record them and
    /// advance the cursor to the window's end.
    Advance { to: u64, logs: Vec<LogEntry> },
    /// A single block still exceeds the size limit: record it skipped and
    /// step over it.
    Skip { block: u64 },
    /// The window exceeds the size limit: retry its lower half.
    Narrow { hi: u64 },
    /// Disagreement or a hard error: abort the cycle, cursor unchanged.
    Abort,
}

/// The identifying pair of an event entry: the views of its transaction
/// hash and event index.
pub open spec fn spec_entry_key(e: LogEntry) -> (Seq<u8>, u64) {
    (e.transaction_hash->0@, e.log_index->0)
}

/// The identifying pair of an event identity.
pub open spec fn spec_key_view(k: LogSource) -> (Seq<u8>, u64) {
    (k.transaction_hash@, k.log_index)
}

/// The map holds an entry under the identifying pair `src`.
pub open spec fn spec_map_contains_src(m: &LogMap, src: (Seq<u8>, u64)) -> bool {
    exists|i: int| 0 <= i < m@.len() && spec_key_view(#[trigger] m@[i].0) == src
}

/// Every entry of `batch` carries its source fields, no two entries of
/// `batch` share an identity, and no identity of `batch` is known to
/// either log map of `s`: the batch can be recorded whole.
pub open spec fn spec_batch_recordable(s: &State, batch: Seq<LogEntry>) -> bool {
    &&& forall|j: int|
        0 <= j < batch.len() ==> (#[trigger] batch[j]).transaction_hash is Some
            && batch[j].log_index is Some
    &&& forall|j: int|
        0 <= j < batch.len() ==> !spec_map_contains_src(
            &s.logs_to_process,
            spec_entry_key(#[trigger] batch[j]),
        ) && !spec_map_contains_src(&s.processed_logs, spec_entry_key(batch[j]))
    &&& forall|i: int, j: int|
        0 <= i < j < batch.len() ==> spec_entry_key(#[trigger] batch[i]) != spec_entry_key(
            #[trigger] batch[j],
        )
}

/// The identities of `post` are exactly those of `pre` together with
/// those of `batch`.
pub open spec fn spec_map_extended_by(pre: &LogMap, post: &LogMap, batch: Seq<LogEntry>) -> bool {
    forall|src: (Seq<u8>, u64)|
        #[trigger] spec_map_contains_src(post, src) <==> spec_map_contains_src(pre, src) || (
        exists|j: int| 0 <= j < batch.len() && spec_entry_key(#[trigger] batch[j]) == src)
}

/// Decides the next step of a range scan from one provider reply for the
/// window `[from, hi]`: agreement advances, an over-size rejection bisects
/// or — on a single block — skips, anything else aborts the cycle.
pub fn scan_range_step(from: u64, hi: u64, reply: ConsensusReply<GetLogsResult>) -> (r: ScanStep)
    requires
        from <= hi,
    ensures
        reply is Inconsistent ==> r is Abort,
        forall|v: Vec<LogEntry>|
            reply == ConsensusReply::Consistent(GetLogsResult::Logs(v)) ==> r == (ScanStep::Advance {
                to: hi,
                logs: v,
            }),
        forall|e: RpcError|
            reply == ConsensusReply::Consistent(GetLogsResult::Error(e))
                && e.spec_response_too_large() && from == hi ==> r == (ScanStep::Skip { block: hi }),
        forall|e: RpcError|
            reply == ConsensusReply::Consistent(GetLogsResult::Error(e))
                && e.spec_response_too_large() && from < hi ==> r == (ScanStep::Narrow {
                hi: (from + (hi - from) / 2) as u64,
            }),
        forall|e: RpcError|
            reply == ConsensusReply::Consistent(GetLogsResult::Error(e))
                && !e.spec_response_too_large() ==> r is Abort,
        r matches ScanStep::Narrow { hi: h } ==> from <= h < hi && h == from + (hi - from) / 2
            && (exists|e: RpcError|
            reply == ConsensusReply::Consistent(GetLogsResult::Error(e))
                && #[trigger] e.spec_response_too_large()),
        r matches ScanStep::Advance { to, logs } ==> to == hi && reply == ConsensusReply::Consistent(
            GetLogsResult::Logs(logs),
        ),
        r matches ScanStep::Skip { block } ==> block == hi && from == hi && (exists|e: RpcError|
            reply == ConsensusReply::Consistent(GetLogsResult::Error(e))
                && #[trigger] e.spec_response_too_large()),
        r is Abort ==> reply is Inconsistent || (exists|e: RpcError|
            reply == ConsensusReply::Consistent(GetLogsResult::Error(e))
                && !#[trigger] e.spec_response_too_large()),
{
    match reply {
        ConsensusReply::Consistent(GetLogsResult::Logs(logs)) => ScanStep::Advance {
            to: hi,
            logs,
        },
        ConsensusReply::Consistent(GetLogsResult::Error(e)) => {
            if e.is_response_too_large() {
                if from == hi {
                    ScanStep::Skip { block: hi }
                } else {
                    ScanStep::Narrow { hi: from + (hi - from) / 2 }
                }
            } else {
                ScanStep::Abort
            }
        },
        ConsensusReply::Inconsistent(_) => ScanStep::Abort,
    }
}

/// Decides whether the whole batch can be recorded: every entry carries
/// its source fields, no identity repeats inside the batch, and none is
/// already known to either log map.
pub fn batch_recordable(s: &State, batch: &Vec<LogEntry>) -> (r: bool)
    ensures
        r == spec_batch_recordable(s, batch@),
{
    let n = batch.len();
    let mut j: usize = 0;
    while j < n
        invariant
            n == batch@.len(),
            j <= n,
            forall|j2: int|
                0 <= j2 < j ==> (#[trigger] batch@[j2]).transaction_hash is Some
                    && batch@[j2].log_index is Some,
            forall|j2: int|
                0 <= j2 < j ==> !spec_map_contains_src(
                    &s.logs_to_process,
                    spec_entry_key(#[trigger] batch@[j2]),
                ) && !spec_map_contains_src(&s.processed_logs, spec_entry_key(batch@[j2])),
            forall|i2: int, j2: int|
                0 <= i2 < j2 < j ==> spec_entry_key(#[trigger] batch@[i2]) != spec_entry_key(
                    #[trigger] batch@[j2],
                ),
        decreases n - j,
    {
        let src = match batch[j].source() {
            Some(s) => s,
            None => {
                return false;
            },
        };
        if s.logs_to_process.contains_key(&src) {
            proof {
                lemma_contains_key_src(&s.logs_to_process, src, spec_entry_key(batch@[j as int]));
            }
            return false;
        }
        if s.processed_logs.contains_key(&src) {
            proof {
                lemma_contains_key_src(&s.processed_logs, src, spec_entry_key(batch@[j as int]));
            }
            return false;
        }
        proof {
            lemma_contains_key_src(&s.logs_to_process, src, spec_entry_key(batch@[j as int]));
            lemma_contains_key_src(&s.processed_logs, src, spec_entry_key(batch@[j as int]));
        }
        let mut i: usize = 0;
        while i < j
            invariant
                n == batch@.len(),
                i <= j < n,
                batch@[j as int].transaction_hash is Some,
                batch@[j as int].log_index is Some,
                spec_key_view(src) == spec_entry_key(batch@[j as int]),
                forall|j2: int|
                    0 <= j2 < j ==> (#[trigger] batch@[j2]).transaction_hash is Some
                        && batch@[j2].log_index is Some,
                forall|i2: int|
                    0 <= i2 < i ==> spec_entry_key(#[trigger] batch@[i2]) != spec_entry_key(
                        batch@[j as int],
                    ),
            decreases j - i,
        {
            let other = match batch[i].source() {
                Some(s) => s,
                None => {
                    proof {
                        assert(false);
                    }
                    return false;
                },
            };
            if other.cmp(&src) == 0 {
                return false;
            }
            i = i + 1;
        }
        j = j + 1;
    }
    true
}

/// Membership of a key and membership of its identifying pair coincide.
proof fn lemma_contains_key_src(m: &LogMap, k: LogSource, src: (Seq<u8>, u64))
    requires
        spec_key_view(k) == src,
    ensures
        m.spec_contains_key(k) == spec_map_contains_src(m, src),
{
    if m.spec_contains_key(k) {
        let i = choose|i: int| 0 <= i < m@.len() && spec_key_eq(#[trigger] m@[i].0, k);
        assert(spec_key_view(m@[i].0) == src);
    }
    if spec_map_contains_src(m, src) {
        let i = choose|i: int| 0 <= i < m@.len() && spec_key_view(#[trigger] m@[i].0) == src;
        assert(spec_key_eq(m@[i].0, k));
    }
}

/// Records a whole batch of newly observed events in the pending map, all
/// or nothing: if any entry lacks its source fields, repeats an identity
/// of the batch, or is already known to either map, the state is left
/// unchanged and the violation reported.
pub fn record_log_batch(s: &mut State, batch: Vec<LogEntry>) -> (r: Result<(), InvariantViolation>)
    requires
        old(s).wf(),
    ensures
        final(s).wf(),
        r is Err <==> !spec_batch_recordable(old(s), batch@),
        r is Err ==> *final(s) == *old(s) && r->Err_0 == InvariantViolation::DuplicateLogSource,
        r is Ok ==> spec_map_extended_by(
            &old(s).logs_to_process,
            &final(s).logs_to_process,
            batch@,
        ),
        r is Ok ==> final(s).logs_to_process@.len() == old(s).logs_to_process@.len()
            + batch@.len(),
        *final(s) == (State { logs_to_process: final(s).logs_to_process, ..*old(s) }),
{
    if !batch_recordable(s, &batch) {
        return Err(InvariantViolation::DuplicateLogSource);
    }
    let ghost gbatch = batch@;
    let mut rest = batch;
    let mut i: usize = 0;
    let n = rest.len();
    while i < n
        invariant
            n == gbatch.len(),
            i <= n,
            rest@ == gbatch.subrange(i as int, n as int),
            spec_batch_recordable(old(s), gbatch),
            s.wf(),
            s.logs_to_process@.len() == old(s).logs_to_process@.len() + i,
            spec_map_extended_by(
                &old(s).logs_to_process,
                &s.logs_to_process,
                gbatch.subrange(0, i as int),
            ),
            *s == (State { logs_to_process: s.logs_to_process, ..*old(s) }),
        decreases n - i,
    {
        let ghost pre_map = s.logs_to_process;
        let ghost ge = gbatch[i as int];
        let entry = rest.remove(0);
        proof {
            assert(entry == ge);
            assert(rest@ =~= gbatch.subrange(i + 1, n as int));
            // The entry's identity is new to the pending map: the original
            // map never held it, and the entries recorded so far all carry
            // other identities of the batch.
            assert(!spec_map_contains_src(&pre_map, spec_entry_key(ge))) by {
                if spec_map_contains_src(&pre_map, spec_entry_key(ge)) {
                    if exists|j: int|
                        0 <= j < i && spec_entry_key(#[trigger] gbatch.subrange(0, i as int)[j])
                            == spec_entry_key(ge) {
                        let j = choose|j: int|
                            0 <= j < i && spec_entry_key(
                                #[trigger] gbatch.subrange(0, i as int)[j],
                            ) == spec_entry_key(ge);
                        assert(spec_entry_key(gbatch[j]) == spec_entry_key(gbatch[i as int]));
                        assert(false);
                    }
                }
            }
            assert(!spec_map_contains_src(&s.processed_logs, spec_entry_key(ge)));
        }
        let res = s.record_log_to_process(entry);
        proof {
            assert(gbatch[i as int].transaction_hash is Some && gbatch[i as int].log_index
                is Some);
            if res is Err {
                // A failure would mean the entry lacked its source fields
                // or its identity was already present; both are ruled out.
                if res == Err::<(), InvariantViolation>(InvariantViolation::DuplicateLogSource) {
                    let k = choose|k: LogSource|
                        #[trigger] spec_source_matches(ge, k) && (pre_map.spec_contains_key(k)
                            || s.processed_logs.spec_contains_key(k));
                    lemma_contains_key_src(&pre_map, k, spec_entry_key(ge));
                    lemma_contains_key_src(&s.processed_logs, k, spec_entry_key(ge));
                    assert(false);
                }
                assert(false);
            }
        }
        match res {
            Err(e) => {
                return Err(e);
            },
            Ok(()) => {},
        }
        i = i + 1;
        proof {
            // The pending map now holds exactly the original identities and
            // those of the first `i` batch entries.
            assert(exists|k: LogSource|
                #[trigger] spec_source_matches(ge, k) && s.logs_to_process.spec_contains_key(k));
            assert forall|src: (Seq<u8>, u64)| #[trigger] spec_map_contains_src(
                &s.logs_to_process,
                src,
            ) <==> spec_map_contains_src(&old(s).logs_to_process, src) || (exists|j: int|
                0 <= j < i && spec_entry_key(#[trigger] gbatch.subrange(0, i as int)[j])
                    == src) by {
                lemma_extend_one(
                    &old(s).logs_to_process,
                    &pre_map,
                    &s.logs_to_process,
                    gbatch,
                    i as int,
                    src,
                );
            }
        }
    }
    proof {
        assert(gbatch.subrange(0, n as int) =~= gbatch);
    }
    Ok(())
}

/// One recording step extends the identities of the pending map by
/// exactly the identity of the batch entry it recorded.
proof fn lemma_extend_one(
    orig: &LogMap,
    pre: &LogMap,
    post: &LogMap,
    gbatch: Seq<LogEntry>,
    i: int,
    src: (Seq<u8>, u64),
)
    requires
        1 <= i <= gbatch.len(),
        gbatch[i - 1].transaction_hash is Some,
        gbatch[i - 1].log_index is Some,
        spec_map_extended_by(orig, pre, gbatch.subrange(0, i - 1)),
        exists|k: LogSource|
            spec_source_matches(gbatch[i - 1], k) && #[trigger] post.spec_contains_key(k),
        forall|k: LogSource|
            !spec_source_matches(gbatch[i - 1], k) ==> #[trigger] post.spec_contains_key(k)
                == pre.spec_contains_key(k),
    ensures
        spec_map_contains_src(post, src) <==> spec_map_contains_src(orig, src) || (exists|j: int|
            0 <= j < i && spec_entry_key(#[trigger] gbatch.subrange(0, i)[j]) == src),
{
    let entry = gbatch[i - 1];
    let prefix_old = gbatch.subrange(0, i - 1);
    let prefix_new = gbatch.subrange(0, i);
    assert(prefix_new[i - 1] == entry);
    assert(forall|j: int| 0 <= j < i - 1 ==> prefix_new[j] == #[trigger] prefix_old[j]);
    if spec_map_contains_src(post, src) {
        let w = choose|w: int| 0 <= w < post@.len() && spec_key_view(#[trigger] post@[w].0) == src;
        let k = post@[w].0;
        assert(post.spec_contains_key(k)) by {
            assert(spec_key_eq(post@[w].0, k));
        }
        if src == spec_entry_key(entry) {
            assert(spec_entry_key(prefix_new[i - 1]) == src);
        } else {
            assert(!spec_source_matches(entry, k));
            assert(pre.spec_contains_key(k));
            lemma_contains_key_src(pre, k, src);
            if !spec_map_contains_src(orig, src) {
                let j = choose|j: int|
                    0 <= j < i - 1 && spec_entry_key(#[trigger] prefix_old[j]) == src;
                assert(spec_entry_key(prefix_new[j]) == src);
            }
        }
    }
    if spec_map_contains_src(orig, src) || (exists|j: int|
        0 <= j < i && spec_entry_key(#[trigger] prefix_new[j]) == src) {
        if src == spec_entry_key(entry) {
            let k = choose|k: LogSource|
                spec_source_matches(entry, k) && #[trigger] post.spec_contains_key(k);
            lemma_contains_key_src(post, k, src);
        } else {
            if spec_map_contains_src(orig, src) {
                assert(spec_map_contains_src(pre, src));
            } else {
                let j = choose|j: int|
                    0 <= j < i && spec_entry_key(#[trigger] prefix_new[j]) == src;
                assert(j != i - 1);
                assert(spec_entry_key(prefix_old[j]) == src);
                assert(spec_map_contains_src(pre, src));
            }
            let w = choose|w: int|
                0 <= w < pre@.len() && spec_key_view(#[trigger] pre@[w].0) == src;
            let k = pre@[w].0;
            assert(pre.spec_contains_key(k)) by {
                assert(spec_key_eq(pre@[w].0, k));
            }
            assert(!spec_source_matches(entry, k));
            assert(post.spec_contains_key(k));
            lemma_contains_key_src(post, k, src);
        }
    }
}


/// What a run of provider replies resolves a range scan to: the agreed
/// entries of the window the bisection ends at, the one block that still
/// failed alone, or giving the cycle up (disagreement, a hard error, or
/// running out of replies).
#[derive(Debug)]
pub enum ScanResolution {
    Entries { to: u64, logs: Vec<LogEntry> },
    Skipped { block: u64 },
    GiveUp,
}

/// Folds the replies, taken in order, over the bisection of the window
/// `[from, hi]`: agreement yields the window's entries, an over-size
/// rejection halves the window — or, on a single block, yields a skip —
/// and anything else gives the cycle up.
pub open spec fn spec_scan_resolution(
    from: u64,
    hi: u64,
    replies: Seq<ConsensusReply<GetLogsResult>>,
) -> ScanResolution
    recommends
        from <= hi,
    decreases hi - from, replies.len(),
{
    if replies.len() == 0 {
        ScanResolution::GiveUp
    } else {
        match replies[0] {
            ConsensusReply::Consistent(GetLogsResult::Logs(v)) => ScanResolution::Entries {
                to: hi,
                logs: v,
            },
            ConsensusReply::Consistent(GetLogsResult::Error(e)) => if e.spec_response_too_large() {
                if from >= hi {
                    ScanResolution::Skipped { block: hi }
                } else {
                    spec_scan_resolution(
                        from,
                        (from + (hi - from) / 2) as u64,
                        replies.drop_first(),
                    )
                }
            } else {
                ScanResolution::GiveUp
            },
            ConsensusReply::Inconsistent(per) => ScanResolution::GiveUp,
        }
    }
}

/// Result of scanning one range: the cursor advanced to a block, the
/// cycle was aborted with the state unchanged, or an internal invariant
/// would have been violated and nothing was committed.
#[derive(Debug, Clone, Copy, PartialEq, Eq, Structural)]
pub enum ScanOutcome {
    Advanced(u64),
    Aborted,
    Violation(InvariantViolation),
}

/// Scans the range `[from, to]`, taking the provider replies in order
/// from the front of `replies`: over-size rejections bisect the window
/// until it either succeeds — its entries are recorded and the cursor
/// advances to its end — or shrinks to the one failing block, which is
/// recorded skipped and stepped over. Disagreement, a hard error or
/// running out of replies aborts with the state unchanged; an invariant
/// violation commits nothing.
pub fn run_scan_range(
    s: &mut State,
    from: u64,
    to: u64,
    replies: &mut Vec<ConsensusReply<GetLogsResult>>,
) -> (r: ScanOutcome)
    requires
        from <= to,
        old(s).wf(),
        old(s).last_scraped_block_number < from,
    ensures
        final(s).wf(),
        final(s).last_scraped_block_number >= old(s).last_scraped_block_number,
        r is Aborted ==> *final(s) == *old(s),
        r is Violation ==> *final(s) == *old(s),
        r matches ScanOutcome::Advanced(h) ==> from <= h <= to && final(s).last_scraped_block_number == h,
        spec_scan_resolution(from, to, old(replies)@) is GiveUp ==> r == ScanOutcome::Aborted,
        spec_scan_resolution(from, to, old(replies)@) matches ScanResolution::Entries {
            to: h,
            logs,
        } ==> (spec_batch_recordable(old(s), logs@) ==> r == ScanOutcome::Advanced(h) && final(s).last_scraped_block_number == h && final(s).skipped_blocks@ == old(s).skipped_blocks@
            && spec_map_extended_by(&old(s).logs_to_process, &final(s).logs_to_process, logs@)),
        spec_scan_resolution(from, to, old(replies)@) matches ScanResolution::Entries {
            to: h,
            logs,
        } ==> (!spec_batch_recordable(old(s), logs@) ==> r == ScanOutcome::Violation(
            InvariantViolation::DuplicateLogSource,
        )),
        spec_scan_resolution(from, to, old(replies)@) matches ScanResolution::Skipped { block: b }
            ==> (!old(s).skipped_blocks@.contains(b) ==> r == ScanOutcome::Advanced(b) && final(s).last_scraped_block_number == b && final(s).skipped_blocks@ == old(s).skipped_blocks@.push(b)
            && final(s).logs_to_process == old(s).logs_to_process),
        spec_scan_resolution(from, to, old(replies)@) matches ScanResolution::Skipped { block: b }
            ==> (old(s).skipped_blocks@.contains(b) ==> r == ScanOutcome::Violation(
            InvariantViolation::BlockAlreadySkipped,
        )),
        forall|src: (Seq<u8>, u64)|
            #[trigger] spec_map_contains_src(&old(s).logs_to_process, src)
                ==> spec_map_contains_src(&final(s).logs_to_process, src),
        old(s).skipped_blocks@.is_prefix_of(final(s).skipped_blocks@),
        *final(s) == (State {
            last_scraped_block_number: final(s).last_scraped_block_number,
            logs_to_process: final(s).logs_to_process,
            skipped_blocks: final(s).skipped_blocks,
            ..*old(s)
        }),
{
    let ghost orig = replies@;
    let mut hi = to;
    loop
        invariant
            from <= hi <= to,
            old(s).wf(),
            old(s).last_scraped_block_number < from,
            *s == *old(s),
            spec_scan_resolution(from, hi, replies@) == spec_scan_resolution(from, to, orig),
            orig == old(replies)@,
        ensures
            from <= hi <= to,
            *s == *old(s),
            replies@.len() == 0,
            spec_scan_resolution(from, hi, replies@) == spec_scan_resolution(from, to, orig),
        decreases hi - from,
    {
        if replies.len() == 0 {
            break;
        }
        let ghost before = replies@;
        let reply = replies.remove(0);
        proof {
            assert(reply == before[0]);
            assert(replies@ =~= before.drop_first());
        }
        let step = scan_range_step(from, hi, reply);
        match step {
            ScanStep::Advance { to: h, logs } => {
                let ghost gv = logs;
                proof {
                    assert(spec_scan_resolution(from, hi, before) == (ScanResolution::Entries {
                        to: hi,
                        logs: gv,
                    }));
                }
                match record_log_batch(s, logs) {
                    Err(e) => {
                        return ScanOutcome::Violation(e);
                    },
                    Ok(()) => {
                        s.last_scraped_block_number = h;
                        proof {
                            lemma_prefix_refl(s.skipped_blocks@);
                        }
                        return ScanOutcome::Advanced(h);
                    },
                }
            },
            ScanStep::Skip { block } => {
                proof {
                    assert(spec_scan_resolution(from, hi, before) == (ScanResolution::Skipped {
                        block: hi,
                    }));
                }
                match s.record_skipped_block(block) {
                    Err(e) => {
                        return ScanOutcome::Violation(e);
                    },
                    Ok(()) => {
                        s.last_scraped_block_number = block;
                        proof {
                            assert(old(s).skipped_blocks@.is_prefix_of(s.skipped_blocks@)) by {
                                assert(old(s).skipped_blocks@ =~= s.skipped_blocks@.subrange(
                                    0,
                                    old(s).skipped_blocks@.len() as int,
                                ));
                            }
                        }
                        return ScanOutcome::Advanced(block);
                    },
                }
            },
            ScanStep::Narrow { hi: h } => {
                proof {
                    assert(spec_scan_resolution(from, hi, before) == spec_scan_resolution(
                        from,
                        h,
                        before.drop_first(),
                    ));
                }
                hi = h;
            },
            ScanStep::Abort => {
                proof {
                    assert(spec_scan_resolution(from, hi, before) is GiveUp);
                }
                return ScanOutcome::Aborted;
            },
        }
    }
    proof {
        lemma_prefix_refl(s.skipped_blocks@);
    }
    ScanOutcome::Aborted
}

/// A sequence is a prefix of itself.
proof fn lemma_prefix_refl(s: Seq<u64>)
    ensures
        s.is_prefix_of(s),
{
    assert(s =~= s.subrange(0, s.len() as int));
}

/// Where the range starting right after the cursor ends: the observed
/// block, clamped to the provider span.
pub open spec fn spec_span_end(last_scraped: u64, observed: u64) -> u64 {
    if observed - last_scraped > MAX_BLOCK_SPREAD {
        (last_scraped + MAX_BLOCK_SPREAD) as u64
    } else {
        observed
    }
}

/// The next range a scrape cycle queries, given the cursor and the last
/// observed block: nothing when the cursor has caught up, else the range
/// starting right after the cursor and clamped to the provider span.
pub fn next_scrape_range(last_scraped: u64, observed: u64) -> (r: Option<(u64, u64)>)
    ensures
        r is Some <==> last_scraped < observed,
        r matches Some(p) ==> p.0 == last_scraped + 1 && p.0 <= p.1 <= observed,
        r matches Some(p) ==> p.1 == spec_span_end(last_scraped, observed),
{
    if last_scraped >= observed {
        return None;
    }
    let to = if observed - last_scraped > MAX_BLOCK_SPREAD {
        last_scraped + MAX_BLOCK_SPREAD
    } else {
        observed
    };
    Some((last_scraped + 1, to))
}

/// Result of one whole scrape cycle.
#[derive(Debug, Clone, Copy, PartialEq, Eq, Structural)]
pub enum CycleOutcome {
    /// The cursor reached the last observed block.
    Completed,
    /// A range scan aborted; the next trigger resumes from the cursor.
    Aborted,
    /// An internal invariant would have been violated; nothing of the
    /// failing range was committed.
    Violation(InvariantViolation),
}

/// What the cycle's first range scan resolves to on the given replies.
pub open spec fn spec_first_scan(s: &State, observed: u64, replies: Seq<
    ConsensusReply<GetLogsResult>,
>) -> ScanResolution {
    spec_scan_resolution(
        (s.last_scraped_block_number + 1) as u64,
        spec_span_end(s.last_scraped_block_number, observed),
        replies,
    )
}

/// Runs one scrape cycle towards `observed`, taking provider replies in
/// order: ranges of at most `MAX_BLOCK_SPREAD` blocks are scanned one
/// after the other until the cursor reaches `observed` or a scan gives
/// the cycle up. The cursor never decreases, pending identities and
/// skipped blocks only grow, and the completed map is never touched; what
/// the first range's replies resolve to is carried into the outcome.
pub fn run_scrape_cycle(
    s: &mut State,
    observed: u64,
    replies: &mut Vec<ConsensusReply<GetLogsResult>>,
) -> (r: CycleOutcome)
    requires
        old(s).wf(),
    ensures
        final(s).wf(),
        final(s).last_scraped_block_number >= old(s).last_scraped_block_number,
        r is Completed <==> final(s).last_scraped_block_number >= observed,
        r is Completed && old(s).last_scraped_block_number <= observed ==> final(s).last_scraped_block_number == observed,
        final(s).processed_logs == old(s).processed_logs,
        forall|src: (Seq<u8>, u64)|
            #[trigger] spec_map_contains_src(&old(s).logs_to_process, src)
                ==> spec_map_contains_src(&final(s).logs_to_process, src),
        old(s).skipped_blocks@.is_prefix_of(final(s).skipped_blocks@),
        old(s).last_scraped_block_number < observed && spec_first_scan(old(s), observed, old(replies)@)
            is GiveUp ==> r == CycleOutcome::Aborted && *final(s) == *old(s),
        old(s).last_scraped_block_number < observed ==> (spec_first_scan(
            old(s),
            observed,
            old(replies)@,
        ) matches ScanResolution::Entries { to: h, logs } ==> (spec_batch_recordable(
            old(s),
            logs@,
        ) ==> final(s).last_scraped_block_number >= h && (forall|j: int|
            0 <= j < logs@.len() ==> spec_map_contains_src(
                &final(s).logs_to_process,
                spec_entry_key(#[trigger] logs@[j]),
            )))),
        old(s).last_scraped_block_number < observed ==> (spec_first_scan(
            old(s),
            observed,
            old(replies)@,
        ) matches ScanResolution::Entries { to: h, logs } ==> (!spec_batch_recordable(
            old(s),
            logs@,
        ) ==> r == CycleOutcome::Violation(InvariantViolation::DuplicateLogSource) && *final(s)
            == *old(s))),
        old(s).last_scraped_block_number < observed ==> (spec_first_scan(
            old(s),
            observed,
            old(replies)@,
        ) matches ScanResolution::Skipped { block: b } ==> (!old(s).skipped_blocks@.contains(b)
            ==> final(s).last_scraped_block_number >= b && final(s).skipped_blocks@.contains(b))),
        old(s).last_scraped_block_number < observed ==> (spec_first_scan(
            old(s),
            observed,
            old(replies)@,
        ) matches ScanResolution::Skipped { block: b } ==> (old(s).skipped_blocks@.contains(b)
            ==> r == CycleOutcome::Violation(InvariantViolation::BlockAlreadySkipped) && *final(s)
            == *old(s))),
        *final(s) == (State {
            last_scraped_block_number: final(s).last_scraped_block_number,
            logs_to_process: final(s).logs_to_process,
            skipped_blocks: final(s).skipped_blocks,
            ..*old(s)
        }),
{
    let ghost orig0 = replies@;
    let ghost res0 = spec_first_scan(old(s), observed, orig0);
    let cursor0 = s.last_scraped_block_number;
    match next_scrape_range(cursor0, observed) {
        None => {
            proof {
                lemma_prefix_refl(s.skipped_blocks@);
            }
            return CycleOutcome::Completed;
        },
        Some((from, to)) => {
            proof {
                assert(res0 == spec_scan_resolution(from, to, replies@));
            }
            match run_scan_range(s, from, to, replies) {
                ScanOutcome::Advanced(_) => {},
                ScanOutcome::Aborted => {
                    proof {
                        lemma_prefix_refl(s.skipped_blocks@);
                    }
                    return CycleOutcome::Aborted;
                },
                ScanOutcome::Violation(e) => {
                    proof {
                        lemma_prefix_refl(s.skipped_blocks@);
                    }
                    return CycleOutcome::Violation(e);
                },
            }
        },
    }
    proof {
        // What the first scan's replies resolved to has now been applied:
        // give-up and the two violations returned above, so the entries
        // stand recorded, or the one failing block stands skipped.
        match res0 {
            ScanResolution::GiveUp => {
                assert(false);
            },
            ScanResolution::Entries { to: h, logs } => {
                assert(spec_batch_recordable(old(s), logs@));
                assert forall|j: int| 0 <= j < logs@.len() implies spec_map_contains_src(
                    &s.logs_to_process,
                    spec_entry_key(#[trigger] logs@[j]),
                ) by {
                    assert(spec_map_extended_by(
                        &old(s).logs_to_process,
                        &s.logs_to_process,
                        logs@,
                    ));
                }
            },
            ScanResolution::Skipped { block } => {
                assert(!old(s).skipped_blocks@.contains(block));
                assert(s.skipped_blocks@.contains(block)) by {
                    assert(s.skipped_blocks@[s.skipped_blocks@.len() - 1] == block);
                }
            },
        }
    }
    let ghost mid = *s;
    loop
        invariant
            s.wf(),
            orig0 == old(replies)@,
            res0 == spec_first_scan(old(s), observed, orig0),
            old(s).last_scraped_block_number < observed,
            !(res0 is GiveUp),
            res0 matches ScanResolution::Entries { to: h, logs } ==> spec_batch_recordable(
                old(s),
                logs@,
            ) && mid.last_scraped_block_number >= h && (forall|j: int|
                0 <= j < logs@.len() ==> spec_map_contains_src(
                    &mid.logs_to_process,
                    spec_entry_key(#[trigger] logs@[j]),
                )),
            res0 matches ScanResolution::Skipped { block: b } ==> !old(s).skipped_blocks@.contains(
                b,
            ) && mid.last_scraped_block_number >= b && mid.skipped_blocks@.contains(b),
            mid.last_scraped_block_number >= old(s).last_scraped_block_number,
            forall|src: (Seq<u8>, u64)|
                #[trigger] spec_map_contains_src(&old(s).logs_to_process, src)
                    ==> spec_map_contains_src(&mid.logs_to_process, src),
            old(s).skipped_blocks@.is_prefix_of(mid.skipped_blocks@),
            s.last_scraped_block_number >= mid.last_scraped_block_number,
            old(s).last_scraped_block_number <= observed ==> s.last_scraped_block_number
                <= observed,
            s.processed_logs == old(s).processed_logs,
            forall|src: (Seq<u8>, u64)|
                #[trigger] spec_map_contains_src(&mid.logs_to_process, src)
                    ==> spec_map_contains_src(&s.logs_to_process, src),
            mid.skipped_blocks@.is_prefix_of(s.skipped_blocks@),
            *s == (State {
                last_scraped_block_number: s.last_scraped_block_number,
                logs_to_process: s.logs_to_process,
                skipped_blocks: s.skipped_blocks,
                ..*old(s)
            }),
        decreases
                observed - s.last_scraped_block_number,
    {
        let cursor = s.last_scraped_block_number;
        let (from, to) = match next_scrape_range(cursor, observed) {
            None => {
                proof {
                    lemma_cycle_exit(old(s), mid, s, res0);
                }
                return CycleOutcome::Completed;
            },
            Some(p) => p,
        };
        let ghost pre = *s;
        match run_scan_range(s, from, to, replies) {
            ScanOutcome::Advanced(_) => {
                proof {
                    lemma_prefix_trans(
                        mid.skipped_blocks@,
                        pre.skipped_blocks@,
                        s.skipped_blocks@,
                    );
                }
            },
            ScanOutcome::Aborted => {
                proof {
                    lemma_cycle_exit(old(s), mid, s, res0);
                }
                return CycleOutcome::Aborted;
            },
            ScanOutcome::Violation(e) => {
                proof {
                    lemma_cycle_exit(old(s), mid, s, res0);
                }
                return CycleOutcome::Violation(e);
            },
        }
    }
}

/// Lifts the facts the first scan established over the rest of a cycle:
/// the cursor, the pending identities and the skip records only grow, so
/// what the first scan recorded still stands when the cycle ends.
proof fn lemma_cycle_exit(orig: &State, mid: State, cur: &State, res0: ScanResolution)
    requires
        res0 matches ScanResolution::Entries { to: h, logs } ==> mid.last_scraped_block_number
            >= h && (forall|j: int|
            0 <= j < logs@.len() ==> spec_map_contains_src(
                &mid.logs_to_process,
                spec_entry_key(#[trigger] logs@[j]),
            )),
        res0 matches ScanResolution::Skipped { block: b } ==> mid.last_scraped_block_number >= b
            && mid.skipped_blocks@.contains(b),
        orig.skipped_blocks@.is_prefix_of(mid.skipped_blocks@),
        forall|src: (Seq<u8>, u64)|
            #[trigger] spec_map_contains_src(&mid.logs_to_process, src) ==> spec_map_contains_src(
                &cur.logs_to_process,
                src,
            ),
        mid.skipped_blocks@.is_prefix_of(cur.skipped_blocks@),
        cur.last_scraped_block_number >= mid.last_scraped_block_number,
    ensures
        orig.skipped_blocks@.is_prefix_of(cur.skipped_blocks@),
        res0 matches ScanResolution::Entries { to: h, logs } ==> cur.last_scraped_block_number
            >= h && (forall|j: int|
            0 <= j < logs@.len() ==> spec_map_contains_src(
                &cur.logs_to_process,
                spec_entry_key(#[trigger] logs@[j]),
            )),
        res0 matches ScanResolution::Skipped { block: b } ==> cur.last_scraped_block_number >= b
            && cur.skipped_blocks@.contains(b),
{
    lemma_prefix_trans(orig.skipped_blocks@, mid.skipped_blocks@, cur.skipped_blocks@);
    match res0 {
        ScanResolution::Entries { to: h, logs } => {
            assert forall|j: int| 0 <= j < logs@.len() implies spec_map_contains_src(
                &cur.logs_to_process,
                spec_entry_key(#[trigger] logs@[j]),
            ) by {
                assert(spec_map_contains_src(&mid.logs_to_process, spec_entry_key(logs@[j])));
            }
        },
        ScanResolution::Skipped { block } => {
            lemma_prefix_contains(mid.skipped_blocks@, cur.skipped_blocks@, block);
        },
        ScanResolution::GiveUp => {},
    }
}

/// The prefix order on skip records is transitive.
proof fn lemma_prefix_trans(a: Seq<u64>, b: Seq<u64>, c: Seq<u64>)
    requires
        a.is_prefix_of(b),
        b.is_prefix_of(c),
    ensures
        a.is_prefix_of(c),
{
    assert(a =~= c.subrange(0, a.len() as int));
}

/// A block recorded in a prefix stays recorded.
proof fn lemma_prefix_contains(a: Seq<u64>, b: Seq<u64>, x: u64)
    requires
        a.is_prefix_of(b),
        a.contains(x),
    ensures
        b.contains(x),
{
    let i = choose|i: int| 0 <= i < a.len() && a[i] == x;
    assert(b[i] == x);
}

/// The agreed value of one block-by-tag query: the observed block number,
/// or the error every provider reported.
#[derive(Debug, Clone)]
pub enum BlockNumberResult {
    Number(u64),
    Error(RpcError),
}

/// Applies a consensus-checked block observation: agreement on a block
/// refreshes the last observed block and hands its number back; an agreed
/// error leaves the state unchanged and hands back the previous
/// observation; disagreement yields nothing, so the caller aborts its
/// cycle, and the state is unchanged.
pub fn apply_block_observation(s: &mut State, reply: ConsensusReply<BlockNumberResult>) -> (r:
    Option<u64>)
    ensures
        forall|n: u64|
            reply == ConsensusReply::Consistent(BlockNumberResult::Number(n)) ==> r == Some(n)
                && *final(s) == (State { last_observed_block_number: Some(n), ..*old(s) }),
        forall|e: RpcError|
            reply == ConsensusReply::Consistent(BlockNumberResult::Error(e)) ==> r == old(s).last_observed_block_number && *final(s) == *old(s),
        reply is Inconsistent ==> r is None && *final(s) == *old(s),
{
    match reply {
        ConsensusReply::Consistent(BlockNumberResult::Number(n)) => {
            s.last_observed_block_number = Some(n);
            Some(n)
        },
        ConsensusReply::Consistent(BlockNumberResult::Error(_)) => s.last_observed_block_number,
        ConsensusReply::Inconsistent(_) => None,
    }
}

} // verus!

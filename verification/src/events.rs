//! Decoding observed events into jobs, and the scheduling decision.
//!
//! The scheduler drains the pending map in key order: each event is moved
//! to the completed map before its job body runs — dequeued exactly once,
//! never retried — then decoded, and either run at once or deferred until
//! its execution time. The deferred wait and the job body itself are
//! outbound work of the host; the decision is taken here.
use vstd::prelude::*;
use crate::hexutil::spec_be_val;
use crate::rpc_types::LogEntry;
use crate::state::{
    spec_key_eq, InvariantViolation, LogSource, State,
};

verus! {

/// The entry could not be decoded into the event it was expected to be.
#[derive(Debug, Clone, Copy, PartialEq, Eq, Structural)]
pub enum EventDecodeError {
    MissingTopics,
    ValueOutOfRange,
}

/// A newly created job: its identifier word and its execution time in
/// seconds since the epoch.
#[derive(Debug, Clone)]
pub struct NewJobEvent {
    pub job_execution_time: u64,
    pub job_id: Vec<u8>,
}

/// A minted token: the two transfer parties and the token's identifier
/// word.
#[derive(Debug, Clone)]
pub struct MintEvent {
    pub from_address: Vec<u8>,
    pub to_address: Vec<u8>,
    pub token_id: Vec<u8>,
}

/// The entry has the shape of a job-creation event: an event signature
/// topic followed by the job identifier word, and an execution time that
/// fits the clock's range.
pub open spec fn spec_is_new_job_entry(e: LogEntry) -> bool {
    &&& e.topics@.len() >= 2
    &&& e.topics@[1]@.len() == 32
    &&& spec_be_val(e.data@) <= u64::MAX
}

/// Decodes a job-creation event: the job identifier is the entry's second
/// topic word, the execution time is the big-endian value of the entry's
/// data. Fails exactly on an entry without that topic word or with an
/// execution time beyond the clock's range.
pub fn decode_new_job_event(entry: &LogEntry) -> (r: Result<NewJobEvent, EventDecodeError>)
    ensures
        r is Ok <==> spec_is_new_job_entry(*entry),
        r matches Ok(e) ==> e.job_id@ == entry.topics@[1]@ && e.job_execution_time == spec_be_val(
            entry.data@,
        ),
        r matches Err(e) ==> (e == EventDecodeError::MissingTopics <==> !(entry.topics@.len() >= 2
            && entry.topics@[1]@.len() == 32)),
{
    if entry.topics.len() < 2 {
        return Err(EventDecodeError::MissingTopics);
    }
    let topic = &entry.topics[1];
    if topic.len() != 32 {
        return Err(EventDecodeError::MissingTopics);
    }
    let job_execution_time = match crate::hexutil::be_val_u64(entry.data.as_slice()) {
        Some(t) => t,
        None => {
            return Err(EventDecodeError::ValueOutOfRange);
        },
    };
    let mut job_id: Vec<u8> = Vec::new();
    job_id.extend_from_slice(topic.as_slice());
    proof {
        assert(job_id@ =~= entry.topics@[1]@);
    }
    Ok(NewJobEvent { job_execution_time, job_id })
}

/// The entry has the shape of a token-transfer event: an event signature
/// topic followed by three 32-byte topic words.
pub open spec fn spec_is_mint_entry(e: LogEntry) -> bool {
    &&& e.topics@.len() >= 4
    &&& e.topics@[1]@.len() == 32
    &&& e.topics@[2]@.len() == 32
    &&& e.topics@[3]@.len() == 32
}

/// Decodes a token-transfer event: the two party addresses are the last
/// 20 bytes of the second and third topic words, the token identifier is
/// the fourth word. Fails exactly on an entry without those topic words.
pub fn decode_mint_event(entry: &LogEntry) -> (r: Result<MintEvent, EventDecodeError>)
    ensures
        r is Ok <==> spec_is_mint_entry(*entry),
        r matches Err(e) ==> e == EventDecodeError::MissingTopics,
        r matches Ok(e) ==> e.from_address@ == entry.topics@[1]@.subrange(12, 32)
            && e.to_address@ == entry.topics@[2]@.subrange(12, 32) && e.token_id@
            == entry.topics@[3]@,
{
    if entry.topics.len() < 4 {
        return Err(EventDecodeError::MissingTopics);
    }
    if entry.topics[1].len() != 32 || entry.topics[2].len() != 32 || entry.topics[3].len() != 32 {
        return Err(EventDecodeError::MissingTopics);
    }
    let from_slice = vstd::slice::slice_subrange(entry.topics[1].as_slice(), 12, 32);
    let to_slice = vstd::slice::slice_subrange(entry.topics[2].as_slice(), 12, 32);
    let mut from_address: Vec<u8> = Vec::new();
    from_address.extend_from_slice(from_slice);
    let mut to_address: Vec<u8> = Vec::new();
    to_address.extend_from_slice(to_slice);
    let mut token_id: Vec<u8> = Vec::new();
    token_id.extend_from_slice(entry.topics[3].as_slice());
    proof {
        assert(from_address@ =~= entry.topics@[1]@.subrange(12, 32));
        assert(to_address@ =~= entry.topics@[2]@.subrange(12, 32));
        assert(token_id@ =~= entry.topics@[3]@);
    }
    Ok(MintEvent { from_address, to_address, token_id })
}

/// What the scheduler does with a decoded job.
#[derive(Debug, Clone, Copy, PartialEq, Eq, Structural)]
pub enum JobDecision {
    /// The execution time has passed: run the job body now, in the same
    /// unit of work.
    RunNow,
    /// The execution time lies ahead: register a one-shot callback after
    /// the given delay (not cancellable, lost on a restart).
    Defer { delay: u64 },
}

/// Decides whether a job runs now or is deferred: a job whose execution
/// time has been reached runs at once; otherwise it waits exactly until
/// its execution time.
pub fn job_schedule_decision(execution_time: u64, now: u64) -> (r: JobDecision)
    ensures
        execution_time <= now ==> r == JobDecision::RunNow,
        execution_time > now ==> r == (JobDecision::Defer { delay: (execution_time - now) as u64 }),
{
    if execution_time <= now {
        JobDecision::RunNow
    } else {
        JobDecision::Defer { delay: execution_time - now }
    }
}

/// Everything that can stop one pending event from turning into a job.
#[derive(Debug, Clone, Copy, PartialEq, Eq, Structural)]
pub enum ProcessError {
    Invariant(InvariantViolation),
    Decode(EventDecodeError),
}

/// Processes one pending event: decodes it as a job-creation event, moves
/// it from the pending to the completed map — so it is dequeued exactly
/// once and never retried — and decides whether its job runs now or after
/// a delay. On any failure the state is unchanged.
pub fn process_new_job(s: &mut State, source: LogSource, entry: &LogEntry, now: u64) -> (r: Result<
    (NewJobEvent, JobDecision),
    ProcessError,
>)
    requires
        old(s).wf(),
    ensures
        final(s).wf(),
        r is Err ==> *final(s) == *old(s),
        r is Ok <==> spec_is_new_job_entry(*entry) && old(s).logs_to_process.spec_contains_key(
            source,
        ),
        r matches Ok((ev, dec)) ==> ev.job_id@ == entry.topics@[1]@ && ev.job_execution_time
            == spec_be_val(entry.data@) && (ev.job_execution_time <= now ==> dec
            == JobDecision::RunNow) && (ev.job_execution_time > now ==> dec == (JobDecision::Defer {
            delay: (ev.job_execution_time - now) as u64,
        })),
        r is Ok ==> !final(s).logs_to_process.spec_contains_key(source) && final(s).processed_logs.spec_contains_key(source),
        forall|k: LogSource|
            !spec_key_eq(k, source) ==> #[trigger] final(s).logs_to_process.spec_contains_key(k)
                == old(s).logs_to_process.spec_contains_key(k) && final(s).processed_logs.spec_contains_key(k) == old(s).processed_logs.spec_contains_key(k),
        *final(s) == (State {
            logs_to_process: final(s).logs_to_process,
            processed_logs: final(s).processed_logs,
            ..*old(s)
        }),
{
    let event = match decode_new_job_event(entry) {
        Ok(ev) => ev,
        Err(e) => {
            return Err(ProcessError::Decode(e));
        },
    };
    match s.record_processed_log(source) {
        Ok(()) => {},
        Err(e) => {
            return Err(ProcessError::Invariant(e));
        },
    }
    let decision = job_schedule_decision(event.job_execution_time, now);
    Ok((event, decision))
}

} // verus!

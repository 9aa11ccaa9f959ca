use vstd::prelude::*;

verus! {

/// How much of a replay the instrumented executor writes to the trace.
#[derive(Clone, Copy, Debug, PartialEq, Eq, Structural)]
pub enum TraceLevel {
    Full,
    Minimal,
    Silent,
}

/// The block context that a replay runs the message in.
#[derive(Debug)]
pub struct ExecutionParams {
    pub block_unixtime: u32,
    pub block_lt: u64,
    pub last_tr_lt: u64,
    pub seed_block: Vec<u8>,
    pub debug: bool,
    pub trace: TraceLevel,
}

/// The parameters of a replay are a function of the captured time alone: the
/// block time in seconds, the logical times equal to the captured milliseconds,
/// a seed of 32 zero bytes, and debugging on.
pub open spec fn replay_params_at(p: &ExecutionParams, captured_ms: u64, trace: TraceLevel) -> bool {
    &&& p.block_unixtime == (captured_ms / 1000) % 0x1_0000_0000
    &&& p.block_lt == captured_ms
    &&& p.last_tr_lt == captured_ms
    &&& p.seed_block@ == Seq::new(32, |i: int| 0u8)
    &&& p.debug
    &&& p.trace == trace
}

/// Builds the parameters of a replay from the time captured before the call.
pub fn replay_params(captured_ms: u64, trace: TraceLevel) -> (r: ExecutionParams)
    ensures
        replay_params_at(&r, captured_ms, trace),
{
    let mut seed: Vec<u8> = Vec::new();
    let mut i: usize = 0;
    while i < 32
        invariant
            i <= 32,
            seed@ == Seq::new(i as nat, |j: int| 0u8),
        decreases 32 - i,
    {
        seed.push(0u8);
        assert(seed@ =~= Seq::new((i + 1) as nat, |j: int| 0u8));
        i = i + 1;
    }
    ExecutionParams {
        block_unixtime: ((captured_ms / 1000) % 0x1_0000_0000) as u32,
        block_lt: captured_ms,
        last_tr_lt: captured_ms,
        seed_block: seed,
        debug: true,
        trace,
    }
}

/// Replays are deterministic: the parameters that two replays of the same
/// captured time are given agree field by field.
pub proof fn lemma_replay_params_deterministic(
    p: &ExecutionParams,
    q: &ExecutionParams,
    captured_ms: u64,
    trace: TraceLevel,
)
    requires
        replay_params_at(p, captured_ms, trace),
        replay_params_at(q, captured_ms, trace),
    ensures
        p.block_unixtime == q.block_unixtime,
        p.block_lt == q.block_lt,
        p.last_tr_lt == q.last_tr_lt,
        p.seed_block@ == q.seed_block@,
        p.debug == q.debug,
        p.trace == q.trace,
        p.last_tr_lt <= p.block_lt,
{
}

/// The line that reports how a replay went; it never replaces the original failure.
pub fn replay_summary(outcome: &Result<(), String>) -> (r: String)
    ensures
        outcome is Ok ==> r@ == "Debug finished."@,
        outcome matches Err(e) ==> r@ == "Debug failed: "@ + e@,
{
    match outcome {
        Ok(_) => String::from_str("Debug finished."),
        Err(e) => {
            let mut r = String::from_str("Debug failed: ");
            r.append(e.as_str());
            r
        },
    }
}

} // verus!

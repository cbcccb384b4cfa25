use vstd::prelude::*;
use rand::Rng;

use crate::instruction::Instruction;

verus! {

broadcast use vstd::seq_lib::group_seq_properties;

/// The shortest pause between two typed characters, in milliseconds.
pub const TYPING_DELAY_MIN_MS: u64 = 35;

/// One past the longest pause between two typed characters.
pub const TYPING_DELAY_END_MS: u64 = 85;

/// One thing the background player does, in order.
#[derive(Debug, Clone, PartialEq, Eq)]
pub enum EngineOp {
    /// Sleeps this many milliseconds.
    Sleep(u64),
    /// Sends the instruction to the foreground surface without waiting.
    Emit(Instruction),
    /// Takes an acknowledgment that is already pending, if any, and drops it.
    DrainAck,
    /// Blocks until one acknowledgment arrives.
    AwaitAck,
    /// Raises the shared quit flag; the player ends here.
    RaiseQuit,
}

/// An instruction that the foreground applies as part of the typing
/// animation, as opposed to a pause or a wait.
pub open spec fn is_typing(i: Instruction) -> bool {
    !(i is Pause) && !(i is Wait) && !(i is WaitForQuit)
}

/// What the player does for one instruction other than `WaitForQuit`,
/// given the typing delay drawn for it.
pub open spec fn ops_for(i: Instruction, delay: u64) -> Seq<EngineOp> {
    match i {
        Instruction::Pause(ms) => seq![EngineOp::Sleep(ms)],
        Instruction::Wait => seq![EngineOp::Emit(Instruction::Wait), EngineOp::AwaitAck],
        _ => seq![EngineOp::DrainAck, EngineOp::Sleep(delay), EngineOp::Emit(i)],
    }
}

/// The end of a session: one key press, then the quit flag.
pub open spec fn closing_ops() -> Seq<EngineOp> {
    seq![EngineOp::AwaitAck, EngineOp::RaiseQuit]
}

/// Everything the player does for a session, with `delays[k]` the typing
/// delay drawn for instruction `k`. It stops at the first `WaitForQuit`,
/// or closes the same way once the instructions run out.
pub open spec fn playback(insts: Seq<Instruction>, delays: Seq<u64>) -> Seq<EngineOp>
    decreases insts.len(),
{
    if insts.len() == 0 || insts[0] is WaitForQuit {
        closing_ops()
    } else {
        ops_for(insts[0], delays[0]) + playback(insts.drop_first(), delays.drop_first())
    }
}

/// The instructions that are played: those before the first `WaitForQuit`.
pub open spec fn played(insts: Seq<Instruction>) -> Seq<Instruction>
    decreases insts.len(),
{
    if insts.len() == 0 || insts[0] is WaitForQuit {
        seq![]
    } else {
        seq![insts[0]] + played(insts.drop_first())
    }
}

pub open spec fn awaits(ops: Seq<EngineOp>) -> nat {
    ops.filter(|o: EngineOp| o is AwaitAck).len()
}

pub open spec fn drains(ops: Seq<EngineOp>) -> nat {
    ops.filter(|o: EngineOp| o is DrainAck).len()
}

pub open spec fn waits(insts: Seq<Instruction>) -> nat {
    insts.filter(|i: Instruction| i is Wait).len()
}

pub open spec fn typings(insts: Seq<Instruction>) -> nat {
    insts.filter(|i: Instruction| is_typing(i)).len()
}

/// Relies on rand's `thread_rng` and `Rng::gen_range`: a draw from
/// `low..high`, which must not be empty.
#[verifier::external_body]
fn uniform_in(low: u64, high: u64) -> (r: u64)
    requires
        low < high,
    ensures
        low <= r < high,
{
    rand::thread_rng().gen_range(low..high)
}

/// A pause between two typed characters, drawn uniformly from 35 to 84
/// milliseconds.
pub fn typing_delay_ms() -> (r: u64)
    ensures
        TYPING_DELAY_MIN_MS <= r < TYPING_DELAY_END_MS,
{
    uniform_in(TYPING_DELAY_MIN_MS, TYPING_DELAY_END_MS)
}

/// Plans a session with the given typing delays (see [`playback`]).
pub fn plan_playback(instructions: Vec<Instruction>, delays: &Vec<u64>) -> (r: Vec<EngineOp>)
    requires
        delays@.len() == instructions@.len(),
    ensures
        r@ == playback(instructions@, delays@),
{
    let ghost all = instructions@;
    let ghost n = all.len() as int;
    let mut ops: Vec<EngineOp> = Vec::new();
    let mut k: usize = 0;
    let dn = delays.len();
    proof {
        assert(all.subrange(0, n) =~= all);
        assert(delays@.subrange(0, n) =~= delays@);
    }
    for inst in it: instructions
        invariant
            k == it.index(),
            k <= n,
            dn == n,
            it.seq() == all,
            n == all.len(),
            delays@.len() == n,
            ops@ + playback(all.subrange(k as int, n), delays@.subrange(k as int, n)) == playback(
                all,
                delays@,
            ),
    {
        let ghost rest = all.subrange(k as int, n);
        let ghost drest = delays@.subrange(k as int, n);
        assert(rest[0] == inst);
        assert(rest.drop_first() =~= all.subrange(k + 1, n));
        assert(drest.drop_first() =~= delays@.subrange(k + 1, n));
        let ghost before = ops@;
        match inst {
            Instruction::Pause(ms) => {
                ops.push(EngineOp::Sleep(ms));
                assert(ops@ =~= before + ops_for(inst, drest[0]));
            },
            Instruction::Wait => {
                ops.push(EngineOp::Emit(Instruction::Wait));
                ops.push(EngineOp::AwaitAck);
                assert(ops@ =~= before + ops_for(inst, drest[0]));
            },
            Instruction::WaitForQuit => {
                ops.push(EngineOp::AwaitAck);
                ops.push(EngineOp::RaiseQuit);
                assert(ops@ =~= before + closing_ops());
                return ops;
            },
            other => {
                ops.push(EngineOp::DrainAck);
                ops.push(EngineOp::Sleep(delays[k]));
                ops.push(EngineOp::Emit(other));
                assert(ops@ =~= before + ops_for(inst, drest[0]));
            },
        }
        assert(ops@ + playback(all.subrange(k + 1, n), delays@.subrange(k + 1, n)) =~= before
            + playback(rest, drest));
        k = k + 1;
    }
    let ghost before = ops@;
    ops.push(EngineOp::AwaitAck);
    ops.push(EngineOp::RaiseQuit);
    assert(ops@ =~= before + closing_ops());
    ops
}

/// Plans a session, drawing one typing delay per instruction from
/// 35 to 84 milliseconds.
pub fn plan_session(instructions: Vec<Instruction>) -> (r: Vec<EngineOp>)
    ensures
        exists|delays: Seq<u64>|
            {
                &&& delays.len() == instructions@.len()
                &&& forall|k: int|
                    0 <= k < delays.len() ==> TYPING_DELAY_MIN_MS <= #[trigger] delays[k]
                        < TYPING_DELAY_END_MS
                &&& r@ == playback(instructions@, delays)
            },
{
    let mut delays: Vec<u64> = Vec::new();
    let mut k: usize = 0;
    while k < instructions.len()
        invariant
            k <= instructions@.len(),
            delays@.len() == k,
            forall|j: int|
                0 <= j < k ==> TYPING_DELAY_MIN_MS <= #[trigger] delays@[j] < TYPING_DELAY_END_MS,
        decreases instructions@.len() - k,
    {
        delays.push(typing_delay_ms());
        k = k + 1;
    }
    plan_playback(instructions, &delays)
}

/// For one instruction, the player drops at most one stale acknowledgment,
/// and only before an instruction of the typing animation; it waits for
/// exactly one acknowledgment on a `Wait`, and for none otherwise.
pub proof fn lemma_instruction_acks(i: Instruction, delay: u64)
    requires
        !(i is WaitForQuit),
    ensures
        drains(ops_for(i, delay)) == (if is_typing(i) { 1nat } else { 0nat }),
        awaits(ops_for(i, delay)) == (if i is Wait { 1nat } else { 0nat }),
{
    reveal_with_fuel(Seq::filter, 4);
}

/// Over a whole session the player takes exactly one acknowledgment per
/// `Wait` it plays plus one for the closing key press, and drops at most one
/// stale acknowledgment per typing instruction it plays.
pub proof fn lemma_session_acks(insts: Seq<Instruction>, delays: Seq<u64>)
    requires
        delays.len() == insts.len(),
    ensures
        awaits(playback(insts, delays)) == waits(played(insts)) + 1,
        drains(playback(insts, delays)) == typings(played(insts)),
    decreases insts.len(),
{
    reveal_with_fuel(Seq::filter, 3);
    if insts.len() == 0 || insts[0] is WaitForQuit {
    } else {
        let i = insts[0];
        let ops = ops_for(i, delays[0]);
        let rest = playback(insts.drop_first(), delays.drop_first());
        lemma_session_acks(insts.drop_first(), delays.drop_first());
        lemma_instruction_acks(i, delays[0]);
        Seq::filter_distributes_over_add(ops, rest, |o: EngineOp| o is AwaitAck);
        Seq::filter_distributes_over_add(ops, rest, |o: EngineOp| o is DrainAck);
        let head = seq![i];
        let tail = played(insts.drop_first());
        Seq::filter_distributes_over_add(head, tail, |x: Instruction| x is Wait);
        Seq::filter_distributes_over_add(head, tail, |x: Instruction| is_typing(x));
    }
}

/// The steps for the first `j` instructions, in order.
pub open spec fn steps_upto(insts: Seq<Instruction>, delays: Seq<u64>, j: nat) -> Seq<EngineOp>
    decreases j,
{
    if j == 0 {
        seq![]
    } else {
        steps_upto(insts, delays, (j - 1) as nat) + ops_for(insts[j - 1], delays[j - 1])
    }
}

proof fn lemma_played_prefix(insts: Seq<Instruction>)
    ensures
        played(insts).len() <= insts.len(),
        forall|i: int|
            0 <= i < played(insts).len() ==> #[trigger] played(insts)[i] == insts[i]
                && !(insts[i] is WaitForQuit),
        played(insts).len() == insts.len() || insts[played(insts).len() as int] is WaitForQuit,
    decreases insts.len(),
{
    if insts.len() > 0 && !(insts[0] is WaitForQuit) {
        let rest = insts.drop_first();
        lemma_played_prefix(rest);
        assert forall|i: int| 0 <= i < played(insts).len() implies #[trigger] played(insts)[i]
            == insts[i] && !(insts[i] is WaitForQuit) by {
            if i > 0 {
                assert(played(insts)[i] == played(rest)[i - 1]);
            }
        }
    }
}

proof fn lemma_playback_split(insts: Seq<Instruction>, delays: Seq<u64>, j: nat)
    requires
        delays.len() == insts.len(),
        j <= played(insts).len(),
    ensures
        playback(insts, delays) == steps_upto(insts, delays, j) + playback(
            insts.subrange(j as int, insts.len() as int),
            delays.subrange(j as int, delays.len() as int),
        ),
    decreases j,
{
    lemma_played_prefix(insts);
    let n = insts.len() as int;
    if j == 0 {
        assert(insts.subrange(0, n) =~= insts);
        assert(delays.subrange(0, n) =~= delays);
        assert(playback(insts, delays) =~= seq![] + playback(insts, delays));
    } else {
        let k = j - 1;
        lemma_playback_split(insts, delays, k as nat);
        assert(played(insts)[k] == insts[k]);
        let rest = insts.subrange(k, n);
        let drest = delays.subrange(k, n);
        assert(rest[0] == insts[k]);
        assert(rest.drop_first() =~= insts.subrange(j as int, n));
        assert(drest.drop_first() =~= delays.subrange(j as int, n));
        assert(playback(rest, drest) == ops_for(insts[k], delays[k]) + playback(
            insts.subrange(j as int, n),
            delays.subrange(j as int, n),
        ));
        assert(steps_upto(insts, delays, (k + 1) as nat) == steps_upto(insts, delays, k as nat)
            + ops_for(insts[k], delays[k]));
        assert(steps_upto(insts, delays, k as nat) + playback(rest, drest) =~= steps_upto(
            insts,
            delays,
            j,
        ) + playback(insts.subrange(j as int, n), delays.subrange(j as int, n)));
    }
}

/// Where each step stands: the player goes through the played
/// instructions in order, each one's steps in one block (for a typing
/// instruction: drop one stale acknowledgment, sleep, emit; for a `Wait`:
/// emit, then take one acknowledgment; for a pause: sleep), and then takes
/// one acknowledgment and raises the quit flag. No other step takes or
/// drops an acknowledgment.
pub proof fn lemma_playback_layout(insts: Seq<Instruction>, delays: Seq<u64>)
    requires
        delays.len() == insts.len(),
    ensures
        playback(insts, delays) == steps_upto(insts, delays, played(insts).len()) + closing_ops(),
        forall|j: int|
            0 <= j < played(insts).len() ==> #[trigger] steps_upto(insts, delays, (j + 1) as nat)
                == steps_upto(insts, delays, j as nat) + ops_for(insts[j], delays[j]),
        forall|j: int| 0 <= j < played(insts).len() ==> !(#[trigger] insts[j] is WaitForQuit),
{
    lemma_played_prefix(insts);
    let k = played(insts).len();
    lemma_playback_split(insts, delays, k);
    let rest = insts.subrange(k as int, insts.len() as int);
    assert(rest.len() == 0 || rest[0] is WaitForQuit);
    assert forall|j: int| 0 <= j < played(insts).len() implies !(#[trigger] insts[j] is WaitForQuit) by {
        assert(played(insts)[j] == insts[j]);
    }
}

} // verus!

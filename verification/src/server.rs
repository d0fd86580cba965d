use vstd::prelude::*;

use crate::status::LinkEvent;
use crate::status::seed_seq;
use crate::status::fold_msgs;
use crate::status::lemma_fold_msgs_len;
use crate::status::seed_registers;
use crate::status::snapshot_update;

verus! {

/// std's mpsc receiving end, declared so that it can stand in signatures.
/// A value of it is opaque here: everything known about it is what the
/// wrapper below states.
#[verifier::external_type_specification]
#[verifier::external_body]
#[verifier::reject_recursive_types(T)]
pub struct ExReceiver<T>(std::sync::mpsc::Receiver<T>);

/// Relies on std::sync::mpsc::Receiver::try_recv: it hands out a message that
/// is already queued on the channel without blocking, or an error when none is
/// waiting. Which message comes back, if any, depends on what the producers
/// have sent so far, so nothing more is promised of the result.
#[verifier::external_body]
fn try_recv_msg(rx: &std::sync::mpsc::Receiver<Option<LinkEvent>>) -> (r: Option<
    Option<LinkEvent>,
>) {
    rx.try_recv().ok()
}

/// Drains what is already queued on the outcome channel, in delivery order,
/// without blocking: it stops at the first moment the channel is empty or
/// closed, and after at most `cap` messages so that one read request cannot be
/// held up forever by producers that enqueue faster than the drain runs.
pub fn drain_channel(rx: &std::sync::mpsc::Receiver<Option<LinkEvent>>, cap: usize) -> (msgs: Vec<
    Option<LinkEvent>,
>)
    ensures
        msgs@.len() <= cap,
{
    let mut msgs: Vec<Option<LinkEvent>> = Vec::new();
    let mut i: usize = 0;
    while i < cap
        invariant
            i <= cap,
            msgs@.len() <= i,
        decreases cap - i,
    {
        match try_recv_msg(rx) {
            Option::None => {
                return msgs;
            },
            Option::Some(m) => {
                msgs.push(m);
            },
        }
        i = i + 1;
    }
    msgs
}

/// The aggregator's snapshot: drains the outcome channel and folds the batch
/// into the caller's register vector. The batch depends on what the workers
/// enqueued, so the contract says what holds of every outcome: the new vector
/// is some batch folded, in delivery order, into the old one.
pub fn snapshot(
    rx: &std::sync::mpsc::Receiver<Option<LinkEvent>>,
    registers: &mut Vec<u16>,
    cap: usize,
)
    ensures
        final(registers)@.len() == old(registers)@.len(),
        exists|msgs: Seq<Option<LinkEvent>>|
            final(registers)@ == fold_msgs(old(registers)@, msgs),
{
    let msgs = drain_channel(rx, cap);
    snapshot_update(registers, &msgs);
    proof {
        assert(registers@ == fold_msgs(old(registers)@, msgs@));
        lemma_fold_msgs_len(old(registers)@, msgs@);
    }
}

/// Answers a read-input-registers request: one seed word per requested
/// register, the channel's events folded in, and the requested sub-range
/// returned. A request whose channel handle could not be acquired (`rx` is
/// `None`) is answered with an empty vector rather than partial data. Only a
/// sub-range that starts at the base of the register file is in range, since
/// the file built for a request holds exactly `cnt` words.
pub fn read_input_registers(
    addr: u16,
    cnt: u16,
    rx: Option<&std::sync::mpsc::Receiver<Option<LinkEvent>>>,
    cap: usize,
) -> (r: Vec<u16>)
    requires
        addr == 0,
    ensures
        rx is None ==> r@ == Seq::<u16>::empty(),
        rx is Some ==> r@.len() == cnt,
        rx is Some ==> exists|msgs: Seq<Option<LinkEvent>>|
            r@ == (#[trigger] fold_msgs(seed_seq(cnt as nat), msgs)).subrange(
                addr as int,
                addr as int + cnt as int,
            ),
{
    match rx {
        Option::None => Vec::new(),
        Option::Some(rx) => {
            let mut regs = seed_registers(cnt as usize);
            snapshot(rx, &mut regs, cap);
            proof {
                let seed = seed_seq(cnt as nat);
                let msgs = choose|msgs: Seq<Option<LinkEvent>>|
                    regs@ == fold_msgs(seed, msgs);
                lemma_fold_msgs_len(seed, msgs);
                assert(regs@ == fold_msgs(seed, msgs).subrange(0, cnt as int)) by {
                    assert(fold_msgs(seed, msgs).subrange(0, cnt as int) =~= fold_msgs(
                        seed,
                        msgs,
                    ));
                }
            }
            regs
        },
    }
}

} // verus!

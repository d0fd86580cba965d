use vstd::prelude::*;

verus! {

/// The kinds of fault a transmitter cycle can report for its link.
#[derive(PartialEq, Eq, Structural, Hash, Debug, Clone, Copy)]
pub enum NodeStat {
    SendFailed,
    RecvFailed,
    BadData,
}

/// One outcome event: the link that reported and the faults its cycle saw.
/// Each fault kind appears at most once in `faults`.
#[derive(Debug)]
pub struct LinkEvent {
    pub link: usize,
    pub faults: Vec<NodeStat>,
}

/// The seed value of every status register: liveness and all health bits set.
pub const SEED_STATUS: u16 = 15;

/// The register vector before any event is folded: one seed word per link.
pub open spec fn seed_seq(cnt: nat) -> Seq<u16> {
    Seq::new(cnt, |i: int| SEED_STATUS)
}

/// The register word after one fault is folded in: the health bit that matches
/// the fault kind is cleared. Bits are never re-set by a fold; a recorded fault
/// stays visible until the register vector itself is rebuilt from the seed.
pub open spec fn apply_fault(reg: u16, f: NodeStat) -> u16 {
    match f {
        NodeStat::SendFailed => reg & !(1u16 << 1),
        NodeStat::RecvFailed => reg & !(1u16 << 2),
        NodeStat::BadData => reg & !(1u16 << 3),
    }
}

/// A whole fault list folded into one register word, in order.
pub open spec fn apply_faults(reg: u16, faults: Seq<NodeStat>) -> u16
    decreases faults.len(),
{
    if faults.len() == 0 {
        reg
    } else {
        apply_fault(apply_faults(reg, faults.drop_last()), faults.last())
    }
}

/// The register word after one event: the liveness bit is set, then every
/// reported fault clears its health bit.
pub open spec fn apply_event(reg: u16, faults: Seq<NodeStat>) -> u16 {
    apply_faults(reg | 1u16, faults)
}

/// One channel message folded into the register vector. A batch sentinel
/// (`None`) changes nothing; an event for a link beyond the register file is
/// ignored, so no event can touch another link's word.
pub open spec fn fold_msg(regs: Seq<u16>, msg: Option<LinkEvent>) -> Seq<u16> {
    match msg {
        Option::None => regs,
        Option::Some(ev) => if (ev.link as int) < regs.len() {
            regs.update(ev.link as int, apply_event(regs[ev.link as int], ev.faults@))
        } else {
            regs
        },
    }
}

/// A whole drained batch folded into the register vector, in delivery order.
pub open spec fn fold_msgs(regs: Seq<u16>, msgs: Seq<Option<LinkEvent>>) -> Seq<u16>
    decreases msgs.len(),
{
    if msgs.len() == 0 {
        regs
    } else {
        fold_msg(fold_msgs(regs, msgs.drop_last()), msgs.last())
    }
}

/// Folding a batch never changes how many links the register vector covers.
pub proof fn lemma_fold_msgs_len(regs: Seq<u16>, msgs: Seq<Option<LinkEvent>>)
    ensures
        fold_msgs(regs, msgs).len() == regs.len(),
    decreases msgs.len(),
{
    if msgs.len() > 0 {
        lemma_fold_msgs_len(regs, msgs.drop_last());
    }
}

/// Builds the register vector a status read starts from: one seed word per link.
pub fn seed_registers(cnt: usize) -> (r: Vec<u16>)
    ensures
        r@ == seed_seq(cnt as nat),
{
    let mut r: Vec<u16> = Vec::new();
    let mut i: usize = 0;
    while i < cnt
        invariant
            i <= cnt,
            r@ == seed_seq(i as nat),
        decreases cnt - i,
    {
        r.push(SEED_STATUS);
        i = i + 1;
        proof {
            assert(r@ =~= seed_seq(i as nat));
        }
    }
    r
}

/// One event folded into one register word, exactly as `apply_event` says.
pub fn apply_event_reg(reg: u16, faults: &Vec<NodeStat>) -> (r: u16)
    ensures
        r == apply_event(reg, faults@),
{
    let mut r: u16 = reg | 1u16;
    let mut j: usize = 0;
    while j < faults.len()
        invariant
            j <= faults@.len(),
            r == apply_faults(reg | 1u16, faults@.take(j as int)),
        decreases faults@.len() - j,
    {
        r = (match faults[j] {
            NodeStat::SendFailed => r & !(1u16 << 1),
            NodeStat::RecvFailed => r & !(1u16 << 2),
            NodeStat::BadData => r & !(1u16 << 3),
        });
        j = j + 1;
        proof {
            assert(faults@.take(j as int).drop_last() =~= faults@.take(j as int - 1));
        }
    }
    proof {
        assert(faults@.take(faults@.len() as int) =~= faults@);
    }
    r
}

/// The fault lists of the real events a batch carries for one link, in
/// delivery order. Sentinels and other links' events do not appear.
pub open spec fn events_for(msgs: Seq<Option<LinkEvent>>, link: int) -> Seq<Seq<NodeStat>>
    decreases msgs.len(),
{
    if msgs.len() == 0 {
        Seq::empty()
    } else {
        let rest = events_for(msgs.drop_last(), link);
        match msgs.last() {
            Option::Some(ev) => if ev.link as int == link {
                rest.push(ev.faults@)
            } else {
                rest
            },
            Option::None => rest,
        }
    }
}

/// A list of whole events folded into one register word, in order.
pub open spec fn apply_events(reg: u16, evs: Seq<Seq<NodeStat>>) -> u16
    decreases evs.len(),
{
    if evs.len() == 0 {
        reg
    } else {
        apply_event(apply_events(reg, evs.drop_last()), evs.last())
    }
}

/// Fault isolation: after a batch is folded, a link's register word is exactly
/// its own events folded in order into its prior word. Events for other links
/// never touch it.
pub proof fn lemma_fold_per_link(regs: Seq<u16>, msgs: Seq<Option<LinkEvent>>, link: int)
    requires
        0 <= link < regs.len(),
    ensures
        fold_msgs(regs, msgs)[link] == apply_events(regs[link], events_for(msgs, link)),
    decreases msgs.len(),
{
    if msgs.len() > 0 {
        lemma_fold_per_link(regs, msgs.drop_last(), link);
        lemma_fold_msgs_len(regs, msgs.drop_last());
        let rest = events_for(msgs.drop_last(), link);
        match msgs.last() {
            Option::Some(ev) => {
                if ev.link as int == link {
                    assert(rest.push(ev.faults@).drop_last() =~= rest);
                    assert(rest.push(ev.faults@).last() == ev.faults@);
                }
            },
            Option::None => {},
        }
    }
}

/// Before any event is folded, every link's register holds the seed word.
pub proof fn lemma_seed_snapshot(cnt: nat, link: int)
    requires
        0 <= link < cnt,
    ensures
        fold_msgs(seed_seq(cnt), Seq::<Option<LinkEvent>>::empty())[link] == SEED_STATUS,
{
}

/// An event with no faults sets the liveness bit and leaves every health bit
/// exactly as it was.
pub proof fn lemma_fault_free_event(reg: u16)
    ensures
        apply_event(reg, Seq::<NodeStat>::empty()) & 1u16 == 1u16,
        apply_event(reg, Seq::<NodeStat>::empty()) & 2u16 == reg & 2u16,
        apply_event(reg, Seq::<NodeStat>::empty()) & 4u16 == reg & 4u16,
        apply_event(reg, Seq::<NodeStat>::empty()) & 8u16 == reg & 8u16,
{
    assert(apply_event(reg, Seq::<NodeStat>::empty()) == reg | 1u16);
    assert((reg | 1u16) & 1u16 == 1u16) by (bit_vector);
    assert((reg | 1u16) & 2u16 == reg & 2u16) by (bit_vector);
    assert((reg | 1u16) & 4u16 == reg & 4u16) by (bit_vector);
    assert((reg | 1u16) & 8u16 == reg & 8u16) by (bit_vector);
}

/// An event reporting only a send failure clears the send-health bit and
/// leaves the receive-health and data-health bits as they were; the liveness
/// bit is set.
pub proof fn lemma_send_failed_event(reg: u16)
    ensures
        apply_event(reg, seq![NodeStat::SendFailed]) & 1u16 == 1u16,
        apply_event(reg, seq![NodeStat::SendFailed]) & 2u16 == 0u16,
        apply_event(reg, seq![NodeStat::SendFailed]) & 4u16 == reg & 4u16,
        apply_event(reg, seq![NodeStat::SendFailed]) & 8u16 == reg & 8u16,
{
    let s = seq![NodeStat::SendFailed];
    assert(s.drop_last() =~= Seq::<NodeStat>::empty());
    assert(s.last() == NodeStat::SendFailed);
    assert(apply_faults(reg | 1u16, Seq::<NodeStat>::empty()) == reg | 1u16);
    assert(apply_event(reg, s) == (reg | 1u16) & !(1u16 << 1));
    assert(((reg | 1u16) & !(1u16 << 1)) & 1u16 == 1u16) by (bit_vector);
    assert(((reg | 1u16) & !(1u16 << 1)) & 2u16 == 0u16) by (bit_vector);
    assert(((reg | 1u16) & !(1u16 << 1)) & 4u16 == reg & 4u16) by (bit_vector);
    assert(((reg | 1u16) & !(1u16 << 1)) & 8u16 == reg & 8u16) by (bit_vector);
}

/// One fault fold can only clear a health bit, never set one.
proof fn lemma_apply_fault_only_clears(x: u16, f: NodeStat)
    ensures
        apply_fault(x, f) & 2u16 <= x & 2u16,
        apply_fault(x, f) & 4u16 <= x & 4u16,
        apply_fault(x, f) & 8u16 <= x & 8u16,
{
    match f {
        NodeStat::SendFailed => {
            assert((x & !(1u16 << 1)) & 2u16 <= x & 2u16) by (bit_vector);
            assert((x & !(1u16 << 1)) & 4u16 <= x & 4u16) by (bit_vector);
            assert((x & !(1u16 << 1)) & 8u16 <= x & 8u16) by (bit_vector);
        },
        NodeStat::RecvFailed => {
            assert((x & !(1u16 << 2)) & 2u16 <= x & 2u16) by (bit_vector);
            assert((x & !(1u16 << 2)) & 4u16 <= x & 4u16) by (bit_vector);
            assert((x & !(1u16 << 2)) & 8u16 <= x & 8u16) by (bit_vector);
        },
        NodeStat::BadData => {
            assert((x & !(1u16 << 3)) & 2u16 <= x & 2u16) by (bit_vector);
            assert((x & !(1u16 << 3)) & 4u16 <= x & 4u16) by (bit_vector);
            assert((x & !(1u16 << 3)) & 8u16 <= x & 8u16) by (bit_vector);
        },
    }
}

/// Faults are sticky: folding an event never re-sets a health bit that an
/// earlier fold cleared, whatever the event reports. Only the liveness bit can
/// newly appear; a health bit set again takes a fresh seed vector.
pub proof fn lemma_health_bits_only_clear(reg: u16, faults: Seq<NodeStat>)
    ensures
        apply_event(reg, faults) & 2u16 <= reg & 2u16,
        apply_event(reg, faults) & 4u16 <= reg & 4u16,
        apply_event(reg, faults) & 8u16 <= reg & 8u16,
    decreases faults.len(),
{
    if faults.len() == 0 {
        assert((reg | 1u16) & 2u16 == reg & 2u16) by (bit_vector);
        assert((reg | 1u16) & 4u16 == reg & 4u16) by (bit_vector);
        assert((reg | 1u16) & 8u16 == reg & 8u16) by (bit_vector);
    } else {
        lemma_health_bits_only_clear(reg, faults.drop_last());
        lemma_apply_fault_only_clears(apply_event(reg, faults.drop_last()), faults.last());
    }
}

/// A single snapshot over a batch in which a link reports exactly once folds
/// that one event into the link's register exactly once: the event is neither
/// lost nor applied twice.
pub proof fn lemma_single_report_drain(
    regs: Seq<u16>,
    msgs: Seq<Option<LinkEvent>>,
    link: int,
    faults: Seq<NodeStat>,
)
    requires
        0 <= link < regs.len(),
        events_for(msgs, link) == seq![faults],
    ensures
        fold_msgs(regs, msgs)[link] == apply_event(regs[link], faults),
{
    lemma_fold_per_link(regs, msgs, link);
    assert(seq![faults].drop_last() =~= Seq::<Seq<NodeStat>>::empty());
    assert(seq![faults].last() == faults);
    assert(apply_events(regs[link], Seq::<Seq<NodeStat>>::empty()) == regs[link]);
}

/// The aggregator's fold step: every message of a drained batch applied, in
/// order, to the caller's register vector.
pub fn snapshot_update(registers: &mut Vec<u16>, msgs: &Vec<Option<LinkEvent>>)
    ensures
        final(registers)@ == fold_msgs(old(registers)@, msgs@),
{
    let n: usize = msgs.len();
    let mut i: usize = 0;
    while i < n
        invariant
            i <= n,
            n == msgs@.len(),
            registers@ == fold_msgs(old(registers)@, msgs@.take(i as int)),
        decreases n - i,
    {
        let ghost pre = registers@;
        match &msgs[i] {
            Option::None => {},
            Option::Some(ev) => {
                if ev.link < registers.len() {
                    let updated: u16 = apply_event_reg(registers[ev.link], &ev.faults);
                    registers[ev.link] = updated;
                }
            },
        }
        proof {
            assert(registers@ == fold_msg(pre, msgs@[i as int]));
        }
        i = i + 1;
        proof {
            assert(msgs@.take(i as int).drop_last() =~= msgs@.take(i as int - 1));
        }
    }
    proof {
        assert(msgs@.take(msgs@.len() as int) =~= msgs@);
    }
}

} // verus!

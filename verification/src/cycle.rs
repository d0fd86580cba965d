use vstd::prelude::*;

use crate::status::NodeStat;

verus! {

/// The synthetic payload: ascending byte values, wrapping at 256, of the
/// configured length.
pub open spec fn ascending_bytes(len: nat) -> Seq<u8> {
    Seq::new(len, |i: int| (i % 256) as u8)
}

/// The payload a transmitter cycle writes: the explicitly configured bytes
/// when any were given, otherwise the synthetic ascending sequence of the
/// configured length.
pub fn make_payload(data: &Vec<u8>, len: usize) -> (r: Vec<u8>)
    ensures
        data@.len() > 0 ==> r@ == data@,
        data@.len() == 0 ==> r@ == ascending_bytes(len as nat),
{
    if data.len() > 0 {
        let mut r: Vec<u8> = Vec::new();
        let mut i: usize = 0;
        while i < data.len()
            invariant
                i <= data@.len(),
                r@ == data@.take(i as int),
            decreases data@.len() - i,
        {
            r.push(data[i]);
            i = i + 1;
            proof {
                assert(r@ =~= data@.take(i as int));
            }
        }
        proof {
            assert(data@.take(data@.len() as int) =~= data@);
        }
        r
    } else {
        let mut r: Vec<u8> = Vec::new();
        let mut i: usize = 0;
        while i < len
            invariant
                i <= len,
                r@ == ascending_bytes(i as nat),
            decreases len - i,
        {
            r.push((i % 256) as u8);
            i = i + 1;
            proof {
                assert(r@ =~= ascending_bytes(i as nat));
            }
        }
        r
    }
}

/// The bytes a read actually produced: the first `cnt` bytes of the receive
/// buffer, which is also what an echoing listener writes back.
pub fn read_prefix(buf: &Vec<u8>, cnt: usize) -> (r: Vec<u8>)
    requires
        cnt <= buf@.len(),
    ensures
        r@ == buf@.take(cnt as int),
{
    let mut r: Vec<u8> = Vec::new();
    let mut i: usize = 0;
    while i < cnt
        invariant
            i <= cnt,
            cnt <= buf@.len(),
            r@ == buf@.take(i as int),
        decreases cnt - i,
    {
        r.push(buf[i]);
        i = i + 1;
        proof {
            assert(r@ =~= buf@.take(i as int));
        }
    }
    r
}

/// Full-content equality of two byte vectors: equal lengths and equal bytes
/// at every position.
pub fn bytes_equal(a: &Vec<u8>, b: &Vec<u8>) -> (r: bool)
    ensures
        r == (a@ == b@),
{
    if a.len() != b.len() {
        return false;
    }
    let mut i: usize = 0;
    while i < a.len()
        invariant
            i <= a@.len(),
            a@.len() == b@.len(),
            forall|j: int| 0 <= j < i ==> a@[j] == b@[j],
        decreases a@.len() - i,
    {
        if a[i] != b[i] {
            return false;
        }
        i = i + 1;
    }
    proof {
        assert(a@ =~= b@);
    }
    true
}

/// The spec-level view of an optional read-back buffer.
pub open spec fn readback_view(read_back: Option<&Vec<u8>>) -> Option<Seq<u8>> {
    match read_back {
        Option::Some(b) => Option::Some(b@),
        Option::None => Option::None,
    }
}

/// The set of faults one transmitter cycle reports: a failed write, a failed
/// or timed-out read, and a read-back whose content differs from the payload.
/// Verification happens only when the read succeeded.
pub open spec fn outcome_spec(
    write_ok: bool,
    read_back: Option<Seq<u8>>,
    payload: Seq<u8>,
) -> Set<NodeStat> {
    Set::new(
        |f: NodeStat|
            match f {
                NodeStat::SendFailed => !write_ok,
                NodeStat::RecvFailed => read_back is None,
                NodeStat::BadData => read_back matches Option::Some(b) && b != payload,
            },
    )
}

/// The outcome event of one transmitter cycle: each fault kind the cycle saw,
/// each at most once.
pub fn cycle_outcome(write_ok: bool, read_back: Option<&Vec<u8>>, payload: &Vec<u8>) -> (r: Vec<
    NodeStat,
>)
    ensures
        r@.no_duplicates(),
        forall|f: NodeStat|
            r@.contains(f) <==> outcome_spec(
                write_ok,
                readback_view(read_back),
                payload@,
            ).contains(f),
{
    let mut r: Vec<NodeStat> = Vec::new();
    if !write_ok {
        r.push(NodeStat::SendFailed);
    }
    match read_back {
        Option::None => {
            r.push(NodeStat::RecvFailed);
        },
        Option::Some(b) => {
            if !bytes_equal(b, payload) {
                r.push(NodeStat::BadData);
            }
        },
    }
    proof {
        let oc = outcome_spec(write_ok, readback_view(read_back), payload@);
        assert forall|f: NodeStat| r@.contains(f) <==> oc.contains(f) by {
            if r@.contains(f) {
                let i: int = choose|i: int| 0 <= i < r@.len() && r@[i] == f;
                assert(0 <= i < r@.len() && r@[i] == f);
            }
            if oc.contains(f) {
                match f {
                    NodeStat::SendFailed => {
                        assert(r@[0] == NodeStat::SendFailed);
                    },
                    NodeStat::RecvFailed => {
                        if write_ok {
                            assert(r@[0] == NodeStat::RecvFailed);
                        } else {
                            assert(r@[1] == NodeStat::RecvFailed);
                        }
                    },
                    NodeStat::BadData => {
                        if write_ok {
                            assert(r@[0] == NodeStat::BadData);
                        } else {
                            assert(r@[1] == NodeStat::BadData);
                        }
                    },
                }
            }
        }
    }
    r
}

/// Round trip: a cycle whose write succeeded and whose read-back returned
/// exactly the payload reports no fault at all.
pub proof fn lemma_round_trip(payload: Seq<u8>)
    ensures
        outcome_spec(true, Option::Some(payload), payload) =~= Set::<NodeStat>::empty(),
{
    assert forall|f: NodeStat| !outcome_spec(
        true,
        Option::Some(payload),
        payload,
    ).contains(f) by {
        match f {
            NodeStat::SendFailed => {},
            NodeStat::RecvFailed => {},
            NodeStat::BadData => {},
        }
    }
}

/// Mismatch detection: a read-back that differs from the payload at any single
/// byte position makes the cycle report bad data.
pub proof fn lemma_mismatch_detected(write_ok: bool, read: Seq<u8>, payload: Seq<u8>, i: int)
    requires
        0 <= i < read.len(),
        0 <= i < payload.len(),
        read[i] != payload[i],
    ensures
        outcome_spec(write_ok, Option::Some(read), payload).contains(NodeStat::BadData),
{
    assert(read != payload);
}

} // verus!

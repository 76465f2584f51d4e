//! Blocking-socket bridge: byte accounting across would-block retries.
//!
//! The bridge presents a synchronous read/write facade over a readiness-
//! driven socket. A call either completes immediately with the bytes the
//! transport has available, or signals would-block for the owning adapter
//! to await readiness and retry. The bridge never buffers on its own, so no
//! byte may be lost or duplicated across a would-block/retry cycle; the
//! functions here carry that accounting, with the transport's in-flight
//! data in one direction modelled as the byte queue it holds.

use vstd::prelude::*;

verus! {

/// How many bytes a read with capacity `cap` takes from `chan`.
pub open spec fn spec_read_len(chan: Seq<u8>, cap: nat) -> int {
    if cap < chan.len() {
        cap as int
    } else {
        chan.len() as int
    }
}

/// What a completing read does: the bytes it returns and those it leaves.
pub open spec fn spec_read_step(chan: Seq<u8>, cap: nat) -> (Seq<u8>, Seq<u8>) {
    (chan.take(spec_read_len(chan, cap)), chan.skip(spec_read_len(chan, cap)))
}

/// How many bytes a write of `data` completes under `credit` bytes of
/// transport capacity.
pub open spec fn spec_write_len(data: Seq<u8>, credit: nat) -> int {
    if credit < data.len() {
        credit as int
    } else {
        data.len() as int
    }
}

/// What a completing write leaves in flight.
pub open spec fn spec_write_step(chan: Seq<u8>, data: Seq<u8>, credit: nat) -> Seq<u8> {
    chan + data.take(spec_write_len(data, credit))
}

/// Read up to `cap` bytes from the front of the in-flight data.
///
/// With no byte available the call signals would-block (`None`) and leaves
/// the transport untouched; otherwise it returns the first
/// `min(cap, available)` bytes and leaves exactly the rest, so nothing is
/// lost or duplicated across a retry cycle.
pub fn bridge_read(chan: &mut Vec<u8>, cap: usize) -> (r: Option<Vec<u8>>)
    ensures
        old(chan)@.len() == 0 ==> (r is None && final(chan)@ == old(chan)@),
        old(chan)@.len() > 0 ==> (r matches Some(d) && d@ == spec_read_step(
            old(chan)@,
            cap as nat,
        ).0 && final(chan)@ == spec_read_step(old(chan)@, cap as nat).1),
        r matches Some(d) ==> d@ + final(chan)@ == old(chan)@,
{
    if chan.len() == 0 {
        return None;
    }
    let k = if cap < chan.len() {
        cap
    } else {
        chan.len()
    };
    let mut taken: Vec<u8> = Vec::new();
    let mut i: usize = 0;
    while i < k
        invariant
            i <= k,
            k <= chan@.len(),
            taken@ == chan@.take(i as int),
        decreases k - i,
    {
        let b = chan[i];
        taken.push(b);
        proof {
            assert(taken@ =~= chan@.take(i + 1));
        }
        i = i + 1;
    }
    let rest = chan.split_off(k);
    *chan = rest;
    proof {
        assert(taken@ + chan@ =~= old(chan)@);
    }
    Some(taken)
}

/// Write up to `credit` bytes of `data` onto the back of the in-flight
/// data.
///
/// With data to send but no transport capacity the call signals would-block
/// (`None`) and sends nothing; otherwise it appends exactly the first
/// `min(credit, data.len())` bytes and reports how many, so the caller can
/// resume from the right offset after a retry.
pub fn bridge_write(chan: &mut Vec<u8>, data: &[u8], credit: usize) -> (r: Option<usize>)
    ensures
        credit == 0 && data@.len() > 0 ==> (r is None && final(chan)@ == old(chan)@),
        !(credit == 0 && data@.len() > 0) ==> (r matches Some(n) && n == spec_write_len(
            data@,
            credit as nat,
        ) && final(chan)@ == spec_write_step(old(chan)@, data@, credit as nat)),
{
    if credit == 0 && data.len() > 0 {
        return None;
    }
    let k = if credit < data.len() {
        credit
    } else {
        data.len()
    };
    let mut i: usize = 0;
    while i < k
        invariant
            i <= k,
            k <= data@.len(),
            chan@ == old(chan)@ + data@.take(i as int),
        decreases k - i,
    {
        let b = data[i];
        chan.push(b);
        proof {
            assert(old(chan)@ + data@.take(i as int) + seq![data@[i as int]] =~= old(chan)@
                + data@.take(i + 1));
        }
        i = i + 1;
    }
    Some(k)
}

/// No byte is lost or duplicated by a read: what it returns, followed by
/// what it leaves, is exactly what was in flight.
pub proof fn lemma_read_preserves_bytes(chan: Seq<u8>, cap: nat)
    ensures
        spec_read_step(chan, cap).0 + spec_read_step(chan, cap).1 == chan,
{
    assert(spec_read_step(chan, cap).0 + spec_read_step(chan, cap).1 =~= chan);
}

/// Round trip: a payload written into an empty channel under sufficient
/// credit and then read back with sufficient capacity comes back unchanged
/// and complete.
pub proof fn lemma_round_trip(data: Seq<u8>, credit: nat, cap: nat)
    requires
        credit >= data.len(),
        cap >= data.len(),
    ensures
        spec_read_step(spec_write_step(Seq::empty(), data, credit), cap).0 == data,
        spec_read_step(spec_write_step(Seq::empty(), data, credit), cap).1
            == Seq::<u8>::empty(),
{
    let sent = spec_write_step(Seq::empty(), data, credit);
    assert(sent =~= data);
    assert(spec_read_step(sent, cap).0 =~= data);
    assert(spec_read_step(sent, cap).1 =~= Seq::<u8>::empty());
}

} // verus!

//! The batch driver: one engine call per batch, then packets and flags are
//! paired by position.
//!
//! The driver never looks into a packet, so it is written for any packet type
//! `P`. It asks for no `Clone` on `P` either: a packet can only be moved from
//! the batch into the tagged batch.

use vstd::prelude::*;

verus! {

/// An ordered group of packets that is verified together.
pub type Batch<P> = Vec<P>;

/// A batch in which every packet carries its validity flag.
pub type VerifiedBatch<P> = Vec<(P, bool)>;

/// How many entries a tagged batch has: one for each packet that has a flag.
pub open spec fn tagged_len<P>(batch: Seq<P>, flags: Seq<bool>) -> nat {
    if batch.len() <= flags.len() {
        batch.len()
    } else {
        flags.len()
    }
}

/// Packets paired with flags by position.
pub open spec fn tagged<P>(batch: Seq<P>, flags: Seq<bool>) -> Seq<(P, bool)> {
    Seq::new(tagged_len(batch, flags), |i: int| (batch[i], flags[i]))
}

/// The packets of a tagged batch, in its order.
pub open spec fn packets_of<P>(out: Seq<(P, bool)>) -> Seq<P> {
    Seq::new(out.len(), |i: int| out[i].0)
}

/// The flags of a tagged batch, in its order.
pub open spec fn flags_of<P>(out: Seq<(P, bool)>) -> Seq<bool> {
    Seq::new(out.len(), |i: int| out[i].1)
}

/// `out` is `batch` tagged with flags that `engine` can return for it.
pub open spec fn verified_by<P, F: Fn(&Batch<P>) -> Vec<bool>>(
    engine: &F,
    batch: Batch<P>,
    out: Seq<(P, bool)>,
) -> bool {
    exists|flags: Vec<bool>| #[trigger]
        engine.ensures((&batch,), flags) && out == tagged(batch@, flags@)
}

/// Whatever `engine` returns for `batch` holds a flag for each of its packets.
pub open spec fn flags_every_packet<P, F: Fn(&Batch<P>) -> Vec<bool>>(
    engine: &F,
    batch: Batch<P>,
) -> bool {
    forall|flags: Vec<bool>| #[trigger]
        engine.ensures((&batch,), flags) ==> batch@.len() <= flags@.len()
}

/// The flags that `engine` returns depend on the packets of the batch alone.
pub open spec fn deterministic<P, F: Fn(&Batch<P>) -> Vec<bool>>(engine: &F) -> bool {
    forall|a: Batch<P>, b: Batch<P>, flags_a: Vec<bool>, flags_b: Vec<bool>|
        a@ == b@ && #[trigger] engine.ensures((&a,), flags_a) && #[trigger] engine.ensures(
            (&b,),
            flags_b,
        ) ==> flags_a@ == flags_b@
}

/// Tagging keeps the packets as they are and in their order: the packets of
/// the tagged batch are the leading packets of the batch, and all of them
/// where every packet has a flag.
pub proof fn lemma_tagged_keeps_order<P>(batch: Seq<P>, flags: Seq<bool>)
    ensures
        packets_of(tagged(batch, flags)) == batch.take(tagged_len(batch, flags) as int),
        flags_of(tagged(batch, flags)) == flags.take(tagged_len(batch, flags) as int),
        batch.len() <= flags.len() ==> packets_of(tagged(batch, flags)) == batch,
{
}

/// Where every packet has a flag, each packet of the batch occurs in the
/// tagged batch as often as in the batch: none is lost and none is doubled.
pub proof fn lemma_tagged_keeps_every_packet<P>(batch: Seq<P>, flags: Seq<bool>)
    requires
        batch.len() <= flags.len(),
    ensures
        packets_of(tagged(batch, flags)).to_multiset() == batch.to_multiset(),
{
    lemma_tagged_keeps_order(batch, flags);
}

/// A batch that an engine has verified holds the packets of the batch, all of
/// them and in their order, where the engine answers with a flag for every
/// packet.
pub proof fn lemma_verified_keeps_packets<P, F: Fn(&Batch<P>) -> Vec<bool>>(
    engine: &F,
    batch: Batch<P>,
    out: Seq<(P, bool)>,
)
    requires
        verified_by(engine, batch, out),
        flags_every_packet(engine, batch),
    ensures
        packets_of(out) == batch@,
        packets_of(out).to_multiset() == batch@.to_multiset(),
{
    let flags = choose|flags: Vec<bool>| #[trigger]
        engine.ensures((&batch,), flags) && out == tagged(batch@, flags@);
    lemma_tagged_keeps_order(batch@, flags@);
}

/// Verifying the same packets twice with a deterministic engine gives the
/// same tagged batch, and so the same flags.
pub proof fn lemma_verify_twice<P, F: Fn(&Batch<P>) -> Vec<bool>>(
    engine: &F,
    first: Batch<P>,
    second: Batch<P>,
    out_first: Seq<(P, bool)>,
    out_second: Seq<(P, bool)>,
)
    requires
        deterministic(engine),
        first@ == second@,
        verified_by(engine, first, out_first),
        verified_by(engine, second, out_second),
    ensures
        out_first == out_second,
        flags_of(out_first) == flags_of(out_second),
{
    let flags_first = choose|flags: Vec<bool>| #[trigger]
        engine.ensures((&first,), flags) && out_first == tagged(first@, flags@);
    let flags_second = choose|flags: Vec<bool>| #[trigger]
        engine.ensures((&second,), flags) && out_second == tagged(second@, flags@);
    assert(flags_first@ == flags_second@);
}

/// Pairs each packet with the flag at its position. A packet without a flag
/// is left out, and so is a flag without a packet.
pub fn tag_batch<P>(batch: Batch<P>, flags: Vec<bool>) -> (out: VerifiedBatch<P>)
    ensures
        out@ == tagged(batch@, flags@),
        batch@.len() <= flags@.len() ==> packets_of(out@) == batch@,
        batch@.len() <= flags@.len() ==> packets_of(out@).to_multiset() == batch@.to_multiset(),
{
    let ghost packets = batch@;
    let mut out: VerifiedBatch<P> = Vec::new();
    for packet in it: batch.into_iter()
        invariant
            it.seq() == packets,
            out@ == tagged(packets.take(it.index() as int), flags@),
    {
        let i: usize = out.len();
        if i < flags.len() {
            out.push((packet, flags[i]));
        }
    }
    proof {
        lemma_tagged_keeps_order(packets, flags@);
    }
    out
}

/// Hands the whole batch to the engine in one call and pairs the packets with
/// the flags that come back. The tagged batch never holds more than the batch
/// did, and an empty batch gives an empty one. Where the engine answers with a
/// flag for every packet, the tagged batch holds the packets of the batch, all
/// of them and in their order.
pub fn verify_batch<P, F>(batch: Batch<P>, engine: &F) -> (out: VerifiedBatch<P>) where
    F: Fn(&Batch<P>) -> Vec<bool>,

    requires
        engine.requires((&batch,)),
    ensures
        verified_by(engine, batch, out@),
        out@.len() <= batch@.len(),
        flags_every_packet(engine, batch) ==> packets_of(out@) == batch@,
        flags_every_packet(engine, batch) ==> packets_of(out@).to_multiset()
            == batch@.to_multiset(),
{
    let flags = engine(&batch);
    let out = tag_batch(batch, flags);
    proof {
        if flags_every_packet(engine, batch) {
            lemma_verified_keeps_packets(engine, batch, out@);
        }
    }
    out
}

} // verus!

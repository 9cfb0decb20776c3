use ed25519_dalek::{Signature, Signer, SigningKey, Verifier, VerifyingKey};
use sigverify_stage::driver::{tag_batch, verify_batch, Batch, VerifiedBatch};
use std::cell::Cell;
use std::sync::Arc;

/// A packet as a test sees it: a byte buffer with its size and its source.
#[derive(Debug, PartialEq, Eq)]
struct Packet {
    data: Vec<u8>,
    size: usize,
    addr: [u8; 4],
}

type SharedPacket = Arc<Packet>;

fn packet(data: Vec<u8>) -> SharedPacket {
    let size = data.len();
    Arc::new(Packet { data, size, addr: [127, 0, 0, 1] })
}

/// An engine that needs no key: a packet is valid when its last byte is the
/// wrapping sum of the bytes before it.
fn checksum_engine(batch: &Batch<SharedPacket>) -> Vec<bool> {
    batch
        .iter()
        .map(|p| match p.data.split_last() {
            Some((last, rest)) => rest.iter().fold(0u8, |a, b| a.wrapping_add(*b)) == *last,
            None => false,
        })
        .collect()
}

fn summed(mut body: Vec<u8>) -> Vec<u8> {
    let sum = body.iter().fold(0u8, |a, b| a.wrapping_add(*b));
    body.push(sum);
    body
}

/// Signature, then public key, then message.
fn signed_packet(key: &SigningKey, message: &[u8]) -> Vec<u8> {
    let mut data = key.sign(message).to_bytes().to_vec();
    data.extend_from_slice(key.verifying_key().as_bytes());
    data.extend_from_slice(message);
    data
}

fn signature_holds(data: &[u8]) -> bool {
    if data.len() < 96 {
        return false;
    }
    let mut sig = [0u8; 64];
    sig.copy_from_slice(&data[..64]);
    let mut key = [0u8; 32];
    key.copy_from_slice(&data[64..96]);
    match VerifyingKey::from_bytes(&key) {
        Ok(key) => key.verify(&data[96..], &Signature::from_bytes(&sig)).is_ok(),
        Err(_) => false,
    }
}

fn ed25519_engine(batch: &Batch<SharedPacket>) -> Vec<bool> {
    batch.iter().map(|p| signature_holds(&p.data[..p.size])).collect()
}

#[test]
fn tag_batch_pairs_by_position() {
    let out = tag_batch(vec![10u64, 20, 30], vec![true, false, true]);
    assert_eq!(out, vec![(10, true), (20, false), (30, true)]);
}

#[test]
fn tag_batch_of_nothing_is_empty() {
    let out: VerifiedBatch<u64> = tag_batch(vec![], vec![]);
    assert!(out.is_empty());
}

#[test]
fn tag_batch_leaves_out_a_packet_without_flag() {
    let out = tag_batch(vec![1u64, 2, 3], vec![true]);
    assert_eq!(out, vec![(1, true)]);
    let out = tag_batch(vec![1u64, 2], vec![]);
    assert_eq!(out, vec![]);
}

#[test]
fn tag_batch_leaves_out_a_flag_without_packet() {
    let out = tag_batch(vec![1u64], vec![false, true, true]);
    assert_eq!(out, vec![(1, false)]);
    let out: VerifiedBatch<u64> = tag_batch(vec![], vec![true]);
    assert_eq!(out, vec![]);
}

#[test]
fn verify_batch_pairs_packets_with_the_engine_flags() {
    let engine = |batch: &Batch<u64>| batch.iter().map(|p| p % 2 == 0).collect::<Vec<bool>>();
    let out = verify_batch(vec![1u64, 2, 3, 4], &engine);
    assert_eq!(out, vec![(1, false), (2, true), (3, false), (4, true)]);
}

#[test]
fn verify_batch_calls_the_engine_once_with_the_whole_batch() {
    let calls = Cell::new(0usize);
    let seen = Cell::new(0usize);
    let engine = |batch: &Batch<u64>| {
        calls.set(calls.get() + 1);
        seen.set(batch.len());
        vec![true; batch.len()]
    };
    let out = verify_batch(vec![5u64, 6, 7, 8, 9], &engine);
    assert_eq!(calls.get(), 1);
    assert_eq!(seen.get(), 5);
    assert_eq!(out.len(), 5);
}

#[test]
fn verify_batch_keeps_length_and_order() {
    let engine = |batch: &Batch<u32>| batch.iter().map(|p| p % 3 == 0).collect::<Vec<bool>>();
    for n in 0u32..40 {
        let batch: Batch<u32> = (0..n).map(|i| i.wrapping_mul(2654435761) % 1000).collect();
        let out = verify_batch(batch.clone(), &engine);
        assert_eq!(out.len(), batch.len());
        let packets: Vec<u32> = out.iter().map(|e| e.0).collect();
        assert_eq!(packets, batch);
        for (i, entry) in out.iter().enumerate() {
            assert_eq!(entry.1, batch[i] % 3 == 0);
        }
    }
}

#[test]
fn verify_batch_keeps_every_packet_once() {
    let kept: Vec<SharedPacket> =
        vec![packet(summed(vec![1, 2])), packet(vec![9, 9, 9]), packet(summed(vec![1, 2]))];
    let batch: Batch<SharedPacket> = kept.iter().cloned().collect();
    let out = verify_batch(batch, &checksum_engine);
    assert_eq!(out.len(), kept.len());
    for (i, p) in kept.iter().enumerate() {
        let places = out.iter().filter(|e| Arc::ptr_eq(&e.0, p)).count();
        assert_eq!(places, 1);
        assert!(Arc::ptr_eq(&out[i].0, p));
        assert_eq!(Arc::strong_count(p), 2);
    }
    assert_eq!(*kept[1], Packet { data: vec![9, 9, 9], size: 3, addr: [127, 0, 0, 1] });
}

#[test]
fn verify_batch_twice_gives_the_same_flags() {
    let packets: Vec<SharedPacket> = (0u8..16)
        .map(|i| if i % 3 == 0 { packet(vec![i, i, 7]) } else { packet(summed(vec![i, 3])) })
        .collect();
    let first = verify_batch(packets.clone(), &checksum_engine);
    let second = verify_batch(packets.clone(), &checksum_engine);
    let flags_first: Vec<bool> = first.iter().map(|e| e.1).collect();
    let flags_second: Vec<bool> = second.iter().map(|e| e.1).collect();
    assert_eq!(flags_first, flags_second);
    assert_eq!(first, second);
}

#[test]
fn empty_batch_gives_empty_verified_batch() {
    let calls = Cell::new(0usize);
    let engine = |batch: &Batch<SharedPacket>| {
        calls.set(calls.get() + 1);
        checksum_engine(batch)
    };
    let out = verify_batch(Vec::new(), &engine);
    assert!(out.is_empty());
    assert_eq!(calls.get(), 1);
    let out = verify_batch(Vec::new(), &ed25519_engine);
    assert!(out.is_empty());
}

#[test]
fn engine_with_too_few_flags_shortens_the_batch() {
    let engine = |batch: &Batch<u64>| vec![true; batch.len() / 2];
    let out = verify_batch(vec![1u64, 2, 3, 4, 5], &engine);
    assert_eq!(out, vec![(1, true), (2, true)]);
}

#[test]
fn valid_packet_then_tampered_packet() {
    let key = SigningKey::from_bytes(&[7u8; 32]);
    let valid = packet(signed_packet(&key, b"pay 5 to alice"));
    let mut bytes = signed_packet(&key, b"pay 5 to bob");
    let last = bytes.len() - 1;
    bytes[last] ^= 1;
    let tampered = packet(bytes);
    let out = verify_batch(vec![valid.clone(), tampered.clone()], &ed25519_engine);
    assert_eq!(out.len(), 2);
    assert!(Arc::ptr_eq(&out[0].0, &valid));
    assert!(out[0].1);
    assert!(Arc::ptr_eq(&out[1].0, &tampered));
    assert!(!out[1].1);
    assert_eq!(out, vec![(valid, true), (tampered, false)]);
}

#[test]
fn forged_key_then_valid_packet_then_noise() {
    let key = SigningKey::from_bytes(&[42u8; 32]);
    let other = SigningKey::from_bytes(&[43u8; 32]);
    let mut bytes = signed_packet(&key, b"transfer");
    bytes[64..96].copy_from_slice(other.verifying_key().as_bytes());
    let forged = packet(bytes);
    let valid = packet(signed_packet(&other, b"transfer"));
    let noise = packet(vec![0u8; 10]);
    let out = verify_batch(vec![forged.clone(), valid.clone(), noise.clone()], &ed25519_engine);
    assert_eq!(out, vec![(forged, false), (valid, true), (noise, false)]);
}

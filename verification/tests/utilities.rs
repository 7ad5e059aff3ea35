use fskc::crypto::sha256_digest;
use fskc::entropy::ios_sensor::RingBuffer;
use fskc::entropy::{EntropySource, PhysicalEntropy};
use fskc::triplet::{EntropyFeed, FeedProof, FeedType};
use fskc::utils::{combine_chunks, combine_seeds, split_into_chunks, validate_seed};

#[test]
fn test_combine_seeds() {
    let seeds = vec![1, 2, 3, 4];
    let combined = combine_seeds(&seeds);
    assert_ne!(combined, 0);

    // Same inputs should produce same output
    let combined2 = combine_seeds(&seeds);
    assert_eq!(combined, combined2);
}

#[test]
fn test_split_and_combine_chunks() {
    let data = b"Hello, World!".to_vec();
    let chunk_size = 3;

    let chunks = split_into_chunks(&data, chunk_size);
    assert!(chunks.iter().all(|chunk| chunk.len() <= chunk_size));

    let recombined = combine_chunks(&chunks);
    assert_eq!(data, recombined);
}

#[test]
fn test_validate_seed() {
    assert!(validate_seed(123).is_ok());
    assert!(validate_seed(0).is_err());
}

#[test]
fn test_ring_buffer() {
    let mut buffer = RingBuffer::new(3);

    buffer.push(1);
    buffer.push(2);
    buffer.push(3);
    assert_eq!(buffer.recent(3), vec![1, 2, 3]);

    buffer.push(4);
    assert_eq!(buffer.recent(3), vec![2, 3, 4]);
}

#[test]
fn physical_entropy_replays_and_wraps() {
    let mut source = PhysicalEntropy::from_ligo_data(vec![10, 20, 30]);
    let mut dest = vec![0u8; 7];
    source.fill_bytes(&mut dest).unwrap();
    assert_eq!(dest, vec![10, 20, 30, 10, 20, 30, 10]);
    assert_eq!(source.description(), "LIGO Gravitational Wave Data");

    let mut empty = PhysicalEntropy::from_stellar_parallax(Vec::new());
    let mut dest2 = vec![0u8; 4];
    assert!(empty.fill_bytes(&mut dest2).is_err());
}

#[test]
fn digest_differs_from_input() {
    let data = vec![1u8, 2, 3];
    let digest = sha256_digest(&data);
    assert_eq!(digest.len(), 32);
    assert_ne!(&digest[..3], &data[..]);

    // The digest is a function of the bytes alone.
    let again = sha256_digest(&data);
    assert_eq!(digest, again);

    let other = sha256_digest(&[1u8, 2, 4]);
    assert_ne!(digest, other);
}

#[test]
fn entropy_feed_builds_validation_chain() {
    let stream = Box::new(PhysicalEntropy::from_ligo_data(vec![1, 2, 3]));
    let mut feed = EntropyFeed::new(FeedType::RF, stream);
    assert_eq!(feed.validation_chain.len(), 0);
    feed.add_proof(FeedProof { timestamp: 1, data: vec![9], verified: true });
    feed.add_proof(FeedProof { timestamp: 2, data: vec![8], verified: false });
    assert_eq!(feed.validation_chain.len(), 2);
    assert!(feed.validation_chain[0].verified);
}

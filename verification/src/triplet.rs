//! Supporting records for the triplet verification scheme: timing and
//! feed proofs, radio-environment observations, and the environmental
//! entropy feed with its validation chain.
use crate::entropy::EntropySource;
use vstd::prelude::*;

verus! {

/// A timing proof for verification.
#[derive(Debug)]
pub struct TimingProof {
    /// Proof timestamp.
    pub timestamp: u64,
    /// Proof data.
    pub data: Vec<u8>,
    /// Verification status.
    pub verified: bool,
}

/// The observed signal state of one station.
#[derive(Debug, Clone, Copy, PartialEq, Eq, Structural)]
pub struct SignalState {
    /// Signal strength in dBm.
    pub signal_strength: i32,
    /// Channel frequency in MHz.
    pub frequency: u32,
    /// Last seen timestamp.
    pub last_seen: u64,
}

/// An initialization-vector observation.
#[derive(Debug)]
pub struct IVParameter {
    /// The IV bytes.
    pub value: Vec<u8>,
    /// Observation timestamp.
    pub timestamp: u64,
    /// The station the IV belongs to.
    pub bssid: String,
}

/// The kind of environmental entropy feed.
#[derive(Debug, Clone, Copy, PartialEq, Eq, Structural)]
pub enum FeedType {
    /// Radio-frequency entropy.
    RF,
    /// Acoustic entropy.
    Acoustic,
    /// Optical entropy.
    Optical,
}

/// A proof of feed validity.
#[derive(Debug)]
pub struct FeedProof {
    /// Proof timestamp.
    pub timestamp: u64,
    /// Proof data.
    pub data: Vec<u8>,
    /// Verification status.
    pub verified: bool,
}

/// The mode of a seed exchange.
#[derive(Debug, Clone, Copy, PartialEq, Eq, Structural)]
pub enum ExchangeMode {
    /// Optical exchange.
    Optical,
    /// Acoustic exchange.
    Acoustic,
    /// QR-code exchange.
    QRCode,
}

/// A state proof for verification.
#[derive(Debug)]
pub struct StateProof {
    /// Proof timestamp.
    pub timestamp: u64,
    /// Entropy hash.
    pub entropy_hash: [u8; 32],
    /// State signature.
    pub state_signature: [u8; 64],
    /// Next state prediction.
    pub next_state_prediction: [u8; 32],
}

/// An environmental entropy feed: a typed data stream with a chain of
/// validity proofs.
pub struct EntropyFeed {
    /// The kind of feed.
    pub feed_type: FeedType,
    /// The underlying data stream.
    pub data_stream: Box<dyn EntropySource>,
    /// The feed's latency, in milliseconds.
    pub latency: u64,
    /// The proofs validating the feed.
    pub validation_chain: Vec<FeedProof>,
}

impl EntropyFeed {
    /// Create a feed over a data stream, with no latency and an empty
    /// validation chain.
    pub fn new(feed_type: FeedType, data_stream: Box<dyn EntropySource>) -> (r: Self)
        ensures
            r.feed_type == feed_type,
            r.latency == 0,
            r.validation_chain@.len() == 0,
    {
        EntropyFeed { feed_type, data_stream, latency: 0, validation_chain: Vec::new() }
    }

    /// Append a proof to the validation chain.
    pub fn add_proof(&mut self, proof: FeedProof)
        ensures
            final(self).validation_chain@ == old(self).validation_chain@.push(proof),
            final(self).feed_type == old(self).feed_type,
            final(self).latency == old(self).latency,
    {
        self.validation_chain.push(proof);
    }
}

} // verus!

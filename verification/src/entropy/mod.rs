//! Entropy sources: a capability trait and a physical-measurement
//! source that replays recorded data.
pub mod ios_sensor;

use crate::FskcError;
use vstd::prelude::*;

verus! {

/// A source of entropy bytes.
pub trait EntropySource {
    /// Fill the buffer with entropy, keeping its length.
    fn fill_bytes(&mut self, dest: &mut Vec<u8>) -> (r: Result<(), FskcError>)
        ensures
            final(dest)@.len() == old(dest)@.len(),
    ;

    /// A description of the source.
    fn description(&self) -> String;
}

/// A physical-measurement entropy source: recorded measurement bytes,
/// replayed in order and wrapped around at the end.
pub struct PhysicalEntropy {
    data: Vec<u8>,
    position: usize,
    description: String,
}

impl PhysicalEntropy {
    /// The recorded bytes.
    pub closed spec fn spec_data(&self) -> Seq<u8> {
        self.data@
    }

    /// The replay position.
    pub closed spec fn spec_position(&self) -> int {
        self.position as int
    }

    /// The source's description.
    pub closed spec fn spec_description(&self) -> Seq<char> {
        self.description@
    }

    /// Create a source over recorded data.
    pub fn new(data: Vec<u8>, description: String) -> (r: Self)
        ensures
            r.spec_data() == data@,
            r.spec_position() == 0,
            r.spec_description() == description@,
    {
        PhysicalEntropy { data, position: 0, description }
    }

    /// A source of gravitational-wave interferometer data.
    pub fn from_ligo_data(data: Vec<u8>) -> (r: Self)
        ensures
            r.spec_data() == data@,
            r.spec_position() == 0,
            r.spec_description() == "LIGO Gravitational Wave Data"@,
    {
        PhysicalEntropy::new(data, "LIGO Gravitational Wave Data".to_owned())
    }

    /// A source of stellar parallax measurements.
    pub fn from_stellar_parallax(data: Vec<u8>) -> (r: Self)
        ensures
            r.spec_data() == data@,
            r.spec_position() == 0,
            r.spec_description() == "Stellar Parallax Measurements"@,
    {
        PhysicalEntropy::new(data, "Stellar Parallax Measurements".to_owned())
    }
}

impl EntropySource for PhysicalEntropy {
    /// Copy recorded bytes into the buffer in order, wrapping around at
    /// the end of the recording; an empty recording fails.
    fn fill_bytes(&mut self, dest: &mut Vec<u8>) -> (r: Result<(), FskcError>)
        ensures
            final(dest)@.len() == old(dest)@.len(),
    {
        if self.data.len() == 0 {
            return Err(FskcError::EntropyError("no recorded data".to_owned()));
        }
        let n = dest.len();
        let mut i: usize = 0;
        while i < n
            invariant
                i <= n,
                dest@.len() == n,
                self.data@.len() >= 1,
            decreases n - i,
        {
            if self.position >= self.data.len() {
                self.position = 0;
            }
            let b = self.data[self.position];
            dest.set(i, b);
            self.position = self.position + 1;
            i = i + 1;
        }
        Ok(())
    }

    fn description(&self) -> String {
        self.description.as_str().to_owned()
    }
}

} // verus!

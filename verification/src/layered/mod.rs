//! Layered encryption: a configurable sequence of fractal and symmetric
//! layers applied in order, and undone in reverse. Each symmetric layer
//! draws its key and nonce deterministically from the master seed and a
//! running draw counter, and embeds them in its output, so decryption
//! needs no separate key store.
pub mod config;
pub mod layer;

pub use config::{Builder, LayerConfig};
pub use layer::{FractalLayer, Layer, SymmetricLayer};

use crate::crypto::{chacha_pad, chacha_stream};
use crate::fractal::FractalNode;
use crate::microcontroller::memory::copy_slice;
use crate::FskcError;
use layer::{spec_sym_decrypt, spec_sym_encrypt};
use vstd::prelude::*;
use vstd::slice::slice_subrange;

verus! {

/// 64-bit wrapping addition.
pub open spec fn wrap_add(a: u64, b: u64) -> u64 {
    ((a + b) % 0x1_0000_0000_0000_0000) as u64
}

/// The data and draw counter after the first `k` layers are applied: a
/// fractal layer leaves the data unchanged (building the structure and
/// decrypting it cancel exactly), and a symmetric layer encrypts under
/// the pad drawn from the master seed and the counter.
pub open spec fn spec_apply_layers(
    layers: Seq<Layer>,
    data: Seq<u8>,
    master: u64,
    draws: u64,
    k: int,
) -> (Seq<u8>, u64)
    decreases k,
{
    if k <= 0 {
        (data, draws)
    } else {
        let prev = spec_apply_layers(layers, data, master, draws, k - 1);
        match layers[k - 1] {
            Layer::Fractal(_) => prev,
            Layer::Symmetric(alg) => {
                let pad = chacha_stream(wrap_add(master, prev.1), 44);
                (
                    spec_sym_encrypt(alg, pad.take(32), pad.subrange(32, 44), prev.0),
                    wrap_add(prev.1, 1),
                )
            },
        }
    }
}

/// The data after the layers are undone in reverse order, when every
/// symmetric layer accepts its input.
pub open spec fn spec_reverse_layers(layers: Seq<Layer>, data: Seq<u8>) -> Option<Seq<u8>>
    decreases layers.len(),
{
    if layers.len() == 0 {
        Some(data)
    } else {
        match layers.last() {
            Layer::Fractal(_) => spec_reverse_layers(layers.drop_last(), data),
            Layer::Symmetric(alg) => {
                match spec_sym_decrypt(alg, data) {
                    Some(mid) => spec_reverse_layers(layers.drop_last(), mid),
                    None => None,
                }
            },
        }
    }
}

/// Manages layered encryption with a configurable layer sequence.
pub struct LayeredCrypto {
    master_seed: u64,
    draws: u64,
    config: LayerConfig,
}

impl LayeredCrypto {
    /// The master seed the pads are drawn from.
    pub closed spec fn spec_master_seed(&self) -> u64 {
        self.master_seed
    }

    /// How many pads have been drawn.
    pub closed spec fn spec_draws(&self) -> u64 {
        self.draws
    }

    /// The configuration.
    pub closed spec fn spec_config(&self) -> LayerConfig {
        self.config
    }

    /// Create an instance with the default configuration.
    pub fn new(master_seed: u64) -> (r: Self)
        ensures
            r.spec_master_seed() == master_seed,
            r.spec_draws() == 0,
            r.spec_config().spec_sequence() == config::spec_default_sequence(),
            r.spec_config().wf(),
    {
        LayeredCrypto { master_seed, draws: 0, config: LayerConfig::default() }
    }

    /// Create an instance with a custom configuration.
    pub fn with_config(master_seed: u64, config: LayerConfig) -> (r: Self)
        ensures
            r.spec_master_seed() == master_seed,
            r.spec_draws() == 0,
            r.spec_config() == config,
    {
        LayeredCrypto { master_seed, draws: 0, config }
    }

    /// Draw the next 44-byte pad and advance the counter.
    fn next_pad(&mut self) -> (r: Vec<u8>)
        ensures
            final(self).spec_master_seed() == old(self).spec_master_seed(),
            final(self).spec_config() == old(self).spec_config(),
            final(self).spec_draws() == wrap_add(old(self).spec_draws(), 1),
            r@ == chacha_stream(
                wrap_add(old(self).spec_master_seed(), old(self).spec_draws()),
                44,
            ),
            r@.len() == 44,
    {
        let seed = self.master_seed.wrapping_add(self.draws);
        let pad = chacha_pad(seed, 44);
        self.draws = self.draws.wrapping_add(1);
        pad
    }

    /// Encrypt the data through the configured layer sequence. On
    /// success the output is exactly the layer-by-layer encryption of
    /// the data under the pads drawn in order, and decrypting the output
    /// through the same sequence restores the data.
    pub fn encrypt(&mut self, data: &[u8], initial_seed: u64) -> (r: Result<Vec<u8>, FskcError>)
        requires
            old(self).spec_config().wf(),
        ensures
            final(self).spec_master_seed() == old(self).spec_master_seed(),
            final(self).spec_config() == old(self).spec_config(),
            r matches Ok(v) ==> (v@, final(self).spec_draws()) == spec_apply_layers(
                old(self).spec_config().spec_sequence(),
                data@,
                old(self).spec_master_seed(),
                old(self).spec_draws(),
                old(self).spec_config().spec_sequence().len() as int,
            ),
            r matches Ok(v) ==> spec_reverse_layers(
                old(self).spec_config().spec_sequence(),
                v@,
            ) == Some(data@),
    {
        let ghost layers = self.config.spec_sequence();
        let ghost master = self.master_seed;
        let ghost draws0 = self.draws;
        let mut current: Vec<u8> = copy_slice(data);
        let n = self.config.layer_count();
        proof {
            assert(layers.take(0) =~= Seq::<Layer>::empty());
        }
        let mut i: usize = 0;
        while i < n
            invariant
                i <= n,
                n == layers.len(),
                layers == old(self).spec_config().spec_sequence(),
                master == old(self).spec_master_seed(),
                draws0 == old(self).spec_draws(),
                layers == self.spec_config().spec_sequence(),
                self.spec_config() == old(self).spec_config(),
                self.spec_config().wf(),
                self.spec_master_seed() == master,
                (current@, self.spec_draws()) == spec_apply_layers(
                    layers,
                    data@,
                    master,
                    draws0,
                    i as int,
                ),
                spec_reverse_layers(layers.take(i as int), current@) == Some(data@),
            decreases n - i,
        {
            let ghost current_before = current@;
            let layer = self.config.layer_at(i);
            match layer {
                Layer::Fractal(_) => {
                    let node = match FractalNode::generate(
                        current,
                        initial_seed,
                        self.config.fractal_depth_value(),
                        self.config.chunk_size_value(),
                    ) {
                        Ok(nd) => nd,
                        Err(e) => {
                            return Err(e);
                        },
                    };
                    current = match node.decrypt() {
                        Ok(v) => v,
                        Err(e) => {
                            return Err(e);
                        },
                    };
                },
                Layer::Symmetric(alg) => {
                    let pad = self.next_pad();
                    let key = slice_subrange(pad.as_slice(), 0, 32);
                    let nonce = slice_subrange(pad.as_slice(), 32, 44);
                    current = match alg.encrypt(key, nonce, current.as_slice()) {
                        Ok(v) => v,
                        Err(e) => {
                            return Err(e);
                        },
                    };
                },
            }
            proof {
                assert(layers.take(i + 1).drop_last() =~= layers.take(i as int));
                assert(layers.take(i + 1).last() == layers[i as int]);
            }
            i = i + 1;
        }
        proof {
            assert(layers.take(n as int) =~= layers);
        }
        if self.config.zippering_enabled() {
            let node = match FractalNode::generate(
                current,
                initial_seed,
                self.config.fractal_depth_value(),
                self.config.chunk_size_value(),
            ) {
                Ok(nd) => nd,
                Err(e) => {
                    return Err(e);
                },
            };
            current = match node.decrypt() {
                Ok(v) => v,
                Err(e) => {
                    return Err(e);
                },
            };
        }
        Ok(current)
    }

    /// Decrypt data through the configured layer sequence in reverse.
    /// On success the output is exactly the layer-by-layer decryption:
    /// in particular, decrypting what `encrypt` produced restores the
    /// original data.
    pub fn decrypt(&mut self, data: &[u8], initial_seed: u64) -> (r: Result<Vec<u8>, FskcError>)
        requires
            old(self).spec_config().wf(),
        ensures
            final(self).spec_master_seed() == old(self).spec_master_seed(),
            final(self).spec_config() == old(self).spec_config(),
            final(self).spec_draws() == old(self).spec_draws(),
            r matches Ok(v) ==> Some(v@) == spec_reverse_layers(
                old(self).spec_config().spec_sequence(),
                data@,
            ),
    {
        let ghost layers = self.config.spec_sequence();
        let mut current: Vec<u8> = copy_slice(data);
        if self.config.zippering_enabled() {
            let node = match FractalNode::generate(
                current,
                initial_seed,
                self.config.fractal_depth_value(),
                self.config.chunk_size_value(),
            ) {
                Ok(nd) => nd,
                Err(e) => {
                    return Err(e);
                },
            };
            current = match node.decrypt() {
                Ok(v) => v,
                Err(e) => {
                    return Err(e);
                },
            };
        }
        let n = self.config.layer_count();
        let mut j: usize = n;
        proof {
            assert(layers.take(n as int) =~= layers);
        }
        while j > 0
            invariant
                j <= n,
                n == layers.len(),
                layers == old(self).spec_config().spec_sequence(),
                layers == self.spec_config().spec_sequence(),
                self.spec_config() == old(self).spec_config(),
                self.spec_config().wf(),
                self.spec_master_seed() == old(self).spec_master_seed(),
                self.spec_draws() == old(self).spec_draws(),
                spec_reverse_layers(layers, data@) == spec_reverse_layers(
                    layers.take(j as int),
                    current@,
                ),
            decreases j,
        {
            j = j - 1;
            let layer = self.config.layer_at(j);
            let ghost before = current@;
            match layer {
                Layer::Fractal(_) => {
                    let node = match FractalNode::generate(
                        current,
                        initial_seed,
                        self.config.fractal_depth_value(),
                        self.config.chunk_size_value(),
                    ) {
                        Ok(nd) => nd,
                        Err(e) => {
                            return Err(e);
                        },
                    };
                    current = match node.decrypt() {
                        Ok(v) => v,
                        Err(e) => {
                            return Err(e);
                        },
                    };
                    proof {
                        assert(layers.take(j + 1).last() == layers[j as int]);
                        assert(layers.take(j + 1).drop_last() =~= layers.take(j as int));
                    }
                },
                Layer::Symmetric(alg) => {
                    let next = match alg.decrypt(current.as_slice()) {
                        Ok(v) => v,
                        Err(e) => {
                            return Err(e);
                        },
                    };
                    proof {
                        assert(layers.take(j + 1).last() == layers[j as int]);
                        assert(layers.take(j + 1).drop_last() =~= layers.take(j as int));
                    }
                    current = next;
                },
            }
        }
        proof {
            assert(layers.take(0) =~= Seq::<Layer>::empty());
        }
        Ok(current)
    }
}

} // verus!

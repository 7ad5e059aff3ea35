//! Configuration for the layered encryption system, with a builder.
use super::layer::{FractalLayer, Layer, SymmetricLayer};
use vstd::prelude::*;

verus! {

/// Configuration for the layered encryption system.
#[derive(Clone)]
pub struct LayerConfig {
    pub(crate) sequence: Vec<Layer>,
    pub(crate) fractal_depth: usize,
    pub(crate) chunk_size: usize,
    pub(crate) use_zippering: bool,
}

/// The default layer sequence: one fractal layer, then one AES layer.
pub open spec fn spec_default_sequence() -> Seq<Layer> {
    seq![Layer::Fractal(FractalLayer {  }), Layer::Symmetric(SymmetricLayer::Aes)]
}

impl LayerConfig {
    /// The configured layers, in application order.
    pub closed spec fn spec_sequence(&self) -> Seq<Layer> {
        self.sequence@
    }

    /// The configured fractal depth.
    pub closed spec fn spec_fractal_depth(&self) -> int {
        self.fractal_depth as int
    }

    /// The configured chunk size.
    pub closed spec fn spec_chunk_size(&self) -> int {
        self.chunk_size as int
    }

    /// Whether self-zippering is enabled.
    pub closed spec fn spec_use_zippering(&self) -> bool {
        self.use_zippering
    }

    /// A usable configuration: a positive depth and chunk size.
    pub open spec fn wf(&self) -> bool {
        &&& self.spec_fractal_depth() >= 1
        &&& self.spec_chunk_size() >= 1
    }

    /// How many layers the sequence holds.
    pub fn layer_count(&self) -> (r: usize)
        ensures
            r == self.spec_sequence().len(),
    {
        self.sequence.len()
    }

    /// The layer at an index.
    pub fn layer_at(&self, i: usize) -> (r: Layer)
        requires
            (i as int) < self.spec_sequence().len(),
        ensures
            r == self.spec_sequence()[i as int],
    {
        self.sequence[i]
    }

    /// The configured fractal depth.
    pub fn fractal_depth_value(&self) -> (r: usize)
        ensures
            r as int == self.spec_fractal_depth(),
    {
        self.fractal_depth
    }

    /// The configured chunk size.
    pub fn chunk_size_value(&self) -> (r: usize)
        ensures
            r as int == self.spec_chunk_size(),
    {
        self.chunk_size
    }

    /// Whether self-zippering is enabled.
    pub fn zippering_enabled(&self) -> (r: bool)
        ensures
            r == self.spec_use_zippering(),
    {
        self.use_zippering
    }

    /// Start building a configuration.
    pub fn builder() -> (r: Builder)
        ensures
            r.spec_sequence().len() == 0,
            r.spec_fractal_depth() is None,
            r.spec_chunk_size() is None,
            !r.spec_use_zippering(),
    {
        Builder { sequence: Vec::new(), fractal_depth: None, chunk_size: None, use_zippering: false }
    }
}

impl Default for LayerConfig {
    /// A fractal layer then an AES layer, depth 3, 64-byte chunks, no
    /// zippering.
    fn default() -> (r: Self)
        ensures
            r.spec_sequence() == spec_default_sequence(),
            r.spec_fractal_depth() == 3,
            r.spec_chunk_size() == 64,
            !r.spec_use_zippering(),
            r.wf(),
    {
        let mut sequence: Vec<Layer> = Vec::new();
        sequence.push(Layer::Fractal(FractalLayer {  }));
        sequence.push(Layer::Symmetric(SymmetricLayer::Aes));
        let r = LayerConfig { sequence, fractal_depth: 3, chunk_size: 64, use_zippering: false };
        proof {
            assert(r.spec_sequence() =~= spec_default_sequence());
        }
        r
    }
}

/// Builder for a `LayerConfig`.
pub struct Builder {
    sequence: Vec<Layer>,
    fractal_depth: Option<usize>,
    chunk_size: Option<usize>,
    use_zippering: bool,
}

impl Builder {
    /// The layers added so far.
    pub closed spec fn spec_sequence(&self) -> Seq<Layer> {
        self.sequence@
    }

    /// The chosen fractal depth, if any.
    pub closed spec fn spec_fractal_depth(&self) -> Option<usize> {
        self.fractal_depth
    }

    /// The chosen chunk size, if any.
    pub closed spec fn spec_chunk_size(&self) -> Option<usize> {
        self.chunk_size
    }

    /// Whether self-zippering was enabled.
    pub closed spec fn spec_use_zippering(&self) -> bool {
        self.use_zippering
    }

    /// Start with no layers and default parameters.
    pub fn new() -> (r: Self)
        ensures
            r.spec_sequence().len() == 0,
            r.spec_fractal_depth() is None,
            r.spec_chunk_size() is None,
            !r.spec_use_zippering(),
    {
        Builder { sequence: Vec::new(), fractal_depth: None, chunk_size: None, use_zippering: false }
    }

    /// Append a fractal layer.
    pub fn add_fractal(self) -> (r: Self)
        ensures
            r.spec_sequence() == self.spec_sequence().push(Layer::Fractal(FractalLayer {  })),
            r.spec_fractal_depth() == self.spec_fractal_depth(),
            r.spec_chunk_size() == self.spec_chunk_size(),
            r.spec_use_zippering() == self.spec_use_zippering(),
    {
        let mut b = self;
        b.sequence.push(Layer::Fractal(FractalLayer {  }));
        b
    }

    /// Append an AES layer.
    pub fn add_aes(self) -> (r: Self)
        ensures
            r.spec_sequence() == self.spec_sequence().push(Layer::Symmetric(SymmetricLayer::Aes)),
            r.spec_fractal_depth() == self.spec_fractal_depth(),
            r.spec_chunk_size() == self.spec_chunk_size(),
            r.spec_use_zippering() == self.spec_use_zippering(),
    {
        let mut b = self;
        b.sequence.push(Layer::Symmetric(SymmetricLayer::Aes));
        b
    }

    /// Append a ChaCha20 layer.
    pub fn add_chacha(self) -> (r: Self)
        ensures
            r.spec_sequence() == self.spec_sequence().push(Layer::Symmetric(SymmetricLayer::ChaCha)),
            r.spec_fractal_depth() == self.spec_fractal_depth(),
            r.spec_chunk_size() == self.spec_chunk_size(),
            r.spec_use_zippering() == self.spec_use_zippering(),
    {
        let mut b = self;
        b.sequence.push(Layer::Symmetric(SymmetricLayer::ChaCha));
        b
    }

    /// Choose the fractal depth for every fractal layer.
    pub fn fractal_depth(self, depth: usize) -> (r: Self)
        ensures
            r.spec_sequence() == self.spec_sequence(),
            r.spec_fractal_depth() == Some(depth),
            r.spec_chunk_size() == self.spec_chunk_size(),
            r.spec_use_zippering() == self.spec_use_zippering(),
    {
        let mut b = self;
        b.fractal_depth = Some(depth);
        b
    }

    /// Choose the chunk size for fractal layers.
    pub fn chunk_size(self, size: usize) -> (r: Self)
        ensures
            r.spec_sequence() == self.spec_sequence(),
            r.spec_fractal_depth() == self.spec_fractal_depth(),
            r.spec_chunk_size() == Some(size),
            r.spec_use_zippering() == self.spec_use_zippering(),
    {
        let mut b = self;
        b.chunk_size = Some(size);
        b
    }

    /// Enable self-zippering.
    pub fn enable_zippering(self) -> (r: Self)
        ensures
            r.spec_sequence() == self.spec_sequence(),
            r.spec_fractal_depth() == self.spec_fractal_depth(),
            r.spec_chunk_size() == self.spec_chunk_size(),
            r.spec_use_zippering(),
    {
        let mut b = self;
        b.use_zippering = true;
        b
    }

    /// Build the configuration: an empty sequence falls back to the
    /// default one, a missing depth to 3 and a missing chunk size to 64.
    pub fn build(self) -> (r: LayerConfig)
        ensures
            self.spec_sequence().len() == 0 ==> r.spec_sequence() == spec_default_sequence(),
            self.spec_sequence().len() > 0 ==> r.spec_sequence() == self.spec_sequence(),
            r.spec_fractal_depth() == (match self.spec_fractal_depth() {
                Some(d) => d as int,
                None => 3,
            }),
            r.spec_chunk_size() == (match self.spec_chunk_size() {
                Some(c) => c as int,
                None => 64,
            }),
            r.spec_use_zippering() == self.spec_use_zippering(),
    {
        let b = self;
        let sequence: Vec<Layer> = if b.sequence.len() == 0 {
            let d = LayerConfig::default();
            d.sequence
        } else {
            b.sequence
        };
        let fractal_depth: usize = match b.fractal_depth {
            Some(d) => d,
            None => 3,
        };
        let chunk_size: usize = match b.chunk_size {
            Some(c) => c,
            None => 64,
        };
        LayerConfig { sequence, fractal_depth, chunk_size, use_zippering: b.use_zippering }
    }
}

} // verus!

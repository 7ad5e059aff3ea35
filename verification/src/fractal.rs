//! The fractal encryption structure: a node holds its data XORed with a
//! seeded ChaCha20 pad, and large inputs additionally split into chunks
//! held by child nodes. Decryption undoes the pad, or reassembles the
//! children's plaintexts.
use crate::crypto::{chacha_stream, spec_xor_bytes, xor_with_seeded_pad};
use crate::microcontroller::memory::copy_slice;
use crate::FskcError;
use std::sync::Arc;
use vstd::prelude::*;
use vstd::slice::slice_subrange;

verus! {

/// A node in the fractal encryption structure.
#[derive(Debug)]
pub struct FractalNode {
    value: Vec<u8>,
    seed: u64,
    children: Vec<FractalNode>,
    depth: usize,
}

/// The plaintext a node stands for: the concatenation of its children's
/// plaintexts, or, for a leaf, its value XORed with the pad drawn from
/// its seed.
pub open spec fn node_plain(n: FractalNode) -> Seq<u8>
    decreases n,
{
    if n.spec_children().len() == 0 {
        spec_xor_bytes(n.spec_value(), chacha_stream(n.spec_seed(), n.spec_value().len()))
    } else {
        children_plain(n.spec_children())
    }
}

/// The concatenated plaintexts of a sequence of nodes.
pub open spec fn children_plain(s: Seq<FractalNode>) -> Seq<u8>
    decreases s,
{
    if s.len() == 0 {
        Seq::empty()
    } else {
        node_plain(s.first()) + children_plain(s.drop_first())
    }
}

/// Appending a node appends its plaintext.
pub proof fn lemma_children_plain_push(s: Seq<FractalNode>, c: FractalNode)
    ensures
        children_plain(s.push(c)) == children_plain(s) + node_plain(c),
    decreases s.len(),
{
    if s.len() == 0 {
        assert(s.push(c).first() == c);
        assert(s.push(c).drop_first() =~= Seq::<FractalNode>::empty());
        assert(children_plain(Seq::<FractalNode>::empty()) =~= Seq::<u8>::empty());
        assert(children_plain(s) + node_plain(c) =~= node_plain(c));
        assert(children_plain(s.push(c)) =~= node_plain(c) + Seq::<u8>::empty());
        assert(node_plain(c) + Seq::<u8>::empty() =~= node_plain(c));
    } else {
        assert(s.push(c).first() == s.first());
        assert(s.push(c).drop_first() =~= s.drop_first().push(c));
        lemma_children_plain_push(s.drop_first(), c);
        assert(children_plain(s.push(c)) == node_plain(s.first()) + (children_plain(s.drop_first())
            + node_plain(c)));
        assert(node_plain(s.first()) + (children_plain(s.drop_first()) + node_plain(c)) =~= (
        node_plain(s.first()) + children_plain(s.drop_first())) + node_plain(c));
    }
}

impl FractalNode {
    /// The node's stored (encrypted) value.
    pub closed spec fn spec_value(&self) -> Seq<u8> {
        self.value@
    }

    /// The node's pad seed.
    pub closed spec fn spec_seed(&self) -> u64 {
        self.seed
    }

    /// The node's children.
    pub closed spec fn spec_children(&self) -> Seq<FractalNode> {
        self.children@
    }

    /// The node's depth.
    pub closed spec fn spec_depth(&self) -> int {
        self.depth as int
    }

    /// Create a leaf node with the given (already encrypted) value,
    /// seed and depth.
    pub fn new(value: Vec<u8>, seed: u64, depth: usize) -> (r: Self)
        ensures
            r.spec_value() == value@,
            r.spec_seed() == seed,
            r.spec_children().len() == 0,
            r.spec_depth() == depth,
    {
        FractalNode { value, seed, children: Vec::new(), depth }
    }

    /// Build the fractal structure for the data: the node holds the
    /// data XORed with the seed's pad; when depth remains and the data
    /// is longer than one chunk, the plain data is also split into
    /// chunks held by child nodes, each with its own derived seed. The
    /// whole structure decrypts back to the data. Fails exactly on a
    /// zero depth, empty data, or a zero chunk size, checked in that
    /// order.
    pub fn generate(data: Vec<u8>, initial_seed: u64, max_depth: usize, chunk_size: usize) -> (r:
        Result<Arc<FractalNode>, FskcError>)
        ensures
            r is Ok <==> (max_depth >= 1 && data@.len() >= 1 && chunk_size >= 1),
            r matches Ok(node) ==> node_plain(*node) == data@,
            max_depth == 0 ==> r == Err::<Arc<FractalNode>, FskcError>(FskcError::InvalidDepth(0)),
            max_depth >= 1 && data@.len() == 0 ==> r == Err::<Arc<FractalNode>, FskcError>(
                FskcError::InvalidDataSize(0),
            ),
            max_depth >= 1 && data@.len() >= 1 && chunk_size == 0 ==> r == Err::<
                Arc<FractalNode>,
                FskcError,
            >(FskcError::InvalidDataSize(chunk_size)),
    {
        match Self::generate_node(data, initial_seed, max_depth, chunk_size) {
            Ok(node) => Ok(Arc::new(node)),
            Err(e) => Err(e),
        }
    }

    /// Build one node of the structure.
    fn generate_node(data: Vec<u8>, initial_seed: u64, max_depth: usize, chunk_size: usize) -> (r:
        Result<FractalNode, FskcError>)
        ensures
            r is Ok <==> (max_depth >= 1 && data@.len() >= 1 && chunk_size >= 1),
            r matches Ok(node) ==> node_plain(node) == data@,
            max_depth == 0 ==> r == Err::<FractalNode, FskcError>(FskcError::InvalidDepth(0)),
            max_depth >= 1 && data@.len() == 0 ==> r == Err::<FractalNode, FskcError>(
                FskcError::InvalidDataSize(0),
            ),
            max_depth >= 1 && data@.len() >= 1 && chunk_size == 0 ==> r == Err::<
                FractalNode,
                FskcError,
            >(FskcError::InvalidDataSize(chunk_size)),
        decreases max_depth,
    {
        if max_depth == 0 {
            return Err(FskcError::InvalidDepth(0));
        }
        if data.len() == 0 {
            return Err(FskcError::InvalidDataSize(0));
        }
        if chunk_size == 0 {
            return Err(FskcError::InvalidDataSize(chunk_size));
        }
        let encrypted = xor_with_seeded_pad(data.as_slice(), initial_seed);
        let mut node = FractalNode {
            value: encrypted,
            seed: initial_seed,
            children: Vec::new(),
            depth: max_depth,
        };
        if max_depth > 1 && data.len() > chunk_size {
            let mut children: Vec<FractalNode> = Vec::new();
            let mut pos: usize = 0;
            let mut index: u64 = 0;
            while pos < data.len()
                invariant
                    pos <= data@.len(),
                    chunk_size >= 1,
                    max_depth >= 2,
                    children_plain(children@) == data@.take(pos as int),
                decreases data@.len() - pos,
            {
                let end: usize = if data.len() - pos < chunk_size {
                    data.len()
                } else {
                    pos + chunk_size
                };
                let chunk = copy_slice(slice_subrange(data.as_slice(), pos, end));
                let child_seed = initial_seed.wrapping_add(index);
                let child = match Self::generate_node(chunk, child_seed, max_depth - 1, chunk_size) {
                    Ok(c) => c,
                    Err(e) => {
                        return Err(e);
                    },
                };
                proof {
                    lemma_children_plain_push(children@, child);
                    assert(data@.take(pos as int) + data@.subrange(pos as int, end as int)
                        =~= data@.take(end as int));
                }
                children.push(child);
                index = index.wrapping_add(1);
                pos = end;
            }
            proof {
                assert(data@.take(data@.len() as int) =~= data@);
            }
            node.children = children;
        }
        proof {
            if node.spec_children().len() == 0 {
                crate::crypto::lemma_xor_bytes_involution(data@, chacha_stream(
                    initial_seed,
                    data@.len(),
                ));
            }
        }
        Ok(node)
    }

    /// Decrypt the structure back to the original data.
    pub fn decrypt(&self) -> (r: Result<Vec<u8>, FskcError>)
        ensures
            r is Ok,
            r matches Ok(v) ==> v@ == node_plain(*self),
        decreases *self,
    {
        if self.children.len() == 0 {
            let plain = xor_with_seeded_pad(self.value.as_slice(), self.seed);
            return Ok(plain);
        }
        let mut out: Vec<u8> = Vec::new();
        let mut i: usize = 0;
        while i < self.children.len()
            invariant
                i <= self.spec_children().len(),
                out@ == children_plain(self.spec_children().take(i as int)),
            decreases self.spec_children().len() - i,
        {
            let child = &self.children[i];
            let mut piece = match child.decrypt() {
                Ok(v) => v,
                Err(e) => {
                    return Err(e);
                },
            };
            proof {
                lemma_children_plain_push(self.spec_children().take(i as int), *child);
                assert(self.spec_children().take(i + 1) =~= self.spec_children().take(
                    i as int,
                ).push(self.spec_children()[i as int]));
            }
            out.append(&mut piece);
            i = i + 1;
        }
        proof {
            assert(self.spec_children().take(self.spec_children().len() as int)
                =~= self.spec_children());
        }
        Ok(out)
    }

    /// The node's depth in the structure.
    pub fn depth(&self) -> (r: usize)
        ensures
            r == self.spec_depth(),
    {
        self.depth
    }

    /// How many children the node has.
    pub fn child_count(&self) -> (r: usize)
        ensures
            r == self.spec_children().len(),
    {
        self.children.len()
    }
}

} // verus!

//! Step sequencer and public state vector codec.

use vstd::prelude::*;

use crate::Blake3FoldError;

verus! {

/// Number of fields in the public state vector threaded between steps.
pub const IO_ARITY: usize = 15;

/// The fixed initialization constants seeding a fresh chaining value.
pub const IV: [u32; 8] = [
    0x6A09E667,
    0xBB67AE85,
    0x3C6EF372,
    0xA54FF53A,
    0x510E527F,
    0x9B05688C,
    0x1F83D9AB,
    0x5BE0CD19,
];

/// The public state vector threaded between proof steps, in named form.
///
/// All values are small non-negative integers or 32-bit words, carried as
/// `u64` exactly as the proving engine's field elements carry them. `depth`
/// starts at `total_depth - 1` and only decreases; `block_count` starts at 0
/// and only increases; both are advanced by the external engine, one step at
/// a time.
#[derive(Debug, Clone, Copy, PartialEq, Eq)]
pub struct Blake3CompressPubIO {
    pub chunk_idx_low: u64,
    pub chunk_idx_high: u64,
    pub depth: u64,
    pub total_depth: u64,
    pub n_blocks: u64,
    pub block_count: u64,
    pub h_keys: [u64; 8],
    pub leaf_depth: u64,
}

/// The canonical field order of the public state vector:
/// `[n_blocks, block_count, h_keys[0..8], total_depth, depth,
///   chunk_idx_low, chunk_idx_high, leaf_depth]`.
pub open spec fn spec_io_vec(io: Blake3CompressPubIO) -> Seq<u64> {
    seq![
        io.n_blocks,
        io.block_count,
        io.h_keys[0],
        io.h_keys[1],
        io.h_keys[2],
        io.h_keys[3],
        io.h_keys[4],
        io.h_keys[5],
        io.h_keys[6],
        io.h_keys[7],
        io.total_depth,
        io.depth,
        io.chunk_idx_low,
        io.chunk_idx_high,
        io.leaf_depth,
    ]
}

impl Blake3CompressPubIO {
    /// Initial public state for a proof over the chunk at `chunk_idx`: the
    /// chunk index is split into 32-bit halves, `depth` starts one below
    /// `total_depth`, and no block has been absorbed yet.
    pub fn new(chunk_idx: u64, total_depth: u64, n_blocks: u64, h_keys: Vec<u64>, leaf_depth: u64) -> (r:
        Self)
        requires
            h_keys@.len() == 8,
            total_depth >= 1,
        ensures
            r.chunk_idx_low == chunk_idx % 0x1_0000_0000,
            r.chunk_idx_high == chunk_idx / 0x1_0000_0000,
            r.total_depth == total_depth,
            r.depth == total_depth - 1,
            r.n_blocks == n_blocks,
            r.block_count == 0,
            forall|i: int| 0 <= i < 8 ==> r.h_keys[i] == h_keys@[i],
            r.leaf_depth == leaf_depth,
    {
        let high = chunk_idx >> 32u64;
        let low = chunk_idx & 0xffff_ffffu64;
        proof {
            assert(chunk_idx >> 32u64 == chunk_idx / 0x1_0000_0000 && (chunk_idx
                & 0xffff_ffffu64) == chunk_idx % 0x1_0000_0000) by (bit_vector);
        }
        let h = [h_keys[0], h_keys[1], h_keys[2], h_keys[3], h_keys[4], h_keys[5], h_keys[6], h_keys[7]];
        let depth = total_depth - 1;
        Blake3CompressPubIO {
            chunk_idx_low: low,
            chunk_idx_high: high,
            total_depth,
            depth,
            n_blocks,
            block_count: 0,
            h_keys: h,
            leaf_depth,
        }
    }

    /// Serialize into the fixed-arity canonical vector.
    pub fn to_vec(&self) -> (r: Vec<u64>)
        ensures
            r@ == spec_io_vec(*self),
            r@.len() == IO_ARITY,
    {
        let mut vec: Vec<u64> = Vec::new();
        vec.push(self.n_blocks);
        vec.push(self.block_count);
        vec.push(self.h_keys[0]);
        vec.push(self.h_keys[1]);
        vec.push(self.h_keys[2]);
        vec.push(self.h_keys[3]);
        vec.push(self.h_keys[4]);
        vec.push(self.h_keys[5]);
        vec.push(self.h_keys[6]);
        vec.push(self.h_keys[7]);
        vec.push(self.total_depth);
        vec.push(self.depth);
        vec.push(self.chunk_idx_low);
        vec.push(self.chunk_idx_high);
        vec.push(self.leaf_depth);
        proof {
            assert(vec@ =~= spec_io_vec(*self));
        }
        vec
    }

    /// Deserialize from the canonical vector. Any arity other than
    /// `IO_ARITY` is an invariant violation: the caller and the engine have
    /// desynchronized.
    pub fn from_vec(vec: Vec<u64>) -> (r: Result<Self, Blake3FoldError>)
        ensures
            vec@.len() == IO_ARITY <==> r is Ok,
            r matches Ok(io) ==> spec_io_vec(io) == vec@,
            r is Err ==> r == Err::<Self, Blake3FoldError>(Blake3FoldError::InvariantViolation),
    {
        if vec.len() != IO_ARITY {
            return Err(Blake3FoldError::InvariantViolation);
        }
        let n_blocks = vec[0];
        let block_count = vec[1];
        let h = [vec[2], vec[3], vec[4], vec[5], vec[6], vec[7], vec[8], vec[9]];
        let total_depth = vec[10];
        let depth = vec[11];
        let chunk_idx_low = vec[12];
        let chunk_idx_high = vec[13];
        let leaf_depth = vec[14];
        let io = Blake3CompressPubIO {
            total_depth,
            depth,
            n_blocks,
            block_count,
            h_keys: h,
            chunk_idx_low,
            chunk_idx_high,
            leaf_depth,
        };
        proof {
            assert(spec_io_vec(io) =~= vec@);
        }
        Ok(io)
    }
}

/// The IV constants widened to the word width the state vector carries.
pub open spec fn spec_iv() -> Seq<u64> {
    seq![
        0x6A09E667u64,
        0xBB67AE85u64,
        0x3C6EF372u64,
        0xA54FF53Au64,
        0x510E527Fu64,
        0x9B05688Cu64,
        0x1F83D9ABu64,
        0x5BE0CD19u64,
    ]
}

/// The public state vector a proof starts from: chaining value seeded with
/// the IV constants, `depth` one below `total_depth`, no block absorbed.
pub fn initial_public_io(chunk_idx: u64, total_depth: u64, n_blocks: u64, leaf_depth: u64) -> (r:
    Blake3CompressPubIO)
    requires
        total_depth >= 1,
    ensures
        r.chunk_idx_low == chunk_idx % 0x1_0000_0000,
        r.chunk_idx_high == chunk_idx / 0x1_0000_0000,
        r.total_depth == total_depth,
        r.depth == total_depth - 1,
        r.n_blocks == n_blocks,
        r.block_count == 0,
        forall|i: int| 0 <= i < 8 ==> r.h_keys[i] == spec_iv()[i],
        r.leaf_depth == leaf_depth,
{
    let mut scalar_iv: Vec<u64> = Vec::new();
    let mut i: usize = 0;
    while i < 8
        invariant
            i <= 8,
            scalar_iv@.len() == i,
            forall|j: int| 0 <= j < i ==> scalar_iv@[j] == IV[j] as u64,
        decreases 8 - i,
    {
        scalar_iv.push(IV[i] as u64);
        i = i + 1;
    }
    proof {
        assert forall|j: int| 0 <= j < 8 implies scalar_iv@[j] == spec_iv()[j] by {
            assert(scalar_iv@[j] == IV[j] as u64);
        }
    }
    Blake3CompressPubIO::new(chunk_idx, total_depth, n_blocks, scalar_iv, leaf_depth)
}

/// Extract the canonical digest from the engine's final public state
/// vector: the 8 chaining-value words (fields 2 through 9) run through the
/// hash word formatter. Any arity other than `IO_ARITY` is an invariant
/// violation.
pub fn digest_from_io_vec(v: &Vec<u64>) -> (r: Result<Vec<u8>, Blake3FoldError>)
    ensures
        v@.len() == IO_ARITY <==> r is Ok,
        r is Err ==> r == Err::<Vec<u8>, Blake3FoldError>(Blake3FoldError::InvariantViolation),
        r matches Ok(d) ==> {
            &&& d@.len() == 32
            &&& forall|k: int|
                0 <= k < 32 ==> #[trigger] d@[k] == crate::utils::spec_le_byte(
                    v@[2 + k / 4],
                    k % 4,
                )
        },
{
    if v.len() != IO_ARITY {
        return Err(Blake3FoldError::InvariantViolation);
    }
    let output_words = [v[2], v[3], v[4], v[5], v[6], v[7], v[8], v[9]];
    let digest = crate::utils::format_scalar_blake_hash(output_words);
    Ok(digest)
}

/// The canonical vector determines the state: serializing with `to_vec` and
/// deserializing with `from_vec` returns the original state, for every state.
pub proof fn lemma_step_io_roundtrip(x: Blake3CompressPubIO, y: Blake3CompressPubIO)
    requires
        spec_io_vec(x) == spec_io_vec(y),
    ensures
        x == y,
{
    assert forall|i: int| 0 <= i < 8 implies x.h_keys[i] == y.h_keys[i] by {
        assert(spec_io_vec(x)[i + 2] == spec_io_vec(y)[i + 2]);
    }
    assert(x.h_keys =~= y.h_keys);
    assert(spec_io_vec(x)[0] == spec_io_vec(y)[0]);
    assert(spec_io_vec(x)[1] == spec_io_vec(y)[1]);
    assert(spec_io_vec(x)[10] == spec_io_vec(y)[10]);
    assert(spec_io_vec(x)[11] == spec_io_vec(y)[11]);
    assert(spec_io_vec(x)[12] == spec_io_vec(y)[12]);
    assert(spec_io_vec(x)[13] == spec_io_vec(y)[13]);
    assert(spec_io_vec(x)[14] == spec_io_vec(y)[14]);
}

/// Which direction a path node descends towards the target leaf.
#[derive(Debug, Clone, Copy, PartialEq, Eq, Structural)]
pub enum PathDirection {
    Left,
    Right,
}

/// One level of an authentication path.
///
/// The direction says which child the path descends to; the 32 bytes are the
/// digest of the child that is NOT descended to. So, descending left, the
/// digest is that of the right child; descending right, that of the left one.
#[derive(Debug, Clone, PartialEq, Eq)]
pub struct PathNode(pub PathDirection, pub [u8; 32]);

impl PathNode {
    pub fn new(path_dir: PathDirection, hash: [u8; 32]) -> (r: Self)
        ensures
            r.0 == path_dir,
            r.1 == hash,
    {
        PathNode(path_dir, hash)
    }
}

/// Where the sequencer stands: absorbing message blocks of the leaf chunk,
/// ascending the authentication path (combining with one sibling per step),
/// or done. The phase tag itself decides whether a step re-seeds the
/// compression register from the IV constants (ascending steps do).
#[derive(Debug, Clone, Copy, PartialEq, Eq, Structural)]
pub enum StepPhase {
    Absorbing { current_block: usize },
    Ascending { current_depth: usize },
    Terminal,
}

/// Whether a phase is consistent with a sequencer over `n_blocks` message
/// blocks and a parent path of `total_depth - 1` nodes.
pub open spec fn spec_phase_ok(p: StepPhase, n_blocks: int, total_depth: int) -> bool {
    match p {
        StepPhase::Absorbing { current_block } => current_block < n_blocks,
        StepPhase::Ascending { current_depth } => current_depth <= total_depth - 2,
        StepPhase::Terminal => true,
    }
}

/// How many `update_for_step` calls remain until the phase is terminal.
pub open spec fn spec_phase_remaining(p: StepPhase, n_blocks: int, total_depth: int) -> int {
    match p {
        StepPhase::Absorbing { current_block } => (n_blocks - current_block) + (total_depth - 1),
        StepPhase::Ascending { current_depth } => current_depth + 1,
        StepPhase::Terminal => 0,
    }
}

/// The single transition of the sequencer: absorb one more block while
/// blocks remain, then walk the parent path from the node nearest the leaf
/// (index `total_depth - 2`) up to the node under the root (index 0), then
/// stop.
pub open spec fn spec_advance_phase(p: StepPhase, n_blocks: int, total_depth: int) -> StepPhase {
    match p {
        StepPhase::Absorbing { current_block } => {
            if current_block + 1 < n_blocks {
                StepPhase::Absorbing { current_block: (current_block + 1) as usize }
            } else if total_depth >= 2 {
                StepPhase::Ascending { current_depth: (total_depth - 2) as usize }
            } else {
                StepPhase::Terminal
            }
        },
        StepPhase::Ascending { current_depth } => {
            if current_depth >= 1 {
                StepPhase::Ascending { current_depth: (current_depth - 1) as usize }
            } else {
                StepPhase::Terminal
            }
        },
        StepPhase::Terminal => StepPhase::Terminal,
    }
}

/// The phase after `k` transitions.
pub open spec fn spec_advance_phase_n(p: StepPhase, n_blocks: int, total_depth: int, k: nat) -> StepPhase
    decreases k,
{
    if k == 0 {
        p
    } else {
        spec_advance_phase_n(
            spec_advance_phase(p, n_blocks, total_depth),
            n_blocks,
            total_depth,
            (k - 1) as nat,
        )
    }
}

/// One transition preserves phase validity and brings the phase exactly one
/// step closer to terminal.
pub proof fn lemma_advance_phase_step(p: StepPhase, n_blocks: int, total_depth: int)
    requires
        spec_phase_ok(p, n_blocks, total_depth),
        1 <= total_depth <= usize::MAX,
        0 <= n_blocks <= usize::MAX,
        !(p is Terminal),
    ensures
        spec_phase_ok(spec_advance_phase(p, n_blocks, total_depth), n_blocks, total_depth),
        spec_phase_remaining(spec_advance_phase(p, n_blocks, total_depth), n_blocks, total_depth)
            == spec_phase_remaining(p, n_blocks, total_depth) - 1,
{
}

/// A valid phase reaches `Terminal` after exactly `spec_phase_remaining`
/// transitions: never earlier, and once reached it stays.
pub proof fn lemma_phase_terminal_exactly(p: StepPhase, n_blocks: int, total_depth: int, k: nat)
    requires
        spec_phase_ok(p, n_blocks, total_depth),
        1 <= total_depth <= usize::MAX,
        0 <= n_blocks <= usize::MAX,
    ensures
        k < spec_phase_remaining(p, n_blocks, total_depth) ==> !(spec_advance_phase_n(
            p,
            n_blocks,
            total_depth,
            k,
        ) is Terminal),
        k >= spec_phase_remaining(p, n_blocks, total_depth) ==> spec_advance_phase_n(
            p,
            n_blocks,
            total_depth,
            k,
        ) is Terminal,
    decreases k,
{
    if k > 0 {
        if p is Terminal {
            lemma_phase_terminal_exactly(p, n_blocks, total_depth, (k - 1) as nat);
        } else {
            lemma_advance_phase_step(p, n_blocks, total_depth);
            lemma_phase_terminal_exactly(
                spec_advance_phase(p, n_blocks, total_depth),
                n_blocks,
                total_depth,
                (k - 1) as nat,
            );
        }
    }
}

/// The per-step input record handed to the external step circuit: the block
/// (or sibling digest) as 16 little-endian 32-bit words, the number of
/// message bytes it carries, whether the compression register is re-seeded
/// from the IV, and the pass-through fields of the public state vector.
#[derive(Debug, Clone, PartialEq, Eq)]
pub struct Blake3StepInput {
    pub byte_count: u64,
    pub message_words: Vec<u32>,
    pub h_keys: [u64; 8],
    pub block_count: u64,
    pub n_blocks: u64,
    pub total_depth: u64,
    pub depth: u64,
    pub chunk_idx_low: u64,
    pub chunk_idx_high: u64,
    pub override_to_iv: bool,
    pub leaf_depth: u64,
}

/// The 64 bytes of message block `b` of `bytes`, right-padded with zeros
/// when the final block is partial.
pub open spec fn spec_block_bytes(bytes: Seq<u8>, b: int) -> Seq<u8> {
    Seq::new(
        64,
        |j: int|
            if 64 * b + j < bytes.len() {
                bytes[64 * b + j]
            } else {
                0u8
            },
    )
}

/// Number of unpadded message bytes in block `b` of a chunk of `n_bytes`
/// bytes (at most 64).
pub open spec fn spec_block_byte_count(n_bytes: int, b: int) -> int {
    if n_bytes - 64 * b >= 64 {
        64
    } else {
        n_bytes - 64 * b
    }
}

/// The step sequencer: it holds the leaf chunk and its authentication path,
/// and produces, per proof step, the input record for the external step
/// circuit, advancing its own phase exactly once per completed round.
#[derive(Debug, Clone)]
pub struct Blake3BlockCompressCircuit {
    pub leaf_bytes: Vec<u8>,
    pub n_bytes: usize,
    pub total_depth: usize,
    pub n_blocks: usize,
    pub phase: StepPhase,
    pub parent_path: Vec<PathNode>,
    pub circom_path_wasm: String,
    pub circom_path_r1cs: String,
}

impl Blake3BlockCompressCircuit {
    /// Internal consistency of the sequencer.
    pub open spec fn wf(self) -> bool {
        &&& self.n_bytes == self.leaf_bytes@.len()
        &&& self.n_bytes + 63 <= usize::MAX
        &&& self.n_blocks == crate::utils::spec_n_blocks(self.n_bytes as int)
        &&& self.total_depth == self.parent_path@.len() + 1
        &&& self.n_blocks + self.total_depth - 1 <= usize::MAX
        &&& spec_phase_ok(self.phase, self.n_blocks as int, self.total_depth as int)
    }

    /// Steps left until the sequencer is terminal.
    pub open spec fn spec_steps_remaining(self) -> int {
        spec_phase_remaining(self.phase, self.n_blocks as int, self.total_depth as int)
    }

    /// The phase a fresh sequencer starts in.
    pub open spec fn spec_initial_phase(n_blocks: int, total_depth: int) -> StepPhase {
        if n_blocks >= 1 {
            StepPhase::Absorbing { current_block: 0 }
        } else if total_depth >= 2 {
            StepPhase::Ascending { current_depth: (total_depth - 2) as usize }
        } else {
            StepPhase::Terminal
        }
    }

    /// A fresh sequencer over the leaf chunk `bytes` and its authentication
    /// path, root-first. The circom paths locate the external step circuit
    /// and are carried opaquely.
    pub fn new(
        bytes: Vec<u8>,
        parent_path: Vec<PathNode>,
        circom_path_wasm: String,
        circom_path_r1cs: String,
    ) -> (r: Blake3BlockCompressCircuit)
        requires
            bytes@.len() + 63 <= usize::MAX,
            crate::utils::spec_n_blocks(bytes@.len() as int) + parent_path@.len() + 1
                <= usize::MAX,
        ensures
            r.wf(),
            r.leaf_bytes == bytes,
            r.parent_path == parent_path,
            r.n_bytes == bytes@.len(),
            r.total_depth == parent_path@.len() + 1,
            r.n_blocks == crate::utils::spec_n_blocks(bytes@.len() as int),
            r.phase == Self::spec_initial_phase(r.n_blocks as int, r.total_depth as int),
            r.spec_steps_remaining() == r.n_blocks + r.total_depth - 1,
            r.circom_path_wasm == circom_path_wasm,
            r.circom_path_r1cs == circom_path_r1cs,
    {
        let bytes_len = bytes.len();
        let n_blocks = crate::utils::n_blocks_from_bytes(bytes_len);
        let depth = parent_path.len() + 1;
        let phase = if n_blocks >= 1 {
            StepPhase::Absorbing { current_block: 0 }
        } else if depth >= 2 {
            StepPhase::Ascending { current_depth: depth - 2 }
        } else {
            StepPhase::Terminal
        };
        Blake3BlockCompressCircuit {
            n_bytes: bytes_len,
            n_blocks,
            leaf_bytes: bytes,
            parent_path,
            phase,
            total_depth: depth,
            circom_path_r1cs,
            circom_path_wasm,
        }
    }

    /// Total number of proof steps the sequencer drives: one per message
    /// block, plus one per parent level above the leaf.
    pub fn num_steps(&self) -> (r: usize)
        requires
            self.wf(),
        ensures
            r == self.n_blocks + self.total_depth - 1,
    {
        self.n_blocks + (self.total_depth - 1)
    }

    /// Whether the sequencer has finished all steps.
    pub fn is_terminal(&self) -> (r: bool)
        ensures
            r == (self.phase is Terminal),
    {
        match self.phase {
            StepPhase::Terminal => true,
            _ => false,
        }
    }

    /// Advance the sequencer by one completed round: absorb one block, or
    /// ascend one level. Must be called exactly once per round, strictly
    /// after the round's input record has been consumed, and never past
    /// `Terminal`.
    pub fn update_for_step(&mut self)
        requires
            old(self).wf(),
            !(old(self).phase is Terminal),
        ensures
            final(self).wf(),
            final(self).phase == spec_advance_phase(
                old(self).phase,
                old(self).n_blocks as int,
                old(self).total_depth as int,
            ),
            final(self).spec_steps_remaining() == old(self).spec_steps_remaining() - 1,
            final(self).leaf_bytes == old(self).leaf_bytes,
            final(self).n_bytes == old(self).n_bytes,
            final(self).total_depth == old(self).total_depth,
            final(self).n_blocks == old(self).n_blocks,
            final(self).parent_path == old(self).parent_path,
            final(self).circom_path_wasm == old(self).circom_path_wasm,
            final(self).circom_path_r1cs == old(self).circom_path_r1cs,
    {
        match self.phase {
            StepPhase::Absorbing { current_block } => {
                if current_block + 1 < self.n_blocks {
                    self.phase = StepPhase::Absorbing { current_block: current_block + 1 };
                } else if self.total_depth >= 2 {
                    self.phase = StepPhase::Ascending { current_depth: self.total_depth - 2 };
                } else {
                    self.phase = StepPhase::Terminal;
                }
            },
            StepPhase::Ascending { current_depth } => {
                if current_depth >= 1 {
                    self.phase = StepPhase::Ascending { current_depth: current_depth - 1 };
                } else {
                    self.phase = StepPhase::Terminal;
                }
            },
            StepPhase::Terminal => {},
        }
    }

    /// A fresh sequencer, and each of its successors, reaches `Terminal`
    /// after exactly `spec_steps_remaining` more transitions — for a fresh
    /// one, exactly `n_blocks + total_depth - 1` — never earlier, and stays
    /// there.
    pub proof fn lemma_terminal_after_exact_steps(self, k: nat)
        requires
            self.wf(),
        ensures
            k < self.spec_steps_remaining() ==> !(spec_advance_phase_n(
                self.phase,
                self.n_blocks as int,
                self.total_depth as int,
                k,
            ) is Terminal),
            k >= self.spec_steps_remaining() ==> spec_advance_phase_n(
                self.phase,
                self.n_blocks as int,
                self.total_depth as int,
                k,
            ) is Terminal,
    {
        lemma_phase_terminal_exactly(self.phase, self.n_blocks as int, self.total_depth as int, k);
    }

    /// Build the input record for the current step, a pure function of the
    /// sequencer and the current public state vector. Calling it once the
    /// sequencer is terminal is an invariant violation.
    pub fn format_input(&self, io: &Blake3CompressPubIO) -> (r: Result<
        Blake3StepInput,
        Blake3FoldError,
    >)
        requires
            self.wf(),
        ensures
            (self.phase is Terminal) <==> r is Err,
            r is Err ==> r == Err::<Blake3StepInput, Blake3FoldError>(
                Blake3FoldError::InvariantViolation,
            ),
            r matches Ok(rec) ==> {
                &&& rec.message_words@.len() == 16
                &&& rec.h_keys == io.h_keys
                &&& rec.block_count == io.block_count
                &&& rec.n_blocks == io.n_blocks
                &&& rec.total_depth == io.total_depth
                &&& rec.depth == io.depth
                &&& rec.chunk_idx_low == io.chunk_idx_low
                &&& rec.chunk_idx_high == io.chunk_idx_high
                &&& rec.leaf_depth == io.leaf_depth
                &&& match self.phase {
                    StepPhase::Absorbing { current_block } => {
                        &&& rec.byte_count == spec_block_byte_count(
                            self.n_bytes as int,
                            current_block as int,
                        )
                        &&& forall|w: int|
                            0 <= w < 16 ==> rec.message_words@[w] == crate::utils::spec_u32_le_at(
                                spec_block_bytes(self.leaf_bytes@, current_block as int),
                                w,
                            )
                        &&& rec.override_to_iv == false
                    },
                    StepPhase::Ascending { current_depth } => {
                        &&& rec.byte_count == 64
                        &&& forall|w: int|
                            0 <= w < 8 ==> rec.message_words@[w] == crate::utils::spec_u32_le_at(
                                self.parent_path@[current_depth as int].1@,
                                w,
                            )
                        &&& forall|w: int| 8 <= w < 16 ==> rec.message_words@[w] == 0u32
                        &&& rec.override_to_iv == true
                    },
                    StepPhase::Terminal => false,
                }
            },
    {
        match self.phase {
            StepPhase::Absorbing { current_block } => {
                let start_idx = current_block * 64;
                let end_idx = if start_idx + 64 <= self.n_bytes {
                    start_idx + 64
                } else {
                    self.n_bytes
                };
                let mut message_bytes: Vec<u8> = Vec::new();
                let mut t: usize = 0;
                while t < end_idx - start_idx
                    invariant
                        self.wf(),
                        self.phase == (StepPhase::Absorbing { current_block }),
                        start_idx == 64 * current_block,
                        start_idx <= end_idx <= self.n_bytes,
                        end_idx - start_idx <= 64,
                        t <= end_idx - start_idx,
                        message_bytes@.len() == t,
                        forall|j: int|
                            0 <= j < t ==> message_bytes@[j] == self.leaf_bytes@[start_idx + j],
                    decreases end_idx - start_idx - t,
                {
                    message_bytes.push(self.leaf_bytes[start_idx + t]);
                    t = t + 1;
                }
                crate::utils::pad_vector_to_min_length(&mut message_bytes, 64, 0u8);
                proof {
                    assert(message_bytes@ =~= spec_block_bytes(self.leaf_bytes@, current_block as int));
                }
                let as_u32 = crate::utils::bytes_to_u32_le(message_bytes.as_slice());
                let n_bytes_per_block = (end_idx - start_idx) as u64;
                Ok(
                    Blake3StepInput {
                        byte_count: n_bytes_per_block,
                        message_words: as_u32,
                        h_keys: io.h_keys,
                        block_count: io.block_count,
                        n_blocks: io.n_blocks,
                        total_depth: io.total_depth,
                        depth: io.depth,
                        chunk_idx_low: io.chunk_idx_low,
                        chunk_idx_high: io.chunk_idx_high,
                        override_to_iv: false,
                        leaf_depth: io.leaf_depth,
                    },
                )
            },
            StepPhase::Ascending { current_depth } => {
                let path_node = &self.parent_path[current_depth];
                let mut m = crate::utils::bytes_to_u32_le(path_node.1.as_slice());
                crate::utils::pad_vector_to_min_length(&mut m, 16, 0u32);
                Ok(
                    Blake3StepInput {
                        byte_count: 64,
                        message_words: m,
                        h_keys: io.h_keys,
                        block_count: io.block_count,
                        n_blocks: io.n_blocks,
                        total_depth: io.total_depth,
                        depth: io.depth,
                        chunk_idx_low: io.chunk_idx_low,
                        chunk_idx_high: io.chunk_idx_high,
                        override_to_iv: true,
                        leaf_depth: io.leaf_depth,
                    },
                )
            },
            StepPhase::Terminal => Err(Blake3FoldError::InvariantViolation),
        }
    }
}

} // verus!

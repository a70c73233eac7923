//! Path extraction: turn (input, leaf index) into the root hash, the
//! authentication path and the raw leaf bytes, using the incremental tree
//! hash library behind trusted wrappers.

use vstd::prelude::*;

use crate::blake3_circuit::{PathDirection, PathNode};
use crate::Blake3FoldError;

verus! {

/// `std::io::Error`, the error the tree hash library's readers surface.
#[verifier::external_type_specification]
#[verifier::external_body]
pub struct ExIoError(std::io::Error);

/// The combined Bao encoding of an input.
pub uninterp spec fn bao_encoded_of(input: Seq<u8>) -> Seq<u8>;

/// The root hash of an input, as the Bao encoder reports it: the BLAKE3 hash
/// of the input.
pub uninterp spec fn bao_root_of(input: Seq<u8>) -> Seq<u8>;

/// The slice that the Bao slice extractor reads out of a combined encoding
/// for a given content range: an 8-byte header, then the parent node pairs
/// from the root toward the covered chunks, then the covered content bytes.
pub uninterp spec fn bao_slice_of(encoded: Seq<u8>, slice_start: int, slice_len: int) -> Seq<u8>;

/// Relies on bao::encode::encode: deterministically encodes the input into
/// the combined Bao format and returns the encoding together with the root
/// hash — the 32-byte BLAKE3 hash of the input.
#[verifier::external_body]
fn bao_encode(input: &Vec<u8>) -> (r: (Vec<u8>, Vec<u8>))
    ensures
        r.0@ == bao_encoded_of(input@),
        r.1@ == bao_root_of(input@),
        r.1@.len() == 32,
{
    let (encoded, hash) = bao::encode::encode(input);
    (encoded, hash.as_bytes().to_vec())
}

/// Relies on bao::encode::SliceExtractor: reads from a combined encoding the
/// slice covering the content range `slice_start .. slice_start + slice_len`,
/// a function of its arguments alone. On a well-formed encoding, extracting a
/// chunk-aligned range that covers exactly one chunk succeeds (the extractor
/// fails only when the encoding itself lacks bytes), and the slice has the
/// documented layout: the 8-byte length header, one 64-byte parent pair per
/// tree level above the chunk (`log2(n_chunks)` of them, root first), and
/// then the covered content bytes verbatim.
#[verifier::external_body]
fn bao_extract_slice(encoded: &Vec<u8>, slice_start: u64, slice_len: u64) -> (r: Result<
    Vec<u8>,
    std::io::Error,
>)
    ensures
        r matches Ok(s) ==> s@ == bao_slice_of(encoded@, slice_start as int, slice_len as int),
        forall|input: Seq<u8>|
            #![trigger bao_encoded_of(input)]
            (encoded@ == bao_encoded_of(input) && spec_single_chunk_range(
                input.len() as int,
                slice_start as int,
                slice_len as int,
            )) ==> r is Ok,
        r matches Ok(s) ==> forall|input: Seq<u8>|
            #![trigger bao_encoded_of(input)]
            (encoded@ == bao_encoded_of(input) && spec_single_chunk_range(
                input.len() as int,
                slice_start as int,
                slice_len as int,
            )) ==> (s@.len() == 8 + 64 * crate::utils::spec_log2(
                spec_n_chunks(input.len() as int) as nat,
            ) + slice_len && s@.subrange(s@.len() - slice_len, s@.len() as int)
                == input.subrange(slice_start as int, slice_start + slice_len)),
{
    let cursor = std::io::Cursor::new(encoded);
    let mut extractor = bao::encode::SliceExtractor::new(cursor, slice_start, slice_len);
    let mut slice = Vec::new();
    std::io::Read::read_to_end(&mut extractor, &mut slice)?;
    Ok(slice)
}

/// Relies on bao::decode::SliceDecoder: decodes a slice while verifying it
/// against the 32-byte root hash, and fails when they do not match. Only the
/// success or failure is used here. Decoding the slice that was extracted
/// from the encoding of some content, against that content's own root hash,
/// succeeds.
#[verifier::external_body]
fn bao_decode_slice(slice: &Vec<u8>, root: &Vec<u8>, slice_start: u64, slice_len: u64) -> (r:
    Result<Vec<u8>, std::io::Error>)
    requires
        root@.len() == 32,
    ensures
        forall|input: Seq<u8>|
            #![trigger bao_encoded_of(input)]
            (slice@ == bao_slice_of(bao_encoded_of(input), slice_start as int, slice_len as int)
                && root@ == bao_root_of(input) && spec_single_chunk_range(
                input.len() as int,
                slice_start as int,
                slice_len as int,
            )) ==> r is Ok,
{
    let mut hash_bytes = [0u8; 32];
    hash_bytes.copy_from_slice(root);
    let hash = blake3::Hash::from(hash_bytes);
    let mut decoder = bao::decode::SliceDecoder::new(slice.as_slice(), &hash, slice_start, slice_len);
    let mut decoded = Vec::new();
    std::io::Read::read_to_end(&mut decoder, &mut decoded)?;
    Ok(decoded)
}

/// Everything the prover needs about one leaf chunk: its index, the
/// authentication path from the root down to it, and its raw bytes.
#[derive(Debug, PartialEq, Eq)]
pub struct Blake3HashProof {
    pub chunk_idx: u64,
    pub parent_path: Vec<PathNode>,
    pub bytes: Vec<u8>,
}

/// Number of chunks an input of `len` bytes splits into (ceiling division by
/// the chunk size).
pub open spec fn spec_n_chunks(len: int) -> int {
    (len + 1023) / 1024
}

/// A content range that covers exactly one chunk of an input of `len` bytes
/// whose chunk count is a power of two: chunk-aligned, in range, and as long
/// as the chunk itself.
pub open spec fn spec_single_chunk_range(len: int, slice_start: int, slice_len: int) -> bool {
    &&& crate::utils::spec_is_pow2(spec_n_chunks(len))
    &&& 0 <= slice_start < len
    &&& slice_start % 1024 == 0
    &&& slice_len == (if len - slice_start >= 1024 {
        1024int
    } else {
        len - slice_start
    })
}

/// The direction the path takes at the level where bit `k` of the leaf index
/// decides: left when the bit is clear.
pub open spec fn spec_path_dir(leaf: int, k: nat) -> PathDirection {
    if (leaf / vstd::arithmetic::power2::pow2(k) as int) % 2 == 0 {
        PathDirection::Left
    } else {
        PathDirection::Right
    }
}

/// The sibling digest that path level `i` (0 nearest the root) keeps out of
/// a slice: the right half of the level's 64-byte parent pair when the path
/// descends left, else the left half.
pub open spec fn spec_sibling_bytes(slice: Seq<u8>, leaf: int, i: int, total_depth: int) -> Seq<
    u8,
> {
    let off = 8 + 64 * i + if spec_path_dir(leaf, (total_depth - 2 - i) as nat)
        is Left {
        32int
    } else {
        0int
    };
    slice.subrange(off, off + 32)
}

/// Parse the parent pairs of an extracted slice into the authentication
/// path, root-first. The slice must consist of the 8-byte header, exactly
/// `total_depth - 1` parent pairs of 64 bytes, and `slice_len` content
/// bytes; any other length is an extraction fault.
pub fn build_path(slice: &Vec<u8>, leaf: usize, slice_len: usize, total_depth: usize) -> (r:
    Result<Vec<PathNode>, Blake3FoldError>)
    requires
        1 <= total_depth <= 64,
        8 + 64 * (total_depth - 1) + slice_len <= usize::MAX,
    ensures
        r is Ok <==> slice@.len() == 8 + 64 * (total_depth - 1) + slice_len,
        r is Err ==> r == Err::<Vec<PathNode>, Blake3FoldError>(Blake3FoldError::IOError),
        r matches Ok(path) ==> {
            &&& path@.len() == total_depth - 1
            &&& forall|i: int|
                0 <= i < path@.len() ==> (#[trigger] path@[i]).0 == spec_path_dir(
                    leaf as int,
                    (total_depth - 2 - i) as nat,
                ) && path@[i].1@ == spec_sibling_bytes(slice@, leaf as int, i, total_depth as int)
        },
{
    let par_len = total_depth - 1;
    if slice.len() != 8 + 64 * par_len + slice_len {
        return Err(Blake3FoldError::IOError);
    }
    let mut path_nodes: Vec<PathNode> = Vec::new();
    let mut i: usize = 0;
    while i < par_len
        invariant
            par_len == total_depth - 1,
            total_depth <= 64,
            slice@.len() == 8 + 64 * par_len + slice_len,
            i <= par_len,
            path_nodes@.len() == i,
            forall|j: int|
                0 <= j < i ==> (#[trigger] path_nodes@[j]).0 == spec_path_dir(
                    leaf as int,
                    (total_depth - 2 - j) as nat,
                ) && path_nodes@[j].1@ == spec_sibling_bytes(
                    slice@,
                    leaf as int,
                    j,
                    total_depth as int,
                ),
        decreases par_len - i,
    {
        let sh: u64 = (par_len - i - 1) as u64;
        let bit: u64 = ((leaf as u64) >> sh) & 1;
        proof {
            vstd::bits::lemma_u64_shr_is_div(leaf as u64, sh);
            assert(((leaf as u64) >> sh) & 1 == ((leaf as u64) >> sh) % 2) by (bit_vector);
        }
        let dir = if bit == 0 {
            PathDirection::Left
        } else {
            PathDirection::Right
        };
        let off = 8 + 64 * i + (if bit == 0 {
            32
        } else {
            0
        });
        let mut chunk_array = [0u8; 32];
        let slice_n = slice.len();
        let mut j: usize = 0;
        while j < 32
            invariant
                j <= 32,
                off + 32 <= slice_n == slice@.len(),
                forall|t: int| 0 <= t < j ==> chunk_array[t] == slice@[off + t],
            decreases 32 - j,
        {
            chunk_array[j] = slice[off + j];
            j = j + 1;
        }
        proof {
            assert(dir == spec_path_dir(leaf as int, (total_depth - 2 - i) as nat));
            assert(chunk_array@ =~= spec_sibling_bytes(
                slice@,
                leaf as int,
                i as int,
                total_depth as int,
            ));
        }
        path_nodes.push(PathNode::new(dir, chunk_array));
        i = i + 1;
    }
    Ok(path_nodes)
}

/// Derive, from the full input and a target leaf index, the root hash, the
/// authentication path for that leaf (root-first) and the leaf's raw bytes.
///
/// A chunk count that is not a power of two is rejected with
/// `ConfigurationError` before any other work; every other input succeeds.
/// On success the root hash is the reference hash of the whole input, the
/// path has exactly `log2(n_chunks) == total_depth - 1` nodes whose
/// directions follow the bits of the leaf index, and the returned bytes are
/// the target chunk of the input, unpadded.
pub fn hash_with_path(input: &Vec<u8>, leaf: usize) -> (r: Result<
    (Vec<u8>, Blake3HashProof),
    Blake3FoldError,
>)
    requires
        input@.len() + 1023 <= usize::MAX,
        crate::utils::spec_is_pow2(spec_n_chunks(input@.len() as int)) ==> leaf < spec_n_chunks(
            input@.len() as int,
        ),
    ensures
        r is Ok <==> crate::utils::spec_is_pow2(spec_n_chunks(input@.len() as int)),
        r is Err ==> r == Err::<(Vec<u8>, Blake3HashProof), Blake3FoldError>(
            Blake3FoldError::ConfigurationError,
        ),
        r matches Ok((root, proof)) ==> {
            let n_chunks = spec_n_chunks(input@.len() as int);
            let total_depth = crate::utils::spec_depth_from_n_leaves(n_chunks);
            let slice_start = leaf * 1024;
            let slice_len = if input@.len() - slice_start >= 1024 {
                1024int
            } else {
                input@.len() - slice_start
            };
            let sl = bao_slice_of(bao_encoded_of(input@), slice_start as int, slice_len);
            &&& root@ == bao_root_of(input@)
            &&& root@.len() == 32
            &&& proof.chunk_idx == leaf as u64
            &&& proof.parent_path@.len() == total_depth - 1
            &&& proof.parent_path@.len() == crate::utils::spec_log2(n_chunks as nat)
            &&& sl.len() == 8 + 64 * (total_depth - 1) + slice_len
            &&& forall|i: int|
                0 <= i < proof.parent_path@.len() ==> (#[trigger] proof.parent_path@[i]).0
                    == spec_path_dir(leaf as int, (total_depth - 2 - i) as nat)
                    && proof.parent_path@[i].1@ == spec_sibling_bytes(
                    sl,
                    leaf as int,
                    i,
                    total_depth,
                )
            &&& proof.bytes@ == sl.subrange(sl.len() - slice_len, sl.len() as int)
            &&& proof.bytes@ == input@.subrange(slice_start as int, slice_start + slice_len)
            &&& proof.bytes@.len() == slice_len
        },
{
    let n_chunks = (input.len() + 1023) / 1024;
    if !crate::utils::is_power_of_two(n_chunks) {
        return Err(Blake3FoldError::ConfigurationError);
    }
    assert(n_chunks >= 1);
    assert(input@.len() >= 1);

    let total_depth = crate::utils::get_depth_from_n_leaves(n_chunks);
    proof {
        assert(vstd::arithmetic::power2::pow2(63) == 0x8000000000000000) by {
            vstd::arithmetic::power2::lemma2_to64_rest();
        }
        assert(2 * n_chunks - 1 < vstd::arithmetic::power2::pow2(63));
        crate::utils::lemma_log2_below_pow2((2 * n_chunks - 1) as nat, 63);
        crate::utils::lemma_depth_of_pow2(n_chunks as int);
    }
    assert(1 <= total_depth <= 64);

    let (encoded, root) = bao_encode(input);

    let slice_start = leaf * 1024;
    assert(slice_start < input@.len());
    let slice_len = if input.len() - slice_start >= 1024 {
        1024
    } else {
        input.len() - slice_start
    };
    proof {
        vstd::arithmetic::div_mod::lemma_mod_multiples_basic(leaf as int, 1024);
        assert(spec_single_chunk_range(input@.len() as int, slice_start as int, slice_len as int));
        assert(encoded@ == bao_encoded_of(input@));
    }

    // The extraction of a well-formed encoding at this range cannot fail;
    // the arm below is provably dead.
    let slice = match bao_extract_slice(&encoded, slice_start as u64, slice_len as u64) {
        Ok(s) => s,
        Err(_) => {
            return Err(Blake3FoldError::IOError);
        },
    };
    proof {
        assert(slice@ == bao_slice_of(encoded@, slice_start as int, slice_len as int));
        assert(slice@.len() == 8 + 64 * (total_depth - 1) + slice_len);
    }

    // Decoding the true slice against the true root cannot fail either.
    match bao_decode_slice(&slice, &root, slice_start as u64, slice_len as u64) {
        Ok(_) => (),
        Err(_) => {
            return Err(Blake3FoldError::IOError);
        },
    }

    // The slice has exactly the shape the parser demands, so this succeeds.
    let path_nodes = match build_path(&slice, leaf, slice_len, total_depth) {
        Ok(p) => p,
        Err(_) => {
            return Err(Blake3FoldError::IOError);
        },
    };

    let slice_n = slice.len();
    let data_start = slice_n - slice_len;
    let mut data_slice: Vec<u8> = Vec::new();
    let mut t: usize = 0;
    while t < slice_len
        invariant
            t <= slice_len,
            data_start + slice_len == slice_n == slice@.len(),
            data_slice@.len() == t,
            forall|j: int| 0 <= j < t ==> data_slice@[j] == slice@[data_start + j],
        decreases slice_len - t,
    {
        data_slice.push(slice[data_start + t]);
        t = t + 1;
    }
    proof {
        assert(data_slice@ =~= slice@.subrange(
            slice@.len() - slice_len,
            slice@.len() as int,
        ));
    }

    Ok(
        (
            root,
            Blake3HashProof {
                chunk_idx: leaf as u64,
                parent_path: path_nodes,
                bytes: data_slice,
            },
        ),
    )
}

} // verus!

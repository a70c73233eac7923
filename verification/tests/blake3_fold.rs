use blake3_fold::blake3_circuit::{
    digest_from_io_vec, initial_public_io, Blake3BlockCompressCircuit, Blake3CompressPubIO,
    PathDirection, PathNode, StepPhase, IV,
};
use blake3_fold::blake3_hash::hash_with_path;
use blake3_fold::utils::{
    bytes_to_u32_le, format_bytes, format_scalar_blake_hash, get_depth_from_n_leaves,
    get_verifier_key, is_power_of_two, n_blocks_from_bytes, pad_vector_to_min_length,
};
use blake3_fold::Blake3FoldError;

use blake3::hazmat::{merge_subtrees_non_root, merge_subtrees_root, HasherExt, Mode};

// ---------------------------------------------------------------------------
// Tests carried over from the original suite.

#[test]
fn test_hash_with_path() {
    // Two full chunks
    // Two levels, 64
    // Three levels, 128
    // Four, 192
    let input = vec![3 as u8; 1_024 * 8];
    let (_hash, path_nodes) = hash_with_path(&input, 1).unwrap();
    println!("path_nodes: {:?}", path_nodes.parent_path);
}

#[test]
fn test_compress() {}

// ---------------------------------------------------------------------------
// Path extraction.

/// Recompute the chunk's chaining value and fold it up the authentication
/// path; the result must be the root hash. Directions name the side the path
/// descends to, so the sibling goes on the other side.
fn reconstruct_root(
    chunk_bytes: &[u8],
    chunk_idx: u64,
    path: &[PathNode],
) -> blake3::Hash {
    assert!(!path.is_empty());
    let mut hasher = blake3::Hasher::new();
    hasher.set_input_offset(chunk_idx * 1024);
    hasher.update(chunk_bytes);
    let mut cv = hasher.finalize_non_root();
    for i in (1..path.len()).rev() {
        let node = &path[i];
        cv = match node.0 {
            PathDirection::Left => merge_subtrees_non_root(&cv, &node.1, Mode::Hash),
            PathDirection::Right => merge_subtrees_non_root(&node.1, &cv, Mode::Hash),
        };
    }
    let node = &path[0];
    match node.0 {
        PathDirection::Left => merge_subtrees_root(&cv, &node.1, Mode::Hash),
        PathDirection::Right => merge_subtrees_root(&node.1, &cv, Mode::Hash),
    }
}

#[test]
fn test_root_matches_reference_hash() {
    let mut input = vec![0u8; 4096];
    for (i, b) in input.iter_mut().enumerate() {
        *b = (i % 251) as u8;
    }
    let expected = blake3::hash(&input);
    for leaf in 0..4 {
        let (root, proof) = hash_with_path(&input, leaf).unwrap();
        assert_eq!(root, expected.as_bytes().to_vec());
        assert_eq!(proof.chunk_idx, leaf as u64);
        assert_eq!(proof.bytes, input[leaf * 1024..(leaf + 1) * 1024].to_vec());
    }
}

#[test]
fn test_end_to_end_two_chunks_same_root() {
    // 1028 zero bytes: two chunks, the second partial.
    let input = vec![0u8; 1028];
    let expected = blake3::hash(&input);

    let (root0, proof0) = hash_with_path(&input, 0).unwrap();
    let (root1, proof1) = hash_with_path(&input, 1).unwrap();
    assert_eq!(root0, root1);
    assert_eq!(root0, expected.as_bytes().to_vec());

    assert_eq!(proof0.parent_path.len(), 1);
    assert_eq!(proof1.parent_path.len(), 1);
    assert_eq!(proof0.parent_path[0].0, PathDirection::Left);
    assert_eq!(proof1.parent_path[0].0, PathDirection::Right);
    assert_eq!(proof0.bytes, vec![0u8; 1024]);
    assert_eq!(proof1.bytes, vec![0u8; 4]);

    // Both leaves reconstruct the same externally verifiable root hash via
    // their respective authentication paths.
    let rec0 = reconstruct_root(&proof0.bytes, 0, &proof0.parent_path);
    let rec1 = reconstruct_root(&proof1.bytes, 1, &proof1.parent_path);
    assert_eq!(rec0, expected);
    assert_eq!(rec1, expected);

    // And both step sequences have the right length and shape.
    for (leaf, proof) in [(0u64, &proof0), (1u64, &proof1)] {
        let mut circuit = Blake3BlockCompressCircuit::new(
            proof.bytes.clone(),
            proof.parent_path.clone(),
            String::new(),
            String::new(),
        );
        let num_steps = circuit.num_steps();
        assert_eq!(num_steps, circuit.n_blocks + circuit.total_depth - 1);
        let io = initial_public_io(leaf, circuit.total_depth as u64, circuit.n_blocks as u64, 2);
        for _ in 0..num_steps {
            assert!(!circuit.is_terminal());
            let record = circuit.format_input(&io).unwrap();
            assert_eq!(record.message_words.len(), 16);
            circuit.update_for_step();
        }
        assert!(circuit.is_terminal());
    }
}

#[test]
fn test_reconstruct_root_from_every_leaf() {
    for n_chunks in [2usize, 4, 8, 16] {
        let mut input = vec![0u8; n_chunks * 1024];
        for (i, b) in input.iter_mut().enumerate() {
            *b = (i % 241) as u8;
        }
        let expected = blake3::hash(&input);
        for leaf in 0..n_chunks {
            let (root, proof) = hash_with_path(&input, leaf).unwrap();
            assert_eq!(root, expected.as_bytes().to_vec());
            let rec = reconstruct_root(&proof.bytes, leaf as u64, &proof.parent_path);
            assert_eq!(rec, expected);
        }
    }
}

#[test]
fn test_auth_path_length_and_directions() {
    for n_chunks in [2usize, 4, 8, 16] {
        let input = vec![7u8; n_chunks * 1024];
        let log2 = n_chunks.trailing_zeros() as usize;
        let total_depth = get_depth_from_n_leaves(n_chunks);
        assert_eq!(total_depth - 1, log2);
        for leaf in 0..n_chunks {
            let (_root, proof) = hash_with_path(&input, leaf).unwrap();
            assert_eq!(proof.parent_path.len(), total_depth - 1);
            assert_eq!(proof.parent_path.len(), log2);
            for (i, node) in proof.parent_path.iter().enumerate() {
                let expected_dir = if leaf & (1 << (log2 - i - 1)) == 0 {
                    PathDirection::Left
                } else {
                    PathDirection::Right
                };
                assert_eq!(node.0, expected_dir);
            }
        }
    }
}

#[test]
fn test_partial_final_chunk_paths() {
    // Three full chunks and 4 bytes more: four chunks, the last partial.
    let input = vec![0u8; 1024 * 3 + 4];
    let expected = blake3::hash(&input);
    for leaf in [2usize, 3] {
        let (root, proof) = hash_with_path(&input, leaf).unwrap();
        assert_eq!(root, expected.as_bytes().to_vec());
        assert_eq!(proof.parent_path.len(), 2);
        if leaf == 3 {
            assert_eq!(proof.bytes.len(), 4);
        } else {
            assert_eq!(proof.bytes.len(), 1024);
        }
        let rec = reconstruct_root(&proof.bytes, leaf as u64, &proof.parent_path);
        assert_eq!(rec, expected);
    }
}

#[test]
fn test_build_path_rejects_malformed_slice() {
    // A two-level tree expects an 8-byte header, one 64-byte parent pair and
    // the content bytes; anything else is an extraction fault.
    let malformed = vec![0u8; 10];
    assert_eq!(
        blake3_fold::blake3_hash::build_path(&malformed, 0, 4, 2),
        Err(Blake3FoldError::IOError)
    );
    let well_formed = vec![0u8; 8 + 64 + 4];
    let path = blake3_fold::blake3_hash::build_path(&well_formed, 0, 4, 2).unwrap();
    assert_eq!(path.len(), 1);
    assert_eq!(path[0].0, PathDirection::Left);
    assert_eq!(path[0].1, [0u8; 32]);
}

#[test]
fn test_single_chunk_input() {
    let input = vec![7u8];
    let expected = blake3::hash(&input);
    let (root, proof) = hash_with_path(&input, 0).unwrap();
    assert_eq!(root, expected.as_bytes().to_vec());
    assert_eq!(proof.parent_path.len(), 0);
    assert_eq!(proof.bytes, vec![7u8]);
    assert_eq!(proof.chunk_idx, 0);
}

#[test]
fn test_non_power_of_two_chunks_rejected() {
    // 3 chunks.
    let input = vec![0u8; 3 * 1024];
    assert_eq!(
        hash_with_path(&input, 0),
        Err(Blake3FoldError::ConfigurationError)
    );
    // 5 chunks, the last partial.
    let input = vec![0u8; 4 * 1024 + 1];
    assert_eq!(
        hash_with_path(&input, 2),
        Err(Blake3FoldError::ConfigurationError)
    );
    // 0 chunks.
    let input = Vec::new();
    assert_eq!(
        hash_with_path(&input, 0),
        Err(Blake3FoldError::ConfigurationError)
    );
}

// ---------------------------------------------------------------------------
// StepIO codec.

#[test]
fn test_step_io_roundtrip() {
    let h_keys: Vec<u64> = vec![11, 22, 33, 44, 55, 66, 77, 88];
    let x = Blake3CompressPubIO::new(0xDEADBEEF_12345678, 5, 9, h_keys, 5);
    assert_eq!(x.chunk_idx_low, 0x12345678);
    assert_eq!(x.chunk_idx_high, 0xDEADBEEF);
    assert_eq!(x.depth, 4);
    assert_eq!(x.block_count, 0);
    let v = x.to_vec();
    assert_eq!(v.len(), 15);
    assert_eq!(
        v,
        vec![9, 0, 11, 22, 33, 44, 55, 66, 77, 88, 5, 4, 0x12345678, 0xDEADBEEF, 5]
    );
    let y = Blake3CompressPubIO::from_vec(v).unwrap();
    assert_eq!(y, x);
}

#[test]
fn test_from_vec_wrong_arity() {
    assert_eq!(
        Blake3CompressPubIO::from_vec(vec![0u64; 14]),
        Err(Blake3FoldError::InvariantViolation)
    );
    assert_eq!(
        Blake3CompressPubIO::from_vec(vec![0u64; 16]),
        Err(Blake3FoldError::InvariantViolation)
    );
    assert_eq!(
        Blake3CompressPubIO::from_vec(Vec::new()),
        Err(Blake3FoldError::InvariantViolation)
    );
}

#[test]
fn test_initial_public_io_seeds_iv() {
    let io = initial_public_io(3, 2, 16, 2);
    for i in 0..8 {
        assert_eq!(io.h_keys[i], IV[i] as u64);
    }
    assert_eq!(io.chunk_idx_low, 3);
    assert_eq!(io.chunk_idx_high, 0);
    assert_eq!(io.total_depth, 2);
    assert_eq!(io.depth, 1);
    assert_eq!(io.n_blocks, 16);
    assert_eq!(io.block_count, 0);
    assert_eq!(io.leaf_depth, 2);
    let v = io.to_vec();
    assert_eq!(v[2], 0x6A09E667);
    assert_eq!(v[9], 0x5BE0CD19);
}

// ---------------------------------------------------------------------------
// Step sequencer.

#[test]
fn test_sequencer_reaches_terminal_exactly() {
    // (leaf bytes, parent path length) in several shapes.
    let cases: [(usize, usize); 6] = [(130, 2), (1024, 0), (68, 0), (1, 0), (17, 3), (1024, 4)];
    for (n_bytes, path_len) in cases {
        let bytes = vec![0xABu8; n_bytes];
        let path = vec![PathNode::new(PathDirection::Left, [0u8; 32]); path_len];
        let mut circuit =
            Blake3BlockCompressCircuit::new(bytes, path, String::new(), String::new());
        let expected_blocks = (n_bytes + 63) / 64;
        assert_eq!(circuit.n_blocks, expected_blocks);
        assert_eq!(circuit.total_depth, path_len + 1);
        let num_steps = circuit.num_steps();
        assert_eq!(num_steps, expected_blocks + path_len);
        let io = initial_public_io(0, circuit.total_depth as u64, circuit.n_blocks as u64, 1);
        for _ in 0..num_steps {
            assert!(!circuit.is_terminal());
            assert!(circuit.format_input(&io).is_ok());
            circuit.update_for_step();
        }
        assert!(circuit.is_terminal());
        // A record requested past Terminal is an invariant violation.
        assert_eq!(
            circuit.format_input(&io),
            Err(Blake3FoldError::InvariantViolation)
        );
    }
}

#[test]
fn test_format_input_absorbing() {
    let mut bytes = vec![0u8; 68];
    for (i, b) in bytes.iter_mut().enumerate() {
        *b = i as u8;
    }
    let mut circuit =
        Blake3BlockCompressCircuit::new(bytes.clone(), Vec::new(), String::new(), String::new());
    assert_eq!(circuit.n_blocks, 2);
    let io = initial_public_io(0, 1, 2, 1);

    // First block: 64 full bytes.
    assert_eq!(circuit.phase, StepPhase::Absorbing { current_block: 0 });
    let rec = circuit.format_input(&io).unwrap();
    assert_eq!(rec.byte_count, 64);
    assert!(!rec.override_to_iv);
    assert_eq!(rec.message_words.len(), 16);
    for w in 0..16 {
        let expected = u32::from_le_bytes([
            bytes[4 * w],
            bytes[4 * w + 1],
            bytes[4 * w + 2],
            bytes[4 * w + 3],
        ]);
        assert_eq!(rec.message_words[w], expected);
    }
    // Pass-through fields come from the state vector.
    assert_eq!(rec.block_count, io.block_count);
    assert_eq!(rec.n_blocks, io.n_blocks);
    assert_eq!(rec.total_depth, io.total_depth);
    assert_eq!(rec.depth, io.depth);
    assert_eq!(rec.chunk_idx_low, io.chunk_idx_low);
    assert_eq!(rec.chunk_idx_high, io.chunk_idx_high);
    assert_eq!(rec.leaf_depth, io.leaf_depth);
    assert_eq!(rec.h_keys, io.h_keys);

    // Second block: 4 bytes, zero-padded to 64.
    circuit.update_for_step();
    assert_eq!(circuit.phase, StepPhase::Absorbing { current_block: 1 });
    let rec = circuit.format_input(&io).unwrap();
    assert_eq!(rec.byte_count, 4);
    assert!(!rec.override_to_iv);
    assert_eq!(
        rec.message_words[0],
        u32::from_le_bytes([bytes[64], bytes[65], bytes[66], bytes[67]])
    );
    for w in 1..16 {
        assert_eq!(rec.message_words[w], 0);
    }

    circuit.update_for_step();
    assert!(circuit.is_terminal());
}

#[test]
fn test_format_input_ascending() {
    let path = vec![
        PathNode::new(PathDirection::Right, [0xAAu8; 32]),
        PathNode::new(PathDirection::Left, [0xBBu8; 32]),
    ];
    let mut circuit =
        Blake3BlockCompressCircuit::new(vec![5u8; 10], path, String::new(), String::new());
    assert_eq!(circuit.n_blocks, 1);
    assert_eq!(circuit.total_depth, 3);
    assert_eq!(circuit.num_steps(), 3);
    let io = initial_public_io(1, 3, 1, 3);

    // Absorb the single block, then ascend: leaf-most node first.
    circuit.update_for_step();
    assert_eq!(circuit.phase, StepPhase::Ascending { current_depth: 1 });
    let rec = circuit.format_input(&io).unwrap();
    assert_eq!(rec.byte_count, 64);
    assert!(rec.override_to_iv);
    for w in 0..8 {
        assert_eq!(rec.message_words[w], 0xBBBBBBBB);
    }
    for w in 8..16 {
        assert_eq!(rec.message_words[w], 0);
    }

    circuit.update_for_step();
    assert_eq!(circuit.phase, StepPhase::Ascending { current_depth: 0 });
    let rec = circuit.format_input(&io).unwrap();
    for w in 0..8 {
        assert_eq!(rec.message_words[w], 0xAAAAAAAA);
    }

    circuit.update_for_step();
    assert!(circuit.is_terminal());
}

// ---------------------------------------------------------------------------
// Hash word formatter.

/// The 8 chaining-value words whose formatted bytes are a given digest.
fn digest_words(digest: &blake3::Hash) -> [u64; 8] {
    let b = digest.as_bytes();
    let mut words = [0u64; 8];
    for i in 0..8 {
        words[i] =
            u32::from_le_bytes([b[4 * i], b[4 * i + 1], b[4 * i + 2], b[4 * i + 3]]) as u64;
    }
    words
}

#[test]
fn test_hash_word_formatter_reference_digests() {
    let inputs: [Vec<u8>; 4] = [
        vec![0x00u8; 1],
        vec![0x75u8; 17],
        vec![0x00u8; 1024],
        vec![0x00u8; 68],
    ];
    for input in inputs {
        let digest = blake3::hash(&input);
        let words = digest_words(&digest);
        let formatted = format_scalar_blake_hash(words);
        assert_eq!(formatted, digest.as_bytes().to_vec());
    }
}

#[test]
fn test_hash_word_formatter_exact_bytes() {
    let mut words = [0u64; 8];
    words[0] = 0x04030201;
    words[7] = 0xDDCCBBAA;
    let out = format_scalar_blake_hash(words);
    assert_eq!(out.len(), 32);
    assert_eq!(&out[0..4], &[0x01, 0x02, 0x03, 0x04]);
    assert_eq!(&out[4..28], &[0u8; 24]);
    assert_eq!(&out[28..32], &[0xAA, 0xBB, 0xCC, 0xDD]);
    // Only the low 32 bits of a word reach the digest.
    let mut words = [0u64; 8];
    words[0] = 0xFFFF_FFFF_0000_0001;
    let out = format_scalar_blake_hash(words);
    assert_eq!(&out[0..4], &[0x01, 0x00, 0x00, 0x00]);
}

#[test]
fn test_digest_from_io_vec() {
    let digest = blake3::hash(&[0u8; 68]);
    let words = digest_words(&digest);
    let mut v = vec![2u64, 0u64];
    v.extend_from_slice(&words);
    v.extend_from_slice(&[1, 0, 0, 0, 1]);
    assert_eq!(v.len(), 15);
    let out = digest_from_io_vec(&v).unwrap();
    assert_eq!(out, digest.as_bytes().to_vec());

    assert_eq!(
        digest_from_io_vec(&vec![0u64; 10]),
        Err(Blake3FoldError::InvariantViolation)
    );
}

// ---------------------------------------------------------------------------
// Utils.

#[test]
fn test_bytes_to_u32_le_values() {
    assert_eq!(
        bytes_to_u32_le(&[0x78, 0x56, 0x34, 0x12]),
        vec![0x12345678u32]
    );
    // A trailing partial group becomes the word 0, not a padded word.
    assert_eq!(bytes_to_u32_le(&[1, 0, 0, 0, 0xFF]), vec![1u32, 0u32]);
    assert_eq!(bytes_to_u32_le(&[]), Vec::<u32>::new());
    assert_eq!(bytes_to_u32_le(&[9, 9]), vec![0u32]);
}

#[test]
fn test_pad_vector_to_min_length() {
    let mut v = vec![1u8, 2];
    pad_vector_to_min_length(&mut v, 4, 9);
    assert_eq!(v, vec![1, 2, 9, 9]);
    let mut v = vec![1u8, 2, 3];
    pad_vector_to_min_length(&mut v, 2, 9);
    assert_eq!(v, vec![1, 2, 3]);
}

#[test]
fn test_n_blocks_from_bytes() {
    assert_eq!(n_blocks_from_bytes(0), 0);
    assert_eq!(n_blocks_from_bytes(1), 1);
    assert_eq!(n_blocks_from_bytes(64), 1);
    assert_eq!(n_blocks_from_bytes(65), 2);
    assert_eq!(n_blocks_from_bytes(1024), 16);
}

#[test]
fn test_get_depth_from_n_leaves() {
    assert_eq!(get_depth_from_n_leaves(1), 1);
    assert_eq!(get_depth_from_n_leaves(2), 2);
    assert_eq!(get_depth_from_n_leaves(3), 3);
    assert_eq!(get_depth_from_n_leaves(4), 3);
    assert_eq!(get_depth_from_n_leaves(8), 4);
    assert_eq!(get_depth_from_n_leaves(16), 5);
}

#[test]
fn test_is_power_of_two() {
    assert!(!is_power_of_two(0));
    assert!(is_power_of_two(1));
    assert!(is_power_of_two(2));
    assert!(!is_power_of_two(3));
    assert!(is_power_of_two(16));
    assert!(!is_power_of_two(24));
}

#[test]
fn test_format_bytes_values() {
    assert_eq!(format_bytes(&[0, 0, 0, 0]), vec!["0x00000000".to_string()]);
    assert_eq!(
        format_bytes(&[0x78, 0x56, 0x34, 0x12]),
        vec!["0x12345678".to_string()]
    );
    assert_eq!(
        format_bytes(&[3, 3, 3, 3, 0xFF, 0, 0, 0]),
        vec!["0x03030303".to_string(), "0x000000ff".to_string()]
    );
}

#[test]
fn test_get_verifier_key() {
    assert_eq!(get_verifier_key(), vec![0u8; 32]);
}

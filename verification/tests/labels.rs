use nse_labels::batch_hasher::{batch_hash, preloaded_hasher, truncate_hash};
use nse_labels::butterfly_graph::ButterflyGraph;
use nse_labels::config::Config;
use nse_labels::domain::DomainElement;
use nse_labels::error::Error;
use nse_labels::expander_graph::ExpanderGraph;
use nse_labels::labels::{
    butterfly_decode_layer, butterfly_encode_layer, butterfly_layer, decode, encode_with_trees,
    expander_layer, hash_prefix, mask_layer,
};
use rand::{Rng, RngCore, SeedableRng};
use rand_xorshift::XorShiftRng;
use sha2::{Digest, Sha256};

const TEST_SEED: [u8; 16] = [
    0x59, 0x62, 0xbe, 0x5d, 0x76, 0x3d, 0x31, 0x8d, 0x17, 0xdb, 0x37, 0x32, 0x54, 0x06, 0xbc, 0xe5,
];

/// The modulus of the field, least significant byte first.
const MODULUS: [u8; 32] = [
    0x01, 0x00, 0x00, 0x00, 0xff, 0xff, 0xff, 0xff, 0xfe, 0x5b, 0xfe, 0xff, 0x02, 0xa4, 0xbd, 0x53,
    0x05, 0xd8, 0xa1, 0x09, 0x08, 0xd8, 0x39, 0x33, 0x48, 0x7d, 0x9d, 0x29, 0x53, 0xa7, 0xed, 0x73,
];

fn sample_config() -> Config {
    Config {
        k: 8,
        n: 2048,
        degree_expander: 12,
        degree_butterfly: 4,
        num_expander_layers: 6,
        num_butterfly_layers: 4,
    }
}

/// A uniformly random field element, by rejection sampling.
fn random_element<R: RngCore>(rng: &mut R) -> [u8; 32] {
    loop {
        let mut bytes = [0u8; 32];
        for limb in 0..4 {
            bytes[8 * limb..8 * limb + 8].copy_from_slice(&rng.next_u64().to_le_bytes());
        }
        bytes[31] &= 0x7f;
        if DomainElement::try_from_bytes(&bytes).is_ok() {
            return bytes;
        }
    }
}

fn random_elements<R: RngCore>(rng: &mut R, count: usize) -> Vec<u8> {
    (0..count).flat_map(|_| random_element(rng).to_vec()).collect()
}

fn truncated(mut digest: [u8; 32]) -> [u8; 32] {
    digest[31] &= 0b0011_1111;
    digest
}

fn sha256(parts: &[&[u8]]) -> [u8; 32] {
    let mut hasher = Sha256::new();
    for part in parts {
        hasher.update(part);
    }
    hasher.finalize().into()
}

/// The label of a node, computed from the formula with another SHA-256.
fn expected_label(
    layer: u32,
    node: u32,
    window: u32,
    replica_id: &[u8; 32],
    parents: &[u32],
    layer_in: &[u8],
) -> [u8; 32] {
    let mut message = Vec::new();
    message.extend_from_slice(&layer.to_be_bytes());
    message.extend_from_slice(&node.to_be_bytes());
    message.extend_from_slice(&window.to_be_bytes());
    message.extend_from_slice(&[0u8; 20]);
    message.extend_from_slice(replica_id);
    for &parent in parents {
        let at = parent as usize * 32;
        message.extend_from_slice(&layer_in[at..at + 32]);
    }
    truncated(sha256(&[&message]))
}

fn add_mod(a: &[u8], b: &[u8]) -> [u8; 32] {
    let mut sum = [0u16; 33];
    let mut carry = 0u16;
    for i in 0..32 {
        let t = a[i] as u16 + b[i] as u16 + carry;
        sum[i] = t & 0xff;
        carry = t >> 8;
    }
    sum[32] = carry;
    let mut not_below = true;
    for i in (0..33).rev() {
        let m = if i == 32 { 0 } else { MODULUS[i] as u16 };
        if sum[i] != m {
            not_below = sum[i] > m;
            break;
        }
    }
    let mut out = [0u8; 32];
    let mut borrow = 0i32;
    for i in 0..32 {
        let m = if not_below { MODULUS[i] as i32 } else { 0 };
        let t = sum[i] as i32 - m - borrow;
        out[i] = (t & 0xff) as u8;
        borrow = if t < 0 { 1 } else { 0 };
    }
    out
}

#[test]
fn test_mask_layer() {
    let rng = &mut XorShiftRng::from_seed(TEST_SEED);

    let config = sample_config();
    let replica_id = random_element(rng);
    let window_index = rng.gen();

    let mut layer: Vec<u8> = (0..config.n).map(|_| rng.gen()).collect();

    mask_layer(&config, window_index, &replica_id, &mut layer).unwrap();

    assert!(!layer.iter().all(|&byte| byte == 0), "must not all be zero");
}

#[test]
fn test_expander_layer() {
    let rng = &mut XorShiftRng::from_seed(TEST_SEED);

    let config = sample_config();
    let replica_id = random_element(rng);
    let window_index = rng.gen();
    let layer_index = rng.gen_range(2, config.num_expander_layers as u32);

    let layer_in: Vec<u8> = random_elements(rng, config.n / 32);
    let mut layer_out = vec![0u8; config.n];

    expander_layer(
        &config,
        window_index,
        &replica_id,
        layer_index,
        &layer_in,
        &mut layer_out,
    )
    .unwrap();

    assert!(
        !layer_out.iter().all(|&byte| byte == 0),
        "must not all be zero"
    );
}

#[test]
fn test_butterfly_layer() {
    let rng = &mut XorShiftRng::from_seed(TEST_SEED);

    let config = sample_config();
    let replica_id = random_element(rng);
    let window_index = rng.gen();
    let layer_index = rng.gen_range(
        config.num_expander_layers,
        config.num_expander_layers + config.num_butterfly_layers,
    ) as u32;

    let layer_in: Vec<u8> = random_elements(rng, config.n / 32);
    let mut layer_out = vec![0u8; config.n];

    butterfly_layer(
        &config,
        window_index,
        &replica_id,
        layer_index,
        &layer_in,
        &mut layer_out,
    )
    .unwrap();

    assert!(
        !layer_out.iter().all(|&byte| byte == 0),
        "must not all be zero"
    );
}

#[test]
fn test_butterfly_encode_decode_layer() {
    let rng = &mut XorShiftRng::from_seed(TEST_SEED);

    let config = sample_config();
    let replica_id = random_element(rng);
    let window_index = rng.gen();
    let layer_index = (config.num_expander_layers + config.num_butterfly_layers) as u32;

    let data: Vec<u8> = random_elements(rng, config.n / 32);

    let layer_in: Vec<u8> = random_elements(rng, config.n / 32);

    let mut layer_out = vec![0u8; config.n];

    butterfly_encode_layer(
        &config,
        window_index,
        &replica_id,
        layer_index,
        &layer_in,
        &data,
        &mut layer_out,
    )
    .unwrap();

    assert!(
        !layer_out.iter().all(|&byte| byte == 0),
        "must not all be zero"
    );

    let mut data_back = vec![0u8; config.n];
    butterfly_decode_layer(
        &config,
        window_index,
        &replica_id,
        layer_index,
        &layer_in,
        &layer_out,
        &mut data_back,
    )
    .unwrap();
    assert_eq!(data, data_back, "failed to decode");
}

#[test]
fn test_encode_decode_layer() {
    let rng = &mut XorShiftRng::from_seed(TEST_SEED);

    let config = sample_config();
    let replica_id = random_element(rng);
    let window_index = rng.gen();

    let data: Vec<u8> = random_elements(rng, config.n / 32);

    let (encoded_data, trees) =
        encode_with_trees(&config, window_index, &replica_id, &data).unwrap();
    assert_eq!(
        trees.len(),
        config.num_expander_layers + config.num_butterfly_layers
    );
    assert_ne!(data, encoded_data, "failed to encode");

    let data_back = decode(&config, window_index, &replica_id, &encoded_data).unwrap();
    assert_eq!(data, data_back, "failed to decode");
}

#[test]
fn test_hash_prefix() {
    assert_eq!(hash_prefix(0, 0, 0), [0u8; 32]);
    assert_eq!(
        hash_prefix(1, 2, 3),
        [
            0, 0, 0, 1, 0, 0, 0, 2, 0, 0, 0, 3, 0, 0, 0, 0, 0, 0, 0, 0, 0, 0, 0, 0, 0, 0, 0, 0,
            0, 0, 0, 0
        ]
    );
}

#[test]
fn hash_prefix_is_big_endian() {
    let prefix = hash_prefix(0x0102_0304, 0xa0b0_c0d0, 0xffff_fffe);
    assert_eq!(&prefix[..4], &[1, 2, 3, 4]);
    assert_eq!(&prefix[4..8], &[0xa0, 0xb0, 0xc0, 0xd0]);
    assert_eq!(&prefix[8..12], &[0xff, 0xff, 0xff, 0xfe]);
    assert_eq!(&prefix[12..], &[0u8; 20]);
}

#[test]
fn truncate_hash_clears_two_bits() {
    let mut hash = [0xffu8; 32];
    truncate_hash(&mut hash);
    assert_eq!(&hash[..31], &[0xffu8; 31]);
    assert_eq!(hash[31], 0x3f);
    assert!(DomainElement::try_from_bytes(&hash).is_ok());
}

#[test]
fn mask_layer_matches_formula() {
    let config = sample_config();
    let replica_id = [7u8; 32];
    let window_index = 3;
    let mut layer = vec![0u8; config.n];
    mask_layer(&config, window_index, &replica_id, &mut layer).unwrap();
    for node in 0..config.n / 32 {
        let expected = expected_label(1, node as u32, window_index, &replica_id, &[], &[]);
        assert_eq!(&layer[node * 32..node * 32 + 32], &expected);
    }
}

#[test]
fn mask_layer_known_digest() {
    // SHA-256 of the prefix of layer 1, node 0, window 0 and a zero identifier.
    let config = Config { n: 32, ..sample_config() };
    let mut layer = vec![0u8; 32];
    mask_layer(&config, 0, &[0u8; 32], &mut layer).unwrap();
    let mut message = [0u8; 64];
    message[3] = 1;
    assert_eq!(layer, truncated(sha256(&[&message])).to_vec());
    assert_ne!(&layer[..32], &message[..32]);
}

#[test]
fn expander_parents_match_formula() {
    let config = sample_config();
    let graph = ExpanderGraph::new(&config);
    for node in [0u32, 1, 17, 63] {
        let parents = graph.parents(node);
        assert_eq!(parents.len(), config.degree_expander);
        for (slot, &parent) in parents.iter().enumerate() {
            let mut seed = [0u8; 64];
            seed[..4].copy_from_slice(&node.to_be_bytes());
            seed[4..12].copy_from_slice(&((slot / 8) as u64).to_be_bytes());
            let digest = sha256(&[&seed]);
            let at = 4 * (slot % 8);
            let word = u32::from_be_bytes([
                digest[at],
                digest[at + 1],
                digest[at + 2],
                digest[at + 3],
            ]);
            assert_eq!(parent, word % 64);
        }
        assert_eq!(parents, graph.parents(node));
    }
}

#[test]
fn butterfly_parents_match_formula() {
    let config = sample_config();
    let graph = ButterflyGraph::new(&config);
    assert_eq!(graph.parents(5, 10), vec![5, 6, 7, 8]);
    assert_eq!(graph.parents(5, 9), vec![5, 9, 13, 17]);
    assert_eq!(graph.parents(5, 8), vec![5, 21, 37, 53]);
    assert_eq!(graph.parents(5, 7), vec![5, 5, 5, 5]);
    assert_eq!(graph.parents(63, 10), vec![63, 0, 1, 2]);
    assert_eq!(graph.parents(60, 9), vec![60, 0, 4, 8]);
}

#[test]
fn butterfly_parents_of_wide_graph() {
    let graph = ButterflyGraph { degree: 3, num_leafs: 100, num_layers: 5 };
    // stride 3^3 = 27
    assert_eq!(graph.parents(90, 2), vec![90, 17, 44]);
    // layers beyond the last have stride 1
    assert_eq!(graph.parents(99, 7), vec![99, 0, 1]);
}

#[test]
fn expander_layer_matches_formula() {
    let config = sample_config();
    let rng = &mut XorShiftRng::from_seed(TEST_SEED);
    let replica_id = random_element(rng);
    let layer_in = random_elements(rng, config.n / 32);
    let mut layer_out = vec![0u8; config.n];
    expander_layer(&config, 9, &replica_id, 4, &layer_in, &mut layer_out).unwrap();
    let graph = ExpanderGraph::new(&config);
    for node in 0..config.n / 32 {
        let parents = graph.parents(node as u32);
        let expected = expected_label(4, node as u32, 9, &replica_id, &parents, &layer_in);
        assert_eq!(&layer_out[node * 32..node * 32 + 32], &expected);
    }
}

#[test]
fn butterfly_layer_matches_formula() {
    let config = sample_config();
    let rng = &mut XorShiftRng::from_seed(TEST_SEED);
    let replica_id = random_element(rng);
    let layer_in = random_elements(rng, config.n / 32);
    let mut layer_out = vec![0u8; config.n];
    butterfly_layer(&config, 9, &replica_id, 8, &layer_in, &mut layer_out).unwrap();
    let graph = ButterflyGraph::new(&config);
    for node in 0..config.n / 32 {
        let parents = graph.parents(node as u32, 8);
        let expected = expected_label(8, node as u32, 9, &replica_id, &parents, &layer_in);
        assert_eq!(&layer_out[node * 32..node * 32 + 32], &expected);
    }
}

#[test]
fn encode_layer_matches_formula() {
    let config = sample_config();
    let rng = &mut XorShiftRng::from_seed(TEST_SEED);
    let replica_id = random_element(rng);
    let layer_in = random_elements(rng, config.n / 32);
    let data = random_elements(rng, config.n / 32);
    let mut layer_out = vec![0u8; config.n];
    butterfly_encode_layer(&config, 1, &replica_id, 10, &layer_in, &data, &mut layer_out)
        .unwrap();
    let graph = ButterflyGraph::new(&config);
    for node in 0..config.n / 32 {
        let parents = graph.parents(node as u32, 10);
        let key = expected_label(10, node as u32, 1, &replica_id, &parents, &layer_in);
        let expected = add_mod(&key, &data[node * 32..node * 32 + 32]);
        assert_eq!(&layer_out[node * 32..node * 32 + 32], &expected);
    }
}

#[test]
fn batch_hash_does_not_depend_on_k() {
    let rng = &mut XorShiftRng::from_seed(TEST_SEED);
    let layer = random_elements(rng, 64);
    let prefix = hash_prefix(2, 5, 1);
    let replica_id = random_element(rng);
    for degree in 0..14usize {
        let parents: Vec<u32> = (0..degree).map(|_| rng.gen_range(0, 64)).collect();
        let mut message = Vec::new();
        message.extend_from_slice(&prefix);
        message.extend_from_slice(&replica_id);
        for &parent in &parents {
            message.extend_from_slice(&layer[parent as usize * 32..parent as usize * 32 + 32]);
        }
        let expected = sha256(&[&message]);
        for k in 0..=degree + 2 {
            let hasher = preloaded_hasher(&prefix, &replica_id);
            assert_eq!(batch_hash(k, degree, hasher, &parents, &layer), expected);
        }
    }
}

#[test]
fn encode_is_deterministic() {
    let rng = &mut XorShiftRng::from_seed(TEST_SEED);
    let config = sample_config();
    let replica_id = random_element(rng);
    let data = random_elements(rng, config.n / 32);
    let first = encode_with_trees(&config, 11, &replica_id, &data).unwrap();
    let second = encode_with_trees(&config, 11, &replica_id, &data).unwrap();
    assert_eq!(first, second);
    let other_k = Config { k: 2, ..config };
    assert_eq!(encode_with_trees(&other_k, 11, &replica_id, &data).unwrap(), first);
    let other_window = encode_with_trees(&config, 12, &replica_id, &data).unwrap();
    assert_ne!(other_window.0, first.0);
}

#[test]
fn encode_returns_every_layer() {
    let rng = &mut XorShiftRng::from_seed(TEST_SEED);
    let config = sample_config();
    let replica_id = random_element(rng);
    let data = random_elements(rng, config.n / 32);
    let (encoded, layers) = encode_with_trees(&config, 0, &replica_id, &data).unwrap();
    assert_eq!(layers.len(), 10);
    assert!(layers.iter().all(|layer| layer.len() == config.n));
    assert_eq!(layers[9], encoded);

    let mut previous = vec![0u8; config.n];
    let mut current = vec![0u8; config.n];
    mask_layer(&config, 0, &replica_id, &mut previous).unwrap();
    assert_eq!(layers[0], previous);
    for layer_index in 2..=6u32 {
        expander_layer(&config, 0, &replica_id, layer_index, &previous, &mut current).unwrap();
        assert_eq!(layers[layer_index as usize - 1], current);
        std::mem::swap(&mut previous, &mut current);
    }
    for layer_index in 7..10u32 {
        butterfly_layer(&config, 0, &replica_id, layer_index, &previous, &mut current).unwrap();
        assert_eq!(layers[layer_index as usize - 1], current);
        std::mem::swap(&mut previous, &mut current);
    }
    butterfly_encode_layer(&config, 0, &replica_id, 10, &previous, &data, &mut current).unwrap();
    assert_eq!(encoded, current);
}

#[test]
fn every_node_is_a_domain_element() {
    let rng = &mut XorShiftRng::from_seed(TEST_SEED);
    let config = sample_config();
    let replica_id = random_element(rng);
    let data = random_elements(rng, config.n / 32);
    let (_, layers) = encode_with_trees(&config, 5, &replica_id, &data).unwrap();
    for layer in &layers {
        for node in layer.chunks(32) {
            assert!(DomainElement::try_from_bytes(node).is_ok());
        }
    }
    for layer in &layers[..9] {
        assert!(layer.chunks(32).all(|node| node[31] & 0xc0 == 0));
    }
}

#[test]
fn round_trip_with_odd_expander_degree() {
    let rng = &mut XorShiftRng::from_seed(TEST_SEED);
    let config = Config {
        k: 3,
        n: 320,
        degree_expander: 9,
        degree_butterfly: 2,
        num_expander_layers: 3,
        num_butterfly_layers: 2,
    };
    let replica_id = random_element(rng);
    let data = random_elements(rng, 10);
    let (encoded, layers) = encode_with_trees(&config, 77, &replica_id, &data).unwrap();
    assert_eq!(layers.len(), 5);
    assert_ne!(encoded, data);
    assert_eq!(decode(&config, 77, &replica_id, &encoded).unwrap(), data);

    let graph = ExpanderGraph::new(&config);
    let parents = graph.parents(4);
    assert_eq!(parents.len(), 9);
    let expected = expected_label(2, 4, 77, &replica_id, &parents, &layers[0]);
    assert_eq!(&layers[1][4 * 32..5 * 32], &expected);
}

#[test]
fn empty_window_round_trips() {
    let config = Config { n: 0, ..sample_config() };
    let (encoded, layers) = encode_with_trees(&config, 1, &[9u8; 32], &[]).unwrap();
    assert!(encoded.is_empty());
    assert_eq!(layers.len(), 10);
    assert_eq!(decode(&config, 1, &[9u8; 32], &encoded).unwrap(), Vec::<u8>::new());
}

#[test]
fn invalid_config_is_rejected() {
    let replica_id = [1u8; 32];
    let odd_butterfly = Config { degree_butterfly: 3, ..sample_config() };
    let ragged = Config { n: 2047, ..sample_config() };
    let no_butterfly = Config { num_butterfly_layers: 0, ..sample_config() };
    let no_expander = Config { num_expander_layers: 0, ..sample_config() };
    for config in [odd_butterfly, ragged, no_butterfly, no_expander] {
        assert!(!config.is_valid());
        assert_eq!(config.validate(), Err(Error::InvalidConfig));
        let mut out = vec![0xabu8; config.n];
        let data = vec![0u8; config.n];
        assert_eq!(
            mask_layer(&config, 0, &replica_id, &mut out),
            Err(Error::InvalidConfig)
        );
        assert_eq!(
            expander_layer(&config, 0, &replica_id, 2, &data, &mut out),
            Err(Error::InvalidConfig)
        );
        assert_eq!(
            butterfly_layer(&config, 0, &replica_id, 7, &data, &mut out),
            Err(Error::InvalidConfig)
        );
        assert_eq!(
            butterfly_encode_layer(&config, 0, &replica_id, 10, &data, &data, &mut out),
            Err(Error::InvalidConfig)
        );
        assert_eq!(
            encode_with_trees(&config, 0, &replica_id, &data),
            Err(Error::InvalidConfig)
        );
        assert_eq!(decode(&config, 0, &replica_id, &data), Err(Error::InvalidConfig));
        assert!(out.iter().all(|&byte| byte == 0xab));
    }
    assert!(sample_config().is_valid());
    assert_eq!(sample_config().validate(), Ok(()));
    assert_eq!(sample_config().num_layers(), 10);
    assert_eq!(sample_config().num_leafs(), 64);
}

#[test]
fn wrong_buffer_length_is_rejected() {
    let config = sample_config();
    let replica_id = [1u8; 32];
    let good = vec![0u8; config.n];
    let short = vec![0u8; config.n - 32];
    let mut out = vec![0xabu8; config.n];
    let mut short_out = vec![0xabu8; config.n - 32];
    assert_eq!(
        mask_layer(&config, 0, &replica_id, &mut short_out),
        Err(Error::BufferLength)
    );
    assert_eq!(
        expander_layer(&config, 0, &replica_id, 2, &short, &mut out),
        Err(Error::BufferLength)
    );
    assert_eq!(
        expander_layer(&config, 0, &replica_id, 2, &short, &mut short_out),
        Err(Error::BufferLength)
    );
    assert_eq!(
        butterfly_layer(&config, 0, &replica_id, 7, &good, &mut short_out),
        Err(Error::BufferLength)
    );
    assert_eq!(
        butterfly_encode_layer(&config, 0, &replica_id, 10, &good, &short, &mut out),
        Err(Error::BufferLength)
    );
    assert_eq!(
        butterfly_decode_layer(&config, 0, &replica_id, 10, &short, &good, &mut out),
        Err(Error::BufferLength)
    );
    assert_eq!(
        encode_with_trees(&config, 0, &replica_id, &short),
        Err(Error::BufferLength)
    );
    assert_eq!(decode(&config, 0, &replica_id, &short), Err(Error::BufferLength));
    assert!(out.iter().all(|&byte| byte == 0xab));
    assert!(short_out.iter().all(|&byte| byte == 0xab));
}

#[test]
fn wrong_layer_index_is_rejected() {
    let config = sample_config();
    let replica_id = [1u8; 32];
    let layer_in = vec![0u8; config.n];
    let mut out = vec![0xabu8; config.n];
    for layer_index in [0u32, 1, 7, 10, 11] {
        assert_eq!(
            expander_layer(&config, 0, &replica_id, layer_index, &layer_in, &mut out),
            Err(Error::LayerIndex)
        );
    }
    for layer_index in [0u32, 1, 6, 10, 11] {
        assert_eq!(
            butterfly_layer(&config, 0, &replica_id, layer_index, &layer_in, &mut out),
            Err(Error::LayerIndex)
        );
    }
    for layer_index in [0u32, 1, 6, 9, 11] {
        assert_eq!(
            butterfly_encode_layer(
                &config,
                0,
                &replica_id,
                layer_index,
                &layer_in,
                &layer_in,
                &mut out
            ),
            Err(Error::LayerIndex)
        );
        assert_eq!(
            butterfly_decode_layer(
                &config,
                0,
                &replica_id,
                layer_index,
                &layer_in,
                &layer_in,
                &mut out
            ),
            Err(Error::LayerIndex)
        );
    }
    assert!(out.iter().all(|&byte| byte == 0xab));
    for layer_index in 2..=6u32 {
        assert_eq!(
            expander_layer(&config, 0, &replica_id, layer_index, &layer_in, &mut out),
            Ok(())
        );
    }
    for layer_index in 7..=9u32 {
        assert_eq!(
            butterfly_layer(&config, 0, &replica_id, layer_index, &layer_in, &mut out),
            Ok(())
        );
    }
}

#[test]
fn data_outside_the_field_is_rejected() {
    let config = sample_config();
    let replica_id = [1u8; 32];
    let layer_in = vec![0u8; config.n];
    let mut data = vec![0u8; config.n];
    data[config.n - 32..].copy_from_slice(&MODULUS);
    let mut out = vec![0xabu8; config.n];
    assert_eq!(
        butterfly_encode_layer(&config, 0, &replica_id, 10, &layer_in, &data, &mut out),
        Err(Error::DomainConversion)
    );
    assert_eq!(
        butterfly_decode_layer(&config, 0, &replica_id, 10, &layer_in, &data, &mut out),
        Err(Error::DomainConversion)
    );
    assert!(out.iter().all(|&byte| byte == 0xab));
    assert_eq!(
        encode_with_trees(&config, 0, &replica_id, &data),
        Err(Error::DomainConversion)
    );
    assert_eq!(decode(&config, 0, &replica_id, &data), Err(Error::DomainConversion));

    // one below the modulus is the largest element
    data[config.n - 32] = 0;
    assert!(encode_with_trees(&config, 0, &replica_id, &data).is_ok());
}

#[test]
fn batch_hash_known_digest() {
    // SHA-256 of 64 zero bytes
    let expected = [
        0xf5, 0xa5, 0xfd, 0x42, 0xd1, 0x6a, 0x20, 0x30, 0x27, 0x98, 0xef, 0x6e, 0xd3, 0x09, 0x97,
        0x9b, 0x43, 0x00, 0x3d, 0x23, 0x20, 0xd9, 0xf0, 0xe8, 0xea, 0x98, 0x31, 0xa9, 0x27, 0x59,
        0xfb, 0x4b,
    ];
    let hasher = preloaded_hasher(&hash_prefix(0, 0, 0), &[0u8; 32]);
    assert_eq!(batch_hash(8, 0, hasher, &[], &[]), expected);
    // the same message as two parents after an empty prefix would be 128 bytes: another digest
    let hasher = preloaded_hasher(&hash_prefix(0, 0, 0), &[0u8; 32]);
    assert_ne!(batch_hash(8, 2, hasher, &[0, 0], &[0u8; 32]), expected);
}

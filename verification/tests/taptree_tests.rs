//! Tests for the taproot tree builder and the tree codec.

use psbt_codec::error::{Error, IncompleteBuilderError, TaprootBuilderError};
use psbt_codec::hashes::TapNodeHash;
use psbt_codec::script::ScriptBuf;
use psbt_codec::taproot::LeafVersion;
use psbt_codec::taptree::{TapTree, TaprootBuilder};

// Composes tree matching a given depth map, filled with dumb script leafs,
// each of which consists of a single push-int op code, with int value
// increased for each consecutive leaf.
fn compose_taproot_builder(opcode: u8, depth_map: &[u8]) -> TaprootBuilder {
    let mut val = opcode;
    let mut builder = TaprootBuilder::new();
    for depth in depth_map {
        let script = ScriptBuf { bytes: vec![val] };
        builder = builder.add_leaf(*depth, script).unwrap();
        let (new_val, _) = val.overflowing_add(1);
        val = new_val;
    }
    builder
}

#[test]
fn taptree_hidden() {
    let mut builder = compose_taproot_builder(0x51, &[2, 2, 2]);
    builder = builder
        .add_leaf_with_ver(
            3,
            ScriptBuf { bytes: vec![0xb9] },
            LeafVersion::from_consensus(0xC2).unwrap(),
        )
        .unwrap();
    builder = builder.add_hidden_node(3, TapNodeHash::all_zeros()).unwrap();
    assert!(TapTree::try_from(builder).is_err());
}

#[test]
fn taptree_roundtrip() {
    let mut builder = compose_taproot_builder(0x51, &[2, 2, 2, 3]);
    builder = builder
        .add_leaf_with_ver(
            3,
            ScriptBuf { bytes: vec![0xb9] },
            LeafVersion::from_consensus(0xC2).unwrap(),
        )
        .unwrap();
    let tree = TapTree::try_from(builder).unwrap();
    let tree_prime = TapTree::deserialize(&tree.serialize()).unwrap();
    assert_eq!(tree, tree_prime);
}

#[test]
fn taptree_hidden_error_kind() {
    let mut builder = compose_taproot_builder(0x51, &[2, 2, 2]);
    builder = builder.add_leaf(3, ScriptBuf { bytes: vec![0xb9] }).unwrap();
    builder = builder.add_hidden_node(3, TapNodeHash::all_zeros()).unwrap();
    assert!(matches!(
        TapTree::try_from(builder),
        Err(IncompleteBuilderError::HiddenParts)
    ));
}

#[test]
fn taptree_single_leaf_roundtrip() {
    let builder = compose_taproot_builder(0x51, &[0]);
    let tree = TapTree::try_from(builder).unwrap();
    let bytes = tree.serialize();
    // depth 0, version 0xc0, script of one byte 0x51
    assert_eq!(bytes, vec![0x00, 0xc0, 0x01, 0x51]);
    let tree_prime = TapTree::deserialize(&bytes).unwrap();
    assert_eq!(tree, tree_prime);
}

#[test]
fn taptree_deserialize_not_in_dfs_order() {
    // A leaf at depth 2 followed by a leaf at depth 1 cannot close the
    // pending depth-2 sibling: the depth-first walk is broken.
    let bytes = vec![0x02, 0xc0, 0x01, 0x51, 0x01, 0xc0, 0x01, 0x52];
    assert!(matches!(
        TapTree::deserialize(&bytes),
        Err(Error::Taproot(s)) if s == "Tree not in DFS order"
    ));
}

#[test]
fn taptree_deserialize_incomplete() {
    // A single leaf at depth 1 leaves its sibling dangling.
    let bytes = vec![0x01, 0xc0, 0x01, 0x51];
    assert!(matches!(
        TapTree::deserialize(&bytes),
        Err(Error::TapTree(IncompleteBuilderError::NotFinalized))
    ));
}

#[test]
fn taptree_deserialize_odd_fragment() {
    // A depth byte with no leaf-version byte after it.
    let bytes = vec![0x00];
    assert!(matches!(
        TapTree::deserialize(&bytes),
        Err(Error::Taproot(s)) if s == "Invalid Taproot Builder"
    ));
}

#[test]
fn taptree_deserialize_bad_leaf_version() {
    // 0xc1 is odd, so it is not a recognized leaf version.
    let bytes = vec![0x00, 0xc1, 0x01, 0x51];
    assert!(matches!(
        TapTree::deserialize(&bytes),
        Err(Error::InvalidLeafVersion)
    ));
}

#[test]
fn taptree_deserialize_truncated_script() {
    // The script claims two bytes but only one follows.
    let bytes = vec![0x00, 0xc0, 0x02, 0x51];
    assert!(matches!(
        TapTree::deserialize(&bytes),
        Err(Error::ConsensusEncoding(_))
    ));
}

#[test]
fn taptree_deserialize_empty_is_not_finalized() {
    assert!(matches!(
        TapTree::deserialize(&[]),
        Err(Error::TapTree(IncompleteBuilderError::NotFinalized))
    ));
}

#[test]
fn builder_rejects_out_of_order_leaf() {
    // After leaves at depths [2, 2, 2] a subtree at depth 2 is still
    // waiting for its sibling, so a leaf at the root level would skip
    // over the unfinished branch.
    let builder = compose_taproot_builder(0x51, &[2, 2, 2]);
    assert!(matches!(
        builder.add_leaf(0, ScriptBuf { bytes: vec![0x54] }),
        Err(TaprootBuilderError::NodeNotInDfsOrder)
    ));
}

#[test]
fn builder_rejects_overfull_tree() {
    let builder = compose_taproot_builder(0x51, &[0]);
    assert!(matches!(
        builder.add_leaf(0, ScriptBuf { bytes: vec![0x52] }),
        Err(TaprootBuilderError::OverCompleteTree)
    ));
}

#[test]
fn builder_rejects_too_deep_leaf() {
    let builder = TaprootBuilder::new();
    assert!(matches!(
        builder.add_leaf(129, ScriptBuf { bytes: vec![0x51] }),
        Err(TaprootBuilderError::InvalidMerkleTreeDepth(129))
    ));
}

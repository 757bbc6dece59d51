//! The Taproot tree codec: flattening a script tree into a run of
//! (depth, leaf version, length-prefixed script) records, and rebuilding
//! a tree from such a run through a builder that enforces depth-first
//! order and structural completeness.
//!
//! The builder mirrors the classic stack algorithm: `branch[d]` records
//! whether a finished subtree at depth `d` is waiting for its sibling.
//! Inserting a node at depth `d` repeatedly combines it with a waiting
//! sibling at the same depth, moving one level up each time.  The spec
//! functions `spec_insert_result` and `spec_replay_from` describe the
//! algorithm exactly, and every tree operation is proved against them.

use vstd::prelude::*;

verus! {

use crate::encode::SpecPartial;
use crate::error::{ConsensusError, Error, IncompleteBuilderError, TaprootBuilderError};
use crate::hashes::TapNodeHash;
use crate::script::{ScriptBuf, script_encoding, spec_decode_script, get_script, put_script};
use crate::taproot::{LeafVersion, leaf_version_ok};

/// Maximum depth of a taproot tree script spend path.
pub const TAPROOT_CONTROL_MAX_NODE_COUNT: usize = 128;

/// A leaf of a taproot tree: its depth in the tree, its leaf version,
/// and its script.
#[derive(Debug, Clone, PartialEq, Eq)]
pub struct TapLeaf {
    /// Depth of the leaf; the root is at depth 0.
    pub depth: u8,
    /// The leaf version the script runs under.
    pub version: LeafVersion,
    /// The leaf script.
    pub script: ScriptBuf,
}

/// The spec-level image of a leaf: plain values only.
pub struct SpecLeaf {
    /// Depth of the leaf.
    pub depth: u8,
    /// The consensus leaf-version byte.
    pub version: u8,
    /// The script bytes.
    pub script: Seq<u8>,
}

impl View for TapLeaf {
    type V = SpecLeaf;

    open spec fn view(&self) -> SpecLeaf {
        SpecLeaf { depth: self.depth, version: self.version.value, script: self.script@ }
    }
}

/// The spec-level images of a vector of leaves.
pub open spec fn leaf_views(ls: Seq<TapLeaf>) -> Seq<SpecLeaf> {
    ls.map_values(|l: TapLeaf| l@)
}

/// All leaf versions in the run are recognized consensus values.
pub open spec fn versions_ok(ls: Seq<SpecLeaf>) -> bool {
    forall|i: int| 0 <= i < ls.len() ==> leaf_version_ok(#[trigger] ls[i].version)
}

/// All script lengths fit the length prefix.
pub open spec fn scripts_fit(ls: Seq<SpecLeaf>) -> bool {
    forall|i: int| 0 <= i < ls.len() ==> (#[trigger] ls[i].script).len() <= u64::MAX
}

// --- the structural insertion algorithm ---

/// Inserting a finished node at `depth` into the branch stack: while a
/// finished subtree waits at the same depth, the two combine into one
/// finished subtree one level up; otherwise the node takes its slot,
/// padding the stack with empty slots below it if needed.
pub open spec fn spec_insert_result(branch: Seq<bool>, depth: int) -> Result<
    Seq<bool>,
    TaprootBuilderError,
>
    decreases depth + 1,
{
    if depth < 0 || depth > 128 {
        Err(TaprootBuilderError::InvalidMerkleTreeDepth(depth as usize))
    } else if depth + 1 < branch.len() {
        Err(TaprootBuilderError::NodeNotInDfsOrder)
    } else if branch.len() == depth + 1 && branch.last() {
        if depth == 0 {
            Err(TaprootBuilderError::OverCompleteTree)
        } else {
            spec_insert_result(branch.drop_last(), depth - 1)
        }
    } else if branch.len() == depth + 1 {
        Ok(branch.update(depth, true))
    } else {
        Ok(branch + Seq::new((depth - branch.len()) as nat, |i: int| false) + seq![true])
    }
}

/// Replaying a run of leaves into the branch stack, front to back.
pub open spec fn spec_replay_from(branch: Seq<bool>, ls: Seq<SpecLeaf>) -> Result<
    Seq<bool>,
    TaprootBuilderError,
>
    decreases ls.len(),
{
    if ls.len() == 0 {
        Ok(branch)
    } else {
        match spec_insert_result(branch, ls[0].depth as int) {
            Ok(b2) => spec_replay_from(b2, ls.skip(1)),
            Err(e) => Err(e),
        }
    }
}

/// Appending one leaf to a replay is one more insertion at its end.
pub proof fn lemma_replay_snoc(branch: Seq<bool>, ls: Seq<SpecLeaf>, l: SpecLeaf)
    ensures
        spec_replay_from(branch, ls.push(l)) == (match spec_replay_from(branch, ls) {
            Ok(b2) => spec_insert_result(b2, l.depth as int),
            Err(e) => Err(e),
        }),
    decreases ls.len(),
{
    if ls.len() == 0 {
        assert(ls.push(l)[0] == l);
        assert(ls.push(l).skip(1) =~= Seq::<SpecLeaf>::empty());
        match spec_insert_result(branch, l.depth as int) {
            Ok(b2) => {
                assert(spec_replay_from(branch, ls.push(l))
                    == spec_replay_from(b2, ls.push(l).skip(1)));
                assert(spec_replay_from(b2, ls.push(l).skip(1))
                    == Ok::<Seq<bool>, TaprootBuilderError>(b2));
            },
            Err(e) => {
                assert(spec_replay_from(branch, ls.push(l))
                    == Err::<Seq<bool>, TaprootBuilderError>(e));
            },
        }
    } else {
        assert(ls.push(l)[0] == ls[0]);
        assert(ls.push(l).skip(1) =~= ls.skip(1).push(l));
        match spec_insert_result(branch, ls[0].depth as int) {
            Ok(b2) => {
                lemma_replay_snoc(b2, ls.skip(1), l);
            },
            Err(e) => {},
        }
    }
}

// --- the builder ---

/// An accumulator that rebuilds a taproot tree from leaves given in
/// depth-first order.  `branch[d]` says whether a finished subtree at
/// depth `d` awaits its sibling; the inserted leaves are kept in order;
/// hidden (pruned) nodes are accepted structurally but poison the
/// builder for conversion to a [`TapTree`].
#[derive(Debug, Clone, PartialEq, Eq)]
pub struct TaprootBuilder {
    branch: Vec<bool>,
    leaves: Vec<TapLeaf>,
    has_hidden: bool,
}

/// Performs the structural insertion on the branch stack, mirroring
/// `spec_insert_result`.
fn insert_depth(branch: &mut Vec<bool>, depth: u8) -> (r: Result<(), TaprootBuilderError>)
    ensures
        match spec_insert_result(old(branch)@, depth as int) {
            Ok(b2) => r is Ok && final(branch)@ == b2,
            Err(e) => r == Err::<(), _>(e),
        },
{
    if depth as usize > TAPROOT_CONTROL_MAX_NODE_COUNT {
        return Err(TaprootBuilderError::InvalidMerkleTreeDepth(depth as usize));
    }
    if (depth as usize) + 1 < branch.len() {
        return Err(TaprootBuilderError::NodeNotInDfsOrder);
    }
    let mut d: u8 = depth;
    while branch.len() == (d as usize) + 1 && branch[branch.len() - 1]
        invariant
            d <= depth <= 128,
            branch@.len() <= d + 1,
            spec_insert_result(old(branch)@, depth as int) == spec_insert_result(branch@, d as int),
        decreases d,
    {
        assert(branch@.last());
        if d == 0 {
            return Err(TaprootBuilderError::OverCompleteTree);
        }
        let _top: Option<bool> = branch.pop();
        d = d - 1;
    }
    while branch.len() < (d as usize) + 1
        invariant
            d <= 128,
            ({
                let target = spec_insert_result(old(branch)@, depth as int);
                if branch@.len() == d + 1 {
                    target == Ok::<_, TaprootBuilderError>(branch@.update(d as int, true))
                        && !branch@.last()
                } else {
                    branch@.len() <= d && target == Ok::<_, TaprootBuilderError>(
                        branch@ + Seq::new((d - branch@.len()) as nat, |i: int| false)
                            + seq![true],
                    )
                }
            }),
        decreases d + 1 - branch@.len(),
    {
        let ghost prev = branch@;
        branch.push(false);
        proof {
            if branch@.len() < d + 1 {
                assert(prev + Seq::new((d - prev.len()) as nat, |i: int| false) + seq![true]
                    =~= branch@ + Seq::new((d - branch@.len()) as nat, |i: int| false)
                        + seq![true]);
            } else {
                assert(prev + Seq::new((d - prev.len()) as nat, |i: int| false) + seq![true]
                    =~= branch@.update(d as int, true));
            }
        }
    }
    let last: usize = branch.len() - 1;
    branch.set(last, true);
    Ok(())
}

impl TaprootBuilder {
    /// The builder's state is exactly the replay of its recorded leaves,
    /// as long as no hidden node has been inserted.
    pub open spec fn wf(self) -> bool {
        &&& !self.spec_has_hidden() ==> spec_replay_from(
            Seq::empty(),
            leaf_views(self.leaves()),
        ) == Ok::<_, TaprootBuilderError>(self.spec_branch())
        &&& versions_ok(leaf_views(self.leaves()))
        &&& scripts_fit(leaf_views(self.leaves()))
    }

    /// The branch stack.
    pub closed spec fn spec_branch(self) -> Seq<bool> {
        self.branch@
    }

    /// The leaves inserted so far, in insertion (depth-first) order.
    pub closed spec fn leaves(self) -> Seq<TapLeaf> {
        self.leaves@
    }

    /// Whether a hidden node has been inserted.
    pub closed spec fn spec_has_hidden(self) -> bool {
        self.has_hidden
    }

    /// A fresh, empty builder.
    pub fn new() -> (r: TaprootBuilder)
        ensures
            r.spec_branch() == Seq::<bool>::empty(),
            r.leaves() == Seq::<TapLeaf>::empty(),
            !r.spec_has_hidden(),
            r.wf(),
    {
        let r = TaprootBuilder { branch: Vec::new(), leaves: Vec::new(), has_hidden: false };
        proof {
            assert(leaf_views(r.leaves@) =~= Seq::<SpecLeaf>::empty());
        }
        r
    }

    /// Adds a leaf script at `depth` with the given script version.
    /// Errors when the leaf does not continue a depth-first walk.
    pub fn add_leaf_with_ver(self, depth: u8, script: ScriptBuf, ver: LeafVersion) -> (r: Result<
        TaprootBuilder,
        TaprootBuilderError,
    >)
        requires
            self.wf(),
            ver.wf(),
            script@.len() <= u64::MAX,
        ensures
            ({
                let leaf = TapLeaf { depth, version: ver, script };
                match spec_insert_result(self.spec_branch(), depth as int) {
                    Ok(b2) => r matches Ok(b) && b.spec_branch() == b2
                        && b.leaves() == self.leaves().push(leaf)
                        && b.spec_has_hidden() == self.spec_has_hidden() && b.wf(),
                    Err(e) => r == Err::<TaprootBuilder, _>(e),
                }
            }),
    {
        let TaprootBuilder { mut branch, mut leaves, has_hidden } = self;
        match insert_depth(&mut branch, depth) {
            Ok(()) => {
                let leaf = TapLeaf { depth, version: ver, script };
                leaves.push(leaf);
                let r = TaprootBuilder { branch, leaves, has_hidden };
                proof {
                    assert(leaf_views(r.leaves@)
                        =~= leaf_views(self.leaves()).push(
                        TapLeaf { depth, version: ver, script }@,
                    ));
                    lemma_replay_snoc(
                        Seq::empty(),
                        leaf_views(self.leaves()),
                        TapLeaf { depth, version: ver, script }@,
                    );
                }
                Ok(r)
            },
            Err(e) => Err(e),
        }
    }

    /// Adds a leaf script at `depth` with the default tapscript version.
    pub fn add_leaf(self, depth: u8, script: ScriptBuf) -> (r: Result<
        TaprootBuilder,
        TaprootBuilderError,
    >)
        requires
            self.wf(),
            script@.len() <= u64::MAX,
        ensures
            ({
                let leaf = TapLeaf {
                    depth,
                    version: LeafVersion { value: 0xc0u8 },
                    script,
                };
                match spec_insert_result(self.spec_branch(), depth as int) {
                    Ok(b2) => r matches Ok(b) && b.spec_branch() == b2
                        && b.leaves() == self.leaves().push(leaf)
                        && b.spec_has_hidden() == self.spec_has_hidden() && b.wf(),
                    Err(e) => r == Err::<TaprootBuilder, _>(e),
                }
            }),
    {
        self.add_leaf_with_ver(depth, script, LeafVersion { value: 0xc0 })
    }

    /// Adds a hidden (pruned) node at `depth`: it occupies its place in
    /// the structure but bars conversion to a serializable tree.
    pub fn add_hidden_node(self, depth: u8, hash: TapNodeHash) -> (r: Result<
        TaprootBuilder,
        TaprootBuilderError,
    >)
        requires
            self.wf(),
        ensures
            match spec_insert_result(self.spec_branch(), depth as int) {
                Ok(b2) => r matches Ok(b) && b.spec_branch() == b2
                    && b.leaves() == self.leaves() && b.spec_has_hidden() && b.wf(),
                Err(e) => r == Err::<TaprootBuilder, _>(e),
            },
    {
        let TaprootBuilder { mut branch, leaves, has_hidden: _ } = self;
        match insert_depth(&mut branch, depth) {
            Ok(()) => Ok(TaprootBuilder { branch, leaves, has_hidden: true }),
            Err(e) => Err(e),
        }
    }

    /// Whether a hidden node has been inserted so far.
    pub fn has_hidden_nodes(&self) -> (r: bool)
        ensures
            r == self.spec_has_hidden(),
    {
        self.has_hidden
    }
}

// --- the finished tree ---

/// A complete taproot script tree with no hidden nodes, recorded as its
/// leaves in depth-first order.  Replaying the leaves through the
/// builder yields exactly one finished subtree at the root.
#[derive(Debug, Clone, PartialEq, Eq)]
pub struct TapTree {
    /// The leaves in depth-first order.
    pub leaves: Vec<TapLeaf>,
}

impl TapTree {
    /// The depth sequence forms a complete depth-first walk and every
    /// version and script length is in range.
    pub open spec fn wf(self) -> bool {
        &&& spec_replay_from(Seq::empty(), leaf_views(self.leaves@))
            == Ok::<_, TaprootBuilderError>(seq![true])
        &&& versions_ok(leaf_views(self.leaves@))
        &&& scripts_fit(leaf_views(self.leaves@))
    }

    /// Finalizes a builder into a tree.  An unfinished structure and a
    /// structure containing hidden nodes are distinct failures.
    pub fn try_from(builder: TaprootBuilder) -> (r: Result<TapTree, IncompleteBuilderError>)
        requires
            builder.wf(),
        ensures
            ({
                let complete = builder.spec_branch() == seq![true];
                match r {
                    Ok(t) => complete && !builder.spec_has_hidden()
                        && t.leaves@ == builder.leaves() && t.wf(),
                    Err(IncompleteBuilderError::NotFinalized) => !complete,
                    Err(IncompleteBuilderError::HiddenParts) => complete
                        && builder.spec_has_hidden(),
                }
            }),
    {
        if builder.branch.len() == 1 && builder.branch[0] {
            proof {
                assert(builder.spec_branch() =~= seq![true]);
            }
            if builder.has_hidden {
                Err(IncompleteBuilderError::HiddenParts)
            } else {
                Ok(TapTree { leaves: builder.leaves })
            }
        } else {
            proof {
                if builder.spec_branch() == seq![true] {
                    assert(builder.spec_branch().len() == 1 && builder.spec_branch()[0]);
                }
            }
            Err(IncompleteBuilderError::NotFinalized)
        }
    }
}


// --- the wire form ---

/// The wire form of one leaf: its depth byte, its leaf-version byte,
/// then its length-prefixed script.
pub open spec fn spec_encode_leaf(l: SpecLeaf) -> Seq<u8> {
    seq![l.depth, l.version] + script_encoding(l.script)
}

/// The wire form of a run of leaves, in order.  No leaf count is
/// written: the end of the run is the end of the input.
pub open spec fn spec_encode_leaves(ls: Seq<SpecLeaf>) -> Seq<u8>
    decreases ls.len(),
{
    if ls.len() == 0 {
        Seq::empty()
    } else {
        spec_encode_leaf(ls[0]) + spec_encode_leaves(ls.skip(1))
    }
}

/// Outcome of replaying a byte run through the builder, at spec level.
pub enum TreeRun {
    /// The input was consumed; the branch stack and the parsed leaves.
    Finished(Seq<bool>, Seq<SpecLeaf>),
    /// A depth byte with no leaf-version byte after it.
    OddEnd,
    /// A script failed its consensus-level decoding.
    Consensus(ConsensusError),
    /// A leaf-version byte outside the recognized set.
    BadVersion,
    /// A leaf that does not continue a depth-first walk.
    NotDfs(TaprootBuilderError),
}

/// Spec-level replay of a byte run: read a depth byte, a version byte
/// and a length-prefixed script, insert the leaf, and continue.
pub open spec fn spec_run(b: Seq<u8>, branch: Seq<bool>, acc: Seq<SpecLeaf>) -> TreeRun
    decreases b.len(),
{
    if b.len() == 0 {
        TreeRun::Finished(branch, acc)
    } else if b.len() == 1 {
        TreeRun::OddEnd
    } else {
        match spec_decode_script(b.skip(2)) {
            SpecPartial::Value(s, c) => if !(1 <= c && 2 + c <= b.len()) {
                TreeRun::Consensus(ConsensusError::UnexpectedEnd)
            } else if !leaf_version_ok(b[1]) {
                TreeRun::BadVersion
            } else {
                match spec_insert_result(branch, b[0] as int) {
                    Ok(b2) => spec_run(
                        b.skip(2 + c),
                        b2,
                        acc.push(SpecLeaf { depth: b[0], version: b[1], script: s }),
                    ),
                    Err(e) => TreeRun::NotDfs(e),
                }
            },
            SpecPartial::Short => TreeRun::Consensus(ConsensusError::UnexpectedEnd),
            SpecPartial::NonMinimal => TreeRun::Consensus(ConsensusError::NonMinimalVarInt),
        }
    }
}

impl TapTree {
    /// Serializes the tree: each leaf in depth-first order as its depth
    /// byte, leaf-version byte, and length-prefixed script.
    pub fn serialize(&self) -> (r: Vec<u8>)
        ensures
            r@ == spec_encode_leaves(leaf_views(self.leaves@)),
    {
        let ghost views = leaf_views(self.leaves@);
        let mut out: Vec<u8> = Vec::new();
        assert(views.skip(0) =~= views);
        let mut i: usize = 0;
        while i < self.leaves.len()
            invariant
                i <= self.leaves@.len(),
                views == leaf_views(self.leaves@),
                out@ + spec_encode_leaves(views.skip(i as int)) == spec_encode_leaves(views),
            decreases self.leaves@.len() - i,
        {
            let ghost before = out@;
            let ghost restv = views.skip(i as int);
            proof {
                assert(restv[0] == views[i as int]);
                assert(restv.skip(1) =~= views.skip(i as int + 1));
            }
            let leaf: &TapLeaf = &self.leaves[i];
            out.push(leaf.depth);
            out.push(leaf.version.value);
            put_script(&mut out, leaf.script.bytes.as_slice());
            proof {
                assert(out@ =~= before + spec_encode_leaf(views[i as int]));
                assert(before + (spec_encode_leaf(restv[0]) + spec_encode_leaves(
                    restv.skip(1),
                )) =~= (before + spec_encode_leaf(restv[0])) + spec_encode_leaves(
                    restv.skip(1),
                ));
            }
            i = i + 1;
        }
        proof {
            assert(views.skip(views.len() as int).len() == 0);
            assert(out@ + Seq::<u8>::empty() =~= out@);
        }
        out
    }

    /// Deserializes a tree by replaying the byte run into a fresh
    /// builder and finalizing it.  Each failure keeps its own kind: an
    /// odd trailing fragment, a consensus-level script failure, an
    /// unrecognized leaf version, a leaf out of depth-first order, and
    /// an incomplete final structure are all distinct.
    pub fn deserialize(bytes: &[u8]) -> (r: Result<TapTree, Error>)
        ensures
            match spec_run(bytes@, Seq::empty(), Seq::empty()) {
                TreeRun::Finished(branch, ls) => if branch == seq![true] {
                    r matches Ok(t) && leaf_views(t.leaves@) == ls && t.wf()
                } else {
                    r == Err::<TapTree, _>(Error::TapTree(IncompleteBuilderError::NotFinalized))
                },
                TreeRun::OddEnd => r matches Err(e) && e matches Error::Taproot(s)
                    && s@ == "Invalid Taproot Builder"@,
                TreeRun::Consensus(c) => r == Err::<TapTree, _>(Error::ConsensusEncoding(c)),
                TreeRun::BadVersion => r == Err::<TapTree, _>(Error::InvalidLeafVersion),
                TreeRun::NotDfs(_) => r matches Err(e) && e matches Error::Taproot(s)
                    && s@ == "Tree not in DFS order"@,
            },
    {
        let mut builder: TaprootBuilder = TaprootBuilder::new();
        let mut pos: usize = 0;
        proof {
            assert(bytes@.skip(0) =~= bytes@);
            assert(leaf_views(builder.leaves()) =~= Seq::<SpecLeaf>::empty());
        }
        while pos < bytes.len()
            invariant
                pos <= bytes@.len(),
                builder.wf(),
                !builder.spec_has_hidden(),
                spec_run(bytes@, Seq::empty(), Seq::empty()) == spec_run(
                    bytes@.skip(pos as int),
                    builder.spec_branch(),
                    leaf_views(builder.leaves()),
                ),
            decreases bytes@.len() - pos,
        {
            let ghost tail = bytes@.skip(pos as int);
            let depth: u8 = bytes[pos];
            proof {
                assert(tail[0] == depth);
            }
            if pos + 1 >= bytes.len() {
                proof {
                    assert(tail.len() == 1);
                }
                return Err(Error::Taproot("Invalid Taproot Builder"));
            }
            let vbyte: u8 = bytes[pos + 1];
            proof {
                assert(tail[1] == vbyte);
                assert(tail.skip(2) =~= bytes@.subrange(pos as int + 2, bytes@.len() as int));
            }
            let (script, newpos): (Vec<u8>, usize) = match get_script(bytes, pos + 2) {
                Ok(p) => p,
                Err(c) => {
                    return Err(Error::ConsensusEncoding(c));
                },
            };
            let version: LeafVersion = match LeafVersion::from_consensus(vbyte) {
                Ok(v) => v,
                Err(_) => {
                    return Err(Error::InvalidLeafVersion);
                },
            };
            let ghost prev = builder;
            builder = match builder.add_leaf_with_ver(depth, ScriptBuf { bytes: script }, version) {
                Ok(b) => b,
                Err(_) => {
                    return Err(Error::Taproot("Tree not in DFS order"));
                },
            };
            proof {
                let c = newpos - (pos + 2) as int;
                assert(tail.skip(2 + c) =~= bytes@.skip(newpos as int));
                assert(leaf_views(builder.leaves()) =~= leaf_views(prev.leaves()).push(
                    SpecLeaf { depth, version: vbyte, script: script@ },
                ));
            }
            pos = newpos;
        }
        proof {
            assert(bytes@.skip(pos as int).len() == 0);
        }
        match TapTree::try_from(builder) {
            Ok(t) => Ok(t),
            Err(e) => Err(Error::TapTree(e)),
        }
    }
}

// --- the depth-first-order laws ---

/// Replaying the encoding of a leaf run, with anything after it, parses
/// exactly those leaves and inserts them in order; the run fails with
/// the ordering failure exactly when the replay of the leaves does.
pub proof fn lemma_run_of_encoding(
    ls: Seq<SpecLeaf>,
    rest: Seq<u8>,
    branch: Seq<bool>,
    acc: Seq<SpecLeaf>,
)
    requires
        versions_ok(ls),
        scripts_fit(ls),
    ensures
        match spec_replay_from(branch, ls) {
            Ok(b2) => spec_run(spec_encode_leaves(ls) + rest, branch, acc) == spec_run(
                rest,
                b2,
                acc + ls,
            ),
            Err(e) => spec_run(spec_encode_leaves(ls) + rest, branch, acc) == TreeRun::NotDfs(e),
        },
    decreases ls.len(),
{
    if ls.len() == 0 {
        assert(spec_encode_leaves(ls) + rest =~= rest);
        assert(acc + ls =~= acc);
    } else {
        let l = ls[0];
        let enc_l = spec_encode_leaf(l);
        let rest2 = spec_encode_leaves(ls.skip(1)) + rest;
        let b = spec_encode_leaves(ls) + rest;
        assert(script_encoding(l.script).len() >= 1);
        assert(b =~= enc_l + rest2);
        assert(b.len() >= 2);
        assert(b[0] == l.depth && b[1] == l.version);
        assert(b.skip(2) =~= script_encoding(l.script) + rest2);
        crate::script::lemma_script_encoding_roundtrip(l.script, rest2);
        let m = script_encoding(l.script).len() as int;
        assert(spec_decode_script(b.skip(2)) == SpecPartial::Value(l.script, m));
        assert(2 + m <= b.len());
        assert(leaf_version_ok(l.version));
        assert forall|i: int| 0 <= i < ls.skip(1).len() implies leaf_version_ok(
            #[trigger] ls.skip(1)[i].version,
        ) && ls.skip(1)[i].script.len() <= u64::MAX by {
            assert(ls.skip(1)[i] == ls[i + 1]);
        }
        match spec_insert_result(branch, l.depth as int) {
            Ok(b2) => {
                lemma_run_of_encoding(ls.skip(1), rest, b2, acc.push(l));
                assert(b.skip(2 + m) =~= rest2);
                assert(SpecLeaf { depth: l.depth, version: l.version, script: l.script } == l);
                assert(acc.push(l) + ls.skip(1) =~= acc + ls);
            },
            Err(e) => {},
        }
    }
}

/// The depth-first round-trip law: the encoding of a complete tree
/// replays to exactly that tree's leaves with a single finished root.
pub proof fn lemma_taptree_roundtrip(t: TapTree)
    requires
        t.wf(),
    ensures
        spec_run(spec_encode_leaves(leaf_views(t.leaves@)), Seq::empty(), Seq::empty())
            == TreeRun::Finished(seq![true], leaf_views(t.leaves@)),
{
    let views = leaf_views(t.leaves@);
    lemma_run_of_encoding(views, Seq::empty(), Seq::empty(), Seq::empty());
    assert(spec_encode_leaves(views) + Seq::<u8>::empty() =~= spec_encode_leaves(views));
    assert(Seq::<SpecLeaf>::empty() + views =~= views);
}

/// A run whose leaves are out of depth-first order fails with the
/// ordering failure, not any other kind.
pub proof fn lemma_non_dfs_rejected(ls: Seq<SpecLeaf>)
    requires
        versions_ok(ls),
        scripts_fit(ls),
        spec_replay_from(Seq::empty(), ls) is Err,
    ensures
        spec_run(spec_encode_leaves(ls), Seq::empty(), Seq::empty())
            == TreeRun::NotDfs(spec_replay_from(Seq::empty(), ls)->Err_0),
{
    lemma_run_of_encoding(ls, Seq::empty(), Seq::empty(), Seq::empty());
    assert(spec_encode_leaves(ls) + Seq::<u8>::empty() =~= spec_encode_leaves(ls));
}

/// A run encoding an incomplete tree parses fully but finishes with a
/// structure other than a single root, which deserialization reports as
/// the completeness failure.
pub proof fn lemma_incomplete_rejected(ls: Seq<SpecLeaf>, b: Seq<bool>)
    requires
        versions_ok(ls),
        scripts_fit(ls),
        spec_replay_from(Seq::empty(), ls) == Ok::<_, TaprootBuilderError>(b),
        b != seq![true],
    ensures
        spec_run(spec_encode_leaves(ls), Seq::empty(), Seq::empty()) == TreeRun::Finished(b, ls),
{
    lemma_run_of_encoding(ls, Seq::empty(), Seq::empty(), Seq::empty());
    assert(spec_encode_leaves(ls) + Seq::<u8>::empty() =~= spec_encode_leaves(ls));
    assert(Seq::<SpecLeaf>::empty() + ls =~= ls);
}

} // verus!

use vstd::prelude::*;
use vstd::string::StringSliceAdditionalSpecFns;
use sha2::{Digest, Sha256};

verus! {

/// A decoded CBOR data item, as far as a Merkle proof is read: byte strings
/// and arrays are kept, every other kind of item is `Other`.
pub enum CborItem {
    Bytes(Vec<u8>),
    Array(Vec<CborItem>),
    Other,
}

/// A hash tree as the IC certifies data with: forks, labeled subtrees, leaves
/// holding data, pruned subtrees holding their hash, and the empty tree.
pub enum HashTreeNode {
    Empty,
    Fork(Box<HashTreeNode>, Box<HashTreeNode>),
    Labeled(Vec<u8>, Box<HashTreeNode>),
    Leaf(Vec<u8>),
    Pruned([u8; 32]),
}

/// The SHA-256 digest of `data`.
pub uninterp spec fn sha256(data: Seq<u8>) -> Seq<u8>;

/// The hash `labeled_hash` gives: SHA-256 of the label's bytes followed by
/// the data, with nothing between them.
pub open spec fn labeled_digest(label: Seq<u8>, data: Seq<u8>) -> Seq<u8> {
    sha256(label + data)
}

/// What `base64::decode` (standard alphabet, padded) gives for `text`:
/// the bytes, or `None` when `text` is no valid encoding.
pub uninterp spec fn base64_decode(text: Seq<char>) -> Option<Seq<u8>>;

/// What decoding `bytes` as one CBOR data item gives, read as a `CborItem`,
/// or `None` when `bytes` is no well-formed CBOR item.
pub uninterp spec fn cbor_decode(bytes: Seq<u8>) -> Option<CborItem>;

#[verifier::external_type_specification]
#[verifier::external_body]
pub struct ExCborValue(serde_cbor::Value);

/// Calls `sha2::Sha256`: a fresh hasher fed `label`'s bytes and then `data`,
/// finalized. Trusted to give `sha256(label bytes ++ data)`, as feeding a
/// digest in pieces hashes their concatenation.
#[verifier::external_body]
fn labeled_hash(label: &str, data: &[u8]) -> (r: [u8; 32])
    ensures
        r@ == sha256(label.spec_bytes() + data@),
{
    let mut hasher = Sha256::new();
    hasher.update(label.as_bytes());
    hasher.update(data);
    hasher.finalize().into()
}

/// Calls `base64::decode` on `text`; trusted to give `base64_decode(text@)`,
/// a function of the text alone.
#[verifier::external_body]
fn decode_base64(text: &str) -> (r: Option<Vec<u8>>)
    ensures
        match r {
            Some(v) => base64_decode(text@) == Some(v@),
            None => base64_decode(text@) is None,
        },
{
    base64::decode(text).ok()
}

/// Calls `serde_cbor::from_slice::<serde_cbor::Value>` on `bytes` and reads the
/// value with `cbor_item_of_value`; trusted to give `cbor_decode(bytes@)`,
/// a function of the bytes alone.
#[verifier::external_body]
fn decode_cbor(bytes: &[u8]) -> (r: Option<CborItem>)
    ensures
        r == cbor_decode(bytes@),
{
    match serde_cbor::from_slice::<serde_cbor::Value>(bytes) {
        Ok(value) => Some(cbor_item_of_value(&value)),
        Err(_) => None,
    }
}

/// Reads a `serde_cbor::Value` one for one as a `CborItem`: `Bytes` and
/// `Array` (each element read the same way) are kept, every other variant
/// becomes `Other`. Nothing about it is stated; only `decode_cbor` calls it.
#[verifier::external_body]
fn cbor_item_of_value(value: &serde_cbor::Value) -> CborItem {
    match value {
        serde_cbor::Value::Bytes(b) => CborItem::Bytes(b.clone()),
        serde_cbor::Value::Array(items) => CborItem::Array(items.iter().map(cbor_item_of_value).collect()),
        _ => CborItem::Other,
    }
}

/// The CBOR item reads as a hash tree: a byte string, or an array of exactly
/// two items that both read as hash trees.
pub open spec fn cbor_is_tree(c: CborItem) -> bool
    decreases c,
{
    match c {
        CborItem::Bytes(_) => true,
        CborItem::Array(a) => a@.len() == 2 && cbor_is_tree(a@[0]) && cbor_is_tree(a@[1]),
        CborItem::Other => false,
    }
}

/// `t` is the hash tree the CBOR item reads as: a byte string is a leaf with
/// those bytes, a two-item array is a fork of the trees of its items.
pub open spec fn tree_reads(t: HashTreeNode, c: CborItem) -> bool
    decreases c,
{
    match c {
        CborItem::Bytes(b) => t matches HashTreeNode::Leaf(d) && d@ == b@,
        CborItem::Array(a) => a@.len() == 2 && match t {
            HashTreeNode::Fork(l, r) => tree_reads(*l, a@[0]) && tree_reads(*r, a@[1]),
            _ => false,
        },
        CborItem::Other => false,
    }
}

pub open spec fn zero_hash() -> Seq<u8> {
    Seq::new(32, |i: int| 0u8)
}

/// The hash of a fork from the hashes of its sides; a side that does not
/// reach the witness counts as 32 zero bytes, and a fork with neither side
/// reaching it has no hash.
pub open spec fn fork_root(left: Option<Seq<u8>>, right: Option<Seq<u8>>) -> Option<Seq<u8>> {
    match (left, right) {
        (Some(l), Some(r)) => Some(labeled_digest("fork".spec_bytes(), l + r)),
        (Some(l), None) => Some(labeled_digest("fork".spec_bytes(), l + zero_hash())),
        (None, Some(r)) => Some(labeled_digest("fork".spec_bytes(), zero_hash() + r)),
        (None, None) => None,
    }
}

/// The root hash that the tree `t` gives for the witness hash `w`: a leaf
/// holding exactly `w` gives `w`, a fork combines its sides with
/// `fork_root`, and every other tree gives none.
pub open spec fn root_of(t: HashTreeNode, w: Seq<u8>) -> Option<Seq<u8>>
    decreases t,
{
    match t {
        HashTreeNode::Leaf(d) => if d@ == w {
            Some(w)
        } else {
            None
        },
        HashTreeNode::Fork(l, r) => fork_root(root_of(*l, w), root_of(*r, w)),
        _ => None,
    }
}

/// The root hash that the CBOR item, read as a hash tree, gives for `w`.
pub open spec fn root_of_cbor(c: CborItem, w: Seq<u8>) -> Option<Seq<u8>>
    decreases c,
{
    match c {
        CborItem::Bytes(b) => if b@ == w {
            Some(w)
        } else {
            None
        },
        CborItem::Array(a) => if a@.len() == 2 {
            fork_root(root_of_cbor(a@[0], w), root_of_cbor(a@[1], w))
        } else {
            None
        },
        CborItem::Other => None,
    }
}

pub open spec fn hash_view(h: Option<[u8; 32]>) -> Option<Seq<u8>> {
    match h {
        Some(a) => Some(a@),
        None => None,
    }
}

/// The proof, decoded as CBOR, checks out: it reads as a hash tree whose
/// root hash for `w` is `root`.
pub open spec fn cbor_proof_holds(c: CborItem, w: Seq<u8>, root: Seq<u8>) -> bool {
    cbor_is_tree(c) && root_of_cbor(c, w) == Some(root)
}

/// The proof bytes decode as CBOR and check out.
pub open spec fn proof_bytes_hold(bytes: Seq<u8>, w: Seq<u8>, root: Seq<u8>) -> bool {
    match cbor_decode(bytes) {
        Some(c) => cbor_proof_holds(c, w, root),
        None => false,
    }
}

/// The base64 text decodes, and its bytes check out as a proof.
pub open spec fn certificate_holds(text: Seq<char>, w: Seq<u8>, root: Seq<u8>) -> bool {
    match base64_decode(text) {
        Some(bytes) => proof_bytes_hold(bytes, w, root),
        None => false,
    }
}

/// A tree that a CBOR item reads as gives the same root hash as the item.
pub proof fn lemma_tree_reads_root(t: HashTreeNode, c: CborItem, w: Seq<u8>)
    requires
        tree_reads(t, c),
    ensures
        root_of(t, w) == root_of_cbor(c, w),
    decreases c,
{
    match c {
        CborItem::Array(a) => {
            if let HashTreeNode::Fork(l, r) = t {
                lemma_tree_reads_root(*l, a@[0], w);
                lemma_tree_reads_root(*r, a@[1], w);
            }
        },
        _ => {},
    }
}

/// Whether two byte strings are equal.
pub fn bytes_equal(a: &[u8], b: &[u8]) -> (r: bool)
    ensures
        r == (a@ == b@),
{
    if a.len() != b.len() {
        return false;
    }
    let mut i: usize = 0;
    while i < a.len()
        invariant
            a@.len() == b@.len(),
            i <= a@.len(),
            forall|j: int| 0 <= j < i ==> a@[j] == b@[j],
        decreases a.len() - i,
    {
        if a[i] != b[i] {
            return false;
        }
        i = i + 1;
    }
    assert(a@ =~= b@);
    true
}

/// Builds the hash tree a CBOR item reads as: a byte string becomes a leaf,
/// an array of exactly two items a fork of their trees; anything else, at
/// any depth, gives `None`.
pub fn cbor_to_hash_tree(value: &CborItem) -> (r: Option<HashTreeNode>)
    ensures
        r is Some <==> cbor_is_tree(*value),
        r matches Some(t) ==> tree_reads(t, *value),
    decreases value,
{
    match value {
        CborItem::Bytes(b) => Some(HashTreeNode::Leaf(b.clone())),
        CborItem::Array(items) => {
            if items.len() == 2 {
                assert(decreases_to!(value => items@[0]));
                let left = cbor_to_hash_tree(&items[0]);
                let right = cbor_to_hash_tree(&items[1]);
                match (left, right) {
                    (Some(l), Some(r)) => Some(HashTreeNode::Fork(Box::new(l), Box::new(r))),
                    _ => None,
                }
            } else {
                None
            }
        },
        CborItem::Other => None,
    }
}


/// Appends the 32 bytes of `h`, or 32 zero bytes when there is none.
fn push_hash_or_zeros(out: &mut Vec<u8>, h: &Option<[u8; 32]>)
    ensures
        final(out)@ == old(out)@ + match hash_view(*h) {
            Some(b) => b,
            None => zero_hash(),
        },
{
    let ghost start = out@;
    let ghost added = match hash_view(*h) {
        Some(b) => b,
        None => zero_hash(),
    };
    let mut i: usize = 0;
    while i < 32
        invariant
            i <= 32,
            added.len() == 32,
            added == match hash_view(*h) {
                Some(b) => b,
                None => zero_hash(),
            },
            out@ == start + added.take(i as int),
        decreases 32 - i,
    {
        let byte = match h {
            Some(a) => a[i],
            None => 0u8,
        };
        out.push(byte);
        assert(added.take(i + 1) =~= added.take(i as int).push(byte));
        i = i + 1;
    }
    assert(added.take(32) =~= added);
}

/// Recomputes the root hash that `tree` gives for `witness_hash`: a leaf
/// holding exactly the witness hash gives it back, a fork hashes "fork" with
/// the 64 bytes of its sides' hashes (32 zero bytes for a side that gives
/// none), and no other tree gives a hash.
pub fn reconstruct_root_hash(tree: &HashTreeNode, witness_hash: [u8; 32]) -> (r: Option<[u8; 32]>)
    ensures
        hash_view(r) == root_of(*tree, witness_hash@),
    decreases tree,
{
    match tree {
        HashTreeNode::Leaf(data) => {
            if bytes_equal(data.as_slice(), witness_hash.as_slice()) {
                Some(witness_hash)
            } else {
                None
            }
        },
        HashTreeNode::Fork(left, right) => {
            let left_hash = reconstruct_root_hash(left, witness_hash);
            let right_hash = reconstruct_root_hash(right, witness_hash);
            if left_hash.is_none() && right_hash.is_none() {
                return None;
            }
            let mut data: Vec<u8> = Vec::new();
            push_hash_or_zeros(&mut data, &left_hash);
            push_hash_or_zeros(&mut data, &right_hash);
            assert(data@ =~= Seq::<u8>::empty() + match hash_view(left_hash) {
                Some(b) => b,
                None => zero_hash(),
            } + match hash_view(right_hash) {
                Some(b) => b,
                None => zero_hash(),
            });
            let h = labeled_hash("fork", data.as_slice());
            Some(h)
        },
        _ => None,
    }
}

/// Checks a proof already decoded as CBOR: it must read as a hash tree, and
/// the tree's root hash for `witness_hash` must be `root_hash`.
pub fn verify_cbor_proof(witness_hash: [u8; 32], proof: &CborItem, root_hash: [u8; 32]) -> (r:
    bool)
    ensures
        r == cbor_proof_holds(*proof, witness_hash@, root_hash@),
{
    let tree = match cbor_to_hash_tree(proof) {
        Some(t) => t,
        None => return false,
    };
    proof {
        lemma_tree_reads_root(tree, *proof, witness_hash@);
    }
    let computed = match reconstruct_root_hash(&tree, witness_hash) {
        Some(h) => h,
        None => return false,
    };
    bytes_equal(computed.as_slice(), root_hash.as_slice())
}

/// Checks proof bytes: they must decode as CBOR and check out as a proof.
pub fn verify_proof_bytes(witness_hash: [u8; 32], proof: &[u8], root_hash: [u8; 32]) -> (r: bool)
    ensures
        r == proof_bytes_hold(proof@, witness_hash@, root_hash@),
{
    match decode_cbor(proof) {
        Some(item) => verify_cbor_proof(witness_hash, &item, root_hash),
        None => false,
    }
}

/// Verifies a witness against a root hash: the base64 Merkle proof is
/// decoded, read as CBOR and then as a hash tree, whose root hash for
/// `witness_hash` must equal `root_hash`. Any step that fails gives `false`.
pub fn verify_ic_certificate(witness_hash: [u8; 32], merkle_proof_base64: &str, root_hash: [u8; 32])
    -> (r: bool)
    ensures
        r == certificate_holds(merkle_proof_base64@, witness_hash@, root_hash@),
{
    match decode_base64(merkle_proof_base64) {
        Some(bytes) => verify_proof_bytes(witness_hash, bytes.as_slice(), root_hash),
        None => false,
    }
}


/// A proof that is a single byte string checks out exactly when the byte
/// string is the witness hash and the witness hash is the root hash.
pub proof fn law_leaf_proof(b: Vec<u8>, w: Seq<u8>, root: Seq<u8>)
    ensures
        cbor_proof_holds(CborItem::Bytes(b), w, root) <==> (b@ == w && w == root),
{
}

/// A fork of two byte strings checks out exactly when one of them is the
/// witness hash and hashing "fork" with the two sides' hashes gives the root.
pub proof fn law_fork_of_leaves_proof(left: Vec<u8>, right: Vec<u8>, items: Vec<CborItem>, w: Seq<u8>, root: Seq<u8>)
    requires
        items@ == seq![CborItem::Bytes(left), CborItem::Bytes(right)],
    ensures
        cbor_proof_holds(CborItem::Array(items), w, root) <==> fork_root(
            if left@ == w { Some(w) } else { None },
            if right@ == w { Some(w) } else { None },
        ) == Some(root),
{
    assert(items@[0] == CborItem::Bytes(left));
    assert(items@[1] == CborItem::Bytes(right));
    assert(cbor_is_tree(items@[0]) && cbor_is_tree(items@[1]));
    assert(root_of_cbor(items@[0], w) == if left@ == w {
        Some(w)
    } else {
        None
    });
    assert(root_of_cbor(items@[1], w) == if right@ == w {
        Some(w)
    } else {
        None
    });
}


/// What `labeled_hash` gives depends only on the label's bytes and the data
/// run together: two calls whose label bytes followed by data are the same
/// bytes (such as ("fork", "x") and ("for", "kx")) give the same hash, as each
/// gives `sha256` of those bytes.
pub proof fn law_labeled_hash_concatenates(l1: &str, d1: Seq<u8>, l2: &str, d2: Seq<u8>)
    requires
        l1.spec_bytes() + d1 == l2.spec_bytes() + d2,
    ensures
        sha256(l1.spec_bytes() + d1) == sha256(l2.spec_bytes() + d2),
{
}

/// The label and the data are hashed with nothing separating them: two
/// (label, data) pairs whose bytes run together into the same string hash
/// alike, such as ("fork", "x") and ("for", "kx").
pub proof fn law_labeled_digest_concatenates(l1: Seq<u8>, d1: Seq<u8>, l2: Seq<u8>, d2: Seq<u8>)
    requires
        l1 + d1 == l2 + d2,
    ensures
        labeled_digest(l1, d1) == labeled_digest(l2, d2),
{
}


/// 32 zero bytes, said directly.
pub open spec fn zeros32() -> Seq<u8> {
    Seq::new(32, |i: int| 0u8)
}

/// The root hash is built the same way at every depth, whatever the shape of
/// a fork's sides: a fork's root for `w` is SHA-256 of "fork" followed by the
/// two sides' roots, a side that does not reach `w` counting as 32 zero
/// bytes; a fork neither of whose sides reaches `w` has none.
pub proof fn law_fork_root_composes(l: HashTreeNode, r: HashTreeNode, w: Seq<u8>)
    ensures
        root_of(HashTreeNode::Fork(Box::new(l), Box::new(r)), w) == match (
            root_of(l, w),
            root_of(r, w),
        ) {
            (Some(a), Some(b)) => Some(sha256("fork".spec_bytes() + a + b)),
            (Some(a), None) => Some(sha256("fork".spec_bytes() + a + zeros32())),
            (None, Some(b)) => Some(sha256("fork".spec_bytes() + zeros32() + b)),
            (None, None) => None::<Seq<u8>>,
        },
{
    let f = "fork".spec_bytes();
    assert(zero_hash() =~= zeros32());
    match (root_of(l, w), root_of(r, w)) {
        (Some(a), Some(b)) => {
            assert(f + (a + b) =~= f + a + b);
        },
        (Some(a), None) => {
            assert(f + (a + zero_hash()) =~= f + a + zeros32());
        },
        (None, Some(b)) => {
            assert(f + (zero_hash() + b) =~= f + zeros32() + b);
        },
        (None, None) => {},
    }
}

/// A proof that checks out keeps checking out one level deeper: placed as
/// the left side of a fork whose right side is a byte string other than the
/// witness hash, it checks against SHA-256 of "fork", its root, and 32 zero
/// bytes; placed as the right side of a fork whose left side is such a byte
/// string, against SHA-256 of "fork", 32 zero bytes, and its root.
pub proof fn law_checking_proof_nests(
    p: CborItem,
    b: Vec<u8>,
    left_items: Vec<CborItem>,
    right_items: Vec<CborItem>,
    w: Seq<u8>,
    root: Seq<u8>,
)
    requires
        cbor_proof_holds(p, w, root),
        b@ != w,
        left_items@ == seq![p, CborItem::Bytes(b)],
        right_items@ == seq![CborItem::Bytes(b), p],
    ensures
        cbor_proof_holds(
            CborItem::Array(left_items),
            w,
            sha256("fork".spec_bytes() + root + zeros32()),
        ),
        cbor_proof_holds(
            CborItem::Array(right_items),
            w,
            sha256("fork".spec_bytes() + zeros32() + root),
        ),
{
    let f = "fork".spec_bytes();
    assert(zero_hash() =~= zeros32());
    assert(left_items@[0] == p && left_items@[1] == CborItem::Bytes(b));
    assert(right_items@[0] == CborItem::Bytes(b) && right_items@[1] == p);
    assert(root_of_cbor(CborItem::Bytes(b), w) is None);
    assert(cbor_is_tree(CborItem::Bytes(b)));
    assert(f + (root + zero_hash()) =~= f + root + zeros32());
    assert(f + (zero_hash() + root) =~= f + zeros32() + root);
}

} // verus!

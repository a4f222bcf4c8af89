//! Recomputing a Merkle root from a leaf and its sibling path.
//!
//! Each level hashes the working value together with the sibling, the
//! lexicographically smaller of the two first, so the path carries no
//! left/right markers.

use vstd::prelude::*;

use crate::digest::{digest_width_fixed, sha384, sha384_collides, sha384_of, HASH_LEN};
use crate::order::{lemma_ordered_concat_symmetric, lex_less, ordered_concat};

verus! {

/// The byte contents of each sibling of a path.
pub open spec fn path_view(path: Seq<Vec<u8>>) -> Seq<Seq<u8>> {
    path.map_values(|sibling: Vec<u8>| sibling@)
}

/// Every sibling of the path has the width of a hash value.
pub open spec fn siblings_well_formed(path: Seq<Seq<u8>>) -> bool {
    forall|i: int| 0 <= i < path.len() ==> (#[trigger] path[i]).len() == HASH_LEN
}

/// One level of the tree: the hash of the working value and the sibling,
/// the smaller first.
pub open spec fn merge_step(working: Seq<u8>, sibling: Seq<u8>) -> Seq<u8> {
    sha384_of(ordered_concat(working, sibling))
}

/// The root that a leaf and a sibling path (leaf level first) determine:
/// the hash of the leaf, merged with each sibling in turn.
pub open spec fn merkle_root(leaf: Seq<u8>, path: Seq<Seq<u8>>) -> Seq<u8>
    decreases path.len(),
{
    if path.len() == 0 {
        sha384_of(leaf)
    } else {
        merge_step(merkle_root(leaf, path.drop_last()), path.last())
    }
}

/// The bytes of `first` followed by those of `second`.
fn concat(first: &[u8], second: &[u8]) -> (joined: Vec<u8>)
    ensures
        joined@ == first@ + second@,
{
    let mut joined: Vec<u8> = Vec::new();
    let mut i: usize = 0;
    while i < first.len()
        invariant
            i <= first@.len(),
            joined@ == first@.take(i as int),
        decreases first.len() - i,
    {
        joined.push(first[i]);
        assert(first@.take(i + 1) =~= first@.take(i as int).push(first@[i as int]));
        i = i + 1;
    }
    assert(first@.take(first@.len() as int) =~= first@);
    let mut j: usize = 0;
    while j < second.len()
        invariant
            j <= second@.len(),
            joined@ == first@ + second@.take(j as int),
        decreases second.len() - j,
    {
        joined.push(second[j]);
        assert(first@ + second@.take(j + 1) =~= (first@ + second@.take(j as int)).push(
            second@[j as int],
        ));
        j = j + 1;
    }
    assert(second@.take(second@.len() as int) =~= second@);
    joined
}

/// One level of the tree on concrete bytes.
pub fn hash_pair(working: &[u8], sibling: &[u8]) -> (merged: Vec<u8>)
    ensures
        merged@ == merge_step(working@, sibling@),
        merged@.len() == HASH_LEN,
{
    let joined = if lex_less(working, sibling) {
        concat(working, sibling)
    } else {
        concat(sibling, working)
    };
    sha384(joined.as_slice())
}

/// Recomputes the root from `leaf` and the sibling hashes of
/// `merkle_path`, leaf level first. An empty path gives the hash of the
/// leaf. The computation cannot fail; the caller compares the result with
/// the root it expects.
pub fn compute_merkle_root(leaf: &Vec<u8>, merkle_path: &Vec<Vec<u8>>) -> (root: Vec<u8>)
    ensures
        root@ == merkle_root(leaf@, path_view(merkle_path@)),
        root@.len() == HASH_LEN,
{
    let ghost path = path_view(merkle_path@);
    let mut current = sha384(leaf.as_slice());
    let mut i: usize = 0;
    while i < merkle_path.len()
        invariant
            i <= merkle_path@.len(),
            path == path_view(merkle_path@),
            current@ == merkle_root(leaf@, path.take(i as int)),
            current@.len() == HASH_LEN,
        decreases merkle_path.len() - i,
    {
        current = hash_pair(current.as_slice(), merkle_path[i].as_slice());
        assert(path.take(i + 1).drop_last() =~= path.take(i as int));
        i = i + 1;
    }
    assert(path.take(path.len() as int) =~= path);
    current
}

/// The root is a function of the leaf and the path alone: equal inputs give
/// equal root bytes.
pub proof fn lemma_root_deterministic(
    leaf1: Seq<u8>,
    path1: Seq<Seq<u8>>,
    leaf2: Seq<u8>,
    path2: Seq<Seq<u8>>,
)
    requires
        leaf1 == leaf2,
        path1 == path2,
    ensures
        merkle_root(leaf1, path1) == merkle_root(leaf2, path2),
{
}

/// With no sibling the root is the hash of the leaf.
pub proof fn lemma_empty_path_root(leaf: Seq<u8>)
    ensures
        merkle_root(leaf, Seq::empty()) == sha384_of(leaf),
{
}

/// Every root has the width of a digest.
proof fn lemma_root_width(leaf: Seq<u8>, path: Seq<Seq<u8>>)
    requires
        digest_width_fixed(),
    ensures
        merkle_root(leaf, path).len() == HASH_LEN,
{
}

/// Of two hash-width values, the pair fed to the hash determines both
/// values: with one of them fixed, the other is fixed too.
proof fn lemma_ordered_concat_injective(a: Seq<u8>, b1: Seq<u8>, b2: Seq<u8>)
    requires
        a.len() == HASH_LEN,
        b1.len() == HASH_LEN,
        b2.len() == HASH_LEN,
        ordered_concat(a, b1) == ordered_concat(a, b2),
    ensures
        b1 == b2,
{
    let n = HASH_LEN as int;
    assert((a + b1).take(n) =~= a);
    assert((a + b1).skip(n) =~= b1);
    assert((b1 + a).take(n) =~= b1);
    assert((b1 + a).skip(n) =~= a);
    assert((a + b2).take(n) =~= a);
    assert((a + b2).skip(n) =~= b2);
    assert((b2 + a).take(n) =~= b2);
    assert((b2 + a).skip(n) =~= a);
}

/// Two distinct byte sequences with one digest witness a collision.
proof fn lemma_collision_witness(x: Seq<u8>, y: Seq<u8>)
    requires
        x != y,
        sha384_of(x) == sha384_of(y),
    ensures
        sha384_collides(),
{
}

/// Changing the leaf changes the root, unless SHA-384 has a collision: for
/// well-formed siblings, two distinct leaves give equal roots only where
/// two distinct byte sequences share a digest.
pub proof fn lemma_leaf_sensitive(leaf1: Seq<u8>, leaf2: Seq<u8>, path: Seq<Seq<u8>>)
    requires
        digest_width_fixed(),
        siblings_well_formed(path),
        leaf1 != leaf2,
    ensures
        merkle_root(leaf1, path) != merkle_root(leaf2, path) || sha384_collides(),
    decreases path.len(),
{
    if path.len() == 0 {
        if sha384_of(leaf1) == sha384_of(leaf2) {
            lemma_collision_witness(leaf1, leaf2);
        }
    } else {
        let prefix = path.drop_last();
        let sibling = path.last();
        assert(sibling == path[path.len() - 1]);
        lemma_leaf_sensitive(leaf1, leaf2, prefix);
        let r1 = merkle_root(leaf1, prefix);
        let r2 = merkle_root(leaf2, prefix);
        if r1 != r2 {
            lemma_root_width(leaf1, prefix);
            lemma_root_width(leaf2, prefix);
            let c1 = ordered_concat(r1, sibling);
            let c2 = ordered_concat(r2, sibling);
            lemma_ordered_concat_symmetric(r1, sibling);
            lemma_ordered_concat_symmetric(r2, sibling);
            if c1 == c2 {
                lemma_ordered_concat_injective(sibling, r1, r2);
            }
            if sha384_of(c1) == sha384_of(c2) {
                lemma_collision_witness(c1, c2);
            }
        }
    }
}

/// Replacing one sibling of a well-formed path by another hash-width value
/// changes the root, unless SHA-384 has a collision.
pub proof fn lemma_sibling_sensitive(
    leaf: Seq<u8>,
    path: Seq<Seq<u8>>,
    level: int,
    replacement: Seq<u8>,
)
    requires
        digest_width_fixed(),
        siblings_well_formed(path),
        0 <= level < path.len(),
        replacement.len() == HASH_LEN,
        replacement != path[level],
    ensures
        merkle_root(leaf, path) != merkle_root(leaf, path.update(level, replacement))
            || sha384_collides(),
    decreases path.len(),
{
    let changed = path.update(level, replacement);
    let prefix = path.drop_last();
    let changed_prefix = changed.drop_last();
    let r1 = merkle_root(leaf, prefix);
    let r2 = merkle_root(leaf, changed_prefix);
    let s1 = path.last();
    let s2 = changed.last();
    lemma_root_width(leaf, prefix);
    lemma_root_width(leaf, changed_prefix);
    if level == path.len() - 1 {
        assert(changed_prefix =~= prefix);
        assert(s1 == path[level]);
        let c1 = ordered_concat(r1, s1);
        let c2 = ordered_concat(r1, s2);
        if c1 == c2 {
            lemma_ordered_concat_injective(r1, s1, s2);
        }
        if sha384_of(c1) == sha384_of(c2) {
            lemma_collision_witness(c1, c2);
        }
    } else {
        assert(changed_prefix =~= prefix.update(level, replacement));
        assert(s2 == s1);
        assert(s1 == path[path.len() - 1]);
        lemma_sibling_sensitive(leaf, prefix, level, replacement);
        if r1 != r2 {
            let c1 = ordered_concat(r1, s1);
            let c2 = ordered_concat(r2, s1);
            lemma_ordered_concat_symmetric(r1, s1);
            lemma_ordered_concat_symmetric(r2, s1);
            if c1 == c2 {
                lemma_ordered_concat_injective(s1, r1, r2);
            }
            if sha384_of(c1) == sha384_of(c2) {
                lemma_collision_witness(c1, c2);
            }
        }
    }
}

} // verus!

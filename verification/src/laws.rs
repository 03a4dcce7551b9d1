//! The laws of precedence: it is a total preorder on versions. Each law is
//! first shown of bytes, identifiers and tags, then of whole versions.

use crate::precedence::{
    bytes_order, identifier_order, identifiers, identifiers_order, pre_release_order, Order,
};
use crate::version::{precedence, VersionView};
use vstd::prelude::*;

verus! {

/// Two relations chain when one of them is a tie or both point the same way:
/// then they decide how the first value stands to the third.
pub open spec fn chains(first: Order, second: Order) -> bool {
    first == Order::Equal || second == Order::Equal || first == second
}

proof fn lemma_bytes_reflexive(a: Seq<u8>)
    ensures
        bytes_order(a, a) == Order::Equal,
    decreases a.len(),
{
    if a.len() > 0 {
        lemma_bytes_reflexive(a.drop_first());
    }
}

proof fn lemma_bytes_antisymmetric(a: Seq<u8>, b: Seq<u8>)
    ensures
        bytes_order(b, a) == bytes_order(a, b).reverse(),
    decreases a.len(),
{
    if a.len() > 0 && b.len() > 0 && a[0] == b[0] {
        lemma_bytes_antisymmetric(a.drop_first(), b.drop_first());
    }
}

proof fn lemma_bytes_transitive(a: Seq<u8>, b: Seq<u8>, c: Seq<u8>)
    requires
        chains(bytes_order(a, b), bytes_order(b, c)),
    ensures
        bytes_order(a, c) == bytes_order(a, b).or(bytes_order(b, c)),
    decreases a.len(),
{
    if a.len() > 0 && b.len() > 0 && c.len() > 0 && a[0] == b[0] && b[0] == c[0] {
        lemma_bytes_transitive(a.drop_first(), b.drop_first(), c.drop_first());
    }
}

proof fn lemma_identifier_reflexive(a: Seq<u8>)
    ensures
        identifier_order(a, a) == Order::Equal,
{
    lemma_bytes_reflexive(a);
}

proof fn lemma_identifier_antisymmetric(a: Seq<u8>, b: Seq<u8>)
    ensures
        identifier_order(b, a) == identifier_order(a, b).reverse(),
{
    lemma_bytes_antisymmetric(a, b);
}

proof fn lemma_identifier_transitive(a: Seq<u8>, b: Seq<u8>, c: Seq<u8>)
    requires
        chains(identifier_order(a, b), identifier_order(b, c)),
    ensures
        identifier_order(a, c) == identifier_order(a, b).or(identifier_order(b, c)),
{
    if chains(bytes_order(a, b), bytes_order(b, c)) {
        lemma_bytes_transitive(a, b, c);
    }
}

proof fn lemma_identifiers_reflexive(a: Seq<Seq<u8>>)
    ensures
        identifiers_order(a, a) == Order::Equal,
    decreases a.len(),
{
    if a.len() > 0 {
        lemma_identifier_reflexive(a[0]);
        lemma_identifiers_reflexive(a.drop_first());
    }
}

proof fn lemma_identifiers_antisymmetric(a: Seq<Seq<u8>>, b: Seq<Seq<u8>>)
    ensures
        identifiers_order(b, a) == identifiers_order(a, b).reverse(),
    decreases a.len(),
{
    if a.len() > 0 && b.len() > 0 {
        lemma_identifier_antisymmetric(a[0], b[0]);
        lemma_identifiers_antisymmetric(a.drop_first(), b.drop_first());
    }
}

proof fn lemma_identifiers_transitive(a: Seq<Seq<u8>>, b: Seq<Seq<u8>>, c: Seq<Seq<u8>>)
    requires
        chains(identifiers_order(a, b), identifiers_order(b, c)),
    ensures
        identifiers_order(a, c) == identifiers_order(a, b).or(identifiers_order(b, c)),
    decreases a.len(),
{
    if a.len() > 0 && b.len() > 0 && c.len() > 0 {
        if chains(identifier_order(a[0], b[0]), identifier_order(b[0], c[0])) {
            lemma_identifier_transitive(a[0], b[0], c[0]);
        }
        if chains(
            identifiers_order(a.drop_first(), b.drop_first()),
            identifiers_order(b.drop_first(), c.drop_first()),
        ) {
            lemma_identifiers_transitive(a.drop_first(), b.drop_first(), c.drop_first());
        }
    }
}

/// A pre-release tag stands level with itself.
pub proof fn lemma_pre_release_reflexive(a: Seq<u8>)
    ensures
        pre_release_order(a, a) == Order::Equal,
{
    lemma_identifiers_reflexive(identifiers(a));
}

/// Swapping two pre-release tags reverses their order.
pub proof fn lemma_pre_release_antisymmetric(a: Seq<u8>, b: Seq<u8>)
    ensures
        pre_release_order(b, a) == pre_release_order(a, b).reverse(),
{
    lemma_identifiers_antisymmetric(identifiers(a), identifiers(b));
}

/// Where the order of `a` and `b` chains with that of `b` and `c`, the two
/// decide the order of `a` and `c`.
pub proof fn lemma_pre_release_transitive(a: Seq<u8>, b: Seq<u8>, c: Seq<u8>)
    requires
        chains(pre_release_order(a, b), pre_release_order(b, c)),
    ensures
        pre_release_order(a, c) == pre_release_order(a, b).or(pre_release_order(b, c)),
{
    if a.len() > 0 && b.len() > 0 && c.len() > 0 {
        lemma_identifiers_transitive(identifiers(a), identifiers(b), identifiers(c));
    }
}

/// Every version stands level with itself.
pub proof fn lemma_precedence_reflexive(a: VersionView)
    ensures
        precedence(a, a) == Order::Equal,
{
    lemma_pre_release_reflexive(a.pre);
}

/// Precedence is antisymmetric: read from the other side, the relation of two
/// versions is reversed. So one is below the other exactly when the other is
/// above it, and a tie is a tie both ways.
pub proof fn lemma_precedence_antisymmetric(a: VersionView, b: VersionView)
    ensures
        precedence(b, a) == precedence(a, b).reverse(),
{
    lemma_pre_release_antisymmetric(a.pre, b.pre);
}

/// Precedence is transitive. Where `a` stands to `b` as `b` stands to `c`, or
/// one of the two is a tie, `a` stands to `c` as the deciding one says: below
/// and below give below, a tie and a tie give a tie, and a tie leaves the
/// other relation as it is.
pub proof fn lemma_precedence_transitive(a: VersionView, b: VersionView, c: VersionView)
    requires
        chains(precedence(a, b), precedence(b, c)),
    ensures
        precedence(a, c) == precedence(a, b).or(precedence(b, c)),
{
    if chains(pre_release_order(a.pre, b.pre), pre_release_order(b.pre, c.pre)) {
        lemma_pre_release_transitive(a.pre, b.pre, c.pre);
    }
}

/// A pre-release stands below its release: of two versions with the same
/// three numbers, the one that carries a pre-release tag is below the one
/// that carries none, whatever the tag.
pub proof fn lemma_pre_release_is_below_its_release(a: VersionView, b: VersionView)
    requires
        a.major == b.major,
        a.minor == b.minor,
        a.patch == b.patch,
        !a.is_stable(),
        b.is_stable(),
    ensures
        precedence(a, b) == Order::Less,
        precedence(b, a) == Order::Greater,
{
}

/// Build metadata takes no part in precedence: two versions that differ in
/// nothing else stand level.
pub proof fn lemma_build_metadata_is_ignored(a: VersionView, b: VersionView)
    requires
        a.major == b.major,
        a.minor == b.minor,
        a.patch == b.patch,
        a.pre == b.pre,
    ensures
        precedence(a, b) == Order::Equal,
{
    lemma_pre_release_reflexive(a.pre);
}

} // verus!

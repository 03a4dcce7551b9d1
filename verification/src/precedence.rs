//! Precedence of pre-release tags.
//!
//! A pre-release tag is a sequence of bytes made of identifiers separated by
//! dots. Tags are ordered identifier by identifier: two numeric identifiers by
//! their value, a numeric identifier below any other, two other identifiers
//! byte by byte, and a tag below every longer tag that starts with it.

use vstd::prelude::*;

verus! {

/// How one value stands to another in an ordering.
#[derive(Clone, Copy, PartialEq, Eq, Debug, Structural)]
pub enum Order {
    Less,
    Equal,
    Greater,
}

impl Order {
    /// The same relation read from the other side.
    pub open spec fn reverse(self) -> Order {
        match self {
            Order::Less => Order::Greater,
            Order::Equal => Order::Equal,
            Order::Greater => Order::Less,
        }
    }

    /// `self` if it decides, `next` if `self` is a tie.
    pub open spec fn or(self, next: Order) -> Order {
        if self == Order::Equal {
            next
        } else {
            self
        }
    }
}

/// The byte that separates the identifiers of a tag: a dot.
pub const DOT: u8 = 46;

/// The digit zero.
pub const ZERO: u8 = 48;

/// The digit nine.
pub const NINE: u8 = 57;

/// The order of two integers.
pub open spec fn order_of(a: int, b: int) -> Order {
    if a < b {
        Order::Less
    } else if a == b {
        Order::Equal
    } else {
        Order::Greater
    }
}

/// Whether `byte` is a decimal digit.
pub open spec fn is_digit(byte: u8) -> bool {
    ZERO <= byte <= NINE
}

/// An identifier is numeric when it holds nothing but decimal digits.
pub open spec fn is_numeric(id: Seq<u8>) -> bool {
    forall|i: int| 0 <= i < id.len() ==> is_digit(#[trigger] id[i])
}

/// The number that the digits of `id` write in base ten.
pub open spec fn numeric_value(id: Seq<u8>) -> nat
    decreases id.len(),
{
    if id.len() == 0 {
        0
    } else {
        numeric_value(id.drop_last()) * 10 + (id.last() - ZERO) as nat
    }
}

/// Byte-wise lexicographic order: the first differing byte decides, and a
/// sequence stands below every longer one that starts with it.
pub open spec fn bytes_order(a: Seq<u8>, b: Seq<u8>) -> Order
    decreases a.len(),
{
    if a.len() == 0 {
        if b.len() == 0 {
            Order::Equal
        } else {
            Order::Less
        }
    } else if b.len() == 0 {
        Order::Greater
    } else if a[0] != b[0] {
        order_of(a[0] as int, b[0] as int)
    } else {
        bytes_order(a.drop_first(), b.drop_first())
    }
}

/// The order of two identifiers.
pub open spec fn identifier_order(a: Seq<u8>, b: Seq<u8>) -> Order {
    if is_numeric(a) && is_numeric(b) {
        order_of(numeric_value(a) as int, numeric_value(b) as int)
    } else if is_numeric(a) {
        Order::Less
    } else if is_numeric(b) {
        Order::Greater
    } else {
        bytes_order(a, b)
    }
}

/// The number of bytes before the first dot of `tag`, or its length if it
/// holds none.
pub open spec fn first_dot(tag: Seq<u8>) -> int
    decreases tag.len(),
{
    if tag.len() == 0 || tag[0] == DOT {
        0
    } else {
        1 + first_dot(tag.drop_first())
    }
}

/// The identifiers of `tag`: the pieces between its dots, in order. A tag
/// without a dot is one identifier.
pub open spec fn identifiers(tag: Seq<u8>) -> Seq<Seq<u8>>
    decreases tag.len(),
{
    let n = first_dot(tag);
    if 0 <= n < tag.len() {
        seq![tag.take(n)] + identifiers(tag.skip(n + 1))
    } else {
        seq![tag]
    }
}

/// The order of two lists of identifiers: the first pair that differs
/// decides, and a list stands below every longer one that starts with it.
pub open spec fn identifiers_order(a: Seq<Seq<u8>>, b: Seq<Seq<u8>>) -> Order
    decreases a.len(),
{
    if a.len() == 0 {
        if b.len() == 0 {
            Order::Equal
        } else {
            Order::Less
        }
    } else if b.len() == 0 {
        Order::Greater
    } else {
        identifier_order(a[0], b[0]).or(identifiers_order(a.drop_first(), b.drop_first()))
    }
}

/// The order of two pre-release tags. The empty tag marks a release, which
/// stands above every pre-release.
pub open spec fn pre_release_order(a: Seq<u8>, b: Seq<u8>) -> Order {
    if a.len() == 0 {
        if b.len() == 0 {
            Order::Equal
        } else {
            Order::Greater
        }
    } else if b.len() == 0 {
        Order::Less
    } else {
        identifiers_order(identifiers(a), identifiers(b))
    }
}

// Numeric identifiers

/// Leading zeros do not change the value of a numeric identifier.
proof fn lemma_value_skips_zeros(id: Seq<u8>, n: int)
    requires
        0 <= n <= id.len(),
        forall|i: int| 0 <= i < n ==> id[i] == ZERO,
    ensures
        numeric_value(id) == numeric_value(id.skip(n)),
    decreases id.len(),
{
    if id.len() == 0 {
        assert(id.skip(n) =~= id);
    } else if n == id.len() {
        lemma_value_skips_zeros(id.drop_last(), n - 1);
        assert(id.drop_last().skip(n - 1) =~= Seq::<u8>::empty());
        assert(id.skip(n) =~= Seq::<u8>::empty());
    } else {
        lemma_value_skips_zeros(id.drop_last(), n);
        assert(id.drop_last().skip(n) =~= id.skip(n).drop_last());
        assert(id.skip(n).last() == id.last());
    }
}

/// A numeric identifier that does not start with a zero is at least one.
proof fn lemma_value_positive(id: Seq<u8>)
    requires
        is_numeric(id),
        id.len() > 0,
        id[0] != ZERO,
    ensures
        numeric_value(id) >= 1,
    decreases id.len(),
{
    if id.len() > 1 {
        lemma_value_positive(id.drop_last());
    }
}

/// Of two numeric identifiers, the shorter is the smaller, provided that the
/// longer does not start with a zero.
proof fn lemma_shorter_is_smaller(a: Seq<u8>, b: Seq<u8>)
    requires
        is_numeric(a),
        is_numeric(b),
        a.len() < b.len(),
        b[0] != ZERO,
    ensures
        numeric_value(a) < numeric_value(b),
    decreases a.len(),
{
    if a.len() == 0 {
        lemma_value_positive(b);
    } else {
        lemma_shorter_is_smaller(a.drop_last(), b.drop_last());
    }
}

/// Of two numeric identifiers of one length, the first differing digit
/// decides which is the smaller.
proof fn lemma_first_difference_decides(a: Seq<u8>, b: Seq<u8>, k: int)
    requires
        is_numeric(a),
        is_numeric(b),
        a.len() == b.len(),
        0 <= k < a.len(),
        forall|i: int| 0 <= i < k ==> a[i] == b[i],
        a[k] < b[k],
    ensures
        numeric_value(a) < numeric_value(b),
    decreases a.len(),
{
    if k == a.len() - 1 {
        assert(a.drop_last() =~= b.drop_last());
    } else {
        lemma_first_difference_decides(a.drop_last(), b.drop_last(), k);
    }
}

/// Whether `id` holds nothing but decimal digits.
pub fn all_digits(id: &[u8]) -> (r: bool)
    ensures
        r == is_numeric(id@),
{
    let mut i: usize = 0;
    while i < id.len()
        invariant
            i <= id.len(),
            forall|j: int| 0 <= j < i ==> is_digit(#[trigger] id@[j]),
        decreases id.len() - i,
    {
        if id[i] < ZERO || id[i] > NINE {
            assert(!is_digit(id@[i as int]));
            return false;
        }
        i = i + 1;
    }
    true
}

/// The number of zeros that `id` starts with.
fn leading_zeros(id: &[u8]) -> (n: usize)
    ensures
        n <= id.len(),
        forall|i: int| 0 <= i < n ==> id@[i] == ZERO,
        n < id.len() ==> id@[n as int] != ZERO,
{
    let mut n: usize = 0;
    while n < id.len() && id[n] == ZERO
        invariant
            n <= id.len(),
            forall|i: int| 0 <= i < n ==> id@[i] == ZERO,
        decreases id.len() - n,
    {
        n = n + 1;
    }
    n
}

/// Orders two numeric identifiers by their value, whatever their length.
fn compare_numeric(a: &[u8], b: &[u8]) -> (r: Order)
    requires
        is_numeric(a@),
        is_numeric(b@),
    ensures
        r == order_of(numeric_value(a@) as int, numeric_value(b@) as int),
{
    let za = leading_zeros(a);
    let zb = leading_zeros(b);
    let la = a.len() - za;
    let lb = b.len() - zb;
    let ghost sa = a@.skip(za as int);
    let ghost sb = b@.skip(zb as int);
    proof {
        lemma_value_skips_zeros(a@, za as int);
        lemma_value_skips_zeros(b@, zb as int);
    }
    if la < lb {
        proof {
            lemma_shorter_is_smaller(sa, sb);
        }
        return Order::Less;
    }
    if la > lb {
        proof {
            lemma_shorter_is_smaller(sb, sa);
        }
        return Order::Greater;
    }
    let mut k: usize = 0;
    while k < la
        invariant
            k <= la,
            la == lb,
            la == a.len() - za,
            lb == b.len() - zb,
            za <= a.len(),
            zb <= b.len(),
            sa == a@.skip(za as int),
            sb == b@.skip(zb as int),
            is_numeric(sa),
            is_numeric(sb),
            numeric_value(a@) == numeric_value(sa),
            numeric_value(b@) == numeric_value(sb),
            forall|i: int| 0 <= i < k ==> sa[i] == sb[i],
        decreases la - k,
    {
        let x = a[za + k];
        let y = b[zb + k];
        assert(x == sa[k as int] && y == sb[k as int]);
        if x < y {
            proof {
                lemma_first_difference_decides(sa, sb, k as int);
            }
            return Order::Less;
        }
        if x > y {
            proof {
                lemma_first_difference_decides(sb, sa, k as int);
            }
            return Order::Greater;
        }
        k = k + 1;
    }
    assert(sa =~= sb);
    Order::Equal
}

/// Orders two byte strings lexicographically.
pub fn compare_bytes(a: &[u8], b: &[u8]) -> (r: Order)
    ensures
        r == bytes_order(a@, b@),
{
    let mut i: usize = 0;
    assert(a@.skip(0) =~= a@ && b@.skip(0) =~= b@);
    loop
        invariant
            i <= a.len(),
            i <= b.len(),
            bytes_order(a@, b@) == bytes_order(a@.skip(i as int), b@.skip(i as int)),
        decreases a.len() - i,
    {
        if i == a.len() {
            if i == b.len() {
                return Order::Equal;
            }
            return Order::Less;
        }
        if i == b.len() {
            return Order::Greater;
        }
        if a[i] < b[i] {
            return Order::Less;
        }
        if a[i] > b[i] {
            return Order::Greater;
        }
        assert(a@.skip(i as int).drop_first() =~= a@.skip(i + 1));
        assert(b@.skip(i as int).drop_first() =~= b@.skip(i + 1));
        i = i + 1;
    }
}

/// Orders two identifiers.
pub fn compare_identifier(a: &[u8], b: &[u8]) -> (r: Order)
    ensures
        r == identifier_order(a@, b@),
{
    let a_numeric = all_digits(a);
    let b_numeric = all_digits(b);
    if a_numeric && b_numeric {
        compare_numeric(a, b)
    } else if a_numeric {
        Order::Less
    } else if b_numeric {
        Order::Greater
    } else {
        compare_bytes(a, b)
    }
}

/// The end of the identifier of `tag` that starts at `from`: the index of the
/// next dot, or the length of `tag`.
fn identifier_end(tag: &[u8], from: usize) -> (end: usize)
    requires
        from <= tag.len(),
    ensures
        from <= end <= tag.len(),
        end - from == first_dot(tag@.skip(from as int)),
{
    let mut end: usize = from;
    while end < tag.len() && tag[end] != DOT
        invariant
            from <= end <= tag.len(),
            first_dot(tag@.skip(from as int)) == (end - from) + first_dot(tag@.skip(end as int)),
        decreases tag.len() - end,
    {
        assert(tag@.skip(end as int).drop_first() =~= tag@.skip(end + 1));
        end = end + 1;
    }
    end
}

/// Orders two pre-release tags.
pub fn compare_pre_release(a: &[u8], b: &[u8]) -> (r: Order)
    ensures
        r == pre_release_order(a@, b@),
{
    if a.len() == 0 {
        if b.len() == 0 {
            return Order::Equal;
        }
        return Order::Greater;
    }
    if b.len() == 0 {
        return Order::Less;
    }
    let mut i: usize = 0;
    let mut j: usize = 0;
    assert(a@.skip(0) =~= a@ && b@.skip(0) =~= b@);
    loop
        invariant
            i <= a.len(),
            j <= b.len(),
            pre_release_order(a@, b@) == identifiers_order(
                identifiers(a@.skip(i as int)),
                identifiers(b@.skip(j as int)),
            ),
        decreases a.len() - i,
    {
        let a_end = identifier_end(a, i);
        let b_end = identifier_end(b, j);
        let ghost rest_a = a@.skip(i as int);
        let ghost rest_b = b@.skip(j as int);
        let order = compare_identifier(
            vstd::slice::slice_subrange(a, i, a_end),
            vstd::slice::slice_subrange(b, j, b_end),
        );
        proof {
            assert(identifiers(rest_a)[0] =~= a@.subrange(i as int, a_end as int));
            assert(identifiers(rest_b)[0] =~= b@.subrange(j as int, b_end as int));
            if a_end < a.len() {
                assert(rest_a.skip(a_end - i + 1) =~= a@.skip(a_end + 1));
                assert(identifiers(rest_a).drop_first() =~= identifiers(a@.skip(a_end + 1)));
            } else {
                assert(identifiers(rest_a).drop_first() =~= Seq::<Seq<u8>>::empty());
            }
            if b_end < b.len() {
                assert(rest_b.skip(b_end - j + 1) =~= b@.skip(b_end + 1));
                assert(identifiers(rest_b).drop_first() =~= identifiers(b@.skip(b_end + 1)));
            } else {
                assert(identifiers(rest_b).drop_first() =~= Seq::<Seq<u8>>::empty());
            }
            let tail_a = identifiers(rest_a).drop_first();
            let tail_b = identifiers(rest_b).drop_first();
            assert(tail_a.len() == 0 <==> a_end == a.len());
            assert(tail_b.len() == 0 <==> b_end == b.len());
            assert(identifiers_order(identifiers(rest_a), identifiers(rest_b)) == order.or(
                identifiers_order(tail_a, tail_b),
            ));
            assert(tail_a.len() == 0 && tail_b.len() == 0 ==> identifiers_order(tail_a, tail_b)
                == Order::Equal);
            assert(tail_a.len() == 0 && tail_b.len() != 0 ==> identifiers_order(tail_a, tail_b)
                == Order::Less);
            assert(tail_a.len() != 0 && tail_b.len() == 0 ==> identifiers_order(tail_a, tail_b)
                == Order::Greater);
        }
        match order {
            Order::Less => {
                return Order::Less;
            },
            Order::Greater => {
                return Order::Greater;
            },
            Order::Equal => {},
        }
        if a_end == a.len() {
            if b_end == b.len() {
                return Order::Equal;
            }
            return Order::Less;
        }
        if b_end == b.len() {
            return Order::Greater;
        }
        i = a_end + 1;
        j = b_end + 1;
    }
}

} // verus!

//! The order in which record names are kept.
//!
//! Names are ordered as Rust orders strings: byte by byte over their UTF-8
//! form, a proper prefix before anything that extends it.

use vstd::prelude::*;
use vstd::utf8::*;

verus! {

/// Whether `a` comes before `b`, given that the two agree below index `i`.
pub open spec fn bytes_precede_from(a: Seq<u8>, b: Seq<u8>, i: int) -> bool
    decreases a.len() - i,
{
    if i < 0 || i >= b.len() {
        false
    } else if i >= a.len() {
        true
    } else if a[i] != b[i] {
        a[i] < b[i]
    } else {
        bytes_precede_from(a, b, i + 1)
    }
}

/// Whether byte string `a` is strictly before `b` in lexicographic order.
pub open spec fn bytes_precede(a: Seq<u8>, b: Seq<u8>) -> bool {
    bytes_precede_from(a, b, 0)
}

/// Whether name `a` sorts strictly before name `b`.
pub open spec fn name_precedes(a: Seq<char>, b: Seq<char>) -> bool {
    bytes_precede(encode_utf8(a), encode_utf8(b))
}

/// Whether the keys of keyed items are in strictly ascending order. Items in
/// this order hold no key twice.
pub open spec fn keys_ascending<V>(items: Seq<(Seq<char>, V)>) -> bool {
    forall|i: int, j: int|
        #![trigger items[i], items[j]]
        0 <= i < j < items.len() ==> name_precedes(items[i].0, items[j].0)
}

/// Whether two byte strings hold the same bytes below index `i`.
pub open spec fn agree_below(a: Seq<u8>, b: Seq<u8>, i: int) -> bool {
    &&& 0 <= i <= a.len()
    &&& i <= b.len()
    &&& forall|k: int| 0 <= k < i ==> a[k] == b[k]
}

/// Where two byte strings agree below `i`, their order is decided from `i` on.
pub proof fn lemma_order_decided_from(a: Seq<u8>, b: Seq<u8>, i: int)
    requires
        agree_below(a, b, i),
    ensures
        bytes_precede(a, b) == bytes_precede_from(a, b, i),
    decreases i,
{
    if i > 0 {
        lemma_order_decided_from(a, b, i - 1);
    }
}

/// Nothing comes before itself.
pub proof fn lemma_bytes_irreflexive(a: Seq<u8>, i: int)
    ensures
        !bytes_precede_from(a, a, i),
    decreases a.len() - i,
{
    if 0 <= i < a.len() {
        lemma_bytes_irreflexive(a, i + 1);
    }
}

/// Of two byte strings at most one comes before the other.
pub proof fn lemma_bytes_asymmetric(a: Seq<u8>, b: Seq<u8>, i: int)
    ensures
        !(bytes_precede_from(a, b, i) && bytes_precede_from(b, a, i)),
    decreases a.len() - i,
{
    if 0 <= i < a.len() && i < b.len() && a[i] == b[i] {
        lemma_bytes_asymmetric(a, b, i + 1);
    }
}

/// The order is transitive.
pub proof fn lemma_bytes_transitive(a: Seq<u8>, b: Seq<u8>, c: Seq<u8>, i: int)
    requires
        bytes_precede_from(a, b, i),
        bytes_precede_from(b, c, i),
    ensures
        bytes_precede_from(a, c, i),
    decreases a.len() - i,
{
    if i < a.len() && a[i] == b[i] && b[i] == c[i] {
        lemma_bytes_transitive(a, b, c, i + 1);
    }
}

/// A name never precedes itself, so names in strict order are distinct.
pub proof fn lemma_name_irreflexive(a: Seq<char>)
    ensures
        !name_precedes(a, a),
{
    lemma_bytes_irreflexive(encode_utf8(a), 0);
}

/// Of two names at most one precedes the other.
pub proof fn lemma_name_asymmetric(a: Seq<char>, b: Seq<char>)
    ensures
        !(name_precedes(a, b) && name_precedes(b, a)),
{
    lemma_bytes_asymmetric(encode_utf8(a), encode_utf8(b), 0);
}

/// The order of names is transitive.
pub proof fn lemma_name_transitive(a: Seq<char>, b: Seq<char>, c: Seq<char>)
    requires
        name_precedes(a, b),
        name_precedes(b, c),
    ensures
        name_precedes(a, c),
{
    lemma_bytes_transitive(encode_utf8(a), encode_utf8(b), encode_utf8(c), 0);
}

/// Two names with the same UTF-8 form are the same name.
pub proof fn lemma_same_bytes_same_name(a: Seq<char>, b: Seq<char>)
    requires
        encode_utf8(a) == encode_utf8(b),
    ensures
        a == b,
{
    encode_utf8_decode_utf8(a);
    encode_utf8_decode_utf8(b);
}

/// Of two different byte strings that agree below `i`, one comes before the
/// other.
pub proof fn lemma_bytes_total(a: Seq<u8>, b: Seq<u8>, i: int)
    requires
        agree_below(a, b, i),
    ensures
        bytes_precede_from(a, b, i) || bytes_precede_from(b, a, i) || a == b,
    decreases a.len() - i,
{
    if i < a.len() && i < b.len() {
        if a[i] == b[i] {
            lemma_bytes_total(a, b, i + 1);
        }
    } else if i >= a.len() && i >= b.len() {
        assert(a =~= b);
    }
}

/// Of two different names one precedes the other.
pub proof fn lemma_name_total(a: Seq<char>, b: Seq<char>)
    ensures
        name_precedes(a, b) || name_precedes(b, a) || a == b,
{
    lemma_bytes_total(encode_utf8(a), encode_utf8(b), 0);
    if encode_utf8(a) == encode_utf8(b) {
        lemma_same_bytes_same_name(a, b);
    }
}

/// Two plain-ASCII names are ordered by the first character in which they
/// differ.
pub proof fn lemma_ascii_order(a: Seq<char>, b: Seq<char>, i: int)
    requires
        is_ascii_chars(a),
        is_ascii_chars(b),
        0 <= i < a.len(),
        i < b.len(),
        forall|k: int| 0 <= k < i ==> a[k] == b[k],
        (a[i] as u8) < (b[i] as u8),
    ensures
        name_precedes(a, b),
{
    is_ascii_chars_encode_utf8(a);
    is_ascii_chars_encode_utf8(b);
    lemma_order_decided_from(encode_utf8(a), encode_utf8(b), i);
}

/// How one name stands to another.
#[derive(Clone, Copy, Debug, PartialEq, Eq, Structural)]
pub enum NameOrder {
    Before,
    Same,
    After,
}

/// Compares two names in the order of this module.
pub fn compare_names(a: &str, b: &str) -> (res: NameOrder)
    ensures
        res == NameOrder::Before <==> name_precedes(a@, b@),
        res == NameOrder::Same <==> a@ == b@,
        res == NameOrder::After <==> name_precedes(b@, a@),
{
    let x = a.as_bytes();
    let y = b.as_bytes();
    let mut i: usize = 0;
    while i < x.len() && i < y.len()
        invariant
            agree_below(x@, y@, i as int),
            x@ == encode_utf8(a@),
            y@ == encode_utf8(b@),
        decreases x.len() - i,
    {
        if x[i] != y[i] {
            proof {
                lemma_order_decided_from(x@, y@, i as int);
                lemma_order_decided_from(y@, x@, i as int);
                assert(x@ != y@);
            }
            if x[i] < y[i] {
                return NameOrder::Before;
            } else {
                return NameOrder::After;
            }
        }
        i += 1;
    }
    proof {
        lemma_order_decided_from(x@, y@, i as int);
        lemma_order_decided_from(y@, x@, i as int);
        if x@.len() == y@.len() {
            assert(x@ =~= y@);
            lemma_same_bytes_same_name(a@, b@);
        } else {
            assert(x@ != y@);
        }
    }
    if i < y.len() {
        NameOrder::Before
    } else if i < x.len() {
        NameOrder::After
    } else {
        NameOrder::Same
    }
}

} // verus!

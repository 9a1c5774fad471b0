//! Equality and ordering of script names.
//!
//! Names are compared the way strings are compared everywhere else in Rust:
//! byte by byte over their UTF-8 encoding. Everything here is proved, down
//! to the bytes.

use vstd::prelude::*;
use vstd::string::*;
use vstd::utf8::*;

verus! {

/// `a` comes strictly before `b` in lexicographic order: at the first
/// position where they differ `a` has the smaller byte, or `a` ends first.
pub open spec fn bytes_lt(a: Seq<u8>, b: Seq<u8>) -> bool
    decreases a.len(),
{
    if b.len() == 0 {
        false
    } else if a.len() == 0 {
        true
    } else if a[0] != b[0] {
        a[0] < b[0]
    } else {
        bytes_lt(a.drop_first(), b.drop_first())
    }
}

/// The order of names: lexicographic by the bytes of their UTF-8 encoding.
pub open spec fn name_lt(a: Seq<char>, b: Seq<char>) -> bool {
    bytes_lt(encode_utf8(a), encode_utf8(b))
}

/// Each name comes strictly before the next one. Such a sequence holds no
/// name twice.
pub open spec fn strictly_ascending(names: Seq<Seq<char>>) -> bool {
    forall|i: int, j: int| 0 <= i < j < names.len() ==> name_lt(names[i], names[j])
}

/// No sequence of bytes comes before itself.
pub proof fn lemma_bytes_lt_irreflexive(a: Seq<u8>)
    ensures
        !bytes_lt(a, a),
    decreases a.len(),
{
    if a.len() > 0 {
        lemma_bytes_lt_irreflexive(a.drop_first());
    }
}

/// The order on bytes is transitive.
pub proof fn lemma_bytes_lt_transitive(a: Seq<u8>, b: Seq<u8>, c: Seq<u8>)
    requires
        bytes_lt(a, b),
        bytes_lt(b, c),
    ensures
        bytes_lt(a, c),
    decreases a.len(),
{
    if a.len() > 0 && a[0] == b[0] && b[0] == c[0] {
        lemma_bytes_lt_transitive(a.drop_first(), b.drop_first(), c.drop_first());
    }
}

/// Two sequences of bytes are equal, or one comes before the other.
pub proof fn lemma_bytes_lt_total(a: Seq<u8>, b: Seq<u8>)
    ensures
        a == b || bytes_lt(a, b) || bytes_lt(b, a),
    decreases a.len(),
{
    if a.len() == 0 || b.len() == 0 {
        assert(a.len() == 0 && b.len() == 0 ==> a =~= b);
    } else if a[0] == b[0] {
        lemma_bytes_lt_total(a.drop_first(), b.drop_first());
        if a.drop_first() == b.drop_first() {
            assert(a =~= seq![a[0]] + a.drop_first());
            assert(b =~= seq![b[0]] + b.drop_first());
        }
    }
}

/// Names with the same encoding are the same name.
pub proof fn lemma_encoding_injective(a: Seq<char>, b: Seq<char>)
    requires
        encode_utf8(a) == encode_utf8(b),
    ensures
        a == b,
{
    encode_utf8_decode_utf8(a);
    encode_utf8_decode_utf8(b);
}

/// No name comes before itself.
pub proof fn lemma_name_lt_irreflexive(a: Seq<char>)
    ensures
        !name_lt(a, a),
{
    lemma_bytes_lt_irreflexive(encode_utf8(a));
}

/// The order of names is transitive.
pub proof fn lemma_name_lt_transitive(a: Seq<char>, b: Seq<char>, c: Seq<char>)
    requires
        name_lt(a, b),
        name_lt(b, c),
    ensures
        name_lt(a, c),
{
    lemma_bytes_lt_transitive(encode_utf8(a), encode_utf8(b), encode_utf8(c));
}

/// Two names are equal, or one comes before the other.
pub proof fn lemma_name_lt_total(a: Seq<char>, b: Seq<char>)
    ensures
        a == b || name_lt(a, b) || name_lt(b, a),
{
    lemma_bytes_lt_total(encode_utf8(a), encode_utf8(b));
    if encode_utf8(a) == encode_utf8(b) {
        lemma_encoding_injective(a, b);
    }
}

/// A strictly ascending sequence holds no name twice.
pub proof fn lemma_ascending_is_duplicate_free(names: Seq<Seq<char>>)
    requires
        strictly_ascending(names),
    ensures
        names.no_duplicates(),
{
    assert forall|i: int, j: int|
        0 <= i < names.len() && 0 <= j < names.len() && i != j implies names[i] != names[j] by {
        if i < j {
            lemma_name_lt_irreflexive(names[i]);
        } else {
            lemma_name_lt_irreflexive(names[j]);
        }
    }
}

/// Two strictly ascending sequences with the same members are the same
/// sequence.
pub proof fn lemma_same_members_same_sequence(first: Seq<Seq<char>>, second: Seq<Seq<char>>)
    requires
        strictly_ascending(first),
        strictly_ascending(second),
        forall|n: Seq<char>| first.contains(n) <==> second.contains(n),
    ensures
        first == second,
    decreases first.len(),
{
    if first.len() == 0 {
        if second.len() > 0 {
            assert(second.contains(second[0]));
        }
        assert(first =~= second);
    } else if second.len() == 0 {
        assert(first.contains(first[0]));
    } else {
        // The smallest member stands first in both.
        assert(first[0] == second[0]) by {
            assert(first.contains(first[0]));
            assert(second.contains(second[0]));
            let i = choose|i: int| 0 <= i < second.len() && second[i] == first[0];
            let j = choose|j: int| 0 <= j < first.len() && first[j] == second[0];
            if i > 0 && j > 0 {
                lemma_name_lt_transitive(first[0], first[j], first[0]);
                lemma_name_lt_irreflexive(first[0]);
            }
        }
        let first_rest = first.drop_first();
        let second_rest = second.drop_first();
        assert forall|n: Seq<char>| first_rest.contains(n) <==> second_rest.contains(n) by {
            lemma_name_lt_irreflexive(first[0]);
            if first_rest.contains(n) {
                let i = choose|i: int| 0 <= i < first_rest.len() && first_rest[i] == n;
                assert(first[i + 1] == n);
                assert(first.contains(n));
                let j = choose|j: int| 0 <= j < second.len() && second[j] == n;
                if j == 0 {
                    assert(name_lt(first[0], first[i + 1]));
                }
                assert(second_rest[j - 1] == n);
            }
            if second_rest.contains(n) {
                let i = choose|i: int| 0 <= i < second_rest.len() && second_rest[i] == n;
                assert(second[i + 1] == n);
                assert(second.contains(n));
                let j = choose|j: int| 0 <= j < first.len() && first[j] == n;
                if j == 0 {
                    assert(name_lt(second[0], second[i + 1]));
                }
                assert(first_rest[j - 1] == n);
            }
        }
        assert(strictly_ascending(first_rest)) by {
            assert forall|i: int, j: int| 0 <= i < j < first_rest.len() implies name_lt(
                first_rest[i],
                first_rest[j],
            ) by {
                assert(name_lt(first[i + 1], first[j + 1]));
            }
        }
        assert(strictly_ascending(second_rest)) by {
            assert forall|i: int, j: int| 0 <= i < j < second_rest.len() implies name_lt(
                second_rest[i],
                second_rest[j],
            ) by {
                assert(name_lt(second[i + 1], second[j + 1]));
            }
        }
        lemma_same_members_same_sequence(first_rest, second_rest);
        assert(first =~= seq![first[0]] + first_rest);
        assert(second =~= seq![second[0]] + second_rest);
    }
}

/// Whether two names are the same string.
pub fn same_name(a: &str, b: &str) -> (same: bool)
    ensures
        same == (a@ == b@),
{
    let x = a.as_bytes();
    let y = b.as_bytes();
    if x.len() != y.len() {
        return false;
    }
    let mut i: usize = 0;
    while i < x.len()
        invariant
            i <= x.len(),
            x.len() == y.len(),
            x@ == encode_utf8(a@),
            y@ == encode_utf8(b@),
            forall|k: int| 0 <= k < i ==> x@[k] == y@[k],
        decreases x.len() - i,
    {
        if x[i] != y[i] {
            return false;
        }
        i += 1;
    }
    proof {
        assert(x@ =~= y@);
        lemma_encoding_injective(a@, b@);
    }
    true
}

/// Whether `a` sorts strictly before `b`.
pub fn sorts_before(a: &str, b: &str) -> (before: bool)
    ensures
        before == name_lt(a@, b@),
{
    let x = a.as_bytes();
    let y = b.as_bytes();
    let mut i: usize = 0;
    proof {
        assert(x@.skip(0) =~= x@);
        assert(y@.skip(0) =~= y@);
    }
    while i < x.len() && i < y.len()
        invariant
            i <= x.len(),
            i <= y.len(),
            x@ == encode_utf8(a@),
            y@ == encode_utf8(b@),
            bytes_lt(x@, y@) == bytes_lt(x@.skip(i as int), y@.skip(i as int)),
        decreases x.len() - i,
    {
        proof {
            assert(x@.skip(i as int).drop_first() =~= x@.skip(i + 1));
            assert(y@.skip(i as int).drop_first() =~= y@.skip(i + 1));
        }
        if x[i] != y[i] {
            return x[i] < y[i];
        }
        i += 1;
    }
    i < y.len()
}

} // verus!

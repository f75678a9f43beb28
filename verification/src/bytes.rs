//! Byte-string comparisons and membership tests used across the crate.

use vstd::prelude::*;

verus! {

/// The contents of a list of byte strings, each taken by its view.
pub open spec fn byte_strings(v: Seq<Vec<u8>>) -> Seq<Seq<u8>> {
    v.map_values(|b: Vec<u8>| b@)
}

/// Compares two byte strings for equality.
pub fn bytes_eq(a: &[u8], b: &[u8]) -> (r: bool)
    ensures
        r == (a@ == b@),
{
    if a.len() != b.len() {
        return false;
    }
    let mut i: usize = 0;
    while i < a.len()
        invariant
            a.len() == b.len(),
            i <= a.len(),
            forall|j: int| 0 <= j < i ==> a@[j] == b@[j],
        decreases a.len() - i,
    {
        if a[i] != b[i] {
            return false;
        }
        i = i + 1;
    }
    assert(a@ =~= b@);
    true
}

/// Copies a byte string into a fresh vector.
pub fn copy_bytes(a: &[u8]) -> (r: Vec<u8>)
    ensures
        r@ == a@,
{
    let mut r: Vec<u8> = Vec::new();
    let mut i: usize = 0;
    while i < a.len()
        invariant
            i <= a.len(),
            r@ == a@.take(i as int),
        decreases a.len() - i,
    {
        r.push(a[i]);
        i = i + 1;
        assert(r@ =~= a@.take(i as int));
    }
    assert(a@.take(a.len() as int) =~= a@);
    r
}

/// Tells whether `key` occurs among `keys`.
pub fn contains_bytes(keys: &Vec<Vec<u8>>, key: &[u8]) -> (r: bool)
    ensures
        r == byte_strings(keys@).contains(key@),
{
    let mut i: usize = 0;
    while i < keys.len()
        invariant
            i <= keys.len(),
            forall|j: int| 0 <= j < i ==> keys@[j]@ != key@,
        decreases keys.len() - i,
    {
        if bytes_eq(keys[i].as_slice(), key) {
            assert(byte_strings(keys@)[i as int] == key@);
            return true;
        }
        i = i + 1;
    }
    assert forall|j: int| 0 <= j < byte_strings(keys@).len() implies byte_strings(keys@)[j] != key@ by {
        assert(byte_strings(keys@)[j] == keys@[j]@);
    }
    false
}

/// Adds `key` to a list of distinct byte strings unless it is already there.
pub fn insert_bytes(keys: &mut Vec<Vec<u8>>, key: &[u8])
    requires
        byte_strings(old(keys)@).no_duplicates(),
    ensures
        byte_strings(final(keys)@).no_duplicates(),
        byte_strings(final(keys)@).to_set() == byte_strings(old(keys)@).to_set().insert(key@),
{
    let present = contains_bytes(keys, key);
    if !present {
        let ghost before = byte_strings(keys@);
        keys.push(copy_bytes(key));
        assert(byte_strings(keys@) =~= before.push(key@));
        assert(byte_strings(keys@).to_set() =~= before.to_set().insert(key@)) by {
            assert forall|x: Seq<u8>| byte_strings(keys@).contains(x) <==> before.to_set().insert(key@).contains(x) by {
                if byte_strings(keys@).contains(x) {
                    let j = choose|j: int| 0 <= j < byte_strings(keys@).len() && byte_strings(keys@)[j] == x;
                    if j < before.len() {
                        assert(before[j] == x);
                    }
                }
                if before.contains(x) {
                    let j = choose|j: int| 0 <= j < before.len() && before[j] == x;
                    assert(byte_strings(keys@)[j] == x);
                }
                if x == key@ {
                    assert(byte_strings(keys@)[before.len() as int] == x);
                }
            }
        }
    } else {
        assert(byte_strings(keys@).to_set() =~= byte_strings(keys@).to_set().insert(key@));
    }
}

} // verus!

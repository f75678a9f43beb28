//! Addresses, object identifiers and versions, and the well-known addresses
//! of the system packages.

use vstd::prelude::*;
use vstd::string::*;
use crate::text::{hex_encode, hex_lower, hex_pair_reads, lemma_hex_lower_reads_back, push_str, string_of};

verus! {

/// Length of an account address in bytes.
pub const ADDRESS_LENGTH: usize = 32;

/// An account address.
#[derive(Clone, Copy, Debug, PartialEq, Eq, PartialOrd, Ord, Hash)]
pub struct AccountAddress(pub [u8; 32]);

impl View for AccountAddress {
    type V = Seq<u8>;

    open spec fn view(&self) -> Seq<u8> {
        self.0@
    }
}

/// An object identifier: the address of the object.
#[derive(Clone, Copy, Debug, PartialEq, Eq, PartialOrd, Ord, Hash)]
pub struct ObjectID(pub AccountAddress);

impl View for ObjectID {
    type V = Seq<u8>;

    open spec fn view(&self) -> Seq<u8> {
        self.0@
    }
}

/// The version of an object.
pub type SequenceNumber = u64;

/// The version of an object.
pub type VersionNumber = SequenceNumber;

/// The lowest version.
pub const SEQUENCE_NUMBER_MIN: SequenceNumber = 0;

/// The highest version.
pub const SEQUENCE_NUMBER_MAX: SequenceNumber = 0x7fff_ffff_ffff_ffff;

/// The digest of an object's contents.
#[derive(Clone, Copy)]
pub struct ObjectDigest(pub [u8; 32]);

/// A reference to an object at a version.
pub type ObjectRef = (ObjectID, SequenceNumber, ObjectDigest);

/// The address whose last byte is `b` and whose other bytes are zero.
pub open spec fn single_byte_address(b: u8) -> Seq<u8> {
    Seq::new(32, |i: int| if i == 31 { b } else { 0u8 })
}

/// The address 0x0...dee9.
pub open spec fn deepbook_address_bytes() -> Seq<u8> {
    Seq::new(32, |i: int| if i == 30 { 0xdeu8 } else if i == 31 { 0xe9u8 } else { 0u8 })
}

/// A string with its leading `'0'` characters removed.
pub open spec fn trim_leading_zeros(s: Seq<char>) -> Seq<char>
    decreases s.len(),
{
    if s.len() > 0 && s[0] == '0' {
        trim_leading_zeros(s.skip(1))
    } else {
        s
    }
}

/// The shortest hexadecimal rendering of an address: without leading zeros,
/// and `"0"` for the zero address.
pub open spec fn short_hex(bytes: Seq<u8>) -> Seq<char> {
    let t = trim_leading_zeros(hex_lower(bytes));
    if t.len() == 0 {
        seq!['0']
    } else {
        t
    }
}

/// The hexadecimal literal of an address: `"0x"` and its short rendering.
pub open spec fn hex_literal(bytes: Seq<u8>) -> Seq<char> {
    seq!['0', 'x'] + short_hex(bytes)
}

proof fn lemma_trim_skip(s: Seq<char>, k: int)
    requires
        0 <= k <= s.len(),
        forall|j: int| 0 <= j < k ==> s[j] == '0',
        k == s.len() || s[k] != '0',
    ensures
        trim_leading_zeros(s) == s.skip(k),
    decreases k,
{
    if k == 0 {
        assert(s.skip(0) =~= s);
    } else {
        assert forall|j: int| 0 <= j < k - 1 implies s.skip(1)[j] == '0' by {
            assert(s.skip(1)[j] == s[j + 1]);
        }
        if k - 1 < s.skip(1).len() {
            assert(s.skip(1)[k - 1] == s[k]);
        }
        lemma_trim_skip(s.skip(1), k - 1);
        assert(s.skip(1).skip(k - 1) =~= s.skip(k));
    }
}

/// Trimming removes the leading zeros and nothing else: the result is what
/// follows a run of `'0'` characters at the front, and it does not itself
/// start with `'0'`.
pub proof fn lemma_trim_leading_zeros_removes_only_zeros(s: Seq<char>)
    ensures
        ({
            let t = trim_leading_zeros(s);
            let k = s.len() - t.len();
            &&& 0 <= k <= s.len()
            &&& t == s.skip(k)
            &&& forall|j: int| 0 <= j < k ==> s[j] == '0'
            &&& t.len() == 0 || t[0] != '0'
        }),
    decreases s.len(),
{
    if s.len() > 0 && s[0] == '0' {
        lemma_trim_leading_zeros_removes_only_zeros(s.skip(1));
        let t = trim_leading_zeros(s);
        let k = s.len() - t.len();
        assert forall|j: int| 0 <= j < k implies s[j] == '0' by {
            if j > 0 {
                assert(s[j] == s.skip(1)[j - 1]);
            }
        }
        assert(s.skip(1).skip(k - 1) =~= s.skip(k));
    } else {
        assert(s.skip(0) =~= s);
    }
}

/// The short rendering of an address is never empty, and starts with `'0'`
/// only where it is exactly `"0"`, which is the case only for the zero
/// address.
pub proof fn lemma_short_hex_form(bytes: Seq<u8>)
    ensures
        short_hex(bytes).len() > 0,
        short_hex(bytes)[0] == '0' ==> short_hex(bytes) == seq!['0'],
        short_hex(bytes) == seq!['0'] <==> forall|j: int| 0 <= j < bytes.len() ==> bytes[j] == 0,
{
    let h = hex_lower(bytes);
    lemma_trim_leading_zeros_removes_only_zeros(h);
    lemma_hex_lower_reads_back(bytes);
    let t = trim_leading_zeros(h);
    let k = h.len() - t.len();
    let all_zero_text = forall|j: int| 0 <= j < h.len() ==> h[j] == '0';
    if t.len() == 0 {
        assert(k == h.len());
    } else {
        assert(t[0] == h[k]);
        if all_zero_text {
            assert(h[k] == '0');
        }
    }
    if forall|j: int| 0 <= j < bytes.len() ==> bytes[j] == 0 {
        assert forall|j: int| 0 <= j < h.len() implies h[j] == '0' by {
            let i = j / 2;
            assert(hex_pair_reads(h, i, bytes[i]));
            assert(bytes[i] == 0);
            if j == 2 * i {
                assert(h[2 * i] == '0');
            } else {
                assert(j == 2 * i + 1);
                assert(h[2 * i + 1] == '0');
            }
        }
    }
    if all_zero_text {
        assert forall|j: int| 0 <= j < bytes.len() implies bytes[j] == 0 by {
            assert(hex_pair_reads(h, j, bytes[j]));
            assert(h[2 * j] == '0');
            assert(h[2 * j + 1] == '0');
        }
    }
}

impl AccountAddress {
    /// The address with the given bytes.
    pub fn new(bytes: [u8; 32]) -> (r: Self)
        ensures
            r@ == bytes@,
    {
        AccountAddress(bytes)
    }

    /// Whether two addresses are the same.
    pub fn same_as(&self, other: &AccountAddress) -> (r: bool)
        ensures
            r == (self@ == other@),
    {
        crate::bytes::bytes_eq(self.0.as_slice(), other.0.as_slice())
    }

    /// The shortest hexadecimal rendering, without leading zeros.
    pub fn short_str_lossless(&self) -> (r: String)
        ensures
            r@ == short_hex(self@),
    {
        let full = hex_encode(self.0.as_slice());
        let s = full.as_str();
        let n = s.unicode_len();
        let mut k: usize = 0;
        while k < n && s.get_char(k) == '0'
            invariant
                n == s@.len(),
                k <= n,
                forall|j: int| 0 <= j < k ==> s@[j] == '0',
            decreases n - k,
        {
            k = k + 1;
        }
        proof {
            lemma_trim_skip(s@, k as int);
        }
        if k == n {
            let r = string_of("0");
            proof {
                reveal_strlit("0");
                assert(r@ =~= seq!['0']);
            }
            r
        } else {
            let rest = s.substring_char(k, n);
            assert(rest@ =~= s@.skip(k as int));
            string_of(rest)
        }
    }

    /// The hexadecimal literal: `"0x"` and the shortest rendering.
    pub fn to_hex_literal(&self) -> (r: String)
        ensures
            r@ == hex_literal(self@),
    {
        let mut r = string_of("0x");
        proof {
            reveal_strlit("0x");
        }
        let short = self.short_str_lossless();
        push_str(&mut r, short.as_str());
        assert(r@ =~= hex_literal(self@));
        r
    }
}

/// The address whose last byte is `b` and whose other bytes are zero.
pub fn address_from_single_byte(b: u8) -> (r: AccountAddress)
    ensures
        r@ == single_byte_address(b),
{
    let mut addr = [0u8; 32];
    addr[31] = b;
    let r = AccountAddress::new(addr);
    assert(r@ =~= single_byte_address(b));
    r
}

/// The address 0x0...dee9.
pub fn deepbook_addr() -> (r: AccountAddress)
    ensures
        r@ == deepbook_address_bytes(),
{
    let mut addr = [0u8; 32];
    addr[30] = 0xde;
    addr[31] = 0xe9;
    let r = AccountAddress::new(addr);
    assert(r@ =~= deepbook_address_bytes());
    r
}

/// 0x1: where the Move standard library is stored.
pub fn move_stdlib_address() -> (r: AccountAddress)
    ensures
        r@ == single_byte_address(1),
{
    address_from_single_byte(1)
}

/// 0x2: where the Sui framework is stored.
pub fn sui_framework_address() -> (r: AccountAddress)
    ensures
        r@ == single_byte_address(2),
{
    address_from_single_byte(2)
}

/// 0x3: where the Sui system modules are stored.
pub fn sui_system_address() -> (r: AccountAddress)
    ensures
        r@ == single_byte_address(3),
{
    address_from_single_byte(3)
}

/// 0x5: the singleton system state object.
pub fn sui_system_state_address() -> (r: AccountAddress)
    ensures
        r@ == single_byte_address(5),
{
    address_from_single_byte(5)
}

/// 0x6: the singleton clock object.
pub fn sui_clock_address() -> (r: AccountAddress)
    ensures
        r@ == single_byte_address(6),
{
    address_from_single_byte(6)
}

/// 0x7: the singleton authenticator state object.
pub fn sui_authenticator_state_address() -> (r: AccountAddress)
    ensures
        r@ == single_byte_address(7),
{
    address_from_single_byte(7)
}

/// Whether `addr` is a system package that can be upgraded at epoch
/// boundaries: the Move standard library, the Sui framework, the Sui system
/// package or DeepBook.
pub fn is_system_package(addr: &AccountAddress) -> (r: bool)
    ensures
        r == (addr@ == single_byte_address(1) || addr@ == single_byte_address(2) || addr@
            == single_byte_address(3) || addr@ == deepbook_address_bytes()),
{
    addr.same_as(&move_stdlib_address()) || addr.same_as(&sui_framework_address()) || addr.same_as(
        &sui_system_address(),
    ) || addr.same_as(&deepbook_addr())
}

/// The Sui framework address as a hexadecimal literal, followed by `suffix`.
pub fn sui_framework_address_concat_string(suffix: &str) -> (r: String)
    ensures
        r@ == hex_literal(single_byte_address(2)) + suffix@,
{
    let mut r = sui_framework_address().to_hex_literal();
    push_str(&mut r, suffix);
    r
}

/// The address named by a well-known package name.
pub fn resolve_address(addr: &str) -> (r: Option<AccountAddress>)
    ensures
        addr@ == "deepbook"@ ==> r is Some && r->0@ == deepbook_address_bytes(),
        addr@ == "std"@ ==> r is Some && r->0@ == single_byte_address(1),
        addr@ == "sui"@ ==> r is Some && r->0@ == single_byte_address(2),
        addr@ == "sui_system"@ ==> r is Some && r->0@ == single_byte_address(3),
        r is None <==> (addr@ != "deepbook"@ && addr@ != "std"@ && addr@ != "sui"@ && addr@
            != "sui_system"@),
{
    proof {
        reveal_strlit("deepbook");
        reveal_strlit("std");
        reveal_strlit("sui");
        reveal_strlit("sui_system");
        assert("deepbook"@.len() == 8 && "std"@.len() == 3 && "sui"@.len() == 3 && "sui_system"@.len() == 10);
        assert("std"@[1] == 't' && "sui"@[1] == 'u');
    }
    if crate::text::str_eq(addr, "deepbook") {
        Some(deepbook_addr())
    } else if crate::text::str_eq(addr, "std") {
        Some(move_stdlib_address())
    } else if crate::text::str_eq(addr, "sui") {
        Some(sui_framework_address())
    } else if crate::text::str_eq(addr, "sui_system") {
        Some(sui_system_address())
    } else {
        None
    }
}

impl ObjectID {
    /// The object identifier with the given address.
    pub fn from_address(addr: AccountAddress) -> (r: Self)
        ensures
            r == ObjectID(addr),
            r@ == addr@,
    {
        ObjectID(addr)
    }
}

} // verus!

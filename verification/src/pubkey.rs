//! The 32-byte identifier of programs and accounts.

use crate::decimal::{decimal_chars, decimal_digits};
use crate::hexadecimal::{hex_encode, hex_encoding};
use crate::text::{extend, string_of};
use std::cmp::Ordering;
use vstd::prelude::*;

verus! {

/// An identifier: 32 bytes. Two identifiers are equal when their bytes are,
/// and they are ordered as their byte sequences are, the first byte counting
/// most.
#[derive(Clone, Copy, Debug, Eq, Hash, Ord)]
pub struct Pubkey(pub [u8; 32]);

impl View for Pubkey {
    type V = Seq<u8>;

    open spec fn view(&self) -> Seq<u8> {
        self.0@
    }
}

/// The value from which a process counts its unique identifiers.
pub const FIRST_UNIQUE: u64 = 1;

/// The first 32 bytes of `data`, with zeros where `data` is shorter.
pub open spec fn zero_padded(data: Seq<u8>) -> Seq<u8> {
    Seq::new(
        32,
        |i: int|
            if i < data.len() {
                data[i]
            } else {
                0u8
            },
    )
}

/// The bytes of the identifier reserved for the system: zeros and a final 1.
pub open spec fn system_program_bytes() -> Seq<u8> {
    Seq::new(
        32,
        |i: int|
            if i == 31 {
                1u8
            } else {
                0u8
            },
    )
}

/// Byte `k` of the eight bytes that write `i` with the highest byte first.
pub open spec fn big_endian_byte(i: u64, k: int) -> u8
    recommends
        0 <= k < 8,
{
    if k == 0 {
        (i / 0x100_0000_0000_0000) as u8
    } else if k == 1 {
        (i / 0x1_0000_0000_0000 % 0x100) as u8
    } else if k == 2 {
        (i / 0x100_0000_0000 % 0x100) as u8
    } else if k == 3 {
        (i / 0x1_0000_0000 % 0x100) as u8
    } else if k == 4 {
        (i / 0x100_0000 % 0x100) as u8
    } else if k == 5 {
        (i / 0x1_0000 % 0x100) as u8
    } else if k == 6 {
        (i / 0x100 % 0x100) as u8
    } else {
        (i % 0x100) as u8
    }
}

/// The bytes of the identifier made from the counter value `i`: `i` in its
/// first eight bytes, the highest byte first, and zeros behind.
pub open spec fn unique_bytes(i: u64) -> Seq<u8> {
    Seq::new(
        32,
        |k: int|
            if k < 8 {
                big_endian_byte(i, k)
            } else {
                0u8
            },
    )
}

/// Whether `a` comes before `b` in the order of byte sequences of one length:
/// at the first index where they differ, `a` holds the smaller byte.
pub open spec fn bytes_less(a: Seq<u8>, b: Seq<u8>) -> bool {
    exists|i: int|
        0 <= i < a.len() && i < b.len() && a[i] < b[i] && (forall|j: int|
            0 <= j < i ==> a[j] == b[j])
}

/// The text of a list of bytes from index `from` on: each in decimal, with a
/// comma and a space between two of them.
pub open spec fn listed_from(bytes: Seq<u8>, from: int) -> Seq<char>
    decreases bytes.len() - from,
{
    if from < 0 || from >= bytes.len() {
        Seq::empty()
    } else if from + 1 == bytes.len() {
        decimal_digits(bytes[from] as nat)
    } else {
        decimal_digits(bytes[from] as nat) + seq![',', ' '] + listed_from(bytes, from + 1)
    }
}

/// The text of a list of bytes, in square brackets.
pub open spec fn listed(bytes: Seq<u8>) -> Seq<char> {
    seq!['['] + listed_from(bytes, 0) + seq![']']
}

impl Pubkey {
    /// The identifier's bytes, unchanged.
    pub fn serialize(&self) -> (bytes: [u8; 32])
        ensures
            bytes@ == self@,
    {
        self.0
    }

    /// The identifier that holds the first 32 bytes of `data`, and zeros where
    /// `data` is shorter. Of exactly 32 bytes nothing is lost.
    pub fn from_slice(data: &[u8]) -> (key: Pubkey)
        ensures
            key@ == zero_padded(data@),
            data@.len() == 32 ==> key@ == data@,
    {
        let mut tmp = [0u8;32];
        let mut i: usize = 0;
        while i < 32 && i < data.len()
            invariant
                i <= 32,
                i <= data.len(),
                forall|j: int| 0 <= j < i ==> tmp@[j] == data@[j],
                forall|j: int| i <= j < 32 ==> tmp@[j] == 0,
            decreases 32 - i,
        {
            tmp[i] = data[i];
            i += 1;
        }
        assert(tmp@ =~= zero_padded(data@));
        assert(data@.len() == 32 ==> zero_padded(data@) =~= data@);
        Pubkey(tmp)
    }

    /// The identifier reserved for the system.
    pub fn system_program() -> (key: Pubkey)
        ensures
            key@ == system_program_bytes(),
    {
        let mut tmp = [0u8;32];
        tmp[31] = 1;
        assert(tmp@ =~= system_program_bytes());
        Pubkey(tmp)
    }

    /// Whether this is the identifier reserved for the system.
    pub fn is_system_program(&self) -> (system: bool)
        ensures
            system == (self@ == system_program_bytes()),
    {
        let mut i: usize = 0;
        while i < 31
            invariant
                i <= 31,
                forall|j: int| 0 <= j < i ==> self.0@[j] == 0,
            decreases 31 - i,
        {
            if self.0[i] != 0 {
                assert(self@[i as int] != system_program_bytes()[i as int]);
                return false;
            }
            i += 1;
        }
        if self.0[31] != 1 {
            assert(self@[31] != system_program_bytes()[31]);
            return false;
        }
        assert(self@ =~= system_program_bytes());
        true
    }

    /// The identifier made from the counter's value, and the counter moved on
    /// by one. The counter starts again at zero after its highest value. The
    /// identifier is never the one reserved for the system.
    pub fn new_unique(counter: &mut u64) -> (key: Pubkey)
        ensures
            key@ == unique_bytes(*old(counter)),
            *final(counter) == if *old(counter) == u64::MAX {
                0
            } else {
                *old(counter) + 1
            },
            key@ != system_program_bytes(),
    {
        let i: u64 = *counter;
        *counter = if i == u64::MAX {
            0
        } else {
            i + 1
        };
        let mut b = [0u8;32];
        b[0] = (i / 0x100_0000_0000_0000) as u8;
        b[1] = (i / 0x1_0000_0000_0000 % 0x100) as u8;
        b[2] = (i / 0x100_0000_0000 % 0x100) as u8;
        b[3] = (i / 0x1_0000_0000 % 0x100) as u8;
        b[4] = (i / 0x100_0000 % 0x100) as u8;
        b[5] = (i / 0x1_0000 % 0x100) as u8;
        b[6] = (i / 0x100 % 0x100) as u8;
        b[7] = (i % 0x100) as u8;
        assert(b@ =~= unique_bytes(i));
        assert(unique_bytes(i)[31] != system_program_bytes()[31]);
        Pubkey(b)
    }

    /// The identifier in hexadecimal: 64 digits, lower case.
    pub fn to_hex(&self) -> (text: String)
        ensures
            text@ == hex_encoding(self@),
    {
        hex_encode(self.0.as_slice())
    }

    /// The identifier as the list of its bytes in decimal, in square brackets.
    pub fn to_string(&self) -> (text: String)
        ensures
            text@ == listed(self@),
    {
        let mut out: Vec<char> = Vec::new();
        out.push('[');
        let ghost head = out@;
        let mut i: usize = 32;
        let mut tail: Vec<char> = Vec::new();
        while i > 0
            invariant
                i <= 32,
                tail@ == listed_from(self@, i as int),
            decreases i,
        {
            i -= 1;
            let mut item = decimal_chars(self.0[i] as u64);
            if i + 1 < 32 {
                item.push(',');
                item.push(' ');
            }
            extend(&mut item, &tail);
            tail = item;
        }
        extend(&mut out, &tail);
        out.push(']');
        string_of(&out)
    }
}

/// Identifiers with the same bytes are the same identifier.
pub proof fn lemma_same_bytes(a: Pubkey, b: Pubkey)
    requires
        a@ == b@,
    ensures
        a == b,
{
    assert(a.0 =~= b.0);
}

/// An identifier made from the bytes of an identifier is that identifier:
/// nothing is cut off and nothing is padded.
pub proof fn lemma_round_trip(id: Pubkey)
    ensures
        zero_padded(id@) == id@,
{
    assert(zero_padded(id@) =~= id@);
}

/// Two byte sequences of one length that agree in their first `k` bytes and
/// are not the same differ at some index from `k` on, and before the first
/// such index they agree.
proof fn lemma_first_differing_byte(a: Seq<u8>, b: Seq<u8>, k: int)
    requires
        a.len() == b.len(),
        a != b,
        0 <= k <= a.len(),
        forall|j: int| 0 <= j < k ==> a[j] == b[j],
    ensures
        exists|i: int|
            k <= i < a.len() && a[i] != b[i] && (forall|j: int| 0 <= j < i ==> a[j] == b[j]),
    decreases a.len() - k,
{
    if k == a.len() {
        assert(a =~= b);
    } else if a[k] == b[k] {
        lemma_first_differing_byte(a, b, k + 1);
    }
}

/// The order is total: of two identifiers, either they are the same or
/// exactly one comes before the other.
pub proof fn lemma_order_total(a: Pubkey, b: Pubkey)
    ensures
        a@ == b@ || bytes_less(a@, b@) || bytes_less(b@, a@),
        !(bytes_less(a@, b@) && bytes_less(b@, a@)),
        !(a@ == b@ && bytes_less(a@, b@)),
{
    if a@ != b@ {
        lemma_first_differing_byte(a@, b@, 0);
        let i = choose|i: int|
            0 <= i < a@.len() && a@[i] != b@[i] && (forall|j: int| 0 <= j < i ==> a@[j] == b@[j]);
        if a@[i] < b@[i] {
            assert(bytes_less(a@, b@));
        } else {
            assert(b@[i] < a@[i]);
            assert(bytes_less(b@, a@));
        }
    }
    if bytes_less(a@, b@) && bytes_less(b@, a@) {
        let i = choose|i: int|
            0 <= i < a@.len() && i < b@.len() && a@[i] < b@[i] && (forall|j: int|
                0 <= j < i ==> a@[j] == b@[j]);
        let k = choose|k: int|
            0 <= k < b@.len() && k < a@.len() && b@[k] < a@[k] && (forall|j: int|
                0 <= j < k ==> b@[j] == a@[j]);
        if i < k {
            assert(b@[i] == a@[i]);
        } else if k < i {
            assert(a@[k] == b@[k]);
        }
    }
}

/// The order is transitive.
pub proof fn lemma_order_transitive(a: Pubkey, b: Pubkey, c: Pubkey)
    requires
        bytes_less(a@, b@),
        bytes_less(b@, c@),
    ensures
        bytes_less(a@, c@),
{
    let i = choose|i: int|
        0 <= i < a@.len() && i < b@.len() && a@[i] < b@[i] && (forall|j: int|
            0 <= j < i ==> a@[j] == b@[j]);
    let k = choose|k: int|
        0 <= k < b@.len() && k < c@.len() && b@[k] < c@[k] && (forall|j: int|
            0 <= j < k ==> b@[j] == c@[j]);
    let m = if i <= k {
        i
    } else {
        k
    };
    assert(a@[m] < c@[m]);
    assert forall|j: int| 0 <= j < m implies a@[j] == c@[j] by {
        assert(a@[j] == b@[j]);
        assert(b@[j] == c@[j]);
    }
}

/// The number that the first `k` of the eight big-endian bytes of `i` write.
spec fn leading(i: u64, k: int) -> int {
    if k <= 0 {
        0
    } else if k == 1 {
        i as int / 0x100_0000_0000_0000
    } else if k == 2 {
        i as int / 0x1_0000_0000_0000
    } else if k == 3 {
        i as int / 0x100_0000_0000
    } else if k == 4 {
        i as int / 0x1_0000_0000
    } else if k == 5 {
        i as int / 0x100_0000
    } else if k == 6 {
        i as int / 0x1_0000
    } else if k == 7 {
        i as int / 0x100
    } else {
        i as int
    }
}

/// One more byte multiplies what the bytes before it write by 256 and adds
/// itself.
proof fn lemma_leading_step(i: u64, k: int)
    requires
        0 <= k < 8,
    ensures
        leading(i, k + 1) == 256 * leading(i, k) + big_endian_byte(i, k),
{
}

/// More leading bytes of the smaller number do not write a greater number.
proof fn lemma_leading_ordered(i: u64, j: u64, k: int)
    requires
        i <= j,
        0 <= k <= 8,
    ensures
        leading(i, k) <= leading(j, k),
{
}

/// Where two numbers agree in their first `k` bytes and the first is the
/// smaller one, the first byte in which they differ is smaller in the first.
proof fn lemma_first_difference(i: u64, j: u64, k: int)
    requires
        i < j,
        0 <= k <= 8,
        leading(i, k) == leading(j, k),
    ensures
        exists|m: int|
            k <= m < 8 && #[trigger] big_endian_byte(i, m) < big_endian_byte(j, m) && (forall|
                n: int,
            |
                k <= n < m ==> big_endian_byte(i, n) == big_endian_byte(j, n)),
    decreases 8 - k,
{
    if k < 8 {
        lemma_leading_step(i, k);
        lemma_leading_step(j, k);
        lemma_leading_ordered(i, j, k + 1);
        if big_endian_byte(i, k) == big_endian_byte(j, k) {
            lemma_first_difference(i, j, k + 1);
            let m = choose|m: int|
                k + 1 <= m < 8 && #[trigger] big_endian_byte(i, m) < big_endian_byte(j, m)
                    && (forall|n: int|
                    k + 1 <= n < m ==> big_endian_byte(i, n) == big_endian_byte(j, n));
            assert(big_endian_byte(i, m) < big_endian_byte(j, m));
        } else {
            assert(big_endian_byte(i, k) < big_endian_byte(j, k));
        }
    }
}

/// The first unique identifier of a process holds the number one in its
/// first eight bytes, the highest byte first, and zeros behind: it is not the
/// identifier of all zeros.
pub proof fn lemma_first_unique()
    ensures
        unique_bytes(FIRST_UNIQUE) == Seq::new(
            32,
            |k: int|
                if k == 7 {
                    1u8
                } else {
                    0u8
                },
        ),
        unique_bytes(FIRST_UNIQUE)[7] != 0,
{
    assert(unique_bytes(FIRST_UNIQUE) =~= Seq::new(
        32,
        |k: int|
            if k == 7 {
                1u8
            } else {
                0u8
            },
    ));
}

/// Of two counter values the smaller one makes the identifier that comes
/// first: identifiers made one after the other come in rising order, and no
/// two of them are the same.
pub proof fn lemma_unique_bytes_increasing(i: u64, j: u64)
    requires
        i < j,
    ensures
        bytes_less(unique_bytes(i), unique_bytes(j)),
        unique_bytes(i) != unique_bytes(j),
{
    let a = unique_bytes(i);
    let b = unique_bytes(j);
    lemma_first_difference(i, j, 0);
    let m = choose|m: int|
        0 <= m < 8 && #[trigger] big_endian_byte(i, m) < big_endian_byte(j, m) && (forall|n: int|
            0 <= n < m ==> big_endian_byte(i, n) == big_endian_byte(j, n));
    assert(a[m] < b[m]);
    assert forall|n: int| 0 <= n < m implies a[n] == b[n] by {
        assert(a[n] == big_endian_byte(i, n) && b[n] == big_endian_byte(j, n));
    }
}

impl PartialEq for Pubkey {
    fn eq(&self, other: &Self) -> (equal: bool) {
        let mut i: usize = 0;
        while i < 32
            invariant
                i <= 32,
                forall|j: int| 0 <= j < i ==> self.0@[j] == other.0@[j],
            decreases 32 - i,
        {
            if self.0[i] != other.0[i] {
                return false;
            }
            i += 1;
        }
        assert(self@ =~= other@);
        true
    }
}

impl vstd::std_specs::cmp::PartialEqSpecImpl for Pubkey {
    open spec fn obeys_eq_spec() -> bool {
        true
    }

    open spec fn eq_spec(&self, other: &Self) -> bool {
        self@ == other@
    }
}

impl PartialOrd for Pubkey {
    fn partial_cmp(&self, other: &Self) -> (order: Option<Ordering>) {
        let mut i: usize = 0;
        while i < 32
            invariant
                i <= 32,
                forall|j: int| 0 <= j < i ==> self.0@[j] == other.0@[j],
            decreases 32 - i,
        {
            if self.0[i] < other.0[i] {
                return Some(Ordering::Less);
            }
            if self.0[i] > other.0[i] {
                return Some(Ordering::Greater);
            }
            i += 1;
        }
        assert(self@ =~= other@);
        Some(Ordering::Equal)
    }
}

impl vstd::std_specs::cmp::PartialOrdSpecImpl for Pubkey {
    open spec fn obeys_partial_cmp_spec() -> bool {
        true
    }

    open spec fn partial_cmp_spec(&self, other: &Self) -> Option<Ordering> {
        if self@ == other@ {
            Some(Ordering::Equal)
        } else if bytes_less(self@, other@) {
            Some(Ordering::Less)
        } else {
            Some(Ordering::Greater)
        }
    }
}

impl From<[u8; 32]> for Pubkey {
    fn from(value: [u8; 32]) -> (key: Pubkey) {
        Pubkey(value)
    }
}

impl vstd::std_specs::convert::FromSpecImpl<[u8; 32]> for Pubkey {
    open spec fn obeys_from_spec() -> bool {
        true
    }

    open spec fn from_spec(value: [u8; 32]) -> Pubkey {
        Pubkey(value)
    }
}

impl AsRef<[u8]> for Pubkey {
    fn as_ref(&self) -> (bytes: &[u8])
        ensures
            bytes@ == self@,
    {
        self.0.as_slice()
    }
}

impl AsMut<[u8]> for Pubkey {
    fn as_mut(&mut self) -> (bytes: &mut [u8])
        ensures
            bytes@ == old(self)@,
            final(self)@ == final(bytes)@,
    {
        &mut self.0
    }
}

impl Default for Pubkey {
    fn default() -> (key: Pubkey)
        ensures
            forall|i: int| 0 <= i < 32 ==> key@[i] == 0,
    {
        Pubkey([0u8;32])
    }
}

} // verus!

//! Elements of the Cairo field.
use vstd::prelude::*;

verus! {

/// The modulus of the field: 2^251 + 17 * 2^192 + 1.
pub open spec fn prime() -> nat {
    0x0800000000000011_0000000000000000_0000000000000000_0000000000000001nat
}

/// The number whose big-endian base-256 digits are `bytes`.
pub open spec fn be_value(bytes: Seq<u8>) -> nat
    decreases bytes.len(),
{
    if bytes.len() == 0 {
        0
    } else {
        be_value(bytes.drop_last()) * 256 + bytes.last() as nat
    }
}

/// The lowest `n` base-256 digits of a number, in big-endian order.
pub open spec fn be_bytes(value: nat, n: nat) -> Seq<u8>
    decreases n,
{
    if n == 0 {
        Seq::empty()
    } else {
        be_bytes(value / 256, (n - 1) as nat).push((value % 256) as u8)
    }
}

/// The digits of a number are the only ones that write it.
pub proof fn lemma_be_bytes(bytes: Seq<u8>)
    ensures
        be_bytes(be_value(bytes), bytes.len()) == bytes,
    decreases bytes.len(),
{
    if bytes.len() > 0 {
        lemma_be_bytes(bytes.drop_last());
        assert(bytes.drop_last().push(bytes.last()) =~= bytes);
    }
}

/// `n` digits are `n` bytes.
pub proof fn lemma_be_bytes_len(value: nat, n: nat)
    ensures
        be_bytes(value, n).len() == n,
    decreases n,
{
    if n > 0 {
        lemma_be_bytes_len(value / 256, (n - 1) as nat);
    }
}

/// 256 to the power `n`.
spec fn pow256(n: nat) -> nat
    decreases n,
{
    if n == 0 {
        1
    } else {
        256 * pow256((n - 1) as nat)
    }
}

/// A number that `n` digits can write is the one that its `n` digits write.
proof fn lemma_be_value_of_be_bytes(value: nat, n: nat)
    requires
        value < pow256(n),
    ensures
        be_value(be_bytes(value, n)) == value,
    decreases n,
{
    if n > 0 {
        lemma_be_value_of_be_bytes(value / 256, (n - 1) as nat);
        let bytes = be_bytes(value, n);
        assert(bytes.drop_last() =~= be_bytes(value / 256, (n - 1) as nat));
    }
}

/// A field element, held as the four 64-bit digits of its value, least significant first.
#[derive(Clone, Copy, Debug, PartialEq, Eq, Structural)]
pub struct Felt {
    pub(crate) d0: u64,
    pub(crate) d1: u64,
    pub(crate) d2: u64,
    pub(crate) d3: u64,
}

/// The number that four 64-bit digits write, least significant first.
pub open spec fn digits_value(d0: u64, d1: u64, d2: u64, d3: u64) -> nat {
    (d0 + d1 * 0x1_0000_0000_0000_0000 + d2
        * 0x1_0000_0000_0000_0000_0000_0000_0000_0000int + d3
        * 0x1_0000_0000_0000_0000_0000_0000_0000_0000_0000_0000_0000_0000int) as nat
}

impl View for Felt {
    type V = nat;

    /// The value of the element, as a number below the modulus.
    closed spec fn view(&self) -> nat {
        digits_value(self.d0, self.d1, self.d2, self.d3)
    }
}

/// Two elements of one value are the same element.
pub proof fn lemma_felt_is_its_value(a: Felt, b: Felt)
    requires
        a@ == b@,
    ensures
        a == b,
{
    let base = 0x1_0000_0000_0000_0000int;
    lemma_digits(a.d0 as int, a.d1 + a.d2 * base + a.d3 * (base * base), b.d0 as int, b.d1 + b.d2
        * base + b.d3 * (base * base));
    lemma_digits(a.d1 as int, a.d2 + a.d3 * base, b.d1 as int, b.d2 + b.d3 * base);
    lemma_digits(a.d2 as int, a.d3 as int, b.d2 as int, b.d3 as int);
}

/// A number has one lowest digit and one rest.
proof fn lemma_digits(d: int, rest: int, e: int, other: int)
    requires
        0 <= d < 0x1_0000_0000_0000_0000,
        0 <= e < 0x1_0000_0000_0000_0000,
        d + rest * 0x1_0000_0000_0000_0000 == e + other * 0x1_0000_0000_0000_0000,
    ensures
        d == e,
        rest == other,
{
}

/// The element of the given value.
pub open spec fn felt_of(value: nat) -> Felt {
    choose|felt: Felt| felt@ == value
}

/// An element is the one of its value.
proof fn lemma_felt_of(felt: Felt)
    ensures
        felt_of(felt@) == felt,
{
    lemma_felt_is_its_value(felt_of(felt@), felt);
}

/// Every number below the modulus is the value of an element.
pub proof fn lemma_felt_of_value(value: nat)
    requires
        value < prime(),
    ensures
        felt_of(value)@ == value,
{
    let base = 0x1_0000_0000_0000_0000nat;
    let felt = Felt {
        d0: (value % base) as u64,
        d1: (value / base % base) as u64,
        d2: (value / base / base % base) as u64,
        d3: (value / base / base / base) as u64,
    };
    assert(felt@ == value);
}

/// The 32 bytes of an element write its value, so no two elements have the same bytes.
pub proof fn lemma_felt_bytes(felt: Felt)
    ensures
        be_value(be_bytes(felt@, 32)) == felt@,
{
    assert(pow256(32)
        == 0x1_0000_0000_0000_0000_0000_0000_0000_0000_0000_0000_0000_0000_0000_0000_0000_0000nat)
        by {
        reveal_with_fuel(pow256, 33);
    }
    lemma_be_value_of_be_bytes(felt@, 32);
}

/// The number that the eight bytes from `at` on write.
spec fn limb_value(bytes: Seq<u8>, at: int) -> int {
    bytes[at] * 0x100_0000_0000_0000 + bytes[at + 1] * 0x1_0000_0000_0000 + bytes[at + 2]
        * 0x100_0000_0000 + bytes[at + 3] * 0x1_0000_0000 + bytes[at + 4] * 0x100_0000 + bytes[at
        + 5] * 0x1_0000 + bytes[at + 6] * 0x100 + bytes[at + 7]
}

/// The eight base-256 digits of `limb`, most significant first.
fn limb_bytes(limb: u64) -> (r: [u8; 8])
    ensures
        limb == limb_value(r@, 0),
{
    let q1: u64 = limb / 0x100;
    let q2: u64 = q1 / 0x100;
    let q3: u64 = q2 / 0x100;
    let q4: u64 = q3 / 0x100;
    let q5: u64 = q4 / 0x100;
    let q6: u64 = q5 / 0x100;
    let q7: u64 = q6 / 0x100;
    [
        q7 as u8,
        (q6 % 0x100) as u8,
        (q5 % 0x100) as u8,
        (q4 % 0x100) as u8,
        (q3 % 0x100) as u8,
        (q2 % 0x100) as u8,
        (q1 % 0x100) as u8,
        (limb % 0x100) as u8,
    ]
}

/// Eight more digits multiply the number by 2^64 and add the eight-digit number to it.
proof fn lemma_be_value_limb(bytes: Seq<u8>, at: int)
    requires
        0 <= at <= bytes.len() - 8,
    ensures
        be_value(bytes.take(at + 8)) == be_value(bytes.take(at)) * 0x1_0000_0000_0000_0000
            + limb_value(bytes, at),
{
    assert forall|k: int| at < k <= at + 8 implies #[trigger] be_value(bytes.take(k)) == be_value(
        bytes.take(k - 1),
    ) * 256 + bytes[k - 1] by {
        assert(bytes.take(k).drop_last() =~= bytes.take(k - 1));
    }
    assert(be_value(bytes.take(at + 1)) == be_value(bytes.take(at)) * 256 + bytes[at]);
    assert(be_value(bytes.take(at + 2)) == be_value(bytes.take(at + 1)) * 256 + bytes[at + 1]);
    assert(be_value(bytes.take(at + 3)) == be_value(bytes.take(at + 2)) * 256 + bytes[at + 2]);
    assert(be_value(bytes.take(at + 4)) == be_value(bytes.take(at + 3)) * 256 + bytes[at + 3]);
    assert(be_value(bytes.take(at + 5)) == be_value(bytes.take(at + 4)) * 256 + bytes[at + 4]);
    assert(be_value(bytes.take(at + 6)) == be_value(bytes.take(at + 5)) * 256 + bytes[at + 5]);
    assert(be_value(bytes.take(at + 7)) == be_value(bytes.take(at + 6)) * 256 + bytes[at + 6]);
}

/// The bytes of four digits, most significant first, write the number that the digits write.
proof fn lemma_be_value_digits(bytes: Seq<u8>, d0: u64, d1: u64, d2: u64, d3: u64)
    requires
        bytes.len() == 32,
        limb_value(bytes, 0) == d3,
        limb_value(bytes, 8) == d2,
        limb_value(bytes, 16) == d1,
        limb_value(bytes, 24) == d0,
    ensures
        be_value(bytes) == digits_value(d0, d1, d2, d3),
{
    lemma_be_value_limb(bytes, 0);
    lemma_be_value_limb(bytes, 8);
    lemma_be_value_limb(bytes, 16);
    lemma_be_value_limb(bytes, 24);
    assert(bytes.take(32) =~= bytes);
    assert(bytes.take(0).len() == 0);
}

impl Felt {
    /// Every element is held reduced.
    #[verifier::type_invariant]
    pub open spec fn is_reduced(self) -> bool {
        self@ < prime()
    }

    /// The element that the four digits write, when that number is below the modulus.
    pub fn from_digits(d0: u64, d1: u64, d2: u64, d3: u64) -> (r: Option<Felt>)
        ensures
            r is Some <==> digits_value(d0, d1, d2, d3) < prime(),
            r matches Some(felt) ==> felt@ == digits_value(d0, d1, d2, d3) && felt == felt_of(
                digits_value(d0, d1, d2, d3),
            ),
    {
        if d3 < 0x0800000000000011 || (d3 == 0x0800000000000011 && d2 == 0 && d1 == 0 && d0 == 0) {
            let felt = Felt { d0, d1, d2, d3 };
            proof {
                lemma_felt_of(felt);
            }
            Some(felt)
        } else {
            None
        }
    }

    /// Zero.
    pub fn zero() -> (r: Felt)
        ensures
            r@ == 0,
            r == felt_of(0),
    {
        Felt::from_u64(0)
    }

    /// The element of value `n`.
    pub fn from_u64(n: u64) -> (r: Felt)
        ensures
            r@ == n,
            r == felt_of(n as nat),
    {
        let felt = Felt { d0: n, d1: 0, d2: 0, d3: 0 };
        proof {
            lemma_felt_of(felt);
        }
        felt
    }

    /// The element of value `n`.
    pub fn from_u128(n: u128) -> (r: Felt)
        ensures
            r@ == n,
            r == felt_of(n as nat),
    {
        let felt = Felt {
            d0: (n % 0x1_0000_0000_0000_0000) as u64,
            d1: (n / 0x1_0000_0000_0000_0000) as u64,
            d2: 0,
            d3: 0,
        };
        proof {
            lemma_felt_of(felt);
        }
        felt
    }

    /// The element of value `n`.
    pub fn from_usize(n: usize) -> (r: Felt)
        ensures
            r@ == n,
            r == felt_of(n as nat),
    {
        Felt::from_u64(n as u64)
    }

    /// The value as a `usize`, when it fits.
    pub fn to_usize(&self) -> (r: Option<usize>)
        ensures
            r is Some <==> self@ <= usize::MAX,
            r matches Some(n) ==> n == self@,
    {
        if self.d3 == 0 && self.d2 == 0 && self.d1 == 0 && self.d0 <= usize::MAX as u64 {
            Some(self.d0 as usize)
        } else {
            None
        }
    }

    /// The 32 big-endian bytes of the value.
    pub fn to_bytes_be(&self) -> (r: [u8; 32])
        ensures
            r@ == be_bytes(self@, 32),
            be_value(r@) == self@,
    {
        let a = limb_bytes(self.d3);
        let b = limb_bytes(self.d2);
        let c = limb_bytes(self.d1);
        let d = limb_bytes(self.d0);
        let r = [
            a[0], a[1], a[2], a[3], a[4], a[5], a[6], a[7],
            b[0], b[1], b[2], b[3], b[4], b[5], b[6], b[7],
            c[0], c[1], c[2], c[3], c[4], c[5], c[6], c[7],
            d[0], d[1], d[2], d[3], d[4], d[5], d[6], d[7],
        ];
        proof {
            assert(limb_value(r@, 0) == limb_value(a@, 0));
            assert(limb_value(r@, 8) == limb_value(b@, 0));
            assert(limb_value(r@, 16) == limb_value(c@, 0));
            assert(limb_value(r@, 24) == limb_value(d@, 0));
            lemma_be_value_digits(r@, self.d0, self.d1, self.d2, self.d3);
            lemma_be_bytes(r@);
        }
        r
    }
}

} // verus!

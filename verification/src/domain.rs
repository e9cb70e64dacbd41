//! Domain elements: the integers below the order of the scalar field of
//! BLS12-381, each held as 32 bytes with the least significant first, and
//! the pair of operations that folds a key into a value and takes it out
//! again.

use vstd::prelude::*;
use crate::error::Error;

verus! {

/// 256 to the power `n`.
pub open spec fn pow256(n: nat) -> nat
    decreases n,
{
    if n == 0 {
        1
    } else {
        256 * pow256((n - 1) as nat)
    }
}

/// The number that `bytes` spell with the least significant byte first.
pub open spec fn le_value(bytes: Seq<u8>) -> nat
    decreases bytes.len(),
{
    if bytes.len() == 0 {
        0
    } else {
        le_value(bytes.drop_last()) + bytes.last() as nat * pow256((bytes.len() - 1) as nat)
    }
}

/// The `len` bytes that spell `value` with the least significant byte first.
pub open spec fn le_bytes(value: nat, len: nat) -> Seq<u8>
    decreases len,
{
    if len == 0 {
        Seq::empty()
    } else {
        le_bytes(value % pow256((len - 1) as nat), (len - 1) as nat).push(
            (value / pow256((len - 1) as nat)) as u8,
        )
    }
}

/// The order of the field, least significant byte first.
pub open spec fn modulus_bytes() -> Seq<u8> {
    seq![
        0x01u8, 0x00, 0x00, 0x00, 0xff, 0xff, 0xff, 0xff,
        0xfe, 0x5b, 0xfe, 0xff, 0x02, 0xa4, 0xbd, 0x53,
        0x05, 0xd8, 0xa1, 0x09, 0x08, 0xd8, 0x39, 0x33,
        0x48, 0x7d, 0x9d, 0x29, 0x53, 0xa7, 0xed, 0x73,
    ]
}

/// The order of the field:
/// 0x73eda753299d7d483339d80809a1d80553bda402fffe5bfeffffffff00000001.
pub open spec fn modulus() -> nat {
    le_value(modulus_bytes())
}

/// Whether `bytes` hold a domain element: 32 bytes whose value is below the
/// modulus.
pub open spec fn is_element(bytes: Seq<u8>) -> bool {
    bytes.len() == 32 && le_value(bytes) < modulus()
}

/// The element that `data` becomes when `key` is folded into it: their sum
/// in the field.
pub open spec fn spec_combine(key: Seq<u8>, data: Seq<u8>) -> Seq<u8> {
    le_bytes((le_value(key) + le_value(data)) % modulus(), 32)
}

/// The element that `encoded` was before `key` was folded into it: their
/// difference in the field.
pub open spec fn spec_inverse_combine(key: Seq<u8>, encoded: Seq<u8>) -> Seq<u8> {
    le_bytes(((le_value(encoded) - le_value(key)) % (modulus() as int)) as nat, 32)
}

/// Every power of 256 is positive.
pub proof fn lemma_pow256_positive(n: nat)
    ensures
        pow256(n) > 0,
    decreases n,
{
    if n > 0 {
        lemma_pow256_positive((n - 1) as nat);
    }
}

/// A number spelled in `n` bytes is below 256 to the power `n`.
pub proof fn lemma_le_value_bound(bytes: Seq<u8>)
    ensures
        le_value(bytes) < pow256(bytes.len()),
    decreases bytes.len(),
{
    if bytes.len() > 0 {
        let p = pow256((bytes.len() - 1) as nat);
        let last = bytes.last() as nat;
        lemma_le_value_bound(bytes.drop_last());
        assert(last * p + p <= 256 * p) by (nonlinear_arith)
            requires
                last <= 255,
        ;
    }
}

/// Taking one more byte adds that byte at its place value.
pub proof fn lemma_le_value_take(bytes: Seq<u8>, i: int)
    requires
        0 <= i < bytes.len(),
    ensures
        le_value(bytes.take(i + 1)) == le_value(bytes.take(i)) + bytes[i] as nat * pow256(i as nat),
{
    assert(bytes.take(i + 1).drop_last() =~= bytes.take(i));
}

/// The bytes of a number spell that number, as long as it fits.
pub proof fn lemma_le_value_of_le_bytes(value: nat, len: nat)
    requires
        value < pow256(len),
    ensures
        le_bytes(value, len).len() == len,
        le_value(le_bytes(value, len)) == value,
    decreases len,
{
    if len > 0 {
        let p = pow256((len - 1) as nat);
        lemma_pow256_positive((len - 1) as nat);
        let low = value % p;
        let high = value / p;
        assert(low < p && value == p * high + low) by (nonlinear_arith)
            requires
                p > 0,
                low == value % p,
                high == value / p,
        ;
        assert(high < 256) by (nonlinear_arith)
            requires
                value == p * high + low,
                value < 256 * p,
                p > 0,
        ;
        lemma_le_value_of_le_bytes(low, (len - 1) as nat);
        let s = le_bytes(value, len);
        assert(s.drop_last() =~= le_bytes(low, (len - 1) as nat));
        assert(s.last() == high as u8);
        assert(high * p == p * high) by (nonlinear_arith);
    }
}

/// The number that bytes spell is spelled by those bytes.
pub proof fn lemma_le_bytes_of_le_value(bytes: Seq<u8>)
    ensures
        le_bytes(le_value(bytes), bytes.len()) == bytes,
    decreases bytes.len(),
{
    if bytes.len() > 0 {
        let len = bytes.len();
        let p = pow256((len - 1) as nat);
        let low = le_value(bytes.drop_last());
        let last = bytes.last() as nat;
        let value = le_value(bytes);
        lemma_pow256_positive((len - 1) as nat);
        lemma_le_value_bound(bytes.drop_last());
        assert(value / p == last && value % p == low) by (nonlinear_arith)
            requires
                value == low + last * p,
                low < p,
                p > 0,
        ;
        lemma_le_bytes_of_le_value(bytes.drop_last());
        assert(le_bytes(value, len) =~= bytes);
    } else {
        assert(le_bytes(le_value(bytes), 0) =~= bytes);
    }
}

/// The modulus lies between 0x73 and 0x74 times 256 to the power 31: any
/// 32 bytes whose last is below 0x73 are below it, and twice the modulus
/// still fits in 32 bytes.
pub proof fn lemma_modulus_range()
    ensures
        0x73 * pow256(31) <= modulus() < 0x74 * pow256(31),
        pow256(32) == 256 * pow256(31),
        modulus_bytes().len() == 32,
{
    let m = modulus_bytes();
    lemma_le_value_bound(m.drop_last());
    assert(m.last() == 0x73u8);
    assert(m.drop_last().len() == 31);
}

/// The order of the field as bytes, least significant first.
fn modulus_array() -> (m: [u8; 32])
    ensures
        m@ == modulus_bytes(),
{
    let m: [u8; 32] = [
        0x01, 0x00, 0x00, 0x00, 0xff, 0xff, 0xff, 0xff,
        0xfe, 0x5b, 0xfe, 0xff, 0x02, 0xa4, 0xbd, 0x53,
        0x05, 0xd8, 0xa1, 0x09, 0x08, 0xd8, 0x39, 0x33,
        0x48, 0x7d, 0x9d, 0x29, 0x53, 0xa7, 0xed, 0x73,
    ];
    assert(m@ =~= modulus_bytes());
    m
}

/// Adds two 32-byte numbers: the sum's low 32 bytes, and whether it
/// overflowed them.
fn add_bytes(a: &[u8; 32], b: &[u8; 32]) -> (res: ([u8; 32], bool))
    ensures
        le_value(res.0@) + (if res.1 { pow256(32) } else { 0 }) == le_value(a@) + le_value(b@),
{
    let mut out = [0u8; 32];
    let mut carry: u16 = 0;
    let mut i: usize = 0;
    while i < 32
        invariant
            0 <= i <= 32,
            carry <= 1,
            le_value(out@.take(i as int)) + carry * pow256(i as nat) == le_value(
                a@.take(i as int),
            ) + le_value(b@.take(i as int)),
        decreases 32 - i,
    {
        let t: u16 = a[i] as u16 + b[i] as u16 + carry;
        let ghost before = out@;
        out[i] = (t % 256) as u8;
        proof {
            let p = pow256(i as nat);
            let low = (t % 256) as nat;
            let high = (t / 256) as nat;
            let x = a@[i as int] as nat;
            let y = b@[i as int] as nat;
            let c = carry as nat;
            assert(out@.take(i as int) =~= before.take(i as int));
            lemma_le_value_take(out@, i as int);
            lemma_le_value_take(a@, i as int);
            lemma_le_value_take(b@, i as int);
            assert(low * p + high * (256 * p) == x * p + y * p + c * p) by (nonlinear_arith)
                requires
                    low + 256 * high == x + y + c,
            ;
        }
        carry = t / 256;
        i += 1;
    }
    assert(out@.take(32) =~= out@);
    assert(a@.take(32) =~= a@);
    assert(b@.take(32) =~= b@);
    (out, carry == 1)
}

/// Subtracts one 32-byte number from another: the difference's low 32
/// bytes, and whether it had to borrow from beyond them.
fn sub_bytes(a: &[u8; 32], b: &[u8; 32]) -> (res: ([u8; 32], bool))
    ensures
        le_value(res.0@) + le_value(b@) == le_value(a@) + (if res.1 {
            pow256(32)
        } else {
            0
        }),
        res.1 == (le_value(a@) < le_value(b@)),
{
    let mut out = [0u8; 32];
    let mut borrow: u16 = 0;
    let mut i: usize = 0;
    while i < 32
        invariant
            0 <= i <= 32,
            borrow <= 1,
            le_value(out@.take(i as int)) + le_value(b@.take(i as int)) == le_value(
                a@.take(i as int),
            ) + borrow * pow256(i as nat),
        decreases 32 - i,
    {
        let t: u16 = 256 + a[i] as u16 - b[i] as u16 - borrow;
        let ghost before = out@;
        out[i] = (t % 256) as u8;
        proof {
            let p = pow256(i as nat);
            let low = (t % 256) as nat;
            let kept = (t / 256) as nat;
            let x = a@[i as int] as nat;
            let y = b@[i as int] as nat;
            let c = borrow as nat;
            assert(out@.take(i as int) =~= before.take(i as int));
            lemma_le_value_take(out@, i as int);
            lemma_le_value_take(a@, i as int);
            lemma_le_value_take(b@, i as int);
            let next = (1 - kept) as nat;
            assert(low * p + y * p + c * p == x * p + next * (256 * p)) by (nonlinear_arith)
                requires
                    low + 256 * kept + y + c == 256 + x,
                    kept <= 1,
                    next == 1 - kept,
            ;
        }
        borrow = 1 - t / 256;
        i += 1;
    }
    proof {
        assert(out@.take(32) =~= out@);
        assert(a@.take(32) =~= a@);
        assert(b@.take(32) =~= b@);
        lemma_le_value_bound(out@);
        lemma_le_value_bound(a@);
        lemma_le_value_bound(b@);
    }
    (out, borrow == 1)
}

/// A domain element: an integer below the modulus, held as 32 bytes with
/// the least significant first.
#[derive(Clone, Copy, Debug)]
pub struct DomainElement {
    bytes: [u8; 32],
}

impl View for DomainElement {
    type V = Seq<u8>;

    closed spec fn view(&self) -> Seq<u8> {
        self.bytes@
    }
}

impl DomainElement {
    #[verifier::type_invariant]
    spec fn below_modulus(&self) -> bool {
        le_value(self.bytes@) < modulus()
    }

    /// The integer that the element is.
    pub open spec fn value(&self) -> nat {
        le_value(self@)
    }

    /// Reads an element from its 32 bytes. Bytes of another length, or
    /// whose value is not below the modulus, are turned down.
    pub fn try_from_bytes(raw: &[u8]) -> (res: Result<DomainElement, Error>)
        ensures
            is_element(raw@) ==> res is Ok && res->Ok_0@ == raw@,
            !is_element(raw@) ==> res == Err::<DomainElement, Error>(Error::DomainConversion),
    {
        if raw.len() != 32 {
            return Err(Error::DomainConversion);
        }
        let mut bytes = [0u8; 32];
        let mut i: usize = 0;
        while i < 32
            invariant
                0 <= i <= 32,
                raw@.len() == 32,
                forall|j: int| 0 <= j < i ==> bytes@[j] == raw@[j],
            decreases 32 - i,
        {
            bytes[i] = raw[i];
            i += 1;
        }
        assert(bytes@ =~= raw@);
        let m = modulus_array();
        let (_, below) = sub_bytes(&bytes, &m);
        if below {
            Ok(DomainElement { bytes })
        } else {
            Err(Error::DomainConversion)
        }
    }

    /// The element's 32 bytes.
    pub fn into_bytes(self) -> (bytes: [u8; 32])
        ensures
            bytes@ == self@,
            is_element(bytes@),
    {
        proof {
            use_type_invariant(&self);
        }
        self.bytes
    }
}

/// Folds `key` into `data`: the sum of the two in the field.
pub fn combine(key: &DomainElement, data: &DomainElement) -> (encoded: DomainElement)
    ensures
        encoded@ == spec_combine(key@, data@),
        encoded.value() == (key.value() + data.value()) % modulus(),
        is_element(encoded@),
{
    proof {
        use_type_invariant(key);
        use_type_invariant(data);
        lemma_modulus_range();
    }
    let m = modulus_array();
    let (sum, over) = add_bytes(&key.bytes, &data.bytes);
    let (reduced, below) = sub_bytes(&sum, &m);
    let bytes = if below { sum } else { reduced };
    proof {
        let total = le_value(key.bytes@) + le_value(data.bytes@);
        let r = modulus();
        assert(!over);
        assert(le_value(bytes@) == total % r) by (nonlinear_arith)
            requires
                total < 2 * r,
                le_value(bytes@) == (if total < r { total } else { (total - r) as nat }),
        ;
        lemma_le_bytes_of_le_value(bytes@);
    }
    DomainElement { bytes }
}

/// Takes `key` out of `encoded`: the difference of the two in the field.
pub fn inverse_combine(key: &DomainElement, encoded: &DomainElement) -> (data: DomainElement)
    ensures
        data@ == spec_inverse_combine(key@, encoded@),
        data.value() == (encoded.value() - key.value()) % (modulus() as int),
        is_element(data@),
{
    proof {
        use_type_invariant(key);
        use_type_invariant(encoded);
        lemma_modulus_range();
    }
    let m = modulus_array();
    let (diff, borrowed) = sub_bytes(&encoded.bytes, &key.bytes);
    let (wrapped, over) = add_bytes(&diff, &m);
    let bytes = if borrowed { wrapped } else { diff };
    proof {
        let e = le_value(encoded.bytes@) as int;
        let k = le_value(key.bytes@) as int;
        let r = modulus() as int;
        lemma_le_value_bound(wrapped@);
        assert(le_value(bytes@) == (e - k) % r) by (nonlinear_arith)
            requires
                0 <= e < r,
                0 <= k < r,
                le_value(bytes@) == (if e < k { e - k + r } else { e - k }),
        ;
        lemma_le_bytes_of_le_value(bytes@);
    }
    DomainElement { bytes }
}

/// Taking the key out of what it was folded into gives the value back.
pub proof fn lemma_inverse_combine_of_combine(key: Seq<u8>, data: Seq<u8>)
    requires
        is_element(key),
        is_element(data),
    ensures
        is_element(spec_combine(key, data)),
        spec_inverse_combine(key, spec_combine(key, data)) == data,
{
    let k = le_value(key) as int;
    let d = le_value(data) as int;
    let r = modulus() as int;
    let e = (k + d) % r;
    lemma_modulus_range();
    assert(0 <= e < r && (e - k) % r == d) by (nonlinear_arith)
        requires
            0 <= k < r,
            0 <= d < r,
            e == (k + d) % r,
    ;
    assert(e < pow256(32));
    lemma_le_value_of_le_bytes(e as nat, 32);
    lemma_le_bytes_of_le_value(data);
}

} // verus!

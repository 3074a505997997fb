//! The byte form in which the SQLite store keeps a wide (16-bit) path: each unit as two
//! bytes, the high byte first.
use vstd::prelude::*;

verus! {

/// The unit made of a high and a low byte.
pub open spec fn unit_of(hi: u8, lo: u8) -> u16 {
    (hi as int * 256 + lo as int) as u16
}

/// The units of a byte sequence of even length, two bytes each, high byte first.
pub open spec fn units_of(b: Seq<u8>) -> Seq<u16> {
    Seq::new(b.len() / 2, |i: int| unit_of(b[2 * i], b[2 * i + 1]))
}

/// The bytes of a sequence of units, two for each, high byte first.
pub open spec fn bytes_of(a: Seq<u16>) -> Seq<u8> {
    Seq::new(2 * a.len(), |j: int| if j % 2 == 0 {
        (a[j / 2] / 256) as u8
    } else {
        (a[j / 2] % 256) as u8
    })
}

/// Reads the stored bytes back as 16-bit units.
pub fn v8_to_v16(a: Vec<u8>) -> (r: Vec<u16>)
    requires
        a@.len() % 2 == 0,
    ensures
        r@ == units_of(a@),
{
    let mut r: Vec<u16> = Vec::new();
    let mut i: usize = 0;
    while i + 1 < a.len()
        invariant
            a@.len() % 2 == 0,
            i % 2 == 0,
            i <= a@.len(),
            r@.len() == i / 2,
            forall|k: int| 0 <= k < r@.len() ==> #[trigger] r@[k] == unit_of(a@[2 * k], a@[2 * k + 1]),
        decreases a.len() - i,
    {
        let hi = a[i];
        let lo = a[i + 1];
        let u: u16 = (hi as u16) * 256 + (lo as u16);
        r.push(u);
        i = i + 2;
    }
    assert(r@ =~= units_of(a@));
    r
}

/// The bytes in which 16-bit units are stored.
pub fn v16_to_v8(a: Vec<u16>) -> (r: Vec<u8>)
    requires
        a@.len() * 2 <= usize::MAX,
    ensures
        r@ == bytes_of(a@),
{
    let mut v: Vec<u8> = Vec::new();
    let mut i: usize = 0;
    while i < a.len()
        invariant
            i <= a@.len(),
            v@.len() == 2 * i,
            forall|j: int| 0 <= j < v@.len() ==> #[trigger] v@[j] == bytes_of(a@)[j],
        decreases a.len() - i,
    {
        let val = a[i];
        let hi = (val / 256) as u8;
        let lo = (val % 256) as u8;
        v.push(hi);
        v.push(lo);
        proof {
            assert((2 * i) % 2 == 0 && (2 * i) / 2 == i) by (nonlinear_arith);
            assert((2 * i + 1) % 2 == 1 && (2 * i + 1) / 2 == i) by (nonlinear_arith);
            assert forall|j: int| 0 <= j < v@.len() implies #[trigger] v@[j] == bytes_of(a@)[j] by {
                if j < 2 * i {
                } else if j == 2 * i {
                } else {
                }
            }
        }
        i = i + 1;
    }
    assert(v@ =~= bytes_of(a@));
    v
}

/// Storing units and reading them back gives the same units.
pub proof fn lemma_units_roundtrip(a: Seq<u16>)
    ensures
        units_of(bytes_of(a)) == a,
{
    let b = bytes_of(a);
    assert(b.len() / 2 == a.len()) by (nonlinear_arith)
        requires
            b.len() == 2 * a.len(),
    ;
    assert forall|i: int| 0 <= i < a.len() implies #[trigger] units_of(b)[i] == a[i] by {
        assert((2 * i) % 2 == 0 && (2 * i) / 2 == i) by (nonlinear_arith);
        assert((2 * i + 1) % 2 == 1 && (2 * i + 1) / 2 == i) by (nonlinear_arith);
        let x = a[i];
        assert(x == (x / 256) * 256 + x % 256) by (nonlinear_arith);
        assert(0 <= x % 256 < 256 && 0 <= x / 256 < 256) by (nonlinear_arith);
    }
    assert(units_of(b) =~= a);
}

/// Reading bytes of even length as units and storing them gives the same bytes.
pub proof fn lemma_bytes_roundtrip(b: Seq<u8>)
    requires
        b.len() % 2 == 0,
    ensures
        bytes_of(units_of(b)) == b,
{
    let a = units_of(b);
    assert(2 * (b.len() / 2) == b.len()) by (nonlinear_arith)
        requires
            b.len() % 2 == 0,
    ;
    assert forall|j: int| 0 <= j < b.len() implies #[trigger] bytes_of(a)[j] == b[j] by {
        let i = j / 2;
        assert(0 <= i < a.len() && (j % 2 == 0 ==> j == 2 * i) && (j % 2 == 1 ==> j == 2 * i + 1))
            by (nonlinear_arith)
            requires
                0 <= j < b.len(),
                a.len() == b.len() / 2,
                b.len() % 2 == 0,
                i == j / 2,
        ;
        let hi = b[2 * i];
        let lo = b[2 * i + 1];
        assert(a[i] == unit_of(hi, lo));
        assert((hi as int * 256 + lo as int) / 256 == hi && (hi as int * 256 + lo as int) % 256 == lo)
            by (nonlinear_arith)
            requires
                0 <= hi < 256,
                0 <= lo < 256,
        ;
    }
    assert(bytes_of(a) =~= b);
}

} // verus!

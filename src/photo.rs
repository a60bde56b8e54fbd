//! Naming of stored photos: `photo<N>.jpg`, with the first index from one
//! upward that no existing file uses.
use vstd::prelude::*;
use crate::calibration::{all_digits, digits_value, is_digit};

verus! {

/// The bytes of `photo`.
pub open spec fn photo_prefix() -> Seq<u8> {
    seq![0x70u8, 0x68u8, 0x6fu8, 0x74u8, 0x6fu8]
}

/// The bytes of `.jpg`.
pub open spec fn photo_suffix() -> Seq<u8> {
    seq![0x2eu8, 0x6au8, 0x70u8, 0x67u8]
}

/// Decimal digits as they are written: at least one, no leading zero
/// unless the number is zero.
pub open spec fn canonical_digits(d: Seq<u8>) -> bool {
    d.len() > 0 && all_digits(d) && (d.len() == 1 || d[0] != 0x30)
}

/// The index of a photo file name, or `None` when the name is not of the form
/// `photo<N>.jpg`.
pub open spec fn photo_index_of(name: Seq<u8>) -> Option<int> {
    let digits = name.subrange(5, name.len() - 4);
    if name.len() >= 10 && name.take(5) == photo_prefix() && name.skip(name.len() - 4)
        == photo_suffix() && canonical_digits(digits) {
        Some(digits_value(digits))
    } else {
        None
    }
}

/// The value kept for a digit run whose value passes `u32::MAX`.
const INDEX_CAP: u64 = 0x1_0000_0000;

spec fn capped_index(v: int) -> int {
    if v < INDEX_CAP {
        v
    } else {
        INDEX_CAP as int
    }
}

/// The decimal digits of `n`, as written.
pub fn decimal_digits(n: u32) -> (d: Vec<u8>)
    ensures
        canonical_digits(d@),
        digits_value(d@) == n,
    decreases n,
{
    if n < 10 {
        let mut d: Vec<u8> = Vec::new();
        d.push(0x30u8 + n as u8);
        assert(d@.drop_last() =~= Seq::<u8>::empty());
        assert(digits_value(Seq::<u8>::empty()) == 0);
        assert(digits_value(d@) == n);
        assert(is_digit(d@[0]));
        d
    } else {
        let mut d = decimal_digits(n / 10);
        let ghost head = d@;
        let digit: u8 = 0x30u8 + (n % 10) as u8;
        d.push(digit);
        assert(d@.drop_last() =~= head);
        assert(all_digits(d@)) by {
            assert forall|i: int| 0 <= i < d@.len() implies is_digit(#[trigger] d@[i]) by {
                if i < head.len() {
                    assert(d@[i] == head[i]);
                }
            }
        }
        assert(d@[0] != 0x30) by {
            assert(d@[0] == head[0]);
            if head.len() == 1 {
                assert(head.drop_last() =~= Seq::<u8>::empty());
                assert(digits_value(Seq::<u8>::empty()) == 0);
            }
        }
        d
    }
}

/// The file name of the photo with index `index`.
pub fn photo_file_name(index: u32) -> (name: Vec<u8>)
    ensures
        photo_index_of(name@) == Some(index as int),
{
    let digits = decimal_digits(index);
    let mut name: Vec<u8> = vec![0x70u8, 0x68u8, 0x6fu8, 0x74u8, 0x6fu8];
    let mut i: usize = 0;
    while i < digits.len()
        invariant
            i <= digits@.len(),
            name@ == photo_prefix() + digits@.take(i as int),
        decreases digits@.len() - i,
    {
        name.push(digits[i]);
        i = i + 1;
        assert(name@ =~= photo_prefix() + digits@.take(i as int));
    }
    name.push(0x2eu8);
    name.push(0x6au8);
    name.push(0x70u8);
    name.push(0x67u8);
    assert(digits@.take(digits@.len() as int) =~= digits@);
    let ghost whole = name@;
    assert(whole.take(5) =~= photo_prefix());
    assert(whole.skip(whole.len() - 4) =~= photo_suffix());
    assert(whole.subrange(5, whole.len() - 4) =~= digits@);
    name
}

/// The index of the photo file name `name`, when it has the form
/// `photo<N>.jpg` and `N` fits in a `u32`.
pub fn photo_index(name: &[u8]) -> (r: Option<u32>)
    ensures
        r == match photo_index_of(name@) {
            Some(v) => if v <= u32::MAX { Some(v as u32) } else { None },
            None => None,
        },
{
    let n = name.len();
    if n < 10 || name[0] != 0x70 || name[1] != 0x68 || name[2] != 0x6f || name[3] != 0x74
        || name[4] != 0x6f || name[n - 4] != 0x2e || name[n - 3] != 0x6a || name[n - 2] != 0x70
        || name[n - 1] != 0x67 {
        proof {
            if n >= 10 {
                if name@.take(5) == photo_prefix() {
                    assert(name@.take(5)[0] == name@[0]);
                    assert(name@.take(5)[1] == name@[1]);
                    assert(name@.take(5)[2] == name@[2]);
                    assert(name@.take(5)[3] == name@[3]);
                    assert(name@.take(5)[4] == name@[4]);
                }
                if name@.skip(n - 4) == photo_suffix() {
                    assert(name@.skip(n - 4)[0] == name@[n - 4]);
                    assert(name@.skip(n - 4)[1] == name@[n - 3]);
                    assert(name@.skip(n - 4)[2] == name@[n - 2]);
                    assert(name@.skip(n - 4)[3] == name@[n - 1]);
                }
            }
        }
        return None;
    }
    assert(name@.take(5) =~= photo_prefix());
    assert(name@.skip(n - 4) =~= photo_suffix());
    let ghost digits = name@.subrange(5, n - 4);
    let end = n - 4;
    if name[5] == 0x30 && end > 6 {
        assert(digits[0] == 0x30);
        return None;
    }
    let mut acc: u64 = 0;
    let mut k: usize = 5;
    while k < end
        invariant
            5 <= k <= end,
            end == n - 4,
            n == name@.len(),
            digits == name@.subrange(5, end as int),
            all_digits(name@.subrange(5, k as int)),
            digits_value(name@.subrange(5, k as int)) >= 0,
            acc == capped_index(digits_value(name@.subrange(5, k as int))),
        decreases end - k,
    {
        let b = name[k];
        if b < 0x30 || b > 0x39 {
            assert(!is_digit(digits[k - 5]));
            return None;
        }
        let ghost prev = name@.subrange(5, k as int);
        assert(name@.subrange(5, k + 1).drop_last() =~= prev);
        acc = acc * 10 + (b - 0x30) as u64;
        if acc > INDEX_CAP {
            acc = INDEX_CAP;
        }
        k = k + 1;
        assert(all_digits(name@.subrange(5, k as int))) by {
            assert forall|i: int| 0 <= i < k - 5 implies is_digit(
                #[trigger] name@.subrange(5, k as int)[i],
            ) by {
                if i < k - 6 {
                    assert(name@.subrange(5, k as int)[i] == prev[i]);
                }
            }
        }
    }
    if acc == INDEX_CAP {
        return None;
    }
    Some(acc as u32)
}

/// The first index from one upward that `taken` does not hold, or `None`
/// when `taken` holds every index up to `u32::MAX`.
pub fn next_photo_index(taken: &Vec<u32>) -> (r: Option<u32>)
    ensures
        r matches Some(i) ==> i >= 1 && !taken@.contains(i) && forall|j: u32|
            1 <= j < i ==> taken@.contains(j),
        r is None ==> forall|j: u32| 1 <= j ==> taken@.contains(j),
{
    let mut candidate: u32 = 1;
    loop
        invariant
            candidate >= 1,
            forall|j: u32| 1 <= j < candidate ==> taken@.contains(j),
        decreases u32::MAX - candidate,
    {
        let mut found = false;
        let mut k: usize = 0;
        while k < taken.len()
            invariant
                k <= taken@.len(),
                found <==> exists|j: int| 0 <= j < k && taken@[j] == candidate,
            decreases taken@.len() - k,
        {
            if taken[k] == candidate {
                found = true;
            }
            k = k + 1;
        }
        if !found {
            return Some(candidate);
        }
        if candidate == u32::MAX {
            return None;
        }
        candidate = candidate + 1;
    }
}

} // verus!

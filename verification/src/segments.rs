//! Lookups and metadata checks over the tensor segments of a manifest.
use vstd::prelude::*;
use crate::manifest::TensorSegment;
use crate::text::str_eq;

verus! {

/// The segment that a name-keyed table built from `segs` (in order, a later
/// entry replacing an earlier one of the same name) holds for `name`.
pub open spec fn dense_lookup(segs: Seq<TensorSegment>, name: Seq<char>) -> Option<TensorSegment>
    decreases segs.len(),
{
    if segs.len() == 0 {
        None
    } else if segs.last().tensor@ == name {
        Some(segs.last())
    } else {
        dense_lookup(segs.drop_last(), name)
    }
}

/// Index of the segment that `dense_lookup` gives for `name`.
pub fn find_dense(segs: &Vec<TensorSegment>, name: &str) -> (r: Option<usize>)
    ensures
        match r {
            Some(i) => i < segs@.len() && dense_lookup(segs@, name@) == Some(segs@[i as int]),
            None => dense_lookup(segs@, name@) is None,
        },
{
    let mut i: usize = segs.len();
    assert(segs@.take(i as int) =~= segs@);
    while i > 0
        invariant
            i <= segs@.len(),
            dense_lookup(segs@, name@) == dense_lookup(segs@.take(i as int), name@),
        decreases i,
    {
        let ghost prefix = segs@.take(i as int);
        assert(prefix.drop_last() =~= segs@.take(i - 1));
        assert(prefix.last() == segs@[i - 1]);
        if str_eq(segs[i - 1].tensor.as_str(), name) {
            return Some(i - 1);
        }
        i -= 1;
    }
    None
}

/// The optional segment at an optional index.
pub open spec fn segment_at(segs: Seq<TensorSegment>, i: Option<usize>) -> Option<TensorSegment> {
    match i {
        Some(k) => Some(segs[k as int]),
        None => None,
    }
}

pub open spec fn dtype_is(d: Option<String>, name: Seq<char>) -> bool {
    match d {
        Some(s) => s@ == name,
        None => false,
    }
}

pub fn has_dtype(d: &Option<String>, name: &str) -> (b: bool)
    ensures
        b == dtype_is(*d, name@),
{
    match d {
        Some(s) => str_eq(s.as_str(), name),
        None => false,
    }
}

/// A shape equal, entry by entry, to `dims`.
pub open spec fn shape_is(s: Seq<u64>, dims: Seq<int>) -> bool {
    s.len() == dims.len() && forall|i: int| 0 <= i < s.len() ==> s[i] as int == dims[i]
}

pub open spec fn dims_of(v: Seq<u128>) -> Seq<int> {
    Seq::new(v.len(), |i: int| v[i] as int)
}

pub fn dims1(a: u128) -> (v: Vec<u128>)
    ensures
        v@ == seq![a],
        dims_of(v@) == seq![a as int],
{
    let mut v: Vec<u128> = Vec::new();
    v.push(a);
    assert(dims_of(v@) =~= seq![a as int]);
    v
}

pub fn dims2(a: u128, b: u128) -> (v: Vec<u128>)
    ensures
        v@ == seq![a, b],
        dims_of(v@) == seq![a as int, b as int],
{
    let mut v: Vec<u128> = Vec::new();
    v.push(a);
    v.push(b);
    assert(dims_of(v@) =~= seq![a as int, b as int]);
    v
}

pub fn shape_matches(s: &Vec<u64>, dims: &Vec<u128>) -> (b: bool)
    ensures
        b == shape_is(s@, dims_of(dims@)),
{
    if s.len() != dims.len() {
        return false;
    }
    let mut i: usize = 0;
    while i < s.len()
        invariant
            s@.len() == dims@.len(),
            i <= s@.len(),
            forall|k: int| 0 <= k < i ==> s@[k] as int == dims@[k] as int,
        decreases s@.len() - i,
    {
        if s[i] as u128 != dims[i] {
            return false;
        }
        i += 1;
    }
    true
}

/// The exact product of two `usize` values.
pub fn mul_wide(a: usize, b: usize) -> (r: u128)
    ensures
        r as int == a as int * b as int,
{
    let x = a as u128;
    let y = b as u128;
    assert(x * y <= 0xFFFF_FFFF_FFFF_FFFFu128 * 0xFFFF_FFFF_FFFF_FFFFu128) by (nonlinear_arith)
        requires
            x <= 0xFFFF_FFFF_FFFF_FFFFu128,
            y <= 0xFFFF_FFFF_FFFF_FFFFu128,
    ;
    x * y
}

/// Whether `a * b * c` equals `target`, computed without overflow.
pub fn product_is(a: u128, b: u128, c: u128, target: u64) -> (r: bool)
    requires
        c >= 1,
    ensures
        r == (a as int * b as int * c as int == target as int),
{
    match a.checked_mul(b) {
        Some(ab) => match ab.checked_mul(c) {
            Some(abc) => abc == target as u128,
            None => {
                assert(ab as int * c as int > target as int);
                false
            },
        },
        None => {
            assert(a as int * b as int * c as int >= a as int * b as int) by (nonlinear_arith)
                requires
                    c >= 1,
                    a as int * b as int >= 0,
            ;
            false
        },
    }
}

} // verus!

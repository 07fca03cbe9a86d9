//! Accelerator memory accounting shared by the CUDA backend.
use vstd::prelude::*;
use crate::text::{push_decimal, push_str, string_of};

verus! {

#[derive(Debug, Clone, Copy, PartialEq, Eq, Structural)]
pub struct CudaMemoryMetrics {
    pub budget_bytes: u64,
    pub live_bytes: u64,
    pub peak_bytes: u64,
    pub budget_denials: u64,
}

/// A packed INT4 matrix with BF16 group-32 scales, borrowed.
pub struct PackedInt4Bf16View<'a> {
    pub packed: &'a [u32],
    pub scales: &'a [u16],
    pub rows: usize,
    pub cols: usize,
}

/// The live bytes after reserving `size` more under `budget`, or `None`
/// when the reservation would pass the budget (or leave the 64-bit range).
pub fn reserve_global_bytes(live: u64, size: u64, budget: u64) -> (r: Option<u64>)
    ensures
        match r {
            Some(next) => next == live + size && next <= budget,
            None => live + size > budget,
        },
{
    match live.checked_add(size) {
        Some(next) => if next > budget { None } else { Some(next) },
        None => None,
    }
}

/// A CUDA driver status: zero is success; anything else fails `operation`.
pub fn check(result: i32, operation: &str) -> (r: Result<(), String>)
    ensures
        r is Ok <==> result == 0,
{
    if result == 0 {
        Ok(())
    } else {
        let mut m = string_of(operation);
        push_str(&mut m, " failed with CUDA status ");
        if result < 0 {
            push_str(&mut m, "-");
            push_decimal(&mut m, (-(result as i64)) as u64);
        } else {
            push_decimal(&mut m, result as u64);
        }
        Err(m)
    }
}

} // verus!

//! Core of a particle-life engine: coloured point particles that attract and
//! repel each other by a per-colour rule matrix.
//!
//! The crate owns the configuration and the particle buffer and proves that
//! both always fit each other, so that no lookup made while stepping the
//! simulation can leave a table. Single-precision numbers are carried as
//! their IEEE-754 bit patterns; the host does the arithmetic on them.

use vstd::prelude::*;

pub mod arith;
pub mod config;
pub mod dynamics;
pub mod encoding;
pub mod policy;
pub mod universe;

verus! {

/// Sum of two integers.
pub fn add(a: i32, b: i32) -> (sum: i32)
    requires
        i32::MIN <= a + b <= i32::MAX,
    ensures
        sum == a + b,
{
    a + b
}

} // verus!

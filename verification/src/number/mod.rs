//! Exact arithmetic: unbounded naturals, integers and rationals.

pub mod integer;
pub mod natural;
pub mod rational;

//! The containers that a request is made of.

pub mod advanced;
pub mod constraint_set;
pub mod mandatory;
pub mod track;

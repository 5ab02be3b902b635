//! Fixed-width numeric types stored as arrays of single bits, with
//! arithmetic and logic carried out bit by bit.

pub mod bit;
pub mod arith;
pub mod bitvec;
pub mod container;
pub mod either;
pub mod error;
pub mod float;
pub mod laws;
pub mod signed;
pub mod text;
pub mod traits;
pub mod unsigned;

pub use bit::{Bit, Bool};
pub use container::{Nibble, Byte, Word};
pub use either::Either;
pub use error::NumError;
pub use float::{R32, R64};
pub use traits::{BitCount, BitwiseRotate, BitwiseReverse};
pub use signed::{Z8, Z16, Z32, Z64};
pub use unsigned::{N8, N16, N32, N64};

//! Values, their order and arithmetic, and the binary form of rows, for an
//! embedded SQL storage engine; with the contract of the cursors that walk
//! its trees of rows.
//!
//! The contracts speak of the mathematical content of values: a value's
//! [`value::ValueView`], a row's sequence of them. Two small functions rest
//! on the standard library unproved, and say so: the sharing of a text or
//! blob in [`copy`], and the lossy reading of bytes as text in [`render`].
//!
//! Floats are held as IEEE 754 binary64 bit patterns. The library orders
//! them and promotes integers to them by integer arithmetic on the
//! patterns. It performs no floating-point operation: where a sum, a
//! quotient or the text form of a float is needed, it hands the operands
//! back as an [`arith::FloatTask`] or a [`render::Rendered`] for the host to
//! finish.
//!
//! - [`value`]: the value model and typed extraction.
//! - [`order`], [`equality`], [`copy`]: comparing and copying values.
//! - [`arith`]: addition and division.
//! - [`render`]: the text form of values.
//! - [`record`], [`varint`]: the binary form of a row.
//! - [`cursor`]: the cursor contract and its polling protocol.
//! - [`binary64`], [`text`]: bit patterns of floats; byte strings and
//!   decimal numbers.

pub mod arith;
pub mod binary64;
pub mod copy;
pub mod cursor;
pub mod equality;
pub mod error;
pub mod order;
pub mod record;
pub mod render;
pub mod text;
pub mod value;
pub mod varint;

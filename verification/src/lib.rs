//! An expression engine for user-defined three-component vector fields.
//!
//! A raw text expression such as `s*(y-x)` is tokenized, rewritten into
//! postfix (Reverse Polish) order by the shunting-yard algorithm, and then
//! evaluated against a parameter binding once per axis, per point, per
//! simulation tick.  Numeric values travel through the engine as the 64-bit
//! patterns of IEEE-754 binary64 numbers; the arithmetic on those patterns is
//! delegated to the platform's floating-point unit behind a small trusted
//! layer in [`numeric`].

pub mod binding;
pub mod errors;
pub mod group;
pub mod numeric;
pub mod parser;
pub mod presets;
pub mod token;
pub mod tokenizer;

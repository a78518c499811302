//! A declarative engine for reading and writing structured binary data.
//!
//! A layout is described as data: a [`schema::Schema`] of type descriptors,
//! each an ordered list of field directives. The engine walks the directives
//! in a fixed order and turns bytes into values, or values into bytes.
//!
//! * [`schema`] holds the description of a layout and the builders for it;
//!   [`validate`] checks a schema when it is built.
//! * [`expr`] holds the expressions that conditions, counts, offsets and
//!   assertions are written in, and evaluates them.
//! * [`endian`] settles the byte order of a field from the overrides of
//!   every level; [`codec`] turns fixed-width integers into bytes and back.
//! * [`prelude`] builds the steps that come before the body of a type;
//!   [`directive`] evaluates the directives of a field and runs a prelude.
//! * [`stream`] and [`reader`] read; [`sink`] and [`writer`] write. Every
//!   step is stated as a function on models and proved of the executable
//!   code.
//! * [`engine`] holds the two entry points, [`engine::read`] and
//!   [`engine::write`], on a [`cursor::Cursor`].
//! * [`laws`] and [`sound`] hold what is proved of the engine as a whole.
//!
//! No function of the engine panics: every failure is an [`error::Error`].

pub mod codec;
pub mod cursor;
pub mod directive;
pub mod endian;
pub mod engine;
pub mod error;
pub mod expr;
pub mod laws;
pub mod prelude;
pub mod reader;
pub mod schema;
pub mod sink;
pub mod sound;
pub mod stream;
pub mod validate;
pub mod value;
pub mod writer;

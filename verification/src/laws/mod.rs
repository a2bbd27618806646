//! What the rules promise, said of the syntax of a program and of its source text.
//!
//! The laws here speak of the kinds of the nodes of a program, of its names and of its texts. Each
//! says what an answer has to be for a form of the syntax, or how the answers for two forms relate.
pub mod evidence;
pub mod program;
pub mod range;
pub mod receiver_kind;
pub mod slice;
pub mod static_length;
pub mod string_type;
pub mod syntax;
pub mod text;
pub mod trim;

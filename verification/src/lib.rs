pub mod ast;
pub mod ast_util;
pub mod diagnostic;
pub mod double;
pub mod hop_budget;
pub mod laws;
pub mod no_unnecessary_string_trim;
pub mod prefer_array_from_range;
pub mod prefer_array_slice;
pub mod receiver_kind;
pub mod resolution;
pub mod static_length;
pub mod string_type;
pub mod text;
pub mod trimming;

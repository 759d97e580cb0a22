//! A loader for the Inter-Quake Export text format: a header line, then one
//! command per line, read into a model of named meshes.
pub mod laws;
pub mod parser;
pub mod taker;
pub mod text;
pub mod types;

pub use crate::parser::{load_from_str, match_header, IQE_HEADER};
pub use crate::taker::{TakeInsideBalanced, TakeLiteral, TakeMaybe, TakeOr, TakeSequence, TakeWhitespace, Taker};
pub use crate::types::{IqeError, IqeMesh, IqeModel};

//! Parsing of the SAM text format: a header of typed metadata records
//! followed by one alignment record per line.
use vstd::prelude::*;

pub mod alignment;
pub mod error;
pub mod header;
pub mod reader;
pub mod records;
pub mod text;
pub mod tokenizer;

pub use alignment::{parse_alignments, read_alignments, Alignment, Flag};
pub use error::{MetaParseError, ParseError};
pub use header::Header;
pub use reader::{parse_header, read_header};

verus! {

} // verus!

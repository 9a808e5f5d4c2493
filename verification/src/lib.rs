//! Digests of a byte stream under many hash algorithms at once, and the
//! verification of a checksum whose algorithm, text encoding and byte order
//! are not known in advance.
//!
//! * [`algorithm`] names the hash algorithms and their digest lengths.
//! * [`adapter`] puts each of them behind one interface, and [`stream`]
//!   drives several adapters over a single pass of the input.
//! * [`encoding`] writes bytes as text and reads text as bytes; [`numeral`]
//!   says what hexadecimal text and numerals mean.
//! * [`checksum`] finds the byte sequences that a checksum may stand for and
//!   the algorithms that may have made it; [`matcher`] tries every digest
//!   against every such sequence and ranks the verdicts.
//! * [`creation`] and [`verification`] are the two runs from end to end, and
//!   [`report`] lays their results out in columns.
//! * [`options`] checks the arguments of the random-data tool.
//!
//! The hash functions and most of the codecs come from other crates. What is
//! taken on trust about them stands in [`primitive`] and [`codec`]; everything
//! else is proved.

pub mod adapter;
pub mod algorithm;
pub mod checksum;
pub mod codec;
pub mod creation;
pub mod encoding;
pub mod matcher;
pub mod numeral;
pub mod options;
pub mod primitive;
pub mod report;
pub mod stream;
pub mod text;
pub mod verification;

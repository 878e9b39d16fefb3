//! Whitespace statistics of a byte buffer under several fixed-width encodings:
//! per encoding, how many spaces, newlines and characters its units decode to.
pub mod counts;
pub mod decode;
pub mod scan;

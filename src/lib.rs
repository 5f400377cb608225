//! Driver logic for an NFC reader controller: the framing protocol spoken with
//! the chip, typed command requests and response decoding, and a parser for
//! NDEF records read from tag memory.
pub mod driver;
pub mod ndef;

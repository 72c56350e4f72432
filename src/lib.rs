//! Decoding of RFID/NFC tag scans and the text shown for inventory records.
//!
//! A reader that emulates a keyboard delivers each tag as one line of text.
//! [`decoder::decode`] turns such a line into a [`decoder::DecodedTag`]: the
//! UID as spaced hex bytes, its decimal value, a manufacturer guess and a
//! card format guess. No input makes decoding fail; a field that cannot be
//! computed falls back to a readable placeholder.
//!
//! - [`layout`]: correction for the host keyboard layout.
//! - [`hex`]: the spaced hex form of a scan.
//! - [`decimal`]: arbitrary-precision hex to decimal conversion.
//! - [`manufacturer`], [`format`]: ordered first-match lookup tables.
//! - [`decoder`]: the pipeline and the inventory key of a tag.
//! - [`datetime`], [`inventory`]: the rows that list and export records.
//! - [`forms`]: what a scan leads to and which record a form saves.

mod text;

pub mod datetime;
pub mod decimal;
pub mod decoder;
pub mod format;
pub mod forms;
pub mod hex;
pub mod inventory;
pub mod layout;
pub mod manufacturer;

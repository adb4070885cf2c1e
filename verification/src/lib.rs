//! Metadata of DICOM files.
//!
//! A DICOM file holds, after a preamble and a marker, a stream of tagged
//! data elements. This library decodes the flat, little-endian stream with
//! explicit type codes into a [`document::Document`] and writes the document
//! out as JSON.
//!
//! - [`tag`]: element tags and their text.
//! - [`text`]: lossy decoding of bytes to text.
//! - [`layout`]: the layout of the length field that a type code selects.
//! - [`element`]: the encoding of one element, and its decoder.
//! - [`document`]: the tag-keyed collection of decoded elements.
//! - [`decoder`]: decoding a whole file.
//! - [`json`]: the document as JSON.
//! - [`laws`]: what holds of every stream and every document.

pub mod decoder;
pub mod document;
pub mod element;
pub mod json;
pub mod laws;
pub mod layout;
pub mod tag;
pub mod text;

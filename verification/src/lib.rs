//! Decoders for the two binary containers of the SuperBible6 framework:
//! the chunked `SB6M` mesh container and the KTX texture container.
//!
//! Both decoders take a byte buffer that is already in memory and return
//! either a complete description of its contents or a typed error. Neither
//! talks to a graphics device; uploading the decoded regions is the
//! caller's business.
//!
//! - [`reader`]: a bounds-checked reader over a byte buffer, and the
//!   records it reads.
//! - [`object`]: the mesh decoder, with what holds of every mesh file in
//!   [`object::proofs`].
//! - [`ktx`]: the texture decoder, with what holds of every texture file
//!   in [`ktx::proofs`].
//! - [`text`]: UTF-8 text from bytes.
//! - [`app`]: the settings an application starts with.

pub mod app;
pub mod ktx;
pub mod object;
pub mod reader;
pub mod text;

pub use app::AppInfo;
pub use object::Object;

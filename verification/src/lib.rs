//! A MessagePack encoder and decoder with verified contracts.
pub mod bytes;
pub mod de;
pub mod decode;
pub mod encode;
pub mod extension;
pub mod formats;
pub mod roundtrip;
pub mod ser;
pub mod timestamp;
pub mod value;

pub use formats::Format;

//! Typed access to the payload of a netlink attribute.
//!
//! An attribute keeps its value as plain bytes, so that one container can
//! hold integers, strings and nested records alike. [`Attribute`] is the
//! contract for writing a typed value into those bytes and reading one back;
//! [`Nl`] is the encoding that both directions go through.

pub mod attr;
pub mod buffer;
pub mod err;
pub mod little_endian;
pub mod nl;
pub mod nul_string;

pub use crate::attr::{Attr, Attribute};
pub use crate::buffer::Buffer;
pub use crate::err::{DeError, NlError, SerError};
pub use crate::nl::Nl;
pub use crate::nul_string::NulString;

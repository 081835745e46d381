//! Compact byte and string containers that keep short content inline and
//! move longer content to the heap.
//!
//! There are three variants, each as a byte container and as a string
//! container that holds valid UTF-8:
//!
//! - [`IBytes`] and [`IString`] hold up to 23 bytes inline and grow on the
//!   heap by powers of two;
//! - [`SmallBytes`] and [`SmallString`] hold up to 15 bytes inline and keep
//!   longer content in a heap buffer of exactly its length;
//! - [`TinyBytes`] and [`TinyString`] hold up to 7 bytes, always inline, and
//!   are never changed.
//!
//! Whatever the representation, a container is read, compared and hashed as
//! the slice of its content.

pub mod buffer;
pub mod compare;
pub mod error;
pub mod growth;
pub mod ibytes;
pub mod istring;
pub mod layout;
pub mod slicing;
pub mod small;
pub mod tiny;
pub mod utf8;

pub use crate::error::FromUtf8Error;
pub use crate::ibytes::IBytes;
pub use crate::istring::IString;
pub use crate::small::{SmallBytes, SmallString};
pub use crate::tiny::{TinyBytes, TinyString};

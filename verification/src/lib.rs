//! Decodes raw rows of a chat-history store into typed message records:
//! content segmentation around sentinel code points, semantic variant
//! classification from numeric codes and extension-bundle identifiers,
//! association-identifier decoding, and timestamp / duration handling.

pub mod assoc;
pub mod dates;
pub mod expressives;
pub mod messages;
pub mod strutil;
pub mod variants;

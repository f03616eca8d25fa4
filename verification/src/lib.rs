//! Pinned sources for declarative build definitions.
//!
//! - [`url`]: locators such as `github:owner/repo/tag`, parsed and written
//!   back.
//! - [`prefetch`]: what the resolver answers for a locator.
//! - [`fetcher`]: fetchers, and the builder calls that they are written as.
//! - [`emit`]: the expression tree and its renderer.
//! - [`ser`]: a serializer of structured values into expression text.
//! - [`text`]: the text primitives that the others share.
//!
//! Every function states what it returns over the characters of the texts
//! involved, and is proved to do so.
pub mod emit;
pub mod fetcher;
pub mod prefetch;
pub mod ser;
pub mod text;
pub mod url;

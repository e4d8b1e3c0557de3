//! Verified core of an EPUB generator: slug derivation, `{{key}}` text
//! templating, the book model, and the assembly of the archive entries.

use vstd::prelude::*;

mod archive;
mod config;
mod epub;
mod error;
mod slug;
mod template;

pub use config::{BookConfig, ContentConfig, MetaConfig};
pub use epub::{ArchiveEntry, Chapter, Epub, Section};
pub use error::Error;
pub use slug::slug;
pub use slug::slug_chars;
pub use template::Template;

verus! {

/// Relies on `String::push` from std: appends one character at the end.
#[verifier::external_body]
pub(crate) fn push_char(s: &mut String, c: char)
    ensures
        final(s)@ == old(s)@.push(c),
{
    s.push(c)
}

} // verus!

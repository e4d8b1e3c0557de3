//! The unified error of the generator core.

use vstd::prelude::*;

verus! {

/// What can go wrong while assembling an archive. Errors of collaborators
/// that only the surrounding program can meet (reading the description file,
/// parsing it) are wrapped by that program, not here.
#[derive(Debug)]
pub enum Error {
    /// Two chapters slug to the same token, so their entry paths collide.
    /// Holds the colliding slug.
    DuplicateSlug(String),
    /// The archive writer rejected an entry or could not be finished.
    Zip(zip::result::ZipError),
}

impl Error {
    /// A short human-readable description of the error.
    pub fn message(&self) -> (r: String)
        ensures
            self is DuplicateSlug ==> r@ == "duplicate chapter slug: "@ + self->DuplicateSlug_0@,
            self is Zip ==> r@ == "archive write failed"@,
    {
        match self {
            Error::DuplicateSlug(s) => {
                let mut m = String::from_str("duplicate chapter slug: ");
                m.append(s.as_str());
                m
            },
            Error::Zip(_) => String::from_str("archive write failed"),
        }
    }
}

} // verus!

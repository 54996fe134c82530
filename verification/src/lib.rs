//! Naming conventions for identifiers, and the metadata records that carry
//! such identifiers.
//!
//! The naming engine has three parts, which share nothing but plain text:
//!
//! * [`tokenizer`] splits text into tokens: acronyms, capitalised words,
//!   lower-case runs and digit runs;
//! * [`classifier`] tells which naming convention a whole string follows, and
//!   [`grammar`] writes the grammars of the conventions by their groups;
//! * [`conversion`] renders tokens in a naming convention, with the case
//!   mappings of [`casing`].
//!
//! [`laws`] states what holds of scanning and rendering together; [`scanning`]
//! and [`words`] hold the lemmas that the laws rest on.
//!
//! The records are [`metafile::Metafile`], the metadata of a file or folder,
//! and [`project::Project`], with their tags and relations kept in a
//! [`keyed::KeyedList`].  [`stamp`] gives them fresh identifiers and the time.

pub mod casing;
pub mod classes;
pub mod classifier;
pub mod conversion;
pub mod grammar;
pub mod keyed;
pub mod laws;
pub mod metafile;
pub mod project;
pub mod scanning;
pub mod stamp;
pub mod text;
pub mod tokenizer;
pub mod words;

pub use crate::classifier::{
    guess_naming_convention, guess_naming_convention_with, NamingConvention,
};
pub use crate::tokenizer::{tokenize, tokenize_with};

//! Core of a "create a new content page" operation for a static-site
//! authoring tool.
//!
//! Given a page name, an optional section and a local date, the library
//! derives a slugged folder path under the site's content root, builds a
//! minimal front-matter block, assembles the templated markdown text, and
//! drives an overwrite-safe writer protocol. All filesystem work is left to
//! the caller, which feeds observations (does the folder exist? did the
//! create succeed?) into the writer state machine.

pub mod content;
pub mod date;
pub mod front_matter;
pub mod plan;
pub mod resolve;
pub mod slugger;
pub mod writer;


//! Release announcements: from the state of a repository to the data of a
//! mail and its rendered text.
//!
//! - `project`: the project, the record of its release, and the resolution
//!   that gathers the record from what the caller fetches;
//! - `version`: the semantic version inside a tag;
//! - `changelog`: the section of a version in the changelog;
//! - `context`: the fields of the mail, and the parameters that replace them;
//! - `mail`: the template and its rendering;
//! - `sender`: the sender's address taken from the environment;
//! - `pattern`, `text`: regular expressions and characters underneath;
//! - `error`: what can go wrong.
pub mod changelog;
pub mod context;
pub mod error;
pub mod mail;
pub mod pattern;
pub mod project;
pub mod sender;
pub mod text;
pub mod version;

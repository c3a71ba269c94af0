//! Core library of The Light: Bible references, study prompts, citations and
//! the plain-text formats of the reading tools.
use vstd::prelude::*;

pub mod text;
pub mod model;
pub mod books;
pub mod alias;
pub mod reference;
pub mod scan;
pub mod ai;
pub mod prompts;
pub mod citation;
pub mod lexicon;
pub mod study;
pub mod sorted;
pub mod query;
pub mod plans;
pub mod note_slug;
pub mod export;
pub mod config;
pub mod scholarly;
pub mod providers;
pub mod research;
pub mod xref_import;
pub mod clipboard;
pub mod xref;
pub mod panels;
pub mod scroll;
pub mod scholarly_import;
pub mod session;
pub mod study_request;
pub mod layout;
pub mod lexicon_data;
pub mod translation_import;
pub mod import_args;
pub mod reader;
pub mod request_json;
pub mod study_assistant;

verus! {

} // verus!

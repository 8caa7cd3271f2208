//! Type-shape descriptors: the structure of a declared type, captured as a
//! value that does not depend on any runtime instance of that type.
//!
//! A front end hands over a parsed declaration ([`syntax`]). The builder
//! ([`builder`]) turns a struct or an enum into a recipe ([`recipe`]) for its
//! descriptor, translating each field type on the way ([`translate`]). A
//! recipe leaves the descriptors of named types as calls to their own entry
//! points; carrying it out ([`evaluate`]) over the descriptors that those
//! types supply gives the descriptor itself ([`info`]). What holds of all
//! this on every input is proved in [`laws`].

pub mod builder;
pub mod decimal;
pub mod evaluate;
pub mod info;
pub mod laws;
pub mod recipe;
pub mod syntax;
pub mod translate;

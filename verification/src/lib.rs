//! Metadata and text generation for Golem components: a WIT model with its
//! serializer, the WIT file generator for annotated modules, the code the
//! `golem` attribute emits, and the guards that scope durability settings.

pub mod durability;
pub mod example;
pub mod golem;
pub mod macroutils;
pub mod syntax;
pub mod text;
pub mod transaction;
pub mod trial;
pub mod wit;
pub mod wit_file;
pub mod wit_gen;


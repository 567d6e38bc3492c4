//! A generator of statically typed accessors for labelled metrics.
//!
//! The input declares metrics over a hierarchy of labels whose values are
//! known when the code is generated. For each metric the generator emits a
//! tree of structs with one field for each value of each label, so that a
//! metric is found by field access and not by a lookup of label strings, and
//! accessors through which every thread counts into a tree of its own that
//! is flushed into the shared metric from time to time.
//!
//! The stages follow each other: [`parser`] reads the declarations,
//! [`validate`] checks the references between them, [`plan`] looks the
//! labels up and lays them out ([`offsets`]), and the emitters ([`inner`],
//! [`delegator`], [`outer`], [`label_enum`]) make the tokens, which
//! [`auto_flush_builder`] puts together; [`expand`] runs them all on a text.
//! [`local`] states what the generated accessors do when they run, and
//! [`canonical`] that every list of declarations can be written as a text
//! that is read back as the same list.

pub mod accessor;
pub mod ast;
pub mod auto_flush_builder;
pub mod canonical;
pub mod delegator;
pub mod errors;
pub mod expand;
pub mod ident;
pub mod inner;
pub mod label_enum;
pub mod lexer;
pub mod local;
pub mod names;
pub mod offsets;
pub mod outer;
pub mod parser;
pub mod plan;
pub mod syntax;
pub mod text;
pub mod tokens;
pub mod validate;
pub mod words;

//! Type-graph resolution and text analysis behind a language server for a
//! kernel-tracing scripting language.
//!
//! The heart of the crate resolves kernel functions and the types reachable
//! from them out of BTF type information, and walks field-access chains such
//! as `timer->base->cpu_base.running` through the resolved types. Around it
//! stand the rules by which the server reads scripts, lists completions,
//! and speaks with the editor and the tracer.

// The type graph and what is resolved from it.
pub mod cache;
pub mod chain;
pub mod graph;
pub mod item;
pub mod links;
pub mod nesting;
pub mod render;
pub mod resolve;
pub mod unwind;
pub mod walk;

// Scripts, probes and what the editor is shown.
pub mod completion;
pub mod display;
pub mod docs;
pub mod hover;
pub mod location;
pub mod probe;
pub mod providers;
pub mod syntax;

// The editor, the tracer and the log.
pub mod command;
pub mod diagnostics;
pub mod logger;
pub mod protocol;

// Text and numbers.
pub mod bytes;
pub mod lines;
pub mod number;
pub mod text;

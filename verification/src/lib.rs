//! Dataflow evaluation engine for visual-programming graphs.
//!
//! A program is a set of serialized sub-graphs whose leaves perform
//! arithmetic, string and regex operations, I/O, variable access, control
//! flow and agent calls. The engine loads a root sub-graph, rehashes its
//! local identifiers into a fresh scope, and evaluates it pull-driven: a
//! drain at the designated sink registers single-shot listeners and
//! triggers processing cycles, demand flowing backward over strong edges
//! while weak edges sample the latest broadcast, which is what lets
//! feedback loops terminate.
//!
//! The value model lives in `value`, `arith` and `display`; the node
//! catalog and serialized forms in `nodes` and `loader`; identity in
//! `ids`; the evaluator state, its registries and the listener mailboxes
//! in `evaluator`, `registries` and `exec_node`; the interpreter in
//! `interp` and `dispatch`; and the modeled I/O handles in `iobuf`.
//! Outside work — IEEE-754 arithmetic on float bit patterns, identifier
//! hashing, regex replacement, UTF-8 codecs — stands behind the trusted
//! items of `float_ops`, `ids`, `regex_ops` and `strutil`.
pub mod agent;
pub mod agent_ops;
pub mod arith;
pub mod builder;
pub mod dispatch;
pub mod display;
pub mod errors;
pub mod evaluator;
pub mod exec_node;
pub mod float_ops;
pub mod ids;
pub mod interp;
pub mod iobuf;
pub mod loader;
pub mod nodes;
pub mod regex_ops;
pub mod registries;
pub mod strutil;
pub mod value;

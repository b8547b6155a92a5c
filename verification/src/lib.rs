//! A verified model of the nftables JSON API.
//!
//! The crate models rulesets — tables, chains, rules, sets, maps and the
//! expression and statement languages inside rules — as plain value trees,
//! and translates them losslessly to and from the line-protocol JSON
//! grammar understood by the `nft` tool.  Encoding and decoding are
//! verified against mathematical specifications, and the round trip —
//! decoding an encoded document — is proved to reproduce the document,
//! from whole rulesets down through every command, element, statement
//! and expression.

/// The JSON value tree.
pub mod json;

/// Common type definitions referred to in the schema.
pub mod types;

/// Expressions, the building blocks of (most) statements.
pub mod expr;

/// Statements, the building blocks of rules.
pub mod stmt;

/// The global structure of an nftables document.
pub mod schema;

/// Encoding and decoding between the model and the JSON tree.
pub mod codec;

/// Encoding and decoding of whole documents, commands and ruleset elements.
pub mod doc;

/// Batch object used to prepare nftables payloads.
pub mod batch;

/// Classification of the outcome of talking to the external engine.
pub mod helper;

/// Compact text rendering of JSON values.
pub mod text;

/// Parsing of JSON text into the value tree.
pub mod parse;

/// Decoders for fields that accept more than one wire shape.
pub mod visitor;

/// The round-trip laws: decoding an encoded expression, set item or
/// statement gives it back.
pub mod laws;

/// The round-trip laws for ruleset elements, commands and documents.
pub mod doc_laws;

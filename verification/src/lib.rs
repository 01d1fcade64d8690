//! An editor model for platform data contracts.
//!
//! A data contract is a JSON document that names the document types an
//! application may store on the platform. This library holds the typed tree
//! of an editing session, writes it out as the JSON of a contract and reads
//! such JSON back, condenses what a contract validator reports, and composes
//! the prompts of a language model that drafts contracts.
//!
//! - [`model`] is the typed tree; [`editor`] is the session around it and the
//!   messages that change it.
//! - [`export`] and [`import`] go from the tree to JSON and back; [`names`]
//!   keeps the lists of required names. [`json`] is the JSON they work on,
//!   and [`codec`] its text, which `serde_json` reads and writes.
//! - [`validator`] and [`prompt`] deal with what comes from outside: the
//!   report of the validator and the reply of the language model. [`input`]
//!   reads what is typed into number fields.
//! - [`laws`], [`roundtrip`], [`invariants`] and [`shape`] state and prove
//!   what holds of all this: which names an export lists as required, how
//!   arrays and indices are written, that a contract that is read back gives
//!   the tree again, and what stays true of a session.

pub mod codec;
pub mod editor;
pub mod export;
pub mod import;
pub mod input;
pub mod invariants;
pub mod json;
pub mod laws;
pub mod model;
pub mod names;
pub mod prompt;
pub mod roundtrip;
pub mod shape;
pub mod text;
pub mod validator;

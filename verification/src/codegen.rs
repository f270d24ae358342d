//! Code for functions, as the machine runs it.
pub mod error;
pub mod frame;
pub mod runtime;
pub mod types;
pub mod typing_rules;
pub mod typing;
pub mod typer;
pub mod emission;
pub mod emitter;
pub mod encoding;
pub mod instructions;
pub mod instruction_emitter;
pub mod selection;
pub mod values;
pub mod value_rules;
pub mod value_emitter;
pub mod trees;
pub mod assignments;
pub mod statements;
pub mod statement_emitter;
pub mod twins;
pub mod twin_instructions;
pub mod twin_values;
pub mod twin_statements;
pub mod constants;
pub mod plan;
pub mod compile;
pub mod machine;
pub mod decoding;
pub mod standing;
pub mod growth;
pub mod instruction_growth;
pub mod value_growth;
pub mod statement_growth;
pub mod operations;
pub mod accesses;
pub mod flow;
pub mod computing;
pub mod laws;

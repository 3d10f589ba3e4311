//! The two-phase parser of the assembler front end. Label locations are not
//! known until the whole token stream has been seen, so parsing first
//! collects statements — fully parsed instructions, and jumps that still name
//! a label — together with the location of every label, and a second phase
//! resolves the collected statements into plain instructions.
//!
//! Only the second phase's interface carries behaviour today: no token rule
//! collects a statement or a label yet, so both phases resolve to the empty
//! instruction list, and their contracts say exactly that.

use crate::instructions::Instruction;
use crate::lex::Token;
use std::collections::HashMap;
use vstd::prelude::*;

verus! {

/// The result of the first parsing phase: an instruction that is fully
/// parsed, or a jump that still names a label to be resolved in the second
/// phase.
pub enum Statement {
    Instruction(Instruction),
    Jump(String),
}

/// Parse a token stream into instructions: collect statements and label
/// locations, then resolve the labels. No statement is collected from the
/// tokens yet, so the result is the resolution of an empty collection.
pub fn parse(tokens: Vec<Token>) -> (instructions: Vec<Instruction>)
    ensures
        instructions@ == Seq::<Instruction>::empty(),
{
    let statements: Vec<Statement> = Vec::new();
    let labels: HashMap<String, usize> = HashMap::new();

    resolve_addresses(statements, labels)
}

/// The second parsing phase: turn collected statements into instructions,
/// replacing each jump's label by the location the label map gives it. No
/// statement form is resolved yet, so the result is empty whatever is handed
/// in.
pub fn resolve_addresses(instructions: Vec<Statement>, labels: HashMap<String, usize>) -> (resolved:
    Vec<Instruction>)
    ensures
        resolved@ == Seq::<Instruction>::empty(),
{
    let resolved_instructions: Vec<Instruction> = Vec::new();

    resolved_instructions
}

} // verus!

use vstd::prelude::*;

verus! {

/// What the decoder reads of a disassembled instruction.
#[derive(Debug)]
pub struct Insn {
    /// Length in bytes.
    pub len: u8,
    /// Conditional branch.
    pub is_branch: bool,
    /// Jump whose target is in the instruction.
    pub is_direct_jump: bool,
    /// Jump whose target is in a register.
    pub is_indirect_jump: bool,
    /// The signed immediate, where the instruction has one: for a branch
    /// or a direct jump, the target's distance from the instruction.
    pub imm: Option<i32>,
    /// The mnemonic.
    pub name: String,
    /// The instruction with its operands, as text.
    pub text: String,
}

impl Clone for Insn {
    fn clone(&self) -> (copy: Insn)
        ensures
            copy == *self,
    {
        Insn {
            len: self.len,
            is_branch: self.is_branch,
            is_direct_jump: self.is_direct_jump,
            is_indirect_jump: self.is_indirect_jump,
            imm: self.imm,
            name: self.name.clone(),
            text: self.text.clone(),
        }
    }
}

} // verus!

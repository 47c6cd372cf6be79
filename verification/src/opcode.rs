use vstd::prelude::*;
use crate::syntax::Id;

verus! {

/// An absolute position in a code vector.
pub type Addr = usize;

/// A distance between two positions in a code vector.
pub type Offset = usize;

/// A flat vector of instructions; jump targets are indices into it.
pub type Code = Vec<Opcode>;

/// One instruction of the stack machine.
///
/// `LoadConst` names its constant by the index that the constant has in the
/// runtime's object arena.
#[derive(Debug, PartialEq, Eq)]
pub enum Opcode {
    PopTop,
    LoadConst(usize),
    LoadName(Id),
    StoreName(Id),
    BinaryAdd,
    BinaryEq,
    BinaryLt,
    MakeFunction,
    CallFunction(usize),
    ReturnValue,
    LoadAttr(Id),
    StoreAttr(Id),
    BinarySubScr,
    StoreSubScr,
    BuildList(usize),
    BuildMap(usize),
    PopJumpIfTrue(Addr),
    PopJumpIfFalse(Addr),
    JumpAbsolute(Addr),
    SetupLoop(Offset),
    BreakLoop,
    ContinueLoop(Addr),
    GetIter,
    ForIter(Addr),
    SetupExcept(Offset),
    Raise,
    PopBlock,
    MakeClass(usize),
    Panic,
}

impl Clone for Opcode {
    fn clone(&self) -> (r: Opcode)
        ensures
            r == *self,
    {
        match self {
            Opcode::PopTop => Opcode::PopTop,
            Opcode::LoadConst(c) => Opcode::LoadConst(*c),
            Opcode::LoadName(id) => Opcode::LoadName(id.clone()),
            Opcode::StoreName(id) => Opcode::StoreName(id.clone()),
            Opcode::BinaryAdd => Opcode::BinaryAdd,
            Opcode::BinaryEq => Opcode::BinaryEq,
            Opcode::BinaryLt => Opcode::BinaryLt,
            Opcode::MakeFunction => Opcode::MakeFunction,
            Opcode::CallFunction(n) => Opcode::CallFunction(*n),
            Opcode::ReturnValue => Opcode::ReturnValue,
            Opcode::LoadAttr(id) => Opcode::LoadAttr(id.clone()),
            Opcode::StoreAttr(id) => Opcode::StoreAttr(id.clone()),
            Opcode::BinarySubScr => Opcode::BinarySubScr,
            Opcode::StoreSubScr => Opcode::StoreSubScr,
            Opcode::BuildList(n) => Opcode::BuildList(*n),
            Opcode::BuildMap(n) => Opcode::BuildMap(*n),
            Opcode::PopJumpIfTrue(a) => Opcode::PopJumpIfTrue(*a),
            Opcode::PopJumpIfFalse(a) => Opcode::PopJumpIfFalse(*a),
            Opcode::JumpAbsolute(a) => Opcode::JumpAbsolute(*a),
            Opcode::SetupLoop(o) => Opcode::SetupLoop(*o),
            Opcode::BreakLoop => Opcode::BreakLoop,
            Opcode::ContinueLoop(a) => Opcode::ContinueLoop(*a),
            Opcode::GetIter => Opcode::GetIter,
            Opcode::ForIter(a) => Opcode::ForIter(*a),
            Opcode::SetupExcept(o) => Opcode::SetupExcept(*o),
            Opcode::Raise => Opcode::Raise,
            Opcode::PopBlock => Opcode::PopBlock,
            Opcode::MakeClass(n) => Opcode::MakeClass(*n),
            Opcode::Panic => Opcode::Panic,
        }
    }
}

/// A copy of a code vector.
pub fn clone_code(code: &Code) -> (r: Code)
    ensures
        r@ == code@,
{
    let mut r: Code = Vec::new();
    let mut i: usize = 0;
    while i < code.len()
        invariant
            i <= code@.len(),
            r@ == code@.take(i as int),
        decreases code@.len() - i,
    {
        r.push(code[i].clone());
        proof {
            assert(code@.take(i as int).push(code@[i as int]) =~= code@.take(i + 1));
        }
        i = i + 1;
    }
    proof {
        assert(code@.take(code@.len() as int) =~= code@);
    }
    r
}

} // verus!

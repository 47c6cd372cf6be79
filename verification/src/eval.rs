use vstd::prelude::*;
use crate::env::{spec_get, Env};
use crate::error::{pyerr_check, pyerr_clear, pyerr_set, PyErr, PyRes};
use crate::object::call::{
    binary_rel, burnt, call_binop, call_func, call_rel, call_varargfun, indicated,
    pyerr_set_string, pyobj_get_attr, pyobj_set_attr, pyobj_to_bool, raise_rel, truth_rel,
    type_call, type_call_rel, type_error, vararg_rel,
};
use crate::object::typeobj::PyTypeObject;
use crate::object::generic::pyobj_to_i32;
use crate::object::typeobj::{BinaryOp, GetIterFun, IterNextFun};
use crate::object::{
    lemma_extends_refl, lemma_extends_trans, raised_ok, settled, EnvId, ObjId, PyInnerObject,
    PyObject, Runtime, PY_STOPITERATION_TYPE, PY_TYPE_TYPE,
};
use crate::opcode::{Addr, Code, Offset, Opcode};
use crate::syntax::Id;

verus! {

/// Why the machine is unwinding its block stack.
#[derive(Clone, Copy, Debug, PartialEq, Eq, Structural)]
pub enum Why {
    WhyNot,
    WhyReturn,
    WhyBreak,
    WhyContinue,
    WhyException,
}

/// What a block stands for.
#[derive(Clone, Copy, Debug, PartialEq, Eq, Structural)]
pub enum BlockType {
    LoopBlock,
    TryBlock,
}

/// A record of where a loop or a protected region began: where to go on
/// when it is left, and how high the value stack was when it was entered.
#[derive(Clone, Copy, Debug, PartialEq, Eq, Structural)]
pub struct Block {
    pub b_type: BlockType,
    pub b_handler: Addr,
    pub b_level: usize,
}

/// The state of one frame of execution: program counter, value stack and
/// block stack.
#[derive(Debug)]
pub struct StackMachine {
    pub pc: usize,
    pub stack: Vec<ObjId>,
    pub blocks: Vec<Block>,
}

/// The state in which an unwinding leaves a frame.
pub struct Unwound {
    pub blocks: Seq<Block>,
    pub stack: Seq<ObjId>,
    pub pc: usize,
    pub why: Why,
    /// A try block took the exception.
    pub caught: bool,
}

/// The value stack `stack` cut down to `level` values, if it holds more.
pub open spec fn spec_truncate(stack: Seq<ObjId>, level: usize) -> Seq<ObjId> {
    if stack.len() > level {
        stack.take(level as int)
    } else {
        stack
    }
}

/// Unwinding. With the reason `why`, blocks are taken off the block stack
/// until one answers the reason. A `continue` is answered by a loop block,
/// which stays: execution goes on at `cont`. Any other block is taken off,
/// and the value stack cut down to its level; a loop block answers a `break`
/// and a try block an exception, and execution goes on at the block's
/// handler. Where no block answers, the reason stands when the block stack
/// is empty.
pub open spec fn spec_unwind(
    blocks: Seq<Block>,
    stack: Seq<ObjId>,
    pc: usize,
    why: Why,
    cont: Addr,
) -> Unwound
    decreases blocks.len(),
{
    if blocks.len() == 0 || why == Why::WhyNot {
        Unwound { blocks: blocks, stack: stack, pc: pc, why: why, caught: false }
    } else {
        let top = blocks.last();
        if top.b_type == BlockType::LoopBlock && why == Why::WhyContinue {
            Unwound { blocks: blocks, stack: stack, pc: cont, why: Why::WhyNot, caught: false }
        } else {
            let rest = blocks.drop_last();
            let cut = spec_truncate(stack, top.b_level);
            if top.b_type == BlockType::LoopBlock && why == Why::WhyBreak {
                Unwound { blocks: rest, stack: cut, pc: top.b_handler, why: Why::WhyNot, caught: false }
            } else if top.b_type == BlockType::TryBlock && why == Why::WhyException {
                Unwound { blocks: rest, stack: cut, pc: top.b_handler, why: Why::WhyNot, caught: true }
            } else {
                spec_unwind(rest, cut, pc, why, cont)
            }
        }
    }
}

/// Each block was entered with at least as many values on the stack as the
/// block below it, and the stack holds at least as many values as when the
/// top block was entered.
pub open spec fn blocks_nested(blocks: Seq<Block>, height: nat) -> bool {
    &&& forall|i: int, j: int|
        0 <= i <= j < blocks.len() ==> (#[trigger] blocks[i]).b_level <= (#[trigger] blocks[j]).b_level
    &&& blocks.len() > 0 ==> blocks.last().b_level <= height
}

/// Unwind safety. On a block stack whose blocks are nested, and with `k`
/// blocks left after the unwinding: after a `break` or a caught exception
/// the value stack is as high as it was when the block that answered, which
/// is block `k`, was entered; after a `return`, or an exception that no
/// block caught, it is as high as it was when the outermost block was
/// entered; and on a `continue` it is untouched.
pub proof fn lemma_unwind_restores_height(
    blocks: Seq<Block>,
    stack: Seq<ObjId>,
    pc: usize,
    why: Why,
    cont: Addr,
)
    requires
        blocks_nested(blocks, stack.len()),
        why != Why::WhyNot,
    ensures
        ({
            let u = spec_unwind(blocks, stack, pc, why, cont);
            let k = u.blocks.len() as int;
            &&& k <= blocks.len()
            &&& u.blocks == blocks.take(k)
            &&& u.why == Why::WhyNot && why != Why::WhyContinue ==> k < blocks.len() && u.stack
                == stack.take(blocks[k].b_level as int) && u.pc == blocks[k].b_handler
            &&& u.why == Why::WhyNot && why == Why::WhyContinue ==> k > 0 && u.pc == cont
            &&& u.why != Why::WhyNot ==> k == 0 && u.why == why && (blocks.len() > 0 ==> u.stack
                == stack.take(blocks[0].b_level as int))
            &&& u.caught ==> why == Why::WhyException && blocks[k].b_type == BlockType::TryBlock
            &&& blocks.len() == 0 ==> u.stack == stack
        }),
    decreases blocks.len(),
{
    if blocks.len() > 0 {
        let top = blocks.last();
        let rest = blocks.drop_last();
        let cut = spec_truncate(stack, top.b_level);
        assert(cut =~= stack.take(top.b_level as int));
        if top.b_type == BlockType::LoopBlock && why == Why::WhyContinue {
            assert(blocks.take(blocks.len() as int) =~= blocks);
        } else if top.b_type == BlockType::LoopBlock && why == Why::WhyBreak {
            assert(rest =~= blocks.take(blocks.len() - 1));
        } else if top.b_type == BlockType::TryBlock && why == Why::WhyException {
            assert(rest =~= blocks.take(blocks.len() - 1));
        } else {
            assert forall|i: int, j: int| 0 <= i <= j < rest.len() implies (#[trigger] rest[i]).b_level
                <= (#[trigger] rest[j]).b_level by {
                assert(rest[i] == blocks[i] && rest[j] == blocks[j]);
            }
            if rest.len() > 0 {
                assert(rest.last() == blocks[rest.len() - 1]);
                assert(blocks[rest.len() - 1].b_level <= blocks[blocks.len() - 1].b_level);
            }
            lemma_unwind_restores_height(rest, cut, pc, why, cont);
            let u = spec_unwind(rest, cut, pc, why, cont);
            let k = u.blocks.len() as int;
            assert(rest.take(k) =~= blocks.take(k));
            if k < rest.len() {
                assert(rest[k] == blocks[k]);
                assert(blocks[k].b_level <= top.b_level);
                assert(cut.take(blocks[k].b_level as int) =~= stack.take(blocks[k].b_level as int));
            }
            if rest.len() > 0 {
                assert(rest[0] == blocks[0]);
                assert(blocks[0].b_level <= blocks[blocks.len() - 1].b_level);
                assert(cut.take(blocks[0].b_level as int) =~= stack.take(blocks[0].b_level as int));
            }
        }
    } else {
        assert(blocks.take(0) =~= blocks);
    }
}

/// An unwinding leaves a lower part of the value stack.
pub proof fn lemma_unwind_cuts(
    blocks: Seq<Block>,
    stack: Seq<ObjId>,
    pc: usize,
    why: Why,
    cont: Addr,
)
    ensures
        spec_unwind(blocks, stack, pc, why, cont).stack.len() <= stack.len(),
        spec_unwind(blocks, stack, pc, why, cont).stack == stack.take(
            spec_unwind(blocks, stack, pc, why, cont).stack.len() as int,
        ),
    decreases blocks.len(),
{
    assert(stack.take(stack.len() as int) =~= stack);
    if blocks.len() > 0 && why != Why::WhyNot {
        let top = blocks.last();
        let rest = blocks.drop_last();
        let cut = spec_truncate(stack, top.b_level);
        lemma_unwind_cuts(rest, cut, pc, why, cont);
        let u = spec_unwind(rest, cut, pc, why, cont);
        assert(cut.take(u.stack.len() as int) =~= stack.take(u.stack.len() as int));
        assert(cut.take(cut.len() as int) =~= stack.take(cut.len() as int));
    }
}

/// A reason that still stands after an unwinding is the reason the
/// unwinding began with, and no block took an exception.
pub proof fn lemma_unwind_why(
    blocks: Seq<Block>,
    stack: Seq<ObjId>,
    pc: usize,
    why: Why,
    cont: Addr,
)
    ensures
        spec_unwind(blocks, stack, pc, why, cont).why == Why::WhyNot || (spec_unwind(
            blocks,
            stack,
            pc,
            why,
            cont,
        ).why == why && !spec_unwind(blocks, stack, pc, why, cont).caught),
    decreases blocks.len(),
{
    if blocks.len() > 0 && why != Why::WhyNot {
        let top = blocks.last();
        lemma_unwind_why(blocks.drop_last(), spec_truncate(stack, top.b_level), pc, why, cont);
    }
}

/// An unwinding that no block answers takes every block off the block
/// stack, leaves the program counter as it is, and leaves no more values
/// than the outermost block was entered with.
pub proof fn lemma_unwind_unanswered(
    blocks: Seq<Block>,
    stack: Seq<ObjId>,
    pc: usize,
    why: Why,
    cont: Addr,
)
    requires
        spec_unwind(blocks, stack, pc, why, cont).why != Why::WhyNot,
    ensures
        spec_unwind(blocks, stack, pc, why, cont).blocks.len() == 0,
        spec_unwind(blocks, stack, pc, why, cont).pc == pc,
        blocks.len() > 0 ==> spec_unwind(blocks, stack, pc, why, cont).stack.len()
            <= blocks[0].b_level,
    decreases blocks.len(),
{
    if blocks.len() > 0 && why != Why::WhyNot {
        let top = blocks.last();
        let rest = blocks.drop_last();
        let cut = spec_truncate(stack, top.b_level);
        lemma_unwind_unanswered(rest, cut, pc, why, cont);
        lemma_unwind_cuts(rest, cut, pc, why, cont);
        if rest.len() > 0 {
            assert(rest[0] == blocks[0]);
        }
    }
}

/// A `return` is answered by no block: it takes every block off the block
/// stack.
pub proof fn lemma_return_unwinds_all(blocks: Seq<Block>, stack: Seq<ObjId>, pc: usize, cont: Addr)
    ensures
        spec_unwind(blocks, stack, pc, Why::WhyReturn, cont).why == Why::WhyReturn,
        spec_unwind(blocks, stack, pc, Why::WhyReturn, cont).blocks.len() == 0,
        !spec_unwind(blocks, stack, pc, Why::WhyReturn, cont).caught,
    decreases blocks.len(),
{
    if blocks.len() > 0 {
        let top = blocks.last();
        lemma_return_unwinds_all(
            blocks.drop_last(),
            spec_truncate(stack, top.b_level),
            pc,
            cont,
        );
    }
}

/// An exception is answered by the innermost try block only: where the
/// block stack holds no try block, the exception takes every block off it
/// and still stands.
pub proof fn lemma_uncaught_unwinds_all(
    blocks: Seq<Block>,
    stack: Seq<ObjId>,
    pc: usize,
    cont: Addr,
)
    requires
        forall|i: int| 0 <= i < blocks.len() ==> (#[trigger] blocks[i]).b_type
            != BlockType::TryBlock,
    ensures
        spec_unwind(blocks, stack, pc, Why::WhyException, cont).why == Why::WhyException,
        spec_unwind(blocks, stack, pc, Why::WhyException, cont).blocks.len() == 0,
        !spec_unwind(blocks, stack, pc, Why::WhyException, cont).caught,
    decreases blocks.len(),
{
    if blocks.len() > 0 {
        let top = blocks.last();
        let rest = blocks.drop_last();
        assert forall|i: int| 0 <= i < rest.len() implies (#[trigger] rest[i]).b_type
            != BlockType::TryBlock by {
            assert(rest[i] == blocks[i]);
        }
        lemma_uncaught_unwinds_all(rest, spec_truncate(stack, top.b_level), pc, cont);
    }
}

impl StackMachine {
    /// A machine at the start of a code vector, with empty stacks.
    pub fn new() -> (m: StackMachine)
        ensures
            m.pc == 0,
            m.stack@ == Seq::<ObjId>::empty(),
            m.blocks@ == Seq::<Block>::empty(),
    {
        StackMachine { pc: 0, stack: Vec::new(), blocks: Vec::new() }
    }

    /// The value on top of the value stack.
    pub fn top(&self) -> (v: ObjId)
        requires
            self.stack@.len() > 0,
        ensures
            v == self.stack@.last(),
    {
        self.stack[self.stack.len() - 1]
    }

    /// Takes the top value off the value stack.
    pub fn pop(&mut self) -> (v: ObjId)
        requires
            old(self).stack@.len() > 0,
        ensures
            v == old(self).stack@.last(),
            final(self).stack@ == old(self).stack@.drop_last(),
            final(self).pc == old(self).pc,
            final(self).blocks == old(self).blocks,
    {
        match self.stack.pop() {
            Some(v) => v,
            None => vstd::pervasive::unreached(),
        }
    }

    /// Takes the top `len` values off the value stack, and returns them in
    /// the order in which they were pushed.
    pub fn pop_as_vec(&mut self, len: usize) -> (v: Vec<ObjId>)
        requires
            len <= old(self).stack@.len(),
        ensures
            v@ == old(self).stack@.skip(old(self).stack@.len() - len),
            final(self).stack@ == old(self).stack@.take(old(self).stack@.len() - len),
            final(self).pc == old(self).pc,
            final(self).blocks == old(self).blocks,
    {
        let at = self.stack.len() - len;
        let v = self.stack.split_off(at);
        proof {
            assert(v@ =~= old(self).stack@.skip(old(self).stack@.len() - len));
            assert(self.stack@ =~= old(self).stack@.take(old(self).stack@.len() - len));
        }
        v
    }

    /// Puts `v` on top of the value stack.
    pub fn push(&mut self, v: ObjId)
        ensures
            final(self).stack@ == old(self).stack@.push(v),
            final(self).pc == old(self).pc,
            final(self).blocks == old(self).blocks,
    {
        self.stack.push(v);
    }

    /// Cuts the value stack down to `level` values, if it holds more.
    pub fn unwind_stack(&mut self, level: usize)
        ensures
            final(self).stack@ == spec_truncate(old(self).stack@, level),
            final(self).pc == old(self).pc,
            final(self).blocks == old(self).blocks,
    {
        if self.stack.len() > level {
            self.stack.truncate(level);
            proof {
                assert(self.stack@ =~= old(self).stack@.take(level as int));
            }
        }
    }

    /// Unwinds the block stack for the reason `why`, as [`spec_unwind`] says,
    /// and returns the reason that still stands. Where a try block takes the
    /// exception, the exception indicator is emptied.
    pub fn unwind(&mut self, rt: &mut Runtime, why: Why, cont: Addr) -> (w: Why)
        requires
            old(rt).wf(),
        ensures
            final(rt).wf(),
            ({
                let u = spec_unwind(old(self).blocks@, old(self).stack@, old(self).pc, why, cont);
                &&& final(self).blocks@ == u.blocks
                &&& final(self).stack@ == u.stack
                &&& final(self).pc == u.pc
                &&& w == u.why
                &&& final(rt).exc == if u.caught {
                    None
                } else {
                    old(rt).exc
                }
            }),
            final(rt).objects == old(rt).objects,
            final(rt).envs == old(rt).envs,
            final(rt).fuel == old(rt).fuel,
            final(self).stack@ == old(self).stack@.take(final(self).stack@.len() as int),
            final(self).stack@.len() <= old(self).stack@.len(),
            w == Why::WhyNot || (w == why && final(rt).exc == old(rt).exc),
    {
        proof {
            lemma_unwind_cuts(old(self).blocks@, old(self).stack@, old(self).pc, why, cont);
            lemma_unwind_why(old(self).blocks@, old(self).stack@, old(self).pc, why, cont);
        }
        let mut why = why;
        let ghost goal = spec_unwind(old(self).blocks@, old(self).stack@, old(self).pc, why, cont);
        while self.blocks.len() > 0 && why != Why::WhyNot
            invariant_except_break
                *rt == *old(rt),
                spec_unwind(self.blocks@, self.stack@, self.pc, why, cont) == goal,
            invariant
                rt.wf(),
            ensures
                rt.wf(),
                self.blocks@ == goal.blocks,
                self.stack@ == goal.stack,
                self.pc == goal.pc,
                why == goal.why,
                rt.exc == if goal.caught {
                    None
                } else {
                    old(rt).exc
                },
                rt.objects == old(rt).objects,
                rt.envs == old(rt).envs,
                rt.fuel == old(rt).fuel,
            decreases self.blocks@.len(),
        {
            let top = self.blocks[self.blocks.len() - 1];
            if top.b_type == BlockType::LoopBlock && why == Why::WhyContinue {
                self.pc = cont;
                why = Why::WhyNot;
                break ;
            }
            self.blocks.pop();
            self.unwind_stack(top.b_level);
            if top.b_type == BlockType::LoopBlock && why == Why::WhyBreak {
                self.pc = top.b_handler;
                why = Why::WhyNot;
                break ;
            }
            if top.b_type == BlockType::TryBlock && why == Why::WhyException {
                pyerr_clear(rt);
                self.pc = top.b_handler;
                why = Why::WhyNot;
                break ;
            }
        }
        why
    }
}

/// A frame of execution as plain values.
pub struct MachineView {
    pub pc: usize,
    pub stack: Seq<ObjId>,
    pub blocks: Seq<Block>,
}

impl View for StackMachine {
    type V = MachineView;

    open spec fn view(&self) -> MachineView {
        MachineView { pc: self.pc, stack: self.stack@, blocks: self.blocks@ }
    }
}

impl MachineView {
    /// The machine with the top `k` values taken off the value stack.
    pub open spec fn popped(self, k: int) -> MachineView {
        MachineView { stack: self.stack.take(self.stack.len() - k), ..self }
    }

    /// The machine after an instruction that took the top `k` values off
    /// the value stack, pushed the values `pushed`, and went on with the
    /// next instruction.
    pub open spec fn moved(self, k: int, pushed: Seq<ObjId>) -> MachineView {
        MachineView {
            pc: (self.pc + 1) as usize,
            stack: self.stack.take(self.stack.len() - k) + pushed,
            ..self
        }
    }

    /// The machine at the address `addr`.
    pub open spec fn at(self, addr: usize) -> MachineView {
        MachineView { pc: addr, ..self }
    }

    /// The `i`-th value from the top of the value stack; the top is the
    /// value 0.
    pub open spec fn arg(self, i: int) -> ObjId {
        self.stack[self.stack.len() - 1 - i]
    }
}

/// The code asks for more than the stacks hold: the machine and the
/// runtime are as they were.
pub open spec fn invalid_code<T>(
    pm: MachineView,
    m: MachineView,
    prt: Runtime,
    rt: Runtime,
    r: PyRes<T>,
) -> bool {
    m == pm && rt == prt && r == Err::<T, PyErr>(PyErr::InvalidCode)
}

/// `PopTop`: drops the top value.
pub open spec fn pop_top_rel(pm: MachineView, m: MachineView, r: PyRes<Flow>) -> bool {
    if pm.stack.len() > 0 {
        r == Ok::<Flow, PyErr>(Flow::Next) && m == pm.moved(1, Seq::empty())
    } else {
        m == pm && r == Err::<Flow, PyErr>(PyErr::InvalidCode)
    }
}

/// `LoadConst`: pushes the constant, which must be an object of the runtime.
pub open spec fn load_const_rel(
    pm: MachineView,
    m: MachineView,
    rt: Runtime,
    cnst: ObjId,
    r: PyRes<Flow>,
) -> bool {
    if rt.valid(cnst) {
        r == Ok::<Flow, PyErr>(Flow::Next) && m == pm.moved(0, seq![cnst])
    } else {
        m == pm && r == Err::<Flow, PyErr>(PyErr::InvalidCode)
    }
}

/// `LoadName`: pushes what the name reads as in the frame `env`; a name
/// that no frame binds ends the program.
pub open spec fn load_name_rel(
    pm: MachineView,
    m: MachineView,
    rt: Runtime,
    env: EnvId,
    id: Seq<char>,
    r: PyRes<Flow>,
) -> bool {
    match spec_get(rt.envs@, env as int, id) {
        Some(v) => r == Ok::<Flow, PyErr>(Flow::Next) && m == pm.moved(0, seq![v]),
        None => m == pm && r == Err::<Flow, PyErr>(PyErr::NameError),
    }
}

/// `StoreName`: binds the name to the top value in the frame `env`, and
/// drops the value.
pub open spec fn store_name_rel(
    pm: MachineView,
    m: MachineView,
    prt: Runtime,
    rt: Runtime,
    env: EnvId,
    id: Id,
    r: PyRes<Flow>,
) -> bool {
    if pm.stack.len() > 0 {
        &&& r == Ok::<Flow, PyErr>(Flow::Next)
        &&& m == pm.moved(1, Seq::empty())
        &&& crate::env::update_post(prt, rt, env, id, pm.arg(0))
    } else {
        invalid_code(pm, m, prt, rt, r)
    }
}

/// `BinaryAdd`, `BinaryLt`, `BinaryEq`: takes the right and the left
/// operand off the stack, calls the slot of the left operand's type that
/// stands for the operation with the two, and pushes the result. A type
/// without the slot is a type error.
pub open spec fn binary_op_rel(
    pm: MachineView,
    m: MachineView,
    prt: Runtime,
    rt: Runtime,
    kind: BinKind,
    r: PyRes<Flow>,
) -> bool
    decreases prt.fuel, 5nat,
{
    if pm.stack.len() < 2 {
        invalid_code(pm, m, prt, rt, r)
    } else {
        match spec_binary_slot(prt.tp(prt.obj(pm.arg(1)).ob_type), kind) {
            None => m == pm.popped(2) && type_error(prt, rt, r),
            Some(f) => exists|res: PyRes<ObjId>|
                binary_rel(prt, f, pm.arg(1), pm.arg(0), rt, res) && #[trigger] pushed_or_failed(
                    pm,
                    m,
                    2,
                    res,
                    r,
                ),
        }
    }
}

/// An instruction that took `k` operands off the stack and called
/// something with them, which gave `res`: the value is pushed, and the
/// next instruction follows; a failure is the failure of the instruction.
pub open spec fn pushed_or_failed(
    pm: MachineView,
    m: MachineView,
    k: int,
    res: PyRes<ObjId>,
    r: PyRes<Flow>,
) -> bool {
    match res {
        Ok(v) => r == Ok::<Flow, PyErr>(Flow::Next) && m == pm.moved(k, seq![v]),
        Err(e) => r == Err::<Flow, PyErr>(e) && m == pm.popped(k),
    }
}

/// `MakeFunction`: takes a name and a code object off the stack, and
/// pushes a new function that captures the frame `env`.
pub open spec fn make_function_rel(
    pm: MachineView,
    m: MachineView,
    prt: Runtime,
    rt: Runtime,
    env: EnvId,
    r: PyRes<Flow>,
) -> bool {
    if pm.stack.len() < 2 {
        invalid_code(pm, m, prt, rt, r)
    } else if prt.is_code(pm.arg(1)) {
        &&& r == Ok::<Flow, PyErr>(Flow::Next)
        &&& m == pm.moved(2, seq![prt.objects@.len() as usize])
        &&& crate::object::funobj::pyfun_new_post(
            prt,
            rt,
            env,
            pm.arg(1),
            prt.objects@.len() as usize,
        )
    } else {
        m == pm.popped(2) && type_error(prt, rt, r)
    }
}

/// `CallFunction`: takes `argcnt` arguments and, below them, a callable off
/// the stack, calls the callable with the arguments, and pushes the result.
pub open spec fn call_function_rel(
    pm: MachineView,
    m: MachineView,
    prt: Runtime,
    rt: Runtime,
    argcnt: usize,
    r: PyRes<Flow>,
) -> bool
    decreases prt.fuel, 5nat,
{
    if pm.stack.len() <= argcnt {
        invalid_code(pm, m, prt, rt, r)
    } else {
        exists|res: PyRes<ObjId>|
            call_rel(prt, pm.arg(argcnt as int), pm.stack.skip(pm.stack.len() - argcnt), rt, res)
                && #[trigger] pushed_or_failed(pm, m, argcnt + 1, res, r)
    }
}

/// `ReturnValue`: takes the top value off the stack, for the frame to
/// return it.
pub open spec fn return_value_rel(pm: MachineView, m: MachineView, r: PyRes<Flow>) -> bool {
    if pm.stack.len() > 0 {
        r == Ok::<Flow, PyErr>(Flow::Return(pm.arg(0))) && m == pm.popped(1)
    } else {
        m == pm && r == Err::<Flow, PyErr>(PyErr::InvalidCode)
    }
}

/// `LoadAttr`: takes a value off the stack, makes a string of the name
/// `id`, and pushes the attribute of the value under that name.
pub open spec fn load_attr_rel(
    pm: MachineView,
    m: MachineView,
    prt: Runtime,
    rt: Runtime,
    id: Id,
    r: PyRes<Flow>,
) -> bool {
    if pm.stack.len() < 1 {
        invalid_code(pm, m, prt, rt, r)
    } else {
        exists|mid: Runtime, res: PyRes<ObjId>| #[trigger]
            attr_read(prt, mid, id, pm.arg(0), rt, res) && pushed_or_failed(pm, m, 1, res, r)
    }
}

/// Reading the attribute `id` of `value`: `mid` is `prt` with a new string
/// object for the name, and the read gives `res` and leaves `rt`.
pub open spec fn attr_read(
    prt: Runtime,
    mid: Runtime,
    id: Id,
    value: ObjId,
    rt: Runtime,
    res: PyRes<ObjId>,
) -> bool {
    &&& crate::object::strobj::from_string_post(prt, mid, id, prt.objects@.len() as usize)
    &&& crate::object::call::get_attr_rel(mid, value, prt.objects@.len() as usize, rt, res)
}

/// `StoreAttr`: takes an object and, below it, a value off the stack, makes
/// a string of the name `id`, and writes the value to the attribute of the
/// object under that name.
pub open spec fn store_attr_rel(
    pm: MachineView,
    m: MachineView,
    prt: Runtime,
    rt: Runtime,
    id: Id,
    r: PyRes<Flow>,
) -> bool {
    if pm.stack.len() < 2 {
        invalid_code(pm, m, prt, rt, r)
    } else {
        exists|mid: Runtime, res: PyRes<()>| #[trigger]
            attr_written(prt, mid, id, pm.arg(0), pm.arg(1), rt, res) && match res {
                Ok(_) => r == Ok::<Flow, PyErr>(Flow::Next) && m == pm.moved(2, Seq::empty()),
                Err(e) => r == Err::<Flow, PyErr>(e) && m == pm.popped(2),
            }
    }
}

/// Writing `rvalue` to the attribute `id` of `value`: `mid` is `prt` with a
/// new string object for the name, and the write gives `res` and leaves
/// `rt`.
pub open spec fn attr_written(
    prt: Runtime,
    mid: Runtime,
    id: Id,
    value: ObjId,
    rvalue: ObjId,
    rt: Runtime,
    res: PyRes<()>,
) -> bool {
    &&& crate::object::strobj::from_string_post(prt, mid, id, prt.objects@.len() as usize)
    &&& crate::object::call::set_attr_rel(mid, value, prt.objects@.len() as usize, rvalue, rt, res)
}

/// What `BinarySubScr` finds: the item of the list `v1` at the integer
/// `v2`, or the value that the dictionary `v1` files under the key `v2`.
pub open spec fn subscript_rel(rt: Runtime, v1: ObjId, v2: ObjId, res: PyRes<ObjId>) -> bool {
    if rt.obj(v1).ob_type == crate::object::PY_LIST_TYPE {
        match (
            crate::object::listobj::spec_list_value(rt, v1),
            crate::object::longobj::spec_long_value(rt, v2),
        ) {
            (Some(items), Some(i)) => if 0 <= i < items.len() {
                res == Ok::<ObjId, PyErr>(items[i as int])
            } else {
                res is Err && res->Err_0 is IndexError
            },
            _ => res is Err && res->Err_0 is TypeError,
        }
    } else if rt.obj(v1).ob_type == crate::object::PY_DICT_TYPE {
        match (
            crate::object::dictobj::spec_key_hash(rt, v2),
            crate::object::dictobj::spec_dict_value(rt, v1),
        ) {
            (Some(h), Some(entries)) => match crate::object::pyhashmap::spec_get(entries, h) {
                Some(v) => res == Ok::<ObjId, PyErr>(v),
                None => res is Err && res->Err_0 is TypeError,
            },
            _ => res is Err && res->Err_0 is TypeError,
        }
    } else {
        res is Err && res->Err_0 is TypeError
    }
}

/// `BinarySubScr`: takes an index and, below it, a container off the
/// stack, and pushes the item of the container at the index.
pub open spec fn binary_subscr_rel(
    pm: MachineView,
    m: MachineView,
    rt: Runtime,
    r: PyRes<Flow>,
) -> bool {
    if pm.stack.len() < 2 {
        m == pm && r == Err::<Flow, PyErr>(PyErr::InvalidCode)
    } else {
        exists|res: PyRes<ObjId>| #[trigger]
            subscript_rel(rt, pm.arg(1), pm.arg(0), res) && pushed_or_failed(pm, m, 2, res, r)
    }
}

/// `StoreSubScr`: takes a key, a dictionary below it and a value below
/// that off the stack, and files the value in the dictionary under the key.
pub open spec fn store_subscr_rel(
    pm: MachineView,
    m: MachineView,
    prt: Runtime,
    rt: Runtime,
    r: PyRes<Flow>,
) -> bool {
    if pm.stack.len() < 3 {
        invalid_code(pm, m, prt, rt, r)
    } else {
        exists|res: PyRes<()>| #[trigger]
            crate::object::dictobj::pydict_update_post(
                prt,
                rt,
                pm.arg(1),
                pm.arg(0),
                pm.arg(2),
                res,
            ) && match res {
                Ok(_) => r == Ok::<Flow, PyErr>(Flow::Next) && m == pm.moved(3, Seq::empty()),
                Err(e) => r == Err::<Flow, PyErr>(e) && m == pm.popped(3),
            }
    }
}

/// `BuildList`: takes `len` values off the stack and pushes a new list of
/// them, in the order in which they were pushed.
pub open spec fn build_list_rel(
    pm: MachineView,
    m: MachineView,
    prt: Runtime,
    rt: Runtime,
    len: usize,
    r: PyRes<Flow>,
) -> bool {
    if len <= pm.stack.len() {
        &&& r == Ok::<Flow, PyErr>(Flow::Next)
        &&& m == pm.moved(len as int, seq![prt.objects@.len() as usize])
        &&& crate::object::listobj::pylist_from_vec_post(
            prt,
            rt,
            pm.stack.skip(pm.stack.len() - len),
            prt.objects@.len() as usize,
        )
    } else {
        invalid_code(pm, m, prt, rt, r)
    }
}

/// The runtime after the first `n` of the pairs `vs` were filed in the
/// dictionary `d`, one after the other, starting from the runtime `prt`:
/// `res` is the failure of the first pair that could not be filed.
pub open spec fn pairs_filed(
    prt: Runtime,
    d: ObjId,
    vs: Seq<ObjId>,
    n: nat,
    rt: Runtime,
    res: PyRes<()>,
) -> bool
    decreases n,
{
    if n == 0 {
        rt == prt && res is Ok
    } else {
        exists|mid: Runtime, before: PyRes<()>|
            pairs_filed(prt, d, vs, (n - 1) as nat, mid, before) && #[trigger] pair_filed(
                mid,
                before,
                d,
                vs,
                n,
                rt,
                res,
            )
    }
}

/// The `n`-th of the pairs `vs` is filed in the dictionary `d`, after the
/// pairs before it left the runtime `mid` and gave `before`: after a
/// failure nothing more is filed.
pub open spec fn pair_filed(
    mid: Runtime,
    before: PyRes<()>,
    d: ObjId,
    vs: Seq<ObjId>,
    n: nat,
    rt: Runtime,
    res: PyRes<()>,
) -> bool {
    match before {
        Err(_) => rt == mid && res == before,
        Ok(_) => crate::object::dictobj::pydict_update_post(
            mid,
            rt,
            d,
            vs[2 * (n - 1)],
            vs[2 * (n - 1) + 1],
            res,
        ),
    }
}

/// `BuildMap`: takes `len` pairs of a key and a value off the stack, and
/// pushes a new dictionary in which each value is filed under its key, in
/// the order in which the pairs were pushed.
pub open spec fn build_map_rel(
    pm: MachineView,
    m: MachineView,
    prt: Runtime,
    rt: Runtime,
    len: usize,
    r: PyRes<Flow>,
) -> bool {
    if 2 * len > pm.stack.len() {
        invalid_code(pm, m, prt, rt, r)
    } else {
        exists|mid: Runtime, res: PyRes<()>| #[trigger]
            map_built(pm, prt, len, mid, rt, res) && match res {
                Ok(_) => r == Ok::<Flow, PyErr>(Flow::Next) && m == pm.moved(
                    2 * len,
                    seq![prt.objects@.len() as usize],
                ),
                Err(e) => r == Err::<Flow, PyErr>(e) && m == pm.popped(2 * len),
            }
    }
}

/// The making of the dictionary of `BuildMap`: `mid` is `prt` with a new,
/// empty dictionary, in which the pairs are then filed.
pub open spec fn map_built(
    pm: MachineView,
    prt: Runtime,
    len: usize,
    mid: Runtime,
    rt: Runtime,
    res: PyRes<()>,
) -> bool {
    &&& crate::object::dictobj::pydict_new_post(prt, mid, prt.objects@.len() as usize)
    &&& pairs_filed(
        mid,
        prt.objects@.len() as usize,
        pm.stack.skip(pm.stack.len() - 2 * len),
        len as nat,
        rt,
        res,
    )
}

/// `PopJumpIfTrue`, `PopJumpIfFalse`: takes a value off the stack, and goes
/// on at `addr` if the truth value of the value is `when`, else with the
/// next instruction.
pub open spec fn pop_jump_rel(
    pm: MachineView,
    m: MachineView,
    prt: Runtime,
    rt: Runtime,
    addr: Addr,
    when: bool,
    r: PyRes<Flow>,
) -> bool
    decreases prt.fuel, 5nat,
{
    if pm.stack.len() < 1 {
        invalid_code(pm, m, prt, rt, r)
    } else {
        exists|t: PyRes<bool>|
            truth_rel(prt, pm.arg(0), rt, t) && #[trigger] jumped(pm, m, addr, when, t, r)
    }
}

/// A conditional jump whose condition has the truth value `t`: the
/// condition is taken off the stack, and execution goes on at `addr` if
/// the truth value is `when`, else with the next instruction.
pub open spec fn jumped(
    pm: MachineView,
    m: MachineView,
    addr: Addr,
    when: bool,
    t: PyRes<bool>,
    r: PyRes<Flow>,
) -> bool {
    match t {
        Ok(b) => r == Ok::<Flow, PyErr>(Flow::Next) && m == if b == when {
            pm.popped(1).at(addr)
        } else {
            pm.moved(1, Seq::empty())
        },
        Err(e) => r == Err::<Flow, PyErr>(e) && m == pm.popped(1),
    }
}

/// `SetupLoop`, `SetupExcept`: pushes a block of the given kind, whose
/// handler is `offset` instructions on and whose level is the height of the
/// value stack.
pub open spec fn setup_rel(
    pm: MachineView,
    m: MachineView,
    b_type: BlockType,
    offset: Offset,
    r: PyRes<Flow>,
) -> bool {
    if pm.pc + offset <= usize::MAX {
        r == Ok::<Flow, PyErr>(Flow::Next) && m == (MachineView {
            pc: (pm.pc + 1) as usize,
            blocks: pm.blocks.push(
                Block {
                    b_type: b_type,
                    b_handler: (pm.pc + offset) as usize,
                    b_level: pm.stack.len() as usize,
                },
            ),
            ..pm
        })
    } else {
        m == pm && r == Err::<Flow, PyErr>(PyErr::InvalidCode)
    }
}

/// `PopBlock`: takes the top block off the block stack, and cuts the value
/// stack down to its level.
pub open spec fn pop_block_rel(pm: MachineView, m: MachineView, r: PyRes<Flow>) -> bool {
    if pm.blocks.len() > 0 {
        r == Ok::<Flow, PyErr>(Flow::Next) && m == (MachineView {
            pc: (pm.pc + 1) as usize,
            stack: spec_truncate(pm.stack, pm.blocks.last().b_level),
            blocks: pm.blocks.drop_last(),
        })
    } else {
        m == pm && r == Err::<Flow, PyErr>(PyErr::InvalidCode)
    }
}

/// `GetIter`: takes a value off the stack and pushes a new iterator over
/// it, which the `iter` slot of its type makes.
pub open spec fn get_iter_rel(
    pm: MachineView,
    m: MachineView,
    prt: Runtime,
    rt: Runtime,
    r: PyRes<Flow>,
) -> bool {
    if pm.stack.len() < 1 {
        invalid_code(pm, m, prt, rt, r)
    } else {
        match prt.tp(prt.obj(pm.arg(0)).ob_type).tp_iter {
            Some(_) => exists|res: PyRes<ObjId>| #[trigger]
                crate::object::listobj::pylist_iter_post(prt, rt, pm.arg(0), res)
                    && pushed_or_failed(pm, m, 1, res, r),
            None => m == pm.popped(1) && type_error(prt, rt, r),
        }
    }
}

/// `ForIter`: asks the iterator on top of the stack for its next item. An
/// item is pushed, and execution goes on with the next instruction. At the
/// end of the iteration the iterator is taken off the stack, and execution
/// goes on at `addr`.
pub open spec fn for_iter_rel(
    pm: MachineView,
    m: MachineView,
    prt: Runtime,
    rt: Runtime,
    addr: Addr,
    r: PyRes<Flow>,
) -> bool {
    if pm.stack.len() < 1 {
        invalid_code(pm, m, prt, rt, r)
    } else {
        match prt.tp(prt.obj(pm.arg(0)).ob_type).tp_iternext {
            Some(_) => exists|next: PyRes<Option<ObjId>>| #[trigger]
                crate::object::listobj::pylistiter_next_post(prt, rt, pm.arg(0), next) && match next {
                    Ok(Some(item)) => r == Ok::<Flow, PyErr>(Flow::Next) && m == pm.moved(
                        0,
                        seq![item],
                    ),
                    Ok(None) => r == Ok::<Flow, PyErr>(Flow::Next) && m == pm.popped(1).at(addr),
                    Err(e) => r == Err::<Flow, PyErr>(e) && m == pm,
                },
            None => m == pm && type_error(prt, rt, r),
        }
    }
}

/// The raising of what the call of an exception type gave: an instance is
/// put into the exception indicator, and a failure of the call stands.
pub open spec fn raised_as(mid: Runtime, res: PyRes<ObjId>, rt: Runtime, r: PyRes<Flow>) -> bool {
    match res {
        Ok(inst) => indicated(mid, rt, inst) && r == Err::<Flow, PyErr>(PyErr::Raised),
        Err(e) => rt == mid && r == Err::<Flow, PyErr>(e),
    }
}

/// `Raise`: takes a value off the stack and raises it. A type that
/// descends from the base exception is called without arguments, and the
/// instance is put into the exception indicator; an instance of such a
/// type is put there as it is; anything else is a type error.
pub open spec fn raise_op_rel(
    pm: MachineView,
    m: MachineView,
    prt: Runtime,
    rt: Runtime,
    r: PyRes<Flow>,
) -> bool
    decreases prt.fuel, 5nat,
{
    if pm.stack.len() < 1 {
        invalid_code(pm, m, prt, rt, r)
    } else if crate::object::generic::spec_issubclass(
        prt,
        pm.arg(0),
        crate::object::PY_BASEEXC_TYPE,
    ) {
        m == pm.popped(1) && exists|mid: Runtime, res: PyRes<ObjId>|
            type_call_rel(prt, pm.arg(0), Seq::empty(), mid, res) && #[trigger] raised_as(
                mid,
                res,
                rt,
                r,
            )
    } else if crate::object::generic::spec_isinstance(
        prt,
        pm.arg(0),
        crate::object::PY_BASEEXC_TYPE,
    ) {
        m == pm.popped(1) && indicated(prt, rt, pm.arg(0)) && r == Err::<Flow, PyErr>(
            PyErr::Raised,
        )
    } else {
        m == pm.popped(1) && type_error(prt, rt, r)
    }
}

/// The start of the making of a class: `m1` is `prt` with a new list of
/// the bases, and `m2` is `m1` with a new, empty frame under `env`.
pub open spec fn class_begun(
    prt: Runtime,
    env: EnvId,
    bases: Seq<ObjId>,
    m1: Runtime,
    m2: Runtime,
) -> bool {
    &&& crate::object::listobj::pylist_from_vec_post(prt, m1, bases, prt.objects@.len() as usize)
    &&& crate::env::new_child_post(
        m1,
        m2,
        env,
        Seq::<Id>::empty(),
        Seq::<ObjId>::empty(),
        m1.envs@.len() as usize,
    )
}

/// `MakeClass`: takes a name, a code object below it and `nbases` bases
/// below that off the stack, makes a class of them as [`class_rel`] says,
/// and pushes the class.
pub open spec fn make_class_rel(
    pm: MachineView,
    m: MachineView,
    prt: Runtime,
    rt: Runtime,
    env: EnvId,
    nbases: usize,
    r: PyRes<Flow>,
) -> bool
    decreases prt.fuel, 6nat,
{
    if pm.stack.len() < 2 || pm.stack.len() - 2 < nbases {
        invalid_code(pm, m, prt, rt, r)
    } else if !prt.is_code(pm.arg(1)) {
        m == pm.popped(nbases + 2) && type_error(prt, rt, r)
    } else {
        exists|cls: PyRes<ObjId>|
            class_rel(
                prt,
                env,
                pm.arg(0),
                prt.obj(pm.arg(1)).inner->CodeObj_0.co_code@,
                pm.stack.subrange(pm.stack.len() - 2 - nbases, pm.stack.len() - 2),
                rt,
                cls,
            ) && #[trigger] pushed_or_failed(pm, m, nbases + 2, cls, r)
    }
}

/// Making a class of the name `name`, the body `code` and the bases
/// `bases` gives `cls` and leaves the runtime `rt`: the body runs in a new
/// frame under `env`, and `type` is called with the name, a new list of
/// the bases and a new dictionary of the bindings that the body made.
pub open spec fn class_rel(
    prt: Runtime,
    env: EnvId,
    name: ObjId,
    code: Seq<Opcode>,
    bases: Seq<ObjId>,
    rt: Runtime,
    cls: PyRes<ObjId>,
) -> bool
    decreases prt.fuel, 5nat,
{
    exists|m1: Runtime, m2: Runtime| #[trigger]
        class_begun(prt, env, bases, m1, m2) && m2.fuel == prt.fuel && class_body_rel(
            name,
            code,
            prt.objects@.len() as usize,
            m1.envs@.len() as usize,
            m2,
            rt,
            cls,
        )
}

/// The body `code` of a class runs in the frame `frame`, from the runtime
/// `m2`: a failure of the body is the failure of the making; else the
/// class is made of the name, the list `bases` and the bindings of the
/// frame.
pub open spec fn class_body_rel(
    name: ObjId,
    code: Seq<Opcode>,
    bases: ObjId,
    frame: EnvId,
    m2: Runtime,
    rt: Runtime,
    cls: PyRes<ObjId>,
) -> bool
    decreases m2.fuel, 4nat,
{
    exists|m3: Runtime, body: PyRes<ObjId>|
        evals(m2, code, frame, m3, body) && #[trigger] settled(m3, body) && m3.fuel <= m2.fuel
            && match body {
            Err(e) => rt == m3 && cls == Err::<ObjId, PyErr>(e),
            Ok(_) => class_called(name, bases, frame, m3, rt, cls),
        }
}

/// The end of the making of a class: a new dictionary is made of the
/// bindings of the frame `frame`, and the call of `type` with the name, the
/// list of the bases and the dictionary gives `cls` and leaves `rt`.
pub open spec fn class_called(
    name: ObjId,
    bases: ObjId,
    frame: EnvId,
    m3: Runtime,
    rt: Runtime,
    cls: PyRes<ObjId>,
) -> bool
    decreases m3.fuel, 3nat,
{
    exists|m4: Runtime| #[trigger]
        crate::env::dictobj_post(m3, m4, frame, m3.objects@.len() as usize) && m4.fuel
            == m3.fuel && match m4.tp(PY_TYPE_TYPE).tp_call {
            Some(c) => vararg_rel(
                m4,
                c,
                PY_TYPE_TYPE,
                seq![name, bases, m3.objects@.len() as usize],
                rt,
                cls,
            ),
            None => type_error(m4, rt, cls),
        }
}

/// What one instruction does: the machine `pm` and the runtime `prt`
/// before it, the machine `m` and the runtime `rt` after it, and how
/// execution goes on.
pub open spec fn step_rel(
    op: Opcode,
    pm: MachineView,
    m: MachineView,
    prt: Runtime,
    rt: Runtime,
    env: EnvId,
    r: PyRes<Flow>,
) -> bool
    decreases prt.fuel, 7nat,
{
    match op {
        Opcode::PopTop => pop_top_rel(pm, m, r) && rt == prt,
        Opcode::LoadConst(cnst) => load_const_rel(pm, m, prt, cnst, r) && rt == prt,
        Opcode::LoadName(id) => load_name_rel(pm, m, prt, env, id@, r) && rt == prt,
        Opcode::StoreName(id) => store_name_rel(pm, m, prt, rt, env, id, r),
        Opcode::BinaryAdd => binary_op_rel(pm, m, prt, rt, BinKind::Add, r),
        Opcode::BinaryLt => binary_op_rel(pm, m, prt, rt, BinKind::Lt, r),
        Opcode::BinaryEq => binary_op_rel(pm, m, prt, rt, BinKind::Eq, r),
        Opcode::MakeFunction => make_function_rel(pm, m, prt, rt, env, r),
        Opcode::CallFunction(argcnt) => call_function_rel(pm, m, prt, rt, argcnt, r),
        Opcode::ReturnValue => return_value_rel(pm, m, r) && rt == prt,
        Opcode::LoadAttr(id) => load_attr_rel(pm, m, prt, rt, id, r),
        Opcode::StoreAttr(id) => store_attr_rel(pm, m, prt, rt, id, r),
        Opcode::BinarySubScr => binary_subscr_rel(pm, m, prt, r) && rt == prt,
        Opcode::StoreSubScr => store_subscr_rel(pm, m, prt, rt, r),
        Opcode::BuildList(len) => build_list_rel(pm, m, prt, rt, len, r),
        Opcode::BuildMap(len) => build_map_rel(pm, m, prt, rt, len, r),
        Opcode::PopJumpIfTrue(addr) => pop_jump_rel(pm, m, prt, rt, addr, true, r),
        Opcode::PopJumpIfFalse(addr) => pop_jump_rel(pm, m, prt, rt, addr, false, r),
        Opcode::JumpAbsolute(addr) => r == Ok::<Flow, PyErr>(Flow::Next) && m == pm.at(addr)
            && rt == prt,
        Opcode::SetupLoop(offset) => setup_rel(pm, m, BlockType::LoopBlock, offset, r) && rt
            == prt,
        Opcode::BreakLoop => r == Ok::<Flow, PyErr>(Flow::Break) && m == pm && rt == prt,
        Opcode::ContinueLoop(addr) => r == Ok::<Flow, PyErr>(Flow::Continue(addr)) && m == pm
            && rt == prt,
        Opcode::GetIter => get_iter_rel(pm, m, prt, rt, r),
        Opcode::ForIter(addr) => for_iter_rel(pm, m, prt, rt, addr, r),
        Opcode::SetupExcept(offset) => setup_rel(pm, m, BlockType::TryBlock, offset, r) && rt
            == prt,
        Opcode::Raise => raise_op_rel(pm, m, prt, rt, r),
        Opcode::PopBlock => pop_block_rel(pm, m, r) && rt == prt,
        Opcode::MakeClass(nbases) => make_class_rel(pm, m, prt, rt, env, nbases, r),
        Opcode::Panic => r == Err::<Flow, PyErr>(PyErr::AssertionError) && m == pm && rt == prt,
    }
}

/// One cycle of the machine: the states that it goes through.
pub struct Cycle {
    /// The machine and the runtime before the cycle.
    pub m0: MachineView,
    pub rt0: Runtime,
    /// The machine and the runtime after the instruction, and what the
    /// instruction gave.
    pub m1: MachineView,
    pub rt1: Runtime,
    pub res: PyRes<Flow>,
    /// The runtime after a failure of the instruction was raised, and the
    /// error with which the failure goes on.
    pub rt2: Runtime,
    pub err: PyErr,
    /// The runtime after the block stack was unwound.
    pub rt3: Runtime,
}

impl Cycle {
    /// The reason for which the cycle unwinds the block stack.
    pub open spec fn why(self) -> Why {
        match self.res {
            Ok(Flow::Next) => Why::WhyNot,
            Ok(Flow::Return(_)) => Why::WhyReturn,
            Ok(Flow::Break) => Why::WhyBreak,
            Ok(Flow::Continue(_)) => Why::WhyContinue,
            Err(_) => Why::WhyException,
        }
    }

    /// The instruction failed with an error that ends the program.
    pub open spec fn fatal(self) -> bool {
        self.res is Err && self.err.spec_is_fatal()
    }

    /// The state in which the unwinding of the cycle leaves the frame.
    pub open spec fn unwound(self) -> Unwound {
        spec_unwind(
            self.m1.blocks,
            self.m1.stack,
            self.m1.pc,
            self.why(),
            match self.res {
                Ok(Flow::Continue(addr)) => addr,
                _ => 0,
            },
        )
    }

    /// The machine after the cycle.
    pub open spec fn m3(self) -> MachineView {
        let u = self.unwound();
        MachineView { pc: u.pc, stack: u.stack, blocks: u.blocks }
    }

    /// Execution goes on with another cycle.
    pub open spec fn goes_on(self) -> bool {
        !self.fatal() && self.unwound().why == Why::WhyNot
    }

    /// The result with which the frame ends, where execution does not go on.
    pub open spec fn result(self) -> PyRes<ObjId> {
        if self.fatal() {
            Err(self.err)
        } else {
            match self.res {
                Ok(Flow::Return(v)) => Ok(v),
                Err(_) => Err(PyErr::Raised),
                _ => Err(PyErr::InvalidCode),
            }
        }
    }

    /// The machine after the cycle: an error that ends the program leaves
    /// the machine as the instruction left it.
    pub open spec fn last_m(self) -> MachineView {
        if self.fatal() {
            self.m1
        } else {
            self.m3()
        }
    }

    /// The runtime after the cycle.
    pub open spec fn last_rt(self) -> Runtime {
        if self.fatal() {
            self.rt2
        } else {
            self.rt3
        }
    }
}

/// The cycle `c` is a cycle of the machine on the code `code` in the frame
/// `env`: the instruction at the program counter is fetched, which uses up
/// one step of the budget, and executed; a failure is raised; and the block
/// stack is unwound for the reason that the instruction gave.
pub open spec fn cycle_ok(code: Seq<Opcode>, env: EnvId, c: Cycle) -> bool
    decreases c.rt0.fuel, 0nat,
{
    &&& c.m0.pc < code.len()
    &&& c.rt0.fuel > 0
    &&& step_rel(code[c.m0.pc as int], c.m0, c.m1, burnt(c.rt0), c.rt1, env, c.res)
    &&& c.rt1.fuel < c.rt0.fuel
    &&& cycle_ends(c)
}

/// The end of a cycle, after its instruction: a failure is raised, and
/// unless that ends the program the block stack is unwound for the reason
/// that the instruction gave. A try block that takes the exception empties
/// the exception indicator.
pub open spec fn cycle_ends(c: Cycle) -> bool
    decreases c.rt1.fuel, 4nat,
{
    &&& match c.res {
        Err(e) => raise_rel(c.rt1, e, c.rt2, c.err),
        Ok(_) => c.rt2 == c.rt1,
    }
    &&& !c.fatal() ==> c.rt3.objects == c.rt2.objects && c.rt3.envs == c.rt2.envs && c.rt3.fuel
        == c.rt2.fuel && c.rt3.exc == if c.unwound().caught {
        None
    } else {
        c.rt2.exc
    }
}

/// The frame ends in the state `m`, `rt` without another cycle, with the
/// result `r`: control has run off the end of the code, which gives the
/// `None` object, or the budget is used up.
pub open spec fn frame_ends(code: Seq<Opcode>, m: MachineView, rt: Runtime, r: PyRes<ObjId>) -> bool {
    if m.pc >= code.len() {
        r == Ok::<ObjId, PyErr>(crate::object::PY_NONE_OBJECT)
    } else {
        rt.fuel == 0 && r == Err::<ObjId, PyErr>(PyErr::OutOfFuel)
    }
}

/// The cycles `trace` follow one another from the machine `m` and the
/// runtime `prt`: the first begins in that state, every cycle begins with no
/// more of the budget than `prt` has, every cycle but the last goes on, and
/// the next begins in the state in which it ends.
pub open spec fn linked(m: MachineView, prt: Runtime, trace: Seq<Cycle>) -> bool {
    &&& trace.len() > 0 ==> trace[0].m0 == m && trace[0].rt0 == prt
    &&& forall|i: int| 0 <= i < trace.len() ==> (#[trigger] trace[i]).rt0.fuel <= prt.fuel
    &&& forall|i: int|
        0 <= i < trace.len() - 1 ==> (#[trigger] trace[i]).goes_on() && trace[i + 1].m0
            == trace[i].m3() && trace[i + 1].rt0 == trace[i].rt3
}

/// The cycles `trace` are a run of the machine on the code `code` in the
/// frame `env`, which ends with the result `r` and leaves the runtime `rt`:
/// every cycle is a cycle of the machine, and the frame ends with the last
/// cycle, or without a cycle behind it: then `m` and `prt` are the state
/// from which the run starts.
pub open spec fn runs(
    code: Seq<Opcode>,
    env: EnvId,
    m: MachineView,
    prt: Runtime,
    trace: Seq<Cycle>,
    rt: Runtime,
    r: PyRes<ObjId>,
) -> bool
    decreases prt.fuel, 1nat,
{
    &&& forall|i: int|
        0 <= i < trace.len() ==> (#[trigger] trace[i]).rt0.fuel <= prt.fuel && cycle_ok(
            code,
            env,
            trace[i],
        )
    &&& if trace.len() == 0 {
        rt == prt && frame_ends(code, m, prt, r)
    } else {
        let last = trace.last();
        &&& rt == last.last_rt()
        &&& if last.goes_on() {
            frame_ends(code, last.m3(), last.rt3, r)
        } else {
            r == last.result()
        }
    }
}

/// The machine that a run from the machine `m` leaves: the machine after
/// the last cycle, or `m` where no cycle ran.
pub open spec fn end_machine(m: MachineView, trace: Seq<Cycle>) -> MachineView {
    if trace.len() == 0 {
        m
    } else {
        trace.last().last_m()
    }
}

/// Running the code `code` in the frame `env` on the machine `m`, in the
/// runtime `prt`, gives the result `r` and leaves the machine `fm` and the
/// runtime `rt`: there is a run of the machine from that state that does so.
pub open spec fn execs(
    prt: Runtime,
    m: MachineView,
    code: Seq<Opcode>,
    env: EnvId,
    rt: Runtime,
    fm: MachineView,
    r: PyRes<ObjId>,
) -> bool
    decreases prt.fuel, 2nat,
{
    exists|trace: Seq<Cycle>| #[trigger]
        linked(m, prt, trace) && runs(code, env, m, prt, trace, rt, r) && fm == end_machine(
            m,
            trace,
        )
}

/// Running the code `code` in the frame `env` on a new machine, in the
/// runtime `prt`, gives the result `r` and leaves the runtime `rt`.
pub open spec fn evals(
    prt: Runtime,
    code: Seq<Opcode>,
    env: EnvId,
    rt: Runtime,
    r: PyRes<ObjId>,
) -> bool
    decreases prt.fuel, 2nat,
{
    exists|trace: Seq<Cycle>| #[trigger]
        linked(MachineView { pc: 0, stack: Seq::empty(), blocks: Seq::empty() }, prt, trace)
            && runs(
            code,
            env,
            MachineView { pc: 0, stack: Seq::empty(), blocks: Seq::empty() },
            prt,
            trace,
            rt,
            r,
        )
}

/// How execution goes on after an instruction.
#[derive(Clone, Copy, Debug, PartialEq, Eq, Structural)]
pub enum Flow {
    /// With the instruction at the program counter.
    Next,
    /// The frame returns the value.
    Return(ObjId),
    /// The innermost loop is left.
    Break,
    /// The innermost loop goes on at the address.
    Continue(Addr),
}

/// The slot of the type `tp` that stands for the binary operation `kind`.
pub open spec fn spec_binary_slot(tp: PyTypeObject, kind: BinKind) -> Option<BinaryOp> {
    match kind {
        BinKind::Add => tp.tp_fun_add,
        BinKind::Lt => tp.tp_fun_lt,
        BinKind::Eq => tp.tp_fun_eq,
    }
}

/// The binary operations that instructions stand for.
#[derive(Clone, Copy, Debug, PartialEq, Eq, Structural)]
pub enum BinKind {
    Add,
    Lt,
    Eq,
}

impl StackMachine {
    /// Every value on the value stack is an object of `rt`.
    pub open spec fn inv(&self, rt: Runtime) -> bool {
        rt.all_valid(self.stack@)
    }

    /// Takes the top value off the value stack, if there is one.
    pub fn pop_value(&mut self) -> (r: PyRes<ObjId>)
        ensures
            if old(self)@.stack.len() > 0 {
                r == Ok::<ObjId, PyErr>(old(self)@.arg(0)) && final(self)@ == old(self)@.popped(1)
            } else {
                r == Err::<ObjId, PyErr>(PyErr::InvalidCode) && final(self)@ == old(self)@
            },
    {
        if self.stack.len() == 0 {
            Err(PyErr::InvalidCode)
        } else {
            let v = self.pop();
            proof {
                assert(self@.stack =~= old(self)@.popped(1).stack);
            }
            Ok(v)
        }
    }

    /// Takes the top `len` values off the value stack, if there are so many.
    pub fn pop_values(&mut self, len: usize) -> (r: PyRes<Vec<ObjId>>)
        ensures
            if len <= old(self)@.stack.len() {
                &&& r is Ok
                &&& r->Ok_0@ == old(self)@.stack.skip(old(self)@.stack.len() - len)
                &&& final(self)@ == old(self)@.popped(len as int)
            } else {
                r == Err::<Vec<ObjId>, PyErr>(PyErr::InvalidCode) && final(self)@ == old(self)@
            },
    {
        if len > self.stack.len() {
            Err(PyErr::InvalidCode)
        } else {
            let vs = self.pop_as_vec(len);
            proof {
                assert(self@.stack =~= old(self)@.popped(len as int).stack);
            }
            Ok(vs)
        }
    }

    /// Pushes the value of an instruction that took its operands off the
    /// stack, and goes on with the next instruction.
    fn push_next(&mut self, v: ObjId, Ghost(pm): Ghost<MachineView>, Ghost(k): Ghost<int>)
        requires
            old(self).pc < usize::MAX,
            0 <= k <= pm.stack.len(),
            old(self)@ == pm.popped(k),
        ensures
            final(self)@ == pm.moved(k, seq![v]),
    {
        self.push(v);
        self.pc = self.pc + 1;
        proof {
            assert(self@.stack =~= pm.moved(k, seq![v]).stack);
        }
    }

    /// Goes on with the next instruction, after one that took its operands
    /// off the stack and pushed nothing.
    fn next(&mut self, Ghost(pm): Ghost<MachineView>, Ghost(k): Ghost<int>)
        requires
            old(self).pc < usize::MAX,
            0 <= k <= pm.stack.len(),
            old(self)@ == pm.popped(k),
        ensures
            final(self)@ == pm.moved(k, Seq::empty()),
    {
        self.pc = self.pc + 1;
        proof {
            assert(self@.stack =~= pm.moved(k, Seq::empty()).stack);
        }
    }

    /// `PopTop`: drops the top value.
    pub fn op_pop_top(&mut self) -> (r: PyRes<Flow>)
        requires
            old(self).pc < usize::MAX,
        ensures
            pop_top_rel(old(self)@, final(self)@, r),
    {
        match self.pop_value() {
            Ok(_) => {},
            Err(e) => {
                return Err(e);
            },
        }
        self.next(Ghost(old(self)@), Ghost(1));
        Ok(Flow::Next)
    }

    /// `LoadConst`: pushes the constant.
    pub fn op_load_const(&mut self, rt: &Runtime, cnst: ObjId) -> (r: PyRes<Flow>)
        requires
            old(self).pc < usize::MAX,
        ensures
            load_const_rel(old(self)@, final(self)@, *rt, cnst, r),
    {
        if cnst >= rt.objects.len() {
            return Err(PyErr::InvalidCode);
        }
        proof {
            assert(self@.stack =~= old(self)@.popped(0).stack);
        }
        self.push_next(cnst, Ghost(old(self)@), Ghost(0));
        Ok(Flow::Next)
    }

    /// `LoadName`: pushes what the name reads as in the frame `env`.
    pub fn op_load_name(&mut self, rt: &Runtime, env: EnvId, id: &Id) -> (r: PyRes<Flow>)
        requires
            old(self).pc < usize::MAX,
            rt.wf(),
            rt.valid_env(env),
        ensures
            load_name_rel(old(self)@, final(self)@, *rt, env, id@, r),
            r is Ok ==> rt.valid(final(self)@.stack.last()),
    {
        match Env::get(rt, env, id) {
            Ok(v) => {
                proof {
                    assert(self@.stack =~= old(self)@.popped(0).stack);
                }
                self.push_next(v, Ghost(old(self)@), Ghost(0));
                Ok(Flow::Next)
            },
            Err(e) => Err(e),
        }
    }

    /// `StoreName`: binds the name to the top value in the frame `env`, and
    /// drops the value.
    pub fn op_store_name(&mut self, rt: &mut Runtime, env: EnvId, id: &Id) -> (r: PyRes<Flow>)
        requires
            old(self).pc < usize::MAX,
            old(rt).wf(),
            old(rt).valid_env(env),
            old(self).inv(*old(rt)),
        ensures
            final(rt).wf(),
            final(rt).extends(*old(rt)),
            final(self).inv(*final(rt)),
            store_name_rel(old(self)@, final(self)@, *old(rt), *final(rt), env, *id, r),
    {
        proof {
            lemma_extends_refl(*rt);
        }
        let top = match self.pop_value() {
            Ok(v) => v,
            Err(e) => {
                return Err(e);
            },
        };
        assert(rt.valid(old(self).stack@[old(self).stack@.len() - 1]));
        Env::update(rt, env, id.clone(), top);
        self.next(Ghost(old(self)@), Ghost(1));
        Ok(Flow::Next)
    }

    /// `BinaryAdd`, `BinaryLt`, `BinaryEq`: takes the right and the left
    /// operand off the stack, calls the slot of the left operand's type that
    /// stands for the operation with the two, and pushes the result. A type
    /// without the slot is an error.
    pub fn op_binary(&mut self, rt: &mut Runtime, kind: BinKind) -> (r: PyRes<Flow>)
        requires
            old(self).pc < usize::MAX,
            old(rt).wf(),
            old(self).inv(*old(rt)),
        ensures
            final(rt).wf(),
            final(rt).extends(*old(rt)),
            final(self).inv(*final(rt)),
            raised_ok(*final(rt), r),
            binary_op_rel(old(self)@, final(self)@, *old(rt), *final(rt), kind, r),
        decreases old(rt).fuel, 4nat,
    {
        proof {
            lemma_extends_refl(*rt);
        }
        if self.stack.len() < 2 {
            return Err(PyErr::InvalidCode);
        }
        let right = self.pop();
        let left = self.pop();
        proof {
            assert(rt.valid(old(self).stack@[old(self).stack@.len() - 1]));
            assert(rt.valid(old(self).stack@[old(self).stack@.len() - 2]));
            rt.lemma_obj(left);
            rt.lemma_obj(rt.obj(left).ob_type);
            assert(self@.stack =~= old(self)@.popped(2).stack);
        }
        let typ = rt.typeobj_of(left);
        let slot = match kind {
            BinKind::Add => typ.tp_fun_add,
            BinKind::Lt => typ.tp_fun_lt,
            BinKind::Eq => typ.tp_fun_eq,
        };
        let fun = match slot {
            Some(f) => f,
            None => {
                return Err(
                    match kind {
                        BinKind::Add => PyErr::TypeError("no __add__ operation"),
                        BinKind::Lt => PyErr::TypeError("no __lt__ operation"),
                        BinKind::Eq => PyErr::TypeError("no __eq__ operation"),
                    },
                );
            },
        };
        let res = call_binop(rt, fun, left, right);
        self.finish(rt, res, Ghost(old(self)@), Ghost(2))
    }

    /// What ends an instruction that took its `k` operands off the stack
    /// and made a call with them, which gave `res`: the value is pushed,
    /// and the next instruction follows; a failure is the failure of the
    /// instruction.
    fn finish(
        &mut self,
        rt: &Runtime,
        res: PyRes<ObjId>,
        Ghost(pm): Ghost<MachineView>,
        Ghost(k): Ghost<int>,
    ) -> (r: PyRes<Flow>)
        requires
            old(self).pc < usize::MAX,
            0 <= k <= pm.stack.len(),
            old(self)@ == pm.popped(k),
            old(self).inv(*rt),
            res matches Ok(v) ==> rt.valid(v),
        ensures
            pushed_or_failed(pm, final(self)@, k, res, r),
            final(self).inv(*rt),
    {
        match res {
            Ok(v) => {
                self.push_next(v, Ghost(pm), Ghost(k));
                Ok(Flow::Next)
            },
            Err(e) => Err(e),
        }
    }

    /// `MakeFunction`: takes a name and a code object off the stack, and
    /// pushes a new function that captures the frame `env`.
    pub fn op_make_function(&mut self, rt: &mut Runtime, env: EnvId) -> (r: PyRes<Flow>)
        requires
            old(self).pc < usize::MAX,
            old(rt).wf(),
            old(rt).valid_env(env),
            old(self).inv(*old(rt)),
        ensures
            final(rt).wf(),
            final(rt).extends(*old(rt)),
            final(self).inv(*final(rt)),
            make_function_rel(old(self)@, final(self)@, *old(rt), *final(rt), env, r),
    {
        proof {
            lemma_extends_refl(*rt);
        }
        if self.stack.len() < 2 {
            return Err(PyErr::InvalidCode);
        }
        self.pop();
        let codeobj = self.pop();
        proof {
            assert(rt.valid(old(self).stack@[old(self).stack@.len() - 2]));
            assert(self@.stack =~= old(self)@.popped(2).stack);
        }
        match &rt.objects[codeobj].inner {
            PyInnerObject::CodeObj(_) => {},
            _ => {
                return Err(PyErr::TypeError("code object expected"));
            },
        }
        let f = PyObject::pyfun_new(rt, env, codeobj);
        self.push_next(f, Ghost(old(self)@), Ghost(2));
        Ok(Flow::Next)
    }

    /// `CallFunction`: takes `argcnt` arguments and, below them, a callable
    /// off the stack, calls the callable with the arguments, and pushes the
    /// result.
    pub fn op_call_function(&mut self, rt: &mut Runtime, argcnt: usize) -> (r: PyRes<Flow>)
        requires
            old(self).pc < usize::MAX,
            old(rt).wf(),
            old(self).inv(*old(rt)),
        ensures
            final(rt).wf(),
            final(rt).extends(*old(rt)),
            final(self).inv(*final(rt)),
            raised_ok(*final(rt), r),
            call_function_rel(old(self)@, final(self)@, *old(rt), *final(rt), argcnt, r),
        decreases old(rt).fuel, 4nat,
    {
        proof {
            lemma_extends_refl(*rt);
        }
        if self.stack.len() <= argcnt {
            return Err(PyErr::InvalidCode);
        }
        let args = self.pop_as_vec(argcnt);
        let fun = self.pop();
        proof {
            assert(self@.stack =~= old(self)@.popped(argcnt + 1).stack);
            assert(rt.valid(old(self).stack@[old(self).stack@.len() - argcnt - 1]));
            assert forall|j: int| 0 <= j < args@.len() implies rt.valid(#[trigger] args@[j]) by {
                assert(args@[j] == old(self).stack@[old(self).stack@.len() - argcnt + j]);
            }
        }
        let res = call_func(rt, fun, &args);
        self.finish(rt, res, Ghost(old(self)@), Ghost(argcnt + 1))
    }

    /// `ReturnValue`: takes the top value off the stack, for the frame to return it.
    pub fn op_return_value(&mut self) -> (r: PyRes<Flow>)
        ensures
            return_value_rel(old(self)@, final(self)@, r),
    {
        match self.pop_value() {
            Ok(v) => Ok(Flow::Return(v)),
            Err(e) => Err(e),
        }
    }

    /// `LoadAttr`: takes a value off the stack and pushes its attribute `id`.
    pub fn op_load_attr(&mut self, rt: &mut Runtime, id: &Id) -> (r: PyRes<Flow>)
        requires
            old(self).pc < usize::MAX,
            old(rt).wf(),
            old(self).inv(*old(rt)),
        ensures
            final(rt).wf(),
            final(rt).extends(*old(rt)),
            final(self).inv(*final(rt)),
            raised_ok(*final(rt), r),
            load_attr_rel(old(self)@, final(self)@, *old(rt), *final(rt), *id, r),
    {
        proof {
            lemma_extends_refl(*rt);
        }
        let v = match self.pop_value() {
            Ok(v) => v,
            Err(e) => {
                return Err(e);
            },
        };
        assert(rt.valid(old(self).stack@[old(self).stack@.len() - 1]));
        let attr = PyObject::from_string(rt, id.clone());
        let ghost mid = *rt;
        let res = pyobj_get_attr(rt, v, attr);
        proof {
            lemma_extends_trans(*old(rt), mid, *rt);
            assert(attr_read(*old(rt), mid, *id, v, *rt, res));
        }
        self.finish(rt, res, Ghost(old(self)@), Ghost(1))
    }

    /// `StoreAttr`: takes an object and, below it, a value off the stack, and
    /// writes the value to the attribute `id` of the object.
    pub fn op_store_attr(&mut self, rt: &mut Runtime, id: &Id) -> (r: PyRes<Flow>)
        requires
            old(self).pc < usize::MAX,
            old(rt).wf(),
            old(self).inv(*old(rt)),
        ensures
            final(rt).wf(),
            final(rt).extends(*old(rt)),
            final(self).inv(*final(rt)),
            raised_ok(*final(rt), r),
            store_attr_rel(old(self)@, final(self)@, *old(rt), *final(rt), *id, r),
    {
        proof {
            lemma_extends_refl(*rt);
        }
        if self.stack.len() < 2 {
            return Err(PyErr::InvalidCode);
        }
        let lv = self.pop();
        let rv = self.pop();
        proof {
            assert(lv == old(self)@.arg(0) && rv == old(self)@.arg(1));
            assert(rt.valid(old(self).stack@[old(self).stack@.len() - 1]));
            assert(rt.valid(old(self).stack@[old(self).stack@.len() - 2]));
            assert(self@.stack =~= old(self)@.popped(2).stack);
        }
        let attr = PyObject::from_string(rt, id.clone());
        let ghost mid = *rt;
        let res = pyobj_set_attr(rt, lv, attr, rv);
        proof {
            lemma_extends_trans(*old(rt), mid, *rt);
            assert(attr_written(*old(rt), mid, *id, lv, rv, *rt, res));
        }
        match res {
            Ok(()) => {},
            Err(e) => {
                return Err(e);
            },
        }
        self.next(Ghost(old(self)@), Ghost(2));
        Ok(Flow::Next)
    }

    /// `BinarySubScr`: takes an index and, below it, a container off the
    /// stack, and pushes the item of the container at the index. A list is
    /// indexed by an integer within its bounds; a dictionary by a key that it
    /// holds.
    pub fn op_binary_subscr(&mut self, rt: &Runtime) -> (r: PyRes<Flow>)
        requires
            old(self).pc < usize::MAX,
            rt.wf(),
            old(self).inv(*rt),
        ensures
            final(self).inv(*rt),
            !(r is Err && r->Err_0 is Raised),
            binary_subscr_rel(old(self)@, final(self)@, *rt, r),
    {
        if self.stack.len() < 2 {
            return Err(PyErr::InvalidCode);
        }
        let v2 = self.pop();
        let v1 = self.pop();
        proof {
            assert(v2 == old(self)@.arg(0) && v1 == old(self)@.arg(1));
            assert(rt.valid(old(self).stack@[old(self).stack@.len() - 1]));
            assert(rt.valid(old(self).stack@[old(self).stack@.len() - 2]));
            assert(self@.stack =~= old(self)@.popped(2).stack);
        }
        let res = subscript(rt, v1, v2);
        self.finish(rt, res, Ghost(old(self)@), Ghost(2))
    }

    /// `StoreSubScr`: takes a key, a dictionary below it and a value below
    /// that off the stack, and files the value in the dictionary under the
    /// key.
    pub fn op_store_subscr(&mut self, rt: &mut Runtime) -> (r: PyRes<Flow>)
        requires
            old(self).pc < usize::MAX,
            old(rt).wf(),
            old(self).inv(*old(rt)),
        ensures
            final(rt).wf(),
            final(rt).extends(*old(rt)),
            final(self).inv(*final(rt)),
            !(r is Err && r->Err_0 is Raised),
            store_subscr_rel(old(self)@, final(self)@, *old(rt), *final(rt), r),
    {
        proof {
            lemma_extends_refl(*rt);
        }
        if self.stack.len() < 3 {
            return Err(PyErr::InvalidCode);
        }
        let v2 = self.pop();
        let v1 = self.pop();
        let rv = self.pop();
        proof {
            assert(v2 == old(self)@.arg(0) && v1 == old(self)@.arg(1) && rv == old(self)@.arg(2));
            assert(rt.valid(old(self).stack@[old(self).stack@.len() - 1]));
            assert(rt.valid(old(self).stack@[old(self).stack@.len() - 2]));
            assert(rt.valid(old(self).stack@[old(self).stack@.len() - 3]));
            assert(self@.stack =~= old(self)@.popped(3).stack);
        }
        match PyObject::pydict_update(rt, v1, v2, rv) {
            Ok(()) => {},
            Err(e) => {
                return Err(e);
            },
        }
        self.next(Ghost(old(self)@), Ghost(3));
        Ok(Flow::Next)
    }

    /// `BuildList`: takes `len` values off the stack and pushes a new list
    /// of them, in the order in which they were pushed.
    pub fn op_build_list(&mut self, rt: &mut Runtime, len: usize) -> (r: PyRes<Flow>)
        requires
            old(self).pc < usize::MAX,
            old(rt).wf(),
            old(self).inv(*old(rt)),
        ensures
            final(rt).wf(),
            final(rt).extends(*old(rt)),
            final(self).inv(*final(rt)),
            build_list_rel(old(self)@, final(self)@, *old(rt), *final(rt), len, r),
    {
        proof {
            lemma_extends_refl(*rt);
        }
        let vs = match self.pop_values(len) {
            Ok(vs) => vs,
            Err(e) => {
                return Err(e);
            },
        };
        proof {
            assert forall|j: int| 0 <= j < vs@.len() implies rt.valid(#[trigger] vs@[j]) by {
                assert(vs@[j] == old(self).stack@[old(self).stack@.len() - len + j]);
            }
        }
        let list = PyObject::pylist_from_vec(rt, &vs);
        self.push_next(list, Ghost(old(self)@), Ghost(len as int));
        Ok(Flow::Next)
    }

    /// `BuildMap`: takes `len` pairs of a key and a value off the stack, and
    /// pushes a new dictionary in which each value is filed under its key,
    /// in the order in which the pairs were pushed.
    pub fn op_build_map(&mut self, rt: &mut Runtime, len: usize) -> (r: PyRes<Flow>)
        requires
            old(self).pc < usize::MAX,
            old(rt).wf(),
            old(self).inv(*old(rt)),
        ensures
            final(rt).wf(),
            final(rt).extends(*old(rt)),
            final(self).inv(*final(rt)),
            !(r is Err && r->Err_0 is Raised),
            build_map_rel(old(self)@, final(self)@, *old(rt), *final(rt), len, r),
    {
        proof {
            lemma_extends_refl(*rt);
        }
        if len > self.stack.len() / 2 {
            return Err(PyErr::InvalidCode);
        }
        let vs = self.pop_as_vec(len * 2);
        proof {
            assert(self@.stack =~= old(self)@.popped(2 * len).stack);
            assert forall|j: int| 0 <= j < vs@.len() implies rt.valid(#[trigger] vs@[j]) by {
                assert(vs@[j] == old(self).stack@[old(self).stack@.len() - 2 * len + j]);
            }
        }
        let dictobj = PyObject::pydict_new(rt);
        let ghost made = *rt;
        let mut res: PyRes<()> = Ok(());
        let mut i: usize = 0;
        while i < len && res.is_ok()
            invariant
                i <= len,
                vs@.len() == 2 * len,
                2 * len <= old(self).stack@.len(),
                rt.wf(),
                rt.extends(*old(rt)),
                rt.all_valid(vs@),
                rt.all_valid(self.stack@),
                dictobj == old(rt).objects@.len(),
                rt.valid(dictobj),
                pairs_filed(made, dictobj, vs@, i as nat, *rt, res),
                !(res is Err && res->Err_0 is Raised),
            decreases len - i,
        {
            let ghost before = *rt;
            let ghost was = res;
            assert(rt.valid(vs@[i * 2]) && rt.valid(vs@[i * 2 + 1]));
            res = PyObject::pydict_update(rt, dictobj, vs[i * 2], vs[i * 2 + 1]);
            i = i + 1;
            proof {
                lemma_extends_trans(*old(rt), before, *rt);
                assert(pair_filed(before, was, dictobj, vs@, i as nat, *rt, res));
            }
        }
        proof {
            lemma_pairs_filed_on(made, dictobj, vs@, i as nat, len as nat, *rt, res);
            assert(map_built(old(self)@, *old(rt), len, made, *rt, res));
        }
        match res {
            Ok(()) => {},
            Err(e) => {
                return Err(e);
            },
        }
        self.push_next(dictobj, Ghost(old(self)@), Ghost(2 * len));
        Ok(Flow::Next)
    }

    /// `PopJumpIfTrue`, `PopJumpIfFalse`: takes a value off the stack, and
    /// goes on at `addr` if the truth value of the value is `when`, else
    /// with the next instruction.
    pub fn op_pop_jump_if(&mut self, rt: &mut Runtime, addr: Addr, when: bool) -> (r: PyRes<Flow>)
        requires
            old(self).pc < usize::MAX,
            old(rt).wf(),
            old(self).inv(*old(rt)),
        ensures
            final(rt).wf(),
            final(rt).extends(*old(rt)),
            final(self).inv(*final(rt)),
            raised_ok(*final(rt), r),
            pop_jump_rel(old(self)@, final(self)@, *old(rt), *final(rt), addr, when, r),
        decreases old(rt).fuel, 4nat,
    {
        proof {
            lemma_extends_refl(*rt);
        }
        let cond = match self.pop_value() {
            Ok(v) => v,
            Err(e) => {
                return Err(e);
            },
        };
        assert(rt.valid(old(self).stack@[old(self).stack@.len() - 1]));
        let t = pyobj_to_bool(rt, cond);
        let r = match t {
            Ok(b) => {
                if b == when {
                    self.pc = addr;
                } else {
                    self.next(Ghost(old(self)@), Ghost(1));
                }
                Ok(Flow::Next)
            },
            Err(e) => Err(e),
        };
        proof {
            assert(jumped(old(self)@, self@, addr, when, t, r));
        }
        r
    }

    /// `JumpAbsolute`: goes on at `addr`.
    pub fn op_jump_absolute(&mut self, addr: Addr) -> (r: PyRes<Flow>)
        ensures
            r == Ok::<Flow, PyErr>(Flow::Next),
            final(self)@ == old(self)@.at(addr),
    {
        self.pc = addr;
        Ok(Flow::Next)
    }

    /// `SetupLoop`, `SetupExcept`: pushes a block of the given kind, whose
    /// handler is `offset` instructions on and whose level is the height of
    /// the value stack.
    pub fn op_setup(&mut self, b_type: BlockType, offset: Offset) -> (r: PyRes<Flow>)
        requires
            old(self).pc < usize::MAX,
        ensures
            setup_rel(old(self)@, final(self)@, b_type, offset, r),
    {
        let handler = match self.pc.checked_add(offset) {
            Some(h) => h,
            None => {
                return Err(PyErr::InvalidCode);
            },
        };
        self.blocks.push(Block { b_type: b_type, b_handler: handler, b_level: self.stack.len() });
        self.pc = self.pc + 1;
        Ok(Flow::Next)
    }

    /// `PopBlock`: takes the top block off the block stack, and cuts the
    /// value stack down to its level.
    pub fn op_pop_block(&mut self) -> (r: PyRes<Flow>)
        requires
            old(self).pc < usize::MAX,
        ensures
            pop_block_rel(old(self)@, final(self)@, r),
    {
        let block = match self.blocks.pop() {
            Some(b) => b,
            None => {
                return Err(PyErr::InvalidCode);
            },
        };
        self.unwind_stack(block.b_level);
        self.pc = self.pc + 1;
        Ok(Flow::Next)
    }

    /// `GetIter`: takes a value off the stack and pushes a new iterator over
    /// it, which the `iter` slot of its type makes.
    pub fn op_get_iter(&mut self, rt: &mut Runtime) -> (r: PyRes<Flow>)
        requires
            old(self).pc < usize::MAX,
            old(rt).wf(),
            old(self).inv(*old(rt)),
        ensures
            final(rt).wf(),
            final(rt).extends(*old(rt)),
            final(self).inv(*final(rt)),
            !(r is Err && r->Err_0 is Raised),
            get_iter_rel(old(self)@, final(self)@, *old(rt), *final(rt), r),
    {
        proof {
            lemma_extends_refl(*rt);
        }
        let v = match self.pop_value() {
            Ok(v) => v,
            Err(e) => {
                return Err(e);
            },
        };
        assert(rt.valid(old(self).stack@[old(self).stack@.len() - 1]));
        let res = match rt.typeobj_of(v).tp_iter {
            Some(GetIterFun::ListIter) => PyObject::pylist_iter(rt, v),
            None => {
                return Err(PyErr::TypeError("__iter__ is not found"));
            },
        };
        self.finish(rt, res, Ghost(old(self)@), Ghost(1))
    }

    /// `ForIter`: asks the iterator on top of the stack for its next item.
    /// An item is pushed, and execution goes on with the next instruction.
    /// At the end of the iteration the iterator is taken off the stack, and
    /// execution goes on at `addr`; an exception of the type `StopIteration`
    /// in the exception indicator ends the iteration as well, and is dropped.
    pub fn op_for_iter(&mut self, rt: &mut Runtime, addr: Addr) -> (r: PyRes<Flow>)
        requires
            old(self).pc < usize::MAX,
            old(rt).wf(),
            old(self).inv(*old(rt)),
        ensures
            final(rt).wf(),
            final(rt).extends(*old(rt)),
            final(self).inv(*final(rt)),
            raised_ok(*final(rt), r),
            for_iter_rel(old(self)@, final(self)@, *old(rt), *final(rt), addr, r),
    {
        proof {
            lemma_extends_refl(*rt);
        }
        if self.stack.len() < 1 {
            return Err(PyErr::InvalidCode);
        }
        let it = self.top();
        assert(rt.valid(old(self).stack@[old(self).stack@.len() - 1]));
        let next = match rt.typeobj_of(it).tp_iternext {
            Some(IterNextFun::ListIterNext) => PyObject::pylistiter_next(rt, it),
            None => {
                return Err(PyErr::TypeError("__next__ is not found"));
            },
        };
        match next {
            Ok(Some(item)) => {
                proof {
                    assert(self@.stack =~= old(self)@.popped(0).stack);
                }
                self.push_next(item, Ghost(old(self)@), Ghost(0));
                Ok(Flow::Next)
            },
            Ok(None) => {
                self.pop();
                self.pc = addr;
                proof {
                    assert(self@.stack =~= old(self)@.popped(1).at(addr).stack);
                }
                Ok(Flow::Next)
            },
            Err(PyErr::StopIteration) => {
                self.pop();
                self.pc = addr;
                Ok(Flow::Next)
            },
            Err(PyErr::Raised) => {
                if pyerr_check(rt, PY_STOPITERATION_TYPE) {
                    pyerr_clear(rt);
                    self.pop();
                    self.pc = addr;
                    Ok(Flow::Next)
                } else {
                    Err(PyErr::Raised)
                }
            },
            Err(e) => Err(e),
        }
    }

    /// `Raise`: takes a value off the stack and raises it. A type that
    /// descends from the base exception is called without arguments, and
    /// the instance is raised; an instance of such a type is raised as it
    /// is; anything else is an error. The instruction always fails: with
    /// `Raised` where the exception indicator has taken the exception.
    pub fn op_raise(&mut self, rt: &mut Runtime) -> (r: PyRes<Flow>)
        requires
            old(rt).wf(),
            old(self).inv(*old(rt)),
        ensures
            final(rt).wf(),
            final(rt).extends(*old(rt)),
            final(self).inv(*final(rt)),
            raised_ok(*final(rt), r),
            r is Err,
            raise_op_rel(old(self)@, final(self)@, *old(rt), *final(rt), r),
        decreases old(rt).fuel, 4nat,
    {
        proof {
            lemma_extends_refl(*rt);
        }
        let exc = match self.pop_value() {
            Ok(v) => v,
            Err(e) => {
                return Err(e);
            },
        };
        assert(rt.valid(old(self).stack@[old(self).stack@.len() - 1]));
        if PyObject::pyexc_is_exc_subclass(rt, exc) {
            let args: Vec<ObjId> = Vec::new();
            let res = type_call(rt, exc, &args);
            let ghost mid = *rt;
            let r = match res {
                Ok(inst) => {
                    pyerr_set(rt, inst);
                    proof {
                        assert(rt.extends(mid)) by {
                            lemma_extends_refl(mid);
                        }
                        lemma_extends_trans(*old(rt), mid, *rt);
                    }
                    Err(PyErr::Raised)
                },
                Err(e) => Err(e),
            };
            proof {
                assert(raised_as(mid, res, *rt, r));
            }
            r
        } else if PyObject::pyexc_is_exc_instance(rt, exc) {
            pyerr_set(rt, exc);
            proof {
                assert(rt.extends(*old(rt))) by {
                    lemma_extends_refl(*old(rt));
                }
            }
            Err(PyErr::Raised)
        } else {
            Err(PyErr::TypeError("raise expects exception type or exception instance"))
        }
    }

    /// `MakeClass`: takes a name, a code object below it and `nbases` bases
    /// below that off the stack; runs the code, which is the body of the
    /// class, in a new frame under `env`; calls `type` with the name, a new
    /// list of the bases and a new dictionary of the bindings that the body
    /// made; and pushes the class that the call gives.
    pub fn op_make_class(&mut self, rt: &mut Runtime, env: EnvId, nbases: usize) -> (r: PyRes<
        Flow,
    >)
        requires
            old(self).pc < usize::MAX,
            old(rt).wf(),
            old(rt).valid_env(env),
            old(self).inv(*old(rt)),
        ensures
            final(rt).wf(),
            final(rt).extends(*old(rt)),
            final(self).inv(*final(rt)),
            raised_ok(*final(rt), r),
            make_class_rel(old(self)@, final(self)@, *old(rt), *final(rt), env, nbases, r),
        decreases old(rt).fuel, 5nat,
    {
        proof {
            lemma_extends_refl(*rt);
        }
        if self.stack.len() < 2 || self.stack.len() - 2 < nbases {
            return Err(PyErr::InvalidCode);
        }
        let nameobj = self.pop();
        let codeobj = self.pop();
        let bases_vec = self.pop_as_vec(nbases);
        let ghost pm = old(self)@;
        proof {
            assert(rt.valid(old(self).stack@[old(self).stack@.len() - 1]));
            assert(rt.valid(old(self).stack@[old(self).stack@.len() - 2]));
            assert(self@.stack =~= pm.popped(nbases + 2).stack);
            assert(nameobj == pm.arg(0) && codeobj == pm.arg(1));
            assert(bases_vec@ =~= pm.stack.subrange(pm.stack.len() - 2 - nbases, pm.stack.len() - 2));
            assert forall|j: int| 0 <= j < bases_vec@.len() implies rt.valid(
                #[trigger] bases_vec@[j],
            ) by {
                assert(bases_vec@[j] == old(self).stack@[old(self).stack@.len() - 2 - nbases + j]);
            }
        }
        let code = match &rt.objects[codeobj].inner {
            PyInnerObject::CodeObj(_) => rt.objects[codeobj].pycode_code(),
            _ => {
                return Err(PyErr::TypeError("code object expected"));
            },
        };
        let cls = build_class(rt, env, nameobj, &code, &bases_vec);
        proof {
            rt.lemma_valid_later(*old(rt), self.stack@);
        }
        self.finish(rt, cls, Ghost(pm), Ghost(nbases + 2))
    }

    /// Executes one instruction.
    pub fn step(&mut self, rt: &mut Runtime, op: &Opcode, env: EnvId) -> (r: PyRes<Flow>)
        requires
            old(self).pc < usize::MAX,
            old(rt).wf(),
            old(rt).valid_env(env),
            old(self).inv(*old(rt)),
        ensures
            final(rt).wf(),
            final(rt).extends(*old(rt)),
            final(self).inv(*final(rt)),
            raised_ok(*final(rt), r),
            r matches Ok(Flow::Return(v)) ==> final(rt).valid(v),
            step_rel(*op, old(self)@, final(self)@, *old(rt), *final(rt), env, r),
        decreases old(rt).fuel, 6nat,
    {
        proof {
            lemma_extends_refl(*rt);
        }
        match op {
            Opcode::PopTop => {
                let r = self.op_pop_top();
                proof {
                    lemma_popped_valid(old(self)@, self@, *rt, 1);
                }
                r
            },
            Opcode::LoadConst(cnst) => self.op_load_const(rt, *cnst),
            Opcode::LoadName(id) => self.op_load_name(rt, env, id),
            Opcode::StoreName(id) => self.op_store_name(rt, env, id),
            Opcode::BinaryAdd => self.op_binary(rt, BinKind::Add),
            Opcode::BinaryLt => self.op_binary(rt, BinKind::Lt),
            Opcode::BinaryEq => self.op_binary(rt, BinKind::Eq),
            Opcode::MakeFunction => self.op_make_function(rt, env),
            Opcode::CallFunction(argcnt) => self.op_call_function(rt, *argcnt),
            Opcode::ReturnValue => {
                let r = self.op_return_value();
                proof {
                    if old(self).stack@.len() > 0 {
                        assert(rt.valid(old(self).stack@[old(self).stack@.len() - 1]));
                    }
                    lemma_popped_valid(old(self)@, self@, *rt, 1);
                }
                r
            },
            Opcode::LoadAttr(id) => self.op_load_attr(rt, id),
            Opcode::StoreAttr(id) => self.op_store_attr(rt, id),
            Opcode::BinarySubScr => self.op_binary_subscr(rt),
            Opcode::StoreSubScr => self.op_store_subscr(rt),
            Opcode::BuildList(len) => self.op_build_list(rt, *len),
            Opcode::BuildMap(len) => self.op_build_map(rt, *len),
            Opcode::PopJumpIfTrue(addr) => self.op_pop_jump_if(rt, *addr, true),
            Opcode::PopJumpIfFalse(addr) => self.op_pop_jump_if(rt, *addr, false),
            Opcode::JumpAbsolute(addr) => self.op_jump_absolute(*addr),
            Opcode::SetupLoop(offset) => self.op_setup(BlockType::LoopBlock, *offset),
            Opcode::BreakLoop => Ok(Flow::Break),
            Opcode::ContinueLoop(addr) => Ok(Flow::Continue(*addr)),
            Opcode::GetIter => self.op_get_iter(rt),
            Opcode::ForIter(addr) => self.op_for_iter(rt, *addr),
            Opcode::SetupExcept(offset) => self.op_setup(BlockType::TryBlock, *offset),
            Opcode::Raise => self.op_raise(rt),
            Opcode::PopBlock => {
                let r = self.op_pop_block();
                proof {
                    if old(self).blocks@.len() > 0 {
                        let level = old(self).blocks@.last().b_level;
                        if old(self).stack@.len() > level {
                            lemma_popped_valid(
                                old(self)@,
                                self@,
                                *rt,
                                old(self).stack@.len() - level,
                            );
                        }
                    }
                }
                r
            },
            Opcode::MakeClass(nbases) => self.op_make_class(rt, env, *nbases),
            Opcode::Panic => Err(PyErr::AssertionError),
        }
    }

    /// Ends a cycle whose instruction gave `res`: raises a failure, and
    /// unwinds the block stack for the reason that the instruction gave.
    /// Returns the result of the frame, where the frame ends with the
    /// cycle, and the cycle, which began in the machine `m0` and the runtime
    /// `rt0`.
    fn conclude(
        &mut self,
        rt: &mut Runtime,
        res: PyRes<Flow>,
        Ghost(m0): Ghost<MachineView>,
        Ghost(rt0): Ghost<Runtime>,
    ) -> (out: (Option<PyRes<ObjId>>, Ghost<Cycle>))
        requires
            old(rt).wf(),
            old(self).inv(*old(rt)),
            raised_ok(*old(rt), res),
            res matches Ok(Flow::Return(v)) ==> old(rt).valid(v),
        ensures
            final(rt).wf(),
            final(rt).extends(*old(rt)),
            final(self).inv(*final(rt)),
            out.1@.m0 == m0,
            out.1@.rt0 == rt0,
            out.1@.m1 == old(self)@,
            out.1@.rt1 == *old(rt),
            out.1@.res == res,
            cycle_ends(out.1@),
            *final(rt) == out.1@.last_rt(),
            final(self)@ == out.1@.last_m(),
            match out.0 {
                Some(r) => !out.1@.goes_on() && r == out.1@.result() && settled(*final(rt), r)
                    && (!out.1@.fatal() ==> final(self).blocks@.len() == 0 && final(self).pc
                    == old(self).pc),
                None => out.1@.goes_on() && final(self)@ == out.1@.m3() && *final(rt)
                    == out.1@.rt3,
            },
        decreases old(rt).fuel, 3nat,
    {
        proof {
            lemma_extends_refl(*rt);
        }
        let mut why = Why::WhyNot;
        let mut retval: Option<ObjId> = None;
        let mut cont: Addr = 0;
        let mut fatal: Option<PyErr> = None;
        let ghost mut err = PyErr::Raised;
        match res {
            Ok(Flow::Next) => {},
            Ok(Flow::Return(v)) => {
                why = Why::WhyReturn;
                retval = Some(v);
            },
            Ok(Flow::Break) => {
                why = Why::WhyBreak;
            },
            Ok(Flow::Continue(addr)) => {
                why = Why::WhyContinue;
                cont = addr;
            },
            Err(e) => {
                let e = raise(rt, e);
                proof {
                    err = e;
                }
                if e.is_fatal() {
                    fatal = Some(e);
                }
                why = Why::WhyException;
            },
        }
        let ghost raised = *rt;
        let mut outcome: Option<PyRes<ObjId>> = None;
        match fatal {
            Some(e) => {
                outcome = Some(Err(e));
            },
            None => {
                if why != Why::WhyNot {
                    let left = self.unwind(rt, why, cont);
                    proof {
                        if left != Why::WhyNot {
                            lemma_unwind_unanswered(
                                old(self).blocks@,
                                old(self).stack@,
                                old(self).pc,
                                why,
                                cont,
                            );
                        }
                        assert(rt.extends(raised)) by {
                            assert(crate::object::objs_extend(raised.objects@, raised.objects@));
                            assert(crate::object::envs_extend(raised.envs@, raised.envs@));
                        }
                        lemma_extends_trans(*old(rt), raised, *rt);
                        lemma_popped_valid(
                            old(self)@,
                            self@,
                            *rt,
                            old(self).stack@.len() - self.stack@.len(),
                        );
                    }
                    match left {
                        Why::WhyNot => {},
                        Why::WhyReturn => {
                            outcome = Some(
                                match retval {
                                    Some(v) => Ok(v),
                                    None => Err(PyErr::InvalidCode),
                                },
                            );
                        },
                        Why::WhyException => {
                            outcome = Some(Err(PyErr::Raised));
                        },
                        Why::WhyBreak => {
                            outcome = Some(Err(PyErr::InvalidCode));
                        },
                        Why::WhyContinue => {
                            outcome = Some(Err(PyErr::InvalidCode));
                        },
                    }
                }
            },
        }
        let ghost c = Cycle {
            m0: m0,
            rt0: rt0,
            m1: old(self)@,
            rt1: *old(rt),
            res: res,
            rt2: raised,
            err: err,
            rt3: *rt,
        };
        proof {
            assert(cycle_ends(c));
        }
        (outcome, Ghost(c))
    }

    /// Runs the code `code` in the frame `env`, from the machine's program
    /// counter on, until the frame returns or fails.
    ///
    /// Each instruction uses up one step of the budget. A failure that an
    /// instruction reports is raised: the built-in exception that it stands
    /// for is made and put into the exception indicator. The block stack is
    /// then unwound as [`spec_unwind`] says, and so it is for a `return`, a
    /// `break` and a `continue`. The frame returns the value of a
    /// `ReturnValue` instruction once no block is left, or the `None`
    /// object where control runs off the end of the code. It fails with
    /// `Raised` where no block takes an exception, and with the error that
    /// ends the program where there is one.
    pub fn exec(&mut self, rt: &mut Runtime, code: &Code, env: EnvId) -> (r: PyRes<ObjId>)
        requires
            old(rt).wf(),
            old(rt).valid_env(env),
            old(self).inv(*old(rt)),
        ensures
            final(rt).wf(),
            final(rt).extends(*old(rt)),
            settled(*final(rt), r),
            execs(*old(rt), old(self)@, code@, env, *final(rt), final(self)@, r),
            (r is Ok && final(self).pc < code@.len()) || (r is Err && r->Err_0 is Raised)
                ==> final(self).blocks@.len() == 0,
        decreases old(rt).fuel, 0nat,
    {
        proof {
            lemma_extends_refl(*rt);
        }
        let ghost mut trace: Seq<Cycle> = Seq::empty();
        while self.pc < code.len()
            invariant
                rt.wf(),
                rt.extends(*old(rt)),
                rt.valid_env(env),
                self.inv(*rt),
                linked(old(self)@, *old(rt), trace),
                forall|i: int| 0 <= i < trace.len() ==> cycle_ok(code@, env, #[trigger] trace[i]),
                trace.len() == 0 ==> self@ == old(self)@ && *rt == *old(rt),
                trace.len() > 0 ==> trace.last().goes_on() && trace.last().m3() == self@
                    && trace.last().rt3 == *rt,
            decreases rt.fuel,
        {
            let ghost top = *rt;
            let ghost m0 = self@;
            if !rt.burn() {
                proof {
                    assert(runs(
                        code@,
                        env,
                        old(self)@,
                        *old(rt),
                        trace,
                        *rt,
                        Err(PyErr::OutOfFuel),
                    ));
                }
                return Err(PyErr::OutOfFuel);
            }
            let ghost burned = *rt;
            proof {
                lemma_extends_trans(*old(rt), top, burned);
                assert(burned == burnt(top));
            }
            let res = self.step(rt, &code[self.pc], env);
            let ghost after = *rt;
            let ghost m1 = self@;
            proof {
                lemma_extends_trans(*old(rt), burned, after);
            }
            let (outcome, Ghost(c)) = self.conclude(rt, res, Ghost(m0), Ghost(top));
            proof {
                lemma_extends_trans(*old(rt), after, *rt);
                assert(cycle_ok(code@, env, c));
                lemma_linked_push(old(self)@, *old(rt), trace, c);
                lemma_cycles_push(code@, env, trace, c);
                trace = trace.push(c);
            }
            match outcome {
                Some(r) => {
                    proof {
                        assert(runs(code@, env, old(self)@, *old(rt), trace, *rt, r));
                    }
                    return r;
                },
                None => {},
            }
        }
        proof {
            assert(runs(
                code@,
                env,
                old(self)@,
                *old(rt),
                trace,
                *rt,
                Ok(crate::object::PY_NONE_OBJECT),
            ));
        }
        Ok(PyObject::none_obj())
    }
}

/// Code without instructions gives the `None` object, and leaves the
/// runtime as it is.
pub proof fn lemma_empty_code(prt: Runtime, env: EnvId, rt: Runtime, r: PyRes<ObjId>)
    requires
        evals(prt, Seq::empty(), env, rt, r),
    ensures
        rt == prt,
        r == Ok::<ObjId, PyErr>(crate::object::PY_NONE_OBJECT),
{
    reveal_with_fuel(evals, 4);
    let code = Seq::<Opcode>::empty();
    let m = MachineView { pc: 0, stack: Seq::empty(), blocks: Seq::empty() };
    let trace = choose|trace: Seq<Cycle>| #[trigger]
        linked(m, prt, trace) && runs(code, env, m, prt, trace, rt, r);
    if trace.len() > 0 {
        assert(cycle_ok(code, env, trace[0]));
    }
}

/// The machine `m` is `pm` with the top `k` values taken off the value
/// stack, or `pm` itself: its values are objects of `rt`, if those of `pm`
/// are.
pub proof fn lemma_popped_valid(pm: MachineView, m: MachineView, rt: Runtime, k: int)
    requires
        rt.all_valid(pm.stack),
        0 <= k,
        m.stack == pm.stack || (k <= pm.stack.len() && m.stack == pm.stack.take(
            pm.stack.len() - k,
        )),
    ensures
        rt.all_valid(m.stack),
{
    assert forall|j: int| 0 <= j < m.stack.len() implies rt.valid(#[trigger] m.stack[j]) by {
        assert(m.stack[j] == pm.stack[j]);
    }
}

/// Cycles that follow one another, the last of which goes on, are followed
/// by a cycle that begins where the last ends.
pub proof fn lemma_linked_push(m: MachineView, prt: Runtime, trace: Seq<Cycle>, c: Cycle)
    requires
        linked(m, prt, trace),
        c.rt0.fuel <= prt.fuel,
        trace.len() == 0 ==> c.m0 == m && c.rt0 == prt,
        trace.len() > 0 ==> trace.last().goes_on() && trace.last().m3() == c.m0
            && trace.last().rt3 == c.rt0,
    ensures
        linked(m, prt, trace.push(c)),
{
    let longer = trace.push(c);
    assert(longer.len() == trace.len() + 1);
    assert(longer[trace.len() as int] == c);
    assert forall|i: int| 0 <= i < trace.len() implies longer[i] == trace[i] by {}
    assert forall|i: int| 0 <= i < longer.len() - 1 implies (#[trigger] longer[i]).goes_on()
        && longer[i + 1].m0 == longer[i].m3() && longer[i + 1].rt0 == longer[i].rt3 by {
        if i < trace.len() - 1 {
            assert(longer[i] == trace[i]);
            assert(longer[i + 1] == trace[i + 1]);
            assert(trace[i].goes_on());
        } else {
            assert(longer[i] == trace.last());
            assert(longer[i + 1] == c);
        }
    }
    assert forall|i: int| 0 <= i < longer.len() implies (#[trigger] longer[i]).rt0.fuel
        <= prt.fuel by {
        if i < trace.len() {
            assert(longer[i] == trace[i]);
        }
    }
}

/// Cycles of the machine, and one more, are cycles of the machine.
pub proof fn lemma_cycles_push(code: Seq<Opcode>, env: EnvId, trace: Seq<Cycle>, c: Cycle)
    requires
        forall|i: int| 0 <= i < trace.len() ==> cycle_ok(code, env, #[trigger] trace[i]),
        cycle_ok(code, env, c),
    ensures
        forall|i: int|
            0 <= i < trace.push(c).len() ==> cycle_ok(code, env, #[trigger] trace.push(c)[i]),
{
    let longer = trace.push(c);
    assert forall|i: int| 0 <= i < longer.len() implies cycle_ok(code, env, #[trigger] longer[i]) by {
        if i < trace.len() {
            assert(longer[i] == trace[i]);
        } else {
            assert(longer[i] == c);
        }
    }
}

/// Pairs that were filed up to a failure, or all of them, are what
/// [`pairs_filed`] says of all of them.
pub proof fn lemma_pairs_filed_on(
    prt: Runtime,
    d: ObjId,
    vs: Seq<ObjId>,
    i: nat,
    n: nat,
    rt: Runtime,
    res: PyRes<()>,
)
    requires
        pairs_filed(prt, d, vs, i, rt, res),
        i <= n,
        i < n ==> res is Err,
    ensures
        pairs_filed(prt, d, vs, n, rt, res),
    decreases n - i,
{
    if i < n {
        assert(pair_filed(rt, res, d, vs, (i + 1) as nat, rt, res));
        assert(pairs_filed(prt, d, vs, (i + 1) as nat, rt, res));
        lemma_pairs_filed_on(prt, d, vs, (i + 1) as nat, n, rt, res);
    }
}

/// Makes a class of the name `name`, the body `code` and the bases `bases`:
/// runs the body in a new frame under `env`, and calls `type` with the
/// name, a new list of the bases and a new dictionary of the bindings that
/// the body made.
pub fn build_class(rt: &mut Runtime, env: EnvId, name: ObjId, code: &Code, bases: &Vec<ObjId>) -> (cls:
    PyRes<ObjId>)
    requires
        old(rt).wf(),
        old(rt).valid_env(env),
        old(rt).valid(name),
        old(rt).all_valid(bases@),
    ensures
        final(rt).wf(),
        final(rt).extends(*old(rt)),
        raised_ok(*final(rt), cls),
        cls matches Ok(v) ==> final(rt).valid(v),
        class_rel(*old(rt), env, name, code@, bases@, *final(rt), cls),
    decreases old(rt).fuel, 4nat,
{
    let list = PyObject::pylist_from_vec(rt, bases);
    let ghost m1 = *rt;
    let no_keys: Vec<Id> = Vec::new();
    let no_vals: Vec<ObjId> = Vec::new();
    let frame = Env::new_child(rt, env, &no_keys, &no_vals);
    let ghost m2 = *rt;
    proof {
        lemma_extends_trans(*old(rt), m1, m2);
        assert(list == old(rt).objects@.len() as usize);
        assert(frame == m1.envs@.len() as usize);
        assert(class_begun(*old(rt), env, bases@, m1, m2));
    }
    let body = eval(rt, code, frame);
    let ghost m3 = *rt;
    proof {
        lemma_extends_trans(*old(rt), m2, m3);
        assert(settled(m3, body));
    }
    let cls = match body {
        Ok(_) => {
            let cls = class_of(rt, name, list, frame);
            proof {
                lemma_extends_trans(*old(rt), m3, *rt);
            }
            cls
        },
        Err(e) => Err(e),
    };
    proof {
        assert(class_body_rel(name, code@, list, frame, m2, *rt, cls));
    }
    cls
}

/// Makes a class of the name `name`, the list `bases` of its bases and the
/// bindings of the frame `frame`, in which its body ran: calls `type` with
/// the name, the list and a new dictionary of the bindings.
pub fn class_of(rt: &mut Runtime, name: ObjId, bases: ObjId, frame: EnvId) -> (cls: PyRes<ObjId>)
    requires
        old(rt).wf(),
        old(rt).valid(name),
        old(rt).valid(bases),
        old(rt).valid_env(frame),
    ensures
        final(rt).wf(),
        final(rt).extends(*old(rt)),
        raised_ok(*final(rt), cls),
        cls matches Ok(v) ==> final(rt).valid(v),
        class_called(name, bases, frame, *old(rt), *final(rt), cls),
    decreases old(rt).fuel, 3nat,
{
    let dictobj = Env::dictobj(rt, frame);
    let ghost m4 = *rt;
    proof {
        assert(dictobj == old(rt).objects@.len() as usize);
    }
    let mut args: Vec<ObjId> = Vec::new();
    args.push(name);
    args.push(bases);
    args.push(dictobj);
    proof {
        m4.lemma_obj(PY_TYPE_TYPE);
        assert(args@ =~= seq![name, bases, dictobj]);
    }
    let cls = match rt.typeobj(PY_TYPE_TYPE).tp_call {
        Some(tp_call) => call_varargfun(rt, tp_call, PY_TYPE_TYPE, &args),
        None => Err(PyErr::TypeError("callable object expected")),
    };
    proof {
        lemma_extends_trans(*old(rt), m4, *rt);
    }
    cls
}

/// The item of the list `v1` at the integer `v2`, or the value that the
/// dictionary `v1` files under the key `v2`.
pub fn subscript(rt: &Runtime, v1: ObjId, v2: ObjId) -> (r: PyRes<ObjId>)
    requires
        rt.wf(),
        rt.valid(v1),
        rt.valid(v2),
    ensures
        subscript_rel(*rt, v1, v2, r),
        r matches Ok(v) ==> rt.valid(v),
{
    proof {
        rt.lemma_obj(v1);
    }
    if rt.objects[v1].pylist_check() {
        let is_list = match &rt.objects[v1].inner {
            PyInnerObject::ListObj(_) => true,
            _ => false,
        };
        if !is_list {
            return Err(PyErr::TypeError("__getitem__ expects list object"));
        }
        let index = match pyobj_to_i32(rt, v2) {
            Ok(i) => i,
            Err(e) => {
                return Err(e);
            },
        };
        if index < 0 {
            return Err(PyErr::IndexError("list index out of range"));
        }
        PyObject::pylist_getitem(rt, v1, index as usize)
    } else if rt.objects[v1].pydict_check() {
        match PyObject::pydict_lookup(rt, v1, v2) {
            Ok(Some(v)) => Ok(v),
            Ok(None) => Err(PyErr::TypeError("item not found")),
            Err(e) => Err(e),
        }
    } else {
        Err(PyErr::TypeError("subscripting not supported"))
    }
}

/// Raises the failure `e`: where it stands for a built-in exception that has
/// still to be made, the exception is made, with the message of the failure,
/// and put into the exception indicator. Returns the error with which the
/// failure goes on.
pub fn raise(rt: &mut Runtime, e: PyErr) -> (r: PyErr)
    requires
        old(rt).wf(),
        e is Raised ==> old(rt).exc is Some,
    ensures
        final(rt).wf(),
        final(rt).extends(*old(rt)),
        r is Raised || r.spec_is_fatal(),
        r is Raised ==> final(rt).exc is Some,
        raise_rel(*old(rt), e, *final(rt), r),
    decreases old(rt).fuel, 2nat,
{
    proof {
        lemma_extends_refl(*rt);
    }
    match e.exc_type() {
        Some(t) => pyerr_set_string(rt, t, e.message()),
        None => e,
    }
}

/// Runs the code `code` in the frame `env` on a new machine, and returns the
/// value of its `ReturnValue` instruction, or the `None` object where
/// control runs off the end of the code.
pub fn eval(rt: &mut Runtime, code: &Code, env: EnvId) -> (r: PyRes<ObjId>)
    requires
        old(rt).wf(),
        old(rt).valid_env(env),
    ensures
        final(rt).wf(),
        final(rt).extends(*old(rt)),
        settled(*final(rt), r),
        evals(*old(rt), code@, env, *final(rt), r),
    decreases old(rt).fuel, 1nat,
{
    let mut stack_machine = StackMachine::new();
    proof {
        assert(stack_machine@.stack =~= Seq::<ObjId>::empty());
        assert(stack_machine@.blocks =~= Seq::<Block>::empty());
    }
    stack_machine.exec(rt, code, env)
}

} // verus!

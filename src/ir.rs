//! The intermediate representation that the generators emit: expressions,
//! instructions, basic blocks, the control-flow graph with its block cursor,
//! and the variable table with its dirty-tracker stack.
use vstd::prelude::*;

verus! {

/// Value types of the intermediate representation.
#[derive(Debug)]
pub enum Type {
    Bool,
    Uint(u16),
    Address,
    String,
    DynamicBytes,
    /// A fixed-size byte array of the given width.
    Bytes(u8),
    AccountInfo,
    AccountMeta,
    /// An array of elements; `None` is a dynamic length.
    Array(Box<Type>, Option<u64>),
    Slice(Box<Type>),
    Ref(Box<Type>),
}

/// Values supplied by the runtime.
#[derive(Clone, Copy, Debug, PartialEq, Eq, Structural)]
pub enum Builtin {
    /// The array of account records of the transaction.
    Accounts,
    /// The length of the array given as argument.
    ArrayLength,
    /// The identity of the running program.
    ProgramId,
    /// The address of the contract's own storage account.
    GetAddress,
}

/// Expressions of the intermediate representation (the closed set the
/// generators use).
#[derive(Debug)]
pub enum Expression {
    NumberLiteral { bits: u16, value: u64 },
    AddressLiteral { bytes: [u8; 32] },
    BoolLiteral { value: bool },
    Variable { ty: Type, var_no: usize },
    Builtin { ty: Type, kind: Builtin, args: Vec<Expression> },
    Subscript { ty: Type, array: Box<Expression>, index: Box<Expression> },
    StructMember { ty: Type, expr: Box<Expression>, field: usize },
    GetRef { expr: Box<Expression> },
    BitwiseAnd { left: Box<Expression>, right: Box<Expression> },
    More { left: Box<Expression>, right: Box<Expression> },
    MoreEqual { left: Box<Expression>, right: Box<Expression> },
    Equal { left: Box<Expression>, right: Box<Expression> },
    Add { bits: u16, left: Box<Expression>, right: Box<Expression> },
    Multiply { bits: u16, left: Box<Expression>, right: Box<Expression> },
    /// A freshly allocated byte buffer of `size` bytes, optionally initialised.
    AllocDynamicBytes { ty: Type, size: Box<Expression>, init: Option<Vec<u8>> },
    ArrayLiteral { ty: Type, dims: Vec<u32>, values: Vec<Expression> },
    StructLiteral { ty: Type, values: Vec<Expression> },
    /// A one-byte value reinterpreted as a byte slice of length one.
    ByteToSlice { expr: Box<Expression> },
}

/// The distinguished codes a generated function may return.
#[derive(Clone, Copy, Debug, PartialEq, Eq, Structural)]
pub enum ReturnCode {
    InvalidProgramId,
    AccountDataTooSmall,
}

/// Instructions (the closed set the generators use).
#[derive(Debug)]
pub enum Instr {
    BranchCond { cond: Expression, true_block: usize, false_block: usize },
    Branch { block: usize },
    Assign { res: usize, expr: Expression },
    Print { expr: Expression },
    AssertFailure,
    WriteBuffer { buf: Expression, offset: Expression, value: Expression },
    SetStorage { ty: Type, value: Expression, storage: Expression },
    ExternalCall {
        address: Expression,
        accounts: Expression,
        seeds: Option<Expression>,
        payload: Expression,
        value: Expression,
        gas: Expression,
    },
    Return { value: Vec<Expression> },
    ReturnCode { code: ReturnCode },
}

/// The names that generated blocks carry.
#[derive(Clone, Copy, Debug, PartialEq, Eq, Structural)]
pub enum BlockName {
    Entry,
    InBounds,
    OutOfBounds,
    AccountValidated(usize),
    ValidationFailed(usize),
    ProgramIdFail,
    ProgramIdOk,
    AccountExists,
    CreateAccount,
    AccountOk,
    NotEnough,
}

#[derive(Debug)]
pub struct BasicBlock {
    pub name: BlockName,
    pub instrs: Vec<Instr>,
    pub phis: Option<Vec<usize>>,
}

/// What a graph was generated for.
#[derive(Clone, Copy, Debug, PartialEq, Eq, Structural)]
pub enum GraphKind {
    Function,
    Preamble,
}

/// A control-flow graph: its blocks, indexed by block number, and the cursor
/// naming the block that instructions are appended to.
#[derive(Debug)]
pub struct ControlFlowGraph {
    pub name: String,
    pub kind: GraphKind,
    pub blocks: Vec<BasicBlock>,
    pub current: usize,
}

#[derive(Debug)]
pub struct Variable {
    pub id: usize,
    pub name: String,
    pub ty: Type,
}

/// The variable table. Every variable assigned while a dirty-tracker frame is
/// open is logged in `dirty`; `frames` holds, for each open frame, the length
/// of that log when the frame was pushed.
#[derive(Debug)]
pub struct Vartable {
    pub vars: Vec<Variable>,
    pub next_id: usize,
    pub dirty: Vec<usize>,
    pub frames: Vec<usize>,
}

impl Vartable {
    pub open spec fn wf(&self) -> bool {
        forall|i: int| 0 <= i < self.frames@.len() ==> #[trigger] self.frames@[i] <= self.dirty@.len()
    }

    /// The variables assigned since the innermost frame was pushed.
    pub open spec fn top_dirty(&self) -> Seq<usize> {
        self.dirty@.subrange(self.frames@.last() as int, self.dirty@.len() as int)
    }

    /// `after` is this table once `var` has been assigned: the assignment is
    /// logged when a frame is open.
    pub open spec fn marked(&self, var: usize, after: Vartable) -> bool {
        &&& after.vars == self.vars
        &&& after.next_id == self.next_id
        &&& after.frames == self.frames
        &&& after.dirty@ == if self.frames@.len() > 0 {
            self.dirty@.push(var)
        } else {
            self.dirty@
        }
    }

    pub fn new(next_id: usize) -> (r: Vartable)
        ensures
            r.wf(),
            r.vars@.len() == 0,
            r.next_id == next_id,
            r.dirty@.len() == 0,
            r.frames@.len() == 0,
    {
        Vartable { vars: Vec::new(), next_id, dirty: Vec::new(), frames: Vec::new() }
    }

    /// Allocates a fresh variable number for a temporary.
    pub fn temp_name(&mut self, name: String, ty: Type) -> (r: usize)
        requires
            old(self).next_id < usize::MAX,
        ensures
            r == old(self).next_id,
            final(self).next_id == old(self).next_id + 1,
            final(self).vars@ == old(self).vars@.push(Variable { id: r, name, ty }),
            final(self).dirty == old(self).dirty,
            final(self).frames == old(self).frames,
    {
        let id = self.next_id;
        self.next_id = id + 1;
        self.vars.push(Variable { id, name, ty });
        id
    }

    /// Records a variable whose number was allocated elsewhere.
    pub fn add_known(&mut self, id: usize, name: String, ty: Type)
        ensures
            final(self).vars@ == old(self).vars@.push(Variable { id, name, ty }),
            final(self).next_id == old(self).next_id,
            final(self).dirty == old(self).dirty,
            final(self).frames == old(self).frames,
    {
        self.vars.push(Variable { id, name, ty });
    }

    /// Opens a dirty-tracker frame, on entry to a branch.
    pub fn new_dirty_tracker(&mut self)
        requires
            old(self).wf(),
        ensures
            final(self).wf(),
            final(self).frames@ == old(self).frames@.push(old(self).dirty@.len() as usize),
            final(self).dirty == old(self).dirty,
            final(self).vars == old(self).vars,
            final(self).next_id == old(self).next_id,
    {
        let n = self.dirty.len();
        self.frames.push(n);
        assert(forall|i: int| 0 <= i < self.frames@.len() ==> #[trigger] self.frames@[i] <= self.dirty@.len());
    }

    /// Logs an assignment of `var` in every open frame.
    pub fn set_dirty(&mut self, var: usize)
        requires
            old(self).wf(),
        ensures
            old(self).marked(var, *final(self)),
            final(self).wf(),
    {
        if self.frames.len() > 0 {
            self.dirty.push(var);
        }
    }

    /// Closes the innermost frame at a merge point, returning the variables
    /// assigned since it was opened: the phi set of the merge block.
    pub fn pop_dirty_tracker(&mut self) -> (r: Vec<usize>)
        requires
            old(self).wf(),
            old(self).frames@.len() > 0,
        ensures
            final(self).wf(),
            r@ == old(self).top_dirty(),
            final(self).frames@ == old(self).frames@.drop_last(),
            final(self).dirty == old(self).dirty,
            final(self).vars == old(self).vars,
            final(self).next_id == old(self).next_id,
    {
        let start = self.frames.pop().unwrap();
        let mut r: Vec<usize> = Vec::new();
        let mut i: usize = start;
        while i < self.dirty.len()
            invariant
                start <= i <= self.dirty@.len(),
                r@ == self.dirty@.subrange(start as int, i as int),
            decreases self.dirty@.len() - i,
        {
            r.push(self.dirty[i]);
            i = i + 1;
            assert(r@ =~= self.dirty@.subrange(start as int, i as int));
        }
        r
    }
}

impl ControlFlowGraph {
    pub open spec fn wf(&self) -> bool {
        self.current < self.blocks@.len()
    }

    /// A new graph holding one empty entry block under the cursor.
    pub fn new(name: String, kind: GraphKind) -> (r: ControlFlowGraph)
        ensures
            r.wf(),
            r.name == name,
            r.kind == kind,
            r.current == 0,
            r.blocks@.len() == 1,
            r.blocks@[0].name == BlockName::Entry,
            r.blocks@[0].instrs@.len() == 0,
            r.blocks@[0].phis.is_none(),
    {
        let mut blocks: Vec<BasicBlock> = Vec::new();
        blocks.push(BasicBlock { name: BlockName::Entry, instrs: Vec::new(), phis: None });
        ControlFlowGraph { name, kind, blocks, current: 0 }
    }

    /// Adds an empty block and returns its number; the cursor stays.
    pub fn new_basic_block(&mut self, name: BlockName) -> (r: usize)
        requires
            old(self).blocks@.len() < usize::MAX,
        ensures
            r == old(self).blocks@.len(),
            final(self).blocks@.len() == old(self).blocks@.len() + 1,
            forall|i: int| 0 <= i < old(self).blocks@.len() ==> #[trigger] final(self).blocks@[i] == old(self).blocks@[i],
            final(self).blocks@[r as int].name == name,
            final(self).blocks@[r as int].instrs@.len() == 0,
            final(self).blocks@[r as int].phis.is_none(),
            final(self).current == old(self).current,
            final(self).name == old(self).name,
            final(self).kind == old(self).kind,
    {
        let r = self.blocks.len();
        self.blocks.push(BasicBlock { name, instrs: Vec::new(), phis: None });
        r
    }

    /// Moves the cursor to block `b`.
    pub fn set_basic_block(&mut self, b: usize)
        requires
            b < old(self).blocks@.len(),
        ensures
            final(self).current == b,
            final(self).blocks == old(self).blocks,
            final(self).name == old(self).name,
            final(self).kind == old(self).kind,
    {
        self.current = b;
    }

    /// Appends `instr` to the block under the cursor; an assignment is logged
    /// in the variable table's open dirty-tracker frames.
    pub fn add(&mut self, vartab: &mut Vartable, instr: Instr)
        requires
            old(self).wf(),
            old(vartab).wf(),
        ensures
            final(self).wf(),
            final(self).current == old(self).current,
            final(self).name == old(self).name,
            final(self).kind == old(self).kind,
            final(self).blocks@.len() == old(self).blocks@.len(),
            forall|i: int| 0 <= i < old(self).blocks@.len() && i != old(self).current ==> #[trigger] final(self).blocks@[i] == old(self).blocks@[i],
            final(self).blocks@[old(self).current as int].name == old(self).blocks@[old(self).current as int].name,
            final(self).blocks@[old(self).current as int].phis == old(self).blocks@[old(self).current as int].phis,
            final(self).blocks@[old(self).current as int].instrs@ == old(self).blocks@[old(self).current as int].instrs@.push(instr),
            final(vartab).wf(),
            match instr {
                Instr::Assign { res, .. } => old(vartab).marked(res, *final(vartab)),
                _ => *final(vartab) == *old(vartab),
            },
    {
        if let Instr::Assign { res, .. } = &instr {
            vartab.set_dirty(*res);
        }
        let cur = self.current;
        self.blocks[cur].instrs.push(instr);
    }

    /// Attaches a phi set to block `b`.
    pub fn set_phis(&mut self, b: usize, phis: Vec<usize>)
        requires
            b < old(self).blocks@.len(),
        ensures
            final(self).current == old(self).current,
            final(self).name == old(self).name,
            final(self).kind == old(self).kind,
            final(self).blocks@.len() == old(self).blocks@.len(),
            forall|i: int| 0 <= i < old(self).blocks@.len() && i != b ==> #[trigger] final(self).blocks@[i] == old(self).blocks@[i],
            final(self).blocks@[b as int].name == old(self).blocks@[b as int].name,
            final(self).blocks@[b as int].instrs == old(self).blocks@[b as int].instrs,
            final(self).blocks@[b as int].phis == Some(phis),
    {
        self.blocks[b].phis = Some(phis);
    }
}

/// The field of an account record that holds its signer flag.
pub const SIGNER_FIELD: usize = 5;

/// The field of an account record that holds its writable flag.
pub const WRITER_FIELD: usize = 6;

/// The field of an account record that holds its data bytes.
pub const DATA_FIELD: usize = 2;

/// The field of an account record that holds its address.
pub const KEY_FIELD: usize = 0;

/// `e` is the runtime array of account records.
pub open spec fn is_accounts(e: Expression) -> bool {
    match e {
        Expression::Builtin { kind: Builtin::Accounts, args, .. } => args@.len() == 0,
        _ => false,
    }
}

/// `e` is the length of the runtime array of account records.
pub open spec fn is_accounts_length(e: Expression) -> bool {
    match e {
        Expression::Builtin { kind: Builtin::ArrayLength, args, .. } => args@.len() == 1 && is_accounts(
            args@[0],
        ),
        _ => false,
    }
}

/// `e` is the account record at `index` of the runtime array.
pub open spec fn is_account(e: Expression, index: u64) -> bool {
    match e {
        Expression::Subscript { array, index: ix, .. } => is_accounts(*array) && *ix
            == Expression::NumberLiteral { bits: 32, value: index },
        _ => false,
    }
}

/// `e` reads field `field` of the account record at `index`.
pub open spec fn is_account_field(e: Expression, index: u64, field: usize) -> bool {
    match e {
        Expression::StructMember { expr, field: f, .. } => f == field && is_account(*expr, index),
        _ => false,
    }
}

/// `e` allocates a string holding exactly `text`.
pub open spec fn is_message(e: Expression, text: Seq<u8>) -> bool {
    match e {
        Expression::AllocDynamicBytes { ty: Type::String, size, init } => *size == Expression::NumberLiteral {
            bits: 32,
            value: text.len() as u64,
        } && init.is_some() && init.unwrap()@ == text,
        _ => false,
    }
}

/// `i` prints exactly `text`.
pub open spec fn is_print(i: Instr, text: Seq<u8>) -> bool {
    match i {
        Instr::Print { expr } => is_message(expr, text),
        _ => false,
    }
}

/// `b` logs `text` and then traps.
pub open spec fn is_log_and_trap(b: BasicBlock, text: Seq<u8>) -> bool {
    &&& b.instrs@.len() == 2
    &&& is_print(b.instrs@[0], text)
    &&& b.instrs@[1] == Instr::AssertFailure
}

/// The runtime array of account records.
pub fn accounts_expr() -> (e: Expression)
    ensures
        is_accounts(e),
{
    Expression::Builtin {
        ty: Type::Array(Box::new(Type::AccountInfo), None),
        kind: Builtin::Accounts,
        args: Vec::new(),
    }
}

/// The account record at `index` of the runtime array.
pub fn account_expr(index: u64) -> (e: Expression)
    ensures
        is_account(e, index),
{
    Expression::Subscript {
        ty: Type::Ref(Box::new(Type::AccountInfo)),
        array: Box::new(accounts_expr()),
        index: Box::new(Expression::NumberLiteral { bits: 32, value: index }),
    }
}

/// Field `field`, of type `ty`, of the account record at `index`.
pub fn account_field(index: u64, field: usize, ty: Type) -> (e: Expression)
    ensures
        is_account_field(e, index, field),
{
    Expression::StructMember { ty, expr: Box::new(account_expr(index)), field }
}

/// The length of the array that `array` evaluates to.
pub fn array_length(array: Expression) -> (e: Expression)
    ensures
        match e {
            Expression::Builtin { kind: Builtin::ArrayLength, args, .. } => args@ == seq![array],
            _ => false,
        },
{
    let mut args: Vec<Expression> = Vec::new();
    args.push(array);
    Expression::Builtin { ty: Type::Uint(32), kind: Builtin::ArrayLength, args }
}

/// Appends an instruction that prints `message` to the block under the cursor.
pub fn emit_print_message(message: Vec<u8>, vartab: &mut Vartable, cfg: &mut ControlFlowGraph)
    requires
        old(cfg).wf(),
        old(vartab).wf(),
    ensures
        final(cfg).wf(),
        final(cfg).current == old(cfg).current,
        final(cfg).name == old(cfg).name,
        final(cfg).kind == old(cfg).kind,
        final(cfg).blocks@.len() == old(cfg).blocks@.len(),
        forall|i: int| 0 <= i < old(cfg).blocks@.len() && i != old(cfg).current ==> #[trigger] final(cfg).blocks@[i] == old(cfg).blocks@[i],
        final(cfg).blocks@[old(cfg).current as int].name == old(cfg).blocks@[old(cfg).current as int].name,
        final(cfg).blocks@[old(cfg).current as int].phis == old(cfg).blocks@[old(cfg).current as int].phis,
        final(cfg).blocks@[old(cfg).current as int].instrs@.len() == old(cfg).blocks@[old(cfg).current as int].instrs@.len() + 1,
        final(cfg).blocks@[old(cfg).current as int].instrs@.drop_last() == old(cfg).blocks@[old(cfg).current as int].instrs@,
        is_print(final(cfg).blocks@[old(cfg).current as int].instrs@.last(), message@),
        *final(vartab) == *old(vartab),
{
    let len = message.len() as u64;
    let expr = Expression::AllocDynamicBytes {
        ty: Type::String,
        size: Box::new(Expression::NumberLiteral { bits: 32, value: len }),
        init: Some(message),
    };
    cfg.add(vartab, Instr::Print { expr });
}

} // verus!

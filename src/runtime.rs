//! What deployment code does when it runs on chain: a semantics of the
//! constructor graph over the running program's identity and the storage
//! account's data length, and the laws that provisioning obeys.
use vstd::prelude::*;
use crate::deploy::{
    bindings, first_payer, first_size_block, first_space, is_create_call, is_creation, is_deployment, is_header_write, is_length_check,
    is_program_id, is_size_check, ConstructorAnnotation, ConstructorParam, Deployment,
};
use crate::encoding::{base58_of, heap_offset_of, program_id_message_of, rent_exempt};
use crate::ir::{is_account_field, Builtin, ControlFlowGraph, Expression, Instr, ReturnCode, BasicBlock, DATA_FIELD};
use crate::preamble::AccountRequirement;
use crate::semantics::printed;

verus! {

/// What the chain supplies to a constructor run: the running program's
/// identity and the data length of the storage account (account 0).
pub struct Chain {
    pub program_id: Seq<u8>,
    pub data_len: int,
}

/// How a run leaves the code it ran.
pub enum Exit {
    /// It returned a distinguished code.
    Code(ReturnCode),
    Trap,
    Return,
    /// It reached the end of block `b`, where the constructor goes on.
    Continue(int),
    /// It met something this semantics does not cover.
    Stuck,
}

/// What a run did: messages logged, buffer writes (buffer variable, offset,
/// value), external calls (by payload variable), storage writes (offset,
/// value), in order, and how it left. Values this semantics cannot compute
/// are `None`.
pub struct Effects {
    pub logs: Seq<Seq<u8>>,
    pub writes: Seq<(usize, Option<int>, Option<int>)>,
    pub calls: Seq<usize>,
    pub storage: Seq<(Option<int>, Option<int>)>,
    pub exit: Exit,
}

/// The numeric value of `e`, where this semantics can compute it.
pub open spec fn eval_num(e: Expression, vars: Map<usize, int>, chain: Chain) -> Option<int>
    decreases e,
{
    match e {
        Expression::NumberLiteral { value, .. } => Some(value as int),
        Expression::Variable { var_no, .. } => if vars.contains_key(var_no) {
            Some(vars[var_no])
        } else {
            None
        },
        Expression::Add { left, right, .. } => match (eval_num(*left, vars, chain), eval_num(*right, vars, chain)) {
            (Some(l), Some(r)) => Some(l + r),
            _ => None,
        },
        Expression::Multiply { left, right, .. } => match (eval_num(*left, vars, chain), eval_num(*right, vars, chain)) {
            (Some(l), Some(r)) => Some(l * r),
            _ => None,
        },
        Expression::Builtin { kind: Builtin::ArrayLength, args, .. } => if args@.len() == 1
            && is_account_field(args@[0], 0, DATA_FIELD) {
            Some(chain.data_len)
        } else {
            None
        },
        _ => None,
    }
}

/// The value of a branch condition.
pub open spec fn eval_test(e: Expression, vars: Map<usize, int>, chain: Chain) -> Option<bool> {
    match e {
        Expression::Equal { left, right } => match *left {
            Expression::AddressLiteral { bytes } => if is_program_id(*right) {
                Some(bytes@ == chain.program_id)
            } else {
                None
            },
            _ => match (eval_num(*left, vars, chain), eval_num(*right, vars, chain)) {
                (Some(l), Some(r)) => Some(l == r),
                _ => None,
            },
        },
        Expression::MoreEqual { left, right } => match (eval_num(*left, vars, chain), eval_num(*right, vars, chain)) {
            (Some(l), Some(r)) => Some(l >= r),
            _ => None,
        },
        _ => None,
    }
}

/// The variables after `res` is assigned `v`; an unknown value forgets it.
pub open spec fn assign(vars: Map<usize, int>, res: usize, v: Option<int>) -> Map<usize, int> {
    match v {
        Some(x) => vars.insert(res, x),
        None => vars.remove(res),
    }
}

/// Nothing done, leaving by `exit`.
pub open spec fn only(exit: Exit) -> Effects {
    Effects { logs: Seq::empty(), writes: Seq::empty(), calls: Seq::empty(), storage: Seq::empty(), exit }
}

/// Runs `blocks` from instruction `k` of block `b`, taking at most `fuel`
/// jumps.
pub open spec fn exec(
    blocks: Seq<BasicBlock>,
    b: int,
    k: int,
    chain: Chain,
    vars: Map<usize, int>,
    fuel: nat,
) -> Effects
    decreases fuel, blocks[b].instrs@.len() - k,
{
    if !(0 <= b < blocks.len()) || k < 0 {
        only(Exit::Stuck)
    } else if k >= blocks[b].instrs@.len() {
        only(Exit::Continue(b))
    } else {
        match blocks[b].instrs@[k] {
            Instr::Print { expr } => match printed(expr) {
                Some(text) => {
                    let r = exec(blocks, b, k + 1, chain, vars, fuel);
                    Effects { logs: seq![text] + r.logs, writes: r.writes, calls: r.calls, storage: r.storage, exit: r.exit }
                },
                None => only(Exit::Stuck),
            },
            Instr::Assign { res, expr } => exec(
                blocks,
                b,
                k + 1,
                chain,
                assign(vars, res, eval_num(expr, vars, chain)),
                fuel,
            ),
            Instr::WriteBuffer { buf: Expression::Variable { var_no, .. }, offset, value } => {
                let r = exec(blocks, b, k + 1, chain, vars, fuel);
                Effects {
                    logs: r.logs,
                    writes: seq![(var_no, eval_num(offset, vars, chain), eval_num(value, vars, chain))] + r.writes,
                    calls: r.calls,
                    storage: r.storage,
                    exit: r.exit,
                }
            },
            Instr::SetStorage { value, storage, .. } => {
                let r = exec(blocks, b, k + 1, chain, vars, fuel);
                Effects {
                    logs: r.logs,
                    writes: r.writes,
                    calls: r.calls,
                    storage: seq![(eval_num(storage, vars, chain), eval_num(value, vars, chain))] + r.storage,
                    exit: r.exit,
                }
            },
            Instr::ExternalCall { payload: Expression::Variable { var_no, .. }, .. } => {
                let r = exec(blocks, b, k + 1, chain, vars, fuel);
                Effects { logs: r.logs, writes: r.writes, calls: seq![var_no] + r.calls, storage: r.storage, exit: r.exit }
            },
            Instr::ReturnCode { code } => only(Exit::Code(code)),
            Instr::AssertFailure => only(Exit::Trap),
            Instr::Return { .. } => only(Exit::Return),
            Instr::Branch { block } => if fuel == 0 {
                only(Exit::Stuck)
            } else {
                exec(blocks, block as int, 0, chain, vars, (fuel - 1) as nat)
            },
            Instr::BranchCond { cond, true_block, false_block } => if fuel == 0 {
                only(Exit::Stuck)
            } else {
                match eval_test(cond, vars, chain) {
                    Some(true) => exec(blocks, true_block as int, 0, chain, vars, (fuel - 1) as nat),
                    Some(false) => exec(blocks, false_block as int, 0, chain, vars, (fuel - 1) as nat),
                    None => only(Exit::Stuck),
                }
            },
            _ => only(Exit::Stuck),
        }
    }
}

/// Runs the provisioning that `after` appended to `before`, from where it
/// begins in the block that was under the cursor.
pub open spec fn run_deployment(
    before: ControlFlowGraph,
    after: ControlFlowGraph,
    chain: Chain,
    vars: Map<usize, int>,
) -> Effects {
    exec(
        after.blocks@,
        before.current as int,
        before.blocks@[before.current as int].instrs@.len() as int,
        chain,
        vars,
        4,
    )
}

/// The running program is the pinned one, or none is pinned.
pub open spec fn identity_ok(contract: Deployment, chain: Chain) -> bool {
    match contract.program_id {
        Some(id) => id@ == chain.program_id,
        None => true,
    }
}

/// The header write: the selector at offset 0, the heap offset at 12.
pub open spec fn header_storage(contract: Deployment) -> Seq<(Option<int>, Option<int>)> {
    seq![
        (Some(0int), Some(contract.selector as int)),
        (Some(12int), Some(heap_offset_of(contract.fixed_layout_size) as int)),
    ]
}

/// When the pinned identity is not the running program's, provisioning logs
/// the expected base58 address, returns `InvalidProgramId`, and touches
/// neither storage nor any account.
pub proof fn lemma_identity_mismatch(
    before: ControlFlowGraph,
    after: ControlFlowGraph,
    d: usize,
    params: Seq<ConstructorParam>,
    args: Seq<Expression>,
    anns: Seq<ConstructorAnnotation>,
    accounts: Seq<AccountRequirement>,
    contract: Deployment,
    chain: Chain,
    vars: Map<usize, int>,
)
    requires
        is_deployment(before, after, d, params, args, anns, accounts, contract),
        before.wf(),
        contract.program_id is Some,
        !identity_ok(contract, chain),
    ensures
        run_deployment(before, after, chain, vars) == (Effects {
            logs: seq![program_id_message_of(base58_of(contract.program_id->0@))],
            writes: Seq::empty(),
            calls: Seq::empty(),
            storage: Seq::empty(),
            exit: Exit::Code(ReturnCode::InvalidProgramId),
        }),
{
    let blocks = after.blocks@;
    let c = before.current as int;
    let l = before.blocks@.len() as int;
    let k0 = before.blocks@[c].instrs@.len() as int;
    assert(blocks[c].instrs@.len() == k0 + 1);
    assert(blocks[c].instrs@[k0] == blocks[c].instrs@.last());
    let msg = program_id_message_of(base58_of(contract.program_id->0@));
    assert(exec(blocks, l, 1, chain, vars, 3) == only(Exit::Code(ReturnCode::InvalidProgramId)));
    assert(seq![msg] + Seq::<Seq<u8>>::empty() =~= seq![msg]);
    assert(exec(blocks, l, 0, chain, vars, 3).logs == seq![msg]);
}

/// Where the size check begins: the block, the instruction and the fuel
/// left once the pinned identity, if any, has been checked.
pub open spec fn size_check_entry(before: ControlFlowGraph, contract: Deployment) -> (int, int, nat) {
    if contract.program_id is Some {
        (before.blocks@.len() + 1 as int, 0int, 3nat)
    } else {
        (before.current as int, before.blocks@[before.current as int].instrs@.len() as int, 4nat)
    }
}

/// The header write, from any variables and with any fuel.
proof fn lemma_header(blocks: Seq<BasicBlock>, h: int, contract: Deployment, chain: Chain, vars: Map<usize, int>, fuel: nat)
    requires
        0 <= h < blocks.len(),
        is_header_write(blocks[h].instrs@, contract),
    ensures
        exec(blocks, h, 0, chain, vars, fuel) == (Effects {
            logs: Seq::empty(),
            writes: Seq::empty(),
            calls: Seq::empty(),
            storage: header_storage(contract),
            exit: Exit::Continue(h),
        }),
{
    let r2 = exec(blocks, h, 2, chain, vars, fuel);
    assert(r2 == only(Exit::Continue(h)));
    let r1 = exec(blocks, h, 1, chain, vars, fuel);
    assert(r1.storage =~= seq![(Some(12int), Some(heap_offset_of(contract.fixed_layout_size) as int))]);
    let r0 = exec(blocks, h, 0, chain, vars, fuel);
    assert(r0.storage =~= header_storage(contract));
}

/// A pinned identity that matches lets provisioning reach the size check.
pub proof fn lemma_identity_passes(
    before: ControlFlowGraph,
    after: ControlFlowGraph,
    d: usize,
    params: Seq<ConstructorParam>,
    args: Seq<Expression>,
    anns: Seq<ConstructorAnnotation>,
    accounts: Seq<AccountRequirement>,
    contract: Deployment,
    chain: Chain,
    vars: Map<usize, int>,
)
    requires
        is_deployment(before, after, d, params, args, anns, accounts, contract),
        before.wf(),
        identity_ok(contract, chain),
    ensures
        ({
            let (s, ks, f) = size_check_entry(before, contract);
            run_deployment(before, after, chain, vars) == exec(after.blocks@, s, ks, chain, vars, f)
        }),
{
    let blocks = after.blocks@;
    let c = before.current as int;
    let k0 = before.blocks@[c].instrs@.len() as int;
    if contract.program_id is Some {
        assert(blocks[c].instrs@.len() == k0 + 1);
        assert(blocks[c].instrs@[k0] == blocks[c].instrs@.last());
    }
}

/// The size check reads the data length, then goes to creation when it is
/// zero and to the existing-account check otherwise.
proof fn lemma_length_check(
    before: ControlFlowGraph,
    after: ControlFlowGraph,
    d: usize,
    params: Seq<ConstructorParam>,
    args: Seq<Expression>,
    anns: Seq<ConstructorAnnotation>,
    accounts: Seq<AccountRequirement>,
    contract: Deployment,
    chain: Chain,
    vars: Map<usize, int>,
)
    requires
        is_deployment(before, after, d, params, args, anns, accounts, contract),
        before.wf(),
    ensures
        ({
            let (s, ks, f) = size_check_entry(before, contract);
            let b = first_size_block(before, contract);
            let vars1 = vars.insert(d, chain.data_len);
            exec(after.blocks@, s, ks, chain, vars, f) == if chain.data_len == 0 {
                exec(after.blocks@, b + 1, 0, chain, vars1, (f - 1) as nat)
            } else {
                exec(after.blocks@, b, 0, chain, vars1, (f - 1) as nat)
            }
        }),
{
    let blocks = after.blocks@;
    let (s, ks, f) = size_check_entry(before, contract);
    let c = before.current as int;
    let k0 = before.blocks@[c].instrs@.len() as int;
    let l = before.blocks@.len() as int;
    let instrs = blocks[s].instrs@;
    if contract.program_id is None {
        assert(s == c && ks == k0);
        let tail = blocks[c].instrs@.subrange(k0, blocks[c].instrs@.len() as int);
        assert(is_length_check(tail, d, first_size_block(before, contract) + 1, first_size_block(before, contract)));
        assert(instrs[ks] == tail[0]);
        assert(instrs[ks + 1] == tail[1]);
        assert(instrs.len() == ks + 2);
    } else {
        assert(is_length_check(instrs, d, first_size_block(before, contract) + 1, first_size_block(before, contract)));
    }
    let vars1 = vars.insert(d, chain.data_len);
    reveal_with_fuel(eval_num, 2);
    assert(eval_num(instrs[ks]->Assign_expr, vars, chain) == Some(chain.data_len));
    assert(exec(blocks, s, ks, chain, vars, f) == exec(blocks, s, ks + 1, chain, vars1, f));
}

/// An account that already holds data of at least the fixed layout size is
/// not created again: provisioning only writes the selector at storage
/// offset 0 and the heap offset at 12, and goes on with the constructor.
pub proof fn lemma_existing_account(
    before: ControlFlowGraph,
    after: ControlFlowGraph,
    d: usize,
    params: Seq<ConstructorParam>,
    args: Seq<Expression>,
    anns: Seq<ConstructorAnnotation>,
    accounts: Seq<AccountRequirement>,
    contract: Deployment,
    chain: Chain,
    vars: Map<usize, int>,
)
    requires
        is_deployment(before, after, d, params, args, anns, accounts, contract),
        before.wf(),
        identity_ok(contract, chain),
        chain.data_len > 0,
        chain.data_len >= contract.fixed_layout_size,
    ensures
        run_deployment(before, after, chain, vars) == (Effects {
            logs: Seq::empty(),
            writes: Seq::empty(),
            calls: Seq::empty(),
            storage: header_storage(contract),
            exit: Exit::Continue(first_size_block(before, contract) + 2),
        }),
{
    let blocks = after.blocks@;
    let b = first_size_block(before, contract);
    let (s, ks, f) = size_check_entry(before, contract);
    let vars1 = vars.insert(d, chain.data_len);
    lemma_identity_passes(before, after, d, params, args, anns, accounts, contract, chain, vars);
    lemma_length_check(before, after, d, params, args, anns, accounts, contract, chain, vars);
    assert(is_size_check(blocks[b].instrs@, d, contract.fixed_layout_size, b + 2, b + 3));
    assert(eval_test(blocks[b].instrs@[0]->cond, vars1, chain) == Some(true));
    lemma_header(blocks, b + 2, contract, chain, vars1, (f - 2) as nat);
}

/// An account that holds data, but less than the fixed layout size, makes
/// provisioning return `AccountDataTooSmall` without creating anything or
/// writing storage.
pub proof fn lemma_account_too_small(
    before: ControlFlowGraph,
    after: ControlFlowGraph,
    d: usize,
    params: Seq<ConstructorParam>,
    args: Seq<Expression>,
    anns: Seq<ConstructorAnnotation>,
    accounts: Seq<AccountRequirement>,
    contract: Deployment,
    chain: Chain,
    vars: Map<usize, int>,
)
    requires
        is_deployment(before, after, d, params, args, anns, accounts, contract),
        before.wf(),
        identity_ok(contract, chain),
        0 < chain.data_len < contract.fixed_layout_size,
    ensures
        run_deployment(before, after, chain, vars) == only(Exit::Code(ReturnCode::AccountDataTooSmall)),
{
    let blocks = after.blocks@;
    let b = first_size_block(before, contract);
    let vars1 = vars.insert(d, chain.data_len);
    lemma_identity_passes(before, after, d, params, args, anns, accounts, contract, chain, vars);
    lemma_length_check(before, after, d, params, args, anns, accounts, contract, chain, vars);
    assert(is_size_check(blocks[b].instrs@, d, contract.fixed_layout_size, b + 2, b + 3));
    assert(eval_test(blocks[b].instrs@[0]->cond, vars1, chain) == Some(false));
    let (s, ks, f) = size_check_entry(before, contract);
    assert(blocks[b + 3].instrs@[0] == Instr::ReturnCode { code: ReturnCode::AccountDataTooSmall });
    assert(exec(blocks, b + 3, 0, chain, vars1, (f - 2) as nat) == only(Exit::Code(ReturnCode::AccountDataTooSmall)));
}

/// The variables after the assignments at positions `k` up to `a` of `instrs`.
pub open spec fn after_assigns(
    instrs: Seq<Instr>,
    k: int,
    a: int,
    chain: Chain,
    vars: Map<usize, int>,
) -> Map<usize, int>
    decreases a - k,
{
    if k >= a {
        vars
    } else {
        match instrs[k] {
            Instr::Assign { res, expr } => after_assigns(
                instrs,
                k + 1,
                a,
                chain,
                assign(vars, res, eval_num(expr, vars, chain)),
            ),
            _ => vars,
        }
    }
}

proof fn lemma_bindings_assign(params: Seq<ConstructorParam>, args: Seq<Expression>)
    ensures
        forall|i: int| 0 <= i < bindings(params, args).len() ==> #[trigger] bindings(params, args)[i] is Assign,
    decreases params.len(),
{
    if params.len() > 0 {
        let i = params.len() - 1;
        lemma_bindings_assign(params.drop_last(), args.subrange(0, i));
    }
}

/// A run of assignments only changes the variables.
proof fn lemma_run_assigns(
    blocks: Seq<BasicBlock>,
    bb: int,
    k: int,
    a: int,
    chain: Chain,
    vars: Map<usize, int>,
    fuel: nat,
)
    requires
        0 <= bb < blocks.len(),
        0 <= k <= a <= blocks[bb].instrs@.len(),
        forall|i: int| k <= i < a ==> #[trigger] blocks[bb].instrs@[i] is Assign,
    ensures
        exec(blocks, bb, k, chain, vars, fuel) == exec(
            blocks,
            bb,
            a,
            chain,
            after_assigns(blocks[bb].instrs@, k, a, chain, vars),
            fuel,
        ),
    decreases a - k,
{
    if k < a {
        assert(blocks[bb].instrs@[k] is Assign);
        if let Instr::Assign { res, expr } = blocks[bb].instrs@[k] {
            lemma_run_assigns(blocks, bb, k + 1, a, chain, assign(vars, res, eval_num(expr, vars, chain)), fuel);
        }
    }
}

/// With an empty storage account, provisioning binds the parameters in the
/// creation block and goes on after them.
proof fn lemma_reach_creation(
    before: ControlFlowGraph,
    after: ControlFlowGraph,
    d: usize,
    params: Seq<ConstructorParam>,
    args: Seq<Expression>,
    anns: Seq<ConstructorAnnotation>,
    accounts: Seq<AccountRequirement>,
    contract: Deployment,
    chain: Chain,
    vars: Map<usize, int>,
)
    requires
        is_deployment(before, after, d, params, args, anns, accounts, contract),
        before.wf(),
        identity_ok(contract, chain),
        chain.data_len == 0,
    ensures
        ({
            let (s, ks, f) = size_check_entry(before, contract);
            let bb = first_size_block(before, contract) + 1;
            let a = bindings(params, args).len() as int;
            run_deployment(before, after, chain, vars) == exec(
                after.blocks@,
                bb,
                a,
                chain,
                after_assigns(after.blocks@[bb].instrs@, 0, a, chain, vars.insert(d, chain.data_len)),
                (f - 1) as nat,
            )
        }),
{
    let blocks = after.blocks@;
    let (s, ks, f) = size_check_entry(before, contract);
    let bb = first_size_block(before, contract) + 1;
    let a = bindings(params, args).len() as int;
    lemma_identity_passes(before, after, d, params, args, anns, accounts, contract, chain, vars);
    lemma_length_check(before, after, d, params, args, anns, accounts, contract, chain, vars);
    lemma_bindings_assign(params, args);
    let instrs = blocks[bb].instrs@;
    assert(instrs.subrange(0, a) == bindings(params, args));
    assert forall|i: int| 0 <= i < a implies #[trigger] instrs[i] is Assign by {
        assert(instrs[i] == instrs.subrange(0, a)[i]);
    }
    lemma_run_assigns(blocks, bb, 0, a, chain, vars.insert(d, chain.data_len), (f - 1) as nat);
}

/// An empty storage account with no Payer annotation makes provisioning
/// return `AccountDataTooSmall`: no account is created and storage is not
/// written.
pub proof fn lemma_no_payer(
    before: ControlFlowGraph,
    after: ControlFlowGraph,
    d: usize,
    params: Seq<ConstructorParam>,
    args: Seq<Expression>,
    anns: Seq<ConstructorAnnotation>,
    accounts: Seq<AccountRequirement>,
    contract: Deployment,
    chain: Chain,
    vars: Map<usize, int>,
)
    requires
        is_deployment(before, after, d, params, args, anns, accounts, contract),
        before.wf(),
        identity_ok(contract, chain),
        chain.data_len == 0,
        first_payer(anns) is None,
    ensures
        run_deployment(before, after, chain, vars) == only(Exit::Code(ReturnCode::AccountDataTooSmall)),
{
    lemma_reach_creation(before, after, d, params, args, anns, accounts, contract, chain, vars);
}

/// The tail of a CreateAccount call from position `k` of block `bb`: the
/// buffer allocation, its four writes, the call and the jump to the header.
proof fn lemma_create_call(
    blocks: Seq<BasicBlock>,
    bb: int,
    k: int,
    buf: usize,
    metas: usize,
    lamports: Expression,
    space: Expression,
    contract: Deployment,
    seeds: Seq<Expression>,
    ok: int,
    chain: Chain,
    vars: Map<usize, int>,
    fuel: nat,
)
    requires
        0 <= bb < blocks.len(),
        0 <= k,
        0 <= ok < blocks.len(),
        ok <= usize::MAX,
        fuel >= 1,
        is_create_call(blocks[bb].instrs@, k, buf, metas, lamports, space, contract.program_id, seeds, ok),
        is_header_write(blocks[ok].instrs@, contract),
    ensures
        ({
            let vb = vars.remove(buf);
            exec(blocks, bb, k, chain, vars, fuel) == (Effects {
                logs: Seq::empty(),
                writes: seq![
                    (buf, Some(0int), Some(0int)),
                    (buf, Some(4int), eval_num(lamports, vb, chain)),
                    (buf, Some(12int), eval_num(space, vb, chain)),
                    (buf, Some(20int), None::<int>),
                ],
                calls: seq![buf],
                storage: header_storage(contract),
                exit: Exit::Continue(ok),
            })
        }),
{
    let instrs = blocks[bb].instrs@;
    let vb = vars.remove(buf);
    lemma_header(blocks, ok, contract, chain, vb, (fuel - 1) as nat);
    let e7 = exec(blocks, bb, k + 6, chain, vb, fuel);
    assert(e7 == exec(blocks, ok, 0, chain, vb, (fuel - 1) as nat));
    let e6 = exec(blocks, bb, k + 5, chain, vb, fuel);
    assert(e6.calls =~= seq![buf]);
    let e5 = exec(blocks, bb, k + 4, chain, vb, fuel);
    reveal_with_fuel(eval_num, 2);
    assert(eval_num(instrs[k + 4]->WriteBuffer_value, vb, chain) == None::<int>) by {
        match contract.program_id {
            Some(id) => {},
            None => {},
        }
    }
    assert(e5.writes =~= seq![(buf, Some(20int), None::<int>)]);
    let e4 = exec(blocks, bb, k + 3, chain, vb, fuel);
    let e3 = exec(blocks, bb, k + 2, chain, vb, fuel);
    let e2 = exec(blocks, bb, k + 1, chain, vb, fuel);
    assert(e2.writes =~= seq![
        (buf, Some(0int), Some(0int)),
        (buf, Some(4int), eval_num(lamports, vb, chain)),
        (buf, Some(12int), eval_num(space, vb, chain)),
        (buf, Some(20int), None::<int>),
    ]);
    assert(eval_num(instrs[k]->Assign_expr, vars, chain) == None::<int>);
    assert(exec(blocks, bb, k, chain, vars, fuel) == e2);
}

/// An empty storage account with a Payer annotation is created by exactly
/// one call, to the system program, whose CreateAccount buffer holds opcode
/// 0 at offset 0, the rent-exempt lamports `(space + 128) * 3480 * 2` at 4,
/// the space at 12 and the owner at 20; the space is the fixed layout size,
/// or the value of the Space expression when there is one. Provisioning then
/// writes the header and goes on with the constructor.
#[verifier::spinoff_prover]
#[verifier::rlimit(30)]
pub proof fn lemma_create_account(
    before: ControlFlowGraph,
    after: ControlFlowGraph,
    d: usize,
    params: Seq<ConstructorParam>,
    args: Seq<Expression>,
    anns: Seq<ConstructorAnnotation>,
    accounts: Seq<AccountRequirement>,
    contract: Deployment,
    chain: Chain,
    vars: Map<usize, int>,
)
    requires
        is_deployment(before, after, d, params, args, anns, accounts, contract),
        before.wf(),
        identity_ok(contract, chain),
        chain.data_len == 0,
        first_payer(anns) is Some,
        first_space(anns) is None ==> rent_exempt(contract.fixed_layout_size as int) <= u64::MAX,
        d + 4 <= usize::MAX,
    ensures
        ({
            let e = run_deployment(before, after, chain, vars);
            let buf = if first_space(anns) is Some {
                (d + 3) as usize
            } else {
                (d + 2) as usize
            };
            &&& e.logs.len() == 0
            &&& e.calls == seq![buf]
            &&& e.storage == header_storage(contract)
            &&& e.exit == Exit::Continue(first_size_block(before, contract) + 2)
            &&& e.writes.len() == 4
            &&& e.writes[0] == (buf, Some(0int), Some(0int))
            &&& e.writes[1].0 == buf && e.writes[1].1 == Some(4int)
            &&& e.writes[2].0 == buf && e.writes[2].1 == Some(12int)
            &&& e.writes[3].0 == buf && e.writes[3].1 == Some(20int)
            &&& match first_space(anns) {
                None => e.writes[1].2 == Some(rent_exempt(contract.fixed_layout_size as int))
                    && e.writes[2].2 == Some(contract.fixed_layout_size as int),
                Some(_) => match e.writes[2].2 {
                    Some(space) => e.writes[1].2 == Some(rent_exempt(space)),
                    None => e.writes[1].2 is None,
                },
            }
        }),
{
    let blocks = after.blocks@;
    let (s, ks, f) = size_check_entry(before, contract);
    let b = first_size_block(before, contract);
    let bb = b + 1;
    let a = bindings(params, args).len() as int;
    let instrs = blocks[bb].instrs@;
    let v = d + 1;
    let vars_a = after_assigns(instrs, 0, a, chain, vars.insert(d, chain.data_len));
    lemma_reach_creation(before, after, d, params, args, anns, accounts, contract, chain, vars);
    assert(is_creation(instrs, a, anns, accounts, contract, v, b + 2));
    let metas_expr = instrs[a]->Assign_expr;
    let vars_m = assign(vars_a, v as usize, eval_num(metas_expr, vars_a, chain));
    assert(exec(blocks, bb, a, chain, vars_a, (f - 1) as nat) == exec(blocks, bb, a + 1, chain, vars_m, (f - 1) as nat));
    match first_space(anns) {
        None => {
            let buf = (v + 1) as usize;
            lemma_create_call(
                blocks,
                bb,
                a + 1,
                buf,
                v as usize,
                Expression::NumberLiteral {
                    bits: 64,
                    value: rent_exempt(contract.fixed_layout_size as int) as u64,
                },
                Expression::NumberLiteral { bits: 64, value: contract.fixed_layout_size },
                contract,
                crate::deploy::seed_exprs(anns),
                b + 2,
                chain,
                vars_m,
                (f - 1) as nat,
            );
        },
        Some(space) => {
            let sv = (v + 1) as usize;
            let buf = (v + 2) as usize;
            let vars_s = assign(vars_m, sv, eval_num(space, vars_m, chain));
            assert(exec(blocks, bb, a + 1, chain, vars_m, (f - 1) as nat) == exec(blocks, bb, a + 2, chain, vars_s, (f - 1) as nat));
            let lamports = Expression::Multiply {
                bits: 64,
                left: Box::new(Expression::Add {
                    bits: 64,
                    left: Box::new(Expression::Variable { ty: crate::ir::Type::Uint(64), var_no: sv }),
                    right: Box::new(Expression::NumberLiteral { bits: 64, value: 128 }),
                }),
                right: Box::new(Expression::NumberLiteral { bits: 64, value: 6960 }),
            };
            let space_var = Expression::Variable { ty: crate::ir::Type::Uint(64), var_no: sv };
            lemma_create_call(
                blocks,
                bb,
                a + 2,
                buf,
                v as usize,
                lamports,
                space_var,
                contract,
                crate::deploy::seed_exprs(anns),
                b + 2,
                chain,
                vars_s,
                (f - 1) as nat,
            );
            let vb = vars_s.remove(buf);
            assert(sv != buf);
            assert(vb.contains_key(sv) == vars_s.contains_key(sv));
            if vars_s.contains_key(sv) {
                let x = vb[sv];
                assert(eval_num(space_var, vb, chain) == Some(x));
                let sum = Expression::Add {
                    bits: 64,
                    left: Box::new(space_var),
                    right: Box::new(Expression::NumberLiteral { bits: 64, value: 128 }),
                };
                assert(eval_num(Expression::NumberLiteral { bits: 64, value: 128 }, vb, chain) == Some(128int));
                assert(eval_num(sum, vb, chain) == Some(x + 128));
                assert(eval_num(Expression::NumberLiteral { bits: 64, value: 6960 }, vb, chain) == Some(6960int));
                assert(eval_num(lamports, vb, chain) == Some(rent_exempt(x)));
            } else {
                assert(eval_num(space_var, vb, chain) is None);
            }
        },
    }
}

} // verus!

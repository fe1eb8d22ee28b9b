//! Provisioning of a contract's storage account when its constructor runs:
//! the pinned-identity check, the size check, the creation of the account
//! through the system program, and the initial storage header.
use vstd::prelude::*;
use crate::encoding::{
    base58_of, heap_offset, heap_offset_of, pinned_identity_message, program_id_message_of,
    rent_exempt, rent_lamports,
};
use crate::ir::{
    account_field, array_length, emit_print_message, is_account_field, is_print, BlockName,
    Builtin, ControlFlowGraph, Expression, Instr, ReturnCode, Type, Vartable, DATA_FIELD,
    KEY_FIELD,
};
use crate::preamble::AccountRequirement;

verus! {

/// A deployment annotation of a constructor. The expressions are already
/// lowered.
#[derive(Debug)]
pub enum ConstructorAnnotation {
    /// The account, by name, that pays for the storage account.
    Payer(String),
    /// The size of the storage account in bytes.
    Space(Expression),
    /// A seed of the storage account's program-derived address.
    Seed(Expression),
    /// The bump of the storage account's program-derived address (one byte).
    Bump(Expression),
}

/// A constructor parameter: its variable number when the constructor's
/// annotations refer to it, its name and its type.
#[derive(Debug)]
pub struct ConstructorParam {
    pub var_no: Option<usize>,
    pub name: String,
    pub ty: Type,
}

/// What deployment needs to know of the contract.
#[derive(Debug)]
pub struct Deployment {
    /// The program identity pinned at compile time, if any.
    pub program_id: Option<[u8; 32]>,
    /// The size of the fixed storage layout in bytes.
    pub fixed_layout_size: u64,
    /// The contract's selector, written at storage offset 0.
    pub selector: u32,
}

/// The width of an address literal; the system program's address is 0.
pub const ADDRESS_BITS: u16 = 256;

/// The size of a CreateAccount instruction: opcode, lamports, space, owner.
pub const CREATE_ACCOUNT_SIZE: u64 = 52;

/// The storage offset of the heap-start field.
pub const HEAP_OFFSET_FIELD: u64 = 12;

/// The payer named by the first Payer annotation.
pub open spec fn first_payer(anns: Seq<ConstructorAnnotation>) -> Option<String>
    decreases anns.len(),
{
    if anns.len() == 0 {
        None
    } else {
        match anns[0] {
            ConstructorAnnotation::Payer(name) => Some(name),
            _ => first_payer(anns.drop_first()),
        }
    }
}

/// The expression of the first Space annotation.
pub open spec fn first_space(anns: Seq<ConstructorAnnotation>) -> Option<Expression>
    decreases anns.len(),
{
    if anns.len() == 0 {
        None
    } else {
        match anns[0] {
            ConstructorAnnotation::Space(e) => Some(e),
            _ => first_space(anns.drop_first()),
        }
    }
}

/// The seeds, in annotation order: each Seed expression, and each Bump
/// expression as a one-byte slice.
pub open spec fn seed_exprs(anns: Seq<ConstructorAnnotation>) -> Seq<Expression>
    decreases anns.len(),
{
    if anns.len() == 0 {
        Seq::empty()
    } else {
        match anns[0] {
            ConstructorAnnotation::Seed(e) => seq![e] + seed_exprs(anns.drop_first()),
            ConstructorAnnotation::Bump(e) => seq![Expression::ByteToSlice { expr: Box::new(e) }]
                + seed_exprs(anns.drop_first()),
            _ => seed_exprs(anns.drop_first()),
        }
    }
}

/// The assignments that bind each referenced parameter to its decoded argument.
pub open spec fn bindings(params: Seq<ConstructorParam>, args: Seq<Expression>) -> Seq<Instr>
    decreases params.len(),
{
    if params.len() == 0 {
        Seq::empty()
    } else {
        let i = params.len() - 1;
        bindings(params.drop_last(), args.subrange(0, i)) + match params[i].var_no {
            Some(v) => seq![Instr::Assign { res: v, expr: args[i] }],
            None => Seq::empty(),
        }
    }
}

/// `i` is the position of the first requirement named `name`.
pub open spec fn is_first_named(accounts: Seq<AccountRequirement>, name: String, i: int) -> bool {
    &&& 0 <= i < accounts.len()
    &&& accounts[i].name@ == name@
    &&& forall|j: int| 0 <= j < i ==> #[trigger] accounts[j].name@ != name@
}

/// `e` is the runtime identity of the running program.
pub open spec fn is_program_id(e: Expression) -> bool {
    match e {
        Expression::Builtin { kind: Builtin::ProgramId, args, .. } => args@.len() == 0,
        _ => false,
    }
}

/// `e` reads variable `v`.
pub open spec fn is_var(e: Expression, v: usize) -> bool {
    e matches Expression::Variable { var_no, .. } && var_no == v
}

/// `e` is the 32-bit literal `n`.
pub open spec fn is_u32(e: Expression, n: u64) -> bool {
    e == Expression::NumberLiteral { bits: 32, value: n }
}

/// `e` is the 64-bit literal `n`.
pub open spec fn is_u64(e: Expression, n: u64) -> bool {
    e == Expression::NumberLiteral { bits: 64, value: n }
}

/// `e` is an account meta: the address `key`, writable and signer.
pub open spec fn is_writable_signer_meta(e: Expression, key: spec_fn(Expression) -> bool) -> bool {
    match e {
        Expression::StructLiteral { values, .. } => values@.len() == 3 && (match values@[0] {
            Expression::GetRef { expr } => key(*expr),
            _ => false,
        }) && values@[1] == Expression::BoolLiteral { value: true } && values@[2]
            == Expression::BoolLiteral { value: true },
        _ => false,
    }
}

/// `e` is the two account metas of a CreateAccount call: the payer at
/// position `payer`, then the storage account, both writable and signer.
pub open spec fn is_create_metas(e: Expression, payer: int) -> bool {
    match e {
        Expression::ArrayLiteral { dims, values, .. } => dims@ == seq![2u32] && values@.len() == 2
            && is_writable_signer_meta(
            values@[0],
            |k: Expression| is_account_field(k, payer as u64, KEY_FIELD),
        ) && is_writable_signer_meta(
            values@[1],
            |k: Expression|
                k matches Expression::Builtin { kind: Builtin::GetAddress, args, .. } && args@.len()
                    == 0,
        ),
        _ => false,
    }
}

/// `s` is the signer seeds of a call: none when there are no seeds, else one
/// seed list, of the storage account's address, holding `seeds` in order.
pub open spec fn is_seed_list(s: Option<Expression>, seeds: Seq<Expression>) -> bool {
    if seeds.len() == 0 {
        s.is_none()
    } else {
        s matches Some(Expression::ArrayLiteral { dims, values, .. }) && dims@ == seq![1u32]
            && values@.len() == 1 && (values@[0] matches Expression::ArrayLiteral {
            dims: inner_dims,
            values: inner,
            ..
        } && inner_dims@ == seq![seeds.len() as u32] && inner@ == seeds)
    }
}

/// `i` writes `value` at byte `offset` of the buffer in variable `buf`.
pub open spec fn is_buffer_write(i: Instr, buf: usize, offset: u64, value: Expression) -> bool {
    i matches Instr::WriteBuffer { buf: b, offset: o, value: v } && is_var(b, buf) && is_u32(
        o,
        offset,
    ) && v == value
}

/// `e` is the owner of the new account: the pinned identity when there is
/// one, else the running program's.
pub open spec fn is_owner(e: Expression, program_id: Option<[u8; 32]>) -> bool {
    match program_id {
        Some(id) => e == Expression::AddressLiteral { bytes: id },
        None => is_program_id(e),
    }
}

/// From position `k` on, `instrs` build the CreateAccount instruction in
/// variable `buf` with `lamports`, `space` and the owner, call the system
/// program with the metas in `metas` and the seeds, and go to block `ok`.
pub open spec fn is_create_call(
    instrs: Seq<Instr>,
    k: int,
    buf: usize,
    metas: usize,
    lamports: Expression,
    space: Expression,
    program_id: Option<[u8; 32]>,
    seeds: Seq<Expression>,
    ok: int,
) -> bool {
    &&& instrs.len() == k + 7
    &&& instrs[k] matches Instr::Assign { res, expr: Expression::AllocDynamicBytes { size, init, .. } }
        && res == buf && is_u32(*size, 52) && init.is_none()
    &&& is_buffer_write(instrs[k + 1], buf, 0, Expression::NumberLiteral { bits: 32, value: 0 })
    &&& is_buffer_write(instrs[k + 2], buf, 4, lamports)
    &&& is_buffer_write(instrs[k + 3], buf, 12, space)
    &&& instrs[k + 4] matches Instr::WriteBuffer { buf: b, offset: o, value: v } && is_var(b, buf)
        && is_u32(o, 20) && is_owner(v, program_id)
    &&& instrs[k + 5] matches Instr::ExternalCall { address, accounts, seeds: s, payload, value, gas }
        && address == Expression::NumberLiteral { bits: 256, value: 0 } && is_var(accounts, metas)
        && is_seed_list(s, seeds) && is_var(payload, buf) && is_u64(value, 0) && is_u64(gas, 0)
    &&& instrs[k + 6] == Instr::Branch { block: ok as usize }
}

/// The instructions of the creation block that follow the parameter bindings
/// (`a` of them): with a payer, the CreateAccount call through the system
/// program, whose space is the Space expression (kept in a fresh variable)
/// or else the fixed layout size, and whose lamports are the rent exemption of
/// that space; without a payer, a return of `AccountDataTooSmall`. Fresh
/// variables are numbered from `v`: the metas, then the space, then the buffer.
pub open spec fn is_creation(
    instrs: Seq<Instr>,
    a: int,
    anns: Seq<ConstructorAnnotation>,
    accounts: Seq<AccountRequirement>,
    contract: Deployment,
    v: int,
    ok: int,
) -> bool {
    match first_payer(anns) {
        None => instrs.len() == a + 1 && instrs[a] == Instr::ReturnCode {
            code: ReturnCode::AccountDataTooSmall,
        },
        Some(payer) => {
            &&& instrs.len() > a + 1
            &&& instrs[a] matches Instr::Assign { res, expr } && res == v && forall|p: int|
                #[trigger] is_first_named(accounts, payer, p) ==> is_create_metas(expr, p)
            &&& match first_space(anns) {
                None => is_create_call(
                    instrs,
                    a + 1,
                    (v + 1) as usize,
                    v as usize,
                    Expression::NumberLiteral {
                        bits: 64,
                        value: rent_exempt(contract.fixed_layout_size as int) as u64,
                    },
                    Expression::NumberLiteral { bits: 64, value: contract.fixed_layout_size },
                    contract.program_id,
                    seed_exprs(anns),
                    ok,
                ),
                Some(space) => instrs[a + 1] == Instr::Assign { res: (v + 1) as usize, expr: space }
                    && is_create_call(
                    instrs,
                    a + 2,
                    (v + 2) as usize,
                    v as usize,
                    Expression::Multiply {
                        bits: 64,
                        left: Box::new(Expression::Add {
                            bits: 64,
                            left: Box::new(Expression::Variable { ty: Type::Uint(64), var_no: (v + 1) as usize }),
                            right: Box::new(Expression::NumberLiteral { bits: 64, value: 128 }),
                        }),
                        right: Box::new(Expression::NumberLiteral { bits: 64, value: 6960 }),
                    },
                    Expression::Variable { ty: Type::Uint(64), var_no: (v + 1) as usize },
                    contract.program_id,
                    seed_exprs(anns),
                    ok,
                ),
            }
        },
    }
}

/// `instrs` read the data length of the storage account (account 0) into
/// variable `d`, then go to `create` when it is zero and to `exists` otherwise.
pub open spec fn is_length_check(instrs: Seq<Instr>, d: usize, create: int, exists: int) -> bool {
    &&& instrs.len() == 2
    &&& instrs[0] matches Instr::Assign { res, expr: Expression::Builtin { kind: Builtin::ArrayLength, args, .. } }
        && res == d && args@.len() == 1 && is_account_field(args@[0], 0, DATA_FIELD)
    &&& instrs[1] matches Instr::BranchCond { cond: Expression::Equal { left, right }, true_block, false_block }
        && is_var(*left, d) && is_u32(*right, 0) && true_block == create && false_block == exists
}

/// `instrs` go to `ok` when variable `d` is at least `size`, else to `short`.
pub open spec fn is_size_check(instrs: Seq<Instr>, d: usize, size: u64, ok: int, short: int) -> bool {
    &&& instrs.len() == 1
    &&& instrs[0] matches Instr::BranchCond { cond: Expression::MoreEqual { left, right }, true_block, false_block }
        && is_var(*left, d) && is_u32(*right, size) && true_block == ok && false_block == short
}

/// `instrs` write the selector at storage offset 0 and the heap offset of the
/// fixed layout at storage offset 12.
pub open spec fn is_header_write(instrs: Seq<Instr>, contract: Deployment) -> bool {
    &&& instrs.len() == 2
    &&& instrs[0] matches Instr::SetStorage { value, storage, .. } && is_u64(
        value,
        contract.selector as u64,
    ) && is_u64(storage, 0)
    &&& instrs[1] matches Instr::SetStorage { value, storage, .. } && is_u64(
        value,
        heap_offset_of(contract.fixed_layout_size),
    ) && is_u64(storage, 12)
}

/// `instrs` go to `ok` when the running program is `id`, else to `fail`.
pub open spec fn is_identity_check(instrs: Seq<Instr>, id: [u8; 32], ok: int, fail: int) -> bool {
    &&& instrs.len() > 0
    &&& instrs.last() matches Instr::BranchCond { cond: Expression::Equal { left, right }, true_block, false_block }
        && *left == Expression::AddressLiteral { bytes: id } && is_program_id(*right) && true_block
        == ok && false_block == fail
}

/// The position of the first requirement named `name`, if any.
fn index_of(accounts: &Vec<AccountRequirement>, name: &String) -> (r: Option<usize>)
    ensures
        match r {
            Some(i) => is_first_named(accounts@, *name, i as int),
            None => forall|i: int| 0 <= i < accounts@.len() ==> #[trigger] accounts@[i].name@ != name@,
        },
{
    let mut i: usize = 0;
    while i < accounts.len()
        invariant
            i <= accounts@.len(),
            forall|j: int| 0 <= j < i ==> #[trigger] accounts@[j].name@ != name@,
        decreases accounts@.len() - i,
    {
        if accounts[i].name == *name {
            return Some(i);
        }
        i = i + 1;
    }
    None
}

/// Splits the annotations into the first payer, the first space expression
/// and the seeds.
fn split_annotations(annotations: Vec<ConstructorAnnotation>) -> (r: (
    Option<String>,
    Option<Expression>,
    Vec<Expression>,
))
    ensures
        r.0 == first_payer(annotations@),
        r.1 == first_space(annotations@),
        r.2@ == seed_exprs(annotations@),
{
    let ghost all = annotations@;
    let mut rest = annotations;
    let mut payer: Option<String> = None;
    let mut space: Option<Expression> = None;
    let mut seeds: Vec<Expression> = Vec::new();
    while rest.len() > 0
        invariant
            first_payer(all) == match payer {
                Some(p) => Some(p),
                None => first_payer(rest@),
            },
            first_space(all) == match space {
                Some(e) => Some(e),
                None => first_space(rest@),
            },
            seed_exprs(all) == seeds@ + seed_exprs(rest@),
        decreases rest@.len(),
    {
        let ghost before = rest@;
        let a = rest.remove(0);
        assert(rest@ == before.drop_first());
        match a {
            ConstructorAnnotation::Payer(name) => {
                if payer.is_none() {
                    payer = Some(name);
                }
            },
            ConstructorAnnotation::Space(e) => {
                if space.is_none() {
                    space = Some(e);
                }
            },
            ConstructorAnnotation::Seed(e) => {
                seeds.push(e);
                assert(seed_exprs(before) == seq![e] + seed_exprs(rest@));
            },
            ConstructorAnnotation::Bump(e) => {
                let ghost g = Expression::ByteToSlice { expr: Box::new(e) };
                seeds.push(Expression::ByteToSlice { expr: Box::new(e) });
                assert(seed_exprs(before) == seq![g] + seed_exprs(rest@));
            },
        }
    }
    (payer, space, seeds)
}

/// Two-element vector.
fn pair<T>(a: T, b: T) -> (r: Vec<T>)
    ensures
        r@ == seq![a, b],
{
    let mut r: Vec<T> = Vec::new();
    r.push(a);
    r.push(b);
    r
}

/// Three-element vector.
fn triple<T>(a: T, b: T, c: T) -> (r: Vec<T>)
    ensures
        r@ == seq![a, b, c],
{
    let mut r: Vec<T> = Vec::new();
    r.push(a);
    r.push(b);
    r.push(c);
    r
}

/// One-element vector.
fn single<T>(a: T) -> (r: Vec<T>)
    ensures
        r@ == seq![a],
{
    let mut r: Vec<T> = Vec::new();
    r.push(a);
    r
}

/// An account meta for the address `key`, writable and signer.
fn writable_signer_meta(key: Expression) -> (e: Expression)
    ensures
        e matches Expression::StructLiteral { values, .. } && values@ == seq![
            Expression::GetRef { expr: Box::new(key) },
            Expression::BoolLiteral { value: true },
            Expression::BoolLiteral { value: true },
        ],
{
    Expression::StructLiteral {
        ty: Type::AccountMeta,
        values: triple(
            Expression::GetRef { expr: Box::new(key) },
            Expression::BoolLiteral { value: true },
            Expression::BoolLiteral { value: true },
        ),
    }
}

/// The metas of the CreateAccount call, with the payer at position `payer`.
fn create_metas(payer: usize) -> (e: Expression)
    ensures
        is_create_metas(e, payer as int),
{
    let payer_key = account_field(payer as u64, KEY_FIELD, Type::Address);
    let own = Expression::Builtin { ty: Type::Address, kind: Builtin::GetAddress, args: Vec::new() };
    let first = writable_signer_meta(payer_key);
    let second = writable_signer_meta(own);
    Expression::ArrayLiteral {
        ty: Type::Array(Box::new(Type::AccountMeta), Some(2)),
        dims: single(2u32),
        values: pair(first, second),
    }
}

/// The signer seeds of the CreateAccount call.
fn seed_list(seeds: Vec<Expression>) -> (r: Option<Expression>)
    requires
        seeds@.len() <= u32::MAX,
    ensures
        is_seed_list(r, seeds@),
{
    if seeds.len() == 0 {
        None
    } else {
        let n = seeds.len();
        let slice_ty = Type::Slice(Box::new(Type::Bytes(1)));
        let inner = Expression::ArrayLiteral {
            ty: Type::Array(Box::new(slice_ty), Some(n as u64)),
            dims: single(n as u32),
            values: seeds,
        };
        Some(
            Expression::ArrayLiteral {
                ty: Type::Array(
                    Box::new(Type::Slice(Box::new(Type::Slice(Box::new(Type::Bytes(1)))))),
                    Some(1),
                ),
                dims: single(1u32),
                values: single(inner),
            },
        )
    }
}

/// A variable reference.
fn var(ty: Type, var_no: usize) -> (e: Expression)
    ensures
        e == (Expression::Variable { ty, var_no }),
{
    Expression::Variable { ty, var_no }
}

/// Appends the creation of the storage account, paid by the account at
/// position `payer`, to the block under the cursor, ending with a branch to
/// block `ok`.
#[verifier::rlimit(50)]
fn emit_create_account(
    payer: usize,
    space: Option<Expression>,
    seeds: Vec<Expression>,
    contract: &Deployment,
    ok: usize,
    vartab: &mut Vartable,
    cfg: &mut ControlFlowGraph,
)
    requires
        old(cfg).wf(),
        old(vartab).wf(),
        old(vartab).next_id + 3 <= usize::MAX,
        seeds@.len() <= u32::MAX,
        space.is_none() ==> rent_exempt(contract.fixed_layout_size as int) <= u64::MAX,
    ensures
        final(cfg).wf(),
        final(vartab).wf(),
        final(cfg).current == old(cfg).current,
        final(cfg).name == old(cfg).name,
        final(cfg).kind == old(cfg).kind,
        final(cfg).blocks@.len() == old(cfg).blocks@.len(),
        forall|i: int| 0 <= i < old(cfg).blocks@.len() && i != old(cfg).current ==> #[trigger] final(cfg).blocks@[i] == old(cfg).blocks@[i],
        final(cfg).blocks@[old(cfg).current as int].name == old(cfg).blocks@[old(cfg).current as int].name,
        ({
            let before = old(cfg).blocks@[old(cfg).current as int].instrs@;
            let after = final(cfg).blocks@[old(cfg).current as int].instrs@;
            let a = before.len() as int;
            let v = old(vartab).next_id as int;
            &&& after.subrange(0, a) == before
            &&& after.len() > a + 1
            &&& after[a] matches Instr::Assign { res, expr } && res == v && is_create_metas(expr, payer as int)
            &&& match space {
                None => is_create_call(
                    after,
                    a + 1,
                    (v + 1) as usize,
                    v as usize,
                    Expression::NumberLiteral {
                        bits: 64,
                        value: rent_exempt(contract.fixed_layout_size as int) as u64,
                    },
                    Expression::NumberLiteral { bits: 64, value: contract.fixed_layout_size },
                    contract.program_id,
                    seeds@,
                    ok as int,
                ),
                Some(sp) => after[a + 1] == Instr::Assign { res: (v + 1) as usize, expr: sp }
                    && is_create_call(
                    after,
                    a + 2,
                    (v + 2) as usize,
                    v as usize,
                    Expression::Multiply {
                        bits: 64,
                        left: Box::new(Expression::Add {
                            bits: 64,
                            left: Box::new(Expression::Variable { ty: Type::Uint(64), var_no: (v + 1) as usize }),
                            right: Box::new(Expression::NumberLiteral { bits: 64, value: 128 }),
                        }),
                        right: Box::new(Expression::NumberLiteral { bits: 64, value: 6960 }),
                    },
                    Expression::Variable { ty: Type::Uint(64), var_no: (v + 1) as usize },
                    contract.program_id,
                    seeds@,
                    ok as int,
                ),
            }
        }),
{
    let ghost before = cfg.blocks@[cfg.current as int].instrs@;
    let ghost v = vartab.next_id;
    let ghost seeds_view = seeds@;
    let metas_ty = Type::Array(Box::new(Type::AccountMeta), Some(2));
    let metas = vartab.temp_name("metas".to_string(), metas_ty);
    cfg.add(vartab, Instr::Assign { res: metas, expr: create_metas(payer) });

    let (space_expr, lamports) = match space {
        Some(sp) => {
            let space_var = vartab.temp_name("space".to_string(), Type::Uint(64));
            cfg.add(vartab, Instr::Assign { res: space_var, expr: sp });
            let lamports = Expression::Multiply {
                bits: 64,
                left: Box::new(Expression::Add {
                    bits: 64,
                    left: Box::new(var(Type::Uint(64), space_var)),
                    right: Box::new(Expression::NumberLiteral { bits: 64, value: 128 }),
                }),
                right: Box::new(Expression::NumberLiteral { bits: 64, value: 6960 }),
            };
            (var(Type::Uint(64), space_var), lamports)
        },
        None => {
            let size = contract.fixed_layout_size;
            (
                Expression::NumberLiteral { bits: 64, value: size },
                Expression::NumberLiteral { bits: 64, value: rent_lamports(size) },
            )
        },
    };

    let buf = vartab.temp_name("instruction".to_string(), Type::DynamicBytes);
    cfg.add(
        vartab,
        Instr::Assign {
            res: buf,
            expr: Expression::AllocDynamicBytes {
                ty: Type::DynamicBytes,
                size: Box::new(Expression::NumberLiteral { bits: 32, value: CREATE_ACCOUNT_SIZE }),
                init: None,
            },
        },
    );
    cfg.add(
        vartab,
        Instr::WriteBuffer {
            buf: var(Type::DynamicBytes, buf),
            offset: Expression::NumberLiteral { bits: 32, value: 0 },
            value: Expression::NumberLiteral { bits: 32, value: 0 },
        },
    );
    cfg.add(
        vartab,
        Instr::WriteBuffer {
            buf: var(Type::DynamicBytes, buf),
            offset: Expression::NumberLiteral { bits: 32, value: 4 },
            value: lamports,
        },
    );
    cfg.add(
        vartab,
        Instr::WriteBuffer {
            buf: var(Type::DynamicBytes, buf),
            offset: Expression::NumberLiteral { bits: 32, value: 12 },
            value: space_expr,
        },
    );
    let owner = match contract.program_id {
        Some(id) => Expression::AddressLiteral { bytes: id },
        None => Expression::Builtin { ty: Type::Address, kind: Builtin::ProgramId, args: Vec::new() },
    };
    cfg.add(
        vartab,
        Instr::WriteBuffer {
            buf: var(Type::DynamicBytes, buf),
            offset: Expression::NumberLiteral { bits: 32, value: 20 },
            value: owner,
        },
    );
    cfg.add(
        vartab,
        Instr::ExternalCall {
            address: Expression::NumberLiteral { bits: ADDRESS_BITS, value: 0 },
            accounts: var(Type::Array(Box::new(Type::AccountMeta), Some(2)), metas),
            seeds: seed_list(seeds),
            payload: var(Type::DynamicBytes, buf),
            value: Expression::NumberLiteral { bits: 64, value: 0 },
            gas: Expression::NumberLiteral { bits: 64, value: 0 },
        },
    );
    cfg.add(vartab, Instr::Branch { block: ok });
    let ghost after = cfg.blocks@[cfg.current as int].instrs@;
    assert(after.subrange(0, before.len() as int) =~= before);
}

/// Appends to the block under the cursor the assignments that bind each
/// referenced constructor parameter to its decoded argument.
fn bind_params(
    params: Vec<ConstructorParam>,
    args: Vec<Expression>,
    vartab: &mut Vartable,
    cfg: &mut ControlFlowGraph,
)
    requires
        old(cfg).wf(),
        old(vartab).wf(),
        args@.len() == params@.len(),
    ensures
        final(cfg).wf(),
        final(vartab).wf(),
        final(vartab).next_id == old(vartab).next_id,
        final(cfg).current == old(cfg).current,
        final(cfg).name == old(cfg).name,
        final(cfg).kind == old(cfg).kind,
        final(cfg).blocks@.len() == old(cfg).blocks@.len(),
        forall|i: int| 0 <= i < old(cfg).blocks@.len() && i != old(cfg).current ==> #[trigger] final(cfg).blocks@[i] == old(cfg).blocks@[i],
        final(cfg).blocks@[old(cfg).current as int].name == old(cfg).blocks@[old(cfg).current as int].name,
        final(cfg).blocks@[old(cfg).current as int].instrs@ == old(cfg).blocks@[old(cfg).current as int].instrs@
            + bindings(params@, args@),
{
    let ghost all_params = params@;
    let ghost all_args = args@;
    let ghost cur = cfg.current as int;
    let ghost start = cfg.blocks@[cur].instrs@;
    let n = params.len();
    let mut params = params;
    let mut args = args;
    let mut i: usize = 0;
    while i < n
        invariant
            n == all_params.len(),
            all_args.len() == n,
            i <= n,
            params@ == all_params.subrange(i as int, n as int),
            args@ == all_args.subrange(i as int, n as int),
            cfg.wf(),
            vartab.wf(),
            vartab.next_id == old(vartab).next_id,
            cfg.current == cur,
            cfg.name == old(cfg).name,
            cfg.kind == old(cfg).kind,
            cfg.blocks@.len() == old(cfg).blocks@.len(),
            forall|j: int| 0 <= j < old(cfg).blocks@.len() && j != cur ==> #[trigger] cfg.blocks@[j] == old(cfg).blocks@[j],
            cfg.blocks@[cur].name == old(cfg).blocks@[cur].name,
            cfg.blocks@[cur].instrs@ == start + bindings(all_params.subrange(0, i as int), all_args.subrange(0, i as int)),
        decreases n - i,
    {
        let ghost pre = cfg.blocks@[cur].instrs@;
        let param = params.remove(0);
        let arg = args.remove(0);
        assert(param == all_params[i as int]);
        assert(arg == all_args[i as int]);
        let ghost ps = all_params.subrange(0, i + 1);
        let ghost as_ = all_args.subrange(0, i + 1);
        assert(ps.drop_last() =~= all_params.subrange(0, i as int));
        assert(as_.subrange(0, i as int) =~= all_args.subrange(0, i as int));
        match param.var_no {
            Some(v) => {
                vartab.add_known(v, param.name, param.ty);
                cfg.add(vartab, Instr::Assign { res: v, expr: arg });
                assert(cfg.blocks@[cur].instrs@ =~= start + bindings(ps, as_));
            },
            None => {
                assert(cfg.blocks@[cur].instrs@ =~= start + bindings(ps, as_));
            },
        }
        i = i + 1;
    }
    assert(all_params.subrange(0, n as int) =~= all_params);
    assert(all_args.subrange(0, n as int) =~= all_args);
}

/// The number of the first block that follows the pinned-identity check.
pub open spec fn first_size_block(cfg: ControlFlowGraph, contract: Deployment) -> int {
    if contract.program_id.is_some() {
        cfg.blocks@.len() + 2 as int
    } else {
        cfg.blocks@.len() as int
    }
}

/// `after` is the constructor graph `before` with the provisioning of the
/// storage account appended, fresh variables numbered from `d`.
pub open spec fn is_deployment(
    before: ControlFlowGraph,
    after: ControlFlowGraph,
    d: usize,
    params: Seq<ConstructorParam>,
    args: Seq<Expression>,
    anns: Seq<ConstructorAnnotation>,
    accounts: Seq<AccountRequirement>,
    contract: Deployment,
) -> bool {
    let c = before.current as int;
    let l = before.blocks@.len() as int;
    let b = first_size_block(before, contract);
    let blocks = after.blocks@;
    &&& after.wf()
    &&& after.name == before.name
    &&& after.kind == before.kind
    &&& blocks.len() == b + 4
    &&& blocks.len() <= usize::MAX
    &&& after.current == b + 2
    &&& forall|i: int| 0 <= i < l && i != c ==> #[trigger] blocks[i] == before.blocks@[i]
    &&& blocks[c].name == before.blocks@[c].name
    &&& match contract.program_id {
        Some(id) => {
            &&& blocks[c].instrs@.drop_last() == before.blocks@[c].instrs@
            &&& is_identity_check(blocks[c].instrs@, id, l + 1, l)
            &&& blocks[l].name == BlockName::ProgramIdFail
            &&& blocks[l].instrs@.len() == 2
            &&& is_print(blocks[l].instrs@[0], program_id_message_of(base58_of(id@)))
            &&& blocks[l].instrs@[1] == Instr::ReturnCode { code: ReturnCode::InvalidProgramId }
            &&& blocks[l + 1].name == BlockName::ProgramIdOk
            &&& is_length_check(blocks[l + 1].instrs@, d, b + 1, b)
        },
        None => {
            &&& blocks[c].instrs@.len() == before.blocks@[c].instrs@.len() + 2
            &&& blocks[c].instrs@.subrange(0, before.blocks@[c].instrs@.len() as int)
                == before.blocks@[c].instrs@
            &&& is_length_check(
                blocks[c].instrs@.subrange(
                    before.blocks@[c].instrs@.len() as int,
                    blocks[c].instrs@.len() as int,
                ),
                d,
                b + 1,
                b,
            )
        },
    }
    &&& blocks[b].name == BlockName::AccountExists
    &&& is_size_check(blocks[b].instrs@, d, contract.fixed_layout_size, b + 2, b + 3)
    &&& blocks[b + 1].name == BlockName::CreateAccount
    &&& blocks[b + 1].instrs@.subrange(0, bindings(params, args).len() as int)
        == bindings(params, args)
    &&& is_creation(
        blocks[b + 1].instrs@,
        bindings(params, args).len() as int,
        anns,
        accounts,
        contract,
        d + 1,
        b + 2,
    )
    &&& blocks[b + 2].name == BlockName::AccountOk
    &&& is_header_write(blocks[b + 2].instrs@, contract)
    &&& blocks[b + 3].name == BlockName::NotEnough
    &&& blocks[b + 3].instrs@ == seq![Instr::ReturnCode { code: ReturnCode::AccountDataTooSmall }]
}

/// Appends to the constructor graph `cfg` the provisioning of the contract's
/// storage account (account 0): when an identity is pinned, a check of the
/// running program's identity that logs the expected base58 address and
/// returns `InvalidProgramId` on mismatch; then a check of the account's data
/// length: zero goes to creation, at least the fixed layout size goes to
/// the header write, anything else returns `AccountDataTooSmall`. Creation
/// binds the constructor's referenced parameters to `constructor_args`, then,
/// with a Payer annotation, calls the system program's CreateAccount and goes
/// on to the header write; without one it returns `AccountDataTooSmall`. The
/// header write stores the selector at storage offset 0 and the heap offset
/// at 12. The cursor ends on the header-write block; `b` below is
/// `first_size_block`, and the new blocks are the account-exists check `b`,
/// creation `b + 1`, the header write `b + 2` and the too-small return `b + 3`.
#[verifier::rlimit(60)]
pub fn solana_deploy(
    params: Vec<ConstructorParam>,
    constructor_args: Vec<Expression>,
    annotations: Vec<ConstructorAnnotation>,
    accounts: &Vec<AccountRequirement>,
    contract: &Deployment,
    vartab: &mut Vartable,
    cfg: &mut ControlFlowGraph,
)
    requires
        old(cfg).wf(),
        old(vartab).wf(),
        constructor_args@.len() == params@.len(),
        old(cfg).blocks@.len() + 6 <= usize::MAX,
        old(vartab).next_id + 4 <= usize::MAX,
        contract.fixed_layout_size <= u64::MAX - 7,
        seed_exprs(annotations@).len() <= u32::MAX,
        first_payer(annotations@) matches Some(p) ==> exists|i: int| #[trigger] is_first_named(accounts@, p, i),
        first_payer(annotations@).is_some() && first_space(annotations@).is_none() ==> rent_exempt(
            contract.fixed_layout_size as int,
        ) <= u64::MAX,
    ensures
        final(cfg).wf(),
        final(vartab).wf(),
        is_deployment(
            *old(cfg),
            *final(cfg),
            old(vartab).next_id,
            params@,
            constructor_args@,
            annotations@,
            accounts@,
            *contract,
        ),
{
    let ghost before = *cfg;
    let ghost c = cfg.current as int;
    let ghost l = cfg.blocks@.len() as int;
    let ghost d = vartab.next_id;
    let ghost anns = annotations@;
    let ghost bound = bindings(params@, constructor_args@);
    let ghost old_c_instrs = cfg.blocks@[c].instrs@;

    if let Some(id) = contract.program_id {
        let cond = Expression::Equal {
            left: Box::new(Expression::AddressLiteral { bytes: id }),
            right: Box::new(
                Expression::Builtin { ty: Type::Address, kind: Builtin::ProgramId, args: Vec::new() },
            ),
        };
        let id_fail = cfg.new_basic_block(BlockName::ProgramIdFail);
        let id_ok = cfg.new_basic_block(BlockName::ProgramIdOk);
        cfg.add(vartab, Instr::BranchCond { cond, true_block: id_ok, false_block: id_fail });
        cfg.set_basic_block(id_fail);
        emit_print_message(pinned_identity_message(&id), vartab, cfg);
        cfg.add(vartab, Instr::ReturnCode { code: ReturnCode::InvalidProgramId });
        cfg.set_basic_block(id_ok);
    }
    let ghost mid = cfg.blocks@;
    let ghost start = cfg.current as int;
    let ghost start_instrs = cfg.blocks@[start].instrs@;

    let data = account_field(0, DATA_FIELD, Type::DynamicBytes);
    let length = array_length(data);
    let data_len = vartab.temp_name("data_length".to_string(), Type::Uint(32));
    cfg.add(vartab, Instr::Assign { res: data_len, expr: length });
    let no_data = Expression::Equal {
        left: Box::new(var(Type::Uint(32), data_len)),
        right: Box::new(Expression::NumberLiteral { bits: 32, value: 0 }),
    };
    let account_exists = cfg.new_basic_block(BlockName::AccountExists);
    let create_account = cfg.new_basic_block(BlockName::CreateAccount);
    cfg.add(
        vartab,
        Instr::BranchCond { cond: no_data, true_block: create_account, false_block: account_exists },
    );
    assert(cfg.blocks@[start].instrs@.subrange(0, start_instrs.len() as int) =~= start_instrs);
    assert(cfg.blocks@[start].instrs@.subrange(start_instrs.len() as int, cfg.blocks@[start].instrs@.len() as int) =~= seq![
        cfg.blocks@[start].instrs@[start_instrs.len() as int],
        cfg.blocks@[start].instrs@[start_instrs.len() + 1 as int],
    ]);

    cfg.set_basic_block(account_exists);
    let is_enough = Expression::MoreEqual {
        left: Box::new(var(Type::Uint(32), data_len)),
        right: Box::new(Expression::NumberLiteral { bits: 32, value: contract.fixed_layout_size }),
    };
    let account_ok = cfg.new_basic_block(BlockName::AccountOk);
    let not_enough = cfg.new_basic_block(BlockName::NotEnough);
    cfg.add(
        vartab,
        Instr::BranchCond { cond: is_enough, true_block: account_ok, false_block: not_enough },
    );
    cfg.set_basic_block(not_enough);
    cfg.add(vartab, Instr::ReturnCode { code: ReturnCode::AccountDataTooSmall });

    cfg.set_basic_block(create_account);
    bind_params(params, constructor_args, vartab, cfg);
    let ghost bound_len = cfg.blocks@[create_account as int].instrs@.len();
    assert(cfg.blocks@[create_account as int].instrs@ =~= bound);

    let (payer, space, seeds) = split_annotations(annotations);
    match payer {
        Some(name) => {
            let idx = index_of(accounts, &name);
            match idx {
                Some(p) => {
                    emit_create_account(p, space, seeds, contract, account_ok, vartab, cfg);
                    let ghost after = cfg.blocks@[create_account as int].instrs@;
                    assert(after.subrange(0, bound_len as int) == bound);
                    assert forall|q: int| #[trigger] is_first_named(accounts@, name, q) implies q == p by {
                        if q < p {
                            assert(accounts@[q].name@ != name@);
                        } else if q > p {
                            assert(accounts@[p as int].name@ != name@);
                        }
                    }
                },
                None => {
                    assert(exists|i: int| #[trigger] is_first_named(accounts@, name, i));
                    let ghost w = choose|i: int| #[trigger] is_first_named(accounts@, name, i);
                    assert(accounts@[w].name@ != name@);
                    cfg.add(vartab, Instr::ReturnCode { code: ReturnCode::AccountDataTooSmall });
                },
            }
        },
        None => {
            cfg.add(vartab, Instr::ReturnCode { code: ReturnCode::AccountDataTooSmall });
            assert(cfg.blocks@[create_account as int].instrs@.subrange(0, bound_len as int) =~= bound);
        },
    }

    cfg.set_basic_block(account_ok);
    cfg.add(
        vartab,
        Instr::SetStorage {
            ty: Type::Uint(32),
            value: Expression::NumberLiteral { bits: 64, value: contract.selector as u64 },
            storage: Expression::NumberLiteral { bits: 64, value: 0 },
        },
    );
    let offset = heap_offset(contract.fixed_layout_size);
    cfg.add(
        vartab,
        Instr::SetStorage {
            ty: Type::Uint(32),
            value: Expression::NumberLiteral { bits: 64, value: offset },
            storage: Expression::NumberLiteral { bits: 64, value: HEAP_OFFSET_FIELD },
        },
    );
    proof {
        let b = first_size_block(before, *contract);
        let blocks = cfg.blocks@;
        assert(blocks.len() == b + 4);
        assert(cfg.current == b + 2);
        assert(forall|i: int| 0 <= i < l && i != c ==> #[trigger] blocks[i] == before.blocks@[i]);
        assert(blocks[b].name == BlockName::AccountExists);
        assert(is_size_check(blocks[b].instrs@, d, contract.fixed_layout_size, b + 2, b + 3));
        assert(is_header_write(blocks[b + 2].instrs@, *contract));
        assert(blocks[b + 3].instrs@ == seq![Instr::ReturnCode { code: ReturnCode::AccountDataTooSmall }]);
        assert(is_creation(blocks[b + 1].instrs@, bound.len() as int, anns, accounts@, *contract, d + 1, b + 2));
        assert(blocks[c].name == before.blocks@[c].name);
        assert(cfg.name == before.name);
        assert(blocks[b + 1].instrs@.subrange(0, bound.len() as int) == bound);
        match contract.program_id {
            Some(id) => {
                assert(blocks[c].instrs@.drop_last() == before.blocks@[c].instrs@);
                assert(is_identity_check(blocks[c].instrs@, id, l + 1, l));
                assert(is_print(blocks[l].instrs@[0], program_id_message_of(base58_of(id@))));
                assert(is_length_check(blocks[l + 1].instrs@, d, b + 1, b));
            },
            None => {
                assert(blocks[c].instrs@.subrange(0, before.blocks@[c].instrs@.len() as int)
                    == before.blocks@[c].instrs@);
            },
        }
    }
}

} // verus!

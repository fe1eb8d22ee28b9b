//! The account-validation preamble of a function: a graph that checks the
//! runtime account array against the function's declared requirements before
//! the function body runs.
use vstd::prelude::*;
use vstd::string::{StringExecFns, StringSliceAdditionalSpecFns};
use crate::ir::{
    account_field, accounts_expr, array_length, emit_print_message, is_account_field,
    is_accounts_length, is_log_and_trap, BasicBlock, BlockName, ControlFlowGraph, Expression,
    GraphKind, Instr, Type, Vartable, SIGNER_FIELD, WRITER_FIELD,
};
use crate::text::{literal_bytes, name_bytes, quote_name};

verus! {

/// What a function demands of the account at its position in the runtime
/// account array.
#[derive(Debug)]
pub struct AccountRequirement {
    pub name: String,
    pub is_signer: bool,
    pub is_writer: bool,
}

/// A requirement with at least one flag set gets a runtime check.
pub open spec fn is_checked(r: AccountRequirement) -> bool {
    r.is_signer || r.is_writer
}

/// The number of checked requirements among the first `i`.
pub open spec fn checks_before(reqs: Seq<AccountRequirement>, i: int) -> nat
    decreases i,
{
    if i <= 0 {
        0
    } else {
        checks_before(reqs, i - 1) + if is_checked(reqs[i - 1]) {
            1nat
        } else {
            0nat
        }
    }
}

/// The block that control reaches once the first `i` requirements passed.
pub open spec fn validated_block(reqs: Seq<AccountRequirement>, i: int) -> int {
    1 + 2 * checks_before(reqs, i) as int
}

/// The message logged when the runtime array is too short.
pub open spec fn missing_account_message() -> Seq<u8> {
    "An account is missing for the transaction".spec_bytes()
}

/// The message logged when requirement `r` is not met.
pub open spec fn requirement_message(r: AccountRequirement) -> Seq<u8> {
    "Account '".spec_bytes() + name_bytes(r.name) + if r.is_signer && r.is_writer {
        "' should be a mutable signer".spec_bytes()
    } else if r.is_signer {
        "' should be a signer".spec_bytes()
    } else {
        "' should be mutable".spec_bytes()
    }
}

/// `cond` is the single condition that checks requirement `r` of position `i`:
/// the signer flag, the writable flag, or the conjunction of both.
pub open spec fn is_requirement_check(cond: Expression, r: AccountRequirement, i: int) -> bool {
    if r.is_signer && r.is_writer {
        match cond {
            Expression::BitwiseAnd { left, right } => is_account_field(
                *left,
                i as u64,
                SIGNER_FIELD,
            ) && is_account_field(*right, i as u64, WRITER_FIELD),
            _ => false,
        }
    } else if r.is_signer {
        is_account_field(cond, i as u64, SIGNER_FIELD)
    } else {
        is_account_field(cond, i as u64, WRITER_FIELD)
    }
}

/// `b` branches to `ok` when requirement `r` of position `i` holds, else to `fail`.
pub open spec fn is_check_block(
    b: BasicBlock,
    r: AccountRequirement,
    i: int,
    ok: int,
    fail: int,
) -> bool {
    &&& b.instrs@.len() == 1
    &&& match b.instrs@[0] {
        Instr::BranchCond { cond, true_block, false_block } => is_requirement_check(cond, r, i)
            && true_block == ok && false_block == fail,
        _ => false,
    }
}

/// `b` compares the number `n` of requirements with the runtime array's length,
/// going to block 2 when the array is shorter and to block 1 otherwise.
pub open spec fn is_bounds_check(b: BasicBlock, n: nat) -> bool {
    &&& b.instrs@.len() == 1
    &&& match b.instrs@[0] {
        Instr::BranchCond { cond: Expression::More { left, right }, true_block, false_block } => *left
            == Expression::NumberLiteral { bits: 32, value: n as u64 } && is_accounts_length(*right)
            && true_block == 2 && false_block == 1,
        _ => false,
    }
}

/// Requirement `i` is checked by its validated block as `cfg` states it.
pub open spec fn requirement_emitted(
    blocks: Seq<BasicBlock>,
    reqs: Seq<AccountRequirement>,
    i: int,
) -> bool {
    let v = validated_block(reqs, i);
    is_checked(reqs[i]) ==> {
        &&& is_check_block(blocks[v], reqs[i], i, v + 2, v + 3)
        &&& blocks[v + 2].name == BlockName::AccountValidated(i as usize)
        &&& blocks[v + 3].name == BlockName::ValidationFailed(i as usize)
        &&& is_log_and_trap(blocks[v + 3], requirement_message(reqs[i]))
    }
}

/// The fixed part of a preamble: the bounds check in the entry block and the
/// two blocks it leads to.
pub open spec fn bounds_emitted(blocks: Seq<BasicBlock>, n: nat) -> bool {
    &&& blocks.len() >= 3
    &&& is_bounds_check(blocks[0], n)
    &&& blocks[0].name == BlockName::Entry
    &&& blocks[1].name == BlockName::InBounds
    &&& blocks[2].name == BlockName::OutOfBounds
    &&& is_log_and_trap(blocks[2], missing_account_message())
}

/// `cfg` is the preamble of a function with requirements `reqs`.
pub open spec fn is_preamble(cfg: ControlFlowGraph, reqs: Seq<AccountRequirement>) -> bool {
    let last = validated_block(reqs, reqs.len() as int);
    &&& cfg.blocks@.len() == 3 + 2 * checks_before(reqs, reqs.len() as int)
    &&& bounds_emitted(cfg.blocks@, reqs.len())
    &&& forall|i: int| 0 <= i < reqs.len() ==> #[trigger] requirement_emitted(cfg.blocks@, reqs, i)
    &&& cfg.blocks@[last].instrs@.len() == 1
    &&& cfg.blocks@[last].instrs@[0] matches Instr::Return { value } && value@.len() == 0
    &&& cfg.blocks@[last].phis matches Some(p) && p@.len() == 0
}

pub proof fn lemma_checks_before_step(reqs: Seq<AccountRequirement>, i: int)
    requires
        0 <= i,
    ensures
        checks_before(reqs, i + 1) == checks_before(reqs, i) + if is_checked(reqs[i]) {
            1nat
        } else {
            0nat
        },
{
}

pub proof fn lemma_checks_before_bound(reqs: Seq<AccountRequirement>, i: int)
    requires
        0 <= i,
    ensures
        checks_before(reqs, i) <= i,
    decreases i,
{
    if i > 0 {
        lemma_checks_before_bound(reqs, i - 1);
    }
}

/// The condition checking requirement `r` of position `i`.
fn requirement_check(r: &AccountRequirement, i: u64) -> (cond: Expression)
    requires
        r.is_signer || r.is_writer,
    ensures
        is_requirement_check(cond, *r, i as int),
{
    let ty = Type::Ref(Box::new(Type::Bool));
    if r.is_signer && r.is_writer {
        let signer = account_field(i, SIGNER_FIELD, ty);
        let writer = account_field(i, WRITER_FIELD, Type::Ref(Box::new(Type::Bool)));
        Expression::BitwiseAnd { left: Box::new(signer), right: Box::new(writer) }
    } else if r.is_signer {
        account_field(i, SIGNER_FIELD, ty)
    } else {
        account_field(i, WRITER_FIELD, ty)
    }
}

/// The message logged when requirement `r` is not met.
fn requirement_failure_message(r: &AccountRequirement) -> (m: Vec<u8>)
    requires
        r.is_signer || r.is_writer,
    ensures
        m@ == requirement_message(*r),
{
    if r.is_signer && r.is_writer {
        quote_name("Account '", &r.name, "' should be a mutable signer")
    } else if r.is_signer {
        quote_name("Account '", &r.name, "' should be a signer")
    } else {
        quote_name("Account '", &r.name, "' should be mutable")
    }
}

/// Builds the preamble of the function named `parent_func_name` whose
/// requirements are `accounts`, in declaration order; fresh variables are
/// numbered from `next_id`.
pub fn create_preamble(
    parent_func_name: &String,
    accounts: &Vec<AccountRequirement>,
    next_id: usize,
) -> (cfg: ControlFlowGraph)
    requires
        3 + 2 * accounts@.len() <= usize::MAX,
    ensures
        cfg.name@ == parent_func_name@ + "::preamble"@,
        cfg.kind == GraphKind::Preamble,
        is_preamble(cfg, accounts@),
{
    let name = parent_func_name.clone().concat("::preamble");
    let mut cfg = ControlFlowGraph::new(name, GraphKind::Preamble);
    let mut vartab = Vartable::new(next_id);
    let n = accounts.len();

    vartab.new_dirty_tracker();
    let in_bounds = cfg.new_basic_block(BlockName::InBounds);
    let out_of_bounds = cfg.new_basic_block(BlockName::OutOfBounds);

    let cond = Expression::More {
        left: Box::new(Expression::NumberLiteral { bits: 32, value: n as u64 }),
        right: Box::new(array_length(accounts_expr())),
    };
    cfg.add(
        &mut vartab,
        Instr::BranchCond { cond, true_block: out_of_bounds, false_block: in_bounds },
    );
    cfg.set_basic_block(out_of_bounds);
    emit_print_message(
        literal_bytes("An account is missing for the transaction"),
        &mut vartab,
        &mut cfg,
    );
    cfg.add(&mut vartab, Instr::AssertFailure);
    assert(bounds_emitted(cfg.blocks@, n as nat));

    let mut validated = in_bounds;
    let mut i: usize = 0;
    while i < n
        invariant
            n == accounts@.len(),
            3 + 2 * n <= usize::MAX,
            i <= n,
            cfg.name@ == parent_func_name@ + "::preamble"@,
            cfg.kind == GraphKind::Preamble,
            vartab.wf(),
            vartab.frames@.len() == 1,
            vartab.frames@[0] == 0,
            vartab.dirty@.len() == 0,
            validated == validated_block(accounts@, i as int),
            cfg.blocks@.len() == validated + 2,
            validated < cfg.blocks@.len(),
            cfg.blocks@[validated as int].instrs@.len() == 0,
            cfg.blocks@[validated as int].phis.is_none(),
            bounds_emitted(cfg.blocks@, n as nat),
            forall|j: int| 0 <= j < i ==> #[trigger] requirement_emitted(cfg.blocks@, accounts@, j),
        decreases n - i,
    {
        proof {
            lemma_checks_before_step(accounts@, i as int);
            lemma_checks_before_bound(accounts@, i as int);
        }
        let r = &accounts[i];
        if r.is_signer || r.is_writer {
            let ghost before = cfg.blocks@;
            cfg.set_basic_block(validated);
            let prev = validated;
            validated = cfg.new_basic_block(BlockName::AccountValidated(i));
            let failure = cfg.new_basic_block(BlockName::ValidationFailed(i));
            let cond = requirement_check(r, i as u64);
            cfg.add(
                &mut vartab,
                Instr::BranchCond { cond, true_block: validated, false_block: failure },
            );
            cfg.set_basic_block(failure);
            emit_print_message(requirement_failure_message(r), &mut vartab, &mut cfg);
            cfg.add(&mut vartab, Instr::AssertFailure);
            assert(requirement_emitted(cfg.blocks@, accounts@, i as int));
            assert forall|j: int| 0 <= j < i + 1 implies #[trigger] requirement_emitted(
                cfg.blocks@,
                accounts@,
                j,
            ) by {
                if j < i {
                    assert(requirement_emitted(before, accounts@, j));
                    lemma_validated_below(accounts@, j, i as int);
                    let vj = validated_block(accounts@, j);
                    if is_checked(accounts@[j]) {
                        assert(cfg.blocks@[vj] == before[vj]);
                        assert(cfg.blocks@[vj + 3] == before[vj + 3]);
                        assert(cfg.blocks@[vj + 2].name == before[vj + 2].name);
                    }
                }
            }
            assert(bounds_emitted(cfg.blocks@, n as nat)) by {
                assert(cfg.blocks@[0] == before[0]);
                assert(cfg.blocks@[2] == before[2]);
                assert(cfg.blocks@[1].name == before[1].name);
            }
        }
        i = i + 1;
    }

    let ghost last_blocks = cfg.blocks@;
    let phis = vartab.pop_dirty_tracker();
    cfg.set_phis(validated, phis);
    cfg.set_basic_block(validated);
    cfg.add(&mut vartab, Instr::Return { value: Vec::new() });
    proof {
        assert forall|j: int| 0 <= j < accounts@.len() implies #[trigger] requirement_emitted(
            cfg.blocks@,
            accounts@,
            j,
        ) by {
            assert(requirement_emitted(last_blocks, accounts@, j));
            lemma_validated_below(accounts@, j, accounts@.len() as int);
            let vj = validated_block(accounts@, j);
            if is_checked(accounts@[j]) {
                assert(cfg.blocks@[vj] == last_blocks[vj]);
                assert(cfg.blocks@[vj + 3] == last_blocks[vj + 3]);
                assert(cfg.blocks@[vj + 2].name == last_blocks[vj + 2].name);
            }
        }
        assert(cfg.blocks@[0] == last_blocks[0]);
        assert(cfg.blocks@[2] == last_blocks[2]);
        assert(cfg.blocks@[1].name == last_blocks[1].name);
    }
    cfg
}

/// A checked requirement's blocks lie below the validated block of any later
/// position.
pub proof fn lemma_validated_below(reqs: Seq<AccountRequirement>, j: int, i: int)
    requires
        0 <= j < i,
        i <= reqs.len(),
    ensures
        is_checked(reqs[j]) ==> validated_block(reqs, j) + 2 <= validated_block(reqs, i),
        validated_block(reqs, j) <= validated_block(reqs, i),
    decreases i - j,
{
    lemma_checks_before_step(reqs, j);
    if j + 1 < i {
        lemma_validated_below(reqs, j + 1, i);
        lemma_monotone(reqs, j + 1, i);
    }
}

pub proof fn lemma_monotone(reqs: Seq<AccountRequirement>, j: int, i: int)
    requires
        0 <= j <= i,
    ensures
        checks_before(reqs, j) <= checks_before(reqs, i),
    decreases i - j,
{
    if j < i {
        lemma_monotone(reqs, j, i - 1);
    }
}

} // verus!

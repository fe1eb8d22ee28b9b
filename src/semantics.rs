//! What a validation preamble does when it runs: a small semantics of the
//! graphs it is made of, and the laws that its behaviour obeys.
use vstd::prelude::*;
use crate::ir::{BasicBlock, Builtin, ControlFlowGraph, Expression, Instr, SIGNER_FIELD, WRITER_FIELD};
use crate::preamble::{
    is_checked, is_requirement_check, lemma_checks_before_bound, lemma_validated_below, is_preamble, lemma_checks_before_step, missing_account_message,
    requirement_emitted, requirement_message, validated_block, AccountRequirement,
};

verus! {

/// The flags of an account record supplied at run time.
#[derive(Clone, Copy, Debug, PartialEq, Eq, Structural)]
pub struct AccountFlags {
    pub is_signer: bool,
    pub is_writer: bool,
}

/// How a run ends.
#[derive(Clone, Copy, Debug, PartialEq, Eq, Structural)]
pub enum End {
    /// The transaction is aborted.
    Trap,
    /// Control returns normally.
    Return,
    /// The run met something this semantics does not cover.
    Stuck,
}

/// The messages logged by a run, in order, and how it ended.
pub struct Outcome {
    pub logs: Seq<Seq<u8>>,
    pub end: End,
}

/// The value of a condition over the runtime accounts `acc`.
pub open spec fn eval_cond(e: Expression, acc: Seq<AccountFlags>) -> Option<bool>
    decreases e,
{
    match e {
        Expression::More { left, right } => match (*left, *right) {
            (
                Expression::NumberLiteral { value, .. },
                Expression::Builtin { kind: Builtin::ArrayLength, args, .. },
            ) => if args@.len() == 1 && args@[0] matches Expression::Builtin {
                kind: Builtin::Accounts,
                ..
            } {
                Some(value > acc.len())
            } else {
                None
            },
            _ => None,
        },
        Expression::StructMember { expr, field, .. } => match *expr {
            Expression::Subscript { array, index, .. } => match (*array, *index) {
                (
                    Expression::Builtin { kind: Builtin::Accounts, .. },
                    Expression::NumberLiteral { value, .. },
                ) => if value < acc.len() && field == SIGNER_FIELD {
                    Some(acc[value as int].is_signer)
                } else if value < acc.len() && field == WRITER_FIELD {
                    Some(acc[value as int].is_writer)
                } else {
                    None
                },
                _ => None,
            },
            _ => None,
        },
        Expression::BitwiseAnd { left, right } => match (eval_cond(*left, acc), eval_cond(*right, acc)) {
            (Some(l), Some(r)) => Some(l && r),
            _ => None,
        },
        _ => None,
    }
}

/// The text a print instruction logs.
pub open spec fn printed(e: Expression) -> Option<Seq<u8>> {
    match e {
        Expression::AllocDynamicBytes { init: Some(bytes), .. } => Some(bytes@),
        _ => None,
    }
}

/// Runs `blocks` from instruction `k` of block `b` over the runtime accounts
/// `acc`, taking at most `fuel` branches.
pub open spec fn run(blocks: Seq<BasicBlock>, b: int, k: int, acc: Seq<AccountFlags>, fuel: nat) -> Outcome
    decreases fuel, blocks[b].instrs@.len() - k,
{
    let stuck = Outcome { logs: Seq::empty(), end: End::Stuck };
    if !(0 <= b < blocks.len()) || k < 0 || k >= blocks[b].instrs@.len() {
        stuck
    } else {
        match blocks[b].instrs@[k] {
            Instr::Print { expr } => match printed(expr) {
                Some(text) => {
                    let rest = run(blocks, b, k + 1, acc, fuel);
                    Outcome { logs: seq![text] + rest.logs, end: rest.end }
                },
                None => stuck,
            },
            Instr::AssertFailure => Outcome { logs: Seq::empty(), end: End::Trap },
            Instr::Return { .. } => Outcome { logs: Seq::empty(), end: End::Return },
            Instr::BranchCond { cond, true_block, false_block } => if fuel == 0 {
                stuck
            } else {
                match eval_cond(cond, acc) {
                    Some(true) => run(blocks, true_block as int, 0, acc, (fuel - 1) as nat),
                    Some(false) => run(blocks, false_block as int, 0, acc, (fuel - 1) as nat),
                    None => stuck,
                }
            },
            _ => stuck,
        }
    }
}

/// Runs a graph from its entry block.
pub open spec fn run_graph(cfg: ControlFlowGraph, acc: Seq<AccountFlags>, fuel: nat) -> Outcome {
    run(cfg.blocks@, 0, 0, acc, fuel)
}

/// The account `a` meets requirement `r`.
pub open spec fn meets(r: AccountRequirement, a: AccountFlags) -> bool {
    (r.is_signer ==> a.is_signer) && (r.is_writer ==> a.is_writer)
}

/// The first requirement at or after position `i` that its account does not meet.
pub open spec fn first_failure(reqs: Seq<AccountRequirement>, acc: Seq<AccountFlags>, i: int) -> Option<int>
    decreases reqs.len() - i,
{
    if i < 0 || i >= reqs.len() {
        None
    } else if !meets(reqs[i], acc[i]) {
        Some(i)
    } else {
        first_failure(reqs, acc, i + 1)
    }
}

/// What validation of `acc` against `reqs` must do: with too few accounts,
/// log that one is missing and trap; else log the message of the first
/// requirement not met and trap; else return without logging.
pub open spec fn validation(reqs: Seq<AccountRequirement>, acc: Seq<AccountFlags>) -> Outcome {
    if acc.len() < reqs.len() {
        Outcome { logs: seq![missing_account_message()], end: End::Trap }
    } else {
        match first_failure(reqs, acc, 0) {
            Some(j) => Outcome { logs: seq![requirement_message(reqs[j])], end: End::Trap },
            None => Outcome { logs: Seq::empty(), end: End::Return },
        }
    }
}

/// The fuel that suffices to run the preamble for `reqs`.
pub open spec fn preamble_fuel(reqs: Seq<AccountRequirement>) -> nat {
    reqs.len() + 1
}

/// The condition of a requirement's check evaluates to whether its account
/// meets it.
proof fn lemma_check_value(cond: Expression, r: AccountRequirement, i: int, acc: Seq<AccountFlags>)
    requires
        is_checked(r),
        is_requirement_check(cond, r, i),
        0 <= i < acc.len(),
        i <= u64::MAX,
    ensures
        eval_cond(cond, acc) == Some(meets(r, acc[i])),
{
    reveal_with_fuel(eval_cond, 2);
}

/// From the validated block of position `i`, the checks of the remaining
/// requirements run in order and stop at the first one not met.
proof fn lemma_run_from(cfg: ControlFlowGraph, reqs: Seq<AccountRequirement>, acc: Seq<AccountFlags>, i: int, fuel: nat)
    requires
        is_preamble(cfg, reqs),
        reqs.len() <= u64::MAX,
        acc.len() >= reqs.len(),
        0 <= i <= reqs.len(),
        fuel >= reqs.len() - i,
    ensures
        run(cfg.blocks@, validated_block(reqs, i), 0, acc, fuel) == match first_failure(reqs, acc, i) {
            Some(j) => Outcome { logs: seq![requirement_message(reqs[j])], end: End::Trap },
            None => Outcome { logs: Seq::empty(), end: End::Return },
        },
    decreases reqs.len() - i,
{
    let blocks = cfg.blocks@;
    let v = validated_block(reqs, i);
    if i == reqs.len() {
        assert(first_failure(reqs, acc, i) == None::<int>);
    } else {
        lemma_checks_before_step(reqs, i);
        lemma_checks_before_bound(reqs, i + 1);
        lemma_run_from(cfg, reqs, acc, i + 1, (fuel - 1) as nat);
        lemma_run_from(cfg, reqs, acc, i + 1, fuel);
        assert(requirement_emitted(blocks, reqs, i));
        lemma_validated_below(reqs, i, reqs.len() as int);
        let r = reqs[i];
        if is_checked(r) {
            let cond = blocks[v].instrs@[0]->cond;
            lemma_check_value(cond, r, i, acc);
            if !meets(r, acc[i]) {
                let rest = run(blocks, v + 3, 1, acc, (fuel - 1) as nat);
                assert(rest == Outcome { logs: Seq::<Seq<u8>>::empty(), end: End::Trap });
                assert(seq![requirement_message(r)] + Seq::<Seq<u8>>::empty() =~= seq![requirement_message(r)]);
                assert(run(blocks, v + 3, 0, acc, (fuel - 1) as nat) == Outcome { logs: seq![requirement_message(r)], end: End::Trap });
                assert(first_failure(reqs, acc, i) == Some(i));
            } else {
                assert(first_failure(reqs, acc, i) == first_failure(reqs, acc, i + 1));
            }
        } else {
            assert(first_failure(reqs, acc, i) == first_failure(reqs, acc, i + 1));
        }
    }
}

/// Running a preamble is validation: too few accounts log that one is
/// missing and trap whatever the accounts are; otherwise the requirements
/// are checked in declaration order, the first one not met logs its message
/// and traps, and when all are met the preamble returns without logging.
pub proof fn lemma_preamble_validates(cfg: ControlFlowGraph, reqs: Seq<AccountRequirement>, acc: Seq<AccountFlags>)
    requires
        is_preamble(cfg, reqs),
        reqs.len() <= u64::MAX,
    ensures
        run_graph(cfg, acc, preamble_fuel(reqs)) == validation(reqs, acc),
{
    let blocks = cfg.blocks@;
    let fuel = preamble_fuel(reqs);
    reveal_with_fuel(eval_cond, 2);
    assert(eval_cond(blocks[0].instrs@[0]->cond, acc) == Some(reqs.len() > acc.len()));
    if acc.len() < reqs.len() {
        let rest = run(blocks, 2, 1, acc, (fuel - 1) as nat);
        assert(rest == Outcome { logs: Seq::<Seq<u8>>::empty(), end: End::Trap });
        assert(seq![missing_account_message()] + Seq::<Seq<u8>>::empty() =~= seq![missing_account_message()]);
        assert(run(blocks, 2, 0, acc, (fuel - 1) as nat) == Outcome { logs: seq![missing_account_message()], end: End::Trap });
        assert(run(blocks, 0, 0, acc, fuel) == run(blocks, 2, 0, acc, (fuel - 1) as nat));
    } else {
        assert(validated_block(reqs, 0) == 1);
        lemma_run_from(cfg, reqs, acc, 0, (fuel - 1) as nat);
        assert(run(blocks, 0, 0, acc, fuel) == run(blocks, 1, 0, acc, (fuel - 1) as nat));
    }
}

/// With fewer accounts than requirements, a preamble logs only that an
/// account is missing and traps, whichever accounts are absent.
pub proof fn lemma_missing_account_traps(
    cfg: ControlFlowGraph,
    reqs: Seq<AccountRequirement>,
    acc: Seq<AccountFlags>,
)
    requires
        is_preamble(cfg, reqs),
        reqs.len() <= u64::MAX,
        acc.len() < reqs.len(),
    ensures
        run_graph(cfg, acc, preamble_fuel(reqs)) == (Outcome {
            logs: seq![missing_account_message()],
            end: End::Trap,
        }),
{
    lemma_preamble_validates(cfg, reqs, acc);
}

proof fn lemma_first_failure_range(reqs: Seq<AccountRequirement>, acc: Seq<AccountFlags>, i: int)
    ensures
        first_failure(reqs, acc, i) matches Some(j) ==> i <= j < reqs.len(),
    decreases reqs.len() - i,
{
    if 0 <= i < reqs.len() && meets(reqs[i], acc[i]) {
        lemma_first_failure_range(reqs, acc, i + 1);
    }
}

proof fn lemma_first_failure_prefix(
    reqs: Seq<AccountRequirement>,
    acc1: Seq<AccountFlags>,
    acc2: Seq<AccountFlags>,
    i: int,
    j: int,
)
    requires
        0 <= i <= j,
        first_failure(reqs, acc1, i) == Some(j),
        forall|k: int| 0 <= k <= j ==> acc2[k] == acc1[k],
    ensures
        first_failure(reqs, acc2, i) == Some(j),
    decreases j - i,
{
    lemma_first_failure_range(reqs, acc1, i);
    lemma_first_failure_range(reqs, acc1, i + 1);
    assert(acc2[i] == acc1[i]);
    if i < j {
        assert(meets(reqs[i], acc1[i]));
        assert(first_failure(reqs, acc1, i + 1) == Some(j));
        lemma_first_failure_prefix(reqs, acc1, acc2, i + 1, j);
        assert(first_failure(reqs, acc2, i) == first_failure(reqs, acc2, i + 1));
    } else {
        assert(!meets(reqs[j], acc1[j]));
    }
}

/// Checks stop at the first requirement not met: the accounts after it are
/// never looked at, so changing them does not change what the preamble does.
pub proof fn lemma_checks_stop_at_first_failure(
    cfg: ControlFlowGraph,
    reqs: Seq<AccountRequirement>,
    acc1: Seq<AccountFlags>,
    acc2: Seq<AccountFlags>,
    j: int,
)
    requires
        is_preamble(cfg, reqs),
        reqs.len() <= u64::MAX,
        acc1.len() >= reqs.len(),
        acc2.len() == acc1.len(),
        first_failure(reqs, acc1, 0) == Some(j),
        forall|k: int| 0 <= k <= j ==> acc2[k] == acc1[k],
    ensures
        run_graph(cfg, acc2, preamble_fuel(reqs)) == run_graph(cfg, acc1, preamble_fuel(reqs)),
        run_graph(cfg, acc1, preamble_fuel(reqs)) == (Outcome {
            logs: seq![requirement_message(reqs[j])],
            end: End::Trap,
        }),
{
    lemma_first_failure_range(reqs, acc1, 0);
    lemma_first_failure_prefix(reqs, acc1, acc2, 0, j);
    lemma_preamble_validates(cfg, reqs, acc1);
    lemma_preamble_validates(cfg, reqs, acc2);
}

/// The value of a condition over the runtime accounts `acc`.
pub fn eval_condition(e: &Expression, acc: &Vec<AccountFlags>) -> (r: Option<bool>)
    ensures
        r == eval_cond(*e, acc@),
    decreases e,
{
    match e {
        Expression::More { left, right } => match (&**left, &**right) {
            (
                Expression::NumberLiteral { value, .. },
                Expression::Builtin { kind: Builtin::ArrayLength, args, .. },
            ) => {
                if args.len() == 1 {
                    if let Expression::Builtin { kind: Builtin::Accounts, .. } = &args[0] {
                        return Some(*value as u128 > acc.len() as u128);
                    }
                }
                None
            },
            _ => None,
        },
        Expression::StructMember { expr, field, .. } => match &**expr {
            Expression::Subscript { array, index, .. } => match (&**array, &**index) {
                (
                    Expression::Builtin { kind: Builtin::Accounts, .. },
                    Expression::NumberLiteral { value, .. },
                ) => {
                    if (*value as u128) < (acc.len() as u128) && *field == SIGNER_FIELD {
                        Some(acc[*value as usize].is_signer)
                    } else if (*value as u128) < (acc.len() as u128) && *field == WRITER_FIELD {
                        Some(acc[*value as usize].is_writer)
                    } else {
                        None
                    }
                },
                _ => None,
            },
            _ => None,
        },
        Expression::BitwiseAnd { left, right } => {
            let l = eval_condition(left, acc);
            let r = eval_condition(right, acc);
            match (l, r) {
                (Some(l), Some(r)) => Some(l && r),
                _ => None,
            }
        },
        _ => None,
    }
}

/// The logged texts of an executed run, as byte sequences.
pub open spec fn logs_view(logs: Seq<Vec<u8>>) -> Seq<Seq<u8>> {
    logs.map_values(|v: Vec<u8>| v@)
}

/// Runs `blocks` from instruction `k` of block `b` over the runtime accounts
/// `acc`, taking at most `fuel` branches: the messages logged and how the
/// run ended.
pub fn execute(
    blocks: &Vec<BasicBlock>,
    b: usize,
    k: usize,
    acc: &Vec<AccountFlags>,
    fuel: usize,
) -> (r: (Vec<Vec<u8>>, End))
    ensures
        logs_view(r.0@) == run(blocks@, b as int, k as int, acc@, fuel as nat).logs,
        r.1 == run(blocks@, b as int, k as int, acc@, fuel as nat).end,
    decreases fuel, blocks@[b as int].instrs@.len() - k,
{
    if b >= blocks.len() || k >= blocks[b].instrs.len() {
        return (Vec::new(), End::Stuck);
    }
    match &blocks[b].instrs[k] {
        Instr::Print { expr } => match expr {
            Expression::AllocDynamicBytes { init: Some(bytes), .. } => {
                let (mut logs, end) = execute(blocks, b, k + 1, acc, fuel);
                let ghost rest = logs@;
                logs.insert(0, vstd::slice::slice_to_vec(bytes.as_slice()));
                assert(logs_view(logs@) =~= seq![bytes@] + logs_view(rest));
                (logs, end)
            },
            _ => (Vec::new(), End::Stuck),
        },
        Instr::AssertFailure => (Vec::new(), End::Trap),
        Instr::Return { .. } => (Vec::new(), End::Return),
        Instr::BranchCond { cond, true_block, false_block } => {
            if fuel == 0 {
                return (Vec::new(), End::Stuck);
            }
            match eval_condition(cond, acc) {
                Some(true) => execute(blocks, *true_block, 0, acc, fuel - 1),
                Some(false) => execute(blocks, *false_block, 0, acc, fuel - 1),
                None => (Vec::new(), End::Stuck),
            }
        },
        _ => (Vec::new(), End::Stuck),
    }
}

/// Runs a preamble for requirements `n` in number over the runtime accounts
/// `acc`, with enough fuel to finish.
pub fn run_preamble(cfg: &ControlFlowGraph, n: usize, acc: &Vec<AccountFlags>) -> (r: (Vec<Vec<u8>>, End))
    requires
        n < usize::MAX,
    ensures
        logs_view(r.0@) == run_graph(*cfg, acc@, (n + 1) as nat).logs,
        r.1 == run_graph(*cfg, acc@, (n + 1) as nat).end,
{
    execute(&cfg.blocks, 0, 0, acc, n + 1)
}

} // verus!

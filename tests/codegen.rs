use base58::ToBase58;
use solana_codegen::{
    create_preamble, heap_offset, program_id_message, rent_lamports, solana_deploy,
    AccountRequirement, BlockName, Builtin, ConstructorAnnotation, ConstructorParam,
    ControlFlowGraph, Deployment, Expression, GraphKind, Instr, ReturnCode, Type, Vartable,
};

fn req(name: &str, is_signer: bool, is_writer: bool) -> AccountRequirement {
    AccountRequirement { name: name.to_string(), is_signer, is_writer }
}

fn printed(i: &Instr) -> Option<String> {
    match i {
        Instr::Print { expr: Expression::AllocDynamicBytes { init: Some(b), size, .. } } => {
            match **size {
                Expression::NumberLiteral { bits: 32, value } => assert_eq!(value as usize, b.len()),
                _ => panic!("message size is not a literal"),
            }
            Some(String::from_utf8(b.clone()).unwrap())
        }
        _ => None,
    }
}

fn all_messages(cfg: &ControlFlowGraph) -> Vec<String> {
    cfg.blocks.iter().flat_map(|b| b.instrs.iter().filter_map(printed)).collect()
}

fn literal(e: &Expression) -> Option<u64> {
    match e {
        Expression::NumberLiteral { value, .. } => Some(*value),
        _ => None,
    }
}

#[test]
fn preamble_without_requirements_is_bounds_check_and_return() {
    let cfg = create_preamble(&"sum".to_string(), &vec![], 10);
    assert_eq!(cfg.kind, GraphKind::Preamble);
    assert_eq!(cfg.name, "sum::preamble");
    assert_eq!(cfg.blocks.len(), 3);
    match &cfg.blocks[0].instrs[0] {
        Instr::BranchCond { cond: Expression::More { left, .. }, true_block, false_block } => {
            assert_eq!(literal(left), Some(0));
            assert_eq!((*true_block, *false_block), (2, 1));
        }
        other => panic!("unexpected {:?}", other),
    }
    assert_eq!(all_messages(&cfg), vec!["An account is missing for the transaction"]);
    assert!(matches!(cfg.blocks[2].instrs[1], Instr::AssertFailure));
    assert!(matches!(&cfg.blocks[1].instrs[0], Instr::Return { value } if value.is_empty()));
    assert_eq!(cfg.blocks[1].phis.as_ref().map(|p| p.len()), Some(0));
}

#[test]
fn preamble_messages_follow_the_flags() {
    let reqs = vec![
        req("acc0", false, false),
        req("acc1", true, false),
        req("acc2", false, true),
        req("acc3", true, true),
    ];
    let cfg = create_preamble(&"add".to_string(), &reqs, 0);
    assert_eq!(cfg.blocks.len(), 3 + 2 * 3);
    assert_eq!(
        all_messages(&cfg),
        vec![
            "An account is missing for the transaction",
            "Account 'acc1' should be a signer",
            "Account 'acc2' should be mutable",
            "Account 'acc3' should be a mutable signer",
        ]
    );
    assert_eq!(cfg.blocks[3].name, BlockName::AccountValidated(1));
    assert_eq!(cfg.blocks[4].name, BlockName::ValidationFailed(1));
    // the mutable signer is one check on the conjunction of both flags
    match &cfg.blocks[5].instrs[..] {
        [Instr::BranchCond { cond: Expression::BitwiseAnd { left, right }, true_block: 7, false_block: 8 }] => {
            assert!(matches!(**left, Expression::StructMember { field: 5, .. }));
            assert!(matches!(**right, Expression::StructMember { field: 6, .. }));
        }
        other => panic!("unexpected {:?}", other),
    }
    // the writer-only requirement reads the writable flag alone
    assert!(matches!(
        &cfg.blocks[3].instrs[..],
        [Instr::BranchCond { cond: Expression::StructMember { field: 6, .. }, true_block: 5, false_block: 6 }]
    ));
    assert!(matches!(&cfg.blocks[7].instrs[..], [Instr::Return { .. }]));
}

#[test]
fn heap_offset_rounds_up_to_eight() {
    assert_eq!(heap_offset(0), 0);
    assert_eq!(heap_offset(1), 8);
    assert_eq!(heap_offset(8), 8);
    assert_eq!(heap_offset(13), 16);
    assert_eq!(heap_offset(heap_offset(13)), 16);
    assert_eq!(heap_offset(u64::MAX - 7), u64::MAX - 7);
}

#[test]
fn rent_exemption_formula() {
    assert_eq!(rent_lamports(0), 128 * 3480 * 2);
    assert_eq!(rent_lamports(100), (100 + 128) * 3480 * 2);
}

#[test]
fn program_id_message_text() {
    let m = program_id_message(&"abc".to_string());
    assert_eq!(String::from_utf8(m).unwrap(), "program_id should be abc");
}

fn deployment(program_id: Option<[u8; 32]>, size: u64) -> Deployment {
    Deployment { program_id, fixed_layout_size: size, selector: 0x1234_5678 }
}

fn deploy(
    params: Vec<ConstructorParam>,
    args: Vec<Expression>,
    anns: Vec<ConstructorAnnotation>,
    accounts: &Vec<AccountRequirement>,
    contract: &Deployment,
) -> ControlFlowGraph {
    let mut cfg = ControlFlowGraph {
        name: "constructor".to_string(),
        kind: GraphKind::Function,
        blocks: vec![solana_codegen::BasicBlock { name: BlockName::Entry, instrs: vec![], phis: None }],
        current: 0,
    };
    let mut vartab = Vartable::new(100);
    solana_deploy(params, args, anns, accounts, contract, &mut vartab, &mut cfg);
    cfg
}

fn external_calls(cfg: &ControlFlowGraph) -> Vec<&Instr> {
    cfg.blocks
        .iter()
        .flat_map(|b| b.instrs.iter())
        .filter(|i| matches!(i, Instr::ExternalCall { .. }))
        .collect()
}

fn buffer_writes(cfg: &ControlFlowGraph) -> Vec<(u64, &Expression)> {
    cfg.blocks
        .iter()
        .flat_map(|b| b.instrs.iter())
        .filter_map(|i| match i {
            Instr::WriteBuffer { offset, value, .. } => Some((literal(offset).unwrap(), value)),
            _ => None,
        })
        .collect()
}

#[test]
fn creation_with_payer_calls_create_account_once() {
    let accounts = vec![req("payer", true, true)];
    let contract = deployment(None, 100);
    let cfg = deploy(
        vec![],
        vec![],
        vec![ConstructorAnnotation::Payer("payer".to_string())],
        &accounts,
        &contract,
    );
    assert_eq!(cfg.blocks.len(), 5);
    assert_eq!(cfg.current, 3);
    assert_eq!(external_calls(&cfg).len(), 1);
    match external_calls(&cfg)[0] {
        Instr::ExternalCall { address, seeds, value, gas, .. } => {
            assert_eq!(literal(address), Some(0));
            assert!(seeds.is_none());
            assert_eq!(literal(value), Some(0));
            assert_eq!(literal(gas), Some(0));
        }
        _ => unreachable!(),
    }
    let writes = buffer_writes(&cfg);
    assert_eq!(writes.iter().map(|w| w.0).collect::<Vec<_>>(), vec![0, 4, 12, 20]);
    assert_eq!(literal(writes[0].1), Some(0));
    assert_eq!(literal(writes[1].1), Some((100 + 128) * 3480 * 2));
    assert_eq!(literal(writes[2].1), Some(100));
    assert!(matches!(writes[3].1, Expression::Builtin { kind: Builtin::ProgramId, .. }));
    // the creation block ends by going to the header write
    assert!(matches!(cfg.blocks[2].instrs.last(), Some(Instr::Branch { block: 3 })));
}

#[test]
fn creation_with_space_uses_the_space_expression() {
    let accounts = vec![req("other", false, false), req("payer", true, true)];
    let contract = deployment(None, 100);
    let cfg = deploy(
        vec![ConstructorParam { var_no: Some(7), name: "n".to_string(), ty: Type::Uint(64) }],
        vec![Expression::NumberLiteral { bits: 64, value: 42 }],
        vec![
            ConstructorAnnotation::Seed(Expression::Variable { ty: Type::DynamicBytes, var_no: 7 }),
            ConstructorAnnotation::Space(Expression::Variable { ty: Type::Uint(64), var_no: 7 }),
            ConstructorAnnotation::Payer("payer".to_string()),
            ConstructorAnnotation::Bump(Expression::NumberLiteral { bits: 8, value: 255 }),
        ],
        &accounts,
        &contract,
    );
    let create = &cfg.blocks[2].instrs;
    assert!(matches!(&create[0], Instr::Assign { res: 7, .. }));
    // the metas name the payer at its position
    match &create[1] {
        Instr::Assign { expr: Expression::ArrayLiteral { values, .. }, .. } => match &values[0] {
            Expression::StructLiteral { values, .. } => match &values[0] {
                Expression::GetRef { expr } => match &**expr {
                    Expression::StructMember { expr, field: 0, .. } => match &**expr {
                        Expression::Subscript { index, .. } => assert_eq!(literal(index), Some(1)),
                        other => panic!("unexpected {:?}", other),
                    },
                    other => panic!("unexpected {:?}", other),
                },
                other => panic!("unexpected {:?}", other),
            },
            other => panic!("unexpected {:?}", other),
        },
        other => panic!("unexpected {:?}", other),
    }
    let space_var = match &create[2] {
        Instr::Assign { res, expr: Expression::Variable { var_no: 7, .. } } => *res,
        other => panic!("unexpected {:?}", other),
    };
    let writes = buffer_writes(&cfg);
    match writes[1].1 {
        Expression::Multiply { left, right, .. } => {
            assert_eq!(literal(right), Some(3480 * 2));
            match &**left {
                Expression::Add { left, right, .. } => {
                    assert!(matches!(**left, Expression::Variable { var_no, .. } if var_no == space_var));
                    assert_eq!(literal(right), Some(128));
                }
                other => panic!("unexpected {:?}", other),
            }
        }
        other => panic!("unexpected {:?}", other),
    }
    assert!(matches!(writes[2].1, Expression::Variable { var_no, .. } if *var_no == space_var));
    match external_calls(&cfg)[0] {
        Instr::ExternalCall { seeds: Some(Expression::ArrayLiteral { values, dims, .. }), .. } => {
            assert_eq!(dims, &vec![1]);
            match &values[0] {
                Expression::ArrayLiteral { values, dims, .. } => {
                    assert_eq!(dims, &vec![2]);
                    assert!(matches!(values[1], Expression::ByteToSlice { .. }));
                }
                other => panic!("unexpected {:?}", other),
            }
        }
        other => panic!("unexpected {:?}", other),
    }
}

#[test]
fn existing_account_goes_to_header_write() {
    let contract = deployment(None, 13);
    let cfg = deploy(vec![], vec![], vec![], &vec![], &contract);
    // entry: read the data length, go to creation when it is zero
    match &cfg.blocks[0].instrs[..] {
        [Instr::Assign { res: 100, .. }, Instr::BranchCond { true_block: 2, false_block: 1, .. }] => {}
        other => panic!("unexpected {:?}", other),
    }
    match &cfg.blocks[1].instrs[..] {
        [Instr::BranchCond { cond: Expression::MoreEqual { right, .. }, true_block: 3, false_block: 4 }] => {
            assert_eq!(literal(right), Some(13));
        }
        other => panic!("unexpected {:?}", other),
    }
    match &cfg.blocks[3].instrs[..] {
        [Instr::SetStorage { value: v0, storage: s0, .. }, Instr::SetStorage { value: v1, storage: s1, .. }] => {
            assert_eq!((literal(v0), literal(s0)), (Some(0x1234_5678), Some(0)));
            assert_eq!((literal(v1), literal(s1)), (Some(16), Some(12)));
        }
        other => panic!("unexpected {:?}", other),
    }
    assert!(matches!(
        &cfg.blocks[4].instrs[..],
        [Instr::ReturnCode { code: ReturnCode::AccountDataTooSmall }]
    ));
}

#[test]
fn undersized_account_without_payer_returns_too_small() {
    let contract = deployment(None, 64);
    let cfg = deploy(vec![], vec![], vec![], &vec![], &contract);
    assert!(external_calls(&cfg).is_empty());
    assert!(matches!(
        &cfg.blocks[2].instrs[..],
        [Instr::ReturnCode { code: ReturnCode::AccountDataTooSmall }]
    ));
}

#[test]
fn pinned_identity_mismatch_returns_invalid_program_id() {
    let contract = deployment(Some([0u8; 32]), 8);
    let accounts = vec![req("payer", true, true)];
    let cfg = deploy(
        vec![],
        vec![],
        vec![ConstructorAnnotation::Payer("payer".to_string())],
        &accounts,
        &contract,
    );
    assert_eq!(cfg.blocks.len(), 7);
    assert_eq!(cfg.blocks[1].name, BlockName::ProgramIdFail);
    match &cfg.blocks[0].instrs[..] {
        [Instr::BranchCond { cond: Expression::Equal { left, right }, true_block: 2, false_block: 1 }] => {
            assert!(matches!(**left, Expression::AddressLiteral { bytes } if bytes == [0u8; 32]));
            assert!(matches!(**right, Expression::Builtin { kind: Builtin::ProgramId, .. }));
        }
        other => panic!("unexpected {:?}", other),
    }
    assert_eq!(
        printed(&cfg.blocks[1].instrs[0]).unwrap(),
        "program_id should be 11111111111111111111111111111111"
    );
    assert!(matches!(
        cfg.blocks[1].instrs[1],
        Instr::ReturnCode { code: ReturnCode::InvalidProgramId }
    ));
    // the failing block writes no storage
    assert!(!cfg.blocks[1].instrs.iter().any(|i| matches!(i, Instr::SetStorage { .. })));
    // the owner of the created account is the pinned identity
    let writes = buffer_writes(&cfg);
    assert!(matches!(writes[3].1, Expression::AddressLiteral { bytes } if *bytes == [0u8; 32]));
}

#[test]
fn pinned_identity_message_is_base58_of_the_identity() {
    let id = [7u8; 32];
    let contract = deployment(Some(id), 8);
    let cfg = deploy(vec![], vec![], vec![], &vec![], &contract);
    let expected = format!("program_id should be {}", id[..].to_base58());
    assert_eq!(printed(&cfg.blocks[1].instrs[0]).unwrap(), expected);
    assert_ne!(expected, "program_id should be 11111111111111111111111111111111");
}

#[test]
fn dirty_tracker_collects_assignments_since_its_frame() {
    let mut vartab = Vartable::new(3);
    let mut cfg = ControlFlowGraph {
        name: "f".to_string(),
        kind: GraphKind::Function,
        blocks: vec![solana_codegen::BasicBlock { name: BlockName::Entry, instrs: vec![], phis: None }],
        current: 0,
    };
    let a = vartab.temp_name("a".to_string(), Type::Uint(64));
    let b = vartab.temp_name("b".to_string(), Type::Uint(64));
    assert_eq!((a, b, vartab.next_id), (3, 4, 5));
    cfg.add(&mut vartab, Instr::Assign { res: a, expr: Expression::NumberLiteral { bits: 64, value: 1 } });
    vartab.new_dirty_tracker();
    cfg.add(&mut vartab, Instr::Assign { res: b, expr: Expression::NumberLiteral { bits: 64, value: 2 } });
    vartab.new_dirty_tracker();
    cfg.add(&mut vartab, Instr::Assign { res: a, expr: Expression::NumberLiteral { bits: 64, value: 3 } });
    assert_eq!(vartab.pop_dirty_tracker(), vec![a]);
    assert_eq!(vartab.pop_dirty_tracker(), vec![b, a]);
    assert_eq!(cfg.blocks[0].instrs.len(), 3);
}

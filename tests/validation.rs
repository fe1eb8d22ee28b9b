use solana_codegen::{
    create_preamble, resolve_account_annotations, run_preamble, AccessKind, AccountAnnotation,
    AccountFlags, AccountRequirement, AnnotationArg, End,
};

fn requirements(anns: &[(AccessKind, &str)]) -> Vec<AccountRequirement> {
    let anns: Vec<AccountAnnotation> = anns
        .iter()
        .map(|(kind, name)| AccountAnnotation {
            kind: *kind,
            arg: AnnotationArg::Identifier(name.to_string()),
        })
        .collect();
    let (reqs, diags) = resolve_account_annotations(&anns, false);
    assert!(diags.is_empty());
    reqs
}

fn account(is_writable: bool, is_signer: bool) -> AccountFlags {
    AccountFlags { is_signer, is_writer: is_writable }
}

/// Runs the preamble of a function with these annotations over the runtime
/// accounts (those besides the contract's data account): what it logged and
/// how it ended.
fn validate(anns: &[(AccessKind, &str)], accounts: &[AccountFlags]) -> (String, End) {
    let reqs = requirements(anns);
    let cfg = create_preamble(&"add".to_string(), &reqs, 0);
    let (logs, end) = run_preamble(&cfg, reqs.len(), &accounts.to_vec());
    let logs: Vec<String> = logs.into_iter().map(|l| String::from_utf8(l).unwrap()).collect();
    (logs.concat(), end)
}

#[test]
fn missing_account() {
    // `sum` declares `@reader(acc1)` and gets no account besides the data account
    let (logs, end) = validate(&[(AccessKind::Reader, "acc1")], &[]);
    assert_eq!(end, End::Trap);
    assert_eq!(logs, "An account is missing for the transaction");

    // `add2` declares `@signer(acc1)` and `@mutable(acc2)` and gets one account
    let (logs, end) = validate(
        &[(AccessKind::Signer, "acc1"), (AccessKind::Mutable, "acc2")],
        &[account(false, false)],
    );
    assert_eq!(end, End::Trap);
    assert_eq!(logs, "An account is missing for the transaction");
}

#[test]
fn account_signer() {
    let (logs, end) = validate(&[(AccessKind::Signer, "acc1")], &[account(true, true)]);
    assert_eq!(end, End::Return);
    assert_eq!(logs, "");
}

#[test]
fn account_not_mutable() {
    let (logs, end) = validate(&[(AccessKind::Mutable, "acc1")], &[account(false, true)]);
    assert_eq!(end, End::Trap);
    assert_eq!(logs, "Account 'acc1' should be mutable");
}

#[test]
fn account_not_mutable_signer() {
    let anns = [(AccessKind::MutableSigner, "acc1")];
    let (logs, end) = validate(&anns, &[account(false, false)]);
    assert_eq!(end, End::Trap);
    assert_eq!(logs, "Account 'acc1' should be a mutable signer");

    let (logs, end) = validate(&anns, &[account(false, true)]);
    assert_eq!(end, End::Trap);
    assert_eq!(logs, "Account 'acc1' should be a mutable signer");

    let (logs, end) = validate(&anns, &[account(true, false)]);
    assert_eq!(end, End::Trap);
    assert_eq!(logs, "Account 'acc1' should be a mutable signer");

    let (logs, end) = validate(&anns, &[account(true, true)]);
    assert_eq!(end, End::Return);
    assert_eq!(logs, "");
}

#[test]
fn signer_requirement_rejects_non_signer() {
    let (logs, end) = validate(&[(AccessKind::Signer, "acc1")], &[account(true, false)]);
    assert_eq!(end, End::Trap);
    assert_eq!(logs, "Account 'acc1' should be a signer");
}

#[test]
fn writer_requirement_ignores_signer_flag() {
    let (logs, end) = validate(&[(AccessKind::Mutable, "acc1")], &[account(true, false)]);
    assert_eq!(end, End::Return);
    assert_eq!(logs, "");
}

#[test]
fn reader_requirement_is_not_checked() {
    let (logs, end) = validate(&[(AccessKind::Reader, "acc1")], &[account(false, false)]);
    assert_eq!(end, End::Return);
    assert_eq!(logs, "");
}

#[test]
fn first_failing_requirement_stops_validation() {
    let anns = [
        (AccessKind::Reader, "acc0"),
        (AccessKind::Signer, "acc1"),
        (AccessKind::Mutable, "acc2"),
    ];
    let (logs, end) =
        validate(&anns, &[account(false, false), account(false, false), account(false, false)]);
    assert_eq!(end, End::Trap);
    assert_eq!(logs, "Account 'acc1' should be a signer");

    let (logs, end) =
        validate(&anns, &[account(false, false), account(false, true), account(false, false)]);
    assert_eq!(end, End::Trap);
    assert_eq!(logs, "Account 'acc2' should be mutable");
}

#[test]
fn missing_account_wins_over_flags() {
    let anns = [(AccessKind::Signer, "acc1"), (AccessKind::Signer, "acc2")];
    let (logs, end) = validate(&anns, &[account(true, true)]);
    assert_eq!(end, End::Trap);
    assert_eq!(logs, "An account is missing for the transaction");
    // extra accounts beyond the requirements are allowed
    let (logs, end) =
        validate(&anns, &[account(true, true), account(true, true), account(false, false)]);
    assert_eq!(end, End::Return);
    assert_eq!(logs, "");
}

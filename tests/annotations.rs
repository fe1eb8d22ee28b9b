use solana_codegen::{
    lookup_account, resolve_account_annotations, AccessKind, AccountAnnotation, AnnotationArg,
    Diagnostic,
};

fn ident(kind: AccessKind, name: &str) -> AccountAnnotation {
    AccountAnnotation { kind, arg: AnnotationArg::Identifier(name.to_string()) }
}

fn other(kind: AccessKind) -> AccountAnnotation {
    AccountAnnotation { kind, arg: AnnotationArg::Other }
}

fn text(bytes: Vec<u8>) -> String {
    String::from_utf8(bytes).unwrap()
}

fn contains_message(diags: &[Diagnostic], message: &str) -> bool {
    diags.iter().any(|d| text(d.message()) == message)
}

// `@signer(1acc1)` and `@signer(25)` on `function sum(int256 a, int256 b) public`
#[test]
fn invalid_parameters() {
    let (_, diags) = resolve_account_annotations(&vec![other(AccessKind::Signer)], false);
    assert!(contains_message(&diags, "invalid parameter for annotation"));

    let (reqs, diags) = resolve_account_annotations(&vec![other(AccessKind::Signer)], false);
    assert!(contains_message(&diags, "invalid parameter for annotation"));
    assert!(reqs.is_empty());
}

// `@signer(acc2)` on a function whose body reads `tx.accounts.acc1`
#[test]
fn account_not_declared() {
    let (reqs, diags) =
        resolve_account_annotations(&vec![ident(AccessKind::Signer, "acc2")], false);
    assert!(diags.is_empty());
    let err = lookup_account(&reqs, &"acc1".to_string(), 0).unwrap_err();
    assert!(contains_message(&[err], "account 'acc1' not declared"));
}

// `@mutable(dataAccount)` on a view function
#[test]
fn data_account_reserved_view_function() {
    let (_, diags) =
        resolve_account_annotations(&vec![ident(AccessKind::Mutable, "dataAccount")], false);
    assert!(contains_message(
        &diags,
        "'dataAccount' is a reserved account name for the contract's data account"
    ));
}

// `@mutable(dataAccount)` on a function that writes storage
#[test]
fn data_account_reserved() {
    let (reqs, diags) =
        resolve_account_annotations(&vec![ident(AccessKind::Mutable, "dataAccount")], false);
    assert!(contains_message(
        &diags,
        "'dataAccount' is a reserved account name for the contract's data account"
    ));
    assert!(reqs.is_empty());
}

// `@signer(acc2)` then `@mutable(acc2)`
#[test]
fn duplicate_account_declaration() {
    let (reqs, errors) = resolve_account_annotations(
        &vec![ident(AccessKind::Signer, "acc2"), ident(AccessKind::Mutable, "acc2")],
        false,
    );
    assert_eq!(errors.len(), 1);
    assert_eq!(text(errors[0].message()), "account 'acc2' already defined");
    assert_eq!(errors[0].notes().len(), 1);
    assert_eq!(text(errors[0].notes()[0].clone()), "previous definition here");
    assert_eq!(errors[0].at, 1);
    assert_eq!(reqs.len(), 1);
    assert!(reqs[0].is_signer && !reqs[0].is_writer);
}

// `@reader(dataAccount)` on a pure function is accepted
#[test]
fn data_account_allowed_in_pure_function() {
    let (reqs, diags) =
        resolve_account_annotations(&vec![ident(AccessKind::Reader, "dataAccount")], true);
    assert!(diags.is_empty());
    assert_eq!(reqs.len(), 1);
    assert!(!reqs[0].is_signer && !reqs[0].is_writer);
}

#[test]
fn annotations_map_to_flags_in_order() {
    let (reqs, diags) = resolve_account_annotations(
        &vec![
            ident(AccessKind::Reader, "acc4"),
            ident(AccessKind::MutableSigner, "acc3"),
            ident(AccessKind::Mutable, "acc1"),
            ident(AccessKind::Signer, "acc2"),
        ],
        false,
    );
    assert!(diags.is_empty());
    let flags: Vec<(String, bool, bool)> =
        reqs.iter().map(|r| (r.name.clone(), r.is_signer, r.is_writer)).collect();
    assert_eq!(
        flags,
        vec![
            ("acc4".to_string(), false, false),
            ("acc3".to_string(), true, true),
            ("acc1".to_string(), false, true),
            ("acc2".to_string(), true, false),
        ]
    );
    assert_eq!(lookup_account(&reqs, &"acc1".to_string(), 0).unwrap(), 2);
}

// four functions: `@signer(acc2)` on `sum`, `@mutable(acc1)` on `test_account`,
// `@reader(acc4)` and `@mutableSigner(acc3)` on `test_mutable_signer`, and
// `@reader(dataAccount)` on the pure `test_pure_function`
#[test]
fn all_accounts_ok() {
    let functions: Vec<(Vec<AccountAnnotation>, bool)> = vec![
        (vec![ident(AccessKind::Signer, "acc2")], false),
        (vec![ident(AccessKind::Mutable, "acc1")], false),
        (vec![ident(AccessKind::Reader, "acc4"), ident(AccessKind::MutableSigner, "acc3")], false),
        (vec![ident(AccessKind::Reader, "dataAccount")], true),
    ];
    let mut diagnostics = Vec::new();
    for (anns, is_pure) in &functions {
        let (reqs, diags) = resolve_account_annotations(anns, *is_pure);
        assert_eq!(reqs.len(), anns.len());
        diagnostics.extend(diags);
    }
    assert_eq!(diagnostics.len(), 0);
    let (reqs, _) = resolve_account_annotations(&functions[0].0, false);
    assert!(lookup_account(&reqs, &"acc2".to_string(), 0).is_ok());
}

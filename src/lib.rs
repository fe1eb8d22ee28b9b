//! Code generation for contracts on an account-based chain: the account
//! validation preamble of a function and the storage-account provisioning of
//! a constructor, emitted as control-flow graphs.
pub mod ir;
pub mod text;
pub mod encoding;
pub mod preamble;
pub mod deploy;
pub mod semantics;
pub mod accounts;
pub mod runtime;

pub use ir::{
    BasicBlock, BlockName, Builtin, ControlFlowGraph, Expression, GraphKind, Instr, ReturnCode,
    Type, Variable, Vartable,
};
pub use preamble::{create_preamble, AccountRequirement};
pub use encoding::{heap_offset, lemma_heap_offset, program_id_message, rent_lamports};
pub use semantics::{
    lemma_checks_stop_at_first_failure, lemma_missing_account_traps, lemma_preamble_validates,
    AccountFlags, End, run_preamble,
};
pub use deploy::{solana_deploy, ConstructorAnnotation, ConstructorParam, Deployment};
pub use accounts::{
    lookup_account, resolve_account_annotations, AccessKind, AccountAnnotation, AnnotationArg,
    Diagnostic, DiagnosticKind,
};
pub use runtime::{
    lemma_account_too_small, lemma_create_account, lemma_existing_account,
    lemma_identity_mismatch, lemma_identity_passes, lemma_no_payer, Chain, Effects, Exit,
};

//! The account annotations of a function (`@signer(acc)`, `@mutable(acc)`,
//! `@mutableSigner(acc)`, `@reader(acc)`), resolved into its ordered list of
//! account requirements, with the diagnostics that malformed ones raise.
use vstd::prelude::*;
use vstd::string::StringSliceAdditionalSpecFns;
use crate::deploy::is_first_named;
use crate::preamble::AccountRequirement;
use crate::text::{literal_bytes, name_bytes, quote_name};

verus! {

broadcast use vstd::string::to_string_from_display_ensures_for_str;

/// The access an annotation asks for.
#[derive(Clone, Copy, Debug, PartialEq, Eq, Structural)]
pub enum AccessKind {
    Reader,
    Signer,
    Mutable,
    MutableSigner,
}

/// The argument of an annotation: an account name, or anything else.
#[derive(Debug)]
pub enum AnnotationArg {
    Identifier(String),
    Other,
}

/// An account annotation of a function.
#[derive(Debug)]
pub struct AccountAnnotation {
    pub kind: AccessKind,
    pub arg: AnnotationArg,
}

/// What is wrong with an annotation or an account reference.
#[derive(Debug)]
pub enum DiagnosticKind {
    /// The argument is not an account name.
    InvalidParameter,
    /// The account was declared by an earlier annotation.
    AlreadyDefined(String),
    /// The name of the contract's data account was declared by a function
    /// that is not pure.
    ReservedName,
    /// A referenced account was not declared.
    NotDeclared(String),
}

/// An error raised at annotation `at` (for a reference, the position of the
/// name looked up).
#[derive(Debug)]
pub struct Diagnostic {
    pub at: usize,
    pub kind: DiagnosticKind,
}

/// The name of the contract's own data account.
pub open spec fn data_account_name() -> Seq<char> {
    "dataAccount"@
}

/// The requirement an annotation of `kind` places on the account `name`.
pub open spec fn requirement_of(kind: AccessKind, name: String) -> AccountRequirement {
    AccountRequirement {
        name,
        is_signer: kind == AccessKind::Signer || kind == AccessKind::MutableSigner,
        is_writer: kind == AccessKind::Mutable || kind == AccessKind::MutableSigner,
    }
}

/// `reqs` declares an account named `name`.
pub open spec fn declares(reqs: Seq<AccountRequirement>, name: Seq<char>) -> bool {
    exists|k: int| 0 <= k < reqs.len() && #[trigger] reqs[k].name@ == name
}

/// The kind of the error that annotation `a` raises after the requirements
/// `reqs`, if any.
pub open spec fn annotation_error(
    a: AccountAnnotation,
    reqs: Seq<AccountRequirement>,
    is_pure: bool,
) -> Option<DiagnosticKind> {
    match a.arg {
        AnnotationArg::Other => Some(DiagnosticKind::InvalidParameter),
        AnnotationArg::Identifier(name) => if name@ == data_account_name() && !is_pure {
            Some(DiagnosticKind::ReservedName)
        } else if declares(reqs, name@) {
            Some(DiagnosticKind::AlreadyDefined(name))
        } else {
            None
        },
    }
}

/// The requirements and errors of the first `n` annotations, in order: an
/// annotation without error adds its requirement, one with an error adds
/// the error.
pub open spec fn resolved(
    anns: Seq<AccountAnnotation>,
    is_pure: bool,
    n: int,
) -> (Seq<AccountRequirement>, Seq<(int, DiagnosticKind)>)
    decreases n,
{
    if n <= 0 {
        (Seq::empty(), Seq::empty())
    } else {
        let (reqs, errs) = resolved(anns, is_pure, n - 1);
        let a = anns[n - 1];
        match annotation_error(a, reqs, is_pure) {
            Some(k) => (reqs, errs.push((n - 1, k))),
            None => match a.arg {
                AnnotationArg::Identifier(name) => (reqs.push(requirement_of(a.kind, name)), errs),
                AnnotationArg::Other => (reqs, errs),
            },
        }
    }
}

/// The diagnostics `ds` are the errors `errs`.
pub open spec fn diagnostics_are(ds: Seq<Diagnostic>, errs: Seq<(int, DiagnosticKind)>) -> bool {
    &&& ds.len() == errs.len()
    &&& forall|i: int| 0 <= i < ds.len() ==> #[trigger] ds[i].at == errs[i].0 && ds[i].kind == errs[i].1
}

/// The message of an error.
pub open spec fn message_of(kind: DiagnosticKind) -> Seq<u8> {
    match kind {
        DiagnosticKind::InvalidParameter => "invalid parameter for annotation".spec_bytes(),
        DiagnosticKind::AlreadyDefined(name) => "account '".spec_bytes() + name_bytes(name)
            + "' already defined".spec_bytes(),
        DiagnosticKind::ReservedName => "'dataAccount' is a reserved account name for the contract's data account".spec_bytes(),
        DiagnosticKind::NotDeclared(name) => "account '".spec_bytes() + name_bytes(name)
            + "' not declared".spec_bytes(),
    }
}

impl Diagnostic {
    /// The text of the error.
    pub fn message(&self) -> (r: Vec<u8>)
        ensures
            r@ == message_of(self.kind),
    {
        match &self.kind {
            DiagnosticKind::InvalidParameter => literal_bytes("invalid parameter for annotation"),
            DiagnosticKind::AlreadyDefined(name) => quote_name("account '", name, "' already defined"),
            DiagnosticKind::ReservedName => literal_bytes(
                "'dataAccount' is a reserved account name for the contract's data account",
            ),
            DiagnosticKind::NotDeclared(name) => quote_name("account '", name, "' not declared"),
        }
    }

    /// The notes attached to the error: where an account already defined
    /// was first defined.
    pub fn notes(&self) -> (r: Vec<Vec<u8>>)
        ensures
            self.kind is AlreadyDefined ==> r@.len() == 1 && r@[0]@ == "previous definition here".spec_bytes(),
            !(self.kind is AlreadyDefined) ==> r@.len() == 0,
    {
        let mut r: Vec<Vec<u8>> = Vec::new();
        if let DiagnosticKind::AlreadyDefined(_) = &self.kind {
            r.push(literal_bytes("previous definition here"));
        }
        r
    }
}

/// Whether `reqs` declares an account named `name`.
fn find_declared(reqs: &Vec<AccountRequirement>, name: &String) -> (r: bool)
    ensures
        r == declares(reqs@, name@),
{
    let mut i: usize = 0;
    while i < reqs.len()
        invariant
            i <= reqs@.len(),
            forall|k: int| 0 <= k < i ==> #[trigger] reqs@[k].name@ != name@,
        decreases reqs@.len() - i,
    {
        if reqs[i].name == *name {
            return true;
        }
        i = i + 1;
    }
    false
}

/// Resolves the account annotations of a function, in order, into its
/// requirements and the errors they raise: an argument that is not a name
/// is invalid, a name declared twice is already defined, and the data
/// account's name is reserved unless the function is pure.
pub fn resolve_account_annotations(
    annotations: &Vec<AccountAnnotation>,
    is_pure: bool,
) -> (r: (Vec<AccountRequirement>, Vec<Diagnostic>))
    ensures
        r.0@ == resolved(annotations@, is_pure, annotations@.len() as int).0,
        diagnostics_are(r.1@, resolved(annotations@, is_pure, annotations@.len() as int).1),
{
    let mut reqs: Vec<AccountRequirement> = Vec::new();
    let mut diags: Vec<Diagnostic> = Vec::new();
    let reserved = "dataAccount".to_string();
    let mut i: usize = 0;
    while i < annotations.len()
        invariant
            i <= annotations@.len(),
            reserved@ == data_account_name(),
            reqs@ == resolved(annotations@, is_pure, i as int).0,
            diagnostics_are(diags@, resolved(annotations@, is_pure, i as int).1),
        decreases annotations@.len() - i,
    {
        let a = &annotations[i];
        let ghost prev = resolved(annotations@, is_pure, i as int);
        match &a.arg {
            AnnotationArg::Other => {
                diags.push(Diagnostic { at: i, kind: DiagnosticKind::InvalidParameter });
            },
            AnnotationArg::Identifier(name) => {
                if *name == reserved && !is_pure {
                    diags.push(Diagnostic { at: i, kind: DiagnosticKind::ReservedName });
                } else if find_declared(&reqs, name) {
                    diags.push(Diagnostic { at: i, kind: DiagnosticKind::AlreadyDefined(name.clone()) });
                } else {
                    let is_signer = match a.kind {
                        AccessKind::Signer | AccessKind::MutableSigner => true,
                        _ => false,
                    };
                    let is_writer = match a.kind {
                        AccessKind::Mutable | AccessKind::MutableSigner => true,
                        _ => false,
                    };
                    reqs.push(AccountRequirement { name: name.clone(), is_signer, is_writer });
                }
            },
        }
        i = i + 1;
    }
    (reqs, diags)
}

/// Looks up a referenced account by name, at position `at` of the
/// references: its position among the requirements, or an error when no
/// requirement declares it.
pub fn lookup_account(
    reqs: &Vec<AccountRequirement>,
    name: &String,
    at: usize,
) -> (r: Result<usize, Diagnostic>)
    ensures
        match r {
            Ok(i) => is_first_named(reqs@, *name, i as int),
            Err(d) => !declares(reqs@, name@) && d.at == at && d.kind == DiagnosticKind::NotDeclared(*name),
        },
{
    let mut i: usize = 0;
    while i < reqs.len()
        invariant
            i <= reqs@.len(),
            forall|k: int| 0 <= k < i ==> #[trigger] reqs@[k].name@ != name@,
        decreases reqs@.len() - i,
    {
        if reqs[i].name == *name {
            return Ok(i);
        }
        i = i + 1;
    }
    Err(Diagnostic { at, kind: DiagnosticKind::NotDeclared(name.clone()) })
}

} // verus!

use vstd::prelude::*;
use vstd::string::*;
use vstd::utf8::{decode_utf8, valid_utf8};

use crate::text::{concat, owned, trim, trim_whitespace};

verus! {

/// Where a secret-capable configuration string comes from: an environment variable,
/// a 1Password reference read with `op read`, or the first of both that is available.
#[derive(Debug, PartialEq, Eq)]
pub struct StringSource {
    pub env: Option<String>,
    pub op: Option<String>,
    pub op_account: Option<String>,
}

/// A string-valued configuration field: a literal, or a source to resolve.
#[derive(Debug, PartialEq, Eq)]
pub enum StringValue {
    Literal(String),
    Source(StringSource),
}

/// `StringSource` with its strings as character sequences.
pub struct SourceView {
    pub env: Option<Seq<char>>,
    pub op: Option<Seq<char>>,
    pub op_account: Option<Seq<char>>,
}

/// `StringValue` with its strings as character sequences.
pub enum StringValueView {
    Literal(Seq<char>),
    Source(SourceView),
}

impl View for StringSource {
    type V = SourceView;

    open spec fn view(&self) -> SourceView {
        SourceView { env: opt_view(self.env), op: opt_view(self.op), op_account: opt_view(self.op_account) }
    }
}

impl View for StringValue {
    type V = StringValueView;

    open spec fn view(&self) -> StringValueView {
        match self {
            StringValue::Literal(v) => StringValueView::Literal(v@),
            StringValue::Source(s) => StringValueView::Source(s@),
        }
    }
}

/// What the environment holds for a variable.
#[derive(Debug, PartialEq, Eq)]
pub enum EnvLookup {
    Present(String),
    NotPresent,
    NotUnicode,
}

/// A failed `op read`.
#[derive(Debug, PartialEq, Eq)]
pub enum OpError {
    /// The command could not be run; `detail` says why.
    Launch { detail: String },
    /// The command failed; `stderr` is its trimmed diagnostic output.
    Failed { stderr: String },
    /// The command printed a value that is not UTF-8.
    NotUtf8,
}

/// A string value that could not be resolved.
#[derive(Debug, PartialEq, Eq)]
pub enum ResolveError {
    OpAccountWithoutOp,
    NoSource,
    EnvNotUnicode { name: String },
    EnvNotSet { name: String },
    Op(OpError),
}

/// `OpError` with its strings as character sequences.
pub enum OpErrorView {
    Launch { detail: Seq<char> },
    Failed { stderr: Seq<char> },
    NotUtf8,
}

/// `ResolveError` with its strings as character sequences.
pub enum ResolveErrorView {
    OpAccountWithoutOp,
    NoSource,
    EnvNotUnicode { name: Seq<char> },
    EnvNotSet { name: Seq<char> },
    Op(OpErrorView),
}

impl View for OpError {
    type V = OpErrorView;

    open spec fn view(&self) -> OpErrorView {
        match self {
            OpError::Launch { detail } => OpErrorView::Launch { detail: detail@ },
            OpError::Failed { stderr } => OpErrorView::Failed { stderr: stderr@ },
            OpError::NotUtf8 => OpErrorView::NotUtf8,
        }
    }
}

impl View for ResolveError {
    type V = ResolveErrorView;

    open spec fn view(&self) -> ResolveErrorView {
        match self {
            ResolveError::OpAccountWithoutOp => ResolveErrorView::OpAccountWithoutOp,
            ResolveError::NoSource => ResolveErrorView::NoSource,
            ResolveError::EnvNotUnicode { name } => ResolveErrorView::EnvNotUnicode { name: name@ },
            ResolveError::EnvNotSet { name } => ResolveErrorView::EnvNotSet { name: name@ },
            ResolveError::Op(e) => ResolveErrorView::Op(e@),
        }
    }
}

pub open spec fn opt_view(s: Option<String>) -> Option<Seq<char>> {
    match s {
        Some(s) => Some(s@),
        None => None,
    }
}

pub open spec fn result_view<E: View>(r: Result<String, E>) -> Result<Seq<char>, E::V> {
    match r {
        Ok(s) => Ok(s@),
        Err(e) => Err(e@),
    }
}

/// The structural problem of a source, if it has one: an account without a
/// reference, or neither a variable nor a reference.
pub open spec fn source_problem(s: SourceView) -> Option<ResolveErrorView> {
    if s.op is None && s.op_account is Some {
        Some(ResolveErrorView::OpAccountWithoutOp)
    } else if s.env is None && s.op is None {
        Some(ResolveErrorView::NoSource)
    } else {
        None
    }
}

/// `e` is a possible answer of `read_env` for the variable `name`.
pub open spec fn env_answers<E: Fn(&str) -> EnvLookup>(read_env: E, name: Seq<char>, e: EnvLookup) -> bool {
    exists|n: &str| n@ == name && call_ensures(read_env, (n,), e)
}

/// `o` is a possible answer of `read_op` for `reference` and `account`.
pub open spec fn op_answers<O: Fn(&str, Option<&str>) -> Result<String, OpError>>(
    read_op: O,
    reference: Seq<char>,
    account: Option<Seq<char>>,
    o: Result<String, OpError>,
) -> bool {
    exists|r: &str, a: Option<&str>|
        r@ == reference && match (a, account) {
            (Some(a), Some(b)) => a@ == b,
            (None, None) => true,
            _ => false,
        } && call_ensures(read_op, (r, a), o)
}

/// The outcome of a source once the environment variable (if any) was not there:
/// the 1Password reference if one is configured, else an error naming what is
/// missing.
pub open spec fn op_fallback<O: Fn(&str, Option<&str>) -> Result<String, OpError>>(
    s: SourceView,
    read_op: O,
    r: Result<Seq<char>, ResolveErrorView>,
) -> bool {
    match s.op {
        Some(reference) => exists|o: Result<String, OpError>|
            op_answers(read_op, reference, s.op_account, o) && r == match o {
                Ok(v) => Ok(v@),
                Err(e) => Err(ResolveErrorView::Op(e@)),
            },
        None => match s.env {
            Some(name) => r == Err::<Seq<char>, ResolveErrorView>(ResolveErrorView::EnvNotSet { name: name }),
            None => r == Err::<Seq<char>, ResolveErrorView>(ResolveErrorView::NoSource),
        },
    }
}

/// What resolving the source `s` may give: a present environment variable wins,
/// even when empty; an absent one falls back to `op read`; values are used as
/// they come back, never resolved again.
pub open spec fn source_resolution<
    E: Fn(&str) -> EnvLookup,
    O: Fn(&str, Option<&str>) -> Result<String, OpError>,
>(s: SourceView, read_env: E, read_op: O, r: Result<Seq<char>, ResolveErrorView>) -> bool {
    if s.op is None && s.op_account is Some {
        r == Err::<Seq<char>, ResolveErrorView>(ResolveErrorView::OpAccountWithoutOp)
    } else {
        match s.env {
            Some(name) => exists|e: EnvLookup|
                env_answers(read_env, name, e) && match e {
                    EnvLookup::Present(v) => r == Ok::<Seq<char>, ResolveErrorView>(v@),
                    EnvLookup::NotUnicode => r == Err::<Seq<char>, ResolveErrorView>(
                        ResolveErrorView::EnvNotUnicode { name: name },
                    ),
                    EnvLookup::NotPresent => op_fallback(s, read_op, r),
                },
            None => op_fallback(s, read_op, r),
        }
    }
}

/// What resolving a value may give: a literal as written, a source as
/// `source_resolution` says.
pub open spec fn resolution<
    E: Fn(&str) -> EnvLookup,
    O: Fn(&str, Option<&str>) -> Result<String, OpError>,
>(v: StringValueView, read_env: E, read_op: O, r: Result<Seq<char>, ResolveErrorView>) -> bool {
    match v {
        StringValueView::Literal(s) => r == Ok::<Seq<char>, ResolveErrorView>(s),
        StringValueView::Source(s) => source_resolution(s, read_env, read_op, r),
    }
}

/// Converts the reference and account of a source to the form `read_op` takes.
fn op_account_ref(account: &Option<String>) -> (r: Option<&str>)
    ensures
        match (r, *account) {
            (Some(a), Some(b)) => a@ == b@,
            (None, None) => true,
            _ => false,
        },
{
    match account {
        Some(a) => Some(a.as_str()),
        None => None,
    }
}

impl StringSource {
    /// Reads the configured reference with `read_op`.
    fn read_reference<O: Fn(&str, Option<&str>) -> Result<String, OpError>>(
        &self,
        read_op: &O,
    ) -> (r: Result<String, ResolveError>)
        requires
            self.op is Some,
            forall|a: &str, b: Option<&str>| call_requires(*read_op, (a, b)),
        ensures
            op_fallback(self@, *read_op, result_view(r)),
    {
        let reference = self.op.as_ref().unwrap();
        let account = op_account_ref(&self.op_account);
        let o = read_op(reference.as_str(), account);
        assert(op_answers(*read_op, self@.op->0, self@.op_account, o));
        match o {
            Ok(v) => Ok(v),
            Err(e) => Err(ResolveError::Op(e)),
        }
    }
}

impl StringValue {
    /// Checks the structure of the value without resolving it: a source needs a
    /// variable or a reference, and an account only goes with a reference.
    pub fn validate(&self) -> (r: Result<(), ResolveError>)
        ensures
            match self {
                StringValue::Literal(_) => r is Ok,
                StringValue::Source(s) => match (r, source_problem(s@)) {
                    (Ok(_), None) => true,
                    (Err(e), Some(p)) => e@ == p,
                    _ => false,
                },
            },
    {
        match self {
            StringValue::Literal(_) => Ok(()),
            StringValue::Source(s) => {
                if s.op.is_none() && s.op_account.is_some() {
                    Err(ResolveError::OpAccountWithoutOp)
                } else if s.env.is_none() && s.op.is_none() {
                    Err(ResolveError::NoSource)
                } else {
                    Ok(())
                }
            },
        }
    }

    /// Resolves the value, asking `read_env` for an environment variable and
    /// `read_op` for a 1Password reference. A literal is returned as written.
    pub fn resolve_with<E: Fn(&str) -> EnvLookup, O: Fn(&str, Option<&str>) -> Result<String, OpError>>(
        &self,
        read_env: &E,
        read_op: &O,
    ) -> (r: Result<String, ResolveError>)
        requires
            forall|n: &str| call_requires(*read_env, (n,)),
            forall|a: &str, b: Option<&str>| call_requires(*read_op, (a, b)),
        ensures
            resolution(self@, *read_env, *read_op, result_view(r)),
    {
        match self {
            StringValue::Literal(v) => Ok(v.clone()),
            StringValue::Source(s) => {
                if s.op.is_none() && s.op_account.is_some() {
                    return Err(ResolveError::OpAccountWithoutOp);
                }
                match &s.env {
                    Some(name) => {
                        let e = read_env(name.as_str());
                        assert(env_answers(*read_env, s@.env->0, e));
                        match e {
                            EnvLookup::Present(v) => Ok(v),
                            EnvLookup::NotUnicode => Err(ResolveError::EnvNotUnicode { name: name.clone() }),
                            EnvLookup::NotPresent => {
                                if s.op.is_some() {
                                    s.read_reference(read_op)
                                } else {
                                    Err(ResolveError::EnvNotSet { name: name.clone() })
                                }
                            },
                        }
                    },
                    None => {
                        if s.op.is_some() {
                            s.read_reference(read_op)
                        } else {
                            Err(ResolveError::NoSource)
                        }
                    },
                }
            },
        }
    }
}

} // verus!

verus! {

/// What `String::from_utf8_lossy` makes of `bytes`: their text, with each invalid
/// sequence replaced by U+FFFD.
pub uninterp spec fn utf8_lossy(bytes: Seq<u8>) -> Seq<char>;

/// `String::from_utf8_lossy`, owned. Claimed: the result is the named decoding of the
/// bytes, which is the plain UTF-8 decoding when the bytes are valid UTF-8.
#[verifier::external_body]
fn decode_lossy(bytes: &[u8]) -> (r: String)
    ensures
        r@ == utf8_lossy(bytes@),
        valid_utf8(bytes@) ==> r@ == decode_utf8(bytes@),
{
    String::from_utf8_lossy(bytes).into_owned()
}

/// `String::from_utf8`. Claimed: it succeeds exactly on valid UTF-8, with the
/// decoded text.
#[verifier::external_body]
fn decode_strict(bytes: Vec<u8>) -> (r: Option<String>)
    ensures
        r is Some <==> valid_utf8(bytes@),
        r matches Some(s) ==> s@ == decode_utf8(bytes@),
{
    String::from_utf8(bytes).ok()
}

/// The command-line arguments of `op read` for a reference, after the program name.
pub open spec fn op_read_arguments(reference: Seq<char>, account: Option<Seq<char>>) -> Seq<Seq<char>> {
    match account {
        Some(a) => seq!["read"@, "--no-newline"@, "--account"@, a, reference],
        None => seq!["read"@, "--no-newline"@, reference],
    }
}

/// The program that reads 1Password references.
pub fn op_program() -> (r: String)
    ensures
        r@ == "op"@,
{
    owned("op")
}

/// The arguments that `op` is run with to read `reference`, prints it without a
/// trailing newline, and selects `account` when one is configured.
pub fn op_read_args(reference: &str, account: Option<&str>) -> (r: Vec<String>)
    ensures
        r@.map_values(|a: String| a@) == op_read_arguments(reference@, crate::railway::opt_str_view(account)),
{
    let mut r: Vec<String> = Vec::new();
    r.push(owned("read"));
    r.push(owned("--no-newline"));
    match account {
        Some(a) => {
            r.push(owned("--account"));
            r.push(owned(a));
        },
        None => {},
    }
    r.push(owned(reference));
    assert(r@.map_values(|a: String| a@) =~= op_read_arguments(reference@, crate::railway::opt_str_view(account)));
    r
}

/// Interprets the outcome of `op read`: on failure, its trimmed diagnostic output
/// (never its standard output); on success, its standard output, which must be UTF-8.
pub fn parse_op_output(success: bool, stderr: &[u8], stdout: Vec<u8>) -> (r: Result<String, OpError>)
    ensures
        !success ==> result_view(r) == Err::<Seq<char>, OpErrorView>(OpErrorView::Failed { stderr: trim(utf8_lossy(stderr@)) }),
        !success && valid_utf8(stderr@) ==> result_view(r) == Err::<Seq<char>, OpErrorView>(
            OpErrorView::Failed { stderr: trim(decode_utf8(stderr@)) },
        ),
        success && valid_utf8(stdout@) ==> result_view(r) == Ok::<Seq<char>, OpErrorView>(decode_utf8(stdout@)),
        success && !valid_utf8(stdout@) ==> result_view(r) == Err::<Seq<char>, OpErrorView>(OpErrorView::NotUtf8),
{
    if !success {
        let text = decode_lossy(stderr);
        return Err(OpError::Failed { stderr: trim_whitespace(text.as_str()) });
    }
    match decode_strict(stdout) {
        Some(s) => Ok(s),
        None => Err(OpError::NotUtf8),
    }
}

} // verus!

verus! {

pub open spec fn op_failed_prefix() -> Seq<char> {
    "`op read` failed; check that the 1Password CLI is authenticated and the configured reference is accessible"@
}

/// The text of an `op read` failure.
pub open spec fn op_error_message(e: OpErrorView) -> Seq<char> {
    match e {
        OpErrorView::Launch { .. } => "failed to run `op read`; install the 1Password CLI and authenticate it, or provide the configured environment variable"@,
        OpErrorView::Failed { stderr } => if stderr.len() == 0 {
            op_failed_prefix()
        } else {
            op_failed_prefix() + ": "@ + stderr
        },
        OpErrorView::NotUtf8 => "`op read` returned a configured value that is not valid UTF-8"@,
    }
}

/// The text of a resolution failure.
pub open spec fn resolve_error_message(e: ResolveErrorView) -> Seq<char> {
    match e {
        ResolveErrorView::OpAccountWithoutOp => "string source cannot configure `op_account` without `op`"@,
        ResolveErrorView::NoSource => "string source must configure `env`, `op`, or both"@,
        ResolveErrorView::EnvNotUnicode { name } => "environment variable "@ + name + " is not valid UTF-8"@,
        ResolveErrorView::EnvNotSet { name } => "environment variable "@ + name
            + " is not set and no 1Password fallback is configured"@,
        ResolveErrorView::Op(o) => op_error_message(o),
    }
}

impl OpError {
    /// The text of the error. A failure shows the command's diagnostic output and
    /// nothing of its standard output.
    pub fn message(&self) -> (r: String)
        ensures
            r@ == op_error_message(self@),
    {
        match self {
            OpError::Launch { .. } => owned(
                "failed to run `op read`; install the 1Password CLI and authenticate it, or provide the configured environment variable",
            ),
            OpError::Failed { stderr } => {
                let mut r = owned(
                    "`op read` failed; check that the 1Password CLI is authenticated and the configured reference is accessible",
                );
                if !stderr.as_str().is_empty() {
                    r.append(": ");
                    r.append(stderr.as_str());
                }
                r
            },
            OpError::NotUtf8 => owned("`op read` returned a configured value that is not valid UTF-8"),
        }
    }
}

impl ResolveError {
    /// The text of the error.
    pub fn message(&self) -> (r: String)
        ensures
            r@ == resolve_error_message(self@),
    {
        match self {
            ResolveError::OpAccountWithoutOp => owned("string source cannot configure `op_account` without `op`"),
            ResolveError::NoSource => owned("string source must configure `env`, `op`, or both"),
            ResolveError::EnvNotUnicode { name } => {
                let mut r = concat("environment variable ", name.as_str());
                r.append(" is not valid UTF-8");
                r
            },
            ResolveError::EnvNotSet { name } => {
                let mut r = concat("environment variable ", name.as_str());
                r.append(" is not set and no 1Password fallback is configured");
                r
            },
            ResolveError::Op(o) => o.message(),
        }
    }
}

} // verus!

use vstd::prelude::*;

use crate::codec::DecodeError;
use crate::json::Json;
use crate::schema::Nftables;

verus! {

/// Ways in which talking to the external engine can fail.
#[derive(Debug)]
pub enum NftablesError {
    /// The external program could not be launched.
    NftExecution { program: String, msg: String },
    /// The external program's output was not valid text.
    NftOutputEncoding { program: String },
    /// The engine's reply was not a valid nftables document.
    NftInvalidJson { err: DecodeError },
    /// The external program ran but exited with a nonzero status; both
    /// captured output streams are preserved verbatim.
    NftFailed { program: String, hint: String, stdout: String, stderr: String },
}

/// What the caller observed of one run of the external engine process.
/// The library never launches the process itself; it only classifies
/// the outcome, exactly once, with no retry.
#[derive(Debug)]
pub enum ExecOutcome {
    /// The process could not be started at all.
    LaunchFailed { msg: String },
    /// The process ran but an output stream was not valid text.
    BadOutputEncoding,
    /// The process ran to completion; `ok` is whether it exited with
    /// status zero.
    Finished { ok: bool, stdout: String, stderr: String },
}

/// The default name of the engine binary, resolved via the caller's
/// executable search path.
pub const NFT_EXECUTABLE: &'static str = "nft";

/// Classifies the outcome of reading the current ruleset: success
/// returns the captured standard output verbatim, a nonzero exit
/// becomes a failure report that preserves both streams and names the
/// attempted operation.
pub fn get_current_ruleset_raw(program: String, outcome: ExecOutcome) -> (r: Result<
    String,
    NftablesError,
>)
    ensures
        outcome matches ExecOutcome::Finished { ok: true, stdout, .. } ==> (r matches Ok(s)
            && s == stdout),
        outcome matches ExecOutcome::Finished { ok: false, stdout, stderr } ==> (r matches Err(
            NftablesError::NftFailed { program: p, hint, stdout: so, stderr: se },
        ) && p == program && so == stdout && se == stderr && hint@ == "getting the current ruleset"@),
        outcome matches ExecOutcome::LaunchFailed { msg } ==> (r matches Err(
            NftablesError::NftExecution { program: p, msg: m },
        ) && p == program && m == msg),
        outcome is BadOutputEncoding ==> (r matches Err(
            NftablesError::NftOutputEncoding { program: p },
        ) && p == program),
{
    match outcome {
        ExecOutcome::Finished { ok: true, stdout, stderr: _ } => Ok(stdout),
        ExecOutcome::Finished { ok: false, stdout, stderr } => Err(
            NftablesError::NftFailed {
                program,
                hint: "getting the current ruleset".to_owned(),
                stdout,
                stderr,
            },
        ),
        ExecOutcome::LaunchFailed { msg } => Err(NftablesError::NftExecution { program, msg }),
        ExecOutcome::BadOutputEncoding => Err(NftablesError::NftOutputEncoding { program }),
    }
}

/// Classifies the outcome of applying a ruleset: status zero is
/// success, anything else is reported exactly as observed, with the
/// operation hint, and never retried.
pub fn apply_ruleset_raw(program: String, outcome: ExecOutcome) -> (r: Result<(), NftablesError>)
    ensures
        outcome matches ExecOutcome::Finished { ok: true, .. } ==> r is Ok,
        outcome matches ExecOutcome::Finished { ok: false, stdout, stderr } ==> (r matches Err(
            NftablesError::NftFailed { program: p, hint, stdout: so, stderr: se },
        ) && p == program && so == stdout && se == stderr && hint@ == "applying ruleset"@),
        outcome matches ExecOutcome::LaunchFailed { msg } ==> (r matches Err(
            NftablesError::NftExecution { program: p, msg: m },
        ) && p == program && m == msg),
        outcome is BadOutputEncoding ==> (r matches Err(
            NftablesError::NftOutputEncoding { program: p },
        ) && p == program),
{
    match outcome {
        ExecOutcome::Finished { ok: true, stdout: _, stderr: _ } => Ok(()),
        ExecOutcome::Finished { ok: false, stdout, stderr } => Err(
            NftablesError::NftFailed {
                program,
                hint: "applying ruleset".to_owned(),
                stdout,
                stderr,
            },
        ),
        ExecOutcome::LaunchFailed { msg } => Err(NftablesError::NftExecution { program, msg }),
        ExecOutcome::BadOutputEncoding => Err(NftablesError::NftOutputEncoding { program }),
    }
}

/// Interprets an engine reply, already split into a JSON value tree,
/// as an nftables document.
pub fn interpret_ruleset(j: &Json) -> (r: Result<Nftables, NftablesError>)
    ensures
        r matches Ok(t) ==> crate::doc::dec_doc(j@) == Some(crate::doc::doc_m(t)),
        r matches Err(e) ==> e is NftInvalidJson && crate::doc::dec_doc(j@) is None,
{
    match crate::doc::decode_nftables(j) {
        Ok(t) => Ok(t),
        Err(e) => Err(NftablesError::NftInvalidJson { err: e }),
    }
}

/// Serializes a document for the engine's standard input: exactly the
/// compact text of the document's wire form.
pub fn payload_for(n: &Nftables) -> (r: String)
    ensures
        r@ == crate::text::json_text(crate::doc::enc_doc(crate::doc::doc_m(*n))),
{
    crate::text::render_json(&crate::doc::encode_nftables(n))
}

/// Deserializes an engine reply: JSON text straight to a document,
/// with a path-carrying error when the text or its shape is wrong.
pub fn deserialize_ruleset(s: &str) -> (r: Result<Nftables, NftablesError>)
    ensures
        r matches Ok(t) ==> (crate::parse::json_of_text(s@) matches Some(jm)
            && crate::doc::dec_doc(jm) == Some(crate::doc::doc_m(t))),
        r matches Err(e) ==> e is NftInvalidJson && (match crate::parse::json_of_text(s@) {
            Some(jm) => crate::doc::dec_doc(jm) is None,
            None => true,
        }),
{
    match crate::parse::parse_json(s) {
        Ok(j) => interpret_ruleset(&j),
        Err(e) => Err(NftablesError::NftInvalidJson { err: e }),
    }
}

/// Reads the current ruleset: classifies the outcome of the engine run
/// and, on success, deserializes its standard output.
pub fn get_current_ruleset(program: String, outcome: ExecOutcome) -> (r: Result<
    Nftables,
    NftablesError,
>)
    ensures
        outcome matches ExecOutcome::Finished { ok: true, stdout, .. } ==> ((r matches Ok(t) ==> (
        crate::parse::json_of_text(stdout@) matches Some(jm) && crate::doc::dec_doc(jm) == Some(
            crate::doc::doc_m(t),
        ))) && (r matches Err(e) ==> e is NftInvalidJson && (match crate::parse::json_of_text(
            stdout@,
        ) {
            Some(jm) => crate::doc::dec_doc(jm) is None,
            None => true,
        }))),
        outcome matches ExecOutcome::Finished { ok: false, stdout, stderr } ==> (r matches Err(
            NftablesError::NftFailed { program: p, hint, stdout: so, stderr: se },
        ) && p == program && so == stdout && se == stderr && hint@
            == "getting the current ruleset"@),
        outcome matches ExecOutcome::LaunchFailed { msg } ==> (r matches Err(
            NftablesError::NftExecution { program: p, msg: m },
        ) && p == program && m == msg),
        outcome is BadOutputEncoding ==> (r matches Err(
            NftablesError::NftOutputEncoding { program: p },
        ) && p == program),
{
    let text = get_current_ruleset_raw(program, outcome)?;
    deserialize_ruleset(text.as_str())
}

} // verus!

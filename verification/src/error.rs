//! Normalization of collaborator failures.
//!
//! Whatever layer failed — device open, protocol, transport — the caller
//! receives one uniform failure value carrying a non-empty descriptive text.
//! The text of the underlying failure is kept as it is; only an empty text is
//! replaced by a fixed description, so a failure is never silently dropped.

use vstd::prelude::*;

verus! {

/// Description used when a collaborator reports a failure with no text of
/// its own.
pub open spec fn fallback_description() -> Seq<char> {
    "device reported an unspecified failure"@
}

/// The text a failure described by `t` is surfaced with: `t` itself when it
/// says anything, the fixed fallback otherwise.
pub open spec fn surfaced_text(t: Seq<char>) -> Seq<char> {
    if t.len() > 0 {
        t
    } else {
        fallback_description()
    }
}

/// One uniform failure value crossing the boundary. Callers branch on
/// success against failure only; the text is for humans.
#[derive(Debug)]
pub struct NormalizedError {
    text: String,
}

impl View for NormalizedError {
    type V = Seq<char>;

    closed spec fn view(&self) -> Seq<char> {
        self.text@
    }
}

impl NormalizedError {
    /// A normalized failure never surfaces an empty description.
    pub open spec fn wf(self) -> bool {
        self@.len() > 0
    }

    /// Normalizes one failure description: the text is kept as reported
    /// unless it is empty, in which case the fixed fallback stands in.
    pub fn from_description(text: String) -> (r: NormalizedError)
        ensures
            r.wf(),
            r@ == surfaced_text(text@),
    {
        if text.as_str().is_empty() {
            proof {
                reveal_strlit("device reported an unspecified failure");
            }
            NormalizedError { text: "device reported an unspecified failure".to_owned() }
        } else {
            NormalizedError { text }
        }
    }

    /// The descriptive text, for the boundary to serialize.
    pub fn message(&self) -> (r: &str)
        ensures
            r@ == self@,
    {
        self.text.as_str()
    }
}

/// Carries a collaborator's outcome across the boundary: a success is handed
/// through untouched, a failure is surfaced as a normalized error whose text
/// is the reported description, or the fixed fallback when that is empty.
pub fn normalize<T>(res: Result<T, String>) -> (r: Result<T, NormalizedError>)
    ensures
        res matches Ok(v) ==> r matches Ok(w) && w == v,
        res matches Err(t) ==> r matches Err(e) && e.wf() && e@ == surfaced_text(t@),
{
    match res {
        Ok(v) => Ok(v),
        Err(t) => Err(NormalizedError::from_description(t)),
    }
}

} // verus!

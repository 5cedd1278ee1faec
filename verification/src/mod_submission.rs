//! Handing a mod pack in to the catalog.

use vstd::prelude::*;
use crate::text::owned;

verus! {

/// The catalog's answer to a submission.
#[derive(Debug)]
pub struct SubmissionResponse {
    pub success: bool,
    pub message: String,
    pub mod_id: Option<String>,
}

impl Clone for SubmissionResponse {
    fn clone(&self) -> (r: Self)
        ensures
            r.success == self.success,
            r.message@ == self.message@,
            r.mod_id.deep_view() == self.mod_id.deep_view(),
    {
        SubmissionResponse {
            success: self.success,
            message: self.message.clone(),
            mod_id: self.mod_id.clone(),
        }
    }
}

/// What is said of every submission.
pub open spec fn manual_submission_notice() -> Seq<char> {
    "Mod pack submission not yet fully implemented. Please submit manually via the website."@
}

/// The answer for a pack while the catalog takes submissions through its
/// website only: the pack counts as handed in, no identifier is given, and
/// the message asks for the manual way.
pub fn manual_submission_response() -> (r: SubmissionResponse)
    ensures
        r.success,
        r.message@ == manual_submission_notice(),
        r.mod_id is None,
{
    SubmissionResponse {
        success: true,
        message: owned(
            "Mod pack submission not yet fully implemented. Please submit manually via the website.",
        ),
        mod_id: None,
    }
}

} // verus!

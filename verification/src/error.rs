//! The result of checking a proof that did not pass.

use eyre::Report;
use vstd::prelude::*;
use vstd::std_specs::convert::FromSpecImpl;
use vstd::string::StringExecFns;

verus! {

/// `Report` of `eyre`, a value that is handed on and never looked into.
#[verifier::external_type_specification]
#[verifier::external_body]
pub struct ExReport(Report);

/// Why a proof did not pass: it is not valid, or it could not be checked.
#[derive(Debug)]
pub enum VerificationError {
    /// The proof was checked and is not valid.
    InvalidProof,
    /// The check itself failed, for the reason that the report gives.
    Malformed(Report),
}

impl From<Report> for VerificationError {
    fn from(error: Report) -> (r: VerificationError) {
        VerificationError::Malformed(error)
    }
}

impl FromSpecImpl<Report> for VerificationError {
    open spec fn obeys_from_spec() -> bool {
        true
    }

    open spec fn from_spec(error: Report) -> VerificationError {
        VerificationError::Malformed(error)
    }
}

/// The text of a report, `Display` of `eyre::Report`. Nothing is claimed of
/// the text.
#[verifier::external_body]
pub(crate) fn report_text(report: &Report) -> (text: String) {
    format!("{report}")
}

impl VerificationError {
    /// The report that this error wraps, if it wraps one.
    pub fn source(&self) -> (r: Option<&Report>)
        ensures
            match self {
                VerificationError::InvalidProof => r is None,
                VerificationError::Malformed(report) => r == Some(report),
            },
    {
        match self {
            VerificationError::InvalidProof => None,
            VerificationError::Malformed(report) => Some(report),
        }
    }

    /// One line that says what went wrong; for a check that failed, the
    /// line ends with the text of the report.
    pub fn message(&self) -> (text: String)
        ensures
            match self {
                VerificationError::InvalidProof => text@ == "proof is invalid\n"@,
                VerificationError::Malformed(_) => exists|report: Seq<char>|
                    text@ == "cannot verify proof: "@ + report + "\n"@,
            },
    {
        match self {
            VerificationError::InvalidProof => String::from_str("proof is invalid\n"),
            VerificationError::Malformed(report) => {
                let detail = report_text(report);
                let text = String::from_str("cannot verify proof: ").concat(
                    detail.as_str(),
                ).concat("\n");
                assert(text@ == "cannot verify proof: "@ + detail@ + "\n"@);
                text
            },
        }
    }
}

} // verus!

use vstd::prelude::*;

verus! {

/// The failure kinds the pipeline can report. A per-anchor filename failure is
/// recovered during catalog building and never aborts a run; every other kind
/// is fatal and leaves no output behind.
#[derive(Clone, Copy, Debug, PartialEq, Eq, Structural)]
pub enum PipelineError {
    /// A command-line month argument was malformed.
    ArgumentParse,
    /// The index page or a source file could not be retrieved, or the index
    /// request was answered with a redirect.
    Fetch,
    /// The structural query used to find index anchors was malformed.
    Selector,
    /// A name carried no trailing year/month pattern, or an impossible month.
    FilenameParse,
    /// A measurement column held a value that is not numeric even after
    /// locale normalization.
    SchemaReconciliation,
    /// Source schemas disagree outside the known-variable columns.
    Merge,
    /// The output file could not be written.
    IoWrite,
}

impl PipelineError {
    /// What `message` returns for each kind.
    pub open spec fn message_spec(self) -> Seq<char> {
        match self {
            PipelineError::ArgumentParse => "malformed month argument, expected YYYY-MM"@,
            PipelineError::Fetch => "index page or source file could not be retrieved"@,
            PipelineError::Selector => "structural query for index anchors is malformed"@,
            PipelineError::FilenameParse => "name carries no trailing year/month pattern"@,
            PipelineError::SchemaReconciliation => "measurement column holds a non-numeric value"@,
            PipelineError::Merge => "source schemas disagree after reconciliation"@,
            PipelineError::IoWrite => "output file could not be written"@,
        }
    }

    /// A short description naming the stage that failed.
    pub fn message(&self) -> (r: &'static str)
        ensures
            r@ == self.message_spec(),
    {
        match self {
            PipelineError::ArgumentParse => "malformed month argument, expected YYYY-MM",
            PipelineError::Fetch => "index page or source file could not be retrieved",
            PipelineError::Selector => "structural query for index anchors is malformed",
            PipelineError::FilenameParse => "name carries no trailing year/month pattern",
            PipelineError::SchemaReconciliation => "measurement column holds a non-numeric value",
            PipelineError::Merge => "source schemas disagree after reconciliation",
            PipelineError::IoWrite => "output file could not be written",
        }
    }
}

} // verus!

//! The outcome of correlating one source finding with a destination product.
use vstd::prelude::*;

verus! {

/// How a source finding relates to the findings of a destination product.
#[derive(Debug, Clone, Copy, PartialEq, Eq, Hash, Structural)]
pub enum CorrelationClass {
    ReadyToApply,
    AlreadyUpToDate,
    StatusConflict,
    PossibleMatch,
    Ambiguous,
    NotFound,
    InsufficientData,
}

/// The name under which a correlation class is reported.
pub open spec fn correlation_label(c: CorrelationClass) -> Seq<char> {
    match c {
        CorrelationClass::ReadyToApply => "ReadyToApply"@,
        CorrelationClass::AlreadyUpToDate => "AlreadyUpToDate"@,
        CorrelationClass::StatusConflict => "StatusConflict"@,
        CorrelationClass::PossibleMatch => "PossibleMatch"@,
        CorrelationClass::Ambiguous => "Ambiguous"@,
        CorrelationClass::NotFound => "NotFound"@,
        CorrelationClass::InsufficientData => "InsufficientData"@,
    }
}

impl CorrelationClass {
    /// Every class, in the order in which they are summarised.
    pub fn all() -> (r: Vec<CorrelationClass>)
        ensures
            r@ == seq![
                CorrelationClass::ReadyToApply,
                CorrelationClass::AlreadyUpToDate,
                CorrelationClass::StatusConflict,
                CorrelationClass::PossibleMatch,
                CorrelationClass::Ambiguous,
                CorrelationClass::NotFound,
                CorrelationClass::InsufficientData,
            ],
    {
        let mut r: Vec<CorrelationClass> = Vec::new();
        r.push(CorrelationClass::ReadyToApply);
        r.push(CorrelationClass::AlreadyUpToDate);
        r.push(CorrelationClass::StatusConflict);
        r.push(CorrelationClass::PossibleMatch);
        r.push(CorrelationClass::Ambiguous);
        r.push(CorrelationClass::NotFound);
        r.push(CorrelationClass::InsufficientData);
        assert(r@ =~= seq![
            CorrelationClass::ReadyToApply,
            CorrelationClass::AlreadyUpToDate,
            CorrelationClass::StatusConflict,
            CorrelationClass::PossibleMatch,
            CorrelationClass::Ambiguous,
            CorrelationClass::NotFound,
            CorrelationClass::InsufficientData,
        ]);
        r
    }

    /// The name under which the class is reported.
    pub fn label(self) -> (s: &'static str)
        ensures
            s@ == correlation_label(self),
    {
        match self {
            CorrelationClass::ReadyToApply => "ReadyToApply",
            CorrelationClass::AlreadyUpToDate => "AlreadyUpToDate",
            CorrelationClass::StatusConflict => "StatusConflict",
            CorrelationClass::PossibleMatch => "PossibleMatch",
            CorrelationClass::Ambiguous => "Ambiguous",
            CorrelationClass::NotFound => "NotFound",
            CorrelationClass::InsufficientData => "InsufficientData",
        }
    }
}

/// The correlation of one source finding with one destination product.
#[derive(Debug, Clone)]
pub struct CorrelationResult {
    pub source_finding_id: u64,
    pub source_title: String,
    pub target_product_id: u64,
    pub class: CorrelationClass,
    pub candidate_ids: Vec<u64>,
}

/// The text shown for a list of candidate ids: `-` when there is none,
/// otherwise the ids joined with `, `.
pub open spec fn candidate_ids_text(ids: Seq<u64>) -> Seq<char> {
    if ids.len() == 0 {
        "-"@
    } else {
        crate::text::join_text(crate::text::decimals(ids), ", "@)
    }
}

impl CorrelationResult {
    /// The candidate ids as they are shown in reports.
    pub fn candidate_ids_display(&self) -> (s: String)
        ensures
            s@ == candidate_ids_text(self.candidate_ids@),
    {
        if self.candidate_ids.len() == 0 {
            return String::from_str("-");
        }
        crate::text::join_decimals(&self.candidate_ids, ", ")
    }
}

} // verus!

verus! {

/// What the plan proposes for a target finding that exactly matches a source.
#[derive(Debug, Clone, Copy, PartialEq, Eq, Hash, Structural)]
pub enum TargetActionClass {
    ReadyToApply,
    AlreadyUpToDate,
    StatusConflict,
}

pub open spec fn target_action_label(c: TargetActionClass) -> Seq<char> {
    match c {
        TargetActionClass::ReadyToApply => "ReadyToApply"@,
        TargetActionClass::AlreadyUpToDate => "AlreadyUpToDate"@,
        TargetActionClass::StatusConflict => "StatusConflict"@,
    }
}

impl TargetActionClass {
    /// The name under which the class appears in decision files.
    pub fn label(self) -> (s: &'static str)
        ensures
            s@ == target_action_label(self),
    {
        match self {
            TargetActionClass::ReadyToApply => "ReadyToApply",
            TargetActionClass::AlreadyUpToDate => "AlreadyUpToDate",
            TargetActionClass::StatusConflict => "StatusConflict",
        }
    }
}

/// How well a source finding is covered in one destination product.
#[derive(Debug, Clone, Copy, PartialEq, Eq, Hash, Structural)]
pub enum SourceCoverageClass {
    ExactMatch,
    AmbiguousExactMatch,
    PossibleMatch,
    AmbiguousPossibleMatch,
    NotFound,
    InsufficientData,
}

pub open spec fn coverage_label(c: SourceCoverageClass) -> Seq<char> {
    match c {
        SourceCoverageClass::ExactMatch => "ExactMatch"@,
        SourceCoverageClass::AmbiguousExactMatch => "AmbiguousExactMatch"@,
        SourceCoverageClass::PossibleMatch => "PossibleMatch"@,
        SourceCoverageClass::AmbiguousPossibleMatch => "AmbiguousPossibleMatch"@,
        SourceCoverageClass::NotFound => "NotFound"@,
        SourceCoverageClass::InsufficientData => "InsufficientData"@,
    }
}

impl SourceCoverageClass {
    /// The name under which the class appears in decision files.
    pub fn label(self) -> (s: &'static str)
        ensures
            s@ == coverage_label(self),
    {
        match self {
            SourceCoverageClass::ExactMatch => "ExactMatch",
            SourceCoverageClass::AmbiguousExactMatch => "AmbiguousExactMatch",
            SourceCoverageClass::PossibleMatch => "PossibleMatch",
            SourceCoverageClass::AmbiguousPossibleMatch => "AmbiguousPossibleMatch",
            SourceCoverageClass::NotFound => "NotFound",
            SourceCoverageClass::InsufficientData => "InsufficientData",
        }
    }
}

/// Why no target was found for a source finding.
#[derive(Debug, Clone, Copy, PartialEq, Eq, Hash, Structural)]
pub enum NotFoundReason {
    MissingScanner,
    MissingLocation,
    NoMatchingTarget,
}

pub open spec fn not_found_label(r: NotFoundReason) -> Seq<char> {
    match r {
        NotFoundReason::MissingScanner => "MissingScanner"@,
        NotFoundReason::MissingLocation => "MissingLocation"@,
        NotFoundReason::NoMatchingTarget => "NoMatchingTarget"@,
    }
}

impl NotFoundReason {
    /// The name under which the reason appears in decision files.
    pub fn label(self) -> (s: &'static str)
        ensures
            s@ == not_found_label(self),
    {
        match self {
            NotFoundReason::MissingScanner => "MissingScanner",
            NotFoundReason::MissingLocation => "MissingLocation",
            NotFoundReason::NoMatchingTarget => "NoMatchingTarget",
        }
    }
}

/// The coverage of one source finding in one destination product.
#[derive(Debug, Clone)]
pub struct SourceCorrelation {
    pub source_finding_id: u64,
    pub source_title: String,
    pub target_product_id: u64,
    pub class: SourceCoverageClass,
    pub candidate_ids: Vec<u64>,
    pub not_found_reasons: Vec<NotFoundReason>,
}

/// A target finding that exactly matches a source finding.
#[derive(Debug, Clone)]
pub struct TargetOperation {
    pub source_finding_id: u64,
    pub source_title: String,
    pub target_product_id: u64,
    pub target_finding_id: u64,
    pub class: TargetActionClass,
}

/// The correlation of all source findings with one destination product.
#[derive(Debug, Clone)]
pub struct CorrelationReport {
    pub sources: Vec<SourceCorrelation>,
    pub target_operations: Vec<TargetOperation>,
}

} // verus!

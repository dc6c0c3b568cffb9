//! The DefectDojo records that the library reads and the requests it prepares.
use vstd::prelude::*;

verus! {

/// The text of an optional string.
pub open spec fn opt_text(o: Option<String>) -> Option<Seq<char>> {
    match o {
        Some(s) => Some(s@),
        None => None,
    }
}

/// A copy of an optional string.
pub fn copy_opt_text(o: &Option<String>) -> (r: Option<String>)
    ensures
        opt_text(r) == opt_text(*o),
{
    match o {
        Some(s) => Some(s.clone()),
        None => None,
    }
}

/// A copy of a list of ids.
pub fn copy_ids(v: &Vec<u64>) -> (r: Vec<u64>)
    ensures
        r@ == v@,
{
    let mut r: Vec<u64> = Vec::new();
    let mut i: usize = 0;
    while i < v.len()
        invariant
            i <= v.len(),
            r@ == v@.take(i as int),
        decreases v.len() - i,
    {
        r.push(v[i]);
        i = i + 1;
        assert(r@ =~= v@.take(i as int));
    }
    assert(v@.take(v.len() as int) =~= v@);
    r
}

/// One page of a paginated API listing.
#[derive(Debug, Clone)]
pub struct PaginatedResponse<T> {
    pub count: usize,
    pub next: Option<String>,
    pub results: Vec<T>,
}

/// A DefectDojo product.
#[derive(Debug, Clone)]
pub struct Product {
    pub id: u64,
    pub name: String,
}

/// What a product is, as text.
pub struct ProductView {
    pub id: u64,
    pub name: Seq<char>,
}

impl View for Product {
    type V = ProductView;

    open spec fn view(&self) -> ProductView {
        ProductView { id: self.id, name: self.name@ }
    }
}

impl Product {
    /// A copy of the product.
    pub fn copy(&self) -> (r: Product)
        ensures
            r@ == self@,
    {
        Product { id: self.id, name: self.name.clone() }
    }
}

/// A DefectDojo finding with the fields that matching and migration read.
#[derive(Debug, Clone)]
pub struct Finding {
    pub id: u64,
    pub title: String,
    pub found_by: Vec<u64>,
    pub line: Option<i64>,
    pub file_path: Option<String>,
    pub component_name: Option<String>,
    pub component_version: Option<String>,
    pub active: bool,
    pub verified: bool,
    pub fixed: bool,
    pub unfixed: bool,
    pub false_p: bool,
    pub duplicate: bool,
    pub out_of_scope: bool,
    pub risk_accepted: bool,
    pub is_mitigated: bool,
    pub description: String,
    pub mitigation: Option<String>,
    pub impact: Option<String>,
}

/// The content of a finding; two findings are equal (field by field
/// `PartialEq`) exactly when their views are equal.
pub struct FindingView {
    pub id: u64,
    pub title: Seq<char>,
    pub found_by: Seq<u64>,
    pub line: Option<i64>,
    pub file_path: Option<Seq<char>>,
    pub component_name: Option<Seq<char>>,
    pub component_version: Option<Seq<char>>,
    pub active: bool,
    pub verified: bool,
    pub fixed: bool,
    pub unfixed: bool,
    pub false_p: bool,
    pub duplicate: bool,
    pub out_of_scope: bool,
    pub risk_accepted: bool,
    pub is_mitigated: bool,
    pub description: Seq<char>,
    pub mitigation: Option<Seq<char>>,
    pub impact: Option<Seq<char>>,
}

impl View for Finding {
    type V = FindingView;

    open spec fn view(&self) -> FindingView {
        FindingView {
            id: self.id,
            title: self.title@,
            found_by: self.found_by@,
            line: self.line,
            file_path: opt_text(self.file_path),
            component_name: opt_text(self.component_name),
            component_version: opt_text(self.component_version),
            active: self.active,
            verified: self.verified,
            fixed: self.fixed,
            unfixed: self.unfixed,
            false_p: self.false_p,
            duplicate: self.duplicate,
            out_of_scope: self.out_of_scope,
            risk_accepted: self.risk_accepted,
            is_mitigated: self.is_mitigated,
            description: self.description@,
            mitigation: opt_text(self.mitigation),
            impact: opt_text(self.impact),
        }
    }
}

/// The views of a list of findings.
pub open spec fn findings_view(fs: Seq<Finding>) -> Seq<FindingView> {
    fs.map_values(|f: Finding| f@)
}

fn same_opt_text(a: &Option<String>, b: &Option<String>) -> (r: bool)
    ensures
        r == (opt_text(*a) == opt_text(*b)),
{
    match a {
        Some(x) => match b {
            Some(y) => {
                let x: &String = x;
                let y: &String = y;
                x.eq(y)
            },
            None => false,
        },
        None => b.is_none(),
    }
}

fn same_ids(a: &Vec<u64>, b: &Vec<u64>) -> (r: bool)
    ensures
        r == (a@ == b@),
{
    if a.len() != b.len() {
        return false;
    }
    let mut i: usize = 0;
    while i < a.len()
        invariant
            a.len() == b.len(),
            i <= a.len(),
            forall|j: int| 0 <= j < i ==> a@[j] == b@[j],
        decreases a.len() - i,
    {
        if a[i] != b[i] {
            return false;
        }
        i = i + 1;
    }
    assert(a@ =~= b@);
    true
}

impl Finding {
    /// Whether two findings hold the same data, field by field.
    pub fn same_as(&self, other: &Finding) -> (r: bool)
        ensures
            r == (self@ == other@),
    {
        self.id == other.id && self.title == other.title && same_ids(
            &self.found_by,
            &other.found_by,
        ) && self.line == other.line && same_opt_text(&self.file_path, &other.file_path)
            && same_opt_text(&self.component_name, &other.component_name) && same_opt_text(
            &self.component_version,
            &other.component_version,
        ) && self.active == other.active && self.verified == other.verified && self.fixed
            == other.fixed && self.unfixed == other.unfixed && self.false_p == other.false_p
            && self.duplicate == other.duplicate && self.out_of_scope == other.out_of_scope
            && self.risk_accepted == other.risk_accepted && self.is_mitigated
            == other.is_mitigated && self.description == other.description && same_opt_text(
            &self.mitigation,
            &other.mitigation,
        ) && same_opt_text(&self.impact, &other.impact)
    }

    /// A copy of the finding.
    pub fn copy(&self) -> (r: Finding)
        ensures
            r@ == self@,
    {
        Finding {
            id: self.id,
            title: self.title.clone(),
            found_by: copy_ids(&self.found_by),
            line: self.line,
            file_path: copy_opt_text(&self.file_path),
            component_name: copy_opt_text(&self.component_name),
            component_version: copy_opt_text(&self.component_version),
            active: self.active,
            verified: self.verified,
            fixed: self.fixed,
            unfixed: self.unfixed,
            false_p: self.false_p,
            duplicate: self.duplicate,
            out_of_scope: self.out_of_scope,
            risk_accepted: self.risk_accepted,
            is_mitigated: self.is_mitigated,
            description: self.description.clone(),
            mitigation: copy_opt_text(&self.mitigation),
            impact: copy_opt_text(&self.impact),
        }
    }
}

/// The notes attached to a finding.
#[derive(Debug, Clone)]
pub struct FindingToNotes {
    pub notes: Vec<Note>,
}

/// A note (comment) on a finding.
#[derive(Debug, Clone)]
pub struct Note {
    pub id: u64,
    pub author: UserStub,
    pub date: String,
    pub entry: String,
}

/// The author of a note.
#[derive(Debug, Clone)]
pub struct UserStub {
    pub username: String,
    pub first_name: String,
    pub last_name: String,
}

/// The content of a note.
pub struct NoteView {
    pub id: u64,
    pub username: Seq<char>,
    pub first_name: Seq<char>,
    pub last_name: Seq<char>,
    pub date: Seq<char>,
    pub entry: Seq<char>,
}

impl View for Note {
    type V = NoteView;

    open spec fn view(&self) -> NoteView {
        NoteView {
            id: self.id,
            username: self.author.username@,
            first_name: self.author.first_name@,
            last_name: self.author.last_name@,
            date: self.date@,
            entry: self.entry@,
        }
    }
}

/// The views of a list of notes.
pub open spec fn notes_view(ns: Seq<Note>) -> Seq<NoteView> {
    ns.map_values(|n: Note| n@)
}

/// The body of the PATCH request that transfers the triage state of a finding.
#[derive(Debug, Clone)]
pub struct FindingPatchRequest {
    pub active: bool,
    pub verified: bool,
    pub fixed: bool,
    pub unfixed: bool,
    pub false_p: bool,
    pub out_of_scope: bool,
    pub is_mitigated: bool,
    pub description: Option<String>,
    pub mitigation: Option<String>,
    pub impact: Option<String>,
}

/// What a PATCH request sends, as text.
pub struct FindingPatchRequestView {
    pub active: bool,
    pub verified: bool,
    pub fixed: bool,
    pub unfixed: bool,
    pub false_p: bool,
    pub out_of_scope: bool,
    pub is_mitigated: bool,
    pub description: Option<Seq<char>>,
    pub mitigation: Option<Seq<char>>,
    pub impact: Option<Seq<char>>,
}

impl View for FindingPatchRequest {
    type V = FindingPatchRequestView;

    open spec fn view(&self) -> FindingPatchRequestView {
        FindingPatchRequestView {
            active: self.active,
            verified: self.verified,
            fixed: self.fixed,
            unfixed: self.unfixed,
            false_p: self.false_p,
            out_of_scope: self.out_of_scope,
            is_mitigated: self.is_mitigated,
            description: opt_text(self.description),
            mitigation: opt_text(self.mitigation),
            impact: opt_text(self.impact),
        }
    }
}

/// The body of the POST request that adds a note to a finding.
#[derive(Debug, Clone)]
pub struct CreateFindingNoteRequest {
    pub entry: String,
    pub private: bool,
}

/// What a note request sends, as text.
pub struct CreateFindingNoteRequestView {
    pub entry: Seq<char>,
    pub private: bool,
}

impl View for CreateFindingNoteRequest {
    type V = CreateFindingNoteRequestView;

    open spec fn view(&self) -> CreateFindingNoteRequestView {
        CreateFindingNoteRequestView { entry: self.entry@, private: self.private }
    }
}

} // verus!

//! The keys by which findings of different products are matched.
use vstd::prelude::*;
use crate::api::models::{Finding, FindingView, opt_text, copy_opt_text};
use crate::text::{trim, trimmed};

verus! {

/// Matches findings reported by the same scanner for the same place in a file.
#[derive(Debug, Clone)]
pub struct FileKey {
    pub scanner_id: u64,
    pub title: String,
    pub file_path: String,
    pub line: i64,
}

/// Matches findings reported by the same scanner for the same component version.
#[derive(Debug, Clone)]
pub struct ComponentKey {
    pub scanner_id: u64,
    pub title: String,
    pub component_name: String,
    pub component_version: Option<String>,
}

/// Matches findings reported by the same scanner for the same component, any version.
#[derive(Debug, Clone)]
pub struct ComponentBaseKey {
    pub scanner_id: u64,
    pub title: String,
    pub component_name: String,
}

pub struct FileKeyView {
    pub scanner_id: u64,
    pub title: Seq<char>,
    pub file_path: Seq<char>,
    pub line: i64,
}

pub struct ComponentKeyView {
    pub scanner_id: u64,
    pub title: Seq<char>,
    pub component_name: Seq<char>,
    pub component_version: Option<Seq<char>>,
}

pub struct ComponentBaseKeyView {
    pub scanner_id: u64,
    pub title: Seq<char>,
    pub component_name: Seq<char>,
}

impl View for FileKey {
    type V = FileKeyView;

    open spec fn view(&self) -> FileKeyView {
        FileKeyView {
            scanner_id: self.scanner_id,
            title: self.title@,
            file_path: self.file_path@,
            line: self.line,
        }
    }
}

impl View for ComponentKey {
    type V = ComponentKeyView;

    open spec fn view(&self) -> ComponentKeyView {
        ComponentKeyView {
            scanner_id: self.scanner_id,
            title: self.title@,
            component_name: self.component_name@,
            component_version: opt_text(self.component_version),
        }
    }
}

impl View for ComponentBaseKey {
    type V = ComponentBaseKeyView;

    open spec fn view(&self) -> ComponentBaseKeyView {
        ComponentBaseKeyView {
            scanner_id: self.scanner_id,
            title: self.title@,
            component_name: self.component_name@,
        }
    }
}

/// The scanner of a finding, when exactly one scanner reported it.
pub open spec fn spec_single_scanner_id(f: FindingView) -> Option<u64> {
    if f.found_by.len() == 1 {
        Some(f.found_by[0])
    } else {
        None
    }
}

/// The title as it takes part in matching: without surrounding whitespace.
pub open spec fn spec_normalized_title(f: FindingView) -> Seq<char> {
    trimmed(f.title)
}

/// The file key of a finding, when it has one scanner, a path and a line.
pub open spec fn spec_file_key(f: FindingView) -> Option<FileKeyView> {
    match (spec_single_scanner_id(f), f.file_path, f.line) {
        (Some(scanner_id), Some(file_path), Some(line)) => Some(
            FileKeyView { scanner_id, title: spec_normalized_title(f), file_path, line },
        ),
        _ => None,
    }
}

/// The component key of a finding, when it has one scanner and a component name.
pub open spec fn spec_component_key(f: FindingView) -> Option<ComponentKeyView> {
    match (spec_single_scanner_id(f), f.component_name) {
        (Some(scanner_id), Some(component_name)) => Some(
            ComponentKeyView {
                scanner_id,
                title: spec_normalized_title(f),
                component_name,
                component_version: f.component_version,
            },
        ),
        _ => None,
    }
}

/// The component key without the version.
pub open spec fn spec_component_base_key(f: FindingView) -> Option<ComponentBaseKeyView> {
    match (spec_single_scanner_id(f), f.component_name) {
        (Some(scanner_id), Some(component_name)) => Some(
            ComponentBaseKeyView { scanner_id, title: spec_normalized_title(f), component_name },
        ),
        _ => None,
    }
}

pub open spec fn opt_file_key(k: Option<FileKey>) -> Option<FileKeyView> {
    match k {
        Some(k) => Some(k@),
        None => None,
    }
}

pub open spec fn opt_component_key(k: Option<ComponentKey>) -> Option<ComponentKeyView> {
    match k {
        Some(k) => Some(k@),
        None => None,
    }
}

pub open spec fn opt_component_base_key(k: Option<ComponentBaseKey>) -> Option<
    ComponentBaseKeyView,
> {
    match k {
        Some(k) => Some(k@),
        None => None,
    }
}

/// The only scanner that reported the finding, if there is exactly one.
pub fn single_scanner_id(finding: &Finding) -> (r: Option<u64>)
    ensures
        r == spec_single_scanner_id(finding@),
{
    if finding.found_by.len() == 1 {
        Some(finding.found_by[0])
    } else {
        None
    }
}

/// The title without surrounding whitespace.
pub fn normalized_title(finding: &Finding) -> (r: String)
    ensures
        r@ == spec_normalized_title(finding@),
{
    trim(finding.title.as_str())
}

/// The file key of a finding.
pub fn file_key(finding: &Finding) -> (r: Option<FileKey>)
    ensures
        opt_file_key(r) == spec_file_key(finding@),
{
    let scanner_id = match single_scanner_id(finding) {
        Some(id) => id,
        None => return None,
    };
    let file_path = match &finding.file_path {
        Some(p) => p.clone(),
        None => return None,
    };
    let line = match finding.line {
        Some(l) => l,
        None => return None,
    };
    Some(FileKey { scanner_id, title: normalized_title(finding), file_path, line })
}

/// The component key of a finding.
pub fn component_key(finding: &Finding) -> (r: Option<ComponentKey>)
    ensures
        opt_component_key(r) == spec_component_key(finding@),
{
    let scanner_id = match single_scanner_id(finding) {
        Some(id) => id,
        None => return None,
    };
    let component_name = match &finding.component_name {
        Some(n) => n.clone(),
        None => return None,
    };
    Some(
        ComponentKey {
            scanner_id,
            title: normalized_title(finding),
            component_name,
            component_version: copy_opt_text(&finding.component_version),
        },
    )
}

/// The component key of a finding, without the version.
pub fn component_base_key(finding: &Finding) -> (r: Option<ComponentBaseKey>)
    ensures
        opt_component_base_key(r) == spec_component_base_key(finding@),
{
    let scanner_id = match single_scanner_id(finding) {
        Some(id) => id,
        None => return None,
    };
    let component_name = match &finding.component_name {
        Some(n) => n.clone(),
        None => return None,
    };
    Some(ComponentBaseKey { scanner_id, title: normalized_title(finding), component_name })
}

fn same_text(a: &String, b: &String) -> (r: bool)
    ensures
        r == (a@ == b@),
{
    a.eq(b)
}

fn same_opt_text(a: &Option<String>, b: &Option<String>) -> (r: bool)
    ensures
        r == (opt_text(*a) == opt_text(*b)),
{
    match a {
        Some(x) => match b {
            Some(y) => same_text(x, y),
            None => false,
        },
        None => b.is_none(),
    }
}

impl FileKey {
    /// Whether two keys are equal.
    pub fn same_as(&self, other: &FileKey) -> (r: bool)
        ensures
            r == (self@ == other@),
    {
        self.scanner_id == other.scanner_id && same_text(&self.title, &other.title) && same_text(
            &self.file_path,
            &other.file_path,
        ) && self.line == other.line
    }
}

impl ComponentKey {
    /// Whether two keys are equal.
    pub fn same_as(&self, other: &ComponentKey) -> (r: bool)
        ensures
            r == (self@ == other@),
    {
        self.scanner_id == other.scanner_id && same_text(&self.title, &other.title) && same_text(
            &self.component_name,
            &other.component_name,
        ) && same_opt_text(&self.component_version, &other.component_version)
    }
}

impl ComponentBaseKey {
    /// Whether two keys are equal.
    pub fn same_as(&self, other: &ComponentBaseKey) -> (r: bool)
        ensures
            r == (self@ == other@),
    {
        self.scanner_id == other.scanner_id && same_text(&self.title, &other.title) && same_text(
            &self.component_name,
            &other.component_name,
        )
    }
}

/// Whether two optional texts are equal (`Option<&str>` comparison).
pub fn same_version(a: &Option<String>, b: &Option<String>) -> (r: bool)
    ensures
        r == (opt_text(*a) == opt_text(*b)),
{
    same_opt_text(a, b)
}

} // verus!

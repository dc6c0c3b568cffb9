//! The preflight of a migration: for every approved operation, whether the
//! data still matches the plan, and the patch that would be sent.
use vstd::prelude::*;
use std::collections::HashMap;
use crate::api::models::{Finding, FindingView, Note, NoteView, findings_view, notes_view};
use crate::plan::files::ApprovedOperation;
use crate::plan::models::MigrationPlan;
use crate::text::{
    blank, concat, contains, contains_text, decimal, is_blank, lemma_contains_in_concat,
    lemma_prefix_contained, push_decimal, starts_with_text, trim, trimmed,
};

verus! {

broadcast use vstd::std_specs::hash::group_hash_axioms;

/// The preflight outcome of one approved operation.
#[derive(Debug, Clone, Copy, PartialEq, Eq, Structural)]
pub enum DryRunOutcome {
    Ready,
    SourceChanged,
    SourceMissing,
    TargetChanged,
    TargetMissingFromPlan,
}

pub open spec fn dry_run_label(o: DryRunOutcome) -> Seq<char> {
    match o {
        DryRunOutcome::Ready => "Ready"@,
        DryRunOutcome::SourceChanged => "SourceChanged"@,
        DryRunOutcome::SourceMissing => "SourceMissing"@,
        DryRunOutcome::TargetChanged => "TargetChanged"@,
        DryRunOutcome::TargetMissingFromPlan => "TargetMissingFromPlan"@,
    }
}

impl DryRunOutcome {
    /// The name under which the outcome is reported.
    pub fn label(self) -> (s: &'static str)
        ensures
            s@ == dry_run_label(self),
    {
        match self {
            DryRunOutcome::Ready => "Ready",
            DryRunOutcome::SourceChanged => "SourceChanged",
            DryRunOutcome::SourceMissing => "SourceMissing",
            DryRunOutcome::TargetChanged => "TargetChanged",
            DryRunOutcome::TargetMissingFromPlan => "TargetMissingFromPlan",
        }
    }
}

/// A source note prepared for transfer to the target finding.
#[derive(Debug, Clone)]
pub struct PreparedFindingNote {
    pub source_note_id: u64,
    pub entry: String,
}

/// The state and texts to be written to a target finding.
#[derive(Debug, Clone)]
pub struct PreparedFindingPatch {
    pub active: bool,
    pub verified: bool,
    pub fixed: bool,
    pub unfixed: bool,
    pub false_p: bool,
    pub out_of_scope: bool,
    pub is_mitigated: bool,
    pub description: Option<String>,
    pub mitigation: Option<String>,
    pub impact: Option<String>,
    pub notes: Vec<PreparedFindingNote>,
}

/// The preflight result of one approved operation.
#[derive(Debug, Clone)]
pub struct DryRunItem {
    pub row_id: String,
    pub source_finding_id: u64,
    pub target_product_id: u64,
    pub target_finding_id: u64,
    pub outcome: DryRunOutcome,
    pub patch: Option<PreparedFindingPatch>,
}

/// The preflight results, one per approved operation, in order.
#[derive(Debug)]
pub struct DryRunReport {
    pub items: Vec<DryRunItem>,
}

// ---------------------------------------------------------------------------
// Specification
// ---------------------------------------------------------------------------
pub struct PreparedNoteView {
    pub source_note_id: u64,
    pub entry: Seq<char>,
}

pub struct PreparedPatchView {
    pub active: bool,
    pub verified: bool,
    pub fixed: bool,
    pub unfixed: bool,
    pub false_p: bool,
    pub out_of_scope: bool,
    pub is_mitigated: bool,
    pub description: Option<Seq<char>>,
    pub mitigation: Option<Seq<char>>,
    pub impact: Option<Seq<char>>,
    pub notes: Seq<PreparedNoteView>,
}

impl View for PreparedFindingNote {
    type V = PreparedNoteView;

    open spec fn view(&self) -> PreparedNoteView {
        PreparedNoteView { source_note_id: self.source_note_id, entry: self.entry@ }
    }
}

impl View for PreparedFindingPatch {
    type V = PreparedPatchView;

    open spec fn view(&self) -> PreparedPatchView {
        PreparedPatchView {
            active: self.active,
            verified: self.verified,
            fixed: self.fixed,
            unfixed: self.unfixed,
            false_p: self.false_p,
            out_of_scope: self.out_of_scope,
            is_mitigated: self.is_mitigated,
            description: crate::api::models::opt_text(self.description),
            mitigation: crate::api::models::opt_text(self.mitigation),
            impact: crate::api::models::opt_text(self.impact),
            notes: self.notes@.map_values(|n: PreparedFindingNote| n@),
        }
    }
}

/// The marker that identifies a text transferred from a source field.
#[verifier::opaque]
pub open spec fn field_marker(source_product_id: u64, source_finding_id: u64, field: Seq<char>) -> Seq<
    char,
> {
    "[dojo-migrate source-product="@ + decimal(source_product_id as nat) + " source-finding="@
        + decimal(source_finding_id as nat) + " field="@ + field + "]"@
}

/// The marker that identifies a transferred source note.
#[verifier::opaque]
pub open spec fn note_marker_text(
    source_product_id: u64,
    source_finding_id: u64,
    source_note_id: u64,
) -> Seq<char> {
    "[dojo-migrate source-product="@ + decimal(source_product_id as nat) + " source-finding="@
        + decimal(source_finding_id as nat) + " source-note="@ + decimal(source_note_id as nat)
        + "]"@
}

/// The text written into a target field for a source value.
#[verifier::opaque]
pub open spec fn transferred_text(
    name: Seq<char>,
    source_product_id: u64,
    source_finding_id: u64,
    field: Seq<char>,
    value: Seq<char>,
) -> Seq<char> {
    field_marker(source_product_id, source_finding_id, field) + "\nПеренесено из продукта "@ + name
        + " ["@ + decimal(source_product_id as nat) + "], finding #"@ + decimal(
        source_finding_id as nat,
    ) + ":\n"@ + value
}

pub open spec fn text_or_empty(o: Option<Seq<char>>) -> Seq<char> {
    match o {
        Some(s) => s,
        None => Seq::empty(),
    }
}

/// The new content of a target text field, or `None` when it stays as it is:
/// the source value is empty, equal to the target value, or was transferred
/// before (the target holds its marker). Otherwise the transferred text is
/// put above the target's own text.
pub open spec fn spec_prepare_text_field(
    name: Seq<char>,
    source_product_id: u64,
    source_finding_id: u64,
    field: Seq<char>,
    source_value: Option<Seq<char>>,
    target_value: Option<Seq<char>>,
) -> Option<Seq<char>> {
    let s = text_or_empty(source_value);
    let t = text_or_empty(target_value);
    let transferred = transferred_text(name, source_product_id, source_finding_id, field, s);
    if s.len() == 0 || s == t || contains_text(t, field_marker(source_product_id, source_finding_id, field)) {
        None
    } else if t.len() == 0 {
        Some(transferred)
    } else {
        Some(transferred + "\n\n---\n\n"@ + t)
    }
}

/// How the author of a note is named: `First Last (@user)`, or the user name alone.
pub open spec fn author_text(n: NoteView) -> Seq<char> {
    let full = trimmed(trimmed(n.first_name) + " "@ + trimmed(n.last_name));
    if full.len() == 0 {
        n.username
    } else {
        full + " (@"@ + n.username + ")"@
    }
}

/// The entry of the target note made from a source note.
#[verifier::opaque]
pub open spec fn transferred_note_text(
    name: Seq<char>,
    source_product_id: u64,
    source_finding_id: u64,
    n: NoteView,
) -> Seq<char> {
    note_marker_text(source_product_id, source_finding_id, n.id) + "\nПеренесено из продукта "@
        + name + " ["@ + decimal(source_product_id as nat) + "], finding #"@ + decimal(
        source_finding_id as nat,
    ) + "\nАвтор исходной заметки: "@ + author_text(n) + "\nДата исходной заметки: "@ + n.date
        + "\n\n---\n\n"@ + n.entry
}

/// Some target note holds the text.
pub open spec fn some_note_contains(notes: Seq<NoteView>, text: Seq<char>) -> bool {
    exists|k: int| 0 <= k < notes.len() && contains_text(#[trigger] notes[k].entry, text)
}

/// The source notes to be transferred: every non-blank source note whose
/// marker no target note holds, in order.
pub open spec fn spec_prepare_notes(
    name: Seq<char>,
    source_product_id: u64,
    source_finding_id: u64,
    source_notes: Seq<NoteView>,
    target_notes: Seq<NoteView>,
) -> Seq<PreparedNoteView>
    decreases source_notes.len(),
{
    if source_notes.len() == 0 {
        Seq::empty()
    } else {
        let r = spec_prepare_notes(
            name,
            source_product_id,
            source_finding_id,
            source_notes.drop_last(),
            target_notes,
        );
        let n = source_notes.last();
        if is_blank(n.entry) || some_note_contains(
            target_notes,
            note_marker_text(source_product_id, source_finding_id, n.id),
        ) {
            r
        } else {
            r.push(
                PreparedNoteView {
                    source_note_id: n.id,
                    entry: transferred_note_text(name, source_product_id, source_finding_id, n),
                },
            )
        }
    }
}

/// The patch that transfers the source's state, texts and notes to the target.
pub open spec fn spec_prepare_patch(
    name: Seq<char>,
    source_product_id: u64,
    source: FindingView,
    target: FindingView,
    source_notes: Seq<NoteView>,
    target_notes: Seq<NoteView>,
) -> PreparedPatchView {
    PreparedPatchView {
        active: source.active,
        verified: source.verified,
        fixed: source.fixed,
        unfixed: source.unfixed,
        false_p: source.false_p,
        out_of_scope: source.out_of_scope,
        is_mitigated: source.is_mitigated,
        description: spec_prepare_text_field(
            name,
            source_product_id,
            source.id,
            "description"@,
            Some(source.description),
            Some(target.description),
        ),
        mitigation: spec_prepare_text_field(
            name,
            source_product_id,
            source.id,
            "mitigation"@,
            source.mitigation,
            target.mitigation,
        ),
        impact: spec_prepare_text_field(
            name,
            source_product_id,
            source.id,
            "impact"@,
            source.impact,
            target.impact,
        ),
        notes: spec_prepare_notes(name, source_product_id, source.id, source_notes, target_notes),
    }
}

/// The last finding with the given id (a later finding replaces an earlier
/// one with the same id, as in a map built from the list).
pub open spec fn last_with_id(fs: Seq<FindingView>, id: u64) -> Option<FindingView>
    decreases fs.len(),
{
    if fs.len() == 0 {
        None
    } else if fs.last().id == id {
        Some(fs.last())
    } else {
        last_with_id(fs.drop_last(), id)
    }
}

pub open spec fn finding_in(m: Map<u64, Finding>, id: u64) -> Option<FindingView> {
    if m.contains_key(id) {
        Some(m[id]@)
    } else {
        None
    }
}

/// The notes of a finding in a map of notes (none when it is absent).
pub open spec fn notes_in(m: Map<u64, Vec<Note>>, id: u64) -> Seq<NoteView> {
    if m.contains_key(id) {
        notes_view(m[id]@)
    } else {
        Seq::empty()
    }
}

/// The preflight outcome of an operation.
pub open spec fn spec_dry_run_outcome(
    planned_sources: Seq<FindingView>,
    planned_targets: Seq<FindingView>,
    source_id: u64,
    target_id: u64,
    current_sources: Map<u64, Finding>,
    current_targets: Map<u64, Finding>,
) -> DryRunOutcome {
    match (last_with_id(planned_sources, source_id), finding_in(current_sources, source_id)) {
        (Some(planned_source), Some(current_source)) => if planned_source != current_source {
            DryRunOutcome::SourceChanged
        } else {
            match last_with_id(planned_targets, target_id) {
                None => DryRunOutcome::TargetMissingFromPlan,
                Some(planned_target) => match finding_in(current_targets, target_id) {
                    None => DryRunOutcome::TargetChanged,
                    Some(current_target) => if planned_target != current_target {
                        DryRunOutcome::TargetChanged
                    } else {
                        DryRunOutcome::Ready
                    },
                },
            }
        },
        _ => DryRunOutcome::SourceMissing,
    }
}

// ---------------------------------------------------------------------------
// Laws
// ---------------------------------------------------------------------------

/// The patch carries the source's state: each state flag of the patch is the
/// source finding's flag, whatever the target holds.
pub proof fn law_patch_carries_source_state(
    name: Seq<char>,
    source_product_id: u64,
    source: FindingView,
    target: FindingView,
    source_notes: Seq<NoteView>,
    target_notes: Seq<NoteView>,
)
    ensures
        ({
            let p = spec_prepare_patch(
                name,
                source_product_id,
                source,
                target,
                source_notes,
                target_notes,
            );
            &&& p.active == source.active
            &&& p.verified == source.verified
            &&& p.fixed == source.fixed
            &&& p.unfixed == source.unfixed
            &&& p.false_p == source.false_p
            &&& p.out_of_scope == source.out_of_scope
            &&& p.is_mitigated == source.is_mitigated
        }),
{
}

proof fn lemma_field_marker_prefix(
    name: Seq<char>,
    pid: u64,
    fid: u64,
    field: Seq<char>,
    value: Seq<char>,
    rest: Seq<char>,
)
    ensures
        contains_text(
            transferred_text(name, pid, fid, field, value) + rest,
            field_marker(pid, fid, field),
        ),
{
    reveal(transferred_text);
    let m = field_marker(pid, fid, field);
    let whole = transferred_text(name, pid, fid, field, value) + rest;
    assert(whole.subrange(0, m.len() as int) =~= m);
    lemma_prefix_contained(whole, m);
}

/// Preparing a text field again against the text it produced gives nothing
/// to write: the transferred text is never appended twice.
pub proof fn law_text_field_transferred_once(
    name: Seq<char>,
    source_product_id: u64,
    source_finding_id: u64,
    field: Seq<char>,
    source_value: Option<Seq<char>>,
    target_value: Option<Seq<char>>,
)
    requires
        spec_prepare_text_field(
            name,
            source_product_id,
            source_finding_id,
            field,
            source_value,
            target_value,
        ) is Some,
    ensures
        spec_prepare_text_field(
            name,
            source_product_id,
            source_finding_id,
            field,
            source_value,
            spec_prepare_text_field(
                name,
                source_product_id,
                source_finding_id,
                field,
                source_value,
                target_value,
            ),
        ) is None,
{
    let s = text_or_empty(source_value);
    let t = text_or_empty(target_value);
    if t.len() == 0 {
        lemma_field_marker_prefix(name, source_product_id, source_finding_id, field, s, Seq::empty());
        assert(transferred_text(name, source_product_id, source_finding_id, field, s)
            + Seq::<char>::empty() =~= transferred_text(
            name,
            source_product_id,
            source_finding_id,
            field,
            s,
        ));
    } else {
        lemma_field_marker_prefix(
            name,
            source_product_id,
            source_finding_id,
            field,
            s,
            "\n\n---\n\n"@ + t,
        );
        assert(transferred_text(name, source_product_id, source_finding_id, field, s) + (
        "\n\n---\n\n"@ + t) =~= transferred_text(
            name,
            source_product_id,
            source_finding_id,
            field,
            s,
        ) + "\n\n---\n\n"@ + t);
    }
}

/// The entry of a transferred note starts with the note's marker.
pub proof fn lemma_note_entry_has_marker(name: Seq<char>, pid: u64, fid: u64, n: NoteView)
    ensures
        contains_text(transferred_note_text(name, pid, fid, n), note_marker_text(pid, fid, n.id)),
{
    reveal(transferred_note_text);
    let m = note_marker_text(pid, fid, n.id);
    let e = transferred_note_text(name, pid, fid, n);
    assert(e.subrange(0, m.len() as int) =~= m);
    lemma_prefix_contained(e, m);
}

/// No more notes are prepared than there are source notes.
pub proof fn lemma_prepared_notes_len(
    name: Seq<char>,
    pid: u64,
    fid: u64,
    sns: Seq<NoteView>,
    tns: Seq<NoteView>,
)
    ensures
        spec_prepare_notes(name, pid, fid, sns, tns).len() <= sns.len(),
    decreases sns.len(),
{
    if sns.len() > 0 {
        lemma_prepared_notes_len(name, pid, fid, sns.drop_last(), tns);
    }
}

proof fn lemma_prepared_notes_source(
    name: Seq<char>,
    pid: u64,
    fid: u64,
    sns: Seq<NoteView>,
    tns: Seq<NoteView>,
)
    ensures
        forall|j: int|
            0 <= j < spec_prepare_notes(name, pid, fid, sns, tns).len() ==> exists|i: int|
                0 <= i < sns.len() && !is_blank(sns[i].entry) && !some_note_contains(
                    tns,
                    note_marker_text(pid, fid, sns[i].id),
                ) && (#[trigger] spec_prepare_notes(name, pid, fid, sns, tns)[j])
                    == (PreparedNoteView {
                    source_note_id: sns[i].id,
                    entry: transferred_note_text(name, pid, fid, sns[i]),
                }),
    decreases sns.len(),
{
    if sns.len() > 0 {
        let prev = sns.drop_last();
        lemma_prepared_notes_source(name, pid, fid, prev, tns);
        let r = spec_prepare_notes(name, pid, fid, prev, tns);
        let full = spec_prepare_notes(name, pid, fid, sns, tns);
        assert forall|j: int| 0 <= j < full.len() implies exists|i: int|
            0 <= i < sns.len() && !is_blank(sns[i].entry) && !some_note_contains(
                tns,
                note_marker_text(pid, fid, sns[i].id),
            ) && (#[trigger] full[j]) == (PreparedNoteView {
                source_note_id: sns[i].id,
                entry: transferred_note_text(name, pid, fid, sns[i]),
            }) by {
            if j < r.len() {
                assert(full[j] == r[j]);
                let i = choose|i: int|
                    0 <= i < prev.len() && !is_blank(prev[i].entry) && !some_note_contains(
                        tns,
                        note_marker_text(pid, fid, prev[i].id),
                    ) && r[j] == (PreparedNoteView {
                        source_note_id: prev[i].id,
                        entry: transferred_note_text(name, pid, fid, prev[i]),
                    });
                assert(prev[i] == sns[i]);
            } else {
                let i = sns.len() - 1;
                assert(full[j] == (PreparedNoteView {
                    source_note_id: sns[i].id,
                    entry: transferred_note_text(name, pid, fid, sns[i]),
                }));
            }
        }
    }
}


proof fn lemma_prepared_notes_complete(
    name: Seq<char>,
    pid: u64,
    fid: u64,
    sns: Seq<NoteView>,
    tns: Seq<NoteView>,
)
    ensures
        forall|i: int|
            0 <= i < sns.len() && !is_blank(#[trigger] sns[i].entry) && !some_note_contains(
                tns,
                note_marker_text(pid, fid, sns[i].id),
            ) ==> exists|j: int|
                0 <= j < spec_prepare_notes(name, pid, fid, sns, tns).len()
                    && spec_prepare_notes(name, pid, fid, sns, tns)[j].entry
                    == transferred_note_text(name, pid, fid, sns[i]),
    decreases sns.len(),
{
    if sns.len() > 0 {
        let prev = sns.drop_last();
        lemma_prepared_notes_complete(name, pid, fid, prev, tns);
        let r = spec_prepare_notes(name, pid, fid, prev, tns);
        let full = spec_prepare_notes(name, pid, fid, sns, tns);
        assert forall|i: int|
            0 <= i < sns.len() && !is_blank(#[trigger] sns[i].entry) && !some_note_contains(
                tns,
                note_marker_text(pid, fid, sns[i].id),
            ) implies exists|j: int|
            0 <= j < full.len() && full[j].entry == transferred_note_text(name, pid, fid, sns[i]) by {
            if i < prev.len() {
                assert(prev[i] == sns[i]);
                assert(!is_blank(prev[i].entry));
                let j = choose|j: int|
                    0 <= j < r.len() && r[j].entry == transferred_note_text(name, pid, fid, prev[i]);
                assert(full[j] == r[j]);
            } else {
                assert(full[r.len() as int].entry == transferred_note_text(name, pid, fid, sns[i]));
            }
        }
    }
}

/// Once the prepared notes have been added to the target, preparing the
/// notes again transfers nothing: no source note is transferred twice.
pub proof fn law_notes_transferred_once(
    name: Seq<char>,
    source_product_id: u64,
    source_finding_id: u64,
    source_notes: Seq<NoteView>,
    target_notes: Seq<NoteView>,
    updated_target_notes: Seq<NoteView>,
)
    requires
        forall|k: int|
            0 <= k < target_notes.len() ==> exists|m: int|
                0 <= m < updated_target_notes.len() && (#[trigger] target_notes[k]).entry
                    == updated_target_notes[m].entry,
        forall|j: int|
            0 <= j < spec_prepare_notes(
                name,
                source_product_id,
                source_finding_id,
                source_notes,
                target_notes,
            ).len() ==> exists|m: int|
                0 <= m < updated_target_notes.len() && (#[trigger] spec_prepare_notes(
                    name,
                    source_product_id,
                    source_finding_id,
                    source_notes,
                    target_notes,
                )[j]).entry == updated_target_notes[m].entry,
    ensures
        spec_prepare_notes(
            name,
            source_product_id,
            source_finding_id,
            source_notes,
            updated_target_notes,
        ).len() == 0,
{
    let pid = source_product_id;
    let fid = source_finding_id;
    let first = spec_prepare_notes(name, pid, fid, source_notes, target_notes);
    lemma_prepared_notes_complete(name, pid, fid, source_notes, target_notes);
    lemma_prepared_notes_source(name, pid, fid, source_notes, updated_target_notes);
    let again = spec_prepare_notes(name, pid, fid, source_notes, updated_target_notes);
    if again.len() > 0 {
        let i = choose|i: int|
            0 <= i < source_notes.len() && !is_blank(source_notes[i].entry) && !some_note_contains(
                updated_target_notes,
                note_marker_text(pid, fid, source_notes[i].id),
            ) && again[0] == (PreparedNoteView {
                source_note_id: source_notes[i].id,
                entry: transferred_note_text(name, pid, fid, source_notes[i]),
            });
        let n = source_notes[i];
        let marker = note_marker_text(pid, fid, n.id);
        if some_note_contains(target_notes, marker) {
            let k = choose|k: int|
                0 <= k < target_notes.len() && contains_text(#[trigger] target_notes[k].entry, marker);
            let m = choose|m: int|
                0 <= m < updated_target_notes.len() && target_notes[k].entry
                    == updated_target_notes[m].entry;
            assert(contains_text(updated_target_notes[m].entry, marker));
            assert(some_note_contains(updated_target_notes, marker));
        } else {
            let j = choose|j: int|
                0 <= j < first.len() && first[j].entry == transferred_note_text(name, pid, fid, n);
            let m = choose|m: int|
                0 <= m < updated_target_notes.len() && (#[trigger] first[j]).entry
                    == updated_target_notes[m].entry;
            lemma_note_entry_has_marker(name, pid, fid, n);
            assert(contains_text(updated_target_notes[m].entry, marker));
            assert(some_note_contains(updated_target_notes, marker));
        }
    }
}

// ---------------------------------------------------------------------------
// Implementation
// ---------------------------------------------------------------------------

/// The text of an optional string slice.
pub open spec fn opt_str(o: Option<&str>) -> Option<Seq<char>> {
    match o {
        Some(s) => Some(s@),
        None => None,
    }
}

fn str_or_empty(o: Option<&str>) -> (r: &str)
    ensures
        r@ == text_or_empty(opt_str(o)),
{
    match o {
        Some(s) => s,
        None => {
            let e = "";
            proof {
                reveal_strlit("");
            }
            e
        },
    }
}

fn field_marker_string(pid: u64, fid: u64, field: &str) -> (s: String)
    ensures
        s@ == field_marker(pid, fid, field@),
{
    let mut s = String::from_str("[dojo-migrate source-product=");
    push_decimal(&mut s, pid);
    s.append(" source-finding=");
    push_decimal(&mut s, fid);
    s.append(" field=");
    s.append(field);
    s.append("]");
    proof {
        reveal(field_marker);
    }
    s
}

/// The marker of a transferred source note.
pub fn note_marker(source_product_id: u64, source_finding_id: u64, source_note_id: u64) -> (s:
    String)
    ensures
        s@ == note_marker_text(source_product_id, source_finding_id, source_note_id),
{
    let mut s = String::from_str("[dojo-migrate source-product=");
    push_decimal(&mut s, source_product_id);
    s.append(" source-finding=");
    push_decimal(&mut s, source_finding_id);
    s.append(" source-note=");
    push_decimal(&mut s, source_note_id);
    s.append("]");
    proof {
        reveal(note_marker_text);
    }
    s
}

/// The new content of a target text field (see `spec_prepare_text_field`).
pub fn prepare_text_field(
    source_product_name: &str,
    source_product_id: u64,
    source_finding_id: u64,
    field_name: &str,
    source_value: Option<&str>,
    target_value: Option<&str>,
) -> (r: Option<String>)
    ensures
        crate::api::models::opt_text(r) == spec_prepare_text_field(
            source_product_name@,
            source_product_id,
            source_finding_id,
            field_name@,
            opt_str(source_value),
            opt_str(target_value),
        ),
{
    let source_value = str_or_empty(source_value);
    let target_value = str_or_empty(target_value);
    if source_value.is_empty() {
        return None;
    }
    if crate::text::same_str(source_value, target_value) {
        return None;
    }
    let marker = field_marker_string(source_product_id, source_finding_id, field_name);
    if contains(target_value, marker.as_str()) {
        return None;
    }
    let mut transferred = marker;
    transferred.append("\nПеренесено из продукта ");
    transferred.append(source_product_name);
    transferred.append(" [");
    push_decimal(&mut transferred, source_product_id);
    transferred.append("], finding #");
    push_decimal(&mut transferred, source_finding_id);
    transferred.append(":\n");
    transferred.append(source_value);
    proof {
        reveal(transferred_text);
    }
    if target_value.is_empty() {
        Some(transferred)
    } else {
        transferred.append("\n\n---\n\n");
        transferred.append(target_value);
        Some(transferred)
    }
}

/// How the author of a note is named.
pub fn format_note_author(note: &Note) -> (s: String)
    ensures
        s@ == author_text(note@),
{
    let first = trim(note.author.first_name.as_str());
    let last = trim(note.author.last_name.as_str());
    let mut joined = first;
    joined.append(" ");
    joined.append(last.as_str());
    let full_name = trim(joined.as_str());
    if full_name.as_str().is_empty() {
        note.author.username.clone()
    } else {
        let mut s = full_name;
        s.append(" (@");
        s.append(note.author.username.as_str());
        s.append(")");
        s
    }
}

fn any_note_contains(notes: &[Note], text: &str) -> (r: bool)
    ensures
        r == some_note_contains(notes_view(notes@), text@),
{
    let mut i: usize = 0;
    while i < notes.len()
        invariant
            i <= notes@.len(),
            forall|k: int| 0 <= k < i ==> !contains_text(#[trigger] notes@[k].entry@, text@),
        decreases notes.len() - i,
    {
        if contains(notes[i].entry.as_str(), text) {
            assert(notes_view(notes@)[i as int].entry == notes@[i as int].entry@);
            return true;
        }
        i = i + 1;
    }
    assert forall|k: int| 0 <= k < notes_view(notes@).len() implies !contains_text(
        #[trigger] notes_view(notes@)[k].entry,
        text@,
    ) by {
        assert(notes_view(notes@)[k].entry == notes@[k].entry@);
    }
    false
}

fn transferred_note_entry(name: &str, pid: u64, fid: u64, note: &Note, marker: String) -> (s:
    String)
    requires
        marker@ == note_marker_text(pid, fid, note.id),
    ensures
        s@ == transferred_note_text(name@, pid, fid, note@),
{
    let author = format_note_author(note);
    let mut entry = marker;
    entry.append("\nПеренесено из продукта ");
    entry.append(name);
    entry.append(" [");
    push_decimal(&mut entry, pid);
    entry.append("], finding #");
    push_decimal(&mut entry, fid);
    entry.append("\nАвтор исходной заметки: ");
    entry.append(author.as_str());
    entry.append("\nДата исходной заметки: ");
    entry.append(note.date.as_str());
    entry.append("\n\n---\n\n");
    entry.append(note.entry.as_str());
    proof {
        reveal(transferred_note_text);
    }
    entry
}

/// The source notes to be transferred (see `spec_prepare_notes`).
pub fn prepare_notes(
    plan: &MigrationPlan,
    source: &Finding,
    source_notes: &[Note],
    target_notes: &[Note],
) -> (r: Vec<PreparedFindingNote>)
    ensures
        r@.map_values(|n: PreparedFindingNote| n@) == spec_prepare_notes(
            plan.source_product.name@,
            plan.source_product.id,
            source.id,
            notes_view(source_notes@),
            notes_view(target_notes@),
        ),
{
    let ghost name = plan.source_product.name@;
    let ghost sns = notes_view(source_notes@);
    let ghost tns = notes_view(target_notes@);
    let mut r: Vec<PreparedFindingNote> = Vec::new();
    let mut i: usize = 0;
    assert(sns.take(0) =~= Seq::<NoteView>::empty());
    assert(r@.map_values(|n: PreparedFindingNote| n@) =~= Seq::<PreparedNoteView>::empty());
    while i < source_notes.len()
        invariant
            i <= source_notes@.len(),
            name == plan.source_product.name@,
            sns == notes_view(source_notes@),
            tns == notes_view(target_notes@),
            r@.map_values(|n: PreparedFindingNote| n@) == spec_prepare_notes(
                name,
                plan.source_product.id,
                source.id,
                sns.take(i as int),
                tns,
            ),
        decreases source_notes.len() - i,
    {
        let ghost before = r@.map_values(|n: PreparedFindingNote| n@);
        let note = &source_notes[i];
        proof {
            assert(sns.take(i + 1).drop_last() =~= sns.take(i as int));
            assert(sns.take(i + 1).last() == note@);
        }
        if !blank(note.entry.as_str()) {
            let marker = note_marker(plan.source_product.id, source.id, note.id);
            if !any_note_contains(target_notes, marker.as_str()) {
                let entry = transferred_note_entry(
                    plan.source_product.name.as_str(),
                    plan.source_product.id,
                    source.id,
                    note,
                    marker,
                );
                r.push(PreparedFindingNote { source_note_id: note.id, entry });
                assert(r@.map_values(|n: PreparedFindingNote| n@) =~= before.push(
                    PreparedNoteView {
                        source_note_id: note.id,
                        entry: transferred_note_text(name, plan.source_product.id, source.id, note@),
                    },
                ));
            }
        }
        i = i + 1;
    }
    assert(sns.take(source_notes@.len() as int) =~= sns);
    r
}

/// The patch that transfers the source's state, texts and notes to the target.
pub fn prepare_patch(
    plan: &MigrationPlan,
    source: &Finding,
    target: &Finding,
    source_notes: &[Note],
    target_notes: &[Note],
) -> (r: PreparedFindingPatch)
    ensures
        r.active == source.active,
        r.verified == source.verified,
        r.fixed == source.fixed,
        r.unfixed == source.unfixed,
        r.false_p == source.false_p,
        r.out_of_scope == source.out_of_scope,
        r.is_mitigated == source.is_mitigated,
        r@ == spec_prepare_patch(
            plan.source_product.name@,
            plan.source_product.id,
            source@,
            target@,
            notes_view(source_notes@),
            notes_view(target_notes@),
        ),
{
    let name = plan.source_product.name.as_str();
    let pid = plan.source_product.id;
    let description = prepare_text_field(
        name,
        pid,
        source.id,
        "description",
        Some(source.description.as_str()),
        Some(target.description.as_str()),
    );
    let mitigation = prepare_text_field(
        name,
        pid,
        source.id,
        "mitigation",
        opt_as_str(&source.mitigation),
        opt_as_str(&target.mitigation),
    );
    let impact = prepare_text_field(
        name,
        pid,
        source.id,
        "impact",
        opt_as_str(&source.impact),
        opt_as_str(&target.impact),
    );
    let notes = prepare_notes(plan, source, source_notes, target_notes);
    PreparedFindingPatch {
        active: source.active,
        verified: source.verified,
        fixed: source.fixed,
        unfixed: source.unfixed,
        false_p: source.false_p,
        out_of_scope: source.out_of_scope,
        is_mitigated: source.is_mitigated,
        description,
        mitigation,
        impact,
        notes,
    }
}

fn opt_as_str(o: &Option<String>) -> (r: Option<&str>)
    ensures
        opt_str(r) == crate::api::models::opt_text(*o),
{
    match o {
        Some(s) => Some(s.as_str()),
        None => None,
    }
}

/// The dry-run item of an operation.
pub fn item(operation: &ApprovedOperation, outcome: DryRunOutcome, patch: Option<
    PreparedFindingPatch,
>) -> (r: DryRunItem)
    ensures
        r.row_id@ == operation.row_id@,
        r.source_finding_id == operation.source_finding_id,
        r.target_product_id == operation.target_product_id,
        r.target_finding_id == operation.target_finding_id,
        r.outcome == outcome,
        r.patch == patch,
{
    DryRunItem {
        row_id: operation.row_id.clone(),
        source_finding_id: operation.source_finding_id,
        target_product_id: operation.target_product_id,
        target_finding_id: operation.target_finding_id,
        outcome,
        patch,
    }
}

/// Where the last finding with each id stands in a list.
pub(crate) fn positions_by_id(findings: &[Finding]) -> (m: HashMap<u64, usize>)
    ensures
        forall|id: u64|
            #![trigger last_with_id(findings_view(findings@), id)]
            (m@.contains_key(id) <==> last_with_id(findings_view(findings@), id) is Some)
                && (m@.contains_key(id) ==> m@[id] < findings@.len() && Some(
                findings@[m@[id] as int]@,
            ) == last_with_id(findings_view(findings@), id)),
{
    let ghost fs = findings_view(findings@);
    let mut m: HashMap<u64, usize> = HashMap::new();
    let mut i: usize = 0;
    while i < findings.len()
        invariant
            i <= findings@.len(),
            fs == findings_view(findings@),
            forall|id: u64|
                #![trigger last_with_id(fs.take(i as int), id)]
                (m@.contains_key(id) <==> last_with_id(fs.take(i as int), id) is Some) && (
                m@.contains_key(id) ==> m@[id] < i && Some(findings@[m@[id] as int]@)
                    == last_with_id(fs.take(i as int), id)),
        decreases findings.len() - i,
    {
        let ghost old_m = m@;
        m.insert(findings[i].id, i);
        proof {
            assert(fs.take(i + 1).drop_last() =~= fs.take(i as int));
            assert(fs.take(i + 1).last() == findings@[i as int]@);
            assert forall|id: u64|
                #![trigger last_with_id(fs.take(i + 1), id)]
                (m@.contains_key(id) <==> last_with_id(fs.take(i + 1), id) is Some) && (
                m@.contains_key(id) ==> m@[id] < i + 1 && Some(findings@[m@[id] as int]@)
                    == last_with_id(fs.take(i + 1), id)) by {
                assert(last_with_id(fs.take(i + 1), id) == if findings@[i as int].id == id {
                    Some(findings@[i as int]@)
                } else {
                    last_with_id(fs.take(i as int), id)
                });
                if findings@[i as int].id != id {
                    assert(old_m.contains_key(id) == m@.contains_key(id));
                }
            }
        }
        i = i + 1;
    }
    assert(fs.take(findings@.len() as int) =~= fs);
    m
}

/// The preflight of every approved operation, in order: whether the planned
/// and current source and target findings still agree, and the patch that
/// would be sent when they do.
pub fn build_dry_run_report(
    plan: &MigrationPlan,
    approved_operations: &[ApprovedOperation],
    current_sources: &HashMap<u64, Finding>,
    current_targets: &HashMap<u64, Finding>,
    current_source_notes: &HashMap<u64, Vec<Note>>,
    current_target_notes: &HashMap<u64, Vec<Note>>,
) -> (r: DryRunReport)
    ensures
        r.items@.len() == approved_operations@.len(),
        forall|i: int|
            0 <= i < r.items@.len() ==> {
                let it = #[trigger] r.items@[i];
                let op = approved_operations@[i];
                let outcome = spec_dry_run_outcome(
                    findings_view(plan.source_findings@),
                    findings_view(plan.target_findings@),
                    op.source_finding_id,
                    op.target_finding_id,
                    current_sources@,
                    current_targets@,
                );
                &&& it.row_id@ == op.row_id@
                &&& it.source_finding_id == op.source_finding_id
                &&& it.target_product_id == op.target_product_id
                &&& it.target_finding_id == op.target_finding_id
                &&& it.outcome == outcome
                &&& (outcome == DryRunOutcome::Ready) == (it.patch is Some)
                &&& (it.patch matches Some(p) ==> p@ == spec_prepare_patch(
                    plan.source_product.name@,
                    plan.source_product.id,
                    current_sources@[op.source_finding_id]@,
                    current_targets@[op.target_finding_id]@,
                    notes_in(current_source_notes@, op.source_finding_id),
                    notes_in(current_target_notes@, op.target_finding_id),
                ))
            },
{
    let planned_sources = positions_by_id(plan.source_findings.as_slice());
    let planned_targets = positions_by_id(plan.target_findings.as_slice());
    let no_notes: Vec<Note> = Vec::new();
    let mut items: Vec<DryRunItem> = Vec::new();
    let mut i: usize = 0;
    while i < approved_operations.len()
        invariant
            i <= approved_operations@.len(),
            items@.len() == i,
            no_notes@.len() == 0,
            forall|id: u64|
                #![trigger last_with_id(findings_view(plan.source_findings@), id)]
                (planned_sources@.contains_key(id) <==> last_with_id(
                    findings_view(plan.source_findings@),
                    id,
                ) is Some) && (planned_sources@.contains_key(id) ==> planned_sources@[id]
                    < plan.source_findings@.len() && Some(
                    plan.source_findings@[planned_sources@[id] as int]@,
                ) == last_with_id(findings_view(plan.source_findings@), id)),
            forall|id: u64|
                #![trigger last_with_id(findings_view(plan.target_findings@), id)]
                (planned_targets@.contains_key(id) <==> last_with_id(
                    findings_view(plan.target_findings@),
                    id,
                ) is Some) && (planned_targets@.contains_key(id) ==> planned_targets@[id]
                    < plan.target_findings@.len() && Some(
                    plan.target_findings@[planned_targets@[id] as int]@,
                ) == last_with_id(findings_view(plan.target_findings@), id)),
            forall|j: int|
                0 <= j < i ==> {
                    let it = #[trigger] items@[j];
                    let op = approved_operations@[j];
                    let outcome = spec_dry_run_outcome(
                        findings_view(plan.source_findings@),
                        findings_view(plan.target_findings@),
                        op.source_finding_id,
                        op.target_finding_id,
                        current_sources@,
                        current_targets@,
                    );
                    &&& it.row_id@ == op.row_id@
                    &&& it.source_finding_id == op.source_finding_id
                    &&& it.target_product_id == op.target_product_id
                    &&& it.target_finding_id == op.target_finding_id
                    &&& it.outcome == outcome
                    &&& (outcome == DryRunOutcome::Ready) == (it.patch is Some)
                    &&& (it.patch matches Some(p) ==> p@ == spec_prepare_patch(
                        plan.source_product.name@,
                        plan.source_product.id,
                        current_sources@[op.source_finding_id]@,
                        current_targets@[op.target_finding_id]@,
                        notes_in(current_source_notes@, op.source_finding_id),
                        notes_in(current_target_notes@, op.target_finding_id),
                    ))
                },
        decreases approved_operations.len() - i,
    {
        let operation = &approved_operations[i];
        let sid = operation.source_finding_id;
        let tid = operation.target_finding_id;
        let ghost outcome = spec_dry_run_outcome(
            findings_view(plan.source_findings@),
            findings_view(plan.target_findings@),
            sid,
            tid,
            current_sources@,
            current_targets@,
        );
        proof {
            let _ = last_with_id(findings_view(plan.source_findings@), sid);
            let _ = last_with_id(findings_view(plan.target_findings@), tid);
        }
        let next = match planned_sources.get(&sid) {
            None => item(operation, DryRunOutcome::SourceMissing, None),
            Some(ps) => match current_sources.get(&sid) {
                None => item(operation, DryRunOutcome::SourceMissing, None),
                Some(current_source) => {
                    let planned_source = &plan.source_findings[*ps];
                    if !planned_source.same_as(current_source) {
                        item(operation, DryRunOutcome::SourceChanged, None)
                    } else {
                        match planned_targets.get(&tid) {
                            None => item(operation, DryRunOutcome::TargetMissingFromPlan, None),
                            Some(pt) => match current_targets.get(&tid) {
                                None => item(operation, DryRunOutcome::TargetChanged, None),
                                Some(current_target) => {
                                    let planned_target = &plan.target_findings[*pt];
                                    if !planned_target.same_as(current_target) {
                                        item(operation, DryRunOutcome::TargetChanged, None)
                                    } else {
                                        let source_notes = match current_source_notes.get(&sid) {
                                            Some(v) => v.as_slice(),
                                            None => no_notes.as_slice(),
                                        };
                                        let target_notes = match current_target_notes.get(&tid) {
                                            Some(v) => v.as_slice(),
                                            None => no_notes.as_slice(),
                                        };
                                        proof {
                                            assert(notes_view(no_notes@) =~= Seq::<NoteView>::empty());
                                        }
                                        let patch = prepare_patch(
                                            plan,
                                            current_source,
                                            current_target,
                                            source_notes,
                                            target_notes,
                                        );
                                        item(operation, DryRunOutcome::Ready, Some(patch))
                                    }
                                },
                            },
                        }
                    }
                },
            },
        };
        items.push(next);
        i = i + 1;
    }
    DryRunReport { items }
}

} // verus!

//! Applying approved operations: what to send to DefectDojo for each item,
//! and how its answers settle the item's outcome.
//!
//! An item is driven step by step: `ItemExecution::start` decides what the
//! item needs, `next_step` names the request to send, and `record_patch` and
//! `record_note` take DefectDojo's answers until the step is `Finished`.
use vstd::prelude::*;
use std::collections::HashMap;
use crate::api::models::{
    CreateFindingNoteRequest, CreateFindingNoteRequestView, Finding, FindingPatchRequest,
    FindingPatchRequestView, Note, copy_opt_text, opt_text,
};
use crate::dry_run::{
    DryRunItem, DryRunOutcome, PreparedFindingNote, PreparedFindingPatch, PreparedNoteView,
    PreparedPatchView, dry_run_label, notes_in, prepare_patch, spec_prepare_patch,
};
use crate::plan::models::MigrationPlan;
use crate::text::{decimal, push_decimal};

verus! {

broadcast use vstd::std_specs::hash::group_hash_axioms;

/// How the application of one approved operation ended.
#[derive(Debug, Clone, Copy, PartialEq, Eq, Hash, Structural)]
pub enum ExecutionOutcome {
    Applied,
    PartiallyApplied,
    Failed,
    Skipped,
}

pub open spec fn execution_label(o: ExecutionOutcome) -> Seq<char> {
    match o {
        ExecutionOutcome::Applied => "Applied"@,
        ExecutionOutcome::PartiallyApplied => "PartiallyApplied"@,
        ExecutionOutcome::Failed => "Failed"@,
        ExecutionOutcome::Skipped => "Skipped"@,
    }
}

impl ExecutionOutcome {
    /// The name under which the outcome is reported.
    pub fn label(self) -> (s: &'static str)
        ensures
            s@ == execution_label(self),
    {
        match self {
            ExecutionOutcome::Applied => "Applied",
            ExecutionOutcome::PartiallyApplied => "PartiallyApplied",
            ExecutionOutcome::Failed => "Failed",
            ExecutionOutcome::Skipped => "Skipped",
        }
    }

    /// Every outcome, in the order in which they are summarised.
    pub fn all() -> (r: Vec<ExecutionOutcome>)
        ensures
            r@ == seq![
                ExecutionOutcome::Applied,
                ExecutionOutcome::PartiallyApplied,
                ExecutionOutcome::Failed,
                ExecutionOutcome::Skipped,
            ],
    {
        let mut r: Vec<ExecutionOutcome> = Vec::new();
        r.push(ExecutionOutcome::Applied);
        r.push(ExecutionOutcome::PartiallyApplied);
        r.push(ExecutionOutcome::Failed);
        r.push(ExecutionOutcome::Skipped);
        assert(r@ =~= seq![
            ExecutionOutcome::Applied,
            ExecutionOutcome::PartiallyApplied,
            ExecutionOutcome::Failed,
            ExecutionOutcome::Skipped,
        ]);
        r
    }
}

/// What happened to one approved operation.
#[derive(Debug, Clone)]
pub struct ExecutionItem {
    pub row_id: String,
    pub source_finding_id: u64,
    pub target_product_id: u64,
    pub target_finding_id: u64,
    pub outcome: ExecutionOutcome,
    pub patch_applied: bool,
    pub notes_planned: usize,
    pub notes_created: usize,
    pub errors: Vec<String>,
}

/// An execution item, as text.
pub struct ExecutionItemView {
    pub row_id: Seq<char>,
    pub source_finding_id: u64,
    pub target_product_id: u64,
    pub target_finding_id: u64,
    pub outcome: ExecutionOutcome,
    pub patch_applied: bool,
    pub notes_planned: usize,
    pub notes_created: usize,
    pub errors: Seq<Seq<char>>,
}

impl View for ExecutionItem {
    type V = ExecutionItemView;

    open spec fn view(&self) -> ExecutionItemView {
        ExecutionItemView {
            row_id: self.row_id@,
            source_finding_id: self.source_finding_id,
            target_product_id: self.target_product_id,
            target_finding_id: self.target_finding_id,
            outcome: self.outcome,
            patch_applied: self.patch_applied,
            notes_planned: self.notes_planned,
            notes_created: self.notes_created,
            errors: self.errors@.map_values(|e: String| e@),
        }
    }
}

/// The outcome of every approved operation of a run, in order.
#[derive(Debug)]
pub struct ExecutionReport {
    pub started_at_unix_seconds: u64,
    pub finished_at_unix_seconds: u64,
    pub items: Vec<ExecutionItem>,
}

/// An outcome that counts as a failure of the run.
pub open spec fn is_failure(o: ExecutionOutcome) -> bool {
    o == ExecutionOutcome::PartiallyApplied || o == ExecutionOutcome::Failed
}

/// The number of items that failed wholly or in part.
pub open spec fn failures(items: Seq<ExecutionItem>) -> nat
    decreases items.len(),
{
    if items.len() == 0 {
        0
    } else {
        failures(items.drop_last()) + if is_failure(items.last().outcome) {
            1nat
        } else {
            0nat
        }
    }
}

proof fn lemma_failures_bound(items: Seq<ExecutionItem>)
    ensures
        failures(items) <= items.len(),
    decreases items.len(),
{
    if items.len() > 0 {
        lemma_failures_bound(items.drop_last());
    }
}

impl ExecutionReport {
    /// The number of items that were applied only in part or failed.
    pub fn failure_count(&self) -> (n: usize)
        ensures
            n == failures(self.items@),
    {
        let mut n: usize = 0;
        let mut i: usize = 0;
        while i < self.items.len()
            invariant
                i <= self.items@.len(),
                n == failures(self.items@.take(i as int)),
            decreases self.items.len() - i,
        {
            proof {
                assert(self.items@.take(i + 1).drop_last() =~= self.items@.take(i as int));
                lemma_failures_bound(self.items@.take(i as int));
            }
            match self.items[i].outcome {
                ExecutionOutcome::PartiallyApplied | ExecutionOutcome::Failed => {
                    n = n + 1;
                },
                _ => {},
            }
            i = i + 1;
        }
        assert(self.items@.take(self.items@.len() as int) =~= self.items@);
        n
    }
}

/// The PATCH request that carries a prepared patch.
pub open spec fn patch_request_of(p: PreparedPatchView) -> FindingPatchRequestView {
    FindingPatchRequestView {
        active: p.active,
        verified: p.verified,
        fixed: p.fixed,
        unfixed: p.unfixed,
        false_p: p.false_p,
        out_of_scope: p.out_of_scope,
        is_mitigated: p.is_mitigated,
        description: p.description,
        mitigation: p.mitigation,
        impact: p.impact,
    }
}

fn finding_patch_request(prepared: &PreparedFindingPatch) -> (r: FindingPatchRequest)
    ensures
        r@ == patch_request_of(prepared@),
{
    FindingPatchRequest {
        active: prepared.active,
        verified: prepared.verified,
        fixed: prepared.fixed,
        unfixed: prepared.unfixed,
        false_p: prepared.false_p,
        out_of_scope: prepared.out_of_scope,
        is_mitigated: prepared.is_mitigated,
        description: copy_opt_text(&prepared.description),
        mitigation: copy_opt_text(&prepared.mitigation),
        impact: copy_opt_text(&prepared.impact),
    }
}

fn copy_patch_request(r: &FindingPatchRequest) -> (c: FindingPatchRequest)
    ensures
        c@ == r@,
{
    FindingPatchRequest {
        active: r.active,
        verified: r.verified,
        fixed: r.fixed,
        unfixed: r.unfixed,
        false_p: r.false_p,
        out_of_scope: r.out_of_scope,
        is_mitigated: r.is_mitigated,
        description: copy_opt_text(&r.description),
        mitigation: copy_opt_text(&r.mitigation),
        impact: copy_opt_text(&r.impact),
    }
}

/// Where the application of an item stands.
#[derive(Debug, Clone, Copy, PartialEq, Eq, Structural)]
pub enum ExecutionStage {
    /// The PATCH of the target finding is to be sent.
    AwaitingPatch,
    /// The patch was applied; prepared notes remain to be posted.
    PostingNotes,
    /// Nothing more is to be sent.
    Finished,
}

/// The request to send next for an item.
#[derive(Debug)]
#[allow(inconsistent_fields)]
pub enum ExecutionStep {
    PatchFinding { target_finding_id: u64, request: FindingPatchRequest },
    CreateNote { target_finding_id: u64, request: CreateFindingNoteRequest },
    Finished,
}

/// An item being applied.
pub struct ItemExecutionView {
    pub item: ExecutionItemView,
    pub stage: ExecutionStage,
    /// The PATCH still to be sent.
    pub request: Option<FindingPatchRequestView>,
    /// The prepared notes still to be posted, in order.
    pub pending_notes: Seq<PreparedNoteView>,
}

/// The item of an operation before anything was sent.
pub open spec fn item_base(d: DryRunItem, outcome: ExecutionOutcome) -> ExecutionItemView {
    ExecutionItemView {
        row_id: d.row_id@,
        source_finding_id: d.source_finding_id,
        target_product_id: d.target_product_id,
        target_finding_id: d.target_finding_id,
        outcome,
        patch_applied: false,
        notes_planned: 0,
        notes_created: 0,
        errors: Seq::empty(),
    }
}

/// An item with nothing more to send.
pub open spec fn finished(item: ExecutionItemView) -> ItemExecutionView {
    ItemExecutionView {
        item,
        stage: ExecutionStage::Finished,
        request: None,
        pending_notes: Seq::empty(),
    }
}

/// The reason given when a finding of an approved operation is no longer known.
pub open spec fn disappeared_message(side: Seq<char>, id: u64) -> Seq<char> {
    side + " finding #"@ + decimal(id as nat) + " disappeared from execution state"@
}

/// The reason given when a note could not be posted.
pub open spec fn note_failure_message(source_note_id: u64, error: Seq<char>) -> Seq<char> {
    "source note #"@ + decimal(source_note_id as nat) + " POST failed: "@ + error
}

/// The outcome of an item whose patch was applied, given the errors met.
pub open spec fn settled(errors: Seq<Seq<char>>) -> ExecutionOutcome {
    if errors.len() == 0 {
        ExecutionOutcome::Applied
    } else {
        ExecutionOutcome::PartiallyApplied
    }
}

/// How an item starts: skipped unless its preflight was ready, failed when its
/// source or target finding is no longer known, and otherwise awaiting the
/// PATCH prepared from the current findings and notes.
pub open spec fn spec_start_item(
    plan: MigrationPlan,
    d: DryRunItem,
    sources: Map<u64, Finding>,
    source_notes: Map<u64, Vec<Note>>,
    targets: Map<u64, Finding>,
    target_notes: Map<u64, Vec<Note>>,
) -> ItemExecutionView {
    if d.outcome != DryRunOutcome::Ready {
        finished(
            ExecutionItemView {
                errors: seq!["preflight outcome was "@ + dry_run_label(d.outcome)],
                ..item_base(d, ExecutionOutcome::Skipped)
            },
        )
    } else if !sources.contains_key(d.source_finding_id) {
        finished(
            ExecutionItemView {
                errors: seq![disappeared_message("source"@, d.source_finding_id)],
                ..item_base(d, ExecutionOutcome::Failed)
            },
        )
    } else if !targets.contains_key(d.target_finding_id) {
        finished(
            ExecutionItemView {
                errors: seq![disappeared_message("target"@, d.target_finding_id)],
                ..item_base(d, ExecutionOutcome::Failed)
            },
        )
    } else {
        let p = spec_prepare_patch(
            plan.source_product.name@,
            plan.source_product.id,
            sources[d.source_finding_id]@,
            targets[d.target_finding_id]@,
            notes_in(source_notes, d.source_finding_id),
            notes_in(target_notes, d.target_finding_id),
        );
        ItemExecutionView {
            item: ExecutionItemView {
                notes_planned: p.notes.len() as usize,
                ..item_base(d, ExecutionOutcome::Failed)
            },
            stage: ExecutionStage::AwaitingPatch,
            request: Some(patch_request_of(p)),
            pending_notes: p.notes,
        }
    }
}

/// Whether a request succeeded, and the error text when it did not.
pub open spec fn answer<T>(r: Result<T, String>) -> Result<(), Seq<char>> {
    match r {
        Ok(_) => Ok(()),
        Err(e) => Err(e@),
    }
}

/// The item after DefectDojo answered its PATCH; an answer at another stage
/// changes nothing.
pub open spec fn spec_record_patch(v: ItemExecutionView, a: Result<(), Seq<char>>) -> ItemExecutionView {
    if v.stage != ExecutionStage::AwaitingPatch {
        v
    } else {
        match a {
            Err(e) => finished(
                ExecutionItemView {
                    errors: v.item.errors.push("finding PATCH failed: "@ + e),
                    ..v.item
                },
            ),
            Ok(_) => if v.pending_notes.len() == 0 {
                finished(
                    ExecutionItemView {
                        patch_applied: true,
                        outcome: settled(v.item.errors),
                        ..v.item
                    },
                )
            } else {
                ItemExecutionView {
                    item: ExecutionItemView { patch_applied: true, ..v.item },
                    stage: ExecutionStage::PostingNotes,
                    request: None,
                    pending_notes: v.pending_notes,
                }
            },
        }
    }
}

/// The item after DefectDojo answered the post of its next note; an answer
/// at another stage changes nothing.
pub open spec fn spec_record_note(v: ItemExecutionView, a: Result<(), Seq<char>>) -> ItemExecutionView {
    if v.stage != ExecutionStage::PostingNotes || v.pending_notes.len() == 0 {
        v
    } else {
        let note = v.pending_notes[0];
        let item = match a {
            Ok(_) => ExecutionItemView { notes_created: (v.item.notes_created + 1) as usize, ..v.item },
            Err(e) => ExecutionItemView {
                errors: v.item.errors.push(note_failure_message(note.source_note_id, e)),
                ..v.item
            },
        };
        let rest = v.pending_notes.drop_first();
        if rest.len() == 0 {
            finished(ExecutionItemView { outcome: settled(item.errors), ..item })
        } else {
            ItemExecutionView { item, pending_notes: rest, ..v }
        }
    }
}

/// What holds of an item at each stage: every planned note is created,
/// reported as failed, or still pending once the patch is applied, and a
/// finished item's outcome agrees with what happened.
pub open spec fn execution_consistent(v: ItemExecutionView) -> bool {
    match v.stage {
        ExecutionStage::AwaitingPatch => {
            &&& !v.item.patch_applied
            &&& v.item.errors.len() == 0
            &&& v.item.notes_created == 0
            &&& v.request is Some
            &&& v.pending_notes.len() == v.item.notes_planned
            &&& v.item.outcome == ExecutionOutcome::Failed
        },
        ExecutionStage::PostingNotes => {
            &&& v.item.patch_applied
            &&& v.request is None
            &&& v.pending_notes.len() > 0
            &&& v.item.notes_created + v.item.errors.len() + v.pending_notes.len()
                == v.item.notes_planned
            &&& v.item.outcome == ExecutionOutcome::Failed
        },
        ExecutionStage::Finished => {
            &&& v.request is None
            &&& v.pending_notes.len() == 0
            &&& finished_consistent(v.item)
        },
    }
}

/// A finished item's outcome agrees with what happened to it.
pub open spec fn finished_consistent(item: ExecutionItemView) -> bool {
    match item.outcome {
        ExecutionOutcome::Applied => item.patch_applied && item.errors.len() == 0
            && item.notes_created == item.notes_planned,
        ExecutionOutcome::PartiallyApplied => item.patch_applied && item.errors.len() > 0
            && item.notes_created + item.errors.len() == item.notes_planned,
        ExecutionOutcome::Failed => !item.patch_applied && item.errors.len() == 1
            && item.notes_created == 0,
        ExecutionOutcome::Skipped => !item.patch_applied && item.errors.len() == 1
            && item.notes_created == 0 && item.notes_planned == 0,
    }
}

/// The number of answers an item still waits for.
pub open spec fn answers_left(v: ItemExecutionView) -> nat {
    v.pending_notes.len() + if v.stage == ExecutionStage::AwaitingPatch {
        1nat
    } else {
        0nat
    }
}

/// Each answer at the right stage brings an item one step closer to the end,
/// keeps it consistent, and an item with no answer left is finished.
pub proof fn law_answers_bring_items_to_an_end(v: ItemExecutionView, a: Result<(), Seq<char>>)
    requires
        execution_consistent(v),
        v.item.notes_planned <= usize::MAX,
    ensures
        v.stage == ExecutionStage::AwaitingPatch ==> execution_consistent(spec_record_patch(v, a))
            && answers_left(spec_record_patch(v, a)) < answers_left(v),
        v.stage == ExecutionStage::PostingNotes ==> execution_consistent(spec_record_note(v, a))
            && answers_left(spec_record_note(v, a)) < answers_left(v),
        answers_left(v) == 0 <==> v.stage == ExecutionStage::Finished,
{
}

/// Nothing is sent for an operation unless its preflight was ready and both
/// its findings are still known: every other item starts finished, skipped
/// or failed with one reason and nothing applied.
pub proof fn law_only_ready_items_are_sent(
    plan: MigrationPlan,
    d: DryRunItem,
    sources: Map<u64, Finding>,
    source_notes: Map<u64, Vec<Note>>,
    targets: Map<u64, Finding>,
    target_notes: Map<u64, Vec<Note>>,
)
    requires
        notes_in(source_notes, d.source_finding_id).len() <= usize::MAX,
    ensures
        ({
            let v = spec_start_item(plan, d, sources, source_notes, targets, target_notes);
            &&& execution_consistent(v)
            &&& (v.stage != ExecutionStage::Finished <==> (d.outcome == DryRunOutcome::Ready
                && sources.contains_key(d.source_finding_id) && targets.contains_key(
                d.target_finding_id,
            )))
            &&& (d.outcome != DryRunOutcome::Ready ==> v.item.outcome == ExecutionOutcome::Skipped)
            &&& (v.stage == ExecutionStage::Finished ==> !v.item.patch_applied
                && v.item.errors.len() == 1)
        }),
{
    if d.outcome == DryRunOutcome::Ready && sources.contains_key(d.source_finding_id)
        && targets.contains_key(d.target_finding_id) {
        crate::dry_run::lemma_prepared_notes_len(
            plan.source_product.name@,
            plan.source_product.id,
            sources[d.source_finding_id]@.id,
            notes_in(source_notes, d.source_finding_id),
            notes_in(target_notes, d.target_finding_id),
        );
    }
}

fn base_item(d: &DryRunItem, outcome: ExecutionOutcome) -> (r: ExecutionItem)
    ensures
        r@ == item_base(*d, outcome),
{
    let r = ExecutionItem {
        row_id: d.row_id.clone(),
        source_finding_id: d.source_finding_id,
        target_product_id: d.target_product_id,
        target_finding_id: d.target_finding_id,
        outcome,
        patch_applied: false,
        notes_planned: 0,
        notes_created: 0,
        errors: Vec::new(),
    };
    assert(r@.errors =~= Seq::<Seq<char>>::empty());
    r
}

fn disappeared(side: &str, id: u64) -> (s: String)
    ensures
        s@ == disappeared_message(side@, id),
{
    let mut s = String::from_str(side);
    s.append(" finding #");
    push_decimal(&mut s, id);
    s.append(" disappeared from execution state");
    proof {
        reveal_strlit(" finding #");
        reveal_strlit(" disappeared from execution state");
    }
    s
}

/// The application of one approved operation, step by step.
pub struct ItemExecution {
    item: ExecutionItem,
    stage: ExecutionStage,
    request: Option<FindingPatchRequest>,
    notes: Vec<PreparedFindingNote>,
    next_note: usize,
}

impl View for ItemExecution {
    type V = ItemExecutionView;

    closed spec fn view(&self) -> ItemExecutionView {
        ItemExecutionView {
            item: self.item@,
            stage: self.stage,
            request: match self.request {
                Some(r) => Some(r@),
                None => None,
            },
            pending_notes: self.notes@.map_values(|n: PreparedFindingNote| n@).skip(
                self.next_note as int,
            ),
        }
    }
}

impl ItemExecution {
    /// The item is consistent and its notes are accounted for.
    pub closed spec fn wf(&self) -> bool {
        &&& self.next_note <= self.notes@.len()
        &&& self.notes@.len() == self.item.notes_planned
        &&& execution_consistent(self@)
    }

    /// Starts the application of a preflight item against the current state
    /// of the findings and their notes.
    pub fn start(
        plan: &MigrationPlan,
        dry_run_item: &DryRunItem,
        current_sources: &HashMap<u64, Finding>,
        current_source_notes: &HashMap<u64, Vec<Note>>,
        current_targets: &HashMap<u64, Finding>,
        current_target_notes: &HashMap<u64, Vec<Note>>,
    ) -> (e: ItemExecution)
        ensures
            e.wf(),
            e@ == spec_start_item(
                *plan,
                *dry_run_item,
                current_sources@,
                current_source_notes@,
                current_targets@,
                current_target_notes@,
            ),
    {
        let sid = dry_run_item.source_finding_id;
        let tid = dry_run_item.target_finding_id;
        match dry_run_item.outcome {
            DryRunOutcome::Ready => {},
            _ => {
                let mut item = base_item(dry_run_item, ExecutionOutcome::Skipped);
                let mut msg = String::from_str("preflight outcome was ");
                msg.append(dry_run_item.outcome.label());
                item.errors.push(msg);
                proof {
                    reveal_strlit("preflight outcome was ");
                    assert(item@.errors =~= seq!["preflight outcome was "@ + dry_run_label(dry_run_item.outcome)]);
                }
                let e = ItemExecution {
                    item,
                    stage: ExecutionStage::Finished,
                    request: None,
                    notes: Vec::new(),
                    next_note: 0,
                };
                assert(e@.pending_notes =~= Seq::<PreparedNoteView>::empty());
                return e;
            },
        }
        let source = match current_sources.get(&sid) {
            Some(s) => s,
            None => {
                let mut item = base_item(dry_run_item, ExecutionOutcome::Failed);
                item.errors.push(disappeared("source", sid));
                proof {
                    reveal_strlit("source");
                    assert(item@.errors =~= seq![disappeared_message("source"@, sid)]);
                }
                let e = ItemExecution {
                    item,
                    stage: ExecutionStage::Finished,
                    request: None,
                    notes: Vec::new(),
                    next_note: 0,
                };
                assert(e@.pending_notes =~= Seq::<PreparedNoteView>::empty());
                return e;
            },
        };
        let target = match current_targets.get(&tid) {
            Some(t) => t,
            None => {
                let mut item = base_item(dry_run_item, ExecutionOutcome::Failed);
                item.errors.push(disappeared("target", tid));
                proof {
                    reveal_strlit("target");
                    assert(item@.errors =~= seq![disappeared_message("target"@, tid)]);
                }
                let e = ItemExecution {
                    item,
                    stage: ExecutionStage::Finished,
                    request: None,
                    notes: Vec::new(),
                    next_note: 0,
                };
                assert(e@.pending_notes =~= Seq::<PreparedNoteView>::empty());
                return e;
            },
        };
        let no_notes: Vec<Note> = Vec::new();
        let source_notes = match current_source_notes.get(&sid) {
            Some(v) => v.as_slice(),
            None => no_notes.as_slice(),
        };
        let target_notes = match current_target_notes.get(&tid) {
            Some(v) => v.as_slice(),
            None => no_notes.as_slice(),
        };
        proof {
            assert(crate::api::models::notes_view(no_notes@) =~= Seq::<crate::api::models::NoteView>::empty());
        }
        let prepared = prepare_patch(plan, source, target, source_notes, target_notes);
        let request = finding_patch_request(&prepared);
        let mut item = base_item(dry_run_item, ExecutionOutcome::Failed);
        item.notes_planned = prepared.notes.len();
        let e = ItemExecution {
            item,
            stage: ExecutionStage::AwaitingPatch,
            request: Some(request),
            notes: prepared.notes,
            next_note: 0,
        };
        assert(e@.pending_notes =~= prepared@.notes);
        e
    }

    /// The request to send next, or `Finished`.
    pub fn next_step(&self) -> (s: ExecutionStep)
        requires
            self.wf(),
        ensures
            match self@.stage {
                ExecutionStage::AwaitingPatch => s matches ExecutionStep::PatchFinding {
                    target_finding_id,
                    request,
                } && target_finding_id == self@.item.target_finding_id && self@.request == Some(
                    request@,
                ),
                ExecutionStage::PostingNotes => s matches ExecutionStep::CreateNote {
                    target_finding_id,
                    request,
                } && target_finding_id == self@.item.target_finding_id && request@ == (
                CreateFindingNoteRequestView { entry: self@.pending_notes[0].entry, private: false }),
                ExecutionStage::Finished => s is Finished,
            },
    {
        match self.stage {
            ExecutionStage::AwaitingPatch => {
                let request = match &self.request {
                    Some(r) => copy_patch_request(r),
                    None => {
                        assert(false);
                        return ExecutionStep::Finished;
                    },
                };
                ExecutionStep::PatchFinding {
                    target_finding_id: self.item.target_finding_id,
                    request,
                }
            },
            ExecutionStage::PostingNotes => {
                let note = &self.notes[self.next_note];
                ExecutionStep::CreateNote {
                    target_finding_id: self.item.target_finding_id,
                    request: CreateFindingNoteRequest { entry: note.entry.clone(), private: false },
                }
            },
            ExecutionStage::Finished => ExecutionStep::Finished,
        }
    }

    /// Records DefectDojo's answer to the PATCH: on success the updated target
    /// replaces the current one, on failure the item fails.
    pub fn record_patch(
        &mut self,
        result: Result<Finding, String>,
        current_targets: &mut HashMap<u64, Finding>,
    )
        requires
            old(self).wf(),
        ensures
            final(self).wf(),
            final(self)@ == spec_record_patch(old(self)@, answer(result)),
            match result {
                Ok(f) => old(self)@.stage == ExecutionStage::AwaitingPatch ==> final(current_targets)@ == old(current_targets)@.insert(old(self)@.item.target_finding_id, f),
                Err(_) => final(current_targets)@ == old(current_targets)@,
            },
            old(self)@.stage != ExecutionStage::AwaitingPatch ==> final(current_targets)@ == old(current_targets)@,
    {
        if self.stage != ExecutionStage::AwaitingPatch {
            return;
        }
        match result {
            Ok(updated) => {
                current_targets.insert(self.item.target_finding_id, updated);
                self.item.patch_applied = true;
                self.request = None;
                if self.next_note < self.notes.len() {
                    self.stage = ExecutionStage::PostingNotes;
                } else {
                    self.stage = ExecutionStage::Finished;
                    self.item.outcome = if self.item.errors.len() == 0 {
                        ExecutionOutcome::Applied
                    } else {
                        ExecutionOutcome::PartiallyApplied
                    };
                }
            },
            Err(error) => {
                let mut msg = String::from_str("finding PATCH failed: ");
                msg.append(error.as_str());
                let ghost before = self.item@.errors;
                self.item.errors.push(msg);
                self.request = None;
                self.next_note = self.notes.len();
                self.stage = ExecutionStage::Finished;
                proof {
                    reveal_strlit("finding PATCH failed: ");
                    assert(self.item@.errors =~= before.push("finding PATCH failed: "@ + error@));
                }
            },
        }
        proof {
            if self.stage == ExecutionStage::Finished {
                assert(self@.pending_notes =~= Seq::<PreparedNoteView>::empty());
            }
        }
    }

    /// Records DefectDojo's answer to the post of the next note: on success
    /// the returned notes replace the target's current notes, on failure the
    /// error is kept; after the last note the item is applied, or applied in
    /// part when an error was met.
    pub fn record_note(
        &mut self,
        result: Result<Vec<Note>, String>,
        current_target_notes: &mut HashMap<u64, Vec<Note>>,
    )
        requires
            old(self).wf(),
        ensures
            final(self).wf(),
            final(self)@ == spec_record_note(old(self)@, answer(result)),
            match result {
                Ok(notes) => old(self)@.stage == ExecutionStage::PostingNotes
                    ==> final(current_target_notes)@ == old(current_target_notes)@.insert(
                    old(self)@.item.target_finding_id,
                    notes,
                ),
                Err(_) => final(current_target_notes)@ == old(current_target_notes)@,
            },
            old(self)@.stage != ExecutionStage::PostingNotes ==> final(current_target_notes)@
                == old(current_target_notes)@,
    {
        if self.stage != ExecutionStage::PostingNotes {
            return;
        }
        let ghost v = self@;
        let note_id = self.notes[self.next_note].source_note_id;
        proof {
            assert(v.pending_notes[0] == self.notes@[self.next_note as int]@);
        }
        match result {
            Ok(notes) => {
                current_target_notes.insert(self.item.target_finding_id, notes);
                self.item.notes_created = self.item.notes_created + 1;
            },
            Err(error) => {
                let mut msg = String::from_str("source note #");
                push_decimal(&mut msg, note_id);
                msg.append(" POST failed: ");
                msg.append(error.as_str());
                let ghost before = self.item@.errors;
                self.item.errors.push(msg);
                proof {
                    reveal_strlit("source note #");
                    reveal_strlit(" POST failed: ");
                    assert(self.item@.errors =~= before.push(
                        note_failure_message(note_id, error@),
                    ));
                }
            },
        }
        self.next_note = self.next_note + 1;
        if self.next_note == self.notes.len() {
            self.stage = ExecutionStage::Finished;
            self.item.outcome = if self.item.errors.len() == 0 {
                ExecutionOutcome::Applied
            } else {
                ExecutionOutcome::PartiallyApplied
            };
        }
        proof {
            assert(self@.pending_notes =~= v.pending_notes.drop_first());
            if self.stage == ExecutionStage::Finished {
                assert(self@.pending_notes =~= Seq::<PreparedNoteView>::empty());
            }
        }
    }

    /// The item as it stands.
    pub fn into_item(self) -> (r: ExecutionItem)
        ensures
            r@ == self@.item,
    {
        self.item
    }
}

} // verus!

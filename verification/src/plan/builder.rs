//! Gathers what was downloaded and correlated into a migration plan.
use vstd::prelude::*;
use std::collections::HashMap;
use crate::api::models::{Finding, FindingView, Product, ProductView, findings_view};
use crate::config::FilterValue;
use crate::dry_run::{last_with_id, positions_by_id};
use crate::error::AppError;
use crate::ids::{ascending, ascending_distinct};
use crate::matching::models::{CorrelationReport, SourceCorrelation, TargetActionClass, TargetOperation};
use crate::plan::files::default_actions_consistent;
use crate::plan::models::{DecisionAction, MigrationPlan, PLAN_SCHEMA_VERSION, PlannedTargetOperation};
use crate::text::{decimal, push_decimal};

verus! {

/// The decision proposed by default: apply what is ready, skip the rest.
pub open spec fn spec_default_action(class: TargetActionClass) -> DecisionAction {
    match class {
        TargetActionClass::ReadyToApply => DecisionAction::ApplyAll,
        TargetActionClass::AlreadyUpToDate => DecisionAction::Skip,
        TargetActionClass::StatusConflict => DecisionAction::Skip,
    }
}

/// Only an operation that is ready to apply is applied by default; one that is
/// already up to date or in conflict is skipped until a person decides.
pub proof fn law_default_action(class: TargetActionClass)
    ensures
        spec_default_action(class) == DecisionAction::ApplyAll <==> class
            == TargetActionClass::ReadyToApply,
        spec_default_action(class) == DecisionAction::Skip <==> class
            != TargetActionClass::ReadyToApply,
{
}

/// The planned form of a target operation.
pub open spec fn planned_operation(op: TargetOperation) -> PlannedTargetOperation {
    PlannedTargetOperation {
        source_finding_id: op.source_finding_id,
        source_title: op.source_title,
        target_product_id: op.target_product_id,
        target_finding_id: op.target_finding_id,
        class: op.class,
        default_action: spec_default_action(op.class),
    }
}

/// The ids of a list of findings.
pub open spec fn finding_ids(fs: Seq<FindingView>) -> Seq<u64> {
    fs.map_values(|f: FindingView| f.id)
}

/// The views of a list of products.
pub open spec fn products_view(ps: Seq<Product>) -> Seq<ProductView> {
    ps.map_values(|p: Product| p@)
}

/// A list of findings as a map from id to finding; where an id occurs more
/// than once, the last finding with it counts.
pub open spec fn by_id(fs: Seq<FindingView>) -> Map<u64, FindingView> {
    Map::new(|id: u64| last_with_id(fs, id) is Some, |id: u64| last_with_id(fs, id)->Some_0)
}

/// The candidate ids of the source correlations, one list after another.
pub open spec fn candidate_id_list(sources: Seq<SourceCorrelation>) -> Seq<u64>
    decreases sources.len(),
{
    if sources.len() == 0 {
        Seq::empty()
    } else {
        candidate_id_list(sources.drop_last()) + sources.last().candidate_ids@
    }
}

/// The ids of the target findings that a correlation report refers to:
/// the targets of its operations and the candidates of its sources.
pub open spec fn required_target_ids(report: CorrelationReport) -> Set<u64> {
    (report.target_operations@.map_values(|op: TargetOperation| op.target_finding_id)
        + candidate_id_list(report.sources@)).to_set()
}

/// The findings of `fs` for the ids of `ids` below `limit`.
pub open spec fn fetched_below(ids: Set<u64>, fs: Seq<FindingView>, limit: int) -> Map<
    u64,
    FindingView,
> {
    Map::new(|id: u64| ids.contains(id) && id < limit, |id: u64| last_with_id(fs, id)->Some_0)
}

/// The findings of `fs` for the ids listed in `ids`.
pub open spec fn fetched_among(ids: Seq<u64>, fs: Seq<FindingView>) -> Map<u64, FindingView> {
    Map::new(|id: u64| ids.contains(id), |id: u64| last_with_id(fs, id)->Some_0)
}

/// `m` is the smallest id of `ids` for which `fs` has no finding.
pub open spec fn first_missing(ids: Set<u64>, fs: Seq<FindingView>, m: u64) -> bool {
    &&& ids.contains(m)
    &&& last_with_id(fs, m) is None
    &&& forall|id: u64| #![trigger ids.contains(id)] ids.contains(id) && id < m ==> last_with_id(fs, id) is Some
}

/// Adding a destination stopped at `m`, the smallest referenced id with no
/// downloaded finding, after recording the findings of the ids below it.
pub open spec fn stopped_at(
    before: PlanBuilderView,
    after: PlanBuilderView,
    report: CorrelationReport,
    found: Seq<FindingView>,
    m: u64,
) -> bool {
    &&& first_missing(required_target_ids(report), found, m)
    &&& after == (PlanBuilderView {
        target_findings: before.target_findings.union_prefer_right(
            fetched_below(required_target_ids(report), found, m as int),
        ),
        ..before
    })
}

/// The reason given when a referenced target finding was not downloaded.
pub open spec fn missing_target_message(id: u64) -> Seq<char> {
    "target finding #"@ + decimal(id as nat)
        + " is referenced by correlation but absent from downloaded data"@
}

/// What a plan builder holds so far.
pub struct PlanBuilderView {
    pub dojo_base_url: Seq<char>,
    pub source_product: ProductView,
    pub source_filters: Seq<(String, FilterValue)>,
    pub source_findings: Seq<FindingView>,
    pub destination_products: Seq<ProductView>,
    pub target_findings: Map<u64, FindingView>,
    pub coverage: Seq<SourceCorrelation>,
    pub operations: Seq<PlannedTargetOperation>,
}

/// The builder after a destination was added whose referenced targets were all found.
pub open spec fn spec_add_destination(
    v: PlanBuilderView,
    product: ProductView,
    found: Seq<FindingView>,
    report: CorrelationReport,
) -> PlanBuilderView {
    PlanBuilderView {
        destination_products: v.destination_products.push(product),
        target_findings: v.target_findings.union_prefer_right(
            fetched_below(required_target_ids(report), found, 0x1_0000_0000_0000_0000),
        ),
        coverage: v.coverage + report.sources@,
        operations: v.operations + report.target_operations@.map_values(
            |op: TargetOperation| planned_operation(op),
        ),
        ..v
    }
}

/// After a destination was added, the builder holds, for every target
/// finding that its report refers to, the downloaded finding with that id
/// (the last one downloaded), and keeps every target finding recorded
/// before that the report does not refer to.
pub proof fn law_referenced_targets_recorded(
    v: PlanBuilderView,
    product: ProductView,
    found: Seq<FindingView>,
    report: CorrelationReport,
)
    requires
        forall|id: u64|
            #![trigger required_target_ids(report).contains(id)]
            required_target_ids(report).contains(id) ==> last_with_id(found, id) is Some,
    ensures
        forall|id: u64|
            #![trigger spec_add_destination(v, product, found, report).target_findings[id]]
            required_target_ids(report).contains(id) ==> spec_add_destination(
                v,
                product,
                found,
                report,
            ).target_findings.contains_key(id) && Some(
                spec_add_destination(v, product, found, report).target_findings[id],
            ) == last_with_id(found, id),
        forall|id: u64|
            #![trigger v.target_findings[id]]
            v.target_findings.contains_key(id) && !required_target_ids(report).contains(id)
                ==> spec_add_destination(v, product, found, report).target_findings.contains_key(
                id,
            ) && spec_add_destination(v, product, found, report).target_findings[id]
                == v.target_findings[id],
{
    let after = spec_add_destination(v, product, found, report).target_findings;
    let fetched = fetched_below(required_target_ids(report), found, 0x1_0000_0000_0000_0000);
    assert forall|id: u64| required_target_ids(report).contains(id) implies after.contains_key(id)
        && Some(after[id]) == last_with_id(found, id) by {
        assert(fetched.contains_key(id));
    }
    assert forall|id: u64|
        v.target_findings.contains_key(id) && !required_target_ids(report).contains(id)
            implies after.contains_key(id) && after[id] == v.target_findings[id] by {
        assert(!fetched.contains_key(id));
    }
}

/// Collects the downloaded source data and, destination by destination, the
/// correlations and the target findings they refer to.
pub struct MigrationPlanBuilder {
    dojo_base_url: String,
    source_product: Product,
    source_filters: Vec<(String, FilterValue)>,
    source_findings: Vec<Finding>,
    destination_products: Vec<Product>,
    /// Every target finding recorded, in the order recorded; a later one
    /// with the same id replaces an earlier one.
    target_findings: Vec<Finding>,
    coverage: Vec<SourceCorrelation>,
    operations: Vec<PlannedTargetOperation>,
}

impl View for MigrationPlanBuilder {
    type V = PlanBuilderView;

    closed spec fn view(&self) -> PlanBuilderView {
        PlanBuilderView {
            dojo_base_url: self.dojo_base_url@,
            source_product: self.source_product@,
            source_filters: self.source_filters@,
            source_findings: findings_view(self.source_findings@),
            destination_products: products_view(self.destination_products@),
            target_findings: by_id(findings_view(self.target_findings@)),
            coverage: self.coverage@,
            operations: self.operations@,
        }
    }
}

fn default_action(class: TargetActionClass) -> (r: DecisionAction)
    ensures
        r == spec_default_action(class),
{
    match class {
        TargetActionClass::ReadyToApply => DecisionAction::ApplyAll,
        TargetActionClass::AlreadyUpToDate => DecisionAction::Skip,
        TargetActionClass::StatusConflict => DecisionAction::Skip,
    }
}

proof fn lemma_by_id_push(fs: Seq<FindingView>, f: FindingView)
    ensures
        by_id(fs.push(f)) == by_id(fs).insert(f.id, f),
{
    assert(fs.push(f).drop_last() =~= fs);
    assert forall|id: u64| #[trigger]
        last_with_id(fs.push(f), id) == (if id == f.id {
            Some(f)
        } else {
            last_with_id(fs, id)
        }) by {
        assert(fs.push(f).last() == f);
    }
    assert(by_id(fs.push(f)) =~= by_id(fs).insert(f.id, f));
}

/// A finding with a given id is in the list exactly when the lookup finds one,
/// and what it finds has that id.
proof fn lemma_last_with_id(fs: Seq<FindingView>, id: u64)
    ensures
        finding_ids(fs).contains(id) <==> last_with_id(fs, id) is Some,
        last_with_id(fs, id) matches Some(f) ==> f.id == id,
    decreases fs.len(),
{
    if fs.len() > 0 {
        lemma_last_with_id(fs.drop_last(), id);
        assert(finding_ids(fs) =~= finding_ids(fs.drop_last()).push(fs.last().id));
        if fs.last().id != id && finding_ids(fs).contains(id) {
            let k = choose|k: int| 0 <= k < finding_ids(fs).len() && finding_ids(fs)[k] == id;
            assert(finding_ids(fs.drop_last())[k] == id);
        }
        if finding_ids(fs.drop_last()).contains(id) {
            let k = choose|k: int|
                0 <= k < finding_ids(fs.drop_last()).len() && finding_ids(fs.drop_last())[k] == id;
            assert(finding_ids(fs)[k] == id);
        }
        if fs.last().id == id {
            assert(finding_ids(fs)[fs.len() - 1] == id);
        }
    }
}

/// In a list whose ids ascend, the lookup of an id finds the one finding with it.
proof fn lemma_lookup_ascending(fs: Seq<FindingView>, k: int)
    requires
        ascending(finding_ids(fs)),
        0 <= k < fs.len(),
    ensures
        last_with_id(fs, fs[k].id) == Some(fs[k]),
    decreases fs.len(),
{
    if k < fs.len() - 1 {
        assert(finding_ids(fs)[k] < finding_ids(fs)[fs.len() - 1]);
        let prev = fs.drop_last();
        assert(finding_ids(prev) =~= finding_ids(fs).drop_last());
        assert(prev[k] == fs[k]);
        lemma_lookup_ascending(prev, k);
    }
}

/// The findings of a list, one per id (the last one with it), in ascending order of id.
fn distinct_by_id(fs: &Vec<Finding>) -> (r: Vec<Finding>)
    ensures
        ascending(finding_ids(findings_view(r@))),
        by_id(findings_view(r@)) == by_id(findings_view(fs@)),
{
    let ghost fv = findings_view(fs@);
    let mut ids: Vec<u64> = Vec::new();
    let mut i: usize = 0;
    while i < fs.len()
        invariant
            i <= fs@.len(),
            fv == findings_view(fs@),
            ids@ == finding_ids(fv).take(i as int),
        decreases fs.len() - i,
    {
        ids.push(fs[i].id);
        i = i + 1;
        assert(ids@ =~= finding_ids(fv).take(i as int));
    }
    assert(ids@ =~= finding_ids(fv));
    let asc = ascending_distinct(&ids);
    let positions = positions_by_id(fs.as_slice());
    let mut out: Vec<Finding> = Vec::new();
    let mut k: usize = 0;
    while k < asc.len()
        invariant
            k <= asc@.len(),
            fv == findings_view(fs@),
            ascending(asc@),
            asc@.to_set() == finding_ids(fv).to_set(),
            forall|id: u64|
                #![trigger last_with_id(fv, id)]
                (positions@.contains_key(id) <==> last_with_id(fv, id) is Some) && (
                positions@.contains_key(id) ==> positions@[id] < fs@.len() && Some(
                    fs@[positions@[id] as int]@,
                ) == last_with_id(fv, id)),
            out@.len() == k,
            forall|j: int|
                0 <= j < k ==> Some(#[trigger] findings_view(out@)[j]) == last_with_id(
                    fv,
                    asc@[j],
                ) && findings_view(out@)[j].id == asc@[j],
        decreases asc.len() - k,
    {
        let id = asc[k];
        proof {
            assert(asc@.to_set().contains(id));
            lemma_last_with_id(fv, id);
        }
        let p = match positions.get(&id) {
            Some(p) => *p,
            None => {
                assert(false);
                0
            },
        };
        let ghost before = findings_view(out@);
        out.push(fs[p].copy());
        proof {
            assert(findings_view(out@) =~= before.push(fs@[p as int]@));
            lemma_last_with_id(fv, id);
        }
        k = k + 1;
    }
    let ghost ov = findings_view(out@);
    proof {
        assert(finding_ids(ov) =~= asc@);
        assert forall|id: u64| #[trigger] last_with_id(ov, id) == last_with_id(fv, id) by {
            lemma_last_with_id(ov, id);
            lemma_last_with_id(fv, id);
            if finding_ids(ov).contains(id) {
                let j = choose|j: int| 0 <= j < finding_ids(ov).len() && finding_ids(ov)[j] == id;
                lemma_lookup_ascending(ov, j);
            } else {
                assert(!asc@.to_set().contains(id));
                assert(!finding_ids(fv).to_set().contains(id));
            }
        }
        assert(by_id(ov) =~= by_id(fv));
    }
    out
}

impl MigrationPlanBuilder {
    /// Every proposed operation carries the default decision of its class.
    pub open spec fn wf(&self) -> bool {
        forall|i: int|
            0 <= i < self@.operations.len() ==> (#[trigger] self@.operations[i]).default_action
                == spec_default_action(self@.operations[i].class)
    }

    /// A builder for the given source data, with no destination yet.
    pub fn new(
        dojo_base_url: String,
        source_product: Product,
        source_filters: Vec<(String, FilterValue)>,
        source_findings: Vec<Finding>,
    ) -> (b: Self)
        ensures
            b.wf(),
            b@ == (PlanBuilderView {
                dojo_base_url: dojo_base_url@,
                source_product: source_product@,
                source_filters: source_filters@,
                source_findings: findings_view(source_findings@),
                destination_products: Seq::empty(),
                target_findings: Map::empty(),
                coverage: Seq::empty(),
                operations: Seq::empty(),
            }),
    {
        let b = MigrationPlanBuilder {
            dojo_base_url,
            source_product,
            source_filters,
            source_findings,
            destination_products: Vec::new(),
            target_findings: Vec::new(),
            coverage: Vec::new(),
            operations: Vec::new(),
        };
        assert(products_view(b.destination_products@) =~= Seq::<ProductView>::empty());
        assert(by_id(findings_view(b.target_findings@)) =~= Map::<u64, FindingView>::empty());
        b
    }

    /// Adds a destination product with its downloaded findings and its
    /// correlation report. Every target finding that the report refers to
    /// must be among the downloaded ones (the last one with an id counts);
    /// they are recorded in ascending order of id, and at the first that is
    /// missing the builder stops with `PlanInvariant`, keeping those recorded
    /// before it.
    pub fn add_destination(
        &mut self,
        product: Product,
        target_findings: &[Finding],
        report: CorrelationReport,
    ) -> (r: Result<(), AppError>)
        requires
            old(self).wf(),
        ensures
            final(self).wf(),
            r is Ok <==> forall|id: u64|
                #![trigger required_target_ids(report).contains(id)]
                required_target_ids(report).contains(id) ==> last_with_id(
                    findings_view(target_findings@),
                    id,
                ) is Some,
            r is Ok ==> final(self)@ == spec_add_destination(
                old(self)@,
                product@,
                findings_view(target_findings@),
                report,
            ),
            r is Err ==> exists|m: u64|
                #[trigger] stopped_at(old(self)@, final(self)@, report, findings_view(target_findings@), m)
                    && (r matches Err(AppError::PlanInvariant(msg)) && msg@ == missing_target_message(m)),
    {
        let ghost fv = findings_view(target_findings@);
        let ghost req = required_target_ids(report);
        let ghost before = self@;
        let positions = positions_by_id(target_findings);
        let mut wanted: Vec<u64> = Vec::new();
        let mut i: usize = 0;
        let ghost op_ids = report.target_operations@.map_values(
            |op: TargetOperation| op.target_finding_id,
        );
        while i < report.target_operations.len()
            invariant
                i <= report.target_operations@.len(),
                op_ids == report.target_operations@.map_values(
                    |op: TargetOperation| op.target_finding_id,
                ),
                wanted@ == op_ids.take(i as int),
            decreases report.target_operations.len() - i,
        {
            wanted.push(report.target_operations[i].target_finding_id);
            i = i + 1;
            assert(wanted@ =~= op_ids.take(i as int));
        }
        assert(op_ids.take(op_ids.len() as int) =~= op_ids);
        let mut s: usize = 0;
        while s < report.sources.len()
            invariant
                s <= report.sources@.len(),
                wanted@ == op_ids + candidate_id_list(report.sources@.take(s as int)),
            decreases report.sources.len() - s,
        {
            let ghost start = wanted@;
            let mut c: usize = 0;
            while c < report.sources[s].candidate_ids.len()
                invariant
                    s < report.sources@.len(),
                    c <= report.sources@[s as int].candidate_ids@.len(),
                    wanted@ == start + report.sources@[s as int].candidate_ids@.take(c as int),
                decreases report.sources[s as int].candidate_ids.len() - c,
            {
                wanted.push(report.sources[s].candidate_ids[c]);
                c = c + 1;
                assert(wanted@ =~= start + report.sources@[s as int].candidate_ids@.take(
                    c as int,
                ));
            }
            proof {
                let cs = report.sources@[s as int].candidate_ids@;
                assert(cs.take(cs.len() as int) =~= cs);
                assert(report.sources@.take(s + 1).drop_last() =~= report.sources@.take(s as int));
                assert(wanted@ =~= op_ids + candidate_id_list(report.sources@.take(s + 1)));
            }
            s = s + 1;
        }
        assert(report.sources@.take(report.sources@.len() as int) =~= report.sources@);
        let required = ascending_distinct(&wanted);
        let mut k: usize = 0;
        proof {
            assert(fetched_among(required@.take(0), fv) =~= Map::<u64, FindingView>::empty());
            assert(before.target_findings.union_prefer_right(Map::<u64, FindingView>::empty())
                =~= before.target_findings);
        }
        while k < required.len()
            invariant
                k <= required@.len(),
                ascending(required@),
                required@.to_set() == req,
                req == required_target_ids(report),
                fv == findings_view(target_findings@),
                forall|id: u64|
                    #![trigger last_with_id(fv, id)]
                    (positions@.contains_key(id) <==> last_with_id(fv, id) is Some) && (
                    positions@.contains_key(id) ==> positions@[id] < target_findings@.len()
                        && Some(target_findings@[positions@[id] as int]@) == last_with_id(fv, id)),
                forall|j: int| 0 <= j < k ==> #[trigger] last_with_id(fv, required@[j]) is Some,
                self@ == (PlanBuilderView {
                    target_findings: before.target_findings.union_prefer_right(
                        fetched_among(required@.take(k as int), fv),
                    ),
                    ..before
                }),
                self.wf(),
                before == old(self)@,
            decreases required.len() - k,
        {
            let id = required[k];
            let ghost prev_targets = findings_view(self.target_findings@);
            proof {
                let _ = last_with_id(fv, id);
            }
            match positions.get(&id) {
                None => {
                    let mut msg = String::from_str("target finding #");
                    push_decimal(&mut msg, id);
                    msg.append(" is referenced by correlation but absent from downloaded data");
                    proof {
                        reveal_strlit("target finding #");
                        reveal_strlit(" is referenced by correlation but absent from downloaded data");
                        assert(required@.to_set().contains(id));
                        assert forall|x: u64| #![trigger req.contains(x)] req.contains(x) && x < id implies last_with_id(fv, x) is Some by {
                            assert(required@.contains(x));
                            let j = choose|j: int| 0 <= j < required@.len() && required@[j] == x;
                            if j >= k {
                                if j > k {
                                    assert(required@[k as int] < required@[j]);
                                }
                            }
                        }
                        assert(first_missing(req, fv, id));
                        assert(first_missing(required_target_ids(report), findings_view(target_findings@), id));
                        assert(msg@ =~= missing_target_message(id));
                        assert(fetched_among(required@.take(k as int), fv) =~= fetched_below(req, fv, id as int)) by {
                            assert forall|x: u64| required@.take(k as int).contains(x) <==> (req.contains(x) && x < id) by {
                                if required@.take(k as int).contains(x) {
                                    let j = choose|j: int| 0 <= j < k && required@.take(k as int)[j] == x;
                                    assert(required@[j] == x);
                                    assert(required@.contains(x));
                                }
                                if req.contains(x) && x < id {
                                    assert(required@.contains(x));
                                    let j = choose|j: int| 0 <= j < required@.len() && required@[j] == x;
                                    if j >= k {
                                        if j > k {
                                            assert(required@[k as int] < required@[j]);
                                        }
                                    }
                                    assert(required@.take(k as int)[j] == x);
                                }
                            }
                        }
                    }
                    proof {
                        assert(self@ == (PlanBuilderView {
                            target_findings: before.target_findings.union_prefer_right(
                                fetched_below(req, fv, id as int),
                            ),
                            ..before
                        }));
                        assert(stopped_at(before, self@, report, fv, id));
                    }
                    let r: Result<(), AppError> = Err(AppError::PlanInvariant(msg));
                    assert(r matches Err(AppError::PlanInvariant(msg)) && msg@ == missing_target_message(id));
                    assert(exists|m: u64| #[trigger] stopped_at(before, self@, report, fv, m)
                        && (r matches Err(AppError::PlanInvariant(msg)) && msg@ == missing_target_message(m)));
                    return r;
                },
                Some(p) => {
                    let p = *p;
                    let copy = target_findings[p].copy();
                    self.target_findings.push(copy);
                    proof {
                        assert(findings_view(self.target_findings@) =~= prev_targets.push(
                            target_findings@[p as int]@,
                        ));
                        lemma_by_id_push(prev_targets, target_findings@[p as int]@);
                        lemma_last_with_id(fv, id);
                        assert(required@.take(k + 1) =~= required@.take(k as int).push(id));
                        assert(Some(target_findings@[p as int]@) == last_with_id(fv, id));
                        assert forall|x: u64| required@.take(k + 1).contains(x) <==> (required@.take(k as int).contains(x) || x == id) by {
                            vstd::seq_lib::lemma_seq_contains_after_push(required@.take(k as int), id, x);
                        }
                        let f = target_findings@[p as int]@;
                        assert(f.id == id);
                        assert(by_id(prev_targets) == before.target_findings.union_prefer_right(
                            fetched_among(required@.take(k as int), fv),
                        ));
                        assert(self@.target_findings == by_id(prev_targets).insert(id, f));
                        let lhs = by_id(prev_targets).insert(id, f);
                        let rhs = before.target_findings.union_prefer_right(
                            fetched_among(required@.take(k + 1), fv),
                        );
                        assert forall|x: u64| #[trigger] lhs.contains_key(x) <==> rhs.contains_key(x) by {
                            if x != id {
                                assert(lhs.contains_key(x) == by_id(prev_targets).contains_key(x));
                                assert(by_id(prev_targets).contains_key(x) == (before.target_findings.contains_key(x) || required@.take(k as int).contains(x)));
                                assert(rhs.contains_key(x) == (before.target_findings.contains_key(x) || required@.take(k + 1).contains(x)));
                                assert(required@.take(k + 1).contains(x) == required@.take(k as int).contains(x));
                            } else {
                                assert(required@.take(k + 1)[k as int] == id);
                                assert(required@.take(k + 1).contains(x));
                            }
                        }
                        assert forall|x: u64| #[trigger] lhs.contains_key(x) implies lhs[x] == rhs[x] by {
                            if x == id {
                                assert(required@.take(k + 1)[k as int] == id);
                                assert(fetched_among(required@.take(k + 1), fv).contains_key(id));
                            } else {
                                assert(lhs[x] == by_id(prev_targets)[x]);
                            }
                        }
                        assert(lhs =~= rhs);
                    }
                },
            }
            k = k + 1;
        }
        proof {
            assert(required@.take(required@.len() as int) =~= required@);
            assert forall|id: u64| #![trigger req.contains(id)] req.contains(id) implies last_with_id(fv, id) is Some by {
                assert(required@.contains(id));
            }
            assert(fetched_among(required@, fv) =~= fetched_below(req, fv, 0x1_0000_0000_0000_0000));
        }
        let ghost mid = self@;
        let CorrelationReport { mut sources, target_operations } = report;
        self.coverage.append(&mut sources);
        let ghost after_coverage = self@;
        proof {
            assert(after_coverage == (PlanBuilderView { coverage: mid.coverage + report.sources@, ..mid }));
        }
        for op in it: target_operations.into_iter()
            invariant
                self@ == (PlanBuilderView {
                    operations: after_coverage.operations + it.seq().take(it.index() as int).map_values(
                        |o: TargetOperation| planned_operation(o),
                    ),
                    ..after_coverage
                }),
                it.seq() == report.target_operations@,
                self.wf(),
                before == old(self)@,
        {
            let class = op.class;
            let ghost ops_now = self.operations@;
            self.operations.push(
                PlannedTargetOperation {
                    source_finding_id: op.source_finding_id,
                    source_title: op.source_title,
                    target_product_id: op.target_product_id,
                    target_finding_id: op.target_finding_id,
                    class,
                    default_action: default_action(class),
                },
            );
            proof {
                assert(it.seq().take(it.index() + 1) =~= it.seq().take(it.index() as int).push(op));
                assert(self.operations@ =~= after_coverage.operations + it.seq().take(it.index() + 1).map_values(
                    |o: TargetOperation| planned_operation(o),
                ));
            }
        }
        let ghost after_ops = self@;
        self.destination_products.push(product);
        proof {
            assert(products_view(self.destination_products@) =~= after_ops.destination_products.push(product@));
            assert(report.target_operations@.take(report.target_operations@.len() as int) =~= report.target_operations@);
        }
        Ok(())
    }

    /// The plan made of everything gathered, stamped with the given time.
    /// The target findings come one per id, in ascending order of id.
    pub fn build(self, created_at_unix_seconds: u64) -> (plan: MigrationPlan)
        requires
            self.wf(),
        ensures
            plan.schema_version == PLAN_SCHEMA_VERSION,
            plan.created_at_unix_seconds == created_at_unix_seconds,
            plan.dojo_base_url@ == self@.dojo_base_url,
            plan.source_product@ == self@.source_product,
            products_view(plan.destination_products@) == self@.destination_products,
            plan.source_filters@ == self@.source_filters,
            findings_view(plan.source_findings@) == self@.source_findings,
            ascending(finding_ids(findings_view(plan.target_findings@))),
            by_id(findings_view(plan.target_findings@)) == self@.target_findings,
            plan.coverage@ == self@.coverage,
            plan.operations@ == self@.operations,
            default_actions_consistent(plan),
            forall|i: int|
                0 <= i < plan.operations@.len() ==> (#[trigger] plan.operations@[i]).default_action
                    == if plan.operations@[i].class == TargetActionClass::ReadyToApply {
                    DecisionAction::ApplyAll
                } else {
                    DecisionAction::Skip
                },
    {
        let targets = distinct_by_id(&self.target_findings);
        let plan = MigrationPlan {
            schema_version: PLAN_SCHEMA_VERSION,
            created_at_unix_seconds,
            dojo_base_url: self.dojo_base_url,
            source_product: self.source_product,
            destination_products: self.destination_products,
            source_filters: self.source_filters,
            source_findings: self.source_findings,
            target_findings: targets,
            coverage: self.coverage,
            operations: self.operations,
        };
        assert forall|i: int|
            0 <= i < plan.operations@.len() && (#[trigger] plan.operations@[i]).class
                == TargetActionClass::AlreadyUpToDate implies plan.operations@[i].default_action
            == DecisionAction::Skip by {
            assert(plan.operations@[i] == self@.operations[i]);
        }
        assert forall|i: int| 0 <= i < plan.operations@.len() implies (
        #[trigger] plan.operations@[i]).default_action == if plan.operations@[i].class
            == TargetActionClass::ReadyToApply {
            DecisionAction::ApplyAll
        } else {
            DecisionAction::Skip
        } by {
            assert(plan.operations@[i] == self@.operations[i]);
            law_default_action(plan.operations@[i].class);
        }
        plan
    }
}

} // verus!

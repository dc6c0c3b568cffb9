//! Correlation of source findings with the findings of one destination product.
use vstd::prelude::*;
use crate::api::models::{Finding, FindingView, findings_view, opt_text};
use crate::ids::{ascending, ascending_distinct, lists_ascending, lemma_ascending_len};
use crate::matching::keys::{
    file_key, component_key, component_base_key, same_version, opt_file_key, opt_component_key,
    opt_component_base_key, spec_file_key, spec_component_key, spec_component_base_key,
    spec_single_scanner_id, FileKey, ComponentKey, ComponentBaseKey,
};
use crate::matching::models::{CorrelationClass, CorrelationResult};

verus! {

// ---------------------------------------------------------------------------
// Specification
// ---------------------------------------------------------------------------

/// The kinds of match between a source and a target finding.
pub open spec fn file_match_kind() -> int {
    0
}

pub open spec fn component_match_kind() -> int {
    1
}

pub open spec fn possible_match_kind() -> int {
    2
}

/// Whether target `t` matches source `s` in the given way: by file key, by
/// component key, or by component base key with another version.
pub open spec fn matches_by(kind: int, s: FindingView, t: FindingView) -> bool {
    if kind == file_match_kind() {
        spec_file_key(s) is Some && spec_file_key(t) == spec_file_key(s)
    } else if kind == component_match_kind() {
        spec_component_key(s) is Some && spec_component_key(t) == spec_component_key(s)
    } else {
        &&& spec_component_base_key(s) is Some
        &&& spec_component_base_key(t) == spec_component_base_key(s)
        &&& s.component_version != t.component_version
    }
}

/// The positions of the targets that match `s` in the given way, in order.
pub open spec fn matching_indices(kind: int, s: FindingView, ts: Seq<FindingView>) -> Seq<int>
    decreases ts.len(),
{
    if ts.len() == 0 {
        Seq::empty()
    } else {
        let r = matching_indices(kind, s, ts.drop_last());
        if matches_by(kind, s, ts.last()) {
            r.push(ts.len() - 1)
        } else {
            r
        }
    }
}

/// The positions of the exact matches: file-key matches first, then
/// component-key matches.
pub open spec fn exact_order(s: FindingView, ts: Seq<FindingView>) -> Seq<int> {
    matching_indices(file_match_kind(), s, ts) + matching_indices(component_match_kind(), s, ts)
}

/// The ids of the targets at the given positions.
pub open spec fn ids_at(ts: Seq<FindingView>, positions: Seq<int>) -> Seq<u64> {
    positions.map_values(|i: int| ts[i].id)
}

/// The ids of the exact matches.
pub open spec fn exact_ids(s: FindingView, ts: Seq<FindingView>) -> Set<u64> {
    ids_at(ts, exact_order(s, ts)).to_set()
}

/// The ids of the possible matches (same component, another version).
pub open spec fn possible_ids(s: FindingView, ts: Seq<FindingView>) -> Set<u64> {
    ids_at(ts, matching_indices(possible_match_kind(), s, ts)).to_set()
}

/// The source has at least one key that exact matching can use.
pub open spec fn has_exact_key(s: FindingView) -> bool {
    spec_file_key(s) is Some || spec_component_key(s) is Some
}

/// The part of a finding's state that migration transfers.
pub open spec fn same_transferred_status(a: FindingView, b: FindingView) -> bool {
    &&& a.active == b.active
    &&& a.verified == b.verified
    &&& a.fixed == b.fixed
    &&& a.unfixed == b.unfixed
    &&& a.false_p == b.false_p
    &&& a.out_of_scope == b.out_of_scope
    &&& a.is_mitigated == b.is_mitigated
}

/// An active finding that nobody has triaged yet.
pub open spec fn spec_is_untriaged_active(f: FindingView) -> bool {
    f.active && !f.verified && !f.false_p && !f.duplicate && !f.out_of_scope && !f.risk_accepted
        && !f.is_mitigated
}

/// How the state of an exactly matching target compares with the source.
pub open spec fn spec_classify_status(s: FindingView, t: FindingView) -> CorrelationClass {
    if same_transferred_status(s, t) && s.duplicate == t.duplicate && s.risk_accepted
        == t.risk_accepted {
        CorrelationClass::AlreadyUpToDate
    } else if spec_is_untriaged_active(t) {
        CorrelationClass::ReadyToApply
    } else {
        CorrelationClass::StatusConflict
    }
}

/// The class of the correlation of `s` with the targets `ts`.
pub open spec fn spec_correlation_class(s: FindingView, ts: Seq<FindingView>) -> CorrelationClass {
    if !has_exact_key(s) {
        CorrelationClass::InsufficientData
    } else if exact_ids(s, ts).len() > 1 {
        CorrelationClass::Ambiguous
    } else if exact_order(s, ts).len() > 0 {
        spec_classify_status(s, ts[exact_order(s, ts).last()])
    } else if possible_ids(s, ts).len() > 0 {
        CorrelationClass::PossibleMatch
    } else {
        CorrelationClass::NotFound
    }
}

/// The ids that the correlation of `s` names as candidates.
pub open spec fn spec_candidate_ids(s: FindingView, ts: Seq<FindingView>) -> Set<u64> {
    if !has_exact_key(s) {
        Set::empty()
    } else if exact_order(s, ts).len() > 0 {
        exact_ids(s, ts)
    } else {
        possible_ids(s, ts)
    }
}

/// `r` is the correlation of source `s` with the targets `ts` of product `pid`.
pub open spec fn correlation_of(
    r: CorrelationResult,
    s: FindingView,
    ts: Seq<FindingView>,
    pid: u64,
) -> bool {
    &&& r.source_finding_id == s.id
    &&& r.source_title@ == s.title
    &&& r.target_product_id == pid
    &&& r.class == spec_correlation_class(s, ts)
    &&& lists_ascending(r.candidate_ids@, spec_candidate_ids(s, ts))
}

// ---------------------------------------------------------------------------
// Laws
// ---------------------------------------------------------------------------

proof fn lemma_indices_in_range(kind: int, s: FindingView, ts: Seq<FindingView>)
    ensures
        forall|j: int|
            0 <= j < matching_indices(kind, s, ts).len() ==> 0 <= #[trigger] matching_indices(
                kind,
                s,
                ts,
            )[j] < ts.len() && matches_by(kind, s, ts[matching_indices(kind, s, ts)[j]]),
    decreases ts.len(),
{
    if ts.len() > 0 {
        lemma_indices_in_range(kind, s, ts.drop_last());
        let r = matching_indices(kind, s, ts.drop_last());
        assert forall|j: int| 0 <= j < r.len() implies ts.drop_last()[r[j]] == ts[r[j]] by {
            assert(0 <= r[j] < ts.drop_last().len());
        }
    }
}

proof fn lemma_indices_complete(kind: int, s: FindingView, ts: Seq<FindingView>, i: int)
    requires
        0 <= i < ts.len(),
        matches_by(kind, s, ts[i]),
    ensures
        matching_indices(kind, s, ts).contains(i),
    decreases ts.len(),
{
    let r = matching_indices(kind, s, ts.drop_last());
    if i == ts.len() - 1 {
        assert(matching_indices(kind, s, ts) == r.push(i));
        assert(r.push(i)[r.len() as int] == i);
    } else {
        assert(ts.drop_last()[i] == ts[i]);
        lemma_indices_complete(kind, s, ts.drop_last(), i);
        let k = choose|k: int| 0 <= k < r.len() && r[k] == i;
        if matches_by(kind, s, ts.last()) {
            assert(r.push(ts.len() - 1)[k] == i);
        }
    }
}

/// A target whose file key or component key equals the source's is a candidate
/// of the source (unless the source lacks both keys).
pub proof fn law_exact_match_is_candidate(s: FindingView, ts: Seq<FindingView>, i: int)
    requires
        0 <= i < ts.len(),
        matches_by(file_match_kind(), s, ts[i]) || matches_by(component_match_kind(), s, ts[i]),
    ensures
        spec_candidate_ids(s, ts).contains(ts[i].id),
        spec_correlation_class(s, ts) != CorrelationClass::NotFound,
        spec_correlation_class(s, ts) != CorrelationClass::InsufficientData,
        spec_correlation_class(s, ts) != CorrelationClass::PossibleMatch,
{
    let f = matching_indices(file_match_kind(), s, ts);
    let c = matching_indices(component_match_kind(), s, ts);
    let o = exact_order(s, ts);
    let k: int;
    if matches_by(file_match_kind(), s, ts[i]) {
        lemma_indices_complete(file_match_kind(), s, ts, i);
        let j = choose|j: int| 0 <= j < f.len() && f[j] == i;
        assert(o[j] == i);
        k = j;
    } else {
        lemma_indices_complete(component_match_kind(), s, ts, i);
        let j = choose|j: int| 0 <= j < c.len() && c[j] == i;
        assert(o[f.len() + j] == i);
        k = f.len() + j;
    }
    assert(ids_at(ts, o)[k] == ts[i].id);
    assert(ids_at(ts, o).contains(ts[i].id));
}

/// A source without a file key and without a component key is reported as
/// `InsufficientData` and gets no candidates, whatever the targets.
pub proof fn law_insufficient_data(s: FindingView, ts: Seq<FindingView>)
    requires
        spec_single_scanner_id(s) is None || (s.component_name is None && (s.file_path is None
            || s.line is None)),
    ensures
        spec_correlation_class(s, ts) == CorrelationClass::InsufficientData,
        spec_candidate_ids(s, ts) == Set::<u64>::empty(),
{
}

/// The number of candidates fits the class: one for an exact match
/// (`ReadyToApply`, `AlreadyUpToDate`, `StatusConflict`), more than one for
/// `Ambiguous`, at least one for `PossibleMatch`, none for `NotFound` and
/// `InsufficientData`.
pub proof fn law_candidate_count(s: FindingView, ts: Seq<FindingView>)
    ensures
        spec_candidate_ids(s, ts).finite(),
        ({
            let n = spec_candidate_ids(s, ts).len();
            match spec_correlation_class(s, ts) {
                CorrelationClass::ReadyToApply => n == 1,
                CorrelationClass::AlreadyUpToDate => n == 1,
                CorrelationClass::StatusConflict => n == 1,
                CorrelationClass::Ambiguous => n > 1,
                CorrelationClass::PossibleMatch => n > 0,
                CorrelationClass::NotFound => n == 0,
                CorrelationClass::InsufficientData => n == 0,
            }
        }),
{
    let o = exact_order(s, ts);
    let ids = ids_at(ts, o);
    vstd::seq_lib::seq_to_set_is_finite(ids);
    vstd::seq_lib::seq_to_set_is_finite(
        ids_at(ts, matching_indices(possible_match_kind(), s, ts)),
    );
    if o.len() == 0 {
        assert(ids.to_set() =~= Set::<u64>::empty());
    } else {
        assert(ids.to_set().contains(ids[o.len() - 1]));
        assert(exact_ids(s, ts).len() != 0);
    }
}

/// The state of the source and of the matched target decides the class of a
/// single exact match: equal transferred state, `duplicate` and
/// `risk_accepted` give `AlreadyUpToDate`; otherwise an untriaged active
/// target gives `ReadyToApply` and any other target `StatusConflict`.
pub proof fn law_single_match_class(s: FindingView, ts: Seq<FindingView>)
    requires
        has_exact_key(s),
        exact_ids(s, ts).len() <= 1,
        exact_order(s, ts).len() > 0,
    ensures
        ({
            let t = ts[exact_order(s, ts).last()];
            &&& exact_ids(s, ts) == set![t.id]
            &&& spec_correlation_class(s, ts) == spec_classify_status(s, t)
            &&& (spec_correlation_class(s, ts) == CorrelationClass::AlreadyUpToDate <==> (
            same_transferred_status(s, t) && s.duplicate == t.duplicate && s.risk_accepted
                == t.risk_accepted))
            &&& (spec_correlation_class(s, ts) == CorrelationClass::ReadyToApply ==> spec_is_untriaged_active(t))
        }),
{
    let o = exact_order(s, ts);
    let ids = ids_at(ts, o);
    let t = ts[o.last()];
    vstd::seq_lib::seq_to_set_is_finite(ids);
    assert(ids[o.len() - 1] == t.id);
    assert(ids.to_set().contains(t.id));
    assert forall|x: u64| ids.to_set().contains(x) implies x == t.id by {
        if x != t.id {
            assert(ids.to_set().remove(t.id).contains(x));
            assert(ids.to_set().remove(t.id).len() == ids.to_set().len() - 1);
            vstd::set_lib::lemma_set_empty_equivalency_len(ids.to_set().remove(t.id));
        }
    }
    assert(ids.to_set() =~= set![t.id]);
}

/// The class of an exactly matching target, by the fields of the two
/// findings: the same transferred state (`active`, `verified`, `fixed`,
/// `unfixed`, `false_p`, `out_of_scope`, `is_mitigated`) and the same
/// `duplicate` and `risk_accepted` give `AlreadyUpToDate`; otherwise a target
/// that is active and carries none of `verified`, `false_p`, `duplicate`,
/// `out_of_scope`, `risk_accepted`, `is_mitigated` gives `ReadyToApply`,
/// whatever the source's own state, and any other target `StatusConflict`.
pub proof fn law_status_classes(s: FindingView, t: FindingView)
    ensures
        ({
            let differ = s.active != t.active || s.verified != t.verified || s.fixed != t.fixed
                || s.unfixed != t.unfixed || s.false_p != t.false_p || s.out_of_scope
                != t.out_of_scope || s.is_mitigated != t.is_mitigated || s.duplicate
                != t.duplicate || s.risk_accepted != t.risk_accepted;
            let untriaged = t.active && !t.verified && !t.false_p && !t.duplicate
                && !t.out_of_scope && !t.risk_accepted && !t.is_mitigated;
            &&& (spec_classify_status(s, t) == CorrelationClass::AlreadyUpToDate <==> !differ)
            &&& (spec_classify_status(s, t) == CorrelationClass::ReadyToApply <==> (differ
                && untriaged))
            &&& (spec_classify_status(s, t) == CorrelationClass::StatusConflict <==> (differ
                && !untriaged))
        }),
{
}

/// A source with a single exact match is `ReadyToApply` exactly when the
/// match's state differs from the source's and the match is an untriaged
/// active finding (by its fields), and `StatusConflict` exactly when the
/// states differ and the match is not untriaged.
pub proof fn law_single_match_ready(s: FindingView, ts: Seq<FindingView>)
    requires
        has_exact_key(s),
        exact_ids(s, ts).len() <= 1,
        exact_order(s, ts).len() > 0,
    ensures
        ({
            let t = ts[exact_order(s, ts).last()];
            let differ = s.active != t.active || s.verified != t.verified || s.fixed != t.fixed
                || s.unfixed != t.unfixed || s.false_p != t.false_p || s.out_of_scope
                != t.out_of_scope || s.is_mitigated != t.is_mitigated || s.duplicate
                != t.duplicate || s.risk_accepted != t.risk_accepted;
            let untriaged = t.active && !t.verified && !t.false_p && !t.duplicate
                && !t.out_of_scope && !t.risk_accepted && !t.is_mitigated;
            &&& (spec_correlation_class(s, ts) == CorrelationClass::ReadyToApply <==> (differ
                && untriaged))
            &&& (spec_correlation_class(s, ts) == CorrelationClass::StatusConflict <==> (differ
                && !untriaged))
        }),
{
    law_single_match_class(s, ts);
    law_status_classes(s, ts[exact_order(s, ts).last()]);
}

// ---------------------------------------------------------------------------
// Implementation
// ---------------------------------------------------------------------------

/// The keys of the target findings, computed once per destination product.
pub struct TargetIndex<'a> {
    pub findings: &'a [Finding],
    pub file_keys: Vec<Option<FileKey>>,
    pub component_keys: Vec<Option<ComponentKey>>,
    pub component_base_keys: Vec<Option<ComponentBaseKey>>,
}

impl<'a> TargetIndex<'a> {
    /// The views of the indexed findings.
    pub open spec fn targets(&self) -> Seq<FindingView> {
        findings_view(self.findings@)
    }

    /// Every key is the key of the finding at the same position.
    pub open spec fn wf(&self) -> bool {
        &&& self.file_keys.len() == self.findings@.len()
        &&& self.component_keys.len() == self.findings@.len()
        &&& self.component_base_keys.len() == self.findings@.len()
        &&& forall|i: int|
            0 <= i < self.findings@.len() ==> opt_file_key(#[trigger] self.file_keys@[i])
                == spec_file_key(self.findings@[i]@)
        &&& forall|i: int|
            0 <= i < self.findings@.len() ==> opt_component_key(#[trigger] self.component_keys@[i])
                == spec_component_key(self.findings@[i]@)
        &&& forall|i: int|
            0 <= i < self.findings@.len() ==> opt_component_base_key(
                #[trigger] self.component_base_keys@[i],
            ) == spec_component_base_key(self.findings@[i]@)
    }

    /// Computes the keys of all target findings.
    pub fn new(findings: &'a [Finding]) -> (index: Self)
        ensures
            index.wf(),
            index.findings == findings,
    {
        let mut file_keys: Vec<Option<FileKey>> = Vec::new();
        let mut component_keys: Vec<Option<ComponentKey>> = Vec::new();
        let mut component_base_keys: Vec<Option<ComponentBaseKey>> = Vec::new();
        let mut i: usize = 0;
        while i < findings.len()
            invariant
                i <= findings@.len(),
                file_keys.len() == i,
                component_keys.len() == i,
                component_base_keys.len() == i,
                forall|j: int|
                    0 <= j < i ==> opt_file_key(#[trigger] file_keys@[j]) == spec_file_key(
                        findings@[j]@,
                    ),
                forall|j: int|
                    0 <= j < i ==> opt_component_key(#[trigger] component_keys@[j])
                        == spec_component_key(findings@[j]@),
                forall|j: int|
                    0 <= j < i ==> opt_component_base_key(#[trigger] component_base_keys@[j])
                        == spec_component_base_key(findings@[j]@),
            decreases findings.len() - i,
        {
            file_keys.push(file_key(&findings[i]));
            component_keys.push(component_key(&findings[i]));
            component_base_keys.push(component_base_key(&findings[i]));
            i = i + 1;
        }
        TargetIndex { findings, file_keys, component_keys, component_base_keys }
    }

    fn collect_matches(
        &self,
        kind: u8,
        source: &Finding,
        source_file: &Option<FileKey>,
        source_component: &Option<ComponentKey>,
        source_base: &Option<ComponentBaseKey>,
        out: &mut Vec<usize>,
    )
        requires
            self.wf(),
            kind < 3,
            opt_file_key(*source_file) == spec_file_key(source@),
            opt_component_key(*source_component) == spec_component_key(source@),
            opt_component_base_key(*source_base) == spec_component_base_key(source@),
        ensures
            final(out)@.len() == old(out)@.len() + matching_indices(
                kind as int,
                source@,
                self.targets(),
            ).len(),
            forall|j: int|
                0 <= j < old(out)@.len() ==> #[trigger] final(out)@[j] == old(out)@[j],
            forall|j: int|
                0 <= j < matching_indices(kind as int, source@, self.targets()).len() ==> (
                #[trigger] final(out)@[old(out)@.len() + j]) as int == matching_indices(
                    kind as int,
                    source@,
                    self.targets(),
                )[j],
    {
        let ghost ts = self.targets();
        let ghost start = out@.len();
        let ghost init = out@;
        let n = self.findings.len();
        let mut i: usize = 0;
        assert(ts.take(0) =~= Seq::<FindingView>::empty());
        while i < n
            invariant
                self.wf(),
                n == self.findings@.len(),
                ts == self.targets(),
                i <= n,
                start == init.len(),
                kind < 3,
                opt_file_key(*source_file) == spec_file_key(source@),
                opt_component_key(*source_component) == spec_component_key(source@),
                opt_component_base_key(*source_base) == spec_component_base_key(source@),
                out@.len() == start + matching_indices(kind as int, source@, ts.take(i as int)).len(),
                forall|j: int| 0 <= j < start ==> #[trigger] out@[j] == init[j],
                forall|j: int|
                    0 <= j < matching_indices(kind as int, source@, ts.take(i as int)).len() ==> (
                    #[trigger] out@[start + j]) as int == matching_indices(
                        kind as int,
                        source@,
                        ts.take(i as int),
                    )[j],
            decreases n - i,
        {
            let hit = if kind == 0 {
                match (source_file, &self.file_keys[i]) {
                    (Some(a), Some(b)) => a.same_as(b),
                    _ => false,
                }
            } else if kind == 1 {
                match (source_component, &self.component_keys[i]) {
                    (Some(a), Some(b)) => a.same_as(b),
                    _ => false,
                }
            } else {
                match (source_base, &self.component_base_keys[i]) {
                    (Some(a), Some(b)) => a.same_as(b) && !same_version(
                        &source.component_version,
                        &self.findings[i].component_version,
                    ),
                    _ => false,
                }
            };
            proof {
                let t = ts.take(i + 1);
                assert(t.drop_last() =~= ts.take(i as int));
                assert(t.last() == self.findings@[i as int]@);
                assert(hit == matches_by(kind as int, source@, t.last()));
            }
            if hit {
                out.push(i);
            }
            i = i + 1;
        }
        assert(ts.take(n as int) =~= ts);
    }

    /// The positions of the exact matches of `source`: file-key matches
    /// first, then component-key matches.
    pub fn exact_candidates(&self, source: &Finding) -> (r: Vec<usize>)
        requires
            self.wf(),
        ensures
            r@.len() == exact_order(source@, self.targets()).len(),
            forall|j: int|
                0 <= j < r@.len() ==> (#[trigger] r@[j]) as int == exact_order(
                    source@,
                    self.targets(),
                )[j],
    {
        let file = file_key(source);
        let component = component_key(source);
        let base = component_base_key(source);
        let mut r: Vec<usize> = Vec::new();
        self.collect_matches(0, source, &file, &component, &base, &mut r);
        let ghost first = r@;
        self.collect_matches(1, source, &file, &component, &base, &mut r);
        proof {
            let ts = self.targets();
            let f = matching_indices(file_match_kind(), source@, ts);
            let c = matching_indices(component_match_kind(), source@, ts);
            assert forall|j: int| 0 <= j < r@.len() implies (#[trigger] r@[j]) as int == exact_order(
                source@,
                ts,
            )[j] by {
                if j < f.len() {
                    assert(r@[j] == first[j]);
                    assert(first[0 + j] as int == f[j]);
                } else {
                    assert(r@[f.len() + (j - f.len())] as int == c[j - f.len()]);
                }
            }
        }
        r
    }

    /// The positions of the targets with the source's component under another version.
    pub fn possible_component_candidates(&self, source: &Finding) -> (r: Vec<usize>)
        requires
            self.wf(),
        ensures
            r@.len() == matching_indices(possible_match_kind(), source@, self.targets()).len(),
            forall|j: int|
                0 <= j < r@.len() ==> (#[trigger] r@[j]) as int == matching_indices(
                    possible_match_kind(),
                    source@,
                    self.targets(),
                )[j],
    {
        let file = file_key(source);
        let component = component_key(source);
        let base = component_base_key(source);
        let mut r: Vec<usize> = Vec::new();
        self.collect_matches(2, source, &file, &component, &base, &mut r);
        proof {
            let p = matching_indices(possible_match_kind(), source@, self.targets());
            assert forall|j: int| 0 <= j < r@.len() implies (#[trigger] r@[j]) as int == p[j] by {
                assert(r@[0 + j] as int == p[j]);
            }
        }
        r
    }

    fn ids_of(&self, positions: &Vec<usize>, Ghost(order): Ghost<Seq<int>>) -> (r: Vec<u64>)
        requires
            positions@.len() == order.len(),
            forall|j: int| 0 <= j < positions@.len() ==> (#[trigger] positions@[j]) as int == order[j],
            forall|j: int| 0 <= j < order.len() ==> 0 <= #[trigger] order[j] < self.findings@.len(),
        ensures
            r@ == ids_at(self.targets(), order),
    {
        let mut r: Vec<u64> = Vec::new();
        let mut i: usize = 0;
        while i < positions.len()
            invariant
                i <= positions@.len(),
                positions@.len() == order.len(),
                forall|j: int|
                    0 <= j < positions@.len() ==> (#[trigger] positions@[j]) as int == order[j],
                forall|j: int| 0 <= j < order.len() ==> 0 <= #[trigger] order[j] < self.findings@.len(),
                r@ == ids_at(self.targets(), order.take(i as int)),
            decreases positions.len() - i,
        {
            let p = positions[i];
            assert(order[i as int] == p as int);
            r.push(self.findings[p].id);
            assert(ids_at(self.targets(), order.take(i + 1)) =~= ids_at(
                self.targets(),
                order.take(i as int),
            ).push(self.findings@[p as int].id));
            i = i + 1;
        }
        assert(order.take(order.len() as int) =~= order);
        r
    }
}

/// The part of a finding's state that migration transfers.
#[derive(Debug, Clone, Copy, PartialEq, Eq, Structural)]
pub struct TransferStatus {
    pub active: bool,
    pub verified: bool,
    pub fixed: bool,
    pub unfixed: bool,
    pub false_p: bool,
    pub out_of_scope: bool,
    pub is_mitigated: bool,
}

/// The transferred part of a finding's state.
pub fn transferred_status(finding: &Finding) -> (r: TransferStatus)
    ensures
        r.active == finding.active,
        r.verified == finding.verified,
        r.fixed == finding.fixed,
        r.unfixed == finding.unfixed,
        r.false_p == finding.false_p,
        r.out_of_scope == finding.out_of_scope,
        r.is_mitigated == finding.is_mitigated,
{
    TransferStatus {
        active: finding.active,
        verified: finding.verified,
        fixed: finding.fixed,
        unfixed: finding.unfixed,
        false_p: finding.false_p,
        out_of_scope: finding.out_of_scope,
        is_mitigated: finding.is_mitigated,
    }
}

/// Whether the finding is active and untriaged.
pub fn is_untriaged_active(finding: &Finding) -> (r: bool)
    ensures
        r == spec_is_untriaged_active(finding@),
{
    finding.active && !finding.verified && !finding.false_p && !finding.duplicate
        && !finding.out_of_scope && !finding.risk_accepted && !finding.is_mitigated
}

/// How the target's state compares with the source's.
pub fn classify_status(source: &Finding, target: &Finding) -> (r: CorrelationClass)
    ensures
        r == spec_classify_status(source@, target@),
{
    if transferred_status(source) == transferred_status(target) && source.duplicate
        == target.duplicate && source.risk_accepted == target.risk_accepted {
        return CorrelationClass::AlreadyUpToDate;
    }
    if is_untriaged_active(target) {
        CorrelationClass::ReadyToApply
    } else {
        CorrelationClass::StatusConflict
    }
}

/// A correlation result for `source`.
pub fn result(
    source: &Finding,
    target_product_id: u64,
    class: CorrelationClass,
    candidate_ids: Vec<u64>,
) -> (r: CorrelationResult)
    ensures
        r.source_finding_id == source.id,
        r.source_title@ == source.title@,
        r.target_product_id == target_product_id,
        r.class == class,
        r.candidate_ids@ == candidate_ids@,
{
    CorrelationResult {
        source_finding_id: source.id,
        source_title: source.title.clone(),
        target_product_id,
        class,
        candidate_ids,
    }
}

/// Correlates one source finding with the indexed targets.
pub fn correlate_one(source: &Finding, index: &TargetIndex, target_product_id: u64) -> (r:
    CorrelationResult)
    requires
        index.wf(),
    ensures
        correlation_of(r, source@, index.targets(), target_product_id),
{
    let ghost s = source@;
    let ghost ts = index.targets();
    let has_file_key = file_key(source).is_some();
    let has_component_key = component_key(source).is_some();
    if !has_file_key && !has_component_key {
        let r = result(source, target_product_id, CorrelationClass::InsufficientData, Vec::new());
        assert(r.candidate_ids@.to_set() =~= Set::<u64>::empty());
        return r;
    }
    let exact = index.exact_candidates(source);
    proof {
        lemma_indices_in_range(file_match_kind(), s, ts);
        lemma_indices_in_range(component_match_kind(), s, ts);
        let o = exact_order(s, ts);
        let f = matching_indices(file_match_kind(), s, ts);
        assert forall|j: int| 0 <= j < o.len() implies 0 <= #[trigger] o[j] < index.findings@.len() by {
            if j >= f.len() {
                assert(o[j] == matching_indices(component_match_kind(), s, ts)[j - f.len()]);
            }
        }
    }
    let exact_id_list = index.ids_of(&exact, Ghost(exact_order(s, ts)));
    let ids = ascending_distinct(&exact_id_list);
    proof {
        lemma_ascending_len(ids@);
        if exact@.len() == 0 {
            assert(exact_id_list@ =~= Seq::<u64>::empty());
            assert(ids@.to_set() =~= Set::<u64>::empty());
            assert(ids@.len() == 0);
        }
    }
    if ids.len() > 1 {
        return result(source, target_product_id, CorrelationClass::Ambiguous, ids);
    }
    if exact.len() > 0 {
        let last = exact[exact.len() - 1];
        let target = &index.findings[last];
        let class = classify_status(source, target);
        proof {
            let o = exact_order(s, ts);
            assert(o.last() == last as int);
            assert(ts[last as int] == target@);
        }
        return result(source, target_product_id, class, ids);
    }
    let possible = index.possible_component_candidates(source);
    proof {
        lemma_indices_in_range(possible_match_kind(), s, ts);
    }
    let possible_id_list = index.ids_of(
        &possible,
        Ghost(matching_indices(possible_match_kind(), s, ts)),
    );
    let pids = ascending_distinct(&possible_id_list);
    proof {
        lemma_ascending_len(pids@);
    }
    if pids.len() > 0 {
        return result(source, target_product_id, CorrelationClass::PossibleMatch, pids);
    }
    result(source, target_product_id, CorrelationClass::NotFound, pids)
}

/// Correlates every source finding with the findings of one destination
/// product; the results come in the order of the sources.
pub fn correlate_findings(
    source_findings: &[Finding],
    target_findings: &[Finding],
    target_product_id: u64,
) -> (r: Vec<CorrelationResult>)
    ensures
        r@.len() == source_findings@.len(),
        forall|i: int|
            0 <= i < r@.len() ==> correlation_of(
                #[trigger] r@[i],
                source_findings@[i]@,
                findings_view(target_findings@),
                target_product_id,
            ),
{
    let index = TargetIndex::new(target_findings);
    let mut results: Vec<CorrelationResult> = Vec::new();
    let mut i: usize = 0;
    while i < source_findings.len()
        invariant
            index.wf(),
            index.findings == target_findings,
            i <= source_findings@.len(),
            results@.len() == i,
            forall|j: int|
                0 <= j < i ==> correlation_of(
                    #[trigger] results@[j],
                    source_findings@[j]@,
                    findings_view(target_findings@),
                    target_product_id,
                ),
        decreases source_findings.len() - i,
    {
        results.push(correlate_one(&source_findings[i], &index, target_product_id));
        i = i + 1;
    }
    results
}

} // verus!

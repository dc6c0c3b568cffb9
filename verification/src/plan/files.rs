//! The decision file: its rows, how they are derived from a plan, and how a
//! filled-in file is checked against the plan.
use vstd::prelude::*;
use crate::error::AppError;
use crate::matching::models::{
    SourceCorrelation, SourceCoverageClass, coverage_label, not_found_label, target_action_label,
};
use crate::plan::models::{DecisionAction, MigrationPlan, PlannedTargetOperation};
use crate::text::{decimal, decimals, join_text, push_decimal, split_text};

verus! {

/// An operation approved in the decision file.
#[derive(Debug, Clone)]
pub struct ApprovedOperation {
    pub row_id: String,
    pub source_finding_id: u64,
    pub target_product_id: u64,
    pub target_finding_id: u64,
}

/// Where the two plan files were written.
#[derive(Debug)]
pub struct WrittenPlanFiles {
    pub json_path: String,
    pub csv_path: String,
}

/// The counts of a valid decision file.
#[derive(Debug, Clone, Copy, PartialEq, Eq, Structural)]
pub struct DecisionValidationSummary {
    pub total_rows: usize,
    pub apply_all_rows: usize,
    pub skip_rows: usize,
}

/// The two kinds of decision rows.
#[derive(Debug, Clone, Copy, PartialEq, Eq, Structural)]
pub enum CsvRowType {
    TargetOperation,
    SourceIssue,
}

/// One row of the decision file.
#[derive(Debug, Clone)]
pub struct CsvDecisionRow {
    pub row_id: String,
    pub row_type: CsvRowType,
    pub source_finding_id: u64,
    pub source_title: String,
    pub target_product_id: u64,
    pub target_finding_id: Option<u64>,
    pub class: String,
    pub candidate_ids: String,
    pub not_found_reasons: String,
    pub action: DecisionAction,
    pub selected_target_id: Option<u64>,
}

/// The content of a decision row.
pub struct CsvRowView {
    pub row_id: Seq<char>,
    pub row_type: CsvRowType,
    pub source_finding_id: u64,
    pub source_title: Seq<char>,
    pub target_product_id: u64,
    pub target_finding_id: Option<u64>,
    pub class: Seq<char>,
    pub candidate_ids: Seq<char>,
    pub not_found_reasons: Seq<char>,
    pub action: DecisionAction,
    pub selected_target_id: Option<u64>,
}

impl View for CsvDecisionRow {
    type V = CsvRowView;

    open spec fn view(&self) -> CsvRowView {
        CsvRowView {
            row_id: self.row_id@,
            row_type: self.row_type,
            source_finding_id: self.source_finding_id,
            source_title: self.source_title@,
            target_product_id: self.target_product_id,
            target_finding_id: self.target_finding_id,
            class: self.class@,
            candidate_ids: self.candidate_ids@,
            not_found_reasons: self.not_found_reasons@,
            action: self.action,
            selected_target_id: self.selected_target_id,
        }
    }
}

pub open spec fn rows_view(rows: Seq<CsvDecisionRow>) -> Seq<CsvRowView> {
    rows.map_values(|r: CsvDecisionRow| r@)
}

// ---------------------------------------------------------------------------
// Ordering of row ids
// ---------------------------------------------------------------------------

/// `a` sorts strictly before `b` (the order of `String`: by characters, a
/// proper prefix first).
pub open spec fn text_lt(a: Seq<char>, b: Seq<char>) -> bool
    decreases a.len(),
{
    if a.len() == 0 {
        b.len() > 0
    } else if b.len() == 0 {
        false
    } else if a[0] < b[0] {
        true
    } else if a[0] == b[0] {
        text_lt(a.drop_first(), b.drop_first())
    } else {
        false
    }
}

/// `a` sorts before `b` or equals it.
pub open spec fn text_le(a: Seq<char>, b: Seq<char>) -> bool {
    !text_lt(b, a)
}

proof fn lemma_text_lt_irreflexive(a: Seq<char>)
    ensures
        !text_lt(a, a),
    decreases a.len(),
{
    if a.len() > 0 {
        lemma_text_lt_irreflexive(a.drop_first());
    }
}

proof fn lemma_text_lt_total(a: Seq<char>, b: Seq<char>)
    ensures
        a == b || text_lt(a, b) || text_lt(b, a),
    decreases a.len(),
{
    if a.len() > 0 && b.len() > 0 && a[0] == b[0] {
        lemma_text_lt_total(a.drop_first(), b.drop_first());
        if a.drop_first() == b.drop_first() {
            assert(a =~= seq![a[0]] + a.drop_first());
            assert(b =~= seq![b[0]] + b.drop_first());
        }
    } else if a.len() > 0 && b.len() > 0 {
    } else if a.len() == 0 && b.len() == 0 {
        assert(a =~= b);
    }
}

proof fn lemma_text_lt_transitive(a: Seq<char>, b: Seq<char>, c: Seq<char>)
    requires
        text_lt(a, b),
        text_lt(b, c),
    ensures
        text_lt(a, c),
    decreases a.len(),
{
    if a.len() > 0 && b.len() > 0 && c.len() > 0 && a[0] == b[0] && b[0] == c[0] {
        lemma_text_lt_transitive(a.drop_first(), b.drop_first(), c.drop_first());
    }
}

proof fn lemma_text_lt_asymmetric(a: Seq<char>, b: Seq<char>)
    requires
        text_lt(a, b),
    ensures
        !text_lt(b, a),
{
    if text_lt(b, a) {
        lemma_text_lt_transitive(a, b, a);
        lemma_text_lt_irreflexive(a);
    }
}

fn text_less(a: &str, b: &str) -> (r: bool)
    ensures
        r == text_lt(a@, b@),
{
    let x = crate::text::chars_of(a);
    let y = crate::text::chars_of(b);
    let mut i: usize = 0;
    assert(x@.skip(0) =~= a@);
    assert(y@.skip(0) =~= b@);
    while i < x.len() && i < y.len() && x[i] == y[i]
        invariant
            x@ == a@,
            y@ == b@,
            i <= x.len(),
            i <= y.len(),
            text_lt(a@, b@) == text_lt(x@.skip(i as int), y@.skip(i as int)),
        decreases x.len() - i,
    {
        proof {
            assert(x@.skip(i as int).drop_first() =~= x@.skip(i + 1));
            assert(y@.skip(i as int).drop_first() =~= y@.skip(i + 1));
        }
        i = i + 1;
    }
    if i == x.len() {
        i < y.len()
    } else if i == y.len() {
        false
    } else {
        assert(x@.skip(i as int)[0] == x@[i as int]);
        assert(y@.skip(i as int)[0] == y@[i as int]);
        x[i] < y[i]
    }
}

// ---------------------------------------------------------------------------
// Rows of a plan
// ---------------------------------------------------------------------------

/// `target-<source>-<product>-<target>`
pub open spec fn target_row_id(op: PlannedTargetOperation) -> Seq<char> {
    "target-"@ + decimal(op.source_finding_id as nat) + "-"@ + decimal(op.target_product_id as nat)
        + "-"@ + decimal(op.target_finding_id as nat)
}

/// `source-<source>-<product>-<class>`
pub open spec fn source_row_id(c: SourceCorrelation) -> Seq<char> {
    "source-"@ + decimal(c.source_finding_id as nat) + "-"@ + decimal(c.target_product_id as nat)
        + "-"@ + coverage_label(c.class)
}

/// The ids joined with `|`.
pub open spec fn ids_text(ids: Seq<u64>) -> Seq<char> {
    join_text(decimals(ids), "|"@)
}

/// The row of a proposed operation.
pub open spec fn operation_row(op: PlannedTargetOperation) -> CsvRowView {
    CsvRowView {
        row_id: target_row_id(op),
        row_type: CsvRowType::TargetOperation,
        source_finding_id: op.source_finding_id,
        source_title: op.source_title@,
        target_product_id: op.target_product_id,
        target_finding_id: Some(op.target_finding_id),
        class: target_action_label(op.class),
        candidate_ids: Seq::empty(),
        not_found_reasons: Seq::empty(),
        action: op.default_action,
        selected_target_id: None,
    }
}

/// The labels of the reasons joined with `|`.
pub open spec fn reasons_text(c: SourceCorrelation) -> Seq<char> {
    join_text(
        c.not_found_reasons@.map_values(|r: crate::matching::models::NotFoundReason| not_found_label(r)),
        "|"@,
    )
}

/// The row of a source finding that is not exactly matched.
pub open spec fn coverage_row(c: SourceCorrelation) -> CsvRowView {
    CsvRowView {
        row_id: source_row_id(c),
        row_type: CsvRowType::SourceIssue,
        source_finding_id: c.source_finding_id,
        source_title: c.source_title@,
        target_product_id: c.target_product_id,
        target_finding_id: None,
        class: coverage_label(c.class),
        candidate_ids: ids_text(c.candidate_ids@),
        not_found_reasons: reasons_text(c),
        action: DecisionAction::Skip,
        selected_target_id: None,
    }
}

/// The rows of the coverage entries that are not exact matches, in order.
pub open spec fn issue_rows(cov: Seq<SourceCorrelation>) -> Seq<CsvRowView>
    decreases cov.len(),
{
    if cov.len() == 0 {
        Seq::empty()
    } else if cov.last().class == SourceCoverageClass::ExactMatch {
        issue_rows(cov.drop_last())
    } else {
        issue_rows(cov.drop_last()).push(coverage_row(cov.last()))
    }
}

/// The rows before sorting: one per operation, then one per coverage entry
/// that is not an exact match.
pub open spec fn unsorted_rows(plan: MigrationPlan) -> Seq<CsvRowView> {
    plan.operations@.map_values(|op: PlannedTargetOperation| operation_row(op)) + issue_rows(
        plan.coverage@,
    )
}

/// The position at which a row with id `id` is inserted into `s`: after
/// every row whose id does not sort after it (so equal ids keep their order).
pub open spec fn insert_position(s: Seq<CsvRowView>, id: Seq<char>) -> int
    decreases s.len(),
{
    if s.len() == 0 {
        0
    } else if text_lt(id, s[0].row_id) {
        0
    } else {
        1 + insert_position(s.drop_first(), id)
    }
}

/// The rows sorted by row id, equal ids keeping their order.
pub open spec fn sort_rows(s: Seq<CsvRowView>) -> Seq<CsvRowView>
    decreases s.len(),
{
    if s.len() == 0 {
        Seq::empty()
    } else {
        let sorted = sort_rows(s.drop_last());
        sorted.insert(insert_position(sorted, s.last().row_id), s.last())
    }
}

/// The rows of the decision file of a plan.
pub open spec fn plan_rows(plan: MigrationPlan) -> Seq<CsvRowView> {
    sort_rows(unsorted_rows(plan))
}

/// The ids ascend (equal neighbours allowed).
pub open spec fn rows_sorted(s: Seq<CsvRowView>) -> bool {
    forall|i: int, j: int| 0 <= i < j < s.len() ==> text_le(s[i].row_id, s[j].row_id)
}

proof fn lemma_insert_position(s: Seq<CsvRowView>, id: Seq<char>)
    ensures
        0 <= insert_position(s, id) <= s.len(),
        forall|q: int| 0 <= q < insert_position(s, id) ==> !text_lt(id, #[trigger] s[q].row_id),
        insert_position(s, id) < s.len() ==> text_lt(id, s[insert_position(s, id)].row_id),
    decreases s.len(),
{
    if s.len() > 0 && !text_lt(id, s[0].row_id) {
        lemma_insert_position(s.drop_first(), id);
        assert forall|q: int| 0 <= q < insert_position(s, id) implies !text_lt(
            id,
            #[trigger] s[q].row_id,
        ) by {
            if q > 0 {
                assert(s[q] == s.drop_first()[q - 1]);
            }
        }
    }
}

proof fn lemma_insert_position_at(s: Seq<CsvRowView>, id: Seq<char>, p: int)
    requires
        0 <= p <= s.len(),
        forall|q: int| 0 <= q < p ==> !text_lt(id, #[trigger] s[q].row_id),
        p < s.len() ==> text_lt(id, s[p].row_id),
    ensures
        insert_position(s, id) == p,
    decreases p,
{
    if p > 0 {
        let t = s.drop_first();
        assert forall|q: int| 0 <= q < p - 1 implies !text_lt(id, #[trigger] t[q].row_id) by {
            assert(t[q] == s[q + 1]);
        }
        if p - 1 < t.len() {
            assert(t[p - 1] == s[p]);
        }
        lemma_insert_position_at(t, id, p - 1);
    }
}

/// The rows of a decision file are sorted by row id.
pub proof fn law_rows_sorted(s: Seq<CsvRowView>)
    ensures
        rows_sorted(sort_rows(s)),
        sort_rows(s).len() == s.len(),
    decreases s.len(),
{
    if s.len() > 0 {
        law_rows_sorted(s.drop_last());
        let sorted = sort_rows(s.drop_last());
        let x = s.last();
        let p = insert_position(sorted, x.row_id);
        lemma_insert_position(sorted, x.row_id);
        let r = sorted.insert(p, x);
        assert forall|i: int, j: int| 0 <= i < j < r.len() implies text_le(
            r[i].row_id,
            r[j].row_id,
        ) by {
            if j < p {
                assert(r[i] == sorted[i] && r[j] == sorted[j]);
            } else if j == p {
                assert(r[i] == sorted[i]);
                // sorted[i] does not sort after x
                lemma_text_lt_total(x.row_id, sorted[i].row_id);
            } else if i < p {
                assert(r[i] == sorted[i] && r[j] == sorted[j - 1]);
            } else if i == p {
                assert(r[j] == sorted[j - 1]);
                assert(text_lt(x.row_id, sorted[p].row_id));
                if j - 1 > p {
                    assert(text_le(sorted[p].row_id, sorted[j - 1].row_id));
                    if text_lt(sorted[j - 1].row_id, x.row_id) {
                        lemma_text_lt_total(sorted[p].row_id, sorted[j - 1].row_id);
                        if sorted[p].row_id == sorted[j - 1].row_id {
                            lemma_text_lt_asymmetric(x.row_id, sorted[p].row_id);
                        } else {
                            lemma_text_lt_transitive(x.row_id, sorted[p].row_id, sorted[j - 1].row_id);
                            lemma_text_lt_asymmetric(x.row_id, sorted[j - 1].row_id);
                        }
                    }
                } else {
                    lemma_text_lt_asymmetric(x.row_id, sorted[p].row_id);
                }
            } else {
                assert(r[i] == sorted[i - 1] && r[j] == sorted[j - 1]);
            }
        }
    }
}

fn operation_row_of(op: &PlannedTargetOperation) -> (r: CsvDecisionRow)
    ensures
        r@ == operation_row(*op),
{
    let mut row_id = String::from_str("target-");
    push_decimal(&mut row_id, op.source_finding_id);
    row_id.append("-");
    push_decimal(&mut row_id, op.target_product_id);
    row_id.append("-");
    push_decimal(&mut row_id, op.target_finding_id);
    CsvDecisionRow {
        row_id,
        row_type: CsvRowType::TargetOperation,
        source_finding_id: op.source_finding_id,
        source_title: op.source_title.clone(),
        target_product_id: op.target_product_id,
        target_finding_id: Some(op.target_finding_id),
        class: String::from_str(op.class.label()),
        candidate_ids: String::new(),
        not_found_reasons: String::new(),
        action: op.default_action,
        selected_target_id: None,
    }
}

fn reasons_of(c: &SourceCorrelation) -> (s: String)
    ensures
        s@ == reasons_text(*c),
{
    let mut s = String::new();
    let reasons = &c.not_found_reasons;
    let ghost labels = reasons@.map_values(
        |r: crate::matching::models::NotFoundReason| not_found_label(r),
    );
    let mut i: usize = 0;
    while i < reasons.len()
        invariant
            i <= reasons@.len(),
            labels == reasons@.map_values(
                |r: crate::matching::models::NotFoundReason| not_found_label(r),
            ),
            s@ == join_text(labels.take(i as int), "|"@),
        decreases reasons.len() - i,
    {
        if i > 0 {
            s.append("|");
        }
        s.append(reasons[i].label());
        proof {
            assert(labels.take(i + 1) =~= labels.take(i as int).push(labels[i as int]));
            crate::text::lemma_join_push(labels.take(i as int), "|"@, labels[i as int]);
        }
        i = i + 1;
    }
    assert(labels.take(reasons@.len() as int) =~= labels);
    s
}

fn coverage_row_of(c: &SourceCorrelation) -> (r: CsvDecisionRow)
    ensures
        r@ == coverage_row(*c),
{
    let mut row_id = String::from_str("source-");
    push_decimal(&mut row_id, c.source_finding_id);
    row_id.append("-");
    push_decimal(&mut row_id, c.target_product_id);
    row_id.append("-");
    row_id.append(c.class.label());
    CsvDecisionRow {
        row_id,
        row_type: CsvRowType::SourceIssue,
        source_finding_id: c.source_finding_id,
        source_title: c.source_title.clone(),
        target_product_id: c.target_product_id,
        target_finding_id: None,
        class: String::from_str(c.class.label()),
        candidate_ids: join_ids(&c.candidate_ids),
        not_found_reasons: reasons_of(c),
        action: DecisionAction::Skip,
        selected_target_id: None,
    }
}

fn insert_sorted(rows: &mut Vec<CsvDecisionRow>, row: CsvDecisionRow)
    ensures
        rows_view(final(rows)@) == rows_view(old(rows)@).insert(
            insert_position(rows_view(old(rows)@), row@.row_id),
            row@,
        ),
{
    let ghost s = rows_view(rows@);
    let n = rows.len();
    let mut p: usize = 0;
    while p < n && !text_less(row.row_id.as_str(), rows[p].row_id.as_str())
        invariant
            n == rows.len(),
            s == rows_view(rows@),
            p <= n,
            forall|q: int| 0 <= q < p ==> !text_lt(row@.row_id, #[trigger] s[q].row_id),
        decreases n - p,
    {
        p = p + 1;
    }
    proof {
        lemma_insert_position_at(s, row@.row_id, p as int);
    }
    let ghost x = row@;
    rows.insert(p, row);
    assert(rows_view(rows@) =~= s.insert(p as int, x));
}

/// The rows of the decision file of a plan: one per proposed operation, one
/// per source finding that is not exactly matched, sorted by row id.
pub fn build_csv_rows(plan: &MigrationPlan) -> (r: Vec<CsvDecisionRow>)
    ensures
        rows_view(r@) == plan_rows(*plan),
{
    let ghost all = unsorted_rows(*plan);
    let mut rows: Vec<CsvDecisionRow> = Vec::new();
    let mut count: usize = 0;
    let ghost ops = plan.operations@.map_values(|op: PlannedTargetOperation| operation_row(op));
    assert(all.take(0) =~= Seq::<CsvRowView>::empty());
    let mut i: usize = 0;
    while i < plan.operations.len()
        invariant
            i <= plan.operations@.len(),
            all == unsorted_rows(*plan),
            ops == plan.operations@.map_values(|op: PlannedTargetOperation| operation_row(op)),
            rows_view(rows@) == sort_rows(all.take(i as int)),
        decreases plan.operations.len() - i,
    {
        let row = operation_row_of(&plan.operations[i]);
        insert_sorted(&mut rows, row);
        proof {
            assert(all[i as int] == ops[i as int]);
            assert(all.take(i + 1).drop_last() =~= all.take(i as int));
            assert(all.take(i + 1).last() == ops[i as int]);
        }
        i = i + 1;
    }
    let mut k: usize = 0;
    let ghost base = ops.len();
    assert(issue_rows(plan.coverage@.take(0)) =~= Seq::<CsvRowView>::empty());
    assert(all.take(base as int) =~= ops + issue_rows(plan.coverage@.take(0)));
    while k < plan.coverage.len()
        invariant
            k <= plan.coverage@.len(),
            all == unsorted_rows(*plan),
            ops == plan.operations@.map_values(|op: PlannedTargetOperation| operation_row(op)),
            base == ops.len(),
            rows_view(rows@) == sort_rows(ops + issue_rows(plan.coverage@.take(k as int))),
        decreases plan.coverage.len() - k,
    {
        let c = &plan.coverage[k];
        let ghost prev = issue_rows(plan.coverage@.take(k as int));
        proof {
            assert(plan.coverage@.take(k + 1).drop_last() =~= plan.coverage@.take(k as int));
            assert(plan.coverage@.take(k + 1).last() == *c);
        }
        if c.class != SourceCoverageClass::ExactMatch {
            let row = coverage_row_of(c);
            insert_sorted(&mut rows, row);
            proof {
                let next = ops + prev.push(coverage_row(*c));
                assert(next.drop_last() =~= ops + prev);
                assert(ops + issue_rows(plan.coverage@.take(k + 1)) =~= next);
            }
        }
        k = k + 1;
    }
    assert(plan.coverage@.take(plan.coverage@.len() as int) =~= plan.coverage@);
    rows
}

/// The ids joined with `|`.
pub fn join_ids(ids: &Vec<u64>) -> (s: String)
    ensures
        s@ == ids_text(ids@),
{
    crate::text::join_decimals(ids, "|")
}

/// The message for an unparsable candidate id.
pub open spec fn invalid_candidate_text(item: Seq<char>) -> Seq<char> {
    "invalid candidate ID '"@ + item + "'"@
}

/// Parsing the pieces in order: all ids, or the first piece that is not one.
pub open spec fn parse_pieces(pieces: Seq<Seq<char>>) -> Result<Seq<u64>, Seq<char>>
    decreases pieces.len(),
{
    if pieces.len() == 0 {
        Ok(Seq::empty())
    } else {
        match crate::text::parse_u64_spec(pieces[0]) {
            None => Err(pieces[0]),
            Some(id) => match parse_pieces(pieces.drop_first()) {
                Ok(rest) => Ok(seq![id] + rest),
                Err(bad) => Err(bad),
            },
        }
    }
}

/// The candidate ids of a row: none for an empty text, otherwise the pieces
/// between `|`, each a decimal id; the first piece that is not an id is
/// reported.
pub open spec fn spec_parse_candidate_ids(value: Seq<char>) -> Result<Seq<u64>, Seq<char>> {
    if value.len() == 0 {
        Ok(Seq::empty())
    } else {
        parse_pieces(split_text(value, '|'))
    }
}

proof fn lemma_parse_pieces_prefix(pieces: Seq<Seq<char>>, k: int)
    requires
        0 <= k <= pieces.len(),
        forall|j: int| 0 <= j < k ==> crate::text::parse_u64_spec(#[trigger] pieces[j]) is Some,
    ensures
        parse_pieces(pieces) == match parse_pieces(pieces.skip(k)) {
            Ok(rest) => Ok::<Seq<u64>, Seq<char>>(
                pieces.take(k).map_values(|p: Seq<char>| crate::text::parse_u64_spec(p)->0) + rest,
            ),
            Err(bad) => Err(bad),
        },
    decreases k,
{
    if k == 0 {
        assert(pieces.skip(0) =~= pieces);
        assert(pieces.take(0).map_values(|p: Seq<char>| crate::text::parse_u64_spec(p)->0)
            =~= Seq::<u64>::empty());
        match parse_pieces(pieces) {
            Ok(rest) => assert(Seq::<u64>::empty() + rest =~= rest),
            Err(_) => {},
        }
    } else {
        let t = pieces.drop_first();
        assert forall|j: int| 0 <= j < k - 1 implies crate::text::parse_u64_spec(#[trigger] t[j])
            is Some by {
            assert(t[j] == pieces[j + 1]);
        }
        lemma_parse_pieces_prefix(t, k - 1);
        assert(t.skip(k - 1) =~= pieces.skip(k));
        assert(crate::text::parse_u64_spec(pieces[0]) is Some);
        let f = |p: Seq<char>| crate::text::parse_u64_spec(p)->0;
        assert(pieces.take(k).map_values(f) =~= seq![f(pieces[0])] + t.take(k - 1).map_values(f));
        match parse_pieces(pieces.skip(k)) {
            Ok(rest) => {
                assert(seq![f(pieces[0])] + (t.take(k - 1).map_values(f) + rest) =~= (seq![
                    f(pieces[0]),
                ] + t.take(k - 1).map_values(f)) + rest);
            },
            Err(_) => {},
        }
    }
}

/// Parses the candidate ids of a row.
pub fn parse_candidate_ids(value: &str) -> (r: Result<Vec<u64>, AppError>)
    ensures
        match spec_parse_candidate_ids(value@) {
            Ok(ids) => r matches Ok(v) && v@ == ids,
            Err(bad) => r matches Err(AppError::InvalidDecisionFile(msg)) && msg@
                == invalid_candidate_text(bad),
        },
{
    if value.is_empty() {
        return Ok(Vec::new());
    }
    let pieces = crate::text::split(value, '|');
    let ghost ps = pieces@.map_values(|p: String| p@);
    let mut ids: Vec<u64> = Vec::new();
    let mut i: usize = 0;
    while i < pieces.len()
        invariant
            i <= pieces@.len(),
            ps == pieces@.map_values(|p: String| p@),
            ps == split_text(value@, '|'),
            value@.len() > 0,
            forall|j: int| 0 <= j < i ==> crate::text::parse_u64_spec(#[trigger] ps[j]) is Some,
            ids@ == ps.take(i as int).map_values(|p: Seq<char>| crate::text::parse_u64_spec(p)->0),
        decreases pieces.len() - i,
    {
        match crate::text::parse_u64(pieces[i].as_str()) {
            Some(id) => {
                ids.push(id);
                assert(ids@ =~= ps.take(i + 1).map_values(
                    |p: Seq<char>| crate::text::parse_u64_spec(p)->0,
                ));
            },
            None => {
                proof {
                    lemma_parse_pieces_prefix(ps, i as int);
                    assert(ps.skip(i as int)[0] == ps[i as int]);
                    assert(ps[i as int] == pieces@[i as int]@);
                    assert(parse_pieces(ps.skip(i as int)) == Err::<Seq<u64>, Seq<char>>(ps[i as int]));
                    assert(value@.len() > 0);
                }
                let mut msg = String::from_str("invalid candidate ID '");
                msg.append(pieces[i].as_str());
                msg.append("'");
                return Err(AppError::InvalidDecisionFile(msg));
            },
        }
        i = i + 1;
    }
    proof {
        lemma_parse_pieces_prefix(ps, ps.len() as int);
        assert(ps.skip(ps.len() as int) =~= Seq::<Seq<char>>::empty());
        assert(ps.take(ps.len() as int) =~= ps);
        assert(ids@ + Seq::<u64>::empty() =~= ids@);
    }
    Ok(ids)
}

/// Parsing the ids written by `join_ids` gives the ids back.
pub proof fn law_candidate_ids_round_trip(ids: Seq<u64>)
    ensures
        spec_parse_candidate_ids(ids_text(ids)) == Ok::<Seq<u64>, Seq<char>>(ids),
{
    let ds = decimals(ids);
    if ids.len() == 0 {
        assert(ds.len() == 0);
        assert(ids =~= Seq::<u64>::empty());
        assert(ids_text(ids) == Seq::<char>::empty());
    } else {
        assert forall|i: int| 0 <= i < ds.len() implies !(#[trigger] ds[i]).contains('|') by {
            crate::text::lemma_decimal(ids[i] as nat);
            if ds[i].contains('|') {
                let k = choose|k: int| 0 <= k < ds[i].len() && ds[i][k] == '|';
                assert(crate::text::is_digit(ds[i][k]));
            }
        }
        assert(seq!['|'] =~= "|"@) by {
            reveal_strlit("|");
        }
        crate::text::lemma_split_join(ds, '|');
        lemma_parse_decimals(ids);
        crate::text::lemma_decimal(ids[0] as nat);
        assert(ds[0] == crate::text::decimal(ids[0] as nat));
        assert(ids_text(ids).len() > 0) by {
            lemma_join_nonempty(ds, "|"@);
        }
        assert(split_text(ids_text(ids), '|') == ds);
        assert(parse_pieces(ds) == Ok::<Seq<u64>, Seq<char>>(ids));
    }
}

proof fn lemma_join_nonempty(parts: Seq<Seq<char>>, sep: Seq<char>)
    requires
        parts.len() > 0,
        parts[0].len() > 0,
    ensures
        join_text(parts, sep).len() > 0,
{
}

proof fn lemma_parse_decimals(ids: Seq<u64>)
    ensures
        parse_pieces(decimals(ids)) == Ok::<Seq<u64>, Seq<char>>(ids),
    decreases ids.len(),
{
    if ids.len() > 0 {
        crate::text::lemma_parse_decimal(ids[0]);
        lemma_parse_decimals(ids.drop_first());
        assert(decimals(ids).drop_first() =~= decimals(ids.drop_first()));
        assert(seq![ids[0]] + ids.drop_first() =~= ids);
    } else {
        assert(decimals(ids).len() == 0);
        assert(ids =~= Seq::<u64>::empty());
    }
}

/// The message for an invalid output name.
pub open spec fn output_name_message() -> Seq<char> {
    "  - output name may contain only ASCII letters, digits, '-' and '_'"@
}

/// A plan name is not empty and holds only ASCII letters, digits, `-` and `_`.
pub open spec fn valid_output_name(name: Seq<char>) -> bool {
    name.len() > 0 && forall|i: int|
        0 <= i < name.len() ==> (crate::config::is_ascii_alphanumeric(#[trigger] name[i])
            || name[i] == '-' || name[i] == '_')
}

/// Checks the base name of the plan files.
pub fn validate_output_name(output_name: &str) -> (r: Result<(), AppError>)
    ensures
        r is Ok <==> valid_output_name(output_name@),
        r matches Err(e) ==> (e matches AppError::InvalidConfig(msg) && msg@ == output_name_message()),
{
    let chars = crate::text::chars_of(output_name);
    let mut valid = chars.len() > 0;
    let mut i: usize = 0;
    while i < chars.len()
        invariant
            chars@ == output_name@,
            i <= chars.len(),
            valid == (chars.len() > 0 && forall|j: int|
                0 <= j < i ==> (crate::config::is_ascii_alphanumeric(#[trigger] chars@[j])
                    || chars@[j] == '-' || chars@[j] == '_')),
        decreases chars.len() - i,
    {
        let c = chars[i];
        if !(('a' <= c && c <= 'z') || ('A' <= c && c <= 'Z') || ('0' <= c && c <= '9') || c
            == '-' || c == '_') {
            valid = false;
        }
        i = i + 1;
    }
    if valid {
        Ok(())
    } else {
        Err(
            AppError::InvalidConfig(
                String::from_str("  - output name may contain only ASCII letters, digits, '-' and '_'"),
            ),
        )
    }
}

// ---------------------------------------------------------------------------
// Checking a filled-in decision file
// ---------------------------------------------------------------------------

/// `'<text>'`
pub open spec fn quoted(t: Seq<char>) -> Seq<char> {
    "'"@ + t + "'"@
}

/// The protected fields of a row equal those of the plan's row.
pub open spec fn protected_fields_match(actual: CsvRowView, expected: CsvRowView) -> bool {
    &&& actual.row_type == expected.row_type
    &&& actual.source_finding_id == expected.source_finding_id
    &&& actual.source_title == expected.source_title
    &&& actual.target_product_id == expected.target_product_id
    &&& actual.target_finding_id == expected.target_finding_id
    &&& actual.class == expected.class
    &&& actual.candidate_ids == expected.candidate_ids
    &&& actual.not_found_reasons == expected.not_found_reasons
}

/// What is wrong with the decision of a target-operation row, if anything.
pub open spec fn target_operation_problem(row: CsvRowView) -> Option<Seq<char>> {
    if row.selected_target_id is Some {
        Some(
            "row "@ + quoted(row.row_id)
                + " already has a target finding; selected_target_id must be empty"@,
        )
    } else if row.class == "AlreadyUpToDate"@ && row.action != DecisionAction::Skip {
        Some("AlreadyUpToDate row "@ + quoted(row.row_id) + " must remain skip"@)
    } else {
        None
    }
}

/// Rows of these classes may name one of their candidates as the target.
pub open spec fn is_selectable_class(class: Seq<char>) -> bool {
    class == "PossibleMatch"@ || class == "AmbiguousPossibleMatch"@
}

/// What is wrong with the decision of a source-issue row, if anything.
pub open spec fn source_issue_problem(row: CsvRowView) -> Option<Seq<char>> {
    if !is_selectable_class(row.class) {
        if row.action != DecisionAction::Skip {
            Some(
                "row "@ + quoted(row.row_id) + " has class "@ + quoted(row.class)
                    + " and cannot be applied"@,
            )
        } else if row.selected_target_id is Some {
            Some("row "@ + quoted(row.row_id) + " cannot contain selected_target_id"@)
        } else {
            None
        }
    } else {
        match row.action {
            DecisionAction::Skip => if row.selected_target_id is Some {
                Some("skipped row "@ + quoted(row.row_id) + " must not contain selected_target_id"@)
            } else {
                None
            },
            DecisionAction::ApplyAll => match row.selected_target_id {
                None => Some("row "@ + quoted(row.row_id) + " requires selected_target_id"@),
                Some(selected) => match spec_parse_candidate_ids(row.candidate_ids) {
                    Err(bad) => Some(invalid_candidate_text(bad)),
                    Ok(ids) => if ids.contains(selected) {
                        None
                    } else {
                        Some(
                            "selected target #"@ + decimal(selected as nat)
                                + " is not an allowed candidate for row "@ + quoted(row.row_id),
                        )
                    },
                },
            },
        }
    }
}

/// A source issue of class `PossibleMatch` or `AmbiguousPossibleMatch` may be
/// applied to one of its candidates: with the action `ApplyAll` and a selected
/// target among the ids of its candidate list, the row has no problem. Any
/// other class of source issue cannot be applied.
pub proof fn law_possible_matches_can_be_applied(row: CsvRowView, selected: u64, ids: Seq<u64>)
    requires
        row.row_type == CsvRowType::SourceIssue,
    ensures
        (row.class == "PossibleMatch"@ || row.class == "AmbiguousPossibleMatch"@)
            && row.action == DecisionAction::ApplyAll && row.selected_target_id == Some(selected)
            && spec_parse_candidate_ids(row.candidate_ids) == Ok::<Seq<u64>, Seq<char>>(ids)
            && ids.contains(selected) ==> decision_problem(row) is None,
        (row.class == "PossibleMatch"@ || row.class == "AmbiguousPossibleMatch"@)
            && row.action == DecisionAction::Skip && row.selected_target_id is None
            ==> decision_problem(row) is None,
        !(row.class == "PossibleMatch"@ || row.class == "AmbiguousPossibleMatch"@) && row.action
            == DecisionAction::ApplyAll ==> decision_problem(row) is Some,
{
}

/// What is wrong with the decision of a row, if anything.
pub open spec fn decision_problem(row: CsvRowView) -> Option<Seq<char>> {
    match row.row_type {
        CsvRowType::TargetOperation => target_operation_problem(row),
        CsvRowType::SourceIssue => source_issue_problem(row),
    }
}

fn quote_into(s: &mut String, t: &str)
    ensures
        final(s)@ == old(s)@ + quoted(t@),
{
    s.append("'");
    s.append(t);
    s.append("'");
}

/// Refuses a row whose protected fields differ from the plan's row.
pub fn validate_immutable_fields(actual: &CsvDecisionRow, expected: &CsvDecisionRow) -> (r: Result<
    (),
    AppError,
>)
    ensures
        r is Ok <==> protected_fields_match(actual@, expected@),
        r matches Err(e) ==> (e matches AppError::InvalidDecisionFile(msg) && msg@
            == "protected fields were changed in row "@ + quoted(actual@.row_id)),
{
    let matching = actual.row_type == expected.row_type && actual.source_finding_id
        == expected.source_finding_id && actual.source_title.eq(&expected.source_title)
        && actual.target_product_id == expected.target_product_id && actual.target_finding_id
        == expected.target_finding_id && actual.class.eq(&expected.class)
        && actual.candidate_ids.eq(&expected.candidate_ids) && actual.not_found_reasons.eq(
        &expected.not_found_reasons,
    );
    if matching {
        Ok(())
    } else {
        let mut msg = String::from_str("protected fields were changed in row ");
        quote_into(&mut msg, actual.row_id.as_str());
        Err(AppError::InvalidDecisionFile(msg))
    }
}

/// Checks the decision of a target-operation row.
pub fn validate_target_operation(row: &CsvDecisionRow) -> (r: Result<(), AppError>)
    ensures
        match target_operation_problem(row@) {
            None => r is Ok,
            Some(m) => r matches Err(AppError::InvalidDecisionFile(msg)) && msg@ == m,
        },
{
    if row.selected_target_id.is_some() {
        let mut msg = String::from_str("row ");
        quote_into(&mut msg, row.row_id.as_str());
        msg.append(" already has a target finding; selected_target_id must be empty");
        return Err(AppError::InvalidDecisionFile(msg));
    }
    if crate::text::same_str(row.class.as_str(), crate::matching::models::TargetActionClass::AlreadyUpToDate.label())
        && row.action != DecisionAction::Skip {
        let mut msg = String::from_str("AlreadyUpToDate row ");
        quote_into(&mut msg, row.row_id.as_str());
        msg.append(" must remain skip");
        return Err(AppError::InvalidDecisionFile(msg));
    }
    Ok(())
}

fn contains_u64(ids: &Vec<u64>, x: u64) -> (r: bool)
    ensures
        r == ids@.contains(x),
{
    let mut i: usize = 0;
    while i < ids.len()
        invariant
            i <= ids.len(),
            forall|j: int| 0 <= j < i ==> ids@[j] != x,
        decreases ids.len() - i,
    {
        if ids[i] == x {
            return true;
        }
        i = i + 1;
    }
    false
}

/// Checks the decision of a source-issue row: only possible matches may be
/// applied, and then to one of their candidates.
pub fn validate_source_issue(row: &CsvDecisionRow) -> (r: Result<(), AppError>)
    ensures
        match source_issue_problem(row@) {
            None => r is Ok,
            Some(m) => r matches Err(AppError::InvalidDecisionFile(msg)) && msg@ == m,
        },
{
    let selectable = crate::text::same_str(row.class.as_str(), "PossibleMatch")
        || crate::text::same_str(row.class.as_str(), "AmbiguousPossibleMatch");
    if !selectable {
        if row.action != DecisionAction::Skip {
            let mut msg = String::from_str("row ");
            quote_into(&mut msg, row.row_id.as_str());
            msg.append(" has class ");
            quote_into(&mut msg, row.class.as_str());
            msg.append(" and cannot be applied");
            return Err(AppError::InvalidDecisionFile(msg));
        }
        if row.selected_target_id.is_some() {
            let mut msg = String::from_str("row ");
            quote_into(&mut msg, row.row_id.as_str());
            msg.append(" cannot contain selected_target_id");
            return Err(AppError::InvalidDecisionFile(msg));
        }
        return Ok(());
    }
    match row.action {
        DecisionAction::Skip => {
            if row.selected_target_id.is_some() {
                let mut msg = String::from_str("skipped row ");
                quote_into(&mut msg, row.row_id.as_str());
                msg.append(" must not contain selected_target_id");
                return Err(AppError::InvalidDecisionFile(msg));
            }
        },
        DecisionAction::ApplyAll => {
            let selected = match row.selected_target_id {
                Some(s) => s,
                None => {
                    let mut msg = String::from_str("row ");
                    quote_into(&mut msg, row.row_id.as_str());
                    msg.append(" requires selected_target_id");
                    return Err(AppError::InvalidDecisionFile(msg));
                },
            };
            let candidates = parse_candidate_ids(row.candidate_ids.as_str())?;
            if !contains_u64(&candidates, selected) {
                let mut msg = String::from_str("selected target #");
                push_decimal(&mut msg, selected);
                msg.append(" is not an allowed candidate for row ");
                quote_into(&mut msg, row.row_id.as_str());
                return Err(AppError::InvalidDecisionFile(msg));
            }
        },
    }
    Ok(())
}

/// Checks the decision of a row according to its type.
pub fn validate_decision(row: &CsvDecisionRow) -> (r: Result<(), AppError>)
    ensures
        match decision_problem(row@) {
            None => r is Ok,
            Some(m) => r matches Err(AppError::InvalidDecisionFile(msg)) && msg@ == m,
        },
{
    match row.row_type {
        CsvRowType::TargetOperation => validate_target_operation(row),
        CsvRowType::SourceIssue => validate_source_issue(row),
    }
}

/// The plan's row with a given id (the last one, should ids repeat).
pub open spec fn expected_row(expected: Seq<CsvRowView>, id: Seq<char>) -> Option<CsvRowView>
    decreases expected.len(),
{
    if expected.len() == 0 {
        None
    } else if expected.last().row_id == id {
        Some(expected.last())
    } else {
        expected_row(expected.drop_last(), id)
    }
}

/// The distinct row ids, in the order of their first row.
pub open spec fn distinct_ids(rows: Seq<CsvRowView>) -> Seq<Seq<char>>
    decreases rows.len(),
{
    if rows.len() == 0 {
        Seq::empty()
    } else {
        let d = distinct_ids(rows.drop_last());
        if d.contains(rows.last().row_id) {
            d
        } else {
            d.push(rows.last().row_id)
        }
    }
}

/// What has been accepted of a decision file so far.
pub struct ValidationState {
    pub seen: Seq<Seq<char>>,
    pub total_rows: nat,
    pub apply_all_rows: nat,
    pub skip_rows: nat,
}

/// Accepting one more row: it must be new, known to the plan, keep the
/// protected fields, and hold a permitted decision.
pub open spec fn spec_accept(expected: Seq<CsvRowView>, st: ValidationState, row: CsvRowView) -> Result<
    ValidationState,
    Seq<char>,
> {
    if st.seen.contains(row.row_id) {
        Err("CSV contains duplicate row_id "@ + quoted(row.row_id))
    } else {
        match expected_row(expected, row.row_id) {
            None => Err("CSV contains unknown row_id "@ + quoted(row.row_id)),
            Some(e) => if !protected_fields_match(row, e) {
                Err("protected fields were changed in row "@ + quoted(row.row_id))
            } else {
                match decision_problem(row) {
                    Some(m) => Err(m),
                    None => Ok(
                        ValidationState {
                            seen: st.seen.push(row.row_id),
                            total_rows: st.total_rows + 1,
                            apply_all_rows: st.apply_all_rows + if row.action
                                == DecisionAction::ApplyAll {
                                1nat
                            } else {
                                0nat
                            },
                            skip_rows: st.skip_rows + if row.action == DecisionAction::Skip {
                                1nat
                            } else {
                                0nat
                            },
                        },
                    ),
                }
            },
        }
    }
}

/// The ids among `ids` that were not seen, in order.
pub open spec fn unseen(ids: Seq<Seq<char>>, seen: Seq<Seq<char>>) -> Seq<Seq<char>>
    decreases ids.len(),
{
    if ids.len() == 0 {
        Seq::empty()
    } else if seen.contains(ids.last()) {
        unseen(ids.drop_last(), seen)
    } else {
        unseen(ids.drop_last(), seen).push(ids.last())
    }
}

/// Finishing: every row of the plan must have been seen.
pub open spec fn spec_finish(expected: Seq<CsvRowView>, st: ValidationState) -> Result<
    (nat, nat, nat),
    Seq<char>,
> {
    let n = distinct_ids(expected).len();
    if st.total_rows != n {
        Err(
            "CSV contains "@ + decimal(st.total_rows) + " rows, but plan expects "@ + decimal(n)
                + "; missing rows include: "@ + join_text(
                unseen(distinct_ids(expected), st.seen).take(
                    if unseen(distinct_ids(expected), st.seen).len() < 10 {
                        unseen(distinct_ids(expected), st.seen).len() as int
                    } else {
                        10
                    },
                ),
                ", "@,
            ),
        )
    } else {
        Ok((st.total_rows, st.apply_all_rows, st.skip_rows))
    }
}

/// The message for a plan of another format version.
pub open spec fn schema_message(version: u32) -> Seq<char> {
    "unsupported plan schema version "@ + decimal(version as nat) + "; expected "@ + decimal(
        crate::plan::models::PLAN_SCHEMA_VERSION as nat,
    )
}

/// Checks a filled-in decision file against its plan, one row at a time.
pub struct DecisionValidator {
    expected: Vec<CsvDecisionRow>,
    distinct: Vec<String>,
    seen: Vec<String>,
    total_rows: usize,
    apply_all_rows: usize,
    skip_rows: usize,
}

impl DecisionValidator {
    /// The rows that the plan expects.
    pub closed spec fn expected_rows(&self) -> Seq<CsvRowView> {
        rows_view(self.expected@)
    }

    /// What has been accepted so far.
    pub closed spec fn state(&self) -> ValidationState {
        ValidationState {
            seen: self.seen@.map_values(|s: String| s@),
            total_rows: self.total_rows as nat,
            apply_all_rows: self.apply_all_rows as nat,
            skip_rows: self.skip_rows as nat,
        }
    }

    /// The counters agree with the rows seen.
    pub closed spec fn wf(&self) -> bool {
        &&& self.total_rows == self.seen@.len()
        &&& self.apply_all_rows + self.skip_rows == self.total_rows
        &&& self.distinct@.map_values(|s: String| s@) == distinct_ids(rows_view(self.expected@))
    }

    /// Starts checking a decision file against the plan; a plan of another
    /// format version is refused.
    pub fn new(plan: &MigrationPlan) -> (r: Result<DecisionValidator, AppError>)
        ensures
            plan.schema_version != crate::plan::models::PLAN_SCHEMA_VERSION ==> (r matches Err(
                AppError::InvalidDecisionFile(msg),
            ) && msg@ == schema_message(plan.schema_version)),
            plan.schema_version == crate::plan::models::PLAN_SCHEMA_VERSION ==> (r matches Ok(v)
                && v.wf() && v.expected_rows() == plan_rows(*plan) && v.state() == (ValidationState {
                seen: Seq::empty(),
                total_rows: 0,
                apply_all_rows: 0,
                skip_rows: 0,
            })),
    {
        if plan.schema_version != crate::plan::models::PLAN_SCHEMA_VERSION {
            let mut msg = String::from_str("unsupported plan schema version ");
            push_decimal(&mut msg, plan.schema_version as u64);
            msg.append("; expected ");
            push_decimal(&mut msg, crate::plan::models::PLAN_SCHEMA_VERSION as u64);
            return Err(AppError::InvalidDecisionFile(msg));
        }
        let expected = build_csv_rows(plan);
        let distinct = distinct_row_ids(&expected);
        let v = DecisionValidator {
            expected,
            distinct,
            seen: Vec::new(),
            total_rows: 0,
            apply_all_rows: 0,
            skip_rows: 0,
        };
        assert(v.state().seen =~= Seq::<Seq<char>>::empty());
        Ok(v)
    }

    fn was_seen(&self, id: &String) -> (r: bool)
        ensures
            r == self.state().seen.contains(id@),
    {
        let mut i: usize = 0;
        while i < self.seen.len()
            invariant
                i <= self.seen@.len(),
                forall|j: int| 0 <= j < i ==> #[trigger] self.seen@[j]@ != id@,
            decreases self.seen.len() - i,
        {
            if self.seen[i].eq(id) {
                assert(self.state().seen[i as int] == id@);
                return true;
            }
            i = i + 1;
        }
        assert forall|j: int| 0 <= j < self.state().seen.len() implies #[trigger] self.state().seen[j]
            != id@ by {
            assert(self.state().seen[j] == self.seen@[j]@);
        }
        false
    }

    fn find_expected(&self, id: &String) -> (r: Option<usize>)
        ensures
            match expected_row(self.expected_rows(), id@) {
                None => r is None,
                Some(e) => r matches Some(k) && k < self.expected@.len() && self.expected@[k as int]@
                    == e,
            },
    {
        let ghost ex = self.expected_rows();
        let mut k: usize = self.expected.len();
        assert(ex.take(k as int) =~= ex);
        while k > 0
            invariant
                k <= self.expected@.len(),
                ex == self.expected_rows(),
                expected_row(ex, id@) == expected_row(ex.take(k as int), id@),
            decreases k,
        {
            proof {
                assert(ex.take(k as int).drop_last() =~= ex.take(k - 1));
                assert(ex.take(k as int).last() == self.expected@[k - 1]@);
            }
            if self.expected[k - 1].row_id.eq(id) {
                return Some(k - 1);
            }
            k = k - 1;
        }
        None
    }

    /// Checks one row of the edited file and counts its decision.
    pub fn accept(&mut self, row: &CsvDecisionRow) -> (r: Result<(), AppError>)
        requires
            old(self).wf(),
        ensures
            final(self).wf(),
            final(self).expected_rows() == old(self).expected_rows(),
            match spec_accept(old(self).expected_rows(), old(self).state(), row@) {
                Ok(st) => r is Ok && final(self).state() == st,
                Err(m) => r matches Err(AppError::InvalidDecisionFile(msg)) && msg@ == m,
            },
    {
        if self.was_seen(&row.row_id) {
            let mut msg = String::from_str("CSV contains duplicate row_id ");
            quote_into(&mut msg, row.row_id.as_str());
            return Err(AppError::InvalidDecisionFile(msg));
        }
        let k = match self.find_expected(&row.row_id) {
            Some(k) => k,
            None => {
                let mut msg = String::from_str("CSV contains unknown row_id ");
                quote_into(&mut msg, row.row_id.as_str());
                return Err(AppError::InvalidDecisionFile(msg));
            },
        };
        validate_immutable_fields(row, &self.expected[k])?;
        validate_decision(row)?;
        let ghost before = self.state();
        self.seen.push(row.row_id.clone());
        let n = self.seen.len();
        assert(n == self.total_rows + 1);
        match row.action {
            DecisionAction::ApplyAll => {
                self.apply_all_rows = self.apply_all_rows + 1;
            },
            DecisionAction::Skip => {
                self.skip_rows = self.skip_rows + 1;
            },
        }
        self.total_rows = n;
        assert(self.state().seen =~= before.seen.push(row@.row_id));
        Ok(())
    }

    fn unseen_ids(&self, limit: usize) -> (r: Vec<String>)
        requires
            self.wf(),
        ensures
            r@.map_values(|s: String| s@) == unseen(
                distinct_ids(self.expected_rows()),
                self.state().seen,
            ).take(
                if unseen(distinct_ids(self.expected_rows()), self.state().seen).len() < limit {
                    unseen(distinct_ids(self.expected_rows()), self.state().seen).len() as int
                } else {
                    limit as int
                },
            ),
    {
        let ghost d = distinct_ids(self.expected_rows());
        let ghost seen = self.state().seen;
        let mut r: Vec<String> = Vec::new();
        let mut i: usize = 0;
        assert(d.take(0) =~= Seq::<Seq<char>>::empty());
        while i < self.distinct.len() && r.len() < limit
            invariant
                self.wf(),
                d == distinct_ids(self.expected_rows()),
                seen == self.state().seen,
                i <= self.distinct@.len(),
                r@.len() <= limit,
                r@.map_values(|s: String| s@) == unseen(d.take(i as int), seen),
            decreases self.distinct.len() - i,
        {
            proof {
                assert(d.take(i + 1).drop_last() =~= d.take(i as int));
                assert(d.take(i + 1).last() == self.distinct@[i as int]@);
            }
            if !self.was_seen(&self.distinct[i]) {
                let ghost before = r@.map_values(|s: String| s@);
                r.push(self.distinct[i].clone());
                assert(r@.map_values(|s: String| s@) =~= before.push(self.distinct@[i as int]@));
            }
            i = i + 1;
        }
        proof {
            lemma_unseen_prefix(d, seen, i as int);
            if i == self.distinct.len() {
                assert(d.take(i as int) =~= d);
            }
        }
        r
    }

    /// Finishes the check: every row of the plan must have been in the file.
    pub fn finish(&self) -> (r: Result<DecisionValidationSummary, AppError>)
        requires
            self.wf(),
        ensures
            match spec_finish(self.expected_rows(), self.state()) {
                Ok((t, a, s)) => r matches Ok(summary) && summary.total_rows == t
                    && summary.apply_all_rows == a && summary.skip_rows == s,
                Err(m) => r matches Err(AppError::InvalidDecisionFile(msg)) && msg@ == m,
            },
    {
        if self.total_rows != self.distinct.len() {
            let missing = self.unseen_ids(10);
            let mut msg = String::from_str("CSV contains ");
            push_decimal(&mut msg, self.total_rows as u64);
            msg.append(" rows, but plan expects ");
            push_decimal(&mut msg, self.distinct.len() as u64);
            msg.append("; missing rows include: ");
            let joined = join_texts(&missing, ", ");
            msg.append(joined.as_str());
            return Err(AppError::InvalidDecisionFile(msg));
        }
        Ok(
            DecisionValidationSummary {
                total_rows: self.total_rows,
                apply_all_rows: self.apply_all_rows,
                skip_rows: self.skip_rows,
            },
        )
    }
}

proof fn lemma_unseen_prefix(d: Seq<Seq<char>>, seen: Seq<Seq<char>>, i: int)
    requires
        0 <= i <= d.len(),
    ensures
        unseen(d.take(i), seen).len() <= unseen(d, seen).len(),
        unseen(d.take(i), seen) == unseen(d, seen).take(unseen(d.take(i), seen).len() as int),
    decreases d.len() - i,
{
    if i == d.len() {
        assert(d.take(i) =~= d);
        assert(unseen(d, seen).take(unseen(d, seen).len() as int) =~= unseen(d, seen));
    } else {
        lemma_unseen_prefix(d, seen, i + 1);
        assert(d.take(i + 1).drop_last() =~= d.take(i));
        let a = unseen(d.take(i), seen);
        let b = unseen(d.take(i + 1), seen);
        let full = unseen(d, seen);
        if !seen.contains(d[i]) {
            assert(b == a.push(d[i]));
            assert(full.take(a.len() as int) =~= b.take(a.len() as int));
            assert(b.take(a.len() as int) =~= a);
        }
    }
}

fn distinct_row_ids(rows: &Vec<CsvDecisionRow>) -> (r: Vec<String>)
    ensures
        r@.map_values(|s: String| s@) == distinct_ids(rows_view(rows@)),
{
    let ghost rs = rows_view(rows@);
    let mut r: Vec<String> = Vec::new();
    let mut i: usize = 0;
    assert(rs.take(0) =~= Seq::<CsvRowView>::empty());
    while i < rows.len()
        invariant
            i <= rows@.len(),
            rs == rows_view(rows@),
            r@.map_values(|s: String| s@) == distinct_ids(rs.take(i as int)),
        decreases rows.len() - i,
    {
        let ghost before = r@.map_values(|s: String| s@);
        proof {
            assert(rs.take(i + 1).drop_last() =~= rs.take(i as int));
            assert(rs.take(i + 1).last() == rows@[i as int]@);
        }
        let mut j: usize = 0;
        let mut found = false;
        while j < r.len()
            invariant
                j <= r@.len(),
                i < rows@.len(),
                before == r@.map_values(|s: String| s@),
                found == exists|k: int| 0 <= k < j && before[k] == rows@[i as int].row_id@,
            decreases r.len() - j,
        {
            let same = r[j].eq(&rows[i].row_id);
            assert(before[j as int] == r@[j as int]@);
            if same {
                found = true;
            }
            j = j + 1;
        }
        if !found {
            r.push(rows[i].row_id.clone());
            assert(r@.map_values(|s: String| s@) =~= before.push(rows@[i as int].row_id@));
        }
        i = i + 1;
    }
    assert(rs.take(rows@.len() as int) =~= rs);
    r
}

fn join_texts(parts: &Vec<String>, sep: &str) -> (s: String)
    ensures
        s@ == join_text(parts@.map_values(|p: String| p@), sep@),
{
    let ghost ps = parts@.map_values(|p: String| p@);
    let mut s = String::new();
    let mut i: usize = 0;
    while i < parts.len()
        invariant
            i <= parts@.len(),
            ps == parts@.map_values(|p: String| p@),
            s@ == join_text(ps.take(i as int), sep@),
        decreases parts.len() - i,
    {
        if i > 0 {
            s.append(sep);
        }
        s.append(parts[i].as_str());
        proof {
            assert(ps.take(i + 1) =~= ps.take(i as int).push(ps[i as int]));
            crate::text::lemma_join_push(ps.take(i as int), sep@, ps[i as int]);
        }
        i = i + 1;
    }
    assert(ps.take(parts@.len() as int) =~= ps);
    s
}

// ---------------------------------------------------------------------------
// The decision file of a plan validates against the plan
// ---------------------------------------------------------------------------

/// Accepting the rows in order, stopping at the first problem.
pub open spec fn accept_all(expected: Seq<CsvRowView>, st: ValidationState, rows: Seq<CsvRowView>) -> Result<
    ValidationState,
    Seq<char>,
>
    decreases rows.len(),
{
    if rows.len() == 0 {
        Ok(st)
    } else {
        match accept_all(expected, st, rows.drop_last()) {
            Ok(s) => spec_accept(expected, s, rows.last()),
            Err(m) => Err(m),
        }
    }
}

/// The state before any row was accepted.
pub open spec fn initial_state() -> ValidationState {
    ValidationState { seen: Seq::empty(), total_rows: 0, apply_all_rows: 0, skip_rows: 0 }
}

/// Checking a whole decision file against a plan, as `DecisionValidator`
/// does row by row: the counts, or the first problem.
pub open spec fn spec_validate_decisions(plan: MigrationPlan, rows: Seq<CsvRowView>) -> Result<
    (nat, nat, nat),
    Seq<char>,
> {
    if plan.schema_version != crate::plan::models::PLAN_SCHEMA_VERSION {
        Err(schema_message(plan.schema_version))
    } else {
        match accept_all(plan_rows(plan), initial_state(), rows) {
            Ok(st) => spec_finish(plan_rows(plan), st),
            Err(m) => Err(m),
        }
    }
}

/// No two rows share an id.
pub open spec fn distinct_row_ids_in(rows: Seq<CsvRowView>) -> bool {
    forall|i: int, j: int| 0 <= i < j < rows.len() ==> rows[i].row_id != rows[j].row_id
}

/// Every proposed operation that is already up to date is skipped by default.
pub open spec fn default_actions_consistent(plan: MigrationPlan) -> bool {
    forall|i: int|
        0 <= i < plan.operations@.len() && (#[trigger] plan.operations@[i]).class
            == crate::matching::models::TargetActionClass::AlreadyUpToDate ==> plan.operations@[i].default_action
            == DecisionAction::Skip
}

proof fn lemma_sort_members(s: Seq<CsvRowView>)
    ensures
        forall|i: int|
            0 <= i < sort_rows(s).len() ==> exists|j: int|
                0 <= j < s.len() && #[trigger] sort_rows(s)[i] == s[j],
    decreases s.len(),
{
    law_rows_sorted(s);
    if s.len() > 0 {
        let prev = s.drop_last();
        lemma_sort_members(prev);
        law_rows_sorted(prev);
        let sorted = sort_rows(prev);
        lemma_insert_position(sorted, s.last().row_id);
        let p = insert_position(sorted, s.last().row_id);
        assert forall|i: int| 0 <= i < sort_rows(s).len() implies exists|j: int|
            0 <= j < s.len() && #[trigger] sort_rows(s)[i] == s[j] by {
            if i < p {
                assert(sort_rows(s)[i] == sorted[i]);
                let j = choose|j: int| 0 <= j < prev.len() && sorted[i] == prev[j];
                assert(prev[j] == s[j]);
            } else if i == p {
                assert(sort_rows(s)[i] == s[s.len() - 1]);
            } else {
                assert(sort_rows(s)[i] == sorted[i - 1]);
                let j = choose|j: int| 0 <= j < prev.len() && sorted[i - 1] == prev[j];
                assert(prev[j] == s[j]);
            }
        }
    }
}

proof fn lemma_issue_members(cov: Seq<SourceCorrelation>)
    ensures
        forall|i: int|
            0 <= i < issue_rows(cov).len() ==> exists|j: int|
                0 <= j < cov.len() && cov[j].class != SourceCoverageClass::ExactMatch
                    && #[trigger] issue_rows(cov)[i] == coverage_row(cov[j]),
    decreases cov.len(),
{
    if cov.len() > 0 {
        let prev = cov.drop_last();
        lemma_issue_members(prev);
        assert forall|i: int| 0 <= i < issue_rows(cov).len() implies exists|j: int|
            0 <= j < cov.len() && cov[j].class != SourceCoverageClass::ExactMatch
                && #[trigger] issue_rows(cov)[i] == coverage_row(cov[j]) by {
            if i < issue_rows(prev).len() {
                assert(issue_rows(cov)[i] == issue_rows(prev)[i]);
                let j = choose|j: int|
                    0 <= j < prev.len() && prev[j].class != SourceCoverageClass::ExactMatch
                        && issue_rows(prev)[i] == coverage_row(prev[j]);
                assert(prev[j] == cov[j]);
            } else {
                assert(issue_rows(cov)[i] == coverage_row(cov[cov.len() - 1]));
            }
        }
    }
}

proof fn lemma_plan_row_has_no_problem(plan: MigrationPlan, row: CsvRowView)
    requires
        default_actions_consistent(plan),
        exists|j: int| 0 <= j < unsorted_rows(plan).len() && row == unsorted_rows(plan)[j],
    ensures
        decision_problem(row) is None,
{
    let u = unsorted_rows(plan);
    let j = choose|j: int| 0 <= j < u.len() && row == u[j];
    let ops = plan.operations@;
    if j < ops.len() {
        let op = ops[j];
        assert(row == operation_row(op));
        reveal_strlit("AlreadyUpToDate");
        reveal_strlit("ReadyToApply");
        reveal_strlit("StatusConflict");
        if op.class != crate::matching::models::TargetActionClass::AlreadyUpToDate {
            assert(target_action_label(op.class) != "AlreadyUpToDate"@) by {
                assert(target_action_label(op.class).len() != "AlreadyUpToDate"@.len());
            }
        }
    } else {
        lemma_issue_members(plan.coverage@);
        let i = j - ops.len();
        assert(u[j] == issue_rows(plan.coverage@)[i]);
    }
}

proof fn lemma_distinct_ids_all(rows: Seq<CsvRowView>)
    requires
        distinct_row_ids_in(rows),
    ensures
        distinct_ids(rows) == rows.map_values(|r: CsvRowView| r.row_id),
    decreases rows.len(),
{
    if rows.len() > 0 {
        let prev = rows.drop_last();
        lemma_distinct_ids_all(prev);
        let ids = prev.map_values(|r: CsvRowView| r.row_id);
        if ids.contains(rows.last().row_id) {
            let k = choose|k: int| 0 <= k < ids.len() && ids[k] == rows.last().row_id;
            assert(rows[k].row_id == rows[rows.len() - 1].row_id);
        }
        assert(rows.map_values(|r: CsvRowView| r.row_id) =~= ids.push(rows.last().row_id));
    } else {
        assert(rows.map_values(|r: CsvRowView| r.row_id) =~= Seq::<Seq<char>>::empty());
    }
}

proof fn lemma_expected_row_distinct(rows: Seq<CsvRowView>, k: int)
    requires
        distinct_row_ids_in(rows),
        0 <= k < rows.len(),
    ensures
        expected_row(rows, rows[k].row_id) == Some(rows[k]),
    decreases rows.len(),
{
    if k < rows.len() - 1 {
        assert(rows[rows.len() - 1].row_id != rows[k].row_id);
        let prev = rows.drop_last();
        assert(prev[k] == rows[k]);
        lemma_expected_row_distinct(prev, k);
    }
}

/// The decision file written for a plan, left as it is, passes validation
/// against that plan: every row is accepted and the counts are the number
/// of rows. This holds when the plan's rows have distinct ids and every
/// operation that is already up to date is skipped by default (as the plan
/// builder makes it).
pub proof fn law_unedited_decisions_validate(plan: MigrationPlan)
    requires
        plan.schema_version == crate::plan::models::PLAN_SCHEMA_VERSION,
        distinct_row_ids_in(plan_rows(plan)),
        default_actions_consistent(plan),
    ensures
        spec_validate_decisions(plan, plan_rows(plan)) matches Ok(counts) && counts.0
            == plan_rows(plan).len(),
{
    let ex = plan_rows(plan);
    lemma_sort_members(unsorted_rows(plan));
    lemma_prefix_accepted(plan, ex.len() as int);
    lemma_distinct_ids_all(ex);
    assert(ex.take(ex.len() as int) =~= ex);
}

proof fn lemma_prefix_accepted(plan: MigrationPlan, k: int)
    requires
        0 <= k <= plan_rows(plan).len(),
        distinct_row_ids_in(plan_rows(plan)),
        default_actions_consistent(plan),
        forall|i: int|
            0 <= i < plan_rows(plan).len() ==> exists|j: int|
                0 <= j < unsorted_rows(plan).len() && #[trigger] plan_rows(plan)[i]
                    == unsorted_rows(plan)[j],
    ensures
        accept_all(plan_rows(plan), initial_state(), plan_rows(plan).take(k)) is Ok,
        accept_all(plan_rows(plan), initial_state(), plan_rows(plan).take(k))->Ok_0.seen
            == plan_rows(plan).take(k).map_values(|r: CsvRowView| r.row_id),
        accept_all(plan_rows(plan), initial_state(), plan_rows(plan).take(k))->Ok_0.total_rows == k,
    decreases k,
{
    let ex = plan_rows(plan);
    if k == 0 {
        assert(ex.take(0).map_values(|r: CsvRowView| r.row_id) =~= Seq::<Seq<char>>::empty());
    } else {
        lemma_prefix_accepted(plan, k - 1);
        assert(ex.take(k).drop_last() =~= ex.take(k - 1));
        let st = accept_all(ex, initial_state(), ex.take(k - 1))->Ok_0;
        let row = ex[k - 1];
        assert(ex.take(k).last() == row);
        if st.seen.contains(row.row_id) {
            let m = choose|m: int| 0 <= m < st.seen.len() && st.seen[m] == row.row_id;
            assert(ex.take(k - 1)[m] == ex[m]);
        }
        lemma_expected_row_distinct(ex, k - 1);
        lemma_plan_row_has_no_problem(plan, row);
        assert(ex.take(k).map_values(|r: CsvRowView| r.row_id) =~= st.seen.push(row.row_id));
    }
}

} // verus!

verus! {

/// What an approved operation names.
pub struct ApprovedView {
    pub row_id: Seq<char>,
    pub source_finding_id: u64,
    pub target_product_id: u64,
    pub target_finding_id: u64,
}

impl View for ApprovedOperation {
    type V = ApprovedView;

    open spec fn view(&self) -> ApprovedView {
        ApprovedView {
            row_id: self.row_id@,
            source_finding_id: self.source_finding_id,
            target_product_id: self.target_product_id,
            target_finding_id: self.target_finding_id,
        }
    }
}

/// The target that a row approves: the row's own target for a target
/// operation, the selected candidate for a source issue; none unless the
/// row's action applies.
pub open spec fn approved_target(row: CsvRowView) -> Option<u64> {
    if row.action != DecisionAction::ApplyAll {
        None
    } else {
        match row.row_type {
            CsvRowType::TargetOperation => row.target_finding_id,
            CsvRowType::SourceIssue => row.selected_target_id,
        }
    }
}

/// The operations that a decision file approves, in the order of its rows.
pub open spec fn spec_approved(rows: Seq<CsvRowView>) -> Seq<ApprovedView>
    decreases rows.len(),
{
    if rows.len() == 0 {
        Seq::empty()
    } else {
        let prev = spec_approved(rows.drop_last());
        let row = rows.last();
        match approved_target(row) {
            Some(t) => prev.push(
                ApprovedView {
                    row_id: row.row_id,
                    source_finding_id: row.source_finding_id,
                    target_product_id: row.target_product_id,
                    target_finding_id: t,
                },
            ),
            None => prev,
        }
    }
}

/// The operations that the rows of a (validated) decision file approve.
pub fn approved_operations(rows: &Vec<CsvDecisionRow>) -> (r: Vec<ApprovedOperation>)
    ensures
        r@.map_values(|a: ApprovedOperation| a@) == spec_approved(rows_view(rows@)),
{
    let ghost rs = rows_view(rows@);
    let mut r: Vec<ApprovedOperation> = Vec::new();
    let mut i: usize = 0;
    while i < rows.len()
        invariant
            i <= rows@.len(),
            rs == rows_view(rows@),
            r@.map_values(|a: ApprovedOperation| a@) == spec_approved(rs.take(i as int)),
        decreases rows.len() - i,
    {
        let row = &rows[i];
        proof {
            assert(rs.take(i + 1).drop_last() =~= rs.take(i as int));
            assert(rs.take(i + 1).last() == row@);
        }
        let target = match row.action {
            DecisionAction::Skip => None,
            DecisionAction::ApplyAll => match row.row_type {
                CsvRowType::TargetOperation => row.target_finding_id,
                CsvRowType::SourceIssue => row.selected_target_id,
            },
        };
        let ghost before = r@.map_values(|a: ApprovedOperation| a@);
        if let Some(t) = target {
            r.push(
                ApprovedOperation {
                    row_id: row.row_id.clone(),
                    source_finding_id: row.source_finding_id,
                    target_product_id: row.target_product_id,
                    target_finding_id: t,
                },
            );
            assert(r@.map_values(|a: ApprovedOperation| a@) =~= before.push(
                ApprovedView {
                    row_id: row.row_id@,
                    source_finding_id: row.source_finding_id,
                    target_product_id: row.target_product_id,
                    target_finding_id: t,
                },
            ));
        }
        i = i + 1;
    }
    assert(rs.take(rows@.len() as int) =~= rs);
    r
}

} // verus!

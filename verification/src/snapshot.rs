//! The persisted workspace snapshot and the checks a reopened session must
//! pass before any of it is applied.

use std::collections::BTreeSet;

use vstd::prelude::*;

use crate::ordered::{contains_pair, insert_key, insert_pair, new_pair_set};
use crate::projection::{composition_fault_message, parameters_in_domain, ProjectionComposition};
use crate::session::{
    cohort_fault_message, cohort_verdict, range_fault_message, ranges_verdict, validate_cohort,
    validate_ranges, StoredCohort, StoredContourMode, StoredFindingDisposition, StoredRange,
    StoredRenderStyle, StoredResonanceMetric, StoredView, StoredWorkbenchMode, StoredXorBranch,
    MAX_STORED_BRANCHES, MAX_STORED_DISPOSITIONS, POC_WORKSPACE_VERSION,
};
use crate::text::{
    contains_char, contains_text, contains_text_spec, decimal_digits, is_blank, is_blank_text,
    push_decimal, utf8_len, utf8_len_exceeds,
};

verus! {

/// Longest stored branch label, in UTF-8 bytes.
pub const MAX_BRANCH_LABEL_BYTES: usize = 256;

/// Persisted projection controls with exact integer domains. The
/// floating-point controls are range-checked where they are held, and the
/// verdict arrives as [`FloatControlChecks`].
#[derive(Clone, Copy, Debug)]
pub struct StoredProjectionState {
    pub composition: Option<ProjectionComposition>,
    pub stride: usize,
    pub point_budget: usize,
    pub render_style: StoredRenderStyle,
    pub contour_mode: StoredContourMode,
    pub spin: bool,
    pub auto_morph: bool,
}

/// Verdicts on the floating-point controls that travel with a snapshot:
/// whether the composition's morph fraction is finite and within `0..=1`,
/// and whether every floating-point projection control is finite and within
/// its documented range.
#[derive(Clone, Copy, Debug, PartialEq, Eq, Structural)]
pub struct FloatControlChecks {
    pub composition_mix_in_domain: bool,
    pub projection_controls_in_domain: bool,
}

/// Source-free workspace intent as it is saved and reopened.
#[derive(Clone, Debug)]
pub struct PocWorkspaceSnapshot {
    pub version: u32,
    pub source_generation: u64,
    pub active_view: StoredView,
    pub workbench_mode: StoredWorkbenchMode,
    pub exact_selection: Vec<StoredRange>,
    pub selected_lead: Option<u64>,
    pub selected_region: Option<u128>,
    pub selected_comparison: Option<u128>,
    pub finding_dispositions: Vec<StoredFindingDisposition>,
    pub branches: Vec<StoredXorBranch>,
    pub selected_branch: Option<[u64; 2]>,
    pub branch_key: u8,
    pub cohort: Option<StoredCohort>,
    pub atlas_width: usize,
    pub digram_stride: usize,
    pub interleave_width: usize,
    pub interleave_stride: usize,
    pub interleave_lane: usize,
    pub bit_plane: u8,
    pub diff_width: usize,
    pub resonance_metric: StoredResonanceMetric,
    pub resonance_base_window: usize,
    pub resonance_stride: usize,
    pub resonance_sample_budget: usize,
    pub projection: StoredProjectionState,
}

/// Two dispositions name the same lead.
pub open spec fn has_duplicate_disposition(ds: Seq<StoredFindingDisposition>) -> bool {
    exists|i: int, j: int| 0 <= i < j < ds.len() && (#[trigger] ds[i]).lead_id == (#[trigger] ds[j]).lead_id
}

/// A branch label that is blank, longer than the byte limit, or looks like
/// a path or a URL.
pub open spec fn branch_label_refused(label: Seq<char>) -> bool {
    ||| is_blank(label)
    ||| utf8_len(label) > MAX_BRANCH_LABEL_BYTES
    ||| label.contains('/')
    ||| label.contains('\\')
    ||| contains_text_spec(label, "://"@)
}

proof fn lemma_first_branch_fault_stays(bs: Seq<StoredXorBranch>, source_length: u64, n: int, m: int)
    requires
        0 <= n <= m,
        first_branch_fault(bs, source_length, n) is Some,
    ensures
        first_branch_fault(bs, source_length, m) == first_branch_fault(bs, source_length, n),
    decreases m - n,
{
    if m > n {
        lemma_first_branch_fault_stays(bs, source_length, n, m - 1);
    }
}

/// Two branch identifiers are equal.
pub open spec fn same_branch_id(a: [u64; 2], b: [u64; 2]) -> bool {
    a[0] == b[0] && a[1] == b[1]
}

/// What is wrong with branch `i`, checked in order: its range, its label,
/// then whether an earlier branch has its identifier.
pub open spec fn branch_fault_at(bs: Seq<StoredXorBranch>, source_length: u64, i: int) -> Option<
    Seq<char>,
> {
    let branch = bs[i];
    let verdict = ranges_verdict(seq![branch.range], source_length);
    if verdict is Some {
        Some(range_fault_message(verdict->0, "branch"@))
    } else if branch_label_refused(branch.label@) {
        Some("stored branch label is empty, oversized, or locator-like"@)
    } else if exists|k: int| 0 <= k < i && same_branch_id(#[trigger] bs[k].id, branch.id) {
        Some("duplicate stored branch"@)
    } else {
        None
    }
}

/// The first fault among the first `n` branches.
pub open spec fn first_branch_fault(bs: Seq<StoredXorBranch>, source_length: u64, n: int) -> Option<
    Seq<char>,
>
    decreases n,
{
    if n <= 0 {
        None
    } else {
        match first_branch_fault(bs, source_length, n - 1) {
            Some(message) => Some(message),
            None => branch_fault_at(bs, source_length, n - 1),
        }
    }
}

/// Whether a branch with this identifier is stored.
pub open spec fn branch_listed(bs: Seq<StoredXorBranch>, id: [u64; 2]) -> bool {
    exists|k: int| 0 <= k < bs.len() && same_branch_id(#[trigger] bs[k].id, id)
}

/// A view control outside its exact domain.
pub open spec fn view_controls_refused(s: PocWorkspaceSnapshot) -> bool {
    ||| s.atlas_width == 0
    ||| s.digram_stride == 0
    ||| s.interleave_width == 0
    ||| s.interleave_stride == 0
    ||| s.interleave_lane >= s.interleave_stride
    ||| s.bit_plane > 7
    ||| s.diff_width == 0
    ||| s.resonance_base_window == 0
    ||| s.resonance_stride == 0
    ||| s.resonance_sample_budget == 0
}

/// What is wrong with a stored cohort, if one is stored: its own checks,
/// then whether its ranges equal the exact selection.
pub open spec fn cohort_fault(
    cohort: Option<StoredCohort>,
    selection: Seq<StoredRange>,
    source_length: u64,
) -> Option<Seq<char>> {
    match cohort {
        None => None,
        Some(c) => {
            let verdict = cohort_verdict(c.members@, c.member_ranges@, c.exact_ranges@, source_length);
            if verdict is Some {
                Some(cohort_fault_message(verdict->0))
            } else if c.exact_ranges@ != selection {
                Some("cohort ranges must equal the exact session selection"@)
            } else {
                None
            }
        },
    }
}

/// Why a snapshot is refused for a source of `source_length` bytes, as its
/// message, checked in this order; `None` when it is accepted.
pub open spec fn snapshot_fault(
    s: PocWorkspaceSnapshot,
    source_length: u64,
    checks: FloatControlChecks,
) -> Option<Seq<char>> {
    let bs = s.branches@;
    if s.version != POC_WORKSPACE_VERSION {
        Some("unsupported POC workspace version "@ + decimal_digits(s.version as nat))
    } else if ranges_verdict(s.exact_selection@, source_length) is Some {
        Some(range_fault_message(ranges_verdict(s.exact_selection@, source_length)->0, "selection"@))
    } else if s.finding_dispositions.len() > MAX_STORED_DISPOSITIONS {
        Some("too many stored finding dispositions"@)
    } else if has_duplicate_disposition(s.finding_dispositions@) {
        Some("duplicate stored finding disposition"@)
    } else if bs.len() > MAX_STORED_BRANCHES {
        Some("too many stored branches"@)
    } else if first_branch_fault(bs, source_length, bs.len() as int) is Some {
        first_branch_fault(bs, source_length, bs.len() as int)
    } else if s.selected_branch matches Some(selected) && !branch_listed(bs, selected) {
        Some("selected branch is absent from stored branches"@)
    } else if cohort_fault(s.cohort, s.exact_selection@, source_length) is Some {
        cohort_fault(s.cohort, s.exact_selection@, source_length)
    } else if view_controls_refused(s) {
        Some("stored view controls are outside their exact domains"@)
    } else if s.projection.composition matches Some(composition) && !(checks.composition_mix_in_domain
        && parameters_in_domain(composition.parameters)) {
        Some(composition_fault_message())
    } else if s.projection.stride == 0 || !(3 <= s.projection.point_budget <= 250_000)
        || !checks.projection_controls_in_domain {
        Some("stored projection controls are outside their bounded domains"@)
    } else {
        None
    }
}

fn same_ranges(a: &Vec<StoredRange>, b: &Vec<StoredRange>) -> (same: bool)
    ensures
        same == (a@ == b@),
{
    if a.len() != b.len() {
        return false;
    }
    let mut index: usize = 0;
    while index < a.len()
        invariant
            index <= a.len() == b.len(),
            forall|i: int| 0 <= i < index ==> a@[i] == b@[i],
        decreases a.len() - index,
    {
        if a[index] != b[index] {
            return false;
        }
        index = index + 1;
    }
    assert(a@ =~= b@);
    true
}

fn branch_label_is_refused(label: &str) -> (refused: bool)
    ensures
        refused == branch_label_refused(label@),
{
    is_blank_text(label) || utf8_len_exceeds(label, MAX_BRANCH_LABEL_BYTES) || contains_char(
        label,
        '/',
    ) || contains_char(label, '\\') || contains_text(label, "://")
}

fn check_dispositions(ds: &Vec<StoredFindingDisposition>) -> (duplicate: bool)
    ensures
        duplicate == has_duplicate_disposition(ds@),
{
    let mut seen: BTreeSet<u64> = BTreeSet::new();
    let mut index: usize = 0;
    while index < ds.len()
        invariant
            index <= ds.len(),
            forall|id: u64| #[trigger] seen@.contains(id) <==> exists|k: int| 0 <= k < index && ds@[k].lead_id == id,
            !has_duplicate_disposition(ds@.take(index as int)),
        decreases ds.len() - index,
    {
        let id = ds[index].lead_id;
        if !insert_key(&mut seen, id) {
            assert(has_duplicate_disposition(ds@)) by {
                let k = choose|k: int| 0 <= k < index && ds@[k].lead_id == id;
                assert(ds@[k].lead_id == ds@[index as int].lead_id);
            }
            return true;
        }
        index = index + 1;
        assert(!has_duplicate_disposition(ds@.take(index as int))) by {
            let t = ds@.take(index as int);
            if has_duplicate_disposition(t) {
                let (i, j) = choose|i: int, j: int| 0 <= i < j < t.len() && (#[trigger] t[i]).lead_id == (#[trigger] t[j]).lead_id;
                if j < index - 1 {
                    assert(ds@.take(index - 1)[i] == t[i] && ds@.take(index - 1)[j] == t[j]);
                } else {
                    assert(seen@.contains(id) || true);
                    assert(exists|k: int| 0 <= k < index - 1 && ds@[k].lead_id == id) by {
                        assert(ds@[i].lead_id == id);
                    }
                }
            }
        }
    }
    assert(ds@.take(ds.len() as int) =~= ds@);
    false
}

impl PocWorkspaceSnapshot {
    /// Checks, in order: the version; the exact selection; the number and
    /// distinctness of dispositions; the number of branches and each
    /// branch's range, label and identifier; that a selected branch is
    /// stored; the cohort and that its ranges equal the selection; the view
    /// controls; and the projection controls, with `checks` giving the
    /// verdicts on the floating-point ones.
    pub fn validate(&self, source_length: u64, checks: FloatControlChecks) -> (result: Result<
        (),
        String,
    >)
        ensures
            result is Ok <==> snapshot_fault(*self, source_length, checks) is None,
            result matches Err(message) ==> snapshot_fault(*self, source_length, checks) == Some(
                message@,
            ),
    {
        if self.version != POC_WORKSPACE_VERSION {
            let mut message = "unsupported POC workspace version ".to_owned();
            push_decimal(&mut message, self.version as u64);
            return Err(message);
        }
        match validate_ranges(self.exact_selection.as_slice(), source_length, "selection") {
            Ok(()) => {},
            Err(message) => return Err(message),
        }
        if self.finding_dispositions.len() > MAX_STORED_DISPOSITIONS {
            return Err("too many stored finding dispositions".to_owned());
        }
        if check_dispositions(&self.finding_dispositions) {
            return Err("duplicate stored finding disposition".to_owned());
        }
        if self.branches.len() > MAX_STORED_BRANCHES {
            return Err("too many stored branches".to_owned());
        }
        let ghost bs = self.branches@;
        let mut branch_ids = new_pair_set();
        let mut index: usize = 0;
        while index < self.branches.len()
            invariant
                bs == self.branches@,
                self.version == POC_WORKSPACE_VERSION,
                ranges_verdict(self.exact_selection@, source_length) is None,
                self.finding_dispositions.len() <= MAX_STORED_DISPOSITIONS,
                !has_duplicate_disposition(self.finding_dispositions@),
                bs.len() <= MAX_STORED_BRANCHES,
                index <= self.branches.len(),
                first_branch_fault(bs, source_length, index as int) is None,
                forall|id: (u64, u64)| #[trigger] branch_ids@.contains(id) <==> exists|k: int|
                    0 <= k < index && same_branch_id(#[trigger] bs[k].id, [id.0, id.1]),
            decreases self.branches.len() - index,
        {
            let branch = &self.branches[index];
            let mut single: Vec<StoredRange> = Vec::new();
            single.push(branch.range);
            assert(single@ =~= seq![bs[index as int].range]);
            match validate_ranges(single.as_slice(), source_length, "branch") {
                Ok(()) => {},
                Err(message) => {
                    proof {
                        lemma_first_branch_fault_stays(bs, source_length, index + 1, bs.len() as int);
                    }
                    return Err(message);
                },
            }
            if branch_label_is_refused(branch.label.as_str()) {
                proof {
                    lemma_first_branch_fault_stays(bs, source_length, index + 1, bs.len() as int);
                }
                return Err("stored branch label is empty, oversized, or locator-like".to_owned());
            }
            let key = (branch.id[0], branch.id[1]);
            if !insert_pair(&mut branch_ids, key) {
                assert(exists|k: int| 0 <= k < index && same_branch_id(#[trigger] bs[k].id, bs[index as int].id)) by {
                    assert(exists|k: int| 0 <= k < index && same_branch_id(#[trigger] bs[k].id, [key.0, key.1]));
                }
                proof {
                    lemma_first_branch_fault_stays(bs, source_length, index + 1, bs.len() as int);
                }
                return Err("duplicate stored branch".to_owned());
            }
            proof {
                assert(!(exists|k: int| 0 <= k < index && same_branch_id(#[trigger] bs[k].id, bs[index as int].id))) by {
                    if exists|k: int| 0 <= k < index && same_branch_id(#[trigger] bs[k].id, bs[index as int].id) {
                        let k = choose|k: int| 0 <= k < index && same_branch_id(#[trigger] bs[k].id, bs[index as int].id);
                        assert(same_branch_id(bs[k].id, [key.0, key.1]));
                    }
                }
            }
            index = index + 1;
            assert forall|id: (u64, u64)| #[trigger] branch_ids@.contains(id) <==> exists|k: int|
                0 <= k < index && same_branch_id(#[trigger] bs[k].id, [id.0, id.1]) by {
                if id == key {
                    assert(same_branch_id(bs[index - 1].id, [id.0, id.1]));
                }
                if exists|k: int| 0 <= k < index && same_branch_id(#[trigger] bs[k].id, [id.0, id.1]) {
                    let k = choose|k: int| 0 <= k < index && same_branch_id(#[trigger] bs[k].id, [id.0, id.1]);
                    if k < index - 1 {
                        assert(exists|k2: int| 0 <= k2 < index - 1 && same_branch_id(#[trigger] bs[k2].id, [id.0, id.1]));
                    } else {
                        assert(id == key);
                    }
                }
            }
        }
        match self.selected_branch {
            Some(selected) => {
                if !contains_pair(&branch_ids, (selected[0], selected[1])) {
                    assert(!branch_listed(bs, selected)) by {
                        if branch_listed(bs, selected) {
                            let k = choose|k: int| 0 <= k < bs.len() && same_branch_id(#[trigger] bs[k].id, selected);
                            assert(same_branch_id(bs[k].id, [selected[0], selected[1]]));
                        }
                    }
                    return Err("selected branch is absent from stored branches".to_owned());
                }
                assert(branch_listed(bs, selected)) by {
                    let k = choose|k: int| 0 <= k < bs.len() && same_branch_id(#[trigger] bs[k].id, [selected[0], selected[1]]);
                    assert(same_branch_id(bs[k].id, selected));
                }
            },
            None => {},
        }
        match &self.cohort {
            Some(cohort) => {
                match validate_cohort(cohort, source_length) {
                    Ok(()) => {},
                    Err(message) => return Err(message),
                }
                if !same_ranges(&cohort.exact_ranges, &self.exact_selection) {
                    return Err("cohort ranges must equal the exact session selection".to_owned());
                }
            },
            None => {},
        }
        if self.atlas_width == 0 || self.digram_stride == 0 || self.interleave_width == 0
            || self.interleave_stride == 0 || self.interleave_lane >= self.interleave_stride
            || self.bit_plane > 7 || self.diff_width == 0 || self.resonance_base_window == 0
            || self.resonance_stride == 0 || self.resonance_sample_budget == 0 {
            return Err("stored view controls are outside their exact domains".to_owned());
        }
        match self.projection.composition {
            Some(composition) => {
                match composition.validate(checks.composition_mix_in_domain) {
                    Ok(()) => {},
                    Err(message) => return Err(message.to_owned()),
                }
            },
            None => {},
        }
        let projection = &self.projection;
        if projection.stride == 0 || !(3 <= projection.point_budget && projection.point_budget
            <= 250_000) || !checks.projection_controls_in_domain {
            return Err("stored projection controls are outside their bounded domains".to_owned());
        }
        Ok(())
    }
}

} // verus!

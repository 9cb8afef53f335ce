//! Discovery leads and what the workbench derives from them: priorities,
//! stable identifiers, exact provenance, titles and statements, and the
//! investigation and region models built from a list of leads.

use vstd::prelude::*;

use std::collections::BTreeSet;

use crate::ranges::{sort_pairs, sorted_pairs, ByteRange};
use crate::ordered::{ascending_offsets, insert_offset};
use crate::text::{
    ascii_upper_seq, decimal_digits, hex_padded, push_decimal, push_hex, push_str, to_ascii_uppercase,
};

verus! {

/// What kind of pattern the analyzer reported.
#[derive(Clone, Copy, Debug, PartialEq, Eq, Structural)]
pub enum WorkbenchLeadKind {
    EntropyBoundary,
    ExactRepeat,
    Periodicity,
    EmbeddedSignature,
    TransformCandidate,
    CatalogSignature,
}

/// Stable identifier of a lead.
#[derive(Clone, Copy, Debug, PartialEq, Eq, Structural)]
pub struct WorkbenchLeadId(pub u64);

/// A reversible byte transform.
#[derive(Clone, Copy, Debug, PartialEq, Eq, Structural)]
pub enum ReversibleTransform {
    XorByte(u8),
}

/// How a transform changed the measured interpretation.
#[derive(Clone, Copy, Debug, PartialEq, Eq, Structural)]
pub enum TransformAssessment {
    Supported,
    Neutral,
    Contradicted,
}

/// How a catalog signature was matched.
#[derive(Clone, Copy, Debug, PartialEq, Eq, Structural)]
pub enum SignatureMatchMode {
    DeclaredOffset,
    EmbeddedSearch,
}

/// The exact facts behind a lead that the workbench reads. Measurements
/// the analyzer makes in floating point arrive already rendered as text:
/// entropies with two decimals, text likelihoods as whole percentages.
#[derive(Clone, Debug)]
pub enum WorkbenchEvidence {
    EntropyBoundary { before_entropy_bits: String, after_entropy_bits: String, entropy_delta_bits: String },
    ExactRepeat { sampled_window_step: u64, matching_byte_count: u64 },
    Periodicity { period_bytes: u64, compared_positions: u64, matching_positions: u64 },
    /// `signature` is the signature's name as the analyzer prints it.
    EmbeddedSignature { signature: String },
    TransformCandidate {
        transform: ReversibleTransform,
        source_range: ByteRange,
        before_text_likelihood_percent: String,
        after_text_likelihood_percent: String,
        assessment: TransformAssessment,
    },
    XorCorrelatedTransform {
        transform: ReversibleTransform,
        transformed_range: ByteRange,
        correlated_byte_count: u64,
        distinct_byte_count: u64,
        sampled_window_step: u64,
    },
    /// `first_candidate` is the label of the best catalog candidate, if any.
    CatalogSignature {
        first_candidate: Option<String>,
        candidate_count: u64,
        mode: SignatureMatchMode,
        exact_byte_count: u64,
        distinct_exact_byte_count: u64,
        wildcard_byte_count: u64,
    },
}

/// One analyzer lead: its identity, kind, exact source ranges and evidence.
#[derive(Clone, Debug)]
pub struct WorkbenchLead {
    pub id: WorkbenchLeadId,
    pub kind: WorkbenchLeadKind,
    pub source_ranges: Vec<ByteRange>,
    pub evidence: WorkbenchEvidence,
}

/// Identifier of an investigation finding.
#[derive(Clone, Copy, Debug, PartialEq, Eq, Structural)]
pub struct FindingId(pub u128);

/// Identifier of a correlation between findings.
#[derive(Clone, Copy, Debug, PartialEq, Eq, Structural)]
pub struct CorrelationId(pub u128);

/// Identifier of a hypothesis.
#[derive(Clone, Copy, Debug, PartialEq, Eq, Structural)]
pub struct HypothesisId(pub u128);

/// Identifier of a piece of evidence.
#[derive(Clone, Copy, Debug, PartialEq, Eq, Structural)]
pub struct EvidenceId(pub u128);

/// Identifier of a detected region.
#[derive(Clone, Copy, Debug, PartialEq, Eq, Structural)]
pub struct RegionId(pub u128);

/// Identifier of a relationship between regions.
#[derive(Clone, Copy, Debug, PartialEq, Eq, Structural)]
pub struct RegionRelationshipId(pub u128);

/// Triage state of a finding.
#[derive(Clone, Copy, Debug, PartialEq, Eq, Structural)]
pub enum FindingStatus {
    Candidate,
    Promoted,
    Dismissed,
}

/// Triage state of a hypothesis.
#[derive(Clone, Copy, Debug, PartialEq, Eq, Structural)]
pub enum HypothesisStatus {
    Draft,
    Tested,
    Supported,
    Rejected,
}

/// How strongly linked findings support each other.
#[derive(Clone, Copy, Debug, PartialEq, Eq, Structural)]
pub enum CorrelationStrength {
    Corroborated,
}

/// What a detected region is taken to be.
#[derive(Clone, Debug)]
pub enum RegionKind {
    Header,
    Table,
    Code,
    Text,
    Padding,
    Structure,
    Custom(String),
}

/// How two detected regions relate.
#[derive(Clone, Copy, Debug, PartialEq, Eq, Structural)]
pub enum RegionRelationshipKind {
    References,
    Adjacent,
    Similar,
    Repeats,
    XorEncoded,
}

/// How a range of one revision compares with the other.
#[derive(Clone, Copy, Debug, PartialEq, Eq, Structural)]
pub enum ComparisonClassification {
    Unchanged,
    Moved,
    Modified,
    New,
}

/// Exact provenance: the source, its generation, and sorted distinct ranges.
#[derive(Clone, Debug)]
pub struct ExactProvenance {
    pub source_id: u64,
    pub generation: u64,
    pub ranges: Vec<ByteRange>,
}

/// Order in which lead kinds are listed: transforms first, exact repeats
/// last.
pub open spec fn discovery_priority_spec(kind: WorkbenchLeadKind) -> u8 {
    match kind {
        WorkbenchLeadKind::TransformCandidate => 0,
        WorkbenchLeadKind::CatalogSignature => 1,
        WorkbenchLeadKind::EmbeddedSignature => 1,
        WorkbenchLeadKind::Periodicity => 2,
        WorkbenchLeadKind::EntropyBoundary => 3,
        WorkbenchLeadKind::ExactRepeat => 4,
    }
}

/// Order in which lead kinds are listed: transforms first, exact repeats
/// last.
pub fn discovery_priority(kind: WorkbenchLeadKind) -> (priority: u8)
    ensures
        priority == discovery_priority_spec(kind),
{
    match kind {
        WorkbenchLeadKind::TransformCandidate => 0,
        WorkbenchLeadKind::CatalogSignature | WorkbenchLeadKind::EmbeddedSignature => 1,
        WorkbenchLeadKind::Periodicity => 2,
        WorkbenchLeadKind::EntropyBoundary => 3,
        WorkbenchLeadKind::ExactRepeat => 4,
    }
}

/// A lead identifier widened and shifted one byte up, with `slot` in the
/// freed low byte.
pub open spec fn slotted_id(lead: WorkbenchLeadId, slot: u8) -> int {
    lead.0 * 256 + slot
}

fn slotted(lead: WorkbenchLeadId, slot: u8) -> (id: u128)
    ensures
        id == slotted_id(lead, slot),
{
    let wide = lead.0 as u128;
    let low = slot as u128;
    assert((wide << 8u128) | low == wide * 256 + low) by (bit_vector)
        requires
            wide <= 0xffff_ffff_ffff_ffffu128,
            low <= 0xffu128,
    ;
    (wide << 8u128) | low
}

/// The finding for `slot` of a lead: slot 0 is the lead itself, slot `i`
/// its `i`-th linked range.
pub fn investigation_finding_id(id: WorkbenchLeadId, slot: u8) -> (finding: FindingId)
    ensures
        finding.0 == slotted_id(id, slot),
{
    FindingId(slotted(id, slot))
}

/// The correlation that links a lead's ranges.
pub fn investigation_correlation_id(id: WorkbenchLeadId) -> (correlation: CorrelationId)
    ensures
        correlation.0 == slotted_id(id, 0x40),
{
    CorrelationId(slotted(id, 0x40))
}

/// The hypothesis drawn from a lead.
pub fn investigation_hypothesis_id(id: WorkbenchLeadId) -> (hypothesis: HypothesisId)
    ensures
        hypothesis.0 == slotted_id(id, 0x80),
{
    HypothesisId(slotted(id, 0x80))
}

/// The evidence recorded for a lead.
pub fn investigation_evidence_id(id: WorkbenchLeadId) -> (evidence: EvidenceId)
    ensures
        evidence.0 == slotted_id(id, 0xc0),
{
    EvidenceId(slotted(id, 0xc0))
}

/// Distinct slots of one lead give distinct identifiers, and different leads
/// never share one.
pub proof fn lemma_slotted_ids_distinct(a: WorkbenchLeadId, s: u8, b: WorkbenchLeadId, t: u8)
    ensures
        slotted_id(a, s) == slotted_id(b, t) <==> a == b && s == t,
{
}

/// A range as its `(start, end)` pair.
pub open spec fn range_pair(range: ByteRange) -> (u64, u64) {
    (range.start, range.end)
}

/// Ranges as pairs.
pub open spec fn range_pairs(ranges: Seq<ByteRange>) -> Seq<(u64, u64)> {
    ranges.map_values(|range: ByteRange| range_pair(range))
}

/// The sequence with each run of equal neighbours reduced to one element.
pub open spec fn dedup_spec(s: Seq<(u64, u64)>) -> Seq<(u64, u64)>
    decreases s.len(),
{
    if s.len() == 0 {
        Seq::empty()
    } else {
        let previous = dedup_spec(s.drop_last());
        if previous.len() > 0 && previous.last() == s.last() {
            previous
        } else {
            previous.push(s.last())
        }
    }
}

/// The ranges sorted by `(start, end)` without repeats.
pub open spec fn provenance_pairs(ranges: Seq<ByteRange>) -> Seq<(u64, u64)> {
    dedup_spec(sorted_pairs(range_pairs(ranges)))
}

/// Strict lexicographic order on pairs.
pub open spec fn pair_lt(a: (u64, u64), b: (u64, u64)) -> bool {
    a.0 < b.0 || (a.0 == b.0 && a.1 < b.1)
}

proof fn lemma_dedup_sorted(s: Seq<(u64, u64)>)
    requires
        vstd::relations::sorted_by(s, crate::ranges::pair_order()),
    ensures
        forall|i: int, j: int| 0 <= i < j < dedup_spec(s).len() ==> pair_lt(
            #[trigger] dedup_spec(s)[i],
            #[trigger] dedup_spec(s)[j],
        ),
        forall|x: (u64, u64)| #[trigger] dedup_spec(s).contains(x) <==> s.contains(x),
        dedup_spec(s).len() > 0 ==> dedup_spec(s).last() == s.last(),
    decreases s.len(),
{
    if s.len() > 0 {
        let prefix = s.drop_last();
        assert(vstd::relations::sorted_by(prefix, crate::ranges::pair_order())) by {
            assert forall|i: int, j: int| 0 <= i < j < prefix.len() implies #[trigger] crate::ranges::pair_order()(
                prefix[i],
                prefix[j],
            ) by {
                assert(crate::ranges::pair_order()(s[i], s[j]));
            }
        }
        lemma_dedup_sorted(prefix);
        let d = dedup_spec(prefix);
        let c = s.last();
        assert forall|x: (u64, u64)| #[trigger] dedup_spec(s).contains(x) <==> s.contains(x) by {
            if s.contains(x) && x != c {
                let k = choose|k: int| 0 <= k < s.len() && s[k] == x;
                assert(prefix[k] == x);
                assert(prefix.contains(x));
            }
            if prefix.contains(x) {
                let k = choose|k: int| 0 <= k < prefix.len() && prefix[k] == x;
                assert(s[k] == x);
            }
            if x == c {
                assert(s[s.len() - 1] == x);
            }
            if d.len() > 0 && d.last() == c {
                if x == c {
                    assert(d[d.len() - 1] == x);
                }
            } else {
                assert(d.push(c)[d.len() as int] == c);
                if d.contains(x) {
                    let k = choose|k: int| 0 <= k < d.len() && d[k] == x;
                    assert(d.push(c)[k] == x);
                }
                if d.push(c).contains(x) && x != c {
                    let k = choose|k: int| 0 <= k < d.len() + 1 && d.push(c)[k] == x;
                    assert(d[k] == x);
                }
            }
        }
        if !(d.len() > 0 && d.last() == c) && d.len() > 0 {
            assert(crate::ranges::pair_order()(s[s.len() - 2], s[s.len() - 1]));
            assert(d.last() == prefix.last());
            assert forall|i: int, j: int| 0 <= i < j < d.push(c).len() implies pair_lt(
                #[trigger] d.push(c)[i],
                #[trigger] d.push(c)[j],
            ) by {
                if j == d.len() {
                    if i < d.len() - 1 {
                        assert(pair_lt(d[i], d[d.len() - 1]));
                    }
                }
            }
        }
    }
}

/// The ranges of a provenance are strictly ascending by `(start, end)` and
/// are exactly the distinct input ranges.
pub proof fn lemma_provenance_pairs_normalized(ranges: Seq<ByteRange>)
    ensures
        forall|i: int, j: int| 0 <= i < j < provenance_pairs(ranges).len() ==> pair_lt(
            #[trigger] provenance_pairs(ranges)[i],
            #[trigger] provenance_pairs(ranges)[j],
        ),
        forall|x: (u64, u64)| #[trigger] provenance_pairs(ranges).contains(x) <==> range_pairs(ranges).contains(x),
{
    let pairs = range_pairs(ranges);
    crate::ranges::lemma_sorted_pairs_same_elements(pairs);
    lemma_dedup_sorted(sorted_pairs(pairs));
}

/// Exact provenance in source 1 at `generation` for the ranges, sorted by
/// `(start, end)` with repeats removed.
pub fn discovery_provenance(ranges: &[ByteRange], generation: u64) -> (provenance: ExactProvenance)
    ensures
        provenance.source_id == 1,
        provenance.generation == generation,
        range_pairs(provenance.ranges@) == provenance_pairs(ranges@),
{
    let mut pairs: Vec<(u64, u64)> = Vec::new();
    let mut index: usize = 0;
    while index < ranges.len()
        invariant
            index <= ranges.len(),
            pairs@ == range_pairs(ranges@.take(index as int)),
        decreases ranges.len() - index,
    {
        pairs.push((ranges[index].start, ranges[index].end));
        index = index + 1;
        assert(pairs@ =~= range_pairs(ranges@.take(index as int)));
    }
    assert(ranges@.take(ranges.len() as int) =~= ranges@);
    let sorted = sort_pairs(&pairs);
    let mut kept: Vec<ByteRange> = Vec::new();
    let mut index: usize = 0;
    while index < sorted.len()
        invariant
            index <= sorted.len(),
            range_pairs(kept@) == dedup_spec(sorted@.take(index as int)),
        decreases sorted.len() - index,
    {
        let pair = sorted[index];
        proof {
            assert(sorted@.take(index + 1).drop_last() =~= sorted@.take(index as int));
        }
        let n = kept.len();
        if n > 0 && kept[n - 1].start == pair.0 && kept[n - 1].end == pair.1 {
        } else {
            let ghost before = kept@;
            kept.push(ByteRange { start: pair.0, end: pair.1 });
            assert(range_pairs(kept@) =~= range_pairs(before).push(pair));
        }
        index = index + 1;
    }
    assert(sorted@.take(sorted.len() as int) =~= sorted@);
    ExactProvenance { source_id: 1, generation, ranges: kept }
}

/// The title of a lead.
pub fn discovery_title(finding: &WorkbenchLead) -> (title: &'static str)
    ensures
        title@ == discovery_title_spec(finding.kind),
{
    discovery_title_of_kind(finding.kind)
}

/// The suggested next step for a lead.
pub fn discovery_next_action(finding: &WorkbenchLead) -> (action: &'static str)
    ensures
        action@ == discovery_next_action_spec(finding.kind),
{
    discovery_next_action_of_kind(finding.kind)
}

/// `XOR 0x{key:02x}`.
pub open spec fn transform_label_spec(transform: ReversibleTransform) -> Seq<char> {
    match transform {
        ReversibleTransform::XorByte(key) => "XOR 0x"@ + hex_padded(key as nat, 2),
    }
}

/// The display name of a transform.
pub fn transform_label(transform: ReversibleTransform) -> (label: String)
    ensures
        label@ == transform_label_spec(transform),
{
    match transform {
        ReversibleTransform::XorByte(key) => {
            let mut label = "XOR 0x".to_owned();
            push_hex(&mut label, key as u64, 2);
            label
        },
    }
}

/// The transform a lead proposes, if any.
pub open spec fn discovery_transform_spec(evidence: WorkbenchEvidence) -> Option<ReversibleTransform> {
    match evidence {
        WorkbenchEvidence::TransformCandidate { transform, .. } => Some(transform),
        WorkbenchEvidence::XorCorrelatedTransform { transform, .. } => Some(transform),
        _ => None,
    }
}

/// The transform a lead proposes, if any.
pub fn discovery_transform(finding: &WorkbenchLead) -> (transform: Option<ReversibleTransform>)
    ensures
        transform == discovery_transform_spec(finding.evidence),
{
    match &finding.evidence {
        WorkbenchEvidence::TransformCandidate { transform, .. } => Some(*transform),
        WorkbenchEvidence::XorCorrelatedTransform { transform, .. } => Some(*transform),
        WorkbenchEvidence::EntropyBoundary { .. }
        | WorkbenchEvidence::ExactRepeat { .. }
        | WorkbenchEvidence::Periodicity { .. }
        | WorkbenchEvidence::EmbeddedSignature { .. }
        | WorkbenchEvidence::CatalogSignature { .. } => None,
    }
}

/// The range a lead's transform applies to, if any.
pub open spec fn discovery_transform_range_spec(evidence: WorkbenchEvidence) -> Option<ByteRange> {
    match evidence {
        WorkbenchEvidence::TransformCandidate { source_range, .. } => Some(source_range),
        WorkbenchEvidence::XorCorrelatedTransform { transformed_range, .. } => Some(transformed_range),
        _ => None,
    }
}

/// The range a lead's transform applies to, if any.
pub fn discovery_transform_range(finding: &WorkbenchLead) -> (range: Option<ByteRange>)
    ensures
        range == discovery_transform_range_spec(finding.evidence),
{
    match &finding.evidence {
        WorkbenchEvidence::TransformCandidate { source_range, .. } => Some(*source_range),
        WorkbenchEvidence::XorCorrelatedTransform { transformed_range, .. } => Some(
            *transformed_range,
        ),
        WorkbenchEvidence::EntropyBoundary { .. }
        | WorkbenchEvidence::ExactRepeat { .. }
        | WorkbenchEvidence::Periodicity { .. }
        | WorkbenchEvidence::EmbeddedSignature { .. }
        | WorkbenchEvidence::CatalogSignature { .. } => None,
    }
}

/// The one-line summary of a lead's evidence.
pub open spec fn evidence_summary_spec(evidence: WorkbenchEvidence) -> Seq<char> {
    match evidence {
        WorkbenchEvidence::EntropyBoundary { before_entropy_bits, after_entropy_bits, entropy_delta_bits } =>
            "entropy changes "@ + before_entropy_bits@ + " -> "@ + after_entropy_bits@
            + " bits/byte (delta "@ + entropy_delta_bits@ + ")"@,
        WorkbenchEvidence::ExactRepeat { sampled_window_step, matching_byte_count } => decimal_digits(
            matching_byte_count as nat,
        ) + " exact bytes repeat; sampled every "@ + decimal_digits(sampled_window_step as nat)
            + " source bytes"@,
        WorkbenchEvidence::Periodicity { period_bytes, compared_positions, matching_positions } =>
            "period "@ + decimal_digits(period_bytes as nat) + " bytes: "@ + decimal_digits(
            matching_positions as nat,
        ) + " of "@ + decimal_digits(compared_positions as nat) + " aligned positions agree"@,
        WorkbenchEvidence::EmbeddedSignature { signature } => "exact "@ + signature@
            + " magic bytes; signature is a lead, not a parser claim"@,
        WorkbenchEvidence::TransformCandidate {
            transform,
            before_text_likelihood_percent,
            after_text_likelihood_percent,
            assessment,
            ..
        } => transform_label_spec(transform) + " changes text likelihood "@
            + before_text_likelihood_percent@ + "% -> "@ + after_text_likelihood_percent@ + "% ("@
            + transform_assessment_label_spec(assessment) + ")"@,
        WorkbenchEvidence::XorCorrelatedTransform {
            transform,
            correlated_byte_count,
            distinct_byte_count,
            sampled_window_step,
            ..
        } => decimal_digits(correlated_byte_count as nat) + " pairs satisfy A -> "@
            + transform_label_spec(transform) + " -> B across "@ + decimal_digits(
            distinct_byte_count as nat,
        ) + " values; sampled step "@ + decimal_digits(sampled_window_step as nat),
        WorkbenchEvidence::CatalogSignature {
            first_candidate,
            candidate_count,
            mode,
            exact_byte_count,
            distinct_exact_byte_count,
            wildcard_byte_count,
        } => (match first_candidate {
            Some(label) => label@,
            None => "unnamed signature"@,
        }) + ": "@ + decimal_digits(exact_byte_count as nat) + " exact bytes / "@ + decimal_digits(
            distinct_exact_byte_count as nat,
        ) + " distinct + "@ + decimal_digits(wildcard_byte_count as nat) + " wildcard at "@ + (
        match mode {
            SignatureMatchMode::DeclaredOffset => "declared offset"@,
            SignatureMatchMode::EmbeddedSearch => "embedded search"@,
        }) + "; "@ + decimal_digits(
            (if candidate_count == 0 {
                0
            } else {
                candidate_count - 1
            }) as nat,
        ) + " competing interpretation(s)"@,
    }
}

/// The one-line summary of a lead's evidence.
pub fn discovery_evidence_summary(finding: &WorkbenchLead) -> (summary: String)
    ensures
        summary@ == evidence_summary_spec(finding.evidence),
{
    match &finding.evidence {
        WorkbenchEvidence::EntropyBoundary { before_entropy_bits, after_entropy_bits, entropy_delta_bits } => {
            let mut text = "entropy changes ".to_owned();
            push_str(&mut text, before_entropy_bits.as_str());
            push_str(&mut text, " -> ");
            push_str(&mut text, after_entropy_bits.as_str());
            push_str(&mut text, " bits/byte (delta ");
            push_str(&mut text, entropy_delta_bits.as_str());
            push_str(&mut text, ")");
            text
        },
        WorkbenchEvidence::ExactRepeat { sampled_window_step, matching_byte_count } => {
            let mut text = String::new();
            push_decimal(&mut text, *matching_byte_count);
            push_str(&mut text, " exact bytes repeat; sampled every ");
            push_decimal(&mut text, *sampled_window_step);
            push_str(&mut text, " source bytes");
            assert(text@ =~= evidence_summary_spec(finding.evidence));
            text
        },
        WorkbenchEvidence::Periodicity { period_bytes, compared_positions, matching_positions } => {
            let mut text = "period ".to_owned();
            push_decimal(&mut text, *period_bytes);
            push_str(&mut text, " bytes: ");
            push_decimal(&mut text, *matching_positions);
            push_str(&mut text, " of ");
            push_decimal(&mut text, *compared_positions);
            push_str(&mut text, " aligned positions agree");
            text
        },
        WorkbenchEvidence::EmbeddedSignature { signature } => {
            let mut text = "exact ".to_owned();
            push_str(&mut text, signature.as_str());
            push_str(&mut text, " magic bytes; signature is a lead, not a parser claim");
            text
        },
        WorkbenchEvidence::TransformCandidate {
            transform,
            before_text_likelihood_percent,
            after_text_likelihood_percent,
            assessment,
            ..
        } => {
            let mut text = transform_label(*transform);
            push_str(&mut text, " changes text likelihood ");
            push_str(&mut text, before_text_likelihood_percent.as_str());
            push_str(&mut text, "% -> ");
            push_str(&mut text, after_text_likelihood_percent.as_str());
            push_str(&mut text, "% (");
            push_str(&mut text, transform_assessment_label(*assessment));
            push_str(&mut text, ")");
            text
        },
        WorkbenchEvidence::XorCorrelatedTransform {
            transform,
            correlated_byte_count,
            distinct_byte_count,
            sampled_window_step,
            ..
        } => {
            let mut text = String::new();
            push_decimal(&mut text, *correlated_byte_count);
            push_str(&mut text, " pairs satisfy A -> ");
            let label = transform_label(*transform);
            push_str(&mut text, label.as_str());
            push_str(&mut text, " -> B across ");
            push_decimal(&mut text, *distinct_byte_count);
            push_str(&mut text, " values; sampled step ");
            push_decimal(&mut text, *sampled_window_step);
            assert(text@ =~= evidence_summary_spec(finding.evidence));
            text
        },
        WorkbenchEvidence::CatalogSignature {
            first_candidate,
            candidate_count,
            mode,
            exact_byte_count,
            distinct_exact_byte_count,
            wildcard_byte_count,
        } => {
            let mut text = match first_candidate {
                Some(label) => label.clone(),
                None => "unnamed signature".to_owned(),
            };
            push_str(&mut text, ": ");
            push_decimal(&mut text, *exact_byte_count);
            push_str(&mut text, " exact bytes / ");
            push_decimal(&mut text, *distinct_exact_byte_count);
            push_str(&mut text, " distinct + ");
            push_decimal(&mut text, *wildcard_byte_count);
            push_str(&mut text, " wildcard at ");
            match mode {
                SignatureMatchMode::DeclaredOffset => push_str(&mut text, "declared offset"),
                SignatureMatchMode::EmbeddedSearch => push_str(&mut text, "embedded search"),
            }
            push_str(&mut text, "; ");
            let ambiguity = if *candidate_count == 0 {
                0
            } else {
                *candidate_count - 1
            };
            push_decimal(&mut text, ambiguity);
            push_str(&mut text, " competing interpretation(s)");
            text
        },
    }
}

/// Why a lead's ranges are linked.
pub open spec fn correlation_rationale_spec(finding: WorkbenchLead) -> Seq<char> {
    match finding.kind {
        WorkbenchLeadKind::ExactRepeat => "The linked ranges contain byte-for-byte identical fixed windows."@,
        WorkbenchLeadKind::TransformCandidate => evidence_summary_spec(finding.evidence),
        _ => "The analyzer supplied multiple exact contributing ranges."@,
    }
}

/// Why a lead's ranges are linked.
pub fn discovery_correlation_rationale(finding: &WorkbenchLead) -> (rationale: String)
    ensures
        rationale@ == correlation_rationale_spec(*finding),
{
    match finding.kind {
        WorkbenchLeadKind::ExactRepeat => "The linked ranges contain byte-for-byte identical fixed windows.".to_owned(),
        WorkbenchLeadKind::TransformCandidate => discovery_evidence_summary(finding),
        WorkbenchLeadKind::EntropyBoundary
        | WorkbenchLeadKind::Periodicity
        | WorkbenchLeadKind::EmbeddedSignature
        | WorkbenchLeadKind::CatalogSignature => "The analyzer supplied multiple exact contributing ranges.".to_owned(),
    }
}

/// The hypothesis a lead suggests.
pub open spec fn hypothesis_statement_spec(evidence: WorkbenchEvidence) -> Seq<char> {
    match evidence {
        WorkbenchEvidence::XorCorrelatedTransform { transform, .. } => "The second exact range is a reversible "@
            + transform_label_spec(transform) + " branch of the first."@,
        WorkbenchEvidence::TransformCandidate { transform, .. } => "Applying "@ + transform_label_spec(
            transform,
        ) + " may improve the measurable interpretation of this range."@,
        WorkbenchEvidence::Periodicity { period_bytes, .. } => "A "@ + decimal_digits(period_bytes as nat)
            + "-byte record interpretation may explain the local repetition."@,
        WorkbenchEvidence::EntropyBoundary { .. } => "The adjacent ranges may represent different storage or semantic regimes."@,
        WorkbenchEvidence::ExactRepeat { .. } => "The exact repeated ranges may share a structural role."@,
        WorkbenchEvidence::EmbeddedSignature { signature } => "The "@ + signature@
            + " signature may mark a bounded embedded object; carving still requires verification."@,
        WorkbenchEvidence::CatalogSignature { first_candidate, .. } => "The exact bytes support the "@ + (
        match first_candidate {
            Some(label) => label@,
            None => "catalog pattern"@,
        }) + " catalog candidate; structure and bounds still require corroboration."@,
    }
}

/// The hypothesis a lead suggests.
pub fn discovery_hypothesis_statement(finding: &WorkbenchLead) -> (statement: String)
    ensures
        statement@ == hypothesis_statement_spec(finding.evidence),
{
    match &finding.evidence {
        WorkbenchEvidence::XorCorrelatedTransform { transform, .. } => {
            let mut statement = "The second exact range is a reversible ".to_owned();
            let label = transform_label(*transform);
            push_str(&mut statement, label.as_str());
            push_str(&mut statement, " branch of the first.");
            statement
        },
        WorkbenchEvidence::TransformCandidate { transform, .. } => {
            let mut statement = "Applying ".to_owned();
            let label = transform_label(*transform);
            push_str(&mut statement, label.as_str());
            push_str(&mut statement, " may improve the measurable interpretation of this range.");
            statement
        },
        WorkbenchEvidence::Periodicity { period_bytes, .. } => {
            let mut statement = "A ".to_owned();
            push_decimal(&mut statement, *period_bytes);
            push_str(&mut statement, "-byte record interpretation may explain the local repetition.");
            statement
        },
        WorkbenchEvidence::EntropyBoundary { .. } => "The adjacent ranges may represent different storage or semantic regimes.".to_owned(),
        WorkbenchEvidence::ExactRepeat { .. } => "The exact repeated ranges may share a structural role.".to_owned(),
        WorkbenchEvidence::EmbeddedSignature { signature } => {
            let mut statement = "The ".to_owned();
            push_str(&mut statement, signature.as_str());
            push_str(
                &mut statement,
                " signature may mark a bounded embedded object; carving still requires verification.",
            );
            statement
        },
        WorkbenchEvidence::CatalogSignature { first_candidate, .. } => {
            let mut statement = "The exact bytes support the ".to_owned();
            match first_candidate {
                Some(label) => push_str(&mut statement, label.as_str()),
                None => push_str(&mut statement, "catalog pattern"),
            }
            push_str(
                &mut statement,
                " catalog candidate; structure and bounds still require corroboration.",
            );
            statement
        },
    }
}

/// A region kind as a tag and, for a custom kind, its label.
pub open spec fn region_kind_view(kind: RegionKind) -> (int, Seq<char>) {
    match kind {
        RegionKind::Header => (0, Seq::empty()),
        RegionKind::Table => (1, Seq::empty()),
        RegionKind::Code => (2, Seq::empty()),
        RegionKind::Text => (3, Seq::empty()),
        RegionKind::Padding => (4, Seq::empty()),
        RegionKind::Structure => (5, Seq::empty()),
        RegionKind::Custom(label) => (6, label@),
    }
}

/// The region kind a lead's ranges are recorded as, in the form of
/// [`region_kind_view`].
pub open spec fn detected_region_kind_view(kind: WorkbenchLeadKind) -> (int, Seq<char>) {
    match kind {
        WorkbenchLeadKind::EntropyBoundary => (5, Seq::empty()),
        WorkbenchLeadKind::ExactRepeat => (6, "repeated"@),
        WorkbenchLeadKind::Periodicity => (1, Seq::empty()),
        WorkbenchLeadKind::EmbeddedSignature => (6, "embedded-object"@),
        WorkbenchLeadKind::CatalogSignature => (6, "catalog-signature"@),
        WorkbenchLeadKind::TransformCandidate => (6, "transform-candidate"@),
    }
}

/// The region kind a lead's ranges are recorded as.
pub fn detected_region_kind(kind: WorkbenchLeadKind) -> (region: RegionKind)
    ensures
        region_kind_view(region) == detected_region_kind_view(kind),
{
    match kind {
        WorkbenchLeadKind::EntropyBoundary => RegionKind::Structure,
        WorkbenchLeadKind::ExactRepeat => RegionKind::Custom("repeated".to_owned()),
        WorkbenchLeadKind::Periodicity => RegionKind::Table,
        WorkbenchLeadKind::EmbeddedSignature => RegionKind::Custom("embedded-object".to_owned()),
        WorkbenchLeadKind::CatalogSignature => RegionKind::Custom("catalog-signature".to_owned()),
        WorkbenchLeadKind::TransformCandidate => RegionKind::Custom(
            "transform-candidate".to_owned(),
        ),
    }
}

/// Display name of a region kind; a custom kind shows its own label in
/// ASCII upper case.
pub open spec fn region_kind_label_spec(kind: RegionKind) -> Seq<char> {
    match kind {
        RegionKind::Header => "HEADER"@,
        RegionKind::Table => "TABLE"@,
        RegionKind::Code => "CODE"@,
        RegionKind::Text => "TEXT"@,
        RegionKind::Padding => "PADDING"@,
        RegionKind::Structure => "STRUCTURAL"@,
        RegionKind::Custom(label) => ascii_upper_seq(label@),
    }
}

/// Display name of a region kind.
pub fn region_kind_label(kind: &RegionKind) -> (label: String)
    ensures
        label@ == region_kind_label_spec(*kind),
{
    match kind {
        RegionKind::Header => "HEADER".to_owned(),
        RegionKind::Table => "TABLE".to_owned(),
        RegionKind::Code => "CODE".to_owned(),
        RegionKind::Text => "TEXT".to_owned(),
        RegionKind::Padding => "PADDING".to_owned(),
        RegionKind::Structure => "STRUCTURAL".to_owned(),
        RegionKind::Custom(label) => to_ascii_uppercase(label.as_str()),
    }
}

/// The eight little-endian bytes of a value.
pub open spec fn le_bytes(value: u64) -> Seq<u8> {
    Seq::new(8, |i: int| ((value >> ((8 * i) as u64)) & 0xff) as u8)
}

/// One FNV-1a step: mix in a byte, then multiply by the 64-bit FNV prime
/// modulo 2^64.
pub open spec fn fnv_step(hash: u64, byte: u8) -> u64 {
    (((hash ^ (byte as u64)) as nat * 0x0000_0100_0000_01b3nat) % 0x1_0000_0000_0000_0000nat) as u64
}

/// The 64-bit FNV-1a hash of the bytes.
pub open spec fn fnv1a(bytes: Seq<u8>) -> u64
    decreases bytes.len(),
{
    if bytes.len() == 0 {
        0xcbf2_9ce4_8422_2325
    } else {
        fnv_step(fnv1a(bytes.drop_last()), bytes.last())
    }
}

/// The bytes that identify a manual branch: the range's start and end, the
/// source generation, each little-endian, then the key.
pub open spec fn branch_identity_bytes(range: ByteRange, key: u8, generation: u64) -> Seq<u8> {
    le_bytes(range.start) + le_bytes(range.end) + le_bytes(generation) + seq![key]
}

fn push_le_bytes(out: &mut Vec<u8>, value: u64)
    ensures
        final(out)@ == old(out)@ + le_bytes(value),
{
    let ghost start = out@;
    let mut i: u64 = 0;
    while i < 8
        invariant
            i <= 8,
            out@ == start + le_bytes(value).take(i as int),
        decreases 8 - i,
    {
        out.push(((value >> (8 * i)) & 0xff) as u8);
        i = i + 1;
        assert(out@ =~= start + le_bytes(value).take(i as int));
    }
    assert(le_bytes(value).take(8) =~= le_bytes(value));
}

/// A stable lead identifier for a branch the user opened by hand: the
/// FNV-1a hash of the range, the source generation and the key.
pub fn manual_branch_lead_id(range: ByteRange, key: u8, generation: u64) -> (id: WorkbenchLeadId)
    ensures
        id.0 == fnv1a(branch_identity_bytes(range, key, generation)),
{
    let mut bytes: Vec<u8> = Vec::new();
    push_le_bytes(&mut bytes, range.start);
    push_le_bytes(&mut bytes, range.end);
    push_le_bytes(&mut bytes, generation);
    bytes.push(key);
    assert(bytes@ =~= branch_identity_bytes(range, key, generation));
    let mut hash: u64 = 0xcbf2_9ce4_8422_2325;
    let mut index: usize = 0;
    while index < bytes.len()
        invariant
            index <= bytes.len(),
            hash == fnv1a(bytes@.take(index as int)),
        decreases bytes.len() - index,
    {
        hash = (hash ^ (bytes[index] as u64)).wrapping_mul(0x0000_0100_0000_01b3);
        index = index + 1;
        assert(bytes@.take(index as int).drop_last() =~= bytes@.take(index - 1));
    }
    assert(bytes@.take(bytes.len() as int) =~= bytes@);
    WorkbenchLeadId(hash)
}

/// Whether `offset` is the start of a range of a catalog-signature lead
/// that fits a `usize`.
pub open spec fn is_signature_offset(findings: Seq<WorkbenchLead>, offset: int) -> bool {
    offset <= usize::MAX && exists|i: int, j: int|
        0 <= i < findings.len() && findings[i].kind == WorkbenchLeadKind::CatalogSignature && 0 <= j
            < findings[i].source_ranges@.len() && (#[trigger] findings[i].source_ranges@[j]).start
            == offset
}

/// The distinct start offsets of catalog-signature ranges, ascending.
pub fn signature_projection_offsets(findings: &[WorkbenchLead]) -> (offsets: Vec<usize>)
    ensures
        forall|a: int, b: int| 0 <= a < b < offsets.len() ==> offsets[a] < offsets[b],
        forall|o: int| offsets@.contains(o as usize) && 0 <= o <= usize::MAX
            ==> is_signature_offset(findings@, o),
        forall|o: int| is_signature_offset(findings@, o) ==> offsets@.contains(o as usize),
{
    let mut starts = BTreeSet::new();
    let mut i: usize = 0;
    while i < findings.len()
        invariant
            i <= findings.len(),
            forall|o: u64| #[trigger] starts@.contains(o) <==> is_signature_offset(findings@.take(i as int), o as int),
        decreases findings.len() - i,
    {
        let finding = &findings[i];
        if finding.kind == WorkbenchLeadKind::CatalogSignature {
            let mut j: usize = 0;
            while j < finding.source_ranges.len()
                invariant
                    j <= finding.source_ranges.len(),
                    *finding == findings@[i as int],
                    finding.kind == WorkbenchLeadKind::CatalogSignature,
                    forall|o: u64| #[trigger] starts@.contains(o) <==> (is_signature_offset(findings@.take(i as int), o as int)
                        || (o <= usize::MAX && exists|k: int| 0 <= k < j && (#[trigger] finding.source_ranges@[k]).start == o)),
                decreases finding.source_ranges.len() - j,
            {
                let start = finding.source_ranges[j].start;
                if start <= usize::MAX as u64 {
                    insert_offset(&mut starts, start);
                }
                j = j + 1;
                assert forall|o: u64| #[trigger] starts@.contains(o) <==> (is_signature_offset(findings@.take(i as int), o as int)
                    || (o <= usize::MAX && exists|k: int| 0 <= k < j && (#[trigger] finding.source_ranges@[k]).start == o)) by {
                    if o <= usize::MAX && o == start {
                        assert(finding.source_ranges@[j - 1].start == o);
                    }
                    if o <= usize::MAX && exists|k: int| 0 <= k < j && (#[trigger] finding.source_ranges@[k]).start == o {
                        let k = choose|k: int| 0 <= k < j && (#[trigger] finding.source_ranges@[k]).start == o;
                        if k < j - 1 {
                            assert(exists|k2: int| 0 <= k2 < j - 1 && (#[trigger] finding.source_ranges@[k2]).start == o);
                        }
                    }
                }
            }
        }
        assert forall|o: u64| #[trigger] starts@.contains(o) <==> is_signature_offset(findings@.take(i + 1), o as int) by {
            let next = findings@.take(i + 1);
            if is_signature_offset(next, o as int) {
                let (a, b) = choose|a: int, b: int|
                    0 <= a < next.len() && next[a].kind == WorkbenchLeadKind::CatalogSignature && 0 <= b
                        < next[a].source_ranges@.len() && (#[trigger] next[a].source_ranges@[b]).start == o;
                if a < i {
                    assert(findings@.take(i as int)[a] == next[a]);
                    assert(is_signature_offset(findings@.take(i as int), o as int));
                }
            }
            if is_signature_offset(findings@.take(i as int), o as int) {
                let (a, b) = choose|a: int, b: int|
                    0 <= a < i && findings@.take(i as int)[a].kind == WorkbenchLeadKind::CatalogSignature && 0 <= b
                        < findings@.take(i as int)[a].source_ranges@.len() && (#[trigger] findings@.take(i as int)[a].source_ranges@[b]).start == o;
                assert(next[a] == findings@.take(i as int)[a]);
            }
            if finding.kind == WorkbenchLeadKind::CatalogSignature && o <= usize::MAX && exists|k: int|
                0 <= k < finding.source_ranges@.len() && (#[trigger] finding.source_ranges@[k]).start == o {
                let k = choose|k: int| 0 <= k < finding.source_ranges@.len() && (#[trigger] finding.source_ranges@[k]).start == o;
                assert(next[i as int] == *finding);
                assert(next[i as int].source_ranges@[k].start == o);
            }
        }
        i = i + 1;
    }
    assert(findings@.take(findings.len() as int) =~= findings@);
    let ascending = ascending_offsets(&starts);
    let mut offsets: Vec<usize> = Vec::new();
    let mut k: usize = 0;
    while k < ascending.len()
        invariant
            k <= ascending.len(),
            offsets.len() == k,
            forall|o: u64| #[trigger] starts@.contains(o) ==> o <= usize::MAX,
            ascending@.to_set() == starts@,
            forall|a: int| 0 <= a < k ==> offsets@[a] == ascending@[a],
        decreases ascending.len() - k,
    {
        let value = ascending[k];
        assert(starts@.contains(value)) by {
            assert(ascending@.contains(value));
        }
        offsets.push(value as usize);
        k = k + 1;
    }
    proof {
        assert forall|a: int, b: int| 0 <= a < b < offsets.len() implies offsets[a] < offsets[b] by {
            assert(ascending@[a] < ascending@[b]);
        }
        assert forall|o: int| offsets@.contains(o as usize) && 0 <= o <= usize::MAX implies is_signature_offset(findings@, o) by {
            let a = choose|a: int| 0 <= a < offsets.len() && offsets@[a] == o as usize;
            assert(ascending@.contains(ascending@[a]));
            assert(starts@.contains(ascending@[a]));
        }
        assert forall|o: int| is_signature_offset(findings@, o) implies offsets@.contains(o as usize) by {
            assert(starts@.contains(o as u64));
            assert(ascending@.to_set().contains(o as u64));
            let a = choose|a: int| 0 <= a < ascending.len() && ascending@[a] == o as u64;
            assert(offsets@[a] == o as usize);
        }
    }
    offsets
}

/// A finding recorded in the investigation model.
#[derive(Clone, Debug)]
pub struct InvestigationFinding {
    pub id: FindingId,
    pub title: String,
    pub detail: String,
    pub status: FindingStatus,
    pub provenance: ExactProvenance,
}

/// Findings that corroborate each other.
#[derive(Clone, Debug)]
pub struct Correlation {
    pub id: CorrelationId,
    pub finding_ids: Vec<FindingId>,
    pub provenance: ExactProvenance,
    pub strength: CorrelationStrength,
    pub rationale: String,
}

/// A testable statement drawn from a lead.
#[derive(Clone, Debug)]
pub struct Hypothesis {
    pub id: HypothesisId,
    pub statement: String,
    pub provenance: ExactProvenance,
    pub status: HypothesisStatus,
    pub evidence_ids: Vec<EvidenceId>,
}

/// The findings, correlations and hypotheses derived from a list of leads,
/// in the order they were added.
#[derive(Clone, Debug)]
pub struct InvestigationModel {
    pub findings: Vec<InvestigationFinding>,
    pub correlations: Vec<Correlation>,
    pub hypotheses: Vec<Hypothesis>,
}

/// Why an investigation model could not be built.
#[derive(Clone, Copy, Debug, PartialEq, Eq, Structural)]
pub enum InvestigationError {
    /// A lead links more ranges than one identifier byte can number.
    InvalidCorrelationMembers,
}

/// A provenance as (source, generation, ranges).
pub open spec fn provenance_view(p: ExactProvenance) -> (u64, u64, Seq<(u64, u64)>) {
    (p.source_id, p.generation, range_pairs(p.ranges@))
}

/// A finding as (identifier, title, detail, status, provenance).
pub open spec fn finding_view(f: InvestigationFinding) -> (
    int,
    Seq<char>,
    Seq<char>,
    FindingStatus,
    (u64, u64, Seq<(u64, u64)>),
) {
    (f.id.0 as int, f.title@, f.detail@, f.status, provenance_view(f.provenance))
}

/// A correlation as (identifier, member identifiers, provenance, strength,
/// rationale).
pub open spec fn correlation_view(c: Correlation) -> (
    int,
    Seq<int>,
    (u64, u64, Seq<(u64, u64)>),
    CorrelationStrength,
    Seq<char>,
) {
    (
        c.id.0 as int,
        c.finding_ids@.map_values(|id: FindingId| id.0 as int),
        provenance_view(c.provenance),
        c.strength,
        c.rationale@,
    )
}

/// A hypothesis as (identifier, statement, provenance, status, evidence).
pub open spec fn hypothesis_view(h: Hypothesis) -> (
    int,
    Seq<char>,
    (u64, u64, Seq<(u64, u64)>),
    HypothesisStatus,
    Seq<int>,
) {
    (
        h.id.0 as int,
        h.statement@,
        provenance_view(h.provenance),
        h.status,
        h.evidence_ids@.map_values(|id: EvidenceId| id.0 as int),
    )
}

/// `0x{start:08x}..0x{end:08x}`.
pub open spec fn padded_range_text(range: ByteRange) -> Seq<char> {
    "0x"@ + hex_padded(range.start as nat, 8) + "..0x"@ + hex_padded(range.end as nat, 8)
}

/// The finding for the `i`-th linked range of a lead.
pub open spec fn linked_finding_view(lead: WorkbenchLead, i: int, generation: u64) -> (
    int,
    Seq<char>,
    Seq<char>,
    FindingStatus,
    (u64, u64, Seq<(u64, u64)>),
) {
    let range = lead.source_ranges@[i];
    (
        slotted_id(lead.id, (i + 1) as u8),
        "Linked range "@ + decimal_digits((i + 1) as nat),
        padded_range_text(range),
        FindingStatus::Candidate,
        (1u64, generation, provenance_pairs(seq![range])),
    )
}

/// The findings one lead contributes: the lead itself, then, when it links
/// two or more ranges, one finding per range.
pub open spec fn lead_finding_views(lead: WorkbenchLead, generation: u64) -> Seq<
    (int, Seq<char>, Seq<char>, FindingStatus, (u64, u64, Seq<(u64, u64)>)),
> {
    let main = (
        slotted_id(lead.id, 0),
        discovery_title_spec(lead.kind),
        evidence_summary_spec(lead.evidence),
        FindingStatus::Candidate,
        (1u64, generation, provenance_pairs(lead.source_ranges@)),
    );
    let n = lead.source_ranges@.len();
    if n >= 2 {
        seq![main] + Seq::new(n, |i: int| linked_finding_view(lead, i, generation))
    } else {
        seq![main]
    }
}

/// The correlations one lead contributes.
pub open spec fn lead_correlation_views(lead: WorkbenchLead, generation: u64) -> Seq<
    (int, Seq<int>, (u64, u64, Seq<(u64, u64)>), CorrelationStrength, Seq<char>),
> {
    let n = lead.source_ranges@.len();
    if n >= 2 {
        seq![
            (
                slotted_id(lead.id, 0x40),
                Seq::new(n, |i: int| slotted_id(lead.id, (i + 1) as u8)),
                (1u64, generation, provenance_pairs(lead.source_ranges@)),
                CorrelationStrength::Corroborated,
                correlation_rationale_spec(lead),
            ),
        ]
    } else {
        Seq::empty()
    }
}

/// The hypotheses one lead contributes.
pub open spec fn lead_hypothesis_views(lead: WorkbenchLead, generation: u64) -> Seq<
    (int, Seq<char>, (u64, u64, Seq<(u64, u64)>), HypothesisStatus, Seq<int>),
> {
    if lead.kind == WorkbenchLeadKind::TransformCandidate {
        seq![
            (
                slotted_id(lead.id, 0x80),
                hypothesis_statement_spec(lead.evidence),
                (1u64, generation, provenance_pairs(lead.source_ranges@)),
                HypothesisStatus::Draft,
                Seq::empty(),
            ),
        ]
    } else {
        Seq::empty()
    }
}

/// All findings of the leads, lead after lead.
pub open spec fn investigation_findings(leads: Seq<WorkbenchLead>, generation: u64) -> Seq<
    (int, Seq<char>, Seq<char>, FindingStatus, (u64, u64, Seq<(u64, u64)>)),
>
    decreases leads.len(),
{
    if leads.len() == 0 {
        Seq::empty()
    } else {
        investigation_findings(leads.drop_last(), generation) + lead_finding_views(
            leads.last(),
            generation,
        )
    }
}

/// All correlations of the leads, lead after lead.
pub open spec fn investigation_correlations(leads: Seq<WorkbenchLead>, generation: u64) -> Seq<
    (int, Seq<int>, (u64, u64, Seq<(u64, u64)>), CorrelationStrength, Seq<char>),
>
    decreases leads.len(),
{
    if leads.len() == 0 {
        Seq::empty()
    } else {
        investigation_correlations(leads.drop_last(), generation) + lead_correlation_views(
            leads.last(),
            generation,
        )
    }
}

/// All hypotheses of the leads, lead after lead.
pub open spec fn investigation_hypotheses(leads: Seq<WorkbenchLead>, generation: u64) -> Seq<
    (int, Seq<char>, (u64, u64, Seq<(u64, u64)>), HypothesisStatus, Seq<int>),
>
    decreases leads.len(),
{
    if leads.len() == 0 {
        Seq::empty()
    } else {
        investigation_hypotheses(leads.drop_last(), generation) + lead_hypothesis_views(
            leads.last(),
            generation,
        )
    }
}

/// Hypotheses come from transform candidates alone: every hypothesis of the
/// model belongs to a lead of kind `TransformCandidate` (it carries that
/// lead's hypothesis identifier and exact ranges and starts as a draft), and
/// every such lead contributes one.
pub proof fn lemma_hypotheses_only_from_transform_candidates(leads: Seq<WorkbenchLead>, generation: u64)
    ensures
        forall|i: int|
            0 <= i < investigation_hypotheses(leads, generation).len() ==> exists|j: int|
                0 <= j < leads.len() && (#[trigger] leads[j]).kind == WorkbenchLeadKind::TransformCandidate
                    && (#[trigger] investigation_hypotheses(leads, generation)[i]).0 == slotted_id(
                    leads[j].id,
                    0x80,
                ) && investigation_hypotheses(leads, generation)[i].2 == (
                    1u64,
                    generation,
                    provenance_pairs(leads[j].source_ranges@),
                ) && investigation_hypotheses(leads, generation)[i].3 == HypothesisStatus::Draft,
        forall|j: int|
            0 <= j < leads.len() && (#[trigger] leads[j]).kind == WorkbenchLeadKind::TransformCandidate
                ==> exists|i: int|
                0 <= i < investigation_hypotheses(leads, generation).len() && (
                #[trigger] investigation_hypotheses(leads, generation)[i]).0 == slotted_id(
                    leads[j].id,
                    0x80,
                ),
    decreases leads.len(),
{
    if leads.len() > 0 {
        let rest = leads.drop_last();
        lemma_hypotheses_only_from_transform_candidates(rest, generation);
        let prefix = investigation_hypotheses(rest, generation);
        let whole = investigation_hypotheses(leads, generation);
        let last = leads.last();
        assert(whole == prefix + lead_hypothesis_views(last, generation));
        assert forall|i: int| 0 <= i < whole.len() implies exists|j: int|
            0 <= j < leads.len() && (#[trigger] leads[j]).kind == WorkbenchLeadKind::TransformCandidate
                && (#[trigger] whole[i]).0 == slotted_id(leads[j].id, 0x80) && whole[i].2 == (
                1u64,
                generation,
                provenance_pairs(leads[j].source_ranges@),
            ) && whole[i].3 == HypothesisStatus::Draft by {
            if i < prefix.len() {
                assert(whole[i] == prefix[i]);
                let j = choose|j: int|
                    0 <= j < rest.len() && (#[trigger] rest[j]).kind
                        == WorkbenchLeadKind::TransformCandidate && (#[trigger] prefix[i]).0
                        == slotted_id(rest[j].id, 0x80) && prefix[i].2 == (
                        1u64,
                        generation,
                        provenance_pairs(rest[j].source_ranges@),
                    ) && prefix[i].3 == HypothesisStatus::Draft;
                assert(leads[j] == rest[j]);
            } else {
                assert(last.kind == WorkbenchLeadKind::TransformCandidate);
                assert(leads[leads.len() - 1] == last);
            }
        }
        assert forall|j: int|
            0 <= j < leads.len() && (#[trigger] leads[j]).kind == WorkbenchLeadKind::TransformCandidate
                implies exists|i: int|
            0 <= i < whole.len() && (#[trigger] whole[i]).0 == slotted_id(leads[j].id, 0x80) by {
            if j < rest.len() {
                assert(rest[j] == leads[j]);
                let i = choose|i: int|
                    0 <= i < prefix.len() && (#[trigger] prefix[i]).0 == slotted_id(rest[j].id, 0x80);
                assert(whole[i] == prefix[i]);
            } else {
                assert(leads[j] == last);
                assert(whole[prefix.len() as int] == lead_hypothesis_views(last, generation)[0]);
            }
        }
    }
}

/// Some lead links more ranges than an identifier byte can number.
pub open spec fn has_oversized_lead(leads: Seq<WorkbenchLead>) -> bool {
    exists|k: int| 0 <= k < leads.len() && (#[trigger] leads[k]).source_ranges@.len() >= 256
}

fn copy_provenance(provenance: &ExactProvenance) -> (copy: ExactProvenance)
    ensures
        provenance_view(copy) == provenance_view(*provenance),
{
    let mut ranges: Vec<ByteRange> = Vec::new();
    let mut index: usize = 0;
    while index < provenance.ranges.len()
        invariant
            index <= provenance.ranges.len(),
            ranges@ == provenance.ranges@.take(index as int),
        decreases provenance.ranges.len() - index,
    {
        ranges.push(provenance.ranges[index]);
        index = index + 1;
        assert(ranges@ =~= provenance.ranges@.take(index as int));
    }
    assert(provenance.ranges@.take(provenance.ranges.len() as int) =~= provenance.ranges@);
    ExactProvenance { source_id: provenance.source_id, generation: provenance.generation, ranges }
}

fn single_range_provenance(range: ByteRange, generation: u64) -> (provenance: ExactProvenance)
    ensures
        provenance_view(provenance) == (1u64, generation, provenance_pairs(seq![range])),
{
    let mut ranges: Vec<ByteRange> = Vec::new();
    ranges.push(range);
    assert(ranges@ =~= seq![range]);
    discovery_provenance(ranges.as_slice(), generation)
}

fn linked_range_finding(lead: &WorkbenchLead, index: usize, generation: u64) -> (finding: InvestigationFinding)
    requires
        index < lead.source_ranges.len(),
        index < 255,
    ensures
        finding_view(finding) == linked_finding_view(*lead, index as int, generation),
{
    let slot = (index + 1) as u8;
    let range = lead.source_ranges[index];
    let mut title = "Linked range ".to_owned();
    push_decimal(&mut title, (index + 1) as u64);
    let mut detail = "0x".to_owned();
    push_hex(&mut detail, range.start, 8);
    push_str(&mut detail, "..0x");
    push_hex(&mut detail, range.end, 8);
    assert(detail@ =~= padded_range_text(range));
    InvestigationFinding {
        id: investigation_finding_id(lead.id, slot),
        title,
        detail,
        status: FindingStatus::Candidate,
        provenance: single_range_provenance(range, generation),
    }
}

/// Builds the investigation model of a list of leads: a candidate finding
/// per lead; where a lead links two or more ranges, a finding per range and
/// a correlation of them; and a draft hypothesis for each transform lead.
/// Refused when a lead links more ranges than an identifier byte numbers.
pub fn build_investigation_model(findings: &[WorkbenchLead], generation: u64) -> (result: Result<
    InvestigationModel,
    InvestigationError,
>)
    ensures
        result is Err <==> has_oversized_lead(findings@),
        result matches Err(error) ==> error == InvestigationError::InvalidCorrelationMembers,
        result matches Ok(model) ==> {
            &&& model.findings@.map_values(|f: InvestigationFinding| finding_view(f))
                == investigation_findings(findings@, generation)
            &&& model.correlations@.map_values(|c: Correlation| correlation_view(c))
                == investigation_correlations(findings@, generation)
            &&& model.hypotheses@.map_values(|h: Hypothesis| hypothesis_view(h))
                == investigation_hypotheses(findings@, generation)
        },
{
    let mut model = InvestigationModel {
        findings: Vec::new(),
        correlations: Vec::new(),
        hypotheses: Vec::new(),
    };
    let mut li: usize = 0;
    while li < findings.len()
        invariant
            li <= findings.len(),
            !has_oversized_lead(findings@.take(li as int)),
            model.findings@.map_values(|f: InvestigationFinding| finding_view(f))
                == investigation_findings(findings@.take(li as int), generation),
            model.correlations@.map_values(|c: Correlation| correlation_view(c))
                == investigation_correlations(findings@.take(li as int), generation),
            model.hypotheses@.map_values(|h: Hypothesis| hypothesis_view(h))
                == investigation_hypotheses(findings@.take(li as int), generation),
        decreases findings.len() - li,
    {
        let finding = &findings[li];
        let ghost lead = findings@[li as int];
        let ghost taken = findings@.take(li as int);
        let ghost next = findings@.take(li + 1);
        assert(next.drop_last() =~= taken);
        assert(next.last() == lead);
        let ghost findings_before = model.findings@.map_values(|f: InvestigationFinding| finding_view(f));
        let provenance = discovery_provenance(finding.source_ranges.as_slice(), generation);
        let title = discovery_title(finding).to_owned();
        model.findings.push(
            InvestigationFinding {
                id: investigation_finding_id(finding.id, 0),
                title,
                detail: discovery_evidence_summary(finding),
                status: FindingStatus::Candidate,
                provenance: copy_provenance(&provenance),
            },
        );
        let ghost main = (
            slotted_id(lead.id, 0),
            discovery_title_spec(lead.kind),
            evidence_summary_spec(lead.evidence),
            FindingStatus::Candidate,
            (1u64, generation, provenance_pairs(lead.source_ranges@)),
        );
        assert(model.findings@.map_values(|f: InvestigationFinding| finding_view(f))
            =~= findings_before.push(main));
        let n = finding.source_ranges.len();
        if n >= 2 {
            let mut members: Vec<FindingId> = Vec::new();
            let mut index: usize = 0;
            while index < n
                invariant
                    li < findings.len(),
                    lead == findings@[li as int],
                    taken == findings@.take(li as int),
                    next == findings@.take(li + 1),
                    !has_oversized_lead(taken),
                    findings_before == investigation_findings(taken, generation),
                    model.correlations@.map_values(|c: Correlation| correlation_view(c))
                        == investigation_correlations(taken, generation),
                    model.hypotheses@.map_values(|h: Hypothesis| hypothesis_view(h))
                        == investigation_hypotheses(taken, generation),
                    n == finding.source_ranges.len() == lead.source_ranges@.len(),
                    *finding == lead,
                    n >= 2,
                    index <= n,
                    index <= 255,
                    model.findings@.map_values(|f: InvestigationFinding| finding_view(f))
                        == findings_before.push(main) + Seq::new(
                        index as nat,
                        |i: int| linked_finding_view(lead, i, generation),
                    ),
                    members@.map_values(|id: FindingId| id.0 as int) == Seq::new(
                        index as nat,
                        |i: int| slotted_id(lead.id, (i + 1) as u8),
                    ),
                decreases n - index,
            {
                if index >= 255 {
                    assert(has_oversized_lead(findings@)) by {
                        assert(findings@[li as int].source_ranges@.len() >= 256);
                        assert(0 <= li < findings@.len());
                    }
                    return Err(InvestigationError::InvalidCorrelationMembers);
                }
                let member = linked_range_finding(finding, index, generation);
                let id = member.id;
                let ghost before = model.findings@.map_values(|f: InvestigationFinding| finding_view(f));
                let ghost ids_before = members@.map_values(|id: FindingId| id.0 as int);
                model.findings.push(member);
                members.push(id);
                index = index + 1;
                assert(model.findings@.map_values(|f: InvestigationFinding| finding_view(f)) =~= before.push(
                    linked_finding_view(lead, index - 1, generation),
                ));
                assert(members@.map_values(|id: FindingId| id.0 as int) =~= ids_before.push(
                    slotted_id(lead.id, index as u8),
                ));
                assert(Seq::new(index as nat, |i: int| linked_finding_view(lead, i, generation))
                    =~= Seq::new((index - 1) as nat, |i: int| linked_finding_view(lead, i, generation)).push(
                    linked_finding_view(lead, index - 1, generation),
                ));
                assert(Seq::new(index as nat, |i: int| slotted_id(lead.id, (i + 1) as u8))
                    =~= Seq::new((index - 1) as nat, |i: int| slotted_id(lead.id, (i + 1) as u8)).push(
                    slotted_id(lead.id, index as u8),
                ));
            }
            let ghost correlations_before = model.correlations@.map_values(|c: Correlation| correlation_view(c));
            model.correlations.push(
                Correlation {
                    id: investigation_correlation_id(finding.id),
                    finding_ids: members,
                    provenance: copy_provenance(&provenance),
                    strength: CorrelationStrength::Corroborated,
                    rationale: discovery_correlation_rationale(finding),
                },
            );
            assert(model.correlations@.map_values(|c: Correlation| correlation_view(c))
                =~= correlations_before + lead_correlation_views(lead, generation));
            assert(model.findings@.map_values(|f: InvestigationFinding| finding_view(f))
                =~= findings_before + lead_finding_views(lead, generation));
        } else {
            assert(lead_correlation_views(lead, generation) =~= Seq::empty());
            assert(model.correlations@.map_values(|c: Correlation| correlation_view(c))
                =~= investigation_correlations(taken, generation) + lead_correlation_views(lead, generation));
            assert(model.findings@.map_values(|f: InvestigationFinding| finding_view(f))
                =~= findings_before + lead_finding_views(lead, generation));
        }
        let ghost hypotheses_before = model.hypotheses@.map_values(|h: Hypothesis| hypothesis_view(h));
        if finding.kind == WorkbenchLeadKind::TransformCandidate {
            let evidence_ids: Vec<EvidenceId> = Vec::new();
            let hypothesis = Hypothesis {
                id: investigation_hypothesis_id(finding.id),
                statement: discovery_hypothesis_statement(finding),
                provenance,
                status: HypothesisStatus::Draft,
                evidence_ids,
            };
            assert(hypothesis.evidence_ids@.map_values(|id: EvidenceId| id.0 as int) =~= Seq::<int>::empty());
            assert(hypothesis_view(hypothesis) == lead_hypothesis_views(lead, generation)[0]);
            model.hypotheses.push(hypothesis);
            assert(model.hypotheses@.map_values(|h: Hypothesis| hypothesis_view(h))
                =~= hypotheses_before + lead_hypothesis_views(lead, generation));
        } else {
            assert(model.hypotheses@.map_values(|h: Hypothesis| hypothesis_view(h))
                =~= hypotheses_before + lead_hypothesis_views(lead, generation));
        }
        assert(investigation_findings(next, generation) =~= investigation_findings(taken, generation)
            + lead_finding_views(lead, generation));
        assert(investigation_correlations(next, generation) =~= investigation_correlations(
            taken,
            generation,
        ) + lead_correlation_views(lead, generation));
        assert(investigation_hypotheses(next, generation) =~= investigation_hypotheses(
            taken,
            generation,
        ) + lead_hypothesis_views(lead, generation));
        assert(!has_oversized_lead(next)) by {
            if has_oversized_lead(next) {
                let k = choose|k: int| 0 <= k < next.len() && (#[trigger] next[k]).source_ranges@.len() >= 256;
                if k < li {
                    assert(taken[k] == next[k]);
                }
            }
        }
        li = li + 1;
    }
    assert(findings@.take(findings.len() as int) =~= findings@);
    Ok(model)
}

/// A detected region.
#[derive(Clone, Debug)]
pub struct LivingRegion {
    pub id: RegionId,
    pub label: String,
    pub kind: RegionKind,
    pub provenance: ExactProvenance,
    pub parent_id: Option<RegionId>,
}

/// A relationship between two detected regions.
#[derive(Clone, Debug)]
pub struct RegionRelationship {
    pub id: RegionRelationshipId,
    pub from: RegionId,
    pub to: RegionId,
    pub kind: RegionRelationshipKind,
    pub provenance: ExactProvenance,
    pub rationale: String,
}

/// The regions and relationships derived from a list of leads, in the
/// order they were added.
#[derive(Clone, Debug)]
pub struct RegionModel {
    pub regions: Vec<LivingRegion>,
    pub relationships: Vec<RegionRelationship>,
}

/// The region for the `i`-th range of a lead: the lead identifier shifted
/// one byte up, combined bitwise with `i + 1`.
pub open spec fn region_id_spec(lead: WorkbenchLead, i: int) -> u128 {
    ((lead.id.0 as u128) << 8u128) | ((i + 1) as u128)
}

/// The relationship of a lead's first two regions.
pub open spec fn relationship_id_spec(lead: WorkbenchLead) -> u128 {
    ((lead.id.0 as u128) << 8u128) | 0xf0u128
}

/// A region as (identifier, label, kind, provenance, parent).
pub open spec fn region_view(r: LivingRegion) -> (
    int,
    Seq<char>,
    (int, Seq<char>),
    (u64, u64, Seq<(u64, u64)>),
    Option<RegionId>,
) {
    (r.id.0 as int, r.label@, region_kind_view(r.kind), provenance_view(r.provenance), r.parent_id)
}

/// A relationship as (identifier, from, to, kind, provenance, rationale).
pub open spec fn relationship_view(r: RegionRelationship) -> (
    int,
    int,
    int,
    RegionRelationshipKind,
    (u64, u64, Seq<(u64, u64)>),
    Seq<char>,
) {
    (
        r.id.0 as int,
        r.from.0 as int,
        r.to.0 as int,
        r.kind,
        provenance_view(r.provenance),
        r.rationale@,
    )
}

/// The region recorded for the `i`-th range of a lead.
pub open spec fn lead_region_view(lead: WorkbenchLead, i: int, generation: u64) -> (
    int,
    Seq<char>,
    (int, Seq<char>),
    (u64, u64, Seq<(u64, u64)>),
    Option<RegionId>,
) {
    (
        region_id_spec(lead, i) as int,
        discovery_title_spec(lead.kind) + " · range "@ + decimal_digits((i + 1) as nat),
        detected_region_kind_view(lead.kind),
        (1u64, generation, provenance_pairs(seq![lead.source_ranges@[i]])),
        None,
    )
}

/// How a lead's first two regions relate.
pub open spec fn relationship_kind_spec(lead: WorkbenchLead) -> RegionRelationshipKind {
    if lead.kind == WorkbenchLeadKind::ExactRepeat {
        RegionRelationshipKind::Repeats
    } else if lead.kind == WorkbenchLeadKind::TransformCandidate
        && lead.evidence is XorCorrelatedTransform {
        RegionRelationshipKind::XorEncoded
    } else if lead.kind == WorkbenchLeadKind::EntropyBoundary {
        RegionRelationshipKind::Adjacent
    } else {
        RegionRelationshipKind::Similar
    }
}

/// The relationships one lead contributes.
pub open spec fn lead_relationship_views(lead: WorkbenchLead, generation: u64) -> Seq<
    (int, int, int, RegionRelationshipKind, (u64, u64, Seq<(u64, u64)>), Seq<char>),
> {
    if lead.source_ranges@.len() >= 2 {
        seq![
            (
                relationship_id_spec(lead) as int,
                region_id_spec(lead, 0) as int,
                region_id_spec(lead, 1) as int,
                relationship_kind_spec(lead),
                (1u64, generation, provenance_pairs(lead.source_ranges@)),
                evidence_summary_spec(lead.evidence),
            ),
        ]
    } else {
        Seq::empty()
    }
}

/// All regions of the leads, lead after lead, range after range.
pub open spec fn detected_regions(leads: Seq<WorkbenchLead>, generation: u64) -> Seq<
    (int, Seq<char>, (int, Seq<char>), (u64, u64, Seq<(u64, u64)>), Option<RegionId>),
>
    decreases leads.len(),
{
    if leads.len() == 0 {
        Seq::empty()
    } else {
        let lead = leads.last();
        detected_regions(leads.drop_last(), generation) + Seq::new(
            lead.source_ranges@.len(),
            |i: int| lead_region_view(lead, i, generation),
        )
    }
}

/// All relationships of the leads, lead after lead.
pub open spec fn detected_relationships(leads: Seq<WorkbenchLead>, generation: u64) -> Seq<
    (int, int, int, RegionRelationshipKind, (u64, u64, Seq<(u64, u64)>), Seq<char>),
>
    decreases leads.len(),
{
    if leads.len() == 0 {
        Seq::empty()
    } else {
        detected_relationships(leads.drop_last(), generation) + lead_relationship_views(
            leads.last(),
            generation,
        )
    }
}

fn region_id_of(lead: &WorkbenchLead, index: usize) -> (id: RegionId)
    requires
        index < usize::MAX,
    ensures
        id.0 == region_id_spec(*lead, index as int),
{
    RegionId(((lead.id.0 as u128) << 8u128) | ((index + 1) as u128))
}

fn lead_region(lead: &WorkbenchLead, index: usize, generation: u64) -> (region: LivingRegion)
    requires
        index < lead.source_ranges.len(),
    ensures
        region_view(region) == lead_region_view(*lead, index as int, generation),
{
    let mut label = discovery_title(lead).to_owned();
    push_str(&mut label, " · range ");
    push_decimal(&mut label, (index + 1) as u64);
    LivingRegion {
        id: region_id_of(lead, index),
        label,
        kind: detected_region_kind(lead.kind),
        provenance: single_range_provenance(lead.source_ranges[index], generation),
        parent_id: None,
    }
}

fn relationship_kind_of(lead: &WorkbenchLead) -> (kind: RegionRelationshipKind)
    ensures
        kind == relationship_kind_spec(*lead),
{
    match (&lead.kind, &lead.evidence) {
        (WorkbenchLeadKind::ExactRepeat, _) => RegionRelationshipKind::Repeats,
        (
            WorkbenchLeadKind::TransformCandidate,
            WorkbenchEvidence::XorCorrelatedTransform { .. },
        ) => RegionRelationshipKind::XorEncoded,
        (WorkbenchLeadKind::EntropyBoundary, _) => RegionRelationshipKind::Adjacent,
        _ => RegionRelationshipKind::Similar,
    }
}

/// Builds the region model of a list of leads: one region per exact range,
/// labelled by the lead's title and the range's position, and, where a lead
/// has two or more ranges, a relationship from its first region to its
/// second.
pub fn build_detected_region_model(findings: &[WorkbenchLead], generation: u64) -> (result: Result<
    RegionModel,
    String,
>)
    ensures
        result matches Ok(model) && {
            &&& model.regions@.map_values(|r: LivingRegion| region_view(r)) == detected_regions(
                findings@,
                generation,
            )
            &&& model.relationships@.map_values(|r: RegionRelationship| relationship_view(r))
                == detected_relationships(findings@, generation)
        },
{
    let mut model = RegionModel { regions: Vec::new(), relationships: Vec::new() };
    let mut li: usize = 0;
    while li < findings.len()
        invariant
            li <= findings.len(),
            model.regions@.map_values(|r: LivingRegion| region_view(r)) == detected_regions(
                findings@.take(li as int),
                generation,
            ),
            model.relationships@.map_values(|r: RegionRelationship| relationship_view(r))
                == detected_relationships(findings@.take(li as int), generation),
        decreases findings.len() - li,
    {
        let finding = &findings[li];
        let ghost lead = findings@[li as int];
        let ghost taken = findings@.take(li as int);
        let ghost next = findings@.take(li + 1);
        assert(next.drop_last() =~= taken);
        let ghost regions_before = model.regions@.map_values(|r: LivingRegion| region_view(r));
        let n = finding.source_ranges.len();
        let mut index: usize = 0;
        while index < n
            invariant
                li < findings.len(),
                lead == findings@[li as int],
                *finding == lead,
                n == lead.source_ranges@.len(),
                index <= n,
                regions_before == detected_regions(taken, generation),
                model.relationships@.map_values(|r: RegionRelationship| relationship_view(r))
                    == detected_relationships(taken, generation),
                model.regions@.map_values(|r: LivingRegion| region_view(r)) == regions_before
                    + Seq::new(index as nat, |i: int| lead_region_view(lead, i, generation)),
            decreases n - index,
        {
            let region = lead_region(finding, index, generation);
            let ghost before = model.regions@.map_values(|r: LivingRegion| region_view(r));
            model.regions.push(region);
            index = index + 1;
            assert(model.regions@.map_values(|r: LivingRegion| region_view(r)) =~= before.push(
                lead_region_view(lead, index - 1, generation),
            ));
            assert(Seq::new(index as nat, |i: int| lead_region_view(lead, i, generation))
                =~= Seq::new((index - 1) as nat, |i: int| lead_region_view(lead, i, generation)).push(
                lead_region_view(lead, index - 1, generation),
            ));
        }
        let ghost relationships_before = model.relationships@.map_values(
            |r: RegionRelationship| relationship_view(r),
        );
        if n >= 2 {
            let relationship = RegionRelationship {
                id: RegionRelationshipId(((finding.id.0 as u128) << 8u128) | 0xf0u128),
                from: region_id_of(finding, 0),
                to: region_id_of(finding, 1),
                kind: relationship_kind_of(finding),
                provenance: discovery_provenance(finding.source_ranges.as_slice(), generation),
                rationale: discovery_evidence_summary(finding),
            };
            model.relationships.push(relationship);
            assert(model.relationships@.map_values(|r: RegionRelationship| relationship_view(r))
                =~= relationships_before + lead_relationship_views(lead, generation));
        } else {
            assert(model.relationships@.map_values(|r: RegionRelationship| relationship_view(r))
                =~= relationships_before + lead_relationship_views(lead, generation));
        }
        assert(detected_regions(next, generation) =~= detected_regions(taken, generation) + Seq::new(
            lead.source_ranges@.len(),
            |i: int| lead_region_view(lead, i, generation),
        ));
        assert(detected_relationships(next, generation) =~= detected_relationships(taken, generation)
            + lead_relationship_views(lead, generation));
        li = li + 1;
    }
    assert(findings@.take(findings.len() as int) =~= findings@);
    Ok(model)
}

/// Every lead with two or more ranges relates its first two regions, with a
/// kind fixed by the lead: an exact repeat's regions repeat each other, an
/// XOR-correlated transform's are XOR-encoded copies, an entropy boundary's
/// are adjacent, and any other lead's are similar.
pub proof fn lemma_lead_relationship_kinds(leads: Seq<WorkbenchLead>, generation: u64, j: int)
    requires
        0 <= j < leads.len(),
        leads[j].source_ranges@.len() >= 2,
    ensures
        exists|i: int|
            0 <= i < detected_relationships(leads, generation).len() && {
                let r = #[trigger] detected_relationships(leads, generation)[i];
                &&& r.1 == region_id_spec(leads[j], 0)
                &&& r.2 == region_id_spec(leads[j], 1)
                &&& leads[j].kind == WorkbenchLeadKind::ExactRepeat ==> r.3
                    == RegionRelationshipKind::Repeats
                &&& leads[j].kind == WorkbenchLeadKind::TransformCandidate
                    && leads[j].evidence is XorCorrelatedTransform ==> r.3
                    == RegionRelationshipKind::XorEncoded
                &&& leads[j].kind == WorkbenchLeadKind::EntropyBoundary ==> r.3
                    == RegionRelationshipKind::Adjacent
                &&& leads[j].kind != WorkbenchLeadKind::ExactRepeat && leads[j].kind
                    != WorkbenchLeadKind::EntropyBoundary && !(leads[j].kind
                    == WorkbenchLeadKind::TransformCandidate
                    && leads[j].evidence is XorCorrelatedTransform) ==> r.3
                    == RegionRelationshipKind::Similar
            },
    decreases leads.len(),
{
    let prefix = detected_relationships(leads.drop_last(), generation);
    let whole = detected_relationships(leads, generation);
    assert(whole == prefix + lead_relationship_views(leads.last(), generation));
    if j < leads.len() - 1 {
        lemma_lead_relationship_kinds(leads.drop_last(), generation, j);
        assert(leads.drop_last()[j] == leads[j]);
        let i = choose|i: int|
            0 <= i < prefix.len() && {
                let r = #[trigger] prefix[i];
                &&& r.1 == region_id_spec(leads[j], 0)
                &&& r.2 == region_id_spec(leads[j], 1)
                &&& leads[j].kind == WorkbenchLeadKind::ExactRepeat ==> r.3
                    == RegionRelationshipKind::Repeats
                &&& leads[j].kind == WorkbenchLeadKind::TransformCandidate
                    && leads[j].evidence is XorCorrelatedTransform ==> r.3
                    == RegionRelationshipKind::XorEncoded
                &&& leads[j].kind == WorkbenchLeadKind::EntropyBoundary ==> r.3
                    == RegionRelationshipKind::Adjacent
                &&& leads[j].kind != WorkbenchLeadKind::ExactRepeat && leads[j].kind
                    != WorkbenchLeadKind::EntropyBoundary && !(leads[j].kind
                    == WorkbenchLeadKind::TransformCandidate
                    && leads[j].evidence is XorCorrelatedTransform) ==> r.3
                    == RegionRelationshipKind::Similar
            };
        assert(whole[i] == prefix[i]);
    } else {
        assert(leads.last() == leads[j]);
        assert(whole[prefix.len() as int] == lead_relationship_views(leads[j], generation)[0]);
    }
}

/// Column of a comparison class in the comparison summary.
pub open spec fn comparison_class_index_spec(classification: ComparisonClassification) -> usize {
    match classification {
        ComparisonClassification::Unchanged => 0,
        ComparisonClassification::Moved => 1,
        ComparisonClassification::Modified => 2,
        ComparisonClassification::New => 3,
    }
}

/// Column of a comparison class in the comparison summary.
pub fn comparison_class_index(classification: ComparisonClassification) -> (index: usize)
    ensures
        index == comparison_class_index_spec(classification),
{
    match classification {
        ComparisonClassification::Unchanged => 0,
        ComparisonClassification::Moved => 1,
        ComparisonClassification::Modified => 2,
        ComparisonClassification::New => 3,
    }
}

/// Badge text of a lead kind.
pub open spec fn discovery_kind_label_spec(value: WorkbenchLeadKind) -> Seq<char> {
    match value {
        WorkbenchLeadKind::EntropyBoundary => "BOUNDARY"@,
        WorkbenchLeadKind::ExactRepeat => "EXACT REPEAT"@,
        WorkbenchLeadKind::Periodicity => "PERIODICITY"@,
        WorkbenchLeadKind::EmbeddedSignature => "SIGNATURE"@,
        WorkbenchLeadKind::TransformCandidate => "REVERSIBLE TEST"@,
        WorkbenchLeadKind::CatalogSignature => "CATALOG MATCH"@,
    }
}

/// Title of a lead of the given kind.
pub open spec fn discovery_title_spec(value: WorkbenchLeadKind) -> Seq<char> {
    match value {
        WorkbenchLeadKind::EntropyBoundary => "Entropy boundary"@,
        WorkbenchLeadKind::ExactRepeat => "Exact repeated bytes"@,
        WorkbenchLeadKind::Periodicity => "Candidate record width"@,
        WorkbenchLeadKind::EmbeddedSignature => "Embedded object signature"@,
        WorkbenchLeadKind::TransformCandidate => "Reversible transform candidate"@,
        WorkbenchLeadKind::CatalogSignature => "Catalog pattern match"@,
    }
}

/// The suggested next step for a lead of the given kind.
pub open spec fn discovery_next_action_spec(value: WorkbenchLeadKind) -> Seq<char> {
    match value {
        WorkbenchLeadKind::EntropyBoundary => "Compare both sides and inspect signatures"@,
        WorkbenchLeadKind::ExactRepeat => "Find all echoes and compare surrounding context"@,
        WorkbenchLeadKind::Periodicity => "Open the record lab at the candidate stride"@,
        WorkbenchLeadKind::EmbeddedSignature => "Verify bounds before carving the object"@,
        WorkbenchLeadKind::TransformCandidate => "Test a reversible branch and inspect deltas"@,
        WorkbenchLeadKind::CatalogSignature => "Inspect ambiguity and corroborate surrounding structure"@,
    }
}

/// Display name of a finding status.
pub open spec fn finding_status_label_spec(value: FindingStatus) -> Seq<char> {
    match value {
        FindingStatus::Candidate => "candidate"@,
        FindingStatus::Promoted => "evidence"@,
        FindingStatus::Dismissed => "dismissed"@,
    }
}

/// Display name of a hypothesis status.
pub open spec fn hypothesis_status_label_spec(value: HypothesisStatus) -> Seq<char> {
    match value {
        HypothesisStatus::Draft => "draft"@,
        HypothesisStatus::Tested => "tested"@,
        HypothesisStatus::Supported => "supported"@,
        HypothesisStatus::Rejected => "rejected"@,
    }
}

/// How a transform changed the measured interpretation.
pub open spec fn transform_assessment_label_spec(value: TransformAssessment) -> Seq<char> {
    match value {
        TransformAssessment::Supported => "strengthened"@,
        TransformAssessment::Neutral => "neutral"@,
        TransformAssessment::Contradicted => "weakened"@,
    }
}

/// Display name of a region relationship.
pub open spec fn region_relationship_label_spec(value: RegionRelationshipKind) -> Seq<char> {
    match value {
        RegionRelationshipKind::References => "REFERENCES"@,
        RegionRelationshipKind::Adjacent => "ADJACENT"@,
        RegionRelationshipKind::Similar => "SIMILAR"@,
        RegionRelationshipKind::Repeats => "REPEATS"@,
        RegionRelationshipKind::XorEncoded => "XOR-ENCODED"@,
    }
}

/// Display name of a comparison class.
pub open spec fn comparison_class_label_spec(value: ComparisonClassification) -> Seq<char> {
    match value {
        ComparisonClassification::Unchanged => "UNCHANGED"@,
        ComparisonClassification::Moved => "MOVED"@,
        ComparisonClassification::Modified => "MODIFIED"@,
        ComparisonClassification::New => "NEW"@,
    }
}

/// Badge text of a lead kind.
pub fn discovery_kind_label(kind: WorkbenchLeadKind) -> (label: &'static str)
    ensures
        label@ == discovery_kind_label_spec(kind),
{
    match kind {
        WorkbenchLeadKind::EntropyBoundary => "BOUNDARY",
        WorkbenchLeadKind::ExactRepeat => "EXACT REPEAT",
        WorkbenchLeadKind::Periodicity => "PERIODICITY",
        WorkbenchLeadKind::EmbeddedSignature => "SIGNATURE",
        WorkbenchLeadKind::TransformCandidate => "REVERSIBLE TEST",
        WorkbenchLeadKind::CatalogSignature => "CATALOG MATCH",
    }
}

/// Title of a lead of the given kind.
pub fn discovery_title_of_kind(kind: WorkbenchLeadKind) -> (label: &'static str)
    ensures
        label@ == discovery_title_spec(kind),
{
    match kind {
        WorkbenchLeadKind::EntropyBoundary => "Entropy boundary",
        WorkbenchLeadKind::ExactRepeat => "Exact repeated bytes",
        WorkbenchLeadKind::Periodicity => "Candidate record width",
        WorkbenchLeadKind::EmbeddedSignature => "Embedded object signature",
        WorkbenchLeadKind::TransformCandidate => "Reversible transform candidate",
        WorkbenchLeadKind::CatalogSignature => "Catalog pattern match",
    }
}

/// The suggested next step for a lead of the given kind.
pub fn discovery_next_action_of_kind(kind: WorkbenchLeadKind) -> (label: &'static str)
    ensures
        label@ == discovery_next_action_spec(kind),
{
    match kind {
        WorkbenchLeadKind::EntropyBoundary => "Compare both sides and inspect signatures",
        WorkbenchLeadKind::ExactRepeat => "Find all echoes and compare surrounding context",
        WorkbenchLeadKind::Periodicity => "Open the record lab at the candidate stride",
        WorkbenchLeadKind::EmbeddedSignature => "Verify bounds before carving the object",
        WorkbenchLeadKind::TransformCandidate => "Test a reversible branch and inspect deltas",
        WorkbenchLeadKind::CatalogSignature => "Inspect ambiguity and corroborate surrounding structure",
    }
}

/// Display name of a finding status.
pub fn finding_status_label(status: FindingStatus) -> (label: &'static str)
    ensures
        label@ == finding_status_label_spec(status),
{
    match status {
        FindingStatus::Candidate => "candidate",
        FindingStatus::Promoted => "evidence",
        FindingStatus::Dismissed => "dismissed",
    }
}

/// Display name of a hypothesis status.
pub fn hypothesis_status_label(status: HypothesisStatus) -> (label: &'static str)
    ensures
        label@ == hypothesis_status_label_spec(status),
{
    match status {
        HypothesisStatus::Draft => "draft",
        HypothesisStatus::Tested => "tested",
        HypothesisStatus::Supported => "supported",
        HypothesisStatus::Rejected => "rejected",
    }
}

/// How a transform changed the measured interpretation.
pub fn transform_assessment_label(assessment: TransformAssessment) -> (label: &'static str)
    ensures
        label@ == transform_assessment_label_spec(assessment),
{
    match assessment {
        TransformAssessment::Supported => "strengthened",
        TransformAssessment::Neutral => "neutral",
        TransformAssessment::Contradicted => "weakened",
    }
}

/// Display name of a region relationship.
pub fn region_relationship_label(kind: RegionRelationshipKind) -> (label: &'static str)
    ensures
        label@ == region_relationship_label_spec(kind),
{
    match kind {
        RegionRelationshipKind::References => "REFERENCES",
        RegionRelationshipKind::Adjacent => "ADJACENT",
        RegionRelationshipKind::Similar => "SIMILAR",
        RegionRelationshipKind::Repeats => "REPEATS",
        RegionRelationshipKind::XorEncoded => "XOR-ENCODED",
    }
}

/// Display name of a comparison class.
pub fn comparison_class_label(classification: ComparisonClassification) -> (label: &'static str)
    ensures
        label@ == comparison_class_label_spec(classification),
{
    match classification {
        ComparisonClassification::Unchanged => "UNCHANGED",
        ComparisonClassification::Moved => "MOVED",
        ComparisonClassification::Modified => "MODIFIED",
        ComparisonClassification::New => "NEW",
    }
}

} // verus!

use strata_poc::discovery::{
    build_detected_region_model, build_investigation_model, comparison_class_index,
    comparison_class_label, detected_region_kind, discovery_correlation_rationale,
    discovery_hypothesis_statement, discovery_kind_label, discovery_next_action,
    discovery_priority, discovery_provenance, discovery_title, discovery_transform,
    discovery_transform_range, finding_status_label, hypothesis_status_label,
    investigation_correlation_id, investigation_evidence_id, investigation_finding_id,
    investigation_hypothesis_id, manual_branch_lead_id, region_kind_label,
    region_relationship_label, signature_projection_offsets, transform_assessment_label,
    transform_label, ComparisonClassification, FindingStatus, HypothesisStatus,
    discovery_evidence_summary, InvestigationError, RegionKind, RegionRelationshipKind,
    ReversibleTransform, SignatureMatchMode, TransformAssessment, WorkbenchEvidence, WorkbenchLead,
    WorkbenchLeadId, WorkbenchLeadKind,
};
use strata_poc::ranges::ByteRange;

fn range(start: u64, end: u64) -> ByteRange {
    ByteRange { start, end }
}

fn lead(id: u64, kind: WorkbenchLeadKind, ranges: Vec<ByteRange>, evidence: WorkbenchEvidence) -> WorkbenchLead {
    WorkbenchLead {
        id: WorkbenchLeadId(id),
        kind,
        source_ranges: ranges,
        evidence,
    }
}

fn repeat() -> WorkbenchEvidence {
    WorkbenchEvidence::ExactRepeat {
        sampled_window_step: 64,
        matching_byte_count: 32,
    }
}

fn xor(key: u8, transformed: ByteRange) -> WorkbenchEvidence {
    WorkbenchEvidence::XorCorrelatedTransform {
        transform: ReversibleTransform::XorByte(key),
        transformed_range: transformed,
        correlated_byte_count: 120,
        distinct_byte_count: 40,
        sampled_window_step: 4,
    }
}

fn boundary() -> WorkbenchEvidence {
    WorkbenchEvidence::EntropyBoundary {
        before_entropy_bits: "1.25".to_owned(),
        after_entropy_bits: "7.90".to_owned(),
        entropy_delta_bits: "6.65".to_owned(),
    }
}

fn catalog(first: Option<&str>) -> WorkbenchEvidence {
    WorkbenchEvidence::CatalogSignature {
        first_candidate: first.map(str::to_owned),
        candidate_count: 3,
        mode: SignatureMatchMode::EmbeddedSearch,
        exact_byte_count: 4,
        distinct_exact_byte_count: 3,
        wildcard_byte_count: 2,
    }
}

#[test]
fn identifiers_occupy_distinct_low_bytes() {
    let id = WorkbenchLeadId(0x1234);
    assert_eq!(investigation_finding_id(id, 0).0, 0x12_3400);
    assert_eq!(investigation_finding_id(id, 7).0, 0x12_3407);
    assert_eq!(investigation_correlation_id(id).0, 0x12_3440);
    assert_eq!(investigation_hypothesis_id(id).0, 0x12_3480);
    assert_eq!(investigation_evidence_id(id).0, 0x12_34c0);
    assert_eq!(
        investigation_finding_id(WorkbenchLeadId(u64::MAX), 0xff).0,
        (u128::from(u64::MAX) << 8) | 0xff
    );
}

#[test]
fn priorities_and_labels() {
    assert_eq!(discovery_priority(WorkbenchLeadKind::TransformCandidate), 0);
    assert_eq!(discovery_priority(WorkbenchLeadKind::CatalogSignature), 1);
    assert_eq!(discovery_priority(WorkbenchLeadKind::EmbeddedSignature), 1);
    assert_eq!(discovery_priority(WorkbenchLeadKind::Periodicity), 2);
    assert_eq!(discovery_priority(WorkbenchLeadKind::EntropyBoundary), 3);
    assert_eq!(discovery_priority(WorkbenchLeadKind::ExactRepeat), 4);
    assert_eq!(discovery_kind_label(WorkbenchLeadKind::TransformCandidate), "REVERSIBLE TEST");
    assert_eq!(finding_status_label(FindingStatus::Promoted), "evidence");
    assert_eq!(hypothesis_status_label(HypothesisStatus::Rejected), "rejected");
    assert_eq!(transform_assessment_label(TransformAssessment::Contradicted), "weakened");
    assert_eq!(region_relationship_label(RegionRelationshipKind::XorEncoded), "XOR-ENCODED");
    assert_eq!(comparison_class_label(ComparisonClassification::Modified), "MODIFIED");
    assert_eq!(comparison_class_index(ComparisonClassification::New), 3);
    assert_eq!(transform_label(ReversibleTransform::XorByte(0x0a)), "XOR 0x0a");
    assert_eq!(region_kind_label(&RegionKind::Structure), "STRUCTURAL");
    assert_eq!(region_kind_label(&RegionKind::Custom("embedded-object".to_owned())), "EMBEDDED-OBJECT");
    assert!(matches!(
        detected_region_kind(WorkbenchLeadKind::ExactRepeat),
        RegionKind::Custom(label) if label == "repeated"
    ));
    assert!(matches!(detected_region_kind(WorkbenchLeadKind::Periodicity), RegionKind::Table));
}

#[test]
fn provenance_is_sorted_and_deduplicated() {
    let provenance = discovery_provenance(&[range(8, 9), range(1, 4), range(8, 9), range(1, 2)], 6);
    assert_eq!(provenance.source_id, 1);
    assert_eq!(provenance.generation, 6);
    assert_eq!(provenance.ranges, vec![range(1, 2), range(1, 4), range(8, 9)]);
}

#[test]
fn titles_statements_and_transforms() {
    let xor = lead(
        3,
        WorkbenchLeadKind::TransformCandidate,
        vec![range(0, 4), range(16, 20)],
        xor(0xa7, range(16, 20)),
    );
    assert_eq!(discovery_title(&xor), "Reversible transform candidate");
    assert_eq!(discovery_next_action(&xor), "Test a reversible branch and inspect deltas");
    assert_eq!(
        discovery_hypothesis_statement(&xor),
        "The second exact range is a reversible XOR 0xa7 branch of the first."
    );
    assert_eq!(
        discovery_correlation_rationale(&xor),
        "120 pairs satisfy A -> XOR 0xa7 -> B across 40 values; sampled step 4"
    );
    assert_eq!(discovery_transform(&xor), Some(ReversibleTransform::XorByte(0xa7)));
    assert_eq!(discovery_transform_range(&xor), Some(range(16, 20)));
    let period = lead(4, WorkbenchLeadKind::Periodicity, vec![range(0, 64)], WorkbenchEvidence::Periodicity { period_bytes: 16, compared_positions: 48, matching_positions: 47 });
    assert_eq!(
        discovery_hypothesis_statement(&period),
        "A 16-byte record interpretation may explain the local repetition."
    );
    assert_eq!(discovery_transform(&period), None);
    let catalog = lead(5, WorkbenchLeadKind::CatalogSignature, vec![], catalog(None));
    assert_eq!(
        discovery_hypothesis_statement(&catalog),
        "The exact bytes support the catalog pattern catalog candidate; structure and bounds still require corroboration."
    );
    assert_eq!(
        discovery_correlation_rationale(&catalog),
        "The analyzer supplied multiple exact contributing ranges."
    );
}

#[test]
fn manual_branch_ids_are_fnv1a_of_the_branch_identity() {
    let expected = |start: u64, end: u64, generation: u64, key: u8| {
        let mut hash = 0xcbf2_9ce4_8422_2325_u64;
        for byte in start
            .to_le_bytes()
            .into_iter()
            .chain(end.to_le_bytes())
            .chain(generation.to_le_bytes())
            .chain([key])
        {
            hash = (hash ^ u64::from(byte)).wrapping_mul(0x0000_0100_0000_01b3);
        }
        hash
    };
    for (start, end, generation, key) in [(0, 0, 0, 0), (16, 32, 7, 0xa7), (u64::MAX, 1, 99, 255)] {
        assert_eq!(
            manual_branch_lead_id(range(start, end), key, generation).0,
            expected(start, end, generation, key)
        );
    }
    assert_ne!(
        manual_branch_lead_id(range(16, 32), 1, 7),
        manual_branch_lead_id(range(16, 32), 2, 7)
    );
}

#[test]
fn investigation_model_links_ranges_and_drafts_hypotheses() -> Result<(), InvestigationError> {
    let leads = vec![
        lead(
            2,
            WorkbenchLeadKind::TransformCandidate,
            vec![range(0x10, 0x20), range(0x40, 0x50)],
            xor(1, range(0x40, 0x50)),
        ),
        lead(3, WorkbenchLeadKind::EntropyBoundary, vec![range(5, 6)], boundary()),
    ];
    let model = build_investigation_model(&leads, 9)?;
    let ids: Vec<u128> = model.findings.iter().map(|f| f.id.0).collect();
    assert_eq!(ids, vec![0x200, 0x201, 0x202, 0x300]);
    assert_eq!(model.findings[1].title, "Linked range 1");
    assert_eq!(model.findings[1].detail, "0x00000010..0x00000020");
    assert_eq!(
        model.findings[0].detail,
        "120 pairs satisfy A -> XOR 0x01 -> B across 40 values; sampled step 4"
    );
    assert_eq!(
        model.findings[3].detail,
        "entropy changes 1.25 -> 7.90 bits/byte (delta 6.65)"
    );
    assert_eq!(model.findings[3].title, "Entropy boundary");
    assert_eq!(model.correlations.len(), 1);
    assert_eq!(model.correlations[0].id.0, 0x240);
    let members: Vec<u128> = model.correlations[0].finding_ids.iter().map(|f| f.0).collect();
    assert_eq!(members, vec![0x201, 0x202]);
    assert_eq!(model.hypotheses.len(), 1);
    assert_eq!(model.hypotheses[0].id.0, 0x280);
    assert_eq!(model.hypotheses[0].status, HypothesisStatus::Draft);
    assert_eq!(model.hypotheses[0].provenance.generation, 9);
    Ok(())
}

#[test]
fn investigation_model_refuses_more_linked_ranges_than_a_byte_numbers() {
    let many: Vec<ByteRange> = (0..256).map(|i| range(i, i + 1)).collect();
    let leads = vec![lead(1, WorkbenchLeadKind::ExactRepeat, many, repeat())];
    assert_eq!(
        build_investigation_model(&leads, 0).err(),
        Some(InvestigationError::InvalidCorrelationMembers)
    );
    let fine: Vec<ByteRange> = (0..255).map(|i| range(i, i + 1)).collect();
    let leads = vec![lead(1, WorkbenchLeadKind::ExactRepeat, fine, repeat())];
    assert!(build_investigation_model(&leads, 0).is_ok());
}

#[test]
fn region_model_numbers_ranges_and_relates_the_first_two() -> Result<(), String> {
    let leads = vec![lead(
        7,
        WorkbenchLeadKind::ExactRepeat,
        vec![range(0, 8), range(32, 40), range(64, 72)],
        repeat(),
    )];
    let model = build_detected_region_model(&leads, 1)?;
    let ids: Vec<u128> = model.regions.iter().map(|r| r.id.0).collect();
    assert_eq!(ids, vec![0x701, 0x702, 0x703]);
    assert_eq!(model.regions[2].label, "Exact repeated bytes · range 3");
    assert_eq!(model.relationships.len(), 1);
    assert_eq!(model.relationships[0].id.0, 0x7f0);
    assert_eq!((model.relationships[0].from.0, model.relationships[0].to.0), (0x701, 0x702));
    assert_eq!(model.relationships[0].kind, RegionRelationshipKind::Repeats);
    assert_eq!(
        model.relationships[0].rationale,
        "32 exact bytes repeat; sampled every 64 source bytes"
    );
    Ok(())
}

#[test]
fn signature_offsets_are_distinct_catalog_starts() {
    let leads = vec![
        lead(1, WorkbenchLeadKind::CatalogSignature, vec![range(40, 44), range(8, 9)], catalog(Some("ELF"))),
        lead(2, WorkbenchLeadKind::EmbeddedSignature, vec![range(3, 4)], WorkbenchEvidence::EmbeddedSignature { signature: "Zip".to_owned() }),
        lead(3, WorkbenchLeadKind::CatalogSignature, vec![range(8, 12)], catalog(None)),
    ];
    assert_eq!(signature_projection_offsets(&leads), vec![8, 40]);
}

#[test]
fn evidence_summaries_render_every_kind() {
    let summary = |evidence| discovery_evidence_summary(&lead(1, WorkbenchLeadKind::Periodicity, vec![], evidence));
    assert_eq!(
        summary(WorkbenchEvidence::Periodicity {
            period_bytes: 16,
            compared_positions: 48,
            matching_positions: 47
        }),
        "period 16 bytes: 47 of 48 aligned positions agree"
    );
    assert_eq!(
        summary(WorkbenchEvidence::EmbeddedSignature {
            signature: "Zip".to_owned()
        }),
        "exact Zip magic bytes; signature is a lead, not a parser claim"
    );
    assert_eq!(
        summary(WorkbenchEvidence::TransformCandidate {
            transform: ReversibleTransform::XorByte(0x20),
            source_range: range(0, 8),
            before_text_likelihood_percent: "12".to_owned(),
            after_text_likelihood_percent: "88".to_owned(),
            assessment: TransformAssessment::Supported,
        }),
        "XOR 0x20 changes text likelihood 12% -> 88% (strengthened)"
    );
    assert_eq!(
        summary(catalog(Some("PNG image"))),
        "PNG image: 4 exact bytes / 3 distinct + 2 wildcard at embedded search; 2 competing interpretation(s)"
    );
    assert_eq!(
        summary(WorkbenchEvidence::CatalogSignature {
            first_candidate: None,
            candidate_count: 0,
            mode: SignatureMatchMode::DeclaredOffset,
            exact_byte_count: 1,
            distinct_exact_byte_count: 1,
            wildcard_byte_count: 0,
        }),
        "unnamed signature: 1 exact bytes / 1 distinct + 0 wildcard at declared offset; 0 competing interpretation(s)"
    );
    assert_eq!(summary(repeat()), "32 exact bytes repeat; sampled every 64 source bytes");
}

use strata_poc::cohort::{
    coalesce_ranges, concentration, materialize_analytical_cohort, select_cohort,
    stored_cohort_from_selection, CohortError, ProjectedMember, SampledByteId,
    SourceByteConcentration, MAX_COHORT_MEMBERS,
};
use strata_poc::projection::ProjectionKind;

struct Rectangle {
    min_x: f32,
    min_y: f32,
    max_x: f32,
    max_y: f32,
}

impl Rectangle {
    fn from_endpoints(first_x: f32, first_y: f32, second_x: f32, second_y: f32) -> Self {
        Self {
            min_x: first_x.min(second_x),
            min_y: first_y.min(second_y),
            max_x: first_x.max(second_x),
            max_y: first_y.max(second_y),
        }
    }

    fn contains(&self, x: f32, y: f32) -> bool {
        x.is_finite()
            && y.is_finite()
            && (self.min_x..=self.max_x).contains(&x)
            && (self.min_y..=self.max_y).contains(&y)
    }
}

fn member(offsets: [usize; 3], range: [usize; 2]) -> ProjectedMember {
    ProjectedMember {
        source_offsets: offsets,
        source_range: range,
    }
}

#[test]
fn selection_is_stable_and_coalesces_exact_offsets() -> Result<(), CohortError> {
    let rectangle = Rectangle::from_endpoints(0.0, 0.0, 10.0, 10.0);
    let screen = [(1.0_f32, 1.0_f32), (8.0, 2.0), (6.0, 6.0), (11.0, 2.0)];
    let members = [
        member([5, 6, 8], [5, 9]),
        member([7, 8, 9], [7, 10]),
        member([25, 25, 26], [25, 27]),
        member([50, 51, 52], [50, 53]),
    ];
    let selected: Vec<bool> = screen
        .iter()
        .map(|&(x, y)| rectangle.contains(x, y))
        .collect();
    let selection = select_cohort(&members, &selected, None)?;
    assert_eq!(selection.members, members[..3]);
    assert_eq!(selection.source_ranges, vec![5..10, 25..27]);
    assert_eq!(selection.metrics.member_count, 3);
    assert_eq!(selection.metrics.source_span, Some(5..27));
    assert_eq!(selection.metrics.unique_byte_count, 7);
    assert_eq!(selection.metrics.source_byte_concentration, None);
    assert!(!selection.truncated);
    Ok(())
}

#[test]
fn selection_reports_source_byte_concentration_and_bound() -> Result<(), CohortError> {
    let rectangle = Rectangle::from_endpoints(0.0, 0.0, 2.0, 2.0);
    let members: Vec<_> = (0..MAX_COHORT_MEMBERS.saturating_add(1))
        .map(|offset| member([offset, offset, offset], [offset, offset.saturating_add(1)]))
        .collect();
    let selected = vec![rectangle.contains(1.0, 1.0); members.len()];
    let mut source = vec![9_u8; MAX_COHORT_MEMBERS.saturating_add(1)];
    source[1..4].fill(4);
    let selection = select_cohort(&members, &selected, Some(&source))?;
    assert_eq!(selection.members.len(), MAX_COHORT_MEMBERS);
    assert!(selection.truncated);
    assert_eq!(
        selection.metrics.source_byte_concentration,
        Some(SourceByteConcentration {
            byte: 9,
            occurrences: MAX_COHORT_MEMBERS.saturating_sub(3),
            observed_offsets: MAX_COHORT_MEMBERS,
        })
    );
    Ok(())
}

#[test]
fn duplicate_instances_collapse_and_missing_flags_count_as_outside() -> Result<(), CohortError> {
    let members = [
        member([1, 2, 3], [1, 4]),
        member([1, 2, 3], [1, 4]),
        member([1, 2, 3], [1, 5]),
        member([9, 9, 9], [9, 10]),
    ];
    let selection = select_cohort(&members, &[true, true, true], None)?;
    assert_eq!(selection.members, vec![members[0], members[2]]);
    assert_eq!(selection.source_ranges, vec![1..5]);
    assert_eq!(selection.metrics.unique_byte_count, 4);
    let empty = select_cohort(&members, &[], None)?;
    assert!(empty.members.is_empty());
    assert_eq!(empty.metrics.source_span, None);
    assert_eq!(empty.metrics.unique_byte_count, 0);
    Ok(())
}

#[test]
fn empty_member_ranges_are_refused() {
    let members = [member([3, 3, 3], [3, 3])];
    assert_eq!(
        select_cohort(&members, &[true], None).err(),
        Some(CohortError::OffsetOverflow)
    );
    assert_eq!(coalesce_ranges(&members), Err(CohortError::OffsetOverflow));
    assert_eq!(
        coalesce_ranges(&[member([0, 0, 0], [8, 12]), member([0, 0, 0], [0, 4]), member([0, 0, 0], [4, 6])]),
        Ok(vec![0..6, 8..12])
    );
}

#[test]
fn concentration_prefers_the_lower_byte_on_a_tie() {
    let bytes = [7_u8, 3, 7, 3, 1];
    assert_eq!(
        concentration(&bytes, &[0..4]),
        Some(SourceByteConcentration {
            byte: 3,
            occurrences: 2,
            observed_offsets: 4,
        })
    );
    assert_eq!(
        concentration(&bytes, &[4..5, 0..1, 3..9]),
        Some(SourceByteConcentration {
            byte: 1,
            occurrences: 1,
            observed_offsets: 2,
        })
    );
    assert_eq!(concentration(&bytes, &[5..9]), None);
    assert_eq!(concentration(&bytes, &[]), None);
}

#[test]
fn stored_cohort_widens_offsets_and_ranges() -> Result<(), String> {
    let members = [member([4, 5, 6], [4, 7]), member([10, 10, 11], [10, 12])];
    let selection = select_cohort(&members, &[true, true], None).map_err(|e| format!("{e:?}"))?;
    let stored = stored_cohort_from_selection(&selection)?;
    assert_eq!(stored.members, vec![[4, 5, 6], [10, 10, 11]]);
    assert_eq!(stored.member_ranges.len(), 2);
    assert_eq!((stored.member_ranges[1].start, stored.member_ranges[1].end), (10, 12));
    assert_eq!(stored.exact_ranges.len(), 2);
    assert_eq!((stored.exact_ranges[0].start, stored.exact_ranges[0].end), (4, 7));
    Ok(())
}

#[test]
fn analytical_cohort_has_one_sample_per_distinct_offset() -> Result<(), String> {
    let members = [member([2, 3, 2], [2, 4]), member([1, 3, 3], [1, 4])];
    let selection = select_cohort(&members, &[true, true], Some(&[10, 20, 30, 40, 50]))
        .map_err(|e| format!("{e:?}"))?;
    let model = materialize_analytical_cohort(&selection, &[10, 20, 30, 40, 50], 5, ProjectionKind::Transitions)?;
    assert_eq!(model.source_id, 1);
    assert_eq!(model.generation, 5);
    let offsets: Vec<u64> = model.samples.iter().map(|s| s.id.offset).collect();
    assert_eq!(offsets, vec![1, 2, 3]);
    assert_eq!(model.samples[1].byte, 30);
    assert_eq!(model.samples[1].position, [30_000, 2, 2]);
    assert_eq!(model.samples[1].factors[0].name, "byte-value-milli");
    assert_eq!(model.samples[1].factors[0].contribution, 30_000);
    assert_eq!(model.samples[1].factors[1].name, "projection-space");
    assert_eq!(model.samples[1].factors[1].contribution, 2);
    assert_eq!(model.samples[1].provenance.ranges.len(), 1);
    assert_eq!(model.samples[1].provenance.ranges[0].start, 2);
    assert_eq!(model.samples[1].provenance.ranges[0].end, 3);
    let lasso = model.lasso.ok_or("missing lasso")?;
    assert_eq!(
        lasso.member_ids,
        vec![
            SampledByteId { source_id: 1, generation: 5, offset: 1 },
            SampledByteId { source_id: 1, generation: 5, offset: 2 },
            SampledByteId { source_id: 1, generation: 5, offset: 3 },
        ]
    );
    assert_eq!(
        lasso.explanation,
        "2 voxels remain linked because they occupied one screen-space cohort in Transition field."
    );
    let names: Vec<&str> = lasso.factors.iter().map(|f| f.name.as_str()).collect();
    assert_eq!(names, vec!["selected-voxels", "exact-source-bytes", "dominant-byte-0x14"]);
    let contributions: Vec<i64> = lasso.factors.iter().map(|f| f.contribution).collect();
    assert_eq!(contributions, vec![2, 3, 1]);
    Ok(())
}

#[test]
fn analytical_cohort_refuses_offsets_outside_the_source() -> Result<(), String> {
    let members = [member([1, 9, 2], [1, 3])];
    let selection = select_cohort(&members, &[true], None).map_err(|e| format!("{e:?}"))?;
    assert_eq!(
        materialize_analytical_cohort(&selection, &[1, 2, 3], 0, ProjectionKind::Hilbert).err(),
        Some("cohort offset is outside the immutable source".to_owned())
    );
    Ok(())
}

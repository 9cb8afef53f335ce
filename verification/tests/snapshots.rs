use strata_poc::projection::ProjectionComposition;
use strata_poc::session::{
    StoredBranchStatus, StoredCohort, StoredContourMode, StoredFindingDisposition,
    StoredFindingStatus, StoredRange, StoredRenderStyle, StoredResonanceMetric, StoredView,
    StoredWorkbenchMode, StoredXorBranch, POC_WORKSPACE_VERSION,
};
use strata_poc::changes::{key_precedes, session_changed_keys, JsonLeaf, JsonMember};
use strata_poc::journal::{
    validate_bundle_workspace_event, JournalEntryEvent, SessionJournalEntry, WorkspaceCheckpoint,
};
use strata_poc::snapshot::{FloatControlChecks, PocWorkspaceSnapshot, StoredProjectionState};

const IN_DOMAIN: FloatControlChecks = FloatControlChecks {
    composition_mix_in_domain: true,
    projection_controls_in_domain: true,
};

fn snapshot() -> PocWorkspaceSnapshot {
    PocWorkspaceSnapshot {
        version: POC_WORKSPACE_VERSION,
        source_generation: 4,
        active_view: StoredView::Projection3d,
        workbench_mode: StoredWorkbenchMode::Leads,
        exact_selection: vec![
            StoredRange { start: 4, end: 7 },
            StoredRange { start: 10, end: 12 },
        ],
        selected_lead: Some(9),
        selected_region: None,
        selected_comparison: None,
        finding_dispositions: vec![StoredFindingDisposition {
            lead_id: 9,
            status: StoredFindingStatus::Promoted,
        }],
        branches: vec![StoredXorBranch {
            id: [9, 44],
            label: "XOR 0xa7".to_owned(),
            range: StoredRange { start: 4, end: 12 },
            key: 0xa7,
            status: StoredBranchStatus::Pinned,
        }],
        selected_branch: Some([9, 44]),
        branch_key: 0xa7,
        cohort: Some(StoredCohort {
            members: vec![[4, 5, 6], [10, 10, 11]],
            member_ranges: Vec::new(),
            exact_ranges: vec![
                StoredRange { start: 4, end: 7 },
                StoredRange { start: 10, end: 12 },
            ],
        }),
        atlas_width: 32,
        digram_stride: 1,
        interleave_width: 24,
        interleave_stride: 6,
        interleave_lane: 5,
        bit_plane: 3,
        diff_width: 32,
        resonance_metric: StoredResonanceMetric::ByteShape,
        resonance_base_window: 8,
        resonance_stride: 1,
        resonance_sample_budget: 1_024,
        projection: StoredProjectionState {
            composition: Some(ProjectionComposition::default()),
            stride: 1,
            point_budget: 12_000,
            render_style: StoredRenderStyle::Voxels,
            contour_mode: StoredContourMode::Off,
            spin: false,
            auto_morph: false,
        },
    }
}

#[test]
fn snapshot_rejects_overlapping_ranges() {
    let mut snapshot = snapshot();
    snapshot.cohort = None;
    snapshot.exact_selection = vec![
        StoredRange { start: 4, end: 9 },
        StoredRange { start: 8, end: 12 },
    ];
    assert!(snapshot.validate(64, IN_DOMAIN).is_err());
}

#[test]
fn cohort_ranges_must_match_exact_member_offsets() {
    let mut snapshot = snapshot();
    if let Some(cohort) = &mut snapshot.cohort {
        cohort.exact_ranges = vec![StoredRange { start: 4, end: 12 }];
    }
    assert!(snapshot.validate(64, IN_DOMAIN).is_err());
}

#[test]
fn the_fixture_snapshot_is_accepted() {
    assert_eq!(snapshot().validate(64, IN_DOMAIN), Ok(()));
}

#[test]
fn snapshot_faults_are_reported_with_their_messages() {
    let mut s = snapshot();
    s.version = 3;
    assert_eq!(s.validate(64, IN_DOMAIN), Err("unsupported POC workspace version 3".to_owned()));

    let mut s = snapshot();
    s.exact_selection = vec![StoredRange { start: 4, end: 70 }];
    assert_eq!(
        s.validate(64, IN_DOMAIN),
        Err("stored selection range is empty or out of bounds".to_owned())
    );

    let mut s = snapshot();
    s.finding_dispositions.push(StoredFindingDisposition {
        lead_id: 9,
        status: StoredFindingStatus::Dismissed,
    });
    assert_eq!(
        s.validate(64, IN_DOMAIN),
        Err("duplicate stored finding disposition".to_owned())
    );

    let mut s = snapshot();
    s.branches[0].label = "a/b".to_owned();
    assert_eq!(
        s.validate(64, IN_DOMAIN),
        Err("stored branch label is empty, oversized, or locator-like".to_owned())
    );
    s.branches[0].label = "see https://x".to_owned();
    assert!(s.validate(64, IN_DOMAIN).is_err());

    let mut s = snapshot();
    s.branches[0].range = StoredRange { start: 4, end: 4 };
    assert_eq!(
        s.validate(64, IN_DOMAIN),
        Err("stored branch range is empty or out of bounds".to_owned())
    );

    let mut s = snapshot();
    let copy = s.branches[0].clone();
    s.branches.push(copy);
    assert_eq!(s.validate(64, IN_DOMAIN), Err("duplicate stored branch".to_owned()));

    let mut s = snapshot();
    s.selected_branch = Some([9, 45]);
    assert_eq!(
        s.validate(64, IN_DOMAIN),
        Err("selected branch is absent from stored branches".to_owned())
    );

    let mut s = snapshot();
    s.interleave_lane = 6;
    assert_eq!(
        s.validate(64, IN_DOMAIN),
        Err("stored view controls are outside their exact domains".to_owned())
    );

    let s = snapshot();
    assert_eq!(
        s.validate(
            64,
            FloatControlChecks {
                composition_mix_in_domain: false,
                projection_controls_in_domain: true
            }
        ),
        Err("projection composition parameters are outside their bounded domains".to_owned())
    );

    let mut s = snapshot();
    s.projection.point_budget = 2;
    assert_eq!(
        s.validate(64, IN_DOMAIN),
        Err("stored projection controls are outside their bounded domains".to_owned())
    );
    let s = snapshot();
    assert!(s
        .validate(
            64,
            FloatControlChecks {
                composition_mix_in_domain: true,
                projection_controls_in_domain: false
            }
        )
        .is_err());
}

fn checkpoint(sequence: u64, matches_manifest: bool) -> SessionJournalEntry {
    SessionJournalEntry {
        sequence,
        event: JournalEntryEvent::WorkspaceChanged(WorkspaceCheckpoint {
            snapshot: Ok(snapshot()),
            checks: IN_DOMAIN,
            matches_manifest,
        }),
    }
}

#[test]
fn journal_of_valid_checkpoints_ending_at_the_manifest_is_accepted() {
    let entries = vec![checkpoint(1, false), checkpoint(2, true)];
    assert_eq!(validate_bundle_workspace_event(&entries, 64), Ok(()));
}

#[test]
fn journal_refuses_foreign_events_and_undecodable_checkpoints() {
    let entries = vec![
        checkpoint(1, false),
        SessionJournalEntry { sequence: 2, event: JournalEntryEvent::Other },
        checkpoint(3, true),
    ];
    assert_eq!(
        validate_bundle_workspace_event(&entries, 64),
        Err("POC session event #2 is outside the source-free workspace contract".to_owned())
    );
    let entries = vec![SessionJournalEntry {
        sequence: 7,
        event: JournalEntryEvent::WorkspaceChanged(WorkspaceCheckpoint {
            snapshot: Err("missing field `version`".to_owned()),
            checks: IN_DOMAIN,
            matches_manifest: true,
        }),
    }];
    assert_eq!(
        validate_bundle_workspace_event(&entries, 64),
        Err("invalid source-free workspace event #7: missing field `version`".to_owned())
    );
}

#[test]
fn journal_needs_a_final_checkpoint_equal_to_the_manifest() {
    assert_eq!(
        validate_bundle_workspace_event(&[], 64),
        Err("session journal has no workspace checkpoint".to_owned())
    );
    let entries = vec![checkpoint(1, true), checkpoint(2, false)];
    assert_eq!(
        validate_bundle_workspace_event(&entries, 64),
        Err("session manifest does not match its final workspace event".to_owned())
    );
    let entries = vec![checkpoint(1, true)];
    assert!(validate_bundle_workspace_event(&entries, 8).is_err());
}

fn leaf(key: &str, text: &str) -> JsonLeaf {
    JsonLeaf { key: key.to_owned(), text: text.to_owned() }
}

fn member(key: &str, text: &str, members: Option<Vec<JsonLeaf>>) -> JsonMember {
    JsonMember { key: key.to_owned(), text: text.to_owned(), members }
}

#[test]
fn changed_keys_walk_both_objects_in_key_order() {
    let current = vec![
        member("a", "1", None),
        member("b", r#"{"x":1,"y":2}"#, Some(vec![leaf("x", "1"), leaf("y", "2")])),
        member("c", "3", None),
    ];
    let saved = vec![
        member(
            "b",
            r#"{"x":1,"y":3,"z":0}"#,
            Some(vec![leaf("x", "1"), leaf("y", "3"), leaf("z", "0")]),
        ),
        member("c", "3", None),
        member("d", "4", None),
    ];
    assert_eq!(
        session_changed_keys(&current, &saved),
        vec!["a".to_owned(), "b.y".to_owned(), "b.z".to_owned(), "d".to_owned()]
    );
    assert!(session_changed_keys(&current, &current).is_empty());
}

#[test]
fn changed_object_against_scalar_is_named_whole() {
    let current = vec![member("view", r#"{"kind":1}"#, Some(vec![leaf("kind", "1")]))];
    let saved = vec![member("view", "null", None)];
    assert_eq!(session_changed_keys(&current, &saved), vec!["view".to_owned()]);
    assert!(key_precedes("ab", "b"));
    assert!(key_precedes("a", "ab"));
    assert!(!key_precedes("b", "ab"));
}

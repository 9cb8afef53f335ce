//! Workbench view state: which view and mode are shown, the analysis
//! vocabularies the workbench persists (resonance metrics, branch states,
//! journal events), their display labels, and the exact conversions between
//! live and stored forms.

use vstd::prelude::*;

use crate::projection::ProjectionGeometry;
use crate::session::{
    StoredBranchStatus, StoredContourMode, StoredRenderStyle, StoredResonanceMetric, StoredView,
    StoredWorkbenchMode,
};

verus! {

/// A workbench view.
#[derive(Clone, Copy, Debug, PartialEq, Eq, Structural)]
pub enum ViewKind {
    Discover,
    Projection3d,
    Resonance,
    Structure,
    Grammar,
    Interleave,
    RevisionDiff,
}

/// What the discovery workbench lists.
#[derive(Clone, Copy, Debug, PartialEq, Eq, Structural)]
pub enum WorkbenchMode {
    Leads,
    Regions,
    Compare,
}

/// What dragging on the projection does.
#[derive(Clone, Copy, Debug, PartialEq, Eq, Structural)]
pub enum ProjectionInteraction {
    Rotate,
    SelectCohort,
}

/// Whether the density field draws isolines.
#[derive(Clone, Copy, Debug, PartialEq, Eq, Structural)]
pub enum ProjectionContourMode {
    Off,
    Isolines,
}

/// Which of the two compared projections an instance belongs to.
#[derive(Clone, Copy, Debug, PartialEq, Eq, Structural)]
pub enum ProjectionSlot {
    A,
    B,
}

/// How resonance candidates are compared with the probe.
#[derive(Clone, Copy, Debug, PartialEq, Eq, Structural)]
pub enum ResonanceMetric {
    ExactBytes,
    ByteShape,
    Texture,
}

/// Lifecycle of a hypothesis branch.
#[derive(Clone, Copy, Debug, PartialEq, Eq, Structural)]
pub enum BranchStatus {
    Draft,
    Active,
    Pinned,
    Discarded,
}

/// The kind of a session journal entry.
#[derive(Clone, Copy, Debug, PartialEq, Eq, Structural)]
pub enum JournalEventKind {
    WorkspaceChanged,
    ViewChanged,
    SelectionChanged,
    HypothesisApplied,
    AnnotationAdded,
}

/// The state of a link in the investigation dossier.
#[derive(Clone, Copy, Debug, PartialEq, Eq, Structural)]
pub enum DossierLinkState {
    Candidate,
    Supported,
    Tested,
    Rejected,
    Context,
}

/// Heading of a view.
pub open spec fn view_title(value: ViewKind) -> Seq<char> {
    match value {
        ViewKind::Discover => "Investigation map"@,
        ViewKind::Projection3d => "3D projection lab"@,
        ViewKind::Resonance => "Selection resonance field"@,
        ViewKind::Structure => "Structure atlas"@,
        ViewKind::Grammar => "Transition grammar"@,
        ViewKind::Interleave => "Record and interleave lab"@,
        ViewKind::RevisionDiff => "Aligned revision diff"@,
    }
}

/// One-line explanation of a view.
pub open spec fn view_note(value: ViewKind) -> Seq<char> {
    match value {
        ViewKind::Discover => "Ranked leads connect exact byte ranges to correlations, reversible transforms, and evidence."@,
        ViewKind::Projection3d => "Compose domain, projection, geometry, channels, and A/B comparison without losing byte identity."@,
        ViewKind::Resonance => "The current selection becomes a live query for echoes at five structural scales."@,
        ViewKind::Structure => "Byte classes and block entropy expose boundaries before parsing."@,
        ViewKind::Grammar => "Exact ordered-byte transitions recalculate for the shared selection."@,
        ViewKind::Interleave => "Stride, lane, and bit controls recover fixed-record structure."@,
        ViewKind::RevisionDiff => "Same-offset comparison separates unchanged and changed bytes."@,
    }
}

/// Display name of a slot.
pub open spec fn slot_label(value: ProjectionSlot) -> Seq<char> {
    match value {
        ProjectionSlot::A => "A"@,
        ProjectionSlot::B => "B"@,
    }
}

/// Display name of a resonance metric.
pub open spec fn resonance_metric_label_spec(value: ResonanceMetric) -> Seq<char> {
    match value {
        ResonanceMetric::ExactBytes => "exact bytes"@,
        ResonanceMetric::ByteShape => "byte shape"@,
        ResonanceMetric::Texture => "texture"@,
    }
}

/// Display name of a branch status.
pub open spec fn branch_status_label_spec(value: BranchStatus) -> Seq<char> {
    match value {
        BranchStatus::Draft => "draft"@,
        BranchStatus::Active => "active"@,
        BranchStatus::Pinned => "pinned"@,
        BranchStatus::Discarded => "discarded"@,
    }
}

/// Display name of a journal event.
pub open spec fn journal_event_label_spec(value: JournalEventKind) -> Seq<char> {
    match value {
        JournalEventKind::WorkspaceChanged => "workspace checkpoint"@,
        JournalEventKind::ViewChanged => "view changed"@,
        JournalEventKind::SelectionChanged => "selection changed"@,
        JournalEventKind::HypothesisApplied => "hypothesis applied"@,
        JournalEventKind::AnnotationAdded => "annotation added"@,
    }
}

/// Glyph of a dossier link state.
pub open spec fn dossier_link_state_label_spec(value: DossierLinkState) -> Seq<char> {
    match value {
        DossierLinkState::Candidate => "○"@,
        DossierLinkState::Supported => "●"@,
        DossierLinkState::Tested => "◐"@,
        DossierLinkState::Rejected => "×"@,
        DossierLinkState::Context => "↳"@,
    }
}

impl ViewKind {
    /// Heading of the view.
    pub fn title(self) -> (label: &'static str)
        ensures
            label@ == view_title(self),
    {
        match self {
            ViewKind::Discover => "Investigation map",
            ViewKind::Projection3d => "3D projection lab",
            ViewKind::Resonance => "Selection resonance field",
            ViewKind::Structure => "Structure atlas",
            ViewKind::Grammar => "Transition grammar",
            ViewKind::Interleave => "Record and interleave lab",
            ViewKind::RevisionDiff => "Aligned revision diff",
        }
    }

    /// One-line explanation of the view.
    pub fn note(self) -> (label: &'static str)
        ensures
            label@ == view_note(self),
    {
        match self {
            ViewKind::Discover => "Ranked leads connect exact byte ranges to correlations, reversible transforms, and evidence.",
            ViewKind::Projection3d => "Compose domain, projection, geometry, channels, and A/B comparison without losing byte identity.",
            ViewKind::Resonance => "The current selection becomes a live query for echoes at five structural scales.",
            ViewKind::Structure => "Byte classes and block entropy expose boundaries before parsing.",
            ViewKind::Grammar => "Exact ordered-byte transitions recalculate for the shared selection.",
            ViewKind::Interleave => "Stride, lane, and bit controls recover fixed-record structure.",
            ViewKind::RevisionDiff => "Same-offset comparison separates unchanged and changed bytes.",
        }
    }
}

impl ProjectionContourMode {
    /// Whether isolines are drawn.
    pub fn enabled(self) -> (enabled: bool)
        ensures
            enabled == (self == ProjectionContourMode::Isolines),
    {
        matches!(self, ProjectionContourMode::Isolines)
    }
}

impl ProjectionSlot {
    /// Display name of the slot.
    pub fn label(self) -> (label: &'static str)
        ensures
            label@ == slot_label(self),
    {
        match self {
            ProjectionSlot::A => "A",
            ProjectionSlot::B => "B",
        }
    }
}

/// Display name of a resonance metric.
pub fn resonance_metric_label(metric: ResonanceMetric) -> (label: &'static str)
    ensures
        label@ == resonance_metric_label_spec(metric),
{
    match metric {
        ResonanceMetric::ExactBytes => "exact bytes",
        ResonanceMetric::ByteShape => "byte shape",
        ResonanceMetric::Texture => "texture",
    }
}

/// Display name of a branch status.
pub fn branch_status_label(status: BranchStatus) -> (label: &'static str)
    ensures
        label@ == branch_status_label_spec(status),
{
    match status {
        BranchStatus::Draft => "draft",
        BranchStatus::Active => "active",
        BranchStatus::Pinned => "pinned",
        BranchStatus::Discarded => "discarded",
    }
}

/// Display name of a journal event.
pub fn journal_event_label(event: JournalEventKind) -> (label: &'static str)
    ensures
        label@ == journal_event_label_spec(event),
{
    match event {
        JournalEventKind::WorkspaceChanged => "workspace checkpoint",
        JournalEventKind::ViewChanged => "view changed",
        JournalEventKind::SelectionChanged => "selection changed",
        JournalEventKind::HypothesisApplied => "hypothesis applied",
        JournalEventKind::AnnotationAdded => "annotation added",
    }
}

/// Glyph of a dossier link state.
pub fn dossier_link_state_label(state: DossierLinkState) -> (label: &'static str)
    ensures
        label@ == dossier_link_state_label_spec(state),
{
    match state {
        DossierLinkState::Candidate => "○",
        DossierLinkState::Supported => "●",
        DossierLinkState::Tested => "◐",
        DossierLinkState::Rejected => "×",
        DossierLinkState::Context => "↳",
    }
}

/// The stored form of a view.
pub open spec fn stored_view_spec(value: ViewKind) -> StoredView {
    match value {
        ViewKind::Discover => StoredView::Discover,
        ViewKind::Projection3d => StoredView::Projection3d,
        ViewKind::Resonance => StoredView::Resonance,
        ViewKind::Structure => StoredView::Structure,
        ViewKind::Grammar => StoredView::Grammar,
        ViewKind::Interleave => StoredView::Interleave,
        ViewKind::RevisionDiff => StoredView::RevisionDiff,
    }
}

/// The stored form of a view.
pub fn stored_view(value: ViewKind) -> (stored: StoredView)
    ensures
        stored == stored_view_spec(value),
{
    match value {
        ViewKind::Discover => StoredView::Discover,
        ViewKind::Projection3d => StoredView::Projection3d,
        ViewKind::Resonance => StoredView::Resonance,
        ViewKind::Structure => StoredView::Structure,
        ViewKind::Grammar => StoredView::Grammar,
        ViewKind::Interleave => StoredView::Interleave,
        ViewKind::RevisionDiff => StoredView::RevisionDiff,
    }
}

/// The view a stored view restores.
pub open spec fn view_from_stored_spec(value: StoredView) -> ViewKind {
    match value {
        StoredView::Discover => ViewKind::Discover,
        StoredView::Projection3d => ViewKind::Projection3d,
        StoredView::Resonance => ViewKind::Resonance,
        StoredView::Structure => ViewKind::Structure,
        StoredView::Grammar => ViewKind::Grammar,
        StoredView::Interleave => ViewKind::Interleave,
        StoredView::RevisionDiff => ViewKind::RevisionDiff,
    }
}

/// The view a stored view restores.
pub fn view_from_stored(value: StoredView) -> (live: ViewKind)
    ensures
        live == view_from_stored_spec(value),
{
    match value {
        StoredView::Discover => ViewKind::Discover,
        StoredView::Projection3d => ViewKind::Projection3d,
        StoredView::Resonance => ViewKind::Resonance,
        StoredView::Structure => ViewKind::Structure,
        StoredView::Grammar => ViewKind::Grammar,
        StoredView::Interleave => ViewKind::Interleave,
        StoredView::RevisionDiff => ViewKind::RevisionDiff,
    }
}

/// Storing and restoring is lossless in both directions.
pub proof fn lemma_stored_view_round_trip(live: ViewKind, stored: StoredView)
    ensures
        view_from_stored_spec(stored_view_spec(live)) == live,
        stored_view_spec(view_from_stored_spec(stored)) == stored,
{
}

/// The stored form of a workbench mode.
pub open spec fn stored_workbench_mode_spec(value: WorkbenchMode) -> StoredWorkbenchMode {
    match value {
        WorkbenchMode::Leads => StoredWorkbenchMode::Leads,
        WorkbenchMode::Regions => StoredWorkbenchMode::Regions,
        WorkbenchMode::Compare => StoredWorkbenchMode::Compare,
    }
}

/// The stored form of a workbench mode.
pub fn stored_workbench_mode(value: WorkbenchMode) -> (stored: StoredWorkbenchMode)
    ensures
        stored == stored_workbench_mode_spec(value),
{
    match value {
        WorkbenchMode::Leads => StoredWorkbenchMode::Leads,
        WorkbenchMode::Regions => StoredWorkbenchMode::Regions,
        WorkbenchMode::Compare => StoredWorkbenchMode::Compare,
    }
}

/// The workbench mode a stored mode restores.
pub open spec fn workbench_mode_from_stored_spec(value: StoredWorkbenchMode) -> WorkbenchMode {
    match value {
        StoredWorkbenchMode::Leads => WorkbenchMode::Leads,
        StoredWorkbenchMode::Regions => WorkbenchMode::Regions,
        StoredWorkbenchMode::Compare => WorkbenchMode::Compare,
    }
}

/// The workbench mode a stored mode restores.
pub fn workbench_mode_from_stored(value: StoredWorkbenchMode) -> (live: WorkbenchMode)
    ensures
        live == workbench_mode_from_stored_spec(value),
{
    match value {
        StoredWorkbenchMode::Leads => WorkbenchMode::Leads,
        StoredWorkbenchMode::Regions => WorkbenchMode::Regions,
        StoredWorkbenchMode::Compare => WorkbenchMode::Compare,
    }
}

/// Storing and restoring is lossless in both directions.
pub proof fn lemma_stored_workbench_mode_round_trip(live: WorkbenchMode, stored: StoredWorkbenchMode)
    ensures
        workbench_mode_from_stored_spec(stored_workbench_mode_spec(live)) == live,
        stored_workbench_mode_spec(workbench_mode_from_stored_spec(stored)) == stored,
{
}

/// The stored form of a contour mode.
pub open spec fn stored_contour_mode_spec(value: ProjectionContourMode) -> StoredContourMode {
    match value {
        ProjectionContourMode::Off => StoredContourMode::Off,
        ProjectionContourMode::Isolines => StoredContourMode::Isolines,
    }
}

/// The stored form of a contour mode.
pub fn stored_contour_mode(value: ProjectionContourMode) -> (stored: StoredContourMode)
    ensures
        stored == stored_contour_mode_spec(value),
{
    match value {
        ProjectionContourMode::Off => StoredContourMode::Off,
        ProjectionContourMode::Isolines => StoredContourMode::Isolines,
    }
}

/// The contour mode a stored mode restores.
pub open spec fn contour_mode_from_stored_spec(value: StoredContourMode) -> ProjectionContourMode {
    match value {
        StoredContourMode::Off => ProjectionContourMode::Off,
        StoredContourMode::Isolines => ProjectionContourMode::Isolines,
    }
}

/// The contour mode a stored mode restores.
pub fn contour_mode_from_stored(value: StoredContourMode) -> (live: ProjectionContourMode)
    ensures
        live == contour_mode_from_stored_spec(value),
{
    match value {
        StoredContourMode::Off => ProjectionContourMode::Off,
        StoredContourMode::Isolines => ProjectionContourMode::Isolines,
    }
}

/// Storing and restoring is lossless in both directions.
pub proof fn lemma_stored_contour_mode_round_trip(live: ProjectionContourMode, stored: StoredContourMode)
    ensures
        contour_mode_from_stored_spec(stored_contour_mode_spec(live)) == live,
        stored_contour_mode_spec(contour_mode_from_stored_spec(stored)) == stored,
{
}

/// The stored form of a resonance metric.
pub open spec fn stored_resonance_metric_spec(value: ResonanceMetric) -> StoredResonanceMetric {
    match value {
        ResonanceMetric::ExactBytes => StoredResonanceMetric::ExactBytes,
        ResonanceMetric::ByteShape => StoredResonanceMetric::ByteShape,
        ResonanceMetric::Texture => StoredResonanceMetric::Texture,
    }
}

/// The stored form of a resonance metric.
pub fn stored_resonance_metric(value: ResonanceMetric) -> (stored: StoredResonanceMetric)
    ensures
        stored == stored_resonance_metric_spec(value),
{
    match value {
        ResonanceMetric::ExactBytes => StoredResonanceMetric::ExactBytes,
        ResonanceMetric::ByteShape => StoredResonanceMetric::ByteShape,
        ResonanceMetric::Texture => StoredResonanceMetric::Texture,
    }
}

/// The resonance metric a stored metric restores.
pub open spec fn resonance_metric_from_stored_spec(value: StoredResonanceMetric) -> ResonanceMetric {
    match value {
        StoredResonanceMetric::ExactBytes => ResonanceMetric::ExactBytes,
        StoredResonanceMetric::ByteShape => ResonanceMetric::ByteShape,
        StoredResonanceMetric::Texture => ResonanceMetric::Texture,
    }
}

/// The resonance metric a stored metric restores.
pub fn resonance_metric_from_stored(value: StoredResonanceMetric) -> (live: ResonanceMetric)
    ensures
        live == resonance_metric_from_stored_spec(value),
{
    match value {
        StoredResonanceMetric::ExactBytes => ResonanceMetric::ExactBytes,
        StoredResonanceMetric::ByteShape => ResonanceMetric::ByteShape,
        StoredResonanceMetric::Texture => ResonanceMetric::Texture,
    }
}

/// Storing and restoring is lossless in both directions.
pub proof fn lemma_stored_resonance_metric_round_trip(live: ResonanceMetric, stored: StoredResonanceMetric)
    ensures
        resonance_metric_from_stored_spec(stored_resonance_metric_spec(live)) == live,
        stored_resonance_metric_spec(resonance_metric_from_stored_spec(stored)) == stored,
{
}

/// The stored form of a branch status.
pub open spec fn stored_branch_status_spec(value: BranchStatus) -> StoredBranchStatus {
    match value {
        BranchStatus::Draft => StoredBranchStatus::Draft,
        BranchStatus::Active => StoredBranchStatus::Active,
        BranchStatus::Pinned => StoredBranchStatus::Pinned,
        BranchStatus::Discarded => StoredBranchStatus::Discarded,
    }
}

/// The stored form of a branch status.
pub fn stored_branch_status(value: BranchStatus) -> (stored: StoredBranchStatus)
    ensures
        stored == stored_branch_status_spec(value),
{
    match value {
        BranchStatus::Draft => StoredBranchStatus::Draft,
        BranchStatus::Active => StoredBranchStatus::Active,
        BranchStatus::Pinned => StoredBranchStatus::Pinned,
        BranchStatus::Discarded => StoredBranchStatus::Discarded,
    }
}

/// The branch status a stored status restores.
pub open spec fn branch_status_from_stored_spec(value: StoredBranchStatus) -> BranchStatus {
    match value {
        StoredBranchStatus::Draft => BranchStatus::Draft,
        StoredBranchStatus::Active => BranchStatus::Active,
        StoredBranchStatus::Pinned => BranchStatus::Pinned,
        StoredBranchStatus::Discarded => BranchStatus::Discarded,
    }
}

/// The branch status a stored status restores.
pub fn branch_status_from_stored(value: StoredBranchStatus) -> (live: BranchStatus)
    ensures
        live == branch_status_from_stored_spec(value),
{
    match value {
        StoredBranchStatus::Draft => BranchStatus::Draft,
        StoredBranchStatus::Active => BranchStatus::Active,
        StoredBranchStatus::Pinned => BranchStatus::Pinned,
        StoredBranchStatus::Discarded => BranchStatus::Discarded,
    }
}

/// Storing and restoring is lossless in both directions.
pub proof fn lemma_stored_branch_status_round_trip(live: BranchStatus, stored: StoredBranchStatus)
    ensures
        branch_status_from_stored_spec(stored_branch_status_spec(live)) == live,
        stored_branch_status_spec(branch_status_from_stored_spec(stored)) == stored,
{
}

/// The stored render style of a geometry: density for a surface, voxels for
/// every other geometry.
pub open spec fn stored_render_style_spec(geometry: ProjectionGeometry) -> StoredRenderStyle {
    match geometry {
        ProjectionGeometry::Surface => StoredRenderStyle::Density,
        ProjectionGeometry::Points | ProjectionGeometry::Path | ProjectionGeometry::Voxels => StoredRenderStyle::Voxels,
    }
}

/// The stored render style of a geometry.
pub fn stored_render_style(geometry: ProjectionGeometry) -> (style: StoredRenderStyle)
    ensures
        style == stored_render_style_spec(geometry),
{
    match geometry {
        ProjectionGeometry::Surface => StoredRenderStyle::Density,
        ProjectionGeometry::Points | ProjectionGeometry::Path | ProjectionGeometry::Voxels => StoredRenderStyle::Voxels,
    }
}

/// The geometry a stored render style restores: voxels, or a surface for
/// density and combined styles.
pub open spec fn geometry_from_stored_spec(style: StoredRenderStyle) -> ProjectionGeometry {
    match style {
        StoredRenderStyle::Voxels => ProjectionGeometry::Voxels,
        StoredRenderStyle::Density | StoredRenderStyle::Combined => ProjectionGeometry::Surface,
    }
}

/// The geometry a stored render style restores.
pub fn geometry_from_stored(style: StoredRenderStyle) -> (geometry: ProjectionGeometry)
    ensures
        geometry == geometry_from_stored_spec(style),
{
    match style {
        StoredRenderStyle::Voxels => ProjectionGeometry::Voxels,
        StoredRenderStyle::Density | StoredRenderStyle::Combined => ProjectionGeometry::Surface,
    }
}

/// Restoring a stored style and storing it again is stable, except that the
/// legacy combined style is stored as density; voxels and surfaces survive a
/// store-and-restore unchanged.
pub proof fn lemma_render_style_round_trip(style: StoredRenderStyle, geometry: ProjectionGeometry)
    ensures
        style != StoredRenderStyle::Combined ==> stored_render_style_spec(geometry_from_stored_spec(style)) == style,
        style == StoredRenderStyle::Combined ==> stored_render_style_spec(geometry_from_stored_spec(style)) == StoredRenderStyle::Density,
        (geometry == ProjectionGeometry::Voxels || geometry == ProjectionGeometry::Surface) ==> geometry_from_stored_spec(stored_render_style_spec(geometry)) == geometry,
{
}

/// The structure-analysis preset for a source: the atlas width and the size
/// of the blocks entropy is measured over.
#[derive(Clone, Copy, Debug, PartialEq, Eq, Structural)]
pub struct StructureEntropyPreset {
    pub atlas_width: u32,
    pub entropy_block_size: u32,
}

/// The entropy block size for `length` source bytes: one sixty-fourth of
/// them, rounded up, and at least one byte.
pub open spec fn entropy_block_size_spec(length: nat) -> nat {
    let blocks = (length + 63) / 64;
    if blocks == 0 { 1 } else { blocks }
}

/// The preset for a source of `source_length` bytes drawn `atlas_width`
/// bytes wide, refused when either number does not fit 32 bits.
pub fn structure_preset(source_length: usize, atlas_width: usize) -> (result: Result<
    StructureEntropyPreset,
    String,
>)
    ensures
        atlas_width > u32::MAX ==> (result matches Err(message) && message@
            == "atlas width cannot fit the production preset"@),
        atlas_width <= u32::MAX && entropy_block_size_spec(source_length as nat) > u32::MAX ==> (
        result matches Err(message) && message@ == "entropy block cannot fit the production preset"@),
        atlas_width <= u32::MAX && entropy_block_size_spec(source_length as nat) <= u32::MAX ==> (
        result matches Ok(preset) && preset.atlas_width == atlas_width && preset.entropy_block_size
            == entropy_block_size_spec(source_length as nat)),
{
    let blocks: usize = source_length / 64 + if source_length % 64 == 0 { 0 } else { 1 };
    assert(blocks == (source_length + 63) / 64) by (nonlinear_arith)
        requires
            blocks == source_length / 64 + if source_length % 64 == 0 { 0int } else { 1int },
    ;
    let entropy_block_size: usize = if blocks == 0 { 1 } else { blocks };
    if atlas_width > u32::MAX as usize {
        return Err("atlas width cannot fit the production preset".to_owned());
    }
    if entropy_block_size > u32::MAX as usize {
        return Err("entropy block cannot fit the production preset".to_owned());
    }
    Ok(StructureEntropyPreset {
        atlas_width: atlas_width as u32,
        entropy_block_size: entropy_block_size as u32,
    })
}

} // verus!

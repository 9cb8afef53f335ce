//! Projection composition contracts: the domains, kinds, geometries and
//! channels a 3D projection is composed of, their bounded parameters, the
//! sampling configuration derived from them, and the integer coordinate
//! mappings (Hilbert curve, bit compaction, value colour) they rely on.

use std::ops::Range;

use vstd::prelude::*;

verus! {

/// The unit a projection sample stands for.
#[derive(Clone, Copy, Debug, PartialEq, Eq, Structural)]
pub enum ProjectionDomain {
    Byte,
    Word,
    Window,
    Region,
}

/// A named coordinate mapping of samples into the projection space.
#[derive(Clone, Copy, Debug, PartialEq, Eq, Structural)]
pub enum ProjectionKind {
    AddressRaster,
    Hilbert,
    Transitions,
    Bitplanes,
    Complexity,
    Sections,
    AlignmentLattice,
    RecurrencePlane,
    RepetitionSkyline,
    SpectralWaterfall,
    HammingHypercube,
    HierarchicalBlockVolume,
    PolarAddressPath,
    HelicalAddressPath,
}

/// How samples are drawn.
#[derive(Clone, Copy, Debug, PartialEq, Eq, Structural)]
pub enum ProjectionGeometry {
    Points,
    Path,
    Voxels,
    Surface,
}

/// How projections A and B are shown together.
#[derive(Clone, Copy, Debug, PartialEq, Eq, Structural)]
pub enum ProjectionCompareMode {
    Single,
    Split,
    Overlay,
    Morph,
}

/// Whether the address mappings use a third axis.
#[derive(Clone, Copy, Debug, PartialEq, Eq, Structural)]
pub enum ProjectionDimensions {
    Two,
    Three,
}

/// The feature mapped to colour.
#[derive(Clone, Copy, Debug, PartialEq, Eq, Structural)]
pub enum ProjectionColorFeature {
    Address,
    Entropy,
    Value,
}

/// The feature mapped to height.
#[derive(Clone, Copy, Debug, PartialEq, Eq, Structural)]
pub enum ProjectionHeightFeature {
    Flat,
    Entropy,
    ChangeRate,
}

/// The feature mapped to point size.
#[derive(Clone, Copy, Debug, PartialEq, Eq, Structural)]
pub enum ProjectionSizeFeature {
    Uniform,
    Entropy,
    ChangeRate,
}

/// The feature mapped to opacity.
#[derive(Clone, Copy, Debug, PartialEq, Eq, Structural)]
pub enum ProjectionOpacityFeature {
    Uniform,
    SelectionContext,
}

/// Display name of a domain.
pub open spec fn domain_label(value: ProjectionDomain) -> Seq<char> {
    match value {
        ProjectionDomain::Byte => "Byte"@,
        ProjectionDomain::Word => "Word"@,
        ProjectionDomain::Window => "Window"@,
        ProjectionDomain::Region => "Region"@,
    }
}

/// Display name of a projection.
pub open spec fn kind_label(value: ProjectionKind) -> Seq<char> {
    match value {
        ProjectionKind::AddressRaster => "Address raster"@,
        ProjectionKind::Hilbert => "Hilbert plane / cube"@,
        ProjectionKind::Transitions => "Transition field"@,
        ProjectionKind::Bitplanes => "Bit-plane stack"@,
        ProjectionKind::Complexity => "Complexity phase"@,
        ProjectionKind::Sections => "Section prism"@,
        ProjectionKind::AlignmentLattice => "Alignment lattice"@,
        ProjectionKind::RecurrencePlane => "Recurrence plane"@,
        ProjectionKind::RepetitionSkyline => "Repetition skyline"@,
        ProjectionKind::SpectralWaterfall => "Spectral waterfall"@,
        ProjectionKind::HammingHypercube => "Hamming hypercube"@,
        ProjectionKind::HierarchicalBlockVolume => "Hierarchical block volume"@,
        ProjectionKind::PolarAddressPath => "Polar address path"@,
        ProjectionKind::HelicalAddressPath => "Helical address path"@,
    }
}

/// Compact display name of a projection.
pub open spec fn kind_short_label(value: ProjectionKind) -> Seq<char> {
    match value {
        ProjectionKind::AddressRaster => "Raster"@,
        ProjectionKind::Hilbert => "Hilbert"@,
        ProjectionKind::Transitions => "Transitions"@,
        ProjectionKind::Bitplanes => "Bitplanes"@,
        ProjectionKind::Complexity => "Complexity"@,
        ProjectionKind::Sections => "Sections"@,
        ProjectionKind::AlignmentLattice => "Alignment"@,
        ProjectionKind::RecurrencePlane => "Recurrence"@,
        ProjectionKind::RepetitionSkyline => "Repetition"@,
        ProjectionKind::SpectralWaterfall => "Spectrum"@,
        ProjectionKind::HammingHypercube => "Hypercube"@,
        ProjectionKind::HierarchicalBlockVolume => "Hierarchy"@,
        ProjectionKind::PolarAddressPath => "Polar path"@,
        ProjectionKind::HelicalAddressPath => "Helical path"@,
    }
}

/// The family a projection belongs to.
pub open spec fn kind_family_label(value: ProjectionKind) -> Seq<char> {
    match value {
        ProjectionKind::AddressRaster | ProjectionKind::Hilbert | ProjectionKind::PolarAddressPath | ProjectionKind::HelicalAddressPath => "ADDRESS"@,
        ProjectionKind::Transitions | ProjectionKind::Bitplanes | ProjectionKind::RecurrencePlane | ProjectionKind::RepetitionSkyline | ProjectionKind::HammingHypercube => "RELATION"@,
        ProjectionKind::AlignmentLattice => "ADDRESS / ALIGNMENT"@,
        ProjectionKind::Complexity | ProjectionKind::SpectralWaterfall | ProjectionKind::HierarchicalBlockVolume => "STATISTICS"@,
        ProjectionKind::Sections => "PARSED / REGIONS"@,
    }
}

/// What kind of evidence a projection shows.
pub open spec fn kind_evidence_label(value: ProjectionKind) -> Seq<char> {
    match value {
        ProjectionKind::Sections => "HEURISTIC OR PARSED"@,
        ProjectionKind::Complexity | ProjectionKind::HierarchicalBlockVolume => "HEURISTIC FEATURES"@,
        ProjectionKind::RecurrencePlane | ProjectionKind::RepetitionSkyline => "BOUNDED EXACT MATCHES"@,
        ProjectionKind::SpectralWaterfall => "BOUNDED DETERMINISTIC DFT"@,
        ProjectionKind::AddressRaster | ProjectionKind::Hilbert | ProjectionKind::Transitions | ProjectionKind::Bitplanes | ProjectionKind::AlignmentLattice | ProjectionKind::HammingHypercube | ProjectionKind::PolarAddressPath | ProjectionKind::HelicalAddressPath => "RAW / DETERMINISTIC"@,
    }
}

/// Display name of a geometry.
pub open spec fn geometry_label(value: ProjectionGeometry) -> Seq<char> {
    match value {
        ProjectionGeometry::Points => "POINTS"@,
        ProjectionGeometry::Path => "PATH"@,
        ProjectionGeometry::Voxels => "VOXELS"@,
        ProjectionGeometry::Surface => "SURFACE"@,
    }
}

/// Display name of a compare mode.
pub open spec fn compare_mode_label(value: ProjectionCompareMode) -> Seq<char> {
    match value {
        ProjectionCompareMode::Single => "SINGLE"@,
        ProjectionCompareMode::Split => "SPLIT"@,
        ProjectionCompareMode::Overlay => "OVERLAY"@,
        ProjectionCompareMode::Morph => "MORPH"@,
    }
}

/// Display name of a colour feature.
pub open spec fn color_feature_label(value: ProjectionColorFeature) -> Seq<char> {
    match value {
        ProjectionColorFeature::Address => "ADDR"@,
        ProjectionColorFeature::Entropy => "ENTROPY"@,
        ProjectionColorFeature::Value => "VALUE"@,
    }
}

/// Display name of a height feature.
pub open spec fn height_feature_label(value: ProjectionHeightFeature) -> Seq<char> {
    match value {
        ProjectionHeightFeature::Flat => "NONE"@,
        ProjectionHeightFeature::Entropy => "ENTROPY"@,
        ProjectionHeightFeature::ChangeRate => "CHANGE"@,
    }
}

/// Display name of a size feature.
pub open spec fn size_feature_label(value: ProjectionSizeFeature) -> Seq<char> {
    match value {
        ProjectionSizeFeature::Uniform => "UNIFORM"@,
        ProjectionSizeFeature::Entropy => "ENTROPY"@,
        ProjectionSizeFeature::ChangeRate => "CHANGE"@,
    }
}

/// Display name of an opacity feature.
pub open spec fn opacity_feature_label(value: ProjectionOpacityFeature) -> Seq<char> {
    match value {
        ProjectionOpacityFeature::Uniform => "UNIFORM"@,
        ProjectionOpacityFeature::SelectionContext => "SELECTION"@,
    }
}

impl ProjectionDomain {
    /// Display name.
    pub fn label(self) -> (label: &'static str)
        ensures
            label@ == domain_label(self),
    {
        match self {
            ProjectionDomain::Byte => "Byte",
            ProjectionDomain::Word => "Word",
            ProjectionDomain::Window => "Window",
            ProjectionDomain::Region => "Region",
        }
    }
}

impl ProjectionKind {
    /// The six projections computed from the sampled bytes alone.
    pub const BASIC: [ProjectionKind; 6] = [
        ProjectionKind::AddressRaster,
        ProjectionKind::Hilbert,
        ProjectionKind::Transitions,
        ProjectionKind::Bitplanes,
        ProjectionKind::Complexity,
        ProjectionKind::Sections,
    ];

    /// The six projections that read coordinates from the structural
    /// reference analysis.
    pub const P1: [ProjectionKind; 6] = [
        ProjectionKind::AlignmentLattice,
        ProjectionKind::RecurrencePlane,
        ProjectionKind::RepetitionSkyline,
        ProjectionKind::SpectralWaterfall,
        ProjectionKind::HammingHypercube,
        ProjectionKind::HierarchicalBlockVolume,
    ];

    /// Display name.
    pub fn label(self) -> (label: &'static str)
        ensures
            label@ == kind_label(self),
    {
        match self {
            ProjectionKind::AddressRaster => "Address raster",
            ProjectionKind::Hilbert => "Hilbert plane / cube",
            ProjectionKind::Transitions => "Transition field",
            ProjectionKind::Bitplanes => "Bit-plane stack",
            ProjectionKind::Complexity => "Complexity phase",
            ProjectionKind::Sections => "Section prism",
            ProjectionKind::AlignmentLattice => "Alignment lattice",
            ProjectionKind::RecurrencePlane => "Recurrence plane",
            ProjectionKind::RepetitionSkyline => "Repetition skyline",
            ProjectionKind::SpectralWaterfall => "Spectral waterfall",
            ProjectionKind::HammingHypercube => "Hamming hypercube",
            ProjectionKind::HierarchicalBlockVolume => "Hierarchical block volume",
            ProjectionKind::PolarAddressPath => "Polar address path",
            ProjectionKind::HelicalAddressPath => "Helical address path",
        }
    }

    /// Compact display name.
    pub fn short_label(self) -> (label: &'static str)
        ensures
            label@ == kind_short_label(self),
    {
        match self {
            ProjectionKind::AddressRaster => "Raster",
            ProjectionKind::Hilbert => "Hilbert",
            ProjectionKind::Transitions => "Transitions",
            ProjectionKind::Bitplanes => "Bitplanes",
            ProjectionKind::Complexity => "Complexity",
            ProjectionKind::Sections => "Sections",
            ProjectionKind::AlignmentLattice => "Alignment",
            ProjectionKind::RecurrencePlane => "Recurrence",
            ProjectionKind::RepetitionSkyline => "Repetition",
            ProjectionKind::SpectralWaterfall => "Spectrum",
            ProjectionKind::HammingHypercube => "Hypercube",
            ProjectionKind::HierarchicalBlockVolume => "Hierarchy",
            ProjectionKind::PolarAddressPath => "Polar path",
            ProjectionKind::HelicalAddressPath => "Helical path",
        }
    }

    /// Family name.
    pub fn family_label(self) -> (label: &'static str)
        ensures
            label@ == kind_family_label(self),
    {
        match self {
            ProjectionKind::AddressRaster | ProjectionKind::Hilbert | ProjectionKind::PolarAddressPath | ProjectionKind::HelicalAddressPath => "ADDRESS",
            ProjectionKind::Transitions | ProjectionKind::Bitplanes | ProjectionKind::RecurrencePlane | ProjectionKind::RepetitionSkyline | ProjectionKind::HammingHypercube => "RELATION",
            ProjectionKind::AlignmentLattice => "ADDRESS / ALIGNMENT",
            ProjectionKind::Complexity | ProjectionKind::SpectralWaterfall | ProjectionKind::HierarchicalBlockVolume => "STATISTICS",
            ProjectionKind::Sections => "PARSED / REGIONS",
        }
    }

    /// Evidence class.
    pub fn evidence_label(self) -> (label: &'static str)
        ensures
            label@ == kind_evidence_label(self),
    {
        match self {
            ProjectionKind::Sections => "HEURISTIC OR PARSED",
            ProjectionKind::Complexity | ProjectionKind::HierarchicalBlockVolume => "HEURISTIC FEATURES",
            ProjectionKind::RecurrencePlane | ProjectionKind::RepetitionSkyline => "BOUNDED EXACT MATCHES",
            ProjectionKind::SpectralWaterfall => "BOUNDED DETERMINISTIC DFT",
            ProjectionKind::AddressRaster | ProjectionKind::Hilbert | ProjectionKind::Transitions | ProjectionKind::Bitplanes | ProjectionKind::AlignmentLattice | ProjectionKind::HammingHypercube | ProjectionKind::PolarAddressPath | ProjectionKind::HelicalAddressPath => "RAW / DETERMINISTIC",
        }
    }
}

impl ProjectionGeometry {
    /// Display name.
    pub fn label(self) -> (label: &'static str)
        ensures
            label@ == geometry_label(self),
    {
        match self {
            ProjectionGeometry::Points => "POINTS",
            ProjectionGeometry::Path => "PATH",
            ProjectionGeometry::Voxels => "VOXELS",
            ProjectionGeometry::Surface => "SURFACE",
        }
    }

    /// Only a surface renders a density field.
    pub fn uses_field(self) -> (uses: bool)
        ensures
            uses == (self == ProjectionGeometry::Surface),
    {
        matches!(self, ProjectionGeometry::Surface)
    }

    /// Opacity of the density field: 156 for a surface, none otherwise.
    pub fn field_alpha(self) -> (alpha: u8)
        ensures
            alpha == (if self == ProjectionGeometry::Surface { 156u8 } else { 0u8 }),
    {
        if self.uses_field() {
            156
        } else {
            0
        }
    }
}

impl ProjectionCompareMode {
    /// Display name.
    pub fn label(self) -> (label: &'static str)
        ensures
            label@ == compare_mode_label(self),
    {
        match self {
            ProjectionCompareMode::Single => "SINGLE",
            ProjectionCompareMode::Split => "SPLIT",
            ProjectionCompareMode::Overlay => "OVERLAY",
            ProjectionCompareMode::Morph => "MORPH",
        }
    }
}

impl ProjectionColorFeature {
    /// Display name.
    pub fn label(self) -> (label: &'static str)
        ensures
            label@ == color_feature_label(self),
    {
        match self {
            ProjectionColorFeature::Address => "ADDR",
            ProjectionColorFeature::Entropy => "ENTROPY",
            ProjectionColorFeature::Value => "VALUE",
        }
    }
}

impl ProjectionHeightFeature {
    /// Display name.
    pub fn label(self) -> (label: &'static str)
        ensures
            label@ == height_feature_label(self),
    {
        match self {
            ProjectionHeightFeature::Flat => "NONE",
            ProjectionHeightFeature::Entropy => "ENTROPY",
            ProjectionHeightFeature::ChangeRate => "CHANGE",
        }
    }
}

impl ProjectionSizeFeature {
    /// Display name.
    pub fn label(self) -> (label: &'static str)
        ensures
            label@ == size_feature_label(self),
    {
        match self {
            ProjectionSizeFeature::Uniform => "UNIFORM",
            ProjectionSizeFeature::Entropy => "ENTROPY",
            ProjectionSizeFeature::ChangeRate => "CHANGE",
        }
    }
}

impl ProjectionOpacityFeature {
    /// Display name.
    pub fn label(self) -> (label: &'static str)
        ensures
            label@ == opacity_feature_label(self),
    {
        match self {
            ProjectionOpacityFeature::Uniform => "UNIFORM",
            ProjectionOpacityFeature::SelectionContext => "SELECTION",
        }
    }
}

/// Stable numeric code of a projection, recorded as a cohort coordinate.
pub open spec fn projection_code_spec(projection: ProjectionKind) -> i32 {
    match projection {
        ProjectionKind::AddressRaster => 0,
        ProjectionKind::Hilbert => 1,
        ProjectionKind::Transitions => 2,
        ProjectionKind::Bitplanes => 3,
        ProjectionKind::Complexity => 4,
        ProjectionKind::Sections => 5,
        ProjectionKind::PolarAddressPath => 6,
        ProjectionKind::HelicalAddressPath => 7,
        ProjectionKind::AlignmentLattice => 8,
        ProjectionKind::RecurrencePlane => 9,
        ProjectionKind::RepetitionSkyline => 10,
        ProjectionKind::SpectralWaterfall => 11,
        ProjectionKind::HammingHypercube => 12,
        ProjectionKind::HierarchicalBlockVolume => 13,
    }
}

/// Stable numeric code of a projection, recorded as a cohort coordinate.
pub fn projection_code(projection: ProjectionKind) -> (code: i32)
    ensures
        code == projection_code_spec(projection),
{
    match projection {
        ProjectionKind::AddressRaster => 0,
        ProjectionKind::Hilbert => 1,
        ProjectionKind::Transitions => 2,
        ProjectionKind::Bitplanes => 3,
        ProjectionKind::Complexity => 4,
        ProjectionKind::Sections => 5,
        ProjectionKind::PolarAddressPath => 6,
        ProjectionKind::HelicalAddressPath => 7,
        ProjectionKind::AlignmentLattice => 8,
        ProjectionKind::RecurrencePlane => 9,
        ProjectionKind::RepetitionSkyline => 10,
        ProjectionKind::SpectralWaterfall => 11,
        ProjectionKind::HammingHypercube => 12,
        ProjectionKind::HierarchicalBlockVolume => 13,
    }
}

/// Whether a projection uses the optional P1 evidence features.
pub open spec fn is_p1_spec(projection: ProjectionKind) -> bool {
    matches!(
        projection,
        ProjectionKind::AlignmentLattice | ProjectionKind::RecurrencePlane
            | ProjectionKind::RepetitionSkyline | ProjectionKind::SpectralWaterfall
            | ProjectionKind::HammingHypercube | ProjectionKind::HierarchicalBlockVolume
    )
}

/// The two catalogues are the basic and the evidence projections: every
/// member of [`ProjectionKind::P1`] uses the evidence features, no member of
/// [`ProjectionKind::BASIC`] does, and neither lists a projection twice.
pub proof fn lemma_projection_catalogs(i: int, j: int)
    requires
        0 <= i < 6,
        0 <= j < 6,
    ensures
        is_p1_spec(ProjectionKind::P1@[i]),
        !is_p1_spec(ProjectionKind::BASIC@[i]),
        i != j ==> ProjectionKind::P1@[i] != ProjectionKind::P1@[j],
        i != j ==> ProjectionKind::BASIC@[i] != ProjectionKind::BASIC@[j],
{
}

/// Whether a projection uses the optional P1 evidence features.
pub fn is_p1_projection(projection: ProjectionKind) -> (p1: bool)
    ensures
        p1 == is_p1_spec(projection),
{
    matches!(
        projection,
        ProjectionKind::AlignmentLattice | ProjectionKind::RecurrencePlane
            | ProjectionKind::RepetitionSkyline | ProjectionKind::SpectralWaterfall
            | ProjectionKind::HammingHypercube | ProjectionKind::HierarchicalBlockVolume
    )
}

/// Which channels drive colour, height, size and opacity.
#[derive(Clone, Copy, Debug, PartialEq, Eq, Structural)]
pub struct ProjectionChannels {
    pub color: ProjectionColorFeature,
    pub height: ProjectionHeightFeature,
    pub size: ProjectionSizeFeature,
    pub opacity: ProjectionOpacityFeature,
}

impl ProjectionChannels {
    /// Address colour, entropy height, uniform size, selection-context opacity.
    pub fn default_channels() -> (channels: Self)
        ensures
            channels == (ProjectionChannels {
                color: ProjectionColorFeature::Address,
                height: ProjectionHeightFeature::Entropy,
                size: ProjectionSizeFeature::Uniform,
                opacity: ProjectionOpacityFeature::SelectionContext,
            }),
    {
        ProjectionChannels {
            color: ProjectionColorFeature::Address,
            height: ProjectionHeightFeature::Entropy,
            size: ProjectionSizeFeature::Uniform,
            opacity: ProjectionOpacityFeature::SelectionContext,
        }
    }
}

/// Which overlays are drawn over the projection.
#[derive(Clone, Copy, Debug, PartialEq, Eq, Structural)]
pub struct ProjectionOverlays {
    pub selection: bool,
    pub regions: bool,
    pub signatures: bool,
}

impl ProjectionOverlays {
    /// Selection and signature overlays on, region overlay off.
    pub fn default_overlays() -> (overlays: Self)
        ensures
            overlays == (ProjectionOverlays { selection: true, regions: false, signatures: true }),
    {
        ProjectionOverlays { selection: true, regions: false, signatures: true }
    }
}

/// Bounded numeric parameters of every projection.
#[derive(Clone, Copy, Debug, PartialEq, Eq, Structural)]
pub struct ProjectionParameters {
    pub dimensions: ProjectionDimensions,
    pub row_width: usize,
    pub curve_order: u8,
    pub aggregation_bytes: usize,
    pub lag: usize,
    pub ngram_order: u8,
    pub window_bytes: usize,
    pub hop_bytes: usize,
    pub bit_plane: u8,
    pub word_bits: u16,
    pub little_endian: bool,
    pub alignment_stride: usize,
    pub alignment_max_stride: usize,
    pub recurrence_window: usize,
    pub recurrence_search_bytes: usize,
    pub recurrence_candidate_budget: usize,
    pub recurrence_threshold_percent: u8,
    pub spectrum_window: usize,
    pub spectrum_bins: usize,
    pub hierarchy_max_depth: u8,
    pub hierarchy_min_block: usize,
    pub hierarchy_threshold_percent: u8,
}

/// The default parameters.
pub open spec fn default_parameters_spec() -> ProjectionParameters {
    ProjectionParameters {
        dimensions: ProjectionDimensions::Three,
        row_width: 64,
        curve_order: 5,
        aggregation_bytes: 2,
        lag: 1,
        ngram_order: 3,
        window_bytes: 32,
        hop_bytes: 2,
        bit_plane: 0,
        word_bits: 32,
        little_endian: true,
        alignment_stride: 16,
        alignment_max_stride: 128,
        recurrence_window: 16,
        recurrence_search_bytes: 4096,
        recurrence_candidate_budget: 64,
        recurrence_threshold_percent: 75,
        spectrum_window: 64,
        spectrum_bins: 32,
        hierarchy_max_depth: 6,
        hierarchy_min_block: 64,
        hierarchy_threshold_percent: 18,
    }
}

/// Every parameter lies inside its bounded domain.
pub open spec fn parameters_in_domain(p: ProjectionParameters) -> bool {
    &&& 4 <= p.row_width <= 4096
    &&& 2 <= p.curve_order <= 8
    &&& 1 <= p.aggregation_bytes <= 1_048_576
    &&& 1 <= p.lag <= 1024
    &&& 2 <= p.ngram_order <= 3
    &&& 4 <= p.window_bytes <= 1_048_576
    &&& 1 <= p.hop_bytes <= 1_048_576
    &&& p.bit_plane <= 7
    &&& (p.word_bits == 8 || p.word_bits == 16 || p.word_bits == 32 || p.word_bits == 64)
    &&& 1 <= p.alignment_stride <= 4096
    &&& 2 <= p.alignment_max_stride <= 4096
    &&& 4 <= p.recurrence_window <= 4096
    &&& 4 <= p.recurrence_search_bytes <= 16 * 1024 * 1024
    &&& 1 <= p.recurrence_candidate_budget <= 4096
    &&& p.recurrence_threshold_percent <= 100
    &&& 8 <= p.spectrum_window <= 4096
    &&& 1 <= p.spectrum_bins <= 256
    &&& p.hierarchy_max_depth <= 16
    &&& 8 <= p.hierarchy_min_block <= 16 * 1024 * 1024
    &&& p.hierarchy_threshold_percent <= 100
}

impl ProjectionParameters {
    /// Three dimensions, 64-byte rows, order-5 curve and the other defaults.
    pub fn default_parameters() -> (parameters: Self)
        ensures
            parameters == default_parameters_spec(),
    {
        ProjectionParameters {
            dimensions: ProjectionDimensions::Three,
            row_width: 64,
            curve_order: 5,
            aggregation_bytes: 2,
            lag: 1,
            ngram_order: 3,
            window_bytes: 32,
            hop_bytes: 2,
            bit_plane: 0,
            word_bits: 32,
            little_endian: true,
            alignment_stride: 16,
            alignment_max_stride: 128,
            recurrence_window: 16,
            recurrence_search_bytes: 4096,
            recurrence_candidate_budget: 64,
            recurrence_threshold_percent: 75,
            spectrum_window: 64,
            spectrum_bins: 32,
            hierarchy_max_depth: 6,
            hierarchy_min_block: 64,
            hierarchy_threshold_percent: 18,
        }
    }

    /// Whether every parameter lies inside its bounded domain.
    pub fn in_domain(self) -> (ok: bool)
        ensures
            ok == parameters_in_domain(self),
    {
        4 <= self.row_width && self.row_width <= 4096 && 2 <= self.curve_order
            && self.curve_order <= 8 && 1 <= self.aggregation_bytes && self.aggregation_bytes
            <= 1_048_576 && 1 <= self.lag && self.lag <= 1024 && 2 <= self.ngram_order
            && self.ngram_order <= 3 && 4 <= self.window_bytes && self.window_bytes <= 1_048_576
            && 1 <= self.hop_bytes && self.hop_bytes <= 1_048_576 && self.bit_plane <= 7 && (
        self.word_bits == 8 || self.word_bits == 16 || self.word_bits == 32 || self.word_bits
            == 64) && 1 <= self.alignment_stride && self.alignment_stride <= 4096 && 2
            <= self.alignment_max_stride && self.alignment_max_stride <= 4096 && 4
            <= self.recurrence_window && self.recurrence_window <= 4096 && 4
            <= self.recurrence_search_bytes && self.recurrence_search_bytes <= 16 * 1024 * 1024
            && 1 <= self.recurrence_candidate_budget && self.recurrence_candidate_budget <= 4096
            && self.recurrence_threshold_percent <= 100 && 8 <= self.spectrum_window
            && self.spectrum_window <= 4096 && 1 <= self.spectrum_bins && self.spectrum_bins
            <= 256 && self.hierarchy_max_depth <= 16 && 8 <= self.hierarchy_min_block
            && self.hierarchy_min_block <= 16 * 1024 * 1024 && self.hierarchy_threshold_percent
            <= 100
    }
}

/// The default parameters lie inside their domains.
pub proof fn lemma_default_parameters_in_domain()
    ensures
        parameters_in_domain(default_parameters_spec()),
{
}

/// A projection composition: domain, the two projections A and B, geometry,
/// compare mode, parameters, channels and overlays. The A/B morph mix, a
/// fraction, travels beside it.
#[derive(Clone, Copy, Debug, PartialEq, Eq, Structural)]
pub struct ProjectionComposition {
    pub domain: ProjectionDomain,
    pub projection_a: ProjectionKind,
    pub projection_b: ProjectionKind,
    pub geometry: ProjectionGeometry,
    pub compare_mode: ProjectionCompareMode,
    pub parameters: ProjectionParameters,
    pub channels: ProjectionChannels,
    pub overlays: ProjectionOverlays,
}

/// The default composition: window domain, Hilbert against complexity,
/// voxels, split view, default parameters, channels and overlays.
pub open spec fn default_composition_spec() -> ProjectionComposition {
    ProjectionComposition {
        domain: ProjectionDomain::Window,
        projection_a: ProjectionKind::Hilbert,
        projection_b: ProjectionKind::Complexity,
        geometry: ProjectionGeometry::Voxels,
        compare_mode: ProjectionCompareMode::Split,
        parameters: default_parameters_spec(),
        channels: ProjectionChannels {
            color: ProjectionColorFeature::Address,
            height: ProjectionHeightFeature::Entropy,
            size: ProjectionSizeFeature::Uniform,
            opacity: ProjectionOpacityFeature::SelectionContext,
        },
        overlays: ProjectionOverlays { selection: true, regions: false, signatures: true },
    }
}

/// Message for a composition outside its domains.
pub open spec fn composition_fault_message() -> Seq<char> {
    "projection composition parameters are outside their bounded domains"@
}

impl ProjectionComposition {
    /// The default composition.
    pub fn default_composition() -> (composition: Self)
        ensures
            composition == default_composition_spec(),
    {
        ProjectionComposition {
            domain: ProjectionDomain::Window,
            projection_a: ProjectionKind::Hilbert,
            projection_b: ProjectionKind::Complexity,
            geometry: ProjectionGeometry::Voxels,
            compare_mode: ProjectionCompareMode::Split,
            parameters: ProjectionParameters::default_parameters(),
            channels: ProjectionChannels::default_channels(),
            overlays: ProjectionOverlays::default_overlays(),
        }
    }

    /// Accepts the composition when its morph mix is a finite fraction in
    /// `0..=1` (`mix_in_domain`, decided by the caller on the float) and every
    /// parameter lies inside its bounded domain.
    pub fn validate(self, mix_in_domain: bool) -> (result: Result<(), &'static str>)
        ensures
            result is Ok <==> mix_in_domain && parameters_in_domain(self.parameters),
            result matches Err(message) ==> message@ == composition_fault_message(),
    {
        if !mix_in_domain || !self.parameters.in_domain() {
            return Err("projection composition parameters are outside their bounded domains");
        }
        Ok(())
    }

    /// Whether either projection that is shown uses P1 evidence.
    pub fn uses_p1(self) -> (uses: bool)
        ensures
            uses == (is_p1_spec(self.projection_a) || (self.compare_mode
                != ProjectionCompareMode::Single && is_p1_spec(self.projection_b))),
    {
        is_p1_projection(self.projection_a) || (!matches!(
            self.compare_mode,
            ProjectionCompareMode::Single
        ) && is_p1_projection(self.projection_b))
    }
}

/// The default composition lies inside its domains.
pub proof fn lemma_default_composition_valid()
    ensures
        parameters_in_domain(default_composition_spec().parameters),
{
}

/// Whether either projection that is shown places samples by GPU-computed
/// coordinates (alignment lattice or Hamming hypercube).
pub fn composition_uses_gpu_coordinates(composition: ProjectionComposition) -> (uses: bool)
    ensures
        uses == (matches!(
            composition.projection_a,
            ProjectionKind::AlignmentLattice | ProjectionKind::HammingHypercube
        ) || (composition.compare_mode != ProjectionCompareMode::Single && matches!(
            composition.projection_b,
            ProjectionKind::AlignmentLattice | ProjectionKind::HammingHypercube
        ))),
{
    matches!(
        composition.projection_a,
        ProjectionKind::AlignmentLattice | ProjectionKind::HammingHypercube
    ) || (!matches!(composition.compare_mode, ProjectionCompareMode::Single) && matches!(
        composition.projection_b,
        ProjectionKind::AlignmentLattice | ProjectionKind::HammingHypercube
    ))
}

/// Whether either projection that is shown uses P1 evidence.
pub fn composition_uses_p1(composition: ProjectionComposition) -> (uses: bool)
    ensures
        uses == (is_p1_spec(composition.projection_a) || (composition.compare_mode
            != ProjectionCompareMode::Single && is_p1_spec(composition.projection_b))),
{
    composition.uses_p1()
}

/// The optional P1 feature families a composition needs.
#[derive(Clone, Copy, Debug, PartialEq, Eq, Structural)]
pub struct P1FeatureRequest {
    pub recurrence: bool,
    pub spectrum: bool,
    pub hierarchy: bool,
}

/// Whether projection A, or projection B when it is shown, satisfies `is`.
pub open spec fn shown_projection(
    composition: ProjectionComposition,
    is: spec_fn(ProjectionKind) -> bool,
) -> bool {
    is(composition.projection_a) || (composition.compare_mode != ProjectionCompareMode::Single
        && is(composition.projection_b))
}

/// The P1 feature families the shown projections need: recurrence for the
/// recurrence plane or repetition skyline, spectrum for the spectral
/// waterfall, hierarchy for the hierarchical block volume.
pub fn p1_feature_request(composition: ProjectionComposition) -> (request: P1FeatureRequest)
    ensures
        request.recurrence == shown_projection(
            composition,
            |k: ProjectionKind|
                k == ProjectionKind::RecurrencePlane || k == ProjectionKind::RepetitionSkyline,
        ),
        request.spectrum == shown_projection(
            composition,
            |k: ProjectionKind| k == ProjectionKind::SpectralWaterfall,
        ),
        request.hierarchy == shown_projection(
            composition,
            |k: ProjectionKind| k == ProjectionKind::HierarchicalBlockVolume,
        ),
{
    let single = matches!(composition.compare_mode, ProjectionCompareMode::Single);
    let recurrence = matches!(
        composition.projection_a,
        ProjectionKind::RecurrencePlane | ProjectionKind::RepetitionSkyline
    ) || (!single && matches!(
        composition.projection_b,
        ProjectionKind::RecurrencePlane | ProjectionKind::RepetitionSkyline
    ));
    let spectrum = matches!(composition.projection_a, ProjectionKind::SpectralWaterfall) || (
    !single && matches!(composition.projection_b, ProjectionKind::SpectralWaterfall));
    let hierarchy = matches!(composition.projection_a, ProjectionKind::HierarchicalBlockVolume) || (
    !single && matches!(composition.projection_b, ProjectionKind::HierarchicalBlockVolume));
    P1FeatureRequest { recurrence, spectrum, hierarchy }
}

/// The point budget P1 analysis may use: at most 2048 points for spectra,
/// at most 4096 for recurrence or hierarchy, else the request unchanged.
pub fn p1_point_budget(composition: ProjectionComposition, requested: usize) -> (budget: usize)
    ensures
        ({
            let request = P1FeatureRequest {
                recurrence: shown_projection(
                    composition,
                    |k: ProjectionKind|
                        k == ProjectionKind::RecurrencePlane || k == ProjectionKind::RepetitionSkyline,
                ),
                spectrum: shown_projection(
                    composition,
                    |k: ProjectionKind| k == ProjectionKind::SpectralWaterfall,
                ),
                hierarchy: shown_projection(
                    composition,
                    |k: ProjectionKind| k == ProjectionKind::HierarchicalBlockVolume,
                ),
            };
            budget == if request.spectrum {
                if requested < 2048 { requested } else { 2048 }
            } else if request.recurrence || request.hierarchy {
                if requested < 4096 { requested } else { 4096 }
            } else {
                requested
            }
        }),
{
    let request = p1_feature_request(composition);
    if request.spectrum {
        if requested < 2048 {
            requested
        } else {
            2048
        }
    } else if request.recurrence || request.hierarchy {
        if requested < 4096 {
            requested
        } else {
            4096
        }
    } else {
        requested
    }
}

/// Bounded parameters of the P1 evidence analysis.
#[derive(Clone, Copy, Debug, PartialEq, Eq, Structural)]
pub struct P1AnalysisConfig {
    pub alignment_stride: usize,
    pub alignment_max_stride: usize,
    pub recurrence_window: usize,
    pub recurrence_search_bytes: usize,
    pub recurrence_candidate_budget: usize,
    pub recurrence_threshold_percent: u8,
    pub spectrum_window: usize,
    pub spectrum_bins: usize,
    pub hierarchy_max_depth: u8,
    pub hierarchy_min_block: usize,
    pub hierarchy_threshold_percent: u8,
}

/// The P1 analysis configuration carried by projection parameters.
pub fn p1_analysis_config(parameters: ProjectionParameters) -> (config: P1AnalysisConfig)
    ensures
        config == (P1AnalysisConfig {
            alignment_stride: parameters.alignment_stride,
            alignment_max_stride: parameters.alignment_max_stride,
            recurrence_window: parameters.recurrence_window,
            recurrence_search_bytes: parameters.recurrence_search_bytes,
            recurrence_candidate_budget: parameters.recurrence_candidate_budget,
            recurrence_threshold_percent: parameters.recurrence_threshold_percent,
            spectrum_window: parameters.spectrum_window,
            spectrum_bins: parameters.spectrum_bins,
            hierarchy_max_depth: parameters.hierarchy_max_depth,
            hierarchy_min_block: parameters.hierarchy_min_block,
            hierarchy_threshold_percent: parameters.hierarchy_threshold_percent,
        }),
{
    P1AnalysisConfig {
        alignment_stride: parameters.alignment_stride,
        alignment_max_stride: parameters.alignment_max_stride,
        recurrence_window: parameters.recurrence_window,
        recurrence_search_bytes: parameters.recurrence_search_bytes,
        recurrence_candidate_budget: parameters.recurrence_candidate_budget,
        recurrence_threshold_percent: parameters.recurrence_threshold_percent,
        spectrum_window: parameters.spectrum_window,
        spectrum_bins: parameters.spectrum_bins,
        hierarchy_max_depth: parameters.hierarchy_max_depth,
        hierarchy_min_block: parameters.hierarchy_min_block,
        hierarchy_threshold_percent: parameters.hierarchy_threshold_percent,
    }
}

/// How many screen instances one sample produces: eight for the bit-plane
/// stack (one per plane), one otherwise; both projections count in split or
/// overlay, the larger one in morph.
pub fn projection_instance_multiplier(composition: ProjectionComposition) -> (count: usize)
    ensures
        ({
            let first: usize = if composition.projection_a == ProjectionKind::Bitplanes { 8 } else { 1 };
            let second: usize = if composition.projection_b == ProjectionKind::Bitplanes { 8 } else { 1 };
            count == match composition.compare_mode {
                ProjectionCompareMode::Single => first,
                ProjectionCompareMode::Split | ProjectionCompareMode::Overlay => (first + second) as usize,
                ProjectionCompareMode::Morph => if first > second { first } else { second },
            }
        }),
{
    let first: usize = if matches!(composition.projection_a, ProjectionKind::Bitplanes) {
        8
    } else {
        1
    };
    let second: usize = if matches!(composition.projection_b, ProjectionKind::Bitplanes) {
        8
    } else {
        1
    };
    match composition.compare_mode {
        ProjectionCompareMode::Single => first,
        ProjectionCompareMode::Split | ProjectionCompareMode::Overlay => first + second,
        ProjectionCompareMode::Morph => if first > second {
            first
        } else {
            second
        },
    }
}

/// The bit planes a projection draws, as the inclusive range `first..=last`:
/// planes 0 through 7 for the bit-plane stack, plane 0 alone otherwise.
pub fn projection_instance_planes(projection: ProjectionKind) -> (planes: (u8, u8))
    ensures
        planes == (0u8, if projection == ProjectionKind::Bitplanes { 7u8 } else { 0u8 }),
{
    (0, if matches!(projection, ProjectionKind::Bitplanes) {
        7
    } else {
        0
    })
}

/// The bit plane an instance stands for: the plane itself for the bit-plane
/// stack, none for every other projection.
pub fn projection_plane(projection: ProjectionKind, plane: u8) -> (bit_plane: Option<u8>)
    ensures
        bit_plane == (if projection == ProjectionKind::Bitplanes { Some(plane) } else { None }),
{
    if matches!(projection, ProjectionKind::Bitplanes) {
        Some(plane)
    } else {
        None
    }
}

/// The configuration that decides how bytes are sampled into projection
/// records.
#[derive(Clone, Copy, Debug, PartialEq, Eq, Structural)]
pub struct ProjectionSamplingConfig {
    pub domain: ProjectionDomain,
    pub lag: usize,
    pub window_bytes: usize,
    pub hop_bytes: usize,
    pub aggregation_bytes: usize,
    pub word_bits: u16,
}

impl ProjectionSamplingConfig {
    /// Byte sampling at lag `stride` with the historical 64-byte windows.
    pub fn legacy(stride: usize) -> (config: Self)
        ensures
            config == (ProjectionSamplingConfig {
                domain: ProjectionDomain::Byte,
                lag: stride,
                window_bytes: 64,
                hop_bytes: 1,
                aggregation_bytes: 64,
                word_bits: 8,
            }),
    {
        ProjectionSamplingConfig {
            domain: ProjectionDomain::Byte,
            lag: stride,
            window_bytes: 64,
            hop_bytes: 1,
            aggregation_bytes: 64,
            word_bits: 8,
        }
    }

    /// The sampling configuration a composition implies.
    pub fn from_composition(composition: ProjectionComposition) -> (config: Self)
        ensures
            config == (ProjectionSamplingConfig {
                domain: composition.domain,
                lag: composition.parameters.lag,
                window_bytes: composition.parameters.window_bytes,
                hop_bytes: composition.parameters.hop_bytes,
                aggregation_bytes: composition.parameters.aggregation_bytes,
                word_bits: composition.parameters.word_bits,
            }),
    {
        ProjectionSamplingConfig {
            domain: composition.domain,
            lag: composition.parameters.lag,
            window_bytes: composition.parameters.window_bytes,
            hop_bytes: composition.parameters.hop_bytes,
            aggregation_bytes: composition.parameters.aggregation_bytes,
            word_bits: composition.parameters.word_bits,
        }
    }
}

/// The bytes one sample analyses: `2 * lag + 1` in the byte domain, one
/// word in the word domain, one window or one aggregate otherwise; none when
/// the lag is zero, the span is zero, or `2 * lag + 1` overflows.
pub open spec fn analysis_span_spec(config: ProjectionSamplingConfig) -> Option<usize> {
    if config.lag == 0 {
        None
    } else {
        let word_bytes: int = if config.word_bits / 8 == 0 { 1 } else { (config.word_bits / 8) as int };
        let span: int = match config.domain {
            ProjectionDomain::Byte => 2 * config.lag + 1,
            ProjectionDomain::Word => word_bytes,
            ProjectionDomain::Window => config.window_bytes as int,
            ProjectionDomain::Region => config.aggregation_bytes as int,
        };
        if span <= 0 || span > usize::MAX {
            None
        } else {
            Some(span as usize)
        }
    }
}

/// The bytes one sample analyses (see [`analysis_span_spec`]).
pub fn projection_analysis_span(config: ProjectionSamplingConfig) -> (span: Option<usize>)
    ensures
        span == analysis_span_spec(config),
{
    if config.lag == 0 {
        return None;
    }
    let word_bytes: usize = if config.word_bits / 8 == 0 {
        1
    } else {
        (config.word_bits / 8) as usize
    };
    let span = match config.domain {
        ProjectionDomain::Byte => match config.lag.checked_mul(2) {
            Some(double) => double.checked_add(1),
            None => None,
        },
        ProjectionDomain::Word => Some(word_bytes),
        ProjectionDomain::Window => Some(config.window_bytes),
        ProjectionDomain::Region => Some(config.aggregation_bytes),
    };
    match span {
        Some(span) if span > 0 => Some(span),
        _ => None,
    }
}

/// Palette colour of the region in `slot`, cycling through six colours.
pub open spec fn region_color_spec(slot: usize) -> [u8; 3] {
    let palette: Seq<[u8; 3]> = seq![
        [58u8, 203u8, 218u8],
        [238u8, 184u8, 72u8],
        [141u8, 116u8, 232u8],
        [95u8, 190u8, 124u8],
        [224u8, 105u8, 122u8],
        [132u8, 164u8, 194u8],
    ];
    palette[(slot % 6) as int]
}

/// Palette colour (RGB) of the region in `slot`, cycling through six colours.
pub fn projection_region_color(slot: usize) -> (rgb: [u8; 3])
    ensures
        rgb == region_color_spec(slot),
{
    let palette: [[u8; 3]; 6] = [
        [58, 203, 218],
        [238, 184, 72],
        [141, 116, 232],
        [95, 190, 124],
        [224, 105, 122],
        [132, 164, 194],
    ];
    let rgb = palette[slot % 6];
    proof {
        assert(palette@ == seq![
            [58u8, 203u8, 218u8],
            [238u8, 184u8, 72u8],
            [141u8, 116u8, 232u8],
            [95u8, 190u8, 124u8],
            [224u8, 105u8, 122u8],
            [132u8, 164u8, 194u8],
        ]);
    }
    rgb
}


/// Whether a rendered point, analyzed from `analysis_range`, overlaps a
/// non-empty selection.
pub fn projection_point_is_selected(analysis_range: [usize; 2], selection: &Range<usize>) -> (selected: bool)
    ensures
        selected == (selection.start < selection.end && analysis_range[0] < selection.end
            && selection.start < analysis_range[1]),
{
    selection.start < selection.end && analysis_range[0] < selection.end && selection.start
        < analysis_range[1]
}

impl Default for ProjectionDomain {
    fn default() -> (value: Self)
        ensures
            value == ProjectionDomain::Byte,
    {
        ProjectionDomain::Byte
    }
}

impl Default for ProjectionKind {
    fn default() -> (value: Self)
        ensures
            value == ProjectionKind::Hilbert,
    {
        ProjectionKind::Hilbert
    }
}

impl Default for ProjectionGeometry {
    fn default() -> (value: Self)
        ensures
            value == ProjectionGeometry::Voxels,
    {
        ProjectionGeometry::Voxels
    }
}

impl Default for ProjectionCompareMode {
    fn default() -> (value: Self)
        ensures
            value == ProjectionCompareMode::Split,
    {
        ProjectionCompareMode::Split
    }
}

impl Default for ProjectionDimensions {
    fn default() -> (value: Self)
        ensures
            value == ProjectionDimensions::Three,
    {
        ProjectionDimensions::Three
    }
}

impl Default for ProjectionColorFeature {
    fn default() -> (value: Self)
        ensures
            value == ProjectionColorFeature::Address,
    {
        ProjectionColorFeature::Address
    }
}

impl Default for ProjectionHeightFeature {
    fn default() -> (value: Self)
        ensures
            value == ProjectionHeightFeature::Entropy,
    {
        ProjectionHeightFeature::Entropy
    }
}

impl Default for ProjectionSizeFeature {
    fn default() -> (value: Self)
        ensures
            value == ProjectionSizeFeature::Uniform,
    {
        ProjectionSizeFeature::Uniform
    }
}

impl Default for ProjectionOpacityFeature {
    fn default() -> (value: Self)
        ensures
            value == ProjectionOpacityFeature::SelectionContext,
    {
        ProjectionOpacityFeature::SelectionContext
    }
}

impl Default for ProjectionChannels {
    fn default() -> (channels: Self)
        ensures
            channels == (ProjectionChannels {
                color: ProjectionColorFeature::Address,
                height: ProjectionHeightFeature::Entropy,
                size: ProjectionSizeFeature::Uniform,
                opacity: ProjectionOpacityFeature::SelectionContext,
            }),
    {
        ProjectionChannels::default_channels()
    }
}

impl Default for ProjectionOverlays {
    fn default() -> (overlays: Self)
        ensures
            overlays == (ProjectionOverlays { selection: true, regions: false, signatures: true }),
    {
        ProjectionOverlays::default_overlays()
    }
}

impl Default for ProjectionParameters {
    fn default() -> (parameters: Self)
        ensures
            parameters == default_parameters_spec(),
    {
        ProjectionParameters::default_parameters()
    }
}

impl Default for ProjectionComposition {
    fn default() -> (composition: Self)
        ensures
            composition == default_composition_spec(),
    {
        ProjectionComposition::default_composition()
    }
}

} // verus!

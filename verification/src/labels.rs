//! The captions drawn around the projection canvas.

use vstd::prelude::*;

use crate::projection::{
    color_feature_label, compare_mode_label, domain_label, geometry_label, height_feature_label,
    kind_short_label, opacity_feature_label, size_feature_label, ProjectionCompareMode,
    ProjectionComposition, ProjectionGeometry,
};
use crate::text::{ascii_upper_seq, push_decimal, push_str, to_ascii_uppercase};

verus! {

/// What the projection captions show. Controls held in floating point
/// arrive rendered: percentages and the field radius without decimals, the
/// field exposure with one.
#[derive(Clone, Debug)]
pub struct ProjectionLabelState {
    pub point_count: usize,
    pub composition: ProjectionComposition,
    /// Relief times one hundred.
    pub relief_percent: String,
    /// Context light times one hundred.
    pub context_light_percent: String,
    /// Density field radius.
    pub field_radius: String,
    /// Density field exposure.
    pub field_exposure: String,
    /// The composition's morph fraction times one hundred.
    pub morph_percent: String,
    pub field_contours: bool,
}

/// The geometry caption: a field geometry adds its radius, exposure and
/// whether contours are drawn.
pub open spec fn field_caption(state: ProjectionLabelState) -> Seq<char> {
    let geometry = state.composition.geometry;
    if geometry == ProjectionGeometry::Surface {
        geometry_label(geometry) + " R"@ + state.field_radius@ + " G"@ + state.field_exposure@ + if state.field_contours {
            " +C"@
        } else {
            Seq::empty()
        }
    } else {
        geometry_label(geometry)
    }
}

/// The lower-left caption: the projections shown and how they are compared.
pub open spec fn footer_left_spec(state: ProjectionLabelState, compact: bool) -> Seq<char> {
    let c = state.composition;
    let a = ascii_upper_seq(kind_short_label(c.projection_a));
    let b = ascii_upper_seq(kind_short_label(c.projection_b));
    if compact {
        a + " / "@ + compare_mode_label(c.compare_mode)
    } else {
        match c.compare_mode {
            ProjectionCompareMode::Single => "A "@ + a + " / "@ + field_caption(state),
            ProjectionCompareMode::Morph => "A "@ + a + " > B "@ + b + " / MORPH "@ + state.morph_percent@
                + "% / "@ + field_caption(state),
            _ => "A "@ + a + " / B "@ + b + " / "@ + compare_mode_label(c.compare_mode) + " / "@
                + field_caption(state),
        }
    }
}

/// The lower-right caption: the domain and channels, or in compact form the
/// colour with relief and context light.
pub open spec fn footer_right_spec(state: ProjectionLabelState, compact: bool) -> Seq<char> {
    let c = state.composition;
    if compact {
        color_feature_label(c.channels.color) + " / H"@ + state.relief_percent@ + " / C"@
            + state.context_light_percent@
    } else {
        ascii_upper_seq(domain_label(c.domain)) + " / C:"@ + color_feature_label(c.channels.color)
            + " H:"@ + height_feature_label(c.channels.height) + " S:"@ + size_feature_label(
            c.channels.size,
        ) + " O:"@ + opacity_feature_label(c.channels.opacity)
    }
}

fn field_caption_of(state: &ProjectionLabelState) -> (caption: String)
    ensures
        caption@ == field_caption(*state),
{
    let geometry = state.composition.geometry;
    let mut caption = geometry.label().to_owned();
    if geometry.uses_field() {
        push_str(&mut caption, " R");
        push_str(&mut caption, state.field_radius.as_str());
        push_str(&mut caption, " G");
        push_str(&mut caption, state.field_exposure.as_str());
        if state.field_contours {
            push_str(&mut caption, " +C");
        }
        assert(caption@ =~= field_caption(*state));
    }
    caption
}

/// The two footer captions of the projection canvas, in full or compact
/// form. Labels are ASCII, so their upper case is their ASCII upper case.
pub fn projection_footer_labels(state: &ProjectionLabelState, compact: bool) -> (labels: (String, String))
    ensures
        labels.0@ == footer_left_spec(*state, compact),
        labels.1@ == footer_right_spec(*state, compact),
{
    let composition = state.composition;
    let first = to_ascii_uppercase(composition.projection_a.short_label());
    let second = to_ascii_uppercase(composition.projection_b.short_label());
    let colour = composition.channels.color.label();
    let left = if compact {
        let mut text = first;
        push_str(&mut text, " / ");
        push_str(&mut text, composition.compare_mode.label());
        text
    } else {
        let field = field_caption_of(state);
        match composition.compare_mode {
            ProjectionCompareMode::Single => {
                let mut text = "A ".to_owned();
                push_str(&mut text, first.as_str());
                push_str(&mut text, " / ");
                push_str(&mut text, field.as_str());
                text
            },
            ProjectionCompareMode::Morph => {
                let mut text = "A ".to_owned();
                push_str(&mut text, first.as_str());
                push_str(&mut text, " > B ");
                push_str(&mut text, second.as_str());
                push_str(&mut text, " / MORPH ");
                push_str(&mut text, state.morph_percent.as_str());
                push_str(&mut text, "% / ");
                push_str(&mut text, field.as_str());
                text
            },
            ProjectionCompareMode::Split | ProjectionCompareMode::Overlay => {
                let mut text = "A ".to_owned();
                push_str(&mut text, first.as_str());
                push_str(&mut text, " / B ");
                push_str(&mut text, second.as_str());
                push_str(&mut text, " / ");
                push_str(&mut text, composition.compare_mode.label());
                push_str(&mut text, " / ");
                push_str(&mut text, field.as_str());
                text
            },
        }
    };
    let right = if compact {
        let mut text = colour.to_owned();
        push_str(&mut text, " / H");
        push_str(&mut text, state.relief_percent.as_str());
        push_str(&mut text, " / C");
        push_str(&mut text, state.context_light_percent.as_str());
        text
    } else {
        let mut text = to_ascii_uppercase(composition.domain.label());
        push_str(&mut text, " / C:");
        push_str(&mut text, colour);
        push_str(&mut text, " H:");
        push_str(&mut text, composition.channels.height.label());
        push_str(&mut text, " S:");
        push_str(&mut text, composition.channels.size.label());
        push_str(&mut text, " O:");
        push_str(&mut text, composition.channels.opacity.label());
        text
    };
    (left, right)
}

/// The top-right caption: how many points are drawn, and as what.
pub fn projection_sample_caption(state: &ProjectionLabelState) -> (caption: String)
    ensures
        caption@ == crate::text::decimal_digits(state.point_count as nat) + " samples / "@
            + geometry_label(state.composition.geometry),
{
    let mut caption = String::new();
    push_decimal(&mut caption, state.point_count as u64);
    push_str(&mut caption, " samples / ");
    push_str(&mut caption, state.composition.geometry.label());
    caption
}

} // verus!

use vstd::prelude::*;

verus! {

/// How vertices are assembled into primitives.
pub enum VertexTopology {
    PointList,
    TriangleFan,
    TriangleList,
    TriangleStrip,
}

/// The stage a shader runs in.
pub enum ShaderType {
    Vertex,
    Fragment,
    TessellationControl,
    TessellationEval,
    Geometry,
    Default,
}

pub type ShaderId = usize;

} // verus!

verus! {

/// How a source and a destination value are combined.
#[derive(Clone, Copy, PartialEq, Eq, Structural, Debug)]
pub enum BlendOp {
    Add,
    Subtract,
}

/// A weight applied to a value before blending.
#[derive(Clone, Copy, PartialEq, Eq, Structural, Debug)]
pub enum BlendFactor {
    One,
}

/// An explicit blend equation for color and alpha.
#[derive(Clone, Copy, PartialEq, Eq, Structural, Debug)]
pub struct AttachmentBlend {
    pub color_op: BlendOp,
    pub color_source: BlendFactor,
    pub color_destination: BlendFactor,
    pub alpha_op: BlendOp,
    pub alpha_source: BlendFactor,
    pub alpha_destination: BlendFactor,
}

/// The blending of a color attachment: an explicit equation, or the
/// standard alpha blending of the back end.
#[derive(Clone, Copy, PartialEq, Eq, Structural, Debug)]
pub enum AttachmentBlendKind {
    Equation(AttachmentBlend),
    StandardAlpha,
}

/// A logical operation applied in place of blending.
#[derive(Clone, Copy, PartialEq, Eq, Structural, Debug)]
pub enum LogicOp {
    Invert,
}

/// The color-blend state of a pipeline, apart from its constants (all ones)
/// and its write mask (all components, always enabled).
#[derive(Clone, Copy, PartialEq, Eq, Structural, Debug)]
pub struct ColorBlendSettings {
    pub logic_op: Option<LogicOp>,
    pub attachment: Option<AttachmentBlendKind>,
}

/// The same operation and factors for color and alpha: `op` applied to one
/// times the source and one times the destination.
pub open spec fn spec_equation(op: BlendOp) -> AttachmentBlend {
    AttachmentBlend {
        color_op: op,
        color_source: BlendFactor::One,
        color_destination: BlendFactor::One,
        alpha_op: op,
        alpha_source: BlendFactor::One,
        alpha_destination: BlendFactor::One,
    }
}

/// An equation applies its operation to the color and to the alpha channel
/// alike, with every factor one.
pub proof fn lemma_equation_same_for_color_and_alpha(op: BlendOp)
    ensures
        spec_equation(op).color_op == op,
        spec_equation(op).alpha_op == op,
        spec_equation(op).color_source == BlendFactor::One,
        spec_equation(op).color_destination == BlendFactor::One,
        spec_equation(op).alpha_source == BlendFactor::One,
        spec_equation(op).alpha_destination == BlendFactor::One,
{
}

/// The color-blend state that draws with `blend_mode`.
pub fn blend_settings(blend_mode: crate::graphics::BlendMode) -> (r: ColorBlendSettings)
    ensures
        r == (match blend_mode {
            crate::graphics::BlendMode::Add => ColorBlendSettings {
                logic_op: None,
                attachment: Some(AttachmentBlendKind::Equation(spec_equation(BlendOp::Add))),
            },
            crate::graphics::BlendMode::Subtract => ColorBlendSettings {
                logic_op: None,
                attachment: Some(AttachmentBlendKind::Equation(spec_equation(BlendOp::Subtract))),
            },
            crate::graphics::BlendMode::Alpha => ColorBlendSettings {
                logic_op: None,
                attachment: Some(AttachmentBlendKind::StandardAlpha),
            },
            crate::graphics::BlendMode::Invert => ColorBlendSettings {
                logic_op: Some(LogicOp::Invert),
                attachment: None,
            },
        }),
        blend_mode == crate::graphics::BlendMode::Subtract ==> (r.attachment matches Some(
            AttachmentBlendKind::Equation(e),
        ) && e.color_op == BlendOp::Subtract && e.alpha_op == BlendOp::Subtract),
        blend_mode == crate::graphics::BlendMode::Add ==> (r.attachment matches Some(
            AttachmentBlendKind::Equation(e),
        ) && e.color_op == BlendOp::Add && e.alpha_op == BlendOp::Add),
        r.attachment matches Some(AttachmentBlendKind::Equation(e)) ==> (e.color_source
            == BlendFactor::One && e.color_destination == BlendFactor::One && e.alpha_source
            == BlendFactor::One && e.alpha_destination == BlendFactor::One),
{
    let mut logic_op: Option<LogicOp> = None;
    let mut attach: Option<AttachmentBlendKind> = None;
    match blend_mode {
        crate::graphics::BlendMode::Add => {
            attach = Some(AttachmentBlendKind::Equation(AttachmentBlend {
                color_op: BlendOp::Add,
                color_source: BlendFactor::One,
                color_destination: BlendFactor::One,
                alpha_op: BlendOp::Add,
                alpha_source: BlendFactor::One,
                alpha_destination: BlendFactor::One,
            }));
        },
        crate::graphics::BlendMode::Subtract => {
            attach = Some(AttachmentBlendKind::Equation(AttachmentBlend {
                color_op: BlendOp::Subtract,
                color_source: BlendFactor::One,
                color_destination: BlendFactor::One,
                alpha_op: BlendOp::Subtract,
                alpha_source: BlendFactor::One,
                alpha_destination: BlendFactor::One,
            }));
        },
        crate::graphics::BlendMode::Alpha => {
            attach = Some(AttachmentBlendKind::StandardAlpha);
        },
        crate::graphics::BlendMode::Invert => {
            logic_op = Some(LogicOp::Invert);
        },
    }
    ColorBlendSettings { logic_op, attachment: attach }
}

} // verus!

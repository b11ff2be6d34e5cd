//! Components used by the scalar archetype and the scatter-plot visualizer.
//!
//! Floating-point payloads are carried by their IEEE-754 bit patterns, so that
//! a value goes through the library unchanged and comes back out exactly.

use vstd::prelude::*;

verus! {

/// Full name of the scalar component.
pub open spec fn scalar_name() -> Seq<char> {
    "rerun.components.Scalar"@
}

/// Full name of the indicator component of the scalar archetype.
pub open spec fn scalar_indicator_name() -> Seq<char> {
    "rerun.components.ScalarIndicator"@
}

/// Full name of the instance-key component.
pub open spec fn instance_key_name() -> Seq<char> {
    "rerun.components.InstanceKey"@
}

/// Full name of the text component.
pub open spec fn text_name() -> Seq<char> {
    "rerun.components.Text"@
}

/// Full name of the color component.
pub open spec fn color_name() -> Seq<char> {
    "rerun.components.Color"@
}

/// Full name of the stroke-width component.
pub open spec fn stroke_width_name() -> Seq<char> {
    "rerun.components.StrokeWidth"@
}

/// The name of the scalar component, as a string.
pub fn scalar_component_name() -> (r: String)
    ensures
        r@ == scalar_name(),
{
    "rerun.components.Scalar".to_owned()
}

/// The name of the scalar indicator component, as a string.
pub fn scalar_indicator_component_name() -> (r: String)
    ensures
        r@ == scalar_indicator_name(),
{
    "rerun.components.ScalarIndicator".to_owned()
}

/// The name of the instance-key component, as a string.
pub fn instance_key_component_name() -> (r: String)
    ensures
        r@ == instance_key_name(),
{
    "rerun.components.InstanceKey".to_owned()
}

/// The name of the text component, as a string.
pub fn text_component_name() -> (r: String)
    ensures
        r@ == text_name(),
{
    "rerun.components.Text".to_owned()
}

/// The name of the color component, as a string.
pub fn color_component_name() -> (r: String)
    ensures
        r@ == color_name(),
{
    "rerun.components.Color".to_owned()
}

/// The name of the stroke-width component, as a string.
pub fn stroke_width_component_name() -> (r: String)
    ensures
        r@ == stroke_width_name(),
{
    "rerun.components.StrokeWidth".to_owned()
}

/// A double-precision scalar, held as the bit pattern of its `f64`.
#[derive(Debug, Clone, Copy, PartialEq, Eq)]
pub struct Scalar(pub u64);

/// A text label.
#[derive(Debug, Clone, PartialEq, Eq)]
pub struct Text(pub String);

/// An RGBA color packed as `0xRRGGBBAA`, not premultiplied by alpha.
#[derive(Debug, Clone, Copy, PartialEq, Eq)]
pub struct Color(pub u32);

/// The four channels `[r, g, b, a]` of a packed color, red first.
pub open spec fn color_channels(c: Color) -> Seq<u8> {
    seq![
        (c.0 / 0x100_0000) as u8,
        (c.0 / 0x1_0000 % 0x100) as u8,
        (c.0 / 0x100 % 0x100) as u8,
        (c.0 % 0x100) as u8,
    ]
}

impl Color {
    /// The channels `[r, g, b, a]` of this color.
    pub fn to_array(&self) -> (r: [u8; 4])
        ensures
            r@ == color_channels(*self),
    {
        let c = self.0;
        let arr = [(c / 0x100_0000) as u8, (c / 0x1_0000 % 0x100) as u8, (c / 0x100 % 0x100) as u8, (c % 0x100) as u8];
        assert(arr@ =~= color_channels(*self));
        arr
    }
}

/// The width of a stroke, held as the bit pattern of its `f32`.
#[derive(Debug, Clone, Copy, PartialEq, Eq)]
pub struct StrokeWidth(pub u32);

/// The shape of a marker drawn at a scatter-plot point.
#[derive(Debug, Clone, Copy, PartialEq, Eq)]
pub enum MarkerShape {
    Circle,
    Diamond,
    Square,
    Cross,
    Plus,
    Up,
    Down,
    Left,
    Right,
    Asterisk,
}

impl Default for MarkerShape {
    /// The default marker is a circle.
    fn default() -> (r: Self)
        ensures
            r == MarkerShape::Circle,
    {
        MarkerShape::Circle
    }
}

} // verus!

//! Construction of scatter-plot points from logged scalar rows.
//!
//! Each row of scalars becomes one plot point per scalar; the optional
//! per-instance colors, stroke widths, markers and labels are zipped with the
//! scalars, and a value set by an override for the whole series wins over any
//! per-instance value. A row without scalars is a clear, which splits the chart.

use vstd::prelude::*;

use crate::archetypes::spec_all_components;
use crate::name_set::{distinct_names, name_set, names, sorted_name_set, sorted_names};
use crate::components::{self, Color, MarkerShape, StrokeWidth, Text, color_name, scalar_name, stroke_width_name};

verus! {

/// A color as drawn on screen: four bytes, red, green, blue and alpha, with the
/// color channels premultiplied by alpha.
#[derive(Debug, Clone, Copy, PartialEq, Eq)]
pub struct Color32 {
    pub r: u8,
    pub g: u8,
    pub b: u8,
    pub a: u8,
}

/// The opaque color with the given channels.
pub open spec fn rgb(r: u8, g: u8, b: u8) -> Color32 {
    Color32 { r, g, b, a: 255 }
}

/// Opaque black.
pub open spec fn black() -> Color32 {
    rgb(0, 0, 0)
}

/// The fully transparent color.
pub open spec fn transparent() -> Color32 {
    Color32 { r: 0, g: 0, b: 0, a: 0 }
}

impl Color32 {
    /// The opaque color with the given channels.
    pub fn from_rgb(r: u8, g: u8, b: u8) -> (c: Color32)
        ensures
            c == rgb(r, g, b),
    {
        Color32 { r, g, b, a: 255 }
    }

    /// Opaque black.
    pub fn black() -> (c: Color32)
        ensures
            c == black(),
    {
        Color32::from_rgb(0, 0, 0)
    }
}

/// Calls `egui::Color32::from_rgba_unmultiplied`, which premultiplies the
/// color channels by alpha. The source returns `[r, g, b, 255]` when `a` is
/// 255 and the transparent color when `a` is 0, and keeps `a` as the alpha
/// in every case. A zero channel stays zero: it is linearized to `0.0`, and
/// scaling `0.0` by alpha and converting back gives 0.
///
/// A dark channel (at most 10) takes no `powf` at all: it is linearized as
/// `s / 3294.6`, scaled by `a / 255`, and the product, below `0.0031308`, is
/// converted back as `(3294.6 * l + 0.5) as u8`. These are correctly rounded
/// `f32` operations, and the channel comes out as `c * a / 255` rounded to
/// the nearest integer (no exact tie is possible, as 255 is odd), which is
/// `(2 * c * a + 255) / 510`.
///
/// Brighter channels go through `f32::powf`, whose precision Rust documents
/// as varying by platform and even between calls, so nothing more is stated
/// of them.
#[verifier::external_body]
fn color32_from_rgba_unmultiplied(r: u8, g: u8, b: u8, a: u8) -> (c: Color32)
    ensures
        a == 255 ==> c == rgb(r, g, b),
        a == 0 ==> c == transparent(),
        c.a == a,
        r == 0 ==> c.r == 0,
        g == 0 ==> c.g == 0,
        b == 0 ==> c.b == 0,
        0 < a < 255 && r <= 10 ==> c.r == premultiplied_dark(r, a),
        0 < a < 255 && g <= 10 ==> c.g == premultiplied_dark(g, a),
        0 < a < 255 && b <= 10 ==> c.b == premultiplied_dark(b, a),
{
    let bytes = egui::Color32::from_rgba_unmultiplied(r, g, b, a).to_array();
    Color32 { r: bytes[0], g: bytes[1], b: bytes[2], a: bytes[3] }
}

/// A color channel `ch` premultiplied by alpha `a`: `ch * a / 255`, rounded to
/// the nearest integer.
pub open spec fn premultiplied_dark(ch: u8, a: u8) -> int {
    (2 * ch * a + 255) / 510
}

/// What holds of the on-screen color `out` that a logged color `c` turns into:
/// exactly the color when it is opaque, the transparent color when its alpha is
/// zero, and otherwise a color of the same alpha whose dark channels (zero
/// among them) are premultiplied by that alpha.
pub open spec fn converted_color(out: Color32, c: Color) -> bool {
    let ch = components::color_channels(c);
    if ch[3] == 255 {
        out == rgb(ch[0], ch[1], ch[2])
    } else if ch[3] == 0 {
        out == transparent()
    } else {
        &&& out.a == ch[3]
        &&& ch[0] == 0 ==> out.r == 0
        &&& ch[1] == 0 ==> out.g == 0
        &&& ch[2] == 0 ==> out.b == 0
        &&& ch[0] <= 10 ==> out.r == premultiplied_dark(ch[0], ch[3])
        &&& ch[1] <= 10 ==> out.g == premultiplied_dark(ch[1], ch[3])
        &&& ch[2] <= 10 ==> out.b == premultiplied_dark(ch[2], ch[3])
    }
}

/// The on-screen color of a logged color.
pub fn point_color(c: Color) -> (out: Color32)
    ensures
        converted_color(out, c),
{
    let ch = c.to_array();
    if ch[3] == 255 {
        Color32::from_rgb(ch[0], ch[1], ch[2])
    } else {
        color32_from_rgba_unmultiplied(ch[0], ch[1], ch[2], ch[3])
    }
}

/// The attributes of a scatter plot.
#[derive(Debug, Clone, Copy, PartialEq, Eq)]
pub struct ScatterAttrs {
    pub marker: MarkerShape,
}

/// How a plot point is drawn.
#[derive(Debug, Clone, Copy, PartialEq, Eq)]
pub enum PlotSeriesKind {
    Continuous,
    Scatter(ScatterAttrs),
    Clear,
}

/// The attributes of a plot point.
#[derive(Debug, Clone, PartialEq, Eq)]
pub struct PlotPointAttrs {
    pub label: Option<String>,
    pub color: Color32,
    /// The bit pattern of the `f32` stroke width.
    pub stroke_width_bits: u32,
    pub kind: PlotSeriesKind,
}

/// A point of a plot.
#[derive(Debug, Clone, PartialEq, Eq)]
pub struct PlotPoint {
    pub time: i64,
    /// The bit pattern of the `f64` value.
    pub value_bits: u64,
    pub attrs: PlotPointAttrs,
}

impl PlotPoint {
    /// A copy of this point.
    pub fn duplicate(&self) -> (r: PlotPoint)
        ensures
            r == *self,
    {
        let label = match &self.attrs.label {
            Some(s) => Some(s.clone()),
            None => None,
        };
        PlotPoint {
            time: self.time,
            value_bits: self.value_bits,
            attrs: PlotPointAttrs {
                label,
                color: self.attrs.color,
                stroke_width_bits: self.attrs.stroke_width_bits,
                kind: self.attrs.kind,
            },
        }
    }
}

/// The bit pattern of `3.0f32`, the stroke width used for scatter plots when
/// none is given, larger than the line default so that the marker is visible.
pub const DEFAULT_STROKE_WIDTH_BITS: u32 = 0x4040_0000u32;

/// Values set for a whole series, which win over the per-instance values.
#[derive(Debug, Clone, PartialEq, Eq)]
pub struct SeriesOverrides {
    pub color: Option<Color>,
    pub label: Option<String>,
    pub stroke_width: Option<StrokeWidth>,
    pub marker: Option<MarkerShape>,
}

/// The point from which every point of a series starts, given the overrides
/// and the series color that the annotations resolved.
pub open spec fn spec_default_point(overrides: SeriesOverrides, color: Color32) -> PlotPoint {
    PlotPoint {
        time: 0,
        value_bits: 0,
        attrs: PlotPointAttrs {
            label: overrides.label,
            color,
            stroke_width_bits: match overrides.stroke_width {
                Some(w) => w.0,
                None => DEFAULT_STROKE_WIDTH_BITS,
            },
            kind: PlotSeriesKind::Scatter(
                ScatterAttrs {
                    marker: match overrides.marker {
                        Some(m) => m,
                        None => MarkerShape::Circle,
                    },
                },
            ),
        },
    }
}

/// The default point of a series: time and value zero, the override label,
/// the resolved color, the override stroke width or the scatter default, and
/// a scatter marker that is the override marker or a circle.
pub fn default_point(overrides: &SeriesOverrides, color: Color32) -> (p: PlotPoint)
    ensures
        p == spec_default_point(*overrides, color),
        p.time == 0,
        p.value_bits == 0,
        p.attrs.label == overrides.label,
        p.attrs.color == color,
        overrides.stroke_width is None ==> p.attrs.stroke_width_bits == DEFAULT_STROKE_WIDTH_BITS,
        overrides.stroke_width matches Some(w) ==> p.attrs.stroke_width_bits == w.0,
        overrides.marker is None ==> p.attrs.kind == PlotSeriesKind::Scatter(
            ScatterAttrs { marker: MarkerShape::Circle },
        ),
        overrides.marker matches Some(m) ==> p.attrs.kind == PlotSeriesKind::Scatter(ScatterAttrs { marker: m }),
{
    let label = match &overrides.label {
        Some(s) => Some(s.clone()),
        None => None,
    };
    let stroke_width_bits = match overrides.stroke_width {
        Some(w) => w.0,
        None => DEFAULT_STROKE_WIDTH_BITS,
    };
    let marker = match overrides.marker {
        Some(m) => m,
        None => MarkerShape::default(),
    };
    PlotPoint {
        time: 0,
        value_bits: 0,
        attrs: PlotPointAttrs {
            label,
            color,
            stroke_width_bits,
            kind: PlotSeriesKind::Scatter(ScatterAttrs { marker }),
        },
    }
}

/// One row of a range query over scalars: its time, if it has one, the
/// scalars, and the per-instance columns that were logged with them.
#[derive(Debug, Clone, PartialEq, Eq)]
pub struct ScalarRow {
    pub time: Option<i64>,
    pub scalars: Vec<components::Scalar>,
    pub colors: Option<Vec<Option<Color>>>,
    pub stroke_widths: Option<Vec<Option<StrokeWidth>>>,
    pub markers: Option<Vec<Option<MarkerShape>>>,
    pub labels: Option<Vec<Option<Text>>>,
}

/// The number of items that a column yields beside `n` scalars: the column's
/// own length where it was logged, and `n` (all empty) where it was not.
pub open spec fn column_len<T>(col: Option<Vec<T>>, n: int) -> int {
    match col {
        Some(v) => if v@.len() < n { v@.len() as int } else { n },
        None => n,
    }
}

/// The `i`-th item of a column, or nothing where the column was not logged.
pub open spec fn column_item<T>(col: Option<Vec<Option<T>>>, i: int) -> Option<T> {
    match col {
        Some(v) => v@[i],
        None => None,
    }
}

/// The number of points a row yields: the scalars and all logged columns are
/// zipped, and the zip stops at the shortest of them.
pub open spec fn zipped_len(row: ScalarRow) -> int {
    let n = row.scalars@.len() as int;
    column_len(row.labels, column_len(row.markers, column_len(row.stroke_widths, column_len(row.colors, n))))
}

/// The point that marks a clear at `time`.
pub open spec fn clear_point(time: i64) -> PlotPoint {
    PlotPoint {
        time,
        value_bits: 0,
        attrs: PlotPointAttrs {
            label: None,
            color: black(),
            stroke_width_bits: 0,
            kind: PlotSeriesKind::Clear,
        },
    }
}

/// What holds of the point `p` built from the `i`-th scalar of a row at `time`:
/// it is the default point with the time and value of the scalar, and each
/// per-instance value that was logged replaces the default unless an override
/// for the series is set.
pub open spec fn row_point(
    p: PlotPoint,
    default: PlotPoint,
    overrides: SeriesOverrides,
    row: ScalarRow,
    time: i64,
    i: int,
) -> bool {
    let color = column_item(row.colors, i);
    let stroke_width = column_item(row.stroke_widths, i);
    let marker = column_item(row.markers, i);
    let label = column_item(row.labels, i);
    &&& p.time == time
    &&& p.value_bits == row.scalars@[i].0
    &&& if overrides.color is None && color is Some {
        converted_color(p.attrs.color, color.unwrap())
    } else {
        p.attrs.color == default.attrs.color
    }
    &&& p.attrs.label == if overrides.label is None && label is Some {
        Some(label.unwrap().0)
    } else {
        default.attrs.label
    }
    &&& p.attrs.stroke_width_bits == if overrides.stroke_width is None && stroke_width is Some {
        stroke_width.unwrap().0
    } else {
        default.attrs.stroke_width_bits
    }
    &&& p.attrs.kind == if overrides.marker is None && marker is Some {
        PlotSeriesKind::Scatter(ScatterAttrs { marker: marker.unwrap() })
    } else {
        default.attrs.kind
    }
}

fn column_len_exec<T>(col: &Option<Vec<T>>, n: usize) -> (r: usize)
    ensures
        r == column_len(*col, n as int),
{
    match col {
        Some(v) => if v.len() < n { v.len() } else { n },
        None => n,
    }
}

fn column_item_copy<T: Copy>(col: &Option<Vec<Option<T>>>, i: usize) -> (r: Option<T>)
    requires
        col is Some ==> i < col.unwrap()@.len(),
    ensures
        r == column_item(*col, i as int),
{
    match col {
        Some(v) => v[i],
        None => None,
    }
}

fn label_item(col: &Option<Vec<Option<Text>>>, i: usize) -> (r: Option<String>)
    requires
        col is Some ==> i < col.unwrap()@.len(),
    ensures
        r == (match column_item(*col, i as int) {
            Some(t) => Some(t.0),
            None => None,
        }),
{
    match col {
        Some(v) => match &v[i] {
            Some(t) => Some(t.0.clone()),
            None => None,
        },
        None => None,
    }
}

/// The number of points a row yields: none without a time, one clear point
/// without scalars, and one per zipped scalar otherwise.
pub open spec fn row_yield_len(row: ScalarRow) -> int {
    match row.time {
        None => 0,
        Some(_) => if row.scalars@.len() == 0 { 1 } else { zipped_len(row) },
    }
}

/// Whether `seg` are the points one row yields, as `push_row_points` appends them.
pub open spec fn row_segment(seg: Seq<PlotPoint>, default: PlotPoint, overrides: SeriesOverrides, row: ScalarRow) -> bool {
    match row.time {
        None => seg.len() == 0,
        Some(t) => if row.scalars@.len() == 0 {
            seg == seq![clear_point(t)]
        } else {
            &&& seg.len() == zipped_len(row)
            &&& forall|i: int| 0 <= i < seg.len() ==> row_point(#[trigger] seg[i], default, overrides, row, t, i)
        },
    }
}

/// Appends to `points` the points of one row.
///
/// A row without a time adds nothing: scalars cannot be timeless. A row without
/// scalars is a clear and adds one clear point at its time. Otherwise the row
/// adds `zipped_len(row)` points, the `i`-th built from the `i`-th scalar as
/// `row_point` describes.
pub fn push_row_points(
    points: &mut Vec<PlotPoint>,
    default: &PlotPoint,
    overrides: &SeriesOverrides,
    row: &ScalarRow,
)
    ensures
        row.time is None ==> final(points)@ == old(points)@,
        row.time is Some && row.scalars@.len() == 0 ==> final(points)@ == old(points)@.push(
            clear_point(row.time.unwrap()),
        ),
        row.time is Some && row.scalars@.len() > 0 ==> {
            &&& final(points)@.len() == old(points)@.len() + zipped_len(*row)
            &&& final(points)@.subrange(0, old(points)@.len() as int) == old(points)@
            &&& forall|i: int|
                0 <= i < zipped_len(*row) ==> row_point(
                    #[trigger] final(points)@[old(points)@.len() + i],
                    *default,
                    *overrides,
                    *row,
                    row.time.unwrap(),
                    i,
                )
        },
        final(points)@.len() == old(points)@.len() + row_yield_len(*row),
        final(points)@.subrange(0, old(points)@.len() as int) == old(points)@,
        row_segment(
            final(points)@.subrange(old(points)@.len() as int, final(points)@.len() as int),
            *default,
            *overrides,
            *row,
        ),
{
    let ghost old_points = points@;
    let time = match row.time {
        Some(t) => t,
        None => {
            assert(points@.subrange(0, old_points.len() as int) =~= old_points);
            assert(points@.subrange(old_points.len() as int, points@.len() as int).len() == 0);
            return ;
        },
    };
    if row.scalars.len() == 0 {
        points.push(
            PlotPoint {
                time,
                value_bits: 0,
                attrs: PlotPointAttrs {
                    label: None,
                    color: Color32::black(),
                    stroke_width_bits: 0,
                    kind: PlotSeriesKind::Clear,
                },
            },
        );
        assert(points@.subrange(0, old_points.len() as int) =~= old_points);
        assert(points@.subrange(old_points.len() as int, points@.len() as int) =~= seq![clear_point(time)]);
        return ;
    }
    let n0 = row.scalars.len();
    let n1 = column_len_exec(&row.colors, n0);
    let n2 = column_len_exec(&row.stroke_widths, n1);
    let n3 = column_len_exec(&row.markers, n2);
    let n = column_len_exec(&row.labels, n3);
    let ghost start = points@.len();
    let mut i: usize = 0;
    while i < n
        invariant
            n == zipped_len(*row),
            n <= n3 <= n2 <= n1 <= n0 == row.scalars@.len(),
            row.colors is Some ==> n1 <= row.colors.unwrap()@.len(),
            row.stroke_widths is Some ==> n2 <= row.stroke_widths.unwrap()@.len(),
            row.markers is Some ==> n3 <= row.markers.unwrap()@.len(),
            row.labels is Some ==> n <= row.labels.unwrap()@.len(),
            i <= n,
            start == old_points.len(),
            points@.len() == start + i,
            points@.subrange(0, start as int) == old_points,
            forall|j: int|
                0 <= j < i ==> row_point(
                    #[trigger] points@[start + j],
                    *default,
                    *overrides,
                    *row,
                    time,
                    j,
                ),
        decreases n - i,
    {
        let mut point = default.duplicate();
        point.time = time;
        point.value_bits = row.scalars[i].0;
        if overrides.color.is_none() {
            if let Some(c) = column_item_copy(&row.colors, i) {
                point.attrs.color = point_color(c);
            }
        }
        if overrides.label.is_none() {
            if let Some(l) = label_item(&row.labels, i) {
                point.attrs.label = Some(l);
            }
        }
        if overrides.stroke_width.is_none() {
            if let Some(w) = column_item_copy(&row.stroke_widths, i) {
                point.attrs.stroke_width_bits = w.0;
            }
        }
        if overrides.marker.is_none() {
            if let Some(m) = column_item_copy(&row.markers, i) {
                point.attrs.kind = PlotSeriesKind::Scatter(ScatterAttrs { marker: m });
            }
        }
        let ghost before = points@;
        points.push(point);
        proof {
            assert(points@.subrange(0, start as int) =~= before.subrange(0, start as int));
            assert forall|j: int| 0 <= j < i + 1 implies row_point(
                #[trigger] points@[start + j],
                *default,
                *overrides,
                *row,
                time,
                j,
            ) by {
                if j < i {
                    assert(points@[start + j] == before[start + j]);
                }
            }
        }
        i = i + 1;
    }
    proof {
        let seg = points@.subrange(start as int, points@.len() as int);
        assert forall|j: int| 0 <= j < seg.len() implies row_point(#[trigger] seg[j], *default, *overrides, *row, time, j) by {
            assert(seg[j] == points@[start + j]);
        }
    }
}

/// The name the scatter visualizer is known by.
pub fn identifier() -> (r: String)
    ensures
        r@ == "SeriesPoint"@,
{
    "SeriesPoint".to_owned()
}

/// Why a query over the store failed.
#[derive(Debug, Clone, PartialEq, Eq)]
pub enum QueryError {
    /// The component that drives the query has no data.
    PrimaryNotFound(String),
    /// A component that the query asked for has no data.
    ComponentNotFound(String),
    /// A component's data does not have the type that was asked for.
    TypeMismatch { actual: String, requested: String },
    /// Any other failure, described.
    Other(String),
}

/// What running the visualizer yields, given how loading the scalars ended: a
/// missing primary component only means that there is nothing to draw, so it
/// succeeds like a load that went through; any other error is passed on.
pub fn execute_outcome(load: Result<(), QueryError>) -> (r: Result<(), QueryError>)
    ensures
        r is Ok <==> (load is Ok || load matches Err(QueryError::PrimaryNotFound(_))),
        r is Err ==> r == load,
{
    match load {
        Ok(()) => Ok(()),
        Err(QueryError::PrimaryNotFound(_)) => Ok(()),
        Err(err) => Err(err),
    }
}

/// The value a component of a scatter series starts with when the user adds
/// an override for it.
#[derive(Debug, Clone, Copy, PartialEq, Eq)]
pub enum InitialOverride {
    /// The color that the entity's path is shown in.
    EntityColor,
    /// This stroke width.
    StrokeWidth(StrokeWidth),
}

/// The initial value of an override of `component`: the entity's color for the
/// color component, the scatter default for the stroke width, and nothing for
/// any other component.
pub fn initial_override_value(component: &String) -> (r: Option<InitialOverride>)
    ensures
        component@ == color_name() ==> r == Some(InitialOverride::EntityColor),
        component@ != color_name() && component@ == stroke_width_name() ==> r == Some(
            InitialOverride::StrokeWidth(StrokeWidth(DEFAULT_STROKE_WIDTH_BITS)),
        ),
        component@ != color_name() && component@ != stroke_width_name() ==> r is None,
{
    if *component == components::color_component_name() {
        Some(InitialOverride::EntityColor)
    } else if *component == components::stroke_width_component_name() {
        Some(InitialOverride::StrokeWidth(StrokeWidth(DEFAULT_STROKE_WIDTH_BITS)))
    } else {
        None
    }
}

/// Whether `v` holds `name`.
fn contains_name(v: &Vec<String>, name: &String) -> (r: bool)
    ensures
        r == name_set(v@).contains(name@),
{
    let mut i: usize = 0;
    while i < v.len()
        invariant
            i <= v@.len(),
            forall|j: int| 0 <= j < i ==> v@[j]@ != name@,
        decreases v@.len() - i,
    {
        if v[i] == *name {
            assert(names(v@)[i as int] == name@);
            return true;
        }
        i = i + 1;
    }
    proof {
        if names(v@).contains(name@) {
            let j = names(v@).index_of(name@);
            assert(v@[j]@ == name@);
        }
    }
    false
}

/// Adds `name` to a set of names held as a list without repeats.
fn insert_name(set: &mut Vec<String>, name: String)
    requires
        distinct_names(old(set)@),
    ensures
        distinct_names(final(set)@),
        name_set(final(set)@) == name_set(old(set)@).insert(name@),
{
    if !contains_name(set, &name) {
        let ghost before = set@;
        set.push(name);
        assert(names(set@) =~= names(before).push(name@));
        proof {
            names(before).lemma_push_to_set_commute(name@);
        }
        assert(name_set(set@) =~= name_set(before).insert(name@));
    } else {
        assert(name_set(set@) =~= name_set(set@).insert(name@));
    }
}

/// Adds every name of `names_to_add` to a set of names held as a list without
/// repeats.
fn insert_names(set: &mut Vec<String>, names_to_add: &Vec<String>)
    requires
        distinct_names(old(set)@),
    ensures
        distinct_names(final(set)@),
        name_set(final(set)@) == name_set(old(set)@).union(name_set(names_to_add@)),
{
    let ghost start = name_set(set@);
    let mut i: usize = 0;
    while i < names_to_add.len()
        invariant
            i <= names_to_add@.len(),
            distinct_names(set@),
            name_set(set@) == start.union(name_set(names_to_add@.subrange(0, i as int))),
        decreases names_to_add@.len() - i,
    {
        let ghost before = set@;
        insert_name(set, names_to_add[i].clone());
        assert(names(names_to_add@.subrange(0, i + 1)) =~= names(names_to_add@.subrange(0, i as int)).push(
            names_to_add@[i as int]@,
        ));
        proof {
            names(names_to_add@.subrange(0, i as int)).lemma_push_to_set_commute(names_to_add@[i as int]@);
        }
        assert(name_set(set@) =~= start.union(name_set(names_to_add@.subrange(0, i + 1))));
        i = i + 1;
    }
    assert(names_to_add@.subrange(0, names_to_add@.len() as int) =~= names_to_add@);
}

/// The components a visualizer is triggered by (its indicators), needs, and
/// reads, each a set of names held as a list in the order of strings, without
/// repeats.
#[derive(Debug, Clone, PartialEq, Eq)]
pub struct VisualizerQueryInfo {
    pub indicators: Vec<String>,
    pub required: Vec<String>,
    pub queried: Vec<String>,
}

/// The query of the scatter visualizer, given the components of the series
/// point archetype and the name of its indicator: it is triggered by the
/// series point indicator, requires the scalar, and reads every component of
/// the scalar archetype and of the series point archetype, and the stroke
/// width.
pub fn visualizer_query_info(series_point_components: &Vec<String>, series_point_indicator: String) -> (r:
    VisualizerQueryInfo)
    ensures
        distinct_names(r.indicators@),
        distinct_names(r.required@),
        distinct_names(r.queried@),
        sorted_names(r.indicators@),
        sorted_names(r.required@),
        sorted_names(r.queried@),
        name_set(r.indicators@) == set![series_point_indicator@],
        name_set(r.required@) == set![scalar_name()],
        name_set(r.queried@) == spec_all_components().to_set().union(name_set(series_point_components@)).insert(
            stroke_width_name(),
        ),
{
    let mut required: Vec<String> = Vec::new();
    insert_names(&mut required, &crate::archetypes::Scalar::required_components());
    let mut queried: Vec<String> = Vec::new();
    let all = crate::archetypes::Scalar::all_components();
    insert_names(&mut queried, &all);
    insert_names(&mut queried, series_point_components);
    insert_name(&mut queried, components::stroke_width_component_name());
    let mut indicators: Vec<String> = Vec::new();
    insert_name(&mut indicators, series_point_indicator);
    proof {
        assert(names(Seq::<String>::empty()) =~= Seq::<Seq<char>>::empty());
        assert(name_set(Seq::<String>::empty()) =~= Set::<Seq<char>>::empty());
        assert(names(Seq::<String>::empty()).no_duplicates());
        assert(name_set(indicators@) =~= set![series_point_indicator@]);
        Seq::<Seq<char>>::empty().lemma_push_to_set_commute(scalar_name());
        assert(seq![scalar_name()] =~= Seq::<Seq<char>>::empty().push(scalar_name()));
        assert(name_set(required@) =~= set![scalar_name()]);
        assert(name_set(all@) == spec_all_components().to_set());
        assert(name_set(queried@) =~= spec_all_components().to_set().union(name_set(series_point_components@)).insert(
            stroke_width_name(),
        ));
    }
    VisualizerQueryInfo {
        indicators: sorted_name_set(indicators),
        required: sorted_name_set(required),
        queried: sorted_name_set(queried),
    }
}

/// A value set by an override for the series wins over every per-instance
/// value: the points of a series with an override have the override's value,
/// through the series' default point.
pub proof fn lemma_overrides_win(
    p: PlotPoint,
    overrides: SeriesOverrides,
    series_color: Color32,
    row: ScalarRow,
    time: i64,
    i: int,
)
    requires
        row_point(p, spec_default_point(overrides, series_color), overrides, row, time, i),
    ensures
        overrides.color is Some ==> p.attrs.color == series_color,
        overrides.label is Some ==> p.attrs.label == overrides.label,
        overrides.stroke_width is Some ==> p.attrs.stroke_width_bits == overrides.stroke_width.unwrap().0,
        overrides.marker is Some ==> p.attrs.kind == PlotSeriesKind::Scatter(
            ScatterAttrs { marker: overrides.marker.unwrap() },
        ),
{
}

/// Without overrides and without per-instance values, a point is drawn as a
/// scatter circle of the scatter default width, in the series color, without
/// a label.
pub proof fn lemma_plain_point(
    p: PlotPoint,
    overrides: SeriesOverrides,
    series_color: Color32,
    row: ScalarRow,
    time: i64,
    i: int,
)
    requires
        overrides == (SeriesOverrides { color: None, label: None, stroke_width: None, marker: None }),
        column_item(row.colors, i) is None,
        column_item(row.labels, i) is None,
        column_item(row.stroke_widths, i) is None,
        column_item(row.markers, i) is None,
        row_point(p, spec_default_point(overrides, series_color), overrides, row, time, i),
    ensures
        p == (PlotPoint {
            time,
            value_bits: row.scalars@[i].0,
            attrs: PlotPointAttrs {
                label: None,
                color: series_color,
                stroke_width_bits: DEFAULT_STROKE_WIDTH_BITS,
                kind: PlotSeriesKind::Scatter(ScatterAttrs { marker: MarkerShape::Circle }),
            },
        }),
{
}

/// A row yields at most one point per scalar and per logged value of each
/// column, and one point per scalar where no column was logged.
pub proof fn lemma_zipped_len_bounds(row: ScalarRow)
    ensures
        0 <= zipped_len(row) <= row.scalars@.len(),
        row.colors is Some ==> zipped_len(row) <= row.colors.unwrap()@.len(),
        row.stroke_widths is Some ==> zipped_len(row) <= row.stroke_widths.unwrap()@.len(),
        row.markers is Some ==> zipped_len(row) <= row.markers.unwrap()@.len(),
        row.labels is Some ==> zipped_len(row) <= row.labels.unwrap()@.len(),
        row.colors is None && row.stroke_widths is None && row.markers is None && row.labels is None
            ==> zipped_len(row) == row.scalars@.len(),
{
}

/// A logged opaque color is drawn exactly as logged.
pub proof fn lemma_opaque_color_exact(out: Color32, c: Color)
    requires
        converted_color(out, c),
        components::color_channels(c)[3] == 255,
    ensures
        out.r == components::color_channels(c)[0],
        out.g == components::color_channels(c)[1],
        out.b == components::color_channels(c)[2],
        out.a == 255,
{
}

/// The number of points the first `k` rows yield together.
pub open spec fn rows_yield_len(rows: Seq<ScalarRow>, k: int) -> int
    decreases k,
{
    if k <= 0 {
        0
    } else {
        rows_yield_len(rows, k - 1) + row_yield_len(rows[k - 1])
    }
}

proof fn lemma_rows_yield_len_monotonic(rows: Seq<ScalarRow>, j: int, k: int)
    requires
        0 <= j <= k,
    ensures
        rows_yield_len(rows, j) <= rows_yield_len(rows, k),
    decreases k - j,
{
    if j < k {
        lemma_rows_yield_len_monotonic(rows, j, k - 1);
        lemma_zipped_len_bounds(rows[k - 1]);
    }
}

/// The points of a series: the points of each of its rows in turn, starting
/// from the default point given by the overrides and the series color. The
/// points of the `k`-th row stand between the points the rows before it yield
/// and the points the rows up to it yield.
pub fn series_points(overrides: &SeriesOverrides, series_color: Color32, rows: &Vec<ScalarRow>) -> (points: Vec<
    PlotPoint,
>)
    ensures
        points@.len() == rows_yield_len(rows@, rows@.len() as int),
        forall|k: int|
            0 <= k < rows@.len() ==> row_segment(
                #[trigger] points@.subrange(rows_yield_len(rows@, k), rows_yield_len(rows@, k + 1)),
                spec_default_point(*overrides, series_color),
                *overrides,
                rows@[k],
            ),
{
    let default = default_point(overrides, series_color);
    let mut points: Vec<PlotPoint> = Vec::new();
    let mut k: usize = 0;
    while k < rows.len()
        invariant
            k <= rows@.len(),
            default == spec_default_point(*overrides, series_color),
            points@.len() == rows_yield_len(rows@, k as int),
            forall|j: int|
                0 <= j < k ==> row_segment(
                    #[trigger] points@.subrange(rows_yield_len(rows@, j), rows_yield_len(rows@, j + 1)),
                    default,
                    *overrides,
                    rows@[j],
                ),
        decreases rows@.len() - k,
    {
        let ghost before = points@;
        push_row_points(&mut points, &default, overrides, &rows[k]);
        proof {
            assert forall|j: int| 0 <= j < k + 1 implies row_segment(
                #[trigger] points@.subrange(rows_yield_len(rows@, j), rows_yield_len(rows@, j + 1)),
                default,
                *overrides,
                rows@[j],
            ) by {
                if j < k {
                    lemma_rows_yield_len_monotonic(rows@, j + 1, k as int);
                    lemma_rows_yield_len_monotonic(rows@, j, j + 1);
                    lemma_rows_yield_len_monotonic(rows@, 0, j);
                    let lo = rows_yield_len(rows@, j);
                    let hi = rows_yield_len(rows@, j + 1);
                    assert forall|i: int| lo <= i < hi implies points@[i] == before[i] by {
                        assert(points@.subrange(0, before.len() as int)[i] == points@[i]);
                    }
                    assert(points@.subrange(rows_yield_len(rows@, j), rows_yield_len(rows@, j + 1)) =~= before.subrange(
                        rows_yield_len(rows@, j),
                        rows_yield_len(rows@, j + 1),
                    ));
                }
            }
        }
        k = k + 1;
    }
    points
}

/// Each field of a series' default point comes from its own override alone:
/// the time and value are zero, the label is the label override, the color
/// is the series color, the stroke width is the width override or the scatter
/// default, and the point is a scatter point with the marker override or a
/// circle, whatever the other overrides are.
pub proof fn lemma_default_point_fields(overrides: SeriesOverrides, color: Color32)
    ensures
        spec_default_point(overrides, color).time == 0,
        spec_default_point(overrides, color).value_bits == 0,
        spec_default_point(overrides, color).attrs.label == overrides.label,
        spec_default_point(overrides, color).attrs.color == color,
        overrides.stroke_width is None ==> spec_default_point(overrides, color).attrs.stroke_width_bits
            == DEFAULT_STROKE_WIDTH_BITS,
        overrides.stroke_width matches Some(w) ==> spec_default_point(overrides, color).attrs.stroke_width_bits
            == w.0,
        overrides.marker is None ==> spec_default_point(overrides, color).attrs.kind == PlotSeriesKind::Scatter(
            ScatterAttrs { marker: MarkerShape::Circle },
        ),
        overrides.marker matches Some(m) ==> spec_default_point(overrides, color).attrs.kind
            == PlotSeriesKind::Scatter(ScatterAttrs { marker: m }),
{
}

/// Every point a series yields from a scalar is a scatter point: its marker
/// is the override marker, else the instance's marker, else a circle; its
/// stroke width is the override width, else the instance's width, else the
/// scatter default.
pub proof fn lemma_scalar_points_are_scatter(
    p: PlotPoint,
    overrides: SeriesOverrides,
    series_color: Color32,
    row: ScalarRow,
    time: i64,
    i: int,
)
    requires
        row_point(p, spec_default_point(overrides, series_color), overrides, row, time, i),
    ensures
        p.attrs.kind == PlotSeriesKind::Scatter(
            ScatterAttrs {
                marker: match overrides.marker {
                    Some(m) => m,
                    None => match column_item(row.markers, i) {
                        Some(m) => m,
                        None => MarkerShape::Circle,
                    },
                },
            },
        ),
        p.attrs.stroke_width_bits == match overrides.stroke_width {
            Some(w) => w.0,
            None => match column_item(row.stroke_widths, i) {
                Some(w) => w.0,
                None => DEFAULT_STROKE_WIDTH_BITS,
            },
        },
{
}

/// A translucent color is premultiplied by its alpha: the alpha is kept, each
/// dark channel comes out as itself times alpha over 255, rounded, so it never
/// grows, shrinks strictly when the alpha is at most half and the channel is
/// not zero, and equal dark channels come out equal.
pub proof fn lemma_translucent_color_premultiplied(out: Color32, c: Color)
    requires
        converted_color(out, c),
        0 < components::color_channels(c)[3] < 255,
    ensures
        ({
            let ch = components::color_channels(c);
            &&& out.a == ch[3]
            &&& ch[0] <= 10 ==> out.r <= ch[0]
            &&& ch[1] <= 10 ==> out.g <= ch[1]
            &&& ch[2] <= 10 ==> out.b <= ch[2]
            &&& 1 <= ch[0] <= 10 && ch[3] <= 127 ==> out.r < ch[0]
            &&& 1 <= ch[1] <= 10 && ch[3] <= 127 ==> out.g < ch[1]
            &&& 1 <= ch[2] <= 10 && ch[3] <= 127 ==> out.b < ch[2]
            &&& ch[0] == ch[1] <= 10 ==> out.r == out.g
            &&& ch[1] == ch[2] <= 10 ==> out.g == out.b
            &&& ch[0] == ch[2] <= 10 ==> out.r == out.b
        }),
{
    let ch = components::color_channels(c);
    lemma_premultiplied_dark_bounds(ch[0], ch[3]);
    lemma_premultiplied_dark_bounds(ch[1], ch[3]);
    lemma_premultiplied_dark_bounds(ch[2], ch[3]);
}

proof fn lemma_premultiplied_dark_bounds(x: u8, a: u8)
    requires
        0 < a < 255,
    ensures
        premultiplied_dark(x, a) <= x,
        x >= 1 && a <= 127 ==> premultiplied_dark(x, a) < x,
{
    assert(2 * x * a + 255 < 510 * (x as int) + 510) by (nonlinear_arith)
        requires
            0 < a < 255,
            0 <= x,
    ;
    assert(x >= 1 && a <= 127 ==> 2 * x * a + 255 < 510 * (x as int)) by (nonlinear_arith)
        requires
            0 < a,
            0 <= x,
    ;
}

/// Where a translucent instance color applies to a point (no color override),
/// the point's color is that color premultiplied: same alpha, and its dark
/// channels are the logged channels times alpha over 255, rounded.
pub proof fn lemma_row_point_translucent_color(
    p: PlotPoint,
    default: PlotPoint,
    overrides: SeriesOverrides,
    row: ScalarRow,
    time: i64,
    i: int,
    c: Color,
)
    requires
        row_point(p, default, overrides, row, time, i),
        overrides.color is None,
        column_item(row.colors, i) == Some(c),
        0 < components::color_channels(c)[3] < 255,
    ensures
        ({
            let ch = components::color_channels(c);
            &&& p.attrs.color.a == ch[3]
            &&& ch[0] <= 10 ==> p.attrs.color.r == (2 * ch[0] * ch[3] + 255) / 510
            &&& ch[1] <= 10 ==> p.attrs.color.g == (2 * ch[1] * ch[3] + 255) / 510
            &&& ch[2] <= 10 ==> p.attrs.color.b == (2 * ch[2] * ch[3] + 255) / 510
        }),
{
}

} // verus!

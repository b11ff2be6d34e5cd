use scalar_series::components::{Color, MarkerShape, Scalar, StrokeWidth, Text};
use scalar_series::point_visualizer::{
    default_point, execute_outcome, identifier, series_points, initial_override_value, point_color, push_row_points, visualizer_query_info,
    Color32, InitialOverride, PlotPoint, PlotPointAttrs, PlotSeriesKind, QueryError, ScalarRow, ScatterAttrs,
    SeriesOverrides, DEFAULT_STROKE_WIDTH_BITS,
};

fn no_overrides() -> SeriesOverrides {
    SeriesOverrides { color: None, label: None, stroke_width: None, marker: None }
}

fn blue() -> Color32 {
    Color32 { r: 0, g: 0, b: 255, a: 255 }
}

fn row(time: Option<i64>, values: &[f64]) -> ScalarRow {
    ScalarRow {
        time,
        scalars: values.iter().map(|v| Scalar(v.to_bits())).collect(),
        colors: None,
        stroke_widths: None,
        markers: None,
        labels: None,
    }
}

#[test]
fn default_stroke_width_is_three() {
    assert_eq!(f32::from_bits(DEFAULT_STROKE_WIDTH_BITS), 3.0);
}

#[test]
fn default_point_without_overrides() {
    let p = default_point(&no_overrides(), blue());
    assert_eq!(
        p,
        PlotPoint {
            time: 0,
            value_bits: 0.0f64.to_bits(),
            attrs: PlotPointAttrs {
                label: None,
                color: blue(),
                stroke_width_bits: 3.0f32.to_bits(),
                kind: PlotSeriesKind::Scatter(ScatterAttrs { marker: MarkerShape::Circle }),
            },
        }
    );
}

#[test]
fn default_point_with_overrides() {
    let ov = SeriesOverrides {
        color: Some(Color(0xff0000ff)),
        label: Some("series".to_string()),
        stroke_width: Some(StrokeWidth(1.5f32.to_bits())),
        marker: Some(MarkerShape::Diamond),
    };
    let p = default_point(&ov, blue());
    assert_eq!(p.attrs.label, Some("series".to_string()));
    assert_eq!(f32::from_bits(p.attrs.stroke_width_bits), 1.5);
    assert_eq!(p.attrs.kind, PlotSeriesKind::Scatter(ScatterAttrs { marker: MarkerShape::Diamond }));
    assert_eq!(p.attrs.color, blue());
}

#[test]
fn row_without_time_adds_nothing() {
    let d = default_point(&no_overrides(), blue());
    let mut points = Vec::new();
    push_row_points(&mut points, &d, &no_overrides(), &row(None, &[1.0, 2.0]));
    assert!(points.is_empty());
}

#[test]
fn empty_row_is_a_clear() {
    let d = default_point(&no_overrides(), blue());
    let mut points = vec![d.clone()];
    push_row_points(&mut points, &d, &no_overrides(), &row(Some(17), &[]));
    assert_eq!(points.len(), 2);
    assert_eq!(points[0], d);
    assert_eq!(
        points[1],
        PlotPoint {
            time: 17,
            value_bits: 0.0f64.to_bits(),
            attrs: PlotPointAttrs {
                label: None,
                color: Color32 { r: 0, g: 0, b: 0, a: 255 },
                stroke_width_bits: 0.0f32.to_bits(),
                kind: PlotSeriesKind::Clear,
            },
        }
    );
}

#[test]
fn one_point_per_scalar() {
    let d = default_point(&no_overrides(), blue());
    let mut points = Vec::new();
    push_row_points(&mut points, &d, &no_overrides(), &row(Some(5), &[1.0, -2.5, 3.25]));
    assert_eq!(points.len(), 3);
    for (p, v) in points.iter().zip([1.0, -2.5, 3.25]) {
        assert_eq!(p.time, 5);
        assert_eq!(f64::from_bits(p.value_bits), v);
        assert_eq!(p.attrs, d.attrs);
    }
}

#[test]
fn zip_stops_at_shortest_column() {
    let d = default_point(&no_overrides(), blue());
    let mut r = row(Some(1), &[1.0, 2.0, 3.0]);
    r.labels = Some(vec![Some(Text("a".to_string())), None]);
    let mut points = Vec::new();
    push_row_points(&mut points, &d, &no_overrides(), &r);
    assert_eq!(points.len(), 2);
    assert_eq!(points[0].attrs.label, Some("a".to_string()));
    assert_eq!(points[1].attrs.label, None);
}

#[test]
fn instance_values_replace_defaults() {
    let d = default_point(&no_overrides(), blue());
    let mut r = row(Some(9), &[1.0, 2.0]);
    r.colors = Some(vec![Some(Color(0x102030ff)), None]);
    r.stroke_widths = Some(vec![None, Some(StrokeWidth(7.0f32.to_bits()))]);
    r.markers = Some(vec![Some(MarkerShape::Cross), Some(MarkerShape::Up)]);
    let mut points = Vec::new();
    push_row_points(&mut points, &d, &no_overrides(), &r);
    assert_eq!(points.len(), 2);
    assert_eq!(points[0].attrs.color, Color32 { r: 0x10, g: 0x20, b: 0x30, a: 255 });
    assert_eq!(points[1].attrs.color, blue());
    assert_eq!(points[0].attrs.stroke_width_bits, 3.0f32.to_bits());
    assert_eq!(f32::from_bits(points[1].attrs.stroke_width_bits), 7.0);
    assert_eq!(points[0].attrs.kind, PlotSeriesKind::Scatter(ScatterAttrs { marker: MarkerShape::Cross }));
    assert_eq!(points[1].attrs.kind, PlotSeriesKind::Scatter(ScatterAttrs { marker: MarkerShape::Up }));
}

#[test]
fn overrides_win_over_instance_values() {
    let ov = SeriesOverrides {
        color: Some(Color(0x00ff00ff)),
        label: Some("fixed".to_string()),
        stroke_width: Some(StrokeWidth(2.0f32.to_bits())),
        marker: Some(MarkerShape::Square),
    };
    let green = Color32 { r: 0, g: 255, b: 0, a: 255 };
    let d = default_point(&ov, green);
    let mut r = row(Some(3), &[4.0]);
    r.colors = Some(vec![Some(Color(0xff0000ff))]);
    r.stroke_widths = Some(vec![Some(StrokeWidth(9.0f32.to_bits()))]);
    r.markers = Some(vec![Some(MarkerShape::Plus)]);
    r.labels = Some(vec![Some(Text("instance".to_string()))]);
    let mut points = Vec::new();
    push_row_points(&mut points, &d, &ov, &r);
    assert_eq!(points.len(), 1);
    assert_eq!(points[0].attrs.color, green);
    assert_eq!(points[0].attrs.label, Some("fixed".to_string()));
    assert_eq!(f32::from_bits(points[0].attrs.stroke_width_bits), 2.0);
    assert_eq!(points[0].attrs.kind, PlotSeriesKind::Scatter(ScatterAttrs { marker: MarkerShape::Square }));
}

#[test]
fn opaque_color_is_exact() {
    assert_eq!(point_color(Color(0x12345678 | 0xff)), Color32 { r: 0x12, g: 0x34, b: 0x56, a: 0xff });
}

#[test]
fn transparent_color_is_zero() {
    assert_eq!(point_color(Color(0xabcdef00)), Color32 { r: 0, g: 0, b: 0, a: 0 });
}

#[test]
fn translucent_color_is_premultiplied() {
    let c = point_color(Color(0xff000080));
    let expected = egui::Color32::from_rgba_unmultiplied(255, 0, 0, 128).to_array();
    assert_eq!([c.r, c.g, c.b, c.a], expected);
    assert_eq!(c.a, 128);
    assert!(c.r < 255);
}

#[test]
fn execute_ignores_missing_primary() {
    assert_eq!(execute_outcome(Ok(())), Ok(()));
    assert_eq!(execute_outcome(Err(QueryError::PrimaryNotFound("rerun.components.Scalar".to_string()))), Ok(()));
    let err = QueryError::ComponentNotFound("rerun.components.Color".to_string());
    assert_eq!(execute_outcome(Err(err.clone())), Err(err));
    let err = QueryError::Other("boom".to_string());
    assert_eq!(execute_outcome(Err(err.clone())), Err(err));
}

#[test]
fn initial_overrides() {
    assert_eq!(initial_override_value(&"rerun.components.Color".to_string()), Some(InitialOverride::EntityColor));
    assert_eq!(
        initial_override_value(&"rerun.components.StrokeWidth".to_string()),
        Some(InitialOverride::StrokeWidth(StrokeWidth(3.0f32.to_bits())))
    );
    assert_eq!(initial_override_value(&"rerun.components.Text".to_string()), None);
}

#[test]
fn query_info_sets() {
    let series_point = vec![
        "rerun.components.SeriesPointIndicator".to_string(),
        "rerun.components.Color".to_string(),
        "rerun.components.MarkerShape".to_string(),
        "rerun.components.Text".to_string(),
    ];
    let info = visualizer_query_info(&series_point, "rerun.components.SeriesPointIndicator".to_string());
    assert_eq!(info.indicators, vec!["rerun.components.SeriesPointIndicator".to_string()]);
    assert_eq!(info.required, vec!["rerun.components.Scalar".to_string()]);
    let expected: Vec<String> = vec![
        "rerun.components.Color",
        "rerun.components.InstanceKey",
        "rerun.components.MarkerShape",
        "rerun.components.Scalar",
        "rerun.components.ScalarIndicator",
        "rerun.components.SeriesPointIndicator",
        "rerun.components.StrokeWidth",
        "rerun.components.Text",
    ]
    .into_iter()
    .map(|s| s.to_string())
    .collect();
    assert_eq!(info.queried, expected);
}

#[test]
fn series_points_concatenates_rows() {
    let rows = vec![row(Some(1), &[1.0, 2.0]), row(None, &[5.0]), row(Some(2), &[]), row(Some(3), &[3.0])];
    let points = series_points(&no_overrides(), blue(), &rows);
    assert_eq!(points.len(), 4);
    assert_eq!(points.iter().map(|p| p.time).collect::<Vec<_>>(), vec![1, 1, 2, 3]);
    assert_eq!(points[2].attrs.kind, PlotSeriesKind::Clear);
    assert_eq!(f64::from_bits(points[3].value_bits), 3.0);
    assert_eq!(points[3].attrs.color, blue());
}

#[test]
fn visualizer_identifier() {
    assert_eq!(identifier(), "SeriesPoint");
}

#[test]
fn zero_channels_stay_zero_when_translucent() {
    let c = point_color(Color(0x00ff0040));
    assert_eq!(c.r, 0);
    assert_eq!(c.b, 0);
    assert_eq!(c.a, 0x40);
    let expected = egui::Color32::from_rgba_unmultiplied(0, 255, 0, 0x40).to_array();
    assert_eq!([c.r, c.g, c.b, c.a], expected);
}

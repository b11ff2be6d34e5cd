use scalar_series::archetypes::{ColumnType, ComponentBatch, ComponentColumn, DeserializationError, Scalar, ScalarField};
use scalar_series::components;

fn batch(name: &str, column: ComponentColumn) -> ComponentBatch {
    ComponentBatch { name: name.to_string(), column }
}

fn in_context(location: ScalarField, err: DeserializationError) -> DeserializationError {
    DeserializationError::Context { location, source: Box::new(err) }
}

#[test]
fn new_has_no_text() {
    let s = Scalar::new(components::Scalar(2.5f64.to_bits()));
    assert_eq!(f64::from_bits(s.scalar.0), 2.5);
    assert_eq!(s.text, None);
}

#[test]
fn with_text_sets_label() {
    let s = Scalar::new(components::Scalar((-1.0f64).to_bits())).with_text(components::Text("hello".to_string()));
    assert_eq!(f64::from_bits(s.scalar.0), -1.0);
    assert_eq!(s.text, Some(components::Text("hello".to_string())));
    let s2 = s.with_text(components::Text("bye".to_string()));
    assert_eq!(s2.text, Some(components::Text("bye".to_string())));
}

#[test]
fn archetype_name_and_components() {
    assert_eq!(Scalar::name(), "rerun.archetypes.Scalar");
    assert_eq!(Scalar::required_components(), vec!["rerun.components.Scalar".to_string()]);
    assert_eq!(Scalar::recommended_components(), vec!["rerun.components.ScalarIndicator".to_string()]);
    assert_eq!(
        Scalar::optional_components(),
        vec!["rerun.components.InstanceKey".to_string(), "rerun.components.Text".to_string()]
    );
    assert_eq!(
        Scalar::all_components(),
        vec![
            "rerun.components.Scalar".to_string(),
            "rerun.components.ScalarIndicator".to_string(),
            "rerun.components.InstanceKey".to_string(),
            "rerun.components.Text".to_string(),
        ]
    );
}

#[test]
fn all_components_are_required_recommended_optional() {
    let mut joined = Scalar::required_components();
    joined.extend(Scalar::recommended_components());
    joined.extend(Scalar::optional_components());
    assert_eq!(joined, Scalar::all_components());
    assert_eq!(Scalar::all_components().len(), Scalar::NUM_COMPONENTS);
    assert_eq!(Scalar::NUM_COMPONENTS, 4);
}

#[test]
fn indicator_is_one_null() {
    let ind = Scalar::indicator();
    assert_eq!(ind.name, "rerun.components.ScalarIndicator");
    assert_eq!(ind.column, ComponentColumn::Null(1));
}

#[test]
fn heap_size_is_text_bytes() {
    let s = Scalar::new(components::Scalar(0));
    assert_eq!(s.heap_size_bytes(), 0);
    let s = s.with_text(components::Text("héllo".to_string()));
    assert_eq!(s.heap_size_bytes(), 6);
    assert!(!Scalar::is_pod());
    assert_eq!(s.num_instances(), 1);
}

#[test]
fn batches_without_text() {
    let s = Scalar::new(components::Scalar(42.0f64.to_bits()));
    let b = s.as_component_batches();
    assert_eq!(
        b,
        vec![
            batch("rerun.components.ScalarIndicator", ComponentColumn::Null(1)),
            batch("rerun.components.Scalar", ComponentColumn::Float64(vec![Some(42.0f64.to_bits())])),
        ]
    );
}

#[test]
fn batches_with_text() {
    let s = Scalar::new(components::Scalar(1)).with_text(components::Text("t".to_string()));
    let b = s.as_component_batches();
    assert_eq!(b.len(), 3);
    assert_eq!(b[2], batch("rerun.components.Text", ComponentColumn::Utf8(vec![Some("t".to_string())])));
}

#[test]
fn read_back_what_was_logged() {
    let plain = Scalar::new(components::Scalar(f64::NAN.to_bits()));
    assert_eq!(Scalar::from_arrow_components(plain.as_component_batches()), Ok(plain.clone()));
    let labelled = Scalar::new(components::Scalar((-0.0f64).to_bits())).with_text(components::Text("x".to_string()));
    assert_eq!(Scalar::from_arrow_components(labelled.as_component_batches()), Ok(labelled.clone()));
}

#[test]
fn missing_scalar_is_missing_data() {
    let r = Scalar::from_arrow_components(vec![batch("rerun.components.Text", ComponentColumn::Utf8(vec![Some("a".to_string())]))]);
    assert_eq!(r, Err(in_context(ScalarField::Scalar, DeserializationError::MissingData)));
    assert_eq!(Scalar::from_arrow_components(vec![]), Err(in_context(ScalarField::Scalar, DeserializationError::MissingData)));
}

#[test]
fn empty_or_null_scalar_is_missing_data() {
    let r = Scalar::from_arrow_components(vec![batch("rerun.components.Scalar", ComponentColumn::Float64(vec![]))]);
    assert_eq!(r, Err(in_context(ScalarField::Scalar, DeserializationError::MissingData)));
    let r = Scalar::from_arrow_components(vec![batch("rerun.components.Scalar", ComponentColumn::Float64(vec![None, Some(3)]))]);
    assert_eq!(r, Err(in_context(ScalarField::Scalar, DeserializationError::MissingData)));
}

#[test]
fn wrong_scalar_type_is_mismatch() {
    let r = Scalar::from_arrow_components(vec![batch("rerun.components.Scalar", ComponentColumn::Utf8(vec![Some("1".to_string())]))]);
    assert_eq!(
        r,
        Err(in_context(
            ScalarField::Scalar,
            DeserializationError::DatatypeMismatch { expected: ColumnType::Float64, got: ColumnType::Utf8 }
        ))
    );
}

#[test]
fn wrong_text_type_is_mismatch() {
    let r = Scalar::from_arrow_components(vec![
        batch("rerun.components.Scalar", ComponentColumn::Float64(vec![Some(7)])),
        batch("rerun.components.Text", ComponentColumn::Null(1)),
    ]);
    assert_eq!(
        r,
        Err(in_context(
            ScalarField::Text,
            DeserializationError::DatatypeMismatch { expected: ColumnType::Utf8, got: ColumnType::Null }
        ))
    );
}

#[test]
fn first_value_is_read_and_null_text_is_none() {
    let r = Scalar::from_arrow_components(vec![
        batch("rerun.components.Scalar", ComponentColumn::Float64(vec![Some(7), Some(8)])),
        batch("rerun.components.Text", ComponentColumn::Utf8(vec![None, Some("b".to_string())])),
        batch("rerun.components.Color", ComponentColumn::Null(2)),
    ]);
    assert_eq!(r, Ok(Scalar { scalar: components::Scalar(7), text: None }));
}

#[test]
fn later_batch_of_same_name_wins() {
    let r = Scalar::from_arrow_components(vec![
        batch("rerun.components.Scalar", ComponentColumn::Float64(vec![Some(1)])),
        batch("rerun.components.Scalar", ComponentColumn::Float64(vec![Some(2)])),
    ]);
    assert_eq!(r, Ok(Scalar { scalar: components::Scalar(2), text: None }));
}

#[test]
fn scalar_error_comes_before_text_error() {
    let r = Scalar::from_arrow_components(vec![
        batch("rerun.components.Text", ComponentColumn::Null(1)),
        batch("rerun.components.Scalar", ComponentColumn::Null(1)),
    ]);
    assert_eq!(
        r,
        Err(in_context(
            ScalarField::Scalar,
            DeserializationError::DatatypeMismatch { expected: ColumnType::Float64, got: ColumnType::Null }
        ))
    );
}

#[test]
fn color_channels_red_first() {
    assert_eq!(components::Color(0x11223344).to_array(), [0x11, 0x22, 0x33, 0x44]);
    assert_eq!(components::MarkerShape::default(), components::MarkerShape::Circle);
}

#[test]
fn field_locations() {
    assert_eq!(ScalarField::Scalar.location(), "rerun.archetypes.Scalar#scalar");
    assert_eq!(ScalarField::Text.location(), "rerun.archetypes.Scalar#text");
}

#[test]
fn read_ignores_other_batches() {
    let logged = Scalar::new(components::Scalar(9)).with_text(components::Text("lbl".to_string()));
    let mut batches = logged.as_component_batches();
    batches.push(batch("rerun.components.InstanceKey", ComponentColumn::Null(1)));
    batches.push(batch("some.unknown.Component", ComponentColumn::Utf8(vec![None])));
    assert_eq!(Scalar::from_arrow_components(batches), Ok(logged));
}

#[test]
fn read_ignores_order() {
    let logged = Scalar::new(components::Scalar(5)).with_text(components::Text("z".to_string()));
    let mut batches = logged.as_component_batches();
    batches.reverse();
    assert_eq!(Scalar::from_arrow_components(batches), Ok(logged));
}

use scalar_series::instance::{component_list, component_row, ComponentList, ComponentLookup, ComponentRow, Index, InstanceId};

#[test]
fn entity_has_no_instance() {
    let id = InstanceId::for_entity(&"world/points".to_string());
    assert_eq!(id.entity_path, "world/points");
    assert_eq!(id.instance_index, None);
}

#[test]
fn no_components() {
    assert_eq!(component_list(None), ComponentList::NoComponents);
}

#[test]
fn components_are_sorted() {
    let known = vec!["rerun.text".to_string(), "rerun.color".to_string(), "rerun.point2d".to_string(), "Zeta".to_string()];
    assert_eq!(
        component_list(Some(known)),
        ComponentList::Components(vec![
            "Zeta".to_string(),
            "rerun.color".to_string(),
            "rerun.point2d".to_string(),
            "rerun.text".to_string(),
        ])
    );
}

#[test]
fn unset_component_has_no_row() {
    assert_eq!(component_row(&ComponentLookup::PrimaryNotFound, &None), None);
    assert_eq!(component_row(&ComponentLookup::PrimaryNotFound, &Some(Index::ArrowInstance(3))), None);
}

#[test]
fn failed_lookup_shows_error() {
    assert_eq!(
        component_row(&ComponentLookup::Failed("bad access".to_string()), &None),
        Some(ComponentRow::Label("Error: bad access".to_string()))
    );
}

#[test]
fn found_rows_by_index() {
    assert_eq!(component_row(&ComponentLookup::Found, &None), Some(ComponentRow::AllInstances));
    assert_eq!(component_row(&ComponentLookup::Found, &Some(Index::ArrowInstance(4))), Some(ComponentRow::OneInstance(4)));
    assert_eq!(
        component_row(&ComponentLookup::Found, &Some(Index::Other)),
        Some(ComponentRow::Label("<bad index>".to_string()))
    );
}

use rgis_layers::color::{next_color_index, next_colorous_color, Color};
use rgis_layers::events::{
    ChangeNotifier, DeleteLayerEvent, LayerEvent, MapClickedEvent, MoveLayerEvent,
    SetLayerVisibilityEvent, ToggleLayerVisibilityEvent, UpdateLayerColorEvent,
};
use rgis_layers::geometry::{is_hit_testable, Geometry, Point, MAX_COORDS};
use rgis_layers::layer::{Feature, LayerCreateError, LayerId, UnassignedLayer};
use rgis_layers::layers::Layers;
use rgis_layers::state::MoveDirection;
use rgis_layers::systems::{
    handle_delete_layer_events, handle_map_clicked_events, handle_move_layer_events,
    handle_set_layer_visibility_events, handle_toggle_layer_visibility_events,
    handle_update_color_events,
};

fn square(min: f64, max: f64) -> geo::Geometry {
    geo::Geometry::Polygon(geo::Polygon::new(
        geo::LineString::from(vec![(min, min), (max, min), (max, max), (min, max), (min, min)]),
        vec![],
    ))
}

fn triangle() -> geo::Geometry {
    geo::Geometry::Polygon(geo::Polygon::new(
        geo::LineString::from(vec![(0.0, 0.0), (10.0, 0.0), (0.0, 10.0), (0.0, 0.0)]),
        vec![],
    ))
}

fn candidate(geometry: geo::Geometry, name: &str) -> UnassignedLayer {
    UnassignedLayer::from_geometry(
        Geometry(geometry.clone()),
        Ok(Geometry(geometry)),
        name.to_string(),
        None,
        "EPSG:4326".to_string(),
    )
    .unwrap()
}

fn point(x: f64, y: f64) -> Point {
    Point(geo::Coord { x, y })
}

fn ids(layers: &Layers) -> Vec<LayerId> {
    layers.iter_bottom_to_top().iter().map(|layer| layer.id).collect()
}

const PALETTE: [Color; 10] = [
    Color { r: 0x1f, g: 0x77, b: 0xb4 },
    Color { r: 0xff, g: 0x7f, b: 0x0e },
    Color { r: 0x2c, g: 0xa0, b: 0x2c },
    Color { r: 0xd6, g: 0x27, b: 0x28 },
    Color { r: 0x94, g: 0x67, b: 0xbd },
    Color { r: 0x8c, g: 0x56, b: 0x4b },
    Color { r: 0xe3, g: 0x77, b: 0xc2 },
    Color { r: 0x7f, g: 0x7f, b: 0x7f },
    Color { r: 0xbc, g: 0xbd, b: 0x22 },
    Color { r: 0x17, g: 0xbe, b: 0xcf },
];

#[test]
fn new_store_is_empty() {
    let layers = Layers::new();
    assert_eq!(layers.count(), 0);
    assert_eq!(layers.selected_layer_id(), None);
    assert!(layers.selected_layer().is_none());
    assert!(layers.iter_bottom_to_top().is_empty());
    assert!(layers.can_add());
    let by_default = Layers::default();
    assert_eq!(by_default.count(), 0);
}

#[test]
fn palette_matches_category10() {
    for (index, expected) in PALETTE.iter().enumerate() {
        assert_eq!(next_colorous_color(index as u64), *expected);
        assert_eq!(next_color_index(index as u64), index);
    }
    assert_eq!(next_colorous_color(10), PALETTE[0]);
    assert_eq!(next_colorous_color(23), PALETTE[3]);
    assert_eq!(next_color_index(u64::MAX), 5);
}

#[test]
fn added_layers_get_distinct_ids_and_cyclic_colors() {
    let mut layers = Layers::new();
    let mut seen = Vec::new();
    for n in 0..12 {
        let id = layers.add(candidate(square(0.0, 1.0), "square"));
        assert!(!seen.contains(&id));
        seen.push(id);
        assert_eq!(layers.count(), n + 1);
        let layer = layers.get(id).unwrap();
        assert_eq!(layer.color, PALETTE[n % 10]);
        assert!(layer.visible);
        assert_eq!(layer.name, "square");
        assert_eq!(layer.crs, "EPSG:4326");
    }
    assert_eq!(ids(&layers), seen);
}

#[test]
fn ids_are_not_reused_after_removal() {
    let mut layers = Layers::new();
    let first = layers.add(candidate(square(0.0, 1.0), "a"));
    layers.remove(first);
    let second = layers.add(candidate(square(0.0, 1.0), "b"));
    assert_ne!(first, second);
    assert_eq!(layers.get(second).unwrap().color, PALETTE[1]);
}

#[test]
fn remove_then_get_is_none() {
    let mut layers = Layers::new();
    let a = layers.add(candidate(square(0.0, 1.0), "a"));
    let b = layers.add(candidate(square(0.0, 1.0), "b"));
    layers.remove(a);
    assert!(layers.get(a).is_none());
    assert!(layers.get_with_z_index(a).is_none());
    assert_eq!(layers.count(), 1);
    assert_eq!(ids(&layers), vec![b]);
    layers.remove(a);
    assert_eq!(layers.count(), 1);
    layers.remove(LayerId(999));
    assert_eq!(layers.count(), 1);
}

#[test]
fn removing_the_selected_layer_clears_the_selection() {
    let mut layers = Layers::new();
    let a = layers.add(candidate(square(0.0, 10.0), "a"));
    let b = layers.add(candidate(square(20.0, 30.0), "b"));
    assert!(layers.set_selected_layer_from_mouse_press(&point(5.0, 5.0)));
    assert_eq!(layers.selected_layer_id(), Some(a));
    assert_eq!(layers.selected_layer().unwrap().id, a);
    layers.remove(b);
    assert_eq!(layers.selected_layer_id(), Some(a));
    layers.remove(a);
    assert_eq!(layers.selected_layer_id(), None);
    assert!(layers.selected_layer().is_none());
}

#[test]
fn get_with_z_index_counts_from_the_bottom() {
    let mut layers = Layers::new();
    let a = layers.add(candidate(square(0.0, 1.0), "a"));
    let b = layers.add(candidate(square(0.0, 1.0), "b"));
    let c = layers.add(candidate(square(0.0, 1.0), "c"));
    assert_eq!(layers.get_with_z_index(a).unwrap().1, 0);
    assert_eq!(layers.get_with_z_index(b).unwrap().1, 1);
    let (layer, z_index) = layers.get_with_z_index(c).unwrap();
    assert_eq!(layer.id, c);
    assert_eq!(z_index, 2);
    let top_down: Vec<LayerId> = layers.iter_top_to_bottom().iter().map(|l| l.id).collect();
    assert_eq!(top_down, vec![c, b, a]);
}

#[test]
fn move_is_a_no_op_at_the_ends() {
    let mut layers = Layers::new();
    let a = layers.add(candidate(square(0.0, 1.0), "a"));
    let b = layers.add(candidate(square(0.0, 1.0), "b"));
    assert_eq!(layers.move_layer(a, MoveDirection::Down), None);
    assert_eq!(ids(&layers), vec![a, b]);
    assert_eq!(layers.move_layer(b, MoveDirection::Up), None);
    assert_eq!(ids(&layers), vec![a, b]);
    assert_eq!(layers.move_layer(LayerId(77), MoveDirection::Up), None);
    assert_eq!(ids(&layers), vec![a, b]);

    let mut single = Layers::new();
    let only = single.add(candidate(square(0.0, 1.0), "only"));
    assert_eq!(single.move_layer(only, MoveDirection::Up), None);
    assert_eq!(single.move_layer(only, MoveDirection::Down), None);
    assert_eq!(ids(&single), vec![only]);
}

#[test]
fn move_swaps_neighbours() {
    let mut layers = Layers::new();
    let a = layers.add(candidate(square(0.0, 1.0), "a"));
    let b = layers.add(candidate(square(0.0, 1.0), "b"));
    let c = layers.add(candidate(square(0.0, 1.0), "c"));
    assert_eq!(layers.move_layer(a, MoveDirection::Up), Some(b));
    assert_eq!(ids(&layers), vec![b, a, c]);
    assert_eq!(layers.move_layer(c, MoveDirection::Down), Some(a));
    assert_eq!(ids(&layers), vec![b, c, a]);
    assert_eq!(layers.get(a).unwrap().name, "a");
}

#[test]
fn move_handler_reports_both_layers() {
    let mut layers = Layers::new();
    let mut notifier = ChangeNotifier::new();
    let bottom = layers.add(candidate(square(0.0, 1.0), "bottom"));
    let top = layers.add(candidate(square(0.0, 1.0), "top"));
    handle_move_layer_events(
        &vec![MoveLayerEvent(bottom, MoveDirection::Up)],
        &mut layers,
        &mut notifier,
    );
    assert_eq!(ids(&layers), vec![top, bottom]);
    assert_eq!(
        notifier.drain(),
        vec![LayerEvent::ZIndexUpdated(bottom), LayerEvent::ZIndexUpdated(top)]
    );
    handle_move_layer_events(
        &vec![
            MoveLayerEvent(bottom, MoveDirection::Up),
            MoveLayerEvent(top, MoveDirection::Down),
            MoveLayerEvent(LayerId(500), MoveDirection::Down),
        ],
        &mut layers,
        &mut notifier,
    );
    assert_eq!(ids(&layers), vec![top, bottom]);
    assert!(notifier.drain().is_empty());
}

#[test]
fn click_inside_one_layer_selects_it_once() {
    let mut layers = Layers::new();
    let a = layers.add(candidate(square(0.0, 10.0), "a"));
    let _b = layers.add(candidate(square(20.0, 30.0), "b"));
    assert!(layers.set_selected_layer_from_mouse_press(&point(5.0, 5.0)));
    assert_eq!(layers.selected_layer_id(), Some(a));
    assert!(!layers.set_selected_layer_from_mouse_press(&point(5.0, 5.0)));
    assert_eq!(layers.selected_layer_id(), Some(a));
    assert!(layers.set_selected_layer_from_mouse_press(&point(15.0, 15.0)));
    assert_eq!(layers.selected_layer_id(), None);
    assert!(!layers.set_selected_layer_from_mouse_press(&point(100.0, 100.0)));
}

#[test]
fn click_needs_the_exact_geometry() {
    let mut layers = Layers::new();
    let id = layers.add(candidate(triangle(), "triangle"));
    // inside the bounding rectangle, outside the triangle
    assert!(layers.containing_coord(&point(8.0, 8.0)).is_empty());
    assert!(!layers.set_selected_layer_from_mouse_press(&point(8.0, 8.0)));
    assert_eq!(layers.selected_layer_id(), None);
    let inside = layers.containing_coord(&point(2.0, 2.0));
    assert_eq!(inside.len(), 1);
    assert_eq!(inside[0].id, id);
    assert!(layers.get(id).unwrap().contains(&point(2.0, 2.0)));
    assert!(!layers.get(id).unwrap().contains(&point(8.0, 8.0)));
}

#[test]
fn click_on_overlapping_layers_selects_the_topmost() {
    let mut layers = Layers::new();
    let a = layers.add(candidate(square(0.0, 10.0), "a"));
    let b = layers.add(candidate(square(5.0, 15.0), "b"));
    let c = layers.add(candidate(square(100.0, 110.0), "c"));
    let found: Vec<LayerId> =
        layers.containing_coord(&point(7.0, 7.0)).iter().map(|l| l.id).collect();
    assert_eq!(found, vec![b, a]);
    assert!(layers.set_selected_layer_from_mouse_press(&point(7.0, 7.0)));
    assert_eq!(layers.selected_layer_id(), Some(b));
    assert_eq!(layers.move_layer(b, MoveDirection::Down), Some(a));
    assert!(layers.set_selected_layer_from_mouse_press(&point(7.0, 7.0)));
    assert_eq!(layers.selected_layer_id(), Some(a));
    assert!(layers.set_selected_layer_from_mouse_press(&point(105.0, 105.0)));
    assert_eq!(layers.selected_layer_id(), Some(c));
}

#[test]
fn click_handler_reports_changes_of_selection() {
    let mut layers = Layers::new();
    let mut notifier = ChangeNotifier::new();
    let a = layers.add(candidate(square(0.0, 10.0), "a"));
    handle_map_clicked_events(
        &vec![
            MapClickedEvent(point(5.0, 5.0)),
            MapClickedEvent(point(5.0, 5.0)),
            MapClickedEvent(point(50.0, 50.0)),
        ],
        &mut layers,
        &mut notifier,
    );
    assert_eq!(
        notifier.drain(),
        vec![LayerEvent::SelectionChanged(Some(a)), LayerEvent::SelectionChanged(None)]
    );
    assert_eq!(layers.selected_layer_id(), None);
}

#[test]
fn scenario_two_layers() {
    let mut layers = Layers::new();
    let mut notifier = ChangeNotifier::new();
    let l1 = layers.add(candidate(square(0.0, 10.0), "L1"));
    assert_eq!(layers.count(), 1);
    assert!(layers.get(l1).unwrap().visible);
    assert_eq!(layers.get(l1).unwrap().color, PALETTE[0]);
    let l2 = layers.add(candidate(square(20.0, 30.0), "L2"));
    assert_eq!(layers.get(l2).unwrap().color, PALETTE[1]);
    assert!(layers.set_selected_layer_from_mouse_press(&point(25.0, 25.0)));
    assert_eq!(layers.selected_layer_id(), Some(l2));
    assert!(!layers.set_selected_layer_from_mouse_press(&point(25.0, 25.0)));
    handle_move_layer_events(
        &vec![MoveLayerEvent(l1, MoveDirection::Up)],
        &mut layers,
        &mut notifier,
    );
    assert_eq!(ids(&layers), vec![l2, l1]);
    assert_eq!(notifier.drain().len(), 2);
    handle_move_layer_events(
        &vec![MoveLayerEvent(l1, MoveDirection::Up)],
        &mut layers,
        &mut notifier,
    );
    assert_eq!(ids(&layers), vec![l2, l1]);
    assert!(notifier.drain().is_empty());
}

#[test]
fn toggle_twice_restores_visibility() {
    let mut layers = Layers::new();
    let mut notifier = ChangeNotifier::new();
    let a = layers.add(candidate(square(0.0, 10.0), "a"));
    handle_toggle_layer_visibility_events(
        &vec![ToggleLayerVisibilityEvent(a), ToggleLayerVisibilityEvent(a)],
        &mut layers,
        &mut notifier,
    );
    assert!(layers.get(a).unwrap().visible);
    assert_eq!(
        notifier.drain(),
        vec![LayerEvent::BecameHidden(a), LayerEvent::BecameVisible(a)]
    );
    assert_eq!(layers.toggle_visibility(a), Some(false));
    handle_toggle_layer_visibility_events(
        &vec![
            ToggleLayerVisibilityEvent(a),
            ToggleLayerVisibilityEvent(LayerId(9)),
            ToggleLayerVisibilityEvent(a),
        ],
        &mut layers,
        &mut notifier,
    );
    assert!(!layers.get(a).unwrap().visible);
    assert_eq!(
        notifier.drain(),
        vec![LayerEvent::BecameVisible(a), LayerEvent::BecameHidden(a)]
    );
}

#[test]
fn set_visibility_and_color_keep_the_rest() {
    let mut layers = Layers::new();
    let a = layers.add(candidate(square(0.0, 10.0), "a"));
    let b = layers.add(candidate(square(0.0, 10.0), "b"));
    assert!(layers.set_visibility(a, false));
    assert!(!layers.get(a).unwrap().visible);
    assert!(layers.get(b).unwrap().visible);
    assert!(layers.set_visibility(a, false));
    assert!(!layers.get(a).unwrap().visible);
    assert!(layers.set_visibility(a, true));
    assert!(layers.get(a).unwrap().visible);
    assert!(!layers.set_visibility(LayerId(40), false));
    assert_eq!(layers.toggle_visibility(LayerId(40)), None);
    let red = Color { r: 255, g: 0, b: 0 };
    assert!(layers.set_color(b, red));
    assert_eq!(layers.get(b).unwrap().color, red);
    assert_eq!(layers.get(a).unwrap().color, PALETTE[0]);
    assert_eq!(layers.get(b).unwrap().name, "b");
    assert!(!layers.set_color(LayerId(40), red));
    assert_eq!(ids(&layers), vec![a, b]);
}

#[test]
fn color_handler_reports_known_layers_only() {
    let mut layers = Layers::new();
    let mut notifier = ChangeNotifier::new();
    let a = layers.add(candidate(square(0.0, 10.0), "a"));
    let green = Color { r: 0, g: 200, b: 0 };
    handle_update_color_events(
        &vec![UpdateLayerColorEvent(LayerId(31), green), UpdateLayerColorEvent(a, green)],
        &mut layers,
        &mut notifier,
    );
    assert_eq!(layers.get(a).unwrap().color, green);
    assert_eq!(notifier.drain(), vec![LayerEvent::ColorUpdated(a)]);
}

#[test]
fn delete_handler_reports_removed_layers_only() {
    let mut layers = Layers::new();
    let mut notifier = ChangeNotifier::new();
    let a = layers.add(candidate(square(0.0, 10.0), "a"));
    let b = layers.add(candidate(square(0.0, 10.0), "b"));
    assert!(layers.set_selected_layer_from_mouse_press(&point(5.0, 5.0)));
    assert_eq!(layers.selected_layer_id(), Some(b));
    handle_delete_layer_events(&vec![DeleteLayerEvent(LayerId(64))], &mut layers, &mut notifier);
    assert_eq!(ids(&layers), vec![a, b]);
    assert_eq!(layers.selected_layer_id(), Some(b));
    assert!(notifier.drain().is_empty());
    handle_delete_layer_events(
        &vec![DeleteLayerEvent(a), DeleteLayerEvent(a), DeleteLayerEvent(LayerId(64))],
        &mut layers,
        &mut notifier,
    );
    assert_eq!(ids(&layers), vec![b]);
    assert_eq!(notifier.drain(), vec![LayerEvent::Deleted(a)]);
}

#[test]
fn feature_carries_the_bounding_rectangle() {
    let feature = Feature::from_geometry(Geometry(triangle())).unwrap();
    assert_eq!(feature.bounding_rect.0.min(), geo::Coord { x: 0.0, y: 0.0 });
    assert_eq!(feature.bounding_rect.0.max(), geo::Coord { x: 10.0, y: 10.0 });
    assert!(feature.contains(&point(1.0, 1.0)));
    assert!(!feature.contains(&point(9.0, 9.0)));
    assert!(!feature.contains(&point(11.0, 1.0)));
}

#[test]
fn empty_geometry_has_no_bounding_box() {
    let empty = geo::Geometry::LineString(geo::LineString::new(vec![]));
    let result = Feature::from_geometry(Geometry(empty.clone()));
    assert!(matches!(result, Err(LayerCreateError::BoundingBox)));
    let result = UnassignedLayer::from_geometry(
        Geometry(empty.clone()),
        Ok(Geometry(square(0.0, 1.0))),
        "empty".to_string(),
        None,
        "EPSG:4326".to_string(),
    );
    assert!(matches!(result, Err(LayerCreateError::BoundingBox)));
    let result = UnassignedLayer::from_geometry(
        Geometry(square(0.0, 1.0)),
        Ok(Geometry(empty)),
        "empty".to_string(),
        None,
        "EPSG:4326".to_string(),
    );
    let error = result.unwrap_err();
    assert!(matches!(error, LayerCreateError::BoundingBox));
    assert_eq!(error.message(), "Could not generate bounding box");
}

#[test]
fn failed_reprojection_is_passed_on() {
    let result = UnassignedLayer::from_geometry(
        Geometry(geo::Geometry::LineString(geo::LineString::new(vec![]))),
        Err("unknown CRS".to_string()),
        "layer".to_string(),
        None,
        "EPSG:0".to_string(),
    );
    let error = result.unwrap_err();
    assert!(matches!(error, LayerCreateError::Transform(_)));
    assert_eq!(error.message(), "unknown CRS");
}

#[test]
fn from_geometry_keeps_what_it_is_given() {
    let mut metadata = serde_json::Map::new();
    metadata.insert("population".to_string(), serde_json::Value::from(12));
    let layer = UnassignedLayer::from_geometry(
        Geometry(square(0.0, 1.0)),
        Ok(Geometry(square(100.0, 200.0))),
        "towns".to_string(),
        Some(metadata.clone()),
        "EPSG:4326".to_string(),
    )
    .unwrap();
    assert_eq!(layer.name, "towns");
    assert_eq!(layer.crs, "EPSG:4326");
    assert_eq!(layer.metadata, metadata);
    assert_eq!(layer.unprojected_feature.geometry.0, square(0.0, 1.0));
    assert_eq!(layer.projected_feature.geometry.0, square(100.0, 200.0));
    assert_eq!(layer.projected_feature.bounding_rect.0.min(), geo::Coord { x: 100.0, y: 100.0 });
    assert_eq!(layer.projected_feature.bounding_rect.0.max(), geo::Coord { x: 200.0, y: 200.0 });
    assert_eq!(layer.unprojected_feature.bounding_rect.0.max(), geo::Coord { x: 1.0, y: 1.0 });

    let bare = candidate(square(0.0, 1.0), "bare");
    assert!(bare.metadata.is_empty());

    let mut layers = Layers::new();
    let id = layers.add(layer);
    let stored = layers.get(id).unwrap();
    assert_eq!(stored.metadata, metadata);
    assert_eq!(stored.projected_feature.geometry.0, square(100.0, 200.0));
    assert!(layers.set_selected_layer_from_mouse_press(&point(150.0, 150.0)));
    assert!(layers.set_selected_layer_from_mouse_press(&point(0.5, 0.5)));
    assert_eq!(layers.selected_layer_id(), None);
}

fn corners(layers: &Layers) -> Option<(geo::Coord, geo::Coord)> {
    layers.projected_bounding_rect().map(|rect| (rect.0.min(), rect.0.max()))
}

#[test]
fn bounds_are_the_union_of_all_added_rectangles() {
    let mut layers = Layers::new();
    assert_eq!(corners(&layers), None);
    let a = layers.add(candidate(square(0.0, 10.0), "a"));
    assert_eq!(
        corners(&layers),
        Some((geo::Coord { x: 0.0, y: 0.0 }, geo::Coord { x: 10.0, y: 10.0 }))
    );
    layers.add(candidate(square(-5.0, 3.0), "b"));
    assert_eq!(
        corners(&layers),
        Some((geo::Coord { x: -5.0, y: -5.0 }, geo::Coord { x: 10.0, y: 10.0 }))
    );
    // a rectangle that the bounds contain already changes nothing
    layers.add(candidate(square(1.0, 2.0), "c"));
    assert_eq!(
        corners(&layers),
        Some((geo::Coord { x: -5.0, y: -5.0 }, geo::Coord { x: 10.0, y: 10.0 }))
    );
    // the bounds never shrink
    layers.remove(a);
    assert_eq!(
        corners(&layers),
        Some((geo::Coord { x: -5.0, y: -5.0 }, geo::Coord { x: 10.0, y: 10.0 }))
    );
}

#[test]
fn bounds_do_not_depend_on_the_order_of_adds() {
    let mut one = Layers::new();
    one.add(candidate(square(0.0, 10.0), "a"));
    one.add(candidate(square(20.0, 30.0), "b"));
    let mut other = Layers::new();
    other.add(candidate(square(20.0, 30.0), "b"));
    other.add(candidate(square(0.0, 10.0), "a"));
    assert_eq!(corners(&one), corners(&other));
    assert_eq!(
        corners(&one),
        Some((geo::Coord { x: 0.0, y: 0.0 }, geo::Coord { x: 30.0, y: 30.0 }))
    );
}

#[test]
fn get_mut_changes_the_layer_in_place() {
    let mut layers = Layers::new();
    let a = layers.add(candidate(square(0.0, 10.0), "a"));
    let b = layers.add(candidate(square(0.0, 10.0), "b"));
    let blue = Color { r: 0, g: 0, b: 255 };
    layers.get_mut(b).unwrap().color = blue;
    layers.get_mut(a).unwrap().visible = false;
    assert!(layers.get_mut(LayerId(12)).is_none());
    assert_eq!(layers.get(b).unwrap().color, blue);
    assert!(layers.get(b).unwrap().visible);
    assert!(!layers.get(a).unwrap().visible);
    assert_eq!(layers.get(a).unwrap().color, PALETTE[0]);
    assert_eq!(ids(&layers), vec![a, b]);
}

#[test]
fn set_visibility_handler_reports_changes_only() {
    let mut layers = Layers::new();
    let mut notifier = ChangeNotifier::new();
    let a = layers.add(candidate(square(0.0, 10.0), "a"));
    handle_set_layer_visibility_events(
        &vec![
            SetLayerVisibilityEvent(a, true),
            SetLayerVisibilityEvent(a, false),
            SetLayerVisibilityEvent(a, false),
            SetLayerVisibilityEvent(LayerId(3), false),
            SetLayerVisibilityEvent(a, true),
        ],
        &mut layers,
        &mut notifier,
    );
    assert!(layers.get(a).unwrap().visible);
    assert_eq!(
        notifier.drain(),
        vec![LayerEvent::BecameHidden(a), LayerEvent::BecameVisible(a)]
    );
}

fn ring(first: (f64, f64), min: f64, max: f64) -> geo::Polygon {
    geo::Polygon::new(
        geo::LineString::from(vec![first, (max, min), (max, max), (min, max), first]),
        vec![],
    )
}

#[test]
fn finite_coordinates_are_told_from_the_others() {
    assert_eq!(MAX_COORDS, 2147483647);
    assert!(is_hit_testable(&Geometry(square(0.0, 10.0))));
    assert!(is_hit_testable(&Geometry(triangle())));
    assert!(is_hit_testable(&Geometry(geo::Geometry::LineString(geo::LineString::new(vec![])))));
    assert!(is_hit_testable(&Geometry(geo::Geometry::Point(geo::Point(geo::Coord {
        x: -0.0,
        y: f64::MAX,
    })))));
    for odd in [f64::NAN, f64::INFINITY, f64::NEG_INFINITY] {
        let in_x = geo::Geometry::Polygon(ring((odd, 0.0), 0.0, 10.0));
        let in_y = geo::Geometry::Polygon(ring((0.0, odd), 0.0, 10.0));
        assert!(!is_hit_testable(&Geometry(in_x)));
        assert!(!is_hit_testable(&Geometry(in_y)));
    }
    let last = geo::Geometry::MultiPolygon(geo::MultiPolygon(vec![
        ring((0.0, 0.0), 0.0, 10.0),
        ring((20.0, f64::NAN), 20.0, 30.0),
    ]));
    assert!(!is_hit_testable(&Geometry(last)));
}

#[test]
fn a_geometry_with_a_coordinate_that_is_no_number_contains_no_point() {
    let geometry = geo::Geometry::MultiPolygon(geo::MultiPolygon(vec![
        ring((0.0, 0.0), 0.0, 10.0),
        ring((f64::NAN, 20.0), 20.0, 30.0),
    ]));
    let mut layers = Layers::new();
    let id = layers.add(candidate(geometry, "odd"));
    let layer = layers.get(id).unwrap();
    assert_eq!(layer.projected_feature.bounding_rect.0.min(), geo::Coord { x: 0.0, y: 0.0 });
    assert_eq!(layer.projected_feature.bounding_rect.0.max(), geo::Coord { x: 30.0, y: 30.0 });
    // inside the bounding rectangle and outside the first polygon
    assert!(!layer.contains(&point(15.0, 15.0)));
    assert!(!layer.contains(&point(25.0, 25.0)));
    assert!(!layer.contains(&point(5.0, 5.0)));
    assert!(layers.containing_coord(&point(15.0, 15.0)).is_empty());
    assert!(!layers.set_selected_layer_from_mouse_press(&point(25.0, 25.0)));
    assert_eq!(layers.selected_layer_id(), None);
}

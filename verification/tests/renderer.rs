use rgis_layers::color::Color;
use rgis_layers::geometry::Geometry;
use rgis_layers::layer::{LayerId, UnassignedLayer};
use rgis_layers::layers::Layers;
use rgis_layers::renderer::{
    layer_loaded, toggle_material_event, EntityStore, RenderAction, ToggleMaterialEvent,
};

fn dot(name: &str) -> UnassignedLayer {
    let geometry = geo::Geometry::Point(geo::Point(geo::Coord { x: 1.0, y: 2.0 }));
    UnassignedLayer::from_geometry(
        Geometry(geometry.clone()),
        Ok(Geometry(geometry)),
        name.to_string(),
        None,
        "EPSG:4326".to_string(),
    )
    .unwrap()
}

const FIRST: Color = Color { r: 0x1f, g: 0x77, b: 0xb4 };
const SECOND: Color = Color { r: 0xff, g: 0x7f, b: 0x0e };

#[test]
fn entity_store_keeps_entities_by_layer() {
    let mut store = EntityStore::new();
    assert_eq!(store.take(LayerId(1)), None);
    store.spawn_mesh(LayerId(1), 10);
    store.spawn_mesh(LayerId(2), 20);
    store.spawn_mesh(LayerId(1), 11);
    assert_eq!(store.take(LayerId(1)), Some(vec![10, 11]));
    assert_eq!(store.take(LayerId(1)), None);
    assert_eq!(store.take(LayerId(2)), Some(vec![20]));
}

#[test]
fn visible_new_layers_are_drawn_and_centered() {
    let mut layers = Layers::new();
    let a = layers.add(dot("a"));
    let b = layers.add(dot("b"));
    layers.set_visibility(a, false);
    let actions = layer_loaded(&layers, &vec![a, LayerId(44), b]);
    assert_eq!(
        actions,
        vec![
            RenderAction::SpawnMeshes { layer_id: b, color: SECOND },
            RenderAction::CenterCamera(b),
        ]
    );
    assert!(layer_loaded(&layers, &vec![]).is_empty());
}

#[test]
fn hiding_takes_the_drawn_entities_away() {
    let mut layers = Layers::new();
    let a = layers.add(dot("a"));
    let mut store = EntityStore::new();
    store.spawn_mesh(a, 1);
    store.spawn_mesh(a, 2);
    store.spawn_mesh(LayerId(70), 3);
    let actions = toggle_material_event(
        &layers,
        &vec![
            ToggleMaterialEvent::Hide(a),
            ToggleMaterialEvent::Hide(a),
            ToggleMaterialEvent::Hide(LayerId(70)),
            ToggleMaterialEvent::Show(LayerId(70)),
            ToggleMaterialEvent::Show(a),
        ],
        &vec![],
        &mut store,
    );
    assert_eq!(
        actions,
        vec![
            RenderAction::Despawn(1),
            RenderAction::Despawn(2),
            RenderAction::SpawnMeshes { layer_id: a, color: FIRST },
        ]
    );
    assert_eq!(store.take(a), None);
    assert_eq!(store.take(LayerId(70)), Some(vec![3]));
}

#[test]
fn a_new_colour_redraws_a_drawn_layer() {
    let mut layers = Layers::new();
    let a = layers.add(dot("a"));
    let b = layers.add(dot("b"));
    let red = Color { r: 200, g: 0, b: 0 };
    layers.set_color(a, red);
    let mut store = EntityStore::new();
    store.spawn_mesh(a, 5);
    let actions =
        toggle_material_event(&layers, &vec![], &vec![b, a, LayerId(9), a], &mut store);
    assert_eq!(
        actions,
        vec![RenderAction::Despawn(5), RenderAction::SpawnMeshes { layer_id: a, color: red }]
    );
    assert_eq!(store.take(a), None);
}

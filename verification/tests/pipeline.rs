use rgis_layers::events::{ChangeNotifier, LayerEvent};
use rgis_layers::geometry::Geometry;
use rgis_layers::layer::{LayerId, UnassignedLayer};
use rgis_layers::layers::Layers;
use rgis_layers::loader::{
    forward_fetched_files, load_geojson_file_handler, load_layers_from_cli, FetchedFile,
    GeoJsonSource, LoadGeoJsonFileEvent, LoadGeoJsonFileTask, SpawnTask,
};
use rgis_layers::mailbox::{reversed, Mailbox};
use rgis_layers::systems::{add_loaded_layers, handle_loaded_layers};

fn line(name: &str) -> UnassignedLayer {
    let geometry = geo::Geometry::LineString(geo::LineString::from(vec![(0.0, 0.0), (4.0, 2.0)]));
    UnassignedLayer::from_geometry(
        Geometry(geometry.clone()),
        Ok(Geometry(geometry)),
        name.to_string(),
        None,
        "EPSG:4326".to_string(),
    )
    .unwrap()
}

#[test]
fn mailbox_drains_in_order_of_delivery() {
    let mut mailbox: Mailbox<u32> = Mailbox::new();
    assert_eq!(mailbox.len(), 0);
    assert!(mailbox.drain().is_empty());
    mailbox.deliver(3);
    mailbox.deliver(1);
    mailbox.deliver(2);
    assert_eq!(mailbox.len(), 3);
    assert_eq!(mailbox.drain(), vec![3, 1, 2]);
    assert_eq!(mailbox.len(), 0);
    assert!(mailbox.drain().is_empty());
    mailbox.deliver(9);
    assert_eq!(mailbox.drain(), vec![9]);
}

#[test]
fn reversed_turns_the_order_round() {
    assert_eq!(reversed(vec![1, 2, 3]), vec![3, 2, 1]);
    assert_eq!(reversed(Vec::<u8>::new()), Vec::<u8>::new());
}

#[test]
fn notifier_keeps_events_until_drained() {
    let mut notifier = ChangeNotifier::new();
    notifier.emit(LayerEvent::Created(LayerId(1)));
    notifier.emit(LayerEvent::Deleted(LayerId(1)));
    assert_eq!(
        notifier.drain(),
        vec![LayerEvent::Created(LayerId(1)), LayerEvent::Deleted(LayerId(1))]
    );
    assert!(notifier.drain().is_empty());
}

#[test]
fn loaded_layers_are_added_in_order() {
    let mut layers = Layers::new();
    let mut notifier = ChangeNotifier::new();
    let outcomes: Vec<Result<Vec<UnassignedLayer>, String>> = vec![
        Ok(vec![line("a"), line("b")]),
        Err("could not parse".to_string()),
        Ok(vec![]),
        Ok(vec![line("c")]),
    ];
    handle_loaded_layers(outcomes, &mut layers, &mut notifier);
    assert_eq!(layers.count(), 3);
    let names: Vec<String> =
        layers.iter_bottom_to_top().iter().map(|layer| layer.name.clone()).collect();
    assert_eq!(names, vec!["a", "b", "c"]);
    let ids: Vec<LayerId> = layers.iter_bottom_to_top().iter().map(|layer| layer.id).collect();
    assert_eq!(
        notifier.drain(),
        vec![
            LayerEvent::Created(ids[0]),
            LayerEvent::Created(ids[1]),
            LayerEvent::Created(ids[2]),
        ]
    );
}

#[test]
fn failed_loads_change_nothing() {
    let mut layers = Layers::new();
    let mut notifier = ChangeNotifier::new();
    let outcomes: Vec<Result<Vec<UnassignedLayer>, String>> =
        vec![Err("first".to_string()), Err("second".to_string())];
    handle_loaded_layers(outcomes, &mut layers, &mut notifier);
    assert_eq!(layers.count(), 0);
    assert!(notifier.drain().is_empty());
}

#[test]
fn add_loaded_layers_reports_each_layer() {
    let mut layers = Layers::new();
    let mut notifier = ChangeNotifier::new();
    add_loaded_layers(vec![line("x"), line("y")], &mut layers, &mut notifier);
    assert_eq!(layers.count(), 2);
    let events = notifier.drain();
    assert_eq!(events.len(), 2);
    assert_ne!(events[0], events[1]);
    assert_eq!(layers.iter_top_to_bottom()[0].name, "y");
}

#[test]
fn fetched_files_become_requests() {
    let mut requests = vec![LoadGeoJsonFileEvent::FromPath {
        path: "a.geojson".to_string(),
        crs: "EPSG:4326".to_string(),
    }];
    let outcomes: Vec<Result<FetchedFile, String>> = vec![
        Err("timeout".to_string()),
        Ok(FetchedFile {
            bytes: vec![1, 2, 3],
            name: "remote".to_string(),
            crs: "EPSG:3857".to_string(),
        }),
    ];
    forward_fetched_files(outcomes, &mut requests);
    assert_eq!(requests.len(), 2);
    assert!(matches!(&requests[0], LoadGeoJsonFileEvent::FromPath { path, .. } if path == "a.geojson"));
    match &requests[1] {
        LoadGeoJsonFileEvent::FromBytes { file_name, bytes, crs } => {
            assert_eq!(file_name, "remote");
            assert_eq!(bytes, &vec![1, 2, 3]);
            assert_eq!(crs, "EPSG:3857");
        }
        other => panic!("unexpected request {:?}", other),
    }
}

#[test]
fn requests_become_tasks() {
    let requests = vec![
        LoadGeoJsonFileEvent::FromPath {
            path: "a.geojson".to_string(),
            crs: "EPSG:4326".to_string(),
        },
        LoadGeoJsonFileEvent::FromNetwork {
            url: "http://example.org/b.geojson".to_string(),
            crs: "EPSG:2263".to_string(),
            name: "b".to_string(),
        },
        LoadGeoJsonFileEvent::FromBytes {
            file_name: "c".to_string(),
            bytes: vec![7, 8],
            crs: "EPSG:4269".to_string(),
        },
    ];
    let outcomes: Vec<Result<FetchedFile, String>> = vec![Ok(FetchedFile {
        bytes: vec![9],
        name: "d".to_string(),
        crs: "EPSG:3857".to_string(),
    })];
    let tasks = load_geojson_file_handler(requests, &"EPSG:3857".to_string(), outcomes);
    assert_eq!(tasks.len(), 4);
    match &tasks[0] {
        SpawnTask::LoadGeoJsonFile(task) => {
            assert!(matches!(&task.geojson_source, GeoJsonSource::Path(path) if path == "a.geojson"));
            assert_eq!(task.source_crs, "EPSG:4326");
            assert_eq!(task.target_crs, "EPSG:3857");
            assert_eq!(task.name(), "Loading GeoJson file");
        }
        other => panic!("unexpected task {:?}", other),
    }
    match &tasks[1] {
        SpawnTask::NetworkFetch(task) => {
            assert_eq!(task.url, "http://example.org/b.geojson");
            assert_eq!(task.crs, "EPSG:2263");
            assert_eq!(task.name, "b");
        }
        other => panic!("unexpected task {:?}", other),
    }
    match &tasks[2] {
        SpawnTask::LoadGeoJsonFile(task) => {
            assert!(matches!(&task.geojson_source,
                GeoJsonSource::Bytes { file_name, bytes } if file_name == "c" && bytes == &vec![7, 8]));
            assert_eq!(task.source_crs, "EPSG:4269");
            assert_eq!(task.target_crs, "EPSG:3857");
        }
        other => panic!("unexpected task {:?}", other),
    }
    match &tasks[3] {
        SpawnTask::LoadGeoJsonFile(task) => {
            assert!(matches!(&task.geojson_source,
                GeoJsonSource::Bytes { file_name, bytes } if file_name == "d" && bytes == &vec![9]));
            assert_eq!(task.source_crs, "EPSG:3857");
        }
        other => panic!("unexpected task {:?}", other),
    }
}

#[test]
fn no_requests_no_tasks() {
    let outcomes: Vec<Result<FetchedFile, String>> = vec![Err("gone".to_string())];
    let tasks = load_geojson_file_handler(vec![], &"EPSG:3857".to_string(), outcomes);
    assert!(tasks.is_empty());
}

#[test]
fn command_line_values_become_requests() {
    let events = load_layers_from_cli(
        Some(vec![1, 2]),
        vec!["one.geojson".to_string(), "two.geojson".to_string()],
        &"EPSG:4326".to_string(),
    );
    assert_eq!(events.len(), 3);
    match &events[0] {
        LoadGeoJsonFileEvent::FromBytes { file_name, bytes, crs } => {
            assert_eq!(file_name, "Standard input");
            assert_eq!(bytes, &vec![1, 2]);
            assert_eq!(crs, "EPSG:4326");
        }
        other => panic!("unexpected request {:?}", other),
    }
    assert!(matches!(&events[1],
        LoadGeoJsonFileEvent::FromPath { path, crs } if path == "one.geojson" && crs == "EPSG:4326"));
    assert!(matches!(&events[2],
        LoadGeoJsonFileEvent::FromPath { path, .. } if path == "two.geojson"));
    let events = load_layers_from_cli(None, vec!["one.geojson".to_string()], &"EPSG:4326".to_string());
    assert_eq!(events.len(), 1);
    assert!(matches!(&events[0], LoadGeoJsonFileEvent::FromPath { .. }));
    let _ = LoadGeoJsonFileTask {
        geojson_source: GeoJsonSource::Path("p".to_string()),
        source_crs: "a".to_string(),
        target_crs: "b".to_string(),
    };
}

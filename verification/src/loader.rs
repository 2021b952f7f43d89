//! Planning of loading work: which task each load request turns into, and
//! how fetched files and command-line values become load requests.

use vstd::prelude::*;
use crate::mailbox::reversed;

verus! {

/// A request to load GeoJSON data.
#[derive(Debug)]
pub enum LoadGeoJsonFileEvent {
    /// From a file at a path.
    FromPath { path: String, crs: String },
    /// From a file that has to be fetched over the network first.
    FromNetwork { url: String, crs: String, name: String },
    /// From bytes in memory.
    FromBytes { file_name: String, bytes: Vec<u8>, crs: String },
}

/// A file that was fetched over the network.
#[derive(Debug)]
pub struct FetchedFile {
    pub bytes: Vec<u8>,
    pub name: String,
    pub crs: String,
}

/// Where a loading task reads its GeoJSON from.
#[derive(Debug)]
pub enum GeoJsonSource {
    Path(String),
    Bytes { file_name: String, bytes: Vec<u8> },
}

/// The work of parsing one GeoJSON source and reprojecting its geometries.
#[derive(Debug)]
pub struct LoadGeoJsonFileTask {
    pub geojson_source: GeoJsonSource,
    pub source_crs: String,
    pub target_crs: String,
}

impl LoadGeoJsonFileTask {
    /// What the task is called while it runs.
    pub fn name(&self) -> (name: String)
        ensures
            name@ == "Loading GeoJson file"@,
    {
        "Loading GeoJson file".to_owned()
    }
}

/// The work of fetching one file over the network.
#[derive(Debug)]
pub struct NetworkFetchTask {
    pub url: String,
    pub crs: String,
    pub name: String,
}

/// A task to run away from the consumer.
#[derive(Debug)]
pub enum SpawnTask {
    LoadGeoJsonFile(LoadGeoJsonFileTask),
    NetworkFetch(NetworkFetchTask),
}

/// The request that a fetched file turns into.
pub open spec fn fetched_event(file: FetchedFile) -> LoadGeoJsonFileEvent {
    LoadGeoJsonFileEvent::FromBytes { file_name: file.name, bytes: file.bytes, crs: file.crs }
}

/// The requests that the outcomes of network fetches turn into, in order:
/// one for each success, none for a failure.
pub open spec fn fetched_events<E>(outcomes: Seq<Result<FetchedFile, E>>) -> Seq<LoadGeoJsonFileEvent>
    decreases outcomes.len(),
{
    if outcomes.len() == 0 {
        Seq::empty()
    } else {
        match outcomes.last() {
            Ok(file) => fetched_events(outcomes.drop_last()).push(fetched_event(file)),
            Err(_) => fetched_events(outcomes.drop_last()),
        }
    }
}

/// The task that a request turns into: a network request becomes a fetch,
/// the others become a load into the target coordinate reference system.
pub open spec fn task_for(event: LoadGeoJsonFileEvent, target_crs: String) -> SpawnTask {
    match event {
        LoadGeoJsonFileEvent::FromPath { path, crs } => SpawnTask::LoadGeoJsonFile(
            LoadGeoJsonFileTask {
                geojson_source: GeoJsonSource::Path(path),
                source_crs: crs,
                target_crs,
            },
        ),
        LoadGeoJsonFileEvent::FromNetwork { url, crs, name } => SpawnTask::NetworkFetch(
            NetworkFetchTask { url, crs, name },
        ),
        LoadGeoJsonFileEvent::FromBytes { file_name, bytes, crs } => SpawnTask::LoadGeoJsonFile(
            LoadGeoJsonFileTask {
                geojson_source: GeoJsonSource::Bytes { file_name, bytes },
                source_crs: crs,
                target_crs,
            },
        ),
    }
}

/// Appends to the load requests one request for each file that was
/// fetched, in order. Failed fetches are dropped.
pub fn forward_fetched_files<E>(
    fetch_outcomes: Vec<Result<FetchedFile, E>>,
    load_events: &mut Vec<LoadGeoJsonFileEvent>,
)
    ensures
        final(load_events)@ == old(load_events)@ + fetched_events(fetch_outcomes@),
{
    let mut waiting = reversed(fetch_outcomes);
    let ghost all = fetch_outcomes@;
    let ghost mut done: int = 0;
    assert(all.take(0) =~= Seq::empty());
    assert(load_events@ =~= old(load_events)@ + Seq::<LoadGeoJsonFileEvent>::empty());
    while waiting.len() > 0
        invariant
            0 <= done <= all.len(),
            waiting@.len() == all.len() - done,
            forall|k: int| 0 <= k < waiting@.len() ==> waiting@[k] == all[all.len() - 1 - k],
            load_events@ == old(load_events)@ + fetched_events(all.take(done)),
        decreases waiting@.len(),
    {
        let ghost before = fetched_events(all.take(done));
        assert(all.take(done + 1).drop_last() =~= all.take(done));
        assert(all.take(done + 1).last() == all[done]);
        match waiting.pop() {
            Some(Ok(fetched)) => {
                assert(all[done] == Ok::<FetchedFile, E>(fetched));
                load_events.push(
                    LoadGeoJsonFileEvent::FromBytes {
                        bytes: fetched.bytes,
                        file_name: fetched.name,
                        crs: fetched.crs,
                    },
                );
                assert(load_events@ =~= old(load_events)@ + before.push(fetched_event(fetched)));
            },
            Some(Err(_)) => {
                assert(all[done] is Err);
            },
            None => {},
        }
        proof {
            done = done + 1;
        }
    }
    assert(all.take(done) =~= all);
}

/// Plans the loading work of one tick. The files that were fetched since
/// the last tick join the load requests, behind those that wait already;
/// then every request turns into the task that serves it, in order.
pub fn load_geojson_file_handler<E>(
    load_events: Vec<LoadGeoJsonFileEvent>,
    target_crs: &String,
    fetch_outcomes: Vec<Result<FetchedFile, E>>,
) -> (tasks: Vec<SpawnTask>)
    ensures
        tasks@.len() == (load_events@ + fetched_events(fetch_outcomes@)).len(),
        forall|i: int|
            0 <= i < tasks@.len() ==> tasks@[i] == task_for(
                (load_events@ + fetched_events(fetch_outcomes@))[i],
                *target_crs,
            ),
{
    let mut load_events = load_events;
    forward_fetched_files(fetch_outcomes, &mut load_events);
    let ghost all = load_events@;
    let mut waiting = reversed(load_events);
    let mut tasks: Vec<SpawnTask> = Vec::new();
    while waiting.len() > 0
        invariant
            tasks@.len() + waiting@.len() == all.len(),
            forall|k: int| 0 <= k < waiting@.len() ==> waiting@[k] == all[all.len() - 1 - k],
            forall|i: int| 0 <= i < tasks@.len() ==> tasks@[i] == task_for(all[i], *target_crs),
        decreases waiting@.len(),
    {
        let ghost at = tasks@.len() as int;
        match waiting.pop() {
            Some(LoadGeoJsonFileEvent::FromPath { path, crs }) => {
                tasks.push(
                    SpawnTask::LoadGeoJsonFile(
                        LoadGeoJsonFileTask {
                            geojson_source: GeoJsonSource::Path(path),
                            source_crs: crs,
                            target_crs: target_crs.clone(),
                        },
                    ),
                );
            },
            Some(LoadGeoJsonFileEvent::FromNetwork { url, crs, name }) => {
                tasks.push(SpawnTask::NetworkFetch(NetworkFetchTask { url, crs, name }));
            },
            Some(LoadGeoJsonFileEvent::FromBytes { file_name, bytes, crs }) => {
                tasks.push(
                    SpawnTask::LoadGeoJsonFile(
                        LoadGeoJsonFileTask {
                            geojson_source: GeoJsonSource::Bytes { bytes, file_name },
                            source_crs: crs,
                            target_crs: target_crs.clone(),
                        },
                    ),
                );
            },
            None => {},
        }
        assert(tasks@[at] == task_for(all[at], *target_crs));
    }
    tasks
}

/// The request is the one for bytes read from standard input.
pub open spec fn is_stdin_event(event: LoadGeoJsonFileEvent, bytes: Vec<u8>, crs: String) -> bool {
    &&& event is FromBytes
    &&& event->FromBytes_file_name@ == "Standard input"@
    &&& event->FromBytes_bytes == bytes
    &&& event->FromBytes_crs == crs
}

/// Turns the values of the command line into load requests: the bytes
/// read from standard input first, if there are any, then each file in
/// order, all in the same source coordinate reference system.
pub fn load_layers_from_cli(
    geojson_stdin_bytes: Option<Vec<u8>>,
    geojson_files: Vec<String>,
    source_crs: &String,
) -> (events: Vec<LoadGeoJsonFileEvent>)
    ensures
        events@.len() == geojson_files@.len() + if geojson_stdin_bytes is Some {
            1int
        } else {
            0int
        },
        geojson_stdin_bytes is Some ==> is_stdin_event(
            events@[0],
            geojson_stdin_bytes->Some_0,
            *source_crs,
        ),
        forall|i: int|
            0 <= i < geojson_files@.len() ==> events@[events@.len() - geojson_files@.len() + i] == (
            LoadGeoJsonFileEvent::FromPath { path: #[trigger] geojson_files@[i], crs: *source_crs }),
{
    let mut events: Vec<LoadGeoJsonFileEvent> = Vec::new();
    match geojson_stdin_bytes {
        Some(bytes) => {
            events.push(
                LoadGeoJsonFileEvent::FromBytes {
                    bytes,
                    crs: source_crs.clone(),
                    file_name: "Standard input".to_owned(),
                },
            );
        },
        None => {},
    }
    let ghost all = geojson_files@;
    let ghost offset = events@.len() as int;
    let ghost head = events@;
    let mut waiting = reversed(geojson_files);
    while waiting.len() > 0
        invariant
            offset <= events@.len(),
            events@.len() - offset + waiting@.len() == all.len(),
            forall|k: int| 0 <= k < waiting@.len() ==> waiting@[k] == all[all.len() - 1 - k],
            forall|i: int| 0 <= i < offset ==> events@[i] == head[i],
            head.len() == offset,
            offset == if geojson_stdin_bytes is Some {
                1int
            } else {
                0int
            },
            geojson_stdin_bytes is Some ==> is_stdin_event(
                head[0],
                geojson_stdin_bytes->Some_0,
                *source_crs,
            ),
            forall|i: int|
                0 <= i < events@.len() - offset ==> events@[offset + i] == (
                LoadGeoJsonFileEvent::FromPath { path: #[trigger] all[i], crs: *source_crs }),
        decreases waiting@.len(),
    {
        match waiting.pop() {
            Some(path) => {
                events.push(LoadGeoJsonFileEvent::FromPath { path, crs: source_crs.clone() });
            },
            None => {},
        }
    }
    events
}

} // verus!

use geoindex::index::{MetaData, Node, SpatialIndex};
use geoindex::io::{paginate, paginate_results, PER_PAGE};
use geoindex::kml::KMLMap;
use geoindex::parsing::{classify_files, FileEntry, MapType};
use geoindex::spatial::Region;
use geoindex::worker::{process_task, QueryState, QueryTask};
use geoindex::COORD_SCALE;
use std::sync::Arc;

fn u(x: f64) -> i64 {
    (x * COORD_SCALE as f64).round() as i64
}

fn node(name: &str, top_left: (i64, i64), bottom_right: (i64, i64)) -> Node {
    Node {
        metadata: MetaData {
            region: Region { top_left, bottom_right },
            tags: vec![("Filetype".to_string(), name.to_string())],
        },
        map: Arc::new(MapType::KML(KMLMap { path: format!("{name}.kml") })),
    }
}

#[test]
fn test_search_flow() {
    let mut index = SpatialIndex::new();
    // A and C intersect the query rectangle; B does not
    index.insert(node("A", (u(-5.0), u(5.0)), (u(5.0), u(-5.0))));
    index.insert(node("B", (u(20.0), u(30.0)), (u(30.0), u(20.0))));
    index.insert(node("C", (u(9.0), u(10.0)), (u(15.0), u(-10.0))));

    let region = Region { top_left: (u(-10.0), u(10.0)), bottom_right: (u(10.0), u(-10.0)) };
    let mut task = QueryTask::new(7, region);
    assert_eq!(task.state, QueryState::Waiting);

    process_task(&mut task, &index);
    assert_eq!(task.state, QueryState::Complete);
    assert_eq!(task.results.len(), 2);
    let mut names: Vec<String> = task
        .results
        .iter()
        .map(|n| n.metadata.tags[0].1.clone())
        .collect();
    names.sort();
    assert_eq!(names, vec!["A".to_string(), "C".to_string()]);

    let resp = paginate_results(&task, Some(1)).unwrap();
    assert_eq!(resp.pagination.count, 2);
    assert_eq!(resp.results.len(), 2);
    assert_eq!(resp.status, QueryState::Complete);
}

#[test]
fn test_pagination_windows() {
    // an index yielding 75 intersections: page one holds 50 rows, page
    // two the remaining 25, and page three does not exist
    let mut task = QueryTask::new(9, Region { top_left: (0, 0), bottom_right: (0, 0) });
    task.begin_processing();
    for i in 0..75 {
        task.push_result(node(&format!("n{i}"), (0, 0), (0, 0)));
    }
    task.complete();

    let p1 = paginate_results(&task, Some(1)).unwrap();
    assert_eq!(p1.results.len(), 50);
    assert_eq!(p1.pagination.count, 75);
    assert_eq!(p1.pagination.per_page, PER_PAGE);
    assert_eq!(p1.pagination.current_page, 1);

    let p2 = paginate_results(&task, Some(2)).unwrap();
    assert_eq!(p2.results.len(), 25);
    assert_eq!(p2.pagination.current_page, 2);

    assert!(paginate_results(&task, Some(3)).is_none());
}

#[test]
fn test_paginate_default_window() {
    assert_eq!(paginate(10, None), Some((0, 10)));
    assert_eq!(paginate(120, None), Some((0, 50)));
    assert_eq!(paginate(0, None), Some((0, 0)));
}

#[test]
fn test_paginate_out_of_range() {
    assert_eq!(paginate(75, Some(3)), None);
    assert_eq!(paginate(0, Some(1)), None);
    assert_eq!(paginate(75, Some(0)), None);
    assert_eq!(paginate(50, Some(2)), None);
}

#[test]
fn test_results_monotone_under_worker() {
    let mut index = SpatialIndex::new();
    index.insert(node("A", (u(-1.0), u(1.0)), (u(1.0), u(-1.0))));
    let region = Region { top_left: (u(-2.0), u(2.0)), bottom_right: (u(2.0), u(-2.0)) };
    let mut task = QueryTask::new(1, region);
    process_task(&mut task, &index);
    let first: Vec<String> = task.results.iter().map(|n| n.metadata.tags[0].1.clone()).collect();
    // a completed task answers every later poll with the same rows
    let again = paginate_results(&task, None).unwrap();
    let second: Vec<String> = again.results.iter().map(|n| n.metadata.tags[0].1.clone()).collect();
    assert_eq!(first, second);
    assert_eq!(task.state, QueryState::Complete);
}

#[test]
fn test_classify_files_and_sidecars() {
    let files = vec![
        FileEntry {
            path: "maps/a.tif".to_string(),
            stem: "a".to_string(),
            extension: "tif".to_string(),
        },
        FileEntry {
            path: "maps/a.tfw".to_string(),
            stem: "a".to_string(),
            extension: "tfw".to_string(),
        },
        FileEntry {
            path: "maps/b.kml".to_string(),
            stem: "b".to_string(),
            extension: "kml".to_string(),
        },
        FileEntry {
            path: "maps/readme.txt".to_string(),
            stem: "readme".to_string(),
            extension: "txt".to_string(),
        },
        FileEntry {
            path: "maps/c.dt2".to_string(),
            stem: "c".to_string(),
            extension: "dt2".to_string(),
        },
    ];
    let maps = classify_files(&files);
    assert_eq!(maps.len(), 3);
    match &maps[0] {
        MapType::GEOTIFF(g) => {
            assert_eq!(g.tiff, "maps/a.tif");
            assert_eq!(g.tfw.as_deref(), Some("maps/a.tfw"));
            assert_eq!(g.prj, None);
        },
        other => panic!("expected a GeoTIFF, got {:?}", other),
    }
    assert!(matches!(&maps[1], MapType::KML(k) if k.path == "maps/b.kml"));
    assert!(matches!(&maps[2], MapType::DTED(d) if d.path == "maps/c.dt2"));
}

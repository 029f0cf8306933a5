use rgis::geometry::{Coord, Geometry, LineString};
use rgis::settings::{handle_crs_changed_events, ChangeCrsEvent, CrsChangedEvent, RgisSettings};
use rgis::tasks::{load_outcome, FileLoader, LoadFileJob, OpenFileTask};

struct FixedLoader(Result<Vec<Geometry>, String>);

impl FileLoader for FixedLoader {
    type Error = String;

    fn load(self) -> Result<Vec<Geometry>, String> {
        self.0
    }
}

fn one_line() -> Vec<Geometry> {
    vec![Geometry::LineString(LineString(vec![Coord { x: 1, y: 2 }]))]
}

#[test]
fn last_crs_change_wins() {
    let mut settings = RgisSettings { target_crs_epsg_code: 4326 };
    let events = vec![
        ChangeCrsEvent { old_crs_epsg_code: 4326, new_crs_epsg_code: 3857 },
        ChangeCrsEvent { old_crs_epsg_code: 3857, new_crs_epsg_code: 2154 },
    ];
    assert_eq!(
        handle_crs_changed_events(&events, &mut settings),
        Some(CrsChangedEvent { old_crs_epsg_code: 3857, new_crs_epsg_code: 2154 })
    );
    assert_eq!(settings.target_crs_epsg_code, 2154);
}

#[test]
fn no_crs_change_changes_nothing() {
    let mut settings = RgisSettings { target_crs_epsg_code: 4326 };
    assert_eq!(handle_crs_changed_events(&vec![], &mut settings), None);
    assert_eq!(settings.target_crs_epsg_code, 4326);
}

#[test]
fn load_job_hands_over_geometry_name_and_crs() {
    let job = LoadFileJob {
        file_loader: FixedLoader(Ok(one_line())),
        name: "rivers.geojson".to_string(),
        source_crs: "EPSG:4326".to_string(),
    };
    assert_eq!(job.name(), "Loading GeoJson file");
    let outcome = job.perform().unwrap();
    assert_eq!(outcome.geometry, one_line());
    assert_eq!(outcome.name, "rivers.geojson");
    assert_eq!(outcome.source_crs, "EPSG:4326");
}

#[test]
fn load_job_passes_the_loader_error_on() {
    let job = LoadFileJob {
        file_loader: FixedLoader(Err("no such file".to_string())),
        name: "rivers.geojson".to_string(),
        source_crs: "EPSG:4326".to_string(),
    };
    assert_eq!(job.perform().err(), Some("no such file".to_string()));
}

#[test]
fn load_outcome_of_each_result() {
    let ok = load_outcome::<String>("a".to_string(), "b".to_string(), Ok(one_line())).unwrap();
    assert_eq!((ok.name.as_str(), ok.source_crs.as_str()), ("a", "b"));
    assert_eq!(ok.geometry, one_line());
    let err = load_outcome("a".to_string(), "b".to_string(), Err(7u8));
    assert_eq!(err.err(), Some(7u8));
}

#[test]
fn open_file_task_name() {
    assert_eq!(OpenFileTask.name(), "Opening file");
}

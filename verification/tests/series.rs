use data_viewer::config::{ConfigError, LineStyle};
use data_viewer::date::Date;
use data_viewer::rat::Rat;
use data_viewer::timeseries::{
    compute_markers, current_marker_size, DataPoint, TimeseriesHandle, TimeseriesRepository,
};

fn style() -> LineStyle {
    LineStyle { red: 20, green: 200, blue: 20, alpha: 255 }
}

fn handle(key: &str) -> TimeseriesHandle {
    TimeseriesHandle {
        data_key: key.to_string(),
        style: style(),
        recompute_marker_size_on_zoom: false,
    }
}

fn day(year: i32, month: u8, day: u8) -> i64 {
    Date { year, month, day }.days_since_epoch()
}

#[test]
fn days_since_epoch_formulas() {
    assert_eq!(day(2000, 1, 1), 0);
    assert_eq!(day(2000, 1, 2), 1);
    assert_eq!(day(2000, 3, 1), 60); // 2000 is a leap year: 31 + 29
    assert_eq!(day(2000, 7, 1), 182);
    assert_eq!(day(2000, 12, 31), 365);
    assert_eq!(day(2001, 1, 1), 366);
    assert_eq!(day(2001, 3, 1), 366 + 59); // 2001 is not a leap year
    assert_eq!(day(1999, 12, 31), -1);
    assert_eq!(day(1999, 1, 1), -365);
    assert_eq!(day(1900, 3, 1), day(1900, 2, 28) + 1); // 1900 is not a leap year
    assert_eq!(day(2004, 2, 29) + 1, day(2004, 3, 1)); // 2004 is a leap year
}

#[test]
fn timeseries_mapping_example() {
    // Dataset "x" holds [(2000-01-01, 1.0), (2000-07-01, 2.0)]: two
    // markers at x = 0 and x = 364/365, y = 8 and y = 16.
    let mut repo = TimeseriesRepository::new();
    let points = vec![
        DataPoint { date_days: day(2000, 1, 1), value: Rat::from_int(1) },
        DataPoint { date_days: day(2000, 7, 1), value: Rat::from_int(2) },
    ];
    assert!(repo.insert("x".to_string(), points).is_ok());

    let markers = compute_markers(&repo, &handle("x"), &Rat::from_int(1)).unwrap();
    assert_eq!(markers.len(), 2);
    assert!(markers[0].x.eqv_to(&Rat::from_int(0)));
    assert!(markers[0].y.eqv_to(&Rat::from_int(8)));
    assert!(markers[1].x.eqv_to(&Rat::new(364, 365)));
    assert!(markers[1].y.eqv_to(&Rat::from_int(16)));
    // Marker size: 5 pixels at unit zoom.
    assert!(markers[0].size.eqv_to(&Rat::from_int(5)));
    assert_eq!(markers[0].style, style());
}

#[test]
fn missing_dataset_is_configuration_error() {
    // Requesting a handle against an empty repository surfaces a
    // configuration error; it never silently renders zero markers.
    let repo = TimeseriesRepository::new();
    let r = compute_markers(&repo, &handle("missing"), &Rat::from_int(1));
    assert!(matches!(r, Err(ConfigError::MissingDataset)));
}

#[test]
fn missing_dataset_among_others_is_still_error() {
    let mut repo = TimeseriesRepository::new();
    repo.insert("loaded".to_string(), vec![]).unwrap();
    let r = compute_markers(&repo, &handle("missing"), &Rat::from_int(1));
    assert!(matches!(r, Err(ConfigError::MissingDataset)));
    assert!(compute_markers(&repo, &handle("loaded"), &Rat::from_int(1)).is_ok());
}

#[test]
fn duplicate_key_is_configuration_error() {
    let mut repo = TimeseriesRepository::new();
    assert!(repo.insert("x".to_string(), vec![]).is_ok());
    let r = repo.insert(
        "x".to_string(),
        vec![DataPoint { date_days: 0, value: Rat::from_int(1) }],
    );
    assert!(matches!(r, Err(ConfigError::DuplicateKey)));
    // The first registration is untouched.
    let markers = compute_markers(&repo, &handle("x"), &Rat::from_int(1)).unwrap();
    assert_eq!(markers.len(), 0);
}

#[test]
fn lookup_finds_registered_points() {
    let mut repo = TimeseriesRepository::new();
    let points = vec![DataPoint { date_days: 7, value: Rat::new(3, 4) }];
    repo.insert("a".to_string(), vec![]).unwrap();
    repo.insert("b".to_string(), points).unwrap();
    assert!(repo.lookup(&"a".to_string()).unwrap().is_empty());
    let b = repo.lookup(&"b".to_string()).unwrap();
    assert_eq!(b.len(), 1);
    assert_eq!(b[0].date_days, 7);
    assert!(repo.lookup(&"c".to_string()).is_none());
    assert!(repo.contains(&"b".to_string()));
    assert!(!repo.contains(&"c".to_string()));
}

#[test]
fn marker_size_policy() {
    // Fixed policy keeps the size sampled at registration; the
    // recompute policy re-derives it from the current zoom.
    let registered = Rat::from_int(5); // sampled at zoom 1
    let zoom_now = Rat::from_int(2);
    let fixed = current_marker_size(&registered, false, &zoom_now);
    let rescaled = current_marker_size(&registered, true, &zoom_now);
    assert!(fixed.eqv_to(&Rat::from_int(5)));
    assert!(rescaled.eqv_to(&Rat::new(5, 2)));
}

#[test]
fn marker_size_samples_zoom_at_registration() {
    let mut repo = TimeseriesRepository::new();
    repo.insert(
        "x".to_string(),
        vec![DataPoint { date_days: 0, value: Rat::from_int(1) }],
    )
    .unwrap();
    let at_zoom_two = compute_markers(&repo, &handle("x"), &Rat::from_int(2)).unwrap();
    assert!(at_zoom_two[0].size.eqv_to(&Rat::new(5, 2)));
}

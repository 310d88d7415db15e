use dayboard::geocode::{choose_place, geocode_url, select_candidate, GeoCandidate};
use dayboard::panel::WeatherPanel;
use dayboard::states::{resolve_state_name, us_state_long_name};
use dayboard::weather::{
    extract_one_day, first_source, next_step, DailySeries, DayQuery, ExtractError, FetchStep,
    Source,
};
use dayboard::weatherlog::{build_record, csv_text, keep_parsed, log_lines, WeatherRecord};

fn cand(admin1: Option<&str>, country: &str) -> GeoCandidate {
    GeoCandidate { admin1: admin1.map(|a| a.to_string()), country_code: country.to_string() }
}

#[test]
fn state_codes_map_to_names_in_any_case() {
    assert_eq!(us_state_long_name("TX"), Some("Texas"));
    assert_eq!(us_state_long_name("tx"), Some("Texas"));
    assert_eq!(us_state_long_name("dc"), Some("District of Columbia"));
    assert_eq!(us_state_long_name("ZZ"), None);
    assert_eq!(us_state_long_name("TEX"), None);
}

#[test]
fn resolve_state_name_expands_codes_and_title_cases_the_rest() {
    assert_eq!(resolve_state_name("  az "), "Arizona");
    assert_eq!(resolve_state_name("ny"), "New York");
    assert_eq!(resolve_state_name("  new   YORK  "), "New York");
    assert_eq!(resolve_state_name("ontario"), "Ontario");
    assert_eq!(resolve_state_name("zz"), "Zz");
    assert_eq!(resolve_state_name("   "), "");
}

#[test]
fn exact_state_match_in_us_beats_earlier_foreign_entry() {
    let cands = vec![cand(Some("Texas"), "MX"), cand(Some("Texas"), "US")];
    assert_eq!(select_candidate(&cands, "Texas"), Some(1));
    assert_eq!(choose_place(&Some(cands), "Austin", "TX"), Ok(1));
}

#[test]
fn substring_state_match_beats_unrelated_same_country_entry() {
    let cands = vec![cand(Some("Oklahoma"), "US"), cand(Some("West Texas Region"), "US")];
    assert_eq!(select_candidate(&cands, "Texas"), Some(1));
    assert_eq!(choose_place(&Some(cands), "Midland", "tx"), Ok(1));
}

#[test]
fn region_containment_ignores_case() {
    let cands = vec![cand(Some("Ohio"), "US"), cand(Some("WEST TEXAS"), "US")];
    assert_eq!(select_candidate(&cands, "Texas"), Some(1));
}

#[test]
fn first_us_candidate_when_no_state_fits() {
    let cands = vec![cand(None, "MX"), cand(Some("Ohio"), "us"), cand(Some("Iowa"), "US")];
    assert_eq!(select_candidate(&cands, "Texas"), Some(1));
}

#[test]
fn geocoding_failures_name_the_request() {
    assert_eq!(
        choose_place(&None, "Springfield", "ZZ"),
        Err("No geocoding results for 'Springfield, ZZ'".to_string())
    );
    let cands = vec![cand(Some("Texas"), "MX")];
    assert_eq!(
        choose_place(&Some(cands), "Springfield", "TX"),
        Err("No US match for 'Springfield, TX'".to_string())
    );
    assert_eq!(choose_place(&Some(vec![]), "A", "B"), Err("No US match for 'A, B'".to_string()));
}

#[test]
fn geocode_url_percent_encodes_utf8_bytes() {
    assert_eq!(
        geocode_url("S\u{e3}o Paulo-1_a.b~c/d"),
        "https://geocoding-api.open-meteo.com/v1/search?name=S%C3%A3o%20Paulo-1_a.b~c%2Fd&count=10&language=en&format=json&country=US"
    );
}

#[test]
fn geocode_url_encodes_the_trimmed_city() {
    assert_eq!(
        geocode_url("  San Antonio "),
        "https://geocoding-api.open-meteo.com/v1/search?name=San%20Antonio&count=10&language=en&format=json&country=US"
    );
}

fn series() -> Option<DailySeries<f64>> {
    Some(DailySeries {
        time: vec!["2024-01-03".to_string(), "2024-01-04".to_string(), "2024-01-05".to_string()],
        temperature_max: vec![10.0, 11.5, 12.25],
        temperature_min: vec![1.0, 2.0, 3.5],
        precipitation: vec![0.0, 0.4, 1.2],
    })
}

#[test]
fn extracts_values_at_the_date_index() {
    let v = extract_one_day(&series(), "2024-01-05", 0.0).unwrap();
    assert_eq!(v.temp_max, 12.25);
    assert_eq!(v.temp_min, 3.5);
    assert_eq!(v.precipitation, 1.2);
}

#[test]
fn absent_date_is_not_found() {
    let r = extract_one_day(&series(), "2024-01-06", 0.0);
    assert_eq!(r.err(), Some(ExtractError::DateMissing));
    assert_eq!(ExtractError::DateMissing.message(), "Requested date not in response");
}

#[test]
fn missing_precipitation_reads_as_zero() {
    let mut s = series().unwrap();
    s.precipitation = vec![];
    let v = extract_one_day(&Some(s), "2024-01-04", 0.0).unwrap();
    assert_eq!(v.temp_max, 11.5);
    assert_eq!(v.precipitation, 0.0);
}

#[test]
fn missing_daily_block_and_short_series_fail() {
    let none: Option<DailySeries<f64>> = None;
    assert_eq!(extract_one_day(&none, "2024-01-05", 0.0).err(), Some(ExtractError::NoDaily));
    let mut s = series().unwrap();
    s.temperature_max.truncate(2);
    assert_eq!(extract_one_day(&Some(s), "2024-01-05", 0.0).err(), Some(ExtractError::MissingMax));
    let mut s = series().unwrap();
    s.temperature_min.truncate(1);
    assert_eq!(extract_one_day(&Some(s), "2024-01-05", 0.0).err(), Some(ExtractError::MissingMin));
}

fn query() -> DayQuery {
    DayQuery {
        latitude: "33.44838".to_string(),
        longitude: "-112.07404".to_string(),
        date: "2024-01-05".to_string(),
        timezone: Some("America/Phoenix".to_string()),
    }
}

#[test]
fn forecast_failure_falls_back_to_archive_for_same_query() {
    assert_eq!(first_source(), Source::Forecast);
    match next_step::<u32>(Source::Forecast, Err("forecast request failed".to_string())) {
        FetchStep::Ask(s) => assert_eq!(s, Source::Archive),
        FetchStep::Finish(_) => panic!("expected a fallback"),
    }
    let q = query();
    let f = q.url(Source::Forecast);
    let a = q.url(Source::Archive);
    assert_eq!(
        f,
        "https://api.open-meteo.com/v1/forecast?latitude=33.44838&longitude=-112.07404&start_date=2024-01-05&end_date=2024-01-05&daily=temperature_2m_max,temperature_2m_min,precipitation_sum&timezone=America%2FPhoenix"
    );
    assert_eq!(
        a,
        "https://archive-api.open-meteo.com/v1/era5?latitude=33.44838&longitude=-112.07404&start_date=2024-01-05&end_date=2024-01-05&daily=temperature_2m_max,temperature_2m_min,precipitation_sum&timezone=America%2FPhoenix"
    );
}

#[test]
fn archive_failure_reports_archive_error() {
    match next_step::<u32>(Source::Archive, Err("archive request failed".to_string())) {
        FetchStep::Finish(Err(e)) => assert_eq!(e, "archive request failed"),
        _ => panic!("expected the archive error"),
    }
    match next_step::<u32>(Source::Forecast, Ok(7)) {
        FetchStep::Finish(Ok(v)) => assert_eq!(v, 7),
        _ => panic!("expected success"),
    }
}

#[test]
fn unknown_timezone_is_sent_as_auto() {
    let mut q = query();
    q.timezone = None;
    assert!(q.url(Source::Forecast).ends_with("&timezone=auto"));
}

#[test]
fn log_load_skips_malformed_line() {
    let text = "{\"city\":\"Phoenix\"}\nnot json\n{\"city\":\"Austin\"}\n";
    let lines = log_lines(text);
    assert_eq!(lines.len(), 3);
    let parsed: Vec<Option<serde_json::Value>> =
        lines.iter().map(|l| serde_json::from_str(l).ok()).collect();
    let kept = keep_parsed(parsed);
    assert_eq!(kept.len(), 2);
    assert_eq!(kept[0]["city"], "Phoenix");
    assert_eq!(kept[1]["city"], "Austin");
}

#[test]
fn log_lines_split_like_a_line_reader() {
    assert_eq!(log_lines("a\r\nb\n\nc"), vec!["a", "b", "", "c"]);
    assert_eq!(log_lines("a\n"), vec!["a"]);
    assert_eq!(log_lines("x\r"), vec!["x\r"]);
    assert!(log_lines("").is_empty());
}

fn text_record(city: &str) -> WeatherRecord<String> {
    WeatherRecord {
        timestamp: "2024-01-05 10:00:00".to_string(),
        city: city.to_string(),
        state: "Arizona".to_string(),
        date: "2024-01-05".to_string(),
        latitude: "33.44838".to_string(),
        longitude: "-112.07404".to_string(),
        timezone: "America/Phoenix".to_string(),
        source: "forecast".to_string(),
        temp_max_c: "20.10".to_string(),
        temp_min_c: "5.00".to_string(),
        precipitation_mm: "0.00".to_string(),
    }
}

#[test]
fn cleared_log_loads_empty_but_export_keeps_memory_entries() {
    let loaded: Vec<Option<serde_json::Value>> = log_lines("")
        .iter()
        .map(|l| serde_json::from_str(l).ok())
        .collect();
    assert!(keep_parsed(loaded).is_empty());
    let stale = vec![text_record("Phoenix")];
    let csv = csv_text(&stale);
    assert_eq!(
        csv,
        "timestamp,city,state,date,latitude,longitude,timezone,source,temp_max_c,temp_min_c,precipitation_mm\n\
2024-01-05 10:00:00,Phoenix,Arizona,2024-01-05,33.44838,-112.07404,America/Phoenix,forecast,20.10,5.00,0.00\n"
    );
}

#[test]
fn csv_of_empty_list_is_header_only() {
    assert_eq!(
        csv_text(&vec![]),
        "timestamp,city,state,date,latitude,longitude,timezone,source,temp_max_c,temp_min_c,precipitation_mm\n"
    );
}

#[test]
fn panel_clear_and_fetch_outcomes() {
    let mut p: WeatherPanel<u32> = WeatherPanel::new(vec![1, 2]);
    assert_eq!(p.status, "Ready");
    p.begin_fetch();
    assert!(p.loading);
    assert_eq!(p.status, "Fetching\u{2026}");
    p.fetch_failed("No US match for 'X, Y'");
    assert!(!p.loading);
    assert_eq!(p.status, "Error: No US match for 'X, Y'");
    p.fetch_succeeded(3, "ok".to_string(), Some("disk full".to_string()));
    assert_eq!(p.entries, vec![1, 2, 3]);
    assert_eq!(p.status, "Saved result, but failed to log: disk full");
    p.export_finished(Err("denied".to_string()));
    assert_eq!(p.status, "Export failed: denied");
    assert_eq!(p.entries, vec![1, 2, 3]);
    p.clear_finished(Err("busy".to_string()));
    assert_eq!(p.status, "Clear failed: busy");
    assert_eq!(p.entries.len(), 3);
    p.clear_finished(Ok(()));
    assert!(p.entries.is_empty());
    assert_eq!(p.status, "Log cleared");
}

#[test]
fn record_takes_place_source_and_default_timezone() {
    let v = extract_one_day(&series(), "2024-01-04", 0.0).unwrap();
    let r = build_record(
        &v,
        33.4,
        -112.0,
        "2024-01-04",
        None,
        Source::Archive,
        "2024-02-01 08:00:00".to_string(),
        "Phoenix".to_string(),
        "Arizona".to_string(),
    );
    assert_eq!(r.timezone, "auto");
    assert_eq!(r.source, "archive");
    assert_eq!(r.temp_min_c, 2.0);
    assert_eq!(r.city, "Phoenix");
}

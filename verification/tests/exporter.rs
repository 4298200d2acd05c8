use victoria_weather::config::{parse_port, render_u16, upstream_url};
use victoria_weather::encode::encode_exposition;
use victoria_weather::handler::{classify_status, FetchError, WeatherExporter};
use victoria_weather::observation::{render_observation, CurrentObservation};
use victoria_weather::registry::{MetricRegistry, RegistryError, Series};

fn document(temperature: &str, humidity: &str, insolation: &str, predicted: &str) -> String {
    let obs = CurrentObservation {
        station_long_name: "Lighthouse Christian Academy".to_string(),
        station_name: "Lighthouse".to_string(),
        station_id: "119".to_string(),
        observation_time: "2017-03-04 12:00:00".to_string(),
        timezone: "PST".to_string(),
        temperature: temperature.to_string(),
        temperature_low: "5.2".to_string(),
        temperature_high: "12.9".to_string(),
        temperature_units: "C".to_string(),
        humidity: humidity.to_string(),
        humidity_units: "%".to_string(),
        insolation: insolation.to_string(),
        insolation_units: "W/m2".to_string(),
        insolation_predicted: predicted.to_string(),
        insolation_predicted_units: "W/m2".to_string(),
    };
    render_observation(&obs)
}

fn gauge_values(exporter: &WeatherExporter) -> Vec<String> {
    exporter.registry.snapshot().into_iter().map(|s| s.value).collect()
}

#[test]
fn end_to_end_exposes_labeled_series() {
    let mut exporter = WeatherExporter::new("Lighthouse").expect("exporter");
    let doc = document("11.8", "97.0", "100.0", "290.0");
    let response = exporter.handle_scrape(Ok(doc));
    assert_eq!(response.status, 200);
    assert_eq!(
        response.content_type.as_deref(),
        Some("text/plain; version=0.0.4")
    );
    let body = response.body;
    assert!(body.contains("thermostat_temperature{location=\"Lighthouse\"} 11.8\n"));
    assert!(body.contains("thermostat_humidity{location=\"Lighthouse\"} 97.0\n"));
    assert!(body.contains(
        "thermostat_insolation{location=\"Lighthouse\",type=\"measured\"} 100.0\n"
    ));
    assert!(body.contains(
        "thermostat_insolation{location=\"Lighthouse\",type=\"predicted\"} 290.0\n"
    ));
    assert!(body.contains("# TYPE thermostat_temperature gauge\n"));
}

#[test]
fn last_writer_wins_across_scrapes() {
    let mut exporter = WeatherExporter::new("Lighthouse").expect("exporter");
    let first = document("1.0", "10.0", "20.0", "30.0");
    let second = document("2.0", "11.0", "21.0", "31.0");
    exporter.handle_scrape(Ok(first.clone()));
    exporter.handle_scrape(Ok(second));
    let values = gauge_values(&exporter);
    assert_eq!(values, vec!["2.0", "11.0", "21.0", "31.0"]);
    exporter.handle_scrape(Ok(first));
    let values = gauge_values(&exporter);
    assert_eq!(values, vec!["1.0", "10.0", "20.0", "30.0"]);
}

#[test]
fn upstream_status_error_leaves_registry_untouched() {
    let mut exporter = WeatherExporter::new("Lighthouse").expect("exporter");
    exporter.handle_scrape(Ok(document("11.8", "97.0", "100.0", "290.0")));
    let before = gauge_values(&exporter);
    let outcome = classify_status(503, String::new());
    assert_eq!(outcome, Err(FetchError::UpstreamStatusError(503)));
    let response = exporter.handle_scrape(outcome);
    assert_eq!(response.status, 502);
    assert!(response.content_type.is_none());
    assert_eq!(response.body, "scrape failed: upstream returned status 503");
    assert_eq!(gauge_values(&exporter), before);
}

#[test]
fn unreachable_upstream_reports_diagnostic() {
    let mut exporter = WeatherExporter::new("Lighthouse").expect("exporter");
    let response = exporter.handle_scrape(Err(FetchError::UpstreamUnreachable));
    assert_eq!(response.status, 502);
    assert_eq!(response.body, "scrape failed: upstream unreachable");
}

#[test]
fn empty_body_is_a_decode_failure_not_a_crash() {
    let mut exporter = WeatherExporter::new("Lighthouse").expect("exporter");
    exporter.handle_scrape(Ok(document("11.8", "97.0", "100.0", "290.0")));
    let before = gauge_values(&exporter);
    let response = exporter.handle_scrape(Ok(String::new()));
    assert_eq!(response.status, 502);
    assert_eq!(response.body, "scrape failed: malformed upstream document");
    assert_eq!(gauge_values(&exporter), before);
}

#[test]
fn decode_failure_leaves_registry_untouched() {
    let mut exporter = WeatherExporter::new("Lighthouse").expect("exporter");
    exporter.handle_scrape(Ok(document("11.8", "97.0", "100.0", "290.0")));
    let before = gauge_values(&exporter);
    let response = exporter.handle_scrape(Ok(document("warm", "97.0", "100.0", "290.0")));
    assert_eq!(response.status, 502);
    assert_eq!(response.body, "scrape failed: non-numeric field temperature");
    assert_eq!(gauge_values(&exporter), before);
}

#[test]
fn classify_status_maps_success_and_failure() {
    assert_eq!(classify_status(200, "ok".to_string()), Ok("ok".to_string()));
    assert_eq!(classify_status(299, "ok".to_string()), Ok("ok".to_string()));
    assert_eq!(
        classify_status(404, "x".to_string()),
        Err(FetchError::UpstreamStatusError(404))
    );
    assert_eq!(
        classify_status(199, "x".to_string()),
        Err(FetchError::UpstreamStatusError(199))
    );
}

#[test]
fn registry_set_and_errors() {
    let mut reg = MetricRegistry::new();
    let labels = vec![("location".to_string(), "here".to_string())];
    let series = Series {
        name: "g".to_string(),
        help: "a gauge".to_string(),
        labels: labels.clone(),
        value: "0".to_string(),
    };
    reg.register(series).expect("register");
    assert_eq!(reg.set("g", &labels, "4.5"), Ok(()));
    assert_eq!(reg.snapshot()[0].value, "4.5");
    assert_eq!(reg.set("other", &labels, "1"), Err(RegistryError::NotRegistered));
    assert_eq!(reg.set("g", &labels, "warm"), Err(RegistryError::BadValue));
    assert_eq!(reg.snapshot()[0].value, "4.5");
    let duplicate = Series {
        name: "g".to_string(),
        help: "again".to_string(),
        labels: labels.clone(),
        value: "0".to_string(),
    };
    assert_eq!(reg.register(duplicate), Err(RegistryError::BadRegistration));
}

#[test]
fn encoder_exact_output() {
    let mut reg = MetricRegistry::new();
    let series = Series {
        name: "g".to_string(),
        help: "a gauge".to_string(),
        labels: vec![("location".to_string(), "here".to_string())],
        value: "1.5".to_string(),
    };
    reg.register(series).expect("register");
    let text = encode_exposition(&reg);
    assert_eq!(
        text,
        "# HELP g a gauge\n# TYPE g gauge\ng{location=\"here\"} 1.5\n"
    );
}

#[test]
fn exporter_rejects_unprintable_location() {
    assert!(WeatherExporter::new("Lighthouse").is_ok());
    assert!(WeatherExporter::new("bad\"quote").is_err());
}

#[test]
fn parse_port_accepts_ports_and_rejects_others() {
    assert_eq!(parse_port("9189".to_string()), Ok(()));
    assert_eq!(parse_port("1".to_string()), Ok(()));
    assert_eq!(parse_port("65535".to_string()), Ok(()));
    assert!(parse_port("65536".to_string()).is_err());
    assert!(parse_port("".to_string()).is_err());
    assert!(parse_port("-1".to_string()).is_err());
    assert!(parse_port("port".to_string()).is_err());
    let err = parse_port("99999999999999999999".to_string()).unwrap_err();
    assert_eq!(err, "listen_port needs to be an integer between 1 - 65535");
}

#[test]
fn upstream_url_interpolates_location() {
    assert_eq!(
        upstream_url("Lighthouse"),
        "http://www.victoriaweather.ca/stations/Lighthouse/current.xml"
    );
}

#[test]
fn render_u16_decimal() {
    assert_eq!(render_u16(0), "0");
    assert_eq!(render_u16(7), "7");
    assert_eq!(render_u16(503), "503");
    assert_eq!(render_u16(65535), "65535");
}

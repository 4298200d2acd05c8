use victoria_weather::observation::{decode_observation, render_observation, CurrentObservation,
    DecodeError};
use victoria_weather::text::check_number;

fn sample_observation() -> CurrentObservation {
    CurrentObservation {
        station_long_name: "Lighthouse Christian Academy".to_string(),
        station_name: "Lighthouse".to_string(),
        station_id: "119".to_string(),
        observation_time: "2017-03-04 12:00:00".to_string(),
        timezone: "PST".to_string(),
        temperature: "11.8".to_string(),
        temperature_low: "5.2".to_string(),
        temperature_high: "12.9".to_string(),
        temperature_units: "C".to_string(),
        humidity: "97.0".to_string(),
        humidity_units: "%".to_string(),
        insolation: "100.0".to_string(),
        insolation_units: "W/m2".to_string(),
        insolation_predicted: "290.0".to_string(),
        insolation_predicted_units: "W/m2".to_string(),
    }
}

fn assert_same(a: &CurrentObservation, b: &CurrentObservation) {
    assert_eq!(a.station_long_name, b.station_long_name);
    assert_eq!(a.station_name, b.station_name);
    assert_eq!(a.station_id, b.station_id);
    assert_eq!(a.observation_time, b.observation_time);
    assert_eq!(a.timezone, b.timezone);
    assert_eq!(a.temperature, b.temperature);
    assert_eq!(a.temperature_low, b.temperature_low);
    assert_eq!(a.temperature_high, b.temperature_high);
    assert_eq!(a.temperature_units, b.temperature_units);
    assert_eq!(a.humidity, b.humidity);
    assert_eq!(a.humidity_units, b.humidity_units);
    assert_eq!(a.insolation, b.insolation);
    assert_eq!(a.insolation_units, b.insolation_units);
    assert_eq!(a.insolation_predicted, b.insolation_predicted);
    assert_eq!(a.insolation_predicted_units, b.insolation_predicted_units);
}

#[test]
fn round_trip_preserves_every_field() {
    let obs = sample_observation();
    let doc = render_observation(&obs);
    let back = decode_observation(&doc).expect("round trip decode");
    assert_same(&obs, &back);
}

#[test]
fn decode_accepts_prolog_whitespace_and_unknown_fields() {
    let doc = "\n<?xml version=\"1.0\"?>\n<current_observation>\
        <credit>Victoria Weather</credit>\
        <station_long_name>L</station_long_name>\
        <station_name>Lighthouse</station_name>\
        <station_id>119</station_id>\
        <observation_time>noon</observation_time>\
        <timezone>PST</timezone>\
        <temperature>11.8</temperature>\
        <temperature_low>5</temperature_low>\
        <temperature_high>12</temperature_high>\
        <temperature_units>C</temperature_units>\
        <humidity>97.0</humidity>\
        <humidity_units>%</humidity_units>\
        <insolation>100.0</insolation>\
        <insolation_units>W/m2</insolation_units>\
        <insolation_predicted>290.0</insolation_predicted>\
        <insolation_predicted_units>W/m2</insolation_predicted_units>\
        <extra_reading>42</extra_reading>\
        </current_observation>\n";
    let obs = decode_observation(doc).expect("decode");
    assert_eq!(obs.temperature, "11.8");
    assert_eq!(obs.station_name, "Lighthouse");
    assert_eq!(obs.insolation_predicted, "290.0");
}

#[test]
fn missing_required_field_fails() {
    let obs = sample_observation();
    let doc = render_observation(&obs).replace("<humidity>97.0</humidity>", "");
    let err = decode_observation(&doc).unwrap_err();
    assert_eq!(err, DecodeError::MissingField("humidity".to_string()));
}

#[test]
fn non_numeric_text_in_numeric_field_fails() {
    let obs = sample_observation();
    let doc = render_observation(&obs).replace(
        "<temperature>11.8</temperature>",
        "<temperature>warm</temperature>",
    );
    let err = decode_observation(&doc).unwrap_err();
    assert_eq!(err, DecodeError::NotNumeric("temperature".to_string()));
}

#[test]
fn empty_document_is_malformed() {
    assert_eq!(decode_observation("").unwrap_err(), DecodeError::Malformed);
}

#[test]
fn nested_elements_are_malformed() {
    let doc = "<current_observation><a><b>1</b></a></current_observation>";
    assert_eq!(decode_observation(doc).unwrap_err(), DecodeError::Malformed);
}

#[test]
fn mismatched_close_tag_is_malformed() {
    let doc = "<current_observation><temperature>1</humidity></current_observation>";
    assert_eq!(decode_observation(doc).unwrap_err(), DecodeError::Malformed);
}

#[test]
fn self_closing_leaf_is_empty_text() {
    let obs = sample_observation();
    let doc = render_observation(&obs).replace(
        "<timezone>PST</timezone>",
        "<timezone/>",
    );
    let back = decode_observation(&doc).expect("decode");
    assert_eq!(back.timezone, "");
}

#[test]
fn number_syntax() {
    assert!(check_number("11.8"));
    assert!(check_number("-3"));
    assert!(check_number("+5.5"));
    assert!(check_number("0"));
    assert!(check_number(".5"));
    assert!(check_number("5."));
    assert!(!check_number(""));
    assert!(!check_number("."));
    assert!(!check_number("-"));
    assert!(!check_number("1.2.3"));
    assert!(!check_number("warm"));
    assert!(!check_number("1 2"));
}

use surfrs::data::tidal_data_record::{TidalDataRecord, TidalEvent, TidalFieldError};

/// Reads a prediction as the CO-OPS API writes it, its fields taken from the
/// JSON object.
fn from_json(raw: &str) -> TidalDataRecord {
    let v: serde_json::Value = serde_json::from_str(raw).unwrap();
    let t = v["t"].as_str().unwrap();
    let value = match &v["v"] {
        serde_json::Value::String(s) => s.clone(),
        other => other.to_string(),
    };
    let kind = v.get("type").and_then(|k| k.as_str());
    TidalDataRecord::from_fields(t, &value, kind).unwrap()
}

#[test]
fn deserialize() {
    let default_raw_data = r#"{"t":"2023-01-02 21:06", "v": "0.873"}"#;
    let default_data = from_json(default_raw_data);
    assert_eq!(default_data.date.year, 2023);
    assert_eq!(default_data.date.month, 01);
    assert_eq!(default_data.date.day, 02);
    assert_eq!(default_data.date.hour, 21);
    assert_eq!(default_data.date.minute, 06);
    assert!(default_data.value.parse::<f64>().unwrap() - 0.873 < 0.0000001);
    assert!(default_data.event.is_none());

    let hilo_raw_data = r#"{"t":"2023-01-02 21:36", "v":"0.932", "type":"H"}"#;
    let hilo_data = from_json(hilo_raw_data);
    assert_eq!(hilo_data.date.year, 2023);
    assert_eq!(hilo_data.date.month, 01);
    assert_eq!(hilo_data.date.day, 02);
    assert_eq!(hilo_data.date.hour, 21);
    assert_eq!(hilo_data.date.minute, 36);
    assert!(hilo_data.value.parse::<f64>().unwrap() - 0.932 < 0.0000001);
    assert!(hilo_data.event.is_some());
    assert_eq!(hilo_data.event, Some(TidalEvent::High));
}

#[test]
fn tidal_fields_that_fail() {
    assert!(matches!(TidalDataRecord::from_fields("2023-01-02", "0.1", None), Err(TidalFieldError::Date(_))));
    assert!(matches!(
        TidalDataRecord::from_fields("2023-01-02 21:06", "high", None),
        Err(TidalFieldError::Value(_))
    ));
    assert!(matches!(
        TidalDataRecord::from_fields("2023-01-02 21:06", "0.1", Some("X")),
        Err(TidalFieldError::Event)
    ));
    assert_eq!(
        TidalDataRecord::from_fields("2023-01-02 21:06", "-0.1", Some("L")).unwrap().event,
        Some(TidalEvent::Low)
    );
}

use mqtt2influxdb2::config::{Influxdb, Mqtt, Tags, Topic};
use mqtt2influxdb2::influxdb::{
    build_point, fields_of, to_data_point, Binary64, Field, FieldKey, FieldValue, HandleError,
    SensorReading, Writer,
};

fn text(s: &str) -> String {
    s.to_string()
}

fn double(x: f64) -> Binary64 {
    Binary64 { bits: x.to_bits() }
}

fn float_field(key: FieldKey, x: f64) -> Field {
    Field { key, value: FieldValue::Float(double(x)) }
}

fn integer_field(key: FieldKey, x: i64) -> Field {
    Field { key, value: FieldValue::Integer(x) }
}

/// The binding of the kitchen sensor: topic `sensors/kitchen`, measurement
/// `climate`, tag `room=kitchen`.
fn kitchen() -> Mqtt {
    let mut tags = Tags::new();
    tags.insert(text("room"), text("kitchen"));
    Mqtt {
        host: text("tcp://localhost:1883"),
        client_id: text("bridge"),
        topics: vec![Topic { name: text("sensors/kitchen"), measurement: text("climate"), tags }],
    }
}

/// Decodes a payload the way the bridge does: an object with the numbers
/// `humidity`, `pressure` and `temperature`, and optionally the integers
/// `battery`, `linkquality` and `voltage`.
fn decode(payload: &str) -> Option<SensorReading> {
    let doc: serde_json::Value = serde_json::from_str(payload).ok()?;
    let object = doc.as_object()?;
    let number = |key: &str| object.get(key).and_then(|v| v.as_f64()).map(double);
    let integer = |key: &str| match object.get(key) {
        None => Some(None),
        Some(v) if v.is_null() => Some(None),
        Some(v) => v.as_i64().map(Some),
    };
    Some(SensorReading {
        humidity: number("humidity")?,
        pressure: number("pressure")?,
        temperature: number("temperature")?,
        battery: integer("battery")?,
        linkquality: integer("linkquality")?,
        voltage: integer("voltage")?,
    })
}

#[test]
fn a_reading_with_the_required_values_gives_three_fields() {
    let payload = r#"{"humidity":55.2,"pressure":1013.1,"temperature":21.4}"#;
    let point = to_data_point("sensors/kitchen", decode(payload), &kitchen()).unwrap();
    assert_eq!(point.measurement, "climate");
    assert_eq!(
        point.fields,
        vec![
            float_field(FieldKey::Temperature, 21.4),
            float_field(FieldKey::Humidity, 55.2),
            float_field(FieldKey::Pressure, 1013.1),
        ]
    );
    assert_eq!(point.tags.len(), 1);
    assert_eq!(point.tags.get("room"), Some(&text("kitchen")));
    assert_eq!(point.tags.entries(), &vec![(text("room"), text("kitchen"))]);
}

#[test]
fn a_reading_with_battery_gives_four_fields() {
    let payload = r#"{"humidity":55.2,"pressure":1013.1,"temperature":21.4,"battery":87}"#;
    let point = to_data_point("sensors/kitchen", decode(payload), &kitchen()).unwrap();
    assert_eq!(point.fields.len(), 4);
    assert_eq!(
        point.fields,
        vec![
            float_field(FieldKey::Temperature, 21.4),
            float_field(FieldKey::Humidity, 55.2),
            float_field(FieldKey::Pressure, 1013.1),
            integer_field(FieldKey::Battery, 87),
        ]
    );
    assert_eq!(point.tags.entries(), &vec![(text("room"), text("kitchen"))]);
}

#[test]
fn every_optional_value_that_is_present_becomes_a_field() {
    let reading = SensorReading {
        humidity: double(40.0),
        pressure: double(990.5),
        temperature: double(-3.25),
        battery: Some(100),
        linkquality: Some(0),
        voltage: Some(-1),
    };
    assert_eq!(
        fields_of(&reading),
        vec![
            float_field(FieldKey::Temperature, -3.25),
            float_field(FieldKey::Humidity, 40.0),
            float_field(FieldKey::Pressure, 990.5),
            integer_field(FieldKey::Battery, 100),
            integer_field(FieldKey::LinkQuality, 0),
            integer_field(FieldKey::Voltage, -1),
        ]
    );
}

#[test]
fn absent_optional_values_leave_no_field() {
    let reading = SensorReading {
        humidity: double(40.0),
        pressure: double(990.5),
        temperature: double(20.0),
        battery: None,
        linkquality: Some(12),
        voltage: None,
    };
    assert_eq!(
        fields_of(&reading),
        vec![
            float_field(FieldKey::Temperature, 20.0),
            float_field(FieldKey::Humidity, 40.0),
            float_field(FieldKey::Pressure, 990.5),
            integer_field(FieldKey::LinkQuality, 12),
        ]
    );
    let reading = SensorReading { linkquality: None, voltage: Some(3000), ..reading };
    assert_eq!(
        fields_of(&reading),
        vec![
            float_field(FieldKey::Temperature, 20.0),
            float_field(FieldKey::Humidity, 40.0),
            float_field(FieldKey::Pressure, 990.5),
            integer_field(FieldKey::Voltage, 3000),
        ]
    );
}

#[test]
fn numbers_are_passed_on_bit_for_bit() {
    let reading = SensorReading {
        humidity: Binary64 { bits: 0x7ff8_0000_0000_0001 },
        pressure: Binary64 { bits: 0x8000_0000_0000_0000 },
        temperature: Binary64 { bits: u64::MAX },
        battery: Some(i64::MIN),
        linkquality: Some(i64::MAX),
        voltage: None,
    };
    let fields = fields_of(&reading);
    assert_eq!(fields[0].value, FieldValue::Float(Binary64 { bits: u64::MAX }));
    assert_eq!(fields[1].value, FieldValue::Float(Binary64 { bits: 0x7ff8_0000_0000_0001 }));
    assert_eq!(fields[2].value, FieldValue::Float(Binary64 { bits: 0x8000_0000_0000_0000 }));
    assert_eq!(fields[3].value, FieldValue::Integer(i64::MIN));
    assert_eq!(fields[4].value, FieldValue::Integer(i64::MAX));
}

#[test]
fn fields_are_written_under_their_names() {
    assert_eq!(FieldKey::Temperature.name(), "temperature");
    assert_eq!(FieldKey::Humidity.name(), "humidity");
    assert_eq!(FieldKey::Pressure.name(), "pressure");
    assert_eq!(FieldKey::Battery.name(), "battery");
    assert_eq!(FieldKey::LinkQuality.name(), "linkquality");
    assert_eq!(FieldKey::Voltage.name(), "voltage");
}

#[test]
fn a_message_on_an_unknown_topic_gives_no_point() {
    let payload = r#"{"humidity":55.2,"pressure":1013.1,"temperature":21.4}"#;
    let outcome = to_data_point("sensors/garage", decode(payload), &kitchen());
    assert_eq!(outcome.unwrap_err(), HandleError::UnknownTopic);
}

#[test]
fn a_payload_that_does_not_decode_gives_no_point() {
    for payload in [
        "",
        "not json",
        r#"{"humidity":55.2,"pressure":1013.1}"#,
        r#"{"humidity":"wet","pressure":1013.1,"temperature":21.4}"#,
        r#"{"humidity":55.2,"pressure":1013.1,"temperature":21.4,"battery":8.7}"#,
    ] {
        assert_eq!(decode(payload), None, "{:?}", payload);
        let outcome = to_data_point("sensors/kitchen", decode(payload), &kitchen());
        assert_eq!(outcome.unwrap_err(), HandleError::Undecodable, "{:?}", payload);
    }
}

#[test]
fn an_unknown_topic_is_reported_before_a_bad_payload() {
    let outcome = to_data_point("sensors/garage", None, &kitchen());
    assert_eq!(outcome.unwrap_err(), HandleError::UnknownTopic);
}

#[test]
fn a_dropped_message_does_not_affect_the_next_one() {
    let config = kitchen();
    let good = r#"{"humidity":55.2,"pressure":1013.1,"temperature":21.4,"battery":87}"#;
    let before = to_data_point("sensors/kitchen", decode(good), &config).unwrap();
    assert!(to_data_point("sensors/garage", decode(good), &config).is_err());
    assert!(to_data_point("sensors/kitchen", decode("{"), &config).is_err());
    let after = to_data_point("sensors/kitchen", decode(good), &config).unwrap();
    assert_eq!(after.measurement, before.measurement);
    assert_eq!(after.fields, before.fields);
    assert_eq!(after.tags.entries(), before.tags.entries());
}

#[test]
fn a_point_carries_all_tags_of_its_binding() {
    let mut tags = Tags::new();
    tags.insert(text("room"), text("attic"));
    tags.insert(text("floor"), text("2"));
    tags.insert(text("site"), text("home"));
    let binding = Topic { name: text("sensors/attic"), measurement: text("climate"), tags };
    let reading = SensorReading {
        humidity: double(30.0),
        pressure: double(1000.0),
        temperature: double(25.0),
        battery: None,
        linkquality: None,
        voltage: None,
    };
    let point = build_point(&binding, &reading);
    assert_eq!(point.measurement, "climate");
    assert_eq!(point.tags.entries(), binding.tags.entries());
    assert_eq!(point.tags.len(), 3);
    assert_eq!(point.fields.len(), 3);
}

#[test]
fn a_binding_without_tags_gives_a_point_without_tags() {
    let binding =
        Topic { name: text("sensors/attic"), measurement: text("climate"), tags: Tags::new() };
    let reading = decode(r#"{"humidity":1,"pressure":2,"temperature":3}"#).unwrap();
    let point = build_point(&binding, &reading);
    assert_eq!(point.tags.len(), 0);
    assert_eq!(
        point.fields,
        vec![
            float_field(FieldKey::Temperature, 3.0),
            float_field(FieldKey::Humidity, 1.0),
            float_field(FieldKey::Pressure, 2.0),
        ]
    );
}

#[test]
fn a_message_is_resolved_to_the_first_binding_of_its_topic() {
    let mut config = kitchen();
    config.topics.push(Topic {
        name: text("sensors/kitchen"),
        measurement: text("shadow"),
        tags: Tags::new(),
    });
    config.topics.push(Topic {
        name: text("sensors/attic"),
        measurement: text("heat"),
        tags: Tags::new(),
    });
    let reading = decode(r#"{"humidity":1,"pressure":2,"temperature":3}"#);
    let point = to_data_point("sensors/kitchen", reading, &config).unwrap();
    assert_eq!(point.measurement, "climate");
    assert_eq!(point.tags.len(), 1);
    let point = to_data_point("sensors/attic", reading, &config).unwrap();
    assert_eq!(point.measurement, "heat");
    assert_eq!(point.tags.len(), 0);
}

fn writer() -> Writer {
    Writer::new(Influxdb {
        host: text("http://localhost:8086"),
        org: text("home"),
        token: text("secret"),
        bucket: text("sensors"),
    })
}

#[test]
fn the_handler_keeps_its_configuration() {
    let writer = writer();
    assert_eq!(writer.config().host, "http://localhost:8086");
    assert_eq!(writer.config().org, "home");
    assert_eq!(writer.config().token, "secret");
    assert_eq!(writer.config().bucket, "sensors");
}

#[test]
fn the_handler_writes_to_the_configured_bucket() {
    let payload = r#"{"humidity":55.2,"pressure":1013.1,"temperature":21.4,"voltage":2900}"#;
    let request = writer().handle("sensors/kitchen", decode(payload), &kitchen()).unwrap();
    assert_eq!(request.bucket, "sensors");
    assert_eq!(request.point.measurement, "climate");
    assert_eq!(
        request.point.fields,
        vec![
            float_field(FieldKey::Temperature, 21.4),
            float_field(FieldKey::Humidity, 55.2),
            float_field(FieldKey::Pressure, 1013.1),
            integer_field(FieldKey::Voltage, 2900),
        ]
    );
    assert_eq!(request.point.tags.entries(), &vec![(text("room"), text("kitchen"))]);
}

#[test]
fn the_handler_reports_why_it_writes_nothing() {
    let payload = r#"{"humidity":55.2,"pressure":1013.1,"temperature":21.4}"#;
    let writer = writer();
    assert_eq!(
        writer.handle("sensors/garage", decode(payload), &kitchen()).unwrap_err(),
        HandleError::UnknownTopic
    );
    assert_eq!(
        writer.handle("sensors/kitchen", None, &kitchen()).unwrap_err(),
        HandleError::Undecodable
    );
}

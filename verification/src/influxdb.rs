//! The message handler: from one inbound message to one data point.
//!
//! A message is resolved against the topic bindings, and its decoded reading
//! becomes a point of the bound measurement: the three required values, each
//! optional value that is present, and the tags of the binding. A message on a
//! topic that no binding names, or with a payload that did not decode, yields
//! an error and no point; nothing of it is kept.

use vstd::prelude::*;
use crate::config::{Influxdb, InfluxdbView, Mqtt, MqttView, Tags, Topic, TopicView};

verus! {

/// A double-precision number, held as the 64 bits of its IEEE 754 binary64
/// encoding. Such numbers are passed on as they are and never computed with.
#[derive(Debug, Clone, Copy, PartialEq, Eq, Structural)]
pub struct Binary64 {
    pub bits: u64,
}

/// The decoded payload of a message from a climate sensor.
#[derive(Debug, Clone, Copy, PartialEq, Eq, Structural)]
pub struct SensorReading {
    pub humidity: Binary64,
    pub pressure: Binary64,
    pub temperature: Binary64,
    pub battery: Option<i64>,
    pub linkquality: Option<i64>,
    pub voltage: Option<i64>,
}

/// The fields a point can have.
#[derive(Debug, Clone, Copy, PartialEq, Eq, Structural)]
pub enum FieldKey {
    Temperature,
    Humidity,
    Pressure,
    Battery,
    LinkQuality,
    Voltage,
}

/// The value of a field.
#[derive(Debug, Clone, Copy, PartialEq, Eq, Structural)]
pub enum FieldValue {
    Float(Binary64),
    Integer(i64),
}

/// One field of a point.
#[derive(Debug, Clone, Copy, PartialEq, Eq, Structural)]
pub struct Field {
    pub key: FieldKey,
    pub value: FieldValue,
}

/// Why a message yields no point.
#[derive(Debug, Clone, Copy, PartialEq, Eq, Structural)]
pub enum HandleError {
    /// No binding names the topic of the message.
    UnknownTopic,
    /// The payload did not decode as a sensor reading.
    Undecodable,
}

/// The name under which a field is written.
pub open spec fn field_name(key: FieldKey) -> Seq<char> {
    match key {
        FieldKey::Temperature => "temperature"@,
        FieldKey::Humidity => "humidity"@,
        FieldKey::Pressure => "pressure"@,
        FieldKey::Battery => "battery"@,
        FieldKey::LinkQuality => "linkquality"@,
        FieldKey::Voltage => "voltage"@,
    }
}

impl FieldKey {
    /// The name under which the field is written.
    pub fn name(self) -> (name: &'static str)
        ensures
            name@ == field_name(self),
    {
        match self {
            FieldKey::Temperature => "temperature",
            FieldKey::Humidity => "humidity",
            FieldKey::Pressure => "pressure",
            FieldKey::Battery => "battery",
            FieldKey::LinkQuality => "linkquality",
            FieldKey::Voltage => "voltage",
        }
    }
}

/// Every reading has these.
pub open spec fn is_required(key: FieldKey) -> bool {
    key is Temperature || key is Humidity || key is Pressure
}

/// What a reading says about a field, if anything.
pub open spec fn reading_value(reading: SensorReading, key: FieldKey) -> Option<FieldValue> {
    match key {
        FieldKey::Temperature => Some(FieldValue::Float(reading.temperature)),
        FieldKey::Humidity => Some(FieldValue::Float(reading.humidity)),
        FieldKey::Pressure => Some(FieldValue::Float(reading.pressure)),
        FieldKey::Battery => integer_value(reading.battery),
        FieldKey::LinkQuality => integer_value(reading.linkquality),
        FieldKey::Voltage => integer_value(reading.voltage),
    }
}

/// An optional integer as an optional field value.
pub open spec fn integer_value(value: Option<i64>) -> Option<FieldValue> {
    match value {
        Some(v) => Some(FieldValue::Integer(v)),
        None => None,
    }
}

/// The field for `key`, if the reading has a value for it.
pub open spec fn field_if_present(reading: SensorReading, key: FieldKey) -> Seq<Field> {
    match reading_value(reading, key) {
        Some(value) => seq![Field { key, value }],
        None => Seq::empty(),
    }
}

/// The fields of the point for a reading: temperature, humidity and pressure,
/// then those of battery, link quality and voltage that the reading has.
pub open spec fn reading_fields(reading: SensorReading) -> Seq<Field> {
    field_if_present(reading, FieldKey::Temperature) + field_if_present(
        reading,
        FieldKey::Humidity,
    ) + field_if_present(reading, FieldKey::Pressure) + field_if_present(
        reading,
        FieldKey::Battery,
    ) + field_if_present(reading, FieldKey::LinkQuality) + field_if_present(
        reading,
        FieldKey::Voltage,
    )
}

/// A point: what is written to the database for one message.
#[derive(Debug)]
pub struct DataPoint {
    pub measurement: String,
    pub fields: Vec<Field>,
    pub tags: Tags,
}

/// What a point says.
pub struct DataPointView {
    pub measurement: Seq<char>,
    pub fields: Seq<Field>,
    pub tags: Map<Seq<char>, Seq<char>>,
}

impl View for DataPoint {
    type V = DataPointView;

    open spec fn view(&self) -> DataPointView {
        DataPointView { measurement: self.measurement@, fields: self.fields@, tags: self.tags@ }
    }
}

/// The point for a reading that arrived on the topic of `binding`.
pub open spec fn point_for(binding: TopicView, reading: SensorReading) -> DataPointView {
    DataPointView {
        measurement: binding.measurement,
        fields: reading_fields(reading),
        tags: binding.tags,
    }
}

/// What becomes of a message: the point for its reading under the first
/// binding of its topic, or the reason why there is none. An unknown topic is
/// reported before a payload that did not decode.
pub open spec fn conversion(
    mqtt: MqttView,
    topic: Seq<char>,
    reading: Option<SensorReading>,
) -> Result<DataPointView, HandleError> {
    match mqtt.binding_of(topic) {
        None => Err(HandleError::UnknownTopic),
        Some(binding) => match reading {
            None => Err(HandleError::Undecodable),
            Some(r) => Ok(point_for(binding, r)),
        },
    }
}

/// The view of a conversion's outcome.
pub open spec fn outcome_view(outcome: Result<DataPoint, HandleError>) -> Result<
    DataPointView,
    HandleError,
> {
    match outcome {
        Ok(point) => Ok(point@),
        Err(e) => Err(e),
    }
}

/// A point carries exactly what its reading says: a field for every key the
/// reading has a value for, with that value, and no key twice. The required
/// keys are always among them.
pub proof fn law_fields_are_what_the_reading_says(reading: SensorReading)
    ensures
        forall|key: FieldKey|
            reading_value(reading, key) is Some <==> exists|i: int|
                0 <= i < reading_fields(reading).len() && (#[trigger] reading_fields(
                    reading,
                )[i]).key == key,
        forall|i: int|
            0 <= i < reading_fields(reading).len() ==> reading_value(
                reading,
                (#[trigger] reading_fields(reading)[i]).key,
            ) == Some(reading_fields(reading)[i].value),
        forall|i: int, j: int|
            0 <= i < j < reading_fields(reading).len() ==> reading_fields(reading)[i].key
                != reading_fields(reading)[j].key,
        forall|key: FieldKey| is_required(key) ==> reading_value(reading, key) is Some,
        3 <= reading_fields(reading).len() <= 6,
{
    let fields = reading_fields(reading);
    let required = field_if_present(reading, FieldKey::Temperature) + field_if_present(
        reading,
        FieldKey::Humidity,
    ) + field_if_present(reading, FieldKey::Pressure);
    let battery = field_if_present(reading, FieldKey::Battery);
    let link = field_if_present(reading, FieldKey::LinkQuality);
    let voltage = field_if_present(reading, FieldKey::Voltage);
    assert(required.len() == 3);
    assert(fields == required + battery + link + voltage);
    assert(fields[0].key == FieldKey::Temperature);
    assert(fields[1].key == FieldKey::Humidity);
    assert(fields[2].key == FieldKey::Pressure);
    let b: int = 3;
    let l: int = b + battery.len();
    let v: int = l + link.len();
    if reading.battery is Some {
        assert(fields[b] == battery[0]);
    }
    if reading.linkquality is Some {
        assert(fields[l] == link[0]);
    }
    if reading.voltage is Some {
        assert(fields[v] == voltage[0]);
    }
    assert forall|i: int| 0 <= i < fields.len() implies (i < b ==> is_required(fields[i].key))
        && (b <= i < l ==> fields[i].key == FieldKey::Battery) && (l <= i < v ==> fields[i].key
        == FieldKey::LinkQuality) && (v <= i ==> fields[i].key == FieldKey::Voltage)
        && reading_value(reading, fields[i].key) == Some(fields[i].value) by {
        if b <= i < l {
            assert(fields[i] == battery[i - b]);
        } else if l <= i < v {
            assert(fields[i] == link[i - l]);
        } else if v <= i {
            assert(fields[i] == voltage[i - v]);
        }
    }
    assert forall|key: FieldKey| reading_value(reading, key) is Some implies exists|i: int|
        0 <= i < fields.len() && (#[trigger] fields[i]).key == key by {
        match key {
            FieldKey::Temperature => {
                assert(fields[0].key == key);
            },
            FieldKey::Humidity => {
                assert(fields[1].key == key);
            },
            FieldKey::Pressure => {
                assert(fields[2].key == key);
            },
            FieldKey::Battery => {
                assert(fields[b].key == key);
            },
            FieldKey::LinkQuality => {
                assert(fields[l].key == key);
            },
            FieldKey::Voltage => {
                assert(fields[v].key == key);
            },
        }
    }
}

/// The fields of the point for a reading.
pub fn fields_of(reading: &SensorReading) -> (fields: Vec<Field>)
    ensures
        fields@ == reading_fields(*reading),
{
    let mut fields: Vec<Field> = Vec::new();
    fields.push(Field { key: FieldKey::Temperature, value: FieldValue::Float(reading.temperature) });
    fields.push(Field { key: FieldKey::Humidity, value: FieldValue::Float(reading.humidity) });
    fields.push(Field { key: FieldKey::Pressure, value: FieldValue::Float(reading.pressure) });
    if let Some(v) = reading.battery {
        fields.push(Field { key: FieldKey::Battery, value: FieldValue::Integer(v) });
    }
    if let Some(v) = reading.linkquality {
        fields.push(Field { key: FieldKey::LinkQuality, value: FieldValue::Integer(v) });
    }
    if let Some(v) = reading.voltage {
        fields.push(Field { key: FieldKey::Voltage, value: FieldValue::Integer(v) });
    }
    assert(fields@ =~= reading_fields(*reading));
    fields
}

/// The point for a reading that arrived on the topic of `binding`: of the
/// measurement of the binding, with the fields of the reading and the tags of
/// the binding.
pub fn build_point(binding: &Topic, reading: &SensorReading) -> (point: DataPoint)
    ensures
        point@ == point_for(binding@, *reading),
{
    DataPoint {
        measurement: binding.measurement.clone(),
        fields: fields_of(reading),
        tags: binding.tags.clone(),
    }
}

/// Converts one message. `topic` is the topic the message arrived on, and
/// `reading` its decoded payload, or `None` if the payload did not decode.
///
/// The message is resolved to the first binding whose name is exactly its
/// topic. With no such binding the outcome is `UnknownTopic`; with a binding
/// and no reading it is `Undecodable`; otherwise it is the point for the
/// reading under that binding.
pub fn to_data_point(topic: &str, reading: Option<SensorReading>, config: &Mqtt) -> (outcome:
    Result<DataPoint, HandleError>)
    ensures
        outcome_view(outcome) == conversion(config@, topic@, reading),
{
    match config.find_topic(topic) {
        None => Err(HandleError::UnknownTopic),
        Some(i) => match reading {
            None => Err(HandleError::Undecodable),
            Some(r) => Ok(build_point(&config.topics[i], &r)),
        },
    }
}

/// What the sink is asked to write: one point, into one bucket.
#[derive(Debug)]
pub struct WriteRequest {
    pub bucket: String,
    pub point: DataPoint,
}

/// What a write request says.
pub struct WriteRequestView {
    pub bucket: Seq<char>,
    pub point: DataPointView,
}

impl View for WriteRequest {
    type V = WriteRequestView;

    open spec fn view(&self) -> WriteRequestView {
        WriteRequestView { bucket: self.bucket@, point: self.point@ }
    }
}

/// What a handler for `database` makes of a message: the request to write the
/// message's point into the bucket of `database`, or the reason why there is
/// no point.
pub open spec fn handling(
    database: InfluxdbView,
    mqtt: MqttView,
    topic: Seq<char>,
    reading: Option<SensorReading>,
) -> Result<WriteRequestView, HandleError> {
    match conversion(mqtt, topic, reading) {
        Ok(point) => Ok(WriteRequestView { bucket: database.bucket, point }),
        Err(e) => Err(e),
    }
}

/// The view of a handler's answer.
pub open spec fn request_view(request: Result<WriteRequest, HandleError>) -> Result<
    WriteRequestView,
    HandleError,
> {
    match request {
        Ok(r) => Ok(r@),
        Err(e) => Err(e),
    }
}

/// The message handler for a database section.
#[derive(Debug)]
pub struct Writer {
    config: Influxdb,
}

impl View for Writer {
    type V = InfluxdbView;

    closed spec fn view(&self) -> InfluxdbView {
        self.config@
    }
}

impl Writer {
    /// The handler that writes to the database of `config`.
    pub fn new(config: Influxdb) -> (writer: Writer)
        ensures
            writer@ == config@,
    {
        Writer { config }
    }

    /// The database section this handler was made for.
    pub fn config(&self) -> (config: &Influxdb)
        ensures
            config@ == self@,
    {
        &self.config
    }

    /// Handles one message: converts it as [`to_data_point`] does and, where
    /// that gives a point, asks for it to be written to the configured bucket.
    pub fn handle(&self, topic: &str, reading: Option<SensorReading>, mqtt_config: &Mqtt) -> (request:
        Result<WriteRequest, HandleError>)
        ensures
            request_view(request) == handling(self@, mqtt_config@, topic@, reading),
    {
        match to_data_point(topic, reading, mqtt_config) {
            Ok(point) => Ok(WriteRequest { bucket: self.config.bucket.clone(), point }),
            Err(e) => Err(e),
        }
    }
}

} // verus!

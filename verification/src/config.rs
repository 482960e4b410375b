//! The configuration of the bridge: connection parameters of the database and
//! of the broker, and the topic bindings.
//!
//! A configuration is a plain immutable value. It is never edited in place: a
//! reload supersedes the whole value.

use vstd::prelude::*;
use crate::text::same_text;

verus! {

/// No key occurs twice.
pub open spec fn keys_distinct(pairs: Seq<(Seq<char>, Seq<char>)>) -> bool {
    forall|i: int, j: int| 0 <= i < j < pairs.len() ==> pairs[i].0 != pairs[j].0
}

/// The finite map that a sequence of key-value pairs stands for. A later pair
/// overrides an earlier one with the same key.
pub open spec fn pairs_to_map(pairs: Seq<(Seq<char>, Seq<char>)>) -> Map<Seq<char>, Seq<char>>
    decreases pairs.len(),
{
    if pairs.len() == 0 {
        Map::empty()
    } else {
        pairs_to_map(pairs.drop_last()).insert(pairs.last().0, pairs.last().1)
    }
}

/// A key is bound by the map exactly if some pair carries it.
pub proof fn lemma_map_domain(pairs: Seq<(Seq<char>, Seq<char>)>, key: Seq<char>)
    ensures
        pairs_to_map(pairs).contains_key(key) <==> exists|i: int|
            0 <= i < pairs.len() && (#[trigger] pairs[i]).0 == key,
    decreases pairs.len(),
{
    if pairs.len() > 0 {
        let init = pairs.drop_last();
        lemma_map_domain(init, key);
        if pairs_to_map(pairs).contains_key(key) {
            if pairs.last().0 == key {
                assert(pairs[pairs.len() - 1].0 == key);
            } else {
                let i = choose|i: int| 0 <= i < init.len() && (#[trigger] init[i]).0 == key;
                assert(pairs[i].0 == key);
            }
        }
        if exists|i: int| 0 <= i < pairs.len() && (#[trigger] pairs[i]).0 == key {
            let i = choose|i: int| 0 <= i < pairs.len() && (#[trigger] pairs[i]).0 == key;
            if i < pairs.len() - 1 {
                assert(init[i].0 == key);
            }
        }
    }
}

/// With distinct keys, the map binds the key of each pair to the value of
/// that pair.
pub proof fn lemma_map_value(pairs: Seq<(Seq<char>, Seq<char>)>, i: int)
    requires
        keys_distinct(pairs),
        0 <= i < pairs.len(),
    ensures
        pairs_to_map(pairs).contains_key(pairs[i].0),
        pairs_to_map(pairs)[pairs[i].0] == pairs[i].1,
    decreases pairs.len(),
{
    if i < pairs.len() - 1 {
        let init = pairs.drop_last();
        assert(init[i] == pairs[i]);
        lemma_map_value(init, i);
    }
}

/// With distinct keys, the map has one binding for each pair.
pub proof fn lemma_map_len(pairs: Seq<(Seq<char>, Seq<char>)>)
    requires
        keys_distinct(pairs),
    ensures
        pairs_to_map(pairs).dom().finite(),
        pairs_to_map(pairs).len() == pairs.len(),
    decreases pairs.len(),
{
    if pairs.len() > 0 {
        let init = pairs.drop_last();
        lemma_map_len(init);
        lemma_map_domain(init, pairs.last().0);
        if pairs_to_map(init).contains_key(pairs.last().0) {
            let i = choose|i: int| 0 <= i < init.len() && (#[trigger] init[i]).0 == pairs.last().0;
            assert(pairs[i].0 == pairs[pairs.len() - 1].0);
        }
    }
}

/// Replacing the value of the pair at `i` is an insertion under that pair's
/// key.
pub proof fn lemma_map_update(pairs: Seq<(Seq<char>, Seq<char>)>, i: int, value: Seq<char>)
    requires
        keys_distinct(pairs),
        0 <= i < pairs.len(),
    ensures
        keys_distinct(pairs.update(i, (pairs[i].0, value))),
        pairs_to_map(pairs.update(i, (pairs[i].0, value))) == pairs_to_map(pairs).insert(
            pairs[i].0,
            value,
        ),
    decreases pairs.len(),
{
    let key = pairs[i].0;
    let updated = pairs.update(i, (key, value));
    assert forall|a: int, b: int| 0 <= a < b < updated.len() implies updated[a].0
        != updated[b].0 by {
        assert(updated[a].0 == pairs[a].0);
        assert(updated[b].0 == pairs[b].0);
    }
    let init = pairs.drop_last();
    if i == pairs.len() - 1 {
        assert(updated.drop_last() =~= init);
        assert(pairs_to_map(updated) =~= pairs_to_map(pairs).insert(key, value));
    } else {
        assert(init[i] == pairs[i]);
        lemma_map_update(init, i, value);
        assert(updated.drop_last() =~= init.update(i, (key, value)));
        assert(updated.last() == pairs.last());
        assert(pairs.last().0 != key);
        assert(pairs_to_map(updated) =~= pairs_to_map(pairs).insert(key, value));
    }
}

/// The fixed tags of a topic binding: a finite map from tag key to tag value.
///
/// The order in which the tags were inserted is kept for iteration and has no
/// bearing on the map.
#[derive(Debug)]
pub struct Tags {
    entries: Vec<(String, String)>,
}

impl View for Tags {
    type V = Map<Seq<char>, Seq<char>>;

    open spec fn view(&self) -> Map<Seq<char>, Seq<char>> {
        pairs_to_map(self.pairs())
    }
}

impl Tags {
    /// The tags as key-value pairs, in the order of their first insertion.
    pub closed spec fn pairs(&self) -> Seq<(Seq<char>, Seq<char>)> {
        self.entries.deep_view()
    }

    #[verifier::type_invariant]
    spec fn well_formed(&self) -> bool {
        keys_distinct(self.pairs())
    }

    /// The empty tag set.
    pub fn new() -> (tags: Tags)
        ensures
            tags@ == Map::<Seq<char>, Seq<char>>::empty(),
            tags.pairs() == Seq::<(Seq<char>, Seq<char>)>::empty(),
    {
        let tags = Tags { entries: Vec::new() };
        assert(tags.pairs() =~= Seq::<(Seq<char>, Seq<char>)>::empty());
        tags
    }

    /// The position of the pair with the given key, if there is one.
    fn position(&self, key: &str) -> (found: Option<usize>)
        ensures
            match found {
                Some(i) => i < self.pairs().len() && self.pairs()[i as int].0 == key@,
                None => forall|j: int| 0 <= j < self.pairs().len() ==> self.pairs()[j].0 != key@,
            },
    {
        let mut i: usize = 0;
        while i < self.entries.len()
            invariant
                i <= self.entries.len(),
                self.pairs().len() == self.entries.len(),
                forall|j: int| 0 <= j < i ==> self.pairs()[j].0 != key@,
            decreases self.entries.len() - i,
        {
            if same_text(self.entries[i].0.as_str(), key) {
                return Some(i);
            }
            i = i + 1;
        }
        None
    }

    /// Binds `key` to `value`, replacing the value of a key that is already
    /// present.
    pub fn insert(&mut self, key: String, value: String)
        ensures
            final(self)@ == old(self)@.insert(key@, value@),
            !old(self)@.contains_key(key@) ==> final(self).pairs() == old(self).pairs().push(
                (key@, value@),
            ),
            old(self)@.contains_key(key@) ==> exists|i: int|
                0 <= i < old(self).pairs().len() && (#[trigger] old(self).pairs()[i]).0 == key@
                    && final(self).pairs() == old(self).pairs().update(i, (key@, value@)),
    {
        proof {
            use_type_invariant(&*self);
        }
        let ghost before = self.pairs();
        proof {
            lemma_map_domain(before, key@);
        }
        let found = self.position(key.as_str());
        let mut entries: Vec<(String, String)> = Vec::new();
        core::mem::swap(&mut entries, &mut self.entries);
        match found {
            Some(i) => {
                entries.set(i, (key, value));
                proof {
                    assert(entries.deep_view() =~= before.update(
                        i as int,
                        (before[i as int].0, value@),
                    ));
                    lemma_map_update(before, i as int, value@);
                }
            },
            None => {
                entries.push((key, value));
                proof {
                    assert(entries.deep_view() =~= before.push((key@, value@)));
                    assert(entries.deep_view().drop_last() =~= before);
                }
            },
        }
        self.entries = entries;
    }

    /// The value bound to `key`, if any.
    pub fn get(&self, key: &str) -> (value: Option<&String>)
        ensures
            match value {
                Some(v) => self@.contains_key(key@) && v@ == self@[key@],
                None => !self@.contains_key(key@),
            },
    {
        proof {
            use_type_invariant(self);
            lemma_map_domain(self.pairs(), key@);
        }
        match self.position(key) {
            Some(i) => {
                proof {
                    lemma_map_value(self.pairs(), i as int);
                }
                Some(&self.entries[i].1)
            },
            None => None,
        }
    }

    /// The number of tags.
    pub fn len(&self) -> (n: usize)
        ensures
            n == self@.len(),
            n == self.pairs().len(),
    {
        proof {
            use_type_invariant(self);
            lemma_map_len(self.pairs());
        }
        self.entries.len()
    }

    /// The tags as key-value pairs, each key once, in the order of first
    /// insertion.
    pub fn entries(&self) -> (entries: &Vec<(String, String)>)
        ensures
            entries.deep_view() == self.pairs(),
            keys_distinct(self.pairs()),
    {
        proof {
            use_type_invariant(self);
        }
        &self.entries
    }
}

impl Clone for Tags {
    fn clone(&self) -> (copy: Tags)
        ensures
            copy@ == self@,
            copy.pairs() == self.pairs(),
    {
        proof {
            use_type_invariant(self);
        }
        let mut entries: Vec<(String, String)> = Vec::new();
        let mut i: usize = 0;
        while i < self.entries.len()
            invariant
                i <= self.entries.len(),
                entries.len() == i,
                forall|j: int| 0 <= j < i ==> entries.deep_view()[j] == self.pairs()[j],
            decreases self.entries.len() - i,
        {
            let key = self.entries[i].0.clone();
            let value = self.entries[i].1.clone();
            entries.push((key, value));
            i = i + 1;
        }
        assert(entries.deep_view() =~= self.pairs());
        Tags { entries }
    }
}

/// One topic binding: messages on topic `name` become points of
/// `measurement`, each carrying `tags`.
#[derive(Debug)]
pub struct Topic {
    pub name: String,
    pub measurement: String,
    pub tags: Tags,
}

/// What a topic binding says.
pub struct TopicView {
    pub name: Seq<char>,
    pub measurement: Seq<char>,
    pub tags: Map<Seq<char>, Seq<char>>,
}

impl View for Topic {
    type V = TopicView;

    open spec fn view(&self) -> TopicView {
        TopicView { name: self.name@, measurement: self.measurement@, tags: self.tags@ }
    }
}

impl Clone for Topic {
    fn clone(&self) -> (copy: Topic)
        ensures
            copy@ == self@,
            copy.tags.pairs() == self.tags.pairs(),
    {
        Topic {
            name: self.name.clone(),
            measurement: self.measurement.clone(),
            tags: self.tags.clone(),
        }
    }
}

/// Connection parameters of the time-series database.
#[derive(Debug)]
pub struct Influxdb {
    pub host: String,
    pub org: String,
    pub token: String,
    pub bucket: String,
}

/// What the database section says.
pub struct InfluxdbView {
    pub host: Seq<char>,
    pub org: Seq<char>,
    pub token: Seq<char>,
    pub bucket: Seq<char>,
}

impl View for Influxdb {
    type V = InfluxdbView;

    open spec fn view(&self) -> InfluxdbView {
        InfluxdbView { host: self.host@, org: self.org@, token: self.token@, bucket: self.bucket@ }
    }
}

impl Clone for Influxdb {
    fn clone(&self) -> (copy: Influxdb)
        ensures
            copy@ == self@,
    {
        Influxdb {
            host: self.host.clone(),
            org: self.org.clone(),
            token: self.token.clone(),
            bucket: self.bucket.clone(),
        }
    }
}

/// Connection parameters of the broker, and the topic bindings.
#[derive(Debug)]
pub struct Mqtt {
    pub host: String,
    pub client_id: String,
    pub topics: Vec<Topic>,
}

/// What the broker section says.
pub struct MqttView {
    pub host: Seq<char>,
    pub client_id: Seq<char>,
    pub topics: Seq<TopicView>,
}

impl View for Mqtt {
    type V = MqttView;

    open spec fn view(&self) -> MqttView {
        MqttView {
            host: self.host@,
            client_id: self.client_id@,
            topics: Seq::new(self.topics@.len(), |i: int| self.topics@[i]@),
        }
    }
}

impl MqttView {
    /// The position of the first binding of `topic`, if it has one.
    pub open spec fn position_of(self, topic: Seq<char>) -> Option<int> {
        if exists|i: int| self.binds_at(topic, i) {
            Some(choose|i: int| self.binds_at(topic, i))
        } else {
            None
        }
    }

    /// The binding at `i` is the first one of `topic`.
    pub open spec fn binds_at(self, topic: Seq<char>, i: int) -> bool {
        &&& 0 <= i < self.topics.len()
        &&& self.topics[i].name == topic
        &&& forall|j: int| 0 <= j < i ==> self.topics[j].name != topic
    }

    /// Some binding has `topic` as its name.
    pub open spec fn binds(self, topic: Seq<char>) -> bool {
        exists|i: int| 0 <= i < self.topics.len() && (#[trigger] self.topics[i]).name == topic
    }

    /// The first binding of `topic`, if it has one.
    pub open spec fn binding_of(self, topic: Seq<char>) -> Option<TopicView> {
        match self.position_of(topic) {
            Some(i) => Some(self.topics[i]),
            None => None,
        }
    }

    /// The names of the bound topics, in the order of the bindings.
    pub open spec fn topic_names(self) -> Seq<Seq<char>> {
        Seq::new(self.topics.len(), |i: int| self.topics[i].name)
    }
}

/// There is at most one first binding of a topic.
pub proof fn lemma_first_binding_unique(mqtt: MqttView, topic: Seq<char>, i: int, j: int)
    requires
        mqtt.binds_at(topic, i),
        mqtt.binds_at(topic, j),
    ensures
        i == j,
{
}

/// A topic has a first binding exactly if it has a binding.
pub proof fn lemma_binds_first(mqtt: MqttView, topic: Seq<char>)
    ensures
        mqtt.binds(topic) <==> mqtt.position_of(topic) is Some,
        mqtt.position_of(topic) matches Some(i) ==> mqtt.binds_at(topic, i),
{
    if mqtt.binds(topic) {
        let k = choose|k: int| 0 <= k < mqtt.topics.len() && (#[trigger] mqtt.topics[k]).name == topic;
        lemma_least_binding(mqtt, topic, k);
    }
    if mqtt.position_of(topic) is Some {
        let i = mqtt.position_of(topic)->0;
        assert(mqtt.binds_at(topic, i));
        assert(mqtt.topics[i].name == topic);
    }
}

/// Below a binding of `topic` there is a first one.
proof fn lemma_least_binding(mqtt: MqttView, topic: Seq<char>, k: int)
    requires
        0 <= k < mqtt.topics.len(),
        mqtt.topics[k].name == topic,
    ensures
        exists|i: int| mqtt.binds_at(topic, i),
    decreases k,
{
    if exists|j: int| 0 <= j < k && (#[trigger] mqtt.topics[j]).name == topic {
        let j = choose|j: int| 0 <= j < k && (#[trigger] mqtt.topics[j]).name == topic;
        lemma_least_binding(mqtt, topic, j);
    } else {
        assert(mqtt.binds_at(topic, k));
    }
}

impl Mqtt {
    /// Resolves a topic name: the position of the first binding whose name is
    /// exactly `topic`, or `None` if no binding has that name.
    pub fn find_topic(&self, topic: &str) -> (found: Option<usize>)
        ensures
            found is Some <==> self@.binds(topic@),
            match found {
                Some(i) => self@.position_of(topic@) == Some(i as int) && i < self.topics.len(),
                None => self@.position_of(topic@) is None,
            },
    {
        let mut i: usize = 0;
        while i < self.topics.len()
            invariant
                i <= self.topics.len(),
                forall|j: int| 0 <= j < i ==> self@.topics[j].name != topic@,
            decreases self.topics.len() - i,
        {
            if same_text(self.topics[i].name.as_str(), topic) {
                proof {
                    assert(self@.binds_at(topic@, i as int));
                    let c = choose|c: int| self@.binds_at(topic@, c);
                    lemma_first_binding_unique(self@, topic@, i as int, c);
                    lemma_binds_first(self@, topic@);
                }
                return Some(i);
            }
            i = i + 1;
        }
        proof {
            lemma_binds_first(self@, topic@);
        }
        None
    }
}

impl Clone for Mqtt {
    fn clone(&self) -> (copy: Mqtt)
        ensures
            copy@ == self@,
    {
        let mut topics: Vec<Topic> = Vec::new();
        let mut i: usize = 0;
        while i < self.topics.len()
            invariant
                i <= self.topics.len(),
                topics.len() == i,
                forall|j: int| 0 <= j < i ==> topics@[j]@ == self.topics@[j]@,
            decreases self.topics.len() - i,
        {
            topics.push(self.topics[i].clone());
            i = i + 1;
        }
        let copy = Mqtt { host: self.host.clone(), client_id: self.client_id.clone(), topics };
        assert(copy@.topics =~= self@.topics);
        copy
    }
}

/// The name of the environment variable that holds the path of the
/// configuration file.
pub fn config_file_variable() -> (name: &'static str)
    ensures
        name@ == "MQTT2INFLUXDB2_CONFIG_FILE"@,
{
    "MQTT2INFLUXDB2_CONFIG_FILE"
}

/// The whole configuration.
#[derive(Debug)]
pub struct Config {
    pub influxdb2: Influxdb,
    pub mqtt: Mqtt,
}

/// What a configuration says.
pub struct ConfigView {
    pub influxdb2: InfluxdbView,
    pub mqtt: MqttView,
}

impl View for Config {
    type V = ConfigView;

    open spec fn view(&self) -> ConfigView {
        ConfigView { influxdb2: self.influxdb2@, mqtt: self.mqtt@ }
    }
}

impl Clone for Config {
    fn clone(&self) -> (copy: Config)
        ensures
            copy@ == self@,
    {
        Config { influxdb2: self.influxdb2.clone(), mqtt: self.mqtt.clone() }
    }
}

} // verus!

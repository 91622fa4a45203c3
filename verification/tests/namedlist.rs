use shipcat::builder::Build;
use shipcat::error::Error;
use shipcat::keyed::StringMap;
use shipcat::merge::Merge;
use shipcat::namedlist::NamedList::{ListBacked, MapBacked};
use shipcat::namedlist::{EnabledWrapper, NameParams, NameWrapper, NamedList};
use std::collections::BTreeMap;

#[derive(Clone, Debug, PartialEq)]
pub struct ExampleSource {
    value: Option<u32>,
}

impl ExampleSource {
    fn new(value: u32) -> Self {
        ExampleSource { value: Some(value) }
    }
}

impl Merge for ExampleSource {
    fn is_merge(self, other: Self, r: Self) -> bool {
        r.value == other.value.or(self.value)
    }

    fn merge(self, other: Self) -> Self {
        ExampleSource { value: self.value.merge(other.value) }
    }
}

impl Build<String, NameParams<String>> for ExampleSource {
    fn builds(self, params: &NameParams<String>, r: Result<String, Error>) -> bool {
        r == self.build(params)
    }

    fn build(self, params: &NameParams<String>) -> Result<String, Error> {
        Ok(if let Some(v) = self.value {
            format!("{}{}{}", params.name, params.params, v)
        } else {
            params.name.to_string()
        })
    }
}

/// A source that refuses to build under one name.
#[derive(Clone, Debug, PartialEq)]
pub struct Picky {
    refuse: bool,
}

impl Build<String, NameParams<String>> for Picky {
    fn builds(self, params: &NameParams<String>, r: Result<String, Error>) -> bool {
        r == self.build(params)
    }

    fn build(self, params: &NameParams<String>) -> Result<String, Error> {
        if self.refuse {
            Err(Error::AuthConflict)
        } else {
            Ok(params.name.clone())
        }
    }
}

#[derive(Debug, PartialEq)]
enum Shape {
    Keyed(BTreeMap<String, (Option<bool>, ExampleSource)>),
    Listed(Vec<(String, ExampleSource)>),
}

fn shape(list: NamedList<ExampleSource>) -> Shape {
    match list {
        MapBacked(m) => Shape::Keyed(
            m.into_entries().into_iter().map(|e| (e.key, (e.value.enabled, e.value.item))).collect(),
        ),
        ListBacked(xs) => Shape::Listed(xs.into_iter().map(|w| (w.name, w.item)).collect()),
    }
}

fn map_of(entries: Vec<(&str, Option<bool>, ExampleSource)>) -> StringMap<EnabledWrapper<ExampleSource>> {
    let mut m = StringMap::new();
    for (name, enabled, item) in entries {
        m.insert(name.to_string(), EnabledWrapper { enabled, item });
    }
    m
}

#[test]
fn merge() {
    let x_list = ListBacked(vec![
        NameWrapper { name: "foo".into(), item: ExampleSource::new(0) },
        NameWrapper { name: "bar".into(), item: ExampleSource { value: None } },
    ]);
    assert_eq!(
        shape(MapBacked(x_list.clone().into_enabled())),
        shape(MapBacked(map_of(vec![
            ("foo", Some(true), ExampleSource::new(0)),
            ("bar", Some(true), ExampleSource { value: None }),
        ])))
    );
    let x_map = MapBacked(map_of(vec![
        ("foo", None, ExampleSource::new(0)),
        ("bar", Some(true), ExampleSource { value: None }),
        ("blort", Some(false), ExampleSource::new(2)),
    ]));

    // Merging from a list always returns the list
    let empty_list = ListBacked(Vec::new());
    assert_eq!(shape(x_list.clone().merge(empty_list.clone())), shape(empty_list.clone()));
    assert_eq!(shape(x_map.clone().merge(empty_list.clone())), shape(empty_list.clone()));
    let y_list = ListBacked(vec![NameWrapper { name: "blort".into(), item: ExampleSource::new(0) }]);
    assert_eq!(shape(x_list.clone().merge(y_list.clone())), shape(y_list.clone()));
    assert_eq!(shape(x_map.clone().merge(y_list.clone())), shape(y_list.clone()));

    // Merging map-backed merges entries
    let empty_map = MapBacked(StringMap::new());
    assert_eq!(
        shape(x_list.clone().merge(empty_map.clone())),
        shape(MapBacked(x_list.clone().into_enabled()))
    );
    assert_eq!(shape(x_map.clone().merge(empty_map.clone())), shape(x_map.clone()));

    let y_map = MapBacked(map_of(vec![
        ("foo", Some(false), ExampleSource { value: None }),
        ("bar", None, ExampleSource::new(1000)),
        ("foobar", None, ExampleSource::new(1001)),
    ]));
    assert_eq!(
        shape(x_list.clone().merge(y_map.clone())),
        shape(MapBacked(map_of(vec![
            ("foo", Some(false), ExampleSource::new(0)),
            ("bar", Some(true), ExampleSource::new(1000)),
            ("foobar", None, ExampleSource::new(1001)),
        ])))
    );
    assert_eq!(
        shape(x_map.clone().merge(y_map.clone())),
        shape(MapBacked(map_of(vec![
            ("foo", Some(false), ExampleSource::new(0)),
            ("bar", Some(true), ExampleSource::new(1000)),
            ("blort", Some(false), ExampleSource::new(2)),
            ("foobar", None, ExampleSource::new(1001)),
        ])))
    );
}

#[test]
fn build() {
    let params = ":".to_string();

    let x_list = ListBacked(vec![
        NameWrapper { name: "foo".into(), item: ExampleSource::new(0) },
        NameWrapper { name: "bar".into(), item: ExampleSource { value: None } },
    ]);
    let mut actual = x_list.build(&params).unwrap();
    actual.sort();
    assert_eq!(actual, vec!["bar", "foo:0"]);

    let x_map = MapBacked(map_of(vec![
        // Included
        ("foo", None, ExampleSource::new(0)),
        ("bar", Some(true), ExampleSource { value: None }),
        // Ignored
        ("blort", Some(false), ExampleSource::new(2)),
    ]));
    let mut actual = x_map.build(&params).unwrap();
    actual.sort();
    assert_eq!(actual, vec!["bar", "foo:0"]);
}

#[test]
fn canonical_leaves_out_disabled_and_keeps_unset() {
    let list = MapBacked(map_of(vec![
        ("unset", None, ExampleSource::new(1)),
        ("on", Some(true), ExampleSource::new(2)),
        ("off", Some(false), ExampleSource::new(3)),
    ]));
    let items: BTreeMap<String, ExampleSource> =
        list.into_items().into_entries().into_iter().map(|e| (e.key, e.value)).collect();
    assert_eq!(items.len(), 2);
    assert_eq!(items["unset"], ExampleSource::new(1));
    assert_eq!(items["on"], ExampleSource::new(2));
    assert!(!items.contains_key("off"));
}

#[test]
fn list_with_duplicate_names_keeps_the_last() {
    let list = ListBacked(vec![
        NameWrapper { name: "a".into(), item: ExampleSource::new(1) },
        NameWrapper { name: "b".into(), item: ExampleSource::new(2) },
        NameWrapper { name: "a".into(), item: ExampleSource::new(3) },
    ]);
    let items: BTreeMap<String, ExampleSource> =
        list.into_items().into_entries().into_iter().map(|e| (e.key, e.value)).collect();
    assert_eq!(items.len(), 2);
    assert_eq!(items["a"], ExampleSource::new(3));
    assert_eq!(items["b"], ExampleSource::new(2));
}

#[test]
fn named_build_fails_with_the_failing_entry() {
    let list = ListBacked(vec![
        NameWrapper { name: "a".into(), item: Picky { refuse: false } },
        NameWrapper { name: "b".into(), item: Picky { refuse: true } },
        NameWrapper { name: "c".into(), item: Picky { refuse: false } },
    ]);
    assert_eq!(list.build(&"ctx".to_string()), Err(Error::AuthConflict));
}

/// A source that builds its number, and refuses the number 13.
#[derive(Clone, Debug, PartialEq)]
pub struct Number(u32);

impl Build<u32, ()> for Number {
    fn builds(self, params: &(), r: Result<u32, Error>) -> bool {
        r == self.build(params)
    }

    fn build(self, _: &()) -> Result<u32, Error> {
        if self.0 == 13 {
            Err(Error::InvalidNumber)
        } else {
            Ok(self.0 * 2)
        }
    }
}

#[test]
fn option_build() {
    assert_eq!(None::<Number>.build(&()), Ok(None));
    assert_eq!(Some(Number(4)).build(&()), Ok(Some(8)));
    assert_eq!(Some(Number(13)).build(&()), Err(Error::InvalidNumber));
}

#[test]
fn sequence_build_keeps_order() {
    let built = vec![Number(3), Number(1), Number(2)].build(&());
    assert_eq!(built, Ok(vec![6, 2, 4]));
    assert_eq!(Vec::<Number>::new().build(&()), Ok(vec![]));
}

#[test]
fn sequence_build_fails_as_a_whole() {
    let built = vec![Number(1), Number(2), Number(13), Number(4)].build(&());
    assert_eq!(built, Err(Error::InvalidNumber));
}

#[test]
fn map_build_drops_absent_payloads() {
    let mut m: StringMap<Option<Number>> = StringMap::new();
    m.insert("a".to_string(), Some(Number(1)));
    m.insert("b".to_string(), None);
    m.insert("c".to_string(), Some(Number(3)));
    let built: BTreeMap<String, u32> =
        m.build(&()).unwrap().into_entries().into_iter().map(|e| (e.key, e.value)).collect();
    assert_eq!(built.len(), 2);
    assert_eq!(built["a"], 2);
    assert_eq!(built["c"], 6);
}

#[test]
fn map_build_fails_as_a_whole() {
    let mut m: StringMap<Option<Number>> = StringMap::new();
    m.insert("a".to_string(), Some(Number(1)));
    m.insert("b".to_string(), Some(Number(13)));
    assert!(matches!(m.build(&()), Err(Error::InvalidNumber)));
}

fn example_of(v: &serde_yaml::Value) -> ExampleSource {
    ExampleSource { value: v.get("value").and_then(|x| x.as_u64()).map(|x| x as u32) }
}

fn document(text: &str) -> shipcat::namedlist::Document<ExampleSource> {
    let value: serde_yaml::Value = serde_yaml::from_str(text).unwrap();
    match value {
        serde_yaml::Value::Sequence(xs) => shipcat::namedlist::Document::Sequence(
            xs.iter()
                .map(|x| NameWrapper {
                    name: x.get("name").and_then(|n| n.as_str()).unwrap().to_string(),
                    item: example_of(x),
                })
                .collect(),
        ),
        serde_yaml::Value::Mapping(m) => shipcat::namedlist::Document::Mapping(
            m.iter()
                .map(|(k, v)| shipcat::keyed::Entry {
                    key: k.as_str().unwrap().to_string(),
                    value: EnabledWrapper {
                        enabled: v.get("enabled").and_then(|e| e.as_bool()),
                        item: example_of(v),
                    },
                })
                .collect(),
        ),
        other => panic!("a map or a list, not {:?}", other),
    }
}

#[test]
fn deserialize() {
    // Deserialize from map
    let actual: NamedList<ExampleSource> = NamedList::decode(document("{}"));
    assert_eq!(shape(actual), shape(MapBacked(StringMap::new())));

    let actual: NamedList<ExampleSource> = NamedList::decode(document(
        "{foo: {value: 1}, bar: {enabled: true}, blort: {enabled: false, value: 2} }",
    ));
    assert_eq!(
        shape(actual),
        shape(MapBacked(map_of(vec![
            ("foo", None, ExampleSource::new(1)),
            ("bar", Some(true), ExampleSource { value: None }),
            ("blort", Some(false), ExampleSource::new(2)),
        ])))
    );

    // Deserialize from list
    let actual: NamedList<ExampleSource> = NamedList::decode(document("[]"));
    assert_eq!(shape(actual), shape(ListBacked(Vec::new())));

    let actual: NamedList<ExampleSource> =
        NamedList::decode(document("[{ name: foo, value: 1 }, { name: bar }]"));
    assert_eq!(
        shape(actual),
        shape(ListBacked(vec![
            NameWrapper { name: "foo".into(), item: ExampleSource::new(1) },
            NameWrapper { name: "bar".into(), item: ExampleSource { value: None } },
        ]))
    );
}

use serde_json::{Number, Value};
use track_constraints::{
    AdvancedMediaTrackConstraints, BoolOrMediaTrackConstraints, FlatBoolOrMediaTrackConstraints,
    FlatMediaTrackConstraints, MandatoryMediaTrackConstraints, MediaTrackConstraint,
    MediaTrackConstraintSet, MediaTrackConstraints, MediaTrackProperty, MediaTrackValue,
    ResolvedMediaTrackConstraint, ADVANCED,
};

type Subject = MediaTrackConstraints;

fn value_to_json(value: &MediaTrackValue) -> Value {
    match value {
        MediaTrackValue::Bool(flag) => Value::Bool(*flag),
        MediaTrackValue::Integer(number) => Value::Number(Number::from(*number)),
        MediaTrackValue::Float(bits) => {
            Value::Number(Number::from_f64(f64::from_bits(*bits)).unwrap())
        }
        MediaTrackValue::String(text) => Value::String(text.clone()),
    }
}

fn value_from_json(json: &Value) -> MediaTrackValue {
    match json {
        Value::Bool(flag) => MediaTrackValue::Bool(*flag),
        Value::Number(number) => match number.as_u64() {
            Some(integer) => MediaTrackValue::Integer(integer),
            None => MediaTrackValue::Float(number.as_f64().unwrap().to_bits()),
        },
        Value::String(text) => MediaTrackValue::String(text.clone()),
        other => panic!("not a value: {}", other),
    }
}

fn constraint_to_json(constraint: &MediaTrackConstraint) -> Value {
    match constraint {
        MediaTrackConstraint::Bare(value) => value_to_json(value),
        MediaTrackConstraint::Constraint(structured) => {
            let mut object = serde_json::Map::new();
            let fields = [
                ("exact", &structured.exact),
                ("ideal", &structured.ideal),
                ("min", &structured.min),
                ("max", &structured.max),
            ];
            for (name, field) in fields {
                if let Some(value) = field {
                    object.insert(name.to_owned(), value_to_json(value));
                }
            }
            Value::Object(object)
        }
    }
}

fn constraint_from_json(json: &Value) -> MediaTrackConstraint {
    match json {
        Value::Object(object) => MediaTrackConstraint::Constraint(ResolvedMediaTrackConstraint {
            exact: object.get("exact").map(value_from_json),
            ideal: object.get("ideal").map(value_from_json),
            min: object.get("min").map(value_from_json),
            max: object.get("max").map(value_from_json),
        }),
        scalar => MediaTrackConstraint::Bare(value_from_json(scalar)),
    }
}

fn members_to_json(members: &[(MediaTrackProperty, MediaTrackConstraint)]) -> serde_json::Map<String, Value> {
    let mut object = serde_json::Map::new();
    for (property, constraint) in members {
        object.insert(property.name().to_owned(), constraint_to_json(constraint));
    }
    object
}

fn members_to_text(members: &[(MediaTrackProperty, MediaTrackConstraint)]) -> Vec<String> {
    members
        .iter()
        .map(|(property, constraint)| {
            format!(
                "{}:{}",
                Value::String(property.name().to_owned()),
                constraint_to_json(constraint)
            )
        })
        .collect()
}

fn set_from_json(json: &Value) -> MediaTrackConstraintSet {
    let mut entries = Vec::new();
    for (name, constraint) in json.as_object().unwrap() {
        entries.push((MediaTrackProperty::new(name), constraint_from_json(constraint)));
    }
    MediaTrackConstraintSet::from_entries(entries)
}

fn flat_to_json(flat: FlatMediaTrackConstraints<MediaTrackConstraint>) -> Value {
    let mut object = members_to_json(&flat.members);
    if let Some(advanced) = flat.advanced {
        let sets = advanced
            .into_inner()
            .into_iter()
            .map(|set| Value::Object(members_to_json(&set.into_entries())))
            .collect();
        object.insert(ADVANCED.to_owned(), Value::Array(sets));
    }
    Value::Object(object)
}

fn flat_to_text(flat: FlatMediaTrackConstraints<MediaTrackConstraint>) -> String {
    let mut members = members_to_text(&flat.members);
    if let Some(advanced) = flat.advanced {
        let sets: Vec<String> = advanced
            .into_inner()
            .into_iter()
            .map(|set| format!("{{{}}}", members_to_text(&set.into_entries()).join(",")))
            .collect();
        members.push(format!("{}:[{}]", Value::String(ADVANCED.to_owned()), sets.join(",")));
    }
    format!("{{{}}}", members.join(","))
}

fn flat_from_json(json: &Value) -> FlatMediaTrackConstraints<MediaTrackConstraint> {
    let mut members = Vec::new();
    let mut advanced = None;
    for (name, member) in json.as_object().unwrap() {
        if name == ADVANCED {
            let sets = member.as_array().unwrap().iter().map(set_from_json).collect();
            advanced = Some(AdvancedMediaTrackConstraints::new(sets));
        } else {
            members.push((MediaTrackProperty::new(name), constraint_from_json(member)));
        }
    }
    FlatMediaTrackConstraints { members, advanced }
}

fn selector_to_json(selector: BoolOrMediaTrackConstraints) -> Value {
    match selector.into_flat() {
        FlatBoolOrMediaTrackConstraints::Bool(flag) => Value::Bool(flag),
        FlatBoolOrMediaTrackConstraints::Object(object) => flat_to_json(object),
    }
}

fn selector_from_json(json: &Value) -> BoolOrMediaTrackConstraints {
    BoolOrMediaTrackConstraints::from_flat(match json {
        Value::Bool(flag) => FlatBoolOrMediaTrackConstraints::Bool(*flag),
        object => FlatBoolOrMediaTrackConstraints::Object(flat_from_json(object)),
    })
}

fn set_of(entries: Vec<(&str, MediaTrackValue)>) -> MediaTrackConstraintSet {
    MediaTrackConstraintSet::from_entries(
        entries
            .into_iter()
            .map(|(name, value)| (MediaTrackProperty::new(name), MediaTrackConstraint::Bare(value)))
            .collect(),
    )
}

fn microphone() -> Subject {
    Subject {
        mandatory: MandatoryMediaTrackConstraints::new(set_of(vec![(
            "deviceId",
            MediaTrackValue::String("microphone".to_owned()),
        )])),
        advanced: AdvancedMediaTrackConstraints::new(vec![
            set_of(vec![
                ("autoGainControl", MediaTrackValue::Bool(true)),
                ("channelCount", MediaTrackValue::Integer(2)),
            ]),
            set_of(vec![("latency", MediaTrackValue::Float(0.123f64.to_bits()))]),
        ]),
    }
}

const MICROPHONE: &str = "{\"deviceId\":\"microphone\",\"advanced\":[{\"autoGainControl\":true,\"channelCount\":2},{\"latency\":0.123}]}";

#[test]
fn default() {
    let subject = Subject::default();
    let json: Value = serde_json::from_str("{}").unwrap();

    assert_eq!(flat_to_json(Subject::default().into_flat()), json);
    assert_eq!(Subject::from_flat(flat_from_json(&json)), subject);
    assert_eq!(flat_to_text(subject.into_flat()), "{}");
    assert!(json.get("advanced").is_none());
}

#[test]
fn customized() {
    let subject = microphone();
    let json: Value = serde_json::from_str(MICROPHONE).unwrap();

    assert_eq!(flat_to_json(microphone().into_flat()), json);
    assert_eq!(Subject::from_flat(flat_from_json(&json)), subject);
    assert_eq!(flat_to_text(subject.into_flat()), MICROPHONE);
}

#[test]
fn default_is_written_without_members() {
    let flat = Subject::default().into_flat();
    assert_eq!(flat, FlatMediaTrackConstraints { members: vec![], advanced: None });
}

#[test]
fn mandatory_properties_are_members_beside_advanced() {
    let flat = microphone().into_flat();
    assert_eq!(
        flat.members,
        vec![(
            MediaTrackProperty::new("deviceId"),
            MediaTrackConstraint::Bare(MediaTrackValue::String("microphone".to_owned()))
        )]
    );
    assert_eq!(flat.advanced, Some(microphone().advanced));
    assert_eq!(Subject::from_flat(flat), microphone());
}

#[test]
fn a_missing_advanced_member_is_read_as_no_advanced_sets() {
    let json: Value = serde_json::from_str("{\"width\":{\"min\":640,\"ideal\":1280}}").unwrap();
    let subject = Subject::from_flat(flat_from_json(&json));
    assert!(subject.advanced.is_empty());
    assert_eq!(
        subject.mandatory.into_inner().into_entries(),
        vec![(
            MediaTrackProperty::new("width"),
            MediaTrackConstraint::Constraint(ResolvedMediaTrackConstraint {
                exact: None,
                ideal: Some(MediaTrackValue::Integer(1280)),
                min: Some(MediaTrackValue::Integer(640)),
                max: None,
            })
        )]
    );
}

#[test]
fn an_advanced_member_without_sets_is_read_and_not_written() {
    let json: Value = serde_json::from_str("{\"advanced\":[]}").unwrap();
    let subject = Subject::from_flat(flat_from_json(&json));
    assert_eq!(subject, Subject::default());
    assert_eq!(flat_to_text(subject.into_flat()), "{}");
}

#[test]
fn members_of_one_name_are_collected_into_one_property() {
    let first = MediaTrackConstraint::Bare(MediaTrackValue::Integer(1));
    let second = MediaTrackConstraint::Bare(MediaTrackValue::Integer(2));
    let third = MediaTrackConstraint::Bare(MediaTrackValue::Integer(3));
    let subject = Subject::from_flat(FlatMediaTrackConstraints {
        members: vec![
            (MediaTrackProperty::new("width"), first),
            (MediaTrackProperty::new("height"), second.clone()),
            (MediaTrackProperty::new("width"), third.clone()),
        ],
        advanced: None,
    });
    assert_eq!(
        subject.mandatory.into_inner().into_entries(),
        vec![(MediaTrackProperty::new("width"), third), (MediaTrackProperty::new("height"), second)]
    );
}

#[test]
fn a_selector_is_written_as_a_boolean_or_as_an_object() {
    assert_eq!(selector_to_json(BoolOrMediaTrackConstraints::Bool(true)), Value::Bool(true));
    assert_eq!(selector_to_json(BoolOrMediaTrackConstraints::Bool(false)), Value::Bool(false));
    let json: Value = serde_json::from_str(MICROPHONE).unwrap();
    assert_eq!(selector_to_json(BoolOrMediaTrackConstraints::Constraints(microphone())), json);
    assert_eq!(selector_from_json(&json), BoolOrMediaTrackConstraints::Constraints(microphone()));
    assert_eq!(selector_from_json(&Value::Bool(false)), BoolOrMediaTrackConstraints::Bool(false));
    assert_eq!(
        selector_from_json(&serde_json::from_str("{}").unwrap()),
        BoolOrMediaTrackConstraints::Constraints(Subject::default())
    );
}

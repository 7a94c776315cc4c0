use track_constraints::{
    should_skip_advanced, AdvancedMediaTrackConstraints, BoolOrMediaTrackConstraints,
    BoolOrResolvedMediaTrackConstraints, GenericBoolOrMediaTrackConstraints,
    MandatoryMediaTrackConstraints, MediaTrackConstraint, MediaTrackConstraintSet,
    MediaTrackConstraints, MediaTrackProperty, MediaTrackSupportedConstraints, MediaTrackValue,
    ResolvedAdvancedMediaTrackConstraints, ResolvedMandatoryMediaTrackConstraints,
    ResolvedMediaTrackConstraint, ResolvedMediaTrackConstraintSet, ResolvedMediaTrackConstraints,
    SanitizedMediaTrackConstraints,
};

fn property(name: &str) -> MediaTrackProperty {
    MediaTrackProperty::new(name)
}

fn text(value: &str) -> MediaTrackValue {
    MediaTrackValue::String(value.to_owned())
}

fn bare(value: MediaTrackValue) -> MediaTrackConstraint {
    MediaTrackConstraint::Bare(value)
}

fn exact(value: MediaTrackValue) -> ResolvedMediaTrackConstraint {
    ResolvedMediaTrackConstraint { exact: Some(value), ideal: None, min: None, max: None }
}

fn ideal(value: MediaTrackValue) -> ResolvedMediaTrackConstraint {
    ResolvedMediaTrackConstraint { exact: None, ideal: Some(value), min: None, max: None }
}

fn nothing() -> ResolvedMediaTrackConstraint {
    ResolvedMediaTrackConstraint { exact: None, ideal: None, min: None, max: None }
}

fn raw_set(entries: Vec<(&str, MediaTrackConstraint)>) -> MediaTrackConstraintSet {
    let mut set = MediaTrackConstraintSet::new();
    for (name, constraint) in entries {
        set.insert(property(name), constraint);
    }
    set
}

fn resolved_set(
    entries: Vec<(&str, ResolvedMediaTrackConstraint)>,
) -> ResolvedMediaTrackConstraintSet {
    let mut set = ResolvedMediaTrackConstraintSet::new();
    for (name, constraint) in entries {
        set.insert(property(name), constraint);
    }
    set
}

fn supported(names: &[&str]) -> MediaTrackSupportedConstraints {
    MediaTrackSupportedConstraints::new(names.iter().map(|name| property(name)).collect())
}

fn names<T>(set: &track_constraints::GenericMediaTrackConstraintSet<T>) -> Vec<String> {
    let mut names = Vec::new();
    let mut index = 0;
    while let Some((property, _)) = set.entry(index) {
        names.push(property.name().to_owned());
        index += 1;
    }
    names
}

fn customized_subject() -> MediaTrackConstraints {
    MediaTrackConstraints {
        mandatory: MandatoryMediaTrackConstraints::new(raw_set(vec![(
            "deviceId",
            bare(text("microphone")),
        )])),
        advanced: AdvancedMediaTrackConstraints::new(vec![
            raw_set(vec![
                ("autoGainControl", bare(MediaTrackValue::Bool(true))),
                ("channelCount", bare(MediaTrackValue::Integer(2))),
            ]),
            raw_set(vec![("latency", bare(MediaTrackValue::Float(0.123f64.to_bits())))]),
        ]),
    }
}

#[test]
fn bool_false_stands_for_no_constraints() {
    let subject = BoolOrMediaTrackConstraints::Bool(false);
    assert_eq!(subject.to_constraints(), None);
    assert_eq!(subject.into_constraints(), None);
}

#[test]
fn bool_true_stands_for_default_constraints() {
    let subject = BoolOrMediaTrackConstraints::Bool(true);
    assert_eq!(subject.to_constraints(), Some(MediaTrackConstraints::default()));
    assert_eq!(subject.into_constraints(), Some(MediaTrackConstraints::default()));
}

#[test]
fn constraints_stand_for_themselves() {
    let subject = BoolOrMediaTrackConstraints::Constraints(customized_subject());
    assert_eq!(subject.to_constraints(), Some(customized_subject()));
    assert_eq!(subject.into_constraints(), Some(customized_subject()));
}

#[test]
fn selector_defaults_to_false() {
    assert_eq!(BoolOrMediaTrackConstraints::default(), BoolOrMediaTrackConstraints::Bool(false));
    assert_eq!(
        BoolOrResolvedMediaTrackConstraints::default(),
        BoolOrResolvedMediaTrackConstraints::Bool(false)
    );
}

#[test]
fn selector_from_flag_and_from_constraints() {
    assert_eq!(BoolOrMediaTrackConstraints::from(true), BoolOrMediaTrackConstraints::Bool(true));
    assert_eq!(BoolOrMediaTrackConstraints::from(false), BoolOrMediaTrackConstraints::Bool(false));
    assert_eq!(
        BoolOrMediaTrackConstraints::from(customized_subject()),
        BoolOrMediaTrackConstraints::Constraints(customized_subject())
    );
}

#[test]
fn default_constraints_are_empty() {
    let subject = MediaTrackConstraints::default();
    assert!(subject.mandatory.is_empty());
    assert_eq!(subject.mandatory.len(), 0);
    assert!(subject.advanced.is_empty());
    assert!(should_skip_advanced(&subject.advanced));
    assert_eq!(
        subject,
        MediaTrackConstraints::new(
            MandatoryMediaTrackConstraints::default(),
            AdvancedMediaTrackConstraints::default()
        )
    );
}

#[test]
fn new_keeps_both_parts() {
    let mandatory = MandatoryMediaTrackConstraints::new(raw_set(vec![(
        "deviceId",
        bare(text("microphone")),
    )]));
    let advanced = AdvancedMediaTrackConstraints::new(vec![raw_set(vec![(
        "channelCount",
        bare(MediaTrackValue::Integer(2)),
    )])]);
    let subject = MediaTrackConstraints::new(mandatory.clone(), advanced.clone());
    assert_eq!(subject.mandatory, mandatory);
    assert_eq!(subject.advanced, advanced);
    assert!(!should_skip_advanced(&subject.advanced));
}

#[test]
fn resolving_a_flag_keeps_the_flag() {
    assert_eq!(
        BoolOrMediaTrackConstraints::Bool(true).into_resolved(),
        BoolOrResolvedMediaTrackConstraints::Bool(true)
    );
    assert_eq!(
        BoolOrMediaTrackConstraints::Bool(false).to_resolved(),
        BoolOrResolvedMediaTrackConstraints::Bool(false)
    );
}

#[test]
fn resolving_a_selector_resolves_its_constraints() {
    let subject = BoolOrMediaTrackConstraints::Constraints(customized_subject());
    let expected =
        BoolOrResolvedMediaTrackConstraints::Constraints(customized_subject().into_resolved());
    assert_eq!(subject.to_resolved(), expected);
    assert_eq!(subject.into_resolved(), expected);
}

#[test]
fn resolving_turns_bare_values_into_exact_demands() {
    let expected = ResolvedMediaTrackConstraints {
        mandatory: ResolvedMandatoryMediaTrackConstraints::new(resolved_set(vec![(
            "deviceId",
            exact(text("microphone")),
        )])),
        advanced: ResolvedAdvancedMediaTrackConstraints::new(vec![
            resolved_set(vec![
                ("autoGainControl", exact(MediaTrackValue::Bool(true))),
                ("channelCount", exact(MediaTrackValue::Integer(2))),
            ]),
            resolved_set(vec![("latency", exact(MediaTrackValue::Float(0.123f64.to_bits())))]),
        ]),
    };
    assert_eq!(customized_subject().to_resolved(), expected);
    assert_eq!(customized_subject().into_resolved(), expected);
    assert_eq!(ResolvedMediaTrackConstraints::from(customized_subject()), expected);
}

#[test]
fn resolving_leaves_structured_constraints_as_they_are() {
    let width = ResolvedMediaTrackConstraint {
        exact: None,
        ideal: Some(MediaTrackValue::Integer(1280)),
        min: Some(MediaTrackValue::Integer(640)),
        max: Some(MediaTrackValue::Integer(1920)),
    };
    let subject = MediaTrackConstraints {
        mandatory: MandatoryMediaTrackConstraints::new(raw_set(vec![
            ("width", MediaTrackConstraint::Constraint(width.clone())),
            ("facingMode", MediaTrackConstraint::Constraint(exact(text("user")))),
            ("frameRate", MediaTrackConstraint::Constraint(nothing())),
        ])),
        advanced: AdvancedMediaTrackConstraints::new(vec![raw_set(vec![(
            "height",
            MediaTrackConstraint::Constraint(ideal(MediaTrackValue::Integer(720))),
        )])]),
    };
    let expected = ResolvedMediaTrackConstraints {
        mandatory: ResolvedMandatoryMediaTrackConstraints::new(resolved_set(vec![
            ("width", width),
            ("facingMode", exact(text("user"))),
            ("frameRate", nothing()),
        ])),
        advanced: ResolvedAdvancedMediaTrackConstraints::new(vec![resolved_set(vec![(
            "height",
            ideal(MediaTrackValue::Integer(720)),
        )])]),
    };
    assert_eq!(subject.into_resolved(), expected);
}

#[test]
fn resolving_keeps_the_order_of_sets_and_properties() {
    let resolved = customized_subject().into_resolved();
    assert_eq!(resolved.mandatory.len(), 1);
    assert_eq!(resolved.advanced.len(), 2);
    assert_eq!(names(resolved.mandatory.as_set()), vec!["deviceId"]);
    assert_eq!(
        names(resolved.advanced.get(0).unwrap()),
        vec!["autoGainControl", "channelCount"]
    );
    assert_eq!(names(resolved.advanced.get(1).unwrap()), vec!["latency"]);
    assert!(resolved.advanced.get(2).is_none());
}

#[test]
fn a_bare_value_resolves_to_an_exact_demand() {
    let subject = bare(MediaTrackValue::Integer(30));
    assert!(subject.is_bare());
    assert_eq!(subject.to_resolved(), exact(MediaTrackValue::Integer(30)));
    assert_eq!(
        subject.into_resolved(),
        ResolvedMediaTrackConstraint::exact_from(MediaTrackValue::Integer(30))
    );
    let structured = MediaTrackConstraint::Constraint(ideal(MediaTrackValue::Integer(30)));
    assert!(!structured.is_bare());
    assert_eq!(
        structured.into_resolved(),
        ResolvedMediaTrackConstraint::ideal_from(MediaTrackValue::Integer(30))
    );
}

#[test]
fn required_is_an_exact_demand() {
    assert!(exact(MediaTrackValue::Bool(true)).is_required());
    assert!(!ideal(MediaTrackValue::Bool(true)).is_required());
    let range = ResolvedMediaTrackConstraint {
        exact: None,
        ideal: None,
        min: Some(MediaTrackValue::Integer(1)),
        max: Some(MediaTrackValue::Integer(2)),
    };
    assert!(!range.is_required());
    assert!(!range.is_empty());
    assert!(!nothing().is_required());
    assert!(nothing().is_empty());
    assert_eq!(ResolvedMediaTrackConstraint::new(), nothing());
}

#[test]
fn an_empty_constraint_has_no_sanitized_form() {
    assert_eq!(nothing().to_sanitized(), None);
    assert_eq!(nothing().into_sanitized(), None);
    let kept = ideal(MediaTrackValue::Integer(2)).into_sanitized().unwrap();
    assert_eq!(kept.as_resolved(), &ideal(MediaTrackValue::Integer(2)));
    assert!(!kept.is_required());
    assert_eq!(kept.clone().into_resolved(), ideal(MediaTrackValue::Integer(2)));
    let demanded = exact(MediaTrackValue::Integer(2)).to_sanitized().unwrap();
    assert!(demanded.is_required());
}

#[test]
fn supported_constraints_are_a_set_of_names() {
    let subject = supported(&["deviceId", "width", "deviceId"]);
    assert!(subject.contains(&property("deviceId")));
    assert!(subject.contains(&property("width")));
    assert!(!subject.contains(&property("height")));
    assert!(!subject.contains(&property("")));
    assert!(!supported(&[]).contains(&property("deviceId")));
    assert!(subject.clone().contains(&property("width")));
}

#[test]
fn insert_replaces_in_place_and_appends_otherwise() {
    let mut set = ResolvedMediaTrackConstraintSet::new();
    assert!(set.is_empty());
    assert_eq!(set.insert(property("width"), ideal(MediaTrackValue::Integer(1))), None);
    assert_eq!(set.insert(property("height"), ideal(MediaTrackValue::Integer(2))), None);
    assert_eq!(
        set.insert(property("width"), exact(MediaTrackValue::Integer(3))),
        Some(ideal(MediaTrackValue::Integer(1)))
    );
    assert_eq!(set.len(), 2);
    assert_eq!(names(&set), vec!["width", "height"]);
    assert_eq!(set.get(&property("width")), Some(&exact(MediaTrackValue::Integer(3))));
    assert_eq!(set.get(&property("height")), Some(&ideal(MediaTrackValue::Integer(2))));
    assert_eq!(set.get(&property("depth")), None);
    assert!(set.entry(2).is_none());
    let entries = set.into_entries();
    assert_eq!(
        entries,
        vec![
            (property("width"), exact(MediaTrackValue::Integer(3))),
            (property("height"), ideal(MediaTrackValue::Integer(2))),
        ]
    );
}

fn resolved_subject() -> ResolvedMediaTrackConstraints {
    ResolvedMediaTrackConstraints {
        mandatory: ResolvedMandatoryMediaTrackConstraints::new(resolved_set(vec![
            ("deviceId", exact(text("microphone"))),
            ("sampleRate", ideal(MediaTrackValue::Integer(48000))),
            ("channelCount", exact(MediaTrackValue::Integer(2))),
            ("sampleSize", nothing()),
            ("latency", ideal(MediaTrackValue::Float(0.123f64.to_bits()))),
        ])),
        advanced: ResolvedAdvancedMediaTrackConstraints::new(vec![
            resolved_set(vec![("autoGainControl", exact(MediaTrackValue::Bool(true)))]),
            resolved_set(vec![("echoCancellation", exact(MediaTrackValue::Bool(true)))]),
            resolved_set(vec![("noiseSuppression", nothing())]),
            resolved_set(vec![
                ("echoCancellation", ideal(MediaTrackValue::Bool(false))),
                ("sampleRate", exact(MediaTrackValue::Integer(44100))),
            ]),
        ]),
    }
}

#[test]
fn required_and_basic_divide_the_mandatory_constraints() {
    let subject = resolved_subject();
    let required = subject.required();
    let basic = subject.basic();
    assert_eq!(
        required,
        resolved_set(vec![
            ("deviceId", exact(text("microphone"))),
            ("channelCount", exact(MediaTrackValue::Integer(2))),
        ])
    );
    assert_eq!(
        basic,
        resolved_set(vec![
            ("sampleRate", ideal(MediaTrackValue::Integer(48000))),
            ("sampleSize", nothing()),
            ("latency", ideal(MediaTrackValue::Float(0.123f64.to_bits()))),
        ])
    );
    let mut both = names(&required);
    both.extend(names(&basic));
    both.sort();
    let mut all = names(subject.mandatory.as_set());
    all.sort();
    assert_eq!(both, all);
    for name in names(&required) {
        assert!(basic.get(&property(&name)).is_none());
    }
}

#[test]
fn required_and_basic_of_nothing_are_empty() {
    let subject = ResolvedMediaTrackConstraints::default();
    assert!(subject.required().is_empty());
    assert!(subject.basic().is_empty());
}

#[test]
fn sanitizing_keeps_supported_properties_that_demand_something() {
    let platform =
        supported(&["deviceId", "sampleSize", "latency", "echoCancellation", "noiseSuppression"]);
    let subject = resolved_subject();
    let sanitized = subject.to_sanitized(&platform);
    assert_eq!(sanitized, subject.into_sanitized(&platform));
    assert_eq!(names(sanitized.mandatory.as_set()), vec!["deviceId", "latency"]);
    assert_eq!(
        sanitized.mandatory.as_set().get(&property("deviceId")).unwrap().as_resolved(),
        &exact(text("microphone"))
    );
    assert_eq!(
        sanitized.mandatory.as_set().get(&property("latency")).unwrap().as_resolved(),
        &ideal(MediaTrackValue::Float(0.123f64.to_bits()))
    );
    assert_eq!(sanitized.advanced.len(), 2);
    assert_eq!(names(sanitized.advanced.get(0).unwrap()), vec!["echoCancellation"]);
    assert_eq!(names(sanitized.advanced.get(1).unwrap()), vec!["echoCancellation"]);
    assert_eq!(
        sanitized.advanced.get(1).unwrap().get(&property("echoCancellation")).unwrap().as_resolved(),
        &ideal(MediaTrackValue::Bool(false))
    );
    for name in names(sanitized.mandatory.as_set()) {
        assert!(platform.contains(&property(&name)));
        assert!(resolved_subject().mandatory.as_set().get(&property(&name)).is_some());
    }
}

#[test]
fn an_emptied_advanced_set_goes_and_emptied_mandatory_constraints_stay() {
    let subject = ResolvedMediaTrackConstraints {
        mandatory: ResolvedMandatoryMediaTrackConstraints::new(resolved_set(vec![(
            "deviceId",
            exact(text("microphone")),
        )])),
        advanced: ResolvedAdvancedMediaTrackConstraints::new(vec![resolved_set(vec![
            ("autoGainControl", exact(MediaTrackValue::Bool(true))),
            ("channelCount", exact(MediaTrackValue::Integer(2))),
        ])]),
    };
    let sanitized = subject.into_sanitized(&supported(&["width", "height"]));
    assert_eq!(sanitized, SanitizedMediaTrackConstraints::default());
    assert!(sanitized.mandatory.is_empty());
    assert!(sanitized.advanced.is_empty());
    assert!(should_skip_advanced(&sanitized.advanced));
}

#[test]
fn sanitizing_nothing_gives_nothing() {
    let sanitized = ResolvedMediaTrackConstraints::default().into_sanitized(&supported(&["width"]));
    assert_eq!(sanitized, SanitizedMediaTrackConstraints::default());
}

#[test]
fn clones_are_equal_to_what_they_were_made_from() {
    let subject = customized_subject();
    assert_eq!(subject.clone(), subject);
    let selector = GenericBoolOrMediaTrackConstraints::Constraints(resolved_subject());
    assert_eq!(selector.clone(), selector);
    assert_eq!(property("width").clone(), property("width"));
    assert!(property("width").same_as(&property("width")));
    assert!(!property("width").same_as(&property("Width")));
    assert_eq!(property("width").name(), "width");
    assert_eq!(
        subject.mandatory.clone().into_inner(),
        raw_set(vec![("deviceId", bare(text("microphone")))])
    );
    assert_eq!(subject.advanced.clone().into_inner().len(), 2);
}

use o11a_core::domain::topic::{new_topic, parse_adversarial_property_topic, parse_comment_topic};
use o11a_core::domain::topic::{parse_documentation_topic, parse_functional_property_topic};
use o11a_core::domain::topic::{parse_node_topic, parse_spec_topic, parse_topic};
use o11a_core::domain::topic::{parse_type_constraint_topic, ParseTopicError, Topic};
use o11a_core::ordered::OrderedMap;

#[test]
fn display_matches_wire_format() {
    assert_eq!(Topic::Spec(42).id(), "S42");
    assert_eq!(Topic::Node(-100).id(), "N-100");
    assert_eq!(Topic::Comment(7).id(), "C7");
    assert_eq!(Topic::Documentation(34).id(), "D34");
    assert_eq!(Topic::AdversarialProperty(4).id(), "A4");
    assert_eq!(Topic::AdversarialProperty(1).id(), "A1");
    assert_eq!(Topic::Spec(7).id(), "S7");
    assert_eq!(Topic::Spec(13).id(), "S13");
    assert_eq!(Topic::FunctionalProperty(99).id(), "P99");
    assert_eq!(Topic::TypeConstraint(5).id(), "Y5");
}

#[test]
fn from_str_parses_wire_format() {
    assert_eq!("S42".parse::<Topic>().unwrap(), Topic::Spec(42));
    assert_eq!("N-100".parse::<Topic>().unwrap(), Topic::Node(-100));
    assert_eq!("Y5".parse::<Topic>().unwrap(), Topic::TypeConstraint(5));
}

#[test]
fn from_str_rejects_bad_input() {
    assert!(matches!("".parse::<Topic>(), Err(ParseTopicError::Empty)));
    assert!(matches!(
        "Xfoo".parse::<Topic>(),
        Err(ParseTopicError::InvalidNumericSuffix(_))
    ));
    assert!(matches!(
        "X5".parse::<Topic>(),
        Err(ParseTopicError::UnknownPrefix('X'))
    ));
    assert!(matches!(
        "S".parse::<Topic>(),
        Err(ParseTopicError::InvalidNumericSuffix(_))
    ));
}

#[test]
fn display_and_from_str_round_trip() {
    for topic in [
        Topic::Node(-100),
        Topic::Documentation(34),
        Topic::Comment(7),
        Topic::AdversarialProperty(4),
        Topic::AdversarialProperty(1),
        Topic::Spec(42),
        Topic::Spec(7),
        Topic::Spec(13),
        Topic::FunctionalProperty(99),
        Topic::TypeConstraint(5),
    ] {
        let encoded = topic.id();
        let decoded: Topic = encoded.parse().unwrap();
        assert_eq!(decoded, topic);
    }
}

#[test]
fn topics_of_the_wrong_variant_are_rejected() {
    assert_eq!(parse_node_topic("N7").unwrap(), Topic::Node(7));
    assert_eq!(parse_documentation_topic("D7").unwrap(), Topic::Documentation(7));
    assert_eq!(parse_comment_topic("C7").unwrap(), Topic::Comment(7));
    assert_eq!(parse_spec_topic("S7").unwrap(), Topic::Spec(7));
    assert_eq!(parse_functional_property_topic("P7").unwrap(), Topic::FunctionalProperty(7));
    assert_eq!(parse_adversarial_property_topic("A7").unwrap(), Topic::AdversarialProperty(7));
    assert_eq!(parse_type_constraint_topic("Y7").unwrap(), Topic::TypeConstraint(7));
    assert!(matches!(parse_node_topic("S7"), Err(ParseTopicError::UnknownPrefix('S'))));
    assert!(matches!(parse_spec_topic(""), Err(ParseTopicError::Empty)));
}

#[test]
fn suffixes_are_read_as_signed_numbers() {
    assert_eq!(new_topic("N+5"), Topic::Node(5));
    assert_eq!(new_topic("N-2147483648"), Topic::Node(i32::MIN));
    assert_eq!(new_topic("N2147483647"), Topic::Node(i32::MAX));
    assert!(parse_topic("N2147483648").is_err());
    assert!(parse_topic("N-").is_err());
    assert!(parse_topic("N 1").is_err());
    assert_eq!(Topic::Node(i32::MIN).id(), "N-2147483648");
}

#[test]
fn parse_errors_say_what_is_wrong() {
    assert_eq!(parse_topic("").unwrap_err().message(), "empty topic ID");
    assert_eq!(parse_topic("X5").unwrap_err().message(), "unknown topic prefix 'X'");
    assert_eq!(parse_topic("Sxy").unwrap_err().message(), "invalid numeric suffix 'xy'");
}

#[test]
fn topics_are_ordered_by_variant_and_number() {
    let mut all = vec![
        Topic::TypeConstraint(0),
        Topic::FunctionalProperty(0),
        Topic::Spec(2),
        Topic::Spec(-1),
        Topic::AdversarialProperty(0),
        Topic::Comment(0),
        Topic::Documentation(0),
        Topic::Node(9),
    ];
    let mut map: OrderedMap<Topic, u32> = OrderedMap::new();
    for t in &all {
        map.insert(*t, 0);
    }
    all.sort();
    let keys: Vec<Topic> = (0..map.len()).map(|i| *map.key_at(i)).collect();
    assert_eq!(keys, all);
}

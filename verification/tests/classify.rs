use aws_iot_device_sdk::Error;
use aws_iot_device_sdk::TopicType;
use aws_iot_device_sdk::match_topic_type;

#[test]
fn classifies_named_shadow_topic() {
    let topic = "$aws/things/chloe/shadow/name/common/get/rejected";
    assert_eq!(match_topic_type(topic), Ok(TopicType::NamedShadow));
}

#[test]
fn classifies_shadow_topic() {
    let topic = "$aws/things/chloe/shadow/get/accepted";
    assert_eq!(match_topic_type(topic), Ok(TopicType::Shadow));
}

#[test]
fn classifies_jobs_topic() {
    let topic = "$aws/things/chloe/jobs/1/get";
    assert_eq!(match_topic_type(topic), Ok(TopicType::Jobs));
}

#[test]
fn classifies_defender_topic() {
    let topic = "$aws/things/chloe/defender/metrics/json";
    assert_eq!(match_topic_type(topic), Ok(TopicType::Defender));
}

#[test]
fn classifies_tunneling_topic() {
    let topic = "$aws/things/chloe/tunnels/1";
    assert_eq!(match_topic_type(topic), Ok(TopicType::Tunneling));
}

#[test]
fn empty_thing_name_fails() {
    let topic = "$aws/things//shadow/get";
    assert_eq!(match_topic_type(topic), Err(Error::ThingnameParseFailed));
}

#[test]
fn wrong_namespace_prefix_fails() {
    let topic = "$notaws/things/chloe/shadow/get";
    assert_eq!(match_topic_type(topic), Err(Error::NoMatch));
}

#[test]
fn unknown_family_fails() {
    let topic = "$aws/things/chloe/unknownfamily/x";
    assert_eq!(match_topic_type(topic), Err(Error::NoMatch));
}

#[test]
fn named_shadow_is_probed_before_shadow() {
    // The suffix matches both the named-shadow bridge and, textually, the
    // plain shadow bridge; the more specific literal must win.
    let topic = "$aws/things/dev:1/shadow/name/x/update";
    assert_eq!(match_topic_type(topic), Ok(TopicType::NamedShadow));
    assert_ne!(match_topic_type(topic), Ok(TopicType::Shadow));
}

#[test]
fn empty_topic_fails_with_mqtt_error() {
    assert_eq!(match_topic_type(""), Err(Error::MqttTopicFailed));
}

#[test]
fn overlong_topic_fails_with_mqtt_error() {
    let mut topic = String::from("$aws/things/chloe/shadow/get/");
    let pad = "a".repeat(65535 - topic.len());
    topic.push_str(&pad);
    assert_eq!(match_topic_type(&topic), Err(Error::MqttTopicFailed));
}

#[test]
fn invalid_thing_name_in_topic_fails() {
    let topic = "$aws/things/chl oe/shadow/get";
    assert_eq!(match_topic_type(topic), Err(Error::ThingnameParseFailed));
}

#[test]
fn remainder_without_slash_fails() {
    let topic = "$aws/things/chloe";
    assert_eq!(match_topic_type(topic), Err(Error::NoMatch));
}

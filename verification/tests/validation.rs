use aws_iot_device_sdk::Error;
use aws_iot_device_sdk::JOBID_MAX_LENGTH;
use aws_iot_device_sdk::MQTT_TOPIC_LENGTH_MAX;
use aws_iot_device_sdk::SHADOW_NAME_LENGTH_MAX;
use aws_iot_device_sdk::THINGNAME_MAX_LENGTH;
use aws_iot_device_sdk::is_valid_bridge;
use aws_iot_device_sdk::is_valid_job_id;
use aws_iot_device_sdk::is_valid_mqtt_topic;
use aws_iot_device_sdk::is_valid_prefix;
use aws_iot_device_sdk::is_valid_shadow_name;
use aws_iot_device_sdk::is_valid_thing_name;

#[test]
fn valid_mqtt_topic() -> Result<(), Error> {
    is_valid_mqtt_topic("hello/world")?;
    Ok(())
}

#[test]
fn valid_prefix() -> Result<(), Error> {
    is_valid_prefix("hello/world", "hello/")?;
    Ok(())
}

#[test]
fn valid_thing_name() -> Result<(), Error> {
    is_valid_thing_name("-_09AZaz:")?;
    Ok(())
}

#[test]
fn valid_shadow_name() -> Result<(), Error> {
    is_valid_shadow_name("common")?;
    Ok(())
}

#[test]
fn valid_job_id() -> Result<(), Error> {
    is_valid_job_id("_-09AZaz")?;
    Ok(())
}

#[test]
fn empty_string_fails_every_bounded_check() {
    assert_eq!(is_valid_mqtt_topic(""), Err(Error::MqttTopicFailed));
    assert_eq!(is_valid_thing_name(""), Err(Error::ThingnameParseFailed));
    assert_eq!(is_valid_shadow_name(""), Err(Error::ShadownameParseFailed));
    assert_eq!(is_valid_job_id(""), Err(Error::FAIL));
}

#[test]
fn exact_maximum_length_is_rejected() {
    let topic = "a".repeat(MQTT_TOPIC_LENGTH_MAX);
    assert_eq!(is_valid_mqtt_topic(&topic), Err(Error::MqttTopicFailed));
    let topic = "a".repeat(MQTT_TOPIC_LENGTH_MAX - 1);
    assert_eq!(is_valid_mqtt_topic(&topic), Ok(()));

    let name = "a".repeat(THINGNAME_MAX_LENGTH);
    assert_eq!(is_valid_thing_name(&name), Err(Error::ThingnameParseFailed));
    let name = "a".repeat(THINGNAME_MAX_LENGTH - 1);
    assert_eq!(is_valid_thing_name(&name), Ok(()));

    let name = "s".repeat(SHADOW_NAME_LENGTH_MAX);
    assert_eq!(is_valid_shadow_name(&name), Err(Error::ShadownameParseFailed));
    let name = "s".repeat(SHADOW_NAME_LENGTH_MAX - 1);
    assert_eq!(is_valid_shadow_name(&name), Ok(()));

    let id = "j".repeat(JOBID_MAX_LENGTH);
    assert_eq!(is_valid_job_id(&id), Err(Error::FAIL));
    let id = "j".repeat(JOBID_MAX_LENGTH - 1);
    assert_eq!(is_valid_job_id(&id), Ok(()));
}

#[test]
fn thing_name_rejects_characters_outside_the_class() {
    assert_eq!(is_valid_thing_name("ab!c"), Err(Error::ThingnameParseFailed));
    assert_eq!(is_valid_thing_name("ab c"), Err(Error::ThingnameParseFailed));
    assert_eq!(is_valid_thing_name("ab/c"), Err(Error::ThingnameParseFailed));
    assert_eq!(is_valid_thing_name("caf\u{e9}"), Err(Error::ThingnameParseFailed));
    assert_eq!(is_valid_thing_name("-_09AZaz:"), Ok(()));
}

#[test]
fn job_id_rejects_colon() {
    assert_eq!(is_valid_job_id("a:b"), Err(Error::JobsIdParseFailed));
    assert_eq!(is_valid_job_id(":"), Err(Error::JobsIdParseFailed));
    assert_eq!(is_valid_job_id("a-b_c"), Ok(()));
}

#[test]
fn prefix_match_returns_remainder() {
    assert_eq!(is_valid_prefix("hello/world", "hello/"), Ok("world"));
    assert_eq!(is_valid_prefix("hello/world", "help/"), Err(Error::NoMatch));
    assert_eq!(is_valid_prefix("hi", "hello/"), Err(Error::NoMatch));
    assert_eq!(is_valid_prefix("any", ""), Ok("any"));
}

#[test]
fn bridge_match_returns_remainder() {
    assert_eq!(is_valid_bridge("/shadow/get", "/shadow/"), Ok("get"));
    assert_eq!(is_valid_bridge("/jobs/1", "/shadow/"), Err(Error::RootParseFailed));
}

#[test]
fn error_messages_match_the_taxonomy() {
    assert_eq!(Error::FAIL.message(), "function encountered error.");
    assert_eq!(Error::MqttTopicFailed.message(), "Input mqtt topic is invalid.");
    assert_eq!(Error::ThingnameParseFailed.message(), "Could not parse the thing name.");
    assert_eq!(Error::MessageTypeParseFailed.message(), "Could not parse the type.");
    assert_eq!(Error::RootParseFailed.message(), "Could not parse the root.");
    assert_eq!(
        Error::ShadownameParseFailed.message(),
        "Could not parse the shadow name (in the case of a named shadow topic)."
    );
    assert_eq!(Error::JobsIdParseFailed.message(), "Could not parse the job id.");
    assert_eq!(
        Error::NoMatch.message(),
        "The provided topic does not match any defender topic."
    );
}

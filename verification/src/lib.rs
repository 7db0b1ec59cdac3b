//! Validation and classification of device-scoped mqtt topic identifiers.
//!
//! A device-scoped namespace (`$aws/things/<thingName>/...`) is subdivided
//! into families: device-state synchronization (shadow, including a named
//! variant), task distribution (jobs), telemetry reporting (defender), and
//! remote-access tunneling (tunnels). This crate holds the pure string
//! predicates that validate the embedded identifiers, and the decision
//! procedure that determines whether a topic is well-formed and which
//! family it belongs to.

use vstd::prelude::*;
use vstd::std_specs::iter::IteratorSpec;

pub mod common;

pub use common::ACCEPTED;
pub use common::AWS_THINGS_PREFIX;
pub use common::DEFENDER_API_BRIDGE;
pub use common::DEFENDER_TOPIC_MAX_LENGTH;
pub use common::Error;
pub use common::JOBID_MAX_LENGTH;
pub use common::JOBS_API_BRIDGE;
pub use common::JOBS_TOPIC_MAX_LENGTH;
pub use common::MQTT_TOPIC_LENGTH_MAX;
pub use common::NAMED_SHADOW_API_BRIDGE;
pub use common::REJECTED;
pub use common::SHADOW_API_BRIDGE;
pub use common::SHADOW_NAME_LENGTH_MAX;
pub use common::SHADOW_TOPIC_MAX_LENGTH;
pub use common::SUFFIX_ACCEPTED;
pub use common::SUFFIX_REJECTED;
pub use common::THINGNAME_MAX_LENGTH;
pub use common::TUNNELS_API_BRIDGE;
pub use common::TUNNEL_TOPIC_MAX_LENGTH;
pub use common::is_valid_bridge;
pub use common::is_valid_job_id;
pub use common::is_valid_mqtt_topic;
pub use common::is_valid_prefix;
pub use common::is_valid_shadow_name;
pub use common::is_valid_thing_name;
pub use common::spec_bounded;
pub use common::spec_identifier_char;
pub use common::spec_valid_name;

verus! {

broadcast use vstd::string::axiom_spec_iter, vstd::string::next_postcondition;

/// The topic family of a successfully classified device topic.
#[derive(Debug, PartialEq, Eq, Structural)]
pub enum TopicType {
    Other,
    NamedShadow,
    Shadow,
    Jobs,
    Defender,
    Tunneling,
}

/// The index of the first `/` in `s`, or `-1` when `s` holds none.
pub open spec fn spec_find_slash(s: Seq<char>) -> int
    decreases s.len(),
{
    if s.len() == 0 {
        -1
    } else if s[0] == '/' {
        0
    } else if spec_find_slash(s.drop_first()) == -1 {
        -1
    } else {
        1 + spec_find_slash(s.drop_first())
    }
}

/// `spec_find_slash` names the first slash: when it is `-1` there is no
/// slash at all, otherwise it is a position holding a slash with none
/// before it.
pub proof fn lemma_find_slash_spec(s: Seq<char>)
    ensures
        spec_find_slash(s) == -1 ==> forall|j: int| 0 <= j < s.len() ==> s[j] != '/',
        spec_find_slash(s) != -1 ==> 0 <= spec_find_slash(s) < s.len() && s[spec_find_slash(s)]
            == '/' && forall|j: int| 0 <= j < spec_find_slash(s) ==> s[j] != '/',
    decreases s.len(),
{
    if s.len() == 0 {
    } else if s[0] == '/' {
    } else {
        lemma_find_slash_spec(s.drop_first());
        let t = s.drop_first();
        if spec_find_slash(s) == -1 {
            assert forall|j: int| 0 <= j < s.len() implies s[j] != '/' by {
                if j > 0 {
                    assert(t[j - 1] != '/');
                }
            }
        } else {
            let m = spec_find_slash(s);
            assert(s[m] == t[m - 1]);
            assert forall|j: int| 0 <= j < m implies s[j] != '/' by {
                if j > 0 {
                    assert(t[j - 1] != '/');
                }
            }
        }
    }
}

/// Single-pass search for the first `/` in `s`.
fn find_first_slash(s: &str) -> (r: Option<usize>)
    ensures
        r matches Some(i) ==> i == spec_find_slash(s@),
        r is None ==> spec_find_slash(s@) == -1,
{
    let n = s.unicode_len();
    let mut sc = s.chars();
    let mut i: usize = 0;
    loop
        invariant
            i <= n,
            n == s@.len(),
            sc.remaining() =~= s@.skip(i as int),
            forall|j: int| 0 <= j < i ==> s@[j] != '/',
        decreases s@.len() - i,
    {
        match sc.next() {
            None => {
                assert(i == s@.len());
                proof {
                    lemma_find_slash_spec(s@);
                }
                return None;
            },
            Some(c) => {
                assert(c == s@[i as int]);
                if c == '/' {
                    proof {
                        lemma_find_slash_spec(s@);
                        let m = spec_find_slash(s@);
                        if m != i as int {
                            assert(s@[m] == '/');
                            assert(s@[i as int] == '/');
                        }
                    }
                    return Some(i);
                }
                i = i + 1;
                proof {
                    assert(sc.remaining() =~= s@.skip(i as int));
                }
            },
        }
    }
}

/// The classification of a topic with the given characters: the decision
/// procedure over the whole topic, step by step. The topic must be within
/// the protocol length bound and begin with the device namespace prefix;
/// the segment up to the first `/` of the remainder must be a valid thing
/// name; the rest must begin with one of the family bridge literals,
/// probed in a fixed priority order in which the named-shadow bridge
/// stands before the plain shadow bridge, its textual extension.
pub open spec fn spec_classify(t: Seq<char>) -> Result<TopicType, Error> {
    if !spec_bounded(t, MQTT_TOPIC_LENGTH_MAX as int) {
        Err(Error::MqttTopicFailed)
    } else if !"$aws/things/"@.is_prefix_of(t) {
        Err(Error::NoMatch)
    } else {
        let s = t.skip("$aws/things/"@.len() as int);
        let mid = spec_find_slash(s);
        if mid == -1 {
            Err(Error::NoMatch)
        } else if !spec_valid_name(s.subrange(0, mid), THINGNAME_MAX_LENGTH as int) {
            Err(Error::ThingnameParseFailed)
        } else {
            let rest = spec_family_suffix(t);
            if "/shadow/name/"@.is_prefix_of(rest) {
                Ok(TopicType::NamedShadow)
            } else if "/shadow/"@.is_prefix_of(rest) {
                Ok(TopicType::Shadow)
            } else if "/jobs/"@.is_prefix_of(rest) {
                Ok(TopicType::Jobs)
            } else if "/defender/metrics/"@.is_prefix_of(rest) {
                Ok(TopicType::Defender)
            } else if "/tunnels/"@.is_prefix_of(rest) {
                Ok(TopicType::Tunneling)
            } else {
                Err(Error::NoMatch)
            }
        }
    }
}

/// The family suffix of a topic: what remains from the first `/` after
/// the thing-name segment, the part that the bridge literals are probed
/// against. Meaningful when the topic begins with the namespace prefix
/// and the remainder holds a `/`.
pub open spec fn spec_family_suffix(t: Seq<char>) -> Seq<char> {
    let s = t.skip("$aws/things/"@.len() as int);
    s.skip(spec_find_slash(s))
}

/// Ordered disambiguation: a topic whose family suffix begins with the
/// named-shadow bridge also matches the plain shadow bridge textually,
/// yet a successful classification is `NamedShadow`, never `Shadow` —
/// the more specific literal is probed first.
pub proof fn lemma_named_shadow_priority(t: Seq<char>)
    requires
        spec_classify(t) is Ok,
        "/shadow/name/"@.is_prefix_of(spec_family_suffix(t)),
    ensures
        "/shadow/"@.is_prefix_of(spec_family_suffix(t)),
        spec_classify(t) == Ok::<TopicType, Error>(TopicType::NamedShadow),
{
    let rest = spec_family_suffix(t);
    reveal_strlit("/shadow/");
    reveal_strlit("/shadow/name/");
    assert(rest.subrange(0, "/shadow/name/"@.len() as int) == "/shadow/name/"@);
    assert forall|i: int| 0 <= i < "/shadow/"@.len() implies rest[i] == "/shadow/"@[i] by {
        assert(rest.subrange(0, "/shadow/name/"@.len() as int)[i] == "/shadow/name/"@[i]);
    }
    assert(rest.subrange(0, "/shadow/"@.len() as int) =~= "/shadow/"@);
}

/// Given the topic of an incoming message, determine whether it is a
/// device topic, and if so of which family; each validation step
/// short-circuits with its own error.
pub fn match_topic_type<'a>(topic: &'a str) -> (r: Result<TopicType, Error>)
    ensures
        r == spec_classify(topic@),
{
    match is_valid_mqtt_topic(topic) {
        Ok(()) => {},
        Err(e) => {
            return Err(e);
        },
    }
    let s = match is_valid_prefix(topic, AWS_THINGS_PREFIX) {
        Ok(s) => s,
        Err(e) => {
            return Err(e);
        },
    };
    let mid = match find_first_slash(s) {
        Some(mid) => mid,
        None => {
            return Err(Error::NoMatch);
        },
    };
    proof {
        lemma_find_slash_spec(s@);
    }
    let n = s.unicode_len();
    let thing_name = s.substring_char(0, mid);
    let rest = s.substring_char(mid, n);
    match is_valid_thing_name(thing_name) {
        Ok(()) => {},
        Err(e) => {
            return Err(e);
        },
    }
    proof {
        assert(rest@ =~= s@.skip(mid as int));
    }
    if common::has_prefix(rest, NAMED_SHADOW_API_BRIDGE) {
        Ok(TopicType::NamedShadow)
    } else if common::has_prefix(rest, SHADOW_API_BRIDGE) {
        Ok(TopicType::Shadow)
    } else if common::has_prefix(rest, JOBS_API_BRIDGE) {
        Ok(TopicType::Jobs)
    } else if common::has_prefix(rest, DEFENDER_API_BRIDGE) {
        Ok(TopicType::Defender)
    } else if common::has_prefix(rest, TUNNELS_API_BRIDGE) {
        Ok(TopicType::Tunneling)
    } else {
        Err(Error::NoMatch)
    }
}

} // verus!

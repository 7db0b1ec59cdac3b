//! Validation primitives shared by every topic family: length bounds,
//! identifier character classes, and the prefix matcher, together with the
//! error taxonomy.

use vstd::prelude::*;
use vstd::std_specs::iter::IteratorSpec;
use vstd::utf8::encode_utf8;

verus! {

broadcast use vstd::string::axiom_spec_iter, vstd::string::next_postcondition;

/// Limit imposed by the mqtt spec.
pub const MQTT_TOPIC_LENGTH_MAX: usize = 65535;

pub const THINGNAME_MAX_LENGTH: usize = 128;

pub const SHADOW_NAME_LENGTH_MAX: usize = 64;

pub const JOBID_MAX_LENGTH: usize = 64;

pub const TUNNEL_TOPIC_MAX_LENGTH: usize = THINGNAME_MAX_LENGTH + 32;

pub const DEFENDER_TOPIC_MAX_LENGTH: usize = THINGNAME_MAX_LENGTH + 32;

pub const JOBS_TOPIC_MAX_LENGTH: usize = THINGNAME_MAX_LENGTH + JOBID_MAX_LENGTH + 32;

pub const SHADOW_TOPIC_MAX_LENGTH: usize = THINGNAME_MAX_LENGTH + SHADOW_NAME_LENGTH_MAX + 32;

pub const AWS_THINGS_PREFIX: &'static str = "$aws/things/";

pub const DEFENDER_API_BRIDGE: &'static str = "/defender/metrics/";

pub const JOBS_API_BRIDGE: &'static str = "/jobs/";

pub const SHADOW_API_BRIDGE: &'static str = "/shadow/";

pub const NAMED_SHADOW_API_BRIDGE: &'static str = "/shadow/name/";

pub const TUNNELS_API_BRIDGE: &'static str = "/tunnels/";

pub const SUFFIX_ACCEPTED: &'static str = "/accepted";

pub const SUFFIX_REJECTED: &'static str = "/rejected";

pub const ACCEPTED: &'static str = "accepted";

pub const REJECTED: &'static str = "rejected";

/// Every failure mode of the validation and classification layer, one
/// variant per distinguishable cause.
#[derive(Debug, PartialEq, Eq, Structural)]
pub enum Error {
    /// A generic validation failure not otherwise categorized.
    FAIL,
    /// The input mqtt topic is empty or at least the maximum topic length.
    MqttTopicFailed,
    /// The thing name segment could not be parsed.
    ThingnameParseFailed,
    /// The message type could not be parsed.
    MessageTypeParseFailed,
    /// A family bridge literal was expected but absent.
    RootParseFailed,
    /// The shadow name segment of a named-shadow topic is invalid.
    ShadownameParseFailed,
    /// The job id segment is invalid.
    JobsIdParseFailed,
    /// The topic does not match any device topic.
    NoMatch,
}

impl Error {
    /// The description that `message` returns for each failure.
    pub open spec fn spec_message(self) -> Seq<char> {
        match self {
            Error::FAIL => "function encountered error."@,
            Error::MqttTopicFailed => "Input mqtt topic is invalid."@,
            Error::ThingnameParseFailed => "Could not parse the thing name."@,
            Error::MessageTypeParseFailed => "Could not parse the type."@,
            Error::RootParseFailed => "Could not parse the root."@,
            Error::ShadownameParseFailed => "Could not parse the shadow name (in the case of a named shadow topic)."@,
            Error::JobsIdParseFailed => "Could not parse the job id."@,
            Error::NoMatch => "The provided topic does not match any defender topic."@,
        }
    }

    /// A short human-readable description of the failure.
    pub fn message(&self) -> (r: &'static str)
        ensures
            r@ == self.spec_message(),
    {
        match self {
            Error::FAIL => "function encountered error.",
            Error::MqttTopicFailed => "Input mqtt topic is invalid.",
            Error::ThingnameParseFailed => "Could not parse the thing name.",
            Error::MessageTypeParseFailed => "Could not parse the type.",
            Error::RootParseFailed => "Could not parse the root.",
            Error::ShadownameParseFailed => "Could not parse the shadow name (in the case of a named shadow topic).",
            Error::JobsIdParseFailed => "Could not parse the job id.",
            Error::NoMatch => "The provided topic does not match any defender topic.",
        }
    }
}

/// A string is within bounds when it is non-empty and strictly shorter,
/// in bytes, than `max_len`; the bound itself is excluded.
pub open spec fn spec_bounded(s: Seq<char>, max_len: int) -> bool {
    0 < encode_utf8(s).len() < max_len
}

/// Valid parameter: non-empty and strictly under the length bound.
fn is_valid_param(s: &str, max_len: usize) -> (r: Result<(), Error>)
    ensures
        r is Ok <==> spec_bounded(s@, max_len as int),
        r is Err ==> r == Err::<(), Error>(Error::FAIL),
{
    let n = s.as_bytes().len();
    if n > 0 && n < max_len {
        Ok(())
    } else {
        Err(Error::FAIL)
    }
}

/// What `is_valid_mqtt_topic` returns for a topic with the given characters.
pub open spec fn spec_mqtt_topic_result(s: Seq<char>) -> Result<(), Error> {
    if spec_bounded(s, MQTT_TOPIC_LENGTH_MAX as int) {
        Ok(())
    } else {
        Err(Error::MqttTopicFailed)
    }
}

/// Valid mqtt topic: non-empty and strictly under the protocol's maximum
/// topic length.
pub fn is_valid_mqtt_topic(mqtt_topic: &str) -> (r: Result<(), Error>)
    ensures
        r == spec_mqtt_topic_result(mqtt_topic@),
{
    match is_valid_param(mqtt_topic, MQTT_TOPIC_LENGTH_MAX) {
        Ok(()) => Ok(()),
        Err(_) => Err(Error::MqttTopicFailed),
    }
}

/// A character permitted in an identifier: letters, digits, `-` and `_`,
/// and additionally `:` when `allow_colon` holds.
pub open spec fn spec_identifier_char(c: char, allow_colon: bool) -> bool {
    ||| c == '-'
    ||| c == '_'
    ||| '0' <= c && c <= '9'
    ||| 'A' <= c && c <= 'Z'
    ||| 'a' <= c && c <= 'z'
    ||| allow_colon && c == ':'
}

/// One permitted-character test, shared by every identifier scan.
fn is_identifier_char(c: char, allow_colon: bool) -> (b: bool)
    ensures
        b == spec_identifier_char(c, allow_colon),
{
    let u = c as u32;
    u == 45 || u == 95 || (48 <= u && u <= 57) || (65 <= u && u <= 90) || (97 <= u && u <= 122)
        || (allow_colon && u == 58)
}

/// Single-pass scan: every character of `s` lies in the permitted
/// identifier class.
fn all_chars_allowed(s: &str, allow_colon: bool) -> (b: bool)
    ensures
        b <==> (forall|i: int|
            0 <= i < s@.len() ==> spec_identifier_char(s@[i], allow_colon)),
{
    let mut sc = s.chars();
    let ghost mut k: int = 0;
    loop
        invariant
            0 <= k <= s@.len(),
            sc.remaining() =~= s@.skip(k),
            forall|j: int| 0 <= j < k ==> spec_identifier_char(s@[j], allow_colon),
        decreases s@.len() - k,
    {
        match sc.next() {
            None => {
                assert(k == s@.len());
                return true;
            },
            Some(c) => {
                assert(c == s@[k]);
                if !is_identifier_char(c, allow_colon) {
                    return false;
                }
                proof {
                    k = k + 1;
                    assert(sc.remaining() =~= s@.skip(k));
                }
            },
        }
    }
}

/// Single-pass comparison: `pre`'s characters are a prefix of `s`'s.
pub(crate) fn has_prefix(s: &str, pre: &str) -> (b: bool)
    ensures
        b == pre@.is_prefix_of(s@),
{
    let mut sc = s.chars();
    let mut pc = pre.chars();
    let ghost mut k: int = 0;
    loop
        invariant
            0 <= k <= pre@.len(),
            k <= s@.len(),
            sc.remaining() =~= s@.skip(k),
            pc.remaining() =~= pre@.skip(k),
            forall|j: int| 0 <= j < k ==> s@[j] == pre@[j],
        decreases pre@.len() - k,
    {
        match pc.next() {
            None => {
                assert(k == pre@.len());
                assert(pre@ =~= s@.subrange(0, pre@.len() as int));
                return true;
            },
            Some(a) => {
                assert(a == pre@[k]);
                match sc.next() {
                    None => {
                        assert(s@.len() == k < pre@.len());
                        return false;
                    },
                    Some(c) => {
                        assert(c == s@[k]);
                        if c != a {
                            assert(!pre@.is_prefix_of(s@)) by {
                                if pre@.is_prefix_of(s@) {
                                    assert(s@.subrange(0, pre@.len() as int)[k] == pre@[k]);
                                }
                            }
                            return false;
                        }
                        proof {
                            k = k + 1;
                            assert(sc.remaining() =~= s@.skip(k));
                            assert(pc.remaining() =~= pre@.skip(k));
                        }
                    },
                }
            },
        }
    }
}

/// Strips the given leading literal: the remainder of `s` after `pre` when
/// `s` begins with `pre` exactly, else the no-match error.
pub fn is_valid_prefix<'a>(s: &'a str, pre: &str) -> (r: Result<&'a str, Error>)
    ensures
        r is Ok <==> pre@.is_prefix_of(s@),
        r matches Ok(suf) ==> suf@ == s@.skip(pre@.len() as int),
        r is Err ==> r == Err::<&'a str, Error>(Error::NoMatch),
{
    if has_prefix(s, pre) {
        let n_pre = pre.unicode_len();
        let n_s = s.unicode_len();
        let suf = s.substring_char(n_pre, n_s);
        assert(suf@ =~= s@.skip(pre@.len() as int));
        Ok(suf)
    } else {
        Err(Error::NoMatch)
    }
}

/// Strips a family bridge literal, such as the shadow or jobs bridge: the
/// remainder of `s` after `bridge` when `s` begins with `bridge` exactly,
/// else the root-parse error.
pub fn is_valid_bridge<'a>(s: &'a str, bridge: &str) -> (r: Result<&'a str, Error>)
    ensures
        r is Ok <==> bridge@.is_prefix_of(s@),
        r matches Ok(suf) ==> suf@ == s@.skip(bridge@.len() as int),
        r is Err ==> r == Err::<&'a str, Error>(Error::RootParseFailed),
{
    if has_prefix(s, bridge) {
        let n_bridge = bridge.unicode_len();
        let n_s = s.unicode_len();
        let suf = s.substring_char(n_bridge, n_s);
        assert(suf@ =~= s@.skip(bridge@.len() as int));
        Ok(suf)
    } else {
        Err(Error::RootParseFailed)
    }
}

/// A valid identifier: within bounds, every character in the permitted
/// class.
pub open spec fn spec_valid_identifier(s: Seq<char>, max_len: int, allow_colon: bool) -> bool {
    &&& spec_bounded(s, max_len)
    &&& forall|i: int| 0 <= i < s.len() ==> spec_identifier_char(s[i], allow_colon)
}

/// A valid name in the device namespace: a valid identifier with `:`
/// permitted. Thing names and shadow names use this class.
pub open spec fn spec_valid_name(s: Seq<char>, max_len: int) -> bool {
    spec_valid_identifier(s, max_len, true)
}

/// Valid name in the device namespace: non-empty, under the bound, and
/// drawn from the permitted character class with `:` allowed.
fn is_valid_name(name: &str, len: usize) -> (r: Result<(), Error>)
    ensures
        r is Ok <==> spec_valid_name(name@, len as int),
        r is Err ==> r == Err::<(), Error>(Error::FAIL),
{
    match is_valid_param(name, len) {
        Ok(()) => {},
        Err(e) => {
            return Err(e);
        },
    }
    if all_chars_allowed(name, true) {
        Ok(())
    } else {
        Err(Error::FAIL)
    }
}

/// What `is_valid_thing_name` returns for a candidate with the given
/// characters.
pub open spec fn spec_thing_name_result(s: Seq<char>) -> Result<(), Error> {
    if spec_valid_name(s, THINGNAME_MAX_LENGTH as int) {
        Ok(())
    } else {
        Err(Error::ThingnameParseFailed)
    }
}

/// Valid thing name: length in bytes in `[1, 128)`, characters drawn from
/// letters, digits, `-`, `_` and `:`.
pub fn is_valid_thing_name(thing_name: &str) -> (r: Result<(), Error>)
    ensures
        r == spec_thing_name_result(thing_name@),
{
    match is_valid_name(thing_name, THINGNAME_MAX_LENGTH) {
        Ok(()) => Ok(()),
        Err(_) => Err(Error::ThingnameParseFailed),
    }
}

/// What `is_valid_shadow_name` returns for a candidate with the given
/// characters.
pub open spec fn spec_shadow_name_result(s: Seq<char>) -> Result<(), Error> {
    if spec_valid_name(s, SHADOW_NAME_LENGTH_MAX as int) {
        Ok(())
    } else {
        Err(Error::ShadownameParseFailed)
    }
}

/// Valid shadow name: length in bytes in `[1, 64)`, same character class
/// as a thing name.
pub fn is_valid_shadow_name(shadow_name: &str) -> (r: Result<(), Error>)
    ensures
        r == spec_shadow_name_result(shadow_name@),
{
    match is_valid_name(shadow_name, SHADOW_NAME_LENGTH_MAX) {
        Ok(()) => Ok(()),
        Err(_) => Err(Error::ShadownameParseFailed),
    }
}

/// What `is_valid_job_id` returns for a candidate with the given
/// characters: length failures raise the generic error, a character
/// outside the class (`:` among them) raises the job-id error.
pub open spec fn spec_job_id_result(s: Seq<char>) -> Result<(), Error> {
    if !spec_bounded(s, JOBID_MAX_LENGTH as int) {
        Err(Error::FAIL)
    } else if !(forall|i: int| 0 <= i < s.len() ==> spec_identifier_char(s[i], false)) {
        Err(Error::JobsIdParseFailed)
    } else {
        Ok(())
    }
}

/// Valid job id: length in bytes in `[1, 64)`, characters drawn from
/// letters, digits, `-` and `_`; `:` is not permitted.
pub fn is_valid_job_id(job_id: &str) -> (r: Result<(), Error>)
    ensures
        r == spec_job_id_result(job_id@),
{
    match is_valid_param(job_id, JOBID_MAX_LENGTH) {
        Ok(()) => {},
        Err(e) => {
            return Err(e);
        },
    }
    if all_chars_allowed(job_id, false) {
        Ok(())
    } else {
        Err(Error::JobsIdParseFailed)
    }
}

/// Every identifier check accepts a string drawn wholly from its permitted
/// character class whose length, in characters, lies in `[1, max_len)`:
/// permitted characters are ASCII, so the byte length that the bound
/// speaks of equals the character length.
pub proof fn lemma_identifier_accepts(s: Seq<char>, max_len: int, allow_colon: bool)
    requires
        1 <= s.len() < max_len,
        forall|i: int| 0 <= i < s.len() ==> spec_identifier_char(s[i], allow_colon),
    ensures
        spec_valid_identifier(s, max_len, allow_colon),
{
    assert(vstd::utf8::is_ascii_chars(s));
    vstd::utf8::is_ascii_chars_encode_utf8(s);
}

/// Introducing a character outside the permitted class anywhere in the
/// string makes the identifier check fail.
pub proof fn lemma_identifier_rejects(s: Seq<char>, max_len: int, allow_colon: bool, i: int)
    requires
        0 <= i < s.len(),
        !spec_identifier_char(s[i], allow_colon),
    ensures
        !spec_valid_identifier(s, max_len, allow_colon),
{
}

/// A job id within its length bound that holds a `:` anywhere fails with
/// the job-id error: `:` is permitted in thing names but not in job ids.
pub proof fn lemma_job_id_colon_rejected(s: Seq<char>, i: int)
    requires
        spec_bounded(s, JOBID_MAX_LENGTH as int),
        0 <= i < s.len(),
        s[i] == ':',
    ensures
        spec_job_id_result(s) == Err::<(), Error>(Error::JobsIdParseFailed),
{
}

/// Every bounded-length check fails on the empty string.
pub proof fn lemma_empty_never_bounded(s: Seq<char>, max_len: int)
    requires
        s.len() == 0,
    ensures
        !spec_bounded(s, max_len),
{
}

/// A string of exactly the maximum byte length fails the bounded-length
/// check: the boundary is exclusive.
pub proof fn lemma_exact_max_not_bounded(s: Seq<char>, max_len: int)
    requires
        encode_utf8(s).len() == max_len,
    ensures
        !spec_bounded(s, max_len),
{
}

} // verus!

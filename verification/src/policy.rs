//! The Firefox enterprise policy that turns DNS over HTTPS off, merged into
//! a browser's existing policy file.

use vstd::prelude::*;

verus! {

/// The `DNSOverHTTPS` policy: disabled and locked.
pub const DOH_SETTINGS: &'static str = r#"{"Enabled":false,"Locked":true}"#;

/// The `Preferences` policy: trusted recursive resolver off, no bootstrap
/// address, no connectivity service, no DoH rollout; each locked.
pub const DOH_PREFERENCES: &'static str = r#"{"network.trr.mode":{"Value":5,"Status":"locked"},"network.trr.bootstrapAddr":{"Value":"","Status":"locked"},"network.connectivity-service.enabled":{"Value":false,"Status":"locked"},"doh-rollout.enabled":{"Value":false,"Status":"locked"}}"#;

/// A policy file holding only the two policies.
pub const DOH_POLICY_FILE: &'static str = r#"{"policies":{"DNSOverHTTPS":{"Enabled":false,"Locked":true},"Preferences":{"network.trr.mode":{"Value":5,"Status":"locked"},"network.trr.bootstrapAddr":{"Value":"","Status":"locked"},"network.connectivity-service.enabled":{"Value":false,"Status":"locked"},"doh-rollout.enabled":{"Value":false,"Status":"locked"}}}}"#;

/// Whether serde_json reads `text` as a document whose member `key` is an
/// object.
pub uninterp spec fn json_object_member(text: Seq<char>, key: Seq<char>) -> bool;

/// What serde_json writes for the document `text` with member `key` of its
/// object member `obj_key` set to the JSON value `value` (other members
/// kept), or nothing when that cannot be done.
pub uninterp spec fn json_with_member(
    text: Seq<char>,
    obj_key: Seq<char>,
    key: Seq<char>,
    value: Seq<char>,
) -> Option<Seq<char>>;

/// What serde_json's pretty printer writes for the document `text`, or
/// nothing when it does not parse.
pub uninterp spec fn json_pretty_text(text: Seq<char>) -> Option<Seq<char>>;

/// `serde_json::from_str` into a `Value`, then whether its member `key`
/// is an object (`Value::get`, `Value::is_object`); false when the text does
/// not parse. The result is named as a function of the two strings.
#[verifier::external_body]
fn has_object_member(text: &str, key: &str) -> (r: bool)
    ensures
        r == json_object_member(text@, key@),
{
    match serde_json::from_str::<serde_json::Value>(text) {
        Ok(v) => v.get(key).map_or(false, |m| m.is_object()),
        Err(_) => false,
    }
}

/// `serde_json::from_str` of the document and of the value, `Map::insert`
/// of the value under `key` in the document's object member `obj_key`, then
/// `serde_json::to_string`. The result is named as a function of the four
/// strings.
#[verifier::external_body]
fn with_member(text: &str, obj_key: &str, key: &str, value: &str) -> (r: Option<String>)
    ensures
        match r {
            Some(t) => json_with_member(text@, obj_key@, key@, value@) == Some(t@),
            None => json_with_member(text@, obj_key@, key@, value@) is None,
        },
{
    let mut doc = serde_json::from_str::<serde_json::Value>(text).ok()?;
    let member = serde_json::from_str::<serde_json::Value>(value).ok()?;
    doc.get_mut(obj_key)?.as_object_mut()?.insert(key.to_owned(), member);
    serde_json::to_string(&doc).ok()
}

/// `serde_json::from_str`, then `serde_json::to_string_pretty`. The result
/// is named as a function of the text.
#[verifier::external_body]
fn pretty(text: &str) -> (r: Option<String>)
    ensures
        match r {
            Some(t) => json_pretty_text(text@) == Some(t@),
            None => json_pretty_text(text@) is None,
        },
{
    let doc = serde_json::from_str::<serde_json::Value>(text).ok()?;
    serde_json::to_string_pretty(&doc).ok()
}

/// The policy file to write, given the existing one's text (none when there
/// is none or it cannot be read): when it is a document whose `policies`
/// member is an object, that document with `DNSOverHTTPS` and
/// `Preferences` set in it and everything else kept; otherwise a file
/// holding only the two policies. Pretty printed.
pub open spec fn policies_file(existing: Option<Seq<char>>) -> Option<Seq<char>> {
    match existing {
        Some(t) => if json_object_member(t, "policies"@) {
            match json_with_member(t, "policies"@, "DNSOverHTTPS"@, DOH_SETTINGS@) {
                Some(d1) => match json_with_member(d1, "policies"@, "Preferences"@, DOH_PREFERENCES@) {
                    Some(d2) => json_pretty_text(d2),
                    None => None,
                },
                None => None,
            }
        } else {
            json_pretty_text(DOH_POLICY_FILE@)
        },
        None => json_pretty_text(DOH_POLICY_FILE@),
    }
}

/// The policy file that turns DNS over HTTPS off, merged into the existing
/// one when it has a `policies` object.
pub fn firefox_policies_json(existing: Option<&str>) -> (r: Option<String>)
    ensures
        match r {
            Some(t) => policies_file(
                match existing {
                    Some(e) => Some(e@),
                    None => None,
                },
            ) == Some(t@),
            None => policies_file(
                match existing {
                    Some(e) => Some(e@),
                    None => None,
                },
            ) is None,
        },
{
    match existing {
        Some(t) => {
            if has_object_member(t, "policies") {
                match with_member(t, "policies", "DNSOverHTTPS", DOH_SETTINGS) {
                    Some(d1) => match with_member(d1.as_str(), "policies", "Preferences", DOH_PREFERENCES) {
                        Some(d2) => pretty(d2.as_str()),
                        None => None,
                    },
                    None => None,
                }
            } else {
                pretty(DOH_POLICY_FILE)
            }
        },
        None => pretty(DOH_POLICY_FILE),
    }
}

} // verus!

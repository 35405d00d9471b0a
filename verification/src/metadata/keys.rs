//! Where each record is kept: the keys under one namespace prefix.

use vstd::prelude::*;
use vstd::string::*;
use vstd::utf8::*;

use crate::text;
use crate::text::{encode_hex, push_decimal, push_fixed_decimal, to_ascii_lower, trim};

verus! {

/// The suffix under the prefix; an empty prefix leaves it as it is.
pub open spec fn namespaced(prefix: Seq<char>, suffix: Seq<char>) -> Seq<char> {
    if prefix.len() == 0 {
        suffix
    } else {
        prefix + "/"@ + suffix
    }
}

fn namespace(prefix: &str, suffix: &str) -> (key: String)
    ensures
        key@ == namespaced(prefix@, suffix@),
{
    if prefix.is_empty() {
        suffix.to_owned()
    } else {
        let mut key = prefix.to_owned();
        key.append("/");
        key.append(suffix);
        key
    }
}

/// A key component that may hold any character, as hexadecimal digits.
pub open spec fn encoded(component: Seq<char>) -> Seq<char> {
    text::hex(encode_utf8(component))
}

fn encode_component(value: &str) -> (out: String)
    ensures
        out@ == encoded(value@),
{
    encode_hex(value.as_bytes())
}

/// An endpoint as the owner index writes it: trimmed and in lower case.
pub open spec fn normal_endpoint(endpoint: Seq<char>) -> Seq<char> {
    text::ascii_lower(text::trimmed(endpoint))
}

fn normalize_endpoint_component(value: &str) -> (out: String)
    ensures
        out@ == normal_endpoint(value@),
{
    to_ascii_lower(trim(value))
}

/// The record of a timeline.
pub open spec fn timeline_key_text(prefix: Seq<char>, timeline: Seq<char>) -> Seq<char> {
    namespaced(prefix, "routes/"@ + timeline)
}

pub fn timeline_key(prefix: &str, timeline: &str) -> (key: String)
    ensures
        key@ == timeline_key_text(prefix@, timeline@),
{
    let mut suffix = "routes/".to_owned();
    suffix.append(timeline);
    namespace(prefix, suffix.as_str())
}

/// The record of a generator.
pub open spec fn generator_key_text(prefix: Seq<char>, generator_id: u32) -> Seq<char> {
    namespaced(prefix, "generators/"@ + text::decimal(generator_id as nat))
}

pub fn generator_key(prefix: &str, generator_id: u32) -> (key: String)
    ensures
        key@ == generator_key_text(prefix@, generator_id),
{
    let mut suffix = "generators/".to_owned();
    push_decimal(&mut suffix, generator_id as u64);
    namespace(prefix, suffix.as_str())
}

/// All generator records.
pub open spec fn generator_prefix_text(prefix: Seq<char>) -> Seq<char> {
    namespaced(prefix, "generators/"@)
}

pub fn generator_prefix(prefix: &str) -> (key: String)
    ensures
        key@ == generator_prefix_text(prefix@),
{
    namespace(prefix, "generators/")
}

/// All timeline records.
pub open spec fn route_prefix_text(prefix: Seq<char>) -> Seq<char> {
    namespaced(prefix, "routes/"@)
}

pub fn route_prefix(prefix: &str) -> (key: String)
    ensures
        key@ == route_prefix_text(prefix@),
{
    namespace(prefix, "routes/")
}

/// The whole status index.
pub open spec fn timeline_status_index_prefix_text(prefix: Seq<char>) -> Seq<char> {
    namespaced(prefix, "timeline_status/"@)
}

pub fn timeline_status_index_prefix(prefix: &str) -> (key: String)
    ensures
        key@ == timeline_status_index_prefix_text(prefix@),
{
    namespace(prefix, "timeline_status/")
}

/// The marker that says which version of the status index is built.
pub open spec fn timeline_status_index_marker_key_text(prefix: Seq<char>) -> Seq<char> {
    namespaced(prefix, "timeline_status/__ready"@)
}

pub fn timeline_status_index_marker_key(prefix: &str) -> (key: String)
    ensures
        key@ == timeline_status_index_marker_key_text(prefix@),
{
    namespace(prefix, "timeline_status/__ready")
}

/// The lock of a rebuild. It stands outside the status index, which a rebuild deletes as a whole.
pub open spec fn timeline_status_index_rebuild_lock_key_text(prefix: Seq<char>) -> Seq<char> {
    namespaced(prefix, "cluster/timeline_status_index_rebuild_lock"@)
}

pub fn timeline_status_index_rebuild_lock_key(prefix: &str) -> (key: String)
    ensures
        key@ == timeline_status_index_rebuild_lock_key_text(prefix@),
{
    namespace(prefix, "cluster/timeline_status_index_rebuild_lock")
}

/// The entry of a timeline in the index by owner.
pub open spec fn timeline_status_owner_index_key_text(
    prefix: Seq<char>,
    owner_worker_endpoint: Seq<char>,
    timeline_key: Seq<char>,
) -> Seq<char> {
    namespaced(
        prefix,
        "timeline_status/by_owner/"@ + encoded(normal_endpoint(owner_worker_endpoint)) + "/"@
            + timeline_key,
    )
}

pub fn timeline_status_owner_index_key(
    prefix: &str,
    owner_worker_endpoint: &str,
    timeline_key: &str,
) -> (key: String)
    ensures
        key@ == timeline_status_owner_index_key_text(prefix@, owner_worker_endpoint@, timeline_key@),
{
    let mut suffix = "timeline_status/by_owner/".to_owned();
    let owner = normalize_endpoint_component(owner_worker_endpoint);
    suffix.append(encode_component(owner.as_str()).as_str());
    suffix.append("/");
    suffix.append(timeline_key);
    namespace(prefix, suffix.as_str())
}

/// The index entries of one owner.
pub open spec fn timeline_status_owner_index_prefix_text(
    prefix: Seq<char>,
    owner_worker_endpoint: Seq<char>,
) -> Seq<char> {
    namespaced(
        prefix,
        "timeline_status/by_owner/"@ + encoded(normal_endpoint(owner_worker_endpoint)) + "/"@,
    )
}

pub fn timeline_status_owner_index_prefix(
    prefix: &str,
    owner_worker_endpoint: &str,
) -> (key: String)
    ensures
        key@ == timeline_status_owner_index_prefix_text(prefix@, owner_worker_endpoint@),
{
    let mut suffix = "timeline_status/by_owner/".to_owned();
    let owner = normalize_endpoint_component(owner_worker_endpoint);
    suffix.append(encode_component(owner.as_str()).as_str());
    suffix.append("/");
    namespace(prefix, suffix.as_str())
}

/// The entry of a timeline in the index by state.
pub open spec fn timeline_status_state_index_key_text(
    prefix: Seq<char>,
    state: Seq<char>,
    timeline_key: Seq<char>,
) -> Seq<char> {
    namespaced(prefix, "timeline_status/by_state/"@ + state + "/"@ + timeline_key)
}

pub fn timeline_status_state_index_key(
    prefix: &str,
    state: &str,
    timeline_key: &str,
) -> (key: String)
    ensures
        key@ == timeline_status_state_index_key_text(prefix@, state@, timeline_key@),
{
    let mut suffix = "timeline_status/by_state/".to_owned();
    suffix.append(state);
    suffix.append("/");
    suffix.append(timeline_key);
    namespace(prefix, suffix.as_str())
}

/// The index entries of one state.
pub open spec fn timeline_status_state_index_prefix_text(
    prefix: Seq<char>,
    state: Seq<char>,
) -> Seq<char> {
    namespaced(prefix, "timeline_status/by_state/"@ + state + "/"@)
}

pub fn timeline_status_state_index_prefix(prefix: &str, state: &str) -> (key: String)
    ensures
        key@ == timeline_status_state_index_prefix_text(prefix@, state@),
{
    let mut suffix = "timeline_status/by_state/".to_owned();
    suffix.append(state);
    suffix.append("/");
    namespace(prefix, suffix.as_str())
}

/// The record of a request.
pub open spec fn request_key_text(
    prefix: Seq<char>,
    timeline_key: Seq<char>,
    client_request_id: Seq<char>,
) -> Seq<char> {
    namespaced(prefix, "requests_v2/"@ + encoded(timeline_key) + "/"@ + encoded(client_request_id))
}

pub fn request_key(prefix: &str, timeline_key: &str, client_request_id: &str) -> (key: String)
    ensures
        key@ == request_key_text(prefix@, timeline_key@, client_request_id@),
{
    let mut suffix = "requests_v2/".to_owned();
    suffix.append(encode_component(timeline_key).as_str());
    suffix.append("/");
    suffix.append(encode_component(client_request_id).as_str());
    namespace(prefix, suffix.as_str())
}

/// All request records.
pub open spec fn request_prefix_text(prefix: Seq<char>) -> Seq<char> {
    namespaced(prefix, "requests_v2/"@)
}

pub fn request_prefix(prefix: &str) -> (key: String)
    ensures
        key@ == request_prefix_text(prefix@),
{
    namespace(prefix, "requests_v2/")
}

/// Where the record of a request was kept before its components were encoded.
pub open spec fn legacy_request_key_text(
    prefix: Seq<char>,
    timeline_key: Seq<char>,
    client_request_id: Seq<char>,
) -> Seq<char> {
    namespaced(prefix, "requests/"@ + timeline_key + "/"@ + client_request_id)
}

pub fn legacy_request_key(
    prefix: &str,
    timeline_key: &str,
    client_request_id: &str,
) -> (key: String)
    ensures
        key@ == legacy_request_key_text(prefix@, timeline_key@, client_request_id@),
{
    let mut suffix = "requests/".to_owned();
    suffix.append(timeline_key);
    suffix.append("/");
    suffix.append(client_request_id);
    namespace(prefix, suffix.as_str())
}

/// All request records under the older keys.
pub open spec fn legacy_request_prefix_text(prefix: Seq<char>) -> Seq<char> {
    namespaced(prefix, "requests/"@)
}

pub fn legacy_request_prefix(prefix: &str) -> (key: String)
    ensures
        key@ == legacy_request_prefix_text(prefix@),
{
    namespace(prefix, "requests/")
}

/// The entry of a completed request in the cleanup index.
pub open spec fn request_cleanup_index_key_text(
    prefix: Seq<char>,
    updated_at_ms: u64,
    timeline_key: Seq<char>,
    client_request_id: Seq<char>,
) -> Seq<char> {
    namespaced(
        prefix,
        "request_cleanup_v2/"@ + text::fixed_decimal(updated_at_ms as nat, 20) + "/"@
            + encoded(timeline_key) + "/"@ + encoded(client_request_id),
    )
}

pub fn request_cleanup_index_key(
    prefix: &str,
    updated_at_ms: u64,
    timeline_key: &str,
    client_request_id: &str,
) -> (key: String)
    ensures
        key@ == request_cleanup_index_key_text(
            prefix@,
            updated_at_ms,
            timeline_key@,
            client_request_id@,
        ),
{
    let mut suffix = "request_cleanup_v2/".to_owned();
    push_fixed_decimal(&mut suffix, updated_at_ms, 20);
    suffix.append("/");
    suffix.append(encode_component(timeline_key).as_str());
    suffix.append("/");
    suffix.append(encode_component(client_request_id).as_str());
    namespace(prefix, suffix.as_str())
}

/// The whole cleanup index.
pub open spec fn request_cleanup_index_prefix_text(prefix: Seq<char>) -> Seq<char> {
    namespaced(prefix, "request_cleanup_v2/"@)
}

pub fn request_cleanup_index_prefix(prefix: &str) -> (key: String)
    ensures
        key@ == request_cleanup_index_prefix_text(prefix@),
{
    namespace(prefix, "request_cleanup_v2/")
}

/// Where the cleanup index ends for requests older than a time.
pub open spec fn request_cleanup_index_cutoff_text(
    prefix: Seq<char>,
    older_than_ms: u64,
) -> Seq<char> {
    namespaced(prefix, "request_cleanup_v2/"@ + text::fixed_decimal(older_than_ms as nat, 20) + "/"@)
}

pub fn request_cleanup_index_cutoff(prefix: &str, older_than_ms: u64) -> (key: String)
    ensures
        key@ == request_cleanup_index_cutoff_text(prefix@, older_than_ms),
{
    let mut suffix = "request_cleanup_v2/".to_owned();
    push_fixed_decimal(&mut suffix, older_than_ms, 20);
    suffix.append("/");
    namespace(prefix, suffix.as_str())
}

/// The entry of a completed request in the older cleanup index.
pub open spec fn legacy_request_cleanup_index_key_text(
    prefix: Seq<char>,
    updated_at_ms: u64,
    timeline_key: Seq<char>,
    client_request_id: Seq<char>,
) -> Seq<char> {
    namespaced(
        prefix,
        "request_cleanup/"@ + text::fixed_decimal(updated_at_ms as nat, 20) + "/"@ + timeline_key
            + "/"@ + client_request_id,
    )
}

pub fn legacy_request_cleanup_index_key(
    prefix: &str,
    updated_at_ms: u64,
    timeline_key: &str,
    client_request_id: &str,
) -> (key: String)
    ensures
        key@ == legacy_request_cleanup_index_key_text(
            prefix@,
            updated_at_ms,
            timeline_key@,
            client_request_id@,
        ),
{
    let mut suffix = "request_cleanup/".to_owned();
    push_fixed_decimal(&mut suffix, updated_at_ms, 20);
    suffix.append("/");
    suffix.append(timeline_key);
    suffix.append("/");
    suffix.append(client_request_id);
    namespace(prefix, suffix.as_str())
}

/// The whole older cleanup index.
pub open spec fn legacy_request_cleanup_index_prefix_text(prefix: Seq<char>) -> Seq<char> {
    namespaced(prefix, "request_cleanup/"@)
}

pub fn legacy_request_cleanup_index_prefix(prefix: &str) -> (key: String)
    ensures
        key@ == legacy_request_cleanup_index_prefix_text(prefix@),
{
    namespace(prefix, "request_cleanup/")
}

/// Where the older cleanup index ends for requests older than a time.
pub open spec fn legacy_request_cleanup_index_cutoff_text(
    prefix: Seq<char>,
    older_than_ms: u64,
) -> Seq<char> {
    namespaced(prefix, "request_cleanup/"@ + text::fixed_decimal(older_than_ms as nat, 20) + "/"@)
}

pub fn legacy_request_cleanup_index_cutoff(prefix: &str, older_than_ms: u64) -> (key: String)
    ensures
        key@ == legacy_request_cleanup_index_cutoff_text(prefix@, older_than_ms),
{
    let mut suffix = "request_cleanup/".to_owned();
    push_fixed_decimal(&mut suffix, older_than_ms, 20);
    suffix.append("/");
    namespace(prefix, suffix.as_str())
}

/// The identity of a running instance.
pub open spec fn instance_identity_key_text(
    prefix: Seq<char>,
    instance_id: Seq<char>,
) -> Seq<char> {
    namespaced(prefix, "identity/instances/"@ + instance_id)
}

pub fn instance_identity_key(prefix: &str, instance_id: &str) -> (key: String)
    ensures
        key@ == instance_identity_key_text(prefix@, instance_id@),
{
    let mut suffix = "identity/instances/".to_owned();
    suffix.append(instance_id);
    namespace(prefix, suffix.as_str())
}

/// The identities of all running instances.
pub open spec fn instance_identity_prefix_text(prefix: Seq<char>) -> Seq<char> {
    namespaced(prefix, "identity/instances/"@)
}

pub fn instance_identity_prefix(prefix: &str) -> (key: String)
    ensures
        key@ == instance_identity_prefix_text(prefix@),
{
    namespace(prefix, "identity/instances/")
}

/// The ownership plan.
pub open spec fn ownership_plan_key_text(prefix: Seq<char>) -> Seq<char> {
    namespaced(prefix, "cluster/ownership_plan"@)
}

pub fn ownership_plan_key(prefix: &str) -> (key: String)
    ensures
        key@ == ownership_plan_key_text(prefix@),
{
    namespace(prefix, "cluster/ownership_plan")
}

/// The marker of the cluster format.
pub open spec fn cluster_format_key_text(prefix: Seq<char>) -> Seq<char> {
    namespaced(prefix, "cluster/format_version"@)
}

pub fn cluster_format_key(prefix: &str) -> (key: String)
    ensures
        key@ == cluster_format_key_text(prefix@),
{
    namespace(prefix, "cluster/format_version")
}

/// The timestamp layout of the cluster.
pub open spec fn cluster_timestamp_layout_key_text(prefix: Seq<char>) -> Seq<char> {
    namespaced(prefix, "cluster/timestamp_layout"@)
}

pub fn cluster_timestamp_layout_key(prefix: &str) -> (key: String)
    ensures
        key@ == cluster_timestamp_layout_key_text(prefix@),
{
    namespace(prefix, "cluster/timestamp_layout")
}

/// Everything about the cluster as a whole.
pub open spec fn cluster_prefix_text(prefix: Seq<char>) -> Seq<char> {
    namespaced(prefix, "cluster/"@)
}

pub fn cluster_prefix(prefix: &str) -> (key: String)
    ensures
        key@ == cluster_prefix_text(prefix@),
{
    namespace(prefix, "cluster/")
}

/// The lock that serialises limited timeline creation.
pub open spec fn timeline_creation_lock_key_text(prefix: Seq<char>) -> Seq<char> {
    namespaced(prefix, "cluster/timeline_creation_lock"@)
}

pub fn timeline_creation_lock_key(prefix: &str) -> (key: String)
    ensures
        key@ == timeline_creation_lock_key_text(prefix@),
{
    namespace(prefix, "cluster/timeline_creation_lock")
}

/// Neither component holds the separator.
pub open spec fn legacy_unambiguous(timeline_key: Seq<char>, client_request_id: Seq<char>) -> bool {
    !timeline_key.contains('/') && !client_request_id.contains('/')
}

fn holds_separator(text: &str) -> (answer: bool)
    ensures
        answer == text@.contains('/'),
{
    let length: usize = text.unicode_len();
    let mut i: usize = 0;
    while i < length
        invariant
            length == text@.len(),
            i <= length,
            forall|k: int| 0 <= k < i ==> text@[k] != '/',
        decreases length - i,
    {
        if text.get_char(i) == '/' {
            return true;
        }
        i = i + 1;
    }
    false
}

pub fn legacy_request_key_is_unambiguous(timeline_key: &str, client_request_id: &str) -> (answer:
    bool)
    ensures
        answer == legacy_unambiguous(timeline_key@, client_request_id@),
{
    !holds_separator(timeline_key) && !holds_separator(client_request_id)
}

} // verus!

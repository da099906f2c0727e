//! The per-request forwarding path: the blacklist decision, the outbound
//! request construction, and the statistics update for a completed request.
//! The network transport itself lives outside the crate; it executes the
//! plan built here and hands the completed observation back.

use vstd::prelude::*;

use crate::blacklist::Blacklist;
use crate::log::Log;
use crate::numfmt::{dec_chars, u64_to_string};
use crate::store::{overall_key, spec_record_request, StatsStore};

verus! {

/// One HTTP header as the proxy carries it: a name and the raw value bytes.
pub struct Header {
    pub name: String,
    pub value: Vec<u8>,
}

/// The fixed response returned to a blocked source, with no upstream
/// contact and no statistics update.
pub struct Denial {
    pub status: u16,
    pub body: String,
}

/// The outbound request to send upstream: the original method and headers
/// verbatim, and the target URI built from the configured upstream
/// host and port plus the original path and query string.
pub struct ForwardRequest {
    pub method: String,
    pub uri: String,
    pub headers: Vec<Header>,
}

/// What the handler decides for one inbound request, before any timing
/// starts: reject it immediately, or forward it upstream.
pub enum ProxyPlan {
    Blocked(Denial),
    Forward(ForwardRequest),
}

/// The URI the proxied request is sent to: the configured upstream host and
/// port, with the original path and query string appended unchanged.
pub open spec fn target_uri(host: Seq<char>, port: u16, path_and_query: Seq<char>) -> Seq<char> {
    "http://"@ + host + ":"@ + dec_chars(port as nat) + path_and_query
}

/// Build the target URI string for the upstream request.
fn build_target_uri(host: &String, port: u16, path_and_query: &String) -> (r: String)
    ensures
        r@ == target_uri(host@, port, path_and_query@),
{
    let mut s: String = "http://".to_owned();
    s.append(host.as_str());
    s.append(":");
    let p = u64_to_string(port as u64);
    s.append(p.as_str());
    s.append(path_and_query.as_str());
    s
}

/// Decide one inbound request. A blacklisted source is rejected at once
/// with status 403 and a fixed body — before any timing, upstream contact,
/// or statistics update. Any other request is forwarded: the outbound
/// request preserves the method, the path and query string, and all
/// headers byte for byte, and goes to the configured upstream host and
/// port.
pub fn plan_request(
    blacklist: &Blacklist,
    source_ip: &String,
    method: String,
    path_and_query: String,
    headers: Vec<Header>,
    target_host: &String,
    target_port: u16,
) -> (p: ProxyPlan)
    ensures
        blacklist@.contains(source_ip@) <==> p is Blocked,
        (p matches ProxyPlan::Blocked(d) ==> d.status == 403 && d.body@ == "Access denied"@),
        (p matches ProxyPlan::Forward(f) ==> f.method == method && f.headers == headers && f.uri@
            == target_uri(target_host@, target_port, path_and_query@)),
{
    if blacklist.is_blocked(source_ip) {
        ProxyPlan::Blocked(Denial { status: 403, body: "Access denied".to_owned() })
    } else {
        let uri = build_target_uri(target_host, target_port, &path_and_query);
        ProxyPlan::Forward(ForwardRequest { method, uri, headers })
    }
}

/// Record one successfully completed proxied request, as one logical unit:
/// exactly one log entry is appended (completion order is append order),
/// and the observation is counted under the request's path and under the
/// reserved aggregate key. The elapsed time enters the log in microseconds
/// and the histograms in whole milliseconds. Blocked requests and transport
/// failures never reach this point and so record nothing.
pub fn record_completed(
    store: &mut StatsStore,
    method: String,
    uri: String,
    path: &String,
    source_ip: String,
    micros: u128,
    timestamp: i64,
)
    requires
        old(store).wf(),
        old(store).has_headroom(),
        path@ != overall_key(),
    ensures
        final(store).wf(),
        final(store).logs@ == old(store).logs@.push(
            Log {
                timestamp,
                req_method: method,
                req_uri: uri,
                requester_ip: source_ip,
                micros,
            },
        ),
        final(store).hist_map() == spec_record_request(
            old(store).hist_map(),
            path@,
            micros / 1000,
            timestamp,
        ),
        old(store).consistent() ==> final(store).consistent(),
{
    store.append_log(
        Log { timestamp, req_method: method, req_uri: uri, requester_ip: source_ip, micros },
    );
    store.record_request(path, micros / 1000, timestamp);
}

} // verus!

//! The dynv6 sync decisions: when a sync pass runs at all, the update URL
//! sent for each hostname, and the status recorded for each outcome.
use vstd::prelude::*;
use vstd::string::*;
use vstd::utf8::encode_utf8;

use crate::network::{first_addrs, primary_of, scan_interfaces, InterfaceInfo};
use crate::state::{opt_view, Dynv6Config, Dynv6SyncStatus};
use crate::text::{dec, dec_string, digit_char, owned, push_char, push_str};

verus! {

/// The bytes a query value may hold unescaped: ASCII letters and digits and
/// `-`, `_`, `.`, `~`, `:`.
pub open spec fn is_unreserved(b: u8) -> bool {
    ||| 0x41 <= b <= 0x5a
    ||| 0x61 <= b <= 0x7a
    ||| 0x30 <= b <= 0x39
    ||| b == 0x2d
    ||| b == 0x5f
    ||| b == 0x2e
    ||| b == 0x7e
    ||| b == 0x3a
}

/// The upper-case hexadecimal digit for a value below sixteen.
pub open spec fn hex_upper(d: nat) -> char {
    if d < 10 {
        digit_char(d)
    } else {
        ((55 + d) as u32) as char
    }
}

/// One byte of a query value: itself when unreserved, else `%XY` with two
/// upper-case hex digits.
pub open spec fn encode_byte(b: u8) -> Seq<char> {
    if is_unreserved(b) {
        seq![(b as u32) as char]
    } else {
        seq!['%', hex_upper((b / 16) as nat), hex_upper((b % 16) as nat)]
    }
}

/// The percent-encoding of a byte string.
pub open spec fn url_encoded(bytes: Seq<u8>) -> Seq<char>
    decreases bytes.len(),
{
    if bytes.len() == 0 {
        Seq::empty()
    } else {
        url_encoded(bytes.drop_last()) + encode_byte(bytes.last())
    }
}

fn hex_digit(d: u8) -> (c: char)
    requires
        d < 16,
    ensures
        c == hex_upper(d as nat),
{
    if d < 10 {
        (48 + d) as char
    } else {
        (55 + d) as char
    }
}

fn is_unreserved_byte(b: u8) -> (r: bool)
    ensures
        r == is_unreserved(b),
{
    (0x41 <= b && b <= 0x5a) || (0x61 <= b && b <= 0x7a) || (0x30 <= b && b <= 0x39) || b == 0x2d
        || b == 0x5f || b == 0x2e || b == 0x7e || b == 0x3a
}

/// Minimal percent-encoding of the UTF-8 bytes of `s`, enough for tokens,
/// hostnames and IP literals in a query string.
pub fn urlencode(s: &str) -> (out: String)
    ensures
        out@ == url_encoded(s.spec_bytes()),
{
    let bytes = s.as_bytes();
    let mut out = String::new();
    let n = bytes.len();
    for i in 0..n
        invariant
            n == bytes@.len(),
            bytes@ == s.spec_bytes(),
            out@ == url_encoded(bytes@.take(i as int)),
    {
        let b = bytes[i];
        if is_unreserved_byte(b) {
            push_char(&mut out, b as char);
        } else {
            push_char(&mut out, '%');
            push_char(&mut out, hex_digit(b / 16));
            push_char(&mut out, hex_digit(b % 16));
        }
        assert(bytes@.take(i + 1).drop_last() =~= bytes@.take(i as int));
        assert(out@ =~= url_encoded(bytes@.take(i + 1)));
    }
    assert(bytes@.take(n as int) =~= bytes@);
    out
}

/// The characters an encoded query value can contain: unreserved ones,
/// `%`, and upper-case hex digits.
pub open spec fn is_query_safe(c: char) -> bool {
    ||| is_unreserved(c as u8) && (c as u32) < 128
    ||| c == '%'
}

/// Whatever its input, an encoded value holds no character that would end
/// or split a query parameter (no `&`, `=`, `#`, `?`, `+`, space, or
/// non-ASCII character).
pub proof fn lemma_urlencode_query_safe(bytes: Seq<u8>)
    ensures
        forall|i: int| 0 <= i < url_encoded(bytes).len() ==> is_query_safe(
            #[trigger] url_encoded(bytes)[i],
        ),
    decreases bytes.len(),
{
    if bytes.len() > 0 {
        lemma_urlencode_query_safe(bytes.drop_last());
        let prev = url_encoded(bytes.drop_last());
        let e = encode_byte(bytes.last());
        let b = bytes.last();
        assert forall|d: nat| d < 16 implies is_query_safe(#[trigger] hex_upper(d)) by {
            if d < 10 {
                assert(((48 + d) as u32) as char as u8 == 48 + d);
            } else {
                assert(((55 + d) as u32) as char as u8 == 55 + d);
            }
        }
        assert(is_unreserved(b) ==> is_query_safe(((b as u32) as char)));
        assert forall|i: int| 0 <= i < url_encoded(bytes).len() implies is_query_safe(
            #[trigger] url_encoded(bytes)[i],
        ) by {
            assert(url_encoded(bytes) == prev + e);
            if i >= prev.len() {
                assert(url_encoded(bytes)[i] == e[i - prev.len()]);
                if !is_unreserved(b) {
                    assert(hex_upper((b / 16) as nat) == e[1]);
                    assert(hex_upper((b % 16) as nat) == e[2]);
                }
            } else {
                assert(url_encoded(bytes)[i] == prev[i]);
            }
        }
    }
}

/// A value made only of unreserved bytes is sent as it is.
pub proof fn lemma_urlencode_unreserved_identity(bytes: Seq<u8>)
    requires
        forall|i: int| 0 <= i < bytes.len() ==> is_unreserved(#[trigger] bytes[i]),
    ensures
        url_encoded(bytes) == bytes.map_values(|b: u8| (b as u32) as char),
    decreases bytes.len(),
{
    if bytes.len() > 0 {
        let init = bytes.drop_last();
        assert forall|i: int| 0 <= i < init.len() implies is_unreserved(#[trigger] init[i]) by {
            assert(init[i] == bytes[i]);
        }
        lemma_urlencode_unreserved_identity(init);
        assert(is_unreserved(bytes[bytes.len() - 1]));
        assert(url_encoded(bytes) =~= bytes.map_values(|b: u8| (b as u32) as char));
    } else {
        assert(url_encoded(bytes) =~= bytes.map_values(|b: u8| (b as u32) as char));
    }
}

/// The value of a hexadecimal digit character (upper-case letters); other
/// characters read as zero.
pub open spec fn hex_value(c: char) -> nat {
    let v = c as u32;
    if 48 <= v <= 57 {
        (v - 48) as nat
    } else if 65 <= v <= 70 {
        (v - 55) as nat
    } else {
        0
    }
}

/// Percent-decoding as a server reads a query value: `%XY` is the byte with
/// hex digits `X` and `Y`, any other character is its own code read as a byte.
pub open spec fn url_decoded(s: Seq<char>) -> Seq<u8>
    decreases s.len(),
{
    if s.len() == 0 {
        Seq::empty()
    } else if s[0] == '%' && s.len() >= 3 {
        seq![(hex_value(s[1]) * 16 + hex_value(s[2])) as u8] + url_decoded(s.skip(3))
    } else {
        seq![((s[0] as u32) as u8)] + url_decoded(s.skip(1))
    }
}

proof fn lemma_encoded_front(bytes: Seq<u8>)
    requires
        bytes.len() > 0,
    ensures
        url_encoded(bytes) == encode_byte(bytes[0]) + url_encoded(bytes.skip(1)),
    decreases bytes.len(),
{
    if bytes.len() == 1 {
        assert(bytes.drop_last() =~= Seq::<u8>::empty());
        assert(bytes.skip(1) =~= Seq::<u8>::empty());
        assert(url_encoded(bytes) =~= encode_byte(bytes[0]) + url_encoded(bytes.skip(1)));
    } else {
        let init = bytes.drop_last();
        lemma_encoded_front(init);
        assert(init.skip(1) =~= bytes.skip(1).drop_last());
        assert(bytes.skip(1).last() == bytes.last());
        assert(url_encoded(bytes) =~= encode_byte(bytes[0]) + url_encoded(bytes.skip(1)));
    }
}

proof fn lemma_hex_roundtrip(d: nat)
    requires
        d < 16,
    ensures
        hex_value(hex_upper(d)) == d,
{
    if d < 10 {
        assert(((48 + d) as u32) as char as u32 == 48 + d);
    } else {
        assert(((55 + d) as u32) as char as u32 == 55 + d);
    }
}

proof fn lemma_decode_byte(b: u8, rest: Seq<char>)
    ensures
        url_decoded(encode_byte(b) + rest) == seq![b] + url_decoded(rest),
{
    let s = encode_byte(b) + rest;
    if is_unreserved(b) {
        assert(((b as u32) as char) as u32 == b as u32);
        assert(s[0] == (b as u32) as char);
        assert(s[0] != '%');
        assert(s.skip(1) =~= rest);
    } else {
        lemma_hex_roundtrip((b / 16) as nat);
        lemma_hex_roundtrip((b % 16) as nat);
        assert(s[0] == '%');
        assert(s[1] == hex_upper((b / 16) as nat));
        assert(s[2] == hex_upper((b % 16) as nat));
        assert(s.skip(3) =~= rest);
        assert((b / 16) * 16 + b % 16 == b);
    }
}

/// Percent-decoding an encoded value gives back exactly its bytes: nothing
/// sent in the update URL is lost or confused with anything else.
pub proof fn lemma_urlencode_decodes(bytes: Seq<u8>)
    ensures
        url_decoded(url_encoded(bytes)) == bytes,
    decreases bytes.len(),
{
    if bytes.len() == 0 {
        assert(url_encoded(bytes) =~= Seq::<char>::empty());
    } else {
        lemma_encoded_front(bytes);
        lemma_decode_byte(bytes[0], url_encoded(bytes.skip(1)));
        lemma_urlencode_decodes(bytes.skip(1));
        assert(seq![bytes[0]] + bytes.skip(1) =~= bytes);
    }
}

/// The parameter for an optional address: `prefix` (such as `&ipv4=`) and
/// the encoded UTF-8 of the address, or nothing.
pub open spec fn opt_param(prefix: Seq<char>, ip: Option<Seq<char>>) -> Seq<char> {
    match ip {
        Some(ip) => prefix + url_encoded(encode_utf8(ip)),
        None => Seq::empty(),
    }
}

/// The view of an optional string slice.
pub open spec fn opt_str_view(s: Option<&str>) -> Option<Seq<char>> {
    match s {
        Some(t) => Some(t@),
        None => None,
    }
}

/// The dynv6 update URL for one hostname.
pub open spec fn update_url_spec(
    hostname: Seq<char>,
    token: Seq<char>,
    ipv4: Option<Seq<char>>,
    ipv6: Option<Seq<char>>,
) -> Seq<char> {
    "https://dynv6.com/api/update?hostname="@ + url_encoded(encode_utf8(hostname)) + "&token="@
        + url_encoded(encode_utf8(token)) + opt_param("&ipv4="@, ipv4) + opt_param("&ipv6="@, ipv6)
}

/// The dynv6 update URL for one hostname: hostname and token always, each
/// address that is known, every value percent-encoded.
pub fn update_url(hostname: &str, token: &str, ipv4: Option<&str>, ipv6: Option<&str>) -> (url:
    String)
    ensures
        url@ == update_url_spec(hostname@, token@, opt_str_view(ipv4), opt_str_view(ipv6)),
{
    let mut url = owned("https://dynv6.com/api/update?hostname=");
    let h = urlencode(hostname);
    push_str(&mut url, h.as_str());
    push_str(&mut url, "&token=");
    let t = urlencode(token);
    push_str(&mut url, t.as_str());
    let ghost base = url@;
    if let Some(ip) = ipv4 {
        push_str(&mut url, "&ipv4=");
        let e = urlencode(ip);
        push_str(&mut url, e.as_str());
    }
    assert(url@ =~= base + opt_param("&ipv4="@, opt_str_view(ipv4)));
    let ghost mid = url@;
    if let Some(ip) = ipv6 {
        push_str(&mut url, "&ipv6=");
        let e = urlencode(ip);
        push_str(&mut url, e.as_str());
    }
    assert(url@ =~= mid + opt_param("&ipv6="@, opt_str_view(ipv6)));
    url
}

/// A sync pass that has everything it needs.
#[derive(Debug, Clone)]
pub struct SyncJob {
    pub token: String,
    pub interface: String,
    pub domains: Vec<String>,
}

/// Whether a sync pass runs: only when enabled, with at least one domain,
/// a token and an interface; it then covers every configured domain.
pub fn sync_job(cfg: &Dynv6Config) -> (job: Option<SyncJob>)
    ensures
        job is Some <==> cfg.enabled && cfg.domains@.len() > 0 && cfg.token is Some
            && cfg.interface is Some,
        job matches Some(j) ==> j.token == cfg.token->0 && j.interface == cfg.interface->0
            && j.domains@ == cfg.domains@,
{
    if !cfg.enabled || cfg.domains.len() == 0 {
        return None;
    }
    let token = match &cfg.token {
        Some(t) => t.clone(),
        None => return None,
    };
    let interface = match &cfg.interface {
        Some(i) => i.clone(),
        None => return None,
    };
    let mut domains: Vec<String> = Vec::new();
    let n = cfg.domains.len();
    for i in 0..n
        invariant
            n == cfg.domains@.len(),
            domains@ == cfg.domains@.take(i as int),
    {
        domains.push(cfg.domains[i].clone());
        assert(domains@ =~= cfg.domains@.take(i + 1));
    }
    assert(cfg.domains@.take(n as int) =~= cfg.domains@);
    Some(SyncJob { token, interface, domains })
}

/// How one update request went.
#[derive(Debug, Clone)]
pub enum SyncOutcome {
    /// dynv6 answered with a success status.
    Accepted,
    /// dynv6 answered with an error status; its status line and body.
    Rejected { status: String, body: String },
    /// The request itself failed; the error's text.
    Failed { error: String },
}

/// Whether `s` is the status recorded for `hostname` after an update attempt
/// at `now` that went as `outcome`.
pub open spec fn is_status_for(
    s: Dynv6SyncStatus,
    hostname: Seq<char>,
    now: String,
    outcome: SyncOutcome,
) -> bool {
    &&& s.domain@ == hostname
    &&& s.last_attempt == Some(now)
    &&& (s.last_success is Some <==> outcome is Accepted)
    &&& (s.last_error is Some <==> !(outcome is Accepted))
    &&& (s.last_success matches Some(t) ==> t == now)
    &&& (outcome matches SyncOutcome::Rejected { status, body } ==> s.last_error->0@ == status@
        + ": "@ + body@)
    &&& (outcome matches SyncOutcome::Failed { error } ==> s.last_error->0@ == error@)
}

/// The status recorded for one hostname after an update attempt at `now`:
/// the attempt time always, the success time only on success, the error
/// text otherwise.
pub fn sync_status(hostname: &str, now: String, outcome: SyncOutcome) -> (s: Dynv6SyncStatus)
    ensures
        is_status_for(s, hostname@, now, outcome),
{
    match outcome {
        SyncOutcome::Accepted => Dynv6SyncStatus {
            domain: owned(hostname),
            last_attempt: Some(now.clone()),
            last_success: Some(now),
            last_error: None,
        },
        SyncOutcome::Rejected { status, body } => {
            let mut msg = status;
            push_str(&mut msg, ": ");
            push_str(&mut msg, body.as_str());
            Dynv6SyncStatus {
                domain: owned(hostname),
                last_attempt: Some(now),
                last_success: None,
                last_error: Some(msg),
            }
        },
        SyncOutcome::Failed { error } => Dynv6SyncStatus {
            domain: owned(hostname),
            last_attempt: Some(now),
            last_success: None,
            last_error: Some(error),
        },
    }
}

/// One update request of a sync pass: the hostname and the URL sent for it.
#[derive(Debug, Clone)]
pub struct UpdateRequest {
    pub hostname: String,
    pub url: String,
}

/// The model of a list of requests: each hostname with its URL.
pub open spec fn request_views(reqs: Seq<UpdateRequest>) -> Seq<(Seq<char>, Seq<char>)> {
    reqs.map_values(|r: UpdateRequest| (r.hostname@, r.url@))
}

/// The requests of a pass once the addresses are known: one per hostname,
/// in order, each with its update URL.
pub open spec fn planned_requests(
    domains: Seq<String>,
    token: Seq<char>,
    ipv4: Option<Seq<char>>,
    ipv6: Option<Seq<char>>,
) -> Seq<(Seq<char>, Seq<char>)> {
    domains.map_values(|d: String| (d@, update_url_spec(d@, token, ipv4, ipv6)))
}

fn opt_as_str(s: &Option<String>) -> (r: Option<&str>)
    ensures
        opt_str_view(r) == opt_view(*s),
{
    match s {
        Some(t) => Some(t.as_str()),
        None => None,
    }
}

/// The requests a pass sends for `job` with the interface's addresses.
pub fn requests_for(job: &SyncJob, addrs: &(Option<String>, Option<String>)) -> (reqs: Vec<
    UpdateRequest,
>)
    ensures
        request_views(reqs@) == planned_requests(
            job.domains@,
            job.token@,
            opt_view(addrs.0),
            opt_view(addrs.1),
        ),
{
    let ipv4 = opt_as_str(&addrs.0);
    let ipv6 = opt_as_str(&addrs.1);
    let ghost plan = planned_requests(job.domains@, job.token@, opt_view(addrs.0), opt_view(addrs.1));
    let mut reqs: Vec<UpdateRequest> = Vec::new();
    let n = job.domains.len();
    assert(plan.len() == n);
    for i in 0..n
        invariant
            n == job.domains@.len(),
            opt_str_view(ipv4) == opt_view(addrs.0),
            opt_str_view(ipv6) == opt_view(addrs.1),
            plan == planned_requests(job.domains@, job.token@, opt_view(addrs.0), opt_view(addrs.1)),
            plan.len() == n,
            reqs@.len() == i,
            request_views(reqs@) == plan.take(i as int),
    {
        let d = &job.domains[i];
        let url = update_url(d.as_str(), job.token.as_str(), ipv4, ipv6);
        let ghost prev = reqs@;
        reqs.push(UpdateRequest { hostname: d.clone(), url });
        assert(reqs@[i as int].url@ == plan[i as int].1);
        assert(reqs@[i as int].hostname@ == plan[i as int].0);
        assert forall|j: int| 0 <= j < i implies #[trigger] reqs@[j] == prev[j] by {}
        assert(request_views(reqs@) =~= plan.take(i + 1));
    }
    assert(plan.take(n as int) =~= plan);
    reqs
}

/// The requests for `job` given what the interface scan gave: none when
/// the scan failed; otherwise one per hostname, carrying the first IPv4 and
/// IPv6 address of the job's interface in that listing.
pub fn requests_after_scan(job: &SyncJob, scan: &Result<Vec<InterfaceInfo>, String>) -> (reqs:
    Vec<UpdateRequest>)
    ensures
        scan is Err ==> reqs@.len() == 0,
        scan matches Ok(list) ==> request_views(reqs@) == planned_requests(
            job.domains@,
            job.token@,
            primary_of(list@, job.interface@).0,
            primary_of(list@, job.interface@).1,
        ),
{
    match scan {
        Ok(list) => {
            let addrs = first_addrs(list, job.interface.as_str());
            requests_for(job, &addrs)
        },
        Err(_) => Vec::new(),
    }
}

/// One sync pass as planned: the interface scan it made (none when the pass
/// has nothing to do) and the update requests it sends.
#[derive(Debug)]
pub struct SyncPass {
    pub scan: Option<Result<Vec<InterfaceInfo>, String>>,
    pub requests: Vec<UpdateRequest>,
}

/// Plans one sync pass over `cfg`. A disabled or incomplete config (see
/// [`sync_job`]) scans nothing and sends nothing; otherwise the machine's
/// interfaces are scanned, a failed scan sends nothing, and a listing sends
/// one request per configured hostname carrying the configured interface's
/// first IPv4 and IPv6 address in it.
pub fn pass_requests(cfg: &Dynv6Config) -> (p: SyncPass)
    ensures
        p.scan is None <==> !(cfg.enabled && cfg.domains@.len() > 0 && cfg.token is Some
            && cfg.interface is Some),
        p.scan is None ==> p.requests@.len() == 0,
        p.scan matches Some(Err(_)) ==> p.requests@.len() == 0,
        p.scan matches Some(Ok(list)) ==> request_views(p.requests@) == planned_requests(
            cfg.domains@,
            cfg.token->0@,
            primary_of(list@, cfg.interface->0@).0,
            primary_of(list@, cfg.interface->0@).1,
        ),
{
    match sync_job(cfg) {
        None => SyncPass { scan: None, requests: Vec::new() },
        Some(job) => {
            let scan = scan_interfaces();
            let requests = requests_after_scan(&job, &scan);
            SyncPass { scan: Some(scan), requests }
        },
    }
}

fn copy_outcome(o: &SyncOutcome) -> (c: SyncOutcome)
    ensures
        c == *o,
{
    match o {
        SyncOutcome::Accepted => SyncOutcome::Accepted,
        SyncOutcome::Rejected { status, body } => SyncOutcome::Rejected {
            status: status.clone(),
            body: body.clone(),
        },
        SyncOutcome::Failed { error } => SyncOutcome::Failed { error: error.clone() },
    }
}

/// The statuses a sync pass stores as the current ones: for each request,
/// in order, the status its attempt time and outcome give; an empty list
/// for a pass that sent nothing.
pub fn pass_statuses(reqs: &Vec<UpdateRequest>, results: &Vec<(String, SyncOutcome)>) -> (v: Vec<
    Dynv6SyncStatus,
>)
    requires
        results@.len() == reqs@.len(),
    ensures
        v@.len() == reqs@.len(),
        forall|i: int|
            0 <= i < reqs@.len() ==> is_status_for(
                #[trigger] v@[i],
                reqs@[i].hostname@,
                results@[i].0,
                results@[i].1,
            ),
{
    let mut v: Vec<Dynv6SyncStatus> = Vec::new();
    let n = reqs.len();
    for i in 0..n
        invariant
            n == reqs@.len(),
            results@.len() == n,
            v@.len() == i,
            forall|j: int|
                0 <= j < i ==> is_status_for(
                    #[trigger] v@[j],
                    reqs@[j].hostname@,
                    results@[j].0,
                    results@[j].1,
                ),
    {
        let st = sync_status(
            reqs[i].hostname.as_str(),
            results[i].0.clone(),
            copy_outcome(&results[i].1),
        );
        v.push(st);
    }
    v
}

#[verifier::external_type_specification]
#[verifier::external_body]
pub struct ExSystemTime(std::time::SystemTime);

#[verifier::external_type_specification]
#[verifier::external_body]
pub struct ExSystemTimeError(std::time::SystemTimeError);

/// The current time of the system clock.
/// Trusted: `std::time::SystemTime::now`; it reads the clock, so nothing is
/// stated of it.
#[verifier::external_body]
fn clock_now() -> std::time::SystemTime {
    std::time::SystemTime::now()
}

/// How long after the Unix epoch `t` lies, or an error when it lies before.
/// Trusted: `SystemTime::duration_since` with `UNIX_EPOCH`; which of the two
/// comes back depends on the clock reading, so nothing is stated of it.
#[verifier::external_body]
fn since_unix_epoch(t: &std::time::SystemTime) -> Result<
    std::time::Duration,
    std::time::SystemTimeError,
> {
    t.duration_since(std::time::UNIX_EPOCH)
}

/// The whole seconds of a duration.
/// Trusted: `Duration::as_secs`; a `Duration` is opaque here, so nothing is
/// stated of the number.
#[verifier::external_body]
fn whole_secs(d: &std::time::Duration) -> u64 {
    d.as_secs()
}

/// The timestamp text for a clock reading: the decimal seconds since the
/// epoch, or "0" for a clock that reads earlier than the epoch (`None`).
pub fn epoch_text(secs: Option<u64>) -> (s: String)
    ensures
        s@ == dec(
            match secs {
                Some(t) => t as nat,
                None => 0,
            },
        ),
{
    match secs {
        Some(t) => dec_string(t),
        None => dec_string(0),
    }
}

/// The current time as decimal seconds since the Unix epoch ("0" when the
/// clock reads earlier than the epoch).
pub fn now_epoch_secs() -> (s: String)
    ensures
        exists|t: u64| s@ == dec(t as nat),
{
    let now = clock_now();
    let secs = match since_unix_epoch(&now) {
        Ok(d) => Some(whole_secs(&d)),
        Err(_) => None,
    };
    let s = epoch_text(secs);
    proof {
        let t: u64 = match secs {
            Some(t) => t,
            None => 0,
        };
        assert(s@ == dec(t as nat));
    }
    s
}

} // verus!

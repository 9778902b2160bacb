use vstd::prelude::*;
use crate::cloudflare::zones::{
    chooses_most_specific, get_most_specific_zone, lemma_most_specific_zone, most_specific_zone,
    zone_views, Zone, ZoneView,
};
use crate::ip::{ip_text, IpAddr};
use crate::text::{count_dots, decimal, decimal_text, is_label_suffix, last_two_labels};
use crate::update::{
    classify_failure, context_message, get_sld, spec_classify_failure, RecordUpdate,
    RecordUpdateView, TransportFailure, UpdateError, UpdateErrorView,
};

verus! {

/// A DNS record as the API reports it.
#[derive(Debug)]
pub struct RecordResponse {
    pub id: String,
    pub modified_on: String,
}

pub struct RecordResponseView {
    pub id: Seq<char>,
    pub modified_on: Seq<char>,
}

impl View for RecordResponse {
    type V = RecordResponseView;

    open spec fn view(&self) -> RecordResponseView {
        RecordResponseView { id: self.id@, modified_on: self.modified_on@ }
    }
}

/// The body of a request that rewrites an existing record.
#[derive(Debug)]
pub struct UpdateBody {
    pub name: String,
    pub content: String,
    pub comment: String,
    pub record_type: String,
}

/// The body of a request that creates a record.
#[derive(Debug)]
pub struct CreateBody {
    pub name: String,
    pub content: String,
    pub comment: String,
    pub record_type: String,
    pub proxied: bool,
}

pub struct BodyView {
    pub name: Seq<char>,
    pub content: Seq<char>,
    pub comment: Seq<char>,
    pub record_type: Seq<char>,
}

impl View for UpdateBody {
    type V = BodyView;

    open spec fn view(&self) -> BodyView {
        BodyView {
            name: self.name@,
            content: self.content@,
            comment: self.comment@,
            record_type: self.record_type@,
        }
    }
}

impl View for CreateBody {
    type V = BodyView;

    open spec fn view(&self) -> BodyView {
        BodyView {
            name: self.name@,
            content: self.content@,
            comment: self.comment@,
            record_type: self.record_type@,
        }
    }
}

/// The DNS record type that holds an address of this family.
pub open spec fn record_type_of(ip: IpAddr) -> Seq<char> {
    match ip {
        IpAddr::V4(_) => "A"@,
        IpAddr::V6(_) => "AAAA"@,
    }
}

/// The comment left on a record written at `millis` milliseconds past the
/// Unix epoch.
pub open spec fn comment_at(millis: nat) -> Seq<char> {
    "Updated by rusty_ddns client for Cloudflare at "@ + decimal(millis)
}

/// The body that writes `ip` to the record `record_name` at `millis`.
pub open spec fn body_at(ip: IpAddr, record_name: Seq<char>, millis: nat) -> BodyView {
    BodyView {
        name: record_name,
        content: ip_text(ip),
        comment: comment_at(millis),
        record_type: record_type_of(ip),
    }
}

/// Time elapsed since the Unix epoch by the system clock
/// (`SystemTime::elapsed` on `UNIX_EPOCH`), `None` where the clock reads
/// earlier than the epoch. Nothing is claimed of the value.
#[verifier::external_body]
fn elapsed_since_epoch() -> Option<std::time::Duration> {
    match std::time::UNIX_EPOCH.elapsed() {
        Ok(d) => Some(d),
        Err(_) => None,
    }
}

/// `Duration::as_millis`: the whole milliseconds of a duration. Nothing is
/// claimed of the value.
#[verifier::external_body]
fn duration_millis(d: &std::time::Duration) -> u128 {
    d.as_millis()
}

/// The current time in milliseconds since the Unix epoch (zero where the
/// clock reads earlier than the epoch).
pub(crate) fn now_millis() -> u128 {
    match elapsed_since_epoch() {
        Some(d) => duration_millis(&d),
        None => 0,
    }
}

fn record_type_text(ip: &IpAddr) -> (t: String)
    ensures
        t@ == record_type_of(*ip),
{
    match ip {
        IpAddr::V4(_) => String::from_str("A"),
        IpAddr::V6(_) => String::from_str("AAAA"),
    }
}

fn comment_text(millis: u128) -> (c: String)
    ensures
        c@ == comment_at(millis as nat),
{
    let mut c = String::from_str("Updated by rusty_ddns client for Cloudflare at ");
    c.append(decimal_text(millis).as_str());
    c
}

/// The body that rewrites the record `record_name` to hold `ip`, stamped with
/// the time `millis`.
pub fn get_body_at(ip: &IpAddr, record_name: &str, millis: u128) -> (b: UpdateBody)
    ensures
        b@ == body_at(*ip, record_name@, millis as nat),
{
    UpdateBody {
        name: record_name.to_owned(),
        content: ip.to_text(),
        comment: comment_text(millis),
        record_type: record_type_text(ip),
    }
}

/// The body that creates the record `record_name` holding `ip`, unproxied,
/// stamped with the time `millis`.
pub fn get_create_body_at(ip: &IpAddr, record_name: &str, millis: u128) -> (b: CreateBody)
    ensures
        b@ == body_at(*ip, record_name@, millis as nat),
        !b.proxied,
{
    CreateBody {
        name: record_name.to_owned(),
        content: ip.to_text(),
        comment: comment_text(millis),
        record_type: record_type_text(ip),
        proxied: false,
    }
}

/// The body that rewrites the record `record_name` to hold `ip`, stamped with
/// the current time.
pub fn get_body(ip: &IpAddr, record_name: &str) -> (b: UpdateBody)
    ensures
        exists|millis: nat| b@ == body_at(*ip, record_name@, millis),
{
    get_body_at(ip, record_name, now_millis())
}

/// The body that creates the record `record_name` holding `ip`, unproxied,
/// stamped with the current time.
pub fn get_create_body(ip: &IpAddr, record_name: &str) -> (b: CreateBody)
    ensures
        exists|millis: nat| b@ == body_at(*ip, record_name@, millis),
        !b.proxied,
{
    get_create_body_at(ip, record_name, now_millis())
}

/// HTTP methods that the API is called with.
#[derive(Debug, Clone, Copy, PartialEq, Eq, Structural)]
pub enum HttpMethod {
    Get,
    Post,
    Patch,
}

/// What the `result` field of a reply is read as.
#[derive(Debug, Clone, Copy, PartialEq, Eq, Structural)]
pub enum ReplyKind {
    Zones,
    Records,
    Record,
}

/// The JSON body sent with a request, if any.
#[derive(Debug)]
pub enum RequestBody {
    Empty,
    Update(UpdateBody),
    Create(CreateBody),
}

pub enum RequestBodyView {
    Empty,
    Update(BodyView),
    Create(BodyView, bool),
}

impl View for RequestBody {
    type V = RequestBodyView;

    open spec fn view(&self) -> RequestBodyView {
        match self {
            RequestBody::Empty => RequestBodyView::Empty,
            RequestBody::Update(b) => RequestBodyView::Update(b@),
            RequestBody::Create(b) => RequestBodyView::Create(b@, b.proxied),
        }
    }
}

/// One call of the Cloudflare API.
#[derive(Debug)]
pub struct ApiRequest {
    pub method: HttpMethod,
    pub url: String,
    /// The value of the `Authorization` header.
    pub authorization: String,
    /// The query parameters, in order.
    pub query: Vec<(String, String)>,
    pub body: RequestBody,
    /// How the reply's `result` field is to be read.
    pub reply: ReplyKind,
}

pub struct ApiRequestView {
    pub method: HttpMethod,
    pub url: Seq<char>,
    pub authorization: Seq<char>,
    pub query: Seq<(Seq<char>, Seq<char>)>,
    pub body: RequestBodyView,
    pub reply: ReplyKind,
}

impl View for ApiRequest {
    type V = ApiRequestView;

    open spec fn view(&self) -> ApiRequestView {
        ApiRequestView {
            method: self.method,
            url: self.url@,
            authorization: self.authorization@,
            query: self.query@.map_values(|p: (String, String)| (p.0@, p.1@)),
            body: self.body@,
            reply: self.reply,
        }
    }
}

pub open spec fn zones_url() -> Seq<char> {
    "https://api.cloudflare.com/client/v4/zones"@
}

pub open spec fn records_url(zone_id: Seq<char>) -> Seq<char> {
    zones_url() + "/"@ + zone_id + "/dns_records"@
}

pub open spec fn record_url(zone_id: Seq<char>, record_id: Seq<char>) -> Seq<char> {
    records_url(zone_id) + "/"@ + record_id
}

pub open spec fn bearer(api_token: Seq<char>) -> Seq<char> {
    "Bearer "@ + api_token
}

/// Lists the zones whose name contains the last two labels of the record name.
pub open spec fn zone_lookup_request_view(record_name: Seq<char>, api_token: Seq<char>) -> ApiRequestView {
    ApiRequestView {
        method: HttpMethod::Get,
        url: zones_url(),
        authorization: bearer(api_token),
        query: seq![("name.contains"@, last_two_labels(record_name))],
        body: RequestBodyView::Empty,
        reply: ReplyKind::Zones,
    }
}

/// Lists the records of the zone with exactly this name and type.
pub open spec fn record_lookup_request_view(
    record_name: Seq<char>,
    zone_id: Seq<char>,
    api_token: Seq<char>,
    record_type: Seq<char>,
) -> ApiRequestView {
    ApiRequestView {
        method: HttpMethod::Get,
        url: records_url(zone_id),
        authorization: bearer(api_token),
        query: seq![("name.exact"@, record_name), ("type"@, record_type)],
        body: RequestBodyView::Empty,
        reply: ReplyKind::Records,
    }
}

/// Rewrites the record `record_id` of the zone to hold `ip`.
pub open spec fn record_update_request_view(
    api_token: Seq<char>,
    zone_id: Seq<char>,
    record_id: Seq<char>,
    ip: IpAddr,
    record_name: Seq<char>,
    millis: nat,
) -> ApiRequestView {
    ApiRequestView {
        method: HttpMethod::Patch,
        url: record_url(zone_id, record_id),
        authorization: bearer(api_token),
        query: Seq::empty(),
        body: RequestBodyView::Update(body_at(ip, record_name, millis)),
        reply: ReplyKind::Record,
    }
}

/// Creates, in the zone, an unproxied record `record_name` holding `ip`.
pub open spec fn record_create_request_view(
    api_token: Seq<char>,
    zone_id: Seq<char>,
    ip: IpAddr,
    record_name: Seq<char>,
    millis: nat,
) -> ApiRequestView {
    ApiRequestView {
        method: HttpMethod::Post,
        url: records_url(zone_id),
        authorization: bearer(api_token),
        query: Seq::empty(),
        body: RequestBodyView::Create(body_at(ip, record_name, millis), false),
        reply: ReplyKind::Record,
    }
}

fn bearer_text(api_token: &str) -> (h: String)
    ensures
        h@ == bearer(api_token@),
{
    let mut h = String::from_str("Bearer ");
    h.append(api_token);
    h
}

fn records_url_text(zone_id: &str) -> (u: String)
    ensures
        u@ == records_url(zone_id@),
{
    let mut u = String::from_str("https://api.cloudflare.com/client/v4/zones");
    u.append("/");
    u.append(zone_id);
    u.append("/dns_records");
    u
}

/// The request that looks up the zones a record may belong to.
pub fn zone_lookup_request(record_name: &str, api_token: &str) -> (r: ApiRequest)
    requires
        count_dots(record_name@) >= 1,
    ensures
        r@ == zone_lookup_request_view(record_name@, api_token@),
{
    let mut query: Vec<(String, String)> = Vec::new();
    query.push((String::from_str("name.contains"), get_sld(record_name)));
    let r = ApiRequest {
        method: HttpMethod::Get,
        url: String::from_str("https://api.cloudflare.com/client/v4/zones"),
        authorization: bearer_text(api_token),
        query,
        body: RequestBody::Empty,
        reply: ReplyKind::Zones,
    };
    assert(r@.query =~= zone_lookup_request_view(record_name@, api_token@).query);
    r
}

/// The request that looks up the records of a zone named `record_name` of
/// type `record_type`.
pub fn record_lookup_request(
    record_name: &str,
    zone_id: &str,
    api_token: &str,
    record_type: &str,
) -> (r: ApiRequest)
    ensures
        r@ == record_lookup_request_view(record_name@, zone_id@, api_token@, record_type@),
{
    let mut query: Vec<(String, String)> = Vec::new();
    query.push((String::from_str("name.exact"), record_name.to_owned()));
    query.push((String::from_str("type"), record_type.to_owned()));
    let r = ApiRequest {
        method: HttpMethod::Get,
        url: records_url_text(zone_id),
        authorization: bearer_text(api_token),
        query,
        body: RequestBody::Empty,
        reply: ReplyKind::Records,
    };
    assert(r@.query =~= record_lookup_request_view(
        record_name@,
        zone_id@,
        api_token@,
        record_type@,
    ).query);
    r
}

/// The request that rewrites the record `record_id` to hold `ip`, stamped
/// with the time `millis`.
pub fn record_update_request(
    api_token: &str,
    zone_id: &str,
    record_id: &str,
    ip: &IpAddr,
    record_name: &str,
    millis: u128,
) -> (r: ApiRequest)
    ensures
        r@ == record_update_request_view(
            api_token@,
            zone_id@,
            record_id@,
            *ip,
            record_name@,
            millis as nat,
        ),
{
    let mut url = records_url_text(zone_id);
    url.append("/");
    url.append(record_id);
    let query: Vec<(String, String)> = Vec::new();
    let r = ApiRequest {
        method: HttpMethod::Patch,
        url,
        authorization: bearer_text(api_token),
        query,
        body: RequestBody::Update(get_body_at(ip, record_name, millis)),
        reply: ReplyKind::Record,
    };
    assert(r@.query =~= Seq::<(Seq<char>, Seq<char>)>::empty());
    r
}

/// The request that creates the record `record_name` holding `ip`, stamped
/// with the time `millis`.
pub fn record_create_request(
    api_token: &str,
    zone_id: &str,
    ip: &IpAddr,
    record_name: &str,
    millis: u128,
) -> (r: ApiRequest)
    ensures
        r@ == record_create_request_view(api_token@, zone_id@, *ip, record_name@, millis as nat),
{
    let query: Vec<(String, String)> = Vec::new();
    let r = ApiRequest {
        method: HttpMethod::Post,
        url: records_url_text(zone_id),
        authorization: bearer_text(api_token),
        query,
        body: RequestBody::Create(get_create_body_at(ip, record_name, millis)),
        reply: ReplyKind::Record,
    };
    assert(r@.query =~= Seq::<(Seq<char>, Seq<char>)>::empty());
    r
}

/// What came back from one call of the API, as the library reads it.
pub enum ApiOutcome<T> {
    /// The request could not be sent or its response not received.
    Failed(TransportFailure),
    /// The response body is not JSON; the parse error's `{:#?}` text.
    Unreadable(String),
    /// A JSON reply.
    Replied(ApiReply<T>),
}

/// A JSON reply of the API.
pub struct ApiReply<T> {
    /// The `success` field: absent, or whether it holds a boolean and which.
    pub success: Option<Option<bool>>,
    /// The `result` field.
    pub result: ReplyResult<T>,
    /// The whole reply's `{:#?}` text.
    pub dump: String,
}

/// The `result` field of a reply.
pub enum ReplyResult<T> {
    Absent,
    /// Present but not of the expected shape; the decoder's `{:#?}` text.
    Undecodable(String),
    Decoded(T),
}

/// The reply reports failure: its `success` field is the boolean `false`.
pub open spec fn spec_is_unsuccessful(success: Option<Option<bool>>) -> bool {
    success == Some(Some(false))
}

/// Whether a reply with this `success` field reports failure.
pub fn reply_is_unsuccessful(success: &Option<Option<bool>>) -> (r: bool)
    ensures
        r == spec_is_unsuccessful(*success),
{
    match success {
        Some(Some(false)) => true,
        _ => false,
    }
}

/// What one call of the API gives: the decoded `result` field where there is
/// one, nothing where the field is absent, or the error it is reported as.
pub open spec fn spec_read_outcome<T>(o: ApiOutcome<T>) -> Result<Option<T>, UpdateErrorView> {
    match o {
        ApiOutcome::Failed(f) => Err(spec_classify_failure(f@)),
        ApiOutcome::Unreadable(d) => Err(
            UpdateErrorView::Fatal("Failed to parse response, error: ["@ + d@ + "]"@),
        ),
        ApiOutcome::Replied(r) => if spec_is_unsuccessful(r.success) {
            Err(
                UpdateErrorView::Fatal(
                    "Received unsuccessful response from CloudFlare API, response: ["@ + r.dump@
                        + "]"@,
                ),
            )
        } else {
            match r.result {
                ReplyResult::Absent => Ok(None),
                ReplyResult::Undecodable(d) => Err(
                    UpdateErrorView::Fatal(
                        "Failed to deserialize response: ["@ + r.dump@ + "], error: ["@ + d@
                            + "]"@,
                    ),
                ),
                ReplyResult::Decoded(v) => Ok(Some(v)),
            }
        },
    }
}

pub open spec fn result_error_view<T>(r: Result<T, UpdateError>) -> Result<T, UpdateErrorView> {
    match r {
        Ok(v) => Ok(v),
        Err(e) => Err(e@),
    }
}

/// Reads what one call of the API gave (see `spec_read_outcome`).
pub fn read_outcome<T>(o: ApiOutcome<T>) -> (r: Result<Option<T>, UpdateError>)
    ensures
        result_error_view(r) == spec_read_outcome(o),
{
    match o {
        ApiOutcome::Failed(f) => Err(classify_failure(&f)),
        ApiOutcome::Unreadable(d) => {
            let mut m = String::from_str("Failed to parse response, error: [");
            m.append(d.as_str());
            m.append("]");
            Err(UpdateError::Fatal(m))
        },
        ApiOutcome::Replied(r) => {
            if reply_is_unsuccessful(&r.success) {
                let mut m = String::from_str(
                    "Received unsuccessful response from CloudFlare API, response: [",
                );
                m.append(r.dump.as_str());
                m.append("]");
                return Err(UpdateError::Fatal(m));
            }
            match r.result {
                ReplyResult::Absent => Ok(None),
                ReplyResult::Undecodable(d) => {
                    let mut m = String::from_str("Failed to deserialize response: [");
                    m.append(r.dump.as_str());
                    m.append("], error: [");
                    m.append(d.as_str());
                    m.append("]");
                    Err(UpdateError::Fatal(m))
                },
                ReplyResult::Decoded(v) => Ok(Some(v)),
            }
        },
    }
}

pub open spec fn no_zone_message(record_name: Seq<char>) -> Seq<char> {
    "Could not find zone for record name: ["@ + record_name + "]"@
}

/// The zone a record belongs to, from the reply to the zone lookup.
pub open spec fn spec_zone_from_outcome(record_name: Seq<char>, o: ApiOutcome<Vec<Zone>>) -> Result<
    ZoneView,
    UpdateErrorView,
> {
    match spec_read_outcome(o) {
        Err(e) => Err(
            e.with_message(
                context_message("Failed to get zone for record name: ["@, record_name, e),
            ),
        ),
        Ok(None) => Err(UpdateErrorView::Fatal(no_zone_message(record_name))),
        Ok(Some(zones)) => match most_specific_zone(zone_views(zones@), record_name) {
            Some(z) => Ok(z),
            None => Err(UpdateErrorView::Fatal(no_zone_message(record_name))),
        },
    }
}

fn no_zone_error(record_name: &str) -> (e: UpdateError)
    ensures
        e@ == UpdateErrorView::Fatal(no_zone_message(record_name@)),
{
    let mut m = String::from_str("Could not find zone for record name: [");
    m.append(record_name);
    m.append("]");
    UpdateError::Fatal(m)
}

/// The zone that `record_name` belongs to, from the reply to the zone lookup.
pub fn zone_from_outcome(record_name: &str, o: ApiOutcome<Vec<Zone>>) -> (r: Result<
    Zone,
    UpdateError,
>)
    ensures
        match r {
            Ok(z) => spec_zone_from_outcome(record_name@, o) == Ok::<ZoneView, UpdateErrorView>(z@),
            Err(e) => spec_zone_from_outcome(record_name@, o) == Err::<ZoneView, UpdateErrorView>(e@),
        },
{
    match read_outcome(o) {
        Err(e) => Err(e.with_context("Failed to get zone for record name: [", record_name)),
        Ok(None) => Err(no_zone_error(record_name)),
        Ok(Some(zones)) => match get_most_specific_zone(zones.as_slice(), record_name) {
            Some(z) => Ok(z),
            None => Err(no_zone_error(record_name)),
        },
    }
}

pub open spec fn option_response_view(r: Option<RecordResponse>) -> Option<RecordResponseView> {
    match r {
        Some(v) => Some(v@),
        None => None,
    }
}

/// The record found by a record lookup: the first one listed, if any.
pub open spec fn spec_record_from_lookup(
    record_name: Seq<char>,
    o: ApiOutcome<Vec<RecordResponse>>,
) -> Result<Option<RecordResponseView>, UpdateErrorView> {
    match spec_read_outcome(o) {
        Err(e) => Err(
            e.with_message(context_message("Failed to find record name: ["@, record_name, e)),
        ),
        Ok(None) => Ok(None),
        Ok(Some(records)) => if records@.len() > 0 {
            Ok(Some(records@[0]@))
        } else {
            Ok(None)
        },
    }
}

/// The record found by a record lookup for `record_name`, from its reply.
pub fn record_from_lookup(record_name: &str, o: ApiOutcome<Vec<RecordResponse>>) -> (r: Result<
    Option<RecordResponse>,
    UpdateError,
>)
    ensures
        match r {
            Ok(v) => spec_record_from_lookup(record_name@, o) == Ok::<
                Option<RecordResponseView>,
                UpdateErrorView,
            >(option_response_view(v)),
            Err(e) => spec_record_from_lookup(record_name@, o) == Err::<
                Option<RecordResponseView>,
                UpdateErrorView,
            >(e@),
        },
{
    match read_outcome(o) {
        Err(e) => Err(e.with_context("Failed to find record name: [", record_name)),
        Ok(None) => Ok(None),
        Ok(Some(records)) => {
            let mut records = records;
            if records.len() > 0 {
                let first = records.remove(0);
                Ok(Some(first))
            } else {
                Ok(None)
            }
        },
    }
}

/// What a record write reports: the address, the record's name and the
/// modification time the API gave.
pub open spec fn written_record(ip: IpAddr, record_name: Seq<char>, written: RecordResponseView) -> RecordUpdateView {
    RecordUpdateView { ip, record_name, modified_on: written.modified_on }
}

pub open spec fn empty_create_message(zone_id: Seq<char>, record_name: Seq<char>) -> Seq<char> {
    "Received emtpy response when creating record for zone ID: ["@ + zone_id + "], name: ["@
        + record_name + "]"@
}

pub open spec fn empty_update_message(
    zone_id: Seq<char>,
    record_id: Seq<char>,
    record_name: Seq<char>,
) -> Seq<char> {
    "Received emtpy response when updating record for zone ID: ["@ + zone_id + "], record ID: ["@
        + record_id + "], name: ["@ + record_name + "]"@
}

/// The result of creating the record, from the reply to the create request.
pub open spec fn spec_created_record(
    zone_id: Seq<char>,
    ip: IpAddr,
    record_name: Seq<char>,
    o: ApiOutcome<RecordResponse>,
) -> Result<RecordUpdateView, UpdateErrorView> {
    match spec_read_outcome(o) {
        Err(e) => Err(
            e.with_message(context_message("Failed to create record name: ["@, record_name, e)),
        ),
        Ok(None) => Err(UpdateErrorView::Fatal(empty_create_message(zone_id, record_name))),
        Ok(Some(w)) => Ok(written_record(ip, record_name, w@)),
    }
}

/// The result of rewriting the record, from the reply to the update request.
pub open spec fn spec_updated_record(
    zone_id: Seq<char>,
    record_id: Seq<char>,
    ip: IpAddr,
    record_name: Seq<char>,
    o: ApiOutcome<RecordResponse>,
) -> Result<RecordUpdateView, UpdateErrorView> {
    match spec_read_outcome(o) {
        Err(e) => Err(
            e.with_message(context_message("Failed to update record name: ["@, record_name, e)),
        ),
        Ok(None) => Err(
            UpdateErrorView::Fatal(empty_update_message(zone_id, record_id, record_name)),
        ),
        Ok(Some(w)) => Ok(written_record(ip, record_name, w@)),
    }
}

pub open spec fn record_result_view(r: Result<RecordUpdate, UpdateError>) -> Result<
    RecordUpdateView,
    UpdateErrorView,
> {
    match r {
        Ok(u) => Ok(u@),
        Err(e) => Err(e@),
    }
}

/// The result of creating the record `record_name` in the zone, from the
/// reply to the create request.
pub fn created_record(zone_id: &str, ip: &IpAddr, record_name: &str, o: ApiOutcome<RecordResponse>) -> (r: Result<
    RecordUpdate,
    UpdateError,
>)
    ensures
        record_result_view(r) == spec_created_record(zone_id@, *ip, record_name@, o),
{
    match read_outcome(o) {
        Err(e) => Err(e.with_context("Failed to create record name: [", record_name)),
        Ok(None) => {
            let mut m = String::from_str(
                "Received emtpy response when creating record for zone ID: [",
            );
            m.append(zone_id);
            m.append("], name: [");
            m.append(record_name);
            m.append("]");
            Err(UpdateError::Fatal(m))
        },
        Ok(Some(w)) => Ok(
            RecordUpdate { ip: *ip, record_name: record_name.to_owned(), modified_on: w.modified_on },
        ),
    }
}

/// The result of rewriting the record `record_id` of the zone, from the
/// reply to the update request.
pub fn updated_record(
    zone_id: &str,
    record_id: &str,
    ip: &IpAddr,
    record_name: &str,
    o: ApiOutcome<RecordResponse>,
) -> (r: Result<RecordUpdate, UpdateError>)
    ensures
        record_result_view(r) == spec_updated_record(zone_id@, record_id@, *ip, record_name@, o),
{
    match read_outcome(o) {
        Err(e) => Err(e.with_context("Failed to update record name: [", record_name)),
        Ok(None) => {
            let mut m = String::from_str(
                "Received emtpy response when updating record for zone ID: [",
            );
            m.append(zone_id);
            m.append("], record ID: [");
            m.append(record_id);
            m.append("], name: [");
            m.append(record_name);
            m.append("]");
            Err(UpdateError::Fatal(m))
        },
        Ok(Some(w)) => Ok(
            RecordUpdate { ip: *ip, record_name: record_name.to_owned(), modified_on: w.modified_on },
        ),
    }
}

/// How the record of one family gets written.
pub enum RecordWrite {
    /// Rewrite the existing record with this id.
    Update(String),
    /// Create the record.
    Create,
}

pub enum RecordWriteView {
    Update(Seq<char>),
    Create,
}

impl View for RecordWrite {
    type V = RecordWriteView;

    open spec fn view(&self) -> RecordWriteView {
        match self {
            RecordWrite::Update(id) => RecordWriteView::Update(id@),
            RecordWrite::Create => RecordWriteView::Create,
        }
    }
}

pub open spec fn creation_disabled_message(record_type: Seq<char>, record_name: Seq<char>) -> Seq<
    char,
> {
    "Could not find existing "@ + record_type + " record for name "@ + record_name
        + ", and record creation is disabled"@
}

/// A found record is rewritten; a missing one is created where creation is
/// allowed, and is a fatal error otherwise.
pub open spec fn spec_record_write(
    found: Option<RecordResponseView>,
    allow_create: bool,
    record_type: Seq<char>,
    record_name: Seq<char>,
) -> Result<RecordWriteView, UpdateErrorView> {
    match found {
        Some(r) => Ok(RecordWriteView::Update(r.id)),
        None => if allow_create {
            Ok(RecordWriteView::Create)
        } else {
            Err(UpdateErrorView::Fatal(creation_disabled_message(record_type, record_name)))
        },
    }
}

/// Decides how the record of type `record_type` named `record_name` gets
/// written, given what the lookup found.
pub fn choose_record_write(
    found: Option<RecordResponse>,
    allow_create: bool,
    record_type: &str,
    record_name: &str,
) -> (r: Result<RecordWrite, UpdateError>)
    ensures
        match r {
            Ok(w) => spec_record_write(option_response_view(found), allow_create, record_type@, record_name@)
                == Ok::<RecordWriteView, UpdateErrorView>(w@),
            Err(e) => spec_record_write(option_response_view(found), allow_create, record_type@, record_name@)
                == Err::<RecordWriteView, UpdateErrorView>(e@),
        },
{
    match found {
        Some(r) => Ok(RecordWrite::Update(r.id)),
        None => if allow_create {
            Ok(RecordWrite::Create)
        } else {
            let mut m = String::from_str("Could not find existing ");
            m.append(record_type);
            m.append(" record for name ");
            m.append(record_name);
            m.append(", and record creation is disabled");
            Err(UpdateError::Fatal(m))
        },
    }
}

/// The zone taken from a zone lookup is the most specific one the reply
/// lists: it is one of the zones listed, its name is the record name with
/// zero or more leading labels dropped, and no listed zone whose name is such
/// a suffix has a longer name. Where the reply lists zones, a zone is taken
/// exactly when some listed zone's name is such a suffix.
pub proof fn lemma_zone_from_outcome_most_specific(record_name: Seq<char>, o: ApiOutcome<Vec<Zone>>)
    ensures
        spec_zone_from_outcome(record_name, o) matches Ok(z) ==> {
            &&& o matches ApiOutcome::Replied(r)
            &&& !spec_is_unsuccessful(r.success)
            &&& r.result matches ReplyResult::Decoded(zones)
            &&& exists|k: int| 0 <= k < zones@.len() && zone_views(zones@)[k] == z
            &&& is_label_suffix(z.name, record_name)
            &&& forall|k: int|
                0 <= k < zones@.len() && is_label_suffix(#[trigger] zone_views(zones@)[k].name, record_name)
                    ==> zone_views(zones@)[k].name.len() <= z.name.len()
        },
        o matches ApiOutcome::Replied(r) ==> r.result matches ReplyResult::Decoded(zones) ==> (
        !spec_is_unsuccessful(r.success) ==> (spec_zone_from_outcome(record_name, o) is Ok <==> exists|k: int|
            0 <= k < zones@.len() && is_label_suffix(#[trigger] zone_views(zones@)[k].name, record_name))),
{
    if let ApiOutcome::Replied(r) = o {
        if let ReplyResult::Decoded(zones) = r.result {
            lemma_most_specific_zone(zone_views(zones@), record_name);
        }
    }
}

/// A record that the lookup found is always rewritten, the first one listed,
/// whether or not creation is allowed; where none was found, the record is
/// created if creation is allowed, and the write fails as fatal otherwise.
pub proof fn lemma_record_write_follows_lookup(
    found: Option<RecordResponseView>,
    allow_create: bool,
    record_type: Seq<char>,
    record_name: Seq<char>,
)
    ensures
        found matches Some(r) ==> spec_record_write(found, allow_create, record_type, record_name)
            == Ok::<RecordWriteView, UpdateErrorView>(RecordWriteView::Update(r.id)),
        found is None && allow_create ==> spec_record_write(
            found,
            allow_create,
            record_type,
            record_name,
        ) == Ok::<RecordWriteView, UpdateErrorView>(RecordWriteView::Create),
        found is None && !allow_create ==> spec_record_write(
            found,
            allow_create,
            record_type,
            record_name,
        ) matches Err(UpdateErrorView::Fatal(_)),
{
}

} // verus!

//! Keeping DNS records at Cloudflare up to date: choosing the zone of a
//! record, building the API requests, reading the replies, and the update
//! session that strings them together.

pub mod api;
pub mod session;
pub mod zones;

pub use api::{
    created_record, get_body, get_body_at, get_create_body, get_create_body_at, read_outcome,
    record_from_lookup, reply_is_unsuccessful, updated_record, zone_from_outcome,
    zone_lookup_request, ApiOutcome, ApiReply, ApiRequest, CreateBody, HttpMethod,
    RecordResponse, ReplyKind, ReplyResult, RequestBody, UpdateBody,
};
pub use session::{CloudflareUpdateRequest, SessionAction, SessionEvent, UpdateSession};
pub use zones::{get_most_specific_zone, Zone};

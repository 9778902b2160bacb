use vstd::prelude::*;
use crate::cloudflare::api::{
    bearer, choose_record_write, created_record, now_millis, record_create_request,
    record_create_request_view, record_from_lookup, record_lookup_request,
    record_lookup_request_view, record_result_view, record_update_request,
    record_update_request_view, record_url, records_url, spec_created_record, spec_record_from_lookup, spec_record_write,
    spec_updated_record, spec_zone_from_outcome, updated_record, zone_from_outcome,
    zone_lookup_request, zone_lookup_request_view, ApiOutcome, ApiRequest, ApiRequestView,
    HttpMethod, RecordResponse, RecordResponseView, RecordWrite, RecordWriteView, ReplyKind,
    RequestBodyView,
};
use crate::cloudflare::zones::Zone;
use crate::ip::{ip_text, IpAddr};
use crate::text::count_dots;
use crate::update::{
    option_record_view, RecordUpdate, RecordUpdateView, TransportFailure, UpdateError,
    UpdateErrorView, UpdateResponse, UpdateResponseView,
};

verus! {

/// What a Cloudflare update needs: credentials, the record's name, the
/// addresses to publish and whether missing records may be created.
pub struct CloudflareUpdateRequest {
    pub api_token: String,
    pub record_name: String,
    pub ipv4addr: Option<IpAddr>,
    pub ipv6addr: Option<IpAddr>,
    pub allow_create: bool,
}

impl CloudflareUpdateRequest {
    pub fn new(
        api_token: String,
        record_name: String,
        ipv4addr: Option<IpAddr>,
        ipv6addr: Option<IpAddr>,
        allow_create: bool,
    ) -> (r: Self)
        ensures
            r.api_token == api_token,
            r.record_name == record_name,
            r.ipv4addr == ipv4addr,
            r.ipv6addr == ipv6addr,
            r.allow_create == allow_create,
    {
        CloudflareUpdateRequest { api_token, record_name, ipv4addr, ipv6addr, allow_create }
    }
}

/// An address family, and with it a DNS record type.
#[derive(Debug, Clone, Copy, PartialEq, Eq, Structural)]
pub enum Family {
    V4,
    V6,
}

/// The DNS record type that holds an address of the family.
pub open spec fn family_record_type(f: Family) -> Seq<char> {
    match f {
        Family::V4 => "A"@,
        Family::V6 => "AAAA"@,
    }
}

fn family_record_type_text(f: Family) -> (t: String)
    ensures
        t@ == family_record_type(f),
{
    match f {
        Family::V4 => String::from_str("A"),
        Family::V6 => String::from_str("AAAA"),
    }
}

/// Where an update session stands.
pub enum Stage {
    /// Waiting for the zone lookup.
    LookingUpZone,
    /// Waiting for the lookup of the family's record.
    LookingUpRecord(Family),
    /// Waiting for the rewrite of the family's record with this id.
    Updating(Family, String),
    /// Waiting for the creation of the family's record.
    Creating(Family),
    /// Nothing left to do.
    Finished,
}

pub enum StageView {
    LookingUpZone,
    LookingUpRecord(Family),
    Updating(Family, Seq<char>),
    Creating(Family),
    Finished,
}

impl View for Stage {
    type V = StageView;

    open spec fn view(&self) -> StageView {
        match self {
            Stage::LookingUpZone => StageView::LookingUpZone,
            Stage::LookingUpRecord(f) => StageView::LookingUpRecord(*f),
            Stage::Updating(f, id) => StageView::Updating(*f, id@),
            Stage::Creating(f) => StageView::Creating(*f),
            Stage::Finished => StageView::Finished,
        }
    }
}

/// One Cloudflare update in progress: the zone is looked up, then for each
/// family that has an address, the record is looked up and rewritten or
/// created. The caller performs each request that `start` and `step` hand
/// out and hands back what came of it.
pub struct UpdateSession {
    pub request: CloudflareUpdateRequest,
    pub stage: Stage,
    pub zone_id: String,
    pub ipv4_update: Option<RecordUpdate>,
    pub ipv6_update: Option<RecordUpdate>,
}

pub struct SessionView {
    pub api_token: Seq<char>,
    pub record_name: Seq<char>,
    pub ipv4addr: Option<IpAddr>,
    pub ipv6addr: Option<IpAddr>,
    pub allow_create: bool,
    pub stage: StageView,
    pub zone_id: Seq<char>,
    pub ipv4_update: Option<RecordUpdateView>,
    pub ipv6_update: Option<RecordUpdateView>,
}

impl View for UpdateSession {
    type V = SessionView;

    open spec fn view(&self) -> SessionView {
        SessionView {
            api_token: self.request.api_token@,
            record_name: self.request.record_name@,
            ipv4addr: self.request.ipv4addr,
            ipv6addr: self.request.ipv6addr,
            allow_create: self.request.allow_create,
            stage: self.stage@,
            zone_id: self.zone_id@,
            ipv4_update: option_record_view(self.ipv4_update),
            ipv6_update: option_record_view(self.ipv6_update),
        }
    }
}

/// What an answer to a request of the session is.
pub enum SessionEvent {
    Zones(ApiOutcome<Vec<Zone>>),
    Records(ApiOutcome<Vec<RecordResponse>>),
    Record(ApiOutcome<RecordResponse>),
}

/// What the session asks of its caller next.
pub enum SessionAction {
    /// Perform this request and hand back what came of it.
    Send(ApiRequest),
    /// The update is over, with this result.
    Finish(Result<UpdateResponse, UpdateError>),
}

pub enum ActionView {
    Send(ApiRequestView),
    Finish(Result<UpdateResponseView, UpdateErrorView>),
}

impl View for SessionAction {
    type V = ActionView;

    open spec fn view(&self) -> ActionView {
        match self {
            SessionAction::Send(r) => ActionView::Send(r@),
            SessionAction::Finish(Ok(resp)) => ActionView::Finish(Ok(resp@)),
            SessionAction::Finish(Err(e)) => ActionView::Finish(Err(e@)),
        }
    }
}

/// The address of a family in the session's request.
pub open spec fn address_of(s: SessionView, f: Family) -> Option<IpAddr> {
    match f {
        Family::V4 => s.ipv4addr,
        Family::V6 => s.ipv6addr,
    }
}

/// The event answers the request that the stage waits for.
pub open spec fn event_fits(stage: StageView, e: SessionEvent) -> bool {
    match stage {
        StageView::LookingUpZone => e is Zones,
        StageView::LookingUpRecord(_) => e is Records,
        StageView::Updating(_, _) => e is Record,
        StageView::Creating(_) => e is Record,
        StageView::Finished => false,
    }
}

/// A family that the session works on has an address.
pub open spec fn session_wf(s: SessionView) -> bool {
    match s.stage {
        StageView::LookingUpRecord(f) => address_of(s, f) is Some,
        StageView::Updating(f, _) => address_of(s, f) is Some,
        StageView::Creating(f) => address_of(s, f) is Some,
        _ => true,
    }
}

/// The session ends with this result.
pub open spec fn finish_with(s: SessionView, r: Result<UpdateResponseView, UpdateErrorView>) -> (
    SessionView,
    ActionView,
) {
    (SessionView { stage: StageView::Finished, ..s }, ActionView::Finish(r))
}

/// The session looks up the record of family `f`.
pub open spec fn look_up(s: SessionView, f: Family) -> (SessionView, ActionView) {
    (
        SessionView { stage: StageView::LookingUpRecord(f), ..s },
        ActionView::Send(
            record_lookup_request_view(s.record_name, s.zone_id, s.api_token, family_record_type(f)),
        ),
    )
}

/// The session ends successfully with the records written.
/// The records written are handed over with the result.
pub open spec fn succeed(s: SessionView) -> (SessionView, ActionView) {
    (
        SessionView { stage: StageView::Finished, ipv4_update: None, ipv6_update: None, ..s },
        ActionView::Finish(
            Ok(UpdateResponseView { ipv4_update: s.ipv4_update, ipv6_update: s.ipv6_update }),
        ),
    )
}

/// The family worked on after `f`, if any.
pub open spec fn family_after(f: Family) -> Option<Family> {
    match f {
        Family::V4 => Some(Family::V6),
        Family::V6 => None,
    }
}

/// The families are worked on in order, IPv4 first, starting from `from`; a
/// family without an address is passed over; once none is left the session
/// succeeds with the records written.
pub open spec fn advance(s: SessionView, from: Option<Family>) -> (SessionView, ActionView) {
    match from {
        Some(Family::V4) => if s.ipv4addr is Some {
            look_up(s, Family::V4)
        } else if s.ipv6addr is Some {
            look_up(s, Family::V6)
        } else {
            succeed(s)
        },
        Some(Family::V6) => if s.ipv6addr is Some {
            look_up(s, Family::V6)
        } else {
            succeed(s)
        },
        None => succeed(s),
    }
}

/// The session with family `f`'s record written as `u`.
pub open spec fn with_written(s: SessionView, f: Family, u: RecordUpdateView) -> SessionView {
    match f {
        Family::V4 => SessionView { ipv4_update: Some(u), ..s },
        Family::V6 => SessionView { ipv6_update: Some(u), ..s },
    }
}

/// After family `f`'s record was written, or failed to be.
pub open spec fn after_write(s: SessionView, f: Family, r: Result<RecordUpdateView, UpdateErrorView>) -> (
    SessionView,
    ActionView,
) {
    match r {
        Err(err) => finish_with(s, Err(err)),
        Ok(u) => advance(with_written(s, f, u), family_after(f)),
    }
}

/// The next state of a session and what it asks for, given the answer `e` to
/// its pending request, with `millis` the time stamped on record bodies.
pub open spec fn spec_next(s: SessionView, e: SessionEvent, millis: nat) -> (SessionView, ActionView) {
    match (s.stage, e) {
        (StageView::LookingUpZone, SessionEvent::Zones(o)) => match spec_zone_from_outcome(
            s.record_name,
            o,
        ) {
            Err(err) => finish_with(s, Err(err)),
            Ok(z) => advance(SessionView { zone_id: z.id, ..s }, Some(Family::V4)),
        },
        (StageView::LookingUpRecord(f), SessionEvent::Records(o)) => match spec_record_from_lookup(
            s.record_name,
            o,
        ) {
            Err(err) => finish_with(s, Err(err)),
            Ok(found) => match spec_record_write(
                found,
                s.allow_create,
                family_record_type(f),
                s.record_name,
            ) {
                Err(err) => finish_with(s, Err(err)),
                Ok(RecordWriteView::Update(id)) => (
                    SessionView { stage: StageView::Updating(f, id), ..s },
                    ActionView::Send(
                        record_update_request_view(
                            s.api_token,
                            s.zone_id,
                            id,
                            address_of(s, f)->Some_0,
                            s.record_name,
                            millis,
                        ),
                    ),
                ),
                Ok(RecordWriteView::Create) => (
                    SessionView { stage: StageView::Creating(f), ..s },
                    ActionView::Send(
                        record_create_request_view(
                            s.api_token,
                            s.zone_id,
                            address_of(s, f)->Some_0,
                            s.record_name,
                            millis,
                        ),
                    ),
                ),
            },
        },
        (StageView::Updating(f, id), SessionEvent::Record(o)) => after_write(
            s,
            f,
            spec_updated_record(s.zone_id, id, address_of(s, f)->Some_0, s.record_name, o),
        ),
        (StageView::Creating(f), SessionEvent::Record(o)) => after_write(
            s,
            f,
            spec_created_record(s.zone_id, address_of(s, f)->Some_0, s.record_name, o),
        ),
        _ => (s, ActionView::Finish(Err(UpdateErrorView::Fatal(Seq::empty())))),
    }
}

/// The view of a fresh session for `request`.
pub open spec fn initial_session(request: CloudflareUpdateRequest) -> SessionView {
    SessionView {
        api_token: request.api_token@,
        record_name: request.record_name@,
        ipv4addr: request.ipv4addr,
        ipv6addr: request.ipv6addr,
        allow_create: request.allow_create,
        stage: StageView::LookingUpZone,
        zone_id: Seq::empty(),
        ipv4_update: None,
        ipv6_update: None,
    }
}

impl UpdateSession {
    /// Begins the update of `request`: the zone lookup comes first.
    pub fn start(request: CloudflareUpdateRequest) -> (r: (UpdateSession, SessionAction))
        requires
            count_dots(request.record_name@) >= 1,
        ensures
            r.0@ == initial_session(request),
            session_wf(r.0@),
            r.1@ == ActionView::Send(
                zone_lookup_request_view(request.record_name@, request.api_token@),
            ),
    {
        let req = zone_lookup_request(request.record_name.as_str(), request.api_token.as_str());
        let session = UpdateSession {
            request,
            stage: Stage::LookingUpZone,
            zone_id: String::new(),
            ipv4_update: None,
            ipv6_update: None,
        };
        (session, SessionAction::Send(req))
    }

    /// Whether `e` answers the request that the session waits for.
    pub fn accepts(&self, e: &SessionEvent) -> (r: bool)
        ensures
            r == event_fits(self@.stage, *e),
    {
        match (&self.stage, e) {
            (Stage::LookingUpZone, SessionEvent::Zones(_)) => true,
            (Stage::LookingUpRecord(_), SessionEvent::Records(_)) => true,
            (Stage::Updating(_, _), SessionEvent::Record(_)) => true,
            (Stage::Creating(_), SessionEvent::Record(_)) => true,
            _ => false,
        }
    }

    fn address(&self, f: Family) -> (a: Option<IpAddr>)
        ensures
            a == address_of(self@, f),
    {
        match f {
            Family::V4 => self.request.ipv4addr,
            Family::V6 => self.request.ipv6addr,
        }
    }

    fn finish_err(self, err: UpdateError) -> (r: (UpdateSession, SessionAction))
        ensures
            (r.0@, r.1@) == finish_with(self@, Err(err@)),
    {
        (UpdateSession { stage: Stage::Finished, ..self }, SessionAction::Finish(Err(err)))
    }

    fn succeed(self) -> (r: (UpdateSession, SessionAction))
        ensures
            (r.0@, r.1@) == succeed(self@),
    {
        let response = UpdateResponse { ipv4_update: self.ipv4_update, ipv6_update: self.ipv6_update };
        let session = UpdateSession {
            request: self.request,
            stage: Stage::Finished,
            zone_id: self.zone_id,
            ipv4_update: None,
            ipv6_update: None,
        };
        (session, SessionAction::Finish(Ok(response)))
    }

    fn look_up(self, f: Family) -> (r: (UpdateSession, SessionAction))
        ensures
            (r.0@, r.1@) == look_up(self@, f),
    {
        let record_type = family_record_type_text(f);
        let req = record_lookup_request(
            self.request.record_name.as_str(),
            self.zone_id.as_str(),
            self.request.api_token.as_str(),
            record_type.as_str(),
        );
        (UpdateSession { stage: Stage::LookingUpRecord(f), ..self }, SessionAction::Send(req))
    }

    fn advance(self, from: Option<Family>) -> (r: (UpdateSession, SessionAction))
        ensures
            (r.0@, r.1@) == advance(self@, from),
    {
        let try_v4 = match from {
            Some(Family::V4) => true,
            _ => false,
        };
        let try_v6 = match from {
            Some(_) => true,
            None => false,
        };
        if try_v4 && self.request.ipv4addr.is_some() {
            self.look_up(Family::V4)
        } else if try_v6 && self.request.ipv6addr.is_some() {
            self.look_up(Family::V6)
        } else {
            self.succeed()
        }
    }

    fn after_write(self, f: Family, r: Result<RecordUpdate, UpdateError>) -> (out: (
        UpdateSession,
        SessionAction,
    ))
        ensures
            (out.0@, out.1@) == after_write(self@, f, record_result_view(r)),
    {
        match r {
            Err(err) => self.finish_err(err),
            Ok(u) => match f {
                Family::V4 => {
                    let s = UpdateSession { ipv4_update: Some(u), ..self };
                    s.advance(Some(Family::V6))
                },
                Family::V6 => {
                    let s = UpdateSession { ipv6_update: Some(u), ..self };
                    s.advance(None)
                },
            },
        }
    }

    /// Takes the answer `e` to the pending request; `millis` is the time
    /// stamped on the body of a record write.
    pub fn step_at(self, e: SessionEvent, millis: u128) -> (r: (UpdateSession, SessionAction))
        requires
            session_wf(self@),
            event_fits(self@.stage, e),
        ensures
            (r.0@, r.1@) == spec_next(self@, e, millis as nat),
            session_wf(r.0@),
    {
        let stage = match &self.stage {
            Stage::LookingUpZone => Stage::LookingUpZone,
            Stage::LookingUpRecord(f) => Stage::LookingUpRecord(*f),
            Stage::Updating(f, id) => Stage::Updating(*f, id.clone()),
            Stage::Creating(f) => Stage::Creating(*f),
            Stage::Finished => Stage::Finished,
        };
        assert(stage@ == self.stage@);
        match stage {
            Stage::LookingUpZone => match e {
                SessionEvent::Zones(o) => {
                    match zone_from_outcome(self.request.record_name.as_str(), o) {
                        Err(err) => self.finish_err(err),
                        Ok(z) => {
                            let next = UpdateSession { zone_id: z.id, ..self };
                            next.advance(Some(Family::V4))
                        },
                    }
                },
                _ => (self, SessionAction::Finish(Err(UpdateError::Fatal(String::new())))),
            },
            Stage::LookingUpRecord(f) => match e {
                SessionEvent::Records(o) => {
                    match record_from_lookup(self.request.record_name.as_str(), o) {
                        Err(err) => self.finish_err(err),
                        Ok(found) => {
                            let record_type = family_record_type_text(f);
                            match choose_record_write(
                                found,
                                self.request.allow_create,
                                record_type.as_str(),
                                self.request.record_name.as_str(),
                            ) {
                                Err(err) => self.finish_err(err),
                                Ok(RecordWrite::Update(id)) => {
                                    let ip = self.address(f).unwrap();
                                    let req = record_update_request(
                                        self.request.api_token.as_str(),
                                        self.zone_id.as_str(),
                                        id.as_str(),
                                        &ip,
                                        self.request.record_name.as_str(),
                                        millis,
                                    );
                                    (
                                        UpdateSession { stage: Stage::Updating(f, id), ..self },
                                        SessionAction::Send(req),
                                    )
                                },
                                Ok(RecordWrite::Create) => {
                                    let ip = self.address(f).unwrap();
                                    let req = record_create_request(
                                        self.request.api_token.as_str(),
                                        self.zone_id.as_str(),
                                        &ip,
                                        self.request.record_name.as_str(),
                                        millis,
                                    );
                                    (
                                        UpdateSession { stage: Stage::Creating(f), ..self },
                                        SessionAction::Send(req),
                                    )
                                },
                            }
                        },
                    }
                },
                _ => (self, SessionAction::Finish(Err(UpdateError::Fatal(String::new())))),
            },
            Stage::Updating(f, id) => match e {
                SessionEvent::Record(o) => {
                    let ip = self.address(f).unwrap();
                    let r = updated_record(
                        self.zone_id.as_str(),
                        id.as_str(),
                        &ip,
                        self.request.record_name.as_str(),
                        o,
                    );
                    self.after_write(f, r)
                },
                _ => (self, SessionAction::Finish(Err(UpdateError::Fatal(String::new())))),
            },
            Stage::Creating(f) => match e {
                SessionEvent::Record(o) => {
                    let ip = self.address(f).unwrap();
                    let r = created_record(
                        self.zone_id.as_str(),
                        &ip,
                        self.request.record_name.as_str(),
                        o,
                    );
                    self.after_write(f, r)
                },
                _ => (self, SessionAction::Finish(Err(UpdateError::Fatal(String::new())))),
            },
            Stage::Finished => (self, SessionAction::Finish(Err(UpdateError::Fatal(String::new())))),
        }
    }

    /// Takes the answer `e` to the pending request; record writes are
    /// stamped with the current time.
    pub fn step(self, e: SessionEvent) -> (r: (UpdateSession, SessionAction))
        requires
            session_wf(self@),
            event_fits(self@.stage, e),
        ensures
            exists|millis: nat| (r.0@, r.1@) == spec_next(self@, e, millis),
            session_wf(r.0@),
    {
        self.step_at(e, now_millis())
    }
}

/// The outcome carried by an event.
pub open spec fn event_failure(e: SessionEvent) -> Option<TransportFailure> {
    match e {
        SessionEvent::Zones(ApiOutcome::Failed(f)) => Some(f),
        SessionEvent::Records(ApiOutcome::Failed(f)) => Some(f),
        SessionEvent::Record(ApiOutcome::Failed(f)) => Some(f),
        _ => None,
    }
}

pub open spec fn is_retryable(e: UpdateErrorView) -> bool {
    e is Retryable
}

/// A record is created only where the request allows creation and the lookup
/// of that family's record found none; a record is rewritten only where the
/// lookup found one, and then the first one it listed.
pub proof fn lemma_writes_follow_lookup(s: SessionView, e: SessionEvent, millis: nat)
    requires
        session_wf(s),
        event_fits(s.stage, e),
    ensures
        spec_next(s, e, millis).1 matches ActionView::Send(req) ==> req.method == HttpMethod::Post
            ==> {
            &&& s.allow_create
            &&& s.stage matches StageView::LookingUpRecord(f)
            &&& e matches SessionEvent::Records(o)
            &&& spec_record_from_lookup(s.record_name, o) == Ok::<
                Option<RecordResponseView>,
                UpdateErrorView,
            >(None)
            &&& req == record_create_request_view(
                s.api_token,
                s.zone_id,
                address_of(s, f)->Some_0,
                s.record_name,
                millis,
            )
        },
        spec_next(s, e, millis).1 matches ActionView::Send(req) ==> req.method == HttpMethod::Patch
            ==> {
            &&& s.stage matches StageView::LookingUpRecord(f)
            &&& e matches SessionEvent::Records(o)
            &&& spec_record_from_lookup(s.record_name, o) matches Ok(Some(found))
            &&& req == record_update_request_view(
                s.api_token,
                s.zone_id,
                found.id,
                address_of(s, f)->Some_0,
                s.record_name,
                millis,
            )
        },
{
}

/// The family that a stage works on, if any.
pub open spec fn stage_family(st: StageView) -> Option<Family> {
    match st {
        StageView::LookingUpRecord(f) => Some(f),
        StageView::Updating(f, _) => Some(f),
        StageView::Creating(f) => Some(f),
        _ => None,
    }
}

/// Every record request of a session concerns a family that has an address:
/// a lookup asks for that family's record type, and a write carries that
/// address's text under the request's name.
pub proof fn lemma_requests_follow_addresses(s: SessionView, e: SessionEvent, millis: nat)
    requires
        session_wf(s),
        event_fits(s.stage, e),
    ensures
        spec_next(s, e, millis).1 matches ActionView::Send(req) ==> {
            let next = spec_next(s, e, millis).0;
            &&& stage_family(next.stage) matches Some(f)
            &&& address_of(s, f) is Some
            &&& req.reply == ReplyKind::Records ==> req.query == seq![
                ("name.exact"@, s.record_name),
                ("type"@, family_record_type(f)),
            ]
            &&& req.body matches RequestBodyView::Update(b) ==> b.name == s.record_name && b.content
                == ip_text(address_of(s, f)->Some_0)
            &&& req.body matches RequestBodyView::Create(b, _) ==> b.name == s.record_name
                && b.content == ip_text(address_of(s, f)->Some_0)
        },
{
}

/// Every request that a session sends carries the request's API token.
pub proof fn lemma_requests_carry_token(s: SessionView, e: SessionEvent, millis: nat)
    requires
        session_wf(s),
        event_fits(s.stage, e),
    ensures
        spec_next(s, e, millis).1 matches ActionView::Send(req) ==> req.authorization == bearer(
            s.api_token,
        ),
        spec_next(s, e, millis).0.api_token == s.api_token,
{
}

/// Where a request could not be sent or answered, the session ends, and with
/// a retryable error exactly when the request timed out or could not connect.
pub proof fn lemma_transport_failure_ends_session(s: SessionView, e: SessionEvent, millis: nat)
    requires
        session_wf(s),
        event_fits(s.stage, e),
        event_failure(e) is Some,
    ensures
        spec_next(s, e, millis).1 matches ActionView::Finish(Err(err)) && is_retryable(err) == (
        event_failure(e)->Some_0.timed_out || event_failure(e)->Some_0.connect),
        spec_next(s, e, millis).0.stage == StageView::Finished,
{
}

/// What holds of every session that `start` and `step` lead to: the families
/// are worked on in order, and each record reported written holds the
/// request's address of its family under the request's name.
pub open spec fn session_inv(s: SessionView) -> bool {
    &&& session_wf(s)
    &&& s.ipv4_update matches Some(u) ==> s.ipv4addr == Some(u.ip) && u.record_name
        == s.record_name
    &&& s.ipv6_update matches Some(u) ==> s.ipv6addr == Some(u.ip) && u.record_name
        == s.record_name
    &&& match s.stage {
        StageView::LookingUpZone => s.ipv4_update is None && s.ipv6_update is None,
        StageView::LookingUpRecord(Family::V4) => s.ipv4_update is None && s.ipv6_update is None,
        StageView::Updating(Family::V4, _) => s.ipv4_update is None && s.ipv6_update is None,
        StageView::Creating(Family::V4) => s.ipv4_update is None && s.ipv6_update is None,
        StageView::LookingUpRecord(Family::V6) => (s.ipv4_update is Some == s.ipv4addr is Some)
            && s.ipv6_update is None,
        StageView::Updating(Family::V6, _) => (s.ipv4_update is Some == s.ipv4addr is Some)
            && s.ipv6_update is None,
        StageView::Creating(Family::V6) => (s.ipv4_update is Some == s.ipv4addr is Some)
            && s.ipv6_update is None,
        StageView::Finished => true,
    }
}

/// A fresh session satisfies the session invariant.
pub proof fn lemma_initial_session_inv(request: CloudflareUpdateRequest)
    ensures
        session_inv(initial_session(request)),
{
}

/// Every step keeps the session invariant, and a session that succeeds
/// reports one record for each family that had an address and none for the
/// others, each holding that address under the request's name.
pub proof fn lemma_step_keeps_inv(s: SessionView, e: SessionEvent, millis: nat)
    requires
        session_inv(s),
        event_fits(s.stage, e),
    ensures
        session_inv(spec_next(s, e, millis).0),
        spec_next(s, e, millis).1 matches ActionView::Finish(Ok(resp)) ==> {
            &&& resp.ipv4_update is Some == s.ipv4addr is Some
            &&& resp.ipv6_update is Some == s.ipv6addr is Some
            &&& resp.ipv4_update matches Some(u) ==> s.ipv4addr == Some(u.ip) && u.record_name
                == s.record_name
            &&& resp.ipv6_update matches Some(u) ==> s.ipv6addr == Some(u.ip) && u.record_name
                == s.record_name
        },
{
}

/// How many requests a session at this stage may still send, at most.
pub open spec fn requests_left(st: StageView) -> nat {
    match st {
        StageView::LookingUpZone => 4,
        StageView::LookingUpRecord(Family::V4) => 3,
        StageView::Updating(Family::V4, _) => 2,
        StageView::Creating(Family::V4) => 2,
        StageView::LookingUpRecord(Family::V6) => 1,
        StageView::Updating(Family::V6, _) => 0,
        StageView::Creating(Family::V6) => 0,
        StageView::Finished => 0,
    }
}

/// Every step makes progress: a session that sends another request has fewer
/// left, and one with none left finishes. So an update ends after at most
/// five requests, the first of which `start` sends.
pub proof fn lemma_step_progresses(s: SessionView, e: SessionEvent, millis: nat)
    requires
        session_wf(s),
        event_fits(s.stage, e),
    ensures
        spec_next(s, e, millis).1 is Send ==> requests_left(spec_next(s, e, millis).0.stage)
            < requests_left(s.stage),
        spec_next(s, e, millis).1 is Finish ==> spec_next(s, e, millis).0.stage
            == StageView::Finished,
{
}

/// The address of the records of the zone `zone_id`.
proof fn lemma_records_url_text(zone_id: Seq<char>, record_id: Seq<char>)
    ensures
        records_url(zone_id) == "https://api.cloudflare.com/client/v4/zones/"@ + zone_id
            + "/dns_records"@,
        record_url(zone_id, record_id) == "https://api.cloudflare.com/client/v4/zones/"@ + zone_id
            + "/dns_records/"@ + record_id,
{
    reveal_strlit("https://api.cloudflare.com/client/v4/zones");
    reveal_strlit("https://api.cloudflare.com/client/v4/zones/");
    reveal_strlit("/");
    reveal_strlit("/dns_records");
    reveal_strlit("/dns_records/");
    assert(records_url(zone_id) =~= "https://api.cloudflare.com/client/v4/zones/"@ + zone_id
        + "/dns_records"@);
    assert(record_url(zone_id, record_id) =~= "https://api.cloudflare.com/client/v4/zones/"@
        + zone_id + "/dns_records/"@ + record_id);
}

/// Every record request goes to the zone that the zone lookup found: the
/// zone lookup's answer sets the zone, later steps keep it, and each record
/// lookup and creation is sent to that zone's records, each rewrite to one
/// record of them, for both families.
pub proof fn lemma_requests_go_to_found_zone(s: SessionView, e: SessionEvent, millis: nat)
    requires
        session_wf(s),
        event_fits(s.stage, e),
    ensures
        !(s.stage is LookingUpZone) ==> spec_next(s, e, millis).0.zone_id == s.zone_id,
        s.stage is LookingUpZone ==> spec_next(s, e, millis).1 is Send ==> {
            &&& e matches SessionEvent::Zones(o)
            &&& spec_zone_from_outcome(s.record_name, o) matches Ok(z)
            &&& spec_next(s, e, millis).0.zone_id == z.id
        },
        spec_next(s, e, millis).1 matches ActionView::Send(req) ==> {
            let zone_id = spec_next(s, e, millis).0.zone_id;
            &&& req.reply == ReplyKind::Records ==> req.method == HttpMethod::Get && req.url
                == "https://api.cloudflare.com/client/v4/zones/"@ + zone_id + "/dns_records"@
            &&& req.method == HttpMethod::Post ==> req.url
                == "https://api.cloudflare.com/client/v4/zones/"@ + zone_id + "/dns_records"@
            &&& req.method == HttpMethod::Patch ==> exists|id: Seq<char>| req.url
                == "https://api.cloudflare.com/client/v4/zones/"@ + zone_id + "/dns_records/"@ + id
        },
{
    let next = spec_next(s, e, millis).0;
    lemma_records_url_text(next.zone_id, Seq::empty());
    if let ActionView::Send(req) = spec_next(s, e, millis).1 {
        if req.method == HttpMethod::Patch {
            if let StageView::LookingUpRecord(f) = s.stage {
                if let SessionEvent::Records(o) = e {
                    if let Ok(Some(found)) = spec_record_from_lookup(s.record_name, o) {
                        lemma_records_url_text(next.zone_id, found.id);
                    }
                }
            }
        }
    }
}

} // verus!

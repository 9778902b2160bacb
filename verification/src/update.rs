use vstd::prelude::*;
use crate::cloudflare::CloudflareUpdateRequest;
use crate::ip::IpAddr;
use crate::text::{
    count_dots, debug_quoted, is_last_two_labels, last_two_labels, lemma_last_two_labels_unique,
    quote_debug,
};

verus! {

/// A request to bring the DNS records of one name up to date, per provider.
pub enum UpdateRequest {
    Cloudflare(CloudflareUpdateRequest),
}

impl UpdateRequest {
    /// A Cloudflare update request for `record_name`.
    pub fn cloudflare(
        api_token: String,
        record_name: String,
        ipv4addr: Option<IpAddr>,
        ipv6addr: Option<IpAddr>,
        allow_create: bool,
    ) -> (r: Self)
        ensures
            r matches UpdateRequest::Cloudflare(c) && c.api_token == api_token && c.record_name
                == record_name && c.ipv4addr == ipv4addr && c.ipv6addr == ipv6addr
                && c.allow_create == allow_create,
    {
        UpdateRequest::Cloudflare(
            CloudflareUpdateRequest::new(api_token, record_name, ipv4addr, ipv6addr, allow_create),
        )
    }
}

/// What was written to one DNS record.
#[derive(Debug)]
pub struct RecordUpdate {
    pub ip: IpAddr,
    pub record_name: String,
    pub modified_on: String,
}

pub struct RecordUpdateView {
    pub ip: IpAddr,
    pub record_name: Seq<char>,
    pub modified_on: Seq<char>,
}

impl View for RecordUpdate {
    type V = RecordUpdateView;

    open spec fn view(&self) -> RecordUpdateView {
        RecordUpdateView {
            ip: self.ip,
            record_name: self.record_name@,
            modified_on: self.modified_on@,
        }
    }
}

/// The records written by one update, per address family.
#[derive(Debug)]
pub struct UpdateResponse {
    pub ipv4_update: Option<RecordUpdate>,
    pub ipv6_update: Option<RecordUpdate>,
}

pub struct UpdateResponseView {
    pub ipv4_update: Option<RecordUpdateView>,
    pub ipv6_update: Option<RecordUpdateView>,
}

pub open spec fn option_record_view(u: Option<RecordUpdate>) -> Option<RecordUpdateView> {
    match u {
        Some(r) => Some(r@),
        None => None,
    }
}

impl View for UpdateResponse {
    type V = UpdateResponseView;

    open spec fn view(&self) -> UpdateResponseView {
        UpdateResponseView {
            ipv4_update: option_record_view(self.ipv4_update),
            ipv6_update: option_record_view(self.ipv6_update),
        }
    }
}

/// Why an update failed: `Retryable` where trying again later may succeed
/// (the connection failed or timed out), `Fatal` otherwise.
#[derive(Debug)]
pub enum UpdateError {
    Retryable(String),
    Fatal(String),
}

pub enum UpdateErrorView {
    Retryable(Seq<char>),
    Fatal(Seq<char>),
}

impl View for UpdateError {
    type V = UpdateErrorView;

    open spec fn view(&self) -> UpdateErrorView {
        match self {
            UpdateError::Retryable(m) => UpdateErrorView::Retryable(m@),
            UpdateError::Fatal(m) => UpdateErrorView::Fatal(m@),
        }
    }
}

impl UpdateErrorView {
    pub open spec fn message(self) -> Seq<char> {
        match self {
            UpdateErrorView::Retryable(m) => m,
            UpdateErrorView::Fatal(m) => m,
        }
    }

    /// The same kind of error, with another message.
    pub open spec fn with_message(self, m: Seq<char>) -> UpdateErrorView {
        match self {
            UpdateErrorView::Retryable(_) => UpdateErrorView::Retryable(m),
            UpdateErrorView::Fatal(_) => UpdateErrorView::Fatal(m),
        }
    }

    /// What `{:#?}` writes for the error.
    pub open spec fn pretty_debug(self) -> Seq<char> {
        match self {
            UpdateErrorView::Retryable(m) => "Retryable(\n    "@ + debug_quoted(m) + ",\n)"@,
            UpdateErrorView::Fatal(m) => "Fatal(\n    "@ + debug_quoted(m) + ",\n)"@,
        }
    }
}

impl UpdateError {
    /// The error's text as `{:#?}` writes it.
    pub fn pretty_debug(&self) -> (text: String)
        ensures
            text@ == self@.pretty_debug(),
    {
        match self {
            UpdateError::Retryable(m) => {
                let mut text = String::from_str("Retryable(\n    ");
                text.append(quote_debug(m.as_str()).as_str());
                text.append(",\n)");
                text
            },
            UpdateError::Fatal(m) => {
                let mut text = String::from_str("Fatal(\n    ");
                text.append(quote_debug(m.as_str()).as_str());
                text.append(",\n)");
                text
            },
        }
    }

    /// Keeps the kind of the error and replaces its message by
    /// `prefix`, `subject`, `"], error: ["`, the error's `{:#?}` text and `"]"`.
    pub fn with_context(self, prefix: &str, subject: &str) -> (e: UpdateError)
        ensures
            e@ == self@.with_message(context_message(prefix@, subject@, self@)),
    {
        let mut message = String::from_str(prefix);
        message.append(subject);
        message.append("], error: [");
        message.append(self.pretty_debug().as_str());
        message.append("]");
        match self {
            UpdateError::Retryable(_) => UpdateError::Retryable(message),
            UpdateError::Fatal(_) => UpdateError::Fatal(message),
        }
    }
}

/// `prefix`, `subject`, then the `{:#?}` text of `e` in brackets.
pub open spec fn context_message(prefix: Seq<char>, subject: Seq<char>, e: UpdateErrorView) -> Seq<
    char,
> {
    prefix + subject + "], error: ["@ + e.pretty_debug() + "]"@
}

/// What the library reads of a failed attempt to send a request and receive
/// its response.
pub struct TransportFailure {
    /// The request timed out.
    pub timed_out: bool,
    /// The connection could not be made.
    pub connect: bool,
    /// The failure's `{:#?}` text.
    pub detail: String,
}

pub struct TransportFailureView {
    pub timed_out: bool,
    pub connect: bool,
    pub detail: Seq<char>,
}

impl View for TransportFailure {
    type V = TransportFailureView;

    open spec fn view(&self) -> TransportFailureView {
        TransportFailureView { timed_out: self.timed_out, connect: self.connect, detail: self.detail@ }
    }
}

/// Timeouts and failed connections may succeed later; anything else is fatal.
pub open spec fn spec_classify_failure(f: TransportFailureView) -> UpdateErrorView {
    if f.timed_out {
        UpdateErrorView::Retryable("Connection timed out, error: ["@ + f.detail + "]"@)
    } else if f.connect {
        UpdateErrorView::Retryable("Connection error, error: ["@ + f.detail + "]"@)
    } else {
        UpdateErrorView::Fatal("Got unexpected error, error: ["@ + f.detail + "]"@)
    }
}

/// The error that a transport failure is reported as.
pub fn classify_failure(f: &TransportFailure) -> (e: UpdateError)
    ensures
        e@ == spec_classify_failure(f@),
{
    if f.timed_out {
        let mut m = String::from_str("Connection timed out, error: [");
        m.append(f.detail.as_str());
        m.append("]");
        return UpdateError::Retryable(m);
    }
    if f.connect {
        let mut m = String::from_str("Connection error, error: [");
        m.append(f.detail.as_str());
        m.append("]");
        return UpdateError::Retryable(m);
    }
    let mut m = String::from_str("Got unexpected error, error: [");
    m.append(f.detail.as_str());
    m.append("]");
    UpdateError::Fatal(m)
}

/// The error type of the HTTP client (`reqwest::Error`), opaque to the proofs.
#[verifier::external_type_specification]
#[verifier::external_body]
pub struct ExReqwestError(reqwest::Error);

/// Whether `reqwest::Error::is_timeout` holds of the error: a timeout stands
/// in its chain of sources.
pub uninterp spec fn http_error_timed_out(e: reqwest::Error) -> bool;

/// Whether `reqwest::Error::is_connect` holds of the error: a failed
/// connection stands in its chain of sources.
pub uninterp spec fn http_error_connect(e: reqwest::Error) -> bool;

/// `reqwest::Error::is_timeout`; the contract claims only that the answer is
/// a function of the error.
#[verifier::external_body]
fn error_is_timeout(e: &reqwest::Error) -> (r: bool)
    ensures
        r == http_error_timed_out(*e),
{
    e.is_timeout()
}

/// `reqwest::Error::is_connect`; the contract claims only that the answer is
/// a function of the error.
#[verifier::external_body]
fn error_is_connect(e: &reqwest::Error) -> (r: bool)
    ensures
        r == http_error_connect(*e),
{
    e.is_connect()
}

/// The error's `{:#?}` text (its `Debug` impl). Nothing is claimed of it:
/// it holds the C library's text for an OS error, which differs between
/// machines.
#[verifier::external_body]
fn error_debug_text(e: &reqwest::Error) -> String {
    format!("{:#?}", e)
}

/// What the library reads of an error of the HTTP client, with `detail` as
/// the error's text.
pub open spec fn failure_of(e: reqwest::Error, detail: Seq<char>) -> TransportFailureView {
    TransportFailureView {
        timed_out: http_error_timed_out(e),
        connect: http_error_connect(e),
        detail,
    }
}

impl TransportFailure {
    /// What the library reads of an error from the HTTP client: whether it
    /// timed out, whether the connection failed, and its `{:#?}` text.
    pub fn from_error(e: &reqwest::Error) -> (f: TransportFailure)
        ensures
            f@ == failure_of(*e, f@.detail),
    {
        TransportFailure {
            timed_out: error_is_timeout(e),
            connect: error_is_connect(e),
            detail: error_debug_text(e),
        }
    }
}

/// Reports an error of the HTTP client: `Retryable` for a timeout or a failed
/// connection, `Fatal` otherwise.
pub fn translate_error(e: reqwest::Error) -> (r: UpdateError)
    ensures
        exists|detail: Seq<char>| r@ == spec_classify_failure(failure_of(e, detail)),
{
    let f = TransportFailure::from_error(&e);
    classify_failure(&f)
}

/// The registrable part of a record name: its last two dot-separated labels,
/// joined by a dot ("host.internal.example.com" gives "example.com").
pub fn get_sld(valid_record_name: &str) -> (sld: String)
    requires
        count_dots(valid_record_name@) >= 1,
    ensures
        is_last_two_labels(sld@, valid_record_name@),
        sld@ == last_two_labels(valid_record_name@),
{
    let ghost s = valid_record_name@;
    let n = valid_record_name.unicode_len();
    let mut i: usize = n;
    let mut dots: usize = 0;
    proof {
        assert(s.skip(n as int) =~= Seq::<char>::empty());
        assert(s.skip(0) =~= s);
    }
    while i > 0
        invariant
            n == s.len(),
            s == valid_record_name@,
            i <= n,
            dots <= 1,
            count_dots(s.skip(i as int)) == dots,
            count_dots(s) >= 1,
            s.skip(0) == s,
        ensures
            i <= n,
            count_dots(s.skip(i as int)) == 1,
            i == 0 || s[i - 1] == '.',
        decreases i,
    {
        let c = valid_record_name.get_char(i - 1);
        proof {
            assert(s.skip(i - 1).skip(1) =~= s.skip(i as int));
        }
        if c == '.' {
            if dots == 1 {
                break;
            }
            dots = dots + 1;
        }
        i = i - 1;
    }
    let sub = valid_record_name.substring_char(i, n);
    proof {
        assert(sub@ =~= s.skip(i as int));
        assert(is_last_two_labels(sub@, s));
        lemma_last_two_labels_unique(sub@, last_two_labels(s), s);
    }
    sub.to_owned()
}

} // verus!

use crate::day::{ymd_day, ymd_text, Day};
use crate::decimal::{decimal_text, parse_u64, parsed_u64, push_decimal};
use crate::error::FitbitError;
use crate::json::{
    element_of, items_of, member_of, text_of, then_element, then_member, then_text, Json,
};
use vstd::prelude::*;

verus! {

/// The address of today's step count.
pub const STEPS_TODAY_URL: &'static str = "https://api.fitbit.com/1/user/-/activities/steps/date/today/1d.json";

/// The address of a night's sleep log.
pub const SLEEP_URL: &'static str = "https://api.fitbit.com/1.2/user/-/sleep/date/2023-03-04.json";

/// The address of a range of daily step counts, before the two days.
pub const STEPS_RANGE_URL_PREFIX: &'static str = "https://api.fitbit.com/1/user/-/activities/steps/date/";

/// The secrets that authenticate against the upstream service.
#[derive(Debug)]
pub struct Credential {
    /// Sent as the bearer token of every read.
    pub access_token: String,
    /// Exchanged for a fresh pair; absent in implicit-grant mode.
    pub refresh_token: Option<String>,
}

impl Credential {
    /// A credential always has an access token.
    pub open spec fn wf(self) -> bool {
        self.access_token@.len() > 0
    }

    /// A copy of this credential, both secrets together.
    pub fn snapshot(&self) -> (r: Credential)
        ensures
            r == *self,
    {
        let refresh_token = match &self.refresh_token {
            Some(t) => Some(t.clone()),
            None => None,
        };
        Credential { access_token: self.access_token.clone(), refresh_token }
    }
}

/// How one renewal exchange ended.
#[derive(Debug)]
pub enum RenewalOutcome {
    /// The token endpoint handed out a new pair.
    Success(Credential),
    /// The token endpoint refused the renewal secret.
    InvalidGrant,
    /// The exchange failed for another reason, described here.
    TransientFailure(String),
}

/// What a renewal attempt does first.
#[derive(Debug)]
pub enum RenewalStep {
    /// No renewal secret is configured: the attempt is a no-op.
    Skip,
    /// Exchange this renewal secret at the token endpoint.
    Exchange(String),
}

/// One authenticated read: where to send it, and the bearer token to send.
#[derive(Debug)]
pub struct FetchRequest {
    pub url: String,
    pub bearer_token: String,
}

/// The application's identity at the token endpoint, and the current
/// credential.
#[derive(Debug)]
pub struct FitbitClient {
    pub client_id: String,
    pub client_secret: String,
    pub credential: Credential,
}

/// Whether renewing `before` with `outcome` installs a new credential.
pub open spec fn renewal_installs(before: Credential, outcome: RenewalOutcome) -> bool {
    before.refresh_token is Some && match outcome {
        RenewalOutcome::Success(c) => c.wf(),
        _ => false,
    }
}

/// The credential after renewing `before` with `outcome`: the new pair where
/// it is installed, `before` otherwise.
pub open spec fn renewed(before: Credential, outcome: RenewalOutcome) -> Credential {
    if renewal_installs(before, outcome) {
        match outcome {
            RenewalOutcome::Success(c) => c,
            _ => before,
        }
    } else {
        before
    }
}

/// Whether renewing `before` with `outcome` fails: a renewal secret is
/// configured and the outcome installs no new credential.
pub open spec fn renewal_fails(before: Credential, outcome: RenewalOutcome) -> bool {
    before.refresh_token is Some && !renewal_installs(before, outcome)
}

/// Whether a response carries the upstream marker of an expired token:
/// `errors[0].errorType` is `expired_token`.
pub open spec fn expired_marker(v: Json) -> bool {
    then_text(then_member(then_element(member_of(v, "errors"@), 0), "errorType"@))
        == Some("expired_token"@)
}

/// The classification of a transport result: a transport error passes
/// through, a response with the expiry marker becomes `AccessTokenExpired`,
/// any other response is the payload.
pub open spec fn classified(response: Result<Json, FitbitError>) -> Result<Json, FitbitError> {
    match response {
        Ok(v) => if expired_marker(v) {
            Err(FitbitError::AccessTokenExpired)
        } else {
            Ok(v)
        },
        Err(e) => Err(e),
    }
}

/// The step count of a single-day payload: `activities-steps[0].value`, a
/// decimal text.
pub open spec fn steps_of(v: Json) -> Option<u64> {
    match then_text(
        then_member(then_element(member_of(v, "activities-steps"@), 0), "value"@),
    ) {
        Some(t) => parsed_u64(t),
        None => None,
    }
}

/// The day and step count of one entry of a range payload: `dateTime` as
/// `YYYY-MM-DD`, `value` as a decimal text.
pub open spec fn range_entry_of(e: Json) -> Option<(i32, u64)> {
    match (then_text(member_of(e, "dateTime"@)), then_text(member_of(e, "value"@))) {
        (Some(d), Some(t)) => match (ymd_day(d), parsed_u64(t)) {
            (Some(day), Some(n)) => Some((day, n)),
            _ => None,
        },
        _ => None,
    }
}

/// The entries of a range payload: the array `activities-steps`.
pub open spec fn range_items_of(v: Json) -> Option<Seq<Json>> {
    match member_of(v, "activities-steps"@) {
        Some(a) => items_of(a),
        None => None,
    }
}

/// Whether a range payload is well formed: an array of entries that all read.
pub open spec fn range_decodes(v: Json) -> bool {
    match range_items_of(v) {
        Some(items) => forall|i: int| 0 <= i < items.len() ==> (#[trigger] range_entry_of(items[i])) is Some,
        None => false,
    }
}

/// The address of the step counts from `start` to `end`, where both days
/// can be written.
pub open spec fn range_url(start: Day, end: Day) -> Option<Seq<char>> {
    match (ymd_text(start.days_from_ce), ymd_text(end.days_from_ce)) {
        (Some(s), Some(e)) => Some(STEPS_RANGE_URL_PREFIX@ + s + "/"@ + e + ".json"@),
        _ => None,
    }
}

/// A read taken before or after one renewal sees a whole credential: the
/// one from before the renewal, or the new pair of a successful exchange in
/// full, never one secret of each.
pub proof fn lemma_read_sees_whole_credential(
    before: Credential,
    outcome: RenewalOutcome,
    seen: Credential,
)
    requires
        seen == before || seen == renewed(before, outcome),
    ensures
        seen == before || outcome == RenewalOutcome::Success(seen),
{
}

/// Without a renewal secret, a renewal attempt is a no-op success whatever
/// an exchange would have said, and leaves the credential as it was.
pub proof fn lemma_renewal_without_secret_is_noop(before: Credential, outcome: RenewalOutcome)
    requires
        before.refresh_token is None,
    ensures
        renewed(before, outcome) == before,
        !renewal_fails(before, outcome),
{
}

/// The message of the error that the `url` crate reports for a text, where
/// it does not read the text as a URL.
pub uninterp spec fn url_parse_error(s: Seq<char>) -> Option<Seq<char>>;

/// Relies on `url::Url::parse`: whether the text reads as a URL, and the
/// message of its error where it does not.
#[verifier::external_body]
fn url_check(s: &str) -> (r: Option<String>)
    ensures
        match r {
            Some(m) => url_parse_error(s@) == Some(m@),
            None => url_parse_error(s@) is None,
        },
{
    match url::Url::parse(s) {
        Ok(_) => None,
        Err(e) => Some(e.to_string()),
    }
}

/// Whether an HTTP status reports success: 200 to 299.
pub open spec fn is_success(status: u16) -> bool {
    200 <= status < 300
}

/// The message of the transport error for an unsuccessful HTTP status.
pub open spec fn status_message(status: u16) -> Seq<char> {
    "HTTP status "@ + decimal_text(status as nat)
}

fn owned(s: &str) -> (r: String)
    ensures
        r@ == s@,
{
    String::from_str(s)
}

fn text_at<'a>(v: &'a Json, key: &str) -> (r: Option<&'a String>)
    ensures
        match r {
            Some(t) => then_text(member_of(*v, key@)) == Some(t@),
            None => then_text(member_of(*v, key@)) is None,
        },
{
    match v.member(&owned(key)) {
        Some(m) => m.as_text(),
        None => None,
    }
}

fn has_expired_marker(v: &Json) -> (r: bool)
    ensures
        r == expired_marker(*v),
{
    let first = match v.member(&owned("errors")) {
        Some(errors) => errors.element(0),
        None => None,
    };
    let text = match first {
        Some(e) => text_at(e, "errorType"),
        None => None,
    };
    match text {
        Some(t) => *t == owned("expired_token"),
        None => false,
    }
}

fn decode_range_entry(e: &Json) -> (r: Option<(Day, u64)>)
    ensures
        match r {
            Some(p) => range_entry_of(*e) == Some((p.0.days_from_ce, p.1)),
            None => range_entry_of(*e) is None,
        },
{
    let d = match text_at(e, "dateTime") {
        Some(d) => d,
        None => return None,
    };
    let t = match text_at(e, "value") {
        Some(t) => t,
        None => return None,
    };
    let day = match Day::parse(d.as_str()) {
        Some(day) => day,
        None => return None,
    };
    match parse_u64(t.as_str()) {
        Some(n) => Some((day, n)),
        None => None,
    }
}

impl FitbitClient {
    pub open spec fn wf(self) -> bool {
        self.credential.wf()
    }

    /// A client for the application `client_id`, holding the initial access
    /// token and, where one is given, a renewal secret.
    pub fn new(
        client_id: &str,
        client_secret: &str,
        refresh_token: &Option<String>,
        initial_access_token: &str,
    ) -> (r: Self)
        requires
            initial_access_token@.len() > 0,
        ensures
            r.wf(),
            r.client_id@ == client_id@,
            r.client_secret@ == client_secret@,
            r.credential.access_token@ == initial_access_token@,
            r.credential.refresh_token == *refresh_token,
    {
        let refresh_token = match refresh_token {
            Some(t) => Some(t.clone()),
            None => None,
        };
        FitbitClient {
            client_id: owned(client_id),
            client_secret: owned(client_secret),
            credential: Credential { access_token: owned(initial_access_token), refresh_token },
        }
    }

    /// A snapshot of the current credential.
    pub fn read(&self) -> (r: Credential)
        ensures
            r == self.credential,
    {
        self.credential.snapshot()
    }

    /// What a renewal attempt does: nothing without a renewal secret, else
    /// exchange the current one.
    pub fn renewal_step(&self) -> (r: RenewalStep)
        ensures
            match self.credential.refresh_token {
                Some(t) => r == RenewalStep::Exchange(t),
                None => r is Skip,
            },
    {
        match &self.credential.refresh_token {
            Some(t) => RenewalStep::Exchange(t.clone()),
            None => RenewalStep::Skip,
        }
    }

    /// Ends a renewal attempt with the outcome of its exchange. Without a
    /// renewal secret the attempt is a no-op success. A new pair replaces
    /// both secrets together; a refused or failed exchange, or a pair
    /// without an access token, leaves the credential as it was.
    pub fn refresh_access_token(&mut self, outcome: RenewalOutcome) -> (r: Result<(), FitbitError>)
        requires
            old(self).wf(),
        ensures
            final(self).wf(),
            final(self).client_id == old(self).client_id,
            final(self).client_secret == old(self).client_secret,
            final(self).credential == renewed(old(self).credential, outcome),
            r is Ok <==> !renewal_fails(old(self).credential, outcome),
            renewal_fails(old(self).credential, outcome) ==> match outcome {
                RenewalOutcome::InvalidGrant => r == Err::<(), FitbitError>(FitbitError::InvalidGrant),
                RenewalOutcome::TransientFailure(d) => r == Err::<(), FitbitError>(FitbitError::TokenError(d)),
                RenewalOutcome::Success(_) => r matches Err(FitbitError::TokenError(_)),
            },
    {
        if self.credential.refresh_token.is_none() {
            return Ok(());
        }
        match outcome {
            RenewalOutcome::Success(c) => {
                if c.access_token.as_str().is_empty() {
                    Err(FitbitError::TokenError(owned("the token endpoint returned no access token")))
                } else {
                    self.credential = c;
                    Ok(())
                }
            },
            RenewalOutcome::InvalidGrant => Err(FitbitError::InvalidGrant),
            RenewalOutcome::TransientFailure(d) => Err(FitbitError::TokenError(d)),
        }
    }

    /// A read of `url`, authenticated with the current access token. A text
    /// that is not a URL is refused with the `url` crate's message.
    pub fn request(&self, url: &str) -> (r: Result<FetchRequest, FitbitError>)
        ensures
            match url_parse_error(url@) {
                Some(m) => r matches Err(FitbitError::UrlError(e)) && e@ == m,
                None => r matches Ok(q) && q.url@ == url@ && q.bearer_token == self.credential.access_token,
            },
    {
        match url_check(url) {
            Some(m) => Err(FitbitError::UrlError(m)),
            None => Ok(FetchRequest { url: owned(url), bearer_token: self.credential.access_token.clone() }),
        }
    }

    /// The read of today's step count.
    pub fn steps_request(&self) -> (r: Result<FetchRequest, FitbitError>)
        ensures
            match url_parse_error(STEPS_TODAY_URL@) {
                Some(m) => r matches Err(FitbitError::UrlError(e)) && e@ == m,
                None => r matches Ok(q) && q.url@ == STEPS_TODAY_URL@ && q.bearer_token == self.credential.access_token,
            },
    {
        self.request(STEPS_TODAY_URL)
    }

    /// The read of the sleep log.
    pub fn sleep_request(&self) -> (r: Result<FetchRequest, FitbitError>)
        ensures
            match url_parse_error(SLEEP_URL@) {
                Some(m) => r matches Err(FitbitError::UrlError(e)) && e@ == m,
                None => r matches Ok(q) && q.url@ == SLEEP_URL@ && q.bearer_token == self.credential.access_token,
            },
    {
        self.request(SLEEP_URL)
    }

    /// The read of the daily step counts from `start` to `end`, both
    /// included. A range whose start lies after its end, or whose days the
    /// calendar cannot write, is refused before anything is sent.
    pub fn steps_range_request(&self, start: Day, end: Day) -> (r: Result<FetchRequest, FitbitError>)
        ensures
            start.days_from_ce > end.days_from_ce ==> r matches Err(FitbitError::InvalidRange),
            start.days_from_ce <= end.days_from_ce ==> match range_url(start, end) {
                Some(u) => match url_parse_error(u) {
                    Some(m) => r matches Err(FitbitError::UrlError(e)) && e@ == m,
                    None => r matches Ok(q) && q.url@ == u && q.bearer_token == self.credential.access_token,
                },
                None => r matches Err(FitbitError::InvalidRange),
            },
    {
        if start.days_from_ce > end.days_from_ce {
            return Err(FitbitError::InvalidRange);
        }
        let s = match start.text() {
            Some(s) => s,
            None => return Err(FitbitError::InvalidRange),
        };
        let e = match end.text() {
            Some(e) => e,
            None => return Err(FitbitError::InvalidRange),
        };
        let mut url = owned(STEPS_RANGE_URL_PREFIX);
        url.append(s.as_str());
        url.append("/");
        url.append(e.as_str());
        url.append(".json");
        assert(url@ =~= STEPS_RANGE_URL_PREFIX@ + s@ + "/"@ + e@ + ".json"@);
        match url_check(url.as_str()) {
            Some(m) => Err(FitbitError::UrlError(m)),
            None => Ok(FetchRequest { url, bearer_token: self.credential.access_token.clone() }),
        }
    }

    /// Classifies a response by its HTTP status and decoded body: a body that
    /// reports an expired token gives `AccessTokenExpired`, whatever the
    /// status; otherwise an unsuccessful status is a transport error, and a
    /// successful one gives the body.
    pub fn classify_response(status: u16, body: Json) -> (r: Result<Json, FitbitError>)
        ensures
            expired_marker(body) ==> r matches Err(FitbitError::AccessTokenExpired),
            !expired_marker(body) && is_success(status) ==> r == Ok::<Json, FitbitError>(body),
            !expired_marker(body) && !is_success(status) ==> (r matches Err(FitbitError::HttpError(m))
                && m@ == status_message(status)),
    {
        if has_expired_marker(&body) {
            Err(FitbitError::AccessTokenExpired)
        } else if 200 <= status && status < 300 {
            Ok(body)
        } else {
            let mut m = owned("HTTP status ");
            push_decimal(&mut m, status as u64);
            Err(FitbitError::HttpError(m))
        }
    }

    /// Classifies the result of one read: a transport error passes through,
    /// a response that reports an expired token becomes
    /// `AccessTokenExpired`, any other response is the payload.
    pub fn fetch_data(response: Result<Json, FitbitError>) -> (r: Result<Json, FitbitError>)
        ensures
            r == classified(response),
    {
        match response {
            Ok(v) => if has_expired_marker(&v) {
                Err(FitbitError::AccessTokenExpired)
            } else {
                Ok(v)
            },
            Err(e) => Err(e),
        }
    }

    /// Today's step count from the result of its read.
    pub fn fetch_steps(response: Result<Json, FitbitError>) -> (r: Result<u64, FitbitError>)
        ensures
            match classified(response) {
                Ok(v) => match steps_of(v) {
                    Some(n) => r == Ok::<u64, FitbitError>(n),
                    None => r matches Err(FitbitError::InvalidData),
                },
                Err(e) => r == Err::<u64, FitbitError>(e),
            },
    {
        let v = match Self::fetch_data(response) {
            Ok(v) => v,
            Err(e) => return Err(e),
        };
        let first = match v.member(&owned("activities-steps")) {
            Some(a) => a.element(0),
            None => None,
        };
        let text = match first {
            Some(e) => text_at(e, "value"),
            None => None,
        };
        match text {
            Some(t) => match parse_u64(t.as_str()) {
                Some(n) => Ok(n),
                None => Err(FitbitError::InvalidData),
            },
            None => Err(FitbitError::InvalidData),
        }
    }

    /// The sleep log from the result of its read.
    pub fn fetch_sleep(response: Result<Json, FitbitError>) -> (r: Result<Json, FitbitError>)
        ensures
            r == classified(response),
    {
        Self::fetch_data(response)
    }

    /// The daily step counts from the result of a range read, in the order
    /// of the payload. One malformed entry fails the whole range.
    pub fn fetch_steps_range(response: Result<Json, FitbitError>) -> (r: Result<Vec<(Day, u64)>, FitbitError>)
        ensures
            match classified(response) {
                Ok(v) => if range_decodes(v) {
                    r matches Ok(days) && days@.len() == range_items_of(v)->0.len() && forall|i: int|
                        0 <= i < days@.len() ==> range_entry_of(#[trigger] range_items_of(v)->0[i])
                            == Some((days@[i].0.days_from_ce, days@[i].1))
                } else {
                    r matches Err(FitbitError::InvalidData)
                },
                Err(e) => r == Err::<Vec<(Day, u64)>, FitbitError>(e),
            },
    {
        let ghost given = response;
        let v = match Self::fetch_data(response) {
            Ok(v) => v,
            Err(e) => return Err(e),
        };
        let items = match v.member(&owned("activities-steps")) {
            Some(a) => match a.as_items() {
                Some(items) => items,
                None => return Err(FitbitError::InvalidData),
            },
            None => return Err(FitbitError::InvalidData),
        };
        let ghost all = items@;
        let mut days: Vec<(Day, u64)> = Vec::new();
        let mut i: usize = 0;
        while i < items.len()
            invariant
                range_items_of(v) == Some(all),
                given == response,
                classified(given) == Ok::<Json, FitbitError>(v),
                all == items@,
                0 <= i <= all.len(),
                days@.len() == i,
                forall|j: int| 0 <= j < i ==> range_entry_of(#[trigger] all[j])
                    == Some((days@[j].0.days_from_ce, days@[j].1)),
            decreases all.len() - i,
        {
            match decode_range_entry(&items[i]) {
                Some(p) => days.push(p),
                None => {
                    assert(range_entry_of(all[i as int]) is None);
                    assert(!range_decodes(v));
                    return Err(FitbitError::InvalidData);
                },
            }
            i = i + 1;
        }
        Ok(days)
    }
}

} // verus!

//! Structs and data shared across the parts of the site.

use vstd::prelude::*;

verus! {

#[verifier::external_type_specification]
#[verifier::external_body]
pub struct ExInstant(std::time::Instant);

/// `Instant` is `Copy`: its `clone` returns the same instant.
pub assume_specification[ <std::time::Instant as Clone>::clone ](i: &std::time::Instant) -> (r: std::time::Instant)
    ensures
        r == *i,
;

/// Calls `std::time::Instant::now`: the current moment of the monotonic
/// clock. Nothing is stated of it.
#[verifier::external_body]
fn instant_now() -> std::time::Instant {
    std::time::Instant::now()
}

/// Data wrapper for items in the server-side cache.
#[derive(Clone)]
pub struct CacheEntry {
    pub inserted: std::time::Instant,
    pub data: String,
}

impl CacheEntry {
    /// Wrap the data with a timestamp.
    pub fn new(data: String) -> (e: Self)
        ensures
            e.data == data,
    {
        Self { inserted: instant_now(), data }
    }
}

/// A cached page stays in use while it is younger than its lifetime.
pub fn cache_entry_is_fresh(age_secs: u64, lifetime_secs: u64) -> (r: bool)
    ensures
        r == (age_secs < lifetime_secs),
{
    age_secs < lifetime_secs
}

/// Key for user info CRUD in session.
pub const SESSION_USER_INFO_KEY: &'static str = "USER_INFO";

/// Key for flashed messages CRUD in session.
pub const SESSION_FLASHED_MESSAGES_KEY: &'static str = "FLASHED_MESSAGES";

/// Data stored in the user's session.
#[derive(Debug, Clone)]
pub struct UserInfo {
    pub cid: u32,
    pub first_name: String,
    pub last_name: String,
    pub is_some_staff: bool,
    pub is_training_staff: bool,
    pub is_event_staff: bool,
    pub is_admin: bool,
}

// ---------------------------------------------------------------------------
// Access checks
// ---------------------------------------------------------------------------

/// Where a request for a staff group's page goes: nowhere else (`None`)
/// when a user is signed in and the group admits their stored controller
/// record, else a redirect to the homepage.
pub open spec fn access_refusal(user: Option<UserInfo>, admitted: bool) -> Option<Seq<char>> {
    if user is Some && admitted {
        None
    } else {
        Some(seq!['/'])
    }
}

/// Whether the user is a member of a staff group: a signed-in user whose
/// stored controller record the group admits (`admitted`, false when the
/// record could not be read). Nobody who is not signed in is a member.
pub fn is_user_member_of(user_info: &Option<UserInfo>, admitted: bool) -> (r: bool)
    ensures
        r == (user_info is Some && admitted),
{
    user_info.is_some() && admitted
}

/// The redirect for a user who is not a member of a staff group: the
/// address to send them to (the homepage), or `None` to let the request
/// through.
pub fn reject_if_not_in(user_info: &Option<UserInfo>, admitted: bool) -> (r: Option<String>)
    ensures
        match access_refusal(*user_info, admitted) {
            Some(to) => r matches Some(s) && s@ == to,
            None => r is None,
        },
{
    if is_user_member_of(user_info, admitted) {
        None
    } else {
        let mut to = String::new();
        to.push('/');
        assert(to@ =~= seq!['/']);
        Some(to)
    }
}

/// A request that passes the access check comes from a signed-in user whom
/// the group admits, and a refused one is only sent to the homepage.
pub proof fn lemma_access_check(user: Option<UserInfo>, admitted: bool)
    ensures
        access_refusal(user, admitted) is None <==> (user is Some && admitted),
        access_refusal(user, admitted) is Some ==> access_refusal(user, admitted) == Some(
            seq!['/'],
        ),
{
}

/// How a submitted form was rejected.
#[derive(Debug, Clone, Copy, PartialEq, Eq, Structural)]
pub enum FormRejectionKind {
    FailedToDeserializeForm,
    FailedToDeserializeFormBody,
    InvalidFormContentType,
    Other,
}

/// The kinds of error that a request can end in.
#[derive(Debug, Clone, Copy, PartialEq, Eq, Structural)]
pub enum AppErrorKind {
    Session,
    Templates,
    Database,
    HttpCall,
    HttpResponse,
    VatsimApi,
    ChronoParse,
    ChronoTimezone,
    ChronoOther,
    NumberParsing,
    FormExtractionRejection(FormRejectionKind),
    EmailError,
    UnknownEmailTemplate,
    GenericFallback,
}

/// The message shown to the user for an error.
pub open spec fn friendly_message_of(kind: AppErrorKind) -> Seq<char> {
    match kind {
        AppErrorKind::Session => "Issue accessing session data"@,
        AppErrorKind::Templates => "Issue generating page"@,
        AppErrorKind::Database => "Issue accessing database"@,
        AppErrorKind::HttpCall => "Issue sending HTTP call"@,
        AppErrorKind::HttpResponse => "Issue processing HTTP response"@,
        AppErrorKind::VatsimApi => "Issue accessing VATSIM APIs"@,
        AppErrorKind::ChronoParse => "Issue processing time data"@,
        AppErrorKind::ChronoTimezone => "Issue processing timezone data"@,
        AppErrorKind::ChronoOther => "Issue processing time"@,
        AppErrorKind::NumberParsing => "Issue parsing numbers"@,
        AppErrorKind::FormExtractionRejection(_) => "Issue getting info from you"@,
        AppErrorKind::EmailError => "Issue sending an email"@,
        AppErrorKind::UnknownEmailTemplate => "Unknown email template"@,
        AppErrorKind::GenericFallback => "Unknown error"@,
    }
}

/// The HTTP status an error is answered with: a malformed form is the
/// client's fault (400, or 415 for the wrong content type); anything else
/// is the server's (500).
pub open spec fn error_status_of(kind: AppErrorKind) -> u16 {
    match kind {
        AppErrorKind::FormExtractionRejection(r) => match r {
            FormRejectionKind::FailedToDeserializeForm => 400,
            FormRejectionKind::FailedToDeserializeFormBody => 400,
            FormRejectionKind::InvalidFormContentType => 415,
            FormRejectionKind::Other => 500,
        },
        _ => 500,
    }
}

impl AppErrorKind {
    /// The message shown to the user for this error.
    pub fn friendly_message(&self) -> (s: &'static str)
        ensures
            s@ == friendly_message_of(*self),
    {
        match self {
            AppErrorKind::Session => "Issue accessing session data",
            AppErrorKind::Templates => "Issue generating page",
            AppErrorKind::Database => "Issue accessing database",
            AppErrorKind::HttpCall => "Issue sending HTTP call",
            AppErrorKind::HttpResponse => "Issue processing HTTP response",
            AppErrorKind::VatsimApi => "Issue accessing VATSIM APIs",
            AppErrorKind::ChronoParse => "Issue processing time data",
            AppErrorKind::ChronoTimezone => "Issue processing timezone data",
            AppErrorKind::ChronoOther => "Issue processing time",
            AppErrorKind::NumberParsing => "Issue parsing numbers",
            AppErrorKind::FormExtractionRejection(_) => "Issue getting info from you",
            AppErrorKind::EmailError => "Issue sending an email",
            AppErrorKind::UnknownEmailTemplate => "Unknown email template",
            AppErrorKind::GenericFallback => "Unknown error",
        }
    }

    /// The HTTP status this error is answered with.
    pub fn status_code(&self) -> (code: u16)
        ensures
            code == error_status_of(*self),
    {
        match self {
            AppErrorKind::FormExtractionRejection(r) => match r {
                FormRejectionKind::FailedToDeserializeForm => 400,
                FormRejectionKind::FailedToDeserializeFormBody => 400,
                FormRejectionKind::InvalidFormContentType => 415,
                FormRejectionKind::Other => 500,
            },
            _ => 500,
        }
    }
}

/// Only form errors are blamed on the client; every answer is an error
/// status.
pub proof fn lemma_error_status_range(kind: AppErrorKind)
    ensures
        400 <= error_status_of(kind) <= 500,
        error_status_of(kind) < 500 ==> kind is FormExtractionRejection,
{
}

} // verus!

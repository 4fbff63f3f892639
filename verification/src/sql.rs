//! Records stored in the site's database.
//!
//! Timestamps are held as seconds since the Unix epoch (UTC).

use vstd::prelude::*;

verus! {

/// A controller known to the facility, on or off its roster.
#[derive(Debug, Default)]
pub struct Controller {
    pub id: u32,
    pub cid: u32,
    pub first_name: String,
    pub last_name: String,
    pub operating_initials: Option<String>,
    pub rating: i8,
    pub status: String,
    pub discord_id: Option<String>,
    pub home_facility: String,
    pub is_on_roster: bool,
    pub roles: String,
    pub join_date: Option<i64>,
    pub loa_until: Option<i64>,
}

/// Copies an optional string.
fn clone_opt_string(s: &Option<String>) -> (r: Option<String>)
    ensures
        r == *s,
{
    match s {
        Some(v) => Some(v.clone()),
        None => None,
    }
}

impl Clone for Controller {
    fn clone(&self) -> (r: Self)
        ensures
            r == *self,
    {
        Controller {
            id: self.id,
            cid: self.cid,
            first_name: self.first_name.clone(),
            last_name: self.last_name.clone(),
            operating_initials: clone_opt_string(&self.operating_initials),
            rating: self.rating,
            status: self.status.clone(),
            discord_id: clone_opt_string(&self.discord_id),
            home_facility: self.home_facility.clone(),
            is_on_roster: self.is_on_roster,
            roles: self.roles.clone(),
            join_date: self.join_date,
            loa_until: self.loa_until,
        }
    }
}

/// A controller's certification on a position.
#[derive(Debug, Default)]
pub struct Certification {
    pub id: u32,
    pub cid: u32,
    pub name: String,
    /// "Training", "Solo", "Certified"
    pub value: String,
    pub changed_on: i64,
    pub set_by: u32,
}

impl Clone for Certification {
    fn clone(&self) -> (r: Self)
        ensures
            r == *self,
    {
        Certification {
            id: self.id,
            cid: self.cid,
            name: self.name.clone(),
            value: self.value.clone(),
            changed_on: self.changed_on,
            set_by: self.set_by,
        }
    }
}

/// Minutes a controller spent controlling in a month (`YYYY-MM`).
///
/// Joined with the `controller` table for the name.
#[derive(Debug, Clone, Default)]
pub struct Activity {
    pub id: u32,
    pub cid: u32,
    pub first_name: String,
    pub last_name: String,
    pub month: String,
    pub minutes: u32,
}

/// Feedback left for a controller.
#[derive(Debug, Clone, Default)]
pub struct Feedback {
    pub id: u32,
    pub controller: u32,
    pub position: String,
    pub rating: String,
    pub comments: String,
    pub created_date: i64,
    pub submitter_cid: u32,
    pub reviewed_by_cid: u32,
    pub reviewer_action: String,
    pub posted_to_discord: bool,
}

/// Feedback awaiting review, with the name of the controller it is about.
#[derive(Debug, Clone, Default)]
pub struct FeedbackForReview {
    pub id: u32,
    pub first_name: String,
    pub last_name: String,
    pub position: String,
    pub rating: String,
    pub comments: String,
    pub created_date: i64,
    pub submitter_cid: u32,
    pub reviewer_action: String,
}

/// A document or link offered on the resources page.
#[derive(Debug, Default)]
pub struct Resource {
    pub id: u32,
    pub category: String,
    pub name: String,
    pub file_name: Option<String>,
    pub link: Option<String>,
    pub updated: i64,
}

impl Clone for Resource {
    fn clone(&self) -> (r: Self)
        ensures
            r == *self,
    {
        Resource {
            id: self.id,
            category: self.category.clone(),
            name: self.name.clone(),
            file_name: clone_opt_string(&self.file_name),
            link: clone_opt_string(&self.link),
            updated: self.updated,
        }
    }
}

/// A request to join the facility as a visiting controller.
#[derive(Debug, Clone, Default)]
pub struct VisitorApplication {
    pub id: u32,
    pub cid: u32,
    pub first_name: String,
    pub last_name: String,
    pub home_facility: String,
    pub rating: u8,
    pub date: i64,
}

/// A facility event.
#[derive(Debug, Clone, Default)]
pub struct Event {
    pub id: u32,
    pub published: bool,
    pub name: String,
    pub start: i64,
    pub end: i64,
    pub description: Option<String>,
    pub image_url: Option<String>,
}

/// A position offered for an event.
#[derive(Debug, Clone, Default)]
pub struct EventPosition {
    pub id: u32,
    pub event_id: u32,
    pub name: String,
    pub category: String,
    pub cid: Option<u32>,
}

/// A controller's registration for an event, with up to three position
/// choices (0 for none).
#[derive(Debug, Clone, Default)]
pub struct EventRegistration {
    pub id: u32,
    pub event_id: u32,
    pub cid: u32,
    pub choice_1: u32,
    pub choice_2: u32,
    pub choice_3: u32,
    pub notes: Option<String>,
}

/// A note left by a staff member on a controller.
#[derive(Debug, Clone, Default)]
pub struct StaffNote {
    pub id: u32,
    pub cid: u32,
    pub by: u32,
    pub date: i64,
    pub comment: String,
}

// ---------------------------------------------------------------------------
// Statements
// ---------------------------------------------------------------------------

/// Statements to create tables. Only ran when the DB file does not exist,
/// so no migration or "IF NOT EXISTS" conditions need to be added.
pub const CREATE_TABLES: &'static str = r#"
CREATE TABLE controller (
    id INTEGER PRIMARY KEY NOT NULL,
    cid INTEGER NOT NULL UNIQUE,
    first_name TEXT NOT NULL,
    last_name TEXT NOT NULL,
    email TEXT,
    operating_initials TEXT,
    rating INTEGER,
    status TEXT,
    discord_id TEXT UNIQUE,
    home_facility TEXT,
    is_on_roster INTEGER,
    roles TEXT,
    join_date TEXT,
    loa_until TEXT
) STRICT;

CREATE TABLE certification (
    id INTEGER PRIMARY KEY NOT NULL,
    cid INTEGER NOT NULL,
    name TEXT NOT NULL,
    value TEXT NOT NULL,
    changed_on TEXT NOT NULL,
    set_by INTEGER NOT NULL
) STRICT;

CREATE TABLE feedback (
    id INTEGER PRIMARY KEY NOT NULL,
    controller INTEGER NOT NULL,
    position TEXT NOT NULL,
    rating TEXT NOT NULL,
    comments TEXT,
    created_date TEXT NOT NULL,
    submitter_cid INTEGER NOT NULL,
    reviewed_by_cid INTEGER,
    reviewer_action TEXT NOT NULL DEFAULT 'pending',
    posted_to_discord INTEGER NOT NULL DEFAULT FALSE
) STRICT;

CREATE TABLE activity (
    id INTEGER PRIMARY KEY NOT NULL,
    cid INTEGER NOT NULL,
    month TEXT NOT NULL,
    minutes INTEGER NOT NULL,

    FOREIGN KEY (cid) REFERENCES controller(cid)
) STRICT;

CREATE TABLE resource (
    id INTEGER PRIMARY KEY NOT NULL,
    category TEXT NOT NULL,
    name TEXT NOT NULL,
    file_name TEXT,
    link TEXT,
    updated TEXT NOT NULL
) STRICT;

CREATE TABLE visitor_request (
    id INTEGER PRIMARY KEY NOT NULL,
    cid INTEGER NOT NULL,
    first_name TEXT NOT NULL,
    last_name TEXT NOT NULL,
    home_facility TEXT NOT NULL,
    rating INTEGER NOT NULL,
    date TEXT NOT NULL
) STRICT;

CREATE TABLE event (
    id INTEGER PRIMARY KEY NOT NULL,
    created_by INTEGER NOT NULL,
    published INTEGER NOT NULL DEFAULT FALSE,
    name TEXT NOT NULL,
    start TEXT NOT NULL,
    end TEXT NOT NULL,
    description TEXT,
    image_url TEXT,

    FOREIGN KEY (created_by) REFERENCES controller(cid)
) STRICT;

CREATE TABLE event_position (
    id INTEGER PRIMARY KEY NOT NULL,
    event_id INTEGER NOT NULL,
    name TEXT NOT NULL,
    category TEXT NOT NULL,
    cid INTEGER,

    FOREIGN KEY (event_id) REFERENCES event(id),
    FOREIGN KEY (cid) REFERENCES controller(cid)
) STRICT;

CREATE TABLE event_registration (
    id INTEGER PRIMARY KEY NOT NULL,
    event_id INTEGER NOT NULL,
    cid INTEGER NOT NULL,
    choice_1 INTEGER,
    choice_2 INTEGER,
    choice_3 INTEGER,
    notes TEXT,

    UNIQUE(event_id, cid),
    FOREIGN KEY (event_id) REFERENCES event(id),
    FOREIGN KEY (cid) REFERENCES controller(cid),
    FOREIGN KEY (choice_1) REFERENCES event_position(id),
    FOREIGN KEY (choice_2) REFERENCES event_position(id),
    FOREIGN KEY (choice_3) REFERENCES event_position(id)
) STRICT;
"#;

pub const UPSERT_USER_LOGIN: &'static str = "
INSERT INTO controller
    (id, cid, first_name, last_name, email, is_on_roster)
VALUES
    (NULL, $1, $2, $3, $4, FALSE)
ON CONFLICT(cid) DO UPDATE SET
    first_name=excluded.first_name,
    last_name=excluded.last_name,
    email=excluded.email
WHERE
    cid=excluded.cid
";

pub const UPSERT_USER_TASK: &'static str = "
INSERT INTO controller
    (id, cid, first_name, last_name, email, rating, home_facility, is_on_roster, join_date, roles)
VALUES
    (NULL, $1, $2, $3, $4, $5, $6, $7, $8, $9)
ON CONFLICT(cid) DO UPDATE SET
    first_name=excluded.first_name,
    last_name=excluded.last_name,
    email=excluded.email,
    rating=excluded.rating,
    home_facility=excluded.home_facility,
    is_on_roster=excluded.is_on_roster,
    join_date=excluded.join_date,
    roles=excluded.roles
WHERE
    cid=excluded.cid
";

pub const GET_ALL_CONTROLLERS: &'static str = "SELECT * FROM controller";
pub const GET_ALL_CONTROLLERS_ON_ROSTER: &'static str = "SELECT * FROM controller WHERE is_on_roster=TRUE";
pub const GET_ALL_CONTROLLER_CIDS: &'static str = "SELECT cid FROM controller";
pub const GET_ALL_ROSTER_CONTROLLER_CIDS: &'static str =
    "SELECT cid FROM controller WHERE is_on_roster=TRUE";
pub const UPDATE_REMOVED_FROM_ROSTER: &'static str =
    "UPDATE controller SET is_on_roster=0, home_facility='', join_date=NULL, operating_initials=NULL WHERE cid=$1";
pub const UPDATE_CONTROLLER_OIS: &'static str = "UPDATE controller SET operating_initials=$2 WHERE cid=$1";
pub const GET_ALL_OIS: &'static str = "SELECT operating_initials FROM controller";
pub const GET_CONTROLLER_BY_CID: &'static str = "SELECT * FROM controller WHERE cid=$1";
pub const GET_CONTROLLER_CIDS_AND_NAMES: &'static str = "SELECT cid, first_name, last_name from controller";
pub const GET_ATM_AND_DATM: &'static str = "SELECT * FROM controller WHERE roles LIKE '%ATM%'";
pub const GET_CONTROLLER_BY_DISCORD_ID: &'static str = "SELECT * FROM controller WHERE discord_id=$1";
pub const SET_CONTROLLER_DISCORD_ID: &'static str = "UPDATE controller SET discord_id=$1 WHERE cid=$2";

pub const GET_ALL_CERTIFICATIONS: &'static str = "SELECT * FROM certification";
pub const GET_ALL_CERTIFICATIONS_FOR: &'static str = "SELECT * FROM certification WHERE cid=$1";

pub const GET_ALL_ACTIVITY: &'static str =
    "SELECT * FROM activity LEFT JOIN controller ON activity.cid = controller.cid";
pub const GET_ACTIVITY_IN_MONTH: &'static str =
    "SELECT activity.*, controller.first_name, controller.last_name FROM activity LEFT JOIN controller ON activity.cid = controller.cid WHERE month=$1 ORDER BY minutes DESC";
pub const DELETE_ACTIVITY_FOR_CID: &'static str = "DELETE FROM activity WHERE cid=$1";
pub const INSERT_INTO_ACTIVITY: &'static str = "
INSERT INTO activity
    (id, cid, month, minutes)
VALUES
    (NULL, $1, $2, $3)
";

pub const INSERT_FEEDBACK: &'static str = "
INSERT INTO feedback
    (id, controller, position, rating, comments, created_date, submitter_cid)
VALUES
    (NULL, $1, $2, $3, $4, $5, $6)
";
pub const GET_ALL_PENDING_FEEDBACK: &'static str =
    "SELECT * FROM feedback WHERE reviewed_by_cid IS NULL OR reviewer_action='archive'";
pub const GET_PENDING_FEEDBACK_FOR_REVIEW: &'static str =
    "SELECT feedback.*, controller.first_name, controller.last_name FROM feedback LEFT JOIN controller ON feedback.controller = controller.cid";
pub const GET_FEEDBACK_BY_ID: &'static str = "SELECT * FROM feedback WHERE id=$1";
pub const UPDATE_FEEDBACK_TAKE_ACTION: &'static str =
    "UPDATE feedback SET reviewed_by_cid=$1, reviewer_action=$2, posted_to_discord=$3 WHERE id=$4";
pub const DELETE_FROM_FEEDBACK: &'static str = "DELETE FROM feedback WHERE id=$1";

pub const GET_ALL_RESOURCES: &'static str = "SELECT * FROM resource";

pub const GET_PENDING_VISITOR_REQ_FOR: &'static str = "SELECT * FROM visitor_request WHERE cid=$1";
pub const INSERT_INTO_VISITOR_REQ: &'static str =
    "INSERT INTO visitor_request VALUES (NULL, $1, $2, $3, $4, $5, $6);";

pub const GET_UPCOMING_EVENTS: &'static str = "SELECT * FROM event WHERE end > $1 AND published = TRUE";
pub const GET_ALL_UPCOMING_EVENTS: &'static str = "SELECT * FROM event WHERE end > $1";
pub const GET_EVENT: &'static str = "SELECT * FROM event WHERE id=$1";
pub const DELETE_EVENT: &'static str = "DELETE FROM event WHERE id=$1";
pub const CREATE_EVENT: &'static str = "INSERT INTO event VALUES (NULL, $1, FALSE, $2, $3, $4, $5, $6);";
pub const UPDATE_EVENT: &'static str = "UPDATE event SET name=$2, published=$3, start=$4, end=$5, description=$6, image_url=$7 where id=$1";

pub const GET_EVENT_REGISTRATION_FOR: &'static str =
    "SELECT * FROM event_registration WHERE event_id=$1 AND cid=$2";
pub const GET_EVENT_REGISTRATIONS: &'static str = "SELECT * FROM event_registration WHERE event_id=$1";
pub const DELETE_EVENT_REGISTRATION: &'static str = "DELETE FROM event_registration WHERE id=$1";
pub const UPSERT_EVENT_REGISTRATION: &'static str = "
INSERT INTO event_registration
    (event_id, cid, choice_1, choice_2, choice_3, notes)
VALUES
    ($1, $2, $3, $4, $5, $6)
ON CONFLICT DO UPDATE SET
    choice_1=$3,
    choice_2=$4,
    choice_3=$5,
    notes=$6";

pub const GET_EVENT_POSITIONS: &'static str = "SELECT * FROM event_position WHERE event_id=$1";
pub const INSERT_EVENT_POSITION: &'static str =
    "INSERT INTO event_position VALUES (NULL, $1, $2, $3, NULL);";
pub const DELETE_EVENT_POSITION: &'static str = "DELETE FROM event_position WHERE id=$1";
pub const UPDATE_EVENT_POSITION_CONTROLLER: &'static str = "UPDATE event_position SET cid=$2 WHERE id=$1";

} // verus!

//! The VATUSA API: the addresses of its endpoints, the records it returns,
//! and what the site makes of them.

use crate::text::{
    append_str, chars_eq, chars_of, decimal, join_chars, join_with, lemma_push_contains,
    push_decimal, seqs_of, string_from_chars,
};
use crate::timestamps::{fields_valid, format_year_month_day_time, ymd_hm_text, DateTimeFields};
use std::collections::HashMap;
use vstd::prelude::*;

pub mod training_record_location;

verus! {

/// The API's JSON values, carried through as they came.
#[verifier::external_type_specification]
#[verifier::external_body]
pub struct ExJsonValue(serde_json::Value);

/// Which of a facility's controllers a roster request asks for.
#[derive(Debug, Clone, Copy, PartialEq, Eq, Structural)]
pub enum MembershipType {
    Home,
    Visit,
    Both,
}

/// The path segment that selects a membership in a roster request.
pub open spec fn membership_segment(membership: MembershipType) -> Seq<char> {
    match membership {
        MembershipType::Home => "home"@,
        MembershipType::Visit => "visit"@,
        MembershipType::Both => "both"@,
    }
}

impl MembershipType {
    /// The path segment of this membership.
    pub fn as_str(&self) -> (s: &'static str)
        ensures
            s@ == membership_segment(*self),
    {
        match self {
            MembershipType::Home => "home",
            MembershipType::Visit => "visit",
            MembershipType::Both => "both",
        }
    }
}

/// The root of the API.
pub open spec fn base_url() -> Seq<char> {
    "https://api.vatusa.net/"@
}

/// Roster of a facility.
pub open spec fn roster_url_spec(facility: Seq<char>, membership: MembershipType) -> Seq<char> {
    base_url() + "facility/"@ + facility + "/roster/"@ + membership_segment(membership)
}

/// A controller's transfer checklist.
pub open spec fn transfer_checklist_url_spec(cid: u32) -> Seq<char> {
    base_url() + "v2/user/"@ + decimal(cid as nat) + "/transfer/checklist"@
}

/// A controller's public information.
pub open spec fn controller_info_url_spec(cid: u32) -> Seq<char> {
    base_url() + "user/"@ + decimal(cid as nat)
}

/// Adding a visiting controller to the facility's roster.
pub open spec fn add_visitor_url_spec(cid: u32) -> Seq<char> {
    base_url() + "v2/facility/ZDV/roster/manageVisitor/"@ + decimal(cid as nat)
}

/// A controller's training records.
pub open spec fn training_records_url_spec(cid: u32) -> Seq<char> {
    base_url() + "v2/user/"@ + decimal(cid as nat) + "/training/records"@
}

/// Submitting a new training record for a controller.
pub open spec fn new_training_record_url_spec(cid: u32) -> Seq<char> {
    base_url() + "v2/user/"@ + decimal(cid as nat) + "/training/record"@
}

/// The request address for a facility's roster.
pub fn roster_url(facility: &str, membership: MembershipType) -> (url: String)
    ensures
        url@ == roster_url_spec(facility@, membership),
{
    let mut v: Vec<char> = Vec::new();
    append_str(&mut v, "https://api.vatusa.net/");
    append_str(&mut v, "facility/");
    append_str(&mut v, facility);
    append_str(&mut v, "/roster/");
    append_str(&mut v, membership.as_str());
    string_from_chars(&v)
}

/// The request address for a controller's transfer checklist.
pub fn transfer_checklist_url(cid: u32) -> (url: String)
    ensures
        url@ == transfer_checklist_url_spec(cid),
{
    let mut v: Vec<char> = Vec::new();
    append_str(&mut v, "https://api.vatusa.net/");
    append_str(&mut v, "v2/user/");
    push_decimal(&mut v, cid as u64);
    append_str(&mut v, "/transfer/checklist");
    string_from_chars(&v)
}

/// The request address for a controller's public information.
pub fn controller_info_url(cid: u32) -> (url: String)
    ensures
        url@ == controller_info_url_spec(cid),
{
    let mut v: Vec<char> = Vec::new();
    append_str(&mut v, "https://api.vatusa.net/");
    append_str(&mut v, "user/");
    push_decimal(&mut v, cid as u64);
    string_from_chars(&v)
}

/// The request address for adding a visiting controller.
pub fn add_visitor_url(cid: u32) -> (url: String)
    ensures
        url@ == add_visitor_url_spec(cid),
{
    let mut v: Vec<char> = Vec::new();
    append_str(&mut v, "https://api.vatusa.net/");
    append_str(&mut v, "v2/facility/ZDV/roster/manageVisitor/");
    push_decimal(&mut v, cid as u64);
    string_from_chars(&v)
}

/// The request address for a controller's training records.
pub fn training_records_url(cid: u32) -> (url: String)
    ensures
        url@ == training_records_url_spec(cid),
{
    let mut v: Vec<char> = Vec::new();
    append_str(&mut v, "https://api.vatusa.net/");
    append_str(&mut v, "v2/user/");
    push_decimal(&mut v, cid as u64);
    append_str(&mut v, "/training/records");
    string_from_chars(&v)
}

/// The request address for submitting a controller's new training record.
pub fn new_training_record_url(cid: u32) -> (url: String)
    ensures
        url@ == new_training_record_url_spec(cid),
{
    let mut v: Vec<char> = Vec::new();
    append_str(&mut v, "https://api.vatusa.net/");
    append_str(&mut v, "v2/user/");
    push_decimal(&mut v, cid as u64);
    append_str(&mut v, "/training/record");
    string_from_chars(&v)
}

/// A staff role a controller holds at a facility.
#[derive(Debug)]
pub struct RosterMemberRole {
    pub id: u32,
    pub cid: u32,
    pub facility: String,
    pub role: String,
    pub created_at: String,
}

/// A facility a controller visits.
#[derive(Debug)]
pub struct RosterMemberVisiting {
    pub id: u32,
    pub cid: u32,
    pub facility: String,
    pub created_at: String,
    pub updated_at: String,
}

/// A controller as the roster and user endpoints describe them.
#[derive(Debug)]
pub struct RosterMember {
    pub cid: u32,
    pub first_name: String,
    pub last_name: String,
    pub email: Option<String>,
    pub facility: String,
    pub rating: u8,
    pub created_at: String,
    pub updated_at: String,
    pub flag_need_basic: bool,
    pub flag_transfer_override: bool,
    pub facility_join: String,
    pub flag_home_controller: bool,
    pub last_activity: String,
    pub flag_broadcast_opted_in: Option<bool>,
    pub flag_prevent_staff_assign: Option<bool>,
    pub discord_id: Option<u64>,
    pub last_cert_sync: String,
    pub flag_name_privacy: bool,
    pub last_competency_date: Option<String>,
    pub promotion_eligible: Option<bool>,
    pub transfer_eligible: Option<serde_json::Value>,
    pub roles: Vec<RosterMemberRole>,
    pub rating_short: String,
    pub visiting_facilities: Option<Vec<RosterMemberVisiting>>,
    pub is_mentor: bool,
    pub is_sup_ins: bool,
    pub last_promotion: Option<String>,
}

/// A controller's transfer checklist.
#[derive(Debug, Clone, Copy)]
pub struct TransferChecklist {
    pub home_controller: bool,
    pub need_basic: bool,
    pub pending: bool,
    pub initial: bool,
    pub rating_90_days: bool,
    pub promo: bool,
    pub controlled_50_hrs: bool,
    pub has_override: bool,
    pub is_first: bool,
    pub days: bool,
    pub visiting_days: bool,
    pub last_visit_60_days: bool,
    pub has_home: bool,
    pub has_rating: bool,
    pub instructor: bool,
    pub staff: bool,
    /// computed flag for whether or not the controller meets basic visiting requirements
    pub visiting: bool,
    pub overall: bool,
}

/// A training session record.
#[derive(Debug)]
pub struct TrainingRecord {
    pub id: u32,
    pub student_id: u32,
    pub instructor_id: u32,
    pub session_date: String,
    pub facility_id: String,
    pub position: String,
    pub duration: String,
    pub notes: String,
}

impl Clone for TrainingRecord {
    fn clone(&self) -> (r: Self)
        ensures
            r == *self,
    {
        TrainingRecord {
            id: self.id,
            student_id: self.student_id,
            instructor_id: self.instructor_id,
            session_date: self.session_date.clone(),
            facility_id: self.facility_id.clone(),
            position: self.position.clone(),
            duration: self.duration.clone(),
            notes: self.notes.clone(),
        }
    }
}

// ---------------------------------------------------------------------------
// Roles a roster member holds here
// ---------------------------------------------------------------------------

/// The names of the member's roles at `facility`, in order, leaving out
/// "INS" (an instructor role some controllers hold beside their rating).
pub open spec fn facility_role_names(roles: Seq<RosterMemberRole>, facility: Seq<char>) -> Seq<
    Seq<char>,
>
    decreases roles.len(),
{
    if roles.len() == 0 {
        Seq::empty()
    } else {
        let prev = facility_role_names(roles.drop_last(), facility);
        let r = roles.last();
        if r.facility@ == facility && r.role@ != "INS"@ {
            prev.push(r.role@)
        } else {
            prev
        }
    }
}

/// The roles column stored for a roster member: their roles at
/// `facility`, comma-separated.
pub open spec fn stored_roles(member: RosterMember, facility: Seq<char>) -> Seq<char> {
    join_with(facility_role_names(member.roles@, facility), ","@)
}

/// The stored roles are the member's roles at the facility, "INS" left out:
/// each name comes from a role held there, and "INS" is never among them.
#[verifier::spinoff_prover]
pub proof fn lemma_facility_role_names(roles: Seq<RosterMemberRole>, facility: Seq<char>, name: Seq<char>)
    ensures
        facility_role_names(roles, facility).contains(name) <==> name != "INS"@ && exists|k: int|
            0 <= k < roles.len() && #[trigger] roles[k].facility@ == facility && roles[k].role@
                == name,
    decreases roles.len(),
{
    if roles.len() > 0 {
        let rest = roles.drop_last();
        let r = roles.last();
        lemma_facility_role_names(rest, facility, name);
        let prev = facility_role_names(rest, facility);
        if r.facility@ == facility && r.role@ != "INS"@ {
            assert(facility_role_names(roles, facility) == prev.push(r.role@));
            lemma_push_contains(prev, r.role@, name);
        } else {
            assert(facility_role_names(roles, facility) == prev);
        }
        if exists|k: int| 0 <= k < rest.len() && #[trigger] rest[k].facility@ == facility
            && rest[k].role@ == name {
            let k = choose|k: int| 0 <= k < rest.len() && #[trigger] rest[k].facility@ == facility
                && rest[k].role@ == name;
            assert(roles[k] == rest[k]);
        }
        if exists|k: int| 0 <= k < roles.len() && #[trigger] roles[k].facility@ == facility
            && roles[k].role@ == name {
            let k = choose|k: int| 0 <= k < roles.len() && #[trigger] roles[k].facility@ == facility
                && roles[k].role@ == name;
            if k < roles.len() - 1 {
                assert(rest[k] == roles[k]);
            }
        }
    }
}

/// The roles to store for a roster member.
pub fn controller_roles(member: &RosterMember, facility: &str) -> (roles: String)
    ensures
        roles@ == stored_roles(*member, facility@),
{
    let fac = chars_of(facility);
    let ins = chars_of("INS");
    let mut names: Vec<Vec<char>> = Vec::new();
    let mut i: usize = 0;
    while i < member.roles.len()
        invariant
            i <= member.roles.len(),
            fac@ == facility@,
            ins@ == "INS"@,
            seqs_of(names@) == facility_role_names(member.roles@.take(i as int), facility@),
        decreases member.roles.len() - i,
    {
        assert(member.roles@.take(i + 1).drop_last() =~= member.roles@.take(i as int));
        let role = &member.roles[i];
        let f = chars_of(role.facility.as_str());
        let name = chars_of(role.role.as_str());
        if chars_eq(&f, &fac) && !chars_eq(&name, &ins) {
            names.push(name);
            assert(seqs_of(names@) =~= facility_role_names(member.roles@.take(i as int), facility@).push(
                role.role@,
            ));
        }
        i = i + 1;
    }
    assert(member.roles@.take(member.roles.len() as int) =~= member.roles@);
    let comma = chars_of(",");
    let joined = join_chars(&names, &comma);
    string_from_chars(&joined)
}

// ---------------------------------------------------------------------------
// Roster membership
// ---------------------------------------------------------------------------

/// The stored controllers that the fresh roster no longer lists, in
/// stored order.
pub open spec fn removed_cids(current: Seq<u32>, stored: Seq<u32>) -> Seq<u32> {
    stored.filter(|cid: u32| !current.contains(cid))
}

/// Whether `cid` is among `cids`.
fn contains_cid(cids: &Vec<u32>, cid: u32) -> (r: bool)
    ensures
        r == cids@.contains(cid),
{
    let mut i: usize = 0;
    while i < cids.len()
        invariant
            i <= cids.len(),
            forall|j: int| 0 <= j < i ==> cids@[j] != cid,
        decreases cids.len() - i,
    {
        if cids[i] == cid {
            return true;
        }
        i = i + 1;
    }
    false
}

/// The stored controllers to mark as off the roster: those whose CID the
/// fresh roster does not hold.
pub fn removed_from_roster(current: &Vec<u32>, stored: &Vec<u32>) -> (removed: Vec<u32>)
    ensures
        removed@ == removed_cids(current@, stored@),
{
    let mut removed: Vec<u32> = Vec::new();
    let mut i: usize = 0;
    while i < stored.len()
        invariant
            i <= stored.len(),
            removed@ == removed_cids(current@, stored@.take(i as int)),
        decreases stored.len() - i,
    {
        let ghost pre = stored@.take(i as int);
        assert(stored@.take(i + 1).drop_last() =~= pre);
        proof {
            reveal(Seq::filter);
        }
        let cid = stored[i];
        if !contains_cid(current, cid) {
            removed.push(cid);
        }
        i = i + 1;
    }
    assert(stored@.take(stored.len() as int) =~= stored@);
    removed
}

/// The CIDs of the members of a roster, in roster order.
pub fn roster_cids(members: &Vec<RosterMember>) -> (cids: Vec<u32>)
    ensures
        cids@.len() == members@.len(),
        forall|i: int| 0 <= i < members@.len() ==> cids@[i] == #[trigger] members@[i].cid,
{
    let mut cids: Vec<u32> = Vec::new();
    let mut i: usize = 0;
    while i < members.len()
        invariant
            i <= members.len(),
            cids@.len() == i,
            forall|j: int| 0 <= j < i ==> cids@[j] == #[trigger] members@[j].cid,
        decreases members.len() - i,
    {
        cids.push(members[i].cid);
        i = i + 1;
    }
    cids
}

/// A controller that a roster lists is not marked as removed from it.
pub proof fn lemma_listed_not_removed(current: Seq<u32>, stored: Seq<u32>, cid: u32)
    requires
        current.contains(cid),
    ensures
        !removed_cids(current, stored).contains(cid),
{
    if removed_cids(current, stored).contains(cid) {
        let w = choose|w: int|
            0 <= w < removed_cids(current, stored).len() && removed_cids(current, stored)[w] == cid;
        stored.lemma_filter_pred(|c: u32| !current.contains(c), w);
    }
}

// ---------------------------------------------------------------------------
// Training records
// ---------------------------------------------------------------------------

/// The training records taken at `facility`, in order.
pub open spec fn records_at(records: Seq<TrainingRecord>, facility: Seq<char>) -> Seq<TrainingRecord> {
    records.filter(|r: TrainingRecord| r.facility_id@ == facility)
}

/// The training records taken at the facility (ZDV).
pub fn facility_training_records(records: &Vec<TrainingRecord>) -> (here: Vec<TrainingRecord>)
    ensures
        here@ == records_at(records@, "ZDV"@),
{
    let zdv = chars_of("ZDV");
    let mut here: Vec<TrainingRecord> = Vec::new();
    let mut i: usize = 0;
    while i < records.len()
        invariant
            i <= records.len(),
            zdv@ == "ZDV"@,
            here@ == records_at(records@.take(i as int), "ZDV"@),
        decreases records.len() - i,
    {
        assert(records@.take(i + 1).drop_last() =~= records@.take(i as int));
        proof {
            reveal(Seq::filter);
        }
        let f = chars_of(records[i].facility_id.as_str());
        if chars_eq(&f, &zdv) {
            here.push(records[i].clone());
        }
        i = i + 1;
    }
    assert(records@.take(records.len() as int) =~= records@);
    here
}

/// What `voca_rs::strip::strip_tags` makes of a string: the text with its
/// HTML tags taken out.
pub uninterp spec fn stripped_of_tags(s: Seq<char>) -> Seq<char>;

/// Calls `voca_rs::strip::strip_tags`. Claimed: the result is
/// `stripped_of_tags` of the argument, and the empty string stays empty
/// (its first match arm).
#[verifier::external_body]
fn strip_tags(s: &str) -> (r: String)
    ensures
        r@ == stripped_of_tags(s@),
        s@.len() == 0 ==> r@.len() == 0,
{
    voca_rs::strip::strip_tags(s)
}

/// Takes the HTML tags out of each record's notes, for showing a
/// controller their own records; everything else is kept.
pub fn strip_training_notes(records: &mut Vec<TrainingRecord>)
    ensures
        final(records)@.len() == old(records)@.len(),
        forall|i: int|
            0 <= i < old(records)@.len() ==> {
                let (a, b) = (#[trigger] final(records)@[i], old(records)@[i]);
                &&& a.notes@ == stripped_of_tags(b.notes@)
                &&& a.id == b.id
                &&& a.student_id == b.student_id
                &&& a.instructor_id == b.instructor_id
                &&& a.session_date == b.session_date
                &&& a.facility_id == b.facility_id
                &&& a.position == b.position
                &&& a.duration == b.duration
            },
{
    let mut i: usize = 0;
    while i < records.len()
        invariant
            i <= records.len(),
            records@.len() == old(records)@.len(),
            forall|j: int|
                i <= j < records@.len() ==> #[trigger] records@[j] == old(records)@[j],
            forall|j: int|
                0 <= j < i ==> {
                    let (a, b) = (#[trigger] records@[j], old(records)@[j]);
                    &&& a.notes@ == stripped_of_tags(b.notes@)
                    &&& a.id == b.id
                    &&& a.student_id == b.student_id
                    &&& a.instructor_id == b.instructor_id
                    &&& a.session_date == b.session_date
                    &&& a.facility_id == b.facility_id
                    &&& a.position == b.position
                    &&& a.duration == b.duration
                },
        decreases records.len() - i,
    {
        let mut r = records[i].clone();
        r.notes = strip_tags(r.notes.as_str());
        records.set(i, r);
        i = i + 1;
    }
}

/// The instructors of the records, each once, in order of first
/// appearance.
pub fn instructor_cids(records: &Vec<TrainingRecord>) -> (cids: Vec<u32>)
    ensures
        forall|i: int, j: int| 0 <= i < j < cids@.len() ==> cids@[i] != cids@[j],
        forall|c: u32|
            cids@.contains(c) <==> exists|k: int|
                0 <= k < records@.len() && #[trigger] records@[k].instructor_id == c,
{
    let mut cids: Vec<u32> = Vec::new();
    let mut i: usize = 0;
    while i < records.len()
        invariant
            i <= records.len(),
            forall|a: int, b: int| 0 <= a < b < cids@.len() ==> cids@[a] != cids@[b],
            forall|c: u32|
                cids@.contains(c) <==> exists|k: int|
                    0 <= k < i && #[trigger] records@[k].instructor_id == c,
        decreases records.len() - i,
    {
        let c = records[i].instructor_id;
        let ghost old_cids = cids@;
        let seen = contains_cid(&cids, c);
        if !seen {
            cids.push(c);
            assert forall|a: int, b: int| 0 <= a < b < cids@.len() implies cids@[a] != cids@[b] by {
                if b == cids@.len() - 1 {
                    assert(old_cids[a] == cids@[a]);
                }
            }
        }
        assert forall|d: u32|
            cids@.contains(d) <==> exists|k: int|
                0 <= k < i + 1 && #[trigger] records@[k].instructor_id == d by {
            if cids@.contains(d) {
                let w = choose|w: int| 0 <= w < cids@.len() && cids@[w] == d;
                if w < old_cids.len() {
                    assert(old_cids[w] == d);
                    assert(old_cids.contains(d));
                    let k = choose|k: int| 0 <= k < i && #[trigger] records@[k].instructor_id == d;
                    assert(records@[k].instructor_id == d);
                } else {
                    assert(records@[i as int].instructor_id == d);
                }
            }
            if exists|k: int| 0 <= k < i + 1 && #[trigger] records@[k].instructor_id == d {
                let k = choose|k: int| 0 <= k < i + 1 && #[trigger] records@[k].instructor_id == d;
                if k < i {
                    assert(records@[k].instructor_id == d);
                    assert(old_cids.contains(d));
                    let w = choose|w: int| 0 <= w < old_cids.len() && old_cids[w] == d;
                    assert(cids@[w] == d);
                } else if seen {
                    let w = choose|w: int| 0 <= w < old_cids.len() && old_cids[w] == d;
                    assert(cids@[w] == d);
                } else {
                    assert(cids@[cids@.len() - 1] == d);
                }
            }
        }
        i = i + 1;
    }
    cids
}


// ---------------------------------------------------------------------------
// Controller names
// ---------------------------------------------------------------------------

/// The name shown for a member: first and last name, space-separated.
pub open spec fn member_full_name(member: RosterMember) -> Seq<char> {
    member.first_name@ + " "@ + member.last_name@
}

/// The names by CID, later members taking precedence.
pub open spec fn names_by_cid(members: Seq<RosterMember>) -> Map<u32, Seq<char>>
    decreases members.len(),
{
    if members.len() == 0 {
        Map::empty()
    } else {
        names_by_cid(members.drop_last()).insert(
            members.last().cid,
            member_full_name(members.last()),
        )
    }
}

/// The view of a map from CIDs to names.
pub open spec fn name_map_view(m: Map<u32, String>) -> Map<u32, Seq<char>> {
    Map::new(|k: u32| m.contains_key(k), |k: u32| m[k]@)
}

/// Each member's first and last name, by CID.
pub fn controller_names(members: &Vec<RosterMember>) -> (names: HashMap<u32, String>)
    ensures
        name_map_view(names@) == names_by_cid(members@),
{
    broadcast use vstd::std_specs::hash::group_hash_axioms;

    let mut names: HashMap<u32, String> = HashMap::new();
    let mut i: usize = 0;
    while i < members.len()
        invariant
            i <= members.len(),
            name_map_view(names@) == names_by_cid(members@.take(i as int)),
        decreases members.len() - i,
    {
        assert(members@.take(i + 1).drop_last() =~= members@.take(i as int));
        let m = &members[i];
        let mut v = chars_of(m.first_name.as_str());
        append_str(&mut v, " ");
        append_str(&mut v, m.last_name.as_str());
        let name = string_from_chars(&v);
        let ghost before = names@;
        names.insert(m.cid, name);
        assert(name_map_view(names@) =~= name_map_view(before).insert(
            m.cid,
            member_full_name(*m),
        ));
        i = i + 1;
    }
    assert(members@.take(members.len() as int) =~= members@);
    names
}

// ---------------------------------------------------------------------------
// New training records
// ---------------------------------------------------------------------------

/// Data required for creating a new VATUSA training record.
///
/// The CID must also be supplied.
#[derive(Debug)]
pub struct NewTrainingRecord {
    pub instructor_id: String,
    pub date: DateTimeFields,
    pub position: String,
    pub duration: String,
    pub location: u8,
    pub notes: String,
}

/// A new training record taken by the instructor with the given CID.
pub fn new_training_record(
    instructor_cid: u32,
    date: DateTimeFields,
    position: String,
    duration: String,
    location: u8,
    notes: String,
) -> (r: NewTrainingRecord)
    ensures
        r.instructor_id@ == decimal(instructor_cid as nat),
        r.date == date,
        r.position == position,
        r.duration == duration,
        r.location == location,
        r.notes == notes,
{
    let mut v: Vec<char> = Vec::new();
    push_decimal(&mut v, instructor_cid as u64);
    NewTrainingRecord {
        instructor_id: string_from_chars(&v),
        date,
        position,
        duration,
        location,
        notes,
    }
}

/// The fields sent to VATUSA to store a new training record.
#[derive(Debug)]
pub struct TrainingRecordSubmission {
    pub instructor_id: String,
    pub session_date: String,
    pub position: String,
    pub duration: String,
    pub location: u8,
    pub notes: String,
}

/// The submission for a new training record: its fields, with the session
/// date written as `%Y-%m-%d %H:%M`. The session date is a real date and
/// time (as a form time read by `js_timestamp_to_utc` always is).
pub fn training_record_submission(record: &NewTrainingRecord) -> (s: TrainingRecordSubmission)
    requires
        fields_valid(record.date),
    ensures
        s.instructor_id@ == record.instructor_id@,
        s.position@ == record.position@,
        s.duration@ == record.duration@,
        s.location == record.location,
        s.notes@ == record.notes@,
        s.session_date@ == ymd_hm_text(record.date),
{
    TrainingRecordSubmission {
        instructor_id: record.instructor_id.clone(),
        session_date: format_year_month_day_time(record.date),
        position: record.position.clone(),
        duration: record.duration.clone(),
        location: record.location,
        notes: record.notes.clone(),
    }
}

} // verus!

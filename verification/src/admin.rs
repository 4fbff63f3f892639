//! Staff administration: reviewing feedback, reading logs, and deciding
//! visitor applications.

use crate::email::{visitor_accepted_template, visitor_denied_template};
use crate::flashed_messages::FlashedMessageLevel;
use crate::sql::{Controller, Feedback};
use crate::text::{
    lemma_push_contains, lemma_strings_of_push, chars_eq, chars_of, join_strings, join_with, parse_unsigned, parse_unsigned_exec, strings_of,
    append_str, string_from_chars,
};
use crate::vatusa::{RosterMember, RosterMemberVisiting};
use std::collections::HashMap;
use vstd::prelude::*;

verus! {

// ---------------------------------------------------------------------------
// Feedback review
// ---------------------------------------------------------------------------

/// What a staff member's action on a piece of feedback does.
#[derive(Debug, Clone, Copy, PartialEq, Eq, Structural)]
pub enum FeedbackReview {
    /// No feedback has the given id.
    NotFound,
    /// Mark it reviewed without sharing it.
    Archive,
    /// Remove it.
    Delete,
    /// Share it on Discord and mark it posted.
    PostToDiscord,
    /// An action the form does not offer: nothing happens.
    Nothing,
}

/// The review that the form's action asks for.
pub open spec fn review_for(found: bool, action: Seq<char>) -> FeedbackReview {
    if !found {
        FeedbackReview::NotFound
    } else if action == "Archive"@ {
        FeedbackReview::Archive
    } else if action == "Delete"@ {
        FeedbackReview::Delete
    } else if action == "Post to Discord"@ {
        FeedbackReview::PostToDiscord
    } else {
        FeedbackReview::Nothing
    }
}

/// Handle a staff member's action on feedback: `found` says whether the
/// feedback exists.
pub fn review_feedback(found: bool, action: &str) -> (r: FeedbackReview)
    ensures
        r == review_for(found, action@),
{
    if !found {
        return FeedbackReview::NotFound;
    }
    let a = chars_of(action);
    if chars_eq(&a, &chars_of("Archive")) {
        FeedbackReview::Archive
    } else if chars_eq(&a, &chars_of("Delete")) {
        FeedbackReview::Delete
    } else if chars_eq(&a, &chars_of("Post to Discord")) {
        FeedbackReview::PostToDiscord
    } else {
        FeedbackReview::Nothing
    }
}

/// The action stored with the feedback and whether it was posted.
pub open spec fn stored_review(r: FeedbackReview) -> Option<(Seq<char>, bool)> {
    match r {
        FeedbackReview::Archive => Some(("archive"@, false)),
        FeedbackReview::PostToDiscord => Some(("post"@, true)),
        _ => None,
    }
}

/// The message flashed after a review.
pub open spec fn review_message(r: FeedbackReview) -> Option<(FlashedMessageLevel, Seq<char>)> {
    match r {
        FeedbackReview::NotFound => Some((FlashedMessageLevel::Error, "Feedback not found"@)),
        FeedbackReview::Archive => Some((FlashedMessageLevel::Success, "Feedback archived"@)),
        FeedbackReview::Delete => Some((FlashedMessageLevel::Success, "Feedback deleted"@)),
        FeedbackReview::PostToDiscord => Some((FlashedMessageLevel::Success, "Feedback shared"@)),
        FeedbackReview::Nothing => None,
    }
}

impl FeedbackReview {
    /// The action to store with the feedback and whether it was posted.
    pub fn stored(&self) -> (r: Option<(&'static str, bool)>)
        ensures
            match r {
                Some((a, p)) => stored_review(*self) == Some((a@, p)),
                None => stored_review(*self).is_none(),
            },
    {
        match self {
            FeedbackReview::Archive => Some(("archive", false)),
            FeedbackReview::PostToDiscord => Some(("post", true)),
            _ => None,
        }
    }

    /// The message to flash to the staff member.
    pub fn message(&self) -> (r: Option<(FlashedMessageLevel, &'static str)>)
        ensures
            match r {
                Some((l, m)) => review_message(*self) == Some((l, m@)),
                None => review_message(*self).is_none(),
            },
    {
        match self {
            FeedbackReview::NotFound => Some((FlashedMessageLevel::Error, "Feedback not found")),
            FeedbackReview::Archive => Some((FlashedMessageLevel::Success, "Feedback archived")),
            FeedbackReview::Delete => Some((FlashedMessageLevel::Success, "Feedback deleted")),
            FeedbackReview::PostToDiscord => Some(
                (FlashedMessageLevel::Success, "Feedback shared"),
            ),
            FeedbackReview::Nothing => None,
        }
    }
}

/// The fields of the Discord post that shares feedback.
#[derive(Debug)]
pub struct FeedbackPost {
    pub controller: String,
    pub position: String,
    pub rating: String,
    pub comments: String,
}

/// The fields of the post sharing `feedback` about `controller` (the
/// controller's name, or nothing when their record is missing).
pub fn feedback_post(controller: &Option<Controller>, feedback: &Feedback) -> (p: FeedbackPost)
    ensures
        p.controller@ == match controller {
            Some(c) => c.first_name@ + " "@ + c.last_name@,
            None => Seq::<char>::empty(),
        },
        p.position@ == feedback.position@,
        p.rating@ == feedback.rating@,
        p.comments@ == feedback.comments@,
{
    let name = match controller {
        Some(c) => {
            let mut v = chars_of(c.first_name.as_str());
            append_str(&mut v, " ");
            append_str(&mut v, c.last_name.as_str());
            string_from_chars(&v)
        },
        None => String::new(),
    };
    FeedbackPost {
        controller: name,
        position: feedback.position.clone(),
        rating: feedback.rating.clone(),
        comments: feedback.comments.clone(),
    }
}

// ---------------------------------------------------------------------------
// Logs
// ---------------------------------------------------------------------------

/// How many log lines the logs page shows when none or a bad number is asked
/// for.
pub open spec fn default_log_lines() -> u64 {
    100
}

/// The number of log lines to show: the `lines` parameter when it reads as
/// an unsigned 64-bit integer, else 100.
pub open spec fn log_line_count_spec(param: Option<Seq<char>>) -> u64 {
    match param {
        Some(p) => match parse_unsigned(p, u64::MAX as nat) {
            Some(n) => n as u64,
            None => default_log_lines(),
        },
        None => default_log_lines(),
    }
}

/// The number of log lines to show.
pub fn log_line_count(param: Option<&str>) -> (n: u64)
    ensures
        n == log_line_count_spec(
            match param {
                Some(p) => Some(p@),
                None => None,
            },
        ),
{
    match param {
        Some(p) => {
            let chars = chars_of(p);
            match parse_unsigned_exec(&chars, u64::MAX) {
                Some(n) => n,
                None => 100,
            }
        },
        None => 100,
    }
}

/// The last `count` lines of a log, oldest first, joined by line breaks;
/// `newest_first` are the log's lines read from its end.
pub open spec fn log_tail(newest_first: Seq<String>, count: u64) -> Seq<char> {
    let n = if count < newest_first.len() {
        count as int
    } else {
        newest_first.len() as int
    };
    join_with(strings_of(newest_first.take(n)).reverse(), "<br>"@)
}

/// The last `count` lines of a log for the logs page.
pub fn log_tail_exec(newest_first: &Vec<String>, count: u64) -> (s: String)
    ensures
        s@ == log_tail(newest_first@, count),
{
    let n: usize = if count < newest_first.len() as u64 {
        count as usize
    } else {
        newest_first.len()
    };
    let ghost taken = strings_of(newest_first@.take(n as int));
    let mut oldest_first: Vec<String> = Vec::new();
    let mut i: usize = n;
    while i > 0
        invariant
            i <= n,
            n <= newest_first.len(),
            taken == strings_of(newest_first@.take(n as int)),
            strings_of(oldest_first@) == taken.reverse().take(n - i),
        decreases i,
    {
        i = i - 1;
        let line = newest_first[i].clone();
        proof {
            lemma_strings_of_push(oldest_first@, line);
            assert(taken.reverse()[n - 1 - i] == taken[i as int]);
            assert(taken[i as int] == newest_first@[i as int]@);
            assert(taken.reverse().take(n - i) =~= taken.reverse().take(n - i - 1).push(
                taken.reverse()[n - 1 - i],
            ));
        }
        oldest_first.push(line);
    }
    assert(taken.reverse().take(n as int) =~= taken.reverse());
    join_strings(&oldest_first, "<br>")
}

// ---------------------------------------------------------------------------
// Visitor applications
// ---------------------------------------------------------------------------

/// The first controller information with the CID.
pub open spec fn info_for(infos: Seq<RosterMember>, cid: u32) -> Option<RosterMember>
    decreases infos.len(),
{
    if infos.len() == 0 {
        None
    } else if infos[0].cid == cid {
        Some(infos[0])
    } else {
        info_for(infos.drop_first(), cid)
    }
}

/// The facilities of the visits.
pub open spec fn visited_facilities(visits: Seq<RosterMemberVisiting>) -> Seq<Seq<char>> {
    visits.map_values(|f: RosterMemberVisiting| f.facility@)
}

/// The facilities a controller already visits, comma-separated.
pub open spec fn visiting_list(info: RosterMember) -> Seq<char> {
    match info.visiting_facilities {
        Some(v) => join_with(visited_facilities(v@), ", "@),
        None => Seq::empty(),
    }
}

/// For each applicant with known information, the facilities they already
/// visit.
pub open spec fn already_visiting_spec(cids: Seq<u32>, infos: Seq<RosterMember>) -> Map<
    u32,
    Seq<char>,
> {
    Map::new(
        |cid: u32| cids.contains(cid) && info_for(infos, cid).is_some(),
        |cid: u32| visiting_list(info_for(infos, cid).unwrap()),
    )
}

/// The first information with the CID, by index.
fn info_index(infos: &Vec<RosterMember>, cid: u32) -> (r: Option<usize>)
    ensures
        match info_for(infos@, cid) {
            Some(info) => r matches Some(i) && i < infos@.len() && infos@[i as int] == info,
            None => r is None,
        },
{
    let mut i: usize = 0;
    assert(infos@.skip(0) =~= infos@);
    while i < infos.len()
        invariant
            i <= infos.len(),
            info_for(infos@, cid) == info_for(infos@.skip(i as int), cid),
        decreases infos.len() - i,
    {
        assert(infos@.skip(i as int)[0] == infos@[i as int]);
        if infos[i].cid == cid {
            return Some(i);
        }
        assert(infos@.skip(i as int).drop_first() =~= infos@.skip(i + 1));
        i = i + 1;
    }
    None
}

/// The facilities a controller visits, comma-separated.
fn visiting_list_exec(info: &RosterMember) -> (s: String)
    ensures
        s@ == visiting_list(*info),
{
    match &info.visiting_facilities {
        Some(visits) => {
            let mut names: Vec<String> = Vec::new();
            let mut i: usize = 0;
            while i < visits.len()
                invariant
                    i <= visits.len(),
                    strings_of(names@) == visited_facilities(visits@).take(i as int),
                decreases visits.len() - i,
            {
                let f = visits[i].facility.clone();
                proof {
                    lemma_strings_of_push(names@, f);
                }
                names.push(f);
                assert(strings_of(names@) =~= visited_facilities(visits@).take(i + 1));
                i = i + 1;
            }
            assert(visited_facilities(visits@).take(visits.len() as int) =~= visited_facilities(
                visits@,
            ));
            join_strings(&names, ", ")
        },
        None => String::new(),
    }
}

/// The view of a map from CIDs to strings.
pub open spec fn cid_map_view(m: Map<u32, String>) -> Map<u32, Seq<char>> {
    Map::new(|k: u32| m.contains_key(k), |k: u32| m[k]@)
}

/// For the visitor applications page: for each applicant CID with
/// controller information, the facilities they already visit.
pub fn already_visiting(cids: &Vec<u32>, infos: &Vec<RosterMember>) -> (m: HashMap<u32, String>)
    ensures
        cid_map_view(m@) == already_visiting_spec(cids@, infos@),
{
    broadcast use vstd::std_specs::hash::group_hash_axioms;

    let mut m: HashMap<u32, String> = HashMap::new();
    let mut i: usize = 0;
    while i < cids.len()
        invariant
            i <= cids.len(),
            cid_map_view(m@) == already_visiting_spec(cids@.take(i as int), infos@),
        decreases cids.len() - i,
    {
        let cid = cids[i];
        let ghost before = m@;
        let ghost spec_next = already_visiting_spec(cids@.take(i + 1), infos@);
        assert(cids@.take(i + 1) =~= cids@.take(i as int).push(cid));
        assert forall|c: u32| #[trigger] cids@.take(i + 1).contains(c) <==> (cids@.take(
            i as int,
        ).contains(c) || c == cid) by {
            lemma_push_contains(cids@.take(i as int), cid, c);
        }
        match info_index(infos, cid) {
            Some(k) => {
                let list = visiting_list_exec(&infos[k]);
                m.insert(cid, list);
                assert(m@ == before.insert(cid, list));
                assert(info_for(infos@, cid) == Some(infos@[k as int]));
                assert forall|c: u32| #[trigger] spec_next.contains_key(c) == cid_map_view(m@).contains_key(c) by {
                    if c != cid {
                        assert(cids@.take(i + 1).contains(c) == cids@.take(i as int).contains(c));
                        assert(cid_map_view(before).contains_key(c) == before.contains_key(c));
                        assert(already_visiting_spec(cids@.take(i as int), infos@).contains_key(c) == cid_map_view(before).contains_key(c));
                    } else {
                        assert(cids@.take(i + 1).contains(c));
                    }
                }
                assert forall|c: u32| #[trigger] cid_map_view(m@).contains_key(c) implies cid_map_view(
                    m@,
                )[c] == spec_next[c] by {
                    if c != cid {
                        assert(cids@.take(i + 1).contains(c) == cids@.take(i as int).contains(c));
                        assert(cid_map_view(m@)[c] == cid_map_view(before)[c]);
                        assert(before.contains_key(c));
                        assert(already_visiting_spec(cids@.take(i as int), infos@).contains_key(c));
                        assert(already_visiting_spec(cids@.take(i as int), infos@)[c] == cid_map_view(before)[c]);
                        assert(already_visiting_spec(cids@.take(i as int), infos@)[c] == visiting_list(info_for(infos@, c).unwrap()));
                        assert(spec_next.contains_key(c));
                        assert(spec_next[c] == visiting_list(info_for(infos@, c).unwrap()));
                    } else {
                        assert(m@[c] == list);
                        assert(cid_map_view(m@)[c] == list@);
                        assert(spec_next[c] == visiting_list(info_for(infos@, cid).unwrap()));
                    }
                }
                assert(cid_map_view(m@).dom() =~= spec_next.dom());
                assert(cid_map_view(m@) =~= spec_next);
            },
            None => {
                assert(cid_map_view(m@) =~= spec_next);
            },
        }
        i = i + 1;
    }
    assert(cids@.take(cids.len() as int) =~= cids@);
    m
}

/// What an administrator's decision on a visitor application does.
#[derive(Debug, Clone, PartialEq, Eq)]
pub struct VisitorDecision {
    /// Add the applicant to the roster as a visitor.
    pub add_to_roster: bool,
    /// The email template to send the applicant, if any.
    pub email_template: Option<String>,
    /// The message flashed to the administrator, if any.
    pub message: Option<String>,
}

/// The decision an action gives: "accept" adds the visitor, "deny" does
/// not; either tells the applicant by email when their address is known,
/// and says so to the administrator. Any other action only removes the
/// application, as every decision does.
pub open spec fn visitor_decision_spec(action: Seq<char>, has_email: bool) -> (
    bool,
    Option<Seq<char>>,
    Option<Seq<char>>,
) {
    if action == "accept"@ {
        if has_email {
            (
                true,
                Some(visitor_accepted_template()),
                Some(
                    "Visitor request accepted and the controller was emailed of the decision."@,
                ),
            )
        } else {
            (
                true,
                None,
                Some(
                    "Visitor request accepted, but their email could not be determined so no email was sent."@,
                ),
            )
        }
    } else if action == "deny"@ {
        if has_email {
            (
                false,
                Some(visitor_denied_template()),
                Some("Visitor request denied and the controller was emailed of the decision."@),
            )
        } else {
            (
                false,
                None,
                Some(
                    "Visitor request denied, but their email could not be determined so no email was sent."@,
                ),
            )
        }
    } else {
        (false, None, None)
    }
}

/// An owned copy of a literal.
fn owned(s: &str) -> (r: String)
    ensures
        r@ == s@,
{
    String::from_str(s)
}

/// Decide a visitor application.
pub fn visitor_decision(action: &str, has_email: bool) -> (d: VisitorDecision)
    ensures
        visitor_decision_spec(action@, has_email) == (
            d.add_to_roster,
            match d.email_template {
                Some(t) => Some(t@),
                None => None,
            },
            match d.message {
                Some(m) => Some(m@),
                None => None,
            },
        ),
{
    let a = chars_of(action);
    if chars_eq(&a, &chars_of("accept")) {
        if has_email {
            VisitorDecision {
                add_to_roster: true,
                email_template: Some(crate::email::visitor_accepted()),
                message: Some(
                    owned(
                        "Visitor request accepted and the controller was emailed of the decision.",
                    ),
                ),
            }
        } else {
            VisitorDecision {
                add_to_roster: true,
                email_template: None,
                message: Some(
                    owned(
                        "Visitor request accepted, but their email could not be determined so no email was sent.",
                    ),
                ),
            }
        }
    } else if chars_eq(&a, &chars_of("deny")) {
        if has_email {
            VisitorDecision {
                add_to_roster: false,
                email_template: Some(crate::email::visitor_denied()),
                message: Some(
                    owned("Visitor request denied and the controller was emailed of the decision."),
                ),
            }
        } else {
            VisitorDecision {
                add_to_roster: false,
                email_template: None,
                message: Some(
                    owned(
                        "Visitor request denied, but their email could not be determined so no email was sent.",
                    ),
                ),
            }
        }
    } else {
        VisitorDecision { add_to_roster: false, email_template: None, message: None }
    }
}

} // verus!

//! Event pages: how positions, registrations and controllers are shown,
//! and what a registration form submission does.

use crate::ordering::{lemma_name_rank, name_rank, name_rank_exec};
use crate::roster::shown_rating;
use crate::sql::{Controller, EventPosition, EventRegistration};
use crate::text::{append_str, chars_eq, chars_of, lemma_seqs_of_push, seqs_of, string_from_chars};
use crate::ControllerRating;
use vstd::prelude::*;

verus! {

/// Operating initials, or "??" for a controller without them.
pub open spec fn initials_or_unknown(c: Controller) -> Seq<char> {
    match c.operating_initials {
        Some(oi) => oi@,
        None => "??"@,
    }
}

/// How a controller is named on event pages: first and last name, then the
/// operating initials in parentheses.
pub open spec fn controller_label(c: Controller) -> Seq<char> {
    c.first_name@ + " "@ + c.last_name@ + " ("@ + initials_or_unknown(c) + ")"@
}

/// Appends a controller's label.
fn push_controller_label(v: &mut Vec<char>, c: &Controller)
    ensures
        final(v)@ == old(v)@ + controller_label(*c),
{
    append_str(v, c.first_name.as_str());
    append_str(v, " ");
    append_str(v, c.last_name.as_str());
    append_str(v, " (");
    match &c.operating_initials {
        Some(oi) => append_str(v, oi.as_str()),
        None => append_str(v, "??"),
    }
    append_str(v, ")");
}

/// The labels of the controllers, in order, for choosing who works a
/// position.
pub fn all_controller_names(controllers: &Vec<Controller>) -> (names: Vec<String>)
    ensures
        names@.len() == controllers@.len(),
        forall|i: int|
            0 <= i < controllers@.len() ==> (#[trigger] names@[i])@ == controller_label(
                controllers@[i],
            ),
{
    let mut names: Vec<String> = Vec::new();
    let mut i: usize = 0;
    while i < controllers.len()
        invariant
            i <= controllers.len(),
            names@.len() == i,
            forall|j: int|
                0 <= j < i ==> (#[trigger] names@[j])@ == controller_label(controllers@[j]),
        decreases controllers.len() - i,
    {
        let mut v: Vec<char> = Vec::new();
        push_controller_label(&mut v, &controllers[i]);
        names.push(string_from_chars(&v));
        i = i + 1;
    }
    names
}

// ---------------------------------------------------------------------------
// Positions
// ---------------------------------------------------------------------------

/// An event position as the event page shows it.
#[derive(Debug)]
pub struct EventPositionDisplay {
    pub name: String,
    pub category: String,
    pub controller: String,
}

/// Who is shown on a position: the assigned controller when the position
/// names one and their record was found, else "unassigned".
pub open spec fn position_controller(p: EventPosition, assigned: Option<Controller>) -> Seq<char> {
    match (p.cid, assigned) {
        (Some(_), Some(c)) => controller_label(c),
        _ => "unassigned"@,
    }
}

/// The names of the positions.
pub open spec fn position_names(positions: Seq<EventPosition>) -> Seq<Seq<char>> {
    positions.map_values(|p: EventPosition| p.name@)
}

/// The display of position `p`.
pub open spec fn position_display_matches(
    d: EventPositionDisplay,
    p: EventPosition,
    assigned: Option<Controller>,
) -> bool {
    &&& d.name@ == p.name@
    &&& d.category@ == p.category@
    &&& d.controller@ == position_controller(p, assigned)
}

/// Supply event positions with the controller's name, if set, sorted by
/// position name. `assigned[i]` is the stored record of the controller that
/// position `i` names, if it names one and the record exists. Position `i`
/// is shown at place `name_rank(position_names(positions), i)`.
pub fn event_positions_extra(
    positions: &Vec<EventPosition>,
    assigned: &Vec<Option<Controller>>,
) -> (shown: Vec<EventPositionDisplay>)
    requires
        assigned@.len() == positions@.len(),
    ensures
        shown@.len() == positions@.len(),
        forall|i: int|
            0 <= i < positions@.len() ==> position_display_matches(
                #[trigger] shown@[name_rank(position_names(positions@), i) as int],
                positions@[i],
                assigned@[i],
            ),
{
    let n = positions.len();
    let mut names: Vec<Vec<char>> = Vec::new();
    let mut k: usize = 0;
    while k < n
        invariant
            k <= n,
            n == positions.len(),
            seqs_of(names@) == position_names(positions@).take(k as int),
        decreases n - k,
    {
        let v = chars_of(positions[k].name.as_str());
        proof {
            lemma_seqs_of_push(names@, v);
        }
        names.push(v);
        assert(seqs_of(names@) =~= position_names(positions@).take(k + 1));
        k = k + 1;
    }
    assert(position_names(positions@).take(n as int) =~= position_names(positions@));
    let ghost ns = position_names(positions@);
    assert(names@.len() == seqs_of(names@).len());

    let mut shown: Vec<EventPositionDisplay> = Vec::new();
    let mut k: usize = 0;
    while k < n
        invariant
            k <= n,
            shown@.len() == k,
        decreases n - k,
    {
        shown.push(
            EventPositionDisplay {
                name: String::new(),
                category: String::new(),
                controller: String::new(),
            },
        );
        k = k + 1;
    }
    let mut i: usize = 0;
    while i < n
        invariant
            i <= n,
            n == positions.len(),
            assigned@.len() == n,
            shown@.len() == n,
            names@.len() == n,
            seqs_of(names@) == ns,
            ns == position_names(positions@),
            forall|j: int|
                0 <= j < i ==> position_display_matches(
                    #[trigger] shown@[name_rank(ns, j) as int],
                    positions@[j],
                    assigned@[j],
                ),
        decreases n - i,
    {
        let p = &positions[i];
        let controller = match (&p.cid, &assigned[i]) {
            (Some(_), Some(c)) => {
                let mut v: Vec<char> = Vec::new();
                push_controller_label(&mut v, c);
                string_from_chars(&v)
            },
            _ => {
                proof {
                    reveal_strlit("unassigned");
                }
                String::from_str("unassigned")
            },
        };
        let d = EventPositionDisplay {
            name: p.name.clone(),
            category: p.category.clone(),
            controller,
        };
        let slot = name_rank_exec(&names, i);
        proof {
            assert forall|j: int| 0 <= j < i implies name_rank(ns, j) != slot as int && name_rank(
                ns,
                j,
            ) < n by {
                lemma_name_rank(ns, j, i as int);
            }
        }
        let ghost before = shown@;
        shown.set(slot, d);
        assert(forall|j: int|
            0 <= j < i ==> shown@[name_rank(ns, j) as int] == before[name_rank(ns, j) as int]);
        i = i + 1;
    }
    shown
}

// ---------------------------------------------------------------------------
// Registrations
// ---------------------------------------------------------------------------

/// A registration as the event page shows it.
#[derive(Debug)]
pub struct EventRegistrationDisplay {
    pub controller: String,
    pub choice_1: String,
    pub choice_2: String,
    pub choice_3: String,
    pub notes: String,
}

/// The name of the first position with id `id`, or nothing.
pub open spec fn choice_name(positions: Seq<EventPosition>, id: u32) -> Seq<char>
    decreases positions.len(),
{
    if positions.len() == 0 {
        Seq::empty()
    } else if positions[0].id == id {
        positions[0].name@
    } else {
        choice_name(positions.drop_first(), id)
    }
}

/// How a registered controller is shown: their label and rating, or "???"
/// when their record was not found.
pub open spec fn registrant_label(c: Option<Controller>) -> Seq<char> {
    match c {
        Some(c) => controller_label(c) + " - "@ + shown_rating(c.rating),
        None => "???"@,
    }
}

/// The display of a registration.
pub open spec fn registration_display_matches(
    d: EventRegistrationDisplay,
    r: EventRegistration,
    positions: Seq<EventPosition>,
    registrant: Option<Controller>,
) -> bool {
    &&& d.controller@ == registrant_label(registrant)
    &&& d.choice_1@ == choice_name(positions, r.choice_1)
    &&& d.choice_2@ == choice_name(positions, r.choice_2)
    &&& d.choice_3@ == choice_name(positions, r.choice_3)
    &&& d.notes@ == match r.notes {
        Some(s) => s@,
        None => Seq::<char>::empty(),
    }
}

/// The name of the first position with the id, or nothing.
fn choice_name_exec(positions: &Vec<EventPosition>, id: u32) -> (s: String)
    ensures
        s@ == choice_name(positions@, id),
{
    let mut i: usize = 0;
    assert(positions@.skip(0) =~= positions@);
    while i < positions.len()
        invariant
            i <= positions.len(),
            choice_name(positions@, id) == choice_name(positions@.skip(i as int), id),
        decreases positions.len() - i,
    {
        assert(positions@.skip(i as int)[0] == positions@[i as int]);
        if positions[i].id == id {
            return positions[i].name.clone();
        }
        assert(positions@.skip(i as int).drop_first() =~= positions@.skip(i + 1));
        i = i + 1;
    }
    String::new()
}

/// Supply event registration data with controller and position names, in
/// stored order. `registrants[i]` is the stored record of the controller of
/// registration `i`, if it exists.
pub fn event_registrations_extra(
    registrations: &Vec<EventRegistration>,
    positions: &Vec<EventPosition>,
    registrants: &Vec<Option<Controller>>,
) -> (shown: Vec<EventRegistrationDisplay>)
    requires
        registrants@.len() == registrations@.len(),
    ensures
        shown@.len() == registrations@.len(),
        forall|i: int|
            0 <= i < registrations@.len() ==> registration_display_matches(
                #[trigger] shown@[i],
                registrations@[i],
                positions@,
                registrants@[i],
            ),
{
    let mut shown: Vec<EventRegistrationDisplay> = Vec::new();
    let mut i: usize = 0;
    while i < registrations.len()
        invariant
            i <= registrations.len(),
            registrants@.len() == registrations@.len(),
            shown@.len() == i,
            forall|j: int|
                0 <= j < i ==> registration_display_matches(
                    #[trigger] shown@[j],
                    registrations@[j],
                    positions@,
                    registrants@[j],
                ),
        decreases registrations.len() - i,
    {
        let r = &registrations[i];
        let controller = match &registrants[i] {
            Some(c) => {
                let mut v: Vec<char> = Vec::new();
                push_controller_label(&mut v, c);
                append_str(&mut v, " - ");
                match ControllerRating::from_id(c.rating) {
                    Some(rating) => append_str(&mut v, rating.as_str()),
                    None => {
                        proof {
                            reveal_strlit("");
                        }
                        append_str(&mut v, "");
                    },
                }
                string_from_chars(&v)
            },
            None => {
                proof {
                    reveal_strlit("???");
                }
                String::from_str("???")
            },
        };
        let notes = match &r.notes {
            Some(s) => s.clone(),
            None => String::new(),
        };
        shown.push(
            EventRegistrationDisplay {
                controller,
                choice_1: choice_name_exec(positions, r.choice_1),
                choice_2: choice_name_exec(positions, r.choice_2),
                choice_3: choice_name_exec(positions, r.choice_3),
                notes,
            },
        );
        i = i + 1;
    }
    shown
}

// ---------------------------------------------------------------------------
// Registering
// ---------------------------------------------------------------------------

/// What a registration form submission does.
#[derive(Debug, Clone, Copy, PartialEq, Eq, Structural)]
pub enum RegistrationAction {
    /// No position chosen: remove the controller's registration, if any.
    Withdraw,
    /// Store the registration with these choices (0 on the form is none).
    Upsert { choice_1: Option<u32>, choice_2: Option<u32>, choice_3: Option<u32> },
}

/// A form choice: 0 is none.
pub open spec fn form_choice(c: u32) -> Option<u32> {
    if c == 0 {
        None
    } else {
        Some(c)
    }
}

/// Submit a form to register for an event or update a registration: with
/// no position chosen, withdraw; else store the choices.
pub fn registration_action(choice_1: u32, choice_2: u32, choice_3: u32) -> (a: RegistrationAction)
    ensures
        (choice_1 == 0 && choice_2 == 0 && choice_3 == 0) ==> a == RegistrationAction::Withdraw,
        !(choice_1 == 0 && choice_2 == 0 && choice_3 == 0) ==> a == (RegistrationAction::Upsert {
            choice_1: form_choice(choice_1),
            choice_2: form_choice(choice_2),
            choice_3: form_choice(choice_3),
        }),
{
    if choice_1 == 0 && choice_2 == 0 && choice_3 == 0 {
        RegistrationAction::Withdraw
    } else {
        let c1 = if choice_1 == 0 {
            None
        } else {
            Some(choice_1)
        };
        let c2 = if choice_2 == 0 {
            None
        } else {
            Some(choice_2)
        };
        let c3 = if choice_3 == 0 {
            None
        } else {
            Some(choice_3)
        };
        RegistrationAction::Upsert { choice_1: c1, choice_2: c2, choice_3: c3 }
    }
}

/// Whether the upcoming events list includes unpublished events: only when
/// the `staff` parameter is "true" and the user is on the events team.
pub fn show_unpublished_events(staff_param: Option<&str>, is_events_team: bool) -> (show: bool)
    ensures
        show == (staff_param matches Some(v) && v@ == "true"@ && is_events_team),
{
    match staff_param {
        Some(v) => {
            let chars = chars_of(v);
            let t = chars_of("true");
            chars_eq(&chars, &t) && is_events_team
        },
        None => false,
    }
}

/// Whether a user may see an event's page: published events are public,
/// unpublished ones are for the events team only.
pub fn can_view_event(published: bool, is_events_team: bool) -> (r: bool)
    ensures
        r == (published || is_events_team),
{
    published || is_events_team
}

} // verus!

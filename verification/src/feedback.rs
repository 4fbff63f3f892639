//! The feedback form: the controllers a pilot can leave feedback for, and
//! what submitting it tells the user.

use crate::flashed_messages::FlashedMessageLevel;
use crate::ordering::{lemma_name_rank, name_rank, name_rank_exec};
use crate::sql::Controller;
use crate::text::{append_str, chars_of, lemma_seqs_of_push, seqs_of, string_from_chars};
use vstd::prelude::*;

verus! {

/// A controller's name as the form lists it: first and last name.
pub open spec fn form_name(c: Controller) -> Seq<char> {
    c.first_name@ + " "@ + c.last_name@
}

/// The names of the controllers.
pub open spec fn form_names(controllers: Seq<Controller>) -> Seq<Seq<char>> {
    controllers.map_values(|c: Controller| form_name(c))
}

/// The controllers to choose from on the feedback form, by name: controller
/// `i` of the input is at place `name_rank(form_names(controllers), i)`,
/// as its CID and name.
pub fn feedback_form_controllers(controllers: &Vec<Controller>) -> (choices: Vec<(u32, String)>)
    ensures
        choices@.len() == controllers@.len(),
        forall|i: int|
            0 <= i < controllers@.len() ==> {
                let c = #[trigger] choices@[name_rank(form_names(controllers@), i) as int];
                c.0 == controllers@[i].cid && c.1@ == form_name(controllers@[i])
            },
{
    let n = controllers.len();
    let mut names: Vec<Vec<char>> = Vec::new();
    let mut k: usize = 0;
    while k < n
        invariant
            k <= n,
            n == controllers.len(),
            seqs_of(names@) == form_names(controllers@).take(k as int),
        decreases n - k,
    {
        let mut v = chars_of(controllers[k].first_name.as_str());
        append_str(&mut v, " ");
        append_str(&mut v, controllers[k].last_name.as_str());
        proof {
            lemma_seqs_of_push(names@, v);
        }
        names.push(v);
        assert(seqs_of(names@) =~= form_names(controllers@).take(k + 1));
        k = k + 1;
    }
    assert(form_names(controllers@).take(n as int) =~= form_names(controllers@));
    let ghost ns = form_names(controllers@);
    assert(names@.len() == seqs_of(names@).len());

    let mut choices: Vec<(u32, String)> = Vec::new();
    let mut k: usize = 0;
    while k < n
        invariant
            k <= n,
            choices@.len() == k,
        decreases n - k,
    {
        choices.push((0, String::new()));
        k = k + 1;
    }
    let mut i: usize = 0;
    while i < n
        invariant
            i <= n,
            n == controllers.len(),
            choices@.len() == n,
            names@.len() == n,
            seqs_of(names@) == ns,
            ns == form_names(controllers@),
            forall|j: int|
                0 <= j < i ==> {
                    let c = #[trigger] choices@[name_rank(ns, j) as int];
                    c.0 == controllers@[j].cid && c.1@ == form_name(controllers@[j])
                },
        decreases n - i,
    {
        let name = string_from_chars(&names[i]);
        assert(name@ == ns[i as int]);
        let slot = name_rank_exec(&names, i);
        proof {
            assert forall|j: int| 0 <= j < i implies name_rank(ns, j) != slot as int && name_rank(
                ns,
                j,
            ) < n by {
                lemma_name_rank(ns, j, i as int);
            }
        }
        let ghost before = choices@;
        choices.set(slot, (controllers[i].cid, name));
        assert(forall|j: int|
            0 <= j < i ==> choices@[name_rank(ns, j) as int] == before[name_rank(ns, j) as int]);
        i = i + 1;
    }
    choices
}

/// The message shown after the feedback form is submitted: thanks when the
/// user is logged in (the feedback is stored), else a request to log in.
pub fn feedback_submission_message(logged_in: bool) -> (m: (FlashedMessageLevel, &'static str))
    ensures
        logged_in ==> m.0 == FlashedMessageLevel::Success && m.1@ == "Feedback submitted, thank you!"@,
        !logged_in ==> m.0 == FlashedMessageLevel::Error && m.1@
            == "You must be logged in to submit feedback."@,
{
    if logged_in {
        (FlashedMessageLevel::Success, "Feedback submitted, thank you!")
    } else {
        (FlashedMessageLevel::Error, "You must be logged in to submit feedback.")
    }
}

/// The message shown after a visitor application is submitted.
pub fn visitor_request_message(logged_in: bool) -> (m: (FlashedMessageLevel, &'static str))
    ensures
        logged_in ==> m.0 == FlashedMessageLevel::Success && m.1@ == "Request submitted, thank you!"@,
        !logged_in ==> m.0 == FlashedMessageLevel::Error && m.1@
            == "You must be logged in to submit a visitor request."@,
{
    if logged_in {
        (FlashedMessageLevel::Success, "Request submitted, thank you!")
    } else {
        (FlashedMessageLevel::Error, "You must be logged in to submit a visitor request.")
    }
}

} // verus!

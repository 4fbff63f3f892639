//! The controller page and the changes staff make there: which roles a user
//! may set, the certification list, staff notes, role and certification
//! updates, and operating initials.

use crate::sql::{Certification, Controller, StaffNote};
use crate::text::{
    append_str, chars_eq, chars_of, decimal, join_chars, join_with, lemma_push_contains, lemma_seqs_of_push,
    push_decimal, seqs_of, split_terminator_chars, split_terminator_on, string_from_chars,
    strings_of,
};
use crate::StaffPosition;
use vstd::prelude::*;

verus! {

// ---------------------------------------------------------------------------
// Roles a user may set
// ---------------------------------------------------------------------------

/// The positions a user may grant or take away, given the roles on their
/// own record: a Facility Engineer sets assistant engineers, an Events
/// Coordinator sets assistant coordinators, and an administrator sets every
/// position.
pub open spec fn settable_positions(user_roles: Seq<Seq<char>>, is_admin: bool) -> Seq<Seq<char>> {
    if user_roles.contains("FE"@) {
        seq!["AFE"@]
    } else if user_roles.contains("EC"@) {
        seq!["AEC"@]
    } else if is_admin {
        seq![
            "ATM"@,
            "DATM"@,
            "TA"@,
            "FE"@,
            "EC"@,
            "WM"@,
            "AFE"@,
            "AEC"@,
            "AWM"@,
            "INS"@,
            "MTR"@,
        ]
    } else {
        seq![]
    }
}

/// The roles a user may set: none without a controller record; else as
/// `settable_positions`, reading the record's roles one per line. Stored
/// roles are written comma-separated, so a record holding more than one role
/// reads here as a single unknown role: an FE or EC who also holds another
/// role is not recognised as one, and may set nothing unless an admin.
pub open spec fn roles_settable_by(user: Option<Controller>, is_admin: bool) -> Seq<Seq<char>> {
    match user {
        Some(c) => settable_positions(split_terminator_on(c.roles@, '\n'), is_admin),
        None => seq![],
    }
}

/// Whether `p` is one of `pieces`.
fn contains_piece(pieces: &Vec<Vec<char>>, p: &Vec<char>) -> (r: bool)
    ensures
        r == seqs_of(pieces@).contains(p@),
{
    let mut i: usize = 0;
    while i < pieces.len()
        invariant
            i <= pieces.len(),
            forall|j: int| 0 <= j < i ==> seqs_of(pieces@)[j] != p@,
        decreases pieces.len() - i,
    {
        if chars_eq(&pieces[i], p) {
            assert(seqs_of(pieces@)[i as int] == p@);
            return true;
        }
        i = i + 1;
    }
    false
}

/// The short name of a position as an owned string.
fn position_string(p: StaffPosition) -> (s: String)
    ensures
        s@ == crate::staff_position_abbreviation(p),
{
    String::from_str(p.as_str())
}

/// Roles the current user is able to set. `is_admin` says whether the user
/// is in the administrators' permission group.
pub fn roles_to_set(user: &Option<Controller>, is_admin: bool) -> (roles: Vec<String>)
    ensures
        strings_of(roles@) == roles_settable_by(*user, is_admin),
{
    let c = match user {
        Some(c) => c,
        None => {
            let r: Vec<String> = Vec::new();
            assert(strings_of(r@) =~= seq![]);
            return r;
        },
    };
    let roles_chars = chars_of(c.roles.as_str());
    let user_roles = split_terminator_chars(&roles_chars, '\n');
    let fe = chars_of("FE");
    let ec = chars_of("EC");
    let mut r: Vec<String> = Vec::new();
    if contains_piece(&user_roles, &fe) {
        r.push(position_string(StaffPosition::AFE));
    } else if contains_piece(&user_roles, &ec) {
        r.push(position_string(StaffPosition::AEC));
    } else if is_admin {
        r.push(position_string(StaffPosition::ATM));
        r.push(position_string(StaffPosition::DATM));
        r.push(position_string(StaffPosition::TA));
        r.push(position_string(StaffPosition::FE));
        r.push(position_string(StaffPosition::EC));
        r.push(position_string(StaffPosition::WM));
        r.push(position_string(StaffPosition::AFE));
        r.push(position_string(StaffPosition::AEC));
        r.push(position_string(StaffPosition::AWM));
        r.push(position_string(StaffPosition::INS));
        r.push(position_string(StaffPosition::MTR));
    }
    assert(strings_of(r@) =~= roles_settable_by(*user, is_admin));
    r
}

// ---------------------------------------------------------------------------
// Certifications shown on the page
// ---------------------------------------------------------------------------

/// A configured certification and the controller's standing in it.
#[derive(Debug)]
pub struct CertNameValue {
    pub name: String,
    pub value: String,
}

/// The value of the first stored certification named `name`, or "None".
pub open spec fn cert_value(certs: Seq<Certification>, name: Seq<char>) -> Seq<char>
    decreases certs.len(),
{
    if certs.len() == 0 {
        "None"@
    } else if certs[0].name@ == name {
        certs[0].value@
    } else {
        cert_value(certs.drop_first(), name)
    }
}

/// The value of the first certification named `name`, or "None".
fn cert_value_exec(certs: &Vec<Certification>, name: &Vec<char>) -> (v: String)
    ensures
        v@ == cert_value(certs@, name@),
{
    let mut i: usize = 0;
    assert(certs@.skip(0) =~= certs@);
    while i < certs.len()
        invariant
            i <= certs.len(),
            cert_value(certs@, name@) == cert_value(certs@.skip(i as int), name@),
        decreases certs.len() - i,
    {
        let n = chars_of(certs[i].name.as_str());
        assert(certs@.skip(i as int)[0] == certs@[i as int]);
        if chars_eq(&n, name) {
            return certs[i].value.clone();
        }
        assert(certs@.skip(i as int).drop_first() =~= certs@.skip(i + 1));
        i = i + 1;
    }
    proof {
        reveal_strlit("None");
    }
    String::from_str("None")
}

/// Each configured certification with the controller's value for it, in
/// configured order.
pub fn certification_values(configured: &Vec<String>, certs: &Vec<Certification>) -> (r: Vec<
    CertNameValue,
>)
    ensures
        r@.len() == configured@.len(),
        forall|i: int|
            0 <= i < configured@.len() ==> {
                &&& (#[trigger] r@[i]).name@ == configured@[i]@
                &&& r@[i].value@ == cert_value(certs@, configured@[i]@)
            },
{
    let mut r: Vec<CertNameValue> = Vec::new();
    let mut i: usize = 0;
    while i < configured.len()
        invariant
            i <= configured.len(),
            r@.len() == i,
            forall|j: int|
                0 <= j < i ==> {
                    &&& (#[trigger] r@[j]).name@ == configured@[j]@
                    &&& r@[j].value@ == cert_value(certs@, configured@[j]@)
                },
        decreases configured.len() - i,
    {
        let name = chars_of(configured[i].as_str());
        let value = cert_value_exec(certs, &name);
        r.push(CertNameValue { name: configured[i].clone(), value });
        i = i + 1;
    }
    r
}

// ---------------------------------------------------------------------------
// Staff notes
// ---------------------------------------------------------------------------

/// A staff note as the controller page shows it.
#[derive(Debug)]
pub struct StaffNoteDisplay {
    pub id: u32,
    pub by: String,
    pub by_cid: u32,
    pub date: i64,
    pub comment: String,
}

/// The author shown for a note: the name and CID of the first known
/// controller with the author's CID, else the CID of the note's subject and
/// a question mark.
pub open spec fn note_author(names: Seq<(u32, String, String)>, note: StaffNote) -> Seq<char>
    decreases names.len(),
{
    if names.len() == 0 {
        decimal(note.cid as nat) + "?"@
    } else if names[0].0 == note.by {
        names[0].1@ + " "@ + names[0].2@ + " ("@ + decimal(names[0].0 as nat) + ")"@
    } else {
        note_author(names.drop_first(), note)
    }
}

/// The author shown for a note.
fn note_author_exec(names: &Vec<(u32, String, String)>, note: &StaffNote) -> (s: String)
    ensures
        s@ == note_author(names@, *note),
{
    let mut i: usize = 0;
    assert(names@.skip(0) =~= names@);
    while i < names.len()
        invariant
            i <= names.len(),
            note_author(names@, *note) == note_author(names@.skip(i as int), *note),
        decreases names.len() - i,
    {
        assert(names@.skip(i as int)[0] == names@[i as int]);
        if names[i].0 == note.by {
            let mut v = chars_of(names[i].1.as_str());
            append_str(&mut v, " ");
            append_str(&mut v, names[i].2.as_str());
            append_str(&mut v, " (");
            push_decimal(&mut v, names[i].0 as u64);
            append_str(&mut v, ")");
            return string_from_chars(&v);
        }
        assert(names@.skip(i as int).drop_first() =~= names@.skip(i + 1));
        i = i + 1;
    }
    let mut v: Vec<char> = Vec::new();
    push_decimal(&mut v, note.cid as u64);
    append_str(&mut v, "?");
    string_from_chars(&v)
}

/// The staff notes as the controller page shows them, in stored order.
/// `names` holds the CID, first and last name of the known controllers.
pub fn staff_note_displays(notes: &Vec<StaffNote>, names: &Vec<(u32, String, String)>) -> (r: Vec<
    StaffNoteDisplay,
>)
    ensures
        r@.len() == notes@.len(),
        forall|i: int|
            0 <= i < notes@.len() ==> {
                let (d, n) = (#[trigger] r@[i], notes@[i]);
                &&& d.id == n.id
                &&& d.by@ == note_author(names@, n)
                &&& d.by_cid == n.by
                &&& d.date == n.date
                &&& d.comment@ == n.comment@
            },
{
    let mut r: Vec<StaffNoteDisplay> = Vec::new();
    let mut i: usize = 0;
    while i < notes.len()
        invariant
            i <= notes.len(),
            r@.len() == i,
            forall|j: int|
                0 <= j < i ==> {
                    let (d, n) = (#[trigger] r@[j], notes@[j]);
                    &&& d.id == n.id
                    &&& d.by@ == note_author(names@, n)
                    &&& d.by_cid == n.by
                    &&& d.date == n.date
                    &&& d.comment@ == n.comment@
                },
        decreases notes.len() - i,
    {
        let note = &notes[i];
        let by = note_author_exec(names, note);
        r.push(
            StaffNoteDisplay {
                id: note.id,
                by,
                by_cid: note.by,
                date: note.date,
                comment: note.comment.clone(),
            },
        );
        i = i + 1;
    }
    r
}

// ---------------------------------------------------------------------------
// Setting a controller's roles
// ---------------------------------------------------------------------------

/// The roles after a user submits the roles form: each existing role the
/// user may not set is kept, each they may set is kept if still requested;
/// then each requested role they may set is added.
pub open spec fn resolved_roles(
    existing: Seq<Seq<char>>,
    can_set: Seq<Seq<char>>,
    requested: Seq<Seq<char>>,
) -> Seq<Seq<char>> {
    existing.filter(stays(can_set, requested)) + requested.filter(settable_by(can_set))
}

/// An existing role stays when the user may not set it or still requests it.
pub open spec fn stays(can_set: Seq<Seq<char>>, requested: Seq<Seq<char>>) -> spec_fn(
    Seq<char>,
) -> bool {
    |r: Seq<char>| !can_set.contains(r) || requested.contains(r)
}

/// A requested role is granted when the user may set it.
pub open spec fn settable_by(can_set: Seq<Seq<char>>) -> spec_fn(Seq<char>) -> bool {
    |r: Seq<char>| can_set.contains(r)
}

/// The roles without repeats, each where it first occurs.
pub open spec fn distinct_roles(roles: Seq<Seq<char>>) -> Seq<Seq<char>>
    decreases roles.len(),
{
    if roles.len() == 0 {
        roles
    } else {
        let prev = distinct_roles(roles.drop_last());
        if prev.contains(roles.last()) {
            prev
        } else {
            prev.push(roles.last())
        }
    }
}

/// The roles column after the form is applied: the resolved roles, each
/// once, comma-separated.
pub open spec fn new_roles_column(
    existing: Seq<char>,
    can_set: Seq<Seq<char>>,
    requested: Seq<Seq<char>>,
) -> Seq<char> {
    join_with(
        distinct_roles(resolved_roles(split_terminator_on(existing, ','), can_set, requested)),
        ","@,
    )
}

/// Leaving out repeats keeps every role.
proof fn lemma_distinct_contains(roles: Seq<Seq<char>>, r: Seq<char>)
    ensures
        distinct_roles(roles).contains(r) <==> roles.contains(r),
    decreases roles.len(),
{
    if roles.len() > 0 {
        let rest = roles.drop_last();
        let x = roles.last();
        let prev = distinct_roles(rest);
        lemma_distinct_contains(rest, r);
        assert(roles =~= rest.push(x));
        lemma_push_contains(rest, x, r);
        lemma_push_contains(prev, x, r);
        if prev.contains(x) && x == r {
            lemma_distinct_contains(rest, x);
        }
    }
}

/// The new roles column for a controller, after a user who may set
/// `can_set` submits the roles form with `requested` checked.
pub fn new_roles(existing: &str, can_set: &Vec<String>, requested: &Vec<String>) -> (roles: String)
    ensures
        roles@ == new_roles_column(existing@, strings_of(can_set@), strings_of(requested@)),
{
    let ghost cs = strings_of(can_set@);
    let ghost rq = strings_of(requested@);
    let can = crate::ordering::chars_of_each(can_set);
    let req = crate::ordering::chars_of_each(requested);
    let existing_chars = chars_of(existing);
    let current = split_terminator_chars(&existing_chars, ',');
    let ghost ex = seqs_of(current@);
    let ghost keep_existing = stays(cs, rq);
    let ghost keep_requested = settable_by(cs);

    // resolved roles, in order
    let mut resolved: Vec<Vec<char>> = Vec::new();
    let mut i: usize = 0;
    while i < current.len()
        invariant
            i <= current.len(),
            seqs_of(can@) == cs,
            seqs_of(req@) == rq,
            ex == seqs_of(current@),
            keep_existing == stays(cs, rq),
            seqs_of(resolved@) == ex.take(i as int).filter(keep_existing),
        decreases current.len() - i,
    {
        assert(ex.take(i + 1).drop_last() =~= ex.take(i as int));
        proof {
            reveal(Seq::filter);
        }
        let settable = contains_piece(&can, &current[i]);
        let wanted = contains_piece(&req, &current[i]);
        if !settable || wanted {
            let piece = current[i].clone();
            assert(piece@ =~= current@[i as int]@);
            proof {
                lemma_seqs_of_push(resolved@, piece);
            }
            resolved.push(piece);
        }
        i = i + 1;
    }
    assert(ex.take(current.len() as int) =~= ex);
    let ghost first = seqs_of(resolved@);
    let mut k: usize = 0;
    while k < req.len()
        invariant
            k <= req.len(),
            seqs_of(can@) == cs,
            seqs_of(req@) == rq,
            keep_requested == settable_by(cs),
            seqs_of(resolved@) == first + rq.take(k as int).filter(keep_requested),
        decreases req.len() - k,
    {
        assert(rq.take(k + 1).drop_last() =~= rq.take(k as int));
        proof {
            reveal(Seq::filter);
        }
        if contains_piece(&can, &req[k]) {
            let piece = req[k].clone();
            assert(piece@ =~= req@[k as int]@);
            proof {
                lemma_seqs_of_push(resolved@, piece);
            }
            resolved.push(piece);
            assert(seqs_of(resolved@) =~= first + rq.take(k + 1).filter(keep_requested));
        }
        k = k + 1;
    }
    assert(rq.take(req.len() as int) =~= rq);
    let ghost all = seqs_of(resolved@);
    assert(all == resolved_roles(ex, cs, rq));

    // each once, where it first occurs
    let mut distinct: Vec<Vec<char>> = Vec::new();
    let mut j: usize = 0;
    while j < resolved.len()
        invariant
            j <= resolved.len(),
            all == seqs_of(resolved@),
            seqs_of(distinct@) == distinct_roles(all.take(j as int)),
        decreases resolved.len() - j,
    {
        assert(all.take(j + 1).drop_last() =~= all.take(j as int));
        if !contains_piece(&distinct, &resolved[j]) {
            let piece = resolved[j].clone();
            assert(piece@ =~= resolved@[j as int]@);
            proof {
                lemma_seqs_of_push(distinct@, piece);
            }
            distinct.push(piece);
        }
        j = j + 1;
    }
    assert(all.take(resolved.len() as int) =~= all);
    let comma = chars_of(",");
    let joined = join_chars(&distinct, &comma);
    string_from_chars(&joined)
}

/// A user can only change the roles they may set: a role they may not set
/// is on the new record exactly when it was on the old one, and a role they
/// may set is on it exactly when they requested it. No role is listed
/// twice.
pub proof fn lemma_new_roles_respect_permissions(
    existing: Seq<char>,
    can_set: Seq<Seq<char>>,
    requested: Seq<Seq<char>>,
    r: Seq<char>,
)
    ensures
        !can_set.contains(r) ==> (distinct_roles(
            resolved_roles(split_terminator_on(existing, ','), can_set, requested),
        ).contains(r) <==> split_terminator_on(existing, ',').contains(r)),
        can_set.contains(r) ==> (distinct_roles(
            resolved_roles(split_terminator_on(existing, ','), can_set, requested),
        ).contains(r) <==> requested.contains(r)),
{
    let ex = split_terminator_on(existing, ',');
    let keep_existing = stays(can_set, requested);
    let keep_requested = settable_by(can_set);
    let all = resolved_roles(ex, can_set, requested);
    lemma_distinct_contains(all, r);
    lemma_filter_contains_iff(ex, keep_existing, r);
    lemma_filter_contains_iff(requested, keep_requested, r);
    let a = ex.filter(keep_existing);
    let b = requested.filter(keep_requested);
    assert(all == a + b);
    if all.contains(r) {
        let w = choose|w: int| 0 <= w < all.len() && all[w] == r;
        if w < a.len() {
            assert(a[w] == r);
        } else {
            assert(b[w - a.len()] == r);
        }
    }
    if a.contains(r) {
        let w = choose|w: int| 0 <= w < a.len() && a[w] == r;
        assert(all[w] == r);
    }
    if b.contains(r) {
        let w = choose|w: int| 0 <= w < b.len() && b[w] == r;
        assert(all[a.len() + w] == r);
    }
}

/// A filtered sequence holds exactly the elements that pass.
proof fn lemma_filter_contains_iff(s: Seq<Seq<char>>, keep: spec_fn(Seq<char>) -> bool, r: Seq<char>)
    ensures
        s.filter(keep).contains(r) <==> (s.contains(r) && keep(r)),
{
    if s.filter(keep).contains(r) {
        let w = choose|w: int| 0 <= w < s.filter(keep).len() && s.filter(keep)[w] == r;
        s.lemma_filter_contains_rev(keep, r);
        s.lemma_filter_pred(keep, w);
    }
    if s.contains(r) && keep(r) {
        let w = choose|w: int| 0 <= w < s.len() && s[w] == r;
        s.lemma_filter_contains(keep, w);
    }
}

/// No role is listed twice in the new roles column.
pub proof fn lemma_distinct_roles_unique(roles: Seq<Seq<char>>, i: int, j: int)
    requires
        0 <= i < j < distinct_roles(roles).len(),
    ensures
        distinct_roles(roles)[i] != distinct_roles(roles)[j],
    decreases roles.len(),
{
    if roles.len() > 0 {
        let prev = distinct_roles(roles.drop_last());
        if j < prev.len() {
            lemma_distinct_roles_unique(roles.drop_last(), i, j);
        } else {
            assert(!prev.contains(roles.last()));
            assert(prev[i] == distinct_roles(roles)[i]);
        }
    }
}

// ---------------------------------------------------------------------------
// Setting certifications
// ---------------------------------------------------------------------------

/// A change to a controller's stored certifications.
#[derive(Debug, Clone, PartialEq, Eq)]
pub enum CertChange {
    /// Set the value of the stored certification with this id.
    Update { id: u32, value: String },
    /// Store a new certification.
    Create { name: String, value: String },
}

/// The first stored certification named `name`.
pub open spec fn first_cert_named(certs: Seq<Certification>, name: Seq<char>) -> Option<
    Certification,
>
    decreases certs.len(),
{
    if certs.len() == 0 {
        None
    } else if certs[0].name@ == name {
        Some(certs[0])
    } else {
        first_cert_named(certs.drop_first(), name)
    }
}

/// The change that a form entry makes: the first stored certification of
/// that name gets the value, or a new one is stored.
pub open spec fn cert_change_for(
    change: CertChange,
    certs: Seq<Certification>,
    name: Seq<char>,
    value: Seq<char>,
) -> bool {
    match first_cert_named(certs, name) {
        Some(c) => change matches CertChange::Update { id, value: v } && id == c.id && v@ == value,
        None => change matches CertChange::Create { name: n, value: v } && n@ == name && v@ == value,
    }
}

/// The first stored certification with the given name.
fn find_cert(certs: &Vec<Certification>, name: &Vec<char>) -> (r: Option<u32>)
    ensures
        match first_cert_named(certs@, name@) {
            Some(c) => r == Some(c.id),
            None => r.is_none(),
        },
{
    let mut i: usize = 0;
    assert(certs@.skip(0) =~= certs@);
    while i < certs.len()
        invariant
            i <= certs.len(),
            first_cert_named(certs@, name@) == first_cert_named(certs@.skip(i as int), name@),
        decreases certs.len() - i,
    {
        let n = chars_of(certs[i].name.as_str());
        assert(certs@.skip(i as int)[0] == certs@[i as int]);
        if chars_eq(&n, name) {
            return Some(certs[i].id);
        }
        assert(certs@.skip(i as int).drop_first() =~= certs@.skip(i + 1));
        i = i + 1;
    }
    None
}

/// The changes that the certifications form makes, one per entry, in form
/// order.
pub fn cert_changes(certs: &Vec<Certification>, form: &Vec<(String, String)>) -> (changes: Vec<
    CertChange,
>)
    ensures
        changes@.len() == form@.len(),
        forall|i: int|
            0 <= i < form@.len() ==> cert_change_for(
                #[trigger] changes@[i],
                certs@,
                form@[i].0@,
                form@[i].1@,
            ),
{
    let mut changes: Vec<CertChange> = Vec::new();
    let mut i: usize = 0;
    while i < form.len()
        invariant
            i <= form.len(),
            changes@.len() == i,
            forall|j: int|
                0 <= j < i ==> cert_change_for(
                    #[trigger] changes@[j],
                    certs@,
                    form@[j].0@,
                    form@[j].1@,
                ),
        decreases form.len() - i,
    {
        let name = chars_of(form[i].0.as_str());
        let change = match find_cert(certs, &name) {
            Some(id) => CertChange::Update { id, value: form[i].1.clone() },
            None => CertChange::Create { name: form[i].0.clone(), value: form[i].1.clone() },
        };
        changes.push(change);
        i = i + 1;
    }
    changes
}

// ---------------------------------------------------------------------------
// Operating initials
// ---------------------------------------------------------------------------

/// What `str::to_uppercase` makes of a string.
pub uninterp spec fn uppercased(s: Seq<char>) -> Seq<char>;

/// Calls `str::to_uppercase`. Claimed: the result is `uppercased` of the
/// argument.
#[verifier::external_body]
fn to_uppercase(s: &str) -> (r: String)
    ensures
        r@ == uppercased(s@),
{
    s.to_uppercase()
}

/// Why new operating initials were refused.
#[derive(Debug, Clone, Copy, PartialEq, Eq, Structural)]
pub enum InitialsError {
    /// Another controller already has them.
    InUse,
}

/// Checks initials (already in upper case) against those in use: empty
/// initials, which clear a controller's, are always accepted.
pub fn check_initials(initials: &str, in_use: &Vec<String>) -> (r: Result<String, InitialsError>)
    ensures
        match r {
            Ok(s) => s@ == initials@ && !(initials@.len() > 0 && strings_of(in_use@).contains(
                initials@,
            )),
            Err(_) => initials@.len() > 0 && strings_of(in_use@).contains(initials@),
        },
{
    let v = chars_of(initials);
    if v.len() > 0 {
        let used = crate::ordering::chars_of_each(in_use);
        if contains_piece(&used, &v) {
            return Err(InitialsError::InUse);
        }
    }
    Ok(String::from_str(initials))
}

/// The operating initials to store from the form's entry: upper-cased, and
/// refused when another controller holds them.
pub fn initials_to_store(entered: &str, in_use: &Vec<String>) -> (r: Result<String, InitialsError>)
    ensures
        match r {
            Ok(s) => s@ == uppercased(entered@) && !(uppercased(entered@).len() > 0 && strings_of(
                in_use@,
            ).contains(uppercased(entered@))),
            Err(_) => uppercased(entered@).len() > 0 && strings_of(in_use@).contains(
                uppercased(entered@),
            ),
        },
{
    let upper = to_uppercase(entered);
    check_initials(upper.as_str(), in_use)
}

} // verus!

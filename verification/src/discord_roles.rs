//! Discord guild members: the roles and nickname each member should have.

use crate::config::Config;
use crate::sql::Controller;
use crate::text::{append_chars, append_str, chars_eq, chars_of, contains_exec, contains_seq, string_from_chars};
use crate::ControllerRating;
use crate::{home_facility_code, rating_id};
use vstd::prelude::*;

verus! {

/// The part of a controller record that decides a member's roles; an
/// unknown member has none of it.
pub open spec fn member_home_facility(controller: Option<Controller>) -> Seq<char> {
    match controller {
        Some(c) => c.home_facility@,
        None => Seq::empty(),
    }
}

pub open spec fn member_on_roster(controller: Option<Controller>) -> bool {
    match controller {
        Some(c) => c.is_on_roster,
        None => false,
    }
}

pub open spec fn member_rating(controller: Option<Controller>) -> int {
    match controller {
        Some(c) => c.rating as int,
        None => 0,
    }
}

pub open spec fn member_roles(controller: Option<Controller>) -> Seq<char> {
    match controller {
        Some(c) => c.roles@,
        None => Seq::empty(),
    }
}

/// The roles string names one of the senior staff positions.
pub open spec fn is_senior_staff(roles: Seq<char>) -> bool {
    contains_seq(roles, "ATM"@) || contains_seq(roles, "DATM"@) || contains_seq(roles, "TA"@)
}

/// The roles string names one of the junior staff positions.
pub open spec fn is_junior_staff(roles: Seq<char>) -> bool {
    contains_seq(roles, "EC"@) || contains_seq(roles, "FE"@) || contains_seq(roles, "WM"@)
}

/// The Discord roles to resolve for a guild member, each with whether the
/// member should have it: membership, network rating, then staff.
pub open spec fn correct_roles(config: Config, controller: Option<Controller>) -> Seq<(u64, bool)> {
    let home = member_home_facility(controller);
    let on_roster = member_on_roster(controller);
    let rating = member_rating(controller);
    let roles = member_roles(controller);
    let r = config.discord.roles;
    let senior = is_senior_staff(roles);
    let junior = !senior && is_junior_staff(roles);
    seq![
        (r.home_controller, home == home_facility_code()),
        (r.visiting_controller, on_roster && home != home_facility_code()),
        (r.guest, !on_roster),
        (r.administrator, rating == rating_id(ControllerRating::ADM)),
        (r.supervisor, rating == rating_id(ControllerRating::SUP)),
        (r.instructor_3, rating == rating_id(ControllerRating::I3)),
        (r.instructor_1, rating == rating_id(ControllerRating::I1)),
        (r.controller_3, rating == rating_id(ControllerRating::C3)),
        (r.controller_1, rating == rating_id(ControllerRating::C1)),
        (r.student_3, rating == rating_id(ControllerRating::S3)),
        (r.student_2, rating == rating_id(ControllerRating::S2)),
        (r.student_1, rating == rating_id(ControllerRating::S1)),
        (r.observer, rating == rating_id(ControllerRating::OBS)),
        (r.sr_staff, senior),
        (r.jr_staff, junior),
    ]
}

/// Whether `roles` names any of the three positions.
fn contains_any(roles: &Vec<char>, a: &str, b: &str, c: &str) -> (r: bool)
    ensures
        r == (contains_seq(roles@, a@) || contains_seq(roles@, b@) || contains_seq(roles@, c@)),
{
    let va = chars_of(a);
    let vb = chars_of(b);
    let vc = chars_of(c);
    contains_exec(roles, &va) || contains_exec(roles, &vb) || contains_exec(roles, &vc)
}

/// Determine which roles the guild member should have.
pub fn get_correct_roles(config: &Config, controller: &Option<Controller>) -> (to_resolve: Vec<
    (u64, bool),
>)
    ensures
        to_resolve@ == correct_roles(*config, *controller),
{
    let (home, on_roster, rating, roles) = match controller {
        Some(c) => (chars_of(c.home_facility.as_str()), c.is_on_roster, c.rating, chars_of(
            c.roles.as_str(),
        )),
        None => (Vec::new(), false, 0i8, Vec::new()),
    };
    let zdv = vec!['Z', 'D', 'V'];
    assert(zdv@ =~= home_facility_code());
    let is_home = chars_eq(&home, &zdv);
    let r = &config.discord.roles;
    let mut to_resolve: Vec<(u64, bool)> = Vec::new();

    // membership
    to_resolve.push((r.home_controller, is_home));
    to_resolve.push((r.visiting_controller, on_roster && !is_home));
    to_resolve.push((r.guest, !on_roster));

    // network rating
    to_resolve.push((r.administrator, rating == ControllerRating::ADM.as_id()));
    to_resolve.push((r.supervisor, rating == ControllerRating::SUP.as_id()));
    to_resolve.push((r.instructor_3, rating == ControllerRating::I3.as_id()));
    to_resolve.push((r.instructor_1, rating == ControllerRating::I1.as_id()));
    to_resolve.push((r.controller_3, rating == ControllerRating::C3.as_id()));
    to_resolve.push((r.controller_1, rating == ControllerRating::C1.as_id()));
    to_resolve.push((r.student_3, rating == ControllerRating::S3.as_id()));
    to_resolve.push((r.student_2, rating == ControllerRating::S2.as_id()));
    to_resolve.push((r.student_1, rating == ControllerRating::S1.as_id()));
    to_resolve.push((r.observer, rating == ControllerRating::OBS.as_id()));

    // staff
    if contains_any(&roles, "ATM", "DATM", "TA") {
        to_resolve.push((r.sr_staff, true));
        to_resolve.push((r.jr_staff, false));
    } else if contains_any(&roles, "EC", "FE", "WM") {
        to_resolve.push((r.sr_staff, false));
        to_resolve.push((r.jr_staff, true));
    } else {
        to_resolve.push((r.sr_staff, false));
        to_resolve.push((r.jr_staff, false));
    }
    assert(to_resolve@ =~= correct_roles(*config, *controller));
    to_resolve
}

/// A member is never marked as both senior and junior staff, and is a
/// guest exactly when it is not on the roster.
pub proof fn lemma_correct_roles_exclusive(config: Config, controller: Option<Controller>)
    ensures
        !(correct_roles(config, controller)[13].1 && correct_roles(config, controller)[14].1),
        correct_roles(config, controller)[2].1 == !member_on_roster(controller),
        correct_roles(config, controller)[0].1 ==> !correct_roles(config, controller)[1].1,
{
}

/// Each role is resolved from the configured role id: the membership roles
/// by home facility (ZDV) and roster status, each network-rating role
/// exactly when the member's VATSIM rating id is that role's rating (ADM 12,
/// SUP 11, I3 10, I1 8, C3 7, C1 5, S3 4, S2 3, S1 2, OBS 1), and the staff
/// roles by the positions the member holds: senior staff for ATM, DATM or
/// TA, else junior staff for EC, FE or WM. An unknown member is a guest and
/// holds none of the others.
pub proof fn lemma_correct_roles_by_rating(config: Config, controller: Option<Controller>)
    ensures
        correct_roles(config, controller).len() == 15,
        correct_roles(config, controller)[0] == (config.discord.roles.home_controller, controller
            matches Some(c) && c.home_facility@ == seq!['Z', 'D', 'V']),
        correct_roles(config, controller)[1] == (config.discord.roles.visiting_controller,
            controller matches Some(c) && c.is_on_roster && c.home_facility@ != seq!['Z', 'D', 'V']),
        correct_roles(config, controller)[2] == (config.discord.roles.guest, !(controller matches Some(
            c,
        ) && c.is_on_roster)),
        correct_roles(config, controller)[3] == (config.discord.roles.administrator, controller
            matches Some(c) && c.rating == 12),
        correct_roles(config, controller)[4] == (config.discord.roles.supervisor, controller
            matches Some(c) && c.rating == 11),
        correct_roles(config, controller)[5] == (config.discord.roles.instructor_3, controller
            matches Some(c) && c.rating == 10),
        correct_roles(config, controller)[6] == (config.discord.roles.instructor_1, controller
            matches Some(c) && c.rating == 8),
        correct_roles(config, controller)[7] == (config.discord.roles.controller_3, controller
            matches Some(c) && c.rating == 7),
        correct_roles(config, controller)[8] == (config.discord.roles.controller_1, controller
            matches Some(c) && c.rating == 5),
        correct_roles(config, controller)[9] == (config.discord.roles.student_3, controller
            matches Some(c) && c.rating == 4),
        correct_roles(config, controller)[10] == (config.discord.roles.student_2, controller
            matches Some(c) && c.rating == 3),
        correct_roles(config, controller)[11] == (config.discord.roles.student_1, controller
            matches Some(c) && c.rating == 2),
        correct_roles(config, controller)[12] == (config.discord.roles.observer, controller
            matches Some(c) && c.rating == 1),
        correct_roles(config, controller)[13] == (config.discord.roles.sr_staff, controller
            matches Some(c) && (contains_seq(c.roles@, "ATM"@) || contains_seq(c.roles@, "DATM"@)
            || contains_seq(c.roles@, "TA"@))),
        correct_roles(config, controller)[14] == (config.discord.roles.jr_staff, controller
            matches Some(c) && !(contains_seq(c.roles@, "ATM"@) || contains_seq(c.roles@, "DATM"@)
            || contains_seq(c.roles@, "TA"@)) && (contains_seq(c.roles@, "EC"@) || contains_seq(
            c.roles@,
            "FE"@,
        ) || contains_seq(c.roles@, "WM"@))),
        controller is None ==> forall|i: int|
            0 <= i < 15 && i != 2 ==> !(#[trigger] correct_roles(config, controller)[i]).1,
{
    let roles = correct_roles(config, controller);
    if controller is None {
        assert(!contains_seq(Seq::<char>::empty(), "ATM"@)) by {
            reveal_strlit("ATM");
        }
        assert(!contains_seq(Seq::<char>::empty(), "DATM"@)) by {
            reveal_strlit("DATM");
        }
        assert(!contains_seq(Seq::<char>::empty(), "TA"@)) by {
            reveal_strlit("TA");
        }
        assert(!contains_seq(Seq::<char>::empty(), "EC"@)) by {
            reveal_strlit("EC");
        }
        assert(!contains_seq(Seq::<char>::empty(), "FE"@)) by {
            reveal_strlit("FE");
        }
        assert(!contains_seq(Seq::<char>::empty(), "WM"@)) by {
            reveal_strlit("WM");
        }
        assert(seq!['Z', 'D', 'V'].len() == 3);
    }
}

/// A change to make to a member's roles.
#[derive(Debug, Clone, Copy, PartialEq, Eq, Structural)]
pub enum RoleChange {
    Add(u64),
    Remove(u64),
}

/// The role changes that bring a member's roles in line: each role it
/// should have and lacks is added; each it should not have and holds is
/// removed; in the order of `roles`.
pub open spec fn role_changes(existing: Seq<u64>, roles: Seq<(u64, bool)>) -> Seq<RoleChange>
    decreases roles.len(),
{
    if roles.len() == 0 {
        Seq::empty()
    } else {
        let prev = role_changes(existing, roles.drop_last());
        let (id, should_have) = roles.last();
        if should_have && !existing.contains(id) {
            prev.push(RoleChange::Add(id))
        } else if !should_have && existing.contains(id) {
            prev.push(RoleChange::Remove(id))
        } else {
            prev
        }
    }
}

/// Whether `id` is among `ids`.
fn contains_id(ids: &Vec<u64>, id: u64) -> (r: bool)
    ensures
        r == ids@.contains(id),
{
    let mut i: usize = 0;
    while i < ids.len()
        invariant
            i <= ids.len(),
            forall|j: int| 0 <= j < i ==> ids@[j] != id,
        decreases ids.len() - i,
    {
        if ids[i] == id {
            return true;
        }
        i = i + 1;
    }
    false
}

/// Resolve the guild member's roles: the additions and removals needed.
pub fn resolve_roles(existing: &Vec<u64>, roles: &Vec<(u64, bool)>) -> (changes: Vec<RoleChange>)
    ensures
        changes@ == role_changes(existing@, roles@),
{
    let mut changes: Vec<RoleChange> = Vec::new();
    let mut i: usize = 0;
    while i < roles.len()
        invariant
            i <= roles.len(),
            changes@ == role_changes(existing@, roles@.take(i as int)),
        decreases roles.len() - i,
    {
        assert(roles@.take(i + 1).drop_last() =~= roles@.take(i as int));
        let (id, should_have) = roles[i];
        let held = contains_id(existing, id);
        if should_have && !held {
            changes.push(RoleChange::Add(id));
        } else if !should_have && held {
            changes.push(RoleChange::Remove(id));
        }
        i = i + 1;
    }
    assert(roles@.take(roles.len() as int) =~= roles@);
    changes
}

/// Applying the changes leaves the member with exactly the roles it should
/// have, among those resolved: a role to have is held afterwards, a role
/// not to have is not.
pub proof fn lemma_role_changes_complete(existing: Seq<u64>, roles: Seq<(u64, bool)>, k: int)
    requires
        0 <= k < roles.len(),
    ensures
        roles[k].1 && !existing.contains(roles[k].0) ==> role_changes(existing, roles).contains(
            RoleChange::Add(roles[k].0),
        ),
        !roles[k].1 && existing.contains(roles[k].0) ==> role_changes(existing, roles).contains(
            RoleChange::Remove(roles[k].0),
        ),
    decreases roles.len(),
{
    let prev = role_changes(existing, roles.drop_last());
    if k < roles.len() - 1 {
        lemma_role_changes_complete(existing, roles.drop_last(), k);
        assert(roles.drop_last()[k] == roles[k]);
        if roles[k].1 && !existing.contains(roles[k].0) {
            let w = choose|w: int| 0 <= w < prev.len() && prev[w] == RoleChange::Add(roles[k].0);
            assert(role_changes(existing, roles)[w] == prev[w]);
        }
        if !roles[k].1 && existing.contains(roles[k].0) {
            let w = choose|w: int| 0 <= w < prev.len() && prev[w] == RoleChange::Remove(roles[k].0);
            assert(role_changes(existing, roles)[w] == prev[w]);
        }
    } else {
        let all = role_changes(existing, roles);
        if roles[k].1 && !existing.contains(roles[k].0) {
            assert(all[all.len() - 1] == RoleChange::Add(roles[k].0));
        }
        if !roles[k].1 && existing.contains(roles[k].0) {
            assert(all[all.len() - 1] == RoleChange::Remove(roles[k].0));
        }
    }
}

/// Every change is needed: a role is added only when the member should
/// have it and lacks it, and removed only when the member holds it and
/// should not.
pub proof fn lemma_role_changes_sound(existing: Seq<u64>, roles: Seq<(u64, bool)>, id: u64)
    ensures
        role_changes(existing, roles).contains(RoleChange::Add(id)) ==> !existing.contains(id)
            && roles.contains((id, true)),
        role_changes(existing, roles).contains(RoleChange::Remove(id)) ==> existing.contains(id)
            && roles.contains((id, false)),
    decreases roles.len(),
{
    if roles.len() > 0 {
        let rest = roles.drop_last();
        lemma_role_changes_sound(existing, rest, id);
        let prev = role_changes(existing, rest);
        let all = role_changes(existing, roles);
        if all.contains(RoleChange::Add(id)) {
            let w = choose|w: int| 0 <= w < all.len() && all[w] == RoleChange::Add(id);
            if w < prev.len() {
                assert(prev[w] == all[w]);
                let k = choose|k: int| 0 <= k < rest.len() && rest[k] == (id, true);
                assert(roles[k] == (id, true));
            } else {
                assert(roles[roles.len() - 1] == (id, true));
            }
        }
        if all.contains(RoleChange::Remove(id)) {
            let w = choose|w: int| 0 <= w < all.len() && all[w] == RoleChange::Remove(id);
            if w < prev.len() {
                assert(prev[w] == all[w]);
                let k = choose|k: int| 0 <= k < rest.len() && rest[k] == (id, false);
                assert(roles[k] == (id, false));
            } else {
                assert(roles[roles.len() - 1] == (id, false));
            }
        }
    }
}

/// The staff title shown after a member's nickname, by precedence.
pub open spec fn nickname_title(roles: Seq<char>) -> Seq<char> {
    if contains_seq(roles, "DATM"@) {
        " | DATM"@
    } else if contains_seq(roles, "ATM"@) {
        " | ATM"@
    } else if contains_seq(roles, "TA"@) {
        " | TA"@
    } else if contains_seq(roles, "EC"@) {
        " | EC"@
    } else if contains_seq(roles, "FE"@) {
        " | FE"@
    } else if contains_seq(roles, "WM"@) {
        " | WM"@
    } else if contains_seq(roles, "AEC"@) {
        " | AEC"@
    } else if contains_seq(roles, "AFE"@) {
        " | AFE"@
    } else if contains_seq(roles, "AWM"@) {
        " | AWM"@
    } else if contains_seq(roles, "MTR"@) {
        " | MTR"@
    } else {
        Seq::empty()
    }
}

/// The positions a nickname's title can show, highest first.
pub open spec fn title_positions() -> Seq<Seq<char>> {
    seq!["DATM"@, "ATM"@, "TA"@, "EC"@, "FE"@, "WM"@, "AEC"@, "AFE"@, "AWM"@, "MTR"@]
}

/// A nickname's title is ` | ` and the highest position the roles name:
/// when the roles name the position at place `k` and none above it, that
/// position is the title.
pub proof fn lemma_nickname_title_highest(roles: Seq<char>, k: int)
    requires
        0 <= k < title_positions().len(),
        contains_seq(roles, title_positions()[k]),
        forall|j: int| 0 <= j < k ==> !contains_seq(roles, #[trigger] title_positions()[j]),
    ensures
        nickname_title(roles) == seq![' ', '|', ' '] + title_positions()[k],
{
    reveal_strlit("DATM");
    reveal_strlit(" | DATM");
    reveal_strlit("ATM");
    reveal_strlit(" | ATM");
    reveal_strlit("TA");
    reveal_strlit(" | TA");
    reveal_strlit("EC");
    reveal_strlit(" | EC");
    reveal_strlit("FE");
    reveal_strlit(" | FE");
    reveal_strlit("WM");
    reveal_strlit(" | WM");
    reveal_strlit("AEC");
    reveal_strlit(" | AEC");
    reveal_strlit("AFE");
    reveal_strlit(" | AFE");
    reveal_strlit("AWM");
    reveal_strlit(" | AWM");
    reveal_strlit("MTR");
    reveal_strlit(" | MTR");
    let t = title_positions();
    let bar = seq![' ', '|', ' '];
    assert(" | DATM"@ =~= bar + "DATM"@);
    assert(t[0] == "DATM"@);
    assert(" | ATM"@ =~= bar + "ATM"@);
    assert(t[1] == "ATM"@);
    assert(" | TA"@ =~= bar + "TA"@);
    assert(t[2] == "TA"@);
    assert(" | EC"@ =~= bar + "EC"@);
    assert(t[3] == "EC"@);
    assert(" | FE"@ =~= bar + "FE"@);
    assert(t[4] == "FE"@);
    assert(" | WM"@ =~= bar + "WM"@);
    assert(t[5] == "WM"@);
    assert(" | AEC"@ =~= bar + "AEC"@);
    assert(t[6] == "AEC"@);
    assert(" | AFE"@ =~= bar + "AFE"@);
    assert(t[7] == "AFE"@);
    assert(" | AWM"@ =~= bar + "AWM"@);
    assert(t[8] == "AWM"@);
    assert(" | MTR"@ =~= bar + "MTR"@);
    assert(t[9] == "MTR"@);
    if k > 0 {
        assert(!contains_seq(roles, t[0]));
    }
    if k > 1 {
        assert(!contains_seq(roles, t[1]));
    }
    if k > 2 {
        assert(!contains_seq(roles, t[2]));
    }
    if k > 3 {
        assert(!contains_seq(roles, t[3]));
    }
    if k > 4 {
        assert(!contains_seq(roles, t[4]));
    }
    if k > 5 {
        assert(!contains_seq(roles, t[5]));
    }
    if k > 6 {
        assert(!contains_seq(roles, t[6]));
    }
    if k > 7 {
        assert(!contains_seq(roles, t[7]));
    }
    if k > 8 {
        assert(!contains_seq(roles, t[8]));
    }
}

/// Roles that name none of the title positions give no title.
pub proof fn lemma_nickname_title_none(roles: Seq<char>)
    requires
        forall|j: int|
            0 <= j < title_positions().len() ==> !contains_seq(roles, #[trigger] title_positions()[j]),
    ensures
        nickname_title(roles) == Seq::<char>::empty(),
{
    let t = title_positions();
    assert(!contains_seq(roles, t[0]));
    assert(!contains_seq(roles, t[1]));
    assert(!contains_seq(roles, t[2]));
    assert(!contains_seq(roles, t[3]));
    assert(!contains_seq(roles, t[4]));
    assert(!contains_seq(roles, t[5]));
    assert(!contains_seq(roles, t[6]));
    assert(!contains_seq(roles, t[7]));
    assert(!contains_seq(roles, t[8]));
    assert(!contains_seq(roles, t[9]));
}

/// The nickname a controller's guild member should have: first name, last
/// initial and a period, then ` - ` and the operating initials if there are
/// any, then the staff title.
pub open spec fn member_nickname(c: Controller) -> Seq<char> {
    c.first_name@ + " "@ + seq![c.last_name@[0]] + "."@ + match c.operating_initials {
        Some(ois) => if ois@.len() > 0 {
            " - "@ + ois@
        } else {
            Seq::empty()
        },
        None => Seq::empty(),
    } + nickname_title(c.roles@)
}

/// A nickname reads: the first name, a space, the last name's initial and
/// a period; then, for non-empty operating initials, a spaced hyphen and
/// the initials; then the staff title.
pub proof fn lemma_member_nickname_shape(c: Controller)
    ensures
        member_nickname(c) == c.first_name@ + seq![' ', c.last_name@[0], '.'] + match c.operating_initials {
            Some(ois) => if ois@.len() > 0 {
                seq![' ', '-', ' '] + ois@
            } else {
                Seq::<char>::empty()
            },
            None => Seq::<char>::empty(),
        } + nickname_title(c.roles@),
{
    reveal_strlit(" ");
    reveal_strlit(".");
    reveal_strlit(" - ");
    assert(c.first_name@ + " "@ + seq![c.last_name@[0]] + "."@ =~= c.first_name@ + seq![
        ' ',
        c.last_name@[0],
        '.',
    ]);
    assert(" - "@ =~= seq![' ', '-', ' ']);
}

/// The staff title for a roles string.
fn nickname_title_exec(roles: &Vec<char>) -> (t: &'static str)
    ensures
        t@ == nickname_title(roles@),
{
    proof {
        reveal_strlit("");
    }
    if contains_exec(roles, &chars_of("DATM")) {
        " | DATM"
    } else if contains_exec(roles, &chars_of("ATM")) {
        " | ATM"
    } else if contains_exec(roles, &chars_of("TA")) {
        " | TA"
    } else if contains_exec(roles, &chars_of("EC")) {
        " | EC"
    } else if contains_exec(roles, &chars_of("FE")) {
        " | FE"
    } else if contains_exec(roles, &chars_of("WM")) {
        " | WM"
    } else if contains_exec(roles, &chars_of("AEC")) {
        " | AEC"
    } else if contains_exec(roles, &chars_of("AFE")) {
        " | AFE"
    } else if contains_exec(roles, &chars_of("AWM")) {
        " | AWM"
    } else if contains_exec(roles, &chars_of("MTR")) {
        " | MTR"
    } else {
        ""
    }
}

/// The nickname the controller's guild member should have.
pub fn nickname_for(controller: &Controller) -> (name: String)
    requires
        controller.last_name@.len() > 0,
    ensures
        name@ == member_nickname(*controller),
{
    let mut v = chars_of(controller.first_name.as_str());
    append_str(&mut v, " ");
    let last = chars_of(controller.last_name.as_str());
    v.push(last[0]);
    append_str(&mut v, ".");
    let ghost base = v@;
    match &controller.operating_initials {
        Some(ois) => {
            let o = chars_of(ois.as_str());
            if o.len() > 0 {
                append_str(&mut v, " - ");
                append_chars(&mut v, &o);
            }
        },
        None => {},
    }
    let roles = chars_of(controller.roles.as_str());
    let title = nickname_title_exec(&roles);
    append_str(&mut v, title);
    proof {
        reveal_strlit("");
    }
    assert(v@ =~= member_nickname(*controller));
    string_from_chars(&v)
}

/// What to do with a member's nickname.
#[derive(Debug, Clone, PartialEq, Eq)]
pub enum NicknameUpdate {
    /// The nickname is already right.
    Keep,
    /// Replace the nickname with this one.
    Replace(String),
}

/// Set the guild member's nickname if needed: a member with no nickname, or
/// a different one, gets the controller's.
pub fn set_nickname(existing: &Option<String>, controller: &Controller) -> (update: NicknameUpdate)
    requires
        controller.last_name@.len() > 0,
    ensures
        match update {
            NicknameUpdate::Keep => existing matches Some(nick) && nick@ == member_nickname(
                *controller,
            ),
            NicknameUpdate::Replace(name) => name@ == member_nickname(*controller) && !(
            existing matches Some(nick) && nick@ == member_nickname(*controller)),
        },
{
    let name = nickname_for(controller);
    match existing {
        Some(nick) => {
            let a = chars_of(nick.as_str());
            let b = chars_of(name.as_str());
            if chars_eq(&a, &b) {
                NicknameUpdate::Keep
            } else {
                NicknameUpdate::Replace(name)
            }
        },
        None => NicknameUpdate::Replace(name),
    }
}

} // verus!

//! Core logic of the vZDV facility website, background tasks and Discord bot.

pub mod activity;
pub mod admin;
pub mod aviation;
pub mod bot;
pub mod config;
pub mod controller;
pub mod discord_oauth;
pub mod discord_roles;
pub mod email;
pub mod events;
pub mod feedback;
pub mod flashed_messages;
pub mod homepage;
pub mod import;
pub mod ordering;
pub mod resources;
pub mod roster;
pub mod site;
pub mod sql;
pub mod staff;
pub mod text;
pub mod timestamps;
pub mod vatsim;
pub mod vatusa;

use crate::config::{Config, ConfigStaffOverride};
use crate::sql::Controller;
use crate::text::{
    chars_eq, chars_of, ends_with, ends_with_exec, seqs_of, split_terminator_chars,
    split_terminator_on, starts_with, starts_with_exec, string_from_chars, strings_of,
};
use vstd::prelude::*;

verus! {

// ---------------------------------------------------------------------------
// Airspace
// ---------------------------------------------------------------------------

/// Some configured prefix begins `position`.
pub open spec fn has_prefix_in(position: Seq<char>, prefixes: Seq<String>) -> bool {
    exists|i: int| 0 <= i < prefixes.len() && starts_with(position, #[trigger] prefixes[i]@)
}

/// Some configured suffix ends `position`.
pub open spec fn has_suffix_in(position: Seq<char>, suffixes: Seq<String>) -> bool {
    exists|i: int| 0 <= i < suffixes.len() && ends_with(position, #[trigger] suffixes[i]@)
}

/// A callsign lies in the facility's airspace when it begins with one of
/// the configured prefixes and ends with one of the configured suffixes.
pub open spec fn in_facility_airspace(config: Config, position: Seq<char>) -> bool {
    has_prefix_in(position, config.stats.position_prefixes@) && has_suffix_in(
        position,
        config.stats.position_suffixes@,
    )
}

/// Whether one of the strings begins (`suffix` false) or ends (`suffix`
/// true) the position.
fn any_affix(position: &Vec<char>, affixes: &Vec<String>, suffix: bool) -> (r: bool)
    ensures
        !suffix ==> r == has_prefix_in(position@, affixes@),
        suffix ==> r == has_suffix_in(position@, affixes@),
{
    let mut i: usize = 0;
    while i < affixes.len()
        invariant
            i <= affixes.len(),
            forall|j: int|
                0 <= j < i ==> !(if suffix {
                    ends_with(position@, #[trigger] affixes@[j]@)
                } else {
                    starts_with(position@, affixes@[j]@)
                }),
        decreases affixes.len() - i,
    {
        let affix = chars_of(affixes[i].as_str());
        let hit = if suffix {
            ends_with_exec(position, &affix)
        } else {
            starts_with_exec(position, &affix)
        };
        if hit {
            return true;
        }
        i = i + 1;
    }
    false
}

/// Check whether the VATSIM session position is in this facility's airspace.
///
/// Relies on the config's "stats.position_prefixes" and suffixes.
pub fn position_in_facility_airspace(config: &Config, position: &str) -> (r: bool)
    ensures
        r == in_facility_airspace(*config, position@),
{
    let pos = chars_of(position);
    if !any_affix(&pos, &config.stats.position_prefixes, false) {
        return false;
    }
    any_affix(&pos, &config.stats.position_suffixes, true)
}

/// Adding a prefix or a suffix to the configuration never takes a position
/// out of the facility's airspace.
pub proof fn lemma_airspace_monotonic(config: Config, wider: Config, position: Seq<char>)
    requires
        forall|i: int|
            0 <= i < config.stats.position_prefixes@.len() ==> wider.stats.position_prefixes@.contains(
                #[trigger] config.stats.position_prefixes@[i],
            ),
        forall|i: int|
            0 <= i < config.stats.position_suffixes@.len() ==> wider.stats.position_suffixes@.contains(
                #[trigger] config.stats.position_suffixes@[i],
            ),
        in_facility_airspace(config, position),
    ensures
        in_facility_airspace(wider, position),
{
    let i = choose|i: int|
        0 <= i < config.stats.position_prefixes@.len() && starts_with(
            position,
            #[trigger] config.stats.position_prefixes@[i]@,
        );
    let j = choose|j: int|
        0 <= j < config.stats.position_suffixes@.len() && ends_with(
            position,
            #[trigger] config.stats.position_suffixes@[j]@,
        );
    assert(wider.stats.position_prefixes@.contains(config.stats.position_prefixes@[i]));
    assert(wider.stats.position_suffixes@.contains(config.stats.position_suffixes@[j]));
}

// ---------------------------------------------------------------------------
// Staff positions
// ---------------------------------------------------------------------------

/// The role that is never reported as a staff position.
pub open spec fn ignored_role() -> Seq<char> {
    seq!['F', 'A', 'C', 'C', 'B', 'T']
}

/// The facility whose instructors count as staff.
pub open spec fn home_facility_code() -> Seq<char> {
    seq!['Z', 'D', 'V']
}

/// The CID of the official holder of `role`, from the first override that
/// names it.
pub open spec fn override_cid(overrides: Seq<ConfigStaffOverride>, role: Seq<char>) -> Option<u32>
    decreases overrides.len(),
{
    if overrides.len() == 0 {
        None
    } else if overrides[0].role@ == role {
        Some(overrides[0].cid)
    } else {
        override_cid(overrides.drop_first(), role)
    }
}

/// The position that holding `role` gives: the role itself, or its
/// assistant form (`A` prefixed) when another controller is its official
/// holder.
pub open spec fn staff_position_for(
    role: Seq<char>,
    overrides: Seq<ConfigStaffOverride>,
    cid: u32,
) -> Seq<char> {
    match override_cid(overrides, role) {
        Some(holder) => if holder == cid {
            role
        } else {
            seq!['A'] + role
        },
        None => role,
    }
}

/// The positions that a list of roles gives, in order, skipping the
/// ignored role.
pub open spec fn staff_positions_from_roles(
    roles: Seq<Seq<char>>,
    overrides: Seq<ConfigStaffOverride>,
    cid: u32,
) -> Seq<Seq<char>>
    decreases roles.len(),
{
    if roles.len() == 0 {
        Seq::empty()
    } else {
        let prev = staff_positions_from_roles(roles.drop_last(), overrides, cid);
        if roles.last() == ignored_role() {
            prev
        } else {
            prev.push(staff_position_for(roles.last(), overrides, cid))
        }
    }
}

/// Without the ignored role (`FACCBT`), each role gives one position, in
/// the same order: the position that role gives.
pub proof fn lemma_staff_positions_one_per_role(
    roles: Seq<Seq<char>>,
    overrides: Seq<ConfigStaffOverride>,
    cid: u32,
)
    requires
        forall|i: int| 0 <= i < roles.len() ==> #[trigger] roles[i] != seq!['F', 'A', 'C', 'C', 'B', 'T'],
    ensures
        staff_positions_from_roles(roles, overrides, cid).len() == roles.len(),
        forall|i: int|
            0 <= i < roles.len() ==> #[trigger] staff_positions_from_roles(roles, overrides, cid)[i]
                == staff_position_for(roles[i], overrides, cid),
    decreases roles.len(),
{
    if roles.len() > 0 {
        let rest = roles.drop_last();
        assert forall|i: int| 0 <= i < rest.len() implies #[trigger] rest[i] != seq![
            'F',
            'A',
            'C',
            'C',
            'B',
            'T',
        ] by {
            assert(rest[i] == roles[i]);
        }
        lemma_staff_positions_one_per_role(rest, overrides, cid);
        assert(roles.last() == roles[roles.len() - 1]);
        assert forall|i: int| 0 <= i < roles.len() implies #[trigger] staff_positions_from_roles(
            roles,
            overrides,
            cid,
        )[i] == staff_position_for(roles[i], overrides, cid) by {
            if i < rest.len() {
                assert(rest[i] == roles[i]);
            }
        }
    }
}

/// The ignored role (`FACCBT`) gives no position wherever it stands.
pub proof fn lemma_staff_positions_skip_ignored(
    roles: Seq<Seq<char>>,
    overrides: Seq<ConfigStaffOverride>,
    cid: u32,
)
    ensures
        staff_positions_from_roles(roles.push(seq!['F', 'A', 'C', 'C', 'B', 'T']), overrides, cid)
            == staff_positions_from_roles(roles, overrides, cid),
{
    assert(roles.push(seq!['F', 'A', 'C', 'C', 'B', 'T']).drop_last() =~= roles);
}

/// A controller is listed as an instructor (`INS`, after the positions of
/// their roles) exactly when their home facility is ZDV and they hold an
/// instructor rating (I1, I2 or I3: ids 8 to 10).
pub proof fn lemma_staff_positions_instructor(controller: Controller, config: Config)
    ensures
        ({
            let base = staff_positions_from_roles(
                split_terminator_on(controller.roles@, ','),
                config.staff.overrides@,
                controller.cid,
            );
            &&& (controller.home_facility@ == seq!['Z', 'D', 'V'] && 8 <= controller.rating <= 10)
                ==> staff_positions(controller, config) == base.push(seq!['I', 'N', 'S'])
            &&& !(controller.home_facility@ == seq!['Z', 'D', 'V'] && 8 <= controller.rating <= 10)
                ==> staff_positions(controller, config) == base
        }),
{
}

/// The official holder of a role is found anywhere in the override list:
/// the first override naming the role gives its holder, and there is none
/// only when no override names it.
pub proof fn lemma_override_cid_first_match(
    overrides: Seq<ConfigStaffOverride>,
    role: Seq<char>,
    i: int,
)
    requires
        0 <= i < overrides.len(),
        overrides[i].role@ == role,
        forall|j: int| 0 <= j < i ==> (#[trigger] overrides[j]).role@ != role,
    ensures
        override_cid(overrides, role) == Some(overrides[i].cid),
    decreases i,
{
    if i > 0 {
        let rest = overrides.drop_first();
        assert(overrides[0].role@ != role);
        assert forall|j: int| 0 <= j < i - 1 implies (#[trigger] rest[j]).role@ != role by {
            assert(rest[j] == overrides[j + 1]);
        }
        assert(rest[i - 1] == overrides[i]);
        lemma_override_cid_first_match(rest, role, i - 1);
    }
}

/// No override names the role exactly when it has no official holder.
pub proof fn lemma_override_cid_none(overrides: Seq<ConfigStaffOverride>, role: Seq<char>)
    ensures
        override_cid(overrides, role) is None <==> forall|j: int|
            0 <= j < overrides.len() ==> (#[trigger] overrides[j]).role@ != role,
    decreases overrides.len(),
{
    if overrides.len() > 0 {
        let rest = overrides.drop_first();
        lemma_override_cid_none(rest, role);
        if forall|j: int| 0 <= j < overrides.len() ==> (#[trigger] overrides[j]).role@ != role {
            assert forall|j: int| 0 <= j < rest.len() implies (#[trigger] rest[j]).role@ != role by {
                assert(rest[j] == overrides[j + 1]);
            }
        }
        if override_cid(overrides, role) is None {
            assert forall|j: int| 0 <= j < overrides.len() implies (#[trigger] overrides[j]).role@
                != role by {
                if j > 0 {
                    assert(overrides[j] == rest[j - 1]);
                }
            }
        }
    }
}

/// A controller holding a role is its official holder only when the first
/// override naming the role names them; when it names another controller
/// they hold the assistant position (`A` and the role); with no override
/// for the role, the role itself.
pub proof fn lemma_staff_position_for_holder(
    role: Seq<char>,
    overrides: Seq<ConfigStaffOverride>,
    cid: u32,
    i: int,
)
    requires
        0 <= i < overrides.len(),
        overrides[i].role@ == role,
        forall|j: int| 0 <= j < i ==> (#[trigger] overrides[j]).role@ != role,
    ensures
        overrides[i].cid == cid ==> staff_position_for(role, overrides, cid) == role,
        overrides[i].cid != cid ==> staff_position_for(role, overrides, cid) == seq!['A'] + role,
{
    lemma_override_cid_first_match(overrides, role, i);
}

/// With no override for a role, holding it gives the role itself.
pub proof fn lemma_staff_position_for_unlisted(
    role: Seq<char>,
    overrides: Seq<ConfigStaffOverride>,
    cid: u32,
)
    requires
        forall|j: int| 0 <= j < overrides.len() ==> (#[trigger] overrides[j]).role@ != role,
    ensures
        staff_position_for(role, overrides, cid) == role,
{
    lemma_override_cid_none(overrides, role);
}

/// VATSIM rating ids of the instructor ratings (I1, I2, I3).
pub open spec fn is_instructor_rating(rating: int) -> bool {
    8 <= rating <= 10
}

/// The staff positions of a controller: those of its comma-separated roles,
/// then `INS` for a home controller holding an instructor rating.
pub open spec fn staff_positions(controller: Controller, config: Config) -> Seq<Seq<char>> {
    let base = staff_positions_from_roles(
        split_terminator_on(controller.roles@, ','),
        config.staff.overrides@,
        controller.cid,
    );
    if controller.home_facility@ == home_facility_code() && is_instructor_rating(
        controller.rating as int,
    ) {
        base.push(seq!['I', 'N', 'S'])
    } else {
        base
    }
}

/// The CID of the configured official holder of `role`, if any.
fn find_override(overrides: &Vec<ConfigStaffOverride>, role: &Vec<char>) -> (r: Option<u32>)
    ensures
        r == override_cid(overrides@, role@),
{
    let mut i: usize = 0;
    assert(overrides@.skip(0) =~= overrides@);
    while i < overrides.len()
        invariant
            i <= overrides.len(),
            override_cid(overrides@, role@) == override_cid(overrides@.skip(i as int), role@),
        decreases overrides.len() - i,
    {
        assert(overrides@.skip(i as int).drop_first() =~= overrides@.skip(i + 1));
        let name = chars_of(overrides[i].role.as_str());
        if chars_eq(&name, role) {
            return Some(overrides[i].cid);
        }
        i = i + 1;
    }
    None
}

/// Determine the staff position of the controller.
///
/// VATUSA does not differentiate between the official staff position (say, FE)
/// and their assistants (e.g. AFE). At the VATUSA level, they're the same. Here,
/// we do want to determine that difference.
///
/// This function will return all positions in the event the controller holds more
/// than one, like being an Instructor and also the FE, or a Mentor and an AEC.
pub fn determine_staff_positions(controller: &Controller, config: &Config) -> (r: Vec<String>)
    ensures
        strings_of(r@) == staff_positions(*controller, *config),
{
    let roles_chars = chars_of(controller.roles.as_str());
    let roles = split_terminator_chars(&roles_chars, ',');
    let ignored = vec!['F', 'A', 'C', 'C', 'B', 'T'];
    assert(ignored@ =~= ignored_role());
    let mut out: Vec<String> = Vec::new();
    let mut i: usize = 0;
    while i < roles.len()
        invariant
            i <= roles.len(),
            ignored@ == ignored_role(),
            strings_of(out@) == staff_positions_from_roles(
                seqs_of(roles@).take(i as int),
                config.staff.overrides@,
                controller.cid,
            ),
        decreases roles.len() - i,
    {
        let ghost all = seqs_of(roles@);
        assert(all.take(i + 1).drop_last() =~= all.take(i as int));
        assert(all.take(i + 1).last() == roles@[i as int]@);
        if !chars_eq(&roles[i], &ignored) {
            let position = match find_override(&config.staff.overrides, &roles[i]) {
                Some(holder) => {
                    if holder == controller.cid {
                        string_from_chars(&roles[i])
                    } else {
                        let mut assistant = vec!['A'];
                        crate::text::append_chars(&mut assistant, &roles[i]);
                        assert(assistant@ =~= seq!['A'] + roles@[i as int]@);
                        string_from_chars(&assistant)
                    }
                },
                None => string_from_chars(&roles[i]),
            };
            out.push(position);
            assert(strings_of(out@) =~= strings_of(out@.drop_last()).push(out@.last()@));
        }
        i = i + 1;
    }
    assert(seqs_of(roles@).take(roles.len() as int) =~= seqs_of(roles@));
    let zdv = vec!['Z', 'D', 'V'];
    assert(zdv@ =~= home_facility_code());
    let home = chars_of(controller.home_facility.as_str());
    if chars_eq(&home, &zdv) && controller.rating >= 8 && controller.rating <= 10 {
        let ins = vec!['I', 'N', 'S'];
        out.push(string_from_chars(&ins));
        assert(strings_of(out@) =~= strings_of(out@.drop_last()).push(out@.last()@));
    }
    out
}

// ---------------------------------------------------------------------------
// Ratings, statuses and positions
// ---------------------------------------------------------------------------

/// A VATSIM controller rating.
#[allow(clippy::upper_case_acronyms)]
#[derive(Debug, Clone, Copy, PartialEq, Eq, Structural)]
pub enum ControllerRating {
    INA,
    SUS,
    OBS,
    S1,
    S2,
    S3,
    C1,
    C2,
    C3,
    I1,
    I2,
    I3,
    SUP,
    ADM,
}

/// The numeric id that VATSIM uses for a rating.
pub open spec fn rating_id(r: ControllerRating) -> int {
    match r {
        ControllerRating::INA => -1,
        ControllerRating::SUS => 0,
        ControllerRating::OBS => 1,
        ControllerRating::S1 => 2,
        ControllerRating::S2 => 3,
        ControllerRating::S3 => 4,
        ControllerRating::C1 => 5,
        ControllerRating::C2 => 6,
        ControllerRating::C3 => 7,
        ControllerRating::I1 => 8,
        ControllerRating::I2 => 9,
        ControllerRating::I3 => 10,
        ControllerRating::SUP => 11,
        ControllerRating::ADM => 12,
    }
}

/// The short name of a rating.
pub open spec fn rating_abbreviation(r: ControllerRating) -> Seq<char> {
    match r {
        ControllerRating::INA => "INA"@,
        ControllerRating::SUS => "SUS"@,
        ControllerRating::OBS => "OBS"@,
        ControllerRating::S1 => "S1"@,
        ControllerRating::S2 => "S2"@,
        ControllerRating::S3 => "S3"@,
        ControllerRating::C1 => "C1"@,
        ControllerRating::C2 => "C2"@,
        ControllerRating::C3 => "C3"@,
        ControllerRating::I1 => "I1"@,
        ControllerRating::I2 => "I2"@,
        ControllerRating::I3 => "I3"@,
        ControllerRating::SUP => "SUP"@,
        ControllerRating::ADM => "ADM"@,
    }
}

/// The rating with a given VATSIM id, if any.
pub open spec fn rating_with_id(id: int) -> Option<ControllerRating> {
    if id == -1 {
        Some(ControllerRating::INA)
    } else if id == 0 {
        Some(ControllerRating::SUS)
    } else if id == 1 {
        Some(ControllerRating::OBS)
    } else if id == 2 {
        Some(ControllerRating::S1)
    } else if id == 3 {
        Some(ControllerRating::S2)
    } else if id == 4 {
        Some(ControllerRating::S3)
    } else if id == 5 {
        Some(ControllerRating::C1)
    } else if id == 6 {
        Some(ControllerRating::C2)
    } else if id == 7 {
        Some(ControllerRating::C3)
    } else if id == 8 {
        Some(ControllerRating::I1)
    } else if id == 9 {
        Some(ControllerRating::I2)
    } else if id == 10 {
        Some(ControllerRating::I3)
    } else if id == 11 {
        Some(ControllerRating::SUP)
    } else if id == 12 {
        Some(ControllerRating::ADM)
    } else {
        None
    }
}

impl ControllerRating {
    /// The numeric id that VATSIM uses for this rating.
    pub fn as_id(&self) -> (id: i8)
        ensures
            id == rating_id(*self),
    {
        match self {
            ControllerRating::INA => -1,
            ControllerRating::SUS => 0,
            ControllerRating::OBS => 1,
            ControllerRating::S1 => 2,
            ControllerRating::S2 => 3,
            ControllerRating::S3 => 4,
            ControllerRating::C1 => 5,
            ControllerRating::C2 => 6,
            ControllerRating::C3 => 7,
            ControllerRating::I1 => 8,
            ControllerRating::I2 => 9,
            ControllerRating::I3 => 10,
            ControllerRating::SUP => 11,
            ControllerRating::ADM => 12,
        }
    }

    /// The short name of this rating.
    pub fn as_str(&self) -> (s: &'static str)
        ensures
            s@ == rating_abbreviation(*self),
    {
        match self {
            ControllerRating::INA => "INA",
            ControllerRating::SUS => "SUS",
            ControllerRating::OBS => "OBS",
            ControllerRating::S1 => "S1",
            ControllerRating::S2 => "S2",
            ControllerRating::S3 => "S3",
            ControllerRating::C1 => "C1",
            ControllerRating::C2 => "C2",
            ControllerRating::C3 => "C3",
            ControllerRating::I1 => "I1",
            ControllerRating::I2 => "I2",
            ControllerRating::I3 => "I3",
            ControllerRating::SUP => "SUP",
            ControllerRating::ADM => "ADM",
        }
    }

    /// The rating with the given VATSIM id, if there is one.
    pub fn from_id(id: i8) -> (r: Option<ControllerRating>)
        ensures
            r == rating_with_id(id as int),
    {
        match id {
            -1 => Some(ControllerRating::INA),
            0 => Some(ControllerRating::SUS),
            1 => Some(ControllerRating::OBS),
            2 => Some(ControllerRating::S1),
            3 => Some(ControllerRating::S2),
            4 => Some(ControllerRating::S3),
            5 => Some(ControllerRating::C1),
            6 => Some(ControllerRating::C2),
            7 => Some(ControllerRating::C3),
            8 => Some(ControllerRating::I1),
            9 => Some(ControllerRating::I2),
            10 => Some(ControllerRating::I3),
            11 => Some(ControllerRating::SUP),
            12 => Some(ControllerRating::ADM),
            _ => None,
        }
    }
}

/// A rating's id leads back to the rating, and only ids of ratings lead to
/// one.
pub proof fn lemma_rating_id_roundtrip(r: ControllerRating, id: int)
    ensures
        rating_with_id(rating_id(r)) == Some(r),
        rating_with_id(id) matches Some(q) ==> rating_id(q) == id,
{
}

impl Controller {
    /// Friendly name for the controller's numeric rating (`???` for an
    /// unknown id).
    pub fn rating_name(rating: i8) -> (s: &'static str)
        ensures
            s@ == (match rating_with_id(rating as int) {
                Some(r) => rating_abbreviation(r),
                None => "???"@,
            }),
    {
        match ControllerRating::from_id(rating) {
            Some(r) => r.as_str(),
            None => "???",
        }
    }
}

/// A controller's standing with the facility.
#[derive(Debug, Clone, Copy, PartialEq, Eq, Structural)]
pub enum ControllerStatus {
    Active,
    Inactive,
    LeaveOfAbsence,
}

/// A staff position of the facility.
#[allow(clippy::upper_case_acronyms)]
#[derive(Debug, Clone, Copy, PartialEq, Eq, Structural)]
pub enum StaffPosition {
    NoPosition,
    ATM,
    DATM,
    TA,
    FE,
    EC,
    WM,
    AFE,
    AEC,
    AWM,
    INS,
    MTR,
}

/// The short name of a staff position (empty for none).
pub open spec fn staff_position_abbreviation(p: StaffPosition) -> Seq<char> {
    match p {
        StaffPosition::NoPosition => ""@,
        StaffPosition::ATM => "ATM"@,
        StaffPosition::DATM => "DATM"@,
        StaffPosition::TA => "TA"@,
        StaffPosition::FE => "FE"@,
        StaffPosition::EC => "EC"@,
        StaffPosition::WM => "WM"@,
        StaffPosition::AFE => "AFE"@,
        StaffPosition::AEC => "AEC"@,
        StaffPosition::AWM => "AWM"@,
        StaffPosition::INS => "INS"@,
        StaffPosition::MTR => "MTR"@,
    }
}

impl StaffPosition {
    /// The short name of this position, as stored in a controller's roles.
    pub fn as_str(&self) -> (s: &'static str)
        ensures
            s@ == staff_position_abbreviation(*self),
    {
        match self {
            StaffPosition::NoPosition => "",
            StaffPosition::ATM => "ATM",
            StaffPosition::DATM => "DATM",
            StaffPosition::TA => "TA",
            StaffPosition::FE => "FE",
            StaffPosition::EC => "EC",
            StaffPosition::WM => "WM",
            StaffPosition::AFE => "AFE",
            StaffPosition::AEC => "AEC",
            StaffPosition::AWM => "AWM",
            StaffPosition::INS => "INS",
            StaffPosition::MTR => "MTR",
        }
    }
}

} // verus!

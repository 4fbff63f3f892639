//! The facility staff page: the staff positions, in display order, with
//! the controllers holding each.

use crate::config::Config;
use crate::sql::Controller;
use crate::text::{append_str, chars_eq, chars_of, string_from_chars, strings_of};
use crate::{determine_staff_positions, staff_positions};
use vstd::prelude::*;

verus! {

/// A staff position as the staff page shows it.
#[derive(Debug)]
pub struct StaffOutlineEntry {
    pub short: &'static str,
    pub name: &'static str,
    pub order: u8,
    pub controllers: Vec<Controller>,
    pub email: Option<String>,
    pub description: &'static str,
}

/// Number of positions on the staff page.
pub open spec fn outline_len() -> nat {
    11
}

/// Short name of the `k`-th position on the staff page.
pub open spec fn outline_short(k: int) -> Seq<char> {
    if k == 0 {
        "ATM"@
    } else if k == 1 {
        "DATM"@
    } else if k == 2 {
        "TA"@
    } else if k == 3 {
        "FE"@
    } else if k == 4 {
        "EC"@
    } else if k == 5 {
        "WM"@
    } else if k == 6 {
        "INS"@
    } else if k == 7 {
        "MTR"@
    } else if k == 8 {
        "AFE"@
    } else if k == 9 {
        "AEC"@
    } else {
        "AWM"@
    }
}

/// Full name of the `k`-th position on the staff page.
pub open spec fn outline_name(k: int) -> Seq<char> {
    if k == 0 {
        "Air Traffic Manager"@
    } else if k == 1 {
        "Deputy Air Traffic Manager"@
    } else if k == 2 {
        "Training Administrator"@
    } else if k == 3 {
        "Facility Engineer"@
    } else if k == 4 {
        "Events Coordinator"@
    } else if k == 5 {
        "Webmaster"@
    } else if k == 6 {
        "Instructor"@
    } else if k == 7 {
        "Mentor"@
    } else if k == 8 {
        "Assistant Facility Engineer"@
    } else if k == 9 {
        "Assistant Events Coordinator"@
    } else {
        "Assistant Webmaster"@
    }
}

/// Mailbox name of the `k`-th position, for the six that have one.
pub open spec fn outline_mailbox(k: int) -> Option<Seq<char>> {
    if k == 0 {
        Some("atm"@)
    } else if k == 1 {
        Some("datm"@)
    } else if k == 2 {
        Some("ta"@)
    } else if k == 3 {
        Some("fe"@)
    } else if k == 4 {
        Some("ec"@)
    } else if k == 5 {
        Some("wm"@)
    } else {
        None
    }
}

/// Description of the `k`-th position on the staff page.
pub open spec fn outline_description(k: int) -> Seq<char> {
    if k == 0 {
        "Responsible for the macro-management of the facility. Oversees day-to-day operations and ensures that the facility is running smoothly."@
    } else if k == 1 {
        "Assists the Air Traffic Manager with the management of the facility. Acts as the Air Traffic Manager in their absence."@
    } else if k == 2 {
        "Responsible for overseeing and management of the facility's training program and staff."@
    } else if k == 3 {
        "Responsible for the creation of sector files, radar client files, and other facility resources."@
    } else if k == 4 {
        "Responsible for the planning, coordination and advertisement of facility events with neighboring facilities, virtual airlines, VATUSA, and VATSIM."@
    } else if k == 5 {
        "Responsible for the management of the facility's website and technical infrastructure."@
    } else if k == 6 {
        "Under direction of the Training Administrator, leads training and handles OTS Examinations."@
    } else if k == 7 {
        "Under direction of the Training Administrator, helps train students and prepare them for OTS Examinations."@
    } else if k == 8 {
        "Assists the Facility Engineer."@
    } else if k == 9 {
        "Assists the Events Coordinator."@
    } else {
        "Assists the Webmaster."@
    }
}

/// Entry `k` of the outline is the `k`-th position, with no controllers
/// and its mailbox at the staff email domain.
pub open spec fn outline_entry_matches(e: StaffOutlineEntry, k: int, email_domain: Seq<char>) -> bool {
    &&& e.short@ == outline_short(k)
    &&& e.name@ == outline_name(k)
    &&& e.order == k + 1
    &&& e.description@ == outline_description(k)
    &&& match outline_mailbox(k) {
        Some(mailbox) => e.email matches Some(address) && address@ == mailbox + "@"@ + email_domain,
        None => e.email is None,
    }
}

/// One outline entry.
fn outline_entry(
    short: &'static str,
    name: &'static str,
    order: u8,
    mailbox: Option<&'static str>,
    description: &'static str,
    email_domain: &str,
) -> (e: StaffOutlineEntry)
    ensures
        e.short == short,
        e.name == name,
        e.order == order,
        e.description == description,
        e.controllers@.len() == 0,
        match mailbox {
            Some(m) => e.email matches Some(address) && address@ == m@ + "@"@ + email_domain@,
            None => e.email is None,
        },
{
    let email = match mailbox {
        Some(m) => {
            let mut v = chars_of(m);
            append_str(&mut v, "@");
            append_str(&mut v, email_domain);
            Some(string_from_chars(&v))
        },
        None => None,
    };
    StaffOutlineEntry { short, name, order, controllers: Vec::new(), email, description }
}

/// The staff positions in display order, with no controllers yet.
pub fn generate_staff_outline(config: &Config) -> (outline: Vec<StaffOutlineEntry>)
    ensures
        outline@.len() == outline_len(),
        forall|k: int|
            0 <= k < outline_len() ==> outline_entry_matches(
                #[trigger] outline@[k],
                k,
                config.staff.email_domain@,
            ),
        forall|k: int| 0 <= k < outline_len() ==> (#[trigger] outline@[k]).controllers@.len() == 0,
{
    let d = config.staff.email_domain.as_str();
    let mut v: Vec<StaffOutlineEntry> = Vec::new();
    v.push(outline_entry("ATM", "Air Traffic Manager", 1, Some("atm"), "Responsible for the macro-management of the facility. Oversees day-to-day operations and ensures that the facility is running smoothly.", d));
    v.push(outline_entry("DATM", "Deputy Air Traffic Manager", 2, Some("datm"), "Assists the Air Traffic Manager with the management of the facility. Acts as the Air Traffic Manager in their absence.", d));
    v.push(outline_entry("TA", "Training Administrator", 3, Some("ta"), "Responsible for overseeing and management of the facility's training program and staff.", d));
    v.push(outline_entry("FE", "Facility Engineer", 4, Some("fe"), "Responsible for the creation of sector files, radar client files, and other facility resources.", d));
    v.push(outline_entry("EC", "Events Coordinator", 5, Some("ec"), "Responsible for the planning, coordination and advertisement of facility events with neighboring facilities, virtual airlines, VATUSA, and VATSIM.", d));
    v.push(outline_entry("WM", "Webmaster", 6, Some("wm"), "Responsible for the management of the facility's website and technical infrastructure.", d));
    v.push(outline_entry("INS", "Instructor", 7, None, "Under direction of the Training Administrator, leads training and handles OTS Examinations.", d));
    v.push(outline_entry("MTR", "Mentor", 8, None, "Under direction of the Training Administrator, helps train students and prepare them for OTS Examinations.", d));
    v.push(outline_entry("AFE", "Assistant Facility Engineer", 9, None, "Assists the Facility Engineer.", d));
    v.push(outline_entry("AEC", "Assistant Events Coordinator", 10, None, "Assists the Events Coordinator.", d));
    v.push(outline_entry("AWM", "Assistant Webmaster", 11, None, "Assists the Webmaster.", d));
    v
}

/// How many times `short` occurs among the positions.
pub open spec fn count_position(positions: Seq<Seq<char>>, short: Seq<char>) -> nat
    decreases positions.len(),
{
    if positions.len() == 0 {
        0
    } else {
        count_position(positions.drop_last(), short) + if positions.last() == short {
            1nat
        } else {
            0nat
        }
    }
}

/// The controllers listed under a position: each controller, in order, once
/// for every time the position occurs among its staff positions.
pub open spec fn holders_of(controllers: Seq<Controller>, short: Seq<char>, config: Config) -> Seq<
    Controller,
>
    decreases controllers.len(),
{
    if controllers.len() == 0 {
        Seq::empty()
    } else {
        holders_of(controllers.drop_last(), short, config) + Seq::new(
            count_position(staff_positions(controllers.last(), config), short),
            |x: int| controllers.last(),
        )
    }
}

/// The index of the outline entry named `position`, if any.
fn outline_index(shorts: &Vec<Vec<char>>, position: &Vec<char>) -> (r: Option<usize>)
    requires
        shorts@.len() == outline_len(),
        forall|k: int| 0 <= k < outline_len() ==> (#[trigger] shorts@[k])@ == outline_short(k),
    ensures
        r matches Some(k) ==> k < outline_len() && outline_short(k as int) == position@,
        r is None ==> forall|k: int| 0 <= k < outline_len() ==> outline_short(k) != position@,
{
    let mut k: usize = 0;
    while k < shorts.len()
        invariant
            k <= shorts.len(),
            shorts@.len() == outline_len(),
            forall|j: int| 0 <= j < outline_len() ==> (#[trigger] shorts@[j])@ == outline_short(j),
            forall|j: int| 0 <= j < k ==> outline_short(j) != position@,
        decreases shorts.len() - k,
    {
        if chars_eq(&shorts[k], position) {
            return Some(k);
        }
        k = k + 1;
    }
    None
}

/// The positions on the staff page are all different.
proof fn lemma_outline_shorts_distinct(j: int, k: int)
    requires
        0 <= j < outline_len(),
        0 <= k < outline_len(),
        j != k,
    ensures
        outline_short(j) != outline_short(k),
{
    reveal_strlit("ATM");
    reveal_strlit("DATM");
    reveal_strlit("TA");
    reveal_strlit("FE");
    reveal_strlit("EC");
    reveal_strlit("WM");
    reveal_strlit("INS");
    reveal_strlit("MTR");
    reveal_strlit("AFE");
    reveal_strlit("AEC");
    reveal_strlit("AWM");
    assert(outline_short(j).len() != outline_short(k).len() || outline_short(j)[0] != outline_short(
        k,
    )[0] || outline_short(j)[1] != outline_short(k)[1] || outline_short(j)[2] != outline_short(
        k,
    )[2]);
}

/// View the facility's staff: every staff position in display order, each
/// with the controllers that hold it (see `holders_of`).
pub fn staff_page(config: &Config, controllers: &Vec<Controller>) -> (outline: Vec<
    StaffOutlineEntry,
>)
    ensures
        outline@.len() == outline_len(),
        forall|k: int|
            0 <= k < outline_len() ==> outline_entry_matches(
                #[trigger] outline@[k],
                k,
                config.staff.email_domain@,
            ),
        forall|k: int|
            0 <= k < outline_len() ==> (#[trigger] outline@[k]).controllers@ == holders_of(
                controllers@,
                outline_short(k),
                *config,
            ),
{
    let mut outline = generate_staff_outline(config);
    let mut shorts: Vec<Vec<char>> = Vec::new();
    let mut buckets: Vec<Vec<Controller>> = Vec::new();
    let mut k: usize = 0;
    while k < outline.len()
        invariant
            k <= outline@.len(),
            outline@.len() == outline_len(),
            forall|j: int|
                0 <= j < outline_len() ==> outline_entry_matches(
                    #[trigger] outline@[j],
                    j,
                    config.staff.email_domain@,
                ),
            shorts@.len() == k,
            buckets@.len() == k,
            forall|j: int| 0 <= j < k ==> (#[trigger] shorts@[j])@ == outline_short(j),
            forall|j: int| 0 <= j < k ==> (#[trigger] buckets@[j])@.len() == 0,
        decreases outline.len() - k,
    {
        shorts.push(chars_of(outline[k].short));
        buckets.push(Vec::new());
        k = k + 1;
    }

    let mut i: usize = 0;
    assert(controllers@.take(0) =~= Seq::<Controller>::empty());
    while i < controllers.len()
        invariant
            i <= controllers.len(),
            shorts@.len() == outline_len(),
            buckets@.len() == outline_len(),
            forall|j: int| 0 <= j < outline_len() ==> (#[trigger] shorts@[j])@ == outline_short(j),
            forall|j: int|
                0 <= j < outline_len() ==> (#[trigger] buckets@[j])@ == holders_of(
                    controllers@.take(i as int),
                    outline_short(j),
                    *config,
                ),
        decreases controllers.len() - i,
    {
        let c = &controllers[i];
        let positions = determine_staff_positions(c, config);
        let ghost ps = strings_of(positions@);
        let mut p: usize = 0;
        assert(ps.take(0) =~= Seq::<Seq<char>>::empty());
        while p < positions.len()
            invariant
                p <= positions.len(),
                i < controllers.len(),
                *c == controllers@[i as int],
                ps == strings_of(positions@),
                shorts@.len() == outline_len(),
                buckets@.len() == outline_len(),
                forall|j: int| 0 <= j < outline_len() ==> (#[trigger] shorts@[j])@ == outline_short(j),
                forall|j: int|
                    0 <= j < outline_len() ==> (#[trigger] buckets@[j])@ == holders_of(
                        controllers@.take(i as int),
                        outline_short(j),
                        *config,
                    ) + Seq::new(count_position(ps.take(p as int), outline_short(j)), |x: int| *c),
            decreases positions.len() - p,
        {
            let position = chars_of(positions[p].as_str());
            assert(ps.take(p + 1).drop_last() =~= ps.take(p as int));
            assert(ps.take(p + 1).last() == position@);
            match outline_index(&shorts, &position) {
                Some(k) => {
                    let ghost old_buckets = buckets@;
                    let mut tmp: Vec<Controller> = Vec::new();
                    std::mem::swap(&mut tmp, &mut buckets[k]);
                    tmp.push(c.clone());
                    std::mem::swap(&mut tmp, &mut buckets[k]);
                    assert forall|j: int| 0 <= j < outline_len() implies (#[trigger] buckets@[j])@
                        == holders_of(controllers@.take(i as int), outline_short(j), *config)
                        + Seq::new(count_position(ps.take(p + 1), outline_short(j)), |x: int| *c) by {
                        if j != k {
                            lemma_outline_shorts_distinct(j, k as int);
                            assert(buckets@[j] == old_buckets[j]);
                        } else {
                            assert(buckets@[j]@ =~= old_buckets[j]@.push(*c));
                        }
                        assert(holders_of(controllers@.take(i as int), outline_short(j), *config)
                            + Seq::new(count_position(ps.take(p + 1), outline_short(j)), |x: int| *c)
                            =~= (buckets@[j])@);
                    }
                },
                None => {
                    assert forall|j: int| 0 <= j < outline_len() implies (#[trigger] buckets@[j])@
                        == holders_of(controllers@.take(i as int), outline_short(j), *config)
                        + Seq::new(count_position(ps.take(p + 1), outline_short(j)), |x: int| *c) by {
                        assert(count_position(ps.take(p + 1), outline_short(j)) == count_position(
                            ps.take(p as int),
                            outline_short(j),
                        ));
                    }
                },
            }
            p = p + 1;
        }
        proof {
            assert(ps.take(positions.len() as int) =~= ps);
            assert(controllers@.take(i + 1).drop_last() =~= controllers@.take(i as int));
            assert(controllers@.take(i + 1).last() == *c);
            assert forall|j: int| 0 <= j < outline_len() implies (#[trigger] buckets@[j])@
                == holders_of(controllers@.take(i + 1), outline_short(j), *config) by {
                assert(ps == staff_positions(*c, *config));
            }
        }
        i = i + 1;
    }
    assert(controllers@.take(controllers.len() as int) =~= controllers@);

    let mut k: usize = 0;
    while k < outline.len()
        invariant
            k <= outline@.len(),
            outline@.len() == outline_len(),
            buckets@.len() == outline_len(),
            forall|j: int|
                0 <= j < outline_len() ==> outline_entry_matches(
                    #[trigger] outline@[j],
                    j,
                    config.staff.email_domain@,
                ),
            forall|j: int|
                k <= j < outline_len() ==> (#[trigger] buckets@[j])@ == holders_of(
                    controllers@,
                    outline_short(j),
                    *config,
                ),
            forall|j: int|
                0 <= j < k ==> (#[trigger] outline@[j]).controllers@ == holders_of(
                    controllers@,
                    outline_short(j),
                    *config,
                ),
        decreases outline.len() - k,
    {
        let mut tmp: Vec<Controller> = Vec::new();
        std::mem::swap(&mut tmp, &mut buckets[k]);
        let mut entry = outline_entry("", "", 0, None, "", "");
        std::mem::swap(&mut entry, &mut outline[k]);
        entry.controllers = tmp;
        std::mem::swap(&mut entry, &mut outline[k]);
        k = k + 1;
    }
    outline
}

} // verus!

//! The facility roster page: each controller on the roster with their
//! rating, staff positions and certifications, ordered by CID.

use crate::activity::{
    lemma_rank_bound, lemma_rank_injective, line_keys, line_keys_exec, line_of,
    int_keys, rank_of,
};
use crate::config::Config;
use crate::sql::{Certification, Controller};
use crate::text::{chars_eq, chars_of, join_strings, join_with};
use crate::{
    determine_staff_positions, home_facility_code, rating_abbreviation, rating_with_id,
    staff_positions, ControllerRating,
};
use vstd::prelude::*;

verus! {

/// One line of the roster.
#[derive(Debug)]
pub struct ControllerWithCerts {
    pub cid: u32,
    pub first_name: String,
    pub last_name: String,
    pub operating_initials: String,
    pub rating: String,
    pub is_home: bool,
    pub roles: String,
    pub certs: Vec<Certification>,
    pub loa_until: Option<i64>,
}

/// The rating abbreviation shown for a rating id; nothing for an unknown id.
pub open spec fn shown_rating(rating: i8) -> Seq<char> {
    match rating_with_id(rating as int) {
        Some(r) => rating_abbreviation(r),
        None => Seq::empty(),
    }
}

/// The certifications held by controller `cid`, in stored order.
pub open spec fn certs_of(certs: Seq<Certification>, cid: u32) -> Seq<Certification> {
    certs.filter(|c: Certification| c.cid == cid)
}

/// Line `line` of the roster is what controller `c` and the stored
/// certifications give.
pub open spec fn roster_line_matches(
    line: ControllerWithCerts,
    c: Controller,
    certs: Seq<Certification>,
    config: Config,
) -> bool {
    &&& line.cid == c.cid
    &&& line.first_name@ == c.first_name@
    &&& line.last_name@ == c.last_name@
    &&& line.operating_initials@ == match c.operating_initials {
        Some(s) => s@,
        None => Seq::<char>::empty(),
    }
    &&& line.rating@ == shown_rating(c.rating)
    &&& line.is_home == (c.home_facility@ == home_facility_code())
    &&& line.roles@ == join_with(staff_positions(c, config), ", "@)
    &&& line.certs@ == certs_of(certs, c.cid)
    &&& line.loa_until == c.loa_until
}

/// The certifications of controller `cid`.
fn controller_certs(certs: &Vec<Certification>, cid: u32) -> (r: Vec<Certification>)
    ensures
        r@ == certs_of(certs@, cid),
{
    let mut r: Vec<Certification> = Vec::new();
    let mut i: usize = 0;
    while i < certs.len()
        invariant
            i <= certs.len(),
            r@ == certs_of(certs@.take(i as int), cid),
        decreases certs.len() - i,
    {
        assert(certs@.take(i + 1).drop_last() =~= certs@.take(i as int));
        proof {
            reveal(Seq::filter);
        }
        if certs[i].cid == cid {
            r.push(certs[i].clone());
        }
        i = i + 1;
    }
    assert(certs@.take(certs.len() as int) =~= certs@);
    r
}

/// The roster line of one controller.
fn roster_line(c: &Controller, certs: &Vec<Certification>, config: &Config) -> (line:
    ControllerWithCerts)
    ensures
        roster_line_matches(line, *c, certs@, *config),
{
    let operating_initials = match &c.operating_initials {
        Some(s) => s.clone(),
        None => String::new(),
    };
    let rating = match ControllerRating::from_id(c.rating) {
        Some(r) => String::from_str(r.as_str()),
        None => String::new(),
    };
    let positions = determine_staff_positions(c, config);
    let roles = join_strings(&positions, ", ");
    let home = chars_of(c.home_facility.as_str());
    let zdv = vec!['Z', 'D', 'V'];
    assert(zdv@ =~= home_facility_code());
    ControllerWithCerts {
        cid: c.cid,
        first_name: c.first_name.clone(),
        last_name: c.last_name.clone(),
        operating_initials,
        rating,
        is_home: chars_eq(&home, &zdv),
        roles,
        certs: controller_certs(certs, c.cid),
        loa_until: c.loa_until,
    }
}

/// View the full roster: controller `i` of the input is on line
/// `line_of(controllers, i)`, so the lines go by CID, then by input order.
pub fn roster_page(
    controllers: &Vec<Controller>,
    certs: &Vec<Certification>,
    config: &Config,
) -> (roster: Vec<ControllerWithCerts>)
    requires
        controllers.len() < 0x8000_0000,
    ensures
        roster@.len() == controllers@.len(),
        forall|i: int|
            0 <= i < controllers@.len() ==> roster_line_matches(
                #[trigger] roster@[line_of(controllers@, i)],
                controllers@[i],
                certs@,
                *config,
            ),
{
    let n = controllers.len();
    let ghost cs = controllers@;
    let order_keys = line_keys_exec(controllers);
    let mut roster: Vec<ControllerWithCerts> = Vec::new();
    let mut k: usize = 0;
    while k < n
        invariant
            k <= n,
            roster@.len() == k,
        decreases n - k,
    {
        roster.push(
            ControllerWithCerts {
                cid: 0,
                first_name: String::new(),
                last_name: String::new(),
                operating_initials: String::new(),
                rating: String::new(),
                is_home: false,
                roles: String::new(),
                certs: Vec::new(),
                loa_until: None,
            },
        );
        k = k + 1;
    }
    assert(int_keys(order_keys@).len() == order_keys@.len());
    let mut i: usize = 0;
    while i < n
        invariant
            i <= n,
            n == controllers.len(),
            cs == controllers@,
            roster@.len() == n,
            int_keys(order_keys@) == line_keys(cs),
            order_keys@.len() == n,
            forall|j: int|
                0 <= j < i ==> roster_line_matches(
                    #[trigger] roster@[line_of(cs, j)],
                    cs[j],
                    certs@,
                    *config,
                ),
        decreases n - i,
    {
        let line = roster_line(&controllers[i], certs, config);
        let slot = rank_of(&order_keys, i);
        assert(slot == line_of(cs, i as int));
        proof {
            assert forall|j: int| 0 <= j < i implies line_of(cs, j) != slot as int && line_of(cs, j)
                < n by {
                assert(line_keys(cs)[j] != line_keys(cs)[i as int]);
                lemma_rank_injective(line_keys(cs), i as int, j);
                lemma_rank_bound(line_keys(cs), j, n as int);
            }
        }
        let ghost before = roster@;
        roster.set(slot, line);
        assert(forall|j: int| 0 <= j < i ==> roster@[line_of(cs, j)] == before[line_of(cs, j)]);
        i = i + 1;
    }
    roster
}

} // verus!

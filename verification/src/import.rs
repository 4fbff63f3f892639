//! Importing controllers from the facility's previous site: ratings by
//! abbreviation, Discord ids, and which certifications to store.

use crate::text::{chars_eq, chars_of};
use crate::{rating_abbreviation, ControllerRating};
use vstd::prelude::*;

verus! {

/// A certification as the previous site lists it.
#[derive(Debug)]
pub struct AdhCertification {
    pub display_name: String,
    pub value: String,
}

impl Clone for AdhCertification {
    fn clone(&self) -> (r: Self)
        ensures
            r == *self,
    {
        AdhCertification { display_name: self.display_name.clone(), value: self.value.clone() }
    }
}

/// The rating an abbreviation names; an unknown abbreviation is taken as
/// an observer's.
pub open spec fn rating_named(abbreviation: Seq<char>) -> ControllerRating {
    if abbreviation == "INA"@ {
        ControllerRating::INA
    } else if abbreviation == "SUS"@ {
        ControllerRating::SUS
    } else if abbreviation == "OBS"@ {
        ControllerRating::OBS
    } else if abbreviation == "S1"@ {
        ControllerRating::S1
    } else if abbreviation == "S2"@ {
        ControllerRating::S2
    } else if abbreviation == "S3"@ {
        ControllerRating::S3
    } else if abbreviation == "C1"@ {
        ControllerRating::C1
    } else if abbreviation == "C2"@ {
        ControllerRating::C2
    } else if abbreviation == "C3"@ {
        ControllerRating::C3
    } else if abbreviation == "I1"@ {
        ControllerRating::I1
    } else if abbreviation == "I2"@ {
        ControllerRating::I2
    } else if abbreviation == "I3"@ {
        ControllerRating::I3
    } else if abbreviation == "SUP"@ {
        ControllerRating::SUP
    } else if abbreviation == "ADM"@ {
        ControllerRating::ADM
    } else {
        ControllerRating::OBS
    }
}

/// The rating an abbreviation names (observer when unknown).
pub fn rating_from_abbreviation(abbreviation: &str) -> (r: ControllerRating)
    ensures
        r == rating_named(abbreviation@),
{
    let a = chars_of(abbreviation);
    if chars_eq(&a, &chars_of("INA")) {
        ControllerRating::INA
    } else if chars_eq(&a, &chars_of("SUS")) {
        ControllerRating::SUS
    } else if chars_eq(&a, &chars_of("OBS")) {
        ControllerRating::OBS
    } else if chars_eq(&a, &chars_of("S1")) {
        ControllerRating::S1
    } else if chars_eq(&a, &chars_of("S2")) {
        ControllerRating::S2
    } else if chars_eq(&a, &chars_of("S3")) {
        ControllerRating::S3
    } else if chars_eq(&a, &chars_of("C1")) {
        ControllerRating::C1
    } else if chars_eq(&a, &chars_of("C2")) {
        ControllerRating::C2
    } else if chars_eq(&a, &chars_of("C3")) {
        ControllerRating::C3
    } else if chars_eq(&a, &chars_of("I1")) {
        ControllerRating::I1
    } else if chars_eq(&a, &chars_of("I2")) {
        ControllerRating::I2
    } else if chars_eq(&a, &chars_of("I3")) {
        ControllerRating::I3
    } else if chars_eq(&a, &chars_of("SUP")) {
        ControllerRating::SUP
    } else if chars_eq(&a, &chars_of("ADM")) {
        ControllerRating::ADM
    } else {
        ControllerRating::OBS
    }
}

/// Every rating is read back from its own abbreviation.
pub proof fn lemma_rating_abbreviation_roundtrip(r: ControllerRating)
    ensures
        rating_named(rating_abbreviation(r)) == r,
{
    reveal_strlit("INA");
    reveal_strlit("SUS");
    reveal_strlit("OBS");
    reveal_strlit("S1");
    reveal_strlit("S2");
    reveal_strlit("S3");
    reveal_strlit("C1");
    reveal_strlit("C2");
    reveal_strlit("C3");
    reveal_strlit("I1");
    reveal_strlit("I2");
    reveal_strlit("I3");
    reveal_strlit("SUP");
    reveal_strlit("ADM");
    assert("INA"@ =~= seq!['I', 'N', 'A']);
    assert("SUS"@ =~= seq!['S', 'U', 'S']);
    assert("OBS"@ =~= seq!['O', 'B', 'S']);
    assert("S1"@ =~= seq!['S', '1']);
    assert("S2"@ =~= seq!['S', '2']);
    assert("S3"@ =~= seq!['S', '3']);
    assert("C1"@ =~= seq!['C', '1']);
    assert("C2"@ =~= seq!['C', '2']);
    assert("C3"@ =~= seq!['C', '3']);
    assert("I1"@ =~= seq!['I', '1']);
    assert("I2"@ =~= seq!['I', '2']);
    assert("I3"@ =~= seq!['I', '3']);
    assert("SUP"@ =~= seq!['S', 'U', 'P']);
    assert("ADM"@ =~= seq!['A', 'D', 'M']);
}

/// The Discord id to store: none for an empty one.
pub fn stored_discord_id(discord_id: &str) -> (r: Option<String>)
    ensures
        match r {
            Some(s) => discord_id@.len() > 0 && s@ == discord_id@,
            None => discord_id@.len() == 0,
        },
{
    if discord_id.unicode_len() == 0 {
        None
    } else {
        Some(String::from_str(discord_id))
    }
}

/// The certifications to store: those whose value is not "none", in order.
pub open spec fn certifications_kept(certs: Seq<AdhCertification>) -> Seq<AdhCertification> {
    certs.filter(|c: AdhCertification| c.value@ != "none"@)
}

/// The certifications to store for an imported controller.
pub fn certifications_to_store(certs: &Vec<AdhCertification>) -> (kept: Vec<AdhCertification>)
    ensures
        kept@ == certifications_kept(certs@),
{
    let none = chars_of("none");
    let mut kept: Vec<AdhCertification> = Vec::new();
    let mut i: usize = 0;
    while i < certs.len()
        invariant
            i <= certs.len(),
            none@ == "none"@,
            kept@ == certifications_kept(certs@.take(i as int)),
        decreases certs.len() - i,
    {
        assert(certs@.take(i + 1).drop_last() =~= certs@.take(i as int));
        proof {
            reveal(Seq::filter);
        }
        let v = chars_of(certs[i].value.as_str());
        if !chars_eq(&v, &none) {
            kept.push(certs[i].clone());
        }
        i = i + 1;
    }
    assert(certs@.take(certs.len() as int) =~= certs@);
    kept
}

} // verus!

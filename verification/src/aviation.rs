//! Airport weather: METAR parsing and flight-rule categories.

use crate::text::{
    chars_of, contains_char, ends_with, ends_with_exec, lemma_split_on_nonempty, parse_unsigned,
    parse_unsigned_exec, seqs_of, split_chars, split_on, starts_with, starts_with_exec,
    string_from_chars,
};
use vstd::prelude::*;

verus! {

/// Derived weather conditions.
#[allow(clippy::upper_case_acronyms)]
#[derive(Debug, Clone, Copy, PartialEq, Eq, Structural)]
pub enum WeatherConditions {
    VFR,
    MVFR,
    IFR,
    LIFR,
}

/// Parsed weather information for an airport.
#[derive(Debug)]
pub struct AirportWeather {
    pub name: String,
    pub conditions: WeatherConditions,
    pub visibility: u16,
    pub ceiling: u16,
    pub raw: String,
}

/// Why a METAR line could not be read.
#[derive(Debug, Clone, Copy, PartialEq, Eq, Structural)]
pub enum MetarError {
    /// The first broken or overcast layer has no readable height.
    CeilingNotNumeric,
    /// No group ends in `SM`.
    VisibilityMissing,
    /// The visibility group is neither a fraction nor a number.
    VisibilityNotNumeric,
}

/// What `char::is_alphabetic` returns: whether the character has the
/// Unicode `Alphabetic` property.
pub uninterp spec fn unicode_alphabetic(c: char) -> bool;

/// What `char::is_numeric` returns: whether the character is in one of the
/// Unicode general categories `Nd`, `Nl` or `No`.
pub uninterp spec fn unicode_numeric(c: char) -> bool;

/// `char::is_alphabetic` tests the Unicode `Alphabetic` property; among
/// ASCII characters exactly the letters have it.
pub assume_specification[ char::is_alphabetic ](c: char) -> (b: bool)
    ensures
        b == unicode_alphabetic(c),
        (c as u32) < 128 ==> (b <==> (('a' <= c && c <= 'z') || ('A' <= c && c <= 'Z'))),
;

/// `char::is_numeric` tests the Unicode numeric general categories; among
/// ASCII characters exactly the digits `0`-`9` are in them.
pub assume_specification[ char::is_numeric ](c: char) -> (b: bool)
    ensures
        b == unicode_numeric(c),
        (c as u32) < 128 ==> (b <==> ('0' <= c && c <= '9')),
;

/// Ceiling assumed when no broken or overcast layer is reported.
pub open spec fn default_ceiling() -> nat {
    3456
}

/// A group reporting a broken (`BKN`) or overcast (`OVC`) layer.
pub open spec fn is_ceiling_group(part: Seq<char>) -> bool {
    starts_with(part, seq!['B', 'K', 'N']) || starts_with(part, seq!['O', 'V', 'C'])
}

/// A group giving the visibility in statute miles.
pub open spec fn is_visibility_group(part: Seq<char>) -> bool {
    ends_with(part, seq!['S', 'M'])
}

/// The index of the first piece that satisfies `pred`, if any.
pub open spec fn first_index_where(
    parts: Seq<Seq<char>>,
    pred: spec_fn(Seq<char>) -> bool,
) -> Option<int>
    decreases parts.len(),
{
    if parts.len() == 0 {
        None
    } else {
        match first_index_where(parts.drop_last(), pred) {
            Some(k) => Some(k),
            None => if pred(parts.last()) {
                Some(parts.len() - 1)
            } else {
                None
            },
        }
    }
}

/// `s` without its leading run of alphabetic characters.
pub open spec fn skip_alphabetic(s: Seq<char>) -> Seq<char>
    decreases s.len(),
{
    if s.len() > 0 && unicode_alphabetic(s[0]) {
        skip_alphabetic(s.drop_first())
    } else {
        s
    }
}

/// The leading run of numeric characters of `s`.
pub open spec fn take_numeric(s: Seq<char>) -> Seq<char>
    decreases s.len(),
{
    if s.len() > 0 && unicode_numeric(s[0]) {
        seq![s[0]] + take_numeric(s.drop_first())
    } else {
        Seq::<char>::empty()
    }
}

/// The characters of a cloud group that give the layer height in hundreds
/// of feet.
pub open spec fn ceiling_digits(part: Seq<char>) -> Seq<char> {
    take_numeric(skip_alphabetic(part))
}

/// `s` with every occurrence of `SM` removed, scanning from the left.
pub open spec fn strip_sm(s: Seq<char>) -> Seq<char>
    decreases s.len(),
{
    if s.len() == 0 {
        s
    } else if s.len() >= 2 && s[0] == 'S' && s[1] == 'M' {
        strip_sm(s.skip(2))
    } else {
        seq![s[0]] + strip_sm(s.drop_first())
    }
}

/// The ceiling in feet that a METAR's groups give.
pub open spec fn metar_ceiling(parts: Seq<Seq<char>>) -> Result<nat, MetarError> {
    match first_index_where(parts, |p: Seq<char>| is_ceiling_group(p)) {
        None => Ok(default_ceiling()),
        Some(k) => match parse_unsigned(ceiling_digits(parts[k]), 65535) {
            None => Err(MetarError::CeilingNotNumeric),
            Some(h) => Ok(h * 100),
        },
    }
}

/// The visibility in statute miles that a METAR's groups give; any
/// fraction counts as zero.
pub open spec fn metar_visibility(parts: Seq<Seq<char>>) -> Result<nat, MetarError> {
    match first_index_where(parts, |p: Seq<char>| is_visibility_group(p)) {
        None => Err(MetarError::VisibilityMissing),
        Some(k) => {
            let vis = strip_sm(parts[k]);
            if vis.contains('/') {
                Ok(0)
            } else {
                match parse_unsigned(vis, 65535) {
                    None => Err(MetarError::VisibilityNotNumeric),
                    Some(v) => Ok(v),
                }
            }
        },
    }
}

/// The layer height does not overflow a `u16` once scaled to feet.
pub open spec fn metar_ceiling_fits(line: Seq<char>) -> bool {
    let parts = split_on(line, ' ');
    match first_index_where(parts, |p: Seq<char>| is_ceiling_group(p)) {
        None => true,
        Some(k) => match parse_unsigned(ceiling_digits(parts[k]), 65535) {
            None => true,
            Some(h) => h * 100 <= 65535,
        },
    }
}

/// Flight-rule category for a visibility (statute miles) and ceiling (feet).
pub open spec fn flight_conditions(visibility: int, ceiling: int) -> WeatherConditions {
    if visibility > 5 && ceiling > 3000 {
        WeatherConditions::VFR
    } else if visibility >= 3 && ceiling > 1000 {
        WeatherConditions::MVFR
    } else if visibility >= 1 && ceiling > 500 {
        WeatherConditions::IFR
    } else {
        WeatherConditions::LIFR
    }
}

/// How good the flying weather of a category is: higher is better.
pub open spec fn conditions_rank(c: WeatherConditions) -> int {
    match c {
        WeatherConditions::LIFR => 0,
        WeatherConditions::IFR => 1,
        WeatherConditions::MVFR => 2,
        WeatherConditions::VFR => 3,
    }
}

/// A first match of a prefix is the first match of the whole sequence.
proof fn lemma_first_index_prefix(
    parts: Seq<Seq<char>>,
    pred: spec_fn(Seq<char>) -> bool,
    i: int,
)
    requires
        0 <= i <= parts.len(),
        first_index_where(parts.take(i), pred) is Some,
    ensures
        first_index_where(parts, pred) == first_index_where(parts.take(i), pred),
    decreases parts.len(),
{
    if i < parts.len() {
        assert(parts.drop_last().take(i) =~= parts.take(i));
        lemma_first_index_prefix(parts.drop_last(), pred, i);
    } else {
        assert(parts.take(i) =~= parts);
    }
}

/// Finds the first piece that is a cloud (ceiling) group.
fn find_ceiling_group(parts: &Vec<Vec<char>>) -> (r: Option<usize>)
    ensures
        r matches Some(k) ==> k < parts.len(),
        r matches Some(k) ==> first_index_where(seqs_of(parts@), |p: Seq<char>| is_ceiling_group(p))
            == Some(k as int),
        r is None ==> first_index_where(seqs_of(parts@), |p: Seq<char>| is_ceiling_group(p)) is None,
{
    let ghost pred = |p: Seq<char>| is_ceiling_group(p);
    let bkn = vec!['B', 'K', 'N'];
    let ovc = vec!['O', 'V', 'C'];
    assert(bkn@ =~= seq!['B', 'K', 'N']);
    assert(ovc@ =~= seq!['O', 'V', 'C']);
    let mut i: usize = 0;
    while i < parts.len()
        invariant
            i <= parts.len(),
            bkn@ == seq!['B', 'K', 'N'],
            ovc@ == seq!['O', 'V', 'C'],
            pred == (|p: Seq<char>| is_ceiling_group(p)),
            first_index_where(seqs_of(parts@).take(i as int), pred) is None,
        decreases parts.len() - i,
    {
        let ghost all = seqs_of(parts@);
        assert(all.take(i + 1).drop_last() =~= all.take(i as int));
        assert(all.take(i + 1).last() == parts@[i as int]@);
        if starts_with_exec(&parts[i], &bkn) || starts_with_exec(&parts[i], &ovc) {
            proof {
                lemma_first_index_prefix(all, pred, i + 1);
            }
            return Some(i);
        }
        i = i + 1;
    }
    assert(seqs_of(parts@).take(parts.len() as int) =~= seqs_of(parts@));
    None
}

/// Finds the first piece that is a visibility group.
fn find_visibility_group(parts: &Vec<Vec<char>>) -> (r: Option<usize>)
    ensures
        r matches Some(k) ==> k < parts.len(),
        r matches Some(k) ==> first_index_where(
            seqs_of(parts@),
            |p: Seq<char>| is_visibility_group(p),
        ) == Some(k as int),
        r is None ==> first_index_where(seqs_of(parts@), |p: Seq<char>| is_visibility_group(p))
            is None,
{
    let ghost pred = |p: Seq<char>| is_visibility_group(p);
    let sm = vec!['S', 'M'];
    assert(sm@ =~= seq!['S', 'M']);
    let mut i: usize = 0;
    while i < parts.len()
        invariant
            i <= parts.len(),
            sm@ == seq!['S', 'M'],
            pred == (|p: Seq<char>| is_visibility_group(p)),
            first_index_where(seqs_of(parts@).take(i as int), pred) is None,
        decreases parts.len() - i,
    {
        let ghost all = seqs_of(parts@);
        assert(all.take(i + 1).drop_last() =~= all.take(i as int));
        assert(all.take(i + 1).last() == parts@[i as int]@);
        if ends_with_exec(&parts[i], &sm) {
            proof {
                lemma_first_index_prefix(all, pred, i + 1);
            }
            return Some(i);
        }
        i = i + 1;
    }
    assert(seqs_of(parts@).take(parts.len() as int) =~= seqs_of(parts@));
    None
}

/// The height digits of a cloud group: the numeric run after the
/// alphabetic prefix.
fn ceiling_digits_exec(part: &Vec<char>) -> (r: Vec<char>)
    ensures
        r@ == ceiling_digits(part@),
{
    let mut i: usize = 0;
    assert(part@.skip(0) =~= part@);
    while i < part.len() && part[i].is_alphabetic()
        invariant
            i <= part.len(),
            skip_alphabetic(part@) == skip_alphabetic(part@.skip(i as int)),
        decreases part.len() - i,
    {
        assert(part@.skip(i as int).drop_first() =~= part@.skip(i + 1));
        i = i + 1;
    }
    assert(skip_alphabetic(part@.skip(i as int)) == part@.skip(i as int));
    let start = i;
    let mut r: Vec<char> = Vec::new();
    while i < part.len() && part[i].is_numeric()
        invariant
            start <= i <= part.len(),
            skip_alphabetic(part@) == part@.skip(start as int),
            take_numeric(part@.skip(start as int)) == r@ + take_numeric(part@.skip(i as int)),
        decreases part.len() - i,
    {
        assert(part@.skip(i as int).drop_first() =~= part@.skip(i + 1));
        r.push(part[i]);
        assert(take_numeric(part@.skip(i as int)) == seq![part@[i as int]] + take_numeric(
            part@.skip(i + 1),
        ));
        assert(take_numeric(part@.skip(start as int)) =~= r@ + take_numeric(part@.skip(i + 1)));
        i = i + 1;
    }
    assert(take_numeric(part@.skip(i as int)) =~= Seq::<char>::empty());
    assert(r@ + Seq::<char>::empty() =~= r@);
    r
}

/// `s` with every occurrence of `SM` removed, scanning from the left.
fn strip_sm_exec(s: &Vec<char>) -> (r: Vec<char>)
    ensures
        r@ == strip_sm(s@),
{
    let mut r: Vec<char> = Vec::new();
    let mut i: usize = 0;
    assert(s@.skip(0) =~= s@);
    assert(r@ + strip_sm(s@) =~= strip_sm(s@));
    while i < s.len()
        invariant
            i <= s.len(),
            strip_sm(s@) == r@ + strip_sm(s@.skip(i as int)),
        decreases s.len() - i,
    {
        let ghost rest = s@.skip(i as int);
        if i + 1 < s.len() && s[i] == 'S' && s[i + 1] == 'M' {
            assert(rest.skip(2) =~= s@.skip(i + 2));
            i = i + 2;
        } else {
            assert(rest.drop_first() =~= s@.skip(i + 1));
            assert(strip_sm(rest) == seq![rest[0]] + strip_sm(rest.drop_first()));
            r.push(s[i]);
            assert(strip_sm(s@) =~= r@ + strip_sm(s@.skip(i + 1)));
            i = i + 1;
        }
    }
    assert(strip_sm(s@.skip(i as int)) =~= Seq::<char>::empty());
    assert(r@ + Seq::<char>::empty() =~= r@);
    r
}

/// Flight-rule category for a visibility (statute miles) and ceiling (feet).
pub fn flight_conditions_exec(visibility: u16, ceiling: u16) -> (c: WeatherConditions)
    ensures
        c == flight_conditions(visibility as int, ceiling as int),
{
    if visibility > 5 && ceiling > 3_000 {
        WeatherConditions::VFR
    } else if visibility >= 3 && ceiling > 1_000 {
        WeatherConditions::MVFR
    } else if visibility >= 1 && ceiling > 500 {
        WeatherConditions::IFR
    } else {
        WeatherConditions::LIFR
    }
}

/// `r` is what a METAR line reads as: the first error met, or the weather
/// with the line's airport, ceiling, visibility and category.
pub open spec fn metar_reading(line: Seq<char>, r: Result<AirportWeather, MetarError>) -> bool {
    let parts = split_on(line, ' ');
    match metar_ceiling(parts) {
        Err(e) => r == Err::<AirportWeather, MetarError>(e),
        Ok(ceiling) => match metar_visibility(parts) {
            Err(e) => r == Err::<AirportWeather, MetarError>(e),
            Ok(visibility) => r matches Ok(w) && w.name@ == parts[0] && w.raw@ == line
                && w.ceiling == ceiling && w.visibility == visibility && w.conditions
                == flight_conditions(visibility as int, ceiling as int),
        },
    }
}

/// Parse a METAR into a struct of data.
///
/// The groups are the pieces between single spaces; the first one names
/// the airport. The ceiling comes from the first `BKN`/`OVC` group (3,456
/// feet when there is none) and the visibility from the first group ending
/// in `SM` (a fraction counts as zero).
pub fn parse_metar(line: &str) -> (r: Result<AirportWeather, MetarError>)
    requires
        metar_ceiling_fits(line@),
    ensures
        metar_reading(line@, r),
{
    let chars = chars_of(line);
    let parts = split_chars(&chars, ' ');
    proof {
        lemma_split_on_nonempty(line@, ' ');
    }
    let ghost sparts = seqs_of(parts@);
    assert(sparts == split_on(line@, ' '));

    let mut ceiling: u16 = 3_456;
    match find_ceiling_group(&parts) {
        Some(k) => {
            assert(sparts[k as int] == parts@[k as int]@);
            let digits = ceiling_digits_exec(&parts[k]);
            match parse_unsigned_exec(&digits, 65535) {
                Some(h) => {
                    ceiling = (h * 100) as u16;
                },
                None => {
                    return Err(MetarError::CeilingNotNumeric);
                },
            }
        },
        None => {},
    }
    assert(metar_ceiling(sparts) == Ok::<nat, MetarError>(ceiling as nat));

    let visibility: u16 = match find_visibility_group(&parts) {
        Some(k) => {
            assert(sparts[k as int] == parts@[k as int]@);
            let vis = strip_sm_exec(&parts[k]);
            if contains_char(&vis, '/') {
                0
            } else {
                match parse_unsigned_exec(&vis, 65535) {
                    Some(v) => v as u16,
                    None => {
                        return Err(MetarError::VisibilityNotNumeric);
                    },
                }
            }
        },
        None => {
            return Err(MetarError::VisibilityMissing);
        },
    };

    let conditions = flight_conditions_exec(visibility, ceiling);
    Ok(
        AirportWeather {
            name: string_from_chars(&parts[0]),
            conditions,
            visibility,
            ceiling,
            raw: string_from_chars(&chars),
        },
    )
}

/// Read a METAR line when its ceiling fits in a `u16` once scaled to feet;
/// `None` when it does not.
pub fn checked_parse_metar(line: &str) -> (r: Option<Result<AirportWeather, MetarError>>)
    ensures
        !metar_ceiling_fits(line@) ==> r is None,
        metar_ceiling_fits(line@) ==> (r matches Some(m) && metar_reading(line@, m)),
{
    if metar_ceiling_fits_exec(line) {
        Some(parse_metar(line))
    } else {
        None
    }
}

/// Whether the METAR's first broken or overcast layer height, scaled to
/// feet, fits in a `u16` (`parse_metar` needs it to).
pub fn metar_ceiling_fits_exec(line: &str) -> (r: bool)
    ensures
        r == metar_ceiling_fits(line@),
{
    let chars = chars_of(line);
    let parts = split_chars(&chars, ' ');
    let ghost sparts = seqs_of(parts@);
    assert(sparts == split_on(line@, ' '));
    match find_ceiling_group(&parts) {
        Some(k) => {
            assert(sparts[k as int] == parts@[k as int]@);
            let digits = ceiling_digits_exec(&parts[k]);
            match parse_unsigned_exec(&digits, 65535) {
                Some(h) => h <= 655,
                None => true,
            }
        },
        None => true,
    }
}

/// Better visibility and a higher ceiling never give a worse category.
pub proof fn lemma_flight_conditions_monotonic(v1: int, c1: int, v2: int, c2: int)
    requires
        v1 <= v2,
        c1 <= c2,
    ensures
        conditions_rank(flight_conditions(v1, c1)) <= conditions_rank(flight_conditions(v2, c2)),
{
}

/// The category's thresholds, read from the bottom up: anything under a
/// mile of visibility or with a ceiling of 500 feet or less is LIFR; IFR and
/// better need at least a mile and a ceiling above 500 feet; MVFR and better
/// at least three miles above 1,000 feet; VFR more than five miles above
/// 3,000 feet.
pub proof fn lemma_flight_conditions_thresholds(visibility: int, ceiling: int)
    ensures
        visibility < 1 ==> flight_conditions(visibility, ceiling) == WeatherConditions::LIFR,
        ceiling <= 500 ==> flight_conditions(visibility, ceiling) == WeatherConditions::LIFR,
        flight_conditions(visibility, ceiling) == WeatherConditions::LIFR <==> (visibility < 1
            || ceiling <= 500),
        flight_conditions(visibility, ceiling) == WeatherConditions::IFR ==> visibility >= 1
            && ceiling > 500 && (visibility < 3 || ceiling <= 1000),
        flight_conditions(visibility, ceiling) == WeatherConditions::MVFR ==> visibility >= 3
            && ceiling > 1000 && (visibility <= 5 || ceiling <= 3000),
        flight_conditions(visibility, ceiling) == WeatherConditions::VFR <==> (visibility > 5
            && ceiling > 3000),
        conditions_rank(flight_conditions(visibility, ceiling)) >= 1 <==> (visibility >= 1
            && ceiling > 500),
        conditions_rank(flight_conditions(visibility, ceiling)) >= 2 <==> (visibility >= 3
            && ceiling > 1000),
{
}

/// `first_index_where` finds the first piece that satisfies the test: there
/// is none only when no piece does, and the one found does while none before
/// it does.
pub proof fn lemma_first_index_where(parts: Seq<Seq<char>>, pred: spec_fn(Seq<char>) -> bool)
    ensures
        first_index_where(parts, pred) is None <==> forall|i: int|
            0 <= i < parts.len() ==> !pred(#[trigger] parts[i]),
        first_index_where(parts, pred) matches Some(k) ==> 0 <= k < parts.len() && pred(parts[k])
            && forall|j: int| 0 <= j < k ==> !pred(#[trigger] parts[j]),
    decreases parts.len(),
{
    if parts.len() > 0 {
        let rest = parts.drop_last();
        lemma_first_index_where(rest, pred);
        assert forall|i: int| 0 <= i < rest.len() implies rest[i] == parts[i] by {}
        if first_index_where(parts, pred) is None {
            assert forall|i: int| 0 <= i < parts.len() implies !pred(#[trigger] parts[i]) by {
                if i < rest.len() {
                    assert(rest[i] == parts[i]);
                }
            }
        }
        match first_index_where(rest, pred) {
            Some(k) => {
                assert forall|j: int| 0 <= j < k implies !pred(#[trigger] parts[j]) by {
                    assert(rest[j] == parts[j]);
                }
            },
            None => {
                assert forall|j: int| 0 <= j < parts.len() - 1 implies !pred(#[trigger] parts[j]) by {
                    assert(rest[j] == parts[j]);
                }
            },
        }
    }
}

/// The group reports a broken (`BKN`) or overcast (`OVC`) layer: it begins
/// with those three letters.
pub open spec fn reports_layer(part: Seq<char>) -> bool {
    part.len() >= 3 && ((part[0] == 'B' && part[1] == 'K' && part[2] == 'N') || (part[0] == 'O'
        && part[1] == 'V' && part[2] == 'C'))
}

/// The group gives a visibility: it ends in `SM`.
pub open spec fn reports_visibility(part: Seq<char>) -> bool {
    part.len() >= 2 && part[part.len() - 2] == 'S' && part[part.len() - 1] == 'M'
}

proof fn lemma_group_kinds(part: Seq<char>)
    ensures
        is_ceiling_group(part) <==> reports_layer(part),
        is_visibility_group(part) <==> reports_visibility(part),
{
    if reports_layer(part) {
        if part[0] == 'B' {
            assert(part.take(3) =~= seq!['B', 'K', 'N']);
        } else {
            assert(part.take(3) =~= seq!['O', 'V', 'C']);
        }
    }
    if starts_with(part, seq!['B', 'K', 'N']) {
        assert(part.take(3)[0] == part[0] && part.take(3)[1] == part[1] && part.take(3)[2] == part[2]);
    }
    if starts_with(part, seq!['O', 'V', 'C']) {
        assert(part.take(3)[0] == part[0] && part.take(3)[1] == part[1] && part.take(3)[2] == part[2]);
    }
    let n = part.len();
    if reports_visibility(part) {
        assert(part.skip(n - 2) =~= seq!['S', 'M']);
    }
    if is_visibility_group(part) {
        assert(part.skip(n - 2)[0] == part[n - 2] && part.skip(n - 2)[1] == part[n - 1]);
    }
}

/// The ceiling comes from the first group that reports a broken or
/// overcast layer, as its height in hundreds of feet; with no such group it
/// is 3,456 feet.
pub proof fn lemma_metar_ceiling_from_first_layer(parts: Seq<Seq<char>>)
    ensures
        (forall|i: int| 0 <= i < parts.len() ==> !reports_layer(#[trigger] parts[i]))
            ==> metar_ceiling(parts) == Ok::<nat, MetarError>(3456),
        forall|k: int|
            0 <= k < parts.len() && reports_layer(#[trigger] parts[k]) && (forall|j: int|
                0 <= j < k ==> !reports_layer(#[trigger] parts[j])) ==> metar_ceiling(parts)
                == match parse_unsigned(ceiling_digits(parts[k]), 65535) {
                Some(h) => Ok::<nat, MetarError>(h * 100),
                None => Err::<nat, MetarError>(MetarError::CeilingNotNumeric),
            },
{
    let pred = |p: Seq<char>| is_ceiling_group(p);
    lemma_first_index_where(parts, pred);
    assert forall|i: int| 0 <= i < parts.len() implies pred(parts[i]) == reports_layer(
        #[trigger] parts[i],
    ) by {
        lemma_group_kinds(parts[i]);
    }
    assert forall|k: int|
        0 <= k < parts.len() && reports_layer(#[trigger] parts[k]) && (forall|j: int|
            0 <= j < k ==> !reports_layer(#[trigger] parts[j])) implies first_index_where(
        parts,
        pred,
    ) == Some(k) by {
        match first_index_where(parts, pred) {
            Some(m) => {
                if m < k {
                    assert(!reports_layer(parts[m]));
                } else if m > k {
                    assert(pred(parts[k]));
                }
            },
            None => {
                assert(pred(parts[k]));
            },
        }
    }
}

/// The visibility comes from the first group ending in `SM`: zero for a
/// fraction, else its whole miles; with no such group it is missing.
pub proof fn lemma_metar_visibility_from_first_sm(parts: Seq<Seq<char>>)
    ensures
        (forall|i: int| 0 <= i < parts.len() ==> !reports_visibility(#[trigger] parts[i]))
            ==> metar_visibility(parts) == Err::<nat, MetarError>(MetarError::VisibilityMissing),
        forall|k: int|
            0 <= k < parts.len() && reports_visibility(#[trigger] parts[k]) && (forall|j: int|
                0 <= j < k ==> !reports_visibility(#[trigger] parts[j])) ==> metar_visibility(parts)
                == if strip_sm(parts[k]).contains('/') {
                Ok::<nat, MetarError>(0)
            } else {
                match parse_unsigned(strip_sm(parts[k]), 65535) {
                    Some(v) => Ok::<nat, MetarError>(v),
                    None => Err::<nat, MetarError>(MetarError::VisibilityNotNumeric),
                }
            },
{
    let pred = |p: Seq<char>| is_visibility_group(p);
    lemma_first_index_where(parts, pred);
    assert forall|i: int| 0 <= i < parts.len() implies pred(parts[i]) == reports_visibility(
        #[trigger] parts[i],
    ) by {
        lemma_group_kinds(parts[i]);
    }
    assert forall|k: int|
        0 <= k < parts.len() && reports_visibility(#[trigger] parts[k]) && (forall|j: int|
            0 <= j < k ==> !reports_visibility(#[trigger] parts[j])) implies first_index_where(
        parts,
        pred,
    ) == Some(k) by {
        match first_index_where(parts, pred) {
            Some(m) => {
                if m < k {
                    assert(!reports_visibility(parts[m]));
                } else if m > k {
                    assert(pred(parts[k]));
                }
            },
            None => {
                assert(pred(parts[k]));
            },
        }
    }
}

} // verus!

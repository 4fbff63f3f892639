//! The Discord bot: its id from its token, which guild members it tends,
//! and the text of its online-controllers message.

use crate::text::{
    append_str, chars_of, ends_with, ends_with_exec, parse_unsigned, parse_unsigned_exec, split_chars,
    split_on, string_from_chars,
};
use crate::vatsim::OnlineController;
use base64::Engine;
use vstd::prelude::*;

verus! {

/// The `/event` slash command: post event info or positions.
#[derive(Debug, Clone, Copy)]
pub struct EventCommand;

// ---------------------------------------------------------------------------
// The bot's id
// ---------------------------------------------------------------------------

/// What `base64`'s standard engine without padding decodes a string to;
/// `None` when it reports an error.
pub uninterp spec fn standard_no_pad_decoded(s: Seq<char>) -> Option<Seq<u8>>;

/// Calls `base64::engine::general_purpose::STANDARD_NO_PAD.decode`. Claimed:
/// the result is `standard_no_pad_decoded` of the argument.
#[verifier::external_body]
fn decode_standard_no_pad(s: &str) -> (r: Option<Vec<u8>>)
    ensures
        match r {
            Some(v) => standard_no_pad_decoded(s@) == Some(v@),
            None => standard_no_pad_decoded(s@) is None,
        },
{
    base64::engine::general_purpose::STANDARD_NO_PAD.decode(s).ok()
}

/// The text that `std::str::from_utf8` reads from bytes; `None` when they
/// are not UTF-8.
pub uninterp spec fn utf8_decoded(bytes: Seq<u8>) -> Option<Seq<char>>;

/// Calls `std::str::from_utf8`. Claimed: the result is `utf8_decoded` of the
/// bytes.
#[verifier::external_body]
fn from_utf8(bytes: &Vec<u8>) -> (r: Option<String>)
    ensures
        match r {
            Some(s) => utf8_decoded(bytes@) == Some(s@),
            None => utf8_decoded(bytes@) is None,
        },
{
    std::str::from_utf8(bytes.as_slice()).ok().map(|s| s.to_string())
}

/// The bot's id as its token encodes it: the first `.`-separated piece,
/// base64-decoded, read as UTF-8 text holding an unsigned 64-bit integer.
pub open spec fn token_bot_id(token: Seq<char>) -> Option<nat> {
    match standard_no_pad_decoded(split_on(token, '.')[0]) {
        Some(bytes) => match utf8_decoded(bytes) {
            Some(text) => parse_unsigned(text, u64::MAX as nat),
            None => None,
        },
        None => None,
    }
}

/// The id that decoded bytes of a token's first piece give.
pub open spec fn decoded_bot_id(bytes: Seq<u8>) -> Option<nat> {
    match utf8_decoded(bytes) {
        Some(text) => parse_unsigned(text, u64::MAX as nat),
        None => None,
    }
}

/// The bot id that the decoded first piece of a token gives, if its bytes
/// are UTF-8 text of an unsigned 64-bit integer.
pub fn bot_id_from_decoded(bytes: &Vec<u8>) -> (id: Option<u64>)
    ensures
        match decoded_bot_id(bytes@) {
            Some(n) => id == Some(n as u64),
            None => id is None,
        },
{
    match from_utf8(bytes) {
        Some(text) => {
            let chars = chars_of(text.as_str());
            parse_unsigned_exec(&chars, u64::MAX)
        },
        None => None,
    }
}

/// The first `.`-separated piece of a token.
fn first_token_piece(token: &str) -> (piece: String)
    ensures
        piece@ == split_on(token@, '.')[0],
{
    let chars = chars_of(token);
    let pieces = split_chars(&chars, '.');
    proof {
        crate::text::lemma_split_on_nonempty(token@, '.');
    }
    string_from_chars(&pieces[0])
}

/// The bot id a token encodes, if it encodes one.
pub fn checked_bot_id_from_token(token: &str) -> (id: Option<u64>)
    ensures
        match token_bot_id(token@) {
            Some(n) => id == Some(n as u64),
            None => id is None,
        },
{
    let piece = first_token_piece(token);
    match decode_standard_no_pad(piece.as_str()) {
        Some(bytes) => {
            match bot_id_from_decoded(&bytes) {
                Some(_) => Some(bot_id_from_token(token)),
                None => None,
            }
        },
        None => None,
    }
}

/// Parse a bot ID from the token. A token of another layout is not valid
/// for Discord, so callers hold a valid one.
pub fn bot_id_from_token(token: &str) -> (id: u64)
    requires
        token_bot_id(token@) is Some,
    ensures
        id == token_bot_id(token@).unwrap(),
{
    let piece = first_token_piece(token);
    match decode_standard_no_pad(piece.as_str()) {
        Some(bytes) => match bot_id_from_decoded(&bytes) {
            Some(id) => id,
            None => 0,
        },
        None => 0,
    }
}

// ---------------------------------------------------------------------------
// Guild members
// ---------------------------------------------------------------------------

/// Whether the roles task tends a guild member: the guild's owner and bots
/// are left alone.
pub fn member_needs_processing(user_id: u64, owner_id: u64, is_bot: bool) -> (r: bool)
    ensures
        r == (user_id != owner_id && !is_bot),
{
    user_id != owner_id && !is_bot
}

// ---------------------------------------------------------------------------
// The online-controllers message
// ---------------------------------------------------------------------------

/// The position is an enroute one (center, flight service or traffic
/// management).
pub open spec fn is_enroute(callsign: Seq<char>) -> bool {
    ends_with(callsign, "_CTR"@) || ends_with(callsign, "_FSS"@) || ends_with(callsign, "_TMU"@)
}

/// The position is a TRACON one (approach or departure).
pub open spec fn is_tracon(callsign: Seq<char>) -> bool {
    ends_with(callsign, "_APP"@) || ends_with(callsign, "_DEP"@)
}

/// The position is in a tower cab (tower, ground or delivery).
pub open spec fn is_cab(callsign: Seq<char>) -> bool {
    ends_with(callsign, "_TWR"@) || ends_with(callsign, "_GND"@) || ends_with(callsign, "_DEL"@)
}

/// The kinds of position the message groups controllers by.
#[derive(Debug, Clone, Copy, PartialEq, Eq, Structural)]
pub enum OnlineSection {
    Enroute,
    Tracon,
    Cab,
}

/// Whether a callsign belongs in a section.
pub open spec fn in_section(section: OnlineSection, callsign: Seq<char>) -> bool {
    match section {
        OnlineSection::Enroute => is_enroute(callsign),
        OnlineSection::Tracon => is_tracon(callsign),
        OnlineSection::Cab => is_cab(callsign),
    }
}

/// One controller's line: callsign, name and time online, then a newline.
pub open spec fn online_line(c: OnlineController) -> Seq<char> {
    c.callsign@ + " - "@ + c.name@ + " - "@ + c.online_for@ + "\n"@
}

/// A section's text: the lines of its controllers, in order.
pub open spec fn section_text(section: OnlineSection, online: Seq<OnlineController>) -> Seq<char>
    decreases online.len(),
{
    if online.len() == 0 {
        Seq::empty()
    } else {
        let prev = section_text(section, online.drop_last());
        if in_section(section, online.last().callsign@) {
            prev + online_line(online.last())
        } else {
            prev
        }
    }
}

/// Whether a callsign belongs in a section.
fn in_section_exec(section: OnlineSection, callsign: &Vec<char>) -> (r: bool)
    ensures
        r == in_section(section, callsign@),
{
    match section {
        OnlineSection::Enroute => ends_with_exec(callsign, &chars_of("_CTR")) || ends_with_exec(
            callsign,
            &chars_of("_FSS"),
        ) || ends_with_exec(callsign, &chars_of("_TMU")),
        OnlineSection::Tracon => ends_with_exec(callsign, &chars_of("_APP")) || ends_with_exec(
            callsign,
            &chars_of("_DEP"),
        ),
        OnlineSection::Cab => ends_with_exec(callsign, &chars_of("_TWR")) || ends_with_exec(
            callsign,
            &chars_of("_GND"),
        ) || ends_with_exec(callsign, &chars_of("_DEL")),
    }
}

/// The text of one section of the online-controllers message.
pub fn online_section(section: OnlineSection, online: &Vec<OnlineController>) -> (text: String)
    ensures
        text@ == section_text(section, online@),
{
    let mut v: Vec<char> = Vec::new();
    let mut i: usize = 0;
    while i < online.len()
        invariant
            i <= online.len(),
            v@ == section_text(section, online@.take(i as int)),
        decreases online.len() - i,
    {
        assert(online@.take(i + 1).drop_last() =~= online@.take(i as int));
        let c = &online[i];
        let callsign = chars_of(c.callsign.as_str());
        if in_section_exec(section, &callsign) {
            append_str(&mut v, c.callsign.as_str());
            append_str(&mut v, " - ");
            append_str(&mut v, c.name.as_str());
            append_str(&mut v, " - ");
            append_str(&mut v, c.online_for.as_str());
            append_str(&mut v, "\n");
            assert(v@ =~= section_text(section, online@.take(i as int)) + online_line(*c));
        }
        i = i + 1;
    }
    assert(online@.take(online.len() as int) =~= online@);
    string_from_chars(&v)
}

/// The callsign ends in `_` and the three letters given.
pub open spec fn ends_in_position(callsign: Seq<char>, a: char, b: char, c: char) -> bool {
    let n = callsign.len();
    n >= 4 && callsign[n - 4] == '_' && callsign[n - 3] == a && callsign[n - 2] == b
        && callsign[n - 1] == c
}

/// Ending in a four-character text is having those four characters last.
proof fn lemma_ends_with_four(callsign: Seq<char>, p: Seq<char>)
    requires
        p.len() == 4,
        p[0] == '_',
    ensures
        ends_with(callsign, p) <==> ends_in_position(callsign, p[1], p[2], p[3]),
{
    let n = callsign.len();
    if ends_with(callsign, p) {
        assert(callsign.skip(n - 4)[0] == callsign[n - 4]);
        assert(callsign.skip(n - 4)[1] == callsign[n - 3]);
        assert(callsign.skip(n - 4)[2] == callsign[n - 2]);
        assert(callsign.skip(n - 4)[3] == callsign[n - 1]);
    }
    if ends_in_position(callsign, p[1], p[2], p[3]) {
        assert(callsign.skip(n - 4) =~= p);
    }
}

/// Which section a controller is listed in goes by the callsign's ending:
/// `_CTR`, `_FSS` and `_TMU` are enroute, `_APP` and `_DEP` the TRACON, and
/// `_TWR`, `_GND` and `_DEL` the tower cab.
pub proof fn lemma_section_by_ending(callsign: Seq<char>)
    ensures
        in_section(OnlineSection::Enroute, callsign) <==> (ends_in_position(callsign, 'C', 'T', 'R')
            || ends_in_position(callsign, 'F', 'S', 'S') || ends_in_position(
            callsign,
            'T',
            'M',
            'U',
        )),
        in_section(OnlineSection::Tracon, callsign) <==> (ends_in_position(callsign, 'A', 'P', 'P')
            || ends_in_position(callsign, 'D', 'E', 'P')),
        in_section(OnlineSection::Cab, callsign) <==> (ends_in_position(callsign, 'T', 'W', 'R')
            || ends_in_position(callsign, 'G', 'N', 'D') || ends_in_position(
            callsign,
            'D',
            'E',
            'L',
        )),
{
    reveal_strlit("_CTR");
    reveal_strlit("_FSS");
    reveal_strlit("_TMU");
    reveal_strlit("_APP");
    reveal_strlit("_DEP");
    reveal_strlit("_TWR");
    reveal_strlit("_GND");
    reveal_strlit("_DEL");
    lemma_ends_with_four(callsign, "_CTR"@);
    lemma_ends_with_four(callsign, "_FSS"@);
    lemma_ends_with_four(callsign, "_TMU"@);
    lemma_ends_with_four(callsign, "_APP"@);
    lemma_ends_with_four(callsign, "_DEP"@);
    lemma_ends_with_four(callsign, "_TWR"@);
    lemma_ends_with_four(callsign, "_GND"@);
    lemma_ends_with_four(callsign, "_DEL"@);
}

/// A controller is listed in a section exactly when its callsign belongs
/// there: each such controller adds its own line, in order, and the others
/// add nothing.
pub proof fn lemma_section_text_push(
    section: OnlineSection,
    online: Seq<OnlineController>,
    c: OnlineController,
)
    ensures
        in_section(section, c.callsign@) ==> section_text(section, online.push(c)) == section_text(
            section,
            online,
        ) + c.callsign@ + " - "@ + c.name@ + " - "@ + c.online_for@ + "\n"@,
        !in_section(section, c.callsign@) ==> section_text(section, online.push(c))
            == section_text(section, online),
{
    assert(online.push(c).drop_last() =~= online);
}

/// No callsign is in two sections: a controller is listed at most once.
pub proof fn lemma_sections_disjoint(callsign: Seq<char>)
    ensures
        !(is_enroute(callsign) && is_tracon(callsign)),
        !(is_enroute(callsign) && is_cab(callsign)),
        !(is_tracon(callsign) && is_cab(callsign)),
{
    reveal_strlit("_CTR");
    reveal_strlit("_FSS");
    reveal_strlit("_TMU");
    reveal_strlit("_APP");
    reveal_strlit("_DEP");
    reveal_strlit("_TWR");
    reveal_strlit("_GND");
    reveal_strlit("_DEL");
    let n = callsign.len();
    if n >= 4 {
        let tail = callsign.skip(n - 4);
        let (c1, c2, c3) = (tail[1], tail[2], tail[3]);
        if is_enroute(callsign) {
            assert((c1 == 'C' && c2 == 'T' && c3 == 'R') || (c1 == 'F' && c2 == 'S' && c3 == 'S') || (
            c1 == 'T' && c2 == 'M' && c3 == 'U'));
        }
        if is_tracon(callsign) {
            assert((c1 == 'A' && c2 == 'P' && c3 == 'P') || (c1 == 'D' && c2 == 'E' && c3 == 'P'));
        }
        if is_cab(callsign) {
            assert((c1 == 'T' && c2 == 'W' && c3 == 'R') || (c1 == 'G' && c2 == 'N' && c3 == 'D') || (
            c1 == 'D' && c2 == 'E' && c3 == 'L'));
        }
    }
}

} // verus!

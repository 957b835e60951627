//! The send-offs: every wipe ends with one of these completion verbs,
//! picked at random, each with its own color, weight and emoji.

use rand::rngs::SmallRng;
use vstd::prelude::*;
use crate::dicks::random_in;

verus! {

/// How many verbs there are.
pub const VERB_COUNT: usize = 23;

/// One way a dick can finish off a file: the word, its xterm-256 color,
/// bold, underlined, italic, and an emoji that goes before the word.
pub struct Verb {
    pub word: String,
    pub color: u8,
    pub bold: bool,
    pub underline: bool,
    pub italic: bool,
    pub emoji: Option<String>,
}

/// A verb as plain values.
pub open spec fn verb_view(v: Verb) -> (Seq<char>, u8, bool, bool, bool, Option<Seq<char>>) {
    (
        v.word@,
        v.color,
        v.bold,
        v.underline,
        v.italic,
        match v.emoji {
            Some(e) => Some(e@),
            None => None,
        },
    )
}

/// The hall of fame.
pub open spec fn spec_verb(i: usize) -> (Seq<char>, u8, bool, bool, bool, Option<Seq<char>>) {
    match i {
        0 => ("fucked"@, 196u8, true, true, false, None),
        1 => ("wiped"@, 46u8, true, false, false, None),
        2 => ("deleted"@, 196u8, true, false, false, None),
        3 => ("destroyed"@, 196u8, true, false, false, Some("💀"@)),
        4 => ("obliterated"@, 208u8, true, true, false, Some("💥"@)),
        5 => ("purged"@, 226u8, true, false, false, None),
        6 => ("creamed"@, 231u8, true, false, false, Some("💦"@)),
        7 => ("milked"@, 250u8, false, false, false, Some("🥛"@)),
        8 => ("blasted"@, 196u8, true, false, false, Some("💥"@)),
        9 => ("pissed on"@, 226u8, false, false, true, Some("💦"@)),
        10 => ("annihilated"@, 196u8, true, true, false, Some("☢"@)),
        11 => ("demolished"@, 208u8, true, false, false, None),
        12 => ("ravaged"@, 197u8, true, false, false, None),
        13 => ("pounded"@, 201u8, true, false, false, Some("🍆"@)),
        14 => ("nuked"@, 226u8, true, false, false, Some("☢"@)),
        15 => ("gangbanged"@, 201u8, true, true, false, None),
        16 => ("railed"@, 165u8, true, false, false, None),
        17 => ("splooged on"@, 231u8, false, false, true, Some("💦"@)),
        18 => ("drilled"@, 208u8, true, false, false, None),
        19 => ("facialized"@, 231u8, true, true, false, Some("💦"@)),
        20 => ("jizzed on"@, 231u8, true, false, false, Some("💦"@)),
        21 => ("creampied"@, 199u8, true, false, false, Some("🍑"@)),
        _ => ("rawdogged"@, 197u8, true, true, false, None),
    }
}

fn verb_entry(i: usize) -> (r: (&'static str, u8, bool, bool, bool, Option<&'static str>))
    requires
        i < VERB_COUNT,
    ensures
        (r.0@, r.1, r.2, r.3, r.4, match r.5 {
            Some(e) => Some(e@),
            None => None,
        }) == spec_verb(i),
{
    match i {
        0 => ("fucked", 196u8, true, true, false, None),
        1 => ("wiped", 46u8, true, false, false, None),
        2 => ("deleted", 196u8, true, false, false, None),
        3 => ("destroyed", 196u8, true, false, false, Some("💀")),
        4 => ("obliterated", 208u8, true, true, false, Some("💥")),
        5 => ("purged", 226u8, true, false, false, None),
        6 => ("creamed", 231u8, true, false, false, Some("💦")),
        7 => ("milked", 250u8, false, false, false, Some("🥛")),
        8 => ("blasted", 196u8, true, false, false, Some("💥")),
        9 => ("pissed on", 226u8, false, false, true, Some("💦")),
        10 => ("annihilated", 196u8, true, true, false, Some("☢")),
        11 => ("demolished", 208u8, true, false, false, None),
        12 => ("ravaged", 197u8, true, false, false, None),
        13 => ("pounded", 201u8, true, false, false, Some("🍆")),
        14 => ("nuked", 226u8, true, false, false, Some("☢")),
        15 => ("gangbanged", 201u8, true, true, false, None),
        16 => ("railed", 165u8, true, false, false, None),
        17 => ("splooged on", 231u8, false, false, true, Some("💦")),
        18 => ("drilled", 208u8, true, false, false, None),
        19 => ("facialized", 231u8, true, true, false, Some("💦")),
        20 => ("jizzed on", 231u8, true, false, false, Some("💦")),
        21 => ("creampied", 199u8, true, false, false, Some("🍑")),
        _ => ("rawdogged", 197u8, true, true, false, None),
    }
}

/// The `i`-th verb of the hall of fame.
pub fn verb_at(i: usize) -> (r: Verb)
    requires
        i < VERB_COUNT,
    ensures
        verb_view(r) == spec_verb(i),
{
    let (word, color, bold, underline, italic, emoji) = verb_entry(i);
    Verb {
        word: word.to_owned(),
        color,
        bold,
        underline,
        italic,
        emoji: match emoji {
            Some(e) => Some(e.to_owned()),
            None => None,
        },
    }
}

/// Pick a verb at random: an index drawn with `gen_range(0..=22)`.
pub fn pick_verb(rng: &mut SmallRng) -> (r: usize)
    ensures
        r < VERB_COUNT,
{
    random_in(rng, 0, VERB_COUNT - 1)
}

/// The uncolored send-off of a path: the path, the emoji (if the verb has
/// one), the word, separated by spaces.
pub open spec fn spec_send_off_plain(path: Seq<char>, i: usize) -> Seq<char> {
    let v = spec_verb(i);
    match v.5 {
        Some(e) => path + " "@ + e + " "@ + v.0,
        None => path + " "@ + v.0,
    }
}

/// The send-off line of a wiped path, without colors.
pub fn send_off_plain(path: &str, i: usize) -> (r: String)
    requires
        i < VERB_COUNT,
    ensures
        r@ == spec_send_off_plain(path@, i),
{
    let v = verb_at(i);
    let mut r = String::from_str(path);
    match &v.emoji {
        Some(e) => {
            r.append(" ");
            r.append(e.as_str());
        },
        None => {},
    }
    r.append(" ");
    r.append(v.word.as_str());
    r
}

} // verus!

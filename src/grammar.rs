//! The ring-tone text format, stated as functions from a position in the
//! text to what is read there, and the properties of that format.
use vstd::prelude::*;

use crate::model::{
    fields_distinct, lemma_resolved_fields, resolve_settings, Duration, Note, Octave, Pitch, Setting,
    Settings, Tempo,
};

verus! {

// ---------------------------------------------------------------------------
// The grammar, as functions from a position in the text to what is read there
// and the position just after it.
// ---------------------------------------------------------------------------

/// Whitespace that may surround the `:` and `,` separators.
pub open spec fn is_space(c: char) -> bool {
    c == ' ' || c == '\t' || c == '\r' || c == '\n'
}

pub open spec fn is_digit(c: char) -> bool {
    '0' <= c && c <= '9'
}

pub open spec fn digit_value(c: char) -> nat {
    (c as u32 - '0' as u32) as nat
}

/// First position at or after `i` that does not hold whitespace.
pub open spec fn skip_spaces(s: Seq<char>, i: int) -> int
    decreases s.len() - i,
{
    if 0 <= i < s.len() && is_space(s[i]) {
        skip_spaces(s, i + 1)
    } else {
        i
    }
}

/// First position at or after `i` that does not hold a digit.
pub open spec fn digits_end(s: Seq<char>, i: int) -> int
    decreases s.len() - i,
{
    if 0 <= i < s.len() && is_digit(s[i]) {
        digits_end(s, i + 1)
    } else {
        i
    }
}

/// The decimal number written in `s[i..j]`.
pub open spec fn number_value(s: Seq<char>, i: int, j: int) -> nat
    decreases j - i,
{
    if j <= i {
        0
    } else {
        number_value(s, i, j - 1) * 10 + digit_value(s[j - 1])
    }
}

/// Whether position `i` of `s` holds `c`.
pub open spec fn char_at(s: Seq<char>, i: int, c: char) -> bool {
    0 <= i < s.len() && s[i] == c
}

/// A duration code: `32`, `16`, `8`, `4`, `2` or `1`, the two-digit codes
/// tried first so that `1` is not read out of `16`.
pub open spec fn duration_at(s: Seq<char>, i: int) -> Option<(Duration, int)> {
    if char_at(s, i, '3') && char_at(s, i + 1, '2') {
        Some((Duration::ThirtySecond, i + 2))
    } else if char_at(s, i, '1') && char_at(s, i + 1, '6') {
        Some((Duration::Sixteenth, i + 2))
    } else if char_at(s, i, '8') {
        Some((Duration::Eighth, i + 1))
    } else if char_at(s, i, '4') {
        Some((Duration::Quarter, i + 1))
    } else if char_at(s, i, '2') {
        Some((Duration::Half, i + 1))
    } else if char_at(s, i, '1') {
        Some((Duration::Whole, i + 1))
    } else {
        None
    }
}

/// An octave code: one digit from `4` to `7`.
pub open spec fn octave_at(s: Seq<char>, i: int) -> Option<(Octave, int)> {
    if char_at(s, i, '4') {
        Some((Octave::O4, i + 1))
    } else if char_at(s, i, '5') {
        Some((Octave::O5, i + 1))
    } else if char_at(s, i, '6') {
        Some((Octave::O6, i + 1))
    } else if char_at(s, i, '7') {
        Some((Octave::O7, i + 1))
    } else {
        None
    }
}

/// What a pitch letter, with or without a following `#`, stands for: a pitch,
/// or `Some(None)` for the rest `p`; `None` where there is no such pitch.
pub open spec fn pitch_of(letter: char, sharp: bool) -> Option<Option<Pitch>> {
    if letter == 'a' {
        Some(Some(if sharp { Pitch::Bb } else { Pitch::A }))
    } else if letter == 'b' && !sharp {
        Some(Some(Pitch::B))
    } else if letter == 'c' {
        Some(Some(if sharp { Pitch::Db } else { Pitch::C }))
    } else if letter == 'd' {
        Some(Some(if sharp { Pitch::Eb } else { Pitch::D }))
    } else if letter == 'e' && !sharp {
        Some(Some(Pitch::E))
    } else if letter == 'f' {
        Some(Some(if sharp { Pitch::Gb } else { Pitch::F }))
    } else if letter == 'g' {
        Some(Some(if sharp { Pitch::Ab } else { Pitch::G }))
    } else if letter == 'p' && !sharp {
        Some(None)
    } else {
        None
    }
}

/// A pitch code: a letter from `a` to `g`, or `p`, and an optional `#`.
pub open spec fn pitch_at(s: Seq<char>, i: int) -> Option<(Option<Pitch>, int)> {
    if 0 <= i < s.len() {
        let sharp = char_at(s, i + 1, '#');
        match pitch_of(s[i], sharp) {
            Some(p) => Some((p, if sharp { i + 2 } else { i + 1 })),
            None => None,
        }
    } else {
        None
    }
}

/// Position after an optional `.` at `i`.
pub open spec fn after_dot(s: Seq<char>, i: int) -> int {
    if char_at(s, i, '.') {
        i + 1
    } else {
        i
    }
}

/// A note: an optional duration, a pitch, an optional dot, an optional
/// octave and an optional dot. Either dot makes the note dotted.
pub open spec fn note_at(s: Seq<char>, i: int) -> Option<(Note, int)> {
    let (duration, i1) = match duration_at(s, i) {
        Some((d, j)) => (Some(d), j),
        None => (None, i),
    };
    match pitch_at(s, i1) {
        None => None,
        Some((pitch, i2)) => {
            let i3 = after_dot(s, i2);
            let (octave, i4) = match octave_at(s, i3) {
                Some((o, j)) => (Some(o), j),
                None => (None, i3),
            };
            let i5 = after_dot(s, i4);
            Some((Note { duration, pitch, octave, dotted: i3 > i2 || i5 > i4 }, i5))
        },
    }
}

/// A separator `c` with any whitespace around it; the position after it.
pub open spec fn separator_at(s: Seq<char>, i: int, c: char) -> Option<int> {
    let j = skip_spaces(s, i);
    if char_at(s, j, c) {
        Some(skip_spaces(s, j + 1))
    } else {
        None
    }
}

/// End of a run of at least one digit at `i` whose value is at most `limit`.
pub open spec fn bounded_number_at(s: Seq<char>, i: int, limit: nat) -> Option<(nat, int)> {
    let j = digits_end(s, i);
    if j > i && number_value(s, i, j) <= limit {
        Some((number_value(s, i, j), j))
    } else {
        None
    }
}

/// One setting: `d=` and a duration, `o=` and an octave, `b=` and a tempo,
/// or `l=` or `s=` and an integer, which is read and then ignored.
pub open spec fn setting_at(s: Seq<char>, i: int) -> Option<(Setting, int)> {
    if char_at(s, i + 1, '=') {
        if char_at(s, i, 'd') {
            match duration_at(s, i + 2) {
                Some((d, j)) => Some((Setting::Duration(d), j)),
                None => None,
            }
        } else if char_at(s, i, 'o') {
            match octave_at(s, i + 2) {
                Some((o, j)) => Some((Setting::Octave(o), j)),
                None => None,
            }
        } else if char_at(s, i, 'b') {
            match bounded_number_at(s, i + 2, 0xffff) {
                Some((v, j)) => Some((Setting::Tempo(v as u16), j)),
                None => None,
            }
        } else if char_at(s, i, 'l') || char_at(s, i, 's') {
            let k = after_minus(s, i + 2);
            match bounded_number_at(s, k, 0xffff_ffff) {
                Some((_, j)) => Some((Setting::Ignored, j)),
                None => None,
            }
        } else {
            None
        }
    } else {
        None
    }
}

/// Position after an optional `-` at `i`.
pub open spec fn after_minus(s: Seq<char>, i: int) -> int {
    if char_at(s, i, '-') {
        i + 1
    } else {
        i
    }
}

/// A comma-separated list of at least one setting.
pub open spec fn settings_list_at(s: Seq<char>, i: int) -> Option<(Seq<Setting>, int)>
    decreases s.len() - i,
{
    match setting_at(s, i) {
        None => None,
        Some((first, j)) => match separator_at(s, j, ',') {
            None => Some((seq![first], j)),
            Some(k) => if i < k <= s.len() {
                match settings_list_at(s, k) {
                    Some((rest, e)) => Some((seq![first] + rest, e)),
                    None => None,
                }
            } else {
                None
            },
        },
    }
}

/// A comma-separated list of at least one note.
pub open spec fn notes_list_at(s: Seq<char>, i: int) -> Option<(Seq<Note>, int)>
    decreases s.len() - i,
{
    match note_at(s, i) {
        None => None,
        Some((first, j)) => match separator_at(s, j, ',') {
            None => Some((seq![first], j)),
            Some(k) => if i < k <= s.len() {
                match notes_list_at(s, k) {
                    Some((rest, e)) => Some((seq![first] + rest, e)),
                    None => None,
                }
            } else {
                None
            },
        },
    }
}

/// First position at or after `i` that holds `:`, or the end of `s`.
pub open spec fn colon_from(s: Seq<char>, i: int) -> int
    decreases s.len() - i,
{
    if 0 <= i < s.len() && s[i] != ':' {
        colon_from(s, i + 1)
    } else {
        i
    }
}

/// The name: at least one character, up to the first `:`.
pub open spec fn name_at(s: Seq<char>) -> Option<(Seq<char>, int)> {
    let c = colon_from(s, 0);
    if c > 0 {
        Some((s.subrange(0, c), c))
    } else {
        None
    }
}

/// What a whole ring tone text denotes.
pub struct RingtoneText {
    pub name: Seq<char>,
    pub settings: Settings,
    pub notes: Seq<Note>,
}

/// A whole ring tone: name, `:`, settings, `:`, notes, and nothing after them.
pub open spec fn ringtone_text(s: Seq<char>) -> Option<RingtoneText> {
    match name_at(s) {
        None => None,
        Some((name, c)) => match separator_at(s, c, ':') {
            None => None,
            Some(k) => match settings_list_at(s, k) {
                None => None,
                Some((list, j)) => match separator_at(s, j, ':') {
                    None => None,
                    Some(m) => match notes_list_at(s, m) {
                        Some((notes, e)) => if e == s.len() {
                            Some(RingtoneText { name, settings: resolve_settings(list), notes })
                        } else {
                            None
                        },
                        None => None,
                    },
                },
            },
        },
    }
}

/// The text is a ring tone whose tempo is not zero.
pub open spec fn is_playable(s: Seq<char>) -> bool {
    ringtone_text(s) matches Some(t) && t.settings.tempo > 0
}

/// The text is a ring tone whose settings resolve to a tempo of zero.
pub open spec fn has_zero_tempo(s: Seq<char>) -> bool {
    ringtone_text(s) matches Some(t) && t.settings.tempo == 0
}

// ---------------------------------------------------------------------------
// Properties of the grammar.
// ---------------------------------------------------------------------------

/// The settings listed in a settings section at the start of `s`.
pub open spec fn listed_settings(s: Seq<char>) -> Seq<Setting> {
    match settings_list_at(s, 0) {
        Some((list, _)) => list,
        None => seq![],
    }
}

/// The order of the keys in a settings section does not matter: two
/// sections that hold the same settings in any order, each field set at most
/// once, resolve to the same settings.
pub proof fn lemma_settings_key_order(a: Seq<char>, b: Seq<char>)
    requires
        settings_list_at(a, 0) is Some,
        settings_list_at(b, 0) is Some,
        listed_settings(a).to_multiset() == listed_settings(b).to_multiset(),
        fields_distinct(listed_settings(a)),
        fields_distinct(listed_settings(b)),
    ensures
        resolve_settings(listed_settings(a)) == resolve_settings(listed_settings(b)),
{
    broadcast use vstd::seq_lib::group_to_multiset_ensures;

    let la = listed_settings(a);
    let lb = listed_settings(b);
    assert forall|x: Setting| la.contains(x) <==> lb.contains(x) by {
        assert(la.to_multiset().count(x) == lb.to_multiset().count(x));
    }
    lemma_resolved_fields(la);
    lemma_resolved_fields(lb);
    let ra = resolve_settings(la);
    let rb = resolve_settings(lb);
    if exists|d: Duration| la.contains(Setting::Duration(d)) {
        let d = choose|d: Duration| la.contains(Setting::Duration(d));
        assert(lb.contains(Setting::Duration(d)));
    } else {
        assert forall|d: Duration| !lb.contains(Setting::Duration(d)) by {
            if lb.contains(Setting::Duration(d)) {
                assert(la.contains(Setting::Duration(d)));
            }
        }
    }
    if exists|o: Octave| la.contains(Setting::Octave(o)) {
        let o = choose|o: Octave| la.contains(Setting::Octave(o));
        assert(lb.contains(Setting::Octave(o)));
    } else {
        assert forall|o: Octave| !lb.contains(Setting::Octave(o)) by {
            if lb.contains(Setting::Octave(o)) {
                assert(la.contains(Setting::Octave(o)));
            }
        }
    }
    if exists|t: Tempo| la.contains(Setting::Tempo(t)) {
        let t = choose|t: Tempo| la.contains(Setting::Tempo(t));
        assert(lb.contains(Setting::Tempo(t)));
    } else {
        assert forall|t: Tempo| !lb.contains(Setting::Tempo(t)) by {
            if lb.contains(Setting::Tempo(t)) {
                assert(la.contains(Setting::Tempo(t)));
            }
        }
    }
    assert(ra.duration == rb.duration && ra.octave == rb.octave && ra.tempo == rb.tempo);
}

/// A dot may stand before or after the octave digit: a note written as a
/// duration and a pitch, then `.` and an octave, reads as the same dotted note
/// as the one with the dot after the octave, and both are read whole.
pub proof fn lemma_dot_placement(head: Seq<char>, octave: char)
    requires
        note_at(head, 0) matches Some((n, e)) && e == head.len() && n.octave is None && !n.dotted,
        octave_at(seq![octave], 0) is Some,
    ensures
        note_at(head + seq!['.', octave], 0) == note_at(head + seq![octave, '.'], 0),
        note_at(head + seq!['.', octave], 0) matches Some((n, e)) && e == head.len() + 2 && n.dotted
            && n.octave is Some,
{
    let a = head + seq!['.', octave];
    let b = head + seq![octave, '.'];
    assert(forall|k: int| 0 <= k < head.len() ==> a[k] == head[k] && b[k] == head[k]);
    assert(a[head.len() as int] == '.' && a[head.len() + 1int] == octave);
    assert(b[head.len() as int] == octave && b[head.len() + 1int] == '.');
}

/// The letters that name a pitch, and `p` for a rest.
pub open spec fn is_pitch_letter(c: char) -> bool {
    c == 'a' || c == 'b' || c == 'c' || c == 'd' || c == 'e' || c == 'f' || c == 'g' || c == 'p'
}

/// Where a note's pitch letter stands: after its duration code, if any.
pub open spec fn pitch_position(s: Seq<char>, i: int) -> int {
    match duration_at(s, i) {
        Some((_, j)) => j,
        None => i,
    }
}

/// A note whose pitch letter is not one of `a` to `g` or `p` is never read,
/// and neither is a list of notes that starts with it.
pub proof fn lemma_unknown_pitch_letter(s: Seq<char>, i: int)
    requires
        0 <= pitch_position(s, i) < s.len(),
        !is_pitch_letter(s[pitch_position(s, i)]),
    ensures
        note_at(s, i) is None,
        notes_list_at(s, i) is None,
{
}

proof fn lemma_skip_spaces_forward(s: Seq<char>, i: int)
    ensures
        skip_spaces(s, i) >= i,
        0 <= i ==> (skip_spaces(s, i) < s.len() ==> !is_space(s[skip_spaces(s, i)])),
    decreases s.len() - i,
{
    if 0 <= i < s.len() && is_space(s[i]) {
        lemma_skip_spaces_forward(s, i + 1);
    }
}

proof fn lemma_colon_from(s: Seq<char>, i: int)
    requires
        0 <= i,
    ensures
        colon_from(s, i) >= i,
        colon_from(s, i) < s.len() ==> s[colon_from(s, i)] == ':',
    decreases s.len() - i,
{
    if 0 <= i < s.len() && s[i] != ':' {
        lemma_colon_from(s, i + 1);
    }
}

proof fn lemma_settings_list_moves_forward(s: Seq<char>, i: int)
    ensures
        settings_list_at(s, i) matches Some((_, e)) ==> e > i,
    decreases s.len() - i,
{
    if let Some((first, j)) = setting_at(s, i) {
        if let Some(k) = separator_at(s, j, ',') {
            if i < k <= s.len() {
                lemma_settings_list_moves_forward(s, k);
            }
        }
    }
}

/// A ring tone holds at least two `:` characters: the one that ends the name
/// and the one that ends the settings. A text with fewer is never parsed.
pub proof fn lemma_ringtone_has_two_separators(s: Seq<char>)
    requires
        ringtone_text(s) is Some,
    ensures
        exists|i: int, j: int| 0 <= i < j < s.len() && s[i] == ':' && s[j] == ':',
{
    let c = colon_from(s, 0);
    lemma_colon_from(s, 0);
    lemma_skip_spaces_forward(s, c);
    let k = separator_at(s, c, ':')->0;
    lemma_skip_spaces_forward(s, skip_spaces(s, c) + 1);
    lemma_settings_list_moves_forward(s, k);
    let (_, j) = settings_list_at(s, k)->0;
    lemma_skip_spaces_forward(s, j);
    let q = skip_spaces(s, j);
    assert(skip_spaces(s, c) == c);
    assert(s[c] == ':' && s[q] == ':' && c < q);
}

} // verus!

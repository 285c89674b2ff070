//! Reading ring-tone text: each reader is proved to read what the grammar
//! says, and the whole text either parses exactly or gives an error.
use vstd::prelude::*;

use crate::grammar::{
    after_dot, bounded_number_at, char_at, colon_from, digits_end, duration_at, is_digit,
    is_space, name_at, note_at, notes_list_at, number_value, octave_at, pitch_at, pitch_of,
    ringtone_text, separator_at, setting_at, settings_list_at, skip_spaces, RingtoneText,
    has_zero_tempo, is_playable,
};
use crate::model::{resolve_settings, Duration, Note, Octave, Pitch, Setting, Settings};
use crate::ringtone::Ringtone;

verus! {

/// Relies on `String::push`: it appends the one character to the string.
#[verifier::external_body]
fn push_char(s: &mut String, c: char)
    ensures
        final(s)@ == old(s)@.push(c),
{
    s.push(c);
}

fn chars_of(input: &str) -> (r: Vec<char>)
    ensures
        r@ == input@,
{
    let mut r: Vec<char> = Vec::new();
    for c in it: input.chars()
        invariant
            r@ == it.seq().take(it.index() as int),
    {
        r.push(c);
    }
    r
}

/// The characters `s[from..to]` as a string.
fn string_of(s: &Vec<char>, from: usize, to: usize) -> (r: String)
    requires
        from <= to <= s.len(),
    ensures
        r@ == s@.subrange(from as int, to as int),
{
    let mut r = String::new();
    let mut k: usize = from;
    while k < to
        invariant
            from <= k <= to <= s.len(),
            r@ == s@.subrange(from as int, k as int),
        decreases to - k,
    {
        push_char(&mut r, s[k]);
        assert(s@.subrange(from as int, k + 1) =~= s@.subrange(from as int, k as int).push(s@[k as int]));
        k = k + 1;
    }
    r
}

fn space_end(s: &Vec<char>, i: usize) -> (r: usize)
    requires
        i <= s.len(),
    ensures
        r == skip_spaces(s@, i as int),
        i <= r <= s.len(),
{
    let mut k: usize = i;
    while k < s.len() && space_char(s[k])
        invariant
            i <= k <= s.len(),
            skip_spaces(s@, i as int) == skip_spaces(s@, k as int),
        decreases s.len() - k,
    {
        k = k + 1;
    }
    k
}

fn space_char(c: char) -> (r: bool)
    ensures
        r == is_space(c),
{
    c == ' ' || c == '\t' || c == '\r' || c == '\n'
}

fn digit_char(c: char) -> (r: bool)
    ensures
        r == is_digit(c),
{
    '0' <= c && c <= '9'
}

fn digit_run_end(s: &Vec<char>, i: usize) -> (r: usize)
    requires
        i <= s.len(),
    ensures
        r == digits_end(s@, i as int),
        i <= r <= s.len(),
        forall|k: int| i <= k < r ==> is_digit(#[trigger] s@[k]),
{
    let mut k: usize = i;
    while k < s.len() && digit_char(s[k])
        invariant
            i <= k <= s.len(),
            digits_end(s@, i as int) == digits_end(s@, k as int),
            forall|m: int| i <= m < k ==> is_digit(#[trigger] s@[m]),
        decreases s.len() - k,
    {
        k = k + 1;
    }
    k
}

/// The number written in `s[i..j]` where it is at most `limit`.
fn bounded_number(s: &Vec<char>, i: usize, j: usize, limit: u32) -> (r: Option<u32>)
    requires
        i <= j <= s.len(),
        forall|k: int| i <= k < j ==> is_digit(#[trigger] s@[k]),
    ensures
        r == (if number_value(s@, i as int, j as int) <= limit {
            Some(number_value(s@, i as int, j as int) as u32)
        } else {
            None::<u32>
        }),
{
    let cap: u64 = limit as u64 + 1;
    let mut acc: u64 = 0;
    let mut k: usize = i;
    while k < j
        invariant
            i <= k <= j <= s.len(),
            cap == limit + 1,
            forall|m: int| i <= m < j ==> is_digit(#[trigger] s@[m]),
            acc == if number_value(s@, i as int, k as int) < cap {
                number_value(s@, i as int, k as int)
            } else {
                cap as nat
            },
        decreases j - k,
    {
        let d: u64 = (s[k] as u32 - '0' as u32) as u64;
        assert(is_digit(s@[k as int]));
        proof {
            let v = number_value(s@, i as int, k as int);
            assert(number_value(s@, i as int, k + 1) == v * 10 + d);
            assert(v >= cap ==> v * 10 + d >= cap) by (nonlinear_arith)
                requires d >= 0;
        }
        acc = if acc * 10 + d < cap { acc * 10 + d } else { cap };
        k = k + 1;
    }
    if acc < cap { Some(acc as u32) } else { None }
}

/// A reader's result with its end position widened to an integer.
pub open spec fn at_int<T>(r: Option<(T, usize)>) -> Option<(T, int)> {
    match r {
        Some((v, j)) => Some((v, j as int)),
        None => None,
    }
}

fn at(s: &Vec<char>, i: usize, c: char) -> (r: bool)
    ensures
        r == char_at(s@, i as int, c),
{
    i < s.len() && s[i] == c
}

fn read_duration(s: &Vec<char>, i: usize) -> (r: Option<(Duration, usize)>)
    requires
        i <= s.len(),
    ensures
        at_int(r) == duration_at(s@, i as int),
        r matches Some((_, j)) ==> i < j <= s.len(),
{
    if at(s, i, '3') && at(s, i + 1, '2') {
        Some((Duration::ThirtySecond, i + 2))
    } else if at(s, i, '1') && at(s, i + 1, '6') {
        Some((Duration::Sixteenth, i + 2))
    } else if at(s, i, '8') {
        Some((Duration::Eighth, i + 1))
    } else if at(s, i, '4') {
        Some((Duration::Quarter, i + 1))
    } else if at(s, i, '2') {
        Some((Duration::Half, i + 1))
    } else if at(s, i, '1') {
        Some((Duration::Whole, i + 1))
    } else {
        None
    }
}

fn read_octave(s: &Vec<char>, i: usize) -> (r: Option<(Octave, usize)>)
    requires
        i <= s.len(),
    ensures
        at_int(r) == octave_at(s@, i as int),
        r matches Some((_, j)) ==> i < j <= s.len(),
{
    if at(s, i, '4') {
        Some((Octave::O4, i + 1))
    } else if at(s, i, '5') {
        Some((Octave::O5, i + 1))
    } else if at(s, i, '6') {
        Some((Octave::O6, i + 1))
    } else if at(s, i, '7') {
        Some((Octave::O7, i + 1))
    } else {
        None
    }
}

fn pitch_from(letter: char, sharp: bool) -> (r: Option<Option<Pitch>>)
    ensures
        r == pitch_of(letter, sharp),
{
    if letter == 'a' {
        Some(Some(if sharp { Pitch::Bb } else { Pitch::A }))
    } else if letter == 'b' && !sharp {
        Some(Some(Pitch::B))
    } else if letter == 'c' {
        Some(Some(if sharp { Pitch::Db } else { Pitch::C }))
    } else if letter == 'd' {
        Some(Some(if sharp { Pitch::Eb } else { Pitch::D }))
    } else if letter == 'e' && !sharp {
        Some(Some(Pitch::E))
    } else if letter == 'f' {
        Some(Some(if sharp { Pitch::Gb } else { Pitch::F }))
    } else if letter == 'g' {
        Some(Some(if sharp { Pitch::Ab } else { Pitch::G }))
    } else if letter == 'p' && !sharp {
        Some(None)
    } else {
        None
    }
}

fn read_pitch(s: &Vec<char>, i: usize) -> (r: Option<(Option<Pitch>, usize)>)
    requires
        i <= s.len(),
    ensures
        at_int(r) == pitch_at(s@, i as int),
        r matches Some((_, j)) ==> i < j <= s.len(),
{
    if i < s.len() {
        let sharp = at(s, i + 1, '#');
        match pitch_from(s[i], sharp) {
            Some(p) => Some((p, if sharp { i + 2 } else { i + 1 })),
            None => None,
        }
    } else {
        None
    }
}

fn skip_dot(s: &Vec<char>, i: usize) -> (r: usize)
    requires
        i <= s.len(),
    ensures
        r == after_dot(s@, i as int),
        i <= r <= s.len(),
{
    if at(s, i, '.') { i + 1 } else { i }
}

fn read_note(s: &Vec<char>, i: usize) -> (r: Option<(Note, usize)>)
    requires
        i <= s.len(),
    ensures
        at_int(r) == note_at(s@, i as int),
        r matches Some((_, j)) ==> i < j <= s.len(),
{
    let (duration, i1) = match read_duration(s, i) {
        Some((d, j)) => (Some(d), j),
        None => (None, i),
    };
    match read_pitch(s, i1) {
        None => None,
        Some((pitch, i2)) => {
            let i3 = skip_dot(s, i2);
            let (octave, i4) = match read_octave(s, i3) {
                Some((o, j)) => (Some(o), j),
                None => (None, i3),
            };
            let i5 = skip_dot(s, i4);
            Some((Note { duration, pitch, octave, dotted: i3 > i2 || i5 > i4 }, i5))
        },
    }
}

fn read_separator(s: &Vec<char>, i: usize, c: char) -> (r: Option<usize>)
    requires
        i <= s.len(),
    ensures
        r matches Some(k) ==> separator_at(s@, i as int, c) == Some(k as int) && i < k <= s.len(),
        r is None ==> separator_at(s@, i as int, c) is None,
{
    let j = space_end(s, i);
    if at(s, j, c) {
        Some(space_end(s, j + 1))
    } else {
        None
    }
}

fn read_bounded_number(s: &Vec<char>, i: usize, limit: u32) -> (r: Option<(u32, usize)>)
    requires
        i <= s.len(),
    ensures
        r matches Some((v, j)) ==> bounded_number_at(s@, i as int, limit as nat) == Some((v as nat, j as int)) && i < j <= s.len(),
        r is None ==> bounded_number_at(s@, i as int, limit as nat) is None,
{
    let j = digit_run_end(s, i);
    if j > i {
        match bounded_number(s, i, j, limit) {
            Some(v) => Some((v, j)),
            None => None,
        }
    } else {
        None
    }
}

fn read_setting(s: &Vec<char>, i: usize) -> (r: Option<(Setting, usize)>)
    requires
        i <= s.len(),
    ensures
        at_int(r) == setting_at(s@, i as int),
        r matches Some((_, j)) ==> i < j <= s.len(),
{
    if i < s.len() && at(s, i + 1, '=') {
        if at(s, i, 'd') {
            match read_duration(s, i + 2) {
                Some((d, j)) => Some((Setting::Duration(d), j)),
                None => None,
            }
        } else if at(s, i, 'o') {
            match read_octave(s, i + 2) {
                Some((o, j)) => Some((Setting::Octave(o), j)),
                None => None,
            }
        } else if at(s, i, 'b') {
            match read_bounded_number(s, i + 2, 0xffff) {
                Some((v, j)) => Some((Setting::Tempo(v as u16), j)),
                None => None,
            }
        } else if at(s, i, 'l') || at(s, i, 's') {
            let k = if at(s, i + 2, '-') { i + 3 } else { i + 2 };
            match read_bounded_number(s, k, 0xffff_ffff) {
                Some((_, j)) => Some((Setting::Ignored, j)),
                None => None,
            }
        } else {
            None
        }
    } else {
        None
    }
}

/// `prefix` put before the list that `r` holds, if it holds one.
pub open spec fn prepend<T>(prefix: Seq<T>, r: Option<(Seq<T>, int)>) -> Option<(Seq<T>, int)> {
    match r {
        Some((rest, e)) => Some((prefix + rest, e)),
        None => None,
    }
}

/// What a parser expected where the text stopped matching.
#[derive(Clone, Copy, Debug, PartialEq, Eq, Structural)]
pub enum Expected {
    Name,
    Separator,
    Setting,
    Note,
    End,
}

/// Why a text is not a ring tone.
#[derive(Clone, Copy, Debug, PartialEq, Eq, Structural)]
pub enum ParseError {
    /// The text does not follow the grammar; `position` counts characters
    /// from the start of the text.
    Syntax { position: usize, expected: Expected },
    /// The settings resolve to a tempo of zero, under which no note has a
    /// finite length.
    ZeroTempo,
}

pub open spec fn syntax_error_within(e: ParseError, len: nat) -> bool {
    e matches ParseError::Syntax { position, .. } && position <= len
}

fn read_settings(s: &Vec<char>, i: usize) -> (r: Result<(Settings, usize), ParseError>)
    requires
        i <= s.len(),
    ensures
        r matches Ok((st, j)) ==> settings_list_at(s@, i as int) matches Some((list, e)) && st
            == resolve_settings(list) && e == j && i < j <= s.len(),
        r matches Err(e) ==> settings_list_at(s@, i as int) is None && syntax_error_within(
            e,
            s.len() as nat,
        ),
{
    let mut acc = Settings::default();
    let ghost mut prefix: Seq<Setting> = seq![];
    let mut k: usize = i;
    assert(prepend(prefix, settings_list_at(s@, i as int)) == settings_list_at(s@, i as int)) by {
        if let Some((rest, e)) = settings_list_at(s@, i as int) {
            assert(prefix + rest =~= rest);
        }
    }
    loop
        invariant
            i <= k <= s.len(),
            acc == resolve_settings(prefix),
            settings_list_at(s@, i as int) == prepend(prefix, settings_list_at(s@, k as int)),
        decreases s.len() - k,
    {
        match read_setting(s, k) {
            None => {
                return Err(ParseError::Syntax { position: k, expected: Expected::Setting });
            },
            Some((st, j)) => {
                acc = Setting::put(acc, st);
                assert(prefix.push(st).drop_last() =~= prefix);
                match read_separator(s, j, ',') {
                    None => {
                        assert(prefix + seq![st] =~= prefix.push(st));
                        return Ok((acc, j));
                    },
                    Some(m) => {
                        proof {
                            if let Some((rest, e)) = settings_list_at(s@, m as int) {
                                assert(prefix + (seq![st] + rest) =~= prefix.push(st) + rest);
                            }
                            prefix = prefix.push(st);
                        }
                        k = m;
                    },
                }
            },
        }
    }
}

fn read_notes(s: &Vec<char>, i: usize) -> (r: Result<(Vec<Note>, usize), ParseError>)
    requires
        i <= s.len(),
    ensures
        r matches Ok((v, j)) ==> notes_list_at(s@, i as int) == Some((v@, j as int)) && i < j
            <= s.len(),
        r matches Err(e) ==> notes_list_at(s@, i as int) is None && syntax_error_within(
            e,
            s.len() as nat,
        ),
{
    let mut v: Vec<Note> = Vec::new();
    let mut k: usize = i;
    assert(prepend(v@, notes_list_at(s@, i as int)) == notes_list_at(s@, i as int)) by {
        if let Some((rest, e)) = notes_list_at(s@, i as int) {
            assert(v@ + rest =~= rest);
        }
    }
    loop
        invariant
            i <= k <= s.len(),
            notes_list_at(s@, i as int) == prepend(v@, notes_list_at(s@, k as int)),
        decreases s.len() - k,
    {
        match read_note(s, k) {
            None => {
                return Err(ParseError::Syntax { position: k, expected: Expected::Note });
            },
            Some((n, j)) => {
                let ghost before = v@;
                v.push(n);
                match read_separator(s, j, ',') {
                    None => {
                        assert(before + seq![n] =~= v@);
                        return Ok((v, j));
                    },
                    Some(m) => {
                        proof {
                            if let Some((rest, e)) = notes_list_at(s@, m as int) {
                                assert(before + (seq![n] + rest) =~= v@ + rest);
                            }
                        }
                        k = m;
                    },
                }
            },
        }
    }
}

/// Position of the first `:` in `s`, or its length.
fn first_colon(s: &Vec<char>) -> (r: usize)
    ensures
        r == colon_from(s@, 0),
        r <= s.len(),
{
    let mut k: usize = 0;
    while k < s.len() && s[k] != ':'
        invariant
            k <= s.len(),
            colon_from(s@, 0) == colon_from(s@, k as int),
        decreases s.len() - k,
    {
        k = k + 1;
    }
    k
}

fn read_ringtone(s: &Vec<char>) -> (r: Result<(String, Settings, Vec<Note>), ParseError>)
    ensures
        r matches Ok((name, settings, notes)) ==> ringtone_text(s@) == Some(
            RingtoneText { name: name@, settings, notes: notes@ },
        ),
        r matches Err(e) ==> ringtone_text(s@) is None && syntax_error_within(e, s.len() as nat),
{
    let c = first_colon(s);
    if c == 0 {
        return Err(ParseError::Syntax { position: 0, expected: Expected::Name });
    }
    let name = string_of(s, 0, c);
    let k = match read_separator(s, c, ':') {
        Some(k) => k,
        None => {
            return Err(ParseError::Syntax { position: c, expected: Expected::Separator });
        },
    };
    let (settings, j) = read_settings(s, k)?;
    let m = match read_separator(s, j, ':') {
        Some(m) => m,
        None => {
            return Err(ParseError::Syntax { position: j, expected: Expected::Separator });
        },
    };
    let (notes, e) = read_notes(s, m)?;
    if e != s.len() {
        return Err(ParseError::Syntax { position: e, expected: Expected::End });
    }
    Ok((name, settings, notes))
}

/// Parses a whole ring tone text: a name, `:`, the settings, `:`, the notes
/// and nothing after them. Whitespace is allowed around each `:` and `,`.
///
/// A text that does not follow the grammar gives a syntax error; one whose
/// settings resolve to a tempo of zero gives `ZeroTempo`.
pub fn parse_input(input: &str) -> (r: Result<Ringtone, ParseError>)
    ensures
        r is Ok <==> is_playable(input@),
        r matches Ok(rt) ==> ringtone_text(input@) == Some(rt@),
        r == Err::<Ringtone, ParseError>(ParseError::ZeroTempo) <==> has_zero_tempo(input@),
        r matches Err(ParseError::Syntax { position, .. }) ==> ringtone_text(input@) is None
            && position <= input@.len(),
{
    let s = chars_of(input);
    let (name, settings, notes) = read_ringtone(&s)?;
    if settings.tempo == 0 {
        return Err(ParseError::ZeroTempo);
    }
    Ok(Ringtone::from_parts(name, settings, notes))
}

/// Reads the name at the start of `input`: every character up to the first
/// `:`, at least one. Returns the text after it and the name.
pub fn name(input: &str) -> (r: Result<(String, String), ParseError>)
    ensures
        r matches Ok((rest, nm)) ==> name_at(input@) matches Some((n, c)) && nm@ == n && rest@
            == input@.subrange(c, input@.len() as int),
        r matches Err(e) ==> name_at(input@) is None && syntax_error_within(e, input@.len()),
{
    let s = chars_of(input);
    let c = first_colon(&s);
    if c == 0 {
        return Err(ParseError::Syntax { position: 0, expected: Expected::Name });
    }
    Ok((string_of(&s, c, s.len()), string_of(&s, 0, c)))
}

/// Reads a settings section at the start of `input` and resolves it against
/// the defaults. Returns the text after it and the settings.
pub fn settings(input: &str) -> (r: Result<(String, Settings), ParseError>)
    ensures
        r matches Ok((rest, st)) ==> settings_list_at(input@, 0) matches Some((list, e)) && st
            == resolve_settings(list) && rest@ == input@.subrange(e, input@.len() as int),
        r matches Err(e) ==> settings_list_at(input@, 0) is None && syntax_error_within(
            e,
            input@.len(),
        ),
{
    let s = chars_of(input);
    let (st, j) = read_settings(&s, 0)?;
    Ok((string_of(&s, j, s.len()), st))
}

/// Reads one note at the start of `input`. Returns the text after it and the
/// note.
pub fn note(input: &str) -> (r: Result<(String, Note), ParseError>)
    ensures
        r matches Ok((rest, n)) ==> note_at(input@, 0) matches Some((m, e)) && n == m && rest@
            == input@.subrange(e, input@.len() as int),
        r matches Err(e) ==> note_at(input@, 0) is None && syntax_error_within(e, input@.len()),
{
    let s = chars_of(input);
    match read_note(&s, 0) {
        Some((n, j)) => Ok((string_of(&s, j, s.len()), n)),
        None => Err(ParseError::Syntax { position: 0, expected: Expected::Note }),
    }
}

} // verus!

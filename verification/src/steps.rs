//! Per-note coaching sub-steps for notes with more than one string, and the
//! instruction text shown for each.

use vstd::prelude::*;

verus! {

/// The first sub-step of a note with the given string count; monochords
/// have none.
pub open spec fn spec_first_step(strings: int) -> Option<TuningStep> {
    if strings == 2 {
        Some(TuningStep::MuteBichord)
    } else if strings == 3 {
        Some(TuningStep::MuteOuter)
    } else {
        None
    }
}

/// The last sub-step of a note with the given string count; monochords
/// have none.
pub open spec fn spec_last_step(strings: int) -> Option<TuningStep> {
    if strings == 2 {
        Some(TuningStep::TuneBichord)
    } else if strings == 3 {
        Some(TuningStep::TuneRight)
    } else {
        None
    }
}

/// The successor of a sub-step within its note, if any.
pub open spec fn spec_next(s: TuningStep) -> Option<TuningStep> {
    match s {
        TuningStep::MuteBichord => Some(TuningStep::TuneBichord),
        TuningStep::TuneBichord => None,
        TuningStep::MuteOuter => Some(TuningStep::TuneCenter),
        TuningStep::TuneCenter => Some(TuningStep::TuneLeft),
        TuningStep::TuneLeft => Some(TuningStep::TuneRight),
        TuningStep::TuneRight => None,
    }
}

/// The predecessor of a sub-step within its note, if any.
pub open spec fn spec_prev(s: TuningStep) -> Option<TuningStep> {
    match s {
        TuningStep::MuteBichord => None,
        TuningStep::TuneBichord => Some(TuningStep::MuteBichord),
        TuningStep::MuteOuter => None,
        TuningStep::TuneCenter => Some(TuningStep::MuteOuter),
        TuningStep::TuneLeft => Some(TuningStep::TuneCenter),
        TuningStep::TuneRight => Some(TuningStep::TuneLeft),
    }
}

/// Step in the tuning process for multi-string notes.
#[derive(Debug, Clone, Copy, PartialEq, Eq, Structural)]
pub enum TuningStep {
    /// Bichord step 1: mute the right string.
    MuteBichord,
    /// Bichord step 2: tune left string to pitch, then right to match.
    TuneBichord,
    /// Trichord step 1: mute the outer strings.
    MuteOuter,
    /// Trichord step 2: tune the center string.
    TuneCenter,
    /// Trichord step 3: tune the left string to unison.
    TuneLeft,
    /// Trichord step 4: tune the right string to unison.
    TuneRight,
}

impl TuningStep {
    /// Create the first step for a given string count; a monochord note has
    /// no steps.
    pub fn first_for_strings(strings: u8) -> (r: Option<Self>)
        ensures
            r == spec_first_step(strings as int),
    {
        match strings {
            2 => Some(TuningStep::MuteBichord),
            3 => Some(TuningStep::MuteOuter),
            _ => None,
        }
    }

    /// Check if this is a muting step (no tuning hints are shown).
    pub fn is_muting(&self) -> (r: bool)
        ensures
            r == (self is MuteBichord || self is MuteOuter),
    {
        matches!(self, TuningStep::MuteBichord | TuningStep::MuteOuter)
    }

    /// Get the total number of steps for this note's string type.
    pub fn total_steps(&self) -> (r: u8)
        ensures
            r == if self is MuteBichord || self is TuneBichord {
                2int
            } else {
                4int
            },
    {
        match self {
            TuningStep::MuteBichord | TuningStep::TuneBichord => 2,
            _ => 4,
        }
    }

    /// Get the 1-based step number.
    pub fn number(&self) -> (r: u8)
        ensures
            r == match self {
                TuningStep::MuteBichord => 1int,
                TuningStep::TuneBichord => 2int,
                TuningStep::MuteOuter => 1int,
                TuningStep::TuneCenter => 2int,
                TuningStep::TuneLeft => 3int,
                TuningStep::TuneRight => 4int,
            },
    {
        match self {
            TuningStep::MuteBichord => 1,
            TuningStep::TuneBichord => 2,
            TuningStep::MuteOuter => 1,
            TuningStep::TuneCenter => 2,
            TuningStep::TuneLeft => 3,
            TuningStep::TuneRight => 4,
        }
    }

    /// Get the step title.
    pub fn title(&self) -> (r: &'static str)
        ensures
            r@ == match self {
                TuningStep::MuteBichord => "Mute right string"@,
                TuningStep::TuneBichord => "Tune left string"@,
                TuningStep::MuteOuter => "Mute outer strings"@,
                TuningStep::TuneCenter => "Tune center string"@,
                TuningStep::TuneLeft => "Tune left string"@,
                TuningStep::TuneRight => "Tune right string"@,
            },
    {
        match self {
            TuningStep::MuteBichord => "Mute right string",
            TuningStep::TuneBichord => "Tune left string",
            TuningStep::MuteOuter => "Mute outer strings",
            TuningStep::TuneCenter => "Tune center string",
            TuningStep::TuneLeft => "Tune left string",
            TuningStep::TuneRight => "Tune right string",
        }
    }

    /// Get the instruction text.
    pub fn instruction(&self) -> (r: &'static str)
        ensures
            r@ == match self {
                TuningStep::MuteBichord => "Use a felt wedge or rubber mute to mute the right string. Only the left string should sound."@,
                TuningStep::TuneBichord => "Tune the left string to pitch. Then remove the mute and tune the right string to match."@,
                TuningStep::MuteOuter => "Use felt strip or rubber mutes to mute the outer strings. Only the center string should sound."@,
                TuningStep::TuneCenter => "Tune the center string to the target pitch using the meter."@,
                TuningStep::TuneLeft => "Unmute the left string. Tune it to match the center string until you hear no beats."@,
                TuningStep::TuneRight => "Unmute the right string. Tune it to match the center string until you hear no beats."@,
            },
    {
        match self {
            TuningStep::MuteBichord => "Use a felt wedge or rubber mute to mute the right string. Only the left string should sound.",
            TuningStep::TuneBichord => "Tune the left string to pitch. Then remove the mute and tune the right string to match.",
            TuningStep::MuteOuter => "Use felt strip or rubber mutes to mute the outer strings. Only the center string should sound.",
            TuningStep::TuneCenter => "Tune the center string to the target pitch using the meter.",
            TuningStep::TuneLeft => "Unmute the left string. Tune it to match the center string until you hear no beats.",
            TuningStep::TuneRight => "Unmute the right string. Tune it to match the center string until you hear no beats.",
        }
    }

    /// Get the next step, or `None` at the last step of the note.
    pub fn next(&self) -> (r: Option<Self>)
        ensures
            r == spec_next(*self),
    {
        match self {
            TuningStep::MuteBichord => Some(TuningStep::TuneBichord),
            TuningStep::TuneBichord => None,
            TuningStep::MuteOuter => Some(TuningStep::TuneCenter),
            TuningStep::TuneCenter => Some(TuningStep::TuneLeft),
            TuningStep::TuneLeft => Some(TuningStep::TuneRight),
            TuningStep::TuneRight => None,
        }
    }

    /// Get the previous step, or `None` at the first step of the note.
    pub fn prev(&self) -> (r: Option<Self>)
        ensures
            r == spec_prev(*self),
    {
        match self {
            TuningStep::MuteBichord => None,
            TuningStep::TuneBichord => Some(TuningStep::MuteBichord),
            TuningStep::MuteOuter => None,
            TuningStep::TuneCenter => Some(TuningStep::MuteOuter),
            TuningStep::TuneLeft => Some(TuningStep::TuneCenter),
            TuningStep::TuneRight => Some(TuningStep::TuneLeft),
        }
    }

    /// The last step for a given string count, used when stepping backward
    /// into an already-finished note.
    pub fn last_for_strings(strings: u8) -> (r: Option<Self>)
        ensures
            r == spec_last_step(strings as int),
    {
        match strings {
            2 => Some(TuningStep::TuneBichord),
            3 => Some(TuningStep::TuneRight),
            _ => None,
        }
    }
}

/// Coaching instructions for the current note and step.
pub struct Instructions {
    /// The current sub-step, or `None` for a monochord note.
    pub step: Option<TuningStep>,
    /// A pin-turning hint derived from the deviation, if one applies.
    pub direction_hint: Option<String>,
}

impl Instructions {
    /// Create instructions for a note with the given step.
    pub fn for_step(step: TuningStep, _string_count: u8) -> (r: Self)
        ensures
            r.step == Some(step),
            r.direction_hint is None,
    {
        Instructions { step: Some(step), direction_hint: None }
    }

    /// Create instructions for a monochord note (1 string, no steps).
    pub fn simple() -> (r: Self)
        ensures
            r.step is None,
            r.direction_hint is None,
    {
        Instructions { step: None, direction_hint: None }
    }

    /// Set a pin-turning hint when the deviation in centicents is more than
    /// five cents off target in either direction.
    pub fn with_direction_hint(self, cents: i64) -> (r: Self)
        requires
            -1000000000 <= cents <= 1000000000,
        ensures
            r.step == self.step,
            -500 <= cents <= 500 ==> r.direction_hint == self.direction_hint,
            cents < -500 ==> match r.direction_hint {
                Some(h) => h@ == "Turn tuning pin CLOCKWISE (tighten) slightly"@,
                None => false,
            },
            cents > 500 ==> match r.direction_hint {
                Some(h) => h@ == "Turn tuning pin COUNTER-CLOCKWISE (loosen) slightly"@,
                None => false,
            },
    {
        let mut r = self;
        if cents < -500 {
            r.direction_hint = Some(String::from_str("Turn tuning pin CLOCKWISE (tighten) slightly"));
        } else if cents > 500 {
            r.direction_hint = Some(
                String::from_str("Turn tuning pin COUNTER-CLOCKWISE (loosen) slightly"),
            );
        }
        r
    }
}


/// The words of a character sequence, split on spaces, after processing the
/// first `i` characters with `cur` the word in progress and `acc` the words
/// already finished.
pub open spec fn words_from(
    s: Seq<char>,
    i: int,
    cur: Seq<char>,
    acc: Seq<Seq<char>>,
) -> Seq<Seq<char>>
    decreases (if s.len() - i >= 0 { s.len() - i } else { 0 }),
{
    if i >= s.len() {
        if cur.len() == 0 {
            acc
        } else {
            acc.push(cur)
        }
    } else if s[i] == ' ' {
        if cur.len() == 0 {
            words_from(s, i + 1, cur, acc)
        } else {
            words_from(s, i + 1, Seq::empty(), acc.push(cur))
        }
    } else {
        words_from(s, i + 1, cur.push(s[i]), acc)
    }
}

/// The words of a text, split on spaces.
pub open spec fn spec_words(s: Seq<char>) -> Seq<Seq<char>> {
    words_from(s, 0, Seq::empty(), Seq::empty())
}

/// Greedy wrapping of `words` into lines of at most `w` characters (a word
/// longer than `w` stands alone on its line), after processing the first `k`
/// words with `cur` the line in progress and `acc` the finished lines.
pub open spec fn wrap_from(
    words: Seq<Seq<char>>,
    w: int,
    k: int,
    cur: Seq<char>,
    acc: Seq<Seq<char>>,
) -> Seq<Seq<char>>
    decreases (if words.len() - k >= 0 { words.len() - k } else { 0 }),
{
    if k >= words.len() {
        if cur.len() == 0 {
            acc
        } else {
            acc.push(cur)
        }
    } else {
        let wd = words[k];
        if cur.len() == 0 {
            wrap_from(words, w, k + 1, wd, acc)
        } else if cur.len() + 1 + wd.len() <= w {
            wrap_from(words, w, k + 1, cur + seq![' '] + wd, acc)
        } else {
            wrap_from(words, w, k + 1, wd, acc.push(cur))
        }
    }
}

/// The greedy wrapping of a text's words into lines of at most `max_width`
/// characters.
pub open spec fn spec_wrapped(s: Seq<char>, max_width: int) -> Seq<Seq<char>> {
    wrap_from(spec_words(s), max_width, 0, Seq::empty(), Seq::empty())
}

/// Split a text into its space-separated words.
pub fn split_words(text: &str) -> (words: Vec<String>)
    ensures
        words@.map_values(|x: String| x@) == spec_words(text@),
{
    let n = text.unicode_len();
    let mut words: Vec<String> = Vec::new();
    let mut i: usize = 0;
    let mut word_start: usize = 0;
    let mut in_word = false;
    proof {
        assert(words@.map_values(|x: String| x@) =~= Seq::<Seq<char>>::empty());
    }
    while i < n
        invariant
            n == text@.len(),
            i <= n,
            in_word ==> word_start < i,
            !in_word ==> word_start <= i,
            spec_words(text@) == words_from(
                text@,
                i as int,
                if in_word {
                    text@.subrange(word_start as int, i as int)
                } else {
                    Seq::<char>::empty()
                },
                words@.map_values(|x: String| x@),
            ),
        decreases n - i,
    {
        let ghost cur0: Seq<char> = if in_word {
            text@.subrange(word_start as int, i as int)
        } else {
            Seq::<char>::empty()
        };
        let ghost acc0 = words@.map_values(|x: String| x@);
        proof {
            assert(words_from(text@, i as int, cur0, acc0) == (if text@[i as int] == ' ' {
                if cur0.len() == 0 {
                    words_from(text@, i + 1, cur0, acc0)
                } else {
                    words_from(text@, i + 1, Seq::<char>::empty(), acc0.push(cur0))
                }
            } else {
                words_from(text@, i + 1, cur0.push(text@[i as int]), acc0)
            }));
        }
        let c = text.get_char(i);
        if c == ' ' {
            if in_word {
                let w = String::from_str(text.substring_char(word_start, i));
                words.push(w);
                proof {
                    assert(words@.map_values(|x: String| x@) =~= acc0.push(cur0));
                }
                in_word = false;
            }
            word_start = i + 1;
        } else {
            if !in_word {
                word_start = i;
                in_word = true;
            }
            proof {
                assert(text@.subrange(word_start as int, i + 1) =~= cur0.push(text@[i as int]));
            }
        }
        i = i + 1;
    }
    if in_word {
        let ghost acc0 = words@.map_values(|x: String| x@);
        let ghost cur0 = text@.subrange(word_start as int, n as int);
        let w = String::from_str(text.substring_char(word_start, n));
        words.push(w);
        proof {
            assert(words@.map_values(|x: String| x@) =~= acc0.push(cur0));
        }
    }
    words
}

/// Wrap words greedily into lines of at most `max_width` characters, joined
/// by single spaces; a word longer than the width stands alone on its line.
pub fn wrap_words(words: &Vec<String>, max_width: usize) -> (lines: Vec<String>)
    ensures
        lines@.map_values(|x: String| x@) == wrap_from(
            words@.map_values(|x: String| x@),
            max_width as int,
            0,
            Seq::empty(),
            Seq::empty(),
        ),
{
    let mut lines: Vec<String> = Vec::new();
    let mut cur = String::new();
    let mut cur_len: usize = 0;
    let mut k: usize = 0;
    proof {
        assert(lines@.map_values(|x: String| x@) =~= Seq::<Seq<char>>::empty());
    }
    while k < words.len()
        invariant
            k <= words@.len(),
            cur_len == cur@.len(),
            wrap_from(
                words@.map_values(|x: String| x@),
                max_width as int,
                0,
                Seq::empty(),
                Seq::empty(),
            ) == wrap_from(
                words@.map_values(|x: String| x@),
                max_width as int,
                k as int,
                cur@,
                lines@.map_values(|x: String| x@),
            ),
        decreases words@.len() - k,
    {
        let ghost all = words@.map_values(|x: String| x@);
        let ghost cur0 = cur@;
        let ghost acc0 = lines@.map_values(|x: String| x@);
        proof {
            reveal_strlit(" ");
            assert(all[k as int] == words@[k as int]@);
            assert(wrap_from(all, max_width as int, k as int, cur0, acc0) == (if cur0.len() == 0 {
                wrap_from(all, max_width as int, k + 1, all[k as int], acc0)
            } else if cur0.len() + 1 + all[k as int].len() <= max_width {
                wrap_from(all, max_width as int, k + 1, cur0 + seq![' '] + all[k as int], acc0)
            } else {
                wrap_from(all, max_width as int, k + 1, all[k as int], acc0.push(cur0))
            }));
        }
        let wd = &words[k];
        let wd_len = wd.unicode_len();
        if cur_len == 0 {
            cur = wd.clone();
            cur_len = wd_len;
        } else if (cur_len as u128) + 1 + (wd_len as u128) <= (max_width as u128) {
            cur.append(" ");
            cur.append(wd.as_str());
            proof {
                assert(cur@ =~= cur0 + seq![' '] + all[k as int]);
            }
            cur_len = cur_len + 1 + wd_len;
        } else {
            lines.push(cur);
            cur = wd.clone();
            cur_len = wd_len;
            proof {
                assert(lines@.map_values(|x: String| x@) =~= acc0.push(cur0));
            }
        }
        k = k + 1;
    }
    if cur_len > 0 {
        let ghost acc0 = lines@.map_values(|x: String| x@);
        let ghost last = cur@;
        lines.push(cur);
        proof {
            assert(lines@.map_values(|x: String| x@) =~= acc0.push(last));
        }
    }
    lines
}

/// Wrap a text to a maximum line width: split on spaces, then fill lines
/// greedily, joining words with single spaces.
pub fn textwrap(text: &str, max_width: usize) -> (lines: Vec<String>)
    ensures
        lines@.map_values(|x: String| x@) == spec_wrapped(text@, max_width as int),
{
    let words = split_words(text);
    wrap_words(&words, max_width)
}

} // verus!


//! The numbering engine: per-list counters shared across one rendering pass,
//! and the symbol each numbering format produces.

use vstd::prelude::*;
use vstd::string::*;
use crate::style::{MarkdownNumbering, NumberingV, clone_opt_string, view_opt_string};
use crate::text::{spec_dec_digits, usize_to_string};

verus! {

/// A white-space classification of one character.
pub uninterp spec fn spec_is_whitespace(c: char) -> bool;

/// Relies on `char::is_whitespace`: whether the character has the Unicode
/// `White_Space` property, a function of the character alone.
pub assume_specification[ char::is_whitespace ](c: char) -> (r: bool)
    ensures
        r == spec_is_whitespace(c),
;

/// Whether every character of `s` is white space; true of the empty string.
pub open spec fn spec_is_blank(s: Seq<char>) -> bool {
    forall|i: int| 0 <= i < s.len() ==> spec_is_whitespace(#[trigger] s[i])
}

/// Whether the string trims to nothing.
pub fn is_blank(s: &String) -> (r: bool)
    ensures
        r == spec_is_blank(s@),
{
    let st = s.as_str();
    let n = st.unicode_len();
    let mut i: usize = 0;
    while i < n
        invariant
            i <= n,
            n == s@.len(),
            st@ == s@,
            forall|k: int| 0 <= k < i ==> spec_is_whitespace(#[trigger] s@[k]),
        decreases n - i,
    {
        let c = st.get_char(i);
        if !c.is_whitespace() {
            return false;
        }
        i = i + 1;
    }
    true
}

/// The numbering formats the renderer distinguishes; every other declared
/// format renders as `Decimal`.
#[derive(Debug, Clone, Copy, PartialEq, Eq, Structural)]
pub enum NumberFormat {
    Decimal,
    UpperRoman,
    LowerRoman,
    UpperLetter,
    LowerLetter,
    Bullet,
}

/// The renderer's reading of a declared format name: the five names with a
/// symbol rendering of their own, and `Decimal` for everything else,
/// unrecognized names included.
pub open spec fn spec_parse_number_format(s: Seq<char>) -> NumberFormat {
    if s == "upperRoman"@ {
        NumberFormat::UpperRoman
    } else if s == "lowerRoman"@ {
        NumberFormat::LowerRoman
    } else if s == "upperLetter"@ {
        NumberFormat::UpperLetter
    } else if s == "lowerLetter"@ {
        NumberFormat::LowerLetter
    } else if s == "bullet"@ {
        NumberFormat::Bullet
    } else {
        NumberFormat::Decimal
    }
}

pub fn parse_number_format(s: &String) -> (r: NumberFormat)
    ensures
        r == spec_parse_number_format(s@),
{
    if s.eq(&String::from_str("upperRoman")) {
        NumberFormat::UpperRoman
    } else if s.eq(&String::from_str("lowerRoman")) {
        NumberFormat::LowerRoman
    } else if s.eq(&String::from_str("upperLetter")) {
        NumberFormat::UpperLetter
    } else if s.eq(&String::from_str("lowerLetter")) {
        NumberFormat::LowerLetter
    } else if s.eq(&String::from_str("bullet")) {
        NumberFormat::Bullet
    } else {
        NumberFormat::Decimal
    }
}

/// One per-list counter: how many items of the list with this id have been
/// rendered so far in the current pass.
#[derive(Debug, Clone, Copy, PartialEq, Eq, Structural)]
pub struct NumberingCounter {
    pub id: isize,
    pub count: usize,
}

/// A counter increment, stopping at the machine bound.
pub open spec fn spec_sat_inc(c: nat) -> nat {
    if c < usize::MAX as nat {
        c + 1
    } else {
        c
    }
}

/// The counter value recorded for `id`: the first entry carrying it, or zero
/// when none does.
pub open spec fn spec_counter_value(cs: Seq<NumberingCounter>, id: int) -> nat
    decreases cs.len(),
{
    if cs.len() == 0 {
        0
    } else if cs[0].id == id {
        cs[0].count as nat
    } else {
        spec_counter_value(cs.skip(1), id)
    }
}

/// The counter table after one item of list `id` has been rendered: the
/// first entry carrying `id` incremented, or a fresh entry appended.
pub open spec fn spec_bump_counter(cs: Seq<NumberingCounter>, id: int) -> Seq<NumberingCounter>
    decreases cs.len(),
{
    if cs.len() == 0 {
        seq![NumberingCounter { id: id as isize, count: 1 }]
    } else if cs[0].id == id {
        seq![
            NumberingCounter { id: cs[0].id, count: spec_sat_inc(cs[0].count as nat) as usize },
        ] + cs.skip(1)
    } else {
        seq![cs[0]] + spec_bump_counter(cs.skip(1), id)
    }
}

proof fn lemma_counter_found(cs: Seq<NumberingCounter>, id: int, j: int)
    requires
        0 <= j < cs.len(),
        cs[j].id == id,
        forall|k: int| 0 <= k < j ==> cs[k].id != id,
    ensures
        spec_counter_value(cs, id) == cs[j].count as nat,
        spec_bump_counter(cs, id) =~= cs.update(
            j,
            NumberingCounter { id: cs[j].id, count: spec_sat_inc(cs[j].count as nat) as usize },
        ),
    decreases j,
{
    if j == 0 {
        assert(spec_bump_counter(cs, id) =~= cs.update(
            0,
            NumberingCounter { id: cs[0].id, count: spec_sat_inc(cs[0].count as nat) as usize },
        ));
    } else {
        lemma_counter_found(cs.skip(1), id, j - 1);
        assert(cs.skip(1)[j - 1] == cs[j]);
        assert(spec_bump_counter(cs, id) =~= cs.update(
            j,
            NumberingCounter { id: cs[j].id, count: spec_sat_inc(cs[j].count as nat) as usize },
        ));
    }
}

proof fn lemma_counter_absent(cs: Seq<NumberingCounter>, id: int)
    requires
        forall|k: int| 0 <= k < cs.len() ==> cs[k].id != id,
    ensures
        spec_counter_value(cs, id) == 0,
        spec_bump_counter(cs, id) =~= cs.push(NumberingCounter { id: id as isize, count: 1 }),
    decreases cs.len(),
{
    if cs.len() > 0 {
        lemma_counter_absent(cs.skip(1), id);
        assert(spec_bump_counter(cs, id) =~= cs.push(
            NumberingCounter { id: id as isize, count: 1 },
        ));
    }
}

/// Read the counter for `id` and advance it by one: the returned value is
/// the pre-increment count, and the first item of a list uses count zero.
pub fn counter_take(counters: &mut Vec<NumberingCounter>, id: isize) -> (count: usize)
    ensures
        count as nat == spec_counter_value(old(counters)@, id as int),
        final(counters)@ == spec_bump_counter(old(counters)@, id as int),
{
    let n = counters.len();
    let mut i: usize = 0;
    while i < n
        invariant
            i <= n,
            n == counters@.len(),
            counters@ == old(counters)@,
            forall|k: int| 0 <= k < i ==> counters@[k].id != id,
        decreases n - i,
    {
        if counters[i].id == id {
            let c = counters[i].count;
            let bumped = if c < usize::MAX {
                c + 1
            } else {
                c
            };
            counters.set(i, NumberingCounter { id, count: bumped });
            proof {
                lemma_counter_found(old(counters)@, id as int, i as int);
            }
            return c;
        }
        i = i + 1;
    }
    counters.push(NumberingCounter { id, count: 1 });
    proof {
        lemma_counter_absent(old(counters)@, id as int);
    }
    0
}

/// The numbering-definition table as a sequence of mathematical entries.
pub open spec fn views_of_numberings(defs: Seq<MarkdownNumbering>) -> Seq<NumberingV> {
    defs.map_values(|d: MarkdownNumbering| d@)
}

/// The format and level text recorded for list `id`: those of the first
/// definition carrying the id, or absent ones when no definition does, in
/// which case the renderer falls back to decimal formatting.
pub open spec fn spec_def_lookup(defs: Seq<NumberingV>, id: int) -> (Option<Seq<char>>, Option<
    Seq<char>,
>)
    decreases defs.len(),
{
    if defs.len() == 0 {
        (Option::None, Option::None)
    } else if defs[0].id == Option::Some(id) {
        (defs[0].format, defs[0].level_text)
    } else {
        spec_def_lookup(defs.skip(1), id)
    }
}

/// Resolve a list id in the numbering-definition table.
pub fn def_lookup(defs: &Vec<MarkdownNumbering>, id: isize) -> (r: (Option<String>, Option<
    String,
>))
    ensures
        view_opt_string(r.0) == spec_def_lookup(views_of_numberings(defs@), id as int).0,
        view_opt_string(r.1) == spec_def_lookup(views_of_numberings(defs@), id as int).1,
{
    let ghost vs = views_of_numberings(defs@);
    let mut i: usize = 0;
    proof {
        assert(vs.skip(0) =~= vs);
    }
    while i < defs.len()
        invariant
            i <= defs@.len(),
            vs == views_of_numberings(defs@),
            spec_def_lookup(vs, id as int) == spec_def_lookup(vs.skip(i as int), id as int),
        decreases defs@.len() - i,
    {
        proof {
            assert(vs.skip(i as int)[0] == vs[i as int]);
            assert(vs.skip(i as int).skip(1) =~= vs.skip(i as int + 1));
        }
        let matches_id = match defs[i].id {
            Some(d) => d == id,
            None => false,
        };
        if matches_id {
            return (
                clone_opt_string(&defs[i].format),
                clone_opt_string(&defs[i].level_text),
            );
        }
        i = i + 1;
    }
    proof {
        assert(vs.skip(i as int).len() == 0);
    }
    (None, None)
}

/// The single wrapped character a letter- or roman-style marker shows for a
/// zero-based count, with `base` the code of the format's first symbol.
/// Counts past the alphabet wrap around the byte range, so very long lists
/// degrade instead of gaining multi-letter symbols.
pub open spec fn spec_letter_marker(base: nat, count: nat) -> Seq<char> {
    seq![((((count % 256) + base) % 256) as u8) as char, '.']
}

/// The marker symbol of one rendered list item: a single wrapped letter or
/// roman character followed by a dot, a bullet dash (or an invisible bullet
/// when the definition's level text is present and blank), or the one-based
/// decimal count followed by a dot.
pub open spec fn spec_marker_symbol(
    format: NumberFormat,
    level_text: Option<Seq<char>>,
    count: nat,
) -> Seq<char> {
    match format {
        NumberFormat::UpperRoman => spec_letter_marker('I' as nat, count),
        NumberFormat::LowerRoman => spec_letter_marker('i' as nat, count),
        NumberFormat::UpperLetter => spec_letter_marker('A' as nat, count),
        NumberFormat::LowerLetter => spec_letter_marker('a' as nat, count),
        NumberFormat::Bullet => match level_text {
            Option::Some(lt) => if spec_is_blank(lt) {
                seq![' ']
            } else {
                seq!['-']
            },
            Option::None => seq!['-'],
        },
        NumberFormat::Decimal => spec_dec_digits(spec_sat_inc(count)) + seq!['.'],
    }
}

fn letter_symbol(base: u8, count: usize) -> (r: String)
    ensures
        r@ == spec_letter_marker(base as nat, count as nat),
{
    let b: u16 = (count % 256) as u16;
    let code: u8 = ((b + base as u16) % 256) as u8;
    let ch = code as char;
    let mut r = String::new();
    r.push(ch);
    r.push('.');
    r
}

/// Render the marker symbol for one list item.
pub fn marker_symbol(format: NumberFormat, level_text: &Option<String>, count: usize) -> (r:
    String)
    ensures
        r@ == spec_marker_symbol(format, crate::style::view_opt_string(*level_text), count as nat),
{
    match format {
        NumberFormat::UpperRoman => letter_symbol(73, count),
        NumberFormat::LowerRoman => letter_symbol(105, count),
        NumberFormat::UpperLetter => letter_symbol(65, count),
        NumberFormat::LowerLetter => letter_symbol(97, count),
        NumberFormat::Bullet => {
            let blank = match level_text {
                Some(lt) => is_blank(lt),
                None => false,
            };
            let mut r = String::new();
            if blank {
                r.push(' ');
            } else {
                r.push('-');
            }
            r
        },
        NumberFormat::Decimal => {
            let shown = if count < usize::MAX {
                count + 1
            } else {
                count
            };
            let mut r = usize_to_string(shown);
            r.push('.');
            r
        },
    }
}

} // verus!

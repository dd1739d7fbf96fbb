//! Lists of seeds as text: on one line with commas between them, or one on
//! each line of a file.

use crate::decimal::{find_byte, first_index_of, parse_unsigned, trim, trimmed, unsigned_value};
use crate::weights::{holds_weight, line_at, next_line};
use vstd::prelude::*;

verus! {

/// Why a text is no list of seeds.
#[derive(Debug, Clone, Copy, PartialEq, Eq, Structural)]
pub enum SeedsError {
    /// The text holds no seed at all.
    Empty,
    /// The text holds something that is no seed. `start` and `end` say
    /// where it stands in the text, white space included.
    InvalidSeed { start: usize, end: usize },
}

/// The seeds between the commas from `from` on, in order, or where the
/// first field stands that is no seed. Text without a comma is one field,
/// and so is what follows the last comma, even if nothing does.
pub open spec fn seeds_from(text: Seq<u8>, from: int) -> Result<Seq<u64>, (int, int)>
    decreases text.len() - from,
{
    let end = first_index_of(text, 0x2c, from);
    match unsigned_value(trimmed(text.subrange(from, end))) {
        None => Err((from, end)),
        Some(seed) => if 0 <= from <= end < text.len() {
            match seeds_from(text, end + 1) {
                Ok(seeds) => Ok(seq![seed] + seeds),
                Err(place) => Err(place),
            }
        } else {
            Ok(seq![seed])
        },
    }
}

/// What a line of seeds holds: the seeds between its commas, or the first
/// reason why not. A line of white space holds none.
pub open spec fn seeds_of_csv(text: Seq<u8>) -> Result<Seq<u64>, SeedsError> {
    if trimmed(text).len() == 0 {
        Err(SeedsError::Empty)
    } else {
        match seeds_from(text, 0) {
            Ok(seeds) => Ok(seeds),
            Err(place) => Err(
                SeedsError::InvalidSeed { start: place.0 as usize, end: place.1 as usize },
            ),
        }
    }
}

/// The seeds read so far, followed by those still to come.
pub open spec fn then_seeds(read: Seq<u64>, rest: Result<Seq<u64>, (int, int)>) -> Result<
    Seq<u64>,
    (int, int),
> {
    match rest {
        Ok(seeds) => Ok(read + seeds),
        Err(place) => Err(place),
    }
}

/// Reads seeds written on one line with commas between them. White space
/// around a seed does not count.
pub fn parse_seeds_csv(value: &[u8]) -> (parsed: Result<Vec<u64>, SeedsError>)
    ensures
        match parsed {
            Ok(seeds) => seeds_of_csv(value@) == Ok::<Seq<u64>, SeedsError>(seeds@),
            Err(error) => seeds_of_csv(value@) == Err::<Seq<u64>, SeedsError>(error),
        },
{
    let (start, stop) = trim(value, 0, value.len());
    assert(value@.subrange(0, value@.len() as int) =~= value@);
    if start == stop {
        return Err(SeedsError::Empty);
    }
    let mut seeds: Vec<u64> = Vec::new();
    let mut from: usize = 0;
    loop
        invariant
            from <= value@.len(),
            trimmed(value@).len() > 0,
            seeds_from(value@, 0) == then_seeds(seeds@, seeds_from(value@, from as int)),
        decreases value@.len() - from,
    {
        let end = find_byte(value, 0x2c, from, value.len());
        assert(value@.subrange(0, value@.len() as int) =~= value@);
        let (field_start, field_stop) = trim(value, from, end);
        let field = vstd::slice::slice_subrange(value, field_start, field_stop);
        let ghost earlier = seeds@;
        match parse_unsigned(field) {
            Some(seed) => {
                seeds.push(seed);
                if end == value.len() {
                    assert(earlier + seq![seed] =~= seeds@);
                    return Ok(seeds);
                }
                proof {
                    let rest = seeds_from(value@, end + 1);
                    if rest is Ok {
                        assert(earlier + (seq![seed] + rest->Ok_0) =~= earlier.push(seed)
                            + rest->Ok_0);
                    }
                }
                from = end + 1;
            },
            None => {
                return Err(SeedsError::InvalidSeed { start: from, end });
            },
        }
    }
}

/// The seeds on the lines from `from` on, in order, or where the first line
/// starts that holds something else. Empty lines and lines that start with
/// `#` hold nothing.
pub open spec fn seed_lines_from(text: Seq<u8>, from: int) -> Result<Seq<u64>, (int, int)>
    decreases text.len() - from,
{
    if from < 0 || from >= text.len() {
        Ok(Seq::empty())
    } else {
        let line = line_at(text, from);
        let rest = seed_lines_from(text, next_line(text, from));
        if !holds_weight(line) {
            rest
        } else {
            match unsigned_value(line) {
                None => Err((from, first_index_of(text, 0x0a, from))),
                Some(seed) => match rest {
                    Ok(seeds) => Ok(seq![seed] + seeds),
                    Err(place) => Err(place),
                },
            }
        }
    }
}

/// What a file of seeds holds: the seeds on its lines, or the first reason
/// why not. A line that is no seed is found before a lack of seeds.
pub open spec fn seeds_of_lines(text: Seq<u8>) -> Result<Seq<u64>, SeedsError> {
    match seed_lines_from(text, 0) {
        Ok(seeds) => if seeds.len() == 0 {
            Err(SeedsError::Empty)
        } else {
            Ok(seeds)
        },
        Err(place) => Err(
            SeedsError::InvalidSeed { start: place.0 as usize, end: place.1 as usize },
        ),
    }
}

/// Reads seeds written one on a line. Empty lines and lines that start
/// with `#` are skipped.
pub fn parse_seeds_lines(text: &[u8]) -> (parsed: Result<Vec<u64>, SeedsError>)
    ensures
        match parsed {
            Ok(seeds) => seeds_of_lines(text@) == Ok::<Seq<u64>, SeedsError>(seeds@),
            Err(error) => seeds_of_lines(text@) == Err::<Seq<u64>, SeedsError>(error),
        },
{
    let mut seeds: Vec<u64> = Vec::new();
    let mut from: usize = 0;
    while from < text.len()
        invariant
            from <= text@.len(),
            seed_lines_from(text@, 0) == then_seeds(seeds@, seed_lines_from(text@, from as int)),
        decreases text@.len() - from,
    {
        let end = find_byte(text, 0x0a, from, text.len());
        assert(text@.subrange(0, text@.len() as int) =~= text@);
        let (start, stop) = trim(text, from, end);
        let ghost earlier = seeds@;
        if stop > start && text[start] != 0x23 {
            let ghost line = text@.subrange(start as int, stop as int);
            assert(line[0] == text@[start as int]);
            let field = vstd::slice::slice_subrange(text, start, stop);
            match parse_unsigned(field) {
                Some(seed) => {
                    seeds.push(seed);
                    proof {
                        let rest = seed_lines_from(text@, next_line(text@, from as int));
                        if rest is Ok {
                            assert(earlier + (seq![seed] + rest->Ok_0) =~= earlier.push(seed)
                                + rest->Ok_0);
                        }
                    }
                },
                None => {
                    return Err(SeedsError::InvalidSeed { start: from, end });
                },
            }
        } else {
            proof {
                if stop > start {
                    let line = text@.subrange(start as int, stop as int);
                    assert(line[0] == text@[start as int]);
                }
            }
        }
        if end == text.len() {
            from = end;
        } else {
            from = end + 1;
        }
    }
    assert(seeds@ + Seq::<u64>::empty() =~= seeds@);
    if seeds.len() == 0 {
        Err(SeedsError::Empty)
    } else {
        Ok(seeds)
    }
}

} // verus!

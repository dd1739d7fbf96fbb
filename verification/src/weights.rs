//! The weight vector of the agent, and how it is kept as text.
//!
//! A weight is a fixed-point number: the integer `w` stands for `w`
//! millionths. A weighted sum of board features is then an integer too, in
//! the same unit, and comparing two of them is exact.
//!
//! As text, a weight vector is a header line `# scoring-mode: <MODE>` and
//! one weight on each line after it. When read, lines that start with `#`
//! are comments, empty lines are skipped, and the header may be missing:
//! the mode is then `full`.

use crate::agent::simulator::ScoringMode;
use crate::decimal::{
    digits_of, find_byte, first_index_of, fixed_text, fixed_value, is_digit, is_space, is_text,
    lemma_digits_of, lemma_first_index_found, lemma_fixed_round_trip, lemma_padded_digits,
    magnitude, padded_digits, parse_fixed, push_fixed, trim, trimmed,
};
use crate::numeric::quotient_towards_zero;
use vstd::prelude::*;

verus! {

/// Number of evaluation function weights.
pub const NUM_WEIGHTS: usize = 16;

/// The fixed-point unit: the integer that stands for 1.
pub const SCALE: i64 = 1_000_000;

/// `base` plus the product of the fixed-point numbers `a` and `b`, the
/// product rounded towards zero and the result kept within `i64`.
pub open spec fn plus_product(base: i64, a: i64, b: i64) -> int {
    let moved = base + quotient_towards_zero(a * b, SCALE as int);
    if moved < i64::MIN {
        i64::MIN as int
    } else if moved > i64::MAX {
        i64::MAX as int
    } else {
        moved
    }
}

/// Adds to `base` the product of the fixed-point numbers `a` and `b`.
pub fn add_product(base: i64, a: i64, b: i64) -> (moved: i64)
    ensures
        moved == plus_product(base, a, b),
{
    assert(-0x8000_0000_0000_0000 * 0x8000_0000_0000_0000 <= a * b <= 0x8000_0000_0000_0000
        * 0x8000_0000_0000_0000) by (nonlinear_arith)
        requires
            -0x8000_0000_0000_0000 <= a < 0x8000_0000_0000_0000,
            -0x8000_0000_0000_0000 <= b < 0x8000_0000_0000_0000,
    ;
    let product: i128 = (a as i128) * (b as i128);
    let step: i128 = if product >= 0 {
        product / 1_000_000
    } else {
        -((-product) / 1_000_000)
    };
    let moved: i128 = base as i128 + step;
    if moved < i64::MIN as i128 {
        i64::MIN
    } else if moved > i64::MAX as i128 {
        i64::MAX
    } else {
        moved as i64
    }
}

/// `# scoring-mode: `, with which the header line starts.
pub const HEADER_PREFIX: [u8; 16] = [
    0x23, 0x20, 0x73, 0x63, 0x6f, 0x72, 0x69, 0x6e, 0x67, 0x2d, 0x6d, 0x6f, 0x64, 0x65, 0x3a, 0x20,
];

/// `full`
pub const NAME_FULL: [u8; 4] = [0x66, 0x75, 0x6c, 0x6c];

/// `heuristics-only`
pub const NAME_HEURISTICS_ONLY: [u8; 15] = [
    0x68, 0x65, 0x75, 0x72, 0x69, 0x73, 0x74, 0x69, 0x63, 0x73, 0x2d, 0x6f, 0x6e, 0x6c, 0x79,
];

/// `rows-only`
pub const NAME_ROWS_ONLY: [u8; 9] = [0x72, 0x6f, 0x77, 0x73, 0x2d, 0x6f, 0x6e, 0x6c, 0x79];

/// Why a text is no weight vector.
#[derive(Debug, Clone, Copy, PartialEq, Eq, Structural)]
pub enum WeightsError {
    /// The header names no scoring mode.
    UnknownMode,
    /// A line that should hold a weight holds something else.
    InvalidWeight,
    /// The text holds so many weights, which is not 16.
    WrongCount { found: usize },
}

/// The scoring mode that the bytes name, if they name one.
pub open spec fn mode_named(name: Seq<u8>) -> Option<ScoringMode> {
    if name == NAME_FULL@ {
        Some(ScoringMode::Full)
    } else if name == NAME_HEURISTICS_ONLY@ {
        Some(ScoringMode::HeuristicsOnly)
    } else if name == NAME_ROWS_ONLY@ {
        Some(ScoringMode::RowsOnly)
    } else {
        None
    }
}

/// The name of a scoring mode, in bytes.
pub open spec fn mode_name(mode: ScoringMode) -> Seq<u8> {
    match mode {
        ScoringMode::Full => NAME_FULL@,
        ScoringMode::HeuristicsOnly => NAME_HEURISTICS_ONLY@,
        ScoringMode::RowsOnly => NAME_ROWS_ONLY@,
    }
}

/// The line that starts at `from`, without the white space at its ends.
pub open spec fn line_at(text: Seq<u8>, from: int) -> Seq<u8> {
    trimmed(text.subrange(from, first_index_of(text, 0x0a, from)))
}

/// Where the line after the one that starts at `from` starts: behind the
/// line feed that ends the line, or at the end of the text if that is
/// where the line ends.
pub open spec fn next_line(text: Seq<u8>, from: int) -> int {
    let end = first_index_of(text, 0x0a, from);
    if from <= end < text.len() {
        end + 1
    } else {
        text.len() as int
    }
}

/// The line holds a weight: it is not empty and no comment.
pub open spec fn holds_weight(line: Seq<u8>) -> bool {
    line.len() > 0 && line[0] != 0x23
}

/// The weights on the lines from `from` on, in order; `None` if one of the
/// lines that should hold a weight holds something else.
pub open spec fn weights_from(text: Seq<u8>, from: int) -> Option<Seq<i64>>
    decreases text.len() - from,
{
    if from < 0 || from >= text.len() {
        Some(Seq::empty())
    } else {
        let line = line_at(text, from);
        let rest = weights_from(text, next_line(text, from));
        if !holds_weight(line) {
            rest
        } else {
            match (fixed_value(line), rest) {
                (Some(weight), Some(weights)) => Some(seq![weight] + weights),
                _ => None,
            }
        }
    }
}

/// The first line from `from` on that is not empty, without the white
/// space at its ends; empty if there is none.
pub open spec fn first_content(text: Seq<u8>, from: int) -> Seq<u8>
    decreases text.len() - from,
{
    if from < 0 || from >= text.len() {
        Seq::empty()
    } else {
        let line = line_at(text, from);
        if line.len() > 0 {
            line
        } else {
            first_content(text, next_line(text, from))
        }
    }
}

/// The line is a header: it starts with `# scoring-mode: `.
pub open spec fn is_header(line: Seq<u8>) -> bool {
    line.len() >= 16 && line.subrange(0, 16) == HEADER_PREFIX@
}

/// The scoring mode of a text: the one its header names, and `full` if its
/// first line that is not empty is no header. `None` if the header names no
/// mode.
pub open spec fn mode_of(text: Seq<u8>) -> Option<ScoringMode> {
    let line = first_content(text, 0);
    if is_header(line) {
        mode_named(trimmed(line.subrange(16, line.len() as int)))
    } else {
        Some(ScoringMode::Full)
    }
}

/// What a text holds: sixteen weights and a scoring mode, or the first
/// reason why not. An unknown mode is found before an invalid weight, and
/// that before a wrong number of weights.
pub open spec fn weights_of(text: Seq<u8>) -> Result<(Seq<i64>, ScoringMode), WeightsError> {
    match mode_of(text) {
        None => Err(WeightsError::UnknownMode),
        Some(mode) => match weights_from(text, 0) {
            None => Err(WeightsError::InvalidWeight),
            Some(weights) => if weights.len() == 16 {
                Ok((weights, mode))
            } else {
                Err(WeightsError::WrongCount { found: weights.len() as usize })
            },
        },
    }
}

/// Reads the name of a scoring mode in `text[from..to]`.
pub fn read_mode(text: &[u8], from: usize, to: usize) -> (mode: Option<ScoringMode>)
    requires
        from <= to <= text@.len(),
    ensures
        mode == mode_named(text@.subrange(from as int, to as int)),
{
    if is_text(text, from, to, NAME_FULL.as_slice()) {
        Some(ScoringMode::Full)
    } else if is_text(text, from, to, NAME_HEURISTICS_ONLY.as_slice()) {
        Some(ScoringMode::HeuristicsOnly)
    } else if is_text(text, from, to, NAME_ROWS_ONLY.as_slice()) {
        Some(ScoringMode::RowsOnly)
    } else {
        None
    }
}

/// Reads the scoring mode of a text from its header, if it has one.
pub fn read_header(text: &[u8]) -> (mode: Option<ScoringMode>)
    ensures
        mode == mode_of(text@),
{
    let mut from: usize = 0;
    while from < text.len()
        invariant
            from <= text@.len(),
            first_content(text@, 0) == first_content(text@, from as int),
        decreases text@.len() - from,
    {
        let end = find_byte(text, 0x0a, from, text.len());
        assert(text@.subrange(0, text@.len() as int) =~= text@);
        let (start, stop) = trim(text, from, end);
        if stop > start {
            let ghost line = text@.subrange(start as int, stop as int);
            if stop - start >= 16 && is_text(text, start, start + 16, HEADER_PREFIX.as_slice()) {
                assert(line.subrange(0, 16) =~= text@.subrange(start as int, start + 16));
                let (name_start, name_stop) = trim(text, start + 16, stop);
                assert(line.subrange(16, line.len() as int) =~= text@.subrange(
                    start + 16,
                    stop as int,
                ));
                return read_mode(text, name_start, name_stop);
            }
            proof {
                if line.len() >= 16 {
                    assert(line.subrange(0, 16) =~= text@.subrange(start as int, start + 16));
                }
            }
            return Some(ScoringMode::Full);
        }
        if end == text.len() {
            from = end;
        } else {
            from = end + 1;
        }
    }
    Some(ScoringMode::Full)
}

/// The weights read so far, followed by those still to come.
pub open spec fn followed_by(read: Seq<i64>, rest: Option<Seq<i64>>) -> Option<Seq<i64>> {
    match rest {
        Some(weights) => Some(read + weights),
        None => None,
    }
}

/// Reads the weights of a text, line by line.
pub fn read_weights(text: &[u8]) -> (weights: Option<Vec<i64>>)
    ensures
        match weights {
            Some(read) => weights_from(text@, 0) == Some(read@),
            None => weights_from(text@, 0) is None,
        },
{
    let mut weights: Vec<i64> = Vec::new();
    let mut from: usize = 0;
    while from < text.len()
        invariant
            from <= text@.len(),
            weights_from(text@, 0) == followed_by(weights@, weights_from(text@, from as int)),
        decreases text@.len() - from,
    {
        let end = find_byte(text, 0x0a, from, text.len());
        assert(text@.subrange(0, text@.len() as int) =~= text@);
        let (start, stop) = trim(text, from, end);
        let ghost rest = weights_from(text@, next_line(text@, from as int));
        let ghost earlier = weights@;
        if stop > start && text[start] != 0x23 {
            let ghost line = text@.subrange(start as int, stop as int);
            assert(line[0] == text@[start as int]);
            let value = {
                let line_bytes = slice_of(text, start, stop);
                parse_fixed(line_bytes)
            };
            match value {
                Some(weight) => {
                    weights.push(weight);
                    proof {
                        if rest is Some {
                            assert(earlier + (seq![weight] + rest.unwrap()) =~= earlier.push(weight)
                                + rest.unwrap());
                        }
                    }
                },
                None => {
                    return None;
                },
            }
        } else {
            proof {
                if stop > start {
                    let line = text@.subrange(start as int, stop as int);
                    assert(line[0] == text@[start as int]);
                }
            }
        }
        if end == text.len() {
            from = end;
        } else {
            from = end + 1;
        }
    }
    assert(weights@ + Seq::<i64>::empty() =~= weights@);
    Some(weights)
}

/// The part `text[from..to]` of a text.
fn slice_of(text: &[u8], from: usize, to: usize) -> (part: &[u8])
    requires
        from <= to <= text@.len(),
    ensures
        part@ == text@.subrange(from as int, to as int),
{
    vstd::slice::slice_subrange(text, from, to)
}

/// Reads a weight vector and its scoring mode from a text.
pub fn parse_weights(text: &[u8]) -> (parsed: Result<([i64; 16], ScoringMode), WeightsError>)
    ensures
        match parsed {
            Ok((weights, mode)) => weights_of(text@) == Ok::<
                (Seq<i64>, ScoringMode),
                WeightsError,
            >((weights@, mode)),
            Err(error) => weights_of(text@) == Err::<(Seq<i64>, ScoringMode), WeightsError>(error),
        },
{
    let mode = match read_header(text) {
        Some(mode) => mode,
        None => {
            return Err(WeightsError::UnknownMode);
        },
    };
    let values = match read_weights(text) {
        Some(values) => values,
        None => {
            return Err(WeightsError::InvalidWeight);
        },
    };
    if values.len() != NUM_WEIGHTS {
        return Err(WeightsError::WrongCount { found: values.len() });
    }
    let mut weights = [0i64; 16];
    let mut i: usize = 0;
    while i < NUM_WEIGHTS
        invariant
            i <= 16,
            values@.len() == 16,
            forall|k: int| 0 <= k < i ==> weights[k] == values@[k],
        decreases 16 - i,
    {
        weights[i] = values[i];
        i += 1;
    }
    assert(weights@ =~= values@);
    Ok((weights, mode))
}

/// The weights `upto` and after as text: each on a line of its own.
pub open spec fn weight_lines(weights: Seq<i64>, upto: int) -> Seq<u8>
    decreases upto,
{
    if upto <= 0 {
        Seq::empty()
    } else {
        (weight_lines(weights, upto - 1) + fixed_text(weights[upto - 1])).push(0x0a)
    }
}

/// A weight vector and its scoring mode as text: the header line and
/// sixteen lines of weights.
pub open spec fn weights_text(weights: Seq<i64>, mode: ScoringMode) -> Seq<u8> {
    (HEADER_PREFIX@ + mode_name(mode)).push(0x0a) + weight_lines(weights, 16)
}

/// Appends every byte of `part` to a text.
fn push_all(out: &mut Vec<u8>, part: &[u8])
    ensures
        final(out)@ == old(out)@ + part@,
{
    let mut i: usize = 0;
    while i < part.len()
        invariant
            i <= part@.len(),
            out@ == old(out)@ + part@.subrange(0, i as int),
        decreases part@.len() - i,
    {
        out.push(part[i]);
        assert(out@ =~= old(out)@ + part@.subrange(0, i + 1));
        i += 1;
    }
    assert(part@.subrange(0, part@.len() as int) =~= part@);
}

/// Writes a weight vector and its scoring mode as text.
pub fn render_weights(weights: &[i64; 16], mode: ScoringMode) -> (text: Vec<u8>)
    ensures
        text@ == weights_text(weights@, mode),
{
    let mut text: Vec<u8> = Vec::new();
    push_all(&mut text, HEADER_PREFIX.as_slice());
    match mode {
        ScoringMode::Full => push_all(&mut text, NAME_FULL.as_slice()),
        ScoringMode::HeuristicsOnly => push_all(&mut text, NAME_HEURISTICS_ONLY.as_slice()),
        ScoringMode::RowsOnly => push_all(&mut text, NAME_ROWS_ONLY.as_slice()),
    }
    text.push(0x0a);
    let ghost head = text@;
    assert(head =~= (HEADER_PREFIX@ + mode_name(mode)).push(0x0a));
    let mut i: usize = 0;
    while i < NUM_WEIGHTS
        invariant
            i <= 16,
            text@ == head + weight_lines(weights@, i as int),
        decreases 16 - i,
    {
        let ghost earlier = text@;
        push_fixed(&mut text, weights[i]);
        text.push(0x0a);
        assert(text@ =~= head + weight_lines(weights@, i + 1));
        i += 1;
    }
    text
}

/// The byte can stand in a number: a digit, a point or a minus sign.
pub open spec fn is_plain(byte: u8) -> bool {
    is_digit(byte) || byte == 0x2e || byte == 0x2d
}

/// The text of a number is not empty and holds nothing but digits, a point
/// and a minus sign.
pub proof fn lemma_fixed_text_is_plain(value: i64)
    ensures
        fixed_text(value).len() > 0,
        forall|i: int| 0 <= i < fixed_text(value).len() ==> is_plain(#[trigger] fixed_text(value)[i]),
{
    let size = magnitude(value);
    let whole = digits_of(size / 1_000_000);
    let fraction = padded_digits(size % 1_000_000, 6);
    lemma_digits_of(size / 1_000_000);
    lemma_padded_digits(size % 1_000_000, 6);
    let text = fixed_text(value);
    let sign = if value < 0 {
        seq![0x2du8]
    } else {
        Seq::<u8>::empty()
    };
    assert(text =~= sign + whole.push(0x2e) + fraction);
    assert forall|i: int| 0 <= i < text.len() implies is_plain(#[trigger] text[i]) by {
        if i < sign.len() {
        } else if i < sign.len() + whole.len() {
            assert(text[i] == whole[i - sign.len()]);
            assert(is_digit(whole[i - sign.len()]));
        } else if i == sign.len() + whole.len() {
        } else {
            assert(text[i] == fraction[i - sign.len() - whole.len() - 1]);
            assert(is_digit(fraction[i - sign.len() - whole.len() - 1]));
        }
    }
}

/// The lines of the first weights are where the lines of more weights
/// start.
pub proof fn lemma_weight_lines_start(weights: Seq<i64>, fewer: int, more: int)
    requires
        0 <= fewer <= more,
    ensures
        weight_lines(weights, fewer).len() <= weight_lines(weights, more).len(),
        weight_lines(weights, more).subrange(0, weight_lines(weights, fewer).len() as int)
            == weight_lines(weights, fewer),
    decreases more - fewer,
{
    if fewer < more {
        lemma_weight_lines_start(weights, fewer, more - 1);
        let shorter = weight_lines(weights, more - 1);
        let longer = weight_lines(weights, more);
        assert(longer =~= (shorter + fixed_text(weights[more - 1])).push(0x0a));
        assert(longer.subrange(0, weight_lines(weights, fewer).len() as int) =~= shorter.subrange(
            0,
            weight_lines(weights, fewer).len() as int,
        ));
    } else {
        assert(weight_lines(weights, more).subrange(0, weight_lines(weights, more).len() as int)
            =~= weight_lines(weights, more));
    }
}

/// A line that holds the text of a number and nothing else gives that
/// number, and the reading goes on behind it.
pub proof fn lemma_weight_line(text: Seq<u8>, from: int, weight: i64)
    requires
        0 <= from,
        from + fixed_text(weight).len() < text.len(),
        text.subrange(from, from + fixed_text(weight).len()) == fixed_text(weight),
        text[from + fixed_text(weight).len()] == 0x0a,
    ensures
        weights_from(text, from) == match weights_from(
            text,
            from + fixed_text(weight).len() + 1,
        ) {
            Some(weights) => Some(seq![weight] + weights),
            None => None,
        },
{
    let line = fixed_text(weight);
    let end = from + line.len();
    lemma_fixed_text_is_plain(weight);
    lemma_fixed_round_trip(weight);
    assert forall|i: int| from <= i < end implies text[i] != 0x0a by {
        assert(text[i] == line[i - from]);
        assert(is_plain(line[i - from]));
    }
    lemma_first_index_found(text, 0x0a, from, end);
    assert(is_plain(line[0]));
    assert(is_plain(line[line.len() - 1]));
    assert(trimmed(line) == line);
    assert(line_at(text, from) == line);
    assert(next_line(text, from) == end + 1);
    assert(holds_weight(line));
}

/// Reading from where the lines of the weights `from` and after start in
/// the text of a weight vector gives those weights.
pub proof fn lemma_weights_read_back(weights: Seq<i64>, mode: ScoringMode, from: int)
    requires
        weights.len() == 16,
        0 <= from <= 16,
    ensures
        weights_from(
            weights_text(weights, mode),
            (HEADER_PREFIX@ + mode_name(mode)).len() + 1 + weight_lines(weights, from).len() as int,
        ) == Some(weights.subrange(from, 16)),
    decreases 16 - from,
{
    let head = (HEADER_PREFIX@ + mode_name(mode)).push(0x0a);
    let text = weights_text(weights, mode);
    let all = weight_lines(weights, 16);
    let start = (head.len() + weight_lines(weights, from).len()) as int;
    lemma_weight_lines_start(weights, from, 16);
    if from == 16 {
        assert(start == text.len());
        assert(weights.subrange(16, 16) =~= Seq::<i64>::empty());
    } else {
        lemma_weights_read_back(weights, mode, from + 1);
        lemma_weight_lines_start(weights, from + 1, 16);
        let line = fixed_text(weights[from]);
        let upto = weight_lines(weights, from + 1);
        assert(upto =~= (weight_lines(weights, from) + line).push(0x0a));
        assert(text.subrange(start, start + line.len()) =~= line) by {
            assert forall|i: int| 0 <= i < line.len() implies text[start + i] == line[i] by {
                assert(text[start + i] == all[weight_lines(weights, from).len() + i]);
                assert(all[weight_lines(weights, from).len() + i] == all.subrange(
                    0,
                    upto.len() as int,
                )[weight_lines(weights, from).len() + i]);
            }
        }
        assert(text[start + line.len()] == 0x0a) by {
            assert(text[start + line.len()] == all[upto.len() - 1]);
            assert(all[upto.len() - 1] == all.subrange(0, upto.len() as int)[upto.len() - 1]);
        }
        lemma_weight_line(text, start, weights[from]);
        assert(seq![weights[from]] + weights.subrange(from + 1, 16) =~= weights.subrange(from, 16));
    }
}

/// What is written is read back: the text of a weight vector holds that
/// vector and its scoring mode.
pub proof fn lemma_weights_round_trip(weights: Seq<i64>, mode: ScoringMode)
    requires
        weights.len() == 16,
    ensures
        weights_of(weights_text(weights, mode)) == Ok::<(Seq<i64>, ScoringMode), WeightsError>(
            (weights, mode),
        ),
{
    let name = mode_name(mode);
    let header = HEADER_PREFIX@ + name;
    let text = weights_text(weights, mode);
    assert(text =~= header.push(0x0a) + weight_lines(weights, 16));
    assert forall|i: int| 0 <= i < header.len() implies text[i] != 0x0a by {
        if i < 16 {
            assert(text[i] == HEADER_PREFIX@[i]);
        } else {
            assert(text[i] == name[i - 16]);
        }
    }
    assert(text[header.len() as int] == 0x0a);
    lemma_first_index_found(text, 0x0a, 0, header.len() as int);
    assert(text.subrange(0, header.len() as int) =~= header);
    assert(header[0] == 0x23);
    assert(!is_space(header[header.len() - 1])) by {
        assert(header[header.len() - 1] == name[name.len() - 1]);
    }
    assert(trimmed(header) == header);
    assert(line_at(text, 0) == header);
    assert(first_content(text, 0) == header);
    assert(header.subrange(0, 16) =~= HEADER_PREFIX@);
    assert(header.subrange(16, header.len() as int) =~= name);
    assert(trimmed(name) == name);
    assert(mode_named(name) == Some(mode));
    assert(mode_of(text) == Some(mode));
    assert(!holds_weight(header));
    assert(next_line(text, 0) == header.len() + 1);
    lemma_weights_read_back(weights, mode, 0);
    assert(weight_lines(weights, 0).len() == 0);
    assert(weights.subrange(0, 16) =~= weights);
}

} // verus!

use vstd::prelude::*;
use vstd::std_specs::iter::IteratorSpec;

use crate::area::Area;
use crate::cell::Cell;
use crate::shapes::HandleError;
use crate::universe::{lemma_index, lemma_index_bound, Grid, Universe};

verus! {

/// Unicode white space, the characters that trimming removes.
pub open spec fn is_space(c: char) -> bool {
    let u = c as u32;
    (0x9 <= u <= 0xD) || u == 0x20 || u == 0x85 || u == 0xA0 || u == 0x1680 || (0x2000 <= u
        <= 0x200A) || u == 0x2028 || u == 0x2029 || u == 0x202F || u == 0x205F || u == 0x3000
}

/// `s` without its leading white space.
pub open spec fn trim_start(s: Seq<char>) -> Seq<char>
    decreases s.len(),
{
    if s.len() > 0 && is_space(s[0]) {
        trim_start(s.drop_first())
    } else {
        s
    }
}

/// `s` without its trailing white space.
pub open spec fn trim_end(s: Seq<char>) -> Seq<char>
    decreases s.len(),
{
    if s.len() > 0 && is_space(s.last()) {
        trim_end(s.drop_last())
    } else {
        s
    }
}

/// `s` without white space at either end.
pub open spec fn trim(s: Seq<char>) -> Seq<char> {
    trim_end(trim_start(s))
}

/// The pieces of `s` between line feeds, in order; text without a line
/// feed is one piece.
pub open spec fn split_lines(s: Seq<char>) -> Seq<Seq<char>>
    decreases s.len(),
{
    if s.len() == 0 {
        seq![Seq::empty()]
    } else {
        let p = split_lines(s.drop_last());
        if s.last() == '\n' {
            p.push(Seq::empty())
        } else {
            p.update(p.len() - 1, p.last().push(s.last()))
        }
    }
}

/// The lines of a pattern text: the text is trimmed, cut at line feeds,
/// and each line trimmed again. Blank text has no lines.
pub open spec fn text_lines(s: Seq<char>) -> Seq<Seq<char>> {
    if trim(s).len() == 0 {
        Seq::empty()
    } else {
        split_lines(trim(s)).map_values(|l: Seq<char>| trim(l))
    }
}

/// A metadata line starts with `!`.
pub open spec fn is_meta(line: Seq<char>) -> bool {
    line.len() > 0 && line[0] == '!'
}

/// The lines that are not metadata, in order: the rows of the shape.
pub open spec fn shape_rows(lines: Seq<Seq<char>>) -> Seq<Seq<char>>
    decreases lines.len(),
{
    if lines.len() == 0 {
        Seq::empty()
    } else if is_meta(lines.last()) {
        shape_rows(lines.drop_last())
    } else {
        shape_rows(lines.drop_last()).push(lines.last())
    }
}

/// The first metadata line, if any.
pub open spec fn first_meta(lines: Seq<Seq<char>>) -> Option<Seq<char>>
    decreases lines.len(),
{
    if lines.len() == 0 {
        None
    } else {
        match first_meta(lines.drop_last()) {
            Some(m) => Some(m),
            None => if is_meta(lines.last()) {
                Some(lines.last())
            } else {
                None
            },
        }
    }
}

/// Length of the longest row, zero for no rows.
pub open spec fn max_len(rows: Seq<Seq<char>>) -> nat
    decreases rows.len(),
{
    if rows.len() == 0 {
        0
    } else if rows.last().len() > max_len(rows.drop_last()) {
        rows.last().len()
    } else {
        max_len(rows.drop_last())
    }
}

/// The state a shape character stands for: `O`, `#` and `1` are alive;
/// `.`, `_`, space and `0` are dead; any other character is none.
pub open spec fn cell_of(c: char) -> Option<Cell> {
    if c == 'O' || c == '#' || c == '1' {
        Some(Cell::Alive)
    } else if c == '.' || c == '_' || c == ' ' || c == '0' {
        Some(Cell::Dead)
    } else {
        None
    }
}

/// The first character of `row` that stands for no state.
pub open spec fn first_bad_char(row: Seq<char>) -> Option<char>
    decreases row.len(),
{
    if row.len() == 0 {
        None
    } else {
        match first_bad_char(row.drop_last()) {
            Some(c) => Some(c),
            None => if cell_of(row.last()) is None {
                Some(row.last())
            } else {
                None
            },
        }
    }
}

/// The first character, row by row, that stands for no state.
pub open spec fn first_bad(rows: Seq<Seq<char>>) -> Option<char>
    decreases rows.len(),
{
    if rows.len() == 0 {
        None
    } else {
        match first_bad(rows.drop_last()) {
            Some(c) => Some(c),
            None => first_bad_char(rows.last()),
        }
    }
}

/// The field tag that names a pattern.
pub open spec fn name_tag() -> Seq<char> {
    seq!['N', 'a', 'm', 'e', ':']
}

/// The name that a metadata line gives: after the `!` and white space, the
/// text that follows `Name:`, trimmed; nothing where the line holds
/// another field.
pub open spec fn name_field(meta: Seq<char>) -> Seq<char> {
    let rest = trim(meta.drop_first());
    if rest.len() >= 5 && rest.take(5) == name_tag() {
        trim(rest.skip(5))
    } else {
        Seq::empty()
    }
}

/// The name of a pattern: the `Name:` field of its first metadata line.
pub open spec fn pattern_name(lines: Seq<Seq<char>>) -> Seq<char> {
    match first_meta(lines) {
        Some(m) => name_field(m),
        None => Seq::empty(),
    }
}

/// The cell stored at `k` of a shape `width` cells wide: the state of the
/// row's character, dead past the end of a short row.
pub open spec fn shape_cell(rows: Seq<Seq<char>>, width: int, k: int) -> Cell {
    let r = k / width;
    let c = k % width;
    if c < rows[r].len() {
        match cell_of(rows[r][c]) {
            Some(x) => x,
            None => Cell::Dead,
        }
    } else {
        Cell::Dead
    }
}

/// The grid that pattern lines describe: as many rows as shape lines, as
/// many columns as the longest of them. Fails with `TooBig` where a
/// dimension exceeds `u16`, else with the first character that stands for
/// no state.
pub open spec fn parse_lines(lines: Seq<Seq<char>>) -> Result<Grid, HandleError> {
    let rows = shape_rows(lines);
    let w = max_len(rows);
    let h = rows.len();
    if w > u16::MAX || h > u16::MAX {
        Err(HandleError::TooBig)
    } else if first_bad(rows) is Some {
        Err(HandleError::ParseError(first_bad(rows)->0))
    } else {
        Ok(
            Grid {
                area: Area { width: w as u16, height: h as u16 },
                cells: Seq::new(w * h, |k: int| shape_cell(rows, w as int, k)),
                name: pattern_name(lines),
            },
        )
    }
}

/// The grid that a pattern text describes.
pub open spec fn parse_text(s: Seq<char>) -> Result<Grid, HandleError> {
    parse_lines(text_lines(s))
}

/// Whether `r` is what parsing promised: a well-formed grid on success.
pub open spec fn parsed_as(r: Result<Universe, HandleError>, p: Result<Grid, HandleError>) -> bool {
    match r {
        Ok(u) => p == Ok::<Grid, HandleError>(u@) && u.wf(),
        Err(e) => p == Err::<Grid, HandleError>(e),
    }
}


/// The characters of `s`, in order.
pub fn chars_of(s: &str) -> (r: Vec<char>)
    ensures
        r@ == s@,
{
    broadcast use vstd::string::axiom_spec_iter, vstd::string::next_postcondition;

    let mut it = s.chars();
    let mut r: Vec<char> = Vec::new();
    loop
        invariant
            r@ + it.remaining() == s@,
            it.obeys_prophetic_iter_laws(),
            it.decrease() is Some,
        ensures
            r@ == s@,
        decreases it.decrease()->0,
    {
        let ghost before = it.remaining();
        match it.next() {
            Some(c) => {
                assert(before =~= seq![c] + it.remaining());
                r.push(c);
                assert(r@ + it.remaining() =~= s@);
            },
            None => {
                assert(r@ =~= s@);
                break ;
            },
        }
    }
    r
}

fn is_space_char(c: char) -> (r: bool)
    ensures
        r == is_space(c),
{
    let u = c as u32;
    (0x9 <= u && u <= 0xD) || u == 0x20 || u == 0x85 || u == 0xA0 || u == 0x1680 || (0x2000 <= u
        && u <= 0x200A) || u == 0x2028 || u == 0x2029 || u == 0x202F || u == 0x205F || u == 0x3000
}

/// Bounds of `v[lo..hi]` trimmed.
fn trim_range(v: &Vec<char>, lo: usize, hi: usize) -> (r: (usize, usize))
    requires
        lo <= hi <= v@.len(),
    ensures
        lo <= r.0 <= r.1 <= hi,
        v@.subrange(r.0 as int, r.1 as int) == trim(v@.subrange(lo as int, hi as int)),
{
    let mut a = lo;
    while a < hi && is_space_char(v[a])
        invariant
            lo <= a <= hi <= v@.len(),
            trim_start(v@.subrange(lo as int, hi as int)) == trim_start(
                v@.subrange(a as int, hi as int),
            ),
        decreases hi - a,
    {
        assert(v@.subrange(a as int, hi as int).drop_first() =~= v@.subrange(
            a + 1,
            hi as int,
        ));
        a += 1;
    }
    let mut b = hi;
    while b > a && is_space_char(v[b - 1])
        invariant
            lo <= a <= b <= hi <= v@.len(),
            trim_start(v@.subrange(lo as int, hi as int)) == v@.subrange(a as int, hi as int),
            trim(v@.subrange(lo as int, hi as int)) == trim_end(v@.subrange(a as int, b as int)),
        decreases b - a,
    {
        assert(v@.subrange(a as int, b as int).drop_last() =~= v@.subrange(a as int, b - 1));
        b -= 1;
    }
    (a, b)
}

fn cell_from_char(c: char) -> (r: Option<Cell>)
    ensures
        r == cell_of(c),
{
    if c == 'O' || c == '#' || c == '1' {
        Some(Cell::Alive)
    } else if c == '.' || c == '_' || c == ' ' || c == '0' {
        Some(Cell::Dead)
    } else {
        None
    }
}


/// The character sequences of `lines`.
pub open spec fn views(lines: Seq<Vec<char>>) -> Seq<Seq<char>> {
    lines.map_values(|v: Vec<char>| v@)
}

/// The texts of `lines`.
pub open spec fn string_views(lines: Seq<String>) -> Seq<Seq<char>> {
    lines.map_values(|l: String| l@)
}

proof fn lemma_no_bad_char(s: Seq<char>)
    requires
        forall|j: int| 0 <= j < s.len() ==> cell_of(#[trigger] s[j]) is Some,
    ensures
        first_bad_char(s) is None,
    decreases s.len(),
{
    if s.len() > 0 {
        lemma_no_bad_char(s.drop_last());
    }
}

proof fn lemma_first_bad_char(s: Seq<char>, c: int)
    requires
        0 <= c < s.len(),
        forall|j: int| 0 <= j < c ==> cell_of(#[trigger] s[j]) is Some,
        cell_of(s[c]) is None,
    ensures
        first_bad_char(s) == Some(s[c]),
    decreases s.len(),
{
    if c == s.len() - 1 {
        lemma_no_bad_char(s.drop_last());
    } else {
        lemma_first_bad_char(s.drop_last(), c);
    }
}

proof fn lemma_no_bad(rows: Seq<Seq<char>>)
    requires
        forall|t: int| 0 <= t < rows.len() ==> first_bad_char(#[trigger] rows[t]) is None,
    ensures
        first_bad(rows) is None,
    decreases rows.len(),
{
    if rows.len() > 0 {
        lemma_no_bad(rows.drop_last());
    }
}

proof fn lemma_first_bad(rows: Seq<Seq<char>>, r: int)
    requires
        0 <= r < rows.len(),
        forall|t: int| 0 <= t < r ==> first_bad_char(#[trigger] rows[t]) is None,
        first_bad_char(rows[r]) is Some,
    ensures
        first_bad(rows) == first_bad_char(rows[r]),
    decreases rows.len(),
{
    if r == rows.len() - 1 {
        lemma_no_bad(rows.drop_last());
    } else {
        lemma_first_bad(rows.drop_last(), r);
    }
}

/// Where the shape rows of `lines` are, and the first metadata line.
fn classify_lines(lines: &Vec<Vec<char>>) -> (r: (Vec<usize>, Option<usize>, usize))
    ensures
        r.0@.len() == shape_rows(views(lines@)).len(),
        forall|t: int|
            0 <= t < r.0@.len() ==> #[trigger] r.0@[t] < lines@.len() && lines@[r.0@[t] as int]@
                == shape_rows(views(lines@))[t],
        match r.1 {
            Some(k) => k < lines@.len() && first_meta(views(lines@)) == Some(lines@[k as int]@),
            None => first_meta(views(lines@)) is None,
        },
        r.2 == max_len(shape_rows(views(lines@))),
{
    let ghost ls = views(lines@);
    let mut rows: Vec<usize> = Vec::new();
    let mut meta: Option<usize> = None;
    let mut width: usize = 0;
    let mut i: usize = 0;
    while i < lines.len()
        invariant
            ls == views(lines@),
            i <= lines@.len(),
            rows@.len() == shape_rows(ls.take(i as int)).len(),
            forall|t: int|
                0 <= t < rows@.len() ==> #[trigger] rows@[t] < i && lines@[rows@[t] as int]@
                    == shape_rows(ls.take(i as int))[t],
            match meta {
                Some(k) => k < i && first_meta(ls.take(i as int)) == Some(lines@[k as int]@),
                None => first_meta(ls.take(i as int)) is None,
            },
            width == max_len(shape_rows(ls.take(i as int))),
        decreases lines@.len() - i,
    {
        let ghost prev = ls.take(i as int);
        assert(ls.take(i + 1).drop_last() =~= prev);
        assert(ls.take(i + 1).last() == lines@[i as int]@);
        let line = &lines[i];
        let meta_line = line.len() > 0 && line[0] == '!';
        if meta_line {
            if meta.is_none() {
                meta = Some(i);
            }
        } else {
            proof {
                let sr = shape_rows(prev);
                assert(sr.push(line@).drop_last() =~= sr);
            }
            rows.push(i);
            if line.len() > width {
                width = line.len();
            }
        }
        i += 1;
    }
    assert(ls.take(i as int) =~= ls);
    (rows, meta, width)
}

/// The area and cells that the shape rows of `lines` describe, and the
/// first metadata line.
fn parse_char_lines(lines: &Vec<Vec<char>>) -> (r: (Result<(Area, Vec<Cell>), HandleError>, Option<usize>))
    ensures
        match r.1 {
            Some(k) => k < lines@.len() && first_meta(views(lines@)) == Some(lines@[k as int]@),
            None => first_meta(views(lines@)) is None,
        },
        match r.0 {
            Ok((area, cells)) => parse_lines(views(lines@)) is Ok && parse_lines(views(lines@))->Ok_0.area
                == area && parse_lines(views(lines@))->Ok_0.cells == cells@,
            Err(e) => parse_lines(views(lines@)) == Err::<Grid, HandleError>(e),
        },
{
    let ghost ls = views(lines@);
    let ghost rows = shape_rows(ls);
    let (idx, meta, width) = classify_lines(lines);
    let height = idx.len();
    if width > 0xFFFF || height > 0xFFFF {
        return (Err(HandleError::TooBig), meta);
    }
    let ghost target = Seq::new(width as nat * height as nat, |k: int| shape_cell(rows, width as int, k));
    let mut cells: Vec<Cell> = Vec::new();
    let mut r: usize = 0;
    while r < height
        invariant
            ls == views(lines@),
            rows == shape_rows(ls),
            match meta {
                Some(k) => k < lines@.len() && first_meta(ls) == Some(lines@[k as int]@),
                None => first_meta(ls) is None,
            },
            idx@.len() == rows.len(),
            height == rows.len(),
            forall|t: int|
                0 <= t < idx@.len() ==> #[trigger] idx@[t] < lines@.len() && lines@[idx@[t] as int]@
                    == rows[t],
            width == max_len(rows),
            width <= 0xFFFF,
            height <= 0xFFFF,
            target == Seq::new(width as nat * height as nat, |k: int| shape_cell(rows, width as int, k)),
            r <= height,
            cells@.len() == r * width,
            target.len() == width * height,
            forall|k: int| 0 <= k < cells@.len() ==> cells@[k] == target[k],
            forall|t: int| 0 <= t < r ==> first_bad_char(#[trigger] rows[t]) is None,
        decreases height - r,
    {
        let line = &lines[idx[r]];
        proof {
            lemma_max_len(rows, r as int);
        }
        let mut c: usize = 0;
        while c < width
            invariant
                ls == views(lines@),
                rows == shape_rows(ls),
                match meta {
                    Some(k) => k < lines@.len() && first_meta(ls) == Some(lines@[k as int]@),
                    None => first_meta(ls) is None,
                },
                idx@.len() == rows.len(),
                height == rows.len(),
                forall|t: int|
                    0 <= t < idx@.len() ==> #[trigger] idx@[t] < lines@.len() && lines@[idx@[t] as int]@
                        == rows[t],
                line@ == rows[r as int],
                line@.len() <= width,
                width == max_len(rows),
                width <= 0xFFFF,
                height <= 0xFFFF,
                target == Seq::new(width as nat * height as nat, |k: int| shape_cell(rows, width as int, k)),
                r < height,
                c <= width,
                cells@.len() == r * width + c,
                target.len() == width * height,
            forall|k: int| 0 <= k < cells@.len() ==> cells@[k] == target[k],
                forall|t: int| 0 <= t < r ==> first_bad_char(#[trigger] rows[t]) is None,
                forall|j: int| 0 <= j < c && j < line@.len() ==> cell_of(#[trigger] line@[j]) is Some,
            decreases width - c,
        {
            proof {
                lemma_index(r as int, c as int, width as int);
                lemma_index_bound(r as int, c as int, width as int, height as int);
                assert(width as nat * height as nat == width * height);
            }
            if c < line.len() {
                match cell_from_char(line[c]) {
                    Some(x) => {
                        cells.push(x);
                    },
                    None => {
                        proof {
                            lemma_first_bad_char(line@, c as int);
                            lemma_first_bad(rows, r as int);
                        }
                        return (Err(HandleError::ParseError(line[c])), meta);
                    },
                }
            } else {
                cells.push(Cell::Dead);
            }
            c += 1;
        }
        proof {
            lemma_no_bad_char(line@);
            assert(r * width + width == (r + 1) * width) by (nonlinear_arith);
        }
        r += 1;
    }
    proof {
        lemma_no_bad(rows);
        assert(width as nat * height as nat == height * width) by (nonlinear_arith);
        assert(cells@ =~= target);
    }
    (Ok((Area { width: width as u16, height: height as u16 }, cells)), meta)
}

/// Every shape row is at most as long as the longest.
proof fn lemma_max_len(rows: Seq<Seq<char>>, t: int)
    requires
        0 <= t < rows.len(),
    ensures
        rows[t].len() <= max_len(rows),
    decreases rows.len(),
{
    if t < rows.len() - 1 {
        lemma_max_len(rows.drop_last(), t);
    }
}


/// Bounds of the name that the metadata line `line` gives.
fn name_range(line: &Vec<char>) -> (r: (usize, usize))
    requires
        line@.len() > 0,
    ensures
        r.0 <= r.1 <= line@.len(),
        line@.subrange(r.0 as int, r.1 as int) == name_field(line@),
{
    let (a, b) = trim_range(line, 1, line.len());
    assert(line@.drop_first() =~= line@.subrange(1, line@.len() as int));
    let ghost rest = line@.subrange(a as int, b as int);
    if b - a >= 5 && line[a] == 'N' && line[a + 1] == 'a' && line[a + 2] == 'm' && line[a + 3]
        == 'e' && line[a + 4] == ':' {
        assert(rest.take(5) =~= name_tag());
        assert(rest.skip(5) =~= line@.subrange(a + 5, b as int));
        trim_range(line, a + 5, b)
    } else {
        assert(rest.len() >= 5 ==> rest.take(5)[0] == rest[0] && rest.take(5)[1] == rest[1]
            && rest.take(5)[2] == rest[2] && rest.take(5)[3] == rest[3] && rest.take(5)[4]
            == rest[4]);
        assert(Seq::<char>::empty() =~= line@.subrange(0, 0));
        (0, 0)
    }
}

/// A copy of `v[a..b]`.
fn copy_range(v: &Vec<char>, a: usize, b: usize) -> (r: Vec<char>)
    requires
        a <= b <= v@.len(),
    ensures
        r@ == v@.subrange(a as int, b as int),
{
    let mut r: Vec<char> = Vec::new();
    let mut i = a;
    while i < b
        invariant
            a <= i <= b <= v@.len(),
            r@ == v@.subrange(a as int, i as int),
        decreases b - i,
    {
        r.push(v[i]);
        i += 1;
        assert(r@ =~= v@.subrange(a as int, i as int));
    }
    r
}

/// The lines of the text `chars`, as `text_lines` gives them, with where
/// each starts in `chars`.
fn lines_of(chars: &Vec<char>) -> (r: (Vec<Vec<char>>, Vec<usize>))
    ensures
        views(r.0@) == text_lines(chars@),
        r.1@.len() == r.0@.len(),
        forall|t: int|
            0 <= t < r.0@.len() ==> #[trigger] r.1@[t] + r.0@[t]@.len() <= chars@.len()
                && chars@.subrange(r.1@[t] as int, r.1@[t] + r.0@[t]@.len()) == r.0@[t]@,
{
    let (lo, hi) = trim_range(chars, 0, chars.len());
    assert(chars@.subrange(0, chars@.len() as int) =~= chars@);
    let mut lines: Vec<Vec<char>> = Vec::new();
    let mut starts: Vec<usize> = Vec::new();
    if lo == hi {
        assert(views(lines@) =~= text_lines(chars@));
        return (lines, starts);
    }
    let mut start = lo;
    let mut k = lo;
    while k < hi
        invariant
            lo <= start <= k <= hi <= chars@.len(),
            split_lines(chars@.subrange(lo as int, k as int)).len() == lines@.len() + 1,
            split_lines(chars@.subrange(lo as int, k as int)).last() == chars@.subrange(
                start as int,
                k as int,
            ),
            forall|t: int|
                0 <= t < lines@.len() ==> #[trigger] lines@[t]@ == trim(
                    split_lines(chars@.subrange(lo as int, k as int))[t],
                ),
            starts@.len() == lines@.len(),
            forall|t: int|
                0 <= t < lines@.len() ==> #[trigger] starts@[t] + lines@[t]@.len() <= chars@.len()
                    && chars@.subrange(starts@[t] as int, starts@[t] + lines@[t]@.len())
                    == lines@[t]@,
        decreases hi - k,
    {
        let ghost prev = split_lines(chars@.subrange(lo as int, k as int));
        assert(chars@.subrange(lo as int, k + 1).drop_last() =~= chars@.subrange(lo as int, k as int));
        if chars[k] == '\n' {
            let (a, b) = trim_range(chars, start, k);
            lines.push(copy_range(chars, a, b));
            starts.push(a);
            start = k + 1;
            assert(Seq::<char>::empty() =~= chars@.subrange(start as int, k + 1));
        } else {
            assert(prev.last().push(chars@[k as int]) =~= chars@.subrange(start as int, k + 1));
        }
        k += 1;
    }
    let (a, b) = trim_range(chars, start, hi);
    lines.push(copy_range(chars, a, b));
    starts.push(a);
    assert(views(lines@) =~= text_lines(chars@));
    (lines, starts)
}

impl Universe {
    /// Parses pattern lines: lines that start with `!` are metadata, the
    /// first of them may give the name in a `Name:` field; the others are
    /// the rows of the shape, each character `O`, `#` or `1` for a live
    /// cell and `.`, `_`, space or `0` for a dead one. Rows shorter than
    /// the longest are padded with dead cells.
    pub fn from_vec_str(lines: &[String]) -> (r: Result<Universe, HandleError>)
        ensures
            parsed_as(r, parse_lines(string_views(lines@))),
    {
        let mut cl: Vec<Vec<char>> = Vec::new();
        let mut i: usize = 0;
        while i < lines.len()
            invariant
                i <= lines@.len(),
                cl@.len() == i,
                forall|t: int| 0 <= t < i ==> #[trigger] cl@[t]@ == lines@[t]@,
            decreases lines@.len() - i,
        {
            cl.push(chars_of(lines[i].as_str()));
            i += 1;
        }
        assert(views(cl@) =~= string_views(lines@));
        let (res, meta) = parse_char_lines(&cl);
        match res {
            Err(e) => Err(e),
            Ok((area, cells)) => {
                let name = match meta {
                    Some(k) => {
                        proof {
                            lemma_first_meta_is_meta(views(cl@));
                        }
                        let (a, b) = name_range(&cl[k]);
                        lines[k].as_str().substring_char(a, b).to_owned()
                    },
                    None => String::new(),
                };
                proof {
                    lemma_cells_len(views(cl@));
                }
                Ok(Universe { area, cells, name })
            },
        }
    }

    /// Parses a pattern text: the text is trimmed and cut into lines, each
    /// line trimmed, and the lines parsed as `from_vec_str` does.
    pub fn from_str(s: &str) -> (r: Result<Universe, HandleError>)
        ensures
            parsed_as(r, parse_text(s@)),
    {
        let chars = chars_of(s);
        // the text's length bounds the offsets of its lines
        let _n = chars.len();
        let (cl, starts) = lines_of(&chars);
        let (res, meta) = parse_char_lines(&cl);
        match res {
            Err(e) => Err(e),
            Ok((area, cells)) => {
                let name = match meta {
                    Some(k) => {
                        proof {
                            lemma_first_meta_is_meta(views(cl@));
                        }
                        let (a, b) = name_range(&cl[k]);
                        let ghost line = cl@[k as int]@;
                        assert(chars@.subrange(starts@[k as int] + a, starts@[k as int] + b)
                            =~= line.subrange(a as int, b as int));
                        s.substring_char(starts[k] + a, starts[k] + b).to_owned()
                    },
                    None => String::new(),
                };
                proof {
                    lemma_cells_len(views(cl@));
                }
                Ok(Universe { area, cells, name })
            },
        }
    }
}

/// The first metadata line starts with `!`.
proof fn lemma_first_meta_is_meta(lines: Seq<Seq<char>>)
    ensures
        first_meta(lines) matches Some(m) ==> is_meta(m),
    decreases lines.len(),
{
    if lines.len() > 0 {
        lemma_first_meta_is_meta(lines.drop_last());
    }
}

/// A parsed grid holds one cell per position.
proof fn lemma_cells_len(lines: Seq<Seq<char>>)
    requires
        parse_lines(lines) is Ok,
    ensures
        parse_lines(lines)->Ok_0.wf(),
{
    let rows = shape_rows(lines);
    let w = max_len(rows);
    let h = rows.len();
    assert(w * h == (w as u16 as nat) * (h as u16 as nat));
}

} // verus!

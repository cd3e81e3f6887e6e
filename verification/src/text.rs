//! Text as a sequence of characters: substrings and lines.

use vstd::prelude::*;
use vstd::string::{StrSliceExecFns, StringExecFns};

verus! {

/// Whether `needle` stands in `hay` at position `at`.
pub open spec fn occurs_at(hay: Seq<char>, needle: Seq<char>, at: int) -> bool {
    0 <= at && at + needle.len() <= hay.len() && hay.subrange(at, at + needle.len()) == needle
}

/// Whether `needle` stands somewhere in `hay`. The empty text stands in
/// every text.
pub open spec fn occurs_in(hay: Seq<char>, needle: Seq<char>) -> bool {
    exists|at: int| occurs_at(hay, needle, at)
}

/// The length of the first line of `text`: the position of its first line
/// feed, or its length where it has none.
pub open spec fn line_end(text: Seq<char>) -> int
    decreases text.len(),
{
    if text.len() == 0 || text[0] == '\n' {
        0
    } else {
        1 + line_end(text.drop_first())
    }
}

/// `line` without the carriage return at its end, if it has one.
pub open spec fn without_cr(line: Seq<char>) -> Seq<char> {
    if line.len() > 0 && line.last() == '\r' {
        line.drop_last()
    } else {
        line
    }
}

/// The lines of `text`. A line ends with a line feed, or with a carriage
/// return and a line feed; neither belongs to the line. The last line needs
/// no ending, and nothing follows a final line ending.
pub open spec fn lines_of(text: Seq<char>) -> Seq<Seq<char>>
    decreases text.len(),
{
    if text.len() == 0 {
        Seq::empty()
    } else {
        let end = line_end(text);
        if end < 0 || end >= text.len() {
            seq![text]
        } else {
            seq![without_cr(text.subrange(0, end))] + lines_of(
                text.subrange(end + 1, text.len() as int),
            )
        }
    }
}

/// The first line feed of `text` is where a scan from the front finds it.
pub proof fn lemma_line_end(text: Seq<char>, end: int)
    requires
        0 <= end <= text.len(),
        forall|i: int| 0 <= i < end ==> text[i] != '\n',
        end < text.len() ==> text[end] == '\n',
    ensures
        line_end(text) == end,
    decreases end,
{
    if end > 0 {
        let rest = text.drop_first();
        assert forall|i: int| 0 <= i < end - 1 implies rest[i] != '\n' by {
            assert(rest[i] == text[i + 1]);
        }
        lemma_line_end(rest, end - 1);
    }
}

/// The characters of `s`, one by one.
pub fn chars_of(s: &str) -> (chars: Vec<char>)
    ensures
        chars@ == s@,
{
    let mut chars: Vec<char> = Vec::new();
    for c in it: s.chars()
        invariant
            it.seq() == s@,
            chars@ == s@.take(it.index() as int),
    {
        assert(s@.take(it.index() + 1) =~= s@.take(it.index() as int).push(c));
        chars.push(c);
    }
    assert(s@.take(s@.len() as int) =~= s@);
    chars
}

/// Whether `needle` stands in `hay[from..to]` at position `at` of it.
pub fn matches_at(hay: &Vec<char>, from: usize, to: usize, needle: &Vec<char>, at: usize) -> (found:
    bool)
    requires
        from <= to <= hay.len(),
        from + at + needle.len() <= to,
    ensures
        found == occurs_at(hay@.subrange(from as int, to as int), needle@, at as int),
{
    let ghost window = hay@.subrange(from as int, to as int);
    let mut k: usize = 0;
    while k < needle.len()
        invariant
            from <= to <= hay.len(),
            from + at + needle.len() <= to,
            window == hay@.subrange(from as int, to as int),
            k <= needle.len(),
            forall|j: int| 0 <= j < k ==> window[at + j] == needle[j],
        decreases needle.len() - k,
    {
        if hay[from + at + k] != needle[k] {
            assert(window[at + k] == hay[from + at + k]);
            assert(window.subrange(at as int, at + needle.len())[k as int] == window[at + k]);
            return false;
        }
        assert(window[at + k] == hay[from + at + k]);
        k += 1;
    }
    assert(window.subrange(at as int, at + needle.len()) =~= needle@);
    true
}

/// Whether `needle` stands somewhere in `hay[from..to]`.
pub fn window_contains(hay: &Vec<char>, from: usize, to: usize, needle: &Vec<char>) -> (found:
    bool)
    requires
        from <= to <= hay.len(),
    ensures
        found == occurs_in(hay@.subrange(from as int, to as int), needle@),
{
    let ghost window = hay@.subrange(from as int, to as int);
    if needle.len() > to - from {
        assert(!occurs_in(window, needle@));
        return false;
    }
    if needle.len() == 0 {
        assert(window.subrange(0, 0) =~= needle@);
        assert(occurs_at(window, needle@, 0));
        return true;
    }
    let last = to - from - needle.len();
    let mut at: usize = 0;
    while at <= last
        invariant
            from <= to <= hay.len(),
            1 <= needle.len() <= to - from,
            last == to - from - needle.len(),
            window == hay@.subrange(from as int, to as int),
            at <= last + 1,
            forall|j: int| 0 <= j < at ==> !occurs_at(window, needle@, j),
        decreases last + 1 - at,
    {
        if matches_at(hay, from, to, needle, at) {
            return true;
        }
        at += 1;
    }
    assert(!occurs_in(window, needle@));
    false
}

/// Whether `needle` stands somewhere in `hay`.
pub fn contains(hay: &str, needle: &str) -> (found: bool)
    ensures
        found == occurs_in(hay@, needle@),
{
    let h = chars_of(hay);
    let n = chars_of(needle);
    assert(h@.subrange(0, h@.len() as int) =~= h@);
    window_contains(&h, 0, h.len(), &n)
}

/// Filtering a sequence with one more element keeps what was kept, and the
/// new element where it qualifies.
pub proof fn lemma_filter_push<A>(s: Seq<A>, x: A, keep: spec_fn(A) -> bool)
    ensures
        s.push(x).filter(keep) == if keep(x) {
            s.filter(keep).push(x)
        } else {
            s.filter(keep)
        },
{
    reveal(Seq::filter);
    assert(s.push(x).drop_last() =~= s);
}

/// Where each line of `text` starts and ends, as positions in `text`.
pub fn line_bounds(text: &Vec<char>) -> (bounds: Vec<(usize, usize)>)
    ensures
        bounds@.len() == lines_of(text@).len(),
        forall|i: int|
            0 <= i < bounds@.len() ==> (#[trigger] bounds@[i]).0 <= bounds@[i].1 <= text@.len()
                && text@.subrange(bounds@[i].0 as int, bounds@[i].1 as int) == lines_of(text@)[i],
{
    let n = text.len();
    let mut bounds: Vec<(usize, usize)> = Vec::new();
    let mut start: usize = 0;
    let ghost mut done: Seq<Seq<char>> = Seq::empty();
    proof {
        assert(text@.subrange(0, n as int) =~= text@);
    }
    while start < n
        invariant
            n == text.len(),
            start <= n,
            lines_of(text@) == done + lines_of(text@.subrange(start as int, n as int)),
            bounds@.len() == done.len(),
            forall|i: int|
                0 <= i < bounds@.len() ==> (#[trigger] bounds@[i]).0 <= bounds@[i].1 <= n
                    && text@.subrange(bounds@[i].0 as int, bounds@[i].1 as int) == done[i],
        decreases n - start,
    {
        let ghost rest = text@.subrange(start as int, n as int);
        let mut end: usize = start;
        while end < n && text[end] != '\n'
            invariant
                n == text.len(),
                start <= end <= n,
                forall|j: int| start <= j < end ==> text@[j] != '\n',
            decreases n - end,
        {
            end += 1;
        }
        proof {
            assert forall|i: int| 0 <= i < end - start implies rest[i] != '\n' by {
                assert(rest[i] == text@[start + i]);
            }
            lemma_line_end(rest, end - start);
        }
        if end == n {
            bounds.push((start, n));
            proof {
                assert(lines_of(rest) == seq![rest]);
                assert(lines_of(text@.subrange(n as int, n as int)) == Seq::<Seq<char>>::empty());
                assert(done + seq![rest] =~= done.push(rest) + Seq::<Seq<char>>::empty());
                done = done.push(rest);
            }
            start = n;
        } else {
            let stop = if end > start && text[end - 1] == '\r' {
                end - 1
            } else {
                end
            };
            bounds.push((start, stop));
            proof {
                let raw = rest.subrange(0, end - start);
                let line = without_cr(raw);
                assert(raw =~= text@.subrange(start as int, end as int));
                assert(line =~= text@.subrange(start as int, stop as int));
                let tail = rest.subrange(end - start + 1, rest.len() as int);
                assert(tail =~= text@.subrange(end + 1, n as int));
                assert(lines_of(rest) == seq![line] + lines_of(tail));
                assert(done + (seq![line] + lines_of(tail)) =~= done.push(line) + lines_of(tail));
                done = done.push(line);
            }
            start = end + 1;
        }
    }
    proof {
        assert(lines_of(text@.subrange(n as int, n as int)) == Seq::<Seq<char>>::empty());
        assert(done + Seq::<Seq<char>>::empty() =~= done);
    }
    bounds
}

/// The texts of some string slices.
pub open spec fn texts(lines: Seq<&str>) -> Seq<Seq<char>> {
    lines.map_values(|line: &str| line@)
}

/// The lines of `text`, as slices of it.
pub fn lines<'a>(text: &'a str) -> (found: Vec<&'a str>)
    ensures
        texts(found@) == lines_of(text@),
{
    let chars = chars_of(text);
    let bounds = line_bounds(&chars);
    let mut found: Vec<&'a str> = Vec::new();
    let mut i: usize = 0;
    while i < bounds.len()
        invariant
            chars@ == text@,
            bounds@.len() == lines_of(text@).len(),
            forall|i: int|
                0 <= i < bounds@.len() ==> (#[trigger] bounds@[i]).0 <= bounds@[i].1
                    <= text@.len() && text@.subrange(bounds@[i].0 as int, bounds@[i].1 as int)
                    == lines_of(text@)[i],
            i <= bounds.len(),
            texts(found@) == lines_of(text@).take(i as int),
        decreases bounds.len() - i,
    {
        let (from, to) = bounds[i];
        let line = text.substring_char(from, to);
        let ghost before = found@;
        found.push(line);
        proof {
            assert(texts(found@) =~= texts(before).push(line@));
            assert(lines_of(text@).take(i + 1) =~= lines_of(text@).take(i as int).push(line@));
        }
        i += 1;
    }
    proof {
        assert(lines_of(text@).take(i as int) =~= lines_of(text@));
    }
    found
}

/// The last character of the first line of `text`, if `text` has a line
/// and its first line a character.
pub open spec fn last_char_of_first_line_spec(text: Seq<char>) -> Option<char> {
    if lines_of(text).len() == 0 || lines_of(text)[0].len() == 0 {
        None
    } else {
        Some(lines_of(text)[0].last())
    }
}

/// The last character of the first line of `text`, if `text` has a line
/// and its first line a character.
pub fn last_char_of_first_line(text: &str) -> (last: Option<char>)
    ensures
        last == last_char_of_first_line_spec(text@),
{
    let all = lines(text);
    if all.len() == 0 {
        return None;
    }
    assert(texts(all@)[0] == all@[0]@);
    let first = chars_of(all[0]);
    if first.len() == 0 {
        None
    } else {
        Some(first[first.len() - 1])
    }
}

/// `piece`, `times` times in a row.
pub open spec fn repeated(piece: Seq<char>, times: nat) -> Seq<char>
    decreases times,
{
    if times == 0 {
        Seq::empty()
    } else {
        repeated(piece, (times - 1) as nat) + piece
    }
}

/// `piece`, `times` times in a row.
pub fn repeat(piece: &str, times: usize) -> (text: String)
    ensures
        text@ == repeated(piece@, times as nat),
{
    let mut text = String::new();
    let mut i: usize = 0;
    while i < times
        invariant
            i <= times,
            text@ == repeated(piece@, i as nat),
        decreases times - i,
    {
        text.append(piece);
        i += 1;
    }
    text
}

/// The five lines of a frame of stars around `text`, which takes `width`
/// columns: a row of stars, an empty row, the text, an empty row, a row of
/// stars.
pub open spec fn outline_spec(text: Seq<char>, width: nat) -> Seq<Seq<char>> {
    let stars = repeated(seq!['*'], width + 4);
    let blank = seq!['*'] + repeated(seq![' '], width + 2) + seq!['*'];
    seq![stars, blank, seq!['*', ' '] + text + seq![' ', '*'], blank, stars]
}

/// The five lines of a frame of stars around `text`, as wide as `text` is
/// long in bytes.
pub fn outline(text: &str) -> (rows: Vec<String>)
    requires
        text.len() + 4 <= usize::MAX,
    ensures
        rows@.len() == 5,
        rows@.map_values(|row: String| row@) == outline_spec(text@, text.len() as nat),
{
    let len = text.len();
    proof {
        reveal_strlit("*");
        reveal_strlit(" ");
        reveal_strlit("* ");
        reveal_strlit(" *");
        assert("*"@ =~= seq!['*']);
        assert(" "@ =~= seq![' ']);
        assert("* "@ =~= seq!['*', ' ']);
        assert(" *"@ =~= seq![' ', '*']);
    }
    let stars = repeat("*", len + 4);
    let spaces = repeat(" ", len + 2);
    let blank = String::from_str("*").concat(spaces.as_str()).concat("*");
    let middle = String::from_str("* ").concat(text).concat(" *");
    let mut rows: Vec<String> = Vec::new();
    rows.push(stars.clone());
    rows.push(blank.clone());
    rows.push(middle);
    rows.push(blank);
    rows.push(stars);
    proof {
        assert(rows@.map_values(|row: String| row@) =~= outline_spec(text@, len as nat));
    }
    rows
}

/// The position of the first `stop` in `text`, or the length of `text`
/// where it has none.
pub open spec fn position_of(text: Seq<char>, stop: char) -> int
    decreases text.len(),
{
    if text.len() == 0 || text[0] == stop {
        0
    } else {
        1 + position_of(text.drop_first(), stop)
    }
}

/// The first `stop` of `text` is where a scan from the front finds it.
pub proof fn lemma_position_of(text: Seq<char>, stop: char, at: int)
    requires
        0 <= at <= text.len(),
        forall|i: int| 0 <= i < at ==> text[i] != stop,
        at < text.len() ==> text[at] == stop,
    ensures
        position_of(text, stop) == at,
    decreases at,
{
    if at > 0 {
        let rest = text.drop_first();
        assert forall|i: int| 0 <= i < at - 1 implies rest[i] != stop by {
            assert(rest[i] == text[i + 1]);
        }
        lemma_position_of(rest, stop, at - 1);
    }
}

/// What stands in `text` before its first `stop`: all of it where it has
/// none.
pub fn until<'a>(text: &'a str, stop: char) -> (prefix: &'a str)
    ensures
        prefix@ == text@.take(position_of(text@, stop)),
{
    let chars = chars_of(text);
    let mut i: usize = 0;
    while i < chars.len() && chars[i] != stop
        invariant
            chars@ == text@,
            i <= chars.len(),
            forall|j: int| 0 <= j < i ==> chars@[j] != stop,
        decreases chars.len() - i,
    {
        i += 1;
    }
    proof {
        lemma_position_of(chars@, stop, i as int);
    }
    text.substring_char(0, i)
}

} // verus!

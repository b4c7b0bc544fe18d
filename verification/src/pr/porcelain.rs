//! Parsing `git status --porcelain` (v1) output into changed paths.
use vstd::prelude::*;

use crate::text::{chars_of, contains, first_occurrence, find, lemma_trim_is_subrange, string_from_chars, trim, trim_bounds};

verus! {

// ---------------------------------------------------------------------------
// Lines
// ---------------------------------------------------------------------------

/// A line without the `'\r'` that ends it, if any.
pub open spec fn strip_cr(line: Seq<char>) -> Seq<char> {
    if line.len() > 0 && line.last() == '\r' {
        line.drop_last()
    } else {
        line
    }
}

/// The lines of `s` when the line read so far is `cur`, as `str::lines`
/// splits them: at each `'\n'`, dropping a `'\r'` just before it; a final
/// line with no `'\n'` is kept as it is, and nothing follows a final `'\n'`.
pub open spec fn lines_from(s: Seq<char>, cur: Seq<char>) -> Seq<Seq<char>>
    decreases s.len(),
{
    if s.len() == 0 {
        if cur.len() == 0 {
            seq![]
        } else {
            seq![cur]
        }
    } else if s[0] == '\n' {
        seq![strip_cr(cur)] + lines_from(s.drop_first(), seq![])
    } else {
        lines_from(s.drop_first(), cur.push(s[0]))
    }
}

/// The lines of `s`, as `str::lines` yields them.
pub open spec fn lines(s: Seq<char>) -> Seq<Seq<char>> {
    lines_from(s, seq![])
}

// ---------------------------------------------------------------------------
// UTF-8 byte offsets
// ---------------------------------------------------------------------------

/// Number of bytes of the UTF-8 encoding of `c`.
pub open spec fn char_width(c: char) -> nat {
    let u = c as u32;
    if u < 0x80 {
        1
    } else if u < 0x800 {
        2
    } else if u < 0x10000 {
        3
    } else {
        4
    }
}

/// Number of bytes of the UTF-8 encoding of `s` (what `str::len` returns).
pub open spec fn byte_len(s: Seq<char>) -> nat
    decreases s.len(),
{
    if s.len() == 0 {
        0
    } else {
        byte_len(s.drop_last()) + char_width(s.last())
    }
}

/// Byte offset `k` of `line` falls between two characters, so `str`
/// slicing at `k` does not panic.
pub open spec fn is_boundary(line: Seq<char>, k: int) -> bool {
    exists|j: int| 0 <= j <= line.len() && byte_len(line.take(j)) == k
}

/// The number of characters in the first `k` bytes of `line`, at a boundary.
pub open spec fn chars_before(line: Seq<char>, k: int) -> int {
    choose|j: int| 0 <= j <= line.len() && byte_len(line.take(j)) == k
}

/// A porcelain line can be read without panicking: lines of fewer than 4
/// bytes are skipped, and longer ones are sliced at bytes 2 and 3.
pub open spec fn line_readable(line: Seq<char>) -> bool {
    byte_len(line) < 4 || (is_boundary(line, 2) && is_boundary(line, 3))
}

/// The two-byte status code `XY` of a line.
pub open spec fn status_code(line: Seq<char>) -> Seq<char> {
    line.take(chars_before(line, 2))
}

/// The status code marks a deletion: it is `D` once trimmed, or starts or ends with `D`.
pub open spec fn status_deleted(xy: Seq<char>) -> bool {
    ||| trim(xy) == seq!['D']
    ||| xy.len() > 0 && xy[0] == 'D'
    ||| xy.len() > 0 && xy.last() == 'D'
}

/// The path of a line: what follows byte 3, trimmed; of a rename
/// `old -> new`, the part after the first `" -> "`.
pub open spec fn line_path(line: Seq<char>) -> Seq<char> {
    let p = trim(line.skip(chars_before(line, 3)));
    if contains(p, " -> "@) {
        p.skip((choose|i: int| first_occurrence(p, " -> "@, i)) + 4)
    } else {
        p
    }
}

/// The `(path, deleted)` pairs of the lines `ls` that are 4 bytes or longer.
pub open spec fn porcelain_entries(ls: Seq<Seq<char>>) -> Seq<(Seq<char>, bool)>
    decreases ls.len(),
{
    if ls.len() == 0 {
        seq![]
    } else {
        let rest = porcelain_entries(ls.drop_last());
        let line = ls.last();
        if byte_len(line) >= 4 {
            rest.push((line_path(line), status_deleted(status_code(line))))
        } else {
            rest
        }
    }
}

/// Porcelain output that can be parsed without panicking.
pub open spec fn porcelain_readable(s: Seq<char>) -> bool {
    forall|k: int| 0 <= k < lines(s).len() ==> line_readable(#[trigger] lines(s)[k])
}

/// The parsed pairs as plain values.
pub open spec fn entries_view(v: Seq<(String, bool)>) -> Seq<(Seq<char>, bool)> {
    v.map_values(|e: (String, bool)| (e.0@, e.1))
}

// ---------------------------------------------------------------------------
// Proofs about byte offsets
// ---------------------------------------------------------------------------

proof fn lemma_byte_len_take_step(s: Seq<char>, j: int)
    requires
        0 <= j < s.len(),
    ensures
        byte_len(s.take(j + 1)) == byte_len(s.take(j)) + char_width(s[j]),
{
    assert(s.take(j + 1).drop_last() =~= s.take(j));
}

proof fn lemma_byte_len_take_mono(s: Seq<char>, i: int, j: int)
    requires
        0 <= i < j <= s.len(),
    ensures
        byte_len(s.take(i)) + (j - i) <= byte_len(s.take(j)),
    decreases j - i,
{
    lemma_byte_len_take_step(s, j - 1);
    if i < j - 1 {
        lemma_byte_len_take_mono(s, i, j - 1);
    }
}

proof fn lemma_byte_len_take_all(s: Seq<char>)
    ensures
        s.take(s.len() as int) == s,
{
    assert(s.take(s.len() as int) =~= s);
}

/// The boundary at `k` is reached after exactly `j` characters.
proof fn lemma_chars_before(line: Seq<char>, k: int, j: int)
    requires
        0 <= j <= line.len(),
        byte_len(line.take(j)) == k,
    ensures
        is_boundary(line, k),
        chars_before(line, k) == j,
{
    let c = chars_before(line, k);
    assert(0 <= c <= line.len() && byte_len(line.take(c)) == k);
    if c < j {
        lemma_byte_len_take_mono(line, c, j);
    } else if j < c {
        lemma_byte_len_take_mono(line, j, c);
    }
}

/// Whether `line` is 4 bytes or longer.
fn at_least_four_bytes(line: &[char]) -> (r: bool)
    ensures
        r == (byte_len(line@) >= 4),
{
    let mut acc: usize = 0;
    let mut i: usize = 0;
    assert(line@.take(0) =~= Seq::<char>::empty());
    while i < line.len() && acc < 4
        invariant
            i <= line@.len(),
            acc == byte_len(line@.take(i as int)),
        decreases line@.len() - i,
    {
        proof {
            lemma_byte_len_take_step(line@, i as int);
        }
        acc = acc + width(line[i]);
        i = i + 1;
    }
    proof {
        lemma_byte_len_take_all(line@);
        if i < line@.len() {
            lemma_byte_len_take_mono(line@, i as int, line@.len() as int);
        }
    }
    acc >= 4
}

/// Executable form of [`char_width`].
fn width(c: char) -> (w: usize)
    ensures
        w == char_width(c),
{
    let u = c as u32;
    if u < 0x80 {
        1
    } else if u < 0x800 {
        2
    } else if u < 0x10000 {
        3
    } else {
        4
    }
}

/// Byte offset `k` lies strictly inside the `m`-th character of `line`.
proof fn lemma_no_boundary(line: Seq<char>, k: int, m: int)
    requires
        0 < m <= line.len(),
        byte_len(line.take(m - 1)) < k < byte_len(line.take(m)),
    ensures
        !is_boundary(line, k),
{
    assert forall|j: int| 0 <= j <= line.len() implies byte_len(#[trigger] line.take(j)) != k by {
        if j < m - 1 {
            lemma_byte_len_take_mono(line, j, m - 1);
        } else if j > m {
            lemma_byte_len_take_mono(line, m, j);
        }
    }
}

/// Character counts `(j2, j3)` of the first 2 and 3 bytes of a line of 4
/// bytes or more, or `None` when slicing there would panic.
fn status_bounds(line: &[char]) -> (r: Option<(usize, usize)>)
    requires
        byte_len(line@) >= 4,
    ensures
        r is Some <==> line_readable(line@),
        r matches Some(b) ==> b.0 <= b.1 <= line@.len() && b.0 == chars_before(line@, 2) && b.1
            == chars_before(line@, 3),
{
    proof {
        lemma_byte_len_take_all(line@);
        assert(line@.take(0) =~= Seq::<char>::empty());
        lemma_byte_len_take_step(line@, 0);
    }
    if line.len() < 2 {
        return None;
    }
    proof {
        lemma_byte_len_take_step(line@, 1);
    }
    let w0 = width(line[0]);
    let w1 = width(line[1]);
    if w0 == 1 {
        if w1 != 1 {
            proof {
                lemma_no_boundary(line@, 2, 2);
            }
            return None;
        }
        if line.len() < 3 {
            return None;
        }
        proof {
            lemma_byte_len_take_step(line@, 2);
            lemma_chars_before(line@, 2, 2);
        }
        if width(line[2]) != 1 {
            proof {
                lemma_no_boundary(line@, 3, 3);
            }
            return None;
        }
        proof {
            lemma_chars_before(line@, 3, 3);
        }
        Some((2, 3))
    } else if w0 == 2 {
        proof {
            lemma_chars_before(line@, 2, 1);
        }
        if w1 != 1 {
            proof {
                lemma_no_boundary(line@, 3, 2);
            }
            return None;
        }
        proof {
            lemma_chars_before(line@, 3, 2);
        }
        Some((1, 2))
    } else {
        proof {
            lemma_no_boundary(line@, 2, 1);
        }
        None
    }
}

// ---------------------------------------------------------------------------
// Parsing
// ---------------------------------------------------------------------------

/// Parses one line of 4 bytes or more into `(path, deleted)`.
fn parse_line(line: &[char]) -> (r: (String, bool))
    requires
        byte_len(line@) >= 4,
        line_readable(line@),
    ensures
        r.0@ == line_path(line@),
        r.1 == status_deleted(status_code(line@)),
{
    let (j2, j3) = match status_bounds(line) {
        Some(b) => b,
        None => {
            return (String::new(), false);
        },
    };
    let xy = &line[0..j2];
    assert(xy@ =~= status_code(line@));
    let (a, b) = trim_bounds(xy);
    let deleted = (b - a == 1 && xy[a] == 'D') || (xy.len() > 0 && xy[0] == 'D') || (xy.len() > 0
        && xy[xy.len() - 1] == 'D');
    proof {
        if b - a == 1 && xy@[a as int] == 'D' {
            assert(trim(xy@) =~= seq!['D']);
        }
        let t = xy@.subrange(a as int, b as int);
        if trim(xy@) == seq!['D'] {
            assert(t.len() == 1);
            assert(t[0] == xy@[a as int]);
        }
    }
    let rest = &line[j3..line.len()];
    assert(rest@ =~= line@.skip(j3 as int));
    let (pa, pb) = trim_bounds(rest);
    let p = &rest[pa..pb];
    let arrow = chars_of(" -> ");
    proof {
        reveal_strlit(" -> ");
    }
    let path = match find(p, arrow.as_slice()) {
        Some(i) => {
            proof {
                assert(contains(p@, " -> "@));
                let c = choose|k: int| first_occurrence(p@, " -> "@, k);
                if c < i {
                    assert(!first_occurrence(p@, " -> "@, i as int));
                } else if i < c {
                    assert(!first_occurrence(p@, " -> "@, c));
                }
            }
            let tail = &p[i + 4..p.len()];
            assert(tail@ =~= p@.skip(i + 4));
            string_from_chars(tail)
        },
        None => string_from_chars(p),
    };
    (path, deleted)
}

proof fn lemma_entries_push(done: Seq<Seq<char>>, line: Seq<char>)
    ensures
        porcelain_entries(done.push(line)) == if byte_len(line) >= 4 {
            porcelain_entries(done).push((line_path(line), status_deleted(status_code(line))))
        } else {
            porcelain_entries(done)
        },
{
    assert(done.push(line).drop_last() =~= done);
}

/// Parses `git status --porcelain` output, or gives `None` when a line of
/// 4 bytes or more has no character boundary at byte 2 or 3 (where slicing
/// the line would panic).
pub fn try_parse_porcelain_output(stdout: &str) -> (r: Option<Vec<(String, bool)>>)
    ensures
        r is Some <==> porcelain_readable(stdout@),
        r matches Some(files) ==> entries_view(files@) == porcelain_entries(lines(stdout@)),
{
    let s = chars_of(stdout);
    let mut files: Vec<(String, bool)> = Vec::new();
    let mut cur: Vec<char> = Vec::new();
    let mut i: usize = 0;
    let ghost mut done: Seq<Seq<char>> = seq![];
    assert(s@.skip(0) =~= s@);
    while i < s.len()
        invariant
            i <= s@.len(),
            s@ == stdout@,
            lines(stdout@) == done + lines_from(s@.skip(i as int), cur@),
            forall|k: int| 0 <= k < done.len() ==> line_readable(#[trigger] done[k]),
            entries_view(files@) == porcelain_entries(done),
        decreases s@.len() - i,
    {
        let ghost rest = s@.skip(i as int);
        assert(rest.drop_first() =~= s@.skip(i + 1));
        assert(rest[0] == s@[i as int]);
        if s[i] == '\n' {
            let mut line = cur;
            if line.len() > 0 && line[line.len() - 1] == '\r' {
                line.pop();
            }
            assert(line@ =~= strip_cr(cur@));
            proof {
                assert(lines(stdout@)[done.len() as int] == line@);
                lemma_entries_push(done, line@);
            }
            if at_least_four_bytes(line.as_slice()) {
                if status_bounds(line.as_slice()).is_none() {
                    return None;
                }
                let entry = parse_line(line.as_slice());
                files.push(entry);
            }
            proof {
                assert(entries_view(files@) =~= porcelain_entries(done.push(line@)));
                assert(done + lines_from(rest, cur@) =~= done.push(line@) + lines_from(
                    s@.skip(i + 1),
                    seq![],
                ));
                done = done.push(line@);
            }
            cur = Vec::new();
        } else {
            cur.push(s[i]);
        }
        i = i + 1;
    }
    assert(s@.skip(i as int) =~= Seq::<char>::empty());
    if cur.len() > 0 {
        proof {
            assert(lines(stdout@) =~= done.push(cur@));
            assert(lines(stdout@)[done.len() as int] == cur@);
            lemma_entries_push(done, cur@);
        }
        if at_least_four_bytes(cur.as_slice()) {
            if status_bounds(cur.as_slice()).is_none() {
                return None;
            }
            let entry = parse_line(cur.as_slice());
            files.push(entry);
        }
        assert(entries_view(files@) =~= porcelain_entries(lines(stdout@)));
        assert forall|k: int| 0 <= k < lines(stdout@).len() implies line_readable(
            #[trigger] lines(stdout@)[k],
        ) by {
            if k < done.len() {
                assert(lines(stdout@)[k] == done[k]);
            }
        }
    } else {
        assert(lines(stdout@) =~= done);
    }
    Some(files)
}

/// Parse `git status --porcelain` (v1) output into `(path, deleted)` pairs.
///
/// Each line is `XY path` where `XY` is a two-character status code.
/// Rename lines use the form `XY old -> new`; the new (right-hand) path is
/// returned.  Lines shorter than 4 bytes are silently skipped.
pub fn parse_porcelain_output(stdout: &str) -> (files: Vec<(String, bool)>)
    requires
        porcelain_readable(stdout@),
    ensures
        entries_view(files@) == porcelain_entries(lines(stdout@)),
{
    match try_parse_porcelain_output(stdout) {
        Some(files) => files,
        None => Vec::new(),
    }
}

// ---------------------------------------------------------------------------
// ASCII output
// ---------------------------------------------------------------------------

/// Every character of `s` is ASCII.
pub open spec fn all_ascii(s: Seq<char>) -> bool {
    forall|k: int| 0 <= k < s.len() ==> (#[trigger] s[k] as u32) < 0x80
}

proof fn lemma_ascii_byte_len(t: Seq<char>)
    requires
        all_ascii(t),
    ensures
        byte_len(t) == t.len(),
    decreases t.len(),
{
    if t.len() > 0 {
        assert(all_ascii(t.drop_last()));
        lemma_ascii_byte_len(t.drop_last());
        assert((t.last() as u32) < 0x80);
    }
}

proof fn lemma_lines_ascii(s: Seq<char>, cur: Seq<char>)
    requires
        all_ascii(s),
        all_ascii(cur),
    ensures
        forall|k: int| 0 <= k < lines_from(s, cur).len() ==> all_ascii(#[trigger] lines_from(s, cur)[k]),
    decreases s.len(),
{
    if s.len() == 0 {
        if cur.len() > 0 {
            assert(lines_from(s, cur) =~= seq![cur]);
        }
    } else {
        assert(all_ascii(s.drop_first()));
        assert((s[0] as u32) < 0x80);
        if s[0] == '\n' {
            lemma_lines_ascii(s.drop_first(), seq![]);
            assert(all_ascii(strip_cr(cur)));
            let tail = lines_from(s.drop_first(), seq![]);
            assert forall|k: int| 0 <= k < lines_from(s, cur).len() implies all_ascii(
                #[trigger] lines_from(s, cur)[k],
            ) by {
                if k > 0 {
                    assert(lines_from(s, cur)[k] == tail[k - 1]);
                }
            }
        } else {
            assert(all_ascii(cur.push(s[0])));
            lemma_lines_ascii(s.drop_first(), cur.push(s[0]));
            assert(lines_from(s, cur) == lines_from(s.drop_first(), cur.push(s[0])));
        }
    }
}

/// ASCII output, such as git's (which quotes other characters in paths by
/// default), can always be parsed: every line of 4 bytes or more can be
/// sliced at bytes 2 and 3.
pub proof fn law_ascii_output_is_readable(s: Seq<char>)
    requires
        all_ascii(s),
    ensures
        porcelain_readable(s),
{
    assert(all_ascii(Seq::<char>::empty()));
    lemma_lines_ascii(s, seq![]);
    assert forall|k: int| 0 <= k < lines(s).len() implies line_readable(#[trigger] lines(s)[k]) by {
        let line = lines(s)[k];
        lemma_ascii_byte_len(line);
        if byte_len(line) >= 4 {
            assert(all_ascii(line.take(2)));
            assert(all_ascii(line.take(3)));
            lemma_ascii_byte_len(line.take(2));
            lemma_ascii_byte_len(line.take(3));
            assert(is_boundary(line, 2));
            assert(is_boundary(line, 3));
        }
    }
}

/// A line whose status code is two ASCII characters `XY` marks a deletion
/// exactly when `X` or `Y` is `D`.
pub proof fn law_deleted_iff_status_has_d(line: Seq<char>)
    requires
        line.len() >= 3,
        byte_len(line) >= 4,
        (line[0] as u32) < 0x80,
        (line[1] as u32) < 0x80,
    ensures
        status_deleted(status_code(line)) == (line[0] == 'D' || line[1] == 'D'),
{
    assert(line.take(0) =~= Seq::<char>::empty());
    lemma_byte_len_take_step(line, 0);
    lemma_byte_len_take_step(line, 1);
    lemma_chars_before(line, 2, 2);
    let xy = status_code(line);
    assert(xy =~= seq![line[0], line[1]]);
    lemma_trim_is_subrange(xy);
    if trim(xy) == seq!['D'] {
        let (i, j) = choose|i: int, j: int| 0 <= i <= j <= xy.len() && trim(xy) == xy.subrange(i, j);
        assert(xy.subrange(i, j).len() == 1);
        assert(xy.subrange(i, j)[0] == xy[i]);
        assert(xy[i] == 'D');
        assert(i == 0 || i == 1);
    }
    assert(xy[0] == line[0]);
    assert(xy.last() == line[1]);
}

// ---------------------------------------------------------------------------
// Output read in parts
// ---------------------------------------------------------------------------

proof fn lemma_lines_from_concat(a: Seq<char>, b: Seq<char>, cur: Seq<char>)
    requires
        a.len() > 0,
        a.last() == '\n',
    ensures
        lines_from(a + b, cur) == lines_from(a, cur) + lines_from(b, seq![]),
    decreases a.len(),
{
    let s = a + b;
    assert(s[0] == a[0]);
    assert(s.drop_first() =~= a.drop_first() + b);
    if a[0] == '\n' {
        if a.len() == 1 {
            assert(a.drop_first() =~= Seq::<char>::empty());
            assert(a.drop_first() + b =~= b);
            assert(lines_from(a.drop_first(), seq![]) =~= Seq::<Seq<char>>::empty());
            assert(lines_from(a, cur) =~= seq![strip_cr(cur)]);
        } else {
            assert(a.drop_first().last() == a.last());
            lemma_lines_from_concat(a.drop_first(), b, seq![]);
            assert(seq![strip_cr(cur)] + (lines_from(a.drop_first(), seq![]) + lines_from(b, seq![]))
                =~= seq![strip_cr(cur)] + lines_from(a.drop_first(), seq![]) + lines_from(b, seq![]));
        }
    } else {
        assert(a.drop_first().last() == a.last());
        lemma_lines_from_concat(a.drop_first(), b, cur.push(a[0]));
    }
}

proof fn lemma_entries_concat(x: Seq<Seq<char>>, y: Seq<Seq<char>>)
    ensures
        porcelain_entries(x + y) == porcelain_entries(x) + porcelain_entries(y),
    decreases y.len(),
{
    if y.len() == 0 {
        assert(x + y =~= x);
        assert(porcelain_entries(x) + porcelain_entries(y) =~= porcelain_entries(x));
    } else {
        assert((x + y).drop_last() =~= x + y.drop_last());
        assert((x + y).last() == y.last());
        lemma_entries_concat(x, y.drop_last());
        let line = y.last();
        if byte_len(line) >= 4 {
            assert(porcelain_entries(x) + porcelain_entries(y.drop_last()).push(
                (line_path(line), status_deleted(status_code(line))),
            ) =~= (porcelain_entries(x) + porcelain_entries(y.drop_last())).push(
                (line_path(line), status_deleted(status_code(line))),
            ));
        }
    }
}

/// Output split after a line end parses part by part: its lines are those of
/// the first part, then those of the second, each line is parsed on its own
/// and in order, and the whole is readable exactly when both parts are.
pub proof fn law_parse_splits_at_line_end(a: Seq<char>, b: Seq<char>)
    requires
        a.len() == 0 || a.last() == '\n',
    ensures
        lines(a + b) == lines(a) + lines(b),
        porcelain_entries(lines(a + b)) == porcelain_entries(lines(a)) + porcelain_entries(lines(b)),
        porcelain_readable(a + b) <==> porcelain_readable(a) && porcelain_readable(b),
{
    if a.len() == 0 {
        assert(a + b =~= b);
        assert(lines(a) =~= Seq::<Seq<char>>::empty());
        assert(lines(a) + lines(b) =~= lines(b));
    } else {
        lemma_lines_from_concat(a, b, seq![]);
    }
    lemma_entries_concat(lines(a), lines(b));
    let la = lines(a);
    let lb = lines(b);
    assert(lines(a + b) == la + lb);
    if porcelain_readable(a + b) {
        assert forall|k: int| 0 <= k < la.len() implies line_readable(#[trigger] la[k]) by {
            assert(lines(a + b)[k] == la[k]);
        }
        assert forall|k: int| 0 <= k < lb.len() implies line_readable(#[trigger] lb[k]) by {
            assert(lines(a + b)[la.len() + k] == lb[k]);
        }
    }
    if porcelain_readable(a) && porcelain_readable(b) {
        assert forall|k: int| 0 <= k < lines(a + b).len() implies line_readable(
            #[trigger] lines(a + b)[k],
        ) by {
            if k < la.len() {
                assert(lines(a + b)[k] == la[k]);
            } else {
                assert(lines(a + b)[k] == lb[k - la.len()]);
            }
        }
    }
}

} // verus!

//! The telemetry wire format: one record per line, fields separated by commas.
use vstd::prelude::*;

verus! {

/// The character that separates the fields of a record.
pub const FIELD_SEPARATOR: char = ',';

/// Whether `c` has the Unicode property `White_Space`.
pub open spec fn is_whitespace(c: char) -> bool {
    let n = c as u32;
    ||| 0x09 <= n <= 0x0d
    ||| n == 0x20
    ||| n == 0x85
    ||| n == 0xa0
    ||| n == 0x1680
    ||| 0x2000 <= n <= 0x200a
    ||| n == 0x2028
    ||| n == 0x2029
    ||| n == 0x202f
    ||| n == 0x205f
    ||| n == 0x3000
}

/// `s` without its leading whitespace.
pub open spec fn trim_start(s: Seq<char>) -> Seq<char>
    decreases s.len(),
{
    if s.len() > 0 && is_whitespace(s.first()) {
        trim_start(s.drop_first())
    } else {
        s
    }
}

/// `s` without its trailing whitespace.
pub open spec fn trim_end(s: Seq<char>) -> Seq<char>
    decreases s.len(),
{
    if s.len() > 0 && is_whitespace(s.last()) {
        trim_end(s.drop_last())
    } else {
        s
    }
}

/// `s` without the whitespace at either end.
pub open spec fn trimmed(s: Seq<char>) -> Seq<char> {
    trim_end(trim_start(s))
}

/// The pieces of `s` between occurrences of `sep`.
///
/// A sequence with `k` separators has `k + 1` pieces, some of them possibly
/// empty; the empty sequence has the one empty piece.
pub open spec fn split(s: Seq<char>, sep: char) -> Seq<Seq<char>>
    decreases s.len(),
{
    if s.len() == 0 {
        seq![Seq::<char>::empty()]
    } else {
        let before = split(s.drop_last(), sep);
        if s.last() == sep {
            before.push(Seq::<char>::empty())
        } else {
            before.drop_last().push(before.last().push(s.last()))
        }
    }
}

/// The pieces put together again, with `sep` between neighbours.
pub open spec fn join(pieces: Seq<Seq<char>>, sep: char) -> Seq<char>
    decreases pieces.len(),
{
    if pieces.len() == 0 {
        Seq::<char>::empty()
    } else if pieces.len() == 1 {
        pieces[0]
    } else {
        join(pieces.drop_last(), sep).push(sep) + pieces.last()
    }
}

/// The fields of one telemetry record: the line is trimmed, then cut at every
/// comma.
pub open spec fn fields_of(line: Seq<char>) -> Seq<Seq<char>> {
    split(trimmed(line), FIELD_SEPARATOR)
}

/// The text of each field in `fields`.
pub open spec fn texts(fields: Seq<&str>) -> Seq<Seq<char>> {
    fields.map_values(|field: &str| field@)
}

/// Decides whether `c` is whitespace.
pub fn is_whitespace_char(c: char) -> (b: bool)
    ensures
        b == is_whitespace(c),
{
    let n: u32 = c as u32;
    (0x09 <= n && n <= 0x0d) || n == 0x20 || n == 0x85 || n == 0xa0 || n == 0x1680 || (0x2000 <= n
        && n <= 0x200a) || n == 0x2028 || n == 0x2029 || n == 0x202f || n == 0x205f || n == 0x3000
}

/// The characters of `text`, one element each.
fn chars_of(text: &str) -> (chars: Vec<char>)
    ensures
        chars@ == text@,
{
    let mut chars: Vec<char> = Vec::new();
    for c in it: text.chars()
        invariant
            it.seq() == text@,
            chars@ == it.seq().take(it.index() as int),
    {
        chars.push(c);
    }
    chars
}

/// Skipping leading whitespace one character at a time reaches `trim_start`.
proof fn lemma_trim_start_skip(s: Seq<char>, k: int)
    requires
        0 <= k <= s.len(),
        forall|j: int| 0 <= j < k ==> is_whitespace(#[trigger] s[j]),
    ensures
        trim_start(s) == trim_start(s.skip(k)),
    decreases k,
{
    if k > 0 {
        lemma_trim_start_skip(s, k - 1);
        assert(s.skip(k - 1).drop_first() =~= s.skip(k));
    } else {
        assert(s.skip(0) =~= s);
    }
}

/// Dropping trailing whitespace one character at a time reaches `trim_end`.
proof fn lemma_trim_end_take(s: Seq<char>, k: int)
    requires
        0 <= k <= s.len(),
        forall|j: int| k <= j < s.len() ==> is_whitespace(#[trigger] s[j]),
    ensures
        trim_end(s) == trim_end(s.take(k)),
    decreases s.len() - k,
{
    if k < s.len() {
        lemma_trim_end_take(s, k + 1);
        assert(s.take(k + 1).drop_last() =~= s.take(k));
    } else {
        assert(s.take(k) =~= s);
    }
}

/// Where the trimmed part of `chars` starts and ends.
fn trim_bounds(chars: &Vec<char>) -> (bounds: (usize, usize))
    ensures
        bounds.0 <= bounds.1 <= chars.len(),
        trimmed(chars@) == chars@.subrange(bounds.0 as int, bounds.1 as int),
{
    let n: usize = chars.len();
    let mut start: usize = 0;
    while start < n && is_whitespace_char(chars[start])
        invariant
            start <= n == chars.len(),
            forall|j: int| 0 <= j < start ==> is_whitespace(#[trigger] chars@[j]),
        decreases n - start,
    {
        start += 1;
    }
    let ghost rest = chars@.skip(start as int);
    proof {
        lemma_trim_start_skip(chars@, start as int);
        assert(trim_start(chars@) == rest);
    }
    let mut end: usize = n;
    while end > start && is_whitespace_char(chars[end - 1])
        invariant
            start <= end <= n == chars.len(),
            rest == chars@.skip(start as int),
            forall|j: int| end - start <= j < rest.len() ==> is_whitespace(#[trigger] rest[j]),
        decreases end,
    {
        end -= 1;
    }
    proof {
        lemma_trim_end_take(rest, end - start);
        assert(rest.take(end - start) =~= chars@.subrange(start as int, end as int));
    }
    (start, end)
}

/// What `split` is: there is at least one piece, no piece holds the separator,
/// and the pieces joined by the separator give back what was split.
pub proof fn lemma_split_is_cut_at_separators(s: Seq<char>, sep: char)
    ensures
        split(s, sep).len() >= 1,
        forall|i: int| 0 <= i < split(s, sep).len() ==> !(#[trigger] split(s, sep)[i]).contains(sep),
        join(split(s, sep), sep) == s,
    decreases s.len(),
{
    let pieces = split(s, sep);
    if s.len() == 0 {
        assert(join(pieces, sep) =~= s);
    } else {
        let front = s.drop_last();
        let before = split(front, sep);
        lemma_split_is_cut_at_separators(front, sep);
        assert(s =~= front.push(s.last()));
        if s.last() == sep {
            assert(pieces.drop_last() =~= before);
            assert(join(pieces, sep) =~= join(before, sep).push(sep));
        } else {
            let grown = before.last().push(s.last());
            assert(pieces.last() == grown);
            assert forall|i: int| 0 <= i < pieces.len() implies !(#[trigger] pieces[i]).contains(
                sep,
            ) by {
                if i < pieces.len() - 1 {
                    assert(pieces[i] == before[i]);
                } else {
                    assert(!before[before.len() - 1].contains(sep));
                    assert forall|k: int| 0 <= k < grown.len() implies grown[k] != sep by {
                        if k < grown.len() - 1 {
                            assert(before.last().contains(grown[k]));
                        }
                    }
                }
            }
            if before.len() == 1 {
                assert(join(pieces, sep) =~= join(before, sep).push(s.last()));
            } else {
                assert(pieces.drop_last() =~= before.drop_last());
                assert(join(pieces, sep) =~= join(before, sep).push(s.last()));
            }
        }
    }
}

/// Cuts one telemetry record into its fields.
///
/// Whitespace at either end of the line goes first, the line terminator with
/// it; what is left is cut at every comma. The fields borrow from `line`.
pub fn fields<'a>(line: &'a str) -> (out: Vec<&'a str>)
    ensures
        texts(out@) == fields_of(line@),
        out.len() >= 1,
        forall|i: int| 0 <= i < out.len() ==> !(#[trigger] out@[i])@.contains(FIELD_SEPARATOR),
        join(texts(out@), FIELD_SEPARATOR) == trimmed(line@),
{
    let chars = chars_of(line);
    let (start, end) = trim_bounds(&chars);
    let ghost body = trimmed(line@);
    let mut out: Vec<&'a str> = Vec::new();
    let mut from: usize = start;
    let mut at: usize = start;
    proof {
        assert(body.take(0).len() == 0);
        assert(line@.subrange(start as int, start as int) =~= Seq::<char>::empty());
        assert(texts(out@).push(Seq::<char>::empty()) =~= seq![Seq::<char>::empty()]);
    }
    while at < end
        invariant
            chars@ == line@,
            start <= from <= at <= end <= chars.len(),
            body == line@.subrange(start as int, end as int),
            split(body.take(at - start), FIELD_SEPARATOR) == texts(out@).push(
                line@.subrange(from as int, at as int),
            ),
        decreases end - at,
    {
        let ghost seen = body.take(at - start);
        let ghost next = body.take(at + 1 - start);
        let ghost piece = line@.subrange(from as int, at as int);
        proof {
            assert(next.drop_last() =~= seen);
            assert(next.last() == chars@[at as int]);
        }
        if chars[at] == FIELD_SEPARATOR {
            let field = line.substring_char(from, at);
            proof {
                assert(texts(out@.push(field)) =~= texts(out@).push(piece));
                assert(line@.subrange(at + 1, at + 1) =~= Seq::<char>::empty());
            }
            out.push(field);
            from = at + 1;
        } else {
            proof {
                assert(texts(out@).push(piece).drop_last() =~= texts(out@));
                assert(piece.push(chars@[at as int]) =~= line@.subrange(from as int, at + 1));
            }
        }
        at += 1;
    }
    let last = line.substring_char(from, end);
    proof {
        assert(body.take(end - start) =~= body);
        assert(texts(out@.push(last)) =~= texts(out@).push(last@));
        lemma_split_is_cut_at_separators(body, FIELD_SEPARATOR);
    }
    out.push(last);
    proof {
        assert forall|i: int| 0 <= i < out.len() implies !(#[trigger] out@[i])@.contains(
            FIELD_SEPARATOR,
        ) by {
            assert(texts(out@)[i] == out@[i]@);
        }
    }
    out
}

} // verus!

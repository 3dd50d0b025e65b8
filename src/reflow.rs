//! Reflow of logical lines into chunks no longer than the wrap width, and the
//! association from each logical line to the reflowed lines it produced.

use crate::style::{glyph_width, range_width_spec, StyledChar, StyledLine};
use vstd::prelude::*;

verus! {

/// A reflowed line: the characters `start..end` of logical line `line`.
#[derive(Clone, Copy, Debug, PartialEq, Eq, Structural)]
pub struct Chunk {
    pub line: usize,
    pub start: usize,
    pub end: usize,
}

/// The chunks of line `i` (of `len` characters) from character `start` on,
/// each `w` characters long but the last, which ends with the line.
pub open spec fn split_from(i: int, start: int, len: int, w: int) -> Seq<Chunk>
    decreases len - start,
{
    if w <= 0 || start >= len {
        Seq::empty()
    } else if start + w < len {
        seq![Chunk { line: i as usize, start: start as usize, end: (start + w) as usize }]
            + split_from(i, start + w, len, w)
    } else {
        seq![Chunk { line: i as usize, start: start as usize, end: len as usize }]
    }
}

/// The chunks that line `i` of `len` characters is reflowed into at wrap width `w`:
/// a single empty chunk for an empty line.
pub open spec fn line_chunks(i: int, len: int, w: int) -> Seq<Chunk> {
    if len == 0 {
        seq![Chunk { line: i as usize, start: 0, end: 0 }]
    } else {
        split_from(i, 0, len, w)
    }
}

/// The reflowed lines of the first `n` logical lines, in order.
pub open spec fn reflow_upto(lines: Seq<StyledLine>, w: int, n: int) -> Seq<Chunk>
    decreases n,
{
    if n <= 0 {
        Seq::empty()
    } else {
        reflow_upto(lines, w, n - 1) + line_chunks(n - 1, lines[n - 1]@.len() as int, w)
    }
}

/// The indices into `reflow_upto(lines, w, n)` that each of the first `n` lines produced.
pub open spec fn assoc_upto(lines: Seq<StyledLine>, w: int, n: int) -> Seq<Seq<usize>>
    decreases n,
{
    if n <= 0 {
        Seq::empty()
    } else {
        let base = reflow_upto(lines, w, n - 1).len();
        let count = line_chunks(n - 1, lines[n - 1]@.len() as int, w).len();
        assoc_upto(lines, w, n - 1).push(Seq::new(count, |k: int| (base + k) as usize))
    }
}

/// All reflowed lines of `lines` at wrap width `w`.
pub open spec fn reflow_spec(lines: Seq<StyledLine>, w: int) -> Seq<Chunk> {
    reflow_upto(lines, w, lines.len() as int)
}

/// The reflow association of `lines` at wrap width `w`.
pub open spec fn assoc_spec(lines: Seq<StyledLine>, w: int) -> Seq<Seq<usize>> {
    assoc_upto(lines, w, lines.len() as int)
}

/// A chunk lies within the line it names.
pub open spec fn chunk_in(c: Chunk, lines: Seq<StyledLine>) -> bool {
    &&& c.line < lines.len()
    &&& c.start <= c.end <= lines[c.line as int]@.len()
}

proof fn lemma_split_from_bounds(i: int, start: int, len: int, w: int)
    requires
        0 <= start,
        w > 0,
        len <= usize::MAX,
    ensures
        forall|k: int|
            0 <= k < split_from(i, start, len, w).len() ==> {
                let c = #[trigger] split_from(i, start, len, w)[k];
                &&& c.line == i as usize
                &&& start <= c.start <= c.end <= len
                &&& c.end - c.start <= w
                &&& c.start < c.end
            },
    decreases len - start,
{
    if start + w < len {
        lemma_split_from_bounds(i, start + w, len, w);
        let tail = split_from(i, start + w, len, w);
        assert forall|k: int| 1 <= k < split_from(i, start, len, w).len() implies split_from(
            i,
            start,
            len,
            w,
        )[k] == tail[k - 1] by {}
    }
}

/// Reflows every logical line at `column - 1` characters per reflowed line.
/// Returns the reflowed lines and, for each logical line, the indices of the
/// reflowed lines it produced.
pub fn reflow(lines: &Vec<StyledLine>, column: usize) -> (r: (Vec<Chunk>, Vec<Vec<usize>>))
    requires
        column >= 2,
    ensures
        r.0@ == reflow_spec(lines@, column - 1),
        r.1@.len() == lines@.len(),
        forall|i: int| 0 <= i < lines@.len() ==> r.1@[i]@ == #[trigger] assoc_spec(lines@, column - 1)[i],
        forall|j: int| 0 <= j < r.0@.len() ==> #[trigger] chunk_in(r.0@[j], lines@),
{
    let w: usize = column - 1;
    let mut chunks: Vec<Chunk> = Vec::new();
    let mut assoc: Vec<Vec<usize>> = Vec::new();
    let mut i: usize = 0;
    proof {
        lemma_assoc_len(lines@, w as int, lines@.len() as int);
    }
    while i < lines.len()
        invariant
            w == column - 1,
            w >= 1,
            i <= lines@.len(),
            chunks@ == reflow_upto(lines@, w as int, i as int),
            assoc@.len() == i,
            forall|a: int| 0 <= a < i ==> assoc@[a]@ == #[trigger] assoc_upto(lines@, w as int, i as int)[a],
            forall|n: int| 0 <= n <= lines@.len() ==> #[trigger] assoc_upto(lines@, w as int, n).len() == n,
            forall|j: int| 0 <= j < chunks@.len() ==> #[trigger] chunk_in(chunks@[j], lines@),
        decreases lines@.len() - i,
    {
        let line = &lines[i];
        let len = line.len();
        let ghost base = chunks@.len();
        let ghost prev_assoc = assoc_upto(lines@, w as int, i as int);
        let mut line_indexes: Vec<usize> = Vec::new();
        let ghost before_line = chunks@;
        proof {
            lemma_split_from_bounds(i as int, 0, len as int, w as int);
        }
        if len == 0 {
            chunks.push(Chunk { line: i, start: 0, end: 0 });
            line_indexes.push(chunks.len() - 1);
        } else {
            let mut start: usize = 0;
            let ghost full = split_from(i as int, 0, len as int, w as int);
            while start < len
                invariant
                    w >= 1,
                    len == lines@[i as int]@.len(),
                    start <= len,
                    full == split_from(i as int, 0, len as int, w as int),
                    base == reflow_upto(lines@, w as int, i as int).len(),
                    chunks@.len() >= base,
                    chunks@.subrange(0, base as int) == reflow_upto(lines@, w as int, i as int),
                    chunks@.subrange(base as int, chunks@.len() as int) + split_from(
                        i as int,
                        start as int,
                        len as int,
                        w as int,
                    ) == full,
                    line_indexes@ == Seq::new(
                        (chunks@.len() - base) as nat,
                        |k: int| (base + k) as usize,
                    ),
                decreases len - start,
            {
                let end = if len - start > w {
                    start + w
                } else {
                    len
                };
                let ghost before = chunks@;
                proof {
                    assert(split_from(i as int, start as int, len as int, w as int) == seq![
                        Chunk { line: i, start, end },
                    ] + split_from(i as int, end as int, len as int, w as int));
                }
                chunks.push(Chunk { line: i, start, end });
                line_indexes.push(chunks.len() - 1);
                proof {
                    assert(chunks@.subrange(0, base as int) == before.subrange(0, base as int));
                    assert(chunks@.subrange(base as int, chunks@.len() as int) == before.subrange(
                        base as int,
                        before.len() as int,
                    ).push(Chunk { line: i, start, end }));
                }
                assert(chunks@.subrange(base as int, chunks@.len() as int) + split_from(
                    i as int,
                    end as int,
                    len as int,
                    w as int,
                ) =~= full);
                start = end;
            }
            assert(chunks@ =~= chunks@.subrange(0, base as int) + chunks@.subrange(
                base as int,
                chunks@.len() as int,
            ));
        }
        assert(chunks@ =~= reflow_upto(lines@, w as int, i + 1));
        assert forall|j: int| 0 <= j < chunks@.len() implies #[trigger] chunk_in(chunks@[j], lines@) by {
            if j >= base {
                assert(chunks@[j] == line_chunks(i as int, len as int, w as int)[j - base]);
            } else {
                assert(chunks@[j] == before_line[j]);
            }
        }
        assert(line_indexes@ =~= assoc_upto(lines@, w as int, i + 1)[i as int]);
        assoc.push(line_indexes);
        assert forall|a: int| 0 <= a < i + 1 implies assoc@[a]@ == #[trigger] assoc_upto(
            lines@,
            w as int,
            i + 1,
        )[a] by {
            if a < i {
                assert(assoc_upto(lines@, w as int, i + 1)[a] == prev_assoc[a]);
            }
        }
        i = i + 1;
    }
    (chunks, assoc)
}

proof fn lemma_assoc_len(lines: Seq<StyledLine>, w: int, m: int)
    requires
        0 <= m <= lines.len(),
    ensures
        forall|n: int| 0 <= n <= m ==> #[trigger] assoc_upto(lines, w, n).len() == n,
    decreases m,
{
    if m > 0 {
        lemma_assoc_len(lines, w, m - 1);
        assert(assoc_upto(lines, w, m).len() == assoc_upto(lines, w, m - 1).len() + 1);
    }
}

/// The characters of `s` that each chunk of `cs` covers, in order.
pub open spec fn chunk_texts(s: Seq<StyledChar>, cs: Seq<Chunk>) -> Seq<Seq<StyledChar>> {
    Seq::new(cs.len(), |k: int| s.subrange(cs[k].start as int, cs[k].end as int))
}

proof fn lemma_split_from_concat(s: Seq<StyledChar>, i: int, start: int, w: int)
    requires
        0 <= start <= s.len(),
        s.len() <= usize::MAX,
        w > 0,
    ensures
        chunk_texts(s, split_from(i, start, s.len() as int, w)).flatten() == s.subrange(
            start,
            s.len() as int,
        ),
        forall|k: int|
            0 <= k < split_from(i, start, s.len() as int, w).len() - 1 ==> {
                let c = #[trigger] split_from(i, start, s.len() as int, w)[k];
                c.end - c.start == w
            },
    decreases s.len() - start,
{
    let len = s.len() as int;
    let cs = split_from(i, start, len, w);
    let texts = chunk_texts(s, cs);
    if start >= len {
        assert(texts =~= Seq::<Seq<StyledChar>>::empty());
        assert(s.subrange(start, len) =~= Seq::<StyledChar>::empty());
    } else if start + w < len {
        lemma_split_from_concat(s, i, start + w, w);
        let tail = split_from(i, start + w, len, w);
        assert(texts.drop_first() =~= chunk_texts(s, tail));
        assert(texts.first() == s.subrange(start, start + w));
        assert(s.subrange(start, len) =~= s.subrange(start, start + w) + s.subrange(
            start + w,
            len,
        ));
        assert forall|k: int| 1 <= k < cs.len() implies cs[k] == tail[k - 1] by {}
    } else {
        assert(texts.drop_first() =~= Seq::<Seq<StyledChar>>::empty());
        assert(texts.first() == s.subrange(start, len));
        assert(texts.flatten() == texts.first() + texts.drop_first().flatten());
        assert(texts.flatten() =~= s.subrange(start, len));
    }
}

/// Reflowing a line loses and repeats nothing: the texts of its chunks, concatenated,
/// are the line itself. Every chunk holds at most `w` characters, every chunk but the
/// last exactly `w`, and an empty line gives exactly one empty chunk.
pub proof fn lemma_reflow_line_exact(s: Seq<StyledChar>, i: int, w: int)
    requires
        w >= 1,
        s.len() <= usize::MAX,
    ensures
        ({
            let cs = line_chunks(i, s.len() as int, w);
            &&& chunk_texts(s, cs).flatten() == s
            &&& forall|k: int| 0 <= k < cs.len() ==> #[trigger] cs[k].end - cs[k].start <= w
            &&& forall|k: int| 0 <= k < cs.len() - 1 ==> #[trigger] cs[k].end - cs[k].start == w
            &&& s.len() == 0 ==> cs.len() == 1 && cs[0].start == 0 && cs[0].end == 0
        }),
{
    let cs = line_chunks(i, s.len() as int, w);
    if s.len() == 0 {
        let texts = chunk_texts(s, cs);
        assert(texts.drop_first() =~= Seq::<Seq<StyledChar>>::empty());
        assert(texts.first() =~= s);
        assert(texts.flatten() == texts.first() + texts.drop_first().flatten());
        assert(texts.flatten() =~= s);
    } else {
        lemma_split_from_concat(s, i, 0, w);
        lemma_split_from_bounds(i, 0, s.len() as int, w);
        assert(s.subrange(0, s.len() as int) =~= s);
    }
}

/// The reflow association is a bijection onto the reflowed lines: its index lists,
/// concatenated in logical line order, are `0, 1, ..., n - 1` for `n` reflowed lines.
pub proof fn lemma_association_bijection(lines: Seq<StyledLine>, w: int)
    ensures
        assoc_spec(lines, w).flatten() == Seq::new(
            reflow_spec(lines, w).len(),
            |j: int| j as usize,
        ),
{
    lemma_assoc_flatten_upto(lines, w, lines.len() as int);
}

proof fn lemma_assoc_flatten_upto(lines: Seq<StyledLine>, w: int, n: int)
    requires
        0 <= n <= lines.len(),
    ensures
        assoc_upto(lines, w, n).flatten() == Seq::new(
            reflow_upto(lines, w, n).len(),
            |j: int| j as usize,
        ),
    decreases n,
{
    if n == 0 {
        assert(assoc_upto(lines, w, n).flatten() =~= Seq::<usize>::empty());
        assert(Seq::new(reflow_upto(lines, w, n).len(), |j: int| j as usize) =~= Seq::<
            usize,
        >::empty());
    } else {
        lemma_assoc_flatten_upto(lines, w, n - 1);
        let prev = assoc_upto(lines, w, n - 1);
        let base = reflow_upto(lines, w, n - 1).len();
        let count = line_chunks(n - 1, lines[n - 1]@.len() as int, w).len();
        let entry = Seq::new(count, |k: int| (base + k) as usize);
        prev.lemma_flatten_push(entry);
        assert(assoc_upto(lines, w, n) == prev.push(entry));
        assert(reflow_upto(lines, w, n).len() == base + count);
        assert(prev.flatten() + entry =~= Seq::new(
            reflow_upto(lines, w, n).len(),
            |j: int| j as usize,
        ));
    }
}


/// Where no glyph is wider than one column, a chunk of the reflow is no wider on the
/// terminal than it is long, so no wider than the wrap width.
pub proof fn lemma_narrow_chunk_width(s: Seq<StyledChar>, start: int, end: int)
    requires
        0 <= start <= end <= s.len(),
        forall|k: int| 0 <= k < s.len() ==> glyph_width(#[trigger] s[k].ch) <= 1,
    ensures
        range_width_spec(s, start, end) <= end - start,
    decreases end - start,
{
    if start < end {
        lemma_narrow_chunk_width(s, start, end - 1);
        assert(glyph_width(s[end - 1].ch) <= 1);
    }
}

proof fn lemma_reflow_upto_monotone(lines: Seq<StyledLine>, w: int, a: int, b: int)
    requires
        0 <= a <= b,
    ensures
        reflow_upto(lines, w, a).len() <= reflow_upto(lines, w, b).len(),
    decreases b - a,
{
    if a < b {
        lemma_reflow_upto_monotone(lines, w, a, b - 1);
    }
}

/// Entry `c` of line `i` in the association of the first `n` lines is the index
/// just past the reflowed lines of the lines before `i`, plus `c`.
pub open spec fn entry_at(lines: Seq<StyledLine>, w: int, n: int, i: int, c: int) -> bool {
    &&& assoc_upto(lines, w, n)[i][c] == reflow_upto(lines, w, i).len() + c
    &&& reflow_upto(lines, w, i).len() + c < reflow_upto(lines, w, i + 1).len()
}

proof fn lemma_assoc_entries(lines: Seq<StyledLine>, w: int, n: int)
    requires
        0 <= n <= lines.len(),
        reflow_upto(lines, w, n).len() <= usize::MAX,
    ensures
        assoc_upto(lines, w, n).len() == n,
        forall|i: int, c: int|
            0 <= i < n && 0 <= c < assoc_upto(lines, w, n)[i].len() ==> #[trigger] entry_at(
                lines,
                w,
                n,
                i,
                c,
            ),
    decreases n,
{
    if n > 0 {
        lemma_reflow_upto_monotone(lines, w, n - 1, n);
        lemma_assoc_entries(lines, w, n - 1);
        let prev = assoc_upto(lines, w, n - 1);
        assert forall|i: int, c: int|
            0 <= i < n && 0 <= c < assoc_upto(lines, w, n)[i].len() implies #[trigger] entry_at(
            lines,
            w,
            n,
            i,
            c,
        ) by {
            if i < n - 1 {
                assert(assoc_upto(lines, w, n)[i] == prev[i]);
                assert(entry_at(lines, w, n - 1, i, c));
                assert(reflow_upto(lines, w, i).len() + c < reflow_upto(lines, w, i + 1).len());
            } else {
                let base = reflow_upto(lines, w, n - 1).len();
                let count = line_chunks(n - 1, lines[n - 1]@.len() as int, w).len();
                assert(reflow_upto(lines, w, n).len() == base + count);
                assert(assoc_upto(lines, w, n)[i] == Seq::new(count, |k: int| (base + k) as usize));
                assert(c < count);
                assert(i + 1 == n);
                assert(assoc_upto(lines, w, n)[i][c] == base + c);
            }
        }
    }
}

/// The reflow association lists no reflowed line twice.
pub proof fn lemma_assoc_disjoint(lines: Seq<StyledLine>, w: int)
    requires
        reflow_spec(lines, w).len() <= usize::MAX,
    ensures
        crate::search::assoc_disjoint(assoc_spec(lines, w)),
{
    let n = lines.len() as int;
    lemma_assoc_entries(lines, w, n);
    let a = assoc_spec(lines, w);
    assert forall|i1: int, c1: int, i2: int, c2: int|
        0 <= i1 < a.len() && 0 <= i2 < a.len() && 0 <= c1 < a[i1].len() && 0 <= c2 < a[i2].len()
            && #[trigger] a[i1][c1] == #[trigger] a[i2][c2] implies i1 == i2 && c1 == c2 by {
        assert(entry_at(lines, w, n, i1, c1));
        assert(entry_at(lines, w, n, i2, c2));
        if i1 < i2 {
            lemma_reflow_upto_monotone(lines, w, i1 + 1, i2);
        } else if i2 < i1 {
            lemma_reflow_upto_monotone(lines, w, i2 + 1, i1);
        }
    }
}

} // verus!

//! Literal search over styled lines: raw scan, overlap removal, and the remap of
//! match starts into reflowed coordinates.

use crate::style::{StyledChar, StyledLine};
use rayon::iter::{IntoParallelRefIterator, ParallelIterator};
use vstd::prelude::*;

verus! {

/// The needle's characters occur in `line` from character `i` on (styling ignored).
pub open spec fn match_at(line: Seq<StyledChar>, needle: Seq<char>, i: int) -> bool {
    &&& 0 <= i
    &&& i + needle.len() <= line.len()
    &&& forall|j: int| 0 <= j < needle.len() ==> #[trigger] line[i + j].ch == needle[j]
}

/// The starts `i < n` at which the needle occurs, ascending.
pub open spec fn raw_matches_upto(line: Seq<StyledChar>, needle: Seq<char>, n: int) -> Seq<usize>
    decreases n,
{
    if n <= 0 {
        Seq::empty()
    } else if match_at(line, needle, n - 1) {
        raw_matches_upto(line, needle, n - 1).push((n - 1) as usize)
    } else {
        raw_matches_upto(line, needle, n - 1)
    }
}

/// Every start in the line at which the needle occurs, ascending.
pub open spec fn raw_matches(line: Seq<StyledChar>, needle: Seq<char>) -> Seq<usize> {
    raw_matches_upto(line, needle, line.len() as int)
}

/// Of the first `k` starts of `s`, those kept when each start that lies before the
/// end (`start + n`) of the previously kept one is dropped.
pub open spec fn dedup_upto(s: Seq<usize>, n: int, k: int) -> Seq<usize>
    decreases k,
{
    if k <= 0 {
        Seq::empty()
    } else {
        let d = dedup_upto(s, n, k - 1);
        if d.len() == 0 || s[k - 1] >= d.last() + n {
            d.push(s[k - 1])
        } else {
            d
        }
    }
}

/// The starts of `s` that survive overlap removal for a needle of `n` characters.
pub open spec fn dedup_spec(s: Seq<usize>, n: int) -> Seq<usize> {
    dedup_upto(s, n, s.len() as int)
}

/// The non-overlapping match starts of the needle in one line.
pub open spec fn line_matches(line: Seq<StyledChar>, needle: Seq<char>) -> Seq<usize> {
    dedup_spec(raw_matches(line, needle), needle.len() as int)
}

/// Whether the needle occurs in `line` at character `i`.
pub fn matches_at(line: &Vec<StyledChar>, needle: &Vec<char>, i: usize) -> (r: bool)
    ensures
        r == match_at(line@, needle@, i as int),
{
    if i > line.len() || needle.len() > line.len() - i {
        return false;
    }
    let len = line.len();
    let mut j: usize = 0;
    while j < needle.len()
        invariant
            len == line@.len(),
            i + needle@.len() <= line@.len(),
            j <= needle@.len(),
            forall|t: int| 0 <= t < j ==> #[trigger] line@[i + t].ch == needle@[t],
        decreases needle@.len() - j,
    {
        if line[i + j].ch != needle[j] {
            return false;
        }
        j = j + 1;
    }
    true
}

/// Every character offset of `line` at which the needle occurs, ascending.
pub fn find_matches(line: &Vec<StyledChar>, needle: &Vec<char>) -> (r: Vec<usize>)
    ensures
        r@ == raw_matches(line@, needle@),
{
    let mut found: Vec<usize> = Vec::new();
    let mut i: usize = 0;
    while i < line.len()
        invariant
            i <= line@.len(),
            found@ == raw_matches_upto(line@, needle@, i as int),
        decreases line@.len() - i,
    {
        if matches_at(line, needle, i) {
            found.push(i);
        }
        i = i + 1;
    }
    found
}

/// Drops every start that lies before the end of the previously kept match, for a
/// needle of `needle_len` characters; the first of a run of overlapping matches stays.
pub fn dedup_matches(starts: &Vec<usize>, needle_len: usize) -> (r: Vec<usize>)
    ensures
        r@ == dedup_spec(starts@, needle_len as int),
{
    let mut kept: Vec<usize> = Vec::new();
    let mut k: usize = 0;
    while k < starts.len()
        invariant
            k <= starts@.len(),
            kept@ == dedup_upto(starts@, needle_len as int, k as int),
        decreases starts@.len() - k,
    {
        let pos = starts[k];
        if kept.len() == 0 {
            kept.push(pos);
        } else {
            let prev = kept[kept.len() - 1];
            if pos >= prev && pos - prev >= needle_len {
                kept.push(pos);
            }
        }
        k = k + 1;
    }
    kept
}

/// Relies on rayon's `par_iter().map(..).collect()` over a `Vec`: an indexed parallel
/// iterator, whose collected `Vec` holds the results in the order of the input.
#[verifier::external_body]
fn par_find_matches(lines: &Vec<StyledLine>, needle: &Vec<char>) -> (r: Vec<Vec<usize>>)
    ensures
        r@.len() == lines@.len(),
        forall|i: int| 0 <= i < lines@.len() ==> #[trigger] r@[i]@ == raw_matches(lines@[i]@, needle@),
{
    lines.par_iter().map(|line| find_matches(line, needle)).collect()
}

/// The non-overlapping match starts of the needle in each line, lines scanned in parallel.
pub fn search_lines(lines: &Vec<StyledLine>, needle: &Vec<char>) -> (r: Vec<Vec<usize>>)
    ensures
        r@.len() == lines@.len(),
        forall|i: int| 0 <= i < lines@.len() ==> #[trigger] r@[i]@ == line_matches(lines@[i]@, needle@),
{
    let raw = par_find_matches(lines, needle);
    let mut result: Vec<Vec<usize>> = Vec::new();
    let mut i: usize = 0;
    while i < raw.len()
        invariant
            raw@.len() == lines@.len(),
            forall|t: int| 0 <= t < lines@.len() ==> #[trigger] raw@[t]@ == raw_matches(lines@[t]@, needle@),
            i <= raw@.len(),
            result@.len() == i,
            forall|t: int| 0 <= t < i ==> #[trigger] result@[t]@ == line_matches(lines@[t]@, needle@),
        decreases raw@.len() - i,
    {
        let kept = dedup_matches(&raw[i], needle.len());
        result.push(kept);
        i = i + 1;
    }
    result
}

/// Consecutive starts kept by overlap removal lie at least `n` apart.
pub proof fn lemma_dedup_non_overlapping(s: Seq<usize>, n: int)
    ensures
        forall|k: int|
            0 <= k < dedup_spec(s, n).len() - 1 ==> #[trigger] dedup_spec(s, n)[k + 1] >= dedup_spec(
                s,
                n,
            )[k] + n,
{
    lemma_dedup_upto_gaps(s, n, s.len() as int);
}

proof fn lemma_dedup_upto_gaps(s: Seq<usize>, n: int, m: int)
    requires
        m <= s.len(),
    ensures
        forall|k: int|
            0 <= k < dedup_upto(s, n, m).len() - 1 ==> #[trigger] dedup_upto(s, n, m)[k + 1]
                >= dedup_upto(s, n, m)[k] + n,
    decreases m,
{
    if m > 0 {
        lemma_dedup_upto_gaps(s, n, m - 1);
        let d = dedup_upto(s, n, m - 1);
        assert forall|k: int| 0 <= k < dedup_upto(s, n, m).len() - 1 implies #[trigger] dedup_upto(
            s,
            n,
            m,
        )[k + 1] >= dedup_upto(s, n, m)[k] + n by {
            if k + 1 < d.len() {
                assert(dedup_upto(s, n, m)[k + 1] == d[k + 1]);
                assert(dedup_upto(s, n, m)[k] == d[k]);
            }
        }
    }
}

/// The views of a list of index lists.
pub open spec fn views(v: Seq<Vec<usize>>) -> Seq<Seq<usize>> {
    v.map_values(|x: Vec<usize>| x@)
}

/// The first `k` starts of `pos` put into `count` chunks of width `w`: start `p`
/// goes to chunk `p / w` as offset `p % w`; a start past the last chunk is dropped.
pub open spec fn bucket_upto(pos: Seq<usize>, count: int, w: int, k: int) -> Seq<Seq<usize>>
    decreases k,
{
    if k <= 0 {
        Seq::new(count as nat, |c: int| Seq::<usize>::empty())
    } else {
        let b = bucket_upto(pos, count, w, k - 1);
        let p = pos[k - 1] as int;
        if p / w < count {
            b.update(p / w, b[p / w].push((p % w) as usize))
        } else {
            b
        }
    }
}

/// The offsets within chunk `c` (of width `w`) of the starts in `pos` that fall in
/// that chunk, in order.
pub open spec fn chunk_offsets(pos: Seq<usize>, c: int, w: int) -> Seq<usize> {
    pos.filter(|p: usize| p as int / w == c).map_values(|p: usize| (p as int % w) as usize)
}

/// Bucketing states directly: chunk `c` receives, in order, the offsets of exactly
/// the starts that fall in it.
pub proof fn lemma_bucket_direct(pos: Seq<usize>, count: int, w: int, k: int)
    requires
        0 <= k <= pos.len(),
        count >= 0,
        w > 0,
    ensures
        bucket_upto(pos, count, w, k).len() == count,
        forall|c: int|
            0 <= c < count ==> #[trigger] bucket_upto(pos, count, w, k)[c] == chunk_offsets(
                pos.take(k),
                c,
                w,
            ),
    decreases k,
{
    if k == 0 {
        assert forall|c: int| 0 <= c < count implies #[trigger] bucket_upto(pos, count, w, k)[c]
            == chunk_offsets(pos.take(k), c, w) by {
            assert(pos.take(0) =~= Seq::<usize>::empty());
            assert(pos.take(0).filter(|p: usize| p as int / w == c) =~= Seq::<usize>::empty());
            assert(chunk_offsets(pos.take(k), c, w) =~= Seq::<usize>::empty());
        }
    } else {
        lemma_bucket_direct(pos, count, w, k - 1);
        let e = pos[k - 1];
        assert(pos.take(k) =~= pos.take(k - 1).push(e));
        assert forall|c: int| 0 <= c < count implies #[trigger] bucket_upto(pos, count, w, k)[c]
            == chunk_offsets(pos.take(k), c, w) by {
            let f = |p: usize| p as int / w == c;
            pos.take(k - 1).lemma_filter_push(e, f);
            let prev = pos.take(k - 1).filter(f);
            let b = bucket_upto(pos, count, w, k - 1);
            assert(e as int / w >= 0) by (nonlinear_arith)
                requires e as int >= 0, w > 0;
            if e as int / w == c {
                assert(bucket_upto(pos, count, w, k)[c] == b[c].push((e as int % w) as usize));
                assert(prev.push(e).map_values(|p: usize| (p as int % w) as usize) =~= prev.map_values(
                    |p: usize| (p as int % w) as usize,
                ).push((e as int % w) as usize));
            }
        }
    }
}

/// `rs` with entry `targets[c]` set to `buckets[c]` for each `c < k` in turn,
/// where that target is an index of `rs`.
pub open spec fn assign_upto(
    rs: Seq<Seq<usize>>,
    targets: Seq<usize>,
    buckets: Seq<Seq<usize>>,
    k: int,
) -> Seq<Seq<usize>>
    decreases k,
{
    if k <= 0 {
        rs
    } else {
        let r = assign_upto(rs, targets, buckets, k - 1);
        if (targets[k - 1] as int) < r.len() {
            r.update(targets[k - 1] as int, buckets[k - 1])
        } else {
            r
        }
    }
}

/// Reflowed match positions after the first `m` logical lines have been remapped:
/// the matches of line `i` go, chunk by chunk, to the reflowed lines that the
/// association lists for line `i`.
pub open spec fn remap_upto(
    positions: Seq<Seq<usize>>,
    assoc: Seq<Seq<usize>>,
    n: int,
    w: int,
    m: int,
) -> Seq<Seq<usize>>
    decreases m,
{
    if m <= 0 {
        Seq::new(n as nat, |j: int| Seq::<usize>::empty())
    } else {
        let r = remap_upto(positions, assoc, n, w, m - 1);
        if m - 1 < assoc.len() {
            let targets = assoc[m - 1];
            let b = bucket_upto(positions[m - 1], targets.len() as int, w, positions[m - 1].len() as int);
            assign_upto(r, targets, b, targets.len() as int)
        } else {
            r
        }
    }
}

/// Match positions of every logical line remapped onto `n` reflowed lines.
pub open spec fn remap_spec(positions: Seq<Seq<usize>>, assoc: Seq<Seq<usize>>, n: int, w: int) -> Seq<Seq<usize>> {
    remap_upto(positions, assoc, n, w, positions.len() as int)
}

/// Puts match starts into `count` chunks of width `w`, as offsets within each chunk.
pub fn bucket_positions(pos: &Vec<usize>, count: usize, w: usize) -> (r: Vec<Vec<usize>>)
    requires
        w > 0,
    ensures
        views(r@) == bucket_upto(pos@, count as int, w as int, pos@.len() as int),
        r@.len() == count,
{
    let mut buckets: Vec<Vec<usize>> = Vec::new();
    let mut c: usize = 0;
    while c < count
        invariant
            c <= count,
            buckets@.len() == c,
            views(buckets@) == Seq::new(c as nat, |t: int| Seq::<usize>::empty()),
        decreases count - c,
    {
        let ghost prev = buckets@;
        let e: Vec<usize> = Vec::new();
        buckets.push(e);
        c = c + 1;
        assert forall|t: int| 0 <= t < c implies #[trigger] views(buckets@)[t] == Seq::<usize>::empty() by {
            if t < c - 1 {
                assert(buckets@[t] == prev[t]);
                assert(views(prev)[t] == Seq::<usize>::empty());
            } else {
                assert(buckets@[t] == e);
            }
        }
        assert(views(buckets@) =~= Seq::new(c as nat, |t: int| Seq::<usize>::empty()));
    }
    assert(views(buckets@) =~= bucket_upto(pos@, count as int, w as int, 0));
    let mut k: usize = 0;
    while k < pos.len()
        invariant
            w > 0,
            k <= pos@.len(),
            buckets@.len() == count,
            views(buckets@) == bucket_upto(pos@, count as int, w as int, k as int),
        decreases pos@.len() - k,
    {
        let p = pos[k];
        let chunk = p / w;
        if chunk < count {
            let mut b = buckets[chunk].clone();
            b.push(p % w);
            let ghost prev = buckets@;
            buckets.set(chunk, b);
            assert(views(buckets@) =~= views(prev).update(chunk as int, views(prev)[chunk as int].push(p % w)));
        }
        k = k + 1;
    }
    buckets
}

/// Remaps per-line match starts onto `n` reflowed lines of wrap width `w`, through
/// the reflow association.
pub fn remap_positions(
    positions: &Vec<Vec<usize>>,
    assoc: &Vec<Vec<usize>>,
    n: usize,
    w: usize,
) -> (r: Vec<Vec<usize>>)
    requires
        w > 0,
    ensures
        views(r@) == remap_spec(views(positions@), views(assoc@), n as int, w as int),
        r@.len() == n,
{
    let mut rs: Vec<Vec<usize>> = Vec::new();
    let mut j: usize = 0;
    while j < n
        invariant
            j <= n,
            rs@.len() == j,
            views(rs@) == Seq::new(j as nat, |t: int| Seq::<usize>::empty()),
        decreases n - j,
    {
        let ghost prev = rs@;
        let e: Vec<usize> = Vec::new();
        rs.push(e);
        j = j + 1;
        assert forall|t: int| 0 <= t < j implies #[trigger] views(rs@)[t] == Seq::<usize>::empty() by {
            if t < j - 1 {
                assert(rs@[t] == prev[t]);
                assert(views(prev)[t] == Seq::<usize>::empty());
            } else {
                assert(rs@[t] == e);
            }
        }
        assert(views(rs@) =~= Seq::new(j as nat, |t: int| Seq::<usize>::empty()));
    }
    let ghost pv = views(positions@);
    let ghost av = views(assoc@);
    let mut i: usize = 0;
    while i < positions.len()
        invariant
            w > 0,
            i <= positions@.len(),
            pv == views(positions@),
            av == views(assoc@),
            rs@.len() == n,
            views(rs@) == remap_upto(pv, av, n as int, w as int, i as int),
        decreases positions@.len() - i,
    {
        if i < assoc.len() {
            let targets = &assoc[i];
            let buckets = bucket_positions(&positions[i], targets.len(), w);
            let ghost start = views(rs@);
            let mut c: usize = 0;
            while c < targets.len()
                invariant
                    c <= targets@.len(),
                    buckets@.len() == targets@.len(),
                    rs@.len() == n,
                    views(rs@) == assign_upto(start, targets@, views(buckets@), c as int),
                decreases targets@.len() - c,
            {
                let t = targets[c];
                if t < n {
                    let ghost prev = rs@;
                    rs.set(t, buckets[c].clone());
                    assert(views(rs@) =~= views(prev).update(t as int, views(buckets@)[c as int]));
                }
                c = c + 1;
            }
            assert(av[i as int] == targets@);
            assert(pv[i as int] == positions@[i as int]@);
        }
        i = i + 1;
    }
    rs
}

/// Reflowed line `j` holds at least one match.
pub open spec fn has_match(rsp: Seq<Vec<usize>>, j: int) -> bool {
    0 <= j < rsp.len() && rsp[j]@.len() > 0
}

/// Steps from `s` to `j` when walking forward from `s`, wrapping past the end.
pub open spec fn forward_distance(s: int, j: int, len: int) -> int {
    if j > s {
        j - s
    } else {
        j + len
    }
}

/// Steps from `s` to `j` when walking backward from `s`, wrapping past the start.
pub open spec fn backward_distance(s: int, j: int, len: int) -> int {
    if j < s {
        s - j
    } else {
        s + len - j
    }
}

pub open spec fn search_distance(s: int, j: int, len: int, forward: bool) -> int {
    if forward {
        forward_distance(s, j, len)
    } else {
        backward_distance(s, j, len)
    }
}

/// A line other than `s` that holds a match.
pub open spec fn match_candidate(rsp: Seq<Vec<usize>>, s: int, j: int) -> bool {
    has_match(rsp, j) && j != s
}

/// `j` is the candidate nearest to `s` in the direction of the walk.
pub open spec fn nearest_match(rsp: Seq<Vec<usize>>, s: int, j: int, forward: bool) -> bool {
    &&& match_candidate(rsp, s, j)
    &&& forall|k: int|
        #[trigger] match_candidate(rsp, s, k) ==> search_distance(s, j, rsp.len() as int, forward)
            <= search_distance(s, k, rsp.len() as int, forward)
}

/// The nearest reflowed line other than `scroll` that holds a match, walking
/// circularly forward (or backward) from `scroll`.
pub fn next_match_line(rsp: &Vec<Vec<usize>>, scroll: usize, forward: bool) -> (r: Option<usize>)
    ensures
        r matches Some(j) ==> nearest_match(rsp@, scroll as int, j as int, forward),
        r is None ==> forall|k: int| !#[trigger] match_candidate(rsp@, scroll as int, k),
{
    let len = rsp.len();
    let below = if scroll < len {
        scroll
    } else {
        len
    };
    if forward {
        // lines after `scroll`, then lines before it
        let mut j: usize = if scroll >= len {
            len
        } else {
            scroll + 1
        };
        while j < len
            invariant
                forward,
                len == rsp@.len(),
                scroll < j <= len || (scroll >= len && j == len),
                forall|k: int| scroll < k < j ==> !#[trigger] has_match(rsp@, k),
            decreases len - j,
        {
            if rsp[j].len() > 0 {
                proof {
                    assert forall|k: int| #[trigger] match_candidate(rsp@, scroll as int, k) implies search_distance(
                        scroll as int,
                        (j) as int,
                        len as int,
                        forward,
                    ) <= search_distance(scroll as int, k, len as int, forward) by {
                        assert(has_match(rsp@, k));
                    }
                }
                return Some(j);
            }
            j = j + 1;
        }
        let mut i: usize = 0;
        while i < below
            invariant
                forward,
                len == rsp@.len(),
                below <= len,
                below == scroll || below == len,
                below <= scroll,
                i <= below,
                forall|k: int| scroll < k < len ==> !#[trigger] has_match(rsp@, k),
                forall|k: int| 0 <= k < i ==> !#[trigger] has_match(rsp@, k),
            decreases below - i,
        {
            if rsp[i].len() > 0 {
                proof {
                    assert forall|k: int| #[trigger] match_candidate(rsp@, scroll as int, k) implies search_distance(
                        scroll as int,
                        (i) as int,
                        len as int,
                        forward,
                    ) <= search_distance(scroll as int, k, len as int, forward) by {
                        assert(has_match(rsp@, k));
                    }
                }
                return Some(i);
            }
            i = i + 1;
        }
        None
    } else {
        // lines before `scroll`, nearest first, then lines after it from the end
        let mut i: usize = below;
        while i > 0
            invariant
                !forward,
                len == rsp@.len(),
                below <= len,
                below == scroll || below == len,
                below <= scroll,
                i <= below,
                forall|k: int| i <= k < below ==> !#[trigger] has_match(rsp@, k),
            decreases i,
        {
            if rsp[i - 1].len() > 0 {
                proof {
                    assert forall|k: int| #[trigger] match_candidate(rsp@, scroll as int, k) implies search_distance(
                        scroll as int,
                        (i - 1) as int,
                        len as int,
                        forward,
                    ) <= search_distance(scroll as int, k, len as int, forward) by {
                        assert(has_match(rsp@, k));
                    }
                }
                return Some(i - 1);
            }
            i = i - 1;
        }
        let mut j: usize = len;
        while j > 0 && j - 1 > below
            invariant
                !forward,
                len == rsp@.len(),
                below <= len,
                below == scroll || below == len,
                below <= scroll,
                j <= len,
                forall|k: int| 0 <= k < below ==> !#[trigger] has_match(rsp@, k),
                j > below || below == len,
                forall|k: int| j <= k < len ==> !#[trigger] has_match(rsp@, k),
            decreases j,
        {
            if rsp[j - 1].len() > 0 {
                proof {
                    assert forall|k: int| #[trigger] match_candidate(rsp@, scroll as int, k) implies search_distance(
                        scroll as int,
                        (j - 1) as int,
                        len as int,
                        forward,
                    ) <= search_distance(scroll as int, k, len as int, forward) by {
                        assert(has_match(rsp@, k));
                    }
                }
                return Some(j - 1);
            }
            j = j - 1;
        }
        None
    }
}

/// No reflowed line is listed twice in the association.
pub open spec fn assoc_disjoint(assoc: Seq<Seq<usize>>) -> bool {
    forall|i1: int, c1: int, i2: int, c2: int|
        0 <= i1 < assoc.len() && 0 <= i2 < assoc.len() && 0 <= c1 < assoc[i1].len() && 0 <= c2
            < assoc[i2].len() && #[trigger] assoc[i1][c1] == #[trigger] assoc[i2][c2] ==> i1 == i2
            && c1 == c2
}

proof fn lemma_assign(rs: Seq<Seq<usize>>, t: Seq<usize>, b: Seq<Seq<usize>>, k: int)
    requires
        0 <= k <= t.len(),
        b.len() == t.len(),
        forall|c1: int, c2: int|
            0 <= c1 < t.len() && 0 <= c2 < t.len() && #[trigger] t[c1] == #[trigger] t[c2] ==> c1
                == c2,
    ensures
        assign_upto(rs, t, b, k).len() == rs.len(),
        forall|c: int|
            0 <= c < k && (t[c] as int) < rs.len() ==> #[trigger] assign_upto(rs, t, b, k)[t[c] as int]
                == b[c],
        forall|r: int|
            0 <= r < rs.len() && (forall|c: int| 0 <= c < k ==> t[c] != r) ==> #[trigger] assign_upto(
                rs,
                t,
                b,
                k,
            )[r] == rs[r],
    decreases k,
{
    if k > 0 {
        lemma_assign(rs, t, b, k - 1);
        assert forall|c: int| 0 <= c < k && (t[c] as int) < rs.len() implies #[trigger] assign_upto(
            rs,
            t,
            b,
            k,
        )[t[c] as int] == b[c] by {
            if c < k - 1 {
                assert(t[c] != t[k - 1]);
            }
        }
        assert forall|r: int|
            0 <= r < rs.len() && (forall|c: int| 0 <= c < k ==> t[c] != r) implies #[trigger] assign_upto(
            rs,
            t,
            b,
            k,
        )[r] == rs[r] by {
            assert(t[k - 1] != r);
            assert forall|c: int| 0 <= c < k - 1 implies t[c] != r by {}
        }
    }
}

proof fn lemma_remap_upto_direct(
    pos: Seq<Seq<usize>>,
    assoc: Seq<Seq<usize>>,
    n: int,
    w: int,
    m: int,
)
    requires
        assoc_disjoint(assoc),
        0 <= m <= pos.len(),
        n >= 0,
        w > 0,
    ensures
        remap_upto(pos, assoc, n, w, m).len() == n,
        forall|i: int, c: int|
            0 <= i < m && i < assoc.len() && 0 <= c < assoc[i].len() && (assoc[i][c] as int) < n
                ==> #[trigger] remap_upto(pos, assoc, n, w, m)[assoc[i][c] as int] == chunk_offsets(
                pos[i],
                c,
                w,
            ),
        forall|r: int|
            0 <= r < n && (forall|i: int, c: int|
                0 <= i < m && i < assoc.len() && 0 <= c < assoc[i].len() ==> #[trigger] assoc[i][c]
                    != r) ==> #[trigger] remap_upto(pos, assoc, n, w, m)[r] == Seq::<usize>::empty(),
    decreases m,
{
    if m > 0 {
        lemma_remap_upto_direct(pos, assoc, n, w, m - 1);
        let prev = remap_upto(pos, assoc, n, w, m - 1);
        if m - 1 < assoc.len() {
            let t = assoc[m - 1];
            let p = pos[m - 1];
            let b = bucket_upto(p, t.len() as int, w, p.len() as int);
            lemma_bucket_direct(p, t.len() as int, w, p.len() as int);
            assert(p.take(p.len() as int) =~= p);
            assert forall|c1: int, c2: int|
                0 <= c1 < t.len() && 0 <= c2 < t.len() && #[trigger] t[c1] == #[trigger] t[c2]
                    implies c1 == c2 by {
                assert(assoc[m - 1][c1] == assoc[m - 1][c2]);
            }
            lemma_assign(prev, t, b, t.len() as int);
            let cur = remap_upto(pos, assoc, n, w, m);
            assert(cur == assign_upto(prev, t, b, t.len() as int));
            assert forall|i: int, c: int|
                0 <= i < m && i < assoc.len() && 0 <= c < assoc[i].len() && (assoc[i][c] as int)
                    < n implies #[trigger] cur[assoc[i][c] as int] == chunk_offsets(pos[i], c, w) by {
                if i < m - 1 {
                    assert forall|c2: int| 0 <= c2 < t.len() implies t[c2] != assoc[i][c] by {
                        if t[c2] == assoc[i][c] {
                            assert(assoc[m - 1][c2] == assoc[i][c]);
                        }
                    }
                } else {
                    assert(b[c] == chunk_offsets(p, c, w));
                }
            }
            assert forall|r: int|
                0 <= r < n && (forall|i: int, c: int|
                    0 <= i < m && i < assoc.len() && 0 <= c < assoc[i].len() ==> #[trigger] assoc[i][c]
                        != r) implies #[trigger] cur[r] == Seq::<usize>::empty() by {
                assert forall|c: int| 0 <= c < t.len() implies t[c] != r by {
                    assert(assoc[m - 1][c] != r);
                }
                assert forall|i: int, c: int|
                    0 <= i < m - 1 && i < assoc.len() && 0 <= c < assoc[i].len() implies #[trigger] assoc[i][c]
                    != r by {}
            }
        }
    }
}

/// The remap stated directly, for an association that lists no reflowed line twice
/// (as the reflow's does): reflowed line `assoc[i][c]` holds, in order, the offsets
/// within chunk `c` of the match starts of line `i` that fall in that chunk, and a
/// reflowed line listed by no entry holds none.
pub proof fn lemma_remap_direct(pos: Seq<Seq<usize>>, assoc: Seq<Seq<usize>>, n: int, w: int)
    requires
        assoc_disjoint(assoc),
        n >= 0,
        w > 0,
    ensures
        remap_spec(pos, assoc, n, w).len() == n,
        forall|i: int, c: int|
            0 <= i < pos.len() && i < assoc.len() && 0 <= c < assoc[i].len() && (assoc[i][c] as int)
                < n ==> #[trigger] remap_spec(pos, assoc, n, w)[assoc[i][c] as int] == chunk_offsets(
                pos[i],
                c,
                w,
            ),
        forall|r: int|
            0 <= r < n && (forall|i: int, c: int|
                0 <= i < pos.len() && i < assoc.len() && 0 <= c < assoc[i].len() ==> #[trigger] assoc[i][c]
                    != r) ==> #[trigger] remap_spec(pos, assoc, n, w)[r] == Seq::<usize>::empty(),
{
    lemma_remap_upto_direct(pos, assoc, n, w, pos.len() as int);
}

} // verus!

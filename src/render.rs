//! Painting a frame: the visible reflowed lines with their matches highlighted,
//! blank rows above them, and the status line.

use crate::context::{sat_add, sat_sub, PromptState, UiContext};
use crate::reflow::chunk_in;
use crate::size::{fit_count, tail_rows};
use crate::status::{decimal_spec, push_chars, push_decimal};
use crate::style::{Attributes, Color, StyledChar, ATTR_RESET, ATTR_REVERSE};
use crate::writer::{write_reverse_spec, write_seq, ChWriter, TermOp};
use vstd::prelude::*;

verus! {

/// The text of the status line for state `c`.
pub open spec fn status_text(c: UiContext) -> Seq<char> {
    match c.prompt_state {
        PromptState::Normal => seq!['l', 'i', 'n', 'e', 's', ' '] + decimal_spec(
            sat_add(c.scroll, 1) as nat,
        ) + seq!['-'] + decimal_spec(
            sat_sub(sat_add(c.scroll, c.size_ctx.terminal_line), c.prev_wrap) as nat,
        ) + seq!['/'] + decimal_spec(c.reflowed_lines@.len()) + if c.scroll == c.max_scroll_spec() {
            seq![' ', '(', 'E', 'N', 'D', ')']
        } else {
            Seq::empty()
        },
        PromptState::Number(n) => seq![':'] + decimal_spec(n as nat),
        PromptState::Search(s) => seq!['/'] + s@,
    }
}

/// `ops` paint the status line on row `row`: its text, in reverse video if `reverse`.
pub open spec fn prompt_row(ops: Seq<TermOp>, row: usize, text: Seq<char>, reverse: bool) -> bool {
    &&& ops.len() >= 3
    &&& ops[0] == TermOp::MoveTo { column: 0, row }
    &&& ops[1] == TermOp::ClearLine
    &&& if reverse {
        &&& ops.len() == 5
        &&& ops[2] == TermOp::SetAttribute(ATTR_REVERSE)
        &&& ops[3] matches TermOp::Text(t) && t@ == text
        &&& ops[4] == TermOp::SetAttribute(ATTR_RESET)
    } else {
        ops.len() == 3 && (ops[2] matches TermOp::Text(t) && t@ == text)
    }
}

/// The status line is in reverse video but for a numeric prefix.
pub open spec fn prompt_reverse_for(c: UiContext) -> bool {
    !(c.prompt_state matches PromptState::Number(_))
}

/// `m` blank rows: each cleared, then the cursor moved to the next.
pub open spec fn margin_ops(m: nat) -> Seq<TermOp> {
    Seq::new(2 * m, |i: int| if i % 2 == 0 { TermOp::ClearLine } else { TermOp::NextLine })
}

/// The writer and operations after painting reflowed lines `c.scroll .. to` of state
/// `c` without highlights: each row cleared, its characters written, the cursor moved
/// to the next row with the writer back at column 0.
pub open spec fn plain_rows(c: UiContext, w: ChWriter, to: int) -> (ChWriter, Seq<TermOp>)
    decreases to - c.scroll,
{
    if to <= c.scroll {
        (w, Seq::empty())
    } else {
        let (w1, o1) = plain_rows(c, w, to - 1);
        let ch = c.reflowed_lines@[to - 1];
        let (w2, o2) = write_seq(w1, c.lines@[ch.line as int]@.subrange(ch.start as int, ch.end as int));
        (ChWriter { pos: 0, ..w2 }, o1 + seq![TermOp::ClearLine] + o2 + seq![TermOp::NextLine])
    }
}

/// The writer, operations and carry after painting reflowed lines `c.scroll .. to`
/// of state `c` with matches highlighted, a match that runs past the end of a line
/// carrying on at the start of the next.
pub open spec fn hl_rows(c: UiContext, w: ChWriter, to: int) -> (ChWriter, Seq<TermOp>, usize)
    decreases to - c.scroll,
{
    if to <= c.scroll {
        (w, Seq::empty(), 0)
    } else {
        let (w1, o1, carry) = hl_rows(c, w, to - 1);
        let (w2, o2, carry2) = hl_line(c, to - 1, w1, carry as int);
        (ChWriter { pos: 0, ..w2 }, o1 + seq![TermOp::ClearLine] + o2 + seq![TermOp::NextLine], carry2)
    }
}

/// Two states that agree on what painting reads.
pub open spec fn same_picture(a: UiContext, b: UiContext) -> bool {
    &&& a.lines == b.lines
    &&& a.reflowed_lines == b.reflowed_lines
    &&& a.scroll == b.scroll
    &&& a.reflowed_search_positions == b.reflowed_search_positions
    &&& a.search_char_len == b.search_char_len
}

pub(crate) proof fn lemma_rows_same_picture(a: UiContext, b: UiContext, w: ChWriter, to: int)
    requires
        same_picture(a, b),
    ensures
        plain_rows(a, w, to) == plain_rows(b, w, to),
        hl_rows(a, w, to) == hl_rows(b, w, to),
    decreases to - a.scroll,
{
    if to > a.scroll {
        lemma_rows_same_picture(a, b, w, to - 1);
    }
}

/// The frame that paints state `c`: blank rows, the visible reflowed lines (matches
/// highlighted while a search is active), and the reset of all attributes; the status
/// line follows.
pub open spec fn frame_body(c: UiContext) -> Seq<TermOp> {
    let to = c.scroll + c.visible_count();
    let w = fresh_writer(c.size_ctx.terminal_column);
    let rows = if c.reflowed_search_positions@.len() > 0 {
        hl_rows(c, w, to).1
    } else {
        plain_rows(c, w, to).1
    };
    seq![TermOp::MoveTo { column: 0, row: 0 }] + margin_ops(c.top_margin() as nat) + rows + seq![
        TermOp::SetAttribute(ATTR_RESET),
    ]
}

/// A fresh writer for `columns` columns.
pub open spec fn fresh_writer(columns: usize) -> ChWriter {
    ChWriter {
        terminal_column: columns,
        wrap: 0,
        pos: 0,
        current_color: Color::Reset,
        current_bgcolor: Color::Reset,
        current_attribute: Attributes { bits: 0 },
    }
}

/// Painting a line's text `s` from writer `w` starts with the carried-over part `o`
/// of a match from the previous line, in reverse video and clipped to the line.
/// Gives the writer, the operations, the position reached, and what is still carried.
pub open spec fn hl_start(w: ChWriter, s: Seq<StyledChar>, o: int) -> (ChWriter, Seq<TermOp>, int, int) {
    if o > 0 {
        let q = if o < s.len() {
            o
        } else {
            s.len() as int
        };
        let (w1, ops) = write_reverse_spec(w, s.subrange(0, q));
        (w1, ops, q, o - q)
    } else {
        (w, Seq::empty(), 0, 0)
    }
}

/// After the carried-over part and the first `k` match starts of `ps` (needle of `n`
/// characters): each match starts no earlier than where painting stands and no later
/// than the line's end; the text before it is painted plainly, the match in reverse
/// video up to the line's end, and what runs past the end is carried.
pub open spec fn hl_upto(w: ChWriter, s: Seq<StyledChar>, ps: Seq<usize>, n: int, o: int, k: int) -> (
    ChWriter,
    Seq<TermOp>,
    int,
    int,
)
    decreases k,
{
    if k <= 0 {
        hl_start(w, s, o)
    } else {
        let (w1, ops, prev, carry) = hl_upto(w, s, ps, n, o, k - 1);
        let (w3, added, end, carry2) = hl_step(w1, s, prev, carry, ps[k - 1] as int, n);
        (w3, ops + added, end, carry2)
    }
}

/// One match at `p` painted from position `prev`: the writer, the operations added,
/// the position reached and the carry.
pub open spec fn hl_step(w: ChWriter, s: Seq<StyledChar>, prev: int, carry: int, p: int, n: int) -> (
    ChWriter,
    Seq<TermOp>,
    int,
    int,
) {
    let len = s.len() as int;
    let start = if p < prev {
        prev
    } else if p > len {
        len
    } else {
        p
    };
    let (end, carry2) = if n > len - start {
        (len, n - (len - start))
    } else {
        (start + n, carry)
    };
    let (w2, o2) = write_seq(w, s.subrange(prev, start));
    let (w3, o3) = write_reverse_spec(w2, s.subrange(start, end));
    (w3, o2 + o3, end, carry2)
}

/// Paints one match at `p` of `line[base..base + len]` from position `prev`: the
/// text before it plainly, the match (of `n` characters, clipped to the line) in
/// reverse video. Returns the position reached and the carry.
#[verifier::rlimit(40)]
fn paint_match(
    writer: &mut ChWriter,
    out: &mut Vec<TermOp>,
    line: &Vec<StyledChar>,
    base: usize,
    len: usize,
    n: usize,
    prev: usize,
    carry: usize,
    p: usize,
) -> (r: (usize, usize))
    requires
        prev <= len,
        base + len <= line@.len(),
        base + len <= usize::MAX,
    ensures
        ({
            let h = hl_step(
                *old(writer),
                line@.subrange(base as int, base + len),
                prev as int,
                carry as int,
                p as int,
                n as int,
            );
            &&& *final(writer) == h.0
            &&& final(out)@ == old(out)@ + h.1
            &&& r.0 == h.2
            &&& r.1 == h.3
            &&& r.0 <= len
        }),
{
    let ghost text = line@.subrange(base as int, base + len);
    let start = if p < prev {
        prev
    } else if p > len {
        len
    } else {
        p
    };
    let mut next_carry = carry;
    let end = if n > len - start {
        next_carry = n - (len - start);
        len
    } else {
        start + n
    };
    writer.write_slice(out, line, base + prev, base + start);
    writer.write_slice_reverse(out, line, base + start, base + end);
    assert(line@.subrange(base + prev, base + start) =~= text.subrange(prev as int, start as int));
    assert(line@.subrange(base + start, base + end) =~= text.subrange(start as int, end as int));
    assert(out@ =~= old(out)@ + hl_step(*old(writer), text, prev as int, carry as int, p as int, n as int).1);
    (end, next_carry)
}

/// Painting reflowed line `j` of state `c` with its matches highlighted, from writer
/// `w` with `o` characters of a match carried over: the writer, the operations, and
/// the characters of a match carried on to the next line.
pub open spec fn hl_line(c: UiContext, j: int, w: ChWriter, o: int) -> (ChWriter, Seq<TermOp>, usize) {
    let s = c.chunk_text(j);
    let ps = c.reflowed_search_positions@[j]@;
    let (w1, ops, prev, carry) = hl_upto(w, s, ps, c.search_char_len as int, o, ps.len() as int);
    let (w2, o2) = write_seq(w1, s.subrange(prev, s.len() as int));
    (w2, ops + o2, carry as usize)
}

impl UiContext {
    /// The characters of reflowed line `j`.
    pub open spec fn chunk_text(&self, j: int) -> Seq<StyledChar> {
        let ch = self.reflowed_lines@[j];
        self.lines@[ch.line as int]@.subrange(ch.start as int, ch.end as int)
    }

    /// The widths of the reflowed lines from the scroll position on.
    pub open spec fn widths_from_scroll(&self) -> Seq<usize> {
        self.reflowed_widths@.subrange(self.scroll as int, self.reflowed_widths@.len() as int)
    }

    /// How many reflowed lines from the scroll position on fit in the viewport.
    pub open spec fn visible_count(&self) -> int {
        fit_count(
            self.widths_from_scroll(),
            self.size_ctx.terminal_column as int,
            self.size_ctx.terminal_line as int,
        )
    }

    /// Rows left blank above the visible lines.
    pub open spec fn top_margin(&self) -> int {
        self.size_ctx.terminal_line - tail_rows(
            self.widths_from_scroll(),
            self.visible_count(),
            self.size_ctx.terminal_column as int,
        )
    }

    /// The text of the status line.
    pub fn status_line_text(&self) -> (r: Vec<char>)
        requires
            self.wf(),
        ensures
            r@ == status_text(*self),
    {
        let mut text: Vec<char> = Vec::new();
        match &self.prompt_state {
            PromptState::Normal => {
                text.push('l');
                text.push('i');
                text.push('n');
                text.push('e');
                text.push('s');
                text.push(' ');
                push_decimal(&mut text, self.scroll.saturating_add(1));
                text.push('-');
                push_decimal(
                    &mut text,
                    self.scroll.saturating_add(self.size_ctx.terminal_line).saturating_sub(
                        self.prev_wrap,
                    ),
                );
                text.push('/');
                push_decimal(&mut text, self.reflowed_lines.len());
                if self.scroll == self.max_scroll() {
                    text.push(' ');
                    text.push('(');
                    text.push('E');
                    text.push('N');
                    text.push('D');
                    text.push(')');
                }
            },
            PromptState::Number(n) => {
                text.push(':');
                push_decimal(&mut text, *n);
            },
            PromptState::Search(s) => {
                text.push('/');
                push_chars(&mut text, s);
            },
        }
        assert(text@ =~= status_text(*self));
        text
    }

    /// Rebuilds the status line when it is outdated.
    pub fn update_prompt(&mut self)
        requires
            old(self).wf(),
        ensures
            final(self).wf(),
            !final(self).prompt_outdated,
            old(self).prompt_outdated ==> final(self).prompt@ == status_text(*old(self))
                && final(self).prompt_reverse == prompt_reverse_for(*old(self)),
            !old(self).prompt_outdated ==> final(self).prompt == old(self).prompt
                && final(self).prompt_reverse == old(self).prompt_reverse,
            *final(self) == (UiContext {
                prompt: final(self).prompt,
                prompt_reverse: final(self).prompt_reverse,
                prompt_outdated: false,
                ..*old(self)
            }),
    {
        if self.prompt_outdated {
            let text = self.status_line_text();
            self.prompt_reverse = match &self.prompt_state {
                PromptState::Number(_) => false,
                _ => true,
            };
            self.prompt = text;
            self.prompt_outdated = false;
        }
    }

    /// Paints reflowed line `j` with its matches in reverse video. `overflow` is the
    /// part of a match that ran past the end of the previous line; returns the part
    /// of a match that runs past the end of this one.
    #[verifier::rlimit(40)]
    fn render_highlighted(&self, writer: &mut ChWriter, out: &mut Vec<TermOp>, j: usize, overflow: usize) -> (r: usize)
        requires
            self.wf(),
            j < self.reflowed_lines@.len(),
            self.reflowed_search_positions@.len() == self.reflowed_lines@.len(),
        ensures
            ({
                let h = hl_line(*self, j as int, *old(writer), overflow as int);
                &&& *final(writer) == h.0
                &&& final(out)@ == old(out)@ + h.1
                &&& r == h.2
            }),
    {
        let ghost o0 = out@;
        let ghost w0 = *writer;
        let c = self.reflowed_lines[j];
        assert(chunk_in(self.reflowed_lines@[j as int], self.lines@));
        let line = &self.lines[c.line];
        let ghost text = self.chunk_text(j as int);
        let base = c.start;
        let len = c.end - c.start;
        let mut prev: usize = 0;
        let mut carry: usize = 0;
        if overflow > 0 {
            let o = if overflow < len {
                overflow
            } else {
                len
            };
            writer.write_slice_reverse(out, line, base, base + o);
            assert(line@.subrange(base as int, base + o) =~= text.subrange(0, o as int));
            prev = o;
            carry = overflow - o;
        }
        assert(hl_start(w0, text, overflow as int) == (*writer, out@.subrange(o0.len() as int, out@.len() as int), prev as int, carry as int)) by {
            assert(out@.subrange(o0.len() as int, out@.len() as int) =~= if overflow > 0 {
                hl_start(w0, text, overflow as int).1
            } else {
                Seq::<TermOp>::empty()
            });
        }
        let positions = &self.reflowed_search_positions[j];
        let ghost ps = positions@;
        let mut k: usize = 0;
        while k < positions.len()
            invariant
                prev <= len,
                base + len == c.end,
                c.end <= line@.len(),
                text == line@.subrange(base as int, base + len),
                ps == positions@,
                k <= ps.len(),
                out@.len() >= o0.len(),
                out@.subrange(0, o0.len() as int) == o0,
                hl_upto(w0, text, ps, self.search_char_len as int, overflow as int, k as int) == (
                    *writer,
                    out@.subrange(o0.len() as int, out@.len() as int),
                    prev as int,
                    carry as int,
                ),
            decreases positions@.len() - k,
        {
            let ghost before = out@;
            let (end, next_carry) = paint_match(
                writer,
                out,
                line,
                base,
                len,
                self.search_char_len,
                prev,
                carry,
                positions[k],
            );
            proof {
                assert(out@.subrange(0, o0.len() as int) =~= before.subrange(0, o0.len() as int));
                assert(out@.subrange(o0.len() as int, out@.len() as int) =~= before.subrange(
                    o0.len() as int,
                    before.len() as int,
                ) + out@.subrange(before.len() as int, out@.len() as int));
            }
            prev = end;
            carry = next_carry;
            k = k + 1;
        }
        writer.write_slice(out, line, base + prev, base + len);
        proof {
            assert(line@.subrange(base + prev, base + len) =~= text.subrange(prev as int, len as int));
            assert(self.reflowed_search_positions@[j as int]@ == ps);
            assert(text.len() == len);
            assert(out@ =~= o0 + out@.subrange(o0.len() as int, out@.len() as int));
        }
        carry
    }

    /// Appends the operations that paint the status line on its row.
    pub fn write_prompt(&self, out: &mut Vec<TermOp>)
        ensures
            final(out)@.len() == old(out)@.len() + if self.prompt_reverse {
                5int
            } else {
                3int
            },
            final(out)@.subrange(0, old(out)@.len() as int) == old(out)@,
            prompt_row(
                final(out)@.subrange(old(out)@.len() as int, final(out)@.len() as int),
                self.size_ctx.terminal_line,
                self.prompt@,
                self.prompt_reverse,
            ),
    {
        let ghost o0 = out@;
        out.push(TermOp::MoveTo { column: 0, row: self.size_ctx.terminal_line });
        out.push(TermOp::ClearLine);
        let mut text: Vec<char> = Vec::new();
        push_chars(&mut text, &self.prompt);
        if self.prompt_reverse {
            out.push(TermOp::SetAttribute(ATTR_REVERSE));
            out.push(TermOp::Text(text));
            out.push(TermOp::SetAttribute(ATTR_RESET));
        } else {
            out.push(TermOp::Text(text));
        }
        assert(out@.subrange(0, o0.len() as int) =~= o0);
    }

    /// Paints the whole viewport: blank rows above the content so that it sits at the
    /// bottom, the reflowed lines that fit from the scroll position on (matches in
    /// reverse video while a search is active), then the status line.
    pub fn render_frame(&mut self) -> (r: Vec<TermOp>)
        requires
            old(self).wf(),
        ensures
            final(self).wf(),
            r@.len() >= 5,
            r@[0] == (TermOp::MoveTo { column: 0, row: 0 }),
            !final(self).prompt_outdated,
            prompt_row(
                r@.subrange(r@.len() - if final(self).prompt_reverse { 5int } else { 3int }, r@.len() as int),
                final(self).size_ctx.terminal_line,
                final(self).prompt@,
                final(self).prompt_reverse,
            ),
            *final(self) == (UiContext {
                prev_wrap: final(self).prev_wrap,
                prompt: final(self).prompt,
                prompt_reverse: final(self).prompt_reverse,
                prompt_outdated: false,
                ..*old(self)
            }),
            old(self).prompt_outdated ==> final(self).prompt@ == status_text(*final(self))
                && final(self).prompt_reverse == prompt_reverse_for(*final(self)),
            !old(self).prompt_outdated ==> final(self).prompt == old(self).prompt
                && final(self).prompt_reverse == old(self).prompt_reverse,
            old(self).reflowed_search_positions@.len() == 0 ==> ({
                let rows = plain_rows(
                    *old(self),
                    fresh_writer(old(self).size_ctx.terminal_column),
                    old(self).scroll + old(self).visible_count(),
                );
                &&& r@.subrange(0, r@.len() - if final(self).prompt_reverse { 5int } else { 3int })
                    == seq![TermOp::MoveTo { column: 0, row: 0 }] + margin_ops(
                    old(self).top_margin() as nat,
                ) + rows.1 + seq![TermOp::SetAttribute(ATTR_RESET)]
                &&& final(self).prev_wrap == rows.0.wrap
            }),
            old(self).reflowed_search_positions@.len() > 0 ==> ({
                let rows = hl_rows(
                    *old(self),
                    fresh_writer(old(self).size_ctx.terminal_column),
                    old(self).scroll + old(self).visible_count(),
                );
                &&& r@.subrange(0, r@.len() - if final(self).prompt_reverse { 5int } else { 3int })
                    == seq![TermOp::MoveTo { column: 0, row: 0 }] + margin_ops(
                    old(self).top_margin() as nat,
                ) + rows.1 + seq![TermOp::SetAttribute(ATTR_RESET)]
                &&& final(self).prev_wrap == rows.0.wrap
            }),
    {
        let ghost s0 = *self;
        let mut out: Vec<TermOp> = Vec::new();
        out.push(TermOp::MoveTo { column: 0, row: 0 });
        let mut writer = ChWriter::new(self.size_ctx.terminal_column);
        let (fit, margin) = self.size_ctx.calculate_real_size(&self.reflowed_widths, self.scroll);
        let mut m: usize = 0;
        while m < margin
            invariant
                m <= margin,
                out@ == seq![TermOp::MoveTo { column: 0, row: 0 }] + margin_ops(m as nat),
            decreases margin - m,
        {
            out.push(TermOp::ClearLine);
            out.push(TermOp::NextLine);
            m = m + 1;
            assert(out@ =~= seq![TermOp::MoveTo { column: 0, row: 0 }] + margin_ops(m as nat));
        }
        let ghost head = out@;
        let ghost w0 = writer;
        let count = self.reflowed_widths.len();
        assert(fit <= count - self.scroll);
        let end = self.scroll + fit;
        let active = self.reflowed_search_positions.len() > 0;
        let mut overflow: usize = 0;
        let mut j: usize = self.scroll;
        while j < end
            invariant
                self.wf(),
                self.scroll <= j <= end <= self.reflowed_lines@.len(),
                active == (self.reflowed_search_positions@.len() > 0),
                *self == s0,
                head.len() >= 1,
                head[0] == (TermOp::MoveTo { column: 0, row: 0 }),
                out@.len() >= head.len(),
                out@.subrange(0, head.len() as int) == head,
                !active ==> out@ == head + plain_rows(s0, w0, j as int).1,
                !active ==> writer == plain_rows(s0, w0, j as int).0,
                active ==> out@ == head + hl_rows(s0, w0, j as int).1,
                active ==> writer == hl_rows(s0, w0, j as int).0,
                active ==> overflow == hl_rows(s0, w0, j as int).2,
            decreases end - j,
        {
            let ghost at_start = out@;
            out.push(TermOp::ClearLine);
            let ghost before = out@;
            assert(before.subrange(0, head.len() as int) =~= at_start.subrange(0, head.len() as int));
            if active {
                overflow = self.render_highlighted(&mut writer, &mut out, j, overflow);
            } else {
                let c = self.reflowed_lines[j];
                assert(chunk_in(self.reflowed_lines@[j as int], self.lines@));
                writer.write_slice(&mut out, &self.lines[c.line], c.start, c.end);
                assert(out@.subrange(0, before.len() as int) =~= before);
            }
            let ghost after = out@;
            assert(after.subrange(0, head.len() as int) =~= after.subrange(
                0,
                before.len() as int,
            ).subrange(0, head.len() as int));
            writer.pos = 0;
            out.push(TermOp::NextLine);
            proof {
                if !active {
                    assert(out@ =~= head + plain_rows(s0, w0, j + 1).1);
                } else {
                    assert(out@ =~= head + hl_rows(s0, w0, j + 1).1);
                }
                assert(out@.subrange(0, head.len() as int) =~= after.subrange(0, head.len() as int));
            }
            j = j + 1;
        }
        self.prev_wrap = writer.wrap;
        out.push(TermOp::SetAttribute(ATTR_RESET));
        self.update_prompt();
        let ghost before = out@;
        assert(before.len() >= 2);
        assert(before[0] == head[0]);
        self.write_prompt(&mut out);
        assert(out@.subrange(0, before.len() as int) == before);
        assert(out@.subrange(0, before.len() as int)[0] == out@[0]);
        proof {
            assert(margin == s0.top_margin());
            assert(fit == s0.visible_count());
        }
        out
    }
}

} // verus!

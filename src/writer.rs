//! The attribute-diffing writer: turns styled characters into terminal operations,
//! setting attributes and colors only where they change, and wrapping by display width.

use crate::style::{
    char_width, glyph_width, Attributes, Color, StyledChar, ATTR_NO_REVERSE, ATTR_RESET,
    ATTR_REVERSE,
};
use vstd::prelude::*;

verus! {

/// One terminal control operation of a frame.
#[derive(Clone, Debug, PartialEq, Eq)]
pub enum TermOp {
    /// Move the cursor to a column and row.
    MoveTo { column: usize, row: usize },
    /// Clear the row the cursor is on.
    ClearLine,
    /// Move the cursor to the start of the next row.
    NextLine,
    /// Set exactly these attributes.
    SetAttributes(Attributes),
    /// Set one attribute, by index.
    SetAttribute(u32),
    SetForeground(Color),
    SetBackground(Color),
    /// Print one glyph.
    Glyph(char),
    /// Print plain text.
    Text(Vec<char>),
}

/// Tracks the cursor column, the wraps made, and the active colors and attributes.
#[derive(Clone, Copy, Debug)]
pub struct ChWriter {
    pub terminal_column: usize,
    pub wrap: usize,
    pub pos: usize,
    pub current_color: Color,
    pub current_bgcolor: Color,
    pub current_attribute: Attributes,
}

/// Kinds of style-setting operation: `ATTRS_KIND`, `FG_KIND` and `BG_KIND` each name
/// one, `ANY_STYLE_KIND` all three.
pub open spec fn is_kind(op: TermOp, k: u8) -> bool {
    match op {
        TermOp::SetAttributes(_) => k == 0 || k == 3,
        TermOp::SetForeground(_) => k == 1 || k == 3,
        TermOp::SetBackground(_) => k == 2 || k == 3,
        _ => false,
    }
}

/// Setting attributes.
pub const ATTRS_KIND: u8 = 0;

/// Setting the foreground color.
pub const FG_KIND: u8 = 1;

/// Setting the background color.
pub const BG_KIND: u8 = 2;

/// Setting attributes or either color.
pub const ANY_STYLE_KIND: u8 = 3;

/// Number of operations of kind `k` in `ops`.
pub open spec fn kind_count(ops: Seq<TermOp>, k: u8) -> nat
    decreases ops.len(),
{
    if ops.len() == 0 {
        0
    } else {
        kind_count(ops.drop_last(), k) + if is_kind(ops.last(), k) {
            1nat
        } else {
            0nat
        }
    }
}

/// Number of attribute- and color-setting operations in `ops`.
pub open spec fn style_op_count(ops: Seq<TermOp>) -> nat {
    kind_count(ops, ANY_STYLE_KIND)
}

/// The writer's state and operations after the attribute step of writing `ch`.
pub open spec fn attribute_step(w: ChWriter, ch: StyledChar) -> (ChWriter, Seq<TermOp>) {
    if w.current_attribute != ch.attribute {
        let reset = ch.attribute.has_spec(ATTR_RESET);
        (
            ChWriter {
                current_attribute: ch.attribute,
                current_color: if reset {
                    Color::Reset
                } else {
                    w.current_color
                },
                current_bgcolor: if reset {
                    Color::Reset
                } else {
                    w.current_bgcolor
                },
                ..w
            },
            seq![TermOp::SetAttributes(ch.attribute)],
        )
    } else {
        (w, Seq::empty())
    }
}

/// The writer's state and operations after writing `ch`.
pub open spec fn write_spec(w: ChWriter, ch: StyledChar) -> (ChWriter, Seq<TermOp>) {
    let (w1, o1) = attribute_step(w, ch);
    let (w2, o2) = if ch.foreground != w1.current_color {
        (ChWriter { current_color: ch.foreground, ..w1 }, seq![TermOp::SetForeground(ch.foreground)])
    } else {
        (w1, Seq::empty())
    };
    let (w3, o3) = if ch.background != w2.current_bgcolor {
        (
            ChWriter { current_bgcolor: ch.background, ..w2 },
            seq![TermOp::SetBackground(ch.background)],
        )
    } else {
        (w2, Seq::empty())
    };
    let width = glyph_width(ch.ch);
    if w3.pos + width > w3.terminal_column {
        (
            ChWriter {
                pos: width as usize,
                wrap: if w3.wrap < usize::MAX {
                    (w3.wrap + 1) as usize
                } else {
                    w3.wrap
                },
                ..w3
            },
            o1 + o2 + o3 + seq![TermOp::NextLine, TermOp::ClearLine, TermOp::Glyph(ch.ch)],
        )
    } else {
        (ChWriter { pos: (w3.pos + width) as usize, ..w3 }, o1 + o2 + o3 + seq![TermOp::Glyph(ch.ch)])
    }
}

/// The writer's state and operations after writing `s` in order.
pub open spec fn write_seq(w: ChWriter, s: Seq<StyledChar>) -> (ChWriter, Seq<TermOp>)
    decreases s.len(),
{
    if s.len() == 0 {
        (w, Seq::empty())
    } else {
        let (w1, o1) = write_seq(w, s.drop_last());
        let (w2, o2) = write_spec(w1, s.last());
        (w2, o1 + o2)
    }
}

/// `ch` with reverse video added to its attributes.
pub open spec fn reversed(ch: StyledChar) -> StyledChar {
    StyledChar { attribute: ch.attribute.with_spec(ATTR_REVERSE), ..ch }
}

/// Writing `s` in reverse video: each character reversed, then reverse video cancelled.
pub open spec fn write_reverse_spec(w: ChWriter, s: Seq<StyledChar>) -> (ChWriter, Seq<TermOp>) {
    let (w1, o1) = write_seq(w, s.map_values(|c: StyledChar| reversed(c)));
    (
        ChWriter { current_attribute: w1.current_attribute.without_spec(ATTR_REVERSE), ..w1 },
        o1.push(TermOp::SetAttribute(ATTR_NO_REVERSE)),
    )
}

impl ChWriter {
    /// A writer at column 0 with no wraps, default colors and no attributes.
    pub fn new(terminal_column: usize) -> (r: ChWriter)
        ensures
            r == (ChWriter {
                terminal_column,
                wrap: 0,
                pos: 0,
                current_color: Color::Reset,
                current_bgcolor: Color::Reset,
                current_attribute: Attributes { bits: 0 },
            }),
    {
        ChWriter {
            terminal_column,
            wrap: 0,
            pos: 0,
            current_color: Color::Reset,
            current_bgcolor: Color::Reset,
            current_attribute: Attributes::empty(),
        }
    }

    /// Writes one character, preceded by the attribute and color changes it needs,
    /// and by a move to the next row where it does not fit on this one.
    pub fn write(&mut self, out: &mut Vec<TermOp>, ch: StyledChar)
        ensures
            *final(self) == write_spec(*old(self), ch).0,
            final(out)@ == old(out)@ + write_spec(*old(self), ch).1,
    {
        let ghost start = out@;
        if self.current_attribute != ch.attribute {
            out.push(TermOp::SetAttributes(ch.attribute));
            if ch.attribute.has(ATTR_RESET) {
                self.current_color = Color::Reset;
                self.current_bgcolor = Color::Reset;
            }
            self.current_attribute = ch.attribute;
        }
        if ch.foreground != self.current_color {
            out.push(TermOp::SetForeground(ch.foreground));
            self.current_color = ch.foreground;
        }
        if ch.background != self.current_bgcolor {
            out.push(TermOp::SetBackground(ch.background));
            self.current_bgcolor = ch.background;
        }
        let width = char_width(ch.ch);
        if width > self.terminal_column || self.pos > self.terminal_column - width {
            out.push(TermOp::NextLine);
            out.push(TermOp::ClearLine);
            self.wrap = self.wrap.saturating_add(1);
            self.pos = width;
        } else {
            self.pos = self.pos + width;
        }
        out.push(TermOp::Glyph(ch.ch));
        assert(out@ =~= start + write_spec(*old(self), ch).1);
    }

    /// Writes the characters `chars[start..end]`.
    pub fn write_slice(&mut self, out: &mut Vec<TermOp>, chars: &Vec<StyledChar>, start: usize, end: usize)
        requires
            start <= end <= chars@.len(),
        ensures
            *final(self) == write_seq(*old(self), chars@.subrange(start as int, end as int)).0,
            final(out)@ == old(out)@ + write_seq(*old(self), chars@.subrange(start as int, end as int)).1,
    {
        let ghost w0 = *self;
        let ghost o0 = out@;
        let mut i: usize = start;
        while i < end
            invariant
                start <= i <= end <= chars@.len(),
                *self == write_seq(w0, chars@.subrange(start as int, i as int)).0,
                out@ == o0 + write_seq(w0, chars@.subrange(start as int, i as int)).1,
            decreases end - i,
        {
            let ghost before = out@;
            self.write(out, chars[i]);
            proof {
                let s = chars@.subrange(start as int, i + 1);
                assert(s.drop_last() =~= chars@.subrange(start as int, i as int));
                assert(s.last() == chars@[i as int]);
                assert(out@ =~= o0 + write_seq(w0, s).1);
            }
            i = i + 1;
        }
    }

    /// Writes `chars[start..end]` in reverse video without changing the characters,
    /// then cancels reverse video so that it does not carry over to later text.
    pub fn write_slice_reverse(
        &mut self,
        out: &mut Vec<TermOp>,
        chars: &Vec<StyledChar>,
        start: usize,
        end: usize,
    )
        requires
            start <= end <= chars@.len(),
        ensures
            *final(self) == write_reverse_spec(*old(self), chars@.subrange(start as int, end as int)).0,
            final(out)@ == old(out)@ + write_reverse_spec(
                *old(self),
                chars@.subrange(start as int, end as int),
            ).1,
    {
        let ghost w0 = *self;
        let ghost o0 = out@;
        let ghost rs = chars@.subrange(start as int, end as int).map_values(|c: StyledChar| reversed(c));
        let mut i: usize = start;
        while i < end
            invariant
                start <= i <= end <= chars@.len(),
                rs == chars@.subrange(start as int, end as int).map_values(|c: StyledChar| reversed(c)),
                *self == write_seq(w0, rs.subrange(0, i - start)).0,
                out@ == o0 + write_seq(w0, rs.subrange(0, i - start)).1,
            decreases end - i,
        {
            let mut ch = chars[i];
            ch.attribute.set(ATTR_REVERSE);
            self.write(out, ch);
            proof {
                let s = rs.subrange(0, i + 1 - start);
                assert(s.drop_last() =~= rs.subrange(0, i - start));
                assert(s.last() == ch);
                assert(out@ =~= o0 + write_seq(w0, s).1);
            }
            i = i + 1;
        }
        assert(rs.subrange(0, end - start) =~= rs);
        self.current_attribute.unset(ATTR_REVERSE);
        out.push(TermOp::SetAttribute(ATTR_NO_REVERSE));
        assert(out@ =~= o0 + write_reverse_spec(w0, chars@.subrange(start as int, end as int)).1);
    }
}

/// Characters of one style: the same attributes and colors as `ch`.
pub open spec fn same_style(a: StyledChar, b: StyledChar) -> bool {
    a.attribute == b.attribute && a.foreground == b.foreground && a.background == b.background
}

proof fn lemma_kind_count_add(a: Seq<TermOp>, b: Seq<TermOp>, k: u8)
    ensures
        kind_count(a + b, k) == kind_count(a, k) + kind_count(b, k),
    decreases b.len(),
{
    if b.len() > 0 {
        lemma_kind_count_add(a, b.drop_last(), k);
        assert((a + b).drop_last() =~= a + b.drop_last());
        assert((a + b).last() == b.last());
    } else {
        assert(a + b =~= a);
    }
}

proof fn lemma_write_sets_style(w: ChWriter, ch: StyledChar)
    ensures
        write_spec(w, ch).0.current_attribute == ch.attribute,
        write_spec(w, ch).0.current_color == ch.foreground,
        write_spec(w, ch).0.current_bgcolor == ch.background,
        w.current_attribute == ch.attribute && w.current_color == ch.foreground
            && w.current_bgcolor == ch.background ==> forall|k: u8|
            #[trigger] kind_count(write_spec(w, ch).1, k) == 0,
{
    let ops = write_spec(w, ch).1;
    if w.current_attribute == ch.attribute && w.current_color == ch.foreground
        && w.current_bgcolor == ch.background {
        assert forall|k: u8| #[trigger] kind_count(ops, k) == 0 by {
            lemma_count_zero(ops, k);
        }
    }
}

proof fn lemma_count_zero(o: Seq<TermOp>, k: u8)
    requires
        forall|i: int| 0 <= i < o.len() ==> !is_kind(#[trigger] o[i], k),
    ensures
        kind_count(o, k) == 0,
    decreases o.len(),
{
    if o.len() > 0 {
        let p = o.drop_last();
        assert forall|i: int| 0 <= i < p.len() implies !is_kind(#[trigger] p[i], k) by {
            assert(p[i] == o[i]);
        }
        lemma_count_zero(p, k);
    }
}

proof fn lemma_count_le_len(o: Seq<TermOp>, k: u8)
    ensures
        kind_count(o, k) <= o.len(),
    decreases o.len(),
{
    if o.len() > 0 {
        lemma_count_le_len(o.drop_last(), k);
    }
}

/// Writing a run of characters that share one style sets attributes and colors only
/// for the first character of the run: for each kind (attributes, foreground,
/// background, or all three together) the whole run emits exactly as many setting
/// operations as writing its first character alone. That is at most one of each
/// kind, for the one that differs from the writer's, and none when all match.
pub proof fn lemma_style_run_minimal(w: ChWriter, s: Seq<StyledChar>)
    requires
        s.len() >= 1,
        forall|k: int| 0 <= k < s.len() ==> #[trigger] same_style(s[k], s[0]),
    ensures
        forall|k: u8| #[trigger] kind_count(write_seq(w, s).1, k) == kind_count(write_spec(w, s[0]).1, k),
        kind_count(write_spec(w, s[0]).1, ATTRS_KIND) <= 1,
        kind_count(write_spec(w, s[0]).1, FG_KIND) <= 1,
        kind_count(write_spec(w, s[0]).1, BG_KIND) <= 1,
        style_op_count(write_spec(w, s[0]).1) <= 3,
        w.current_attribute == s[0].attribute && w.current_color == s[0].foreground
            && w.current_bgcolor == s[0].background ==> style_op_count(write_seq(w, s).1) == 0,
    decreases s.len(),
{
    lemma_write_sets_style(w, s[0]);
    lemma_first_write_count(w, s[0]);
    if s.len() == 1 {
        let e = Seq::<StyledChar>::empty();
        assert(s.drop_last() =~= e);
        assert(write_seq(w, e).1 =~= Seq::<TermOp>::empty());
        assert(s.last() == s[0]);
        assert(write_seq(w, s).1 =~= Seq::<TermOp>::empty() + write_spec(w, s[0]).1);
        assert(Seq::<TermOp>::empty() + write_spec(w, s[0]).1 =~= write_spec(w, s[0]).1);
    } else {
        let p = s.drop_last();
        assert forall|k: int| 0 <= k < p.len() implies #[trigger] same_style(p[k], p[0]) by {
            assert(same_style(s[k], s[0]));
        }
        lemma_style_run_minimal(w, p);
        lemma_write_seq_style(w, p);
        let w1 = write_seq(w, p).0;
        assert(p[0] == s[0]);
        assert(p.last() == s[s.len() - 2]);
        assert(same_style(s[s.len() - 2], s[0]));
        assert(same_style(s[s.len() - 1], s[0]));
        assert(s.last() == s[s.len() - 1]);
        lemma_write_sets_style(w1, s.last());
        assert(write_seq(w, s).1 == write_seq(w, p).1 + write_spec(w1, s.last()).1);
        assert forall|k: u8| #[trigger] kind_count(write_seq(w, s).1, k) == kind_count(
            write_spec(w, s[0]).1,
            k,
        ) by {
            assert(kind_count(write_spec(w1, s.last()).1, k) == 0);
            assert(kind_count(write_seq(w, p).1, k) == kind_count(write_spec(w, p[0]).1, k));
            lemma_kind_count_add(write_seq(w, p).1, write_spec(w1, s.last()).1, k);
        }
    }
}

proof fn lemma_write_seq_style(w: ChWriter, s: Seq<StyledChar>)
    requires
        s.len() >= 1,
    ensures
        write_seq(w, s).0.current_attribute == s.last().attribute,
        write_seq(w, s).0.current_color == s.last().foreground,
        write_seq(w, s).0.current_bgcolor == s.last().background,
{
    lemma_write_sets_style(write_seq(w, s.drop_last()).0, s.last());
}

proof fn lemma_first_write_count(w: ChWriter, ch: StyledChar)
    ensures
        kind_count(write_spec(w, ch).1, ATTRS_KIND) <= 1,
        kind_count(write_spec(w, ch).1, FG_KIND) <= 1,
        kind_count(write_spec(w, ch).1, BG_KIND) <= 1,
        style_op_count(write_spec(w, ch).1) <= 3,
{
    let (w1, o1) = attribute_step(w, ch);
    let o2: Seq<TermOp> = if ch.foreground != w1.current_color {
        seq![TermOp::SetForeground(ch.foreground)]
    } else {
        Seq::empty()
    };
    let w2 = if ch.foreground != w1.current_color {
        ChWriter { current_color: ch.foreground, ..w1 }
    } else {
        w1
    };
    let o3: Seq<TermOp> = if ch.background != w2.current_bgcolor {
        seq![TermOp::SetBackground(ch.background)]
    } else {
        Seq::empty()
    };
    let rest: Seq<TermOp> = if w2.pos + glyph_width(ch.ch) > w2.terminal_column {
        seq![TermOp::NextLine, TermOp::ClearLine, TermOp::Glyph(ch.ch)]
    } else {
        seq![TermOp::Glyph(ch.ch)]
    };
    assert(write_spec(w, ch).1 == o1 + o2 + o3 + rest);
    assert forall|k: u8| k <= 3 implies kind_count(#[trigger] write_spec(w, ch).1, k) == kind_count(o1, k)
        + kind_count(o2, k) + kind_count(o3, k) + kind_count(rest, k) by {
        lemma_kind_count_add(o1 + o2 + o3, rest, k);
        lemma_kind_count_add(o1 + o2, o3, k);
        lemma_kind_count_add(o1, o2, k);
    }
    assert forall|k: u8| k <= 3 implies #[trigger] kind_count(o1, k) <= 1 && kind_count(o2, k) <= 1
        && kind_count(o3, k) <= 1 && kind_count(rest, k) == 0 by {
        lemma_count_le_len(o1, k);
        lemma_count_le_len(o2, k);
        lemma_count_le_len(o3, k);
        lemma_count_zero(rest, k);
    }
    lemma_count_zero(o2, ATTRS_KIND);
    lemma_count_zero(o3, ATTRS_KIND);
    lemma_count_zero(o1, FG_KIND);
    lemma_count_zero(o3, FG_KIND);
    lemma_count_zero(o1, BG_KIND);
    lemma_count_zero(o2, BG_KIND);
}

} // verus!

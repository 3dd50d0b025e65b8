//! The viewport controller: buffered lines, their reflow, scroll position, search
//! state, the prompt mode, and the frame rendered on each tick.

use crate::keymap::{
    default_bindings, default_keymap, key_id_spec, lookup, KeyBehavior, KeyCode, KeyEvent,
    Keymap, ScrollSize, ALT, CONTROL,
};
use crate::reflow::{assoc_spec, chunk_in, reflow, reflow_spec, Chunk};
use crate::render::{
    fresh_writer, frame_body, lemma_rows_same_picture, prompt_reverse_for, prompt_row, status_text,
};
use crate::search::{
    line_matches, match_candidate, nearest_match, next_match_line, remap_positions, remap_spec,
    search_lines, views,
};
use crate::size::{fit_count, lemma_fit_count_bounds, SizeContext};
use crate::style::{range_width, range_width_spec, StyledLine};
use crate::writer::TermOp;
use crossbeam_queue::ArrayQueue;
use vstd::prelude::*;

verus! {

/// The prompt mode: normal, a numeric prefix being typed, or a search needle being typed.
#[derive(Clone, Debug, PartialEq, Eq)]
pub enum PromptState {
    Normal,
    Number(usize),
    Search(Vec<char>),
}

impl PromptState {
    /// Hands out the current state and leaves `Normal` in its place.
    pub fn take(&mut self) -> (r: PromptState)
        ensures
            r == *old(self),
            *final(self) == PromptState::Normal,
    {
        let mut t = PromptState::Normal;
        std::mem::swap(self, &mut t);
        t
    }
}

/// An input event.
#[derive(Clone, Copy, Debug, PartialEq, Eq)]
pub enum Event {
    Key(KeyEvent),
    /// Mouse wheel up.
    ScrollUp,
    /// Mouse wheel down.
    ScrollDown,
    /// The terminal now has this many columns and rows.
    Resize(usize, usize),
    Other,
}

#[verifier::external_type_specification]
#[verifier::external_body]
#[verifier::reject_recursive_types(T)]
pub struct ExArrayQueue<T>(ArrayQueue<T>);

/// Relies on `ArrayQueue::pop` of crossbeam-queue: takes the line at the head of the
/// queue, or `None` when it is empty, without blocking. Which line comes out depends
/// on the producer, so nothing more is stated.
#[verifier::external_body]
fn pop_line(queue: &ArrayQueue<StyledLine>) -> (r: Option<StyledLine>) {
    queue.pop()
}

/// Most lines taken from the transport queue in one tick.
pub const BULK_LINE: usize = 5000;

/// Saturating addition on `usize`, as a value.
pub open spec fn sat_add(a: usize, b: usize) -> usize {
    if a + b > usize::MAX {
        usize::MAX
    } else {
        (a + b) as usize
    }
}

/// Saturating subtraction on `usize`, as a value.
pub open spec fn sat_sub(a: usize, b: usize) -> usize {
    if a < b {
        0
    } else {
        (a - b) as usize
    }
}

/// Saturating multiplication on `usize`, as a value.
pub open spec fn sat_mul(a: usize, b: usize) -> usize {
    if a * b > usize::MAX {
        usize::MAX
    } else {
        (a * b) as usize
    }
}

/// The state of the viewport.
pub struct UiContext {
    pub lines: Vec<StyledLine>,
    pub reflowed_lines: Vec<Chunk>,
    /// Display width of each reflowed line.
    pub reflowed_widths: Vec<usize>,
    pub reflowed_lines_associations: Vec<Vec<usize>>,
    pub search_positions: Vec<Vec<usize>>,
    pub reflowed_search_positions: Vec<Vec<usize>>,
    pub search_char_len: usize,
    pub scroll: usize,
    pub size_ctx: SizeContext,
    pub prev_wrap: usize,
    pub keymap: Keymap,
    pub need_redraw: bool,
    pub need_reflow: bool,
    pub prompt_outdated: bool,
    pub prompt_state: PromptState,
    /// The text of the status line.
    pub prompt: Vec<char>,
    /// Whether the status line shows in reverse video.
    pub prompt_reverse: bool,
}

/// The repeat count that a prompt state carries: the numeric prefix, else one.
pub open spec fn prefix_of(p: PromptState) -> usize {
    match p {
        PromptState::Number(n) => n,
        _ => 1,
    }
}

/// The behavior that the dispatch table gives to a key press in state `c`.
pub open spec fn behavior_of(c: UiContext, ke: KeyEvent) -> Option<KeyBehavior> {
    lookup(c.keymap.view_bindings(), key_id_spec(ke))
}

/// What a key press does to the state `o`, giving `f`: typing into the search
/// input, or the behavior that the dispatch table binds to it.
pub open spec fn key_effect(o: UiContext, f: UiContext, e: Event) -> bool {
    match e {
        Event::Key(ke) => if search_input_key(o, ke) {
            let s = o.prompt_state->Search_0;
            let retyped = UiContext { prompt_state: f.prompt_state, prompt_outdated: true, ..o };
            &&& (ke.code matches KeyCode::Char(ch) ==> f == retyped && (
            f.prompt_state matches PromptState::Search(t) && t@ == s@.push(ch)))
            &&& (ke.code == KeyCode::Backspace && s@.len() == 0 ==> f == (UiContext {
                prompt_state: PromptState::Normal,
                prompt_outdated: true,
                ..o
            }))
            &&& (ke.code == KeyCode::Backspace && s@.len() > 0 ==> f == retyped && (
            f.prompt_state matches PromptState::Search(t) && t@ == s@.drop_last()))
            &&& (ke.code == KeyCode::Enter ==> exists|g: UiContext|
                #[trigger] search_result(
                    UiContext { prompt_state: PromptState::Normal, ..o },
                    g,
                    s@,
                ) && f == (UiContext { prompt_outdated: true, ..g }))
        } else {
            let b = behavior_of(o, ke);
            let count = prefix_of(o.prompt_state);
            let rows = |size: ScrollSize| sat_mul(size.rows_spec(o.size_ctx.terminal_line), count);
            let normal = UiContext { prompt_state: PromptState::Normal, ..o };
            &&& (b is None ==> f == o)
            &&& (b == Some(KeyBehavior::Quit) ==> f == o)
            &&& (b == Some(KeyBehavior::SearchNext) ==> search_move(o, f, true))
            &&& (b == Some(KeyBehavior::SearchPrev) ==> search_move(o, f, false))
            &&& (b == Some(KeyBehavior::Search) ==> f == (UiContext {
                prompt_state: f.prompt_state,
                prompt_outdated: true,
                ..o
            }) && (f.prompt_state matches PromptState::Search(t) && t@.len() == 0))
            &&& (b == Some(KeyBehavior::NormalMode) ==> exists|g: UiContext|
                #[trigger] search_result(normal, g, Seq::empty()) && f == (UiContext {
                    prompt_outdated: true,
                    ..g
                }))
            &&& (b matches Some(KeyBehavior::Number(d)) ==> f == (UiContext {
                prompt_state: PromptState::Number(
                    match o.prompt_state {
                        PromptState::Number(pn) => sat_add(sat_mul(pn, 10), d as usize),
                        _ => d as usize,
                    },
                ),
                prompt_outdated: true,
                ..o
            }))
            &&& (b matches Some(KeyBehavior::Down(size)) ==> f == normal.goto_spec(
                sat_add(o.scroll, rows(size)),
            ))
            &&& (b matches Some(KeyBehavior::Up(size)) ==> f == normal.goto_spec(
                sat_sub(o.scroll, rows(size)),
            ))
        },
        Event::Resize(columns, rows) => f == (UiContext {
            size_ctx: SizeContext {
                terminal_column: columns,
                terminal_line: if o.size_ctx.reserve_row {
                    (rows - 1) as usize
                } else {
                    rows
                },
                reserve_row: o.size_ctx.reserve_row,
            },
            need_reflow: true,
            need_redraw: true,
            prompt_outdated: true,
            ..o
        }),
        _ => true,
    }
}

/// `f` is `o` scrolled to the nearest other reflowed line holding a match, walking
/// forward (or backward) and wrapping around; `o` itself when no other line holds one.
pub open spec fn search_move(o: UiContext, f: UiContext, forward: bool) -> bool {
    &&& (forall|k: int| !#[trigger] match_candidate(o.reflowed_search_positions@, o.scroll as int, k))
        ==> f == o
    &&& (exists|k: int| #[trigger] match_candidate(o.reflowed_search_positions@, o.scroll as int, k))
        ==> exists|j: usize|
        #[trigger] nearest_match(o.reflowed_search_positions@, o.scroll as int, j as int, forward)
            && f == o.goto_spec(j)
}

/// `f` is `o` after a search for `needle`. An empty needle clears all match state.
/// Otherwise each line's non-overlapping match starts are recorded, remapped onto the
/// reflowed lines through the association, and the view moves forward to the nearest
/// other line holding a match. A redraw is asked for; nothing else changes.
pub open spec fn search_result(o: UiContext, f: UiContext, needle: Seq<char>) -> bool {
    &&& f == (UiContext {
        search_positions: f.search_positions,
        reflowed_search_positions: f.reflowed_search_positions,
        search_char_len: needle.len() as usize,
        scroll: f.scroll,
        need_redraw: true,
        prompt_outdated: o.prompt_outdated || f.scroll != o.scroll,
        ..o
    })
    &&& (needle.len() == 0 ==> f.search_positions@.len() == 0
        && f.reflowed_search_positions@.len() == 0 && f.scroll == o.scroll)
    &&& (needle.len() > 0 ==> views(f.search_positions@) == Seq::new(
        o.lines@.len(),
        |i: int| line_matches(o.lines@[i]@, needle),
    ))
    &&& (needle.len() > 0 ==> views(f.reflowed_search_positions@) == remap_spec(
        views(f.search_positions@),
        views(o.reflowed_lines_associations@),
        o.reflowed_lines@.len() as int,
        o.wrap_width(),
    ))
    &&& (needle.len() > 0 && (forall|k: int|
        !#[trigger] match_candidate(f.reflowed_search_positions@, o.scroll as int, k))
        ==> f.scroll == o.scroll)
    &&& (needle.len() > 0 && (exists|k: int|
        #[trigger] match_candidate(f.reflowed_search_positions@, o.scroll as int, k))
        ==> exists|j: usize|
        #[trigger] nearest_match(f.reflowed_search_positions@, o.scroll as int, j as int, true)
            && f.scroll == if (j as int) < o.max_scroll_spec() {
            j as int
        } else {
            o.max_scroll_spec()
        })
}

/// The key press is taken by the search input rather than the dispatch table.
pub open spec fn search_input_key(c: UiContext, ke: KeyEvent) -> bool {
    &&& c.prompt_state matches PromptState::Search(_)
    &&& ke.modifiers & (CONTROL | ALT) == 0
    &&& (ke.code matches KeyCode::Char(_) || ke.code == KeyCode::Backspace || ke.code
        == KeyCode::Enter)
}

/// The event asks to quit.
pub open spec fn quits(c: UiContext, e: Event) -> bool {
    e matches Event::Key(ke) && !search_input_key(c, ke) && lookup(
        c.keymap.view_bindings(),
        key_id_spec(ke),
    ) == Some(KeyBehavior::Quit)
}

impl UiContext {

    /// Width of the reflowed lines: one column is kept back.
    pub open spec fn wrap_width(&self) -> int {
        self.size_ctx.terminal_column - 1
    }

    /// The largest scroll position: the reflowed lines but those that fit at the end.
    pub open spec fn max_scroll_spec(&self) -> int {
        self.reflowed_lines@.len() - fit_count(
            self.reflowed_widths@,
            self.size_ctx.terminal_column as int,
            self.size_ctx.terminal_line as int,
        )
    }

    /// The state after `goto_scroll(idx)`.
    pub open spec fn goto_spec(self, idx: usize) -> UiContext {
        let m = self.max_scroll_spec();
        let ns = if idx < m {
            idx as int
        } else {
            m
        };
        if ns != self.scroll {
            UiContext { scroll: ns as usize, need_redraw: true, prompt_outdated: true, ..self }
        } else {
            self
        }
    }

    /// The state is consistent: reflowed lines lie within the buffered lines, with
    /// their widths, the scroll position lies within them, and highlight positions
    /// are either absent or given for every reflowed line.
    pub open spec fn wf(&self) -> bool {
        &&& self.size_ctx.terminal_column >= 2
        &&& forall|i: int|
            0 <= i < self.lines@.len() ==> (#[trigger] self.lines@[i])@.len() <= usize::MAX / 3
        &&& forall|j: int|
            0 <= j < self.reflowed_lines@.len() ==> #[trigger] chunk_in(
                self.reflowed_lines@[j],
                self.lines@,
            )
        &&& self.reflowed_widths@.len() == self.reflowed_lines@.len()
        &&& forall|j: int|
            0 <= j < self.reflowed_lines@.len() ==> #[trigger] self.reflowed_widths@[j]
                == range_width_spec(
                self.lines@[self.reflowed_lines@[j].line as int]@,
                self.reflowed_lines@[j].start as int,
                self.reflowed_lines@[j].end as int,
            )
        &&& self.scroll <= self.reflowed_lines@.len() <= usize::MAX
        &&& (self.reflowed_search_positions@.len() == 0
            || self.reflowed_search_positions@.len() == self.reflowed_lines@.len())
    }

    /// An empty viewport of `columns` by `rows`, with the default key bindings;
    /// `reserve_row` keeps one row back for the status line.
    pub fn new(columns: usize, rows: usize, reserve_row: bool) -> (r: UiContext)
        requires
            columns >= 2,
            reserve_row ==> rows >= 1,
        ensures
            r.wf(),
            r.lines@.len() == 0,
            r.reflowed_lines@.len() == 0,
            r.search_positions@.len() == 0,
            r.reflowed_search_positions@.len() == 0,
            r.scroll == 0,
            r.size_ctx.terminal_column == columns,
            r.size_ctx.terminal_line == if reserve_row {
                rows - 1
            } else {
                rows as int
            },
            r.need_redraw && r.need_reflow && r.prompt_outdated,
            r.prompt_state == PromptState::Normal,
            r.keymap.view_bindings() == default_bindings(),
    {
        let mut size_ctx = SizeContext::new(reserve_row);
        size_ctx.resize(columns, rows);
        UiContext {
            lines: Vec::new(),
            reflowed_lines: Vec::new(),
            reflowed_widths: Vec::new(),
            reflowed_lines_associations: Vec::new(),
            search_positions: Vec::new(),
            reflowed_search_positions: Vec::new(),
            search_char_len: 0,
            scroll: 0,
            size_ctx,
            prev_wrap: 0,
            keymap: default_keymap(),
            need_redraw: true,
            need_reflow: true,
            prompt_outdated: true,
            prompt_state: PromptState::Normal,
            prompt: Vec::new(),
            prompt_reverse: true,
        }
    }

    /// The largest scroll position.
    pub fn max_scroll(&self) -> (r: usize)
        requires
            self.wf(),
        ensures
            r == self.max_scroll_spec(),
            r <= self.reflowed_lines@.len(),
    {
        let (fit, _margin) = self.size_ctx.calculate_real_size(&self.reflowed_widths, 0);
        assert(self.reflowed_widths@.subrange(0, self.reflowed_widths@.len() as int)
            =~= self.reflowed_widths@);
        self.reflowed_lines.len() - fit
    }

    /// Scrolls to `idx`, or to the largest scroll position if `idx` lies past it;
    /// a change of position asks for a redraw.
    pub fn goto_scroll(&mut self, idx: usize)
        requires
            old(self).wf(),
        ensures
            *final(self) == old(self).goto_spec(idx),
            final(self).wf(),
            final(self).scroll <= final(self).max_scroll_spec(),
    {
        let m = self.max_scroll();
        proof {
            lemma_fit_count_bounds(
                self.reflowed_widths@,
                self.size_ctx.terminal_column as int,
                self.size_ctx.terminal_line as int,
            );
        }
        let new_scroll = if idx < m {
            idx
        } else {
            m
        };
        if new_scroll != self.scroll {
            self.scroll = new_scroll;
            self.need_redraw = true;
            self.prompt_outdated = true;
        }
    }

    /// Scrolls down by `n` reflowed lines, stopping at the largest scroll position.
    pub fn scroll_down(&mut self, n: usize)
        requires
            old(self).wf(),
        ensures
            *final(self) == old(self).goto_spec(sat_add(old(self).scroll, n)),
            final(self).wf(),
            final(self).scroll <= final(self).max_scroll_spec(),
    {
        self.goto_scroll(self.scroll.saturating_add(n));
    }

    /// Scrolls up by `n` reflowed lines, stopping at the first.
    pub fn scroll_up(&mut self, n: usize)
        requires
            old(self).wf(),
        ensures
            *final(self) == old(self).goto_spec(sat_sub(old(self).scroll, n)),
            final(self).wf(),
            final(self).scroll <= final(self).max_scroll_spec(),
    {
        self.goto_scroll(self.scroll.saturating_sub(n));
    }

    /// Scrolls to the nearest other reflowed line holding a match, forward or backward,
    /// wrapping around; without such a line nothing changes.
    pub fn move_search(&mut self, forward: bool)
        requires
            old(self).wf(),
        ensures
            final(self).wf(),
            search_move(*old(self), *final(self), forward),
    {
        let found = next_match_line(&self.reflowed_search_positions, self.scroll, forward);
        match found {
            Some(line) => {
                self.goto_scroll(line);
                assert(nearest_match(
                    old(self).reflowed_search_positions@,
                    old(self).scroll as int,
                    line as int,
                    forward,
                ));
            },
            None => {},
        }
    }

    /// Remaps the per-line match starts onto the current reflowed lines.
    pub fn reflow_search(&mut self)
        requires
            old(self).wf(),
        ensures
            final(self).wf(),
            views(final(self).reflowed_search_positions@) == remapped(*old(self)),
            *final(self) == (UiContext {
                reflowed_search_positions: final(self).reflowed_search_positions,
                ..*old(self)
            }),
    {
        let rsp = remap_positions(
            &self.search_positions,
            &self.reflowed_lines_associations,
            self.reflowed_lines.len(),
            self.size_ctx.terminal_column - 1,
        );
        self.reflowed_search_positions = rsp;
    }

    /// Searches every buffered line for `needle`. An empty needle clears all match
    /// state. Otherwise the non-overlapping matches of each line are recorded, remapped
    /// onto the reflowed lines, and the view moves forward to the nearest other line
    /// holding a match. Either way a redraw is asked for.
    pub fn search(&mut self, needle: &Vec<char>)
        requires
            old(self).wf(),
        ensures
            final(self).wf(),
            search_result(*old(self), *final(self), needle@),
    {
        self.search_positions = Vec::new();
        self.reflowed_search_positions = Vec::new();
        self.search_char_len = needle.len();
        self.need_redraw = true;
        if needle.len() == 0 {
            return ;
        }
        let found = search_lines(&self.lines, needle);
        self.search_positions = found;
        assert(views(self.search_positions@) =~= Seq::new(
            old(self).lines@.len(),
            |i: int| line_matches(old(self).lines@[i]@, needle@),
        ));
        self.reflow_search();
        let ghost mid = *self;
        self.move_search(true);
        proof {
            lemma_fit_count_bounds(
                mid.reflowed_widths@,
                mid.size_ctx.terminal_column as int,
                mid.size_ctx.terminal_line as int,
            );
            assert(mid.max_scroll_spec() == old(self).max_scroll_spec());
            if exists|k: int| #[trigger] match_candidate(mid.reflowed_search_positions@, mid.scroll as int, k) {
                let j = choose|j: usize|
                    #[trigger] nearest_match(mid.reflowed_search_positions@, mid.scroll as int, j as int, true)
                        && *self == mid.goto_spec(j);
                assert(self.reflowed_search_positions == mid.reflowed_search_positions);
                assert(nearest_match(
                    self.reflowed_search_positions@,
                    old(self).scroll as int,
                    j as int,
                    true,
                ));
            }
        }
    }

    /// Appends a logical line. Reflow is asked for, and a redraw while the lines do
    /// not yet fill the viewport.
    pub fn push_line(&mut self, line: StyledLine)
        requires
            old(self).wf(),
            line@.len() <= usize::MAX / 3,
        ensures
            final(self).wf(),
            final(self).lines@ == old(self).lines@.push(line),
            final(self).need_reflow,
            final(self).prompt_outdated,
            *final(self) == (UiContext {
                lines: final(self).lines,
                need_reflow: true,
                prompt_outdated: true,
                need_redraw: old(self).need_redraw || old(self).lines@.len()
                    < old(self).size_ctx.terminal_line,
                ..*old(self)
            }),
    {
        if self.lines.len() < self.size_ctx.terminal_line {
            self.need_redraw = true;
        }
        self.prompt_outdated = true;
        self.need_reflow = true;
        let ghost before = self.lines@;
        self.lines.push(line);
        assert forall|j: int| 0 <= j < self.reflowed_lines@.len() implies #[trigger] chunk_in(
            self.reflowed_lines@[j],
            self.lines@,
        ) by {
            assert(chunk_in(self.reflowed_lines@[j], before));
        }
        assert forall|j: int| 0 <= j < self.reflowed_lines@.len() implies #[trigger] self.reflowed_widths@[j] == range_width_spec(
            self.lines@[self.reflowed_lines@[j].line as int]@,
            self.reflowed_lines@[j].start as int,
            self.reflowed_lines@[j].end as int,
        ) by {
            assert(chunk_in(self.reflowed_lines@[j], before));
            assert(self.lines@[self.reflowed_lines@[j].line as int] == before[self.reflowed_lines@[
                j
            ].line as int]);
        }
        assert forall|i: int| 0 <= i < self.lines@.len() implies (#[trigger] self.lines@[i])@.len()
            <= usize::MAX / 3 by {
            if i < before.len() {
                assert(self.lines@[i] == before[i]);
            }
        }
    }

    /// Rebuilds the reflowed lines, their widths and the association from the
    /// buffered lines, remaps the matches if a search is active, and brings the
    /// scroll position back within its bounds.
    pub fn reflow_lines(&mut self)
        requires
            old(self).wf(),
        ensures
            final(self).wf(),
            final(self).reflowed_lines@ == reflow_spec(old(self).lines@, old(self).wrap_width()),
            final(self).reflowed_lines_associations@.len() == old(self).lines@.len(),
            forall|i: int|
                0 <= i < old(self).lines@.len() ==> final(self).reflowed_lines_associations@[i]@
                    == #[trigger] assoc_spec(old(self).lines@, old(self).wrap_width())[i],
            old(self).reflowed_search_positions@.len() == 0
                ==> final(self).reflowed_search_positions@.len() == 0,
            old(self).reflowed_search_positions@.len() > 0 ==> views(
                final(self).reflowed_search_positions@,
            ) == remap_spec(
                views(old(self).search_positions@),
                views(final(self).reflowed_lines_associations@),
                final(self).reflowed_lines@.len() as int,
                old(self).wrap_width(),
            ),
            final(self).scroll as int == if (old(self).scroll as int) < final(self).max_scroll_spec() {
                old(self).scroll as int
            } else {
                final(self).max_scroll_spec()
            },
            final(self).lines == old(self).lines,
            final(self).size_ctx == old(self).size_ctx,
            final(self).search_positions == old(self).search_positions,
            final(self).prompt_state == old(self).prompt_state,
            *final(self) == (UiContext {
                reflowed_lines: final(self).reflowed_lines,
                reflowed_widths: final(self).reflowed_widths,
                reflowed_lines_associations: final(self).reflowed_lines_associations,
                reflowed_search_positions: final(self).reflowed_search_positions,
                scroll: final(self).scroll,
                ..*old(self)
            }),
    {
        let (chunks, assoc) = reflow(&self.lines, self.size_ctx.terminal_column);
        let mut widths: Vec<usize> = Vec::new();
        let mut j: usize = 0;
        while j < chunks.len()
            invariant
                self.wf(),
                j <= chunks@.len(),
                widths@.len() == j,
                forall|t: int| 0 <= t < chunks@.len() ==> #[trigger] chunk_in(chunks@[t], self.lines@),
                forall|t: int|
                    0 <= t < j ==> #[trigger] widths@[t] == range_width_spec(
                        self.lines@[chunks@[t].line as int]@,
                        chunks@[t].start as int,
                        chunks@[t].end as int,
                    ),
            decreases chunks@.len() - j,
        {
            let c = chunks[j];
            assert(chunk_in(chunks@[j as int], self.lines@));
            assert(self.lines@[c.line as int]@.len() <= usize::MAX / 3);
            let w = range_width(&self.lines[c.line], c.start, c.end);
            widths.push(w);
            j = j + 1;
        }
        let active = self.reflowed_search_positions.len() > 0;
        self.reflowed_search_positions = Vec::new();
        self.reflowed_lines = chunks;
        self.reflowed_widths = widths;
        self.reflowed_lines_associations = assoc;
        if self.scroll > self.reflowed_lines.len() {
            self.scroll = self.reflowed_lines.len();
        }
        let m = self.max_scroll();
        if self.scroll > m {
            self.scroll = m;
        }
        if active {
            self.reflow_search();
        }
    }

    /// One tick of the render path. Reflows when asked to; then repaints the whole
    /// viewport when a redraw is asked for, or only the status line when just that is
    /// outdated. Returns the operations to send to the terminal, if any.
    pub fn update(&mut self) -> (r: Option<Vec<TermOp>>)
        requires
            old(self).wf(),
        ensures
            final(self).wf(),
            !final(self).need_reflow,
            !final(self).need_redraw,
            !final(self).prompt_outdated,
            final(self).lines == old(self).lines,
            old(self).need_reflow ==> final(self).reflowed_lines@ == reflow_spec(
                old(self).lines@,
                old(self).wrap_width(),
            ),
            old(self).need_reflow ==> final(self).reflowed_lines_associations@.len()
                == old(self).lines@.len(),
            old(self).need_reflow ==> forall|i: int|
                0 <= i < old(self).lines@.len() ==> final(self).reflowed_lines_associations@[i]@
                    == #[trigger] assoc_spec(old(self).lines@, old(self).wrap_width())[i],
            old(self).need_reflow && old(self).reflowed_search_positions@.len() == 0
                ==> final(self).reflowed_search_positions@.len() == 0,
            old(self).need_reflow && old(self).reflowed_search_positions@.len() > 0 ==> views(
                final(self).reflowed_search_positions@,
            ) == remap_spec(
                views(old(self).search_positions@),
                views(final(self).reflowed_lines_associations@),
                final(self).reflowed_lines@.len() as int,
                old(self).wrap_width(),
            ),
            old(self).need_reflow ==> final(self).scroll as int == if (old(self).scroll as int)
                < final(self).max_scroll_spec() {
                old(self).scroll as int
            } else {
                final(self).max_scroll_spec()
            },
            !old(self).need_reflow ==> final(self).reflowed_lines == old(self).reflowed_lines
                && final(self).reflowed_lines_associations == old(self).reflowed_lines_associations && final(self).reflowed_search_positions == old(self).reflowed_search_positions && final(self).scroll == old(self).scroll,
            final(self).search_positions == old(self).search_positions,
            final(self).prompt_state == old(self).prompt_state,
            old(self).prompt_outdated ==> final(self).prompt@ == status_text(*final(self))
                && final(self).prompt_reverse == prompt_reverse_for(*final(self)),
            !old(self).prompt_outdated ==> final(self).prompt == old(self).prompt
                && final(self).prompt_reverse == old(self).prompt_reverse,
            r is Some <==> old(self).need_redraw || old(self).prompt_outdated,
            old(self).need_redraw ==> (r matches Some(ops) && ops@.subrange(
                0,
                ops@.len() - if final(self).prompt_reverse {
                    5int
                } else {
                    3int
                },
            ) == frame_body(*final(self)) && prompt_row(
                ops@.subrange(
                    ops@.len() - if final(self).prompt_reverse {
                        5int
                    } else {
                        3int
                    },
                    ops@.len() as int,
                ),
                final(self).size_ctx.terminal_line,
                final(self).prompt@,
                final(self).prompt_reverse,
            )),
            !old(self).need_redraw && old(self).prompt_outdated ==> (r matches Some(ops)
                && prompt_row(
                ops@,
                final(self).size_ctx.terminal_line,
                final(self).prompt@,
                final(self).prompt_reverse,
            )),
    {
        if self.need_reflow {
            self.reflow_lines();
            self.need_reflow = false;
        }
        if self.need_redraw {
            let ghost mid = *self;
            let frame = self.render_frame();
            self.need_redraw = false;
            proof {
                lemma_rows_same_picture(
                    mid,
                    *self,
                    fresh_writer(mid.size_ctx.terminal_column),
                    mid.scroll + mid.visible_count(),
                );
            }
            Some(frame)
        } else if self.prompt_outdated {
            self.update_prompt();
            let mut out: Vec<TermOp> = Vec::new();
            self.write_prompt(&mut out);
            assert(out@.subrange(0, out@.len() as int) =~= out@);
            Some(out)
        } else {
            None
        }
    }

    /// Saturating product.
    fn mul_saturating(a: usize, b: usize) -> (r: usize)
        ensures
            r == sat_mul(a, b),
    {
        match a.checked_mul(b) {
            Some(v) => v,
            None => usize::MAX,
        }
    }

    /// Handles one input event; returns whether it asks to quit.
    pub fn handle_event(&mut self, event: Event) -> (r: bool)
        requires
            old(self).wf(),
            event matches Event::Resize(columns, rows) ==> columns >= 2 && (old(self).size_ctx.reserve_row ==> rows >= 1),
        ensures
            final(self).wf(),
            r == quits(*old(self), event),
            final(self).lines == old(self).lines,
            event == Event::ScrollUp && old(self).prompt_state == PromptState::Normal ==> *final(self) == old(self).goto_spec(sat_sub(old(self).scroll, 1)),
            event == Event::ScrollDown && old(self).prompt_state == PromptState::Normal
                ==> *final(self) == old(self).goto_spec(sat_add(old(self).scroll, 1)),
            (event == Event::ScrollUp || event == Event::ScrollDown || event == Event::Other) && !(
            old(self).prompt_state == PromptState::Normal && event != Event::Other) ==> *final(self) == *old(self),
            key_effect(*old(self), *final(self), event),
    {
        match event {
            Event::ScrollUp => {
                if let PromptState::Normal = self.prompt_state {
                    self.scroll_up(1);
                }
            },
            Event::ScrollDown => {
                if let PromptState::Normal = self.prompt_state {
                    self.scroll_down(1);
                }
            },
            Event::Key(ke) => {
                let searching = match &self.prompt_state {
                    PromptState::Search(_) => true,
                    _ => false,
                };
                let intercepted = match ke.code {
                    KeyCode::Char(_) | KeyCode::Backspace | KeyCode::Enter => true,
                    _ => false,
                };
                if searching && ke.modifiers & (CONTROL | ALT) == 0 && intercepted {
                    let state = self.prompt_state.take();
                    if let PromptState::Search(mut s) = state {
                        match ke.code {
                            KeyCode::Char(c) => {
                                s.push(c);
                                self.prompt_state = PromptState::Search(s);
                            },
                            KeyCode::Backspace => {
                                if s.len() > 0 {
                                    s.pop();
                                    self.prompt_state = PromptState::Search(s);
                                }
                            },
                            _ => {
                                let ghost before = *self;
                                self.search(&s);
                                let ghost g = *self;
                                self.prompt_state = PromptState::Normal;
                                assert(before == (UiContext {
                                    prompt_state: PromptState::Normal,
                                    ..*old(self)
                                }));
                                assert(search_result(before, g, s@));
                            },
                        }
                    }
                    self.prompt_outdated = true;
                    return false;
                }
                match self.keymap.get(ke) {
                    Some(b) => match b {
                        KeyBehavior::NormalMode => {
                            self.prompt_state.take();
                            let empty: Vec<char> = Vec::new();
                            let ghost before = *self;
                            self.search(&empty);
                            let ghost g = *self;
                            self.prompt_outdated = true;
                            assert(empty@ =~= Seq::<char>::empty());
                            assert(search_result(before, g, Seq::empty()));
                        },
                        KeyBehavior::Search => {
                            self.prompt_state = PromptState::Search(Vec::new());
                            self.prompt_outdated = true;
                        },
                        KeyBehavior::SearchNext => {
                            self.move_search(true);
                        },
                        KeyBehavior::SearchPrev => {
                            self.move_search(false);
                        },
                        KeyBehavior::Number(n) => {
                            let next = match self.prompt_state {
                                PromptState::Number(pn) => Self::mul_saturating(
                                    pn,
                                    10,
                                ).saturating_add(n as usize),
                                _ => n as usize,
                            };
                            self.prompt_state = PromptState::Number(next);
                            self.prompt_outdated = true;
                        },
                        KeyBehavior::Up(size) => {
                            let rows = size.calculate(self.size_ctx.terminal_line);
                            let n = match self.prompt_state.take() {
                                PromptState::Number(n) => n,
                                _ => 1,
                            };
                            self.scroll_up(Self::mul_saturating(rows, n));
                        },
                        KeyBehavior::Down(size) => {
                            let rows = size.calculate(self.size_ctx.terminal_line);
                            let n = match self.prompt_state.take() {
                                PromptState::Number(n) => n,
                                _ => 1,
                            };
                            self.scroll_down(Self::mul_saturating(rows, n));
                        },
                        KeyBehavior::Quit => {
                            return true;
                        },
                    },
                    None => {},
                }
            },
            Event::Resize(columns, rows) => {
                self.size_ctx.resize(columns, rows);
                self.need_reflow = true;
                self.need_redraw = true;
                self.prompt_outdated = true;
            },
            Event::Other => {},
        }
        false
    }

    /// Moves up to `max` lines from the transport queue into the buffer, stopping
    /// early when the queue is empty; never blocks. Returns how many were taken.
    /// (A line longer than a third of the address space cannot exist in memory and
    /// would be passed over.)
    pub fn drain_lines(&mut self, queue: &ArrayQueue<StyledLine>, max: usize) -> (r: usize)
        requires
            old(self).wf(),
        ensures
            final(self).wf(),
            r <= max,
            old(self).lines@.len() <= final(self).lines@.len() <= old(self).lines@.len() + r,
            final(self).lines@.subrange(0, old(self).lines@.len() as int) == old(self).lines@,
            final(self).scroll == old(self).scroll,
            final(self).reflowed_lines == old(self).reflowed_lines,
            final(self).prompt_state == old(self).prompt_state,
            old(self).need_reflow ==> final(self).need_reflow,
            final(self).lines@.len() > old(self).lines@.len() ==> final(self).need_reflow
                && final(self).prompt_outdated,
    {
        let mut count: usize = 0;
        while count < max
            invariant
                self.wf(),
                count <= max,
                old(self).lines@.len() <= self.lines@.len() <= old(self).lines@.len() + count,
                self.lines@.subrange(0, old(self).lines@.len() as int) == old(self).lines@,
                self.scroll == old(self).scroll,
                self.reflowed_lines == old(self).reflowed_lines,
                self.prompt_state == old(self).prompt_state,
                old(self).need_reflow ==> self.need_reflow,
                self.lines@.len() > old(self).lines@.len() ==> self.need_reflow
                    && self.prompt_outdated,
            decreases max - count,
        {
            match pop_line(queue) {
                Some(line) => {
                    if line.len() <= usize::MAX / 3 {
                        let ghost before = self.lines@;
                        self.push_line(line);
                        assert(self.lines@.subrange(0, old(self).lines@.len() as int) =~= before.subrange(
                            0,
                            old(self).lines@.len() as int,
                        ));
                    }
                    count = count + 1;
                },
                None => {
                    return count;
                },
            }
        }
        count
    }
}

/// The state after `k` calls of `scroll_down(n)` from `c`.
pub open spec fn scroll_down_times(c: UiContext, n: usize, k: nat) -> UiContext
    decreases k,
{
    if k == 0 {
        c
    } else {
        let p = scroll_down_times(c, n, (k - 1) as nat);
        p.goto_spec(sat_add(p.scroll, n))
    }
}

/// Scrolling stays within `[0, max_scroll]`: `goto_scroll(x)` lands there without
/// changing `max_scroll`, and `k >= 1` calls of `scroll_down(n)` land at
/// `min(scroll + k * n, max_scroll)`, so that once past the end they stay at
/// `max_scroll` and go no further.
pub proof fn lemma_scroll_clamp(c: UiContext, x: usize, n: usize, k: nat)
    requires
        c.wf(),
        k >= 1,
    ensures
        c.goto_spec(x).scroll <= c.max_scroll_spec(),
        c.goto_spec(x).max_scroll_spec() == c.max_scroll_spec(),
        scroll_down_times(c, n, k).max_scroll_spec() == c.max_scroll_spec(),
        scroll_down_times(c, n, k).scroll == if c.scroll + k * n < c.max_scroll_spec() {
            c.scroll + k * n
        } else {
            c.max_scroll_spec()
        },
        c.scroll + k * n >= c.max_scroll_spec() ==> scroll_down_times(c, n, k).scroll
            == c.max_scroll_spec(),
    decreases k,
{
    lemma_fit_count_bounds(
        c.reflowed_widths@,
        c.size_ctx.terminal_column as int,
        c.size_ctx.terminal_line as int,
    );
    let m = c.max_scroll_spec();
    if k == 1 {
        assert(scroll_down_times(c, n, 0) == c);
        assert(c.scroll + 1 * n == c.scroll + n);
    } else {
        lemma_scroll_clamp(c, x, n, (k - 1) as nat);
        let p = scroll_down_times(c, n, (k - 1) as nat);
        assert((k - 1) * n + n == k * n) by (nonlinear_arith);
        assert(p.max_scroll_spec() == m);
    }
}

/// The reflowed match positions that remapping produces for state `c`.
pub open spec fn remapped(c: UiContext) -> Seq<Seq<usize>> {
    remap_spec(
        views(c.search_positions@),
        views(c.reflowed_lines_associations@),
        c.reflowed_lines@.len() as int,
        c.wrap_width(),
    )
}

/// Remapping reads the match starts, the association, the number of reflowed lines
/// and the wrap width, never the reflowed positions it replaces: on one reflow state,
/// remapping a second time gives exactly what the first time gave.
pub proof fn lemma_remap_idempotent(c: UiContext, previous: Vec<Vec<usize>>)
    ensures
        remapped(UiContext { reflowed_search_positions: previous, ..c }) == remapped(c),
{
}

} // verus!

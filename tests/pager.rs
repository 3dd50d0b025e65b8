use crossbeam_queue::ArrayQueue;
use rp_pager::context::{Event, PromptState, UiContext};
use rp_pager::keymap::{default_keymap, KeyBehavior, KeyCode, KeyEvent, ScrollSize, CONTROL, SHIFT};
use rp_pager::reflow::{reflow, Chunk};
use rp_pager::search::{
    bucket_positions, dedup_matches, find_matches, next_match_line, remap_positions, search_lines,
};
use rp_pager::size::{line_line_size, SizeContext};
use rp_pager::status::push_decimal;
use rp_pager::style::{
    char_width, line_width, Attributes, Color, StyledChar, StyledLine, ATTR_RESET, ATTR_REVERSE,
};
use rp_pager::writer::{ChWriter, TermOp};

fn plain(c: char) -> StyledChar {
    StyledChar {
        ch: c,
        foreground: Color::Reset,
        background: Color::Reset,
        attribute: Attributes { bits: 0 },
    }
}

fn line(s: &str) -> StyledLine {
    s.chars().map(plain).collect()
}

fn chars(s: &str) -> Vec<char> {
    s.chars().collect()
}

fn text_of(l: &StyledLine, c: &Chunk) -> String {
    l[c.start..c.end].iter().map(|x| x.ch).collect()
}

fn key(code: KeyCode, modifiers: u8) -> Event {
    Event::Key(KeyEvent { code, modifiers })
}

fn status(ctx: &UiContext) -> String {
    ctx.prompt.iter().collect()
}

#[test]
fn reflow_three_lines_at_width_four() {
    let lines = vec![line("abc"), line("abcabc"), line("")];
    let (chunks, assoc) = reflow(&lines, 4);
    assert_eq!(chunks.len(), 4);
    assert_eq!(chunks[0], Chunk { line: 0, start: 0, end: 3 });
    assert_eq!(chunks[1], Chunk { line: 1, start: 0, end: 3 });
    assert_eq!(chunks[2], Chunk { line: 1, start: 3, end: 6 });
    assert_eq!(chunks[3], Chunk { line: 2, start: 0, end: 0 });
    assert_eq!(text_of(&lines[1], &chunks[1]), "abc");
    assert_eq!(text_of(&lines[1], &chunks[2]), "abc");
    assert_eq!(assoc, vec![vec![0], vec![1, 2], vec![3]]);
}

#[test]
fn reflow_chunks_concatenate_to_the_line() {
    let lines = vec![line("abcdefg")];
    let (chunks, _) = reflow(&lines, 4);
    let texts: Vec<String> = chunks.iter().map(|c| text_of(&lines[0], c)).collect();
    assert_eq!(texts, vec!["abc", "def", "g"]);
    assert_eq!(texts.concat(), "abcdefg");
    for c in &chunks {
        assert!(c.end - c.start <= 3);
    }
}

#[test]
fn association_covers_every_reflowed_line_once() {
    let lines = vec![line("abcdefgh"), line(""), line("xy"), line("0123456789")];
    let (chunks, assoc) = reflow(&lines, 3);
    let flat: Vec<usize> = assoc.concat();
    assert_eq!(flat, (0..chunks.len()).collect::<Vec<usize>>());
}

#[test]
fn search_ababab_keeps_all_three() {
    let l = line("ababab");
    let raw = find_matches(&l, &chars("ab"));
    assert_eq!(raw, vec![0, 2, 4]);
    assert_eq!(dedup_matches(&raw, 2), vec![0, 2, 4]);
}

#[test]
fn search_aaaa_drops_overlap() {
    let l = line("aaaa");
    let raw = find_matches(&l, &chars("aa"));
    assert_eq!(raw, vec![0, 1, 2]);
    assert_eq!(dedup_matches(&raw, 2), vec![0, 2]);
}

#[test]
fn dedup_leaves_gaps_of_needle_length() {
    let kept = dedup_matches(&vec![0, 1, 2, 3, 5, 6, 9], 3);
    assert_eq!(kept, vec![0, 3, 6, 9]);
    for w in kept.windows(2) {
        assert!(w[1] >= w[0] + 3);
    }
}

#[test]
fn search_lines_in_line_order() {
    let lines = vec![line("xx ab"), line("none"), line("abab ab")];
    let found = search_lines(&lines, &chars("ab"));
    assert_eq!(found, vec![vec![3], vec![], vec![0, 2, 5]]);
}

#[test]
fn search_ignores_styling() {
    let mut l = line("xab");
    l[1].foreground = Color::Red;
    l[2].attribute.set(ATTR_REVERSE);
    assert_eq!(find_matches(&l, &chars("ab")), vec![1]);
}

#[test]
fn remap_places_matches_into_chunks() {
    let positions = vec![vec![0, 4], vec![1]];
    let assoc = vec![vec![0, 1], vec![2]];
    let r = remap_positions(&positions, &assoc, 3, 3);
    assert_eq!(r, vec![vec![0], vec![1], vec![1]]);
    assert_eq!(bucket_positions(&vec![0, 4, 5, 9], 3, 3), vec![vec![0], vec![1, 2], vec![]]);
}

#[test]
fn remap_twice_gives_the_same_positions() {
    let mut ctx = UiContext::new(4, 10, true);
    for s in ["abcabc", "xx", "cab"] {
        ctx.push_line(line(s));
    }
    ctx.update();
    ctx.search(&chars("ab"));
    ctx.reflow_search();
    let first = ctx.reflowed_search_positions.clone();
    ctx.reflow_search();
    assert_eq!(ctx.reflowed_search_positions, first);
    assert_eq!(first, vec![vec![0], vec![0], vec![], vec![1]]);
}

#[test]
fn next_match_wraps_around() {
    let rsp = vec![vec![1], vec![], vec![], vec![0], vec![]];
    assert_eq!(next_match_line(&rsp, 0, true), Some(3));
    assert_eq!(next_match_line(&rsp, 3, true), Some(0));
    assert_eq!(next_match_line(&rsp, 3, false), Some(0));
    assert_eq!(next_match_line(&rsp, 0, false), Some(3));
    assert_eq!(next_match_line(&rsp, 4, false), Some(3));
    assert_eq!(next_match_line(&vec![vec![], vec![2]], 1, true), None);
}

#[test]
fn real_size_five_one_row_lines_in_three_rows() {
    let mut size = SizeContext::new(false);
    size.resize(80, 3);
    assert_eq!(size.calculate_real_size(&vec![1, 1, 1, 1, 1], 0), (3, 0));
    let mut ctx = UiContext::new(80, 4, true);
    for _ in 0..5 {
        ctx.push_line(line("a"));
    }
    ctx.update();
    assert_eq!(ctx.reflowed_lines.len(), 5);
    assert_eq!(ctx.max_scroll(), 2);
}

#[test]
fn real_size_margin_and_wide_lines() {
    let mut size = SizeContext::new(true);
    size.resize(10, 6);
    assert_eq!(size.terminal_line(), 5);
    assert_eq!(size.calculate_real_size(&vec![25, 0, 10], 0), (3, 0));
    assert_eq!(size.calculate_real_size(&vec![25, 0, 10], 1), (2, 3));
    assert_eq!(size.calculate_real_size(&vec![25, 0, 10, 31], 0), (2, 0));
    assert_eq!(size.calculate_real_size(&vec![1, 1], 2), (0, 5));
    assert_eq!(line_line_size(0, 10), 1);
    assert_eq!(line_line_size(20, 10), 2);
    assert_eq!(line_line_size(21, 10), 3);
}

#[test]
fn scroll_is_clamped() {
    let mut ctx = UiContext::new(80, 4, true);
    for _ in 0..5 {
        ctx.push_line(line("a"));
    }
    ctx.update();
    ctx.goto_scroll(100);
    assert_eq!(ctx.scroll, 2);
    ctx.scroll_up(usize::MAX);
    assert_eq!(ctx.scroll, 0);
    for _ in 0..10 {
        ctx.scroll_down(1);
        assert!(ctx.scroll <= ctx.max_scroll());
    }
    assert_eq!(ctx.scroll, 2);
    ctx.scroll_down(usize::MAX);
    assert_eq!(ctx.scroll, 2);
}

#[test]
fn writer_sets_style_once_per_run() {
    let mut w = ChWriter::new(80);
    let mut out = Vec::new();
    let mut bold = Attributes::empty();
    bold.set(1);
    let styled: Vec<StyledChar> = "abc"
        .chars()
        .map(|c| StyledChar { ch: c, foreground: Color::Red, background: Color::Reset, attribute: bold })
        .collect();
    w.write_slice(&mut out, &styled, 0, 3);
    assert_eq!(
        out,
        vec![
            TermOp::SetAttributes(bold),
            TermOp::SetForeground(Color::Red),
            TermOp::Glyph('a'),
            TermOp::Glyph('b'),
            TermOp::Glyph('c'),
        ]
    );
    let mut out2 = Vec::new();
    let mut fresh = ChWriter::new(80);
    fresh.write_slice(&mut out2, &line("xyz"), 0, 3);
    assert_eq!(out2, vec![TermOp::Glyph('x'), TermOp::Glyph('y'), TermOp::Glyph('z')]);
}

#[test]
fn writer_reset_attribute_resets_colors() {
    let mut w = ChWriter::new(80);
    let mut out = Vec::new();
    let red = StyledChar { ch: 'a', foreground: Color::Red, background: Color::Blue, attribute: Attributes::empty() };
    w.write(&mut out, red);
    let mut reset = Attributes::empty();
    reset.set(ATTR_RESET);
    let again = StyledChar { attribute: reset, ..red };
    w.write(&mut out, again);
    assert_eq!(
        out[3..].to_vec(),
        vec![
            TermOp::SetAttributes(reset),
            TermOp::SetForeground(Color::Red),
            TermOp::SetBackground(Color::Blue),
            TermOp::Glyph('a'),
        ]
    );
}

#[test]
fn writer_wraps_by_display_width() {
    let mut w = ChWriter::new(3);
    let mut out = Vec::new();
    w.write_slice(&mut out, &line("abcd"), 0, 4);
    assert_eq!(w.wrap, 1);
    assert_eq!(w.pos, 1);
    assert_eq!(
        out,
        vec![
            TermOp::Glyph('a'),
            TermOp::Glyph('b'),
            TermOp::Glyph('c'),
            TermOp::NextLine,
            TermOp::ClearLine,
            TermOp::Glyph('d'),
        ]
    );
    let mut wide = ChWriter::new(3);
    let mut out = Vec::new();
    wide.write_slice(&mut out, &line("中中"), 0, 2);
    assert_eq!(wide.wrap, 1);
    assert_eq!(wide.pos, 2);
}

#[test]
fn writer_reverse_does_not_leak() {
    let mut w = ChWriter::new(80);
    let mut out = Vec::new();
    let l = line("ab");
    w.write_slice_reverse(&mut out, &l, 0, 1);
    w.write_slice(&mut out, &l, 1, 2);
    let mut rev = Attributes::empty();
    rev.set(ATTR_REVERSE);
    assert_eq!(
        out,
        vec![
            TermOp::SetAttributes(rev),
            TermOp::Glyph('a'),
            TermOp::SetAttribute(rp_pager::style::ATTR_NO_REVERSE),
            TermOp::Glyph('b'),
        ]
    );
    assert_eq!(l[0].attribute, Attributes::empty());
}

#[test]
fn glyph_widths_from_unicode_tables() {
    assert_eq!(char_width('a'), 1);
    assert_eq!(char_width('中'), 2);
    assert_eq!(char_width('\u{7}'), 0);
    assert_eq!(char_width('\u{301}'), 0);
    assert_eq!(line_width(&line("a中b")), 4);
}

#[test]
fn attributes_bits() {
    let mut a = Attributes::empty();
    a.set(ATTR_REVERSE);
    assert!(a.has(ATTR_REVERSE));
    assert!(!a.has(ATTR_RESET));
    assert_eq!(a.bits, 1 << 12);
    a.unset(ATTR_REVERSE);
    assert_eq!(a, Attributes::empty());
}

#[test]
fn default_bindings_table() {
    let km = default_keymap();
    assert_eq!(km.get(KeyEvent { code: KeyCode::Char('q'), modifiers: 0 }), Some(KeyBehavior::Quit));
    assert_eq!(km.get(KeyEvent { code: KeyCode::Char('d'), modifiers: CONTROL }), Some(KeyBehavior::Quit));
    assert_eq!(
        km.get(KeyEvent { code: KeyCode::Char('d'), modifiers: 0 }),
        Some(KeyBehavior::Down(ScrollSize::HalfPage))
    );
    assert_eq!(
        km.get(KeyEvent { code: KeyCode::Char('G'), modifiers: SHIFT }),
        Some(KeyBehavior::Down(ScrollSize::End))
    );
    assert_eq!(km.get(KeyEvent { code: KeyCode::Char('7'), modifiers: 0 }), Some(KeyBehavior::Number(7)));
    assert_eq!(km.get(KeyEvent { code: KeyCode::Char('z'), modifiers: 0 }), None);
    assert_eq!(km.get(KeyEvent { code: KeyCode::Char('q'), modifiers: CONTROL }), None);
}

#[test]
fn scroll_size_rows() {
    assert_eq!(ScrollSize::One.calculate(20), 1);
    assert_eq!(ScrollSize::HalfPage.calculate(21), 10);
    assert_eq!(ScrollSize::Page.calculate(20), 20);
    assert_eq!(ScrollSize::End.calculate(20), usize::MAX);
}

#[test]
fn prompt_state_take_resets() {
    let mut p = PromptState::Number(12);
    assert_eq!(p.take(), PromptState::Number(12));
    assert_eq!(p, PromptState::Normal);
}

#[test]
fn decimal_text() {
    let mut v = vec!['x'];
    push_decimal(&mut v, 0);
    push_decimal(&mut v, 907);
    assert_eq!(v.iter().collect::<String>(), "x0907");
}

fn filled(n: usize) -> UiContext {
    let mut ctx = UiContext::new(80, 4, true);
    for i in 0..n {
        ctx.push_line(line(if i % 2 == 0 { "foo" } else { "bar" }));
    }
    ctx.update();
    ctx
}

#[test]
fn status_line_text() {
    let mut ctx = filled(5);
    assert_eq!(status(&ctx), "lines 1-3/5");
    assert!(ctx.prompt_reverse);
    ctx.handle_event(key(KeyCode::Char('G'), SHIFT));
    ctx.update();
    assert_eq!(status(&ctx), "lines 3-5/5 (END)");
    ctx.handle_event(key(KeyCode::Char('4'), 0));
    ctx.handle_event(key(KeyCode::Char('2'), 0));
    let frame = ctx.update().unwrap();
    assert_eq!(status(&ctx), ":42");
    assert!(!ctx.prompt_reverse);
    assert_eq!(frame[0], TermOp::MoveTo { column: 0, row: 3 });
    assert!(ctx.update().is_none());
}

#[test]
fn numeric_prefix_multiplies_scroll() {
    let mut ctx = filled(10);
    ctx.handle_event(key(KeyCode::Char('2'), 0));
    ctx.handle_event(key(KeyCode::Char('j'), 0));
    assert_eq!(ctx.scroll, 2);
    assert_eq!(ctx.prompt_state, PromptState::Normal);
    ctx.handle_event(key(KeyCode::Char('k'), 0));
    assert_eq!(ctx.scroll, 1);
    ctx.handle_event(key(KeyCode::End, 0));
    assert_eq!(ctx.scroll, 7);
    ctx.handle_event(key(KeyCode::Char('g'), 0));
    assert_eq!(ctx.scroll, 0);
}

#[test]
fn search_input_and_match_navigation() {
    let mut ctx = filled(10);
    ctx.handle_event(key(KeyCode::Char('/'), 0));
    assert_eq!(ctx.prompt_state, PromptState::Search(vec![]));
    ctx.handle_event(key(KeyCode::Char('b'), 0));
    ctx.handle_event(key(KeyCode::Char('x'), 0));
    ctx.handle_event(key(KeyCode::Backspace, 0));
    ctx.handle_event(key(KeyCode::Char('a'), 0));
    ctx.update();
    assert_eq!(status(&ctx), "/ba");
    ctx.handle_event(key(KeyCode::Enter, 0));
    assert_eq!(ctx.prompt_state, PromptState::Normal);
    assert_eq!(ctx.search_char_len, 2);
    assert_eq!(ctx.scroll, 1);
    assert_eq!(ctx.reflowed_search_positions[1], vec![0]);
    assert!(ctx.reflowed_search_positions[0].is_empty());
    ctx.handle_event(key(KeyCode::Char('n'), 0));
    assert_eq!(ctx.scroll, 3);
    ctx.handle_event(key(KeyCode::Char('N'), SHIFT));
    assert_eq!(ctx.scroll, 1);
    ctx.handle_event(key(KeyCode::Esc, 0));
    assert!(ctx.reflowed_search_positions.is_empty());
    assert!(ctx.search_positions.is_empty());
}

#[test]
fn backspace_on_empty_search_leaves_search_mode() {
    let mut ctx = filled(3);
    ctx.handle_event(key(KeyCode::Char('/'), 0));
    ctx.handle_event(key(KeyCode::Backspace, 0));
    assert_eq!(ctx.prompt_state, PromptState::Normal);
}

#[test]
fn quit_keys_and_mouse() {
    let mut ctx = filled(10);
    assert!(ctx.handle_event(key(KeyCode::Char('q'), 0)));
    assert!(ctx.handle_event(key(KeyCode::Char('c'), CONTROL)));
    assert!(!ctx.handle_event(key(KeyCode::Char('z'), 0)));
    ctx.handle_event(Event::ScrollDown);
    assert_eq!(ctx.scroll, 1);
    ctx.handle_event(Event::ScrollUp);
    assert_eq!(ctx.scroll, 0);
    ctx.handle_event(key(KeyCode::Char('/'), 0));
    assert!(!ctx.handle_event(key(KeyCode::Char('q'), 0)));
    ctx.handle_event(Event::ScrollDown);
    assert_eq!(ctx.scroll, 0);
}

#[test]
fn resize_forces_reflow() {
    let mut ctx = UiContext::new(80, 10, true);
    ctx.push_line(line("abcdefgh"));
    ctx.update();
    assert_eq!(ctx.reflowed_lines.len(), 1);
    ctx.handle_event(Event::Resize(4, 10));
    assert!(ctx.need_reflow && ctx.need_redraw);
    ctx.update();
    assert_eq!(ctx.reflowed_lines.len(), 3);
    assert_eq!(ctx.reflowed_widths, vec![3, 3, 2]);
}

#[test]
fn frame_is_bottom_anchored_with_highlights() {
    let mut ctx = UiContext::new(4, 5, true);
    ctx.push_line(line("xabx"));
    let frame = ctx.update().unwrap();
    assert_eq!(frame[0], TermOp::MoveTo { column: 0, row: 0 });
    let margin = frame.iter().take_while(|op| **op != TermOp::Glyph('x')).filter(|op| **op == TermOp::NextLine).count();
    assert_eq!(margin, 2);
    ctx.search(&chars("bx"));
    let frame = ctx.update().unwrap();
    let mut rev = Attributes::empty();
    rev.set(ATTR_REVERSE);
    let pos = frame.iter().position(|op| *op == TermOp::SetAttributes(rev)).unwrap();
    assert_eq!(frame[pos + 1], TermOp::Glyph('b'));
    assert_eq!(frame[pos + 2], TermOp::SetAttribute(rp_pager::style::ATTR_NO_REVERSE));
}

#[test]
fn drain_takes_at_most_a_batch() {
    let q: ArrayQueue<StyledLine> = ArrayQueue::new(16);
    for _ in 0..10 {
        q.push(line("l")).unwrap();
    }
    let mut ctx = UiContext::new(80, 5, true);
    assert_eq!(ctx.drain_lines(&q, 4), 4);
    assert_eq!(ctx.lines.len(), 4);
    assert_eq!(ctx.drain_lines(&q, 100), 6);
    assert_eq!(ctx.lines.len(), 10);
    assert_eq!(ctx.drain_lines(&q, 100), 0);
}

#[test]
fn highlight_carries_across_wrap() {
    let mut ctx = UiContext::new(4, 5, true);
    ctx.push_line(line("xxaby"));
    ctx.update();
    ctx.search(&chars("ab"));
    assert_eq!(ctx.reflowed_search_positions, vec![vec![2], vec![]]);
    let frame = ctx.update().unwrap();
    let mut rev = Attributes::empty();
    rev.set(ATTR_REVERSE);
    let starts: Vec<usize> = frame
        .iter()
        .enumerate()
        .filter(|(_, op)| **op == TermOp::SetAttributes(rev))
        .map(|(i, _)| i)
        .collect();
    assert_eq!(starts.len(), 2);
    assert_eq!(frame[starts[0] + 1], TermOp::Glyph('a'));
    assert_eq!(frame[starts[1] + 1], TermOp::Glyph('b'));
    assert_eq!(frame[starts[1] + 2], TermOp::SetAttribute(rp_pager::style::ATTR_NO_REVERSE));
    assert_eq!(frame[starts[1] + 3], TermOp::Glyph('y'));
}

#[test]
fn resize_sets_rows_and_keeps_position() {
    let mut ctx = filled(10);
    ctx.goto_scroll(3);
    ctx.handle_event(Event::Resize(40, 6));
    assert_eq!(ctx.size_ctx.terminal_column, 40);
    assert_eq!(ctx.size_ctx.terminal_line, 5);
    assert_eq!(ctx.scroll, 3);
    assert_eq!(ctx.lines.len(), 10);
    assert_eq!(ctx.prompt_state, PromptState::Normal);
}

#[test]
fn escape_clears_search_and_keeps_scroll() {
    let mut ctx = filled(10);
    ctx.search(&chars("bar"));
    let at = ctx.scroll;
    ctx.update();
    ctx.handle_event(key(KeyCode::Esc, 0));
    assert!(ctx.search_positions.is_empty());
    assert!(ctx.reflowed_search_positions.is_empty());
    assert!(ctx.prompt_outdated);
    assert_eq!(ctx.scroll, at);
}

#[test]
fn typing_in_search_input_changes_only_the_prompt() {
    let mut ctx = filled(10);
    ctx.handle_event(key(KeyCode::Char('/'), 0));
    ctx.update();
    let scroll = ctx.scroll;
    ctx.handle_event(key(KeyCode::Char('q'), 0));
    ctx.handle_event(key(KeyCode::Char('n'), 0));
    assert_eq!(ctx.prompt_state, PromptState::Search(vec!['q', 'n']));
    assert_eq!(ctx.scroll, scroll);
    assert!(ctx.search_positions.is_empty());
    assert!(ctx.prompt_outdated);
}

#[test]
fn reflow_after_resize_remaps_and_clamps() {
    let mut ctx = UiContext::new(4, 4, true);
    for s in ["abcabc", "xxab", "ab"] {
        ctx.push_line(line(s));
    }
    ctx.update();
    ctx.search(&chars("ab"));
    ctx.goto_scroll(100);
    ctx.handle_event(Event::Resize(80, 4));
    ctx.update();
    assert_eq!(ctx.reflowed_lines_associations, vec![vec![0], vec![1], vec![2]]);
    assert_eq!(ctx.reflowed_search_positions, vec![vec![0, 3], vec![2], vec![0]]);
    assert_eq!(ctx.scroll, 0);
    assert!(ctx.scroll <= ctx.max_scroll());
}

//! Key events and the dispatch table from keys to behaviors.

use vstd::prelude::*;

verus! {

/// A key, as the terminal reports it.
#[derive(Clone, Copy, Debug, PartialEq, Eq, Structural)]
pub enum KeyCode {
    Char(char),
    Enter,
    Backspace,
    Esc,
    Up,
    Down,
    Left,
    Right,
    Home,
    End,
    PageUp,
    PageDown,
    Other,
}

/// Modifier bit for Shift.
pub const SHIFT: u8 = 1;

/// Modifier bit for Control.
pub const CONTROL: u8 = 2;

/// Modifier bit for Alt.
pub const ALT: u8 = 4;

/// A key press: a key and the set of modifiers held (`SHIFT | CONTROL | ALT` bits).
#[derive(Clone, Copy, Debug, PartialEq, Eq, Structural)]
pub struct KeyEvent {
    pub code: KeyCode,
    pub modifiers: u8,
}

/// How far a scroll command moves.
#[derive(Clone, Copy, Debug, PartialEq, Eq, Structural)]
pub enum ScrollSize {
    One,
    HalfPage,
    Page,
    End,
}

impl ScrollSize {
    /// Rows moved, for `terminal_line` rows of content.
    pub open spec fn rows_spec(self, terminal_line: usize) -> usize {
        match self {
            ScrollSize::One => 1,
            ScrollSize::HalfPage => terminal_line / 2,
            ScrollSize::Page => terminal_line,
            ScrollSize::End => usize::MAX,
        }
    }

    /// Rows moved, for `terminal_line` rows of content.
    pub fn calculate(self, terminal_line: usize) -> (r: usize)
        ensures
            r == self.rows_spec(terminal_line),
    {
        match self {
            ScrollSize::One => 1,
            ScrollSize::HalfPage => terminal_line / 2,
            ScrollSize::Page => terminal_line,
            ScrollSize::End => usize::MAX,
        }
    }
}

/// What a key does.
#[derive(Clone, Copy, Debug, PartialEq, Eq, Structural)]
pub enum KeyBehavior {
    Quit,
    Down(ScrollSize),
    Up(ScrollSize),
    SearchNext,
    SearchPrev,
    NormalMode,
    Number(u32),
    Search,
}

/// The number that stands for a key code in the dispatch table.
pub open spec fn code_id(code: KeyCode) -> u64 {
    match code {
        KeyCode::Char(c) => c as u64,
        KeyCode::Enter => 0x110000,
        KeyCode::Backspace => 0x110001,
        KeyCode::Esc => 0x110002,
        KeyCode::Up => 0x110003,
        KeyCode::Down => 0x110004,
        KeyCode::Left => 0x110005,
        KeyCode::Right => 0x110006,
        KeyCode::Home => 0x110007,
        KeyCode::End => 0x110008,
        KeyCode::PageUp => 0x110009,
        KeyCode::PageDown => 0x11000a,
        KeyCode::Other => 0x11000b,
    }
}

/// The number that stands for a key press in the dispatch table: the code above
/// eight bits of modifiers.
pub open spec fn key_id_spec(e: KeyEvent) -> u64 {
    (code_id(e.code) * 256 + e.modifiers as u64) as u64
}

/// The dispatch-table number of a key press.
pub fn key_id(e: KeyEvent) -> (r: u64)
    ensures
        r == key_id_spec(e),
{
    let code: u64 = match e.code {
        KeyCode::Char(c) => c as u64,
        KeyCode::Enter => 0x110000,
        KeyCode::Backspace => 0x110001,
        KeyCode::Esc => 0x110002,
        KeyCode::Up => 0x110003,
        KeyCode::Down => 0x110004,
        KeyCode::Left => 0x110005,
        KeyCode::Right => 0x110006,
        KeyCode::Home => 0x110007,
        KeyCode::End => 0x110008,
        KeyCode::PageUp => 0x110009,
        KeyCode::PageDown => 0x11000a,
        KeyCode::Other => 0x11000b,
    };
    code * 256 + e.modifiers as u64
}

#[verifier::external_type_specification]
#[verifier::external_body]
#[verifier::reject_recursive_types(K)]
#[verifier::reject_recursive_types(V)]
#[verifier::reject_recursive_types(S)]
pub struct ExAHashMap<K, V, S>(ahash::AHashMap<K, V, S>);

#[verifier::external_type_specification]
#[verifier::external_body]
pub struct ExRandomState(ahash::RandomState);

/// A table that binds no key.
pub open spec fn no_bindings() -> Map<u64, KeyBehavior> {
    Map::empty()
}

/// The table type behind a key dispatch table.
pub type BindingTable = ahash::AHashMap<u64, KeyBehavior>;

/// The bindings that a dispatch table holds.
pub uninterp spec fn bindings(m: BindingTable) -> Map<u64, KeyBehavior>;

/// Relies on `AHashMap::new` of ahash: an empty map.
#[verifier::external_body]
fn table_new() -> (r: BindingTable)
    ensures
        bindings(r) == no_bindings(),
{
    ahash::AHashMap::new()
}

/// Relies on `AHashMap::insert` of ahash (std's `HashMap::insert`): the key is bound
/// to the value, replacing an earlier binding.
#[verifier::external_body]
fn table_insert(m: &mut BindingTable, k: u64, v: KeyBehavior)
    ensures
        bindings(*final(m)) == bindings(*old(m)).insert(k, v),
{
    m.insert(k, v);
}

/// Relies on `AHashMap::get` of ahash (std's `HashMap::get`): the value bound to the key.
#[verifier::external_body]
fn table_get(m: &BindingTable, k: u64) -> (r: Option<KeyBehavior>)
    ensures
        r == lookup(bindings(*m), k),
{
    m.get(&k).copied()
}

/// The value bound to `k`, if any.
pub open spec fn lookup(m: Map<u64, KeyBehavior>, k: u64) -> Option<KeyBehavior> {
    if m.dom().contains(k) {
        Some(m[k])
    } else {
        None
    }
}

/// A key dispatch table.
pub struct Keymap {
    pub table: BindingTable,
}

impl Keymap {
    pub open spec fn view_bindings(&self) -> Map<u64, KeyBehavior> {
        bindings(self.table)
    }

    /// A table with no bindings.
    pub fn new() -> (r: Keymap)
        ensures
            r.view_bindings() == no_bindings(),
    {
        Keymap { table: table_new() }
    }

    /// Binds a key press to a behavior, replacing an earlier binding of it.
    pub fn bind(&mut self, code: KeyCode, modifiers: u8, behavior: KeyBehavior)
        ensures
            final(self).view_bindings() == old(self).view_bindings().insert(
                key_id_spec(KeyEvent { code, modifiers }),
                behavior,
            ),
    {
        let id = key_id(KeyEvent { code, modifiers });
        table_insert(&mut self.table, id, behavior);
    }

    /// The behavior bound to a key press.
    pub fn get(&self, e: KeyEvent) -> (r: Option<KeyBehavior>)
        ensures
            r == lookup(self.view_bindings(), key_id_spec(e)),
    {
        let id = key_id(e);
        table_get(&self.table, id)
    }
}

/// The dispatch-table number of `code` with `modifiers`.
pub open spec fn key_of(code: KeyCode, modifiers: u8) -> u64 {
    key_id_spec(KeyEvent { code, modifiers })
}

/// The default vi/less-style bindings. Control-d quits: bound twice, the later binding stands.
pub open spec fn default_bindings() -> Map<u64, KeyBehavior> {
    map![
        key_of(KeyCode::Enter, 0) => KeyBehavior::Down(ScrollSize::One),
        key_of(KeyCode::Down, 0) => KeyBehavior::Down(ScrollSize::One),
        key_of(KeyCode::Char('j'), 0) => KeyBehavior::Down(ScrollSize::One),
        key_of(KeyCode::Up, 0) => KeyBehavior::Up(ScrollSize::One),
        key_of(KeyCode::Char('k'), 0) => KeyBehavior::Up(ScrollSize::One),
        key_of(KeyCode::Char('u'), 0) => KeyBehavior::Up(ScrollSize::HalfPage),
        key_of(KeyCode::Char('d'), 0) => KeyBehavior::Down(ScrollSize::HalfPage),
        key_of(KeyCode::Left, 0) => KeyBehavior::Up(ScrollSize::HalfPage),
        key_of(KeyCode::Right, 0) => KeyBehavior::Down(ScrollSize::HalfPage),
        key_of(KeyCode::Char('f'), 0) => KeyBehavior::Down(ScrollSize::Page),
        key_of(KeyCode::Char(' '), 0) => KeyBehavior::Down(ScrollSize::Page),
        key_of(KeyCode::Char('b'), 0) => KeyBehavior::Up(ScrollSize::Page),
        key_of(KeyCode::PageDown, 0) => KeyBehavior::Down(ScrollSize::Page),
        key_of(KeyCode::PageUp, 0) => KeyBehavior::Up(ScrollSize::Page),
        key_of(KeyCode::Esc, 0) => KeyBehavior::NormalMode,
        key_of(KeyCode::Home, 0) => KeyBehavior::Up(ScrollSize::End),
        key_of(KeyCode::End, 0) => KeyBehavior::Down(ScrollSize::End),
        key_of(KeyCode::Char('g'), 0) => KeyBehavior::Up(ScrollSize::End),
        key_of(KeyCode::Char('q'), 0) => KeyBehavior::Quit,
        key_of(KeyCode::Char('/'), 0) => KeyBehavior::Search,
        key_of(KeyCode::Char('n'), 0) => KeyBehavior::SearchNext,
        key_of(KeyCode::Char('0'), 0) => KeyBehavior::Number(0),
        key_of(KeyCode::Char('1'), 0) => KeyBehavior::Number(1),
        key_of(KeyCode::Char('2'), 0) => KeyBehavior::Number(2),
        key_of(KeyCode::Char('3'), 0) => KeyBehavior::Number(3),
        key_of(KeyCode::Char('4'), 0) => KeyBehavior::Number(4),
        key_of(KeyCode::Char('5'), 0) => KeyBehavior::Number(5),
        key_of(KeyCode::Char('6'), 0) => KeyBehavior::Number(6),
        key_of(KeyCode::Char('7'), 0) => KeyBehavior::Number(7),
        key_of(KeyCode::Char('8'), 0) => KeyBehavior::Number(8),
        key_of(KeyCode::Char('9'), 0) => KeyBehavior::Number(9),
        key_of(KeyCode::Char('G'), SHIFT) => KeyBehavior::Down(ScrollSize::End),
        key_of(KeyCode::Char('N'), SHIFT) => KeyBehavior::SearchPrev,
        key_of(KeyCode::Char('Q'), SHIFT) => KeyBehavior::Quit,
        key_of(KeyCode::Char('u'), CONTROL) => KeyBehavior::Up(ScrollSize::HalfPage),
        key_of(KeyCode::Char('d'), CONTROL) => KeyBehavior::Quit,
        key_of(KeyCode::Char('f'), CONTROL) => KeyBehavior::Down(ScrollSize::Page),
        key_of(KeyCode::Char('v'), CONTROL) => KeyBehavior::Down(ScrollSize::Page),
        key_of(KeyCode::Char('b'), CONTROL) => KeyBehavior::Up(ScrollSize::Page),
        key_of(KeyCode::Char('e'), CONTROL) => KeyBehavior::Down(ScrollSize::One),
        key_of(KeyCode::Char('n'), CONTROL) => KeyBehavior::Down(ScrollSize::One),
        key_of(KeyCode::Char('y'), CONTROL) => KeyBehavior::Up(ScrollSize::One),
        key_of(KeyCode::Char('k'), CONTROL) => KeyBehavior::Up(ScrollSize::One),
        key_of(KeyCode::Char('p'), CONTROL) => KeyBehavior::Up(ScrollSize::One),
        key_of(KeyCode::Char('c'), CONTROL) => KeyBehavior::Quit,
    ]
}

/// The dispatch table with the default bindings.
#[verifier::rlimit(50)]
pub fn default_keymap() -> (r: Keymap)
    ensures
        r.view_bindings() == default_bindings(),
{
    let mut keymap = Keymap::new();
    keymap.bind(KeyCode::Enter, 0, KeyBehavior::Down(ScrollSize::One));
    keymap.bind(KeyCode::Down, 0, KeyBehavior::Down(ScrollSize::One));
    keymap.bind(KeyCode::Char('j'), 0, KeyBehavior::Down(ScrollSize::One));
    keymap.bind(KeyCode::Up, 0, KeyBehavior::Up(ScrollSize::One));
    keymap.bind(KeyCode::Char('k'), 0, KeyBehavior::Up(ScrollSize::One));
    keymap.bind(KeyCode::Char('u'), 0, KeyBehavior::Up(ScrollSize::HalfPage));
    keymap.bind(KeyCode::Char('d'), 0, KeyBehavior::Down(ScrollSize::HalfPage));
    keymap.bind(KeyCode::Left, 0, KeyBehavior::Up(ScrollSize::HalfPage));
    keymap.bind(KeyCode::Right, 0, KeyBehavior::Down(ScrollSize::HalfPage));
    keymap.bind(KeyCode::Char('f'), 0, KeyBehavior::Down(ScrollSize::Page));
    keymap.bind(KeyCode::Char(' '), 0, KeyBehavior::Down(ScrollSize::Page));
    keymap.bind(KeyCode::Char('b'), 0, KeyBehavior::Up(ScrollSize::Page));
    keymap.bind(KeyCode::PageDown, 0, KeyBehavior::Down(ScrollSize::Page));
    keymap.bind(KeyCode::PageUp, 0, KeyBehavior::Up(ScrollSize::Page));
    keymap.bind(KeyCode::Esc, 0, KeyBehavior::NormalMode);
    keymap.bind(KeyCode::Home, 0, KeyBehavior::Up(ScrollSize::End));
    keymap.bind(KeyCode::End, 0, KeyBehavior::Down(ScrollSize::End));
    keymap.bind(KeyCode::Char('g'), 0, KeyBehavior::Up(ScrollSize::End));
    keymap.bind(KeyCode::Char('q'), 0, KeyBehavior::Quit);
    keymap.bind(KeyCode::Char('/'), 0, KeyBehavior::Search);
    keymap.bind(KeyCode::Char('n'), 0, KeyBehavior::SearchNext);
    keymap.bind(KeyCode::Char('0'), 0, KeyBehavior::Number(0));
    keymap.bind(KeyCode::Char('1'), 0, KeyBehavior::Number(1));
    keymap.bind(KeyCode::Char('2'), 0, KeyBehavior::Number(2));
    keymap.bind(KeyCode::Char('3'), 0, KeyBehavior::Number(3));
    keymap.bind(KeyCode::Char('4'), 0, KeyBehavior::Number(4));
    keymap.bind(KeyCode::Char('5'), 0, KeyBehavior::Number(5));
    keymap.bind(KeyCode::Char('6'), 0, KeyBehavior::Number(6));
    keymap.bind(KeyCode::Char('7'), 0, KeyBehavior::Number(7));
    keymap.bind(KeyCode::Char('8'), 0, KeyBehavior::Number(8));
    keymap.bind(KeyCode::Char('9'), 0, KeyBehavior::Number(9));
    keymap.bind(KeyCode::Char('G'), SHIFT, KeyBehavior::Down(ScrollSize::End));
    keymap.bind(KeyCode::Char('N'), SHIFT, KeyBehavior::SearchPrev);
    keymap.bind(KeyCode::Char('Q'), SHIFT, KeyBehavior::Quit);
    keymap.bind(KeyCode::Char('u'), CONTROL, KeyBehavior::Up(ScrollSize::HalfPage));
    keymap.bind(KeyCode::Char('d'), CONTROL, KeyBehavior::Down(ScrollSize::HalfPage));
    keymap.bind(KeyCode::Char('f'), CONTROL, KeyBehavior::Down(ScrollSize::Page));
    keymap.bind(KeyCode::Char('v'), CONTROL, KeyBehavior::Down(ScrollSize::Page));
    keymap.bind(KeyCode::Char('b'), CONTROL, KeyBehavior::Up(ScrollSize::Page));
    keymap.bind(KeyCode::Char('e'), CONTROL, KeyBehavior::Down(ScrollSize::One));
    keymap.bind(KeyCode::Char('n'), CONTROL, KeyBehavior::Down(ScrollSize::One));
    keymap.bind(KeyCode::Char('y'), CONTROL, KeyBehavior::Up(ScrollSize::One));
    keymap.bind(KeyCode::Char('k'), CONTROL, KeyBehavior::Up(ScrollSize::One));
    keymap.bind(KeyCode::Char('p'), CONTROL, KeyBehavior::Up(ScrollSize::One));
    keymap.bind(KeyCode::Char('d'), CONTROL, KeyBehavior::Quit);
    keymap.bind(KeyCode::Char('c'), CONTROL, KeyBehavior::Quit);
    assert(keymap.view_bindings() =~= default_bindings());
    keymap
}

} // verus!

//! Keys and the Normal-mode keymap: a table from keys to actions.
use vstd::prelude::*;

use super::Operator;
use super::action::Action;
use std::collections::HashMap;

verus! {

broadcast use vstd::std_specs::hash::group_hash_axioms;

/// Which key was pressed (the keys the editor tells apart; every other key is `Other`).
#[derive(Clone, Copy, Debug, PartialEq, Eq, Hash, Structural)]
pub enum KeyCode {
    Char(char),
    Esc,
    Backspace,
    Enter,
    Other,
}

/// The modifier keys held with a key.
#[derive(Clone, Copy, Debug, PartialEq, Eq, Hash, Structural)]
pub struct KeyModifiers {
    pub shift: bool,
    pub control: bool,
    pub alt: bool,
    pub super_key: bool,
    pub hyper: bool,
    pub meta: bool,
}

/// A key press: the key and the modifiers held with it.
#[derive(Clone, Copy, Debug, PartialEq, Eq, Hash, Structural)]
pub struct KeyEvent {
    pub code: KeyCode,
    pub modifiers: KeyModifiers,
}

/// No modifier held.
pub open spec fn no_mods() -> KeyModifiers {
    KeyModifiers { shift: false, control: false, alt: false, super_key: false, hyper: false, meta: false }
}

/// Only Control held.
pub open spec fn ctrl_mods() -> KeyModifiers {
    KeyModifiers { control: true, ..no_mods() }
}

/// A key as a keymap lookup key: code + modifiers.
/// A dedicated type (instead of `KeyEvent`) so that the modifiers can be normalized.
#[derive(Clone, Copy, Debug, PartialEq, Eq, Hash, Structural)]
pub struct KeyBind {
    pub code: KeyCode,
    pub mods: KeyModifiers,
}

/// The lookup key of a key press: its code, and of its modifiers only Control
/// and Alt (Shift is already in the char itself, `G` vs `g`).
pub open spec fn bind_of(key: KeyEvent) -> KeyBind {
    KeyBind {
        code: key.code,
        mods: KeyModifiers { control: key.modifiers.control, alt: key.modifiers.alt, ..no_mods() },
    }
}

impl KeyBind {
    /// Turn a key press into a lookup key (dropping every modifier but Control and Alt).
    pub fn from_event(key: KeyEvent) -> (b: Self)
        ensures
            b == bind_of(key),
    {
        let mods = KeyModifiers {
            shift: false,
            control: key.modifiers.control,
            alt: key.modifiers.alt,
            super_key: false,
            hyper: false,
            meta: false,
        };
        Self { code: key.code, mods }
    }

    /// A character key with no modifiers.
    fn plain(c: char) -> (b: Self)
        ensures
            b == (KeyBind { code: KeyCode::Char(c), mods: no_mods() }),
    {
        Self {
            code: KeyCode::Char(c),
            mods: KeyModifiers { shift: false, control: false, alt: false, super_key: false, hyper: false, meta: false },
        }
    }

    /// A character key with Control.
    fn ctrl(c: char) -> (b: Self)
        ensures
            b == (KeyBind { code: KeyCode::Char(c), mods: ctrl_mods() }),
    {
        Self {
            code: KeyCode::Char(c),
            mods: KeyModifiers { shift: false, control: true, alt: false, super_key: false, hyper: false, meta: false },
        }
    }
}

/// The vim-like Normal-mode bindings.
pub open spec fn default_bindings() -> Map<KeyBind, Action> {
    let p = |c: char| KeyBind { code: KeyCode::Char(c), mods: no_mods() };
    let c = |ch: char| KeyBind { code: KeyCode::Char(ch), mods: ctrl_mods() };
    map![
        p('h') => Action::MoveLeft,
        p('l') => Action::MoveRight,
        p('k') => Action::MoveUp,
        p('j') => Action::MoveDown,
        p('w') => Action::WordForward(false),
        p('W') => Action::WordForward(true),
        p('b') => Action::WordBackward(false),
        p('B') => Action::WordBackward(true),
        p('e') => Action::WordEnd(false),
        p('E') => Action::WordEnd(true),
        p('G') => Action::GotoBottom,
        c('u') => Action::HalfPageUp,
        c('d') => Action::HalfPageDown,
        p('i') => Action::InsertBefore,
        p('a') => Action::InsertAfter,
        p('I') => Action::InsertLineStart,
        p('A') => Action::InsertLineEnd,
        p(':') => Action::EnterCommand,
        p('x') => Action::DeleteChar,
        p('D') => Action::DeleteToLineEnd,
        p('d') => Action::StartOperator(Operator::Delete),
        c('s') => Action::Save,
        c('q') => Action::Quit
    ]
}

/// The number a key code is stored under: a char's code point, or a number
/// past every code point for the other keys.
pub open spec fn code_number(c: KeyCode) -> u64 {
    match c {
        KeyCode::Char(ch) => (ch as u32) as u64,
        KeyCode::Esc => 0x110000,
        KeyCode::Backspace => 0x110001,
        KeyCode::Enter => 0x110002,
        KeyCode::Other => 0x110003,
    }
}

/// `bit` when `b` holds, else 0.
pub open spec fn flag(b: bool, bit: u64) -> u64 {
    if b {
        bit
    } else {
        0
    }
}

/// The modifiers as six bits.
pub open spec fn mods_number(m: KeyModifiers) -> u64 {
    (flag(m.shift, 1) + flag(m.control, 2) + flag(m.alt, 4) + flag(m.super_key, 8) + flag(m.hyper, 16)
        + flag(m.meta, 32)) as u64
}

/// The number a binding is stored under in the keymap's table: the key code in
/// the low 21 bits, the modifiers above them.
pub open spec fn bind_number(b: KeyBind) -> u64 {
    (code_number(b.code) + 0x200000 * mods_number(b.mods)) as u64
}

/// Different bindings are stored under different numbers.
pub proof fn lemma_bind_number_injective(a: KeyBind, b: KeyBind)
    ensures
        bind_number(a) == bind_number(b) ==> a == b,
{
    let (ca, cb) = (code_number(a.code) as int, code_number(b.code) as int);
    let (ma, mb) = (mods_number(a.mods) as int, mods_number(b.mods) as int);
    assert(0 <= ca < 0x200000 && 0 <= cb < 0x200000);
    assert(0 <= ma < 64 && 0 <= mb < 64);
    if bind_number(a) == bind_number(b) {
        assert(ca + 0x200000 * ma == cb + 0x200000 * mb);
        assert(ma == mb) by (nonlinear_arith)
            requires
                ca + 0x200000 * ma == cb + 0x200000 * mb,
                0 <= ca < 0x200000,
                0 <= cb < 0x200000,
        ;
        assert(a.mods == b.mods);
        assert(a.code == b.code);
    }
}

/// The table of bindings that a table of numbers stands for.
pub open spec fn table_view(t: Map<u64, Action>) -> Map<KeyBind, Action> {
    Map::new(|k: KeyBind| t.contains_key(bind_number(k)), |k: KeyBind| t[bind_number(k)])
}

/// The keymap as data: a "key -> action" table.
pub struct Keymap {
    normal: HashMap<u64, Action>,
}

impl View for Keymap {
    type V = Map<KeyBind, Action>;

    closed spec fn view(&self) -> Map<KeyBind, Action> {
        table_view(self.normal@)
    }
}

impl KeyBind {
    /// The number this binding is stored under in the keymap's table.
    fn number(&self) -> (n: u64)
        ensures
            n == bind_number(*self),
    {
        let code: u64 = match self.code {
            KeyCode::Char(ch) => (ch as u32) as u64,
            KeyCode::Esc => 0x110000,
            KeyCode::Backspace => 0x110001,
            KeyCode::Enter => 0x110002,
            KeyCode::Other => 0x110003,
        };
        let m = self.mods;
        let mods: u64 = (if m.shift { 1 } else { 0 }) + (if m.control { 2 } else { 0 }) + (if m.alt { 4 } else { 0 })
            + (if m.super_key { 8 } else { 0 }) + (if m.hyper { 16 } else { 0 }) + (if m.meta { 32 } else { 0 });
        code + 0x200000 * mods
    }
}

impl Keymap {
    /// The vim-like Normal-mode keymap.
    pub fn default_vim() -> (k: Self)
        ensures
            k@ == default_bindings(),
    {
        let mut normal: HashMap<u64, Action> = HashMap::new();
        proof {
            assert(table_view(normal@) =~= Map::empty());
        }
        // motions
        Self::bind(&mut normal, KeyBind::plain('h'), Action::MoveLeft);
        Self::bind(&mut normal, KeyBind::plain('l'), Action::MoveRight);
        Self::bind(&mut normal, KeyBind::plain('k'), Action::MoveUp);
        Self::bind(&mut normal, KeyBind::plain('j'), Action::MoveDown);
        Self::bind(&mut normal, KeyBind::plain('w'), Action::WordForward(false));
        Self::bind(&mut normal, KeyBind::plain('W'), Action::WordForward(true));
        Self::bind(&mut normal, KeyBind::plain('b'), Action::WordBackward(false));
        Self::bind(&mut normal, KeyBind::plain('B'), Action::WordBackward(true));
        Self::bind(&mut normal, KeyBind::plain('e'), Action::WordEnd(false));
        Self::bind(&mut normal, KeyBind::plain('E'), Action::WordEnd(true));
        Self::bind(&mut normal, KeyBind::plain('G'), Action::GotoBottom);
        Self::bind(&mut normal, KeyBind::ctrl('u'), Action::HalfPageUp);
        Self::bind(&mut normal, KeyBind::ctrl('d'), Action::HalfPageDown);
        // modes
        Self::bind(&mut normal, KeyBind::plain('i'), Action::InsertBefore);
        Self::bind(&mut normal, KeyBind::plain('a'), Action::InsertAfter);
        Self::bind(&mut normal, KeyBind::plain('I'), Action::InsertLineStart);
        Self::bind(&mut normal, KeyBind::plain('A'), Action::InsertLineEnd);
        Self::bind(&mut normal, KeyBind::plain(':'), Action::EnterCommand);
        // editing
        Self::bind(&mut normal, KeyBind::plain('x'), Action::DeleteChar);
        Self::bind(&mut normal, KeyBind::plain('D'), Action::DeleteToLineEnd);
        Self::bind(&mut normal, KeyBind::plain('d'), Action::StartOperator(Operator::Delete));
        // system
        Self::bind(&mut normal, KeyBind::ctrl('s'), Action::Save);
        Self::bind(&mut normal, KeyBind::ctrl('q'), Action::Quit);
        proof {
            assert(table_view(normal@) =~= default_bindings());
        }
        Self { normal }
    }

    /// Add the binding `key -> action` to the table (replacing an earlier one).
    fn bind(normal: &mut HashMap<u64, Action>, key: KeyBind, action: Action)
        ensures
            table_view(final(normal)@) == table_view(old(normal)@).insert(key, action),
    {
        let n = key.number();
        normal.insert(n, action);
        proof {
            assert forall|k: KeyBind| k != key implies bind_number(k) != n by {
                lemma_bind_number_injective(k, key);
            }
            assert(table_view(normal@) =~= table_view(old(normal)@).insert(key, action));
        }
    }

    /// Look up the action bound to a key in Normal mode.
    pub fn lookup_normal(&self, bind: &KeyBind) -> (r: Option<Action>)
        ensures
            r == (if self@.contains_key(*bind) { Some(self@[*bind]) } else { None }),
    {
        let n = bind.number();
        match self.normal.get(&n) {
            Some(a) => Some(*a),
            None => None,
        }
    }

    /// A copy of the keymap.
    pub fn snapshot(&self) -> (k: Self)
        ensures
            k@ == self@,
    {
        let normal = self.normal.clone();
        let k = Self { normal };
        proof {
            assert(k@ =~= self@);
        }
        k
    }
}

} // verus!

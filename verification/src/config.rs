//! The configuration: general settings, and which key does what.
use crate::binding::{Action, ActionView, Arg, ArgValue, BindingError, ErrorView, ListItem, ValueView};
use crate::gallery::BackgroundColor;
use crate::text::{self, lowercase_text};
use vstd::prelude::*;

verus! {

broadcast use vstd::string::group_string_axioms;

/// A key of the keyboard.
#[derive(Debug, Clone, Copy, PartialEq, Eq, Structural)]
pub enum Key {
    ArrowDown,
    ArrowLeft,
    ArrowRight,
    ArrowUp,
    Escape,
    Tab,
    Backspace,
    Enter,
    Space,
    Insert,
    Delete,
    Home,
    End,
    PageUp,
    PageDown,
    A,
    B,
    C,
    D,
    E,
    F,
    G,
    H,
    I,
    J,
    K,
    L,
    M,
    N,
    O,
    P,
    Q,
    R,
    S,
    T,
    U,
    V,
    W,
    X,
    Y,
    Z,
    Num0,
    Num1,
    Num2,
    Num3,
    Num4,
    Num5,
    Num6,
    Num7,
    Num8,
    Num9,
    F1,
    F2,
    F3,
    F4,
    F5,
    F6,
    F7,
    F8,
    F9,
    F10,
    F11,
    F12,
    Minus,
    Plus,
    Comma,
    Period,
    Semicolon,
    Colon,
    Slash,
    Backslash,
    OpenBracket,
    CloseBracket,
    Backtick,
    /// A key that the configuration has no name for.
    Other,
}

/// The key that a name stands for.
pub open spec fn key_named(name: Seq<char>) -> Option<Key> {
    if name == "ArrowDown"@ {
        Some(Key::ArrowDown)
    } else if name == "ArrowLeft"@ {
        Some(Key::ArrowLeft)
    } else if name == "ArrowRight"@ {
        Some(Key::ArrowRight)
    } else if name == "ArrowUp"@ {
        Some(Key::ArrowUp)
    } else if name == "Escape"@ {
        Some(Key::Escape)
    } else if name == "Tab"@ {
        Some(Key::Tab)
    } else if name == "Backspace"@ {
        Some(Key::Backspace)
    } else if name == "Enter"@ {
        Some(Key::Enter)
    } else if name == "Return"@ {
        Some(Key::Enter)
    } else if name == "Space"@ {
        Some(Key::Space)
    } else if name == "Insert"@ {
        Some(Key::Insert)
    } else if name == "Delete"@ {
        Some(Key::Delete)
    } else if name == "Home"@ {
        Some(Key::Home)
    } else if name == "End"@ {
        Some(Key::End)
    } else if name == "PageUp"@ {
        Some(Key::PageUp)
    } else if name == "PageDown"@ {
        Some(Key::PageDown)
    } else if name == "A"@ {
        Some(Key::A)
    } else if name == "B"@ {
        Some(Key::B)
    } else if name == "C"@ {
        Some(Key::C)
    } else if name == "D"@ {
        Some(Key::D)
    } else if name == "E"@ {
        Some(Key::E)
    } else if name == "F"@ {
        Some(Key::F)
    } else if name == "G"@ {
        Some(Key::G)
    } else if name == "H"@ {
        Some(Key::H)
    } else if name == "I"@ {
        Some(Key::I)
    } else if name == "J"@ {
        Some(Key::J)
    } else if name == "K"@ {
        Some(Key::K)
    } else if name == "L"@ {
        Some(Key::L)
    } else if name == "M"@ {
        Some(Key::M)
    } else if name == "N"@ {
        Some(Key::N)
    } else if name == "O"@ {
        Some(Key::O)
    } else if name == "P"@ {
        Some(Key::P)
    } else if name == "Q"@ {
        Some(Key::Q)
    } else if name == "R"@ {
        Some(Key::R)
    } else if name == "S"@ {
        Some(Key::S)
    } else if name == "T"@ {
        Some(Key::T)
    } else if name == "U"@ {
        Some(Key::U)
    } else if name == "V"@ {
        Some(Key::V)
    } else if name == "W"@ {
        Some(Key::W)
    } else if name == "X"@ {
        Some(Key::X)
    } else if name == "Y"@ {
        Some(Key::Y)
    } else if name == "Z"@ {
        Some(Key::Z)
    } else if name == "Num0"@ {
        Some(Key::Num0)
    } else if name == "Num1"@ {
        Some(Key::Num1)
    } else if name == "Num2"@ {
        Some(Key::Num2)
    } else if name == "Num3"@ {
        Some(Key::Num3)
    } else if name == "Num4"@ {
        Some(Key::Num4)
    } else if name == "Num5"@ {
        Some(Key::Num5)
    } else if name == "Num6"@ {
        Some(Key::Num6)
    } else if name == "Num7"@ {
        Some(Key::Num7)
    } else if name == "Num8"@ {
        Some(Key::Num8)
    } else if name == "Num9"@ {
        Some(Key::Num9)
    } else if name == "F1"@ {
        Some(Key::F1)
    } else if name == "F2"@ {
        Some(Key::F2)
    } else if name == "F3"@ {
        Some(Key::F3)
    } else if name == "F4"@ {
        Some(Key::F4)
    } else if name == "F5"@ {
        Some(Key::F5)
    } else if name == "F6"@ {
        Some(Key::F6)
    } else if name == "F7"@ {
        Some(Key::F7)
    } else if name == "F8"@ {
        Some(Key::F8)
    } else if name == "F9"@ {
        Some(Key::F9)
    } else if name == "F10"@ {
        Some(Key::F10)
    } else if name == "F11"@ {
        Some(Key::F11)
    } else if name == "F12"@ {
        Some(Key::F12)
    } else if name == "Minus"@ {
        Some(Key::Minus)
    } else if name == "Plus"@ {
        Some(Key::Plus)
    } else if name == "Equals"@ {
        Some(Key::Plus)
    } else if name == "Comma"@ {
        Some(Key::Comma)
    } else if name == "Period"@ {
        Some(Key::Period)
    } else if name == "Semicolon"@ {
        Some(Key::Semicolon)
    } else if name == "Colon"@ {
        Some(Key::Colon)
    } else if name == "Slash"@ {
        Some(Key::Slash)
    } else if name == "Backslash"@ {
        Some(Key::Backslash)
    } else if name == "OpenBracket"@ {
        Some(Key::OpenBracket)
    } else if name == "CloseBracket"@ {
        Some(Key::CloseBracket)
    } else if name == "Backtick"@ {
        Some(Key::Backtick)
    } else if name == "Grave"@ {
        Some(Key::Backtick)
    } else {
        None
    }
}

/// The key that a name stands for.
pub fn parse_key(name: &str) -> (k: Option<Key>)
    ensures
        k == key_named(name@),
{
    if text::same(name, "ArrowDown") {
        Some(Key::ArrowDown)
    } else if text::same(name, "ArrowLeft") {
        Some(Key::ArrowLeft)
    } else if text::same(name, "ArrowRight") {
        Some(Key::ArrowRight)
    } else if text::same(name, "ArrowUp") {
        Some(Key::ArrowUp)
    } else if text::same(name, "Escape") {
        Some(Key::Escape)
    } else if text::same(name, "Tab") {
        Some(Key::Tab)
    } else if text::same(name, "Backspace") {
        Some(Key::Backspace)
    } else if text::same(name, "Enter") {
        Some(Key::Enter)
    } else if text::same(name, "Return") {
        Some(Key::Enter)
    } else if text::same(name, "Space") {
        Some(Key::Space)
    } else if text::same(name, "Insert") {
        Some(Key::Insert)
    } else if text::same(name, "Delete") {
        Some(Key::Delete)
    } else if text::same(name, "Home") {
        Some(Key::Home)
    } else if text::same(name, "End") {
        Some(Key::End)
    } else if text::same(name, "PageUp") {
        Some(Key::PageUp)
    } else if text::same(name, "PageDown") {
        Some(Key::PageDown)
    } else if text::same(name, "A") {
        Some(Key::A)
    } else if text::same(name, "B") {
        Some(Key::B)
    } else if text::same(name, "C") {
        Some(Key::C)
    } else if text::same(name, "D") {
        Some(Key::D)
    } else if text::same(name, "E") {
        Some(Key::E)
    } else if text::same(name, "F") {
        Some(Key::F)
    } else if text::same(name, "G") {
        Some(Key::G)
    } else if text::same(name, "H") {
        Some(Key::H)
    } else if text::same(name, "I") {
        Some(Key::I)
    } else if text::same(name, "J") {
        Some(Key::J)
    } else if text::same(name, "K") {
        Some(Key::K)
    } else if text::same(name, "L") {
        Some(Key::L)
    } else if text::same(name, "M") {
        Some(Key::M)
    } else if text::same(name, "N") {
        Some(Key::N)
    } else if text::same(name, "O") {
        Some(Key::O)
    } else if text::same(name, "P") {
        Some(Key::P)
    } else if text::same(name, "Q") {
        Some(Key::Q)
    } else if text::same(name, "R") {
        Some(Key::R)
    } else if text::same(name, "S") {
        Some(Key::S)
    } else if text::same(name, "T") {
        Some(Key::T)
    } else if text::same(name, "U") {
        Some(Key::U)
    } else if text::same(name, "V") {
        Some(Key::V)
    } else if text::same(name, "W") {
        Some(Key::W)
    } else if text::same(name, "X") {
        Some(Key::X)
    } else if text::same(name, "Y") {
        Some(Key::Y)
    } else if text::same(name, "Z") {
        Some(Key::Z)
    } else if text::same(name, "Num0") {
        Some(Key::Num0)
    } else if text::same(name, "Num1") {
        Some(Key::Num1)
    } else if text::same(name, "Num2") {
        Some(Key::Num2)
    } else if text::same(name, "Num3") {
        Some(Key::Num3)
    } else if text::same(name, "Num4") {
        Some(Key::Num4)
    } else if text::same(name, "Num5") {
        Some(Key::Num5)
    } else if text::same(name, "Num6") {
        Some(Key::Num6)
    } else if text::same(name, "Num7") {
        Some(Key::Num7)
    } else if text::same(name, "Num8") {
        Some(Key::Num8)
    } else if text::same(name, "Num9") {
        Some(Key::Num9)
    } else if text::same(name, "F1") {
        Some(Key::F1)
    } else if text::same(name, "F2") {
        Some(Key::F2)
    } else if text::same(name, "F3") {
        Some(Key::F3)
    } else if text::same(name, "F4") {
        Some(Key::F4)
    } else if text::same(name, "F5") {
        Some(Key::F5)
    } else if text::same(name, "F6") {
        Some(Key::F6)
    } else if text::same(name, "F7") {
        Some(Key::F7)
    } else if text::same(name, "F8") {
        Some(Key::F8)
    } else if text::same(name, "F9") {
        Some(Key::F9)
    } else if text::same(name, "F10") {
        Some(Key::F10)
    } else if text::same(name, "F11") {
        Some(Key::F11)
    } else if text::same(name, "F12") {
        Some(Key::F12)
    } else if text::same(name, "Minus") {
        Some(Key::Minus)
    } else if text::same(name, "Plus") {
        Some(Key::Plus)
    } else if text::same(name, "Equals") {
        Some(Key::Plus)
    } else if text::same(name, "Comma") {
        Some(Key::Comma)
    } else if text::same(name, "Period") {
        Some(Key::Period)
    } else if text::same(name, "Semicolon") {
        Some(Key::Semicolon)
    } else if text::same(name, "Colon") {
        Some(Key::Colon)
    } else if text::same(name, "Slash") {
        Some(Key::Slash)
    } else if text::same(name, "Backslash") {
        Some(Key::Backslash)
    } else if text::same(name, "OpenBracket") {
        Some(Key::OpenBracket)
    } else if text::same(name, "CloseBracket") {
        Some(Key::CloseBracket)
    } else if text::same(name, "Backtick") {
        Some(Key::Backtick)
    } else if text::same(name, "Grave") {
        Some(Key::Backtick)
    } else {
        None
    }
}

/// The keys that are held down with another.
#[derive(Debug, Clone, Copy, PartialEq, Eq, Structural)]
pub struct ModifierSet {
    pub ctrl: bool,
    pub shift: bool,
    pub alt: bool,
}

impl Default for ModifierSet {
    fn default() -> (m: Self)
        ensures
            m == (ModifierSet { ctrl: false, shift: false, alt: false }),
    {
        ModifierSet { ctrl: false, shift: false, alt: false }
    }
}

impl ModifierSet {
    /// Whether exactly these keys are held down.
    pub fn matches(&self, ctrl: bool, shift: bool, alt: bool) -> (b: bool)
        ensures
            b == (*self == ModifierSet { ctrl, shift, alt }),
    {
        self.ctrl == ctrl && self.shift == shift && self.alt == alt
    }
}

/// One of the names stands for `modifier`, in whatever case.
pub open spec fn names_modifier(names: Seq<Seq<char>>, modifier: Seq<char>) -> bool {
    exists|i: int| 0 <= i < names.len() && lowercase_text(#[trigger] names[i]) == modifier
}

/// The keys that the names stand for. Names that stand for none are passed over.
pub open spec fn modifiers_named(names: Seq<Seq<char>>) -> ModifierSet {
    ModifierSet {
        ctrl: names_modifier(names, "ctrl"@) || names_modifier(names, "control"@),
        shift: names_modifier(names, "shift"@),
        alt: names_modifier(names, "alt"@),
    }
}

proof fn lemma_modifier_names()
    ensures
        "ctrl"@ != "shift"@,
        "ctrl"@ != "alt"@,
        "control"@ != "shift"@,
        "control"@ != "alt"@,
        "shift"@ != "alt"@,
{
    reveal_strlit("ctrl");
    reveal_strlit("control");
    reveal_strlit("shift");
    reveal_strlit("alt");
    assert("ctrl"@.len() == 4);
    assert("control"@.len() == 7);
    assert("shift"@.len() == 5);
    assert("alt"@.len() == 3);
}

proof fn lemma_one_more_name(names: Seq<Seq<char>>, n: int, modifier: Seq<char>)
    requires
        0 <= n < names.len(),
    ensures
        names_modifier(names.take(n + 1), modifier) == (names_modifier(names.take(n), modifier)
            || lowercase_text(names[n]) == modifier),
{
    let less = names.take(n);
    let more = names.take(n + 1);
    if names_modifier(less, modifier) {
        let i = choose|i: int| 0 <= i < less.len() && lowercase_text(#[trigger] less[i]) == modifier;
        assert(more[i] == less[i]);
    }
    if lowercase_text(names[n]) == modifier {
        assert(more[n] == names[n]);
    }
    if names_modifier(more, modifier) && lowercase_text(names[n]) != modifier {
        let i = choose|i: int| 0 <= i < more.len() && lowercase_text(#[trigger] more[i]) == modifier;
        assert(less[i] == more[i]);
    }
}

/// The keys that the names stand for.
pub fn parse_modifiers(mods: &[String]) -> (s: ModifierSet)
    ensures
        s == modifiers_named(mods.deep_view()),
{
    let ghost names = mods.deep_view();
    let mut s = ModifierSet::default();
    let mut i: usize = 0;
    while i < mods.len()
        invariant
            i <= mods@.len(),
            names == mods.deep_view(),
            s == modifiers_named(names.take(i as int)),
        decreases mods@.len() - i,
    {
        proof {
            lemma_modifier_names();
            lemma_one_more_name(names, i as int, "ctrl"@);
            lemma_one_more_name(names, i as int, "control"@);
            lemma_one_more_name(names, i as int, "shift"@);
            lemma_one_more_name(names, i as int, "alt"@);
            assert(names[i as int] == mods@[i as int]@);
        }
        let m = text::lowercase(mods[i].as_str());
        if text::same(m.as_str(), "ctrl") || text::same(m.as_str(), "control") {
            s.ctrl = true;
        } else if text::same(m.as_str(), "shift") {
            s.shift = true;
        } else if text::same(m.as_str(), "alt") {
            s.alt = true;
        }
        i += 1;
    }
    assert(names.take(i as int) == names);
    s
}

/// A key with the keys that are held down with it.
#[derive(Debug, Clone, Copy, PartialEq, Eq, Structural)]
pub struct KeyCombo {
    pub key: Key,
    pub modifiers: ModifierSet,
}

/// What the configuration says a key does.
#[derive(Debug)]
pub struct KeyBinding {
    pub key: String,
    pub modifiers: Vec<String>,
    pub action: String,
    pub args: Vec<Arg>,
}

/// The contents of a `KeyBinding`.
pub ghost struct KeyBindingView {
    pub key: Seq<char>,
    pub modifiers: Seq<Seq<char>>,
    pub action: Seq<char>,
    pub args: Seq<(Seq<char>, ValueView)>,
}

impl DeepView for KeyBinding {
    type V = KeyBindingView;

    open spec fn deep_view(&self) -> KeyBindingView {
        KeyBindingView {
            key: self.key@,
            modifiers: self.modifiers.deep_view(),
            action: self.action@,
            args: self.args.deep_view(),
        }
    }
}

/// Why the keys of the configuration could not be bound.
#[derive(Debug, PartialEq)]
pub enum ConfigError {
    UnknownKey(String),
    /// The action of this name is not well described.
    BadAction(String, BindingError),
}

/// The contents of a `ConfigError`.
pub ghost enum ConfigErrorView {
    UnknownKey(Seq<char>),
    BadAction(Seq<char>, ErrorView),
}

impl DeepView for ConfigError {
    type V = ConfigErrorView;

    open spec fn deep_view(&self) -> ConfigErrorView {
        match *self {
            ConfigError::UnknownKey(s) => ConfigErrorView::UnknownKey(s@),
            ConfigError::BadAction(s, e) => ConfigErrorView::BadAction(s@, e.deep_view()),
        }
    }
}

/// What each key does. No key stands in the list twice.
pub struct KeyBindingMap {
    pub bindings: Vec<(KeyCombo, Action)>,
}

impl KeyBindingMap {
    /// The actions by their keys.
    pub open spec fn actions(self) -> Seq<(KeyCombo, ActionView)> {
        Seq::new(
            self.bindings@.len(),
            |i: int| (self.bindings@[i].0, self.bindings@[i].1.deep_view()),
        )
    }

    pub open spec fn wf(self) -> bool {
        combos_differ(self.actions())
    }

    /// A map in which no key does anything.
    pub fn empty() -> (m: Self)
        ensures
            m.wf(),
            m.actions().len() == 0,
    {
        KeyBindingMap { bindings: Vec::new() }
    }

    pub fn len(&self) -> (n: usize)
        ensures
            n == self.actions().len(),
    {
        self.bindings.len()
    }

    pub fn is_empty(&self) -> (b: bool)
        ensures
            b == (self.actions().len() == 0),
    {
        self.bindings.len() == 0
    }

    /// The action of a key.
    pub fn action_of(&self, combo: KeyCombo) -> (r: Option<Action>)
        requires
            self.wf(),
        ensures
            r is Some <==> is_bound(self.actions(), combo),
            r matches Some(a) ==> self.actions().contains((combo, a.deep_view())),
    {
        let mut i: usize = 0;
        while i < self.bindings.len()
            invariant
                i <= self.bindings@.len(),
                forall|k: int| 0 <= k < i ==> (#[trigger] self.actions()[k]).0 != combo,
            decreases self.bindings@.len() - i,
        {
            assert(self.actions()[i as int].0 == self.bindings@[i as int].0);
            if self.bindings[i].0 == combo {
                let a = self.bindings[i].1.clone();
                assert(self.actions()[i as int] == (combo, a.deep_view()));
                return Some(a);
            }
            i += 1;
        }
        None
    }

    /// Gives a key an action, in place of any other.
    fn bind(&mut self, combo: KeyCombo, action: Action)
        requires
            old(self).wf(),
        ensures
            final(self).wf(),
            final(self).actions() == bound(old(self).actions(), combo, action.deep_view()),
    {
        let ghost before = self.actions();
        let mut i: usize = 0;
        while i < self.bindings.len()
            invariant
                i <= self.bindings@.len(),
                *self == *old(self),
                before == self.actions(),
                combos_differ(before),
                forall|k: int| 0 <= k < i ==> (#[trigger] before[k]).0 != combo,
            decreases self.bindings@.len() - i,
        {
            assert(before[i as int].0 == self.bindings@[i as int].0);
            if self.bindings[i].0 == combo {
                let ghost new = action.deep_view();
                self.bindings.set(i, (combo, action));
                proof {
                    lemma_bound_at(before, i as int, combo, new);
                    assert(self.actions() =~= before.update(i as int, (combo, new)));
                }
                return;
            }
            i += 1;
        }
        let ghost new = action.deep_view();
        self.bindings.push((combo, action));
        proof {
            lemma_not_bound(before, combo, new);
            assert(self.actions() =~= before.push((combo, new)));
        }
    }
}

/// No key stands in the list twice.
pub open spec fn combos_differ(actions: Seq<(KeyCombo, ActionView)>) -> bool {
    forall|i: int, j: int|
        0 <= i < j < actions.len() ==> (#[trigger] actions[i]).0 != (#[trigger] actions[j]).0
}

/// The key does something.
pub open spec fn is_bound(actions: Seq<(KeyCombo, ActionView)>, combo: KeyCombo) -> bool {
    exists|i: int| 0 <= i < actions.len() && (#[trigger] actions[i]).0 == combo
}

/// The actions with that of `combo` replaced, or added at the end.
pub open spec fn bound(
    actions: Seq<(KeyCombo, ActionView)>,
    combo: KeyCombo,
    action: ActionView,
) -> Seq<(KeyCombo, ActionView)>
    decreases actions.len(),
{
    if actions.len() == 0 {
        seq![(combo, action)]
    } else if actions[0].0 == combo {
        actions.update(0, (combo, action))
    } else {
        seq![actions[0]] + bound(actions.drop_first(), combo, action)
    }
}

proof fn lemma_bound_at(
    actions: Seq<(KeyCombo, ActionView)>,
    i: int,
    combo: KeyCombo,
    action: ActionView,
)
    requires
        0 <= i < actions.len(),
        actions[i].0 == combo,
        forall|k: int| 0 <= k < i ==> (#[trigger] actions[k]).0 != combo,
    ensures
        bound(actions, combo, action) == actions.update(i, (combo, action)),
    decreases actions.len(),
{
    if i > 0 {
        let rest = actions.drop_first();
        assert forall|k: int| 0 <= k < i - 1 implies (#[trigger] rest[k]).0 != combo by {
            assert(rest[k] == actions[k + 1]);
        }
        assert(actions[0].0 != combo);
        lemma_bound_at(rest, i - 1, combo, action);
        assert(seq![actions[0]] + rest.update(i - 1, (combo, action)) =~= actions.update(
            i,
            (combo, action),
        ));
    }
}

proof fn lemma_not_bound(actions: Seq<(KeyCombo, ActionView)>, combo: KeyCombo, action: ActionView)
    requires
        forall|k: int| 0 <= k < actions.len() ==> (#[trigger] actions[k]).0 != combo,
    ensures
        bound(actions, combo, action) == actions.push((combo, action)),
    decreases actions.len(),
{
    if actions.len() > 0 {
        let rest = actions.drop_first();
        assert forall|k: int| 0 <= k < rest.len() implies (#[trigger] rest[k]).0 != combo by {
            assert(rest[k] == actions[k + 1]);
        }
        assert(actions[0].0 != combo);
        lemma_not_bound(rest, combo, action);
        assert(seq![actions[0]] + rest.push((combo, action)) =~= actions.push((combo, action)));
    } else {
        assert(actions.push((combo, action)) =~= seq![(combo, action)]);
    }
}

/// The key and the action that one line of the configuration names.
pub open spec fn one_bound(b: KeyBindingView) -> Result<(KeyCombo, ActionView), ConfigErrorView> {
    match key_named(b.key) {
        None => Err(ConfigErrorView::UnknownKey(b.key)),
        Some(key) => match crate::binding::action_named(b.action, b.args) {
            Err(e) => Err(ConfigErrorView::BadAction(b.action, e)),
            Ok(action) => Ok((KeyCombo { key, modifiers: modifiers_named(b.modifiers) }, action)),
        },
    }
}

/// What the keys do after the lines of the configuration, of which a later one takes precedence over
/// an earlier one, or what is wrong with the first bad line.
pub open spec fn all_bound(lines: Seq<KeyBindingView>) -> Result<
    Seq<(KeyCombo, ActionView)>,
    ConfigErrorView,
>
    decreases lines.len(),
{
    if lines.len() == 0 {
        Ok(Seq::empty())
    } else {
        match all_bound(lines.drop_last()) {
            Err(e) => Err(e),
            Ok(before) => match one_bound(lines.last()) {
                Err(e) => Err(e),
                Ok((combo, action)) => Ok(bound(before, combo, action)),
            },
        }
    }
}

/// The general settings.
#[derive(Debug, Clone, Copy)]
pub struct GeneralConfig {
    /// How many photos the grid shows at first.
    pub tile_count: usize,
    /// How many decoded photos are kept.
    pub cache_size: usize,
    /// How long the slideshow shows a photo, as the bits of a double-precision number of seconds.
    pub slideshow_interval_bits: u64,
    pub background_color: BackgroundColor,
}

/// The bits of 5 seconds.
pub const FIVE_SECONDS_BITS: u64 = 0x4014_0000_0000_0000;

impl Default for GeneralConfig {
    fn default() -> (g: Self)
        ensures
            g == (GeneralConfig {
                tile_count: 9,
                cache_size: 50,
                slideshow_interval_bits: FIVE_SECONDS_BITS,
                background_color: BackgroundColor::Black,
            }),
    {
        GeneralConfig {
            tile_count: 9,
            cache_size: 50,
            slideshow_interval_bits: FIVE_SECONDS_BITS,
            background_color: BackgroundColor::Black,
        }
    }
}

/// The configuration.
#[derive(Debug)]
pub struct Config {
    pub general: GeneralConfig,
    pub keybindings: Vec<KeyBinding>,
}

/// A key without others, and what it does.
pub open spec fn plain_binding(
    key: Seq<char>,
    action: Seq<char>,
    args: Seq<(Seq<char>, ValueView)>,
) -> KeyBindingView {
    KeyBindingView { key, modifiers: Seq::empty(), action, args }
}

/// What the keys do where the configuration says nothing.
pub open spec fn default_bindings() -> Seq<KeyBindingView> {
    seq![
        plain_binding("ArrowRight"@, "Navigate"@, seq![("direction"@, ValueView::Text("next"@))]),
        plain_binding("ArrowLeft"@, "Navigate"@, seq![("direction"@, ValueView::Text("prev"@))]),
        plain_binding("ArrowDown"@, "NavigateTilingRow"@, seq![("direction"@, ValueView::Text("next"@))]),
        plain_binding("ArrowUp"@, "NavigateTilingRow"@, seq![("direction"@, ValueView::Text("prev"@))]),
        plain_binding("L"@, "Navigate"@, seq![("direction"@, ValueView::Text("next"@))]),
        plain_binding("H"@, "Navigate"@, seq![("direction"@, ValueView::Text("prev"@))]),
        plain_binding("J"@, "NavigateTilingRow"@, seq![("direction"@, ValueView::Text("next"@))]),
        plain_binding("K"@, "NavigateTilingRow"@, seq![("direction"@, ValueView::Text("prev"@))]),
        plain_binding("T"@, "SwitchMode"@, seq![("mode"@, ValueView::Text("toggle"@))]),
        plain_binding("S"@, "ToggleSlideshow"@, Seq::empty()),
        plain_binding("Q"@, "Quit"@, Seq::empty()),
        plain_binding("R"@, "CycleRating"@, seq![("values"@, ValueView::List(seq![crate::binding::ItemView::Integer(1), crate::binding::ItemView::Integer(2), crate::binding::ItemView::Integer(3), crate::binding::ItemView::Integer(4), crate::binding::ItemView::Integer(5)]))]),
        plain_binding("Escape"@, "SwitchMode"@, seq![("mode"@, ValueView::Text("tiling"@))]),
        plain_binding("Enter"@, "SwitchMode"@, seq![("mode"@, ValueView::Text("single"@))]),
        plain_binding("OpenBracket"@, "ApplyFilter"@, seq![("filter"@, ValueView::Text("RotateLeft"@))]),
        plain_binding("CloseBracket"@, "ApplyFilter"@, seq![("filter"@, ValueView::Text("RotateRight"@))]),
        plain_binding("Plus"@, "ZoomTiling"@, seq![("delta"@, ValueView::Integer(1))]),
        plain_binding("Minus"@, "ZoomTiling"@, seq![("delta"@, ValueView::Integer((-1) as i64))]),
        plain_binding("PageDown"@, "Navigate"@, seq![("direction"@, ValueView::Text("next"@)), ("count"@, ValueView::Integer(10))]),
        plain_binding("PageUp"@, "Navigate"@, seq![("direction"@, ValueView::Text("prev"@)), ("count"@, ValueView::Integer(10))]),
        plain_binding("E"@, "ToggleFilterSidebar"@, Seq::empty()),
        plain_binding("B"@, "CycleBackground"@, Seq::empty()),
        plain_binding("I"@, "ToggleHistogram"@, Seq::empty()),
        plain_binding("F"@, "ToggleFullscreen"@, Seq::empty()),
        plain_binding("Z"@, "ZoomSingleFit"@, Seq::empty()),
        plain_binding("Num1"@, "ZoomSingleToOne"@, Seq::empty()),
        plain_binding("N"@, "ToggleAnnotations"@, Seq::empty()),
    ]
}

fn text_argument(name: &'static str, value: &'static str) -> (a: Arg)
    ensures
        a.deep_view() == (name@, ValueView::Text(value@)),
{
    Arg { name: name.to_owned(), value: ArgValue::Text(value.to_owned()) }
}

fn integer_argument(name: &'static str, value: i64) -> (a: Arg)
    ensures
        a.deep_view() == (name@, ValueView::Integer(value)),
{
    Arg { name: name.to_owned(), value: ArgValue::Integer(value) }
}

/// The ratings that a key steps through.
pub open spec fn default_ratings() -> Seq<crate::binding::ItemView> {
    seq![
        crate::binding::ItemView::Integer(1),
        crate::binding::ItemView::Integer(2),
        crate::binding::ItemView::Integer(3),
        crate::binding::ItemView::Integer(4),
        crate::binding::ItemView::Integer(5),
    ]
}

fn ratings_argument() -> (a: Arg)
    ensures
        a.deep_view() == ("values"@, ValueView::List(default_ratings())),
{
    let mut items: Vec<ListItem> = Vec::new();
    items.push(ListItem::Integer(1));
    items.push(ListItem::Integer(2));
    items.push(ListItem::Integer(3));
    items.push(ListItem::Integer(4));
    items.push(ListItem::Integer(5));
    assert(items.deep_view() =~= default_ratings());
    Arg { name: "values".to_owned(), value: ArgValue::List(items) }
}

fn no_args() -> (v: Vec<Arg>)
    ensures
        v.deep_view() == Seq::<(Seq<char>, ValueView)>::empty(),
{
    let v: Vec<Arg> = Vec::new();
    assert(v.deep_view() =~= Seq::empty());
    v
}

fn one_arg(a: Arg) -> (v: Vec<Arg>)
    ensures
        v.deep_view() == seq![a.deep_view()],
{
    let mut v: Vec<Arg> = Vec::new();
    v.push(a);
    assert(v.deep_view() =~= seq![a.deep_view()]);
    v
}

fn two_args(a: Arg, b: Arg) -> (v: Vec<Arg>)
    ensures
        v.deep_view() == seq![a.deep_view(), b.deep_view()],
{
    let mut v: Vec<Arg> = Vec::new();
    v.push(a);
    v.push(b);
    assert(v.deep_view() =~= seq![a.deep_view(), b.deep_view()]);
    v
}

fn add_binding(list: &mut Vec<KeyBinding>, key: &'static str, action: &'static str, args: Vec<Arg>)
    ensures
        final(list).deep_view() == old(list).deep_view().push(
            plain_binding(key@, action@, args.deep_view()),
        ),
{
    let b = KeyBinding {
        key: key.to_owned(),
        modifiers: Vec::new(),
        action: action.to_owned(),
        args,
    };
    assert(b.modifiers.deep_view() =~= Seq::empty());
    list.push(b);
    assert(list.deep_view() =~= old(list).deep_view().push(b.deep_view()));
}

/// What the keys do where the configuration says nothing.
pub fn default_keybindings() -> (r: Vec<KeyBinding>)
    ensures
        r.deep_view() == default_bindings(),
{
    let mut r: Vec<KeyBinding> = Vec::new();
    assert(r.deep_view() =~= Seq::empty());
    add_binding(&mut r, "ArrowRight", "Navigate", one_arg(text_argument("direction", "next")));
    add_binding(&mut r, "ArrowLeft", "Navigate", one_arg(text_argument("direction", "prev")));
    add_binding(&mut r, "ArrowDown", "NavigateTilingRow", one_arg(text_argument("direction", "next")));
    add_binding(&mut r, "ArrowUp", "NavigateTilingRow", one_arg(text_argument("direction", "prev")));
    add_binding(&mut r, "L", "Navigate", one_arg(text_argument("direction", "next")));
    add_binding(&mut r, "H", "Navigate", one_arg(text_argument("direction", "prev")));
    add_binding(&mut r, "J", "NavigateTilingRow", one_arg(text_argument("direction", "next")));
    add_binding(&mut r, "K", "NavigateTilingRow", one_arg(text_argument("direction", "prev")));
    add_binding(&mut r, "T", "SwitchMode", one_arg(text_argument("mode", "toggle")));
    add_binding(&mut r, "S", "ToggleSlideshow", no_args());
    add_binding(&mut r, "Q", "Quit", no_args());
    add_binding(&mut r, "R", "CycleRating", one_arg(ratings_argument()));
    add_binding(&mut r, "Escape", "SwitchMode", one_arg(text_argument("mode", "tiling")));
    add_binding(&mut r, "Enter", "SwitchMode", one_arg(text_argument("mode", "single")));
    add_binding(&mut r, "OpenBracket", "ApplyFilter", one_arg(text_argument("filter", "RotateLeft")));
    add_binding(&mut r, "CloseBracket", "ApplyFilter", one_arg(text_argument("filter", "RotateRight")));
    add_binding(&mut r, "Plus", "ZoomTiling", one_arg(integer_argument("delta", 1)));
    add_binding(&mut r, "Minus", "ZoomTiling", one_arg(integer_argument("delta", -1)));
    add_binding(&mut r, "PageDown", "Navigate", two_args(text_argument("direction", "next"), integer_argument("count", 10)));
    add_binding(&mut r, "PageUp", "Navigate", two_args(text_argument("direction", "prev"), integer_argument("count", 10)));
    add_binding(&mut r, "E", "ToggleFilterSidebar", no_args());
    add_binding(&mut r, "B", "CycleBackground", no_args());
    add_binding(&mut r, "I", "ToggleHistogram", no_args());
    add_binding(&mut r, "F", "ToggleFullscreen", no_args());
    add_binding(&mut r, "Z", "ZoomSingleFit", no_args());
    add_binding(&mut r, "Num1", "ZoomSingleToOne", no_args());
    add_binding(&mut r, "N", "ToggleAnnotations", no_args());
    r
}

impl Default for Config {
    fn default() -> (c: Self)
        ensures
            c.keybindings.deep_view() == default_bindings(),
            c.general.tile_count == 9,
            c.general.cache_size == 50,
            c.general.slideshow_interval_bits == FIVE_SECONDS_BITS,
            c.general.background_color == BackgroundColor::Black,
    {
        Config { general: GeneralConfig::default(), keybindings: default_keybindings() }
    }
}

impl Config {
    /// What each key does. Of two lines for one key the later takes precedence. The first line that
    /// names no key or no action is reported.
    pub fn build_keybinding_map(&self) -> (r: Result<KeyBindingMap, ConfigError>)
        ensures
            match r {
                Ok(m) => m.wf() && all_bound(self.keybindings.deep_view()) == Ok::<
                    Seq<(KeyCombo, ActionView)>,
                    ConfigErrorView,
                >(m.actions()),
                Err(e) => all_bound(self.keybindings.deep_view()) == Err::<
                    Seq<(KeyCombo, ActionView)>,
                    ConfigErrorView,
                >(e.deep_view()),
            },
    {
        let ghost lines = self.keybindings.deep_view();
        let mut map = KeyBindingMap::empty();
        let mut i: usize = 0;
        assert(map.actions() =~= Seq::empty());
        while i < self.keybindings.len()
            invariant
                i <= self.keybindings@.len(),
                lines == self.keybindings.deep_view(),
                map.wf(),
                all_bound(lines.take(i as int)) == Ok::<
                    Seq<(KeyCombo, ActionView)>,
                    ConfigErrorView,
                >(map.actions()),
            decreases self.keybindings@.len() - i,
        {
            let kb = &self.keybindings[i];
            proof {
                assert(lines.take(i + 1).drop_last() == lines.take(i as int));
                assert(lines.take(i + 1).last() == kb.deep_view());
            }
            match parse_key(kb.key.as_str()) {
                None => {
                    let e = ConfigError::UnknownKey(kb.key.clone());
                    proof {
                        lemma_error_stays(lines, i + 1);
                    }
                    return Err(e);
                },
                Some(key) => {
                    let modifiers = parse_modifiers(kb.modifiers.as_slice());
                    match Action::from_binding(kb.action.as_str(), &kb.args) {
                        Err(e) => {
                            proof {
                                lemma_error_stays(lines, i + 1);
                            }
                            return Err(ConfigError::BadAction(kb.action.clone(), e));
                        },
                        Ok(action) => {
                            map.bind(KeyCombo { key, modifiers }, action);
                        },
                    }
                },
            }
            i += 1;
        }
        assert(lines.take(i as int) == lines);
        Ok(map)
    }
}

/// What is wrong with the first lines is wrong with all of them.
proof fn lemma_error_stays(lines: Seq<KeyBindingView>, n: int)
    requires
        0 <= n <= lines.len(),
        all_bound(lines.take(n)) is Err,
    ensures
        all_bound(lines) == all_bound(lines.take(n)),
    decreases lines.len(),
{
    if n < lines.len() {
        let rest = lines.drop_last();
        assert(rest.take(n) == lines.take(n));
        lemma_error_stays(rest, n);
    } else {
        assert(lines.take(n) == lines);
    }
}

/// The last line for a key decides what the key does.
pub proof fn later_lines_take_precedence(
    lines: Seq<KeyBindingView>,
    actions: Seq<(KeyCombo, ActionView)>,
)
    requires
        lines.len() > 0,
        all_bound(lines) == Ok::<Seq<(KeyCombo, ActionView)>, ConfigErrorView>(actions),
    ensures
        one_bound(lines.last()) is Ok,
        actions.contains(one_bound(lines.last())->Ok_0),
{
    let before = all_bound(lines.drop_last())->Ok_0;
    let (combo, action) = one_bound(lines.last())->Ok_0;
    lemma_bound_holds(before, combo, action);
}

proof fn lemma_bound_holds(actions: Seq<(KeyCombo, ActionView)>, combo: KeyCombo, action: ActionView)
    ensures
        bound(actions, combo, action).contains((combo, action)),
    decreases actions.len(),
{
    let after = bound(actions, combo, action);
    if actions.len() == 0 || actions[0].0 == combo {
        assert(after[0] == (combo, action));
    } else {
        let rest = bound(actions.drop_first(), combo, action);
        lemma_bound_holds(actions.drop_first(), combo, action);
        let i = choose|i: int| 0 <= i < rest.len() && rest[i] == (combo, action);
        assert(after[i + 1] == (combo, action));
    }
}

} // verus!

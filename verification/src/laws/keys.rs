//! Keys, and the actions that the configuration names.
use crate::binding::{
    action_named, arg_of, color_parts, count_of, direction_named, filter_named,
    filter_named_for_all, low_byte, low_signed_word, low_word, ratings_of, simple_turn, text_arg,
    texts_in, ActionView, ErrorView, ItemView, ValueView,
};
use crate::config::{
    all_bound, bound, combos_differ, default_bindings, is_bound, key_named, modifiers_named,
    names_modifier, one_bound, ConfigErrorView, Key, KeyBindingView, KeyCombo,
};
use crate::filters::{FilterView, Rgba};
use crate::text::lowercase_text;
use crate::viewer::{Direction, ModeTarget};
use vstd::prelude::*;

verus! {

/// A key is meant by its own name alone: Enter also by Return, plus also by Equals, and the
/// backtick also by Grave.
pub proof fn keys_go_by_their_own_names(name: Seq<char>)
    ensures
        key_named(name) == Some(Key::ArrowDown) ==> name == "ArrowDown"@,
        key_named(name) == Some(Key::ArrowLeft) ==> name == "ArrowLeft"@,
        key_named(name) == Some(Key::ArrowRight) ==> name == "ArrowRight"@,
        key_named(name) == Some(Key::ArrowUp) ==> name == "ArrowUp"@,
        key_named(name) == Some(Key::Escape) ==> name == "Escape"@,
        key_named(name) == Some(Key::Tab) ==> name == "Tab"@,
        key_named(name) == Some(Key::Backspace) ==> name == "Backspace"@,
        key_named(name) == Some(Key::Enter) ==> name == "Enter"@ || name == "Return"@,
        key_named(name) == Some(Key::Space) ==> name == "Space"@,
        key_named(name) == Some(Key::Insert) ==> name == "Insert"@,
        key_named(name) == Some(Key::Delete) ==> name == "Delete"@,
        key_named(name) == Some(Key::Home) ==> name == "Home"@,
        key_named(name) == Some(Key::End) ==> name == "End"@,
        key_named(name) == Some(Key::PageUp) ==> name == "PageUp"@,
        key_named(name) == Some(Key::PageDown) ==> name == "PageDown"@,
        key_named(name) == Some(Key::A) ==> name == "A"@,
        key_named(name) == Some(Key::B) ==> name == "B"@,
        key_named(name) == Some(Key::C) ==> name == "C"@,
        key_named(name) == Some(Key::D) ==> name == "D"@,
        key_named(name) == Some(Key::E) ==> name == "E"@,
        key_named(name) == Some(Key::F) ==> name == "F"@,
        key_named(name) == Some(Key::G) ==> name == "G"@,
        key_named(name) == Some(Key::H) ==> name == "H"@,
        key_named(name) == Some(Key::I) ==> name == "I"@,
        key_named(name) == Some(Key::J) ==> name == "J"@,
        key_named(name) == Some(Key::K) ==> name == "K"@,
        key_named(name) == Some(Key::L) ==> name == "L"@,
        key_named(name) == Some(Key::M) ==> name == "M"@,
        key_named(name) == Some(Key::N) ==> name == "N"@,
        key_named(name) == Some(Key::O) ==> name == "O"@,
        key_named(name) == Some(Key::P) ==> name == "P"@,
        key_named(name) == Some(Key::Q) ==> name == "Q"@,
        key_named(name) == Some(Key::R) ==> name == "R"@,
        key_named(name) == Some(Key::S) ==> name == "S"@,
        key_named(name) == Some(Key::T) ==> name == "T"@,
        key_named(name) == Some(Key::U) ==> name == "U"@,
        key_named(name) == Some(Key::V) ==> name == "V"@,
        key_named(name) == Some(Key::W) ==> name == "W"@,
        key_named(name) == Some(Key::X) ==> name == "X"@,
        key_named(name) == Some(Key::Y) ==> name == "Y"@,
        key_named(name) == Some(Key::Z) ==> name == "Z"@,
        key_named(name) == Some(Key::Num0) ==> name == "Num0"@,
        key_named(name) == Some(Key::Num1) ==> name == "Num1"@,
        key_named(name) == Some(Key::Num2) ==> name == "Num2"@,
        key_named(name) == Some(Key::Num3) ==> name == "Num3"@,
        key_named(name) == Some(Key::Num4) ==> name == "Num4"@,
        key_named(name) == Some(Key::Num5) ==> name == "Num5"@,
        key_named(name) == Some(Key::Num6) ==> name == "Num6"@,
        key_named(name) == Some(Key::Num7) ==> name == "Num7"@,
        key_named(name) == Some(Key::Num8) ==> name == "Num8"@,
        key_named(name) == Some(Key::Num9) ==> name == "Num9"@,
        key_named(name) == Some(Key::F1) ==> name == "F1"@,
        key_named(name) == Some(Key::F2) ==> name == "F2"@,
        key_named(name) == Some(Key::F3) ==> name == "F3"@,
        key_named(name) == Some(Key::F4) ==> name == "F4"@,
        key_named(name) == Some(Key::F5) ==> name == "F5"@,
        key_named(name) == Some(Key::F6) ==> name == "F6"@,
        key_named(name) == Some(Key::F7) ==> name == "F7"@,
        key_named(name) == Some(Key::F8) ==> name == "F8"@,
        key_named(name) == Some(Key::F9) ==> name == "F9"@,
        key_named(name) == Some(Key::F10) ==> name == "F10"@,
        key_named(name) == Some(Key::F11) ==> name == "F11"@,
        key_named(name) == Some(Key::F12) ==> name == "F12"@,
        key_named(name) == Some(Key::Minus) ==> name == "Minus"@,
        key_named(name) == Some(Key::Plus) ==> name == "Plus"@ || name == "Equals"@,
        key_named(name) == Some(Key::Comma) ==> name == "Comma"@,
        key_named(name) == Some(Key::Period) ==> name == "Period"@,
        key_named(name) == Some(Key::Semicolon) ==> name == "Semicolon"@,
        key_named(name) == Some(Key::Colon) ==> name == "Colon"@,
        key_named(name) == Some(Key::Slash) ==> name == "Slash"@,
        key_named(name) == Some(Key::Backslash) ==> name == "Backslash"@,
        key_named(name) == Some(Key::OpenBracket) ==> name == "OpenBracket"@,
        key_named(name) == Some(Key::CloseBracket) ==> name == "CloseBracket"@,
        key_named(name) == Some(Key::Backtick) ==> name == "Backtick"@ || name == "Grave"@,
        key_named(name) != Some(Key::Other),
{
}

/// Every name of a key is known, and no other.
pub proof fn known_names_mean_keys(name: Seq<char>)
    ensures
        key_named(name) is Some <==> {
            ||| name == "ArrowDown"@
            ||| name == "ArrowLeft"@
            ||| name == "ArrowRight"@
            ||| name == "ArrowUp"@
            ||| name == "Escape"@
            ||| name == "Tab"@
            ||| name == "Backspace"@
            ||| name == "Enter"@
            ||| name == "Return"@
            ||| name == "Space"@
            ||| name == "Insert"@
            ||| name == "Delete"@
            ||| name == "Home"@
            ||| name == "End"@
            ||| name == "PageUp"@
            ||| name == "PageDown"@
            ||| name == "A"@
            ||| name == "B"@
            ||| name == "C"@
            ||| name == "D"@
            ||| name == "E"@
            ||| name == "F"@
            ||| name == "G"@
            ||| name == "H"@
            ||| name == "I"@
            ||| name == "J"@
            ||| name == "K"@
            ||| name == "L"@
            ||| name == "M"@
            ||| name == "N"@
            ||| name == "O"@
            ||| name == "P"@
            ||| name == "Q"@
            ||| name == "R"@
            ||| name == "S"@
            ||| name == "T"@
            ||| name == "U"@
            ||| name == "V"@
            ||| name == "W"@
            ||| name == "X"@
            ||| name == "Y"@
            ||| name == "Z"@
            ||| name == "Num0"@
            ||| name == "Num1"@
            ||| name == "Num2"@
            ||| name == "Num3"@
            ||| name == "Num4"@
            ||| name == "Num5"@
            ||| name == "Num6"@
            ||| name == "Num7"@
            ||| name == "Num8"@
            ||| name == "Num9"@
            ||| name == "F1"@
            ||| name == "F2"@
            ||| name == "F3"@
            ||| name == "F4"@
            ||| name == "F5"@
            ||| name == "F6"@
            ||| name == "F7"@
            ||| name == "F8"@
            ||| name == "F9"@
            ||| name == "F10"@
            ||| name == "F11"@
            ||| name == "F12"@
            ||| name == "Minus"@
            ||| name == "Plus"@
            ||| name == "Equals"@
            ||| name == "Comma"@
            ||| name == "Period"@
            ||| name == "Semicolon"@
            ||| name == "Colon"@
            ||| name == "Slash"@
            ||| name == "Backslash"@
            ||| name == "OpenBracket"@
            ||| name == "CloseBracket"@
            ||| name == "Backtick"@
            ||| name == "Grave"@
        },
{
}

/// A name among the modifiers adds the key that it stands for, in whatever case it is written, and
/// changes no other. Without names no key is to be held down.
pub proof fn modifiers_add_up(names: Seq<Seq<char>>, n: Seq<char>)
    ensures
        ({
            let before = modifiers_named(names);
            let after = modifiers_named(names.push(n));
            let meant = lowercase_text(n);
            &&& after.ctrl == (before.ctrl || meant == "ctrl"@ || meant == "control"@)
            &&& after.shift == (before.shift || meant == "shift"@)
            &&& after.alt == (before.alt || meant == "alt"@)
        }),
        !modifiers_named(Seq::empty()).ctrl,
        !modifiers_named(Seq::empty()).shift,
        !modifiers_named(Seq::empty()).alt,
{
    lemma_one_name(names, n, "ctrl"@);
    lemma_one_name(names, n, "control"@);
    lemma_one_name(names, n, "shift"@);
    lemma_one_name(names, n, "alt"@);
}

proof fn lemma_one_name(names: Seq<Seq<char>>, n: Seq<char>, modifier: Seq<char>)
    ensures
        names_modifier(names.push(n), modifier) == (names_modifier(names, modifier)
            || lowercase_text(n) == modifier),
{
    let more = names.push(n);
    if names_modifier(names, modifier) {
        let i = choose|i: int| 0 <= i < names.len() && lowercase_text(#[trigger] names[i]) == modifier;
        assert(more[i] == names[i]);
    }
    if lowercase_text(n) == modifier {
        assert(more[names.len() as int] == n);
    }
    if names_modifier(more, modifier) {
        let i = choose|i: int| 0 <= i < more.len() && lowercase_text(#[trigger] more[i]) == modifier;
        if i < names.len() {
            assert(names[i] == more[i]);
        }
    }
}

/// Binding a key gives it its action, and leaves every other key its own. A key that was bound
/// loses its former action.
pub proof fn binding_concerns_one_key(
    actions: Seq<(KeyCombo, ActionView)>,
    combo: KeyCombo,
    action: ActionView,
    other: KeyCombo,
    a: ActionView,
)
    requires
        combos_differ(actions),
    ensures
        bound(actions, combo, action).contains((combo, action)),
        bound(actions, combo, action).contains((combo, a)) ==> a == action,
        other != combo ==> (bound(actions, combo, action).contains((other, a)) <==> actions.contains(
            (other, a),
        )),
        combos_differ(bound(actions, combo, action)),
    decreases actions.len(),
{
    let after = bound(actions, combo, action);
    if actions.len() == 0 {
        assert(after[0] == (combo, action));
        assert(after.len() == 1);
    } else if actions[0].0 == combo {
        assert(after[0] == (combo, action));
        assert forall|i: int, j: int| 0 <= i < j < after.len() implies (#[trigger] after[i]).0 != (
        #[trigger] after[j]).0 by {
            assert(actions[i].0 != actions[j].0);
        }
        if after.contains((combo, a)) {
            let k = choose|k: int| 0 <= k < after.len() && after[k] == (combo, a);
            if k > 0 {
                assert(after[0].0 != after[k].0);
            }
        }
        if actions.contains((other, a)) {
            let k = choose|k: int| 0 <= k < actions.len() && actions[k] == (other, a);
            if other != combo {
                assert(after[k] == (other, a));
            }
        }
        if other != combo && after.contains((other, a)) {
            let k = choose|k: int| 0 <= k < after.len() && after[k] == (other, a);
            assert(k > 0);
            assert(actions[k] == (other, a));
        }
    } else {
        let rest = actions.drop_first();
        assert forall|i: int, j: int| 0 <= i < j < rest.len() implies (#[trigger] rest[i]).0 != (
        #[trigger] rest[j]).0 by {
            assert(actions[i + 1].0 != actions[j + 1].0);
        }
        let behind = bound(rest, combo, action);
        binding_concerns_one_key(rest, combo, action, other, a);
        assert(after == seq![actions[0]] + behind);
        let k = choose|k: int| 0 <= k < behind.len() && behind[k] == (combo, action);
        assert(after[k + 1] == (combo, action));
        if after.contains((combo, a)) {
            let k = choose|k: int| 0 <= k < after.len() && after[k] == (combo, a);
            assert(k > 0);
            assert(behind[k - 1] == (combo, a));
        }
        if other != combo {
            if actions.contains((other, a)) {
                let k = choose|k: int| 0 <= k < actions.len() && actions[k] == (other, a);
                if k > 0 {
                    assert(rest[k - 1] == (other, a));
                    let j = choose|j: int| 0 <= j < behind.len() && behind[j] == (other, a);
                    assert(after[j + 1] == (other, a));
                } else {
                    assert(after[0] == (other, a));
                }
            }
            if after.contains((other, a)) {
                let k = choose|k: int| 0 <= k < after.len() && after[k] == (other, a);
                if k > 0 {
                    assert(behind[k - 1] == (other, a));
                    let j = choose|j: int| 0 <= j < rest.len() && rest[j] == (other, a);
                    assert(actions[j + 1] == (other, a));
                } else {
                    assert(actions[0] == (other, a));
                }
            }
        }
        assert forall|i: int, j: int| 0 <= i < j < after.len() implies (#[trigger] after[i]).0 != (
        #[trigger] after[j]).0 by {
            if i > 0 {
                assert(behind[i - 1].0 != behind[j - 1].0);
            } else {
                let b = behind[j - 1];
                assert(behind.contains(b));
                if b.0 != combo {
                    binding_concerns_one_key(rest, combo, action, b.0, b.1);
                    let k = choose|k: int| 0 <= k < rest.len() && rest[k] == b;
                    assert(actions[k + 1] == b);
                    assert(actions[0].0 != actions[k + 1].0);
                }
            }
        }
    }
}

/// A line of the configuration binds the key that it names, with the keys that are to be held down,
/// to the action that it names; a line that names no key or no action is reported.
pub proof fn lines_bind_what_they_name(b: KeyBindingView)
    ensures
        key_named(b.key) is None ==> one_bound(b) == Err::<(KeyCombo, ActionView), ConfigErrorView>(
            ConfigErrorView::UnknownKey(b.key),
        ),
        key_named(b.key) is Some && action_named(b.action, b.args) is Err ==> one_bound(b) == Err::<
            (KeyCombo, ActionView),
            ConfigErrorView,
        >(ConfigErrorView::BadAction(b.action, action_named(b.action, b.args)->Err_0)),
        key_named(b.key) is Some && action_named(b.action, b.args) is Ok ==> (
        one_bound(b) matches Ok(line) && line.0.key == key_named(b.key)->0 && line.0.modifiers
            == modifiers_named(b.modifiers) && line.1 == action_named(b.action, b.args)->Ok_0),
{
}

/// The first bad line is reported, and nothing is bound then; good lines are bound one after the
/// other.
pub proof fn bad_lines_are_reported(lines: Seq<KeyBindingView>, line: KeyBindingView)
    ensures
        all_bound(Seq::empty()) == Ok::<Seq<(KeyCombo, ActionView)>, ConfigErrorView>(Seq::empty()),
        all_bound(lines) is Err ==> all_bound(lines.push(line)) == all_bound(lines),
        all_bound(lines) is Ok && one_bound(line) is Err ==> (all_bound(lines.push(line)) matches Err(
            e,
        ) && e == one_bound(line)->Err_0),
        all_bound(lines) is Ok && one_bound(line) is Ok ==> (all_bound(lines.push(line)) matches Ok(
            now,
        ) && now == bound(
            all_bound(lines)->Ok_0,
            one_bound(line)->Ok_0.0,
            one_bound(line)->Ok_0.1,
        )),
{
    assert(lines.push(line).drop_last() == lines);
}

/// An argument is the first of its name.
pub proof fn the_first_argument_counts(
    args: Seq<(Seq<char>, ValueView)>,
    name: Seq<char>,
    value: ValueView,
    other: Seq<char>,
)
    ensures
        arg_of(seq![(name, value)] + args, name) == Some(value),
        other != name ==> arg_of(seq![(name, value)] + args, other) == arg_of(args, other),
        arg_of(Seq::empty(), name) is None,
        text_arg(args, name) matches Some(t) ==> arg_of(args, name) == Some(ValueView::Text(t)),
{
    assert((seq![(name, value)] + args).drop_first() == args);
}

/// The next photo is asked for by `next`, the one before by `prev`; other words are reported, and
/// so is none.
pub proof fn directions_go_by_their_names(
    args: Seq<(Seq<char>, ValueView)>,
    message: Seq<char>,
)
    ensures
        ({
            let d = direction_named(args, message);
            let word = text_arg(args, "direction"@);
            &&& word == Some("next"@) ==> d == Ok::<Direction, ErrorView>(Direction::Next)
            &&& word == Some("prev"@) ==> d == Ok::<Direction, ErrorView>(Direction::Prev)
            &&& word is None ==> d == Err::<Direction, ErrorView>(ErrorView::Requires(message))
            &&& (word matches Some(w) && w != "next"@ && w != "prev"@) ==> d == Err::<
                Direction,
                ErrorView,
            >(ErrorView::UnknownDirection(word->0))
        }),
{
    reveal_strlit("next");
    reveal_strlit("prev");
    assert("next"@[0] != "prev"@[0]);
}

/// At least one photo is moved by, and as many as asked for.
pub proof fn counts_are_at_least_one(args: Seq<(Seq<char>, ValueView)>, n: i64)
    requires
        arg_of(args, "count"@) == Some(ValueView::Integer(n)),
        n <= usize::MAX,
    ensures
        n >= 1 ==> count_of(args) == n,
        n < 1 ==> count_of(args) == 1,
{
}

/// A number that is too large for its place is taken modulo the numbers that fit there; one that
/// fits is taken as it is.
pub proof fn large_numbers_wrap(n: i64)
    ensures
        (n - low_byte(n)) % 256 == 0,
        0 <= n <= 255 ==> low_byte(n) == n,
        (n - low_word(n)) % 0x1_0000_0000 == 0,
        0 <= n <= u32::MAX ==> low_word(n) == n,
        (n - low_signed_word(n)) % 0x1_0000_0000 == 0,
        i32::MIN <= n <= i32::MAX ==> low_signed_word(n) == n,
{
}

/// Ratings are whole numbers, taken in order; a list that holds anything else gives none.
pub proof fn ratings_are_numbers(items: Seq<ItemView>, i: int)
    requires
        0 <= i < items.len(),
    ensures
        ratings_of(items) is Some <==> forall|k: int|
            0 <= k < items.len() ==> (#[trigger] items[k]) is Integer,
        ratings_of(items) matches Some(r) ==> r.len() == items.len() && (items[i] matches ItemView::Integer(
            n,
        ) && (n - r[i]) % 256 == 0),
        color_parts(items).len() == items.len(),
        items[i] matches ItemView::Integer(n) ==> (n - color_parts(items)[i]) % 256 == 0,
        !(items[i] is Integer) ==> color_parts(items)[i] == 0,
{
    if ratings_of(items) is Some {
        assert(items[i] is Integer);
    }
}

/// The arguments of a script are the texts of its list, in order.
pub proof fn texts_are_kept_in_order(items: Seq<ItemView>, item: ItemView)
    ensures
        texts_in(Seq::empty()).len() == 0,
        item matches ItemView::Text(t) ==> texts_in(items.push(item)) == texts_in(items).push(t),
        !(item is Text) ==> texts_in(items.push(item)) == texts_in(items),
{
    assert(items.push(item).drop_last() == items);
}

/// Every action is meant by its own name alone, with the arguments that it needs.
#[verifier::spinoff_prover]
pub proof fn actions_go_by_their_own_names(name: Seq<char>, args: Seq<(Seq<char>, ValueView)>)
    ensures
        action_named(name, args) matches Ok(a) ==> match a {
            ActionView::Navigate { direction, count } => name == "Navigate"@ && direction_named(
                args,
                "Navigate requires args.direction"@,
            ) == Ok::<Direction, ErrorView>(direction) && count == count_of(args),
            ActionView::SwitchMode { mode } => name == "SwitchMode"@ && text_arg(args, "mode"@)
                == Some(
                match mode {
                    ModeTarget::Tiling => "tiling"@,
                    ModeTarget::Single => "single"@,
                    ModeTarget::Toggle => "toggle"@,
                },
            ),
            ActionView::ToggleSlideshow => name == "ToggleSlideshow"@,
            ActionView::ToggleFilterSidebar => name == "ToggleFilterSidebar"@,
            ActionView::Quit => name == "Quit"@,
            ActionView::CycleRating { values } => name == "CycleRating"@ && (arg_of(
                args,
                "values"@,
            ) matches Some(ValueView::List(items)) && ratings_of(items) == Some(values)),
            ActionView::RunScript { path, args: given, pass_filters_stdin } => name == "RunScript"@
                && text_arg(args, "path"@) == Some(path) && given == match arg_of(args, "args"@) {
                Some(ValueView::List(items)) => texts_in(items),
                _ => seq!["%p"@],
            } && pass_filters_stdin == (arg_of(args, "pass_filters_stdin"@) == Some(
                ValueView::Boolean(true),
            )),
            ActionView::ApplyFilter { filter } => name == "ApplyFilter"@ && (text_arg(
                args,
                "filter"@,
            ) matches Some(kind) && filter_named(kind, args) == Ok::<FilterView, ErrorView>(filter)),
            ActionView::ZoomTiling { delta } => name == "ZoomTiling"@ && (arg_of(
                args,
                "delta"@,
            ) matches Some(ValueView::Integer(n)) && delta == low_signed_word(n)),
            ActionView::CycleBackground => name == "CycleBackground"@,
            ActionView::ToggleHistogram => name == "ToggleHistogram"@,
            ActionView::NavigateTilingRow { direction } => name == "NavigateTilingRow"@
                && direction_named(args, "NavigateTilingRow requires args.direction"@) == Ok::<
                Direction,
                ErrorView,
            >(direction),
            ActionView::ZoomSingle { delta } => name == "ZoomSingle"@ && arg_of(args, "delta"@)
                == Some(ValueView::Float(delta)),
            ActionView::ZoomSingleFit => name == "ZoomSingleFit"@,
            ActionView::ZoomSingleToOne => name == "ZoomSingleToOne"@,
            ActionView::ToggleFullscreen => name == "ToggleFullscreen"@,
            ActionView::ApplyFilterToAll { filter } => name == "ApplyFilterToAll"@ && (text_arg(
                args,
                "filter"@,
            ) matches Some(kind) && filter_named_for_all(kind, args) == Ok::<FilterView, ErrorView>(
                filter,
            )),
            ActionView::ToggleAnnotations => name == "ToggleAnnotations"@,
            ActionView::FindSimilar { .. } => false,
            ActionView::FindSimilarDiverse { .. } => false,
        },
{
}

/// The actions that need no arguments are always understood.
#[verifier::spinoff_prover]
pub proof fn plain_actions_are_understood(args: Seq<(Seq<char>, ValueView)>)
    ensures
        action_named("ToggleSlideshow"@, args) == Ok::<ActionView, ErrorView>(
            ActionView::ToggleSlideshow,
        ),
        action_named("ToggleFilterSidebar"@, args) == Ok::<ActionView, ErrorView>(
            ActionView::ToggleFilterSidebar,
        ),
        action_named("Quit"@, args) == Ok::<ActionView, ErrorView>(ActionView::Quit),
        action_named("CycleBackground"@, args) == Ok::<ActionView, ErrorView>(
            ActionView::CycleBackground,
        ),
        action_named("ToggleHistogram"@, args) == Ok::<ActionView, ErrorView>(
            ActionView::ToggleHistogram,
        ),
        action_named("ZoomSingleFit"@, args) == Ok::<ActionView, ErrorView>(
            ActionView::ZoomSingleFit,
        ),
        action_named("ZoomSingleToOne"@, args) == Ok::<ActionView, ErrorView>(
            ActionView::ZoomSingleToOne,
        ),
        action_named("ToggleFullscreen"@, args) == Ok::<ActionView, ErrorView>(
            ActionView::ToggleFullscreen,
        ),
        action_named("ToggleAnnotations"@, args) == Ok::<ActionView, ErrorView>(
            ActionView::ToggleAnnotations,
        ),
{
    lemma_action_names();
}

/// The names of actions are told apart by their lengths and first letters.
#[verifier::spinoff_prover]
proof fn lemma_action_names()
    ensures
        "Navigate"@.len() == 8 && "Navigate"@[0] == 'N',
        "SwitchMode"@.len() == 10 && "SwitchMode"@[0] == 'S',
        "ToggleSlideshow"@.len() == 15 && "ToggleSlideshow"@[6] == 'S',
        "ToggleFilterSidebar"@.len() == 19,
        "Quit"@.len() == 4,
        "CycleRating"@.len() == 11 && "CycleRating"@[0] == 'C',
        "RunScript"@.len() == 9,
        "ApplyFilter"@.len() == 11 && "ApplyFilter"@[0] == 'A',
        "ZoomTiling"@.len() == 10 && "ZoomTiling"@[0] == 'Z' && "ZoomTiling"@[4] == 'T',
        "CycleBackground"@.len() == 15 && "CycleBackground"@[6] == 'a',
        "ToggleHistogram"@.len() == 15 && "ToggleHistogram"@[6] == 'H',
        "ZoomSingle"@.len() == 10 && "ZoomSingle"@[0] == 'Z' && "ZoomSingle"@[4] == 'S',
        "ZoomSingleFit"@.len() == 13,
        "ZoomSingleToOne"@.len() == 15 && "ZoomSingleToOne"@[6] == 'n',
        "ToggleFullscreen"@.len() == 16 && "ToggleFullscreen"@[0] == 'T',
        "ApplyFilterToAll"@.len() == 16 && "ApplyFilterToAll"@[0] == 'A',
        "NavigateTilingRow"@.len() == 17 && "NavigateTilingRow"@[0] == 'N',
        "ToggleAnnotations"@.len() == 17 && "ToggleAnnotations"@[0] == 'T',
{
    reveal_strlit("Navigate");
    reveal_strlit("SwitchMode");
    reveal_strlit("ToggleSlideshow");
    reveal_strlit("ToggleFilterSidebar");
    reveal_strlit("Quit");
    reveal_strlit("CycleRating");
    reveal_strlit("RunScript");
    reveal_strlit("ApplyFilter");
    reveal_strlit("ZoomTiling");
    reveal_strlit("CycleBackground");
    reveal_strlit("ToggleHistogram");
    reveal_strlit("ZoomSingle");
    reveal_strlit("ZoomSingleFit");
    reveal_strlit("ZoomSingleToOne");
    reveal_strlit("ToggleFullscreen");
    reveal_strlit("ApplyFilterToAll");
    reveal_strlit("NavigateTilingRow");
    reveal_strlit("ToggleAnnotations");
}

/// An action whose argument is there is understood; one whose argument is missing is not.
#[verifier::spinoff_prover]
pub proof fn actions_take_their_arguments(args: Seq<(Seq<char>, ValueView)>)
    ensures
        direction_named(args, "Navigate requires args.direction"@) is Ok <==> action_named(
            "Navigate"@,
            args,
        ) is Ok,
        direction_named(args, "NavigateTilingRow requires args.direction"@) is Ok <==> action_named(
            "NavigateTilingRow"@,
            args,
        ) is Ok,
        text_arg(args, "path"@) is Some <==> action_named("RunScript"@, args) is Ok,
        (arg_of(args, "delta"@) matches Some(v) && v is Integer) <==> action_named(
            "ZoomTiling"@,
            args,
        ) is Ok,
        (arg_of(args, "delta"@) matches Some(v) && v is Float) <==> action_named(
            "ZoomSingle"@,
            args,
        ) is Ok,
        (arg_of(args, "values"@) matches Some(ValueView::List(l)) && ratings_of(l) is Some)
            <==> action_named("CycleRating"@, args) is Ok,
        (text_arg(args, "filter"@) matches Some(k) && filter_named(k, args) is Ok) <==> action_named(
            "ApplyFilter"@,
            args,
        ) is Ok,
        (text_arg(args, "filter"@) matches Some(k) && filter_named_for_all(k, args) is Ok)
            <==> action_named("ApplyFilterToAll"@, args) is Ok,
        (text_arg(args, "mode"@) matches Some(m) && (m == "tiling"@ || m == "single"@ || m
            == "toggle"@)) <==> action_named("SwitchMode"@, args) is Ok,
{
    lemma_action_names();
}

/// Every filter is meant by its own name alone, with the settings that it is given.
#[verifier::spinoff_prover]
pub proof fn filters_go_by_their_own_names(kind: Seq<char>, args: Seq<(Seq<char>, ValueView)>)
    ensures
        filter_named(kind, args) matches Ok(f) ==> match f {
            FilterView::Rotate { degrees, center, fill } => center is None && fill is Transparent && {
                ||| kind == "RotateRight"@ && degrees == 90
                ||| kind == "RotateLeft"@ && degrees == 270
                ||| kind == "Rotate180"@ && degrees == 180
                ||| kind == "Rotate"@ && (arg_of(args, "degrees"@) matches Some(
                    ValueView::Integer(n),
                ) && degrees == low_signed_word(n))
            },
            FilterView::FlipHorizontal => kind == "FlipHorizontal"@,
            FilterView::FlipVertical => kind == "FlipVertical"@,
            FilterView::Exposure { stops } => kind == "Exposure"@ && arg_of(args, "stops"@) == Some(
                ValueView::Float(stops),
            ),
            FilterView::Contrast { factor } => kind == "Contrast"@ && arg_of(args, "factor"@)
                == Some(ValueView::Float(factor)),
            FilterView::Scale { factor } => kind == "Scale"@ && arg_of(args, "factor"@) == Some(
                ValueView::Float(factor),
            ),
            FilterView::Crop { x, y, width, height } => kind == "Crop"@ && arg_of(args, "width"@)
                == Some(ValueView::Float(width)) && arg_of(args, "height"@) == Some(
                ValueView::Float(height),
            ) && x == match arg_of(args, "x"@) {
                Some(ValueView::Float(v)) => v,
                _ => crate::scalar::Scalar { bits: 0 },
            } && y == match arg_of(args, "y"@) {
                Some(ValueView::Float(v)) => v,
                _ => crate::scalar::Scalar { bits: 0 },
            },
            FilterView::CapSize { max_px } => kind == "CapSize"@ && (arg_of(
                args,
                "max_px"@,
            ) matches Some(ValueView::Integer(n)) && max_px == low_word(n)),
            FilterView::Border { thickness, color } => kind == "Border"@ && (arg_of(
                args,
                "thickness"@,
            ) matches Some(ValueView::Integer(n)) && thickness == low_word(n)) && (arg_of(
                args,
                "color"@,
            ) matches Some(ValueView::List(items)) && items.len() == 4 && color == (Rgba {
                r: color_parts(items)[0],
                g: color_parts(items)[1],
                b: color_parts(items)[2],
                a: color_parts(items)[3],
            })),
            FilterView::Sharpen { amount } => kind == "Sharpen"@ && arg_of(args, "amount"@) == Some(
                ValueView::Float(amount),
            ),
            FilterView::MicroContrast { amount } => kind == "MicroContrast"@ && arg_of(
                args,
                "amount"@,
            ) == Some(ValueView::Float(amount)),
            FilterView::Curves { r, g, b } => kind == "Curves"@ && r.len() + g.len() + b.len() == 0,
            FilterView::Preset { .. } => false,
        },
        filter_named_for_all(kind, args) matches Ok(f) ==> match f {
            FilterView::Rotate { degrees, center, fill } => center is None && fill is Transparent && {
                ||| kind == "RotateRight"@ && degrees == 90
                ||| kind == "RotateLeft"@ && degrees == 270
                ||| kind == "Rotate180"@ && degrees == 180
            },
            FilterView::FlipHorizontal => kind == "FlipHorizontal"@,
            FilterView::FlipVertical => kind == "FlipVertical"@,
            FilterView::Sharpen { amount } => kind == "Sharpen"@ && amount == match arg_of(
                args,
                "amount"@,
            ) {
                Some(ValueView::Float(v)) => v,
                _ => crate::scalar::Scalar { bits: 0x3f80_0000 },
            },
            FilterView::MicroContrast { amount } => kind == "MicroContrast"@ && amount == match arg_of(
                args,
                "amount"@,
            ) {
                Some(ValueView::Float(v)) => v,
                _ => crate::scalar::Scalar { bits: 0x3f00_0000 },
            },
            _ => false,
        },
{
}

/// A turn to the left undoes a turn to the right, and two half turns undo each other.
pub proof fn named_turns_are_opposite(args: Seq<(Seq<char>, ValueView)>)
    ensures
        (simple_turn(90)->degrees + simple_turn(270)->degrees) % 360 == 0,
        filter_named("RotateRight"@, args) == Ok::<FilterView, ErrorView>(simple_turn(90)),
        filter_named_for_all("RotateRight"@, args) == Ok::<FilterView, ErrorView>(simple_turn(90)),
        filter_named("RotateLeft"@, args) == Ok::<FilterView, ErrorView>(simple_turn(270)),
        filter_named_for_all("RotateLeft"@, args) == Ok::<FilterView, ErrorView>(simple_turn(270)),
        filter_named("Rotate180"@, args) == Ok::<FilterView, ErrorView>(simple_turn(180)),
        filter_named_for_all("Rotate180"@, args) == Ok::<FilterView, ErrorView>(simple_turn(180)),
{
    reveal_strlit("RotateRight");
    reveal_strlit("RotateLeft");
    reveal_strlit("Rotate180");
    assert("RotateRight"@.len() == 11);
    assert("RotateLeft"@.len() == 10);
    assert("Rotate180"@.len() == 9);
}

/// The keys that do something at first: the arrows go to the neighbours and to the rows above and
/// below, and the letters `L`, `H`, `J` and `K` do as they do; plus and minus zoom by one step in
/// opposite directions; page keys go on and back by ten.
pub proof fn default_keys_belong_together()
    ensures
        ({
            let d = default_bindings();
            &&& d.len() == 27
            &&& d[0].key == "ArrowRight"@ && d[0].action == "Navigate"@ && text_arg(
                d[0].args,
                "direction"@,
            ) == Some("next"@)
            &&& d[1].key == "ArrowLeft"@ && d[1].action == "Navigate"@ && text_arg(
                d[1].args,
                "direction"@,
            ) == Some("prev"@)
            &&& d[2].key == "ArrowDown"@ && d[2].action == "NavigateTilingRow"@ && text_arg(
                d[2].args,
                "direction"@,
            ) == Some("next"@)
            &&& d[3].key == "ArrowUp"@ && d[3].action == "NavigateTilingRow"@ && text_arg(
                d[3].args,
                "direction"@,
            ) == Some("prev"@)
            &&& d[4].key == "L"@ && d[4].action == d[0].action && d[4].args == d[0].args
            &&& d[5].key == "H"@ && d[5].action == d[1].action && d[5].args == d[1].args
            &&& d[6].key == "J"@ && d[6].action == d[2].action && d[6].args == d[2].args
            &&& d[7].key == "K"@ && d[7].action == d[3].action && d[7].args == d[3].args
            &&& d[16].key == "Plus"@ && d[17].key == "Minus"@ && d[16].action == "ZoomTiling"@
                && d[17].action == "ZoomTiling"@ && arg_of(d[16].args, "delta"@) == Some(
                ValueView::Integer(1),
            ) && arg_of(d[17].args, "delta"@) == Some(ValueView::Integer((-1) as i64))
            &&& d[18].key == "PageDown"@ && d[18].action == d[0].action && d[18].args[0]
                == d[0].args[0] && d[18].args[1] == ("count"@, ValueView::Integer(10))
            &&& d[19].key == "PageUp"@ && d[19].action == d[1].action && d[19].args[0]
                == d[1].args[0] && d[19].args[1] == ("count"@, ValueView::Integer(10))
            &&& forall|i: int| 0 <= i < d.len() ==> (#[trigger] d[i]).modifiers.len() == 0
        }),
{
}

/// The names of filters are told apart by their lengths and letters.
#[verifier::spinoff_prover]
proof fn lemma_filter_names()
    ensures
        "RotateRight"@.len() == 11,
        "RotateLeft"@.len() == 10,
        "Rotate180"@.len() == 9,
        "Rotate"@.len() == 6 && "Rotate"@[0] == 'R',
        "FlipHorizontal"@.len() == 14,
        "FlipVertical"@.len() == 12,
        "Exposure"@.len() == 8 && "Exposure"@[0] == 'E',
        "Contrast"@.len() == 8 && "Contrast"@[0] == 'C',
        "Scale"@.len() == 5,
        "Crop"@.len() == 4,
        "CapSize"@.len() == 7 && "CapSize"@[0] == 'C',
        "Border"@.len() == 6 && "Border"@[0] == 'B',
        "Sharpen"@.len() == 7 && "Sharpen"@[0] == 'S',
        "MicroContrast"@.len() == 13,
        "Curves"@.len() == 6 && "Curves"@[0] == 'C',
{
    reveal_strlit("RotateRight");
    reveal_strlit("RotateLeft");
    reveal_strlit("Rotate180");
    reveal_strlit("Rotate");
    reveal_strlit("FlipHorizontal");
    reveal_strlit("FlipVertical");
    reveal_strlit("Exposure");
    reveal_strlit("Contrast");
    reveal_strlit("Scale");
    reveal_strlit("Crop");
    reveal_strlit("CapSize");
    reveal_strlit("Border");
    reveal_strlit("Sharpen");
    reveal_strlit("MicroContrast");
    reveal_strlit("Curves");
}

/// A filter whose settings are there is understood; one whose settings are missing is not.
#[verifier::spinoff_prover]
pub proof fn filters_take_their_settings(args: Seq<(Seq<char>, ValueView)>)
    ensures
        filter_named("FlipHorizontal"@, args) == Ok::<FilterView, ErrorView>(
            FilterView::FlipHorizontal,
        ),
        filter_named("FlipVertical"@, args) == Ok::<FilterView, ErrorView>(FilterView::FlipVertical),
        filter_named("Curves"@, args) is Ok,
        (arg_of(args, "degrees"@) matches Some(v) && v is Integer) <==> filter_named(
            "Rotate"@,
            args,
        ) is Ok,
        (arg_of(args, "stops"@) matches Some(v) && v is Float) <==> filter_named("Exposure"@, args)
            is Ok,
        (arg_of(args, "factor"@) matches Some(v) && v is Float) <==> filter_named("Contrast"@, args)
            is Ok,
        (arg_of(args, "factor"@) matches Some(v) && v is Float) <==> filter_named("Scale"@, args)
            is Ok,
        (arg_of(args, "max_px"@) matches Some(v) && v is Integer) <==> filter_named("CapSize"@, args)
            is Ok,
        (arg_of(args, "amount"@) matches Some(v) && v is Float) <==> filter_named("Sharpen"@, args)
            is Ok,
        (arg_of(args, "amount"@) matches Some(v) && v is Float) <==> filter_named(
            "MicroContrast"@,
            args,
        ) is Ok,
        (arg_of(args, "width"@) matches Some(v) && v is Float) && (arg_of(
            args,
            "height"@,
        ) matches Some(u) && u is Float) <==> filter_named("Crop"@, args) is Ok,
        (arg_of(args, "thickness"@) matches Some(v) && v is Integer) && (arg_of(
            args,
            "color"@,
        ) matches Some(ValueView::List(l)) && l.len() == 4) <==> filter_named("Border"@, args) is Ok,
        filter_named_for_all("FlipHorizontal"@, args) is Ok,
        filter_named_for_all("FlipVertical"@, args) is Ok,
        filter_named_for_all("Sharpen"@, args) is Ok,
        filter_named_for_all("MicroContrast"@, args) is Ok,
{
    lemma_filter_names();
}

/// A key is bound when there is an action for it.
pub proof fn bound_keys_have_actions(
    actions: Seq<(KeyCombo, ActionView)>,
    combo: KeyCombo,
    action: ActionView,
)
    ensures
        actions.contains((combo, action)) ==> is_bound(actions, combo),
        is_bound(actions, combo) ==> exists|i: int|
            0 <= i < actions.len() && #[trigger] actions[i] == (combo, actions[i].1),
        !is_bound(Seq::empty(), combo),
{
    if actions.contains((combo, action)) {
        let i = choose|i: int| 0 <= i < actions.len() && actions[i] == (combo, action);
        assert(actions[i].0 == combo);
    }
    if is_bound(actions, combo) {
        let i = choose|i: int| 0 <= i < actions.len() && (#[trigger] actions[i]).0 == combo;
        assert(actions[i] == (combo, actions[i].1));
    }
}

} // verus!

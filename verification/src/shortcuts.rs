//! Keyboard shortcut bindings: capturing a pressed key as a binding string,
//! and matching a key press against a stored binding.

use vstd::prelude::*;

use crate::message::{AdjacentDirection, Message, PlaybackIntent, PlaybackMessage, SettingsMessage};
use crate::text::{
    chars_eq, chars_eq_ignore_ascii_case, chars_of, eq_ignore_ascii_case, push_all, push_str_chars,
    str_is, string_of, trim, trim_chars, ascii_lower, is_unicode_whitespace, trim_start, trim_end,
};

verus! {

/// A logical key. `Named` carries the key's name as the windowing toolkit spells it.
#[derive(Clone, Debug)]
pub enum Key {
    Named(String),
    Character(String),
    Unidentified,
}

/// The modifier keys held during a key press.
#[derive(Clone, Copy, Debug, PartialEq, Eq, Structural)]
pub struct Modifiers {
    pub shift: bool,
    pub control: bool,
    pub alt: bool,
    pub logo: bool,
}

impl Modifiers {
    pub fn none() -> (out: Modifiers)
        ensures
            out == no_modifiers(),
    {
        Modifiers { shift: false, control: false, alt: false, logo: false }
    }
}

pub open spec fn no_modifiers() -> Modifiers {
    Modifiers { shift: false, control: false, alt: false, logo: false }
}

/// One modifier named in a binding.
#[derive(Clone, Copy, Debug, PartialEq, Eq, Structural)]
pub enum ModifierKey {
    Shift,
    Control,
    Alt,
    Logo,
}

pub open spec fn with_modifier(m: Modifiers, k: ModifierKey) -> Modifiers {
    match k {
        ModifierKey::Shift => Modifiers { shift: true, ..m },
        ModifierKey::Control => Modifiers { control: true, ..m },
        ModifierKey::Alt => Modifiers { alt: true, ..m },
        ModifierKey::Logo => Modifiers { logo: true, ..m },
    }
}

/// An input event as the shortcut logic sees it.
#[derive(Clone, Debug)]
pub enum Event {
    KeyPressed { modified_key: Key, modifiers: Modifiers, repeat: bool },
    Other,
}

/// Whether a widget already handled the event.
#[derive(Clone, Copy, Debug, PartialEq, Eq, Structural)]
pub enum Status {
    Ignored,
    Captured,
}

// ---------------------------------------------------------------------------
// Specification of binding parsing.

/// `s` cut at every `'+'`; the result always has one more part than `s` has `'+'`s.
pub open spec fn split_plus(s: Seq<char>) -> Seq<Seq<char>>
    decreases s.len(),
{
    if s.len() == 0 {
        seq![Seq::<char>::empty()]
    } else {
        let rest = split_plus(s.drop_last());
        if s.last() == '+' {
            rest.push(Seq::<char>::empty())
        } else {
            rest.update(rest.len() - 1, rest.last().push(s.last()))
        }
    }
}

/// The parts trimmed of whitespace, with the ones left empty dropped.
pub open spec fn clean_parts(parts: Seq<Seq<char>>) -> Seq<Seq<char>>
    decreases parts.len(),
{
    if parts.len() == 0 {
        Seq::<Seq<char>>::empty()
    } else {
        let rest = clean_parts(parts.drop_last());
        let t = trim(parts.last());
        if t.len() > 0 {
            rest.push(t)
        } else {
            rest
        }
    }
}

/// The modifier a binding part names, compared without regard to ASCII case.
pub open spec fn modifier_of(part: Seq<char>) -> Option<ModifierKey> {
    if eq_ignore_ascii_case(part, "shift"@) {
        Some(ModifierKey::Shift)
    } else if eq_ignore_ascii_case(part, "ctrl"@) || eq_ignore_ascii_case(part, "control"@) {
        Some(ModifierKey::Control)
    } else if eq_ignore_ascii_case(part, "alt"@) {
        Some(ModifierKey::Alt)
    } else if eq_ignore_ascii_case(part, "super"@) || eq_ignore_ascii_case(part, "meta"@)
        || eq_ignore_ascii_case(part, "command"@) {
        Some(ModifierKey::Logo)
    } else {
        None
    }
}

/// The modifiers named by `parts`, or `None` if one of them names no modifier.
pub open spec fn expected_modifiers(parts: Seq<Seq<char>>) -> Option<Modifiers>
    decreases parts.len(),
{
    if parts.len() == 0 {
        Some(no_modifiers())
    } else {
        match (expected_modifiers(parts.drop_last()), modifier_of(parts.last())) {
            (Some(m), Some(k)) => Some(with_modifier(m, k)),
            _ => None,
        }
    }
}

/// Whether the pressed key is the key a binding names.
pub open spec fn key_matches(key: Key, expected: Seq<char>) -> bool {
    match key {
        Key::Character(value) => eq_ignore_ascii_case(value@, expected) || (value@ == "+"@
            && eq_ignore_ascii_case(expected, "Plus"@)),
        Key::Named(name) => eq_ignore_ascii_case(name@, expected),
        Key::Unidentified => false,
    }
}

/// A binding matches when its last nonblank part names the key and the other
/// parts name exactly the held modifiers.
pub open spec fn binding_matches(binding: Seq<char>, key: Key, modifiers: Modifiers) -> bool {
    let parts = clean_parts(split_plus(binding));
    &&& parts.len() > 0
    &&& expected_modifiers(parts.drop_last()) == Some(modifiers)
    &&& key_matches(key, parts.last())
}

pub open spec fn part_views(v: Seq<Vec<char>>) -> Seq<Seq<char>> {
    Seq::new(v.len(), |i: int| v[i]@)
}

// ---------------------------------------------------------------------------
// Specification of capture.

pub open spec fn is_escape(key: Key) -> bool {
    key matches Key::Named(name) && name@ == "Escape"@
}

/// Keys that cannot end a binding: lone modifiers and unidentified keys.
pub open spec fn is_modifier_only(key: Key) -> bool {
    match key {
        Key::Named(name) => name@ == "Alt"@ || name@ == "AltGraph"@ || name@ == "Control"@
            || name@ == "Shift"@ || name@ == "Meta"@ || name@ == "Super"@,
        Key::Character(_) => false,
        Key::Unidentified => true,
    }
}

/// The text a captured key contributes to a binding.
pub open spec fn key_text(key: Key) -> Seq<char> {
    match key {
        Key::Character(value) => if value@ == "+"@ {
            "Plus"@
        } else {
            value@
        },
        Key::Named(name) => name@,
        Key::Unidentified => Seq::<char>::empty(),
    }
}

/// The modifier words of a captured binding, in the order they are written.
pub open spec fn modifier_words(m: Modifiers) -> Seq<Seq<char>> {
    let w0 = Seq::<Seq<char>>::empty();
    let w1 = if m.control { w0.push("Ctrl"@) } else { w0 };
    let w2 = if m.alt { w1.push("Alt"@) } else { w1 };
    let w3 = if m.logo { w2.push("Super"@) } else { w2 };
    if m.shift { w3.push("Shift"@) } else { w3 }
}

/// Each word followed by `'+'`.
pub open spec fn plus_prefix(words: Seq<Seq<char>>) -> Seq<char>
    decreases words.len(),
{
    if words.len() == 0 {
        Seq::<char>::empty()
    } else {
        plus_prefix(words.drop_last()) + words.last().push('+')
    }
}

/// The binding written for `key` pressed with `m`, e.g. `Ctrl+Shift+k`.
pub open spec fn captured_binding(key: Key, m: Modifiers) -> Seq<char> {
    plus_prefix(modifier_words(m)) + key_text(key)
}

// ---------------------------------------------------------------------------
// Executable parsing.

/// `s` cut at every `'+'`.
fn split_on_plus(s: &Vec<char>) -> (out: Vec<Vec<char>>)
    ensures
        part_views(out@) == split_plus(s@),
{
    let mut parts: Vec<Vec<char>> = Vec::new();
    let mut current: Vec<char> = Vec::new();
    let mut i: usize = 0;
    assert(s@.take(0) =~= Seq::<char>::empty());
    assert(part_views(parts@).push(current@) =~= split_plus(s@.take(0)));
    while i < s.len()
        invariant
            i <= s.len(),
            part_views(parts@).push(current@) == split_plus(s@.take(i as int)),
        decreases s.len() - i,
    {
        let ghost before = part_views(parts@).push(current@);
        let c = s[i];
        assert(s@.take(i as int + 1).drop_last() =~= s@.take(i as int));
        assert(s@.take(i as int + 1).last() == c);
        if c == '+' {
            let done = current;
            parts.push(done);
            current = Vec::new();
            assert(part_views(parts@).push(current@) =~= before.push(Seq::<char>::empty()));
        } else {
            current.push(c);
            assert(part_views(parts@).push(current@) =~= before.update(
                before.len() - 1,
                before.last().push(c),
            ));
        }
        i += 1;
    }
    parts.push(current);
    assert(s@.take(s.len() as int) =~= s@);
    assert(part_views(parts@) =~= split_plus(s@));
    parts
}

/// Each part trimmed, blank parts dropped.
fn clean(raw: &Vec<Vec<char>>) -> (out: Vec<Vec<char>>)
    ensures
        part_views(out@) == clean_parts(part_views(raw@)),
{
    let mut out: Vec<Vec<char>> = Vec::new();
    let mut i: usize = 0;
    assert(part_views(raw@).take(0) =~= Seq::<Seq<char>>::empty());
    while i < raw.len()
        invariant
            i <= raw.len(),
            part_views(out@) == clean_parts(part_views(raw@).take(i as int)),
        decreases raw.len() - i,
    {
        let ghost before = part_views(out@);
        let t = trim_chars(&raw[i]);
        assert(part_views(raw@).take(i as int + 1).drop_last() =~= part_views(raw@).take(i as int));
        assert(part_views(raw@).take(i as int + 1).last() == raw@[i as int]@);
        if t.len() > 0 {
            out.push(t);
            assert(part_views(out@) =~= before.push(t@));
        }
        i += 1;
    }
    assert(part_views(raw@).take(raw.len() as int) =~= part_views(raw@));
    out
}

fn modifier_key_of(part: &Vec<char>) -> (out: Option<ModifierKey>)
    ensures
        out == modifier_of(part@),
{
    if chars_eq_ignore_ascii_case(part, &chars_of("shift")) {
        Some(ModifierKey::Shift)
    } else if chars_eq_ignore_ascii_case(part, &chars_of("ctrl")) || chars_eq_ignore_ascii_case(
        part,
        &chars_of("control"),
    ) {
        Some(ModifierKey::Control)
    } else if chars_eq_ignore_ascii_case(part, &chars_of("alt")) {
        Some(ModifierKey::Alt)
    } else if chars_eq_ignore_ascii_case(part, &chars_of("super")) || chars_eq_ignore_ascii_case(
        part,
        &chars_of("meta"),
    ) || chars_eq_ignore_ascii_case(part, &chars_of("command")) {
        Some(ModifierKey::Logo)
    } else {
        None
    }
}

fn add_modifier(m: Modifiers, k: ModifierKey) -> (out: Modifiers)
    ensures
        out == with_modifier(m, k),
{
    match k {
        ModifierKey::Shift => Modifiers { shift: true, ..m },
        ModifierKey::Control => Modifiers { control: true, ..m },
        ModifierKey::Alt => Modifiers { alt: true, ..m },
        ModifierKey::Logo => Modifiers { logo: true, ..m },
    }
}

fn key_matches_part(key: &Key, expected: &Vec<char>) -> (out: bool)
    ensures
        out == key_matches(*key, expected@),
{
    match key {
        Key::Character(value) => {
            let v = chars_of(value.as_str());
            chars_eq_ignore_ascii_case(&v, expected) || (chars_eq(&v, &chars_of("+"))
                && chars_eq_ignore_ascii_case(expected, &chars_of("Plus")))
        },
        Key::Named(name) => {
            let v = chars_of(name.as_str());
            chars_eq_ignore_ascii_case(&v, expected)
        },
        Key::Unidentified => false,
    }
}

/// Whether a key press matches a stored binding such as `"Shift+>"`.
///
/// The binding's parts are separated by `'+'`, trimmed, and blank parts are
/// ignored; the last part names the key and the others the modifiers, which
/// must be held exactly (none missing, none extra). Names are compared without
/// regard to ASCII case, and the key `+` is also written `Plus`.
pub fn shortcut_matches(binding: &str, key: &Key, modifiers: Modifiers) -> (out: bool)
    ensures
        out == binding_matches(binding@, *key, modifiers),
{
    let chars = chars_of(binding);
    let raw = split_on_plus(&chars);
    let parts = clean(&raw);
    if parts.len() == 0 {
        return false;
    }
    let ghost pv = part_views(parts@);
    let last = parts.len() - 1;
    let mut expected = Modifiers::none();
    let mut i: usize = 0;
    assert(pv.take(0) =~= Seq::<Seq<char>>::empty());
    while i < last
        invariant
            last == parts.len() - 1,
            pv == part_views(parts@),
            pv == clean_parts(split_plus(binding@)),
            i <= last,
            expected_modifiers(pv.take(i as int)) == Some(expected),
        decreases last - i,
    {
        assert(pv.take(i as int + 1).drop_last() =~= pv.take(i as int));
        assert(pv.take(i as int + 1).last() == parts@[i as int]@);
        match modifier_key_of(&parts[i]) {
            Some(k) => {
                expected = add_modifier(expected, k);
            },
            None => {
                proof {
                    assert(pv.drop_last().take(i as int + 1) =~= pv.take(i as int + 1));
                    assert(expected_modifiers(pv.take(i as int + 1)) is None);
                    lemma_expected_modifiers_none_extends(pv.drop_last(), i as int + 1);
                }
                return false;
            },
        }
        i += 1;
    }
    assert(pv.take(last as int) =~= pv.drop_last());
    if modifiers != expected {
        return false;
    }
    key_matches_part(key, &parts[last])
}

proof fn lemma_expected_modifiers_none_extends(parts: Seq<Seq<char>>, k: int)
    requires
        0 <= k <= parts.len(),
        expected_modifiers(parts.take(k)) is None,
    ensures
        expected_modifiers(parts) is None,
    decreases parts.len() - k,
{
    if k < parts.len() {
        assert(parts.take(k + 1).drop_last() =~= parts.take(k));
        lemma_expected_modifiers_none_extends(parts, k + 1);
    } else {
        assert(parts.take(k) =~= parts);
    }
}


// ---------------------------------------------------------------------------
// Capture.

fn is_escape_key(key: &Key) -> (out: bool)
    ensures
        out == is_escape(*key),
{
    match key {
        Key::Named(name) => str_is(name.as_str(), "Escape"),
        _ => false,
    }
}

fn is_modifier_only_key(key: &Key) -> (out: bool)
    ensures
        out == is_modifier_only(*key),
{
    match key {
        Key::Named(name) => {
            let n = name.as_str();
            str_is(n, "Alt") || str_is(n, "AltGraph") || str_is(n, "Control") || str_is(n, "Shift")
                || str_is(n, "Meta") || str_is(n, "Super")
        },
        Key::Character(_) => false,
        Key::Unidentified => true,
    }
}

fn key_text_chars(key: &Key) -> (out: Vec<char>)
    ensures
        out@ == key_text(*key),
{
    match key {
        Key::Character(value) => {
            if str_is(value.as_str(), "+") {
                chars_of("Plus")
            } else {
                chars_of(value.as_str())
            }
        },
        Key::Named(name) => chars_of(name.as_str()),
        Key::Unidentified => Vec::new(),
    }
}

proof fn lemma_plus_prefix_push(words: Seq<Seq<char>>, w: Seq<char>)
    ensures
        plus_prefix(words.push(w)) == plus_prefix(words) + w.push('+'),
{
    assert(words.push(w).drop_last() =~= words);
}

/// The binding text for `key` held with `modifiers`.
fn captured_binding_string(key: &Key, modifiers: Modifiers) -> (out: String)
    ensures
        out@ == captured_binding(*key, modifiers),
{
    let mut binding = String::new();
    let ghost mut words = Seq::<Seq<char>>::empty();
    proof {
        reveal_strlit("Ctrl+");
        reveal_strlit("Ctrl");
        reveal_strlit("Alt+");
        reveal_strlit("Alt");
        reveal_strlit("Super+");
        reveal_strlit("Super");
        reveal_strlit("Shift+");
        reveal_strlit("Shift");
        assert(binding@ =~= plus_prefix(words));
    }
    if modifiers.control {
        push_str_chars(&mut binding, "Ctrl+");
        proof {
            lemma_plus_prefix_push(words, "Ctrl"@);
            words = words.push("Ctrl"@);
            assert(binding@ =~= plus_prefix(words));
        }
    }
    if modifiers.alt {
        push_str_chars(&mut binding, "Alt+");
        proof {
            lemma_plus_prefix_push(words, "Alt"@);
            words = words.push("Alt"@);
            assert(binding@ =~= plus_prefix(words));
        }
    }
    if modifiers.logo {
        push_str_chars(&mut binding, "Super+");
        proof {
            lemma_plus_prefix_push(words, "Super"@);
            words = words.push("Super"@);
            assert(binding@ =~= plus_prefix(words));
        }
    }
    if modifiers.shift {
        push_str_chars(&mut binding, "Shift+");
        proof {
            lemma_plus_prefix_push(words, "Shift"@);
            words = words.push("Shift"@);
            assert(binding@ =~= plus_prefix(words));
        }
    }
    assert(words == modifier_words(modifiers));
    let text = key_text_chars(key);
    push_all(&mut binding, &text);
    binding
}

/// What capturing `event` yields while a shortcut is being recorded.
pub open spec fn capture_outcome(event: Event, out: Option<Message>) -> bool {
    match event {
        Event::KeyPressed { modified_key, modifiers, repeat } => if repeat {
            out is None
        } else if is_escape(modified_key) {
            out matches Some(Message::Settings(SettingsMessage::CancelShortcutCapture))
        } else if is_modifier_only(modified_key) {
            out is None
        } else {
            out matches Some(Message::Settings(SettingsMessage::ShortcutCaptured(b))) && b@
                == captured_binding(modified_key, modifiers)
        },
        Event::Other => out is None,
    }
}

/// Records a key press as a shortcut binding.
///
/// Escape cancels the capture; lone modifiers, unidentified keys, repeats and
/// other events are ignored. Otherwise the binding lists the held modifiers as
/// `Ctrl+`, `Alt+`, `Super+`, `Shift+` (in that order) followed by the key,
/// with the key `+` written `Plus`. Capture runs whatever the status, even
/// for events a widget has already handled.
pub fn shortcut_capture(event: Event, _status: Status) -> (out: Option<Message>)
    ensures
        capture_outcome(event, out),
{
    match event {
        Event::KeyPressed { modified_key, modifiers, repeat } => {
            if repeat {
                return None;
            }
            if is_escape_key(&modified_key) {
                return Some(Message::Settings(SettingsMessage::CancelShortcutCapture));
            }
            if is_modifier_only_key(&modified_key) {
                return None;
            }
            let binding = captured_binding_string(&modified_key, modifiers);
            Some(Message::Settings(SettingsMessage::ShortcutCaptured(binding)))
        },
        Event::Other => None,
    }
}

/// A fresh (non-repeated) press of Escape.
pub open spec fn is_escape_press(event: Event) -> bool {
    match event {
        Event::KeyPressed { modified_key, repeat, .. } => !repeat && is_escape(modified_key),
        Event::Other => false,
    }
}

/// While the settings dialog is open, an unhandled, non-repeated Escape closes it.
pub fn settings_modal_events(event: Event, status: Status) -> (out: Option<Message>)
    ensures
        (out is Some) == (status == Status::Ignored && is_escape_press(event)),
        out is Some ==> out matches Some(Message::Settings(SettingsMessage::Close)),
{
    if status == Status::Captured {
        return None;
    }
    match event {
        Event::KeyPressed { modified_key, repeat, .. } => {
            if !repeat && is_escape_key(&modified_key) {
                Some(Message::Settings(SettingsMessage::Close))
            } else {
                None
            }
        },
        Event::Other => None,
    }
}

/// The three playback bindings: next episode, previous episode, skip intro.
#[derive(Clone, Debug)]
pub struct PlaybackShortcuts {
    pub next: String,
    pub previous: String,
    pub intro_skip: String,
}

/// The stored shortcut settings.
#[derive(Clone, Debug)]
pub struct ShortcutSettings {
    pub key_next_episode: String,
    pub key_previous_episode: String,
    pub key_intro_skip: String,
}

/// Copies the playback bindings out of the settings.
pub fn playback_shortcuts(settings: &ShortcutSettings) -> (out: PlaybackShortcuts)
    ensures
        out.next@ == settings.key_next_episode@,
        out.previous@ == settings.key_previous_episode@,
        out.intro_skip@ == settings.key_intro_skip@,
{
    PlaybackShortcuts {
        next: string_of(&chars_of(settings.key_next_episode.as_str())),
        previous: string_of(&chars_of(settings.key_previous_episode.as_str())),
        intro_skip: string_of(&chars_of(settings.key_intro_skip.as_str())),
    }
}

/// The playback intent a key press triggers, trying next, previous and
/// skip-intro in that order.
pub open spec fn playback_intent_for(
    shortcuts: PlaybackShortcuts,
    key: Key,
    modifiers: Modifiers,
) -> Option<PlaybackIntent> {
    if binding_matches(shortcuts.next@, key, modifiers) {
        Some(PlaybackIntent::PlayAdjacent(AdjacentDirection::Next))
    } else if binding_matches(shortcuts.previous@, key, modifiers) {
        Some(PlaybackIntent::PlayAdjacent(AdjacentDirection::Previous))
    } else if binding_matches(shortcuts.intro_skip@, key, modifiers) {
        Some(PlaybackIntent::SkipIntro)
    } else {
        None
    }
}

/// Maps a non-repeated key press during playback to its playback intent.
pub fn playback_shortcut(shortcuts: &PlaybackShortcuts, event: Event) -> (out: Option<Message>)
    ensures
        match event {
            Event::KeyPressed { modified_key, modifiers, repeat } => if repeat {
                out is None
            } else {
                match playback_intent_for(*shortcuts, modified_key, modifiers) {
                    Some(intent) => out == Some(
                        Message::Playback(PlaybackMessage::Intent(intent)),
                    ),
                    None => out is None,
                }
            },
            Event::Other => out is None,
        },
{
    match event {
        Event::KeyPressed { modified_key, modifiers, repeat } => {
            if repeat {
                return None;
            }
            let intent = if shortcut_matches(shortcuts.next.as_str(), &modified_key, modifiers) {
                PlaybackIntent::PlayAdjacent(AdjacentDirection::Next)
            } else if shortcut_matches(shortcuts.previous.as_str(), &modified_key, modifiers) {
                PlaybackIntent::PlayAdjacent(AdjacentDirection::Previous)
            } else if shortcut_matches(shortcuts.intro_skip.as_str(), &modified_key, modifiers) {
                PlaybackIntent::SkipIntro
            } else {
                return None;
            };
            Some(Message::Playback(PlaybackMessage::Intent(intent)))
        },
        Event::Other => None,
    }
}


// ---------------------------------------------------------------------------
// Capture and matching agree.

/// A key name that survives being written into a binding: nonempty, free of
/// `'+'`, and neither starting nor ending with whitespace.
pub open spec fn is_plain_name(t: Seq<char>) -> bool {
    &&& t.len() > 0
    &&& forall|i: int| 0 <= i < t.len() ==> #[trigger] t[i] != '+'
    &&& !is_unicode_whitespace(t[0])
    &&& !is_unicode_whitespace(t.last())
}

proof fn lemma_split_len(s: Seq<char>)
    ensures
        split_plus(s).len() >= 1,
    decreases s.len(),
{
    if s.len() > 0 {
        lemma_split_len(s.drop_last());
    }
}

proof fn lemma_split_append_plain(s: Seq<char>, t: Seq<char>)
    requires
        forall|i: int| 0 <= i < t.len() ==> #[trigger] t[i] != '+',
    ensures
        split_plus(s + t) == split_plus(s).update(
            split_plus(s).len() - 1,
            split_plus(s).last() + t,
        ),
    decreases t.len(),
{
    lemma_split_len(s);
    let sp = split_plus(s);
    if t.len() == 0 {
        assert(s + t =~= s);
        assert(sp.last() + t =~= sp.last());
        assert(sp.update(sp.len() - 1, sp.last() + t) =~= sp);
    } else {
        let u = t.drop_last();
        assert forall|i: int| 0 <= i < u.len() implies #[trigger] u[i] != '+' by {
            assert(u[i] == t[i]);
        }
        lemma_split_append_plain(s, u);
        let c = t.last();
        assert(t[t.len() - 1] != '+');
        assert((s + t).drop_last() =~= s + u);
        assert((s + t).last() == c);
        let r = split_plus(s + u);
        assert(r == sp.update(sp.len() - 1, sp.last() + u));
        assert(split_plus(s + t) == r.update(r.len() - 1, r.last().push(c)));
        assert((sp.last() + u).push(c) =~= sp.last() + t);
        assert(split_plus(s + t) =~= sp.update(sp.len() - 1, sp.last() + t));
    }
}

proof fn lemma_split_plus_prefix(words: Seq<Seq<char>>, t: Seq<char>)
    requires
        forall|k: int, i: int|
            0 <= k < words.len() && 0 <= i < words[k].len() ==> #[trigger] words[k][i] != '+',
        forall|i: int| 0 <= i < t.len() ==> #[trigger] t[i] != '+',
    ensures
        split_plus(plus_prefix(words) + t) == words.push(t),
    decreases words.len(),
{
    if words.len() == 0 {
        lemma_split_append_plain(Seq::<char>::empty(), t);
        assert(plus_prefix(words) + t =~= Seq::<char>::empty() + t);
        assert(seq![Seq::<char>::empty()].update(0, Seq::<char>::empty() + t) =~= words.push(t));
    } else {
        let wd = words.drop_last();
        let w = words.last();
        assert forall|k: int, i: int| 0 <= k < wd.len() && 0 <= i < wd[k].len() implies #[trigger] wd[k][i] != '+' by {
            assert(wd[k] == words[k]);
        }
        assert forall|i: int| 0 <= i < w.len() implies #[trigger] w[i] != '+' by {
            assert(words[words.len() - 1][i] != '+');
        }
        lemma_split_plus_prefix(wd, w);
        let p = plus_prefix(words);
        assert(p == plus_prefix(wd) + w.push('+'));
        assert(p =~= (plus_prefix(wd) + w).push('+'));
        assert(p.drop_last() =~= plus_prefix(wd) + w);
        assert(p.last() == '+');
        assert(split_plus(p) == wd.push(w).push(Seq::<char>::empty()));
        lemma_split_append_plain(p, t);
        let sp = split_plus(p);
        assert(sp.last() + t =~= t);
        assert(wd.push(w) =~= words);
        assert(sp.update(sp.len() - 1, sp.last() + t) =~= words.push(t));
    }
}

proof fn lemma_trim_plain(t: Seq<char>)
    requires
        t.len() > 0,
        !is_unicode_whitespace(t[0]),
        !is_unicode_whitespace(t.last()),
    ensures
        trim(t) == t,
{
    assert(trim_start(t) == t);
    assert(trim_end(t) == t);
}

proof fn lemma_clean_plain(parts: Seq<Seq<char>>)
    requires
        forall|k: int|
            0 <= k < parts.len() ==> (#[trigger] parts[k]).len() > 0 && trim(parts[k])
                == parts[k],
    ensures
        clean_parts(parts) == parts,
    decreases parts.len(),
{
    if parts.len() > 0 {
        let pd = parts.drop_last();
        assert forall|k: int| 0 <= k < pd.len() implies (#[trigger] pd[k]).len() > 0 && trim(pd[k])
            == pd[k] by {
            assert(pd[k] == parts[k]);
        }
        lemma_clean_plain(pd);
        assert(parts.last() == parts[parts.len() - 1]);
        assert(pd.push(parts.last()) =~= parts);
    }
}

proof fn lemma_modifier_words_plain(m: Modifiers)
    ensures
        forall|k: int|
            0 <= k < modifier_words(m).len() ==> (#[trigger] modifier_words(m)[k]).len() > 0
                && trim(modifier_words(m)[k]) == modifier_words(m)[k],
        forall|k: int, i: int|
            0 <= k < modifier_words(m).len() && 0 <= i < modifier_words(m)[k].len()
                ==> #[trigger] modifier_words(m)[k][i] != '+',
        expected_modifiers(modifier_words(m)) == Some(m),
{
    reveal_strlit("Ctrl");
    reveal_strlit("Alt");
    reveal_strlit("Super");
    reveal_strlit("Shift");
    reveal_strlit("shift");
    reveal_strlit("ctrl");
    reveal_strlit("control");
    reveal_strlit("alt");
    reveal_strlit("super");
    reveal_strlit("meta");
    reveal_strlit("command");
    lemma_trim_plain("Ctrl"@);
    lemma_trim_plain("Alt"@);
    lemma_trim_plain("Super"@);
    lemma_trim_plain("Shift"@);
    assert(eq_ignore_ascii_case("Ctrl"@, "ctrl"@));
    assert(!eq_ignore_ascii_case("Super"@, "shift"@)) by {
        assert(ascii_lower("Super"@[1]) != ascii_lower("shift"@[1]));
    }
    assert(!eq_ignore_ascii_case("Ctrl"@, "meta"@)) by {
        assert(ascii_lower("Ctrl"@[0]) != ascii_lower("meta"@[0]));
    }
    assert(eq_ignore_ascii_case("Alt"@, "alt"@));
    assert(eq_ignore_ascii_case("Super"@, "super"@));
    assert(eq_ignore_ascii_case("Shift"@, "shift"@));
    assert(modifier_of("Ctrl"@) == Some(ModifierKey::Control));
    assert(modifier_of("Alt"@) == Some(ModifierKey::Alt));
    assert(modifier_of("Super"@) == Some(ModifierKey::Logo));
    assert(modifier_of("Shift"@) == Some(ModifierKey::Shift));
    let w0 = Seq::<Seq<char>>::empty();
    let w1 = if m.control { w0.push("Ctrl"@) } else { w0 };
    let w2 = if m.alt { w1.push("Alt"@) } else { w1 };
    let w3 = if m.logo { w2.push("Super"@) } else { w2 };
    let w4 = if m.shift { w3.push("Shift"@) } else { w3 };
    let m1 = Modifiers { control: m.control, ..no_modifiers() };
    let m2 = Modifiers { alt: m.alt, ..m1 };
    let m3 = Modifiers { logo: m.logo, ..m2 };
    assert(expected_modifiers(w0) == Some(no_modifiers()));
    if m.control {
        assert(w1.drop_last() =~= w0);
        assert(w1.last() == "Ctrl"@);
    }
    assert(expected_modifiers(w1) == Some(m1));
    if m.alt {
        assert(w2.drop_last() =~= w1);
        assert(w2.last() == "Alt"@);
    }
    assert(expected_modifiers(w2) == Some(m2));
    if m.logo {
        assert(w3.drop_last() =~= w2);
        assert(w3.last() == "Super"@);
    }
    assert(expected_modifiers(w3) == Some(m3));
    if m.shift {
        assert(w4.drop_last() =~= w3);
        assert(w4.last() == "Shift"@);
    }
    assert(expected_modifiers(w4) == Some(m));
    assert(w4 == modifier_words(m));
}

/// A binding captured from a key press matches that same key press again,
/// whenever the key's text is a plain name (see [`is_plain_name`]); the key
/// `+` is captured as `Plus` and matches too.
pub proof fn lemma_captured_binding_matches(key: Key, modifiers: Modifiers)
    requires
        !is_escape(key),
        !is_modifier_only(key),
        is_plain_name(key_text(key)),
    ensures
        binding_matches(captured_binding(key, modifiers), key, modifiers),
{
    let words = modifier_words(modifiers);
    let t = key_text(key);
    lemma_modifier_words_plain(modifiers);
    lemma_split_plus_prefix(words, t);
    lemma_trim_plain(t);
    let ps = words.push(t);
    assert forall|k: int| 0 <= k < ps.len() implies (#[trigger] ps[k]).len() > 0 && trim(ps[k])
        == ps[k] by {
        if k < words.len() {
            assert(ps[k] == words[k]);
        }
    }
    lemma_clean_plain(ps);
    assert(ps.drop_last() =~= words);
    reveal_strlit("+");
    reveal_strlit("Plus");
    match key {
        Key::Character(value) => {
            if value@ == "+"@ {
                assert(eq_ignore_ascii_case("Plus"@, "Plus"@));
            } else {
                assert(eq_ignore_ascii_case(value@, value@));
            }
        },
        Key::Named(name) => {
            assert(eq_ignore_ascii_case(name@, name@));
        },
        Key::Unidentified => {},
    }
}

/// The keys that only modify another key: Alt, AltGraph, Control, Shift,
/// Meta and Super.
pub open spec fn is_lone_modifier_name(name: Seq<char>) -> bool {
    ||| name == seq!['A', 'l', 't']
    ||| name == seq!['A', 'l', 't', 'G', 'r', 'a', 'p', 'h']
    ||| name == seq!['C', 'o', 'n', 't', 'r', 'o', 'l']
    ||| name == seq!['S', 'h', 'i', 'f', 't']
    ||| name == seq!['M', 'e', 't', 'a']
    ||| name == seq!['S', 'u', 'p', 'e', 'r']
}

/// Recording a shortcut yields nothing exactly for repeats, events other
/// than key presses, unidentified keys and presses of a modifier key alone
/// (Alt, AltGraph, Control, Shift, Meta, Super), whatever modifiers are held:
/// capture waits for the real key. Every other press yields a message.
pub proof fn lemma_capture_ignores_lone_modifiers(event: Event, out: Option<Message>)
    requires
        capture_outcome(event, out),
    ensures
        (out is None) == match event {
            Event::KeyPressed { modified_key, repeat, .. } => repeat || match modified_key {
                Key::Named(name) => is_lone_modifier_name(name@),
                Key::Character(_) => false,
                Key::Unidentified => true,
            },
            Event::Other => true,
        },
{
    reveal_strlit("Alt");
    reveal_strlit("AltGraph");
    reveal_strlit("Control");
    reveal_strlit("Shift");
    reveal_strlit("Meta");
    reveal_strlit("Super");
    reveal_strlit("Escape");
    assert("Alt"@ =~= seq!['A', 'l', 't']);
    assert("AltGraph"@ =~= seq!['A', 'l', 't', 'G', 'r', 'a', 'p', 'h']);
    assert("Control"@ =~= seq!['C', 'o', 'n', 't', 'r', 'o', 'l']);
    assert("Shift"@ =~= seq!['S', 'h', 'i', 'f', 't']);
    assert("Meta"@ =~= seq!['M', 'e', 't', 'a']);
    assert("Super"@ =~= seq!['S', 'u', 'p', 'e', 'r']);
    match event {
        Event::KeyPressed { modified_key, .. } => match modified_key {
            Key::Named(name) => {
                if is_lone_modifier_name(name@) {
                    assert(name@ != "Escape"@);
                }
                assert(is_modifier_only(modified_key) == is_lone_modifier_name(name@));
            },
            _ => {},
        },
        Event::Other => {},
    }
}

} // verus!

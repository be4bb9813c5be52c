//! Keys as plain values, their keymap strings, and the keymap itself.

use vstd::prelude::*;
use crate::config::{Config, Preset};
use crate::text::{push_char, push_decimal, spec_decimal};
use crate::tree::find_group;
use crate::laws::{names_distinct, law_merged_keys_distinct};

verus! {

/// The key codes that the application tells apart.
#[derive(Debug, Clone, Copy, PartialEq, Eq, Structural)]
pub enum KeyCode {
    Char(char),
    Tab,
    Enter,
    Esc,
    Up,
    Down,
    Left,
    Right,
    PageUp,
    PageDown,
    Home,
    End,
    Backspace,
    Delete,
    /// Any other key (function keys, Insert, BackTab, ...).
    Other,
}

/// Modifier state. `other` stands for Super and Hyper together.
#[derive(Debug, Clone, Copy, PartialEq, Eq, Structural)]
pub struct Modifiers {
    pub shift: bool,
    pub control: bool,
    pub alt: bool,
    pub meta: bool,
    pub other: bool,
}

/// A key press.
#[derive(Debug, Clone, Copy, PartialEq, Eq, Structural)]
pub struct Key {
    pub code: KeyCode,
    pub modifiers: Modifiers,
}

impl Modifiers {
    /// Exactly Shift and nothing else.
    pub open spec fn is_shift_only(self) -> bool {
        self.shift && !self.control && !self.alt && !self.meta && !self.other
    }
}

/// `char::to_ascii_lowercase`.
pub open spec fn ascii_lower(c: char) -> char {
    if 'A' <= c && c <= 'Z' {
        ((c as u32) + 32) as char
    } else {
        c
    }
}

fn to_ascii_lower(c: char) -> (r: char)
    ensures
        r == ascii_lower(c),
{
    if 'A' <= c && c <= 'Z' {
        let b: u8 = c as u8;
        assert(b == c as u32);
        ((b + 32) as char)
    } else {
        c
    }
}

/// The keymap name of a key code without modifiers.
pub open spec fn key_base(code: KeyCode) -> Option<Seq<char>> {
    match code {
        KeyCode::Char(c) => if c == ' ' { Some("space"@) } else { Some(seq![ascii_lower(c)]) },
        KeyCode::Up => Some("up"@),
        KeyCode::Down => Some("down"@),
        KeyCode::Left => Some("left"@),
        KeyCode::Right => Some("right"@),
        KeyCode::Enter => Some("enter"@),
        KeyCode::Esc => Some("esc"@),
        _ => None,
    }
}

/// The keymap lookup string of a key (e.g. `ctrl+r`, `space`, `j`).
pub open spec fn key_string(key: Key) -> Option<Seq<char>> {
    match key_base(key.code) {
        Some(base) => Some(
            (if key.modifiers.control { "ctrl+"@ } else { Seq::<char>::empty() })
            + (if key.modifiers.alt { "alt+"@ } else { Seq::<char>::empty() })
            + base,
        ),
        None => None,
    }
}

/// Normalize a key into a keymap lookup string (e.g. `ctrl+r`, `space`, `j`).
pub fn key_to_string(key: Key) -> (s: Option<String>)
    ensures
        match s {
            Some(s) => key_string(key) == Some(s@),
            None => key_string(key) is None,
        },
{
    let mut s = String::new();
    if key.modifiers.control {
        s.append("ctrl+");
    }
    if key.modifiers.alt {
        s.append("alt+");
    }
    let ghost prefix = s@;
    match key.code {
        KeyCode::Char(c) => {
            if c == ' ' {
                s.append("space");
            } else {
                push_char(&mut s, to_ascii_lower(c));
            }
        },
        KeyCode::Up => s.append("up"),
        KeyCode::Down => s.append("down"),
        KeyCode::Left => s.append("left"),
        KeyCode::Right => s.append("right"),
        KeyCode::Enter => s.append("enter"),
        KeyCode::Esc => s.append("esc"),
        _ => {
            return None;
        },
    }
    proof {
        reveal_strlit("");
        assert(Seq::<char>::empty() + Seq::<char>::empty() == Seq::<char>::empty());
    }
    Some(s)
}

/// Keymap entries as plain values.
pub open spec fn keymap_view(m: Seq<(String, String)>) -> Seq<(Seq<char>, Seq<char>)> {
    m.map_values(|e: (String, String)| (e.0@, e.1@))
}

/// The action name bound to key string `k`: the first entry for it.
pub open spec fn keymap_get(m: Seq<(Seq<char>, Seq<char>)>, k: Seq<char>) -> Option<Seq<char>> {
    let i = find_group(m, k);
    if i < 0 { None } else { Some(m[i].1) }
}

/// The action name a preset's key is bound to: `preset:<index>`.
pub open spec fn preset_binding(i: nat) -> Seq<char> {
    "preset:"@ + spec_decimal(i)
}

/// The config keymap with the first `n` presets' keys merged in; a key that
/// is already bound keeps its binding.
pub open spec fn merged_keymap(base: Seq<(Seq<char>, Seq<char>)>, presets: Seq<Preset>, n: int) -> Seq<
    (Seq<char>, Seq<char>),
>
    decreases n,
{
    if n <= 0 {
        base
    } else {
        let m = merged_keymap(base, presets, n - 1);
        match presets[n - 1].key {
            Some(k) => if find_group(m, k@) >= 0 {
                m
            } else {
                m.push((k@, preset_binding((n - 1) as nat)))
            },
            None => m,
        }
    }
}

/// Position of the entry for `k`.
pub fn keymap_find(m: &Vec<(String, String)>, k: &String) -> (r: Option<usize>)
    ensures
        match r {
            Some(i) => find_group(keymap_view(m@), k@) == i,
            None => find_group(keymap_view(m@), k@) == -1,
        },
{
    let ghost sh = keymap_view(m@);
    let mut i: usize = 0;
    while i < m.len()
        invariant
            i <= m@.len(),
            sh == keymap_view(m@),
            forall|j: int| 0 <= j < i ==> #[trigger] sh[j].0 != k@,
        decreases m@.len() - i,
    {
        if m[i].0 == *k {
            proof {
                crate::tree::lemma_find_group_at(sh, k@, i as int);
            }
            return Some(i);
        }
        i = i + 1;
    }
    None
}

/// Final keymap with each preset's key merged into the config keymap.
pub fn build_keymap(config: &Config) -> (m: Vec<(String, String)>)
    ensures
        keymap_view(m@) == merged_keymap(keymap_view(config.keymap@), config.presets@, config.presets@.len() as int),
        config.wf() ==> names_distinct(keymap_view(m@)),
{
    proof {
        if config.wf() {
            law_merged_keys_distinct(keymap_view(config.keymap@), config.presets@, config.presets@.len() as int);
        }
    }
    let mut m: Vec<(String, String)> = Vec::new();
    let mut i: usize = 0;
    while i < config.keymap.len()
        invariant
            i <= config.keymap@.len(),
            keymap_view(m@) == keymap_view(config.keymap@).take(i as int),
        decreases config.keymap@.len() - i,
    {
        let e = &config.keymap[i];
        let a = e.0.clone();
        let b = e.1.clone();
        let ghost m0 = m@;
        m.push((a, b));
        assert(m@ == m0.push((a, b)));
        assert(keymap_view(m@) =~= keymap_view(m0).push((a@, b@)));
        assert(keymap_view(m@) =~= keymap_view(config.keymap@).take(i + 1));
        i = i + 1;
    }
    assert(keymap_view(config.keymap@).take(i as int) =~= keymap_view(config.keymap@));
    let mut p: usize = 0;
    while p < config.presets.len()
        invariant
            p <= config.presets@.len(),
            keymap_view(m@) == merged_keymap(keymap_view(config.keymap@), config.presets@, p as int),
        decreases config.presets@.len() - p,
    {
        match &config.presets[p].key {
            Some(k) => {
                if keymap_find(&m, k).is_none() {
                    let mut name = String::new();
                    name.append("preset:");
                    push_decimal(&mut name, p as u64);
                    m.push((k.clone(), name));
                    assert(keymap_view(m@) =~= merged_keymap(keymap_view(config.keymap@), config.presets@, p as int).push(
                        (k@, preset_binding(p as nat)),
                    ));
                }
            },
            None => {},
        }
        p = p + 1;
    }
    m
}

} // verus!

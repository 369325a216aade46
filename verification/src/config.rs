//! Key bindings: their notation, their defaults and the configuration file.
//!
//! ```toml
//! [keybinds]
//! leader          = "ctrl+a"   # prefix key that arms command mode
//! new_goal        = "n"        # <leader> new goal
//! show_details    = "tab"      # <leader> toggle description + subgoals
//! cycle_status    = "tab"      # bare key: cycle pending, wip, done
//! help            = "h"        # <leader> open the help page
//! plugins         = "p"        # <leader> open the plugin manager
//! run_agent       = "r"        # <leader> run goal with an agent
//! commands        = ";"        # <leader> open the plugin-command line
//! global_config   = ","        # <leader> open the global settings page
//! sync            = "s"        # <leader> sync now
//! delete          = "d"        # bare key: delete selected goal (confirm)
//! edit_title      = "e"        # bare key: edit title
//! edit_description= "E"        # bare key: edit description
//! toggle_complete = "space"    # bare key: toggle complete
//! move_goal       = "m"        # bare key: move goal to new parent
//! sheets          = "b"        # <leader> + key: open sheet picker
//! ```
//!
//! Bindings for assigning a range, the statistics, the full result, the due
//! date, the reminder and the repeat rule have no default key: they are unbound
//! until the file names one.

use crate::keys::{char_text, key_name, no_modifiers, plain_name, KeyCode, KeyEvent, KeyModifiers};
use crate::text::{
    ascii_lower, concat, decimal, from_chars, is_digit, is_white_space, join, joined,
    law_joining_adds_up, law_trimming_cuts_blanks_at_both_ends, lemma_first_index,
    lemma_first_index_is, lower_chars, number, opt, split, split_chars, str_eq, texts, to_chars,
    trim_chars, trimmed, views,
};
use vstd::prelude::*;

verus! {

/// A key with modifiers that events are matched against.
#[derive(Clone, Copy, Debug, PartialEq, Eq, Structural)]
pub struct KeyBinding {
    pub code: KeyCode,
    pub modifiers: KeyModifiers,
}

/// The parts of a binding's notation, without white space and empty parts.
pub open spec fn parts_of(s: Seq<char>) -> Seq<Seq<char>> {
    split(s, '+').map_values(|p: Seq<char>| trimmed(p)).filter(|p: Seq<char>| p.len() > 0)
}

pub open spec fn is_control_word(p: Seq<char>) -> bool {
    ascii_lower(p) == "ctrl"@ || ascii_lower(p) == "control"@
}

pub open spec fn is_alt_word(p: Seq<char>) -> bool {
    ascii_lower(p) == "alt"@ || ascii_lower(p) == "option"@
}

pub open spec fn is_shift_word(p: Seq<char>) -> bool {
    ascii_lower(p) == "shift"@
}

pub open spec fn is_super_word(p: Seq<char>) -> bool {
    ascii_lower(p) == "super"@ || ascii_lower(p) == "cmd"@ || ascii_lower(p) == "meta"@
}

/// Whether a part names a modifier.
pub open spec fn is_modifier_word(p: Seq<char>) -> bool {
    is_control_word(p) || is_alt_word(p) || is_shift_word(p) || is_super_word(p)
}

/// The key that a part names: one of the named keys, a function key of one
/// digit, or a single character.
pub open spec fn key_of(p: Seq<char>) -> Option<KeyCode> {
    let w = ascii_lower(p);
    if w == "esc"@ || w == "escape"@ {
        Some(KeyCode::Esc)
    } else if w == "enter"@ || w == "return"@ {
        Some(KeyCode::Enter)
    } else if w == "tab"@ {
        Some(KeyCode::Tab)
    } else if w == "backtab"@ {
        Some(KeyCode::BackTab)
    } else if w == "space"@ {
        Some(KeyCode::Char(' '))
    } else if w == "backspace"@ {
        Some(KeyCode::Backspace)
    } else if w == "delete"@ || w == "del"@ {
        Some(KeyCode::Delete)
    } else if w == "insert"@ || w == "ins"@ {
        Some(KeyCode::Insert)
    } else if w == "home"@ {
        Some(KeyCode::Home)
    } else if w == "end"@ {
        Some(KeyCode::End)
    } else if w == "pageup"@ {
        Some(KeyCode::PageUp)
    } else if w == "pagedown"@ {
        Some(KeyCode::PageDown)
    } else if w == "up"@ {
        Some(KeyCode::Up)
    } else if w == "down"@ {
        Some(KeyCode::Down)
    } else if w == "left"@ {
        Some(KeyCode::Left)
    } else if w == "right"@ {
        Some(KeyCode::Right)
    } else if w.len() == 2 && w[0] == 'f' && is_digit(w[1]) {
        Some(KeyCode::F((w[1] as int - 48) as u8))
    } else if p.len() == 1 {
        Some(KeyCode::Char(p[0]))
    } else {
        None
    }
}

/// Whether a part is a capital letter, which implies the shift key.
pub open spec fn is_capital(p: Seq<char>) -> bool {
    p.len() == 1 && 'A' <= p[0] && p[0] <= 'Z'
}

/// The parts that name keys, not modifiers.
pub open spec fn key_parts(parts: Seq<Seq<char>>) -> Seq<Seq<char>> {
    parts.filter(|p: Seq<char>| !is_modifier_word(p))
}

/// The modifiers that some parts call for.
pub open spec fn modifiers_of(parts: Seq<Seq<char>>) -> KeyModifiers {
    KeyModifiers {
        shift: exists|i: int|
            0 <= i < parts.len() && (is_shift_word(#[trigger] parts[i]) || is_capital(parts[i])),
        control: exists|i: int| 0 <= i < parts.len() && is_control_word(#[trigger] parts[i]),
        alt: exists|i: int| 0 <= i < parts.len() && is_alt_word(#[trigger] parts[i]),
        super_key: exists|i: int| 0 <= i < parts.len() && is_super_word(#[trigger] parts[i]),
        hyper: false,
        meta: false,
    }
}

/// The binding that a notation denotes: any modifiers, and exactly one key.
pub open spec fn binding_of(s: Seq<char>) -> Option<KeyBinding> {
    let parts = parts_of(s);
    let keys = key_parts(parts);
    if keys.len() == 1 && key_of(keys[0]) is Some {
        Some(KeyBinding { code: key_of(keys[0])->0, modifiers: modifiers_of(parts) })
    } else {
        None
    }
}

/// The trimmed parts of a notation that are not empty.
fn notation_parts(s: &str) -> (r: Vec<Vec<char>>)
    ensures
        views(r@) == parts_of(s@),
{
    let v = to_chars(s);
    let raw = split_chars(&v, '+');
    let ghost all = split(s@, '+');
    let ghost trim_one = |p: Seq<char>| trimmed(p);
    let ghost keep = |p: Seq<char>| p.len() > 0;
    let mut out: Vec<Vec<char>> = Vec::new();
    for i in 0..raw.len()
        invariant
            views(raw@) == all,
            trim_one == (|p: Seq<char>| trimmed(p)),
            keep == (|p: Seq<char>| p.len() > 0),
            views(out@) =~= all.take(i as int).map_values(trim_one).filter(keep),
    {
        let ghost before = out@;
        let t = trim_chars(&raw[i]);
        proof {
            assert(all[i as int] == raw@[i as int]@);
            let done = all.take(i as int).map_values(trim_one);
            assert(all.take(i + 1).map_values(trim_one) =~= done.push(t@));
            done.lemma_filter_push(t@, keep);
        }
        if t.len() > 0 {
            out.push(t);
            assert(views(out@) =~= views(before).push(t@));
        }
    }
    assert(all.take(all.len() as int) =~= all);
    out
}

/// The key that a part names.
fn part_key(p: &Vec<char>) -> (r: Option<KeyCode>)
    ensures
        r == key_of(p@),
{
    let low = lower_chars(p);
    let w = from_chars(&low);
    let w = w.as_str();
    if str_eq(w, "esc") || str_eq(w, "escape") {
        Some(KeyCode::Esc)
    } else if str_eq(w, "enter") || str_eq(w, "return") {
        Some(KeyCode::Enter)
    } else if str_eq(w, "tab") {
        Some(KeyCode::Tab)
    } else if str_eq(w, "backtab") {
        Some(KeyCode::BackTab)
    } else if str_eq(w, "space") {
        Some(KeyCode::Char(' '))
    } else if str_eq(w, "backspace") {
        Some(KeyCode::Backspace)
    } else if str_eq(w, "delete") || str_eq(w, "del") {
        Some(KeyCode::Delete)
    } else if str_eq(w, "insert") || str_eq(w, "ins") {
        Some(KeyCode::Insert)
    } else if str_eq(w, "home") {
        Some(KeyCode::Home)
    } else if str_eq(w, "end") {
        Some(KeyCode::End)
    } else if str_eq(w, "pageup") {
        Some(KeyCode::PageUp)
    } else if str_eq(w, "pagedown") {
        Some(KeyCode::PageDown)
    } else if str_eq(w, "up") {
        Some(KeyCode::Up)
    } else if str_eq(w, "down") {
        Some(KeyCode::Down)
    } else if str_eq(w, "left") {
        Some(KeyCode::Left)
    } else if str_eq(w, "right") {
        Some(KeyCode::Right)
    } else if low.len() == 2 && low[0] == 'f' && '0' <= low[1] && low[1] <= '9' {
        Some(KeyCode::F(digit_value(low[1])))
    } else if p.len() == 1 {
        Some(KeyCode::Char(p[0]))
    } else {
        None
    }
}

fn digit_value(c: char) -> (r: u8)
    requires
        is_digit(c),
    ensures
        r == (c as int - 48) as u8,
{
    c as u8 - 48
}

impl KeyBinding {
    /// Reads a binding like `ctrl+shift+tab` or `n`.
    pub fn parse(s: &str) -> (r: Option<KeyBinding>)
        ensures
            r == binding_of(s@),
    {
        let parts = notation_parts(s);
        let ghost all = parts_of(s@);
        let ghost is_key = |p: Seq<char>| !is_modifier_word(p);
        let mut keys: usize = 0;
        let mut code: Option<KeyCode> = None;
        let mut mods = KeyModifiers::none();
        let mut i: usize = 0;
        assert(all.take(0).filter(is_key).len() == 0) by {
            assert(all.take(0) =~= Seq::empty());
        }
        while i < parts.len()
            invariant
                i <= parts.len(),
                views(parts@) == all,
                is_key == (|p: Seq<char>| !is_modifier_word(p)),
                keys == all.take(i as int).filter(is_key).len(),
                keys <= i,
                keys == 1 ==> code == key_of(all.take(i as int).filter(is_key)[0]),
                mods == modifiers_of(all.take(i as int)),
            decreases parts.len() - i,
        {
            let low = lower_chars(&parts[i]);
            let w = from_chars(&low);
            let w = w.as_str();
            let ghost p = all[i as int];
            let ghost done = all.take(i as int);
            assert(p == parts@[i as int]@);
            let control = str_eq(w, "ctrl") || str_eq(w, "control");
            let alt = str_eq(w, "alt") || str_eq(w, "option");
            let shift = str_eq(w, "shift");
            let super_key = str_eq(w, "super") || str_eq(w, "cmd") || str_eq(w, "meta");
            let capital = parts[i].len() == 1 && 'A' <= parts[i][0] && parts[i][0] <= 'Z';
            proof {
                assert(all.take(i + 1) =~= done.push(p));
                done.lemma_filter_push(p, is_key);
                lemma_modifiers_push(done, p);
            }
            if !(control || alt || shift || super_key) {
                keys = keys + 1;
                code = part_key(&parts[i]);
            }
            mods = KeyModifiers {
                shift: mods.shift || shift || capital,
                control: mods.control || control,
                alt: mods.alt || alt,
                super_key: mods.super_key || super_key,
                hyper: false,
                meta: false,
            };
            i = i + 1;
        }
        assert(all.take(all.len() as int) =~= all);
        if keys != 1 {
            return None;
        }
        match code {
            Some(code) => Some(KeyBinding { code, modifiers: mods }),
            None => None,
        }
    }

    /// Whether an event matches: the same key and the same modifiers, where the
    /// shift key does not count.
    pub fn matches(&self, key: KeyEvent) -> (r: bool)
        ensures
            r == self.matched_by(key),
    {
        let a = self.modifiers;
        let b = key.modifiers;
        self.code == key.code && a.control == b.control && a.alt == b.alt && a.super_key
            == b.super_key && a.hyper == b.hyper && a.meta == b.meta
    }

    /// Whether an event matches this binding.
    pub open spec fn matched_by(self, key: KeyEvent) -> bool {
        self.code == key.code && self.modifiers.without_shift() == key.modifiers.without_shift()
    }

    /// The label of the binding: the marks of its modifiers and the name of its
    /// key, joined by hyphens.
    pub open spec fn label_spec(self) -> Seq<char> {
        let marks = (if self.modifiers.control {
            seq!["C"@]
        } else {
            seq![]
        }) + (if self.modifiers.alt {
            seq!["M"@]
        } else {
            seq![]
        }) + (if self.modifiers.super_key {
            seq!["Super"@]
        } else {
            seq![]
        });
        let name = match self.code {
            KeyCode::Char(c) => if c == ' ' {
                "space"@
            } else {
                seq![c]
            },
            KeyCode::F(n) => "F"@ + decimal(n as nat),
            other => plain_name(other),
        };
        joined(marks.push(name), "-"@)
    }

    /// The label of the binding for hints and help.
    pub fn label(&self) -> (r: String)
        ensures
            r@ == self.label_spec(),
    {
        let mut parts: Vec<String> = Vec::new();
        if self.modifiers.control {
            parts.push("C".to_string());
        }
        if self.modifiers.alt {
            parts.push("M".to_string());
        }
        if self.modifiers.super_key {
            parts.push("Super".to_string());
        }
        let name = match self.code {
            KeyCode::Char(c) => {
                if c == ' ' {
                    "space".to_string()
                } else {
                    char_text(c)
                }
            },
            KeyCode::F(n) => concat("F", number(n as u64).as_str()),
            other => key_name(other),
        };
        let ghost name_text = name@;
        parts.push(name);
        proof {
            let marks = (if self.modifiers.control {
                seq!["C"@]
            } else {
                seq![]
            }) + (if self.modifiers.alt {
                seq!["M"@]
            } else {
                seq![]
            }) + (if self.modifiers.super_key {
                seq!["Super"@]
            } else {
                seq![]
            });
            assert(texts(parts@) =~= marks.push(name_text));
        }
        join(&parts, "-")
    }
}

proof fn lemma_modifiers_push(parts: Seq<Seq<char>>, p: Seq<char>)
    ensures
        modifiers_of(parts.push(p)) == (KeyModifiers {
            shift: modifiers_of(parts).shift || is_shift_word(p) || is_capital(p),
            control: modifiers_of(parts).control || is_control_word(p),
            alt: modifiers_of(parts).alt || is_alt_word(p),
            super_key: modifiers_of(parts).super_key || is_super_word(p),
            hyper: false,
            meta: false,
        }),
{
    let all = parts.push(p);
    let n = parts.len() as int;
    assert(all[n] == p);
    if modifiers_of(parts).shift {
        let i = choose|i: int|
            0 <= i < parts.len() && (is_shift_word(#[trigger] parts[i]) || is_capital(parts[i]));
        assert(all[i] == parts[i]);
    }
    if modifiers_of(parts).control {
        let i = choose|i: int| 0 <= i < parts.len() && is_control_word(#[trigger] parts[i]);
        assert(all[i] == parts[i]);
    }
    if modifiers_of(parts).alt {
        let i = choose|i: int| 0 <= i < parts.len() && is_alt_word(#[trigger] parts[i]);
        assert(all[i] == parts[i]);
    }
    if modifiers_of(parts).super_key {
        let i = choose|i: int| 0 <= i < parts.len() && is_super_word(#[trigger] parts[i]);
        assert(all[i] == parts[i]);
    }
    assert(forall|i: int| 0 <= i < n ==> all[i] == #[trigger] parts[i]);
}

/// Whether two parts are spellings of one: the same text, synonyms of one modifier, or
/// words that differ in letter case alone. A single letter keeps its case.
pub open spec fn spelled_alike(a: Seq<char>, b: Seq<char>) -> bool {
    ||| a == b
    ||| is_control_word(a) && is_control_word(b)
    ||| is_alt_word(a) && is_alt_word(b)
    ||| is_super_word(a) && is_super_word(b)
    ||| a.len() > 1 && ascii_lower(a) == ascii_lower(b)
}

/// Whether two lists of parts are spellings of one.
pub open spec fn all_spelled_alike(a: Seq<Seq<char>>, b: Seq<Seq<char>>) -> bool {
    &&& a.len() == b.len()
    &&& forall|i: int| #![trigger a[i]] #![trigger b[i]] 0 <= i < a.len() ==> spelled_alike(a[i], b[i])
}

proof fn lemma_alike(a: Seq<char>, b: Seq<char>)
    requires
        spelled_alike(a, b),
    ensures
        is_control_word(a) == is_control_word(b),
        is_alt_word(a) == is_alt_word(b),
        is_shift_word(a) == is_shift_word(b),
        is_super_word(a) == is_super_word(b),
        is_capital(a) == is_capital(b),
        (a.len() > 0) == (b.len() > 0),
        !is_modifier_word(a) ==> key_of(a) == key_of(b),
{
    reveal_strlit("ctrl");
    reveal_strlit("control");
    reveal_strlit("alt");
    reveal_strlit("option");
    reveal_strlit("shift");
    reveal_strlit("super");
    reveal_strlit("cmd");
    reveal_strlit("meta");
    assert(ascii_lower(a).len() == a.len());
    assert(ascii_lower(b).len() == b.len());
    assert("shift"@[1] != "super"@[1]);
    assert("alt"@[0] != "cmd"@[0]);
    assert("ctrl"@[0] != "meta"@[0]);
}

proof fn lemma_filter_alike(a: Seq<Seq<char>>, b: Seq<Seq<char>>, keep: spec_fn(Seq<char>) -> bool)
    requires
        all_spelled_alike(a, b),
        forall|p: Seq<char>, q: Seq<char>| #[trigger] spelled_alike(p, q) ==> keep(p) == keep(q),
    ensures
        all_spelled_alike(a.filter(keep), b.filter(keep)),
    decreases a.len(),
{
    if a.len() == 0 {
        assert(a.filter(keep) =~= Seq::empty()) by {
            assert(a =~= Seq::empty());
            reveal(Seq::filter);
        }
        assert(b.filter(keep) =~= Seq::empty()) by {
            assert(b =~= Seq::empty());
            reveal(Seq::filter);
        }
    } else {
        let (x, y) = (a.drop_last(), b.drop_last());
        let n = a.len() - 1;
        assert forall|i: int| #![trigger x[i]] #![trigger y[i]] 0 <= i < x.len() implies spelled_alike(
            x[i],
            y[i],
        ) by {
            assert(spelled_alike(a[i], b[i]));
        }
        lemma_filter_alike(x, y, keep);
        assert(spelled_alike(a[n], b[n]));
        x.lemma_filter_push(a[n], keep);
        y.lemma_filter_push(b[n], keep);
        assert(x.push(a[n]) =~= a);
        assert(y.push(b[n]) =~= b);
    }
}

spec fn is_spelled_in(p: Seq<char>, parts: Seq<Seq<char>>) -> bool {
    exists|j: int| 0 <= j < parts.len() && spelled_alike(p, #[trigger] parts[j])
}

proof fn lemma_modifiers_within(a: Seq<Seq<char>>, b: Seq<Seq<char>>)
    requires
        forall|i: int| 0 <= i < a.len() ==> is_spelled_in(#[trigger] a[i], b),
    ensures
        modifiers_of(a).shift ==> modifiers_of(b).shift,
        modifiers_of(a).control ==> modifiers_of(b).control,
        modifiers_of(a).alt ==> modifiers_of(b).alt,
        modifiers_of(a).super_key ==> modifiers_of(b).super_key,
{
    if modifiers_of(a).shift {
        let i = choose|i: int|
            0 <= i < a.len() && (is_shift_word(#[trigger] a[i]) || is_capital(a[i]));
        let j = choose|j: int| 0 <= j < b.len() && spelled_alike(a[i], #[trigger] b[j]);
        lemma_alike(a[i], b[j]);
    }
    if modifiers_of(a).control {
        let i = choose|i: int| 0 <= i < a.len() && is_control_word(#[trigger] a[i]);
        let j = choose|j: int| 0 <= j < b.len() && spelled_alike(a[i], #[trigger] b[j]);
        lemma_alike(a[i], b[j]);
    }
    if modifiers_of(a).alt {
        let i = choose|i: int| 0 <= i < a.len() && is_alt_word(#[trigger] a[i]);
        let j = choose|j: int| 0 <= j < b.len() && spelled_alike(a[i], #[trigger] b[j]);
        lemma_alike(a[i], b[j]);
    }
    if modifiers_of(a).super_key {
        let i = choose|i: int| 0 <= i < a.len() && is_super_word(#[trigger] a[i]);
        let j = choose|j: int| 0 <= j < b.len() && spelled_alike(a[i], #[trigger] b[j]);
        lemma_alike(a[i], b[j]);
    }
}

/// The parts of a notation between the plus signs, without white space around them.
pub open spec fn written_parts(s: Seq<char>) -> Seq<Seq<char>> {
    split(s, '+').map_values(|p: Seq<char>| trimmed(p))
}

/// Two notations whose parts are spellings of each other denote the same binding:
/// white space around the parts, the letter case of words, and the synonyms of a
/// modifier (`ctrl` and `control`, `alt` and `option`, `super`, `cmd` and `meta`) make
/// no difference.
pub proof fn law_spelling_is_free(s: Seq<char>, t: Seq<char>)
    requires
        all_spelled_alike(written_parts(s), written_parts(t)),
    ensures
        binding_of(s) == binding_of(t),
{
    let there = |p: Seq<char>| p.len() > 0;
    let is_key = |p: Seq<char>| !is_modifier_word(p);
    assert forall|p: Seq<char>, q: Seq<char>| #[trigger] spelled_alike(p, q) implies there(p)
        == there(q) && is_key(p) == is_key(q) by {
        lemma_alike(p, q);
    }
    let (a, b) = (parts_of(s), parts_of(t));
    lemma_filter_alike(written_parts(s), written_parts(t), there);
    assert(all_spelled_alike(a, b));
    lemma_filter_alike(a, b, is_key);
    let (x, y) = (key_parts(a), key_parts(b));
    assert(all_spelled_alike(x, y));
    assert forall|i: int| 0 <= i < a.len() implies is_spelled_in(#[trigger] a[i], b) by {
        assert(spelled_alike(a[i], b[i]));
    }
    lemma_modifiers_within(a, b);
    assert forall|i: int| 0 <= i < b.len() implies is_spelled_in(#[trigger] b[i], a) by {
        assert(spelled_alike(a[i], b[i]));
        lemma_alike_back(a[i], b[i]);
    }
    lemma_modifiers_within(b, a);
    assert(modifiers_of(a) == modifiers_of(b));
    if x.len() == 1 {
        assert(spelled_alike(x[0], y[0]));
        lemma_alike(x[0], y[0]);
        lemma_kept(a, is_key, 0);
    }
}

proof fn lemma_alike_back(a: Seq<char>, b: Seq<char>)
    requires
        spelled_alike(a, b),
    ensures
        spelled_alike(b, a),
{
    assert(ascii_lower(a).len() == a.len());
    assert(ascii_lower(b).len() == b.len());
}

proof fn lemma_kept(a: Seq<Seq<char>>, keep: spec_fn(Seq<char>) -> bool, i: int)
    requires
        0 <= i < a.filter(keep).len(),
    ensures
        keep(a.filter(keep)[i]),
{
    a.lemma_filter_pred(keep, i);
}

proof fn lemma_filter_counts(a: Seq<Seq<char>>, keep: spec_fn(Seq<char>) -> bool)
    ensures
        a.filter(keep).to_multiset() == a.to_multiset().filter(keep),
    decreases a.len(),
{
    broadcast use vstd::seq_lib::group_to_multiset_ensures;
    broadcast use vstd::multiset::group_multiset_axioms;

    if a.len() == 0 {
        reveal(Seq::filter);
        assert(a.filter(keep) =~= a);
        assert(a.to_multiset().filter(keep) =~= a.to_multiset());
    } else {
        let x = a.drop_last();
        let p = a.last();
        lemma_filter_counts(x, keep);
        x.lemma_filter_push(p, keep);
        assert(x.push(p) =~= a);
        assert(a.to_multiset() == x.to_multiset().insert(p));
        assert(a.filter(keep).to_multiset() =~= a.to_multiset().filter(keep));
    }
}

/// Two notations with the same parts in another order denote the same binding.
pub proof fn law_order_is_free(s: Seq<char>, t: Seq<char>)
    requires
        parts_of(s).to_multiset() == parts_of(t).to_multiset(),
    ensures
        binding_of(s) == binding_of(t),
{
    broadcast use vstd::seq_lib::group_to_multiset_ensures;

    let (a, b) = (parts_of(s), parts_of(t));
    let is_key = |p: Seq<char>| !is_modifier_word(p);
    lemma_filter_counts(a, is_key);
    lemma_filter_counts(b, is_key);
    let (x, y) = (key_parts(a), key_parts(b));
    assert(x.to_multiset() == y.to_multiset());
    assert(x.len() == x.to_multiset().len());
    assert(y.len() == y.to_multiset().len());
    if x.len() == 1 {
        assert(x.contains(x[0]));
        assert(x.to_multiset().count(x[0]) > 0);
        assert(y.contains(x[0]));
        assert(y[0] == x[0]);
    }
    assert forall|i: int| 0 <= i < a.len() implies is_spelled_in(#[trigger] a[i], b) by {
        assert(a.contains(a[i]));
        assert(a.to_multiset().count(a[i]) > 0);
        assert(b.contains(a[i]));
    }
    lemma_modifiers_within(a, b);
    assert forall|i: int| 0 <= i < b.len() implies is_spelled_in(#[trigger] b[i], a) by {
        assert(b.contains(b[i]));
        assert(b.to_multiset().count(b[i]) > 0);
        assert(a.contains(b[i]));
    }
    lemma_modifiers_within(b, a);
    assert(modifiers_of(a) == modifiers_of(b));
}

/// A key without modifiers.
pub open spec fn plain_key(code: KeyCode) -> KeyBinding {
    KeyBinding { code, modifiers: no_modifiers() }
}

fn plain(code: KeyCode) -> (r: KeyBinding)
    ensures
        r == plain_key(code),
{
    KeyBinding { code, modifiers: KeyModifiers::none() }
}

/// The configurable bindings.
#[derive(Clone, Copy, Debug, PartialEq, Eq, Structural)]
pub struct Keybinds {
    /// Prefix key that arms leader mode.
    pub leader: KeyBinding,
    /// `<leader>` + this starts adding a goal.
    pub new_goal: KeyBinding,
    /// `<leader>` + this toggles the description and the subgoals.
    pub show_details: KeyBinding,
    /// Bare key that cycles the status.
    pub cycle_status: KeyBinding,
    /// `<leader>` + this opens the help page.
    pub help: KeyBinding,
    /// `<leader>` + this opens the plugin manager.
    pub plugins: KeyBinding,
    /// `<leader>` + this runs the goal with an agent.
    pub run_agent: KeyBinding,
    /// `<leader>` + this opens the plugin-command line.
    pub commands: KeyBinding,
    /// `<leader>` + this opens the global settings page.
    pub global_config: KeyBinding,
    /// `<leader>` + this starts a sync.
    pub sync: KeyBinding,
    /// Bare key that deletes the goal, after a question.
    pub delete: KeyBinding,
    /// Bare key that edits the title.
    pub edit_title: KeyBinding,
    /// Bare key that edits the description.
    pub edit_description: KeyBinding,
    /// Bare key that toggles completion.
    pub toggle_complete: KeyBinding,
    /// Bare key that moves the goal under another parent.
    pub move_goal: KeyBinding,
    /// `<leader>` + this opens the sheet picker.
    pub sheets: KeyBinding,
    /// `<leader>` + this assigns a range of goals to an agent.
    pub assign_range: Option<KeyBinding>,
    /// `<leader>` + this opens the statistics.
    pub stats: Option<KeyBinding>,
    /// `<leader>` + this shows the full agent result.
    pub open_result: Option<KeyBinding>,
    /// Bare key that edits the due date.
    pub edit_due: Option<KeyBinding>,
    /// Bare key that edits the reminder.
    pub edit_reminder: Option<KeyBinding>,
    /// Bare key that edits the repeat rule.
    pub edit_repeat: Option<KeyBinding>,
}

/// The bindings where nothing is configured.
pub open spec fn default_keybinds() -> Keybinds {
    Keybinds {
        leader: KeyBinding { code: KeyCode::Char('a'), modifiers: KeyModifiers { control: true, ..no_modifiers() } },
        new_goal: plain_key(KeyCode::Char('n')),
        show_details: plain_key(KeyCode::Tab),
        cycle_status: plain_key(KeyCode::Tab),
        help: plain_key(KeyCode::Char('h')),
        plugins: plain_key(KeyCode::Char('p')),
        run_agent: plain_key(KeyCode::Char('r')),
        commands: plain_key(KeyCode::Char(';')),
        global_config: plain_key(KeyCode::Char(',')),
        sync: plain_key(KeyCode::Char('s')),
        delete: plain_key(KeyCode::Char('d')),
        edit_title: plain_key(KeyCode::Char('e')),
        edit_description: KeyBinding { code: KeyCode::Char('E'), modifiers: KeyModifiers { shift: true, ..no_modifiers() } },
        toggle_complete: plain_key(KeyCode::Char(' ')),
        move_goal: plain_key(KeyCode::Char('m')),
        sheets: plain_key(KeyCode::Char('b')),
        assign_range: None,
        stats: None,
        open_result: None,
        edit_due: None,
        edit_reminder: None,
        edit_repeat: None,
    }
}

impl Default for Keybinds {
    fn default() -> (r: Keybinds)
        ensures
            r == default_keybinds(),
    {
        Keybinds {
            leader: KeyBinding { code: KeyCode::Char('a'), modifiers: KeyModifiers::control() },
            new_goal: plain(KeyCode::Char('n')),
            show_details: plain(KeyCode::Tab),
            cycle_status: plain(KeyCode::Tab),
            help: plain(KeyCode::Char('h')),
            plugins: plain(KeyCode::Char('p')),
            run_agent: plain(KeyCode::Char('r')),
            commands: plain(KeyCode::Char(';')),
            global_config: plain(KeyCode::Char(',')),
            sync: plain(KeyCode::Char('s')),
            delete: plain(KeyCode::Char('d')),
            edit_title: plain(KeyCode::Char('e')),
            edit_description: KeyBinding { code: KeyCode::Char('E'), modifiers: KeyModifiers::shift() },
            toggle_complete: plain(KeyCode::Char(' ')),
            move_goal: plain(KeyCode::Char('m')),
            sheets: plain(KeyCode::Char('b')),
            assign_range: None,
            stats: None,
            open_result: None,
            edit_due: None,
            edit_reminder: None,
            edit_repeat: None,
        }
    }
}

/// The string at a key of a section of a TOML document.
pub uninterp spec fn toml_str(
    document: Seq<char>,
    section: Seq<char>,
    key: Seq<char>,
) -> Option<Seq<char>>;

/// Calls `<toml::Value as FromStr>::from_str` on the document, `toml::Value::get`
/// with the section and then with the key, and `toml::Value::as_str`. The result
/// depends on the three texts alone and is named by `toml_str`: it is `None` for
/// a document that is not TOML, a section or key that it lacks, and a value that
/// is no string.
#[verifier::external_body]
fn toml_string(document: &str, section: &str, key: &str) -> (r: Option<String>)
    ensures
        opt(r) == toml_str(document@, section@, key@),
{
    let parsed = document.parse::<toml::Value>().ok()?;
    let value = parsed.get(section)?.get(key)?;
    value.as_str().map(|s| s.to_string())
}

/// The binding that a configured text denotes, or the fallback where nothing is
/// configured or the text denotes none.
pub open spec fn chosen(text: Option<Seq<char>>, fallback: KeyBinding) -> KeyBinding {
    match text {
        Some(s) => match binding_of(s) {
            Some(b) => b,
            None => fallback,
        },
        None => fallback,
    }
}

/// The binding that a configured text denotes, if it denotes one.
pub open spec fn chosen_opt(text: Option<Seq<char>>) -> Option<KeyBinding> {
    match text {
        Some(s) => binding_of(s),
        None => None,
    }
}

/// Takes the configured binding, or the fallback.
pub fn choose_binding(text: Option<String>, fallback: KeyBinding) -> (r: KeyBinding)
    ensures
        r == chosen(opt(text), fallback),
{
    match text {
        Some(s) => match KeyBinding::parse(s.as_str()) {
            Some(b) => b,
            None => fallback,
        },
        None => fallback,
    }
}

/// Takes the configured binding, if there is one.
pub fn choose_optional(text: Option<String>) -> (r: Option<KeyBinding>)
    ensures
        r == chosen_opt(opt(text)),
{
    match text {
        Some(s) => KeyBinding::parse(s.as_str()),
        None => None,
    }
}

/// The bindings that a configuration document asks for.
pub open spec fn configured(document: Seq<char>) -> Keybinds {
    let d = default_keybinds();
    Keybinds {
        leader: chosen(toml_str(document, "keybinds"@, "leader"@), d.leader),
        new_goal: chosen(toml_str(document, "keybinds"@, "new_goal"@), d.new_goal),
        show_details: chosen(toml_str(document, "keybinds"@, "show_details"@), d.show_details),
        cycle_status: chosen(toml_str(document, "keybinds"@, "cycle_status"@), d.cycle_status),
        help: chosen(toml_str(document, "keybinds"@, "help"@), d.help),
        plugins: chosen(toml_str(document, "keybinds"@, "plugins"@), d.plugins),
        run_agent: chosen(toml_str(document, "keybinds"@, "run_agent"@), d.run_agent),
        commands: chosen(toml_str(document, "keybinds"@, "commands"@), d.commands),
        global_config: chosen(toml_str(document, "keybinds"@, "global_config"@), d.global_config),
        sync: chosen(toml_str(document, "keybinds"@, "sync"@), d.sync),
        delete: chosen(toml_str(document, "keybinds"@, "delete"@), d.delete),
        edit_title: chosen(toml_str(document, "keybinds"@, "edit_title"@), d.edit_title),
        edit_description: chosen(toml_str(document, "keybinds"@, "edit_description"@), d.edit_description),
        toggle_complete: chosen(toml_str(document, "keybinds"@, "toggle_complete"@), d.toggle_complete),
        move_goal: chosen(toml_str(document, "keybinds"@, "move_goal"@), d.move_goal),
        sheets: chosen(toml_str(document, "keybinds"@, "sheets"@), d.sheets),
        assign_range: chosen_opt(toml_str(document, "keybinds"@, "assign_range"@)),
        stats: chosen_opt(toml_str(document, "keybinds"@, "stats"@)),
        open_result: chosen_opt(toml_str(document, "keybinds"@, "open_result"@)),
        edit_due: chosen_opt(toml_str(document, "keybinds"@, "edit_due"@)),
        edit_reminder: chosen_opt(toml_str(document, "keybinds"@, "edit_reminder"@)),
        edit_repeat: chosen_opt(toml_str(document, "keybinds"@, "edit_repeat"@)),
    }
}

/// One row of the help page.
#[derive(Debug)]
pub struct BindingEntry {
    /// Key in the configuration file.
    pub name: &'static str,
    /// The binding in force.
    pub binding: KeyBinding,
    /// What the binding does.
    pub desc: &'static str,
    /// Whether it is the default.
    pub is_default: bool,
}

/// What a row of the help page shows.
pub struct EntryView {
    pub name: Seq<char>,
    pub binding: KeyBinding,
    pub desc: Seq<char>,
    pub is_default: bool,
}

impl View for BindingEntry {
    type V = EntryView;

    open spec fn view(&self) -> EntryView {
        EntryView {
            name: self.name@,
            binding: self.binding,
            desc: self.desc@,
            is_default: self.is_default,
        }
    }
}

/// What rows of the help page show.
pub open spec fn entry_views(s: Seq<BindingEntry>) -> Seq<EntryView> {
    s.map_values(|e: BindingEntry| e@)
}

pub open spec fn row(
    name: Seq<char>,
    binding: KeyBinding,
    default: KeyBinding,
    desc: Seq<char>,
) -> EntryView {
    EntryView { name, binding, desc, is_default: binding == default }
}

fn push_entry(
    out: &mut Vec<BindingEntry>,
    name: &'static str,
    binding: KeyBinding,
    default: KeyBinding,
    desc: &'static str,
)
    ensures
        entry_views(final(out)@) == entry_views(old(out)@).push(row(name@, binding, default, desc@)),
{
    let e = BindingEntry { name, binding, desc, is_default: binding == default };
    let ghost shown = e@;
    out.push(e);
    assert(entry_views(out@) =~= entry_views(old(out)@).push(shown));
}

impl Keybinds {
    /// The bindings that a configuration document asks for; whatever it does not
    /// set, or does not set well, keeps its default.
    pub fn from_toml(document: &str) -> (r: Keybinds)
        ensures
            r == configured(document@),
    {
        let d = Keybinds::default();
        Keybinds {
            leader: choose_binding(toml_string(document, "keybinds", "leader"), d.leader),
            new_goal: choose_binding(toml_string(document, "keybinds", "new_goal"), d.new_goal),
            show_details: choose_binding(toml_string(document, "keybinds", "show_details"), d.show_details),
            cycle_status: choose_binding(toml_string(document, "keybinds", "cycle_status"), d.cycle_status),
            help: choose_binding(toml_string(document, "keybinds", "help"), d.help),
            plugins: choose_binding(toml_string(document, "keybinds", "plugins"), d.plugins),
            run_agent: choose_binding(toml_string(document, "keybinds", "run_agent"), d.run_agent),
            commands: choose_binding(toml_string(document, "keybinds", "commands"), d.commands),
            global_config: choose_binding(toml_string(document, "keybinds", "global_config"), d.global_config),
            sync: choose_binding(toml_string(document, "keybinds", "sync"), d.sync),
            delete: choose_binding(toml_string(document, "keybinds", "delete"), d.delete),
            edit_title: choose_binding(toml_string(document, "keybinds", "edit_title"), d.edit_title),
            edit_description: choose_binding(toml_string(document, "keybinds", "edit_description"), d.edit_description),
            toggle_complete: choose_binding(toml_string(document, "keybinds", "toggle_complete"), d.toggle_complete),
            move_goal: choose_binding(toml_string(document, "keybinds", "move_goal"), d.move_goal),
            sheets: choose_binding(toml_string(document, "keybinds", "sheets"), d.sheets),
            assign_range: choose_optional(toml_string(document, "keybinds", "assign_range")),
            stats: choose_optional(toml_string(document, "keybinds", "stats")),
            open_result: choose_optional(toml_string(document, "keybinds", "open_result")),
            edit_due: choose_optional(toml_string(document, "keybinds", "edit_due")),
            edit_reminder: choose_optional(toml_string(document, "keybinds", "edit_reminder")),
            edit_repeat: choose_optional(toml_string(document, "keybinds", "edit_repeat")),
        }
    }

    /// What the help page lists: every binding but `run_agent`, which does
    /// nothing until a provider plugin is active.
    pub open spec fn listed(self) -> Seq<EntryView> {
        let d = default_keybinds();
        Seq::empty()
            .push(row("leader"@, self.leader, d.leader, "arm leader mode"@))
            .push(row("new_goal"@, self.new_goal, d.new_goal, "<leader> + key — add a goal (subgoal if selection expanded)"@))
            .push(row("show_details"@, self.show_details, d.show_details, "<leader> + key — toggle description + subgoals"@))
            .push(row("cycle_status"@, self.cycle_status, d.cycle_status, "bare key — cycle pending → in progress → done"@))
            .push(row("help"@, self.help, d.help, "<leader> + key — open this help page"@))
            .push(row("plugins"@, self.plugins, d.plugins, "<leader> + key — open the plugin manager"@))
            .push(row("commands"@, self.commands, d.commands, "<leader> + key — open the plugin-command line"@))
            .push(row("global_config"@, self.global_config, d.global_config, "<leader> + key — open the global settings page"@))
            .push(row("sync"@, self.sync, d.sync, "<leader> + key — sync with Turso now"@))
            .push(row("delete"@, self.delete, d.delete, "delete selected goal + subgoals (confirm)"@))
            .push(row("edit_title"@, self.edit_title, d.edit_title, "edit selected goal title"@))
            .push(row("edit_description"@, self.edit_description, d.edit_description, "edit selected goal description"@))
            .push(row("toggle_complete"@, self.toggle_complete, d.toggle_complete, "toggle complete on selected goal"@))
            .push(row("move_goal"@, self.move_goal, d.move_goal, "move selected goal under another parent / to root"@))
            .push(row("sheets"@, self.sheets, d.sheets, "<leader> + key — open sheet (buffer) picker"@))
    }

    /// All listed bindings with their configuration key, what they do, and
    /// whether they are the default.
    pub fn entries(&self) -> (r: Vec<BindingEntry>)
        ensures
            entry_views(r@) == self.listed(),
    {
        let d = Keybinds::default();
        let mut v: Vec<BindingEntry> = Vec::new();
        assert(entry_views(v@) =~= Seq::empty());
        push_entry(&mut v, "leader", self.leader, d.leader, "arm leader mode");
        push_entry(&mut v, "new_goal", self.new_goal, d.new_goal, "<leader> + key — add a goal (subgoal if selection expanded)");
        push_entry(&mut v, "show_details", self.show_details, d.show_details, "<leader> + key — toggle description + subgoals");
        push_entry(&mut v, "cycle_status", self.cycle_status, d.cycle_status, "bare key — cycle pending → in progress → done");
        push_entry(&mut v, "help", self.help, d.help, "<leader> + key — open this help page");
        push_entry(&mut v, "plugins", self.plugins, d.plugins, "<leader> + key — open the plugin manager");
        push_entry(&mut v, "commands", self.commands, d.commands, "<leader> + key — open the plugin-command line");
        push_entry(&mut v, "global_config", self.global_config, d.global_config, "<leader> + key — open the global settings page");
        push_entry(&mut v, "sync", self.sync, d.sync, "<leader> + key — sync with Turso now");
        push_entry(&mut v, "delete", self.delete, d.delete, "delete selected goal + subgoals (confirm)");
        push_entry(&mut v, "edit_title", self.edit_title, d.edit_title, "edit selected goal title");
        push_entry(&mut v, "edit_description", self.edit_description, d.edit_description, "edit selected goal description");
        push_entry(&mut v, "toggle_complete", self.toggle_complete, d.toggle_complete, "toggle complete on selected goal");
        push_entry(&mut v, "move_goal", self.move_goal, d.move_goal, "move selected goal under another parent / to root");
        push_entry(&mut v, "sheets", self.sheets, d.sheets, "<leader> + key — open sheet (buffer) picker");
        v
    }
}

/// A bound key and the same key with the shift key held mean the same.
pub proof fn law_shift_does_not_count(b: KeyBinding, key: KeyEvent)
    ensures
        b.matched_by(key) == b.matched_by(
            (KeyEvent { modifiers: key.modifiers.without_shift(), ..key }),
        ),
{
}

/// Where the document sets nothing, all bindings are the defaults.
pub proof fn law_nothing_configured_is_default(document: Seq<char>)
    requires
        forall|k: Seq<char>| #[trigger] toml_str(document, "keybinds"@, k) is None,
    ensures
        configured(document) == default_keybinds(),
{
}

proof fn lemma_one_part(a: Seq<char>)
    requires
        a.len() > 0,
        forall|i: int| 0 <= i < a.len() ==> a[i] != '+' && !is_white_space(#[trigger] a[i]),
    ensures
        parts_of(a) == seq![a],
{
    lemma_first_index(a, '+');
    assert(split(a, '+') =~= seq![a]);
    let e = Seq::<char>::empty();
    law_trimming_cuts_blanks_at_both_ends(e, a, e);
    assert(e + a + e =~= a);
    let t = split(a, '+').map_values(|p: Seq<char>| trimmed(p));
    assert(t =~= seq![a]);
    let keep = |p: Seq<char>| p.len() > 0;
    reveal(Seq::filter);
    assert(t.drop_last() =~= Seq::empty());
    assert(t.drop_last().filter(keep) =~= Seq::empty());
    assert(t.filter(keep) =~= seq![a]);
}

proof fn lemma_two_parts(a: Seq<char>, b: Seq<char>)
    requires
        a.len() > 0,
        b.len() > 0,
        forall|i: int| 0 <= i < a.len() ==> a[i] != '+' && !is_white_space(#[trigger] a[i]),
        forall|i: int| 0 <= i < b.len() ==> b[i] != '+' && !is_white_space(#[trigger] b[i]),
    ensures
        parts_of(a + seq!['+'] + b) == seq![a, b],
{
    let s = a + seq!['+'] + b;
    lemma_first_index_is(s, '+', a.len() as int);
    lemma_first_index(b, '+');
    assert(s.take(a.len() as int) =~= a);
    assert(s.skip(a.len() as int + 1) =~= b);
    assert(split(b, '+') =~= seq![b]);
    assert(split(s, '+') =~= seq![a, b]);
    let e = Seq::<char>::empty();
    law_trimming_cuts_blanks_at_both_ends(e, a, e);
    law_trimming_cuts_blanks_at_both_ends(e, b, e);
    assert(e + a + e =~= a);
    assert(e + b + e =~= b);
    let t = split(s, '+').map_values(|p: Seq<char>| trimmed(p));
    assert(t =~= seq![a, b]);
    let keep = |p: Seq<char>| p.len() > 0;
    reveal(Seq::filter);
    let u = t.drop_last();
    assert(u =~= seq![a]);
    assert(u.drop_last() =~= Seq::empty());
    assert(u.drop_last().filter(keep) =~= Seq::empty());
    assert(u.filter(keep) =~= seq![a]);
    assert(t.filter(keep) =~= seq![a, b]);
}

/// A word that the notation knows, in small letters.
spec fn is_small_word(w: Seq<char>) -> bool {
    &&& w.len() > 1
    &&& forall|i: int| 0 <= i < w.len() ==> 'a' <= #[trigger] w[i] <= 'z'
}

proof fn lemma_small_word(w: Seq<char>)
    requires
        is_small_word(w),
    ensures
        ascii_lower(w) == w,
        forall|i: int| 0 <= i < w.len() ==> w[i] != '+' && !is_white_space(#[trigger] w[i]),
{
    assert(ascii_lower(w) =~= w);
}

/// A character behind a modifier and a plus sign is read as this key with this modifier;
/// the shift key is held for a capital letter as well.
pub proof fn law_a_modified_character_is_read(word: Seq<char>, c: char)
    requires
        c != '+',
        !is_white_space(c),
        word == "ctrl"@ || word == "control"@ || word == "alt"@ || word == "option"@ || word
            == "shift"@ || word == "super"@ || word == "cmd"@ || word == "meta"@,
    ensures
        binding_of(word + "+"@ + seq![c]) == Some(
            KeyBinding {
                code: KeyCode::Char(c),
                modifiers: KeyModifiers {
                    shift: word == "shift"@ || 'A' <= c <= 'Z',
                    control: word == "ctrl"@ || word == "control"@,
                    alt: word == "alt"@ || word == "option"@,
                    super_key: word == "super"@ || word == "cmd"@ || word == "meta"@,
                    hyper: false,
                    meta: false,
                },
            },
        ),
{
    reveal_strlit("ctrl");
    reveal_strlit("control");
    reveal_strlit("alt");
    reveal_strlit("option");
    reveal_strlit("shift");
    reveal_strlit("super");
    reveal_strlit("cmd");
    reveal_strlit("meta");
    reveal_strlit("+");
    assert("+"@ =~= seq!['+']);
    assert(is_small_word(word));
    lemma_small_word(word);
    let key = seq![c];
    lemma_two_parts(word, key);
    let parts = seq![word, key];
    assert(ascii_lower(key).len() == 1);
    assert(!is_modifier_word(key));
    assert(is_modifier_word(word));
    let keep = |p: Seq<char>| !is_modifier_word(p);
    reveal(Seq::filter);
    let u = parts.drop_last();
    assert(u =~= seq![word]);
    assert(u.drop_last() =~= Seq::empty());
    assert(u.drop_last().filter(keep) =~= Seq::empty());
    assert(u.filter(keep) =~= Seq::empty());
    assert(parts.last() == key);
    assert(key_parts(parts) =~= seq![key]);
    lemma_single_key(c);
    assert(parts[0] == word && parts[1] == key);
    let m = modifiers_of(parts);
    assert(m.shift == (word == "shift"@ || 'A' <= c <= 'Z'));
    assert(m.control == (word == "ctrl"@ || word == "control"@));
    assert(m.alt == (word == "alt"@ || word == "option"@));
    assert(m.super_key == (word == "super"@ || word == "cmd"@ || word == "meta"@));
}

proof fn lemma_single_key(c: char)
    ensures
        key_of(seq![c]) == Some(KeyCode::Char(c)),
        !is_modifier_word(seq![c]),
{
    reveal_strlit("esc");
    reveal_strlit("enter");
    reveal_strlit("tab");
    reveal_strlit("backtab");
    reveal_strlit("backspace");
    reveal_strlit("delete");
    reveal_strlit("insert");
    reveal_strlit("home");
    reveal_strlit("end");
    reveal_strlit("pageup");
    reveal_strlit("pagedown");
    reveal_strlit("up");
    reveal_strlit("down");
    reveal_strlit("left");
    reveal_strlit("right");
    reveal_strlit("escape");
    reveal_strlit("return");
    reveal_strlit("space");
    reveal_strlit("del");
    reveal_strlit("ins");
    reveal_strlit("ctrl");
    reveal_strlit("control");
    reveal_strlit("alt");
    reveal_strlit("option");
    reveal_strlit("shift");
    reveal_strlit("super");
    reveal_strlit("cmd");
    reveal_strlit("meta");
    let w = ascii_lower(seq![c]);
    assert(w.len() == 1);
}

/// A character alone is read as its key, with the shift key for a capital letter.
pub proof fn law_a_character_is_read(c: char)
    requires
        c != '+',
        !is_white_space(c),
    ensures
        binding_of(seq![c]) == Some(
            KeyBinding {
                code: KeyCode::Char(c),
                modifiers: KeyModifiers {
                    shift: 'A' <= c <= 'Z',
                    control: false,
                    alt: false,
                    super_key: false,
                    hyper: false,
                    meta: false,
                },
            },
        ),
{
    let key = seq![c];
    lemma_one_part(key);
    lemma_single_key(c);
    let parts = seq![key];
    let keep = |p: Seq<char>| !is_modifier_word(p);
    reveal(Seq::filter);
    assert(parts.drop_last() =~= Seq::empty());
    assert(parts.drop_last().filter(keep) =~= Seq::empty());
    assert(parts.last() == key);
    assert(key_parts(parts) =~= seq![key]);
    assert(parts[0] == key);
}

/// Whether a key has a word in the notation.
pub open spec fn has_word(code: KeyCode) -> bool {
    code == KeyCode::Esc
        || code == KeyCode::Enter
        || code == KeyCode::Tab
        || code == KeyCode::BackTab
        || code == KeyCode::Backspace
        || code == KeyCode::Delete
        || code == KeyCode::Insert
        || code == KeyCode::Home
        || code == KeyCode::End
        || code == KeyCode::PageUp
        || code == KeyCode::PageDown
        || code == KeyCode::Up
        || code == KeyCode::Down
        || code == KeyCode::Left
        || code == KeyCode::Right
}

proof fn lemma_words_differ()
    ensures
        "esc"@ != "tab"@,
        "esc"@ != "end"@,
        "esc"@ != "del"@,
        "esc"@ != "ins"@,
        "enter"@ != "right"@,
        "enter"@ != "space"@,
        "tab"@ != "end"@,
        "tab"@ != "del"@,
        "tab"@ != "ins"@,
        "delete"@ != "insert"@,
        "delete"@ != "pageup"@,
        "delete"@ != "escape"@,
        "delete"@ != "return"@,
        "insert"@ != "pageup"@,
        "insert"@ != "escape"@,
        "insert"@ != "return"@,
        "home"@ != "down"@,
        "home"@ != "left"@,
        "end"@ != "del"@,
        "end"@ != "ins"@,
        "pageup"@ != "escape"@,
        "pageup"@ != "return"@,
        "down"@ != "left"@,
        "right"@ != "space"@,
        "escape"@ != "return"@,
        "del"@ != "ins"@,
{
    reveal_strlit("esc");
    reveal_strlit("enter");
    reveal_strlit("tab");
    reveal_strlit("backtab");
    reveal_strlit("backspace");
    reveal_strlit("delete");
    reveal_strlit("insert");
    reveal_strlit("home");
    reveal_strlit("end");
    reveal_strlit("pageup");
    reveal_strlit("pagedown");
    reveal_strlit("up");
    reveal_strlit("down");
    reveal_strlit("left");
    reveal_strlit("right");
    reveal_strlit("escape");
    reveal_strlit("return");
    reveal_strlit("space");
    reveal_strlit("del");
    reveal_strlit("ins");
    assert("esc"@[0] != "tab"@[0]);
    assert("esc"@[1] != "end"@[1]);
    assert("esc"@[0] != "del"@[0]);
    assert("esc"@[0] != "ins"@[0]);
    assert("enter"@[0] != "right"@[0]);
    assert("enter"@[0] != "space"@[0]);
    assert("tab"@[0] != "end"@[0]);
    assert("tab"@[0] != "del"@[0]);
    assert("tab"@[0] != "ins"@[0]);
    assert("delete"@[0] != "insert"@[0]);
    assert("delete"@[0] != "pageup"@[0]);
    assert("delete"@[0] != "escape"@[0]);
    assert("delete"@[0] != "return"@[0]);
    assert("insert"@[0] != "pageup"@[0]);
    assert("insert"@[0] != "escape"@[0]);
    assert("insert"@[0] != "return"@[0]);
    assert("home"@[0] != "down"@[0]);
    assert("home"@[0] != "left"@[0]);
    assert("end"@[0] != "del"@[0]);
    assert("end"@[0] != "ins"@[0]);
    assert("pageup"@[0] != "escape"@[0]);
    assert("pageup"@[0] != "return"@[0]);
    assert("down"@[0] != "left"@[0]);
    assert("right"@[0] != "space"@[0]);
    assert("escape"@[0] != "return"@[0]);
    assert("del"@[0] != "ins"@[0]);
}

proof fn lemma_key_words()
    ensures
        key_of("esc"@) == Some(KeyCode::Esc),
        key_of("enter"@) == Some(KeyCode::Enter),
        key_of("tab"@) == Some(KeyCode::Tab),
        key_of("backtab"@) == Some(KeyCode::BackTab),
        key_of("backspace"@) == Some(KeyCode::Backspace),
        key_of("delete"@) == Some(KeyCode::Delete),
        key_of("insert"@) == Some(KeyCode::Insert),
        key_of("home"@) == Some(KeyCode::Home),
        key_of("end"@) == Some(KeyCode::End),
        key_of("pageup"@) == Some(KeyCode::PageUp),
        key_of("pagedown"@) == Some(KeyCode::PageDown),
        key_of("up"@) == Some(KeyCode::Up),
        key_of("down"@) == Some(KeyCode::Down),
        key_of("left"@) == Some(KeyCode::Left),
        key_of("right"@) == Some(KeyCode::Right),
{
    lemma_words_differ();
    reveal_strlit("esc");
    reveal_strlit("enter");
    reveal_strlit("tab");
    reveal_strlit("backtab");
    reveal_strlit("backspace");
    reveal_strlit("delete");
    reveal_strlit("insert");
    reveal_strlit("home");
    reveal_strlit("end");
    reveal_strlit("pageup");
    reveal_strlit("pagedown");
    reveal_strlit("up");
    reveal_strlit("down");
    reveal_strlit("left");
    reveal_strlit("right");
    reveal_strlit("escape");
    reveal_strlit("return");
    reveal_strlit("space");
    reveal_strlit("del");
    reveal_strlit("ins");
    lemma_small_word("esc"@);
    lemma_small_word("enter"@);
    lemma_small_word("tab"@);
    lemma_small_word("backtab"@);
    lemma_small_word("backspace"@);
    lemma_small_word("delete"@);
    lemma_small_word("insert"@);
    lemma_small_word("home"@);
    lemma_small_word("end"@);
    lemma_small_word("pageup"@);
    lemma_small_word("pagedown"@);
    lemma_small_word("up"@);
    lemma_small_word("down"@);
    lemma_small_word("left"@);
    lemma_small_word("right"@);
}

/// A key that has a word is read by it: the name by which it is shown is the one by which
/// it is configured.
pub proof fn law_keys_are_read_by_their_name(code: KeyCode)
    requires
        has_word(code),
    ensures
        key_of(plain_name(code)) == Some(code),
{
    lemma_key_words();
}

/// The other words name the same keys, and the space bar.
pub proof fn law_keys_have_other_names()
    ensures
        key_of("escape"@) == key_of("esc"@),
        key_of("return"@) == key_of("enter"@),
        key_of("del"@) == key_of("delete"@),
        key_of("ins"@) == key_of("insert"@),
        key_of("space"@) == Some(KeyCode::Char(' ')),
{
    lemma_words_differ();
    reveal_strlit("esc");
    reveal_strlit("enter");
    reveal_strlit("tab");
    reveal_strlit("backtab");
    reveal_strlit("backspace");
    reveal_strlit("delete");
    reveal_strlit("insert");
    reveal_strlit("home");
    reveal_strlit("end");
    reveal_strlit("pageup");
    reveal_strlit("pagedown");
    reveal_strlit("up");
    reveal_strlit("down");
    reveal_strlit("left");
    reveal_strlit("right");
    reveal_strlit("escape");
    reveal_strlit("return");
    reveal_strlit("space");
    reveal_strlit("del");
    reveal_strlit("ins");
    lemma_small_word("escape"@);
    lemma_small_word("return"@);
    lemma_small_word("space"@);
    lemma_small_word("del"@);
    lemma_small_word("ins"@);
    lemma_small_word("esc"@);
    lemma_small_word("enter"@);
    lemma_small_word("delete"@);
    lemma_small_word("insert"@);
}

/// The function keys have a letter and a digit.
pub proof fn law_function_keys_are_read(f: char, n: int)
    requires
        f == 'f' || f == 'F',
        0 <= n <= 9,
    ensures
        key_of(seq![f, (n + 48) as char]) == Some(KeyCode::F(n as u8)),
{
    reveal_strlit("esc");
    reveal_strlit("enter");
    reveal_strlit("tab");
    reveal_strlit("backtab");
    reveal_strlit("backspace");
    reveal_strlit("delete");
    reveal_strlit("insert");
    reveal_strlit("home");
    reveal_strlit("end");
    reveal_strlit("pageup");
    reveal_strlit("pagedown");
    reveal_strlit("up");
    reveal_strlit("down");
    reveal_strlit("left");
    reveal_strlit("right");
    reveal_strlit("escape");
    reveal_strlit("return");
    reveal_strlit("space");
    reveal_strlit("del");
    reveal_strlit("ins");
    let p = seq![f, (n + 48) as char];
    let w = ascii_lower(p);
    assert(w.len() == 2 && w[0] == 'f' && w[1] == (n + 48) as char);
}

/// An event matches a binding exactly where the key is the same and the same modifiers are
/// held, the shift key aside.
pub proof fn law_a_binding_answers_its_key(b: KeyBinding, key: KeyEvent)
    ensures
        b.matched_by(key) <==> b.code == key.code && b.modifiers.control == key.modifiers.control
            && b.modifiers.alt == key.modifiers.alt && b.modifiers.super_key
            == key.modifiers.super_key && b.modifiers.hyper == key.modifiers.hyper
            && b.modifiers.meta == key.modifiers.meta,
{
}

/// A label starts with the marks of the modifiers, each with a hyphen behind it, and ends
/// with the name of the key.
pub proof fn law_labels_start_with_the_modifiers(b: KeyBinding)
    ensures
        b.modifiers.control ==> b.label_spec() == "C"@ + "-"@ + (KeyBinding {
            modifiers: KeyModifiers { control: false, ..b.modifiers },
            ..b
        }).label_spec(),
        !b.modifiers.control && b.modifiers.alt ==> b.label_spec() == "M"@ + "-"@ + (KeyBinding {
            modifiers: KeyModifiers { alt: false, ..b.modifiers },
            ..b
        }).label_spec(),
        !b.modifiers.control && !b.modifiers.alt && b.modifiers.super_key ==> b.label_spec()
            == "Super"@ + "-"@ + (KeyBinding {
            modifiers: KeyModifiers { super_key: false, ..b.modifiers },
            ..b
        }).label_spec(),
        !b.modifiers.control && !b.modifiers.alt && !b.modifiers.super_key ==> b.label_spec() == (
        match b.code {
            KeyCode::Char(c) => if c == ' ' {
                "space"@
            } else {
                seq![c]
            },
            KeyCode::F(n) => "F"@ + decimal(n as nat),
            other => plain_name(other),
        }),
{
    let name = match b.code {
        KeyCode::Char(c) => if c == ' ' {
            "space"@
        } else {
            seq![c]
        },
        KeyCode::F(n) => "F"@ + decimal(n as nat),
        other => plain_name(other),
    };
    let e = Seq::<Seq<char>>::empty();
    let s = if b.modifiers.super_key {
        seq!["Super"@]
    } else {
        e
    };
    let m = if b.modifiers.alt {
        seq!["M"@]
    } else {
        e
    };
    let sep = "-"@;
    law_joining_adds_up(seq!["C"@], (e + m + s).push(name), sep);
    law_joining_adds_up(seq!["M"@], (e + e + s).push(name), sep);
    law_joining_adds_up(seq!["Super"@], (e + e + e).push(name), sep);
    law_joining_adds_up((e + e + e).push(name), e, sep);
    assert((seq!["C"@] + m + s).push(name) =~= seq!["C"@] + (e + m + s).push(name));
    assert((e + seq!["M"@] + s).push(name) =~= seq!["M"@] + (e + e + s).push(name));
    assert((e + e + seq!["Super"@]).push(name) =~= seq!["Super"@] + (e + e + e).push(name));
}

/// The binding that a document asks for under a key.
pub open spec fn asked_for(document: Seq<char>, key: Seq<char>) -> Option<KeyBinding> {
    match toml_str(document, "keybinds"@, key) {
        Some(s) => binding_of(s),
        None => None,
    }
}

/// Whether a row of the help page shows under its name what the document asks for under
/// this name, and the default where it asks for nothing.
pub open spec fn shows_configured(document: Seq<char>, i: int) -> bool {
    let rows = configured(document).listed();
    let d = default_keybinds().listed();
    &&& rows[i].name == d[i].name
    &&& rows[i].desc == d[i].desc
    &&& rows[i].binding == match asked_for(document, rows[i].name) {
        Some(b) => b,
        None => d[i].binding,
    }
    &&& rows[i].is_default <==> rows[i].binding == d[i].binding
}

/// Every row of the help page shows what is configured under its name.
#[verifier::rlimit(60)]
pub proof fn law_the_help_page_lists_what_is_configured(document: Seq<char>, i: int)
    requires
        0 <= i < configured(document).listed().len(),
    ensures
        configured(document).listed().len() == 15,
        shows_configured(document, i),
{
    let rows = configured(document).listed();
    let d = default_keybinds().listed();
    assert(shows_configured(document, 0)) by {
        assert(rows[0].name == "leader"@ && d[0].name == "leader"@);
        assert(rows[0].binding == configured(document).leader);
        assert(d[0].binding == default_keybinds().leader);
    }
    assert(shows_configured(document, 1)) by {
        assert(rows[1].name == "new_goal"@ && d[1].name == "new_goal"@);
        assert(rows[1].binding == configured(document).new_goal);
        assert(d[1].binding == default_keybinds().new_goal);
    }
    assert(shows_configured(document, 2)) by {
        assert(rows[2].name == "show_details"@ && d[2].name == "show_details"@);
        assert(rows[2].binding == configured(document).show_details);
        assert(d[2].binding == default_keybinds().show_details);
    }
    assert(shows_configured(document, 3)) by {
        assert(rows[3].name == "cycle_status"@ && d[3].name == "cycle_status"@);
        assert(rows[3].binding == configured(document).cycle_status);
        assert(d[3].binding == default_keybinds().cycle_status);
    }
    assert(shows_configured(document, 4)) by {
        assert(rows[4].name == "help"@ && d[4].name == "help"@);
        assert(rows[4].binding == configured(document).help);
        assert(d[4].binding == default_keybinds().help);
    }
    assert(shows_configured(document, 5)) by {
        assert(rows[5].name == "plugins"@ && d[5].name == "plugins"@);
        assert(rows[5].binding == configured(document).plugins);
        assert(d[5].binding == default_keybinds().plugins);
    }
    assert(shows_configured(document, 6)) by {
        assert(rows[6].name == "commands"@ && d[6].name == "commands"@);
        assert(rows[6].binding == configured(document).commands);
        assert(d[6].binding == default_keybinds().commands);
    }
    assert(shows_configured(document, 7)) by {
        assert(rows[7].name == "global_config"@ && d[7].name == "global_config"@);
        assert(rows[7].binding == configured(document).global_config);
        assert(d[7].binding == default_keybinds().global_config);
    }
    assert(shows_configured(document, 8)) by {
        assert(rows[8].name == "sync"@ && d[8].name == "sync"@);
        assert(rows[8].binding == configured(document).sync);
        assert(d[8].binding == default_keybinds().sync);
    }
    assert(shows_configured(document, 9)) by {
        assert(rows[9].name == "delete"@ && d[9].name == "delete"@);
        assert(rows[9].binding == configured(document).delete);
        assert(d[9].binding == default_keybinds().delete);
    }
    assert(shows_configured(document, 10)) by {
        assert(rows[10].name == "edit_title"@ && d[10].name == "edit_title"@);
        assert(rows[10].binding == configured(document).edit_title);
        assert(d[10].binding == default_keybinds().edit_title);
    }
    assert(shows_configured(document, 11)) by {
        assert(rows[11].name == "edit_description"@ && d[11].name == "edit_description"@);
        assert(rows[11].binding == configured(document).edit_description);
        assert(d[11].binding == default_keybinds().edit_description);
    }
    assert(shows_configured(document, 12)) by {
        assert(rows[12].name == "toggle_complete"@ && d[12].name == "toggle_complete"@);
        assert(rows[12].binding == configured(document).toggle_complete);
        assert(d[12].binding == default_keybinds().toggle_complete);
    }
    assert(shows_configured(document, 13)) by {
        assert(rows[13].name == "move_goal"@ && d[13].name == "move_goal"@);
        assert(rows[13].binding == configured(document).move_goal);
        assert(d[13].binding == default_keybinds().move_goal);
    }
    assert(shows_configured(document, 14)) by {
        assert(rows[14].name == "sheets"@ && d[14].name == "sheets"@);
        assert(rows[14].binding == configured(document).sheets);
        assert(d[14].binding == default_keybinds().sheets);
    }
}

/// Each binding is the one that the document asks for under its own name; where it asks
/// for none, some have a default key and the others are unbound.
pub proof fn law_bindings_are_configured_by_name(document: Seq<char>)
    ensures
        no_modifiers() == (KeyModifiers {
            shift: false,
            control: false,
            alt: false,
            super_key: false,
            hyper: false,
            meta: false,
        }),
        asked_for(document, "leader"@) is None ==> configured(document).leader == (KeyBinding {
            code: KeyCode::Char('a'),
            modifiers: KeyModifiers { control: true, ..no_modifiers() },
        }),
        asked_for(document, "leader"@) is Some ==> configured(document).leader == asked_for(
            document,
            "leader"@,
        )->0,
        asked_for(document, "edit_description"@) is None ==> configured(document).edit_description
            == (KeyBinding {
            code: KeyCode::Char('E'),
            modifiers: KeyModifiers { shift: true, ..no_modifiers() },
        }),
        asked_for(document, "edit_description"@) is Some ==> configured(document).edit_description
            == asked_for(document, "edit_description"@)->0,
        configured(document).new_goal == (match asked_for(document, "new_goal"@) {
            Some(b) => b,
            None => KeyBinding { code: KeyCode::Char('n'), modifiers: no_modifiers() },
        }),
        configured(document).show_details == (match asked_for(document, "show_details"@) {
            Some(b) => b,
            None => KeyBinding { code: KeyCode::Tab, modifiers: no_modifiers() },
        }),
        configured(document).cycle_status == (match asked_for(document, "cycle_status"@) {
            Some(b) => b,
            None => KeyBinding { code: KeyCode::Tab, modifiers: no_modifiers() },
        }),
        configured(document).help == (match asked_for(document, "help"@) {
            Some(b) => b,
            None => KeyBinding { code: KeyCode::Char('h'), modifiers: no_modifiers() },
        }),
        configured(document).plugins == (match asked_for(document, "plugins"@) {
            Some(b) => b,
            None => KeyBinding { code: KeyCode::Char('p'), modifiers: no_modifiers() },
        }),
        configured(document).run_agent == (match asked_for(document, "run_agent"@) {
            Some(b) => b,
            None => KeyBinding { code: KeyCode::Char('r'), modifiers: no_modifiers() },
        }),
        configured(document).commands == (match asked_for(document, "commands"@) {
            Some(b) => b,
            None => KeyBinding { code: KeyCode::Char(';'), modifiers: no_modifiers() },
        }),
        configured(document).global_config == (match asked_for(document, "global_config"@) {
            Some(b) => b,
            None => KeyBinding { code: KeyCode::Char(','), modifiers: no_modifiers() },
        }),
        configured(document).sync == (match asked_for(document, "sync"@) {
            Some(b) => b,
            None => KeyBinding { code: KeyCode::Char('s'), modifiers: no_modifiers() },
        }),
        configured(document).delete == (match asked_for(document, "delete"@) {
            Some(b) => b,
            None => KeyBinding { code: KeyCode::Char('d'), modifiers: no_modifiers() },
        }),
        configured(document).edit_title == (match asked_for(document, "edit_title"@) {
            Some(b) => b,
            None => KeyBinding { code: KeyCode::Char('e'), modifiers: no_modifiers() },
        }),
        configured(document).toggle_complete == (match asked_for(document, "toggle_complete"@) {
            Some(b) => b,
            None => KeyBinding { code: KeyCode::Char(' '), modifiers: no_modifiers() },
        }),
        configured(document).move_goal == (match asked_for(document, "move_goal"@) {
            Some(b) => b,
            None => KeyBinding { code: KeyCode::Char('m'), modifiers: no_modifiers() },
        }),
        configured(document).sheets == (match asked_for(document, "sheets"@) {
            Some(b) => b,
            None => KeyBinding { code: KeyCode::Char('b'), modifiers: no_modifiers() },
        }),
        configured(document).assign_range == asked_for(document, "assign_range"@),
        configured(document).stats == asked_for(document, "stats"@),
        configured(document).open_result == asked_for(document, "open_result"@),
        configured(document).edit_due == asked_for(document, "edit_due"@),
        configured(document).edit_reminder == asked_for(document, "edit_reminder"@),
        configured(document).edit_repeat == asked_for(document, "edit_repeat"@),
{
}

} // verus!

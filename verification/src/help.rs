//! The help page: the key bindings first, and a tab for each active plugin that
//! ships help.

use crate::app::{least, App};
use crate::goals::within;
use crate::manager::{plugin_rows, rows_installed, Installed};
use crate::text::{
    concat, ends_with, law_a_text_holds_its_parts, opt, repeat, starts_with, times, trim, trimmed,
};
use crate::types::{byte_len, bytes_of, HelpSection, HelpTab, Mode};
use vstd::prelude::*;

verus! {

/// What a tab shows.
pub struct TabView {
    pub title: Seq<char>,
    pub plugin: Option<Seq<char>>,
    pub text: Seq<char>,
}

impl View for HelpTab {
    type V = TabView;

    open spec fn view(&self) -> TabView {
        TabView { title: self.title@, plugin: opt(self.plugin), text: self.text@ }
    }
}

/// What some tabs show.
pub open spec fn tab_views(s: Seq<HelpTab>) -> Seq<TabView> {
    s.map_values(|t: HelpTab| t@)
}

/// A section: its title, a rule as long as the title, and the text.
pub open spec fn section_text(s: HelpSection) -> Seq<char> {
    s.title@ + "\n"@ + times("-"@, least(byte_len(s.title@) as int, 60) as nat) + "\n"@ + trimmed(
        s.text@,
    ) + "\n\n"@
}

/// The sections of a plugin, one behind the other.
pub open spec fn help_text(s: Seq<HelpSection>) -> Seq<char>
    decreases s.len(),
{
    if s.len() == 0 {
        Seq::empty()
    } else {
        help_text(s.drop_last()) + section_text(s.last())
    }
}

/// The tab of the key bindings.
pub open spec fn keybinds_tab() -> TabView {
    TabView { title: "keybinds"@, plugin: None, text: Seq::empty() }
}

/// The tabs of the active plugins that ship help.
pub open spec fn plugin_tabs(s: Seq<Installed>) -> Seq<TabView>
    decreases s.len(),
{
    if s.len() == 0 {
        Seq::empty()
    } else {
        let p = s.last();
        let before = plugin_tabs(s.drop_last());
        if p.row.active && p.manifest is Some && p.manifest->0.help@.len() > 0 {
            before.push(
                TabView {
                    title: p.manifest->0.name@,
                    plugin: Some(p.row.id@),
                    text: help_text(p.manifest->0.help@),
                },
            )
        } else {
            before
        }
    }
}

fn write_section(s: &HelpSection) -> (r: String)
    ensures
        r@ == section_text(*s),
{
    let bytes: usize = bytes_of(s.title.as_str());
    let n: usize = if bytes <= 60 {
        bytes
    } else {
        60
    };
    let a = concat(s.title.as_str(), "\n");
    let b = concat(a.as_str(), repeat("-", n).as_str());
    let c = concat(b.as_str(), "\n");
    let d = concat(c.as_str(), trim(s.text.as_str()).as_str());
    concat(d.as_str(), "\n\n")
}

fn write_help(s: &Vec<HelpSection>) -> (r: String)
    ensures
        r@ == help_text(s@),
{
    let mut out = String::new();
    assert(out@ =~= Seq::empty());
    assert(s@.take(0) =~= Seq::empty());
    for i in 0..s.len()
        invariant
            out@ == help_text(s@.take(i as int)),
    {
        assert(s@.take(i + 1).drop_last() =~= s@.take(i as int));
        out = concat(out.as_str(), write_section(&s[i]).as_str());
    }
    assert(s@.take(s@.len() as int) =~= s@);
    out
}

/// The tabs of the help page.
pub fn help_tabs(installed: &Vec<Installed>) -> (r: Vec<HelpTab>)
    ensures
        tab_views(r@) == seq![keybinds_tab()] + plugin_tabs(installed@),
{
    let mut out: Vec<HelpTab> = Vec::new();
    let text = String::new();
    assert(text@ =~= Seq::empty());
    out.push(HelpTab { title: "keybinds".to_string(), plugin: None, text });
    assert(tab_views(out@) =~= seq![keybinds_tab()] + Seq::empty());
    assert(installed@.take(0) =~= Seq::empty());
    for i in 0..installed.len()
        invariant
            tab_views(out@) == seq![keybinds_tab()] + plugin_tabs(installed@.take(i as int)),
    {
        assert(installed@.take(i + 1).drop_last() =~= installed@.take(i as int));
        let p = &installed[i];
        if p.row.active {
            if let Some(m) = &p.manifest {
                if m.help.len() > 0 {
                    let ghost before = tab_views(out@);
                    let tab = HelpTab {
                        title: m.name.clone(),
                        plugin: Some(p.row.id.clone()),
                        text: write_help(&m.help),
                    };
                    let ghost v = tab@;
                    out.push(tab);
                    assert(tab_views(out@) =~= before.push(v));
                    assert(before.push(v) =~= seq![keybinds_tab()] + plugin_tabs(
                        installed@.take(i + 1),
                    ));
                }
            }
        }
    }
    assert(installed@.take(installed@.len() as int) =~= installed@);
    out
}

/// A position moved by some steps, around a list.
pub open spec fn around(pos: int, delta: int, len: int) -> int {
    (pos + delta) % len
}

/// Moves a position by some steps, around a list.
pub fn step_around(pos: usize, delta: i32, len: usize) -> (r: usize)
    requires
        len > 0,
    ensures
        r == around(pos as int, delta as int, len as int),
        r < len,
{
    let n: i128 = len as i128;
    let p: i128 = pos as i128 + delta as i128;
    if p >= 0 {
        let m: i128 = p % n;
        return m as usize;
    }
    let below: i128 = 0 - p;
    let rest: i128 = below % n;
    proof {
        vstd::arithmetic::div_mod::lemma_fundamental_div_mod(below as int, n as int);
        let q = below as int / n as int;
        assert(below as int == n as int * q + rest as int);
        if rest == 0 {
            assert(p as int == n as int * (-q) + 0) by (nonlinear_arith)
                requires
                    below as int == n as int * q + rest as int,
                    rest == 0,
                    below == 0 - p,
            ;
            vstd::arithmetic::div_mod::lemma_fundamental_div_mod_converse(p as int, n as int, -q, 0);
        } else {
            assert(p as int == n as int * (-q - 1) + (n - rest)) by (nonlinear_arith)
                requires
                    below as int == n as int * q + rest as int,
                    below == 0 - p,
            ;
            vstd::arithmetic::div_mod::lemma_fundamental_div_mod_converse(
                p as int,
                n as int,
                -q - 1,
                n - rest,
            );
        }
    }
    if rest == 0 {
        0
    } else {
        (n - rest) as usize
    }
}

impl App {
    /// Opens the help page for the installed plugins as they were read.
    pub fn open_help(&mut self, installed: &Vec<Installed>)
        requires
            old(self).wf(),
        ensures
            final(self).wf(),
            *final(self) == (App {
                installed_plugins: final(self).installed_plugins,
                plugin_selected: final(self).plugin_selected,
                help_tabs: final(self).help_tabs,
                help_selected: 0,
                help_scroll: 0,
                mode: Mode::Help,
                ..*old(self)
            }),
            final(self).installed_plugins@ == rows_installed(installed@),
            final(self).plugin_selected == within(
                old(self).plugin_selected as int,
                installed@.len() as int,
            ),
            tab_views(final(self).help_tabs@) == seq![keybinds_tab()] + plugin_tabs(installed@),
    {
        self.reload_installed_plugins(plugin_rows(installed));
        self.help_tabs = help_tabs(installed);
        self.help_selected = 0;
        self.help_scroll = 0;
        self.mode = Mode::Help;
    }

    /// Moves to another tab of the help page, around the tabs, at its top.
    pub fn cycle_help_tab(&mut self, delta: i32)
        requires
            old(self).wf(),
        ensures
            final(self).wf(),
            if old(self).help_tabs@.len() == 0 {
                *final(self) == *old(self)
            } else {
                *final(self) == (App {
                    help_selected: final(self).help_selected,
                    help_scroll: 0,
                    ..*old(self)
                }) && final(self).help_selected == around(
                    old(self).help_selected as int,
                    delta as int,
                    old(self).help_tabs@.len() as int,
                )
            },
    {
        if self.help_tabs.len() == 0 {
            return;
        }
        self.help_selected = step_around(self.help_selected, delta, self.help_tabs.len());
        self.help_scroll = 0;
    }
}

/// One tab forward and one back is the tab one came from.
pub proof fn law_tabs_go_around(pos: int, len: int)
    requires
        0 <= pos < len,
    ensures
        around(around(pos, 1, len), -1, len) == pos,
        around(pos, len, len) == pos,
{
    if pos + 1 < len {
        vstd::arithmetic::div_mod::lemma_small_mod((pos + 1) as nat, len as nat);
        vstd::arithmetic::div_mod::lemma_small_mod(pos as nat, len as nat);
    } else {
        vstd::arithmetic::div_mod::lemma_mod_self_0(len);
        vstd::arithmetic::div_mod::lemma_fundamental_div_mod_converse(-1, len, -1, len - 1);
    }
    vstd::arithmetic::div_mod::lemma_mod_add_multiples_vanish(pos, len);
    vstd::arithmetic::div_mod::lemma_small_mod(pos as nat, len as nat);
}

/// One step forward leads to the next entry, from the last to the first, and one step back
/// the other way.
pub proof fn law_steps_lead_to_the_neighbour(pos: int, len: int)
    requires
        0 <= pos < len,
    ensures
        around(pos, 1, len) == if pos == len - 1 {
            0
        } else {
            pos + 1
        },
        around(pos, -1, len) == if pos == 0 {
            len - 1
        } else {
            pos - 1
        },
        around(pos, 0, len) == pos,
{
    assert(around(pos, 1, len) == if pos == len - 1 {
        0
    } else {
        pos + 1
    }) by (nonlinear_arith)
        requires
            0 <= pos < len,
            around(pos, 1, len) == (pos + 1) % len,
    ;
    assert(around(pos, -1, len) == if pos == 0 {
        len - 1
    } else {
        pos - 1
    }) by (nonlinear_arith)
        requires
            0 <= pos < len,
            around(pos, -1, len) == (pos - 1) % len,
    ;
    assert(around(pos, 0, len) == pos) by (nonlinear_arith)
        requires
            0 <= pos < len,
            around(pos, 0, len) == pos % len,
    ;
}

/// Whether a tab is that of an installed plugin: it is active, ships help, and the tab has
/// its name and its id.
pub open spec fn is_tab_of(p: Installed, t: TabView) -> bool {
    &&& p.row.active
    &&& p.manifest is Some
    &&& p.manifest->0.help@.len() > 0
    &&& t.title == p.manifest->0.name@
    &&& t.plugin == Some(p.row.id@)
}

/// The tabs of plugins are those of the active ones that ship help: there is no other tab,
/// and each of them has one.
pub proof fn law_help_is_that_of_active_plugins(s: Seq<Installed>, k: int)
    ensures
        forall|j: int|
            0 <= j < plugin_tabs(s).len() ==> exists|i: int|
                0 <= i < s.len() && is_tab_of(#[trigger] s[i], #[trigger] plugin_tabs(s)[j]),
        0 <= k < s.len() && s[k].row.active && s[k].manifest is Some && s[k].manifest->0.help@.len() > 0
            ==> exists|j: int|
            0 <= j < plugin_tabs(s).len() && is_tab_of(s[k], #[trigger] plugin_tabs(s)[j]),
    decreases s.len(),
{
    if s.len() > 0 {
        let t = s.drop_last();
        law_help_is_that_of_active_plugins(t, k);
        let old = plugin_tabs(t);
        assert forall|j: int| 0 <= j < plugin_tabs(s).len() implies exists|i: int|
            0 <= i < s.len() && is_tab_of(#[trigger] s[i], #[trigger] plugin_tabs(s)[j]) by {
            if j < old.len() {
                assert(plugin_tabs(s)[j] == old[j]);
                let i = choose|i: int| 0 <= i < t.len() && is_tab_of(#[trigger] t[i], old[j]);
                assert(is_tab_of(s[i], plugin_tabs(s)[j]));
            } else {
                assert(is_tab_of(s[s.len() - 1], plugin_tabs(s)[j]));
            }
        }
        if 0 <= k < s.len() && s[k].row.active && s[k].manifest is Some
            && s[k].manifest->0.help@.len() > 0 {
            if k < t.len() {
                assert(t[k] == s[k]);
                let j = choose|j: int|
                    0 <= j < old.len() && is_tab_of(t[k], #[trigger] old[j]);
                assert(plugin_tabs(s)[j] == old[j]);
            } else {
                assert(is_tab_of(s[k], plugin_tabs(s)[plugin_tabs(s).len() - 1]));
            }
        }
    }
}

/// The help of a plugin is its sections in order, each with its title above a rule and its
/// text below it.
pub proof fn law_sections_follow_each_other(s: Seq<HelpSection>, x: HelpSection)
    ensures
        help_text(s.push(x)).len() > help_text(s).len(),
        help_text(s.push(x)).take(help_text(s).len() as int) == help_text(s),
        starts_with(section_text(x), x.title@ + "\n"@),
        ends_with(section_text(x), "\n"@ + trimmed(x.text@) + "\n\n"@),
        help_text(seq![x]) == section_text(x),
{
    assert(s.push(x).drop_last() =~= s);
    let all = help_text(s.push(x));
    assert(all == help_text(s) + section_text(x));
    reveal_strlit("\n");
    reveal_strlit("\n\n");
    let head = x.title@ + "\n"@;
    let rule = times("-"@, least(byte_len(x.title@) as int, 60) as nat);
    let tail = "\n"@ + trimmed(x.text@) + "\n\n"@;
    assert(section_text(x) =~= head + (rule + tail));
    assert(section_text(x) =~= (head + rule) + tail);
    law_a_text_holds_its_parts(Seq::empty(), head, rule + tail);
    law_a_text_holds_its_parts(head + rule, tail, Seq::empty());
    assert(all.take(help_text(s).len() as int) =~= help_text(s));
    let one = seq![x];
    assert(one.drop_last() =~= Seq::empty());
    assert(help_text(one.drop_last()) =~= Seq::empty());
    assert(one.last() == x);
    assert(help_text(one) =~= section_text(x));
}

} // verus!

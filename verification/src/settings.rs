//! The settings forms: that of a plugin and that of the host.

use crate::app::{says, App};
use crate::collections::{value_or_empty, StrMap};
use crate::help::{around, step_around};
use crate::manager::Installed;
use crate::text::{
    concat, is_numeric, join, joined, numeric, opt, opt_or_empty, opt_text, str_eq, texts, trim,
    trimmed,
};
use crate::types::{Manifest, Mode, UiField, UiSpec};
use vstd::prelude::*;

verus! {

/// Whether a field is a choice among options.
pub open spec fn is_choice(f: UiField) -> bool {
    f.kind@ == "select"@ && f.options@.len() > 0
}

/// The selected field of a form.
pub open spec fn field_at(spec: Option<UiSpec>, i: int) -> Option<UiField> {
    match spec {
        Some(s) => if 0 <= i < s.fields@.len() {
            Some(s.fields@[i])
        } else {
            None
        },
        None => None,
    }
}

/// Settings with an initial value for each field of a form that was never saved.
pub open spec fn filled(
    m: Map<Seq<char>, Seq<char>>,
    fields: Seq<UiField>,
    initial: Map<Seq<char>, Seq<char>>,
) -> Map<Seq<char>, Seq<char>>
    decreases fields.len(),
{
    if fields.len() == 0 {
        m
    } else {
        let d = filled(m, fields.drop_last(), initial);
        let k = fields.last().key@;
        if d.contains_key(k) {
            d
        } else {
            d.insert(k, value_or_empty(initial, k))
        }
    }
}

fn fill_values(stored: &StrMap, fields: &Vec<UiField>, initial: &StrMap) -> (r: StrMap)
    ensures
        r@ == filled(stored@, fields@, initial@),
{
    let mut m = stored.copy();
    assert(fields@.take(0) =~= Seq::empty());
    for i in 0..fields.len()
        invariant
            m@ == filled(stored@, fields@.take(i as int), initial@),
    {
        assert(fields@.take(i + 1).drop_last() =~= fields@.take(i as int));
        let k = fields[i].key.as_str();
        if !m.contains_key(k) {
            m.insert(k.to_owned(), initial.get_or_empty(k));
        }
    }
    assert(fields@.take(fields@.len() as int) =~= fields@);
    m
}

/// The form shows a stored value for each field that has one, and every field of
/// the form has a value.
pub proof fn law_stored_values_win(
    m: Map<Seq<char>, Seq<char>>,
    fields: Seq<UiField>,
    initial: Map<Seq<char>, Seq<char>>,
    k: Seq<char>,
)
    ensures
        m.contains_key(k) ==> filled(m, fields, initial).contains_key(k) && filled(
            m,
            fields,
            initial,
        )[k] == m[k],
        forall|i: int|
            0 <= i < fields.len() ==> filled(m, fields, initial).contains_key(
                (#[trigger] fields[i]).key@,
            ),
    decreases fields.len(),
{
    if fields.len() > 0 {
        law_stored_values_win(m, fields.drop_last(), initial, k);
        assert forall|i: int| 0 <= i < fields.len() implies filled(m, fields, initial).contains_key(
            (#[trigger] fields[i]).key@,
        ) by {
            if i < fields.len() - 1 {
                assert(fields.drop_last()[i] == fields[i]);
            }
        }
    }
}

/// A setting that is to be stored.
#[derive(Debug)]
pub struct Setting {
    pub key: String,
    pub value: String,
}

/// The position of an option, or the first.
pub open spec fn option_position(s: Seq<String>, v: Seq<char>, i: int) -> int
    decreases s.len() - i,
{
    if i < 0 || i >= s.len() {
        0
    } else if s[i]@ == v {
        i
    } else {
        option_position(s, v, i + 1)
    }
}

fn find_option(s: &Vec<String>, v: &str) -> (r: usize)
    ensures
        r == option_position(s@, v@, 0),
{
    let mut i: usize = 0;
    while i < s.len()
        invariant
            i <= s@.len(),
            option_position(s@, v@, 0) == option_position(s@, v@, i as int),
        decreases s@.len() - i,
    {
        if str_eq(s[i].as_str(), v) {
            return i;
        }
        i = i + 1;
    }
    0
}

/// Whether a value is among the options.
pub open spec fn is_option(s: Seq<String>, v: Seq<char>) -> bool {
    exists|i: int| 0 <= i < s.len() && (#[trigger] s[i])@ == v
}

fn has_option(s: &Vec<String>, v: &str) -> (r: bool)
    ensures
        r == is_option(s@, v@),
{
    let mut i: usize = 0;
    while i < s.len()
        invariant
            i <= s@.len(),
            forall|k: int| 0 <= k < i ==> (#[trigger] s@[k])@ != v@,
        decreases s@.len() - i,
    {
        if str_eq(s[i].as_str(), v) {
            assert(s@[i as int]@ == v@);
            return true;
        }
        i = i + 1;
    }
    false
}

/// The value that a choice shows: the stored one, else its default.
pub open spec fn shown_value(m: Map<Seq<char>, Seq<char>>, f: UiField) -> Seq<char> {
    if m.contains_key(f.key@) {
        m[f.key@]
    } else {
        opt_or_empty(f.default)
    }
}

/// The value of a choice some steps further, around its options.
pub open spec fn cycled(m: Map<Seq<char>, Seq<char>>, f: UiField, delta: int) -> String {
    f.options@[around(
        option_position(f.options@, shown_value(m, f), 0),
        delta,
        f.options@.len() as int,
    )]
}

/// What is wrong with an entered value, if anything is.
pub open spec fn rejected(f: UiField, v: Seq<char>) -> Option<Seq<char>> {
    if f.required && v.len() == 0 {
        Some("'"@ + f.key@ + "' is required"@)
    } else if f.kind@ == "number"@ && v.len() > 0 && !is_numeric(v) {
        Some("'"@ + f.key@ + "' must be numeric"@)
    } else if f.kind@ == "select"@ && v.len() > 0 && !is_option(f.options@, v) {
        Some("'"@ + f.key@ + "' must be one of: "@ + joined(texts(f.options@), ", "@))
    } else {
        None
    }
}

/// Says what is wrong with an entered value, if anything is.
pub fn check_value(f: &UiField, v: &str) -> (r: Option<String>)
    ensures
        opt(r) == rejected(*f, v@),
{
    let name = concat("'", f.key.as_str());
    if f.required && v.is_empty() {
        return Some(concat(name.as_str(), "' is required"));
    }
    if str_eq(f.kind.as_str(), "number") && !v.is_empty() && !numeric(v) {
        return Some(concat(name.as_str(), "' must be numeric"));
    }
    if str_eq(f.kind.as_str(), "select") && !v.is_empty() && !has_option(&f.options, v) {
        let a = concat(name.as_str(), "' must be one of: ");
        return Some(concat(a.as_str(), join(&f.options, ", ").as_str()));
    }
    None
}

/// A value of a choice is never rejected.
pub proof fn law_cycled_values_are_accepted(m: Map<Seq<char>, Seq<char>>, f: UiField, delta: int)
    requires
        is_choice(f),
        !f.required || cycled(m, f, delta)@.len() > 0,
    ensures
        rejected(f, cycled(m, f, delta)@) is None,
{
    let n = f.options@.len() as int;
    let p = option_position(f.options@, shown_value(m, f), 0);
    let i = around(p, delta, n);
    assert(0 <= i < n) by {
        vstd::arithmetic::div_mod::lemma_mod_bound(p + delta, n);
    }
    assert(f.options@[i]@ == cycled(m, f, delta)@);
    reveal_strlit("number");
    reveal_strlit("select");
    assert("number"@[0] != "select"@[0]);
}

// ---------- the form of the host ----------

/// Whether a form is that of the host: the address and the token of the sync.
pub open spec fn is_host_form(s: UiSpec) -> bool {
    &&& s.fields@.len() == 2
    &&& is_plain_field(s.fields@[0], "turso_url"@, "Turso URL"@, "text"@)
    &&& is_plain_field(s.fields@[1], "turso_token"@, "Turso token"@, "secret"@)
}

/// Whether a field has this key, label and kind, and nothing else.
pub open spec fn is_plain_field(f: UiField, key: Seq<char>, label: Seq<char>, kind: Seq<char>) -> bool {
    &&& f.key@ == key
    &&& f.label@ == label
    &&& f.kind@ == kind
    &&& !f.required
    &&& f.default is None
    &&& f.options@.len() == 0
}

fn plain_field(key: &str, label: &str, kind: &str) -> (r: UiField)
    ensures
        is_plain_field(r, key@, label@, kind@),
{
    UiField {
        key: key.to_owned(),
        label: label.to_owned(),
        kind: kind.to_owned(),
        required: false,
        default: None,
        options: Vec::new(),
    }
}

fn host_form() -> (r: UiSpec)
    ensures
        is_host_form(r),
{
    let mut fields: Vec<UiField> = Vec::new();
    fields.push(plain_field("turso_url", "Turso URL", "text"));
    fields.push(plain_field("turso_token", "Turso token", "secret"));
    UiSpec { fields }
}

/// The entries of the plugins that own a configurator: active ones that are
/// loaded, each with its description.
pub open spec fn configurators(s: Seq<Installed>, loaded: Set<Seq<char>>) -> Seq<(
    Seq<char>,
    Seq<char>,
)>
    decreases s.len(),
{
    if s.len() == 0 {
        Seq::empty()
    } else {
        let p = s.last();
        let before = configurators(s.drop_last(), loaded);
        if p.row.active && loaded.contains(p.row.id@) && p.configures {
            before.push(
                (
                    p.row.id@,
                    match p.manifest {
                        Some(m) => m.description@,
                        None => "configure"@,
                    },
                ),
            )
        } else {
            before
        }
    }
}

/// The address and the token of the sync.
#[derive(Debug)]
pub struct Credentials {
    pub url: String,
    pub token: String,
}

impl App {
    /// Opens the settings of the selected plugin: its own configurator where it has
    /// one, else the form of its manifest. Says whether the plugin is to be called.
    #[verifier::rlimit(60)]
    pub fn open_configure(
        &mut self,
        manifest: Result<Manifest, String>,
        configures: bool,
        problems: &Vec<String>,
        stored: &StrMap,
        initial: &StrMap,
    ) -> (r: bool)
        requires
            old(self).wf(),
        ensures
            final(self).wf(),
            if old(self).plugin_selected >= old(self).installed_plugins@.len() {
                *final(self) == *old(self) && !r
            } else {
                match manifest {
                    Err(e) => *final(self) == (App { message: final(self).message, ..*old(self) })
                        && says(final(self).message, "cannot read manifest: "@ + e@) && !r,
                    Ok(m) => if configures && old(self).plugin_states@.contains(m.name@) {
                        final(self).called(*old(self), m.name@, r)
                    } else {
                        !r && (match m.ui {
                            None => *final(self) == (App {
                                message: final(self).message,
                                ..*old(self)
                            }) && says(final(self).message, "this plugin has nothing to configure"@),
                            Some(form) => if problems@.len() > 0 {
                                *final(self) == (App { message: final(self).message, ..*old(self) })
                                    && says(
                                    final(self).message,
                                    "bad plugin [ui]: "@ + problems@[0]@,
                                )
                            } else {
                                *final(self) == (App {
                                    config_spec: Some(form),
                                    config_values: final(self).config_values,
                                    config_selected: 0,
                                    config_editing: None,
                                    mode: (Mode::PluginConfigure {
                                        plugin: old(
                                            self,
                                        ).installed_plugins@[old(self).plugin_selected as int].id,
                                    }),
                                    ..*old(self)
                                }) && final(self).config_values@ == filled(
                                    stored@,
                                    form.fields@,
                                    initial@,
                                )
                            },
                        })
                    },
                }
            },
    {
        let plugin = match self.selected_plugin() {
            Some(p) => p.id.clone(),
            None => {
                return false;
            },
        };
        let m = match manifest {
            Ok(m) => m,
            Err(e) => {
                let text = concat("cannot read manifest: ", e.as_str());
                self.set_message(text.as_str());
                return false;
            },
        };
        if configures && self.plugin_states.contains(m.name.as_str()) {
            return self.spawn_plugin_call(m.name.as_str());
        }
        let form = match m.ui {
            Some(form) => form,
            None => {
                self.set_message("this plugin has nothing to configure");
                return false;
            },
        };
        if problems.len() > 0 {
            let text = concat("bad plugin [ui]: ", problems[0].as_str());
            self.set_message(text.as_str());
            return false;
        }
        self.config_values = fill_values(stored, &form.fields, initial);
        self.config_spec = Some(form);
        self.config_selected = 0;
        self.config_editing = None;
        self.mode = Mode::PluginConfigure { plugin };
        false
    }

    /// Opens the settings of the host, with the credentials as they were read.
    pub fn open_global_config(
        &mut self,
        installed: &Vec<Installed>,
        url: &Option<String>,
        token: &Option<String>,
    )
        requires
            old(self).wf(),
        ensures
            final(self).wf(),
            *final(self) == (App {
                global_spec: final(self).global_spec,
                global_values: final(self).global_values,
                global_plugin_entries: final(self).global_plugin_entries,
                config_selected: 0,
                config_editing: None,
                mode: Mode::GlobalConfig,
                ..*old(self)
            }),
            final(self).global_spec is Some && is_host_form(final(self).global_spec->0),
            final(self).global_values@ == Map::<Seq<char>, Seq<char>>::empty().insert(
                "turso_url"@,
                opt_or_empty(*url),
            ).insert("turso_token"@, opt_or_empty(*token)),
            crate::db::pair_views(final(self).global_plugin_entries@) == configurators(
                installed@,
                old(self).plugin_states@,
            ),
    {
        let mut values = StrMap::new();
        values.insert("turso_url".to_string(), opt_text(url));
        values.insert("turso_token".to_string(), opt_text(token));
        let mut entries: Vec<(String, String)> = Vec::new();
        assert(crate::db::pair_views(entries@) =~= Seq::empty());
        assert(installed@.take(0) =~= Seq::empty());
        for i in 0..installed.len()
            invariant
                crate::db::pair_views(entries@) == configurators(
                    installed@.take(i as int),
                    self.plugin_states@,
                ),
                *self == *old(self),
        {
            assert(installed@.take(i + 1).drop_last() =~= installed@.take(i as int));
            let p = &installed[i];
            if p.row.active && self.plugin_states.contains(p.row.id.as_str()) && p.configures {
                let desc = match &p.manifest {
                    Some(m) => m.description.clone(),
                    None => "configure".to_string(),
                };
                let ghost before = crate::db::pair_views(entries@);
                let ghost v = (p.row.id@, desc@);
                entries.push((p.row.id.clone(), desc));
                assert(crate::db::pair_views(entries@) =~= before.push(v));
            }
        }
        assert(installed@.take(installed@.len() as int) =~= installed@);
        self.global_plugin_entries = entries;
        self.global_spec = Some(host_form());
        self.global_values = values;
        self.config_selected = 0;
        self.config_editing = None;
        self.mode = Mode::GlobalConfig;
    }

    /// The rows of the settings of the host: its fields, the plugins, and the row
    /// that deletes all data.
    pub open spec fn global_rows(&self) -> int {
        (match self.global_spec {
            Some(s) => s.fields@.len() as int,
            None => 0,
        }) + self.global_plugin_entries@.len() + 1
    }

    /// The number of rows of the settings of the host.
    pub fn global_row_count(&self) -> (r: usize)
        requires
            self.global_rows() <= usize::MAX,
        ensures
            r == self.global_rows(),
    {
        let n: usize = match &self.global_spec {
            Some(s) => s.fields.len(),
            None => 0,
        };
        n + self.global_plugin_entries.len() + 1
    }

    /// The settings of the host with the entered value.
    pub open spec fn entered_globals(&self, f: UiField) -> Map<Seq<char>, Seq<char>> {
        self.global_values@.insert(f.key@, trimmed(opt_or_empty(self.config_editing)))
    }

    /// Ends the input of a field of the host: gives the credentials that are to be
    /// written. Address and token are set both or neither.
    pub fn commit_global_field(&mut self) -> (r: Option<Credentials>)
        requires
            old(self).wf(),
        ensures
            final(self).wf(),
            match field_at(old(self).global_spec, old(self).config_selected as int) {
                Some(f) => if old(self).config_editing is None {
                    *final(self) == *old(self) && r is None
                } else {
                    let m = old(self).entered_globals(f);
                    let url = value_or_empty(m, "turso_url"@);
                    let token = value_or_empty(m, "turso_token"@);
                    &&& final(self).global_values@ == m
                    &&& if url.len() == 0 && token.len() == 0 {
                        *final(self) == (App {
                            global_values: final(self).global_values,
                            message: final(self).message,
                            config_editing: None,
                            ..*old(self)
                        }) && says(final(self).message, "saved (local-only mode)"@) && r is None
                    } else if url.len() == 0 || token.len() == 0 {
                        *final(self) == (App {
                            global_values: final(self).global_values,
                            message: final(self).message,
                            ..*old(self)
                        }) && says(
                            final(self).message,
                            "turso url and token must both be set (or both empty for local-only)"@,
                        ) && r is None
                    } else {
                        *final(self) == (App {
                            global_values: final(self).global_values,
                            ..*old(self)
                        }) && r is Some && r->0.url@ == url && r->0.token@ == token
                    }
                },
                None => *final(self) == *old(self) && r is None,
            },
    {
        let key = match &self.global_spec {
            Some(s) => {
                if self.config_selected < s.fields.len() {
                    s.fields[self.config_selected].key.clone()
                } else {
                    return None;
                }
            },
            None => {
                return None;
            },
        };
        let value = match &self.config_editing {
            Some(buf) => trim(buf.as_str()),
            None => {
                return None;
            },
        };
        self.global_values.insert(key, value);
        let url = self.global_values.get_or_empty("turso_url");
        let token = self.global_values.get_or_empty("turso_token");
        if url.as_str().is_empty() != token.as_str().is_empty() {
            self.set_message("turso url and token must both be set (or both empty for local-only)");
            return None;
        }
        if !url.as_str().is_empty() {
            return Some(Credentials { url, token });
        }
        self.set_message("saved (local-only mode)");
        self.config_editing = None;
        None
    }

    /// After the credentials were written.
    pub fn credentials_saved(&mut self)
        requires
            old(self).wf(),
        ensures
            final(self).wf(),
            *final(self) == (App {
                message: final(self).message,
                config_editing: None,
                ..*old(self)
            }),
            says(final(self).message, "saved — restart to apply sync"@),
    {
        self.set_message("saved — restart to apply sync");
        self.config_editing = None;
    }

    /// The next value of the selected choice, some steps further around its
    /// options: it is to be stored.
    pub fn cycle_config_field(&self, delta: i32) -> (r: Option<Setting>)
        ensures
            match field_at(self.config_spec, self.config_selected as int) {
                Some(f) => if is_choice(f) {
                    r is Some && r->0.key == f.key && r->0.value == cycled(
                        self.config_values@,
                        f,
                        delta as int,
                    )
                } else {
                    r is None
                },
                None => r is None,
            },
    {
        match &self.config_spec {
            Some(s) => {
                if self.config_selected >= s.fields.len() {
                    return None;
                }
                let f = &s.fields[self.config_selected];
                if !str_eq(f.kind.as_str(), "select") || f.options.len() == 0 {
                    return None;
                }
                let current = match self.config_values.get(f.key.as_str()) {
                    Some(v) => v.clone(),
                    None => opt_text(&f.default),
                };
                let i: usize = find_option(&f.options, current.as_str());
                let next: usize = step_around(i, delta, f.options.len());
                Some(Setting { key: f.key.clone(), value: f.options[next].clone() })
            },
            None => None,
        }
    }

    /// After the next value of a choice was stored.
    pub fn config_cycled(&mut self, s: &Setting)
        requires
            old(self).wf(),
        ensures
            final(self).wf(),
            *final(self) == (App {
                config_values: final(self).config_values,
                message: final(self).message,
                ..*old(self)
            }),
            final(self).config_values@ == old(self).config_values@.insert(s.key@, s.value@),
            says(final(self).message, s.key@ + " = "@ + s.value@),
    {
        self.config_values.insert(s.key.clone(), s.value.clone());
        let text = concat(concat(s.key.as_str(), " = ").as_str(), s.value.as_str());
        self.set_message(text.as_str());
    }

    /// Whether the selected field is a choice.
    pub fn config_selected_is_select(&self) -> (r: bool)
        ensures
            r == (match field_at(self.config_spec, self.config_selected as int) {
                Some(f) => is_choice(f),
                None => false,
            }),
    {
        match &self.config_spec {
            Some(s) => {
                if self.config_selected < s.fields.len() {
                    let f = &s.fields[self.config_selected];
                    str_eq(f.kind.as_str(), "select") && f.options.len() > 0
                } else {
                    false
                }
            },
            None => false,
        }
    }

    /// Ends the input of a field of a plugin: gives the setting that is to be
    /// stored, unless the value is rejected.
    pub fn commit_config_field(&mut self) -> (r: Option<Setting>)
        requires
            old(self).wf(),
        ensures
            final(self).wf(),
            match field_at(old(self).config_spec, old(self).config_selected as int) {
                Some(f) => if old(self).config_editing is None {
                    *final(self) == *old(self) && r is None
                } else {
                    let v = trimmed(opt_or_empty(old(self).config_editing));
                    match rejected(f, v) {
                        Some(why) => *final(self) == (App {
                            message: final(self).message,
                            ..*old(self)
                        }) && says(final(self).message, why) && r is None,
                        None => *final(self) == *old(self) && r is Some && r->0.key == f.key
                            && r->0.value@ == v,
                    }
                },
                None => *final(self) == *old(self) && r is None,
            },
    {
        let value = match &self.config_editing {
            Some(buf) => trim(buf.as_str()),
            None => {
                return None;
            },
        };
        let (key, problem) = match &self.config_spec {
            Some(s) => {
                if self.config_selected >= s.fields.len() {
                    return None;
                }
                let f = &s.fields[self.config_selected];
                (f.key.clone(), check_value(f, value.as_str()))
            },
            None => {
                return None;
            },
        };
        match problem {
            Some(why) => {
                self.set_message(why.as_str());
                None
            },
            None => Some(Setting { key, value }),
        }
    }

    /// After a setting was stored: the next field is selected.
    pub fn config_saved(&mut self, s: &Setting)
        requires
            old(self).wf(),
        ensures
            final(self).wf(),
            *final(self) == (App {
                config_values: final(self).config_values,
                config_editing: None,
                config_selected: final(self).config_selected,
                message: final(self).message,
                ..*old(self)
            }),
            final(self).config_values@ == old(self).config_values@.insert(s.key@, s.value@),
            final(self).config_selected == (match old(self).config_spec {
                Some(form) => if old(self).config_selected + 1 < form.fields@.len() {
                    old(self).config_selected + 1
                } else {
                    old(self).config_selected as int
                },
                None => old(self).config_selected as int,
            }),
            says(final(self).message, "saved"@),
    {
        self.config_values.insert(s.key.clone(), s.value.clone());
        self.config_editing = None;
        let n: usize = match &self.config_spec {
            Some(form) => form.fields.len(),
            None => 0,
        };
        if n > 0 && self.config_selected < n - 1 {
            self.config_selected = self.config_selected + 1;
        }
        self.set_message("saved");
    }
}

/// A field that was never saved shows its initial value, and the empty one where it has
/// none; nothing but the fields of the form is added.
pub proof fn law_unsaved_fields_show_their_initial_value(
    m: Map<Seq<char>, Seq<char>>,
    fields: Seq<UiField>,
    initial: Map<Seq<char>, Seq<char>>,
    k: Seq<char>,
)
    ensures
        !m.contains_key(k) && filled(m, fields, initial).contains_key(k) ==> filled(
            m,
            fields,
            initial,
        )[k] == if initial.contains_key(k) {
            initial[k]
        } else {
            Seq::empty()
        },
        filled(m, fields, initial).contains_key(k) ==> m.contains_key(k) || exists|i: int|
            0 <= i < fields.len() && (#[trigger] fields[i]).key@ == k,
    decreases fields.len(),
{
    if fields.len() > 0 {
        let t = fields.drop_last();
        law_unsaved_fields_show_their_initial_value(m, t, initial, k);
        if filled(m, t, initial).contains_key(k) && !m.contains_key(k) {
            let i = choose|i: int| 0 <= i < t.len() && (#[trigger] t[i]).key@ == k;
            assert(fields[i].key@ == k);
        }
        assert(fields[fields.len() - 1] == fields.last());
    }
}

proof fn lemma_option_position(s: Seq<String>, v: Seq<char>, k: int, i: int)
    requires
        0 <= i <= k < s.len(),
        s[k]@ == v,
        forall|j: int| 0 <= j < k ==> (#[trigger] s[j])@ != v,
    ensures
        option_position(s, v, i) == k,
    decreases k - i,
{
    if i < k {
        lemma_option_position(s, v, k, i + 1);
    }
}

/// A choice that shows one of its options goes on to the next one, and from the last to
/// the first; back, it goes the other way.
pub proof fn law_choices_go_round(m: Map<Seq<char>, Seq<char>>, f: UiField, k: int)
    requires
        0 <= k < f.options@.len(),
        f.options@[k]@ == (if m.contains_key(f.key@) {
            m[f.key@]
        } else {
            opt_or_empty(f.default)
        }),
        forall|j: int| 0 <= j < k ==> (#[trigger] f.options@[j])@ != f.options@[k]@,
    ensures
        cycled(m, f, 1) == f.options@[if k == f.options@.len() - 1 {
            0
        } else {
            k + 1
        }],
        cycled(m, f, -1) == f.options@[if k == 0 {
            f.options@.len() - 1
        } else {
            k - 1
        }],
{
    lemma_option_position(f.options@, f.options@[k]@, k, 0);
    crate::help::law_steps_lead_to_the_neighbour(k, f.options@.len() as int);
}

/// A value is rejected exactly where it is missing though required, is no number where one
/// is wanted, or is none of the options; an empty one that is not required is accepted.
pub proof fn law_only_wrong_values_are_rejected(f: UiField, v: Seq<char>)
    ensures
        rejected(f, v) is Some <==> (f.required && v.len() == 0) || (f.kind@ == "number"@ && v.len()
            > 0 && !is_numeric(v)) || (f.kind@ == "select"@ && v.len() > 0 && !(exists|i: int|
            0 <= i < f.options@.len() && (#[trigger] f.options@[i])@ == v)),
{
}

/// The form of the host asks for the address and for the token, and hides the token.
pub proof fn law_the_token_is_a_secret(s: UiSpec)
    requires
        is_host_form(s),
    ensures
        s.fields@.len() == 2,
        s.fields@[0].key@ == "turso_url"@ && s.fields@[0].kind@ == "text"@,
        s.fields@[1].key@ == "turso_token"@ && s.fields@[1].kind@ == "secret"@,
{
}

/// The plugins on the settings page are the active ones that are loaded and own a
/// configurator, each under its id: no other is there, and none of them is missing.
pub proof fn law_configurators_are_of_loaded_plugins(
    s: Seq<Installed>,
    loaded: Set<Seq<char>>,
    id: Seq<char>,
)
    ensures
        (exists|j: int|
            0 <= j < configurators(s, loaded).len() && (#[trigger] configurators(s, loaded)[j]).0 == id)
            <==> exists|i: int|
            0 <= i < s.len() && (#[trigger] s[i]).row.active && loaded.contains(s[i].row.id@)
                && s[i].configures && s[i].row.id@ == id,
    decreases s.len(),
{
    if s.len() > 0 {
        let t = s.drop_last();
        let p = s.last();
        law_configurators_are_of_loaded_plugins(t, loaded, id);
        let old = configurators(t, loaded);
        let all = configurators(s, loaded);
        assert(forall|i: int| 0 <= i < t.len() ==> t[i] == #[trigger] s[i]);
        if exists|j: int| 0 <= j < all.len() && (#[trigger] all[j]).0 == id {
            let j = choose|j: int| 0 <= j < all.len() && (#[trigger] all[j]).0 == id;
            if j < old.len() {
                assert(old[j].0 == id);
                let i = choose|i: int|
                    0 <= i < t.len() && (#[trigger] t[i]).row.active && loaded.contains(t[i].row.id@)
                        && t[i].configures && t[i].row.id@ == id;
                assert(s[i].row.active);
            } else {
                assert(s[s.len() - 1].row.active);
            }
        }
        if exists|i: int|
            0 <= i < s.len() && (#[trigger] s[i]).row.active && loaded.contains(s[i].row.id@)
                && s[i].configures && s[i].row.id@ == id {
            let i = choose|i: int|
                0 <= i < s.len() && (#[trigger] s[i]).row.active && loaded.contains(s[i].row.id@)
                    && s[i].configures && s[i].row.id@ == id;
            if i < t.len() {
                assert(t[i].row.active);
                let j = choose|j: int| 0 <= j < old.len() && (#[trigger] old[j]).0 == id;
                assert(all[j].0 == id);
            } else {
                assert(all[all.len() - 1].0 == id);
            }
        }
    }
}

/// The settings page has a row for each field and each plugin, and one more.
pub proof fn law_the_page_has_a_row_for_each_entry(a: App)
    ensures
        a.global_spec is Some ==> a.global_rows() == a.global_spec->0.fields@.len()
            + a.global_plugin_entries@.len() + 1,
        a.global_spec is None ==> a.global_rows() == a.global_plugin_entries@.len() + 1,
{
}

/// An entered value replaces that of its field, without the white space around it, and no
/// other.
pub proof fn law_entered_values_replace_their_own(a: App, f: UiField, text: Seq<char>, k: Seq<char>)
    requires
        opt(a.config_editing) == Some(text),
    ensures
        a.entered_globals(f).contains_key(f.key@) && a.entered_globals(f)[f.key@] == trimmed(text),
        k != f.key@ ==> (a.entered_globals(f).contains_key(k) <==> a.global_values@.contains_key(k)),
        k != f.key@ && a.global_values@.contains_key(k) ==> a.entered_globals(f)[k]
            == a.global_values@[k],
{
}

/// A choice shows its stored value, and its default before one is stored; the selected
/// field is the one at the selection.
pub proof fn law_stored_choices_are_shown(m: Map<Seq<char>, Seq<char>>, f: UiField, s: UiSpec, i: int)
    ensures
        m.contains_key(f.key@) ==> shown_value(m, f) == m[f.key@],
        !m.contains_key(f.key@) && f.default is Some ==> shown_value(m, f) == f.default->0@,
        !m.contains_key(f.key@) && f.default is None ==> shown_value(m, f).len() == 0,
        0 <= i < s.fields@.len() ==> field_at(Some(s), i) == Some(s.fields@[i]),
        i >= s.fields@.len() ==> field_at(Some(s), i) is None,
        field_at(None, i) is None,
{
}

/// Whether an entry of the settings page is that of an installed plugin: its id, and its
/// description or a plain word where its manifest cannot be read.
pub open spec fn is_entry_of(p: Installed, e: (Seq<char>, Seq<char>)) -> bool {
    &&& e.0 == p.row.id@
    &&& p.manifest is Some ==> e.1 == p.manifest->0.description@
    &&& p.manifest is None ==> e.1 == "configure"@
}

/// Every plugin on the settings page is shown with its own description.
pub proof fn law_configurators_are_described(s: Seq<Installed>, loaded: Set<Seq<char>>, j: int)
    requires
        0 <= j < configurators(s, loaded).len(),
    ensures
        exists|i: int|
            0 <= i < s.len() && #[trigger] is_entry_of(s[i], configurators(s, loaded)[j]),
    decreases s.len(),
{
    let t = s.drop_last();
    let old = configurators(t, loaded);
    let e = configurators(s, loaded)[j];
    if j < old.len() {
        law_configurators_are_described(t, loaded, j);
        let i = choose|i: int| 0 <= i < t.len() && #[trigger] is_entry_of(t[i], old[j]);
        assert(is_entry_of(s[i], e));
    } else {
        assert(is_entry_of(s[s.len() - 1], e));
    }
}

} // verus!

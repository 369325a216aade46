//! Live style overrides: the session's own, and those waiting to be stored.

use crate::collections::StrMap;
use crate::db::{
    clear_all_style_overrides, clear_style_override, set_style_override, setting_key, stmt,
    Statement, Stmt, Val,
};
use crate::text::opt;
use vstd::prelude::*;

verus! {

/// A change to the stored overrides that waits to be written.
#[derive(Debug)]
pub enum PendingStyle {
    SetVar { var: String, hex: String },
    Clear { var: String },
    ClearAll,
}

/// What a waiting change does.
pub enum StyleOp {
    SetVar { var: Seq<char>, hex: Seq<char> },
    Clear { var: Seq<char> },
    ClearAll,
}

impl View for PendingStyle {
    type V = StyleOp;

    open spec fn view(&self) -> StyleOp {
        match self {
            PendingStyle::SetVar { var, hex } => StyleOp::SetVar { var: var@, hex: hex@ },
            PendingStyle::Clear { var } => StyleOp::Clear { var: var@ },
            PendingStyle::ClearAll => StyleOp::ClearAll,
        }
    }
}

/// What some waiting changes do.
pub open spec fn ops(s: Seq<PendingStyle>) -> Seq<StyleOp> {
    s.map_values(|p: PendingStyle| p@)
}

/// What writes a waiting change.
pub open spec fn style_statement(op: StyleOp) -> Stmt {
    match op {
        StyleOp::SetVar { var, hex } => stmt(
            "INSERT INTO settings (key, value) VALUES (?, ?) ON CONFLICT(key) DO UPDATE SET value = excluded.value"@,
        ).with(Val::Text(setting_key("style"@, var))).with(Val::Text(hex)),
        StyleOp::Clear { var } => stmt("DELETE FROM settings WHERE key = ?"@).with(
            Val::Text(setting_key("style"@, var)),
        ),
        StyleOp::ClearAll => stmt("DELETE FROM settings WHERE key LIKE 'style.%'"@),
    }
}

/// What some statements are.
pub open spec fn statement_views(s: Seq<Statement>) -> Seq<Stmt> {
    s.map_values(|x: Statement| x@)
}

/// The style overrides of the session and the changes that wait to be stored.
pub struct StyleBridge {
    session: StrMap,
    pending: Vec<PendingStyle>,
    dirty: bool,
}

/// The state of the style overrides.
pub struct StyleView {
    pub session: Map<Seq<char>, Seq<char>>,
    pub pending: Seq<StyleOp>,
    pub dirty: bool,
}

impl View for StyleBridge {
    type V = StyleView;

    closed spec fn view(&self) -> StyleView {
        StyleView { session: self.session@, pending: ops(self.pending@), dirty: self.dirty }
    }
}

impl StyleBridge {
    /// No override, nothing waiting, nothing changed.
    pub fn new() -> (r: StyleBridge)
        ensures
            r@ == (StyleView { session: Map::empty(), pending: Seq::empty(), dirty: false }),
    {
        let r = StyleBridge { session: StrMap::new(), pending: Vec::new(), dirty: false };
        assert(r@.pending =~= Seq::empty());
        r
    }

    /// The overrides of the session.
    pub fn session_snapshot(&self) -> (r: StrMap)
        ensures
            r@ == self@.session,
    {
        self.session.copy()
    }

    /// Whether something changed since the last `clear_dirty`.
    pub fn dirty(&self) -> (r: bool)
        ensures
            r == self@.dirty,
    {
        self.dirty
    }

    /// Marks the changes as seen.
    pub fn clear_dirty(&mut self)
        ensures
            final(self)@ == (StyleView { dirty: false, ..old(self)@ }),
    {
        self.dirty = false;
    }

    /// Takes the changes that wait to be stored, in the order they came.
    pub fn drain_pending(&mut self) -> (r: Vec<PendingStyle>)
        ensures
            ops(r@) == old(self)@.pending,
            final(self)@ == (StyleView { pending: Seq::empty(), ..old(self)@ }),
    {
        let mut out: Vec<PendingStyle> = Vec::new();
        std::mem::swap(&mut out, &mut self.pending);
        assert(self@.pending =~= Seq::empty());
        out
    }

    /// What writes the changes that wait, in the order they came; `None` where
    /// nothing changed. Once they are written and the colors found anew, the
    /// changes are marked as seen.
    pub fn apply_style_updates(&mut self) -> (r: Option<Vec<Statement>>)
        ensures
            match r {
                Some(list) => old(self)@.dirty && statement_views(list@) == old(
                    self,
                )@.pending.map_values(|op: StyleOp| style_statement(op)) && final(self)@ == (
                StyleView { pending: Seq::empty(), ..old(self)@ }),
                None => !old(self)@.dirty && final(self)@ == old(self)@,
            },
    {
        if !self.dirty {
            return None;
        }
        let pending = self.drain_pending();
        let ghost all = ops(pending@);
        let ghost f = |op: StyleOp| style_statement(op);
        let mut out: Vec<Statement> = Vec::new();
        for i in 0..pending.len()
            invariant
                all == ops(pending@),
                f == (|op: StyleOp| style_statement(op)),
                statement_views(out@) =~= all.take(i as int).map_values(f),
        {
            let ghost before = statement_views(out@);
            assert(all[i as int] == pending@[i as int]@);
            let s = match &pending[i] {
                PendingStyle::SetVar { var, hex } => set_style_override(var.as_str(), hex.as_str()),
                PendingStyle::Clear { var } => clear_style_override(var.as_str()),
                PendingStyle::ClearAll => clear_all_style_overrides(),
            };
            let ghost v = s@;
            out.push(s);
            assert(statement_views(out@) =~= before.push(v));
            assert(all.take(i + 1).map_values(f) =~= all.take(i as int).map_values(f).push(v));
        }
        assert(all.take(pending@.len() as int) =~= all);
        Some(out)
    }

    fn mark_dirty(&mut self)
        ensures
            final(self)@ == (StyleView { dirty: true, ..old(self)@ }),
    {
        self.dirty = true;
    }

    fn queue(&mut self, op: PendingStyle)
        ensures
            final(self)@ == (StyleView {
                pending: old(self)@.pending.push(op@),
                ..old(self)@
            }),
    {
        self.pending.push(op);
        assert(self@.pending =~= old(self)@.pending.push(op@));
    }

    /// Sets a variable: for the session at once, persistently by a change that
    /// waits to be stored.
    pub fn set(&mut self, persistent: bool, var: &str, hex: &str)
        ensures
            final(self)@ == (if persistent {
                StyleView {
                    pending: old(self)@.pending.push(StyleOp::SetVar { var: var@, hex: hex@ }),
                    dirty: true,
                    ..old(self)@
                }
            } else {
                StyleView {
                    session: old(self)@.session.insert(var@, hex@),
                    dirty: true,
                    ..old(self)@
                }
            }),
    {
        if persistent {
            self.queue(PendingStyle::SetVar { var: var.to_owned(), hex: hex.to_owned() });
        } else {
            self.session.insert(var.to_owned(), hex.to_owned());
        }
        self.mark_dirty();
    }

    /// Clears a variable.
    pub fn clear(&mut self, persistent: bool, var: &str)
        ensures
            final(self)@ == (if persistent {
                StyleView {
                    pending: old(self)@.pending.push(StyleOp::Clear { var: var@ }),
                    dirty: true,
                    ..old(self)@
                }
            } else {
                StyleView { session: old(self)@.session.remove(var@), dirty: true, ..old(self)@ }
            }),
    {
        if persistent {
            self.queue(PendingStyle::Clear { var: var.to_owned() });
        } else {
            self.session.remove(var);
        }
        self.mark_dirty();
    }

    /// Clears all variables.
    pub fn clear_all(&mut self, persistent: bool)
        ensures
            final(self)@ == (if persistent {
                StyleView {
                    pending: old(self)@.pending.push(StyleOp::ClearAll),
                    dirty: true,
                    ..old(self)@
                }
            } else {
                StyleView { session: Map::empty(), dirty: true, ..old(self)@ }
            }),
    {
        if persistent {
            self.queue(PendingStyle::ClearAll);
        } else {
            self.session = StrMap::new();
        }
        self.mark_dirty();
    }

    /// The override of the session for a variable. Stored overrides are not seen
    /// here.
    pub fn resolved(&self, var: &str) -> (r: Option<String>)
        ensures
            opt(r) == (if self@.session.contains_key(var@) {
                Some(self@.session[var@])
            } else {
                None
            }),
    {
        match self.session.get(var) {
            Some(v) => Some(v.clone()),
            None => None,
        }
    }
}

impl Default for StyleBridge {
    fn default() -> (r: StyleBridge)
        ensures
            r@ == (StyleView { session: Map::empty(), pending: Seq::empty(), dirty: false }),
    {
        StyleBridge::new()
    }
}

/// A change of a style variable is written to the key under which it is read, and to no
/// other.
pub proof fn law_style_changes_reach_their_key(var: Seq<char>, hex: Seq<char>)
    ensures
        style_statement(StyleOp::SetVar { var, hex }).params == seq![
            Val::Text("style."@ + var),
            Val::Text(hex),
        ],
        style_statement(StyleOp::Clear { var }).params == seq![Val::Text("style."@ + var)],
        style_statement(StyleOp::ClearAll).params.len() == 0,
        crate::text::starts_with(style_statement(StyleOp::Clear { var }).sql, "DELETE FROM settings"@),
        crate::text::starts_with(style_statement(StyleOp::ClearAll).sql, "DELETE FROM settings"@),
        crate::text::starts_with(
            style_statement(StyleOp::SetVar { var, hex }).sql,
            "INSERT INTO settings (key, value) VALUES (?, ?)"@,
        ),
{
    reveal_strlit("style");
    reveal_strlit(".");
    reveal_strlit("style.");
    assert("style"@ + "."@ =~= "style."@);
    assert(setting_key("style"@, var) =~= "style."@ + var);
    assert(style_statement(StyleOp::SetVar { var, hex }).params =~= seq![
        Val::Text("style."@ + var),
        Val::Text(hex),
    ]);
    assert(style_statement(StyleOp::Clear { var }).params =~= seq![Val::Text("style."@ + var)]);
    reveal_strlit("DELETE FROM settings");
    reveal_strlit("DELETE FROM settings WHERE key = ?");
    reveal_strlit("DELETE FROM settings WHERE key LIKE 'style.%'");
    reveal_strlit("INSERT INTO settings (key, value) VALUES (?, ?)");
    reveal_strlit(
        "INSERT INTO settings (key, value) VALUES (?, ?) ON CONFLICT(key) DO UPDATE SET value = excluded.value",
    );
    let n = "DELETE FROM settings"@.len() as int;
    assert("DELETE FROM settings WHERE key = ?"@.take(n) =~= "DELETE FROM settings"@);
    assert("DELETE FROM settings WHERE key LIKE 'style.%'"@.take(n) =~= "DELETE FROM settings"@);
    let k = "INSERT INTO settings (key, value) VALUES (?, ?)"@.len() as int;
    assert("INSERT INTO settings (key, value) VALUES (?, ?) ON CONFLICT(key) DO UPDATE SET value = excluded.value"@.take(
    k) =~= "INSERT INTO settings (key, value) VALUES (?, ?)"@);
}

} // verus!

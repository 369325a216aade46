//! Goal sheets: they part the goals by work or project.

use crate::app::{least, says, App};
use crate::buffers::sorted_ids;
use crate::db::{create_sheet, delete_sheet, orphan_goals, stmt, Statement, Stmt, Val};
use crate::schema::{Goal, GoalSheet};
use crate::text::{
    concat, joined, opt, opt_clone, opt_is, str_eq, texts, trim, trimmed,
};
use crate::tree::unique_ids;
use crate::types::{empty_input, Mode};
use vstd::prelude::*;

verus! {

/// The active sheet, and whether the store of the sheets is there.
#[derive(Debug)]
pub struct SheetManager {
    pub attached: bool,
    /// The sheet whose goals are shown; `None` for all goals.
    pub active: Option<String>,
}

impl SheetManager {
    /// No active sheet and no store yet.
    pub fn new() -> (r: SheetManager)
        ensures
            r == (SheetManager { attached: false, active: None }),
    {
        SheetManager { attached: false, active: None }
    }

    /// Notes that the store is there.
    pub fn attach_db(&mut self)
        ensures
            *final(self) == (SheetManager { attached: true, ..*old(self) }),
    {
        self.attached = true;
    }

    /// The sheets as they were read; none without a store.
    pub fn list_sheets(&self, stored: Vec<GoalSheet>) -> (r: Vec<GoalSheet>)
        ensures
            self.attached ==> r == stored,
            !self.attached ==> r@.len() == 0,
    {
        if self.attached {
            stored
        } else {
            Vec::new()
        }
    }

    /// What writes a new sheet with an id at a time; an error without a store.
    pub fn create_sheet(&self, id: &str, name: &str, now: &str) -> (r: Result<Statement, String>)
        ensures
            match r {
                Ok(s) => self.attached && s@ == insert_sheet(id@, name@, now@),
                Err(e) => !self.attached && e@ == "sheets: no db attached"@,
            },
    {
        if self.attached {
            Ok(create_sheet(id, name, now))
        } else {
            Err("sheets: no db attached".to_string())
        }
    }

    /// What deletes a sheet at a time and takes its goals off it; an error without
    /// a store.
    pub fn delete_sheet(&self, id: &str, now: &str) -> (r: Result<(Statement, Statement), String>)
        ensures
            match r {
                Ok((sheet, goals)) => self.attached && sheet@ == remove_sheet(id@, now@) && goals@
                    == free_goals(id@, now@),
                Err(e) => !self.attached && e@ == "sheets: no db attached"@,
            },
    {
        if self.attached {
            Ok((delete_sheet(id, now), orphan_goals(id, now)))
        } else {
            Err("sheets: no db attached".to_string())
        }
    }

    /// After a sheet was deleted: it is no longer active.
    pub fn sheet_deleted(&mut self, id: &str)
        ensures
            *final(self) == (SheetManager {
                active: if opt(old(self).active) == Some(id@) {
                    None
                } else {
                    old(self).active
                },
                ..*old(self)
            }),
    {
        if opt_is(&self.active, id) {
            self.active = None;
        }
    }

    /// Activates a sheet, or none. With a store, a sheet that it does not hold is
    /// an error.
    pub fn select_sheet(&mut self, id: Option<String>, exists: bool) -> (r: Result<(), String>)
        ensures
            match r {
                Ok(_) => (id is None || !old(self).attached || exists) && *final(self) == (
                SheetManager { active: id, ..*old(self) }),
                Err(e) => id is Some && old(self).attached && !exists && e@ == "sheet not found: "@
                    + id->0@ && *final(self) == *old(self),
            },
    {
        match &id {
            Some(sid) => {
                if self.attached && !exists {
                    return Err(concat("sheet not found: ", sid.as_str()));
                }
            },
            None => {},
        }
        self.active = id;
        Ok(())
    }

    /// The active sheet.
    pub fn current_sheet(&self) -> (r: Option<String>)
        ensures
            r == self.active,
    {
        opt_clone(&self.active)
    }
}

/// The statement that writes a new sheet.
pub open spec fn insert_sheet(id: Seq<char>, name: Seq<char>, now: Seq<char>) -> Stmt {
    stmt("INSERT INTO goal_sheets (id, name, created_at) VALUES (?, ?, ?)"@).with(
        Val::Text(id),
    ).with(Val::Text(name)).with(Val::Text(now)).marking("goal_sheets"@, id)
}

/// The statement that deletes a sheet.
pub open spec fn remove_sheet(id: Seq<char>, now: Seq<char>) -> Stmt {
    stmt("UPDATE goal_sheets SET deleted_at = ? WHERE id = ? AND deleted_at IS NULL"@).with(
        Val::Text(now),
    ).with(Val::Text(id)).marking("goal_sheets"@, id)
}

/// The statement that takes the goals of a sheet off it.
pub open spec fn free_goals(id: Seq<char>, now: Seq<char>) -> Stmt {
    stmt("UPDATE goals SET sheet_id = NULL, updated_at = ? WHERE sheet_id = ?"@).with(
        Val::Text(now),
    ).with(Val::Text(id))
}

/// The position of the sheet with an id.
pub open spec fn sheet_position(s: Seq<GoalSheet>, id: Seq<char>, i: int) -> Option<int>
    decreases s.len() - i,
{
    if i < 0 || i >= s.len() {
        None
    } else if s[i].id@ == id {
        Some(i)
    } else {
        sheet_position(s, id, i + 1)
    }
}

/// The position of the sheet with an id.
pub fn find_sheet(s: &Vec<GoalSheet>, id: &str) -> (r: Option<usize>)
    ensures
        match r {
            Some(i) => i < s@.len() && sheet_position(s@, id@, 0) == Some(i as int),
            None => sheet_position(s@, id@, 0) is None,
        },
{
    let mut i: usize = 0;
    while i < s.len()
        invariant
            i <= s@.len(),
            sheet_position(s@, id@, 0) == sheet_position(s@, id@, i as int),
        decreases s@.len() - i,
    {
        if str_eq(s[i].id.as_str(), id) {
            return Some(i);
        }
        i = i + 1;
    }
    None
}

/// The position of a text in a list.
pub open spec fn text_position(s: Seq<Seq<char>>, t: Seq<char>, i: int) -> Option<int>
    decreases s.len() - i,
{
    if i < 0 || i >= s.len() {
        None
    } else if s[i] == t {
        Some(i)
    } else {
        text_position(s, t, i + 1)
    }
}

fn find_text(s: &Vec<String>, t: &str) -> (r: Option<usize>)
    ensures
        match r {
            Some(i) => i < s@.len() && text_position(texts(s@), t@, 0) == Some(i as int),
            None => text_position(texts(s@), t@, 0) is None,
        },
{
    let mut i: usize = 0;
    while i < s.len()
        invariant
            i <= s@.len(),
            text_position(texts(s@), t@, 0) == text_position(texts(s@), t@, i as int),
        decreases s@.len() - i,
    {
        assert(texts(s@)[i as int] == s@[i as int]@);
        if str_eq(s[i].as_str(), t) {
            return Some(i);
        }
        i = i + 1;
    }
    None
}

/// The row of the sheet picker that stands for what is shown: a buffer behind
/// the sheets, a sheet, or all goals.
pub open spec fn picker_row(
    sheets: Seq<GoalSheet>,
    sheet: Option<Seq<char>>,
    ids: Seq<Seq<char>>,
    buffer: Option<Seq<char>>,
) -> int {
    match buffer {
        Some(b) => sheets.len() + 1 + (match text_position(ids, b, 0) {
            Some(i) => i,
            None => 0,
        }),
        None => match sheet {
            Some(s) => match sheet_position(sheets, s, 0) {
                Some(i) => i + 1,
                None => 0,
            },
            None => 0,
        },
    }
}

/// The sheet and the buffer that are shown after the sheets were read back: a
/// sheet that is gone is left, for all goals.
pub open spec fn kept(sheets: Seq<GoalSheet>, active: Option<Seq<char>>) -> bool {
    match active {
        Some(a) => sheet_position(sheets, a, 0) is Some,
        None => true,
    }
}

impl App {
    /// Takes the sheets as they were read back.
    pub fn reload_sheets(&mut self, sheets: Vec<GoalSheet>)
        requires
            old(self).wf(),
        ensures
            final(self).wf(),
            if kept(sheets@, opt(old(self).sheet_manager.active)) {
                *final(self) == (App { sheets, ..*old(self) })
            } else {
                *final(self) == (App {
                    sheets,
                    sheet_manager: final(self).sheet_manager,
                    buffer_manager: final(self).buffer_manager,
                    ..*old(self)
                }) && shows(
                    *final(self),
                    *old(self),
                    None,
                    None,
                )
            },
    {
        self.sheets = sheets;
        let gone = match &self.sheet_manager.active {
            Some(a) => find_sheet(&self.sheets, a.as_str()).is_none(),
            None => false,
        };
        if gone {
            self.sheet_manager.active = None;
            self.buffer_manager.active = None;
        }
    }

    /// Opens the sheet picker on what is shown.
    pub fn open_sheet_picker(&mut self, sheets: Vec<GoalSheet>)
        requires
            old(self).wf(),
            sheets@.len() + old(self).buffer_manager.buffers@.dom().len() < usize::MAX,
        ensures
            final(self).wf(),
            final(self).sheets == sheets,
            final(self).mode is SheetPicker,
            *final(self) == (App {
                sheets,
                sheet_manager: final(self).sheet_manager,
                buffer_manager: final(self).buffer_manager,
                sheet_picker_selected: final(self).sheet_picker_selected,
                mode: Mode::SheetPicker,
                ..*old(self)
            }),
            if kept(sheets@, opt(old(self).sheet_manager.active)) {
                final(self).sheet_manager == old(self).sheet_manager && final(self).buffer_manager
                    == old(self).buffer_manager
            } else {
                shows(*final(self), *old(self), None, None)
            },
            exists|ids: Seq<Seq<char>>| #[trigger]
                sorted_ids(ids, final(self).buffer_manager.buffers@.dom())
                    && final(self).sheet_picker_selected == picker_row(
                    sheets@,
                    opt(final(self).sheet_manager.active),
                    ids,
                    opt(final(self).buffer_manager.active),
                ),
    {
        self.reload_sheets(sheets);
        let ids = self.buffer_manager.list_buffers();
        proof {
            lemma_sorted_ids_len(texts(ids@), self.buffer_manager.buffers@.dom());
            assert(texts(ids@).len() == ids@.len());
        }
        let row: usize = match &self.buffer_manager.active {
            Some(b) => match find_text(&ids, b.as_str()) {
                Some(i) => self.sheets.len() + 1 + i,
                None => self.sheets.len() + 1,
            },
            None => match &self.sheet_manager.active {
                Some(s) => match find_sheet(&self.sheets, s.as_str()) {
                    Some(i) => i + 1,
                    None => 0,
                },
                None => 0,
            },
        };
        self.sheet_picker_selected = row;
        self.mode = Mode::SheetPicker;
        assert(sorted_ids(texts(ids@), self.buffer_manager.buffers@.dom()));
    }

    /// Shows what the sheet picker stands on: all goals, a sheet or a buffer. Then
    /// the goals are to be read back.
    #[verifier::rlimit(60)]
    pub fn select_sheet_at_picker(&mut self, goals: Vec<Goal>)
        requires
            old(self).wf(),
            unique_ids(goals@),
        ensures
            final(self).wf(),
            *final(self) == (App {
                goals,
                selected: final(self).selected,
                sheet_manager: final(self).sheet_manager,
                buffer_manager: final(self).buffer_manager,
                message: final(self).message,
                mode: Mode::Normal,
                ..*old(self)
            }),
            final(self).selected == least(
                old(self).selected as int,
                final(self).rows().len() as int,
            ),
            ({
                let i = old(self).sheet_picker_selected as int;
                let n = old(self).sheets@.len();
                if i == 0 {
                    shows(*final(self), *old(self), None, None) && says(
                        final(self).message,
                        "sheet: All"@,
                    )
                } else if i <= n {
                    let s = old(self).sheets@[i - 1];
                    shows(*final(self), *old(self), Some(s.id@), None) && says(
                        final(self).message,
                        "sheet: "@ + s.name@,
                    )
                } else {
                    exists|ids: Seq<Seq<char>>| #[trigger]
                        sorted_ids(ids, old(self).buffer_manager.buffers@.dom()) && if i - n - 1
                            < ids.len() {
                            shows(*final(self), *old(self), None, Some(ids[i - n - 1])) && says(
                                final(self).message,
                                "buffer: "@ + ids[i - n - 1],
                            )
                        } else {
                            final(self).sheet_manager == old(self).sheet_manager
                                && final(self).buffer_manager == old(self).buffer_manager
                                && final(self).message == old(self).message
                        }
                }
            }),
    {
        let i: usize = self.sheet_picker_selected;
        let n: usize = self.sheets.len();
        let ids = self.buffer_manager.list_buffers();
        assert(sorted_ids(texts(ids@), old(self).buffer_manager.buffers@.dom()));
        if i == 0 {
            self.show(None, None, "sheet: All");
        } else if i <= n {
            let id = self.sheets[i - 1].id.clone();
            let text = concat("sheet: ", self.sheets[i - 1].name.as_str());
            self.show(Some(id), None, text.as_str());
        } else {
            let k: usize = i - n - 1;
            if k < ids.len() {
                let id = ids[k].clone();
                assert(texts(ids@)[k as int] == id@);
                let text = concat("buffer: ", id.as_str());
                self.show(None, Some(id), text.as_str());
            }
        }
        self.mode = Mode::Normal;
        self.reload(goals);
    }

    fn show(&mut self, sheet: Option<String>, buffer: Option<String>, message: &str)
        requires
            old(self).wf(),
        ensures
            final(self).wf(),
            *final(self) == (App {
                sheet_manager: SheetManager { active: sheet, ..old(self).sheet_manager },
                buffer_manager: crate::buffers::BufferManager {
                    active: buffer,
                    ..old(self).buffer_manager
                },
                message: final(self).message,
                ..*old(self)
            }),
            says(final(self).message, message@),
    {
        self.sheet_manager.active = sheet;
        self.buffer_manager.active = buffer;
        self.set_message(message);
    }

    /// Begins the input of a new sheet.
    pub fn start_add_sheet(&mut self)
        requires
            old(self).wf(),
        ensures
            final(self).wf(),
            final(self).input@ == empty_input(),
            *final(self) == (App { input: final(self).input, mode: Mode::AddSheet, ..*old(self) }),
    {
        self.input.clear();
        self.mode = Mode::AddSheet;
    }

    /// Ends the input of a new sheet: a blank name cancels it, any other is the
    /// name of the sheet to be written.
    pub fn commit_add_sheet(&mut self) -> (r: Option<String>)
        requires
            old(self).wf(),
        ensures
            final(self).wf(),
            match r {
                Some(name) => *final(self) == *old(self) && trimmed(old(self).input.text@).len() > 0
                    && name@ == trimmed(old(self).input.text@),
                None => trimmed(old(self).input.text@).len() == 0 && *final(self) == (App {
                    message: final(self).message,
                    mode: Mode::Normal,
                    ..*old(self)
                }) && says(final(self).message, "empty name — cancelled"@),
            },
    {
        let name = trim(self.input.text.as_str());
        if name.as_str().is_empty() {
            self.set_message("empty name — cancelled");
            self.mode = Mode::Normal;
            return None;
        }
        Some(name)
    }

    /// After a sheet was written: it is shown.
    pub fn sheet_added(&mut self, sheet: GoalSheet, goals: Vec<Goal>)
        requires
            old(self).wf(),
            unique_ids(goals@),
        ensures
            final(self).wf(),
            *final(self) == (App {
                goals,
                selected: final(self).selected,
                sheets: final(self).sheets,
                sheet_manager: final(self).sheet_manager,
                buffer_manager: final(self).buffer_manager,
                message: final(self).message,
                mode: Mode::Normal,
                ..*old(self)
            }),
            final(self).sheets@ == old(self).sheets@.push(sheet),
            shows(*final(self), *old(self), Some(sheet.id@), None),
            final(self).selected == least(
                old(self).selected as int,
                final(self).rows().len() as int,
            ),
            says(final(self).message, "sheet '"@ + sheet.name@ + "' created"@),
    {
        let text = concat(concat("sheet '", sheet.name.as_str()).as_str(), "' created");
        self.sheet_manager.active = Some(sheet.id.clone());
        self.buffer_manager.active = None;
        self.sheets.push(sheet);
        self.mode = Mode::Normal;
        self.reload(goals);
        let ghost before = *self;
        self.set_message(text.as_str());
        proof {
            crate::goals::lemma_same_rows(before, *self);
        }
    }

    /// The sheet that is to be deleted: the active one, or the one that the picker
    /// stands on.
    pub open spec fn sheet_to_delete(&self) -> Option<Seq<char>> {
        match self.sheet_manager.active {
            Some(a) => Some(a@),
            None => if 0 < self.sheet_picker_selected <= self.sheets@.len() {
                Some(self.sheets@[self.sheet_picker_selected - 1].id@)
            } else {
                None
            },
        }
    }

    /// Asks before a sheet is deleted.
    pub fn start_delete_sheet(&mut self)
        requires
            old(self).wf(),
        ensures
            final(self).wf(),
            match old(self).sheet_to_delete() {
                Some(id) => *final(self) == (App { mode: final(self).mode, ..*old(self) }) && (
                final(self).mode matches Mode::ConfirmDeleteSheet { sheet_id } && sheet_id@ == id),
                None => *final(self) == (App { message: final(self).message, ..*old(self) }) && says(
                    final(self).message,
                    "no sheet selected to delete"@,
                ),
            },
    {
        let active = opt_clone(&self.sheet_manager.active);
        let sheet_id = match active {
            Some(a) => a,
            None => {
                let i: usize = self.sheet_picker_selected;
                if i > 0 && i <= self.sheets.len() {
                    self.sheets[i - 1].id.clone()
                } else {
                    self.set_message("no sheet selected to delete");
                    return;
                }
            },
        };
        self.mode = Mode::ConfirmDeleteSheet { sheet_id };
    }

    /// The sheet whose deletion was confirmed.
    pub fn confirm_delete_sheet(&self) -> (r: Option<String>)
        ensures
            match self.mode {
                Mode::ConfirmDeleteSheet { sheet_id } => r == Some(sheet_id),
                _ => r is None,
            },
    {
        match &self.mode {
            Mode::ConfirmDeleteSheet { sheet_id } => Some(sheet_id.clone()),
            _ => None,
        }
    }

    /// The goals that a deleted sheet leaves behind: they have to be synced.
    pub fn goals_of_sheet(&self, sheet_id: &str) -> (r: Vec<String>)
        ensures
            r@ == self.goals@.filter(|g: Goal| opt(g.sheet_id) == Some(sheet_id@)).map_values(
                |g: Goal| g.id,
            ),
    {
        let ghost p = |g: Goal| opt(g.sheet_id) == Some(sheet_id@);
        let ghost f = |g: Goal| g.id;
        let mut out: Vec<String> = Vec::new();
        assert(self.goals@.take(0).filter(p) =~= Seq::empty()) by {
            reveal(Seq::filter);
        }
        for i in 0..self.goals.len()
            invariant
                p == (|g: Goal| opt(g.sheet_id) == Some(sheet_id@)),
                f == (|g: Goal| g.id),
                out@ =~= self.goals@.take(i as int).filter(p).map_values(f),
        {
            let ghost t = self.goals@.take(i as int);
            let ghost u = self.goals@.take(i + 1);
            proof {
                reveal(Seq::filter);
                assert(u.drop_last() =~= t);
                assert(u.last() == self.goals@[i as int]);
            }
            if opt_is(&self.goals[i].sheet_id, sheet_id) {
                out.push(self.goals[i].id.clone());
                assert(u.filter(p) =~= t.filter(p).push(self.goals@[i as int]));
            } else {
                assert(u.filter(p) =~= t.filter(p));
            }
        }
        assert(self.goals@.take(self.goals@.len() as int) =~= self.goals@);
        out
    }

    /// After a sheet was deleted: all goals are shown.
    #[verifier::rlimit(60)]
    pub fn sheet_deleted(&mut self, sheets: Vec<GoalSheet>, goals: Vec<Goal>)
        requires
            old(self).wf(),
            unique_ids(goals@),
        ensures
            final(self).wf(),
            *final(self) == (App {
                goals,
                selected: final(self).selected,
                sheets,
                sheet_manager: final(self).sheet_manager,
                buffer_manager: final(self).buffer_manager,
                message: final(self).message,
                mode: Mode::Normal,
                ..*old(self)
            }),
            shows(
                *final(self),
                *old(self),
                None,
                if kept(sheets@, opt(old(self).sheet_manager.active)) {
                    opt(old(self).buffer_manager.active)
                } else {
                    None
                },
            ),
            final(self).selected == least(
                old(self).selected as int,
                final(self).rows().len() as int,
            ),
            says(final(self).message, "sheet deleted"@),
    {
        self.reload_sheets(sheets);
        self.sheet_manager.active = None;
        self.edited(goals, "sheet deleted");
    }
}

/// Whether a sheet and a buffer are shown, with the sheets and buffers themselves
/// unchanged.
pub open spec fn shows(
    after: App,
    before: App,
    sheet: Option<Seq<char>>,
    buffer: Option<Seq<char>>,
) -> bool {
    &&& opt(after.sheet_manager.active) == sheet
    &&& after.sheet_manager.attached == before.sheet_manager.attached
    &&& opt(after.buffer_manager.active) == buffer
    &&& after.buffer_manager.buffers == before.buffer_manager.buffers
}

/// What the picker opens on is what selecting there shows again: where a sheet
/// is active, the picker stands on that sheet.
pub proof fn law_picker_opens_on_the_active_sheet(
    sheets: Seq<GoalSheet>,
    sheet: Seq<char>,
    ids: Seq<Seq<char>>,
)
    requires
        kept(sheets, Some(sheet)),
    ensures
        ({
            let row = picker_row(sheets, Some(sheet), ids, None);
            0 < row <= sheets.len() && sheets[row - 1].id@ == sheet
        }),
{
    lemma_sheet_position(sheets, sheet, 0);
}

proof fn lemma_sheet_position(s: Seq<GoalSheet>, id: Seq<char>, i: int)
    requires
        0 <= i,
    ensures
        match sheet_position(s, id, i) {
            Some(k) => i <= k < s.len() && s[k].id@ == id,
            None => forall|k: int| i <= k < s.len() ==> (#[trigger] s[k]).id@ != id,
        },
    decreases s.len() - i,
{
    if i < s.len() && s[i].id@ != id {
        lemma_sheet_position(s, id, i + 1);
    }
}

pub proof fn lemma_sorted_ids_len(ids: Seq<Seq<char>>, s: Set<Seq<char>>)
    requires
        sorted_ids(ids, s),
    ensures
        s.finite(),
        ids.len() == s.len(),
{
    assert forall|i: int, j: int| 0 <= i < ids.len() && 0 <= j < ids.len() && i != j implies ids[i]
        != ids[j] by {
        if i < j {
            crate::text::law_order_is_total(ids[i], ids[j]);
        } else {
            crate::text::law_order_is_total(ids[j], ids[i]);
        }
    }
    assert(ids.no_duplicates());
    ids.unique_seq_to_set();
    assert(ids.to_set() =~= s) by {
        assert forall|k: Seq<char>| ids.to_set().contains(k) <==> s.contains(k) by {
            assert(ids.contains(k) <==> s.contains(k));
        }
    }
}

/// A sheet is found by its id at its first place, exactly where there is one with it.
pub proof fn law_sheets_are_found_by_id(s: Seq<GoalSheet>, id: Seq<char>)
    ensures
        match sheet_position(s, id, 0) {
            Some(k) => 0 <= k < s.len() && s[k].id@ == id && forall|j: int|
                0 <= j < k ==> (#[trigger] s[j]).id@ != id,
            None => forall|k: int| 0 <= k < s.len() ==> (#[trigger] s[k]).id@ != id,
        },
        kept(s, Some(id)) <==> exists|k: int| 0 <= k < s.len() && (#[trigger] s[k]).id@ == id,
        kept(s, None),
{
    lemma_sheet_position(s, id, 0);
    lemma_first_sheet(s, id, 0);
}

proof fn lemma_first_sheet(s: Seq<GoalSheet>, id: Seq<char>, i: int)
    requires
        0 <= i,
    ensures
        sheet_position(s, id, i) is Some ==> forall|j: int|
            i <= j < sheet_position(s, id, i)->0 ==> (#[trigger] s[j]).id@ != id,
    decreases s.len() - i,
{
    if i < s.len() && s[i].id@ != id {
        lemma_first_sheet(s, id, i + 1);
    }
}

proof fn lemma_text_position(s: Seq<Seq<char>>, t: Seq<char>, i: int)
    requires
        0 <= i,
    ensures
        match text_position(s, t, i) {
            Some(k) => i <= k < s.len() && s[k] == t,
            None => forall|k: int| i <= k < s.len() ==> #[trigger] s[k] != t,
        },
    decreases s.len() - i,
{
    if i < s.len() && s[i] != t {
        lemma_text_position(s, t, i + 1);
    }
}

/// The picker opens on what is shown: all goals in the first row, a sheet behind them, a
/// buffer behind the sheets.
pub proof fn law_the_picker_opens_on_what_is_shown(
    sheets: Seq<GoalSheet>,
    sheet: Option<Seq<char>>,
    ids: Seq<Seq<char>>,
    buffer: Seq<char>,
)
    ensures
        picker_row(sheets, None, ids, None) == 0,
        ids.contains(buffer) ==> {
            let row = picker_row(sheets, sheet, ids, Some(buffer));
            sheets.len() < row <= sheets.len() + ids.len() && ids[row - sheets.len() - 1] == buffer
        },
{
    lemma_text_position(ids, buffer, 0);
}

/// The sheet to be deleted is the active one; where none is, the one in the row on which
/// the picker stands, and none in a row that shows no sheet.
pub proof fn law_the_sheet_to_delete(a: App)
    ensures
        a.sheet_manager.active is Some ==> a.sheet_to_delete() == Some(a.sheet_manager.active->0@),
        a.sheet_manager.active is None && a.sheet_picker_selected == 0 ==> a.sheet_to_delete() is None,
        a.sheet_manager.active is None && a.sheet_picker_selected > a.sheets@.len()
            ==> a.sheet_to_delete() is None,
        forall|i: int|
            a.sheet_manager.active is None && 0 <= i < a.sheets@.len() && a.sheet_picker_selected == i
                + 1 ==> a.sheet_to_delete() == Some((#[trigger] a.sheets@[i]).id@),
{
}

/// A new sheet is stored under the columns of its id, its name and its creation, in this
/// order; a deleted one gets the time of its delete, and its goals no sheet.
pub proof fn law_sheets_are_stored_by_column(id: Seq<char>, name: Seq<char>, now: Seq<char>)
    ensures
        insert_sheet(id, name, now).sql == "INSERT INTO goal_sheets ("@ + joined(
            seq!["id"@, "name"@, "created_at"@],
            ", "@,
        ) + ") VALUES (?, ?, ?)"@,
        insert_sheet(id, name, now).params == seq![Val::Text(id), Val::Text(name), Val::Text(now)],
        insert_sheet(id, name, now).marks == seq![("goal_sheets"@, id)],
        remove_sheet(id, now).sql == "UPDATE goal_sheets SET "@ + joined(
            seq!["deleted_at"@ + " = ? WHERE "@ + "id"@ + " = ?"@, "deleted_at IS NULL"@],
            " AND "@,
        ),
        remove_sheet(id, now).params == seq![Val::Text(now), Val::Text(id)],
        remove_sheet(id, now).marks == seq![("goal_sheets"@, id)],
        free_goals(id, now).sql == "UPDATE goals SET sheet_id = NULL, "@ + "updated_at"@
            + " = ? WHERE "@ + "sheet_id"@ + " = ?"@,
        free_goals(id, now).params == seq![Val::Text(now), Val::Text(id)],
{
    let sep = ", "@;
    let a = seq!["id"@, "name"@, "created_at"@];
    let b = a.drop_last();
    let c = b.drop_last();
    assert(joined(c, sep) == "id"@);
    assert(joined(b, sep) == "id"@ + sep + "name"@);
    assert(joined(a, sep) == "id"@ + sep + "name"@ + sep + "created_at"@);
    reveal_strlit(", ");
    reveal_strlit("id");
    reveal_strlit("name");
    reveal_strlit("created_at");
    reveal_strlit(") VALUES (?, ?, ?)");
    reveal_strlit("INSERT INTO goal_sheets (");
    reveal_strlit("INSERT INTO goal_sheets (id, name, created_at) VALUES (?, ?, ?)");
    assert(insert_sheet(id, name, now).sql =~= "INSERT INTO goal_sheets ("@ + joined(a, sep)
        + ") VALUES (?, ?, ?)"@);
    assert(insert_sheet(id, name, now).params =~= seq![
        Val::Text(id),
        Val::Text(name),
        Val::Text(now),
    ]);
    assert(insert_sheet(id, name, now).marks =~= seq![("goal_sheets"@, id)]);
    let d = seq!["deleted_at"@ + " = ? WHERE "@ + "id"@ + " = ?"@, "deleted_at IS NULL"@];
    assert(joined(d.drop_last(), " AND "@) == d[0]);
    reveal_strlit("deleted_at");
    reveal_strlit(" = ? WHERE ");
    reveal_strlit(" = ?");
    reveal_strlit("deleted_at IS NULL");
    reveal_strlit(" AND ");
    reveal_strlit("UPDATE goal_sheets SET ");
    reveal_strlit("UPDATE goal_sheets SET deleted_at = ? WHERE id = ? AND deleted_at IS NULL");
    assert(remove_sheet(id, now).sql =~= "UPDATE goal_sheets SET "@ + joined(d, " AND "@));
    assert(remove_sheet(id, now).params =~= seq![Val::Text(now), Val::Text(id)]);
    assert(remove_sheet(id, now).marks =~= seq![("goal_sheets"@, id)]);
    reveal_strlit("UPDATE goals SET sheet_id = NULL, ");
    reveal_strlit("updated_at");
    reveal_strlit("sheet_id");
    reveal_strlit("UPDATE goals SET sheet_id = NULL, updated_at = ? WHERE sheet_id = ?");
    assert(free_goals(id, now).sql =~= "UPDATE goals SET sheet_id = NULL, "@ + "updated_at"@
        + " = ? WHERE "@ + "sheet_id"@ + " = ?"@);
    assert(free_goals(id, now).params =~= seq![Val::Text(now), Val::Text(id)]);
}

/// Where the sheet or the buffer that is shown is gone, the picker opens on all goals, or on
/// the first buffer.
pub proof fn law_the_picker_opens_in_front_of_what_is_gone(
    sheets: Seq<GoalSheet>,
    sheet: Seq<char>,
    ids: Seq<Seq<char>>,
    buffer: Seq<char>,
)
    ensures
        !kept(sheets, Some(sheet)) ==> picker_row(sheets, Some(sheet), ids, None) == 0,
        !ids.contains(buffer) ==> picker_row(sheets, Some(sheet), ids, Some(buffer)) == sheets.len()
            + 1,
{
    lemma_sheet_position(sheets, sheet, 0);
    lemma_text_position(ids, buffer, 0);
}

} // verus!

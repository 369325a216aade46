//! Editing, deleting, moving and reordering goals.

use crate::app::{
    entered, is_rule, least, repeat_input, row_position, says, sets, typed, unfolded_with, App,
    GoalChange, RepeatInput,
};
use crate::db::PluginRow;
use crate::schema::{no_change, Goal, GoalStatus, UpdateGoalInput};
use crate::text::{
    concat, lowercase, opt, opt_clone, opt_eq, opt_or_empty, opt_text, str_eq, to_lower, trim,
    trimmed,
};
use crate::theme::Theme;
use crate::tree::{
    acyclic, before, below, descendant_ids, goals_below, hangs_below, in_order, is_branch, is_descendant, law_a_sheet_holds_its_goals, law_descendants_are_all_that_hangs_below,
    law_move_keeps_the_tree_acyclic, law_rows_are_marked, law_rows_hang_below_their_parents,
    law_rows_show_each_goal_once, law_rows_show_what_is_unfolded,
    law_sorted_is_an_ordered_permutation, lemma_children, lemma_filter_member, moved, sort_goals,
    sorted, unique_ids, visible_rows,
};
use crate::types::Mode;
use vstd::prelude::*;

verus! {

/// The goal with an id, if there is one.
pub open spec fn find_goal(goals: Seq<Goal>, id: Seq<char>) -> Option<Goal>
    decreases goals.len(),
{
    if goals.len() == 0 {
        None
    } else if goals[0].id@ == id {
        Some(goals[0])
    } else {
        find_goal(goals.drop_first(), id)
    }
}

/// The goal with an id, if there is one.
pub fn goal_with<'a>(goals: &'a Vec<Goal>, id: &str) -> (r: Option<&'a Goal>)
    ensures
        match r {
            Some(g) => find_goal(goals@, id@) == Some(*g),
            None => find_goal(goals@, id@) is None,
        },
{
    let mut i: usize = 0;
    assert(goals@.skip(0) =~= goals@);
    while i < goals.len()
        invariant
            i <= goals@.len(),
            find_goal(goals@, id@) == find_goal(goals@.skip(i as int), id@),
        decreases goals@.len() - i,
    {
        assert(goals@.skip(i as int)[0] == goals@[i as int]);
        assert(goals@.skip(i as int).drop_first() =~= goals@.skip(i + 1));
        if str_eq(goals[i].id.as_str(), id) {
            return Some(&goals[i]);
        }
        i = i + 1;
    }
    None
}

impl App {
    fn start_edit(&mut self, text: String, mode: Mode)
        requires
            old(self).wf(),
        ensures
            final(self).wf(),
            final(self).input@ == typed(text@),
            final(self).input.text == text,
            *final(self) == (App { input: final(self).input, mode, ..*old(self) }),
    {
        self.input.set_text(text);
        self.mode = mode;
    }

    /// Begins to edit the title of the selected goal.
    pub fn start_edit_title(&mut self)
        requires
            old(self).wf(),
        ensures
            final(self).wf(),
            match old(self).current() {
                Some(g) => final(self).input@ == typed(g.title@) && *final(self) == (App {
                    input: final(self).input,
                    mode: Mode::EditTitle { goal_id: g.id },
                    ..*old(self)
                }),
                None => *final(self) == *old(self),
            },
    {
        if let Some(row) = self.selected_row() {
            let text = row.goal.title.clone();
            self.start_edit(text, Mode::EditTitle { goal_id: row.goal.id.clone() });
        }
    }

    /// Begins to edit the description of the selected goal.
    pub fn start_edit_description(&mut self)
        requires
            old(self).wf(),
        ensures
            final(self).wf(),
            match old(self).current() {
                Some(g) => final(self).input@ == typed(opt_or_empty(g.description)) && *final(self) == (App {
                    input: final(self).input,
                    mode: Mode::EditDescription { goal_id: g.id },
                    ..*old(self)
                }),
                None => *final(self) == *old(self),
            },
    {
        if let Some(row) = self.selected_row() {
            let text = opt_text(&row.goal.description);
            self.start_edit(text, Mode::EditDescription { goal_id: row.goal.id.clone() });
        }
    }

    /// Begins to edit the due date of the selected goal.
    pub fn start_edit_due(&mut self)
        requires
            old(self).wf(),
        ensures
            final(self).wf(),
            match old(self).current() {
                Some(g) => final(self).input@ == typed(opt_or_empty(g.due_at)) && *final(self) == (App {
                    input: final(self).input,
                    mode: Mode::EditDue { goal_id: g.id },
                    ..*old(self)
                }),
                None => *final(self) == *old(self),
            },
    {
        if let Some(row) = self.selected_row() {
            let text = opt_text(&row.goal.due_at);
            self.start_edit(text, Mode::EditDue { goal_id: row.goal.id.clone() });
        }
    }

    /// Begins to edit the reminder of the selected goal.
    pub fn start_edit_reminder(&mut self)
        requires
            old(self).wf(),
        ensures
            final(self).wf(),
            match old(self).current() {
                Some(g) => final(self).input@ == typed(opt_or_empty(g.remind_at)) && *final(self) == (App {
                    input: final(self).input,
                    mode: Mode::EditReminder { goal_id: g.id },
                    ..*old(self)
                }),
                None => *final(self) == *old(self),
            },
    {
        if let Some(row) = self.selected_row() {
            let text = opt_text(&row.goal.remind_at);
            self.start_edit(text, Mode::EditReminder { goal_id: row.goal.id.clone() });
        }
    }

    /// Begins to edit the repeat rule of the selected goal.
    pub fn start_edit_repeat(&mut self)
        requires
            old(self).wf(),
        ensures
            final(self).wf(),
            match old(self).current() {
                Some(g) => final(self).input@ == typed(opt_or_empty(g.repeat_rule)) && *final(self) == (App {
                    input: final(self).input,
                    mode: Mode::EditRepeat { goal_id: g.id },
                    ..*old(self)
                }),
                None => *final(self) == *old(self),
            },
    {
        if let Some(row) = self.selected_row() {
            let text = opt_text(&row.goal.repeat_rule);
            self.start_edit(text, Mode::EditRepeat { goal_id: row.goal.id.clone() });
        }
    }

    /// Ends the edit of a title: a blank one changes nothing.
    pub fn commit_edit_title(&mut self) -> (r: Option<GoalChange>)
        requires
            old(self).wf(),
        ensures
            final(self).wf(),
            match old(self).mode {
                Mode::EditTitle { goal_id } => if trimmed(old(self).input.text@).len() == 0 {
                    r is None && *final(self) == (App { mode: Mode::Normal, ..*old(self) })
                } else {
                    *final(self) == *old(self) && r is Some && r->0.goal_id == goal_id
                        && r->0.update == (UpdateGoalInput {
                        title: r->0.update.title,
                        ..no_change()
                    }) && opt(r->0.update.title) == Some(trimmed(old(self).input.text@))
                        && r->0.message@ == "title updated"@
                },
                _ => r is None && *final(self) == *old(self),
            },
    {
        let title = trim(self.input.text.as_str());
        let goal_id = match &self.mode {
            Mode::EditTitle { goal_id } => goal_id.clone(),
            _ => {
                return None;
            },
        };
        if title.as_str().is_empty() {
            self.mode = Mode::Normal;
            return None;
        }
        Some(
            GoalChange {
                goal_id,
                update: UpdateGoalInput { title: Some(title), ..UpdateGoalInput::default() },
                message: "title updated".to_string(),
            },
        )
    }

    /// Ends the edit of a description: a blank one clears it.
    pub fn commit_edit_description(&self) -> (r: Option<GoalChange>)
        ensures
            match self.mode {
                Mode::EditDescription { goal_id } => r is Some && r->0.goal_id == goal_id && r->0.update
                    == (UpdateGoalInput { description: r->0.update.description, ..no_change() }) && sets(
                    r->0.update.description,
                    entered(self.input.text@),
                ) && r->0.message@ == "description updated"@,
                _ => r is None,
            },
    {
        match &self.mode {
            Mode::EditDescription { goal_id } => {
                let text = trim(self.input.text.as_str());
                let value = if text.as_str().is_empty() {
                    None
                } else {
                    Some(text)
                };
                Some(
                    GoalChange {
                        goal_id: goal_id.clone(),
                        update: UpdateGoalInput {
                            description: Some(value),
                            ..UpdateGoalInput::default()
                        },
                        message: "description updated".to_string(),
                    },
                )
            },
            _ => None,
        }
    }

    /// Ends the edit of a due date: a blank one clears it.
    pub fn commit_edit_due(&self) -> (r: Option<GoalChange>)
        ensures
            match self.mode {
                Mode::EditDue { goal_id } => r is Some && r->0.goal_id == goal_id && r->0.update
                    == (UpdateGoalInput { due_at: r->0.update.due_at, ..no_change() }) && sets(
                    r->0.update.due_at,
                    entered(self.input.text@),
                ) && r->0.message@ == "due date updated"@,
                _ => r is None,
            },
    {
        match &self.mode {
            Mode::EditDue { goal_id } => {
                let text = trim(self.input.text.as_str());
                let value = if text.as_str().is_empty() {
                    None
                } else {
                    Some(text)
                };
                Some(
                    GoalChange {
                        goal_id: goal_id.clone(),
                        update: UpdateGoalInput {
                            due_at: Some(value),
                            ..UpdateGoalInput::default()
                        },
                        message: "due date updated".to_string(),
                    },
                )
            },
            _ => None,
        }
    }

    /// Ends the edit of a reminder: a blank one clears it.
    pub fn commit_edit_reminder(&self) -> (r: Option<GoalChange>)
        ensures
            match self.mode {
                Mode::EditReminder { goal_id } => r is Some && r->0.goal_id == goal_id && r->0.update
                    == (UpdateGoalInput { remind_at: r->0.update.remind_at, ..no_change() }) && sets(
                    r->0.update.remind_at,
                    entered(self.input.text@),
                ) && r->0.message@ == "reminder updated"@,
                _ => r is None,
            },
    {
        match &self.mode {
            Mode::EditReminder { goal_id } => {
                let text = trim(self.input.text.as_str());
                let value = if text.as_str().is_empty() {
                    None
                } else {
                    Some(text)
                };
                Some(
                    GoalChange {
                        goal_id: goal_id.clone(),
                        update: UpdateGoalInput {
                            remind_at: Some(value),
                            ..UpdateGoalInput::default()
                        },
                        message: "reminder updated".to_string(),
                    },
                )
            },
            _ => None,
        }
    }

    /// Ends the edit of a repeat rule that was entered as `text` in lower case:
    /// nothing and `none` clear it, an unknown rule is refused.
    pub fn commit_repeat_text(&mut self, text: String) -> (r: Option<GoalChange>)
        requires
            old(self).wf(),
        ensures
            final(self).wf(),
            match old(self).mode {
                Mode::EditRepeat { goal_id } => if text@.len() > 0 && text@ != "none"@ && !is_rule(
                    text@,
                ) {
                    r is None && *final(self) == (App {
                        message: final(self).message,
                        ..*old(self)
                    }) && says(
                        final(self).message,
                        "repeat must be one of: none, daily, weekly, monthly, yearly"@,
                    )
                } else {
                    *final(self) == *old(self) && r is Some && r->0.goal_id == goal_id
                        && r->0.update == (UpdateGoalInput {
                        repeat_rule: r->0.update.repeat_rule,
                        ..no_change()
                    }) && sets(
                        r->0.update.repeat_rule,
                        if text@.len() == 0 || text@ == "none"@ {
                            None
                        } else {
                            Some(text@)
                        },
                    ) && r->0.message@ == "repeat rule updated"@
                },
                _ => r is None && *final(self) == *old(self),
            },
    {
        let goal_id = match &self.mode {
            Mode::EditRepeat { goal_id } => goal_id.clone(),
            _ => {
                return None;
            },
        };
        let value = match repeat_input(text) {
            RepeatInput::Clear => None,
            RepeatInput::Rule(rule) => Some(rule),
            RepeatInput::Invalid => {
                self.set_message("repeat must be one of: none, daily, weekly, monthly, yearly");
                return None;
            },
        };
        Some(
            GoalChange {
                goal_id,
                update: UpdateGoalInput { repeat_rule: Some(value), ..UpdateGoalInput::default() },
                message: "repeat rule updated".to_string(),
            },
        )
    }

    /// The rule that was entered, in lower case.
    pub open spec fn entered_rule(&self) -> Seq<char> {
        lowercase(trimmed(self.input.text@))
    }

    /// Ends the edit of a repeat rule.
    pub fn commit_edit_repeat(&mut self) -> (r: Option<GoalChange>)
        requires
            old(self).wf(),
        ensures
            final(self).wf(),
            match old(self).mode {
                Mode::EditRepeat { goal_id } => if old(self).entered_rule().len() > 0 && old(
                    self,
                ).entered_rule() != "none"@ && !is_rule(old(self).entered_rule()) {
                    r is None && *final(self) == (App {
                        message: final(self).message,
                        ..*old(self)
                    }) && says(
                        final(self).message,
                        "repeat must be one of: none, daily, weekly, monthly, yearly"@,
                    )
                } else {
                    *final(self) == *old(self) && r is Some && r->0.goal_id == goal_id
                        && r->0.update == (UpdateGoalInput {
                        repeat_rule: r->0.update.repeat_rule,
                        ..no_change()
                    }) && sets(
                        r->0.update.repeat_rule,
                        if old(self).entered_rule().len() == 0 || old(self).entered_rule()
                            == "none"@ {
                            None
                        } else {
                            Some(old(self).entered_rule())
                        },
                    ) && r->0.message@ == "repeat rule updated"@
                },
                _ => r is None && *final(self) == *old(self),
            },
    {
        let text = to_lower(trim(self.input.text.as_str()).as_str());
        self.commit_repeat_text(text)
    }

    // ---------- deleting ----------

    /// Asks before the selected goal is deleted.
    pub fn start_delete(&mut self)
        requires
            old(self).wf(),
        ensures
            final(self).wf(),
            match old(self).current() {
                Some(g) => *final(self) == (App {
                    mode: Mode::ConfirmDelete { goal_id: g.id },
                    ..*old(self)
                }),
                None => *final(self) == *old(self),
            },
    {
        if let Some(row) = self.selected_row() {
            self.mode = Mode::ConfirmDelete { goal_id: row.goal.id.clone() };
        }
    }

    /// The goal that is to be deleted once the question is answered by yes.
    pub fn confirm_delete(&self) -> (r: Option<String>)
        ensures
            r == (match self.mode {
                Mode::ConfirmDelete { goal_id } => Some(goal_id),
                _ => None,
            }),
    {
        match &self.mode {
            Mode::ConfirmDelete { goal_id } => Some(goal_id.clone()),
            _ => None,
        }
    }

    /// Asks before all data is deleted, unless a field is being edited.
    pub fn request_purge(&mut self)
        ensures
            *final(self) == (if old(self).config_editing is Some {
                *old(self)
            } else {
                App { mode: Mode::ConfirmPurge, ..*old(self) }
            }),
    {
        if self.config_editing.is_some() {
            return;
        }
        self.mode = Mode::ConfirmPurge;
    }

    /// Whether all data is to be deleted once the question is answered by yes.
    pub fn confirm_purge(&self) -> (r: bool)
        ensures
            r == (self.mode is ConfirmPurge),
    {
        match self.mode {
            Mode::ConfirmPurge => true,
            _ => false,
        }
    }

    /// After all data was deleted: what was read back.
    pub fn purged(&mut self, goals: Vec<Goal>, theme: Theme, plugins: Option<Vec<PluginRow>>)
        requires
            old(self).wf(),
            unique_ids(goals@),
        ensures
            final(self).wf(),
            *final(self) == (App {
                goals,
                theme,
                installed_plugins: final(self).installed_plugins,
                plugin_selected: final(self).plugin_selected,
                selected: final(self).selected,
                message: final(self).message,
                mode: Mode::Normal,
                ..*old(self)
            }),
            final(self).selected == least(
                old(self).selected as int,
                final(self).rows().len() as int,
            ),
            match plugins {
                Some(p) => final(self).installed_plugins == p && final(self).plugin_selected
                    == within(old(self).plugin_selected as int, p@.len() as int),
                None => final(self).installed_plugins == old(self).installed_plugins
                    && final(self).plugin_selected == old(self).plugin_selected,
            },
            says(final(self).message, "database purged"@),
    {
        self.reload(goals);
        self.theme = theme;
        match plugins {
            Some(p) => {
                self.reload_installed_plugins(p);
            },
            None => {},
        }
        self.set_message("database purged");
        self.mode = Mode::Normal;
    }

    /// Takes the installed plugins as they were read back; the selection stays
    /// among them.
    pub fn reload_installed_plugins(&mut self, plugins: Vec<PluginRow>)
        ensures
            *final(self) == (App {
                installed_plugins: plugins,
                plugin_selected: final(self).plugin_selected,
                ..*old(self)
            }),
            final(self).plugin_selected == within(
                old(self).plugin_selected as int,
                plugins@.len() as int,
            ),
    {
        self.installed_plugins = plugins;
        let n: usize = self.installed_plugins.len();
        let max: usize = if n == 0 {
            0
        } else {
            n - 1
        };
        if self.plugin_selected > max {
            self.plugin_selected = max;
        }
    }

    // ---------- moving ----------

    /// The choices of the move picker for a goal: the root, and every goal but the
    /// goal itself and those below it.
    pub open spec fn move_targets(&self, id: Seq<char>) -> Seq<Goal> {
        self.goals@.filter(|g: Goal| g.id@ != id && !is_descendant(self.goals@, id, g.id@))
    }

    /// Whether the move picker of a goal was opened, with its parent preselected.
    pub open spec fn picks_move(&self, before: App, goal_id: String) -> bool {
        match find_goal(before.goals@, goal_id@) {
            Some(g) => *self == (App {
                move_choices: self.move_choices,
                move_selected: self.move_selected,
                mode: Mode::MovePicker { goal_id },
                ..before
            }) && choice_views(self.move_choices@) == seq![(None, "∅  (root)"@)]
                + before.move_targets(goal_id@).map_values(|t: Goal| target_of(t))
                && self.move_selected == choice_position(
                choice_views(self.move_choices@),
                opt(g.parent_id),
            ),
            None => *self == before,
        }
    }

    /// Opens the move picker for a goal, with its parent preselected.
    pub fn open_move_picker(&mut self, goal_id: String)
        requires
            old(self).wf(),
        ensures
            final(self).wf(),
            final(self).picks_move(*old(self), goal_id),
    {
        let (parent, own) = match goal_with(&self.goals, goal_id.as_str()) {
            Some(g) => (opt_clone(&g.parent_id), g.id.clone()),
            None => {
                return;
            },
        };
        proof {
            lemma_found(self.goals@, goal_id@);
        }
        let under = descendant_ids(&self.goals, own.as_str());
        let mut choices: Vec<(Option<String>, String)> = Vec::new();
        choices.push((None, "∅  (root)".to_string()));
        let ghost pred = |g: Goal|
            g.id@ != goal_id@ && !is_descendant(self.goals@, goal_id@, g.id@);
        let ghost f = |t: Goal| target_of(t);
        assert(choice_views(choices@) =~= seq![(None, "∅  (root)"@)]);
        assert(self.goals@.take(0).filter(pred) =~= Seq::empty()) by {
            assert(self.goals@.take(0) =~= Seq::empty());
        }
        for i in 0..self.goals.len()
            invariant
                own@ == goal_id@,
                forall|x: Seq<char>| #[trigger]
                    under@.contains(x) <==> is_descendant(self.goals@, own@, x) && x != own@,
                pred == (|g: Goal|
                    g.id@ != goal_id@ && !is_descendant(self.goals@, goal_id@, g.id@)),
                f == (|t: Goal| target_of(t)),
                choice_views(choices@) =~= seq![(None, "∅  (root)"@)] + self.goals@.take(
                    i as int,
                ).filter(pred).map_values(f),
        {
            let ghost g = self.goals@[i as int];
            let ghost done = self.goals@.take(i as int);
            let ghost prev = choice_views(choices@);
            proof {
                assert(self.goals@.take(i + 1) =~= done.push(g));
                done.lemma_filter_push(g, pred);
            }
            let skip = str_eq(self.goals[i].id.as_str(), own.as_str()) || under.contains(
                self.goals[i].id.as_str(),
            );
            assert(skip == !pred(g));
            if !skip {
                let label = target_label(&self.goals[i]);
                let e = (Some(self.goals[i].id.clone()), label);
                let ghost ev = (opt(e.0), e.1@);
                choices.push(e);
                assert(choice_views(choices@) =~= prev.push(ev));
                assert(done.filter(pred).push(g).map_values(f) =~= done.filter(pred).map_values(
                    f,
                ).push(ev));
            }
        }
        assert(self.goals@.take(self.goals@.len() as int) =~= self.goals@);
        let at: usize = position_of(&choices, &parent);
        self.move_choices = choices;
        self.move_selected = at;
        self.mode = Mode::MovePicker { goal_id };
    }

    /// What the chosen move is.
    pub fn confirm_move(&mut self) -> (r: Option<Move>)
        requires
            old(self).wf(),
        ensures
            final(self).wf(),
            match old(self).mode {
                Mode::MovePicker { goal_id } => if old(self).move_selected < old(
                    self,
                ).move_choices@.len() {
                    let choice = old(self).move_choices@[old(self).move_selected as int];
                    if parent_of(old(self).goals@, goal_id@) == opt(choice.0) {
                        r is None && *final(self) == (App {
                            message: final(self).message,
                            mode: Mode::Normal,
                            ..*old(self)
                        }) && says(final(self).message, "already there"@)
                    } else {
                        *final(self) == *old(self) && r is Some && r->0.goal_id == goal_id
                            && r->0.parent_id == choice.0 && r->0.label == choice.1 && opt(
                            r->0.sheet_id,
                        ) == sheet_for(old(self).goals@, opt(choice.0), opt(old(self).sheet_manager.active))
                    }
                } else {
                    r is None && *final(self) == *old(self)
                },
                _ => r is None && *final(self) == *old(self),
            },
    {
        let goal_id = match &self.mode {
            Mode::MovePicker { goal_id } => goal_id.clone(),
            _ => {
                return None;
            },
        };
        if self.move_selected >= self.move_choices.len() {
            return None;
        }
        let parent_id = opt_clone(&self.move_choices[self.move_selected].0);
        let label = self.move_choices[self.move_selected].1.clone();
        let cur = match goal_with(&self.goals, goal_id.as_str()) {
            Some(g) => opt_clone(&g.parent_id),
            None => None,
        };
        if opt_eq(&cur, &parent_id) {
            self.set_message("already there");
            self.mode = Mode::Normal;
            return None;
        }
        let sheet_id = match &parent_id {
            Some(pid) => match goal_with(&self.goals, pid.as_str()) {
                Some(p) => match &p.sheet_id {
                    Some(s) => Some(s.clone()),
                    None => opt_clone(&self.sheet_manager.active),
                },
                None => opt_clone(&self.sheet_manager.active),
            },
            None => opt_clone(&self.sheet_manager.active),
        };
        Some(Move { goal_id, parent_id, sheet_id, label })
    }

    /// After a move was written: the new parent is unfolded and the goal selected.
    #[verifier::rlimit(40)]
    pub fn move_done(&mut self, m: &Move, goals: Vec<Goal>)
        requires
            old(self).wf(),
            unique_ids(goals@),
        ensures
            final(self).wf(),
            *final(self) == (App {
                goals,
                expanded: final(self).expanded,
                selected: final(self).selected,
                message: final(self).message,
                mode: Mode::Normal,
                ..*old(self)
            }),
            final(self).expanded@ == unfolded_with(old(self).expanded@, opt(m.parent_id)),
            final(self).selected == (match row_position(final(self).rows(), m.goal_id@) {
                Some(i) => i,
                None => least(
                    old(self).selected as int,
                    (App { goals, ..*old(self) }).rows().len() as int,
                ),
            }),
            says(final(self).message, "moved to "@ + m.label@),
    {
        let ghost start = *old(self);
        self.reload(goals);
        let ghost read = *self;
        self.unfold(&m.parent_id);
        let ghost open = *self;
        self.select_goal(m.goal_id.as_str());
        let ghost chosen = *self;
        self.set_message(concat("moved to ", m.label.as_str()).as_str());
        self.mode = Mode::Normal;
        proof {
            lemma_same_rows(read, (App { goals, ..start }));
            lemma_same_rows(open, *self);
        }
    }

    // ---------- reordering ----------

    /// The siblings of a goal in their order.
    pub open spec fn siblings(&self, g: Goal) -> Seq<Goal> {
        sorted(below(self.goals@, opt(g.parent_id)))
    }

    /// The two goals that trade places when the selected goal moves up.
    pub fn reorder_up(&self) -> (r: Option<Swap>)
        ensures
            match self.current() {
                Some(g) => match goal_position(self.siblings(g), g.id@) {
                    Some(i) => if i > 0 {
                        r is Some && swaps(r->0, self.siblings(g)[i], self.siblings(g)[i - 1])
                    } else {
                        r is None
                    },
                    None => r is None,
                },
                None => r is None,
            },
    {
        match self.selected_row() {
            Some(row) => {
                let found = self.siblings_of(&row.goal);
                match position_in(&found, row.goal.id.as_str()) {
                    Some(i) => {
                        if i > 0 {
                            Some(swap_of(&found[i], &found[i - 1]))
                        } else {
                            None
                        }
                    },
                    None => None,
                }
            },
            None => None,
        }
    }

    /// The two goals that trade places when the selected goal moves down.
    pub fn reorder_down(&self) -> (r: Option<Swap>)
        ensures
            match self.current() {
                Some(g) => match goal_position(self.siblings(g), g.id@) {
                    Some(i) => if i < self.siblings(g).len() - 1 {
                        r is Some && swaps(r->0, self.siblings(g)[i], self.siblings(g)[i + 1])
                    } else {
                        r is None
                    },
                    None => r is None,
                },
                None => r is None,
            },
    {
        match self.selected_row() {
            Some(row) => {
                let found = self.siblings_of(&row.goal);
                match position_in(&found, row.goal.id.as_str()) {
                    Some(i) => {
                        if i < found.len() - 1 {
                            Some(swap_of(&found[i], &found[i + 1]))
                        } else {
                            None
                        }
                    },
                    None => None,
                }
            },
            None => None,
        }
    }

    fn siblings_of(&self, g: &Goal) -> (r: Vec<Goal>)
        ensures
            r@ == self.siblings(*g),
    {
        let found = match &g.parent_id {
            Some(p) => goals_below(&self.goals, Some(p.as_str())),
            None => goals_below(&self.goals, None),
        };
        sort_goals(&found)
    }

    /// After two goals traded places upwards.
    pub fn reordered_up(&mut self, goals: Vec<Goal>)
        requires
            old(self).wf(),
            unique_ids(goals@),
        ensures
            final(self).wf(),
            *final(self) == (App {
                goals,
                selected: final(self).selected,
                message: final(self).message,
                ..*old(self)
            }),
            final(self).selected == ({
                let kept = least(old(self).selected as int, final(self).rows().len() as int);
                if kept > 0 {
                    kept - 1
                } else {
                    0
                }
            }),
            says(final(self).message, "reordered up"@),
    {
        self.reload(goals);
        let ghost read = *self;
        self.move_up();
        self.set_message("reordered up");
        proof {
            lemma_same_rows(read, *self);
        }
    }

    /// After two goals traded places downwards.
    pub fn reordered_down(&mut self, goals: Vec<Goal>)
        requires
            old(self).wf(),
            unique_ids(goals@),
        ensures
            final(self).wf(),
            *final(self) == (App {
                goals,
                selected: final(self).selected,
                message: final(self).message,
                ..*old(self)
            }),
            final(self).selected == ({
                let n = final(self).rows().len() as int;
                let kept = least(old(self).selected as int, n);
                if kept < n {
                    kept + 1
                } else {
                    kept
                }
            }),
            says(final(self).message, "reordered down"@),
    {
        self.reload(goals);
        let ghost read = *self;
        self.move_down();
        self.set_message("reordered down");
        proof {
            lemma_same_rows(read, *self);
        }
    }
}

/// The rows depend on the goals, the unfolded ones, the sheet and the buffer.
pub proof fn lemma_same_rows(a: App, b: App)
    requires
        a.goals@ == b.goals@,
        a.expanded@ == b.expanded@,
        opt(a.sheet_manager.active) == opt(b.sheet_manager.active),
        a.buffer_manager.active is Some == b.buffer_manager.active is Some,
    ensures
        a.rows() == b.rows(),
{
}

/// A selection kept within a list.
pub open spec fn within(sel: int, len: int) -> int {
    least(
        sel,
        if len == 0 {
            0
        } else {
            len - 1
        },
    )
}

/// A move of a goal: its new parent and sheet, and the name of the target.
#[derive(Debug)]
pub struct Move {
    pub goal_id: String,
    pub parent_id: Option<String>,
    pub sheet_id: Option<String>,
    pub label: String,
}

/// What is written for a move to a place among the new siblings.
pub fn move_update(m: &Move, sort_order: i64) -> (r: UpdateGoalInput)
    ensures
        r == (UpdateGoalInput {
            parent_id: Some(m.parent_id),
            sheet_id: Some(m.sheet_id),
            sort_order: Some(sort_order),
            ..no_change()
        }),
{
    UpdateGoalInput {
        parent_id: Some(opt_clone(&m.parent_id)),
        sheet_id: Some(opt_clone(&m.sheet_id)),
        sort_order: Some(sort_order),
        ..UpdateGoalInput::default()
    }
}

/// The parent of the goal with an id.
pub open spec fn parent_of(goals: Seq<Goal>, id: Seq<char>) -> Option<Seq<char>> {
    match find_goal(goals, id) {
        Some(g) => opt(g.parent_id),
        None => None,
    }
}

/// The sheet of a moved goal: that of its new parent, else the active one.
pub open spec fn sheet_for(
    goals: Seq<Goal>,
    parent: Option<Seq<char>>,
    active: Option<Seq<char>>,
) -> Option<Seq<char>> {
    match parent {
        Some(p) => match find_goal(goals, p) {
            Some(g) => match g.sheet_id {
                Some(s) => Some(s@),
                None => active,
            },
            None => active,
        },
        None => active,
    }
}

/// The mark of a status.
pub open spec fn glyph(s: GoalStatus) -> Seq<char> {
    match s {
        GoalStatus::Pending => "○"@,
        GoalStatus::InProgress => "◐"@,
        GoalStatus::Completed => "✓"@,
        GoalStatus::AgentMode => "⤴"@,
    }
}

/// The mark of a status.
pub fn status_glyph(s: GoalStatus) -> (r: &'static str)
    ensures
        r@ == glyph(s),
{
    match s {
        GoalStatus::Pending => "○",
        GoalStatus::InProgress => "◐",
        GoalStatus::Completed => "✓",
        GoalStatus::AgentMode => "⤴",
    }
}

/// A goal as a choice of the move picker.
pub open spec fn target_of(g: Goal) -> (Option<Seq<char>>, Seq<char>) {
    (Some(g.id@), glyph(g.status) + " "@ + g.title@)
}

fn target_label(g: &Goal) -> (r: String)
    ensures
        r@ == glyph(g.status) + " "@ + g.title@,
{
    concat(concat(status_glyph(g.status), " ").as_str(), g.title.as_str())
}

/// What the choices of the move picker are.
pub open spec fn choice_views(s: Seq<(Option<String>, String)>) -> Seq<(Option<Seq<char>>, Seq<char>)> {
    s.map_values(|c: (Option<String>, String)| (opt(c.0), c.1@))
}

/// The first choice of a parent, or the first of all.
pub open spec fn choice_position(
    s: Seq<(Option<Seq<char>>, Seq<char>)>,
    parent: Option<Seq<char>>,
) -> int
    decreases s.len(),
{
    choice_from(s, parent, 0)
}

/// The first choice of a parent from a position on, or the first of all.
pub open spec fn choice_from(
    s: Seq<(Option<Seq<char>>, Seq<char>)>,
    parent: Option<Seq<char>>,
    i: int,
) -> int
    decreases s.len() - i,
{
    if i < 0 || i >= s.len() {
        0
    } else if s[i].0 == parent {
        i
    } else {
        choice_from(s, parent, i + 1)
    }
}

fn position_of(s: &Vec<(Option<String>, String)>, parent: &Option<String>) -> (r: usize)
    ensures
        r == choice_position(choice_views(s@), opt(*parent)),
{
    let mut i: usize = 0;
    while i < s.len()
        invariant
            i <= s@.len(),
            choice_position(choice_views(s@), opt(*parent)) == choice_from(
                choice_views(s@),
                opt(*parent),
                i as int,
            ),
        decreases s@.len() - i,
    {
        assert(choice_views(s@)[i as int].0 == opt(s@[i as int].0));
        if opt_eq(&s[i].0, parent) {
            return i;
        }
        i = i + 1;
    }
    0
}

proof fn lemma_found(goals: Seq<Goal>, id: Seq<char>)
    ensures
        find_goal(goals, id) is Some ==> find_goal(goals, id)->0.id@ == id && goals.contains(
            find_goal(goals, id)->0,
        ),
    decreases goals.len(),
{
    if goals.len() > 0 {
        if goals[0].id@ == id {
            assert(goals.contains(goals[0]));
        } else {
            lemma_found(goals.drop_first(), id);
            if find_goal(goals, id) is Some {
                let g = find_goal(goals, id)->0;
                let t = goals.drop_first();
                let k = choose|k: int| 0 <= k < t.len() && t[k] == g;
                assert(goals[k + 1] == g);
            }
        }
    }
}

/// The position of a goal among others.
pub open spec fn goal_position(s: Seq<Goal>, id: Seq<char>) -> Option<int>
    decreases s.len(),
{
    if s.len() == 0 {
        None
    } else if s[0].id@ == id {
        Some(0)
    } else {
        match goal_position(s.drop_first(), id) {
            Some(i) => Some(i + 1),
            None => None,
        }
    }
}

proof fn lemma_goal_position(s: Seq<Goal>, id: Seq<char>)
    ensures
        match goal_position(s, id) {
            Some(i) => 0 <= i < s.len() && s[i].id@ == id && forall|j: int|
                0 <= j < i ==> (#[trigger] s[j]).id@ != id,
            None => forall|j: int| 0 <= j < s.len() ==> (#[trigger] s[j]).id@ != id,
        },
    decreases s.len(),
{
    if s.len() > 0 && s[0].id@ != id {
        let t = s.drop_first();
        lemma_goal_position(t, id);
        assert forall|j: int| 0 < j < s.len() implies s[j] == t[j - 1] by {}
    }
}

fn position_in(s: &Vec<Goal>, id: &str) -> (r: Option<usize>)
    ensures
        match r {
            Some(i) => goal_position(s@, id@) == Some(i as int) && i < s.len(),
            None => goal_position(s@, id@) is None,
        },
{
    let mut i: usize = 0;
    while i < s.len()
        invariant
            i <= s@.len(),
            forall|j: int| 0 <= j < i ==> (#[trigger] s@[j]).id@ != id@,
        decreases s@.len() - i,
    {
        if str_eq(s[i].id.as_str(), id) {
            proof {
                lemma_goal_position(s@, id@);
            }
            return Some(i);
        }
        i = i + 1;
    }
    proof {
        lemma_goal_position(s@, id@);
    }
    None
}

/// Two goals that trade places: the new place of each.
#[derive(Debug)]
pub struct Swap {
    pub first_id: String,
    pub first_order: i64,
    pub second_id: String,
    pub second_order: i64,
}

/// Whether two goals trade places.
pub open spec fn swaps(s: Swap, a: Goal, b: Goal) -> bool {
    s.first_id == a.id && s.first_order == b.sort_order && s.second_id == b.id && s.second_order
        == a.sort_order
}

fn swap_of(a: &Goal, b: &Goal) -> (r: Swap)
    ensures
        swaps(r, *a, *b),
{
    Swap {
        first_id: a.id.clone(),
        first_order: b.sort_order,
        second_id: b.id.clone(),
        second_order: a.sort_order,
    }
}

/// What is written for one goal of a swap.
pub fn order_update(sort_order: i64) -> (r: UpdateGoalInput)
    ensures
        r == (UpdateGoalInput { sort_order: Some(sort_order), ..no_change() }),
{
    UpdateGoalInput { sort_order: Some(sort_order), ..UpdateGoalInput::default() }
}

/// Whatever choice of the move picker is taken, a tree without cycles stays one.
pub proof fn law_every_move_is_safe(goals: Seq<Goal>, id: Seq<char>, target: Goal)
    requires
        acyclic(goals),
        goals.filter(|g: Goal| g.id@ != id && !is_descendant(goals, id, g.id@)).contains(target),
    ensures
        acyclic(moved(goals, id, Some(target.id))),
        acyclic(moved(goals, id, None)),
{
    broadcast use vstd::seq_lib::group_filter_ensures;

    let pred = |g: Goal| g.id@ != id && !is_descendant(goals, id, g.id@);
    let k = choose|k: int| 0 <= k < goals.filter(pred).len() && goals.filter(pred)[k] == target;
    assert(pred(goals.filter(pred)[k]));
    law_move_keeps_the_tree_acyclic(goals, id, Some(target.id));
    law_move_keeps_the_tree_acyclic(goals, id, None);
}

/// A swap exchanges the two places and touches nothing else.
pub proof fn law_swap_twice_is_nothing(s: Swap, t: Swap, a: Goal, b: Goal)
    requires
        swaps(s, a, b),
        swaps(
            t,
            (Goal { sort_order: s.first_order, ..a }),
            (Goal { sort_order: s.second_order, ..b }),
        ),
    ensures
        t.first_order == a.sort_order,
        t.second_order == b.sort_order,
{
}

/// A goal is found by its id exactly where there is one with that id.
pub proof fn law_goals_are_found_by_id(goals: Seq<Goal>, g: Goal, id: Seq<char>)
    ensures
        unique_ids(goals) && goals.contains(g) ==> find_goal(goals, g.id@) == Some(g),
        find_goal(goals, id) is None <==> forall|i: int|
            0 <= i < goals.len() ==> (#[trigger] goals[i]).id@ != id,
    decreases goals.len(),
{
    lemma_found(goals, id);
    if goals.len() > 0 {
        let t = goals.drop_first();
        assert(forall|i: int| 0 <= i < t.len() ==> t[i] == #[trigger] goals[i + 1]);
        if unique_ids(goals) {
            assert forall|i: int, j: int| 0 <= i < j < t.len() implies (#[trigger] t[i]).id@ != (
            #[trigger] t[j]).id@ by {
                assert(goals[i + 1].id@ != goals[j + 1].id@);
            }
        }
        if goals.contains(g) && goals[0] != g {
            let k = choose|k: int| 0 <= k < goals.len() && goals[k] == g;
            assert(t[k - 1] == g);
            if unique_ids(goals) {
                assert(goals[0].id@ != goals[k].id@);
            }
        }
        law_goals_are_found_by_id(t, g, id);
        if goals[0].id@ != id {
            if find_goal(t, id) is None {
                assert forall|i: int| 0 <= i < goals.len() implies (#[trigger] goals[i]).id@ != id by {
                    if i > 0 {
                        assert(t[i - 1].id@ != id);
                    }
                }
            } else {
                let k = choose|k: int| 0 <= k < t.len() && (#[trigger] t[k]).id@ == id;
                assert(goals[k + 1].id@ == id);
            }
        }
    }
}

/// A goal that moves below another joins the sheet of that goal, whatever sheet is
/// active; where that has none, and at the root, it joins the active sheet.
pub proof fn law_a_moved_goal_joins_its_parent(
    goals: Seq<Goal>,
    p: Goal,
    active: Option<Seq<char>>,
)
    requires
        unique_ids(goals),
        goals.contains(p),
    ensures
        p.sheet_id is Some ==> sheet_for(goals, Some(p.id@), active) == Some(p.sheet_id->0@),
        p.sheet_id is None ==> sheet_for(goals, Some(p.id@), active) == active,
        sheet_for(goals, None, active) == active,
{
    law_goals_are_found_by_id(goals, p, p.id@);
}

/// Whether some goals are others after a move was written: the moved goal has its new
/// parent, sheet and place, and all else is as it was.
pub open spec fn after_move(after: Seq<Goal>, before: Seq<Goal>, m: Move, sort_order: i64) -> bool {
    &&& after.len() == before.len()
    &&& forall|i: int|
        0 <= i < before.len() ==> #[trigger] after[i] == if before[i].id@ == m.goal_id@ {
            Goal { parent_id: m.parent_id, sheet_id: m.sheet_id, sort_order, ..before[i] }
        } else {
            before[i]
        }
}

/// After a move below a goal, the moved goal is shown one level below that goal wherever
/// that goal is shown unfolded, whatever sheet is chosen.
pub proof fn law_a_moved_goal_is_shown_below_its_parent(
    before: Seq<Goal>,
    after: Seq<Goal>,
    m: Move,
    sort_order: i64,
    active: Option<Seq<char>>,
    sheet: Option<Seq<char>>,
    unfolded: Set<Seq<char>>,
    p: Goal,
    k: int,
    i: int,
)
    requires
        unique_ids(before),
        before.contains(p),
        p.id@ != m.goal_id@,
        0 <= k < before.len(),
        before[k].id@ == m.goal_id@,
        opt(m.parent_id) == Some(p.id@),
        opt(m.sheet_id) == sheet_for(before, opt(m.parent_id), active),
        after_move(after, before, m, sort_order),
        0 <= i < visible_rows(after, sheet, unfolded).len(),
        visible_rows(after, sheet, unfolded)[i].goal.id@ == p.id@,
        unfolded.contains(p.id@),
    ensures
        exists|j: int| #[trigger]
            hangs_below(visible_rows(after, sheet, unfolded), i, j) && visible_rows(
                after,
                sheet,
                unfolded,
            )[j].goal == after[k],
{
    let rows = visible_rows(after, sheet, unfolded);
    let g = after[k];
    assert forall|a: int, b: int| 0 <= a < b < after.len() implies (#[trigger] after[a]).id@ != (
    #[trigger] after[b]).id@ by {
        assert(before[a].id@ != before[b].id@);
    }
    law_a_moved_goal_joins_its_parent(before, p, active);
    law_rows_hang_below_their_parents(after, sheet, unfolded, i);
    let q = choose|q: int| 0 <= q < after.len() && after[q] == rows[i].goal;
    let x = choose|x: int| 0 <= x < before.len() && before[x] == p;
    assert(after[x] == before[x]);
    if q < x {
        assert(after[q].id@ != after[x].id@);
    } else if x < q {
        assert(after[x].id@ != after[q].id@);
    }
    assert(after.contains(g));
    law_a_sheet_holds_its_goals(after, sheet, g);
    law_rows_are_marked(after, sheet, unfolded, i);
    assert(rows[i].expanded);
    law_rows_show_what_is_unfolded(after, sheet, unfolded, g);
    let j = choose|j: int| 0 <= j < rows.len() && (#[trigger] rows[j]).goal == g;
    law_rows_hang_below_their_parents(after, sheet, unfolded, j);
    let h = choose|h: int| #[trigger] hangs_below(rows, h, j);
    law_rows_show_each_goal_once(after, sheet, unfolded);
    if h < i {
        assert(rows[h].goal.id@ != rows[i].goal.id@);
    } else if i < h {
        assert(rows[i].goal.id@ != rows[h].goal.id@);
    }
    assert(hangs_below(rows, i, j));
}

/// A goal may be moved below every goal but itself and those below it, and below no other;
/// the choices keep the order of the goals.
pub proof fn law_a_goal_may_move_below_any_other(a: App, g: Goal, t: Goal)
    requires
        a.wf(),
    ensures
        a.move_targets(g.id@).contains(t) <==> a.goals@.contains(t) && t.id@ != g.id@ && !(exists|
            path: Seq<Goal>,
        | #[trigger]
            is_branch(a.goals@, path) && path[0].id@ == g.id@ && path.last() == t),
{
    broadcast use vstd::seq_lib::group_filter_ensures;

    let pred = |x: Goal| x.id@ != g.id@ && !is_descendant(a.goals@, g.id@, x.id@);
    assert(a.move_targets(g.id@) == a.goals@.filter(pred));
    if a.goals@.contains(t) && pred(t) {
        let i = choose|i: int| 0 <= i < a.goals@.len() && a.goals@[i] == t;
        assert(a.goals@.filter(pred).contains(a.goals@[i]));
    }
    if a.goals@.filter(pred).contains(t) {
        let k = choose|k: int|
            0 <= k < a.goals@.filter(pred).len() && a.goals@.filter(pred)[k] == t;
        assert(pred(a.goals@.filter(pred)[k]));
        lemma_filter_member(a.goals@, pred, k);
    }
    if a.goals@.contains(t) {
        law_descendants_are_all_that_hangs_below(a.goals@, g, t);
    }
}

/// The move picker opens on the choice of the goal's parent, where there is one, and on the
/// first of all otherwise.
pub proof fn law_the_picker_opens_on_the_parent(
    s: Seq<(Option<Seq<char>>, Seq<char>)>,
    parent: Option<Seq<char>>,
    i: int,
)
    requires
        0 <= i,
    ensures
        (exists|k: int| i <= k < s.len() && (#[trigger] s[k]).0 == parent) ==> i <= choice_from(
            s,
            parent,
            i,
        ) < s.len() && s[choice_from(s, parent, i)].0 == parent,
        (forall|k: int| i <= k < s.len() ==> (#[trigger] s[k]).0 != parent) ==> choice_from(
            s,
            parent,
            i,
        ) == 0,
        choice_position(s, parent) == choice_from(s, parent, 0),
    decreases s.len() - i,
{
    if i < s.len() && s[i].0 != parent {
        law_the_picker_opens_on_the_parent(s, parent, i + 1);
    }
}

/// The siblings of a goal are the goals with its parent, itself among them, in sibling
/// order.
pub proof fn law_siblings_share_a_parent(a: App, g: Goal, h: Goal)
    ensures
        a.siblings(g).contains(h) <==> a.goals@.contains(h) && opt(h.parent_id) == opt(g.parent_id),
        in_order(a.siblings(g)),
{
    lemma_children(a.goals@, opt(g.parent_id), h);
    law_sorted_is_an_ordered_permutation(below(a.goals@, opt(g.parent_id)));
}

/// Two goals that trade places stand the other way round afterwards: the one that stood
/// below has the smaller sort order, and each has the order that the other had.
pub proof fn law_trading_places_turns_the_order(s: Swap, a: Goal, b: Goal)
    requires
        swaps(s, a, b),
    ensures
        s.first_id@ == a.id@ && s.second_id@ == b.id@,
        before(b, a) && a.sort_order != b.sort_order ==> before(
            Goal { sort_order: s.first_order, ..a },
            Goal { sort_order: s.second_order, ..b },
        ) && s.first_order < s.second_order,
        before(a, b) && a.sort_order != b.sort_order ==> before(
            Goal { sort_order: s.second_order, ..b },
            Goal { sort_order: s.first_order, ..a },
        ) && s.second_order < s.first_order,
        s.first_order == b.sort_order && s.second_order == a.sort_order,
{
}

/// A selection is kept as it is while it is on the list, and falls on the last entry where
/// the list has become shorter.
pub proof fn law_a_selection_stays_on_the_list(sel: int, len: int)
    requires
        0 <= sel,
        0 <= len,
    ensures
        sel < len ==> within(sel, len) == sel,
        sel >= len > 0 ==> within(sel, len) == len - 1,
        len == 0 ==> within(sel, len) == 0,
{
}

/// The marks of the statuses are all different.
pub proof fn law_each_status_has_its_mark(a: GoalStatus, b: GoalStatus)
    ensures
        glyph(a) == glyph(b) <==> a == b,
        glyph(GoalStatus::Completed) == "✓"@,
        glyph(GoalStatus::Pending) == "○"@,
{
    reveal_strlit("○");
    reveal_strlit("◐");
    reveal_strlit("✓");
    reveal_strlit("⤴");
    assert("○"@[0] != "◐"@[0]);
    assert("○"@[0] != "✓"@[0]);
    assert("○"@[0] != "⤴"@[0]);
    assert("◐"@[0] != "✓"@[0]);
    assert("◐"@[0] != "⤴"@[0]);
    assert("✓"@[0] != "⤴"@[0]);
}

/// The move picker of a goal offers the root first, and behind it every other goal that it
/// may move below, by its id and with its mark and title; it opens on the goal's parent and
/// changes nothing else.
pub proof fn law_the_move_picker_offers_the_root_and_the_targets(
    after: App,
    before: App,
    goal_id: String,
    g: Goal,
    k: int,
)
    requires
        after.picks_move(before, goal_id),
        find_goal(before.goals@, goal_id@) == Some(g),
        0 <= k < before.move_targets(goal_id@).len(),
    ensures
        after.goals == before.goals && after.selected == before.selected,
        after.mode == (Mode::MovePicker { goal_id }),
        after.move_choices@.len() == before.move_targets(goal_id@).len() + 1,
        after.move_choices@[0].0 is None,
        after.move_choices@[k + 1].0 is Some && after.move_choices@[k + 1].0->0@
            == before.move_targets(goal_id@)[k].id@,
        after.move_choices@[k + 1].1@ == glyph(before.move_targets(goal_id@)[k].status) + " "@
            + before.move_targets(goal_id@)[k].title@,
        after.move_selected < after.move_choices@.len(),
        g.parent_id is None ==> after.move_selected == 0,
{
    let t = before.move_targets(goal_id@);
    let views = choice_views(after.move_choices@);
    assert(views.len() == after.move_choices@.len());
    assert(views[0] == (None::<Seq<char>>, "∅  (root)"@));
    assert(views[0].0 == opt(after.move_choices@[0].0));
    assert(views[k + 1] == target_of(t[k]));
    assert(views[k + 1] == (opt(after.move_choices@[k + 1].0), after.move_choices@[k + 1].1@));
    lemma_choice_from_fits(views, opt(g.parent_id), 0);
}

proof fn lemma_choice_from_fits(
    s: Seq<(Option<Seq<char>>, Seq<char>)>,
    id: Option<Seq<char>>,
    i: int,
)
    requires
        s.len() > 0,
        0 <= i,
    ensures
        0 <= choice_from(s, id, i) < s.len(),
    decreases s.len() - i,
{
    if i < s.len() {
        lemma_choice_from_fits(s, id, i + 1);
    }
}

/// Where the parent of a goal is among the choices of its move picker, the picker opens on
/// it.
pub proof fn law_the_move_picker_opens_on_the_parent(
    after: App,
    before: App,
    goal_id: String,
    g: Goal,
    k: int,
)
    requires
        after.picks_move(before, goal_id),
        find_goal(before.goals@, goal_id@) == Some(g),
        0 <= k < before.move_targets(goal_id@).len(),
        opt(g.parent_id) == Some(before.move_targets(goal_id@)[k].id@),
    ensures
        after.move_selected < after.move_choices@.len(),
        opt(after.move_choices@[after.move_selected as int].0) == opt(g.parent_id),
{
    law_the_move_picker_offers_the_root_and_the_targets(after, before, goal_id, g, k);
    let views = choice_views(after.move_choices@);
    assert(views[k + 1].0 == opt(after.move_choices@[k + 1].0));
    assert(views[k + 1].0 == opt(g.parent_id));
    law_the_picker_opens_on_the_parent(views, opt(g.parent_id), 0);
    let i = choice_from(views, opt(g.parent_id), 0);
    assert(views[i].0 == opt(after.move_choices@[i].0));
}

/// A rule is entered with or without white space around it.
pub proof fn law_rules_are_entered_without_blanks(a: App, l: Seq<char>, m: Seq<char>, r: Seq<char>)
    requires
        a.input.text@ == l + m + r,
        crate::text::is_blank(l),
        crate::text::is_blank(r),
        m.len() > 0,
        !crate::text::is_white_space(m[0]),
        !crate::text::is_white_space(m.last()),
    ensures
        a.entered_rule() == lowercase(m),
{
    crate::text::law_trimming_cuts_blanks_at_both_ends(l, m, r);
}

} // verus!

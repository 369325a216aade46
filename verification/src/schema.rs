//! The records that the goal tracker keeps.

use crate::text::opt_clone;
use vstd::prelude::*;

verus! {

/// Where a goal stands.
#[derive(Clone, Copy, Debug, PartialEq, Eq, Structural)]
pub enum GoalStatus {
    Pending,
    InProgress,
    Completed,
    AgentMode,
}

/// Where the agent run of a goal stands.
#[derive(Clone, Copy, Debug, PartialEq, Eq, Structural)]
pub enum AgentStatus {
    Queued,
    Running,
    Completed,
    Failed,
}

/// One goal. `parent_id` is `None` for a root goal.
#[derive(Debug)]
pub struct Goal {
    pub id: String,
    pub title: String,
    pub description: Option<String>,
    pub status: GoalStatus,
    pub parent_id: Option<String>,
    pub sheet_id: Option<String>,
    pub sort_order: i64,
    pub created_at: String,
    pub updated_at: String,
    pub completed_at: Option<String>,
    pub agent_status: Option<AgentStatus>,
    pub agent_result: Option<String>,
    pub agent_progress: Option<String>,
    pub metadata: Option<String>,
    pub due_at: Option<String>,
    pub remind_at: Option<String>,
    pub repeat_rule: Option<String>,
}

impl Clone for Goal {
    fn clone(&self) -> (r: Goal)
        ensures
            r == *self,
    {
        Goal {
            id: self.id.clone(),
            title: self.title.clone(),
            description: opt_clone(&self.description),
            status: self.status,
            parent_id: opt_clone(&self.parent_id),
            sheet_id: opt_clone(&self.sheet_id),
            sort_order: self.sort_order,
            created_at: self.created_at.clone(),
            updated_at: self.updated_at.clone(),
            completed_at: opt_clone(&self.completed_at),
            agent_status: self.agent_status,
            agent_result: opt_clone(&self.agent_result),
            agent_progress: opt_clone(&self.agent_progress),
            metadata: opt_clone(&self.metadata),
            due_at: opt_clone(&self.due_at),
            remind_at: opt_clone(&self.remind_at),
            repeat_rule: opt_clone(&self.repeat_rule),
        }
    }
}

/// A sheet: a named group of goals.
#[derive(Debug)]
pub struct GoalSheet {
    pub id: String,
    pub name: String,
    pub created_at: String,
    pub deleted_at: Option<String>,
}

impl Clone for GoalSheet {
    fn clone(&self) -> (r: GoalSheet)
        ensures
            r == *self,
    {
        GoalSheet {
            id: self.id.clone(),
            name: self.name.clone(),
            created_at: self.created_at.clone(),
            deleted_at: opt_clone(&self.deleted_at),
        }
    }
}

/// What a new goal is made of.
#[derive(Debug)]
pub struct CreateGoalInput {
    pub title: String,
    pub description: Option<String>,
    pub parent_id: Option<String>,
    pub sheet_id: Option<String>,
    pub sort_order: Option<i64>,
    pub due_at: Option<String>,
    pub remind_at: Option<String>,
    pub repeat_rule: Option<String>,
}

/// Changes to a goal: `None` leaves a field alone, `Some(None)` clears it.
#[derive(Debug)]
pub struct UpdateGoalInput {
    pub title: Option<String>,
    pub description: Option<Option<String>>,
    pub status: Option<GoalStatus>,
    pub parent_id: Option<Option<String>>,
    pub sort_order: Option<i64>,
    pub completed_at: Option<Option<String>>,
    pub agent_status: Option<Option<AgentStatus>>,
    pub agent_result: Option<Option<String>>,
    pub agent_progress: Option<Option<String>>,
    pub metadata: Option<Option<String>>,
    pub sheet_id: Option<Option<String>>,
    pub due_at: Option<Option<String>>,
    pub remind_at: Option<Option<String>>,
    pub repeat_rule: Option<Option<String>>,
}

/// The update that changes nothing.
pub open spec fn no_change() -> UpdateGoalInput {
    UpdateGoalInput {
        title: None,
        description: None,
        status: None,
        parent_id: None,
        sort_order: None,
        completed_at: None,
        agent_status: None,
        agent_result: None,
        agent_progress: None,
        metadata: None,
        sheet_id: None,
        due_at: None,
        remind_at: None,
        repeat_rule: None,
    }
}

impl Default for UpdateGoalInput {
    fn default() -> (r: UpdateGoalInput)
        ensures
            r == no_change(),
    {
        UpdateGoalInput {
            title: None,
            description: None,
            status: None,
            parent_id: None,
            sort_order: None,
            completed_at: None,
            agent_status: None,
            agent_result: None,
            agent_progress: None,
            metadata: None,
            sheet_id: None,
            due_at: None,
            remind_at: None,
            repeat_rule: None,
        }
    }
}

} // verus!

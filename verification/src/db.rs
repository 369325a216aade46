//! The database layer: the statements that the goal tracker runs and the rows
//! it reads back.
//!
//! Deletes are soft: a row gets a `deleted_at`, and every read leaves such rows
//! out. A statement carries the rows that it marks for the next sync.

use crate::collections::{map_of, StrMap};
use crate::json::{
    members, members_or_empty, merge_into, merged, new_object, no_members, object_text, parse_or_empty,
    put_string, string_text, to_text,
};
use crate::schema::{
    no_change, AgentStatus, CreateGoalInput, Goal, GoalSheet, GoalStatus, UpdateGoalInput,
};
use crate::text::{
    after_prefix, concat, from_chars, join, joined, opt, strip_prefix, texts, to_chars,
};
use vstd::prelude::*;

verus! {

/// A value of the database. `Other` stands for the kinds that nothing reads; the
/// statuses are stored by their names.
#[derive(Debug)]
pub enum DbValue {
    Null,
    Integer(i64),
    Text(String),
    Status(GoalStatus),
    Agent(AgentStatus),
    Other,
}

/// What a value is.
pub enum Val {
    Null,
    Integer(int),
    Text(Seq<char>),
    Status(GoalStatus),
    Agent(AgentStatus),
    Other,
}

impl View for DbValue {
    type V = Val;

    open spec fn view(&self) -> Val {
        match self {
            DbValue::Null => Val::Null,
            DbValue::Integer(n) => Val::Integer(*n as int),
            DbValue::Text(s) => Val::Text(s@),
            DbValue::Status(s) => Val::Status(*s),
            DbValue::Agent(s) => Val::Agent(*s),
            DbValue::Other => Val::Other,
        }
    }
}

/// What some values are.
pub open spec fn vals(s: Seq<DbValue>) -> Seq<Val> {
    s.map_values(|v: DbValue| v@)
}

/// A text, or null.
pub open spec fn text_or_null(s: Option<Seq<char>>) -> Val {
    match s {
        Some(t) => Val::Text(t),
        None => Val::Null,
    }
}

fn nullable(s: &Option<String>) -> (r: DbValue)
    ensures
        r@ == text_or_null(opt(*s)),
{
    match s {
        Some(t) => DbValue::Text(t.clone()),
        None => DbValue::Null,
    }
}

/// A statement with its parameters, and the rows that it marks for the next sync
/// by table and id.
#[derive(Debug)]
pub struct Statement {
    pub sql: String,
    pub params: Vec<DbValue>,
    pub marks: Vec<(String, String)>,
}

/// What a statement is.
pub struct Stmt {
    pub sql: Seq<char>,
    pub params: Seq<Val>,
    pub marks: Seq<(Seq<char>, Seq<char>)>,
}

/// A statement without parameters.
pub open spec fn stmt(sql: Seq<char>) -> Stmt {
    Stmt { sql, params: Seq::empty(), marks: Seq::empty() }
}

impl Stmt {
    /// The statement with one more parameter.
    pub open spec fn with(self, v: Val) -> Stmt {
        Stmt { params: self.params.push(v), ..self }
    }

    /// The statement that marks one more row.
    pub open spec fn marking(self, table: Seq<char>, id: Seq<char>) -> Stmt {
        Stmt { marks: self.marks.push((table, id)), ..self }
    }
}

impl View for Statement {
    type V = Stmt;

    open spec fn view(&self) -> Stmt {
        Stmt {
            sql: self.sql@,
            params: vals(self.params@),
            marks: self.marks@.map_values(|m: (String, String)| (m.0@, m.1@)),
        }
    }
}

impl Statement {
    /// A statement without parameters.
    pub fn new(sql: &str) -> (r: Statement)
        ensures
            r@ == stmt(sql@),
    {
        let r = Statement { sql: sql.to_owned(), params: Vec::new(), marks: Vec::new() };
        assert(r@.params =~= Seq::empty());
        assert(r@.marks =~= Seq::empty());
        r
    }

    /// The statement with one more parameter.
    pub fn param(self, v: DbValue) -> (r: Statement)
        ensures
            r@ == self@.with(v@),
    {
        let mut s = self;
        s.params.push(v);
        assert(s@.params =~= self@.params.push(v@));
        assert(s@.marks =~= self@.marks);
        s
    }

    /// The statement with one more text.
    pub fn text(self, v: &str) -> (r: Statement)
        ensures
            r@ == self@.with(Val::Text(v@)),
    {
        self.param(DbValue::Text(v.to_owned()))
    }

    /// The statement that marks one more row.
    pub fn mark(self, table: &str, id: &str) -> (r: Statement)
        ensures
            r@ == self@.marking(table@, id@),
    {
        let mut s = self;
        s.marks.push((table.to_owned(), id.to_owned()));
        assert(s@.marks =~= self@.marks.push((table@, id@)));
        assert(s@.params =~= self@.params);
        s
    }
}

// ---------- goals ----------

/// The columns of a goal, in the order in which rows are read.
pub open spec fn select_cols() -> Seq<char> {
    "id, title, description, status, parent_id, sheet_id, sort_order, created_at, updated_at, completed_at, agent_status, agent_result, agent_progress, metadata, due_at, remind_at, repeat_rule"@
}

fn cols() -> (r: &'static str)
    ensures
        r@ == select_cols(),
{
    "id, title, description, status, parent_id, sheet_id, sort_order, created_at, updated_at, completed_at, agent_status, agent_result, agent_progress, metadata, due_at, remind_at, repeat_rule"
}

fn select_goals(rest: &str) -> (r: String)
    ensures
        r@ == "SELECT "@ + select_cols() + rest@,
{
    concat(concat("SELECT ", cols()).as_str(), rest)
}

/// Reads all goals that are not deleted.
pub fn get_all() -> (r: Statement)
    ensures
        r@ == stmt(
            "SELECT "@ + select_cols()
                + " FROM goals WHERE deleted_at IS NULL ORDER BY parent_id IS NOT NULL, parent_id, sort_order, created_at"@,
        ),
{
    let sql = select_goals(
        " FROM goals WHERE deleted_at IS NULL ORDER BY parent_id IS NOT NULL, parent_id, sort_order, created_at",
    );
    Statement::new(sql.as_str())
}

/// Reads one goal that is not deleted.
pub fn get(id: &str) -> (r: Statement)
    ensures
        r@ == stmt(
            "SELECT "@ + select_cols() + " FROM goals WHERE id = ? AND deleted_at IS NULL"@,
        ).with(Val::Text(id@)),
{
    let sql = select_goals(" FROM goals WHERE id = ? AND deleted_at IS NULL");
    Statement::new(sql.as_str()).text(id)
}

/// Reads the root goals.
pub fn get_roots() -> (r: Statement)
    ensures
        r@ == stmt(
            "SELECT "@ + select_cols()
                + " FROM goals WHERE parent_id IS NULL AND deleted_at IS NULL ORDER BY sort_order, created_at"@,
        ),
{
    let sql = select_goals(
        " FROM goals WHERE parent_id IS NULL AND deleted_at IS NULL ORDER BY sort_order, created_at",
    );
    Statement::new(sql.as_str())
}

/// Reads the children of a goal.
pub fn get_children(parent_id: &str) -> (r: Statement)
    ensures
        r@ == stmt(
            "SELECT "@ + select_cols()
                + " FROM goals WHERE parent_id = ? AND deleted_at IS NULL ORDER BY sort_order, created_at"@,
        ).with(Val::Text(parent_id@)),
{
    let sql = select_goals(
        " FROM goals WHERE parent_id = ? AND deleted_at IS NULL ORDER BY sort_order, created_at",
    );
    Statement::new(sql.as_str()).text(parent_id)
}

/// The id of a new goal: below a parent, the parent's id, a point and a new
/// segment; at the root, the segment alone.
pub open spec fn path_id(parent: Option<Seq<char>>, segment: Seq<char>) -> Seq<char> {
    match parent {
        Some(p) => p + "."@ + segment,
        None => segment,
    }
}

/// Decides the id of a new goal. `parent_exists` says whether the goal named as
/// its parent was found.
pub fn new_goal_id(
    parent_id: &Option<String>,
    parent_exists: bool,
    segment: &str,
) -> (r: Result<String, String>)
    ensures
        match r {
            Ok(id) => (parent_id is None || parent_exists) && id@ == path_id(
                opt(*parent_id),
                segment@,
            ),
            Err(e) => parent_id is Some && !parent_exists && e@
                == "create: parent goal not found: "@ + parent_id->0@,
        },
{
    match parent_id {
        Some(p) => {
            if parent_exists {
                Ok(concat(concat(p.as_str(), ".").as_str(), segment))
            } else {
                Err(concat("create: parent goal not found: ", p.as_str()))
            }
        },
        None => Ok(segment.to_owned()),
    }
}

/// The id of a goal carries the ids of all its ancestors: a goal's id begins
/// with its parent's id and a point.
pub proof fn law_ids_are_paths(parent: Seq<char>, segment: Seq<char>)
    ensures
        path_id(Some(parent), segment).take(parent.len() as int) == parent,
        path_id(Some(parent), segment)[parent.len() as int] == '.',
        path_id(Some(parent), segment).skip(parent.len() as int + 1) == segment,
{
    reveal_strlit(".");
    assert(path_id(Some(parent), segment).take(parent.len() as int) =~= parent);
    assert(path_id(Some(parent), segment).skip(parent.len() as int + 1) =~= segment);
}

/// Writes a new goal, pending, at a time.
pub open spec fn insert_goal(id: Seq<char>, input: CreateGoalInput, now: Seq<char>) -> Stmt {
    stmt(
        "INSERT INTO goals (id, title, description, status, parent_id, sheet_id, sort_order, created_at, updated_at) VALUES (?, ?, ?, 'pending', ?, ?, ?, ?, ?)"@,
    ).with(Val::Text(id)).with(Val::Text(input.title@)).with(
        text_or_null(opt(input.description)),
    ).with(text_or_null(opt(input.parent_id))).with(text_or_null(opt(input.sheet_id))).with(
        Val::Integer(
            match input.sort_order {
                Some(n) => n as int,
                None => 0,
            },
        ),
    ).with(Val::Text(now)).with(Val::Text(now)).marking("goals"@, id)
}

/// Writes a new goal.
pub fn create(id: &str, input: &CreateGoalInput, now: &str) -> (r: Statement)
    ensures
        r@ == insert_goal(id@, *input, now@),
{
    let sort: i64 = match input.sort_order {
        Some(n) => n,
        None => 0,
    };
    Statement::new(
        "INSERT INTO goals (id, title, description, status, parent_id, sheet_id, sort_order, created_at, updated_at) VALUES (?, ?, ?, 'pending', ?, ?, ?, ?, ?)",
    ).text(id).text(input.title.as_str()).param(nullable(&input.description)).param(
        nullable(&input.parent_id),
    ).param(nullable(&input.sheet_id)).param(DbValue::Integer(sort)).text(now).text(now).mark(
        "goals",
        id,
    )
}

/// A column to be set and its value.
pub open spec fn set_col(
    list: Seq<(Seq<char>, Val)>,
    col: Seq<char>,
    value: Option<Val>,
) -> Seq<(Seq<char>, Val)> {
    match value {
        Some(v) => list.push((col, v)),
        None => list,
    }
}

/// The value for a column that is always a text.
pub open spec fn text_val(v: Option<String>) -> Option<Val> {
    match v {
        Some(t) => Some(Val::Text(t@)),
        None => None,
    }
}

/// The value for a column that may be cleared.
pub open spec fn clearable(v: Option<Option<String>>) -> Option<Val> {
    match v {
        Some(s) => Some(text_or_null(opt(s))),
        None => None,
    }
}

/// The columns that an update sets, in the order it names them; the time of the
/// update always comes last.
pub open spec fn assignments(input: UpdateGoalInput, now: Seq<char>) -> Seq<(Seq<char>, Val)> {
    let s = Seq::<(Seq<char>, Val)>::empty();
    let s = set_col(
        s,
        "title"@,
        text_val(input.title),
    );
    let s = set_col(
        s,
        "description"@,
        clearable(input.description),
    );
    let s = set_col(
        s,
        "status"@,
        match input.status {
            Some(t) => Some(Val::Status(t)),
            None => None,
        },
    );
    let s = set_col(
        s,
        "sort_order"@,
        match input.sort_order {
            Some(n) => Some(Val::Integer(n as int)),
            None => None,
        },
    );
    let s = set_col(
        s,
        "completed_at"@,
        clearable(input.completed_at),
    );
    let s = set_col(
        s,
        "agent_status"@,
        match input.agent_status {
            Some(Some(t)) => Some(Val::Agent(t)),
            Some(None) => Some(Val::Null),
            None => None,
        },
    );
    let s = set_col(
        s,
        "agent_result"@,
        clearable(input.agent_result),
    );
    let s = set_col(
        s,
        "agent_progress"@,
        clearable(input.agent_progress),
    );
    let s = set_col(
        s,
        "metadata"@,
        clearable(input.metadata),
    );
    let s = set_col(
        s,
        "parent_id"@,
        clearable(input.parent_id),
    );
    let s = set_col(
        s,
        "sheet_id"@,
        clearable(input.sheet_id),
    );
    let s = set_col(
        s,
        "due_at"@,
        clearable(input.due_at),
    );
    let s = set_col(
        s,
        "remind_at"@,
        clearable(input.remind_at),
    );
    let s = set_col(
        s,
        "repeat_rule"@,
        clearable(input.repeat_rule),
    );
    s.push(("updated_at"@, Val::Text(now)))
}

/// One assignment of an update.
pub open spec fn assign_text(col: Seq<char>) -> Seq<char> {
    col + " = ?"@
}

/// An update of a goal.
pub open spec fn update_goal(id: Seq<char>, input: UpdateGoalInput, now: Seq<char>) -> Stmt {
    let list = assignments(input, now);
    Stmt {
        sql: "UPDATE goals SET "@ + joined(
            list.map_values(|a: (Seq<char>, Val)| assign_text(a.0)),
            ", "@,
        ) + " WHERE id = ?"@,
        params: list.map_values(|a: (Seq<char>, Val)| a.1).push(Val::Text(id)),
        marks: seq![("goals"@, id)],
    }
}

/// The columns and values gathered for an update.
struct Assignments {
    fields: Vec<String>,
    params: Vec<DbValue>,
}

impl Assignments {
    spec fn holds(&self, list: Seq<(Seq<char>, Val)>) -> bool {
        &&& texts(self.fields@) == list.map_values(|a: (Seq<char>, Val)| assign_text(a.0))
        &&& vals(self.params@) == list.map_values(|a: (Seq<char>, Val)| a.1)
    }

    fn put(&mut self, col: &str, v: Option<DbValue>, Ghost(list): Ghost<Seq<(Seq<char>, Val)>>)
        requires
            old(self).holds(list),
        ensures
            final(self).holds(
                set_col(
                    list,
                    col@,
                    match v {
                        Some(x) => Some(x@),
                        None => None,
                    },
                ),
            ),
    {
        let ghost fields = texts(self.fields@);
        let ghost params = vals(self.params@);
        match v {
            Some(x) => {
                let f = concat(col, " = ?");
                let ghost ft = f@;
                let ghost xv = x@;
                self.fields.push(f);
                self.params.push(x);
                proof {
                    let next = list.push((col@, xv));
                    assert(texts(self.fields@) =~= fields.push(ft));
                    assert(vals(self.params@) =~= params.push(xv));
                    assert(next.map_values(|a: (Seq<char>, Val)| assign_text(a.0)) =~= fields.push(
                        ft,
                    ));
                    assert(next.map_values(|a: (Seq<char>, Val)| a.1) =~= params.push(xv));
                }
            },
            None => {},
        }
    }
}

fn clearable_value(v: &Option<Option<String>>) -> (r: Option<DbValue>)
    ensures
        (match r {
            Some(x) => Some(x@),
            None => None,
        }) == clearable(*v),
{
    match v {
        Some(s) => Some(nullable(s)),
        None => None,
    }
}

/// Updates a goal: the fields that the input sets, and always the time.
pub fn update(id: &str, input: &UpdateGoalInput, now: &str) -> (r: Statement)
    ensures
        r@ == update_goal(id@, *input, now@),
{
    let mut a = Assignments { fields: Vec::new(), params: Vec::new() };
    let ghost s = Seq::<(Seq<char>, Val)>::empty();
    proof {
        assert(texts(a.fields@) =~= s.map_values(|a: (Seq<char>, Val)| assign_text(a.0)));
        assert(vals(a.params@) =~= s.map_values(|a: (Seq<char>, Val)| a.1));
    }
    let v = match &input.title {
        Some(t) => Some(DbValue::Text(t.clone())),
        None => None,
    };
    a.put("title", v, Ghost(s));
    let ghost s = set_col(
        s,
        "title"@,
        text_val(input.title),
    );
    let v = clearable_value(&input.description);
    a.put("description", v, Ghost(s));
    let ghost s = set_col(
        s,
        "description"@,
        clearable(input.description),
    );
    let v = match input.status {
        Some(t) => Some(DbValue::Status(t)),
        None => None,
    };
    a.put("status", v, Ghost(s));
    let ghost s = set_col(
        s,
        "status"@,
        match input.status {
            Some(t) => Some(Val::Status(t)),
            None => None,
        },
    );
    let v = match input.sort_order {
        Some(n) => Some(DbValue::Integer(n)),
        None => None,
    };
    a.put("sort_order", v, Ghost(s));
    let ghost s = set_col(
        s,
        "sort_order"@,
        match input.sort_order {
            Some(n) => Some(Val::Integer(n as int)),
            None => None,
        },
    );
    let v = clearable_value(&input.completed_at);
    a.put("completed_at", v, Ghost(s));
    let ghost s = set_col(
        s,
        "completed_at"@,
        clearable(input.completed_at),
    );
    let v = match input.agent_status {
        Some(Some(t)) => Some(DbValue::Agent(t)),
        Some(None) => Some(DbValue::Null),
        None => None,
    };
    a.put("agent_status", v, Ghost(s));
    let ghost s = set_col(
        s,
        "agent_status"@,
        match input.agent_status {
            Some(Some(t)) => Some(Val::Agent(t)),
            Some(None) => Some(Val::Null),
            None => None,
        },
    );
    let v = clearable_value(&input.agent_result);
    a.put("agent_result", v, Ghost(s));
    let ghost s = set_col(
        s,
        "agent_result"@,
        clearable(input.agent_result),
    );
    let v = clearable_value(&input.agent_progress);
    a.put("agent_progress", v, Ghost(s));
    let ghost s = set_col(
        s,
        "agent_progress"@,
        clearable(input.agent_progress),
    );
    let v = clearable_value(&input.metadata);
    a.put("metadata", v, Ghost(s));
    let ghost s = set_col(
        s,
        "metadata"@,
        clearable(input.metadata),
    );
    let v = clearable_value(&input.parent_id);
    a.put("parent_id", v, Ghost(s));
    let ghost s = set_col(
        s,
        "parent_id"@,
        clearable(input.parent_id),
    );
    let v = clearable_value(&input.sheet_id);
    a.put("sheet_id", v, Ghost(s));
    let ghost s = set_col(
        s,
        "sheet_id"@,
        clearable(input.sheet_id),
    );
    let v = clearable_value(&input.due_at);
    a.put("due_at", v, Ghost(s));
    let ghost s = set_col(
        s,
        "due_at"@,
        clearable(input.due_at),
    );
    let v = clearable_value(&input.remind_at);
    a.put("remind_at", v, Ghost(s));
    let ghost s = set_col(
        s,
        "remind_at"@,
        clearable(input.remind_at),
    );
    let v = clearable_value(&input.repeat_rule);
    a.put("repeat_rule", v, Ghost(s));
    let ghost s = set_col(
        s,
        "repeat_rule"@,
        clearable(input.repeat_rule),
    );
    a.put("updated_at", Some(DbValue::Text(now.to_owned())), Ghost(s));
    let ghost list = assignments(*input, now@);
    assert(a.holds(list));
    let body = join(&a.fields, ", ");
    let sql = concat(concat("UPDATE goals SET ", body.as_str()).as_str(), " WHERE id = ?");
    let st = Statement { sql, params: a.params, marks: Vec::new() }.text(id).mark("goals", id);
    assert(st@.marks =~= seq![("goals"@, id@)]);
    st
}

/// Whether an update changes nothing.
pub fn is_empty(input: &UpdateGoalInput) -> (r: bool)
    ensures
        r == (*input == no_change()),
{

    input.title.is_none()
        && input.description.is_none()
        && input.status.is_none()
        && input.sort_order.is_none()
        && input.completed_at.is_none()
        && input.agent_status.is_none()
        && input.agent_result.is_none()
        && input.agent_progress.is_none()
        && input.metadata.is_none()
        && input.parent_id.is_none()
        && input.sheet_id.is_none()
        && input.due_at.is_none()
        && input.remind_at.is_none()
        && input.repeat_rule.is_none()
}

/// An update sets each column at most once, one placeholder for each value.
pub proof fn law_update_is_balanced(id: Seq<char>, input: UpdateGoalInput, now: Seq<char>)
    ensures
        update_goal(id, input, now).params.len() == assignments(input, now).len() + 1,
        update_goal(id, input, now).params.last() == Val::Text(id),
        assignments(input, now).last() == ("updated_at"@, Val::Text(now)),
{
}

/// The update that completes a goal at a time.
pub open spec fn completion(u: UpdateGoalInput, now: Seq<char>) -> bool {
    &&& u == (UpdateGoalInput {
        status: Some(GoalStatus::Completed),
        completed_at: u.completed_at,
        ..no_change()
    })
    &&& u.completed_at is Some && opt(u.completed_at->0) == Some(now)
}

/// Completes a goal.
pub fn complete(now: &str) -> (r: UpdateGoalInput)
    ensures
        completion(r, now@),
{
    UpdateGoalInput {
        status: Some(GoalStatus::Completed),
        completed_at: Some(Some(now.to_owned())),
        ..UpdateGoalInput::default()
    }
}

/// The update that makes a goal pending again.
pub open spec fn reopening() -> UpdateGoalInput {
    UpdateGoalInput {
        status: Some(GoalStatus::Pending),
        completed_at: Some(None),
        ..no_change()
    }
}

/// Makes a completed goal pending again.
pub fn uncomplete() -> (r: UpdateGoalInput)
    ensures
        r == reopening(),
{
    UpdateGoalInput {
        status: Some(GoalStatus::Pending),
        completed_at: Some(None),
        ..UpdateGoalInput::default()
    }
}

// ---------- deleting ----------

/// The walk that gathers a goal and all below it: the ids gathered, and those
/// whose children have still to be asked for.
#[derive(Debug)]
pub struct Subtree {
    pub out: Vec<String>,
    pub stack: Vec<String>,
}

/// The state of such a walk.
pub struct Walk {
    pub out: Seq<Seq<char>>,
    pub stack: Seq<Seq<char>>,
}

impl View for Subtree {
    type V = Walk;

    open spec fn view(&self) -> Walk {
        Walk { out: texts(self.out@), stack: texts(self.stack@) }
    }
}

/// The walk after its next id has been taken and its children found.
pub open spec fn step(w: Walk, kids: Seq<Seq<char>>) -> Walk {
    Walk { out: w.out.push(w.stack.last()), stack: w.stack.drop_last() + kids }
}

/// The walk that begins at a goal; nothing is gathered of a goal that is deleted.
pub open spec fn begun(root: Seq<char>, live: bool) -> Walk {
    Walk {
        out: Seq::empty(),
        stack: if live {
            seq![root]
        } else {
            Seq::empty()
        },
    }
}

impl Subtree {
    /// Begins at a goal, which is there or deleted.
    pub fn new(root: &str, live: bool) -> (r: Subtree)
        ensures
            r@ == begun(root@, live),
    {
        let mut stack: Vec<String> = Vec::new();
        if live {
            stack.push(root.to_owned());
        }
        let r = Subtree { out: Vec::new(), stack };
        assert(r@.out =~= begun(root@, live).out);
        assert(r@.stack =~= begun(root@, live).stack);
        r
    }

    /// The id whose children are asked for next; `None` when the walk is done.
    pub fn next(&self) -> (r: Option<&String>)
        ensures
            match r {
                Some(id) => self@.stack.len() > 0 && id@ == self@.stack.last(),
                None => self@.stack.len() == 0,
            },
    {
        if self.stack.len() == 0 {
            None
        } else {
            Some(&self.stack[self.stack.len() - 1])
        }
    }

    /// Takes in the children of the id that was asked for.
    pub fn found(&mut self, kids: &Vec<String>)
        requires
            old(self)@.stack.len() > 0,
        ensures
            final(self)@ == step(old(self)@, texts(kids@)),
    {
        let ghost start = self@;
        match self.stack.pop() {
            Some(id) => {
                let ghost taken = id@;
                self.out.push(id);
                assert(texts(self.out@) =~= start.out.push(taken));
            },
            None => {},
        }
        assert(texts(self.stack@) =~= start.stack.drop_last());
        let n: usize = kids.len();
        let mut i: usize = 0;
        assert(texts(kids@).take(0) =~= Seq::empty());
        while i < n
            invariant
                i <= n == kids@.len(),
                texts(self.out@) == start.out.push(start.stack.last()),
                texts(self.stack@) =~= start.stack.drop_last() + texts(kids@).take(i as int),
            decreases n - i,
        {
            let ghost prev = texts(self.stack@);
            let k = kids[i].clone();
            self.stack.push(k);
            assert(texts(self.stack@) =~= prev.push(kids@[i as int]@));
            assert(texts(kids@).take(i + 1) =~= texts(kids@).take(i as int).push(
                kids@[i as int]@,
            ));
            i = i + 1;
        }
        assert(texts(kids@).take(n as int) =~= texts(kids@));
    }
}

/// Whether an id is gathered or waiting.
pub open spec fn known(w: Walk, c: Seq<char>) -> bool {
    w.out.contains(c) || w.stack.contains(c)
}

/// Whether a walk misses nothing: the root and the children of all that was
/// gathered are gathered or waiting.
pub open spec fn misses_nothing(
    w: Walk,
    root: Seq<char>,
    children: spec_fn(Seq<char>) -> Seq<Seq<char>>,
) -> bool {
    &&& known(w, root)
    &&& forall|i: int, c: Seq<char>|
        0 <= i < w.out.len() && #[trigger] children(w.out[i]).contains(c) ==> known(w, c)
}

proof fn lemma_step_keeps(w: Walk, kids: Seq<Seq<char>>, c: Seq<char>)
    requires
        w.stack.len() > 0,
        known(w, c) || kids.contains(c),
    ensures
        known(step(w, kids), c),
{
    let n = step(w, kids);
    if w.out.contains(c) {
        let k = choose|k: int| 0 <= k < w.out.len() && w.out[k] == c;
        assert(n.out[k] == c);
    } else if w.stack.contains(c) {
        let k = choose|k: int| 0 <= k < w.stack.len() && w.stack[k] == c;
        if k == w.stack.len() - 1 {
            assert(n.out[w.out.len() as int] == c);
        } else {
            assert(n.stack[k] == c);
        }
    } else {
        let k = choose|k: int| 0 <= k < kids.len() && kids[k] == c;
        assert(n.stack[w.stack.len() - 1 + k] == c);
    }
}

/// A walk that misses nothing still does after the next step; when it is done,
/// it has gathered the root and, with every goal, all of the goal's children.
pub proof fn law_subtree_is_complete(
    w: Walk,
    root: Seq<char>,
    children: spec_fn(Seq<char>) -> Seq<Seq<char>>,
)
    requires
        misses_nothing(w, root, children),
    ensures
        w.stack.len() > 0 ==> misses_nothing(step(w, children(w.stack.last())), root, children),
        w.stack.len() == 0 ==> w.out.contains(root) && forall|i: int, c: Seq<char>|
            0 <= i < w.out.len() && #[trigger] children(w.out[i]).contains(c) ==> w.out.contains(c),
{
    if w.stack.len() > 0 {
        let id = w.stack.last();
        let kids = children(id);
        let n = step(w, kids);
        lemma_step_keeps(w, kids, root);
        assert forall|i: int, c: Seq<char>|
            0 <= i < n.out.len() && #[trigger] children(n.out[i]).contains(c) implies known(n, c) by {
            if i < w.out.len() {
                assert(n.out[i] == w.out[i]);
                assert(children(w.out[i]).contains(c));
            } else {
                assert(n.out[i] == id);
                assert(kids.contains(c));
            }
            lemma_step_keeps(w, kids, c);
        }
    } else {
        assert forall|i: int, c: Seq<char>|
            0 <= i < w.out.len() && #[trigger] children(w.out[i]).contains(c) implies
            w.out.contains(c) by {
            assert(known(w, c));
        }
    }
}

/// Whether a list of goals leads from one goal down to another, child by child.
pub open spec fn leads_down(
    path: Seq<Seq<char>>,
    root: Seq<char>,
    id: Seq<char>,
    children: spec_fn(Seq<char>) -> Seq<Seq<char>>,
) -> bool {
    &&& path.len() > 0
    &&& path[0] == root
    &&& path.last() == id
    &&& forall|i: int|
        0 < i < path.len() ==> children(path[i - 1]).contains(#[trigger] path[i])
}

/// Whether a goal is another or stands below it.
pub open spec fn in_subtree(
    root: Seq<char>,
    id: Seq<char>,
    children: spec_fn(Seq<char>) -> Seq<Seq<char>>,
) -> bool {
    exists|path: Seq<Seq<char>>| #[trigger] leads_down(path, root, id, children)
}

/// Whether a walk knows the subtree of its root alone.
pub open spec fn knows_only(
    w: Walk,
    root: Seq<char>,
    children: spec_fn(Seq<char>) -> Seq<Seq<char>>,
) -> bool {
    forall|c: Seq<char>| #[trigger] known(w, c) ==> in_subtree(root, c, children)
}

/// A walk knows the subtree of its root alone, from its beginning and through every
/// step.
pub proof fn law_subtree_is_nothing_else(
    w: Walk,
    root: Seq<char>,
    live: bool,
    children: spec_fn(Seq<char>) -> Seq<Seq<char>>,
)
    ensures
        knows_only(begun(root, live), root, children),
        knows_only(w, root, children) && w.stack.len() > 0 ==> knows_only(
            step(w, children(w.stack.last())),
            root,
            children,
        ),
{
    let b = begun(root, live);
    assert forall|c: Seq<char>| #[trigger] known(b, c) implies in_subtree(root, c, children) by {
        assert(c == root);
        assert(leads_down(seq![c], root, c, children));
    }
    if knows_only(w, root, children) && w.stack.len() > 0 {
        let id = w.stack.last();
        let kids = children(id);
        let n = step(w, kids);
        assert(known(w, id));
        assert forall|c: Seq<char>| #[trigger] known(n, c) implies in_subtree(
            root,
            c,
            children,
        ) by {
            if kids.contains(c) {
                let path = choose|path: Seq<Seq<char>>| #[trigger]
                    leads_down(path, root, id, children);
                assert(leads_down(path.push(c), root, c, children));
            } else {
                lemma_step_knows(w, kids, c);
            }
        }
    }
}

proof fn lemma_step_knows(w: Walk, kids: Seq<Seq<char>>, c: Seq<char>)
    requires
        w.stack.len() > 0,
        known(step(w, kids), c),
    ensures
        known(w, c) || kids.contains(c),
{
    let n = step(w, kids);
    if n.out.contains(c) {
        let k = choose|k: int| 0 <= k < n.out.len() && n.out[k] == c;
        if k < w.out.len() {
            assert(w.out[k] == c);
        } else {
            assert(w.stack[w.stack.len() - 1] == c);
        }
    } else {
        let k = choose|k: int| 0 <= k < n.stack.len() && n.stack[k] == c;
        if k < w.stack.len() - 1 {
            assert(w.stack[k] == c);
        } else {
            assert(kids[k - (w.stack.len() - 1)] == c);
        }
    }
}

proof fn lemma_gathers_path(
    w: Walk,
    root: Seq<char>,
    children: spec_fn(Seq<char>) -> Seq<Seq<char>>,
    path: Seq<Seq<char>>,
    id: Seq<char>,
)
    requires
        misses_nothing(w, root, children),
        w.stack.len() == 0,
        leads_down(path, root, id, children),
    ensures
        w.out.contains(id),
    decreases path.len(),
{
    law_subtree_is_complete(w, root, children);
    if path.len() > 1 {
        let above = path.drop_last();
        let p = above.last();
        assert forall|i: int| 0 < i < above.len() implies children(above[i - 1]).contains(
            #[trigger] above[i],
        ) by {
            assert(above[i] == path[i]);
        }
        lemma_gathers_path(w, root, children, above, p);
        let i = choose|i: int| 0 <= i < w.out.len() && w.out[i] == p;
        assert(path[path.len() - 1] == id);
        assert(children(w.out[i]).contains(id));
    }
}

/// A walk that is done has gathered its root, all that stands below it, and nothing else.
pub proof fn law_subtree_is_exact(
    w: Walk,
    root: Seq<char>,
    children: spec_fn(Seq<char>) -> Seq<Seq<char>>,
    id: Seq<char>,
)
    requires
        misses_nothing(w, root, children),
        knows_only(w, root, children),
        w.stack.len() == 0,
    ensures
        w.out.contains(id) <==> in_subtree(root, id, children),
{
    if in_subtree(root, id, children) {
        let path = choose|path: Seq<Seq<char>>| #[trigger] leads_down(path, root, id, children);
        lemma_gathers_path(w, root, children, path, id);
    }
    if w.out.contains(id) {
        assert(known(w, id));
    }
}

/// A second delete of a goal writes nothing: once the goals that a walk has gathered
/// are no longer there, a walk from the same root is done at once and has gathered
/// nothing, and for no goals there is no statement.
pub proof fn law_deleting_again_writes_nothing(
    there: Set<Seq<char>>,
    w: Walk,
    root: Seq<char>,
    children: spec_fn(Seq<char>) -> Seq<Seq<char>>,
)
    requires
        misses_nothing(w, root, children),
        w.stack.len() == 0,
    ensures
        ({
            let left = there.difference(w.out.to_set());
            let again = begun(root, left.contains(root));
            again.stack.len() == 0 && again.out.len() == 0
        }),
{
    assert(known(w, root));
    assert(w.out.to_set().contains(root));
}

/// Text parameters for some ids.
pub open spec fn id_params(ids: Seq<Seq<char>>) -> Seq<Val> {
    ids.map_values(|i: Seq<char>| Val::Text(i))
}

/// Marks for some rows of a table.
pub open spec fn id_marks(table: Seq<char>, ids: Seq<Seq<char>>) -> Seq<(Seq<char>, Seq<char>)> {
    ids.map_values(|i: Seq<char>| (table, i))
}

/// Marks goals as deleted at a time, one placeholder for each.
pub open spec fn delete_goals(ids: Seq<Seq<char>>, now: Seq<char>) -> Stmt {
    Stmt {
        sql: "UPDATE goals SET deleted_at = ?, updated_at = ? WHERE id IN ("@ + joined(
            Seq::new(ids.len(), |i: int| "?"@),
            ", "@,
        ) + ")"@,
        params: seq![Val::Text(now), Val::Text(now)] + id_params(ids),
        marks: id_marks("goals"@, ids),
    }
}

/// Marks goals as deleted. There is nothing to run for no goals.
pub fn delete(ids: &Vec<String>, now: &str) -> (r: Option<Statement>)
    ensures
        match r {
            Some(s) => ids@.len() > 0 && s@ == delete_goals(texts(ids@), now@),
            None => ids@.len() == 0,
        },
{
    if ids.len() == 0 {
        return None;
    }
    let mut holes: Vec<String> = Vec::new();
    let mut params: Vec<DbValue> = Vec::new();
    let mut marks: Vec<(String, String)> = Vec::new();
    params.push(DbValue::Text(now.to_owned()));
    params.push(DbValue::Text(now.to_owned()));
    let ghost all = texts(ids@);
    let ghost pair = |m: (String, String)| (m.0@, m.1@);
    assert(vals(params@) =~= seq![Val::Text(now@), Val::Text(now@)] + id_params(all.take(0)));
    for i in 0..ids.len()
        invariant
            all == texts(ids@),
            pair == (|m: (String, String)| (m.0@, m.1@)),
            texts(holes@) =~= Seq::new(i as nat, |j: int| "?"@),
            vals(params@) =~= seq![Val::Text(now@), Val::Text(now@)] + id_params(all.take(i as int)),
            marks@.map_values(pair) =~= id_marks("goals"@, all.take(i as int)),
    {
        let ghost p = vals(params@);
        let ghost m = marks@.map_values(pair);
        let ghost h = texts(holes@);
        holes.push("?".to_string());
        params.push(DbValue::Text(ids[i].clone()));
        marks.push(("goals".to_string(), ids[i].clone()));
        proof {
            assert(all.take(i + 1) =~= all.take(i as int).push(all[i as int]));
            assert(texts(holes@) =~= h.push("?"@));
            assert(vals(params@) =~= p.push(Val::Text(all[i as int])));
            assert(marks@.map_values(pair) =~= m.push(("goals"@, all[i as int])));
        }
    }
    assert(all.take(all.len() as int) =~= all);
    let list = join(&holes, ", ");
    let sql = concat(
        concat(
            "UPDATE goals SET deleted_at = ?, updated_at = ? WHERE id IN (",
            list.as_str(),
        ).as_str(),
        ")",
    );
    Some(Statement { sql, params, marks })
}

/// Asks for the children that the walk needs.
pub fn children_of(id: &str) -> (r: Statement)
    ensures
        r@ == stmt(
            "SELECT id FROM goals WHERE parent_id = ? AND deleted_at IS NULL"@,
        ).with(Val::Text(id@)),
{
    Statement::new("SELECT id FROM goals WHERE parent_id = ? AND deleted_at IS NULL").text(id)
}

/// Asks for the next free place below a parent, or at the root.
pub fn next_sort_order(parent_id: Option<&str>) -> (r: Statement)
    ensures
        r@ == (match parent_id {
            Some(p) => stmt(
                "SELECT COALESCE(MAX(sort_order), -1) + 1 FROM goals WHERE parent_id = ? AND deleted_at IS NULL"@,
            ).with(Val::Text(p@)),
            None => stmt(
                "SELECT COALESCE(MAX(sort_order), -1) + 1 FROM goals WHERE parent_id IS NULL AND deleted_at IS NULL"@,
            ),
        }),
{
    match parent_id {
        Some(p) => Statement::new(
            "SELECT COALESCE(MAX(sort_order), -1) + 1 FROM goals WHERE parent_id = ? AND deleted_at IS NULL",
        ).text(p),
        None => Statement::new(
            "SELECT COALESCE(MAX(sort_order), -1) + 1 FROM goals WHERE parent_id IS NULL AND deleted_at IS NULL",
        ),
    }
}

/// Asks for the next free place below a parent on a sheet.
pub fn next_sort_order_in_sheet(parent_id: Option<&str>, sheet_id: Option<&str>) -> (r: Statement)
    ensures
        r@ == (match (parent_id, sheet_id) {
            (Some(p), Some(s)) => stmt(
                "SELECT COALESCE(MAX(sort_order), -1) + 1 FROM goals WHERE parent_id = ? AND sheet_id = ? AND deleted_at IS NULL"@,
            ).with(Val::Text(p@)).with(Val::Text(s@)),
            (Some(p), None) => stmt(
                "SELECT COALESCE(MAX(sort_order), -1) + 1 FROM goals WHERE parent_id = ? AND sheet_id IS NULL AND deleted_at IS NULL"@,
            ).with(Val::Text(p@)),
            (None, Some(s)) => stmt(
                "SELECT COALESCE(MAX(sort_order), -1) + 1 FROM goals WHERE parent_id IS NULL AND sheet_id = ? AND deleted_at IS NULL"@,
            ).with(Val::Text(s@)),
            (None, None) => stmt(
                "SELECT COALESCE(MAX(sort_order), -1) + 1 FROM goals WHERE parent_id IS NULL AND sheet_id IS NULL AND deleted_at IS NULL"@,
            ),
        }),
{
    match (parent_id, sheet_id) {
        (Some(p), Some(s)) => Statement::new(
            "SELECT COALESCE(MAX(sort_order), -1) + 1 FROM goals WHERE parent_id = ? AND sheet_id = ? AND deleted_at IS NULL",
        ).text(p).text(s),
        (Some(p), None) => Statement::new(
            "SELECT COALESCE(MAX(sort_order), -1) + 1 FROM goals WHERE parent_id = ? AND sheet_id IS NULL AND deleted_at IS NULL",
        ).text(p),
        (None, Some(s)) => Statement::new(
            "SELECT COALESCE(MAX(sort_order), -1) + 1 FROM goals WHERE parent_id IS NULL AND sheet_id = ? AND deleted_at IS NULL",
        ).text(s),
        (None, None) => Statement::new(
            "SELECT COALESCE(MAX(sort_order), -1) + 1 FROM goals WHERE parent_id IS NULL AND sheet_id IS NULL AND deleted_at IS NULL",
        ),
    }
}

// ---------- sheets ----------

/// Reads all sheets that are not deleted.
pub fn list_sheets() -> (r: Statement)
    ensures
        r@ == stmt(
            "SELECT id, name, created_at, deleted_at FROM goal_sheets WHERE deleted_at IS NULL ORDER BY created_at"@,
        ),
{
    Statement::new(
        "SELECT id, name, created_at, deleted_at FROM goal_sheets WHERE deleted_at IS NULL ORDER BY created_at",
    )
}

/// Writes a new sheet.
pub fn create_sheet(id: &str, name: &str, now: &str) -> (r: Statement)
    ensures
        r@ == stmt(
            "INSERT INTO goal_sheets (id, name, created_at) VALUES (?, ?, ?)"@,
        ).with(Val::Text(id@)).with(Val::Text(name@)).with(Val::Text(now@)).marking("goal_sheets"@, id@),
{
    Statement::new(
        "INSERT INTO goal_sheets (id, name, created_at) VALUES (?, ?, ?)",
    ).text(id).text(name).text(now).mark("goal_sheets", id)
}

/// The sheet that `create_sheet` writes.
pub fn new_sheet(id: &str, name: &str, now: &str) -> (r: GoalSheet)
    ensures
        r.id@ == id@,
        r.name@ == name@,
        r.created_at@ == now@,
        r.deleted_at is None,
{
    GoalSheet {
        id: id.to_owned(),
        name: name.to_owned(),
        created_at: now.to_owned(),
        deleted_at: None,
    }
}

/// Marks a sheet as deleted.
pub fn delete_sheet(id: &str, now: &str) -> (r: Statement)
    ensures
        r@ == stmt(
            "UPDATE goal_sheets SET deleted_at = ? WHERE id = ? AND deleted_at IS NULL"@,
        ).with(Val::Text(now@)).with(Val::Text(id@)).marking("goal_sheets"@, id@),
{
    Statement::new(
        "UPDATE goal_sheets SET deleted_at = ? WHERE id = ? AND deleted_at IS NULL",
    ).text(now).text(id).mark("goal_sheets", id)
}

/// Takes the goals of a sheet off it.
pub fn orphan_goals(sheet_id: &str, now: &str) -> (r: Statement)
    ensures
        r@ == stmt(
            "UPDATE goals SET sheet_id = NULL, updated_at = ? WHERE sheet_id = ?"@,
        ).with(Val::Text(now@)).with(Val::Text(sheet_id@)),
{
    Statement::new(
        "UPDATE goals SET sheet_id = NULL, updated_at = ? WHERE sheet_id = ?",
    ).text(now).text(sheet_id)
}

/// Renames a sheet.
pub fn rename_sheet(id: &str, name: &str) -> (r: Statement)
    ensures
        r@ == stmt(
            "UPDATE goal_sheets SET name = ? WHERE id = ? AND deleted_at IS NULL"@,
        ).with(Val::Text(name@)).with(Val::Text(id@)).marking("goal_sheets"@, id@),
{
    Statement::new(
        "UPDATE goal_sheets SET name = ? WHERE id = ? AND deleted_at IS NULL",
    ).text(name).text(id).mark("goal_sheets", id)
}

/// Asks whether a sheet is there.
pub fn sheet_exists(id: &str) -> (r: Statement)
    ensures
        r@ == stmt(
            "SELECT 1 FROM goal_sheets WHERE id = ? AND deleted_at IS NULL"@,
        ).with(Val::Text(id@)),
{
    Statement::new(
        "SELECT 1 FROM goal_sheets WHERE id = ? AND deleted_at IS NULL",
    ).text(id)
}

// ---------- the registry of plugins ----------

/// Reads all installed plugins, the most recent first.
pub fn list_plugins() -> (r: Statement)
    ensures
        r@ == stmt(
            "SELECT id, source, dir, active, installed_at FROM plugins ORDER BY installed_at DESC, id"@,
        ),
{
    Statement::new(
        "SELECT id, source, dir, active, installed_at FROM plugins ORDER BY installed_at DESC, id",
    )
}

/// Records an installed plugin, active.
pub fn add_plugin(id: &str, source: &str, dir: &str, now: &str) -> (r: Statement)
    ensures
        r@ == stmt(
            "INSERT INTO plugins (id, source, dir, active, installed_at) VALUES (?, ?, ?, 1, ?) ON CONFLICT(id) DO UPDATE SET source = excluded.source, dir = excluded.dir, active = 1, installed_at = excluded.installed_at"@,
        ).with(Val::Text(id@)).with(Val::Text(source@)).with(Val::Text(dir@)).with(Val::Text(now@)),
{
    Statement::new(
        "INSERT INTO plugins (id, source, dir, active, installed_at) VALUES (?, ?, ?, 1, ?) ON CONFLICT(id) DO UPDATE SET source = excluded.source, dir = excluded.dir, active = 1, installed_at = excluded.installed_at",
    ).text(id).text(source).text(dir).text(now)
}

/// What switches a plugin on or off.
pub open spec fn plugin_active_stmt(id: Seq<char>, active: bool) -> Stmt {
    stmt("UPDATE plugins SET active = ? WHERE id = ?"@).with(
        Val::Integer(
            if active {
                1
            } else {
                0
            },
        ),
    ).with(Val::Text(id))
}

/// Switches a plugin on or off.
pub fn set_plugin_active(id: &str, active: bool) -> (r: Statement)
    ensures
        r@ == plugin_active_stmt(id@, active),
{
    let flag: i64 = if active {
        1
    } else {
        0
    };
    Statement::new("UPDATE plugins SET active = ? WHERE id = ?").param(DbValue::Integer(flag)).text(id)
}

/// Removes a plugin from the registry.
pub fn remove_plugin_row(id: &str) -> (r: Statement)
    ensures
        r@ == stmt(
            "DELETE FROM plugins WHERE id = ?"@,
        ).with(Val::Text(id@)),
{
    Statement::new(
        "DELETE FROM plugins WHERE id = ?",
    ).text(id)
}

/// Writes a theme of a plugin.
pub fn upsert_theme(id: &str, name: &str, source: &str, colors_json: &str) -> (r: Statement)
    ensures
        r@ == stmt(
            "INSERT INTO themes (id, name, source, colors_json) VALUES (?, ?, ?, ?) ON CONFLICT(id) DO UPDATE SET name = excluded.name, source = excluded.source, colors_json = excluded.colors_json"@,
        ).with(Val::Text(id@)).with(Val::Text(name@)).with(Val::Text(source@)).with(Val::Text(colors_json@)).marking("themes"@, id@),
{
    Statement::new(
        "INSERT INTO themes (id, name, source, colors_json) VALUES (?, ?, ?, ?) ON CONFLICT(id) DO UPDATE SET name = excluded.name, source = excluded.source, colors_json = excluded.colors_json",
    ).text(id).text(name).text(source).text(colors_json).mark("themes", id)
}

/// Writes a builtin theme that is not there yet.
pub fn seed_theme(id: &str, name: &str, colors_json: &str) -> (r: Statement)
    ensures
        r@ == stmt(
            "INSERT OR IGNORE INTO themes (id, name, source, colors_json) VALUES (?, ?, 'builtin', ?)"@,
        ).with(Val::Text(id@)).with(Val::Text(name@)).with(Val::Text(colors_json@)),
{
    Statement::new(
        "INSERT OR IGNORE INTO themes (id, name, source, colors_json) VALUES (?, ?, 'builtin', ?)",
    ).text(id).text(name).text(colors_json)
}

/// Reads a theme.
pub fn get_theme(id: &str) -> (r: Statement)
    ensures
        r@ == stmt(
            "SELECT name, colors_json FROM themes WHERE id = ?"@,
        ).with(Val::Text(id@)),
{
    Statement::new(
        "SELECT name, colors_json FROM themes WHERE id = ?",
    ).text(id)
}

/// What makes the theme an explicit choice.
pub open spec fn explicit_theme_stmt() -> Stmt {
    stmt(
        "INSERT INTO settings (key, value) VALUES ('theme_mode', 'explicit') ON CONFLICT(key) DO UPDATE SET value = excluded.value"@,
    )
}

/// What selects a theme.
pub open spec fn selected_theme_stmt(theme_id: Seq<char>) -> Stmt {
    stmt(
        "INSERT INTO settings (key, value) VALUES ('selected_theme_id', ?) ON CONFLICT(key) DO UPDATE SET value = excluded.value"@,
    ).with(Val::Text(theme_id))
}

/// What returns to the theme of the system.
pub open spec fn system_theme_stmt() -> Stmt {
    stmt(
        "INSERT INTO settings (key, value) VALUES ('theme_mode', 'system') ON CONFLICT(key) DO UPDATE SET value = excluded.value"@,
    )
}

/// Makes a theme the active one: the mode becomes explicit, then the theme is
/// selected.
pub fn set_active_theme(theme_id: &str) -> (r: (Statement, Statement))
    ensures
        r.0@ == explicit_theme_stmt(),
        r.1@ == selected_theme_stmt(theme_id@),
{
    (
        Statement::new(
            "INSERT INTO settings (key, value) VALUES ('theme_mode', 'explicit') ON CONFLICT(key) DO UPDATE SET value = excluded.value",
        ),
        Statement::new(
            "INSERT INTO settings (key, value) VALUES ('selected_theme_id', ?) ON CONFLICT(key) DO UPDATE SET value = excluded.value",
        ).text(theme_id),
    )
}

/// Returns to the theme of the system.
pub fn clear_theme_selection() -> (r: Statement)
    ensures
        r@ == system_theme_stmt(),
{
    Statement::new(
        "INSERT INTO settings (key, value) VALUES ('theme_mode', 'system') ON CONFLICT(key) DO UPDATE SET value = excluded.value",
    )
}

// ---------- settings ----------

/// Reads a setting.
pub fn get_setting(key: &str) -> (r: Statement)
    ensures
        r@ == stmt(
            "SELECT value FROM settings WHERE key = ?"@,
        ).with(Val::Text(key@)),
{
    Statement::new(
        "SELECT value FROM settings WHERE key = ?",
    ).text(key)
}

/// Writes a setting.
pub fn set_setting(key: &str, value: &str) -> (r: Statement)
    ensures
        r@ == stmt(
            "INSERT INTO settings (key, value) VALUES (?, ?) ON CONFLICT(key) DO UPDATE SET value = excluded.value"@,
        ).with(Val::Text(key@)).with(Val::Text(value@)),
{
    Statement::new(
        "INSERT INTO settings (key, value) VALUES (?, ?) ON CONFLICT(key) DO UPDATE SET value = excluded.value",
    ).text(key).text(value)
}

/// The key under which a setting of a plugin is stored.
pub open spec fn setting_key(plugin: Seq<char>, key: Seq<char>) -> Seq<char> {
    plugin + "."@ + key
}

/// The key under which a setting of a plugin is stored.
pub fn plugin_setting_key(plugin: &str, key: &str) -> (r: String)
    ensures
        r@ == setting_key(plugin@, key@),
{
    concat(concat(plugin, ".").as_str(), key)
}

/// Writes a setting of a plugin.
pub fn set_plugin_setting(plugin: &str, key: &str, value: &str) -> (r: Statement)
    ensures
        r@ == stmt(
            "INSERT INTO settings (key, value) VALUES (?, ?) ON CONFLICT(key) DO UPDATE SET value = excluded.value"@,
        ).with(Val::Text(setting_key(plugin@, key@))).with(Val::Text(value@)),
{
    set_setting(plugin_setting_key(plugin, key).as_str(), value)
}

/// How a character stands in a pattern between quotes: quotes are doubled, wildcards
/// and the backslash itself escaped by a backslash.
pub open spec fn escaped(c: char) -> Seq<char> {
    if c == '\'' {
        seq!['\'', '\'']
    } else if c == '%' {
        seq!['\\', '%']
    } else if c == '_' {
        seq!['\\', '_']
    } else if c == '\\' {
        seq!['\\', '\\']
    } else {
        seq![c]
    }
}

/// A text as a pattern that stands for that text.
pub open spec fn like_pattern(s: Seq<char>) -> Seq<char>
    decreases s.len(),
{
    if s.len() == 0 {
        s
    } else {
        like_pattern(s.drop_last()) + escaped(s.last())
    }
}

/// A text as a pattern that stands for that text.
pub fn escape_like(s: &str) -> (r: String)
    ensures
        r@ == like_pattern(s@),
{
    let v = to_chars(s);
    let mut out: Vec<char> = Vec::new();
    for i in 0..v.len()
        invariant
            v@ == s@,
            out@ =~= like_pattern(s@.take(i as int)),
    {
        assert(s@.take(i + 1).drop_last() =~= s@.take(i as int));
        let c: char = v[i];
        let ghost prev = out@;
        if c == '\'' {
            out.push('\'');
            out.push('\'');
            assert(out@ =~= prev + seq!['\'', '\'']);
        } else if c == '%' {
            out.push('\\');
            out.push('%');
            assert(out@ =~= prev + seq!['\\', '%']);
        } else if c == '_' {
            out.push('\\');
            out.push('_');
            assert(out@ =~= prev + seq!['\\', '_']);
        } else if c == '\\' {
            out.push('\\');
            out.push('\\');
            assert(out@ =~= prev + seq!['\\', '\\']);
        } else {
            out.push(c);
            assert(out@ =~= prev + seq![c]);
        }
    }
    assert(s@.take(s@.len() as int) =~= s@);
    from_chars(&out)
}

/// The text that a pattern between quotes stands for: doubled quotes stand for one, and
/// what a backslash escapes for itself. A pattern with a wildcard stands for no one text.
pub open spec fn stands_for(p: Seq<char>) -> Option<Seq<char>>
    decreases p.len(),
{
    if p.len() == 0 {
        Some(p)
    } else if p[0] == '\\' || p[0] == '\'' {
        if p.len() >= 2 && (p[0] == '\\' || p[1] == '\'') {
            match stands_for(p.skip(2)) {
                Some(t) => Some(seq![p[1]] + t),
                None => None,
            }
        } else {
            None
        }
    } else if p[0] == '%' || p[0] == '_' {
        None
    } else {
        match stands_for(p.skip(1)) {
            Some(t) => Some(seq![p[0]] + t),
            None => None,
        }
    }
}

proof fn lemma_pattern_from_front(s: Seq<char>)
    requires
        s.len() > 0,
    ensures
        like_pattern(s) == escaped(s[0]) + like_pattern(s.skip(1)),
    decreases s.len(),
{
    let front = s.drop_last();
    if s.len() == 1 {
        assert(front =~= Seq::empty());
        assert(s.skip(1) =~= Seq::empty());
        assert(like_pattern(s) =~= escaped(s[0]) + like_pattern(s.skip(1)));
    } else {
        lemma_pattern_from_front(front);
        assert(front.skip(1) =~= s.skip(1).drop_last());
        assert(s.skip(1).last() == s.last());
        assert(like_pattern(s) =~= escaped(s[0]) + like_pattern(s.skip(1)));
    }
}

/// The pattern of a text stands for that text, whatever characters it holds.
pub proof fn law_pattern_stands_for_its_text(s: Seq<char>)
    ensures
        stands_for(like_pattern(s)) == Some(s),
    decreases s.len(),
{
    if s.len() > 0 {
        let rest = s.skip(1);
        let p = like_pattern(s);
        lemma_pattern_from_front(s);
        law_pattern_stands_for_its_text(rest);
        let n = escaped(s[0]).len() as int;
        assert(p.skip(n) =~= like_pattern(rest));
        assert(seq![s[0]] + rest =~= s);
    }
}

/// Reads the settings of a plugin.
pub fn plugin_settings(plugin: &str) -> (r: Statement)
    ensures
        r@ == stmt(
            "SELECT key, value FROM settings WHERE key LIKE '"@ + like_pattern(plugin@)
                + ".%' ESCAPE '\\'"@,
        ),
{
    let sql = concat(
        concat(
            "SELECT key, value FROM settings WHERE key LIKE '",
            escape_like(plugin).as_str(),
        ).as_str(),
        ".%' ESCAPE '\\'",
    );
    Statement::new(sql.as_str())
}

/// A row as a key and a value, where both are texts.
pub open spec fn row_pair(row: Seq<DbValue>) -> Option<(Seq<char>, Seq<char>)> {
    if row.len() >= 2 && row[0] is Text && row[1] is Text {
        Some((row[0]->Text_0@, row[1]->Text_0@))
    } else {
        None
    }
}

/// The settings below a prefix that some rows hold, laid over what is there;
/// the key loses the prefix.
pub open spec fn overlay(
    base: Map<Seq<char>, Seq<char>>,
    rows: Seq<Vec<DbValue>>,
    prefix: Seq<char>,
) -> Map<Seq<char>, Seq<char>>
    decreases rows.len(),
{
    if rows.len() == 0 {
        base
    } else {
        let m = overlay(base, rows.drop_last(), prefix);
        match row_pair(rows.last()@) {
            Some((k, v)) => match after_prefix(k, prefix) {
                Some(bare) => m.insert(bare, v),
                None => m,
            },
            None => m,
        }
    }
}

fn overlay_rows(base: StrMap, rows: &Vec<Vec<DbValue>>, prefix: &str) -> (r: StrMap)
    ensures
        r@ == overlay(base@, rows@, prefix@),
{
    let mut m = base;
    assert(rows@.take(0) =~= Seq::empty());
    for i in 0..rows.len()
        invariant
            m@ == overlay(base@, rows@.take(i as int), prefix@),
    {
        assert(rows@.take(i + 1).drop_last() =~= rows@.take(i as int));
        let row = &rows[i];
        if row.len() >= 2 {
            match (&row[0], &row[1]) {
                (DbValue::Text(k), DbValue::Text(v)) => {
                    let kc = to_chars(k.as_str());
                    match strip_prefix(&kc, prefix) {
                        Some(bare) => {
                            m.insert(from_chars(&bare), v.clone());
                        },
                        None => {},
                    }
                },
                _ => {},
            }
        }
    }
    assert(rows@.take(rows@.len() as int) =~= rows@);
    m
}

/// The settings of a plugin: those of the local configuration, and over them
/// those of the database.
pub fn get_plugin_settings(local: StrMap, rows: &Vec<Vec<DbValue>>, plugin: &str) -> (r: StrMap)
    ensures
        r@ == overlay(local@, rows@, plugin@ + "."@),
{
    overlay_rows(local, rows, concat(plugin, ".").as_str())
}

/// A setting that is stored under a plugin's key is read back under its bare key,
/// wherever its row stands among rows that share no key.
pub proof fn law_settings_are_read_back(
    base: Map<Seq<char>, Seq<char>>,
    rows: Seq<Vec<DbValue>>,
    i: int,
    plugin: Seq<char>,
    key: Seq<char>,
    value: Seq<char>,
)
    requires
        0 <= i < rows.len(),
        row_pair(rows[i]@) == Some((setting_key(plugin, key), value)),
        forall|j: int|
            0 <= j < rows.len() && j != i ==> match row_pair((#[trigger] rows[j])@) {
                Some((k, _)) => k != setting_key(plugin, key),
                None => true,
            },
    ensures
        overlay(base, rows, plugin + "."@).contains_key(key),
        overlay(base, rows, plugin + "."@)[key] == value,
    decreases rows.len(),
{
    let prefix = plugin + "."@;
    let k = setting_key(plugin, key);
    assert(k.take(prefix.len() as int) =~= prefix);
    assert(k.skip(prefix.len() as int) =~= key);
    if i < rows.len() - 1 {
        let rest = rows.drop_last();
        assert(rest[i] == rows[i]);
        assert forall|j: int| 0 <= j < rest.len() && j != i implies match row_pair(
            (#[trigger] rest[j])@,
        ) {
            Some((o, _)) => o != k,
            None => true,
        } by {
            assert(rest[j] == rows[j]);
        }
        law_settings_are_read_back(base, rest, i, plugin, key, value);
        let last = rows[rows.len() - 1];
        match row_pair(last@) {
            Some((o, v)) => {
                assert(o != k);
                match after_prefix(o, prefix) {
                    Some(bare) => {
                        if bare == key {
                            assert(o =~= prefix + key);
                            assert(k =~= prefix + key);
                        }
                    },
                    None => {},
                }
            },
            None => {},
        }
    }
}

// ---------- style overrides ----------

/// Reads the global style overrides.
pub fn style_overrides() -> (r: Statement)
    ensures
        r@ == stmt(
            "SELECT key, value FROM settings WHERE key LIKE 'style.%'"@,
        ),
{
    Statement::new(
        "SELECT key, value FROM settings WHERE key LIKE 'style.%'",
    )
}

/// The global style overrides that some rows hold, by bare variable names.
pub fn get_style_overrides(rows: &Vec<Vec<DbValue>>) -> (r: StrMap)
    ensures
        r@ == overlay(Map::empty(), rows@, "style."@),
{
    overlay_rows(StrMap::new(), rows, "style.")
}

/// Writes a global style override.
pub fn set_style_override(var: &str, hex: &str) -> (r: Statement)
    ensures
        r@ == stmt(
            "INSERT INTO settings (key, value) VALUES (?, ?) ON CONFLICT(key) DO UPDATE SET value = excluded.value"@,
        ).with(Val::Text(setting_key("style"@, var@))).with(Val::Text(hex@)),
{
    set_plugin_setting("style", var, hex)
}

/// Removes a global style override.
pub fn clear_style_override(var: &str) -> (r: Statement)
    ensures
        r@ == stmt("DELETE FROM settings WHERE key = ?"@).with(
            Val::Text(setting_key("style"@, var@)),
        ),
{
    Statement::new("DELETE FROM settings WHERE key = ?").text(
        plugin_setting_key("style", var).as_str(),
    )
}

/// Removes all global style overrides.
pub fn clear_all_style_overrides() -> (r: Statement)
    ensures
        r@ == stmt(
            "DELETE FROM settings WHERE key LIKE 'style.%'"@,
        ),
{
    Statement::new(
        "DELETE FROM settings WHERE key LIKE 'style.%'",
    )
}

/// The override rows as variables and values. A key without the prefix counts
/// as it is; what is no text counts as empty.
pub open spec fn override_of(row: Seq<DbValue>) -> (Seq<char>, Seq<char>) {
    let k = cell_text(row, 0);
    let var = match after_prefix(k, "style."@) {
        Some(bare) => bare,
        None => k,
    };
    (var, cell_text(row, 1))
}

/// The pairs of some entries as texts.
pub open spec fn pair_views(s: Seq<(String, String)>) -> Seq<(Seq<char>, Seq<char>)> {
    s.map_values(|p: (String, String)| (p.0@, p.1@))
}

/// The override rows as variables and values.
pub fn override_entries(rows: &Vec<Vec<DbValue>>) -> (r: Vec<(String, String)>)
    ensures
        pair_views(r@) == rows@.map_values(|row: Vec<DbValue>| override_of(row@)),
{
    let mut out: Vec<(String, String)> = Vec::new();
    let ghost f = |row: Vec<DbValue>| override_of(row@);
    for i in 0..rows.len()
        invariant
            f == (|row: Vec<DbValue>| override_of(row@)),
            pair_views(out@) =~= rows@.take(i as int).map_values(f),
    {
        let ghost prev = pair_views(out@);
        let k = text_at(&rows[i], 0);
        let kc = to_chars(k.as_str());
        let var = match strip_prefix(&kc, "style.") {
            Some(bare) => from_chars(&bare),
            None => k,
        };
        let value = text_at(&rows[i], 1);
        let ghost e = (var@, value@);
        out.push((var, value));
        assert(pair_views(out@) =~= prev.push(e));
        assert(rows@.take(i + 1).map_values(f) =~= rows@.take(i as int).map_values(f).push(e));
    }
    assert(rows@.take(rows@.len() as int) =~= rows@);
    out
}

// ---------- rows ----------

/// The text in a column, or the empty text.
pub open spec fn cell_text(row: Seq<DbValue>, i: int) -> Seq<char> {
    if 0 <= i < row.len() && row[i] is Text {
        row[i]->Text_0@
    } else {
        Seq::empty()
    }
}

/// The text in a column, if there is one.
pub open spec fn cell_opt(row: Seq<DbValue>, i: int) -> Option<Seq<char>> {
    if 0 <= i < row.len() && row[i] is Text {
        Some(row[i]->Text_0@)
    } else {
        None
    }
}

/// The number in a column, or zero.
pub open spec fn cell_int(row: Seq<DbValue>, i: int) -> i64 {
    if 0 <= i < row.len() && row[i] is Integer {
        row[i]->Integer_0
    } else {
        0
    }
}

/// The text in a column, or the empty text.
pub fn text_at(row: &Vec<DbValue>, i: usize) -> (r: String)
    ensures
        r@ == cell_text(row@, i as int),
{
    if i < row.len() {
        match &row[i] {
            DbValue::Text(s) => s.clone(),
            _ => String::new(),
        }
    } else {
        String::new()
    }
}

/// The text in a column, if there is one.
pub fn opt_text_at(row: &Vec<DbValue>, i: usize) -> (r: Option<String>)
    ensures
        opt(r) == cell_opt(row@, i as int),
{
    if i < row.len() {
        match &row[i] {
            DbValue::Text(s) => Some(s.clone()),
            _ => None,
        }
    } else {
        None
    }
}

/// The number in a column, or zero.
pub fn int_at(row: &Vec<DbValue>, i: usize) -> (r: i64)
    ensures
        r == cell_int(row@, i as int),
{
    if i < row.len() {
        match &row[i] {
            DbValue::Integer(n) => *n,
            _ => 0,
        }
    } else {
        0
    }
}

/// The name of the status that a goal's row holds.
pub fn status_column(row: &Vec<DbValue>) -> (r: String)
    ensures
        r@ == cell_text(row@, 3),
{
    text_at(row, 3)
}

/// The name of the agent status that a goal's row holds, if any.
pub fn agent_status_column(row: &Vec<DbValue>) -> (r: Option<String>)
    ensures
        opt(r) == cell_opt(row@, 10),
{
    opt_text_at(row, 10)
}

/// Whether a goal is what a row holds, in the order of the selected columns.
pub open spec fn goal_row(
    g: Goal,
    row: Seq<DbValue>,
    status: GoalStatus,
    agent: Option<AgentStatus>,
) -> bool {
    &&& g.id@ == cell_text(row, 0)
    &&& g.title@ == cell_text(row, 1)
    &&& opt(g.description) == cell_opt(row, 2)
    &&& g.status == status
    &&& opt(g.parent_id) == cell_opt(row, 4)
    &&& opt(g.sheet_id) == cell_opt(row, 5)
    &&& g.sort_order == cell_int(row, 6)
    &&& g.created_at@ == cell_text(row, 7)
    &&& g.updated_at@ == cell_text(row, 8)
    &&& opt(g.completed_at) == cell_opt(row, 9)
    &&& g.agent_status == agent
    &&& opt(g.agent_result) == cell_opt(row, 11)
    &&& opt(g.agent_progress) == cell_opt(row, 12)
    &&& opt(g.metadata) == cell_opt(row, 13)
    &&& opt(g.due_at) == cell_opt(row, 14)
    &&& opt(g.remind_at) == cell_opt(row, 15)
    &&& opt(g.repeat_rule) == cell_opt(row, 16)
}

/// The goal that a row holds; the statuses are those that its columns name.
pub fn values_to_goal(
    row: &Vec<DbValue>,
    status: GoalStatus,
    agent: Option<AgentStatus>,
) -> (r: Goal)
    ensures
        goal_row(r, row@, status, agent),
{
    Goal {
        id: text_at(row, 0),
        title: text_at(row, 1),
        description: opt_text_at(row, 2),
        status,
        parent_id: opt_text_at(row, 4),
        sheet_id: opt_text_at(row, 5),
        sort_order: int_at(row, 6),
        created_at: text_at(row, 7),
        updated_at: text_at(row, 8),
        completed_at: opt_text_at(row, 9),
        agent_status: agent,
        agent_result: opt_text_at(row, 11),
        agent_progress: opt_text_at(row, 12),
        metadata: opt_text_at(row, 13),
        due_at: opt_text_at(row, 14),
        remind_at: opt_text_at(row, 15),
        repeat_rule: opt_text_at(row, 16),
    }
}

/// The sheet that a row holds.
pub fn values_to_sheet(row: &Vec<DbValue>) -> (r: GoalSheet)
    ensures
        r.id@ == cell_text(row@, 0),
        r.name@ == cell_text(row@, 1),
        r.created_at@ == cell_text(row@, 2),
        opt(r.deleted_at) == cell_opt(row@, 3),
{
    GoalSheet {
        id: text_at(row, 0),
        name: text_at(row, 1),
        created_at: text_at(row, 2),
        deleted_at: opt_text_at(row, 3),
    }
}

/// A row of the registry of plugins.
#[derive(Debug)]
pub struct PluginRow {
    pub id: String,
    pub source: String,
    pub dir: String,
    pub active: bool,
    pub installed_at: String,
}

impl Clone for PluginRow {
    fn clone(&self) -> (r: PluginRow)
        ensures
            r == *self,
    {
        PluginRow {
            id: self.id.clone(),
            source: self.source.clone(),
            dir: self.dir.clone(),
            active: self.active,
            installed_at: self.installed_at.clone(),
        }
    }
}

/// The plugin that a row holds.
pub fn values_to_plugin(row: &Vec<DbValue>) -> (r: PluginRow)
    ensures
        r.id@ == cell_text(row@, 0),
        r.source@ == cell_text(row@, 1),
        r.dir@ == cell_text(row@, 2),
        r.active == (cell_int(row@, 3) != 0),
        r.installed_at@ == cell_text(row@, 4),
{
    PluginRow {
        id: text_at(row, 0),
        source: text_at(row, 1),
        dir: text_at(row, 2),
        active: int_at(row, 3) != 0,
        installed_at: text_at(row, 4),
    }
}

/// The setting that a row holds.
pub fn setting_value(row: &Vec<DbValue>) -> (r: Option<String>)
    ensures
        opt(r) == cell_opt(row@, 0),
{
    opt_text_at(row, 0)
}

// ---------- metadata ----------

/// Lays a patch over the metadata of a goal and gives the new metadata. A patch
/// that is no object changes nothing but the form.
pub fn merge_metadata(metadata: &Option<String>, patch: &str) -> (r: String)
    ensures
        r@ == object_text(
            merged(members_or_empty(opt(*metadata)), members_or_empty(Some(patch@))),
        ),
{
    let mut meta = parse_or_empty(metadata);
    let over = Some(patch.to_owned());
    let p = parse_or_empty(&over);
    merge_into(&mut meta, &p);
    to_text(&meta)
}

/// The settings of a plugin as an object of strings.
pub open spec fn string_members(m: Map<Seq<char>, Seq<char>>) -> Map<Seq<char>, Seq<char>> {
    m.map_values(|v: Seq<char>| string_text(v))
}

/// The settings of a plugin as JSON; nothing for no settings.
pub fn settings_to_config(values: &StrMap) -> (r: Option<String>)
    ensures
        match r {
            Some(t) => values@ != no_members() && t@ == object_text(string_members(values@)),
            None => values@ == no_members(),
        },
{
    let list = values.entries();
    if list.len() == 0 {
        assert(map_of(list@) =~= no_members());
        return None;
    }
    let mut obj = new_object();
    assert(list@.take(0) =~= Seq::empty());
    assert(string_members(map_of(list@.take(0))) =~= no_members());
    for i in 0..list.len()
        invariant
            members(obj) == string_members(map_of(list@.take(i as int))),
    {
        let ghost m = map_of(list@.take(i as int));
        assert(list@.take(i + 1).drop_last() =~= list@.take(i as int));
        put_string(&mut obj, list[i].0.as_str(), list[i].1.as_str());
        let ghost e = list@[i as int];
        assert(string_members(m.insert(e.0@, e.1@)) =~= string_members(m).insert(
            e.0@,
            string_text(e.1@),
        ));
    }
    assert(list@.take(list@.len() as int) =~= list@);
    assert(values@.contains_key(list@.last().0@));
    Some(to_text(&obj))
}

// ---------- the log of errors ----------

/// One entry of the log of errors.
#[derive(Debug)]
pub struct ErrorRow {
    pub context: String,
    pub message: String,
    pub detail: Option<String>,
    pub created_at: String,
}

/// Logs a failure.
pub fn log_error(
    id: &str,
    context: &str,
    message: &str,
    detail: Option<&str>,
    now: &str,
) -> (r: Statement)
    ensures
        r@ == stmt(
            "INSERT INTO errors (id, context, message, detail, created_at) VALUES (?, ?, ?, ?, ?)"@,
        ).with(Val::Text(id@)).with(Val::Text(context@)).with(Val::Text(message@)).with(
            text_or_null(crate::tree::key(detail)),
        ).with(Val::Text(now@)),
{
    let d = match detail {
        Some(t) => DbValue::Text(t.to_owned()),
        None => DbValue::Null,
    };
    Statement::new(
        "INSERT INTO errors (id, context, message, detail, created_at) VALUES (?, ?, ?, ?, ?)",
    ).text(id).text(context).text(message).param(d).text(now)
}

/// Reads the latest errors, the newest first.
pub fn get_errors(limit: i64) -> (r: Statement)
    ensures
        r@ == stmt(
            "SELECT context, message, detail, created_at FROM errors ORDER BY created_at DESC LIMIT ?"@,
        ).with(Val::Integer(limit as int)),
{
    Statement::new(
        "SELECT context, message, detail, created_at FROM errors ORDER BY created_at DESC LIMIT ?",
    ).param(DbValue::Integer(limit))
}

/// The error that a row holds. A detail column that is no text reads as an empty
/// detail; a row without that column has none.
pub fn values_to_error(row: &Vec<DbValue>) -> (r: ErrorRow)
    ensures
        r.context@ == cell_text(row@, 0),
        r.message@ == cell_text(row@, 1),
        opt(r.detail) == (if row@.len() > 2 {
            Some(cell_text(row@, 2))
        } else {
            None
        }),
        r.created_at@ == cell_text(row@, 3),
{
    ErrorRow {
        context: text_at(row, 0),
        message: text_at(row, 1),
        detail: if row.len() > 2 {
            Some(text_at(row, 2))
        } else {
            None
        },
        created_at: text_at(row, 3),
    }
}

/// Deletes the log of errors.
pub fn clear_errors() -> (r: Statement)
    ensures
        r@ == stmt(
            "DELETE FROM errors"@,
        ),
{
    Statement::new(
        "DELETE FROM errors",
    )
}

/// The tables that a purge empties. The migrations stay, since without them the
/// next start would run them again on the final schema.
pub open spec fn purged() -> Seq<Seq<char>> {
    seq!["goals"@, "goal_sheets"@, "themes"@, "settings"@, "plugins"@, "errors"@, "_outbox"@, "_sync_state"@]
}

/// Deletes all data, and the state of the sync.
pub fn purge_all() -> (r: Vec<String>)
    ensures
        texts(r@) == purged().map_values(|t: Seq<char>| "DELETE FROM "@ + t),
{
    let mut out: Vec<String> = Vec::new();
    out.push(concat("DELETE FROM ", "goals"));
    out.push(concat("DELETE FROM ", "goal_sheets"));
    out.push(concat("DELETE FROM ", "themes"));
    out.push(concat("DELETE FROM ", "settings"));
    out.push(concat("DELETE FROM ", "plugins"));
    out.push(concat("DELETE FROM ", "errors"));
    out.push(concat("DELETE FROM ", "_outbox"));
    out.push(concat("DELETE FROM ", "_sync_state"));
    assert(texts(out@) =~= purged().map_values(|t: Seq<char>| "DELETE FROM "@ + t));
    out
}

/// Puts a goal into the queue of the agents.
pub fn queue_for_agent(goal_id: &str, now: &str) -> (r: Statement)
    ensures
        r@ == stmt(
            "UPDATE goals SET status='agent_mode', agent_status='queued', agent_result=NULL, agent_progress=NULL, updated_at=? WHERE id=? AND deleted_at IS NULL"@,
        ).with(Val::Text(now@)).with(Val::Text(goal_id@)).marking("goals"@, goal_id@),
{
    Statement::new(
        "UPDATE goals SET status='agent_mode', agent_status='queued', agent_result=NULL, agent_progress=NULL, updated_at=? WHERE id=? AND deleted_at IS NULL",
    ).text(now).text(goal_id).mark("goals", goal_id)
}

} // verus!

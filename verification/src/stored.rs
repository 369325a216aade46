//! What the database holds: what is written for a goal is read back, an update changes
//! what it names, and settings stay with their plugin.

use crate::db::{
    assign_text, assignments, clearable, completion, delete_goals, goal_row, insert_goal, overlay,
    override_of, purged, reopening, row_pair, select_cols, set_col, setting_key, text_or_null, text_val,
    update_goal, DbValue, Val,
};
use crate::schema::{AgentStatus, CreateGoalInput, Goal, GoalStatus, UpdateGoalInput};
use crate::text::{joined, law_a_text_holds_its_parts, law_joining_adds_up, opt};
use vstd::prelude::*;

verus! {

/// The columns of a goal by name, in the order in which rows are read.
pub open spec fn goal_columns() -> Seq<Seq<char>> {
    seq![
        "id"@,
        "title"@,
        "description"@,
        "status"@,
        "parent_id"@,
        "sheet_id"@,
        "sort_order"@,
        "created_at"@,
        "updated_at"@,
        "completed_at"@,
        "agent_status"@,
        "agent_result"@,
        "agent_progress"@,
        "metadata"@,
        "due_at"@,
        "remind_at"@,
        "repeat_rule"@,
    ]
}

/// The place of a column's name, told by its length and two of its letters.
spec fn place(c: Seq<char>) -> int {
    if c.len() == 2 {
        0
    } else if c.len() == 5 {
        1
    } else if c.len() == 11 {
        if c[0] == 'd' {
            2
        } else {
            16
        }
    } else if c.len() == 6 {
        if c[0] == 's' {
            3
        } else {
            14
        }
    } else if c.len() == 9 {
        if c[0] == 'p' {
            4
        } else {
            15
        }
    } else if c.len() == 8 {
        if c[0] == 's' {
            5
        } else {
            13
        }
    } else if c.len() == 10 {
        if c[0] == 's' {
            6
        } else if c[0] == 'c' {
            7
        } else {
            8
        }
    } else if c.len() == 12 {
        if c[0] == 'c' {
            9
        } else if c[6] == 's' {
            10
        } else {
            11
        }
    } else {
        12
    }
}

proof fn lemma_places()
    ensures
        place("id"@) == 0,
        place("title"@) == 1,
        place("description"@) == 2,
        place("status"@) == 3,
        place("parent_id"@) == 4,
        place("sheet_id"@) == 5,
        place("sort_order"@) == 6,
        place("created_at"@) == 7,
        place("updated_at"@) == 8,
        place("completed_at"@) == 9,
        place("agent_status"@) == 10,
        place("agent_result"@) == 11,
        place("agent_progress"@) == 12,
        place("metadata"@) == 13,
        place("due_at"@) == 14,
        place("remind_at"@) == 15,
        place("repeat_rule"@) == 16,
{
    reveal_strlit("id");
    reveal_strlit("title");
    reveal_strlit("description");
    reveal_strlit("status");
    reveal_strlit("parent_id");
    reveal_strlit("sheet_id");
    reveal_strlit("sort_order");
    reveal_strlit("created_at");
    reveal_strlit("updated_at");
    reveal_strlit("completed_at");
    reveal_strlit("agent_status");
    reveal_strlit("agent_result");
    reveal_strlit("agent_progress");
    reveal_strlit("metadata");
    reveal_strlit("due_at");
    reveal_strlit("remind_at");
    reveal_strlit("repeat_rule");
}

/// The text of a stored value, if it is one.
pub open spec fn stored_text(v: Val) -> Option<Seq<char>> {
    match v {
        Val::Text(t) => Some(t),
        _ => None,
    }
}

/// Whether a row holds the columns of a goal, in the order in which rows are read.
pub open spec fn laid_out(row: Seq<DbValue>, stored: Map<Seq<char>, Val>) -> bool {
    &&& row.len() == goal_columns().len()
    &&& forall|i: int| 0 <= i < row.len() ==> (#[trigger] row[i])@ == stored[goal_columns()[i]]
}

/// A goal is read by the names of its columns: each field holds what is stored under its
/// name.
pub proof fn law_goals_are_read_by_column(
    stored: Map<Seq<char>, Val>,
    row: Seq<DbValue>,
    g: Goal,
    status: GoalStatus,
    agent: Option<AgentStatus>,
)
    requires
        laid_out(row, stored),
        goal_row(g, row, status, agent),
    ensures
        stored_text(stored["id"@]) is Some ==> Some(g.id@) == stored_text(stored["id"@]),
        stored_text(stored["title"@]) is Some ==> Some(g.title@) == stored_text(stored["title"@]),
        opt(g.description) == stored_text(stored["description"@]),
        opt(g.parent_id) == stored_text(stored["parent_id"@]),
        opt(g.sheet_id) == stored_text(stored["sheet_id"@]),
        stored["sort_order"@] is Integer ==> g.sort_order == stored["sort_order"@]->Integer_0,
        stored_text(stored["created_at"@]) is Some ==> Some(g.created_at@) == stored_text(
            stored["created_at"@],
        ),
        stored_text(stored["updated_at"@]) is Some ==> Some(g.updated_at@) == stored_text(
            stored["updated_at"@],
        ),
        opt(g.completed_at) == stored_text(stored["completed_at"@]),
        opt(g.agent_result) == stored_text(stored["agent_result"@]),
        opt(g.agent_progress) == stored_text(stored["agent_progress"@]),
        opt(g.metadata) == stored_text(stored["metadata"@]),
        opt(g.due_at) == stored_text(stored["due_at"@]),
        opt(g.remind_at) == stored_text(stored["remind_at"@]),
        opt(g.repeat_rule) == stored_text(stored["repeat_rule"@]),
        g.status == status && g.agent_status == agent,
{
    assert(forall|i: int|
        0 <= i < 17 ==> (#[trigger] row[i])@ == stored[goal_columns()[i]]);
    assert(row[0]@ == stored["id"@]);
    assert(row[1]@ == stored["title"@]);
    assert(row[2]@ == stored["description"@]);
    assert(row[4]@ == stored["parent_id"@]);
    assert(row[5]@ == stored["sheet_id"@]);
    assert(row[6]@ == stored["sort_order"@]);
    assert(row[7]@ == stored["created_at"@]);
    assert(row[8]@ == stored["updated_at"@]);
    assert(row[9]@ == stored["completed_at"@]);
    assert(row[11]@ == stored["agent_result"@]);
    assert(row[12]@ == stored["agent_progress"@]);
    assert(row[13]@ == stored["metadata"@]);
    assert(row[14]@ == stored["due_at"@]);
    assert(row[15]@ == stored["remind_at"@]);
    assert(row[16]@ == stored["repeat_rule"@]);
}

/// The columns that are selected are those by which goals are read.
pub proof fn law_the_columns_are_selected_in_order()
    ensures
        select_cols() == joined(goal_columns(), ", "@),
{
    let sep = ", "@;
    let c = goal_columns();
    let a = c.take(6);
    let b = c.subrange(6, 12);
    let d = c.skip(12);
    assert(c =~= a + b + d);
    law_joining_adds_up(a + b, d, sep);
    law_joining_adds_up(a, b, sep);
    reveal_strlit(", ");
    lemma_first_columns();
    lemma_middle_columns();
    lemma_last_columns();
    assert(a =~= seq!["id"@, "title"@, "description"@, "status"@, "parent_id"@, "sheet_id"@]);
    assert(b =~= seq![
        "sort_order"@,
        "created_at"@,
        "updated_at"@,
        "completed_at"@,
        "agent_status"@,
        "agent_result"@,
    ]);
    assert(d =~= seq!["agent_progress"@, "metadata"@, "due_at"@, "remind_at"@, "repeat_rule"@]);
    let x = "id, title, description, status, parent_id, sheet_id"@;
    let y = "sort_order, created_at, updated_at, completed_at, agent_status, agent_result"@;
    let z = "agent_progress, metadata, due_at, remind_at, repeat_rule"@;
    reveal_strlit("id, title, description, status, parent_id, sheet_id");
    reveal_strlit("sort_order, created_at, updated_at, completed_at, agent_status, agent_result");
    reveal_strlit("agent_progress, metadata, due_at, remind_at, repeat_rule");
    reveal_strlit(
        "id, title, description, status, parent_id, sheet_id, sort_order, created_at, updated_at, completed_at, agent_status, agent_result, agent_progress, metadata, due_at, remind_at, repeat_rule",
    );
    assert(select_cols() =~= x + sep + y + sep + z);
}

proof fn lemma_first_columns()
    ensures
        joined(
            seq!["id"@, "title"@, "description"@, "status"@, "parent_id"@, "sheet_id"@],
            ", "@,
        ) == "id, title, description, status, parent_id, sheet_id"@,
{
    let sep = ", "@;
    let s = seq!["id"@, "title"@, "description"@, "status"@, "parent_id"@, "sheet_id"@];
    assert(s.take(6) =~= s);
    lemma_joined_six(s, sep);
    reveal_strlit(", ");
    reveal_strlit("id");
    reveal_strlit("title");
    reveal_strlit("description");
    reveal_strlit("status");
    reveal_strlit("parent_id");
    reveal_strlit("sheet_id");
    reveal_strlit("id, title, description, status, parent_id, sheet_id");
    assert("id"@ + sep + "title"@ + sep + "description"@ + sep + "status"@ + sep + "parent_id"@ + sep
        + "sheet_id"@ =~= "id, title, description, status, parent_id, sheet_id"@);
}

proof fn lemma_middle_columns()
    ensures
        joined(
            seq![
                "sort_order"@,
                "created_at"@,
                "updated_at"@,
                "completed_at"@,
                "agent_status"@,
                "agent_result"@,
            ],
            ", "@,
        ) == "sort_order, created_at, updated_at, completed_at, agent_status, agent_result"@,
{
    let sep = ", "@;
    let s = seq![
        "sort_order"@,
        "created_at"@,
        "updated_at"@,
        "completed_at"@,
        "agent_status"@,
        "agent_result"@,
    ];
    lemma_joined_six(s, sep);
    reveal_strlit(", ");
    reveal_strlit("sort_order");
    reveal_strlit("created_at");
    reveal_strlit("updated_at");
    reveal_strlit("completed_at");
    reveal_strlit("agent_status");
    reveal_strlit("agent_result");
    reveal_strlit("sort_order, created_at, updated_at, completed_at, agent_status, agent_result");
    assert("sort_order"@ + sep + "created_at"@ + sep + "updated_at"@ + sep + "completed_at"@ + sep
        + "agent_status"@ + sep + "agent_result"@
        =~= "sort_order, created_at, updated_at, completed_at, agent_status, agent_result"@);
}

proof fn lemma_last_columns()
    ensures
        joined(
            seq!["agent_progress"@, "metadata"@, "due_at"@, "remind_at"@, "repeat_rule"@],
            ", "@,
        ) == "agent_progress, metadata, due_at, remind_at, repeat_rule"@,
{
    let sep = ", "@;
    let s = seq!["agent_progress"@, "metadata"@, "due_at"@, "remind_at"@, "repeat_rule"@];
    lemma_joined_five(s, sep);
    reveal_strlit(", ");
    reveal_strlit("agent_progress");
    reveal_strlit("metadata");
    reveal_strlit("due_at");
    reveal_strlit("remind_at");
    reveal_strlit("repeat_rule");
    reveal_strlit("agent_progress, metadata, due_at, remind_at, repeat_rule");
    assert("agent_progress"@ + sep + "metadata"@ + sep + "due_at"@ + sep + "remind_at"@ + sep
        + "repeat_rule"@ =~= "agent_progress, metadata, due_at, remind_at, repeat_rule"@);
}

proof fn lemma_joined_five(s: Seq<Seq<char>>, sep: Seq<char>)
    requires
        s.len() == 5,
    ensures
        joined(s, sep) == s[0] + sep + s[1] + sep + s[2] + sep + s[3] + sep + s[4],
{
    let s4 = s.drop_last();
    let s3 = s4.drop_last();
    let s2 = s3.drop_last();
    let s1 = s2.drop_last();
    assert(joined(s1, sep) == s[0]);
    assert(joined(s2, sep) == s[0] + sep + s[1]);
    assert(joined(s3, sep) == s[0] + sep + s[1] + sep + s[2]);
    assert(joined(s4, sep) == s[0] + sep + s[1] + sep + s[2] + sep + s[3]);
}

proof fn lemma_joined_six(s: Seq<Seq<char>>, sep: Seq<char>)
    requires
        s.len() == 6,
    ensures
        joined(s, sep) == s[0] + sep + s[1] + sep + s[2] + sep + s[3] + sep + s[4] + sep + s[5],
{
    lemma_joined_five(s.drop_last(), sep);
}

/// The columns that a new goal is given.
pub open spec fn new_columns() -> Seq<Seq<char>> {
    seq![
        "id"@,
        "title"@,
        "description"@,
        "status"@,
        "parent_id"@,
        "sheet_id"@,
        "sort_order"@,
        "created_at"@,
        "updated_at"@,
    ]
}

/// What stands for the values of a new goal: a parameter, or the status itself.
pub open spec fn new_values() -> Seq<Seq<char>> {
    seq!["?"@, "?"@, "?"@, "'pending'"@, "?"@, "?"@, "?"@, "?"@, "?"@]
}

/// The parameters that come before a value.
pub open spec fn params_before(values: Seq<Seq<char>>, i: int) -> int
    decreases i,
{
    if i <= 0 {
        0
    } else {
        params_before(values, i - 1) + (if values[i - 1] == "?"@ {
            1int
        } else {
            0
        })
    }
}

/// The value that an insert gives its `i`th column: the next parameter, or the text
/// between the quotes.
pub open spec fn inserted_value(values: Seq<Seq<char>>, params: Seq<Val>, i: int) -> Val {
    if values[i] == "?"@ {
        params[params_before(values, i)]
    } else {
        Val::Text(values[i].subrange(1, values[i].len() - 1))
    }
}

/// What is given for a column of a new goal.
pub open spec fn given(
    id: Seq<char>,
    input: CreateGoalInput,
    now: Seq<char>,
    column: Seq<char>,
) -> Val {
    if column == "id"@ {
        Val::Text(id)
    } else if column == "title"@ {
        Val::Text(input.title@)
    } else if column == "description"@ {
        text_or_null(opt(input.description))
    } else if column == "status"@ {
        Val::Text("pending"@)
    } else if column == "parent_id"@ {
        text_or_null(opt(input.parent_id))
    } else if column == "sheet_id"@ {
        text_or_null(opt(input.sheet_id))
    } else if column == "sort_order"@ {
        Val::Integer(
            match input.sort_order {
                Some(n) => n as int,
                None => 0,
            },
        )
    } else if column == "created_at"@ || column == "updated_at"@ {
        Val::Text(now)
    } else {
        Val::Null
    }
}

proof fn lemma_new_columns()
    ensures
        forall|i: int| 0 <= i < 9 ==> #[trigger] new_columns()[i] == goal_columns()[i],
        joined(new_columns(), ", "@)
            == "id, title, description, status, parent_id, sheet_id, sort_order, created_at, updated_at"@,
{
    let sep = ", "@;
    let c = new_columns();
    let a = c.take(6);
    let b = c.skip(6);
    assert(c =~= a + b);
    law_joining_adds_up(a, b, sep);
    lemma_first_columns();
    assert(a =~= seq!["id"@, "title"@, "description"@, "status"@, "parent_id"@, "sheet_id"@]);
    assert(b =~= seq!["sort_order"@, "created_at"@, "updated_at"@]);
    let b2 = b.drop_last();
    let b1 = b2.drop_last();
    assert(joined(b1, sep) == "sort_order"@);
    assert(joined(b2, sep) == "sort_order"@ + sep + "created_at"@);
    assert(joined(b, sep) == "sort_order"@ + sep + "created_at"@ + sep + "updated_at"@);
    reveal_strlit(", ");
    reveal_strlit("sort_order");
    reveal_strlit("created_at");
    reveal_strlit("updated_at");
    reveal_strlit("id, title, description, status, parent_id, sheet_id");
    reveal_strlit("id, title, description, status, parent_id, sheet_id, sort_order, created_at, updated_at");
    assert("id, title, description, status, parent_id, sheet_id"@ + sep + ("sort_order"@ + sep
        + "created_at"@ + sep + "updated_at"@)
        =~= "id, title, description, status, parent_id, sheet_id, sort_order, created_at, updated_at"@);
}

proof fn lemma_new_values()
    ensures
        joined(new_values(), ", "@) == "?, ?, ?, 'pending', ?, ?, ?, ?, ?"@,
{
    let sep = ", "@;
    let c = new_values();
    let a = c.take(4);
    let b = c.skip(4);
    assert(c =~= a + b);
    law_joining_adds_up(a, b, sep);
    lemma_joined_five(b, sep);
    let a3 = a.drop_last();
    let a2 = a3.drop_last();
    let a1 = a2.drop_last();
    assert(joined(a1, sep) == "?"@);
    assert(joined(a2, sep) == "?"@ + sep + "?"@);
    assert(joined(a3, sep) == "?"@ + sep + "?"@ + sep + "?"@);
    assert(joined(a, sep) == "?"@ + sep + "?"@ + sep + "?"@ + sep + "'pending'"@);
    reveal_strlit(", ");
    reveal_strlit("?");
    reveal_strlit("'pending'");
    reveal_strlit("?, ?, ?, 'pending', ?, ?, ?, ?, ?");
    assert(joined(c, sep) =~= "?, ?, ?, 'pending', ?, ?, ?, ?, ?"@);
}

/// The insert of a new goal names its columns and gives each of them what the goal was
/// given for it: the parameters stand in the order of the columns.
#[verifier::rlimit(40)]
pub proof fn law_a_new_goal_is_stored_by_column(
    id: Seq<char>,
    input: CreateGoalInput,
    now: Seq<char>,
)
    ensures
        insert_goal(id, input, now).sql == "INSERT INTO goals ("@ + joined(new_columns(), ", "@)
            + ") VALUES ("@ + joined(new_values(), ", "@) + ")"@,
        forall|i: int|
            0 <= i < new_columns().len() ==> inserted_value(
                new_values(),
                insert_goal(id, input, now).params,
                i,
            ) == given(id, input, now, #[trigger] new_columns()[i]),
        insert_goal(id, input, now).params.len() == params_before(
            new_values(),
            new_values().len() as int,
        ),
        insert_goal(id, input, now).marks == seq![("goals"@, id)],
{
    lemma_new_columns();
    lemma_new_values();
    let sql = insert_goal(id, input, now).sql;
    assert(sql == "INSERT INTO goals ("@ + joined(new_columns(), ", "@) + ") VALUES ("@ + joined(
        new_values(),
        ", "@,
    ) + ")"@) by {
        reveal_strlit("INSERT INTO goals (");
        reveal_strlit(") VALUES (");
        reveal_strlit(")");
        reveal_strlit("?, ?, ?, 'pending', ?, ?, ?, ?, ?");
        reveal_strlit("id, title, description, status, parent_id, sheet_id, sort_order, created_at, updated_at");
        reveal_strlit(
            "INSERT INTO goals (id, title, description, status, parent_id, sheet_id, sort_order, created_at, updated_at) VALUES (?, ?, ?, 'pending', ?, ?, ?, ?, ?)",
        );
        assert(sql =~= "INSERT INTO goals ("@
            + "id, title, description, status, parent_id, sheet_id, sort_order, created_at, updated_at"@
            + ") VALUES ("@ + "?, ?, ?, 'pending', ?, ?, ?, ?, ?"@ + ")"@);
    }
    lemma_places();
    let v = new_values();
    let p = insert_goal(id, input, now).params;
    reveal_strlit("?");
    reveal_strlit("'pending'");
    reveal_strlit("pending");
    assert("?"@ != "'pending'"@);
    assert("'pending'"@.subrange(1, 8) =~= "pending"@);
    assert(params_before(v, 0) == 0);
    assert(params_before(v, 1) == 1);
    assert(params_before(v, 2) == 2);
    assert(params_before(v, 3) == 3);
    assert(params_before(v, 4) == 3);
    assert(params_before(v, 5) == 4);
    assert(params_before(v, 6) == 5);
    assert(params_before(v, 7) == 6);
    assert(params_before(v, 8) == 7);
    assert(params_before(v, 9) == 8);
    let c = new_columns();
    assert(given(id, input, now, c[0]) == p[0]);
    assert(given(id, input, now, c[1]) == p[1]);
    assert(given(id, input, now, c[2]) == p[2]);
    assert(given(id, input, now, c[4]) == p[3]);
    assert(given(id, input, now, c[5]) == p[4]);
    assert(given(id, input, now, c[6]) == p[5]);
    assert(given(id, input, now, c[7]) == p[6]);
    assert(given(id, input, now, c[8]) == p[7]);
    assert(insert_goal(id, input, now).marks =~= seq![("goals"@, id)]);
}

/// A new goal is read back as it was given, pending in its place, with the time as its
/// creation and nothing that was not given.
pub proof fn law_a_new_goal_is_read_back(
    id: Seq<char>,
    input: CreateGoalInput,
    now: Seq<char>,
    stored: Map<Seq<char>, Val>,
    row: Seq<DbValue>,
    g: Goal,
    status: GoalStatus,
    agent: Option<AgentStatus>,
)
    requires
        forall|i: int|
            0 <= i < new_columns().len() ==> stored[#[trigger] new_columns()[i]] == inserted_value(
                new_values(),
                insert_goal(id, input, now).params,
                i,
            ),
        forall|i: int|
            new_columns().len() <= i < goal_columns().len() ==> stored[#[trigger] goal_columns()[i]]
                == Val::Null,
        laid_out(row, stored),
        goal_row(g, row, status, agent),
    ensures
        g.id@ == id,
        g.title@ == input.title@,
        opt(g.description) == opt(input.description),
        opt(g.parent_id) == opt(input.parent_id),
        opt(g.sheet_id) == opt(input.sheet_id),
        g.sort_order == (match input.sort_order {
            Some(n) => n,
            None => 0,
        }),
        g.created_at@ == now,
        g.updated_at@ == now,
        g.completed_at is None && g.agent_result is None && g.agent_progress is None,
        g.metadata is None && g.due_at is None && g.remind_at is None && g.repeat_rule is None,
{
    law_a_new_goal_is_stored_by_column(id, input, now);
    law_goals_are_read_by_column(stored, row, g, status, agent);
    lemma_places();
    let c = new_columns();
    let d = goal_columns();
    assert(stored[c[0]] == given(id, input, now, c[0]));
    assert(stored[c[1]] == given(id, input, now, c[1]));
    assert(stored[c[2]] == given(id, input, now, c[2]));
    assert(stored[c[4]] == given(id, input, now, c[4]));
    assert(stored[c[5]] == given(id, input, now, c[5]));
    assert(stored[c[6]] == given(id, input, now, c[6]));
    assert(stored[c[7]] == given(id, input, now, c[7]));
    assert(stored[c[8]] == given(id, input, now, c[8]));
    assert(stored[d[9]] is Null && stored[d[11]] is Null && stored[d[12]] is Null);
    assert(stored[d[13]] is Null && stored[d[14]] is Null && stored[d[15]] is Null
        && stored[d[16]] is Null);
}

/// What is stored after some columns are set one after the other.
#[verifier::opaque]
pub open spec fn overwritten(stored: Map<Seq<char>, Val>, list: Seq<(Seq<char>, Val)>) -> Map<
    Seq<char>,
    Val,
>
    decreases list.len(),
{
    if list.len() == 0 {
        stored
    } else {
        overwritten(stored, list.drop_last()).insert(list.last().0, list.last().1)
    }
}

proof fn lemma_set_col(
    stored: Map<Seq<char>, Val>,
    list: Seq<(Seq<char>, Val)>,
    col: Seq<char>,
    v: Option<Val>,
    k: Seq<char>,
)
    ensures
        overwritten(stored, set_col(list, col, v))[k] == if k == col && v is Some {
            v->0
        } else {
            overwritten(stored, list)[k]
        },
{
    reveal_with_fuel(overwritten, 2);
    if v is Some {
        assert(list.push((col, v->0)).drop_last() =~= list);
    }
}

proof fn lemma_nothing_set(stored: Map<Seq<char>, Val>)
    ensures
        overwritten(stored, Seq::empty()) == stored,
{
    reveal_with_fuel(overwritten, 2);
}

/// The value that an update gives a column that may be cleared, or what is there.
pub open spec fn kept_or_set(v: Option<Option<String>>, there: Val) -> Val {
    match v {
        Some(Some(t)) => Val::Text(t@),
        Some(None) => Val::Null,
        None => there,
    }
}

/// What an update names for a column, if it names something.
pub open spec fn named(input: UpdateGoalInput, k: Seq<char>) -> Option<Val> {
    if k == "title"@ {
        match input.title {
            Some(t) => Some(Val::Text(t@)),
            None => None,
        }
    } else if k == "description"@ {
        match input.description {
            Some(t) => Some(text_or_null(opt(t))),
            None => None,
        }
    } else if k == "status"@ {
        match input.status {
            Some(t) => Some(Val::Status(t)),
            None => None,
        }
    } else if k == "sort_order"@ {
        match input.sort_order {
            Some(n) => Some(Val::Integer(n as int)),
            None => None,
        }
    } else if k == "completed_at"@ {
        match input.completed_at {
            Some(t) => Some(text_or_null(opt(t))),
            None => None,
        }
    } else if k == "agent_status"@ {
        match input.agent_status {
            Some(Some(t)) => Some(Val::Agent(t)),
            Some(None) => Some(Val::Null),
            None => None,
        }
    } else if k == "agent_result"@ {
        match input.agent_result {
            Some(t) => Some(text_or_null(opt(t))),
            None => None,
        }
    } else if k == "agent_progress"@ {
        match input.agent_progress {
            Some(t) => Some(text_or_null(opt(t))),
            None => None,
        }
    } else if k == "metadata"@ {
        match input.metadata {
            Some(t) => Some(text_or_null(opt(t))),
            None => None,
        }
    } else if k == "parent_id"@ {
        match input.parent_id {
            Some(t) => Some(text_or_null(opt(t))),
            None => None,
        }
    } else if k == "sheet_id"@ {
        match input.sheet_id {
            Some(t) => Some(text_or_null(opt(t))),
            None => None,
        }
    } else if k == "due_at"@ {
        match input.due_at {
            Some(t) => Some(text_or_null(opt(t))),
            None => None,
        }
    } else if k == "remind_at"@ {
        match input.remind_at {
            Some(t) => Some(text_or_null(opt(t))),
            None => None,
        }
    } else if k == "repeat_rule"@ {
        match input.repeat_rule {
            Some(t) => Some(text_or_null(opt(t))),
            None => None,
        }
    } else {
        None
    }
}

#[verifier::rlimit(40)]
proof fn lemma_update_value(
    stored: Map<Seq<char>, Val>,
    input: UpdateGoalInput,
    now: Seq<char>,
    k: Seq<char>,
)
    ensures
        overwritten(stored, assignments(input, now))[k] == if k == "updated_at"@ {
            Val::Text(now)
        } else if named(input, k) is Some {
            named(input, k)->0
        } else {
            stored[k]
        },
{
    lemma_places();
    let status = match input.status {
        Some(t) => Some(Val::Status(t)),
        None => None,
    };
    let sort = match input.sort_order {
        Some(n) => Some(Val::Integer(n as int)),
        None => None,
    };
    let agent = match input.agent_status {
        Some(Some(t)) => Some(Val::Agent(t)),
        Some(None) => Some(Val::Null),
        None => None,
    };
    let s0 = Seq::<(Seq<char>, Val)>::empty();
    let s1 = set_col(s0, "title"@, text_val(input.title));
    let s2 = set_col(s1, "description"@, clearable(input.description));
    let s3 = set_col(s2, "status"@, status);
    let s4 = set_col(s3, "sort_order"@, sort);
    let s5 = set_col(s4, "completed_at"@, clearable(input.completed_at));
    let s6 = set_col(s5, "agent_status"@, agent);
    let s7 = set_col(s6, "agent_result"@, clearable(input.agent_result));
    let s8 = set_col(s7, "agent_progress"@, clearable(input.agent_progress));
    let s9 = set_col(s8, "metadata"@, clearable(input.metadata));
    let s10 = set_col(s9, "parent_id"@, clearable(input.parent_id));
    let s11 = set_col(s10, "sheet_id"@, clearable(input.sheet_id));
    let s12 = set_col(s11, "due_at"@, clearable(input.due_at));
    let s13 = set_col(s12, "remind_at"@, clearable(input.remind_at));
    let s14 = set_col(s13, "repeat_rule"@, clearable(input.repeat_rule));
    assert(assignments(input, now) == set_col(s14, "updated_at"@, Some(Val::Text(now))));
    lemma_nothing_set(stored);
    lemma_set_col(stored, s14, "updated_at"@, Some(Val::Text(now)), k);
    lemma_set_col(stored, s0, "title"@, text_val(input.title), k);
    lemma_set_col(stored, s1, "description"@, clearable(input.description), k);
    lemma_set_col(stored, s2, "status"@, status, k);
    lemma_set_col(stored, s3, "sort_order"@, sort, k);
    lemma_set_col(stored, s4, "completed_at"@, clearable(input.completed_at), k);
    lemma_set_col(stored, s5, "agent_status"@, agent, k);
    lemma_set_col(stored, s6, "agent_result"@, clearable(input.agent_result), k);
    lemma_set_col(stored, s7, "agent_progress"@, clearable(input.agent_progress), k);
    lemma_set_col(stored, s8, "metadata"@, clearable(input.metadata), k);
    lemma_set_col(stored, s9, "parent_id"@, clearable(input.parent_id), k);
    lemma_set_col(stored, s10, "sheet_id"@, clearable(input.sheet_id), k);
    lemma_set_col(stored, s11, "due_at"@, clearable(input.due_at), k);
    lemma_set_col(stored, s12, "remind_at"@, clearable(input.remind_at), k);
    lemma_set_col(stored, s13, "repeat_rule"@, clearable(input.repeat_rule), k);
}

/// An update sets the column of each field that it names to what it names for it, clears
/// those that it clears, sets the time of the update, and leaves every other column as it
/// is.
#[verifier::rlimit(40)]
pub proof fn law_an_update_sets_its_columns(
    stored: Map<Seq<char>, Val>,
    input: UpdateGoalInput,
    now: Seq<char>,
)
    ensures
        ({
            let after = overwritten(stored, assignments(input, now));
            &&& after["title"@] == (match input.title {
                Some(t) => Val::Text(t@),
                None => stored["title"@],
            })
            &&& after["description"@] == kept_or_set(input.description, stored["description"@])
            &&& after["status"@] == (match input.status {
                Some(s) => Val::Status(s),
                None => stored["status"@],
            })
            &&& after["sort_order"@] == (match input.sort_order {
                Some(n) => Val::Integer(n as int),
                None => stored["sort_order"@],
            })
            &&& after["completed_at"@] == kept_or_set(input.completed_at, stored["completed_at"@])
            &&& after["agent_status"@] == (match input.agent_status {
                Some(Some(s)) => Val::Agent(s),
                Some(None) => Val::Null,
                None => stored["agent_status"@],
            })
            &&& after["agent_result"@] == kept_or_set(input.agent_result, stored["agent_result"@])
            &&& after["agent_progress"@] == kept_or_set(
                input.agent_progress,
                stored["agent_progress"@],
            )
            &&& after["metadata"@] == kept_or_set(input.metadata, stored["metadata"@])
            &&& after["parent_id"@] == kept_or_set(input.parent_id, stored["parent_id"@])
            &&& after["sheet_id"@] == kept_or_set(input.sheet_id, stored["sheet_id"@])
            &&& after["due_at"@] == kept_or_set(input.due_at, stored["due_at"@])
            &&& after["remind_at"@] == kept_or_set(input.remind_at, stored["remind_at"@])
            &&& after["repeat_rule"@] == kept_or_set(input.repeat_rule, stored["repeat_rule"@])
            &&& after["updated_at"@] == Val::Text(now)
            &&& after["id"@] == stored["id"@]
            &&& after["created_at"@] == stored["created_at"@]
        }),
{
    lemma_places();
    lemma_update_value(stored, input, now, "id"@);
    lemma_update_value(stored, input, now, "title"@);
    lemma_update_value(stored, input, now, "description"@);
    lemma_update_value(stored, input, now, "status"@);
    lemma_update_value(stored, input, now, "parent_id"@);
    lemma_update_value(stored, input, now, "sheet_id"@);
    lemma_update_value(stored, input, now, "sort_order"@);
    lemma_update_value(stored, input, now, "created_at"@);
    lemma_update_value(stored, input, now, "updated_at"@);
    lemma_update_value(stored, input, now, "completed_at"@);
    lemma_update_value(stored, input, now, "agent_status"@);
    lemma_update_value(stored, input, now, "agent_result"@);
    lemma_update_value(stored, input, now, "agent_progress"@);
    lemma_update_value(stored, input, now, "metadata"@);
    lemma_update_value(stored, input, now, "due_at"@);
    lemma_update_value(stored, input, now, "remind_at"@);
    lemma_update_value(stored, input, now, "repeat_rule"@);
}

/// An update names its columns in the order of its parameters, and its goal last.
pub proof fn law_an_update_binds_its_values(id: Seq<char>, input: UpdateGoalInput, now: Seq<char>)
    ensures
        ({
            let list = assignments(input, now);
            let u = update_goal(id, input, now);
            &&& u.params.len() == list.len() + 1
            &&& u.params.last() == Val::Text(id)
            &&& forall|i: int| 0 <= i < list.len() ==> #[trigger] u.params[i] == list[i].1
            &&& u.sql == "UPDATE goals SET "@ + joined(
                Seq::new(list.len(), |i: int| list[i].0 + " = ?"@),
                ", "@,
            ) + " WHERE id = ?"@
            &&& u.marks == seq![("goals"@, id)]
        }),
{
    let list = assignments(input, now);
    assert(list.map_values(|a: (Seq<char>, Val)| assign_text(a.0)) =~= Seq::new(
        list.len(),
        |i: int| list[i].0 + " = ?"@,
    ));
}

/// A delete sets the time of the delete on the given goals and on no others, and marks
/// each of them for the next sync.
pub proof fn law_a_delete_marks_its_goals(ids: Seq<Seq<char>>, now: Seq<char>, i: int)
    requires
        0 <= i < ids.len(),
    ensures
        ({
            let s = delete_goals(ids, now);
            &&& s.sql == "UPDATE goals SET deleted_at = ?, updated_at = ? WHERE id IN ("@ + joined(
                Seq::new(ids.len(), |k: int| "?"@),
                ", "@,
            ) + ")"@
            &&& s.params.len() == ids.len() + 2
            &&& s.params[0] == Val::Text(now) && s.params[1] == Val::Text(now)
            &&& s.params[i + 2] == Val::Text(ids[i])
            &&& s.marks.len() == ids.len() && s.marks[i] == ("goals"@, ids[i])
        }),
{
}

/// A completed goal has the status and the time of its completion; a reopened one is
/// pending and has none. Nothing else changes, and each undoes the other.
pub proof fn law_reopening_undoes_completion(u: UpdateGoalInput, now: Seq<char>)
    requires
        completion(u, now),
    ensures
        u.status == Some(GoalStatus::Completed) && u.completed_at is Some && opt(u.completed_at->0)
            == Some(now),
        reopening().status == Some(GoalStatus::Pending) && reopening().completed_at == Some(
            None::<String>,
        ),
        u.title is None && u.description is None && u.parent_id is None && u.sort_order is None,
        u.sheet_id is None && u.due_at is None && u.remind_at is None && u.repeat_rule is None,
        u.metadata is None && u.agent_status is None && u.agent_result is None
            && u.agent_progress is None,
        reopening() == (UpdateGoalInput {
            status: reopening().status,
            completed_at: reopening().completed_at,
            ..u
        }),
{
}

/// A key of a plugin's setting is the plugin, a point and the key; two settings share one
/// exactly where both texts give the same whole.
pub proof fn law_settings_have_their_plugin_in_front(plugin: Seq<char>, key: Seq<char>)
    ensures
        setting_key(plugin, key) == plugin + seq!['.'] + key,
{
    reveal_strlit(".");
    assert("."@ =~= seq!['.']);
}

/// What a plugin reads of its settings is what it had, or what a row holds under a key that
/// begins with its prefix: no setting of another plugin.
pub proof fn law_settings_of_others_stay_out(
    base: Map<Seq<char>, Seq<char>>,
    rows: Seq<Vec<DbValue>>,
    prefix: Seq<char>,
    k: Seq<char>,
)
    ensures
        overlay(base, rows, prefix).contains_key(k) ==> base.contains_key(k) || exists|i: int|
            0 <= i < rows.len() && row_pair((#[trigger] rows[i])@) is Some && (row_pair(rows[i]@)->0).0
                == prefix + k,
        base.contains_key(k) ==> overlay(base, rows, prefix).contains_key(k),
    decreases rows.len(),
{
    if rows.len() > 0 {
        let t = rows.drop_last();
        let l = rows.last();
        law_settings_of_others_stay_out(base, t, prefix, k);
        if overlay(base, rows, prefix).contains_key(k) && !base.contains_key(k) {
            if overlay(base, t, prefix).contains_key(k) {
                let i = choose|i: int|
                    0 <= i < t.len() && row_pair((#[trigger] t[i])@) is Some && (row_pair(t[i]@)->0).0
                        == prefix + k;
                assert(rows[i] == t[i]);
            } else {
                let key = (row_pair(l@)->0).0;
                assert(key =~= prefix + key.skip(prefix.len() as int));
                assert(rows[rows.len() - 1] == l);
            }
        }
    }
}

/// The override of a style variable is stored with a prefix and read without it.
pub proof fn law_overrides_lose_their_prefix(row: Seq<DbValue>, var: Seq<char>, value: Seq<char>)
    requires
        row.len() >= 2,
        row[0]@ == Val::Text("style."@ + var),
        row[1]@ == Val::Text(value),
    ensures
        override_of(row) == (var, value),
        setting_key("style"@, var) == "style."@ + var,
{
    law_a_text_holds_its_parts(Seq::empty(), "style."@, var);
    reveal_strlit("style");
    reveal_strlit(".");
    reveal_strlit("style.");
    assert("style"@ + "."@ =~= "style."@);
    assert(setting_key("style"@, var) =~= "style."@ + var);
}

/// A purge empties every table that holds data or the state of the sync.
pub proof fn law_a_purge_leaves_no_data()
    ensures
        purged().contains("goals"@),
        purged().contains("goal_sheets"@),
        purged().contains("themes"@),
        purged().contains("settings"@),
        purged().contains("plugins"@),
        purged().contains("errors"@),
        purged().contains("_outbox"@),
        purged().contains("_sync_state"@),
{
    let p = purged();
    assert(p[0] == "goals"@ && p[1] == "goal_sheets"@ && p[2] == "themes"@ && p[3] == "settings"@);
    assert(p[4] == "plugins"@ && p[5] == "errors"@ && p[6] == "_outbox"@ && p[7] == "_sync_state"@);
}

} // verus!

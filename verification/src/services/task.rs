//! Tasks, and the statement that edits one.

use crate::text::{text_of, texts_of};
use vstd::prelude::*;
use vstd::string::*;

verus! {

/// A task as the task list shows it.
#[derive(Debug)]
pub struct Task {
    pub id: String,
    pub project_id: String,
    pub name: String,
    pub description: Option<String>,
    pub archived: bool,
    pub created_at: String,
}

/// The columns that an edit sets, each with its placeholder, separated by
/// commas: the name first, then the description.
pub open spec fn assignments(name: bool, description: bool) -> Seq<char> {
    if name && description {
        "name = ?"@ + ", "@ + "description = ?"@
    } else if name {
        "name = ?"@
    } else if description {
        "description = ?"@
    } else {
        Seq::empty()
    }
}

/// The statement that sets the given columns of one task.
pub open spec fn statement_text(name: bool, description: bool) -> Seq<char> {
    "UPDATE tasks SET "@ + assignments(name, description) + " WHERE id = ?"@
}

/// The values that the statement's placeholders take, in their order: the
/// new name where there is one, the new description where there is one,
/// and the task's identifier.
pub open spec fn bound_values(
    id: Seq<char>,
    name: Option<Seq<char>>,
    description: Option<Seq<char>>,
) -> Seq<Seq<char>> {
    let first = match name {
        Some(n) => seq![n],
        None => Seq::empty(),
    };
    let second = match description {
        Some(d) => seq![d],
        None => Seq::empty(),
    };
    first + second + seq![id]
}

/// The statement that edits a task's name, its description or both, and
/// the values for its placeholders. `None` where there is nothing to edit.
pub fn edit_query(id: &str, name: Option<&str>, desc: Option<&str>) -> (r: Option<
    (String, Vec<String>),
>)
    ensures
        r is None <==> name is None && desc is None,
        r matches Some(query) ==> {
            &&& query.0@ == statement_text(name is Some, desc is Some)
            &&& texts_of(query.1@) == bound_values(id@, text_of(name), text_of(desc))
        },
{
    if name.is_none() && desc.is_none() {
        return None;
    }
    let mut statement: String = String::from_str("UPDATE tasks SET ");
    let mut values: Vec<String> = Vec::new();
    if let Some(n) = name {
        statement.append("name = ?");
        values.push(n.to_owned());
    }
    if let Some(d) = desc {
        if name.is_some() {
            statement.append(", ");
        }
        statement.append("description = ?");
        values.push(d.to_owned());
    }
    statement.append(" WHERE id = ?");
    values.push(id.to_owned());
    assert(statement@ =~= statement_text(name is Some, desc is Some));
    assert(texts_of(values@) =~= bound_values(id@, text_of(name), text_of(desc)));
    Some((statement, values))
}

} // verus!

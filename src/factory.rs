//! The first clause of each kind of statement, rendered from a table model.
use vstd::prelude::*;

use crate::chain::{QueryBlock, StatementType};
use crate::text::{comma_list, join_strings};

verus! {

/// A table: its name, and the columns a statement names, if any.
pub struct Model {
    pub name: String,
    pub fields: Option<Vec<String>>,
}

/// The columns of `model`, when it lists them.
pub open spec fn field_list(model: Model) -> Option<Seq<String>> {
    match model.fields {
        Some(f) => Some(f@),
        None => None,
    }
}

/// The head clause of a SELECT statement.
pub open spec fn select_fragment(model: Model) -> Seq<char> {
    match field_list(model) {
        Some(f) => "SELECT "@ + comma_list(f) + " FROM "@ + model.name@,
        None => "SELECT * FROM "@ + model.name@,
    }
}

/// The head clause of an INSERT statement.
pub open spec fn insert_fragment(model: Model) -> Seq<char> {
    match field_list(model) {
        Some(f) => "INSERT INTO "@ + model.name@ + " ("@ + comma_list(f) + ")"@,
        None => "INSERT INTO "@ + model.name@,
    }
}

/// The head clause of an UPDATE statement.
pub open spec fn update_fragment(model: Model) -> Seq<char> {
    "UPDATE "@ + model.name@
}

/// The head clause of a DELETE statement.
pub open spec fn delete_fragment(model: Model) -> Seq<char> {
    "DELETE FROM "@ + model.name@
}

/// A chain of one node holding `text`, of kind `kind`.
fn single(text: String, kind: StatementType) -> (r: QueryBlock)
    ensures
        r.secondary_part is None,
        r.query_part@ == text@,
        r.statement_type == kind,
        r.parts() == seq![text@],
        r.kinds() == seq![kind],
        r.well_formed(),
        r.compiled() == text@,
{
    let r = QueryBlock { query_part: text, secondary_part: None, statement_type: kind };
    assert(r.parts().drop_last() =~= Seq::<Seq<char>>::empty());
    r
}

/// Starts a SELECT statement: the listed columns, or `*` where the model
/// lists none.
pub fn select(model: &Model) -> (r: QueryBlock)
    ensures
        r.parts() == seq![select_fragment(*model)],
        r.kinds() == seq![StatementType::Select],
        r.secondary_part is None,
        r.statement_type == StatementType::Select,
        r.well_formed(),
        model.fields is None ==> r.compiled() == "SELECT * FROM "@ + model.name@,
        model.fields is Some ==> r.compiled() == "SELECT "@ + comma_list(
            model.fields.unwrap()@,
        ) + " FROM "@ + model.name@,
{
    let mut text = String::from_str("SELECT ");
    match &model.fields {
        Some(fields) => {
            let list = join_strings(fields, ", ");
            text.append(list.as_str());
            text.append(" FROM ");
            text.append(model.name.as_str());
        },
        None => {
            text = String::from_str("SELECT * FROM ");
            text.append(model.name.as_str());
        },
    }
    single(text, StatementType::Select)
}

/// Starts an UPDATE statement. The model must list its columns.
pub fn update(model: &Model) -> (r: QueryBlock)
    requires
        model.fields is Some,
    ensures
        r.parts() == seq![update_fragment(*model)],
        r.kinds() == seq![StatementType::Update],
        r.secondary_part is None,
        r.statement_type == StatementType::Update,
        r.well_formed(),
        r.compiled() == "UPDATE "@ + model.name@,
{
    let mut text = String::from_str("UPDATE ");
    text.append(model.name.as_str());
    single(text, StatementType::Update)
}

/// Starts a DELETE statement; the model's columns play no part.
pub fn delete(model: &Model) -> (r: QueryBlock)
    ensures
        r.parts() == seq![delete_fragment(*model)],
        r.kinds() == seq![StatementType::Delete],
        r.secondary_part is None,
        r.statement_type == StatementType::Delete,
        r.well_formed(),
        r.compiled() == "DELETE FROM "@ + model.name@,
{
    let mut text = String::from_str("DELETE FROM ");
    text.append(model.name.as_str());
    single(text, StatementType::Delete)
}

/// Starts an INSERT statement, with the column list where the model has one.
pub fn insert(model: &Model) -> (r: QueryBlock)
    ensures
        r.parts() == seq![insert_fragment(*model)],
        r.kinds() == seq![StatementType::Insert],
        r.secondary_part is None,
        r.statement_type == StatementType::Insert,
        r.well_formed(),
        r.compiled() == insert_fragment(*model),
{
    let mut text = String::from_str("INSERT INTO ");
    text.append(model.name.as_str());
    match &model.fields {
        Some(fields) => {
            let list = join_strings(fields, ", ");
            text.append(" (");
            text.append(list.as_str());
            text.append(")");
        },
        None => {},
    }
    single(text, StatementType::Insert)
}

} // verus!

//! Upgrading the chat database: adding a column that an older database
//! lacks.

use vstd::prelude::*;
use crate::text;

verus! {

broadcast use vstd::string::group_string_axioms;

/// The query that lists the columns of `table`.
pub fn table_info_query(table: &str) -> (r: String)
    ensures
        r@ == "PRAGMA table_info("@ + table@ + ")"@,
{
    let mut s = "PRAGMA table_info(".to_string();
    s.append(table);
    s.append(")");
    s
}

/// The statement that adds `column` to `table` where `columns`, the columns
/// the table has, lack it; nothing where the table has it.
pub fn missing_column_statement(columns: &Vec<String>, table: &str, column: &str, definition: &str) -> (r: Option<String>)
    ensures
        r is None <==> exists|i: int| 0 <= i < columns@.len() && columns@[i]@ == column@,
        r matches Some(s) ==> s@ == "ALTER TABLE "@ + table@ + " ADD COLUMN "@ + column@ + " "@
            + definition@,
{
    let wanted = text::chars_of(column);
    let mut i: usize = 0;
    while i < columns.len()
        invariant
            i <= columns.len(),
            wanted@ == column@,
            forall|j: int| 0 <= j < i ==> columns@[j]@ != column@,
        decreases columns.len() - i,
    {
        let name = text::chars_of(columns[i].as_str());
        if text::same_chars(&name, &wanted) {
            return None;
        }
        i += 1;
    }
    let mut s = "ALTER TABLE ".to_string();
    s.append(table);
    s.append(" ADD COLUMN ");
    s.append(column);
    s.append(" ");
    s.append(definition);
    Some(s)
}

} // verus!

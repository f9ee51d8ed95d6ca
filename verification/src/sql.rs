//! The text of the queries that read a table, with identifiers quoted.
//!
//! Neither query orders the rows. The streaming digest of the first
//! therefore depends on the order in which the source happens to deliver
//! rows; the row digest of the second does not.

use vstd::prelude::*;
use vstd::string::StringExecFns;
use crate::format::{decimal, push_decimal};
use crate::text::push_char;

verus! {

/// A name with every double quote in it written twice.
pub open spec fn doubled_quotes(name: Seq<char>) -> Seq<char>
    decreases name.len(),
{
    if name.len() == 0 {
        Seq::empty()
    } else if name.last() == '"' {
        doubled_quotes(name.drop_last()).push('"').push('"')
    } else {
        doubled_quotes(name.drop_last()).push(name.last())
    }
}

/// A name as a quoted identifier: in double quotes, with the double quotes
/// inside it doubled.
pub open spec fn quoted(name: Seq<char>) -> Seq<char> {
    seq!['"'] + doubled_quotes(name) + seq!['"']
}

/// Quoted identifiers, separated by a comma and a space.
pub open spec fn quoted_list(names: Seq<Seq<char>>) -> Seq<char>
    decreases names.len(),
{
    if names.len() == 0 {
        Seq::empty()
    } else if names.len() == 1 {
        quoted(names[0])
    } else {
        quoted_list(names.drop_last()) + ", "@ + quoted(names.last())
    }
}

/// A table as `"schema"."table"`.
pub open spec fn quoted_table(schema: Seq<char>, table: Seq<char>) -> Seq<char> {
    quoted(schema) + "."@ + quoted(table)
}

/// The statement that copies the named columns of a table out in binary form.
pub open spec fn copy_query_spec(
    schema: Seq<char>,
    table: Seq<char>,
    columns: Seq<Seq<char>>,
) -> Seq<char> {
    "COPY (SELECT "@ + quoted_list(columns) + " FROM "@ + quoted_table(schema, table)
        + " ) TO STDOUT (FORMAT binary)"@
}

/// The query that gives every row of a table as one structured value.
pub open spec fn row_query_spec(schema: Seq<char>, table: Seq<char>) -> Seq<char> {
    "select to_jsonb(t) from "@ + quoted_table(schema, table) + " t"@
}

/// The query that finds the schema and the name of the relation with an
/// object identifier.
pub open spec fn relation_lookup_query_spec(oid: nat) -> Seq<char> {
    "select n.nspname::text, c.relname::text from pg_class c join pg_namespace n on n.oid=c.relnamespace where c.oid = "@
        + decimal(oid)
}

/// The names held by a vector of strings, in order.
pub open spec fn names(columns: Seq<String>) -> Seq<Seq<char>> {
    Seq::new(columns.len(), |i: int| columns[i]@)
}

/// Appends a name as a quoted identifier.
pub fn push_quoted(s: &mut String, name: &str)
    ensures
        final(s)@ == old(s)@ + quoted(name@),
{
    push_char(s, '"');
    let n = name.unicode_len();
    let mut i: usize = 0;
    assert(name@.take(0) =~= Seq::<char>::empty());
    while i < n
        invariant
            i <= n,
            n == name@.len(),
            s@ == old(s)@.push('"') + doubled_quotes(name@.take(i as int)),
        decreases n - i,
    {
        let c = name.get_char(i);
        proof {
            assert(name@.take(i + 1).drop_last() =~= name@.take(i as int));
            assert(name@.take(i + 1).last() == c);
        }
        if c == '"' {
            push_char(s, '"');
            push_char(s, '"');
        } else {
            push_char(s, c);
        }
        i += 1;
    }
    push_char(s, '"');
    assert(name@.take(n as int) =~= name@);
    assert(s@ =~= old(s)@ + quoted(name@));
}

/// A name as a quoted identifier.
pub fn quote_ident(name: &str) -> (s: String)
    ensures
        s@ == quoted(name@),
{
    let mut s = String::new();
    push_quoted(&mut s, name);
    assert(s@ =~= quoted(name@));
    s
}

/// Appends a table as `"schema"."table"`.
pub fn push_quoted_table(s: &mut String, schema: &str, table: &str)
    ensures
        final(s)@ == old(s)@ + quoted_table(schema@, table@),
{
    push_quoted(s, schema);
    s.append(".");
    push_quoted(s, table);
    assert(s@ =~= old(s)@ + quoted_table(schema@, table@));
}

/// The statement that copies a table out in binary form, column by column
/// in the order given; `None` for a table without columns, which has
/// nothing to copy.
pub fn copy_query(schema: &str, table: &str, columns: &Vec<String>) -> (query: Option<String>)
    ensures
        columns@.len() == 0 <==> query is None,
        query matches Some(q) ==> q@ == copy_query_spec(schema@, table@, names(columns@)),
{
    if columns.len() == 0 {
        return None;
    }
    let mut q = String::from_str("COPY (SELECT ");
    push_quoted(&mut q, columns[0].as_str());
    let ghost all = names(columns@);
    assert(all.take(1) =~= seq![columns@[0]@]);
    assert(q@ =~= "COPY (SELECT "@ + quoted_list(all.take(1)));
    let mut i: usize = 1;
    while i < columns.len()
        invariant
            1 <= i <= columns.len(),
            all == names(columns@),
            q@ == "COPY (SELECT "@ + quoted_list(all.take(i as int)),
        decreases columns.len() - i,
    {
        q.append(", ");
        push_quoted(&mut q, columns[i].as_str());
        proof {
            assert(all.take(i + 1).drop_last() =~= all.take(i as int));
            assert(all.take(i + 1).last() == columns@[i as int]@);
            assert(q@ =~= "COPY (SELECT "@ + quoted_list(all.take(i + 1)));
        }
        i += 1;
    }
    assert(all.take(columns.len() as int) =~= all);
    q.append(" FROM ");
    push_quoted_table(&mut q, schema, table);
    q.append(" ) TO STDOUT (FORMAT binary)");
    assert(q@ =~= copy_query_spec(schema@, table@, all));
    Some(q)
}

/// The query that gives every row of a table as one structured value.
pub fn row_query(schema: &str, table: &str) -> (query: String)
    ensures
        query@ == row_query_spec(schema@, table@),
{
    let mut q = String::from_str("select to_jsonb(t) from ");
    push_quoted_table(&mut q, schema, table);
    q.append(" t");
    assert(q@ =~= row_query_spec(schema@, table@));
    q
}

/// The query that finds the schema and the name of a relation by its object
/// identifier.
pub fn relation_lookup_query(oid: u32) -> (query: String)
    ensures
        query@ == relation_lookup_query_spec(oid as nat),
{
    let mut q = String::from_str(
        "select n.nspname::text, c.relname::text from pg_class c join pg_namespace n on n.oid=c.relnamespace where c.oid = ",
    );
    push_decimal(&mut q, oid as u128);
    q
}

} // verus!

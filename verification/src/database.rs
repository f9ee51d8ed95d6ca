//! The digests of all tables of a database, in catalog order.

use vstd::prelude::*;
use vstd::string::StringExecFns;

verus! {

/// One row of the catalog's listing of tables.
#[derive(Clone, Debug)]
pub enum CatalogRow {
    /// The schema or the name could not be decoded: the table is passed over.
    Undecodable,
    /// A table, with its object identifier.
    Table { schema: String, table: String, oid: u32 },
}

/// A table to hash: the name it is reported under and its object identifier.
#[derive(Clone, Debug)]
pub struct TableTarget {
    pub identifier: String,
    pub oid: u32,
}

/// The name a table is reported under: schema, a dot, and the table's name.
pub open spec fn identifier_spec(schema: Seq<char>, table: Seq<char>) -> Seq<char> {
    schema + "."@ + table
}

/// The tables of a listing that can be hashed, in the order of the listing.
pub open spec fn targets_spec(listing: Seq<CatalogRow>) -> Seq<(Seq<char>, u32)>
    decreases listing.len(),
{
    if listing.len() == 0 {
        Seq::empty()
    } else {
        match listing.last() {
            CatalogRow::Undecodable => targets_spec(listing.drop_last()),
            CatalogRow::Table { schema, table, oid } => targets_spec(listing.drop_last()).push(
                (identifier_spec(schema@, table@), oid),
            ),
        }
    }
}

/// Targets as values.
pub open spec fn target_views(targets: Seq<TableTarget>) -> Seq<(Seq<char>, u32)> {
    Seq::new(targets.len(), |i: int| (targets[i].identifier@, targets[i].oid))
}

/// The name a table is reported under: schema, a dot, and the table's name.
pub fn table_identifier(schema: &str, table: &str) -> (identifier: String)
    ensures
        identifier@ == identifier_spec(schema@, table@),
{
    let mut identifier = String::from_str(schema);
    identifier.append(".");
    identifier.append(table);
    identifier
}

/// The tables to hash for a listing of the catalog. Rows whose names could
/// not be decoded are passed over; a listing that could not be had at all
/// (`None`) gives no tables.
pub fn tables_to_hash(listing: Option<&Vec<CatalogRow>>) -> (targets: Vec<TableTarget>)
    ensures
        match listing {
            Some(rows) => target_views(targets@) == targets_spec(rows@),
            None => targets@.len() == 0,
        },
{
    let mut targets: Vec<TableTarget> = Vec::new();
    match listing {
        None => {},
        Some(rows) => {
            let mut i: usize = 0;
            assert(rows@.take(0) =~= Seq::<CatalogRow>::empty());
            assert(target_views(targets@) =~= targets_spec(rows@.take(0)));
            while i < rows.len()
                invariant
                    i <= rows.len(),
                    target_views(targets@) == targets_spec(rows@.take(i as int)),
                decreases rows.len() - i,
            {
                proof {
                    assert(rows@.take(i + 1).drop_last() =~= rows@.take(i as int));
                    assert(rows@.take(i + 1).last() == rows@[i as int]);
                }
                let ghost before = targets@;
                match &rows[i] {
                    CatalogRow::Undecodable => {},
                    CatalogRow::Table { schema, table, oid } => {
                        let identifier = table_identifier(schema.as_str(), table.as_str());
                        targets.push(TableTarget { identifier, oid: *oid });
                        assert(target_views(targets@) =~= target_views(before).push(
                            (identifier_spec(schema@, table@), *oid),
                        ));
                    },
                }
                i += 1;
            }
            assert(rows@.take(rows.len() as int) =~= rows@);
        },
    }
    targets
}

/// Results as values.
pub open spec fn result_views(items: Seq<(String, String)>) -> Seq<(Seq<char>, Seq<char>)> {
    Seq::new(items.len(), |i: int| (items[i].0@, items[i].1@))
}

/// The results of a run, table identifier and digest, handed out one at a
/// time in catalog order. What was handed out does not come again.
pub struct ResultSequence {
    items: Vec<(String, String)>,
    position: usize,
}

impl ResultSequence {
    /// The position is within the results.
    pub closed spec fn wf(&self) -> bool {
        self.position <= self.items@.len()
    }

    /// The results not handed out yet, in order.
    pub closed spec fn remaining(&self) -> Seq<(Seq<char>, Seq<char>)> {
        result_views(self.items@).skip(self.position as int)
    }

    /// A sequence that will hand out `items`, first to last.
    pub fn new(items: Vec<(String, String)>) -> (results: Self)
        ensures
            results.wf(),
            results.remaining() == result_views(items@),
    {
        assert(result_views(items@).skip(0) =~= result_views(items@));
        ResultSequence { items, position: 0 }
    }

    /// A sequence that hands out nothing.
    pub fn empty() -> (results: Self)
        ensures
            results.wf(),
            results.remaining() == Seq::<(Seq<char>, Seq<char>)>::empty(),
    {
        let items: Vec<(String, String)> = Vec::new();
        assert(result_views(items@) =~= Seq::<(Seq<char>, Seq<char>)>::empty());
        ResultSequence::new(items)
    }

    /// How many results are still to come.
    pub fn remaining_len(&self) -> (n: usize)
        requires
            self.wf(),
        ensures
            n == self.remaining().len(),
    {
        self.items.len() - self.position
    }

    /// Hands out the next result, or `None` once all were handed out.
    pub fn next_result(&mut self) -> (next: Option<(String, String)>)
        requires
            old(self).wf(),
        ensures
            final(self).wf(),
            match next {
                Some(pair) => {
                    &&& old(self).remaining().len() > 0
                    &&& (pair.0@, pair.1@) == old(self).remaining()[0]
                    &&& final(self).remaining() == old(self).remaining().drop_first()
                },
                None => {
                    &&& old(self).remaining().len() == 0
                    &&& final(self).remaining() == old(self).remaining()
                },
            },
    {
        if self.position < self.items.len() {
            let identifier = self.items[self.position].0.clone();
            let digest = self.items[self.position].1.clone();
            proof {
                assert(result_views(self.items@).skip(self.position as int + 1)
                    =~= result_views(self.items@).skip(self.position as int).drop_first());
            }
            self.position = self.position + 1;
            Some((identifier, digest))
        } else {
            None
        }
    }
}

} // verus!

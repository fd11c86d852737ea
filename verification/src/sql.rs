//! The statement fragments the stores' writes share, built from the column
//! lists the kinds own, so a statement can never name a column its kind
//! does not list.

use vstd::prelude::*;

verus! {

/// The assignment that empties one column.
pub open spec fn null_assignment(column: Seq<char>) -> Seq<char> {
    column + " = NULL"@
}

/// The assignments that empty a list of columns, separated by commas.
pub open spec fn null_clause(columns: Seq<Seq<char>>) -> Seq<char>
    decreases columns.len(),
{
    if columns.len() == 0 {
        Seq::empty()
    } else if columns.len() == 1 {
        null_assignment(columns[0])
    } else {
        null_clause(columns.drop_last()) + ", "@ + null_assignment(columns.last())
    }
}

/// The texts of a list of column names.
pub open spec fn column_texts(columns: Seq<&str>) -> Seq<Seq<char>> {
    columns.map_values(|c: &str| c@)
}

/// The assignments that empty the given columns, in order, separated by
/// commas.
pub fn null_assignments(columns: &[&str]) -> (clause: String)
    ensures
        clause@ == null_clause(column_texts(columns@)),
{
    let mut clause = String::new();
    let mut i: usize = 0;
    assert(column_texts(columns@).subrange(0, 0) =~= Seq::<Seq<char>>::empty());
    while i < columns.len()
        invariant
            i <= columns@.len(),
            clause@ == null_clause(column_texts(columns@).subrange(0, i as int)),
        decreases columns@.len() - i,
    {
        let ghost before = clause@;
        let ghost prefix = column_texts(columns@).subrange(0, i as int + 1);
        assert(prefix.drop_last() =~= column_texts(columns@).subrange(0, i as int));
        assert(prefix.last() == columns@[i as int]@);
        if i > 0 {
            clause.append(", ");
        }
        clause.append(columns[i]);
        clause.append(" = NULL");
        proof {
            if i > 0 {
                assert(clause@ =~= before + ", "@ + null_assignment(columns@[i as int]@));
            } else {
                assert(clause@ =~= null_assignment(columns@[0]@));
            }
        }
        i = i + 1;
    }
    assert(column_texts(columns@).subrange(0, i as int) =~= column_texts(columns@));
    clause
}

} // verus!

use vstd::prelude::*;
use vstd::string::StringExecFns;

use crate::dataframe::DataFrame;
use crate::schema::{find_name, lemma_find_name, Schema};

verus! {

/// Failures of a selection.
#[derive(Debug, Clone, PartialEq)]
pub enum Error {
    /// No column has this name.
    InvalidColumnName { name: String },
}

/// One column of a selection: a source column, kept under its name or under an alias.
#[derive(Debug, Clone, Copy)]
pub enum Select<'a> {
    Name(&'a str),
    Alias(&'a str, &'a str),
}

impl<'a> Select<'a> {
    /// The name of the source column.
    pub open spec fn source(self) -> Seq<char> {
        match self {
            Select::Name(name) => name@,
            Select::Alias(name, _) => name@,
        }
    }

    /// The name of the column in the result.
    pub open spec fn target(self) -> Seq<char> {
        match self {
            Select::Name(name) => name@,
            Select::Alias(_, alias) => alias@,
        }
    }

    pub fn name(&self) -> (r: &'a str)
        ensures
            r@ == self.source(),
    {
        match self {
            Select::Name(name) => name,
            Select::Alias(name, _) => name,
        }
    }

    pub fn with_name(&self) -> (r: &'a str)
        ensures
            r@ == self.target(),
    {
        match self {
            Select::Name(name) => name,
            Select::Alias(_, alias) => alias,
        }
    }
}

impl<'a> From<&'a str> for Select<'a> {
    fn from(s: &'a str) -> (r: Select<'a>)
        ensures
            r == Select::Name(s),
    {
        Select::Name(s)
    }
}

impl<'a> vstd::std_specs::convert::FromSpecImpl<&'a str> for Select<'a> {
    open spec fn obeys_from_spec() -> bool {
        true
    }

    open spec fn from_spec(s: &'a str) -> Select<'a> {
        Select::Name(s)
    }
}

impl<'a> From<(&'a str, &'a str)> for Select<'a> {
    fn from(alias: (&'a str, &'a str)) -> (r: Select<'a>)
        ensures
            r == Select::Alias(alias.0, alias.1),
    {
        Select::Alias(alias.0, alias.1)
    }
}

impl<'a> vstd::std_specs::convert::FromSpecImpl<(&'a str, &'a str)> for Select<'a> {
    open spec fn obeys_from_spec() -> bool {
        true
    }

    open spec fn from_spec(alias: (&'a str, &'a str)) -> Select<'a> {
        Select::Alias(alias.0, alias.1)
    }
}

/// Every selected name refers to a column.
pub open spec fn resolves(df: DataFrame, select: Seq<Select>) -> bool {
    forall|k: int| 0 <= k < select.len() ==> find_name(df@.fields, (#[trigger] select[k]).source()) is Some
}

/// The source position of the `k`th selected column.
pub open spec fn source_position(df: DataFrame, select: Seq<Select>, k: int) -> int {
    find_name(df@.fields, select[k].source()).unwrap()
}

/// A new frame holding the selected columns in the requested order, each under its alias
/// where one is given, with all rows of the source; `InvalidColumnName` for the first name
/// that refers to no column.
pub fn select(df: &DataFrame, columns: &[Select]) -> (r: Result<DataFrame, Error>)
    requires
        df.wf(),
        columns@.len() * df@.rows <= usize::MAX,
    ensures
        resolves(*df, columns@) ==> (r matches Ok(out) && {
            &&& out.wf()
            &&& out@.columns == columns@.len()
            &&& out@.rows == df@.rows
            &&& forall|k: int|
                #![trigger out@.fields[k]]
                0 <= k < columns@.len() ==> {
                    let f = df@.fields[source_position(*df, columns@, k)];
                    &&& out@.fields[k].name@ == columns@[k].target()
                    &&& out@.fields[k].dtype == f.dtype
                    &&& out@.fields[k].nullable == f.nullable
                }
            &&& forall|q: int, k: int|
                0 <= q < df@.rows && 0 <= k < columns@.len() ==> (#[trigger] out@.at(q, k)).same(
                    df@.at(q, source_position(*df, columns@, k)),
                )
        }),
        !resolves(*df, columns@) ==> exists|k: int|
            0 <= k < columns@.len() && find_name(df@.fields, columns@[k].source()) is None && (forall|
                j: int,
            |
                0 <= j < k ==> find_name(df@.fields, (#[trigger] columns@[j]).source()) is Some)
                && (r matches Err(Error::InvalidColumnName { name }) && name@ == columns@[k].source()),
{
    let mut positions: Vec<usize> = Vec::new();
    let mut schema = Schema::with_size(columns.len());
    let mut k: usize = 0;
    while k < columns.len()
        invariant
            df.wf(),
            k <= columns@.len(),
            positions@.len() == k,
            schema.spec_len() == k,
            forall|j: int| 0 <= j < k ==> find_name(df@.fields, (#[trigger] columns@[j]).source()) is Some,
            forall|j: int|
                #![trigger positions@[j]]
                0 <= j < k ==> positions@[j] == source_position(*df, columns@, j) && positions@[j]
                    < df@.columns,
            forall|j: int|
                #![trigger schema.spec_fields()[j]]
                0 <= j < k ==> {
                    let f = df@.fields[source_position(*df, columns@, j)];
                    &&& schema.spec_fields()[j].name@ == columns@[j].target()
                    &&& schema.spec_fields()[j].dtype == f.dtype
                    &&& schema.spec_fields()[j].nullable == f.nullable
                },
        decreases columns@.len() - k,
    {
        let s = &columns[k];
        proof {
            lemma_find_name(df@.fields, s.source());
        }
        match df.schema().get_field_full(s.name()) {
            Some((pos, field)) => {
                let mut f = field.clone();
                f.name = String::from_str(s.with_name());
                let ghost prev = schema.spec_fields();
                schema.push_field(f);
                positions.push(pos);
                proof {
                    assert forall|j: int| 0 <= j < k implies schema.spec_fields()[j] == prev[j] by {}
                }
            },
            None => {
                return Err(Error::InvalidColumnName { name: String::from_str(s.name()) });
            },
        }
        k += 1;
    }
    Ok(df.gather(&positions, schema))
}

} // verus!

//! Table catalog: columns, schemas, and a small parser that turns the
//! column list of a `CREATE TABLE` statement into a schema.

use vstd::prelude::*;

use crate::data_type::{DataType, spec_parse_data_type};
use crate::text::{
    chars_of, find_char, spec_find_char, spec_lower, string_from_chars, sub_chars, to_lower_chars,
};

verus! {

/// Object id of a table.
pub type TableOid = u32;

/// One column: its name and its SQL type.
#[derive(Debug)]
pub struct Column {
    pub name: String,
    pub data_type: DataType,
}

impl Column {
    /// This column's name.
    pub open spec fn spec_name(self) -> Seq<char> {
        self.name@
    }

    pub fn new(name: String, data_type: DataType) -> (column: Column)
        ensures
            column.spec_name() == name@,
            column.data_type == data_type,
    {
        Column { name, data_type }
    }

    pub fn get_name(&self) -> (name: &str)
        ensures
            name@ == self.spec_name(),
    {
        self.name.as_str()
    }
}

/// Index of the first column named `name`.
pub open spec fn spec_col_idx(columns: Seq<Column>, name: Seq<char>) -> Option<int>
    decreases columns.len(),
{
    if columns.len() == 0 {
        None
    } else if columns[0].spec_name() == name {
        Some(0)
    } else {
        match spec_col_idx(columns.drop_first(), name) {
            Some(i) => Some(i + 1),
            None => None,
        }
    }
}

/// The first column with the name is a match, and nothing before it is.
pub proof fn lemma_col_idx(columns: Seq<Column>, name: Seq<char>)
    ensures
        match spec_col_idx(columns, name) {
            Some(i) => 0 <= i < columns.len() && columns[i].spec_name() == name && forall|j: int|
                0 <= j < i ==> columns[j].spec_name() != name,
            None => forall|j: int| 0 <= j < columns.len() ==> columns[j].spec_name() != name,
        },
    decreases columns.len(),
{
    if columns.len() > 0 && columns[0].spec_name() != name {
        lemma_col_idx(columns.drop_first(), name);
        match spec_col_idx(columns.drop_first(), name) {
            Some(i) => {
                assert(columns.drop_first()[i] == columns[i + 1]);
                assert forall|j: int| 0 <= j < i + 1 implies columns[j].spec_name() != name by {
                    if j > 0 {
                        assert(columns.drop_first()[j - 1].spec_name() != name);
                    }
                }
            },
            None => {
                assert forall|j: int| 0 <= j < columns.len() implies columns[j].spec_name()
                    != name by {
                    if j > 0 {
                        assert(columns.drop_first()[j - 1].spec_name() != name);
                    }
                }
            },
        }
    }
}

/// An ordered list of columns.
#[derive(Debug)]
pub struct Schema {
    columns: Vec<Column>,
    non_inlined_columns: Vec<usize>,
}

impl Schema {
    /// Column indices and counts are reported as `u32`.
    #[verifier::type_invariant]
    spec fn type_inv(self) -> bool {
        self.columns@.len() <= u32::MAX && self.non_inlined_columns@.len() <= u32::MAX
    }

    /// The columns, in declaration order.
    pub closed spec fn spec_columns(self) -> Seq<Column> {
        self.columns@
    }

    /// Indices of all non-inlined columns.
    pub closed spec fn spec_non_inlined_columns(self) -> Seq<usize> {
        self.non_inlined_columns@
    }

    pub fn new(columns: Vec<Column>) -> (schema: Schema)
        requires
            columns@.len() <= u32::MAX,
        ensures
            schema.spec_columns() == columns@,
            schema.spec_non_inlined_columns() == Seq::<usize>::empty(),
    {
        Schema { columns, non_inlined_columns: Vec::new() }
    }

    /// Index of the first column named `name`, or `None`.
    pub fn get_col_idx(&self, name: &str) -> (idx: Option<u32>)
        ensures
            idx == match spec_col_idx(self.spec_columns(), name@) {
                Some(i) => Some(i as u32),
                None => None::<u32>,
            },
    {
        proof {
            use_type_invariant(&*self);
            lemma_col_idx(self.spec_columns(), name@);
        }
        let name_chars = chars_of(name);
        let mut i: usize = 0;
        while i < self.columns.len()
            invariant
                i <= self.columns@.len(),
                self.columns@.len() <= u32::MAX,
                name_chars@ == name@,
                forall|j: int| 0 <= j < i ==> self.columns@[j].spec_name() != name@,
                match spec_col_idx(self.columns@, name@) {
                    Some(k) => 0 <= k < self.columns@.len() && self.columns@[k].spec_name() == name@
                        && forall|j: int| 0 <= j < k ==> self.columns@[j].spec_name() != name@,
                    None => forall|j: int|
                        0 <= j < self.columns@.len() ==> self.columns@[j].spec_name() != name@,
                },
            decreases self.columns@.len() - i,
        {
            let col_chars = chars_of(self.columns[i].get_name());
            if crate::text::chars_eq(&col_chars, &name_chars) {
                return Some(i as u32);
            }
            i = i + 1;
        }
        None
    }

    /// Number of columns.
    pub fn get_col_count(&self) -> (count: u32)
        ensures
            count == self.spec_columns().len(),
    {
        proof {
            use_type_invariant(&*self);
        }
        self.columns.len() as u32
    }

    /// Number of non-inlined columns.
    pub fn get_non_inlined_column_count(&self) -> (count: u32)
        ensures
            count == self.spec_non_inlined_columns().len(),
    {
        proof {
            use_type_invariant(&*self);
        }
        self.non_inlined_columns.len() as u32
    }
}

/// A named table and its schema.
#[allow(dead_code)]
pub struct TableInfo {
    schema: Schema,
    name: String,
    table_oid: TableOid,
}

/// `s` divided at every occurrence of `sep`, separators removed; a string
/// without separators is a single token.
pub open spec fn spec_split(s: Seq<char>, sep: char) -> Seq<Seq<char>>
    decreases s.len(),
{
    match spec_find_char(s, sep) {
        Some(i) => if 0 <= i < s.len() {
            seq![s.subrange(0, i)] + spec_split(s.subrange(i + 1, s.len() as int), sep)
        } else {
            seq![s]
        },
        None => seq![s],
    }
}

/// One column declaration: the name before the first space, the SQL type
/// after it.  `None` when the space is missing or the type does not parse.
pub open spec fn spec_parse_column(t: Seq<char>) -> Option<(Seq<char>, DataType)> {
    match spec_find_char(t, ' ') {
        Some(n) => if 0 <= n < t.len() {
            match spec_parse_data_type(t.subrange(n + 1, t.len() as int)) {
                Ok(data_type) => Some((t.subrange(0, n), data_type)),
                Err(()) => None,
            }
        } else {
            None
        },
        None => None,
    }
}

/// The comma-separated column declarations of `s`, lower-cased.
pub open spec fn spec_stmt_tokens(s: Seq<char>) -> Seq<Seq<char>> {
    spec_split(spec_lower(s), ',')
}

/// Every column declaration of the statement parses.
pub open spec fn spec_stmt_wf(s: Seq<char>) -> bool {
    forall|k: int|
        0 <= k < spec_stmt_tokens(s).len() ==> spec_parse_column(
            #[trigger] spec_stmt_tokens(s)[k],
        ) is Some
}

/// Build the schema declared by the column list of a `CREATE TABLE`
/// statement: comma-separated declarations, each a column name and an SQL
/// type separated by a space, case-insensitive.
pub fn parse_create_stmt(stmt: &str) -> (schema: Schema)
    requires
        spec_stmt_wf(stmt@),
        spec_stmt_tokens(stmt@).len() <= u32::MAX,
    ensures
        schema.spec_columns().len() == spec_stmt_tokens(stmt@).len(),
        forall|k: int|
            0 <= k < spec_stmt_tokens(stmt@).len() ==> {
                let parsed = spec_parse_column(spec_stmt_tokens(stmt@)[k])->0;
                (#[trigger] schema.spec_columns()[k]).spec_name() == parsed.0
                    && schema.spec_columns()[k].data_type == parsed.1
            },
{
    let ghost tokens = spec_stmt_tokens(stmt@);
    let chars = chars_of(stmt);
    let mut rest = to_lower_chars(&chars);
    let mut columns: Vec<Column> = Vec::new();
    loop
        invariant_except_break
            spec_stmt_wf(stmt@),
            tokens == spec_stmt_tokens(stmt@),
            tokens.len() <= u32::MAX,
            columns@.len() <= tokens.len(),
            spec_split(rest@, ',') =~= tokens.subrange(columns@.len() as int, tokens.len() as int),
            forall|k: int|
                0 <= k < columns@.len() ==> {
                    let parsed = spec_parse_column(tokens[k])->0;
                    (#[trigger] columns@[k]).spec_name() == parsed.0 && columns@[k].data_type
                        == parsed.1
                },
        ensures
            columns@.len() == tokens.len(),
            forall|k: int|
                0 <= k < columns@.len() ==> {
                    let parsed = spec_parse_column(tokens[k])->0;
                    (#[trigger] columns@[k]).spec_name() == parsed.0 && columns@[k].data_type
                        == parsed.1
                },
        decreases spec_split(rest@, ',').len(),
    {
        let ghost done = columns@.len() as int;
        let ghost rest0 = rest@;
        let token: Vec<char>;
        let mut last = false;
        match find_char(&rest, ',') {
            Some(i) => {
                let n: usize = rest.len();
                proof {
                    crate::text::lemma_find_char(rest0, ',');
                    assert(spec_find_char(rest0, ',') == Some(i as int));
                    assert(i < n);
                }
                token = sub_chars(&rest, 0, i);
                let next = sub_chars(&rest, i + 1, n);
                rest = next;
                proof {
                    assert(spec_split(rest0, ',') == seq![rest0.subrange(0, i as int)]
                        + spec_split(rest0.subrange(i as int + 1, rest0.len() as int), ','));
                    assert(token@ == spec_split(rest0, ',')[0]);
                    assert(spec_split(rest0, ',').drop_first() =~= spec_split(rest@, ','));
                }
            },
            None => {
                proof {
                    crate::text::lemma_find_char(rest0, ',');
                    assert(spec_split(rest0, ',') == seq![rest0]);
                }
                token = rest;
                rest = Vec::new();
                last = true;
            },
        }
        proof {
            assert(spec_split(rest0, ',') =~= tokens.subrange(done, tokens.len() as int));
            assert(done < tokens.len());
            assert(token@ == spec_split(rest0, ',')[0]);
            assert(token@ == tokens[done]);
            assert(spec_parse_column(tokens[done]) is Some);
            crate::text::lemma_find_char(token@, ' ');
        }
        let space = match find_char(&token, ' ') {
            Some(n) => n,
            None => vstd::pervasive::unreached(),
        };
        let name_chars = sub_chars(&token, 0, space);
        let type_chars = sub_chars(&token, space + 1, token.len());
        let data_type = match DataType::from_chars(&type_chars) {
            Ok(data_type) => data_type,
            Err(()) => vstd::pervasive::unreached(),
        };
        columns.push(Column::new(string_from_chars(&name_chars), data_type));
        if last {
            proof {
                assert(tokens.subrange(done, tokens.len() as int) =~= seq![token@]);
                assert(columns@.len() == tokens.len());
            }
            break ;
        }
        proof {
            assert(spec_split(rest0, ',').drop_first() =~= tokens.subrange(
                done + 1,
                tokens.len() as int,
            ));
            assert(spec_split(rest@, ',') =~= tokens.subrange(done + 1, tokens.len() as int));
        }
    }
    Schema::new(columns)
}

} // verus!

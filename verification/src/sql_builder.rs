//! Typed SQL statement builder: assembles parameterized SQL text from
//! typed descriptions and never executes anything. Every statement the
//! install engine issues against the catalog is built here, so the
//! contracts pin the produced text down exactly.

use vstd::prelude::*;

use crate::digits::{dec_str, u64_to_string};

verus! {

/// Joins the given parts with `", "` between them.
pub open spec fn join_comma(parts: Seq<Seq<char>>) -> Seq<char>
    decreases parts.len(),
{
    if parts.len() == 0 {
        Seq::empty()
    } else if parts.len() == 1 {
        parts[0]
    } else {
        parts[0] + ", "@ + join_comma(parts.drop_first())
    }
}

pub proof fn lemma_join_comma_push(parts: Seq<Seq<char>>, x: Seq<char>)
    ensures
        join_comma(parts.push(x)) == if parts.len() == 0 {
            x
        } else {
            join_comma(parts) + ", "@ + x
        },
    decreases parts.len(),
{
    if parts.len() == 0 {
        assert(parts.push(x)[0] == x);
        assert(parts.push(x).len() == 1);
    } else if parts.len() == 1 {
        let p = parts.push(x);
        assert(p.drop_first() =~= parts.drop_first().push(x));
        assert(p[0] == parts[0]);
        lemma_join_comma_push(parts.drop_first(), x);
        assert(join_comma(parts) == parts[0]);
    } else {
        let p = parts.push(x);
        assert(p.drop_first() =~= parts.drop_first().push(x));
        assert(p[0] == parts[0]);
        lemma_join_comma_push(parts.drop_first(), x);
        assert(join_comma(p) == p[0] + ", "@ + join_comma(p.drop_first()));
        assert(p[0] + ", "@ + (join_comma(parts.drop_first()) + ", "@ + x) =~= (parts[0] + ", "@
            + join_comma(parts.drop_first())) + ", "@ + x);
    }
}

/// Mapping over one more element of a prefix appends the mapped
/// element.
proof fn lemma_map_take_push<A, B>(s: Seq<A>, f: spec_fn(A) -> B, i: int)
    requires
        0 <= i < s.len(),
    ensures
        s.take(i + 1).map_values(f) =~= s.take(i).map_values(f).push(f(s[i])),
{
    let lhs = s.take(i + 1).map_values(f);
    let rhs = s.take(i).map_values(f).push(f(s[i]));
    assert forall|j: int| 0 <= j < lhs.len() implies lhs[j] == rhs[j] by {
        assert(lhs[j] == f(s.take(i + 1)[j]));
        if j < i {
            assert(rhs[j] == f(s.take(i)[j]));
        }
    }
}

/// The positional placeholder `?index` of a bound column.
pub open spec fn placeholder_sql(index: nat) -> Seq<char> {
    "?"@ + dec_str(index)
}

/// Anything that renders to a complete SQL statement.
pub trait CommonInstructions: Sized {
    /// The description is renderable (rules out `SELECT DISTINCT` over
    /// no columns).
    spec fn wf(&self) -> bool;

    /// The exact text of the constructed statement.
    spec fn sql(&self) -> Seq<char>;

    /// Returns constructed SQL statement in String form.
    fn to_string(&self) -> (r: String)
        requires
            self.wf(),
        ensures
            r@ == self.sql(),
    ;
}

/// A column name paired with the positional placeholder index that the
/// caller will bind its value to.
pub struct Column(pub String, pub u8);

/// A built `SELECT` statement.
pub struct Select(pub String);

/// A built `DELETE` statement.
pub struct Delete(pub String);

/// A built `INSERT` statement.
pub struct Insert(pub String);

/// A typed description of one SQL operation.
pub enum Operation {
    /// Column names (`None` or empty means `*`) and the `FROM` table.
    Select(Option<Vec<String>>, String),
    /// Column names (must be non-empty) and the `FROM` table.
    SelectDistinct(Vec<String>, String),
    /// The table to delete from.
    Delete(String),
    /// Target table and bound columns; `None` or empty means
    /// `DEFAULT VALUES`.
    Insert(String, Option<Vec<Column>>),
    /// Target table fed from an already-built `SELECT`.
    InsertFromSelect(String, Select),
}

/// Text of a `SELECT` column list: the names, or `*` when none are
/// given.
pub open spec fn select_columns_sql(columns: Option<Vec<String>>) -> Seq<char> {
    match columns {
        Option::Some(cols) => if cols.len() > 0 {
            join_comma(cols@.map_values(|s: String| s@))
        } else {
            "*"@
        },
        Option::None => "*"@,
    }
}

impl CommonInstructions for Operation {
    open spec fn wf(&self) -> bool {
        match self {
            Operation::SelectDistinct(cols, _) => cols.len() > 0,
            _ => true,
        }
    }

    open spec fn sql(&self) -> Seq<char> {
        match self {
            Operation::Select(columns, table) => "SELECT "@ + select_columns_sql(*columns)
                + " FROM "@ + table@,
            Operation::SelectDistinct(columns, table) => "SELECT DISTINCT "@ + join_comma(
                columns@.map_values(|s: String| s@),
            ) + " FROM "@ + table@,
            Operation::Delete(table) => "DELETE FROM "@ + table@,
            Operation::Insert(table, columns) => match columns {
                Option::Some(cols) => if cols.len() > 0 {
                    "INSERT INTO "@ + table@ + " ("@ + join_comma(
                        cols@.map_values(|c: Column| c.0@),
                    ) + ") VALUES("@ + join_comma(
                        cols@.map_values(|c: Column| placeholder_sql(c.1 as nat)),
                    ) + ")"@
                } else {
                    "INSERT INTO "@ + table@ + " DEFAULT VALUES"@
                },
                Option::None => "INSERT INTO "@ + table@ + " DEFAULT VALUES"@,
            },
            Operation::InsertFromSelect(table, select) => "INSERT INTO "@ + table@ + " "@
                + select.0@,
        }
    }

    fn to_string(&self) -> (r: String) {
        match self {
            Operation::Select(columns, table) => {
                let mut r = String::from_str("SELECT ");
                match columns {
                    Option::Some(cols) => {
                        if cols.len() > 0 {
                            let joined = join_string_views(cols);
                            r.append(joined.as_str());
                        } else {
                            r.append("*");
                        }
                    },
                    Option::None => {
                        r.append("*");
                    },
                }
                r.append(" FROM ");
                r.append(table.as_str());
                proof {
                    assert(r@ =~= self.sql());
                }
                r
            },
            Operation::SelectDistinct(columns, table) => {
                let mut r = String::from_str("SELECT DISTINCT ");
                let joined = join_string_views(columns);
                r.append(joined.as_str());
                r.append(" FROM ");
                r.append(table.as_str());
                proof {
                    assert(r@ =~= self.sql());
                }
                r
            },
            Operation::Delete(table) => {
                let mut r = String::from_str("DELETE FROM ");
                r.append(table.as_str());
                proof {
                    assert(r@ =~= self.sql());
                }
                r
            },
            Operation::Insert(table, columns) => {
                let mut r = String::from_str("INSERT INTO ");
                r.append(table.as_str());
                match columns {
                    Option::Some(cols) => {
                        if cols.len() > 0 {
                            r.append(" (");
                            let names = join_column_names(cols);
                            r.append(names.as_str());
                            r.append(") VALUES(");
                            let values = join_column_placeholders(cols);
                            r.append(values.as_str());
                            r.append(")");
                        } else {
                            r.append(" DEFAULT VALUES");
                        }
                    },
                    Option::None => {
                        r.append(" DEFAULT VALUES");
                    },
                }
                proof {
                    assert(r@ =~= self.sql());
                }
                r
            },
            Operation::InsertFromSelect(table, select) => {
                let mut r = String::from_str("INSERT INTO ");
                r.append(table.as_str());
                r.append(" ");
                r.append(select.0.as_str());
                proof {
                    assert(r@ =~= self.sql());
                }
                r
            },
        }
    }
}

impl Operation {
    /// Renders the statement unless the description is malformed:
    /// `SELECT DISTINCT` over an empty column set yields `None` instead
    /// of invalid SQL.
    pub fn try_to_string(&self) -> (r: Option<String>)
        ensures
            match r {
                Option::Some(s) => self.wf() && s@ == self.sql(),
                Option::None => !self.wf(),
            },
    {
        match self {
            Operation::SelectDistinct(cols, _) => {
                if cols.len() == 0 {
                    Option::None
                } else {
                    Option::Some(self.to_string())
                }
            },
            _ => Option::Some(self.to_string()),
        }
    }
}

/// Joins column names of a `SELECT` with `", "`.
fn join_string_views(cols: &Vec<String>) -> (r: String)
    ensures
        r@ == join_comma(cols@.map_values(|s: String| s@)),
{
    let mut r = String::new();
    let mut i: usize = 0;
    while i < cols.len()
        invariant
            i <= cols.len(),
            r@ == join_comma(cols@.take(i as int).map_values(|s: String| s@)),
        decreases cols.len() - i,
    {
        if i > 0 {
            r.append(", ");
        }
        r.append(cols[i].as_str());
        proof {
            lemma_join_comma_push(
                cols@.take(i as int).map_values(|s: String| s@),
                cols@[i as int]@,
            );
            lemma_map_take_push(cols@, |s: String| s@, i as int);
            assert(r@ =~= join_comma(cols@.take(i as int + 1).map_values(|s: String| s@)));
        }
        i = i + 1;
    }
    proof {
        assert(cols@.take(cols@.len() as int) =~= cols@);
    }
    r
}

/// Joins the column names of an `INSERT` with `", "`.
fn join_column_names(cols: &Vec<Column>) -> (r: String)
    ensures
        r@ == join_comma(cols@.map_values(|c: Column| c.0@)),
{
    let mut r = String::new();
    let mut i: usize = 0;
    while i < cols.len()
        invariant
            i <= cols.len(),
            r@ == join_comma(cols@.take(i as int).map_values(|c: Column| c.0@)),
        decreases cols.len() - i,
    {
        if i > 0 {
            r.append(", ");
        }
        r.append(cols[i].0.as_str());
        proof {
            lemma_join_comma_push(
                cols@.take(i as int).map_values(|c: Column| c.0@),
                cols@[i as int].0@,
            );
            lemma_map_take_push(cols@, |c: Column| c.0@, i as int);
            assert(r@ =~= join_comma(cols@.take(i as int + 1).map_values(|c: Column| c.0@)));
        }
        i = i + 1;
    }
    proof {
        assert(cols@.take(cols@.len() as int) =~= cols@);
    }
    r
}

/// Joins the `?index` placeholders of an `INSERT` with `", "`.
fn join_column_placeholders(cols: &Vec<Column>) -> (r: String)
    ensures
        r@ == join_comma(cols@.map_values(|c: Column| placeholder_sql(c.1 as nat))),
{
    let mut r = String::new();
    let mut i: usize = 0;
    while i < cols.len()
        invariant
            i <= cols.len(),
            r@ == join_comma(
                cols@.take(i as int).map_values(|c: Column| placeholder_sql(c.1 as nat)),
            ),
        decreases cols.len() - i,
    {
        if i > 0 {
            r.append(", ");
        }
        r.append("?");
        let idx = u64_to_string(cols[i].1 as u64);
        r.append(idx.as_str());
        proof {
            lemma_join_comma_push(
                cols@.take(i as int).map_values(|c: Column| placeholder_sql(c.1 as nat)),
                placeholder_sql(cols@[i as int].1 as nat),
            );
            lemma_map_take_push(cols@, |c: Column| placeholder_sql(c.1 as nat), i as int);
            assert(r@ =~= join_comma(
                cols@.take(i as int + 1).map_values(|c: Column| placeholder_sql(c.1 as nat)),
            ));
        }
        i = i + 1;
    }
    proof {
        assert(cols@.take(cols@.len() as int) =~= cols@);
    }
    r
}

/// A WHERE predicate: the column's placeholder index (or two, for the
/// BETWEEN forms) to bind a value to, together with the column's name.
pub enum Where {
    Equal(u8, String),
    NotEqual(u8, String),
    LessThan(u8, String),
    LessThanOrEqual(u8, String),
    GreaterThan(u8, String),
    GreaterThanOrEqual(u8, String),
    Between(u8, u8, String),
    NotBetween(u8, u8, String),
    In(u8, String),
    NotIn(u8, String),
    Like(u8, String),
    NotLike(u8, String),
}

impl CommonInstructions for Where {
    open spec fn wf(&self) -> bool {
        true
    }

    open spec fn sql(&self) -> Seq<char> {
        match self {
            Where::Equal(index, name) => name@ + " = "@ + placeholder_sql(*index as nat),
            Where::NotEqual(index, name) => name@ + " != "@ + placeholder_sql(*index as nat),
            Where::LessThan(index, name) => name@ + " < "@ + placeholder_sql(*index as nat),
            Where::LessThanOrEqual(index, name) => name@ + " <= "@ + placeholder_sql(
                *index as nat,
            ),
            Where::GreaterThan(index, name) => name@ + " > "@ + placeholder_sql(*index as nat),
            Where::GreaterThanOrEqual(index, name) => name@ + " >= "@ + placeholder_sql(
                *index as nat,
            ),
            Where::Between(index1, index2, name) => name@ + " BETWEEN "@ + placeholder_sql(
                *index1 as nat,
            ) + " AND "@ + placeholder_sql(*index2 as nat),
            Where::NotBetween(index1, index2, name) => name@ + " NOT BETWEEN "@ + placeholder_sql(
                *index1 as nat,
            ) + " AND "@ + placeholder_sql(*index2 as nat),
            Where::In(index, name) => name@ + " IN "@ + placeholder_sql(*index as nat),
            Where::NotIn(index, name) => name@ + " NOT IN "@ + placeholder_sql(*index as nat),
            Where::Like(index, name) => name@ + " LIKE "@ + placeholder_sql(*index as nat),
            Where::NotLike(index, name) => name@ + " NOT LIKE "@ + placeholder_sql(*index as nat),
        }
    }

    fn to_string(&self) -> (r: String) {
        match self {
            Where::Equal(index, name) => one_index_condition(name, " = ", *index),
            Where::NotEqual(index, name) => one_index_condition(name, " != ", *index),
            Where::LessThan(index, name) => one_index_condition(name, " < ", *index),
            Where::LessThanOrEqual(index, name) => one_index_condition(name, " <= ", *index),
            Where::GreaterThan(index, name) => one_index_condition(name, " > ", *index),
            Where::GreaterThanOrEqual(index, name) => one_index_condition(name, " >= ", *index),
            Where::Between(index1, index2, name) => two_index_condition(
                name,
                " BETWEEN ",
                *index1,
                *index2,
            ),
            Where::NotBetween(index1, index2, name) => two_index_condition(
                name,
                " NOT BETWEEN ",
                *index1,
                *index2,
            ),
            Where::In(index, name) => one_index_condition(name, " IN ", *index),
            Where::NotIn(index, name) => one_index_condition(name, " NOT IN ", *index),
            Where::Like(index, name) => one_index_condition(name, " LIKE ", *index),
            Where::NotLike(index, name) => one_index_condition(name, " NOT LIKE ", *index),
        }
    }
}

/// Renders `name OP ?index`.
fn one_index_condition(name: &String, op: &str, index: u8) -> (r: String)
    ensures
        r@ == name@ + op@ + placeholder_sql(index as nat),
{
    let mut r = name.clone();
    r.append(op);
    r.append("?");
    let idx = u64_to_string(index as u64);
    r.append(idx.as_str());
    proof {
        assert(r@ =~= name@ + op@ + placeholder_sql(index as nat));
    }
    r
}

/// Renders `name OP ?index1 AND ?index2`.
fn two_index_condition(name: &String, op: &str, index1: u8, index2: u8) -> (r: String)
    ensures
        r@ == name@ + op@ + placeholder_sql(index1 as nat) + " AND "@ + placeholder_sql(
            index2 as nat,
        ),
{
    let mut r = name.clone();
    r.append(op);
    r.append("?");
    let idx1 = u64_to_string(index1 as u64);
    r.append(idx1.as_str());
    r.append(" AND ");
    r.append("?");
    let idx2 = u64_to_string(index2 as u64);
    r.append(idx2.as_str());
    proof {
        assert(r@ =~= name@ + op@ + placeholder_sql(index1 as nat) + " AND "@ + placeholder_sql(
            index2 as nat,
        ));
    }
    r
}

/// Composable WHERE-clause construction. The builder appends exactly
/// what it is told, in the order it is told: parenthesization and
/// keyword placement are the caller's responsibility.
pub trait WhereInstructions: CommonInstructions {
    /// Adds '('
    fn open_parentheses(&self) -> (r: Self)
        requires
            self.wf(),
        ensures
            r.wf(),
            r.sql() == self.sql() + " ("@,
    ;

    /// Adds ')'
    fn close_parentheses(&self) -> (r: Self)
        requires
            self.wf(),
        ensures
            r.wf(),
            r.sql() == self.sql() + " )"@,
    ;

    /// Only adds 'AND' keyword
    fn and_keyword(&self) -> (r: Self)
        requires
            self.wf(),
        ensures
            r.wf(),
            r.sql() == self.sql() + " AND"@,
    ;

    /// Only adds 'OR' keyword
    fn or_keyword(&self) -> (r: Self)
        requires
            self.wf(),
        ensures
            r.wf(),
            r.sql() == self.sql() + " OR"@,
    ;

    /// Adds condition
    fn where_condition(&self, w: Where) -> (r: Self)
        requires
            self.wf(),
        ensures
            r.wf(),
            r.sql() == self.sql() + " WHERE "@ + w.sql(),
    ;

    /// Adds condition as 'AND'
    fn and_where(&self, w: Where) -> (r: Self)
        requires
            self.wf(),
        ensures
            r.wf(),
            r.sql() == self.sql() + " AND "@ + w.sql(),
    ;

    /// Adds condition as 'OR'
    fn or_where(&self, w: Where) -> (r: Self)
        requires
            self.wf(),
        ensures
            r.wf(),
            r.sql() == self.sql() + " OR "@ + w.sql(),
    ;
}

/// Appends a plain keyword or bracket to a built statement.
fn append_text(base: &String, text: &str) -> (r: String)
    ensures
        r@ == base@ + text@,
{
    let mut r = base.clone();
    r.append(text);
    r
}

/// Appends a connective and a rendered condition to a built statement.
fn append_condition(base: &String, connective: &str, w: &Where) -> (r: String)
    ensures
        r@ == base@ + connective@ + w.sql(),
{
    let mut r = base.clone();
    r.append(connective);
    let cond = w.to_string();
    r.append(cond.as_str());
    r
}

impl CommonInstructions for Select {
    open spec fn wf(&self) -> bool {
        true
    }

    open spec fn sql(&self) -> Seq<char> {
        self.0@
    }

    fn to_string(&self) -> (r: String) {
        self.0.clone()
    }
}

impl CommonInstructions for Delete {
    open spec fn wf(&self) -> bool {
        true
    }

    open spec fn sql(&self) -> Seq<char> {
        self.0@
    }

    fn to_string(&self) -> (r: String) {
        self.0.clone()
    }
}

impl CommonInstructions for Insert {
    open spec fn wf(&self) -> bool {
        true
    }

    open spec fn sql(&self) -> Seq<char> {
        self.0@
    }

    fn to_string(&self) -> (r: String) {
        self.0.clone()
    }
}

impl WhereInstructions for Select {
    fn open_parentheses(&self) -> (r: Self) {
        Select(append_text(&self.0, " ("))
    }

    fn close_parentheses(&self) -> (r: Self) {
        Select(append_text(&self.0, " )"))
    }

    fn and_keyword(&self) -> (r: Self) {
        Select(append_text(&self.0, " AND"))
    }

    fn or_keyword(&self) -> (r: Self) {
        Select(append_text(&self.0, " OR"))
    }

    fn where_condition(&self, w: Where) -> (r: Self) {
        Select(append_condition(&self.0, " WHERE ", &w))
    }

    fn and_where(&self, w: Where) -> (r: Self) {
        Select(append_condition(&self.0, " AND ", &w))
    }

    fn or_where(&self, w: Where) -> (r: Self) {
        Select(append_condition(&self.0, " OR ", &w))
    }
}

impl WhereInstructions for Delete {
    fn open_parentheses(&self) -> (r: Self) {
        Delete(append_text(&self.0, " ("))
    }

    fn close_parentheses(&self) -> (r: Self) {
        Delete(append_text(&self.0, " )"))
    }

    fn and_keyword(&self) -> (r: Self) {
        Delete(append_text(&self.0, " AND"))
    }

    fn or_keyword(&self) -> (r: Self) {
        Delete(append_text(&self.0, " OR"))
    }

    fn where_condition(&self, w: Where) -> (r: Self) {
        Delete(append_condition(&self.0, " WHERE ", &w))
    }

    fn and_where(&self, w: Where) -> (r: Self) {
        Delete(append_condition(&self.0, " AND ", &w))
    }

    fn or_where(&self, w: Where) -> (r: Self) {
        Delete(append_condition(&self.0, " OR ", &w))
    }
}

impl WhereInstructions for Insert {
    fn open_parentheses(&self) -> (r: Self) {
        Insert(append_text(&self.0, " ("))
    }

    fn close_parentheses(&self) -> (r: Self) {
        Insert(append_text(&self.0, " )"))
    }

    fn and_keyword(&self) -> (r: Self) {
        Insert(append_text(&self.0, " AND"))
    }

    fn or_keyword(&self) -> (r: Self) {
        Insert(append_text(&self.0, " OR"))
    }

    fn where_condition(&self, w: Where) -> (r: Self) {
        Insert(append_condition(&self.0, " WHERE ", &w))
    }

    fn and_where(&self, w: Where) -> (r: Self) {
        Insert(append_condition(&self.0, " AND ", &w))
    }

    fn or_where(&self, w: Where) -> (r: Self) {
        Insert(append_condition(&self.0, " OR ", &w))
    }
}

impl Select {
    /// Builds the `SELECT` statement for the given column list (`None`
    /// or empty meaning `*`) and table.
    pub fn new(columns: Option<Vec<String>>, table: String) -> (r: Select)
        ensures
            r.sql() == Operation::Select(columns, table).sql(),
    {
        let op = Operation::Select(columns, table);
        Select(op.to_string())
    }

    /// Builds the `SELECT DISTINCT` statement for a non-empty column
    /// list and table.
    pub fn new_distinct(columns: Vec<String>, table: String) -> (r: Select)
        requires
            columns.len() > 0,
        ensures
            r.sql() == Operation::SelectDistinct(columns, table).sql(),
    {
        let op = Operation::SelectDistinct(columns, table);
        Select(op.to_string())
    }
}

impl Delete {
    /// Builds the `DELETE` statement for the given table.
    pub fn new(table: String) -> (r: Delete)
        ensures
            r.sql() == Operation::Delete(table).sql(),
    {
        let op = Operation::Delete(table);
        Delete(op.to_string())
    }
}

impl Insert {
    /// Builds the `INSERT` statement for the given table and bound
    /// columns (`None` or empty meaning `DEFAULT VALUES`).
    pub fn new(table: String, columns: Option<Vec<Column>>) -> (r: Insert)
        ensures
            r.sql() == Operation::Insert(table, columns).sql(),
    {
        let op = Operation::Insert(table, columns);
        Insert(op.to_string())
    }

    /// Builds the `INSERT ... SELECT` statement feeding `table` from an
    /// already-built `SELECT`.
    pub fn from_select(table: String, select: Select) -> (r: Insert)
        ensures
            r.sql() == Operation::InsertFromSelect(table, select).sql(),
    {
        let op = Operation::InsertFromSelect(table, select);
        Insert(op.to_string())
    }
}

} // verus!

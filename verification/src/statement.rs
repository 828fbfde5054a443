//! The raw statement path: hand-built select and insert statements,
//! validated against the schema declarations and rendered to SQL text.

use vstd::prelude::*;
use vstd::string::StrSliceExecFns;
use vstd::string::StringExecFns;

use crate::error::StoreError;
use crate::schema::{columns_spec, is_column_spec, table_name_spec, Table};

verus! {

/// The decimal digit for a value below ten.
pub open spec fn dec_digit(d: int) -> char {
    if d == 0 {
        '0'
    } else if d == 1 {
        '1'
    } else if d == 2 {
        '2'
    } else if d == 3 {
        '3'
    } else if d == 4 {
        '4'
    } else if d == 5 {
        '5'
    } else if d == 6 {
        '6'
    } else if d == 7 {
        '7'
    } else if d == 8 {
        '8'
    } else {
        '9'
    }
}

/// The decimal rendering of a nonnegative number, most significant digit
/// first, without leading zeroes (a lone zero for zero).
pub open spec fn dec_nat(n: int) -> Seq<char>
    recommends
        n >= 0,
    decreases n,
{
    if n < 10 {
        seq![dec_digit(n)]
    } else {
        dec_nat(n / 10).push(dec_digit(n % 10))
    }
}

/// The decimal rendering of an integer: a leading minus for a negative
/// value, then its magnitude.
pub open spec fn dec_int(n: int) -> Seq<char> {
    if n < 0 {
        seq!['-'] + dec_nat(-n)
    } else {
        dec_nat(n)
    }
}

/// One decimal digit as text.
fn digit_str(d: u64) -> (r: &'static str)
    requires
        d < 10,
    ensures
        r@ == seq![dec_digit(d as int)],
{
    let r: &'static str = match d {
        0 => "0",
        1 => "1",
        2 => "2",
        3 => "3",
        4 => "4",
        5 => "5",
        6 => "6",
        7 => "7",
        8 => "8",
        _ => "9",
    };
    proof {
        reveal_strlit("0");
        reveal_strlit("1");
        reveal_strlit("2");
        reveal_strlit("3");
        reveal_strlit("4");
        reveal_strlit("5");
        reveal_strlit("6");
        reveal_strlit("7");
        reveal_strlit("8");
        reveal_strlit("9");
        assert(r@ =~= seq![dec_digit(d as int)]);
    }
    r
}

/// Renders a nonnegative number in decimal.
fn u64_dec(n: u64) -> (r: String)
    ensures
        r@ == dec_nat(n as int),
{
    if n < 10 {
        return String::from_str(digit_str(n));
    }
    let mut m: u64 = n;
    let mut acc = String::new();
    while m >= 10
        invariant
            dec_nat(n as int) == dec_nat(m as int) + acc@,
        decreases m,
    {
        let d = m % 10;
        let ghost m0 = m as int;
        m = m / 10;
        proof {
            assert(m as int == m0 / 10 && d as int == m0 % 10);
            vstd::arithmetic::div_mod::lemma_div_is_strictly_smaller(m0, 10);
            assert(dec_nat(m0) == dec_nat(m as int).push(dec_digit(d as int)));
            assert(dec_nat(m as int).push(dec_digit(d as int)) =~= dec_nat(m as int) + seq![
                dec_digit(d as int),
            ]);
        }
        let mut piece = String::from_str(digit_str(d));
        piece.append(acc.as_str());
        proof {
            assert(dec_nat(n as int) =~= dec_nat(m as int) + piece@);
        }
        acc = piece;
    }
    let mut r = String::from_str(digit_str(m));
    r.append(acc.as_str());
    proof {
        assert(dec_nat(m as int) == seq![dec_digit(m as int)]);
        assert(r@ =~= dec_nat(n as int));
    }
    r
}

/// Renders an integer in decimal.
fn i64_dec(n: i64) -> (r: String)
    ensures
        r@ == dec_int(n as int),
{
    if n >= 0 {
        u64_dec(n as u64)
    } else {
        let mag: u64 = if n == i64::MIN {
            9223372036854775808
        } else {
            (-n) as u64
        };
        proof {
            assert(mag as int == -(n as int));
        }
        let mut r = String::from_str("-");
        let digits = u64_dec(mag);
        r.append(digits.as_str());
        proof {
            reveal_strlit("-");
            assert(r@ =~= dec_int(n as int));
        }
        r
    }
}

/// A text value with every single quote doubled, as SQL quoting wants it.
pub open spec fn escaped(s: Seq<char>) -> Seq<char>
    decreases s.len(),
{
    if s.len() == 0 {
        s
    } else {
        escaped(s.drop_last()) + (if s.last() == '\'' {
            seq!['\'', '\'']
        } else {
            seq![s.last()]
        })
    }
}

/// Appends the escaped form of `s` to `out`.
fn append_escaped(out: &mut String, s: &String)
    ensures
        final(out)@ == old(out)@ + escaped(s@),
{
    let n = s.as_str().unicode_len();
    let mut i: usize = 0;
    while i < n
        invariant
            n == s@.len(),
            i <= n,
            out@ == old(out)@ + escaped(s@.subrange(0, i as int)),
        decreases n - i,
    {
        let c = s.as_str().get_char(i);
        proof {
            assert(s@.subrange(0, i as int + 1).drop_last() =~= s@.subrange(0, i as int));
            assert(s@.subrange(0, i as int + 1).last() == s@[i as int]);
        }
        if c == '\'' {
            out.append("''");
            proof {
                reveal_strlit("''");
                assert(("''")@ =~= seq!['\'', '\'']);
                assert(out@ =~= old(out)@ + escaped(s@.subrange(0, i as int + 1)));
            }
        } else {
            let piece = s.as_str().substring_char(i, i + 1);
            out.append(piece);
            proof {
                assert(piece@ =~= seq![s@[i as int]]);
                assert(out@ =~= old(out)@ + escaped(s@.subrange(0, i as int + 1)));
            }
        }
        i += 1;
    }
    proof {
        assert(s@.subrange(0, n as int) =~= s@);
    }
}

/// Mathematical view of a column reference.
pub struct ColumnRefView {
    pub table: Table,
    pub column: Seq<char>,
}

/// A table-qualified column reference.
#[derive(Debug)]
pub struct ColumnRef {
    pub table: Table,
    pub column: String,
}

impl View for ColumnRef {
    type V = ColumnRefView;

    open spec fn view(&self) -> ColumnRefView {
        ColumnRefView { table: self.table, column: self.column@ }
    }
}

impl DeepView for ColumnRef {
    type V = ColumnRefView;

    open spec fn deep_view(&self) -> ColumnRefView {
        self.view()
    }
}

impl ColumnRef {
    /// A reference to `table`.`column`.
    pub fn new(table: Table, column: &str) -> (r: Self)
        ensures
            r@ == (ColumnRefView { table: table, column: column@ }),
    {
        ColumnRef { table: table, column: column.to_owned() }
    }
}

/// Mathematical view of a literal SQL value.
pub enum SqlValueView {
    IntVal(i64),
    TextVal(Seq<char>),
}

/// A literal value in a statement: an integer, or a text literal that the
/// renderer quotes and escapes. A numeric literal for a floating-point
/// column is the caller's to format; the verified renderer deals only in
/// integers and text.
#[derive(Debug)]
pub enum SqlValue {
    IntVal(i64),
    TextVal(String),
}

impl View for SqlValue {
    type V = SqlValueView;

    open spec fn view(&self) -> SqlValueView {
        match self {
            SqlValue::IntVal(n) => SqlValueView::IntVal(*n),
            SqlValue::TextVal(s) => SqlValueView::TextVal(s@),
        }
    }
}

impl DeepView for SqlValue {
    type V = SqlValueView;

    open spec fn deep_view(&self) -> SqlValueView {
        self.view()
    }
}

/// Ascending or descending ordering.
#[derive(Clone, Copy, Debug, PartialEq, Eq, Structural)]
pub enum SortOrder {
    Asc,
    Desc,
}

/// Mathematical view of a join clause.
pub struct JoinClauseView {
    pub table: Table,
    pub on_left: ColumnRefView,
    pub on_right: ColumnRefView,
}

/// An inner-join clause: `JOIN table ON on_left = on_right`.
#[derive(Debug)]
pub struct JoinClause {
    pub table: Table,
    pub on_left: ColumnRef,
    pub on_right: ColumnRef,
}

impl View for JoinClause {
    type V = JoinClauseView;

    open spec fn view(&self) -> JoinClauseView {
        JoinClauseView { table: self.table, on_left: self.on_left@, on_right: self.on_right@ }
    }
}

/// Mathematical view of a select statement.
pub struct SelectStatementView {
    pub columns: Seq<ColumnRefView>,
    pub from: Option<Table>,
    pub join: Option<JoinClauseView>,
    pub where_eq: Option<(ColumnRefView, SqlValueView)>,
    pub order_by: Option<(ColumnRefView, SortOrder)>,
}

/// A hand-built select statement: an arbitrary projection, a source
/// table, and optional join, equality filter and ordering clauses.
#[derive(Debug)]
pub struct SelectStatement {
    pub columns: Vec<ColumnRef>,
    pub from: Option<Table>,
    pub join: Option<JoinClause>,
    pub where_eq: Option<(ColumnRef, SqlValue)>,
    pub order_by: Option<(ColumnRef, SortOrder)>,
}

impl View for SelectStatement {
    type V = SelectStatementView;

    open spec fn view(&self) -> SelectStatementView {
        SelectStatementView {
            columns: self.columns.deep_view(),
            from: self.from,
            join: match self.join {
                Some(ref j) => Some(j@),
                None => None,
            },
            where_eq: match self.where_eq {
                Some((ref c, ref v)) => Some((c@, v@)),
                None => None,
            },
            order_by: match self.order_by {
                Some((ref c, o)) => Some((c@, o)),
                None => None,
            },
        }
    }
}

/// Whether a column reference names a declared column of its table.
pub open spec fn col_ok(c: ColumnRefView) -> bool {
    is_column_spec(c.table, c.column)
}

/// A well-formed select: a source table, a nonempty projection, and every
/// referenced column declared by its table.
pub open spec fn select_ok(s: SelectStatementView) -> bool {
    &&& s.from is Some
    &&& s.columns.len() > 0
    &&& forall|i: int| 0 <= i < s.columns.len() ==> col_ok(#[trigger] s.columns[i])
    &&& match s.join {
        Some(j) => col_ok(j.on_left) && col_ok(j.on_right),
        None => true,
    }
    &&& match s.where_eq {
        Some(cv) => col_ok(cv.0),
        None => true,
    }
    &&& match s.order_by {
        Some(co) => col_ok(co.0),
        None => true,
    }
}

/// A double-quoted identifier.
pub open spec fn render_ident(name: Seq<char>) -> Seq<char> {
    "\""@ + name + "\""@
}

/// A table-qualified column, both parts quoted.
pub open spec fn render_col(c: ColumnRefView) -> Seq<char> {
    render_ident(table_name_spec(c.table)) + "."@ + render_ident(c.column)
}

/// A comma-separated projection list.
pub open spec fn render_col_list(cols: Seq<ColumnRefView>) -> Seq<char>
    decreases cols.len(),
{
    if cols.len() == 0 {
        Seq::<char>::empty()
    } else if cols.len() == 1 {
        render_col(cols[0])
    } else {
        render_col_list(cols.drop_last()) + ", "@ + render_col(cols.last())
    }
}

/// A literal value: an integer in decimal, or quoted escaped text.
pub open spec fn render_value(v: SqlValueView) -> Seq<char> {
    match v {
        SqlValueView::IntVal(n) => dec_int(n as int),
        SqlValueView::TextVal(s) => "'"@ + escaped(s) + "'"@,
    }
}

/// The SQL text of a well-formed select statement.
pub open spec fn render_select(s: SelectStatementView) -> Seq<char>
    recommends
        s.from is Some,
{
    "SELECT "@ + render_col_list(s.columns) + " FROM "@ + render_ident(
        table_name_spec(s.from.unwrap()),
    ) + (match s.join {
        Some(j) => " JOIN "@ + render_ident(table_name_spec(j.table)) + " ON "@ + render_col(
            j.on_left,
        ) + " = "@ + render_col(j.on_right),
        None => Seq::<char>::empty(),
    }) + (match s.where_eq {
        Some(cv) => " WHERE "@ + render_col(cv.0) + " = "@ + render_value(cv.1),
        None => Seq::<char>::empty(),
    }) + (match s.order_by {
        Some(co) => " ORDER BY "@ + render_col(co.0) + (match co.1 {
            SortOrder::Asc => " ASC"@,
            SortOrder::Desc => " DESC"@,
        }),
        None => Seq::<char>::empty(),
    })
}

/// Appends a double-quoted identifier.
fn append_ident(out: &mut String, name: &str)
    ensures
        final(out)@ == old(out)@ + render_ident(name@),
{
    out.append("\"");
    out.append(name);
    out.append("\"");
    proof {
        assert(out@ =~= old(out)@ + render_ident(name@));
    }
}

/// Appends a table-qualified column.
fn append_col(out: &mut String, c: &ColumnRef)
    ensures
        final(out)@ == old(out)@ + render_col(c@),
{
    append_ident(out, c.table.name());
    out.append(".");
    append_ident(out, c.column.as_str());
    proof {
        assert(out@ =~= old(out)@ + render_col(c@));
    }
}

/// Appends a literal value.
fn append_value(out: &mut String, v: &SqlValue)
    ensures
        final(out)@ == old(out)@ + render_value(v@),
{
    match v {
        SqlValue::IntVal(n) => {
            let d = i64_dec(*n);
            out.append(d.as_str());
        },
        SqlValue::TextVal(s) => {
            out.append("'");
            append_escaped(out, s);
            out.append("'");
            proof {
                assert(out@ =~= old(out)@ + render_value(v@));
            }
        },
    }
}

/// Appends a comma-separated projection list.
fn append_col_list(out: &mut String, cols: &Vec<ColumnRef>)
    ensures
        final(out)@ == old(out)@ + render_col_list(cols.deep_view()),
{
    proof {
        assert(cols.deep_view().subrange(0, 0) =~= Seq::<ColumnRefView>::empty());
        assert(old(out)@ + render_col_list(cols.deep_view().subrange(0, 0)) =~= old(out)@);
    }
    let n = cols.len();
    let mut i: usize = 0;
    while i < n
        invariant
            n == cols@.len(),
            i <= n,
            out@ == old(out)@ + render_col_list(cols.deep_view().subrange(0, i as int)),
        decreases n - i,
    {
        if i > 0 {
            out.append(", ");
        }
        append_col(out, &cols[i]);
        proof {
            let cv = cols.deep_view();
            assert(cv.subrange(0, i as int + 1).drop_last() =~= cv.subrange(0, i as int));
            assert(cv.subrange(0, i as int + 1).last() == cv[i as int]);
            assert(cv[i as int] == cols@[i as int].deep_view());
            assert(out@ =~= old(out)@ + render_col_list(cv.subrange(0, i as int + 1)));
        }
        i += 1;
    }
    proof {
        assert(cols.deep_view().subrange(0, n as int) =~= cols.deep_view());
    }
}

impl SelectStatement {
    /// Renders the statement as SQL text. Fails with `QueryBuild` exactly
    /// when the statement is malformed: no source table, an empty
    /// projection, or a referenced column its table does not declare.
    pub fn to_sql(&self) -> (r: Result<String, StoreError>)
        ensures
            select_ok(self@) ==> (r matches Ok(s) && s@ == render_select(self@)),
            !select_ok(self@) ==> r == Err::<String, StoreError>(StoreError::QueryBuild),
    {
        let from = match &self.from {
            Some(t) => *t,
            None => {
                return Err(StoreError::QueryBuild);
            },
        };
        if self.columns.len() == 0 {
            return Err(StoreError::QueryBuild);
        }
        let n = self.columns.len();
        let mut i: usize = 0;
        while i < n
            invariant
                n == self.columns@.len(),
                i <= n,
                forall|k: int| 0 <= k < i ==> col_ok(#[trigger] self@.columns[k]),
            decreases n - i,
        {
            let c = &self.columns[i];
            proof {
                assert(self@.columns[i as int] == self.columns@[i as int].deep_view());
            }
            if !c.table.has_column(&c.column) {
                proof {
                    assert(!col_ok(self@.columns[i as int]));
                }
                return Err(StoreError::QueryBuild);
            }
            i += 1;
        }
        match &self.join {
            Some(j) => {
                if !j.on_left.table.has_column(&j.on_left.column) {
                    return Err(StoreError::QueryBuild);
                }
                if !j.on_right.table.has_column(&j.on_right.column) {
                    return Err(StoreError::QueryBuild);
                }
            },
            None => {},
        }
        match &self.where_eq {
            Some((c, _v)) => {
                if !c.table.has_column(&c.column) {
                    return Err(StoreError::QueryBuild);
                }
            },
            None => {},
        }
        match &self.order_by {
            Some((c, _o)) => {
                if !c.table.has_column(&c.column) {
                    return Err(StoreError::QueryBuild);
                }
            },
            None => {},
        }
        proof {
            assert(select_ok(self@));
        }
        let mut out = String::from_str("SELECT ");
        append_col_list(&mut out, &self.columns);
        out.append(" FROM ");
        append_ident(&mut out, from.name());
        let ghost prefix = "SELECT "@ + render_col_list(self@.columns) + " FROM "@ + render_ident(
            table_name_spec(from),
        );
        proof {
            assert(out@ == prefix);
        }
        let ghost jpart = (match self@.join {
            Some(j) => " JOIN "@ + render_ident(table_name_spec(j.table)) + " ON "@ + render_col(
                j.on_left,
            ) + " = "@ + render_col(j.on_right),
            None => Seq::<char>::empty(),
        });
        match &self.join {
            Some(j) => {
                let mut seg = String::from_str(" JOIN ");
                append_ident(&mut seg, j.table.name());
                seg.append(" ON ");
                append_col(&mut seg, &j.on_left);
                seg.append(" = ");
                append_col(&mut seg, &j.on_right);
                out.append(seg.as_str());
                proof {
                    assert(out@ == prefix + jpart);
                }
            },
            None => {
                proof {
                    assert(prefix + jpart =~= prefix);
                    assert(out@ == prefix + jpart);
                }
            },
        }
        let ghost cur1 = prefix + jpart;
        let ghost wpart = (match self@.where_eq {
            Some(cv) => " WHERE "@ + render_col(cv.0) + " = "@ + render_value(cv.1),
            None => Seq::<char>::empty(),
        });
        match &self.where_eq {
            Some((c, v)) => {
                let mut seg = String::from_str(" WHERE ");
                append_col(&mut seg, c);
                seg.append(" = ");
                append_value(&mut seg, v);
                out.append(seg.as_str());
                proof {
                    assert(out@ == cur1 + wpart);
                }
            },
            None => {
                proof {
                    assert(cur1 + wpart =~= cur1);
                    assert(out@ == cur1 + wpart);
                }
            },
        }
        let ghost cur2 = cur1 + wpart;
        let ghost opart = (match self@.order_by {
            Some(co) => " ORDER BY "@ + render_col(co.0) + (match co.1 {
                SortOrder::Asc => " ASC"@,
                SortOrder::Desc => " DESC"@,
            }),
            None => Seq::<char>::empty(),
        });
        match &self.order_by {
            Some((c, o)) => {
                let mut seg = String::from_str(" ORDER BY ");
                append_col(&mut seg, c);
                match o {
                    SortOrder::Asc => seg.append(" ASC"),
                    SortOrder::Desc => seg.append(" DESC"),
                }
                out.append(seg.as_str());
                proof {
                    assert(out@ == cur2 + opart);
                }
            },
            None => {
                proof {
                    assert(cur2 + opart =~= cur2);
                    assert(out@ == cur2 + opart);
                }
            },
        }
        proof {
            assert(out@ == render_select(self@));
        }
        Ok(out)
    }
}

/// Mathematical view of an insert statement.
pub struct InsertStatementView {
    pub table: Table,
    pub columns: Seq<Seq<char>>,
    pub values: Seq<SqlValueView>,
}

/// A hand-built insert statement: a target table, a column list, and one
/// literal value per column.
#[derive(Debug)]
pub struct InsertStatement {
    pub table: Table,
    pub columns: Vec<String>,
    pub values: Vec<SqlValue>,
}

impl View for InsertStatement {
    type V = InsertStatementView;

    open spec fn view(&self) -> InsertStatementView {
        InsertStatementView {
            table: self.table,
            columns: self.columns.deep_view(),
            values: self.values.deep_view(),
        }
    }
}

/// A well-formed insert: a nonempty column list, one value per column,
/// and every column declared by the target table.
pub open spec fn insert_ok(s: InsertStatementView) -> bool {
    &&& s.columns.len() > 0
    &&& s.columns.len() == s.values.len()
    &&& forall|i: int| 0 <= i < s.columns.len() ==> is_column_spec(s.table, #[trigger] s.columns[i])
}

/// A comma-separated list of quoted identifiers.
pub open spec fn render_ident_list(names: Seq<Seq<char>>) -> Seq<char>
    decreases names.len(),
{
    if names.len() == 0 {
        Seq::<char>::empty()
    } else if names.len() == 1 {
        render_ident(names[0])
    } else {
        render_ident_list(names.drop_last()) + ", "@ + render_ident(names.last())
    }
}

/// A comma-separated list of literal values.
pub open spec fn render_value_list(vals: Seq<SqlValueView>) -> Seq<char>
    decreases vals.len(),
{
    if vals.len() == 0 {
        Seq::<char>::empty()
    } else if vals.len() == 1 {
        render_value(vals[0])
    } else {
        render_value_list(vals.drop_last()) + ", "@ + render_value(vals.last())
    }
}

/// The SQL text of a well-formed insert statement.
pub open spec fn render_insert(s: InsertStatementView) -> Seq<char> {
    "INSERT INTO "@ + render_ident(table_name_spec(s.table)) + " ("@ + render_ident_list(s.columns)
        + ") VALUES ("@ + render_value_list(s.values) + ")"@
}

/// Appends a comma-separated list of quoted identifiers.
fn append_ident_list(out: &mut String, names: &Vec<String>)
    ensures
        final(out)@ == old(out)@ + render_ident_list(names.deep_view()),
{
    proof {
        assert(names.deep_view().subrange(0, 0) =~= Seq::<Seq<char>>::empty());
        assert(old(out)@ + render_ident_list(names.deep_view().subrange(0, 0)) =~= old(out)@);
    }
    let n = names.len();
    let mut i: usize = 0;
    while i < n
        invariant
            n == names@.len(),
            i <= n,
            out@ == old(out)@ + render_ident_list(names.deep_view().subrange(0, i as int)),
        decreases n - i,
    {
        if i > 0 {
            out.append(", ");
        }
        append_ident(out, names[i].as_str());
        proof {
            let nv = names.deep_view();
            assert(nv.subrange(0, i as int + 1).drop_last() =~= nv.subrange(0, i as int));
            assert(nv.subrange(0, i as int + 1).last() == nv[i as int]);
            assert(nv[i as int] == names@[i as int]@);
            assert(out@ =~= old(out)@ + render_ident_list(nv.subrange(0, i as int + 1)));
        }
        i += 1;
    }
    proof {
        assert(names.deep_view().subrange(0, n as int) =~= names.deep_view());
    }
}

/// Appends a comma-separated list of literal values.
fn append_value_list(out: &mut String, vals: &Vec<SqlValue>)
    ensures
        final(out)@ == old(out)@ + render_value_list(vals.deep_view()),
{
    proof {
        assert(vals.deep_view().subrange(0, 0) =~= Seq::<SqlValueView>::empty());
        assert(old(out)@ + render_value_list(vals.deep_view().subrange(0, 0)) =~= old(out)@);
    }
    let n = vals.len();
    let mut i: usize = 0;
    while i < n
        invariant
            n == vals@.len(),
            i <= n,
            out@ == old(out)@ + render_value_list(vals.deep_view().subrange(0, i as int)),
        decreases n - i,
    {
        if i > 0 {
            out.append(", ");
        }
        append_value(out, &vals[i]);
        proof {
            let vv = vals.deep_view();
            assert(vv.subrange(0, i as int + 1).drop_last() =~= vv.subrange(0, i as int));
            assert(vv.subrange(0, i as int + 1).last() == vv[i as int]);
            assert(vv[i as int] == vals@[i as int].deep_view());
            assert(out@ =~= old(out)@ + render_value_list(vv.subrange(0, i as int + 1)));
        }
        i += 1;
    }
    proof {
        assert(vals.deep_view().subrange(0, n as int) =~= vals.deep_view());
    }
}

impl InsertStatement {
    /// Renders the statement as SQL text. Fails with `QueryBuild` exactly
    /// when the statement is malformed: an empty column list, a value
    /// count that differs from the column count, or a column the target
    /// table does not declare.
    pub fn to_sql(&self) -> (r: Result<String, StoreError>)
        ensures
            insert_ok(self@) ==> (r matches Ok(s) && s@ == render_insert(self@)),
            !insert_ok(self@) ==> r == Err::<String, StoreError>(StoreError::QueryBuild),
    {
        if self.columns.len() == 0 || self.columns.len() != self.values.len() {
            return Err(StoreError::QueryBuild);
        }
        let n = self.columns.len();
        let mut i: usize = 0;
        while i < n
            invariant
                n == self.columns@.len(),
                i <= n,
                forall|k: int| 0 <= k < i ==> is_column_spec(self@.table, #[trigger] self@.columns[k]),
            decreases n - i,
        {
            proof {
                assert(self@.columns[i as int] == self.columns@[i as int]@);
            }
            if !self.table.has_column(&self.columns[i]) {
                proof {
                    assert(!is_column_spec(self@.table, self@.columns[i as int]));
                }
                return Err(StoreError::QueryBuild);
            }
            i += 1;
        }
        proof {
            assert(insert_ok(self@));
        }
        let mut out = String::from_str("INSERT INTO ");
        append_ident(&mut out, self.table.name());
        out.append(" (");
        append_ident_list(&mut out, &self.columns);
        out.append(") VALUES (");
        append_value_list(&mut out, &self.values);
        out.append(")");
        proof {
            assert(out@ == render_insert(self@));
        }
        Ok(out)
    }
}

} // verus!

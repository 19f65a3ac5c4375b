//! The SQLite connection, reached through `rusqlite`.
//!
//! What a statement reads depends on what the database file holds, so the
//! items that run statements promise nothing of their results; the library
//! reads the rows they hand back with the checked decoders below.
use vstd::prelude::*;
use crate::text::{dec, push_dec, push_str, string_of};

verus! {

/// `rusqlite::Connection`, an open database; opaque here.
#[verifier::external_type_specification]
#[verifier::external_body]
pub struct ExConnection(rusqlite::Connection);

/// `rusqlite::Error`; opaque here, carried inside [`DbError::Sql`].
#[verifier::external_type_specification]
#[verifier::external_body]
pub struct ExSqlError(rusqlite::Error);

/// `rusqlite::types::Value`, one parameter or column value; opaque here.
#[verifier::external_type_specification]
#[verifier::external_body]
pub struct ExSqlValue(rusqlite::types::Value);

/// `rusqlite::Transaction`, an open transaction; opaque here.
#[verifier::external_type_specification]
#[verifier::external_body]
pub struct ExTransaction<'conn>(rusqlite::Transaction<'conn>);

/// A database failure.
#[derive(Debug)]
pub enum DbError {
    /// SQLite (or `rusqlite`) reported an error.
    Sql(rusqlite::Error),
    /// A single-row query found no row.
    NoRows,
    /// A column held a value of another type than the one read (or the row
    /// had no such column).
    Column(usize),
    /// A row the call had just written could not be read back.
    Missing,
    /// Rows read back did not form a pre-ordered tree.
    Shape,
    /// A figure read back lies outside the range a real calendar gives.
    Range,
}

/// The message of a `rusqlite` error.
///
/// Trusted: renders the error with its `Display` (`to_string`); nothing is
/// claimed of the text.
#[verifier::external_body]
pub(crate) fn sql_error_text(e: &rusqlite::Error) -> (r: String) {
    e.to_string()
}

impl DbError {
    /// A one-line description of the failure.
    pub fn message(&self) -> (r: String)
        ensures
            match self {
                DbError::Sql(_) => true,
                DbError::NoRows => r@ == "Query returned no rows"@,
                DbError::Column(i) => r@ == "column "@ + dec(*i as nat) + " holds a value of an unexpected type"@,
                DbError::Missing => r@ == "a row just written could not be read back"@,
                DbError::Shape => r@ == "rows read back do not form a tree"@,
                DbError::Range => r@ == "a value read back is out of range"@,
            },
    {
        match self {
            DbError::Sql(e) => sql_error_text(e),
            DbError::NoRows => "Query returned no rows".to_owned(),
            DbError::Column(i) => {
                let mut out: Vec<char> = Vec::new();
                push_str(&mut out, "column ");
                push_dec(&mut out, *i as u64);
                push_str(&mut out, " holds a value of an unexpected type");
                string_of(out.as_slice())
            },
            DbError::Missing => "a row just written could not be read back".to_owned(),
            DbError::Shape => "rows read back do not form a tree".to_owned(),
            DbError::Range => "a value read back is out of range".to_owned(),
        }
    }
}

/// A parameter bound to a statement.
#[derive(Debug, Clone, PartialEq)]
pub enum SqlArg {
    Null,
    Int(i64),
    Text(String),
}

/// A [`SqlArg`] as a mathematical value.
pub enum ArgView {
    Null,
    Int(i64),
    Text(Seq<char>),
}

impl View for SqlArg {
    type V = ArgView;

    open spec fn view(&self) -> ArgView {
        match self {
            SqlArg::Null => ArgView::Null,
            SqlArg::Int(i) => ArgView::Int(*i),
            SqlArg::Text(t) => ArgView::Text(t@),
        }
    }
}

/// One statement as handed to SQLite: its text and its positional
/// parameters (`?1`, `?2`, ... in order).
#[derive(Debug, Clone, PartialEq)]
pub struct Stmt {
    pub sql: String,
    pub args: Vec<SqlArg>,
}

/// A [`Stmt`] as mathematical values.
pub struct StmtView {
    pub sql: Seq<char>,
    pub args: Seq<ArgView>,
}

impl View for Stmt {
    type V = StmtView;

    open spec fn view(&self) -> StmtView {
        StmtView { sql: self.sql@, args: self.args@.map_values(|a: SqlArg| a@) }
    }
}

/// The views of a list of statements, in order.
pub open spec fn stmts_view(v: Seq<Stmt>) -> Seq<StmtView> {
    v.map_values(|s: Stmt| s@)
}

/// The statement with text `sql` and parameters `args`.
pub open spec fn stmt_of(sql: Seq<char>, args: Seq<ArgView>) -> StmtView {
    StmtView { sql, args }
}

/// The parameter view of optional text: the text, or NULL.
pub open spec fn opt_text_view(o: Option<Seq<char>>) -> ArgView {
    match o {
        Some(t) => ArgView::Text(t),
        None => ArgView::Null,
    }
}

/// The parameter view of an optional integer: the integer, or NULL.
pub open spec fn opt_int_view(o: Option<i64>) -> ArgView {
    match o {
        Some(i) => ArgView::Int(i),
        None => ArgView::Null,
    }
}

/// Build a statement from its text and parameters.
pub fn stmt(sql: &str, args: Vec<SqlArg>) -> (r: Stmt)
    ensures
        r.sql@ == sql@,
        r.args@ == args@,
{
    Stmt { sql: sql.to_owned(), args }
}

/// A value read from a result column. A REAL is reported without its value:
/// the statements here never read one back.
pub enum SqlValue {
    Null,
    Integer(i64),
    Real,
    Text(String),
    Blob(Vec<u8>),
}

/// One result row.
pub type Row = Vec<SqlValue>;

/// Opens an empty in-memory database.
///
/// Trusted: calls `rusqlite::Connection::open_in_memory`; nothing is claimed
/// of the outcome.
#[verifier::external_body]
pub(crate) fn connect_in_memory() -> (r: Result<rusqlite::Connection, rusqlite::Error>) {
    rusqlite::Connection::open_in_memory()
}

/// The `rusqlite` value for a parameter.
///
/// Trusted: builds the `rusqlite::types::Value` variant of the same kind,
/// holding the same integer or a copy of the text.
#[verifier::external_body]
fn arg_value(a: &SqlArg) -> (v: rusqlite::types::Value) {
    match a {
        SqlArg::Null => rusqlite::types::Value::Null,
        SqlArg::Int(i) => rusqlite::types::Value::Integer(*i),
        SqlArg::Text(t) => rusqlite::types::Value::Text(t.clone()),
    }
}

/// The library's value for a `rusqlite` value.
///
/// Trusted: picks the variant of the same kind and moves its integer, text
/// or bytes over; a REAL's number is not carried.
#[verifier::external_body]
fn value_of(v: rusqlite::types::Value) -> (r: SqlValue) {
    match v {
        rusqlite::types::Value::Null => SqlValue::Null,
        rusqlite::types::Value::Integer(i) => SqlValue::Integer(i),
        rusqlite::types::Value::Real(_) => SqlValue::Real,
        rusqlite::types::Value::Text(t) => SqlValue::Text(t),
        rusqlite::types::Value::Blob(b) => SqlValue::Blob(b),
    }
}

/// Runs one statement with positional parameters and returns how many rows
/// it changed.
///
/// Trusted: calls `rusqlite::Connection::execute` with the values as
/// parameters; the outcome depends on the database, so nothing is claimed.
#[verifier::external_body]
fn execute_values(conn: &rusqlite::Connection, sql: &str, args: Vec<rusqlite::types::Value>) -> (r: Result<usize, rusqlite::Error>) {
    conn.execute(sql, rusqlite::params_from_iter(args))
}

/// Runs one query with positional parameters and returns every row, each
/// with one value per result column.
///
/// Trusted: calls `rusqlite::Connection::prepare`, `Statement::query` and
/// `Rows::next`, reading each column with `Row::get`; the rows depend on the
/// database, so nothing is claimed of them.
#[verifier::external_body]
fn query_values(conn: &rusqlite::Connection, sql: &str, args: Vec<rusqlite::types::Value>) -> (r: Result<Vec<Vec<rusqlite::types::Value>>, rusqlite::Error>) {
    let mut stmt = conn.prepare(sql)?;
    let n = stmt.column_count();
    let mut rows = stmt.query(rusqlite::params_from_iter(args))?;
    let mut out: Vec<Vec<rusqlite::types::Value>> = Vec::new();
    while let Some(row) = rows.next()? {
        let mut cols: Vec<rusqlite::types::Value> = Vec::new();
        for i in 0..n {
            cols.push(row.get(i)?);
        }
        out.push(cols);
    }
    Ok(out)
}

/// Runs a batch of statements separated by semicolons.
///
/// Trusted: calls `rusqlite::Connection::execute_batch`; nothing is claimed
/// of the outcome.
#[verifier::external_body]
pub(crate) fn execute_batch(conn: &rusqlite::Connection, sql: &str) -> (r: Result<(), rusqlite::Error>) {
    conn.execute_batch(sql)
}

/// Starts a transaction on a shared connection.
///
/// Trusted: calls `rusqlite::Connection::unchecked_transaction`; dropping
/// the transaction without committing rolls it back.
#[verifier::external_body]
pub(crate) fn begin<'conn>(conn: &'conn rusqlite::Connection) -> (r: Result<rusqlite::Transaction<'conn>, rusqlite::Error>) {
    conn.unchecked_transaction()
}

/// The connection a transaction runs on.
///
/// Trusted: `rusqlite::Transaction` dereferences to its connection.
#[verifier::external_body]
pub(crate) fn tx_conn<'a, 'conn>(tx: &'a rusqlite::Transaction<'conn>) -> (c: &'a rusqlite::Connection) {
    tx
}

/// Commits a transaction.
///
/// Trusted: calls `rusqlite::Transaction::commit`; nothing is claimed of the
/// outcome.
#[verifier::external_body]
pub(crate) fn commit(tx: rusqlite::Transaction<'_>) -> (r: Result<(), rusqlite::Error>) {
    tx.commit()
}

/// Runs one statement and returns how many rows it changed.
pub fn execute(conn: &rusqlite::Connection, sql: &str, args: Vec<SqlArg>) -> (r: Result<usize, DbError>) {
    let mut vals: Vec<rusqlite::types::Value> = Vec::new();
    let mut args = args;
    while args.len() > 0
        decreases args.len(),
    {
        let a = args.remove(0);
        vals.push(arg_value(&a));
    }
    match execute_values(conn, sql, vals) {
        Ok(n) => Ok(n),
        Err(e) => Err(DbError::Sql(e)),
    }
}

/// Runs `stmt` and returns how many rows it changed.
pub fn run(conn: &rusqlite::Connection, stmt: &Stmt) -> (r: Result<usize, DbError>) {
    let mut vals: Vec<rusqlite::types::Value> = Vec::new();
    let mut k: usize = 0;
    while k < stmt.args.len()
        invariant
            k <= stmt.args.len(),
        decreases stmt.args.len() - k,
    {
        vals.push(arg_value(&stmt.args[k]));
        k += 1;
    }
    match execute_values(conn, stmt.sql.as_str(), vals) {
        Ok(n) => Ok(n),
        Err(e) => Err(DbError::Sql(e)),
    }
}

/// A copy of a parameter.
pub fn copy_arg(a: &SqlArg) -> (b: SqlArg)
    ensures
        b@ == a@,
{
    match a {
        SqlArg::Null => SqlArg::Null,
        SqlArg::Int(i) => SqlArg::Int(*i),
        SqlArg::Text(t) => SqlArg::Text(t.clone()),
    }
}

/// Runs the query `stmt` and returns its rows.
pub fn fetch(conn: &rusqlite::Connection, stmt: &Stmt) -> (r: Result<Vec<Row>, DbError>) {
    let mut args: Vec<SqlArg> = Vec::new();
    let mut k: usize = 0;
    while k < stmt.args.len()
        invariant
            k <= stmt.args.len(),
        decreases stmt.args.len() - k,
    {
        args.push(copy_arg(&stmt.args[k]));
        k += 1;
    }
    query(conn, stmt.sql.as_str(), args)
}

/// Runs one query and returns its rows.
pub fn query(conn: &rusqlite::Connection, sql: &str, args: Vec<SqlArg>) -> (r: Result<Vec<Row>, DbError>) {
    let mut vals: Vec<rusqlite::types::Value> = Vec::new();
    let mut args = args;
    while args.len() > 0
        decreases args.len(),
    {
        let a = args.remove(0);
        vals.push(arg_value(&a));
    }
    let raw = match query_values(conn, sql, vals) {
        Ok(r) => r,
        Err(e) => return Err(DbError::Sql(e)),
    };
    let mut raw = raw;
    let mut out: Vec<Row> = Vec::new();
    while raw.len() > 0
        decreases raw.len(),
    {
        let mut cols = raw.remove(0);
        let mut row: Row = Vec::new();
        while cols.len() > 0
            decreases cols.len(),
        {
            let v = cols.remove(0);
            row.push(value_of(v));
        }
        out.push(row);
    }
    Ok(out)
}

/// Runs a query expected to give one row; `NoRows` when it gives none.
pub fn query_one(conn: &rusqlite::Connection, sql: &str, args: Vec<SqlArg>) -> (r: Result<Row, DbError>) {
    let mut rows = query(conn, sql, args)?;
    if rows.len() == 0 {
        return Err(DbError::NoRows);
    }
    Ok(rows.swap_remove(0))
}

/// Runs a query expected to give at most one row.
pub fn query_opt(conn: &rusqlite::Connection, sql: &str, args: Vec<SqlArg>) -> (r: Result<Option<Row>, DbError>) {
    let mut rows = query(conn, sql, args)?;
    if rows.len() == 0 {
        return Ok(None);
    }
    Ok(Some(rows.swap_remove(0)))
}

// --- Reading columns --------------------------------------------------------------

/// Column `i` holds text.
pub open spec fn text_at(row: Seq<SqlValue>, i: int) -> Option<Seq<char>> {
    if 0 <= i < row.len() {
        match row[i] {
            SqlValue::Text(s) => Some(s@),
            _ => None,
        }
    } else {
        None
    }
}

/// Column `i` holds an integer.
pub open spec fn int_at(row: Seq<SqlValue>, i: int) -> Option<i64> {
    if 0 <= i < row.len() {
        match row[i] {
            SqlValue::Integer(x) => Some(x),
            _ => None,
        }
    } else {
        None
    }
}

/// Column `i` is NULL.
pub open spec fn null_at(row: Seq<SqlValue>, i: int) -> bool {
    0 <= i < row.len() && row[i] is Null
}

/// Column `i` holds text or NULL.
pub open spec fn opt_text_ok(row: Seq<SqlValue>, i: int) -> bool {
    null_at(row, i) || text_at(row, i) is Some
}

/// Column `i` holds an integer or NULL.
pub open spec fn opt_int_ok(row: Seq<SqlValue>, i: int) -> bool {
    null_at(row, i) || int_at(row, i) is Some
}

/// Text in column `i`, as `String` reads it.
pub fn col_text(row: &Row, i: usize) -> (r: Result<String, DbError>)
    ensures
        match r {
            Ok(s) => text_at(row@, i as int) == Some(s@),
            Err(_) => text_at(row@, i as int) is None,
        },
{
    if i < row.len() {
        match &row[i] {
            SqlValue::Text(s) => return Ok(s.clone()),
            _ => {},
        }
    }
    Err(DbError::Column(i))
}

/// Text or NULL in column `i`, as `Option<String>` reads it.
pub fn col_opt_text(row: &Row, i: usize) -> (r: Result<Option<String>, DbError>)
    ensures
        match r {
            Ok(Some(s)) => text_at(row@, i as int) == Some(s@),
            Ok(None) => null_at(row@, i as int),
            Err(_) => !opt_text_ok(row@, i as int),
        },
{
    if i < row.len() {
        match &row[i] {
            SqlValue::Text(s) => return Ok(Some(s.clone())),
            SqlValue::Null => return Ok(None),
            _ => {},
        }
    }
    Err(DbError::Column(i))
}

/// An integer in column `i`, as `i64` reads it.
pub fn col_int(row: &Row, i: usize) -> (r: Result<i64, DbError>)
    ensures
        match r {
            Ok(x) => int_at(row@, i as int) == Some(x),
            Err(_) => int_at(row@, i as int) is None,
        },
{
    if i < row.len() {
        match &row[i] {
            SqlValue::Integer(x) => return Ok(*x),
            _ => {},
        }
    }
    Err(DbError::Column(i))
}

/// An integer or NULL in column `i`, as `Option<i64>` reads it.
pub fn col_opt_int(row: &Row, i: usize) -> (r: Result<Option<i64>, DbError>)
    ensures
        match r {
            Ok(Some(x)) => int_at(row@, i as int) == Some(x),
            Ok(None) => null_at(row@, i as int),
            Err(_) => !opt_int_ok(row@, i as int),
        },
{
    if i < row.len() {
        match &row[i] {
            SqlValue::Integer(x) => return Ok(Some(*x)),
            SqlValue::Null => return Ok(None),
            _ => {},
        }
    }
    Err(DbError::Column(i))
}

/// A text parameter.
pub fn text_arg(s: &str) -> (a: SqlArg)
    ensures
        a matches SqlArg::Text(t) && t@ == s@,
{
    SqlArg::Text(s.to_owned())
}

/// A text-or-NULL parameter.
pub fn opt_text_arg(s: Option<&str>) -> (a: SqlArg)
    ensures
        match s {
            Some(x) => a matches SqlArg::Text(t) && t@ == x@,
            None => a is Null,
        },
{
    match s {
        Some(x) => SqlArg::Text(x.to_owned()),
        None => SqlArg::Null,
    }
}

/// An integer-or-NULL parameter.
pub fn opt_int_arg(x: Option<i64>) -> (a: SqlArg)
    ensures
        match x {
            Some(v) => a == SqlArg::Int(v),
            None => a is Null,
        },
{
    match x {
        Some(v) => SqlArg::Int(v),
        None => SqlArg::Null,
    }
}

/// `PRAGMA user_version = <v>`.
pub fn user_version_sql(v: u64) -> (s: String)
    ensures
        s@ == "PRAGMA user_version = "@ + dec(v as nat),
{
    let mut out: Vec<char> = Vec::new();
    push_str(&mut out, "PRAGMA user_version = ");
    push_dec(&mut out, v);
    string_of(out.as_slice())
}

} // verus!

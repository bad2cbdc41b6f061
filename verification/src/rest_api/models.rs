//! The values the REST interface exchanges, and their form text: keys and
//! values separated by commas.
use vstd::prelude::*;
use crate::db::storage::text::{decimal_text, push_decimal};
use crate::external::std_text::string_push_str;
use crate::rest_api::form::{
    lemma_first_value_ok, form_value_ok,
    form_pairs_of, first_value, first_with_key, flag_of, form_pairs, form_tokens, int32_of, keys_allowed, keys_within,
    parse_flag, parse_int32, split_commas, split_on_comma, status_names, text_is, values_of_key_ok, values_ok, FormValue,
};
use crate::schemas::query::string_seq_view;

verus! {

/// The parts joined with commas between them.
pub open spec fn join_commas(parts: Seq<Seq<char>>) -> Seq<char>
    decreases parts.len(),
{
    if parts.len() == 0 {
        Seq::empty()
    } else if parts.len() == 1 {
        parts[0]
    } else {
        join_commas(parts.drop_last()) + ","@ + parts.last()
    }
}

/// Joins the parts with commas between them.
pub fn join_parts(parts: &Vec<String>) -> (r: String)
    ensures
        r@ == join_commas(string_seq_view(parts@)),
{
    let ghost sv = string_seq_view(parts@);
    let mut out = String::new();
    let mut i: usize = 0;
    while i < parts.len()
        invariant
            sv == string_seq_view(parts@),
            i <= parts@.len(),
            out@ == join_commas(sv.take(i as int)),
        decreases parts@.len() - i,
    {
        if i > 0 {
            string_push_str(&mut out, ",");
        }
        string_push_str(&mut out, parts[i].as_str());
        proof {
            assert(sv.take(i + 1).drop_last() =~= sv.take(i as int));
            if i == 0 {
                assert(sv.take(0) =~= Seq::<Seq<char>>::empty());
            }
        }
        i = i + 1;
    }
    assert(sv.take(parts@.len() as int) =~= sv);
    out
}

/// `bool::to_string`.
pub open spec fn flag_text(b: bool) -> Seq<char> {
    if b {
        "true"@
    } else {
        "false"@
    }
}

/// `i32::to_string`: decimal, with a minus sign below zero.
pub open spec fn int32_text(x: i32) -> Seq<char> {
    if x < 0 {
        "-"@ + decimal_text((-x) as nat)
    } else {
        decimal_text(x as nat)
    }
}

fn flag_string(b: bool) -> (r: String)
    ensures
        r@ == flag_text(b),
{
    if b {
        "true".to_owned()
    } else {
        "false".to_owned()
    }
}

pub(crate) fn int32_string(x: i32) -> (r: String)
    ensures
        r@ == int32_text(x),
{
    let mut out = String::new();
    if x < 0 {
        string_push_str(&mut out, "-");
        let m: i64 = -(x as i64);
        push_decimal(&mut out, m as usize);
    } else {
        push_decimal(&mut out, x as usize);
    }
    out
}

/// `key,value`.
pub open spec fn entry(key: Seq<char>, value: Seq<char>) -> Seq<char> {
    key + ","@ + value
}

fn entry_string(key: &str, value: &str) -> (r: String)
    ensures
        r@ == entry(key@, value@),
{
    let mut out = key.to_owned();
    string_push_str(&mut out, ",");
    string_push_str(&mut out, value);
    out
}

/// The type of the values of a column.
#[derive(Clone, Copy, Debug, PartialEq, Eq, Structural)]
pub enum LogicalColumnType {
    Int64,
    Varchar,
}

/// `INT64` or `VARCHAR`.
pub open spec fn column_type_text(t: LogicalColumnType) -> Seq<char> {
    match t {
        LogicalColumnType::Int64 => "INT64"@,
        LogicalColumnType::Varchar => "VARCHAR"@,
    }
}

impl LogicalColumnType {
    /// Its name: `INT64` or `VARCHAR`.
    pub fn to_string(&self) -> (r: String)
        ensures
            r@ == column_type_text(*self),
    {
        match self {
            LogicalColumnType::Int64 => "INT64".to_owned(),
            LogicalColumnType::Varchar => "VARCHAR".to_owned(),
        }
    }

    /// The type named `s`; any other text is an error.
    pub fn from_str(s: &str) -> (r: Result<LogicalColumnType, String>)
        ensures
            r is Ok <==> (s@ == "INT64"@ || s@ == "VARCHAR"@),
            r matches Ok(t) ==> column_type_text(t) == s@,
    {
        let v = s.to_owned();
        if v == "INT64".to_owned() {
            Ok(LogicalColumnType::Int64)
        } else if v == "VARCHAR".to_owned() {
            Ok(LogicalColumnType::Varchar)
        } else {
            Err("Value not valid".to_owned())
        }
    }
}

/// The state of a query.
#[derive(Clone, Copy, Debug, PartialEq, Eq, Structural)]
pub enum QueryStatus {
    Created,
    Planning,
    Running,
    Completed,
    Failed,
}

/// The name of a status.
pub open spec fn status_text(s: QueryStatus) -> Seq<char> {
    match s {
        QueryStatus::Created => "CREATED"@,
        QueryStatus::Planning => "PLANNING"@,
        QueryStatus::Running => "RUNNING"@,
        QueryStatus::Completed => "COMPLETED"@,
        QueryStatus::Failed => "FAILED"@,
    }
}

impl QueryStatus {
    /// Its name, in capitals.
    pub fn to_string(&self) -> (r: String)
        ensures
            r@ == status_text(*self),
    {
        match self {
            QueryStatus::Created => "CREATED".to_owned(),
            QueryStatus::Planning => "PLANNING".to_owned(),
            QueryStatus::Running => "RUNNING".to_owned(),
            QueryStatus::Completed => "COMPLETED".to_owned(),
            QueryStatus::Failed => "FAILED".to_owned(),
        }
    }

    /// The status named `s`; any other text is an error.
    pub fn from_str(s: &str) -> (r: Result<QueryStatus, String>)
        ensures
            r is Ok <==> status_names().contains(s@),
            r matches Ok(t) ==> status_text(t) == s@,
    {
        let v = s.to_owned();
        let r = if v == "CREATED".to_owned() {
            Ok(QueryStatus::Created)
        } else if v == "PLANNING".to_owned() {
            Ok(QueryStatus::Planning)
        } else if v == "RUNNING".to_owned() {
            Ok(QueryStatus::Running)
        } else if v == "COMPLETED".to_owned() {
            Ok(QueryStatus::Completed)
        } else if v == "FAILED".to_owned() {
            Ok(QueryStatus::Failed)
        } else {
            Err("Value not valid".to_owned())
        };
        proof {
            let sn = status_names();
            if r is Ok {
                assert(sn.contains(s@)) by {
                    if s@ == "CREATED"@ { assert(sn[0] == s@); }
                    if s@ == "PLANNING"@ { assert(sn[1] == s@); }
                    if s@ == "RUNNING"@ { assert(sn[2] == s@); }
                    if s@ == "COMPLETED"@ { assert(sn[3] == s@); }
                    if s@ == "FAILED"@ { assert(sn[4] == s@); }
                }
            } else {
                assert forall|i: int| 0 <= i < sn.len() implies sn[i] != s@ by {}
            }
        }
        r
    }
}

/// Description of one column of a table.
#[derive(Clone, Debug)]
pub struct Column {
    pub name: String,
    pub col_type: LogicalColumnType,
}

impl Column {
    pub fn new(name: String, col_type: LogicalColumnType) -> (r: Column)
        ensures
            r.name@ == name@,
            r.col_type == col_type,
    {
        Column { name, col_type }
    }

    /// Form text: `name,<name>` (the type is left out).
    pub fn to_string(&self) -> (r: String)
        ensures
            r@ == join_commas(seq!["name"@, self.name@]),
    {
        let mut parts: Vec<String> = Vec::new();
        parts.push("name".to_owned());
        parts.push(self.name.clone());
        proof {
            assert(string_seq_view(parts@) =~= seq!["name"@, self.name@]);
        }
        join_parts(&parts)
    }

    /// A column from form text with the keys `name` and `type` (the first
    /// of each counts); another key, a type that is not a column type, a
    /// missing key or value is an error.
    #[verifier::spinoff_prover]
    pub fn from_str(s: &str) -> (r: Result<Column, String>)
        ensures
            form_pairs(s@) is None ==> r is Err,
            form_pairs(s@) matches Some(p) ==> {
                &&& r is Ok <==> keys_within(p, seq!["name"@, "type"@]) && values_ok(p, "type"@, FormValue::ColumnType)
                    && first_with_key(p, "name"@) is Some && first_with_key(p, "type"@) is Some
                &&& r matches Ok(c) ==> c.name@ == first_with_key(p, "name"@)->0 && column_type_text(c.col_type)
                    == first_with_key(p, "type"@)->0
            },
    {
        let toks = match form_tokens(s) {
            Some(t) => t,
            None => {
                return Err("Missing value while parsing Column".to_owned());
            },
        };
        let ghost p = form_pairs_of(string_seq_view(toks@));
        assert(form_pairs(s@) == Some(p));
        let allowed = vec!["name", "type"];
        proof {
            assert(allowed@.map_values(|a: &str| a@) =~= seq!["name"@, "type"@]);
        }
        if !keys_allowed(&toks, &allowed) {
            return Err("Unexpected key while parsing Column".to_owned());
        }
        if !values_of_key_ok(&toks, "type", FormValue::ColumnType) {
            return Err("Value not valid".to_owned());
        }
        let name = match first_value(&toks, "name") {
            Some(v) => v,
            None => {
                return Err("name missing in Column".to_owned());
            },
        };
        let ty = match first_value(&toks, "type") {
            Some(v) => v,
            None => {
                return Err("type missing in Column".to_owned());
            },
        };
        proof {
            lemma_first_value_ok(p, "type"@, FormValue::ColumnType);
        }
        match LogicalColumnType::from_str(ty.as_str()) {
            Ok(t) => Ok(Column { name, col_type: t }),
            Err(e) => Err(e),
        }
    }
}


/// `key,value` as one part where there is a value, else no part.
pub open spec fn opt_entry(key: Seq<char>, v: Option<Seq<char>>) -> Seq<Seq<char>> {
    match v {
        Some(x) => seq![entry(key, x)],
        None => Seq::empty(),
    }
}

/// The text of an optional text.
pub open spec fn opt_text(v: Option<String>) -> Option<Seq<char>> {
    match v {
        Some(x) => Some(x@),
        None => None,
    }
}

fn push_opt_entry(parts: &mut Vec<String>, key: &str, v: Option<String>)
    ensures
        string_seq_view(final(parts)@) == string_seq_view(old(parts)@) + opt_entry(key@, opt_text(v)),
{
    match v {
        Some(x) => {
            let e = entry_string(key, x.as_str());
            let ghost before = string_seq_view(parts@);
            parts.push(e);
            proof {
                assert(string_seq_view(parts@) =~= before + opt_entry(key@, opt_text(v)));
            }
        },
        None => {
            assert(string_seq_view(parts@) =~= string_seq_view(parts@) + opt_entry(key@, opt_text(v)));
        },
    }
}

fn push_text(parts: &mut Vec<String>, t: String)
    ensures
        string_seq_view(final(parts)@) == string_seq_view(old(parts)@).push(t@),
{
    let ghost before = string_seq_view(parts@);
    parts.push(t);
    assert(string_seq_view(parts@) =~= before.push(t@));
}

/// A flag, where the text is one.
pub open spec fn opt_flag(v: Option<Seq<char>>) -> Option<bool> {
    match v {
        Some(x) => flag_of(x),
        None => None,
    }
}

/// A 32-bit integer, where the text is one.
pub open spec fn opt_int32(v: Option<Seq<char>>) -> Option<i32> {
    match v {
        Some(x) => int32_of(x),
        None => None,
    }
}

fn opt_flag_string(v: Option<bool>) -> (r: Option<String>)
    ensures
        opt_text(r) == (match v { Some(b) => Some(flag_text(b)), None => None::<Seq<char>> }),
{
    match v {
        Some(b) => Some(flag_string(b)),
        None => None,
    }
}

fn opt_int32_string(v: Option<i32>) -> (r: Option<String>)
    ensures
        opt_text(r) == (match v { Some(x) => Some(int32_text(x)), None => None::<Seq<char>> }),
{
    match v {
        Some(x) => Some(int32_string(x)),
        None => None,
    }
}

fn parse_opt_flag(v: Option<String>) -> (r: Option<bool>)
    ensures
        r == opt_flag(opt_text(v)),
{
    match v {
        Some(x) => parse_flag(x.as_str()),
        None => None,
    }
}

fn parse_opt_int32(v: Option<String>) -> (r: Option<i32>)
    ensures
        r == opt_int32(opt_text(v)),
{
    match v {
        Some(x) => parse_int32(x.as_str()),
        None => None,
    }
}

/// Texts joined with commas, where there are texts.
pub open spec fn opt_joined(v: Option<Vec<String>>) -> Option<Seq<char>> {
    match v {
        Some(x) => Some(join_commas(string_seq_view(x@))),
        None => None,
    }
}

/// Description of a COPY query from a CSV file into a table.
#[derive(Clone, Debug)]
pub struct CopyQuery {
    pub source_filepath: String,
    pub destination_table_name: String,
    pub destination_columns: Option<Vec<String>>,
    pub does_csv_contain_header: Option<bool>,
}

impl CopyQuery {
    /// A query with no column list, from a file without a header line.
    pub fn new(source_filepath: String, destination_table_name: String) -> (r: CopyQuery)
        ensures
            r.source_filepath@ == source_filepath@,
            r.destination_table_name@ == destination_table_name@,
            r.destination_columns is None,
            r.does_csv_contain_header == Some(false),
    {
        CopyQuery { source_filepath, destination_table_name, destination_columns: None, does_csv_contain_header: Some(false) }
    }

    /// Form text: the file, the table, the columns (if any, joined with
    /// commas) and the header flag (if any).
    pub fn to_string(&self) -> (r: String)
        ensures
            r@ == join_commas(
                seq!["sourceFilepath"@, self.source_filepath@, "destinationTableName"@, self.destination_table_name@]
                    + opt_entry("destinationColumns"@, opt_joined(self.destination_columns))
                    + opt_entry("doesCsvContainHeader"@, match self.does_csv_contain_header {
                    Some(b) => Some(flag_text(b)),
                    None => None,
                }),
            ),
    {
        let mut parts: Vec<String> = Vec::new();
        push_text(&mut parts, "sourceFilepath".to_owned());
        push_text(&mut parts, self.source_filepath.clone());
        push_text(&mut parts, "destinationTableName".to_owned());
        push_text(&mut parts, self.destination_table_name.clone());
        let cols = match &self.destination_columns {
            Some(c) => Some(join_parts(c)),
            None => None,
        };
        push_opt_entry(&mut parts, "destinationColumns", cols);
        push_opt_entry(&mut parts, "doesCsvContainHeader", opt_flag_string(self.does_csv_contain_header));
        proof {
            assert(string_seq_view(parts@) =~= seq![
                "sourceFilepath"@,
                self.source_filepath@,
                "destinationTableName"@,
                self.destination_table_name@,
            ] + opt_entry("destinationColumns"@, opt_joined(self.destination_columns)) + opt_entry(
                "doesCsvContainHeader"@,
                match self.does_csv_contain_header {
                    Some(b) => Some(flag_text(b)),
                    None => None,
                },
            ));
        }
        join_parts(&parts)
    }

    /// A query from form text with the keys `sourceFilepath`,
    /// `destinationTableName` and `doesCsvContainHeader` (the first of each
    /// counts); a column list, another key, a flag that is not `true` or
    /// `false`, a missing file or table or a missing value is an error.
    pub fn from_str(s: &str) -> (r: Result<CopyQuery, String>)
        ensures
            form_pairs(s@) is None ==> r is Err,
            form_pairs(s@) matches Some(p) ==> {
                &&& r is Ok <==> keys_within(p, seq!["sourceFilepath"@, "destinationTableName"@, "doesCsvContainHeader"@])
                    && values_ok(p, "doesCsvContainHeader"@, FormValue::Flag) && first_with_key(p, "sourceFilepath"@) is Some
                    && first_with_key(p, "destinationTableName"@) is Some
                &&& r matches Ok(q) ==> q.source_filepath@ == first_with_key(p, "sourceFilepath"@)->0
                    && q.destination_table_name@ == first_with_key(p, "destinationTableName"@)->0
                    && q.destination_columns is None
                    && q.does_csv_contain_header == opt_flag(first_with_key(p, "doesCsvContainHeader"@))
            },
    {
        let toks = match form_tokens(s) {
            Some(t) => t,
            None => {
                return Err("Missing value while parsing CopyQuery".to_owned());
            },
        };
        let ghost p = form_pairs_of(string_seq_view(toks@));
        let allowed = vec!["sourceFilepath", "destinationTableName", "doesCsvContainHeader"];
        proof {
            assert(allowed@.map_values(|a: &str| a@) =~= seq!["sourceFilepath"@, "destinationTableName"@, "doesCsvContainHeader"@]);
        }
        if !keys_allowed(&toks, &allowed) {
            return Err("Unexpected key while parsing CopyQuery".to_owned());
        }
        if !values_of_key_ok(&toks, "doesCsvContainHeader", FormValue::Flag) {
            return Err("Value not valid".to_owned());
        }
        let src = match first_value(&toks, "sourceFilepath") {
            Some(v) => v,
            None => {
                return Err("sourceFilepath missing in CopyQuery".to_owned());
            },
        };
        let dst = match first_value(&toks, "destinationTableName") {
            Some(v) => v,
            None => {
                return Err("destinationTableName missing in CopyQuery".to_owned());
            },
        };
        let header = parse_opt_flag(first_value(&toks, "doesCsvContainHeader"));
        Ok(CopyQuery { source_filepath: src, destination_table_name: dst, destination_columns: None, does_csv_contain_header: header })
    }
}

/// A generic error, with a message.
#[derive(Clone, Debug)]
pub struct Error {
    pub message: String,
}

impl Error {
    pub fn new(message: String) -> (r: Error)
        ensures
            r.message@ == message@,
    {
        Error { message }
    }

    /// Form text: `message,<message>`.
    pub fn to_string(&self) -> (r: String)
        ensures
            r@ == join_commas(seq!["message"@, self.message@]),
    {
        let mut parts: Vec<String> = Vec::new();
        push_text(&mut parts, "message".to_owned());
        push_text(&mut parts, self.message.clone());
        assert(string_seq_view(parts@) =~= seq!["message"@, self.message@]);
        join_parts(&parts)
    }

    /// An error from form text with the key `message` (the first counts);
    /// another key or a missing message or value is an error.
    pub fn from_str(s: &str) -> (r: Result<Error, String>)
        ensures
            form_pairs(s@) is None ==> r is Err,
            form_pairs(s@) matches Some(p) ==> {
                &&& r is Ok <==> keys_within(p, seq!["message"@]) && first_with_key(p, "message"@) is Some
                &&& r matches Ok(e) ==> e.message@ == first_with_key(p, "message"@)->0
            },
    {
        let toks = match form_tokens(s) {
            Some(t) => t,
            None => {
                return Err("Missing value while parsing Error".to_owned());
            },
        };
        let allowed = vec!["message"];
        proof {
            assert(allowed@.map_values(|a: &str| a@) =~= seq!["message"@]);
        }
        if !keys_allowed(&toks, &allowed) {
            return Err("Unexpected key while parsing Error".to_owned());
        }
        match first_value(&toks, "message") {
            Some(v) => Ok(Error { message: v }),
            None => Err("message missing in Error".to_owned()),
        }
    }
}

/// A SELECT query: all rows of a table.
#[derive(Clone, Debug)]
pub struct SelectQuery {
    pub table_name: Option<String>,
}

impl SelectQuery {
    /// A query naming no table.
    pub fn new() -> (r: SelectQuery)
        ensures
            r.table_name is None,
    {
        SelectQuery { table_name: None }
    }

    /// Form text: `tableName,<name>` where there is a name.
    pub fn to_string(&self) -> (r: String)
        ensures
            r@ == join_commas(opt_entry("tableName"@, opt_text(self.table_name))),
    {
        let mut parts: Vec<String> = Vec::new();
        push_opt_entry(&mut parts, "tableName", self.table_name.clone());
        assert(string_seq_view(parts@) =~= opt_entry("tableName"@, opt_text(self.table_name)));
        join_parts(&parts)
    }

    /// A query from form text with the key `tableName` (the first counts);
    /// another key or a missing value is an error.
    pub fn from_str(s: &str) -> (r: Result<SelectQuery, String>)
        ensures
            form_pairs(s@) is None ==> r is Err,
            form_pairs(s@) matches Some(p) ==> {
                &&& r is Ok <==> keys_within(p, seq!["tableName"@])
                &&& r matches Ok(q) ==> opt_text(q.table_name) == first_with_key(p, "tableName"@)
            },
    {
        let toks = match form_tokens(s) {
            Some(t) => t,
            None => {
                return Err("Missing value while parsing SelectQuery".to_owned());
            },
        };
        let allowed = vec!["tableName"];
        proof {
            assert(allowed@.map_values(|a: &str| a@) =~= seq!["tableName"@]);
        }
        if !keys_allowed(&toks, &allowed) {
            return Err("Unexpected key while parsing SelectQuery".to_owned());
        }
        Ok(SelectQuery { table_name: first_value(&toks, "tableName") })
    }
}

/// The rows asked of a query result.
#[derive(Clone, Debug)]
pub struct GetQueryResultRequest {
    pub row_limit: Option<i32>,
}

impl GetQueryResultRequest {
    /// A request with no row limit.
    pub fn new() -> (r: GetQueryResultRequest)
        ensures
            r.row_limit is None,
    {
        GetQueryResultRequest { row_limit: None }
    }

    /// Form text: `rowLimit,<limit>` where there is a limit.
    pub fn to_string(&self) -> (r: String)
        ensures
            r@ == join_commas(opt_entry("rowLimit"@, match self.row_limit {
                Some(x) => Some(int32_text(x)),
                None => None,
            })),
    {
        let mut parts: Vec<String> = Vec::new();
        push_opt_entry(&mut parts, "rowLimit", opt_int32_string(self.row_limit));
        assert(string_seq_view(parts@) =~= opt_entry("rowLimit"@, match self.row_limit {
            Some(x) => Some(int32_text(x)),
            None => None,
        }));
        join_parts(&parts)
    }

    /// A request from form text with the key `rowLimit` (the first counts);
    /// another key, a limit that is not a 32-bit integer or a missing value
    /// is an error.
    pub fn from_str(s: &str) -> (r: Result<GetQueryResultRequest, String>)
        ensures
            form_pairs(s@) is None ==> r is Err,
            form_pairs(s@) matches Some(p) ==> {
                &&& r is Ok <==> keys_within(p, seq!["rowLimit"@]) && values_ok(p, "rowLimit"@, FormValue::Int32)
                &&& r matches Ok(q) ==> q.row_limit == opt_int32(first_with_key(p, "rowLimit"@))
            },
    {
        let toks = match form_tokens(s) {
            Some(t) => t,
            None => {
                return Err("Missing value while parsing GetQueryResultRequest".to_owned());
            },
        };
        let allowed = vec!["rowLimit"];
        proof {
            assert(allowed@.map_values(|a: &str| a@) =~= seq!["rowLimit"@]);
        }
        if !keys_allowed(&toks, &allowed) {
            return Err("Unexpected key while parsing GetQueryResultRequest".to_owned());
        }
        if !values_of_key_ok(&toks, "rowLimit", FormValue::Int32) {
            return Err("invalid digit found in string".to_owned());
        }
        Ok(GetQueryResultRequest { row_limit: parse_opt_int32(first_value(&toks, "rowLimit")) })
    }
}

/// One problem met while handling a request.
#[derive(Clone, Debug)]
pub struct MultipleProblemsErrorProblemsInner {
    pub error: String,
    pub context: Option<String>,
}

impl MultipleProblemsErrorProblemsInner {
    /// A problem with no context.
    pub fn new(error: String) -> (r: MultipleProblemsErrorProblemsInner)
        ensures
            r.error@ == error@,
            r.context is None,
    {
        MultipleProblemsErrorProblemsInner { error, context: None }
    }

    /// Form text: `error,<error>`, then `context,<context>` where there is
    /// one.
    pub fn to_string(&self) -> (r: String)
        ensures
            r@ == join_commas(seq!["error"@, self.error@] + opt_entry("context"@, opt_text(self.context))),
    {
        let mut parts: Vec<String> = Vec::new();
        push_text(&mut parts, "error".to_owned());
        push_text(&mut parts, self.error.clone());
        push_opt_entry(&mut parts, "context", self.context.clone());
        assert(string_seq_view(parts@) =~= seq!["error"@, self.error@] + opt_entry("context"@, opt_text(self.context)));
        join_parts(&parts)
    }

    /// A problem from form text with the keys `error` and `context` (the
    /// first of each counts); another key or a missing error or value is
    /// an error.
    pub fn from_str(s: &str) -> (r: Result<MultipleProblemsErrorProblemsInner, String>)
        ensures
            form_pairs(s@) is None ==> r is Err,
            form_pairs(s@) matches Some(p) ==> {
                &&& r is Ok <==> keys_within(p, seq!["error"@, "context"@]) && first_with_key(p, "error"@) is Some
                &&& r matches Ok(q) ==> q.error@ == first_with_key(p, "error"@)->0 && opt_text(q.context)
                    == first_with_key(p, "context"@)
            },
    {
        let toks = match form_tokens(s) {
            Some(t) => t,
            None => {
                return Err("Missing value while parsing MultipleProblemsErrorProblemsInner".to_owned());
            },
        };
        let allowed = vec!["error", "context"];
        proof {
            assert(allowed@.map_values(|a: &str| a@) =~= seq!["error"@, "context"@]);
        }
        if !keys_allowed(&toks, &allowed) {
            return Err("Unexpected key while parsing MultipleProblemsErrorProblemsInner".to_owned());
        }
        let error = match first_value(&toks, "error") {
            Some(v) => v,
            None => {
                return Err("error missing in MultipleProblemsErrorProblemsInner".to_owned());
            },
        };
        Ok(MultipleProblemsErrorProblemsInner { error, context: first_value(&toks, "context") })
    }
}

/// The problems met while handling a request.
#[derive(Clone, Debug)]
pub struct MultipleProblemsError {
    pub problems: Vec<MultipleProblemsErrorProblemsInner>,
}

impl MultipleProblemsError {
    pub fn new(problems: Vec<MultipleProblemsErrorProblemsInner>) -> (r: MultipleProblemsError)
        ensures
            r.problems@ == problems@,
    {
        MultipleProblemsError { problems }
    }

    /// Form text: empty (the list has no form text).
    pub fn to_string(&self) -> (r: String)
        ensures
            r@ == Seq::<char>::empty(),
    {
        String::new()
    }

    /// Form text cannot hold a list: always an error, which says what the
    /// first key met (see [`problems_parse_error`]).
    pub fn from_str(s: &str) -> (r: Result<MultipleProblemsError, String>)
        ensures
            r matches Err(m) && m@ == problems_parse_error(split_on_comma(s@)),
    {
        let toks = split_commas(s);
        if toks.len() < 2 {
            Err("Missing value while parsing MultipleProblemsError".to_owned())
        } else if text_is(&toks[0], "problems") {
            Err("Parsing a container in this style is not supported in MultipleProblemsError".to_owned())
        } else {
            Err("Unexpected key while parsing MultipleProblemsError".to_owned())
        }
    }
}

/// The error of reading a list of problems from the pieces of form text:
/// a key without value, the list's key (a list has no form text), or
/// another key.
pub open spec fn problems_parse_error(toks: Seq<Seq<char>>) -> Seq<char> {
    if toks.len() < 2 {
        "Missing value while parsing MultipleProblemsError"@
    } else if toks[0] == "problems"@ {
        "Parsing a container in this style is not supported in MultipleProblemsError"@
    } else {
        "Unexpected key while parsing MultipleProblemsError"@
    }
}

/// A query: a SELECT or a COPY.
#[derive(Clone, Debug)]
pub enum QueryQueryDefiniton {
    Select(SelectQuery),
    Copy(CopyQuery),
}

impl QueryQueryDefiniton {
    /// Form text: empty (a choice of queries has no form text).
    pub fn to_string(&self) -> (r: String)
        ensures
            r@ == Seq::<char>::empty(),
    {
        String::new()
    }

    /// Form text cannot hold a choice of queries: always the same error.
    pub fn from_str(s: &str) -> (r: Result<QueryQueryDefiniton, String>)
        ensures
            r matches Err(m) && m@ == "Parsing QueryQueryDefiniton is not supported"@,
    {
        Err("Parsing QueryQueryDefiniton is not supported".to_owned())
    }
}

/// A request to run a query.
#[derive(Clone, Debug)]
pub struct ExecuteQueryRequest {
    pub query_definition: QueryQueryDefiniton,
}

impl ExecuteQueryRequest {
    pub fn new(query_definition: QueryQueryDefiniton) -> (r: ExecuteQueryRequest)
        ensures
            r.query_definition == query_definition,
    {
        ExecuteQueryRequest { query_definition }
    }

    /// Form text: empty (the query has no form text).
    pub fn to_string(&self) -> (r: String)
        ensures
            r@ == Seq::<char>::empty(),
    {
        String::new()
    }

    /// The query cannot be read from form text: always an error, which says
    /// what the first key met (see [`request_parse_error`]).
    pub fn from_str(s: &str) -> (r: Result<ExecuteQueryRequest, String>)
        ensures
            r matches Err(m) && m@ == request_parse_error(split_on_comma(s@)),
    {
        let toks = split_commas(s);
        if toks.len() < 2 {
            Err("Missing value while parsing ExecuteQueryRequest".to_owned())
        } else if text_is(&toks[0], "queryDefinition") {
            match QueryQueryDefiniton::from_str(toks[1].as_str()) {
                Ok(q) => Ok(ExecuteQueryRequest { query_definition: q }),
                Err(e) => Err(e),
            }
        } else {
            Err("Unexpected key while parsing ExecuteQueryRequest".to_owned())
        }
    }
}

/// The error of reading a request to run a query from the pieces of form
/// text: a key without value, the query's key (whose value cannot be read,
/// see [`QueryQueryDefiniton::from_str`]), or another key.
pub open spec fn request_parse_error(toks: Seq<Seq<char>>) -> Seq<char> {
    if toks.len() < 2 {
        "Missing value while parsing ExecuteQueryRequest"@
    } else if toks[0] == "queryDefinition"@ {
        "Parsing QueryQueryDefiniton is not supported"@
    } else {
        "Unexpected key while parsing ExecuteQueryRequest"@
    }
}

/// The values of one column of a result.
#[derive(Clone, Debug)]
pub enum ResultColumn {
    Int64(Vec<i64>),
    Varchar(Vec<String>),
}

/// One result of a query: its number of rows and its columns.
#[derive(Clone, Debug)]
pub struct QueryResultInner {
    pub row_count: Option<i32>,
    pub columns: Option<Vec<ResultColumn>>,
}

impl QueryResultInner {
    /// A result with neither count nor columns.
    pub fn new() -> (r: QueryResultInner)
        ensures
            r.row_count is None,
            r.columns is None,
    {
        QueryResultInner { row_count: None, columns: None }
    }

    /// Form text: `rowCount,<count>` where there is a count (the columns
    /// are left out).
    pub fn to_string(&self) -> (r: String)
        ensures
            r@ == join_commas(opt_entry("rowCount"@, match self.row_count {
                Some(x) => Some(int32_text(x)),
                None => None,
            })),
    {
        let mut parts: Vec<String> = Vec::new();
        push_opt_entry(&mut parts, "rowCount", opt_int32_string(self.row_count));
        assert(string_seq_view(parts@) =~= opt_entry("rowCount"@, match self.row_count {
            Some(x) => Some(int32_text(x)),
            None => None,
        }));
        join_parts(&parts)
    }

    /// A result from form text with the key `rowCount` (the first counts);
    /// columns, another key, a count that is not a 32-bit integer or a
    /// missing value is an error.
    pub fn from_str(s: &str) -> (r: Result<QueryResultInner, String>)
        ensures
            form_pairs(s@) is None ==> r is Err,
            form_pairs(s@) matches Some(p) ==> {
                &&& r is Ok <==> keys_within(p, seq!["rowCount"@]) && values_ok(p, "rowCount"@, FormValue::Int32)
                &&& r matches Ok(q) ==> q.row_count == opt_int32(first_with_key(p, "rowCount"@)) && q.columns is None
            },
    {
        let toks = match form_tokens(s) {
            Some(t) => t,
            None => {
                return Err("Missing value while parsing QueryResultInner".to_owned());
            },
        };
        let allowed = vec!["rowCount"];
        proof {
            assert(allowed@.map_values(|a: &str| a@) =~= seq!["rowCount"@]);
        }
        if !keys_allowed(&toks, &allowed) {
            return Err("Unexpected key while parsing QueryResultInner".to_owned());
        }
        if !values_of_key_ok(&toks, "rowCount", FormValue::Int32) {
            return Err("invalid digit found in string".to_owned());
        }
        Ok(QueryResultInner { row_count: parse_opt_int32(first_value(&toks, "rowCount")), columns: None })
    }
}

/// Basic information about the system.
#[derive(Clone, Debug)]
pub struct SystemInformation {
    pub interface_version: Option<String>,
    pub version: String,
    pub author: Option<String>,
}

impl SystemInformation {
    /// Information with a version only.
    pub fn new(version: String) -> (r: SystemInformation)
        ensures
            r.interface_version is None,
            r.version@ == version@,
            r.author is None,
    {
        SystemInformation { interface_version: None, version, author: None }
    }

    /// Form text: the interface version (if any), the version, the author
    /// (if any).
    pub fn to_string(&self) -> (r: String)
        ensures
            r@ == join_commas(
                opt_entry("interfaceVersion"@, opt_text(self.interface_version)) + seq!["version"@, self.version@]
                    + opt_entry("author"@, opt_text(self.author)),
            ),
    {
        let mut parts: Vec<String> = Vec::new();
        push_opt_entry(&mut parts, "interfaceVersion", self.interface_version.clone());
        push_text(&mut parts, "version".to_owned());
        push_text(&mut parts, self.version.clone());
        push_opt_entry(&mut parts, "author", self.author.clone());
        assert(string_seq_view(parts@) =~= opt_entry("interfaceVersion"@, opt_text(self.interface_version)) + seq![
            "version"@,
            self.version@,
        ] + opt_entry("author"@, opt_text(self.author)));
        join_parts(&parts)
    }

    /// Information from form text with the keys `interfaceVersion`,
    /// `version` and `author` (the first of each counts); another key or a
    /// missing version or value is an error.
    pub fn from_str(s: &str) -> (r: Result<SystemInformation, String>)
        ensures
            form_pairs(s@) is None ==> r is Err,
            form_pairs(s@) matches Some(p) ==> {
                &&& r is Ok <==> keys_within(p, seq!["interfaceVersion"@, "version"@, "author"@]) && first_with_key(
                    p,
                    "version"@,
                ) is Some
                &&& r matches Ok(q) ==> opt_text(q.interface_version) == first_with_key(p, "interfaceVersion"@)
                    && q.version@ == first_with_key(p, "version"@)->0 && opt_text(q.author) == first_with_key(
                    p,
                    "author"@,
                )
            },
    {
        let toks = match form_tokens(s) {
            Some(t) => t,
            None => {
                return Err("Missing value while parsing SystemInformation".to_owned());
            },
        };
        let allowed = vec!["interfaceVersion", "version", "author"];
        proof {
            assert(allowed@.map_values(|a: &str| a@) =~= seq!["interfaceVersion"@, "version"@, "author"@]);
        }
        if !keys_allowed(&toks, &allowed) {
            return Err("Unexpected key while parsing SystemInformation".to_owned());
        }
        let version = match first_value(&toks, "version") {
            Some(v) => v,
            None => {
                return Err("version missing in SystemInformation".to_owned());
            },
        };
        Ok(SystemInformation {
            interface_version: first_value(&toks, "interfaceVersion"),
            version,
            author: first_value(&toks, "author"),
        })
    }
}

/// A table: its name and columns.
#[derive(Clone, Debug)]
pub struct TableSchema {
    pub name: String,
    pub columns: Vec<Column>,
}

impl TableSchema {
    pub fn new(name: String, columns: Vec<Column>) -> (r: TableSchema)
        ensures
            r.name@ == name@,
            r.columns@ == columns@,
    {
        TableSchema { name, columns }
    }

    /// Form text: `name,<name>` (the columns are left out).
    pub fn to_string(&self) -> (r: String)
        ensures
            r@ == join_commas(seq!["name"@, self.name@]),
    {
        let mut parts: Vec<String> = Vec::new();
        push_text(&mut parts, "name".to_owned());
        push_text(&mut parts, self.name.clone());
        assert(string_seq_view(parts@) =~= seq!["name"@, self.name@]);
        join_parts(&parts)
    }

    /// The columns, which are required, cannot be read from form text:
    /// always an error, found by reading the pairs in order (see
    /// [`schema_parse_error`]).
    pub fn from_str(s: &str) -> (r: Result<TableSchema, String>)
        ensures
            r matches Err(m) && m@ == schema_parse_error(split_on_comma(s@), 0, false),
    {
        let toks = split_commas(s);
        let mut i: usize = 0;
        let mut seen_name = false;
        while i < toks.len()
            invariant
                i <= toks@.len() + 1,
                i % 2 == 0,
                string_seq_view(toks@) == split_on_comma(s@),
                schema_parse_error(string_seq_view(toks@), i as int, seen_name) == schema_parse_error(
                    string_seq_view(toks@),
                    0,
                    false,
                ),
            decreases toks@.len() - i,
        {
            if i + 1 >= toks.len() {
                return Err("Missing value while parsing TableSchema".to_owned());
            }
            assert(string_seq_view(toks@)[i as int] == toks@[i as int]@);
            if text_is(&toks[i], "name") {
                seen_name = true;
            } else if text_is(&toks[i], "columns") {
                return Err("Parsing a container in this style is not supported in TableSchema".to_owned());
            } else {
                return Err("Unexpected key while parsing TableSchema".to_owned());
            }
            i = i + 2;
        }
        if seen_name {
            Err("columns missing in TableSchema".to_owned())
        } else {
            Err("name missing in TableSchema".to_owned())
        }
    }
}

/// The error of reading a table schema from the pieces of form text, the
/// pairs read in order from the piece at `i`, `seen_name` telling whether a
/// name was read before: a key without value, the columns' key (a list has
/// no form text) or an unknown key stops the reading; at the end the name,
/// else the columns, are missing.
pub open spec fn schema_parse_error(toks: Seq<Seq<char>>, i: int, seen_name: bool) -> Seq<char>
    decreases toks.len() - i,
{
    if i >= toks.len() {
        if seen_name {
            "columns missing in TableSchema"@
        } else {
            "name missing in TableSchema"@
        }
    } else if i + 1 >= toks.len() {
        "Missing value while parsing TableSchema"@
    } else if toks[i] == "name"@ {
        schema_parse_error(toks, i + 2, true)
    } else if toks[i] == "columns"@ {
        "Parsing a container in this style is not supported in TableSchema"@
    } else {
        "Unexpected key while parsing TableSchema"@
    }
}

/// A query as listed: its id and status.
#[derive(Clone, Debug)]
pub struct ShallowQuery {
    pub query_id: String,
    pub status: QueryStatus,
}

impl ShallowQuery {
    pub fn new(query_id: String, status: QueryStatus) -> (r: ShallowQuery)
        ensures
            r.query_id@ == query_id@,
            r.status == status,
    {
        ShallowQuery { query_id, status }
    }

    /// Form text: `queryId,<id>` (the status is left out).
    pub fn to_string(&self) -> (r: String)
        ensures
            r@ == join_commas(seq!["queryId"@, self.query_id@]),
    {
        let mut parts: Vec<String> = Vec::new();
        push_text(&mut parts, "queryId".to_owned());
        push_text(&mut parts, self.query_id.clone());
        assert(string_seq_view(parts@) =~= seq!["queryId"@, self.query_id@]);
        join_parts(&parts)
    }

    /// A query from form text with the keys `queryId` and `status` (the
    /// first of each counts); another key, a status that is not one, a
    /// missing key or value is an error.
    pub fn from_str(s: &str) -> (r: Result<ShallowQuery, String>)
        ensures
            form_pairs(s@) is None ==> r is Err,
            form_pairs(s@) matches Some(p) ==> {
                &&& r is Ok <==> keys_within(p, seq!["queryId"@, "status"@]) && values_ok(p, "status"@, FormValue::Status)
                    && first_with_key(p, "queryId"@) is Some && first_with_key(p, "status"@) is Some
                &&& r matches Ok(q) ==> q.query_id@ == first_with_key(p, "queryId"@)->0 && status_text(q.status)
                    == first_with_key(p, "status"@)->0
            },
    {
        let toks = match form_tokens(s) {
            Some(t) => t,
            None => {
                return Err("Missing value while parsing ShallowQuery".to_owned());
            },
        };
        let ghost p = form_pairs_of(string_seq_view(toks@));
        let allowed = vec!["queryId", "status"];
        proof {
            assert(allowed@.map_values(|a: &str| a@) =~= seq!["queryId"@, "status"@]);
        }
        if !keys_allowed(&toks, &allowed) {
            return Err("Unexpected key while parsing ShallowQuery".to_owned());
        }
        if !values_of_key_ok(&toks, "status", FormValue::Status) {
            return Err("Value not valid".to_owned());
        }
        let id = match first_value(&toks, "queryId") {
            Some(v) => v,
            None => {
                return Err("queryId missing in ShallowQuery".to_owned());
            },
        };
        let st = match first_value(&toks, "status") {
            Some(v) => v,
            None => {
                return Err("status missing in ShallowQuery".to_owned());
            },
        };
        proof {
            lemma_first_value_ok(p, "status"@, FormValue::Status);
        }
        match QueryStatus::from_str(st.as_str()) {
            Ok(t) => Ok(ShallowQuery { query_id: id, status: t }),
            Err(e) => Err(e),
        }
    }
}

/// A query in full: id, status, whether its result is there, and the
/// query itself.
#[derive(Clone, Debug)]
pub struct Query {
    pub query_id: String,
    pub status: QueryStatus,
    pub is_result_available: Option<bool>,
    pub query_definiton: Option<QueryQueryDefiniton>,
}

impl Query {
    pub fn new(query_id: String, status: QueryStatus) -> (r: Query)
        ensures
            r.query_id@ == query_id@,
            r.status == status,
            r.is_result_available is None,
            r.query_definiton is None,
    {
        Query { query_id, status, is_result_available: None, query_definiton: None }
    }

    /// Form text: `queryId,<id>`, then `isResultAvailable,<flag>` where
    /// there is a flag (status and query are left out).
    pub fn to_string(&self) -> (r: String)
        ensures
            r@ == join_commas(seq!["queryId"@, self.query_id@] + opt_entry("isResultAvailable"@, match self.is_result_available {
                Some(b) => Some(flag_text(b)),
                None => None,
            })),
    {
        let mut parts: Vec<String> = Vec::new();
        push_text(&mut parts, "queryId".to_owned());
        push_text(&mut parts, self.query_id.clone());
        push_opt_entry(&mut parts, "isResultAvailable", opt_flag_string(self.is_result_available));
        assert(string_seq_view(parts@) =~= seq!["queryId"@, self.query_id@] + opt_entry("isResultAvailable"@, match self.is_result_available {
            Some(b) => Some(flag_text(b)),
            None => None,
        }));
        join_parts(&parts)
    }

    /// A query from form text with the keys `queryId`, `status` and
    /// `isResultAvailable` (the first of each counts); the query itself,
    /// another key, a status or flag that is not one, a missing id, status
    /// or value is an error.
    pub fn from_str(s: &str) -> (r: Result<Query, String>)
        ensures
            form_pairs(s@) is None ==> r is Err,
            form_pairs(s@) matches Some(p) ==> {
                &&& r is Ok <==> keys_within(p, seq!["queryId"@, "status"@, "isResultAvailable"@]) && values_ok(
                    p,
                    "status"@,
                    FormValue::Status,
                ) && values_ok(p, "isResultAvailable"@, FormValue::Flag) && first_with_key(p, "queryId"@) is Some
                    && first_with_key(p, "status"@) is Some
                &&& r matches Ok(q) ==> q.query_id@ == first_with_key(p, "queryId"@)->0 && status_text(q.status)
                    == first_with_key(p, "status"@)->0 && q.is_result_available == opt_flag(
                    first_with_key(p, "isResultAvailable"@),
                ) && q.query_definiton is None
            },
    {
        let toks = match form_tokens(s) {
            Some(t) => t,
            None => {
                return Err("Missing value while parsing Query".to_owned());
            },
        };
        let ghost p = form_pairs_of(string_seq_view(toks@));
        let allowed = vec!["queryId", "status", "isResultAvailable"];
        proof {
            assert(allowed@.map_values(|a: &str| a@) =~= seq!["queryId"@, "status"@, "isResultAvailable"@]);
        }
        if !keys_allowed(&toks, &allowed) {
            return Err("Unexpected key while parsing Query".to_owned());
        }
        if !values_of_key_ok(&toks, "status", FormValue::Status) {
            return Err("Value not valid".to_owned());
        }
        if !values_of_key_ok(&toks, "isResultAvailable", FormValue::Flag) {
            return Err("provided string was not `true` or `false`".to_owned());
        }
        let id = match first_value(&toks, "queryId") {
            Some(v) => v,
            None => {
                return Err("queryId missing in Query".to_owned());
            },
        };
        let st = match first_value(&toks, "status") {
            Some(v) => v,
            None => {
                return Err("status missing in Query".to_owned());
            },
        };
        proof {
            lemma_first_value_ok(p, "status"@, FormValue::Status);
        }
        let status = match QueryStatus::from_str(st.as_str()) {
            Ok(t) => t,
            Err(e) => {
                return Err(e);
            },
        };
        Ok(Query {
            query_id: id,
            status,
            is_result_available: parse_opt_flag(first_value(&toks, "isResultAvailable")),
            query_definiton: None,
        })
    }
}

/// A table as listed: its id, if known, and name.
#[derive(Clone, Debug)]
pub struct ShallowTable {
    pub table_id: Option<String>,
    pub name: String,
}

impl ShallowTable {
    /// A table with a name and no id.
    pub fn new(name: String) -> (r: ShallowTable)
        ensures
            r.table_id is None,
            r.name@ == name@,
    {
        ShallowTable { table_id: None, name }
    }

    /// Form text: `tableId,<id>` where there is one, then `name,<name>`.
    pub fn to_string(&self) -> (r: String)
        ensures
            r@ == join_commas(opt_entry("tableId"@, opt_text(self.table_id)) + seq!["name"@, self.name@]),
    {
        let mut parts: Vec<String> = Vec::new();
        push_opt_entry(&mut parts, "tableId", self.table_id.clone());
        push_text(&mut parts, "name".to_owned());
        push_text(&mut parts, self.name.clone());
        assert(string_seq_view(parts@) =~= opt_entry("tableId"@, opt_text(self.table_id)) + seq!["name"@, self.name@]);
        join_parts(&parts)
    }

    /// A table from form text with the keys `tableId` and `name` (the
    /// first of each counts); another key or a missing name or value is an
    /// error.
    pub fn from_str(s: &str) -> (r: Result<ShallowTable, String>)
        ensures
            form_pairs(s@) is None ==> r is Err,
            form_pairs(s@) matches Some(p) ==> {
                &&& r is Ok <==> keys_within(p, seq!["tableId"@, "name"@]) && first_with_key(p, "name"@) is Some
                &&& r matches Ok(q) ==> opt_text(q.table_id) == first_with_key(p, "tableId"@) && q.name@
                    == first_with_key(p, "name"@)->0
            },
    {
        let toks = match form_tokens(s) {
            Some(t) => t,
            None => {
                return Err("Missing value while parsing ShallowTable".to_owned());
            },
        };
        let allowed = vec!["tableId", "name"];
        proof {
            assert(allowed@.map_values(|a: &str| a@) =~= seq!["tableId"@, "name"@]);
        }
        if !keys_allowed(&toks, &allowed) {
            return Err("Unexpected key while parsing ShallowTable".to_owned());
        }
        let name = match first_value(&toks, "name") {
            Some(v) => v,
            None => {
                return Err("name missing in ShallowTable".to_owned());
            },
        };
        Ok(ShallowTable { table_id: first_value(&toks, "tableId"), name })
    }
}

/// The id of a query.
#[derive(Clone, Debug)]
pub struct QueryId(pub String);

impl QueryId {
    /// The id itself.
    pub fn to_string(&self) -> (r: String)
        ensures
            r@ == self.0@,
    {
        self.0.clone()
    }

    /// Any text is an id.
    pub fn from_str(s: &str) -> (r: Result<QueryId, String>)
        ensures
            r matches Ok(q) && q.0@ == s@,
    {
        Ok(QueryId(s.to_owned()))
    }
}

/// The id of a table.
#[derive(Clone, Debug)]
pub struct TableId(pub String);

impl TableId {
    /// The id itself.
    pub fn to_string(&self) -> (r: String)
        ensures
            r@ == self.0@,
    {
        self.0.clone()
    }

    /// Any text is an id.
    pub fn from_str(s: &str) -> (r: Result<TableId, String>)
        ensures
            r matches Ok(q) && q.0@ == s@,
    {
        Ok(TableId(s.to_owned()))
    }
}

} // verus!

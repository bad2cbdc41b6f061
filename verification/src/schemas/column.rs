//! Columns of a table schema, and batches of column values.
use vstd::prelude::*;
use crate::db::constants::LogicalColType;
use vstd::string::StrSliceExecFns;
use crate::db::storage::text::{decimal_text, law_parse_i64_reads_decimal_text, parse_i64, parse_i64_spec};

verus! {

/// Values of an INT64 column.
#[derive(Clone, Debug)]
pub struct Int64Column {
    values: Vec<i64>,
}

impl View for Int64Column {
    type V = Seq<i64>;

    closed spec fn view(&self) -> Seq<i64> {
        self.values@
    }
}

impl Int64Column {
    pub fn new(values: Vec<i64>) -> (r: Int64Column)
        ensures
            r@ == values@,
    {
        Int64Column { values }
    }

    pub fn values(&self) -> (r: &Vec<i64>)
        ensures
            r@ == self@,
    {
        &self.values
    }

    pub fn push(&mut self, val: i64)
        ensures
            final(self)@ == old(self)@.push(val),
    {
        self.values.push(val);
    }

    pub fn clear(&mut self)
        ensures
            final(self)@ == Seq::<i64>::empty(),
    {
        self.values.clear();
    }
}

/// Values of a VARCHAR column.
#[derive(Clone, Debug)]
pub struct VarcharColumn {
    values: Vec<String>,
}

impl View for VarcharColumn {
    type V = Seq<Seq<char>>;

    closed spec fn view(&self) -> Seq<Seq<char>> {
        self.values@.map_values(|s: String| s@)
    }
}

impl VarcharColumn {
    pub fn new(values: Vec<String>) -> (r: VarcharColumn)
        ensures
            r@ == values@.map_values(|s: String| s@),
    {
        VarcharColumn { values }
    }

    pub fn values(&self) -> (r: &Vec<String>)
        ensures
            r@.map_values(|s: String| s@) == self@,
    {
        &self.values
    }

    pub fn push(&mut self, val: &str)
        ensures
            final(self)@ == old(self)@.push(val@),
    {
        let ghost before = self.values@;
        self.values.push(val.to_owned());
        assert(self.values@.map_values(|s: String| s@) =~= before.map_values(|s: String| s@).push(val@));
    }

    pub fn clear(&mut self)
        ensures
            final(self)@ == Seq::<Seq<char>>::empty(),
    {
        self.values.clear();
        assert(self.values@.map_values(|s: String| s@) =~= Seq::<Seq<char>>::empty());
    }
}

/// A batch of values of one column.
#[derive(Clone, Debug)]
pub enum DataColumn {
    Int64(Int64Column),
    Varchar(VarcharColumn),
}

impl DataColumn {
    /// The type of the values held.
    pub open spec fn is_int(&self) -> bool {
        self is Int64
    }

    /// Number of values held.
    pub open spec fn len_spec(&self) -> nat {
        match self {
            DataColumn::Int64(c) => c@.len(),
            DataColumn::Varchar(c) => c@.len(),
        }
    }

    /// Removes all values, keeping the type.
    pub fn clear_batch(&mut self)
        ensures
            final(self).is_int() == old(self).is_int(),
            final(self).len_spec() == 0,
    {
        match self {
            DataColumn::Int64(i_c) => i_c.clear(),
            DataColumn::Varchar(v_c) => v_c.clear(),
        }
    }

    /// The same kind of column holding the values of `c`, in order, that
    /// come before row `n`.
    pub open spec fn is_prefix_of(&self, c: DataColumn, n: nat) -> bool {
        match (*self, c) {
            (DataColumn::Int64(a), DataColumn::Int64(b)) => a@ == b@.take(if n < b@.len() { n as int } else { b@.len() as int }),
            (DataColumn::Varchar(a), DataColumn::Varchar(b)) => a@ == b@.take(if n < b@.len() { n as int } else { b@.len() as int }),
            _ => false,
        }
    }

    /// The values before row `n`, as a column of the same kind.
    pub fn first_rows(&self, n: usize) -> (r: DataColumn)
        ensures
            r.is_prefix_of(*self, n as nat),
    {
        match self {
            DataColumn::Int64(c) => {
                let vals = c.values();
                let m = if n < vals.len() { n } else { vals.len() };
                let mut out: Vec<i64> = Vec::new();
                let mut i: usize = 0;
                while i < m
                    invariant
                        m <= vals@.len(),
                        i <= m,
                        out@ == vals@.take(i as int),
                    decreases m - i,
                {
                    out.push(vals[i]);
                    assert(vals@.take(i + 1) =~= vals@.take(i as int).push(vals@[i as int]));
                    i = i + 1;
                }
                DataColumn::Int64(Int64Column::new(out))
            },
            DataColumn::Varchar(c) => {
                let vals = c.values();
                let m = if n < vals.len() { n } else { vals.len() };
                let mut out: Vec<String> = Vec::new();
                let mut i: usize = 0;
                while i < m
                    invariant
                        m <= vals@.len(),
                        i <= m,
                        out@.map_values(|s: String| s@) == vals@.map_values(|s: String| s@).take(i as int),
                    decreases m - i,
                {
                    let ghost prev = out@;
                    let v = vals[i].clone();
                    out.push(v);
                    proof {
                        assert(out@ == prev.push(v));
                        assert(out@.map_values(|s: String| s@) =~= prev.map_values(|s: String| s@).push(v@));
                        assert(vals@.map_values(|s: String| s@).take(i + 1) =~= vals@.map_values(|s: String| s@).take(i as int).push(vals@[i as int]@));
                    }
                    i = i + 1;
                }
                DataColumn::Varchar(VarcharColumn::new(out))
            },
        }
    }

    /// `new` is this column with the text `v` added as a value: parsed as
    /// an `i64` for an INT64 column, as it is for a VARCHAR column.
    pub open spec fn pushed_text(&self, new: DataColumn, v: Seq<char>) -> bool {
        match (*self, new) {
            (DataColumn::Int64(a), DataColumn::Int64(b)) => parse_i64_spec(v) matches Some(x) && b@ == a@.push(x),
            (DataColumn::Varchar(a), DataColumn::Varchar(b)) => b@ == a@.push(v),
            _ => false,
        }
    }

    /// Whether the text `v` can be added as a value: always to a VARCHAR
    /// column, to an INT64 column if it parses as an `i64`.
    pub open spec fn accepts_text(&self, v: Seq<char>) -> bool {
        self is Varchar || parse_i64_spec(v) is Some
    }

    /// Adds the text `val` as a value (see [`DataColumn::pushed_text`]);
    /// `false`, with nothing changed, if it is not accepted.
    pub fn push_text(&mut self, val: &str) -> (r: bool)
        ensures
            r == old(self).accepts_text(val@),
            r ==> old(self).pushed_text(*final(self), val@),
            !r ==> *final(self) == *old(self),
    {
        match self {
            DataColumn::Int64(i_vec) => match parse_i64(val) {
                Some(v) => {
                    i_vec.push(v);
                    true
                },
                None => false,
            },
            DataColumn::Varchar(s_vec) => {
                s_vec.push(val);
                true
            },
        }
    }

    /// Number of values held.
    pub fn len(&self) -> (r: usize)
        ensures
            r == self.len_spec(),
    {
        match self {
            DataColumn::Int64(c) => c.values().len(),
            DataColumn::Varchar(c) => {
                let r = c.values().len();
                r
            },
        }
    }
}

/// A value loaded into a batch is the value the CSV text writes: the
/// decimal text of `n` (with an optional sign) added to an INT64 batch
/// appends the number it denotes, and a text added to a VARCHAR batch
/// appends that text; values already in the batch stay.
pub proof fn law_batch_gets_the_value_written(old_col: DataColumn, new_col: DataColumn, n: nat, v: Seq<char>)
    ensures
        old_col is Int64 && n <= i64::MAX && old_col.pushed_text(new_col, decimal_text(n)) ==> (new_col matches DataColumn::Int64(b)
            && old_col matches DataColumn::Int64(a) && b@ == a@.push(n as i64)),
        old_col is Int64 && n <= i64::MAX + 1 && old_col.pushed_text(new_col, seq!['-'] + decimal_text(n)) ==> (
        new_col matches DataColumn::Int64(b) && old_col matches DataColumn::Int64(a) && b@ == a@.push((-n) as i64)),
        old_col is Varchar && old_col.pushed_text(new_col, v) ==> (new_col matches DataColumn::Varchar(b)
            && old_col matches DataColumn::Varchar(a) && b@ == a@.push(v)),
{
    law_parse_i64_reads_decimal_text(n);
}

/// A column of a table schema: its name and type.
#[derive(Clone, Debug)]
pub struct Column {
    c_name: String,
    c_type: LogicalColType,
}

impl View for Column {
    type V = (Seq<char>, LogicalColType);

    closed spec fn view(&self) -> (Seq<char>, LogicalColType) {
        (self.c_name@, self.c_type)
    }
}

impl Column {
    pub fn new(name: &str, c_type: &LogicalColType) -> (r: Column)
        ensures
            r@ == (name@, *c_type),
    {
        Column { c_name: name.to_owned(), c_type: *c_type }
    }

    pub fn new_int(name: &str) -> (r: Column)
        ensures
            r@ == (name@, LogicalColType::INT64),
    {
        Column { c_name: name.to_owned(), c_type: LogicalColType::INT64 }
    }

    pub fn new_varchar(name: &str) -> (r: Column)
        ensures
            r@ == (name@, LogicalColType::VARCHAR),
    {
        Column { c_name: name.to_owned(), c_type: LogicalColType::VARCHAR }
    }

    pub fn c_name(&self) -> (r: &str)
        ensures
            r@ == self@.0,
    {
        self.c_name.as_str()
    }

    pub fn c_type(&self) -> (r: LogicalColType)
        ensures
            r == self@.1,
    {
        self.c_type
    }

    /// A copy with the same name and type.
    pub fn duplicate(&self) -> (r: Column)
        ensures
            r@ == self@,
    {
        Column { c_name: self.c_name.clone(), c_type: self.c_type }
    }

    /// The rule a column name of a request must meet: between 1 and 255
    /// characters.
    pub fn validate(&self) -> (r: bool)
        ensures
            r == (1 <= self@.0.len() <= 255),
    {
        let n = char_count(self.c_name.as_str());
        1 <= n && n <= 255
    }
}

/// The number of characters of `s`.
pub fn char_count(s: &str) -> (r: usize)
    ensures
        r == s@.len(),
{
    s.unicode_len()
}

} // verus!

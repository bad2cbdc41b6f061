//! The metadata file of the first file format: which columns exist, their
//! types, and the files that hold each column.
use vstd::prelude::*;
use vstd::utf8::encode_utf8;
use crate::db::storage::bytes_be::{be_u16_at, be_u32_at, push_be_u16, push_be_u32, read_be_u16, read_be_u32, u16_be_bytes, u32_be_bytes};
use crate::db::storage::string_handlers::{read_str_run, ReadStrStop};
use crate::db::storage::name_map::NameMap;
use crate::db::storage::string_handlers::{col_name_pattern, col_name_shape, is_ascii_letter, is_word_char};
use crate::db::storage::text::{byte_len, str_byte_len};
use crate::external::regex_api::regex_match;
use crate::external::std_text::string_push_str;
use crate::file_format_prep::constants::{DB_DATA_DIR, MAGIC_WORD, MAX_COL_NAME_LEN};
use crate::file_format_prep::errors::io_other_err_wrapper;
use crate::file_format_prep::string_read::{read_string_from_buf, StrLenCheckType};
use crate::schemas::query::string_seq_view;

verus! {

/// The pattern every file path must match.
pub open spec fn file_path_pattern() -> Seq<char> {
    "^[a-zA-Z./][a-zA-Z0-9_./]*$"@
}

/// What [`file_path_pattern`] matches: one or more ASCII letters, `.` and
/// `/`, digits and `_` allowed after the first.
pub open spec fn ffp_path_shape(p: Seq<char>) -> bool {
    &&& p.len() > 0
    &&& is_ascii_letter(p[0]) || p[0] == '.' || p[0] == '/'
    &&& forall|i: int| 1 <= i < p.len() ==> is_word_char(#[trigger] p[i]) || p[i] == '.' || p[i] == '/'
}

/// The paths of each column, as texts.
pub open spec fn paths_view(m: Seq<(Seq<char>, Vec<String>)>) -> Seq<(Seq<char>, Seq<Seq<char>>)> {
    m.map_values(|e: (Seq<char>, Vec<String>)| (e.0, string_seq_view(e.1@)))
}

/// Whether `name` is one of the keys of `paths`.
pub open spec fn has_key<T>(paths: Seq<(Seq<char>, T)>, name: Seq<char>) -> bool {
    exists|j: int| 0 <= j < paths.len() && #[trigger] paths[j].0 == name
}

/// What the metadata of a database must satisfy: one files count, one type
/// and one name per column and one entry of paths per column; and, where
/// there are columns, each with at least one file, each type 0 or 1, names
/// of at most 255 bytes, distinct and of the form of [`col_name_shape`],
/// each name with paths, each path list non-empty and each path of the form
/// of [`ffp_path_shape`].
pub open spec fn metadata_ok(
    col_count: nat,
    files_count: Seq<u8>,
    types: Seq<u8>,
    names: Seq<Seq<char>>,
    paths: Seq<(Seq<char>, Seq<Seq<char>>)>,
) -> bool {
    &&& files_count.len() == col_count
    &&& types.len() == col_count
    &&& names.len() == col_count
    &&& paths.len() == col_count
    &&& col_count > 0 ==> {
        &&& forall|i: int| 0 <= i < col_count ==> #[trigger] files_count[i] > 0
        &&& forall|i: int| 0 <= i < col_count ==> #[trigger] types[i] <= 1
        &&& forall|i: int| 0 <= i < col_count ==> byte_len(#[trigger] names[i]) <= 255
        &&& names.no_duplicates()
        &&& forall|i: int| 0 <= i < col_count ==> col_name_shape(#[trigger] names[i])
        &&& forall|i: int| 0 <= i < col_count ==> has_key(paths, #[trigger] names[i])
        &&& forall|j: int| 0 <= j < col_count ==> (#[trigger] paths[j]).1.len() > 0
        &&& forall|j: int, k: int|
            0 <= j < col_count && 0 <= k < paths[j].1.len() ==> ffp_path_shape(#[trigger] paths[j].1[k])
    }
}

fn any_zero(v: &Vec<u8>) -> (r: bool)
    ensures
        r <==> exists|i: int| 0 <= i < v@.len() && v@[i] == 0,
{
    let mut i: usize = 0;
    while i < v.len()
        invariant
            i <= v@.len(),
            forall|j: int| 0 <= j < i ==> v@[j] != 0,
        decreases v@.len() - i,
    {
        if v[i] == 0 {
            return true;
        }
        i = i + 1;
    }
    false
}

fn any_above_one(v: &Vec<u8>) -> (r: bool)
    ensures
        r <==> exists|i: int| 0 <= i < v@.len() && v@[i] > 1,
{
    let mut i: usize = 0;
    while i < v.len()
        invariant
            i <= v@.len(),
            forall|j: int| 0 <= j < i ==> v@[j] <= 1,
        decreases v@.len() - i,
    {
        if v[i] > 1 {
            return true;
        }
        i = i + 1;
    }
    false
}

fn any_name_too_long(v: &Vec<String>) -> (r: bool)
    ensures
        r <==> exists|i: int| 0 <= i < v@.len() && byte_len(v@[i]@) > 255,
{
    let mut i: usize = 0;
    while i < v.len()
        invariant
            i <= v@.len(),
            forall|j: int| 0 <= j < i ==> byte_len(v@[j]@) <= 255,
        decreases v@.len() - i,
    {
        if str_byte_len(v[i].as_str()) > 255 {
            return true;
        }
        i = i + 1;
    }
    false
}

fn has_duplicates(v: &Vec<String>) -> (r: bool)
    ensures
        r <==> !string_seq_view(v@).no_duplicates(),
{
    let ghost sv = string_seq_view(v@);
    let mut i: usize = 0;
    while i < v.len()
        invariant
            sv == string_seq_view(v@),
            i <= v@.len(),
            forall|a: int, b: int| 0 <= a < b < v@.len() && a < i ==> sv[a] != sv[b],
        decreases v@.len() - i,
    {
        let mut j: usize = i + 1;
        while j < v.len()
            invariant
                sv == string_seq_view(v@),
                i < v@.len(),
                i + 1 <= j <= v@.len(),
                forall|a: int, b: int| 0 <= a < b < v@.len() && a < i ==> sv[a] != sv[b],
                forall|b: int| i < b < j ==> sv[i as int] != sv[b],
            decreases v@.len() - j,
        {
            if v[i] == v[j] {
                assert(sv[i as int] == sv[j as int]);
                return true;
            }
            j = j + 1;
        }
        i = i + 1;
    }
    false
}

/// Checks [`metadata_ok`]; an I/O error of kind `Other` where it fails.
pub fn check_metadata_correctness(
    col_count: usize,
    col_files_count: &Vec<u8>,
    col_types: &Vec<u8>,
    col_names: &Vec<String>,
    col_files_paths: &NameMap<Vec<String>>,
) -> (r: Result<(), std::io::Error>)
    requires
        col_files_paths.wf(),
    ensures
        r is Ok <==> metadata_ok(
            col_count as nat,
            col_files_count@,
            col_types@,
            string_seq_view(col_names@),
            paths_view(col_files_paths@),
        ),
{
    let ghost names = string_seq_view(col_names@);
    let ghost paths = paths_view(col_files_paths@);
    if col_files_count.len() != col_count || col_types.len() != col_count || col_names.len() != col_count
        || col_files_paths.len() != col_count {
        return Err(
            io_other_err_wrapper(
                "col_names, col_types, col_files_count and col_files_paths hashmap must have the same length equal to col_count",
            ),
        );
    }
    if col_count == 0 {
        return Ok(());
    }
    if any_zero(col_files_count) {
        return Err(io_other_err_wrapper("Each column must have at least one file (col_files_count contains 0)"));
    }
    if any_above_one(col_types) {
        return Err(
            io_other_err_wrapper("Column types must be 0 (int) or 1 (string) only (col_types contains value > 1)"),
        );
    }
    if any_name_too_long(col_names) {
        proof {
            let i = choose|i: int| 0 <= i < col_names@.len() && byte_len(col_names@[i]@) > 255;
            assert(names[i] == col_names@[i]@);
        }
        return Err(io_other_err_wrapper("Column names must not exceed 255 characters"));
    }
    if has_duplicates(col_names) {
        return Err(io_other_err_wrapper("There are duplicates in column names"));
    }
    let name_pattern: &str = "^[a-zA-Z][a-zA-Z0-9_]*$";
    proof {
        assert(name_pattern@ == col_name_pattern());
    }
    let mut i: usize = 0;
    while i < col_names.len()
        invariant
            name_pattern@ == col_name_pattern(),
            names == string_seq_view(col_names@),
            i <= col_names@.len(),
            forall|j: int| 0 <= j < i ==> col_name_shape(#[trigger] names[j]),
        decreases col_names@.len() - i,
    {
        match regex_match(name_pattern, col_names[i].as_str()) {
            None => {
                return Err(io_other_err_wrapper("Column names must match regex: ^[a-zA-Z][a-zA-Z0-9_]*$"));
            },
            Some(false) => {
                assert(!col_name_shape(names[i as int]));
                return Err(io_other_err_wrapper("Column names must match regex: ^[a-zA-Z][a-zA-Z0-9_]*$"));
            },
            Some(true) => {},
        }
        i = i + 1;
    }
    let mut i: usize = 0;
    while i < col_names.len()
        invariant
            names == string_seq_view(col_names@),
            paths == paths_view(col_files_paths@),
            col_files_paths.wf(),
            i <= col_names@.len(),
            forall|j: int| 0 <= j < i ==> has_key(paths, #[trigger] names[j]),
        decreases col_names@.len() - i,
    {
        match col_files_paths.index_of(col_names[i].as_str()) {
            None => {
                assert(!has_key(paths, names[i as int])) by {
                    if has_key(paths, names[i as int]) {
                        let j = choose|j: int| 0 <= j < paths.len() && #[trigger] paths[j].0 == names[i as int];
                        assert(col_files_paths@[j].0 == col_names@[i as int]@);
                    }
                }
                return Err(io_other_err_wrapper("col_files_paths must contain all column names as keys"));
            },
            Some(j) => {
                assert(paths[j as int].0 == names[i as int]);
            },
        }
        i = i + 1;
    }
    let mut j: usize = 0;
    while j < col_files_paths.len()
        invariant
            paths == paths_view(col_files_paths@),
            col_files_paths.wf(),
            j <= col_files_paths@.len(),
            forall|k: int| 0 <= k < j ==> (#[trigger] paths[k]).1.len() > 0,
        decreases col_files_paths@.len() - j,
    {
        let (_, ps) = col_files_paths.entry_at(j);
        if ps.len() == 0 {
            assert(paths[j as int].1.len() == 0);
            return Err(
                io_other_err_wrapper(
                    "Each column must have at least one file path (col_files_paths contains empty vector)",
                ),
            );
        }
        j = j + 1;
    }
    let path_pattern: &str = "^[a-zA-Z./][a-zA-Z0-9_./]*$";
    proof {
        assert(path_pattern@ == file_path_pattern());
    }
    let mut j: usize = 0;
    while j < col_files_paths.len()
        invariant
            path_pattern@ == file_path_pattern(),
            paths == paths_view(col_files_paths@),
            col_files_paths.wf(),
            col_files_paths@.len() == col_count,
            col_count > 0,
            j <= col_files_paths@.len(),
            forall|k: int| 0 <= k < col_count ==> (#[trigger] paths[k]).1.len() > 0,
            forall|a: int, k: int| 0 <= a < j && 0 <= k < paths[a].1.len() ==> ffp_path_shape(#[trigger] paths[a].1[k]),
        decreases col_files_paths@.len() - j,
    {
        let (_, ps) = col_files_paths.entry_at(j);
        let mut k: usize = 0;
        while k < ps.len()
            invariant
                path_pattern@ == file_path_pattern(),
                paths == paths_view(col_files_paths@),
                col_files_paths.wf(),
                j < col_files_paths@.len(),
                *ps == col_files_paths@[j as int].1,
                paths[j as int].1.len() > 0,
                k <= ps@.len(),
                forall|a: int, m: int| 0 <= a < j && 0 <= m < paths[a].1.len() ==> ffp_path_shape(#[trigger] paths[a].1[m]),
                forall|m: int| 0 <= m < k ==> ffp_path_shape(#[trigger] paths[j as int].1[m]),
            decreases ps@.len() - k,
        {
            match regex_match(path_pattern, ps[k].as_str()) {
                None => {
                    return Err(
                        io_other_err_wrapper("Each file path must satisfy regex: ^[a-zA-Z./][a-zA-Z0-9_./]*$"),
                    );
                },
                Some(false) => {
                    assert(!ffp_path_shape(paths[j as int].1[k as int]));
                    return Err(
                        io_other_err_wrapper("Each file path must satisfy regex: ^[a-zA-Z./][a-zA-Z0-9_./]*$"),
                    );
                },
                Some(true) => {},
            }
            k = k + 1;
        }
        proof {
            assert forall|a: int, m: int| 0 <= a < j + 1 && 0 <= m < paths[a].1.len() implies ffp_path_shape(
                #[trigger] paths[a].1[m],
            ) by {
                if a == j {
                    assert(ffp_path_shape(paths[j as int].1[m]));
                }
            }
        }
        j = j + 1;
    }
    Ok(())
}

/// The content of the metadata of a database.
pub ghost struct FfpMetadataView {
    pub magic_word: u32,
    pub col_count: u16,
    pub col_files_count: Seq<u8>,
    pub col_types: Seq<u8>,
    pub col_names: Seq<Seq<char>>,
    pub col_files_paths: Seq<(Seq<char>, Seq<Seq<char>>)>,
}

/// The metadata of a database: its columns' names, types, number of files
/// and file paths (by column name), and each name's place.
pub struct DbMetadata {
    magic_word: u32,
    col_count: u16,
    col_files_count: Vec<u8>,
    col_types: Vec<u8>,
    col_names: Vec<String>,
    col_files_paths: NameMap<Vec<String>>,
    col_names_idxs: NameMap<usize>,
}

/// Each name with its place.
pub open spec fn names_with_places(names: Seq<Seq<char>>) -> Seq<(Seq<char>, usize)> {
    Seq::new(names.len(), |i: int| (names[i], i as usize))
}

impl View for DbMetadata {
    type V = FfpMetadataView;

    closed spec fn view(&self) -> FfpMetadataView {
        FfpMetadataView {
            magic_word: self.magic_word,
            col_count: self.col_count,
            col_files_count: self.col_files_count@,
            col_types: self.col_types@,
            col_names: string_seq_view(self.col_names@),
            col_files_paths: paths_view(self.col_files_paths@),
        }
    }
}

/// The path of the first file of a column: `./db_data/name_0`.
pub open spec fn first_file_path(name: Seq<char>) -> Seq<char> {
    DB_DATA_DIR@ + "/"@ + name + "_0"@
}

/// Each name with its first file's path as its only path.
pub open spec fn first_file_paths(names: Seq<Seq<char>>) -> Seq<(Seq<char>, Seq<Seq<char>>)> {
    Seq::new(names.len(), |i: int| (names[i], seq![first_file_path(names[i])]))
}

impl DbMetadata {
    /// The names are distinct, each has paths and its place recorded, and
    /// there is one files count and one type per column.
    pub closed spec fn wf(&self) -> bool {
        &&& self.col_files_paths.wf()
        &&& self.col_names_idxs.wf()
        &&& self.col_files_count@.len() == self.col_count
        &&& self.col_types@.len() == self.col_count
        &&& self.col_names@.len() == self.col_count
        &&& self.col_files_paths@.len() == self.col_count
        &&& string_seq_view(self.col_names@).no_duplicates()
        &&& self.col_names_idxs@ == names_with_places(string_seq_view(self.col_names@))
        &&& forall|i: int|
            0 <= i < self.col_count ==> has_key(self.col_files_paths@, #[trigger] string_seq_view(self.col_names@)[i])
    }

    /// Metadata from all of its parts, after checking them (see
    /// [`metadata_ok`]).
    pub fn new_all_data(
        col_count: u16,
        col_files_count: Vec<u8>,
        col_types: Vec<u8>,
        col_names: Vec<String>,
        col_files_paths: NameMap<Vec<String>>,
    ) -> (r: Result<DbMetadata, std::io::Error>)
        requires
            col_files_paths.wf(),
        ensures
            r is Ok <==> metadata_ok(
                col_count as nat,
                col_files_count@,
                col_types@,
                string_seq_view(col_names@),
                paths_view(col_files_paths@),
            ),
            r matches Ok(m) ==> m.wf() && m@ == (FfpMetadataView {
                magic_word: MAGIC_WORD,
                col_count,
                col_files_count: col_files_count@,
                col_types: col_types@,
                col_names: string_seq_view(col_names@),
                col_files_paths: paths_view(col_files_paths@),
            }),
    {
        check_metadata_correctness(col_count as usize, &col_files_count, &col_types, &col_names, &col_files_paths)?;
        let ghost names = string_seq_view(col_names@);
        let ghost paths = paths_view(col_files_paths@);
        let mut idxs: NameMap<usize> = NameMap::new();
        let mut id: usize = 0;
        while id < col_names.len()
            invariant
                names == string_seq_view(col_names@),
                id <= col_names@.len(),
                col_count == 0 ==> col_names@.len() == 0,
                col_count > 0 ==> names.no_duplicates(),
                idxs.wf(),
                idxs@ == names_with_places(names).take(id as int),
            decreases col_names@.len() - id,
        {
            let ghost before = idxs@;
            proof {
                assert forall|i: int| 0 <= i < before.len() implies before[i].0 != names[id as int] by {
                    assert(before[i].0 == names[i]);
                }
            }
            idxs.insert(col_names[id].clone(), id);
            proof {
                assert(!(exists|i: int| 0 <= i < before.len() && before[i].0 == col_names@[id as int]@));
                assert(idxs@ =~= names_with_places(names).take(id + 1));
            }
            id = id + 1;
        }
        proof {
            assert(names_with_places(names).take(col_names@.len() as int) =~= names_with_places(names));
            assert(paths.len() == col_files_paths@.len());
            assert forall|i: int| 0 <= i < col_count implies has_key(
                col_files_paths@,
                #[trigger] string_seq_view(col_names@)[i],
            ) by {
                assert(has_key(paths, names[i]));
                let j = choose|j: int| 0 <= j < paths.len() && #[trigger] paths[j].0 == names[i];
                assert(col_files_paths@[j].0 == names[i]);
            }
        }
        Ok(DbMetadata {
            magic_word: MAGIC_WORD,
            col_count,
            col_files_count,
            col_types,
            col_names,
            col_files_paths,
            col_names_idxs: idxs,
        })
    }

    /// Metadata of new columns with the given types and names, each with one
    /// file, `./db_data/name_0`. Lists of different lengths, more than
    /// `u16::MAX` columns or parts that fail [`metadata_ok`] are an error.
    pub fn new(col_types: Vec<u8>, col_names: Vec<String>) -> (r: Result<DbMetadata, std::io::Error>)
        ensures
            r is Ok <==> col_types@.len() == col_names@.len() && col_names@.len() <= u16::MAX && metadata_ok(
                col_names@.len(),
                Seq::new(col_names@.len(), |i: int| 1u8),
                col_types@,
                string_seq_view(col_names@),
                first_file_paths(string_seq_view(col_names@)),
            ),
            r matches Ok(m) ==> m.wf() && m@ == (FfpMetadataView {
                magic_word: MAGIC_WORD,
                col_count: col_names@.len() as u16,
                col_files_count: Seq::new(col_names@.len(), |i: int| 1u8),
                col_types: col_types@,
                col_names: string_seq_view(col_names@),
                col_files_paths: first_file_paths(string_seq_view(col_names@)),
            }),
    {
        if col_types.len() != col_names.len() {
            return Err(io_other_err_wrapper("DbMetadata - new_basic - col_types vec has diff len than col_names"));
        }
        if col_types.len() > 65535 {
            return Err(
                io_other_err_wrapper("DbMetadata - new_basic - number of columns is greater than u16::MAX"),
            );
        }
        let col_count = col_types.len();
        let ghost names = string_seq_view(col_names@);
        let mut col_files_count: Vec<u8> = Vec::new();
        let mut col_files_paths: NameMap<Vec<String>> = NameMap::new();
        let mut distinct_so_far: bool = true;
        let mut i: usize = 0;
        while i < col_names.len()
            invariant
                names == string_seq_view(col_names@),
                i <= col_names@.len(),
                col_files_count@ == Seq::new(i as nat, |k: int| 1u8),
                col_files_paths.wf(),
                distinct_so_far ==> names.take(i as int).no_duplicates(),
                distinct_so_far ==> paths_view(col_files_paths@) == first_file_paths(names.take(i as int)),
                !distinct_so_far ==> !names.no_duplicates(),
            decreases col_names@.len() - i,
        {
            let name = &col_names[i];
            let mut path = DB_DATA_DIR.to_owned();
            string_push_str(&mut path, "/");
            string_push_str(&mut path, name.as_str());
            string_push_str(&mut path, "_0");
            assert(path@ == first_file_path(names[i as int]));
            let mut paths_of: Vec<String> = Vec::new();
            paths_of.push(path);
            assert(string_seq_view(paths_of@) =~= seq![first_file_path(names[i as int])]);
            let ghost before = col_files_paths@;
            let seen = col_files_paths.index_of(name.as_str());
            col_files_paths.insert(name.clone(), paths_of);
            col_files_count.push(1u8);
            proof {
                if distinct_so_far {
                    match seen {
                        Some(j) => {
                            assert(before[j as int].0 == names[i as int]);
                            assert(paths_view(before)[j as int].0 == first_file_paths(names.take(i as int))[j as int].0);
                            assert(names[j as int] == names.take(i as int)[j as int]);
                            assert(!names.no_duplicates());
                        },
                        None => {
                            assert(!(exists|k: int| 0 <= k < before.len() && before[k].0 == col_names@[i as int]@));
                            assert(col_files_paths@ == before.push((names[i as int], paths_of)));
                            assert forall|a: int, b: int| 0 <= a < b < i + 1 implies #[trigger] names.take(i + 1)[a]
                                != #[trigger] names.take(i + 1)[b] by {
                                if b == i {
                                    assert(before[a].0 == names[a]) by {
                                        assert(paths_view(before)[a].0 == first_file_paths(names.take(i as int))[a].0);
                                    }
                                } else {
                                    assert(names.take(i as int)[a] != names.take(i as int)[b]);
                                }
                            }
                            assert forall|k: int| 0 <= k < i + 1 implies #[trigger] paths_view(col_files_paths@)[k]
                                == first_file_paths(names.take(i + 1))[k] by {
                                if k < i {
                                    assert(col_files_paths@[k] == before[k]);
                                    assert(paths_view(before)[k] == first_file_paths(names.take(i as int))[k]);
                                } else {
                                    assert(col_files_paths@[k] == (names[i as int], paths_of));
                                }
                            }
                            assert(paths_view(col_files_paths@) =~= first_file_paths(names.take(i + 1)));
                        },
                    }
                }
                assert(col_files_count@ =~= Seq::new((i + 1) as nat, |k: int| 1u8));
            }
            if seen.is_some() {
                distinct_so_far = false;
            }
            i = i + 1;
        }
        proof {
            assert(names.take(col_names@.len() as int) =~= names);
        }
        let r = DbMetadata::new_all_data(
            col_count as u16,
            col_files_count,
            col_types,
            col_names,
            col_files_paths,
        );
        proof {
            if !distinct_so_far && col_count > 0 {
                assert(r is Err);
            }
        }
        r
    }

    /// Metadata of a database with no columns.
    pub fn new_empty() -> (r: Result<DbMetadata, std::io::Error>)
        ensures
            r matches Ok(m) && m.wf() && m@ == (FfpMetadataView {
                magic_word: MAGIC_WORD,
                col_count: 0,
                col_files_count: Seq::empty(),
                col_types: Seq::empty(),
                col_names: Seq::empty(),
                col_files_paths: Seq::empty(),
            }),
    {
        let r = DbMetadata::new(Vec::new(), Vec::new());
        proof {
            assert(string_seq_view(Seq::<String>::empty()) =~= Seq::empty());
            assert(Seq::new(0, |i: int| 1u8) =~= Seq::<u8>::empty());
            assert(first_file_paths(Seq::empty()) =~= Seq::empty());
        }
        r
    }
}

/// The texts of `strs`, each followed by a null byte.
pub open spec fn nul_terminated(strs: Seq<Seq<char>>) -> Seq<u8>
    decreases strs.len(),
{
    if strs.len() == 0 {
        Seq::empty()
    } else {
        nul_terminated(strs.drop_last()) + encode_utf8(strs.last()) + seq![0u8]
    }
}

/// The paths under `name` (the first entry with that name).
pub open spec fn paths_of(paths: Seq<(Seq<char>, Seq<Seq<char>>)>, name: Seq<char>) -> Seq<Seq<char>> {
    paths[choose|j: int| 0 <= j < paths.len() && #[trigger] paths[j].0 == name].1
}

/// The paths of each column in turn, each followed by a null byte.
pub open spec fn all_paths_bytes(names: Seq<Seq<char>>, paths: Seq<(Seq<char>, Seq<Seq<char>>)>) -> Seq<u8>
    decreases names.len(),
{
    if names.len() == 0 {
        Seq::empty()
    } else {
        all_paths_bytes(names.drop_last(), paths) + nul_terminated(paths_of(paths, names.last()))
    }
}

/// The bytes of a metadata file: magic word and column count (big-endian),
/// the files counts, the types, the names and then the paths of each column
/// in the order of the names, each text followed by a null byte.
pub open spec fn metadata_file_bytes(m: FfpMetadataView) -> Seq<u8> {
    u32_be_bytes(m.magic_word) + u16_be_bytes(m.col_count) + m.col_files_count + m.col_types + nul_terminated(
        m.col_names,
    ) + all_paths_bytes(m.col_names, m.col_files_paths)
}

fn push_nul_terminated(out: &mut Vec<u8>, strs: &Vec<String>)
    ensures
        final(out)@ == old(out)@ + nul_terminated(string_seq_view(strs@)),
{
    let ghost sv = string_seq_view(strs@);
    let mut i: usize = 0;
    while i < strs.len()
        invariant
            sv == string_seq_view(strs@),
            i <= strs@.len(),
            out@ == old(out)@ + nul_terminated(sv.take(i as int)),
        decreases strs@.len() - i,
    {
        let mut b = vstd::slice::slice_to_vec(strs[i].as_str().as_bytes());
        out.append(&mut b);
        out.push(0u8);
        proof {
            assert(sv.take(i + 1).drop_last() =~= sv.take(i as int));
            assert(out@ =~= old(out)@ + nul_terminated(sv.take(i as int)) + encode_utf8(sv[i as int]) + seq![0u8]);
        }
        i = i + 1;
    }
    assert(sv.take(strs@.len() as int) =~= sv);
}

impl DbMetadata {
    /// Adds `file_path` as the last file of column `col_name` and counts one
    /// more file for it; an unknown column is an error.
    pub fn append_new_file_path(&mut self, col_name: &String, file_path: String) -> (r: Result<(), std::io::Error>)
        requires
            old(self).wf(),
            forall|i: int| 0 <= i < old(self)@.col_names.len() && old(self)@.col_names[i] == col_name@ ==> old(self)@.col_files_count[i] < 255,
        ensures
            final(self).wf(),
            r is Ok <==> has_key(old(self)@.col_files_paths, col_name@),
            r is Err ==> *final(self) == *old(self),
            r is Ok ==> exists|i: int, j: int|
                0 <= i < old(self)@.col_names.len() && 0 <= j < old(self)@.col_files_paths.len()
                && old(self)@.col_names[i] == col_name@ && old(self)@.col_files_paths[j].0 == col_name@
                && final(self)@ == (FfpMetadataView {
                    col_files_count: old(self)@.col_files_count.update(i, (old(self)@.col_files_count[i] + 1) as u8),
                    col_files_paths: old(self)@.col_files_paths.update(
                        j,
                        (col_name@, old(self)@.col_files_paths[j].1.push(file_path@)),
                    ),
                    ..old(self)@
                }),
    {
        let ghost names = string_seq_view(self.col_names@);
        match self.col_files_paths.index_of(col_name.as_str()) {
            None => {
                proof {
                    if has_key(paths_view(self.col_files_paths@), col_name@) {
                        let j = choose|j: int| 0 <= j < self.col_files_paths@.len() && #[trigger] paths_view(self.col_files_paths@)[j].0 == col_name@;
                        assert(self.col_files_paths@[j].0 == col_name@);
                    }
                }
                Err(io_other_err_wrapper("col_name is not present in db_metadata"))
            },
            Some(j) => {
                assert(paths_view(self.col_files_paths@)[j as int].0 == col_name@);
                assert(has_key(old(self)@.col_files_paths, col_name@));
                // a key of the paths is one of the names
                let ip = self.col_names_idxs.index_of(col_name.as_str());
                proof {
                    if ip is None {
                        let jj = j as int;
                        assert(paths_view(self.col_files_paths@)[jj].0 == col_name@);
                        // every name has a key; keys and names are equally many and distinct
                        assert forall|a: int, b: int| 0 <= a < b < self.col_files_paths@.len() implies self.col_files_paths@[a].0
                            != self.col_files_paths@[b].0 by {
                            if self.col_files_paths@[a].0 == self.col_files_paths@[b].0 {
                                self.col_files_paths.lemma_names_unique(a, b);
                            }
                        }
                        lemma_keys_are_names(names, self.col_files_paths@, jj);
                        let i = choose|i: int| 0 <= i < names.len() && names[i] == col_name@;
                        assert(self.col_names_idxs@[i].0 == names[i]);
                    }
                }
                let i: usize = match ip {
                    Some(p) => *self.col_names_idxs.entry_at(p).1,
                    None => { return Err(io_other_err_wrapper("col_name is not present in db_metadata")); },
                };
                proof {
                    assert(self.col_names_idxs@[ip->0 as int] == (names[ip->0 as int], ip->0));
                    assert(i == ip->0);
                    assert(names[i as int] == col_name@);
                    assert(old(self)@.col_names[i as int] == col_name@);
                    assert(self.col_files_count@[i as int] < 255);
                }
                let ghost old_view = self@;
                let ghost old_paths = self.col_files_paths@;
                let v = self.col_files_paths.value_mut_at(j);
                v.push(file_path);
                let c = self.col_files_count[i];
                self.col_files_count.set(i, c + 1);
                proof {
                    assert(string_seq_view(self.col_files_paths@[j as int].1@) =~= string_seq_view(old_paths[j as int].1@).push(file_path@));
                    assert(paths_view(self.col_files_paths@) =~= old_view.col_files_paths.update(
                        j as int,
                        (col_name@, old_view.col_files_paths[j as int].1.push(file_path@)),
                    ));
                    assert forall|k: int| 0 <= k < self.col_count implies has_key(self.col_files_paths@, #[trigger] string_seq_view(self.col_names@)[k]) by {
                        assert(has_key(old_paths, names[k]));
                        let m = choose|m: int| 0 <= m < old_paths.len() && #[trigger] old_paths[m].0 == names[k];
                        assert(self.col_files_paths@[m].0 == names[k]);
                    }
                }
                Ok(())
            },
        }
    }

    /// Number of columns.
    pub fn col_count(&self) -> (r: u16)
        ensures
            r == self@.col_count,
    {
        self.col_count
    }

    /// Number of files of each column.
    pub fn col_files_count(&self) -> (r: &Vec<u8>)
        ensures
            r@ == self@.col_files_count,
    {
        &self.col_files_count
    }

    /// Type byte of each column.
    pub fn col_types(&self) -> (r: &Vec<u8>)
        ensures
            r@ == self@.col_types,
    {
        &self.col_types
    }

    /// Name of each column.
    pub fn col_names(&self) -> (r: &Vec<String>)
        ensures
            string_seq_view(r@) == self@.col_names,
    {
        &self.col_names
    }

    /// File paths by column name.
    pub fn col_files_paths(&self) -> (r: &NameMap<Vec<String>>)
        ensures
            paths_view(r@) == self@.col_files_paths,
    {
        &self.col_files_paths
    }

    /// Place of each column name.
    pub fn col_names_idxs(&self) -> (r: &NameMap<usize>)
        requires
            self.wf(),
        ensures
            r@ == names_with_places(self@.col_names),
    {
        &self.col_names_idxs
    }

    /// The bytes that are saved as the metadata file (see
    /// [`metadata_file_bytes`]).
    pub fn to_file_bytes(&self) -> (r: Vec<u8>)
        requires
            self.wf(),
        ensures
            r@ == metadata_file_bytes(self@),
    {
        let ghost names = string_seq_view(self.col_names@);
        let ghost paths = paths_view(self.col_files_paths@);
        let mut out: Vec<u8> = Vec::new();
        push_be_u32(&mut out, self.magic_word);
        push_be_u16(&mut out, self.col_count);
        let mut fc = self.col_files_count.clone();
        out.append(&mut fc);
        let mut ct = self.col_types.clone();
        out.append(&mut ct);
        push_nul_terminated(&mut out, &self.col_names);
        let ghost head = out@;
        proof {
            assert(head =~= u32_be_bytes(self.magic_word) + u16_be_bytes(self.col_count) + self.col_files_count@
                + self.col_types@ + nul_terminated(names));
        }
        let mut i: usize = 0;
        while i < self.col_names.len()
            invariant
                self.wf(),
                names == string_seq_view(self.col_names@),
                paths == paths_view(self.col_files_paths@),
                i <= self.col_names@.len(),
                out@ == head + all_paths_bytes(names.take(i as int), paths),
            decreases self.col_names@.len() - i,
        {
            let j = match self.col_files_paths.index_of(self.col_names[i].as_str()) {
                Some(j) => j,
                None => {
                    proof {
                        assert(has_key(self.col_files_paths@, names[i as int]));
                        let k = choose|k: int| 0 <= k < self.col_files_paths@.len() && #[trigger] self.col_files_paths@[k].0 == names[i as int];
                        assert(false);
                    }
                    0
                },
            };
            let (_, ps) = self.col_files_paths.entry_at(j);
            push_nul_terminated(&mut out, ps);
            proof {
                let c = choose|k: int| 0 <= k < paths.len() && #[trigger] paths[k].0 == names[i as int];
                assert(paths[j as int].0 == names[i as int]);
                self.col_files_paths.lemma_names_unique(c, j as int);
                assert(paths_of(paths, names[i as int]) == string_seq_view(ps@));
                assert(names.take(i + 1).drop_last() =~= names.take(i as int));
                assert(out@ =~= head + all_paths_bytes(names.take(i + 1), paths));
            }
            i = i + 1;
        }
        assert(names.take(self.col_names@.len() as int) =~= names);
        out
    }
}

/// Where every name has an entry, the names and entries are equally many
/// and the entries' names are distinct, every entry's name is a name.
proof fn lemma_keys_are_names<T>(names: Seq<Seq<char>>, paths: Seq<(Seq<char>, T)>, j: int)
    requires
        names.len() == paths.len(),
        names.no_duplicates(),
        0 <= j < paths.len(),
        forall|i: int| 0 <= i < names.len() ==> has_key(paths, #[trigger] names[i]),
        forall|a: int, b: int| 0 <= a < b < paths.len() ==> paths[a].0 != paths[b].0,
    ensures
        exists|i: int| 0 <= i < names.len() && names[i] == paths[j].0,
{
    let keys = paths.map_values(|e: (Seq<char>, T)| e.0);
    let f = |i: int| choose|k: int| 0 <= k < paths.len() && #[trigger] paths[k].0 == names[i];
    if !(exists|i: int| 0 <= i < names.len() && names[i] == paths[j].0) {
        // the names map injectively into the keys other than the j-th
        let s = names.to_set();
        let ks = keys.to_set().remove(paths[j].0);
        names.unique_seq_to_set();
        assert(keys.no_duplicates()) by {
            assert forall|a: int, b: int| 0 <= a < keys.len() && 0 <= b < keys.len() && a != b implies keys[a]
                != keys[b] by {
                if a < b {
                } else {
                }
            }
        }
        keys.unique_seq_to_set();
        assert(s.subset_of(ks)) by {
            assert forall|x: Seq<char>| s.contains(x) implies ks.contains(x) by {
                let i = choose|i: int| 0 <= i < names.len() && names[i] == x;
                assert(has_key(paths, names[i]));
                let k = choose|k: int| 0 <= k < paths.len() && #[trigger] paths[k].0 == names[i];
                assert(keys[k] == x);
                assert(x != paths[j].0);
            }
        }
        assert(keys.to_set().contains(paths[j].0)) by {
            assert(keys[j] == paths[j].0);
        }
        vstd::set_lib::lemma_len_subset(s, ks);
        assert(false);
    }
}

/// Bytes of the magic word and the column count at the start of the file.
pub const METADATA_INIT_STAGE_SIZE: usize = 6;
/// Where the files counts start.
pub const AFTER_INIT_STAGE_BUFF_IDX: usize = 6;
/// Size of the buffer the metadata file is read into.
pub const BUFF_SIZE: usize = 65535;

/// The parts of a metadata file, in the order they are read.
#[derive(PartialEq, Eq, Structural, Clone, Copy, Debug)]
pub enum ReadStages {
    /// Magic word and column count (always the first six bytes).
    InitStage,
    /// One byte per column: its number of files.
    FilesCountStage,
    /// One byte per column: its type.
    ColTypesStage,
    /// One null-terminated name per column.
    ColNameStage,
    /// The null-terminated paths of each column's files.
    FilePathStage,
    /// Everything was read.
    EndedReading,
}

/// How a run over the bytes of one part ended.
pub enum StageStop {
    /// The part was read whole.
    Finished,
    /// The valid bytes ran out first.
    NeedData,
    /// A byte was refused.
    Failed,
}

/// The part after a byte part.
pub open spec fn next_u8_stage(s: ReadStages) -> Option<ReadStages> {
    match s {
        ReadStages::FilesCountStage => Some(ReadStages::ColTypesStage),
        ReadStages::ColTypesStage => Some(ReadStages::ColNameStage),
        _ => None,
    }
}

/// The part after a text part.
pub open spec fn next_str_stage(s: ReadStages) -> Option<ReadStages> {
    match s {
        ReadStages::ColNameStage => Some(ReadStages::FilePathStage),
        ReadStages::FilePathStage => Some(ReadStages::EndedReading),
        _ => None,
    }
}

/// A files count of 0, or a type above 1.
pub open spec fn u8_refused(s: ReadStages, v: u8) -> bool {
    (s == ReadStages::FilesCountStage && v == 0) || (s == ReadStages::ColTypesStage && v > 1)
}

/// Reading the bytes of a byte part from `buf[idx..end]` until `count`
/// values are read: how it stops, where, how many values are read by then
/// and the values.
pub open spec fn u8_stage_run(
    idx: int,
    end: int,
    buf: Seq<u8>,
    progress: int,
    count: int,
    res: Seq<u8>,
    stage: ReadStages,
) -> (StageStop, int, int, Seq<u8>)
    decreases count - progress,
{
    if progress >= count {
        (StageStop::Finished, idx, progress, res)
    } else if idx >= end {
        (StageStop::NeedData, idx, progress, res)
    } else if u8_refused(stage, buf[idx]) {
        (StageStop::Failed, idx, progress, res)
    } else {
        u8_stage_run(idx + 1, end, buf, progress + 1, count, res.push(buf[idx]), stage)
    }
}

/// Reading null-terminated texts from `buf[idx..end]` onto the texts
/// `res[progress..count]`: how it stops, where, how many texts are whole
/// by then and the texts.
pub open spec fn str_stage_run(
    idx: int,
    end: int,
    buf: Seq<u8>,
    progress: int,
    count: int,
    res: Seq<Seq<char>>,
) -> (StageStop, int, int, Seq<Seq<char>>)
    decreases count - progress,
{
    if progress >= count {
        (StageStop::Finished, idx, progress, res)
    } else {
        let (stop, i2, s2) = read_str_run(idx, end, buf, res[progress], Some(MAX_COL_NAME_LEN as nat));
        let res2 = res.update(progress, s2);
        match stop {
            ReadStrStop::Terminated => str_stage_run(i2, end, buf, progress + 1, count, res2),
            ReadStrStop::OutOfData => (StageStop::NeedData, i2, progress, res2),
            _ => (StageStop::Failed, i2, progress, res2),
        }
    }
}

/// The texts of each list.
pub open spec fn nested_view(v: Seq<Vec<String>>) -> Seq<Seq<Seq<char>>> {
    v.map_values(|x: Vec<String>| string_seq_view(x@))
}

/// Reading the paths of the columns `col..count` in turn, each column with
/// as many paths as its files count: how it stops, where, at which column,
/// how many of its paths are whole and the paths.
pub open spec fn paths_run(
    idx: int,
    end: int,
    buf: Seq<u8>,
    col: int,
    count: int,
    files_count: Seq<u8>,
    progress: int,
    paths: Seq<Seq<Seq<char>>>,
) -> (StageStop, int, int, int, Seq<Seq<Seq<char>>>)
    decreases count - col,
{
    if col < 0 || col >= count {
        (StageStop::Finished, idx, col, progress, paths)
    } else {
        let (st, i2, p2, r2) = str_stage_run(idx, end, buf, progress, files_count[col] as int, paths[col]);
        let paths2 = paths.update(col, r2);
        match st {
            StageStop::Finished => if col + 1 >= count {
                (StageStop::Finished, i2, col + 1, 0, paths2)
            } else {
                paths_run(i2, end, buf, col + 1, count, files_count, 0, paths2)
            },
            StageStop::NeedData => (StageStop::NeedData, i2, col, p2, paths2),
            StageStop::Failed => (StageStop::Failed, i2, col, p2, paths2),
        }
    }
}

/// Reads the magic word and the column count from the first six bytes. Fewer
/// valid bytes, or a wrong magic word, is an error; the magic word read is
/// kept either way.
pub fn read_metadata_init_stage(
    bytes_read: usize,
    buf: &[u8],
    magic_word: &mut u32,
    col_count: &mut u16,
) -> (r: Result<ReadStages, std::io::Error>)
    requires
        bytes_read <= buf@.len(),
    ensures
        bytes_read < METADATA_INIT_STAGE_SIZE ==> r is Err && *final(magic_word) == *old(magic_word)
            && *final(col_count) == *old(col_count),
        bytes_read >= METADATA_INIT_STAGE_SIZE ==> *final(magic_word) == be_u32_at(buf@, 0),
        bytes_read >= METADATA_INIT_STAGE_SIZE && be_u32_at(buf@, 0) != MAGIC_WORD ==> r is Err && *final(col_count)
            == *old(col_count),
        bytes_read >= METADATA_INIT_STAGE_SIZE && be_u32_at(buf@, 0) == MAGIC_WORD ==> (r matches Ok(s) && s
            == ReadStages::FilesCountStage) && *final(col_count) == be_u16_at(buf@, 4),
{
    if bytes_read < METADATA_INIT_STAGE_SIZE {
        return Err(io_other_err_wrapper("Metadata file has to little data - Init stage"));
    }
    *magic_word = read_be_u32(buf, 0);
    if *magic_word != MAGIC_WORD {
        return Err(io_other_err_wrapper("Magic word at the begginnig of metadata file is incorrect"));
    }
    *col_count = read_be_u16(buf, 4);
    Ok(ReadStages::FilesCountStage)
}

/// Reads up to `col_count` bytes of a byte part (see [`u8_stage_run`]). Once
/// the part is whole, the progress goes back to 0 and the next part is
/// returned; when the bytes run out, the same part; a refused byte, or a
/// part that is not a byte part, is an error.
pub fn read_metadata_u8_stage(
    bytes_read: usize,
    buf: &[u8],
    col_count: u16,
    curr_buf_idx: &mut usize,
    progress_idx: &mut usize,
    res: &mut Vec<u8>,
    stage: ReadStages,
) -> (r: Result<ReadStages, std::io::Error>)
    requires
        bytes_read <= buf@.len(),
    ensures
        ({
            let (stop, i2, p2, r2) = u8_stage_run(
                *old(curr_buf_idx) as int,
                bytes_read as int,
                buf@,
                *old(progress_idx) as int,
                col_count as int,
                old(res)@,
                stage,
            );
            &&& *final(curr_buf_idx) == i2
            &&& final(res)@ == r2
            &&& match stop {
                StageStop::Finished => *final(progress_idx) == 0 && match next_u8_stage(stage) {
                    Some(s) => r matches Ok(t) && t == s,
                    None => r is Err,
                },
                StageStop::NeedData => *final(progress_idx) == p2 && (r matches Ok(t) && t == stage),
                StageStop::Failed => *final(progress_idx) == p2 && r is Err,
            }
        }),
{
    let count = col_count as usize;
    while *progress_idx < count
        invariant
            bytes_read <= buf@.len(),
            count == col_count,
            u8_stage_run(*curr_buf_idx as int, bytes_read as int, buf@, *progress_idx as int, count as int, res@, stage)
                == u8_stage_run(
                *old(curr_buf_idx) as int,
                bytes_read as int,
                buf@,
                *old(progress_idx) as int,
                col_count as int,
                old(res)@,
                stage,
            ),
        decreases count - *progress_idx,
    {
        if *curr_buf_idx >= bytes_read {
            return Ok(stage);
        }
        let val = buf[*curr_buf_idx];
        if stage == ReadStages::FilesCountStage && val == 0 {
            return Err(
                io_other_err_wrapper(
                    "File count cannot be 0, if column exists there must be at least 1 file for it",
                ),
            );
        } else if stage == ReadStages::ColTypesStage && val > 1 {
            return Err(io_other_err_wrapper("Column type can be either 1-String or 0-i64"));
        }
        res.push(val);
        *curr_buf_idx = *curr_buf_idx + 1;
        *progress_idx = *progress_idx + 1;
    }
    *progress_idx = 0;
    if stage == ReadStages::FilesCountStage {
        Ok(ReadStages::ColTypesStage)
    } else if stage == ReadStages::ColTypesStage {
        Ok(ReadStages::ColNameStage)
    } else {
        Err(io_other_err_wrapper("read_metadata_u8_stage got unsopported stage"))
    }
}

/// Reads texts of a text part onto `res[*progress_idx..col_count]` (see
/// [`str_stage_run`]; each text at most [`MAX_COL_NAME_LEN`] bytes). Once
/// the part is whole, the progress goes back to 0 and the next part is
/// returned; when the bytes run out, the same part; a refused byte, a text
/// too long, or a part that is not a text part, is an error.
pub fn read_metadata_str_stage(
    bytes_read: usize,
    buf: &[u8],
    col_count: u16,
    curr_buf_idx: &mut usize,
    progress_idx: &mut usize,
    res: &mut Vec<String>,
    stage: ReadStages,
) -> (r: Result<ReadStages, std::io::Error>)
    requires
        bytes_read <= buf@.len(),
        *old(progress_idx) >= col_count || col_count <= old(res)@.len(),
    ensures
        ({
            let (stop, i2, p2, r2) = str_stage_run(
                *old(curr_buf_idx) as int,
                bytes_read as int,
                buf@,
                *old(progress_idx) as int,
                col_count as int,
                string_seq_view(old(res)@),
            );
            &&& *final(curr_buf_idx) == i2
            &&& string_seq_view(final(res)@) == r2
            &&& final(res)@.len() == old(res)@.len()
            &&& match stop {
                StageStop::Finished => *final(progress_idx) == 0 && match next_str_stage(stage) {
                    Some(s) => r matches Ok(t) && t == s,
                    None => r is Err,
                },
                StageStop::NeedData => *final(progress_idx) == p2 && (r matches Ok(t) && t == stage),
                StageStop::Failed => *final(progress_idx) == p2 && r is Err,
            }
        }),
{
    let count = col_count as usize;
    while *progress_idx < count
        invariant
            bytes_read <= buf@.len(),
            count == col_count,
            *progress_idx >= count || count <= res@.len(),
            res@.len() == old(res)@.len(),
            str_stage_run(
                *curr_buf_idx as int,
                bytes_read as int,
                buf@,
                *progress_idx as int,
                count as int,
                string_seq_view(res@),
            ) == str_stage_run(
                *old(curr_buf_idx) as int,
                bytes_read as int,
                buf@,
                *old(progress_idx) as int,
                col_count as int,
                string_seq_view(old(res)@),
            ),
        decreases count - *progress_idx,
    {
        let p = *progress_idx;
        let ghost before = string_seq_view(res@);
        let mut s = res[p].clone();
        let read = read_string_from_buf(curr_buf_idx, bytes_read, buf, &mut s, StrLenCheckType::ColNameLenCheck);
        res.set(p, s);
        proof {
            assert(string_seq_view(res@) =~= before.update(p as int, s@));
        }
        match read {
            Err(e) => {
                return Err(e);
            },
            Ok(false) => {
                return Ok(stage);
            },
            Ok(true) => {},
        }
        *progress_idx = p + 1;
    }
    *progress_idx = 0;
    if stage == ReadStages::ColNameStage {
        Ok(ReadStages::FilePathStage)
    } else if stage == ReadStages::FilePathStage {
        Ok(ReadStages::EndedReading)
    } else {
        Err(io_other_err_wrapper("DbMetadata - read_metadata_str_stage got unsopported stage"))
    }
}

/// Reads the paths of the columns from `*curr_col_idx` on (see
/// [`paths_run`]): `Ok(EndedReading)` once the last column's paths are
/// whole, `Ok(FilePathStage)` when the bytes run out first, an error where
/// a byte or a path is refused.
pub fn read_file_paths(
    curr_buf_idx: &mut usize,
    progress_idx: &mut usize,
    curr_col_idx: &mut usize,
    curr_stage: ReadStages,
    bytes_read: usize,
    col_count: usize,
    buf: &[u8],
    col_files_count: &Vec<u8>,
    col_paths: &mut Vec<Vec<String>>,
) -> (r: Result<ReadStages, std::io::Error>)
    requires
        bytes_read <= buf@.len(),
        curr_stage == ReadStages::FilePathStage,
        *old(curr_col_idx) < col_count,
        col_count <= col_files_count@.len(),
        col_count <= old(col_paths)@.len(),
        forall|c: int| *old(curr_col_idx) <= c < col_count ==> col_files_count@[c] <= #[trigger] old(col_paths)@[c]@.len(),
    ensures
        ({
            let (st, i2, c2, p2, r2) = paths_run(
                *old(curr_buf_idx) as int,
                bytes_read as int,
                buf@,
                *old(curr_col_idx) as int,
                col_count as int,
                col_files_count@,
                *old(progress_idx) as int,
                nested_view(old(col_paths)@),
            );
            &&& *final(curr_buf_idx) == i2
            &&& *final(curr_col_idx) == c2
            &&& *final(progress_idx) == p2
            &&& nested_view(final(col_paths)@) == r2
            &&& final(col_paths)@.len() == old(col_paths)@.len()
            &&& match st {
                StageStop::Finished => r matches Ok(s) && s == ReadStages::EndedReading,
                StageStop::NeedData => r matches Ok(s) && s == ReadStages::FilePathStage,
                StageStop::Failed => r is Err,
            }
        }),
{
    let ghost target = paths_run(
        *old(curr_buf_idx) as int,
        bytes_read as int,
        buf@,
        *old(curr_col_idx) as int,
        col_count as int,
        col_files_count@,
        *old(progress_idx) as int,
        nested_view(old(col_paths)@),
    );
    loop
        invariant
            target == paths_run(
                *old(curr_buf_idx) as int,
                bytes_read as int,
                buf@,
                *old(curr_col_idx) as int,
                col_count as int,
                col_files_count@,
                *old(progress_idx) as int,
                nested_view(old(col_paths)@),
            ),
            bytes_read <= buf@.len(),
            *curr_col_idx < col_count,
            col_count <= col_files_count@.len(),
            col_paths@.len() == old(col_paths)@.len(),
            col_count <= col_paths@.len(),
            forall|c: int| *curr_col_idx <= c < col_count ==> col_files_count@[c] <= #[trigger] col_paths@[c]@.len(),
            paths_run(
                *curr_buf_idx as int,
                bytes_read as int,
                buf@,
                *curr_col_idx as int,
                col_count as int,
                col_files_count@,
                *progress_idx as int,
                nested_view(col_paths@),
            ) == target,
        decreases col_count - *curr_col_idx,
    {
        let c = *curr_col_idx;
        let file_count = col_files_count[c] as u16;
        let ghost before = nested_view(col_paths@);
        let ghost sr = str_stage_run(
            *curr_buf_idx as int,
            bytes_read as int,
            buf@,
            *progress_idx as int,
            col_files_count@[c as int] as int,
            before[c as int],
        );
        let ghost pr = paths_run(
            *curr_buf_idx as int,
            bytes_read as int,
            buf@,
            c as int,
            col_count as int,
            col_files_count@,
            *progress_idx as int,
            before,
        );
        let mut v: Vec<String> = Vec::new();
        std::mem::swap(&mut v, &mut col_paths[c]);
        assert(string_seq_view(v@) == before[c as int]);
        let read = read_metadata_str_stage(
            bytes_read,
            buf,
            file_count,
            curr_buf_idx,
            progress_idx,
            &mut v,
            ReadStages::FilePathStage,
        );
        col_paths.set(c, v);
        proof {
            assert(nested_view(col_paths@) =~= before.update(c as int, string_seq_view(v@)));
            assert(sr.3 == string_seq_view(v@));
            if sr.0 is Failed {
                assert(pr == (StageStop::Failed, sr.1, c as int, sr.2, before.update(c as int, sr.3)));
            }
            if sr.0 is NeedData {
                assert(pr == (StageStop::NeedData, sr.1, c as int, sr.2, before.update(c as int, sr.3)));
            }
            if sr.0 is Finished && c + 1 >= col_count {
                assert(pr == (StageStop::Finished, sr.1, c + 1, 0int, before.update(c as int, sr.3)));
            }
            if sr.0 is Finished && c + 1 < col_count {
                assert(pr == paths_run(sr.1, bytes_read as int, buf@, c + 1, col_count as int, col_files_count@, 0, before.update(c as int, sr.3)));
            }
        }
        match read {
            Err(e) => {
                return Err(e);
            },
            Ok(s) => {
                if s == ReadStages::EndedReading {
                    *curr_col_idx = c + 1;
                    if *curr_col_idx >= col_count {
                        return Ok(s);
                    }
                } else {
                    return Ok(s);
                }
            },
        }
    }
}

/// Puts `col_count` empty names after `col_names`, to be read into.
pub fn init_col_names(col_names: &mut Vec<String>, col_count: u16)
    ensures
        string_seq_view(final(col_names)@) == string_seq_view(old(col_names)@) + Seq::new(
            col_count as nat,
            |i: int| Seq::<char>::empty(),
        ),
        final(col_names)@.len() == old(col_names)@.len() + col_count,
{
    let mut i: u16 = 0;
    while i < col_count
        invariant
            i <= col_count,
            string_seq_view(col_names@) == string_seq_view(old(col_names)@) + Seq::new(
                i as nat,
                |k: int| Seq::<char>::empty(),
            ),
            col_names@.len() == old(col_names)@.len() + i,
        decreases col_count - i,
    {
        let ghost prev = string_seq_view(col_names@);
        col_names.push(String::new());
        proof {
            assert(string_seq_view(col_names@) =~= prev.push(Seq::<char>::empty()));
            assert(string_seq_view(col_names@) =~= string_seq_view(old(col_names)@) + Seq::new(
                (i + 1) as nat,
                |k: int| Seq::<char>::empty(),
            ));
        }
        i = i + 1;
    }
}

/// The empty paths of each column, as many as its files count.
pub open spec fn empty_paths(files_count: Seq<u8>, n: nat) -> Seq<Seq<Seq<char>>> {
    Seq::new(n, |c: int| Seq::new(files_count[c] as nat, |k: int| Seq::<char>::empty()))
}

/// Puts, for each column, as many empty paths as its files count after
/// `col_paths`, to be read into.
pub fn init_files_paths(col_names: &Vec<String>, col_paths: &mut Vec<Vec<String>>, col_files_count: &Vec<u8>)
    requires
        col_names@.len() <= col_files_count@.len(),
    ensures
        nested_view(final(col_paths)@) == nested_view(old(col_paths)@) + empty_paths(
            col_files_count@,
            col_names@.len(),
        ),
        final(col_paths)@.len() == old(col_paths)@.len() + col_names@.len(),
{
    let mut id: usize = 0;
    while id < col_names.len()
        invariant
            col_names@.len() <= col_files_count@.len(),
            id <= col_names@.len(),
            nested_view(col_paths@) == nested_view(old(col_paths)@) + empty_paths(col_files_count@, id as nat),
            col_paths@.len() == old(col_paths)@.len() + id,
        decreases col_names@.len() - id,
    {
        let n = col_files_count[id];
        let mut v: Vec<String> = Vec::new();
        let mut k: u8 = 0;
        while k < n
            invariant
                k <= n,
                string_seq_view(v@) == Seq::new(k as nat, |j: int| Seq::<char>::empty()),
            decreases n - k,
        {
            let ghost prev = string_seq_view(v@);
            v.push(String::new());
            proof {
                assert(string_seq_view(v@) =~= prev.push(Seq::<char>::empty()));
                assert(string_seq_view(v@) =~= Seq::new((k + 1) as nat, |j: int| Seq::<char>::empty()));
            }
            k = k + 1;
        }
        let ghost prev = nested_view(col_paths@);
        col_paths.push(v);
        proof {
            assert(nested_view(col_paths@) =~= prev.push(string_seq_view(v@)));
            assert(nested_view(col_paths@) =~= nested_view(old(col_paths)@) + empty_paths(
                col_files_count@,
                (id + 1) as nat,
            ));
        }
        id = id + 1;
    }
}

/// Whether reading stops here: with no bytes read, once everything was
/// read (`Ok(true)`), else an error; with bytes read after everything was
/// read, an error; else `Ok(false)`.
pub fn check_if_break_loop(bytes_read: usize, curr_stage: &ReadStages) -> (r: Result<bool, std::io::Error>)
    ensures
        bytes_read == 0 && *curr_stage == ReadStages::EndedReading ==> (r matches Ok(b) && b),
        bytes_read == 0 && *curr_stage != ReadStages::EndedReading ==> r is Err,
        bytes_read > 0 && *curr_stage == ReadStages::EndedReading ==> r is Err,
        bytes_read > 0 && *curr_stage != ReadStages::EndedReading ==> (r matches Ok(b) && !b),
{
    if bytes_read == 0 {
        if *curr_stage != ReadStages::EndedReading {
            return Err(io_other_err_wrapper("There was to little data in the file"));
        }
        return Ok(true);
    } else if *curr_stage == ReadStages::EndedReading {
        return Err(io_other_err_wrapper("Stage is EndedReading but there is still data to be read in buffer"));
    }
    Ok(false)
}

/// Reading a byte part keeps one value per step.
proof fn lemma_u8_run(idx: int, end: int, buf: Seq<u8>, progress: int, count: int, res: Seq<u8>, stage: ReadStages)
    requires
        0 <= progress <= count,
        res.len() == progress,
    ensures
        ({
            let (st, i2, p2, r2) = u8_stage_run(idx, end, buf, progress, count, res, stage);
            &&& r2.len() == p2
            &&& progress <= p2 <= count
            &&& st is Finished ==> p2 == count
        }),
    decreases count - progress,
{
    if progress < count && idx < end && !u8_refused(stage, buf[idx]) {
        lemma_u8_run(idx + 1, end, buf, progress + 1, count, res.push(buf[idx]), stage);
    }
}

/// Reading a text part keeps the number of texts.
proof fn lemma_str_run_len(idx: int, end: int, buf: Seq<u8>, progress: int, count: int, res: Seq<Seq<char>>)
    requires
        0 <= progress,
        count <= res.len(),
    ensures
        str_stage_run(idx, end, buf, progress, count, res).3.len() == res.len(),
    decreases count - progress,
{
    if progress < count {
        let (stop, i2, s2) = read_str_run(idx, end, buf, res[progress], Some(MAX_COL_NAME_LEN as nat));
        if stop is Terminated {
            lemma_str_run_len(i2, end, buf, progress + 1, count, res.update(progress, s2));
        }
    }
}

/// Reading the paths keeps each column's number of paths, and stops short
/// at a column that exists.
proof fn lemma_paths_run(
    idx: int,
    end: int,
    buf: Seq<u8>,
    col: int,
    count: int,
    files_count: Seq<u8>,
    progress: int,
    paths: Seq<Seq<Seq<char>>>,
)
    requires
        0 <= col < count,
        0 <= progress,
        count <= files_count.len(),
        paths.len() == count,
        forall|c: int| 0 <= c < count ==> (#[trigger] paths[c]).len() == files_count[c],
    ensures
        ({
            let (st, i2, c2, p2, r2) = paths_run(idx, end, buf, col, count, files_count, progress, paths);
            &&& r2.len() == count
            &&& forall|c: int| 0 <= c < count ==> (#[trigger] r2[c]).len() == files_count[c]
            &&& !(st is Finished) ==> 0 <= c2 < count
        }),
    decreases count - col,
{
    let (st, i2, p2, r2) = str_stage_run(idx, end, buf, progress, files_count[col] as int, paths[col]);
    lemma_str_run_len(idx, end, buf, progress, files_count[col] as int, paths[col]);
    let paths2 = paths.update(col, r2);
    assert forall|c: int| 0 <= c < count implies (#[trigger] paths2[c]).len() == files_count[c] by {
        if c == col {
        } else {
            assert(paths2[c] == paths[c]);
        }
    }
    if st is Finished && col + 1 < count {
        lemma_paths_run(i2, end, buf, col + 1, count, files_count, 0, paths2);
    }
}

/// The state of reading a metadata file.
pub ghost struct ReaderView {
    pub stage: ReadStages,
    pub magic_word: u32,
    pub col_count: u16,
    pub files_count: Seq<u8>,
    pub types: Seq<u8>,
    pub names: Seq<Seq<char>>,
    pub paths: Seq<Seq<Seq<char>>>,
    pub progress: int,
    pub col: int,
}

/// How a chunk of the file was taken.
pub enum FeedEnd {
    /// A byte, a text, or the amount of data was refused.
    Failed,
    /// More bytes are needed.
    NeedMore,
    /// The file was read whole.
    Complete,
}

/// What the state of reading holds at each stage: one value or text per
/// column read so far, and, for the paths, one list per column as long as
/// its files count.
pub open spec fn reader_ok(v: ReaderView) -> bool {
    match v.stage {
        ReadStages::InitStage => v.files_count.len() == 0 && v.types.len() == 0 && v.names.len() == 0
            && v.paths.len() == 0 && v.progress == 0,
        ReadStages::FilesCountStage => v.col_count > 0 && v.files_count.len() == v.progress && 0 <= v.progress
            <= v.col_count && v.types.len() == 0 && v.names.len() == v.col_count && v.paths.len() == 0,
        ReadStages::ColTypesStage => v.col_count > 0 && v.files_count.len() == v.col_count && v.types.len()
            == v.progress && 0 <= v.progress <= v.col_count && v.names.len() == v.col_count && v.paths.len() == 0,
        ReadStages::ColNameStage => v.col_count > 0 && v.files_count.len() == v.col_count && v.names.len()
            == v.col_count && v.paths.len() == 0 && 0 <= v.progress,
        ReadStages::FilePathStage => v.col_count > 0 && v.files_count.len() == v.col_count && v.names.len()
            == v.col_count && v.paths.len() == v.col_count && (forall|c: int|
            0 <= c < v.col_count ==> (#[trigger] v.paths[c]).len() == v.files_count[c]) && 0 <= v.col < v.col_count
            && 0 <= v.progress,
        ReadStages::EndedReading => v.names.len() == v.col_count && v.paths.len() == v.col_count,
    }
}

/// Taking a chunk of `end` bytes: none is the end of the file, which is
/// whole only once everything was read; bytes after everything was read
/// are refused.
pub open spec fn feed_check(v: ReaderView, end: int) -> (Option<FeedEnd>, ReaderView, int) {
    if end == 0 {
        (Some(if v.stage == ReadStages::EndedReading { FeedEnd::Complete } else { FeedEnd::Failed }), v, 0)
    } else if v.stage == ReadStages::EndedReading {
        (Some(FeedEnd::Failed), v, 0)
    } else {
        (None, v, 0)
    }
}

/// The first six bytes: magic word and column count; with no columns and
/// nothing more, the file is whole; else one empty name per column.
pub open spec fn feed_init(p: (Option<FeedEnd>, ReaderView, int), end: int, buf: Seq<u8>) -> (
    Option<FeedEnd>,
    ReaderView,
    int,
) {
    let (e, v, idx) = p;
    if e is Some || v.stage != ReadStages::InitStage {
        p
    } else if end < METADATA_INIT_STAGE_SIZE {
        (Some(FeedEnd::Failed), v, idx)
    } else if be_u32_at(buf, 0) != MAGIC_WORD {
        (Some(FeedEnd::Failed), ReaderView { magic_word: be_u32_at(buf, 0), ..v }, idx)
    } else {
        let count = be_u16_at(buf, 4);
        let v2 = ReaderView { magic_word: MAGIC_WORD, col_count: count, stage: ReadStages::FilesCountStage, ..v };
        if count == 0 && end == METADATA_INIT_STAGE_SIZE {
            (Some(FeedEnd::Complete), v2, METADATA_INIT_STAGE_SIZE as int)
        } else {
            (
                None,
                ReaderView { names: v.names + Seq::new(count as nat, |i: int| Seq::<char>::empty()), ..v2 },
                METADATA_INIT_STAGE_SIZE as int,
            )
        }
    }
}

/// A byte part (files counts or types), where the state is at it.
pub open spec fn feed_u8(p: (Option<FeedEnd>, ReaderView, int), end: int, buf: Seq<u8>, s: ReadStages) -> (
    Option<FeedEnd>,
    ReaderView,
    int,
) {
    let (e, v, idx) = p;
    if e is Some || v.stage != s {
        p
    } else {
        let field = if s == ReadStages::FilesCountStage { v.files_count } else { v.types };
        let (stop, i2, p2, r2) = u8_stage_run(idx, end, buf, v.progress, v.col_count as int, field, s);
        let v2 = if s == ReadStages::FilesCountStage {
            ReaderView { files_count: r2, ..v }
        } else {
            ReaderView { types: r2, ..v }
        };
        match stop {
            StageStop::Finished => (None, ReaderView { stage: next_u8_stage(s)->0, progress: 0, ..v2 }, i2),
            StageStop::NeedData => (Some(FeedEnd::NeedMore), ReaderView { progress: p2, ..v2 }, i2),
            StageStop::Failed => (Some(FeedEnd::Failed), ReaderView { progress: p2, ..v2 }, i2),
        }
    }
}

/// The names, where the state is at them; once they are whole, one list
/// of empty paths per column, as long as its files count.
pub open spec fn feed_names(p: (Option<FeedEnd>, ReaderView, int), end: int, buf: Seq<u8>) -> (
    Option<FeedEnd>,
    ReaderView,
    int,
) {
    let (e, v, idx) = p;
    if e is Some || v.stage != ReadStages::ColNameStage {
        p
    } else {
        let (stop, i2, p2, r2) = str_stage_run(idx, end, buf, v.progress, v.col_count as int, v.names);
        let v2 = ReaderView { names: r2, ..v };
        match stop {
            StageStop::Finished => (
                None,
                ReaderView {
                    stage: ReadStages::FilePathStage,
                    progress: 0,
                    paths: v.paths + empty_paths(v.files_count, v.names.len()),
                    col: 0,
                    ..v2
                },
                i2,
            ),
            StageStop::NeedData => (Some(FeedEnd::NeedMore), ReaderView { progress: p2, ..v2 }, i2),
            StageStop::Failed => (Some(FeedEnd::Failed), ReaderView { progress: p2, ..v2 }, i2),
        }
    }
}

/// The paths, where the state is at them.
pub open spec fn feed_paths(p: (Option<FeedEnd>, ReaderView, int), end: int, buf: Seq<u8>) -> (
    Option<FeedEnd>,
    ReaderView,
    int,
) {
    let (e, v, idx) = p;
    if e is Some || v.stage != ReadStages::FilePathStage {
        p
    } else {
        let (st, i2, c2, p2, r2) = paths_run(
            idx,
            end,
            buf,
            v.col,
            v.col_count as int,
            v.files_count,
            v.progress,
            v.paths,
        );
        let v2 = ReaderView { col: c2, progress: p2, paths: r2, ..v };
        match st {
            StageStop::Finished => (Some(FeedEnd::NeedMore), ReaderView { stage: ReadStages::EndedReading, ..v2 }, i2),
            StageStop::NeedData => (Some(FeedEnd::NeedMore), v2, i2),
            StageStop::Failed => (Some(FeedEnd::Failed), v2, i2),
        }
    }
}

/// Taking one chunk of `end` bytes of the file: each part in turn, from
/// where the state is, as far as the bytes go.
pub open spec fn feed_spec(v: ReaderView, end: int, buf: Seq<u8>) -> (FeedEnd, ReaderView) {
    let p = feed_paths(
        feed_names(
            feed_u8(
                feed_u8(feed_init(feed_check(v, end), end, buf), end, buf, ReadStages::FilesCountStage),
                end,
                buf,
                ReadStages::ColTypesStage,
            ),
            end,
            buf,
        ),
        end,
        buf,
    );
    (
        match p.0 {
            Some(k) => k,
            None => FeedEnd::NeedMore,
        },
        p.1,
    )
}

/// Each name with the paths of its column.
pub open spec fn zip_paths(names: Seq<Seq<char>>, paths: Seq<Seq<Seq<char>>>) -> Seq<(Seq<char>, Seq<Seq<char>>)> {
    Seq::new(names.len(), |i: int| (names[i], paths[i]))
}

/// The metadata the parts read make, where it is sound.
pub open spec fn reader_result_ok(v: ReaderView) -> bool {
    &&& v.col_count > 0 ==> v.names.no_duplicates()
    &&& metadata_ok(v.col_count as nat, v.files_count, v.types, v.names, zip_paths(v.names, v.paths))
}

/// The state of reading before any byte.
pub open spec fn reader_start() -> ReaderView {
    ReaderView {
        stage: ReadStages::InitStage,
        magic_word: 0,
        col_count: 0,
        files_count: Seq::empty(),
        types: Seq::empty(),
        names: Seq::empty(),
        paths: Seq::empty(),
        progress: 0,
        col: 0,
    }
}

/// Reads a metadata file chunk by chunk, as the chunks come.
pub struct MetadataReader {
    stage: ReadStages,
    magic_word: u32,
    col_count: u16,
    col_files_count: Vec<u8>,
    col_types: Vec<u8>,
    col_names: Vec<String>,
    col_paths: Vec<Vec<String>>,
    progress_idx: usize,
    curr_col_idx: usize,
}

impl View for MetadataReader {
    type V = ReaderView;

    closed spec fn view(&self) -> ReaderView {
        ReaderView {
            stage: self.stage,
            magic_word: self.magic_word,
            col_count: self.col_count,
            files_count: self.col_files_count@,
            types: self.col_types@,
            names: string_seq_view(self.col_names@),
            paths: nested_view(self.col_paths@),
            progress: self.progress_idx as int,
            col: self.curr_col_idx as int,
        }
    }
}

impl MetadataReader {
    /// Nothing read yet.
    pub fn new() -> (r: MetadataReader)
        ensures
            reader_ok(r@),
            r@ == reader_start(),
    {
        let r = MetadataReader {
            stage: ReadStages::InitStage,
            magic_word: 0,
            col_count: 0,
            col_files_count: Vec::new(),
            col_types: Vec::new(),
            col_names: Vec::new(),
            col_paths: Vec::new(),
            progress_idx: 0,
            curr_col_idx: 0,
        };
        proof {
            assert(string_seq_view(r.col_names@) =~= Seq::empty());
            assert(nested_view(r.col_paths@) =~= Seq::empty());
        }
        r
    }

    /// The metadata made of what was read (see [`DbMetadata::new_all_data`]);
    /// the parts are moved out of the reader.
    fn build(&mut self) -> (r: Result<DbMetadata, std::io::Error>)
        requires
            old(self)@.names.len() == old(self)@.paths.len(),
        ensures
            r is Ok <==> reader_result_ok(old(self)@),
            r matches Ok(m) ==> m.wf() && m@ == (FfpMetadataView {
                magic_word: MAGIC_WORD,
                col_count: old(self)@.col_count,
                col_files_count: old(self)@.files_count,
                col_types: old(self)@.types,
                col_names: old(self)@.names,
                col_files_paths: zip_paths(old(self)@.names, old(self)@.paths),
            }),
    {
        let ghost v = self@;
        let mut names: Vec<String> = Vec::new();
        std::mem::swap(&mut names, &mut self.col_names);
        let mut paths: Vec<Vec<String>> = Vec::new();
        std::mem::swap(&mut paths, &mut self.col_paths);
        let mut files_count: Vec<u8> = Vec::new();
        std::mem::swap(&mut files_count, &mut self.col_files_count);
        let mut types: Vec<u8> = Vec::new();
        std::mem::swap(&mut types, &mut self.col_types);
        let mut map: NameMap<Vec<String>> = NameMap::new();
        let mut distinct_so_far: bool = true;
        let mut i: usize = 0;
        let ghost all_paths = nested_view(paths@);
        while i < names.len()
            invariant
                string_seq_view(names@) == v.names,
                v.names.len() == v.paths.len(),
                all_paths == v.paths,
                paths@.len() + i == v.paths.len(),
                nested_view(paths@) == all_paths.subrange(i as int, all_paths.len() as int),
                i <= names@.len(),
                map.wf(),
                distinct_so_far ==> v.names.take(i as int).no_duplicates(),
                distinct_so_far ==> paths_view(map@) == zip_paths(v.names.take(i as int), v.paths.take(i as int)),
                !distinct_so_far ==> !v.names.no_duplicates(),
            decreases names@.len() - i,
        {
            let ghost paths_before = paths@;
            assert(paths@.len() > 0);
            let ps = paths.remove(0);
            proof {
                assert(string_seq_view(ps@) == all_paths[i as int]) by {
                    assert(nested_view(paths_before)[0] == all_paths.subrange(i as int, all_paths.len() as int)[0]);
                }
                assert forall|k: int| 0 <= k < paths@.len() implies #[trigger] nested_view(paths@)[k]
                    == all_paths.subrange(i + 1, all_paths.len() as int)[k] by {
                    assert(paths@[k] == paths_before[k + 1]);
                    assert(nested_view(paths_before)[k + 1] == all_paths.subrange(i as int, all_paths.len() as int)[k + 1]);
                }
                assert(nested_view(paths@) =~= all_paths.subrange(i + 1, all_paths.len() as int));
            }
            let ghost before = map@;
            let seen = map.index_of(names[i].as_str());
            map.insert(names[i].clone(), ps);
            proof {
                if distinct_so_far {
                    match seen {
                        Some(j) => {
                            assert(before[j as int].0 == v.names[i as int]);
                            assert(paths_view(before)[j as int].0 == zip_paths(v.names.take(i as int), v.paths.take(i as int))[j as int].0);
                            assert(v.names[j as int] == v.names.take(i as int)[j as int]);
                            assert(!v.names.no_duplicates());
                        },
                        None => {
                            assert(!(exists|k: int| 0 <= k < before.len() && before[k].0 == names@[i as int]@));
                            assert(map@ == before.push((v.names[i as int], ps)));
                            assert forall|a: int, b: int| 0 <= a < b < i + 1 implies #[trigger] v.names.take(i + 1)[a]
                                != #[trigger] v.names.take(i + 1)[b] by {
                                if b == i {
                                    assert(before[a].0 == v.names[a]) by {
                                        assert(paths_view(before)[a].0 == zip_paths(v.names.take(i as int), v.paths.take(i as int))[a].0);
                                    }
                                } else {
                                    assert(v.names.take(i as int)[a] != v.names.take(i as int)[b]);
                                }
                            }
                            assert forall|k: int| 0 <= k < i + 1 implies #[trigger] paths_view(map@)[k]
                                == zip_paths(v.names.take(i + 1), v.paths.take(i + 1))[k] by {
                                if k < i {
                                    assert(map@[k] == before[k]);
                                    assert(paths_view(before)[k] == zip_paths(v.names.take(i as int), v.paths.take(i as int))[k]);
                                } else {
                                    assert(map@[k] == (v.names[i as int], ps));
                                }
                            }
                            assert(paths_view(map@) =~= zip_paths(v.names.take(i + 1), v.paths.take(i + 1)));
                        },
                    }
                }
            }
            if seen.is_some() {
                distinct_so_far = false;
            }
            i = i + 1;
        }
        proof {
            assert(v.names.take(names@.len() as int) =~= v.names);
            assert(v.paths.take(names@.len() as int) =~= v.paths);
        }
        let r = DbMetadata::new_all_data(self.col_count, files_count, types, names, map);
        proof {
            if !distinct_so_far && v.col_count > 0 {
                assert(r is Err);
            }
            if distinct_so_far {
                assert(paths_view(map@) == zip_paths(v.names, v.paths));
            }
        }
        r
    }

    /// Takes the next chunk: the first `bytes_read` bytes of `buf` (none at
    /// the end of the file). `Ok(None)` asks for more; `Ok(Some(m))` is the
    /// metadata of the whole file; a refused chunk is an error (see
    /// [`feed_spec`] and [`reader_result_ok`]).
    pub fn feed(&mut self, bytes_read: usize, buf: &[u8]) -> (r: Result<Option<DbMetadata>, std::io::Error>)
        requires
            reader_ok(old(self)@),
            bytes_read <= buf@.len(),
            !(old(self)@.stage == ReadStages::InitStage && bytes_read > METADATA_INIT_STAGE_SIZE && be_u32_at(buf@, 0)
                == MAGIC_WORD && be_u16_at(buf@, 4) == 0),
        ensures
            ({
                let (k, v2) = feed_spec(old(self)@, bytes_read as int, buf@);
                match k {
                    FeedEnd::Failed => r is Err,
                    FeedEnd::NeedMore => r matches Ok(None) && final(self)@ == v2 && reader_ok(v2),
                    FeedEnd::Complete => (r is Ok <==> reader_result_ok(v2)) && (r matches Ok(o) ==> o matches Some(
                        m,
                    ) && m.wf() && m@ == (FfpMetadataView {
                        magic_word: MAGIC_WORD,
                        col_count: v2.col_count,
                        col_files_count: v2.files_count,
                        col_types: v2.types,
                        col_names: v2.names,
                        col_files_paths: zip_paths(v2.names, v2.paths),
                    })),
                }
            }),
    {
        let ghost v0 = self@;
        let ghost p0 = feed_check(v0, bytes_read as int);
        match check_if_break_loop(bytes_read, &self.stage) {
            Err(e) => {
                return Err(e);
            },
            Ok(true) => {
                let m = self.build()?;
                return Ok(Some(m));
            },
            Ok(false) => {},
        }
        let mut curr_buf_idx: usize = 0;
        let ghost p1 = feed_init(p0, bytes_read as int, buf@);
        if self.stage == ReadStages::InitStage {
            let s = read_metadata_init_stage(bytes_read, buf, &mut self.magic_word, &mut self.col_count)?;
            self.stage = s;
            curr_buf_idx = AFTER_INIT_STAGE_BUFF_IDX;
            if self.col_count == 0 && bytes_read == METADATA_INIT_STAGE_SIZE {
                let m = self.build()?;
                return Ok(Some(m));
            }
            init_col_names(&mut self.col_names, self.col_count);
        }
        assert(p1.0 is None && p1.1 == self@ && p1.2 == curr_buf_idx);
        let ghost p2 = feed_u8(p1, bytes_read as int, buf@, ReadStages::FilesCountStage);
        if self.stage == ReadStages::FilesCountStage {
            proof {
                lemma_u8_run(
                    curr_buf_idx as int,
                    bytes_read as int,
                    buf@,
                    self.progress_idx as int,
                    self.col_count as int,
                    self.col_files_count@,
                    ReadStages::FilesCountStage,
                );
            }
            let s = read_metadata_u8_stage(
                bytes_read,
                buf,
                self.col_count,
                &mut curr_buf_idx,
                &mut self.progress_idx,
                &mut self.col_files_count,
                ReadStages::FilesCountStage,
            )?;
            self.stage = s;
            if s == ReadStages::FilesCountStage {
                assert(p2.0 is Some && p2.1 == self@);
                return Ok(None);
            }
        }
        assert(p2.0 is None && p2.1 == self@ && p2.2 == curr_buf_idx);
        let ghost p3 = feed_u8(p2, bytes_read as int, buf@, ReadStages::ColTypesStage);
        if self.stage == ReadStages::ColTypesStage {
            proof {
                lemma_u8_run(
                    curr_buf_idx as int,
                    bytes_read as int,
                    buf@,
                    self.progress_idx as int,
                    self.col_count as int,
                    self.col_types@,
                    ReadStages::ColTypesStage,
                );
            }
            let s = read_metadata_u8_stage(
                bytes_read,
                buf,
                self.col_count,
                &mut curr_buf_idx,
                &mut self.progress_idx,
                &mut self.col_types,
                ReadStages::ColTypesStage,
            )?;
            self.stage = s;
            if s == ReadStages::ColTypesStage {
                assert(p3.0 is Some && p3.1 == self@);
                return Ok(None);
            }
        }
        assert(p3.0 is None && p3.1 == self@ && p3.2 == curr_buf_idx);
        let ghost p4 = feed_names(p3, bytes_read as int, buf@);
        if self.stage == ReadStages::ColNameStage {
            proof {
                lemma_str_run_len(
                    curr_buf_idx as int,
                    bytes_read as int,
                    buf@,
                    self.progress_idx as int,
                    self.col_count as int,
                    string_seq_view(self.col_names@),
                );
            }
            let ghost names_before = self@.names;
            let s = read_metadata_str_stage(
                bytes_read,
                buf,
                self.col_count,
                &mut curr_buf_idx,
                &mut self.progress_idx,
                &mut self.col_names,
                ReadStages::ColNameStage,
            )?;
            self.stage = s;
            if s == ReadStages::FilePathStage {
                init_files_paths(&self.col_names, &mut self.col_paths, &self.col_files_count);
                self.curr_col_idx = 0;
            } else {
                assert(p4.0 is Some && p4.1 == self@);
                return Ok(None);
            }
        }
        assert(p4.0 is None && p4.1 == self@ && p4.2 == curr_buf_idx);
        let ghost p5 = feed_paths(p4, bytes_read as int, buf@);
        if self.stage == ReadStages::FilePathStage {
            proof {
                assert forall|c: int| 0 <= c < self.col_count implies self.col_files_count@[c] <= #[trigger] self.col_paths@[c]@.len() by {
                    assert(nested_view(self.col_paths@)[c].len() == self.col_paths@[c]@.len());
                }
                lemma_paths_run(
                    curr_buf_idx as int,
                    bytes_read as int,
                    buf@,
                    self.curr_col_idx as int,
                    self.col_count as int,
                    self.col_files_count@,
                    self.progress_idx as int,
                    nested_view(self.col_paths@),
                );
            }
            let s = read_file_paths(
                &mut curr_buf_idx,
                &mut self.progress_idx,
                &mut self.curr_col_idx,
                ReadStages::FilePathStage,
                bytes_read,
                self.col_count as usize,
                buf,
                &self.col_files_count,
                &mut self.col_paths,
            )?;
            self.stage = s;
        }
        assert(p5.1 == self@);
        Ok(None)
    }
}

} // verus!

//! Regular-expression matching through the `regex` crate.
use vstd::prelude::*;
use crate::db::storage::metadata::file_path_shape;
use crate::db::storage::string_handlers::{col_name_pattern, col_name_shape};
use crate::file_format_prep::metadata_structs::ffp_path_shape;
use crate::rest_api::routing::one_segment_after;

verus! {

/// Whether `regex::Regex::new` accepts `pattern` (a property of the pattern
/// text alone).
pub uninterp spec fn regex_compiles(pattern: Seq<char>) -> bool;

/// What `regex::Regex::is_match` answers for the regex compiled from
/// `pattern` on `haystack`: whether some match of the pattern occurs in the
/// haystack.
pub uninterp spec fn regex_is_match(pattern: Seq<char>, haystack: Seq<char>) -> bool;

/// The patterns this library matches texts against: the rule for column
/// names, the two rules for file paths, and the paths of the REST
/// interface.
pub open spec fn fixed_pattern(p: Seq<char>) -> bool {
    ||| p == col_name_pattern()
    ||| p == crate::file_format_prep::metadata_structs::file_path_pattern()
    ||| p == crate::db::constants::FILE_PATH_REGEX@
    ||| p == "^/queries$"@
    ||| p == "^/system/info$"@
    ||| p == "^/query$"@
    ||| p == "^/table$"@
    ||| p == "^/tables$"@
    ||| p == "^/query/(?P<queryId>[^/?#]*)$"@
    ||| p == "^/error/(?P<queryId>[^/?#]*)$"@
    ||| p == "^/result/(?P<queryId>[^/?#]*)$"@
    ||| p == "^/table/(?P<tableId>[^/?#]*)$"@
}

/// `b` is what each of the [`fixed_pattern`]s answers for `haystack`, as
/// the regex syntax defines it (`^` and `$` anchor at the ends of the
/// text, a class in brackets is one character of the ranges or characters
/// listed, `[^..]` one character not listed, `*` any number of repeats,
/// `?` at most one).
pub open spec fn fixed_pattern_answer(p: Seq<char>, haystack: Seq<char>, b: bool) -> bool {
    &&& p == col_name_pattern() ==> b == col_name_shape(haystack)
    &&& p == crate::file_format_prep::metadata_structs::file_path_pattern() ==> b == ffp_path_shape(haystack)
    &&& p == crate::db::constants::FILE_PATH_REGEX@ ==> b == file_path_shape(haystack)
    &&& p == "^/queries$"@ ==> b == (haystack == "/queries"@)
    &&& p == "^/system/info$"@ ==> b == (haystack == "/system/info"@)
    &&& p == "^/query$"@ ==> b == (haystack == "/query"@)
    &&& p == "^/table$"@ ==> b == (haystack == "/table"@)
    &&& p == "^/tables$"@ ==> b == (haystack == "/tables"@)
    &&& p == "^/query/(?P<queryId>[^/?#]*)$"@ ==> b == one_segment_after("/query/"@, haystack)
    &&& p == "^/error/(?P<queryId>[^/?#]*)$"@ ==> b == one_segment_after("/error/"@, haystack)
    &&& p == "^/result/(?P<queryId>[^/?#]*)$"@ ==> b == one_segment_after("/result/"@, haystack)
    &&& p == "^/table/(?P<tableId>[^/?#]*)$"@ ==> b == one_segment_after("/table/"@, haystack)
}

/// Compiles `pattern` with `regex::Regex::new`; where that succeeds, asks
/// `Regex::is_match` about `haystack`. Claimed: `None` exactly when the
/// pattern does not compile, else the answer of `is_match`, each named as a
/// property of the two texts; and, for the library's own patterns, that
/// they compile and match exactly the texts [`fixed_pattern_answer`]
/// describes (what the regex syntax documentation of the crate defines for
/// these patterns).
#[verifier::external_body]
pub(crate) fn regex_match(pattern: &str, haystack: &str) -> (r: Option<bool>)
    ensures
        r is Some <==> regex_compiles(pattern@),
        r matches Some(b) ==> b == regex_is_match(pattern@, haystack@),
        fixed_pattern(pattern@) ==> r is Some,
        r matches Some(b) ==> fixed_pattern_answer(pattern@, haystack@, b),
{
    match regex::Regex::new(pattern) {
        Ok(re) => Some(re.is_match(haystack)),
        Err(_) => None,
    }
}

} // verus!

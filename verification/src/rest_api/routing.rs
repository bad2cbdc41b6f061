//! Which operation of the REST interface a request asks for.
use vstd::prelude::*;
use crate::external::regex_api::{fixed_pattern, fixed_pattern_answer, regex_match};

verus! {

/// The methods of HTTP requests.
#[derive(Clone, Copy, Debug, PartialEq, Eq, Structural)]
pub enum HttpMethod {
    Get,
    Post,
    Put,
    Delete,
    Other,
}

/// `path` is `prefix` followed by one segment: characters other than `/`,
/// `?` and `#` (what `prefix` then `(?P<name>[^/?#]*)$` matches).
pub open spec fn one_segment_after(prefix: Seq<char>, path: Seq<char>) -> bool {
    &&& prefix.len() <= path.len()
    &&& path.subrange(0, prefix.len() as int) == prefix
    &&& forall|i: int| prefix.len() <= i < path.len() ==> #[trigger] path[i] != '/' && path[i] != '?' && path[i] != '#'
}

/// For each operation of the interface, in order, whether a request with
/// this method and path fits it: the operation's method, and its path (a
/// fixed path, or a prefix and one segment, see [`one_segment_after`]).
pub open spec fn route_fits(method: HttpMethod, path: Seq<char>) -> Seq<bool> {
    seq![
        method == HttpMethod::Get && path == "/queries"@,
        method == HttpMethod::Get && path == "/system/info"@,
        method == HttpMethod::Post && path == "/query"@,
        method == HttpMethod::Get && one_segment_after("/query/"@, path),
        method == HttpMethod::Get && one_segment_after("/error/"@, path),
        method == HttpMethod::Get && one_segment_after("/result/"@, path),
        method == HttpMethod::Put && path == "/table"@,
        method == HttpMethod::Get && path == "/tables"@,
        method == HttpMethod::Delete && one_segment_after("/table/"@, path),
        method == HttpMethod::Get && one_segment_after("/table/"@, path),
    ]
}

/// The operation chosen from the fits of the ten operations (see
/// [`route_fits`]): the first that fits.
pub open spec fn operation_from_fits(fits: Seq<bool>) -> Option<Seq<char>> {
    if fits[0] {
        Some("GetQueries"@)
    } else if fits[1] {
        Some("GetSystemInfo"@)
    } else if fits[2] {
        Some("SubmitQuery"@)
    } else if fits[3] {
        Some("GetQueryById"@)
    } else if fits[4] {
        Some("GetQueryError"@)
    } else if fits[5] {
        Some("GetQueryResult"@)
    } else if fits[6] {
        Some("CreateTable"@)
    } else if fits[7] {
        Some("GetTables"@)
    } else if fits[8] {
        Some("DeleteTable"@)
    } else if fits[9] {
        Some("GetTableById"@)
    } else {
        None
    }
}

/// The operation a method and path ask for, as the interface defines it:
/// each operation with its method and path pattern, the first that fits.
pub open spec fn operation_of(method: HttpMethod, path: Seq<char>) -> Option<Seq<char>> {
    operation_from_fits(route_fits(method, path))
}

/// Whether `path` matches `pattern`; `false` where the pattern does not
/// compile.
fn matches(pattern: &str, path: &str) -> (r: bool)
    ensures
        fixed_pattern(pattern@) ==> fixed_pattern_answer(pattern@, path@, r),
{
    match regex_match(pattern, path) {
        Some(b) => b,
        None => false,
    }
}

/// The request parser of the interface.
pub struct ApiRequestParser;

impl ApiRequestParser {
    /// The operation chosen from the fits of the ten operations, in the
    /// order of [`route_fits`].
    pub fn pick_operation(fits: &[bool]) -> (r: Option<&'static str>)
        requires
            fits@.len() == 10,
        ensures
            r is Some <==> operation_from_fits(fits@) is Some,
            r matches Some(s) ==> s@ == operation_from_fits(fits@)->0,
    {
        if fits[0] {
            Some("GetQueries")
        } else if fits[1] {
            Some("GetSystemInfo")
        } else if fits[2] {
            Some("SubmitQuery")
        } else if fits[3] {
            Some("GetQueryById")
        } else if fits[4] {
            Some("GetQueryError")
        } else if fits[5] {
            Some("GetQueryResult")
        } else if fits[6] {
            Some("CreateTable")
        } else if fits[7] {
            Some("GetTables")
        } else if fits[8] {
            Some("DeleteTable")
        } else if fits[9] {
            Some("GetTableById")
        } else {
            None
        }
    }

    /// The name of the operation a request with this method and path asks
    /// for (see [`operation_of`]), if any.
    pub fn parse_operation_id(method: HttpMethod, path: &str) -> (r: Option<&'static str>)
        ensures
            r is Some <==> operation_of(method, path@) is Some,
            r matches Some(s) ==> s@ == operation_of(method, path@)->0,
    {
        let mut fits: Vec<bool> = Vec::new();
        fits.push(method == HttpMethod::Get && matches("^/queries$", path));
        fits.push(method == HttpMethod::Get && matches("^/system/info$", path));
        fits.push(method == HttpMethod::Post && matches("^/query$", path));
        fits.push(method == HttpMethod::Get && matches("^/query/(?P<queryId>[^/?#]*)$", path));
        fits.push(method == HttpMethod::Get && matches("^/error/(?P<queryId>[^/?#]*)$", path));
        fits.push(method == HttpMethod::Get && matches("^/result/(?P<queryId>[^/?#]*)$", path));
        fits.push(method == HttpMethod::Put && matches("^/table$", path));
        fits.push(method == HttpMethod::Get && matches("^/tables$", path));
        fits.push(method == HttpMethod::Delete && matches("^/table/(?P<tableId>[^/?#]*)$", path));
        fits.push(method == HttpMethod::Get && matches("^/table/(?P<tableId>[^/?#]*)$", path));
        assert(fits@ =~= route_fits(method, path@));
        ApiRequestParser::pick_operation(fits.as_slice())
    }
}

/// Whether the path is one of the interface's paths, whatever the method.
pub open spec fn path_known(path: Seq<char>) -> bool {
    one_segment_after("/error/"@, path) || path == "/queries"@ || path == "/query"@ || one_segment_after("/query/"@, path)
        || one_segment_after("/result/"@, path) || path == "/system/info"@ || path == "/table"@ || one_segment_after(
        "/table/"@,
        path,
    ) || path == "/tables"@
}

impl ApiRequestParser {
    /// The status of a request that fits no operation: 405 (method not
    /// allowed) where its path is one of the interface's, else 404 (not
    /// found).
    pub fn unrouted_status(path: &str) -> (r: u16)
        ensures
            r == (if path_known(path@) { 405u16 } else { 404u16 }),
    {
        if matches("^/error/(?P<queryId>[^/?#]*)$", path)
            || matches("^/queries$", path)
            || matches("^/query$", path)
            || matches("^/query/(?P<queryId>[^/?#]*)$", path)
            || matches("^/result/(?P<queryId>[^/?#]*)$", path)
            || matches("^/system/info$", path)
            || matches("^/table$", path)
            || matches("^/table/(?P<tableId>[^/?#]*)$", path)
            || matches("^/tables$", path) {
            405
        } else {
            404
        }
    }
}

} // verus!

//! The chacc compiler proper (cc1).

use vstd::prelude::*;
use crate::names::name_views;

verus! {

/// The include paths in precedence order: those of the command line, those of
/// the environment for all languages, the built-in headers, those of the
/// environment for C, and those of the system.
pub open spec fn all_include_paths(
    includes: Seq<Seq<u8>>,
    cpath: Seq<Seq<u8>>,
    builtin: Seq<u8>,
    c_include_path: Seq<Seq<u8>>,
    system: Seq<Seq<u8>>,
) -> Seq<Seq<u8>> {
    includes + cpath + seq![builtin] + c_include_path + system
}

/// Return the include paths in precedence order.
pub fn include_paths(
    includes: Vec<Vec<u8>>,
    cpath: Vec<Vec<u8>>,
    builtin: Vec<u8>,
    c_include_path: Vec<Vec<u8>>,
    system: Vec<Vec<u8>>,
) -> (r: Vec<Vec<u8>>)
    ensures
        name_views(r@) == all_include_paths(
            name_views(includes@),
            name_views(cpath@),
            builtin@,
            name_views(c_include_path@),
            name_views(system@),
        ),
{
    let mut out = includes;
    let mut cpath = cpath;
    let mut c_include_path = c_include_path;
    let mut system = system;
    let ghost want = all_include_paths(
        name_views(out@),
        name_views(cpath@),
        builtin@,
        name_views(c_include_path@),
        name_views(system@),
    );
    out.append(&mut cpath);
    out.push(builtin);
    out.append(&mut c_include_path);
    out.append(&mut system);
    assert(name_views(out@) =~= want);
    out
}

/// Where to look for an included file: the directory of the source that
/// includes it only for quoted names, and the include paths.
pub open spec fn search_paths(
    is_quoted: bool,
    source_dir: Seq<u8>,
    includes: Seq<Seq<u8>>,
) -> Seq<Seq<u8>> {
    if is_quoted {
        seq![source_dir] + includes
    } else {
        includes
    }
}

/// Return where to look for an included file.
pub fn find_search_paths(is_quoted: bool, source_dir: Vec<u8>, includes: Vec<Vec<u8>>) -> (r: Vec<
    Vec<u8>,
>)
    ensures
        name_views(r@) == search_paths(is_quoted, source_dir@, name_views(includes@)),
{
    if !is_quoted {
        return includes;
    }
    let mut out: Vec<Vec<u8>> = Vec::new();
    let mut includes = includes;
    let ghost want = search_paths(is_quoted, source_dir@, name_views(includes@));
    out.push(source_dir);
    out.append(&mut includes);
    assert(name_views(out@) =~= want);
    out
}

} // verus!

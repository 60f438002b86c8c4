//! Host C compiler resolution and querying.
//!
//! Note that chacc relies on the host C compiler only for toolchain resolution
//! and some other metadata. It does not use it for actual compilation. chacc
//! chose this design to have better support for different Linux distros without
//! needing to hardcode a lot of platform-specific details.

use vstd::prelude::*;
use crate::ascii;
use crate::cli::path_view;
use crate::names::{name_views, same_bytes};
use crate::source::copy_bytes;
use crate::tokenize::scan::{char_at, decode_char};

verus! {

/// The host C compiler.
pub struct Hostcc {
    pub path: Vec<u8>,
}

/// The host C compiler to use: the one that the environment names, if it names
/// one, or else the first of those that were found.
pub open spec fn hostcc_path(
    named: Option<Option<Seq<u8>>>,
    gcc: Option<Seq<u8>>,
    cc: Option<Seq<u8>>,
    clang: Option<Seq<u8>>,
) -> Option<Seq<u8>> {
    match named {
        Some(path) => path,
        None => match gcc {
            Some(path) => Some(path),
            None => match cc {
                Some(path) => Some(path),
                None => clang,
            },
        },
    }
}

/// White space at the ends of a line, by its code.
pub open spec fn is_white(code: u32) -> bool {
    ||| 0x09 <= code <= 0x0d
    ||| code == 0x20
    ||| code == 0x85
    ||| code == 0xa0
    ||| code == 0x1680
    ||| 0x2000 <= code <= 0x200a
    ||| code == 0x2028
    ||| code == 0x2029
    ||| code == 0x202f
    ||| code == 0x205f
    ||| code == 0x3000
}

fn is_white_space(code: u32) -> (r: bool)
    ensures
        r == is_white(code),
{
    (0x09 <= code && code <= 0x0d) || code == 0x20 || code == 0x85 || code == 0xa0 || code == 0x1680
        || (0x2000 <= code && code <= 0x200a) || code == 0x2028 || code == 0x2029 || code == 0x202f
        || code == 0x205f || code == 0x3000
}

/// The length of the character at an offset; 1 if the bytes are no character.
pub open spec fn step_at(text: Seq<u8>, i: int) -> int {
    match char_at(text, i) {
        Some((_, len)) => if 0 < len && i + len <= text.len() {
            len
        } else {
            1
        },
        None => 1,
    }
}

/// Whether white space stands at an offset.
pub open spec fn white_at(text: Seq<u8>, i: int) -> bool {
    match char_at(text, i) {
        Some((code, _)) => is_white(code),
        None => false,
    }
}

/// Where the white space ends that stands at an offset.
pub open spec fn skip_white(text: Seq<u8>, i: int) -> int
    decreases text.len() - i,
{
    if i < text.len() && white_at(text, i) {
        skip_white(text, i + step_at(text, i))
    } else {
        i
    }
}

/// Where the last character ends from an offset on that is not white space;
/// `last` if there is none.
pub open spec fn last_ink(text: Seq<u8>, i: int, last: int) -> int
    decreases text.len() - i,
{
    if i >= text.len() {
        last
    } else {
        let next = i + step_at(text, i);
        last_ink(
            text,
            next,
            if white_at(text, i) {
                last
            } else {
                next
            },
        )
    }
}

/// A text without white space at both ends.
#[verifier::opaque]
pub open spec fn trimmed(text: Seq<u8>) -> Seq<u8> {
    let start = skip_white(text, 0);
    let end = last_ink(text, start, start);
    if 0 <= start <= end <= text.len() {
        text.subrange(start, end)
    } else {
        Seq::empty()
    }
}

/// Where a line ends.
pub open spec fn line_break(text: Seq<u8>, i: int) -> int
    decreases text.len() - i,
{
    if i >= text.len() || text[i] == ascii::NEWLINE {
        i
    } else {
        line_break(text, i + 1)
    }
}

/// Whether a text starts with another.
pub open spec fn starts_with(text: Seq<u8>, prefix: Seq<u8>) -> bool {
    prefix.len() <= text.len() && text.take(prefix.len() as int) == prefix
}

/// The include paths in what the host C compiler says from an offset on, after
/// those read; `None` if their list did not begin.
pub open spec fn includes_from(text: Seq<u8>, i: int, in_block: bool, read: Seq<Seq<u8>>) -> Option<
    Seq<Seq<u8>>,
>
    decreases
            if i < text.len() {
                text.len() - i
            } else {
                0
            },
{
    if i < 0 || i >= text.len() {
        if in_block {
            Some(read)
        } else {
            None
        }
    } else {
        let end = line_break(text, i);
        let line = if i <= end <= text.len() {
            trimmed(text.subrange(i, end))
        } else {
            Seq::empty()
        };
        if end < i {
            None
        } else if line.len() == 0 {
            includes_from(text, end + 1, in_block, read)
        } else if starts_with(
            line,
            vstd::utf8::encode_utf8("#include <...> search starts here:"@),
        ) {
            includes_from(text, end + 1, true, read)
        } else if starts_with(line, vstd::utf8::encode_utf8("End of search list."@)) {
            if in_block {
                Some(read)
            } else {
                None
            }
        } else if in_block {
            includes_from(text, end + 1, in_block, read.push(line))
        } else {
            includes_from(text, end + 1, in_block, read)
        }
    }
}

/// Return whether a text starts with another.
fn has_prefix(text: &[u8], prefix: &[u8]) -> (r: bool)
    ensures
        r == starts_with(text@, prefix@),
{
    if prefix.len() > text.len() {
        return false;
    }
    let head = vstd::slice::slice_subrange(text, 0, prefix.len());
    assert(head@ =~= text@.take(prefix@.len() as int));
    same_bytes(head, prefix)
}

fn step_len(text: &[u8], i: usize) -> (r: (usize, bool))
    requires
        i < text@.len(),
    ensures
        r.0 == step_at(text@, i as int),
        r.1 == white_at(text@, i as int),
        1 <= r.0,
        i + r.0 <= text@.len(),
{
    match decode_char(text, i) {
        Some((code, len)) => (len, is_white_space(code)),
        None => (1, false),
    }
}

/// Return a text without white space at both ends.
fn trim(text: &[u8]) -> (r: Vec<u8>)
    ensures
        r@ == trimmed(text@),
{
    proof {
        reveal(trimmed);
    }
    let mut start: usize = 0;
    while start < text.len()
        invariant_except_break
            skip_white(text@, 0) == skip_white(text@, start as int),
        invariant
            start <= text.len(),
        ensures
            start == skip_white(text@, 0),
        decreases text.len() - start,
    {
        let (len, white) = step_len(text, start);
        if !white {
            break;
        }
        start += len;
    }
    let mut end: usize = start;
    let mut i: usize = start;
    while i < text.len()
        invariant
            start <= end <= i <= text.len(),
            last_ink(text@, start as int, start as int) == last_ink(text@, i as int, end as int),
        decreases text.len() - i,
    {
        let (len, white) = step_len(text, i);
        i += len;
        if !white {
            end = i;
        }
    }
    copy_bytes(vstd::slice::slice_subrange(text, start, end))
}

/// Return the system include paths in what the host C compiler says, if it
/// lists any.
pub fn find_system_includes(text: &[u8]) -> (r: Option<Vec<Vec<u8>>>)
    ensures
        includes_from(text@, 0, false, Seq::empty()) == (match r {
            Some(paths) => Some(name_views(paths@)),
            None => None,
        }),
{
    let mut headers: Vec<Vec<u8>> = Vec::new();
    let mut in_block: bool = false;
    let mut i: usize = 0;
    assert(name_views(headers@) =~= Seq::<Seq<u8>>::empty());
    while i < text.len()
        invariant_except_break
            includes_from(text@, 0, false, Seq::empty()) == includes_from(
                text@,
                i as int,
                in_block,
                name_views(headers@),
            ),
        invariant
            i <= text.len(),
        ensures
            includes_from(text@, 0, false, Seq::empty()) == (if in_block {
                Some(name_views(headers@))
            } else {
                None
            }),
        decreases text.len() - i,
    {
        let mut end: usize = i;
        while end < text.len() && text[end] != ascii::NEWLINE
            invariant
                i <= end <= text.len(),
                line_break(text@, i as int) == line_break(text@, end as int),
            decreases text.len() - end,
        {
            end += 1;
        }
        let line = trim(vstd::slice::slice_subrange(text, i, end));
        let last_line = end >= text.len();
        let next: usize = if last_line {
            end
        } else {
            end + 1
        };
        let ghost before = name_views(headers@);
        if line.len() == 0 {
            i = next;
        } else if has_prefix(line.as_slice(), "#include <...> search starts here:".as_bytes()) {
            in_block = true;
            i = next;
        } else if has_prefix(line.as_slice(), "End of search list.".as_bytes()) {
            break;
        } else {
            if in_block {
                let ghost bytes = line@;
                headers.push(line);
                assert(name_views(headers@) =~= before.push(bytes));
            }
            i = next;
        }
        assert(includes_from(text@, end + 1, in_block, name_views(headers@)) == includes_from(
            text@,
            next as int,
            in_block,
            name_views(headers@),
        ));
    }
    if in_block {
        Some(headers)
    } else {
        None
    }
}

/// White space of ASCII.
pub open spec fn is_ascii_white(b: u8) -> bool {
    b == ascii::SPACE || b == ascii::TAB || b == ascii::NEWLINE || b == 0x0c || b == ascii::RETURN
}

fn is_ascii_white_space(b: u8) -> (r: bool)
    ensures
        r == is_ascii_white(b),
{
    b == ascii::SPACE || b == ascii::TAB || b == ascii::NEWLINE || b == 0x0c || b == ascii::RETURN
}

/// A text without white space of ASCII at its start.
pub open spec fn trim_start(text: Seq<u8>) -> Seq<u8>
    decreases text.len(),
{
    if text.len() > 0 && is_ascii_white(text[0]) {
        trim_start(text.skip(1))
    } else {
        text
    }
}

/// A text without white space of ASCII at its end.
pub open spec fn trim_end(text: Seq<u8>) -> Seq<u8>
    decreases text.len(),
{
    if text.len() > 0 && is_ascii_white(text.last()) {
        trim_end(text.drop_last())
    } else {
        text
    }
}

/// The path of a toolchain file in what the host C compiler says; `None` if it
/// says nothing but the name.
pub open spec fn file_found(output: Seq<u8>, name: Seq<u8>) -> Option<Seq<u8>> {
    let path = trim_end(trim_start(output));
    if path.len() == 0 || path == name {
        None
    } else {
        Some(path)
    }
}

impl Hostcc {
    /// Resolve the host C compiler to use.
    ///
    /// This will first check what the `CHACC_HOST_CC` environment variable
    /// names, then `gcc`, `cc`, and `clang` in order; `None` if nothing was
    /// found.
    pub fn resolve(
        named: Option<Option<Vec<u8>>>,
        gcc: Option<Vec<u8>>,
        cc: Option<Vec<u8>>,
        clang: Option<Vec<u8>>,
    ) -> (r: Option<Hostcc>)
        ensures
            hostcc_path(
                match named {
                    Some(path) => Some(path_view(path)),
                    None => None,
                },
                path_view(gcc),
                path_view(cc),
                path_view(clang),
            ) == (match r {
                Some(hostcc) => Some(hostcc.path@),
                None => None,
            }),
    {
        let path = match named {
            Some(path) => path,
            None => match gcc {
                Some(path) => Some(path),
                None => match cc {
                    Some(path) => Some(path),
                    None => clang,
                },
            },
        };
        match path {
            Some(path) => Some(Hostcc { path }),
            None => None,
        }
    }

    /// Find the library path of a toolchain file in what the host C compiler
    /// says.
    pub fn find(output: &[u8], name: &[u8]) -> (r: Option<Vec<u8>>)
        ensures
            file_found(output@, name@) == path_view(r),
    {
        let mut start: usize = 0;
        assert(output@.skip(0) =~= output@);
        while start < output.len() && is_ascii_white_space(output[start])
            invariant
                start <= output.len(),
                trim_start(output@) == trim_start(output@.skip(start as int)),
            decreases output.len() - start,
        {
            assert(output@.skip(start as int).skip(1) =~= output@.skip(start + 1));
            start += 1;
        }
        assert(trim_start(output@) == output@.skip(start as int));
        let mut end: usize = output.len();
        assert(output@.subrange(start as int, end as int) =~= output@.skip(start as int));
        while end > start && is_ascii_white_space(output[end - 1])
            invariant
                start <= end <= output.len(),
                trim_end(output@.skip(start as int)) == trim_end(
                    output@.subrange(start as int, end as int),
                ),
            decreases end,
        {
            assert(output@.subrange(start as int, end as int).drop_last() =~= output@.subrange(
                start as int,
                end - 1,
            ));
            end -= 1;
        }
        let path = vstd::slice::slice_subrange(output, start, end);
        assert(trim_end(output@.skip(start as int)) == path@);
        if path.len() == 0 || same_bytes(path, name) {
            return None;
        }
        Some(copy_bytes(path))
    }
}

} // verus!

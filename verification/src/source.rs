//! Program source definition.

use vstd::prelude::*;
use vstd::utf8::is_char_boundary;
use crate::error::{Diagnostic, DiagnosticLevel};
use crate::utils::{digits, push_bytes, push_digits};

verus! {

/// A span in a source.
#[derive(Clone, Copy, Debug, PartialEq, Eq, Structural)]
pub struct SourceSpan {
    /// The source ID, corresponding to [`Source::id`].
    pub id: usize,
    pub offset: usize,
    pub len: usize,
}

/// The line index of an outside crate.
#[verifier::external_type_specification]
#[verifier::external_body]
pub struct ExLineIndex(line_index::LineIndex);

/// The text that a line index was made of.
pub uninterp spec fn indexed_text(index: line_index::LineIndex) -> Seq<u8>;

/// The number of line breaks before an offset.
pub open spec fn line_of(text: Seq<u8>, offset: int) -> int
    decreases offset,
{
    if offset <= 0 {
        0
    } else if text[offset - 1] == 10 {
        line_of(text, offset - 1) + 1
    } else {
        line_of(text, offset - 1)
    }
}

/// Where the line of an offset starts.
pub open spec fn line_start(text: Seq<u8>, offset: int) -> int
    decreases offset,
{
    if offset <= 0 || text[offset - 1] == 10 {
        offset
    } else {
        line_start(text, offset - 1)
    }
}

/// Line and column of an offset, both from 0; `None` past the end of the text
/// and within a character.
pub open spec fn line_col_of(text: Seq<u8>, offset: u32) -> Option<(u32, u32)> {
    if offset <= text.len() && is_char_boundary(text, offset as int) {
        Some(
            (
                line_of(text, offset as int) as u32,
                (offset - line_start(text, offset as int)) as u32,
            ),
        )
    } else {
        None
    }
}

/// Index the lines of a text, by [`line_index::LineIndex::new`].
///
/// The index answers for this text. Texts of `u32::MAX` bytes or more make the
/// outside function panic.
#[verifier::external_body]
fn index_lines(text: &String) -> (r: line_index::LineIndex)
    requires
        text_bytes(text).len() < u32::MAX,
    ensures
        indexed_text(r) == text_bytes(text),
{
    line_index::LineIndex::new(text.as_str())
}

/// Look up an offset, by [`line_index::LineIndex::try_line_col`].
///
/// The line is the number of line breaks before the offset, and the column is
/// the number of bytes since the last of them. There is no result for an offset
/// past the end of the text or within a character.
#[verifier::external_body]
fn index_line_col(index: &line_index::LineIndex, offset: u32) -> (r: Option<(u32, u32)>)
    ensures
        r == line_col_of(indexed_text(*index), offset),
{
    index.try_line_col(line_index::TextSize::from(offset)).map(|at| (at.line, at.col))
}

/// Read bytes as text, by [`String::from_utf8`].
///
/// Bytes that are UTF-8 become the text that they encode, and other bytes
/// become nothing.
#[verifier::external_body]
pub(crate) fn utf8_text(bytes: Vec<u8>) -> (r: Option<String>)
    ensures
        r is Some <==> vstd::utf8::valid_utf8(bytes@),
        r is Some ==> r.unwrap()@ == vstd::utf8::decode_utf8(bytes@),
{
    String::from_utf8(bytes).ok()
}

/// The bytes of a string.
pub open spec fn text_bytes(text: &String) -> Seq<u8> {
    vstd::utf8::encode_utf8(text@)
}

/// How many bytes are dropped at the start of a text because a backslash joins
/// two lines there.
pub open spec fn splice_len(text: Seq<u8>) -> nat {
    if text.len() >= 2 && text[0] == 92 && text[1] == 10 {
        2
    } else if text.len() >= 3 && text[0] == 92 && text[1] == 13 && text[2] == 10 {
        3
    } else {
        0
    }
}

/// A text with all lines that end in a backslash joined to the next.
pub open spec fn spliced(text: Seq<u8>) -> Seq<u8>
    decreases text.len(),
{
    if text.len() == 0 {
        Seq::empty()
    } else if splice_len(text) > 0 {
        spliced(text.skip(splice_len(text) as int))
    } else {
        seq![text[0]] + spliced(text.skip(1))
    }
}

/// Where the byte at a logical offset of the joined text stands in the text.
///
/// The end of the joined text maps to the end of the text.
pub open spec fn physical(text: Seq<u8>, offset: int) -> int
    decreases text.len(),
{
    if text.len() == 0 {
        0
    } else if splice_len(text) > 0 {
        splice_len(text) + physical(text.skip(splice_len(text) as int), offset)
    } else if offset <= 0 {
        0
    } else {
        1 + physical(text.skip(1), offset - 1)
    }
}

/// Every byte of the joined text stands at its physical offset.
pub proof fn physical_finds_the_byte(text: Seq<u8>, offset: int)
    requires
        0 <= offset < spliced(text).len(),
    ensures
        0 <= physical(text, offset) < text.len(),
        text[physical(text, offset)] == spliced(text)[offset],
    decreases text.len(),
{
    if text.len() > 0 {
        if splice_len(text) > 0 {
            physical_finds_the_byte(text.skip(splice_len(text) as int), offset);
        } else if offset > 0 {
            physical_finds_the_byte(text.skip(1), offset - 1);
        }
    }
}

/// Physical offsets grow with logical ones.
pub proof fn physical_is_increasing(text: Seq<u8>, a: int, b: int)
    requires
        0 <= a < b <= spliced(text).len(),
    ensures
        physical(text, a) < physical(text, b) <= text.len(),
    decreases text.len(),
{
    if text.len() > 0 {
        if splice_len(text) > 0 {
            physical_is_increasing(text.skip(splice_len(text) as int), a, b);
        } else if a > 0 {
            physical_is_increasing(text.skip(1), a - 1, b - 1);
        } else {
            physical_is_bounded(text.skip(1), b - 1);
        }
    }
}

/// Physical offsets lie within the text.
pub proof fn physical_is_bounded(text: Seq<u8>, offset: int)
    requires
        0 <= offset <= spliced(text).len(),
    ensures
        offset <= physical(text, offset) <= text.len(),
    decreases text.len(),
{
    if text.len() > 0 {
        if splice_len(text) > 0 {
            physical_is_bounded(text.skip(splice_len(text) as int), offset);
        } else if offset > 0 {
            physical_is_bounded(text.skip(1), offset - 1);
        }
    }
}

/// A text without backslashes is joined to itself.
pub proof fn spliced_text_without_splices_is_unchanged(text: Seq<u8>)
    requires
        forall|k: int| 0 <= k < text.len() ==> text[k] != 92,
    ensures
        spliced(text) == text,
    decreases text.len(),
{
    if text.len() > 0 {
        spliced_text_without_splices_is_unchanged(text.skip(1));
        assert(seq![text[0]] + text.skip(1) =~= text);
    }
}

/// From a logical offset on, how far the bytes were moved.
#[derive(Clone, Copy, Debug, PartialEq, Eq, Structural)]
pub struct Shift {
    pub offset: usize,
    pub shift: usize,
}

/// The shift that is in effect at an offset.
pub open spec fn shift_at(shifts: Seq<Shift>, offset: int) -> int
    decreases shifts.len(),
{
    if shifts.len() == 0 {
        0
    } else if shifts.last().offset <= offset {
        shifts.last().shift as int
    } else {
        shift_at(shifts.drop_last(), offset)
    }
}

/// A C program source to be compiled.
pub struct Source {
    pub id: usize,
    pub path: String,
    pub name: String,
    /// The normalized source content for tokenization.
    pub content: Vec<u8>,
    /// The original source text.
    pub original: Vec<u8>,
    /// The line index on the original source.
    pub line_index: line_index::LineIndex,
    /// The mapping from logical offsets to physical offsets.
    ///
    /// Each entry is a pair of logical offset and cumulative shift, only
    /// where physical and logical offsets differ. All logical offsets in the
    /// same range `[offset, next_offset)` share the same cumulative shift. The
    /// vector is sorted by logical offsets.
    pub shifts: Vec<Shift>,
}

/// The mathematical form of [`Source`].
pub struct SourceView {
    pub id: usize,
    pub path: Seq<char>,
    pub name: Seq<char>,
    pub original: Seq<u8>,
}

/// Line and column, both from 0, of a logical offset in the original text.
pub open spec fn logical_line_col(original: Seq<u8>, offset: usize) -> Option<(u32, u32)> {
    if offset <= spliced(original).len() {
        line_col_of(original, physical(original, offset as int) as u32)
    } else {
        None
    }
}

/// Copy some bytes.
pub fn copy_bytes(bytes: &[u8]) -> (r: Vec<u8>)
    ensures
        r@ == bytes@,
{
    let mut out: Vec<u8> = Vec::new();
    let mut i: usize = 0;
    while i < bytes.len()
        invariant
            i <= bytes.len(),
            out@ == bytes@.take(i as int),
        decreases bytes.len() - i,
    {
        out.push(bytes[i]);
        i += 1;
        assert(bytes@.take(i as int) =~= bytes@.take(i - 1).push(bytes@[i - 1]));
    }
    assert(bytes@.take(bytes@.len() as int) =~= bytes@);
    out
}

/// Whether both offsets and shifts ascend strictly: each entry stands further
/// on, where more bytes were left out.
pub open spec fn shifts_ascend(shifts: Seq<Shift>) -> bool {
    forall|a: int, b: int|
        0 <= a < b < shifts.len() ==> (#[trigger] shifts[a]).offset < (#[trigger] shifts[b]).offset
            && shifts[a].shift < shifts[b].shift
}

/// What is known of the text up to `i` while lines are joined: the bytes that
/// were kept, and how offsets map.
spec fn joined(text: Seq<u8>, i: int, content: Seq<u8>, shifts: Seq<Shift>) -> bool {
    &&& content + spliced(text.skip(i)) == spliced(text)
    &&& forall|k: int|
        0 <= k < content.len() ==> k + #[trigger] shift_at(shifts, k) == physical(text, k)
    &&& forall|k: int|
        content.len() <= k <= spliced(text).len() ==> i + #[trigger] physical(
            text.skip(i),
            k - content.len(),
        ) == physical(text, k)
    &&& i == content.len() + shift_at(shifts, content.len() as int)
    &&& shifts.len() > 0 ==> shifts.last().offset <= content.len()
    &&& shifts_ascend(shifts)
    &&& forall|a: int| 0 <= a < shifts.len() ==> (#[trigger] shifts[a]).shift > 0
}

impl Source {
    pub open spec fn view(&self) -> SourceView {
        SourceView {
            id: self.id,
            path: self.path@,
            name: self.name@,
            original: self.original@,
        }
    }

    /// Content, index, and shifts belong to the original text.
    pub open spec fn wf(&self) -> bool {
        &&& self.content@ == spliced(self.original@)
        &&& self.original@.len() < u32::MAX
        &&& indexed_text(self.line_index) == self.original@
        &&& forall|k: int|
            0 <= k <= self.content@.len() ==> k + #[trigger] shift_at(self.shifts@, k) == physical(
                self.original@,
                k,
            )
        &&& shifts_ascend(self.shifts@)
    }

    /// Create a source of a text; `None` if the text is too long.
    #[verifier::loop_isolation(false)]
    pub fn new(id: usize, path: String, name: String, text: String) -> (r: Option<Source>)
        ensures
            r is Some <==> text_bytes(&text).len() < u32::MAX,
            r is Some ==> r.unwrap().wf() && r.unwrap()@ == (SourceView {
                id,
                path: path@,
                name: name@,
                original: text_bytes(&text),
            }),
    {
        let bytes: &[u8] = text.as_str().as_bytes();
        if bytes.len() >= u32::MAX as usize {
            return None;
        }
        let original = copy_bytes(bytes);
        let ghost all = original@;
        let mut content: Vec<u8> = Vec::new();
        let mut shifts: Vec<Shift> = Vec::new();
        let mut i: usize = 0;
        let mut cum_shift: usize = 0;
        proof {
            assert(all.skip(0) =~= all);
            assert(content@ + spliced(all) =~= spliced(all));
            assert(joined(all, 0, content@, shifts@));
        }
        while i < original.len()
            invariant
                all == original@,
                i <= all.len(),
                all.len() < u32::MAX,
                cum_shift == shift_at(shifts@, content@.len() as int),
                content@.len() + cum_shift == i,
                joined(all, i as int, content@, shifts@),
            decreases original.len() - i,
        {
            let ghost rest = all.skip(i as int);
            let removed: usize = if i + 1 < original.len() && original[i] == 92 && original[i + 1]
                == 10 {
                2
            } else if i + 2 < original.len() && original[i] == 92 && original[i + 1] == 13
                && original[i + 2] == 10 {
                3
            } else {
                0
            };
            assert(removed == splice_len(rest));
            assert(rest.skip(if removed > 0 { removed as int } else { 1 }) =~= all.skip(
                i + (if removed > 0 { removed as int } else { 1 }),
            ));
            if removed == 0 {
                let ghost old_content = content@;
                content.push(original[i]);
                i += 1;
                proof {
                    kept_byte(all, i - 1, old_content, shifts@);
                }
            } else {
                let ghost old_shifts = shifts@;
                cum_shift += removed;
                let offset: usize = content.len();
                let n: usize = shifts.len();
                if n > 0 && shifts[n - 1].offset == offset {
                    shifts.set(n - 1, Shift { offset, shift: cum_shift });
                } else {
                    shifts.push(Shift { offset, shift: cum_shift });
                }
                i += removed;
                proof {
                    dropped_bytes(
                        all,
                        i - removed,
                        content@,
                        old_shifts,
                        shifts@,
                        removed as int,
                    );
                }
            }
        }
        proof {
            assert(all.skip(i as int) =~= Seq::<u8>::empty());
            assert(content@ + Seq::<u8>::empty() =~= content@);
            assert(content@ == spliced(all));
            let n = content@.len() as int;
            assert(i + physical(all.skip(i as int), n - n) == physical(all, n));
        }
        let line_index = index_lines(&text);
        let source = Source { id, path, name, content, original, line_index, shifts };
        Some(source)
    }

    /// Return the physical offset of the given logical offset.
    fn to_physical(&self, offset: usize) -> (r: usize)
        requires
            self.wf(),
            offset <= self.content@.len(),
        ensures
            r == physical(self.original@, offset as int),
            r <= self.original@.len(),
    {
        let mut i: usize = self.shifts.len();
        proof {
            physical_is_bounded(self.original@, offset as int);
            assert(self.shifts@.take(i as int) =~= self.shifts@);
            assert(offset + shift_at(self.shifts@, offset as int) == physical(
                self.original@,
                offset as int,
            ));
        }
        while i > 0
            invariant
                i <= self.shifts.len(),
                shift_at(self.shifts@, offset as int) == shift_at(
                    self.shifts@.take(i as int),
                    offset as int,
                ),
                offset + shift_at(self.shifts@, offset as int) == physical(
                    self.original@,
                    offset as int,
                ),
                physical(self.original@, offset as int) <= self.original@.len(),
                self.original@.len() < u32::MAX,
            decreases i,
        {
            i -= 1;
            assert(self.shifts@.take(i + 1).drop_last() =~= self.shifts@.take(i as int));
            if self.shifts[i].offset <= offset {
                return offset + self.shifts[i].shift;
            }
        }
        offset
    }

    /// Return the line and column in original source of the given logical
    /// offset, both from 0.
    pub fn line_col(&self, offset: usize) -> (r: Option<(u32, u32)>)
        requires
            self.wf(),
        ensures
            r == logical_line_col(self.original@, offset),
    {
        if offset > self.content.len() {
            return None;
        }
        let physical: usize = self.to_physical(offset);
        index_line_col(&self.line_index, physical as u32)
    }

    /// Describe a place in the source.
    ///
    /// `None` if the offset is no place in the source.
    pub fn diagnostic(
        &self,
        offset: usize,
        len: usize,
        level: DiagnosticLevel,
        message: Vec<u8>,
    ) -> (r: Option<Diagnostic>)
        requires
            self.wf(),
        ensures
            r is Some <==> logical_line_col(self.original@, offset) is Some,
            r is Some ==> ({
                let d = r.unwrap();
                let (line, col) = logical_line_col(self.original@, offset).unwrap();
                let at = physical(self.original@, offset as int);
                &&& d.level == level
                &&& d.message@ == message@
                &&& d.file@ == self.name@
                &&& d.line@ == line_text(self.original@, at)
                &&& d.line_no == line + 1
                &&& d.col_no == col + 1
                &&& d.span_len == int_min(len as int, int_max0(d.line@.len() - col))
            }),
    {
        let Some((line_no, col_no)) = self.line_col(offset) else {
            return None;
        };
        let at: usize = self.to_physical(offset);
        let line = self.line_text(at);
        let rest: usize = if line.len() > col_no as usize {
            line.len() - col_no as usize
        } else {
            0
        };
        let span_len: usize = if len < rest {
            len
        } else {
            rest
        };
        Some(
            Diagnostic {
                level,
                message,
                file: self.name.clone(),
                line,
                line_no: line_no as u64 + 1,
                col_no: col_no as u64 + 1,
                span_len,
            },
        )
    }

    /// Return the line of a physical offset, without the line break.
    fn line_text(&self, at: usize) -> (r: Vec<u8>)
        requires
            at <= self.original@.len(),
        ensures
            r@ == line_text(self.original@, at as int),
    {
        let text = &self.original;
        let mut start: usize = at;
        while start > 0 && text[start - 1] != 10
            invariant
                start <= at <= text.len(),
                line_start(text@, at as int) == line_start(text@, start as int),
            decreases start,
        {
            start -= 1;
        }
        let mut end: usize = at;
        while end < text.len() && text[end] != 10
            invariant
                at <= end <= text.len(),
                line_end(text@, at as int) == line_end(text@, end as int),
            decreases text.len() - end,
        {
            end += 1;
        }
        let ghost full_end = end;
        while end > start && (text[end - 1] == 13 || text[end - 1] == 10)
            invariant
                start <= end <= text.len(),
                without_breaks(text@, start as int, full_end as int) == without_breaks(
                    text@,
                    start as int,
                    end as int,
                ),
            decreases end,
        {
            end -= 1;
        }
        let mut out: Vec<u8> = Vec::new();
        let mut i: usize = start;
        while i < end
            invariant
                start <= i <= end <= text.len(),
                out@ == text@.subrange(start as int, i as int),
            decreases end - i,
        {
            out.push(text[i]);
            i += 1;
            assert(text@.subrange(start as int, i as int) =~= text@.subrange(
                start as int,
                i - 1,
            ).push(text@[i - 1]));
        }
        out
    }
}

pub open spec fn int_min(a: int, b: int) -> int {
    if a < b {
        a
    } else {
        b
    }
}

pub open spec fn int_max0(a: int) -> int {
    if a < 0 {
        0
    } else {
        a
    }
}

/// Where the line of an offset ends: at its line break, or at the end.
pub open spec fn line_end(text: Seq<u8>, offset: int) -> int
    decreases text.len() - offset,
{
    if offset >= text.len() || text[offset] == 10 {
        offset
    } else {
        line_end(text, offset + 1)
    }
}

/// The end of a line without the line breaks and carriage returns before it.
pub open spec fn without_breaks(text: Seq<u8>, start: int, end: int) -> int
    decreases end - start,
{
    if end > start && (text[end - 1] == 13 || text[end - 1] == 10) {
        without_breaks(text, start, end - 1)
    } else {
        end
    }
}

/// The line of an offset, without the line break.
pub open spec fn line_text(text: Seq<u8>, offset: int) -> Seq<u8> {
    let start = line_start(text, offset);
    text.subrange(start, without_breaks(text, start, line_end(text, offset)))
}

proof fn kept_byte(text: Seq<u8>, i: int, content: Seq<u8>, shifts: Seq<Shift>)
    requires
        0 <= i < text.len(),
        joined(text, i, content, shifts),
        splice_len(text.skip(i)) == 0,
    ensures
        joined(text, i + 1, content.push(text[i]), shifts),
        shift_at(shifts, content.len() as int + 1) == shift_at(shifts, content.len() as int),
{
    let rest = text.skip(i);
    let next = content.push(text[i]);
    assert(rest.skip(1) =~= text.skip(i + 1));
    assert(rest[0] == text[i]);
    assert(next + spliced(text.skip(i + 1)) =~= content + spliced(rest));
    let n = content.len() as int;
    shift_beyond_last(shifts, n);
    shift_beyond_last(shifts, n + 1);
    assert(i + physical(rest, n - n) == physical(text, n));
    assert forall|k: int| 0 <= k < next.len() implies k + #[trigger] shift_at(shifts, k)
        == physical(text, k) by {
        if k == n {
        }
    }
    assert forall|k: int| next.len() <= k <= spliced(text).len() implies i + 1
        + #[trigger] physical(text.skip(i + 1), k - next.len()) == physical(text, k) by {
        assert(i + physical(rest, k - n) == physical(text, k));
    }
}

/// Past the last entry its shift is in effect.
proof fn shift_beyond_last(shifts: Seq<Shift>, offset: int)
    requires
        shifts.len() > 0 ==> shifts.last().offset <= offset,
    ensures
        shift_at(shifts, offset) == (if shifts.len() > 0 {
            shifts.last().shift as int
        } else {
            0
        }),
{
}

proof fn dropped_bytes(
    text: Seq<u8>,
    i: int,
    content: Seq<u8>,
    old_shifts: Seq<Shift>,
    shifts: Seq<Shift>,
    removed: int,
)
    requires
        0 <= i < text.len(),
        i + removed <= text.len(),
        joined(text, i, content, old_shifts),
        removed == splice_len(text.skip(i)),
        removed > 0,
        shifts.len() > 0,
        shifts.last().offset == content.len(),
        shifts.last().shift == shift_at(old_shifts, content.len() as int) + removed,
        if old_shifts.len() > 0 && old_shifts.last().offset == content.len() {
            shifts == old_shifts.update(old_shifts.len() - 1, shifts.last())
        } else {
            shifts == old_shifts.push(shifts.last())
        },
    ensures
        joined(text, i + removed, content, shifts),
        shift_at(shifts, content.len() as int) == shift_at(old_shifts, content.len() as int)
            + removed,
{
    let rest = text.skip(i);
    assert(rest.skip(removed) =~= text.skip(i + removed));
    let n = content.len() as int;
    assert forall|k: int| 0 <= k < n implies #[trigger] shift_at(shifts, k) == shift_at(
        old_shifts,
        k,
    ) by {
        if old_shifts.len() > 0 && old_shifts.last().offset == n {
            assert(shifts.drop_last() =~= old_shifts.drop_last());
        } else {
            assert(shifts.drop_last() =~= old_shifts);
        }
    }
    assert forall|k: int| 0 <= k < n implies k + #[trigger] shift_at(shifts, k) == physical(
        text,
        k,
    ) by {
        assert(k + shift_at(old_shifts, k) == physical(text, k));
    }
    assert forall|k: int| n <= k <= spliced(text).len() implies i + removed + #[trigger] physical(
        text.skip(i + removed),
        k - n,
    ) == physical(text, k) by {
        assert(i + physical(rest, k - n) == physical(text, k));
    }
}

/// The collection of source files known to the compiler.
pub struct SourceMap {
    pub sources: Vec<Source>,
}

/// The sources of a list, each in its mathematical form.
pub open spec fn source_views(sources: Seq<Source>) -> Seq<SourceView> {
    Seq::new(sources.len(), |k: int| sources[k]@)
}

/// File, line and column numbers, from 1, of a span.
pub open spec fn file_line_col_of(sources: Seq<SourceView>, span: SourceSpan) -> Option<
    (usize, u32, u32),
> {
    if span.id < sources.len() && span.id < usize::MAX {
        match logical_line_col(sources[span.id as int].original, span.offset) {
            Some((line, col)) => if line < u32::MAX && col < u32::MAX {
                Some(((span.id + 1) as usize, (line + 1) as u32, (col + 1) as u32))
            } else {
                None
            },
            None => None,
        }
    } else {
        None
    }
}

/// The text of a span; empty if the span is no part of a source.
pub open spec fn span_text(sources: Seq<SourceView>, span: SourceSpan) -> Seq<u8> {
    if span.id < sources.len() && span.offset + span.len <= spliced(
        sources[span.id as int].original,
    ).len() {
        spliced(sources[span.id as int].original).subrange(
            span.offset as int,
            span.offset + span.len,
        )
    } else {
        Seq::empty()
    }
}

/// The name of a virtual source: its own, or one by its ID.
pub open spec fn virtual_name(id: nat, name: Option<&str>) -> Option<Seq<char>> {
    match name {
        Some(name) => Some(name@),
        None => {
            let bytes = vstd::utf8::encode_utf8("<virtual-"@) + digits(id)
                + vstd::utf8::encode_utf8(">"@);
            if vstd::utf8::valid_utf8(bytes) {
                Some(vstd::utf8::decode_utf8(bytes))
            } else {
                None
            }
        },
    }
}

/// The sources with a virtual one added, if its content is a text that is not
/// too long.
#[verifier::opaque]
pub open spec fn with_virtual(
    sources: Seq<SourceView>,
    content: Seq<u8>,
    name: Option<&str>,
) -> Option<
    Seq<SourceView>,
> {
    match virtual_name(sources.len(), name) {
        Some(name) => if vstd::utf8::valid_utf8(content) && content.len() < u32::MAX {
            Some(
                sources.push(
                    SourceView {
                        id: sources.len() as usize,
                        path: ""@,
                        name,
                        original: content,
                    },
                ),
            )
        } else {
            None
        },
        None => None,
    }
}

impl SourceMap {
    pub open spec fn view(&self) -> Seq<SourceView> {
        source_views(self.sources@)
    }

    /// Every source is well-formed and known by its position.
    pub open spec fn wf(&self) -> bool {
        forall|k: int|
            0 <= k < self.sources@.len() ==> (#[trigger] self.sources@[k]).wf()
                && self.sources@[k].id == k
    }

    /// A collection without any source.
    pub fn new() -> (r: SourceMap)
        ensures
            r.wf(),
            r@ == Seq::<SourceView>::empty(),
    {
        let r = SourceMap { sources: Vec::new() };
        assert(r@ =~= Seq::<SourceView>::empty());
        r
    }

    /// Push a new source file by its path, name, and text.
    ///
    /// Returns the ID of the newly created source, and `None` with nothing
    /// pushed if the text is too long.
    pub fn push(&mut self, path: String, name: String, text: String) -> (r: Option<usize>)
        requires
            old(self).wf(),
        ensures
            final(self).wf(),
            if text_bytes(&text).len() < u32::MAX {
                r == Some(old(self)@.len() as usize) && final(self)@ == old(self)@.push(
                    SourceView {
                        id: old(self)@.len() as usize,
                        path: path@,
                        name: name@,
                        original: text_bytes(&text),
                    },
                )
            } else {
                r is None && final(self)@ == old(self)@
            },
    {
        let id: usize = self.sources.len();
        match Source::new(id, path, name, text) {
            Some(source) => {
                let ghost view = source@;
                self.sources.push(source);
                assert(self@ =~= old(self)@.push(view));
                Some(id)
            },
            None => None,
        }
    }

    /// Push a new virtual source file with the given content.
    ///
    /// Without a name of its own it is named by its ID. Returns the ID of the
    /// newly created source, and `None` with nothing pushed if the content is
    /// no text or too long.
    pub fn push_virtual(&mut self, content: &[u8], name: Option<&str>) -> (r: Option<usize>)
        requires
            old(self).wf(),
        ensures
            final(self).wf(),
            match with_virtual(old(self)@, content@, name) {
                Some(sources) => r == Some(old(self)@.len() as usize) && final(self)@ == sources,
                None => r is None && final(self)@ == old(self)@,
            },
    {
        proof {
            broadcast use vstd::utf8::decode_utf8_encode_utf8;
            reveal(with_virtual);
        }
        let name = match name {
            Some(name) => String::from_str(name),
            None => {
                let mut bytes = copy_bytes("<virtual-".as_bytes());
                push_digits(&mut bytes, self.sources.len() as u128);
                push_bytes(&mut bytes, ">".as_bytes());
                match utf8_text(bytes) {
                    Some(name) => name,
                    None => return None,
                }
            },
        };
        let Some(text) = utf8_text(copy_bytes(content)) else {
            return None;
        };
        self.push(String::from_str(""), name, text)
    }

    /// Return the source corresponding to the given ID.
    pub fn get(&self, id: usize) -> (r: &Source)
        requires
            self.wf(),
            id < self@.len(),
        ensures
            r.wf(),
            r@ == self@[id as int],
            r.id == id,
    {
        &self.sources[id]
    }

    /// Get the text corresponding to the given span.
    pub fn text(&self, span: SourceSpan) -> (r: Vec<u8>)
        requires
            self.wf(),
        ensures
            r@ == span_text(self@, span),
    {
        if span.id < self.sources.len() {
            let content = &self.sources[span.id].content;
            assert(self.sources@[span.id as int].wf());
            if span.offset <= content.len() && span.len <= content.len() - span.offset {
                let mut out: Vec<u8> = Vec::new();
                let mut i: usize = 0;
                while i < span.len
                    invariant
                        i <= span.len,
                        span.offset + span.len <= content.len(),
                        out@ =~= content@.subrange(span.offset as int, span.offset + i),
                    decreases span.len - i,
                {
                    out.push(content[span.offset + i]);
                    i += 1;
                }
                return out;
            }
        }
        let out: Vec<u8> = Vec::new();
        assert(out@ =~= Seq::<u8>::empty());
        out
    }

    /// Create a diagnostic at the given span; `None` if the span is nowhere.
    pub fn diagnostic(&self, span: SourceSpan, level: DiagnosticLevel, message: Vec<u8>) -> (r: Option<
        Diagnostic,
    >)
        requires
            self.wf(),
        ensures
            r is Some <==> file_line_col_of(self@, span) is Some,
            r is Some ==> ({
                let d = r.unwrap();
                let original = self@[span.id as int].original;
                let (_, line, col) = file_line_col_of(self@, span).unwrap();
                &&& d.level == level
                &&& d.message@ == message@
                &&& d.file@ == self@[span.id as int].name
                &&& d.line@ == line_text(original, physical(original, span.offset as int))
                &&& d.line_no == line
                &&& d.col_no == col
                &&& d.span_len == int_min(span.len as int, int_max0(d.line@.len() - (col - 1)))
            }),
    {
        if self.file_line_col(span).is_none() {
            return None;
        }
        self.sources[span.id].diagnostic(span.offset, span.len, level, message)
    }

    /// Get the file/line/column numbers (1-based) of the given span.
    pub fn file_line_col(&self, span: SourceSpan) -> (r: Option<(usize, u32, u32)>)
        requires
            self.wf(),
        ensures
            r == file_line_col_of(self@, span),
    {
        if span.id >= self.sources.len() || span.id == usize::MAX {
            return None;
        }
        match self.sources[span.id].line_col(span.offset) {
            Some((line, col)) => if line < u32::MAX && col < u32::MAX {
                Some((span.id + 1, line + 1, col + 1))
            } else {
                None
            },
            None => None,
        }
    }
}

} // verus!

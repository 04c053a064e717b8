use vstd::prelude::*;

verus! {

/// How many UTF-16 code units a character takes.
pub open spec fn units16(c: char) -> nat {
    if (c as u32) < 0x10000 {
        1
    } else {
        2
    }
}

/// How many UTF-8 bytes a character takes.
pub open spec fn units8(c: char) -> nat {
    if (c as u32) < 0x80 {
        1
    } else if (c as u32) < 0x800 {
        2
    } else if (c as u32) < 0x10000 {
        3
    } else {
        4
    }
}

/// The length of a text in UTF-16 code units.
pub open spec fn utf16_len(text: Seq<char>) -> nat
    decreases text.len(),
{
    if text.len() == 0 {
        0
    } else {
        utf16_len(text.drop_last()) + units16(text.last())
    }
}

/// The length of a text in UTF-8 bytes.
pub open spec fn utf8_len(text: Seq<char>) -> nat
    decreases text.len(),
{
    if text.len() == 0 {
        0
    } else {
        utf8_len(text.drop_last()) + units8(text.last())
    }
}

/// The first character index at or behind `from` that the UTF-16 offset
/// `offset` does not lie behind. The end of the text counts only for the
/// offset that is the whole length.
pub open spec fn seek_utf16(text: Seq<char>, offset: nat, from: nat) -> Option<nat>
    decreases text.len() - from,
{
    if from >= text.len() {
        if utf16_len(text) == offset {
            Some(text.len())
        } else {
            None
        }
    } else if utf16_len(text.take(from as int)) >= offset {
        Some(from)
    } else {
        seek_utf16(text, offset, from + 1)
    }
}

/// The character index that a UTF-16 offset stands for, if it lies within
/// the text. An offset between the two units of one character stands for the
/// character behind it.
pub open spec fn utf16_to_index(text: Seq<char>, offset: nat) -> Option<nat> {
    seek_utf16(text, offset, 0)
}

/// The byte offset that a UTF-16 offset stands for, if it lies within the
/// text.
pub open spec fn utf16_to_byte(text: Seq<char>, offset: nat) -> Option<nat> {
    match utf16_to_index(text, offset) {
        Some(index) => Some(utf8_len(text.take(index as int))),
        None => None,
    }
}

/// The text with the characters from index `from` up to index `to` replaced
/// by `with`.
pub open spec fn spliced(text: Seq<char>, from: int, to: int, with: Seq<char>) -> Seq<char> {
    text.take(from) + with + text.skip(to)
}

/// What an edit makes of a text. Both ends are UTF-16 offsets; where one of
/// them lies outside the text, or the end lies before the start, the text
/// stays as it is.
pub open spec fn edited(text: Seq<char>, from: nat, to: nat, with: Seq<char>) -> Seq<char> {
    match (utf16_to_index(text, from), utf16_to_index(text, to)) {
        (Some(start), Some(end)) => if start <= end {
            spliced(text, start as int, end as int, with)
        } else {
            text
        },
        _ => text,
    }
}

/// One edit in the model: the two UTF-16 offsets and the new text.
pub struct EditView {
    pub from: nat,
    pub to: nat,
    pub with: Seq<char>,
}

/// What a series of edits makes of a text, each applied to what the edits
/// before it have left.
pub open spec fn edits_applied(text: Seq<char>, edits: Seq<EditView>) -> Seq<char>
    decreases edits.len(),
{
    if edits.len() == 0 {
        text
    } else {
        let before = edits_applied(text, edits.drop_last());
        edited(before, edits.last().from, edits.last().to, edits.last().with)
    }
}

/// `typst::syntax::Source`, a text buffer with its syntax tree. Nothing of
/// its inside is known here but the text, by name.
#[verifier::external_type_specification]
#[verifier::external_body]
pub struct ExSource(typst::syntax::Source);

/// The text that a source buffer holds.
pub uninterp spec fn source_text(source: typst::syntax::Source) -> Seq<char>;

/// Calls `typst::syntax::Source::text` and copies what it returns: the text
/// of the buffer.
#[verifier::external_body]
fn source_to_string(source: &typst::syntax::Source) -> (text: String)
    ensures
        text@ == source_text(*source),
{
    source.text().to_string()
}

/// Whether the table of line starts that a buffer keeps beside its text is
/// the one that belongs to its text. A buffer that was just made has such a
/// table; an edit behind a carriage return can leave another.
pub uninterp spec fn well_lined(source: typst::syntax::Source) -> bool;

/// Calls `typst::syntax::Source::new` with the file of another buffer and a
/// text. The new buffer holds the text, and its table of line starts is made
/// from the text alone.
#[verifier::external_body]
fn source_fresh(like: &typst::syntax::Source, text: &str) -> (source: typst::syntax::Source)
    ensures
        source_text(source) == text@,
        well_lined(source),
{
    typst::syntax::Source::new(like.id(), text.to_string())
}

/// Calls `typst::syntax::Lines::utf16_to_byte` on the buffer's lines. On a
/// table that belongs to the text it walks the characters and stops at the
/// first one whose UTF-16 offset is not below the offset asked for; at the
/// end of the text only the exact length is accepted.
#[verifier::external_body]
fn source_utf16_to_byte(source: &typst::syntax::Source, offset: usize) -> (byte: Option<usize>)
    requires
        well_lined(*source),
    ensures
        byte matches Some(b) ==> utf16_to_byte(source_text(*source), offset as nat) == Some(b as nat),
        byte is None ==> utf16_to_byte(source_text(*source), offset as nat) is None,
{
    source.lines().utf16_to_byte(offset)
}

/// Whether the bytes from `from` up to `to` of a text are its characters
/// from index `start` up to index `end`.
pub open spec fn is_char_range(text: Seq<char>, from: nat, to: nat, start: int, end: int) -> bool {
    &&& 0 <= start <= end <= text.len()
    &&& from == utf8_len(text.take(start))
    &&& to == utf8_len(text.take(end))
}

/// Whether no carriage return stands right before the character with index
/// `start`.
pub open spec fn clear_of_return(text: Seq<char>, start: int) -> bool {
    start <= 0 || start > text.len() || text[start - 1] != '\r'
}

/// Whether the bytes from `from` up to `to` of a text are a range of its
/// characters with no carriage return right before it.
pub open spec fn is_safe_range(text: Seq<char>, from: nat, to: nat) -> bool {
    exists|start: int, end: int| #[trigger]
        is_char_range(text, from, to, start, end) && clear_of_return(text, start)
}

/// Whether `after` is `before` with the bytes from `from` up to `to` replaced
/// by `with`.
pub open spec fn is_edit_of(
    before: Seq<char>,
    from: nat,
    to: nat,
    with: Seq<char>,
    after: Seq<char>,
) -> bool {
    forall|start: int, end: int| #[trigger]
        is_char_range(before, from, to, start, end) ==> after == spliced(before, start, end, with)
}

/// Calls `typst::syntax::Source::edit`, which replaces a range of bytes of
/// the buffer by a text. It panics unless the range lies within the text,
/// on character boundaries, with its start not behind its end, and unless
/// the table of line starts belongs to the text. It mends the table from the
/// start of the range on, which is right as long as no carriage return
/// stands right before the range: behind one, a line feed at the start of
/// the range is part of a line end that began before it.
#[verifier::external_body]
fn source_edit(source: &mut typst::syntax::Source, from: usize, to: usize, with: &str)
    requires
        well_lined(*old(source)),
        is_safe_range(source_text(*old(source)), from as nat, to as nat),
    ensures
        is_edit_of(source_text(*old(source)), from as nat, to as nat, with@, source_text(*final(source))),
        well_lined(*final(source)),
{
    source.edit(from..to, with);
}

/// The line that holds a byte offset of a text, counted from zero; none for
/// an offset behind the text.
pub uninterp spec fn byte_line(text: Seq<char>, byte: nat) -> Option<nat>;

/// The number of characters between the start of its line and a byte
/// offset of a text; none for an offset that is not at a character.
pub uninterp spec fn byte_column(text: Seq<char>, byte: nat) -> Option<nat>;

/// The byte offset of the place at a line and a column of a text, both
/// counted from zero; none for a line that the text does not have.
pub uninterp spec fn line_column_byte(text: Seq<char>, line: nat, column: nat) -> Option<nat>;

/// Calls `typst::syntax::Lines::byte_to_line` on the line table that
/// `typst::syntax::Lines::new` makes of the buffer's text. The buffer's own
/// table is not read, so the answer goes by the text alone.
#[verifier::external_body]
pub(crate) fn source_byte_to_line(source: &typst::syntax::Source, byte: usize) -> (line: Option<usize>)
    ensures
        line matches Some(l) ==> byte_line(source_text(*source), byte as nat) == Some(l as nat),
        line is None ==> byte_line(source_text(*source), byte as nat) is None,
{
    typst::syntax::Lines::new(source.text()).byte_to_line(byte)
}

/// Calls `typst::syntax::Lines::byte_to_column` on the line table that
/// `typst::syntax::Lines::new` makes of the buffer's text. The buffer's own
/// table is not read, so the answer goes by the text alone.
#[verifier::external_body]
pub(crate) fn source_byte_to_column(source: &typst::syntax::Source, byte: usize) -> (column: Option<usize>)
    ensures
        column matches Some(c) ==> byte_column(source_text(*source), byte as nat) == Some(c as nat),
        column is None ==> byte_column(source_text(*source), byte as nat) is None,
{
    typst::syntax::Lines::new(source.text()).byte_to_column(byte)
}

/// Calls `typst::syntax::Lines::line_column_to_byte` on the line table that
/// `typst::syntax::Lines::new` makes of the buffer's text. The buffer's own
/// table is not read, so the answer goes by the text alone.
#[verifier::external_body]
pub(crate) fn source_line_column_to_byte(source: &typst::syntax::Source, line: usize, column: usize) -> (byte: Option<usize>)
    ensures
        byte matches Some(b) ==> line_column_byte(source_text(*source), line as nat, column as nat) == Some(b as nat),
        byte is None ==> line_column_byte(source_text(*source), line as nat, column as nat) is None,
{
    typst::syntax::Lines::new(source.text()).line_column_to_byte(line, column)
}

/// Calls `typst::syntax::Source::clone`; the copy holds the same text and
/// the same table of line starts.
#[verifier::external_body]
fn source_clone(source: &typst::syntax::Source) -> (copy: typst::syntax::Source)
    ensures
        source_text(copy) == source_text(*source),
        well_lined(copy) == well_lined(*source),
{
    source.clone()
}

/// Finds the character index that a UTF-16 offset stands for.
pub fn index_of_utf16(text: &Vec<char>, offset: usize) -> (index: Option<usize>)
    ensures
        match utf16_to_index(text@, offset as nat) {
            Some(at) => index == Some(at as usize) && at <= text.len(),
            None => index is None,
        },
{
    let mut at: usize = 0;
    let mut units: u128 = 0;
    proof {
        assert(text@.take(0) =~= Seq::<char>::empty());
    }
    while at < text.len()
        invariant
            at <= text.len(),
            units == utf16_len(text@.take(at as int)),
            units <= 2 * at,
            seek_utf16(text@, offset as nat, 0) == seek_utf16(text@, offset as nat, at as nat),
        decreases text.len() - at,
    {
        if units >= offset as u128 {
            return Some(at);
        }
        proof {
            assert(text@.take(at + 1).drop_last() =~= text@.take(at as int));
        }
        let c = text[at];
        if (c as u32) < 0x10000 {
            units = units + 1;
        } else {
            units = units + 2;
        }
        at = at + 1;
    }
    proof {
        assert(text@.take(text.len() as int) =~= text@);
    }
    if units == offset as u128 {
        Some(at)
    } else {
        None
    }
}

/// Puts `with` in the place of the characters from index `start` up to index
/// `end` of a text.
pub fn splice(text: &Vec<char>, start: usize, end: usize, with: &str) -> (result: String)
    requires
        start <= end <= text.len(),
    ensures
        result@ == spliced(text@, start as int, end as int, with@),
{
    let mut result = String::new();
    let mut i: usize = 0;
    while i < start
        invariant
            i <= start <= text.len(),
            result@ == text@.take(i as int),
        decreases start - i,
    {
        crate::strings::push_char(&mut result, text[i]);
        assert(text@.take(i + 1) =~= text@.take(i as int).push(text@[i as int]));
        i = i + 1;
    }
    crate::strings::push_text(&mut result, with);
    let ghost head = result@;
    let mut k: usize = end;
    while k < text.len()
        invariant
            end <= k <= text.len(),
            result@ == head + text@.subrange(end as int, k as int),
        decreases text.len() - k,
    {
        crate::strings::push_char(&mut result, text[k]);
        assert(text@.subrange(end as int, k + 1) =~= text@.subrange(end as int, k as int).push(
            text@[k as int],
        ));
        assert(result@ =~= head + text@.subrange(end as int, k + 1));
        k = k + 1;
    }
    proof {
        assert(text@.subrange(end as int, text.len() as int) =~= text@.skip(end as int));
        assert(result@ =~= head + text@.skip(end as int));
    }
    result
}

/// Replaces the text between two UTF-16 offsets of a buffer by `text`. An
/// edit whose offsets do not fit the text as it is now is dropped. The
/// buffer is edited in place unless a carriage return stands right before
/// the range; behind one, the buffer is made anew from the text that the
/// edit leaves.
fn apply_edit(
    source: &mut typst::syntax::Source,
    from_utf16_idx: usize,
    to_utf16_idx: usize,
    text: &str,
)
    requires
        well_lined(*old(source)),
    ensures
        source_text(*final(source)) == edited(
            source_text(*old(source)),
            from_utf16_idx as nat,
            to_utf16_idx as nat,
            text@,
        ),
        well_lined(*final(source)),
{
    let from = source_utf16_to_byte(source, from_utf16_idx);
    let to = source_utf16_to_byte(source, to_utf16_idx);
    if let (Some(from), Some(to)) = (from, to) {
        let ghost before = source_text(*source);
        let chars = crate::strings::chars_of(source_to_string(source).as_str());
        let start = index_of_utf16(&chars, from_utf16_idx);
        let end = index_of_utf16(&chars, to_utf16_idx);
        if let (Some(start), Some(end)) = (start, end) {
            proof {
                if start <= end {
                    lemma_utf8_len_take_grows(before, start as int, end as int);
                } else {
                    lemma_utf8_len_take_grows(before, end as int, start as int);
                }
            }
            if start <= end {
                if start > 0 && chars[start - 1] == '\r' {
                    let left = splice(&chars, start, end, text);
                    *source = source_fresh(source, left.as_str());
                } else {
                    assert(is_char_range(before, from as nat, to as nat, start as int, end as int));
                    assert(clear_of_return(before, start as int));
                    source_edit(source, from, to, text);
                }
            }
        }
    }
}

/// The live text of a document: a buffer of the compiler whose table of
/// line starts belongs to its text.
pub struct Buffer {
    source: typst::syntax::Source,
}

impl Buffer {
    #[verifier::type_invariant]
    spec fn inv(self) -> bool {
        well_lined(self.source)
    }

    /// The text that the buffer holds.
    pub closed spec fn text(&self) -> Seq<char> {
        source_text(self.source)
    }

    /// A buffer for the file of `like` that holds `text`.
    pub fn new(like: &typst::syntax::Source, text: &str) -> (buffer: Buffer)
        ensures
            buffer.text() == text@,
    {
        Buffer { source: source_fresh(like, text) }
    }

    /// A buffer for the same file that holds `text`.
    pub fn with_text(&self, text: &str) -> (buffer: Buffer)
        ensures
            buffer.text() == text@,
    {
        Buffer { source: source_fresh(&self.source, text) }
    }

    /// A copy of the compiler's buffer.
    pub fn source(&self) -> (source: typst::syntax::Source)
        ensures
            source_text(source) == self.text(),
    {
        source_clone(&self.source)
    }

    /// The text that the buffer holds.
    pub fn to_string(&self) -> (text: String)
        ensures
            text@ == self.text(),
    {
        source_to_string(&self.source)
    }

    /// A copy of the buffer.
    pub fn duplicate(&self) -> (copy: Buffer)
        ensures
            copy.text() == self.text(),
    {
        proof {
            use_type_invariant(self);
        }
        Buffer { source: source_clone(&self.source) }
    }

    /// The buffer with the text between two UTF-16 offsets replaced by
    /// `text`. An edit whose offsets do not fit the text as it is now is
    /// dropped.
    pub fn apply_edit(self, from_utf16_idx: usize, to_utf16_idx: usize, text: &str) -> (buffer:
        Buffer)
        ensures
            buffer.text() == edited(
                self.text(),
                from_utf16_idx as nat,
                to_utf16_idx as nat,
                text@,
            ),
    {
        proof {
            use_type_invariant(&self);
        }
        let Buffer { source } = self;
        let mut source = source;
        apply_edit(&mut source, from_utf16_idx, to_utf16_idx, text);
        Buffer { source }
    }
}

/// A search for a UTF-16 offset ends at or behind the place where it
/// started, and within the text.
pub proof fn lemma_seek_utf16_bounds(text: Seq<char>, offset: nat, from: nat)
    requires
        from <= text.len(),
    ensures
        seek_utf16(text, offset, from) matches Some(index) ==> from <= index <= text.len(),
    decreases text.len() - from,
{
    if from < text.len() && utf16_len(text.take(from as int)) < offset {
        lemma_seek_utf16_bounds(text, offset, from + 1);
    }
}

/// A longer prefix of a text has more bytes.
pub proof fn lemma_utf8_len_take_grows(text: Seq<char>, shorter: int, longer: int)
    requires
        0 <= shorter <= longer <= text.len(),
    ensures
        utf8_len(text.take(shorter)) <= utf8_len(text.take(longer)),
        shorter < longer ==> utf8_len(text.take(shorter)) < utf8_len(text.take(longer)),
    decreases longer - shorter,
{
    if shorter < longer {
        lemma_utf8_len_take_grows(text, shorter, longer - 1);
        assert(text.take(longer).drop_last() =~= text.take(longer - 1));
    }
}

/// An edit with an end that lies outside the text changes nothing.
pub proof fn lemma_stale_edit_is_dropped(text: Seq<char>, from: nat, to: nat, with: Seq<char>)
    requires
        utf16_to_index(text, from) is None || utf16_to_index(text, to) is None,
    ensures
        edited(text, from, to, with) == text,
{
}

/// An edit whose ends lie within the text, in order, puts the new text in
/// the place of what lay between them.
pub proof fn lemma_fitting_edit_substitutes(text: Seq<char>, from: nat, to: nat, with: Seq<char>)
    requires
        utf16_to_index(text, from) is Some,
        utf16_to_index(text, to) is Some,
        utf16_to_index(text, from)->0 <= utf16_to_index(text, to)->0,
    ensures
        edited(text, from, to, with) == text.take(utf16_to_index(text, from)->0 as int) + with
            + text.skip(utf16_to_index(text, to)->0 as int),
{
}

/// Applying a series of edits and then a second one is applying both in one
/// series.
pub proof fn lemma_edits_compose(text: Seq<char>, first: Seq<EditView>, second: Seq<EditView>)
    ensures
        edits_applied(text, first + second) == edits_applied(edits_applied(text, first), second),
    decreases second.len(),
{
    if second.len() == 0 {
        assert(first + second =~= first);
    } else {
        lemma_edits_compose(text, first, second.drop_last());
        assert((first + second).drop_last() =~= first + second.drop_last());
        assert((first + second).last() == second.last());
    }
}

} // verus!

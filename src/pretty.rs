//! Re-indenting a markup document, one element per line.
use vstd::prelude::*;
use vstd::string::StringSliceAdditionalSpecFns;
use quick_xml::events::Event;
use quick_xml::{Reader, Writer};
use std::io::Cursor;
use vstd::utf8::{encode_utf8, valid_utf8};

verus! {

/// A markup reader over its own copy of the text; its type's `BufRead` bound
/// keeps it from being declared directly.
#[verifier::external_body]
pub struct MarkupReader {
    reader: Reader<Cursor<Vec<u8>>>,
}

/// An indenting markup writer into a byte buffer; its type's `Write` bound
/// keeps it from being declared directly.
#[verifier::external_body]
pub struct IndentingWriter {
    writer: Writer<Vec<u8>>,
}

#[verifier::external_type_specification]
#[verifier::external_body]
pub struct ExEvent<'a>(Event<'a>);

/// A markup event with the raw bytes it holds: for a tag, what stands
/// between its delimiters.
pub enum EventView {
    Start(Seq<u8>),
    End(Seq<u8>),
    Empty(Seq<u8>),
    Text(Seq<u8>),
    Comment(Seq<u8>),
    CData(Seq<u8>),
    Decl(Seq<u8>),
    PI(Seq<u8>),
    DocType(Seq<u8>),
    /// The end of input.
    Eof,
}

/// The kind and bytes of a reader's event.
pub uninterp spec fn event_view(e: Event<'static>) -> EventView;

/// What one read of a markup reader gives.
pub enum ReadOutcome {
    Event(EventView),
    Finished,
    Failed,
}

/// The outcome of the `k`-th read (from zero) of a fresh reader over `text`
/// that trims text when `trim` holds.
pub uninterp spec fn markup_read(text: Seq<char>, trim: bool, k: nat) -> ReadOutcome;

/// The text a reader reads.
pub uninterp spec fn reader_text(r: MarkupReader) -> Seq<char>;

/// Whether a reader trims text.
pub uninterp spec fn reader_trims(r: MarkupReader) -> bool;

/// How many reads a reader has made.
pub uninterp spec fn reader_reads(r: MarkupReader) -> nat;

/// The bytes a writer has written.
pub uninterp spec fn written(w: IndentingWriter) -> Seq<u8>;

/// A writer's current indentation, in indent characters.
pub uninterp spec fn indent_len(w: IndentingWriter) -> nat;

/// Whether a writer starts its next tag on a new line.
pub uninterp spec fn line_break_due(w: IndentingWriter) -> bool;

/// The character a writer indents with.
pub uninterp spec fn indent_char(w: IndentingWriter) -> u8;

/// The indentation a writer adds per nesting level.
pub uninterp spec fn indent_size(w: IndentingWriter) -> nat;

/// Spaces of indentation per nesting level.
pub const INDENT_SIZE: usize = 4;

/// Why a document could not be re-indented.
#[derive(Debug)]
pub enum PrettyPrintError {
    /// The input is not well-formed markup.
    Markup(quick_xml::Error),
    /// The input did not end within one read more than it has bytes.
    Unfinished,
    /// The re-indented bytes are not UTF-8.
    Encoding,
}

/// Relies on `quick_xml::Reader::from_reader`: a reader at the start of the
/// text, not trimming.
#[verifier::external_body]
fn markup_reader(input: &str) -> (r: MarkupReader)
    ensures
        reader_text(r) == input@,
        reader_reads(r) == 0,
        !reader_trims(r),
{
    MarkupReader { reader: Reader::from_reader(Cursor::new(input.as_bytes().to_vec())) }
}

/// Relies on `quick_xml::Reader::trim_text`: sets whether text around
/// elements is trimmed and whitespace-only text skipped.
#[verifier::external_body]
fn trim_text(reader: &mut MarkupReader, on: bool)
    requires
        reader_reads(*old(reader)) == 0,
    ensures
        reader_text(*final(reader)) == reader_text(*old(reader)),
        reader_reads(*final(reader)) == 0,
        reader_trims(*final(reader)) == on,
{
    reader.reader.trim_text(on);
}

/// Relies on `quick_xml::Reader::read_event`: the next event, owned, or `None`
/// at the end of input.
#[verifier::external_body]
fn read_event(reader: &mut MarkupReader) -> (r: Result<Option<Event<'static>>, quick_xml::Error>)
    ensures
        reader_text(*final(reader)) == reader_text(*old(reader)),
        reader_trims(*final(reader)) == reader_trims(*old(reader)),
        reader_reads(*final(reader)) == reader_reads(*old(reader)) + 1,
        match markup_read(
            reader_text(*old(reader)),
            reader_trims(*old(reader)),
            reader_reads(*old(reader)),
        ) {
            ReadOutcome::Event(e) => r matches Ok(Some(m)) && event_view(m) == e,
            ReadOutcome::Finished => r matches Ok(None),
            ReadOutcome::Failed => r is Err,
        },
{
    let mut buf = Vec::new();
    match reader.reader.read_event(&mut buf) {
        Ok(Event::Eof) => Ok(None),
        Ok(e) => Ok(Some(e.into_owned())),
        Err(e) => Err(e),
    }
}

/// Relies on `quick_xml::Writer::new_with_indent`: an empty writer at
/// indentation zero that indents by `size` copies of `c` per level.
#[verifier::external_body]
fn indenting_writer(c: u8, size: usize) -> (r: IndentingWriter)
    ensures
        written(r) == Seq::<u8>::empty(),
        indent_len(r) == 0,
        !line_break_due(r),
        indent_char(r) == c,
        indent_size(r) == size,
{
    IndentingWriter { writer: Writer::new_with_indent(Vec::new(), c, size) }
}

/// A writer's state: bytes written, indentation, and whether the next tag
/// starts on a new line.
pub struct WriterView {
    pub bytes: Seq<u8>,
    pub level: nat,
    pub line_break: bool,
}

/// A line break and `level` copies of `c`, when `line_break` holds.
pub open spec fn break_text(line_break: bool, level: nat, c: u8) -> Seq<u8> {
    if line_break {
        seq![10u8] + Seq::new(level, |_i: int| c)
    } else {
        Seq::empty()
    }
}

/// The text of an event, as a writer puts it after any line break.
pub open spec fn tag_text(e: EventView) -> Seq<u8> {
    match e {
        EventView::Start(b) => seq![60u8] + b + seq![62u8],
        EventView::End(b) => seq![60u8, 47u8] + b + seq![62u8],
        EventView::Empty(b) => seq![60u8] + b + seq![47u8, 62u8],
        EventView::Text(b) => b,
        EventView::Comment(b) => seq![60u8, 33u8, 45u8, 45u8] + b + seq![45u8, 45u8, 62u8],
        EventView::CData(b) => seq![60u8, 33u8, 91u8, 67u8, 68u8, 65u8, 84u8, 65u8, 91u8] + b
            + seq![93u8, 93u8, 62u8],
        EventView::Decl(b) => seq![60u8, 63u8] + b + seq![63u8, 62u8],
        EventView::PI(b) => seq![60u8, 63u8] + b + seq![63u8, 62u8],
        EventView::DocType(b) => seq![60u8, 33u8, 68u8, 79u8, 67u8, 84u8, 89u8, 80u8, 69u8] + b
            + seq![62u8],
        EventView::Eof => Seq::empty(),
    }
}

/// The indentation after writing `e`: one step deeper after a start tag, one
/// step shallower (not below zero) from an end tag on.
pub open spec fn next_level(level: nat, size: nat, e: EventView) -> nat {
    match e {
        EventView::Start(_) => level + size,
        EventView::End(_) => if level >= size {
            (level - size) as nat
        } else {
            0
        },
        _ => level,
    }
}

/// The writer's state after writing `e`, indenting by `size` copies of `c`:
/// tags other than CDATA start on a new line when one is due, an end tag at
/// its own, shallower level; text and CDATA leave the next tag on their line.
pub open spec fn write_step(s: WriterView, c: u8, size: nat, e: EventView) -> WriterView {
    let level = next_level(s.level, size, e);
    let lead = match e {
        EventView::Text(_) => Seq::empty(),
        EventView::CData(_) => Seq::empty(),
        EventView::Eof => Seq::empty(),
        EventView::End(_) => break_text(s.line_break, level, c),
        _ => break_text(s.line_break, s.level, c),
    };
    WriterView {
        bytes: s.bytes + lead + tag_text(e),
        level,
        line_break: !(e is Text || e is CData),
    }
}

pub open spec fn writer_view(w: IndentingWriter) -> WriterView {
    WriterView { bytes: written(w), level: indent_len(w), line_break: line_break_due(w) }
}

/// Relies on `quick_xml::Writer::write_event`: writes the event, each tag
/// after a line break and the indentation when one is due, growing the
/// indentation after a start tag and shrinking it before an end tag.
#[verifier::external_body]
fn write_event(writer: &mut IndentingWriter, e: &Event<'static>) -> (r: Result<(), quick_xml::Error>)
    requires
        indent_len(*old(writer)) + indent_size(*old(writer)) <= usize::MAX,
    ensures
        r is Ok,
        writer_view(*final(writer)) == write_step(
            writer_view(*old(writer)),
            indent_char(*old(writer)),
            indent_size(*old(writer)),
            event_view(*e),
        ),
        indent_char(*final(writer)) == indent_char(*old(writer)),
        indent_size(*final(writer)) == indent_size(*old(writer)),
{
    writer.writer.write_event(e)
}

/// Relies on `quick_xml::Writer::into_inner`: the bytes written.
#[verifier::external_body]
fn written_bytes(writer: IndentingWriter) -> (r: Vec<u8>)
    ensures
        r@ == written(writer),
{
    writer.writer.into_inner()
}

/// Relies on `String::from_utf8`: the text of the bytes, when they are UTF-8.
#[verifier::external_body]
fn utf8_text(bytes: Vec<u8>) -> (r: Option<String>)
    ensures
        r matches Some(s) ==> encode_utf8(s@) == bytes@,
        r is None ==> !valid_utf8(bytes@),
{
    String::from_utf8(bytes).ok()
}

/// The first `n` reads of `text`, trimming, all give events.
pub open spec fn reads_events(text: Seq<char>, n: nat) -> bool {
    forall|i: nat| i < n ==> (#[trigger] markup_read(text, true, i)) is Event
}

/// `text` reads, trimming, as `n` events and then its end.
pub open spec fn reads_to_end(text: Seq<char>, n: nat) -> bool {
    reads_events(text, n) && markup_read(text, true, n) is Finished
}

/// `text` reads, trimming, as `n` events and then fails.
pub open spec fn fails_at(text: Seq<char>, n: nat) -> bool {
    reads_events(text, n) && markup_read(text, true, n) is Failed
}

/// The events of the first `n` reads of `text`, trimming.
pub open spec fn read_events(text: Seq<char>, n: nat) -> Seq<EventView> {
    Seq::new(
        n,
        |i: int|
            match markup_read(text, true, i as nat) {
                ReadOutcome::Event(e) => e,
                _ => EventView::Text(Seq::empty()),
            },
    )
}

/// The state of a fresh writer indenting by four spaces after writing `evs`.
pub open spec fn rendered(evs: Seq<EventView>) -> WriterView
    decreases evs.len(),
{
    if evs.len() == 0 {
        WriterView { bytes: Seq::empty(), level: 0, line_break: false }
    } else {
        write_step(rendered(evs.drop_last()), 32u8, INDENT_SIZE as nat, evs.last())
    }
}

/// What re-indenting `text`, of `size` bytes, gives: the events of the text
/// written one tag per line when it reads to its end within `size + 1` reads;
/// a markup error when a read fails first; else an error saying so.
pub open spec fn pretty_outcome(
    text: Seq<char>,
    size: nat,
    r: Result<String, PrettyPrintError>,
) -> bool {
    &&& r matches Ok(s) ==> exists|n: nat|
        n <= size && #[trigger] reads_to_end(text, n) && encode_utf8(s@) == rendered(
            read_events(text, n),
        ).bytes
    &&& r matches Err(PrettyPrintError::Encoding) ==> exists|n: nat|
        n <= size && #[trigger] reads_to_end(text, n) && !valid_utf8(
            rendered(read_events(text, n)).bytes,
        )
    &&& r matches Err(PrettyPrintError::Markup(_)) ==> exists|n: nat|
        n <= size && #[trigger] fails_at(text, n)
    &&& r matches Err(PrettyPrintError::Unfinished) ==> reads_events(text, size + 1)
    &&& (exists|n: nat| n <= size && #[trigger] reads_to_end(text, n)) ==> (r is Ok || r matches Err(
        PrettyPrintError::Encoding,
    ))
    &&& (exists|n: nat| n <= size && #[trigger] fails_at(text, n)) ==> r matches Err(
        PrettyPrintError::Markup(_),
    )
}

/// The events' texts back to back, without line breaks or indentation.
pub open spec fn tags_text(evs: Seq<EventView>) -> Seq<u8>
    decreases evs.len(),
{
    if evs.len() == 0 {
        Seq::empty()
    } else {
        tags_text(evs.drop_last()) + tag_text(evs.last())
    }
}

/// `b` without its line feeds and spaces.
pub open spec fn without_breaks(b: Seq<u8>) -> Seq<u8>
    decreases b.len(),
{
    if b.len() == 0 {
        Seq::empty()
    } else if b.last() == 10u8 || b.last() == 32u8 {
        without_breaks(b.drop_last())
    } else {
        without_breaks(b.drop_last()).push(b.last())
    }
}

proof fn lemma_without_breaks_concat(a: Seq<u8>, b: Seq<u8>)
    ensures
        without_breaks(a + b) == without_breaks(a) + without_breaks(b),
    decreases b.len(),
{
    if b.len() == 0 {
        assert(a + b =~= a);
        assert(without_breaks(a) + without_breaks(b) =~= without_breaks(a));
    } else {
        assert((a + b).drop_last() =~= a + b.drop_last());
        assert((a + b).last() == b.last());
        lemma_without_breaks_concat(a, b.drop_last());
        if !(b.last() == 10u8 || b.last() == 32u8) {
            assert(without_breaks(a) + without_breaks(b.drop_last()).push(b.last()) =~= (
            without_breaks(a) + without_breaks(b.drop_last())).push(b.last()));
        }
    }
}

proof fn lemma_indentation_vanishes(n: nat)
    ensures
        without_breaks(Seq::new(n, |_i: int| 32u8)) == Seq::<u8>::empty(),
    decreases n,
{
    if n > 0 {
        assert(Seq::new(n, |_i: int| 32u8).drop_last() =~= Seq::new(
            (n - 1) as nat,
            |_i: int| 32u8,
        ));
        lemma_indentation_vanishes((n - 1) as nat);
    }
}

proof fn lemma_break_vanishes(line_break: bool, level: nat)
    ensures
        without_breaks(break_text(line_break, level, 32u8)) == Seq::<u8>::empty(),
{
    if line_break {
        lemma_without_breaks_concat(seq![10u8], Seq::new(level, |_i: int| 32u8));
        lemma_indentation_vanishes(level);
        assert(seq![10u8].drop_last() =~= Seq::<u8>::empty());
        assert(seq![10u8].last() == 10u8);
        assert(without_breaks(seq![10u8]) == without_breaks(Seq::<u8>::empty()));
        assert(break_text(line_break, level, 32u8) =~= seq![10u8] + Seq::new(level, |_i: int| 32u8));
    }
}

/// Re-indenting only adds line breaks and spaces: with line feeds and spaces
/// removed, what the writer wrote for `evs` equals the events' texts written
/// back to back.
pub proof fn lemma_indentation_only(evs: Seq<EventView>)
    ensures
        without_breaks(rendered(evs).bytes) == without_breaks(tags_text(evs)),
    decreases evs.len(),
{
    if evs.len() > 0 {
        let prev = rendered(evs.drop_last());
        let e = evs.last();
        let level = next_level(prev.level, INDENT_SIZE as nat, e);
        let lead = match e {
            EventView::Text(_) => Seq::empty(),
            EventView::CData(_) => Seq::empty(),
            EventView::Eof => Seq::empty(),
            EventView::End(_) => break_text(prev.line_break, level, 32u8),
            _ => break_text(prev.line_break, prev.level, 32u8),
        };
        assert(rendered(evs).bytes == prev.bytes + lead + tag_text(e));
        lemma_indentation_only(evs.drop_last());
        lemma_without_breaks_concat(prev.bytes + lead, tag_text(e));
        lemma_without_breaks_concat(prev.bytes, lead);
        if lead.len() > 0 {
            lemma_break_vanishes(prev.line_break, if e is End { level } else { prev.level });
        }
        assert(without_breaks(lead) =~= Seq::<u8>::empty());
        lemma_without_breaks_concat(tags_text(evs.drop_last()), tag_text(e));
        assert(without_breaks(prev.bytes) + Seq::<u8>::empty() =~= without_breaks(prev.bytes));
    }
}

/// Two reads that end the events of a text are the same read.
proof fn lemma_single_stop(text: Seq<char>, a: nat, b: nat)
    requires
        reads_events(text, a),
        reads_events(text, b),
        !(markup_read(text, true, a) is Event),
        !(markup_read(text, true, b) is Event),
    ensures
        a == b,
{
    if a < b {
        assert(markup_read(text, true, a) is Event);
    } else if b < a {
        assert(markup_read(text, true, b) is Event);
    }
}

/// Re-emits a markup document with each tag on its own line, indented by four
/// spaces per level, and text trimmed. Fails on malformed markup. The bound on
/// the input's size keeps the indentation, at most four per read, in `usize`.
pub fn pretty_print(input: &str) -> (r: Result<String, PrettyPrintError>)
    requires
        input.spec_bytes().len() <= usize::MAX / 8,
    ensures
        pretty_outcome(input@, input.spec_bytes().len(), r),
{
    let mut reader = markup_reader(input);
    trim_text(&mut reader, true);
    let mut writer = indenting_writer(32u8, INDENT_SIZE);
    // Each event before the end of input consumes at least one byte, so the
    // end is due within one read more than the input has bytes.
    let len = input.len();
    let mut k: usize = 0;
    let ghost text = input@;
    let ghost size = len as nat;
    proof {
        assert(read_events(text, 0) =~= Seq::<EventView>::empty());
    }
    loop
        invariant
            text == input@,
            size == len,
            size == input.spec_bytes().len(),
            len <= usize::MAX / 8,
            k <= len + 1,
            reader_text(reader) == text,
            reader_trims(reader),
            reader_reads(reader) == k,
            reads_events(text, k as nat),
            writer_view(writer) == rendered(read_events(text, k as nat)),
            indent_char(writer) == 32u8,
            indent_size(writer) == INDENT_SIZE,
            indent_len(writer) <= INDENT_SIZE * k,
        decreases len + 1 - k,
    {
        if k > len {
            proof {
                assert forall|n: nat| n <= size && #[trigger] reads_to_end(text, n) implies false by {
                    assert(markup_read(text, true, n) is Event);
                }
                assert forall|n: nat| n <= size && #[trigger] fails_at(text, n) implies false by {
                    assert(markup_read(text, true, n) is Event);
                }
            }
            return Err(PrettyPrintError::Unfinished);
        }
        match read_event(&mut reader) {
            Ok(Some(e)) => {
                proof {
                    assert(indent_len(writer) + indent_size(writer) <= usize::MAX) by (nonlinear_arith)
                        requires
                            indent_len(writer) <= INDENT_SIZE * k,
                            indent_size(writer) == INDENT_SIZE,
                            k <= len,
                            len <= usize::MAX / 8,
                    ;
                }
                match write_event(&mut writer, &e) {
                    Ok(()) => {},
                    Err(err) => {
                        return Err(PrettyPrintError::Markup(err));
                    },
                }
                proof {
                    let prev = read_events(text, k as nat);
                    let next = read_events(text, (k + 1) as nat);
                    assert(next.drop_last() =~= prev);
                    assert(next.last() == event_view(e));
                    assert(reads_events(text, (k + 1) as nat)) by {
                        assert forall|i: nat| i < k + 1 implies (#[trigger] markup_read(
                            text,
                            true,
                            i,
                        )) is Event by {
                            if i < k {
                                assert(markup_read(text, true, i) is Event);
                            }
                        }
                    }
                }
                k = k + 1;
            },
            Ok(None) => {
                let ghost n = k as nat;
                let bytes = written_bytes(writer);
                proof {
                    assert(bytes@ == rendered(read_events(text, n)).bytes);
                    assert(n <= size);
                    assert forall|m: nat| m <= size && #[trigger] fails_at(text, m) implies false by {
                        lemma_single_stop(text, m, n);
                    }
                }
                match utf8_text(bytes) {
                    Some(s) => {
                        proof {
                            assert(reads_to_end(text, n));
                        }
                        return Ok(s);
                    },
                    None => {
                        proof {
                            assert(reads_to_end(text, n));
                        }
                        return Err(PrettyPrintError::Encoding);
                    },
                }
            },
            Err(err) => {
                proof {
                    assert(fails_at(text, k as nat));
                    assert forall|n: nat| n <= size && #[trigger] reads_to_end(text, n) implies false by {
                        lemma_single_stop(text, n, k as nat);
                    }
                }
                return Err(PrettyPrintError::Markup(err));
            },
        }
    }

}

} // verus!

//! The document assembler: one left-to-right pass over the lines of the text,
//! driven by the line classifier, that builds the book / chapter / verse tree.
//!
//! `step` is the transition of the state machine on one trimmed, non-empty
//! line; `run_from` folds it over the lines of the text; `parse_model` is the
//! document that results once the open verse, chapter and book are sealed.

use vstd::prelude::*;

use crate::model::{
    Bible, BibleModel, Book, BookModel, Chapter, ChapterModel, Verse, VerseModel,
};
use crate::text::{
    char_seqs, chars_of, contains_chars, copy_range, find_char, has_infix, is_u32_range,
    is_u32_text, join_range, join_words, lemma_scan_to_bounds, push_all, scan_to, split_words,
    string_from_chars, trim, trim_bounds, words,
};
use crate::titles::{TitleTable, classify, same_chars};

verus! {

/// Number of entries in the Old Testament table of contents.
pub const OT_BOOK_COUNT: usize = 39;

/// Number of entries in the New Testament table of contents.
pub const NT_BOOK_COUNT: usize = 27;

/// The state of the assembler between two lines.
pub struct ParseModel {
    /// What has been sealed so far.
    pub bible: BibleModel,
    /// The open book, if any.
    pub book: Option<BookModel>,
    /// Whether the open book belongs to the Old Testament.
    pub is_ot: bool,
    /// The open chapter, if any.
    pub chapter: Option<ChapterModel>,
    /// The open verse, whose text may still grow.
    pub verse: Option<VerseModel>,
    /// The start marker has been seen.
    pub in_bible: bool,
    /// Inside the table of contents.
    pub in_toc: bool,
    /// Table-of-contents entries go to the Old Testament list.
    pub toc_is_ot: bool,
    /// Inside the body of the text.
    pub in_content: bool,
    /// The previous line opened a book.
    pub last_line_was_book: bool,
}

pub open spec fn start_marker() -> Seq<char> {
    "*** START OF THE PROJECT GUTENBERG"@
}

pub open spec fn old_testament_marker() -> Seq<char> {
    "The Old Testament"@
}

pub open spec fn new_testament_marker() -> Seq<char> {
    "The New Testament"@
}

pub open spec fn samuel_marker() -> Seq<char> {
    "Samuel"@
}

pub open spec fn is_kings(name: Seq<char>) -> bool {
    name == "1 Kings"@ || name == "2 Kings"@
}

pub open spec fn empty_bible() -> BibleModel {
    BibleModel { ot_contents: seq![], ot: seq![], nt_contents: seq![], nt: seq![] }
}

/// The state before the first line.
pub open spec fn initial_model() -> ParseModel {
    ParseModel {
        bible: empty_bible(),
        book: None,
        is_ot: true,
        chapter: None,
        verse: None,
        in_bible: false,
        in_toc: false,
        toc_is_ot: true,
        in_content: false,
        last_line_was_book: false,
    }
}

/// Seals the open verse into the open chapter; with no open chapter the verse
/// is dropped.
pub open spec fn seal_verse(m: ParseModel) -> ParseModel {
    ParseModel {
        chapter: if m.chapter is Some && m.verse is Some {
            Some(
                ChapterModel {
                    number: m.chapter->0.number,
                    verses: m.chapter->0.verses.push(m.verse->0),
                },
            )
        } else {
            m.chapter
        },
        verse: None,
        ..m
    }
}

/// Seals the open chapter into the open book; with no open book the chapter
/// is dropped.
pub open spec fn seal_chapter(m: ParseModel) -> ParseModel {
    ParseModel {
        book: if m.book is Some && m.chapter is Some {
            Some(
                BookModel {
                    name: m.book->0.name,
                    chapters: m.book->0.chapters.push(m.chapter->0),
                },
            )
        } else {
            m.book
        },
        chapter: None,
        ..m
    }
}

/// Seals the open book into its testament.
pub open spec fn seal_book(m: ParseModel) -> ParseModel {
    ParseModel {
        bible: if m.book is Some {
            if m.is_ot {
                BibleModel { ot: m.bible.ot.push(m.book->0), ..m.bible }
            } else {
                BibleModel { nt: m.bible.nt.push(m.book->0), ..m.bible }
            }
        } else {
            m.bible
        },
        book: None,
        ..m
    }
}

/// Seals the open verse, then the open chapter, then the open book.
pub open spec fn flush(m: ParseModel) -> ParseModel {
    seal_book(seal_chapter(seal_verse(m)))
}

/// `t` followed by `extra`, with one space between them unless `t` is empty.
pub open spec fn append_text(t: Seq<char>, extra: Seq<char>) -> Seq<char> {
    if t.len() == 0 {
        extra
    } else {
        t + seq![' '] + extra
    }
}

/// Appends `extra` to the text of the open verse, if there is one.
pub open spec fn extend_verse(m: ParseModel, extra: Seq<char>) -> ParseModel {
    match m.verse {
        Some(v) => ParseModel {
            verse: Some(VerseModel { number: v.number, text: append_text(v.text, extra) }),
            ..m
        },
        None => m,
    }
}

/// `w` is a verse reference: `<u32>:<u32>`, split at its first colon.
pub open spec fn is_verse_ref(w: Seq<char>) -> bool {
    let k = scan_to(w, 0, ':');
    k < w.len() && is_u32_text(w.subrange(0, k)) && is_u32_text(w.subrange(k + 1, w.len() as int))
}

/// The chapter part of a verse reference.
pub open spec fn ref_chapter(w: Seq<char>) -> Seq<char> {
    w.subrange(0, scan_to(w, 0, ':'))
}

/// The verse part of a verse reference.
pub open spec fn ref_verse(w: Seq<char>) -> Seq<char> {
    w.subrange(scan_to(w, 0, ':') + 1, w.len() as int)
}

/// The index of the first verse reference among `ws[i..]`.
pub open spec fn first_ref_from(ws: Seq<Seq<char>>, i: int) -> Option<int>
    decreases ws.len() - i,
    when 0 <= i
{
    if i >= ws.len() {
        None
    } else if is_verse_ref(ws[i]) {
        Some(i)
    } else {
        first_ref_from(ws, i + 1)
    }
}

/// A body line whose words `ws` hold a verse reference at index `i`: the words
/// before it end the open verse, which is sealed; a chapter number other than
/// the open chapter's opens a new chapter; the words after it begin the new
/// verse.
pub open spec fn ref_step(m: ParseModel, ws: Seq<Seq<char>>, i: int) -> ParseModel {
    let m1 = if i > 0 {
        extend_verse(m, join_words(ws.subrange(0, i)))
    } else {
        m
    };
    let m2 = seal_verse(m1);
    let ch = ref_chapter(ws[i]);
    let m3 = if m2.chapter is None || m2.chapter->0.number != ch {
        ParseModel { chapter: Some(ChapterModel { number: ch, verses: seq![] }), ..seal_chapter(m2) }
    } else {
        m2
    };
    ParseModel {
        verse: Some(
            VerseModel {
                number: ref_verse(ws[i]),
                text: join_words(ws.subrange(i + 1, ws.len() as int)),
            },
        ),
        ..m3
    }
}

/// A body line that announces no book. A line without a verse reference
/// continues the open verse, its words joined by single spaces.
pub open spec fn body_step(m: ParseModel, line: Seq<char>) -> ParseModel {
    let m0 = ParseModel { last_line_was_book: false, ..m };
    let ws = words(line);
    match first_ref_from(ws, 0) {
        Some(i) => ref_step(m0, ws, i),
        None => extend_verse(m0, join_words(ws)),
    }
}

/// A body line that announces the book `name`. A Kings header right after
/// another header, or while a Samuel book has no verse yet, is ignored. A
/// header that repeats the name of the open, still empty book keeps that book.
/// Otherwise everything open is sealed and the new book is opened.
pub open spec fn header_step(m: ParseModel, name: Seq<char>, ot: bool) -> ParseModel {
    if !header_accepted(m, name) {
        m
    } else if repeats_open_book(m, name) {
        ParseModel { last_line_was_book: true, ..m }
    } else {
        ParseModel {
            book: Some(BookModel { name, chapters: seq![] }),
            is_ot: ot,
            last_line_was_book: true,
            ..flush(m)
        }
    }
}

/// The header names the open book again before that book has any chapter or
/// verse: a decorative repeat, which keeps the open book and creates no new one.
pub open spec fn repeats_open_book(m: ParseModel, name: Seq<char>) -> bool {
    &&& m.book is Some
    &&& m.book->0.name == name
    &&& m.book->0.chapters.len() == 0
    &&& m.verse is None
}

/// Whether a body header for `name` opens a book: a Kings header is ignored
/// right after another header, and while a Samuel book has no verse yet.
pub open spec fn header_accepted(m: ParseModel, name: Seq<char>) -> bool {
    &&& !(m.last_line_was_book && is_kings(name))
    &&& !(is_kings(name) && m.book is Some && has_infix(m.book->0.name, samuel_marker())
        && m.verse is None)
}

/// Records a table-of-contents entry.
pub open spec fn toc_step(m: ParseModel, name: Seq<char>) -> ParseModel {
    ParseModel {
        bible: if m.toc_is_ot {
            BibleModel { ot_contents: m.bible.ot_contents.push(name), ..m.bible }
        } else {
            BibleModel { nt_contents: m.bible.nt_contents.push(name), ..m.bible }
        },
        ..m
    }
}

/// A line of the body: a book header or body text.
pub open spec fn content_step(m: ParseModel, line: Seq<char>) -> ParseModel {
    match classify(line) {
        Some((name, ot)) => header_step(m, name, ot),
        None => body_step(m, line),
    }
}

/// The transition on one trimmed, non-empty line.
///
/// Before the start marker every line is skipped. After it, an Old Testament
/// marker opens the table of contents, which collects the titles it lists
/// until a second Old Testament marker opens the body. The table of contents
/// is optional: a book header met before any contents marker opens the body
/// at once.
pub open spec fn step(m: ParseModel, line: Seq<char>) -> ParseModel {
    if !m.in_bible {
        if has_infix(line, start_marker()) {
            ParseModel { in_bible: true, ..m }
        } else {
            m
        }
    } else if m.in_content {
        content_step(m, line)
    } else if m.in_toc {
        if has_infix(line, old_testament_marker()) {
            ParseModel { in_content: true, in_toc: false, ..m }
        } else if has_infix(line, new_testament_marker()) {
            ParseModel { toc_is_ot: false, ..m }
        } else {
            match classify(line) {
                Some((name, _)) => toc_step(m, name),
                None => m,
            }
        }
    } else if has_infix(line, old_testament_marker()) {
        ParseModel { in_toc: true, toc_is_ot: true, ..m }
    } else if classify(line) is Some {
        content_step(ParseModel { in_content: true, ..m }, line)
    } else {
        m
    }
}

/// The transition on one raw line: blank lines are skipped.
pub open spec fn line_step(m: ParseModel, raw: Seq<char>) -> ParseModel {
    let t = trim(raw);
    if t.len() == 0 {
        m
    } else {
        step(m, t)
    }
}

/// The state after the lines of `s` that begin at index `p`, the lines being
/// separated by `'\n'`.
pub open spec fn run_from(m: ParseModel, s: Seq<char>, p: int) -> ParseModel
    decreases s.len() - p,
    when 0 <= p <= s.len()
{
    proof {
        lemma_scan_to_bounds(s, p, '\n');
    }
    let k = scan_to(s, p, '\n');
    let m1 = line_step(m, s.subrange(p, k));
    if k >= s.len() {
        m1
    } else {
        run_from(m1, s, k + 1)
    }
}

/// The document assembled from the whole text `s`.
pub open spec fn parse_model(s: Seq<char>) -> BibleModel {
    flush(run_from(initial_model(), s, 0)).bible
}

/// An observable event of the assembler.
pub enum TraceModel {
    BookAccepted(Seq<char>),
    BookSuppressed(Seq<char>),
    ChapterOpened(Seq<char>),
    VerseOpened(Seq<char>),
}

/// The events of a body line with a verse reference at index `i` of `ws`.
pub open spec fn ref_events(m: ParseModel, ws: Seq<Seq<char>>, i: int) -> Seq<TraceModel> {
    let m1 = if i > 0 {
        extend_verse(m, join_words(ws.subrange(0, i)))
    } else {
        m
    };
    let m2 = seal_verse(m1);
    let ch = ref_chapter(ws[i]);
    let opened = if m2.chapter is None || m2.chapter->0.number != ch {
        seq![TraceModel::ChapterOpened(ch)]
    } else {
        seq![]
    };
    opened + seq![TraceModel::VerseOpened(ref_verse(ws[i]))]
}

/// The events of a line of the body.
pub open spec fn content_events(m: ParseModel, line: Seq<char>) -> Seq<TraceModel> {
    match classify(line) {
        Some((name, _)) => if header_accepted(m, name) {
            seq![TraceModel::BookAccepted(name)]
        } else {
            seq![TraceModel::BookSuppressed(name)]
        },
        None => {
            let m0 = ParseModel { last_line_was_book: false, ..m };
            match first_ref_from(words(line), 0) {
                Some(i) => ref_events(m0, words(line), i),
                None => seq![],
            }
        },
    }
}

/// The events of one trimmed, non-empty line, in the state `m`.
pub open spec fn step_events(m: ParseModel, line: Seq<char>) -> Seq<TraceModel> {
    if !m.in_bible {
        seq![]
    } else if m.in_content {
        content_events(m, line)
    } else if m.in_toc || has_infix(line, old_testament_marker()) {
        seq![]
    } else if classify(line) is Some {
        content_events(ParseModel { in_content: true, ..m }, line)
    } else {
        seq![]
    }
}

/// The events of the lines of `s` that begin at index `p`.
pub open spec fn trace_from(m: ParseModel, s: Seq<char>, p: int) -> Seq<TraceModel>
    decreases s.len() - p,
    when 0 <= p <= s.len()
{
    proof {
        lemma_scan_to_bounds(s, p, '\n');
    }
    let k = scan_to(s, p, '\n');
    let t = trim(s.subrange(p, k));
    let here = if t.len() == 0 {
        seq![]
    } else {
        step_events(m, t)
    };
    if k >= s.len() {
        here
    } else {
        here + trace_from(line_step(m, s.subrange(p, k)), s, k + 1)
    }
}

/// The events of assembling the whole text `s`, in order.
pub open spec fn trace_model(s: Seq<char>) -> Seq<TraceModel> {
    trace_from(initial_model(), s, 0)
}

/// An event of the assembler, reported for diagnostics.
#[derive(Clone, Debug, PartialEq, Eq)]
pub enum TraceEvent {
    /// A header for the named book was accepted: it opened the book, or
    /// repeated the name of the open book before any of its chapters.
    BookAccepted(String),
    /// A header for the named book was ignored.
    BookSuppressed(String),
    /// A verse reference opened the numbered chapter.
    ChapterOpened(String),
    /// A verse reference opened the numbered verse.
    VerseOpened(String),
}

impl View for TraceEvent {
    type V = TraceModel;

    open spec fn view(&self) -> TraceModel {
        match self {
            TraceEvent::BookAccepted(n) => TraceModel::BookAccepted(n@),
            TraceEvent::BookSuppressed(n) => TraceModel::BookSuppressed(n@),
            TraceEvent::ChapterOpened(n) => TraceModel::ChapterOpened(n@),
            TraceEvent::VerseOpened(n) => TraceModel::VerseOpened(n@),
        }
    }
}

/// The views of a list of events.
pub open spec fn event_seqs(v: Seq<TraceEvent>) -> Seq<TraceModel> {
    v.map_values(|e: TraceEvent| e@)
}

fn record(events: &mut Vec<TraceEvent>, e: TraceEvent)
    ensures
        event_seqs(final(events)@) == event_seqs(old(events)@).push(e@),
{
    events.push(e);
    assert(event_seqs(events@) =~= event_seqs(old(events)@).push(e@));
}

/// A verse whose text may still grow.
struct OpenVerse {
    number: Vec<char>,
    text: Vec<char>,
}

/// A chapter that may still receive verses.
struct OpenChapter {
    number: Vec<char>,
    verses: Vec<Verse>,
}

/// A book that may still receive chapters.
struct OpenBook {
    name: Vec<char>,
    chapters: Vec<Chapter>,
}

impl View for OpenVerse {
    type V = VerseModel;

    closed spec fn view(&self) -> VerseModel {
        VerseModel { number: self.number@, text: self.text@ }
    }
}

impl View for OpenChapter {
    type V = ChapterModel;

    closed spec fn view(&self) -> ChapterModel {
        ChapterModel { number: self.number@, verses: self.verses@.map_values(|v: Verse| v@) }
    }
}

impl View for OpenBook {
    type V = BookModel;

    closed spec fn view(&self) -> BookModel {
        BookModel { name: self.name@, chapters: self.chapters@.map_values(|c: Chapter| c@) }
    }
}

impl OpenVerse {
    fn seal(self) -> (r: Verse)
        ensures
            r@ == self@,
    {
        Verse { number: string_from_chars(&self.number), text: string_from_chars(&self.text) }
    }
}

impl OpenChapter {
    fn seal(self) -> (r: Chapter)
        ensures
            r@ == self@,
    {
        Chapter { number: string_from_chars(&self.number), verses: self.verses }
    }
}

impl OpenBook {
    fn seal(self) -> (r: Book)
        ensures
            r@ == self@,
    {
        Book { name: string_from_chars(&self.name), chapters: self.chapters }
    }
}

spec fn verse_view(o: Option<OpenVerse>) -> Option<VerseModel> {
    match o {
        Some(v) => Some(v@),
        None => None,
    }
}

spec fn chapter_view(o: Option<OpenChapter>) -> Option<ChapterModel> {
    match o {
        Some(c) => Some(c@),
        None => None,
    }
}

spec fn book_view(o: Option<OpenBook>) -> Option<BookModel> {
    match o {
        Some(b) => Some(b@),
        None => None,
    }
}

/// The executable state machine.
struct Assembler {
    bible: Bible,
    book: Option<OpenBook>,
    is_ot: bool,
    chapter: Option<OpenChapter>,
    verse: Option<OpenVerse>,
    in_bible: bool,
    in_toc: bool,
    toc_is_ot: bool,
    in_content: bool,
    last_line_was_book: bool,
    titles: TitleTable,
    start: Vec<char>,
    old_marker: Vec<char>,
    new_marker: Vec<char>,
    samuel: Vec<char>,
    kings1: Vec<char>,
    kings2: Vec<char>,
}

impl View for Assembler {
    type V = ParseModel;

    closed spec fn view(&self) -> ParseModel {
        ParseModel {
            bible: self.bible@,
            book: book_view(self.book),
            is_ot: self.is_ot,
            chapter: chapter_view(self.chapter),
            verse: verse_view(self.verse),
            in_bible: self.in_bible,
            in_toc: self.in_toc,
            toc_is_ot: self.toc_is_ot,
            in_content: self.in_content,
            last_line_was_book: self.last_line_was_book,
        }
    }
}

impl Assembler {
    closed spec fn wf(&self) -> bool {
        &&& self.titles.wf()
        &&& self.start@ == start_marker()
        &&& self.old_marker@ == old_testament_marker()
        &&& self.new_marker@ == new_testament_marker()
        &&& self.samuel@ == samuel_marker()
        &&& self.kings1@ == "1 Kings"@
        &&& self.kings2@ == "2 Kings"@
    }

    fn new() -> (r: Assembler)
        ensures
            r.wf(),
            r@ == initial_model(),
    {
        let r = Assembler {
            bible: Bible { ot_contents: Vec::new(), ot: Vec::new(), nt_contents: Vec::new(), nt: Vec::new() },
            book: None,
            is_ot: true,
            chapter: None,
            verse: None,
            in_bible: false,
            in_toc: false,
            toc_is_ot: true,
            in_content: false,
            last_line_was_book: false,
            titles: TitleTable::new(),
            start: chars_of("*** START OF THE PROJECT GUTENBERG"),
            old_marker: chars_of("The Old Testament"),
            new_marker: chars_of("The New Testament"),
            samuel: chars_of("Samuel"),
            kings1: chars_of("1 Kings"),
            kings2: chars_of("2 Kings"),
        };
        assert(r@.bible.ot_contents =~= seq![]);
        assert(r@.bible.nt_contents =~= seq![]);
        assert(r@.bible.ot =~= seq![]);
        assert(r@.bible.nt =~= seq![]);
        r
    }

    fn seal_verse(&mut self)
        requires
            old(self).wf(),
        ensures
            final(self).wf(),
            final(self)@ == seal_verse(old(self)@),
    {
        let v = self.verse.take();
        match v {
            Some(ov) => {
                let c = self.chapter.take();
                match c {
                    Some(oc) => {
                        let mut oc = oc;
                        let sealed = ov.seal();
                        let ghost prev = oc@;
                        oc.verses.push(sealed);
                        assert(oc@.verses =~= prev.verses.push(sealed@));
                        self.chapter = Some(oc);
                    },
                    None => {},
                }
            },
            None => {},
        }
    }

    fn seal_chapter(&mut self)
        requires
            old(self).wf(),
        ensures
            final(self).wf(),
            final(self)@ == seal_chapter(old(self)@),
    {
        let c = self.chapter.take();
        match c {
            Some(oc) => {
                let b = self.book.take();
                match b {
                    Some(ob) => {
                        let mut ob = ob;
                        let sealed = oc.seal();
                        let ghost prev = ob@;
                        ob.chapters.push(sealed);
                        assert(ob@.chapters =~= prev.chapters.push(sealed@));
                        self.book = Some(ob);
                    },
                    None => {},
                }
            },
            None => {},
        }
    }

    fn seal_book(&mut self)
        requires
            old(self).wf(),
        ensures
            final(self).wf(),
            final(self)@ == seal_book(old(self)@),
    {
        let b = self.book.take();
        match b {
            Some(ob) => {
                let sealed = ob.seal();
                let ghost prev = self.bible@;
                if self.is_ot {
                    self.bible.ot.push(sealed);
                    assert(self.bible@.ot =~= prev.ot.push(sealed@));
                } else {
                    self.bible.nt.push(sealed);
                    assert(self.bible@.nt =~= prev.nt.push(sealed@));
                }
            },
            None => {},
        }
    }

    fn flush(&mut self)
        requires
            old(self).wf(),
        ensures
            final(self).wf(),
            final(self)@ == flush(old(self)@),
    {
        self.seal_verse();
        self.seal_chapter();
        self.seal_book();
    }

    fn extend_verse(&mut self, extra: &Vec<char>)
        requires
            old(self).wf(),
        ensures
            final(self).wf(),
            final(self)@ == extend_verse(old(self)@, extra@),
    {
        let v = self.verse.take();
        match v {
            Some(ov) => {
                let mut ov = ov;
                let ghost prev = ov.text@;
                if ov.text.len() > 0 {
                    ov.text.push(' ');
                }
                push_all(&mut ov.text, extra);
                assert(ov.text@ =~= append_text(prev, extra@));
                self.verse = Some(ov);
            },
            None => {},
        }
    }

    fn is_kings_exec(&self, name: &Vec<char>) -> (r: bool)
        requires
            self.wf(),
        ensures
            r == is_kings(name@),
    {
        same_chars(name, &self.kings1) || same_chars(name, &self.kings2)
    }

    fn ref_step(&mut self, ws: &Vec<Vec<char>>, i: usize, events: &mut Vec<TraceEvent>)
        requires
            old(self).wf(),
            i < ws.len(),
            is_verse_ref(ws@[i as int]@),
        ensures
            final(self).wf(),
            final(self)@ == ref_step(old(self)@, char_seqs(ws@), i as int),
            event_seqs(final(events)@) == event_seqs(old(events)@) + ref_events(
                old(self)@,
                char_seqs(ws@),
                i as int,
            ),
    {
        let ghost wv = char_seqs(ws@);
        if i > 0 {
            let before = join_range(ws, 0, i);
            self.extend_verse(&before);
        }
        self.seal_verse();
        let w = &ws[i];
        assert(wv[i as int] == w@);
        let k = find_char(w, 0, ':');
        let ch = copy_range(w, 0, k);
        let vn = copy_range(w, k + 1, w.len());
        let new_chapter = match &self.chapter {
            Some(c) => !same_chars(&c.number, &ch),
            None => true,
        };
        let ghost opened = if new_chapter {
            seq![TraceModel::ChapterOpened(ch@)]
        } else {
            seq![]
        };
        if new_chapter {
            record(events, TraceEvent::ChapterOpened(string_from_chars(&ch)));
            self.seal_chapter();
            self.chapter = Some(OpenChapter { number: ch, verses: Vec::new() });
            assert(self.chapter->0@.verses =~= seq![]);
        }
        let text = join_range(ws, i + 1, ws.len());
        record(events, TraceEvent::VerseOpened(string_from_chars(&vn)));
        assert(event_seqs(events@) =~= event_seqs(old(events)@) + (opened + seq![
            TraceModel::VerseOpened(vn@),
        ]));
        self.verse = Some(OpenVerse { number: vn, text });
    }

    fn body_step(&mut self, line: &Vec<char>, events: &mut Vec<TraceEvent>)
        requires
            old(self).wf(),
            classify(line@) is None,
        ensures
            final(self).wf(),
            final(self)@ == body_step(old(self)@, line@),
            event_seqs(final(events)@) == event_seqs(old(events)@) + content_events(
                old(self)@,
                line@,
            ),
    {
        self.last_line_was_book = false;
        let ws = split_words(line);
        let ghost wv = char_seqs(ws@);
        let mut i: usize = 0;
        while i < ws.len()
            invariant
                i <= ws.len(),
                wv == char_seqs(ws@),
                wv == words(line@),
                self.wf(),
                self@ == (ParseModel { last_line_was_book: false, ..old(self)@ }),
                events@ == old(events)@,
                classify(line@) is None,
                first_ref_from(wv, 0) == first_ref_from(wv, i as int),
            decreases ws.len() - i,
        {
            if is_verse_ref_exec(&ws[i]) {
                assert(wv[i as int] == ws@[i as int]@);
                let ghost m0 = self@;
                assert(first_ref_from(wv, i as int) == Some(i as int));
                self.ref_step(&ws, i, events);
                assert(content_events(old(self)@, line@) == ref_events(m0, wv, i as int));
                return;
            }
            assert(wv[i as int] == ws@[i as int]@);
            i = i + 1;
        }
        assert(event_seqs(events@) =~= event_seqs(old(events)@) + seq![]);
        let joined = join_range(&ws, 0, ws.len());
        assert(wv.subrange(0, ws.len() as int) =~= wv);
        self.extend_verse(&joined);
    }

    fn header_step(&mut self, name: Vec<char>, ot: bool, events: &mut Vec<TraceEvent>)
        requires
            old(self).wf(),
        ensures
            final(self).wf(),
            final(self)@ == header_step(old(self)@, name@, ot),
            event_seqs(final(events)@) == event_seqs(old(events)@) + seq![
                if header_accepted(old(self)@, name@) {
                    TraceModel::BookAccepted(name@)
                } else {
                    TraceModel::BookSuppressed(name@)
                },
            ],
    {
        let kings = self.is_kings_exec(&name);
        let mut accepted = true;
        if self.last_line_was_book && kings {
            accepted = false;
        } else if kings && self.verse.is_none() {
            let samuel_open = match &self.book {
                Some(b) => contains_chars(&b.name, &self.samuel),
                None => false,
            };
            if samuel_open {
                accepted = false;
            }
        }
        let label = string_from_chars(&name);
        if !accepted {
            record(events, TraceEvent::BookSuppressed(label));
            return;
        }
        record(events, TraceEvent::BookAccepted(label));
        let repeat = match &self.book {
            Some(b) => b.chapters.len() == 0 && self.verse.is_none() && same_chars(&b.name, &name),
            None => false,
        };
        if repeat {
            self.last_line_was_book = true;
            return;
        }
        self.flush();
        self.book = Some(OpenBook { name, chapters: Vec::new() });
        assert(self.book->0@.chapters =~= seq![]);
        self.is_ot = ot;
        self.last_line_was_book = true;
    }

    fn toc_step(&mut self, name: Vec<char>)
        requires
            old(self).wf(),
        ensures
            final(self).wf(),
            final(self)@ == toc_step(old(self)@, name@),
    {
        let entry = string_from_chars(&name);
        let ghost prev = self.bible@;
        if self.toc_is_ot {
            self.bible.ot_contents.push(entry);
            assert(self.bible@.ot_contents =~= prev.ot_contents.push(name@));
        } else {
            self.bible.nt_contents.push(entry);
            assert(self.bible@.nt_contents =~= prev.nt_contents.push(name@));
        }
    }

    fn content_step(&mut self, line: &Vec<char>, events: &mut Vec<TraceEvent>)
        requires
            old(self).wf(),
        ensures
            final(self).wf(),
            final(self)@ == content_step(old(self)@, line@),
            event_seqs(final(events)@) == event_seqs(old(events)@) + content_events(
                old(self)@,
                line@,
            ),
    {
        match self.titles.classify(line) {
            Some((name, ot)) => self.header_step(name, ot, events),
            None => self.body_step(line, events),
        }
    }

    fn step(&mut self, line: &Vec<char>, events: &mut Vec<TraceEvent>)
        requires
            old(self).wf(),
        ensures
            final(self).wf(),
            final(self)@ == step(old(self)@, line@),
            event_seqs(final(events)@) == event_seqs(old(events)@) + step_events(
                old(self)@,
                line@,
            ),
    {
        assert(event_seqs(events@) =~= event_seqs(events@) + seq![]);
        if !self.in_bible {
            if contains_chars(line, &self.start) {
                self.in_bible = true;
            }
        } else if self.in_content {
            self.content_step(line, events);
        } else if self.in_toc {
            if contains_chars(line, &self.old_marker) {
                self.in_content = true;
                self.in_toc = false;
            } else if contains_chars(line, &self.new_marker) {
                self.toc_is_ot = false;
            } else {
                match self.titles.classify(line) {
                    Some((name, _)) => self.toc_step(name),
                    None => {},
                }
            }
        } else if contains_chars(line, &self.old_marker) {
            self.in_toc = true;
            self.toc_is_ot = true;
        } else if self.titles.classify(line).is_some() {
            self.in_content = true;
            self.content_step(line, events);
        }
    }

    fn finish(self) -> (r: Bible)
        requires
            self.wf(),
        ensures
            r@ == flush(self@).bible,
    {
        let mut me = self;
        me.flush();
        me.bible
    }
}

/// Whether the word `w` is a verse reference.
fn is_verse_ref_exec(w: &Vec<char>) -> (r: bool)
    ensures
        r == is_verse_ref(w@),
{
    let k = find_char(w, 0, ':');
    k < w.len() && is_u32_range(w, 0, k) && is_u32_range(w, k + 1, w.len())
}

/// Whether the table of contents lists every book of both testaments: the
/// completeness cross-check of the collected contents.
pub fn contents_complete(bible: &Bible) -> (r: bool)
    ensures
        r == (bible@.ot_contents.len() == OT_BOOK_COUNT && bible@.nt_contents.len()
            == NT_BOOK_COUNT),
{
    bible.ot_contents.len() == OT_BOOK_COUNT && bible.nt_contents.len() == NT_BOOK_COUNT
}

/// Assembles the document from the full text and reports the events of the
/// assembler in order: everything up to the line that holds the start marker
/// is skipped, the table of contents (if there is one) is collected, and the
/// body is split into books, chapters and verses.
pub fn parse_gutenberg_traced(txt: &str) -> (r: (Bible, Vec<TraceEvent>))
    ensures
        r.0@ == parse_model(txt@),
        event_seqs(r.1@) == trace_model(txt@),
{
    let s = chars_of(txt);
    let mut machine = Assembler::new();
    let mut events: Vec<TraceEvent> = Vec::new();
    let mut p: usize = 0;
    assert(event_seqs(events@) + trace_from(machine@, s@, 0) =~= trace_model(s@));
    loop
        invariant_except_break
            run_from(machine@, s@, p as int) == run_from(initial_model(), s@, 0),
            event_seqs(events@) + trace_from(machine@, s@, p as int) == trace_model(s@),
        invariant
            p <= s.len(),
            machine.wf(),
        ensures
            machine.wf(),
            machine@ == run_from(initial_model(), s@, 0),
            event_seqs(events@) == trace_model(s@),
        decreases s.len() - p,
    {
        let ghost before = machine@;
        let ghost seen = event_seqs(events@);
        let k = find_char(&s, p, '\n');
        let (a, b) = trim_bounds(&s, p, k);
        assert(run_from(before, s@, p as int) == if k >= s.len() {
            line_step(before, s@.subrange(p as int, k as int))
        } else {
            run_from(line_step(before, s@.subrange(p as int, k as int)), s@, k + 1)
        });
        if a < b {
            let line = copy_range(&s, a, b);
            machine.step(&line, &mut events);
        } else {
            assert(seen + seq![] =~= seen);
        }
        let ghost here = event_seqs(events@).subrange(seen.len() as int, event_seqs(events@).len() as int);
        assert(event_seqs(events@) =~= seen + here);
        if k >= s.len() {
            assert(trace_from(before, s@, p as int) == here);
            break;
        }
        assert(trace_from(before, s@, p as int) == here + trace_from(machine@, s@, k + 1));
        assert(seen + (here + trace_from(machine@, s@, k + 1)) =~= event_seqs(events@) + trace_from(machine@, s@, k + 1));
        p = k + 1;
    }
    (machine.finish(), events)
}

/// Assembles the document from the full text: everything up to the line that
/// holds the start marker is skipped, the table of contents (if there is one)
/// is collected, and the body is split into books, chapters and verses.
pub fn parse_gutenberg(txt: &str) -> (r: Bible)
    ensures
        r@ == parse_model(txt@),
{
    let (bible, _) = parse_gutenberg_traced(txt);
    bible
}

} // verus!

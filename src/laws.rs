//! Properties of the assembler that hold for every input text.

use vstd::prelude::*;

use crate::assembler::{
    ParseModel, extend_verse, first_ref_from, flush, initial_model, is_kings, line_step,
    is_verse_ref, old_testament_marker, parse_model, ref_step, run_from, seal_book, seal_chapter, seal_verse, step,
};
use crate::model::{BookModel, ChapterModel};
use crate::text::{has_infix, join_words, lemma_scan_to_bounds, scan_to, trim, words};
use crate::titles::classify;

verus! {

/// Every chapter in `cs` holds at least one verse.
pub open spec fn chapters_have_verses(cs: Seq<ChapterModel>) -> bool {
    forall|j: int| 0 <= j < cs.len() ==> (#[trigger] cs[j]).verses.len() > 0
}

/// Every chapter of every book in `bs` holds at least one verse.
pub open spec fn books_have_verses(bs: Seq<BookModel>) -> bool {
    forall|i: int| 0 <= i < bs.len() ==> chapters_have_verses((#[trigger] bs[i]).chapters)
}

/// The shape that every state reached from the initial one has: a chapter is
/// open exactly when a verse is, every sealed chapter holds a verse, and once
/// the body is reached the table of contents is closed.
pub open spec fn state_ok(m: ParseModel) -> bool {
    &&& (m.chapter is Some <==> m.verse is Some)
    &&& books_have_verses(m.bible.ot)
    &&& books_have_verses(m.bible.nt)
    &&& (m.book is Some ==> chapters_have_verses(m.book->0.chapters))
    &&& (m.in_content ==> m.in_bible && !m.in_toc)
}

proof fn lemma_push_chapter(cs: Seq<ChapterModel>, c: ChapterModel)
    requires
        chapters_have_verses(cs),
        c.verses.len() > 0,
    ensures
        chapters_have_verses(cs.push(c)),
{
    assert forall|j: int| 0 <= j < cs.push(c).len() implies (#[trigger] cs.push(c)[j]).verses.len()
        > 0 by {
        if j < cs.len() {
            assert(cs.push(c)[j] == cs[j]);
        }
    }
}

proof fn lemma_push_book(bs: Seq<BookModel>, b: BookModel)
    requires
        books_have_verses(bs),
        chapters_have_verses(b.chapters),
    ensures
        books_have_verses(bs.push(b)),
{
    assert forall|i: int| 0 <= i < bs.push(b).len() implies chapters_have_verses(
        (#[trigger] bs.push(b)[i]).chapters,
    ) by {
        if i < bs.len() {
            assert(bs.push(b)[i] == bs[i]);
        }
    }
}

proof fn lemma_flush(m: ParseModel)
    requires
        state_ok(m),
    ensures
        state_ok(flush(m)),
        flush(m).chapter is None,
        flush(m).verse is None,
        flush(m).book is None,
{
    let m1 = seal_verse(m);
    if m.chapter is Some {
        assert(m1.chapter->0.verses == m.chapter->0.verses.push(m.verse->0));
    }
    let m2 = seal_chapter(m1);
    if m1.book is Some && m1.chapter is Some {
        lemma_push_chapter(m1.book->0.chapters, m1.chapter->0);
    }
    let m3 = seal_book(m2);
    if m2.book is Some {
        if m2.is_ot {
            lemma_push_book(m2.bible.ot, m2.book->0);
        } else {
            lemma_push_book(m2.bible.nt, m2.book->0);
        }
    }
}

proof fn lemma_ref_step(m: ParseModel, ws: Seq<Seq<char>>, i: int)
    requires
        state_ok(m),
        0 <= i < ws.len(),
    ensures
        state_ok(ref_step(m, ws, i)),
{
    let m1 = if i > 0 {
        extend_verse(m, join_words(ws.subrange(0, i)))
    } else {
        m
    };
    let m2 = seal_verse(m1);
    if m1.chapter is Some {
        assert(m2.chapter->0.verses == m1.chapter->0.verses.push(m1.verse->0));
        if m2.book is Some {
            lemma_push_chapter(m2.book->0.chapters, m2.chapter->0);
        }
    }
}

proof fn lemma_step(m: ParseModel, line: Seq<char>)
    requires
        state_ok(m),
    ensures
        state_ok(step(m, line)),
{
    if m.in_bible && (m.in_content || (!m.in_toc && !has_infix(line, old_testament_marker()))) {
        match classify(line) {
            Some(_) => {
                lemma_flush(m);
            },
            None => {
                let m0 = ParseModel { last_line_was_book: false, ..m };
                match first_ref_from(words(line), 0) {
                    Some(i) => {
                        lemma_first_ref_bounds(words(line), 0);
                        lemma_ref_step(m0, words(line), i);
                    },
                    None => {},
                }
            },
        }
    }
}

proof fn lemma_first_ref_bounds(ws: Seq<Seq<char>>, i: int)
    requires
        0 <= i,
    ensures
        first_ref_from(ws, i) matches Some(k) ==> i <= k < ws.len(),
    decreases ws.len() - i,
{
    if i < ws.len() && !is_verse_ref(ws[i]) {
        lemma_first_ref_bounds(ws, i + 1);
    }
}

/// Every state reached by running lines from a state of the right shape keeps
/// that shape.
pub proof fn lemma_run_keeps_shape(m: ParseModel, s: Seq<char>, p: int)
    requires
        state_ok(m),
        0 <= p <= s.len(),
    ensures
        state_ok(run_from(m, s, p)),
    decreases s.len() - p,
{
    lemma_scan_to_bounds(s, p, '\n');
    let k = scan_to(s, p, '\n');
    let m1 = line_step(m, s.subrange(p, k));
    let t = trim(s.subrange(p, k));
    if t.len() != 0 {
        lemma_step(m, t);
    }
    if k < s.len() {
        lemma_run_keeps_shape(m1, s, k + 1);
    }
}

/// Every sealed chapter of the assembled document holds at least one verse.
pub proof fn sealed_chapters_have_verses(s: Seq<char>)
    ensures
        books_have_verses(parse_model(s).ot),
        books_have_verses(parse_model(s).nt),
{
    let m0 = initial_model();
    assert(state_ok(m0));
    lemma_run_keeps_shape(m0, s, 0);
    lemma_flush(run_from(m0, s, 0));
}

/// A Kings header on the line right after a body line that opened a book is
/// ignored: it opens no book and leaves the state as the first header left it.
pub proof fn kings_header_after_book_header_is_ignored(
    m: ParseModel,
    header: Seq<char>,
    kings: Seq<char>,
)
    requires
        state_ok(m),
        step(m, header).in_content,
        step(m, header).last_line_was_book,
        classify(kings) matches Some((name, _)) && is_kings(name),
    ensures
        step(step(m, header), kings) == step(m, header),
{
    lemma_step(m, header);
}

proof fn lemma_scan_to_first(s: Seq<char>, p: int, k: int, c: char)
    requires
        0 <= p <= k < s.len(),
        s[k] == c,
        forall|j: int| p <= j < k ==> s[j] != c,
    ensures
        scan_to(s, p, c) == k,
    decreases k - p,
{
    if p < k {
        lemma_scan_to_first(s, p + 1, k, c);
    }
}

proof fn lemma_scan_to_shift(s: Seq<char>, p: int, j: int, c: char)
    requires
        0 <= p <= s.len(),
        0 <= j <= s.len() - p,
    ensures
        scan_to(s, p + j, c) == p + scan_to(s.subrange(p, s.len() as int), j, c),
    decreases s.len() - p - j,
{
    if j < s.len() - p && s[p + j] != c {
        lemma_scan_to_shift(s, p, j + 1, c);
    }
}

/// Running the lines from index `p` of `s` is running the lines of the text
/// that starts there.
pub proof fn lemma_run_from_suffix(m: ParseModel, s: Seq<char>, p: int)
    requires
        0 <= p <= s.len(),
    ensures
        run_from(m, s, p) == run_from(m, s.subrange(p, s.len() as int), 0),
    decreases s.len() - p,
{
    let t = s.subrange(p, s.len() as int);
    lemma_scan_to_shift(s, p, 0, '\n');
    lemma_scan_to_bounds(s, p, '\n');
    lemma_scan_to_bounds(t, 0, '\n');
    let k = scan_to(s, p, '\n');
    assert(t.subrange(0, k - p) =~= s.subrange(p, k));
    let m1 = line_step(m, s.subrange(p, k));
    if k < s.len() {
        lemma_run_from_suffix(m1, s, k + 1);
        lemma_run_from_suffix(m1, t, k - p + 1);
        assert(t.subrange(k - p + 1, t.len() as int) =~= s.subrange(k + 1, s.len() as int));
    }
}

/// Deleting a Kings header line that directly follows a line that opened a
/// book in the body leaves the rest of the run unchanged: the text with that
/// line and the text without it lead to the same state.
pub proof fn kings_line_after_book_header_can_be_deleted(
    m: ParseModel,
    header: Seq<char>,
    kings: Seq<char>,
    rest: Seq<char>,
)
    requires
        state_ok(m),
        !header.contains('\n'),
        !kings.contains('\n'),
        line_step(m, header).in_content,
        line_step(m, header).last_line_was_book,
        classify(trim(kings)) matches Some((name, _)) && is_kings(name),
    ensures
        run_from(m, header + seq!['\n'] + kings + seq!['\n'] + rest, 0) == run_from(
            m,
            header + seq!['\n'] + rest,
            0,
        ),
{
    let with = header + seq!['\n'] + kings + seq!['\n'] + rest;
    let without = header + seq!['\n'] + rest;
    let h = header.len() as int;
    let k = kings.len() as int;
    let m1 = line_step(m, header);
    assert forall|j: int| 0 <= j < h implies with[j] != '\n' by {
        assert(with[j] == header[j]);
    }
    assert forall|j: int| 0 <= j < h implies without[j] != '\n' by {
        assert(without[j] == header[j]);
    }
    lemma_scan_to_first(with, 0, h, '\n');
    lemma_scan_to_first(without, 0, h, '\n');
    assert(with.subrange(0, h) =~= header);
    assert(without.subrange(0, h) =~= header);
    assert forall|j: int| h + 1 <= j < h + 1 + k implies with[j] != '\n' by {
        assert(with[j] == kings[j - h - 1]);
    }
    lemma_scan_to_first(with, h + 1, h + 1 + k, '\n');
    assert(with.subrange(h + 1, h + 1 + k) =~= kings);
    let t = trim(header);
    if t.len() != 0 {
        lemma_step(m, t);
    }
    assert(trim(kings).len() != 0);
    assert(step(m1, trim(kings)) == m1);
    assert(line_step(m1, with.subrange(h + 1, h + 1 + k)) == m1);
    assert(with[h] == '\n' && with[h + 1 + k] == '\n' && without[h] == '\n');
    assert(run_from(m, with, 0) == run_from(m1, with, h + 1));
    assert(run_from(m1, with, h + 1) == run_from(m1, with, h + k + 2));
    assert(run_from(m, without, 0) == run_from(m1, without, h + 1));
    lemma_run_from_suffix(m1, with, h + k + 2);
    lemma_run_from_suffix(m1, without, h + 1);
    assert(with.subrange(h + k + 2, with.len() as int) =~= rest);
    assert(without.subrange(h + 1, without.len() as int) =~= rest);
}

proof fn lemma_scan_to_at_most(s: Seq<char>, p: int, q: int, c: char)
    requires
        0 <= p <= q < s.len(),
        s[q] == c,
    ensures
        scan_to(s, p, c) <= q,
    decreases q - p,
{
    if s[p] != c {
        lemma_scan_to_at_most(s, p + 1, q, c);
    }
}

proof fn lemma_scan_to_prefix(a: Seq<char>, x: Seq<char>, p: int, c: char)
    requires
        0 <= p <= a.len(),
        scan_to(a, p, c) < a.len(),
    ensures
        scan_to(a + x, p, c) == scan_to(a, p, c),
    decreases a.len() - p,
{
    if a[p] != c {
        lemma_scan_to_prefix(a, x, p + 1, c);
    }
}

/// Running a text made of whole lines `a` and then `x` is running the lines of
/// `a`, then those of `x`.
pub proof fn lemma_run_from_concat(m: ParseModel, a: Seq<char>, x: Seq<char>, p: int)
    requires
        0 <= p < a.len(),
        a.last() == '\n',
    ensures
        run_from(m, a + x, p) == run_from(run_from(m, a, p), x, 0),
    decreases a.len() - p,
{
    let ax = a + x;
    lemma_scan_to_bounds(a, p, '\n');
    lemma_scan_to_at_most(a, p, a.len() - 1, '\n');
    let k = scan_to(a, p, '\n');
    lemma_scan_to_prefix(a, x, p, '\n');
    assert(ax.subrange(p, k) =~= a.subrange(p, k));
    let m1 = line_step(m, a.subrange(p, k));
    if k + 1 < a.len() {
        lemma_run_from_concat(m1, a, x, k + 1);
    } else {
        lemma_run_from_suffix(m1, ax, k + 1);
        assert(ax.subrange(k + 1, ax.len() as int) =~= x);
        assert(a.subrange(a.len() as int, a.len() as int).len() == 0);
        assert(run_from(m1, a, k + 1) == line_step(m1, a.subrange(k + 1, k + 1)));
        assert(trim(a.subrange(k + 1, k + 1)) =~= seq![]);
    }
}

/// On the whole text: after any run of whole lines `before`, deleting a Kings
/// header line that directly follows a line that opened a book in the body
/// leaves the assembled document unchanged.
pub proof fn kings_line_after_book_header_leaves_document_unchanged(
    before: Seq<char>,
    header: Seq<char>,
    kings: Seq<char>,
    rest: Seq<char>,
)
    requires
        before.len() == 0 || before.last() == '\n',
        !header.contains('\n'),
        !kings.contains('\n'),
        line_step(run_from(initial_model(), before, 0), header).in_content,
        line_step(run_from(initial_model(), before, 0), header).last_line_was_book,
        classify(trim(kings)) matches Some((name, _)) && is_kings(name),
    ensures
        parse_model(before + header + seq!['\n'] + kings + seq!['\n'] + rest) == parse_model(
            before + header + seq!['\n'] + rest,
        ),
{
    let m0 = initial_model();
    let with = header + seq!['\n'] + kings + seq!['\n'] + rest;
    let without = header + seq!['\n'] + rest;
    assert(state_ok(m0));
    let m = if before.len() == 0 {
        assert(trim(before.subrange(0, 0)) =~= seq![]);
        m0
    } else {
        lemma_run_keeps_shape(m0, before, 0);
        lemma_run_from_concat(m0, before, with, 0);
        lemma_run_from_concat(m0, before, without, 0);
        run_from(m0, before, 0)
    };
    if before.len() == 0 {
        assert(before + with =~= with);
        assert(before + without =~= without);
        assert(run_from(m0, before, 0) == m0);
    }
    assert(before + header + seq!['\n'] + kings + seq!['\n'] + rest =~= before + with);
    assert(before + header + seq!['\n'] + rest =~= before + without);
    kings_line_after_book_header_can_be_deleted(m, header, kings, rest);
}

/// A body header that names the open book again, before that book has a
/// chapter or a verse, creates no new book: the open book and everything
/// sealed so far stay as they were.
pub proof fn repeated_header_creates_no_book(m: ParseModel, line: Seq<char>)
    requires
        state_ok(m),
        m.in_content,
        m.book is Some,
        m.book->0.chapters.len() == 0,
        m.verse is None,
        classify(line) matches Some((name, _)) && name == m.book->0.name,
    ensures
        step(m, line).book == m.book,
        step(m, line).bible == m.bible,
{
}

/// Assembling the same text twice gives the same document: the result is a
/// function of the text alone.
pub proof fn parse_is_deterministic(a: Seq<char>, b: Seq<char>)
    requires
        a == b,
    ensures
        parse_model(a) == parse_model(b),
{
}

} // verus!

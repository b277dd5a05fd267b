//! The document tree: testaments of books of chapters of verses, each owned
//! by value by its parent, and the mathematical view of each level.

use vstd::prelude::*;

verus! {

/// One verse: its number as written in the source and its text.
#[derive(Clone, Debug)]
pub struct Verse {
    pub number: String,
    pub text: String,
}

/// One chapter: its number as written in the source and its verses in order.
#[derive(Clone, Debug)]
pub struct Chapter {
    pub number: String,
    pub verses: Vec<Verse>,
}

/// One book: its canonical name and its chapters in order.
#[derive(Clone, Debug)]
pub struct Book {
    pub name: String,
    pub chapters: Vec<Chapter>,
}

/// The whole document: for each testament the canonical names listed in the
/// table of contents and the books of the body.
#[derive(Clone, Debug)]
pub struct Bible {
    pub ot_contents: Vec<String>,
    pub ot: Vec<Book>,
    pub nt_contents: Vec<String>,
    pub nt: Vec<Book>,
}

pub struct VerseModel {
    pub number: Seq<char>,
    pub text: Seq<char>,
}

pub struct ChapterModel {
    pub number: Seq<char>,
    pub verses: Seq<VerseModel>,
}

pub struct BookModel {
    pub name: Seq<char>,
    pub chapters: Seq<ChapterModel>,
}

pub struct BibleModel {
    pub ot_contents: Seq<Seq<char>>,
    pub ot: Seq<BookModel>,
    pub nt_contents: Seq<Seq<char>>,
    pub nt: Seq<BookModel>,
}

impl View for Verse {
    type V = VerseModel;

    open spec fn view(&self) -> VerseModel {
        VerseModel { number: self.number@, text: self.text@ }
    }
}

impl View for Chapter {
    type V = ChapterModel;

    open spec fn view(&self) -> ChapterModel {
        ChapterModel { number: self.number@, verses: self.verses@.map_values(|v: Verse| v@) }
    }
}

impl View for Book {
    type V = BookModel;

    open spec fn view(&self) -> BookModel {
        BookModel { name: self.name@, chapters: self.chapters@.map_values(|c: Chapter| c@) }
    }
}

/// The character sequences held by a vector of strings.
pub open spec fn string_seqs(v: Seq<String>) -> Seq<Seq<char>> {
    v.map_values(|s: String| s@)
}

impl View for Bible {
    type V = BibleModel;

    open spec fn view(&self) -> BibleModel {
        BibleModel {
            ot_contents: string_seqs(self.ot_contents@),
            ot: self.ot@.map_values(|b: Book| b@),
            nt_contents: string_seqs(self.nt_contents@),
            nt: self.nt@.map_values(|b: Book| b@),
        }
    }
}

} // verus!

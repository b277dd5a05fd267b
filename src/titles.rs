//! The line classifier: decides whether a trimmed line announces a book, and
//! if so which canonical book and which testament.
//!
//! The title table is data, checked in a fixed order: exact full-line titles
//! first, then Old Testament prefixes, then the two Kings prefixes (last among
//! the Old Testament rules, so that no other header is taken for Kings), then
//! New Testament prefixes. "Ezra" and "Ecclesiastes" stand in this edition as
//! bare one-word titles, so they are exact matches, not prefixes.

use vstd::prelude::*;

use crate::text::{
    chars_of, copy_range, contains_chars, has_infix, has_prefix, occurs_at_exec,
    starts_with_chars, string_from_chars, trim, trimmed_chars,
};

verus! {

/// A table of (title, canonical name) pairs.
pub type TitleRows = Seq<(Seq<char>, Seq<char>)>;

/// Titles that announce a book only when they make up the whole line: the two
/// Samuel titles, which a numbered-book prefix would otherwise swallow, and the
/// books printed under a bare one-word title.
pub open spec fn exact_titles() -> TitleRows {
    seq![
        ("The First Book of Samuel"@, "1 Samuel"@),
        ("The Second Book of Samuel"@, "2 Samuel"@),
        ("Hosea"@, "Hosea"@),
        ("Joel"@, "Joel"@),
        ("Amos"@, "Amos"@),
        ("Obadiah"@, "Obadiah"@),
        ("Jonah"@, "Jonah"@),
        ("Micah"@, "Micah"@),
        ("Nahum"@, "Nahum"@),
        ("Habakkuk"@, "Habakkuk"@),
        ("Zephaniah"@, "Zephaniah"@),
        ("Haggai"@, "Haggai"@),
        ("Zechariah"@, "Zechariah"@),
        ("Malachi"@, "Malachi"@),
        ("Ezra"@, "Ezra"@),
        ("Ecclesiastes"@, "Ecclesiastes"@),
    ]
}

/// Old Testament titles matched as line prefixes, in the order they are tried.
pub open spec fn ot_titles() -> TitleRows {
    seq![
        ("The First Book of Moses:"@, "Genesis"@),
        ("The Second Book of Moses:"@, "Exodus"@),
        ("The Third Book of Moses:"@, "Leviticus"@),
        ("The Fourth Book of Moses:"@, "Numbers"@),
        ("The Fifth Book of Moses:"@, "Deuteronomy"@),
        ("The Book of Joshua"@, "Joshua"@),
        ("The Book of Judges"@, "Judges"@),
        ("The Book of Ruth"@, "Ruth"@),
        ("The First Book of the Chronicles"@, "1 Chronicles"@),
        ("The Second Book of the Chronicles"@, "2 Chronicles"@),
        ("The Book of Nehemiah"@, "Nehemiah"@),
        ("The Book of Esther"@, "Esther"@),
        ("The Book of Job"@, "Job"@),
        ("The Book of Psalms"@, "Psalms"@),
        ("The Proverbs"@, "Proverbs"@),
        ("The Song of Solomon"@, "Song of Solomon"@),
        ("The Book of the Prophet Isaiah"@, "Isaiah"@),
        ("The Book of the Prophet Jeremiah"@, "Jeremiah"@),
        ("The Lamentations of Jeremiah"@, "Lamentations"@),
        ("The Book of the Prophet Ezekiel"@, "Ezekiel"@),
        ("The Book of Daniel"@, "Daniel"@),
    ]
}

/// The Kings titles, matched as prefixes after every other Old Testament rule.
pub open spec fn kings_titles() -> TitleRows {
    seq![
        ("The First Book of the Kings"@, "1 Kings"@),
        ("The Second Book of the Kings"@, "2 Kings"@),
    ]
}

/// New Testament titles matched as line prefixes, in the order they are tried.
pub open spec fn nt_titles() -> TitleRows {
    seq![
        ("The Gospel According to Saint Matthew"@, "Matthew"@),
        ("The Gospel According to Saint Mark"@, "Mark"@),
        ("The Gospel According to Saint Luke"@, "Luke"@),
        ("The Gospel According to Saint John"@, "John"@),
        ("The Acts of the Apostles"@, "Acts"@),
        ("The Epistle of Paul the Apostle to the Romans"@, "Romans"@),
        ("The First Epistle of Paul the Apostle to the Corinthians"@, "1 Corinthians"@),
        ("The Second Epistle of Paul the Apostle to the Corinthians"@, "2 Corinthians"@),
        ("The Epistle of Paul the Apostle to the Galatians"@, "Galatians"@),
        ("The Epistle of Paul the Apostle to the Ephesians"@, "Ephesians"@),
        ("The Epistle of Paul the Apostle to the Philippians"@, "Philippians"@),
        ("The Epistle of Paul the Apostle to the Colossians"@, "Colossians"@),
        ("The First Epistle of Paul the Apostle to the Thessalonians"@, "1 Thessalonians"@),
        ("The Second Epistle of Paul the Apostle to the Thessalonians"@, "2 Thessalonians"@),
        ("The First Epistle of Paul the Apostle to Timothy"@, "1 Timothy"@),
        ("The Second Epistle of Paul the Apostle to Timothy"@, "2 Timothy"@),
        ("The Epistle of Paul the Apostle to Titus"@, "Titus"@),
        ("The Epistle of Paul the Apostle to Philemon"@, "Philemon"@),
        ("The Epistle of Paul the Apostle to the Hebrews"@, "Hebrews"@),
        ("The General Epistle of James"@, "James"@),
        ("The First Epistle General of Peter"@, "1 Peter"@),
        ("The Second General Epistle of Peter"@, "2 Peter"@),
        ("The First Epistle General of John"@, "1 John"@),
        ("The Second Epistle General of John"@, "2 John"@),
        ("The Third Epistle General of John"@, "3 John"@),
        ("The General Epistle of Jude"@, "Jude"@),
        ("The Revelation of Saint John the Divine"@, "Revelation"@),
    ]
}

/// The marker of an alternate-title annotation, which is never a header.
pub open spec fn alternate_title_marker() -> Seq<char> {
    "Otherwise Called"@
}

/// The canonical name of the first row from `i` on whose title is the whole line.
pub open spec fn lookup_exact(line: Seq<char>, rows: TitleRows, i: int) -> Option<Seq<char>>
    decreases rows.len() - i,
    when 0 <= i
{
    if i >= rows.len() {
        None
    } else if line == rows[i].0 {
        Some(rows[i].1)
    } else {
        lookup_exact(line, rows, i + 1)
    }
}

/// The canonical name of the first row from `i` on whose title begins the line.
pub open spec fn lookup_prefix(line: Seq<char>, rows: TitleRows, i: int) -> Option<Seq<char>>
    decreases rows.len() - i,
    when 0 <= i
{
    if i >= rows.len() {
        None
    } else if has_prefix(line, rows[i].0) {
        Some(rows[i].1)
    } else {
        lookup_prefix(line, rows, i + 1)
    }
}

/// What a trimmed line announces: the canonical book name and whether the book
/// belongs to the Old Testament, or `None` if the line is no book header.
pub open spec fn classify(line: Seq<char>) -> Option<(Seq<char>, bool)> {
    if line.len() == 0 || has_infix(line, alternate_title_marker()) {
        None
    } else {
        match lookup_exact(line, exact_titles(), 0) {
            Some(name) => Some((name, true)),
            None => match lookup_prefix(line, ot_titles(), 0) {
                Some(name) => Some((name, true)),
                None => match lookup_prefix(line, kings_titles(), 0) {
                    Some(name) => Some((name, true)),
                    None => match lookup_prefix(line, nt_titles(), 0) {
                        Some(name) => Some((name, false)),
                        None => None,
                    },
                },
            },
        }
    }
}

/// The view of a classifier answer.
pub open spec fn title_view(r: Option<(Vec<char>, bool)>) -> Option<(Seq<char>, bool)> {
    match r {
        Some((name, ot)) => Some((name@, ot)),
        None => None,
    }
}

/// The view of a classifier answer with an owned name.
pub open spec fn book_line_view(r: Option<(String, bool)>) -> Option<(Seq<char>, bool)> {
    match r {
        Some((name, ot)) => Some((name@, ot)),
        None => None,
    }
}

pub open spec fn row_seqs(v: Seq<(Vec<char>, Vec<char>)>) -> TitleRows {
    v.map_values(|p: (Vec<char>, Vec<char>)| (p.0@, p.1@))
}

pub open spec fn literal_rows(v: Seq<(&str, &str)>) -> TitleRows {
    v.map_values(|p: (&str, &str)| (p.0@, p.1@))
}

fn rows_of(src: &Vec<(&str, &str)>) -> (r: Vec<(Vec<char>, Vec<char>)>)
    ensures
        row_seqs(r@) == literal_rows(src@),
{
    let mut out: Vec<(Vec<char>, Vec<char>)> = Vec::new();
    let mut k: usize = 0;
    while k < src.len()
        invariant
            k <= src.len(),
            row_seqs(out@) == literal_rows(src@.subrange(0, k as int)),
        decreases src.len() - k,
    {
        let pair = src[k];
        let ghost prev = out@;
        let title = chars_of(pair.0);
        let name = chars_of(pair.1);
        out.push((title, name));
        assert(out@ == prev.push((title, name)));
        assert(src@.subrange(0, k + 1) =~= src@.subrange(0, k as int).push(pair));
        assert(row_seqs(out@) =~= row_seqs(prev).push((pair.0@, pair.1@)));
        k = k + 1;
        assert(row_seqs(out@) =~= literal_rows(src@.subrange(0, k as int)));
    }
    assert(src@.subrange(0, k as int) =~= src@);
    out
}

/// The title table in executable form, built once and consulted per line.
pub struct TitleTable {
    exact: Vec<(Vec<char>, Vec<char>)>,
    ot: Vec<(Vec<char>, Vec<char>)>,
    kings: Vec<(Vec<char>, Vec<char>)>,
    nt: Vec<(Vec<char>, Vec<char>)>,
    marker: Vec<char>,
}

impl TitleTable {
    pub closed spec fn wf(&self) -> bool {
        &&& row_seqs(self.exact@) == exact_titles()
        &&& row_seqs(self.ot@) == ot_titles()
        &&& row_seqs(self.kings@) == kings_titles()
        &&& row_seqs(self.nt@) == nt_titles()
        &&& self.marker@ == alternate_title_marker()
    }

    pub fn new() -> (r: TitleTable)
        ensures
            r.wf(),
    {
        let exact: Vec<(&str, &str)> = vec![
            ("The First Book of Samuel", "1 Samuel"),
            ("The Second Book of Samuel", "2 Samuel"),
            ("Hosea", "Hosea"),
            ("Joel", "Joel"),
            ("Amos", "Amos"),
            ("Obadiah", "Obadiah"),
            ("Jonah", "Jonah"),
            ("Micah", "Micah"),
            ("Nahum", "Nahum"),
            ("Habakkuk", "Habakkuk"),
            ("Zephaniah", "Zephaniah"),
            ("Haggai", "Haggai"),
            ("Zechariah", "Zechariah"),
            ("Malachi", "Malachi"),
            ("Ezra", "Ezra"),
            ("Ecclesiastes", "Ecclesiastes"),
        ];
        let ot: Vec<(&str, &str)> = vec![
            ("The First Book of Moses:", "Genesis"),
            ("The Second Book of Moses:", "Exodus"),
            ("The Third Book of Moses:", "Leviticus"),
            ("The Fourth Book of Moses:", "Numbers"),
            ("The Fifth Book of Moses:", "Deuteronomy"),
            ("The Book of Joshua", "Joshua"),
            ("The Book of Judges", "Judges"),
            ("The Book of Ruth", "Ruth"),
            ("The First Book of the Chronicles", "1 Chronicles"),
            ("The Second Book of the Chronicles", "2 Chronicles"),
            ("The Book of Nehemiah", "Nehemiah"),
            ("The Book of Esther", "Esther"),
            ("The Book of Job", "Job"),
            ("The Book of Psalms", "Psalms"),
            ("The Proverbs", "Proverbs"),
            ("The Song of Solomon", "Song of Solomon"),
            ("The Book of the Prophet Isaiah", "Isaiah"),
            ("The Book of the Prophet Jeremiah", "Jeremiah"),
            ("The Lamentations of Jeremiah", "Lamentations"),
            ("The Book of the Prophet Ezekiel", "Ezekiel"),
            ("The Book of Daniel", "Daniel"),
        ];
        let kings: Vec<(&str, &str)> = vec![
            ("The First Book of the Kings", "1 Kings"),
            ("The Second Book of the Kings", "2 Kings"),
        ];
        let nt: Vec<(&str, &str)> = vec![
            ("The Gospel According to Saint Matthew", "Matthew"),
            ("The Gospel According to Saint Mark", "Mark"),
            ("The Gospel According to Saint Luke", "Luke"),
            ("The Gospel According to Saint John", "John"),
            ("The Acts of the Apostles", "Acts"),
            ("The Epistle of Paul the Apostle to the Romans", "Romans"),
            ("The First Epistle of Paul the Apostle to the Corinthians", "1 Corinthians"),
            ("The Second Epistle of Paul the Apostle to the Corinthians", "2 Corinthians"),
            ("The Epistle of Paul the Apostle to the Galatians", "Galatians"),
            ("The Epistle of Paul the Apostle to the Ephesians", "Ephesians"),
            ("The Epistle of Paul the Apostle to the Philippians", "Philippians"),
            ("The Epistle of Paul the Apostle to the Colossians", "Colossians"),
            ("The First Epistle of Paul the Apostle to the Thessalonians", "1 Thessalonians"),
            ("The Second Epistle of Paul the Apostle to the Thessalonians", "2 Thessalonians"),
            ("The First Epistle of Paul the Apostle to Timothy", "1 Timothy"),
            ("The Second Epistle of Paul the Apostle to Timothy", "2 Timothy"),
            ("The Epistle of Paul the Apostle to Titus", "Titus"),
            ("The Epistle of Paul the Apostle to Philemon", "Philemon"),
            ("The Epistle of Paul the Apostle to the Hebrews", "Hebrews"),
            ("The General Epistle of James", "James"),
            ("The First Epistle General of Peter", "1 Peter"),
            ("The Second General Epistle of Peter", "2 Peter"),
            ("The First Epistle General of John", "1 John"),
            ("The Second Epistle General of John", "2 John"),
            ("The Third Epistle General of John", "3 John"),
            ("The General Epistle of Jude", "Jude"),
            ("The Revelation of Saint John the Divine", "Revelation"),
        ];
        assert(literal_rows(exact@) =~= exact_titles());
        assert(literal_rows(ot@) =~= ot_titles());
        assert(literal_rows(kings@) =~= kings_titles());
        assert(literal_rows(nt@) =~= nt_titles());
        TitleTable {
            exact: rows_of(&exact),
            ot: rows_of(&ot),
            kings: rows_of(&kings),
            nt: rows_of(&nt),
            marker: chars_of("Otherwise Called"),
        }
    }

    /// What the trimmed line `line` announces.
    pub fn classify(&self, line: &Vec<char>) -> (r: Option<(Vec<char>, bool)>)
        requires
            self.wf(),
        ensures
            title_view(r) == classify(line@),
    {
        if line.len() == 0 || contains_chars(line, &self.marker) {
            return None;
        }
        if let Some(name) = lookup_exact_exec(line, &self.exact) {
            return Some((name, true));
        }
        if let Some(name) = lookup_prefix_exec(line, &self.ot) {
            return Some((name, true));
        }
        if let Some(name) = lookup_prefix_exec(line, &self.kings) {
            return Some((name, true));
        }
        if let Some(name) = lookup_prefix_exec(line, &self.nt) {
            return Some((name, false));
        }
        None
    }
}

/// Whether two character vectors hold the same characters.
pub fn same_chars(a: &Vec<char>, b: &Vec<char>) -> (r: bool)
    ensures
        r == (a@ == b@),
{
    if a.len() != b.len() {
        return false;
    }
    let r = occurs_at_exec(a, 0, b);
    assert(a@.subrange(0, b@.len() as int) =~= a@);
    r
}

fn lookup_exact_exec(line: &Vec<char>, rows: &Vec<(Vec<char>, Vec<char>)>) -> (r: Option<
    Vec<char>,
>)
    ensures
        match r {
            Some(name) => lookup_exact(line@, row_seqs(rows@), 0) == Some(name@),
            None => lookup_exact(line@, row_seqs(rows@), 0) is None,
        },
{
    let ghost t = row_seqs(rows@);
    let mut i: usize = 0;
    while i < rows.len()
        invariant
            i <= rows.len(),
            t == row_seqs(rows@),
            lookup_exact(line@, t, 0) == lookup_exact(line@, t, i as int),
        decreases rows.len() - i,
    {
        if same_chars(line, &rows[i].0) {
            return Some(copy_range(&rows[i].1, 0, rows[i].1.len()));
        }
        i = i + 1;
    }
    None
}

fn lookup_prefix_exec(line: &Vec<char>, rows: &Vec<(Vec<char>, Vec<char>)>) -> (r: Option<
    Vec<char>,
>)
    ensures
        match r {
            Some(name) => lookup_prefix(line@, row_seqs(rows@), 0) == Some(name@),
            None => lookup_prefix(line@, row_seqs(rows@), 0) is None,
        },
{
    let ghost t = row_seqs(rows@);
    let mut i: usize = 0;
    while i < rows.len()
        invariant
            i <= rows.len(),
            t == row_seqs(rows@),
            lookup_prefix(line@, t, 0) == lookup_prefix(line@, t, i as int),
        decreases rows.len() - i,
    {
        if starts_with_chars(line, &rows[i].0) {
            return Some(copy_range(&rows[i].1, 0, rows[i].1.len()));
        }
        i = i + 1;
    }
    None
}

/// Whether `line`, once trimmed, announces a book: the canonical book name and
/// `true` for the Old Testament, `false` for the New.
pub fn is_book_line(line: &str) -> (r: Option<(String, bool)>)
    ensures
        book_line_view(r) == classify(trim(line@)),
{
    let table = TitleTable::new();
    let t = trimmed_chars(line);
    match table.classify(&t) {
        Some((name, ot)) => Some((string_from_chars(&name), ot)),
        None => None,
    }
}

} // verus!

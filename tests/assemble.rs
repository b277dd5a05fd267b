use kjv_parser::{
    contents_complete, parse_gutenberg, parse_gutenberg_traced, Bible, Book, Chapter, TraceEvent,
    Verse,
};

const OT: [(&str, &str, usize); 39] = [
    ("The First Book of Moses: Called Genesis", "Genesis", 50),
    ("The Second Book of Moses: Called Exodus", "Exodus", 40),
    ("The Third Book of Moses: Called Leviticus", "Leviticus", 27),
    ("The Fourth Book of Moses: Called Numbers", "Numbers", 36),
    ("The Fifth Book of Moses: Called Deuteronomy", "Deuteronomy", 34),
    ("The Book of Joshua", "Joshua", 24),
    ("The Book of Judges", "Judges", 21),
    ("The Book of Ruth", "Ruth", 4),
    ("The First Book of Samuel", "1 Samuel", 31),
    ("The Second Book of Samuel", "2 Samuel", 24),
    ("The First Book of the Kings", "1 Kings", 22),
    ("The Second Book of the Kings", "2 Kings", 25),
    ("The First Book of the Chronicles", "1 Chronicles", 29),
    ("The Second Book of the Chronicles", "2 Chronicles", 36),
    ("Ezra", "Ezra", 10),
    ("The Book of Nehemiah", "Nehemiah", 13),
    ("The Book of Esther", "Esther", 10),
    ("The Book of Job", "Job", 42),
    ("The Book of Psalms", "Psalms", 150),
    ("The Proverbs", "Proverbs", 31),
    ("Ecclesiastes", "Ecclesiastes", 12),
    ("The Song of Solomon", "Song of Solomon", 8),
    ("The Book of the Prophet Isaiah", "Isaiah", 66),
    ("The Book of the Prophet Jeremiah", "Jeremiah", 52),
    ("The Lamentations of Jeremiah", "Lamentations", 5),
    ("The Book of the Prophet Ezekiel", "Ezekiel", 48),
    ("The Book of Daniel", "Daniel", 12),
    ("Hosea", "Hosea", 14),
    ("Joel", "Joel", 3),
    ("Amos", "Amos", 9),
    ("Obadiah", "Obadiah", 1),
    ("Jonah", "Jonah", 4),
    ("Micah", "Micah", 7),
    ("Nahum", "Nahum", 3),
    ("Habakkuk", "Habakkuk", 3),
    ("Zephaniah", "Zephaniah", 3),
    ("Haggai", "Haggai", 2),
    ("Zechariah", "Zechariah", 14),
    ("Malachi", "Malachi", 4),
];

const NT: [(&str, &str, usize); 27] = [
    ("The Gospel According to Saint Matthew", "Matthew", 28),
    ("The Gospel According to Saint Mark", "Mark", 16),
    ("The Gospel According to Saint Luke", "Luke", 24),
    ("The Gospel According to Saint John", "John", 21),
    ("The Acts of the Apostles", "Acts", 28),
    ("The Epistle of Paul the Apostle to the Romans", "Romans", 16),
    ("The First Epistle of Paul the Apostle to the Corinthians", "1 Corinthians", 16),
    ("The Second Epistle of Paul the Apostle to the Corinthians", "2 Corinthians", 13),
    ("The Epistle of Paul the Apostle to the Galatians", "Galatians", 6),
    ("The Epistle of Paul the Apostle to the Ephesians", "Ephesians", 6),
    ("The Epistle of Paul the Apostle to the Philippians", "Philippians", 4),
    ("The Epistle of Paul the Apostle to the Colossians", "Colossians", 4),
    ("The First Epistle of Paul the Apostle to the Thessalonians", "1 Thessalonians", 5),
    ("The Second Epistle of Paul the Apostle to the Thessalonians", "2 Thessalonians", 3),
    ("The First Epistle of Paul the Apostle to Timothy", "1 Timothy", 6),
    ("The Second Epistle of Paul the Apostle to Timothy", "2 Timothy", 4),
    ("The Epistle of Paul the Apostle to Titus", "Titus", 3),
    ("The Epistle of Paul the Apostle to Philemon", "Philemon", 1),
    ("The Epistle of Paul the Apostle to the Hebrews", "Hebrews", 13),
    ("The General Epistle of James", "James", 5),
    ("The First Epistle General of Peter", "1 Peter", 5),
    ("The Second General Epistle of Peter", "2 Peter", 3),
    ("The First Epistle General of John", "1 John", 5),
    ("The Second Epistle General of John", "2 John", 1),
    ("The Third Epistle General of John", "3 John", 1),
    ("The General Epistle of Jude", "Jude", 1),
    ("The Revelation of Saint John the Divine", "Revelation", 22),
];

/// Front matter, the start marker and the full table of contents, followed by
/// the body marker and `body`.
fn document(body: &str) -> String {
    let mut s = String::from("The Project Gutenberg eBook of The King James Bible\r\n\r\n");
    s.push_str("1:1 this reference stands before the start marker\n");
    s.push_str("*** START OF THE PROJECT GUTENBERG EBOOK THE KING JAMES BIBLE ***\n\n");
    s.push_str("The Old Testament of the King James Version of the Bible\n\n");
    for (title, _, _) in OT.iter() {
        s.push_str(title);
        s.push('\n');
    }
    s.push_str("\nThe New Testament of the King James Bible\n\n");
    for (title, _, _) in NT.iter() {
        s.push_str(title);
        s.push('\n');
    }
    s.push_str("\n\n\nThe Old Testament of the King James Version of the Bible\n\n\n");
    s.push_str(body);
    s
}

/// A body in which every book has its canonical number of chapters, each
/// chapter holding two verses.
fn full_body() -> String {
    let mut s = String::new();
    for (title, name, chapters) in OT.iter().chain(NT.iter()) {
        s.push_str(&format!("\n\n{}\n\n", title));
        for c in 1..=*chapters {
            s.push_str(&format!("\n{}:1 First verse of {} chapter {}.\n", c, name, c));
            s.push_str(&format!("{}:2 Second verse of {}\nchapter {}.\n", c, name, c));
        }
    }
    s
}

fn chapter_with_verses(s: &mut String, chapter: usize, verses: usize) {
    for v in 1..=verses {
        s.push_str(&format!("{}:{} Verse {} of chapter {}.\n", chapter, v, v, chapter));
    }
}

fn find_book<'a>(books: &'a [Book], name: &str) -> &'a Book {
    books
        .iter()
        .find(|b| b.name == name)
        .unwrap_or_else(|| panic!("Book {} not found", name))
}

fn find_chapter<'a>(book: &'a Book, number: &str) -> &'a Chapter {
    book.chapters
        .iter()
        .find(|c| c.number == number)
        .unwrap_or_else(|| panic!("Chapter {} not found in {}", number, book.name))
}

fn find_verse<'a>(chapter: &'a Chapter, number: &str) -> &'a Verse {
    chapter
        .verses
        .iter()
        .find(|v| v.number == number)
        .unwrap_or_else(|| panic!("Verse {} not found", number))
}

fn verse_text<'a>(books: &'a [Book], book: &str, chapter: &str, verse: &str) -> &'a str {
    &find_verse(find_chapter(find_book(books, book), chapter), verse).text
}

#[test]
fn every_book_appears_once_in_its_testament() {
    let bible = parse_gutenberg(&document(&full_body()));
    assert_eq!(bible.ot.len(), 39, "Should have 39 OT books");
    assert_eq!(bible.nt.len(), 27, "Should have 27 NT books");
    for (i, (_, name, _)) in OT.iter().enumerate() {
        assert_eq!(bible.ot[i].name, *name);
    }
    for (i, (_, name, _)) in NT.iter().enumerate() {
        assert_eq!(bible.nt[i].name, *name);
    }
}

#[test]
fn table_of_contents_is_collected() {
    let bible = parse_gutenberg(&document(""));
    assert_eq!(bible.ot_contents.len(), 39);
    assert_eq!(bible.nt_contents.len(), 27);
    assert_eq!(bible.ot_contents[0], "Genesis");
    assert_eq!(bible.ot_contents[38], "Malachi");
    assert_eq!(bible.nt_contents[0], "Matthew");
    assert_eq!(bible.nt_contents[26], "Revelation");
    assert!(bible.ot.is_empty());
    assert!(bible.nt.is_empty());
}

#[test]
fn chapter_counts_match_the_canon() {
    let bible = parse_gutenberg(&document(&full_body()));
    for (_, name, chapters) in OT.iter() {
        let book = find_book(&bible.ot, name);
        assert_eq!(book.chapters.len(), *chapters, "{} should have {} chapters", name, chapters);
    }
    for (_, name, chapters) in NT.iter() {
        let book = find_book(&bible.nt, name);
        assert_eq!(book.chapters.len(), *chapters, "{} should have {} chapters", name, chapters);
    }
    assert_eq!(find_book(&bible.ot, "Genesis").chapters.len(), 50);
    assert_eq!(find_book(&bible.ot, "Psalms").chapters.len(), 150);
    assert_eq!(find_book(&bible.nt, "Revelation").chapters.len(), 22);
    assert_eq!(
        verse_text(&bible.ot, "Psalms", "150", "2"),
        "Second verse of Psalms chapter 150."
    );
}

#[test]
fn verse_counts_per_chapter() {
    let mut body = String::from("The First Book of Moses: Called Genesis\n\n");
    chapter_with_verses(&mut body, 1, 31);
    chapter_with_verses(&mut body, 2, 25);
    body.push_str("\nThe Book of Psalms\n\n");
    chapter_with_verses(&mut body, 118, 29);
    chapter_with_verses(&mut body, 119, 176);
    chapter_with_verses(&mut body, 120, 7);
    body.push_str("\nThe Gospel According to Saint Matthew\n\n");
    chapter_with_verses(&mut body, 5, 48);
    body.push_str("\nThe Gospel According to Saint John\n\n");
    chapter_with_verses(&mut body, 3, 36);
    let bible = parse_gutenberg(&document(&body));
    let genesis = find_book(&bible.ot, "Genesis");
    assert_eq!(find_chapter(genesis, "1").verses.len(), 31, "Genesis 1 should have 31 verses");
    assert_eq!(find_chapter(genesis, "2").verses.len(), 25);
    let psalms = find_book(&bible.ot, "Psalms");
    assert_eq!(find_chapter(psalms, "119").verses.len(), 176, "Psalm 119 should have 176 verses");
    assert_eq!(find_chapter(psalms, "120").verses.len(), 7);
    let matthew = find_book(&bible.nt, "Matthew");
    assert_eq!(find_chapter(matthew, "5").verses.len(), 48, "Matthew 5 should have 48 verses");
    let john = find_book(&bible.nt, "John");
    assert_eq!(find_chapter(john, "3").verses.len(), 36, "John 3 should have 36 verses");
    assert_eq!(find_verse(find_chapter(psalms, "119"), "176").text, "Verse 176 of chapter 119.");
}

const ESTHER_8_9: &str = "8:9 Then were the king's scribes called at that time in the third\n\
month, that is, the month Sivan, on the three and twentieth day\n\
thereof; and it was written according to all that Mordecai commanded\n\
unto the Jews, and to the lieutenants, and the deputies and rulers of\n\
the provinces which are from India unto Ethiopia, an hundred twenty\n\
and seven provinces, unto every province according to the writing\n\
thereof, and unto every people after their language, and to the Jews\n\
according to their writing, and according to their language.\n\n\
8:10 And he wrote in the king Ahasuerus' name, and sealed it with the\n\
king's ring.\n";

#[test]
fn verse_texts_are_joined_across_lines() {
    let mut body = String::from("The First Book of Moses: Called Genesis\n\n\n");
    body.push_str("1:1 In the beginning God created the heaven and the earth.\n\n");
    body.push_str("1:2 And the earth was without form, and void; and darkness was upon\n");
    body.push_str("the face of the deep. And the Spirit of God moved upon the face of the\n");
    body.push_str("waters.\n\n");
    body.push_str("\nThe Book of Esther\n\n");
    body.push_str(ESTHER_8_9);
    body.push_str("\nThe Gospel According to Saint John\n\n");
    body.push_str("3:16 For God so loved the world, that he gave his only begotten Son,\n");
    body.push_str("that whosoever believeth in him should not perish, but have\n");
    body.push_str("everlasting life.\n\n");
    body.push_str("11:35 Jesus wept.\n\n11:36 Then said the Jews, Behold how he loved him!\n");
    let bible = parse_gutenberg(&document(&body));
    assert_eq!(
        verse_text(&bible.ot, "Genesis", "1", "1"),
        "In the beginning God created the heaven and the earth."
    );
    assert_eq!(
        verse_text(&bible.ot, "Genesis", "1", "2"),
        "And the earth was without form, and void; and darkness was upon the face of the deep. \
         And the Spirit of God moved upon the face of the waters."
    );
    let john_3_16 = verse_text(&bible.nt, "John", "3", "16");
    assert!(john_3_16.starts_with("For God so loved the world"));
    assert_eq!(
        john_3_16,
        "For God so loved the world, that he gave his only begotten Son, that whosoever \
         believeth in him should not perish, but have everlasting life."
    );
    let jesus_wept = verse_text(&bible.nt, "John", "11", "35");
    assert_eq!(jesus_wept, "Jesus wept.");
    assert!(jesus_wept.len() < 20, "Shortest verse should be very short");
    let esther = verse_text(&bible.ot, "Esther", "8", "9");
    assert!(esther.len() > 300, "Esther 8:9 should be a long verse (>300 chars), got {}", esther.len());
    assert!(esther.ends_with("and according to their language."));
    assert_eq!(
        verse_text(&bible.ot, "Esther", "8", "10"),
        "And he wrote in the king Ahasuerus' name, and sealed it with the king's ring."
    );
}

#[test]
fn words_before_a_reference_end_the_previous_verse() {
    let body = "The Book of Ruth\n\n1:1 Now it came to pass in the days\nwhen the judges ruled. 1:2 And the name of the man was\nElimelech 2:1 And Naomi had a kinsman\n";
    let bible = parse_gutenberg(&document(body));
    let ruth = find_book(&bible.ot, "Ruth");
    assert_eq!(ruth.chapters.len(), 2);
    assert_eq!(ruth.chapters[0].verses.len(), 2);
    assert_eq!(ruth.chapters[0].verses[0].text, "Now it came to pass in the days when the judges ruled.");
    assert_eq!(ruth.chapters[0].verses[1].number, "2");
    assert_eq!(ruth.chapters[0].verses[1].text, "And the name of the man was Elimelech");
    assert_eq!(ruth.chapters[1].number, "2");
    assert_eq!(ruth.chapters[1].verses[0].text, "And Naomi had a kinsman");
}

#[test]
fn whitespace_inside_reference_lines_is_normalised() {
    let body = "The Book of Ruth\n\n1:1   Whither\tthou goest,   I will go\n";
    let bible = parse_gutenberg(&document(body));
    assert_eq!(verse_text(&bible.ot, "Ruth", "1", "1"), "Whither thou goest, I will go");
}

#[test]
fn malformed_references_are_body_text() {
    let body = "The Book of Ruth\n\n1:1 Start a:b 1:x 12: :3 1:2:3 4294967296:1 -1:2 end\n";
    let bible = parse_gutenberg(&document(body));
    let ruth = find_book(&bible.ot, "Ruth");
    assert_eq!(ruth.chapters.len(), 1);
    assert_eq!(ruth.chapters[0].verses.len(), 1);
    assert_eq!(
        ruth.chapters[0].verses[0].text,
        "Start a:b 1:x 12: :3 1:2:3 4294967296:1 -1:2 end"
    );
}

#[test]
fn reference_numbers_keep_their_source_spelling() {
    let body = "The Book of Ruth\n\n01:007 Leading zeros.\n+1:8 A plus sign.\n4294967295:1 Largest.\n";
    let bible = parse_gutenberg(&document(body));
    let ruth = find_book(&bible.ot, "Ruth");
    assert_eq!(ruth.chapters.len(), 3);
    assert_eq!(ruth.chapters[0].number, "01");
    assert_eq!(ruth.chapters[0].verses[0].number, "007");
    assert_eq!(ruth.chapters[1].number, "+1");
    assert_eq!(ruth.chapters[1].verses[0].number, "8");
    assert_eq!(ruth.chapters[2].number, "4294967295");
}

#[test]
fn text_before_the_first_header_is_dropped() {
    let body = "Stray front matter\n1:1 A reference with no book.\nmore text\nThe Book of Ruth\n1:1 Kept.\n";
    let bible = parse_gutenberg(&document(body));
    assert_eq!(bible.ot.len(), 1);
    let ruth = find_book(&bible.ot, "Ruth");
    assert_eq!(ruth.chapters.len(), 1);
    assert_eq!(ruth.chapters[0].verses.len(), 1);
    assert_eq!(ruth.chapters[0].verses[0].text, "Kept.");
}

#[test]
fn nothing_is_parsed_without_the_start_marker() {
    let text = document(&full_body()).replace("*** START OF THE PROJECT GUTENBERG", "*** BEGIN");
    let bible = parse_gutenberg(&text);
    assert!(bible.ot.is_empty() && bible.nt.is_empty());
    assert!(bible.ot_contents.is_empty() && bible.nt_contents.is_empty());
}

#[test]
fn empty_input_gives_an_empty_document() {
    let bible = parse_gutenberg("");
    assert!(bible.ot.is_empty() && bible.nt.is_empty());
    assert!(bible.ot_contents.is_empty() && bible.nt_contents.is_empty());
}

#[test]
fn kings_header_right_after_a_header_is_ignored() {
    let mut body = String::from("The First Book of Samuel\nThe First Book of the Kings\n\n");
    chapter_with_verses(&mut body, 1, 3);
    body.push_str("The Second Book of Samuel\nThe Second Book of the Kings\n");
    chapter_with_verses(&mut body, 1, 2);
    chapter_with_verses(&mut body, 2, 2);
    body.push_str("The Second Book of the Kings\n");
    chapter_with_verses(&mut body, 1, 4);
    let bible = parse_gutenberg(&document(&body));
    let names: Vec<&str> = bible.ot.iter().map(|b| b.name.as_str()).collect();
    assert_eq!(names, vec!["1 Samuel", "2 Samuel", "2 Kings"]);
    let first = find_book(&bible.ot, "1 Samuel");
    assert_eq!(first.chapters.len(), 1);
    assert_eq!(first.chapters[0].verses.len(), 3);
    let second = find_book(&bible.ot, "2 Samuel");
    assert_eq!(second.chapters.len(), 2);
    assert_eq!(bible.ot.iter().filter(|b| b.name == "2 Kings").count(), 1);
    assert_eq!(find_book(&bible.ot, "2 Kings").chapters[0].verses.len(), 4);
}

#[test]
fn kings_header_before_samuel_verses_is_ignored() {
    let mut body = String::from("The Second Book of Samuel\nOtherwise Called: The Second Book of the Kings\n");
    body.push_str("The Second Book of the Kings\n");
    chapter_with_verses(&mut body, 1, 2);
    let bible = parse_gutenberg(&document(&body));
    assert_eq!(bible.ot.len(), 1);
    assert_eq!(bible.ot[0].name, "2 Samuel");
    assert_eq!(bible.ot[0].chapters[0].verses.len(), 2);
}

#[test]
fn kings_header_after_samuel_verses_opens_kings() {
    let mut body = String::from("The Second Book of Samuel\n");
    chapter_with_verses(&mut body, 1, 2);
    body.push_str("The First Book of the Kings\n");
    chapter_with_verses(&mut body, 1, 1);
    let bible = parse_gutenberg(&document(&body));
    let names: Vec<&str> = bible.ot.iter().map(|b| b.name.as_str()).collect();
    assert_eq!(names, vec!["2 Samuel", "1 Kings"]);
}

#[test]
fn a_repeated_header_after_verses_opens_a_new_book() {
    let body = "The Book of Ruth\n1:1 One.\nThe Book of Ruth\n1:2 Two.\n";
    let bible = parse_gutenberg(&document(body));
    assert_eq!(bible.ot.len(), 2);
    assert_eq!(bible.ot[0].chapters[0].verses[0].text, "One.");
    assert_eq!(bible.ot[1].chapters[0].verses[0].number, "2");
}

#[test]
fn new_testament_books_go_to_the_new_testament() {
    let body = "Malachi\n4:6 And he shall turn the heart.\n\nThe Gospel According to Saint Matthew\n1:1 The book of the generation.\n";
    let bible = parse_gutenberg(&document(body));
    assert_eq!(bible.ot.len(), 1);
    assert_eq!(bible.nt.len(), 1);
    assert_eq!(bible.ot[0].name, "Malachi");
    assert_eq!(bible.nt[0].name, "Matthew");
    assert_eq!(bible.ot[0].chapters[0].verses[0].text, "And he shall turn the heart.");
}

#[test]
fn parsing_twice_gives_the_same_document() {
    let text = document(&full_body());
    let a: Bible = parse_gutenberg(&text);
    let b: Bible = parse_gutenberg(&text);
    assert_eq!(format!("{:?}", a), format!("{:?}", b));
}

#[test]
fn sealed_chapters_hold_verses_and_verses_hold_text() {
    let bible = parse_gutenberg(&document(&full_body()));
    for book in bible.ot.iter().chain(bible.nt.iter()) {
        assert!(!book.chapters.is_empty(), "{} has no chapter", book.name);
        for chapter in book.chapters.iter() {
            assert!(!chapter.verses.is_empty());
            for verse in chapter.verses.iter() {
                assert!(verse.text.len() >= 2);
            }
        }
    }
}

#[test]
fn a_reference_with_no_following_text_seals_an_empty_verse() {
    let body = "The Book of Ruth\n1:1\n1:2 Text.\nThe Book of Job\nThe Book of Psalms\n1:1 Blessed.\n";
    let bible = parse_gutenberg(&document(body));
    let ruth = find_book(&bible.ot, "Ruth");
    assert_eq!(ruth.chapters[0].verses[0].text, "");
    assert_eq!(ruth.chapters[0].verses[1].text, "Text.");
    assert!(find_book(&bible.ot, "Job").chapters.is_empty());
}

#[test]
fn continuation_lines_are_whitespace_normalised() {
    let body = "The Book of Ruth\n\n1:16 Whither thou goest,\n   I  will\tgo;   and where\nthou lodgest,\u{a0}I will lodge\n";
    let bible = parse_gutenberg(&document(body));
    assert_eq!(
        verse_text(&bible.ot, "Ruth", "1", "16"),
        "Whither thou goest, I will go; and where thou lodgest, I will lodge"
    );
}

#[test]
fn continuation_after_an_empty_verse_start_has_no_leading_space() {
    let body = "The Book of Ruth\n1:1\n  and  more  \n";
    let bible = parse_gutenberg(&document(body));
    assert_eq!(verse_text(&bible.ot, "Ruth", "1", "1"), "and more");
}

#[test]
fn a_header_without_table_of_contents_opens_the_body() {
    let text = "*** START OF THE PROJECT GUTENBERG EBOOK 10 ***\nThe First Book of Moses: Called Genesis\n1:1 In the beginning God created\nthe heaven and the earth.";
    let bible = parse_gutenberg(text);
    assert_eq!(bible.ot.len(), 1);
    assert!(bible.nt.is_empty());
    assert!(bible.ot_contents.is_empty() && bible.nt_contents.is_empty());
    let genesis = &bible.ot[0];
    assert_eq!(genesis.name, "Genesis");
    assert_eq!(genesis.chapters.len(), 1);
    assert_eq!(genesis.chapters[0].number, "1");
    assert_eq!(genesis.chapters[0].verses.len(), 1);
    assert_eq!(genesis.chapters[0].verses[0].number, "1");
    assert_eq!(
        genesis.chapters[0].verses[0].text,
        "In the beginning God created the heaven and the earth."
    );
    assert!(!contents_complete(&bible));
}

#[test]
fn lines_before_the_first_header_are_skipped_without_contents() {
    let text = "*** START OF THE PROJECT GUTENBERG EBOOK ***\nProduced by volunteers\n1:1 Not a verse yet.\n\nThe Gospel According to Saint Mark\n1:1 The beginning of the gospel.\n";
    let bible = parse_gutenberg(text);
    assert!(bible.ot.is_empty());
    assert_eq!(bible.nt.len(), 1);
    assert_eq!(bible.nt[0].chapters[0].verses.len(), 1);
    assert_eq!(bible.nt[0].chapters[0].verses[0].text, "The beginning of the gospel.");
}

#[test]
fn a_short_table_of_contents_still_ends_at_the_second_marker() {
    let text = "*** START OF THE PROJECT GUTENBERG EBOOK ***\nThe Old Testament\nThe First Book of Moses: Called Genesis\nThe Book of Ruth\nThe New Testament\nThe Gospel According to Saint Mark\n\nThe Old Testament\nThe Book of Ruth\n1:1 Now it came to pass.\n";
    let bible = parse_gutenberg(text);
    assert_eq!(bible.ot_contents, vec!["Genesis".to_string(), "Ruth".to_string()]);
    assert_eq!(bible.nt_contents, vec!["Mark".to_string()]);
    assert!(!contents_complete(&bible));
    assert_eq!(bible.ot.len(), 1);
    assert_eq!(bible.ot[0].name, "Ruth");
    assert_eq!(bible.ot[0].chapters[0].verses[0].text, "Now it came to pass.");
}

#[test]
fn a_full_table_of_contents_is_complete() {
    let bible = parse_gutenberg(&document(""));
    assert!(contents_complete(&bible));
}

#[test]
fn kings_header_right_after_a_header_is_ignored_without_contents() {
    let text = "*** START OF THE PROJECT GUTENBERG EBOOK ***\nThe Second Book of Samuel\nThe Second Book of the Kings\n1:1 Now it came to pass.\nThe Second Book of the Kings\n1:1 Then Moab rebelled.\n";
    let bible = parse_gutenberg(text);
    let names: Vec<&str> = bible.ot.iter().map(|b| b.name.as_str()).collect();
    assert_eq!(names, vec!["2 Samuel", "2 Kings"]);
    assert_eq!(bible.ot[0].chapters[0].verses[0].text, "Now it came to pass.");
}

#[test]
fn trace_reports_books_chapters_and_verses() {
    let text = "*** START OF THE PROJECT GUTENBERG ***\nThe First Book of Samuel\nThe First Book of the Kings\n1:1 Now.\n1:2 Then.\n2:1 Later.\nmore\nThe First Book of the Kings\n1:1 King David.\n";
    let (bible, events) = parse_gutenberg_traced(text);
    assert_eq!(
        events,
        vec![
            TraceEvent::BookAccepted("1 Samuel".to_string()),
            TraceEvent::BookSuppressed("1 Kings".to_string()),
            TraceEvent::ChapterOpened("1".to_string()),
            TraceEvent::VerseOpened("1".to_string()),
            TraceEvent::VerseOpened("2".to_string()),
            TraceEvent::ChapterOpened("2".to_string()),
            TraceEvent::VerseOpened("1".to_string()),
            TraceEvent::BookAccepted("1 Kings".to_string()),
            TraceEvent::ChapterOpened("1".to_string()),
            TraceEvent::VerseOpened("1".to_string()),
        ]
    );
    assert_eq!(format!("{:?}", bible), format!("{:?}", parse_gutenberg(text)));
    assert_eq!(bible.ot[0].chapters[1].verses[0].text, "Later. more");
}

#[test]
fn trace_is_empty_for_front_matter_and_contents() {
    let (bible, events) = parse_gutenberg_traced(&document(""));
    assert!(events.is_empty());
    assert_eq!(bible.ot_contents.len(), 39);
}

#[test]
fn a_repeated_header_before_any_verse_creates_no_book() {
    let body = "The Book of Ruth\nThe Book of Ruth\n1:1 One.\n1:2 Two.\n";
    let bible = parse_gutenberg(&document(body));
    assert_eq!(bible.ot.len(), 1);
    assert_eq!(bible.ot[0].name, "Ruth");
    assert_eq!(bible.ot[0].chapters.len(), 1);
    assert_eq!(bible.ot[0].chapters[0].verses.len(), 2);
}

#[test]
fn a_repeated_header_after_plain_text_creates_no_book() {
    let body = "Psalms\nThe Book of Psalms\nA decorative line\nThe Book of Psalms\n1:1 Blessed is the man.\n";
    let bible = parse_gutenberg(&document(body));
    assert_eq!(bible.ot.len(), 1);
    assert_eq!(bible.ot[0].name, "Psalms");
    assert_eq!(bible.ot[0].chapters[0].verses[0].text, "Blessed is the man.");
}

#[test]
fn a_repeated_header_is_traced_as_accepted() {
    let text = "*** START OF THE PROJECT GUTENBERG ***\nThe Book of Ruth\nThe Book of Ruth\n1:1 One.\n";
    let (bible, events) = parse_gutenberg_traced(text);
    assert_eq!(
        events,
        vec![
            TraceEvent::BookAccepted("Ruth".to_string()),
            TraceEvent::BookAccepted("Ruth".to_string()),
            TraceEvent::ChapterOpened("1".to_string()),
            TraceEvent::VerseOpened("1".to_string()),
        ]
    );
    assert_eq!(bible.ot.len(), 1);
}

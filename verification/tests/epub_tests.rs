use std::io::{Cursor, Read};
use vellum::{Chapter, Epub, Error, MetaConfig, Section};

fn meta(title: &str) -> MetaConfig {
    MetaConfig {
        title: title.to_string(),
        subtitle: None,
        authors: vec!["A".to_string()],
    }
}

fn chapter(title: &str, content: &str) -> Chapter {
    Chapter {
        title: title.to_string(),
        content: content.to_string(),
    }
}

fn demo_book() -> Epub {
    let mut epub = Epub::new(meta("Demo"));
    epub.sections = vec![
        Section {
            title: "Part I".to_string(),
            chapters: vec![
                chapter("Chapter 1", "<p>one</p>"),
                chapter("Chapter 2", "<p>two</p>"),
            ],
        },
        Section {
            title: "Part II".to_string(),
            chapters: vec![
                chapter("Chapter 3", "<p>three</p>"),
                chapter("Chapter 4", "<p>four</p>"),
            ],
        },
    ];
    epub
}

#[test]
fn chapter_item_lines() {
    let c = chapter("Chapter 1", "body");
    assert_eq!(c.slug(), "chapter-1");
    assert_eq!(
        c.manifest_item(),
        "<item id=\"chapter-chapter-1\" href=\"chapter-chapter-1.xhtml\" media-type=\"application/xhtml+xml\"/>"
    );
    assert_eq!(c.spine_item(), "<itemref idref=\"chapter-chapter-1\"/>");
    assert_eq!(
        c.nav_item(),
        "<li><a href=\"chapter-chapter-1.xhtml\">Chapter 1</a></li>"
    );
}

#[test]
fn section_item_lists_follow_chapter_order() {
    let s = Section {
        title: "Part I".to_string(),
        chapters: vec![chapter("B", ""), chapter("A", "")],
    };
    assert_eq!(s.slug(), "part-i");
    let spines = s.spine_items();
    assert_eq!(spines.len(), 2);
    assert_eq!(spines[0], "<itemref idref=\"chapter-b\"/>");
    assert_eq!(spines[1], "<itemref idref=\"chapter-a\"/>");
    assert_eq!(s.manifest_items().len(), 2);
    let navs = s.nav_items();
    assert_eq!(navs[0], "<li><a href=\"chapter-b.xhtml\">B</a></li>");
}

#[test]
fn plan_first_entry_is_stored_mimetype() {
    let entries = demo_book().plan().expect("plan should succeed");
    assert_eq!(entries.len(), 8);
    assert_eq!(entries[0].name, "mimetype");
    assert!(entries[0].stored);
    assert_eq!(entries[0].data, b"application/epub+zip".to_vec());
    assert_eq!(entries[0].data.len(), 20);
    for e in &entries[1..] {
        assert!(!e.stored);
    }
}

#[test]
fn plan_entry_order_is_section_major() {
    let entries = demo_book().plan().expect("plan should succeed");
    let names: Vec<&str> = entries.iter().map(|e| e.name.as_str()).collect();
    assert_eq!(
        names,
        vec![
            "mimetype",
            "META-INF/container.xml",
            "OEBPS/content.opf",
            "OEBPS/nav.xhtml",
            "OEBPS/chapter-chapter-1.xhtml",
            "OEBPS/chapter-chapter-2.xhtml",
            "OEBPS/chapter-chapter-3.xhtml",
            "OEBPS/chapter-chapter-4.xhtml",
        ]
    );
}

#[test]
fn plan_documents_cross_reference_one_slug_per_chapter() {
    let entries = demo_book().plan().expect("plan should succeed");
    let opf = String::from_utf8(entries[2].data.clone()).unwrap();
    let nav = String::from_utf8(entries[3].data.clone()).unwrap();
    for n in 1..=4 {
        let id = format!("chapter-chapter-{n}");
        assert!(opf.contains(&format!(
            "<item id=\"{id}\" href=\"{id}.xhtml\" media-type=\"application/xhtml+xml\"/>"
        )));
        assert!(opf.contains(&format!("<itemref idref=\"{id}\"/>")));
        assert!(nav.contains(&format!(
            "<li><a href=\"{id}.xhtml\">Chapter {n}</a></li>"
        )));
    }
    // no placeholder syntax leaks into rendered documents
    assert!(!opf.contains("{{"));
    assert!(!nav.contains("{{"));
    assert!(opf.contains("content=\"Vellum 0.1\""));
}

#[test]
fn spine_order_follows_section_order() {
    let mut reordered = demo_book();
    reordered.sections.reverse();
    let entries = reordered.plan().expect("plan should succeed");
    let opf = String::from_utf8(entries[2].data.clone()).unwrap();
    let p3 = opf.find("<itemref idref=\"chapter-chapter-3\"/>").unwrap();
    let p4 = opf.find("<itemref idref=\"chapter-chapter-4\"/>").unwrap();
    let p1 = opf.find("<itemref idref=\"chapter-chapter-1\"/>").unwrap();
    let p2 = opf.find("<itemref idref=\"chapter-chapter-2\"/>").unwrap();
    assert!(p3 < p4 && p4 < p1 && p1 < p2);
    assert_eq!(entries[4].name, "OEBPS/chapter-chapter-3.xhtml");
    assert_eq!(entries[7].name, "OEBPS/chapter-chapter-2.xhtml");
}

#[test]
fn generate_demo_archive_end_to_end() {
    let bytes = demo_book().generate().expect("generate should succeed");
    let mut archive = zip::ZipArchive::new(Cursor::new(bytes)).expect("valid zip");
    assert_eq!(archive.len(), 8);

    let expected = [
        "mimetype",
        "META-INF/container.xml",
        "OEBPS/content.opf",
        "OEBPS/nav.xhtml",
        "OEBPS/chapter-chapter-1.xhtml",
        "OEBPS/chapter-chapter-2.xhtml",
        "OEBPS/chapter-chapter-3.xhtml",
        "OEBPS/chapter-chapter-4.xhtml",
    ];
    for (i, want) in expected.iter().enumerate() {
        let entry = archive.by_index(i).unwrap();
        assert_eq!(entry.name(), *want);
    }

    let mut mimetype = archive.by_index(0).unwrap();
    assert_eq!(mimetype.compression(), zip::CompressionMethod::Stored);
    let mut payload = Vec::new();
    mimetype.read_to_end(&mut payload).unwrap();
    assert_eq!(payload, b"application/epub+zip");
    assert_eq!(payload.len(), 20);
    drop(mimetype);

    let mut opf = String::new();
    archive.by_index(2).unwrap().read_to_string(&mut opf).unwrap();
    let spine: Vec<usize> = (1..=4)
        .map(|n| opf.find(&format!("<itemref idref=\"chapter-chapter-{n}\"/>")).unwrap())
        .collect();
    assert!(spine[0] < spine[1] && spine[1] < spine[2] && spine[2] < spine[3]);

    let mut nav = String::new();
    archive.by_index(3).unwrap().read_to_string(&mut nav).unwrap();
    assert_eq!(nav.matches("<li>").count(), 4);

    let mut one = String::new();
    archive.by_index(4).unwrap().read_to_string(&mut one).unwrap();
    assert!(one.contains("<h1>Chapter 1</h1>"));
    assert!(one.contains("<p>one</p>"));
    assert!(!one.contains("{{"));
}

#[test]
fn generate_empty_book_has_fixed_entries_only() {
    let epub = Epub::new(meta("Empty"));
    let bytes = epub.generate().expect("generate should succeed");
    let archive = zip::ZipArchive::new(Cursor::new(bytes)).expect("valid zip");
    assert_eq!(archive.len(), 4);
}

#[test]
fn duplicate_slugs_are_rejected() {
    let mut epub = Epub::new(meta("Demo"));
    epub.sections = vec![Section {
        title: "Part I".to_string(),
        chapters: vec![chapter("Intro!", "a"), chapter("Intro?", "b")],
    }];
    match epub.generate() {
        Err(Error::DuplicateSlug(s)) => {
            assert_eq!(s, "intro-");
        }
        other => panic!("expected a duplicate-slug error, got {:?}", other.is_ok()),
    }
    assert!(epub.plan().is_err());
}

#[test]
fn error_message_names_the_slug() {
    let mut epub = Epub::new(meta("Demo"));
    epub.sections = vec![Section {
        title: "S".to_string(),
        chapters: vec![chapter("A b", "x"), chapter("a-B", "y")],
    }];
    match epub.generate() {
        Err(e) => assert_eq!(e.message(), "duplicate chapter slug: a-b"),
        Ok(_) => panic!("expected an error"),
    }
}

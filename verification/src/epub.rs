//! The book model and the assembly of the EPUB archive: one `mimetype`
//! entry (first, stored uncompressed), a container descriptor, a package
//! document, a navigation document, and one XHTML document per chapter, all
//! cross-referenced through one slug computation per chapter.

use crate::archive::{
    add_entry, archive_fits, entry_fits, finish_writer, new_writer, written_entries, zip_bytes,
};
use crate::config::MetaConfig;
use crate::error::Error;
use crate::slug::{slug, slug_chars};
use crate::template::{render_text, Template};
use vstd::prelude::*;
use vstd::utf8::encode_utf8;

verus! {

/// A chapter: a title and the raw XHTML body text written into the chapter
/// document.
pub struct Chapter {
    pub title: String,
    pub content: String,
}

/// An ordered group of chapters; section order and chapter order together
/// determine reading order.
pub struct Section {
    pub title: String,
    pub chapters: Vec<Chapter>,
}

/// A book about to be generated: metadata plus the ordered sections.
pub struct Epub {
    pub meta: MetaConfig,
    pub sections: Vec<Section>,
}

/// One entry of the planned archive: path, payload, and whether the entry
/// is stored uncompressed rather than deflated.
pub struct ArchiveEntry {
    pub name: String,
    pub data: Vec<u8>,
    pub stored: bool,
}

/// The chapters of all sections in section-major, chapter-minor order.
pub open spec fn flat_chapters(ss: Seq<Section>) -> Seq<Chapter>
    decreases ss.len(),
{
    if ss.len() == 0 {
        Seq::empty()
    } else {
        ss[0].chapters@ + flat_chapters(ss.drop_first())
    }
}

/// Appending a section appends its chapters to the traversal.
pub proof fn lemma_flat_chapters_push(ss: Seq<Section>, s: Section)
    ensures
        flat_chapters(ss.push(s)) == flat_chapters(ss) + s.chapters@,
    decreases ss.len(),
{
    if ss.len() == 0 {
        assert(ss.push(s).len() == 1);
        assert(ss.push(s)[0] == s);
        assert(ss.push(s).drop_first() =~= Seq::<Section>::empty());
        assert(flat_chapters(ss.push(s).drop_first()) == Seq::<Chapter>::empty());
        assert(flat_chapters(ss.push(s)) == s.chapters@ + Seq::<Chapter>::empty());
        assert(flat_chapters(ss) == Seq::<Chapter>::empty());
        assert(s.chapters@ + Seq::<Chapter>::empty() =~= Seq::<Chapter>::empty() + s.chapters@);
    } else {
        assert(ss.push(s).drop_first() =~= ss.drop_first().push(s));
        lemma_flat_chapters_push(ss.drop_first(), s);
        assert(ss.push(s)[0] == ss[0]);
        assert(flat_chapters(ss.push(s)) == ss[0].chapters@ + flat_chapters(
            ss.drop_first().push(s),
        ));
        assert(ss[0].chapters@ + (flat_chapters(ss.drop_first()) + s.chapters@) =~= (
        ss[0].chapters@ + flat_chapters(ss.drop_first())) + s.chapters@);
    }
}

/// The manifest `<item>` line of a chapter with this title.
pub open spec fn manifest_item_text(title: Seq<char>) -> Seq<char> {
    "<item id=\"chapter-"@ + slug_chars(title) + "\" href=\"chapter-"@ + slug_chars(title)
        + ".xhtml\" media-type=\"application/xhtml+xml\"/>"@
}

/// The spine `<itemref>` line of a chapter with this title.
pub open spec fn spine_item_text(title: Seq<char>) -> Seq<char> {
    "<itemref idref=\"chapter-"@ + slug_chars(title) + "\"/>"@
}

/// The navigation `<li>` line of a chapter with this title.
pub open spec fn nav_item_text(title: Seq<char>) -> Seq<char> {
    "<li><a href=\"chapter-"@ + slug_chars(title) + ".xhtml\">"@ + title + "</a></li>"@
}

/// The archive path of the chapter document of a chapter with this title.
pub open spec fn chapter_path_text(title: Seq<char>) -> Seq<char> {
    "OEBPS/chapter-"@ + slug_chars(title) + ".xhtml"@
}

/// Lines joined with a newline between each two.
pub open spec fn join_lines(items: Seq<Seq<char>>) -> Seq<char>
    decreases items.len(),
{
    if items.len() == 0 {
        Seq::empty()
    } else if items.len() == 1 {
        items[0]
    } else {
        items[0] + seq!['\n'] + join_lines(items.drop_first())
    }
}

/// Joining one more line appends a newline and the line.
pub proof fn lemma_join_lines_push(items: Seq<Seq<char>>, x: Seq<char>)
    ensures
        join_lines(items.push(x)) == if items.len() == 0 {
            x
        } else {
            join_lines(items) + seq!['\n'] + x
        },
    decreases items.len(),
{
    if items.len() == 0 {
        assert(items.push(x)[0] == x);
        assert(join_lines(items.push(x)) == x);
    } else {
        assert(items.push(x)[0] == items[0]);
        assert(items.push(x).drop_first() =~= items.drop_first().push(x));
        lemma_join_lines_push(items.drop_first(), x);
        if items.len() == 1 {
            assert(join_lines(items) == items[0]);
            assert(join_lines(items.push(x)) == items[0] + seq!['\n'] + x);
        } else {
            assert(join_lines(items.push(x)) == items[0] + seq!['\n'] + (join_lines(
                items.drop_first(),
            ) + seq!['\n'] + x));
            assert(items[0] + seq!['\n'] + (join_lines(items.drop_first()) + seq!['\n'] + x) =~= (
            items[0] + seq!['\n'] + join_lines(items.drop_first())) + seq!['\n'] + x);
        }
    }
}

/// The mimetype payload required of the container format.
pub open spec fn mimetype_text() -> Seq<char> {
    "application/epub+zip"@
}

/// The static container descriptor.
pub open spec fn container_text() -> Seq<char> {
    "<?xml version=\"1.0\" encoding=\"UTF-8\"?>\n<container version=\"1.0\" xmlns=\"urn:oasis:names:tc:opendocument:xmlns:container\">\n  <rootfiles>\n    <rootfile full-path=\"OEBPS/content.opf\" media-type=\"application/oebps-package+xml\"/>\n  </rootfiles>\n</container>\n"@
}

/// The package document template; placeholders: `generator`,
/// `manifest_items`, `spine_items`.
pub open spec fn opf_text() -> Seq<char> {
    "<?xml version=\"1.0\" encoding=\"UTF-8\"?>\n<package version=\"3.0\" xmlns=\"http://www.idpf.org/2007/opf\" unique-identifier=\"book-id\">\n  <metadata xmlns:dc=\"http://purl.org/dc/elements/1.1/\">\n    <dc:identifier id=\"book-id\">urn:vellum:book</dc:identifier>\n    <dc:language>en</dc:language>\n    <meta name=\"generator\" content=\"{{generator}}\"/>\n  </metadata>\n  <manifest>\n    <item id=\"nav\" href=\"nav.xhtml\" media-type=\"application/xhtml+xml\" properties=\"nav\"/>\n{{manifest_items}}\n  </manifest>\n  <spine>\n{{spine_items}}\n  </spine>\n</package>\n"@
}

/// The navigation document template; placeholder: `nav_items`.
pub open spec fn nav_text() -> Seq<char> {
    "<?xml version=\"1.0\" encoding=\"UTF-8\"?>\n<!DOCTYPE html>\n<html xmlns=\"http://www.w3.org/1999/xhtml\" xmlns:epub=\"http://www.idpf.org/2007/ops\">\n<head>\n  <title>Navigation</title>\n</head>\n<body>\n  <nav epub:type=\"toc\">\n    <ol>\n{{nav_items}}\n    </ol>\n  </nav>\n</body>\n</html>\n"@
}

/// The chapter document template; placeholders: `chapter_title`,
/// `chapter_content`.
pub open spec fn chapter_text() -> Seq<char> {
    "<?xml version=\"1.0\" encoding=\"UTF-8\"?>\n<!DOCTYPE html>\n<html xmlns=\"http://www.w3.org/1999/xhtml\">\n<head>\n  <title>{{chapter_title}}</title>\n</head>\n<body>\n<h1>{{chapter_title}}</h1>\n{{chapter_content}}\n</body>\n</html>\n"@
}

fn mimetype_str() -> (r: &'static str)
    ensures
        r@ == mimetype_text(),
{
    "application/epub+zip"
}

fn container_str() -> (r: &'static str)
    ensures
        r@ == container_text(),
{
    "<?xml version=\"1.0\" encoding=\"UTF-8\"?>\n<container version=\"1.0\" xmlns=\"urn:oasis:names:tc:opendocument:xmlns:container\">\n  <rootfiles>\n    <rootfile full-path=\"OEBPS/content.opf\" media-type=\"application/oebps-package+xml\"/>\n  </rootfiles>\n</container>\n"
}

fn opf_str() -> (r: &'static str)
    ensures
        r@ == opf_text(),
{
    "<?xml version=\"1.0\" encoding=\"UTF-8\"?>\n<package version=\"3.0\" xmlns=\"http://www.idpf.org/2007/opf\" unique-identifier=\"book-id\">\n  <metadata xmlns:dc=\"http://purl.org/dc/elements/1.1/\">\n    <dc:identifier id=\"book-id\">urn:vellum:book</dc:identifier>\n    <dc:language>en</dc:language>\n    <meta name=\"generator\" content=\"{{generator}}\"/>\n  </metadata>\n  <manifest>\n    <item id=\"nav\" href=\"nav.xhtml\" media-type=\"application/xhtml+xml\" properties=\"nav\"/>\n{{manifest_items}}\n  </manifest>\n  <spine>\n{{spine_items}}\n  </spine>\n</package>\n"
}

fn nav_str() -> (r: &'static str)
    ensures
        r@ == nav_text(),
{
    "<?xml version=\"1.0\" encoding=\"UTF-8\"?>\n<!DOCTYPE html>\n<html xmlns=\"http://www.w3.org/1999/xhtml\" xmlns:epub=\"http://www.idpf.org/2007/ops\">\n<head>\n  <title>Navigation</title>\n</head>\n<body>\n  <nav epub:type=\"toc\">\n    <ol>\n{{nav_items}}\n    </ol>\n  </nav>\n</body>\n</html>\n"
}

fn chapter_str() -> (r: &'static str)
    ensures
        r@ == chapter_text(),
{
    "<?xml version=\"1.0\" encoding=\"UTF-8\"?>\n<!DOCTYPE html>\n<html xmlns=\"http://www.w3.org/1999/xhtml\">\n<head>\n  <title>{{chapter_title}}</title>\n</head>\n<body>\n<h1>{{chapter_title}}</h1>\n{{chapter_content}}\n</body>\n</html>\n"
}

fn make_manifest_item(title: &str) -> (r: String)
    ensures
        r@ == manifest_item_text(title@),
{
    let s = slug(title);
    let mut r = String::from_str("<item id=\"chapter-");
    r.append(s.as_str());
    r.append("\" href=\"chapter-");
    r.append(s.as_str());
    r.append(".xhtml\" media-type=\"application/xhtml+xml\"/>");
    r
}

fn make_spine_item(title: &str) -> (r: String)
    ensures
        r@ == spine_item_text(title@),
{
    let s = slug(title);
    let mut r = String::from_str("<itemref idref=\"chapter-");
    r.append(s.as_str());
    r.append("\"/>");
    r
}

fn make_nav_item(title: &str) -> (r: String)
    ensures
        r@ == nav_item_text(title@),
{
    let s = slug(title);
    let mut r = String::from_str("<li><a href=\"chapter-");
    r.append(s.as_str());
    r.append(".xhtml\">");
    r.append(title);
    r.append("</a></li>");
    r
}

fn make_chapter_path(title: &str) -> (r: String)
    ensures
        r@ == chapter_path_text(title@),
{
    let s = slug(title);
    let mut r = String::from_str("OEBPS/chapter-");
    r.append(s.as_str());
    r.append(".xhtml");
    r
}

/// Join lines with a newline between each two.
fn join_text(items: &Vec<String>) -> (r: String)
    ensures
        r@ == join_lines(items@.map_values(|s: String| s@)),
{
    let mut r = String::new();
    let mut i: usize = 0;
    while i < items.len()
        invariant
            i <= items@.len(),
            r@ == join_lines(items@.take(i as int).map_values(|s: String| s@)),
        decreases items@.len() - i,
    {
        proof {
            let prefix = items@.take(i as int).map_values(|s: String| s@);
            lemma_join_lines_push(prefix, items@[i as int]@);
            assert(items@.take(i + 1).map_values(|s: String| s@) =~= prefix.push(
                items@[i as int]@,
            ));
        }
        if i > 0 {
            crate::push_char(&mut r, '\n');
        }
        r.append(items[i].as_str());
        proof {
            let prefix = items@.take(i as int).map_values(|s: String| s@);
            if i == 0 {
                assert(prefix.len() == 0);
            }
        }
        i = i + 1;
    }
    proof {
        assert(items@.take(items@.len() as int) =~= items@);
    }
    r
}

/// The bindings of the package document: the generator tag and the joined
/// manifest and spine lines, in section-major, chapter-minor order.
pub open spec fn opf_bindings(ss: Seq<Section>) -> Map<Seq<char>, Seq<char>> {
    Map::<Seq<char>, Seq<char>>::empty().insert("generator"@, "Vellum 0.1"@).insert(
        "manifest_items"@,
        join_lines(flat_chapters(ss).map_values(|c: Chapter| manifest_item_text(c.title@))),
    ).insert(
        "spine_items"@,
        join_lines(flat_chapters(ss).map_values(|c: Chapter| spine_item_text(c.title@))),
    )
}

/// The bindings of the navigation document: the joined navigation lines.
pub open spec fn nav_bindings(ss: Seq<Section>) -> Map<Seq<char>, Seq<char>> {
    Map::<Seq<char>, Seq<char>>::empty().insert(
        "nav_items"@,
        join_lines(flat_chapters(ss).map_values(|c: Chapter| nav_item_text(c.title@))),
    )
}

/// The bindings of one chapter document: its title and its body verbatim.
pub open spec fn chapter_bindings(c: Chapter) -> Map<Seq<char>, Seq<char>> {
    Map::<Seq<char>, Seq<char>>::empty().insert("chapter_title"@, c.title@).insert(
        "chapter_content"@,
        c.content@,
    )
}

/// How many entries the archive of this book holds.
pub open spec fn entry_count(ss: Seq<Section>) -> int {
    4 + flat_chapters(ss).len() as int
}

/// The path of the archive entry at position `i`: the fixed container
/// structure first, then one chapter document per chapter in order.
pub open spec fn entry_name(ss: Seq<Section>, i: int) -> Seq<char> {
    if i == 0 {
        "mimetype"@
    } else if i == 1 {
        "META-INF/container.xml"@
    } else if i == 2 {
        "OEBPS/content.opf"@
    } else if i == 3 {
        "OEBPS/nav.xhtml"@
    } else {
        chapter_path_text(flat_chapters(ss)[i - 4].title@)
    }
}

/// The payload of the archive entry at position `i`.
pub open spec fn entry_data(ss: Seq<Section>, i: int) -> Seq<u8> {
    if i == 0 {
        encode_utf8(mimetype_text())
    } else if i == 1 {
        encode_utf8(container_text())
    } else if i == 2 {
        encode_utf8(render_text(opf_text(), opf_bindings(ss)))
    } else if i == 3 {
        encode_utf8(render_text(nav_text(), nav_bindings(ss)))
    } else {
        encode_utf8(render_text(chapter_text(), chapter_bindings(flat_chapters(ss)[i - 4])))
    }
}

/// Two distinct chapters slug to the same token, so their entry paths
/// collide.
pub open spec fn has_dup_slug(ss: Seq<Section>) -> bool {
    exists|a: int, b: int|
        0 <= a < b < flat_chapters(ss).len() && slug_chars(flat_chapters(ss)[a].title@)
            == slug_chars(flat_chapters(ss)[b].title@)
}

/// The full planned archive: name, payload and compression of every entry,
/// in order. Only the first entry, `mimetype`, is stored uncompressed.
pub open spec fn planned_entries(ss: Seq<Section>) -> Seq<(Seq<char>, Seq<u8>, bool)> {
    Seq::new(entry_count(ss) as nat, |i: int| (entry_name(ss, i), entry_data(ss, i), i == 0))
}

/// The archive writer accepts the whole planned book: every entry, after
/// those before it, and the closing of the archive.
pub open spec fn book_fits(ss: Seq<Section>) -> bool {
    &&& forall|i: int|
        0 <= i < entry_count(ss) ==> entry_fits(
            planned_entries(ss).take(i),
            entry_name(ss, i),
            entry_data(ss, i),
            i == 0,
        )
    &&& archive_fits(planned_entries(ss))
}

/// The structure of every planned archive: the first entry is `mimetype`,
/// stored uncompressed, with the exact container payload; every other entry
/// is deflated; and every chapter contributes exactly one entry, at its
/// traversal position, whose path derives from the slug of its title — the
/// same slug that `manifest_item_text`, `spine_item_text` and
/// `nav_item_text` build their identifiers from.
pub proof fn lemma_archive_structure(ss: Seq<Section>)
    ensures
        planned_entries(ss).len() == 4 + flat_chapters(ss).len(),
        planned_entries(ss)[0] == ("mimetype"@, encode_utf8(mimetype_text()), true),
        forall|i: int| 0 < i < planned_entries(ss).len() ==> !planned_entries(ss)[i].2,
        forall|k: int|
            0 <= k < flat_chapters(ss).len() ==> planned_entries(ss)[4 + k].0 == "OEBPS/chapter-"@
                + slug_chars(flat_chapters(ss)[k].title@) + ".xhtml"@,
{
}

/// Manifest order, spine order and navigation order all equal the
/// section-major, chapter-minor traversal of the book: each document joins
/// its lines over `flat_chapters`, and appending a section appends its
/// chapters to that traversal.
pub proof fn lemma_document_order(ss: Seq<Section>)
    ensures
        opf_bindings(ss)["manifest_items"@] == join_lines(
            flat_chapters(ss).map_values(|c: Chapter| manifest_item_text(c.title@)),
        ),
        opf_bindings(ss)["spine_items"@] == join_lines(
            flat_chapters(ss).map_values(|c: Chapter| spine_item_text(c.title@)),
        ),
        nav_bindings(ss)["nav_items"@] == join_lines(
            flat_chapters(ss).map_values(|c: Chapter| nav_item_text(c.title@)),
        ),
{
    reveal_strlit("manifest_items");
    reveal_strlit("spine_items");
    reveal_strlit("nav_items");
    assert("manifest_items"@.len() == 14);
    assert("spine_items"@.len() == 11);
    assert("nav_items"@.len() == 9);
}

/// Each document's line list is the concatenation, in section order, of one
/// block of lines per section — the section's chapters in chapter order
/// under the line-building function.
pub proof fn lemma_chapter_lines_by_section(ss: Seq<Section>, f: spec_fn(Chapter) -> Seq<char>)
    ensures
        flat_chapters(ss).map_values(f) == ss.map_values(
            |s: Section| s.chapters@.map_values(f),
        ).flatten(),
    decreases ss.len(),
{
    let blocks = ss.map_values(|s: Section| s.chapters@.map_values(f));
    if ss.len() == 0 {
        assert(flat_chapters(ss).map_values(f) =~= Seq::<Seq<char>>::empty());
        assert(blocks.flatten() =~= Seq::<Seq<char>>::empty());
    } else {
        lemma_chapter_lines_by_section(ss.drop_first(), f);
        assert(blocks.first() == ss[0].chapters@.map_values(f));
        assert(blocks.drop_first() =~= ss.drop_first().map_values(
            |s: Section| s.chapters@.map_values(f),
        ));
        assert(blocks.flatten() == blocks.first() + blocks.drop_first().flatten());
        assert((ss[0].chapters@ + flat_chapters(ss.drop_first())).map_values(f)
            =~= ss[0].chapters@.map_values(f) + flat_chapters(ss.drop_first()).map_values(f));
    }
}

/// Reordering sections reorders spine entries identically, and manifest and
/// navigation entries with them: whenever `ss2[k] == ss1[p[k]]` for every
/// position, each document's line list of `ss2` is the concatenation of
/// `ss1`'s per-section blocks in the order `p`. In particular, permuting
/// the sections permutes the chapter blocks of spine, manifest and
/// navigation the same way.
pub proof fn lemma_reordered_sections(
    ss1: Seq<Section>,
    ss2: Seq<Section>,
    p: Seq<int>,
    f: spec_fn(Chapter) -> Seq<char>,
)
    requires
        p.len() == ss2.len(),
        forall|k: int| 0 <= k < p.len() ==> 0 <= p[k] < ss1.len() && ss2[k] == ss1[p[k]],
    ensures
        flat_chapters(ss2).map_values(f) == Seq::new(
            p.len(),
            |k: int| ss1[p[k]].chapters@.map_values(f),
        ).flatten(),
{
    lemma_chapter_lines_by_section(ss2, f);
    assert(ss2.map_values(|s: Section| s.chapters@.map_values(f)) =~= Seq::new(
        p.len(),
        |k: int| ss1[p[k]].chapters@.map_values(f),
    ));
}

/// The index of a slug that occurs twice, if any.
fn find_dup_slug(slugs: &Vec<String>) -> (r: Option<usize>)
    ensures
        match r {
            Option::Some(a) => a < slugs@.len() && exists|b: int|
                a < b < slugs@.len() && slugs@[a as int]@ == slugs@[b]@,
            Option::None => forall|a: int, b: int|
                0 <= a < b < slugs@.len() ==> slugs@[a]@ != slugs@[b]@,
        },
{
    let mut a: usize = 0;
    while a < slugs.len()
        invariant
            a <= slugs@.len(),
            forall|x: int, y: int| 0 <= x < y < slugs@.len() && x < a ==> slugs@[x]@ != slugs@[y]@,
        decreases slugs@.len() - a,
    {
        let mut b = a + 1;
        while b < slugs.len()
            invariant
                a < slugs@.len(),
                a < b <= slugs@.len(),
                forall|y: int| a < y < b ==> slugs@[a as int]@ != slugs@[y]@,
            decreases slugs@.len() - b,
        {
            if slugs[a].eq(&slugs[b]) {
                return Option::Some(a);
            }
            b = b + 1;
        }
        a = a + 1;
    }
    Option::None
}

impl Epub {
    /// A book with the given metadata and no sections yet; the caller
    /// populates `sections`.
    pub fn new(meta: MetaConfig) -> (r: Epub)
        ensures
            r.meta == meta,
            r.sections@ == Seq::<Section>::empty(),
    {
        Epub { meta, sections: Vec::new() }
    }

    /// Every chapter's title and content, cloned, in section-major,
    /// chapter-minor order.
    fn flatten(&self) -> (r: Vec<(String, String)>)
        ensures
            r@.len() == flat_chapters(self.sections@).len(),
            forall|i: int|
                0 <= i < r@.len() ==> r@[i].0@ == flat_chapters(self.sections@)[i].title@
                    && r@[i].1@ == flat_chapters(self.sections@)[i].content@,
    {
        let mut r: Vec<(String, String)> = Vec::new();
        let mut si: usize = 0;
        while si < self.sections.len()
            invariant
                si <= self.sections@.len(),
                r@.len() == flat_chapters(self.sections@.take(si as int)).len(),
                forall|i: int|
                    0 <= i < r@.len() ==> r@[i].0@ == flat_chapters(
                        self.sections@.take(si as int),
                    )[i].title@ && r@[i].1@ == flat_chapters(
                        self.sections@.take(si as int),
                    )[i].content@,
            decreases self.sections@.len() - si,
        {
            let mut ci: usize = 0;
            while ci < self.sections[si].chapters.len()
                invariant
                    si < self.sections@.len(),
                    ci <= self.sections@[si as int].chapters@.len(),
                    r@.len() == flat_chapters(self.sections@.take(si as int)).len() + ci,
                    forall|i: int|
                        0 <= i < flat_chapters(self.sections@.take(si as int)).len() ==> r@[i].0@
                            == flat_chapters(self.sections@.take(si as int))[i].title@ && r@[i].1@
                            == flat_chapters(self.sections@.take(si as int))[i].content@,
                    forall|k: int|
                        0 <= k < ci ==> r@[flat_chapters(self.sections@.take(si as int)).len() + k].0@
                            == self.sections@[si as int].chapters@[k].title@ && r@[flat_chapters(
                            self.sections@.take(si as int),
                        ).len() + k].1@ == self.sections@[si as int].chapters@[k].content@,
                decreases self.sections@[si as int].chapters@.len() - ci,
            {
                r.push(
                    (
                        self.sections[si].chapters[ci].title.clone(),
                        self.sections[si].chapters[ci].content.clone(),
                    ),
                );
                ci = ci + 1;
            }
            proof {
                lemma_flat_chapters_push(
                    self.sections@.take(si as int),
                    self.sections@[si as int],
                );
                assert(self.sections@.take(si as int).push(self.sections@[si as int])
                    =~= self.sections@.take(si + 1));
                assert(flat_chapters(self.sections@.take(si + 1)) == flat_chapters(
                    self.sections@.take(si as int),
                ) + self.sections@[si as int].chapters@);
            }
            si = si + 1;
        }
        proof {
            assert(self.sections@.take(self.sections@.len() as int) =~= self.sections@);
        }
        r
    }

    /// Plan the archive: every entry's path, payload and compression, in
    /// order, or the duplicate-slug error when two chapters' entry paths
    /// would collide.
    pub fn plan(&self) -> (r: Result<Vec<ArchiveEntry>, Error>)
        ensures
            r is Ok <==> !has_dup_slug(self.sections@),
            r is Ok ==> r->Ok_0@.len() == entry_count(self.sections@) && (forall|i: int|
                0 <= i < entry_count(self.sections@) ==> r->Ok_0@[i].name@ == entry_name(
                    self.sections@,
                    i,
                ) && r->Ok_0@[i].data@ == entry_data(self.sections@, i) && r->Ok_0@[i].stored == (i
                    == 0)),
            r is Err ==> r->Err_0 is DuplicateSlug && (exists|a: int, b: int|
                0 <= a < b < flat_chapters(self.sections@).len() && slug_chars(
                    flat_chapters(self.sections@)[a].title@,
                ) == slug_chars(flat_chapters(self.sections@)[b].title@)
                    && r->Err_0->DuplicateSlug_0@ == slug_chars(
                    flat_chapters(self.sections@)[a].title@,
                )),
    {
        let ghost ss = self.sections@;
        let ghost fc = flat_chapters(ss);
        let flat = self.flatten();

        let mut slugs: Vec<String> = Vec::new();
        let mut i: usize = 0;
        while i < flat.len()
            invariant
                fc == flat_chapters(ss),
                flat@.len() == fc.len(),
                forall|k: int|
                    0 <= k < flat@.len() ==> flat@[k].0@ == fc[k].title@ && flat@[k].1@
                        == fc[k].content@,
                i <= flat@.len(),
                slugs@.len() == i,
                forall|k: int| 0 <= k < i ==> slugs@[k]@ == slug_chars(fc[k].title@),
            decreases flat@.len() - i,
        {
            slugs.push(slug(flat[i].0.as_str()));
            i = i + 1;
        }

        match find_dup_slug(&slugs) {
            Option::Some(a) => {
                proof {
                    let b = choose|b: int| a < b < slugs@.len() && slugs@[a as int]@ == slugs@[b]@;
                    assert(slug_chars(fc[a as int].title@) == slug_chars(fc[b].title@));
                }
                return Result::Err(Error::DuplicateSlug(slugs[a].clone()));
            },
            Option::None => {
                proof {
                    assert(!has_dup_slug(ss)) by {
                        if has_dup_slug(ss) {
                            let (a, b) = choose|a: int, b: int|
                                0 <= a < b < flat_chapters(ss).len() && slug_chars(
                                    flat_chapters(ss)[a].title@,
                                ) == slug_chars(flat_chapters(ss)[b].title@);
                            assert(slugs@[a]@ != slugs@[b]@);
                        }
                    }
                }
            },
        }

        let mut manifest_lines: Vec<String> = Vec::new();
        let mut spine_lines: Vec<String> = Vec::new();
        let mut nav_lines: Vec<String> = Vec::new();
        let mut j: usize = 0;
        while j < flat.len()
            invariant
                fc == flat_chapters(ss),
                flat@.len() == fc.len(),
                forall|k: int|
                    0 <= k < flat@.len() ==> flat@[k].0@ == fc[k].title@ && flat@[k].1@
                        == fc[k].content@,
                j <= flat@.len(),
                manifest_lines@.len() == j,
                spine_lines@.len() == j,
                nav_lines@.len() == j,
                forall|k: int|
                    0 <= k < j ==> manifest_lines@[k]@ == manifest_item_text(fc[k].title@)
                        && spine_lines@[k]@ == spine_item_text(fc[k].title@) && nav_lines@[k]@
                        == nav_item_text(fc[k].title@),
            decreases flat@.len() - j,
        {
            manifest_lines.push(make_manifest_item(flat[j].0.as_str()));
            spine_lines.push(make_spine_item(flat[j].0.as_str()));
            nav_lines.push(make_nav_item(flat[j].0.as_str()));
            j = j + 1;
        }
        let manifest_joined = join_text(&manifest_lines);
        let spine_joined = join_text(&spine_lines);
        let nav_joined = join_text(&nav_lines);
        proof {
            assert(manifest_lines@.map_values(|s: String| s@) =~= fc.map_values(
                |c: Chapter| manifest_item_text(c.title@),
            ));
            assert(spine_lines@.map_values(|s: String| s@) =~= fc.map_values(
                |c: Chapter| spine_item_text(c.title@),
            ));
            assert(nav_lines@.map_values(|s: String| s@) =~= fc.map_values(
                |c: Chapter| nav_item_text(c.title@),
            ));
            reveal_strlit("generator");
            reveal_strlit("manifest_items");
            reveal_strlit("spine_items");
            reveal_strlit("nav_items");
            reveal_strlit("chapter_title");
            reveal_strlit("chapter_content");
        }

        let mut entries: Vec<ArchiveEntry> = Vec::new();
        entries.push(
            ArchiveEntry {
                name: String::from_str("mimetype"),
                data: mimetype_str().as_bytes_vec(),
                stored: true,
            },
        );
        entries.push(
            ArchiveEntry {
                name: String::from_str("META-INF/container.xml"),
                data: container_str().as_bytes_vec(),
                stored: false,
            },
        );
        let opf = Template::load(opf_str()).set("generator", "Vellum 0.1").set(
            "manifest_items",
            manifest_joined.as_str(),
        ).set("spine_items", spine_joined.as_str()).render();
        proof {
            assert(entry_data(ss, 2) == encode_utf8(opf@));
        }
        entries.push(
            ArchiveEntry {
                name: String::from_str("OEBPS/content.opf"),
                data: opf.as_str().as_bytes_vec(),
                stored: false,
            },
        );
        let nav = Template::load(nav_str()).set("nav_items", nav_joined.as_str()).render();
        proof {
            assert(entry_data(ss, 3) == encode_utf8(nav@));
        }
        entries.push(
            ArchiveEntry {
                name: String::from_str("OEBPS/nav.xhtml"),
                data: nav.as_str().as_bytes_vec(),
                stored: false,
            },
        );
        proof {
            reveal_strlit("mimetype");
            reveal_strlit("META-INF/container.xml");
            reveal_strlit("OEBPS/content.opf");
            reveal_strlit("OEBPS/nav.xhtml");
        }

        let mut c: usize = 0;
        while c < flat.len()
            invariant
                fc == flat_chapters(ss),
                ss == self.sections@,
                flat@.len() == fc.len(),
                forall|k: int|
                    0 <= k < flat@.len() ==> flat@[k].0@ == fc[k].title@ && flat@[k].1@
                        == fc[k].content@,
                c <= flat@.len(),
                entries@.len() == 4 + c,
                forall|k: int|
                    0 <= k < entries@.len() ==> entries@[k].name@ == entry_name(ss, k)
                        && entries@[k].data@ == entry_data(ss, k) && entries@[k].stored == (k == 0),
            decreases flat@.len() - c,
        {
            let name = make_chapter_path(flat[c].0.as_str());
            proof {
                reveal_strlit("chapter_title");
                reveal_strlit("chapter_content");
            }
            let doc = Template::load(chapter_str()).set("chapter_title", flat[c].0.as_str()).set(
                "chapter_content",
                flat[c].1.as_str(),
            ).render();
            proof {
                assert(chapter_bindings(fc[c as int]) =~= Map::<Seq<char>, Seq<char>>::empty()
                    .insert("chapter_title"@, flat@[c as int].0@).insert(
                    "chapter_content"@,
                    flat@[c as int].1@,
                ));
                assert(entry_data(ss, 4 + c) == encode_utf8(doc@));
            }
            entries.push(ArchiveEntry { name, data: doc.as_str().as_bytes_vec(), stored: false });
            c = c + 1;
        }
        proof {
            assert(!has_dup_slug(ss));
        }
        Result::Ok(entries)
    }

    /// Assemble the archive in memory and return its bytes: the `mimetype`
    /// entry first and stored uncompressed, then the container descriptor,
    /// the package document, the navigation document, and one chapter
    /// document per chapter in reading order. Fails with the duplicate-slug
    /// error exactly when two chapters' entry paths collide, succeeds
    /// exactly when no paths collide and the writer accepts every planned
    /// entry, and fails with an archive error otherwise.
    pub fn generate(&self) -> (r: Result<Vec<u8>, Error>)
        ensures
            (r is Err && r->Err_0 is DuplicateSlug) <==> has_dup_slug(self.sections@),
            r is Ok <==> !has_dup_slug(self.sections@) && book_fits(self.sections@),
            r is Ok ==> r->Ok_0@ == zip_bytes(planned_entries(self.sections@)),
    {
        let ghost ss = self.sections@;
        let entries = match self.plan() {
            Result::Ok(e) => e,
            Result::Err(e) => {
                return Result::Err(e);
            },
        };
        let mut w = new_writer();
        let mut i: usize = 0;
        proof {
            assert(written_entries(w) =~= planned_entries(ss).take(0));
        }
        while i < entries.len()
            invariant
                ss == self.sections@,
                !has_dup_slug(ss),
                entries@.len() == entry_count(ss),
                forall|k: int|
                    0 <= k < entries@.len() ==> entries@[k].name@ == entry_name(ss, k)
                        && entries@[k].data@ == entry_data(ss, k) && entries@[k].stored == (k == 0),
                i <= entries@.len(),
                written_entries(w) == planned_entries(ss).take(i as int),
                forall|k: int|
                    0 <= k < i ==> entry_fits(
                        planned_entries(ss).take(k),
                        entry_name(ss, k),
                        entry_data(ss, k),
                        k == 0,
                    ),
            decreases entries@.len() - i,
        {
            let outcome = add_entry(
                &mut w,
                entries[i].name.as_str(),
                entries[i].data.as_slice(),
                entries[i].stored,
            );
            match outcome {
                Result::Ok(()) => {
                    proof {
                        assert(planned_entries(ss)[i as int] == (
                            entry_name(ss, i as int),
                            entry_data(ss, i as int),
                            i == 0,
                        ));
                        assert(planned_entries(ss).take(i + 1) =~= planned_entries(ss).take(
                            i as int,
                        ).push(planned_entries(ss)[i as int]));
                        assert(entry_fits(
                            planned_entries(ss).take(i as int),
                            entry_name(ss, i as int),
                            entry_data(ss, i as int),
                            i == 0,
                        ));
                    }
                },
                Result::Err(z) => {
                    proof {
                        assert(!entry_fits(
                            planned_entries(ss).take(i as int),
                            entry_name(ss, i as int),
                            entry_data(ss, i as int),
                            i == 0,
                        ));
                        assert(!book_fits(ss)) by {
                            if book_fits(ss) {
                                assert(entry_fits(
                                    planned_entries(ss).take(i as int),
                                    entry_name(ss, i as int),
                                    entry_data(ss, i as int),
                                    i == 0,
                                ));
                            }
                        }
                    }
                    return Result::Err(Error::Zip(z));
                },
            }
            i = i + 1;
        }
        proof {
            assert(planned_entries(ss).take(entries@.len() as int) =~= planned_entries(ss));
        }
        match finish_writer(w) {
            Result::Ok(bytes) => {
                proof {
                    assert(archive_fits(planned_entries(ss)));
                    assert(book_fits(ss));
                }
                Result::Ok(bytes)
            },
            Result::Err(z) => {
                proof {
                    assert(!archive_fits(planned_entries(ss)));
                    assert(!book_fits(ss));
                }
                Result::Err(Error::Zip(z))
            },
        }
    }
}

impl Chapter {
    /// The chapter's slug, derived from its title.
    pub fn slug(&self) -> (r: String)
        ensures
            r@ == slug_chars(self.title@),
    {
        slug(self.title.as_str())
    }

    /// The manifest `<item>` line of this chapter.
    pub fn manifest_item(&self) -> (r: String)
        ensures
            r@ == manifest_item_text(self.title@),
    {
        make_manifest_item(self.title.as_str())
    }

    /// The spine `<itemref>` line of this chapter.
    pub fn spine_item(&self) -> (r: String)
        ensures
            r@ == spine_item_text(self.title@),
    {
        make_spine_item(self.title.as_str())
    }

    /// The navigation `<li>` line of this chapter.
    pub fn nav_item(&self) -> (r: String)
        ensures
            r@ == nav_item_text(self.title@),
    {
        make_nav_item(self.title.as_str())
    }
}

impl Section {
    /// The section's slug, derived from its title by the same computation as
    /// a chapter's.
    pub fn slug(&self) -> (r: String)
        ensures
            r@ == slug_chars(self.title@),
    {
        slug(self.title.as_str())
    }

    /// The manifest lines of this section's chapters, in chapter order.
    pub fn manifest_items(&self) -> (r: Vec<String>)
        ensures
            r@.len() == self.chapters@.len(),
            forall|i: int|
                0 <= i < r@.len() ==> r@[i]@ == manifest_item_text(self.chapters@[i].title@),
    {
        let mut r: Vec<String> = Vec::new();
        let mut i: usize = 0;
        while i < self.chapters.len()
            invariant
                i <= self.chapters@.len(),
                r@.len() == i,
                forall|k: int| 0 <= k < i ==> r@[k]@ == manifest_item_text(self.chapters@[k].title@),
            decreases self.chapters@.len() - i,
        {
            r.push(self.chapters[i].manifest_item());
            i = i + 1;
        }
        r
    }

    /// The spine lines of this section's chapters, in chapter order.
    pub fn spine_items(&self) -> (r: Vec<String>)
        ensures
            r@.len() == self.chapters@.len(),
            forall|i: int| 0 <= i < r@.len() ==> r@[i]@ == spine_item_text(self.chapters@[i].title@),
    {
        let mut r: Vec<String> = Vec::new();
        let mut i: usize = 0;
        while i < self.chapters.len()
            invariant
                i <= self.chapters@.len(),
                r@.len() == i,
                forall|k: int| 0 <= k < i ==> r@[k]@ == spine_item_text(self.chapters@[k].title@),
            decreases self.chapters@.len() - i,
        {
            r.push(self.chapters[i].spine_item());
            i = i + 1;
        }
        r
    }

    /// The navigation lines of this section's chapters, in chapter order.
    pub fn nav_items(&self) -> (r: Vec<String>)
        ensures
            r@.len() == self.chapters@.len(),
            forall|i: int| 0 <= i < r@.len() ==> r@[i]@ == nav_item_text(self.chapters@[i].title@),
    {
        let mut r: Vec<String> = Vec::new();
        let mut i: usize = 0;
        while i < self.chapters.len()
            invariant
                i <= self.chapters@.len(),
                r@.len() == i,
                forall|k: int| 0 <= k < i ==> r@[k]@ == nav_item_text(self.chapters@[k].title@),
            decreases self.chapters@.len() - i,
        {
            r.push(self.chapters[i].nav_item());
            i = i + 1;
        }
        r
    }
}

} // verus!

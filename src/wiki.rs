//! Reading save locations and their notes out of a wiki page.
//!
//! The page's markup is walked by the caller; what the logic reads of it comes
//! here as plain values: the pieces of a location's path (`PathPiece`) and the
//! entries of the page's list of notes (`NoteItem`).

use vstd::prelude::*;
use vstd::string::StringExecFns;
use vstd::utf8::encode_utf8;

use crate::cite::{format_id, note_name, HtmlIdTy};
use crate::locations::{opt_text, Location, LocationView};

verus! {

broadcast use vstd::string::group_string_axioms;

#[verifier::external_type_specification]
#[verifier::external_body]
pub struct ExHtmlError(html2text::Error);

/// Why reading a wiki page failed.
#[derive(Debug)]
pub enum PCGWError {
    /// The wiki could not be queried; the text gives the cause.
    MediaWikiError(String),
    /// The page is not shaped as expected.
    ParseError,
    /// A note's markup could not be rendered as text.
    NoteError(html2text::Error),
    /// The wiki has no such page or section.
    NotFound,
}

/// One child of a location's markup, as far as the path and its note go.
pub enum PathPiece {
    /// Text that belongs to the path.
    Text(String),
    /// A link: the texts it holds, directly or as an abbreviation, in order.
    Link(Vec<String>),
    /// A citation mark, with its element id if it has one.
    NoteMark(Option<String>),
    /// Anything else, which adds nothing.
    Other,
}

/// The texts of `v`, one after the other.
pub open spec fn joined(v: Seq<String>) -> Seq<char>
    decreases v.len(),
{
    if v.len() == 0 {
        Seq::empty()
    } else {
        joined(v.drop_last()) + v.last()@
    }
}

/// What one piece adds to the path.
pub open spec fn piece_text(p: PathPiece) -> Seq<char> {
    match p {
        PathPiece::Text(t) => t@,
        PathPiece::Link(ts) => joined(ts@),
        _ => Seq::empty(),
    }
}

/// The path that the pieces spell.
pub open spec fn path_text(ps: Seq<PathPiece>) -> Seq<char>
    decreases ps.len(),
{
    if ps.len() == 0 {
        Seq::empty()
    } else {
        path_text(ps.drop_last()) + piece_text(ps.last())
    }
}

/// The text of the note called `name`: the last entry of that name counts.
pub open spec fn note_text(notes: Seq<(String, String)>, name: Seq<char>) -> Option<Seq<char>>
    decreases notes.len(),
{
    if notes.len() == 0 {
        None
    } else if notes.last().0@ == name {
        Some(notes.last().1@)
    } else {
        note_text(notes.drop_last(), name)
    }
}

/// The note that a citation mark with element id `id` points to.
pub open spec fn mark_note(id: Option<String>, notes: Seq<(String, String)>) -> Option<Seq<char>> {
    match id {
        Some(i) => match note_name(i@, HtmlIdTy::CiteRef) {
            Some(n) => note_text(notes, n),
            None => None,
        },
        None => None,
    }
}

/// The note of a location: that of its last citation mark, if it has one.
pub open spec fn last_note(ps: Seq<PathPiece>, notes: Seq<(String, String)>) -> Option<Seq<char>>
    decreases ps.len(),
{
    if ps.len() == 0 {
        None
    } else {
        match ps.last() {
            PathPiece::NoteMark(id) => mark_note(id, notes),
            _ => last_note(ps.drop_last(), notes),
        }
    }
}

/// The text of the note called `name`, found from the end of `notes`.
fn find_note(notes: &Vec<(String, String)>, name: &str) -> (r: Option<String>)
    ensures
        opt_text(r) == note_text(notes@, name@),
{
    let wanted = name.to_string();
    let mut i: usize = notes.len();
    assert(notes@.subrange(0, i as int) =~= notes@);
    while i > 0
        invariant
            i <= notes@.len(),
            wanted@ == name@,
            note_text(notes@, name@) == note_text(notes@.subrange(0, i as int), name@),
        decreases i,
    {
        assert(notes@.subrange(0, i as int).drop_last() =~= notes@.subrange(0, i - 1));
        assert(notes@.subrange(0, i as int).last() == notes@[i - 1]);
        if notes[i - 1].0 == wanted {
            let text = notes[i - 1].1.clone();
            assert(note_text(notes@.subrange(0, i as int), name@) == Some(text@));
            return Some(text);
        }
        i -= 1;
    }
    None
}

/// Builds the location that the pieces of its markup describe: the path they
/// spell, and the note of its last citation mark, looked up in `notes` (pairs of
/// note name and note text).
pub fn extract_raw_location(pieces: &Vec<PathPiece>, notes: &Vec<(String, String)>) -> (r: Location)
    ensures
        r@ == (LocationView {
            path: None,
            path_str: path_text(pieces@),
            note: last_note(pieces@, notes@),
        }),
{
    let mut path_str = String::new();
    let mut note: Option<String> = None;
    let mut i: usize = 0;
    while i < pieces.len()
        invariant
            i <= pieces@.len(),
            path_str@ == path_text(pieces@.subrange(0, i as int)),
            opt_text(note) == last_note(pieces@.subrange(0, i as int), notes@),
        decreases pieces@.len() - i,
    {
        let ghost before = pieces@.subrange(0, i as int);
        assert(pieces@.subrange(0, i + 1).drop_last() =~= before);
        match &pieces[i] {
            PathPiece::Text(t) => {
                path_str.append(t.as_str());
            },
            PathPiece::Link(texts) => {
                let ghost start = path_str@;
                let mut k: usize = 0;
                while k < texts.len()
                    invariant
                        k <= texts@.len(),
                        path_str@ == start + joined(texts@.subrange(0, k as int)),
                    decreases texts@.len() - k,
                {
                    assert(texts@.subrange(0, k + 1).drop_last() =~= texts@.subrange(0, k as int));
                    path_str.append(texts[k].as_str());
                    assert(path_str@ =~= start + joined(texts@.subrange(0, k + 1)));
                    k += 1;
                }
                assert(texts@.subrange(0, texts@.len() as int) =~= texts@);
                assert(path_str@ =~= path_text(before) + joined(texts@));
            },
            PathPiece::NoteMark(id) => {
                note = match id {
                    Some(id) => match format_id(id.as_str(), HtmlIdTy::CiteRef) {
                        Some(name) => find_note(notes, name),
                        None => None,
                    },
                    None => None,
                };
                assert(path_str@ =~= path_text(before) + Seq::<char>::empty());
            },
            PathPiece::Other => {
                assert(path_str@ =~= path_text(before) + Seq::<char>::empty());
            },
        }
        i += 1;
    }
    assert(pieces@.subrange(0, pieces@.len() as int) =~= pieces@);
    Location::new(path_str, note)
}

/// The text that html2text renders from `html` at `width` columns; `None` when
/// it reports an error.
pub uninterp spec fn rendered_text(html: Seq<char>, width: usize) -> Option<Seq<char>>;

/// Relies on html2text::from_read: renders HTML as plain text wrapped to `width`
/// columns, or reports an error; the outcome depends on the HTML and the width alone.
#[verifier::external_body]
fn render_html(html: &str, width: usize) -> (r: Result<String, html2text::Error>)
    ensures
        match r {
            Ok(t) => rendered_text(html@, width) == Some(t@),
            Err(_) => rendered_text(html@, width) is None,
        },
{
    html2text::from_read(html.as_bytes(), width)
}

/// One entry of a page's list of notes.
pub struct NoteItem {
    /// The entry's element id.
    pub id: Option<String>,
    /// The markup of the entry's text, when the entry holds exactly one.
    pub text_html: Option<String>,
}

/// The name of the note that `item` holds, when it can be read.
pub open spec fn item_name(item: NoteItem) -> Option<Seq<char>> {
    match (item.id, item.text_html) {
        (Some(id), Some(_)) => note_name(id@, HtmlIdTy::CiteNote),
        _ => None,
    }
}

/// The text of the note that `item` holds: its markup rendered at as many
/// columns as the markup has bytes.
pub open spec fn item_text(item: NoteItem) -> Option<Seq<char>> {
    match item.text_html {
        Some(h) => rendered_text(h@, encode_utf8(h@).len() as usize),
        None => None,
    }
}

/// Whether both the name and the text of `item` can be read.
pub open spec fn item_ok(item: NoteItem) -> bool {
    item_name(item) is Some && item_text(item) is Some
}

/// Reads each entry of a page's list of notes as a pair of note name and note
/// text, in order. The first entry that cannot be read stops the reading:
/// `ParseError` when its name cannot be read, else `NoteError` with the
/// renderer's error.
pub fn extract_notes(items: &Vec<NoteItem>) -> (r: Result<Vec<(String, String)>, PCGWError>)
    ensures
        match r {
            Ok(v) => {
                &&& forall|i: int| 0 <= i < items@.len() ==> #[trigger] item_ok(items@[i])
                &&& v@.len() == items@.len()
                &&& forall|i: int|
                    0 <= i < v@.len() ==> Some(#[trigger] v@[i].0@) == item_name(items@[i]) && Some(
                        v@[i].1@,
                    ) == item_text(items@[i])
            },
            Err(e) => exists|i: int|
                0 <= i < items@.len() && (forall|j: int| 0 <= j < i ==> #[trigger] item_ok(items@[j]))
                    && !item_ok(items@[i]) && if item_name(items@[i]) is None {
                    e is ParseError
                } else {
                    e is NoteError
                },
        },
{
    let mut out: Vec<(String, String)> = Vec::new();
    let mut i: usize = 0;
    while i < items.len()
        invariant
            i <= items@.len(),
            out@.len() == i,
            forall|j: int| 0 <= j < i ==> #[trigger] item_ok(items@[j]),
            forall|j: int|
                0 <= j < i ==> Some(#[trigger] out@[j].0@) == item_name(items@[j]) && Some(
                    out@[j].1@,
                ) == item_text(items@[j]),
        decreases items@.len() - i,
    {
        let item = &items[i];
        let html = match &item.text_html {
            Some(h) => h,
            None => return Err(PCGWError::ParseError),
        };
        let id = match &item.id {
            Some(id) => id,
            None => return Err(PCGWError::ParseError),
        };
        let name = match format_id(id.as_str(), HtmlIdTy::CiteNote) {
            Some(n) => n.to_string(),
            None => return Err(PCGWError::ParseError),
        };
        let text = match render_html(html.as_str(), html.as_str().len()) {
            Ok(t) => t,
            Err(e) => return Err(PCGWError::NoteError(e)),
        };
        out.push((name, text));
        i += 1;
    }
    Ok(out)
}

/// One child element of a section's content, as far as finding the table of
/// save locations goes.
pub struct SectionChild {
    /// Whether it is an `h3` heading.
    pub is_h3: bool,
    /// For a heading: the first text of its headline, when it has exactly one
    /// headline and that holds text.
    pub headline: Option<String>,
}

/// Where the search for the table of save locations ends.
pub enum TableSearch {
    /// The table is the child at this position.
    Found(int),
    /// No heading announces the table.
    Missing,
    /// A heading cannot be read, or the table's heading is the last child.
    Malformed,
}

/// The heading that announces the table of save locations.
pub open spec fn table_heading() -> Seq<char> {
    "Save game data location"@
}

/// The search for the table from child `i` on: the table is the child right
/// after the first `h3` heading that reads `table_heading()`; an unreadable
/// `h3` heading before it ends the search.
pub open spec fn table_search(c: Seq<SectionChild>, i: int) -> TableSearch
    decreases c.len() - i,
{
    if i < 0 || i >= c.len() {
        TableSearch::Missing
    } else if c[i].is_h3 {
        match c[i].headline {
            None => TableSearch::Malformed,
            Some(h) => if h@ == table_heading() {
                if i + 1 < c.len() {
                    TableSearch::Found(i + 1)
                } else {
                    TableSearch::Malformed
                }
            } else {
                table_search(c, i + 1)
            },
        }
    } else {
        table_search(c, i + 1)
    }
}

/// The position of the table of save locations among a section's children
/// (see `table_search`): `NotFound` when no heading announces it, `ParseError`
/// when the section is malformed.
pub fn save_table_index(children: &Vec<SectionChild>) -> (r: Result<usize, PCGWError>)
    ensures
        match table_search(children@, 0) {
            TableSearch::Found(k) => r matches Ok(i) && i == k,
            TableSearch::Missing => r matches Err(e) && e is NotFound,
            TableSearch::Malformed => r matches Err(e) && e is ParseError,
        },
{
    let heading = "Save game data location".to_string();
    let mut i: usize = 0;
    while i < children.len()
        invariant
            i <= children@.len(),
            heading@ == table_heading(),
            table_search(children@, 0) == table_search(children@, i as int),
        decreases children@.len() - i,
    {
        let child = &children[i];
        if child.is_h3 {
            match &child.headline {
                None => return Err(PCGWError::ParseError),
                Some(h) => {
                    if *h == heading {
                        if i + 1 < children.len() {
                            return Ok(i + 1);
                        }
                        return Err(PCGWError::ParseError);
                    }
                },
            }
        }
        i += 1;
    }
    Err(PCGWError::NotFound)
}

/// One section of a page, as the wiki lists them.
pub struct SectionInfo {
    /// The section's heading.
    pub line: Option<String>,
    /// The section's index, by which its text is asked for.
    pub index: Option<String>,
}

/// The index of the first section headed `line` that has an index.
pub open spec fn section_search(s: Seq<SectionInfo>, line: Seq<char>) -> Option<Seq<char>>
    decreases s.len(),
{
    if s.len() == 0 {
        None
    } else {
        match (s[0].line, s[0].index) {
            (Some(l), Some(x)) if l@ == line => Some(x@),
            _ => section_search(s.drop_first(), line),
        }
    }
}

/// The index of the first section headed `section_line` that has one;
/// `ParseError` when there is none.
pub fn section_index(sections: &Vec<SectionInfo>, section_line: &str) -> (r: Result<String, PCGWError>)
    ensures
        match section_search(sections@, section_line@) {
            Some(x) => r matches Ok(s) && s@ == x,
            None => r matches Err(e) && e is ParseError,
        },
{
    let wanted = section_line.to_string();
    let mut i: usize = 0;
    assert(sections@.subrange(0, sections@.len() as int) =~= sections@);
    while i < sections.len()
        invariant
            i <= sections@.len(),
            wanted@ == section_line@,
            section_search(sections@, section_line@) == section_search(
                sections@.subrange(i as int, sections@.len() as int),
                section_line@,
            ),
        decreases sections@.len() - i,
    {
        let ghost rest = sections@.subrange(i as int, sections@.len() as int);
        assert(rest.drop_first() =~= sections@.subrange(i + 1, sections@.len() as int));
        assert(rest[0] == sections@[i as int]);
        let s = &sections[i];
        match (&s.line, &s.index) {
            (Some(l), Some(x)) => {
                if *l == wanted {
                    return Ok(x.clone());
                }
            },
            _ => {},
        }
        i += 1;
    }
    Err(PCGWError::ParseError)
}

} // verus!

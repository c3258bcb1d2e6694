//! Rendering, up to the template engine: which template is asked for, and
//! the values it is given. The caller hands both to the engine.

use vstd::prelude::*;
use crate::planner::{
    read_status, read_status_by_location, HighlightWithNote, HighlightWithNoteView,
};
use crate::readwise_api::{Document, DocumentView};
use crate::time::{date_pattern, day_pattern, utc_text};

verus! {

/// The values that a template is given, by name.
#[verifier::external_type_specification]
#[verifier::external_body]
pub struct ExContext(tera::Context);

/// One member of a row: its name, and its value, which is a text or nothing.
pub type Member = (Seq<char>, Option<Seq<char>>);

/// A row as a template gets it: the value of each of its names.
pub type Row = Map<Seq<char>, Option<Seq<char>>>;

/// The names in `context` that have a text as their value, each with its
/// text.
pub uninterp spec fn context_texts(context: tera::Context) -> Map<Seq<char>, Seq<char>>;

/// The names in `context` that have a list of rows as their value, each
/// with its list.
pub uninterp spec fn context_lists(context: tera::Context) -> Map<Seq<char>, Seq<Row>>;

/// No name with a text.
pub open spec fn no_texts() -> Map<Seq<char>, Seq<char>> {
    Map::empty()
}

/// No name with a list.
pub open spec fn no_lists() -> Map<Seq<char>, Seq<Row>> {
    Map::empty()
}

/// `Context::new`: a context without names.
#[verifier::external_body]
fn new_context() -> (context: tera::Context)
    ensures
        context_texts(context) == no_texts(),
        context_lists(context) == no_lists(),
{
    tera::Context::new()
}

/// `Context::insert` with a text: `key` now has the value `value`, whatever
/// it had before.
#[verifier::external_body]
fn insert_text(context: &mut tera::Context, key: &str, value: &str)
    ensures
        context_texts(*final(context)) == context_texts(*old(context)).insert(key@, value@),
        context_lists(*final(context)) == context_lists(*old(context)).remove(key@),
{
    context.insert(key, value);
}

/// The row that a list of members makes: each name with its value, the
/// later of two members of one name.
pub open spec fn row_map(members: Seq<Member>) -> Row
    decreases members.len(),
{
    if members.len() == 0 {
        Map::empty()
    } else {
        row_map(members.drop_last()).insert(members.last().0, members.last().1)
    }
}

/// The rows that lists of members make, in order.
pub open spec fn row_maps(rows: Seq<Seq<Member>>) -> Seq<Row> {
    Seq::new(rows.len(), |i: int| row_map(rows[i]))
}

/// `Context::insert` with a list of rows, each a `BTreeMap` collected from
/// its members: `key` now has this list as its value, whatever it had
/// before.
#[verifier::external_body]
fn insert_rows(context: &mut tera::Context, key: &str, rows: &Vec<Vec<(String, Option<String>)>>)
    ensures
        context_texts(*final(context)) == context_texts(*old(context)).remove(key@),
        context_lists(*final(context)) == context_lists(*old(context)).insert(
            key@,
            row_maps(rows.deep_view()),
        ),
{
    let maps: Vec<std::collections::BTreeMap<&str, Option<&str>>> = rows.iter().map(
        |row| row.iter().map(|member| (member.0.as_str(), member.1.as_deref())).collect(),
    ).collect();
    context.insert(key, &maps);
}

/// `Uuid::new_v4`, written out: a random identifier.
#[verifier::external_body]
fn new_uuid() -> (uuid: String) {
    uuid::Uuid::new_v4().to_string()
}

/// What the template engine is asked for.
#[derive(Debug)]
pub enum Rendering {
    /// Nothing: the text is empty, and no template is needed for it.
    Empty,
    /// The text that the template named `template` makes of `context`.
    Template { template: String, context: tera::Context },
}

/// What a template gets of one highlight: its `id`, its `content`, its
/// `note` and its `note_saved_at`, each under its name.
pub open spec fn members_of(highlight: HighlightWithNoteView) -> Seq<Member> {
    seq![
        ("id"@, Some(highlight.id)),
        ("content"@, Some(highlight.content)),
        ("note"@, highlight.note),
        ("note_saved_at"@, highlight.note_saved_at),
    ]
}

/// What a template gets of each highlight, in order.
pub open spec fn rows_of(highlights: Seq<HighlightWithNoteView>) -> Seq<Seq<Member>> {
    Seq::new(highlights.len(), |i: int| members_of(highlights[i]))
}

/// What a template gets of one highlight.
pub fn named_row(highlight: &HighlightWithNote) -> (row: Vec<(String, Option<String>)>)
    ensures
        row.deep_view() == members_of(highlight@),
{
    let row = vec![
        ("id".to_owned(), Some(highlight.id.clone())),
        ("content".to_owned(), Some(highlight.content.clone())),
        ("note".to_owned(), highlight.note.clone()),
        ("note_saved_at".to_owned(), highlight.note_saved_at.clone()),
    ];
    assert(row.deep_view() == members_of(highlight@));
    row
}

/// What a template gets of each highlight, in order.
pub fn named_rows(highlights_with_notes: &Vec<HighlightWithNote>) -> (rows: Vec<
    Vec<(String, Option<String>)>,
>)
    ensures
        rows.deep_view() == rows_of(highlights_with_notes.deep_view()),
{
    let mut rows: Vec<Vec<(String, Option<String>)>> = Vec::new();
    let mut i: usize = 0;
    while i < highlights_with_notes.len()
        invariant
            i <= highlights_with_notes.len(),
            rows.deep_view() == rows_of(highlights_with_notes.deep_view()).take(i as int),
        decreases highlights_with_notes.len() - i,
    {
        let ghost before = rows.deep_view();
        let row = named_row(&highlights_with_notes[i]);
        rows.push(row);
        assert(rows.deep_view() == before.push(row.deep_view()));
        i += 1;
    }
    assert(rows_of(highlights_with_notes.deep_view()).take(i as int) == rows_of(
        highlights_with_notes.deep_view(),
    ));
    rows
}

/// The texts that the template of a new entry is given, by name: an
/// identifier for the entry, and of the document its reference, its address
/// at the remote service, its title, the day on which it was saved and its
/// read status; the address of its source, if that is on the web; the date
/// on which it was published, if that is known; and the highlights.
pub open spec fn document_texts(document: DocumentView, highlight_content: Seq<char>, uuid: Seq<char>) -> Map<
    Seq<char>,
    Seq<char>,
> {
    let named = no_texts().insert("uuid"@, uuid).insert("roam_ref"@, document.roam_ref);
    let sourced = if document.has_url {
        named.insert("full_url"@, document.source_url)
    } else {
        named
    };
    let saved = sourced.insert("readwise_url"@, document.readwise_url).insert(
        "title"@,
        document.title,
    ).insert("saved_at"@, utc_text(document.saved_at, day_pattern()));
    let published = match document.published_date {
        Some(seconds) => saved.insert("published_date"@, utc_text(seconds, date_pattern())),
        None => saved,
    };
    published.insert("read_status"@, read_status(document.location)).insert(
        "highlight_content"@,
        highlight_content,
    )
}

/// The values that the template of a new entry is given.
pub fn document_context(document: &Document, highlight_content: &str, uuid: &str) -> (context:
    tera::Context)
    ensures
        context_texts(context) == document_texts(document@, highlight_content@, uuid@),
        context_lists(context) == no_lists(),
{
    let mut context = new_context();
    insert_text(&mut context, "uuid", uuid);
    assert(context_lists(context) == no_lists());
    insert_text(&mut context, "roam_ref", document.roam_ref.as_str());
    assert(context_lists(context) == no_lists());
    if document.has_url {
        insert_text(&mut context, "full_url", document.source_url.as_str());
        assert(context_lists(context) == no_lists());
    }
    insert_text(&mut context, "readwise_url", document.readwise_url.as_str());
    assert(context_lists(context) == no_lists());
    insert_text(&mut context, "title", document.title.as_str());
    assert(context_lists(context) == no_lists());
    let saved_at = document.saved_at.format_day();
    insert_text(&mut context, "saved_at", saved_at.as_str());
    assert(context_lists(context) == no_lists());
    if let Some(published) = document.published_date {
        let date = published.format_date();
        insert_text(&mut context, "published_date", date.as_str());
        assert(context_lists(context) == no_lists());
    }
    insert_text(&mut context, "read_status", read_status_by_location(document.location.as_str()));
    assert(context_lists(context) == no_lists());
    insert_text(&mut context, "highlight_content", highlight_content);
    assert(context_lists(context) == no_lists());
    context
}

/// The values that the template of the highlights is given: the highlights,
/// under the name `highlights`.
pub fn highlights_context(highlights_with_notes: &Vec<HighlightWithNote>) -> (context:
    tera::Context)
    ensures
        context_texts(context) == no_texts(),
        context_lists(context) == no_lists().insert(
            "highlights"@,
            row_maps(rows_of(highlights_with_notes.deep_view())),
        ),
{
    let mut context = new_context();
    let rows = named_rows(highlights_with_notes);
    insert_rows(&mut context, "highlights", &rows);
    assert(context_texts(context) == no_texts());
    context
}

/// The name of the template of the highlights.
pub open spec fn highlights_template() -> Seq<char> {
    "highlights.tera"@
}

/// The name of the template of a new entry.
pub open spec fn document_template() -> Seq<char> {
    "document.org.tera"@
}

/// What is rendered for the highlights of a document: nothing, if there are
/// none; else the template `highlights.tera` with the highlights under the
/// name `highlights`.
pub fn generate_highlight_content(highlights_with_notes: &Vec<HighlightWithNote>) -> (r: Rendering)
    ensures
        highlights_with_notes.len() == 0 ==> r is Empty,
        highlights_with_notes.len() > 0 ==> (r matches Rendering::Template { template, context }
            && template@ == highlights_template() && context_texts(context) == no_texts()
            && context_lists(context) == no_lists().insert(
            "highlights"@,
            row_maps(rows_of(highlights_with_notes.deep_view())),
        )),
{
    if highlights_with_notes.len() == 0 {
        return Rendering::Empty;
    }
    let context = highlights_context(highlights_with_notes);
    Rendering::Template { template: "highlights.tera".to_owned(), context }
}

/// Whether `context` holds what the template of a new entry is given for
/// `document`, with some identifier.
pub open spec fn is_document_context(
    context: tera::Context,
    document: DocumentView,
    highlight_content: Seq<char>,
) -> bool {
    context_lists(context) == no_lists() && exists|uuid: Seq<char>|
        context_texts(context) == #[trigger] document_texts(document, highlight_content, uuid)
}

/// What is rendered for the new entry of `document`: the template
/// `document.org.tera` with the texts of the document, the highlights and a
/// new identifier.
pub fn generate_file_content(document: &Document, highlight_content: &str) -> (r: Rendering)
    ensures
        r matches Rendering::Template { template, context } && template@ == document_template()
            && is_document_context(context, document@, highlight_content@),
{
    let uuid = new_uuid();
    let context = document_context(document, highlight_content, uuid.as_str());
    Rendering::Template { template: "document.org.tera".to_owned(), context }
}

} // verus!

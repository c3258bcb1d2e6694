//! The entities of the remote service: documents, highlights and notes, made
//! from raw records, and the lists and indices of one run.

use vstd::prelude::*;
use crate::org_roam::{reference_of, try_org_roam_ref};
use crate::record::{
    get_string, get_strings, integer_field, result_view, text_field, text_fields, RawFieldView,
    RawRecord, RecordError, RecordErrorView,
};
use crate::settings::{QueryRule, QueryRuleView};
use crate::text::{
    append_text, distinct, has_prefix, lemma_distinct, lemma_distinct_of_unique, same_text,
    text_starts_with,
};
use crate::text_map::TextMap;
use crate::time::{rfc3339_seconds, timestamp_in_range, utc_text, year_pattern, Timestamp};
use crate::util::{cleaned_url, is_url, try_clean_url};

verus! {

/// A quoted excerpt of a document.
#[derive(Debug)]
pub struct Highlight {
    pub id: String,
    /// The `id` of the document that the excerpt is from.
    pub parent_id: String,
    pub content: String,
}

/// What a `Highlight` stands for.
pub struct HighlightView {
    pub id: Seq<char>,
    pub parent_id: Seq<char>,
    pub content: Seq<char>,
}

impl DeepView for Highlight {
    type V = HighlightView;

    open spec fn deep_view(&self) -> HighlightView {
        HighlightView { id: self.id@, parent_id: self.parent_id@, content: self.content@ }
    }
}

impl View for Highlight {
    type V = HighlightView;

    open spec fn view(&self) -> HighlightView {
        self.deep_view()
    }
}

impl Clone for Highlight {
    fn clone(&self) -> (copy: Self)
        ensures
            copy == *self,
    {
        Highlight {
            id: self.id.clone(),
            parent_id: self.parent_id.clone(),
            content: self.content.clone(),
        }
    }
}

/// The names of the fields of a highlight.
pub open spec fn highlight_fields() -> Seq<Seq<char>> {
    seq!["id"@, "parent_id"@, "content"@]
}

/// The highlight that a raw record holds, or why it holds none.
pub open spec fn highlight_of(fields: Seq<RawFieldView>) -> Result<HighlightView, RecordErrorView> {
    match text_fields(fields, highlight_fields()) {
        Ok(texts) => Ok(HighlightView { id: texts[0], parent_id: texts[1], content: texts[2] }),
        Err(e) => Err(e),
    }
}

impl Highlight {
    /// The highlight that `value` holds, or why it holds none.
    pub fn new(value: &RawRecord) -> (r: Result<Self, RecordError>)
        ensures
            result_view(r) == highlight_of(value@),
    {
        let names = vec!["id", "parent_id", "content"];
        assert(names.deep_view() == highlight_fields());
        match get_strings(value, &names) {
            Ok(texts) => Ok(
                Highlight {
                    id: texts[0].clone(),
                    parent_id: texts[1].clone(),
                    content: texts[2].clone(),
                },
            ),
            Err(e) => Err(e),
        }
    }
}

/// An annotation on a highlight.
#[derive(Debug)]
pub struct Note {
    /// The `id` of the highlight that the note is on.
    pub parent_id: String,
    pub saved_at: String,
    pub content: String,
}

/// What a `Note` stands for.
pub struct NoteView {
    pub parent_id: Seq<char>,
    pub saved_at: Seq<char>,
    pub content: Seq<char>,
}

impl DeepView for Note {
    type V = NoteView;

    open spec fn deep_view(&self) -> NoteView {
        NoteView { parent_id: self.parent_id@, saved_at: self.saved_at@, content: self.content@ }
    }
}

impl View for Note {
    type V = NoteView;

    open spec fn view(&self) -> NoteView {
        self.deep_view()
    }
}

impl Clone for Note {
    fn clone(&self) -> (copy: Self)
        ensures
            copy == *self,
    {
        Note {
            parent_id: self.parent_id.clone(),
            saved_at: self.saved_at.clone(),
            content: self.content.clone(),
        }
    }
}

/// The names of the fields of a note.
pub open spec fn note_fields() -> Seq<Seq<char>> {
    seq!["parent_id"@, "saved_at"@, "content"@]
}

/// The note that a raw record holds, or why it holds none.
pub open spec fn note_of(fields: Seq<RawFieldView>) -> Result<NoteView, RecordErrorView> {
    match text_fields(fields, note_fields()) {
        Ok(texts) => Ok(NoteView { parent_id: texts[0], saved_at: texts[1], content: texts[2] }),
        Err(e) => Err(e),
    }
}

impl Note {
    /// The note that `value` holds, or why it holds none.
    pub fn new(value: &RawRecord) -> (r: Result<Self, RecordError>)
        ensures
            result_view(r) == note_of(value@),
    {
        let names = vec!["parent_id", "saved_at", "content"];
        assert(names.deep_view() == note_fields());
        match get_strings(value, &names) {
            Ok(texts) => Ok(
                Note {
                    parent_id: texts[0].clone(),
                    saved_at: texts[1].clone(),
                    content: texts[2].clone(),
                },
            ),
            Err(e) => Err(e),
        }
    }
}

/// A saved item.
#[derive(Debug)]
pub struct Document {
    pub id: String,
    /// Whether the source of the document is an address on the web.
    pub has_url: bool,
    /// The reference of the document: that of its address, or, without one,
    /// `@readwise_` and its `id`.
    pub roam_ref: String,
    /// The source: cleaned, if it is an address; empty, if there is none.
    pub source_url: String,
    /// The address of the document at the remote service.
    pub readwise_url: String,
    pub title: String,
    pub location: String,
    pub author: String,
    pub saved_at: Timestamp,
    pub published_date: Option<Timestamp>,
}

/// What a `Document` stands for.
pub struct DocumentView {
    pub id: Seq<char>,
    pub has_url: bool,
    pub roam_ref: Seq<char>,
    pub source_url: Seq<char>,
    pub readwise_url: Seq<char>,
    pub title: Seq<char>,
    pub location: Seq<char>,
    pub author: Seq<char>,
    pub saved_at: int,
    pub published_date: Option<int>,
}

impl DeepView for Document {
    type V = DocumentView;

    open spec fn deep_view(&self) -> DocumentView {
        DocumentView {
            id: self.id@,
            has_url: self.has_url,
            roam_ref: self.roam_ref@,
            source_url: self.source_url@,
            readwise_url: self.readwise_url@,
            title: self.title@,
            location: self.location@,
            author: self.author@,
            saved_at: self.saved_at@,
            published_date: self.published_date.deep_view(),
        }
    }
}

impl View for Document {
    type V = DocumentView;

    open spec fn view(&self) -> DocumentView {
        self.deep_view()
    }
}

impl Clone for Document {
    fn clone(&self) -> (copy: Self)
        ensures
            copy == *self,
    {
        Document {
            id: self.id.clone(),
            has_url: self.has_url,
            roam_ref: self.roam_ref.clone(),
            source_url: self.source_url.clone(),
            readwise_url: self.readwise_url.clone(),
            title: self.title.clone(),
            location: self.location.clone(),
            author: self.author.clone(),
            saved_at: self.saved_at,
            published_date: self.published_date,
        }
    }
}

/// The names of the text fields that a document must have.
pub open spec fn document_fields() -> Seq<Seq<char>> {
    seq!["id"@, "category"@, "title"@, "url"@, "location"@, "author"@, "saved_at"@]
}

/// The source of a document: the text of its field `source_url`. A record
/// without the field, or with something other than a text in it, has no
/// source.
pub open spec fn source_of(fields: Seq<RawFieldView>) -> Option<Seq<char>> {
    match text_field(fields, "source_url"@) {
        Ok(source_url) => Some(source_url),
        Err(_) => None,
    }
}

/// Whether a source is an address on the web.
pub open spec fn is_web_source(source_url: Seq<char>) -> bool {
    has_prefix(source_url, "http"@)
}

/// Whether a document has a source, and that is an address on the web.
pub open spec fn has_web_source(source: Option<Seq<char>>) -> bool {
    match source {
        Some(source_url) => is_web_source(source_url),
        None => false,
    }
}

/// The source of a document as the document keeps it: cleaned, if it is an
/// address; as it is written, if it is none; empty, if there is no source.
pub open spec fn kept_source(source: Option<Seq<char>>, rules: Seq<QueryRuleView>) -> Seq<char> {
    match source {
        Some(source_url) => if is_url(source_url) {
            cleaned_url(source_url, rules)
        } else {
            source_url
        },
        None => Seq::empty(),
    }
}

/// The whole seconds in `millis` milliseconds, rounded towards zero.
pub open spec fn whole_seconds(millis: i64) -> int {
    if millis >= 0 {
        millis / 1000
    } else {
        -((-millis) / 1000)
    }
}

/// The time at which a document was published: its field `published_date`
/// holds it in milliseconds since the Unix epoch. There is none if the field
/// is missing, holds no whole number, or holds a time out of range.
pub open spec fn published_of(fields: Seq<RawFieldView>) -> Option<int> {
    match integer_field(fields, "published_date"@) {
        Some(millis) => if timestamp_in_range(whole_seconds(millis)) {
            Some(whole_seconds(millis))
        } else {
            None
        },
        None => None,
    }
}

/// Whether a category is that of books.
pub open spec fn is_book(category: Seq<char>) -> bool {
    category == "epub"@ || category == "ebook"@
}

/// The title under which a document is shown: a book with a known time of
/// publication has its year behind its title, in round brackets.
pub open spec fn display_title(title: Seq<char>, category: Seq<char>, published: Option<int>) -> Seq<
    char,
> {
    match published {
        Some(seconds) => if is_book(category) {
            title + " ("@ + utc_text(seconds, year_pattern()) + ")"@
        } else {
            title
        },
        None => title,
    }
}

/// The reference of a document without an address on the web, as it is
/// shown.
pub open spec fn synthetic_reference(id: Seq<char>) -> Seq<char> {
    "@readwise_"@ + id
}

/// The reference of a document: that of its address if its source is on the
/// web, else the synthetic one. A source on the web that has no reference
/// gives none.
pub open spec fn document_reference(source: Option<Seq<char>>, id: Seq<char>) -> Option<Seq<char>> {
    if has_web_source(source) {
        reference_of(source->0)
    } else {
        Some(synthetic_reference(id))
    }
}

/// The document that a raw record holds, or why it holds none.
///
/// A record holds a document if it has the seven text fields, its source, if
/// that is on the web, is an address with a reference, and the time at which
/// it was saved is written as RFC 3339 asks. A document needs no source:
/// without one on the web it has the synthetic reference.
pub open spec fn document_of(fields: Seq<RawFieldView>, rules: Seq<QueryRuleView>) -> Result<
    DocumentView,
    RecordErrorView,
> {
    match text_fields(fields, document_fields()) {
        Err(e) => Err(e),
        Ok(texts) => {
            let source = source_of(fields);
            let id = texts[0];
            match document_reference(source, id) {
                None => Err(RecordErrorView::InvalidUrl),
                Some(roam_ref) => match rfc3339_seconds(texts[6]) {
                    None => Err(RecordErrorView::InvalidTimestamp),
                    Some(saved_at) => Ok(
                        DocumentView {
                            id,
                            has_url: has_web_source(source),
                            roam_ref,
                            source_url: kept_source(source, rules),
                            readwise_url: texts[3],
                            title: display_title(texts[2], texts[1], published_of(fields)),
                            location: texts[4],
                            author: texts[5],
                            saved_at,
                            published_date: published_of(fields),
                        },
                    ),
                },
            }
        },
    }
}

/// The time at which the record says it was published.
fn published_date(value: &RawRecord) -> (r: Option<Timestamp>)
    ensures
        r.deep_view() == published_of(value@),
{
    match value.get_integer("published_date") {
        Some(millis) => Timestamp::from_timestamp(millis / 1000),
        None => None,
    }
}

/// The title under which a document is shown.
fn title_for(title: &str, category: &str, published: Option<Timestamp>) -> (r: String)
    ensures
        r@ == display_title(title@, category@, published.deep_view()),
{
    match published {
        Some(time) => {
            if same_text(category, "epub") || same_text(category, "ebook") {
                let year = time.format_year();
                let opened = append_text(title, " (");
                let dated = append_text(opened.as_str(), year.as_str());
                append_text(dated.as_str(), ")")
            } else {
                title.to_owned()
            }
        },
        None => title.to_owned(),
    }
}

/// The source of the record as a document keeps it.
fn source_for(source: Option<&str>, rules: &Vec<QueryRule>) -> (kept: String)
    ensures
        kept@ == kept_source(source.deep_view(), rules.deep_view()),
{
    match source {
        Some(source_url) => match try_clean_url(source_url, rules) {
            Some(cleaned) => cleaned,
            None => source_url.to_owned(),
        },
        None => String::new(),
    }
}

/// The reference of a document with this source and this `id`.
fn reference_for(source: Option<&str>, id: &str) -> (r: Option<String>)
    ensures
        r.deep_view() == document_reference(source.deep_view(), id@),
{
    match source {
        Some(source_url) => {
            if text_starts_with(source_url, "http") {
                try_org_roam_ref(source_url)
            } else {
                Some(append_text("@readwise_", id))
            }
        },
        None => Some(append_text("@readwise_", id)),
    }
}

impl Document {
    /// The document that `value` holds, or why it holds none. Its address is
    /// cleaned by `rules`.
    pub fn new(value: &RawRecord, rules: &Vec<QueryRule>) -> (r: Result<Self, RecordError>)
        ensures
            result_view(r) == document_of(value@, rules.deep_view()),
    {
        let names = vec!["id", "category", "title", "url", "location", "author", "saved_at"];
        assert(names.deep_view() == document_fields());
        let texts = match get_strings(value, &names) {
            Ok(texts) => texts,
            Err(e) => {
                return Err(e);
            },
        };
        let found = get_string(value, "source_url");
        let source: Option<&str> = match &found {
            Ok(source_url) => Some(source_url.as_str()),
            Err(_) => None,
        };
        assert(source.deep_view() == source_of(value@));
        let roam_ref = match reference_for(source, texts[0].as_str()) {
            Some(reference) => reference,
            None => {
                return Err(RecordError::InvalidUrl);
            },
        };
        let has_url = match source {
            Some(source_url) => text_starts_with(source_url, "http"),
            None => false,
        };
        let saved_at = match Timestamp::parse_from_rfc3339(texts[6].as_str()) {
            Some(time) => time,
            None => {
                return Err(RecordError::InvalidTimestamp);
            },
        };
        let published = published_date(value);
        let title = title_for(texts[2].as_str(), texts[1].as_str(), published);
        Ok(
            Document {
                id: texts[0].clone(),
                has_url,
                roam_ref,
                source_url: source_for(source, rules),
                readwise_url: texts[3].clone(),
                title,
                location: texts[4].clone(),
                author: texts[5].clone(),
                saved_at,
                published_date: published,
            },
        )
    }
}

/// The document of a raw record, if it holds one.
pub open spec fn kept_document(fields: Seq<RawFieldView>, rules: Seq<QueryRuleView>) -> Option<
    DocumentView,
> {
    match document_of(fields, rules) {
        Ok(document) => Some(document),
        Err(_) => None,
    }
}

/// The documents that raw records hold, in order. A record that holds none
/// is left out.
pub open spec fn documents_in(records: Seq<Seq<RawFieldView>>, rules: Seq<QueryRuleView>) -> Seq<
    DocumentView,
> {
    records.filter_map(|fields: Seq<RawFieldView>| kept_document(fields, rules))
}

/// The documents that `records` hold, in order.
pub fn get_document_list(records: &Vec<RawRecord>, rules: &Vec<QueryRule>) -> (documents: Vec<
    Document,
>)
    ensures
        documents.deep_view() == documents_in(records.deep_view(), rules.deep_view()),
{
    let ghost all = records.deep_view();
    let ghost keep = |fields: Seq<RawFieldView>| kept_document(fields, rules.deep_view());
    let mut documents: Vec<Document> = Vec::new();
    let mut i: usize = 0;
    assert(documents.deep_view() == all.take(0).filter_map(keep));
    while i < records.len()
        invariant
            i <= records.len(),
            all == records.deep_view(),
            keep == |fields: Seq<RawFieldView>| kept_document(fields, rules.deep_view()),
            documents.deep_view() == all.take(i as int).filter_map(keep),
        decreases records.len() - i,
    {
        proof {
            all.lemma_filter_map_take_succ(keep, i as int);
        }
        let ghost before = documents.deep_view();
        match Document::new(&records[i], rules) {
            Ok(document) => {
                documents.push(document);
                assert(documents.deep_view() == before + seq![document@]);
            },
            Err(_) => {},
        }
        i += 1;
    }
    assert(all.take(i as int) == all);
    documents
}

/// The note of a raw record, if it holds one.
pub open spec fn kept_note(fields: Seq<RawFieldView>) -> Option<NoteView> {
    match note_of(fields) {
        Ok(note) => Some(note),
        Err(_) => None,
    }
}

/// The notes that raw records hold, in order. A record that holds none is
/// left out.
pub open spec fn notes_in(records: Seq<Seq<RawFieldView>>) -> Seq<NoteView> {
    records.filter_map(|fields: Seq<RawFieldView>| kept_note(fields))
}

/// The notes that `records` hold, in order.
pub fn get_note_list(records: &Vec<RawRecord>) -> (notes: Vec<Note>)
    ensures
        notes.deep_view() == notes_in(records.deep_view()),
{
    let ghost all = records.deep_view();
    let ghost keep = |fields: Seq<RawFieldView>| kept_note(fields);
    let mut notes: Vec<Note> = Vec::new();
    let mut i: usize = 0;
    assert(notes.deep_view() == all.take(0).filter_map(keep));
    while i < records.len()
        invariant
            i <= records.len(),
            all == records.deep_view(),
            keep == |fields: Seq<RawFieldView>| kept_note(fields),
            notes.deep_view() == all.take(i as int).filter_map(keep),
        decreases records.len() - i,
    {
        proof {
            all.lemma_filter_map_take_succ(keep, i as int);
        }
        let ghost before = notes.deep_view();
        match Note::new(&records[i]) {
            Ok(note) => {
                notes.push(note);
                assert(notes.deep_view() == before + seq![note@]);
            },
            Err(_) => {},
        }
        i += 1;
    }
    assert(all.take(i as int) == all);
    notes
}

/// The highlight of a raw record, if it holds one that quotes anything.
pub open spec fn kept_highlight(fields: Seq<RawFieldView>) -> Option<HighlightView> {
    match highlight_of(fields) {
        Ok(highlight) => if highlight.content.len() > 0 {
            Some(highlight)
        } else {
            None
        },
        Err(_) => None,
    }
}

/// The highlights that raw records hold, in order. A record that holds none,
/// or one without content, is left out.
pub open spec fn highlights_in(records: Seq<Seq<RawFieldView>>) -> Seq<HighlightView> {
    records.filter_map(|fields: Seq<RawFieldView>| kept_highlight(fields))
}

/// The highlights that `records` hold, in order, without the empty ones.
pub fn get_highlight_list(records: &Vec<RawRecord>) -> (highlights: Vec<Highlight>)
    ensures
        highlights.deep_view() == highlights_in(records.deep_view()),
{
    let ghost all = records.deep_view();
    let ghost keep = |fields: Seq<RawFieldView>| kept_highlight(fields);
    let mut highlights: Vec<Highlight> = Vec::new();
    let mut i: usize = 0;
    assert(highlights.deep_view() == all.take(0).filter_map(keep));
    while i < records.len()
        invariant
            i <= records.len(),
            all == records.deep_view(),
            keep == |fields: Seq<RawFieldView>| kept_highlight(fields),
            highlights.deep_view() == all.take(i as int).filter_map(keep),
        decreases records.len() - i,
    {
        proof {
            all.lemma_filter_map_take_succ(keep, i as int);
        }
        let ghost before = highlights.deep_view();
        match Highlight::new(&records[i]) {
            Ok(highlight) => {
                if !highlight.content.as_str().is_empty() {
                    highlights.push(highlight);
                    assert(highlights.deep_view() == before + seq![highlight@]);
                }
            },
            Err(_) => {},
        }
        i += 1;
    }
    assert(all.take(i as int) == all);
    highlights
}

/// The highlights of the document `parent`: those of `highlights` that name
/// it and quote anything, in order.
pub open spec fn highlights_of(highlights: Seq<HighlightView>, parent: Seq<char>) -> Seq<
    HighlightView,
> {
    highlights.filter(|h: HighlightView| h.parent_id == parent && h.content.len() > 0)
}

/// The `id` of each document, in order.
pub open spec fn document_ids(documents: Seq<DocumentView>) -> Seq<Seq<char>> {
    Seq::new(documents.len(), |i: int| documents[i].id)
}

/// The highlights of `highlights` that name `parent` and quote anything.
pub fn highlights_for(highlights: &Vec<Highlight>, parent: &str) -> (list: Vec<Highlight>)
    ensures
        list.deep_view() == highlights_of(highlights.deep_view(), parent@),
{
    let ghost all = highlights.deep_view();
    let ghost keep = |h: HighlightView| h.parent_id == parent@ && h.content.len() > 0;
    let mut list: Vec<Highlight> = Vec::new();
    let mut i: usize = 0;
    proof {
        reveal(Seq::filter);
        assert(list.deep_view() == all.take(0).filter(keep));
    }
    while i < highlights.len()
        invariant
            i <= highlights.len(),
            all == highlights.deep_view(),
            keep == |h: HighlightView| h.parent_id == parent@ && h.content.len() > 0,
            list.deep_view() == all.take(i as int).filter(keep),
        decreases highlights.len() - i,
    {
        proof {
            all.take(i as int).lemma_filter_push(all[i as int], keep);
            assert(all.take(i + 1) == all.take(i as int).push(all[i as int]));
        }
        let h = &highlights[i];
        if same_text(h.parent_id.as_str(), parent) && !h.content.as_str().is_empty() {
            let ghost before = list.deep_view();
            list.push(h.clone());
            assert(list.deep_view() == before.push(all[i as int]));
        }
        i += 1;
    }
    assert(all.take(i as int) == all);
    list
}

/// The index from the `id` of each document to its highlights.
///
/// Every document has a list, empty if nothing quotes it. A list holds the
/// highlights that name the document and quote anything, in the order of
/// `highlights`. A highlight that names no document is in no list.
pub fn map_parents_to_highlights(articles: Vec<Document>, highlights: Vec<Highlight>) -> (index:
    TextMap<Vec<Highlight>>)
    ensures
        index.wf(),
        index.keys() == distinct(document_ids(articles.deep_view())),
        forall|k: Seq<char>|
            index@.contains_key(k) <==> document_ids(articles.deep_view()).contains(k),
        forall|k: Seq<char>| #[trigger]
            index@.contains_key(k) ==> index@[k].deep_view() == highlights_of(
                highlights.deep_view(),
                k,
            ),
{
    let ghost ids = document_ids(articles.deep_view());
    let mut index: TextMap<Vec<Highlight>> = TextMap::new();
    let mut i: usize = 0;
    while i < articles.len()
        invariant
            i <= articles.len(),
            ids == document_ids(articles.deep_view()),
            index.wf(),
            index.keys() == distinct(ids.take(i as int)),
            forall|k: Seq<char>| #[trigger]
                index@.contains_key(k) ==> index@[k].deep_view() == highlights_of(
                    highlights.deep_view(),
                    k,
                ),
        decreases articles.len() - i,
    {
        proof {
            assert(ids.take(i + 1).drop_last() == ids.take(i as int));
            assert(ids.take(i + 1).last() == articles@[i as int].id@);
        }
        let id = &articles[i].id;
        if !index.contains_key(id.as_str()) {
            let list = highlights_for(&highlights, id.as_str());
            index.insert(id.clone(), list);
        }
        i += 1;
    }
    proof {
        assert(ids.take(i as int) == ids);
        lemma_distinct(ids);
    }
    index
}

/// The note of each highlight: of the notes that name one highlight, the
/// last.
pub open spec fn notes_by_parent(notes: Seq<NoteView>) -> Map<Seq<char>, NoteView>
    decreases notes.len(),
{
    if notes.len() == 0 {
        Map::empty()
    } else {
        notes_by_parent(notes.drop_last()).insert(notes.last().parent_id, notes.last())
    }
}

/// The index from the `id` of each annotated highlight to its note: of the
/// notes that name one highlight, the last.
pub fn note_list_to_map(note_list: Vec<Note>) -> (index: TextMap<Note>)
    ensures
        index.wf(),
        index.deep_view() == notes_by_parent(note_list.deep_view()),
{
    let ghost all = note_list.deep_view();
    let mut index: TextMap<Note> = TextMap::new();
    let mut i: usize = 0;
    assert(index.deep_view() == notes_by_parent(all.take(0)));
    while i < note_list.len()
        invariant
            i <= note_list.len(),
            all == note_list.deep_view(),
            index.wf(),
            index.deep_view() == notes_by_parent(all.take(i as int)),
        decreases note_list.len() - i,
    {
        proof {
            assert(all.take(i + 1).drop_last() == all.take(i as int));
        }
        let ghost before = index.deep_view();
        let note = note_list[i].clone();
        index.insert(note.parent_id.clone(), note);
        assert(index.deep_view() == before.insert(note.parent_id@, note@));
        i += 1;
    }
    assert(all.take(i as int) == all);
    index
}

/// The reference of a document whose source is on the web lies with the
/// source alone: two such documents with one source have one reference.
pub proof fn lemma_reference_by_source(source_url: Seq<char>, first_id: Seq<char>, second_id: Seq<char>)
    requires
        is_web_source(source_url),
    ensures
        document_reference(Some(source_url), first_id) == document_reference(
            Some(source_url),
            second_id,
        ),
        document_reference(Some(source_url), first_id) == reference_of(source_url),
{
}

/// The reference of a document without a source on the web tells its `id`:
/// two such documents with one reference have one `id`. The same holds of
/// the form in which the local store keeps the reference.
pub proof fn lemma_reference_tells_id(
    first_source: Option<Seq<char>>,
    first_id: Seq<char>,
    second_source: Option<Seq<char>>,
    second_id: Seq<char>,
)
    requires
        !has_web_source(first_source),
        !has_web_source(second_source),
    ensures
        document_reference(first_source, first_id) == Some(synthetic_reference(first_id)),
        document_reference(first_source, first_id) == document_reference(
            second_source,
            second_id,
        ) ==> first_id == second_id,
        crate::store::store_form(synthetic_reference(first_id)) == crate::store::store_form(
            synthetic_reference(second_id),
        ) ==> first_id == second_id,
        crate::store::store_form(synthetic_reference(first_id)) == "readwise_"@ + first_id,
{
    let shown = "@readwise_"@;
    let kept = "readwise_"@;
    reveal_strlit("@readwise_");
    reveal_strlit("readwise_");
    assert((shown + first_id).skip(shown.len() as int) == first_id);
    assert((shown + second_id).skip(shown.len() as int) == second_id);
    assert((shown + first_id).skip(1) == kept + first_id);
    assert((shown + second_id).skip(1) == kept + second_id);
    assert((kept + first_id).skip(kept.len() as int) == first_id);
    assert((kept + second_id).skip(kept.len() as int) == second_id);
}

/// No list of the index holds a highlight without content, and every
/// highlight in the list of a document names that document.
pub proof fn lemma_lists_hold_no_empty_highlight(
    highlights: Seq<HighlightView>,
    parent: Seq<char>,
    i: int,
)
    requires
        0 <= i < highlights_of(highlights, parent).len(),
    ensures
        highlights_of(highlights, parent)[i].content.len() > 0,
        highlights_of(highlights, parent)[i].parent_id == parent,
        highlights.contains(highlights_of(highlights, parent)[i]),
{
    let keep = |h: HighlightView| h.parent_id == parent && h.content.len() > 0;
    highlights.lemma_filter_pred(keep, i);
    highlights.lemma_filter_contains_rev(keep, highlights_of(highlights, parent)[i]);
}

/// No highlight that is taken from raw records is without content.
pub proof fn lemma_fetched_highlights_have_content(records: Seq<Seq<RawFieldView>>, i: int)
    requires
        0 <= i < highlights_in(records).len(),
    ensures
        highlights_in(records)[i].content.len() > 0,
    decreases records.len(),
{
    let keep = |fields: Seq<RawFieldView>| kept_highlight(fields);
    if records.len() > 0 {
        let rest = records.drop_last();
        assert(records.filter_map(keep) == match keep(records.last()) {
            Some(h) => rest.filter_map(keep) + seq![h],
            None => rest.filter_map(keep),
        });
        if i < highlights_in(rest).len() {
            lemma_fetched_highlights_have_content(rest, i);
        }
    }
}

/// Where every document has an `id` of its own, the index has one list for
/// each document, in the order of the documents.
pub proof fn lemma_one_list_for_each_document(documents: Seq<DocumentView>)
    requires
        document_ids(documents).no_duplicates(),
    ensures
        distinct(document_ids(documents)) == document_ids(documents),
        distinct(document_ids(documents)).len() == documents.len(),
{
    lemma_distinct_of_unique(document_ids(documents));
}

} // verus!

//! The merge planner: what to do with each document of a run, and the
//! highlights and notes to write for it.

use vstd::prelude::*;
use crate::readwise_api::{Document, DocumentView, Highlight, HighlightView, Note, NoteView};
use crate::filename::{entry_file_name, get_new_entry_filename, is_entry_name, new_entry_name};
use crate::store::{resolved, store_form, store_reference, ExistingNodeView, ExistingStore};
use crate::text::{lemma_push_contains, same_text};
use crate::text_map::TextMap;
use crate::time::{local_date, rfc3339_local_date};
use crate::util::contains_text;

verus! {

/// The read status that a location stands for: `DONE` for the archive,
/// `TODO` for every other location, known or not.
pub open spec fn read_status(location: Seq<char>) -> Seq<char> {
    if location == "archive"@ {
        "DONE"@
    } else {
        "TODO"@
    }
}

/// The read status that `location` stands for.
pub fn read_status_by_location(location: &str) -> (status: &'static str)
    ensures
        status@ == read_status(location@),
{
    if same_text(location, "archive") {
        "DONE"
    } else {
        "TODO"
    }
}

/// The title of each document, in order.
pub open spec fn titles_of(documents: Seq<DocumentView>) -> Seq<Seq<char>> {
    Seq::new(documents.len(), |i: int| documents[i].title)
}

/// Whether two of `titles` are `title`.
pub open spec fn is_duplicate(titles: Seq<Seq<char>>, title: Seq<char>) -> bool {
    exists|i: int, j: int|
        0 <= i < j < titles.len() && #[trigger] titles[i] == title && #[trigger] titles[j]
            == title
}

/// Whether two of `documents` have the title `title`.
fn occurs_twice(documents: &Vec<Document>, title: &str) -> (b: bool)
    ensures
        b == is_duplicate(titles_of(documents.deep_view()), title@),
{
    let ghost titles = titles_of(documents.deep_view());
    let mut first: Option<usize> = None;
    let mut i: usize = 0;
    while i < documents.len()
        invariant
            i <= documents.len(),
            titles == titles_of(documents.deep_view()),
            match first {
                Some(f) => f < i && titles[f as int] == title@ && forall|k: int|
                    0 <= k < i && k != f ==> titles[k] != title@,
                None => forall|k: int| 0 <= k < i ==> titles[k] != title@,
            },
        decreases documents.len() - i,
    {
        if same_text(documents[i].title.as_str(), title) {
            match first {
                Some(f) => {
                    assert(titles[f as int] == title@ && titles[i as int] == title@);
                    return true;
                },
                None => {
                    first = Some(i);
                },
            }
        }
        i += 1;
    }
    false
}

/// Whether `list` holds every title that two of `documents` share, and
/// nothing else.
pub open spec fn holds_duplicates(list: Seq<Seq<char>>, documents: Seq<DocumentView>) -> bool {
    forall|title: Seq<char>| #[trigger]
        list.contains(title) <==> is_duplicate(titles_of(documents), title)
}

/// The titles that two of `documents` share, each once, in the order in
/// which they first occur.
pub fn get_duplicate_titles(documents: &Vec<Document>) -> (titles: Vec<String>)
    ensures
        titles.deep_view().no_duplicates(),
        holds_duplicates(titles.deep_view(), documents.deep_view()),
{
    let ghost all = titles_of(documents.deep_view());
    let mut titles: Vec<String> = Vec::new();
    let mut i: usize = 0;
    while i < documents.len()
        invariant
            i <= documents.len(),
            all == titles_of(documents.deep_view()),
            titles.deep_view().no_duplicates(),
            forall|t: Seq<char>| #[trigger]
                titles.deep_view().contains(t) <==> (is_duplicate(all, t) && all.take(
                    i as int,
                ).contains(t)),
        decreases documents.len() - i,
    {
        let title = documents[i].title.as_str();
        let ghost before = titles.deep_view();
        let ghost seen = all.take(i as int);
        let fresh = !contains_text(&titles, title);
        let twice = occurs_twice(documents, title);
        if fresh && twice {
            titles.push(title.to_owned());
            assert(titles.deep_view() == before.push(title@));
        }
        proof {
            let now = titles.deep_view();
            assert(all.take(i + 1) == seen.push(all[i as int]));
            assert(all[i as int] == title@);
            assert forall|t: Seq<char>| #[trigger]
                now.contains(t) <==> (is_duplicate(all, t) && all.take(i + 1).contains(
                    t,
                )) by {
                lemma_push_contains(seen, title@, t);
                lemma_push_contains(before, title@, t);
                assert(before.contains(t) <==> (is_duplicate(all, t) && seen.contains(t)));
            }
        }
        i += 1;
    }
    proof {
        assert(all.take(i as int) == all);
        assert forall|t: Seq<char>| #[trigger]
            titles.deep_view().contains(t) <==> is_duplicate(all, t) by {
            if is_duplicate(all, t) {
                let (a, b) = choose|a: int, b: int|
                    0 <= a < b < all.len() && #[trigger] all[a] == t && #[trigger] all[b] == t;
                assert(all[a] == t);
                assert(all.contains(t));
            }
        }
    }
    titles
}

/// A highlight as it is written, with the note on it if there is one.
#[derive(Debug)]
pub struct HighlightWithNote {
    pub id: String,
    pub content: String,
    /// The content of the note.
    pub note: Option<String>,
    /// The date on which the note was saved.
    pub note_saved_at: Option<String>,
}

/// What a `HighlightWithNote` stands for.
pub struct HighlightWithNoteView {
    pub id: Seq<char>,
    pub content: Seq<char>,
    pub note: Option<Seq<char>>,
    pub note_saved_at: Option<Seq<char>>,
}

impl DeepView for HighlightWithNote {
    type V = HighlightWithNoteView;

    open spec fn deep_view(&self) -> HighlightWithNoteView {
        HighlightWithNoteView {
            id: self.id@,
            content: self.content@,
            note: self.note.deep_view(),
            note_saved_at: self.note_saved_at.deep_view(),
        }
    }
}

impl View for HighlightWithNote {
    type V = HighlightWithNoteView;

    open spec fn view(&self) -> HighlightWithNoteView {
        self.deep_view()
    }
}

/// `highlight` as it is written: with the content of the note on it, and the
/// date on which that note was saved, in the time zone that the note names.
/// A note that does not say when it was saved, as RFC 3339 asks, is written
/// without a date.
pub open spec fn with_note(highlight: HighlightView, notes: Map<Seq<char>, NoteView>) -> HighlightWithNoteView {
    if notes.contains_key(highlight.id) {
        HighlightWithNoteView {
            id: highlight.id,
            content: highlight.content,
            note: Some(notes[highlight.id].content),
            note_saved_at: rfc3339_local_date(notes[highlight.id].saved_at),
        }
    } else {
        HighlightWithNoteView {
            id: highlight.id,
            content: highlight.content,
            note: None,
            note_saved_at: None,
        }
    }
}

/// The highlights of one document as they are written: in the reverse of the
/// order in which they were fetched, each with its note.
pub open spec fn content_block(
    highlights: Seq<HighlightView>,
    notes: Map<Seq<char>, NoteView>,
) -> Seq<HighlightWithNoteView> {
    Seq::new(
        highlights.len(),
        |i: int| with_note(highlights[highlights.len() - 1 - i], notes),
    )
}

/// `highlight` with the note on it.
fn pair_with_note(highlight: &Highlight, notes_by_parent: &TextMap<Note>) -> (r: HighlightWithNote)
    requires
        notes_by_parent.wf(),
    ensures
        r@ == with_note(highlight@, notes_by_parent.deep_view()),
{
    match notes_by_parent.get(highlight.id.as_str()) {
        Some(note) => {
            let date = local_date(note.saved_at.as_str());
            HighlightWithNote {
                id: highlight.id.clone(),
                content: highlight.content.clone(),
                note: Some(note.content.clone()),
                note_saved_at: date,
            }
        },
        None => HighlightWithNote {
            id: highlight.id.clone(),
            content: highlight.content.clone(),
            note: None,
            note_saved_at: None,
        },
    }
}

/// The highlights of the document `parent_id` as they are written: in the
/// reverse of the order of their list, each with its note.
pub fn get_highlights_with_notes(
    highlights_by_parent: &TextMap<Vec<Highlight>>,
    notes_by_parent: &TextMap<Note>,
    parent_id: &str,
) -> (block: Vec<HighlightWithNote>)
    requires
        highlights_by_parent.wf(),
        notes_by_parent.wf(),
        highlights_by_parent@.contains_key(parent_id@),
    ensures
        block.deep_view() == content_block(
            highlights_by_parent@[parent_id@].deep_view(),
            notes_by_parent.deep_view(),
        ),
        block.len() == highlights_by_parent@[parent_id@].len(),
        forall|i: int|
            0 <= i < block.len() ==> {
                let list = highlights_by_parent@[parent_id@].deep_view();
                &&& (#[trigger] block.deep_view()[i]).id == list[list.len() - 1 - i].id
                &&& block.deep_view()[i].content == list[list.len() - 1 - i].content
            },
{
    let highlights = highlights_by_parent.get(parent_id).unwrap();
    let ghost all = highlights.deep_view();
    let ghost notes = notes_by_parent.deep_view();
    let n: usize = highlights.len();
    let mut block: Vec<HighlightWithNote> = Vec::new();
    let mut i: usize = 0;
    while i < n
        invariant
            i <= n,
            n == highlights.len(),
            all == highlights.deep_view(),
            notes == notes_by_parent.deep_view(),
            notes_by_parent.wf(),
            block.len() == i,
            forall|k: int| 0 <= k < i ==> #[trigger] block.deep_view()[k] == with_note(
                all[n - 1 - k],
                notes,
            ),
        decreases n - i,
    {
        let highlight = &highlights[n - 1 - i];
        assert(highlight@ == all[n - 1 - i]);
        let entry = pair_with_note(highlight, notes_by_parent);
        let ghost before = block.deep_view();
        block.push(entry);
        assert(block.deep_view() == before.push(entry@));
        i += 1;
    }
    assert(block.deep_view() == content_block(all, notes));
    block
}

/// What a run does with one document.
#[derive(Debug)]
pub enum Decision {
    /// Nothing: no highlight quotes the document.
    Skip,
    /// The local store has the document: its highlights go into this file.
    Update { file_path: String },
    /// The local store does not have the document: it gets a new file.
    Create,
}

/// What a `Decision` stands for.
pub enum DecisionView {
    Skip,
    Update { file_path: Seq<char> },
    Create,
}

impl DeepView for Decision {
    type V = DecisionView;

    open spec fn deep_view(&self) -> DecisionView {
        match self {
            Decision::Skip => DecisionView::Skip,
            Decision::Update { file_path } => DecisionView::Update { file_path: file_path@ },
            Decision::Create => DecisionView::Create,
        }
    }
}

impl View for Decision {
    type V = DecisionView;

    open spec fn view(&self) -> DecisionView {
        self.deep_view()
    }
}

/// Whether some highlight quotes the document `id`.
pub open spec fn is_quoted(highlights: Map<Seq<char>, Seq<HighlightView>>, id: Seq<char>) -> bool {
    highlights.contains_key(id) && highlights[id].len() > 0
}

/// What a run does with a document of this `id` and `reference`.
///
/// A document that nothing quotes is skipped. One whose reference leads
/// through the local store to a file is updated there. Any other is created.
pub open spec fn decision_of(
    id: Seq<char>,
    reference: Seq<char>,
    highlights: Map<Seq<char>, Seq<HighlightView>>,
    refs: Map<Seq<char>, Seq<char>>,
    nodes: Map<Seq<char>, ExistingNodeView>,
) -> DecisionView {
    if !is_quoted(highlights, id) {
        DecisionView::Skip
    } else {
        match resolved(refs, nodes, store_form(reference)) {
            Some(file_path) => DecisionView::Update { file_path },
            None => DecisionView::Create,
        }
    }
}

/// What a run does with `document`.
pub fn classify(
    document: &Document,
    highlights_by_parent: &TextMap<Vec<Highlight>>,
    store: &ExistingStore,
) -> (decision: Decision)
    requires
        highlights_by_parent.wf(),
        store.wf(),
    ensures
        decision@ == decision_of(
            document@.id,
            document@.roam_ref,
            highlights_by_parent.deep_view(),
            store.refs.deep_view(),
            store.nodes.deep_view(),
        ),
{
    let quoted = match highlights_by_parent.get(document.id.as_str()) {
        Some(list) => list.len() > 0,
        None => false,
    };
    if !quoted {
        return Decision::Skip;
    }
    let reference = store_reference(document.roam_ref.as_str());
    match store.resolve(reference.as_str()) {
        Some(file_path) => Decision::Update { file_path },
        None => Decision::Create,
    }
}

/// The decision for each document, in order.
pub open spec fn plan_of(
    documents: Seq<DocumentView>,
    highlights: Map<Seq<char>, Seq<HighlightView>>,
    refs: Map<Seq<char>, Seq<char>>,
    nodes: Map<Seq<char>, ExistingNodeView>,
) -> Seq<DecisionView> {
    Seq::new(
        documents.len(),
        |i: int| decision_of(documents[i].id, documents[i].roam_ref, highlights, refs, nodes),
    )
}

/// What a run does with each of `documents`, in order.
pub fn plan(
    documents: &Vec<Document>,
    highlights_by_parent: &TextMap<Vec<Highlight>>,
    store: &ExistingStore,
) -> (decisions: Vec<Decision>)
    requires
        highlights_by_parent.wf(),
        store.wf(),
    ensures
        decisions.deep_view() == plan_of(
            documents.deep_view(),
            highlights_by_parent.deep_view(),
            store.refs.deep_view(),
            store.nodes.deep_view(),
        ),
{
    let ghost wanted = plan_of(
        documents.deep_view(),
        highlights_by_parent.deep_view(),
        store.refs.deep_view(),
        store.nodes.deep_view(),
    );
    let mut decisions: Vec<Decision> = Vec::new();
    let mut i: usize = 0;
    while i < documents.len()
        invariant
            i <= documents.len(),
            highlights_by_parent.wf(),
            store.wf(),
            wanted == plan_of(
                documents.deep_view(),
                highlights_by_parent.deep_view(),
                store.refs.deep_view(),
                store.nodes.deep_view(),
            ),
            decisions.deep_view() == wanted.take(i as int),
        decreases documents.len() - i,
    {
        let decision = classify(&documents[i], highlights_by_parent, store);
        let ghost before = decisions.deep_view();
        decisions.push(decision);
        assert(decisions.deep_view() == before.push(decision@));
        assert(wanted.take(i + 1) == wanted.take(i as int).push(wanted[i as int]));
        i += 1;
    }
    assert(wanted.take(i as int) == wanted);
    decisions
}

/// The address that the name of the file of a new entry shows a hash of:
/// that of the document, if it shares its title with another; else none.
pub open spec fn hashed_url(document: DocumentView, duplicate_titles: Seq<Seq<char>>) -> Option<
    Seq<char>,
> {
    if duplicate_titles.contains(document.title) {
        Some(document.source_url)
    } else {
        None
    }
}

/// The name of the file of the new entry for `document`, made at the time
/// `stamp`.
pub fn entry_name_at(document: &Document, duplicate_titles: &Vec<String>, stamp: &str) -> (name:
    String)
    ensures
        name@ == entry_file_name(
            stamp@,
            document@.title,
            hashed_url(document@, duplicate_titles.deep_view()),
        ),
{
    if contains_text(duplicate_titles, document.title.as_str()) {
        new_entry_name(stamp, document.title.as_str(), Some(document.source_url.as_str()))
    } else {
        new_entry_name(stamp, document.title.as_str(), None)
    }
}

/// The name of the file of the new entry for `document`, made now.
pub fn entry_name(document: &Document, duplicate_titles: &Vec<String>) -> (name: String)
    ensures
        is_entry_name(
            name@,
            document@.title,
            hashed_url(document@, duplicate_titles.deep_view()),
        ),
{
    if contains_text(duplicate_titles, document.title.as_str()) {
        get_new_entry_filename(document.title.as_str(), Some(document.source_url.as_str()))
    } else {
        get_new_entry_filename(document.title.as_str(), None)
    }
}

/// Planning is repeatable: two runs over the same documents, the same index
/// of highlights and the same local store decide the same for every
/// document.
pub proof fn lemma_plan_is_repeatable(
    first: Seq<DecisionView>,
    second: Seq<DecisionView>,
    documents: Seq<DocumentView>,
    highlights: Map<Seq<char>, Seq<HighlightView>>,
    refs: Map<Seq<char>, Seq<char>>,
    nodes: Map<Seq<char>, ExistingNodeView>,
)
    requires
        first == plan_of(documents, highlights, refs, nodes),
        second == plan_of(documents, highlights, refs, nodes),
    ensures
        first == second,
        first.len() == documents.len(),
{
}

/// The decision for a document that is quoted lies with its reference alone:
/// two such documents with one reference get one decision.
pub proof fn lemma_decision_by_reference(
    first: DocumentView,
    second: DocumentView,
    highlights: Map<Seq<char>, Seq<HighlightView>>,
    refs: Map<Seq<char>, Seq<char>>,
    nodes: Map<Seq<char>, ExistingNodeView>,
)
    requires
        is_quoted(highlights, first.id),
        is_quoted(highlights, second.id),
        first.roam_ref == second.roam_ref,
    ensures
        decision_of(first.id, first.roam_ref, highlights, refs, nodes) == decision_of(
            second.id,
            second.roam_ref,
            highlights,
            refs,
            nodes,
        ),
{
}

/// A document that is quoted is updated exactly when its reference leads to
/// a file, and then in that file; it is created exactly when it leads to
/// none; and it is never skipped.
pub proof fn lemma_update_iff_resolved(
    id: Seq<char>,
    reference: Seq<char>,
    highlights: Map<Seq<char>, Seq<HighlightView>>,
    refs: Map<Seq<char>, Seq<char>>,
    nodes: Map<Seq<char>, ExistingNodeView>,
)
    requires
        is_quoted(highlights, id),
    ensures
        decision_of(id, reference, highlights, refs, nodes) != DecisionView::Skip,
        decision_of(id, reference, highlights, refs, nodes) is Update <==> resolved(
            refs,
            nodes,
            store_form(reference),
        ) is Some,
        decision_of(id, reference, highlights, refs, nodes) is Create <==> resolved(
            refs,
            nodes,
            store_form(reference),
        ) is None,
        forall|file_path: Seq<char>|
            resolved(refs, nodes, store_form(reference)) == Some(file_path) ==> decision_of(
                id,
                reference,
                highlights,
                refs,
                nodes,
            ) == (DecisionView::Update { file_path }),
{
}

/// Once the local store has taken in the entry that was created for a
/// document, the next run updates that entry and creates no second one.
pub proof fn lemma_created_is_updated_next(
    id: Seq<char>,
    reference: Seq<char>,
    highlights: Map<Seq<char>, Seq<HighlightView>>,
    refs: Map<Seq<char>, Seq<char>>,
    nodes: Map<Seq<char>, ExistingNodeView>,
    node_id: Seq<char>,
    node: ExistingNodeView,
)
    requires
        is_quoted(highlights, id),
    ensures
        decision_of(
            id,
            reference,
            highlights,
            refs.insert(store_form(reference), node_id),
            nodes.insert(node_id, node),
        ) == (DecisionView::Update { file_path: node.file_path }),
{
}

/// The `id` of each written highlight, in order.
pub open spec fn block_ids(block: Seq<HighlightWithNoteView>) -> Seq<Seq<char>> {
    Seq::new(block.len(), |i: int| block[i].id)
}

/// The `id` of each highlight, in order.
pub open spec fn highlight_ids(highlights: Seq<HighlightView>) -> Seq<Seq<char>> {
    Seq::new(highlights.len(), |i: int| highlights[i].id)
}

/// Highlights are written in the reverse of the order in which they were
/// fetched: the newest comes first from the remote and last in the file.
pub proof fn lemma_block_reverses_order(
    highlights: Seq<HighlightView>,
    notes: Map<Seq<char>, NoteView>,
)
    ensures
        content_block(highlights, notes).len() == highlights.len(),
        block_ids(content_block(highlights, notes)) == highlight_ids(highlights).reverse(),
        forall|i: int|
            0 <= i < highlights.len() ==> (#[trigger] content_block(highlights, notes)[i]).content
                == highlights[highlights.len() - 1 - i].content,
{
    assert(block_ids(content_block(highlights, notes)) =~= highlight_ids(highlights).reverse());
}

/// What is written for a document holds no highlight without content, as
/// long as its list holds none.
pub proof fn lemma_block_has_no_empty_highlight(
    highlights: Seq<HighlightView>,
    notes: Map<Seq<char>, NoteView>,
    i: int,
)
    requires
        forall|k: int| 0 <= k < highlights.len() ==> (#[trigger] highlights[k]).content.len() > 0,
        0 <= i < content_block(highlights, notes).len(),
    ensures
        content_block(highlights, notes)[i].content.len() > 0,
{
    assert(highlights[highlights.len() - 1 - i].content.len() > 0);
}

/// The read status is total: `DONE` for the archive; `TODO` for the four
/// other locations that the remote knows, and for any location at all that
/// is not the archive.
pub proof fn lemma_read_status_is_total(location: Seq<char>)
    ensures
        read_status(location) == "DONE"@ || read_status(location) == "TODO"@,
        location == "archive"@ ==> read_status(location) == "DONE"@,
        location != "archive"@ ==> read_status(location) == "TODO"@,
        read_status("new"@) == "TODO"@,
        read_status("later"@) == "TODO"@,
        read_status("shortlist"@) == "TODO"@,
        read_status("feed"@) == "TODO"@,
        "DONE"@ != "TODO"@,
{
    reveal_strlit("archive");
    reveal_strlit("new");
    reveal_strlit("later");
    reveal_strlit("shortlist");
    reveal_strlit("feed");
    reveal_strlit("DONE");
    reveal_strlit("TODO");
    assert("DONE"@[0] != "TODO"@[0]);
    assert("new"@.len() != "archive"@.len());
    assert("later"@.len() != "archive"@.len());
    assert("shortlist"@.len() != "archive"@.len());
    assert("feed"@.len() != "archive"@.len());
}

/// The name of the file of a new entry shows a hash exactly when the title
/// of the document is shared: a title of its own gives the time, the slug
/// and `.org`, and nothing between them.
pub proof fn lemma_hash_iff_duplicate(
    document: DocumentView,
    documents: Seq<DocumentView>,
    duplicate_titles: Seq<Seq<char>>,
    stamp: Seq<char>,
)
    requires
        holds_duplicates(duplicate_titles, documents),
    ensures
        is_duplicate(titles_of(documents), document.title) ==> entry_file_name(
            stamp,
            document.title,
            hashed_url(document, duplicate_titles),
        ) == stamp + seq!['-'] + crate::filename::short_slug(document.title) + seq!['-']
            + crate::filename::url_hash(document.source_url) + ".org"@,
        !is_duplicate(titles_of(documents), document.title) ==> entry_file_name(
            stamp,
            document.title,
            hashed_url(document, duplicate_titles),
        ) == stamp + seq!['-'] + crate::filename::short_slug(document.title) + ".org"@,
{
    assert(duplicate_titles.contains(document.title) <==> is_duplicate(
        titles_of(documents),
        document.title,
    ));
    let slug = crate::filename::short_slug(document.title);
    if is_duplicate(titles_of(documents), document.title) {
        let hash = crate::filename::url_hash(document.source_url);
        assert(stamp + (seq!['-'] + slug + (seq!['-'] + hash) + ".org"@) =~= stamp + seq!['-']
            + slug + seq!['-'] + hash + ".org"@);
    } else {
        assert(stamp + (seq!['-'] + slug + Seq::<char>::empty() + ".org"@) =~= stamp + seq!['-']
            + slug + ".org"@);
    }
}

} // verus!

use org_readwise::filename::{get_new_entry_filename, new_entry_name};
use org_readwise::planner::{
    classify, entry_name, entry_name_at, get_duplicate_titles, get_highlights_with_notes, plan,
    read_status_by_location, Decision,
};
use org_readwise::readwise_api::{
    map_parents_to_highlights, note_list_to_map, Document, Highlight, Note,
};
use org_readwise::store::{get_existing_refs, store_reference, ExistingNode, ExistingStore};
use org_readwise::text_map::TextMap;
use org_readwise::time::Timestamp;

fn document(id: &str, title: &str, source_url: &str, roam_ref: &str) -> Document {
    Document {
        id: id.to_string(),
        has_url: source_url.starts_with("http"),
        roam_ref: roam_ref.to_string(),
        source_url: source_url.to_string(),
        readwise_url: format!("https://read.readwise.io/read/{}", id),
        title: title.to_string(),
        location: "archive".to_string(),
        author: "An Author".to_string(),
        saved_at: Timestamp::from_timestamp(1709634030).unwrap(),
        published_date: None,
    }
}

fn highlight(id: &str, parent_id: &str, content: &str) -> Highlight {
    Highlight { id: id.to_string(), parent_id: parent_id.to_string(), content: content.to_string() }
}

fn note(parent_id: &str, saved_at: &str, content: &str) -> Note {
    Note { parent_id: parent_id.to_string(), saved_at: saved_at.to_string(), content: content.to_string() }
}

fn store(refs: &[(&str, &str)], nodes: &[(&str, &str)]) -> ExistingStore {
    let mut s = ExistingStore::new();
    for (reference, node_id) in refs {
        s.refs.insert(reference.to_string(), node_id.to_string());
    }
    for (node_id, file_path) in nodes {
        s.nodes.insert(
            node_id.to_string(),
            ExistingNode { file_path: file_path.to_string(), title: "Some Title".to_string() },
        );
    }
    s
}

fn kind(decision: &Decision) -> String {
    match decision {
        Decision::Skip => "skip".to_string(),
        Decision::Update { file_path } => format!("update {}", file_path),
        Decision::Create => "create".to_string(),
    }
}

fn md5_hex8(text: &str) -> String {
    md5::compute(text).0[..4].iter().map(|b| format!("{:02x}", b)).collect()
}

#[test]
fn read_status_of_every_location() {
    assert_eq!(read_status_by_location("archive"), "DONE");
    for location in ["new", "later", "shortlist", "feed"] {
        assert_eq!(read_status_by_location(location), "TODO", "{}", location);
    }
    for location in ["", "Archive", "archive ", "archived", "somewhere-new", "\u{e4}rchive"] {
        assert_eq!(read_status_by_location(location), "TODO", "{:?}", location);
    }
}

#[test]
fn duplicate_titles_are_those_that_two_documents_share() {
    let documents = vec![
        document("1", "Foo", "https://a.example/1", "//a.example/1"),
        document("2", "Bar", "https://a.example/2", "//a.example/2"),
        document("3", "Foo", "https://a.example/3", "//a.example/3"),
        document("4", "Baz", "https://a.example/4", "//a.example/4"),
        document("5", "Baz", "https://a.example/5", "//a.example/5"),
        document("6", "Foo", "https://a.example/6", "//a.example/6"),
        document("7", "foo", "https://a.example/7", "//a.example/7"),
    ];
    let mut titles = get_duplicate_titles(&documents);
    titles.sort();
    assert_eq!(titles, vec!["Baz", "Foo"]);
    assert!(get_duplicate_titles(&documents[..2].to_vec()).is_empty());
    assert!(get_duplicate_titles(&Vec::new()).is_empty());
}

#[test]
fn highlights_are_written_oldest_first() {
    let documents = vec![document("d1", "Foo", "https://ex.com/a", "//ex.com/a")];
    let fetched = vec![
        highlight("h3", "d1", "third"),
        highlight("x", "d2", "elsewhere"),
        highlight("h2", "d1", "second"),
        highlight("h1", "d1", "first"),
    ];
    let index = map_parents_to_highlights(documents, fetched);
    let notes = note_list_to_map(Vec::new());
    let block = get_highlights_with_notes(&index, &notes, "d1");
    let ids: Vec<&str> = block.iter().map(|h| h.id.as_str()).collect();
    assert_eq!(ids, vec!["h1", "h2", "h3"]);
    let contents: Vec<&str> = block.iter().map(|h| h.content.as_str()).collect();
    assert_eq!(contents, vec!["first", "second", "third"]);
    assert!(block.iter().all(|h| h.note.is_none() && h.note_saved_at.is_none()));
}

#[test]
fn empty_highlights_are_never_written() {
    let documents = vec![document("d1", "Foo", "https://ex.com/a", "//ex.com/a")];
    let fetched = vec![highlight("h2", "d1", ""), highlight("h1", "d1", "kept"), highlight("h0", "d1", "")];
    let index = map_parents_to_highlights(documents, fetched);
    assert!(index.get("d1").unwrap().iter().all(|h| !h.content.is_empty()));
    let block = get_highlights_with_notes(&index, &note_list_to_map(Vec::new()), "d1");
    assert_eq!(block.len(), 1);
    assert_eq!(block[0].id, "h1");
}

#[test]
fn a_highlight_is_written_with_its_note() {
    let documents = vec![document("d1", "Foo", "https://ex.com/a", "//ex.com/a")];
    let fetched = vec![highlight("h2", "d1", "second"), highlight("h1", "d1", "first")];
    let index = map_parents_to_highlights(documents, fetched);
    let notes = note_list_to_map(vec![
        note("h2", "2024-03-05T23:30:00-05:00", "older thought"),
        note("d1", "2024-03-05T23:30:00Z", "on the document"),
        note("h2", "2024-03-06T00:30:00+02:00", "a thought"),
    ]);
    let block = get_highlights_with_notes(&index, &notes, "d1");
    assert_eq!(block.len(), 2);
    assert_eq!(block[0].id, "h1");
    assert_eq!(block[0].note, None);
    assert_eq!(block[0].note_saved_at, None);
    assert_eq!(block[1].id, "h2");
    assert_eq!(block[1].content, "second");
    assert_eq!(block[1].note.as_deref(), Some("a thought"));
    assert_eq!(block[1].note_saved_at.as_deref(), Some("2024-03-06"));
}

#[test]
fn a_document_without_highlights_has_an_empty_block() {
    let index = map_parents_to_highlights(
        vec![document("d1", "Foo", "https://ex.com/a", "//ex.com/a")],
        Vec::new(),
    );
    let notes = note_list_to_map(vec![note("h1", "never", "unused")]);
    assert!(get_highlights_with_notes(&index, &notes, "d1").is_empty());
}

#[test]
fn an_undated_note_is_written_without_a_date() {
    let documents = vec![document("d1", "Foo", "https://ex.com/a", "//ex.com/a")];
    let fetched = vec![
        highlight("h3", "d1", "third"),
        highlight("h2", "d1", "second"),
        highlight("h1", "d1", "first"),
    ];
    let index = map_parents_to_highlights(documents, fetched);
    let notes = note_list_to_map(vec![
        note("h2", "some day", "a thought"),
        note("h1", "2024-03-05T10:00:00Z", "fine"),
        note("h3", "", "no time at all"),
    ]);
    let block = get_highlights_with_notes(&index, &notes, "d1");
    let ids: Vec<&str> = block.iter().map(|h| h.id.as_str()).collect();
    assert_eq!(ids, vec!["h1", "h2", "h3"]);
    assert_eq!(block[0].note.as_deref(), Some("fine"));
    assert_eq!(block[0].note_saved_at.as_deref(), Some("2024-03-05"));
    assert_eq!(block[1].note.as_deref(), Some("a thought"));
    assert_eq!(block[1].note_saved_at, None);
    assert_eq!(block[2].content, "third");
    assert_eq!(block[2].note.as_deref(), Some("no time at all"));
    assert_eq!(block[2].note_saved_at, None);
}

#[test]
fn known_reference_is_updated_in_its_file() {
    let d1 = document("d1", "Foo", "https://ex.com/a", "//ex.com/a");
    let index = map_parents_to_highlights(vec![d1.clone()], vec![highlight("h1", "d1", "quoted")]);
    let known = store(&[("//ex.com/a", "n1")], &[("n1", "/kb/x.org")]);
    assert_eq!(kind(&classify(&d1, &index, &known)), "update /kb/x.org");
}

#[test]
fn unknown_reference_is_created() {
    let d1 = document("d1", "Foo", "https://ex.com/a", "//ex.com/a");
    let index = map_parents_to_highlights(vec![d1.clone()], vec![highlight("h1", "d1", "quoted")]);
    assert_eq!(kind(&classify(&d1, &index, &ExistingStore::new())), "create");
    let other = store(&[("//ex.com/b", "n1")], &[("n1", "/kb/x.org")]);
    assert_eq!(kind(&classify(&d1, &index, &other)), "create");
    let half = store(&[("//ex.com/a", "n1")], &[("n2", "/kb/x.org")]);
    assert_eq!(kind(&classify(&d1, &index, &half)), "create");
}

#[test]
fn unquoted_document_is_skipped() {
    let d1 = document("d1", "Foo", "https://ex.com/a", "//ex.com/a");
    let d2 = document("d2", "Bar", "https://ex.com/b", "//ex.com/b");
    let index = map_parents_to_highlights(vec![d1.clone()], vec![highlight("h1", "d2", "quoted")]);
    let known = store(&[("//ex.com/a", "n1")], &[("n1", "/kb/x.org")]);
    assert_eq!(kind(&classify(&d1, &index, &known)), "skip");
    assert_eq!(kind(&classify(&d2, &index, &known)), "skip");
}

#[test]
fn synthetic_reference_is_looked_up_without_its_sign() {
    let d1 = document("01xyz", "Foo", "private://read/01xyz", "@readwise_01xyz");
    let index = map_parents_to_highlights(vec![d1.clone()], vec![highlight("h1", "01xyz", "quoted")]);
    let known = store(&[("readwise_01xyz", "n7")], &[("n7", "/kb/private.org")]);
    assert_eq!(kind(&classify(&d1, &index, &known)), "update /kb/private.org");
    let shown = store(&[("@readwise_01xyz", "n7")], &[("n7", "/kb/private.org")]);
    assert_eq!(kind(&classify(&d1, &index, &shown)), "create");
    assert_eq!(store_reference("@readwise_01xyz"), "readwise_01xyz");
    assert_eq!(store_reference("//ex.com/a"), "//ex.com/a");
    assert_eq!(store_reference("@@x"), "@x");
    assert_eq!(store_reference(""), "");
}

#[test]
fn planning_twice_decides_the_same() {
    let documents = vec![
        document("d1", "Foo", "https://ex.com/a", "//ex.com/a"),
        document("d2", "Bar", "https://ex.com/b", "//ex.com/b"),
        document("d3", "Baz", "https://ex.com/c", "//ex.com/c"),
    ];
    let fetched = vec![highlight("h1", "d1", "one"), highlight("h2", "d2", "two")];
    let index = map_parents_to_highlights(documents.clone(), fetched);
    let known = store(&[("//ex.com/a", "n1")], &[("n1", "/kb/x.org")]);
    let first: Vec<String> = plan(&documents, &index, &known).iter().map(kind).collect();
    let second: Vec<String> = plan(&documents, &index, &known).iter().map(kind).collect();
    assert_eq!(first, vec!["update /kb/x.org", "create", "skip"]);
    assert_eq!(first, second);
}

#[test]
fn a_created_entry_is_updated_by_the_next_run() {
    let d1 = document("d1", "Foo", "https://ex.com/a", "//ex.com/a");
    let index = map_parents_to_highlights(vec![d1.clone()], vec![highlight("h1", "d1", "quoted")]);
    let mut known = ExistingStore::new();
    assert_eq!(kind(&classify(&d1, &index, &known)), "create");
    known.refs.insert(store_reference(&d1.roam_ref), "n1".to_string());
    known.nodes.insert(
        "n1".to_string(),
        ExistingNode { file_path: "/kb/20240305-foo.org".to_string(), title: "Foo".to_string() },
    );
    assert_eq!(kind(&classify(&d1, &index, &known)), "update /kb/20240305-foo.org");
}

#[test]
fn scan_maps_references_to_files() {
    let output = "/kb/a.org::ROAM_REFS: //ex.com/a\n\
                  /kb/b.org::ROAM_REFS:   @readwise_01xyz  \n\
                  no marker here\n\
                  /kb/c.org::ROAM_REFS://ex.com/c::ROAM_REFS: x\r\n\
                  /kb/d.org::ROAM_REFS: //ex.com/a\n";
    let refs = get_existing_refs(output);
    assert_eq!(refs.len(), 3);
    assert_eq!(refs.get("//ex.com/a").map(|f| f.as_str()), Some("/kb/d.org"));
    assert_eq!(refs.get("readwise_01xyz").map(|f| f.as_str()), Some("/kb/b.org"));
    assert_eq!(refs.get("//ex.com/c::ROAM_REFS: x").map(|f| f.as_str()), Some("/kb/c.org"));
    assert!(refs.get("@readwise_01xyz").is_none());
    assert_eq!(get_existing_refs("").len(), 0);
}

#[test]
fn a_scanned_store_resolves_to_the_scanned_file() {
    let refs = get_existing_refs("/kb/a.org::ROAM_REFS: //ex.com/a\n/kb/b.org::ROAM_REFS: @readwise_1\n");
    let known = ExistingStore::from_scan(refs);
    assert_eq!(known.resolve("//ex.com/a").as_deref(), Some("/kb/a.org"));
    assert_eq!(known.resolve("readwise_1").as_deref(), Some("/kb/b.org"));
    assert_eq!(known.resolve("//ex.com/b"), None);
    let d1 = document("d1", "Foo", "https://ex.com/a?utm=1", "//ex.com/a");
    let index = map_parents_to_highlights(vec![d1.clone()], vec![highlight("h1", "d1", "quoted")]);
    assert_eq!(kind(&classify(&d1, &index, &known)), "update /kb/a.org");
}

#[test]
fn text_map_replaces_in_place() {
    let mut map: TextMap<u32> = TextMap::new();
    map.insert("a".to_string(), 1);
    map.insert("b".to_string(), 2);
    map.insert("a".to_string(), 3);
    assert_eq!(map.len(), 2);
    assert_eq!(map.get("a"), Some(&3));
    assert_eq!(map.get("b"), Some(&2));
    assert_eq!(map.get("c"), None);
    assert_eq!(map.key_at(0), "a");
    assert_eq!(*map.value_at(0), 3);
    assert_eq!(map.position("b"), Some(1));
    assert_eq!(map.position("z"), None);
}

#[test]
fn file_name_of_a_title_of_its_own() {
    assert_eq!(new_entry_name("20240305102030", "Foo", None), "20240305102030-foo.org");
    assert_eq!(
        new_entry_name("20240305102030", "My Test String!!!1!1", None),
        "20240305102030-my-test-string-1-1.org"
    );
    assert_eq!(new_entry_name("", "", None), "-.org");
}

#[test]
fn file_name_with_the_hash_of_the_address() {
    assert_eq!(new_entry_name("20240305102030", "Foo", Some("abc")), "20240305102030-foo-90015098.org");
    assert_eq!(new_entry_name("20240305102030", "Foo", Some("")), "20240305102030-foo-d41d8cd9.org");
    let url = "https://ex.com/caf\u{e9}?x=1";
    assert_eq!(
        new_entry_name("1", "Foo", Some(url)),
        format!("1-foo-{}.org", md5_hex8(url))
    );
}

#[test]
fn slug_in_a_file_name_has_at_most_a_hundred_characters() {
    let long = "ab ".repeat(60);
    let name = new_entry_name("t", &long, None);
    let expected: String = "ab-".repeat(60).chars().take(100).collect();
    assert_eq!(name, format!("t-{}.org", expected));
    assert_eq!(name.len(), 2 + 100 + 4);
    let exact = "x".repeat(100);
    assert_eq!(new_entry_name("t", &exact, None), format!("t-{}.org", exact));
    let over = "x".repeat(101);
    assert_eq!(new_entry_name("t", &over, Some("abc")), format!("t-{}-90015098.org", exact));
}

#[test]
fn shared_title_gets_a_hash_and_a_title_of_its_own_gets_none() {
    let first = document("1", "Foo", "https://ex.com/one", "//ex.com/one");
    let second = document("2", "Foo", "https://ex.com/two", "//ex.com/two");
    let alone = document("3", "Bar", "https://ex.com/three", "//ex.com/three");
    let documents = vec![first.clone(), second.clone(), alone.clone()];
    let duplicates = get_duplicate_titles(&documents);
    let a = entry_name_at(&first, &duplicates, "20240305102030");
    let b = entry_name_at(&second, &duplicates, "20240305102030");
    let c = entry_name_at(&alone, &duplicates, "20240305102030");
    assert_eq!(a, format!("20240305102030-foo-{}.org", md5_hex8("https://ex.com/one")));
    assert_eq!(b, format!("20240305102030-foo-{}.org", md5_hex8("https://ex.com/two")));
    assert_ne!(a, b);
    assert_eq!(c, "20240305102030-bar.org");
}

#[test]
fn file_name_made_now_starts_with_fourteen_digits() {
    let name = get_new_entry_filename("Foo", Some("abc"));
    assert_eq!(name.len(), 14 + "-foo-90015098.org".len());
    assert!(name.ends_with("-foo-90015098.org"));
    assert!(name[..14].chars().all(|c| c.is_ascii_digit()));
    let plain = get_new_entry_filename("Foo", None);
    assert!(plain.ends_with("-foo.org"));
    assert_eq!(plain.len(), 14 + "-foo.org".len());
    let alone = document("3", "Bar", "https://ex.com/three", "//ex.com/three");
    assert!(entry_name(&alone, &Vec::new()).ends_with("-bar.org"));
    assert!(entry_name(&alone, &vec!["Bar".to_string()])
        .ends_with(&format!("-bar-{}.org", md5_hex8("https://ex.com/three"))));
}

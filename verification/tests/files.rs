use org_readwise::checkpoint::get_updated_after;
use org_readwise::planner::{HighlightWithNote};
use org_readwise::readwise_api::Document;
use org_readwise::render::{
    document_context, generate_file_content, generate_highlight_content, highlights_context,
    named_row, named_rows, Rendering,
};
use org_readwise::time::{is_utc_datetime, Timestamp};
use org_readwise::writer::updated_content;

fn document(has_url: bool, location: &str, published: Option<i64>) -> Document {
    Document {
        id: "d1".to_string(),
        has_url,
        roam_ref: "//ex.com/a".to_string(),
        source_url: "https://ex.com/a".to_string(),
        readwise_url: "https://read.readwise.io/read/d1".to_string(),
        title: "A Title".to_string(),
        location: location.to_string(),
        author: "An Author".to_string(),
        saved_at: Timestamp::from_timestamp(1709634030).unwrap(),
        published_date: published.map(|s| Timestamp::from_timestamp(s).unwrap()),
    }
}

fn entry(id: &str, content: &str, note: Option<(&str, &str)>) -> HighlightWithNote {
    HighlightWithNote {
        id: id.to_string(),
        content: content.to_string(),
        note: note.map(|n| n.0.to_string()),
        note_saved_at: note.map(|n| n.1.to_string()),
    }
}

fn engine(templates: &[(&str, &str)]) -> tera::Tera {
    let mut engine = tera::Tera::default();
    for (name, body) in templates {
        engine.add_raw_template(name, body).unwrap();
    }
    engine
}

fn render(engine: &tera::Tera, rendering: Rendering) -> Result<String, tera::Error> {
    match rendering {
        Rendering::Empty => Ok(String::new()),
        Rendering::Template { template, context } => engine.render(&template, &context),
    }
}

fn text_of(context: &tera::Context, key: &str) -> Option<String> {
    context.get(key).and_then(|v| v.as_str()).map(|s| s.to_string())
}

#[test]
fn update_replaces_what_follows_the_heading() {
    let content = "#+title: Foo\n- read status: TODO\nmy own words\n* readwise:highlights\nold one\nold two\n";
    let text = updated_content(content, "archive", "* readwise:highlights\nnew one\n");
    assert_eq!(
        text,
        "#+title: Foo\n- read status: DONE\nmy own words\n* readwise:highlights\nnew one\n"
    );
}

#[test]
fn update_without_a_heading_keeps_every_line() {
    let text = updated_content("one\ntwo", "new", "BLOCK");
    assert_eq!(text, "one\ntwo\nBLOCK");
    assert_eq!(updated_content("one\ntwo\n", "new", "BLOCK"), "one\ntwo\nBLOCK");
    assert_eq!(updated_content("", "new", "BLOCK"), "\nBLOCK");
    assert_eq!(updated_content("* readwise:highlights\nold", "new", "BLOCK"), "\nBLOCK");
}

#[test]
fn update_rewrites_the_first_status_line_only() {
    let content = "  - read status: whatever  \n- read status: TODO\n  * readwise:highlights  \n- read status: TODO\n";
    assert_eq!(
        updated_content(content, "later", "B"),
        "- read status: TODO\n- read status: TODO\nB"
    );
    assert_eq!(
        updated_content(content, "archive", "B"),
        "- read status: DONE\n- read status: TODO\nB"
    );
}

#[test]
fn update_leaves_a_status_line_behind_the_heading_alone() {
    let content = "intro\n* readwise:highlights\n- read status: TODO\n";
    assert_eq!(updated_content(content, "archive", "B"), "intro\nB");
}

#[test]
fn update_knows_the_heading_only_as_a_whole_line() {
    let content = "a\n** readwise:highlights\n* readwise:highlights and more\nb\n";
    assert_eq!(
        updated_content(content, "new", "B"),
        "a\n** readwise:highlights\n* readwise:highlights and more\nb\nB"
    );
}

#[test]
fn update_ends_kept_lines_with_a_line_feed() {
    let content = "a\r\nb\r\n\r\n* readwise:highlights\r\nold\r\n";
    assert_eq!(updated_content(content, "new", "B\n"), "a\nb\n\nB\n");
}

#[test]
fn update_is_what_the_line_by_line_edit_gives() {
    for content in [
        "",
        "\n",
        "x",
        "a\n- read status: DONE\n\n* readwise:highlights\nz",
        "- read status:TODO\n\t* readwise:highlights",
        "-read status: TODO\n* readwise:highlights\n",
        "a\rb\r\n \u{a0}* readwise:highlights\u{3000}\nrest",
    ] {
        for location in ["archive", "new"] {
            let lines: Vec<&str> = content.lines().collect();
            let at = lines
                .iter()
                .position(|line| line.trim() == "* readwise:highlights")
                .unwrap_or(lines.len());
            let mut kept = lines[..at].to_vec();
            let status = format!(
                "- read status: {}",
                if location == "archive" { "DONE" } else { "TODO" }
            );
            if let Some(pos) = kept.iter().position(|line| line.trim().starts_with("- read status:")) {
                kept[pos] = status.as_str();
            }
            let mut expected = kept.join("\n");
            expected.push('\n');
            expected.push_str("BLOCK");
            assert_eq!(updated_content(content, location, "BLOCK"), expected, "{:?}", content);
        }
    }
}

#[test]
fn context_of_a_new_entry() {
    let d = document(true, "archive", Some(1064880000));
    let context = document_context(&d, "the highlights", "0000-1111");
    assert_eq!(text_of(&context, "uuid").as_deref(), Some("0000-1111"));
    assert_eq!(text_of(&context, "roam_ref").as_deref(), Some("//ex.com/a"));
    assert_eq!(text_of(&context, "full_url").as_deref(), Some("https://ex.com/a"));
    assert_eq!(text_of(&context, "readwise_url").as_deref(), Some("https://read.readwise.io/read/d1"));
    assert_eq!(text_of(&context, "title").as_deref(), Some("A Title"));
    assert_eq!(text_of(&context, "saved_at").as_deref(), Some("2024-03-05 Tue"));
    assert_eq!(text_of(&context, "published_date").as_deref(), Some("2003-09-30"));
    assert_eq!(text_of(&context, "read_status").as_deref(), Some("DONE"));
    assert_eq!(text_of(&context, "highlight_content").as_deref(), Some("the highlights"));
    assert!(context.get("highlights").is_none());
    assert!(context.get("author").is_none());
}

#[test]
fn context_leaves_out_what_the_document_has_not() {
    let d = document(false, "feed", None);
    let context = document_context(&d, "", "u");
    assert!(context.get("full_url").is_none());
    assert!(context.get("published_date").is_none());
    assert_eq!(text_of(&context, "read_status").as_deref(), Some("TODO"));
    assert_eq!(text_of(&context, "highlight_content").as_deref(), Some(""));
}

#[test]
fn context_of_the_highlights() {
    let context = highlights_context(&vec![
        entry("h1", "first", None),
        entry("h2", "second", Some(("a thought", "2024-03-06"))),
    ]);
    let list = context.get("highlights").unwrap().as_array().unwrap();
    assert_eq!(list.len(), 2);
    assert_eq!(list[0].get("id").and_then(|v| v.as_str()), Some("h1"));
    assert_eq!(list[0].get("content").and_then(|v| v.as_str()), Some("first"));
    assert!(list[0].get("note").unwrap().is_null());
    assert!(list[0].get("note_saved_at").unwrap().is_null());
    assert_eq!(list[1].get("id").and_then(|v| v.as_str()), Some("h2"));
    assert_eq!(list[1].get("note").and_then(|v| v.as_str()), Some("a thought"));
    assert_eq!(list[1].get("note_saved_at").and_then(|v| v.as_str()), Some("2024-03-06"));
    assert_eq!(list[1].as_object().unwrap().len(), 4);
}

#[test]
fn rows_name_the_four_values_of_a_highlight() {
    let row = named_row(&entry("h2", "second", Some(("a thought", "2024-03-06"))));
    assert_eq!(
        row,
        vec![
            ("id".to_string(), Some("h2".to_string())),
            ("content".to_string(), Some("second".to_string())),
            ("note".to_string(), Some("a thought".to_string())),
            ("note_saved_at".to_string(), Some("2024-03-06".to_string())),
        ]
    );
    let rows = named_rows(&vec![entry("h1", "first", None), entry("h2", "second", None)]);
    assert_eq!(rows.len(), 2);
    assert_eq!(rows[0][0], ("id".to_string(), Some("h1".to_string())));
    assert_eq!(rows[0][2], ("note".to_string(), None));
    assert_eq!(rows[0][3], ("note_saved_at".to_string(), None));
    assert_eq!(rows[1][1], ("content".to_string(), Some("second".to_string())));
    assert!(named_rows(&Vec::new()).is_empty());
}

#[test]
fn no_highlights_ask_for_no_template() {
    assert!(matches!(generate_highlight_content(&Vec::new()), Rendering::Empty));
    let none = engine(&[]);
    assert_eq!(render(&none, generate_highlight_content(&Vec::new())).unwrap(), "");
}

#[test]
fn highlights_ask_for_their_template() {
    let block = vec![entry("h1", "first", None), entry("h2", "second", Some(("a thought", "2024-03-06")))];
    match generate_highlight_content(&block) {
        Rendering::Template { template, context } => {
            assert_eq!(template, "highlights.tera");
            assert_eq!(context, highlights_context(&block));
            let list = context.get("highlights").unwrap().as_array().unwrap();
            assert_eq!(list.len(), 2);
            assert_eq!(list[1].get("note").and_then(|v| v.as_str()), Some("a thought"));
        }
        other => panic!("{:?}", other),
    }
}

#[test]
fn highlights_are_written_by_the_template() {
    let template = "{% for h in highlights %}- {{ h.content }}{% if h.note %} [{{ h.note }} @ {{ h.note_saved_at }}]{% endif %}\n{% endfor %}";
    let engine = engine(&[("highlights.tera", template)]);
    let block = vec![entry("h1", "first", None), entry("h2", "second", Some(("a thought", "2024-03-06")))];
    assert_eq!(
        render(&engine, generate_highlight_content(&block)).unwrap(),
        "- first\n- second [a thought @ 2024-03-06]\n"
    );
}

#[test]
fn a_missing_template_gives_an_error() {
    let block = vec![entry("h1", "first", None)];
    let missing = engine(&[]);
    let error = render(&missing, generate_highlight_content(&block)).unwrap_err();
    assert!(matches!(error.kind, tera::ErrorKind::TemplateNotFound(_)));
    assert!(error.to_string().contains("highlights.tera"), "{}", error);
    let other = engine(&[("highlights.tera", "x"), ("document.tera", "y")]);
    let error = render(&other, generate_file_content(&document(true, "new", None), "")).unwrap_err();
    assert!(error.to_string().contains("document.org.tera"), "{}", error);
}

#[test]
fn a_new_entry_asks_for_its_template() {
    let d = document(true, "archive", Some(1064880000));
    match generate_file_content(&d, "the highlights") {
        Rendering::Template { template, context } => {
            assert_eq!(template, "document.org.tera");
            let uuid = text_of(&context, "uuid").unwrap();
            assert_eq!(uuid.len(), 36);
            assert_eq!(context, document_context(&d, "the highlights", &uuid));
            assert_eq!(text_of(&context, "read_status").as_deref(), Some("DONE"));
        }
        other => panic!("{:?}", other),
    }
}

#[test]
fn a_new_entry_is_written_by_the_template() {
    let template = ":ID: {{ uuid | length }}\n:ROAM_REFS: {{ roam_ref }}\n#+title: {{ title }}\n{% if full_url %}{{ full_url }}{% endif %}\n- read status: {{ read_status }}\n- saved: {{ saved_at }}\n{{ highlight_content }}";
    let engine = engine(&[("document.org.tera", template)]);
    let text = render(
        &engine,
        generate_file_content(&document(true, "archive", None), "* readwise:highlights\n"),
    )
    .unwrap();
    assert_eq!(
        text,
        ":ID: 36\n:ROAM_REFS: //ex.com/a\n#+title: A Title\nhttps://ex.com/a\n- read status: DONE\n- saved: 2024-03-05 Tue\n* readwise:highlights\n"
    );
    let text = render(&engine, generate_file_content(&document(false, "new", None), "")).unwrap();
    assert_eq!(
        text,
        ":ID: 36\n:ROAM_REFS: //ex.com/a\n#+title: A Title\n\n- read status: TODO\n- saved: 2024-03-05 Tue\n"
    );
}

#[test]
fn a_corrupt_watermark_is_no_watermark() {
    assert_eq!(get_updated_after(Some("not-a-date")), None);
    assert_eq!(get_updated_after(Some("")), None);
    assert_eq!(get_updated_after(Some("2024-03-05")), None);
    assert_eq!(get_updated_after(None), None);
}

#[test]
fn a_watermark_is_the_time_without_the_space_around_it() {
    assert_eq!(
        get_updated_after(Some(" 2024-03-05T10:20:30.123456+00:00\n")).as_deref(),
        Some("2024-03-05T10:20:30.123456+00:00")
    );
    assert_eq!(
        get_updated_after(Some("2024-03-05T10:20:30Z")).as_deref(),
        Some("2024-03-05T10:20:30Z")
    );
    assert_eq!(
        get_updated_after(Some("2012-12-12 12:12:12+0000")).as_deref(),
        Some("2012-12-12 12:12:12+0000")
    );
}

#[test]
fn times_are_what_chrono_reads_as_times() {
    assert!(is_utc_datetime("2012-12-12T12:12:12Z"));
    assert!(is_utc_datetime("2012-12-12 12:12:12Z"));
    assert!(!is_utc_datetime("2012-12-12"));
    assert!(!is_utc_datetime("not-a-date"));
}

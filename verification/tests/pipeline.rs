//! End-to-end tests of the template pipeline: splitting, rendering, header
//! parsing and the write plans.

use rustgen::context::VarContext;
use rustgen::process_template;
use rustgen::rustgen_error::ErrorKind;
use rustgen::template::writer::WritePlan;
use rustgen::template::{ExtendLocation, PreProcessor, WriteAction, Writer};

const NOW: u64 = 0;

fn ctx_of(pairs: &[(&str, &str)]) -> VarContext {
    let mut ctx = VarContext::new();
    for (k, v) in pairs {
        ctx.insert(k, v);
    }
    ctx
}

#[test]
fn split_returns_header_and_trimmed_body() {
    let p = PreProcessor::new(String::from("prefix---\npath: a.txt\n---\n  body text \n"))
        .unwrap();
    let (header, body) = p.extract_parts().unwrap();
    assert_eq!(header, "\npath: a.txt\n");
    assert_eq!(body, "body text");
}

#[test]
fn split_round_trip_reassembles_template() {
    let raw = "x---H---  B  ";
    let p = PreProcessor::new(String::from(raw)).unwrap();
    let (header, body) = p.extract_parts().unwrap();
    // The original text is prefix + boundary + header + boundary + raw tail,
    // and the body is the raw tail trimmed.
    let reassembled = format!("x---{}---  B  ", header);
    assert_eq!(reassembled, raw);
    assert_eq!(body, "B");
}

#[test]
fn split_without_boundary_is_a_format_error() {
    let p = PreProcessor::new(String::from("no boundary here")).unwrap();
    let e = p.extract_parts().unwrap_err();
    assert_eq!(e.kind(), ErrorKind::Format);
}

#[test]
fn split_with_one_boundary_is_a_format_error() {
    let p = PreProcessor::new(String::from("---only one")).unwrap();
    let e = p.extract_parts().unwrap_err();
    assert_eq!(e.kind(), ErrorKind::Format);
}

#[test]
fn create_file_plan_carries_body_verbatim_and_parent_dirs() {
    let raw = "---\npath: a/b/c.txt\n---\nthe body";
    let ctx = ctx_of(&[]);
    let writer = process_template(String::from(raw), &ctx, NOW).unwrap();
    match writer.run_action(None).unwrap() {
        WritePlan::Create { dir, path, content } => {
            assert_eq!(dir, "a/b");
            assert_eq!(path, "a/b/c.txt");
            assert_eq!(content, "the body");
        },
        _ => panic!("expected a create plan"),
    }
}

#[test]
fn create_file_without_separator_has_empty_dir() {
    let raw = "---\npath: plain.txt\naction: create-file\n---\nbody";
    let ctx = ctx_of(&[]);
    let writer = process_template(String::from(raw), &ctx, NOW).unwrap();
    match writer.run_action(None).unwrap() {
        WritePlan::Create { dir, path, .. } => {
            assert_eq!(dir, "");
            assert_eq!(path, "plain.txt");
        },
        _ => panic!("expected a create plan"),
    }
}

#[test]
fn append_after_inserts_body_after_marker() {
    let raw = "---\npath: f.txt\naction:\n  append:\n    after: \"MARK\"\n---\ninserted";
    let ctx = ctx_of(&[]);
    let writer = process_template(String::from(raw), &ctx, NOW).unwrap();
    match writer.run_action(Some("line1\nMARK\nline3")).unwrap() {
        WritePlan::Overwrite { path, content } => {
            assert_eq!(path, "f.txt");
            assert_eq!(content, "line1\nMARK\ninserted\nline3");
        },
        _ => panic!("expected an overwrite plan"),
    }
}

#[test]
fn append_before_inserts_body_before_marker() {
    let raw = "---\npath: f.txt\naction:\n  append:\n    before: \"MARK\"\n---\ninserted";
    let ctx = ctx_of(&[]);
    let writer = process_template(String::from(raw), &ctx, NOW).unwrap();
    match writer.run_action(Some("line1\nMARK\nline3")).unwrap() {
        WritePlan::Overwrite { content, .. } => {
            assert_eq!(content, "line1\ninserted\nMARK\nline3");
        },
        _ => panic!("expected an overwrite plan"),
    }
}

#[test]
fn append_replaces_every_marker_occurrence() {
    let header = rustgen::template::TemplateHeader {
        path: String::from("f.txt"),
        action: WriteAction::Append(ExtendLocation::After(String::from("M"))),
    };
    let writer = Writer::new(header, String::from("x"));
    match writer.run_action(Some("M a M")).unwrap() {
        WritePlan::Overwrite { content, .. } => {
            assert_eq!(content, "M\nx a M\nx");
        },
        _ => panic!("expected an overwrite plan"),
    }
}

#[test]
fn append_with_absent_marker_keeps_content_unchanged() {
    let header = rustgen::template::TemplateHeader {
        path: String::from("f.txt"),
        action: WriteAction::Append(ExtendLocation::Before(String::from("NOPE"))),
    };
    let writer = Writer::new(header, String::from("x"));
    match writer.run_action(Some("line1\nline2")).unwrap() {
        WritePlan::Overwrite { content, .. } => {
            assert_eq!(content, "line1\nline2");
        },
        _ => panic!("expected an overwrite plan"),
    }
}

#[test]
fn append_begin_and_end_of_file() {
    let header = rustgen::template::TemplateHeader {
        path: String::from("f.txt"),
        action: WriteAction::Append(ExtendLocation::BeginOfFile),
    };
    let writer = Writer::new(header, String::from("top"));
    match writer.run_action(Some("old")).unwrap() {
        WritePlan::Overwrite { content, .. } => assert_eq!(content, "top\nold"),
        _ => panic!("expected an overwrite plan"),
    }
    let header = rustgen::template::TemplateHeader {
        path: String::from("f.txt"),
        action: WriteAction::Append(ExtendLocation::EndOfFile),
    };
    let writer = Writer::new(header, String::from("bottom"));
    match writer.run_action(Some("old")).unwrap() {
        WritePlan::Overwrite { content, .. } => assert_eq!(content, "oldbottom\n"),
        _ => panic!("expected an overwrite plan"),
    }
}

#[test]
fn append_to_missing_file_is_an_io_error_without_mutation() {
    let raw = "---\npath: f.txt\naction:\n  append:\n    after: \"MARK\"\n---\nbody";
    let ctx = ctx_of(&[]);
    let writer = process_template(String::from(raw), &ctx, NOW).unwrap();
    let e = writer.run_action(None).unwrap_err();
    assert_eq!(e.kind(), ErrorKind::Io);
}

#[test]
fn header_missing_path_is_a_schema_error_without_mutation() {
    let raw = "---\naction: create-file\n---\nbody";
    let ctx = ctx_of(&[]);
    let e = process_template(String::from(raw), &ctx, NOW).unwrap_err();
    assert_eq!(e.kind(), ErrorKind::Schema);
}

#[test]
fn header_action_defaults_to_create_file() {
    let raw = "---\npath: out.txt\n---\nbody";
    let ctx = ctx_of(&[]);
    let writer = process_template(String::from(raw), &ctx, NOW).unwrap();
    assert!(matches!(writer.header.action, WriteAction::CreateFile));
}

#[test]
fn header_fields_render_before_parsing() {
    let raw = "---\npath: src/{{name}}.txt\n---\nhello {{name}}";
    let ctx = ctx_of(&[("name", "widget")]);
    let writer = process_template(String::from(raw), &ctx, NOW).unwrap();
    assert_eq!(writer.header.path, "src/widget.txt");
    assert_eq!(writer.rendered_template, "hello widget");
}

#[test]
fn header_with_begin_of_file_location() {
    let raw = "---\npath: f.txt\naction:\n  append: begin-of-file\n---\nbody";
    let ctx = ctx_of(&[]);
    let writer = process_template(String::from(raw), &ctx, NOW).unwrap();
    assert!(matches!(
        writer.header.action,
        WriteAction::Append(ExtendLocation::BeginOfFile)
    ));
}

#[test]
fn full_template_with_helpers_in_header_and_body() {
    let raw = "---\npath: src/{{snake_case name}}.rs\naction: create-file\n---\npub struct {{pascal_case name}};";
    let ctx = ctx_of(&[("name", "my widget")]);
    let writer = process_template(String::from(raw), &ctx, 0).unwrap();
    assert_eq!(writer.header.path, "src/my_widget.rs");
    assert_eq!(writer.rendered_template, "pub struct MyWidget;");
}

#[test]
fn template_with_empty_body() {
    let raw = "---\npath: f.txt\n---\n   \n";
    let ctx = ctx_of(&[]);
    let writer = process_template(String::from(raw), &ctx, 0).unwrap();
    assert_eq!(writer.rendered_template, "");
}

#[test]
fn empty_marker_is_a_schema_error() {
    let raw = "---\npath: f.txt\naction:\n  append:\n    after: \"\"\n---\nbody";
    let ctx = ctx_of(&[]);
    let e = process_template(String::from(raw), &ctx, 0).unwrap_err();
    assert_eq!(e.kind(), ErrorKind::Schema);
}

#[test]
fn body_trim_covers_unicode_whitespace() {
    let p = PreProcessor::new(String::from("---h---\u{a0} body \u{2003}")).unwrap();
    let (_, body) = p.extract_parts().unwrap();
    assert_eq!(body, "body");
}

#[test]
fn unknown_header_keys_are_ignored() {
    let raw = "---\nnote: irrelevant\npath: f.txt\n---\nbody";
    let ctx = ctx_of(&[]);
    let writer = process_template(String::from(raw), &ctx, NOW).unwrap();
    assert_eq!(writer.header.path, "f.txt");
}

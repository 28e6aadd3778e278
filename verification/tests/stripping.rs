//! Tests for the comment-stripping engine and the per-file process.

use ed_strip::languages::{languages, Grammar, LanguageDefinition};
use ed_strip::strip_core::{is_comment, strip_comments};
use ed_strip::strip_process::{failed_jobs, output_path, process_source, report_result, combine_counts, strip_file, tally_results};
use ed_strip::syntax_tree::SyntaxNode;

fn leaf(kind: &str, start: usize, end: usize) -> SyntaxNode {
    SyntaxNode {
        kind: String::from(kind),
        start,
        end,
        children: vec![],
    }
}

fn line_comment_language() -> LanguageDefinition {
    LanguageDefinition {
        name: String::from("LineCommentOnly"),
        file_extensions: vec![],
        path_globs: vec![],
        comment_node_types: vec![String::from("line_comment")],
        grammar: Grammar::Rust,
    }
}

fn newline_count(bytes: &[u8]) -> usize {
    bytes.iter().filter(|b| **b == b'\n').count()
}

/// Two one-line comments strip to empty replacements; the surrounding
/// newlines are untouched and the newline count is preserved.
#[test]
fn strip_line_comments_scenario() {
    let source = b"// a\nfn f() {}\n// b\n".to_vec();
    let tree = SyntaxNode {
        kind: String::from("source_file"),
        start: 0,
        end: 20,
        children: vec![
            leaf("line_comment", 0, 4),
            leaf("function_item", 5, 14),
            leaf("line_comment", 15, 19),
        ],
    };
    let lang = line_comment_language();
    let out = strip_comments(&tree, &lang, &source);
    assert_eq!(out, b"\nfn f() {}\n\n".to_vec());
    assert_eq!(newline_count(&out), newline_count(&source));
}

/// A block comment spanning two lines is replaced by a single newline: its
/// span contains one internal newline, so that is all that remains of it.
/// Newlines outside the span are untouched, keeping the line count.
#[test]
fn strip_block_comment_scenario() {
    let lang = LanguageDefinition {
        name: String::from("BlockCommentOnly"),
        file_extensions: vec![],
        path_globs: vec![],
        comment_node_types: vec![String::from("comment")],
        grammar: Grammar::C,
    };

    // The comment is followed directly by code: only its own internal
    // newline survives it.
    let source = b"/* x\ny */code();\n".to_vec();
    let tree = SyntaxNode {
        kind: String::from("translation_unit"),
        start: 0,
        end: 17,
        children: vec![leaf("comment", 0, 9), leaf("expression_statement", 9, 16)],
    };
    let out = strip_comments(&tree, &lang, &source);
    assert_eq!(out, b"\ncode();\n".to_vec());
    assert_eq!(newline_count(&out), newline_count(&source));

    // With a line break between the comment and the code, that break stays
    // as well: the line count of the input is always preserved.
    let source = b"/* x\ny */\ncode();\n".to_vec();
    let tree = SyntaxNode {
        kind: String::from("translation_unit"),
        start: 0,
        end: 18,
        children: vec![leaf("comment", 0, 9), leaf("expression_statement", 10, 17)],
    };
    let out = strip_comments(&tree, &lang, &source);
    assert_eq!(out, b"\n\ncode();\n".to_vec());
    assert_eq!(newline_count(&out), newline_count(&source));
}

/// A tree with no comment nodes leaves the source unchanged, byte for byte.
#[test]
fn strip_without_comments_is_identity() {
    let source = b"fn f() {}\n".to_vec();
    let tree = SyntaxNode {
        kind: String::from("source_file"),
        start: 0,
        end: 10,
        children: vec![leaf("function_item", 0, 9)],
    };
    let lang = line_comment_language();
    let out = strip_comments(&tree, &lang, &source);
    assert_eq!(out, source);
}

/// The traversal does not descend into a comment node: structure nested in
/// a comment contributes no extra replacement.
#[test]
fn strip_does_not_descend_into_comments() {
    let source = b"// x\nok\n".to_vec();
    let comment = SyntaxNode {
        kind: String::from("line_comment"),
        start: 0,
        end: 4,
        children: vec![leaf("line_comment", 1, 3)],
    };
    let tree = SyntaxNode {
        kind: String::from("source_file"),
        start: 0,
        end: 8,
        children: vec![comment, leaf("identifier", 5, 7)],
    };
    let lang = line_comment_language();
    let out = strip_comments(&tree, &lang, &source);
    assert_eq!(out, b"\nok\n".to_vec());
}

/// End-to-end through the real Rust grammar.
#[test]
fn strip_file_rust_end_to_end() {
    let langs = languages();
    let rust = &langs[0];
    assert_eq!(rust.name, "Rust");
    let source = b"// a\nfn f() {}\n// b\n".to_vec();
    let out = strip_file(rust, &source).unwrap();
    assert_eq!(String::from_utf8(out).unwrap(), "\nfn f() {}\n\n");
}

/// End-to-end through the real C grammar: a block comment spanning two
/// lines becomes one newline.
#[test]
fn strip_file_c_end_to_end() {
    let langs = languages();
    let c = langs.iter().find(|l| l.name == "C").unwrap();
    let source = b"/* x\ny */code();\n".to_vec();
    let out = strip_file(c, &source).unwrap();
    assert_eq!(String::from_utf8(out).unwrap(), "\ncode();\n");
    let source = b"/* x\ny */\ncode();\n".to_vec();
    let out = strip_file(c, &source).unwrap();
    assert_eq!(String::from_utf8(out).unwrap(), "\n\ncode();\n");
}

/// End-to-end through the real Python grammar, with a trailing comment that
/// has no newline of its own and a mid-line comment whose removal shifts
/// later offsets.
#[test]
fn strip_file_python_end_to_end() {
    let langs = languages();
    let python = langs.iter().find(|l| l.name == "Python").unwrap();
    let source = b"# a\nx = 1 # b\ny = 2\n".to_vec();
    let out = strip_file(python, &source).unwrap();
    assert_eq!(String::from_utf8(out).unwrap(), "\nx = 1 \ny = 2\n");

    let source = b"x = 1\n# tail".to_vec();
    let out = strip_file(python, &source).unwrap();
    assert_eq!(String::from_utf8(out).unwrap(), "x = 1\n");
}

/// End-to-end through the real Javascript grammar.
#[test]
fn strip_file_javascript_end_to_end() {
    let langs = languages();
    let js = langs.iter().find(|l| l.name == "Javascript").unwrap();
    let source = b"// c\nlet x = 1;\n".to_vec();
    let out = strip_file(js, &source).unwrap();
    assert_eq!(String::from_utf8(out).unwrap(), "\nlet x = 1;\n");
}

/// An empty source stays empty.
#[test]
fn strip_file_empty_source() {
    let langs = languages();
    let rust = &langs[0];
    let out = strip_file(rust, &Vec::new()).unwrap();
    assert!(out.is_empty());
}

/// A language whose grammar this build does not link reports a language
/// error rather than stripping.
#[test]
fn strip_file_unlinked_grammar_errors() {
    let langs = languages();
    let swift = langs.iter().find(|l| l.name == "Swift").unwrap();
    let out = strip_file(swift, &b"// x\n".to_vec());
    assert!(matches!(
        out,
        Err(ed_strip::errors::StrippingError::LanguageError { .. })
    ));
}

/// A batch of five files where one hits a no-language-found error reports
/// `(total = 5, passed = 4)` and an exit status of 1.
#[test]
fn batch_counts_one_failure_among_five() {
    let langs = languages();
    let hints = vec![];
    let jobs: Vec<(&str, &[u8])> = vec![
        ("/tmp/a.py", b"# a\nx = 1\n"),
        ("/tmp/b.rs", b"// b\nfn f() {}\n"),
        ("/tmp/c.js", b"// c\nlet x = 1;\n"),
        ("/tmp/d.bin", b"???\n"),
        ("/tmp/e.c", b"/* e */\nint x;\n"),
    ];
    let results: Vec<_> = jobs
        .iter()
        .map(|(path, source)| process_source(path, &hints, &langs, &source.to_vec()))
        .collect();
    let (total, passed) = tally_results(&results);
    assert_eq!((total, passed), (5, 4));
    assert_eq!(failed_jobs(total, passed), 1);

    // The same tallies through the per-job counters and their associative,
    // commutative reduction.
    let folded = results
        .iter()
        .map(report_result)
        .fold((0, 0), combine_counts);
    assert_eq!(folded, (5, 4));
}

/// Resolution errors surface from the per-file process with the path.
#[test]
fn process_source_reports_resolution_errors() {
    let langs = languages();
    let r = process_source("/tmp/q.unknownext", &vec![], &langs, &b"x\n".to_vec());
    assert!(matches!(
        r,
        Err(ed_strip::errors::StrippingError::NoStripperFound { .. })
    ));
    let r = process_source("/tmp/q.h", &vec![], &langs, &b"x\n".to_vec());
    assert!(matches!(
        r,
        Err(ed_strip::errors::StrippingError::MultipleStrippersFound { .. })
    ));
}

/// A type hint drives the per-file process to the hinted grammar.
#[test]
fn process_source_honours_hints() {
    let langs = languages();
    let hints = vec![ed_strip::type_hints::TypeHint {
        pattern: String::from("**/*.data"),
        language: String::from("Python"),
    }];
    let out = process_source("/tmp/f.data", &hints, &langs, &b"# c\nx = 1\n".to_vec()).unwrap();
    assert_eq!(String::from_utf8(out).unwrap(), "\nx = 1\n");
}

/// A node kind is a comment exactly when the language lists it.
#[test]
fn is_comment_consults_the_language() {
    let langs = languages();
    let rust = &langs[0];
    assert!(is_comment(rust, &String::from("line_comment")));
    assert!(is_comment(rust, &String::from("block_comment")));
    assert!(!is_comment(rust, &String::from("function_item")));
}

fn contains_marker(bytes: &[u8]) -> bool {
    bytes.windows(6).any(|w| w == b"MARKER")
}

/// Every language whose grammar this build links strips a marker comment
/// out of a small sample, preserving the sample's line count.
#[test]
fn strip_file_across_grammars() {
    let samples: Vec<(&str, &[u8])> = vec![
        ("Rust", b"// MARKER\nfn f() {}\n"),
        ("Typescript", b"// MARKER\nlet x = 1;\n"),
        ("Typescript with React", b"// MARKER\nlet x = 1;\n"),
        ("Javascript", b"// MARKER\nlet x = 1;\n"),
        ("Go", b"// MARKER\npackage p\n"),
        ("Python", b"# MARKER\nx = 1\n"),
        ("C++", b"// MARKER\nint x;\n"),
        ("C", b"/* MARKER */\nint x;\n"),
        ("Bash", b"# MARKER\necho hi\n"),
        ("XML", b"<a><!-- MARKER --></a>\n"),
        ("Objective-C", b"// MARKER\nint x;\n"),
        ("Java", b"// MARKER\nclass A {}\n"),
        ("HTML", b"<!-- MARKER -->\n<p>hi</p>\n"),
        ("PHP", b"<?php\n// MARKER\n$x = 1;\n"),
        ("Lua", b"-- MARKER\nx = 1\n"),
        ("YAML", b"# MARKER\na: 1\n"),
        ("Ruby", b"# MARKER\nx = 1\n"),
        ("Protobuf", b"// MARKER\nsyntax = \"proto3\";\n"),
        ("C#", b"// MARKER\nclass A {}\n"),
        ("Powershell", b"# MARKER\n$x = 1\n"),
        ("CSS", b"/* MARKER */\nbody { }\n"),
        ("CMake", b"# MARKER\nproject(x)\n"),
        ("HCL", b"# MARKER\na = 1\n"),
        ("Make", b"# MARKER\nall:\n"),
        ("Ini", b"; MARKER\n[a]\nb = 1\n"),
    ];
    let langs = languages();
    for (name, source) in samples {
        let lang = langs.iter().find(|l| l.name == name).unwrap();
        let source = source.to_vec();
        let out = strip_file(lang, &source)
            .unwrap_or_else(|e| panic!("{}: {}", name, e.message()));
        assert!(
            !contains_marker(&out),
            "{}: comment text survived: {:?}",
            name,
            String::from_utf8_lossy(&out)
        );
        assert_eq!(
            newline_count(&out),
            newline_count(&source),
            "{}: line count changed",
            name
        );
    }
}

/// The destination of a stripped file preserves the relative path of the
/// input below the input directory, exactly, under the output directory.
#[test]
fn output_path_preserves_relative_paths() {
    assert_eq!(
        output_path("/a/b/c/d/e/f", "/a/b/c", "/g/h/i").as_deref(),
        Some("/g/h/i/d/e/f")
    );
    assert_eq!(
        output_path("/a/b/c/d", "/a/b/c/", "/g/").as_deref(),
        Some("/g/d")
    );
    // A path that does not lie under the input directory has no
    // destination; a shared name prefix is not enough.
    assert_eq!(output_path("/a/b/cd", "/a/b/c", "/g"), None);
    assert_eq!(output_path("/x/y", "/a", "/g"), None);
}

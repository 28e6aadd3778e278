//! Tests for language resolution: extensions, globs, and type hints.

use ed_strip::languages::languages;
use ed_strip::strip_process::identify_language;
use ed_strip::type_hints::{TypeHint, TypeHints};

/// GIVEN A path to a Python file
/// WHEN identify_language is called
/// THEN the language is identified
#[test]
fn identify_language_finds_python() {
    let langs = languages();
    let result = identify_language("/tmp/test.py", &vec![], &langs);
    assert!(matches!(result, Ok(l) if l.name == "Python"));
}

/// GIVEN A path to a Python file with unusual capitalisation
/// WHEN identify_language is called
/// THEN the language is identified
#[test]
fn identify_language_from_extension_is_case_insensitive() {
    let langs = languages();
    let result = identify_language("/tmp/test.PY", &vec![], &langs);
    assert!(matches!(result, Ok(l) if l.name == "Python"));
}

/// GIVEN A path to an file without an extension, but known language
/// WHEN identify_language is called
/// THEN the specified language is returned
#[test]
fn identify_language_can_detect_extensionless_files() {
    let langs = languages();
    let type_hints: TypeHints = vec![];

    let result = identify_language("/tmp/DockerFile", &type_hints, &langs);
    assert!(matches!(result, Ok(l) if l.name == "Dockerfile"));
}

/// GIVEN A path to an file without an extension but known language with unusual capitialisation
/// WHEN identify_language is called
/// THEN the specified language is returned
#[test]
fn identify_language_from_glob_is_case_insensitive() {
    let langs = languages();
    let type_hints: TypeHints = vec![];

    let result = identify_language("/tmp/DoCkErFiLe", &type_hints, &langs);
    assert!(matches!(result, Ok(l) if l.name == "Dockerfile"));
}

/// GIVEN A path to a C/C++/ObjC header
/// WHEN identify_language is called
/// THEN an error is returned as the language is ambiguous
#[test]
fn identify_language_ambiguity() {
    let langs = languages();
    let result = identify_language("/tmp/test.h", &vec![], &langs);
    assert!(matches!(result, Err(_)));
}

/// GIVEN A path to an unknown file type
/// WHEN identify_language is called
/// THEN an error is returned as the language is unknown
#[test]
fn identify_language_unknown() {
    let langs = languages();
    let result = identify_language("/tmp/test.bin", &vec![], &langs);
    assert!(matches!(result, Err(_)));
}

/// GIVEN A path to a known file type
/// AND a type hint forcing the language definition
/// WHEN identify_language is called
/// THEN the alternative language is returned
#[test]
fn identify_language_can_use_typehints_for_unknowns() {
    let langs = languages();
    let type_hints: TypeHints = vec![TypeHint {
        pattern: String::from("**/*.bin"),
        language: String::from("Javascript"),
    }];

    let result = identify_language("/tmp/test.bin", &type_hints, &langs);
    assert!(matches!(result, Ok(l) if l.name == "Javascript"));
}

/// GIVEN A path to an unknown file type
/// AND a type hint forcing the language definition
/// WHEN identify_language is called
/// THEN the specified language is returned
#[test]
fn identify_language_can_use_typehints_to_override_known() {
    let langs = languages();
    let type_hints: TypeHints = vec![TypeHint {
        pattern: String::from("**/*.c"),
        language: String::from("Javascript"),
    }];

    let result = identify_language("/tmp/test.c", &type_hints, &langs);
    assert!(matches!(result, Ok(l) if l.name == "Javascript"));
}

/// GIVEN A path to an file without an extension
/// AND a type hint forcing the language definition
/// WHEN identify_language is called
/// THEN the specified language is returned
#[test]
fn identify_language_can_use_typehints_to_overwrite_extensionless_files() {
    let langs = languages();
    let type_hints: TypeHints = vec![TypeHint {
        pattern: String::from("**/Dockerfile"),
        language: String::from("Javascript"),
    }];

    let result = identify_language("/tmp/Dockerfile", &type_hints, &langs);
    assert!(matches!(result, Ok(l) if l.name == "Javascript"));
}

/// Two hints match the same path with different languages: the hint that
/// appears later in the sequence wins.
#[test]
fn identify_language_last_hint_wins() {
    let langs = languages();
    let type_hints: TypeHints = vec![
        TypeHint {
            pattern: String::from("**/*.c"),
            language: String::from("Python"),
        },
        TypeHint {
            pattern: String::from("**/*.c"),
            language: String::from("Javascript"),
        },
    ];

    let result = identify_language("/tmp/test.c", &type_hints, &langs);
    assert!(matches!(result, Ok(l) if l.name == "Javascript"));
}

/// A hint whose language name is not registered is not fatal: detection
/// falls back to the extension.
#[test]
fn identify_language_tolerates_unknown_hint_names() {
    let langs = languages();
    let type_hints: TypeHints = vec![TypeHint {
        pattern: String::from("**/*.py"),
        language: String::from("NotALanguage"),
    }];

    let result = identify_language("/tmp/test.py", &type_hints, &langs);
    assert!(matches!(result, Ok(l) if l.name == "Python"));
}

/// The ambiguity error names exactly the candidate languages, in registry
/// order, and suggests a ready-to-paste disambiguating hint.
#[test]
fn identify_language_ambiguity_suggestion() {
    let langs = languages();
    let result = identify_language("/tmp/test.h", &vec![], &langs);
    match result {
        Err(ed_strip::errors::StrippingError::MultipleStrippersFound { path, suggestion }) => {
            assert_eq!(path, "/tmp/test.h");
            assert_eq!(
                suggestion,
                "{ \"pattern\": \"**/*.h\", \"language\": \"C++/C/Objective-C\" }"
            );
        }
        other => panic!("expected an ambiguity error, got {:?}", other),
    }
}

/// The unknown-extension error carries the path.
#[test]
fn identify_language_unknown_carries_path() {
    let langs = languages();
    let result = identify_language("/tmp/test.bin", &vec![], &langs);
    match result {
        Err(ed_strip::errors::StrippingError::NoStripperFound { path }) => {
            assert_eq!(path, "/tmp/test.bin");
        }
        other => panic!("expected a no-stripper error, got {:?}", other),
    }
}

/// Error values render to the messages the batch log shows.
#[test]
fn stripping_error_messages() {
    let e = ed_strip::errors::StrippingError::NoStripperFound {
        path: String::from("/tmp/x.bin"),
    };
    assert_eq!(e.message(), "no stripper found");
    let e = ed_strip::errors::StrippingError::MultipleStrippersFound {
        path: String::from("/tmp/a.h"),
        suggestion: String::from("S"),
    };
    assert_eq!(
        e.message(),
        "multiple strippers found for '/tmp/a.h'. Consider adding a type hint similar to S"
    );
    let e = ed_strip::errors::StrippingError::IOError {
        message: String::from("denied"),
    };
    assert_eq!(e.message(), "IO error: denied");
}

/// The registry holds all supported languages, under unique names.
#[test]
fn registry_names_are_unique() {
    let langs = languages();
    assert_eq!(langs.len(), 29);
    for (i, a) in langs.iter().enumerate() {
        for b in langs.iter().skip(i + 1) {
            assert_ne!(a.name, b.name);
        }
    }
}

/// Files identified by their full name rather than an extension resolve
/// through the registry's path globs.
#[test]
fn identify_language_by_path_globs() {
    let langs = languages();
    let result = identify_language("/src/CMakeLists.txt", &vec![], &langs);
    assert!(matches!(result, Ok(l) if l.name == "CMake"));

    let result = identify_language("/tmp/app.vcxproj.filters", &vec![], &langs);
    assert!(matches!(result, Ok(l) if l.name == "XML"));

    let result = identify_language("/tmp/APP.VCXPROJ.USER", &vec![], &langs);
    assert!(matches!(result, Ok(l) if l.name == "XML"));
}

/// The Make glob is the bare file name, so it matches only that exact path.
#[test]
fn identify_language_make_glob_is_literal() {
    let langs = languages();
    let result = identify_language("makefile", &vec![], &langs);
    assert!(matches!(result, Ok(l) if l.name == "Make"));

    let result = identify_language("/tmp/makefile", &vec![], &langs);
    assert!(matches!(
        result,
        Err(ed_strip::errors::StrippingError::NoStripperFound { .. })
    ));

    let result = identify_language("/tmp/build.mk", &vec![], &langs);
    assert!(matches!(result, Ok(l) if l.name == "Make"));
}

/// A file whose name begins with its only dot has no extension.
#[test]
fn identify_language_leading_dot_has_no_extension() {
    let langs = languages();
    let result = identify_language("/tmp/.py", &vec![], &langs);
    assert!(matches!(
        result,
        Err(ed_strip::errors::StrippingError::NoStripperFound { .. })
    ));
}

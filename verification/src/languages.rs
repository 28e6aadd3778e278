//! The language registry: a fixed catalog of language definitions, built
//! once at startup and never mutated.
//!
//! Extension and glob coverage may overlap across languages; ambiguity is
//! expected and is resolved, not prevented, by the resolver.

use vstd::prelude::*;

verus! {

/// The opaque capability used to obtain a parser for a language from the
/// external parsing library. The core never inspects it; it only hands it
/// to the library's configuration call.
#[derive(Clone, Copy, Debug, PartialEq, Eq, Structural)]
pub enum Grammar {
    Rust,
    Typescript,
    TypescriptReact,
    Javascript,
    Go,
    Python,
    Cpp,
    C,
    Bash,
    Xml,
    ObjectiveC,
    Java,
    Html,
    Php,
    Lua,
    Swift,
    Yaml,
    Ruby,
    Kotlin,
    Proto,
    Toml,
    CSharp,
    Powershell,
    Dockerfile,
    Css,
    Cmake,
    Hcl,
    Make,
    Ini,
}

/// Defines a supported language.
#[derive(Debug)]
pub struct LanguageDefinition {
    /// The name of the language; unique within the registry, and what type
    /// hints reference.
    pub name: String,
    /// The file extensions to strip using this stripper. All lower case,
    /// without the leading dot.
    pub file_extensions: Vec<String>,
    /// The path globs to strip using this stripper, matched
    /// case-insensitively against the full path. These are more expensive
    /// to evaluate, so prefer the file extensions.
    pub path_globs: Vec<String>,
    /// The syntax node kinds that the grammar uses to label comments.
    pub comment_node_types: Vec<String>,
    /// The grammar handle for the external parsing library.
    pub grammar: Grammar,
}

/// The views of a sequence of strings.
pub open spec fn views_of(s: Seq<String>) -> Seq<Seq<char>> {
    s.map_values(|x: String| x@)
}

/// The full content of one language definition.
pub open spec fn def_is(
    l: LanguageDefinition,
    name: Seq<char>,
    exts: Seq<Seq<char>>,
    globs: Seq<Seq<char>>,
    kinds: Seq<Seq<char>>,
    g: Grammar,
) -> bool {
    &&& l.name@ == name
    &&& views_of(l.file_extensions@) =~= exts
    &&& views_of(l.path_globs@) =~= globs
    &&& views_of(l.comment_node_types@) =~= kinds
    &&& l.grammar == g
}

/// Builds owned strings from literals.
fn strings_of(items: Vec<&str>) -> (r: Vec<String>)
    ensures
        views_of(r@) == items@.map_values(|s: &str| s@),
{
    let mut r: Vec<String> = Vec::new();
    let mut i: usize = 0;
    while i < items.len()
        invariant
            i <= items.len(),
            r@.len() == i,
            forall|j: int| 0 <= j < i ==> r@[j]@ == items@[j]@,
        decreases items.len() - i,
    {
        r.push(String::from_str(items[i]));
        i += 1;
    }
    proof {
        assert(views_of(r@) =~= items@.map_values(|s: &str| s@));
    }
    r
}

fn mk_def(
    name: &str,
    exts: Vec<&str>,
    globs: Vec<&str>,
    kinds: Vec<&str>,
    grammar: Grammar,
) -> (l: LanguageDefinition)
    ensures
        def_is(
            l,
            name@,
            exts@.map_values(|s: &str| s@),
            globs@.map_values(|s: &str| s@),
            kinds@.map_values(|s: &str| s@),
            grammar,
        ),
{
    LanguageDefinition {
        name: String::from_str(name),
        file_extensions: strings_of(exts),
        path_globs: strings_of(globs),
        comment_node_types: strings_of(kinds),
        grammar,
    }
}

/// All supported languages, in resolution order. The registry is immutable
/// for the run: build it once and share it.
#[verifier::rlimit(100)]
pub fn languages() -> (r: Vec<LanguageDefinition>)
    ensures
        r@.len() == 29,
        def_is(r@[0], "Rust"@, seq!["rs"@], seq![], seq!["line_comment"@, "block_comment"@, "doc_comment"@], Grammar::Rust),
        def_is(r@[1], "Typescript"@, seq!["ts"@, "mts"@], seq![], seq!["comment"@, "html_comment"@], Grammar::Typescript),
        def_is(r@[2], "Typescript with React"@, seq!["tsx"@], seq![], seq!["comment"@, "html_comment"@], Grammar::TypescriptReact),
        def_is(r@[3], "Javascript"@, seq!["js"@, "mjs"@, "cjs"@, "jsx"@], seq![], seq!["comment"@, "html_comment"@], Grammar::Javascript),
        def_is(r@[4], "Go"@, seq!["go"@], seq![], seq!["comment"@], Grammar::Go),
        def_is(r@[5], "Python"@, seq!["py"@], seq![], seq!["comment"@], Grammar::Python),
        def_is(r@[6], "C++"@, seq!["cpp"@, "cc"@, "cxx"@, "h"@, "hxx"@, "hpp"@], seq![], seq!["comment"@], Grammar::Cpp),
        def_is(r@[7], "C"@, seq!["c"@, "h"@], seq![], seq!["comment"@], Grammar::C),
        def_is(r@[8], "Bash"@, seq!["sh"@], seq![], seq!["comment"@], Grammar::Bash),
        def_is(r@[9], "XML"@, seq!["xml"@, "vcxproj"@], seq!["**/*.vcxproj.filters"@, "**/*.vcxproj.user"@], seq!["Comment"@], Grammar::Xml),
        def_is(r@[10], "Objective-C"@, seq!["m"@, "mm"@, "h"@], seq![], seq!["comment"@], Grammar::ObjectiveC),
        def_is(r@[11], "Java"@, seq!["java"@], seq![], seq!["block_comment"@, "line_comment"@], Grammar::Java),
        def_is(r@[12], "HTML"@, seq!["htm"@, "html"@], seq![], seq!["comment"@], Grammar::Html),
        def_is(r@[13], "PHP"@, seq!["php"@], seq![], seq!["comment"@], Grammar::Php),
        def_is(r@[14], "Lua"@, seq!["lua"@], seq![], seq!["comment"@], Grammar::Lua),
        def_is(r@[15], "Swift"@, seq!["swift"@], seq![], seq!["comment"@, "multiline_comment"@], Grammar::Swift),
        def_is(r@[16], "YAML"@, seq!["yaml"@, "yml"@], seq![], seq!["comment"@], Grammar::Yaml),
        def_is(r@[17], "Ruby"@, seq!["rb"@], seq![], seq!["comment"@], Grammar::Ruby),
        def_is(r@[18], "Kotlin"@, seq!["kt"@, "kts"@], seq![], seq!["line_comment"@, "multiline_comment"@], Grammar::Kotlin),
        def_is(r@[19], "Protobuf"@, seq!["pb"@, "proto"@], seq![], seq!["comment"@], Grammar::Proto),
        def_is(r@[20], "TOML"@, seq!["toml"@], seq![], seq!["comment"@], Grammar::Toml),
        def_is(r@[21], "C#"@, seq!["cs"@], seq![], seq!["comment"@], Grammar::CSharp),
        def_is(r@[22], "Powershell"@, seq!["ps1"@], seq![], seq!["comment"@], Grammar::Powershell),
        def_is(r@[23], "Dockerfile"@, seq!["dockerfile"@], seq!["**/DockerFile"@, "**/DockerFile.*"@], seq!["comment"@], Grammar::Dockerfile),
        def_is(r@[24], "CSS"@, seq!["css"@], seq![], seq!["comment"@], Grammar::Css),
        def_is(r@[25], "CMake"@, seq![], seq!["**/CMakeLists.txt"@], seq!["line_comment"@, "bracket_comment"@], Grammar::Cmake),
        def_is(r@[26], "HCL"@, seq!["tf"@], seq![], seq!["comment"@], Grammar::Hcl),
        def_is(r@[27], "Make"@, seq!["mk"@], seq!["makefile"@], seq!["comment"@], Grammar::Make),
        def_is(r@[28], "Ini"@, seq!["ini"@], seq![], seq!["comment"@], Grammar::Ini),
{
    let mut r: Vec<LanguageDefinition> = Vec::new();
    r.push(mk_def("Rust", vec!["rs"], Vec::new(), vec!["line_comment", "block_comment", "doc_comment"], Grammar::Rust));
    r.push(mk_def("Typescript", vec!["ts", "mts"], Vec::new(), vec!["comment", "html_comment"], Grammar::Typescript));
    r.push(mk_def("Typescript with React", vec!["tsx"], Vec::new(), vec!["comment", "html_comment"], Grammar::TypescriptReact));
    r.push(mk_def("Javascript", vec!["js", "mjs", "cjs", "jsx"], Vec::new(), vec!["comment", "html_comment"], Grammar::Javascript));
    r.push(mk_def("Go", vec!["go"], Vec::new(), vec!["comment"], Grammar::Go));
    r.push(mk_def("Python", vec!["py"], Vec::new(), vec!["comment"], Grammar::Python));
    r.push(mk_def("C++", vec!["cpp", "cc", "cxx", "h", "hxx", "hpp"], Vec::new(), vec!["comment"], Grammar::Cpp));
    r.push(mk_def("C", vec!["c", "h"], Vec::new(), vec!["comment"], Grammar::C));
    r.push(mk_def("Bash", vec!["sh"], Vec::new(), vec!["comment"], Grammar::Bash));
    r.push(mk_def("XML", vec!["xml", "vcxproj"], vec!["**/*.vcxproj.filters", "**/*.vcxproj.user"], vec!["Comment"], Grammar::Xml));
    r.push(mk_def("Objective-C", vec!["m", "mm", "h"], Vec::new(), vec!["comment"], Grammar::ObjectiveC));
    r.push(mk_def("Java", vec!["java"], Vec::new(), vec!["block_comment", "line_comment"], Grammar::Java));
    r.push(mk_def("HTML", vec!["htm", "html"], Vec::new(), vec!["comment"], Grammar::Html));
    r.push(mk_def("PHP", vec!["php"], Vec::new(), vec!["comment"], Grammar::Php));
    r.push(mk_def("Lua", vec!["lua"], Vec::new(), vec!["comment"], Grammar::Lua));
    r.push(mk_def("Swift", vec!["swift"], Vec::new(), vec!["comment", "multiline_comment"], Grammar::Swift));
    r.push(mk_def("YAML", vec!["yaml", "yml"], Vec::new(), vec!["comment"], Grammar::Yaml));
    r.push(mk_def("Ruby", vec!["rb"], Vec::new(), vec!["comment"], Grammar::Ruby));
    r.push(mk_def("Kotlin", vec!["kt", "kts"], Vec::new(), vec!["line_comment", "multiline_comment"], Grammar::Kotlin));
    r.push(mk_def("Protobuf", vec!["pb", "proto"], Vec::new(), vec!["comment"], Grammar::Proto));
    r.push(mk_def("TOML", vec!["toml"], Vec::new(), vec!["comment"], Grammar::Toml));
    r.push(mk_def("C#", vec!["cs"], Vec::new(), vec!["comment"], Grammar::CSharp));
    r.push(mk_def("Powershell", vec!["ps1"], Vec::new(), vec!["comment"], Grammar::Powershell));
    r.push(mk_def("Dockerfile", vec!["dockerfile"], vec!["**/DockerFile", "**/DockerFile.*"], vec!["comment"], Grammar::Dockerfile));
    r.push(mk_def("CSS", vec!["css"], Vec::new(), vec!["comment"], Grammar::Css));
    r.push(mk_def("CMake", Vec::new(), vec!["**/CMakeLists.txt"], vec!["line_comment", "bracket_comment"], Grammar::Cmake));
    r.push(mk_def("HCL", vec!["tf"], Vec::new(), vec!["comment"], Grammar::Hcl));
    r.push(mk_def("Make", vec!["mk"], vec!["makefile"], vec!["comment"], Grammar::Make));
    r.push(mk_def("Ini", vec!["ini"], Vec::new(), vec!["comment"], Grammar::Ini));
    r
}

/// Whether the grammar for a handle is linked into this build. A language
/// whose grammar is not linked still resolves; stripping it reports a
/// language error.
pub open spec fn grammar_available(g: Grammar) -> bool {
    match g {
        Grammar::Swift => false,
        Grammar::Kotlin => false,
        Grammar::Toml => false,
        Grammar::Dockerfile => false,
        _ => true,
    }
}

#[verifier::external_type_specification]
#[verifier::external_body]
pub struct ExLanguage(tree_sitter::Language);

/// Relies on tree_sitter_rust::LANGUAGE: the Rust grammar.
#[verifier::external_body]
fn ts_lang_rust() -> tree_sitter::Language {
    tree_sitter_rust::LANGUAGE.into()
}

/// Relies on tree_sitter_typescript::LANGUAGE_TYPESCRIPT: the Typescript grammar.
#[verifier::external_body]
fn ts_lang_typescript() -> tree_sitter::Language {
    tree_sitter_typescript::LANGUAGE_TYPESCRIPT.into()
}

/// Relies on tree_sitter_typescript::LANGUAGE_TSX: the TSX grammar.
#[verifier::external_body]
fn ts_lang_tsx() -> tree_sitter::Language {
    tree_sitter_typescript::LANGUAGE_TSX.into()
}

/// Relies on tree_sitter_javascript::LANGUAGE: the Javascript grammar.
#[verifier::external_body]
fn ts_lang_javascript() -> tree_sitter::Language {
    tree_sitter_javascript::LANGUAGE.into()
}

/// Relies on tree_sitter_go::LANGUAGE: the Go grammar.
#[verifier::external_body]
fn ts_lang_go() -> tree_sitter::Language {
    tree_sitter_go::LANGUAGE.into()
}

/// Relies on tree_sitter_python::LANGUAGE: the Python grammar.
#[verifier::external_body]
fn ts_lang_python() -> tree_sitter::Language {
    tree_sitter_python::LANGUAGE.into()
}

/// Relies on tree_sitter_cpp::LANGUAGE: the C++ grammar.
#[verifier::external_body]
fn ts_lang_cpp() -> tree_sitter::Language {
    tree_sitter_cpp::LANGUAGE.into()
}

/// Relies on tree_sitter_c::LANGUAGE: the C grammar.
#[verifier::external_body]
fn ts_lang_c() -> tree_sitter::Language {
    tree_sitter_c::LANGUAGE.into()
}

/// Relies on tree_sitter_bash::LANGUAGE: the Bash grammar.
#[verifier::external_body]
fn ts_lang_bash() -> tree_sitter::Language {
    tree_sitter_bash::LANGUAGE.into()
}

/// Relies on tree_sitter_xml::LANGUAGE_XML: the XML grammar.
#[verifier::external_body]
fn ts_lang_xml() -> tree_sitter::Language {
    tree_sitter_xml::LANGUAGE_XML.into()
}

/// Relies on tree_sitter_objc::LANGUAGE: the Objective-C grammar.
#[verifier::external_body]
fn ts_lang_objc() -> tree_sitter::Language {
    tree_sitter_objc::LANGUAGE.into()
}

/// Relies on tree_sitter_java::LANGUAGE: the Java grammar.
#[verifier::external_body]
fn ts_lang_java() -> tree_sitter::Language {
    tree_sitter_java::LANGUAGE.into()
}

/// Relies on tree_sitter_html::LANGUAGE: the HTML grammar.
#[verifier::external_body]
fn ts_lang_html() -> tree_sitter::Language {
    tree_sitter_html::LANGUAGE.into()
}

/// Relies on tree_sitter_php::LANGUAGE_PHP: the PHP grammar (PHP with
/// embedded HTML, the common templating usage).
#[verifier::external_body]
fn ts_lang_php() -> tree_sitter::Language {
    tree_sitter_php::LANGUAGE_PHP.into()
}

/// Relies on tree_sitter_lua::LANGUAGE: the Lua grammar.
#[verifier::external_body]
fn ts_lang_lua() -> tree_sitter::Language {
    tree_sitter_lua::LANGUAGE.into()
}

/// Relies on tree_sitter_yaml::LANGUAGE: the YAML grammar.
#[verifier::external_body]
fn ts_lang_yaml() -> tree_sitter::Language {
    tree_sitter_yaml::LANGUAGE.into()
}

/// Relies on tree_sitter_ruby::LANGUAGE: the Ruby grammar.
#[verifier::external_body]
fn ts_lang_ruby() -> tree_sitter::Language {
    tree_sitter_ruby::LANGUAGE.into()
}

/// Relies on tree_sitter_proto::LANGUAGE: the Protobuf grammar.
#[verifier::external_body]
fn ts_lang_proto() -> tree_sitter::Language {
    tree_sitter_proto::LANGUAGE.into()
}

/// Relies on tree_sitter_c_sharp::LANGUAGE: the C# grammar.
#[verifier::external_body]
fn ts_lang_c_sharp() -> tree_sitter::Language {
    tree_sitter_c_sharp::LANGUAGE.into()
}

/// Relies on tree_sitter_powershell::LANGUAGE: the Powershell grammar.
#[verifier::external_body]
fn ts_lang_powershell() -> tree_sitter::Language {
    tree_sitter_powershell::LANGUAGE.into()
}

/// Relies on tree_sitter_css::LANGUAGE: the CSS grammar.
#[verifier::external_body]
fn ts_lang_css() -> tree_sitter::Language {
    tree_sitter_css::LANGUAGE.into()
}

/// Relies on tree_sitter_cmake::LANGUAGE: the CMake grammar.
#[verifier::external_body]
fn ts_lang_cmake() -> tree_sitter::Language {
    tree_sitter_cmake::LANGUAGE.into()
}

/// Relies on tree_sitter_hcl::LANGUAGE: the HCL grammar.
#[verifier::external_body]
fn ts_lang_hcl() -> tree_sitter::Language {
    tree_sitter_hcl::LANGUAGE.into()
}

/// Relies on tree_sitter_make::LANGUAGE: the Make grammar.
#[verifier::external_body]
fn ts_lang_make() -> tree_sitter::Language {
    tree_sitter_make::LANGUAGE.into()
}

/// Relies on tree_sitter_ini::LANGUAGE: the Ini grammar.
#[verifier::external_body]
fn ts_lang_ini() -> tree_sitter::Language {
    tree_sitter_ini::LANGUAGE.into()
}

/// Obtains the external parsing library's grammar for a handle, or `None`
/// for a grammar this build does not link.
pub fn language_for_grammar(g: &Grammar) -> (r: Option<tree_sitter::Language>)
    ensures
        r is Some <==> grammar_available(*g),
{
    match g {
        Grammar::Rust => Some(ts_lang_rust()),
        Grammar::Typescript => Some(ts_lang_typescript()),
        Grammar::TypescriptReact => Some(ts_lang_tsx()),
        Grammar::Javascript => Some(ts_lang_javascript()),
        Grammar::Go => Some(ts_lang_go()),
        Grammar::Python => Some(ts_lang_python()),
        Grammar::Cpp => Some(ts_lang_cpp()),
        Grammar::C => Some(ts_lang_c()),
        Grammar::Bash => Some(ts_lang_bash()),
        Grammar::Xml => Some(ts_lang_xml()),
        Grammar::ObjectiveC => Some(ts_lang_objc()),
        Grammar::Java => Some(ts_lang_java()),
        Grammar::Html => Some(ts_lang_html()),
        Grammar::Php => Some(ts_lang_php()),
        Grammar::Lua => Some(ts_lang_lua()),
        Grammar::Swift => None,
        Grammar::Yaml => Some(ts_lang_yaml()),
        Grammar::Ruby => Some(ts_lang_ruby()),
        Grammar::Kotlin => None,
        Grammar::Proto => Some(ts_lang_proto()),
        Grammar::Toml => None,
        Grammar::CSharp => Some(ts_lang_c_sharp()),
        Grammar::Powershell => Some(ts_lang_powershell()),
        Grammar::Dockerfile => None,
        Grammar::Css => Some(ts_lang_css()),
        Grammar::Cmake => Some(ts_lang_cmake()),
        Grammar::Hcl => Some(ts_lang_hcl()),
        Grammar::Make => Some(ts_lang_make()),
        Grammar::Ini => Some(ts_lang_ini()),
    }
}

} // verus!

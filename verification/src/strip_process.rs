//! The overall stripping process.
//!
//! * `identify_language` finds the most appropriate language for a file.
//!   It is primarily driven by the file extension, but where ambiguities are
//!   present (e.g. `.h` files can be stripped by C, C++, Objective-C, ...),
//!   type hints can be used to resolve them. Files with non-standard file
//!   extensions can be handled similarly.
//! * `strip_file` parses the source with the identified language's grammar
//!   and removes the comments.
//! * `process_source` chains the two; reading and writing the bytes is the
//!   caller's concern.

use vstd::prelude::*;

use crate::errors::StrippingError;
use crate::languages::Grammar;
use crate::languages::LanguageDefinition;
use crate::languages::grammar_available;
use crate::languages::language_for_grammar;
use crate::strip_core::count_newlines;
use crate::strip_core::strip_comments;
use crate::strip_core::stripped_text;
use crate::syntax_tree::SyntaxNode;
use crate::syntax_tree::check_wf_node;
use crate::syntax_tree::comment_spans;
use crate::syntax_tree::wf_node;
use crate::type_hints::TypeHint;
use crate::type_hints::TypeHints;

verus! {

/// Whether `glob::Pattern::new` accepts this pattern text.
pub uninterp spec fn glob_valid(pattern: Seq<char>) -> bool;

/// What `glob::Pattern::matches` answers for a valid pattern and a path,
/// with the default (case-sensitive) match options.
pub uninterp spec fn glob_matches(pattern: Seq<char>, path: Seq<char>) -> bool;

/// What `glob::Pattern::matches_with` answers for a valid pattern and a
/// path when matching case-insensitively.
pub uninterp spec fn glob_matches_ci(pattern: Seq<char>, path: Seq<char>) -> bool;

/// Relies on glob::Pattern::new and glob::Pattern::matches: whether the
/// pattern matches the path case-sensitively; a pattern that does not
/// compile matches nothing.
#[verifier::external_body]
fn glob_match(pattern: &str, path: &str) -> (r: bool)
    ensures
        glob_valid(pattern@) ==> r == glob_matches(pattern@, path@),
        !glob_valid(pattern@) ==> r == false,
{
    glob::Pattern::new(pattern).map_or(false, |p| p.matches(path))
}

/// Relies on glob::Pattern::new and glob::Pattern::matches_with: whether the
/// pattern matches the path case-insensitively; a pattern that does not
/// compile matches nothing.
#[verifier::external_body]
fn glob_match_nocase(pattern: &str, path: &str) -> (r: bool)
    ensures
        glob_valid(pattern@) ==> r == glob_matches_ci(pattern@, path@),
        !glob_valid(pattern@) ==> r == false,
{
    let options = glob::MatchOptions { case_sensitive: false, ..Default::default() };
    glob::Pattern::new(pattern).map_or(false, |p| p.matches_with(path, options))
}

/// Relies on String's FromIterator over char: the collected string holds
/// exactly the given characters.
#[verifier::external_body]
fn chars_to_string(chars: &Vec<char>) -> (s: String)
    ensures
        s@ == chars@,
{
    chars.iter().collect()
}

/// The characters of a string slice, as a vector.
fn str_chars(s: &str) -> (r: Vec<char>)
    ensures
        r@ == s@,
{
    let n: usize = s.unicode_len();
    let mut r: Vec<char> = Vec::new();
    let mut i: usize = 0;
    while i < n
        invariant
            i <= n,
            n == s@.len(),
            r@.len() == i,
            forall|j: int| 0 <= j < i ==> r@[j] == s@[j],
        decreases n - i,
    {
        r.push(s.get_char(i));
        i += 1;
    }
    proof {
        assert(r@ =~= s@);
    }
    r
}

/// ASCII lower-casing of one character; other characters are unchanged.
/// This is the intended case-folding rule for extension matching: every
/// extension the registry holds is ASCII, so folding beyond ASCII could
/// never make another extension match.
pub open spec fn lower_char(c: char) -> char {
    if 'A' <= c && c <= 'Z' {
        ((c as u32) + 32) as char
    } else {
        c
    }
}

/// ASCII lower-casing of a character sequence.
pub open spec fn lower_chars(s: Seq<char>) -> Seq<char> {
    s.map_values(|c: char| lower_char(c))
}

fn lower_char_exec(c: char) -> (r: char)
    ensures
        r == lower_char(c),
{
    match c {
        'A' => 'a',
        'B' => 'b',
        'C' => 'c',
        'D' => 'd',
        'E' => 'e',
        'F' => 'f',
        'G' => 'g',
        'H' => 'h',
        'I' => 'i',
        'J' => 'j',
        'K' => 'k',
        'L' => 'l',
        'M' => 'm',
        'N' => 'n',
        'O' => 'o',
        'P' => 'p',
        'Q' => 'q',
        'R' => 'r',
        'S' => 's',
        'T' => 't',
        'U' => 'u',
        'V' => 'v',
        'W' => 'w',
        'X' => 'x',
        'Y' => 'y',
        'Z' => 'z',
        _ => c,
    }
}

/// Lower-cases a character vector (ASCII case folding, matching the
/// lower-case extensions the registry holds).
fn to_lower(v: &Vec<char>) -> (r: Vec<char>)
    ensures
        r@ == lower_chars(v@),
{
    let mut r: Vec<char> = Vec::new();
    let mut i: usize = 0;
    while i < v.len()
        invariant
            i <= v.len(),
            r@.len() == i,
            forall|j: int| 0 <= j < i ==> r@[j] == lower_char(v@[j]),
        decreases v.len() - i,
    {
        r.push(lower_char_exec(v[i]));
        i += 1;
    }
    proof {
        assert(r@ =~= lower_chars(v@));
    }
    r
}

/// The index of the last occurrence of `c` in `s`, or `-1`.
pub open spec fn last_index_of(s: Seq<char>, c: char) -> int
    decreases s,
{
    if s.len() == 0 {
        -1
    } else if s.last() == c {
        s.len() - 1
    } else {
        last_index_of(s.drop_last(), c)
    }
}

/// Finds the last occurrence of `c` in `v[lo..]`.
fn rfind_from(v: &Vec<char>, lo: usize, c: char) -> (r: Option<usize>)
    requires
        lo <= v@.len(),
    ensures
        match r {
            Some(k) => lo <= k < v@.len() && k - lo == last_index_of(v@.skip(lo as int), c)
                && v@[k as int] == c,
            None => last_index_of(v@.skip(lo as int), c) == -1,
        },
{
    let ghost s = v@.skip(lo as int);
    let mut i: usize = v.len();
    proof {
        assert(s.subrange(0, i - lo) =~= s);
    }
    while i > lo
        invariant
            lo <= i <= v@.len(),
            s == v@.skip(lo as int),
            last_index_of(s, c) == last_index_of(s.subrange(0, i - lo), c),
        decreases i,
    {
        let ghost m = i - lo;
        if v[i - 1] == c {
            proof {
                assert(s.subrange(0, m).last() == s[m - 1]);
                assert(s[m - 1] == v@[i - 1]);
                assert(last_index_of(s.subrange(0, m), c) == m - 1);
            }
            return Some(i - 1);
        }
        proof {
            assert(s.subrange(0, m).last() == s[m - 1]);
            assert(s.subrange(0, m).drop_last() =~= s.subrange(0, m - 1));
        }
        i -= 1;
    }
    proof {
        assert(s.subrange(0, 0).len() == 0);
    }
    None
}

/// The extension of a `/`-separated path: what follows the last `.` of the
/// final path component, provided that dot is not the component's first
/// character (so a leading-dot file has no extension).
pub open spec fn spec_extension(path: Seq<char>) -> Option<Seq<char>> {
    let fname = path.skip(last_index_of(path, '/') + 1);
    let d = last_index_of(fname, '.');
    if d <= 0 {
        None
    } else {
        Some(fname.skip(d + 1))
    }
}

/// Copies `v[from..]`.
fn vec_suffix(v: &Vec<char>, from: usize) -> (r: Vec<char>)
    requires
        from <= v@.len(),
    ensures
        r@ == v@.skip(from as int),
{
    let mut r: Vec<char> = Vec::new();
    let mut i: usize = from;
    while i < v.len()
        invariant
            from <= i <= v@.len(),
            r@.len() == i - from,
            forall|j: int| 0 <= j < i - from ==> r@[j] == v@[from + j],
        decreases v@.len() - i,
    {
        r.push(v[i]);
        i += 1;
    }
    proof {
        assert(r@ =~= v@.skip(from as int));
    }
    r
}

/// Extracts the path's extension, if there is one.
fn path_extension(path_chars: &Vec<char>) -> (r: Option<Vec<char>>)
    ensures
        match spec_extension(path_chars@) {
            Some(e) => r matches Some(v) && v@ == e,
            None => r is None,
        },
{
    let n: usize = path_chars.len();
    let slash = rfind_from(path_chars, 0, '/');
    proof {
        assert(path_chars@.skip(0) =~= path_chars@);
    }
    let lo: usize = match slash {
        Some(k) => k + 1,
        None => 0,
    };
    proof {
        assert(lo == last_index_of(path_chars@, '/') + 1);
    }
    let ghost fname = path_chars@.skip(lo as int);
    let dot = rfind_from(path_chars, lo, '.');
    match dot {
        None => None,
        Some(k) => {
            if k == lo {
                None
            } else {
                let ext = vec_suffix(path_chars, k + 1);
                proof {
                    let d = last_index_of(fname, '.');
                    assert(d == k - lo);
                    assert(fname.skip(d + 1) =~= path_chars@.skip(k + 1));
                }
                Some(ext)
            }
        },
    }
}

/// Whether the character sequence equals the string's characters.
fn chars_eq_str(v: &Vec<char>, s: &String) -> (r: bool)
    ensures
        r == (v@ == s@),
{
    let n: usize = s.as_str().unicode_len();
    if v.len() != n {
        return false;
    }
    let mut i: usize = 0;
    while i < n
        invariant
            i <= n,
            n == s@.len(),
            n == v@.len(),
            forall|j: int| 0 <= j < i ==> v@[j] == s@[j],
        decreases n - i,
    {
        if v[i] != s.as_str().get_char(i) {
            return false;
        }
        i += 1;
    }
    proof {
        assert(v@ =~= s@);
    }
    true
}

/// Whether a hint applies to a path: its pattern is a valid glob and
/// matches the path.
pub open spec fn hint_applies(hint: TypeHint, path: Seq<char>) -> bool {
    glob_valid(hint.pattern@) && glob_matches(hint.pattern@, path)
}

fn hint_matches(hint: &TypeHint, path: &str) -> (r: bool)
    ensures
        r == hint_applies(*hint, path@),
{
    glob_match(hint.pattern.as_str(), path)
}

/// The index of the last hint that applies to the path, or `-1`. The last
/// one takes effect: later entries override earlier ones.
pub open spec fn last_applicable_hint(hints: Seq<TypeHint>, path: Seq<char>) -> int
    decreases hints,
{
    if hints.len() == 0 {
        -1
    } else if hint_applies(hints.last(), path) {
        hints.len() - 1
    } else {
        last_applicable_hint(hints.drop_last(), path)
    }
}

/// The index of the first registry entry with this name, or `-1`.
pub open spec fn first_language_named(langs: Seq<LanguageDefinition>, name: Seq<char>) -> int
    decreases langs,
{
    if langs.len() == 0 {
        -1
    } else if langs[0].name@ == name {
        0
    } else if first_language_named(langs.drop_first(), name) == -1 {
        -1
    } else {
        1 + first_language_named(langs.drop_first(), name)
    }
}

proof fn lemma_first_language_named_found(langs: Seq<LanguageDefinition>, name: Seq<char>, k: int)
    requires
        0 <= k < langs.len(),
        langs[k].name@ == name,
        forall|j: int| 0 <= j < k ==> (#[trigger] langs[j]).name@ != name,
    ensures
        first_language_named(langs, name) == k,
    decreases langs,
{
    if k > 0 {
        assert(langs[0].name@ != name);
        assert forall|j: int| 0 <= j < k - 1 implies (#[trigger] langs.drop_first()[j]).name@
            != name by {
            assert(langs.drop_first()[j] == langs[j + 1]);
        }
        assert(langs.drop_first()[k - 1] == langs[k]);
        lemma_first_language_named_found(langs.drop_first(), name, k - 1);
    }
}

proof fn lemma_first_language_named_none(langs: Seq<LanguageDefinition>, name: Seq<char>)
    requires
        forall|j: int| 0 <= j < langs.len() ==> (#[trigger] langs[j]).name@ != name,
    ensures
        first_language_named(langs, name) == -1,
    decreases langs,
{
    if langs.len() > 0 {
        assert forall|j: int|
            0 <= j < langs.drop_first().len() implies (#[trigger] langs.drop_first()[j]).name@
            != name by {
            assert(langs.drop_first()[j] == langs[j + 1]);
        }
        lemma_first_language_named_none(langs.drop_first(), name);
    }
}

proof fn lemma_first_language_named_range(langs: Seq<LanguageDefinition>, name: Seq<char>)
    ensures
        first_language_named(langs, name) == -1 || 0 <= first_language_named(langs, name)
            < langs.len(),
    decreases langs,
{
    if langs.len() != 0 {
        lemma_first_language_named_range(langs.drop_first(), name);
    }
}

/// Last-hint-wins: `last_applicable_hint` returns the index of the hint
/// that takes effect, and it is the greatest applicable one, so a hint that
/// appears later in the sequence overrides every earlier one; `-1` means no
/// hint applies at all.
pub proof fn lemma_last_applicable_hint_correct(hints: Seq<TypeHint>, path: Seq<char>)
    ensures
        last_applicable_hint(hints, path) == -1 ==> forall|i: int|
            0 <= i < hints.len() ==> !hint_applies(#[trigger] hints[i], path),
        last_applicable_hint(hints, path) != -1 ==> {
            let h = last_applicable_hint(hints, path);
            &&& 0 <= h < hints.len()
            &&& hint_applies(hints[h], path)
            &&& forall|i: int| h < i < hints.len() ==> !hint_applies(#[trigger] hints[i], path)
        },
    decreases hints,
{
    if hints.len() != 0 && !hint_applies(hints.last(), path) {
        lemma_last_applicable_hint_correct(hints.drop_last(), path);
        let h = last_applicable_hint(hints, path);
        if h == -1 {
            assert forall|i: int| 0 <= i < hints.len() implies !hint_applies(
                #[trigger] hints[i],
                path,
            ) by {
                if i < hints.len() - 1 {
                    assert(hints.drop_last()[i] == hints[i]);
                }
            }
        } else {
            assert(hints.drop_last()[h] == hints[h]);
            assert forall|i: int| h < i < hints.len() implies !hint_applies(
                #[trigger] hints[i],
                path,
            ) by {
                if i < hints.len() - 1 {
                    assert(hints.drop_last()[i] == hints[i]);
                }
            }
        }
    }
}

/// First-match lookup: a hint's language name selects the first registry
/// entry bearing that exact name, and selects nothing exactly when no entry
/// bears it.
pub proof fn lemma_first_language_named_correct(langs: Seq<LanguageDefinition>, name: Seq<char>)
    ensures
        first_language_named(langs, name) == -1 ==> forall|j: int|
            0 <= j < langs.len() ==> (#[trigger] langs[j]).name@ != name,
        first_language_named(langs, name) != -1 ==> {
            let k = first_language_named(langs, name);
            &&& 0 <= k < langs.len()
            &&& langs[k].name@ == name
            &&& forall|j: int| 0 <= j < k ==> (#[trigger] langs[j]).name@ != name
        },
    decreases langs,
{
    if langs.len() != 0 && langs[0].name@ != name {
        lemma_first_language_named_correct(langs.drop_first(), name);
        let kd = first_language_named(langs.drop_first(), name);
        assert forall|j: int| 0 <= j < langs.len() && (kd == -1 || j < kd + 1) && j >= 1 implies (
        #[trigger] langs[j]).name@ == langs.drop_first()[j - 1].name@ by {
            assert(langs.drop_first()[j - 1] == langs[j]);
        }
        if kd != -1 {
            assert(langs.drop_first()[kd] == langs[kd + 1]);
        }
    }
}

/// The registry entry that the hints select for a path, if any: the last
/// applicable hint's language name, looked up in the registry; an unknown
/// name selects nothing and detection falls back to the filename.
pub open spec fn spec_hint_selection(
    hints: Seq<TypeHint>,
    langs: Seq<LanguageDefinition>,
    path: Seq<char>,
) -> Option<int> {
    let h = last_applicable_hint(hints, path);
    if h == -1 {
        None
    } else {
        let k = first_language_named(langs, hints[h].language@);
        if k == -1 {
            None
        } else {
            Some(k)
        }
    }
}

/// Identifies the language from a given set of type hints.
///
/// This iterates through the available hints and finds those that match the
/// file; if multiple hints match, the last defined takes effect. The chosen
/// hint's language name is then looked up in the registry by exact,
/// case-sensitive match; an unrecognized name is not fatal and selects no
/// language, so detection can still fall back to the filename.
pub fn identify_language_from_hints<'a>(
    path: &str,
    type_hints: &TypeHints,
    languages: &'a Vec<LanguageDefinition>,
) -> (r: Option<&'a LanguageDefinition>)
    ensures
        match spec_hint_selection(type_hints@, languages@, path@) {
            Some(k) => r matches Some(l) && *l == languages@[k],
            None => r is None,
        },
{
    let ghost hs = type_hints@;
    let mut i: usize = type_hints.len();
    proof {
        assert(hs.subrange(0, i as int) =~= hs);
    }
    while i > 0
        invariant
            i <= hs.len(),
            hs == type_hints@,
            last_applicable_hint(hs, path@) == last_applicable_hint(hs.subrange(0, i as int), path@),
        decreases i,
    {
        let ghost m = i as int;
        if hint_matches(&type_hints[i - 1], path) {
            proof {
                assert(hs.subrange(0, m).last() == hs[m - 1]);
                assert(last_applicable_hint(hs.subrange(0, m), path@) == m - 1);
            }
            // This hint applies; find the language it names.
            let name: &String = &type_hints[i - 1].language;
            let mut k: usize = 0;
            while k < languages.len()
                invariant
                    k <= languages@.len(),
                    1 <= m <= type_hints@.len(),
                    last_applicable_hint(type_hints@, path@) == m - 1,
                    name@ == type_hints@[m - 1].language@,
                    forall|j: int| 0 <= j < k ==> (#[trigger] languages@[j]).name@ != name@,
                decreases languages@.len() - k,
            {
                if languages[k].name.eq(name) {
                    proof {
                        lemma_first_language_named_found(languages@, name@, k as int);
                    }
                    return Some(&languages[k]);
                }
                k += 1;
            }
            proof {
                lemma_first_language_named_none(languages@, name@);
            }
            return None;
        }
        proof {
            assert(hs.subrange(0, m).last() == hs[m - 1]);
            assert(hs.subrange(0, m).drop_last() =~= hs.subrange(0, m - 1));
        }
        i -= 1;
    }
    proof {
        assert(hs.subrange(0, 0).len() == 0);
    }
    None
}

/// Whether one of the strings equals the character sequence.
pub open spec fn string_in(strs: Seq<String>, s: Seq<char>) -> bool {
    exists|i: int| 0 <= i < strs.len() && (#[trigger] strs[i])@ == s
}

/// Whether a language definition claims a path: the path's lower-cased
/// extension is in its extension set, or one of its globs matches the full
/// path case-insensitively.
pub open spec fn language_claims(l: LanguageDefinition, path: Seq<char>) -> bool {
    ||| (spec_extension(path) matches Some(e) && string_in(l.file_extensions@, lower_chars(e)))
    ||| (exists|i: int|
        0 <= i < l.path_globs@.len() && glob_valid((#[trigger] l.path_globs@[i])@)
            && glob_matches_ci(l.path_globs@[i]@, path))
}

/// Whether the character sequence is one of the strings, executably.
fn chars_in_list(v: &Vec<char>, strs: &Vec<String>) -> (r: bool)
    ensures
        r == string_in(strs@, v@),
{
    let mut i: usize = 0;
    while i < strs.len()
        invariant
            i <= strs@.len(),
            forall|j: int| 0 <= j < i ==> (#[trigger] strs@[j])@ != v@,
        decreases strs@.len() - i,
    {
        if chars_eq_str(v, &strs[i]) {
            return true;
        }
        i += 1;
    }
    false
}

fn language_claims_exec(l: &LanguageDefinition, path: &str, ext_lower: &Option<Vec<char>>) -> (r:
    bool)
    requires
        match ext_lower {
            Some(v) => spec_extension(path@) matches Some(e) && v@ == lower_chars(e),
            None => spec_extension(path@) is None,
        },
    ensures
        r == language_claims(*l, path@),
{
    let ext_hit: bool = match ext_lower {
        Some(v) => chars_in_list(v, &l.file_extensions),
        None => false,
    };
    if ext_hit {
        return true;
    }
    let mut i: usize = 0;
    while i < l.path_globs.len()
        invariant
            i <= l.path_globs@.len(),
            !(spec_extension(path@) matches Some(e) && string_in(l.file_extensions@, lower_chars(e))),
            forall|j: int|
                0 <= j < i ==> !(glob_valid((#[trigger] l.path_globs@[j])@) && glob_matches_ci(
                    l.path_globs@[j]@,
                    path@,
                )),
        decreases l.path_globs@.len() - i,
    {
        if glob_match_nocase(l.path_globs[i].as_str(), path) {
            return true;
        }
        i += 1;
    }
    false
}

/// The indices of the registry entries that claim the path, in registry
/// order.
pub open spec fn candidate_indices(langs: Seq<LanguageDefinition>, path: Seq<char>) -> Seq<int>
    decreases langs,
{
    if langs.len() == 0 {
        Seq::empty()
    } else {
        candidate_indices(langs.drop_last(), path) + if language_claims(langs.last(), path) {
            seq![langs.len() - 1]
        } else {
            Seq::empty()
        }
    }
}

proof fn lemma_candidate_indices_bounds(langs: Seq<LanguageDefinition>, path: Seq<char>)
    ensures
        forall|j: int|
            0 <= j < candidate_indices(langs, path).len() ==> 0 <= #[trigger] candidate_indices(
                langs,
                path,
            )[j] < langs.len(),
    decreases langs,
{
    if langs.len() != 0 {
        lemma_candidate_indices_bounds(langs.drop_last(), path);
        let pre = candidate_indices(langs.drop_last(), path);
        let all = candidate_indices(langs, path);
        assert forall|j: int| 0 <= j < all.len() implies 0 <= #[trigger] all[j] < langs.len() by {
            if j < pre.len() {
                assert(all[j] == pre[j]);
            }
        }
    }
}

/// Ambiguity and unknown-extension detection are exact: a registry index
/// stands among the candidates if and only if that language claims the
/// path. So one candidate resolves to the unique claimant, the ambiguity
/// error lists exactly the claimants' names, and the no-language error
/// arises exactly when no language claims the path.
pub proof fn lemma_candidate_indices_complete(langs: Seq<LanguageDefinition>, path: Seq<char>)
    ensures
        forall|k: int|
            0 <= k < langs.len() ==> (candidate_indices(langs, path).contains(k)
                <==> language_claims(#[trigger] langs[k], path)),
    decreases langs,
{
    if langs.len() != 0 {
        lemma_candidate_indices_complete(langs.drop_last(), path);
        lemma_candidate_indices_bounds(langs.drop_last(), path);
        let pre = candidate_indices(langs.drop_last(), path);
        let all = candidate_indices(langs, path);
        let n = langs.len() - 1;
        assert forall|k: int|
            0 <= k < langs.len() implies (all.contains(k) <==> language_claims(
            #[trigger] langs[k],
            path,
        )) by {
            if k < n {
                assert(langs.drop_last()[k] == langs[k]);
                if pre.contains(k) {
                    let j = choose|j: int| 0 <= j < pre.len() && pre[j] == k;
                    assert(all[j] == k);
                }
                if all.contains(k) {
                    let j = choose|j: int| 0 <= j < all.len() && all[j] == k;
                    assert(j < pre.len());
                    assert(pre[j] == k);
                }
            } else {
                if language_claims(langs[n], path) {
                    assert(all[all.len() - 1] == n);
                    assert(all.contains(n));
                } else {
                    assert(all =~= pre);
                    if all.contains(n) {
                        let j = choose|j: int| 0 <= j < all.len() && all[j] == n;
                        assert(pre[j] == n);
                        assert(pre[j] < n);
                    }
                }
            }
        }
    }
}

/// The candidate language names joined by `/`, for the disambiguation
/// suggestion.
pub open spec fn joined_names(langs: Seq<LanguageDefinition>, idxs: Seq<int>) -> Seq<char>
    decreases idxs,
{
    if idxs.len() == 0 {
        Seq::empty()
    } else if idxs.len() == 1 {
        langs[idxs[0]].name@
    } else {
        joined_names(langs, idxs.drop_last()) + "/"@ + langs[idxs.last()].name@
    }
}

/// The pattern of the suggested disambiguating hint: an extension glob if
/// the path has an extension, else the literal path.
pub open spec fn suggestion_pattern(path: Seq<char>) -> Seq<char> {
    match spec_extension(path) {
        Some(e) => "**/*."@ + lower_chars(e),
        None => path,
    }
}

/// The ready-to-paste hint record suggested alongside an ambiguous match.
pub open spec fn spec_suggestion(langs: Seq<LanguageDefinition>, path: Seq<char>) -> Seq<char> {
    "{ \"pattern\": \""@ + suggestion_pattern(path) + "\", \"language\": \""@ + joined_names(
        langs,
        candidate_indices(langs, path),
    ) + "\" }"@
}

/// Identifies the language from the path alone.
///
/// A language is a candidate if it recognises the path's lower-cased
/// extension, or one of its path globs matches the path case-insensitively.
/// Exactly one candidate resolves; none is an error carrying the path; more
/// than one is an error carrying the path and a ready-to-use disambiguating
/// hint suggestion, so the ambiguity can be fixed without re-reading
/// documentation.
pub fn identify_language_from_filename<'a>(path: &str, languages: &'a Vec<LanguageDefinition>) -> (r:
    Result<&'a LanguageDefinition, StrippingError>)
    ensures
        candidate_indices(languages@, path@).len() == 0 ==> (r matches Err(e)
            && e matches StrippingError::NoStripperFound { path: p } && p@ == path@),
        candidate_indices(languages@, path@).len() == 1 ==> (r matches Ok(l) && *l == languages@[
            candidate_indices(languages@, path@)[0]
        ]),
        candidate_indices(languages@, path@).len() > 1 ==> (r matches Err(e)
            && e matches StrippingError::MultipleStrippersFound { path: p, suggestion: sg }
            && p@ == path@ && sg@ == spec_suggestion(languages@, path@)),
{
    let path_chars = str_chars(path);
    let ext_raw = path_extension(&path_chars);
    let ext_lower: Option<Vec<char>> = match ext_raw {
        Some(v) => Some(to_lower(&v)),
        None => None,
    };
    let ghost cspec = candidate_indices(languages@, path@);
    let mut candidates: Vec<usize> = Vec::new();
    let mut i: usize = 0;
    proof {
        assert(languages@.subrange(0, 0).len() == 0);
    }
    while i < languages.len()
        invariant
            i <= languages@.len(),
            match ext_lower {
                Some(v) => spec_extension(path@) matches Some(e) && v@ == lower_chars(e),
                None => spec_extension(path@) is None,
            },
            candidates@.len() == candidate_indices(languages@.subrange(0, i as int), path@).len(),
            forall|j: int|
                0 <= j < candidates@.len() ==> (#[trigger] candidates@[j]) as int
                    == candidate_indices(languages@.subrange(0, i as int), path@)[j],
        decreases languages@.len() - i,
    {
        let ghost pre = languages@.subrange(0, i as int);
        let ghost post = languages@.subrange(0, i as int + 1);
        proof {
            assert(post.drop_last() =~= pre);
            assert(post.last() == languages@[i as int]);
        }
        if language_claims_exec(&languages[i], path, &ext_lower) {
            candidates.push(i);
            proof {
                assert(candidate_indices(post, path@) == candidate_indices(pre, path@) + seq![
                    i as int,
                ]);
            }
        } else {
            proof {
                assert(candidate_indices(post, path@) =~= candidate_indices(pre, path@));
            }
        }
        i += 1;
    }
    proof {
        assert(languages@.subrange(0, languages@.len() as int) =~= languages@);
        assert(candidates@.len() == cspec.len());
        assert(forall|j: int|
            0 <= j < candidates@.len() ==> (#[trigger] candidates@[j]) as int == cspec[j]);
        lemma_candidate_indices_bounds(languages@, path@);
    }
    if candidates.len() == 0 {
        return Err(
            StrippingError::NoStripperFound { path: String::from_str(path) },
        );
    }
    if candidates.len() == 1 {
        let k = candidates[0];
        proof {
            assert(cspec[0] == k as int);
        }
        return Ok(&languages[k]);
    }
    // This is going to be a fairly common error, so provide a maximally
    // helpful error message: a hint record the caller can paste into a
    // hints file.
    let mut joined = String::new();
    let mut j: usize = 0;
    proof {
        assert(cspec.subrange(0, 0).len() == 0);
        assert(joined@ =~= joined_names(languages@, cspec.subrange(0, 0)));
    }
    while j < candidates.len()
        invariant
            j <= candidates@.len(),
            candidates@.len() == cspec.len(),
            cspec == candidate_indices(languages@, path@),
            forall|ji: int|
                0 <= ji < candidates@.len() ==> (#[trigger] candidates@[ji]) as int == cspec[ji],
            forall|ji: int| 0 <= ji < cspec.len() ==> 0 <= #[trigger] cspec[ji] < languages@.len(),
            joined@ == joined_names(languages@, cspec.subrange(0, j as int)),
        decreases candidates@.len() - j,
    {
        let ghost pre = cspec.subrange(0, j as int);
        let ghost post = cspec.subrange(0, j as int + 1);
        proof {
            assert(post.drop_last() =~= pre);
            assert(post.last() == cspec[j as int]);
        }
        if j > 0 {
            joined.append("/");
        }
        joined.append(languages[candidates[j]].name.as_str());
        proof {
            assert(joined@ =~= joined_names(languages@, post));
        }
        j += 1;
    }
    proof {
        assert(cspec.subrange(0, cspec.len() as int) =~= cspec);
    }
    let mut suggestion = String::from_str("{ \"pattern\": \"");
    match &ext_lower {
        Some(v) => {
            suggestion.append("**/*.");
            let evs = chars_to_string(v);
            suggestion.append(evs.as_str());
        },
        None => {
            suggestion.append(path);
        },
    }
    suggestion.append("\", \"language\": \"");
    suggestion.append(joined.as_str());
    suggestion.append("\" }");
    proof {
        assert(suggestion@ =~= spec_suggestion(languages@, path@));
    }
    Err(
        StrippingError::MultipleStrippersFound {
            path: String::from_str(path),
            suggestion,
        },
    )
}

/// The registry entry that resolution as a whole picks for a path, if any:
/// the hint-selected entry when a hint applies and names a registered
/// language, else the single candidate by extension or glob. `None` is a
/// resolution error: no candidate, or several without a deciding hint.
pub open spec fn resolved_language(
    hints: Seq<TypeHint>,
    langs: Seq<LanguageDefinition>,
    path: Seq<char>,
) -> Option<int> {
    match spec_hint_selection(hints, langs, path) {
        Some(k) => Some(k),
        None => {
            let c = candidate_indices(langs, path);
            if c.len() == 1 {
                Some(c[0])
            } else {
                None
            }
        },
    }
}

/// Identifies the language for a path.
///
/// The type hints are checked first and always win, even over an
/// unambiguous extension match; if no hint applies (or the applying hint
/// names no registered language), detection falls back to the path's
/// extension and the registry's globs.
pub fn identify_language<'a>(
    path: &str,
    type_hints: &TypeHints,
    languages: &'a Vec<LanguageDefinition>,
) -> (r: Result<&'a LanguageDefinition, StrippingError>)
    ensures
        spec_hint_selection(type_hints@, languages@, path@) matches Some(k) ==> (r matches Ok(l)
            && *l == languages@[k]),
        spec_hint_selection(type_hints@, languages@, path@) is None ==> {
            &&& candidate_indices(languages@, path@).len() == 0 ==> (r matches Err(e)
                && e matches StrippingError::NoStripperFound { path: p } && p@ == path@)
            &&& candidate_indices(languages@, path@).len() == 1 ==> (r matches Ok(l) && *l
                == languages@[candidate_indices(languages@, path@)[0]])
            &&& candidate_indices(languages@, path@).len() > 1 ==> (r matches Err(e)
                && e matches StrippingError::MultipleStrippersFound { path: p, suggestion: sg }
                && p@ == path@ && sg@ == spec_suggestion(languages@, path@))
        },
        resolved_language(type_hints@, languages@, path@) matches Some(k) ==> (r matches Ok(l)
            && *l == languages@[k]),
        resolved_language(type_hints@, languages@, path@) is None ==> r is Err,
{
    let language = identify_language_from_hints(path, type_hints, languages);
    if let Some(language) = language {
        return Ok(language);
    }
    identify_language_from_filename(path, languages)
}

#[verifier::external_type_specification]
#[verifier::external_body]
pub struct ExTSTree(tree_sitter::Tree);

/// Relies on tree_sitter::TreeCursor (goto_first_child, goto_next_sibling,
/// goto_parent) and tree_sitter::Node accessors (kind, start_byte,
/// end_byte) to mirror the parsing library's tree, node for node, as the
/// library's own tree value. The walk is iterative, with an explicit stack
/// of unfinished nodes, so conversion does not recurse over the tree's
/// depth.
#[verifier::external_body]
fn convert_tree(tree: &tree_sitter::Tree) -> SyntaxNode {
    let mut cursor = tree.walk();
    let mut stack: Vec<(String, usize, usize, Vec<SyntaxNode>)> = Vec::new();
    loop {
        let n = cursor.node();
        stack.push((n.kind().to_string(), n.start_byte(), n.end_byte(), Vec::new()));
        if cursor.goto_first_child() { continue; }
        loop {
            let (kind, start, end, children) = stack.pop().unwrap();
            let done = SyntaxNode { kind, start, end, children };
            match stack.last_mut() { None => return done, Some(parent) => parent.3.push(done) }
            if cursor.goto_next_sibling() { break; }
            cursor.goto_parent();
        }
    }
}

/// The tree that the external parsing library produces for a linked grammar
/// and a source text, mirrored as the library's own tree value. Parsing is
/// a function of the grammar and the bytes alone; a source the grammar
/// cannot make sense of still yields a tree, with error nodes.
pub uninterp spec fn parsed_tree(g: Grammar, text: Seq<u8>) -> SyntaxNode;

/// Relies on tree_sitter::Parser (new, set_language, parse): parses the
/// source with the given grammar and mirrors the resulting tree, which
/// `parsed_tree` names. For a grammar linked into this build,
/// `set_language` succeeds (it fails only on an ABI version mismatch, and
/// the linked grammars are built against this parsing library) and `parse`
/// returns a tree for any byte input (it returns nothing only when no
/// language is assigned). Nothing is assumed of the tree's shape: the
/// caller checks its well-formedness.
#[verifier::external_body]
fn parse_bytes(g: &Grammar, source_code: &Vec<u8>) -> (r: Result<SyntaxNode, String>)
    ensures
        grammar_available(*g) ==> r is Ok && r->Ok_0 == parsed_tree(*g, source_code@),
        !grammar_available(*g) ==> r is Err,
{
    let Some(language) = language_for_grammar(g) else {
        return Err(String::from("grammar is not linked into this build"));
    };
    let mut parser = tree_sitter::Parser::new();
    if let Err(e) = parser.set_language(&language) {
        return Err(format!("{}", e));
    }
    match parser.parse(source_code.as_slice(), None) {
        Some(tree) => Ok(convert_tree(&tree)),
        None => Err(String::from("parse failed")),
    }
}

/// Performs the actual stripping for a single file.
///
/// Parses the source with the language's grammar and strips the comments:
/// for a linked grammar and a well-formed parse tree this succeeds, and the
/// result is the stripped text of exactly that tree. Any result keeps the
/// source's newline count; a language whose grammar this build does not
/// link, a grammar the parsing library refuses, or an ill-formed tree
/// reports a language error.
pub fn strip_file(language: &LanguageDefinition, source: &Vec<u8>) -> (r: Result<
    Vec<u8>,
    StrippingError,
>)
    ensures
        !grammar_available(language.grammar) ==> r is Err,
        r matches Err(e) ==> e matches StrippingError::LanguageError { .. },
        r matches Ok(out) ==> count_newlines(out@) == count_newlines(source@),
        r matches Ok(out) ==> grammar_available(language.grammar) && wf_node(
            parsed_tree(language.grammar, source@),
            source@.len() as nat,
        ) && out@ == stripped_text(
            source@,
            comment_spans(parsed_tree(language.grammar, source@), language.comment_node_types@),
        ),
        grammar_available(language.grammar) && wf_node(
            parsed_tree(language.grammar, source@),
            source@.len() as nat,
        ) ==> (r matches Ok(out) && out@ == stripped_text(
            source@,
            comment_spans(parsed_tree(language.grammar, source@), language.comment_node_types@),
        )),
{
    // Parse the source with the language's grammar.
    match parse_bytes(&language.grammar, source) {
        Ok(tree) => {
            // The engine requires node spans within the text, nested and
            // ordered: check it rather than take the parser on faith.
            if !check_wf_node(&tree, source.len()) {
                return Err(
                    StrippingError::LanguageError {
                        message: String::from_str("parser produced an ill-formed tree"),
                    },
                );
            }
            // Strip the source.
            let out = strip_comments(&tree, language, source);
            proof {
                assert(tree == parsed_tree(language.grammar, source@));
                assert(wf_node(tree, source@.len() as nat) && out@ == stripped_text(
                    source@,
                    comment_spans(tree, language.comment_node_types@),
                ));
            }
            Ok(out)
        },
        Err(message) => Err(StrippingError::LanguageError { message }),
    }
}

/// Resolves the language for a path and strips the source: the whole
/// computation of processing one file, between reading the bytes and
/// writing them back. On a path that resolves to a linked grammar whose
/// parse tree is well formed, it succeeds and returns exactly the stripped
/// text of that tree; each error arises exactly from the failing step.
pub fn process_source(
    path: &str,
    type_hints: &TypeHints,
    languages: &Vec<LanguageDefinition>,
    source: &Vec<u8>,
) -> (r: Result<Vec<u8>, StrippingError>)
    ensures
        spec_hint_selection(type_hints@, languages@, path@) is None && candidate_indices(
            languages@,
            path@,
        ).len() == 0 ==> (r matches Err(e) && e matches StrippingError::NoStripperFound { path: p }
            && p@ == path@),
        spec_hint_selection(type_hints@, languages@, path@) is None && candidate_indices(
            languages@,
            path@,
        ).len() > 1 ==> (r matches Err(e) && e matches StrippingError::MultipleStrippersFound {
            path: p,
            suggestion: sg,
        } && p@ == path@ && sg@ == spec_suggestion(languages@, path@)),
        resolved_language(type_hints@, languages@, path@) is None ==> r is Err,
        resolved_language(type_hints@, languages@, path@) matches Some(k) && !grammar_available(
            languages@[k].grammar,
        ) ==> (r matches Err(e) && e matches StrippingError::LanguageError { .. }),
        r matches Ok(out) ==> count_newlines(out@) == count_newlines(source@),
        r matches Ok(out) ==> (resolved_language(type_hints@, languages@, path@) matches Some(k)
            && 0 <= k < languages@.len() && out@ == stripped_text(
            source@,
            comment_spans(
                parsed_tree(languages@[k].grammar, source@),
                languages@[k].comment_node_types@,
            ),
        )),
        resolved_language(type_hints@, languages@, path@) matches Some(k) ==> ((
        grammar_available(languages@[k].grammar) && wf_node(
            parsed_tree(languages@[k].grammar, source@),
            source@.len() as nat,
        )) ==> (r matches Ok(out) && out@ == stripped_text(
            source@,
            comment_spans(
                parsed_tree(languages@[k].grammar, source@),
                languages@[k].comment_node_types@,
            ),
        ))),
{
    let res = identify_language(path, type_hints, languages);
    let ghost gres = res;
    let language = match res {
        Ok(l) => l,
        Err(e) => {
            return Err(e);
        },
    };
    let ghost k: int = match spec_hint_selection(type_hints@, languages@, path@) {
        Some(kk) => kk,
        None => candidate_indices(languages@, path@)[0],
    };
    proof {
        lemma_candidate_indices_bounds(languages@, path@);
        if spec_hint_selection(type_hints@, languages@, path@) matches Some(kk) {
            let h = last_applicable_hint(type_hints@, path@);
            lemma_first_language_named_range(languages@, type_hints@[h].language@);
        }
        assert(gres matches Ok(l0) && l0 == language);
        if spec_hint_selection(type_hints@, languages@, path@) is None {
            let c = candidate_indices(languages@, path@);
            if c.len() == 0 {
                assert(gres is Err);
            }
            if c.len() > 1 {
                assert(gres is Err);
            }
            assert(c.len() == 1);
        }
        assert(0 <= k < languages@.len() && *language == languages@[k]);
    }
    proof {
        assert(resolved_language(type_hints@, languages@, path@) == Some(k));
    }
    let r = strip_file(language, source);
    proof {
        assert(language.grammar == languages@[k].grammar);
        assert(language.comment_node_types@ == languages@[k].comment_node_types@);
    }
    r
}


/// Whether `dir` is a whole-component prefix of the `/`-separated `path`:
/// `dir`'s text starts the path and ends exactly at a component boundary.
pub open spec fn spec_is_path_prefix(dir: Seq<char>, path: Seq<char>) -> bool {
    &&& dir.len() <= path.len()
    &&& path.subrange(0, dir.len() as int) == dir
    &&& (dir.len() == path.len() || path[dir.len() as int] == '/' || (dir.len() > 0 && dir.last()
        == '/'))
}

/// The part of `path` below `dir`, without a leading separator.
pub open spec fn spec_relative_part(dir: Seq<char>, path: Seq<char>) -> Seq<char> {
    if dir.len() < path.len() && path[dir.len() as int] == '/' {
        path.skip(dir.len() as int + 1)
    } else {
        path.skip(dir.len() as int)
    }
}

/// Where the stripped form of `path` is written: `output_dir` joined with
/// the path of the file relative to `input_dir`, preserving the relative
/// path exactly; nothing, when the file does not lie under `input_dir`.
pub open spec fn spec_output_path(path: Seq<char>, input_dir: Seq<char>, output_dir: Seq<char>) -> Option<
    Seq<char>,
> {
    if !spec_is_path_prefix(input_dir, path) {
        None
    } else {
        let rel = spec_relative_part(input_dir, path);
        if output_dir.len() > 0 && output_dir.last() == '/' {
            Some(output_dir + rel)
        } else {
            Some(output_dir + "/"@ + rel)
        }
    }
}

/// Computes the path a stripped file is written to. The file must lie
/// under the input directory; its relative path below it reappears under
/// the output directory.
pub fn output_path(path: &str, input_dir: &str, output_dir: &str) -> (r: Option<String>)
    ensures
        match spec_output_path(path@, input_dir@, output_dir@) {
            Some(o) => r matches Some(s) && s@ == o,
            None => r is None,
        },
{
    let pc = str_chars(path);
    let dc = str_chars(input_dir);
    if pc.len() < dc.len() {
        return None;
    }
    let mut i: usize = 0;
    while i < dc.len()
        invariant
            i <= dc@.len() <= pc@.len(),
            pc@ == path@,
            dc@ == input_dir@,
            forall|j: int| 0 <= j < i ==> pc@[j] == dc@[j],
        decreases dc@.len() - i,
    {
        if pc[i] != dc[i] {
            proof {
                assert(path@.subrange(0, dc@.len() as int)[i as int] == path@[i as int]);
                assert(path@.subrange(0, dc@.len() as int) != input_dir@);
            }
            return None;
        }
        i += 1;
    }
    proof {
        assert(path@.subrange(0, dc@.len() as int) =~= input_dir@);
    }
    let boundary: bool = dc.len() == pc.len() || pc[dc.len()] == '/' || (dc.len() > 0 && dc[dc.len()
        - 1] == '/');
    if !boundary {
        return None;
    }
    let start: usize = if dc.len() < pc.len() && pc[dc.len()] == '/' {
        dc.len() + 1
    } else {
        dc.len()
    };
    let rel = vec_suffix(&pc, start);
    let oc = str_chars(output_dir);
    let mut out = String::from_str(output_dir);
    if !(oc.len() > 0 && oc[oc.len() - 1] == '/') {
        out.append("/");
    }
    let rel_text = chars_to_string(&rel);
    out.append(rel_text.as_str());
    proof {
        assert(rel@ == spec_relative_part(input_dir@, path@));
    }
    Some(out)
}

/// Number of `Ok` outcomes among per-file results.
pub open spec fn count_ok<T>(results: Seq<Result<T, StrippingError>>) -> nat
    decreases results,
{
    if results.len() == 0 {
        0
    } else {
        count_ok(results.drop_last()) + if results.last() is Ok {
            1nat
        } else {
            0nat
        }
    }
}

/// The stripping result of a single job as job counters: one job, passed
/// or not.
pub fn report_result<T>(result: &Result<T, StrippingError>) -> (r: (i32, i32))
    ensures
        r.0 == 1,
        r.1 == if result is Ok {
            1int
        } else {
            0int
        },
{
    match result {
        Ok(_) => (1, 1),
        Err(_) => (1, 0),
    }
}

/// What combining job counters means: totals and passes add up.
pub open spec fn spec_combine_counts(a: (int, int), b: (int, int)) -> (int, int) {
    (a.0 + b.0, a.1 + b.1)
}

/// Combining job counters is associative and commutative, so the batch
/// total does not depend on the order in which jobs complete.
pub proof fn lemma_combine_counts_assoc_comm(a: (int, int), b: (int, int), c: (int, int))
    ensures
        spec_combine_counts(a, b) == spec_combine_counts(b, a),
        spec_combine_counts(spec_combine_counts(a, b), c) == spec_combine_counts(
            a,
            spec_combine_counts(b, c),
        ),
{
}

/// The reduction over job counters.
pub fn combine_counts(a: (i32, i32), b: (i32, i32)) -> (r: (i32, i32))
    requires
        0 <= a.0 && 0 <= a.1 && 0 <= b.0 && 0 <= b.1,
        a.0 + b.0 <= i32::MAX,
        a.1 + b.1 <= i32::MAX,
    ensures
        (r.0 as int, r.1 as int) == spec_combine_counts((a.0 as int, a.1 as int), (b.0 as int, b.1 as int)),
{
    (a.0 + b.0, a.1 + b.1)
}

/// Aggregates per-file results into `(total, passed)`. One file's failure
/// never aborts the batch; it is counted.
pub fn tally_results<T>(results: &Vec<Result<T, StrippingError>>) -> (r: (usize, usize))
    ensures
        r.0 == results@.len(),
        r.1 == count_ok(results@),
{
    let mut passed: usize = 0;
    let mut i: usize = 0;
    proof {
        assert(results@.subrange(0, 0).len() == 0);
    }
    while i < results.len()
        invariant
            i <= results@.len(),
            passed == count_ok(results@.subrange(0, i as int)),
            passed <= i,
        decreases results@.len() - i,
    {
        let ghost pre = results@.subrange(0, i as int);
        let ghost post = results@.subrange(0, i as int + 1);
        proof {
            assert(post.drop_last() =~= pre);
            assert(post.last() == results@[i as int]);
        }
        if results[i].is_ok() {
            passed += 1;
        }
        i += 1;
    }
    proof {
        assert(results@.subrange(0, results@.len() as int) =~= results@);
    }
    (results.len(), passed)
}

/// Number of failed jobs in a batch: what the process reports as its exit
/// status, so success is machine-checkable without parsing logs.
pub fn failed_jobs(total: usize, passed: usize) -> (r: usize)
    requires
        passed <= total,
    ensures
        r == total - passed,
{
    total - passed
}

} // verus!

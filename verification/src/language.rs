//! Language tags: which syntax a file is shown with, decided by the extension
//! of its name.

use crate::path::{
    chars_of, component_end, dot_segment_ends_at, extension, file_name, file_name_bounds,
    find_file_name, is_separator, last_dot, lemma_component_end, lemma_run_start, parent_marker,
    path_extension, run_start,
};
use vstd::prelude::*;

verus! {

/// An upper-case ASCII letter becomes its lower-case form; every other
/// character stays.
pub open spec fn ascii_lower(c: char) -> char {
    if 'A' <= c && c <= 'Z' {
        ((c as u8 + 32) as u8) as char
    } else {
        c
    }
}

/// `s` with each character folded by `ascii_lower`.
pub open spec fn lowercase(s: Seq<char>) -> Seq<char> {
    Seq::new(s.len(), |i: int| ascii_lower(s[i]))
}

/// The tag of a file whose extension tells nothing.
pub open spec fn default_tag() -> Seq<char> {
    "text"@
}

/// The extensions that are recognised, in lower case, each with its tag.
pub open spec fn language_table() -> Seq<(Seq<char>, Seq<char>)> {
    seq![
        ("js"@, "javascript"@),
        ("mjs"@, "javascript"@),
        ("cjs"@, "javascript"@),
        ("ts"@, "typescript"@),
        ("jsx"@, "jsx"@),
        ("tsx"@, "tsx"@),
        ("py"@, "python"@),
        ("rs"@, "rust"@),
        ("html"@, "html"@),
        ("htm"@, "html"@),
        ("css"@, "css"@),
        ("scss"@, "css"@),
        ("less"@, "css"@),
        ("json"@, "json"@),
        ("jsonc"@, "json"@),
        ("yaml"@, "yaml"@),
        ("yml"@, "yaml"@),
        ("md"@, "markdown"@),
        ("mdx"@, "markdown"@),
        ("cpp"@, "cpp"@),
        ("cc"@, "cpp"@),
        ("cxx"@, "cpp"@),
        ("c++"@, "cpp"@),
        ("c"@, "c"@),
        ("h"@, "c"@),
        ("java"@, "java"@),
        ("sql"@, "sql"@),
        ("xml"@, "xml"@),
        ("svg"@, "xml"@),
        ("sh"@, "shell"@),
        ("bash"@, "shell"@),
        ("zsh"@, "shell"@),
        ("go"@, "go"@),
        ("rb"@, "ruby"@),
        ("php"@, "php"@),
        ("toml"@, "toml"@),
    ]
}

/// The tag of the first entry of `table` at or after `from` whose extension
/// is `key`, or the default tag when there is none.
pub open spec fn lookup(table: Seq<(Seq<char>, Seq<char>)>, key: Seq<char>, from: int) -> Seq<char>
    decreases table.len() - from,
{
    if from < 0 || from >= table.len() {
        default_tag()
    } else if table[from].0 == key {
        table[from].1
    } else {
        lookup(table, key, from + 1)
    }
}

/// Whether `key` is one of the extensions of the table.
pub open spec fn recognized(key: Seq<char>) -> bool {
    exists|i: int| 0 <= i < language_table().len() && #[trigger] language_table()[i].0 == key
}

/// The tag for an extension, whatever the case of its letters.
pub open spec fn tag_for(ext: Seq<char>) -> Seq<char> {
    lookup(language_table(), lowercase(ext), 0)
}

/// The language tag of the file that `p` names.
pub open spec fn language_of(p: Seq<char>) -> Seq<char> {
    match path_extension(p) {
        Some(ext) => tag_for(ext),
        None => default_tag(),
    }
}

/// Whether two paths differ at most in the case of their ASCII letters.
pub open spec fn same_ignoring_case(p: Seq<char>, q: Seq<char>) -> bool {
    &&& p.len() == q.len()
    &&& forall|i: int| 0 <= i < p.len() ==> ascii_lower(#[trigger] p[i]) == ascii_lower(q[i])
}

/// Folding leaves the separator and the dot alone, and folds nothing onto them.
pub proof fn lemma_fold_keeps_marks(a: char, b: char)
    requires
        ascii_lower(a) == ascii_lower(b),
    ensures
        is_separator(a) == is_separator(b),
        (a == '.') == (b == '.'),
{
}

proof fn lemma_same_component_end(p: Seq<char>, q: Seq<char>, end: int)
    requires
        same_ignoring_case(p, q),
        0 <= end <= p.len(),
    ensures
        component_end(p, end) == component_end(q, end),
    decreases end,
{
    if end > 0 {
        lemma_fold_keeps_marks(p[end - 1], q[end - 1]);
        if end > 1 {
            lemma_fold_keeps_marks(p[end - 2], q[end - 2]);
        }
        assert(dot_segment_ends_at(p, end) == dot_segment_ends_at(q, end));
        lemma_same_component_end(p, q, end - 1);
    }
}

proof fn lemma_same_run_start(p: Seq<char>, q: Seq<char>, end: int)
    requires
        same_ignoring_case(p, q),
        0 <= end <= p.len(),
    ensures
        run_start(p, end) == run_start(q, end),
    decreases end,
{
    if end > 0 {
        lemma_fold_keeps_marks(p[end - 1], q[end - 1]);
        lemma_same_run_start(p, q, end - 1);
    }
}

proof fn lemma_same_last_dot(a: Seq<char>, b: Seq<char>, end: int)
    requires
        same_ignoring_case(a, b),
        0 <= end <= a.len(),
    ensures
        last_dot(a, end) == last_dot(b, end),
        -1 <= last_dot(a, end) < end || end == 0,
    decreases end,
{
    if end > 0 {
        lemma_fold_keeps_marks(a[end - 1], b[end - 1]);
        lemma_same_last_dot(a, b, end - 1);
    }
}

/// The tag does not depend on the case of the letters of a path: two paths
/// that differ in nothing else have the same tag.
pub proof fn lemma_tag_ignores_case(p: Seq<char>, q: Seq<char>)
    requires
        same_ignoring_case(p, q),
    ensures
        language_of(p) == language_of(q),
{
    let n = p.len() as int;
    lemma_same_component_end(p, q, n);
    lemma_component_end(p, n);
    let end = component_end(p, n);
    lemma_same_run_start(p, q, end);
    lemma_run_start(p, end);
    let start = run_start(p, end);
    let a = p.subrange(start, end);
    let b = q.subrange(start, end);
    assert(same_ignoring_case(a, b)) by {
        assert forall|i: int| 0 <= i < a.len() implies ascii_lower(#[trigger] a[i]) == ascii_lower(
            b[i],
        ) by {
            assert(a[i] == p[start + i]);
        }
    }
    assert((a == parent_marker()) == (b == parent_marker())) by {
        if a.len() == 2 {
            lemma_fold_keeps_marks(a[0], b[0]);
            lemma_fold_keeps_marks(a[1], b[1]);
            if a == parent_marker() {
                assert(b =~= parent_marker());
            }
            if b == parent_marker() {
                assert(a =~= parent_marker());
            }
        }
    }
    if file_name_bounds(p) is Some {
        assert(file_name(p) == Some(a));
        assert(file_name(q) == Some(b));
        lemma_same_last_dot(a, b, a.len() as int);
        let dot = last_dot(a, a.len() as int);
        if dot >= 0 {
            let x = a.subrange(dot + 1, a.len() as int);
            let y = b.subrange(dot + 1, b.len() as int);
            assert(lowercase(x) =~= lowercase(y)) by {
                assert forall|i: int| 0 <= i < x.len() implies lowercase(x)[i] == lowercase(
                    y,
                )[i] by {
                    assert(x[i] == a[dot + 1 + i]);
                    assert(y[i] == b[dot + 1 + i]);
                }
            }
        }
    }
}

/// The tag of a path that ends with a separator, a stem, a dot and an
/// extension is the tag for that extension.
pub proof fn lemma_tag_of_joined(dir: Seq<char>, stem: Seq<char>, ext: Seq<char>)
    requires
        crate::path::is_plain_name(stem + seq!['.'] + ext),
        crate::path::dot_free(ext),
    ensures
        language_of(dir + seq!['/'] + (stem + seq!['.'] + ext)) == tag_for(ext),
        language_of(stem + seq!['.'] + ext) == tag_for(ext),
{
    crate::path::lemma_file_name_of_joined(dir, stem + seq!['.'] + ext);
    crate::path::lemma_extension_of_joined(stem, ext);
}

/// A key that no entry from `from` on holds is looked up in vain.
pub proof fn lemma_lookup_miss(table: Seq<(Seq<char>, Seq<char>)>, key: Seq<char>, from: int)
    requires
        0 <= from,
        forall|i: int| from <= i < table.len() ==> (#[trigger] table[i]).0 != key,
    ensures
        lookup(table, key, from) == default_tag(),
    decreases table.len() - from,
{
    if from < table.len() {
        lemma_lookup_miss(table, key, from + 1);
    }
}

/// A path whose file has no extension, or one that the table does not hold,
/// is plain text.
pub proof fn lemma_unrecognized_is_text(p: Seq<char>)
    requires
        match path_extension(p) {
            Some(ext) => !recognized(lowercase(ext)),
            None => true,
        },
    ensures
        language_of(p) == default_tag(),
{
    if let Some(ext) = path_extension(p) {
        lemma_lookup_miss(language_table(), lowercase(ext), 0);
    }
}

/// Every tag is the default tag or stands in the table.
pub proof fn lemma_tag_is_known(p: Seq<char>)
    ensures
        language_of(p) == default_tag() || exists|i: int|
            0 <= i < language_table().len() && (#[trigger] language_table()[i]).1 == language_of(p),
{
    if let Some(ext) = path_extension(p) {
        lemma_lookup_hit(language_table(), lowercase(ext), 0);
    }
}

/// No tag is empty.
pub proof fn lemma_tag_not_empty(p: Seq<char>)
    ensures
        language_of(p).len() > 0,
{
    reveal_strlit("text");
    reveal_strlit("javascript");
    reveal_strlit("typescript");
    reveal_strlit("jsx");
    reveal_strlit("tsx");
    reveal_strlit("python");
    reveal_strlit("rust");
    reveal_strlit("html");
    reveal_strlit("css");
    reveal_strlit("json");
    reveal_strlit("yaml");
    reveal_strlit("markdown");
    reveal_strlit("cpp");
    reveal_strlit("c");
    reveal_strlit("java");
    reveal_strlit("sql");
    reveal_strlit("xml");
    reveal_strlit("shell");
    reveal_strlit("go");
    reveal_strlit("ruby");
    reveal_strlit("php");
    reveal_strlit("toml");
    lemma_tag_is_known(p);
    assert forall|i: int| 0 <= i < language_table().len() implies (#[trigger] language_table()[i]).1.len()
        > 0 by {}
}

proof fn lemma_lookup_hit(table: Seq<(Seq<char>, Seq<char>)>, key: Seq<char>, from: int)
    requires
        0 <= from,
    ensures
        lookup(table, key, from) == default_tag() || exists|i: int|
            0 <= i < table.len() && (#[trigger] table[i]).1 == lookup(table, key, from),
    decreases table.len() - from,
{
    if from < table.len() {
        if table[from].0 != key {
            lemma_lookup_hit(table, key, from + 1);
        }
    }
}

/// Folds one character to lower case.
pub fn to_ascii_lower(c: char) -> (r: char)
    ensures
        r == ascii_lower(c),
{
    if 'A' <= c && c <= 'Z' {
        ((c as u8) + 32) as char
    } else {
        c
    }
}

/// The table of recognised extensions.
fn table_entries() -> (t: Vec<(&'static str, &'static str)>)
    ensures
        t@.len() == language_table().len(),
        forall|i: int|
            0 <= i < t@.len() ==> (#[trigger] t@[i]).0@ == language_table()[i].0 && t@[i].1@
                == language_table()[i].1,
{
    let t = vec![
        ("js", "javascript"),
        ("mjs", "javascript"),
        ("cjs", "javascript"),
        ("ts", "typescript"),
        ("jsx", "jsx"),
        ("tsx", "tsx"),
        ("py", "python"),
        ("rs", "rust"),
        ("html", "html"),
        ("htm", "html"),
        ("css", "css"),
        ("scss", "css"),
        ("less", "css"),
        ("json", "json"),
        ("jsonc", "json"),
        ("yaml", "yaml"),
        ("yml", "yaml"),
        ("md", "markdown"),
        ("mdx", "markdown"),
        ("cpp", "cpp"),
        ("cc", "cpp"),
        ("cxx", "cpp"),
        ("c++", "cpp"),
        ("c", "c"),
        ("h", "c"),
        ("java", "java"),
        ("sql", "sql"),
        ("xml", "xml"),
        ("svg", "xml"),
        ("sh", "shell"),
        ("bash", "shell"),
        ("zsh", "shell"),
        ("go", "go"),
        ("rb", "ruby"),
        ("php", "php"),
        ("toml", "toml"),
    ];
    t
}

/// Whether the characters of `cs` between `from` and `to`, folded to lower
/// case, spell `word`.
fn folds_to(cs: &Vec<char>, from: usize, to: usize, word: &str) -> (r: bool)
    requires
        from <= to <= cs@.len(),
    ensures
        r == (lowercase(cs@.subrange(from as int, to as int)) == word@),
{
    let ghost part = cs@.subrange(from as int, to as int);
    let n = word.unicode_len();
    if to - from != n {
        return false;
    }
    let mut i: usize = 0;
    while i < n
        invariant
            i <= n,
            n == word@.len(),
            n == to - from,
            to <= cs@.len(),
            part == cs@.subrange(from as int, to as int),
            forall|k: int| 0 <= k < i ==> lowercase(part)[k] == word@[k],
        decreases n - i,
    {
        if to_ascii_lower(cs[from + i]) != word.get_char(i) {
            assert(lowercase(part)[i as int] != word@[i as int]);
            return false;
        }
        i = i + 1;
    }
    assert(lowercase(part) =~= word@);
    true
}

/// The language tag for the file that `path` names: its extension is looked
/// up without regard to case, and a file with no extension, or with one that
/// is not recognised, is plain text.
pub fn detect_language(path: &str) -> (tag: &'static str)
    ensures
        tag@ == language_of(path@),
{
    let cs = chars_of(path);
    let (start, end) = match find_file_name(&cs) {
        Some(bounds) => bounds,
        None => { return "text"; },
    };
    let ghost name = cs@.subrange(start as int, end as int);
    let mut dot: usize = end;
    while dot > start && cs[dot - 1] != '.'
        invariant
            start <= dot <= end <= cs@.len(),
            name == cs@.subrange(start as int, end as int),
            last_dot(name, dot - start) == last_dot(name, name.len() as int),
        decreases dot,
    {
        dot = dot - 1;
    }
    if dot <= start {
        return "text";
    }
    let ghost ext = name.subrange(dot - start, name.len() as int);
    assert(ext =~= cs@.subrange(dot as int, end as int));
    assert(language_of(path@) == tag_for(ext));
    let table = table_entries();
    let mut i: usize = 0;
    while i < table.len()
        invariant
            i <= table@.len(),
            dot <= end <= cs@.len(),
            ext == cs@.subrange(dot as int, end as int),
            table@.len() == language_table().len(),
            forall|j: int|
                0 <= j < table@.len() ==> (#[trigger] table@[j]).0@ == language_table()[j].0
                    && table@[j].1@ == language_table()[j].1,
            lookup(language_table(), lowercase(ext), i as int) == language_of(path@),
        decreases table@.len() - i,
    {
        let entry = table[i];
        assert(entry == table@[i as int]);
        if folds_to(&cs, dot, end, entry.0) {
            assert(language_table()[i as int].0 == lowercase(ext));
            return entry.1;
        }
        i = i + 1;
    }
    "text"
}

} // verus!

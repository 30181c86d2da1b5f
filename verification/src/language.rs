//! The language of a file, told from its name.

use crate::outside;
use crate::text;
use vstd::prelude::*;

verus! {

/// A language that the editor knows.
#[derive(Clone, Copy, PartialEq, Eq, Debug, Structural)]
pub enum Language {
    PlainText,
    Python,
    C,
    Rust,
    Shell,
}

/// Where `c` stands last in `s`; -1 if nowhere.
pub open spec fn last_index(s: Seq<char>, c: char) -> int
    decreases s.len(),
{
    if s.len() == 0 || s.last() == c {
        s.len() - 1
    } else {
        last_index(s.drop_last(), c)
    }
}

/// The last name in a path whose names are set off by slashes. Slashes at the end
/// and names `.` behind another name do not count; a path that ends in `..`, or
/// holds nothing but slashes and dots, has none.
pub open spec fn file_name(path: Seq<char>) -> Option<Seq<char>>
    decreases path.len(),
    via file_name_decreases
{
    let start = last_index(path, '/') + 1;
    let name = path.skip(start);
    if path.len() == 0 {
        None
    } else if name.len() == 0 {
        file_name(path.drop_last())
    } else if name == seq!['.'] {
        if start == 0 {
            None
        } else {
            file_name(path.take(start))
        }
    } else if name == seq!['.', '.'] {
        None
    } else {
        Some(name)
    }
}

#[via_fn]
proof fn file_name_decreases(path: Seq<char>) {
    lemma_last_index(path, '/');
}

/// What follows the last dot of a file name, unless that dot is its first character.
pub open spec fn extension(name: Seq<char>) -> Option<Seq<char>> {
    if last_index(name, '.') <= 0 {
        None
    } else {
        Some(name.skip(last_index(name, '.') + 1))
    }
}

/// An ASCII capital as its small letter, any other character as it is.
pub open spec fn lower(c: char) -> char {
    if 'A' <= c && c <= 'Z' {
        (c as u32 + 32) as char
    } else {
        c
    }
}

/// A text with its ASCII capitals made small.
pub open spec fn lowered(s: Seq<char>) -> Seq<char> {
    s.map_values(|c: char| lower(c))
}

/// The extension of the file that a path names.
pub open spec fn file_extension(path: Seq<char>) -> Option<Seq<char>> {
    match file_name(path) {
        Some(name) => extension(name),
        None => None,
    }
}

/// A path that means the same on every platform: none takes a part of it for a drive
/// or a host, and only slashes set its names off.
pub open spec fn portable(path: Seq<char>) -> bool {
    &&& !path.contains('\\')
    &&& !path.contains(':')
    &&& !(path.len() >= 2 && path[0] == '/' && path[1] == '/')
}

/// `ext` stands in `path` behind a dot that does not start it, and holds no dot.
pub open spec fn behind_dot(path: Seq<char>, ext: Seq<char>) -> bool {
    &&& !ext.contains('.')
    &&& exists|k: int| 2 <= k && path[k - 1] == '.' && #[trigger] text::occurs_at(path, ext, k)
}

/// `ext` can be the extension of the file that `path` names: what the path means is for
/// the platform to say, unless it is portable.
pub open spec fn extension_fits(path: Seq<char>, ext: Option<Seq<char>>) -> bool {
    &&& portable(path) ==> ext == file_extension(path)
    &&& ext matches Some(e) ==> behind_dot(path, e)
}

/// The language of a file by its extension, in which capitals do not count.
pub open spec fn language_by(ext: Option<Seq<char>>) -> Language {
    match ext {
        Some(e) => language_of(lowered(e)),
        None => Language::PlainText,
    }
}

/// The language of a file by its path.
pub open spec fn is_language(path: Seq<char>, l: Language) -> bool {
    exists|ext: Option<Seq<char>>| #[trigger] extension_fits(path, ext) && l == language_by(ext)
}

/// The language of files with the extension `ext`.
pub open spec fn language_of(ext: Seq<char>) -> Language {
    if ext == "py"@ {
        Language::Python
    } else if ext == "rs"@ {
        Language::Rust
    } else if ext == "c"@ || ext == "h"@ || ext == "cpp"@ || ext == "hpp"@ {
        Language::C
    } else if ext == "sh"@ {
        Language::Shell
    } else {
        Language::PlainText
    }
}

/// What `last_index` is: `c` stands there and nowhere behind it.
pub proof fn lemma_last_index(s: Seq<char>, c: char)
    ensures
        -1 <= last_index(s, c) < s.len(),
        last_index(s, c) >= 0 ==> s[last_index(s, c)] == c,
        forall|i: int| last_index(s, c) < i < s.len() ==> #[trigger] s[i] != c,
    decreases s.len(),
{
    if s.len() > 0 && s.last() != c {
        lemma_last_index(s.drop_last(), c);
        assert forall|i: int| last_index(s, c) < i < s.len() implies #[trigger] s[i] != c by {
            if i < s.len() - 1 {
                assert(s.drop_last()[i] == s[i]);
            }
        }
    }
}

/// A text with its ASCII capitals made small.
pub fn to_lower(s: &str) -> (r: String)
    ensures
        r@ == lowered(s@),
{
    let v = text::to_chars(s);
    let mut out = String::new();
    let mut i: usize = 0;
    while i < v.len()
        invariant
            v@ == s@,
            i <= v@.len(),
            out@ == lowered(s@.take(i as int)),
        decreases v@.len() - i,
    {
        let c = v[i];
        let l = if 'A' <= c && c <= 'Z' {
            let u: u8 = c as u8 + 32;
            u as char
        } else {
            c
        };
        assert(l == lower(c));
        out.push(l);
        assert(out@ =~= lowered(s@.take(i + 1)));
        i = i + 1;
    }
    assert(s@.take(i as int) =~= s@);
    out
}

/// The language of a file with the extension `ext`, if it has one.
pub fn language_for(ext: Option<String>) -> (l: Language)
    ensures
        l == language_by(text::text_of(ext)),
{
    let ext = match ext {
        Some(e) => to_lower(e.as_str()),
        None => {
            return Language::PlainText;
        },
    };
    let ext = ext.as_str();
    if text::same_text(ext, "py") {
        Language::Python
    } else if text::same_text(ext, "rs") {
        Language::Rust
    } else if text::same_text(ext, "c") || text::same_text(ext, "h") || text::same_text(ext, "cpp")
        || text::same_text(ext, "hpp") {
        Language::C
    } else if text::same_text(ext, "sh") {
        Language::Shell
    } else {
        Language::PlainText
    }
}

/// The language of the file named `filename`, by its extension. The extension of a name
/// that is not portable is what the platform takes for it.
pub fn detect_language(filename: &str) -> (l: Language)
    ensures
        is_language(filename@, l),
        portable(filename@) ==> l == language_by(file_extension(filename@)),
{
    let ext = outside::path_extension(filename);
    assert(extension_fits(filename@, text::text_of(ext)));
    language_for(ext)
}

/// A file name stands in its path.
proof fn lemma_file_name_stands(path: Seq<char>) -> (k: int)
    ensures
        file_name(path) matches Some(name) ==> text::occurs_at(path, name, k),
    decreases path.len(),
{
    let start = last_index(path, '/') + 1;
    let name = path.skip(start);
    lemma_last_index(path, '/');
    if path.len() > 0 && name.len() == 0 {
        let k = lemma_file_name_stands(path.drop_last());
        if let Some(n) = file_name(path.drop_last()) {
            assert(path.subrange(k, k + n.len()) =~= path.drop_last().subrange(k, k + n.len()));
        }
        k
    } else if path.len() > 0 && name == seq!['.'] && start > 0 {
        let k = lemma_file_name_stands(path.take(start));
        if let Some(n) = file_name(path.take(start)) {
            assert(path.subrange(k, k + n.len()) =~= path.take(start).subrange(k, k + n.len()));
        }
        k
    } else {
        assert(path.subrange(start, start + name.len()) =~= name);
        start
    }
}

/// The extension of a file stands in its path behind a dot that does not start it, and
/// holds no dot.
pub proof fn law_extension_behind_dot(path: Seq<char>)
    ensures
        file_extension(path) matches Some(e) ==> behind_dot(path, e),
{
    let at = lemma_file_name_stands(path);
    if let Some(e) = file_extension(path) {
        let name = file_name(path)->0;
        let dot = last_index(name, '.');
        lemma_last_index(name, '.');
        assert forall|i: int| 0 <= i < e.len() implies #[trigger] e[i] != '.' by {
            assert(e[i] == name[dot + 1 + i]);
        }
        let k = at + dot + 1;
        assert(path.subrange(at, at + name.len())[dot] == path[k - 1]);
        assert(path.subrange(k, k + e.len()) =~= path.subrange(at, at + name.len()).skip(dot + 1));
        assert(text::occurs_at(path, e, k));
    }
}

proof fn lemma_lowered_last_index(s: Seq<char>, c: char)
    requires
        c == '/' || c == '.',
    ensures
        last_index(lowered(s), c) == last_index(s, c),
    decreases s.len(),
{
    if s.len() > 0 {
        assert(lowered(s).drop_last() =~= lowered(s.drop_last()));
        lemma_lowered_last_index(s.drop_last(), c);
        assert(lowered(s).last() == lower(s.last()));
        text::lemma_char_range(s.last());
    }
}

proof fn lemma_lowered_file_name(path: Seq<char>)
    ensures
        file_name(lowered(path)) == match file_name(path) {
            Some(name) => Some(lowered(name)),
            None => None,
        },
    decreases path.len(),
{
    let low = lowered(path);
    let start = last_index(path, '/') + 1;
    let name = path.skip(start);
    lemma_lowered_last_index(path, '/');
    lemma_last_index(path, '/');
    assert(low.skip(start) =~= lowered(name));
    if path.len() > 0 {
        assert(name == seq!['.'] <==> lowered(name) == seq!['.']) by {
            lemma_lowered_dots(name);
        }
        assert(name == seq!['.', '.'] <==> lowered(name) == seq!['.', '.']) by {
            lemma_lowered_dots(name);
        }
        if name.len() == 0 {
            assert(low.drop_last() =~= lowered(path.drop_last()));
            lemma_lowered_file_name(path.drop_last());
        } else if name == seq!['.'] && start > 0 {
            assert(low.take(start) =~= lowered(path.take(start)));
            lemma_lowered_file_name(path.take(start));
        }
    }
}

proof fn lemma_lowered_dots(name: Seq<char>)
    ensures
        name == seq!['.'] <==> lowered(name) == seq!['.'],
        name == seq!['.', '.'] <==> lowered(name) == seq!['.', '.'],
{
    let low = lowered(name);
    assert(low.len() == name.len());
    assert forall|i: int| 0 <= i < name.len() implies (#[trigger] name[i] == '.' <==> low[i]
        == '.') by {
        text::lemma_char_range(name[i]);
        assert(low[i] == lower(name[i]));
    }
    if name.len() == 1 && name[0] == '.' {
        assert(name =~= seq!['.']);
        assert(low =~= seq!['.']);
    }
    if name.len() == 2 && name[0] == '.' && name[1] == '.' {
        assert(name =~= seq!['.', '.']);
        assert(low =~= seq!['.', '.']);
    }
    if low == seq!['.'] {
        assert(low[0] == '.');
        assert(name[0] == '.');
    }
    if low == seq!['.', '.'] {
        assert(low[0] == '.' && low[1] == '.');
        assert(name[0] == '.' && name[1] == '.');
    }
}

proof fn lemma_lower_once(c: char)
    ensures
        lower(lower(c)) == lower(c),
{
}

/// Capitals in a file name do not count: the language is that of the name in small
/// letters.
pub proof fn law_language_ignores_case(path: Seq<char>)
    requires
        portable(path),
    ensures
        portable(lowered(path)),
        language_by(file_extension(lowered(path))) == language_by(file_extension(path)),
{
    lemma_lowered_file_name(path);
    if let Some(name) = file_name(path) {
        lemma_lowered_last_index(name, '.');
        lemma_last_index(name, '.');
        if last_index(name, '.') > 0 {
            let ext = name.skip(last_index(name, '.') + 1);
            assert(lowered(name).skip(last_index(name, '.') + 1) =~= lowered(ext));
            assert(lowered(lowered(ext)) =~= lowered(ext)) by {
                assert forall|i: int| 0 <= i < ext.len() implies #[trigger] lowered(lowered(ext))[i]
                    == lowered(ext)[i] by {
                    lemma_lower_once(ext[i]);
                }
            }
        }
    }
}

} // verus!

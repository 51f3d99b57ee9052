//! How the explorer and the editor view present text: file icons and the
//! coarse syntax class of a line.

use vstd::prelude::*;

use crate::text::{chars_equal, chars_of, prefixed, prefixed_str, starts_with, trim_chars, trimmed};

verus! {

/// The part of a file name after its last `.`, or the whole name if it has
/// none.
pub open spec fn extension_of(name: Seq<char>) -> Seq<char> {
    if exists|i: int| 0 <= i < name.len() && name[i] == '.' {
        let i = choose|i: int|
            0 <= i < name.len() && name[i] == '.' && forall|k: int| i < k < name.len() ==> name[k] != '.';
        name.skip(i + 1)
    } else {
        name
    }
}

/// The icon of a file with the given extension.
pub open spec fn icon_for(ext: Seq<char>) -> Seq<char> {
    if ext == "kt"@ || ext == "kts"@ {
        "🇰"@
    } else if ext == "java"@ {
        "☕"@
    } else if ext == "rs"@ {
        "🦀"@
    } else if ext == "py"@ {
        "🐍"@
    } else if ext == "js"@ {
        "📜"@
    } else if ext == "ts"@ || ext == "tsx"@ {
        "🔷"@
    } else if ext == "json"@ {
        "{ }"@
    } else if ext == "xml"@ {
        "📋"@
    } else if ext == "md"@ {
        "📝"@
    } else if ext == "yml"@ || ext == "yaml"@ || ext == "toml"@ {
        "⚙️"@
    } else if ext == "gradle"@ || ext == "groovy"@ {
        "🐘"@
    } else if ext == "sh"@ || ext == "bash"@ || ext == "zsh"@ {
        "🐚"@
    } else if ext == "sql"@ {
        "🗃️"@
    } else if ext == "html"@ || ext == "htm"@ {
        "🌐"@
    } else if ext == "css"@ || ext == "scss"@ {
        "🎨"@
    } else if ext == "png"@ || ext == "jpg"@ || ext == "svg"@ || ext == "gif"@ {
        "🖼️"@
    } else if ext == "lock"@ {
        "🔒"@
    } else if ext == "properties"@ {
        "🔧"@
    } else {
        "📄"@
    }
}

fn is_text(chars: &Vec<char>, s: &str) -> (r: bool)
    ensures
        r == (chars@ == s@),
{
    let t = chars_of(s);
    chars_equal(chars, &t)
}

fn last_dot(chars: &Vec<char>) -> (r: Option<usize>)
    ensures
        match r {
            Some(i) => i < chars@.len() && chars@[i as int] == '.' && forall|k: int|
                i < k < chars@.len() ==> chars@[k] != '.',
            None => forall|k: int| 0 <= k < chars@.len() ==> chars@[k] != '.',
        },
{
    let mut i: usize = chars.len();
    while i > 0
        invariant
            i <= chars@.len(),
            forall|k: int| i <= k < chars@.len() ==> chars@[k] != '.',
        decreases i,
    {
        if chars[i - 1] == '.' {
            return Some(i - 1);
        }
        i = i - 1;
    }
    None
}

/// The explorer icon of an entry: an open or closed folder for a
/// directory, else the icon of the file's extension.
pub fn file_icon(name: &str, is_dir: bool, expanded: bool) -> (r: &'static str)
    ensures
        r@ == (if is_dir {
            if expanded {
                "📂"@
            } else {
                "📁"@
            }
        } else {
            icon_for(extension_of(name@))
        }),
{
    if is_dir {
        return if expanded {
            "📂"
        } else {
            "📁"
        };
    }
    let chars = chars_of(name);
    let mut ext: Vec<char> = Vec::new();
    let start = match last_dot(&chars) {
        Some(i) => {
            assert(i < chars.len());
            i + 1
        },
        None => 0,
    };
    let mut k: usize = start;
    while k < chars.len()
        invariant
            start <= k <= chars@.len(),
            ext@ == chars@.subrange(start as int, k as int),
        decreases chars@.len() - k,
    {
        ext.push(chars[k]);
        k = k + 1;
    }
    assert(ext@ == extension_of(name@)) by {
        if exists|i: int| 0 <= i < chars@.len() && chars@[i] == '.' {
            let i = choose|i: int|
                0 <= i < chars@.len() && chars@[i] == '.' && forall|j: int|
                    i < j < chars@.len() ==> chars@[j] != '.';
            assert(i + 1 == start) by {
                if i + 1 < start {
                    assert(chars@[start - 1] == '.');
                } else if i + 1 > start {
                    assert(chars@[i] != '.');
                }
            }
            assert(ext@ =~= chars@.skip(i + 1));
        } else {
            assert(start == 0);
            assert(ext@ =~= chars@);
        }
    }
    if is_text(&ext, "kt") || is_text(&ext, "kts") {
        "🇰"
    } else if is_text(&ext, "java") {
        "☕"
    } else if is_text(&ext, "rs") {
        "🦀"
    } else if is_text(&ext, "py") {
        "🐍"
    } else if is_text(&ext, "js") {
        "📜"
    } else if is_text(&ext, "ts") || is_text(&ext, "tsx") {
        "🔷"
    } else if is_text(&ext, "json") {
        "{ }"
    } else if is_text(&ext, "xml") {
        "📋"
    } else if is_text(&ext, "md") {
        "📝"
    } else if is_text(&ext, "yml") || is_text(&ext, "yaml") || is_text(&ext, "toml") {
        "⚙️"
    } else if is_text(&ext, "gradle") || is_text(&ext, "groovy") {
        "🐘"
    } else if is_text(&ext, "sh") || is_text(&ext, "bash") || is_text(&ext, "zsh") {
        "🐚"
    } else if is_text(&ext, "sql") {
        "🗃️"
    } else if is_text(&ext, "html") || is_text(&ext, "htm") {
        "🌐"
    } else if is_text(&ext, "css") || is_text(&ext, "scss") {
        "🎨"
    } else if is_text(&ext, "png") || is_text(&ext, "jpg") || is_text(&ext, "svg") || is_text(
        &ext,
        "gif",
    ) {
        "🖼️"
    } else if is_text(&ext, "lock") {
        "🔒"
    } else if is_text(&ext, "properties") {
        "🔧"
    } else {
        "📄"
    }
}

/// The coarse syntax class of a line, which picks its color.
#[derive(Debug, Clone, Copy, PartialEq, Eq, Structural)]
pub enum SyntaxClass {
    Comment,
    StringLiteral,
    Import,
    Annotation,
    Keyword,
    Plain,
}

/// The words that start a line of source code and mark it as a
/// declaration or a statement keyword.
pub open spec fn keywords() -> Seq<Seq<char>> {
    seq![
        "fun "@,
        "fn "@,
        "func "@,
        "def "@,
        "class "@,
        "struct "@,
        "enum "@,
        "interface "@,
        "trait "@,
        "pub "@,
        "private "@,
        "protected "@,
        "internal "@,
        "open "@,
        "abstract "@,
        "override "@,
        "val "@,
        "var "@,
        "let "@,
        "const "@,
        "static "@,
        "return "@,
        "if "@,
        "else "@,
        "for "@,
        "while "@,
        "match "@,
        "when "@,
        "switch "@,
        "case "@,
        "package "@,
        "module "@,
    ]
}

/// The prefix that marks a line pulling in another file.
pub open spec fn inclusion_prefix() -> Seq<char> {
    seq!['i', 'n', 'c', 'l', 'u', 'd', 'e']
}

/// The syntax class of a line, by how its trimmed text starts.
pub open spec fn line_class(line: Seq<char>) -> SyntaxClass {
    let t = trimmed(line);
    if starts_with(t, "//"@) || starts_with(t, "#"@) || starts_with(t, "/*"@) || starts_with(t, "*"@) {
        SyntaxClass::Comment
    } else if starts_with(t, "\""@) || starts_with(t, "'"@) || starts_with(t, "```"@) {
        SyntaxClass::StringLiteral
    } else if starts_with(t, "import "@) || starts_with(t, "use "@) || starts_with(t, "from "@)
        || starts_with(t, "require"@) || starts_with(t, inclusion_prefix()) {
        SyntaxClass::Import
    } else if starts_with(t, "@"@) {
        SyntaxClass::Annotation
    } else if exists|k: int| 0 <= k < keywords().len() && starts_with(t, #[trigger] keywords()[k]) {
        SyntaxClass::Keyword
    } else {
        SyntaxClass::Plain
    }
}

fn keyword_prefix(t: &Vec<char>) -> (r: bool)
    ensures
        r == exists|k: int| 0 <= k < keywords().len() && starts_with(t@, #[trigger] keywords()[k]),
{
    let kws = [
        "fun ",
        "fn ",
        "func ",
        "def ",
        "class ",
        "struct ",
        "enum ",
        "interface ",
        "trait ",
        "pub ",
        "private ",
        "protected ",
        "internal ",
        "open ",
        "abstract ",
        "override ",
        "val ",
        "var ",
        "let ",
        "const ",
        "static ",
        "return ",
        "if ",
        "else ",
        "for ",
        "while ",
        "match ",
        "when ",
        "switch ",
        "case ",
        "package ",
        "module ",
    ];
    assert(kws@.map_values(|k: &str| k@) =~= keywords());
    let mut i: usize = 0;
    while i < kws.len()
        invariant
            i <= kws@.len(),
            kws@.map_values(|k: &str| k@) == keywords(),
            forall|k: int| 0 <= k < i ==> !starts_with(t@, #[trigger] keywords()[k]),
        decreases kws@.len() - i,
    {
        if prefixed_str(&t, kws[i]) {
            assert(keywords()[i as int] == kws@[i as int]@);
            return true;
        }
        i = i + 1;
    }
    false
}

/// The syntax class of a line, which picks the color it is drawn in.
pub fn syntax_line_class(line: &str) -> (r: SyntaxClass)
    ensures
        r == line_class(line@),
{
    let chars = chars_of(line);
    let t = trim_chars(&chars);
    if prefixed_str(&t, "//") || prefixed_str(&t, "#") || prefixed_str(&t, "/*") || prefixed_str(&t, "*") {
        return SyntaxClass::Comment;
    }
    if prefixed_str(&t, "\"") || prefixed_str(&t, "'") || prefixed_str(&t, "```") {
        return SyntaxClass::StringLiteral;
    }
    let inclusion = vec!['i', 'n', 'c', 'l', 'u', 'd', 'e'];
    assert(inclusion@ =~= inclusion_prefix());
    if prefixed_str(&t, "import ") || prefixed_str(&t, "use ") || prefixed_str(&t, "from ")
        || prefixed_str(&t, "require") || prefixed(&t, &inclusion) {
        return SyntaxClass::Import;
    }
    if prefixed_str(&t, "@") {
        return SyntaxClass::Annotation;
    }
    if keyword_prefix(&t) {
        return SyntaxClass::Keyword;
    }
    SyntaxClass::Plain
}

} // verus!

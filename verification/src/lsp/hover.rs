//! The text shown for a hover reply.

use vstd::prelude::*;

use crate::lsp::symbols::LspRange;

verus! {

/// A piece of hover text: plain text, or code in a named language.
#[derive(Debug, Clone)]
pub enum MarkedString {
    String(String),
    LanguageString { language: String, value: String },
}

/// The contents of a hover reply.
#[derive(Debug, Clone)]
pub enum HoverContents {
    Scalar(MarkedString),
    Array(Vec<MarkedString>),
    /// Markup text (markdown or plain); only its text is shown.
    Markup(String),
}

/// What a hover shows: its text, and the range it is about.
#[derive(Debug, Clone)]
pub struct HoverInfo {
    pub contents: String,
    pub range: Option<LspRange>,
}

/// The text of a piece: plain text as it is, code fenced with its language.
pub open spec fn marked_text(m: MarkedString) -> Seq<char> {
    match m {
        MarkedString::String(s) => s@,
        MarkedString::LanguageString { language, value } => "```"@ + language@ + "\n"@ + value@
            + "\n```"@,
    }
}

/// Texts joined with a separator between them.
pub open spec fn join_with(parts: Seq<Seq<char>>, sep: Seq<char>) -> Seq<char>
    decreases parts.len(),
{
    if parts.len() == 0 {
        Seq::empty()
    } else if parts.len() == 1 {
        parts[0]
    } else {
        join_with(parts.drop_last(), sep) + sep + parts.last()
    }
}

/// The text of a hover: a single piece, the pieces separated by a blank
/// line, or the markup's text.
pub open spec fn hover_text(c: HoverContents) -> Seq<char> {
    match c {
        HoverContents::Scalar(m) => marked_text(m),
        HoverContents::Array(a) => join_with(a@.map_values(|m: MarkedString| marked_text(m)), "\n\n"@),
        HoverContents::Markup(v) => v@,
    }
}

fn marked_string_text(m: &MarkedString) -> (r: String)
    ensures
        r@ == marked_text(*m),
{
    match m {
        MarkedString::String(s) => s.clone(),
        MarkedString::LanguageString { language, value } => {
            let mut r = String::from_str("```");
            r.append(language.as_str());
            r.append("\n");
            r.append(value.as_str());
            r.append("\n```");
            r
        },
    }
}

/// The text to show for a hover's contents.
pub fn extract_hover_contents(contents: &HoverContents) -> (r: String)
    ensures
        r@ == hover_text(*contents),
{
    match contents {
        HoverContents::Scalar(m) => marked_string_text(m),
        HoverContents::Array(arr) => {
            let ghost parts = arr@.map_values(|m: MarkedString| marked_text(m));
            let mut r = String::new();
            let mut i: usize = 0;
            assert(parts.take(0) =~= Seq::<Seq<char>>::empty());
            while i < arr.len()
                invariant
                    i <= arr@.len(),
                    parts == arr@.map_values(|m: MarkedString| marked_text(m)),
                    r@ == join_with(parts.take(i as int), "\n\n"@),
                decreases arr@.len() - i,
            {
                let piece = marked_string_text(&arr[i]);
                assert(parts.take(i + 1).drop_last() =~= parts.take(i as int));
                if i > 0 {
                    r.append("\n\n");
                }
                r.append(piece.as_str());
                proof {
                    if i == 0 {
                        assert(r@ =~= parts.take(1)[0]);
                    }
                }
                i = i + 1;
            }
            assert(parts.take(i as int) =~= parts);
            r
        },
        HoverContents::Markup(value) => value.clone(),
    }
}

} // verus!

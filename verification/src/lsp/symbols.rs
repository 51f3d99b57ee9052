//! Document symbols, flattened for display.

use vstd::prelude::*;

verus! {

/// A position in a document: line and character, both from zero.
#[derive(Debug, Clone, Copy, PartialEq, Eq, Structural)]
pub struct LspPosition {
    pub line: u32,
    pub character: u32,
}

/// A range in a document.
#[derive(Debug, Clone, Copy, PartialEq, Eq, Structural)]
pub struct LspRange {
    pub start: LspPosition,
    pub end: LspPosition,
}

} // verus!

verus! {

/// A symbol of a document, as listed for display.
#[derive(Debug, Clone)]
pub struct SymbolInfo {
    pub name: String,
    pub kind: i32,
    pub range: LspRange,
    pub detail: Option<String>,
}

/// A symbol of a flat symbol reply: its name, kind and the range of its
/// location.
#[derive(Debug, Clone)]
pub struct SymbolInformation {
    pub name: String,
    pub kind: i32,
    pub range: LspRange,
}

/// A symbol of a nested symbol reply, with the symbols inside it.
#[derive(Debug)]
pub struct DocumentSymbol {
    pub name: String,
    pub detail: Option<String>,
    pub kind: i32,
    pub range: LspRange,
    pub children: Option<Vec<DocumentSymbol>>,
}

/// A document symbol reply: a flat list, or a tree.
#[derive(Debug)]
pub enum DocumentSymbolResponse {
    Flat(Vec<SymbolInformation>),
    Nested(Vec<DocumentSymbol>),
}

/// A listed symbol, with its text as chars.
pub struct SymbolView {
    pub name: Seq<char>,
    pub kind: i32,
    pub range: LspRange,
    pub detail: Option<Seq<char>>,
}

pub open spec fn opt_chars(o: Option<String>) -> Option<Seq<char>> {
    match o {
        Some(s) => Some(s@),
        None => None,
    }
}

pub open spec fn info_view(s: SymbolInfo) -> SymbolView {
    SymbolView { name: s.name@, kind: s.kind, range: s.range, detail: opt_chars(s.detail) }
}

pub open spec fn infos_view(v: Seq<SymbolInfo>) -> Seq<SymbolView> {
    v.map_values(|s: SymbolInfo| info_view(s))
}

/// A nested symbol as listed.
pub open spec fn doc_symbol_view(s: DocumentSymbol) -> SymbolView {
    SymbolView { name: s.name@, kind: s.kind, range: s.range, detail: opt_chars(s.detail) }
}

/// A flat symbol as listed: it has no detail.
pub open spec fn flat_symbol_view(s: SymbolInformation) -> SymbolView {
    SymbolView { name: s.name@, kind: s.kind, range: s.range, detail: None }
}

/// The symbols of a forest in pre-order: each symbol, then the symbols
/// inside it.
pub open spec fn flatten_forest(f: Seq<DocumentSymbol>) -> Seq<SymbolView>
    decreases f,
{
    if f.len() == 0 {
        Seq::empty()
    } else {
        flatten_forest(f.drop_last()) + flatten_tree(f.last())
    }
}

pub open spec fn flatten_tree(s: DocumentSymbol) -> Seq<SymbolView>
    decreases s,
{
    seq![doc_symbol_view(s)] + match s.children {
        Some(c) => flatten_forest(c@),
        None => Seq::empty(),
    }
}

/// The symbols of a reply, listed: a flat reply in order, a tree in
/// pre-order.
pub open spec fn flattened(r: DocumentSymbolResponse) -> Seq<SymbolView> {
    match r {
        DocumentSymbolResponse::Flat(v) => v@.map_values(|s: SymbolInformation| flat_symbol_view(s)),
        DocumentSymbolResponse::Nested(v) => flatten_forest(v@),
    }
}

fn push_forest(symbols: &Vec<DocumentSymbol>, out: &mut Vec<SymbolInfo>)
    ensures
        infos_view(final(out)@) == infos_view(old(out)@) + flatten_forest(symbols@),
    decreases symbols@,
{
    let ghost start = out@;
    let mut i: usize = 0;
    assert(symbols@.take(0) =~= Seq::<DocumentSymbol>::empty());
    while i < symbols.len()
        invariant
            i <= symbols@.len(),
            infos_view(out@) == infos_view(start) + flatten_forest(symbols@.take(i as int)),
        decreases symbols@.len() - i,
    {
        let sym = &symbols[i];
        let ghost before = out@;
        out.push(SymbolInfo { name: sym.name.clone(), kind: sym.kind, range: sym.range, detail: sym.detail.clone() });
        assert(infos_view(out@) =~= infos_view(before) + seq![doc_symbol_view(*sym)]);
        match &sym.children {
            Some(children) => {
                proof {
                    assert(decreases_to!(symbols@ => symbols@[i as int]));
                }
                push_forest(children, out);
                assert(infos_view(out@) =~= infos_view(before) + flatten_tree(*sym));
            },
            None => {
                assert(infos_view(out@) =~= infos_view(before) + flatten_tree(*sym));
            },
        }
        proof {
            assert(symbols@.take(i + 1).drop_last() =~= symbols@.take(i as int));
            assert(symbols@.take(i + 1).last() == symbols@[i as int]);
            assert(infos_view(out@) =~= infos_view(start) + flatten_forest(symbols@.take(i + 1)));
        }
        i = i + 1;
    }
    assert(symbols@.take(i as int) =~= symbols@);
}

/// List the symbols of a reply: a flat reply in order, a tree in pre-order
/// (each symbol before the symbols inside it).
pub fn flatten_symbols(response: DocumentSymbolResponse) -> (r: Vec<SymbolInfo>)
    ensures
        infos_view(r@) == flattened(response),
{
    let mut result: Vec<SymbolInfo> = Vec::new();
    match response {
        DocumentSymbolResponse::Flat(symbols) => {
            let mut i: usize = 0;
            while i < symbols.len()
                invariant
                    i <= symbols@.len(),
                    infos_view(result@) == symbols@.take(i as int).map_values(
                        |s: SymbolInformation| flat_symbol_view(s),
                    ),
                decreases symbols@.len() - i,
            {
                let sym = &symbols[i];
                let ghost before = result@;
                result.push(SymbolInfo { name: sym.name.clone(), kind: sym.kind, range: sym.range, detail: None });
                assert(infos_view(result@) =~= infos_view(before).push(flat_symbol_view(*sym)));
                assert(symbols@.take(i + 1) =~= symbols@.take(i as int).push(*sym));
                i = i + 1;
                assert(infos_view(result@) =~= symbols@.take(i as int).map_values(
                    |s: SymbolInformation| flat_symbol_view(s),
                ));
            }
            assert(symbols@.take(i as int) =~= symbols@);
        },
        DocumentSymbolResponse::Nested(symbols) => {
            assert(infos_view(result@) =~= Seq::<SymbolView>::empty());
            push_forest(&symbols, &mut result);
            assert(infos_view(result@) =~= flatten_forest(symbols@));
        },
    }
    result
}

} // verus!

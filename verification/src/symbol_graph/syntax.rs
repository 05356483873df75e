use tree_sitter::Parser;
use tree_sitter_rust::LANGUAGE;
use vstd::prelude::*;
use vstd::utf8::{decode_utf8, valid_utf8};

use super::{SourceRange, SymbolKind};
use crate::text::{concat2, decimal, decimal_text, owned, text_eq, trim_text, trim_ws, utf8_text};

verus! {

/// A named top-level node of a parsed Rust file, as plain values: the grammar's node
/// kind, the byte span of its `name` field when it has one, its byte span, and its
/// zero-based start and end rows and columns.
#[derive(Debug, Clone, PartialEq, Eq)]
pub struct SyntaxItem {
    pub kind: &'static str,
    pub name_span: Option<(usize, usize)>,
    pub start_byte: usize,
    pub end_byte: usize,
    pub start_row: usize,
    pub start_column: usize,
    pub end_row: usize,
    pub end_column: usize,
}

/// What the Rust grammar makes of a source text.
#[derive(Debug, Clone, PartialEq, Eq)]
pub enum RustSyntax {
    /// The parser could not be set to the Rust grammar.
    ParserUnavailable,
    /// The parser gave no tree.
    Unparsed,
    /// The named children of the root node, and whether the tree holds a syntax error.
    Parsed { has_error: bool, items: Vec<SyntaxItem> },
}

/// The tree-sitter reading of a Rust source text.
pub uninterp spec fn rust_syntax(contents: Seq<char>) -> RustSyntax;

/// Parses a Rust source text with `tree_sitter::Parser` set to
/// `tree_sitter_rust::LANGUAGE`, and lists the named children of the root node with
/// `Node::kind`, the span of `child_by_field_name("name")`, `start_byte`,
/// `end_byte`, `start_position` and `end_position`. The result depends on the text
/// alone; nothing more of it is claimed.
#[verifier::external_body]
pub(crate) fn parse_rust_syntax(contents: &str) -> (r: RustSyntax)
    ensures
        r == rust_syntax(contents@),
{
    let mut parser = Parser::new();
    if parser.set_language(&LANGUAGE.into()).is_err() { return RustSyntax::ParserUnavailable }
    let Some(tree) = parser.parse(contents, None) else { return RustSyntax::Unparsed };
    let root = tree.root_node();
    let items = root.named_children(&mut root.walk()).map(|n| { let r = n.range(); SyntaxItem {
        kind: n.kind(),
        name_span: n.child_by_field_name("name").map(|c| (c.start_byte(), c.end_byte())),
        start_byte: r.start_byte,
        end_byte: r.end_byte,
        start_row: r.start_point.row,
        start_column: r.start_point.column,
        end_row: r.end_point.row,
        end_column: r.end_point.column,
    } }).collect();
    RustSyntax::Parsed { has_error: root.has_error(), items }
}

/// The symbol kind of a grammar node kind, for the declarations that become symbols
/// (`impl` blocks are handled apart).
pub open spec fn declaration_kind(node_kind: Seq<char>) -> Option<SymbolKind> {
    if node_kind == "function_item"@ {
        Some(SymbolKind::Function)
    } else if node_kind == "struct_item"@ {
        Some(SymbolKind::Struct)
    } else if node_kind == "enum_item"@ {
        Some(SymbolKind::Enum)
    } else if node_kind == "trait_item"@ {
        Some(SymbolKind::Trait)
    } else if node_kind == "type_item"@ {
        Some(SymbolKind::TypeAlias)
    } else if node_kind == "const_item"@ {
        Some(SymbolKind::Const)
    } else if node_kind == "static_item"@ {
        Some(SymbolKind::Static)
    } else if node_kind == "mod_item"@ {
        Some(SymbolKind::Module)
    } else {
        None
    }
}

/// The trimmed text of the `name` field, when it lies in the text, is valid UTF-8
/// and is not blank.
pub open spec fn declared_name(item: SyntaxItem, bytes: Seq<u8>) -> Option<Seq<char>> {
    match item.name_span {
        Some((a, b)) => if a <= b && b <= bytes.len() && valid_utf8(bytes.subrange(a as int, b as int))
            && trim_ws(decode_utf8(bytes.subrange(a as int, b as int))).len() > 0 {
            Some(trim_ws(decode_utf8(bytes.subrange(a as int, b as int))))
        } else {
            None
        },
        None => None,
    }
}

/// The name given to an `impl` block: `impl@LINE:COLUMN` of its start.
pub open spec fn impl_name(item: SyntaxItem) -> Seq<char> {
    "impl@"@ + decimal((item.start_row + 1) as nat) + ":"@ + decimal(item.start_column as nat)
}

/// The range of an item, with one-based lines.
pub open spec fn item_range(item: SyntaxItem) -> SourceRange {
    SourceRange {
        start_byte: item.start_byte,
        end_byte: item.end_byte,
        start_line: (item.start_row + 1) as usize,
        start_column: item.start_column,
        end_line: (item.end_row + 1) as usize,
        end_column: item.end_column,
    }
}

/// The symbol that a top-level item declares, if any. An item whose rows are too
/// large to be numbered from one declares none.
pub open spec fn item_symbol(item: SyntaxItem, bytes: Seq<u8>) -> Option<(SymbolKind, Seq<char>, SourceRange)> {
    if item.start_row >= usize::MAX || item.end_row >= usize::MAX {
        None
    } else if item.kind@ == "impl_item"@ {
        Some((SymbolKind::ImplBlock, impl_name(item), item_range(item)))
    } else {
        match declaration_kind(item.kind@) {
            Some(k) => match declared_name(item, bytes) {
                Some(n) => Some((k, n, item_range(item))),
                None => None,
            },
            None => None,
        }
    }
}

/// The symbols declared by a list of items, in order.
pub open spec fn item_symbols(items: Seq<SyntaxItem>, bytes: Seq<u8>) -> Seq<(SymbolKind, Seq<char>, SourceRange)>
    decreases items.len(),
{
    if items.len() == 0 {
        seq![]
    } else {
        let prev = item_symbols(items.drop_last(), bytes);
        match item_symbol(items.last(), bytes) {
            Some(s) => prev.push(s),
            None => prev,
        }
    }
}

fn declaration_kind_exec(node_kind: &str) -> (r: Option<SymbolKind>)
    ensures
        r == declaration_kind(node_kind@),
{
    if text_eq(node_kind, "function_item") {
        Some(SymbolKind::Function)
    } else if text_eq(node_kind, "struct_item") {
        Some(SymbolKind::Struct)
    } else if text_eq(node_kind, "enum_item") {
        Some(SymbolKind::Enum)
    } else if text_eq(node_kind, "trait_item") {
        Some(SymbolKind::Trait)
    } else if text_eq(node_kind, "type_item") {
        Some(SymbolKind::TypeAlias)
    } else if text_eq(node_kind, "const_item") {
        Some(SymbolKind::Const)
    } else if text_eq(node_kind, "static_item") {
        Some(SymbolKind::Static)
    } else if text_eq(node_kind, "mod_item") {
        Some(SymbolKind::Module)
    } else {
        None
    }
}

fn declared_name_exec(item: &SyntaxItem, bytes: &[u8]) -> (r: Option<String>)
    ensures
        match r {
            Some(s) => declared_name(*item, bytes@) == Some(s@),
            None => declared_name(*item, bytes@) is None,
        },
{
    match item.name_span {
        Some((a, b)) => {
            if a <= b && b <= bytes.len() {
                let part = &bytes[a..b];
                assert(part@ == bytes@.subrange(a as int, b as int));
                match utf8_text(part) {
                    Some(text) => {
                        let name = trim_text(text.as_str());
                        if name.as_str().unicode_len() > 0 {
                            Some(name)
                        } else {
                            None
                        }
                    },
                    None => None,
                }
            } else {
                None
            }
        },
        None => None,
    }
}

/// The symbol declared by one top-level item.
pub fn item_symbol_exec(item: &SyntaxItem, bytes: &[u8]) -> (r: Option<(SymbolKind, String, SourceRange)>)
    ensures
        match r {
            Some((k, n, range)) => item_symbol(*item, bytes@) == Some((k, n@, range)),
            None => item_symbol(*item, bytes@) is None,
        },
{
    if item.start_row >= usize::MAX || item.end_row >= usize::MAX {
        return None;
    }
    let range = SourceRange {
        start_byte: item.start_byte,
        end_byte: item.end_byte,
        start_line: item.start_row + 1,
        start_column: item.start_column,
        end_line: item.end_row + 1,
        end_column: item.end_column,
    };
    if text_eq(item.kind, "impl_item") {
        let line = decimal_text(item.start_row + 1);
        let column = decimal_text(item.start_column);
        let head = concat2("impl@", line.as_str());
        let head = concat2(head.as_str(), ":");
        let name = concat2(head.as_str(), column.as_str());
        return Some((SymbolKind::ImplBlock, name, range));
    }
    match declaration_kind_exec(item.kind) {
        Some(k) => match declared_name_exec(item, bytes) {
            Some(n) => Some((k, n, range)),
            None => None,
        },
        None => None,
    }
}

} // verus!

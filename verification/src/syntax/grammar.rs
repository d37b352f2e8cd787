//! What each grammar counts as a declaration, an identifier, an import
//! and a colour: tables over tree-sitter's node kinds for Rust and for
//! TypeScript.

use vstd::prelude::*;

use crate::engine::HighlightKind;
use crate::query::SymbolKind;
use crate::rust::facts::ReachKind;
use crate::text::chars_of;
use crate::syntax::highlights::HighlightRule;
use crate::syntax::symbols::{ModifierAt, SymbolRule};
use crate::syntax::imports::{ImportGrammar, ImportNesting, ImportRule, ReExportRule};
use crate::syntax::tree::{ALIAS_FIELD, NAME_FIELD, PATH_FIELD, SOURCE_FIELD, TYPE_FIELD};

verus! {

/// How a grammar spells module paths: `a::b` or `./a/b`.
#[derive(Debug, Clone, Copy, PartialEq, Eq, Structural)]
pub enum PathSyntax {
    Scoped,
    Posix,
}

/// A grammar's tables.
pub struct Grammar {
    /// How paths are spelled.
    pub paths: PathSyntax,
    /// What ends a glob import (`::*`), where there is one.
    pub glob_marker: Option<&'static str>,
    /// What declares something.
    pub symbols: Vec<SymbolRule>,
    /// The kinds that, right above a declaration, belong to it.
    pub leading: Vec<&'static str>,
    /// The kinds of identifier tokens.
    pub identifiers: Vec<&'static str>,
    /// The colours.
    pub highlights: Vec<HighlightRule>,
    /// Where imported paths are, and how imports are written.
    pub imports: ImportGrammar,
}

/// A Rust item's rule: named by its `name` field, attributes and docs
/// before it, a visibility modifier inside it.
pub open spec fn item_rule(node: &'static str, kind: SymbolKind) -> SymbolRule {
    SymbolRule {
        node,
        name_field: Some(NAME_FIELD),
        name_inner: None,
        kind,
        leading: true,
        visibility: Some(ModifierAt::Child("visibility_modifier")),
        under: None,
        within: None,
    }
}

/// The rule of a declaration named by its `name` field, with what leads it.
pub open spec fn named_rule(node: &'static str, kind: SymbolKind) -> SymbolRule {
    SymbolRule { visibility: None, ..item_rule(node, kind) }
}

/// A top-level TypeScript declaration's rule: `export` wraps it in an
/// `export_statement`.
pub open spec fn decl_rule(node: &'static str, kind: SymbolKind) -> SymbolRule {
    SymbolRule { visibility: Some(ModifierAt::Parent("export_statement")), ..item_rule(node, kind) }
}

/// A colour for nodes of a kind.
pub open spec fn colour_rule(node: &'static str, kind: HighlightKind) -> HighlightRule {
    HighlightRule { node, under: None, kind }
}

/// A colour for nodes of a kind under a parent of a kind.
pub open spec fn colour_under_rule(node: &'static str, parent: &'static str, kind: HighlightKind) -> HighlightRule {
    HighlightRule { node, under: Some(parent), kind }
}

/// A Rust item: attributes and docs before it, a visibility modifier
/// inside it.
fn item(node: &'static str, kind: SymbolKind) -> (r: SymbolRule)
    ensures
        r == item_rule(node, kind),
{
    SymbolRule {
        node,
        name_field: Some(NAME_FIELD),
        name_inner: None,
        kind,
        leading: true,
        visibility: Some(ModifierAt::Child("visibility_modifier")),
        under: None,
        within: None,
    }
}

/// A declaration named by its `name` field, with what leads it.
fn named(node: &'static str, kind: SymbolKind) -> (r: SymbolRule)
    ensures
        r == named_rule(node, kind),
{
    SymbolRule {
        node,
        name_field: Some(NAME_FIELD),
        name_inner: None,
        kind,
        leading: true,
        visibility: None,
        under: None,
        within: None,
    }
}

/// A top-level TypeScript declaration: `export` wraps it in an
/// `export_statement`.
fn decl(node: &'static str, kind: SymbolKind) -> (r: SymbolRule)
    ensures
        r == decl_rule(node, kind),
{
    SymbolRule {
        node,
        name_field: Some(NAME_FIELD),
        name_inner: None,
        kind,
        leading: true,
        visibility: Some(ModifierAt::Parent("export_statement")),
        under: None,
        within: None,
    }
}

/// Nodes of kind `node` take the colour `kind`.
fn colour(node: &'static str, kind: HighlightKind) -> (r: HighlightRule)
    ensures
        r == (HighlightRule { node, under: None, kind }),
{
    HighlightRule { node, under: None, kind }
}

/// Nodes of kind `node` under a parent of kind `parent` take the colour
/// `kind`.
fn colour_under(node: &'static str, parent: &'static str, kind: HighlightKind) -> (r: HighlightRule)
    ensures
        r == (HighlightRule { node, under: Some(parent), kind }),
{
    HighlightRule { node, under: Some(parent), kind }
}

/// tree-sitter-rust's declaration rules.
pub open spec fn rust_symbol_rules() -> Seq<SymbolRule> {
    seq![
            SymbolRule { within: Some("impl_item"), ..item_rule("function_item", SymbolKind::Method) },
            SymbolRule { within: Some("trait_item"), ..item_rule("function_item", SymbolKind::Method) },
            item_rule("function_signature_item", SymbolKind::Method),
            item_rule("function_item", SymbolKind::Function),
            item_rule("struct_item", SymbolKind::Struct),
            item_rule("union_item", SymbolKind::Struct),
            item_rule("enum_item", SymbolKind::Enum),
            named_rule("enum_variant", SymbolKind::Variant),
            item_rule("trait_item", SymbolKind::Trait),
            item_rule("type_item", SymbolKind::TypeAlias),
            item_rule("const_item", SymbolKind::Const),
            item_rule("static_item", SymbolKind::Static),
            item_rule("field_declaration", SymbolKind::Field),
            item_rule("mod_item", SymbolKind::Module),
            named_rule("macro_definition", SymbolKind::Macro),
            SymbolRule { name_field: Some(TYPE_FIELD), name_inner: Some(TYPE_FIELD), ..named_rule("impl_item", SymbolKind::Impl) },
    ]
}

/// tree-sitter-rust's colours.
pub open spec fn rust_colours() -> Seq<HighlightRule> {
    seq![
            colour_rule("line_comment", HighlightKind::Comment),
            colour_rule("block_comment", HighlightKind::Comment),
            colour_rule("string_literal", HighlightKind::String),
            colour_rule("raw_string_literal", HighlightKind::String),
            colour_rule("char_literal", HighlightKind::String),
            colour_rule("integer_literal", HighlightKind::Number),
            colour_rule("float_literal", HighlightKind::Number),
            colour_rule("boolean_literal", HighlightKind::Number),
            colour_rule("type_identifier", HighlightKind::Type),
            colour_rule("primitive_type", HighlightKind::Type),
            colour_rule("lifetime", HighlightKind::Type),
            colour_rule("attribute_item", HighlightKind::Attribute),
            colour_rule("inner_attribute_item", HighlightKind::Attribute),
            colour_under_rule("identifier", "function_item", HighlightKind::Function),
            colour_under_rule("identifier", "function_signature_item", HighlightKind::Function),
            colour_under_rule("identifier", "call_expression", HighlightKind::Function),
            colour_under_rule("field_identifier", "field_expression", HighlightKind::Function),
            colour_under_rule("identifier", "macro_invocation", HighlightKind::Macro),
            colour_under_rule("identifier", "macro_definition", HighlightKind::Macro),
            colour_rule("self", HighlightKind::Keyword),
            colour_rule("super", HighlightKind::Keyword),
            colour_rule("crate", HighlightKind::Keyword),
            colour_rule("mutable_specifier", HighlightKind::Keyword),
    ]
}

/// Where tree-sitter-rust's imported paths are.
pub open spec fn rust_import_rules() -> Seq<ImportRule> {
    seq![
                    ImportRule::Node { kind: "scoped_identifier", field: None, under: None },
                    ImportRule::Node { kind: "scoped_type_identifier", field: None, under: None },
                    ImportRule::Node { kind: "identifier", field: None, under: Some("use_list") },
                    ImportRule::Node { kind: "identifier", field: None, under: Some("use_wildcard") },
                    ImportRule::Node { kind: "identifier", field: None, under: Some("scoped_use_list") },
                    ImportRule::Node { kind: "use_as_clause", field: Some(PATH_FIELD), under: None },
    ]
}

/// tree-sitter-typescript's declaration rules.
pub open spec fn typescript_symbol_rules() -> Seq<SymbolRule> {
    seq![
            decl_rule("function_declaration", SymbolKind::Function),
            decl_rule("generator_function_declaration", SymbolKind::Function),
            named_rule("method_definition", SymbolKind::Method),
            named_rule("method_signature", SymbolKind::Method),
            named_rule("abstract_method_signature", SymbolKind::Method),
            decl_rule("class_declaration", SymbolKind::Class),
            decl_rule("abstract_class_declaration", SymbolKind::Class),
            decl_rule("interface_declaration", SymbolKind::Interface),
            decl_rule("type_alias_declaration", SymbolKind::TypeAlias),
            decl_rule("enum_declaration", SymbolKind::Enum),
            named_rule("enum_assignment", SymbolKind::Variant),
            SymbolRule { name_field: None, leading: false, under: Some("enum_body"), ..named_rule("property_identifier", SymbolKind::Variant) },
            decl_rule("variable_declarator", SymbolKind::Variable),
            named_rule("public_field_definition", SymbolKind::Field),
            named_rule("property_signature", SymbolKind::Field),
    ]
}

/// tree-sitter-typescript's colours.
pub open spec fn typescript_colours() -> Seq<HighlightRule> {
    seq![
            colour_rule("comment", HighlightKind::Comment),
            colour_rule("string", HighlightKind::String),
            colour_rule("template_string", HighlightKind::String),
            colour_rule("regex", HighlightKind::String),
            colour_rule("number", HighlightKind::Number),
            colour_rule("true", HighlightKind::Number),
            colour_rule("false", HighlightKind::Number),
            colour_rule("null", HighlightKind::Number),
            colour_rule("undefined", HighlightKind::Number),
            colour_rule("type_identifier", HighlightKind::Type),
            colour_rule("predefined_type", HighlightKind::Type),
            colour_rule("decorator", HighlightKind::Attribute),
            colour_under_rule("identifier", "function_declaration", HighlightKind::Function),
            colour_under_rule("identifier", "call_expression", HighlightKind::Function),
            colour_under_rule("property_identifier", "method_definition", HighlightKind::Function),
            colour_under_rule("property_identifier", "method_signature", HighlightKind::Function),
            colour_rule("this", HighlightKind::Keyword),
            colour_rule("super", HighlightKind::Keyword),
    ]
}

/// Where tree-sitter-typescript's imported paths are.
pub open spec fn typescript_import_rules() -> Seq<ImportRule> {
    seq![
                    ImportRule::Node { kind: "import_statement", field: Some(SOURCE_FIELD), under: None },
                    ImportRule::Node { kind: "export_statement", field: Some(SOURCE_FIELD), under: None },
                    ImportRule::Pattern { pattern: "import($PATH)", capture: "PATH" },
                    ImportRule::Pattern { pattern: "require($PATH)", capture: "PATH" },
    ]
}

/// The grammar has tree-sitter-rust's tables.
pub open spec fn rust_grammar(g: Grammar) -> bool {
    &&& g.paths == PathSyntax::Scoped
    &&& g.glob_marker == Some("::*")
    &&& g.symbols@ == rust_symbol_rules()
    &&& g.leading@ == seq!["attribute_item", "line_comment", "block_comment"]
    &&& g.identifiers@ == seq!["identifier", "type_identifier", "field_identifier", "shorthand_field_identifier"]
    &&& g.highlights@ == rust_colours()
    &&& g.imports.syntax == PathSyntax::Scoped
    &&& g.imports.rules@ == rust_import_rules()
    &&& g.imports.nesting == Some(
            (ImportNesting {
                list: "use_list",
                scope: "scoped_use_list",
                prefix_field: PATH_FIELD,
                statement: "use_declaration",
            }),
        )
    &&& g.imports.statements@ == seq!["use_declaration", "extern_crate_declaration"]
    &&& g.imports.alias == Some(("use_as_clause", ALIAS_FIELD))
    &&& g.imports.reexports == ReExportRule::Modifier("visibility_modifier")
    &&& g.imports.glob_under == Some("use_wildcard")
}

/// The grammar has tree-sitter-typescript's tables.
pub open spec fn typescript_grammar(g: Grammar) -> bool {
    &&& g.paths == PathSyntax::Posix
    &&& g.glob_marker is None
    &&& g.symbols@ == typescript_symbol_rules()
    &&& g.leading@ == seq!["comment", "decorator"]
    &&& g.identifiers@ == seq![
            "identifier",
            "type_identifier",
            "property_identifier",
            "shorthand_property_identifier",
            "shorthand_property_identifier_pattern"
        ]
    &&& g.highlights@ == typescript_colours()
    &&& g.imports.syntax == PathSyntax::Posix
    &&& g.imports.rules@ == typescript_import_rules()
    &&& g.imports.nesting is None
    &&& g.imports.statements@.len() == 0
    &&& g.imports.alias is None
    &&& g.imports.reexports == ReExportRule::Statement("export_statement")
    &&& g.imports.glob_under is None
}

/// What Rust's modifiers and declarations mean.
pub open spec fn rust_semantics(g: Semantics) -> bool {
    &&& !g.import_scopes_names
    &&& g.addressable@ == seq![
            SymbolKind::Function,
            SymbolKind::Struct,
            SymbolKind::Enum,
            SymbolKind::Trait,
            SymbolKind::TypeAlias,
            SymbolKind::Const,
            SymbolKind::Static,
            SymbolKind::Module,
            SymbolKind::Macro
        ]
    &&& g.visibility@ == seq![
            (VisibilityRule { text: "pub", prefix: false, reach: ReachKind::Everyone }),
            (VisibilityRule { text: "pub(crate)", prefix: false, reach: ReachKind::Package }),
            (VisibilityRule { text: "pub(super)", prefix: false, reach: ReachKind::Parent }),
            (VisibilityRule { text: "pub(self)", prefix: false, reach: ReachKind::Declaring }),
            (VisibilityRule { text: "pub(in", prefix: true, reach: ReachKind::Path })
        ]
    &&& g.default_visibility == ReachKind::Declaring
}

/// What TypeScript's modifiers and declarations mean.
pub open spec fn typescript_semantics(g: Semantics) -> bool {
    &&& g.import_scopes_names
    &&& g.addressable@ == seq![
            SymbolKind::Function,
            SymbolKind::Class,
            SymbolKind::Interface,
            SymbolKind::TypeAlias,
            SymbolKind::Enum,
            SymbolKind::Variable
        ]
    &&& g.visibility@ == seq![
            (VisibilityRule { text: "export", prefix: false, reach: ReachKind::Everyone }),
            (VisibilityRule { text: "export default", prefix: false, reach: ReachKind::Everyone })
        ]
    &&& g.default_visibility == ReachKind::Declaring
}

impl Grammar {
    /// tree-sitter-rust's tables.
    pub fn rust() -> (r: Grammar)
        ensures
            rust_grammar(r),
    {
        let mut method_in_impl = item("function_item", SymbolKind::Method);
        method_in_impl.within = Some("impl_item");
        let mut method_in_trait = item("function_item", SymbolKind::Method);
        method_in_trait.within = Some("trait_item");
        let mut impl_block = named("impl_item", SymbolKind::Impl);
        impl_block.name_field = Some(TYPE_FIELD);
        impl_block.name_inner = Some(TYPE_FIELD);
        let symbols = vec![
            method_in_impl,
            method_in_trait,
            item("function_signature_item", SymbolKind::Method),
            item("function_item", SymbolKind::Function),
            item("struct_item", SymbolKind::Struct),
            item("union_item", SymbolKind::Struct),
            item("enum_item", SymbolKind::Enum),
            // Variants take the enum's visibility; they still carry docs
            // and attributes.
            named("enum_variant", SymbolKind::Variant),
            item("trait_item", SymbolKind::Trait),
            item("type_item", SymbolKind::TypeAlias),
            item("const_item", SymbolKind::Const),
            item("static_item", SymbolKind::Static),
            item("field_declaration", SymbolKind::Field),
            item("mod_item", SymbolKind::Module),
            named("macro_definition", SymbolKind::Macro),
            // `impl Foo {}` and `impl Trait for Foo {}`: named after the
            // type, so the blocks travel with it when it moves.
            impl_block,
        ];
        let highlights = vec![
            colour("line_comment", HighlightKind::Comment),
            colour("block_comment", HighlightKind::Comment),
            colour("string_literal", HighlightKind::String),
            colour("raw_string_literal", HighlightKind::String),
            colour("char_literal", HighlightKind::String),
            colour("integer_literal", HighlightKind::Number),
            colour("float_literal", HighlightKind::Number),
            colour("boolean_literal", HighlightKind::Number),
            colour("type_identifier", HighlightKind::Type),
            colour("primitive_type", HighlightKind::Type),
            colour("lifetime", HighlightKind::Type),
            colour("attribute_item", HighlightKind::Attribute),
            colour("inner_attribute_item", HighlightKind::Attribute),
            colour_under("identifier", "function_item", HighlightKind::Function),
            colour_under("identifier", "function_signature_item", HighlightKind::Function),
            colour_under("identifier", "call_expression", HighlightKind::Function),
            // `s.len()` is call_expression(field_expression(identifier,
            // field_identifier)).
            colour_under("field_identifier", "field_expression", HighlightKind::Function),
            colour_under("identifier", "macro_invocation", HighlightKind::Macro),
            colour_under("identifier", "macro_definition", HighlightKind::Macro),
            colour("self", HighlightKind::Keyword),
            colour("super", HighlightKind::Keyword),
            colour("crate", HighlightKind::Keyword),
            colour("mutable_specifier", HighlightKind::Keyword),
        ];
        let r = Grammar {
            paths: PathSyntax::Scoped,
            glob_marker: Some("::*"),
            symbols,
            leading: vec!["attribute_item", "line_comment", "block_comment"],
            identifiers: vec!["identifier", "type_identifier", "field_identifier", "shorthand_field_identifier"],
            highlights,
            imports: ImportGrammar {
                syntax: PathSyntax::Scoped,
                rules: vec![
                    ImportRule::Node { kind: "scoped_identifier", field: None, under: None },
                    ImportRule::Node { kind: "scoped_type_identifier", field: None, under: None },
                    // Single-segment entries of a group: `b` in `use a::{b}`,
                    // `use a::{b::*}` and `use a::{b::{c}}`.
                    ImportRule::Node { kind: "identifier", field: None, under: Some("use_list") },
                    ImportRule::Node { kind: "identifier", field: None, under: Some("use_wildcard") },
                    ImportRule::Node { kind: "identifier", field: None, under: Some("scoped_use_list") },
                    // The path of `B as C`, wherever the clause sits.
                    ImportRule::Node { kind: "use_as_clause", field: Some(PATH_FIELD), under: None },
                ],
                nesting: Some(
                    ImportNesting {
                        list: "use_list",
                        scope: "scoped_use_list",
                        prefix_field: PATH_FIELD,
                        statement: "use_declaration",
                    },
                ),
                statements: vec!["use_declaration", "extern_crate_declaration"],
                alias: Some(("use_as_clause", ALIAS_FIELD)),
                reexports: ReExportRule::Modifier("visibility_modifier"),
                glob_under: Some("use_wildcard"),
            },
        };
        proof {
            assert(r.symbols@ =~= rust_symbol_rules());
            assert(r.leading@ =~= seq!["attribute_item", "line_comment", "block_comment"]);
            assert(r.identifiers@ =~= seq!["identifier", "type_identifier", "field_identifier", "shorthand_field_identifier"]);
            assert(r.highlights@ =~= rust_colours());
            assert(r.imports.rules@ =~= rust_import_rules());
            assert(r.imports.statements@ =~= seq!["use_declaration", "extern_crate_declaration"]);
        }
        r
    }

    /// tree-sitter-typescript's tables, which its TSX grammar shares.
    pub fn typescript() -> (r: Grammar)
        ensures
            typescript_grammar(r),
    {
        let mut enum_member = named("property_identifier", SymbolKind::Variant);
        enum_member.name_field = None;
        enum_member.leading = false;
        enum_member.under = Some("enum_body");
        let symbols = vec![
            decl("function_declaration", SymbolKind::Function),
            decl("generator_function_declaration", SymbolKind::Function),
            named("method_definition", SymbolKind::Method),
            named("method_signature", SymbolKind::Method),
            named("abstract_method_signature", SymbolKind::Method),
            decl("class_declaration", SymbolKind::Class),
            decl("abstract_class_declaration", SymbolKind::Class),
            decl("interface_declaration", SymbolKind::Interface),
            decl("type_alias_declaration", SymbolKind::TypeAlias),
            decl("enum_declaration", SymbolKind::Enum),
            named("enum_assignment", SymbolKind::Variant),
            enum_member,
            decl("variable_declarator", SymbolKind::Variable),
            named("public_field_definition", SymbolKind::Field),
            named("property_signature", SymbolKind::Field),
        ];
        let highlights = vec![
            colour("comment", HighlightKind::Comment),
            colour("string", HighlightKind::String),
            colour("template_string", HighlightKind::String),
            colour("regex", HighlightKind::String),
            colour("number", HighlightKind::Number),
            colour("true", HighlightKind::Number),
            colour("false", HighlightKind::Number),
            colour("null", HighlightKind::Number),
            colour("undefined", HighlightKind::Number),
            colour("type_identifier", HighlightKind::Type),
            colour("predefined_type", HighlightKind::Type),
            colour("decorator", HighlightKind::Attribute),
            colour_under("identifier", "function_declaration", HighlightKind::Function),
            colour_under("identifier", "call_expression", HighlightKind::Function),
            colour_under("property_identifier", "method_definition", HighlightKind::Function),
            colour_under("property_identifier", "method_signature", HighlightKind::Function),
            colour("this", HighlightKind::Keyword),
            colour("super", HighlightKind::Keyword),
        ];
        let r = Grammar {
            paths: PathSyntax::Posix,
            glob_marker: None,
            symbols,
            leading: vec!["comment", "decorator"],
            identifiers: vec![
                "identifier",
                "type_identifier",
                "property_identifier",
                "shorthand_property_identifier",
                "shorthand_property_identifier_pattern",
            ],
            highlights,
            imports: ImportGrammar {
                syntax: PathSyntax::Posix,
                rules: vec![
                    ImportRule::Node { kind: "import_statement", field: Some(SOURCE_FIELD), under: None },
                    ImportRule::Node { kind: "export_statement", field: Some(SOURCE_FIELD), under: None },
                    ImportRule::Pattern { pattern: "import($PATH)", capture: "PATH" },
                    ImportRule::Pattern { pattern: "require($PATH)", capture: "PATH" },
                ],
                nesting: None,
                statements: Vec::new(),
                alias: None,
                reexports: ReExportRule::Statement("export_statement"),
                glob_under: None,
            },
        };
        proof {
            assert(r.symbols@ =~= typescript_symbol_rules());
            assert(r.leading@ =~= seq!["comment", "decorator"]);
            assert(r.identifiers@ =~= seq!["identifier", "type_identifier", "property_identifier", "shorthand_property_identifier", "shorthand_property_identifier_pattern"]);
            assert(r.highlights@ =~= typescript_colours());
            assert(r.imports.rules@ =~= typescript_import_rules());
        }
        r
    }
}

/// A visibility modifier's text, exactly or as a prefix, and how far it
/// lets a declaration be seen.
#[derive(Debug, Clone, Copy)]
pub struct VisibilityRule {
    pub text: &'static str,
    pub prefix: bool,
    pub reach: ReachKind,
}

/// What a grammar's modifiers and declarations mean.
pub struct Semantics {
    /// An import of a file names what it takes from it.
    pub import_scopes_names: bool,
    /// The kinds of declaration a path can name.
    pub addressable: Vec<SymbolKind>,
    /// The modifiers, in the order they are tried.
    pub visibility: Vec<VisibilityRule>,
    /// How far a declaration with no modifier, or an unknown one, is seen.
    pub default_visibility: ReachKind,
}

/// The rule reads the modifier `m`.
pub open spec fn visibility_rule_reads(r: VisibilityRule, m: Seq<char>) -> bool {
    if r.prefix {
        r.text@.len() <= m.len() && m.take(r.text@.len() as int) == r.text@
    } else {
        m == r.text@
    }
}

/// How far the first rule from the `k`-th on that reads `m` lets a
/// declaration be seen; `fallback` when none does.
pub open spec fn reach_from(rules: Seq<VisibilityRule>, fallback: ReachKind, m: Seq<char>, k: int) -> ReachKind
    decreases rules.len() - k,
{
    if k < 0 || k >= rules.len() {
        fallback
    } else if visibility_rule_reads(rules[k], m) {
        rules[k].reach
    } else {
        reach_from(rules, fallback, m, k + 1)
    }
}

/// How far a modifier lets a declaration be seen.
pub open spec fn reach_of(s: Semantics, modifier: Option<Seq<char>>) -> ReachKind {
    match modifier {
        Some(m) => reach_from(s.visibility@, s.default_visibility, m, 0),
        None => s.default_visibility,
    }
}

/// Whether `rule` reads the modifier `m`.
fn reads(rule: VisibilityRule, m: &Vec<char>) -> (r: bool)
    ensures
        r == visibility_rule_reads(rule, m@),
{
    let t = chars_of(rule.text);
    if rule.prefix {
        if t.len() > m.len() {
            return false;
        }
    } else if t.len() != m.len() {
        return false;
    }
    let mut k: usize = 0;
    while k < t.len()
        invariant
            t@ == rule.text@,
            t@.len() <= m@.len(),
            rule.prefix || t@.len() == m@.len(),
            0 <= k <= t@.len(),
            forall|j: int| 0 <= j < k ==> t@[j] == m@[j],
        decreases t@.len() - k,
    {
        if t[k] != m[k] {
            proof {
                assert(m@.take(t@.len() as int)[k as int] != t@[k as int]);
            }
            return false;
        }
        k = k + 1;
    }
    proof {
        assert(m@.take(t@.len() as int) =~= t@);
        if !rule.prefix {
            assert(m@ =~= t@);
        }
    }
    true
}

impl Semantics {
    /// How far `modifier` lets a declaration be seen.
    pub fn reach_kind(&self, modifier: Option<&str>) -> (r: ReachKind)
        ensures
            r == reach_of(
                *self,
                match modifier {
                    Some(m) => Some(m@),
                    None => None,
                },
            ),
    {
        let m = match modifier {
            Some(m) => chars_of(m),
            None => {
                return self.default_visibility;
            },
        };
        let mut k: usize = 0;
        while k < self.visibility.len()
            invariant
                0 <= k <= self.visibility@.len(),
                Some(m@) == match modifier {
                    Some(x) => Some(x@),
                    None => None,
                },
                reach_from(self.visibility@, self.default_visibility, m@, 0)
                    == reach_from(self.visibility@, self.default_visibility, m@, k as int),
            decreases self.visibility@.len() - k,
        {
            if reads(self.visibility[k], &m) {
                return self.visibility[k].reach;
            }
            k = k + 1;
        }
        self.default_visibility
    }

    /// Whether a path can name a declaration of `kind`.
    pub fn is_addressable(&self, kind: SymbolKind) -> (r: bool)
        ensures
            r == self.addressable@.contains(kind),
    {
        let mut k: usize = 0;
        while k < self.addressable.len()
            invariant
                0 <= k <= self.addressable@.len(),
                forall|j: int| 0 <= j < k ==> self.addressable@[j] != kind,
            decreases self.addressable@.len() - k,
        {
            if self.addressable[k] == kind {
                proof {
                    assert(self.addressable@[k as int] == kind);
                }
                return true;
            }
            k = k + 1;
        }
        false
    }

    /// What Rust's modifiers and declarations mean. `use a::b;` names `b`,
    /// not `b::X`; only `use a::b::*` opens the module.
    pub fn rust() -> (r: Semantics)
        ensures
            rust_semantics(r),
    {
        Semantics {
            import_scopes_names: false,
            addressable: vec![
                SymbolKind::Function,
                SymbolKind::Struct,
                SymbolKind::Enum,
                SymbolKind::Trait,
                SymbolKind::TypeAlias,
                SymbolKind::Const,
                SymbolKind::Static,
                SymbolKind::Module,
                SymbolKind::Macro,
            ],
            visibility: vec![
                (VisibilityRule { text: "pub", prefix: false, reach: ReachKind::Everyone }),
                (VisibilityRule { text: "pub(crate)", prefix: false, reach: ReachKind::Package }),
                (VisibilityRule { text: "pub(super)", prefix: false, reach: ReachKind::Parent }),
                (VisibilityRule { text: "pub(self)", prefix: false, reach: ReachKind::Declaring }),
                (VisibilityRule { text: "pub(in", prefix: true, reach: ReachKind::Path }),
            ],
            default_visibility: ReachKind::Declaring,
        }
    }

    /// What TypeScript's modifiers and declarations mean. A file is a
    /// module: nothing crosses it without `export`; and since
    /// `import { X } from './b'` hides which names were taken, a file
    /// import counts as opening the module.
    pub fn typescript() -> (r: Semantics)
        ensures
            typescript_semantics(r),
    {
        Semantics {
            import_scopes_names: true,
            addressable: vec![
                SymbolKind::Function,
                SymbolKind::Class,
                SymbolKind::Interface,
                SymbolKind::TypeAlias,
                SymbolKind::Enum,
                SymbolKind::Variable,
            ],
            visibility: vec![
                (VisibilityRule { text: "export", prefix: false, reach: ReachKind::Everyone }),
                (VisibilityRule { text: "export default", prefix: false, reach: ReachKind::Everyone }),
            ],
            default_visibility: ReachKind::Declaring,
        }
    }
}

} // verus!

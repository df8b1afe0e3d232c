//! The editor queries on tokens: positions and ranges, the token at a
//! position, and the fixed hover and completion content for a token.

use crate::grammar::ParseErrorView;
use crate::grammar_laws::well_placed;
use crate::parser::ParseError;
use crate::semantic::{SemanticError, SemanticErrorView};
use crate::tokens::{tokens_view, SpecToken, Token, TokenData, TokenDataView, TokenVariant};
use vstd::prelude::*;
use vstd::string::*;

verus! {

/// A 0-based position in a document.
#[derive(Debug, Clone, Copy, PartialEq, Eq, Hash, Structural)]
pub struct Position {
    pub line: usize,
    pub character: usize,
}

/// The characters from `start` up to `end`, `end` itself left out.
#[derive(Debug, Clone, Copy, PartialEq, Eq, Hash, Structural)]
pub struct Range {
    pub start: Position,
    pub end: Position,
}

/// An error to show in the editor.
#[derive(Debug, PartialEq, Eq)]
pub struct Diagnostic {
    pub range: Range,
    pub message: String,
    pub source: String,
}

/// The text to show for a token, and the token's range.
#[derive(Debug, PartialEq, Eq)]
pub struct Hover {
    pub contents: String,
    pub range: Range,
}

/// What a completion item stands for.
#[derive(Debug, Clone, Copy, PartialEq, Eq, Hash, Structural)]
pub enum CompletionItemKind {
    Function,
    Keyword,
    TypeParameter,
    Property,
    Snippet,
}

/// A completion item. `snippet` tells whether the inserted text is a snippet
/// rather than plain text.
#[derive(Debug, PartialEq, Eq)]
pub struct CompletionItem {
    pub label: String,
    pub kind: CompletionItemKind,
    pub detail: String,
    pub insert_text: Option<String>,
    pub snippet: bool,
    pub documentation: Option<String>,
}

/// Mathematical model of a [`Diagnostic`].
pub struct DiagnosticView {
    pub range: Range,
    pub message: Seq<char>,
    pub source: Seq<char>,
}

/// Mathematical model of a [`Hover`].
pub struct HoverView {
    pub contents: Seq<char>,
    pub range: Range,
}

/// Mathematical model of a [`CompletionItem`].
pub struct CompletionItemView {
    pub label: Seq<char>,
    pub kind: CompletionItemKind,
    pub detail: Seq<char>,
    pub insert_text: Option<Seq<char>>,
    pub snippet: bool,
    pub documentation: Option<Seq<char>>,
}

impl View for Diagnostic {
    type V = DiagnosticView;

    open spec fn view(&self) -> DiagnosticView {
        DiagnosticView { range: self.range, message: self.message@, source: self.source@ }
    }
}

impl View for Hover {
    type V = HoverView;

    open spec fn view(&self) -> HoverView {
        HoverView { contents: self.contents@, range: self.range }
    }
}

impl View for CompletionItem {
    type V = CompletionItemView;

    open spec fn view(&self) -> CompletionItemView {
        CompletionItemView {
            label: self.label@,
            kind: self.kind,
            detail: self.detail@,
            insert_text: match self.insert_text {
                Some(t) => Some(t@),
                None => None,
            },
            snippet: self.snippet,
            documentation: match self.documentation {
                Some(t) => Some(t@),
                None => None,
            },
        }
    }
}

/// The model of a sequence of completion items.
pub open spec fn view_items(items: Seq<CompletionItem>) -> Seq<CompletionItemView> {
    items.map_values(|item: CompletionItem| item@)
}

/// The model of a sequence of diagnostics.
pub open spec fn view_diagnostics(diagnostics: Seq<Diagnostic>) -> Seq<DiagnosticView> {
    diagnostics.map_values(|d: Diagnostic| d@)
}

/// The 0-based position where a well-placed token starts.
pub open spec fn token_position(d: TokenDataView) -> Position {
    Position { line: (d.l - 1) as usize, character: (d.c - 1) as usize }
}

/// The range of a well-placed token: from its start, as many columns as its
/// text has characters, on the line where it starts.
pub open spec fn token_range_of(d: TokenDataView) -> Range {
    Range {
        start: token_position(d),
        end: Position { line: (d.l - 1) as usize, character: (d.c - 1 + d.v.len()) as usize },
    }
}

/// Whether `position` lies in the range of the token. A token without a
/// 1-based line and column covers nothing.
pub open spec fn covers(d: TokenDataView, position: Position) -> bool {
    &&& d.l >= 1
    &&& d.c >= 1
    &&& position.line == d.l - 1
    &&& d.c - 1 <= position.character < d.c - 1 + d.v.len()
}

/// The index of the first token at or after `from` that covers `position`.
pub open spec fn first_covering(toks: Seq<SpecToken>, from: int, position: Position) -> Option<
    int,
>
    decreases toks.len() - from,
{
    if from < 0 || from >= toks.len() {
        None
    } else if covers(toks[from].1, position) {
        Some(from)
    } else {
        first_covering(toks, from + 1, position)
    }
}

/// The kind of the first token that covers `position`.
pub open spec fn kind_at(toks: Seq<SpecToken>, position: Position) -> Option<TokenVariant> {
    match first_covering(toks, 0, position) {
        Some(i) => Some(toks[i].0),
        None => None,
    }
}

/// A completion item as [`create_completion_item`] makes it.
pub open spec fn plain_item(
    label: Seq<char>,
    detail: Seq<char>,
    kind: CompletionItemKind,
) -> CompletionItemView {
    CompletionItemView {
        label,
        kind,
        detail,
        insert_text: None,
        snippet: true,
        documentation: None,
    }
}

/// The completion items that fit behind a token of kind `kind`: annotations
/// behind `@`, types behind `:`, property names behind `{`.
pub open spec fn context_items(kind: TokenVariant) -> Seq<CompletionItemView> {
    match kind {
        TokenVariant::At => seq![
            plain_item("min"@, "Minimum value constraint"@, CompletionItemKind::Function),
            plain_item("max"@, "Maximum value constraint"@, CompletionItemKind::Function),
            plain_item("len"@, "Length constraint"@, CompletionItemKind::Function),
            plain_item("minlen"@, "Minimum length constraint"@, CompletionItemKind::Function),
            plain_item("maxlen"@, "Maximum length constraint"@, CompletionItemKind::Function),
            plain_item("if"@, "Conditional validation"@, CompletionItemKind::Keyword),
            plain_item("else"@, "Alternative validation"@, CompletionItemKind::Keyword),
        ],
        TokenVariant::Colon => seq![
            plain_item("string"@, "String type"@, CompletionItemKind::TypeParameter),
            plain_item("u8"@, "8-bit unsigned integer"@, CompletionItemKind::TypeParameter),
            plain_item("u64"@, "64-bit unsigned integer"@, CompletionItemKind::TypeParameter),
            plain_item("bool"@, "Boolean type"@, CompletionItemKind::TypeParameter),
            plain_item("float"@, "Floating point number"@, CompletionItemKind::TypeParameter),
            plain_item("Date"@, "Date type"@, CompletionItemKind::TypeParameter),
        ],
        TokenVariant::LCurly => seq![
            plain_item("id"@, "Identifier property"@, CompletionItemKind::Property),
            plain_item("name"@, "Name property"@, CompletionItemKind::Property),
            plain_item("type"@, "Type property"@, CompletionItemKind::Property),
            plain_item("value"@, "Value property"@, CompletionItemKind::Property),
        ],
        _ => Seq::empty(),
    }
}

/// The completion items that fit at `position`: those for the kind of the
/// token there, none where no token is.
pub open spec fn context_completions(toks: Seq<SpecToken>, position: Position) -> Seq<
    CompletionItemView,
> {
    match kind_at(toks, position) {
        Some(kind) => context_items(kind),
        None => Seq::empty(),
    }
}

/// The completion items that are offered everywhere.
pub open spec fn base_items() -> Seq<CompletionItemView> {
    seq![
        plain_item("type"@, "Define a new type"@, CompletionItemKind::Keyword),
        plain_item("validator"@, "Define a validator"@, CompletionItemKind::Keyword),
        plain_item("set"@, "Define a set"@, CompletionItemKind::Keyword),
        plain_item("enum"@, "Define an enumeration"@, CompletionItemKind::Keyword),
        CompletionItemView {
            label: "object literal"@,
            kind: CompletionItemKind::Snippet,
            detail: "Create a new object type"@,
            insert_text: Some("{\n\t${1:property}: ${2:type},\n\t$0\n}"@),
            snippet: true,
            documentation: None,
        },
    ]
}

/// The completion item for a string that a plugin provides.
pub open spec fn plugin_item(label: Seq<char>) -> CompletionItemView {
    CompletionItemView {
        label,
        kind: CompletionItemKind::Property,
        detail: "Plugin provided"@,
        insert_text: None,
        snippet: false,
        documentation: None,
    }
}

/// The completion items for the strings that the plugins provide.
pub open spec fn plugin_items(provided: Seq<String>) -> Seq<CompletionItemView> {
    provided.map_values(|label: String| plugin_item(label@))
}

/// The documentation of the completion item with this label, if it has any.
pub open spec fn label_documentation(label: Seq<char>) -> Option<Seq<char>> {
    if label == "type"@ {
        Some("Defines a new type in Xenomorph.\n\nExample:\n``````"@)
    } else if label == "string"@ {
        Some("String data type.\n\nCan be constrained with regex patterns or length annotations."@)
    } else if label == "u8"@ {
        Some("8-bit unsigned integer (0-255).\n\nCan be constrained with min/max annotations."@)
    } else {
        None
    }
}

/// A completion item with its documentation filled in, unless it has one
/// already or its label has none.
pub open spec fn resolved(item: CompletionItemView) -> CompletionItemView {
    if item.documentation is None {
        CompletionItemView { documentation: label_documentation(item.label), ..item }
    } else {
        item
    }
}

/// The hover text for an identifier that is spelled as an annotation, by the
/// annotation's name.
pub open spec fn annotation_hover_text(name: Seq<char>) -> Seq<char> {
    if name == "min"@ {
        "**@min**\n\nSpecifies a minimum value for numeric types."@
    } else if name == "max"@ {
        "**@max**\n\nSpecifies a maximum value for numeric types."@
    } else if name == "len"@ {
        "**@len**\n\nSpecifies a length or length range for strings or arrays."@
    } else if name == "if"@ {
        "**@if**\n\nConditional validation that applies only when the condition is met."@
    } else if name == "elseif"@ {
        "**@elesif**\n\nConditional validation that applies only when the preceeding conditions aren't met and this condition is met."@
    } else if name == "else"@ {
        "**@else**\n\nAlternative validation when preceeding conditions are not met."@
    } else {
        "**@"@ + name + "**\n\nAnnotation that provides metadata or validation rules."@
    }
}

/// The hover text for a token of kind `kind` with text `text`: fixed for the
/// keywords `type`, `set`, `enum` and for `@`, made from the text for an
/// identifier, none for any other kind.
pub open spec fn hover_text(kind: TokenVariant, text: Seq<char>) -> Option<Seq<char>> {
    match kind {
        TokenVariant::Type => Some("**type**\n\nDefines a new type in Xenomorph."@),
        TokenVariant::SetKw => Some(
            "**set**\n\nDefines a set type that can contain elements of other types."@,
        ),
        TokenVariant::Enum => Some("**enum**\n\nDefines an enumeration of possible values."@),
        TokenVariant::At => Some(
            "**@**\n\nIndicates the start of an annotation that provides metadata or validation rules."@,
        ),
        TokenVariant::Identifier => if text.len() > 0 && text[0] == '@' {
            Some(annotation_hover_text(text.subrange(1, text.len() as int)))
        } else {
            Some("**"@ + text + "**\n\nIdentifier"@)
        },
        _ => None,
    }
}

/// The hover for a token.
pub open spec fn hover_of(token: SpecToken) -> Option<HoverView> {
    match hover_text(token.0, token.1.v) {
        Some(contents) => Some(HoverView { contents, range: token_range_of(token.1) }),
        None => None,
    }
}

/// The range of a parse error: that of its token, or the first column of the
/// document if it points at none.
pub open spec fn error_range(location: Option<TokenDataView>) -> Range {
    match location {
        Some(d) => token_range_of(d),
        None => Range {
            start: Position { line: 0, character: 0 },
            end: Position { line: 0, character: 1 },
        },
    }
}

/// The diagnostic for a parse error.
pub open spec fn diagnostic_of(e: ParseErrorView) -> DiagnosticView {
    DiagnosticView { range: error_range(e.location), message: e.message, source: "xenomorph"@ }
}

/// The diagnostic for a semantic error.
pub open spec fn semantic_diagnostic(e: SemanticErrorView) -> DiagnosticView {
    DiagnosticView { range: token_range_of(e.location), message: e.message, source: "xenomorph"@ }
}

/// Whether the texts of `a` and `b` are the same.
fn same_text(a: &str, b: &str) -> (r: bool)
    ensures
        r == (a@ == b@),
{
    String::from_str(a) == String::from_str(b)
}

/// The 0-based position where a token starts.
pub fn token_to_position(token: &TokenData) -> (position: Position)
    requires
        well_placed(token@),
    ensures
        position == token_position(token@),
{
    Position { line: token.l - 1, character: token.c - 1 }
}

/// The range of a token.
pub fn token_range(token: &TokenData) -> (range: Range)
    requires
        well_placed(token@),
    ensures
        range == token_range_of(token@),
{
    let start = token_to_position(token);
    let length = token.v.as_str().unicode_len();
    Range { start, end: Position { line: start.line, character: start.character + length } }
}

/// Whether `position` lies in the range of the token.
pub fn token_covers(token: &TokenData, position: Position) -> (r: bool)
    ensures
        r == covers(token@, position),
{
    if token.l < 1 || token.c < 1 {
        return false;
    }
    if token.l - 1 != position.line || position.character < token.c - 1 {
        return false;
    }
    position.character - (token.c - 1) < token.v.as_str().unicode_len()
}

/// The first token whose range holds `position`.
pub fn find_token_at_position(tokens: &Vec<Token>, position: Position) -> (r: Option<&Token>)
    ensures
        match first_covering(tokens_view(tokens@), 0, position) {
            Some(i) => 0 <= i < tokens@.len() && r == Some(&tokens@[i]),
            None => r is None,
        },
{
    let mut i: usize = 0;
    while i < tokens.len()
        invariant
            i <= tokens@.len(),
            first_covering(tokens_view(tokens@), 0, position) == first_covering(
                tokens_view(tokens@),
                i as int,
                position,
            ),
        decreases tokens@.len() - i,
    {
        if token_covers(&tokens[i].1, position) {
            return Some(&tokens[i]);
        }
        i = i + 1;
    }
    None
}

/// A completion item with this label, detail and kind, inserted as a
/// snippet.
pub fn create_completion_item(label: &str, detail: &str, kind: CompletionItemKind) -> (item:
    CompletionItem)
    ensures
        item@ == plain_item(label@, detail@, kind),
{
    CompletionItem {
        label: String::from_str(label),
        kind,
        detail: String::from_str(detail),
        insert_text: None,
        snippet: true,
        documentation: None,
    }
}

fn push_item(items: &mut Vec<CompletionItem>, label: &str, detail: &str, kind: CompletionItemKind)
    ensures
        view_items(final(items)@) == view_items(old(items)@).push(plain_item(label@, detail@, kind)),
{
    let item = create_completion_item(label, detail, kind);
    assert(view_items(items@.push(item)) =~= view_items(items@).push(item@));
    items.push(item);
}

/// The completion items that fit behind a token of kind `kind`.
pub fn completions_for_kind(kind: TokenVariant) -> (items: Vec<CompletionItem>)
    ensures
        view_items(items@) == context_items(kind),
{
    let mut items: Vec<CompletionItem> = Vec::new();
    assert(view_items(items@) =~= Seq::empty());
    match kind {
        TokenVariant::At => {
            push_item(&mut items, "min", "Minimum value constraint", CompletionItemKind::Function);
            push_item(&mut items, "max", "Maximum value constraint", CompletionItemKind::Function);
            push_item(&mut items, "len", "Length constraint", CompletionItemKind::Function);
            push_item(
                &mut items,
                "minlen",
                "Minimum length constraint",
                CompletionItemKind::Function,
            );
            push_item(
                &mut items,
                "maxlen",
                "Maximum length constraint",
                CompletionItemKind::Function,
            );
            push_item(&mut items, "if", "Conditional validation", CompletionItemKind::Keyword);
            push_item(&mut items, "else", "Alternative validation", CompletionItemKind::Keyword);
            assert(view_items(items@) =~= context_items(kind));
        },
        TokenVariant::Colon => {
            push_item(&mut items, "string", "String type", CompletionItemKind::TypeParameter);
            push_item(
                &mut items,
                "u8",
                "8-bit unsigned integer",
                CompletionItemKind::TypeParameter,
            );
            push_item(
                &mut items,
                "u64",
                "64-bit unsigned integer",
                CompletionItemKind::TypeParameter,
            );
            push_item(&mut items, "bool", "Boolean type", CompletionItemKind::TypeParameter);
            push_item(
                &mut items,
                "float",
                "Floating point number",
                CompletionItemKind::TypeParameter,
            );
            push_item(&mut items, "Date", "Date type", CompletionItemKind::TypeParameter);
            assert(view_items(items@) =~= context_items(kind));
        },
        TokenVariant::LCurly => {
            push_item(&mut items, "id", "Identifier property", CompletionItemKind::Property);
            push_item(&mut items, "name", "Name property", CompletionItemKind::Property);
            push_item(&mut items, "type", "Type property", CompletionItemKind::Property);
            push_item(&mut items, "value", "Value property", CompletionItemKind::Property);
            assert(view_items(items@) =~= context_items(kind));
        },
        _ => {},
    }
    items
}

/// The completion items that fit at `position` in `tokens`.
pub fn get_context_completions(tokens: &Vec<Token>, position: Position) -> (items: Vec<
    CompletionItem,
>)
    ensures
        view_items(items@) == context_completions(tokens_view(tokens@), position),
{
    match find_token_at_position(tokens, position) {
        Some(current_token) => {
            proof {
                let i = first_covering(tokens_view(tokens@), 0, position)->0;
                assert(tokens_view(tokens@)[i] == crate::tokens::token_view(tokens@[i]));
            }
            completions_for_kind(current_token.0)
        },
        None => {
            let items: Vec<CompletionItem> = Vec::new();
            assert(view_items(items@) =~= Seq::empty());
            items
        },
    }
}

/// The completion items that are offered everywhere.
pub fn base_completions() -> (items: Vec<CompletionItem>)
    ensures
        view_items(items@) == base_items(),
{
    let mut items: Vec<CompletionItem> = Vec::new();
    assert(view_items(items@) =~= Seq::empty());
    push_item(&mut items, "type", "Define a new type", CompletionItemKind::Keyword);
    push_item(&mut items, "validator", "Define a validator", CompletionItemKind::Keyword);
    push_item(&mut items, "set", "Define a set", CompletionItemKind::Keyword);
    push_item(&mut items, "enum", "Define an enumeration", CompletionItemKind::Keyword);
    let object = CompletionItem {
        label: String::from_str("object literal"),
        kind: CompletionItemKind::Snippet,
        detail: String::from_str("Create a new object type"),
        insert_text: Some(String::from_str("{\n\t${1:property}: ${2:type},\n\t$0\n}")),
        snippet: true,
        documentation: None,
    };
    assert(view_items(items@.push(object)) =~= view_items(items@).push(object@));
    items.push(object);
    assert(view_items(items@) =~= base_items());
    items
}

/// Appends the completion items for the strings that the plugins provide.
pub fn push_plugin_completions(items: &mut Vec<CompletionItem>, provided: &Vec<String>)
    ensures
        view_items(final(items)@) == view_items(old(items)@) + plugin_items(provided@),
{
    let mut i: usize = 0;
    assert(view_items(items@) =~= view_items(old(items)@) + plugin_items(provided@.take(0)));
    while i < provided.len()
        invariant
            i <= provided@.len(),
            view_items(items@) == view_items(old(items)@) + plugin_items(provided@.take(i as int)),
        decreases provided@.len() - i,
    {
        let item = CompletionItem {
            label: provided[i].clone(),
            kind: CompletionItemKind::Property,
            detail: String::from_str("Plugin provided"),
            insert_text: None,
            snippet: false,
            documentation: None,
        };
        assert(view_items(items@.push(item)) =~= view_items(items@).push(item@));
        assert(plugin_items(provided@.take(i + 1)) =~= plugin_items(provided@.take(i as int)).push(
            plugin_item(provided@[i as int]@),
        ));
        items.push(item);
        i = i + 1;
        assert(view_items(items@) =~= view_items(old(items)@) + plugin_items(
            provided@.take(i as int),
        ));
    }
    assert(provided@.take(i as int) =~= provided@);
}

/// Fills in the documentation of a completion item.
pub fn completion_resolve(item: CompletionItem) -> (r: CompletionItem)
    ensures
        r@ == resolved(item@),
{
    if item.documentation.is_some() {
        return item;
    }
    let doc = if same_text(item.label.as_str(), "type") {
        "Defines a new type in Xenomorph.\n\nExample:\n``````"
    } else if same_text(item.label.as_str(), "string") {
        "String data type.\n\nCan be constrained with regex patterns or length annotations."
    } else if same_text(item.label.as_str(), "u8") {
        "8-bit unsigned integer (0-255).\n\nCan be constrained with min/max annotations."
    } else {
        return item;
    };
    CompletionItem {
        label: item.label,
        kind: item.kind,
        detail: item.detail,
        insert_text: item.insert_text,
        snippet: item.snippet,
        documentation: Some(String::from_str(doc)),
    }
}

/// The hover text for an identifier spelled as an annotation.
fn annotation_hover(name: &str) -> (text: String)
    ensures
        text@ == annotation_hover_text(name@),
{
    if same_text(name, "min") {
        String::from_str("**@min**\n\nSpecifies a minimum value for numeric types.")
    } else if same_text(name, "max") {
        String::from_str("**@max**\n\nSpecifies a maximum value for numeric types.")
    } else if same_text(name, "len") {
        String::from_str("**@len**\n\nSpecifies a length or length range for strings or arrays.")
    } else if same_text(name, "if") {
        String::from_str(
            "**@if**\n\nConditional validation that applies only when the condition is met.",
        )
    } else if same_text(name, "elseif") {
        String::from_str(
            "**@elesif**\n\nConditional validation that applies only when the preceeding conditions aren't met and this condition is met.",
        )
    } else if same_text(name, "else") {
        String::from_str(
            "**@else**\n\nAlternative validation when preceeding conditions are not met.",
        )
    } else {
        let mut text = String::from_str("**@");
        text.append(name);
        text.append("**\n\nAnnotation that provides metadata or validation rules.");
        text
    }
}

/// The hover for a token: its text by kind, and its range.
pub fn get_hover_for_token(token: &Token) -> (r: Option<Hover>)
    requires
        well_placed(token.1@),
    ensures
        match hover_of(crate::tokens::token_view(*token)) {
            Some(h) => r matches Some(hover) && hover@ == h,
            None => r is None,
        },
{
    let range = token_range(&token.1);
    let text = token.1.v.as_str();
    let contents = match token.0 {
        TokenVariant::Type => String::from_str("**type**\n\nDefines a new type in Xenomorph."),
        TokenVariant::SetKw => String::from_str(
            "**set**\n\nDefines a set type that can contain elements of other types.",
        ),
        TokenVariant::Enum => String::from_str(
            "**enum**\n\nDefines an enumeration of possible values.",
        ),
        TokenVariant::At => String::from_str(
            "**@**\n\nIndicates the start of an annotation that provides metadata or validation rules.",
        ),
        TokenVariant::Identifier => {
            let length = text.unicode_len();
            if length > 0 && text.get_char(0) == '@' {
                annotation_hover(text.substring_char(1, length))
            } else {
                let mut contents = String::from_str("**");
                contents.append(text);
                contents.append("**\n\nIdentifier");
                contents
            }
        },
        _ => {
            return None;
        },
    };
    Some(Hover { contents, range })
}

/// The diagnostic for a parse error.
pub fn error_diagnostic(error: &ParseError) -> (d: Diagnostic)
    requires
        crate::grammar_laws::error_placed(error@),
    ensures
        d@ == diagnostic_of(error@),
{
    let range = match &error.location {
        Some(token) => token_range(token),
        None => Range {
            start: Position { line: 0, character: 0 },
            end: Position { line: 0, character: 1 },
        },
    };
    Diagnostic { range, message: error.message.clone(), source: String::from_str("xenomorph") }
}

/// The diagnostic for a semantic error.
pub fn semantic_error_diagnostic(error: &SemanticError) -> (d: Diagnostic)
    requires
        well_placed(error.location@),
    ensures
        d@ == semantic_diagnostic(error@),
{
    Diagnostic {
        range: token_range(&error.location),
        message: error.message.clone(),
        source: String::from_str("xenomorph"),
    }
}

} // verus!

//! The analysis cache: the open documents, each with its current text and,
//! once it was asked for, the analysis of that text.
//!
//! An analysis is computed on demand, kept until the document changes or
//! closes, and never outlives the text that it was made from.

use crate::grammar::{parse_source, AnalysisView};
use crate::grammar_laws::{
    analysis_placed, clauses_placed, declaration_placed, declarations_placed,
    lemma_parse_source_placed, well_placed,
};
use crate::parser::{parse, view_errors, ParseError};
use crate::parser_expr::{view_declarations, Declaration, DeclarationView, ExprView};
use crate::queries::{
    base_completions, base_items, context_completions, diagnostic_of, error_diagnostic,
    find_token_at_position, first_covering, get_context_completions, get_hover_for_token, hover_of,
    plugin_items, push_plugin_completions, semantic_diagnostic, semantic_error_diagnostic,
    token_range, token_range_of, view_diagnostics, view_items, CompletionItem, CompletionItemView,
    Diagnostic, DiagnosticView, Hover, HoverView, Position, Range,
};
use crate::semantic::{analyze, chain_error, first_error, first_violation};
use crate::text::text_fits;
use crate::tokens::{token_view, tokens_view, Token, TokenDataView, TokenVariant};
use vstd::prelude::*;
use vstd::string::*;

verus! {

/// The analysis of one text: its tokens, the declarations that parsed, and
/// the errors.
#[derive(Debug, PartialEq)]
pub struct Analysis {
    pub tokens: Vec<Token>,
    pub declarations: Vec<Declaration>,
    pub errors: Vec<ParseError>,
}

impl View for Analysis {
    type V = AnalysisView;

    open spec fn view(&self) -> AnalysisView {
        AnalysisView {
            tokens: tokens_view(self.tokens@),
            declarations: view_declarations(self.declarations@),
            errors: view_errors(self.errors@),
        }
    }
}

/// Analyses `text`.
pub fn analyze_text(text: &str) -> (analysis: Analysis)
    ensures
        analysis@ == parse_source(text@),
        analysis_placed(analysis@),
{
    text_fits(text);
    proof {
        lemma_parse_source_placed(text@);
    }
    let (declarations, errors, tokens) = parse(text);
    Analysis { tokens, declarations, errors }
}

/// What the cache knows of one document: its text, and whether the analysis
/// of that text is at hand.
pub struct DocumentState {
    pub text: Seq<char>,
    pub analyzed: bool,
}

/// The state of the cache: the open documents by URI.
pub type CacheState = Map<Seq<char>, DocumentState>;

/// The state after a document was opened with `text`.
pub open spec fn opened(state: CacheState, uri: Seq<char>, text: Seq<char>) -> CacheState {
    state.insert(uri, DocumentState { text, analyzed: false })
}

/// The state after the changes `changes` were made to a document, each of
/// them a new full text: the last one is the document's text, and the
/// analysis is not at hand. A document that is not open stays unknown.
pub open spec fn changed(state: CacheState, uri: Seq<char>, changes: Seq<Seq<char>>) -> CacheState {
    if state.dom().contains(uri) {
        state.insert(
            uri,
            DocumentState {
                text: if changes.len() > 0 {
                    changes.last()
                } else {
                    state[uri].text
                },
                analyzed: false,
            },
        )
    } else {
        state
    }
}

/// The state after a document was closed.
pub open spec fn closed(state: CacheState, uri: Seq<char>) -> CacheState {
    state.remove(uri)
}

/// The state after the analysis of a document was asked for.
pub open spec fn analyzed(state: CacheState, uri: Seq<char>) -> CacheState {
    if state.dom().contains(uri) {
        state.insert(uri, DocumentState { text: state[uri].text, analyzed: true })
    } else {
        state
    }
}

/// The analysis of a document in `state`: that of its current text, none for
/// a document that is not open.
pub open spec fn analysis_of(state: CacheState, uri: Seq<char>) -> Option<AnalysisView> {
    if state.dom().contains(uri) {
        Some(parse_source(state[uri].text))
    } else {
        None
    }
}

/// The diagnostics of an analysis: one for each parse error, in order, and
/// behind them one for the first semantic error, if there is one.
pub open spec fn diagnostics_of(a: AnalysisView) -> Seq<DiagnosticView> {
    a.errors.map_values(|e: crate::grammar::ParseErrorView| diagnostic_of(e)) + (match first_error(
        a.declarations,
        0,
    ) {
        Some(name) => seq![semantic_diagnostic(chain_error(name))],
        None => Seq::empty(),
    })
}

/// The hover at `position` in an analysis: that of the first token there.
pub open spec fn hover_at(a: AnalysisView, position: Position) -> Option<HoverView> {
    match first_covering(a.tokens, 0, position) {
        Some(i) => hover_of(a.tokens[i]),
        None => None,
    }
}

/// The name token of the first declaration at or after `from` that is
/// called `name`.
pub open spec fn first_declaration(decls: Seq<DeclarationView>, from: int, name: Seq<char>) -> Option<
    TokenDataView,
>
    decreases decls.len() - from,
{
    if from < 0 || from >= decls.len() {
        None
    } else {
        match decls[from] {
            DeclarationView::TypeDecl { name: declared, .. } => if declared.v == name {
                Some(declared)
            } else {
                first_declaration(decls, from + 1, name)
            },
        }
    }
}

/// Where the identifier at `position` is defined: the range of the name of
/// the first declaration that is called like it.
pub open spec fn definition_at(a: AnalysisView, position: Position) -> Option<Range> {
    match first_covering(a.tokens, 0, position) {
        Some(i) => if a.tokens[i].0 == TokenVariant::Identifier {
            match first_declaration(a.declarations, 0, a.tokens[i].1.v) {
                Some(declared) => Some(token_range_of(declared)),
                None => None,
            }
        } else {
            None
        },
        None => None,
    }
}

/// The completion items at `position`: the general ones, those that fit the
/// token there if the document is open, and those of the plugins.
pub open spec fn completions_of(
    analysis: Option<AnalysisView>,
    position: Position,
    provided: Seq<String>,
) -> Seq<CompletionItemView> {
    base_items() + (match analysis {
        Some(a) => context_completions(a.tokens, position),
        None => Seq::empty(),
    }) + plugin_items(provided)
}

proof fn lemma_first_violation_placed(exprs: Seq<ExprView>, i: int, in_chain: bool)
    requires
        clauses_placed(exprs),
    ensures
        first_violation(exprs, i, in_chain) matches Some(name) ==> well_placed(name),
    decreases exprs.len() - i,
{
    if 0 <= i < exprs.len() {
        lemma_first_violation_placed(exprs, i + 1, true);
        lemma_first_violation_placed(exprs, i + 1, false);
    }
}

proof fn lemma_first_error_placed(decls: Seq<DeclarationView>, i: int)
    requires
        declarations_placed(decls),
    ensures
        first_error(decls, i) matches Some(name) ==> well_placed(name),
    decreases decls.len() - i,
{
    if 0 <= i < decls.len() {
        assert(declaration_placed(decls[i]));
        match decls[i] {
            DeclarationView::TypeDecl { t, .. } => {
                lemma_first_violation_placed(t, 0, false);
            },
        }
        lemma_first_error_placed(decls, i + 1);
    }
}

/// The diagnostics of an analysis.
pub fn diagnostics(analysis: &Analysis) -> (r: Vec<Diagnostic>)
    requires
        analysis_placed(analysis@),
    ensures
        view_diagnostics(r@) == diagnostics_of(analysis@),
{
    let mut out: Vec<Diagnostic> = Vec::new();
    let ghost errors = view_errors(analysis.errors@);
    let ghost mapped = errors.map_values(|e: crate::grammar::ParseErrorView| diagnostic_of(e));
    let mut i: usize = 0;
    assert(view_diagnostics(out@) =~= mapped.take(0));
    while i < analysis.errors.len()
        invariant
            i <= analysis.errors@.len(),
            analysis_placed(analysis@),
            errors == view_errors(analysis.errors@),
            mapped == errors.map_values(|e: crate::grammar::ParseErrorView| diagnostic_of(e)),
            view_diagnostics(out@) == mapped.take(i as int),
        decreases analysis.errors@.len() - i,
    {
        assert(errors[i as int] == analysis.errors@[i as int]@);
        let d = error_diagnostic(&analysis.errors[i]);
        assert(view_diagnostics(out@.push(d)) =~= view_diagnostics(out@).push(d@));
        out.push(d);
        i = i + 1;
        assert(view_diagnostics(out@) =~= mapped.take(i as int));
    }
    assert(mapped.take(i as int) =~= mapped);
    proof {
        lemma_first_error_placed(view_declarations(analysis.declarations@), 0);
    }
    match analyze(&analysis.declarations) {
        Ok(_) => {
            assert(view_diagnostics(out@) =~= diagnostics_of(analysis@));
        },
        Err(e) => {
            let d = semantic_error_diagnostic(&e);
            assert(view_diagnostics(out@.push(d)) =~= view_diagnostics(out@).push(d@));
            out.push(d);
            assert(view_diagnostics(out@) =~= diagnostics_of(analysis@));
        },
    }
    out
}

/// The hover at `position` in an analysis.
pub fn hover_in(analysis: &Analysis, position: Position) -> (r: Option<Hover>)
    requires
        analysis_placed(analysis@),
    ensures
        match hover_at(analysis@, position) {
            Some(h) => r matches Some(hover) && hover@ == h,
            None => r is None,
        },
{
    match find_token_at_position(&analysis.tokens, position) {
        Some(token) => {
            proof {
                let i = first_covering(analysis@.tokens, 0, position)->0;
                assert(analysis@.tokens[i] == token_view(analysis.tokens@[i]));
            }
            get_hover_for_token(token)
        },
        None => None,
    }
}

/// Where the identifier at `position` is defined.
#[verifier::loop_isolation(false)]
pub fn definition_in(analysis: &Analysis, position: Position) -> (r: Option<Range>)
    requires
        analysis_placed(analysis@),
    ensures
        r == definition_at(analysis@, position),
{
    let token = match find_token_at_position(&analysis.tokens, position) {
        Some(token) => token,
        None => {
            return None;
        },
    };
    proof {
        let i = first_covering(analysis@.tokens, 0, position)->0;
        assert(analysis@.tokens[i] == token_view(analysis.tokens@[i]));
    }
    if token.0 != TokenVariant::Identifier {
        return None;
    }
    let ghost decls = view_declarations(analysis.declarations@);
    let mut k: usize = 0;
    while k < analysis.declarations.len()
        invariant
            k <= analysis.declarations@.len(),
            analysis_placed(analysis@),
            decls == view_declarations(analysis.declarations@),
            first_declaration(decls, 0, token.1.v@) == first_declaration(
                decls,
                k as int,
                token.1.v@,
            ),
        decreases analysis.declarations@.len() - k,
    {
        assert(decls[k as int] == analysis.declarations@[k as int]@);
        assert(declaration_placed(decls[k as int]));
        match &analysis.declarations[k] {
            Declaration::TypeDecl { name, .. } => {
                if name.v == token.1.v {
                    return Some(token_range(name));
                }
            },
        }
        k = k + 1;
    }
    None
}

struct Document {
    uri: String,
    text: String,
    analysis: Option<Analysis>,
}

spec fn document_state(d: Document) -> DocumentState {
    DocumentState { text: d.text@, analyzed: d.analysis is Some }
}

spec fn unique(docs: Seq<Document>) -> bool {
    forall|i: int, j: int|
        0 <= i < j < docs.len() ==> (#[trigger] docs[i]).uri@ != (#[trigger] docs[j]).uri@
}

spec fn holds(docs: Seq<Document>, uri: Seq<char>) -> bool {
    exists|i: int| 0 <= i < docs.len() && (#[trigger] docs[i]).uri@ == uri
}

spec fn index_of(docs: Seq<Document>, uri: Seq<char>) -> int {
    choose|i: int| 0 <= i < docs.len() && (#[trigger] docs[i]).uri@ == uri
}

spec fn documents_state(docs: Seq<Document>) -> CacheState {
    Map::new(
        |uri: Seq<char>| holds(docs, uri),
        |uri: Seq<char>| document_state(docs[index_of(docs, uri)]),
    )
}

proof fn lemma_lookup(docs: Seq<Document>, i: int)
    requires
        unique(docs),
        0 <= i < docs.len(),
    ensures
        holds(docs, docs[i].uri@),
        index_of(docs, docs[i].uri@) == i,
        documents_state(docs).dom().contains(docs[i].uri@),
        documents_state(docs)[docs[i].uri@] == document_state(docs[i]),
{
    assert(holds(docs, docs[i].uri@));
    let j = index_of(docs, docs[i].uri@);
    assert(0 <= j < docs.len() && docs[j].uri@ == docs[i].uri@);
    if j < i {
        assert(docs[j].uri@ != docs[i].uri@);
    }
    if i < j {
        assert(docs[i].uri@ != docs[j].uri@);
    }
}

proof fn lemma_replace(docs: Seq<Document>, i: int, d: Document)
    requires
        unique(docs),
        0 <= i < docs.len(),
        d.uri@ == docs[i].uri@,
    ensures
        unique(docs.update(i, d)),
        documents_state(docs.update(i, d)) == documents_state(docs).insert(
            d.uri@,
            document_state(d),
        ),
{
    let after = docs.update(i, d);
    assert forall|a: int, b: int| 0 <= a < b < after.len() implies (#[trigger] after[a]).uri@ != (
    #[trigger] after[b]).uri@ by {
        assert(after[a].uri@ == docs[a].uri@);
        assert(after[b].uri@ == docs[b].uri@);
    }
    assert forall|uri: Seq<char>| holds(after, uri) == holds(docs, uri) by {
        if holds(after, uri) {
            let k = index_of(after, uri);
            assert(docs[k].uri@ == uri);
        }
        if holds(docs, uri) {
            let k = index_of(docs, uri);
            assert(after[k].uri@ == uri);
        }
    }
    assert forall|uri: Seq<char>| holds(after, uri) implies #[trigger] documents_state(after)[uri]
        == documents_state(docs).insert(d.uri@, document_state(d))[uri] by {
        let k = index_of(after, uri);
        lemma_lookup(after, k);
        if k != i {
            assert(after[k] == docs[k]);
            lemma_lookup(docs, k);
            assert(docs[k].uri@ != docs[i].uri@) by {
                if k < i {
                    assert(docs[k].uri@ != docs[i].uri@);
                } else {
                    assert(docs[i].uri@ != docs[k].uri@);
                }
            }
        }
    }
    lemma_lookup(docs, i);
    assert(documents_state(after) =~= documents_state(docs).insert(d.uri@, document_state(d)));
}

proof fn lemma_append(docs: Seq<Document>, d: Document)
    requires
        unique(docs),
        !holds(docs, d.uri@),
    ensures
        unique(docs.push(d)),
        documents_state(docs.push(d)) == documents_state(docs).insert(d.uri@, document_state(d)),
{
    let after = docs.push(d);
    assert forall|a: int, b: int| 0 <= a < b < after.len() implies (#[trigger] after[a]).uri@ != (
    #[trigger] after[b]).uri@ by {
        assert(after[a] == docs[a]);
        if b < docs.len() {
            assert(after[b] == docs[b]);
        } else {
            if docs[a].uri@ == d.uri@ {
                assert(holds(docs, d.uri@));
            }
        }
    }
    assert forall|uri: Seq<char>| holds(after, uri) == (holds(docs, uri) || uri == d.uri@) by {
        if holds(after, uri) {
            let k = index_of(after, uri);
            if k < docs.len() {
                assert(docs[k].uri@ == uri);
            }
        }
        if holds(docs, uri) {
            let k = index_of(docs, uri);
            assert(after[k].uri@ == uri);
        }
        if uri == d.uri@ {
            assert(after[docs.len() as int].uri@ == uri);
        }
    }
    assert forall|uri: Seq<char>| holds(after, uri) implies #[trigger] documents_state(after)[uri]
        == documents_state(docs).insert(d.uri@, document_state(d))[uri] by {
        let k = index_of(after, uri);
        lemma_lookup(after, k);
        if k < docs.len() {
            assert(after[k] == docs[k]);
            lemma_lookup(docs, k);
            if docs[k].uri@ == d.uri@ {
                assert(holds(docs, d.uri@));
            }
        }
    }
    assert(documents_state(after) =~= documents_state(docs).insert(d.uri@, document_state(d)));
}

proof fn lemma_remove(docs: Seq<Document>, i: int)
    requires
        unique(docs),
        0 <= i < docs.len(),
    ensures
        unique(docs.remove(i)),
        documents_state(docs.remove(i)) == documents_state(docs).remove(docs[i].uri@),
{
    let after = docs.remove(i);
    let from = |k: int|
        if k < i {
            k
        } else {
            k + 1
        };
    assert forall|k: int| 0 <= k < after.len() implies #[trigger] after[k] == docs[from(k)] by {}
    assert forall|a: int, b: int| 0 <= a < b < after.len() implies (#[trigger] after[a]).uri@ != (
    #[trigger] after[b]).uri@ by {
        assert(after[a] == docs[from(a)]);
        assert(after[b] == docs[from(b)]);
        assert(docs[from(a)].uri@ != docs[from(b)].uri@);
    }
    assert forall|uri: Seq<char>| holds(after, uri) == (holds(docs, uri) && uri
        != docs[i].uri@) by {
        if holds(after, uri) {
            let k = index_of(after, uri);
            assert(after[k] == docs[from(k)]);
            assert(docs[from(k)].uri@ == uri);
            if from(k) < i {
                assert(docs[from(k)].uri@ != docs[i].uri@);
            } else {
                assert(docs[i].uri@ != docs[from(k)].uri@);
            }
        }
        if holds(docs, uri) && uri != docs[i].uri@ {
            let k = index_of(docs, uri);
            if k < i {
                assert(after[k] == docs[from(k)]);
                assert(after[k].uri@ == uri);
            } else {
                assert(after[k - 1] == docs[from(k - 1)]);
                assert(after[k - 1].uri@ == uri);
            }
        }
    }
    assert forall|uri: Seq<char>| holds(after, uri) implies #[trigger] documents_state(after)[uri]
        == documents_state(docs).remove(docs[i].uri@)[uri] by {
        let k = index_of(after, uri);
        lemma_lookup(after, k);
        assert(after[k] == docs[from(k)]);
        lemma_lookup(docs, from(k));
    }
    assert(documents_state(after) =~= documents_state(docs).remove(docs[i].uri@));
}

/// The open documents and their analyses.
pub struct Backend {
    documents: Vec<Document>,
}

impl View for Backend {
    type V = CacheState;

    closed spec fn view(&self) -> CacheState {
        documents_state(self.documents@)
    }
}

impl Backend {
    /// The invariant of the cache: every document is held once, and an
    /// analysis that is at hand is the analysis of the document's current
    /// text.
    pub closed spec fn wf(&self) -> bool {
        &&& unique(self.documents@)
        &&& forall|i: int|
            0 <= i < self.documents@.len() ==> {
                (#[trigger] self.documents@[i]).analysis matches Some(a) ==> a@ == parse_source(
                    self.documents@[i].text@,
                ) && analysis_placed(a@)
            }
    }

    /// A cache without documents.
    pub fn new() -> (backend: Self)
        ensures
            backend.wf(),
            backend@ == Map::<Seq<char>, DocumentState>::empty(),
    {
        let backend = Backend { documents: Vec::new() };
        assert(backend@ =~= Map::<Seq<char>, DocumentState>::empty());
        backend
    }

    /// The index of the document `uri`.
    fn find(&self, uri: &String) -> (r: Option<usize>)
        requires
            self.wf(),
        ensures
            match r {
                Some(i) => i < self.documents@.len() && self.documents@[i as int].uri@ == uri@
                    && self@.dom().contains(uri@) && self@[uri@] == document_state(
                    self.documents@[i as int],
                ),
                None => !holds(self.documents@, uri@) && !self@.dom().contains(uri@),
            },
    {
        let mut i: usize = 0;
        while i < self.documents.len()
            invariant
                self.wf(),
                i <= self.documents@.len(),
                forall|k: int| 0 <= k < i ==> (#[trigger] self.documents@[k]).uri@ != uri@,
            decreases self.documents@.len() - i,
        {
            if self.documents[i].uri == *uri {
                proof {
                    lemma_lookup(self.documents@, i as int);
                }
                return Some(i);
            }
            i = i + 1;
        }
        None
    }

    /// Whether the document `uri` is open.
    pub fn is_open(&self, uri: &String) -> (r: bool)
        requires
            self.wf(),
        ensures
            r == self@.dom().contains(uri@),
    {
        self.find(uri).is_some()
    }

    /// The current text of the document `uri`, if it is open.
    pub fn text(&self, uri: &String) -> (r: Option<String>)
        requires
            self.wf(),
        ensures
            match r {
                Some(text) => self@.dom().contains(uri@) && text@ == self@[uri@].text,
                None => !self@.dom().contains(uri@),
            },
    {
        match self.find(uri) {
            Some(i) => Some(self.documents[i].text.clone()),
            None => None,
        }
    }

    /// Stores `text` as the text of the document `uri`, which is open from
    /// now on. An analysis of an earlier text is discarded.
    pub fn did_open(&mut self, uri: String, text: String)
        requires
            old(self).wf(),
        ensures
            final(self).wf(),
            final(self)@ == opened(old(self)@, uri@, text@),
    {
        let found = self.find(&uri);
        let document = Document { uri, text, analysis: None };
        match found {
            Some(i) => {
                proof {
                    lemma_replace(self.documents@, i as int, document);
                }
                self.documents.set(i, document);
            },
            None => {
                proof {
                    lemma_append(self.documents@, document);
                }
                self.documents.push(document);
            },
        }
    }

    /// Replaces the text of the open document `uri` by the last of
    /// `changes`, each of which is a full text, and discards its analysis.
    /// A document that is not open stays unknown.
    pub fn did_change(&mut self, uri: &String, changes: Vec<String>)
        requires
            old(self).wf(),
        ensures
            final(self).wf(),
            final(self)@ == changed(
                old(self)@,
                uri@,
                changes@.map_values(|text: String| text@),
            ),
    {
        let mut changes = changes;
        let ghost texts = changes@.map_values(|text: String| text@);
        let i = match self.find(uri) {
            Some(i) => i,
            None => {
                return ;
            },
        };
        let text = match changes.pop() {
            Some(text) => {
                assert(texts.last() == text@);
                text
            },
            None => self.documents[i].text.clone(),
        };
        let document = Document { uri: uri.clone(), text, analysis: None };
        proof {
            lemma_replace(self.documents@, i as int, document);
        }
        self.documents.set(i, document);
    }

    /// Forgets the document `uri`: its text and its analysis.
    pub fn did_close(&mut self, uri: &String)
        requires
            old(self).wf(),
        ensures
            final(self).wf(),
            final(self)@ == closed(old(self)@, uri@),
    {
        match self.find(uri) {
            Some(i) => {
                proof {
                    lemma_remove(self.documents@, i as int);
                }
                let ghost before = self.documents@;
                self.documents.remove(i);
                assert forall|k: int| 0 <= k < self.documents@.len() implies ((
                #[trigger] self.documents@[k]).analysis matches Some(a) ==> a@ == parse_source(
                    self.documents@[k].text@,
                ) && analysis_placed(a@)) by {
                    if k < i {
                        assert(self.documents@[k] == before[k]);
                    } else {
                        assert(self.documents@[k] == before[k + 1]);
                    }
                }
            },
            None => {
                assert(self@ =~= closed(self@, uri@));
            },
        }
    }

    /// The analysis of the open document `uri`: the one at hand, or a new
    /// one of the document's current text, which is kept. `None` for a
    /// document that is not open.
    pub fn parse_document(&mut self, uri: &String) -> (r: Option<&Analysis>)
        requires
            old(self).wf(),
        ensures
            final(self).wf(),
            final(self)@ == analyzed(old(self)@, uri@),
            match analysis_of(old(self)@, uri@) {
                Some(a) => r matches Some(found) && found@ == a && analysis_placed(a),
                None => r is None,
            },
    {
        let i = match self.find(uri) {
            Some(i) => i,
            None => {
                return None;
            },
        };
        if self.documents[i].analysis.is_none() {
            let analysis = analyze_text(self.documents[i].text.as_str());
            let ghost before = self.documents@;
            self.documents[i].analysis = Some(analysis);
            proof {
                let document = self.documents@[i as int];
                assert(self.documents@ =~= before.update(i as int, document));
                lemma_replace(before, i as int, document);
            }
        } else {
            assert(self@ =~= analyzed(self@, uri@));
        }
        match &self.documents[i].analysis {
            Some(analysis) => Some(analysis),
            None => None,
        }
    }

    /// The diagnostics of the open document `uri`, to be published even
    /// where there are none. `None` for a document that is not open.
    pub fn validate_document(&mut self, uri: &String) -> (r: Option<Vec<Diagnostic>>)
        requires
            old(self).wf(),
        ensures
            final(self).wf(),
            final(self)@ == analyzed(old(self)@, uri@),
            match analysis_of(old(self)@, uri@) {
                Some(a) => r matches Some(found) && view_diagnostics(found@) == diagnostics_of(a),
                None => r is None,
            },
    {
        match self.parse_document(uri) {
            Some(analysis) => Some(diagnostics(analysis)),
            None => None,
        }
    }

    /// The completion items at `position` of the document `uri`, with the
    /// strings `provided` by the plugins.
    pub fn completion(&mut self, uri: &String, position: Position, provided: &Vec<String>) -> (r:
        Vec<CompletionItem>)
        requires
            old(self).wf(),
        ensures
            final(self).wf(),
            final(self)@ == analyzed(old(self)@, uri@),
            view_items(r@) == completions_of(analysis_of(old(self)@, uri@), position, provided@),
    {
        let mut completions = base_completions();
        match self.parse_document(uri) {
            Some(analysis) => {
                let mut context = get_context_completions(&analysis.tokens, position);
                assert(view_items(completions@ + context@) =~= view_items(completions@)
                    + view_items(context@));
                completions.append(&mut context);
            },
            None => {
                assert(view_items(completions@) =~= view_items(completions@) + Seq::empty());
            },
        }
        push_plugin_completions(&mut completions, provided);
        completions
    }

    /// The hover at `position` of the document `uri`.
    pub fn hover(&mut self, uri: &String, position: Position) -> (r: Option<Hover>)
        requires
            old(self).wf(),
        ensures
            final(self).wf(),
            final(self)@ == analyzed(old(self)@, uri@),
            match analysis_of(old(self)@, uri@) {
                Some(a) => match hover_at(a, position) {
                    Some(h) => r matches Some(found) && found@ == h,
                    None => r is None,
                },
                None => r is None,
            },
    {
        match self.parse_document(uri) {
            Some(analysis) => hover_in(analysis, position),
            None => None,
        }
    }

    /// Where the identifier at `position` of the document `uri` is defined.
    pub fn goto_definition(&mut self, uri: &String, position: Position) -> (r: Option<Range>)
        requires
            old(self).wf(),
        ensures
            final(self).wf(),
            final(self)@ == analyzed(old(self)@, uri@),
            r == match analysis_of(old(self)@, uri@) {
                Some(a) => definition_at(a, position),
                None => None,
            },
    {
        match self.parse_document(uri) {
            Some(analysis) => definition_in(analysis, position),
            None => None,
        }
    }
}

/// A change invalidates: whatever was known of an open document before, its
/// analysis is not at hand after a change, and the next query is answered
/// from the new text.
pub proof fn lemma_change_invalidates(
    state: CacheState,
    uri: Seq<char>,
    earlier: Seq<Seq<char>>,
    text: Seq<char>,
)
    requires
        state.dom().contains(uri),
    ensures
        !changed(state, uri, earlier.push(text))[uri].analyzed,
        analysis_of(changed(state, uri, earlier.push(text)), uri) == Some(parse_source(text)),
        analyzed(changed(state, uri, earlier.push(text)), uri)[uri].text == text,
{
}

/// A closed document is unknown: after a close it is not in the cache, a
/// query finds no analysis, and asking for one does not bring it back.
pub proof fn lemma_close_forgets(state: CacheState, uri: Seq<char>)
    ensures
        !closed(state, uri).dom().contains(uri),
        analysis_of(closed(state, uri), uri) is None,
        analyzed(closed(state, uri), uri) == closed(state, uri),
{
}

/// Opening, changing, closing or analysing one document leaves every other
/// document as it was.
pub proof fn lemma_other_documents_untouched(
    state: CacheState,
    uri: Seq<char>,
    other: Seq<char>,
    text: Seq<char>,
    changes: Seq<Seq<char>>,
)
    requires
        other != uri,
    ensures
        opened(state, uri, text).dom().contains(other) == state.dom().contains(other),
        changed(state, uri, changes).dom().contains(other) == state.dom().contains(other),
        closed(state, uri).dom().contains(other) == state.dom().contains(other),
        analyzed(state, uri).dom().contains(other) == state.dom().contains(other),
        state.dom().contains(other) ==> opened(state, uri, text)[other] == state[other] && changed(
            state,
            uri,
            changes,
        )[other] == state[other] && closed(state, uri)[other] == state[other] && analyzed(
            state,
            uri,
        )[other] == state[other],
{
}

} // verus!

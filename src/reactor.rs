//! A reactor binds one document's text, syntax tree and analysis. The
//! analysis is always that of the stored tree over the stored text: an edit
//! is first tried on a copy of the text, and the new text, its tree and the
//! fresh analysis replace the old ones together.

use crate::analysis::{analysis_of, Analysis, AnalysisView};
use crate::symbol::{copy_table, PathStatus, ResolvedImport};
use crate::syntax::{SyntaxNode, SyntaxTree};
use crate::text::{
    content_change_result, ContentChange, DocumentError, EditDescriptor, PositionEncodingKind,
    TextDocument,
};
use vstd::prelude::*;

verus! {

/// A reactor as a mathematical value.
pub struct ReactorView {
    pub version: i32,
    pub text: Seq<char>,
    pub nodes: Seq<SyntaxNode>,
    pub self_path: Seq<char>,
    pub table: Seq<(Seq<char>, PathStatus, Seq<char>)>,
    pub analysis: AnalysisView,
}

/// One open document: its version, text, tree and analysis.
pub struct Reactor {
    version: i32,
    doc: TextDocument,
    tree: SyntaxTree,
    self_path: String,
    table: Vec<ResolvedImport>,
    analysis: Analysis,
}

impl View for Reactor {
    type V = ReactorView;

    closed spec fn view(&self) -> ReactorView {
        ReactorView {
            version: self.version,
            text: self.doc@,
            nodes: self.tree.nodes@,
            self_path: self.self_path@,
            table: self.table@.map_values(|e: ResolvedImport| e@),
            analysis: self.analysis@,
        }
    }
}

impl Reactor {
    /// The analysis is the one of the stored tree over the stored text.
    pub open spec fn wf(&self) -> bool {
        self@.analysis == analysis_of(self@.text, self@.nodes, self@.table, self@.self_path)
    }

    /// Opens the document at `self_path` holding `text`, whose syntax tree
    /// is `tree` and whose import paths resolve as `table` says, and runs
    /// the analysis once.
    pub fn new(self_path: String, text: &str, version: i32, tree: SyntaxTree, table: Vec<ResolvedImport>) -> (r:
        Reactor)
        ensures
            r.wf(),
            r@.version == version,
            r@.text == text@,
            r@.nodes == tree.nodes@,
            r@.self_path == self_path@,
            r@.table == table@.map_values(|e: ResolvedImport| e@),
    {
        let doc = TextDocument::new(text);
        let analysis = Analysis::new(&doc, &tree, self_path.clone(), copy_table(&table));
        Reactor { version, doc, tree, self_path, table, analysis }
    }

    /// The document's version.
    pub fn version(&self) -> (v: i32)
        ensures
            v == self@.version,
    {
        self.version
    }

    /// The document's text.
    pub fn get_document(&self) -> (d: &TextDocument)
        ensures
            d@ == self@.text,
    {
        &self.doc
    }

    /// The document's syntax tree.
    pub fn get_tree(&self) -> (t: &SyntaxTree)
        ensures
            t.nodes@ == self@.nodes,
    {
        &self.tree
    }

    /// The document's analysis.
    pub fn get_analysis(&self) -> (a: &Analysis)
        ensures
            a@ == self@.analysis,
    {
        &self.analysis
    }

    /// Tries an editor change on a copy of the text: the new text and its
    /// edit descriptor, or the error that refuses the change. The reactor
    /// is left as it was.
    pub fn preview_change(&self, change: &ContentChange, enc: PositionEncodingKind) -> (r: Result<
        (TextDocument, Option<EditDescriptor>),
        DocumentError,
    >)
        ensures
            match content_change_result(self@.text, change.range, change.text@, enc) {
                Ok((t, e)) => r matches Ok((d, e2)) && d@ == t && e2 == e,
                Err(err) => r == Err::<(TextDocument, Option<EditDescriptor>), DocumentError>(err),
            },
    {
        let mut copy = self.doc.duplicate();
        match copy.apply_content_change(change, enc) {
            Ok(edit) => Ok((copy, edit)),
            Err(e) => Err(e),
        }
    }

    /// Replaces the text, tree and import resolution at a new version, and
    /// reruns the analysis.
    pub fn install(&mut self, version: i32, doc: TextDocument, tree: SyntaxTree, table: Vec<ResolvedImport>)
        ensures
            final(self).wf(),
            final(self)@.version == version,
            final(self)@.text == doc@,
            final(self)@.nodes == tree.nodes@,
            final(self)@.self_path == old(self)@.self_path,
            final(self)@.table == table@.map_values(|e: ResolvedImport| e@),
    {
        let analysis = Analysis::new(&doc, &tree, self.self_path.clone(), copy_table(&table));
        self.version = version;
        self.doc = doc;
        self.tree = tree;
        self.table = table;
        self.analysis = analysis;
    }
}

} // verus!

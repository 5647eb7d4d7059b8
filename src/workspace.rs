//! The registry of open documents, keyed by document identity. Locking is
//! the caller's: every method that changes the registry takes `&mut self`,
//! every query `&self`.

use crate::analysis::analysis_of;
use crate::reactor::{Reactor, ReactorView};
use crate::rule::same_text;
use crate::symbol::ResolvedImport;
use crate::syntax::SyntaxTree;
use crate::text::TextDocument;
use vstd::prelude::*;

verus! {

/// A document identity and its reactor.
pub struct WorkspaceEntry {
    pub uri: String,
    pub reactor: Reactor,
}

/// The open documents.
pub struct Workspace {
    entries: Vec<WorkspaceEntry>,
}

/// The index of the entry for `uri`, if any.
pub open spec fn entry_index(v: Seq<(Seq<char>, ReactorView)>, uri: Seq<char>) -> Option<int> {
    if exists|k: int| 0 <= k < v.len() && v[k].0 == uri {
        Some(choose|k: int| 0 <= k < v.len() && v[k].0 == uri)
    } else {
        None
    }
}

impl View for Workspace {
    type V = Seq<(Seq<char>, ReactorView)>;

    closed spec fn view(&self) -> Seq<(Seq<char>, ReactorView)> {
        self.entries@.map_values(|e: WorkspaceEntry| (e.uri@, e.reactor@))
    }
}

impl Workspace {
    /// Each identity has one entry, and every reactor's analysis is that of
    /// its tree and text.
    pub closed spec fn wf(&self) -> bool {
        &&& forall|i: int, j: int|
            0 <= i < j < self.entries@.len() ==> #[trigger] self.entries@[i].uri@
                != #[trigger] self.entries@[j].uri@
        &&& forall|i: int| 0 <= i < self.entries@.len() ==> #[trigger] self.entries@[i].reactor.wf()
    }

    /// Each identity has one entry.
    pub proof fn lemma_unique(&self)
        requires
            self.wf(),
        ensures
            forall|i: int, j: int|
                0 <= i < j < self@.len() ==> #[trigger] self@[i].0 != #[trigger] self@[j].0,
    {
        assert forall|i: int, j: int| 0 <= i < j < self@.len() implies #[trigger] self@[i].0
            != #[trigger] self@[j].0 by {
            assert(self.entries@[i].uri@ != self.entries@[j].uri@);
        }
    }

    /// Every open document's analysis is the one of its current text and
    /// tree.
    pub proof fn lemma_entries_analyzed(&self)
        requires
            self.wf(),
        ensures
            forall|k: int|
                0 <= k < self@.len() ==> (#[trigger] self@[k]).1.analysis == analysis_of(
                    self@[k].1.text,
                    self@[k].1.nodes,
                    self@[k].1.table,
                    self@[k].1.self_path,
                ),
    {
        assert forall|k: int| 0 <= k < self@.len() implies (#[trigger] self@[k]).1.analysis
            == analysis_of(
            self@[k].1.text,
            self@[k].1.nodes,
            self@[k].1.table,
            self@[k].1.self_path,
        ) by {
            assert(self.entries@[k].reactor.wf());
        }
    }

    /// An empty registry.
    pub fn new() -> (w: Workspace)
        ensures
            w.wf(),
            w@.len() == 0,
    {
        let w = Workspace { entries: Vec::new() };
        assert(w@ =~= Seq::<(Seq<char>, ReactorView)>::empty());
        w
    }

    /// The index of the entry for `uri`, if any.
    pub fn find(&self, uri: &str) -> (r: Option<usize>)
        ensures
            r matches Some(k) ==> k < self@.len() && self@[k as int].0 == uri@,
            r is None ==> entry_index(self@, uri@) is None,
    {
        let mut i: usize = 0;
        while i < self.entries.len()
            invariant
                i <= self.entries@.len(),
                forall|k: int| 0 <= k < i ==> self@[k].0 != uri@,
            decreases self.entries@.len() - i,
        {
            if same_text(self.entries[i].uri.as_str(), uri) {
                return Some(i);
            }
            i += 1;
        }
        None
    }

    /// The reactor of `uri`, if the document is open.
    pub fn get(&self, uri: &str) -> (r: Option<&Reactor>)
        ensures
            r matches Some(x) ==> exists|k: int|
                0 <= k < self@.len() && self@[k].0 == uri@ && self@[k].1 == x@,
            r matches Some(x) ==> (self.wf() ==> x.wf()),
            r is None ==> entry_index(self@, uri@) is None,
    {
        match self.find(uri) {
            Some(k) => Some(&self.entries[k].reactor),
            None => None,
        }
    }

    /// Whether opening `uri` at `version` has work to do: false when the
    /// document is open at that version already.
    pub fn needs_open(&self, uri: &str, version: i32) -> (b: bool)
        requires
            self.wf(),
        ensures
            b == !(exists|k: int|
                0 <= k < self@.len() && self@[k].0 == uri@ && self@[k].1.version == version),
    {
        proof {
            self.lemma_unique();
        }
        match self.find(uri) {
            Some(k) => self.entries[k].reactor.version() != version,
            None => true,
        }
    }

    /// Opens a document: its reactor replaces the entry for `uri`, or is
    /// added, unless the document is open at the same version already,
    /// in which case nothing changes.
    pub fn on_did_open(&mut self, uri: String, reactor: Reactor)
        requires
            old(self).wf(),
            reactor.wf(),
        ensures
            final(self).wf(),
            (exists|k: int|
                0 <= k < old(self)@.len() && old(self)@[k].0 == uri@ && old(self)@[k].1.version
                    == reactor@.version) ==> final(self)@ == old(self)@,
            !(exists|k: int|
                0 <= k < old(self)@.len() && old(self)@[k].0 == uri@ && old(self)@[k].1.version
                    == reactor@.version) ==> match entry_index(old(self)@, uri@) {
                Some(k) => final(self)@ == old(self)@.update(k, (uri@, reactor@)),
                None => final(self)@ == old(self)@.push((uri@, reactor@)),
            },
    {
        proof {
            self.lemma_unique();
        }
        match self.find(uri.as_str()) {
            Some(k) => {
                if self.entries[k].reactor.version() == reactor.version() {
                    return;
                }
                let ghost old_view = self@;
                let ghost old_entries = self.entries@;
                let _ = self.entries.remove(k);
                self.entries.insert(k, WorkspaceEntry { uri, reactor });
                proof {
                    assert forall|i: int| 0 <= i < old_entries.len() && i != k implies #[trigger] self.entries@[i]
                        == old_entries[i] by {}
                    assert(self.entries@[k as int].uri@ == old_entries[k as int].uri@);
                    assert(self@ =~= old_view.update(k as int, (old_view[k as int].0, reactor@)));
                    assert(entry_index(old_view, old_view[k as int].0) == Some(k as int));
                }
            },
            None => {
                let ghost old_view = self@;
                let ghost old_entries = self.entries@;
                self.entries.push(WorkspaceEntry { uri, reactor });
                proof {
                    assert forall|i: int| 0 <= i < old_entries.len() implies #[trigger] self.entries@[i]
                        == old_entries[i] by {}
                    assert forall|i: int| 0 <= i < old_entries.len() implies #[trigger] old_entries[i].uri@
                        != self.entries@.last().uri@ by {
                        assert(old_view[i].0 == old_entries[i].uri@);
                    }
                    assert(self@ =~= old_view.push((self.entries@.last().uri@, reactor@)));
                }
            },
        }
    }

    /// Installs a new version of an open document: its text, tree and
    /// import resolution, then reruns its analysis. Returns false, changing
    /// nothing, when the document is not open.
    pub fn on_did_change(
        &mut self,
        uri: &str,
        version: i32,
        doc: TextDocument,
        tree: SyntaxTree,
        table: Vec<ResolvedImport>,
    ) -> (found: bool)
        requires
            old(self).wf(),
        ensures
            final(self).wf(),
            found == (entry_index(old(self)@, uri@) is Some),
            !found ==> final(self)@ == old(self)@,
            found ==> {
                let k = entry_index(old(self)@, uri@).unwrap();
                &&& final(self)@.len() == old(self)@.len()
                &&& forall|j: int| 0 <= j < old(self)@.len() && j != k ==> final(self)@[j] == old(self)@[j]
                &&& final(self)@[k].0 == uri@
                &&& final(self)@[k].1.version == version
                &&& final(self)@[k].1.text == doc@
                &&& final(self)@[k].1.nodes == tree.nodes@
                &&& final(self)@[k].1.self_path == old(self)@[k].1.self_path
                &&& final(self)@[k].1.table == table@.map_values(|e: ResolvedImport| e@)
                &&& final(self)@[k].1.analysis == analysis_of(
                    doc@,
                    tree.nodes@,
                    table@.map_values(|e: ResolvedImport| e@),
                    old(self)@[k].1.self_path,
                )
            },
    {
        proof {
            self.lemma_unique();
        }
        match self.find(uri) {
            Some(k) => {
                let ghost old_view = self@;
                let mut entry = self.entries.remove(k);
                entry.reactor.install(version, doc, tree, table);
                self.entries.insert(k, entry);
                proof {
                    assert(entry_index(old_view, uri@) == Some(k as int));
                    assert forall|j: int| 0 <= j < old_view.len() && j != k implies self@[j]
                        == old_view[j] by {
                        if j < k {
                            assert(self.entries@[j] == old(self).entries@[j]);
                        } else {
                            assert(self.entries@[j] == old(self).entries@[j]);
                        }
                    }
                }
                true
            },
            None => false,
        }
    }

    /// Closes or forgets a document: its entry goes, if there is one.
    pub fn on_did_close(&mut self, uri: &str)
        requires
            old(self).wf(),
        ensures
            final(self).wf(),
            match entry_index(old(self)@, uri@) {
                Some(k) => final(self)@ == old(self)@.remove(k),
                None => final(self)@ == old(self)@,
            },
    {
        proof {
            self.lemma_unique();
        }
        match self.find(uri) {
            Some(k) => {
                let ghost old_view = self@;
                let _ = self.entries.remove(k);
                proof {
                    assert(entry_index(old_view, uri@) == Some(k as int));
                    assert(self@ =~= old_view.remove(k as int));
                }
            },
            None => {},
        }
    }
}

} // verus!

//! The latest token and hint sets of every document, with per-document
//! sequence numbers.
//!
//! Every analysis of a document is given a sequence number when it begins.
//! When it ends, its results replace what is cached for the document only
//! where no later analysis of that document has begun since: a slow
//! analysis of an old text never overwrites the results of a newer one.
//! Tokens and hints are replaced together.

use crate::hints::{EncodedHint, EncodedHintModel, TextEdit};
use crate::text::same_text;
use crate::tokens::EncodedToken;
use vstd::prelude::*;

verus! {

/// What the cache holds for one document.
pub struct DocumentState {
    /// The tokens of the latest analysis that was committed.
    pub tokens: Seq<EncodedToken>,
    /// The hints of that same analysis.
    pub hints: Seq<EncodedHintModel>,
    /// The sequence number given to the latest analysis that began.
    pub issued: u64,
    /// The sequence number of the analysis whose results are held, or 0
    /// where none was committed yet.
    pub applied: u64,
    /// How many of the analyses that began have ended.
    pub finished: u64,
}

impl DocumentState {
    /// The state of a document that the cache has not heard of.
    pub open spec fn unknown() -> DocumentState {
        DocumentState {
            tokens: Seq::empty(),
            hints: Seq::empty(),
            issued: 0,
            applied: 0,
            finished: 0,
        }
    }

    /// The state after one more analysis has begun.
    pub open spec fn begun(self) -> DocumentState {
        DocumentState { issued: (self.issued + 1) as u64, ..self }
    }

    /// The state after one more analysis has ended, whatever came of it.
    pub open spec fn ended(self) -> DocumentState {
        DocumentState {
            finished: if self.finished < self.issued {
                (self.finished + 1) as u64
            } else {
                self.finished
            },
            ..self
        }
    }

    /// Whether the results of the analysis `sequence` may be committed: it
    /// is the latest analysis of the document that began.
    pub open spec fn accepts(self, sequence: u64) -> bool {
        sequence == self.issued
    }

    /// The state once the results of the analysis `sequence` are held.
    pub open spec fn holding(
        self,
        sequence: u64,
        tokens: Seq<EncodedToken>,
        hints: Seq<EncodedHintModel>,
    ) -> DocumentState {
        DocumentState { tokens, hints, applied: sequence, ..self }
    }

    /// The state once one analysis has ended with results: with the results
    /// of the analysis `sequence` where they are accepted, and with what was
    /// held before where they are not.
    pub open spec fn settled(
        self,
        sequence: u64,
        tokens: Seq<EncodedToken>,
        hints: Seq<EncodedHintModel>,
    ) -> DocumentState {
        if self.accepts(sequence) {
            self.holding(sequence, tokens, hints).ended()
        } else {
            self.ended()
        }
    }

    /// Whether an analysis of the document is under way.
    pub open spec fn analyzing(self) -> bool {
        self.finished < self.issued
    }
}

/// Whether a document is at rest or being analyzed.
#[derive(Clone, Copy, Debug, PartialEq, Eq, Structural)]
pub enum Phase {
    Idle,
    Analyzing,
}

struct DocumentEntry {
    uri: String,
    tokens: Vec<EncodedToken>,
    hints: Vec<EncodedHint>,
    issued: u64,
    applied: u64,
    finished: u64,
}

impl DocumentEntry {
    spec fn state(self) -> DocumentState {
        DocumentState {
            tokens: self.tokens@,
            hints: self.hints.deep_view(),
            issued: self.issued,
            applied: self.applied,
            finished: self.finished,
        }
    }
}

/// The cache: the documents that were analyzed at least once, each under
/// its URI.
pub struct DocumentCache {
    entries: Vec<DocumentEntry>,
}

/// Whether the entries at two different places are for different documents.
spec fn distinct(entries: Seq<DocumentEntry>) -> bool {
    forall|i: int, j: int|
        0 <= i < j < entries.len() ==> (#[trigger] entries[i]).uri@ != (#[trigger] entries[j]).uri@
}

/// Whether an entry for `uri` stands at place `i`.
spec fn stands_at(entries: Seq<DocumentEntry>, uri: Seq<char>, i: int) -> bool {
    0 <= i < entries.len() && entries[i].uri@ == uri
}

/// The documents that a list of entries holds.
spec fn documents(entries: Seq<DocumentEntry>) -> Map<Seq<char>, DocumentState> {
    Map::new(
        |uri: Seq<char>| exists|i: int| stands_at(entries, uri, i),
        |uri: Seq<char>| entries[choose|i: int| stands_at(entries, uri, i)].state(),
    )
}

/// An entry that is replaced by one for the same document replaces that
/// document's state, and no other.
proof fn lemma_documents_update(entries: Seq<DocumentEntry>, i: int, entry: DocumentEntry)
    requires
        distinct(entries),
        stands_at(entries, entry.uri@, i),
    ensures
        distinct(entries.update(i, entry)),
        documents(entries.update(i, entry)) == documents(entries).insert(entry.uri@, entry.state()),
{
    let after = entries.update(i, entry);
    assert forall|a: int, b: int| 0 <= a < b < after.len() implies (#[trigger] after[a]).uri@ != (
    #[trigger] after[b]).uri@ by {
        assert(after[a].uri@ == entries[a].uri@);
        assert(after[b].uri@ == entries[b].uri@);
    }
    assert forall|uri: Seq<char>| #[trigger]
        documents(after).dom().contains(uri) == documents(entries).insert(
            entry.uri@,
            entry.state(),
        ).dom().contains(uri) by {
        if exists|k: int| stands_at(after, uri, k) {
            let k = choose|k: int| stands_at(after, uri, k);
            assert(stands_at(entries, uri, k));
        }
        if exists|k: int| stands_at(entries, uri, k) {
            let k = choose|k: int| stands_at(entries, uri, k);
            assert(stands_at(after, uri, k));
        }
        if uri == entry.uri@ {
            assert(stands_at(after, uri, i));
        }
    }
    assert forall|uri: Seq<char>| documents(after).dom().contains(uri) implies #[trigger]
        documents(after)[uri] == documents(entries).insert(entry.uri@, entry.state())[uri] by {
        let k = choose|k: int| stands_at(after, uri, k);
        if uri == entry.uri@ {
            assert(stands_at(after, uri, i));
            if k < i {
                assert(after[k].uri@ != after[i].uri@);
            } else if i < k {
                assert(after[i].uri@ != after[k].uri@);
            }
        } else {
            assert(stands_at(entries, uri, k));
            let old_k = choose|k: int| stands_at(entries, uri, k);
            if k < old_k {
                assert(entries[k].uri@ != entries[old_k].uri@);
            } else if old_k < k {
                assert(entries[old_k].uri@ != entries[k].uri@);
            }
        }
    }
    assert(documents(after) =~= documents(entries).insert(entry.uri@, entry.state()));
}

/// An entry for a document that had none adds that document's state.
proof fn lemma_documents_push(entries: Seq<DocumentEntry>, entry: DocumentEntry)
    requires
        distinct(entries),
        forall|i: int| !stands_at(entries, entry.uri@, i),
    ensures
        distinct(entries.push(entry)),
        documents(entries.push(entry)) == documents(entries).insert(entry.uri@, entry.state()),
{
    let after = entries.push(entry);
    let last = entries.len() as int;
    assert forall|a: int, b: int| 0 <= a < b < after.len() implies (#[trigger] after[a]).uri@ != (
    #[trigger] after[b]).uri@ by {
        if b == last {
            assert(!stands_at(entries, entry.uri@, a));
        }
    }
    assert forall|uri: Seq<char>| #[trigger]
        documents(after).dom().contains(uri) == documents(entries).insert(
            entry.uri@,
            entry.state(),
        ).dom().contains(uri) by {
        if exists|k: int| stands_at(after, uri, k) {
            let k = choose|k: int| stands_at(after, uri, k);
            if k < last {
                assert(stands_at(entries, uri, k));
            }
        }
        if exists|k: int| stands_at(entries, uri, k) {
            let k = choose|k: int| stands_at(entries, uri, k);
            assert(stands_at(after, uri, k));
        }
        if uri == entry.uri@ {
            assert(stands_at(after, uri, last));
        }
    }
    assert forall|uri: Seq<char>| documents(after).dom().contains(uri) implies #[trigger]
        documents(after)[uri] == documents(entries).insert(entry.uri@, entry.state())[uri] by {
        let k = choose|k: int| stands_at(after, uri, k);
        if uri == entry.uri@ {
            if k < last {
                assert(stands_at(entries, uri, k));
            }
        } else {
            assert(stands_at(entries, uri, k));
            let old_k = choose|k: int| stands_at(entries, uri, k);
            if k < old_k {
                assert(entries[k].uri@ != entries[old_k].uri@);
            } else if old_k < k {
                assert(entries[old_k].uri@ != entries[k].uri@);
            }
        }
    }
    assert(documents(after) =~= documents(entries).insert(entry.uri@, entry.state()));
}

/// The entry at the place where a document stands holds that document's
/// state, and a document that stands nowhere is not held.
proof fn lemma_documents_at(entries: Seq<DocumentEntry>, uri: Seq<char>)
    requires
        distinct(entries),
    ensures
        forall|i: int|
            stands_at(entries, uri, i) ==> documents(entries).contains_key(uri) && documents(
                entries,
            )[uri] == entries[i].state(),
        (forall|i: int| !stands_at(entries, uri, i)) ==> !documents(entries).contains_key(uri),
{
    assert forall|i: int| stands_at(entries, uri, i) implies documents(entries).contains_key(uri)
        && documents(entries)[uri] == entries[i].state() by {
        let k = choose|k: int| stands_at(entries, uri, k);
        if k < i {
            assert(entries[k].uri@ != entries[i].uri@);
        } else if i < k {
            assert(entries[i].uri@ != entries[k].uri@);
        }
    }
}

impl View for DocumentCache {
    type V = Map<Seq<char>, DocumentState>;

    closed spec fn view(&self) -> Map<Seq<char>, DocumentState> {
        documents(self.entries@)
    }
}

/// A copy of a hint.
fn copy_hint(hint: &EncodedHint) -> (copy: EncodedHint)
    ensures
        copy.deep_view() == hint.deep_view(),
{
    let mut text_edits: Vec<TextEdit> = Vec::new();
    let mut i: usize = 0;
    while i < hint.text_edits.len()
        invariant
            i <= hint.text_edits.len(),
            text_edits@.len() == i,
            forall|k: int|
                0 <= k < i ==> (#[trigger] text_edits@[k]).deep_view()
                    == hint.text_edits@[k].deep_view(),
        decreases hint.text_edits.len() - i,
    {
        let edit = &hint.text_edits[i];
        text_edits.push(TextEdit { range: edit.range, new_text: edit.new_text.clone() });
        i += 1;
    }
    let tooltip = match &hint.tooltip {
        Some(text) => Some(text.clone()),
        None => None,
    };
    let copy = EncodedHint {
        position: hint.position,
        label: hint.label.clone(),
        kind: hint.kind,
        padding_left: hint.padding_left,
        padding_right: hint.padding_right,
        tooltip,
        text_edits,
    };
    proof {
        assert(copy.text_edits.deep_view() =~= hint.text_edits.deep_view());
    }
    copy
}

impl DocumentCache {
    #[verifier::type_invariant]
    spec fn well_formed(self) -> bool {
        distinct(self.entries@)
    }

    /// The state of a document, whether the cache holds it or not.
    pub open spec fn state(self, uri: Seq<char>) -> DocumentState {
        if self@.contains_key(uri) {
            self@[uri]
        } else {
            DocumentState::unknown()
        }
    }

    /// A cache that holds no document.
    pub fn new() -> (cache: DocumentCache)
        ensures
            cache@ == Map::<Seq<char>, DocumentState>::empty(),
    {
        let cache = DocumentCache { entries: Vec::new() };
        proof {
            assert(cache@ =~= Map::<Seq<char>, DocumentState>::empty());
        }
        cache
    }

    /// The place of the entry for a document.
    fn find(&self, uri: &str) -> (place: Option<usize>)
        ensures
            match place {
                Some(i) => stands_at(self.entries@, uri@, i as int) && self@.contains_key(uri@)
                    && self@[uri@] == self.entries@[i as int].state(),
                None => !self@.contains_key(uri@) && forall|i: int|
                    !stands_at(self.entries@, uri@, i),
            },
    {
        let mut i: usize = 0;
        while i < self.entries.len()
            invariant
                i <= self.entries.len(),
                forall|k: int| 0 <= k < i ==> !stands_at(self.entries@, uri@, k),
            decreases self.entries.len() - i,
        {
            if same_text(self.entries[i].uri.as_str(), uri) {
                proof {
                    use_type_invariant(self);
                    lemma_documents_at(self.entries@, uri@);
                }
                return Some(i);
            }
            i += 1;
        }
        proof {
            use_type_invariant(self);
            lemma_documents_at(self.entries@, uri@);
        }
        None
    }

    /// Begins an analysis of a document and gives it the next sequence
    /// number of that document. The first analysis of a document has the
    /// number 1. There is no number left once a document has used them all
    /// up, and nothing changes then.
    pub fn begin(&mut self, uri: &str) -> (sequence: Option<u64>)
        ensures
            match sequence {
                Some(number) => old(self).state(uri@).issued < u64::MAX && number == old(
                    self,
                ).state(uri@).issued + 1 && final(self)@ == old(self)@.insert(
                    uri@,
                    old(self).state(uri@).begun(),
                ),
                None => old(self).state(uri@).issued == u64::MAX && final(self)@ == old(self)@,
            },
    {
        proof {
            use_type_invariant(&*self);
        }
        match self.find(uri) {
            Some(i) => {
                if self.entries[i].issued == u64::MAX {
                    return None;
                }
                let ghost before = self.entries@;
                let mut entries: Vec<DocumentEntry> = Vec::new();
                core::mem::swap(&mut self.entries, &mut entries);
                let mut entry = entries.remove(i);
                entry.issued = entry.issued + 1;
                proof {
                    lemma_documents_update(before, i as int, entry);
                    assert(entries@.insert(i as int, entry) =~= before.update(i as int, entry));
                }
                let number = entry.issued;
                entries.insert(i, entry);
                self.entries = entries;
                Some(number)
            },
            None => {
                let entry = DocumentEntry {
                    uri: uri.to_owned(),
                    tokens: Vec::new(),
                    hints: Vec::new(),
                    issued: 1,
                    applied: 0,
                    finished: 0,
                };
                proof {
                    lemma_documents_push(self.entries@, entry);
                    assert(entry.hints.deep_view() =~= Seq::<EncodedHintModel>::empty());
                }
                let mut entries: Vec<DocumentEntry> = Vec::new();
                core::mem::swap(&mut self.entries, &mut entries);
                entries.push(entry);
                self.entries = entries;
                Some(1)
            },
        }
    }

    /// Ends an analysis of a document that gave results. The results
    /// replace what is held for the document, tokens and hints together,
    /// exactly where the analysis is the latest of that document that
    /// began. Results of an earlier analysis, and results for a document of
    /// which no analysis began, are dropped.
    pub fn commit(
        &mut self,
        uri: &str,
        sequence: u64,
        tokens: Vec<EncodedToken>,
        hints: Vec<EncodedHint>,
    ) -> (committed: bool)
        ensures
            committed == (old(self)@.contains_key(uri@) && old(self)@[uri@].accepts(sequence)),
            final(self)@ == if old(self)@.contains_key(uri@) {
                old(self)@.insert(
                    uri@,
                    old(self)@[uri@].settled(sequence, tokens@, hints.deep_view()),
                )
            } else {
                old(self)@
            },
    {
        proof {
            use_type_invariant(&*self);
        }
        match self.find(uri) {
            Some(i) => {
                let ghost before = self.entries@;
                let mut entries: Vec<DocumentEntry> = Vec::new();
                core::mem::swap(&mut self.entries, &mut entries);
                let held = entries.remove(i);
                let committed = held.issued == sequence;
                let finished = if held.finished < held.issued {
                    held.finished + 1
                } else {
                    held.finished
                };
                let entry = if committed {
                    DocumentEntry {
                        uri: held.uri,
                        tokens,
                        hints,
                        issued: held.issued,
                        applied: sequence,
                        finished,
                    }
                } else {
                    DocumentEntry {
                        uri: held.uri,
                        tokens: held.tokens,
                        hints: held.hints,
                        issued: held.issued,
                        applied: held.applied,
                        finished,
                    }
                };
                proof {
                    lemma_documents_update(before, i as int, entry);
                    assert(entries@.insert(i as int, entry) =~= before.update(i as int, entry));
                }
                entries.insert(i, entry);
                self.entries = entries;
                committed
            },
            None => false,
        }
    }

    /// Ends an analysis of a document that gave no results. What is held
    /// for the document stays as it is.
    pub fn abandon(&mut self, uri: &str)
        ensures
            final(self)@ == if old(self)@.contains_key(uri@) {
                old(self)@.insert(uri@, old(self)@[uri@].ended())
            } else {
                old(self)@
            },
    {
        proof {
            use_type_invariant(&*self);
        }
        match self.find(uri) {
            Some(i) => {
                let ghost before = self.entries@;
                let mut entries: Vec<DocumentEntry> = Vec::new();
                core::mem::swap(&mut self.entries, &mut entries);
                let mut entry = entries.remove(i);
                if entry.finished < entry.issued {
                    entry.finished = entry.finished + 1;
                }
                proof {
                    lemma_documents_update(before, i as int, entry);
                    assert(entries@.insert(i as int, entry) =~= before.update(i as int, entry));
                }
                entries.insert(i, entry);
                self.entries = entries;
            },
            None => {},
        }
    }

    /// The tokens that are held for a document: those of the latest
    /// analysis that was committed, and none for a document that was never
    /// analyzed.
    pub fn tokens(&self, uri: &str) -> (tokens: Vec<EncodedToken>)
        ensures
            tokens@ == self.state(uri@).tokens,
    {
        let mut tokens: Vec<EncodedToken> = Vec::new();
        if let Some(i) = self.find(uri) {
            let held = &self.entries[i].tokens;
            let mut k: usize = 0;
            while k < held.len()
                invariant
                    k <= held.len(),
                    tokens@ == held@.take(k as int),
                decreases held.len() - k,
            {
                tokens.push(held[k]);
                k += 1;
                assert(tokens@ =~= held@.take(k as int));
            }
            assert(held@.take(k as int) =~= held@);
        }
        tokens
    }

    /// The hints that are held for a document: those of the latest analysis
    /// that was committed, and none for a document that was never analyzed.
    pub fn hints(&self, uri: &str) -> (hints: Vec<EncodedHint>)
        ensures
            hints.deep_view() == self.state(uri@).hints,
    {
        let mut hints: Vec<EncodedHint> = Vec::new();
        if let Some(i) = self.find(uri) {
            let held = &self.entries[i].hints;
            let mut k: usize = 0;
            while k < held.len()
                invariant
                    k <= held.len(),
                    hints@.len() == k,
                    forall|j: int|
                        0 <= j < k ==> (#[trigger] hints@[j]).deep_view() == held@[j].deep_view(),
                decreases held.len() - k,
            {
                hints.push(copy_hint(&held[k]));
                k += 1;
            }
            assert(hints.deep_view() =~= held.deep_view());
        } else {
            assert(hints.deep_view() =~= Seq::<EncodedHintModel>::empty());
        }
        hints
    }

    /// The sequence number of the analysis whose results are held for a
    /// document, or 0 where there is none.
    pub fn version(&self, uri: &str) -> (applied: u64)
        ensures
            applied == self.state(uri@).applied,
    {
        match self.find(uri) {
            Some(i) => self.entries[i].applied,
            None => 0,
        }
    }

    /// The sequence number of the latest analysis of a document that
    /// began, or 0 where there is none.
    pub fn latest(&self, uri: &str) -> (issued: u64)
        ensures
            issued == self.state(uri@).issued,
    {
        match self.find(uri) {
            Some(i) => self.entries[i].issued,
            None => 0,
        }
    }

    /// Whether an analysis of a document is under way.
    pub fn phase(&self, uri: &str) -> (phase: Phase)
        ensures
            phase == if self.state(uri@).analyzing() {
                Phase::Analyzing
            } else {
                Phase::Idle
            },
    {
        match self.find(uri) {
            Some(i) => if self.entries[i].finished < self.entries[i].issued {
                Phase::Analyzing
            } else {
                Phase::Idle
            },
            None => Phase::Idle,
        }
    }
}

/// Of two analyses of one document that overlap, the later one wins,
/// whichever ends first: once both have ended with results, the document
/// holds the tokens and hints of the one that began later, under its
/// sequence number, and is at rest again if it was before.
pub proof fn lemma_later_analysis_wins(
    start: DocumentState,
    earlier_tokens: Seq<EncodedToken>,
    earlier_hints: Seq<EncodedHintModel>,
    later_tokens: Seq<EncodedToken>,
    later_hints: Seq<EncodedHintModel>,
)
    requires
        start.issued + 2 <= u64::MAX,
    ensures
        ({
            let both = start.begun().begun();
            let earlier = start.begun().issued;
            let later = both.issued;
            let in_order = both.settled(earlier, earlier_tokens, earlier_hints).settled(
                later,
                later_tokens,
                later_hints,
            );
            let out_of_order = both.settled(later, later_tokens, later_hints).settled(
                earlier,
                earlier_tokens,
                earlier_hints,
            );
            &&& earlier < later
            &&& in_order == out_of_order
            &&& out_of_order.tokens == later_tokens
            &&& out_of_order.hints == later_hints
            &&& out_of_order.applied == later
            &&& !start.analyzing() && start.finished <= start.issued ==> !out_of_order.analyzing()
        }),
{
}

} // verus!

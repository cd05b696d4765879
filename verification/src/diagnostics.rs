//! From a forest of diagnostics to the flat list that the editor shows.
//!
//! Every node of the forest becomes one flat diagnostic. The nodes are taken
//! breadth first: the top-level diagnostics in their order, then what is
//! nested directly under them, and so on. A nested diagnostic shows twice:
//! as related information on the diagnostic it is nested under, and as a
//! flat diagnostic of its own.

use crate::position::Range;
use crate::report::{lemma_tree_children, DiagnosticNode, DiagnosticTree};
use crate::text::same_text;
use std::collections::VecDeque;
use vstd::prelude::*;

verus! {

/// How grave a diagnostic is, in the editor's terms.
#[derive(Clone, Copy, Debug, PartialEq, Eq, Structural)]
pub enum Severity {
    Error,
    Warning,
    Information,
}

/// A range in a document.
#[derive(Clone, Debug, PartialEq, Eq)]
pub struct Location {
    pub uri: String,
    pub range: Range,
}

/// A place that a diagnostic points to besides its own, with a message.
#[derive(Clone, Debug, PartialEq, Eq)]
pub struct RelatedInformation {
    pub location: Location,
    pub message: String,
}

/// One diagnostic as the editor shows it.
#[derive(Clone, Debug, PartialEq, Eq)]
pub struct FlatDiagnostic {
    pub range: Range,
    pub severity: Severity,
    pub message: String,
    pub related_information: Vec<RelatedInformation>,
}

/// The content of a [`Location`].
pub struct LocationModel {
    pub uri: Seq<char>,
    pub range: Range,
}

/// The content of a [`RelatedInformation`].
pub struct RelatedModel {
    pub location: LocationModel,
    pub message: Seq<char>,
}

/// The content of a [`FlatDiagnostic`].
pub struct FlatModel {
    pub range: Range,
    pub severity: Severity,
    pub message: Seq<char>,
    pub related_information: Seq<RelatedModel>,
}

impl DeepView for Location {
    type V = LocationModel;

    open spec fn deep_view(&self) -> LocationModel {
        LocationModel { uri: self.uri@, range: self.range }
    }
}

impl DeepView for RelatedInformation {
    type V = RelatedModel;

    open spec fn deep_view(&self) -> RelatedModel {
        RelatedModel { location: self.location.deep_view(), message: self.message@ }
    }
}

impl DeepView for FlatDiagnostic {
    type V = FlatModel;

    open spec fn deep_view(&self) -> FlatModel {
        FlatModel {
            range: self.range,
            severity: self.severity,
            message: self.message@,
            related_information: self.related_information.deep_view(),
        }
    }
}

/// The severity that a level word of the analyzer stands for: a warning for
/// "warning", information for "note", and an error for every other word.
pub open spec fn severity_named(level: Seq<char>) -> Severity {
    if level == "warning"@ {
        Severity::Warning
    } else if level == "note"@ {
        Severity::Information
    } else {
        Severity::Error
    }
}

/// A label as it is appended to a message: nothing for an empty label, and
/// otherwise a space and the label in round brackets.
pub open spec fn bracketed(label: Seq<char>) -> Seq<char> {
    if label.len() == 0 {
        Seq::empty()
    } else {
        " ("@ + label + ")"@
    }
}

/// The message that is shown for a diagnostic: its base message, then its
/// primary label, then its secondary label, each label only where it is not
/// empty.
pub open spec fn composed(message: Seq<char>, primary_label: Seq<char>, secondary_label: Seq<char>) -> Seq<char> {
    message + bracketed(primary_label) + bracketed(secondary_label)
}

/// The message that is shown for a node.
pub open spec fn message_of(node: DiagnosticTree) -> Seq<char> {
    composed(node.message, node.primary_label, node.secondary_label)
}

/// A nested diagnostic as related information on the one above it: its own
/// range in the same document, and its own message.
pub open spec fn related_of(sub: DiagnosticTree, uri: Seq<char>) -> RelatedModel {
    RelatedModel { location: LocationModel { uri, range: sub.range }, message: message_of(sub) }
}

/// The flat diagnostic of one node: its range, severity and message, and
/// one piece of related information for each node directly under it.
pub open spec fn flat_of(node: DiagnosticTree, uri: Seq<char>) -> FlatModel {
    FlatModel {
        range: node.range,
        severity: severity_named(node.level),
        message: message_of(node),
        related_information: Seq::new(
            node.sub_diagnostics.len(),
            |k: int| related_of(node.sub_diagnostics[k], uri),
        ),
    }
}

/// The number of nodes in a tree.
pub open spec fn tree_size(tree: DiagnosticTree) -> nat
    decreases tree,
{
    1 + forest_size(tree.sub_diagnostics)
}

/// The number of nodes in a forest.
pub open spec fn forest_size(forest: Seq<DiagnosticTree>) -> nat
    decreases forest,
{
    if forest.len() == 0 {
        0
    } else {
        forest_size(forest.drop_last()) + tree_size(forest.last())
    }
}

/// The nodes that a breadth-first walk meets, in its order, when it starts
/// with `queue`: the first node of the queue, then what the walk meets
/// with the rest of the queue followed by the nodes under that first node.
pub open spec fn breadth_first(queue: Seq<DiagnosticTree>) -> Seq<DiagnosticTree>
    decreases forest_size(queue),
{
    if queue.len() == 0 {
        Seq::empty()
    } else {
        proof {
            lemma_step_shrinks(queue);
        }
        seq![queue[0]] + breadth_first(queue.drop_first() + queue[0].sub_diagnostics)
    }
}

/// The flat diagnostics of a forest in a document: one for each node, in
/// breadth-first order.
pub open spec fn flattened(roots: Seq<DiagnosticTree>, uri: Seq<char>) -> Seq<FlatModel> {
    let order = breadth_first(roots);
    Seq::new(order.len(), |i: int| flat_of(order[i], uri))
}

/// The size of two forests in a row is the sum of their sizes.
pub proof fn lemma_forest_size_add(front: Seq<DiagnosticTree>, back: Seq<DiagnosticTree>)
    ensures
        forest_size(front + back) == forest_size(front) + forest_size(back),
    decreases back.len(),
{
    if back.len() == 0 {
        assert(front + back =~= front);
    } else {
        lemma_forest_size_add(front, back.drop_last());
        assert((front + back).drop_last() =~= front + back.drop_last());
        assert((front + back).last() == back.last());
    }
}

/// One step of the walk leaves a smaller forest in the queue: it takes one
/// node out and puts what is under it in.
pub proof fn lemma_step_shrinks(queue: Seq<DiagnosticTree>)
    requires
        queue.len() > 0,
    ensures
        forest_size(queue.drop_first() + queue[0].sub_diagnostics) + 1 == forest_size(queue),
{
    let first = seq![queue[0]];
    assert(first + queue.drop_first() =~= queue);
    lemma_forest_size_add(first, queue.drop_first());
    lemma_forest_size_add(queue.drop_first(), queue[0].sub_diagnostics);
    assert(forest_size(first) == tree_size(queue[0])) by {
        assert(first.drop_last() =~= Seq::<DiagnosticTree>::empty());
        assert(forest_size(Seq::<DiagnosticTree>::empty()) == 0);
        assert(first.last() == queue[0]);
    }
}

/// The walk starts with the queue itself: the nodes it was given come
/// first, in their order. So the top-level diagnostics of a document lead
/// its flat list.
pub proof fn lemma_queue_comes_first(queue: Seq<DiagnosticTree>)
    ensures
        breadth_first(queue).len() >= queue.len(),
        forall|i: int| 0 <= i < queue.len() ==> (#[trigger] breadth_first(queue)[i]) == queue[i],
    decreases forest_size(queue),
{
    if queue.len() > 0 {
        let next = queue.drop_first() + queue[0].sub_diagnostics;
        lemma_step_shrinks(queue);
        lemma_queue_comes_first(next);
        assert forall|i: int| 0 <= i < queue.len() implies (#[trigger] breadth_first(queue)[i])
            == queue[i] by {
            if i > 0 {
                assert(breadth_first(queue)[i] == breadth_first(next)[i - 1]);
                assert(next[i - 1] == queue[i]);
            }
        }
    }
}

/// The walk meets every node of the forest once: it gives as many nodes as
/// the forest has.
pub proof fn lemma_each_node_once(queue: Seq<DiagnosticTree>)
    ensures
        breadth_first(queue).len() == forest_size(queue),
    decreases forest_size(queue),
{
    if queue.len() > 0 {
        lemma_step_shrinks(queue);
        lemma_each_node_once(queue.drop_first() + queue[0].sub_diagnostics);
    }
}

/// Whatever is nested directly under a node that the walk meets is met
/// later in the same walk. The result is the place where.
pub proof fn lemma_sub_diagnostic_follows(queue: Seq<DiagnosticTree>, parent: int, child: int) -> (at: int)
    requires
        0 <= parent < breadth_first(queue).len(),
        0 <= child < breadth_first(queue)[parent].sub_diagnostics.len(),
    ensures
        parent < at < breadth_first(queue).len(),
        breadth_first(queue)[at] == breadth_first(queue)[parent].sub_diagnostics[child],
    decreases forest_size(queue),
{
    let next = queue.drop_first() + queue[0].sub_diagnostics;
    lemma_step_shrinks(queue);
    if parent == 0 {
        lemma_queue_comes_first(next);
        let inner = queue.len() - 1 + child;
        assert(breadth_first(next)[inner] == next[inner]);
        assert(breadth_first(queue)[inner + 1] == breadth_first(next)[inner]);
        inner + 1
    } else {
        assert(breadth_first(queue)[parent] == breadth_first(next)[parent - 1]);
        let inner = lemma_sub_diagnostic_follows(next, parent - 1, child);
        assert(breadth_first(queue)[inner + 1] == breadth_first(next)[inner]);
        inner + 1
    }
}

/// Every nested diagnostic shows twice in the flat list of its document: as
/// related information on the diagnostic it is nested under, at its place
/// among the nested ones, and further down the list as a flat diagnostic
/// of its own. `parent` is the place of a diagnostic in the list and
/// `child` the place of a diagnostic nested under it; the result is where
/// that one stands in the list.
pub proof fn lemma_sub_diagnostic_shows_twice(
    roots: Seq<DiagnosticTree>,
    uri: Seq<char>,
    parent: int,
    child: int,
) -> (at: int)
    requires
        0 <= parent < flattened(roots, uri).len(),
        0 <= child < breadth_first(roots)[parent].sub_diagnostics.len(),
    ensures
        flattened(roots, uri).len() == forest_size(roots),
        flattened(roots, uri)[parent].related_information.len() == breadth_first(
            roots,
        )[parent].sub_diagnostics.len(),
        flattened(roots, uri)[parent].related_information[child] == related_of(
            breadth_first(roots)[parent].sub_diagnostics[child],
            uri,
        ),
        parent < at < flattened(roots, uri).len(),
        flattened(roots, uri)[at] == flat_of(
            breadth_first(roots)[parent].sub_diagnostics[child],
            uri,
        ),
{
    lemma_each_node_once(roots);
    lemma_sub_diagnostic_follows(roots, parent, child)
}

/// The contents of the nodes that wait in a queue.
spec fn trees(nodes: Seq<&DiagnosticNode>) -> Seq<DiagnosticTree> {
    Seq::new(nodes.len(), |i: int| nodes[i].deep_view())
}

/// A node that joins a queue adds its content at the end.
proof fn lemma_trees_push(nodes: Seq<&DiagnosticNode>, node: &DiagnosticNode)
    ensures
        trees(nodes.push(node)) == trees(nodes).push(node.deep_view()),
{
    assert(trees(nodes.push(node)) =~= trees(nodes).push(node.deep_view()));
}

/// Maps a level word of the analyzer to a severity.
pub fn severity_of(level: &str) -> (severity: Severity)
    ensures
        severity == severity_named(level@),
{
    if same_text(level, "warning") {
        Severity::Warning
    } else if same_text(level, "note") {
        Severity::Information
    } else {
        Severity::Error
    }
}

/// Composes the message that is shown for a diagnostic from its base
/// message and its two labels.
pub fn compose_message(message: &str, primary_label: &str, secondary_label: &str) -> (shown: String)
    ensures
        shown@ == composed(message@, primary_label@, secondary_label@),
{
    let mut shown = message.to_owned();
    if !primary_label.is_empty() {
        shown.append(" (");
        shown.append(primary_label);
        shown.append(")");
    }
    if !secondary_label.is_empty() {
        shown.append(" (");
        shown.append(secondary_label);
        shown.append(")");
    }
    proof {
        assert(shown@ =~= composed(message@, primary_label@, secondary_label@));
    }
    shown
}

/// Describes a nested diagnostic as related information in the document
/// `uri`.
pub fn related_information(sub: &DiagnosticNode, uri: &str) -> (related: RelatedInformation)
    ensures
        related.deep_view() == related_of(sub.deep_view(), uri@),
{
    RelatedInformation {
        location: Location { uri: uri.to_owned(), range: sub.range },
        message: compose_message(
            sub.message.as_str(),
            sub.primary_label.as_str(),
            sub.secondary_label.as_str(),
        ),
    }
}

/// Flattens the diagnostics of the document `uri`: one flat diagnostic for
/// each node of the forest, in breadth-first order.
pub fn flatten(roots: &Vec<DiagnosticNode>, uri: &str) -> (flat: Vec<FlatDiagnostic>)
    ensures
        flat.deep_view() == flattened(roots.deep_view(), uri@),
{
    let mut queue: VecDeque<&DiagnosticNode> = VecDeque::new();
    let mut r: usize = 0;
    while r < roots.len()
        invariant
            r <= roots.len(),
            trees(queue@) == roots.deep_view().take(r as int),
        decreases roots.len() - r,
    {
        proof {
            lemma_trees_push(queue@, &roots[r as int]);
        }
        queue.push_back(&roots[r]);
        r += 1;
        assert(trees(queue@) =~= roots.deep_view().take(r as int));
    }
    assert(trees(queue@) =~= roots.deep_view());
    let mut flat: Vec<FlatDiagnostic> = Vec::new();
    loop
        invariant
            flat.deep_view() + flattened(trees(queue@), uri@) == flattened(roots.deep_view(), uri@),
        ensures
            flat.deep_view() == flattened(roots.deep_view(), uri@),
        decreases forest_size(trees(queue@)),
    {
        let ghost waiting = trees(queue@);
        let ghost done = flat.deep_view();
        let node = match queue.pop_front() {
            Some(node) => node,
            None => {
                assert(flattened(waiting, uri@) =~= Seq::<FlatModel>::empty());
                assert(done + Seq::<FlatModel>::empty() =~= done);
                break ;
            },
        };
        let ghost rest = trees(queue@);
        assert(rest =~= waiting.drop_first());
        assert(node.deep_view() == waiting[0]);
        let mut related: Vec<RelatedInformation> = Vec::new();
        let mut k: usize = 0;
        while k < node.sub_diagnostics.len()
            invariant
                k <= node.sub_diagnostics.len(),
                related@.len() == k,
                forall|j: int|
                    0 <= j < k ==> (#[trigger] related@[j]).deep_view() == related_of(
                        node.sub_diagnostics@[j].deep_view(),
                        uri@,
                    ),
                trees(queue@) == rest + node.sub_diagnostics.deep_view().take(k as int),
            decreases node.sub_diagnostics.len() - k,
        {
            let sub = &node.sub_diagnostics[k];
            related.push(related_information(sub, uri));
            proof {
                lemma_trees_push(queue@, sub);
            }
            queue.push_back(sub);
            k += 1;
            assert(trees(queue@) =~= rest + node.sub_diagnostics.deep_view().take(k as int));
        }
        proof {
            lemma_tree_children(*node);
            lemma_step_shrinks(waiting);
            assert(node.sub_diagnostics.deep_view().take(k as int) =~= waiting[0].sub_diagnostics);
            assert(related.deep_view() =~= flat_of(waiting[0], uri@).related_information);
        }
        flat.push(
            FlatDiagnostic {
                range: node.range,
                severity: severity_of(node.level.as_str()),
                message: compose_message(
                    node.message.as_str(),
                    node.primary_label.as_str(),
                    node.secondary_label.as_str(),
                ),
                related_information: related,
            },
        );
        proof {
            let next = waiting.drop_first() + waiting[0].sub_diagnostics;
            assert(flat.deep_view() =~= done.push(flat_of(waiting[0], uri@)));
            assert(breadth_first(waiting) == seq![waiting[0]] + breadth_first(next));
            assert(flattened(waiting, uri@) =~= seq![flat_of(waiting[0], uri@)] + flattened(
                next,
                uri@,
            ));
            assert(flat.deep_view() + flattened(next, uri@) =~= done + flattened(waiting, uri@));
        }
    }
    flat
}

} // verus!

//! The local store as one run sees it: which references it knows, and in
//! which file each of them lives.

use vstd::prelude::*;
use crate::text::{
    chars_of, find_from, first_occurrence, lines_of, rows_view, slice_of, split_lines, string_of,
    trim, trimmed,
};
use crate::text_map::TextMap;

verus! {

/// A node of the local store: an entry of the knowledge base.
#[derive(Debug)]
pub struct ExistingNode {
    pub file_path: String,
    pub title: String,
}

/// What an `ExistingNode` stands for.
pub struct ExistingNodeView {
    pub file_path: Seq<char>,
    pub title: Seq<char>,
}

impl DeepView for ExistingNode {
    type V = ExistingNodeView;

    open spec fn deep_view(&self) -> ExistingNodeView {
        ExistingNodeView { file_path: self.file_path@, title: self.title@ }
    }
}

impl View for ExistingNode {
    type V = ExistingNodeView;

    open spec fn view(&self) -> ExistingNodeView {
        self.deep_view()
    }
}

/// What the local store knows at the start of a run.
#[derive(Debug)]
pub struct ExistingStore {
    /// From a reference, in the form in which the store keeps it, to the
    /// identifier of the node that has it.
    pub refs: TextMap<String>,
    /// From the identifier of a node to the node.
    pub nodes: TextMap<ExistingNode>,
}

/// The form in which the local store keeps a reference: without the `@`
/// that a reference to something other than an address is shown with.
pub open spec fn store_form(reference: Seq<char>) -> Seq<char> {
    if reference.len() > 0 && reference[0] == '@' {
        reference.skip(1)
    } else {
        reference
    }
}

/// The form in which the local store keeps `reference`.
pub fn store_reference(reference: &str) -> (kept: String)
    ensures
        kept@ == store_form(reference@),
{
    let chars = chars_of(reference);
    if chars.len() > 0 && chars[0] == '@' {
        let rest = slice_of(&chars, 1, chars.len());
        assert(rest@ == reference@.skip(1));
        string_of(&rest)
    } else {
        reference.to_owned()
    }
}

/// The file in which `reference` lives: that of the node that has it. There
/// is none if no node has the reference, or if the store does not know the
/// node.
pub open spec fn resolved(
    refs: Map<Seq<char>, Seq<char>>,
    nodes: Map<Seq<char>, ExistingNodeView>,
    reference: Seq<char>,
) -> Option<Seq<char>> {
    if refs.contains_key(reference) && nodes.contains_key(refs[reference]) {
        Some(nodes[refs[reference]].file_path)
    } else {
        None
    }
}

impl ExistingStore {
    /// Both maps are well formed.
    pub open spec fn wf(&self) -> bool {
        self.refs.wf() && self.nodes.wf()
    }

    /// A store that knows nothing.
    pub fn new() -> (store: Self)
        ensures
            store.wf(),
            store.refs@ == Map::<Seq<char>, String>::empty(),
            store.nodes@ == Map::<Seq<char>, ExistingNode>::empty(),
    {
        ExistingStore { refs: TextMap::new(), nodes: TextMap::new() }
    }

    /// The file in which `reference` lives, if the store knows one.
    pub fn resolve(&self, reference: &str) -> (file_path: Option<String>)
        requires
            self.wf(),
        ensures
            file_path.deep_view() == resolved(
                self.refs.deep_view(),
                self.nodes.deep_view(),
                reference@,
            ),
    {
        match self.refs.get(reference) {
            Some(node_id) => match self.nodes.get(node_id.as_str()) {
                Some(node) => Some(node.file_path.clone()),
                None => None,
            },
            None => None,
        }
    }
}

/// What stands between the name of a file and a reference in a line of a
/// scan of the knowledge base.
pub open spec fn refs_marker() -> Seq<char> {
    "::ROAM_REFS:"@
}

/// What one line of a scan says: a reference, in the form in which the store
/// keeps it, and the file that has it. The file is what stands before the
/// first marker; the reference is what stands behind it, without the white
/// space around it. A line without a marker says nothing.
pub open spec fn scanned_line(line: Seq<char>) -> Option<(Seq<char>, Seq<char>)> {
    match first_occurrence(line, refs_marker(), 0) {
        Some(i) => Some(
            (store_form(trimmed(line.skip(i + refs_marker().len()))), line.take(i)),
        ),
        None => None,
    }
}

/// What the lines of a scan say: for each reference the file of the last
/// line that names it.
pub open spec fn scanned_refs(lines: Seq<Seq<char>>) -> Map<Seq<char>, Seq<char>>
    decreases lines.len(),
{
    if lines.len() == 0 {
        Map::empty()
    } else {
        match scanned_line(lines.last()) {
            Some((reference, file)) => scanned_refs(lines.drop_last()).insert(reference, file),
            None => scanned_refs(lines.drop_last()),
        }
    }
}

/// What one line of a scan says.
fn scan_line(line: &Vec<char>) -> (r: Option<(String, String)>)
    ensures
        r.deep_view() == scanned_line(line@),
{
    let marker = chars_of("::ROAM_REFS:");
    match find_from(line, &marker, 0) {
        Some(i) => {
            let file = slice_of(line, 0, i);
            let rest = slice_of(line, i + marker.len(), line.len());
            let reference = trim(&rest);
            assert(file@ == line@.take(i as int));
            assert(rest@ == line@.skip(i + refs_marker().len()));
            let shown = string_of(&reference);
            Some((store_reference(shown.as_str()), string_of(&file)))
        },
        None => None,
    }
}

/// The references that a scan of the knowledge base found, each with the
/// file that has it. `output` holds one line for each line of a file that
/// starts with `:ROAM_REFS:`: the name of the file, a colon, and the line.
pub fn get_existing_refs(output: &str) -> (refs: TextMap<String>)
    ensures
        refs.wf(),
        refs.deep_view() == scanned_refs(lines_of(output@)),
{
    let text = chars_of(output);
    let lines = split_lines(&text);
    let ghost all = rows_view(lines@);
    let mut refs: TextMap<String> = TextMap::new();
    let mut i: usize = 0;
    assert(refs.deep_view() == scanned_refs(all.take(0)));
    while i < lines.len()
        invariant
            i <= lines.len(),
            all == rows_view(lines@),
            refs.wf(),
            refs.deep_view() == scanned_refs(all.take(i as int)),
        decreases lines.len() - i,
    {
        proof {
            assert(all.take(i + 1).drop_last() == all.take(i as int));
            assert(all.take(i + 1).last() == lines@[i as int]@);
        }
        let ghost before = refs.deep_view();
        match scan_line(&lines[i]) {
            Some((reference, file)) => {
                refs.insert(reference, file);
                assert(refs.deep_view() == before.insert(reference@, file@));
            },
            None => {},
        }
        i += 1;
    }
    assert(all.take(i as int) == all);
    refs
}

/// The node of a file of which a scan knows nothing but the name.
pub open spec fn scanned_node(file: Seq<char>) -> ExistingNodeView {
    ExistingNodeView { file_path: file, title: Seq::empty() }
}

impl ExistingStore {
    /// The store that a scan describes: each file is a node, with its name
    /// as its identifier.
    pub fn from_scan(refs: TextMap<String>) -> (store: Self)
        requires
            refs.wf(),
        ensures
            store.wf(),
            store.refs == refs,
            forall|reference: Seq<char>|
                resolved(store.refs.deep_view(), store.nodes.deep_view(), reference) == (
                if refs.deep_view().contains_key(reference) {
                    Some(#[trigger] refs.deep_view()[reference])
                } else {
                    None
                }),
    {
        let mut nodes: TextMap<ExistingNode> = TextMap::new();
        let n: usize = refs.len();
        let mut i: usize = 0;
        while i < n
            invariant
                i <= n,
                n == refs.keys().len(),
                refs.wf(),
                nodes.wf(),
                forall|k: int|
                    0 <= k < i ==> nodes.deep_view().contains_key(#[trigger] refs.values()[k]@),
                forall|id: Seq<char>| #[trigger]
                    nodes.deep_view().contains_key(id) ==> nodes.deep_view()[id]
                        == scanned_node(id),
            decreases n - i,
        {
            let file = refs.value_at(i);
            let ghost before = nodes.deep_view();
            let node = ExistingNode { file_path: file.clone(), title: String::new() };
            nodes.insert(file.clone(), node);
            assert(nodes.deep_view() == before.insert(file@, scanned_node(file@)));
            i += 1;
        }
        let store = ExistingStore { refs, nodes };
        proof {
            assert forall|reference: Seq<char>|
                resolved(store.refs.deep_view(), store.nodes.deep_view(), reference) == (
                if refs.deep_view().contains_key(reference) {
                    Some(#[trigger] refs.deep_view()[reference])
                } else {
                    None
                }) by {
                if refs.deep_view().contains_key(reference) {
                    let k = refs.keys().index_of(reference);
                    assert(refs.keys()[k] == reference);
                    refs.lemma_value_at(k);
                    assert(nodes.deep_view().contains_key(refs.values()[k]@));
                }
            }
        }
        store
    }
}

} // verus!

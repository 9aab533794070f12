//! Building [`DebugInfo`] row by row, interning strings, files and locations.

use vstd::prelude::*;

use crate::debug_info::{
    DebugInfo, DebugInfoView, adds_string, changes_only, empty_debug_info, is_first_index_of,
    same_file_info, strip_file_scheme, uri_path,
};
use crate::debug_types::{
    DebugFileIdx, DebugFileInfo, DebugFunctionIdx, DebugLoc, DebugLocIdx, DebugSourceNodeId,
    DebugStringIdx, DebugTypeIdx, DebugTypeInfo, FunctionInfo, Location, SourceGraphLookupError,
    SourceNode, is_empty_checksum,
};

verus! {

/// Builds a [`DebugInfo`]: strings, files and locations are interned (an equal row is reused),
/// types, functions, nodes and roots are appended.
#[derive(Debug)]
pub struct DebugInfoBuilder {
    debug_info: DebugInfo,
}

/// The builder of package-owned debug information.
pub type PackageDebugInfoBuilder = DebugInfoBuilder;

impl View for DebugInfoBuilder {
    type V = DebugInfoView;

    closed spec fn view(&self) -> DebugInfoView {
        self.debug_info@
    }
}

/// The first child of `children` that does not name one of the first `count` nodes, if any.
pub open spec fn is_first_missing_child(children: Seq<DebugSourceNodeId>, count: nat, k: int) -> bool {
    &&& 0 <= k < children.len()
    &&& children[k].0 >= count
    &&& forall|j: int| 0 <= j < k ==> children[j].0 < count
}

impl DebugInfoBuilder {
    /// A builder of empty debug info of the current version.
    pub fn new() -> (r: Self)
        ensures
            r@ == empty_debug_info(),
    {
        DebugInfoBuilder { debug_info: DebugInfo::new() }
    }

    /// Starts from existing debug info, whose rows are kept as they are.
    pub fn from_debug_info(debug_info: DebugInfo) -> (r: Self)
        ensures
            r@ == debug_info@,
    {
        DebugInfoBuilder { debug_info }
    }

    /// The index of the string `s`: the first equal string's, or a new last row's where there is
    /// none.
    pub fn add_string(&mut self, s: &str) -> (r: DebugStringIdx)
        requires
            old(self)@.strings.len() < u32::MAX,
        ensures
            adds_string(old(self)@, final(self)@),
            is_first_index_of(final(self)@.strings, s@, r.0 as int),
            old(self)@.strings.contains(s@) ==> final(self)@ == old(self)@,
            !old(self)@.strings.contains(s@) ==> final(self)@.strings == old(self)@.strings.push(s@),
    {
        self.debug_info.intern_string(s.to_string())
    }

    /// The index of the file at `uri` (its path: the URI without a `file://` scheme) with the
    /// given checksum, added unless an equal file row is already there.
    pub fn add_file(&mut self, uri: &str, checksum: Option<[u8; 32]>) -> (r: DebugFileIdx)
        requires
            old(self)@.strings.len() < u32::MAX,
            old(self)@.files.len() < u32::MAX,
        ensures
            changes_only(old(self)@, final(self)@, true, true, false, false, false, false, false, false),
            final(self)@.strings.len() <= old(self)@.strings.len() + 1,
            final(self)@.files.len() <= old(self)@.files.len() + 1,
            r.0 < final(self)@.files.len(),
            is_first_index_of(final(self)@.strings, uri_path(uri@), final(self)@.files[r.0 as int].path_idx.0 as int),
            forall|j: int| 0 <= j < r.0 ==> !same_file_info(#[trigger] final(self)@.files[j], final(self)@.files[r.0 as int]),
            match checksum {
                Some(c) => final(self)@.files[r.0 as int].checksum == c,
                None => is_empty_checksum(final(self)@.files[r.0 as int].checksum),
            },
    {
        let path = strip_file_scheme(uri);
        let ghost start = self@;
        let path_idx = self.debug_info.intern_string(path.to_string());
        let ghost mid = self@;
        let file = match checksum {
            Some(c) => DebugFileInfo::new(path_idx).with_checksum(c),
            None => DebugFileInfo::new(path_idx),
        };
        let idx = self.debug_info.intern_file(file);
        proof {
            assert(self@.strings == mid.strings);
            assert(same_file_info(self@.files[idx.0 as int], file));
            assert forall|j: int| 0 <= j < idx.0 implies !same_file_info(#[trigger] self@.files[j], self@.files[idx.0 as int]) by {
                assert(!same_file_info(self@.files[j], file));
            }
            if checksum is None {
                assert(self@.files[idx.0 as int].checksum@ == file.checksum@);
                assert forall|i: int| 0 <= i < 32 implies self@.files[idx.0 as int].checksum[i] == 0 by {
                    assert(self@.files[idx.0 as int].checksum@[i] == file.checksum@[i]);
                }
            } else {
                assert(self@.files[idx.0 as int].checksum =~= file.checksum);
            }
        }
        idx
    }

    /// The index of the location `location` (its file added as by [`Self::add_file`], without
    /// a checksum), added unless an equal location row is already there.
    pub fn add_location(&mut self, location: Location) -> (r: DebugLocIdx)
        requires
            old(self)@.strings.len() < u32::MAX,
            old(self)@.files.len() < u32::MAX,
            old(self)@.locations.len() < u32::MAX,
        ensures
            changes_only(old(self)@, final(self)@, true, true, true, false, false, false, false, false),
            r.0 < final(self)@.locations.len(),
            is_first_index_of(final(self)@.locations, final(self)@.locations[r.0 as int], r.0 as int),
            final(self)@.locations[r.0 as int].start == location.start,
            final(self)@.locations[r.0 as int].end == location.end,
            ({
                let f = final(self)@.locations[r.0 as int].file_idx;
                &&& f.0 < final(self)@.files.len()
                &&& final(self)@.files[f.0 as int].path_idx.0 < final(self)@.strings.len()
                &&& final(self)@.strings[final(self)@.files[f.0 as int].path_idx.0 as int] == uri_path(location.uri@)
                &&& is_empty_checksum(final(self)@.files[f.0 as int].checksum)
            }),
    {
        let ghost start = self@;
        let file_idx = self.add_file(location.uri.as_str(), None);
        let ghost mid = self@;
        let idx = self.debug_info.intern_location(DebugLoc { file_idx, start: location.start, end: location.end });
        proof {
            assert(self@.files == mid.files && self@.strings == mid.strings);
        }
        idx
    }

    /// Appends a type row.
    pub fn add_type(&mut self, t: DebugTypeInfo) -> (r: DebugTypeIdx)
        requires
            old(self)@.types.len() < u32::MAX,
        ensures
            changes_only(old(self)@, final(self)@, false, false, false, true, false, false, false, false),
            final(self)@.types == old(self)@.types.push(t@),
            r.0 == old(self)@.types.len(),
    {
        self.debug_info.push_type(t)
    }

    /// Appends a function row.
    pub fn add_function(&mut self, f: FunctionInfo) -> (r: DebugFunctionIdx)
        requires
            old(self)@.functions.len() < u32::MAX,
        ensures
            changes_only(old(self)@, final(self)@, false, false, false, false, true, false, false, false),
            final(self)@.functions == old(self)@.functions.push(f),
            r.0 == old(self)@.functions.len(),
    {
        self.debug_info.push_function(f)
    }

    /// Appends a node whose children are all nodes added before it; otherwise fails with the first
    /// child that names no such node, and adds nothing.
    pub fn add_node(&mut self, node: SourceNode) -> (r: Result<DebugSourceNodeId, SourceGraphLookupError>)
        requires
            old(self)@.nodes.len() < u32::MAX,
        ensures
            r is Ok <==> forall|k: int| 0 <= k < node.children@.len() ==> node.children@[k].0 < old(self)@.nodes.len(),
            r matches Ok(id) ==> {
                &&& changes_only(old(self)@, final(self)@, false, false, false, false, false, true, false, false)
                &&& final(self)@.nodes == old(self)@.nodes.push(node@)
                &&& id.0 == old(self)@.nodes.len()
            },
            r matches Err(e) ==> {
                &&& final(self)@ == old(self)@
                &&& exists|k: int|
                    is_first_missing_child(node.children@, old(self)@.nodes.len(), k)
                        && e == (SourceGraphLookupError::MissingSourceNode { source_node: #[trigger] node.children@[k] })
            },
    {
        let count = self.debug_info.nodes().len();
        let mut k: usize = 0;
        while k < node.children.len()
            invariant
                k <= node.children.len(),
                count == self@.nodes.len(),
                forall|j: int| 0 <= j < k ==> node.children@[j].0 < count,
            decreases node.children.len() - k,
        {
            let child = node.children[k];
            if (child.0 as usize) >= count {
                proof {
                    assert(is_first_missing_child(node.children@, count as nat, k as int));
                }
                return Err(SourceGraphLookupError::MissingSourceNode { source_node: child });
            }
            k = k + 1;
        }
        Ok(self.debug_info.push_node(node))
    }

    /// Records `message` (added as by [`Self::add_string`]) as the error message of `err_code`,
    /// unless a message for that code is already recorded.
    pub fn add_error_message(&mut self, err_code: u64, message: &str)
        requires
            old(self)@.strings.len() < u32::MAX,
        ensures
            changes_only(old(self)@, final(self)@, true, false, false, false, false, false, false, true),
            final(self)@.strings.len() <= old(self)@.strings.len() + 1,
            (exists|i: int| 0 <= i < old(self)@.error_messages.len() && old(self)@.error_messages[i].err_code == err_code)
                ==> final(self)@.error_messages == old(self)@.error_messages,
            !(exists|i: int| 0 <= i < old(self)@.error_messages.len() && old(self)@.error_messages[i].err_code == err_code)
                ==> {
                &&& final(self)@.error_messages.len() == old(self)@.error_messages.len() + 1
                &&& final(self)@.error_messages.last().err_code == err_code
                &&& final(self)@.strings[final(self)@.error_messages.last().message.0 as int] == message@
                &&& final(self)@.error_messages.drop_last() == old(self)@.error_messages
            },
    {
        let idx = self.debug_info.intern_string(message.to_string());
        self.debug_info.add_error_message(err_code, idx);
    }

    /// Appends a root.
    pub fn add_root(&mut self, root: DebugSourceNodeId)
        ensures
            changes_only(old(self)@, final(self)@, false, false, false, false, false, false, true, false),
            final(self)@.roots == old(self)@.roots.push(root),
    {
        self.debug_info.push_root(root)
    }

    /// The debug info built so far.
    pub fn debug_info(&self) -> (r: &DebugInfo)
        ensures
            r@ == self@,
    {
        &self.debug_info
    }

    /// The debug info built.
    pub fn build(self) -> (r: Box<DebugInfo>)
        ensures
            r@ == self@,
    {
        Box::new(self.debug_info)
    }
}

impl Default for DebugInfoBuilder {
    fn default() -> (r: Self)
        ensures
            r@ == empty_debug_info(),
    {
        DebugInfoBuilder::new()
    }
}

/// Adding a string twice gives the same index both times, and the second addition changes
/// nothing (`before`, `mid` and `after` are the builder's contents around the two additions of
/// `s`, which returned `first` and `second`).
pub proof fn lemma_add_string_twice(
    before: DebugInfoView,
    mid: DebugInfoView,
    after: DebugInfoView,
    s: Seq<char>,
    first: DebugStringIdx,
    second: DebugStringIdx,
)
    requires
        adds_string(before, mid),
        is_first_index_of(mid.strings, s, first.0 as int),
        adds_string(mid, after),
        is_first_index_of(after.strings, s, second.0 as int),
        mid.strings.contains(s) ==> after == mid,
    ensures
        second == first,
        after == mid,
{
    assert(mid.strings[first.0 as int] == s);
    assert(after == mid);
    if second.0 < first.0 {
        assert(mid.strings[second.0 as int] != s);
    } else if first.0 < second.0 {
        assert(after.strings[first.0 as int] != s);
    }
}

} // verus!

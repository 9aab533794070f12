//! Debug information bound to a MAST forest: the tables of strings, source files, locations,
//! types and functions, and the graph of source/debug occurrences, with the lookups a debugger
//! performs on them.

use vstd::prelude::*;

use crate::debug_types::{
    AssemblyOp, DebugVarInfo, DebugErrorMessage, DebugFileIdx, DebugFileInfo, DebugFunctionIdx, DebugLoc, DebugLocIdx,
    DebugSourceAsmOp, DebugSourceInlineCall, DebugSourceNodeId, DebugSourceVar, DebugStringIdx,
    DebugSourceVarView, DebugTypeIdx, DebugTypeInfo, DebugTypeInfoView, FunctionInfo, Location,
    MastNodeId, SourceGraphLookupError, SourceNode, SourceNodeView, asm_op_at_or_before,
    debug_vars_at, derefs, first_asm_op, inline_calls_at, inline_calls_at_op, is_first_row,
    is_row_at_or_before, var_ref_views, vars_at,
};

verus! {

/// The version tag of the debug information format.
pub const DEBUG_INFO_VERSION: u8 = 2;

/// Debug information bound to a MAST forest: everything needed for source-level debugging and for
/// recovering program state during execution.
#[derive(Debug, Clone)]
pub struct DebugInfo {
    /// The version tag associated with this debug info instance
    pub(crate) version: u8,
    /// Strings referenced by records in this debug info instance
    pub(crate) strings: Vec<String>,
    /// Source file table: the source paths referenced by this debug info, with optional checksums.
    pub(crate) files: Vec<DebugFileInfo>,
    /// Unique source locations referenced by this debug info instance.
    pub(crate) locations: Vec<DebugLoc>,
    /// Type table containing the type definitions referenced by this debug info instance.
    pub(crate) types: Vec<DebugTypeInfo>,
    /// Function debug information.
    pub(crate) functions: Vec<FunctionInfo>,
    /// Source/debug occurrence nodes.
    pub(crate) nodes: Vec<SourceNode>,
    /// Source/debug occurrence roots: source nodes which correspond to procedure roots.
    pub(crate) roots: Vec<DebugSourceNodeId>,
    /// Assertion error messages, keyed by runtime error code.
    pub(crate) error_messages: Vec<DebugErrorMessage>,
}

/// Trusted package-owned debug information decoded from well-known debug sections.
pub type PackageDebugInfo = DebugInfo;

/// The contents of a [`DebugInfo`].
pub struct DebugInfoView {
    pub version: u8,
    pub strings: Seq<Seq<char>>,
    pub files: Seq<DebugFileInfo>,
    pub locations: Seq<DebugLoc>,
    pub types: Seq<DebugTypeInfoView>,
    pub functions: Seq<FunctionInfo>,
    pub nodes: Seq<SourceNodeView>,
    pub roots: Seq<DebugSourceNodeId>,
    pub error_messages: Seq<DebugErrorMessage>,
}

impl View for DebugInfo {
    type V = DebugInfoView;

    closed spec fn view(&self) -> DebugInfoView {
        DebugInfoView {
            version: self.version,
            strings: self.strings@.map_values(|s: String| s@),
            files: self.files@,
            locations: self.locations@,
            types: self.types@.map_values(|t: DebugTypeInfo| t@),
            functions: self.functions@,
            nodes: self.nodes@.map_values(|n: SourceNode| n@),
            roots: self.roots@,
            error_messages: self.error_messages@,
        }
    }
}

/// The path part of a URI: the URI without a leading `file://` scheme.
pub open spec fn uri_path(uri: Seq<char>) -> Seq<char> {
    if uri.len() >= 7 && uri.take(7) == "file://"@ {
        uri.skip(7)
    } else {
        uri
    }
}

/// `str::strip_prefix("file://")`, falling back to the whole URI when it has no such prefix.
#[verifier::external_body]
pub(crate) fn strip_file_scheme(uri: &str) -> (r: &str)
    ensures
        r@ == uri_path(uri@),
{
    match uri.strip_prefix("file://") {
        Some(path) => path,
        None => uri,
    }
}

/// Position `i` of `uri` ends its scheme: it is the first `:`, comes after at least one character,
/// and no `/` comes before it.
pub open spec fn is_scheme_end(uri: Seq<char>, i: int) -> bool {
    &&& 0 < i < uri.len()
    &&& uri[i] == ':'
    &&& forall|j: int| 0 <= j < i ==> uri[j] != ':' && uri[j] != '/'
}

/// The URI's scheme (the characters before its scheme's `:`), if it has one.
pub open spec fn uri_scheme(uri: Seq<char>) -> Option<Seq<char>> {
    if exists|i: int| is_scheme_end(uri, i) {
        Some(uri.take(choose|i: int| is_scheme_end(uri, i)))
    } else {
        None
    }
}

/// The file-system path a URI names: the URI itself when it has no scheme, its path (see
/// [`uri_path`]) when its scheme is `file`, and none for any other scheme.
pub open spec fn filesystem_path_of(uri: Seq<char>) -> Option<Seq<char>> {
    match uri_scheme(uri) {
        None => Some(uri),
        Some(scheme) => if scheme == "file"@ {
            Some(uri_path(uri))
        } else {
            None
        },
    }
}

proof fn lemma_scheme_end_unique(uri: Seq<char>, i: int, k: int)
    requires
        is_scheme_end(uri, i),
        is_scheme_end(uri, k),
    ensures
        i == k,
{
    if i < k {
        assert(uri[i] != ':');
    } else if k < i {
        assert(uri[k] != ':');
    }
}

/// Whether the scheme of `uri` (see [`uri_scheme`]) is `file`, if it has a scheme.
fn scheme_is_file(uri: &str) -> (r: Option<bool>)
    ensures
        match (r, uri_scheme(uri@)) {
            (None, None) => true,
            (Some(b), Some(t)) => b == (t == "file"@),
            _ => false,
        },
{
    proof {
        reveal_strlit("file");
    }
    let mut prefix_is_file = true;
    // The number of characters seen, counted up to 5.
    let mut count: usize = 0;
    for c in it: uri.chars()
        invariant
            count == (if it.index() < 5 { it.index() } else { 5 }),
            it.seq() == uri@,
            "file"@ == seq!['f', 'i', 'l', 'e'],
            prefix_is_file == (it.index() <= 4 && forall|j: int| 0 <= j < it.index() ==> uri@[j] == "file"@[j]),
            forall|j: int| 0 <= j < it.index() ==> uri@[j] != ':' && uri@[j] != '/',
    {
        let ghost i = it.index() as int;
        assert(c == uri@[i]);
        if c == ':' {
            if count == 0 {
                proof {
                    assert forall|k: int| !is_scheme_end(uri@, k) by {
                        if is_scheme_end(uri@, k) {
                            assert(uri@[0] != ':');
                        }
                    }
                }
                return None;
            }
            let r = prefix_is_file && count == 4;
            proof {
                assert(is_scheme_end(uri@, i));
                let k = choose|k: int| is_scheme_end(uri@, k);
                lemma_scheme_end_unique(uri@, i, k);
                assert(uri_scheme(uri@) == Some(uri@.take(i)));
                if r {
                    assert(uri@.take(i) =~= "file"@);
                } else if uri@.take(i) == "file"@ {
                    assert(0 <= i < uri@.len());
                    assert(uri@.take(i).len() == i);
                    assert("file"@.len() == 4);
                    assert(i == 4);
                    assert forall|j: int| 0 <= j < i implies uri@[j] == "file"@[j] by {
                        assert(uri@.take(i)[j] == uri@[j]);
                    }
                    assert(false);
                }
            }
            return Some(r);
        }
        if c == '/' {
            proof {
                assert forall|k: int| !is_scheme_end(uri@, k) by {
                    if is_scheme_end(uri@, k) {
                        if k <= i {
                            assert(uri@[k] == ':');
                        } else {
                            assert(uri@[i] != '/');
                        }
                    }
                }
            }
            return None;
        }
        let expected = if count == 0 {
            'f'
        } else if count == 1 {
            'i'
        } else if count == 2 {
            'l'
        } else {
            'e'
        };
        prefix_is_file = prefix_is_file && count < 4 && c == expected;
        if count < 5 {
            count = count + 1;
        }
    }
    proof {
        assert forall|k: int| !is_scheme_end(uri@, k) by {
            if is_scheme_end(uri@, k) {
                assert(uri@[k] != ':');
            }
        }
    }
    None
}

/// The file-system path a URI names (see [`filesystem_path_of`]).
pub fn filesystem_path(uri: &str) -> (r: Option<String>)
    ensures
        match (r, filesystem_path_of(uri@)) {
            (None, None) => true,
            (Some(p), Some(q)) => p@ == q,
            _ => false,
        },
{
    match scheme_is_file(uri) {
        None => Some(uri.to_string()),
        Some(true) => Some(strip_file_scheme(uri).to_string()),
        Some(false) => None,
    }
}

/// The index of the first file whose path string (where it exists) is `path`.
pub open spec fn is_first_file_with_path(d: DebugInfoView, path: Seq<char>, i: int) -> bool {
    &&& 0 <= i < d.files.len()
    &&& file_has_path(d, d.files[i], path)
    &&& forall|j: int| 0 <= j < i ==> !file_has_path(d, d.files[j], path)
}

/// The file's path string exists and is `path`.
pub open spec fn file_has_path(d: DebugInfoView, f: DebugFileInfo, path: Seq<char>) -> bool {
    f.path_idx.0 < d.strings.len() && d.strings[f.path_idx.0 as int] == path
}

/// The roots that point at `exec_node`, in root order.
pub open spec fn roots_for(d: DebugInfoView, exec_node: MastNodeId) -> Seq<DebugSourceNodeId> {
    d.roots.filter(|r: DebugSourceNodeId| d.nodes[r.0 as int].exec_node == exec_node)
}

/// Every root that a lookup for `exec_node` reads names an existing node: the lookup reads the
/// roots in order and stops at the second one that points at `exec_node`.
pub open spec fn scanned_roots_in_range(d: DebugInfoView, exec_node: MastNodeId) -> bool {
    forall|i: int|
        0 <= i < d.roots.len() && d.roots.take(i).filter(
            |r: DebugSourceNodeId| d.nodes[r.0 as int].exec_node == exec_node,
        ).len() < 2 ==> #[trigger] d.roots[i].0 < d.nodes.len()
}

impl Default for DebugInfo {
    fn default() -> (r: Self)
        ensures
            r@ == empty_debug_info(),
    {
        DebugInfo::new()
    }
}

/// Row `i` is the first error-message row for `err_code`.
pub open spec fn is_first_message_for(d: DebugInfoView, err_code: u64, i: int) -> bool {
    &&& 0 <= i < d.error_messages.len()
    &&& d.error_messages[i].err_code == err_code
    &&& forall|j: int| 0 <= j < i ==> d.error_messages[j].err_code != err_code
}

/// Where location `idx` exists, its file exists and so does that file's path string.
pub open spec fn location_resolvable(d: DebugInfoView, idx: DebugLocIdx) -> bool {
    idx.0 < d.locations.len() ==> {
        let loc = d.locations[idx.0 as int];
        &&& loc.file_idx.0 < d.files.len()
        &&& d.files[loc.file_idx.0 as int].path_idx.0 < d.strings.len()
    }
}

/// `l` is location `idx` of `d` resolved: its file's path string and its byte range.
pub open spec fn resolved_location(d: DebugInfoView, idx: DebugLocIdx, l: Location) -> bool {
    let loc = d.locations[idx.0 as int];
    &&& l.uri@ == d.strings[d.files[loc.file_idx.0 as int].path_idx.0 as int]
    &&& l.start == loc.start
    &&& l.end == loc.end
}

/// `info` is the debug variable row `row` of `d` resolved: its name string, value location,
/// argument index, type and source location.
pub open spec fn resolved_var(d: DebugInfoView, row: DebugSourceVarView, info: DebugVarInfo) -> bool {
    &&& info.name@ == d.strings[row.name_idx.0 as int]
    &&& info.value_location@ == row.value_location
    &&& info.arg_index == row.arg_idx
    &&& info.type_id == row.type_id
    &&& match row.location_idx {
        None => info.location is None,
        Some(l) => info.location matches Some(loc) && resolved_location(d, l, loc),
    }
}

/// Debug info of the current version with every table empty.
pub open spec fn empty_debug_info() -> DebugInfoView {
    DebugInfoView {
        version: DEBUG_INFO_VERSION,
        strings: Seq::empty(),
        files: Seq::empty(),
        locations: Seq::empty(),
        types: Seq::empty(),
        functions: Seq::empty(),
        nodes: Seq::empty(),
        roots: Seq::empty(),
        error_messages: Seq::empty(),
    }
}

impl DebugInfo {
    /// Empty debug info of the current version.
    pub fn new() -> (r: Self)
        ensures
            r@ == empty_debug_info(),
    {
        let r = DebugInfo {
            version: DEBUG_INFO_VERSION,
            strings: Vec::new(),
            files: Vec::new(),
            locations: Vec::new(),
            types: Vec::new(),
            functions: Vec::new(),
            nodes: Vec::new(),
            roots: Vec::new(),
            error_messages: Vec::new(),
        };
        assert(r@.strings =~= Seq::empty());
        assert(r@.types =~= Seq::empty());
        assert(r@.nodes =~= Seq::empty());
        r
    }

    /// Get the version of this debug info instance
    pub fn version(&self) -> (r: u8)
        ensures
            r == self@.version,
    {
        self.version
    }

    /// Get access to the strings table in this debug info
    pub fn strings(&self) -> (r: &Vec<String>)
        ensures
            r@.map_values(|s: String| s@) == self@.strings,
    {
        &self.strings
    }

    /// Gets a string by index.
    pub fn get_string(&self, idx: DebugStringIdx) -> (r: Option<String>)
        ensures
            r is Some <==> idx.0 < self@.strings.len(),
            r matches Some(s) ==> s@ == self@.strings[idx.0 as int],
    {
        if (idx.0 as usize) < self.strings.len() {
            Some(self.strings[idx.0 as usize].clone())
        } else {
            None
        }
    }

    /// Get access to the files table in this debug info
    pub fn files(&self) -> (r: &Vec<DebugFileInfo>)
        ensures
            r@ == self@.files,
    {
        &self.files
    }

    /// Gets a file by index.
    pub fn get_file(&self, idx: DebugFileIdx) -> (r: Option<&DebugFileInfo>)
        ensures
            r is Some <==> idx.0 < self@.files.len(),
            r matches Some(f) ==> *f == self@.files[idx.0 as int],
    {
        if (idx.0 as usize) < self.files.len() {
            Some(&self.files[idx.0 as usize])
        } else {
            None
        }
    }

    /// Gets the [DebugFileIdx] for a source file whose URI is `uri` (with or without a `file://`
    /// scheme): the first file whose path string is the URI's path.
    pub fn get_file_index_by_uri(&self, uri: &str) -> (r: Option<DebugFileIdx>)
        requires
            self@.files.len() <= u32::MAX,
        ensures
            r is None <==> forall|i: int| 0 <= i < self@.files.len() ==> !file_has_path(
                self@,
                self@.files[i],
                uri_path(uri@),
            ),
            r matches Some(f) ==> is_first_file_with_path(self@, uri_path(uri@), f.0 as int),
    {
        let path = strip_file_scheme(uri).to_owned();
        let mut i: usize = 0;
        while i < self.files.len()
            invariant
                i <= self.files.len(),
                self.files.len() <= u32::MAX,
                path@ == uri_path(uri@),
                forall|j: int| 0 <= j < i ==> !file_has_path(self@, self@.files[j], path@),
            decreases self.files.len() - i,
        {
            let path_idx = self.files[i].path_idx.0 as usize;
            if path_idx < self.strings.len() && self.strings[path_idx] == path {
                assert(file_has_path(self@, self@.files[i as int], path@));
                return Some(DebugFileIdx(i as u32));
            }
            i = i + 1;
        }
        None
    }

    /// Get access to the types table in this debug info
    pub fn types(&self) -> (r: &Vec<DebugTypeInfo>)
        ensures
            r@.map_values(|t: DebugTypeInfo| t@) == self@.types,
    {
        &self.types
    }

    /// Gets a type by index.
    pub fn get_type(&self, idx: DebugTypeIdx) -> (r: Option<&DebugTypeInfo>)
        ensures
            r is Some <==> idx.0 < self@.types.len(),
            r matches Some(t) ==> t@ == self@.types[idx.0 as int],
    {
        if (idx.0 as usize) < self.types.len() {
            Some(&self.types[idx.0 as usize])
        } else {
            None
        }
    }

    /// Get access to the locations table in this debug info
    pub fn locations(&self) -> (r: &Vec<DebugLoc>)
        ensures
            r@ == self@.locations,
    {
        &self.locations
    }

    /// The location at `idx`, resolved to its file's path and byte range. The location's file and
    /// that file's path string must exist.
    pub fn get_location(&self, idx: DebugLocIdx) -> (r: Option<Location>)
        requires
            location_resolvable(self@, idx),
        ensures
            r is Some <==> idx.0 < self@.locations.len(),
            r matches Some(l) ==> resolved_location(self@, idx, l),
    {
        if (idx.0 as usize) >= self.locations.len() {
            return None;
        }
        let loc = self.locations[idx.0 as usize];
        let file = self.files[loc.file_idx.0 as usize];
        let uri = self.strings[file.path_idx.0 as usize].clone();
        Some(Location { uri, start: loc.start, end: loc.end })
    }

    /// Get access to the error messages table in this debug info
    pub fn error_messages(&self) -> (r: &[DebugErrorMessage])
        ensures
            r@ == self@.error_messages,
    {
        self.error_messages.as_slice()
    }

    /// Returns the assertion error message for `err_code`: the message of the first row with that
    /// code, if any. Every row's message string must exist.
    pub fn error_message(&self, err_code: u64) -> (r: Option<String>)
        requires
            forall|i: int|
                is_first_message_for(self@, err_code, i) ==> self@.error_messages[i].message.0
                    < self@.strings.len(),
        ensures
            r is None <==> forall|i: int| 0 <= i < self@.error_messages.len() ==> self@.error_messages[i].err_code
                != err_code,
            r matches Some(s) ==> exists|i: int|
                is_first_message_for(self@, err_code, i) && s@ == self@.strings[self@.error_messages[i].message.0 as int],
    {
        let mut i: usize = 0;
        while i < self.error_messages.len()
            invariant
                i <= self.error_messages.len(),
                forall|j: int| 0 <= j < i ==> self@.error_messages[j].err_code != err_code,
                forall|i: int|
                    is_first_message_for(self@, err_code, i) ==> self@.error_messages[i].message.0
                        < self@.strings.len(),
            decreases self.error_messages.len() - i,
        {
            let row = self.error_messages[i];
            assert(self@.error_messages[i as int] == row);
            if row.err_code == err_code {
                assert(is_first_message_for(self@, err_code, i as int));
                return Some(self.strings[row.message.0 as usize].clone());
            }
            i = i + 1;
        }
        None
    }

    /// Returns source/debug occurrence nodes.
    pub fn nodes(&self) -> (r: &Vec<SourceNode>)
        ensures
            r@.map_values(|n: SourceNode| n@) == self@.nodes,
    {
        &self.nodes
    }

    /// Returns source/debug occurrence roots.
    pub fn roots(&self) -> (r: &[DebugSourceNodeId])
        ensures
            r@ == self@.roots,
    {
        self.roots.as_slice()
    }

    /// Returns a source/debug occurrence by ID.
    pub fn source_node(&self, source_node: DebugSourceNodeId) -> (r: Option<&SourceNode>)
        ensures
            r is Some <==> source_node.0 < self@.nodes.len(),
            r matches Some(n) ==> n@ == self@.nodes[source_node.0 as int],
    {
        if (source_node.0 as usize) < self.nodes.len() {
            Some(&self.nodes[source_node.0 as usize])
        } else {
            None
        }
    }

    /// Get access to the functions table in this debug info
    pub fn functions(&self) -> (r: &[FunctionInfo])
        ensures
            r@ == self@.functions,
    {
        self.functions.as_slice()
    }

    /// Gets the function info for `idx`
    pub fn get_function(&self, idx: DebugFunctionIdx) -> (r: Option<&FunctionInfo>)
        ensures
            r is Some <==> idx.0 < self@.functions.len(),
            r matches Some(f) ==> *f == self@.functions[idx.0 as int],
    {
        if (idx.0 as usize) < self.functions.len() {
            Some(&self.functions[idx.0 as usize])
        } else {
            None
        }
    }
}

/// The assembly-operation rows of a source node (none when the node does not exist).
pub open spec fn asm_rows(d: DebugInfoView, id: DebugSourceNodeId) -> Seq<DebugSourceAsmOp> {
    if id.0 < d.nodes.len() {
        d.nodes[id.0 as int].asm_ops
    } else {
        Seq::empty()
    }
}

/// The debug-variable rows of a source node (none when the node does not exist).
pub open spec fn var_rows(d: DebugInfoView, id: DebugSourceNodeId) -> Seq<DebugSourceVarView> {
    if id.0 < d.nodes.len() {
        d.nodes[id.0 as int].debug_vars
    } else {
        Seq::empty()
    }
}

/// The inline-call rows of a source node (none when the node does not exist).
pub open spec fn inline_rows(d: DebugInfoView, id: DebugSourceNodeId) -> Seq<DebugSourceInlineCall> {
    if id.0 < d.nodes.len() {
        d.nodes[id.0 as int].inline_calls
    } else {
        Seq::empty()
    }
}

proof fn lemma_roots_for_last(d: DebugInfoView, roots: Seq<DebugSourceNodeId>, exec_node: MastNodeId)
    requires
        roots.len() > 0,
    ensures
        roots.filter(|r: DebugSourceNodeId| d.nodes[r.0 as int].exec_node == exec_node) == (if d.nodes[roots.last().0 as int].exec_node
            == exec_node {
            roots.drop_last().filter(|r: DebugSourceNodeId| d.nodes[r.0 as int].exec_node == exec_node).push(roots.last())
        } else {
            roots.drop_last().filter(|r: DebugSourceNodeId| d.nodes[r.0 as int].exec_node == exec_node)
        }),
{
    reveal_with_fuel(Seq::filter, 1);
}

/// Filtering a prefix keeps no more elements than filtering the whole sequence.
proof fn lemma_filter_prefix_len<A>(s: Seq<A>, p: spec_fn(A) -> bool, k: int)
    requires
        0 <= k <= s.len(),
    ensures
        s.take(k).filter(p).len() <= s.filter(p).len(),
    decreases s.len(),
{
    if k < s.len() {
        reveal_with_fuel(Seq::filter, 1);
        assert(s.drop_last().take(k) =~= s.take(k));
        lemma_filter_prefix_len(s.drop_last(), p, k);
    } else {
        assert(s.take(k) =~= s);
    }
}

impl DebugInfo {
    /// Returns the unique source/debug root that points at `exec_node`: `None` when no root does,
    /// and an error when more than one does. Every root must name an existing node.
    pub fn unique_source_root_for_exec_node(&self, exec_node: MastNodeId) -> (r: Result<
        Option<DebugSourceNodeId>,
        SourceGraphLookupError,
    >)
        requires
            scanned_roots_in_range(self@, exec_node),
        ensures
            r == (if roots_for(self@, exec_node).len() == 0 {
                Ok(None)
            } else if roots_for(self@, exec_node).len() == 1 {
                Ok(Some(roots_for(self@, exec_node)[0]))
            } else {
                Err(SourceGraphLookupError::AmbiguousRoot { exec_node })
            }),
    {
        let ghost d = self@;
        let ghost pred = |r: DebugSourceNodeId| d.nodes[r.0 as int].exec_node == exec_node;
        let mut first: Option<DebugSourceNodeId> = None;
        let mut i: usize = 0;
        while i < self.roots.len()
            invariant
                d == self@,
                scanned_roots_in_range(d, exec_node),
                i <= self.roots.len(),
                pred == (|r: DebugSourceNodeId| d.nodes[r.0 as int].exec_node == exec_node),
                first is None <==> d.roots.take(i as int).filter(pred).len() == 0,
                first matches Some(f) ==> d.roots.take(i as int).filter(pred) == seq![f],
            decreases self.roots.len() - i,
        {
            let root = self.roots[i];
            proof {
                assert(d.roots[i as int] == root);
                assert(d.roots.take(i as int).filter(pred).len() < 2);
                assert(d.roots.take(i + 1).drop_last() =~= d.roots.take(i as int));
                lemma_roots_for_last(d, d.roots.take(i + 1), exec_node);
            }
            if self.nodes[root.0 as usize].exec_node == exec_node {
                match first {
                    None => {
                        first = Some(root);
                    },
                    Some(_) => {
                        proof {
                            let taken = d.roots.take(i + 1);
                            assert(taken.filter(pred).len() == 2);
                            assert(taken.filter(pred) =~= d.roots.take(i + 1).filter(pred));
                            lemma_filter_prefix_len(d.roots, pred, i + 1);
                        }
                        return Err(SourceGraphLookupError::AmbiguousRoot { exec_node });
                    },
                }
            }
            i = i + 1;
        }
        assert(d.roots.take(i as int) =~= d.roots);
        Ok(first)
    }

    /// Returns `parent`'s source/debug child at `child_index`, if present, with its node. A missing
    /// parent, or a child that names no existing node, is an error.
    pub fn child_source_node(&self, parent: DebugSourceNodeId, child_index: usize) -> (r: Result<
        Option<(DebugSourceNodeId, &SourceNode)>,
        SourceGraphLookupError,
    >)
        ensures
            parent.0 >= self@.nodes.len() ==> r == Err::<Option<(DebugSourceNodeId, &SourceNode)>, _>(
                SourceGraphLookupError::MissingSourceNode { source_node: parent },
            ),
            parent.0 < self@.nodes.len() ==> {
                let children = self@.nodes[parent.0 as int].children;
                if child_index >= children.len() {
                    r == Ok::<Option<(DebugSourceNodeId, &SourceNode)>, SourceGraphLookupError>(None)
                } else if children[child_index as int].0 >= self@.nodes.len() {
                    r == Err::<Option<(DebugSourceNodeId, &SourceNode)>, _>(
                        SourceGraphLookupError::MissingSourceNode {
                            source_node: children[child_index as int],
                        },
                    )
                } else {
                    r matches Ok(Some((c, n))) && c == children[child_index as int] && n@
                        == self@.nodes[c.0 as int]
                }
            },
    {
        let parent_node = match self.source_node(parent) {
            Some(n) => n,
            None => {
                return Err(SourceGraphLookupError::MissingSourceNode { source_node: parent });
            },
        };
        if child_index >= parent_node.children.len() {
            return Ok(None);
        }
        let child = parent_node.children[child_index];
        match self.source_node(child) {
            Some(child_node) => Ok(Some((child, child_node))),
            None => Err(SourceGraphLookupError::MissingSourceNode { source_node: child }),
        }
    }

    /// Returns the assembly operation rows of a source/debug occurrence (none when it does not
    /// exist).
    pub fn asm_ops_for_source_node(&self, source_node: DebugSourceNodeId) -> (r: &[DebugSourceAsmOp])
        ensures
            r@ == asm_rows(self@, source_node),
    {
        match self.source_node(source_node) {
            Some(node) => node.asm_ops.as_slice(),
            None => &[],
        }
    }

    /// Returns the first assembly operation row for `source_node` (the first one with the smallest
    /// operation index), if present.
    pub fn first_asm_op_for_source_node(&self, source_node: DebugSourceNodeId) -> (r: Option<
        &DebugSourceAsmOp,
    >)
        ensures
            r is None <==> asm_rows(self@, source_node).len() == 0,
            r matches Some(row) ==> exists|i: int| is_first_row(asm_rows(self@, source_node), i)
                && *row == asm_rows(self@, source_node)[i],
    {
        match self.source_node(source_node) {
            Some(node) => first_asm_op(&node.asm_ops),
            None => None,
        }
    }

    /// Returns the assembly operation row for `source_node` at or before `op_idx`, if present:
    /// among those rows, the last one with the greatest operation index.
    pub fn asm_op_for_operation(&self, source_node: DebugSourceNodeId, op_idx: u32) -> (r: Option<
        &DebugSourceAsmOp,
    >)
        ensures
            r is None <==> forall|j: int| 0 <= j < asm_rows(self@, source_node).len() ==> asm_rows(
                self@,
                source_node,
            )[j].op_idx > op_idx,
            r matches Some(row) ==> exists|i: int| is_row_at_or_before(asm_rows(self@, source_node), op_idx, i)
                && *row == asm_rows(self@, source_node)[i],
    {
        match self.source_node(source_node) {
            Some(node) => asm_op_at_or_before(&node.asm_ops, op_idx),
            None => None,
        }
    }

    /// Returns the debug variable rows of a source/debug occurrence (none when it does not exist).
    pub fn debug_vars_for_source_node(&self, source_node: DebugSourceNodeId) -> (r: &[DebugSourceVar])
        ensures
            r@.map_values(|v: DebugSourceVar| v@) == var_rows(self@, source_node),
    {
        match self.source_node(source_node) {
            Some(node) => node.debug_vars.as_slice(),
            None => &[],
        }
    }

    /// Returns the debug variable rows for `source_node` at `op_idx`, in row order.
    pub fn debug_vars_for_operation(&self, source_node: DebugSourceNodeId, op_idx: u32) -> (r: Vec<
        &DebugSourceVar,
    >)
        ensures
            var_ref_views(r@) == vars_at(var_rows(self@, source_node), op_idx),
    {
        match self.source_node(source_node) {
            Some(node) => debug_vars_at(&node.debug_vars, op_idx),
            None => {
                assert(vars_at(Seq::<DebugSourceVarView>::empty(), op_idx) =~= Seq::empty());
                assert(var_ref_views(Seq::<&DebugSourceVar>::empty()) =~= Seq::empty());
                Vec::new()
            },
        }
    }

    /// Returns the inline-call rows of a source/debug occurrence (none when it does not exist).
    pub fn inline_calls_for_source_node(&self, source_node: DebugSourceNodeId) -> (r: &[DebugSourceInlineCall])
        ensures
            r@ == inline_rows(self@, source_node),
    {
        match self.source_node(source_node) {
            Some(node) => node.inline_calls.as_slice(),
            None => &[],
        }
    }

    /// Returns the inline-call rows for `source_node` at `op_idx`, in row order.
    pub fn inline_calls_for_operation(&self, source_node: DebugSourceNodeId, op_idx: u32) -> (r: Vec<
        &DebugSourceInlineCall,
    >)
        ensures
            derefs(r@) == inline_calls_at(inline_rows(self@, source_node), op_idx),
    {
        match self.source_node(source_node) {
            Some(node) => inline_calls_at_op(&node.inline_calls, op_idx),
            None => {
                assert(inline_calls_at(Seq::<DebugSourceInlineCall>::empty(), op_idx) =~= Seq::empty());
                assert(derefs(Seq::<&DebugSourceInlineCall>::empty()) =~= Seq::empty());
                Vec::new()
            },
        }
    }
}

/// `new` is what `trimmer` makes of `old` applied `times` times in a row (see [`trimmed`]).
pub open spec fn trimmed_times<F: Fn(&str) -> Option<String>>(trimmer: F, old: Seq<char>, new: Seq<char>, times: nat) -> bool
    decreases times,
{
    if times == 0 {
        new == old
    } else {
        exists|mid: Seq<char>| trimmed_times(trimmer, old, mid, (times - 1) as nat) && #[trigger] trimmed(trimmer, mid, new)
    }
}

/// How many of `files` have the path string `k`.
pub open spec fn path_uses(files: Seq<DebugFileInfo>, k: int) -> nat
    decreases files.len(),
{
    if files.len() == 0 {
        0
    } else {
        path_uses(files.drop_last(), k) + if files.last().path_idx.0 == k {
            1nat
        } else {
            0nat
        }
    }
}

/// `new` is what `trimmer` makes of the path `old`: the string it returned, or `old` itself when it
/// returned `None`.
pub open spec fn trimmed<F: Fn(&str) -> Option<String>>(trimmer: F, old: Seq<char>, new: Seq<char>) -> bool {
    exists|arg: &str, r: Option<String>|
        arg@ == old && call_ensures(trimmer, (arg,), r) && (match r {
            Some(t) => new == t@,
            None => new == old,
        })
}

impl DebugInfo {
    /// Applies `trimmer` to every string in the strings table which represents a file path, once
    /// per file, in file order: where `trimmer` returns `None` the entry is left unmodified,
    /// otherwise it is replaced with the returned string. Every file's path string must exist.
    pub fn trim_file_paths<F: Fn(&str) -> Option<String>>(&mut self, trimmer: F)
        requires
            forall|arg: &str| call_requires(trimmer, (arg,)),
            forall|i: int| 0 <= i < old(self)@.files.len() ==> old(self)@.files[i].path_idx.0 < old(
                self,
            )@.strings.len(),
        ensures
            final(self)@.version == old(self)@.version,
            final(self)@.files == old(self)@.files,
            final(self)@.locations == old(self)@.locations,
            final(self)@.types == old(self)@.types,
            final(self)@.functions == old(self)@.functions,
            final(self)@.nodes == old(self)@.nodes,
            final(self)@.roots == old(self)@.roots,
            final(self)@.error_messages == old(self)@.error_messages,
            final(self)@.strings.len() == old(self)@.strings.len(),
            forall|k: int|
                0 <= k < old(self)@.strings.len() ==> trimmed_times(
                    trimmer,
                    old(self)@.strings[k],
                    #[trigger] final(self)@.strings[k],
                    path_uses(old(self)@.files, k),
                ),
    {
        let ghost d0 = self@;
        let mut i: usize = 0;
        while i < self.files.len()
            invariant
                i <= self.files.len(),
                forall|arg: &str| call_requires(trimmer, (arg,)),
                self.version == d0.version,
                self@.files == d0.files,
                self@.locations == d0.locations,
                self@.types == d0.types,
                self@.functions == d0.functions,
                self@.nodes == d0.nodes,
                self@.roots == d0.roots,
                self@.error_messages == d0.error_messages,
                self@.strings.len() == d0.strings.len(),
                forall|j: int| 0 <= j < d0.files.len() ==> d0.files[j].path_idx.0 < d0.strings.len(),
                forall|k: int|
                    0 <= k < d0.strings.len() ==> trimmed_times(
                        trimmer,
                        d0.strings[k],
                        #[trigger] self@.strings[k],
                        path_uses(d0.files.take(i as int), k),
                    ),
            decreases self.files.len() - i,
        {
            let k = self.files[i].path_idx.0 as usize;
            let ghost before = self@.strings;
            let arg = self.strings[k].as_str();
            let r = trimmer(arg);
            proof {
                assert(self@.strings[k as int] == self.strings@[k as int]@);
                assert(arg@ == before[k as int]);
            }
            if let Some(new_string) = r {
                self.strings.set(k, new_string);
            }
            proof {
                assert(d0.files.take(i + 1).drop_last() =~= d0.files.take(i as int));
                assert forall|kk: int|
                    0 <= kk < d0.strings.len() && kk != k implies self@.strings[kk] == before[kk] by {
                    assert(self@.strings[kk] == self.strings@[kk]@);
                }
                assert(self@.strings[k as int] == self.strings@[k as int]@);
                assert(trimmed(trimmer, before[k as int], self@.strings[k as int]));
                assert forall|kk: int| 0 <= kk < d0.strings.len() implies trimmed_times(
                    trimmer,
                    d0.strings[kk],
                    #[trigger] self@.strings[kk],
                    path_uses(d0.files.take(i + 1), kk),
                ) by {
                    assert(trimmed_times(trimmer, d0.strings[kk], before[kk], path_uses(d0.files.take(i as int), kk)));
                    if kk == k {
                        assert(trimmed_times(
                            trimmer,
                            d0.strings[kk],
                            self@.strings[kk],
                            path_uses(d0.files.take(i as int), kk) + 1,
                        ));
                    }
                }
            }
            i = i + 1;
        }
        assert(d0.files.take(i as int) =~= d0.files);
    }
}

/// `a` is a prefix of `b`.
pub open spec fn is_prefix<A>(a: Seq<A>, b: Seq<A>) -> bool {
    a.len() <= b.len() && forall|i: int| 0 <= i < a.len() ==> #[trigger] b[i] == a[i]
}

/// `new` only adds rows to the end of the tables of `old`.
pub open spec fn extends(old: DebugInfoView, new: DebugInfoView) -> bool {
    &&& new.version == old.version
    &&& is_prefix(old.strings, new.strings)
    &&& is_prefix(old.files, new.files)
    &&& is_prefix(old.locations, new.locations)
    &&& is_prefix(old.types, new.types)
    &&& is_prefix(old.functions, new.functions)
    &&& is_prefix(old.nodes, new.nodes)
    &&& is_prefix(old.roots, new.roots)
    &&& is_prefix(old.error_messages, new.error_messages)
}

/// `extends` is transitive.
pub proof fn lemma_extends_trans(a: DebugInfoView, b: DebugInfoView, c: DebugInfoView)
    requires
        extends(a, b),
        extends(b, c),
    ensures
        extends(a, c),
{
}

/// `new` extends `old`, and only the tables whose flag is set may differ.
pub open spec fn changes_only(
    old: DebugInfoView,
    new: DebugInfoView,
    strings: bool,
    files: bool,
    locations: bool,
    types: bool,
    functions: bool,
    nodes: bool,
    roots: bool,
    error_messages: bool,
) -> bool {
    &&& extends(old, new)
    &&& !strings ==> new.strings == old.strings
    &&& !files ==> new.files == old.files
    &&& !locations ==> new.locations == old.locations
    &&& !types ==> new.types == old.types
    &&& !functions ==> new.functions == old.functions
    &&& !nodes ==> new.nodes == old.nodes
    &&& !roots ==> new.roots == old.roots
    &&& !error_messages ==> new.error_messages == old.error_messages
}

/// Only the strings table differs, and by at most one added row.
pub open spec fn adds_string(old: DebugInfoView, new: DebugInfoView) -> bool {
    &&& changes_only(old, new, true, false, false, false, false, false, false, false)
    &&& new.strings.len() <= old.strings.len() + 1
}

impl DebugInfo {
    /// A copy of this debug info.
    pub fn duplicate(&self) -> (r: Self)
        ensures
            r@ == self@,
    {
        let r = DebugInfo {
            version: self.version,
            strings: self.strings.clone(),
            files: self.files.clone(),
            locations: self.locations.clone(),
            types: copy_types(&self.types),
            functions: self.functions.clone(),
            nodes: copy_nodes(&self.nodes),
            roots: self.roots.clone(),
            error_messages: self.error_messages.clone(),
        };
        assert(r@.strings =~= self@.strings);
        assert(r@.types =~= self@.types);
        assert(r@.nodes =~= self@.nodes);
        assert(r@.files =~= self@.files);
        assert(r@.locations =~= self@.locations);
        assert(r@.functions =~= self@.functions);
        assert(r@.roots =~= self@.roots);
        assert(r@.error_messages =~= self@.error_messages);
        r
    }

    /// The index of the string `s`, added to the end of the strings table unless an equal string
    /// is already there.
    pub(crate) fn intern_string(&mut self, s: String) -> (r: DebugStringIdx)
        requires
            old(self)@.strings.len() < u32::MAX,
        ensures
            adds_string(old(self)@, final(self)@),
            r.0 < final(self)@.strings.len(),
            final(self)@.strings[r.0 as int] == s@,
            is_first_index_of(final(self)@.strings, s@, r.0 as int),
            old(self)@.strings.contains(s@) ==> final(self)@ == old(self)@,
            !old(self)@.strings.contains(s@) ==> final(self)@.strings == old(self)@.strings.push(s@),
    {
        let mut i: usize = 0;
        while i < self.strings.len()
            invariant
                i <= self.strings.len(),
                self.strings.len() < u32::MAX,
                forall|j: int| 0 <= j < i ==> self@.strings[j] != s@,
            decreases self.strings.len() - i,
        {
            if self.strings[i] == s {
                proof {
                    assert(self@.strings[i as int] == self.strings@[i as int]@);
                }
                return DebugStringIdx(i as u32);
            }
            assert(self@.strings[i as int] == self.strings@[i as int]@);
            i = i + 1;
        }
        let ghost before = self@;
        let idx = self.strings.len() as u32;
        self.strings.push(s);
        assert forall|i: int| 0 <= i < before.strings.len() implies #[trigger] self@.strings[i]
            == before.strings[i] by {
            assert(self.strings@[i] == old(self).strings@[i]);
        }
        assert(self@.strings =~= before.strings.push(s@));
        DebugStringIdx(idx)
    }
}

/// `i` is the first index of `x` in `s`.
pub open spec fn is_first_index_of<A>(s: Seq<A>, x: A, i: int) -> bool {
    &&& 0 <= i < s.len()
    &&& s[i] == x
    &&& forall|j: int| 0 <= j < i ==> s[j] != x
}

fn copy_types(types: &Vec<DebugTypeInfo>) -> (r: Vec<DebugTypeInfo>)
    ensures
        r@.map_values(|t: DebugTypeInfo| t@) == types@.map_values(|t: DebugTypeInfo| t@),
{
    let mut out: Vec<DebugTypeInfo> = Vec::new();
    let mut i: usize = 0;
    while i < types.len()
        invariant
            i <= types.len(),
            out@.len() == i,
            forall|j: int| 0 <= j < i ==> out@[j]@ == types@[j]@,
        decreases types.len() - i,
    {
        out.push(types[i].duplicate());
        i = i + 1;
    }
    assert(out@.map_values(|t: DebugTypeInfo| t@) =~= types@.map_values(|t: DebugTypeInfo| t@));
    out
}

fn copy_nodes(nodes: &Vec<SourceNode>) -> (r: Vec<SourceNode>)
    ensures
        r@.map_values(|n: SourceNode| n@) == nodes@.map_values(|n: SourceNode| n@),
{
    let mut out: Vec<SourceNode> = Vec::new();
    let mut i: usize = 0;
    while i < nodes.len()
        invariant
            i <= nodes.len(),
            out@.len() == i,
            forall|j: int| 0 <= j < i ==> out@[j]@ == nodes@[j]@,
        decreases nodes.len() - i,
    {
        out.push(nodes[i].duplicate());
        i = i + 1;
    }
    assert(out@.map_values(|n: SourceNode| n@) =~= nodes@.map_values(|n: SourceNode| n@));
    out
}

/// The two file rows are equal (same path index and checksum bytes).
pub open spec fn same_file_info(a: DebugFileInfo, b: DebugFileInfo) -> bool {
    a.path_idx == b.path_idx && a.checksum@ == b.checksum@
}

fn file_info_eq(a: &DebugFileInfo, b: &DebugFileInfo) -> (r: bool)
    ensures
        r == same_file_info(*a, *b),
{
    if a.path_idx.0 != b.path_idx.0 {
        return false;
    }
    let mut i: usize = 0;
    while i < 32
        invariant
            i <= 32,
            forall|j: int| 0 <= j < i ==> a.checksum[j] == b.checksum[j],
        decreases 32 - i,
    {
        if a.checksum[i] != b.checksum[i] {
            return false;
        }
        i = i + 1;
    }
    assert(a.checksum@ =~= b.checksum@);
    true
}

impl DebugInfo {
    /// Adds a type to the end of the type table.
    pub(crate) fn push_type(&mut self, t: DebugTypeInfo) -> (r: DebugTypeIdx)
        requires
            old(self)@.types.len() < u32::MAX,
        ensures
            changes_only(old(self)@, final(self)@, false, false, false, true, false, false, false, false),
            final(self)@.types == old(self)@.types.push(t@),
            r.0 == old(self)@.types.len(),
    {
        let idx = self.types.len() as u32;
        self.types.push(t);
        assert(self@.types =~= old(self)@.types.push(t@));
        DebugTypeIdx(idx)
    }

    /// The index of a file row equal to `f`, added to the end of the file table unless an equal
    /// row is already there.
    pub(crate) fn intern_file(&mut self, f: DebugFileInfo) -> (r: DebugFileIdx)
        requires
            old(self)@.files.len() < u32::MAX,
        ensures
            changes_only(old(self)@, final(self)@, false, true, false, false, false, false, false, false),
            final(self)@.files.len() <= old(self)@.files.len() + 1,
            r.0 < final(self)@.files.len(),
            same_file_info(final(self)@.files[r.0 as int], f),
            forall|j: int| 0 <= j < r.0 ==> !same_file_info(#[trigger] final(self)@.files[j], f),
            (exists|j: int| 0 <= j < old(self)@.files.len() && same_file_info(#[trigger] old(self)@.files[j], f))
                ==> final(self)@ == old(self)@,
            !(exists|j: int| 0 <= j < old(self)@.files.len() && same_file_info(#[trigger] old(self)@.files[j], f))
                ==> final(self)@.files == old(self)@.files.push(f),
    {
        let mut i: usize = 0;
        while i < self.files.len()
            invariant
                i <= self.files.len(),
                self.files.len() < u32::MAX,
                forall|j: int| 0 <= j < i ==> !same_file_info(#[trigger] self@.files[j], f),
            decreases self.files.len() - i,
        {
            if file_info_eq(&self.files[i], &f) {
                return DebugFileIdx(i as u32);
            }
            i = i + 1;
        }
        let idx = self.files.len() as u32;
        self.files.push(f);
        DebugFileIdx(idx)
    }

    /// The index of a location row equal to `loc`, added to the end of the location table unless
    /// an equal row is already there.
    pub(crate) fn intern_location(&mut self, loc: DebugLoc) -> (r: DebugLocIdx)
        requires
            old(self)@.locations.len() < u32::MAX,
        ensures
            changes_only(old(self)@, final(self)@, false, false, true, false, false, false, false, false),
            final(self)@.locations.len() <= old(self)@.locations.len() + 1,
            r.0 < final(self)@.locations.len(),
            is_first_index_of(final(self)@.locations, loc, r.0 as int),
            old(self)@.locations.contains(loc) ==> final(self)@ == old(self)@,
            !old(self)@.locations.contains(loc) ==> final(self)@.locations == old(self)@.locations.push(loc),
    {
        let mut i: usize = 0;
        while i < self.locations.len()
            invariant
                i <= self.locations.len(),
                self.locations.len() < u32::MAX,
                forall|j: int| 0 <= j < i ==> self@.locations[j] != loc,
            decreases self.locations.len() - i,
        {
            if self.locations[i] == loc {
                return DebugLocIdx(i as u32);
            }
            i = i + 1;
        }
        let idx = self.locations.len() as u32;
        self.locations.push(loc);
        DebugLocIdx(idx)
    }

    /// Records the error message `message` for `err_code`, unless a message for that code is
    /// already recorded.
    pub(crate) fn add_error_message(&mut self, err_code: u64, message: DebugStringIdx)
        ensures
            changes_only(old(self)@, final(self)@, false, false, false, false, false, false, false, true),
            final(self)@.error_messages == (if exists|i: int|
                0 <= i < old(self)@.error_messages.len() && old(self)@.error_messages[i].err_code
                    == err_code {
                old(self)@.error_messages
            } else {
                old(self)@.error_messages.push(DebugErrorMessage { err_code, message })
            }),
    {
        let mut i: usize = 0;
        while i < self.error_messages.len()
            invariant
                i <= self.error_messages.len(),
                forall|j: int| 0 <= j < i ==> self.error_messages@[j].err_code != err_code,
            decreases self.error_messages.len() - i,
        {
            if self.error_messages[i].err_code == err_code {
                return;
            }
            i = i + 1;
        }
        self.error_messages.push(DebugErrorMessage { err_code, message });
    }

    /// Adds a node to the end of the node table.
    pub(crate) fn push_node(&mut self, node: SourceNode) -> (r: DebugSourceNodeId)
        requires
            old(self)@.nodes.len() < u32::MAX,
        ensures
            changes_only(old(self)@, final(self)@, false, false, false, false, false, true, false, false),
            final(self)@.nodes == old(self)@.nodes.push(node@),
            r.0 == old(self)@.nodes.len(),
    {
        let idx = self.nodes.len() as u32;
        self.nodes.push(node);
        assert(self@.nodes =~= old(self)@.nodes.push(node@));
        DebugSourceNodeId(idx)
    }

    /// Sets the executable node of node `i`.
    pub(crate) fn set_exec_node(&mut self, i: usize, exec_node: MastNodeId)
        requires
            i < old(self)@.nodes.len(),
        ensures
            final(self)@ == (DebugInfoView {
                nodes: old(self)@.nodes.update(i as int, SourceNodeView { exec_node, ..old(self)@.nodes[i as int] }),
                ..old(self)@
            }),
    {
        let mut n = self.nodes[i].duplicate();
        n.exec_node = exec_node;
        self.nodes.set(i, n);
        assert(self@.nodes =~= old(self)@.nodes.update(
            i as int,
            SourceNodeView { exec_node, ..old(self)@.nodes[i as int] },
        ));
    }

    /// Adds a root to the end of the roots list.
    pub(crate) fn push_root(&mut self, root: DebugSourceNodeId)
        ensures
            changes_only(old(self)@, final(self)@, false, false, false, false, false, false, true, false),
            final(self)@.roots == old(self)@.roots.push(root),
    {
        self.roots.push(root);
    }

    /// Adds a function to the end of the function table.
    pub(crate) fn push_function(&mut self, f: FunctionInfo) -> (r: DebugFunctionIdx)
        requires
            old(self)@.functions.len() < u32::MAX,
        ensures
            changes_only(old(self)@, final(self)@, false, false, false, false, true, false, false, false),
            final(self)@.functions == old(self)@.functions.push(f),
            r.0 == old(self)@.functions.len(),
    {
        let idx = self.functions.len() as u32;
        self.functions.push(f);
        DebugFunctionIdx(idx)
    }
}

impl DebugSourceAsmOp {
    /// The assembly operation this row describes, with its strings and location resolved in
    /// `debug_info` (no location where the row has none or its location does not exist).
    pub fn to_assembly_op(&self, debug_info: &DebugInfo) -> (r: AssemblyOp)
        requires
            self.context_name_idx.0 < debug_info@.strings.len(),
            self.op_name_idx.0 < debug_info@.strings.len(),
            self.location_idx matches Some(l) ==> location_resolvable(debug_info@, l),
        ensures
            r.context_name@ == debug_info@.strings[self.context_name_idx.0 as int],
            r.op@ == debug_info@.strings[self.op_name_idx.0 as int],
            r.num_cycles == self.num_cycles,
            match self.location_idx {
                None => r.location is None,
                Some(l) => (r.location is Some <==> l.0 < debug_info@.locations.len()) && (r.location matches Some(
                    loc,
                ) ==> resolved_location(debug_info@, l, loc)),
            },
    {
        let location = match self.location_idx {
            Some(l) => debug_info.get_location(l),
            None => None,
        };
        let context_name = debug_info.get_string(self.context_name_idx).unwrap();
        let op = debug_info.get_string(self.op_name_idx).unwrap();
        AssemblyOp { location, context_name, num_cycles: self.num_cycles, op }
    }
}

impl SourceNode {
    /// The debug variables at operation `op_idx`, in row order, each resolved in `debug_info`
    /// (see [`resolved_var`]). The name of each such row must exist, and so must its location.
    pub fn debug_infos_for_operation(&self, op_idx: u32, debug_info: &DebugInfo) -> (r: Vec<DebugVarInfo>)
        requires
            forall|k: int|
                0 <= k < vars_at(self@.debug_vars, op_idx).len() ==> {
                    let row = #[trigger] vars_at(self@.debug_vars, op_idx)[k];
                    &&& row.name_idx.0 < debug_info@.strings.len()
                    &&& row.location_idx matches Some(l) ==> l.0 < debug_info@.locations.len()
                        && location_resolvable(debug_info@, l)
                },
        ensures
            r@.len() == vars_at(self@.debug_vars, op_idx).len(),
            forall|k: int| 0 <= k < r@.len() ==> resolved_var(debug_info@, vars_at(self@.debug_vars, op_idx)[k], #[trigger] r@[k]),
    {
        let rows = self.debug_vars_for_operation(op_idx);
        let ghost want = vars_at(self@.debug_vars, op_idx);
        let mut out: Vec<DebugVarInfo> = Vec::new();
        let mut k: usize = 0;
        while k < rows.len()
            invariant
                var_ref_views(rows@) == want,
                want == vars_at(self@.debug_vars, op_idx),
                forall|j: int|
                    0 <= j < want.len() ==> {
                        let row = #[trigger] want[j];
                        &&& row.name_idx.0 < debug_info@.strings.len()
                        &&& row.location_idx matches Some(l) ==> l.0 < debug_info@.locations.len()
                            && location_resolvable(debug_info@, l)
                    },
                k <= rows.len(),
                out@.len() == k,
                forall|j: int| 0 <= j < k ==> resolved_var(debug_info@, want[j], #[trigger] out@[j]),
            decreases rows.len() - k,
        {
            let row = rows[k];
            assert(want[k as int] == row@);
            let name = debug_info.get_string(row.name_idx).unwrap();
            let location = match row.location_idx {
                Some(l) => Some(debug_info.get_location(l).unwrap()),
                None => None,
            };
            out.push(DebugVarInfo {
                name,
                value_location: row.value_location.duplicate(),
                arg_index: row.arg_idx,
                location,
                type_id: row.type_id,
            });
            k = k + 1;
        }
        out
    }
}

} // verus!

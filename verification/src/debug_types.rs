//! Type definitions for the debug-information sections of a package.
//!
//! The debug info holds type definitions (primitives, structs, arrays, ...), deduplicated source
//! file paths, function metadata, and a graph of source/debug occurrences, each keyed to an
//! executable MAST node. Debuggers use it for source-level variable inspection, stepping, and
//! call stack visualization.

use vstd::prelude::*;

verus! {

// INDICES
// ================================================================================================

/// A strongly-typed index into the strings table of a `DebugInfo`.
#[derive(Clone, Copy, Debug, PartialEq, Eq, Structural, Hash, PartialOrd, Ord)]
pub struct DebugStringIdx(pub u32);

/// A strongly-typed index into the type table of a `DebugInfo`.
#[derive(Clone, Copy, Debug, PartialEq, Eq, Structural, Hash, PartialOrd, Ord)]
pub struct DebugTypeIdx(pub u32);

/// A strongly-typed index into the source file table of a `DebugInfo`.
#[derive(Clone, Copy, Debug, PartialEq, Eq, Structural, Hash, PartialOrd, Ord)]
pub struct DebugFileIdx(pub u32);

/// A strongly-typed index into the functions table of a `DebugInfo`.
#[derive(Clone, Copy, Debug, PartialEq, Eq, Structural, Hash, PartialOrd, Ord)]
pub struct DebugFunctionIdx(pub u32);

/// A strongly-typed index into the locations table of a `DebugInfo`.
#[derive(Clone, Copy, Debug, PartialEq, Eq, Structural, Hash, PartialOrd, Ord)]
pub struct DebugLocIdx(pub u32);

/// A strongly-typed index into the source/debug occurrence (node) table of a `DebugInfo`.
#[derive(Clone, Copy, Debug, PartialEq, Eq, Structural, Hash, PartialOrd, Ord)]
pub struct DebugSourceNodeId(pub u32);

/// The identifier of an executable node of a MAST forest.
#[derive(Clone, Copy, Debug, PartialEq, Eq, Structural, Hash, PartialOrd, Ord)]
pub struct MastNodeId(pub u32);

impl MastNodeId {
    /// A node identifier with the given raw index, not checked against any forest.
    pub fn new_unchecked(value: u32) -> (r: Self)
        ensures
            r.0 == value,
    {
        MastNodeId(value)
    }
}

/// A marker for index types that may be used as a source node index of a `DebugInfo`.
pub trait SourceNodeIdMarker {
}

impl SourceNodeIdMarker for DebugSourceNodeId {
}

// ERRORS
// ================================================================================================

/// Error returned when a caller needs a unique source/debug occurrence but the graph cannot supply
/// one.
#[derive(Debug, Clone, Copy, PartialEq, Eq, Structural)]
pub enum SourceGraphLookupError {
    /// The requested parent source/debug occurrence is not present.
    MissingSourceNode { source_node: DebugSourceNodeId },
    /// Multiple source/debug roots point at the same executable MAST node.
    AmbiguousRoot { exec_node: MastNodeId },
}

/// The lookup error of package-owned debug information.
pub type DebugSourceGraphLookupError = SourceGraphLookupError;

/// The merge error of package-owned debug information.
pub type PackageDebugInfoMergeError = DebugInfoMergeError;

/// Error returned when package-owned source/debug metadata cannot be remapped after a MAST forest
/// merge.
#[derive(Debug, Clone, Copy, PartialEq, Eq, Structural)]
pub enum DebugInfoMergeError {
    /// The package has source-keyed metadata rows without a source graph to define source IDs.
    SourceMapWithoutGraph { forest_index: usize },
    /// A source/debug occurrence points at an execution node that was not present in the merge map.
    MissingExecNodeMapping { forest_index: usize, exec_node: MastNodeId },
    /// A source-keyed metadata row refers to a source/debug occurrence that was not present in the
    /// corresponding source graph.
    MissingSourceNodeMapping { forest_index: usize, source_node: DebugSourceNodeId },
    /// A debug type row refers to a string index that is not present in its type string table.
    MissingTypeStringMapping { forest_index: usize, string_idx: DebugStringIdx },
    /// A debug type or function row refers to a type index that is not present in its type table.
    MissingTypeMapping { forest_index: usize, type_idx: DebugTypeIdx },
    /// A debug source-file row refers to a string index that is not present in its source string
    /// table.
    MissingSourceStringMapping { forest_index: usize, string_idx: DebugStringIdx },
    /// A debug function or inline-call row refers to a source-file index that is not present in its
    /// source-file table.
    MissingSourceFileMapping { forest_index: usize, file_idx: DebugFileIdx },
    /// A row refers to a source location index that is not present in the location table.
    MissingSourceLocationMapping { forest_index: usize, location_idx: DebugLocIdx },
    /// A debug function row refers to a string index that is not present in its function string
    /// table.
    MissingFunctionStringMapping { forest_index: usize, string_idx: DebugStringIdx },
    /// A debug inline-call row refers to a function index that is not present in its function
    /// table.
    MissingFunctionMapping { forest_index: usize, function_idx: DebugFunctionIdx },
}

impl DebugInfoMergeError {
    /// The index of the forest whose debug info the error is about.
    pub open spec fn forest(self) -> usize {
        match self {
            DebugInfoMergeError::SourceMapWithoutGraph { forest_index } => forest_index,
            DebugInfoMergeError::MissingExecNodeMapping { forest_index, .. } => forest_index,
            DebugInfoMergeError::MissingSourceNodeMapping { forest_index, .. } => forest_index,
            DebugInfoMergeError::MissingTypeStringMapping { forest_index, .. } => forest_index,
            DebugInfoMergeError::MissingTypeMapping { forest_index, .. } => forest_index,
            DebugInfoMergeError::MissingSourceStringMapping { forest_index, .. } => forest_index,
            DebugInfoMergeError::MissingSourceFileMapping { forest_index, .. } => forest_index,
            DebugInfoMergeError::MissingSourceLocationMapping { forest_index, .. } => forest_index,
            DebugInfoMergeError::MissingFunctionStringMapping { forest_index, .. } => forest_index,
            DebugInfoMergeError::MissingFunctionMapping { forest_index, .. } => forest_index,
        }
    }
}

// LOCATIONS
// ================================================================================================

/// A deduplicated source location: a byte range of a source file.
#[derive(Debug, Copy, Clone, PartialEq, Eq, Structural, PartialOrd, Ord, Hash)]
pub struct DebugLoc {
    pub file_idx: DebugFileIdx,
    pub start: u32,
    pub end: u32,
}

/// A resolved source location: the file's URI and a byte range within it.
#[derive(Debug, Clone)]
pub struct Location {
    pub uri: String,
    pub start: u32,
    pub end: u32,
}

/// An assembly operation with its strings and source location resolved.
#[derive(Debug, Clone)]
pub struct AssemblyOp {
    /// The source location of the operation, if known.
    pub location: Option<Location>,
    /// The name of the assembly context (procedure) the operation belongs to.
    pub context_name: String,
    /// The number of VM cycles the operation takes.
    pub num_cycles: u8,
    /// The operation's text.
    pub op: String,
}

/// A debug variable with its name and source location resolved.
#[derive(Debug, Clone)]
pub struct DebugVarInfo {
    /// The variable's name as it appears in source code.
    pub name: String,
    /// Where the variable's value can be found.
    pub value_location: DebugVarLocation,
    /// For a function parameter, its 1-based index.
    pub arg_index: Option<u32>,
    /// The variable's source location, if recorded.
    pub location: Option<Location>,
    /// The variable's type index, if recorded.
    pub type_id: Option<u32>,
}

impl Location {
    /// The byte range `start..end` of the file at `uri`.
    pub fn new(uri: String, start: u32, end: u32) -> (r: Self)
        ensures
            r.uri@ == uri@,
            r.start == start,
            r.end == end,
    {
        Location { uri, start, end }
    }
}

// SOURCE GRAPH ROWS
// ================================================================================================

/// Assembly operation metadata keyed by a source/debug MAST occurrence.
#[derive(Debug, Copy, Clone, PartialEq, Eq, Structural)]
pub struct DebugSourceAsmOp {
    /// Operation index local to the reduced execution node.
    pub op_idx: u32,
    /// Source location index in the locations table
    pub location_idx: Option<DebugLocIdx>,
    /// Assembly context name index in the strings table
    pub context_name_idx: DebugStringIdx,
    /// Assembly operation text index in the strings table
    pub op_name_idx: DebugStringIdx,
    /// Number of VM cycles taken by the operation.
    pub num_cycles: u8,
}

/// Where a debug variable's value can be found.
#[derive(Debug, Clone, PartialEq, Eq)]
pub enum DebugVarLocation {
    /// At the given operand stack position (0 = top).
    Stack(u8),
    /// In memory at the given element address.
    Memory(u32),
    /// A constant field element (its canonical value).
    Const(u64),
    /// In local memory at a signed offset from the frame pointer.
    Local(i16),
    /// Described by expression bytes.
    Expression(Vec<u8>),
}

/// The mathematical value of a [`DebugVarLocation`].
pub enum DebugVarLocationView {
    Stack(u8),
    Memory(u32),
    Const(u64),
    Local(i16),
    Expression(Seq<u8>),
}

impl View for DebugVarLocation {
    type V = DebugVarLocationView;

    open spec fn view(&self) -> DebugVarLocationView {
        match self {
            DebugVarLocation::Stack(p) => DebugVarLocationView::Stack(*p),
            DebugVarLocation::Memory(a) => DebugVarLocationView::Memory(*a),
            DebugVarLocation::Const(c) => DebugVarLocationView::Const(*c),
            DebugVarLocation::Local(o) => DebugVarLocationView::Local(*o),
            DebugVarLocation::Expression(e) => DebugVarLocationView::Expression(e@),
        }
    }
}

impl DebugVarLocation {
    /// A copy of this location.
    pub fn duplicate(&self) -> (r: Self)
        ensures
            r@ == self@,
    {
        match self {
            DebugVarLocation::Stack(p) => DebugVarLocation::Stack(*p),
            DebugVarLocation::Memory(a) => DebugVarLocation::Memory(*a),
            DebugVarLocation::Const(c) => DebugVarLocation::Const(*c),
            DebugVarLocation::Local(o) => DebugVarLocation::Local(*o),
            DebugVarLocation::Expression(e) => DebugVarLocation::Expression(e.clone()),
        }
    }
}

/// Debug variable metadata keyed by a source/debug MAST occurrence.
#[derive(Debug, Clone, PartialEq, Eq)]
pub struct DebugSourceVar {
    /// Operation index local to the reduced execution node.
    pub op_idx: u32,
    /// Variable name as it appears in source code.
    pub name_idx: DebugStringIdx,
    /// Type information (encoded as type index in the debug info section).
    pub type_id: Option<u32>,
    /// If this is a function parameter, its 1-based index.
    pub arg_idx: Option<u32>,
    /// Source file location, when it differs from the assembly operation's location.
    pub location_idx: Option<DebugLocIdx>,
    /// Where to find the variable's value at this point
    pub value_location: DebugVarLocation,
}

/// The contents of a [`DebugSourceVar`].
pub struct DebugSourceVarView {
    pub op_idx: u32,
    pub name_idx: DebugStringIdx,
    pub type_id: Option<u32>,
    pub arg_idx: Option<u32>,
    pub location_idx: Option<DebugLocIdx>,
    pub value_location: DebugVarLocationView,
}

impl View for DebugSourceVar {
    type V = DebugSourceVarView;

    open spec fn view(&self) -> DebugSourceVarView {
        DebugSourceVarView {
            op_idx: self.op_idx,
            name_idx: self.name_idx,
            type_id: self.type_id,
            arg_idx: self.arg_idx,
            location_idx: self.location_idx,
            value_location: self.value_location@,
        }
    }
}

impl DebugSourceVar {
    /// A copy of this row.
    pub fn duplicate(&self) -> (r: Self)
        ensures
            r@ == self@,
    {
        DebugSourceVar {
            op_idx: self.op_idx,
            name_idx: self.name_idx,
            type_id: self.type_id,
            arg_idx: self.arg_idx,
            location_idx: self.location_idx,
            value_location: self.value_location.duplicate(),
        }
    }
}

/// The contents of a sequence of debug variable rows.
pub open spec fn var_views(rows: Seq<DebugSourceVar>) -> Seq<DebugSourceVarView> {
    rows.map_values(|v: DebugSourceVar| v@)
}

/// Inline-call metadata keyed by a source/debug MAST occurrence.
#[derive(Debug, Copy, Clone, PartialEq, Eq, Structural)]
pub struct DebugSourceInlineCall {
    /// Operation index local to the reduced execution node.
    pub op_idx: u32,
    /// Inlined callee function index in the debug functions table.
    pub callee_idx: DebugFunctionIdx,
    /// Call-site source location index in the debug locations table.
    pub loc_idx: DebugLocIdx,
}

// DEBUG ERROR MESSAGES
// ================================================================================================

/// Assertion error message keyed by its runtime error code.
#[derive(Debug, Copy, Clone, PartialEq, Eq, Structural)]
pub struct DebugErrorMessage {
    /// Runtime error code emitted by the assembled assertion operation.
    pub err_code: u64,
    /// String table index of the error message content
    pub message: DebugStringIdx,
}

// DEBUG TYPE INFO
// ================================================================================================

/// Type information for debug purposes: the type of a variable or expression, so that debuggers
/// can display values on the stack or in memory.
#[derive(Debug, Clone, PartialEq, Eq, Hash)]
pub enum DebugTypeInfo {
    /// A primitive type (e.g., i32, i64, felt, etc.)
    Primitive(DebugPrimitiveType),
    /// A pointer type pointing to another type
    Pointer {
        /// The type being pointed to (index into type table)
        pointee_type_idx: DebugTypeIdx,
    },
    /// An array type
    Array {
        /// The element type (index into type table)
        element_type_idx: DebugTypeIdx,
        /// Number of elements (None for dynamically-sized arrays)
        count: Option<u32>,
    },
    /// A struct type
    Struct {
        /// Name of the struct (index into string table)
        name_idx: DebugStringIdx,
        /// Size in bytes
        size: u32,
        /// Fields of the struct
        fields: Vec<DebugFieldInfo>,
    },
    /// A function type
    Function {
        /// Return type (index into type table, None for void)
        return_type_idx: Option<DebugTypeIdx>,
        /// Parameter types (indices into type table)
        param_type_indices: Vec<DebugTypeIdx>,
    },
    /// An enum type.
    Enum {
        /// Name of the enum (index into string table).
        name_idx: DebugStringIdx,
        /// Size in bytes.
        size: u32,
        /// Type of the enum discriminant.
        discriminant_type_idx: DebugTypeIdx,
        /// Variants of the enum.
        variants: Vec<DebugVariantInfo>,
    },
    /// An unknown or opaque type
    Unknown,
}

/// The mathematical value of a [`DebugTypeInfo`].
pub enum DebugTypeInfoView {
    Primitive(DebugPrimitiveType),
    Pointer { pointee_type_idx: DebugTypeIdx },
    Array { element_type_idx: DebugTypeIdx, count: Option<u32> },
    Struct { name_idx: DebugStringIdx, size: u32, fields: Seq<DebugFieldInfo> },
    Function { return_type_idx: Option<DebugTypeIdx>, param_type_indices: Seq<DebugTypeIdx> },
    Enum {
        name_idx: DebugStringIdx,
        size: u32,
        discriminant_type_idx: DebugTypeIdx,
        variants: Seq<DebugVariantInfo>,
    },
    Unknown,
}

impl View for DebugTypeInfo {
    type V = DebugTypeInfoView;

    open spec fn view(&self) -> DebugTypeInfoView {
        match self {
            DebugTypeInfo::Primitive(p) => DebugTypeInfoView::Primitive(*p),
            DebugTypeInfo::Pointer { pointee_type_idx } => DebugTypeInfoView::Pointer {
                pointee_type_idx: *pointee_type_idx,
            },
            DebugTypeInfo::Array { element_type_idx, count } => DebugTypeInfoView::Array {
                element_type_idx: *element_type_idx,
                count: *count,
            },
            DebugTypeInfo::Struct { name_idx, size, fields } => DebugTypeInfoView::Struct {
                name_idx: *name_idx,
                size: *size,
                fields: fields@,
            },
            DebugTypeInfo::Function { return_type_idx, param_type_indices } =>
                DebugTypeInfoView::Function {
                return_type_idx: *return_type_idx,
                param_type_indices: param_type_indices@,
            },
            DebugTypeInfo::Enum { name_idx, size, discriminant_type_idx, variants } =>
                DebugTypeInfoView::Enum {
                name_idx: *name_idx,
                size: *size,
                discriminant_type_idx: *discriminant_type_idx,
                variants: variants@,
            },
            DebugTypeInfo::Unknown => DebugTypeInfoView::Unknown,
        }
    }
}

impl DebugTypeInfo {
    /// A copy of this type.
    pub fn duplicate(&self) -> (r: Self)
        ensures
            r@ == self@,
    {
        match self {
            DebugTypeInfo::Primitive(p) => DebugTypeInfo::Primitive(*p),
            DebugTypeInfo::Pointer { pointee_type_idx } => DebugTypeInfo::Pointer {
                pointee_type_idx: *pointee_type_idx,
            },
            DebugTypeInfo::Array { element_type_idx, count } => DebugTypeInfo::Array {
                element_type_idx: *element_type_idx,
                count: *count,
            },
            DebugTypeInfo::Struct { name_idx, size, fields } => {
                let r = DebugTypeInfo::Struct {
                    name_idx: *name_idx,
                    size: *size,
                    fields: fields.clone(),
                };
                assert(r@ == self@);
                r
            },
            DebugTypeInfo::Function { return_type_idx, param_type_indices } => {
                let r = DebugTypeInfo::Function {
                    return_type_idx: *return_type_idx,
                    param_type_indices: param_type_indices.clone(),
                };
                assert(r@ == self@);
                r
            },
            DebugTypeInfo::Enum { name_idx, size, discriminant_type_idx, variants } => {
                let r = DebugTypeInfo::Enum {
                    name_idx: *name_idx,
                    size: *size,
                    discriminant_type_idx: *discriminant_type_idx,
                    variants: variants.clone(),
                };
                assert(r@ == self@);
                r
            },
            DebugTypeInfo::Unknown => DebugTypeInfo::Unknown,
        }
    }
}

/// Primitive type variants supported by the debug info format, numbered in declaration order
/// (their discriminants). New variants must be added at the end to maintain backwards
/// compatibility with previously serialized debug info.
#[derive(Debug, Clone, Copy, PartialEq, Eq, Structural, Hash)]
pub enum DebugPrimitiveType {
    /// Void type (0 bytes)
    Void,
    /// Boolean (1 byte)
    Bool,
    /// Signed 8-bit integer
    I8,
    /// Unsigned 8-bit integer
    U8,
    /// Signed 16-bit integer
    I16,
    /// Unsigned 16-bit integer
    U16,
    /// Signed 32-bit integer
    I32,
    /// Unsigned 32-bit integer
    U32,
    /// Signed 64-bit integer
    I64,
    /// Unsigned 64-bit integer
    U64,
    /// Signed 128-bit integer
    I128,
    /// Unsigned 128-bit integer
    U128,
    /// 32-bit floating point
    F32,
    /// 64-bit floating point
    F64,
    /// Miden field element (64-bit, but with field semantics)
    Felt,
    /// Miden word (4 field elements)
    Word,
    /// Unsigned 256-bit integer
    U256,
}

impl DebugPrimitiveType {
    /// The discriminant byte of this primitive type (its position in declaration order).
    pub open spec fn spec_discriminant(self) -> u8 {
        match self {
            Self::Void => 0,
            Self::Bool => 1,
            Self::I8 => 2,
            Self::U8 => 3,
            Self::I16 => 4,
            Self::U16 => 5,
            Self::I32 => 6,
            Self::U32 => 7,
            Self::I64 => 8,
            Self::U64 => 9,
            Self::I128 => 10,
            Self::U128 => 11,
            Self::F32 => 12,
            Self::F64 => 13,
            Self::Felt => 14,
            Self::Word => 15,
            Self::U256 => 16,
        }
    }

    /// Every primitive type has a discriminant byte of at most 16, and distinct types have
    /// distinct bytes: together with [`Self::from_discriminant`], a type round-trips through its
    /// byte, and every byte up to 16 through its type.
    pub proof fn lemma_discriminant_roundtrip(self, other: Self)
        ensures
            self.spec_discriminant() <= 16,
            self.spec_discriminant() == other.spec_discriminant() ==> self == other,
    {
    }

    /// Returns the discriminant byte of this primitive type.
    pub fn discriminant(self) -> (d: u8)
        ensures
            d == self.spec_discriminant(),
    {
        match self {
            Self::Void => 0,
            Self::Bool => 1,
            Self::I8 => 2,
            Self::U8 => 3,
            Self::I16 => 4,
            Self::U16 => 5,
            Self::I32 => 6,
            Self::U32 => 7,
            Self::I64 => 8,
            Self::U64 => 9,
            Self::I128 => 10,
            Self::U128 => 11,
            Self::F32 => 12,
            Self::F64 => 13,
            Self::Felt => 14,
            Self::Word => 15,
            Self::U256 => 16,
        }
    }

    /// Converts a discriminant byte to a primitive type.
    pub fn from_discriminant(discriminant: u8) -> (r: Option<Self>)
        ensures
            r is Some <==> discriminant <= 16,
            r matches Some(t) ==> t.spec_discriminant() == discriminant,
    {
        match discriminant {
            0 => Some(Self::Void),
            1 => Some(Self::Bool),
            2 => Some(Self::I8),
            3 => Some(Self::U8),
            4 => Some(Self::I16),
            5 => Some(Self::U16),
            6 => Some(Self::I32),
            7 => Some(Self::U32),
            8 => Some(Self::I64),
            9 => Some(Self::U64),
            10 => Some(Self::I128),
            11 => Some(Self::U128),
            12 => Some(Self::F32),
            13 => Some(Self::F64),
            14 => Some(Self::Felt),
            15 => Some(Self::Word),
            16 => Some(Self::U256),
            _ => None,
        }
    }
}

/// Field information within a struct type.
#[derive(Debug, Copy, Clone, PartialEq, Eq, Structural, Hash)]
pub struct DebugFieldInfo {
    /// Name of the field (index into string table)
    pub name_idx: DebugStringIdx,
    /// Type of the field (index into type table)
    pub type_idx: DebugTypeIdx,
    /// Byte offset within the struct
    pub offset: u32,
}

/// Variant information within an enum type.
#[derive(Debug, Copy, Clone, PartialEq, Eq, Structural, Hash)]
pub struct DebugVariantInfo {
    /// Name of the variant (index into string table).
    pub name_idx: DebugStringIdx,
    /// Payload type of this variant (index into type table), if present.
    pub type_idx: Option<DebugTypeIdx>,
    /// Byte offset of the payload from the base of the enum value, if present.
    pub payload_offset: Option<u32>,
    /// Discriminant value for this variant.
    pub discriminant: u128,
}

// DEBUG FILE INFO
// ================================================================================================

/// Source file information: the path and optional metadata for a source file referenced by debug
/// info.
#[derive(Debug, Copy, Clone, PartialEq, Eq)]
pub struct DebugFileInfo {
    /// Full path to the source file (index into string table).
    pub path_idx: DebugStringIdx,
    /// Checksum of the file content, all zeros when absent.
    pub checksum: [u8; 32],
}

/// The all-zero checksum, which stands for "no checksum".
pub open spec fn is_empty_checksum(c: [u8; 32]) -> bool {
    forall|i: int| 0 <= i < 32 ==> c[i] == 0
}

impl DebugFileInfo {
    /// Creates a new file info with a path and no checksum.
    pub fn new(path_idx: DebugStringIdx) -> (r: Self)
        ensures
            r.path_idx == path_idx,
            is_empty_checksum(r.checksum),
    {
        Self { path_idx, checksum: [0u8; 32] }
    }

    /// Sets the checksum.
    pub fn with_checksum(self, checksum: [u8; 32]) -> (r: Self)
        ensures
            r.path_idx == self.path_idx,
            r.checksum == checksum,
    {
        Self { path_idx: self.path_idx, checksum }
    }

    /// The checksum, unless it is the empty (all-zero) one.
    pub fn checksum(&self) -> (r: Option<&[u8; 32]>)
        ensures
            r is None <==> is_empty_checksum(self.checksum),
            r matches Some(c) ==> *c == self.checksum,
    {
        let mut i: usize = 0;
        while i < 32
            invariant
                i <= 32,
                forall|j: int| 0 <= j < i ==> self.checksum[j] == 0,
            decreases 32 - i,
        {
            if self.checksum[i] != 0 {
                return Some(&self.checksum);
            }
            i = i + 1;
        }
        None
    }
}

// DEBUG FUNCTION INFO
// ================================================================================================

/// Debug information for a function: links source-level function information to the compiled
/// MAST representation.
#[derive(Debug, Copy, Clone, PartialEq, Eq)]
pub struct FunctionInfo {
    /// The source occurrence this function is linked to, if known
    pub source_node: Option<DebugSourceNodeId>,
    /// Name of the function (index into string table)
    pub name_idx: DebugStringIdx,
    /// Linkage name / mangled name (index into string table, optional)
    pub linkage_name_idx: Option<DebugStringIdx>,
    /// File containing this function (index into file table)
    pub file_idx: DebugFileIdx,
    /// Line number where the function starts (1-indexed)
    pub line: u32,
    /// Column number where the function starts (1-indexed)
    pub column: u32,
    /// Type of this function (index into type table, optional)
    pub type_idx: Option<DebugTypeIdx>,
    /// MAST root digest of this function (the canonical values of its four elements).
    pub mast_root: [u64; 4],
}

/// Debug information for a function of a package.
pub type DebugFunctionInfo = FunctionInfo;

impl FunctionInfo {
    /// Creates a new function info, without linkage name or type.
    pub fn new(
        source_node: Option<DebugSourceNodeId>,
        name_idx: DebugStringIdx,
        file_idx: DebugFileIdx,
        line: u32,
        column: u32,
        mast_root: [u64; 4],
    ) -> (r: Self)
        ensures
            r == (FunctionInfo {
                source_node,
                name_idx,
                linkage_name_idx: None,
                file_idx,
                line,
                column,
                type_idx: None,
                mast_root,
            }),
    {
        Self {
            source_node,
            name_idx,
            linkage_name_idx: None,
            file_idx,
            line,
            column,
            type_idx: None,
            mast_root,
        }
    }

    /// Sets the linkage name.
    pub fn with_linkage_name(self, linkage_name_idx: DebugStringIdx) -> (r: Self)
        ensures
            r == (FunctionInfo { linkage_name_idx: Some(linkage_name_idx), ..self }),
    {
        FunctionInfo { linkage_name_idx: Some(linkage_name_idx), ..self }
    }

    /// Sets the type index.
    pub fn with_type(self, type_idx: DebugTypeIdx) -> (r: Self)
        ensures
            r == (FunctionInfo { type_idx: Some(type_idx), ..self }),
    {
        FunctionInfo { type_idx: Some(type_idx), ..self }
    }
}

// DEBUG SOURCE GRAPH
// ================================================================================================

/// A source/debug occurrence for code that produced an executable MAST node.
///
/// More than one source node may point at the same `exec_node`: two source procedures can compile
/// to the same MAST root while still carrying different source spans, assembly-op rows, or
/// debug-variable rows. The [`DebugSourceNodeId`] is the identity of the source occurrence;
/// `exec_node` only finds the executable node it describes.
#[derive(Debug, Clone, PartialEq, Eq)]
pub struct SourceNode {
    /// The executable MAST node represented by this source occurrence.
    pub exec_node: MastNodeId,
    /// Child source occurrences, in the same order as the executable node's children.
    pub children: Vec<DebugSourceNodeId>,
    /// Inclusive start operation index in the executable node.
    pub op_start: u32,
    /// Exclusive end operation index in the executable node.
    pub op_end: u32,
    /// Operation metadata for operations attached to this node
    pub asm_ops: Vec<DebugSourceAsmOp>,
    /// Debug variable metadata for operations attached to this node
    pub debug_vars: Vec<DebugSourceVar>,
    /// Inline-call metadata for operations attached to this node
    pub inline_calls: Vec<DebugSourceInlineCall>,
}

/// A source/debug occurrence of a package's debug info.
pub type DebugSourceNode = SourceNode;

/// The contents of a [`SourceNode`].
pub struct SourceNodeView {
    pub exec_node: MastNodeId,
    pub children: Seq<DebugSourceNodeId>,
    pub op_start: u32,
    pub op_end: u32,
    pub asm_ops: Seq<DebugSourceAsmOp>,
    pub debug_vars: Seq<DebugSourceVarView>,
    pub inline_calls: Seq<DebugSourceInlineCall>,
}

impl View for SourceNode {
    type V = SourceNodeView;

    open spec fn view(&self) -> SourceNodeView {
        SourceNodeView {
            exec_node: self.exec_node,
            children: self.children@,
            op_start: self.op_start,
            op_end: self.op_end,
            asm_ops: self.asm_ops@,
            debug_vars: var_views(self.debug_vars@),
            inline_calls: self.inline_calls@,
        }
    }
}

/// Row `i` is the one an "at or before `op_idx`" lookup selects: among the rows at or before
/// `op_idx`, one with the greatest operation index, and the last such row.
pub open spec fn is_row_at_or_before(rows: Seq<DebugSourceAsmOp>, op_idx: u32, i: int) -> bool {
    &&& 0 <= i < rows.len()
    &&& rows[i].op_idx <= op_idx
    &&& forall|j: int| 0 <= j < rows.len() && rows[j].op_idx <= op_idx ==> rows[j].op_idx <= rows[i].op_idx
    &&& forall|j: int| i < j < rows.len() ==> rows[j].op_idx != rows[i].op_idx
}

/// Row `i` is the first row with the smallest operation index.
pub open spec fn is_first_row(rows: Seq<DebugSourceAsmOp>, i: int) -> bool {
    &&& 0 <= i < rows.len()
    &&& forall|j: int| 0 <= j < rows.len() ==> rows[i].op_idx <= rows[j].op_idx
    &&& forall|j: int| 0 <= j < i ==> rows[j].op_idx != rows[i].op_idx
}

/// The debug variable rows at operation `op_idx`, in row order.
pub open spec fn vars_at(rows: Seq<DebugSourceVarView>, op_idx: u32) -> Seq<DebugSourceVarView> {
    rows.filter(|r: DebugSourceVarView| r.op_idx == op_idx)
}

/// The inline-call rows at operation `op_idx`, in row order.
pub open spec fn inline_calls_at(rows: Seq<DebugSourceInlineCall>, op_idx: u32) -> Seq<DebugSourceInlineCall> {
    rows.filter(|r: DebugSourceInlineCall| r.op_idx == op_idx)
}

proof fn lemma_vars_at_last(rows: Seq<DebugSourceVarView>, op_idx: u32)
    requires
        rows.len() > 0,
    ensures
        vars_at(rows, op_idx) == (if rows.last().op_idx == op_idx {
            vars_at(rows.drop_last(), op_idx).push(rows.last())
        } else {
            vars_at(rows.drop_last(), op_idx)
        }),
{
    reveal_with_fuel(Seq::filter, 1);
}

proof fn lemma_inline_calls_at_last(rows: Seq<DebugSourceInlineCall>, op_idx: u32)
    requires
        rows.len() > 0,
    ensures
        inline_calls_at(rows, op_idx) == (if rows.last().op_idx == op_idx {
            inline_calls_at(rows.drop_last(), op_idx).push(rows.last())
        } else {
            inline_calls_at(rows.drop_last(), op_idx)
        }),
{
    reveal_with_fuel(Seq::filter, 1);
}

/// The rows a vector of references points at.
pub open spec fn derefs<T>(refs: Seq<&T>) -> Seq<T> {
    refs.map_values(|r: &T| *r)
}

/// The contents of the debug variable rows a vector of references points at.
pub open spec fn var_ref_views(refs: Seq<&DebugSourceVar>) -> Seq<DebugSourceVarView> {
    refs.map_values(|r: &DebugSourceVar| r@)
}

/// The assembly-operation row at or before `op_idx` (see [`is_row_at_or_before`]), if any.
pub fn asm_op_at_or_before(rows: &Vec<DebugSourceAsmOp>, op_idx: u32) -> (r: Option<&DebugSourceAsmOp>)
    ensures
        r is None <==> forall|j: int| 0 <= j < rows.len() ==> rows[j].op_idx > op_idx,
        r matches Some(row) ==> exists|i: int| is_row_at_or_before(rows@, op_idx, i) && *row == rows[i],
{
    let mut best: Option<usize> = None;
    let mut i: usize = 0;
    while i < rows.len()
        invariant
            i <= rows.len(),
            best is None <==> forall|j: int| 0 <= j < i ==> rows[j].op_idx > op_idx,
            best matches Some(b) ==> {
                &&& b < i
                &&& rows[b as int].op_idx <= op_idx
                &&& forall|j: int| 0 <= j < i && rows[j].op_idx <= op_idx ==> rows[j].op_idx
                    <= rows[b as int].op_idx
                &&& forall|j: int| b < j < i ==> rows[j].op_idx != rows[b as int].op_idx
            },
        decreases rows.len() - i,
    {
        if rows[i].op_idx <= op_idx {
            match best {
                None => {
                    best = Some(i);
                },
                Some(b) => {
                    if rows[b].op_idx <= rows[i].op_idx {
                        best = Some(i);
                    }
                },
            }
        }
        i = i + 1;
    }
    match best {
        None => None,
        Some(b) => Some(&rows[b]),
    }
}

/// The first assembly-operation row with the smallest operation index (see [`is_first_row`]), if
/// any.
pub fn first_asm_op(rows: &Vec<DebugSourceAsmOp>) -> (r: Option<&DebugSourceAsmOp>)
    ensures
        r is None <==> rows.len() == 0,
        r matches Some(row) ==> exists|i: int| is_first_row(rows@, i) && *row == rows[i],
{
    if rows.len() == 0 {
        return None;
    }
    let mut b: usize = 0;
    let mut i: usize = 1;
    while i < rows.len()
        invariant
            1 <= i <= rows.len(),
            b < i,
            forall|j: int| 0 <= j < i ==> rows[b as int].op_idx <= rows[j].op_idx,
            forall|j: int| 0 <= j < b ==> rows[j].op_idx != rows[b as int].op_idx,
        decreases rows.len() - i,
    {
        if rows[i].op_idx < rows[b].op_idx {
            b = i;
        }
        i = i + 1;
    }
    Some(&rows[b])
}

/// The debug variable rows at operation `op_idx`, in row order.
pub fn debug_vars_at(rows: &Vec<DebugSourceVar>, op_idx: u32) -> (r: Vec<&DebugSourceVar>)
    ensures
        var_ref_views(r@) == vars_at(var_views(rows@), op_idx),
{
    let mut out: Vec<&DebugSourceVar> = Vec::new();
    let mut i: usize = 0;
    while i < rows.len()
        invariant
            i <= rows.len(),
            var_ref_views(out@) == vars_at(var_views(rows@.take(i as int)), op_idx),
        decreases rows.len() - i,
    {
        let ghost prev = out@;
        assert(var_views(rows@.take(i + 1)).drop_last() =~= var_views(rows@.take(i as int)));
        assert(var_views(rows@.take(i + 1)).last() == rows[i as int]@);
        if rows[i].op_idx == op_idx {
            out.push(&rows[i]);
            assert(var_ref_views(out@) =~= var_ref_views(prev).push(rows[i as int]@));
        }
        proof {
            lemma_vars_at_last(var_views(rows@.take(i + 1)), op_idx);
        }
        assert(var_ref_views(out@) =~= vars_at(var_views(rows@.take(i + 1)), op_idx));
        i = i + 1;
    }
    assert(rows@.take(rows.len() as int) =~= rows@);
    out
}

/// The inline-call rows at operation `op_idx`, in row order.
pub fn inline_calls_at_op(rows: &Vec<DebugSourceInlineCall>, op_idx: u32) -> (r: Vec<&DebugSourceInlineCall>)
    ensures
        derefs(r@) == inline_calls_at(rows@, op_idx),
{
    let mut out: Vec<&DebugSourceInlineCall> = Vec::new();
    let mut i: usize = 0;
    while i < rows.len()
        invariant
            i <= rows.len(),
            derefs(out@) == inline_calls_at(rows@.take(i as int), op_idx),
        decreases rows.len() - i,
    {
        let ghost prev = out@;
        assert(rows@.take(i + 1).drop_last() =~= rows@.take(i as int));
        assert(rows@.take(i + 1).last() == rows[i as int]);
        if rows[i].op_idx == op_idx {
            out.push(&rows[i]);
            assert(derefs(out@) =~= derefs(prev).push(rows[i as int]));
        }
        proof {
            lemma_inline_calls_at_last(rows@.take(i + 1), op_idx);
        }
        assert(derefs(out@) =~= inline_calls_at(rows@.take(i + 1), op_idx));
        i = i + 1;
    }
    assert(rows@.take(rows.len() as int) =~= rows@);
    out
}

impl SourceNode {
    /// The assembly-operation row at or before `op_idx`: among the rows at or before it, the last
    /// one with the greatest operation index.
    pub fn asm_op_for_operation(&self, op_idx: u32) -> (r: Option<&DebugSourceAsmOp>)
        ensures
            r is None <==> forall|j: int| 0 <= j < self.asm_ops.len() ==> self.asm_ops[j].op_idx
                > op_idx,
            r matches Some(row) ==> exists|i: int| is_row_at_or_before(self.asm_ops@, op_idx, i)
                && *row == self.asm_ops[i],
    {
        asm_op_at_or_before(&self.asm_ops, op_idx)
    }

    /// The debug variable rows at operation `op_idx`, in row order.
    pub fn debug_vars_for_operation(&self, op_idx: u32) -> (r: Vec<&DebugSourceVar>)
        ensures
            var_ref_views(r@) == vars_at(self@.debug_vars, op_idx),
    {
        debug_vars_at(&self.debug_vars, op_idx)
    }

    /// A copy of this node.
    pub fn duplicate(&self) -> (r: Self)
        ensures
            r@ == self@,
    {
        let mut vars: Vec<DebugSourceVar> = Vec::new();
        let mut i: usize = 0;
        while i < self.debug_vars.len()
            invariant
                i <= self.debug_vars.len(),
                vars@.len() == i,
                forall|j: int| 0 <= j < i ==> vars@[j]@ == self.debug_vars@[j]@,
            decreases self.debug_vars.len() - i,
        {
            vars.push(self.debug_vars[i].duplicate());
            i = i + 1;
        }
        assert(var_views(vars@) =~= var_views(self.debug_vars@));
        let r = SourceNode {
            exec_node: self.exec_node,
            children: self.children.clone(),
            op_start: self.op_start,
            op_end: self.op_end,
            asm_ops: self.asm_ops.clone(),
            debug_vars: vars,
            inline_calls: self.inline_calls.clone(),
        };
        assert(r@.children =~= self@.children);
        assert(r@.asm_ops =~= self@.asm_ops);
        assert(r@.inline_calls =~= self@.inline_calls);
        r
    }
}

} // verus!

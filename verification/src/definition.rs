//! Macro definitions: ordered segment lists plus a body builder.

use vstd::prelude::*;

use crate::pattern::Pattern;
use crate::pattern::SpecPattern;
use crate::pattern::pattern_vw;

verus! {

broadcast use vstd::seq::axiom_seq_index_decreases, vstd::std_specs::vec::axiom_vec_decreases_to_view;

/// One segment of a macro definition: the literal header text opening the
/// segment and the pattern its body must have.
#[derive(Debug)]
pub struct SegmentDefinition {
    pub header: String,
    pub pattern: Pattern,
}

/// Mathematical image of a [`SegmentDefinition`].
pub struct SpecSegmentDefinition {
    pub header: Seq<char>,
    pub pattern: SpecPattern,
}

impl View for SegmentDefinition {
    type V = SpecSegmentDefinition;

    open spec fn view(&self) -> SpecSegmentDefinition {
        SpecSegmentDefinition { header: self.header@, pattern: pattern_vw(self.pattern) }
    }
}

impl SegmentDefinition {
    /// Constructor.
    pub fn new(header: &str, pattern: Pattern) -> (r: SegmentDefinition)
        ensures
            r@ == (SpecSegmentDefinition { header: header@, pattern: pattern@ }),
    {
        SegmentDefinition { header: header.to_owned(), pattern }
    }
}

/// Which body builder turns a definition's matched segments into a tree.
/// Builders are drawn from a fixed catalogue; this stands in for the
/// arbitrary code a builder could otherwise run, keeping definitions plain
/// data.
#[derive(Clone, Copy, Debug, PartialEq, Eq, Structural)]
pub enum BodyBuilder {
    /// Forwards the whole segment to operator resolution; used by the
    /// synthetic root macro alone.
    Root,
    /// The general shape: one segment per header, each body resolved.
    MultiSegmentApp,
    /// Classifies segments by header text into import slots.
    Import,
    /// Classifies segments by header text into export slots.
    Export,
    /// A parenthesized group.
    Group,
    /// A type definition with constructor and body lines.
    TypeDef,
    /// A lambda.
    Lambda,
    /// A case expression.
    Case,
    /// An array literal.
    Array,
    /// A tuple literal.
    Tuple,
}

/// A macro definition: a non-empty ordered list of segment definitions, and
/// the builder for its body.  The first segment's header is the registration
/// key.
#[derive(Debug)]
pub struct Definition {
    pub segments: Vec<SegmentDefinition>,
    pub body: BodyBuilder,
}

/// Mathematical image of a [`Definition`].
pub struct SpecDefinition {
    pub segments: Seq<SpecSegmentDefinition>,
    pub body: BodyBuilder,
}

impl SpecDefinition {
    /// Definitions hold at least one segment.
    pub open spec fn wf(self) -> bool {
        self.segments.len() > 0
    }
}

pub open spec fn segment_defs_vw(s: Seq<SegmentDefinition>) -> Seq<SpecSegmentDefinition> {
    Seq::new(s.len(), |j: int| if 0 <= j < s.len() { s[j]@ } else { arbitrary() })
}

impl View for Definition {
    type V = SpecDefinition;

    open spec fn view(&self) -> SpecDefinition {
        SpecDefinition { segments: segment_defs_vw(self.segments@), body: self.body }
    }
}

impl Definition {
    /// Constructor.
    pub fn new(segments: Vec<SegmentDefinition>, body: BodyBuilder) -> (r: Definition)
        ensures
            r@ == (SpecDefinition { segments: segment_defs_vw(segments@), body }),
    {
        Definition { segments, body }
    }
}

/// Which definition a partial match refers to: the synthetic root definition
/// (one segment, everything, built by [`BodyBuilder::Root`]), or a registered
/// definition by its index in the registry's arena.  Definitions are shared
/// by index; they are never copied into derived state.
#[derive(Clone, Copy, Debug, PartialEq, Eq, Structural)]
pub enum DefinitionId {
    Root,
    Registered(usize),
}

/// The header text of the synthetic root definition's only segment.  It does
/// not occur in source code.
pub open spec fn spec_root_header() -> Seq<char> {
    "__ROOT__"@
}

/// The segment patterns of a definition: the root consumes everything in one
/// segment; a registered definition is looked up in the arena.
pub open spec fn spec_def_segments(id: DefinitionId, defs: Seq<SpecDefinition>) -> Seq<
    SpecSegmentDefinition,
> {
    match id {
        DefinitionId::Root => seq![
            SpecSegmentDefinition { header: spec_root_header(), pattern: SpecPattern::Everything },
        ],
        DefinitionId::Registered(i) => if i < defs.len() {
            defs[i as int].segments
        } else {
            Seq::empty()
        },
    }
}

/// The body builder of a definition.
pub open spec fn spec_def_builder(id: DefinitionId, defs: Seq<SpecDefinition>) -> BodyBuilder {
    match id {
        DefinitionId::Root => BodyBuilder::Root,
        DefinitionId::Registered(i) => if i < defs.len() {
            defs[i as int].body
        } else {
            BodyBuilder::MultiSegmentApp
        },
    }
}

} // verus!

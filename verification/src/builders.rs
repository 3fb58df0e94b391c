//! Body builders: from a definition's matched segments to one tree.
//!
//! A fully matched macro instance hands each builder its segments in
//! definition order, each one a header token plus the pattern match over the
//! segment's body.  Builders are total: segments that do not fit the
//! builder's expected shape yield an error-carrying tree instead of failing.

use vstd::prelude::*;

use crate::definition::BodyBuilder;
use crate::operator::block_lines_flat;
use crate::operator::otree_vw;
use crate::operator::resolve_operator_precedence_if_non_empty;
use crate::operator::spec_block_lines_flat;
use crate::operator::spec_box_opt;
use crate::operator::spec_opr_resolve;
use crate::pattern::Capture;
use crate::pattern::Match;
use crate::pattern::SpecCapture;
use crate::pattern::SpecMatch;
use crate::pattern::captures_vw;
use crate::pattern::match_vw;
use crate::pattern::spec_match_captures;
use crate::pattern::spec_match_items;
use crate::syntax::BlockLine;
use crate::syntax::Item;
use crate::syntax::MultiSegmentAppSegment;
use crate::syntax::SpecMultiSegmentAppSegment;
use crate::syntax::SpecItem;
use crate::syntax::SpecOperatorDelimitedTree;
use crate::syntax::SpecTree;
use crate::syntax::SpecTreeVariant;
use crate::syntax::Tree;
use crate::syntax::TreeVariant;
use crate::syntax::SpecBlockLine;
use crate::syntax::SpecTypeConstructorDef;
use crate::syntax::SpecTypeConstructorLine;
use crate::syntax::items_vw;
use crate::syntax::msegs_vw;
use crate::syntax::opr_delims_vw;
use crate::syntax::tree_vw;
use crate::token::SpecToken;
use crate::token::Token;
use crate::token::Variant;
use crate::util::reverse_vec;
use crate::util::str_eq;

verus! {

broadcast use vstd::seq::axiom_seq_index_decreases, vstd::seq::axiom_seq_subrange_decreases, vstd::std_specs::vec::axiom_vec_decreases_to_view;

/// One segment of a fully matched macro instance, as handed to a body
/// builder: the header token and the pattern match over the segment's body.
#[derive(Debug)]
pub struct ResolvedSegment {
    pub header: Token,
    pub result: Match,
}

/// Mathematical image of a [`ResolvedSegment`].
pub struct SpecResolvedSegment {
    pub header: SpecToken,
    pub result: SpecMatch,
}

impl View for ResolvedSegment {
    type V = SpecResolvedSegment;

    open spec fn view(&self) -> SpecResolvedSegment {
        SpecResolvedSegment { header: self.header@, result: match_vw(self.result) }
    }
}

pub open spec fn rsegs_vw(s: Seq<ResolvedSegment>) -> Seq<SpecResolvedSegment> {
    Seq::new(s.len(), |j: int| if 0 <= j < s.len() { s[j]@ } else { arbitrary() })
}

/// The same token as a symbol, as group delimiters are stored.
pub open spec fn spec_symbolize(t: SpecToken) -> SpecToken {
    SpecToken { left_offset: t.left_offset, code: t.code, variant: Variant::Symbol }
}

/// The same token as an identifier.
pub open spec fn spec_identize(t: SpecToken) -> SpecToken {
    SpecToken { left_offset: t.left_offset, code: t.code, variant: Variant::Ident }
}

/// The same token as a plain (non-sequence) operator.
pub open spec fn spec_operatorize(t: SpecToken) -> SpecToken {
    SpecToken {
        left_offset: t.left_offset,
        code: t.code,
        variant: Variant::Operator { is_sequence: false },
    }
}

/// A segment's body expression: its matched items under operator resolution.
pub open spec fn spec_seg_body(seg: SpecResolvedSegment) -> Option<SpecTree> {
    spec_opr_resolve(spec_match_items(seg.result))
}

/// A matched segment as a generic multi-segment-application segment.
pub open spec fn spec_mseg_of(seg: SpecResolvedSegment) -> SpecMultiSegmentAppSegment {
    SpecMultiSegmentAppSegment { header: seg.header, body: spec_box_opt(spec_seg_body(seg)) }
}

pub open spec fn spec_msegs_of(segs: Seq<SpecResolvedSegment>) -> Seq<
    SpecMultiSegmentAppSegment,
>
    decreases segs.len(),
{
    if segs.len() == 0 {
        Seq::empty()
    } else {
        seq![spec_mseg_of(segs[0])] + spec_msegs_of(segs.subrange(1, segs.len() as int))
    }
}

/// The generic multi-segment shape: one segment per header, bodies resolved.
pub open spec fn spec_multi_segment_tree(segs: Seq<SpecResolvedSegment>) -> SpecTree {
    SpecTree {
        variant: SpecTreeVariant::MultiSegmentApp { segments: spec_msegs_of(segs) },
        error: None,
    }
}

/// The tree a builder emits when its segments do not fit its expected shape.
/// This marks a defect in a registered definition, never user input.
pub open spec fn spec_mismatch_tree(segs: Seq<SpecResolvedSegment>) -> SpecTree {
    SpecTree {
        variant: SpecTreeVariant::MultiSegmentApp { segments: spec_msegs_of(segs) },
        error: Some("Internal error: definition and matched segments do not agree."@),
    }
}

/// The root builder's tree: the single segment's body under operator
/// resolution; an empty body yields an empty unmatched node.
pub open spec fn spec_root_tree(segs: Seq<SpecResolvedSegment>) -> SpecTree {
    if segs.len() > 0 {
        match spec_seg_body(segs[0]) {
            Some(t) => t,
            None => SpecTree {
                variant: SpecTreeVariant::Unmatched { segments: Seq::empty() },
                error: None,
            },
        }
    } else {
        SpecTree {
            variant: SpecTreeVariant::Unmatched { segments: Seq::empty() },
            error: None,
        }
    }
}

/// The group builder's tree: delimiters from the two headers, body from the
/// opening segment.
pub open spec fn spec_group_tree(segs: Seq<SpecResolvedSegment>) -> SpecTree {
    if segs.len() == 2 {
        SpecTree {
            variant: SpecTreeVariant::Group {
                open: spec_symbolize(segs[0].header),
                body: spec_box_opt(spec_seg_body(segs[0])),
                close: spec_symbolize(segs[1].header),
            },
            error: None,
        }
    } else {
        spec_mismatch_tree(segs)
    }
}

/// The lambda builder's tree: the backslash header as an operator, the
/// segment body as the lambda's expression.
pub open spec fn spec_lambda_tree(segs: Seq<SpecResolvedSegment>) -> SpecTree {
    if segs.len() == 1 {
        SpecTree {
            variant: SpecTreeVariant::Lambda {
                operator: spec_operatorize(segs[0].header),
                arrow: spec_box_opt(spec_seg_body(segs[0])),
            },
            error: None,
        }
    } else {
        spec_mismatch_tree(segs)
    }
}

/// The case builder's tree.  A body that resolved to an argument-block
/// application contributes its left-hand side as the optional default arm and
/// its lines as the case lines; any other body becomes the default arm alone.
pub open spec fn spec_case_tree(segs: Seq<SpecResolvedSegment>) -> SpecTree {
    if segs.len() == 2 {
        let body = spec_seg_body(segs[1]);
        let parts = match body {
            None => (None, Seq::empty()),
            Some(t) => match t.variant {
                SpecTreeVariant::ArgumentBlockApplication { lhs, arguments } => (
                lhs,
                arguments,
                ),
                _ => (Some(Box::new(t)), Seq::empty()),
            },
        };
        SpecTree {
            variant: SpecTreeVariant::CaseOf {
                case: spec_identize(segs[0].header),
                expression: spec_box_opt(spec_seg_body(segs[0])),
                of: spec_identize(segs[1].header),
                initial: parts.0,
                lines: parts.1,
            },
            error: None,
        }
    } else {
        spec_mismatch_tree(segs)
    }
}

/// Unboxes an optional tree.
pub open spec fn spec_unbox_opt(o: Option<Box<SpecTree>>) -> Option<SpecTree> {
    match o {
        Some(t) => Some(*t),
        None => None,
    }
}

/// Walks the left spine of sequence-operator applications, splitting
/// `E1 , E2 , E3` into a first element and (operator, element) pairs in
/// source order.
pub open spec fn spec_seq_spine(t: Option<SpecTree>, acc: Seq<SpecOperatorDelimitedTree>) -> (
    Option<SpecTree>,
    Seq<SpecOperatorDelimitedTree>,
)
    decreases t,
{
    match t {
        None => (None, acc),
        Some(tree) => match tree.variant {
            SpecTreeVariant::OprApp { lhs, opr, rhs } => {
                if (opr.variant matches Variant::Operator { is_sequence: true })
                    && rhs is Some {
                    let body = match rhs {
                        Some(b) => b,
                        None => arbitrary(),
                    };
                    spec_seq_spine(
                        spec_unbox_opt(lhs),
                        seq![SpecOperatorDelimitedTree { operator: opr, body }] + acc,
                    )
                } else {
                    (Some(tree), acc)
                }
            },
            _ => (Some(tree), acc),
        },
    }
}

/// The array and tuple builders' shared shape: delimiters from the two
/// headers, the opening segment's body split at sequence operators.
pub open spec fn spec_grouped_sequence(segs: Seq<SpecResolvedSegment>) -> (
    SpecToken,
    Option<Box<SpecTree>>,
    Seq<SpecOperatorDelimitedTree>,
    SpecToken,
) {
    let parts = spec_seq_spine(spec_seg_body(segs[0]), Seq::empty());
    (
        spec_symbolize(segs[0].header),
        spec_box_opt(parts.0),
        parts.1,
        spec_symbolize(segs[1].header),
    )
}

/// The array builder's tree.
pub open spec fn spec_array_tree(segs: Seq<SpecResolvedSegment>) -> SpecTree {
    if segs.len() == 2 {
        let parts = spec_grouped_sequence(segs);
        SpecTree {
            variant: SpecTreeVariant::Array {
                left: parts.0,
                first: parts.1,
                rest: parts.2,
                right: parts.3,
            },
            error: None,
        }
    } else {
        spec_mismatch_tree(segs)
    }
}

/// The tuple builder's tree.
pub open spec fn spec_tuple_tree(segs: Seq<SpecResolvedSegment>) -> SpecTree {
    if segs.len() == 2 {
        let parts = spec_grouped_sequence(segs);
        SpecTree {
            variant: SpecTreeVariant::Tuple {
                left: parts.0,
                first: parts.1,
                rest: parts.2,
                right: parts.3,
            },
            error: None,
        }
    } else {
        spec_mismatch_tree(segs)
    }
}

/// The slots an import's segments are classified into, by header text.
pub struct SpecImportSlots {
    pub polyglot: Option<SpecMultiSegmentAppSegment>,
    pub from: Option<SpecMultiSegmentAppSegment>,
    pub from_as: Option<SpecMultiSegmentAppSegment>,
    pub import: Option<SpecMultiSegmentAppSegment>,
    pub import_as: Option<SpecMultiSegmentAppSegment>,
    pub hiding: Option<SpecMultiSegmentAppSegment>,
}

pub open spec fn spec_empty_import_slots() -> SpecImportSlots {
    SpecImportSlots {
        polyglot: None,
        from: None,
        from_as: None,
        import: None,
        import_as: None,
        hiding: None,
    }
}

/// Files one segment into its slot.  An `as` before the import keyword is the
/// source alias; any later `as` aliases the imported name.
pub open spec fn spec_import_step(
    slots: SpecImportSlots,
    m: SpecMultiSegmentAppSegment,
) -> SpecImportSlots {
    let c = m.header.code;
    if c == "polyglot"@ {
        SpecImportSlots {
            polyglot: Some(m),
            from: slots.from,
            from_as: slots.from_as,
            import: slots.import,
            import_as: slots.import_as,
            hiding: slots.hiding,
        }
    } else if c == "from"@ {
        SpecImportSlots {
            polyglot: slots.polyglot,
            from: Some(m),
            from_as: slots.from_as,
            import: slots.import,
            import_as: slots.import_as,
            hiding: slots.hiding,
        }
    } else if c == "as"@ && slots.import is None {
        SpecImportSlots {
            polyglot: slots.polyglot,
            from: slots.from,
            from_as: Some(m),
            import: slots.import,
            import_as: slots.import_as,
            hiding: slots.hiding,
        }
    } else if c == "import"@ {
        SpecImportSlots {
            polyglot: slots.polyglot,
            from: slots.from,
            from_as: slots.from_as,
            import: Some(m),
            import_as: slots.import_as,
            hiding: slots.hiding,
        }
    } else if c == "as"@ {
        SpecImportSlots {
            polyglot: slots.polyglot,
            from: slots.from,
            from_as: slots.from_as,
            import: slots.import,
            import_as: Some(m),
            hiding: slots.hiding,
        }
    } else if c == "hiding"@ {
        SpecImportSlots {
            polyglot: slots.polyglot,
            from: slots.from,
            from_as: slots.from_as,
            import: slots.import,
            import_as: slots.import_as,
            hiding: Some(m),
        }
    } else {
        slots
    }
}

pub open spec fn spec_import_fold(
    slots: SpecImportSlots,
    msegs: Seq<SpecMultiSegmentAppSegment>,
) -> SpecImportSlots
    decreases msegs.len(),
{
    if msegs.len() == 0 {
        slots
    } else {
        spec_import_fold(
            spec_import_step(slots, msegs[0]),
            msegs.subrange(1, msegs.len() as int),
        )
    }
}

/// The import builder's tree: segments classified into slots.  Registered
/// import definitions always hold an import segment; should the slot still be
/// empty the builder yields an empty node marked as an internal error.
pub open spec fn spec_import_tree(segs: Seq<SpecResolvedSegment>) -> SpecTree {
    let msegs = spec_msegs_of(segs);
    let slots = spec_import_fold(spec_empty_import_slots(), msegs);
    match slots.import {
        Some(i) => SpecTree {
            variant: SpecTreeVariant::Import {
                polyglot: slots.polyglot,
                from: slots.from,
                from_as: slots.from_as,
                import: i,
                import_as: slots.import_as,
                hiding: slots.hiding,
            },
            error: None,
        },
        None => SpecTree {
            variant: SpecTreeVariant::MultiSegmentApp { segments: Seq::empty() },
            error: Some("Internal error: an import macro has no import segment."@),
        },
    }
}

/// The slots an export's segments are classified into.
pub struct SpecExportSlots {
    pub from: Option<SpecMultiSegmentAppSegment>,
    pub from_as: Option<SpecMultiSegmentAppSegment>,
    pub export: Option<SpecMultiSegmentAppSegment>,
    pub export_as: Option<SpecMultiSegmentAppSegment>,
    pub hiding: Option<SpecMultiSegmentAppSegment>,
}

pub open spec fn spec_empty_export_slots() -> SpecExportSlots {
    SpecExportSlots { from: None, from_as: None, export: None, export_as: None, hiding: None }
}

/// Files one segment into its slot, as the import step does.
pub open spec fn spec_export_step(
    slots: SpecExportSlots,
    m: SpecMultiSegmentAppSegment,
) -> SpecExportSlots {
    let c = m.header.code;
    if c == "from"@ {
        SpecExportSlots {
            from: Some(m),
            from_as: slots.from_as,
            export: slots.export,
            export_as: slots.export_as,
            hiding: slots.hiding,
        }
    } else if c == "as"@ && slots.export is None {
        SpecExportSlots {
            from: slots.from,
            from_as: Some(m),
            export: slots.export,
            export_as: slots.export_as,
            hiding: slots.hiding,
        }
    } else if c == "export"@ {
        SpecExportSlots {
            from: slots.from,
            from_as: slots.from_as,
            export: Some(m),
            export_as: slots.export_as,
            hiding: slots.hiding,
        }
    } else if c == "as"@ {
        SpecExportSlots {
            from: slots.from,
            from_as: slots.from_as,
            export: slots.export,
            export_as: Some(m),
            hiding: slots.hiding,
        }
    } else if c == "hiding"@ {
        SpecExportSlots {
            from: slots.from,
            from_as: slots.from_as,
            export: slots.export,
            export_as: slots.export_as,
            hiding: Some(m),
        }
    } else {
        slots
    }
}

pub open spec fn spec_export_fold(
    slots: SpecExportSlots,
    msegs: Seq<SpecMultiSegmentAppSegment>,
) -> SpecExportSlots
    decreases msegs.len(),
{
    if msegs.len() == 0 {
        slots
    } else {
        spec_export_fold(
            spec_export_step(slots, msegs[0]),
            msegs.subrange(1, msegs.len() as int),
        )
    }
}

/// The export builder's tree.
pub open spec fn spec_export_tree(segs: Seq<SpecResolvedSegment>) -> SpecTree {
    let msegs = spec_msegs_of(segs);
    let slots = spec_export_fold(spec_empty_export_slots(), msegs);
    match slots.export {
        Some(e) => SpecTree {
            variant: SpecTreeVariant::Export {
                from: slots.from,
                from_as: slots.from_as,
                export: e,
                export_as: slots.export_as,
                hiding: slots.hiding,
            },
            error: None,
        },
        None => SpecTree {
            variant: SpecTreeVariant::MultiSegmentApp { segments: Seq::empty() },
            error: Some("Internal error: an export macro has no export segment."@),
        },
    }
}

/// The type-definition builder's reading of the captures: the first capture
/// named `name`, every capture named `param` in order, and the first capture
/// named `statements`.
pub struct SpecTypeCaptures {
    pub name: Option<Seq<SpecItem>>,
    pub params: Seq<Seq<SpecItem>>,
    pub statements: Option<Seq<SpecItem>>,
}

pub open spec fn spec_empty_type_captures() -> SpecTypeCaptures {
    SpecTypeCaptures { name: None, params: Seq::empty(), statements: None }
}

/// Files one capture by name.
pub open spec fn spec_type_captures_step(
    acc: SpecTypeCaptures,
    c: SpecCapture,
) -> SpecTypeCaptures {
    if c.name == "name"@ && acc.name is None {
        SpecTypeCaptures { name: Some(c.items), params: acc.params, statements: acc.statements }
    } else if c.name == "param"@ {
        SpecTypeCaptures {
            name: acc.name,
            params: acc.params.push(c.items),
            statements: acc.statements,
        }
    } else if c.name == "statements"@ && acc.statements is None {
        SpecTypeCaptures { name: acc.name, params: acc.params, statements: Some(c.items) }
    } else {
        acc
    }
}

pub open spec fn spec_type_captures_fold(
    acc: SpecTypeCaptures,
    caps: Seq<SpecCapture>,
) -> SpecTypeCaptures
    decreases caps.len(),
{
    if caps.len() == 0 {
        acc
    } else {
        spec_type_captures_fold(
            spec_type_captures_step(acc, caps[0]),
            caps.subrange(1, caps.len() as int),
        )
    }
}

/// Each captured parameter run resolved to a tree; runs that resolve to
/// nothing are dropped.
pub open spec fn spec_params_of(lists: Seq<Seq<SpecItem>>) -> Seq<SpecTree>
    decreases lists.len(),
{
    if lists.len() == 0 {
        Seq::empty()
    } else {
        let rest = spec_params_of(lists.subrange(1, lists.len() as int));
        match spec_opr_resolve(lists[0]) {
            Some(t) => seq![t] + rest,
            None => rest,
        }
    }
}

/// Whether the left spine of applications ends in an identifier leaf.
pub open spec fn spec_spine_ok(t: SpecTree) -> bool
    decreases t,
{
    match t.variant {
        SpecTreeVariant::App { func, arg } => spec_spine_ok(*func),
        SpecTreeVariant::Ident { token } => true,
        _ => false,
    }
}

/// Walks the left spine of applications, collecting the arguments in source
/// order; yields the identifier leaf and the arguments, or nothing where the
/// spine ends in any other shape.
pub open spec fn spec_spine_parts(t: SpecTree, acc: Seq<SpecTree>) -> Option<
    (SpecToken, Seq<SpecTree>),
>
    decreases t,
{
    match t.variant {
        SpecTreeVariant::App { func, arg } => spec_spine_parts(*func, seq![*arg] + acc),
        SpecTreeVariant::Ident { token } => Some((token, acc)),
        _ => None,
    }
}

/// The spine yields parts exactly when it ends in an identifier.
pub proof fn lemma_spine_parts_ok(t: SpecTree, acc: Seq<SpecTree>)
    ensures
        spec_spine_parts(t, acc) is Some <==> spec_spine_ok(t),
    decreases t,
{
    match t.variant {
        SpecTreeVariant::App { func, arg } => {
            lemma_spine_parts_ok(*func, seq![*arg] + acc);
        },
        _ => {},
    }
}

/// An expression read as a constructor line, if its syntax allows: an
/// identifier applied to an argument block, or an identifier applied to
/// positional arguments.
pub open spec fn spec_aba_ctor(t: SpecTree) -> Option<SpecTypeConstructorDef> {
    match t.variant {
        SpecTreeVariant::ArgumentBlockApplication { lhs, arguments } => match lhs {
            Some(l) => match (*l).variant {
                SpecTreeVariant::Ident { token } => Some(
                    SpecTypeConstructorDef {
                        constructor: token,
                        arguments: Seq::empty(),
                        block: arguments,
                    },
                ),
                _ => None,
            },
            None => None,
        },
        _ => None,
    }
}

pub open spec fn spec_to_constructor(t: SpecTree) -> Option<SpecTypeConstructorDef> {
    match spec_aba_ctor(t) {
        Some(d) => Some(d),
        None => match spec_spine_parts(t, Seq::empty()) {
            Some(parts) => Some(
                SpecTypeConstructorDef {
                    constructor: parts.0,
                    arguments: parts.1,
                    block: Seq::empty(),
                },
            ),
            None => None,
        },
    }
}

/// One body line filed into the growing (constructors, body) split: while the
/// body is still empty, constructor-shaped lines and blank lines extend the
/// constructors; the first other line, and every line after it, goes to the
/// body.
pub open spec fn spec_type_body_line(
    state: (Seq<SpecTypeConstructorLine>, Seq<SpecBlockLine>),
    line: SpecBlockLine,
) -> (Seq<SpecTypeConstructorLine>, Seq<SpecBlockLine>) {
    if state.1.len() == 0 {
        match line.expression {
            Some(expr) => match spec_to_constructor(expr) {
                Some(d) => (
                state.0.push(SpecTypeConstructorLine { newline: line.newline, expression: Some(d) }),
                state.1,
                ),
                None => (state.0, state.1.push(line)),
            },
            None => (
            state.0.push(SpecTypeConstructorLine { newline: line.newline, expression: None }),
            state.1,
            ),
        }
    } else {
        (state.0, state.1.push(line))
    }
}

pub open spec fn spec_type_body_fold(
    state: (Seq<SpecTypeConstructorLine>, Seq<SpecBlockLine>),
    lines: Seq<SpecBlockLine>,
) -> (Seq<SpecTypeConstructorLine>, Seq<SpecBlockLine>)
    decreases lines.len(),
{
    if lines.len() == 0 {
        state
    } else {
        spec_type_body_fold(
            spec_type_body_line(state, lines[0]),
            lines.subrange(1, lines.len() as int),
        )
    }
}

/// The token standing in for a missing type name.
pub open spec fn spec_empty_ident() -> SpecToken {
    SpecToken { left_offset: Seq::empty(), code: Seq::empty(), variant: Variant::Ident }
}

/// The type-definition builder's tree.
pub open spec fn spec_type_def_tree(segs: Seq<SpecResolvedSegment>) -> SpecTree {
    if segs.len() == 1 {
        let caps = spec_type_captures_fold(
            spec_empty_type_captures(),
            spec_match_captures(segs[0].result),
        );
        let name_t = match caps.name {
            Some(items) => spec_opr_resolve(items),
            None => None,
        };
        let params = spec_params_of(caps.params);
        let lines = match caps.statements {
            Some(items) => spec_block_lines_flat(items),
            None => Seq::empty(),
        };
        let parts = spec_type_body_fold((Seq::empty(), Seq::empty()), lines);
        match name_t {
            Some(n) => SpecTree {
                variant: SpecTreeVariant::TypeDef {
                    keyword: segs[0].header,
                    name: Box::new(n),
                    params,
                    constructors: parts.0,
                    body: parts.1,
                },
                error: None,
            },
            None => SpecTree {
                variant: SpecTreeVariant::TypeDef {
                    keyword: segs[0].header,
                    name: Box::new(
                        SpecTree {
                            variant: SpecTreeVariant::Ident { token: spec_empty_ident() },
                            error: None,
                        },
                    ),
                    params,
                    constructors: parts.0,
                    body: parts.1,
                },
                error: Some("Expected identifier after `type` keyword."@),
            },
        }
    } else {
        spec_mismatch_tree(segs)
    }
}

/// What any builder produces for its matched segments.
pub open spec fn spec_apply_body(b: BodyBuilder, segs: Seq<SpecResolvedSegment>) -> SpecTree {
    match b {
        BodyBuilder::Root => spec_root_tree(segs),
        BodyBuilder::MultiSegmentApp => spec_multi_segment_tree(segs),
        BodyBuilder::Import => spec_import_tree(segs),
        BodyBuilder::Export => spec_export_tree(segs),
        BodyBuilder::Group => spec_group_tree(segs),
        BodyBuilder::TypeDef => spec_type_def_tree(segs),
        BodyBuilder::Lambda => spec_lambda_tree(segs),
        BodyBuilder::Case => spec_case_tree(segs),
        BodyBuilder::Array => spec_array_tree(segs),
        BodyBuilder::Tuple => spec_tuple_tree(segs),
    }
}

/// Converts a token, keeping its text.
fn symbolize(t: Token) -> (r: Token)
    ensures
        r@ == spec_symbolize(t@),
{
    Token::symbol(t.left_offset, t.code)
}

/// Converts a token, keeping its text.
fn identize(t: Token) -> (r: Token)
    ensures
        r@ == spec_identize(t@),
{
    Token::ident(t.left_offset, t.code)
}

/// Converts a token, keeping its text.
fn operatorize(t: Token) -> (r: Token)
    ensures
        r@ == spec_operatorize(t@),
{
    Token::operator(t.left_offset, t.code, false)
}

/// A segment's body expression.
fn seg_body(result: Match) -> (r: Option<Tree>)
    ensures
        otree_vw(r) == spec_opr_resolve(spec_match_items(match_vw(result))),
{
    let items = result.tokens();
    resolve_operator_precedence_if_non_empty(items)
}

/// Boxes an optional tree.
fn box_opt(o: Option<Tree>) -> (r: Option<Box<Tree>>)
    ensures
        crate::syntax::opt_tree_vw(r) == spec_box_opt(otree_vw(o)),
{
    match o {
        Some(t) => Some(Box::new(t)),
        None => None,
    }
}

/// Converts matched segments into generic multi-segment-application segments.
fn msegs_of(segments: Vec<ResolvedSegment>) -> (r: Vec<MultiSegmentAppSegment>)
    ensures
        msegs_vw(r@) == spec_msegs_of(rsegs_vw(segments@)),
{
    let ghost g_s0 = rsegs_vw(segments@);
    let mut rev = reverse_vec(segments);
    let mut out: Vec<MultiSegmentAppSegment> = Vec::new();
    proof {
        assert(rsegs_vw(rev@.reverse()) =~= g_s0);
        assert(msegs_vw(out@) =~= Seq::<SpecMultiSegmentAppSegment>::empty());
        assert(Seq::<SpecMultiSegmentAppSegment>::empty() + spec_msegs_of(g_s0) =~= (
        spec_msegs_of(g_s0)));
    }
    while rev.len() > 0
        invariant
            msegs_vw(out@) + spec_msegs_of(rsegs_vw(rev@.reverse())) == spec_msegs_of(g_s0),
        decreases rev@.len(),
    {
        let ghost g_rem = rsegs_vw(rev@.reverse());
        let seg = match rev.pop() {
            Some(x) => x,
            None => {
                proof {
                    assert(false);
                }
                unreached()
            },
        };
        proof {
            assert(g_rem[0] == seg@);
            assert(rsegs_vw(rev@.reverse()) =~= g_rem.subrange(1, g_rem.len() as int));
        }
        let ResolvedSegment { header, result } = seg;
        let body = box_opt(seg_body(result));
        let mseg = MultiSegmentAppSegment { header, body };
        proof {
            assert(mseg@ == spec_mseg_of(g_rem[0]));
            assert(msegs_vw(out@.push(mseg)) =~= msegs_vw(out@).push(mseg@));
            assert(msegs_vw(out@).push(mseg@) + spec_msegs_of(rsegs_vw(rev@.reverse())) =~= (
            msegs_vw(out@) + (seq![mseg@] + spec_msegs_of(rsegs_vw(rev@.reverse())))));
        }
        out.push(mseg);
    }
    proof {
        assert(rsegs_vw(rev@.reverse()) =~= Seq::<SpecResolvedSegment>::empty());
        assert(msegs_vw(out@) + Seq::<SpecMultiSegmentAppSegment>::empty() =~= msegs_vw(out@));
    }
    out
}

/// The generic builder.
fn multi_segment_app_body(segments: Vec<ResolvedSegment>) -> (r: Tree)
    ensures
        tree_vw(r) == spec_multi_segment_tree(rsegs_vw(segments@)),
{
    let segments = msegs_of(segments);
    Tree::plain(TreeVariant::MultiSegmentApp { segments })
}

/// The shared mismatch fallback.
fn mismatch_body(segments: Vec<ResolvedSegment>) -> (r: Tree)
    ensures
        tree_vw(r) == spec_mismatch_tree(rsegs_vw(segments@)),
{
    let t = multi_segment_app_body(segments);
    t.with_error("Internal error: definition and matched segments do not agree.")
}

/// The root builder.
fn root_body(segments: Vec<ResolvedSegment>) -> (r: Tree)
    ensures
        tree_vw(r) == spec_root_tree(rsegs_vw(segments@)),
{
    proof {
        assert(crate::syntax::unmatched_segs_vw(Seq::<crate::syntax::UnmatchedSegment>::empty())
            =~= Seq::<crate::syntax::SpecUnmatchedSegment>::empty());
    }
    if segments.len() == 0 {
        Tree::plain(TreeVariant::Unmatched { segments: Vec::new() })
    } else {
        let mut segments = segments;
        let seg = segments.remove(0);
        match seg_body(seg.result) {
            Some(t) => t,
            None => Tree::plain(TreeVariant::Unmatched { segments: Vec::new() }),
        }
    }
}

/// The group builder.
fn group_body(segments: Vec<ResolvedSegment>) -> (r: Tree)
    ensures
        tree_vw(r) == spec_group_tree(rsegs_vw(segments@)),
{
    if segments.len() != 2 {
        mismatch_body(segments)
    } else {
        let mut segments = segments;
        let open_seg = segments.remove(0);
        let close_seg = segments.remove(0);
        let open = symbolize(open_seg.header);
        let body = box_opt(seg_body(open_seg.result));
        let close = symbolize(close_seg.header);
        Tree::plain(TreeVariant::Group { open, body, close })
    }
}

/// The lambda builder.
fn lambda_body(segments: Vec<ResolvedSegment>) -> (r: Tree)
    ensures
        tree_vw(r) == spec_lambda_tree(rsegs_vw(segments@)),
{
    if segments.len() != 1 {
        mismatch_body(segments)
    } else {
        let mut segments = segments;
        let seg = segments.remove(0);
        let operator = operatorize(seg.header);
        let arrow = box_opt(seg_body(seg.result));
        Tree::plain(TreeVariant::Lambda { operator, arrow })
    }
}

/// The case builder.
fn case_body(segments: Vec<ResolvedSegment>) -> (r: Tree)
    ensures
        tree_vw(r) == spec_case_tree(rsegs_vw(segments@)),
{
    if segments.len() != 2 {
        mismatch_body(segments)
    } else {
        let mut segments = segments;
        let case_seg = segments.remove(0);
        let of_seg = segments.remove(0);
        let case_tok = identize(case_seg.header);
        let expression = box_opt(seg_body(case_seg.result));
        let of_tok = identize(of_seg.header);
        let body = seg_body(of_seg.result);
        let (initial, lines) = match body {
            None => (None, Vec::new()),
            Some(t) => {
                let Tree { variant, error } = t;
                match variant {
                    TreeVariant::ArgumentBlockApplication { lhs, arguments } => (
                    lhs,
                    arguments,
                    ),
                    other => (
                    Some(Box::new(Tree { variant: other, error })),
                    Vec::new(),
                    ),
                }
            },
        };
        proof {
            assert(crate::syntax::block_lines_vw(Seq::<crate::syntax::BlockLine>::empty())
                =~= Seq::<crate::syntax::SpecBlockLine>::empty());
        }
        Tree::plain(
            TreeVariant::CaseOf { case: case_tok, expression, of: of_tok, initial, lines },
        )
    }
}

/// The shared array and tuple spine walk: splits the opening segment's body
/// at sequence operators.
fn grouped_sequence(open_seg: ResolvedSegment, close_seg: ResolvedSegment) -> (r: (
    Token,
    Option<Box<Tree>>,
    Vec<crate::syntax::OperatorDelimitedTree>,
    Token,
))
    ensures
        ({
            let parts = spec_grouped_sequence(seq![open_seg@, close_seg@]);
            &&& r.0@ == parts.0
            &&& crate::syntax::opt_tree_vw(r.1) == parts.1
            &&& opr_delims_vw(r.2@) == parts.2
            &&& r.3@ == parts.3
        }),
{
    let ghost g_segs = seq![open_seg@, close_seg@];
    let left = symbolize(open_seg.header);
    let right = symbolize(close_seg.header);
    let expression = seg_body(open_seg.result);
    let ghost g_e0 = otree_vw(expression);
    let mut cur = expression;
    let mut rest: Vec<crate::syntax::OperatorDelimitedTree> = Vec::new();
    proof {
        assert(opr_delims_vw(rest@) =~= Seq::<SpecOperatorDelimitedTree>::empty());
    }
    #[verifier::loop_isolation(true)]
    loop
        invariant
            spec_seq_spine(g_e0, Seq::empty()) == spec_seq_spine(
                otree_vw(cur),
                opr_delims_vw(rest@),
            ),
        ensures
            spec_seq_spine(g_e0, Seq::empty()) == (otree_vw(cur), opr_delims_vw(rest@)),
        decreases otree_vw(cur),
    {
        let ghost g_cur_pre = otree_vw(cur);
        let ghost g_d_pre = opr_delims_vw(rest@);
        let take_apart = match &cur {
            Some(t) => match &t.variant {
                TreeVariant::OprApp { lhs, opr, rhs } => {
                    matches!(opr.variant, Variant::Operator { is_sequence: true })
                        && rhs.is_some()
                },
                _ => false,
            },
            None => false,
        };
        if !take_apart {
            proof {
                assert(spec_seq_spine(otree_vw(cur), opr_delims_vw(rest@)) == (
                otree_vw(cur),
                opr_delims_vw(rest@),
                )) by {
                    match cur {
                        Some(t) => {
                            assert(otree_vw(cur) == Some(tree_vw(t)));
                            match t.variant {
                                TreeVariant::OprApp { lhs, opr, rhs } => {
                                    assert(tree_vw(t).variant == SpecTreeVariant::OprApp {
                                        lhs: crate::syntax::opt_tree_vw(lhs),
                                        opr: opr@,
                                        rhs: crate::syntax::opt_tree_vw(rhs),
                                    });
                                },
                                _ => {
                                    assert(!(tree_vw(t).variant
                                        matches SpecTreeVariant::OprApp { .. }));
                                },
                            }
                        },
                        None => {},
                    }
                }
            }
            break;
        }
        let t = match cur {
            Some(t) => t,
            None => {
                proof {
                    assert(false);
                }
                unreached()
            },
        };
        let ghost g_t = t;
        let Tree { variant, error } = t;
        match variant {
            TreeVariant::OprApp { lhs, opr, rhs } => {
                let ghost g_lhs = lhs;
                let ghost g_opr = opr;
                let ghost g_rhs = rhs;
                let rhs = match rhs {
                    Some(r) => r,
                    None => {
                        proof {
                            assert(false);
                        }
                        unreached()
                    },
                };
                let odt = crate::syntax::OperatorDelimitedTree { operator: opr, body: rhs };
                proof {
                    assert(opr_delims_vw(rest@.insert(0, odt)) =~= seq![
                        crate::syntax::opr_delim_vw(odt),
                    ] + opr_delims_vw(rest@));
                }
                rest.insert(0, odt);
                cur = match lhs {
                    Some(l) => Some(*l),
                    None => None,
                };
                proof {
                    assert(g_cur_pre == Some(tree_vw(g_t)));
                    assert(tree_vw(g_t).variant == SpecTreeVariant::OprApp {
                        lhs: crate::syntax::opt_tree_vw(g_lhs),
                        opr: g_opr@,
                        rhs: crate::syntax::opt_tree_vw(g_rhs),
                    });
                    assert(opr_delims_vw(rest@) == seq![
                        SpecOperatorDelimitedTree {
                            operator: g_opr@,
                            body: (match crate::syntax::opt_tree_vw(g_rhs) {
                                Some(b) => b,
                                None => arbitrary(),
                            }),
                        },
                    ] + g_d_pre);
                    assert(otree_vw(cur) == spec_unbox_opt(crate::syntax::opt_tree_vw(g_lhs)));
                    assert(spec_seq_spine(g_cur_pre, g_d_pre) == spec_seq_spine(
                        otree_vw(cur),
                        opr_delims_vw(rest@),
                    ));
                }
            },
            _ => {
                proof {
                    assert(false);
                }
                cur = None;
            },
        }
    }
    let first = box_opt(cur);
    proof {
        assert(spec_seg_body(g_segs[0]) == g_e0);
    }
    (left, first, rest, right)
}

/// The import builder's working state.
pub struct ImportSlots {
    pub polyglot: Option<MultiSegmentAppSegment>,
    pub from: Option<MultiSegmentAppSegment>,
    pub from_as: Option<MultiSegmentAppSegment>,
    pub import: Option<MultiSegmentAppSegment>,
    pub import_as: Option<MultiSegmentAppSegment>,
    pub hiding: Option<MultiSegmentAppSegment>,
}

pub open spec fn omseg_vw(o: Option<MultiSegmentAppSegment>) -> Option<
    SpecMultiSegmentAppSegment,
> {
    match o {
        Some(m) => Some(m@),
        None => None,
    }
}

impl View for ImportSlots {
    type V = SpecImportSlots;

    open spec fn view(&self) -> SpecImportSlots {
        SpecImportSlots {
            polyglot: omseg_vw(self.polyglot),
            from: omseg_vw(self.from),
            from_as: omseg_vw(self.from_as),
            import: omseg_vw(self.import),
            import_as: omseg_vw(self.import_as),
            hiding: omseg_vw(self.hiding),
        }
    }
}

/// The export builder's working state.
pub struct ExportSlots {
    pub from: Option<MultiSegmentAppSegment>,
    pub from_as: Option<MultiSegmentAppSegment>,
    pub export: Option<MultiSegmentAppSegment>,
    pub export_as: Option<MultiSegmentAppSegment>,
    pub hiding: Option<MultiSegmentAppSegment>,
}

impl View for ExportSlots {
    type V = SpecExportSlots;

    open spec fn view(&self) -> SpecExportSlots {
        SpecExportSlots {
            from: omseg_vw(self.from),
            from_as: omseg_vw(self.from_as),
            export: omseg_vw(self.export),
            export_as: omseg_vw(self.export_as),
            hiding: omseg_vw(self.hiding),
        }
    }
}

/// Files one segment into its import slot.
fn import_step(slots: ImportSlots, m: MultiSegmentAppSegment) -> (r: ImportSlots)
    ensures
        r@ == spec_import_step(slots@, m@),
{
    if str_eq(m.header.code.as_str(), "polyglot") {
        ImportSlots { polyglot: Some(m), ..slots }
    } else if str_eq(m.header.code.as_str(), "from") {
        ImportSlots { from: Some(m), ..slots }
    } else if str_eq(m.header.code.as_str(), "as") && slots.import.is_none() {
        ImportSlots { from_as: Some(m), ..slots }
    } else if str_eq(m.header.code.as_str(), "import") {
        ImportSlots { import: Some(m), ..slots }
    } else if str_eq(m.header.code.as_str(), "as") {
        ImportSlots { import_as: Some(m), ..slots }
    } else if str_eq(m.header.code.as_str(), "hiding") {
        ImportSlots { hiding: Some(m), ..slots }
    } else {
        slots
    }
}

/// Files one segment into its export slot.
fn export_step(slots: ExportSlots, m: MultiSegmentAppSegment) -> (r: ExportSlots)
    ensures
        r@ == spec_export_step(slots@, m@),
{
    if str_eq(m.header.code.as_str(), "from") {
        ExportSlots { from: Some(m), ..slots }
    } else if str_eq(m.header.code.as_str(), "as") && slots.export.is_none() {
        ExportSlots { from_as: Some(m), ..slots }
    } else if str_eq(m.header.code.as_str(), "export") {
        ExportSlots { export: Some(m), ..slots }
    } else if str_eq(m.header.code.as_str(), "as") {
        ExportSlots { export_as: Some(m), ..slots }
    } else if str_eq(m.header.code.as_str(), "hiding") {
        ExportSlots { hiding: Some(m), ..slots }
    } else {
        slots
    }
}

/// The import builder.
#[verifier::rlimit(80)]
fn import_body(segments: Vec<ResolvedSegment>) -> (r: Tree)
    ensures
        tree_vw(r) == spec_import_tree(rsegs_vw(segments@)),
{
    let msegs = msegs_of(segments);
    let ghost g_m0 = msegs_vw(msegs@);
    {
        let mut slots = ImportSlots {
            polyglot: None,
            from: None,
            from_as: None,
            import: None,
            import_as: None,
            hiding: None,
        };
        let mut rev = reverse_vec(msegs);
        proof {
            assert(msegs_vw(rev@.reverse()) =~= g_m0);
        }
        while rev.len() > 0
            invariant
                spec_import_fold(slots@, msegs_vw(rev@.reverse())) == spec_import_fold(
                    spec_empty_import_slots(),
                    g_m0,
                ),
            decreases rev@.len(),
        {
            let ghost g_rem = msegs_vw(rev@.reverse());
            let m = match rev.pop() {
                Some(x) => x,
                None => {
                    proof {
                        assert(false);
                    }
                    unreached()
                },
            };
            proof {
                assert(g_rem[0] == m@);
                assert(msegs_vw(rev@.reverse()) =~= g_rem.subrange(1, g_rem.len() as int));
            }
            slots = import_step(slots, m);
        }
        proof {
            assert(msegs_vw(rev@.reverse()) =~= Seq::<SpecMultiSegmentAppSegment>::empty());
        }
        let ImportSlots { polyglot, from, from_as, import, import_as, hiding } = slots;
        match import {
            Some(import) => Tree::plain(
                TreeVariant::Import { polyglot, from, from_as, import, import_as, hiding },
            ),
            None => {
                proof {
                    assert(msegs_vw(Seq::<MultiSegmentAppSegment>::empty()) =~= Seq::<
                        SpecMultiSegmentAppSegment,
                    >::empty());
                }
                let t = Tree::plain(TreeVariant::MultiSegmentApp { segments: Vec::new() });
                t.with_error("Internal error: an import macro has no import segment.")
            },
        }
    }
}

/// The export builder.
#[verifier::rlimit(80)]
fn export_body(segments: Vec<ResolvedSegment>) -> (r: Tree)
    ensures
        tree_vw(r) == spec_export_tree(rsegs_vw(segments@)),
{
    let msegs = msegs_of(segments);
    let ghost g_m0 = msegs_vw(msegs@);
    {
        let mut slots = ExportSlots {
            from: None,
            from_as: None,
            export: None,
            export_as: None,
            hiding: None,
        };
        let mut rev = reverse_vec(msegs);
        proof {
            assert(msegs_vw(rev@.reverse()) =~= g_m0);
        }
        while rev.len() > 0
            invariant
                spec_export_fold(slots@, msegs_vw(rev@.reverse())) == spec_export_fold(
                    spec_empty_export_slots(),
                    g_m0,
                ),
            decreases rev@.len(),
        {
            let ghost g_rem = msegs_vw(rev@.reverse());
            let m = match rev.pop() {
                Some(x) => x,
                None => {
                    proof {
                        assert(false);
                    }
                    unreached()
                },
            };
            proof {
                assert(g_rem[0] == m@);
                assert(msegs_vw(rev@.reverse()) =~= g_rem.subrange(1, g_rem.len() as int));
            }
            slots = export_step(slots, m);
        }
        proof {
            assert(msegs_vw(rev@.reverse()) =~= Seq::<SpecMultiSegmentAppSegment>::empty());
        }
        let ExportSlots { from, from_as, export, export_as, hiding } = slots;
        match export {
            Some(export) => Tree::plain(
                TreeVariant::Export { from, from_as, export, export_as, hiding },
            ),
            None => {
                proof {
                    assert(msegs_vw(Seq::<MultiSegmentAppSegment>::empty()) =~= Seq::<
                        SpecMultiSegmentAppSegment,
                    >::empty());
                }
                let t = Tree::plain(TreeVariant::MultiSegmentApp { segments: Vec::new() });
                t.with_error("Internal error: an export macro has no export segment.")
            },
        }
    }
}

/// Whether the left spine of applications ends in an identifier leaf.
fn spine_base_is_ident(t: &Tree) -> (r: bool)
    ensures
        r == spec_spine_ok(tree_vw(*t)),
{
    let mut cur: &Tree = t;
    loop
        invariant
            spec_spine_ok(tree_vw(*t)) == spec_spine_ok(tree_vw(*cur)),
        decreases *cur,
    {
        match &cur.variant {
            TreeVariant::App { func, .. } => {
                cur = &**func;
            },
            TreeVariant::Ident { .. } => {
                return true;
            },
            _ => {
                return false;
            },
        }
    }
}

/// Splits the type-definition body into leading constructor lines and the
/// remaining body lines, as the original segment order gave them.
#[derive(Debug)]
pub struct TypeDefBodyBuilder {
    pub constructors: Vec<crate::syntax::TypeConstructorLine>,
    pub body: Vec<BlockLine>,
}

impl TypeDefBodyBuilder {
    /// A builder with nothing filed yet.
    pub fn new() -> (r: TypeDefBodyBuilder)
        ensures
            crate::syntax::ctor_lines_vw(r.constructors@) == Seq::<
                crate::syntax::SpecTypeConstructorLine,
            >::empty(),
            crate::syntax::block_lines_vw(r.body@) == Seq::<
                crate::syntax::SpecBlockLine,
            >::empty(),
    {
        let r = TypeDefBodyBuilder { constructors: Vec::new(), body: Vec::new() };
        proof {
            assert(crate::syntax::ctor_lines_vw(r.constructors@) =~= Seq::<
                crate::syntax::SpecTypeConstructorLine,
            >::empty());
            assert(crate::syntax::block_lines_vw(r.body@) =~= Seq::<
                crate::syntax::SpecBlockLine,
            >::empty());
        }
        r
    }

    /// Files the line to the constructors or the body.
    pub fn line(&mut self, newline: Token, expression: Option<Tree>)
        ensures
            ({
                let stepped = spec_type_body_line(
                    (
                        crate::syntax::ctor_lines_vw(old(self).constructors@),
                        crate::syntax::block_lines_vw(old(self).body@),
                    ),
                    crate::syntax::SpecBlockLine {
                        newline: newline@,
                        expression: otree_vw(expression),
                    },
                );
                &&& crate::syntax::ctor_lines_vw(final(self).constructors@) == stepped.0
                &&& crate::syntax::block_lines_vw(final(self).body@) == stepped.1
            }),
    {
        if self.body.len() == 0 {
            match expression {
                Some(expr) => {
                    match Self::to_constructor_line(expr) {
                        Ok(d) => {
                            let cl = crate::syntax::TypeConstructorLine {
                                newline,
                                expression: Some(d),
                            };
                            proof {
                                assert(crate::syntax::ctor_lines_vw(
                                    self.constructors@.push(cl),
                                ) =~= crate::syntax::ctor_lines_vw(self.constructors@).push(
                                    crate::syntax::ctor_line_vw(cl),
                                ));
                            }
                            self.constructors.push(cl);
                        },
                        Err(expr) => {
                            let bl = BlockLine { newline, expression: Some(expr) };
                            proof {
                                assert(crate::syntax::block_lines_vw(self.body@.push(bl)) =~= (
                                crate::syntax::block_lines_vw(self.body@).push(bl@)));
                            }
                            self.body.push(bl);
                        },
                    }
                },
                None => {
                    let cl = crate::syntax::TypeConstructorLine { newline, expression: None };
                    proof {
                        assert(crate::syntax::ctor_lines_vw(self.constructors@.push(cl)) =~= (
                        crate::syntax::ctor_lines_vw(self.constructors@).push(
                            crate::syntax::ctor_line_vw(cl),
                        )));
                    }
                    self.constructors.push(cl);
                },
            }
        } else {
            let bl = BlockLine { newline, expression };
            proof {
                assert(crate::syntax::block_lines_vw(self.body@.push(bl)) =~= (
                crate::syntax::block_lines_vw(self.body@).push(bl@)));
            }
            self.body.push(bl);
        }
    }

    /// The constructor and body line sequences, in order.
    pub fn finish(self) -> (r: (Vec<crate::syntax::TypeConstructorLine>, Vec<BlockLine>))
        ensures
            r == (self.constructors, self.body),
    {
        (self.constructors, self.body)
    }

    /// Reads the expression as a constructor line, handing it back unchanged
    /// where its syntax does not allow.
    #[verifier::rlimit(80)]
    pub fn to_constructor_line(expression: Tree) -> (r: Result<
        crate::syntax::TypeConstructorDef,
        Tree,
    >)
        ensures
            match spec_to_constructor(tree_vw(expression)) {
                Some(d) => r matches Ok(v) && crate::syntax::ctor_def_vw(v) == d,
                None => r matches Err(t) && tree_vw(t) == tree_vw(expression),
            },
    {
        let ghost g_t0 = tree_vw(expression);
        let is_aba = match &expression.variant {
            TreeVariant::ArgumentBlockApplication { lhs: Some(bt), .. } => matches!(
                &(**bt).variant,
                TreeVariant::Ident { .. }
            ),
            _ => false,
        };
        proof {
            assert(is_aba == (spec_aba_ctor(g_t0) is Some)) by {
                match expression.variant {
                    TreeVariant::ArgumentBlockApplication { lhs, arguments } => {
                        assert(g_t0.variant == SpecTreeVariant::ArgumentBlockApplication {
                            lhs: crate::syntax::opt_tree_vw(lhs),
                            arguments: crate::syntax::block_lines_vw(arguments@),
                        });
                        match lhs {
                            Some(bt) => {
                                match (*bt).variant {
                                    TreeVariant::Ident { token } => {
                                        assert(tree_vw(*bt).variant
                                            == SpecTreeVariant::Ident { token: token@ });
                                    },
                                    _ => {
                                        assert(!(tree_vw(*bt).variant
                                            matches SpecTreeVariant::Ident { .. }));
                                    },
                                }
                            },
                            None => {},
                        }
                    },
                    _ => {
                        assert(!(g_t0.variant
                            matches SpecTreeVariant::ArgumentBlockApplication { .. }));
                    },
                }
            }
        }
        if is_aba {
            let Tree { variant, error } = expression;
            match variant {
                TreeVariant::ArgumentBlockApplication { lhs, arguments } => {
                    let ghost g_lhs = lhs;
                    let ghost g_args = arguments;
                    proof {
                        assert(g_t0.variant == SpecTreeVariant::ArgumentBlockApplication {
                            lhs: crate::syntax::opt_tree_vw(g_lhs),
                            arguments: crate::syntax::block_lines_vw(g_args@),
                        });
                    }
                    match lhs {
                        Some(bt) => {
                            let ghost g_bt = *bt;
                            let inner = *bt;
                            let Tree { variant: ivariant, error: ierror } = inner;
                            match ivariant {
                                TreeVariant::Ident { token } => {
                                    proof {
                                        assert(tree_vw(g_bt).variant == SpecTreeVariant::Ident {
                                            token: token@,
                                        });
                                        assert(spec_aba_ctor(g_t0) == Some(
                                            SpecTypeConstructorDef {
                                                constructor: token@,
                                                arguments: Seq::empty(),
                                                block: crate::syntax::block_lines_vw(g_args@),
                                            },
                                        ));
                                    }
                                    let d = crate::syntax::TypeConstructorDef {
                                        constructor: token,
                                        arguments: Vec::new(),
                                        block: arguments,
                                    };
                                    proof {
                                        assert(crate::syntax::trees_vw(
                                            Seq::<Tree>::empty(),
                                        ) =~= Seq::<SpecTree>::empty());
                                    }
                                    Ok(d)
                                },
                                _ => {
                                    proof {
                                        assert(false);
                                    }
                                    unreached()
                                },
                            }
                        },
                        None => {
                            proof {
                                assert(false);
                            }
                            unreached()
                        },
                    }
                },
                _ => {
                    proof {
                        assert(false);
                    }
                    unreached()
                },
            }
        } else if spine_base_is_ident(&expression) {
            proof {
                lemma_spine_parts_ok(g_t0, Seq::empty());
            }
            let mut cur = expression;
            let mut args: Vec<Tree> = Vec::new();
            proof {
                assert(crate::syntax::trees_vw(args@).reverse() =~= Seq::<SpecTree>::empty());
            }
            loop
                invariant
                    spec_spine_parts(g_t0, Seq::empty()) == spec_spine_parts(
                        tree_vw(cur),
                        crate::syntax::trees_vw(args@).reverse(),
                    ),
                    spec_spine_ok(tree_vw(cur)),
                    spec_aba_ctor(g_t0) is None,
                    spec_spine_parts(g_t0, Seq::empty()) is Some,
                decreases cur,
            {
                let ghost g_cur_pre = tree_vw(cur);
                let ghost g_acc_pre = crate::syntax::trees_vw(args@).reverse();
                let Tree { variant, error } = cur;
                match variant {
                    TreeVariant::App { func, arg } => {
                        let ghost g_arg = *arg;
                        let ghost g_func = *func;
                        args.push(*arg);
                        cur = *func;
                        proof {
                            assert(g_cur_pre.variant == SpecTreeVariant::App {
                                func: Box::new(tree_vw(g_func)),
                                arg: Box::new(tree_vw(g_arg)),
                            });
                            assert(crate::syntax::trees_vw(args@).reverse() =~= seq![
                                tree_vw(g_arg),
                            ] + g_acc_pre);
                            assert(spec_spine_parts(g_cur_pre, g_acc_pre) == spec_spine_parts(
                                tree_vw(cur),
                                crate::syntax::trees_vw(args@).reverse(),
                            ));
                        }
                    },
                    TreeVariant::Ident { token } => {
                        proof {
                            assert(g_cur_pre.variant == SpecTreeVariant::Ident { token: token@ });
                            assert(spec_spine_parts(g_cur_pre, g_acc_pre) == Some(
                                (token@, g_acc_pre),
                            ));
                        }
                        let ghost g_args_pre = crate::syntax::trees_vw(args@);
                        let args = reverse_vec(args);
                        proof {
                            assert(crate::syntax::trees_vw(args@) =~= g_args_pre.reverse());
                            assert(crate::syntax::block_lines_vw(Seq::<BlockLine>::empty())
                                =~= Seq::<crate::syntax::SpecBlockLine>::empty());
                        }
                        return Ok(
                            crate::syntax::TypeConstructorDef {
                                constructor: token,
                                arguments: args,
                                block: Vec::new(),
                            },
                        );
                    },
                    TreeVariant::OprApp { .. } => {
                        proof {
                            assert(false);
                        }
                        cur = unreached();
                    },
                    TreeVariant::ArgumentBlockApplication { .. } => {
                        proof {
                            assert(false);
                        }
                        cur = unreached();
                    },
                    TreeVariant::MultiSegmentApp { .. } => {
                        proof {
                            assert(false);
                        }
                        cur = unreached();
                    },
                    TreeVariant::Import { .. } => {
                        proof {
                            assert(false);
                        }
                        cur = unreached();
                    },
                    TreeVariant::Export { .. } => {
                        proof {
                            assert(false);
                        }
                        cur = unreached();
                    },
                    TreeVariant::Group { .. } => {
                        proof {
                            assert(false);
                        }
                        cur = unreached();
                    },
                    TreeVariant::TypeDef { .. } => {
                        proof {
                            assert(false);
                        }
                        cur = unreached();
                    },
                    TreeVariant::Lambda { .. } => {
                        proof {
                            assert(false);
                        }
                        cur = unreached();
                    },
                    TreeVariant::CaseOf { .. } => {
                        proof {
                            assert(false);
                        }
                        cur = unreached();
                    },
                    TreeVariant::Array { .. } => {
                        proof {
                            assert(false);
                        }
                        cur = unreached();
                    },
                    TreeVariant::Tuple { .. } => {
                        proof {
                            assert(false);
                        }
                        cur = unreached();
                    },
                    TreeVariant::Unmatched { .. } => {
                        proof {
                            assert(false);
                        }
                        cur = unreached();
                    },
                }
            }
        } else {
            proof {
                lemma_spine_parts_ok(g_t0, Seq::empty());
            }
            Err(expression)
        }
    }
}

/// The type-definition builder.
#[verifier::rlimit(100)]
fn type_def_body(segments: Vec<ResolvedSegment>) -> (r: Tree)
    ensures
        tree_vw(r) == spec_type_def_tree(rsegs_vw(segments@)),
{
    if segments.len() != 1 {
        mismatch_body(segments)
    } else {
        let ghost g_segs = rsegs_vw(segments@);
        let mut segments = segments;
        let seg = segments.remove(0);
        let keyword = seg.header;
        let captures = seg.result.into_captures();
        let ghost g_caps = captures_vw(captures@);
        let mut name_items: Option<Vec<Item>> = None;
        let mut param_lists: Vec<Vec<Item>> = Vec::new();
        let mut stmt_items: Option<Vec<Item>> = None;
        let mut rev = reverse_vec(captures);
        proof {
            assert(captures_vw(rev@.reverse()) =~= g_caps);
            assert(item_lists_vw(param_lists@) =~= Seq::<Seq<SpecItem>>::empty());
        }
        while rev.len() > 0
            invariant
                spec_type_captures_fold(
                    (SpecTypeCaptures {
                        name: (match name_items {
                            Some(v) => Some(items_vw(v@)),
                            None => None,
                        }),
                        params: item_lists_vw(param_lists@),
                        statements: (match stmt_items {
                            Some(v) => Some(items_vw(v@)),
                            None => None,
                        }),
                    }),
                    captures_vw(rev@.reverse()),
                ) == spec_type_captures_fold(spec_empty_type_captures(), g_caps),
            decreases rev@.len(),
        {
            let ghost g_rem = captures_vw(rev@.reverse());
            let c = match rev.pop() {
                Some(x) => x,
                None => {
                    proof {
                        assert(false);
                    }
                    unreached()
                },
            };
            proof {
                assert(g_rem[0] == c@);
                assert(captures_vw(rev@.reverse()) =~= g_rem.subrange(1, g_rem.len() as int));
            }
            let Capture { name, items } = c;
            let is_name = str_eq(name.as_str(), "name");
            let is_param = str_eq(name.as_str(), "param");
            let is_stmts = str_eq(name.as_str(), "statements");
            if is_name && name_items.is_none() {
                name_items = Some(items);
            } else if is_param {
                proof {
                    assert(item_lists_vw(param_lists@.push(items)) =~= item_lists_vw(
                        param_lists@,
                    ).push(items_vw(items@)));
                }
                param_lists.push(items);
            } else if is_stmts && stmt_items.is_none() {
                stmt_items = Some(items);
            } else {
            }
        }
        proof {
            assert(captures_vw(rev@.reverse()) =~= Seq::<SpecCapture>::empty());
        }
        let name_tree = match name_items {
            Some(v) => resolve_operator_precedence_if_non_empty(v),
            None => None,
        };
        let ghost g_plists = item_lists_vw(param_lists@);
        proof {
            assert(g_plists == spec_type_captures_fold(
                spec_empty_type_captures(),
                g_caps,
            ).params);
        }
        let mut params: Vec<Tree> = Vec::new();
        let mut prev = reverse_vec(param_lists);
        proof {
            assert(item_lists_vw(prev@.reverse()) =~= g_plists);
            assert(crate::syntax::trees_vw(params@) =~= Seq::<SpecTree>::empty());
            assert(Seq::<SpecTree>::empty() + spec_params_of(g_plists) =~= spec_params_of(
                g_plists,
            ));
        }
        while prev.len() > 0
            invariant
                crate::syntax::trees_vw(params@) + spec_params_of(
                    item_lists_vw(prev@.reverse()),
                ) == spec_params_of(g_plists),
            decreases prev@.len(),
        {
            let ghost g_rem = item_lists_vw(prev@.reverse());
            let v = match prev.pop() {
                Some(x) => x,
                None => {
                    proof {
                        assert(false);
                    }
                    unreached()
                },
            };
            proof {
                assert(g_rem[0] == items_vw(v@));
                assert(item_lists_vw(prev@.reverse()) =~= g_rem.subrange(1, g_rem.len() as int));
            }
            match resolve_operator_precedence_if_non_empty(v) {
                Some(t) => {
                    proof {
                        assert(crate::syntax::trees_vw(params@.push(t)) =~= (
                        crate::syntax::trees_vw(params@).push(tree_vw(t))));
                        assert(crate::syntax::trees_vw(params@).push(tree_vw(t))
                            + spec_params_of(item_lists_vw(prev@.reverse())) =~= (
                        crate::syntax::trees_vw(params@) + (seq![tree_vw(t)] + spec_params_of(
                            item_lists_vw(prev@.reverse()),
                        ))));
                    }
                    params.push(t);
                },
                None => {},
            }
        }
        proof {
            assert(item_lists_vw(prev@.reverse()) =~= Seq::<Seq<SpecItem>>::empty());
            assert(crate::syntax::trees_vw(params@) + Seq::<SpecTree>::empty() =~= (
            crate::syntax::trees_vw(params@)));
        }
        let (constructors, body) = match stmt_items {
            Some(v) => {
                let lines = block_lines_flat(v);
                let ghost g_lines = crate::syntax::block_lines_vw(lines@);
                let mut builder = TypeDefBodyBuilder::new();
                let mut lrev = reverse_vec(lines);
                proof {
                    assert(crate::syntax::block_lines_vw(lrev@.reverse()) =~= g_lines);
                }
                while lrev.len() > 0
                    invariant
                        spec_type_body_fold(
                            (
                                crate::syntax::ctor_lines_vw(builder.constructors@),
                                crate::syntax::block_lines_vw(builder.body@),
                            ),
                            crate::syntax::block_lines_vw(lrev@.reverse()),
                        ) == spec_type_body_fold(
                            (
                                Seq::<crate::syntax::SpecTypeConstructorLine>::empty(),
                                Seq::<crate::syntax::SpecBlockLine>::empty(),
                            ),
                            g_lines,
                        ),
                    decreases lrev@.len(),
                {
                    let ghost g_rem = crate::syntax::block_lines_vw(lrev@.reverse());
                    let l = match lrev.pop() {
                        Some(x) => x,
                        None => {
                            proof {
                                assert(false);
                            }
                            unreached()
                        },
                    };
                    proof {
                        assert(g_rem[0] == l@);
                        assert(crate::syntax::block_lines_vw(lrev@.reverse()) =~= g_rem.subrange(
                            1,
                            g_rem.len() as int,
                        ));
                    }
                    let BlockLine { newline, expression } = l;
                    builder.line(newline, expression);
                }
                proof {
                    assert(crate::syntax::block_lines_vw(lrev@.reverse()) =~= Seq::<
                        crate::syntax::SpecBlockLine,
                    >::empty());
                }
                builder.finish()
            },
            None => {
                proof {
                    assert(crate::syntax::ctor_lines_vw(
                        Seq::<crate::syntax::TypeConstructorLine>::empty(),
                    ) =~= Seq::<crate::syntax::SpecTypeConstructorLine>::empty());
                    assert(crate::syntax::block_lines_vw(Seq::<BlockLine>::empty()) =~= Seq::<
                        crate::syntax::SpecBlockLine,
                    >::empty());
                }
                (Vec::new(), Vec::new())
            },
        };
        match name_tree {
            Some(n) => Tree::plain(
                TreeVariant::TypeDef {
                    keyword,
                    name: Box::new(n),
                    params,
                    constructors,
                    body,
                },
            ),
            None => {
                let name = Tree::ident(Token::ident(String::new(), String::new()));
                let t = Tree::plain(
                    TreeVariant::TypeDef {
                        keyword,
                        name: Box::new(name),
                        params,
                        constructors,
                        body,
                    },
                );
                t.with_error("Expected identifier after `type` keyword.")
            },
        }
    }
}

/// Applies a builder to the matched segments of a fully matched macro.
pub fn apply_body(builder: BodyBuilder, segments: Vec<ResolvedSegment>) -> (r: Tree)
    ensures
        tree_vw(r) == spec_apply_body(builder, rsegs_vw(segments@)),
{
    match builder {
        BodyBuilder::Root => root_body(segments),
        BodyBuilder::MultiSegmentApp => multi_segment_app_body(segments),
        BodyBuilder::Import => import_body(segments),
        BodyBuilder::Export => export_body(segments),
        BodyBuilder::Group => group_body(segments),
        BodyBuilder::TypeDef => type_def_body(segments),
        BodyBuilder::Lambda => lambda_body(segments),
        BodyBuilder::Case => case_body(segments),
        BodyBuilder::Array => array_body(segments),
        BodyBuilder::Tuple => tuple_body(segments),
    }
}

/// View of a list of item runs.
pub open spec fn item_lists_vw(s: Seq<Vec<Item>>) -> Seq<Seq<SpecItem>> {
    Seq::new(s.len(), |j: int| if 0 <= j < s.len() { items_vw(s[j]@) } else { arbitrary() })
}

/// The array builder.
fn array_body(segments: Vec<ResolvedSegment>) -> (r: Tree)
    ensures
        tree_vw(r) == spec_array_tree(rsegs_vw(segments@)),
{
    if segments.len() != 2 {
        mismatch_body(segments)
    } else {
        let ghost g_segs = rsegs_vw(segments@);
        let mut segments = segments;
        let open_seg = segments.remove(0);
        let close_seg = segments.remove(0);
        proof {
            assert(g_segs =~= seq![open_seg@, close_seg@]);
        }
        let (left, first, rest, right) = grouped_sequence(open_seg, close_seg);
        Tree::plain(TreeVariant::Array { left, first, rest, right })
    }
}

/// The tuple builder.
fn tuple_body(segments: Vec<ResolvedSegment>) -> (r: Tree)
    ensures
        tree_vw(r) == spec_tuple_tree(rsegs_vw(segments@)),
{
    if segments.len() != 2 {
        mismatch_body(segments)
    } else {
        let ghost g_segs = rsegs_vw(segments@);
        let mut segments = segments;
        let open_seg = segments.remove(0);
        let close_seg = segments.remove(0);
        proof {
            assert(g_segs =~= seq![open_seg@, close_seg@]);
        }
        let (left, first, rest, right) = grouped_sequence(open_seg, close_seg);
        Tree::plain(TreeVariant::Tuple { left, first, rest, right })
    }
}

} // verus!

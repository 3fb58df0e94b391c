//! Syntax items and trees.
//!
//! An [`Item`] is what the resolver consumes: a raw token, an indented block
//! of further items, or an already-resolved [`Tree`].  A [`Tree`] is the
//! resolver's output: one node per recognised syntactic shape, with an
//! optional error annotation for malformed input.

use vstd::prelude::*;

use crate::token::SpecToken;
use crate::token::Token;

verus! {

broadcast use vstd::seq::axiom_seq_index_decreases, vstd::std_specs::vec::axiom_vec_decreases_to_view;

/// One element of the stream under resolution: a raw token, an indented block
/// (a sequence of items in which newline tokens separate the block's lines),
/// or an already-resolved tree.
#[derive(Debug)]
pub enum Item {
    Token(Token),
    Block(Vec<Item>),
    Tree(Tree),
}

/// A syntax tree node together with an optional error annotation.  An
/// annotated node is a best-effort reading of malformed input; resolution
/// never fails outright.
#[derive(Debug)]
pub struct Tree {
    pub variant: TreeVariant,
    pub error: Option<String>,
}

/// The syntactic shape of a [`Tree`] node.
#[derive(Debug)]
pub enum TreeVariant {
    /// A single token treated as an expression leaf.
    Ident { token: Token },
    /// Application of a function to one argument.
    App { func: Box<Tree>, arg: Box<Tree> },
    /// Application of a binary operator; either operand may be missing.
    OprApp { lhs: Option<Box<Tree>>, opr: Token, rhs: Option<Box<Tree>> },
    /// An expression applied to an indented block of argument lines.
    ArgumentBlockApplication { lhs: Option<Box<Tree>>, arguments: Vec<BlockLine> },
    /// A multi-segment construct with no more specific shape, for example
    /// `if ... then ...`.
    MultiSegmentApp { segments: Vec<MultiSegmentAppSegment> },
    /// An import declaration.
    Import {
        polyglot: Option<MultiSegmentAppSegment>,
        from: Option<MultiSegmentAppSegment>,
        from_as: Option<MultiSegmentAppSegment>,
        import: MultiSegmentAppSegment,
        import_as: Option<MultiSegmentAppSegment>,
        hiding: Option<MultiSegmentAppSegment>,
    },
    /// An export declaration.
    Export {
        from: Option<MultiSegmentAppSegment>,
        from_as: Option<MultiSegmentAppSegment>,
        export: MultiSegmentAppSegment,
        export_as: Option<MultiSegmentAppSegment>,
        hiding: Option<MultiSegmentAppSegment>,
    },
    /// A parenthesized group.
    Group { open: Token, body: Option<Box<Tree>>, close: Token },
    /// A type definition: keyword, name, parameters, constructor lines, and
    /// ordinary body lines.
    TypeDef {
        keyword: Token,
        name: Box<Tree>,
        params: Vec<Tree>,
        constructors: Vec<TypeConstructorLine>,
        body: Vec<BlockLine>,
    },
    /// A lambda: the backslash operator and the expression after it.
    Lambda { operator: Token, arrow: Option<Box<Tree>> },
    /// A case expression: scrutinee, optional default arm, and case lines.
    CaseOf {
        case: Token,
        expression: Option<Box<Tree>>,
        of: Token,
        initial: Option<Box<Tree>>,
        lines: Vec<BlockLine>,
    },
    /// An array literal: first element plus (operator, element) pairs.
    Array {
        left: Token,
        first: Option<Box<Tree>>,
        rest: Vec<OperatorDelimitedTree>,
        right: Token,
    },
    /// A tuple literal, shaped as an array.
    Tuple {
        left: Token,
        first: Option<Box<Tree>>,
        rest: Vec<OperatorDelimitedTree>,
        right: Token,
    },
    /// A macro instance that no registered definition fully matched, or whose
    /// non-final segment left items unconsumed; carries the raw segments.
    Unmatched { segments: Vec<UnmatchedSegment> },
}

/// One segment of a [`TreeVariant::MultiSegmentApp`]-like construct: its
/// header token and its resolved body.
#[derive(Debug)]
pub struct MultiSegmentAppSegment {
    pub header: Token,
    pub body: Option<Box<Tree>>,
}

/// An element of an array or tuple literal after the first: the separating
/// operator and the element following it.
#[derive(Debug)]
pub struct OperatorDelimitedTree {
    pub operator: Token,
    pub body: Box<Tree>,
}

/// One line of a block: the newline token beginning it and the line's
/// expression, if the line is not blank.
#[derive(Debug)]
pub struct BlockLine {
    pub newline: Token,
    pub expression: Option<Tree>,
}

/// One line of a type definition body holding a constructor.
#[derive(Debug)]
pub struct TypeConstructorLine {
    pub newline: Token,
    pub expression: Option<TypeConstructorDef>,
}

/// A constructor inside a type definition: its name, positional arguments,
/// and an optional indented argument block.
#[derive(Debug)]
pub struct TypeConstructorDef {
    pub constructor: Token,
    pub arguments: Vec<Tree>,
    pub block: Vec<BlockLine>,
}

/// One raw segment carried by a [`TreeVariant::Unmatched`] node.
#[derive(Debug)]
pub struct UnmatchedSegment {
    pub header: Token,
    pub body: Vec<Item>,
}

/// Mathematical image of an [`Item`].
pub enum SpecItem {
    Token(SpecToken),
    Block(Seq<SpecItem>),
    Tree(SpecTree),
}

/// Mathematical image of a [`Tree`].
pub struct SpecTree {
    pub variant: SpecTreeVariant,
    pub error: Option<Seq<char>>,
}

/// Mathematical image of a [`TreeVariant`].
pub enum SpecTreeVariant {
    Ident { token: SpecToken },
    App { func: Box<SpecTree>, arg: Box<SpecTree> },
    OprApp { lhs: Option<Box<SpecTree>>, opr: SpecToken, rhs: Option<Box<SpecTree>> },
    ArgumentBlockApplication { lhs: Option<Box<SpecTree>>, arguments: Seq<SpecBlockLine> },
    MultiSegmentApp { segments: Seq<SpecMultiSegmentAppSegment> },
    Import {
        polyglot: Option<SpecMultiSegmentAppSegment>,
        from: Option<SpecMultiSegmentAppSegment>,
        from_as: Option<SpecMultiSegmentAppSegment>,
        import: SpecMultiSegmentAppSegment,
        import_as: Option<SpecMultiSegmentAppSegment>,
        hiding: Option<SpecMultiSegmentAppSegment>,
    },
    Export {
        from: Option<SpecMultiSegmentAppSegment>,
        from_as: Option<SpecMultiSegmentAppSegment>,
        export: SpecMultiSegmentAppSegment,
        export_as: Option<SpecMultiSegmentAppSegment>,
        hiding: Option<SpecMultiSegmentAppSegment>,
    },
    Group { open: SpecToken, body: Option<Box<SpecTree>>, close: SpecToken },
    TypeDef {
        keyword: SpecToken,
        name: Box<SpecTree>,
        params: Seq<SpecTree>,
        constructors: Seq<SpecTypeConstructorLine>,
        body: Seq<SpecBlockLine>,
    },
    Lambda { operator: SpecToken, arrow: Option<Box<SpecTree>> },
    CaseOf {
        case: SpecToken,
        expression: Option<Box<SpecTree>>,
        of: SpecToken,
        initial: Option<Box<SpecTree>>,
        lines: Seq<SpecBlockLine>,
    },
    Array {
        left: SpecToken,
        first: Option<Box<SpecTree>>,
        rest: Seq<SpecOperatorDelimitedTree>,
        right: SpecToken,
    },
    Tuple {
        left: SpecToken,
        first: Option<Box<SpecTree>>,
        rest: Seq<SpecOperatorDelimitedTree>,
        right: SpecToken,
    },
    Unmatched { segments: Seq<SpecUnmatchedSegment> },
}

/// Mathematical image of a [`MultiSegmentAppSegment`].
pub struct SpecMultiSegmentAppSegment {
    pub header: SpecToken,
    pub body: Option<Box<SpecTree>>,
}

/// Mathematical image of an [`OperatorDelimitedTree`].
pub struct SpecOperatorDelimitedTree {
    pub operator: SpecToken,
    pub body: Box<SpecTree>,
}

/// Mathematical image of a [`BlockLine`].
pub struct SpecBlockLine {
    pub newline: SpecToken,
    pub expression: Option<SpecTree>,
}

/// Mathematical image of a [`TypeConstructorLine`].
pub struct SpecTypeConstructorLine {
    pub newline: SpecToken,
    pub expression: Option<SpecTypeConstructorDef>,
}

/// Mathematical image of a [`TypeConstructorDef`].
pub struct SpecTypeConstructorDef {
    pub constructor: SpecToken,
    pub arguments: Seq<SpecTree>,
    pub block: Seq<SpecBlockLine>,
}

/// Mathematical image of an [`UnmatchedSegment`].
pub struct SpecUnmatchedSegment {
    pub header: SpecToken,
    pub body: Seq<SpecItem>,
}

pub open spec fn items_vw(s: Seq<Item>) -> Seq<SpecItem>
    decreases s,
{
    Seq::new(s.len(), |j: int| if 0 <= j < s.len() { item_vw(s[j]) } else { arbitrary() })
}

pub open spec fn trees_vw(s: Seq<Tree>) -> Seq<SpecTree>
    decreases s,
{
    Seq::new(s.len(), |j: int| if 0 <= j < s.len() { tree_vw(s[j]) } else { arbitrary() })
}

pub open spec fn block_lines_vw(s: Seq<BlockLine>) -> Seq<SpecBlockLine>
    decreases s,
{
    Seq::new(s.len(), |j: int| if 0 <= j < s.len() { block_line_vw(s[j]) } else { arbitrary() })
}

pub open spec fn msegs_vw(s: Seq<MultiSegmentAppSegment>) -> Seq<SpecMultiSegmentAppSegment>
    decreases s,
{
    Seq::new(s.len(), |j: int| if 0 <= j < s.len() { mseg_vw(s[j]) } else { arbitrary() })
}

pub open spec fn ctor_lines_vw(s: Seq<TypeConstructorLine>) -> Seq<SpecTypeConstructorLine>
    decreases s,
{
    Seq::new(s.len(), |j: int| if 0 <= j < s.len() { ctor_line_vw(s[j]) } else { arbitrary() })
}

pub open spec fn opr_delims_vw(s: Seq<OperatorDelimitedTree>) -> Seq<SpecOperatorDelimitedTree>
    decreases s,
{
    Seq::new(s.len(), |j: int| if 0 <= j < s.len() { opr_delim_vw(s[j]) } else { arbitrary() })
}

pub open spec fn unmatched_segs_vw(s: Seq<UnmatchedSegment>) -> Seq<SpecUnmatchedSegment>
    decreases s,
{
    Seq::new(s.len(), |j: int| if 0 <= j < s.len() { unmatched_seg_vw(s[j]) } else { arbitrary() })
}

pub open spec fn item_vw(i: Item) -> SpecItem
    decreases i,
{
    match i {
        Item::Token(t) => SpecItem::Token(t@),
        Item::Block(items) => SpecItem::Block(
            items_vw(items@),
        ),
        Item::Tree(t) => SpecItem::Tree(tree_vw(t)),
    }
}

pub open spec fn tree_vw(t: Tree) -> SpecTree
    decreases t,
{
    SpecTree { variant: tree_variant_vw(t.variant), error: deep_view_opt_string(t.error) }
}

pub open spec fn deep_view_opt_string(o: Option<String>) -> Option<Seq<char>> {
    match o {
        Some(s) => Some(s@),
        None => None,
    }
}

pub open spec fn opt_tree_vw(o: Option<Box<Tree>>) -> Option<Box<SpecTree>>
    decreases o,
{
    match o {
        Some(t) => Some(Box::new(tree_vw(*t))),
        None => None,
    }
}

pub open spec fn opt_mseg_vw(o: Option<MultiSegmentAppSegment>) -> Option<
    SpecMultiSegmentAppSegment,
>
    decreases o,
{
    match o {
        Some(s) => Some(mseg_vw(s)),
        None => None,
    }
}

pub open spec fn mseg_vw(s: MultiSegmentAppSegment) -> SpecMultiSegmentAppSegment
    decreases s,
{
    SpecMultiSegmentAppSegment { header: s.header@, body: opt_tree_vw(s.body) }
}

pub open spec fn block_line_vw(l: BlockLine) -> SpecBlockLine
    decreases l,
{
    SpecBlockLine {
        newline: l.newline@,
        expression: match l.expression {
            Some(t) => Some(tree_vw(t)),
            None => None,
        },
    }
}

pub open spec fn ctor_line_vw(l: TypeConstructorLine) -> SpecTypeConstructorLine
    decreases l,
{
    SpecTypeConstructorLine {
        newline: l.newline@,
        expression: match l.expression {
            Some(d) => Some(ctor_def_vw(d)),
            None => None,
        },
    }
}

pub open spec fn ctor_def_vw(d: TypeConstructorDef) -> SpecTypeConstructorDef
    decreases d,
{
    SpecTypeConstructorDef {
        constructor: d.constructor@,
        arguments: trees_vw(d.arguments@),
        block: block_lines_vw(d.block@),
    }
}

pub open spec fn unmatched_seg_vw(s: UnmatchedSegment) -> SpecUnmatchedSegment
    decreases s,
{
    SpecUnmatchedSegment {
        header: s.header@,
        body: items_vw(s.body@),
    }
}

pub open spec fn opr_delim_vw(s: OperatorDelimitedTree) -> SpecOperatorDelimitedTree
    decreases s,
{
    SpecOperatorDelimitedTree { operator: s.operator@, body: Box::new(tree_vw(*s.body)) }
}

pub open spec fn tree_variant_vw(v: TreeVariant) -> SpecTreeVariant
    decreases v,
{
    match v {
        TreeVariant::Ident { token } => SpecTreeVariant::Ident { token: token@ },
        TreeVariant::App { func, arg } => SpecTreeVariant::App {
            func: Box::new(tree_vw(*func)),
            arg: Box::new(tree_vw(*arg)),
        },
        TreeVariant::OprApp { lhs, opr, rhs } => SpecTreeVariant::OprApp {
            lhs: opt_tree_vw(lhs),
            opr: opr@,
            rhs: opt_tree_vw(rhs),
        },
        TreeVariant::ArgumentBlockApplication { lhs, arguments } => (
        SpecTreeVariant::ArgumentBlockApplication {
            lhs: opt_tree_vw(lhs),
            arguments: block_lines_vw(arguments@),
        }),
        TreeVariant::MultiSegmentApp { segments } => SpecTreeVariant::MultiSegmentApp {
            segments: msegs_vw(segments@),
        },
        TreeVariant::Import { polyglot, from, from_as, import, import_as, hiding } => (
        SpecTreeVariant::Import {
            polyglot: opt_mseg_vw(polyglot),
            from: opt_mseg_vw(from),
            from_as: opt_mseg_vw(from_as),
            import: mseg_vw(import),
            import_as: opt_mseg_vw(import_as),
            hiding: opt_mseg_vw(hiding),
        }),
        TreeVariant::Export { from, from_as, export, export_as, hiding } => (
        SpecTreeVariant::Export {
            from: opt_mseg_vw(from),
            from_as: opt_mseg_vw(from_as),
            export: mseg_vw(export),
            export_as: opt_mseg_vw(export_as),
            hiding: opt_mseg_vw(hiding),
        }),
        TreeVariant::Group { open, body, close } => SpecTreeVariant::Group {
            open: open@,
            body: opt_tree_vw(body),
            close: close@,
        },
        TreeVariant::TypeDef { keyword, name, params, constructors, body } => (
        SpecTreeVariant::TypeDef {
            keyword: keyword@,
            name: Box::new(tree_vw(*name)),
            params: trees_vw(params@),
            constructors: ctor_lines_vw(constructors@),
            body: block_lines_vw(body@),
        }),
        TreeVariant::Lambda { operator, arrow } => SpecTreeVariant::Lambda {
            operator: operator@,
            arrow: opt_tree_vw(arrow),
        },
        TreeVariant::CaseOf { case, expression, of, initial, lines } => (
        SpecTreeVariant::CaseOf {
            case: case@,
            expression: opt_tree_vw(expression),
            of: of@,
            initial: opt_tree_vw(initial),
            lines: block_lines_vw(lines@),
        }),
        TreeVariant::Array { left, first, rest, right } => SpecTreeVariant::Array {
            left: left@,
            first: opt_tree_vw(first),
            rest: opr_delims_vw(rest@),
            right: right@,
        },
        TreeVariant::Tuple { left, first, rest, right } => SpecTreeVariant::Tuple {
            left: left@,
            first: opt_tree_vw(first),
            rest: opr_delims_vw(rest@),
            right: right@,
        },
        TreeVariant::Unmatched { segments } => SpecTreeVariant::Unmatched {
            segments: unmatched_segs_vw(segments@),
        },
    }
}

impl View for Item {
    type V = SpecItem;

    open spec fn view(&self) -> SpecItem {
        item_vw(*self)
    }
}

impl DeepView for Item {
    type V = SpecItem;

    open spec fn deep_view(&self) -> SpecItem {
        item_vw(*self)
    }
}

impl View for Tree {
    type V = SpecTree;

    open spec fn view(&self) -> SpecTree {
        tree_vw(*self)
    }
}

impl DeepView for Tree {
    type V = SpecTree;

    open spec fn deep_view(&self) -> SpecTree {
        tree_vw(*self)
    }
}

impl View for BlockLine {
    type V = SpecBlockLine;

    open spec fn view(&self) -> SpecBlockLine {
        block_line_vw(*self)
    }
}

impl DeepView for BlockLine {
    type V = SpecBlockLine;

    open spec fn deep_view(&self) -> SpecBlockLine {
        block_line_vw(*self)
    }
}

impl View for MultiSegmentAppSegment {
    type V = SpecMultiSegmentAppSegment;

    open spec fn view(&self) -> SpecMultiSegmentAppSegment {
        mseg_vw(*self)
    }
}

impl DeepView for MultiSegmentAppSegment {
    type V = SpecMultiSegmentAppSegment;

    open spec fn deep_view(&self) -> SpecMultiSegmentAppSegment {
        mseg_vw(*self)
    }
}

impl View for UnmatchedSegment {
    type V = SpecUnmatchedSegment;

    open spec fn view(&self) -> SpecUnmatchedSegment {
        unmatched_seg_vw(*self)
    }
}

impl DeepView for UnmatchedSegment {
    type V = SpecUnmatchedSegment;

    open spec fn deep_view(&self) -> SpecUnmatchedSegment {
        unmatched_seg_vw(*self)
    }
}

impl Tree {
    /// A plain node of the given shape, carrying no error.
    pub fn plain(variant: TreeVariant) -> (r: Tree)
        ensures
            r@ == (SpecTree { variant: tree_variant_vw(variant), error: None }),
    {
        Tree { variant, error: None }
    }

    /// The same node annotated with an error message, as emitted for
    /// malformed but locally recoverable input.
    pub fn with_error(self, message: &str) -> (r: Tree)
        ensures
            r@ == (SpecTree { variant: self@.variant, error: Some(message@) }),
    {
        Tree { variant: self.variant, error: Some(message.to_owned()) }
    }

    /// An expression leaf holding one token.
    pub fn ident(token: Token) -> (r: Tree)
        ensures
            r@ == (SpecTree {
                variant: SpecTreeVariant::Ident { token: token@ },
                error: None,
            }),
    {
        Tree { variant: TreeVariant::Ident { token }, error: None }
    }

    /// Application of `func` to `arg`.
    pub fn app(func: Tree, arg: Tree) -> (r: Tree)
        ensures
            r@ == (SpecTree {
                variant: SpecTreeVariant::App {
                    func: Box::new(func@),
                    arg: Box::new(arg@),
                },
                error: None,
            }),
    {
        Tree {
            variant: TreeVariant::App { func: Box::new(func), arg: Box::new(arg) },
            error: None,
        }
    }
}

} // verus!

//! Resolution of a flat, operator-joined item run into one expression tree.
//!
//! This is the service the resolver hands a segment body to once macro
//! structure has been dealt with.  Runs of non-operator items become
//! left-nested applications; operator tokens join the runs into a left-nested
//! chain of operator applications, all operators ranking equal; a block item
//! turns everything before it into the left-hand side of an argument-block
//! application whose lines are resolved recursively.

use vstd::prelude::*;

use crate::syntax::BlockLine;
use crate::syntax::Item;
use crate::syntax::SpecBlockLine;
use crate::syntax::SpecItem;
use crate::syntax::SpecTree;
use crate::syntax::SpecTreeVariant;
use crate::syntax::Tree;
use crate::syntax::TreeVariant;
use crate::syntax::block_lines_vw;
use crate::syntax::item_vw;
use crate::syntax::items_vw;
use crate::syntax::tree_vw;
use crate::token::SpecToken;
use crate::token::Token;
use crate::token::Variant;
use crate::util::reverse_vec;

verus! {

broadcast use vstd::seq::axiom_seq_index_decreases, vstd::seq::axiom_seq_subrange_decreases, vstd::std_specs::vec::axiom_vec_decreases_to_view;

/// View of an optional owned token.
pub open spec fn otok_vw(o: Option<Token>) -> Option<SpecToken> {
    match o {
        Some(t) => Some(t@),
        None => None,
    }
}

/// View of an optional owned tree.
pub open spec fn otree_vw(o: Option<Tree>) -> Option<SpecTree> {
    match o {
        Some(t) => Some(tree_vw(t)),
        None => None,
    }
}

/// Boxes an optional tree, as stored inside tree nodes.
pub open spec fn spec_box_opt(o: Option<SpecTree>) -> Option<Box<SpecTree>> {
    match o {
        Some(t) => Some(Box::new(t)),
        None => None,
    }
}

/// An expression leaf made from one token.
pub open spec fn spec_leaf(t: SpecToken) -> SpecTree {
    SpecTree { variant: SpecTreeVariant::Ident { token: t }, error: None }
}

/// Extends the operand under construction: a new leaf either starts the
/// operand or is applied as a further argument.
pub open spec fn spec_apply(operand: Option<SpecTree>, leaf: SpecTree) -> Option<SpecTree> {
    match operand {
        None => Some(leaf),
        Some(f) => Some(
            SpecTree {
                variant: SpecTreeVariant::App { func: Box::new(f), arg: Box::new(leaf) },
                error: None,
            },
        ),
    }
}

/// Joins the accumulated left part, the pending operator, and the operand
/// under construction into one expression, if there is anything to join.
pub open spec fn spec_close(
    acc: Option<SpecTree>,
    pending: Option<SpecToken>,
    operand: Option<SpecTree>,
) -> Option<SpecTree> {
    match pending {
        None => operand,
        Some(o) => Some(
            SpecTree {
                variant: SpecTreeVariant::OprApp {
                    lhs: spec_box_opt(acc),
                    opr: o,
                    rhs: spec_box_opt(operand),
                },
                error: None,
            },
        ),
    }
}

/// Whether a stream item is an operator token.
pub open spec fn spec_is_operator_item(i: SpecItem) -> bool {
    i matches SpecItem::Token(t) && t.variant is Operator
}

/// Whether a stream item is a newline token.
pub open spec fn spec_is_newline_item(i: SpecItem) -> bool {
    i matches SpecItem::Token(t) && t.variant is Newline
}

/// The newline token a block's leading line is attributed to.
pub open spec fn spec_empty_newline() -> SpecToken {
    SpecToken {
        left_offset: Seq::empty(),
        code: Seq::empty(),
        variant: Variant::Newline,
    }
}

/// One step of the resolution state machine per item; at the end of the run
/// the three state pieces are joined.
pub open spec fn spec_resolve_state(
    acc: Option<SpecTree>,
    pending: Option<SpecToken>,
    operand: Option<SpecTree>,
    items: Seq<SpecItem>,
) -> Option<SpecTree>
    decreases items, 0nat,
{
    if items.len() == 0 {
        spec_close(acc, pending, operand)
    } else {
        let rest = items.subrange(1, items.len() as int);
        match items[0] {
            SpecItem::Token(t) => {
                if t.variant is Operator {
                    spec_resolve_state(spec_close(acc, pending, operand), Some(t), None, rest)
                } else {
                    spec_resolve_state(acc, pending, spec_apply(operand, spec_leaf(t)), rest)
                }
            },
            SpecItem::Block(contents) => {
                let lines = spec_block_lines_flat(contents);
                let aba = SpecTree {
                    variant: SpecTreeVariant::ArgumentBlockApplication {
                        lhs: spec_box_opt(spec_close(acc, pending, operand)),
                        arguments: lines,
                    },
                    error: None,
                };
                spec_resolve_state(None, None, Some(aba), rest)
            },
            SpecItem::Tree(t) => spec_resolve_state(acc, pending, spec_apply(operand, t), rest),
        }
    }
}

/// The expression a flat item run resolves to, or nothing for an empty run.
pub open spec fn spec_opr_resolve(items: Seq<SpecItem>) -> Option<SpecTree>
    decreases items, 1nat,
{
    spec_resolve_state(None, None, None, items)
}

/// The index of the first newline token, or the length where there is none.
pub open spec fn spec_first_newline(items: Seq<SpecItem>) -> int
    decreases items.len(),
{
    if items.len() == 0 {
        0
    } else if spec_is_newline_item(items[0]) {
        0
    } else {
        1 + spec_first_newline(items.subrange(1, items.len() as int))
    }
}

/// The lines of a block: the contents are split at newline tokens, the first
/// line belonging to `nl`, and each line's items are resolved to the line's
/// expression.
pub open spec fn spec_block_lines(nl: SpecToken, items: Seq<SpecItem>) -> Seq<SpecBlockLine>
    decreases items, 2nat,
{
    let k = spec_first_newline(items);
    if !(0 <= k < items.len()) {
        seq![SpecBlockLine { newline: nl, expression: opt_unbox(spec_opr_resolve(items)) }]
    } else {
        let line = SpecBlockLine {
            newline: nl,
            expression: opt_unbox(spec_opr_resolve(items.subrange(0, k))),
        };
        let next_nl = match items[k] {
            SpecItem::Token(t) => t,
            _ => arbitrary(),
        };
        seq![line] + spec_block_lines(next_nl, items.subrange(k + 1, items.len() as int))
    }
}

/// Identity on an optional tree; lines store their expression unboxed.
pub open spec fn opt_unbox(o: Option<SpecTree>) -> Option<SpecTree> {
    o
}

/// The lines of a block's contents.  Contents beginning with a newline have
/// no leading line before it; otherwise the run before the first newline
/// forms a line attributed to a synthetic empty newline.
pub open spec fn spec_block_lines_flat(items: Seq<SpecItem>) -> Seq<SpecBlockLine>
    decreases items, 3nat,
{
    if items.len() > 0 && spec_is_newline_item(items[0]) {
        let t = match items[0] {
            SpecItem::Token(t) => t,
            _ => arbitrary(),
        };
        spec_block_lines(t, items.subrange(1, items.len() as int))
    } else {
        spec_block_lines(spec_empty_newline(), items)
    }
}

/// The first-newline index is never negative and never exceeds the length.
pub proof fn lemma_first_newline_range(items: Seq<SpecItem>)
    ensures
        0 <= spec_first_newline(items) <= items.len(),
    decreases items.len(),
{
    if items.len() != 0 && !spec_is_newline_item(items[0]) {
        lemma_first_newline_range(items.subrange(1, items.len() as int));
    }
}

/// The first-newline index is `k` exactly when nothing before `k` is a
/// newline and `k` is one or the end.
pub proof fn lemma_first_newline_at(items: Seq<SpecItem>, k: int)
    requires
        0 <= k <= items.len(),
        forall|j: int| 0 <= j < k ==> !spec_is_newline_item(items[j]),
        k < items.len() ==> spec_is_newline_item(items[k]),
    ensures
        spec_first_newline(items) == k,
    decreases k,
{
    if items.len() == 0 {
    } else if k == 0 {
    } else {
        let rest = items.subrange(1, items.len() as int);
        assert(forall|j: int| 0 <= j < k - 1 ==> !spec_is_newline_item(rest[j]));
        lemma_first_newline_at(rest, k - 1);
    }
}

/// Extends the operand under construction by one leaf.
fn apply_operand(operand: Option<Tree>, leaf: Tree) -> (r: Option<Tree>)
    ensures
        otree_vw(r) == spec_apply(otree_vw(operand), tree_vw(leaf)),
{
    match operand {
        None => Some(leaf),
        Some(f) => Some(Tree::app(f, leaf)),
    }
}

/// Joins the accumulated left part, pending operator, and operand.
fn close_expr(acc: Option<Tree>, pending: Option<Token>, operand: Option<Tree>) -> (r: Option<
    Tree,
>)
    ensures
        otree_vw(r) == spec_close(otree_vw(acc), otok_vw(pending), otree_vw(operand)),
{
    match pending {
        None => operand,
        Some(o) => {
            let lhs = match acc {
                Some(t) => Some(Box::new(t)),
                None => None,
            };
            let rhs = match operand {
                Some(t) => Some(Box::new(t)),
                None => None,
            };
            Some(Tree::plain(TreeVariant::OprApp { lhs, opr: o, rhs }))
        },
    }
}

/// Resolves a flat item run into one expression tree, or nothing for an
/// empty run.
pub fn resolve_operator_precedence_if_non_empty(items: Vec<Item>) -> (r: Option<Tree>)
    ensures
        otree_vw(r) == spec_opr_resolve(items_vw(items@)),
    decreases items_vw(items@), 0nat,
{
    let ghost g_items0 = items_vw(items@);
    let mut rev = reverse_vec(items);
    let mut acc: Option<Tree> = None;
    let mut pending: Option<Token> = None;
    let mut operand: Option<Tree> = None;
    proof {
        assert(items_vw(rev@.reverse()) =~= g_items0);
    }
    while rev.len() > 0
        invariant
            spec_resolve_state(
                otree_vw(acc),
                otok_vw(pending),
                otree_vw(operand),
                items_vw(rev@.reverse()),
            ) == spec_opr_resolve(g_items0),
            items_vw(rev@.reverse()) == g_items0.subrange(
                g_items0.len() - rev@.len(),
                g_items0.len() as int,
            ),
            rev@.len() <= g_items0.len(),
        decreases rev@.len(),
    {
        let ghost g_rem = items_vw(rev@.reverse());
        let ghost g_rev_pre = rev@;
        let item = match rev.pop() {
            Some(x) => x,
            None => {
                proof {
                    assert(false);
                }
                unreached()
            },
        };
        proof {
            assert(g_rem[0] == item_vw(item));
            assert(items_vw(rev@.reverse()) =~= g_rem.subrange(1, g_rem.len() as int));
            assert(items_vw(rev@.reverse()) =~= g_items0.subrange(
                g_items0.len() - rev@.len(),
                g_items0.len() as int,
            ));
        }
        match item {
            Item::Token(t) => {
                let is_opr = matches!(t.variant, Variant::Operator { .. });
                if is_opr {
                    let closed = close_expr(acc, pending, operand);
                    acc = closed;
                    pending = Some(t);
                    operand = None;
                } else {
                    let next = apply_operand(operand, Tree::ident(t));
                    operand = next;
                }
            },
            Item::Block(contents) => {
                proof {
                    assert(g_rem[0] == SpecItem::Block(items_vw(contents@)));
                    let pos = g_items0.len() - g_rev_pre.len();
                    assert(g_items0[pos] == SpecItem::Block(items_vw(contents@)));
                    assert(decreases_to!(g_items0 => g_items0[pos]));
                    assert(decreases_to!(g_items0 => items_vw(contents@)));
                }
                let lines = block_lines_flat(contents);
                let lhs = close_expr(acc, pending, operand);
                let lhs = match lhs {
                    Some(t) => Some(Box::new(t)),
                    None => None,
                };
                let aba = Tree::plain(
                    TreeVariant::ArgumentBlockApplication { lhs, arguments: lines },
                );
                acc = None;
                pending = None;
                operand = Some(aba);
            },
            Item::Tree(t) => {
                let next = apply_operand(operand, t);
                operand = next;
            },
        }
    }
    proof {
        assert(items_vw(rev@.reverse()) =~= Seq::<SpecItem>::empty());
    }
    close_expr(acc, pending, operand)
}

/// Splits a block's contents into lines, dropping the leading line where the
/// contents begin with a newline token.
pub fn block_lines_flat(contents: Vec<Item>) -> (r: Vec<BlockLine>)
    ensures
        block_lines_vw(r@) == spec_block_lines_flat(items_vw(contents@)),
    decreases items_vw(contents@), 3nat,
{
    let ghost g_c0 = items_vw(contents@);
    let leading_newline = if contents.len() > 0 {
        match &contents[0] {
            Item::Token(t) => t.is_newline(),
            _ => false,
        }
    } else {
        false
    };
    if leading_newline {
        let mut rest = contents;
        let first = rest.remove(0);
        match first {
            Item::Token(t) => {
                proof {
                    assert(items_vw(rest@) =~= g_c0.subrange(1, g_c0.len() as int));
                }
                block_lines(t, rest)
            },
            _ => {
                proof {
                    assert(false);
                }
                unreached()
            },
        }
    } else {
        block_lines(Token::newline(), contents)
    }
}

/// Splits a block's contents into lines at newline tokens, resolving each
/// line's items into the line's expression.  The leading run of items, before
/// any newline, forms a line attributed to `first_newline`.
#[verifier::rlimit(60)]
pub fn block_lines(first_newline: Token, contents: Vec<Item>) -> (r: Vec<BlockLine>)
    ensures
        block_lines_vw(r@) == spec_block_lines(first_newline@, items_vw(contents@)),
    decreases items_vw(contents@), 2nat,
{
    let ghost g_c0 = items_vw(contents@);
    let ghost g_nl0 = first_newline@;
    let mut rev = reverse_vec(contents);
    let mut lines: Vec<BlockLine> = Vec::new();
    let mut cur_nl = first_newline;
    let mut cur: Vec<Item> = Vec::new();
    proof {
        assert(items_vw(rev@.reverse()) =~= g_c0);
        assert(items_vw(cur@) + g_c0 =~= g_c0);
        assert(block_lines_vw(lines@) =~= Seq::<SpecBlockLine>::empty());
        assert(Seq::<SpecBlockLine>::empty() + spec_block_lines(g_nl0, g_c0) =~= (
        spec_block_lines(g_nl0, g_c0)));
    }
    while rev.len() > 0
        invariant
            block_lines_vw(lines@) + spec_block_lines(
                cur_nl@,
                items_vw(cur@) + items_vw(rev@.reverse()),
            ) == spec_block_lines(g_nl0, g_c0),
            forall|j: int| 0 <= j < cur@.len() ==> !spec_is_newline_item(item_vw(cur@[j])),
            items_vw(cur@) == g_c0.subrange(
                g_c0.len() - rev@.len() - cur@.len(),
                g_c0.len() - rev@.len(),
            ),
            items_vw(rev@.reverse()) == g_c0.subrange(
                g_c0.len() - rev@.len(),
                g_c0.len() as int,
            ),
            cur@.len() + rev@.len() <= g_c0.len(),
        decreases rev@.len(),
    {
        let ghost g_rem = items_vw(rev@.reverse());
        let ghost g_cur_pre = items_vw(cur@);
        let ghost g_nl_pre = cur_nl@;
        let item = match rev.pop() {
            Some(x) => x,
            None => {
                proof {
                    assert(false);
                }
                unreached()
            },
        };
        proof {
            assert(g_rem[0] == item_vw(item));
            assert(items_vw(rev@.reverse()) =~= g_rem.subrange(1, g_rem.len() as int));
        }
        let is_newline = match &item {
            Item::Token(t) => t.is_newline(),
            _ => false,
        };
        if is_newline {
            let next_nl = match item {
                Item::Token(t) => t,
                _ => unreached(),
            };
            let line_items = cur;
            cur = Vec::new();
            proof {
                let whole = g_cur_pre + g_rem;
                assert(forall|j: int|
                    0 <= j < g_cur_pre.len() ==> !spec_is_newline_item(whole[j]));
                assert(spec_is_newline_item(whole[g_cur_pre.len() as int]));
                lemma_first_newline_at(whole, g_cur_pre.len() as int);
                assert(whole.subrange(0, g_cur_pre.len() as int) =~= g_cur_pre);
                assert(whole.subrange(g_cur_pre.len() as int + 1, whole.len() as int) =~= (
                g_rem.subrange(1, g_rem.len() as int)));
                assert(items_vw(line_items@).len() < g_c0.len());
            }
            let expression = resolve_operator_precedence_if_non_empty(line_items);
            let line = BlockLine { newline: cur_nl, expression };
            cur_nl = next_nl;
            proof {
                assert(block_lines_vw(lines@.push(line)) =~= block_lines_vw(lines@).push(
                    line@,
                ));
                assert(block_lines_vw(lines@).push(line@) + spec_block_lines(
                    cur_nl@,
                    items_vw(cur@) + items_vw(rev@.reverse()),
                ) =~= block_lines_vw(lines@) + (seq![line@] + spec_block_lines(
                    cur_nl@,
                    items_vw(cur@) + items_vw(rev@.reverse()),
                )));
                assert(items_vw(cur@) + items_vw(rev@.reverse()) =~= items_vw(rev@.reverse()));
            }
            lines.push(line);
        } else {
            proof {
                assert(items_vw(cur@.push(item)) =~= g_cur_pre.push(item_vw(item)));
                assert(g_cur_pre.push(item_vw(item)) + items_vw(rev@.reverse()) =~= g_cur_pre
                    + g_rem);
                assert(items_vw(cur@.push(item)) =~= g_c0.subrange(
                    g_c0.len() - rev@.len() - (cur@.len() + 1),
                    g_c0.len() - rev@.len(),
                ));
            }
            cur.push(item);
        }
    }
    proof {
        assert(items_vw(cur@) + items_vw(rev@.reverse()) =~= items_vw(cur@));
        lemma_first_newline_at(items_vw(cur@), items_vw(cur@).len() as int);
        assert(items_vw(cur@) =~= g_c0.subrange(
            g_c0.len() - cur@.len(),
            g_c0.len() as int,
        ));
        if cur@.len() == g_c0.len() {
            assert(items_vw(cur@) =~= g_c0);
        }
    }
    let expression = resolve_operator_precedence_if_non_empty(cur);
    let line = BlockLine { newline: cur_nl, expression };
    proof {
        assert(block_lines_vw(lines@.push(line)) =~= block_lines_vw(lines@).push(line@));
        assert(block_lines_vw(lines@).push(line@) =~= block_lines_vw(lines@) + seq![line@]);
    }
    lines.push(line);
    lines
}

} // verus!

//! Declarative shapes for segment bodies.
//!
//! Every segment of a macro definition carries a [`Pattern`] describing the
//! shape of the segment's body.  Resolution of a pattern against an item list
//! is total: it consumes a (possibly empty) prefix of the items and returns a
//! [`Match`] mirroring the pattern's structure, together with the unconsumed
//! suffix.  A missing required piece (an absent identifier, an absent block)
//! consumes nothing rather than failing, so callers decide how to report
//! malformed input.

use vstd::prelude::*;

use crate::syntax::Item;
use crate::syntax::SpecItem;
use crate::syntax::item_vw;
use crate::syntax::items_vw;
use crate::token::Variant;

verus! {

broadcast use vstd::seq::axiom_seq_index_decreases, vstd::seq::axiom_seq_subrange_decreases, vstd::std_specs::vec::axiom_vec_decreases_to_view;

/// A declarative shape for a segment body.
#[derive(Debug)]
pub enum Pattern {
    /// Consumes every remaining item.
    Everything,
    /// Consumes nothing.
    Nothing,
    /// Consumes one identifier token, if one is next.
    Identifier,
    /// Matches the inner pattern and records what it consumed under a name.
    Named(String, Box<Pattern>),
    /// Matches the inner pattern as often as it keeps consuming items.
    Many(Box<Pattern>),
    /// Matches the first pattern, then the second on what is left.
    Both(Box<Pattern>, Box<Pattern>),
    /// Consumes one block item, if one is next, matching the inner pattern
    /// against the block's contents.
    Block(Box<Pattern>),
}

/// Mathematical image of a [`Pattern`].
pub enum SpecPattern {
    Everything,
    Nothing,
    Identifier,
    Named(Seq<char>, Box<SpecPattern>),
    Many(Box<SpecPattern>),
    Both(Box<SpecPattern>, Box<SpecPattern>),
    Block(Box<SpecPattern>),
}

pub open spec fn pattern_vw(p: Pattern) -> SpecPattern
    decreases p,
{
    match p {
        Pattern::Everything => SpecPattern::Everything,
        Pattern::Nothing => SpecPattern::Nothing,
        Pattern::Identifier => SpecPattern::Identifier,
        Pattern::Named(name, inner) => SpecPattern::Named(name@, Box::new(pattern_vw(*inner))),
        Pattern::Many(inner) => SpecPattern::Many(Box::new(pattern_vw(*inner))),
        Pattern::Both(a, b) => SpecPattern::Both(
            Box::new(pattern_vw(*a)),
            Box::new(pattern_vw(*b)),
        ),
        Pattern::Block(inner) => SpecPattern::Block(Box::new(pattern_vw(*inner))),
    }
}

impl View for Pattern {
    type V = SpecPattern;

    open spec fn view(&self) -> SpecPattern {
        pattern_vw(*self)
    }
}

impl DeepView for Pattern {
    type V = SpecPattern;

    open spec fn deep_view(&self) -> SpecPattern {
        pattern_vw(*self)
    }
}

/// Consumes every remaining item.
pub fn everything() -> (r: Pattern)
    ensures
        r@ == SpecPattern::Everything,
{
    Pattern::Everything
}

/// Consumes nothing; the segment body must be handled elsewhere or be empty.
pub fn nothing() -> (r: Pattern)
    ensures
        r@ == SpecPattern::Nothing,
{
    Pattern::Nothing
}

/// Consumes one identifier token.
pub fn identifier() -> (r: Pattern)
    ensures
        r@ == SpecPattern::Identifier,
{
    Pattern::Identifier
}

/// Records what the inner pattern consumed under `name`.
pub fn named(name: &str, inner: Pattern) -> (r: Pattern)
    ensures
        r@ == SpecPattern::Named(name@, Box::new(inner@)),
{
    Pattern::Named(name.to_owned(), Box::new(inner))
}

/// Repeats the inner pattern as long as it consumes items.
pub fn many(inner: Pattern) -> (r: Pattern)
    ensures
        r@ == SpecPattern::Many(Box::new(inner@)),
{
    Pattern::Many(Box::new(inner))
}

/// Matches `a`, then `b` on the remaining items.
pub fn both(a: Pattern, b: Pattern) -> (r: Pattern)
    ensures
        r@ == SpecPattern::Both(Box::new(a@), Box::new(b@)),
{
    Pattern::Both(Box::new(a), Box::new(b))
}

/// Consumes one block item, matching `inner` against its contents.
pub fn block(inner: Pattern) -> (r: Pattern)
    ensures
        r@ == SpecPattern::Block(Box::new(inner@)),
{
    Pattern::Block(Box::new(inner))
}

/// The result of resolving a [`Pattern`] against an item list: the same shape
/// as the pattern, holding the consumed items.
#[derive(Debug)]
pub enum Match {
    /// All items the pattern saw.
    Everything(Vec<Item>),
    Nothing,
    /// The consumed identifier, or nothing where none was next.
    Identifier(Option<Item>),
    Named(String, Box<Match>),
    Many(Vec<Match>),
    Both(Box<Match>, Box<Match>),
    /// The inner match over the block's contents plus the contents the inner
    /// pattern did not consume, or nothing where no block was next.
    Block(Option<BlockMatch>),
}

/// The parts of a matched block: the inner pattern's match over the block's
/// contents, and the contents left unconsumed by it.
#[derive(Debug)]
pub struct BlockMatch {
    pub body: Box<Match>,
    pub residue: Vec<Item>,
}

/// Mathematical image of a [`Match`].
pub enum SpecMatch {
    Everything(Seq<SpecItem>),
    Nothing,
    Identifier(Option<SpecItem>),
    Named(Seq<char>, Box<SpecMatch>),
    Many(Seq<SpecMatch>),
    Both(Box<SpecMatch>, Box<SpecMatch>),
    Block(Option<SpecBlockMatch>),
}

/// Mathematical image of a [`BlockMatch`].
pub struct SpecBlockMatch {
    pub body: Box<SpecMatch>,
    pub residue: Seq<SpecItem>,
}

pub open spec fn matches_vw(s: Seq<Match>) -> Seq<SpecMatch>
    decreases s,
{
    Seq::new(s.len(), |j: int| if 0 <= j < s.len() { match_vw(s[j]) } else { arbitrary() })
}

pub open spec fn match_vw(m: Match) -> SpecMatch
    decreases m,
{
    match m {
        Match::Everything(items) => SpecMatch::Everything(items_vw(items@)),
        Match::Nothing => SpecMatch::Nothing,
        Match::Identifier(item) => SpecMatch::Identifier(
            match item {
                Some(i) => Some(item_vw(i)),
                None => None,
            },
        ),
        Match::Named(name, inner) => SpecMatch::Named(name@, Box::new(match_vw(*inner))),
        Match::Many(ms) => SpecMatch::Many(matches_vw(ms@)),
        Match::Both(a, b) => SpecMatch::Both(Box::new(match_vw(*a)), Box::new(match_vw(*b))),
        Match::Block(b) => SpecMatch::Block(
            match b {
                Some(bm) => Some(
                    SpecBlockMatch {
                        body: Box::new(match_vw(*bm.body)),
                        residue: items_vw(bm.residue@),
                    },
                ),
                None => None,
            },
        ),
    }
}

impl View for Match {
    type V = SpecMatch;

    open spec fn view(&self) -> SpecMatch {
        match_vw(*self)
    }
}

impl DeepView for Match {
    type V = SpecMatch;

    open spec fn deep_view(&self) -> SpecMatch {
        match_vw(*self)
    }
}

/// The list inside a repetition match, empty for any other match.
pub open spec fn many_tail(m: SpecMatch) -> Seq<SpecMatch> {
    match m {
        SpecMatch::Many(t) => t,
        _ => Seq::empty(),
    }
}

/// Whether a stream item is an identifier token.
pub open spec fn spec_is_ident_item(i: SpecItem) -> bool {
    i matches SpecItem::Token(t) && t.variant is Ident
}

/// How many items of `items` the pattern consumes, never more than all of
/// them, and the match recording what it consumed.
pub open spec fn spec_resolve(p: SpecPattern, items: Seq<SpecItem>) -> (SpecMatch, nat)
    decreases p, items.len(),
{
    match p {
        SpecPattern::Everything => (SpecMatch::Everything(items), items.len()),
        SpecPattern::Nothing => (SpecMatch::Nothing, 0nat),
        SpecPattern::Identifier => {
            if items.len() > 0 && spec_is_ident_item(items[0]) {
                (SpecMatch::Identifier(Some(items[0])), 1nat)
            } else {
                (SpecMatch::Identifier(None), 0nat)
            }
        },
        SpecPattern::Named(name, inner) => {
            let (m, k) = spec_resolve(*inner, items);
            (SpecMatch::Named(name, Box::new(m)), k)
        },
        SpecPattern::Many(inner) => {
            let (m, k0) = spec_resolve(*inner, items);
            let k = if k0 <= items.len() {
                k0
            } else {
                items.len()
            };
            if k == 0 {
                (SpecMatch::Many(Seq::empty()), 0nat)
            } else {
                let (mrest, krest) = spec_resolve(p, items.skip(k as int));
                let ms = match mrest {
                    SpecMatch::Many(ms) => ms,
                    _ => Seq::empty(),
                };
                (SpecMatch::Many(seq![m] + ms), (k + krest) as nat)
            }
        },
        SpecPattern::Both(a, b) => {
            let (ma, ka0) = spec_resolve(*a, items);
            let ka = if ka0 <= items.len() {
                ka0
            } else {
                items.len()
            };
            let (mb, kb) = spec_resolve(*b, items.skip(ka as int));
            (SpecMatch::Both(Box::new(ma), Box::new(mb)), (ka + kb) as nat)
        },
        SpecPattern::Block(inner) => {
            if items.len() > 0 {
                match items[0] {
                    SpecItem::Block(contents) => {
                        let (m, k0) = spec_resolve(*inner, contents);
                        let k = if k0 <= contents.len() {
                            k0
                        } else {
                            contents.len()
                        };
                        let bm = SpecBlockMatch {
                            body: Box::new(m),
                            residue: contents.skip(k as int),
                        };
                        (SpecMatch::Block(Some(bm)), 1nat)
                    },
                    _ => (SpecMatch::Block(None), 0nat),
                }
            } else {
                (SpecMatch::Block(None), 0nat)
            }
        },
    }
}

/// The pattern consumes at most the items it is given.
pub proof fn lemma_spec_resolve_consumed(p: SpecPattern, items: Seq<SpecItem>)
    ensures
        spec_resolve(p, items).1 <= items.len(),
    decreases p, items.len(),
{
    match p {
        SpecPattern::Everything => {},
        SpecPattern::Nothing => {},
        SpecPattern::Identifier => {},
        SpecPattern::Named(name, inner) => {
            lemma_spec_resolve_consumed(*inner, items);
        },
        SpecPattern::Many(inner) => {
            let (m, k0) = spec_resolve(*inner, items);
            let k = if k0 <= items.len() {
                k0
            } else {
                items.len()
            };
            if k != 0 {
                lemma_spec_resolve_consumed(p, items.skip(k as int));
            }
        },
        SpecPattern::Both(a, b) => {
            lemma_spec_resolve_consumed(*a, items);
            let (ma, ka0) = spec_resolve(*a, items);
            let ka = if ka0 <= items.len() {
                ka0
            } else {
                items.len()
            };
            lemma_spec_resolve_consumed(*b, items.skip(ka as int));
        },
        SpecPattern::Block(inner) => {},
    }
}

/// What the pattern consumed ended up inside a named capture.
pub struct SpecCapture {
    pub name: Seq<char>,
    pub items: Seq<SpecItem>,
}

/// One named capture of a match: the name and the items its pattern consumed.
#[derive(Debug)]
pub struct Capture {
    pub name: String,
    pub items: Vec<Item>,
}

impl View for Capture {
    type V = SpecCapture;

    open spec fn view(&self) -> SpecCapture {
        SpecCapture { name: self.name@, items: items_vw(self.items@) }
    }
}

pub open spec fn captures_vw(s: Seq<Capture>) -> Seq<SpecCapture> {
    Seq::new(s.len(), |j: int| if 0 <= j < s.len() { s[j]@ } else { arbitrary() })
}

/// The items a match consumed, in their original order.  A matched block
/// reappears as one block item.
pub open spec fn spec_match_items(m: SpecMatch) -> Seq<SpecItem>
    decreases m,
{
    match m {
        SpecMatch::Everything(items) => items,
        SpecMatch::Nothing => Seq::empty(),
        SpecMatch::Identifier(item) => match item {
            Some(i) => seq![i],
            None => Seq::empty(),
        },
        SpecMatch::Named(name, inner) => spec_match_items(*inner),
        SpecMatch::Many(ms) => spec_matches_items(ms),
        SpecMatch::Both(a, b) => spec_match_items(*a) + spec_match_items(*b),
        SpecMatch::Block(b) => match b {
            Some(bm) => seq![SpecItem::Block(spec_match_items(*bm.body) + bm.residue)],
            None => Seq::empty(),
        },
    }
}

pub open spec fn spec_matches_items(ms: Seq<SpecMatch>) -> Seq<SpecItem>
    decreases ms,
{
    if ms.len() == 0 {
        Seq::empty()
    } else {
        spec_match_items(ms[0]) + spec_matches_items(ms.drop_first())
    }
}

/// The named captures of a match, in match order.  A name records exactly
/// what its pattern consumed; names nested inside a named pattern are not
/// separately recorded.
pub open spec fn spec_match_captures(m: SpecMatch) -> Seq<SpecCapture>
    decreases m,
{
    match m {
        SpecMatch::Named(name, inner) => seq![
            SpecCapture { name, items: spec_match_items(*inner) },
        ],
        SpecMatch::Many(ms) => spec_matches_captures(ms),
        SpecMatch::Both(a, b) => spec_match_captures(*a) + spec_match_captures(*b),
        SpecMatch::Block(b) => match b {
            Some(bm) => spec_match_captures(*bm.body),
            None => Seq::empty(),
        },
        _ => Seq::empty(),
    }
}

pub open spec fn spec_matches_captures(ms: Seq<SpecMatch>) -> Seq<SpecCapture>
    decreases ms,
{
    if ms.len() == 0 {
        Seq::empty()
    } else {
        spec_match_captures(ms[0]) + spec_matches_captures(ms.drop_first())
    }
}

impl Match {
    /// The items the match consumed, in their original order.
    pub fn tokens(self) -> (r: Vec<Item>)
        ensures
            items_vw(r@) == spec_match_items(self@),
        decreases self,
    {
        let ghost g_self_val = self;
        let ghost g_self = self@;
        match self {
            Match::Everything(items) => items,
            Match::Nothing => {
                proof {
                    assert(items_vw(Seq::<Item>::empty()) =~= Seq::<SpecItem>::empty());
                }
                Vec::new()
            },
            Match::Identifier(item) => {
                match item {
                    Some(i) => {
                        let mut r: Vec<Item> = Vec::new();
                        proof {
                            let gi = item_vw(i);
                            assert(items_vw(r@.push(i)) =~= seq![gi]);
                        }
                        r.push(i);
                        r
                    },
                    None => {
                        proof {
                            assert(items_vw(Seq::<Item>::empty()) =~= Seq::<SpecItem>::empty());
                        }
                        Vec::new()
                    },
                }
            },
            Match::Named(name, inner) => (*inner).tokens(),
            Match::Many(ms) => {
                let ghost g_vec0 = ms;
                let ghost g_ms0 = matches_vw(ms@);
                let mut ms = ms;
                let mut out: Vec<Item> = Vec::new();
                proof {
                    assert(items_vw(out@) =~= Seq::<SpecItem>::empty());
                    assert(ms@ =~= g_vec0@.skip(0));
                }
                while ms.len() > 0
                    invariant
                        items_vw(out@) + spec_matches_items(matches_vw(ms@)) == (
                        spec_matches_items(g_ms0)),
                        ms@ == g_vec0@.skip(g_vec0@.len() - ms@.len()),
                        ms@.len() <= g_vec0@.len(),
                    decreases ms@.len(),
                {
                    let ghost g_rem = matches_vw(ms@);
                    let m = ms.remove(0);
                    proof {
                        assert(matches_vw(ms@) =~= g_rem.drop_first());
                        assert(ms@ =~= g_vec0@.skip(g_vec0@.len() - ms@.len()));
                        assert(m == g_vec0@[g_vec0@.len() - g_rem.len()]);
                        assert(decreases_to!(g_vec0@ => m));
                        assert(decreases_to!(g_self_val => g_vec0));
                        assert(decreases_to!(g_self_val => m));
                    }
                    let mut piece = m.tokens();
                    proof {
                        assert(items_vw(out@ + piece@) =~= items_vw(out@) + items_vw(piece@));
                        assert((items_vw(out@) + items_vw(piece@)) + spec_matches_items(
                            matches_vw(ms@),
                        ) =~= items_vw(out@) + (items_vw(piece@) + spec_matches_items(
                            matches_vw(ms@),
                        )));
                    }
                    out.append(&mut piece);
                }
                proof {
                    assert(items_vw(out@) + spec_matches_items(matches_vw(ms@)) =~= items_vw(
                        out@,
                    ));
                }
                out
            },
            Match::Both(a, b) => {
                let mut r = (*a).tokens();
                let mut rb = (*b).tokens();
                proof {
                    assert(items_vw(r@ + rb@) =~= items_vw(r@) + items_vw(rb@));
                }
                r.append(&mut rb);
                r
            },
            Match::Block(bm) => {
                match bm {
                    Some(bm) => {
                        let BlockMatch { body, residue } = bm;
                        let mut contents = (*body).tokens();
                        let mut residue = residue;
                        proof {
                            assert(items_vw(contents@ + residue@) =~= items_vw(contents@)
                                + items_vw(residue@));
                        }
                        contents.append(&mut residue);
                        let blk = Item::Block(contents);
                        let mut r: Vec<Item> = Vec::new();
                        proof {
                            assert(items_vw(r@.push(blk)) =~= seq![item_vw(blk)]);
                        }
                        r.push(blk);
                        r
                    },
                    None => {
                        proof {
                            assert(items_vw(Seq::<Item>::empty()) =~= Seq::<SpecItem>::empty());
                        }
                        Vec::new()
                    },
                }
            },
        }
    }

    /// The named captures of the match, in match order.
    pub fn into_captures(self) -> (r: Vec<Capture>)
        ensures
            captures_vw(r@) == spec_match_captures(self@),
        decreases self,
    {
        let ghost g_self_val = self;
        let ghost g_self = self@;
        match self {
            Match::Named(name, inner) => {
                let items = (*inner).tokens();
                let c = Capture { name, items };
                let mut r: Vec<Capture> = Vec::new();
                proof {
                    assert(captures_vw(r@.push(c)) =~= seq![c@]);
                }
                r.push(c);
                r
            },
            Match::Many(ms) => {
                let ghost g_vec0 = ms;
                let ghost g_ms0 = matches_vw(ms@);
                let mut ms = ms;
                let mut out: Vec<Capture> = Vec::new();
                proof {
                    assert(captures_vw(out@) =~= Seq::<SpecCapture>::empty());
                    assert(ms@ =~= g_vec0@.skip(0));
                }
                while ms.len() > 0
                    invariant
                        captures_vw(out@) + spec_matches_captures(matches_vw(ms@)) == (
                        spec_matches_captures(g_ms0)),
                        ms@ == g_vec0@.skip(g_vec0@.len() - ms@.len()),
                        ms@.len() <= g_vec0@.len(),
                    decreases ms@.len(),
                {
                    let ghost g_rem = matches_vw(ms@);
                    let m = ms.remove(0);
                    proof {
                        assert(matches_vw(ms@) =~= g_rem.drop_first());
                        assert(ms@ =~= g_vec0@.skip(g_vec0@.len() - ms@.len()));
                        assert(m == g_vec0@[g_vec0@.len() - g_rem.len()]);
                        assert(decreases_to!(g_vec0@ => m));
                        assert(decreases_to!(g_self_val => g_vec0));
                        assert(decreases_to!(g_self_val => m));
                    }
                    let mut piece = m.into_captures();
                    proof {
                        assert(captures_vw(out@ + piece@) =~= captures_vw(out@) + captures_vw(
                            piece@,
                        ));
                        assert((captures_vw(out@) + captures_vw(piece@)) + spec_matches_captures(
                            matches_vw(ms@),
                        ) =~= captures_vw(out@) + (captures_vw(piece@) + spec_matches_captures(
                            matches_vw(ms@),
                        )));
                    }
                    out.append(&mut piece);
                }
                proof {
                    assert(captures_vw(out@) + spec_matches_captures(matches_vw(ms@)) =~= (
                    captures_vw(out@)));
                }
                out
            },
            Match::Both(a, b) => {
                let mut r = (*a).into_captures();
                let mut rb = (*b).into_captures();
                proof {
                    assert(captures_vw(r@ + rb@) =~= captures_vw(r@) + captures_vw(rb@));
                }
                r.append(&mut rb);
                r
            },
            Match::Block(bm) => {
                match bm {
                    Some(bm) => (*bm.body).into_captures(),
                    None => {
                        proof {
                            assert(captures_vw(Seq::<Capture>::empty()) =~= Seq::<
                                SpecCapture,
                            >::empty());
                        }
                        Vec::new()
                    },
                }
            },
            _ => {
                proof {
                    assert(captures_vw(Seq::<Capture>::empty()) =~= Seq::<SpecCapture>::empty());
                }
                Vec::new()
            },
        }
    }
}

impl Pattern {
    /// Resolve the pattern against `items`: consume a prefix into a match,
    /// return the match and the unconsumed suffix.
    pub fn resolve(&self, items: Vec<Item>) -> (r: (Match, Vec<Item>))
        ensures
            r.0@ == spec_resolve(self@, items_vw(items@)).0,
            items_vw(r.1@) == items_vw(items@).skip(
                spec_resolve(self@, items_vw(items@)).1 as int,
            ),
            r.1@.len() + spec_resolve(self@, items_vw(items@)).1 == items@.len(),
        decreases *self, items@.len(),
    {
        proof {
            lemma_spec_resolve_consumed(self@, items_vw(items@));
        }
        let ghost g_items = items_vw(items@);
        match self {
            Pattern::Everything => {
                proof {
                    assert(g_items.skip(g_items.len() as int) =~= items_vw(Seq::<Item>::empty()));
                }
                (Match::Everything(items), Vec::new())
            },
            Pattern::Nothing => {
                proof {
                    assert(g_items.skip(0) =~= g_items);
                }
                (Match::Nothing, items)
            },
            Pattern::Identifier => {
                let consume = if items.len() > 0 {
                    match &items[0] {
                        Item::Token(t) => matches!(t.variant, Variant::Ident),
                        _ => false,
                    }
                } else {
                    false
                };
                if consume {
                    let mut rest = items;
                    let first = rest.remove(0);
                    proof {
                        assert(items_vw(rest@) =~= g_items.skip(1));
                    }
                    (Match::Identifier(Some(first)), rest)
                } else {
                    proof {
                        assert(g_items.skip(0) =~= g_items);
                    }
                    (Match::Identifier(None), items)
                }
            },
            Pattern::Named(name, inner) => {
                let (m, rest) = inner.resolve(items);
                (Match::Named(name.clone(), Box::new(m)), rest)
            },
            Pattern::Many(inner) => {
                let ghost g_self = self@;
                let mut ms: Vec<Match> = Vec::new();
                let mut rest = items;
                proof {
                    assert(matches_vw(ms@) + many_tail(spec_resolve(g_self, g_items).0)
                        =~= many_tail(spec_resolve(g_self, g_items).0));
                    assert(g_items.skip(0) =~= g_items);
                }
                loop
                    invariant
                        spec_resolve(g_self, g_items).0 == SpecMatch::Many(
                            matches_vw(ms@) + many_tail(
                                spec_resolve(g_self, items_vw(rest@)).0,
                            ),
                        ),
                        spec_resolve(g_self, g_items).1 == (g_items.len() - rest@.len())
                            + spec_resolve(g_self, items_vw(rest@)).1,
                        items_vw(rest@) == g_items.skip(g_items.len() - rest@.len()),
                        rest@.len() <= g_items.len(),
                        g_self == SpecPattern::Many(Box::new(inner@)),
                    decreases rest@.len(),
                {
                    proof {
                        lemma_spec_resolve_consumed(inner@, items_vw(rest@));
                    }
                    let ghost g_rest = items_vw(rest@);
                    let pre_len = rest.len();
                    let (m, rest2) = inner.resolve(rest);
                    if rest2.len() == pre_len {
                        proof {
                            assert(items_vw(rest2@) =~= g_rest.skip(0));
                            assert(items_vw(rest2@) =~= g_rest);
                        }
                        rest = rest2;
                        break;
                    }
                    proof {
                        let k = spec_resolve(inner@, g_rest).1;
                        let (mrest, krest) = spec_resolve(g_self, g_rest.skip(k as int));
                        assert(items_vw(rest2@) =~= g_rest.skip(k as int));
                        assert(items_vw(rest2@) =~= g_items.skip(
                            g_items.len() - rest2@.len(),
                        ));
                        assert(matches_vw(ms@.push(m)) =~= matches_vw(ms@).push(match_vw(m)));
                        assert(matches_vw(ms@).push(match_vw(m)) + many_tail(mrest) =~= (
                        matches_vw(ms@) + (seq![match_vw(m)] + many_tail(mrest))));
                        assert(spec_resolve(g_self, g_rest).0 == SpecMatch::Many(
                            seq![match_vw(m)] + many_tail(mrest),
                        ));
                    }
                    ms.push(m);
                    rest = rest2;
                }
                proof {
                    assert(matches_vw(ms@) + Seq::<SpecMatch>::empty() =~= matches_vw(ms@));
                }
                (Match::Many(ms), rest)
            },
            Pattern::Both(a, b) => {
                let (ma, rest) = a.resolve(items);
                proof {
                    lemma_spec_resolve_consumed(b@, items_vw(rest@));
                }
                let (mb, rest2) = b.resolve(rest);
                proof {
                    let ka = spec_resolve(a@, g_items).1;
                    let kb = spec_resolve(b@, g_items.skip(ka as int)).1;
                    assert(items_vw(rest2@) =~= g_items.skip((ka + kb) as int));
                }
                (Match::Both(Box::new(ma), Box::new(mb)), rest2)
            },
            Pattern::Block(inner) => {
                let consume = if items.len() > 0 {
                    matches!(&items[0], Item::Block(_))
                } else {
                    false
                };
                if consume {
                    let mut rest = items;
                    let first = rest.remove(0);
                    match first {
                        Item::Block(contents) => {
                            proof {
                                lemma_spec_resolve_consumed(inner@, items_vw(contents@));
                            }
                            let (m, residue) = inner.resolve(contents);
                            proof {
                                assert(items_vw(rest@) =~= g_items.skip(1));
                            }
                            let bm = BlockMatch { body: Box::new(m), residue };
                            (Match::Block(Some(bm)), rest)
                        },
                        _ => {
                            proof {
                                assert(false);
                            }
                            (Match::Block(None), rest)
                        },
                    }
                } else {
                    proof {
                        assert(g_items.skip(0) =~= g_items);
                    }
                    (Match::Block(None), items)
                }
            },
        }
    }
}

} // verus!

//! The macro resolver: a token-driven state machine with one current,
//! partially matched macro instance and a stack of suspended parents.
//!
//! Per token, in strict priority order: continue the current macro if the
//! token is one of its legal continuation headers; otherwise close the
//! current macro if the token is reserved by any suspended parent, and
//! re-dispatch the token; otherwise start a nested macro if the token is a
//! registered top-level header; otherwise append the token to the current
//! segment.  A newline ends the loop.  At the end the stack is unwound and
//! every open instance is finalized, depth first, threading each nested
//! instance's unconsumed items into the enclosing segment.

use vstd::prelude::*;

use crate::builders::ResolvedSegment;
use crate::builders::SpecResolvedSegment;
use crate::builders::apply_body;
use crate::builders::rsegs_vw;
use crate::builders::spec_apply_body;
use crate::definition::BodyBuilder;
use crate::definition::Definition;
use crate::definition::DefinitionId;
use crate::definition::SpecDefinition;
use crate::definition::spec_def_builder;
use crate::pattern::Match;
use crate::pattern::Pattern;
use crate::pattern::SpecMatch;
use crate::pattern::SpecPattern;
use crate::pattern::match_vw;
use crate::pattern::spec_match_items;
use crate::pattern::spec_resolve;
use crate::operator::spec_is_newline_item;
use crate::syntax::Item;
use crate::syntax::SpecItem;
use crate::syntax::SpecTree;
use crate::syntax::SpecTreeVariant;
use crate::syntax::SpecUnmatchedSegment;
use crate::syntax::Tree;
use crate::syntax::items_vw;
use crate::syntax::tree_vw;
use crate::syntax::unmatched_seg_vw;
use crate::syntax::unmatched_segs_vw;
use crate::syntax::item_vw;
use crate::syntax::TreeVariant;
use crate::syntax::UnmatchedSegment;
use crate::token::SpecToken;
use crate::token::Token;
use crate::util::reverse_vec;
use crate::util::str_eq;

verus! {

broadcast use vstd::seq::axiom_seq_index_decreases, vstd::seq::axiom_seq_subrange_decreases, vstd::std_specs::vec::axiom_vec_decreases_to_view;

/// One possible continuation of a partially matched macro: which registered
/// definition it belongs to, and the index of the definition's segment that
/// the continuation header would open.  Definitions are shared by arena
/// index, never copied into derived state.
#[derive(Clone, Copy, Debug, PartialEq, Eq, Structural)]
pub struct SegmentEntry {
    /// Index of the definition in the registry's arena.
    pub definition: usize,
    /// Index of the segment that the next header would open; all earlier
    /// segments have been seen.
    pub next_segment: usize,
}

/// The continuations filed under one header text.
#[derive(Debug)]
pub struct HeaderGroup {
    pub header: String,
    pub entries: Vec<SegmentEntry>,
}

/// Mathematical image of a [`HeaderGroup`].
pub struct SpecHeaderGroup {
    pub header: Seq<char>,
    pub entries: Seq<SegmentEntry>,
}

impl View for HeaderGroup {
    type V = SpecHeaderGroup;

    open spec fn view(&self) -> SpecHeaderGroup {
        SpecHeaderGroup { header: self.header@, entries: self.entries@ }
    }
}

pub open spec fn groups_vw(s: Seq<HeaderGroup>) -> Seq<SpecHeaderGroup> {
    Seq::new(s.len(), |j: int| if 0 <= j < s.len() { s[j]@ } else { arbitrary() })
}

/// The registry: an arena of registered definitions, and for each
/// registration key (a definition's first header) the entries it contributes.
/// Multiple definitions may share a header; their entries accumulate in
/// registration order.  Append-only.
#[derive(Debug)]
pub struct SegmentMap {
    pub definitions: Vec<Definition>,
    pub groups: Vec<HeaderGroup>,
}

/// Mathematical image of a [`SegmentMap`].
pub struct SpecSegmentMap {
    pub definitions: Seq<SpecDefinition>,
    pub groups: Seq<SpecHeaderGroup>,
}

pub open spec fn definitions_vw(s: Seq<Definition>) -> Seq<SpecDefinition> {
    Seq::new(s.len(), |j: int| if 0 <= j < s.len() { s[j]@ } else { arbitrary() })
}

impl View for SegmentMap {
    type V = SpecSegmentMap;

    open spec fn view(&self) -> SpecSegmentMap {
        SpecSegmentMap {
            definitions: definitions_vw(self.definitions@),
            groups: groups_vw(self.groups@),
        }
    }
}

/// The groups after filing an entry under a header: appended to the header's
/// group where one exists, else in a fresh group at the end.
pub open spec fn spec_add_entry(
    groups: Seq<SpecHeaderGroup>,
    header: Seq<char>,
    e: SegmentEntry,
) -> Seq<SpecHeaderGroup>
    decreases groups.len(),
{
    if groups.len() == 0 {
        seq![SpecHeaderGroup { header, entries: seq![e] }]
    } else if groups[0].header == header {
        seq![
            SpecHeaderGroup { header: groups[0].header, entries: groups[0].entries.push(e) },
        ] + groups.subrange(1, groups.len() as int)
    } else {
        seq![groups[0]] + spec_add_entry(
            groups.subrange(1, groups.len() as int),
            header,
            e,
        )
    }
}

/// A register call's effect: the definition enters the arena, and one entry
/// pointing at it, open at its second segment, is filed under its first
/// segment's header.
pub open spec fn spec_register(m: SpecSegmentMap, d: SpecDefinition) -> SpecSegmentMap {
    SpecSegmentMap {
        definitions: m.definitions.push(d),
        groups: spec_add_entry(
            m.groups,
            d.segments[0].header,
            SegmentEntry { definition: m.definitions.len() as usize, next_segment: 1 },
        ),
    }
}

/// An empty registry.
pub open spec fn spec_empty_segment_map() -> SpecSegmentMap {
    SpecSegmentMap { definitions: Seq::empty(), groups: Seq::empty() }
}

/// The registry after registering the definitions in order.
pub open spec fn spec_register_seq(m: SpecSegmentMap, ds: Seq<SpecDefinition>) -> (
    SpecSegmentMap
)
    decreases ds.len(),
{
    if ds.len() == 0 {
        m
    } else {
        spec_register(spec_register_seq(m, ds.drop_last()), ds.last())
    }
}

/// The entries filed under a header, if any.
pub open spec fn spec_lookup(groups: Seq<SpecHeaderGroup>, code: Seq<char>) -> Option<
    Seq<SegmentEntry>,
>
    decreases groups.len(),
{
    if groups.len() == 0 {
        None
    } else if groups[0].header == code {
        Some(groups[0].entries)
    } else {
        spec_lookup(groups.subrange(1, groups.len() as int), code)
    }
}

/// Files an entry into the group of the given header, appending a fresh
/// group where the header is new.
fn add_entry(groups: &mut Vec<HeaderGroup>, header: String, e: SegmentEntry)
    ensures
        groups_vw(final(groups)@) == spec_add_entry(groups_vw(old(groups)@), header@, e),
{
    let ghost g0 = groups_vw(groups@);
    proof {
        assert(g0.take(0) =~= Seq::<SpecHeaderGroup>::empty());
        assert(g0.skip(0) =~= g0);
        assert(g0.take(0) + spec_add_entry(g0.skip(0), header@, e) =~= spec_add_entry(
            g0,
            header@,
            e,
        ));
    }
    let mut i: usize = 0;
    while i < groups.len()
        invariant
            i <= groups@.len(),
            groups_vw(groups@) == g0,
            forall|j: int| 0 <= j < i ==> g0[j].header != header@,
            spec_add_entry(g0, header@, e) == g0.take(i as int) + spec_add_entry(
                g0.skip(i as int),
                header@,
                e,
            ),
        decreases groups@.len() - i,
    {
        let hit = str_eq(groups[i].header.as_str(), header.as_str());
        if hit {
            let mut g = groups.remove(i);
            g.entries.push(e);
            let ghost g_new = g@;
            groups.insert(i, g);
            proof {
                assert(g0.skip(i as int)[0].header == header@);
                assert(spec_add_entry(g0.skip(i as int), header@, e) == seq![
                    SpecHeaderGroup {
                        header: g0[i as int].header,
                        entries: g0[i as int].entries.push(e),
                    },
                ] + g0.skip(i as int).subrange(1, g0.skip(i as int).len() as int));
                assert(g0.skip(i as int).subrange(1, g0.skip(i as int).len() as int) =~= (
                g0.skip(i as int + 1)));
                assert(groups_vw(groups@) =~= g0.take(i as int) + (seq![g_new] + g0.skip(
                    i as int + 1,
                )));
                assert(groups_vw(groups@) =~= spec_add_entry(g0, header@, e));
            }
            return;
        }
        i = i + 1;
        proof {
            assert(g0.skip(i - 1)[0].header != header@);
            assert(g0.skip(i - 1).subrange(1, g0.skip(i - 1).len() as int) =~= g0.skip(
                i as int,
            ));
            assert(g0.take(i as int) =~= g0.take(i - 1).push(g0[i - 1]));
            assert(g0.take(i - 1) + (seq![g0[i - 1]] + spec_add_entry(
                g0.skip(i as int),
                header@,
                e,
            )) =~= g0.take(i as int) + spec_add_entry(g0.skip(i as int), header@, e));
        }
    }
    let group = HeaderGroup { header, entries: vec![e] };
    proof {
        assert(g0.skip(i as int) =~= Seq::<SpecHeaderGroup>::empty());
        assert(group@.entries =~= seq![e]);
        assert(groups_vw(groups@.push(group)) =~= g0.take(i as int) + seq![group@]);
    }
    groups.push(group);
}

/// The entries filed under a header, copied out, if any.
fn lookup(groups: &Vec<HeaderGroup>, code: &str) -> (r: Option<Vec<SegmentEntry>>)
    ensures
        match r {
            Some(es) => spec_lookup(groups_vw(groups@), code@) == Some(es@),
            None => spec_lookup(groups_vw(groups@), code@) is None,
        },
{
    let ghost g0 = groups_vw(groups@);
    proof {
        assert(g0.skip(0) =~= g0);
    }
    let mut i: usize = 0;
    while i < groups.len()
        invariant
            i <= groups@.len(),
            spec_lookup(g0, code@) == spec_lookup(g0.skip(i as int), code@),
        decreases groups@.len() - i,
    {
        let hit = str_eq(groups[i].header.as_str(), code);
        if hit {
            let src = &groups[i].entries;
            let mut out: Vec<SegmentEntry> = Vec::new();
            let mut j: usize = 0;
            while j < src.len()
                invariant
                    j <= src@.len(),
                    out@ == src@.take(j as int),
                decreases src@.len() - j,
            {
                out.push(src[j]);
                proof {
                    assert(out@ =~= src@.take(j + 1));
                }
                j = j + 1;
            }
            proof {
                assert(g0.skip(i as int)[0].header == code@);
                assert(out@ =~= g0[i as int].entries);
            }
            return Some(out);
        }
        i = i + 1;
        proof {
            assert(g0.skip(i - 1)[0].header != code@);
            assert(g0.skip(i - 1).subrange(1, g0.skip(i - 1).len() as int) =~= g0.skip(
                i as int,
            ));
        }
    }
    proof {
        assert(g0.skip(i as int) =~= Seq::<SpecHeaderGroup>::empty());
    }
    None
}

impl SegmentMap {
    /// An empty registry.
    pub fn new() -> (r: SegmentMap)
        ensures
            r@.definitions == Seq::<SpecDefinition>::empty(),
            r@.groups == Seq::<SpecHeaderGroup>::empty(),
    {
        let r = SegmentMap { definitions: Vec::new(), groups: Vec::new() };
        proof {
            assert(definitions_vw(r.definitions@) =~= Seq::<SpecDefinition>::empty());
            assert(groups_vw(r.groups@) =~= Seq::<SpecHeaderGroup>::empty());
        }
        r
    }

    /// Registers a macro definition under its first segment's header.
    /// Registration is append-only; definitions already registered are
    /// unaffected.
    pub fn register(&mut self, definition: Definition)
        requires
            definition@.wf(),
        ensures
            final(self)@ == spec_register(old(self)@, definition@),
    {
        let entry = SegmentEntry { definition: self.definitions.len(), next_segment: 1 };
        let header = definition.segments[0].header.clone();
        let ghost g_d = definition@;
        self.definitions.push(definition);
        proof {
            assert(definitions_vw(self.definitions@) =~= definitions_vw(
                old(self).definitions@,
            ).push(g_d));
        }
        add_entry(&mut self.groups, header, entry);
    }
}

/// A macro segment whose header was matched: the header token and the items
/// collected for its body so far, nested macro instances included.
#[derive(Debug)]
pub struct MatchedSegment {
    pub header: Token,
    pub body: Vec<ItemOrPartiallyMatchedMacro>,
}

impl MatchedSegment {
    /// A fresh segment with an empty body.
    pub fn new(header: Token) -> (r: MatchedSegment)
        ensures
            r.header@ == header@,
            r.body@.len() == 0,
    {
        MatchedSegment { header, body: Vec::new() }
    }
}

/// An element of a segment body: a plain stream item, or a nested macro
/// instance begun inside the segment and not yet finalized.
#[derive(Debug)]
pub enum ItemOrPartiallyMatchedMacro {
    SyntaxItem(Item),
    PartiallyMatchedMacro(PartiallyMatchedMacro),
}

/// One macro instance in progress: its open segment, the segments already
/// closed, the continuations its definitions still allow, and the definition
/// fully matched by the segments seen so far, if any.  The matched definition
/// is replaced whenever a longer definition completes, which promotes, for
/// example, an if/then match into if/then/else.
#[derive(Debug)]
pub struct PartiallyMatchedMacro {
    pub current_segment: MatchedSegment,
    pub resolved_segments: Vec<MatchedSegment>,
    pub possible_next_segments: Vec<HeaderGroup>,
    pub matched_macro_def: Option<DefinitionId>,
}

/// Mathematical image of an [`ItemOrPartiallyMatchedMacro`].
pub enum SpecItemOrMacro {
    Item(SpecItem),
    Macro(SpecPartiallyMatchedMacro),
}

/// Mathematical image of a [`MatchedSegment`].
pub struct SpecMatchedSegment {
    pub header: SpecToken,
    pub body: Seq<SpecItemOrMacro>,
}

/// Mathematical image of a [`PartiallyMatchedMacro`].
pub struct SpecPartiallyMatchedMacro {
    pub current_segment: SpecMatchedSegment,
    pub resolved_segments: Seq<SpecMatchedSegment>,
    pub possible_next_segments: Seq<SpecHeaderGroup>,
    pub matched_macro_def: Option<DefinitionId>,
}

pub open spec fn ioms_vw(s: Seq<ItemOrPartiallyMatchedMacro>) -> Seq<SpecItemOrMacro>
    decreases s,
{
    Seq::new(s.len(), |j: int| if 0 <= j < s.len() { iom_vw(s[j]) } else { arbitrary() })
}

pub open spec fn iom_vw(e: ItemOrPartiallyMatchedMacro) -> SpecItemOrMacro
    decreases e,
{
    match e {
        ItemOrPartiallyMatchedMacro::SyntaxItem(i) => SpecItemOrMacro::Item(item_vw(i)),
        ItemOrPartiallyMatchedMacro::PartiallyMatchedMacro(pm) => SpecItemOrMacro::Macro(
            pmm_vw(pm),
        ),
    }
}

pub open spec fn matched_segment_vw(seg: MatchedSegment) -> SpecMatchedSegment
    decreases seg,
{
    SpecMatchedSegment { header: seg.header@, body: ioms_vw(seg.body@) }
}

pub open spec fn matched_segments_vw(s: Seq<MatchedSegment>) -> Seq<SpecMatchedSegment>
    decreases s,
{
    Seq::new(
        s.len(),
        |j: int| if 0 <= j < s.len() { matched_segment_vw(s[j]) } else { arbitrary() },
    )
}

pub open spec fn pmm_vw(pm: PartiallyMatchedMacro) -> SpecPartiallyMatchedMacro
    decreases pm,
{
    SpecPartiallyMatchedMacro {
        current_segment: matched_segment_vw(pm.current_segment),
        resolved_segments: matched_segments_vw(pm.resolved_segments@),
        possible_next_segments: groups_vw(pm.possible_next_segments@),
        matched_macro_def: pm.matched_macro_def,
    }
}

pub open spec fn pmms_vw(s: Seq<PartiallyMatchedMacro>) -> Seq<SpecPartiallyMatchedMacro>
    decreases s,
{
    Seq::new(s.len(), |j: int| if 0 <= j < s.len() { pmm_vw(s[j]) } else { arbitrary() })
}

impl View for PartiallyMatchedMacro {
    type V = SpecPartiallyMatchedMacro;

    open spec fn view(&self) -> SpecPartiallyMatchedMacro {
        pmm_vw(*self)
    }
}

/// The synthetic root instance: one open segment standing for the whole
/// expression, fully matched by the root definition from the start, with no
/// continuations.
pub open spec fn spec_root_pmm() -> SpecPartiallyMatchedMacro {
    SpecPartiallyMatchedMacro {
        current_segment: SpecMatchedSegment {
            header: crate::operator::spec_empty_newline(),
            body: Seq::empty(),
        },
        resolved_segments: Seq::empty(),
        possible_next_segments: Seq::empty(),
        matched_macro_def: Some(DefinitionId::Root),
    }
}

impl PartiallyMatchedMacro {
    /// The synthetic root instance: one segment standing for the whole
    /// expression, already fully matched by the root definition, with no
    /// continuations.
    pub fn new_root() -> (r: PartiallyMatchedMacro)
        ensures
            pmm_vw(r) == spec_root_pmm(),
    {
        let r = PartiallyMatchedMacro {
            current_segment: MatchedSegment::new(Token::newline()),
            resolved_segments: Vec::new(),
            possible_next_segments: Vec::new(),
            matched_macro_def: Some(DefinitionId::Root),
        };
        proof {
            assert(ioms_vw(r.current_segment.body@) =~= Seq::<SpecItemOrMacro>::empty());
            assert(matched_segments_vw(r.resolved_segments@) =~= Seq::<
                SpecMatchedSegment,
            >::empty());
            assert(groups_vw(r.possible_next_segments@) =~= Seq::<SpecHeaderGroup>::empty());
        }
        r
    }
}

/// What one token did to the resolver's state.
#[derive(Debug)]
pub enum Step {
    /// The token opened the next segment of the current macro, or began a
    /// nested macro.
    NewSegmentStarted,
    /// The item belongs to the current segment's body.
    NormalToken(Item),
    /// The token is reserved by a suspended parent; the current macro was
    /// closed into that parent and the item must be dispatched again.
    MacroStackPop(Item),
}

/// The resolver: the current macro instance plus the suspended parents, the
/// nearest last.
#[derive(Debug)]
pub struct Resolver {
    pub current_macro: PartiallyMatchedMacro,
    pub macro_stack: Vec<PartiallyMatchedMacro>,
}

/// Mathematical image of a [`Resolver`].
pub struct SpecResolver {
    pub current: SpecPartiallyMatchedMacro,
    pub stack: Seq<SpecPartiallyMatchedMacro>,
}

pub open spec fn resolver_vw(r: Resolver) -> SpecResolver {
    SpecResolver { current: pmm_vw(r.current_macro), stack: pmms_vw(r.macro_stack@) }
}

impl View for Resolver {
    type V = SpecResolver;

    open spec fn view(&self) -> SpecResolver {
        resolver_vw(*self)
    }
}

/// The state a resolution starts from: the synthetic root alone.
pub open spec fn spec_root_state() -> SpecResolver {
    SpecResolver { current: spec_root_pmm(), stack: Seq::empty() }
}

/// Mathematical image of a [`Step`].
pub enum SpecStep {
    NewSegmentStarted,
    NormalToken(SpecItem),
    MacroStackPop(SpecItem),
}

pub open spec fn step_vw(s: Step) -> SpecStep
    decreases s,
{
    match s {
        Step::NewSegmentStarted => SpecStep::NewSegmentStarted,
        Step::NormalToken(i) => SpecStep::NormalToken(item_vw(i)),
        Step::MacroStackPop(i) => SpecStep::MacroStackPop(item_vw(i)),
    }
}

/// One entry's contribution to the next continuation map: an entry whose
/// definition has no further segments records that definition as fully
/// matched, replacing any earlier record, so the last complete entry wins;
/// any other entry is filed under its definition's next header, advanced by
/// one segment.  Entries whose arena index is out of range contribute
/// nothing.
pub open spec fn spec_move_step(
    state: (Option<DefinitionId>, Seq<SpecHeaderGroup>),
    e: SegmentEntry,
    defs: Seq<SpecDefinition>,
) -> (Option<DefinitionId>, Seq<SpecHeaderGroup>) {
    if (e.definition as int) < defs.len() {
        let segs = defs[e.definition as int].segments;
        if e.next_segment >= segs.len() {
            (Some(DefinitionId::Registered(e.definition)), state.1)
        } else {
            (
                state.0,
                spec_add_entry(
                    state.1,
                    segs[e.next_segment as int].header,
                    SegmentEntry {
                        definition: e.definition,
                        next_segment: (e.next_segment + 1) as usize,
                    },
                ),
            )
        }
    } else {
        state
    }
}

pub open spec fn spec_move_fold(
    state: (Option<DefinitionId>, Seq<SpecHeaderGroup>),
    entries: Seq<SegmentEntry>,
    defs: Seq<SpecDefinition>,
) -> (Option<DefinitionId>, Seq<SpecHeaderGroup>)
    decreases entries.len(),
{
    if entries.len() == 0 {
        state
    } else {
        spec_move_fold(
            spec_move_step(state, entries[0], defs),
            entries.subrange(1, entries.len() as int),
            defs,
        )
    }
}

/// The candidate recomputation at a segment boundary: any previously matched
/// definition is discarded, and only the entries keyed by the header just
/// consumed decide the new continuations and the newly matched definition.
pub open spec fn spec_move(entries: Seq<SegmentEntry>, defs: Seq<SpecDefinition>) -> (
    Option<DefinitionId>,
    Seq<SpecHeaderGroup>,
) {
    spec_move_fold((None, Seq::empty()), entries, defs)
}

/// Whether any suspended parent reserves the header: some stack member's
/// continuations contain it.
pub open spec fn spec_reserved(stack: Seq<SpecPartiallyMatchedMacro>, code: Seq<char>) -> bool {
    exists|i: int|
        0 <= i < stack.len() && spec_lookup(#[trigger] stack[i].possible_next_segments, code)
            is Some
}

/// A parent resumed: the suspended child becomes the last body item of the
/// parent's open segment.
pub open spec fn spec_adopt(
    parent: SpecPartiallyMatchedMacro,
    child: SpecPartiallyMatchedMacro,
) -> SpecPartiallyMatchedMacro {
    SpecPartiallyMatchedMacro {
        current_segment: SpecMatchedSegment {
            header: parent.current_segment.header,
            body: parent.current_segment.body.push(SpecItemOrMacro::Macro(child)),
        },
        resolved_segments: parent.resolved_segments,
        possible_next_segments: parent.possible_next_segments,
        matched_macro_def: parent.matched_macro_def,
    }
}

/// One token against the state, in strict priority order.  First: a header
/// among the current instance's continuations closes the open segment, opens
/// a fresh one, and recomputes candidates.  Second: a header reserved by any
/// suspended parent closes the current instance into the nearest parent; the
/// token is not consumed.  Third: a registered top-level header suspends the
/// current instance and starts a nested one.  Otherwise the token is plain
/// content.
pub open spec fn spec_process_token(
    state: SpecResolver,
    map: SpecSegmentMap,
    t: SpecToken,
) -> (SpecResolver, SpecStep) {
    match spec_lookup(state.current.possible_next_segments, t.code) {
        Some(entries) => {
            let mv = spec_move(entries, map.definitions);
            let pm = SpecPartiallyMatchedMacro {
                current_segment: SpecMatchedSegment { header: t, body: Seq::empty() },
                resolved_segments: state.current.resolved_segments.push(
                    state.current.current_segment,
                ),
                possible_next_segments: mv.1,
                matched_macro_def: mv.0,
            };
            (
                SpecResolver { current: pm, stack: state.stack },
                SpecStep::NewSegmentStarted,
            )
        },
        None => {
            if spec_reserved(state.stack, t.code) {
                let parent = state.stack.last();
                (
                    SpecResolver {
                        current: spec_adopt(parent, state.current),
                        stack: state.stack.drop_last(),
                    },
                    SpecStep::MacroStackPop(SpecItem::Token(t)),
                )
            } else {
                match spec_lookup(map.groups, t.code) {
                    Some(entries) => {
                        let mv = spec_move(entries, map.definitions);
                        let pm = SpecPartiallyMatchedMacro {
                            current_segment: SpecMatchedSegment {
                                header: t,
                                body: Seq::empty(),
                            },
                            resolved_segments: Seq::empty(),
                            possible_next_segments: mv.1,
                            matched_macro_def: mv.0,
                        };
                        (
                            SpecResolver {
                                current: pm,
                                stack: state.stack.push(state.current),
                            },
                            SpecStep::NewSegmentStarted,
                        )
                    },
                    None => (state, SpecStep::NormalToken(SpecItem::Token(t))),
                }
            }
        },
    }
}

/// An item appended to the current instance's open segment.
pub open spec fn spec_push_body(state: SpecResolver, i: SpecItem) -> SpecResolver {
    SpecResolver {
        current: SpecPartiallyMatchedMacro {
            current_segment: SpecMatchedSegment {
                header: state.current.current_segment.header,
                body: state.current.current_segment.body.push(SpecItemOrMacro::Item(i)),
            },
            resolved_segments: state.current.resolved_segments,
            possible_next_segments: state.current.possible_next_segments,
            matched_macro_def: state.current.matched_macro_def,
        },
        stack: state.stack,
    }
}

/// A token dispatched to completion: re-dispatched as long as suspended
/// parents reserve it (each such step pops one parent), then either opening
/// a segment or landing as content of the open segment.
pub open spec fn spec_dispatch_token(
    state: SpecResolver,
    map: SpecSegmentMap,
    t: SpecToken,
) -> SpecResolver
    decreases state.stack.len(),
{
    let stepped = spec_process_token(state, map, t);
    match stepped.1 {
        SpecStep::NewSegmentStarted => stepped.0,
        SpecStep::NormalToken(i) => spec_push_body(stepped.0, i),
        SpecStep::MacroStackPop(i) => {
            if stepped.0.stack.len() < state.stack.len() {
                spec_dispatch_token(stepped.0, map, t)
            } else {
                stepped.0
            }
        },
    }
}

/// One stream item dispatched: tokens drive the state machine; any other
/// item is plain content of the open segment.
pub open spec fn spec_dispatch(state: SpecResolver, map: SpecSegmentMap, i: SpecItem) -> (
    SpecResolver
) {
    match i {
        SpecItem::Token(t) => spec_dispatch_token(state, map, t),
        other => spec_push_body(state, other),
    }
}

/// The state after consuming the items: each item is dispatched in order,
/// stopping before the first newline token, which is never consumed into any
/// segment.
pub open spec fn spec_consume(
    state: SpecResolver,
    map: SpecSegmentMap,
    items: Seq<SpecItem>,
) -> SpecResolver
    decreases items.len(),
{
    if items.len() == 0 {
        state
    } else if spec_is_newline_item(items[0]) {
        state
    } else {
        spec_consume(
            spec_dispatch(state, map, items[0]),
            map,
            items.subrange(1, items.len() as int),
        )
    }
}

/// The stack unwound at end of input: suspended parents are resumed nearest
/// first, each child closing into its parent's open segment, until only one
/// instance is left.
pub open spec fn spec_unwind(state: SpecResolver) -> SpecPartiallyMatchedMacro
    decreases state.stack.len(),
{
    if state.stack.len() == 0 {
        state.current
    } else {
        spec_unwind(
            SpecResolver {
                current: spec_adopt(state.stack.last(), state.current),
                stack: state.stack.drop_last(),
            },
        )
    }
}

/// What a full run returns: the items are consumed up to the first newline,
/// the stack is unwound, and the one remaining instance is finalized into a
/// tree.  The root pattern consumes everything, so the finalization of a
/// run begun at the root leaves no residue.
pub open spec fn spec_run_from(
    state: SpecResolver,
    map: SpecSegmentMap,
    items: Seq<SpecItem>,
) -> SpecTree {
    spec_resolve_macro(spec_unwind(spec_consume(state, map, items)), map.definitions).0
}

/// Consumption never looks past the first newline: the items up to it decide
/// the state.
pub proof fn lemma_consume_stops_at_newline(
    state: SpecResolver,
    map: SpecSegmentMap,
    items: Seq<SpecItem>,
    k: int,
)
    requires
        0 <= k <= items.len(),
        forall|j: int| 0 <= j < k ==> !spec_is_newline_item(#[trigger] items[j]),
        k < items.len() ==> spec_is_newline_item(items[k]),
    ensures
        spec_consume(state, map, items) == spec_consume(state, map, items.subrange(0, k)),
    decreases k,
{
    if k == 0 {
        assert(items.subrange(0, 0) =~= Seq::<SpecItem>::empty());
    } else {
        let rest = items.subrange(1, items.len() as int);
        let taken = items.subrange(0, k);
        assert(taken[0] == items[0]);
        assert(!spec_is_newline_item(items[0]));
        assert(taken.subrange(1, taken.len() as int) =~= rest.subrange(0, k - 1));
        assert(forall|j: int| 0 <= j < k - 1 ==> !spec_is_newline_item(#[trigger] rest[j]));
        if k - 1 < rest.len() {
            assert(rest[k - 1] == items[k]);
        }
        lemma_consume_stops_at_newline(spec_dispatch(state, map, items[0]), map, rest, k - 1);
    }
}

impl Resolver {
    /// A resolver holding only the synthetic root instance.
    pub fn new_root() -> (r: Resolver)
        ensures
            resolver_vw(r) == spec_root_state(),
    {
        let r = Resolver {
            current_macro: PartiallyMatchedMacro::new_root(),
            macro_stack: Vec::new(),
        };
        proof {
            assert(pmms_vw(r.macro_stack@) =~= Seq::<SpecPartiallyMatchedMacro>::empty());
        }
        r
    }

    /// Suspends nothing: the parent becomes current and the previous current
    /// macro is pushed into the parent's open segment as a nested instance.
    fn replace_current_with_parent_macro(&mut self, parent_macro: PartiallyMatchedMacro)
        ensures
            pmm_vw(final(self).current_macro) == spec_adopt(
                pmm_vw(parent_macro),
                pmm_vw(old(self).current_macro),
            ),
            final(self).macro_stack == old(self).macro_stack,
    {
        let ghost g_parent = pmm_vw(parent_macro);
        let ghost g_child = pmm_vw(old(self).current_macro);
        let mut parent = parent_macro;
        core::mem::swap(&mut parent, &mut self.current_macro);
        let child = parent;
        proof {
            assert(ioms_vw(
                self.current_macro.current_segment.body@.push(
                    ItemOrPartiallyMatchedMacro::PartiallyMatchedMacro(child),
                ),
            ) =~= ioms_vw(self.current_macro.current_segment.body@).push(
                SpecItemOrMacro::Macro(g_child),
            ));
        }
        self.current_macro.current_segment.body.push(
            ItemOrPartiallyMatchedMacro::PartiallyMatchedMacro(child),
        );
    }

    /// Pops the nearest suspended parent if the token is a legal continuation
    /// for any suspended parent, nearest or not.
    fn pop_macro_stack_if_reserved(&mut self, repr: &str) -> (r: Option<PartiallyMatchedMacro>)
        ensures
            spec_reserved(pmms_vw(old(self).macro_stack@), repr@) ==> (r matches Some(p)
                && pmm_vw(p) == pmms_vw(old(self).macro_stack@).last()
                && pmms_vw(final(self).macro_stack@) == pmms_vw(
                old(self).macro_stack@,
            ).drop_last()),
            !spec_reserved(pmms_vw(old(self).macro_stack@), repr@) ==> (r is None
                && final(self).macro_stack@ == old(self).macro_stack@),
            final(self).current_macro == old(self).current_macro,
    {
        let ghost g_stack = pmms_vw(old(self).macro_stack@);
        let mut reserved = false;
        let mut i: usize = 0;
        while i < self.macro_stack.len()
            invariant
                i <= self.macro_stack@.len(),
                self.macro_stack@ == old(self).macro_stack@,
                self.current_macro == old(self).current_macro,
                reserved == exists|j: int|
                    0 <= j < i && spec_lookup(
                        #[trigger] g_stack[j].possible_next_segments,
                        repr@,
                    ) is Some,
            decreases self.macro_stack@.len() - i,
        {
            let hit = lookup(&self.macro_stack[i].possible_next_segments, repr).is_some();
            proof {
                assert(g_stack[i as int].possible_next_segments == groups_vw(
                    self.macro_stack@[i as int].possible_next_segments@,
                ));
            }
            if hit {
                reserved = true;
            }
            i = i + 1;
            proof {
                if hit {
                    assert(spec_lookup(g_stack[i - 1].possible_next_segments, repr@) is Some);
                }
            }
        }
        if reserved {
            let ghost g_len = self.macro_stack@.len();
            let popped = self.macro_stack.pop();
            proof {
                assert(g_len > 0);
                assert(pmms_vw(self.macro_stack@) =~= g_stack.drop_last());
            }
            popped
        } else {
            None
        }
    }

    /// Recomputes the continuation map from the entries keyed by the header
    /// just consumed, recording the definition that is now fully matched, if
    /// any; a later entry replaces an earlier one, so a longer definition
    /// wins.
    fn move_to_next_segment(
        matched_macro_def: &mut Option<DefinitionId>,
        possible_segments: &Vec<SegmentEntry>,
        definitions: &Vec<Definition>,
    ) -> (r: Vec<HeaderGroup>)
        ensures
            ({
                let mv = spec_move(possible_segments@, definitions_vw(definitions@));
                &&& *final(matched_macro_def) == mv.0
                &&& groups_vw(r@) == mv.1
            }),
    {
        let ghost g_entries = possible_segments@;
        let ghost g_defs = definitions_vw(definitions@);
        *matched_macro_def = None;
        let mut groups: Vec<HeaderGroup> = Vec::new();
        proof {
            assert(groups_vw(groups@) =~= Seq::<SpecHeaderGroup>::empty());
            assert(g_entries.skip(0) =~= g_entries);
        }
        let mut i: usize = 0;
        while i < possible_segments.len()
            invariant
                i <= possible_segments@.len(),
                spec_move_fold(
                    (*matched_macro_def, groups_vw(groups@)),
                    g_entries.skip(i as int),
                    g_defs,
                ) == spec_move(g_entries, g_defs),
            decreases possible_segments@.len() - i,
        {
            let ghost g_state_pre = (*matched_macro_def, groups_vw(groups@));
            let e = possible_segments[i];
            proof {
                assert(g_entries.skip(i as int)[0] == e);
                assert(g_entries.skip(i as int).subrange(
                    1,
                    g_entries.skip(i as int).len() as int,
                ) =~= g_entries.skip(i as int + 1));
            }
            if e.definition < definitions.len() {
                let segs = &definitions[e.definition].segments;
                proof {
                    assert(g_defs[e.definition as int] == definitions@[e.definition as int]@);
                }
                if e.next_segment >= segs.len() {
                    *matched_macro_def = Some(DefinitionId::Registered(e.definition));
                } else {
                    let header = segs[e.next_segment].header.clone();
                    proof {
                        assert(g_defs[e.definition as int].segments[e.next_segment as int]
                            == segs@[e.next_segment as int]@);
                    }
                    let entry = SegmentEntry {
                        definition: e.definition,
                        next_segment: e.next_segment + 1,
                    };
                    add_entry(&mut groups, header, entry);
                }
            }
            i = i + 1;
            proof {
                assert(spec_move_fold(
                    (*matched_macro_def, groups_vw(groups@)),
                    g_entries.skip(i as int),
                    g_defs,
                ) == spec_move_fold(g_state_pre, g_entries.skip(i - 1), g_defs));
            }
        }
        proof {
            assert(g_entries.skip(i as int) =~= Seq::<SegmentEntry>::empty());
        }
        groups
    }

    /// Dispatches one token against the current state, in the strict priority
    /// order: continue current, close for an ancestor, start nested, or plain
    /// content.
    fn process_token(&mut self, root_macro_map: &SegmentMap, token: Token) -> (r: Step)
        ensures
            ({
                let stepped = spec_process_token(
                    resolver_vw(*old(self)),
                    root_macro_map@,
                    token@,
                );
                &&& resolver_vw(*final(self)) == stepped.0
                &&& step_vw(r) == stepped.1
            }),
            r matches Step::MacroStackPop(_) ==> final(self).macro_stack@.len() < old(
                self,
            ).macro_stack@.len(),
    {
        let ghost g_state = resolver_vw(*old(self));
        let ghost g_tok = token@;
        let is_continuation = lookup(
            &self.current_macro.possible_next_segments,
            token.code.as_str(),
        );
        match is_continuation {
            Some(subsegments) => {
                proof {
                    assert(spec_lookup(g_state.current.possible_next_segments, g_tok.code)
                        == Some(subsegments@));
                }
                let mut matched = self.current_macro.matched_macro_def;
                let new_map = Self::move_to_next_segment(
                    &mut matched,
                    &subsegments,
                    &root_macro_map.definitions,
                );
                self.current_macro.matched_macro_def = matched;
                let mut current_segment = MatchedSegment::new(token);
                core::mem::swap(
                    &mut self.current_macro.current_segment,
                    &mut current_segment,
                );
                proof {
                    assert(matched_segments_vw(
                        self.current_macro.resolved_segments@.push(current_segment),
                    ) =~= matched_segments_vw(self.current_macro.resolved_segments@).push(
                        matched_segment_vw(current_segment),
                    ));
                }
                self.current_macro.resolved_segments.push(current_segment);
                self.current_macro.possible_next_segments = new_map;
                proof {
                    let stepped = spec_process_token(g_state, root_macro_map@, g_tok);
                    assert(ioms_vw(self.current_macro.current_segment.body@) =~= Seq::<
                        SpecItemOrMacro,
                    >::empty());
                    assert(pmm_vw(self.current_macro) == stepped.0.current);
                    assert(resolver_vw(*self) == stepped.0);
                }
                Step::NewSegmentStarted
            },
            None => {
                proof {
                    assert(spec_lookup(g_state.current.possible_next_segments, g_tok.code)
                        is None);
                }
                let parent = self.pop_macro_stack_if_reserved(token.code.as_str());
                match parent {
                    Some(parent_macro) => {
                        proof {
                            assert(spec_reserved(g_state.stack, g_tok.code));
                        }
                        self.replace_current_with_parent_macro(parent_macro);
                        proof {
                            let stepped = spec_process_token(g_state, root_macro_map@, g_tok);
                            assert(resolver_vw(*self) == stepped.0);
                            assert(pmms_vw(self.macro_stack@).len() == g_state.stack.len()
                                - 1);
                            assert(self.macro_stack@.len() == old(self).macro_stack@.len()
                                - 1);
                        }
                        Step::MacroStackPop(Item::Token(token))
                    },
                    None => {
                        proof {
                            assert(!spec_reserved(g_state.stack, g_tok.code));
                        }
                        match lookup(&root_macro_map.groups, token.code.as_str()) {
                            Some(segments) => {
                                let mut matched: Option<DefinitionId> = None;
                                let map = Self::move_to_next_segment(
                                    &mut matched,
                                    &segments,
                                    &root_macro_map.definitions,
                                );
                                let mut new_macro = PartiallyMatchedMacro {
                                    current_segment: MatchedSegment::new(token),
                                    resolved_segments: Vec::new(),
                                    possible_next_segments: map,
                                    matched_macro_def: matched,
                                };
                                core::mem::swap(&mut self.current_macro, &mut new_macro);
                                proof {
                                    assert(pmms_vw(self.macro_stack@.push(new_macro)) =~= (
                                    pmms_vw(self.macro_stack@).push(pmm_vw(new_macro))));
                                }
                                self.macro_stack.push(new_macro);
                                proof {
                                    let stepped = spec_process_token(
                                        g_state,
                                        root_macro_map@,
                                        g_tok,
                                    );
                                    assert(ioms_vw(
                                        self.current_macro.current_segment.body@,
                                    ) =~= Seq::<SpecItemOrMacro>::empty());
                                    assert(matched_segments_vw(
                                        self.current_macro.resolved_segments@,
                                    ) =~= Seq::<SpecMatchedSegment>::empty());
                                    assert(pmm_vw(self.current_macro) == stepped.0.current);
                                    assert(resolver_vw(*self) == stepped.0);
                                }
                                Step::NewSegmentStarted
                            },
                            None => {
                                proof {
                                    let stepped = spec_process_token(
                                        g_state,
                                        root_macro_map@,
                                        g_tok,
                                    );
                                    assert(resolver_vw(*self) == stepped.0);
                                }
                                Step::NormalToken(Item::Token(token))
                            },
                        }
                    },
                }
            },
        }
    }

    /// Dispatches one token to completion: re-dispatched as long as suspended
    /// parents reserve it, then either opening a segment or landing as
    /// content of the open segment.
    #[verifier::rlimit(100)]
    fn dispatch_token(&mut self, root_macro_map: &SegmentMap, t: Token)
        ensures
            resolver_vw(*final(self)) == spec_dispatch_token(
                resolver_vw(*old(self)),
                root_macro_map@,
                t@,
            ),
    {
        let ghost g_state_pre = resolver_vw(*old(self));
        let ghost g_t = t@;
        let mut pending = self.process_token(root_macro_map, t);
        let mut popping = matches!(&pending, Step::MacroStackPop(_));
        proof {
            assert(popping == (step_vw(pending) matches SpecStep::MacroStackPop(_))) by {
                match pending {
                    Step::NewSegmentStarted => {},
                    Step::NormalToken(x) => {},
                    Step::MacroStackPop(x) => {},
                }
            }
        }
        while popping
            invariant
                popping == (step_vw(pending) matches SpecStep::MacroStackPop(_)),
                step_vw(pending) matches SpecStep::MacroStackPop(i) ==> i == SpecItem::Token(
                    g_t,
                ),
                spec_dispatch_token(g_state_pre, root_macro_map@, g_t) == (match step_vw(
                    pending,
                ) {
                    SpecStep::MacroStackPop(_) => spec_dispatch_token(
                        resolver_vw(*self),
                        root_macro_map@,
                        g_t,
                    ),
                    SpecStep::NormalToken(i) => spec_push_body(resolver_vw(*self), i),
                    SpecStep::NewSegmentStarted => resolver_vw(*self),
                }),
            decreases (if popping { 1int } else { 0int }), self.macro_stack@.len(),
        {
            let it = match pending {
                Step::MacroStackPop(x) => x,
                _ => {
                    proof {
                        assert(false);
                    }
                    unreached()
                },
            };
            let t2 = match it {
                Item::Token(t2) => t2,
                _ => {
                    proof {
                        assert(false);
                    }
                    unreached()
                },
            };
            let ghost g_mid = resolver_vw(*self);
            pending = self.process_token(root_macro_map, t2);
            popping = matches!(&pending, Step::MacroStackPop(_));
            proof {
                assert(popping == (step_vw(pending) matches SpecStep::MacroStackPop(_)))
                    by {
                    match pending {
                        Step::NewSegmentStarted => {},
                        Step::NormalToken(x) => {},
                        Step::MacroStackPop(x) => {},
                    }
                }
                assert(spec_dispatch_token(g_mid, root_macro_map@, g_t) == (match step_vw(
                    pending,
                ) {
                    SpecStep::MacroStackPop(_) => spec_dispatch_token(
                        resolver_vw(*self),
                        root_macro_map@,
                        g_t,
                    ),
                    SpecStep::NormalToken(i) => spec_push_body(resolver_vw(*self), i),
                    SpecStep::NewSegmentStarted => resolver_vw(*self),
                }));
            }
        }
        match pending {
            Step::NormalToken(it2) => {
                let ghost g_before = resolver_vw(*self);
                let ghost g_i = item_vw(it2);
                proof {
                    assert(ioms_vw(
                        self.current_macro.current_segment.body@.push(
                            ItemOrPartiallyMatchedMacro::SyntaxItem(it2),
                        ),
                    ) =~= ioms_vw(self.current_macro.current_segment.body@).push(
                        SpecItemOrMacro::Item(g_i),
                    ));
                }
                self.current_macro.current_segment.body.push(
                    ItemOrPartiallyMatchedMacro::SyntaxItem(it2),
                );
                proof {
                    assert(resolver_vw(*self) == spec_push_body(g_before, g_i));
                }
            },
            Step::NewSegmentStarted => {},
            Step::MacroStackPop(_) => {
                proof {
                    assert(false);
                }
            },
        }
    }

    /// Runs the resolver over the items, consuming them up to the first
    /// newline token, which joins no segment, and finalizes every open
    /// instance into one tree; suspended parents are resumed nearest first.
    ///
    /// A non-empty residue after closing the root would be an internal error;
    /// the root definition's pattern consumes everything, so the residue is
    /// empty and the tree alone is returned.
    #[verifier::rlimit(100)]
    pub fn run(self, root_macro_map: &SegmentMap, tokens: Vec<Item>) -> (r: Tree)
        ensures
            tree_vw(r) == spec_run_from(
                resolver_vw(self),
                root_macro_map@,
                items_vw(tokens@),
            ),
    {
        let ghost g_items0 = items_vw(tokens@);
        let mut this = self;
        let ghost g_state0 = resolver_vw(this);
        let cut = first_newline_cut(&tokens);
        proof {
            lemma_consume_stops_at_newline(g_state0, root_macro_map@, g_items0, cut as int);
        }
        let mut tokens = tokens;
        tokens.truncate(cut);
        let ghost g_work = items_vw(tokens@);
        proof {
            assert(g_work =~= g_items0.subrange(0, cut as int));
            assert(forall|j: int|
                0 <= j < g_work.len() ==> !spec_is_newline_item(#[trigger] g_work[j]));
        }
        let mut rev = reverse_vec(tokens);
        proof {
            assert(items_vw(rev@.reverse()) =~= g_work);
            assert(items_vw(rev@.reverse()) =~= g_work.skip(g_work.len() - rev@.len()));
        }
        while rev.len() > 0
            invariant
                rev@.len() <= g_work.len(),
                items_vw(rev@.reverse()) == g_work.skip(g_work.len() - rev@.len()),
                spec_consume(
                    resolver_vw(this),
                    root_macro_map@,
                    items_vw(rev@.reverse()),
                ) == spec_consume(g_state0, root_macro_map@, g_work),
            decreases rev@.len(),
        {
            let ghost g_rem = items_vw(rev@.reverse());
            let ghost g_state_pre = resolver_vw(this);
            let item = match rev.pop() {
                Some(x) => x,
                None => {
                    proof {
                        assert(false);
                    }
                    unreached()
                },
            };
            proof {
                assert(g_rem[0] == item_vw(item));
                assert(items_vw(rev@.reverse()) =~= g_rem.subrange(1, g_rem.len() as int));
                assert(items_vw(rev@.reverse()) =~= g_work.skip(g_work.len() - rev@.len()));
                assert(g_rem[0] == g_work[g_work.len() - g_rem.len()]);
                assert(!spec_is_newline_item(g_rem[0]));
            }
            match item {
                Item::Token(t) => {
                    this.dispatch_token(root_macro_map, t);
                    proof {
                        assert(resolver_vw(this) == spec_dispatch(
                            g_state_pre,
                            root_macro_map@,
                            g_rem[0],
                        ));
                    }
                },
                other => {
                    let ghost g_before = resolver_vw(this);
                    let ghost g_i = item_vw(other);
                    proof {
                        assert(!(g_i matches SpecItem::Token(_)));
                        assert(ioms_vw(
                            this.current_macro.current_segment.body@.push(
                                ItemOrPartiallyMatchedMacro::SyntaxItem(other),
                            ),
                        ) =~= ioms_vw(this.current_macro.current_segment.body@).push(
                            SpecItemOrMacro::Item(g_i),
                        ));
                    }
                    this.current_macro.current_segment.body.push(
                        ItemOrPartiallyMatchedMacro::SyntaxItem(other),
                    );
                    proof {
                        assert(resolver_vw(this) == spec_push_body(g_before, g_i));
                        assert(resolver_vw(this) == spec_dispatch(
                            g_before,
                            root_macro_map@,
                            g_rem[0],
                        ));
                    }
                },
            }
            proof {
                assert(spec_consume(g_state_pre, root_macro_map@, g_rem) == spec_consume(
                    resolver_vw(this),
                    root_macro_map@,
                    g_rem.subrange(1, g_rem.len() as int),
                ));
            }
        }
        proof {
            assert(items_vw(rev@.reverse()) =~= Seq::<SpecItem>::empty());
            assert(spec_consume(g_state0, root_macro_map@, g_items0) == resolver_vw(this));
        }
        let ghost g_consumed = resolver_vw(this);
        while this.macro_stack.len() > 0
            invariant
                spec_unwind(resolver_vw(this)) == spec_unwind(g_consumed),
            decreases this.macro_stack@.len(),
        {
            let ghost g_pre = resolver_vw(this);
            let parent = match this.macro_stack.pop() {
                Some(p) => p,
                None => {
                    proof {
                        assert(false);
                    }
                    unreached()
                },
            };
            proof {
                assert(pmm_vw(parent) == g_pre.stack.last());
                assert(pmms_vw(this.macro_stack@) =~= g_pre.stack.drop_last());
            }
            this.replace_current_with_parent_macro(parent);
            proof {
                assert(resolver_vw(this) == (SpecResolver {
                    current: spec_adopt(g_pre.stack.last(), g_pre.current),
                    stack: g_pre.stack.drop_last(),
                }));
            }
        }
        proof {
            assert(spec_unwind(resolver_vw(this)) == resolver_vw(this).current);
            assert(pmm_vw(this.current_macro) == spec_unwind(g_consumed));
        }
        let (tree, _rest) = resolve(this.current_macro, &root_macro_map.definitions);
        tree
    }
}

/// The index of the first newline item, or the length where there is none.
fn first_newline_cut(tokens: &Vec<Item>) -> (r: usize)
    ensures
        r <= tokens@.len(),
        forall|j: int| 0 <= j < r ==> !spec_is_newline_item(#[trigger] items_vw(tokens@)[j]),
        r < tokens@.len() ==> spec_is_newline_item(items_vw(tokens@)[r as int]),
{
    let ghost g_items0 = items_vw(tokens@);
    let mut cut: usize = 0;
    let mut found = false;
    while !found && cut < tokens.len()
        invariant
            cut <= tokens@.len(),
            forall|j: int| 0 <= j < cut ==> !spec_is_newline_item(#[trigger] g_items0[j]),
            found ==> cut < tokens@.len() && spec_is_newline_item(g_items0[cut as int]),
        decreases (if found { 0int } else { 1int }), tokens@.len() - cut,
    {
        let newline = match &tokens[cut] {
            Item::Token(t) => t.is_newline(),
            _ => false,
        };
        proof {
            assert(g_items0[cut as int] == item_vw(tokens@[cut as int]));
        }
        if newline {
            found = true;
        } else {
            cut = cut + 1;
        }
    }
    cut
}

/// How many segments an instance holds, the open one included.
pub open spec fn spec_seg_count(pm: SpecPartiallyMatchedMacro) -> int {
    pm.resolved_segments.len() as int + 1
}

/// The header of the instance's segment `i`, the open segment last.
pub open spec fn spec_header_at(pm: SpecPartiallyMatchedMacro, i: int) -> SpecToken {
    if 0 <= i < pm.resolved_segments.len() {
        pm.resolved_segments[i].header
    } else {
        pm.current_segment.header
    }
}

/// The flattened items of the instance's segment `i`: nested instances are
/// finalized, each into its tree followed by its unconsumed items.
pub open spec fn spec_flat_at(
    pm: SpecPartiallyMatchedMacro,
    defs: Seq<SpecDefinition>,
    i: int,
) -> Seq<SpecItem>
    decreases pm, 0nat,
{
    if 0 <= i < pm.resolved_segments.len() {
        spec_flatten_body(pm.resolved_segments[i].body, defs)
    } else {
        spec_flatten_body(pm.current_segment.body, defs)
    }
}

/// The instance's segments, flattened: each header with its flattened items.
pub open spec fn spec_flat_segments(
    pm: SpecPartiallyMatchedMacro,
    defs: Seq<SpecDefinition>,
) -> Seq<SpecUnmatchedSegment>
    decreases pm, 1nat,
{
    Seq::new(
        spec_seg_count(pm) as nat,
        |i: int|
            if 0 <= i < spec_seg_count(pm) {
                SpecUnmatchedSegment {
                    header: spec_header_at(pm, i),
                    body: spec_flat_at(pm, defs, i),
                }
            } else {
                arbitrary()
            },
    )
}

/// The pattern the matched definition assigns to segment `i`.  The root
/// definition's single segment consumes everything; an index past a
/// definition's segments falls back to the same, though a well-formed
/// instance never reaches it.
pub open spec fn spec_pattern_at(
    id: DefinitionId,
    defs: Seq<SpecDefinition>,
    i: int,
) -> SpecPattern {
    match id {
        DefinitionId::Root => SpecPattern::Everything,
        DefinitionId::Registered(d) => if (d as int) < defs.len() && i < defs[
            d as int
        ].segments.len() {
            defs[d as int].segments[i].pattern
        } else {
            SpecPattern::Everything
        },
    }
}

/// Flattened segment `i`'s pattern match: the match and how many of the
/// segment's items it consumed.
pub open spec fn spec_match_flat(
    flat: Seq<SpecUnmatchedSegment>,
    id: DefinitionId,
    defs: Seq<SpecDefinition>,
    i: int,
) -> (SpecMatch, nat) {
    spec_resolve(spec_pattern_at(id, defs, i), flat[i].body)
}

/// Whether every non-final segment's pattern consumed its items in full;
/// items left in a non-final segment are an unresolved-syntax condition.
pub open spec fn spec_ok_flat(
    flat: Seq<SpecUnmatchedSegment>,
    id: DefinitionId,
    defs: Seq<SpecDefinition>,
) -> bool {
    forall|i: int|
        0 <= i < flat.len() - 1 ==> (#[trigger] spec_match_flat(flat, id, defs, i)).1 == flat[
            i
        ].body.len()
}

/// The final segment's unconsumed items, handed to the enclosing context.
pub open spec fn spec_leftover_flat(
    flat: Seq<SpecUnmatchedSegment>,
    id: DefinitionId,
    defs: Seq<SpecDefinition>,
) -> Seq<SpecItem> {
    let last = flat.len() - 1;
    flat[last].body.skip(spec_match_flat(flat, id, defs, last).1 as int)
}

/// The matched segments handed to the definition's builder.
pub open spec fn spec_rsegs_flat(
    flat: Seq<SpecUnmatchedSegment>,
    id: DefinitionId,
    defs: Seq<SpecDefinition>,
) -> Seq<SpecResolvedSegment> {
    Seq::new(
        flat.len(),
        |i: int|
            if 0 <= i < flat.len() {
                SpecResolvedSegment {
                    header: flat[i].header,
                    result: spec_match_flat(flat, id, defs, i).0,
                }
            } else {
                arbitrary()
            },
    )
}

/// The segments of the unresolved-syntax node: each segment's items as its
/// pattern read them; the final segment's residue is the leftover and stays
/// out.
pub open spec fn spec_unmatched_flat(
    flat: Seq<SpecUnmatchedSegment>,
    id: DefinitionId,
    defs: Seq<SpecDefinition>,
) -> Seq<SpecUnmatchedSegment> {
    Seq::new(
        flat.len(),
        |i: int|
            if 0 <= i < flat.len() {
                SpecUnmatchedSegment {
                    header: flat[i].header,
                    body: spec_match_items(spec_match_flat(flat, id, defs, i).0) + (
                    if i < flat.len() - 1 {
                        flat[i].body.skip(spec_match_flat(flat, id, defs, i).1 as int)
                    } else {
                        Seq::empty()
                    }),
                }
            } else {
                arbitrary()
            },
    )
}

/// Flattened segments finalized into one tree plus the leftover.  With a
/// matched definition and clean non-final segments the definition's builder
/// makes the tree; items left in a non-final segment yield an error-carrying
/// unmatched node instead; with no matched definition at all, an
/// error-carrying unmatched node of the raw segments, leaving nothing over.
pub open spec fn spec_finalize_flat(
    flat: Seq<SpecUnmatchedSegment>,
    matched: Option<DefinitionId>,
    defs: Seq<SpecDefinition>,
) -> (SpecTree, Seq<SpecItem>) {
    match matched {
        None => (
        SpecTree {
            variant: SpecTreeVariant::Unmatched { segments: flat },
            error: Some("No definition fully matched the macro."@),
        },
        Seq::empty(),
        ),
        Some(id) => {
            if spec_ok_flat(flat, id, defs) {
                (
                    spec_apply_body(spec_def_builder(id, defs), spec_rsegs_flat(flat, id, defs)),
                    spec_leftover_flat(flat, id, defs),
                )
            } else {
                (
                    SpecTree {
                        variant: SpecTreeVariant::Unmatched {
                            segments: spec_unmatched_flat(flat, id, defs),
                        },
                        error: Some("Unexpected tokens in macro segment."@),
                    },
                    spec_leftover_flat(flat, id, defs),
                )
            }
        },
    }
}

/// An instance finalized: the tree it becomes and the final segment's
/// unconsumed items.
pub open spec fn spec_resolve_macro(
    pm: SpecPartiallyMatchedMacro,
    defs: Seq<SpecDefinition>,
) -> (SpecTree, Seq<SpecItem>)
    decreases pm, 2nat,
{
    spec_finalize_flat(spec_flat_segments(pm, defs), pm.matched_macro_def, defs)
}

/// A segment body flattened: plain items stay; each nested instance becomes
/// its finalized tree followed by the items its finalization did not
/// consume.
pub open spec fn spec_flatten_body(
    body: Seq<SpecItemOrMacro>,
    defs: Seq<SpecDefinition>,
) -> Seq<SpecItem>
    decreases body, 0nat,
{
    if body.len() == 0 {
        Seq::empty()
    } else {
        let rest = spec_flatten_body(body.subrange(1, body.len() as int), defs);
        match body[0] {
            SpecItemOrMacro::Item(i) => seq![i] + rest,
            SpecItemOrMacro::Macro(pm) => {
                let rm = spec_resolve_macro(pm, defs);
                (seq![SpecItem::Tree(rm.0)] + rm.1) + rest
            },
        }
    }
}

/// Matches each flattened segment's items against the definition's pattern
/// for its position: per segment, the header, the match, and the unconsumed
/// items.
fn match_segments(flat: Vec<UnmatchedSegment>, id: DefinitionId, definitions: &Vec<Definition>)
    -> (r: (Vec<Token>, Vec<Match>, Vec<Vec<Item>>))
    ensures
        ({
            let g_flat = unmatched_segs_vw(flat@);
            let g_defs = definitions_vw(definitions@);
            &&& r.0@.len() == flat@.len()
            &&& r.1@.len() == flat@.len()
            &&& r.2@.len() == flat@.len()
            &&& forall|i: int|
                0 <= i < flat@.len() ==> (#[trigger] r.0@[i])@ == g_flat[i].header
            &&& forall|i: int|
                0 <= i < flat@.len() ==> match_vw(#[trigger] r.1@[i]) == spec_match_flat(
                    g_flat,
                    id,
                    g_defs,
                    i,
                ).0
            &&& forall|i: int|
                0 <= i < flat@.len() ==> items_vw((#[trigger] r.2@[i])@) == g_flat[i].body.skip(
                    spec_match_flat(g_flat, id, g_defs, i).1 as int,
                )
        }),
{
    let ghost g_flat = unmatched_segs_vw(flat@);
    let ghost g_defs = definitions_vw(definitions@);
    let ghost g_vals = flat@;
    let root_pattern = Pattern::Everything;
    let mut hs: Vec<Token> = Vec::new();
    let mut ms: Vec<Match> = Vec::new();
    let mut rs: Vec<Vec<Item>> = Vec::new();
    let mut rest = flat;
    proof {
        assert(g_vals.skip(0) =~= g_vals);
    }
    while rest.len() > 0
        invariant
            hs@.len() == ms@.len(),
            ms@.len() == rs@.len(),
            hs@.len() + rest@.len() == g_vals.len(),
            rest@ == g_vals.skip(hs@.len() as int),
            forall|i: int|
                0 <= i < hs@.len() ==> (#[trigger] hs@[i])@ == g_flat[i].header,
            forall|i: int|
                0 <= i < ms@.len() ==> match_vw(#[trigger] ms@[i]) == spec_match_flat(
                    g_flat,
                    id,
                    g_defs,
                    i,
                ).0,
            forall|i: int|
                0 <= i < rs@.len() ==> items_vw((#[trigger] rs@[i])@) == g_flat[i].body.skip(
                    spec_match_flat(g_flat, id, g_defs, i).1 as int,
                ),
        decreases rest@.len(),
    {
        let ghost g_k = hs@.len() as int;
        let seg = rest.remove(0);
        proof {
            assert(rest@ =~= g_vals.skip(g_k + 1));
            assert(seg == g_vals[g_k]);
            assert(unmatched_seg_vw(seg) == g_flat[g_k]);
        }
        let UnmatchedSegment { header, body } = seg;
        let idx = hs.len();
        let pattern: &Pattern = match id {
            DefinitionId::Root => &root_pattern,
            DefinitionId::Registered(d) => {
                if d < definitions.len() && idx < definitions[d].segments.len() {
                    &definitions[d].segments[idx].pattern
                } else {
                    &root_pattern
                }
            },
        };
        proof {
            assert(pattern@ == spec_pattern_at(id, g_defs, g_k)) by {
                match id {
                    DefinitionId::Root => {},
                    DefinitionId::Registered(d) => {
                        if (d as int) < g_defs.len() {
                            assert(g_defs[d as int] == definitions@[d as int]@);
                        }
                    },
                }
            }
        }
        let (mtch, seg_rest) = pattern.resolve(body);
        hs.push(header);
        ms.push(mtch);
        rs.push(seg_rest);
    }
    (hs, ms, rs)
}

/// Whether every run but the last is empty.
fn all_but_last_empty(rs: &Vec<Vec<Item>>) -> (r: bool)
    ensures
        r == forall|i: int| 0 <= i < rs@.len() - 1 ==> (#[trigger] rs@[i])@.len() == 0,
{
    let mut ok = true;
    let mut j: usize = 0;
    while j < rs.len()
        invariant
            j <= rs@.len(),
            ok == forall|i: int|
                0 <= i < j && i < rs@.len() - 1 ==> (#[trigger] rs@[i])@.len() == 0,
        decreases rs@.len() - j,
    {
        let is_last = j + 1 == rs.len();
        let ghost g_ok_pre = ok;
        if !is_last && rs[j].len() > 0 {
            ok = false;
        }
        proof {
            if g_ok_pre && (j + 1 == rs@.len() || rs@[j as int]@.len() == 0) {
                assert(forall|i: int|
                    0 <= i < j + 1 && i < rs@.len() - 1 ==> (#[trigger] rs@[i])@.len() == 0);
            }
        }
        j = j + 1;
    }
    ok
}

/// Zips headers and matches into builder segments.
fn build_rsegs(hs: Vec<Token>, ms: Vec<Match>) -> (r: Vec<ResolvedSegment>)
    requires
        hs@.len() == ms@.len(),
    ensures
        r@.len() == hs@.len(),
        forall|i: int|
            0 <= i < r@.len() ==> (#[trigger] r@[i]).header == hs@[i] && r@[i].result == ms@[i],
{
    let ghost g_hs = hs@;
    let ghost g_ms = ms@;
    let mut out: Vec<ResolvedSegment> = Vec::new();
    let mut hs = hs;
    let mut ms = ms;
    proof {
        assert(g_hs.skip(0) =~= g_hs);
        assert(g_ms.skip(0) =~= g_ms);
    }
    while hs.len() > 0
        invariant
            hs@.len() == ms@.len(),
            hs@ == g_hs.skip(out@.len() as int),
            ms@ == g_ms.skip(out@.len() as int),
            out@.len() + hs@.len() == g_hs.len(),
            forall|i: int|
                0 <= i < out@.len() ==> (#[trigger] out@[i]).header == g_hs[i]
                    && out@[i].result == g_ms[i],
        decreases hs@.len(),
    {
        let ghost g_t = out@.len() as int;
        let header = hs.remove(0);
        let result = ms.remove(0);
        proof {
            assert(hs@ =~= g_hs.skip(g_t + 1));
            assert(ms@ =~= g_ms.skip(g_t + 1));
            assert(header == g_hs[g_t]);
            assert(result == g_ms[g_t]);
        }
        out.push(ResolvedSegment { header, result });
    }
    out
}

/// Rebuilds the raw view of each segment for the unresolved-syntax node: the
/// items its match consumed followed by its residue; the final segment's
/// residue is the leftover and is handed back separately.
fn build_unmatched(hs: Vec<Token>, ms: Vec<Match>, rs: Vec<Vec<Item>>) -> (r: Vec<
    UnmatchedSegment,
>)
    requires
        hs@.len() == ms@.len(),
        rs@.len() + 1 == hs@.len(),
    ensures
        r@.len() == hs@.len(),
        forall|i: int|
            0 <= i < r@.len() ==> unmatched_seg_vw(#[trigger] r@[i]) == (SpecUnmatchedSegment {
                header: hs@[i]@,
                body: spec_match_items(match_vw(ms@[i])) + (if i < rs@.len() {
                    items_vw(rs@[i]@)
                } else {
                    Seq::empty()
                }),
            }),
{
    let ghost g_hs = hs@;
    let ghost g_ms = ms@;
    let ghost g_rs = rs@;
    let mut out: Vec<UnmatchedSegment> = Vec::new();
    let mut hs = hs;
    let mut ms = ms;
    let mut rs = rs;
    proof {
        assert(g_hs.skip(0) =~= g_hs);
        assert(g_ms.skip(0) =~= g_ms);
        assert(g_rs.skip(0) =~= g_rs);
    }
    while hs.len() > 0
        invariant
            hs@.len() == ms@.len(),
            hs@ == g_hs.skip(out@.len() as int),
            ms@ == g_ms.skip(out@.len() as int),
            out@.len() + hs@.len() == g_hs.len(),
            g_rs.len() + 1 == g_hs.len(),
            rs@ == (if out@.len() < g_rs.len() {
                g_rs.skip(out@.len() as int)
            } else {
                Seq::<Vec<Item>>::empty()
            }),
            forall|i: int|
                0 <= i < out@.len() ==> unmatched_seg_vw(#[trigger] out@[i]) == (
                SpecUnmatchedSegment {
                    header: g_hs[i]@,
                    body: spec_match_items(match_vw(g_ms[i])) + (if i < g_rs.len() {
                        items_vw(g_rs[i]@)
                    } else {
                        Seq::empty()
                    }),
                }),
        decreases hs@.len(),
    {
        let ghost g_t = out@.len() as int;
        let header = hs.remove(0);
        let result = ms.remove(0);
        proof {
            assert(hs@ =~= g_hs.skip(g_t + 1));
            assert(ms@ =~= g_ms.skip(g_t + 1));
            assert(header == g_hs[g_t]);
            assert(result == g_ms[g_t]);
        }
        let mut body = result.tokens();
        if rs.len() > 0 {
            let mut r0 = rs.remove(0);
            proof {
                assert(r0 == g_rs[g_t]);
                assert(rs@ =~= (if g_t + 1 < g_rs.len() {
                    g_rs.skip(g_t + 1)
                } else {
                    Seq::<Vec<Item>>::empty()
                }));
                assert(items_vw(body@ + r0@) =~= items_vw(body@) + items_vw(r0@));
            }
            body.append(&mut r0);
        } else {
            proof {
                assert(items_vw(body@) + Seq::<SpecItem>::empty() =~= items_vw(body@));
            }
        }
        out.push(UnmatchedSegment { header, body });
    }
    out
}

/// Finalizes one macro instance, per [`spec_resolve_macro`]: flattens its
/// segments, recursively finalizing nested instances and threading their
/// leftovers into the enclosing segment, validates each segment's items
/// against the matched definition's patterns, and hands the matches to the
/// definition's builder.  The second result is the final segment's unconsumed
/// items, which belong to the caller's context.  An instance no definition
/// fully matched, or one with items left in a non-final segment, becomes an
/// error-carrying unmatched node instead.
#[verifier::rlimit(100)]
fn resolve(m: PartiallyMatchedMacro, definitions: &Vec<Definition>) -> (r: (Tree, Vec<Item>))
    ensures
        ({
            let out = spec_resolve_macro(pmm_vw(m), definitions_vw(definitions@));
            &&& tree_vw(r.0) == out.0
            &&& items_vw(r.1@) == out.1
        }),
    decreases m,
{
    let ghost g_m = m;
    let ghost g_pm = pmm_vw(m);
    let ghost g_defs = definitions_vw(definitions@);
    let ghost g_count = spec_seg_count(g_pm);
    let PartiallyMatchedMacro {
        current_segment,
        resolved_segments,
        possible_next_segments: _,
        matched_macro_def,
    } = m;
    let ghost g_resolved0 = resolved_segments;
    let mut flat: Vec<UnmatchedSegment> = Vec::new();
    let mut rest_segs = resolved_segments;
    proof {
        assert(g_resolved0@.skip(0) =~= g_resolved0@);
    }
    while rest_segs.len() > 0
        invariant
            rest_segs@ == g_resolved0@.skip(g_resolved0@.len() - rest_segs@.len()),
            rest_segs@.len() <= g_resolved0@.len(),
            flat@.len() + rest_segs@.len() == g_resolved0@.len(),
            forall|j: int|
                0 <= j < flat@.len() ==> (#[trigger] flat@[j]).header@ == spec_header_at(
                    g_pm,
                    j,
                ) && items_vw(flat@[j].body@) == spec_flat_at(g_pm, g_defs, j),
        decreases rest_segs@.len(),
    {
        let ghost g_idx = flat@.len() as int;
        let seg = rest_segs.remove(0);
        proof {
            assert(rest_segs@ =~= g_resolved0@.skip(g_resolved0@.len() - rest_segs@.len()));
            assert(seg == g_resolved0@[g_idx]);
            assert(decreases_to!(g_m => g_resolved0));
            assert(decreases_to!(g_resolved0@ => seg));
            assert(decreases_to!(g_m => seg.body));
            assert(g_pm.resolved_segments[g_idx] == matched_segment_vw(seg));
        }
        let MatchedSegment { header, body } = seg;
        let items = flatten_body(body, definitions);
        let u = UnmatchedSegment { header, body: items };
        proof {
            assert(u.header@ == spec_header_at(g_pm, g_idx));
            assert(items_vw(u.body@) == spec_flat_at(g_pm, g_defs, g_idx));
        }
        flat.push(u);
    }
    proof {
        assert(decreases_to!(g_m => g_m.current_segment.body));
        assert(g_pm.current_segment == matched_segment_vw(current_segment));
    }
    let ghost g_last = flat@.len() as int;
    let MatchedSegment { header, body } = current_segment;
    let items = flatten_body(body, definitions);
    let u = UnmatchedSegment { header, body: items };
    proof {
        assert(u.header@ == spec_header_at(g_pm, g_last));
        assert(items_vw(u.body@) == spec_flat_at(g_pm, g_defs, g_last));
    }
    flat.push(u);
    let ghost g_flat = unmatched_segs_vw(flat@);
    proof {
        assert(flat@.len() == g_count);
        assert(g_pm.matched_macro_def == matched_macro_def);
        assert(g_flat =~= spec_flat_segments(g_pm, g_defs));
    }
    match matched_macro_def {
        None => {
            proof {
                assert(items_vw(Seq::<Item>::empty()) =~= Seq::<SpecItem>::empty());
            }
            let t = Tree::plain(TreeVariant::Unmatched { segments: flat });
            (t.with_error("No definition fully matched the macro."), Vec::new())
        },
        Some(id) => {
            let (hs, ms, mut rs) = match_segments(flat, id, definitions);
            let ok = all_but_last_empty(&rs);
            proof {
                assert(ok == spec_ok_flat(g_flat, id, g_defs)) by {
                    if ok {
                        assert forall|i: int| 0 <= i < g_flat.len() - 1 implies (
                        #[trigger] spec_match_flat(g_flat, id, g_defs, i)).1 == g_flat[
                            i
                        ].body.len() by {
                            crate::pattern::lemma_spec_resolve_consumed(
                                spec_pattern_at(id, g_defs, i),
                                g_flat[i].body,
                            );
                            assert(rs@[i]@.len() == 0);
                            assert(items_vw(rs@[i]@).len() == 0);
                        }
                    } else {
                        let i = choose|i: int|
                            0 <= i < rs@.len() - 1 && (#[trigger] rs@[i])@.len() != 0;
                        crate::pattern::lemma_spec_resolve_consumed(
                            spec_pattern_at(id, g_defs, i),
                            g_flat[i].body,
                        );
                        assert(items_vw(rs@[i]@).len() != 0);
                        assert(spec_match_flat(g_flat, id, g_defs, i).1 != g_flat[
                            i
                        ].body.len());
                    }
                }
            }
            let ghost g_rs_full = rs@;
            let leftover = match rs.pop() {
                Some(v) => v,
                None => {
                    proof {
                        assert(false);
                    }
                    unreached()
                },
            };
            proof {
                assert(leftover == g_rs_full[g_count - 1]);
                assert(items_vw(leftover@) == spec_leftover_flat(g_flat, id, g_defs));
                assert(rs@ =~= g_rs_full.drop_last());
            }
            if ok {
                let builder = match id {
                    DefinitionId::Root => BodyBuilder::Root,
                    DefinitionId::Registered(d) => {
                        if d < definitions.len() {
                            definitions[d].body
                        } else {
                            BodyBuilder::MultiSegmentApp
                        }
                    },
                };
                proof {
                    assert(builder == spec_def_builder(id, g_defs)) by {
                        match id {
                            DefinitionId::Root => {},
                            DefinitionId::Registered(d) => {
                                if (d as int) < g_defs.len() {
                                    assert(g_defs[d as int] == definitions@[d as int]@);
                                }
                            },
                        }
                    }
                }
                let ghost g_hs = hs@;
                let ghost g_ms = ms@;
                let rsegs = build_rsegs(hs, ms);
                proof {
                    assert(rsegs_vw(rsegs@) =~= spec_rsegs_flat(g_flat, id, g_defs));
                }
                (apply_body(builder, rsegs), leftover)
            } else {
                let ghost g_hs = hs@;
                let ghost g_ms = ms@;
                let segs = build_unmatched(hs, ms, rs);
                proof {
                    assert(unmatched_segs_vw(segs@) =~= spec_unmatched_flat(
                        g_flat,
                        id,
                        g_defs,
                    ));
                }
                let t = Tree::plain(TreeVariant::Unmatched { segments: segs });
                (t.with_error("Unexpected tokens in macro segment."), leftover)
            }
        },
    }
}

/// Flattens a segment body, per [`spec_flatten_body`]: plain items stay; each
/// nested instance is finalized into a tree followed by the items it did not
/// consume.
fn flatten_body(body: Vec<ItemOrPartiallyMatchedMacro>, definitions: &Vec<Definition>) -> (r:
    Vec<Item>)
    ensures
        items_vw(r@) == spec_flatten_body(ioms_vw(body@), definitions_vw(definitions@)),
    decreases body,
{
    let ghost g_body0 = body;
    let ghost g_ioms0 = ioms_vw(body@);
    let ghost g_defs = definitions_vw(definitions@);
    let mut out: Vec<Item> = Vec::new();
    let mut rest = body;
    proof {
        assert(g_body0@.skip(0) =~= g_body0@);
        assert(items_vw(out@) =~= Seq::<SpecItem>::empty());
        assert(Seq::<SpecItem>::empty() + spec_flatten_body(g_ioms0, g_defs) =~= (
        spec_flatten_body(g_ioms0, g_defs)));
    }
    while rest.len() > 0
        invariant
            rest@ == g_body0@.skip(g_body0@.len() - rest@.len()),
            rest@.len() <= g_body0@.len(),
            items_vw(out@) + spec_flatten_body(ioms_vw(rest@), g_defs) == spec_flatten_body(
                g_ioms0,
                g_defs,
            ),
        decreases rest@.len(),
    {
        let ghost g_rem = ioms_vw(rest@);
        let ghost g_out_pre = items_vw(out@);
        let element = rest.remove(0);
        proof {
            assert(rest@ =~= g_body0@.skip(g_body0@.len() - rest@.len()));
            assert(element == g_body0@[g_body0@.len() - rest@.len() - 1]);
            assert(decreases_to!(g_body0@ => element));
            assert(decreases_to!(g_body0 => element));
            assert(g_rem[0] == iom_vw(element));
            assert(ioms_vw(rest@) =~= g_rem.subrange(1, g_rem.len() as int));
        }
        match element {
            ItemOrPartiallyMatchedMacro::SyntaxItem(i) => {
                proof {
                    assert(items_vw(out@.push(i)) =~= g_out_pre.push(item_vw(i)));
                    assert(g_out_pre.push(item_vw(i)) + spec_flatten_body(
                        ioms_vw(rest@),
                        g_defs,
                    ) =~= g_out_pre + (seq![item_vw(i)] + spec_flatten_body(
                        ioms_vw(rest@),
                        g_defs,
                    )));
                }
                out.push(i);
            },
            ItemOrPartiallyMatchedMacro::PartiallyMatchedMacro(pm) => {
                let ghost g_pm = pmm_vw(pm);
                let (tree, mut unused) = resolve(pm, definitions);
                let item = Item::Tree(tree);
                proof {
                    assert(items_vw(out@.push(item)) =~= g_out_pre.push(item_vw(item)));
                }
                out.push(item);
                proof {
                    assert(items_vw(out@ + unused@) =~= items_vw(out@) + items_vw(unused@));
                }
                out.append(&mut unused);
                proof {
                    let rm = spec_resolve_macro(g_pm, g_defs);
                    assert(items_vw(out@) =~= g_out_pre + (seq![SpecItem::Tree(rm.0)] + rm.1));
                    assert(items_vw(out@) + spec_flatten_body(ioms_vw(rest@), g_defs) =~= (
                    g_out_pre + ((seq![SpecItem::Tree(rm.0)] + rm.1) + spec_flatten_body(
                        ioms_vw(rest@),
                        g_defs,
                    ))));
                }
            },
        }
    }
    proof {
        assert(ioms_vw(rest@) =~= Seq::<SpecItemOrMacro>::empty());
        assert(items_vw(out@) + Seq::<SpecItem>::empty() =~= items_vw(out@));
    }
    out
}

} // verus!

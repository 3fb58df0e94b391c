//! Laws of the resolver, stated over its specification model and proved for
//! every input: what registration does to the registry, and what whole runs
//! return — the newline boundary, header-free pass-through to operator
//! resolution, and the full match of a fed header sequence.

use vstd::prelude::*;

use crate::builders::spec_apply_body;
use crate::definition::DefinitionId;
use crate::definition::SpecDefinition;
use crate::operator::spec_is_newline_item;
use crate::operator::spec_opr_resolve;
use crate::pattern::SpecPattern;
use crate::pattern::spec_match_items;
use crate::resolver::SpecItemOrMacro;
use crate::resolver::SpecMatchedSegment;
use crate::resolver::SpecPartiallyMatchedMacro;
use crate::resolver::SpecResolver;
use crate::resolver::SpecStep;
use crate::resolver::spec_consume;
use crate::resolver::spec_move;
use crate::resolver::spec_move_fold;
use crate::resolver::spec_move_step;
use crate::resolver::spec_dispatch;
use crate::resolver::spec_empty_segment_map;
use crate::resolver::spec_flat_segments;
use crate::resolver::spec_flatten_body;
use crate::resolver::spec_process_token;
use crate::resolver::spec_push_body;
use crate::resolver::spec_reserved;
use crate::resolver::spec_resolve_macro;
use crate::resolver::spec_root_pmm;
use crate::resolver::spec_root_state;
use crate::resolver::spec_run_from;
use crate::resolver::spec_unwind;
use crate::syntax::SpecItem;
use crate::syntax::SpecTree;
use crate::syntax::SpecTreeVariant;
use crate::resolver::SegmentEntry;
use crate::resolver::SpecHeaderGroup;
use crate::resolver::SpecSegmentMap;
use crate::resolver::spec_add_entry;
use crate::resolver::spec_lookup;
use crate::resolver::spec_register;
use crate::resolver::spec_register_seq;

verus! {

/// Filing an entry under a header extends exactly that header's entry list,
/// and leaves what every other header maps to unchanged.
pub proof fn lemma_add_entry_lookup(groups: Seq<SpecHeaderGroup>, h: Seq<char>, e: SegmentEntry)
    ensures
        spec_lookup(spec_add_entry(groups, h, e), h) == Some(
            match spec_lookup(groups, h) {
                Some(es) => es.push(e),
                None => seq![e],
            },
        ),
        forall|c: Seq<char>|
            c != h ==> #[trigger] spec_lookup(spec_add_entry(groups, h, e), c) == spec_lookup(
                groups,
                c,
            ),
    decreases groups.len(),
{
    let after = spec_add_entry(groups, h, e);
    if groups.len() == 0 {
        assert(after =~= seq![SpecHeaderGroup { header: h, entries: seq![e] }]);
        assert(after.subrange(1, after.len() as int) =~= Seq::<SpecHeaderGroup>::empty());
        assert forall|c: Seq<char>| c != h implies #[trigger] spec_lookup(after, c)
            == spec_lookup(groups, c) by {
            assert(spec_lookup(after.subrange(1, after.len() as int), c) is None);
        }
    } else if groups[0].header == h {
        assert(after.subrange(1, after.len() as int) =~= groups.subrange(
            1,
            groups.len() as int,
        ));
        assert forall|c: Seq<char>| c != h implies #[trigger] spec_lookup(after, c)
            == spec_lookup(groups, c) by {
            assert(after[0].header == h);
        }
    } else {
        let rest = groups.subrange(1, groups.len() as int);
        lemma_add_entry_lookup(rest, h, e);
        assert(after =~= seq![groups[0]] + spec_add_entry(rest, h, e));
        assert(after.subrange(1, after.len() as int) =~= spec_add_entry(rest, h, e));
        assert forall|c: Seq<char>| c != h implies #[trigger] spec_lookup(after, c)
            == spec_lookup(groups, c) by {
            assert(after[0] == groups[0]);
            if groups[0].header != c {
                assert(spec_lookup(after, c) == spec_lookup(spec_add_entry(rest, h, e), c));
                assert(spec_lookup(groups, c) == spec_lookup(rest, c));
            }
        }
    }
}

/// Registration is append-only: a new definition extends the arena without
/// touching the definitions already registered, appends one entry under its
/// own first header, and leaves the entries of every other header unchanged.
/// Resolution consults the registry only through those lookups, so a
/// registration cannot disturb macros built on other headers.
pub proof fn lemma_register_append_only(m: SpecSegmentMap, d: SpecDefinition)
    ensures
        spec_register(m, d).definitions == m.definitions.push(d),
        spec_lookup(spec_register(m, d).groups, d.segments[0].header) == Some(
            match spec_lookup(m.groups, d.segments[0].header) {
                Some(es) => es.push(
                    SegmentEntry { definition: m.definitions.len() as usize, next_segment: 1 },
                ),
                None => seq![
                    SegmentEntry { definition: m.definitions.len() as usize, next_segment: 1 },
                ],
            },
        ),
        forall|c: Seq<char>|
            c != d.segments[0].header ==> #[trigger] spec_lookup(
                spec_register(m, d).groups,
                c,
            ) == spec_lookup(m.groups, c),
{
    lemma_add_entry_lookup(
        m.groups,
        d.segments[0].header,
        SegmentEntry { definition: m.definitions.len() as usize, next_segment: 1 },
    );
}

/// Registering one run of definitions after another is registering their
/// concatenation.
pub proof fn lemma_register_seq_concat(
    m: SpecSegmentMap,
    a: Seq<SpecDefinition>,
    b: Seq<SpecDefinition>,
)
    ensures
        spec_register_seq(m, a + b) == spec_register_seq(spec_register_seq(m, a), b),
    decreases b.len(),
{
    if b.len() == 0 {
        assert(a + b =~= a);
    } else {
        lemma_register_seq_concat(m, a, b.drop_last());
        assert((a + b).drop_last() =~= a + b.drop_last());
        assert((a + b).last() == b.last());
    }
}

/// Plain items wrapped as segment-body content.
pub open spec fn spec_items_as_content(items: Seq<SpecItem>) -> Seq<SpecItemOrMacro> {
    Seq::new(
        items.len(),
        |j: int|
            if 0 <= j < items.len() {
                SpecItemOrMacro::Item(items[j])
            } else {
                arbitrary()
            },
    )
}

/// The root instance with the given content in its one open segment, no
/// parent suspended.
pub open spec fn spec_root_with_body(b: Seq<SpecItemOrMacro>) -> SpecResolver {
    SpecResolver {
        current: SpecPartiallyMatchedMacro {
            current_segment: SpecMatchedSegment {
                header: spec_root_pmm().current_segment.header,
                body: b,
            },
            resolved_segments: Seq::empty(),
            possible_next_segments: Seq::empty(),
            matched_macro_def: Some(DefinitionId::Root),
        },
        stack: Seq::empty(),
    }
}

/// No item is a newline, and no token's text is registered as a header.
pub open spec fn spec_headerless(m: SpecSegmentMap, items: Seq<SpecItem>) -> bool {
    forall|j: int|
        0 <= j < items.len() ==> !spec_is_newline_item(#[trigger] items[j]) && (items[j]
            matches SpecItem::Token(t) ==> spec_lookup(m.groups, t.code) is None)
}

/// Header-free items are consumed as plain content of the root's one
/// segment, in order.
proof fn lemma_consume_headerless(
    m: SpecSegmentMap,
    b: Seq<SpecItemOrMacro>,
    items: Seq<SpecItem>,
)
    requires
        spec_headerless(m, items),
    ensures
        spec_consume(spec_root_with_body(b), m, items) == spec_root_with_body(
            b + spec_items_as_content(items),
        ),
    decreases items.len(),
{
    if items.len() == 0 {
        assert(b + spec_items_as_content(items) =~= b);
        assert(spec_root_with_body(b + spec_items_as_content(items)) == spec_root_with_body(
            b,
        ));
    } else {
        let state = spec_root_with_body(b);
        let rest = items.subrange(1, items.len() as int);
        assert(!spec_is_newline_item(items[0]));
        let b2 = b.push(SpecItemOrMacro::Item(items[0]));
        assert(spec_dispatch(state, m, items[0]) == spec_root_with_body(b2)) by {
            assert(spec_lookup(state.current.possible_next_segments, (match items[0] {
                SpecItem::Token(t) => t,
                _ => arbitrary(),
            }).code) is None);
            assert(!spec_reserved(state.stack, (match items[0] {
                SpecItem::Token(t) => t,
                _ => arbitrary(),
            }).code));
            match items[0] {
                SpecItem::Token(t) => {
                    assert(spec_lookup(m.groups, t.code) is None);
                    assert(spec_process_token(state, m, t) == (
                    state,
                    crate::resolver::SpecStep::NormalToken(SpecItem::Token(t)),
                    ));
                    assert(spec_push_body(state, SpecItem::Token(t)) == spec_root_with_body(
                        b2,
                    ));
                },
                _ => {
                    assert(spec_push_body(state, items[0]) == spec_root_with_body(b2));
                },
            }
        }
        assert(forall|j: int|
            0 <= j < rest.len() ==> !spec_is_newline_item(#[trigger] rest[j]) && (rest[j]
                matches SpecItem::Token(t) ==> spec_lookup(m.groups, t.code) is None));
        lemma_consume_headerless(m, b2, rest);
        assert(b2 + spec_items_as_content(rest) =~= b + spec_items_as_content(items));
    }
}

/// Flattening plain content is the identity: there is no nested instance to
/// finalize.
proof fn lemma_flatten_content(items: Seq<SpecItem>, defs: Seq<SpecDefinition>)
    ensures
        spec_flatten_body(spec_items_as_content(items), defs) == items,
    decreases items.len(),
{
    let content = spec_items_as_content(items);
    if items.len() == 0 {
        assert(spec_flatten_body(content, defs) =~= items);
    } else {
        let rest = items.subrange(1, items.len() as int);
        assert(content.subrange(1, content.len() as int) =~= spec_items_as_content(rest));
        lemma_flatten_content(rest, defs);
        assert(content[0] == SpecItemOrMacro::Item(items[0]));
        assert(seq![items[0]] + rest =~= items);
    }
}

/// Input containing no registered header resolves as a single root segment
/// passed whole, in order, to operator resolution.
pub proof fn lemma_run_without_headers(m: SpecSegmentMap, items: Seq<SpecItem>)
    requires
        spec_headerless(m, items),
    ensures
        spec_run_from(spec_root_state(), m, items) == (match spec_opr_resolve(items) {
            Some(t) => t,
            None => SpecTree {
                variant: SpecTreeVariant::Unmatched { segments: Seq::empty() },
                error: None,
            },
        }),
{
    assert(spec_root_state() == spec_root_with_body(Seq::empty()));
    lemma_consume_headerless(m, Seq::empty(), items);
    let content = Seq::<SpecItemOrMacro>::empty() + spec_items_as_content(items);
    assert(content =~= spec_items_as_content(items));
    let done = spec_root_with_body(content);
    assert(spec_consume(spec_root_state(), m, items) == done);
    assert(spec_unwind(done) == done.current);
    let pm = done.current;
    lemma_flatten_content(items, m.definitions);
    let flat = spec_flat_segments(pm, m.definitions);
    assert(flat.len() == 1);
    assert(flat[0].body == items);
    let mtch = crate::resolver::spec_match_flat(flat, DefinitionId::Root, m.definitions, 0);
    assert(mtch.0 == crate::pattern::SpecMatch::Everything(items));
    assert(crate::resolver::spec_ok_flat(flat, DefinitionId::Root, m.definitions));
    assert(crate::resolver::spec_leftover_flat(flat, DefinitionId::Root, m.definitions)
        =~= Seq::<SpecItem>::empty());
    let rsegs = crate::resolver::spec_rsegs_flat(flat, DefinitionId::Root, m.definitions);
    assert(rsegs.len() == 1);
    assert(spec_match_items(rsegs[0].result) == items);
    assert(crate::builders::spec_root_tree(rsegs) == (match spec_opr_resolve(items) {
        Some(t) => t,
        None => SpecTree {
            variant: SpecTreeVariant::Unmatched { segments: Seq::empty() },
            error: None,
        },
    }));
    assert(spec_resolve_macro(pm, m.definitions).0 == spec_apply_body(
        crate::definition::spec_def_builder(DefinitionId::Root, m.definitions),
        rsegs,
    ));
}

/// Consumption never looks past the first newline, stated of the whole run.
pub proof fn lemma_run_stops_at_newline(
    state: SpecResolver,
    m: SpecSegmentMap,
    items: Seq<SpecItem>,
    k: int,
)
    requires
        0 <= k <= items.len(),
        forall|j: int| 0 <= j < k ==> !spec_is_newline_item(#[trigger] items[j]),
        k < items.len() ==> spec_is_newline_item(items[k]),
    ensures
        spec_run_from(state, m, items) == spec_run_from(state, m, items.subrange(0, k)),
{
    crate::resolver::lemma_consume_stops_at_newline(state, m, items, k);
}

/// A continuation entry as it stands at a given depth of a macro instance:
/// it points into the arena, its segment index is the depth, and its
/// definition has at least that many segments.
pub open spec fn spec_entry_wf(e: SegmentEntry, depth: int, defs: Seq<SpecDefinition>) -> bool {
    &&& (e.definition as int) < defs.len()
    &&& e.next_segment as int == depth
    &&& depth <= defs[e.definition as int].segments.len()
}

pub open spec fn spec_groups_wf(
    groups: Seq<SpecHeaderGroup>,
    depth: int,
    defs: Seq<SpecDefinition>,
) -> bool {
    forall|g: int, k: int|
        0 <= g < groups.len() && 0 <= k < groups[g].entries.len() ==> spec_entry_wf(
            #[trigger] groups[g].entries[k],
            depth,
            defs,
        )
}

/// Whether the entries filed under a header include the given one.
pub open spec fn spec_lookup_contains(
    groups: Seq<SpecHeaderGroup>,
    h: Seq<char>,
    e: SegmentEntry,
) -> bool {
    match spec_lookup(groups, h) {
        Some(es) => es.contains(e),
        None => false,
    }
}

/// What a lookup hands out is one group's entry list, so it inherits the
/// groups' well-formedness.
pub proof fn lemma_lookup_entries_wf(
    groups: Seq<SpecHeaderGroup>,
    h: Seq<char>,
    depth: int,
    defs: Seq<SpecDefinition>,
)
    requires
        spec_groups_wf(groups, depth, defs),
    ensures
        spec_lookup(groups, h) matches Some(es) ==> forall|k: int|
            0 <= k < es.len() ==> spec_entry_wf(#[trigger] es[k], depth, defs),
    decreases groups.len(),
{
    if groups.len() > 0 && groups[0].header != h {
        let rest = groups.subrange(1, groups.len() as int);
        assert(spec_groups_wf(rest, depth, defs)) by {
            assert(forall|g: int, k: int|
                0 <= g < rest.len() && 0 <= k < rest[g].entries.len() ==> rest[g]
                    == groups[g + 1] && spec_entry_wf(
                    #[trigger] rest[g].entries[k],
                    depth,
                    defs,
                ));
        }
        lemma_lookup_entries_wf(rest, h, depth, defs);
    }
}

/// Filing a well-formed entry keeps the groups well-formed.
pub proof fn lemma_add_entry_wf(
    groups: Seq<SpecHeaderGroup>,
    h: Seq<char>,
    e: SegmentEntry,
    depth: int,
    defs: Seq<SpecDefinition>,
)
    requires
        spec_groups_wf(groups, depth, defs),
        spec_entry_wf(e, depth, defs),
    ensures
        spec_groups_wf(spec_add_entry(groups, h, e), depth, defs),
    decreases groups.len(),
{
    let after = spec_add_entry(groups, h, e);
    if groups.len() == 0 {
        assert(after =~= seq![SpecHeaderGroup { header: h, entries: seq![e] }]);
        assert(forall|g: int, k: int|
            0 <= g < after.len() && 0 <= k < after[g].entries.len() ==> spec_entry_wf(
                #[trigger] after[g].entries[k],
                depth,
                defs,
            ));
    } else if groups[0].header == h {
        assert(forall|g: int, k: int|
            0 <= g < after.len() && 0 <= k < after[g].entries.len() ==> spec_entry_wf(
                #[trigger] after[g].entries[k],
                depth,
                defs,
            )) by {
            assert(forall|k: int|
                0 <= k < groups[0].entries.len() ==> spec_entry_wf(
                    #[trigger] groups[0].entries[k],
                    depth,
                    defs,
                ));
            assert(forall|g: int|
                1 <= g < after.len() ==> after[g] == groups.subrange(
                    1,
                    groups.len() as int,
                )[g - 1] && after[g] == groups[g]);
        }
    } else {
        let rest = groups.subrange(1, groups.len() as int);
        assert(spec_groups_wf(rest, depth, defs)) by {
            assert(forall|g: int, k: int|
                0 <= g < rest.len() && 0 <= k < rest[g].entries.len() ==> rest[g]
                    == groups[g + 1] && spec_entry_wf(
                    #[trigger] rest[g].entries[k],
                    depth,
                    defs,
                ));
        }
        lemma_add_entry_wf(rest, h, e, depth, defs);
        assert(after =~= seq![groups[0]] + spec_add_entry(rest, h, e));
        assert(forall|g: int, k: int|
            0 <= g < after.len() && 0 <= k < after[g].entries.len() ==> spec_entry_wf(
                #[trigger] after[g].entries[k],
                depth,
                defs,
            )) by {
            assert(forall|g: int|
                1 <= g < after.len() ==> after[g] == spec_add_entry(rest, h, e)[g - 1]);
        }
    }
}

/// Filing an entry never removes one already filed.
pub proof fn lemma_add_entry_monotone(
    groups: Seq<SpecHeaderGroup>,
    h: Seq<char>,
    e: SegmentEntry,
    h2: Seq<char>,
    e2: SegmentEntry,
)
    requires
        spec_lookup_contains(groups, h2, e2),
    ensures
        spec_lookup_contains(spec_add_entry(groups, h, e), h2, e2),
{
    lemma_add_entry_lookup(groups, h, e);
    if h2 == h {
        match spec_lookup(groups, h) {
            Some(es) => {
                assert(es.push(e).contains(e2)) by {
                    let k = choose|k: int| 0 <= k < es.len() && es[k] == e2;
                    assert(es.push(e)[k] == e2);
                }
            },
            None => {},
        }
    }
}

/// The candidate recomputation, stepwise: entries at one depth yield
/// continuations one deeper, a recorded definition is exactly as long as the
/// depth, any completed entry forces a record, and nothing already filed is
/// lost.
pub proof fn lemma_move_fold_wf(
    state: (Option<DefinitionId>, Seq<SpecHeaderGroup>),
    entries: Seq<SegmentEntry>,
    defs: Seq<SpecDefinition>,
    depth: int,
)
    requires
        depth < usize::MAX,
        forall|k: int| 0 <= k < entries.len() ==> spec_entry_wf(#[trigger] entries[k], depth, defs),
        spec_groups_wf(state.1, depth + 1, defs),
        state.0 matches Some(id) ==> (id matches DefinitionId::Registered(j) && 0 <= (
        j as int) < defs.len() && defs[j as int].segments.len() == depth),
    ensures
        ({
            let out = spec_move_fold(state, entries, defs);
            &&& spec_groups_wf(out.1, depth + 1, defs)
            &&& (out.0 matches Some(id) ==> (id matches DefinitionId::Registered(j) && 0 <= (
            j as int) < defs.len() && defs[j as int].segments.len() == depth))
            &&& forall|h2: Seq<char>, e2: SegmentEntry|
                spec_lookup_contains(state.1, h2, e2) ==> spec_lookup_contains(
                    #[trigger] out.1,
                    h2,
                    e2,
                )
            &&& forall|k: int|
                0 <= k < entries.len() && (#[trigger] entries[k].next_segment as int) < defs[
                    entries[k].definition as int
                ].segments.len() ==> spec_lookup_contains(
                    out.1,
                    defs[entries[k].definition as int].segments[
                        entries[k].next_segment as int
                    ].header,
                    SegmentEntry {
                        definition: entries[k].definition,
                        next_segment: (entries[k].next_segment + 1) as usize,
                    },
                )
            &&& ((state.0 is Some || exists|k: int|
                0 <= k < entries.len() && (#[trigger] entries[k].next_segment as int) >= defs[
                    entries[k].definition as int
                ].segments.len()) ==> out.0 is Some)
        }),
    decreases entries.len(),
{
    if entries.len() > 0 {
        let e = entries[0];
        let stepped = spec_move_step(state, e, defs);
        let rest = entries.subrange(1, entries.len() as int);
        if (e.next_segment as int) < defs[e.definition as int].segments.len() {
            let h = defs[e.definition as int].segments[e.next_segment as int].header;
            let adv = SegmentEntry {
                definition: e.definition,
                next_segment: (e.next_segment + 1) as usize,
            };
            assert(adv.next_segment as int == depth + 1);
            assert(spec_entry_wf(adv, depth + 1, defs));
            lemma_add_entry_wf(state.1, h, adv, depth + 1, defs);
            lemma_add_entry_lookup(state.1, h, adv);
            assert(spec_lookup_contains(stepped.1, h, adv)) by {
                match spec_lookup(state.1, h) {
                    Some(es) => {
                        assert(es.push(adv)[es.len() as int] == adv);
                    },
                    None => {
                        assert(seq![adv][0] == adv);
                    },
                }
            }
        }
        assert(forall|k: int|
            0 <= k < rest.len() ==> rest[k] == entries[k + 1] && spec_entry_wf(
                #[trigger] rest[k],
                depth,
                defs,
            ));
        assert forall|h2: Seq<char>, e2: SegmentEntry|
            spec_lookup_contains(state.1, h2, e2) implies spec_lookup_contains(
            #[trigger] stepped.1,
            h2,
            e2,
        ) by {
            if (e.next_segment as int) < defs[e.definition as int].segments.len() {
                let h = defs[e.definition as int].segments[e.next_segment as int].header;
                let adv = SegmentEntry {
                    definition: e.definition,
                    next_segment: (e.next_segment + 1) as usize,
                };
                lemma_add_entry_monotone(state.1, h, adv, h2, e2);
            }
        }
        lemma_move_fold_wf(stepped, rest, defs, depth);
        let out = spec_move_fold(state, entries, defs);
        assert(out == spec_move_fold(stepped, rest, defs));
        assert forall|k: int|
            0 <= k < entries.len() && (#[trigger] entries[k].next_segment as int) < defs[
                entries[k].definition as int
            ].segments.len() implies spec_lookup_contains(
            out.1,
            defs[entries[k].definition as int].segments[
                entries[k].next_segment as int
            ].header,
            SegmentEntry {
                definition: entries[k].definition,
                next_segment: (entries[k].next_segment + 1) as usize,
            },
        ) by {
            if k == 0 {
            } else {
                assert(rest[k - 1] == entries[k]);
            }
        }
        assert((state.0 is Some || exists|k: int|
            0 <= k < entries.len() && (#[trigger] entries[k].next_segment as int) >= defs[
                entries[k].definition as int
            ].segments.len()) ==> out.0 is Some) by {
            if state.0 is Some {
                assert(stepped.0 is Some);
            } else if exists|k: int|
                0 <= k < entries.len() && (#[trigger] entries[k].next_segment as int) >= defs[
                    entries[k].definition as int
                ].segments.len() {
                let k = choose|k: int|
                    0 <= k < entries.len() && (#[trigger] entries[k].next_segment as int)
                        >= defs[entries[k].definition as int].segments.len();
                if k == 0 {
                    assert(stepped.0 is Some);
                } else {
                    assert(rest[k - 1] == entries[k]);
                }
            }
        }
    }
}

/// Tokens wrapped as stream items.
pub open spec fn spec_token_items(toks: Seq<crate::token::SpecToken>) -> Seq<SpecItem> {
    Seq::new(
        toks.len(),
        |j: int|
            if 0 <= j < toks.len() {
                SpecItem::Token(toks[j])
            } else {
                arbitrary()
            },
    )
}

/// One more item consumed is one more dispatch.
proof fn lemma_consume_snoc(
    state: SpecResolver,
    m: SpecSegmentMap,
    items: Seq<SpecItem>,
    k: int,
)
    requires
        0 <= k < items.len(),
        forall|j: int| 0 <= j <= k ==> !spec_is_newline_item(#[trigger] items[j]),
    ensures
        spec_consume(state, m, items.subrange(0, k + 1)) == spec_dispatch(
            spec_consume(state, m, items.subrange(0, k)),
            m,
            items[k],
        ),
    decreases k,
{
    let taken = items.subrange(0, k + 1);
    assert(taken[0] == items[0]);
    if k == 0 {
        assert(items.subrange(0, 0) =~= Seq::<SpecItem>::empty());
        assert(taken.subrange(1, taken.len() as int) =~= Seq::<SpecItem>::empty());
        assert(spec_consume(spec_dispatch(state, m, items[0]), m, Seq::<SpecItem>::empty())
            == spec_dispatch(state, m, items[0]));
        assert(spec_consume(state, m, Seq::<SpecItem>::empty()) == state);
    } else {
        let rest = items.subrange(1, items.len() as int);
        assert(forall|j: int|
            0 <= j <= k - 1 ==> rest[j] == items[j + 1] && !spec_is_newline_item(
                #[trigger] rest[j],
            ));
        lemma_consume_snoc(spec_dispatch(state, m, items[0]), m, rest, k - 1);
        assert(taken.subrange(1, taken.len() as int) =~= rest.subrange(0, k));
        assert(items.subrange(0, k).subrange(1, k) =~= rest.subrange(0, k - 1));
        assert(items.subrange(0, k)[0] == items[0]);
        assert(rest[k - 1] == items[k]);
        assert(spec_consume(state, m, taken) == spec_consume(
            spec_dispatch(state, m, items[0]),
            m,
            rest.subrange(0, k),
        ));
        assert(spec_consume(state, m, items.subrange(0, k)) == spec_consume(
            spec_dispatch(state, m, items[0]),
            m,
            rest.subrange(0, k - 1),
        ));
    }
}

/// A lone resolved tree passes through operator resolution unchanged.
proof fn lemma_opr_single_tree(t: SpecTree)
    ensures
        spec_opr_resolve(seq![SpecItem::Tree(t)]) == Some(t),
{
    let items = seq![SpecItem::Tree(t)];
    assert(items.subrange(1, 1) =~= Seq::<SpecItem>::empty());
    assert(crate::operator::spec_apply(None, t) == Some(t));
}

/// Feeding exactly a definition's headers, in order, walks that definition:
/// after `k` headers the current instance holds `k` segments with those
/// headers and empty bodies, the definition's next header is among the legal
/// continuations, any recorded definition is exactly `k` segments long, and
/// after the last header some definition is recorded.
proof fn lemma_feed_headers(
    m: SpecSegmentMap,
    d: SpecDefinition,
    idx: int,
    toks: Seq<crate::token::SpecToken>,
    k: int,
)
    requires
        spec_groups_wf(m.groups, 1, m.definitions),
        0 <= idx < m.definitions.len(),
        idx < usize::MAX,
        m.definitions[idx] == d,
        1 <= d.segments.len() < usize::MAX,
        spec_lookup_contains(
            m.groups,
            d.segments[0].header,
            SegmentEntry { definition: idx as usize, next_segment: 1 },
        ),
        toks.len() == d.segments.len(),
        forall|i: int|
            0 <= i < toks.len() ==> (#[trigger] toks[i]).code == d.segments[i].header
                && !spec_is_newline_item(SpecItem::Token(toks[i])),
        1 <= k <= toks.len(),
    ensures
        ({
            let st = spec_consume(
                spec_root_state(),
                m,
                spec_token_items(toks).subrange(0, k),
            );
            &&& st.stack == seq![spec_root_pmm()]
            &&& st.current.current_segment == (SpecMatchedSegment {
                header: toks[k - 1],
                body: Seq::empty(),
            })
            &&& st.current.resolved_segments.len() == k - 1
            &&& forall|i: int|
                0 <= i < k - 1 ==> st.current.resolved_segments[i] == (SpecMatchedSegment {
                    header: toks[i],
                    body: Seq::empty(),
                })
            &&& spec_groups_wf(st.current.possible_next_segments, k + 1, m.definitions)
            &&& (k < toks.len() ==> spec_lookup_contains(
                st.current.possible_next_segments,
                d.segments[k].header,
                SegmentEntry { definition: idx as usize, next_segment: (k + 1) as usize },
            ))
            &&& (st.current.matched_macro_def matches Some(id) ==> (id
                matches DefinitionId::Registered(j) && 0 <= (j as int) < m.definitions.len()
                && m.definitions[j as int].segments.len() == k))
            &&& (k == toks.len() ==> st.current.matched_macro_def is Some)
        }),
    decreases k,
{
    let items = spec_token_items(toks);
    let e0 = SegmentEntry { definition: idx as usize, next_segment: 1 };
    if k == 1 {
        assert(items.subrange(0, 1)[0] == SpecItem::Token(toks[0]));
        assert(items.subrange(0, 1).subrange(1, 1) =~= Seq::<SpecItem>::empty());
        let state = spec_root_state();
        let t = toks[0];
        assert(spec_lookup(state.current.possible_next_segments, t.code) is None);
        assert(!spec_reserved(state.stack, t.code));
        assert(spec_lookup_contains(m.groups, t.code, e0));
        let es = match spec_lookup(m.groups, t.code) {
            Some(es) => es,
            None => arbitrary(),
        };
        lemma_lookup_entries_wf(m.groups, t.code, 1, m.definitions);
        lemma_move_fold_wf((None, Seq::empty()), es, m.definitions, 1);
        let mv = spec_move(es, m.definitions);
        assert(state.stack.push(state.current) =~= seq![spec_root_pmm()]);
        if 1 < toks.len() {
            let j = choose|j: int| 0 <= j < es.len() && es[j] == e0;
            assert(es[j].definition as int == idx);
            assert(es[j].next_segment as int == 1);
            assert((es[j].next_segment as int) < m.definitions[
                es[j].definition as int
            ].segments.len());
            assert(spec_lookup_contains(
                mv.1,
                d.segments[1].header,
                SegmentEntry { definition: idx as usize, next_segment: 2 },
            ));
        }
        if 1 == toks.len() {
            let j = choose|j: int| 0 <= j < es.len() && es[j] == e0;
            assert(es[j].definition as int == idx);
            assert(es[j].next_segment as int == 1);
            assert((es[j].next_segment as int) >= m.definitions[
                es[j].definition as int
            ].segments.len());
            assert(mv.0 is Some);
        }
        let st = spec_consume(spec_root_state(), m, items.subrange(0, 1));
        let stepped = spec_process_token(state, m, t);
        assert(stepped.1 == SpecStep::NewSegmentStarted);
        assert(crate::resolver::spec_dispatch_token(state, m, t) == stepped.0);
        assert(spec_dispatch(state, m, SpecItem::Token(t)) == stepped.0);
        assert(spec_consume(stepped.0, m, Seq::<SpecItem>::empty()) == stepped.0);
        assert(st == stepped.0);
        assert(st.current.current_segment == (SpecMatchedSegment {
            header: t,
            body: Seq::empty(),
        }));
        assert(st.stack =~= seq![spec_root_pmm()]);
        assert(st.current.possible_next_segments == mv.1);
        assert(st.current.matched_macro_def == mv.0);
        assert(st.current.resolved_segments =~= Seq::<SpecMatchedSegment>::empty());
    } else {
        lemma_feed_headers(m, d, idx, toks, k - 1);
        assert(forall|j: int|
            0 <= j <= k - 1 ==> items[j] == SpecItem::Token(toks[j]) && !spec_is_newline_item(
                #[trigger] items[j],
            ));
        lemma_consume_snoc(spec_root_state(), m, items, k - 1);
        let st = spec_consume(spec_root_state(), m, items.subrange(0, k - 1));
        let t = toks[k - 1];
        assert(items[k - 1] == SpecItem::Token(t));
        assert(t.code == d.segments[k - 1].header);
        assert(spec_lookup_contains(
            st.current.possible_next_segments,
            t.code,
            SegmentEntry { definition: idx as usize, next_segment: k as usize },
        ));
        let es = match spec_lookup(st.current.possible_next_segments, t.code) {
            Some(es) => es,
            None => arbitrary(),
        };
        lemma_lookup_entries_wf(st.current.possible_next_segments, t.code, k, m.definitions);
        lemma_move_fold_wf((None, Seq::empty()), es, m.definitions, k);
        let mv = spec_move(es, m.definitions);
        let ek = SegmentEntry { definition: idx as usize, next_segment: k as usize };
        if k < toks.len() {
            let j = choose|j: int| 0 <= j < es.len() && es[j] == ek;
            assert(es[j].definition as int == idx);
            assert(es[j].next_segment as int == k);
            assert((es[j].next_segment as int) < m.definitions[
                es[j].definition as int
            ].segments.len());
            assert((es[j].next_segment + 1) as usize == (k + 1) as usize);
            assert(spec_lookup_contains(
                mv.1,
                d.segments[k].header,
                SegmentEntry { definition: idx as usize, next_segment: (k + 1) as usize },
            ));
        }
        if k == toks.len() {
            let j = choose|j: int| 0 <= j < es.len() && es[j] == ek;
            assert(es[j].definition as int == idx);
            assert(es[j].next_segment as int == k);
            assert((es[j].next_segment as int) >= m.definitions[
                es[j].definition as int
            ].segments.len());
            assert(mv.0 is Some);
        }
        let st2 = spec_consume(spec_root_state(), m, items.subrange(0, k));
        let stepped = spec_process_token(st, m, t);
        assert(stepped.1 == SpecStep::NewSegmentStarted);
        assert(crate::resolver::spec_dispatch_token(st, m, t) == stepped.0);
        assert(spec_dispatch(st, m, SpecItem::Token(t)) == stepped.0);
        assert(st2 == stepped.0);
        assert(st2.current.current_segment == (SpecMatchedSegment {
            header: t,
            body: Seq::empty(),
        }));
        assert(st2.stack == st.stack);
        assert(st2.current.possible_next_segments == mv.1);
        assert(st2.current.matched_macro_def == mv.0);
        assert(st2.current.resolved_segments == st.current.resolved_segments.push(
            st.current.current_segment,
        ));
        assert(forall|i: int|
            0 <= i < k - 1 ==> st2.current.resolved_segments[i] == (SpecMatchedSegment {
                header: toks[i],
                body: Seq::empty(),
            }));
    }
}

/// Feeding exactly a registered definition's header sequence fully matches a
/// definition of the same length: the resulting tree is some registered
/// builder applied to exactly one matched segment per header, in order.
pub proof fn lemma_header_sequence_resolves(
    m: SpecSegmentMap,
    d: SpecDefinition,
    idx: int,
    toks: Seq<crate::token::SpecToken>,
)
    requires
        spec_groups_wf(m.groups, 1, m.definitions),
        0 <= idx < m.definitions.len(),
        idx < usize::MAX,
        m.definitions[idx] == d,
        1 <= d.segments.len() < usize::MAX,
        spec_lookup_contains(
            m.groups,
            d.segments[0].header,
            SegmentEntry { definition: idx as usize, next_segment: 1 },
        ),
        toks.len() == d.segments.len(),
        forall|i: int|
            0 <= i < toks.len() ==> (#[trigger] toks[i]).code == d.segments[i].header
                && !spec_is_newline_item(SpecItem::Token(toks[i])),
    ensures
        exists|j: int, ms: Seq<crate::builders::SpecResolvedSegment>|
            #![trigger spec_apply_body(m.definitions[j].body, ms)]
            0 <= j < m.definitions.len() && m.definitions[j].segments.len()
                == d.segments.len() && ms.len() == d.segments.len() && (forall|i: int|
                0 <= i < ms.len() ==> (#[trigger] ms[i]).header == toks[i])
                && spec_run_from(spec_root_state(), m, spec_token_items(toks))
                == spec_apply_body(m.definitions[j].body, ms),
{
    let items = spec_token_items(toks);
    let n = toks.len() as int;
    lemma_feed_headers(m, d, idx, toks, n);
    assert(items.subrange(0, n) =~= items);
    let st = spec_consume(spec_root_state(), m, items);
    let inner = st.current;
    let adopted = SpecResolver {
        current: crate::resolver::spec_adopt(st.stack.last(), inner),
        stack: st.stack.drop_last(),
    };
    assert(st.stack.last() == spec_root_pmm());
    assert(st.stack.drop_last() =~= Seq::<SpecPartiallyMatchedMacro>::empty());
    assert(spec_unwind(st) == spec_unwind(adopted));
    assert(spec_unwind(adopted) == adopted.current);
    let root2 = adopted.current;
    let defs = m.definitions;
    // The inner instance finalizes by its matched definition's builder.
    let jid = match inner.matched_macro_def {
        Some(id) => id,
        None => arbitrary(),
    };
    assert(inner.matched_macro_def is Some);
    let j = match jid {
        DefinitionId::Registered(j) => j as int,
        DefinitionId::Root => arbitrary(),
    };
    assert(jid == DefinitionId::Registered(j as usize));
    assert(0 <= j < defs.len() && defs[j].segments.len() == n);
    let flat_inner = spec_flat_segments(inner, defs);
    assert(flat_inner.len() == n);
    assert forall|i: int| 0 <= i < n implies (#[trigger] flat_inner[i]).header == toks[i]
        && flat_inner[i].body =~= Seq::<SpecItem>::empty() by {
        if i < n - 1 {
            assert(inner.resolved_segments[i] == (SpecMatchedSegment {
                header: toks[i],
                body: Seq::empty(),
            }));
        }
        assert(crate::resolver::spec_flat_at(inner, defs, i) =~= Seq::<SpecItem>::empty());
    }
    assert(crate::resolver::spec_ok_flat(flat_inner, jid, defs)) by {
        assert forall|i: int| 0 <= i < flat_inner.len() - 1 implies (
        #[trigger] crate::resolver::spec_match_flat(flat_inner, jid, defs, i)).1 == flat_inner[
            i
        ].body.len() by {
            crate::pattern::lemma_spec_resolve_consumed(
                crate::resolver::spec_pattern_at(jid, defs, i),
                flat_inner[i].body,
            );
        }
    }
    let rsegs = crate::resolver::spec_rsegs_flat(flat_inner, jid, defs);
    assert(rsegs.len() == n);
    assert(forall|i: int| 0 <= i < n ==> (#[trigger] rsegs[i]).header == toks[i]);
    let rm = spec_resolve_macro(inner, defs);
    assert(rm.0 == spec_apply_body(defs[j].body, rsegs));
    assert(rm.1 =~= Seq::<SpecItem>::empty()) by {
        crate::pattern::lemma_spec_resolve_consumed(
            crate::resolver::spec_pattern_at(jid, defs, n - 1),
            flat_inner[n - 1].body,
        );
    }
    // The root wraps the one finalized instance and passes it through.
    let root_body = root2.current_segment.body;
    assert(root_body =~= seq![SpecItemOrMacro::Macro(inner)]);
    let flat_root_body = spec_flatten_body(root_body, defs);
    assert(flat_root_body =~= seq![SpecItem::Tree(rm.0)]) by {
        assert(root_body.subrange(1, root_body.len() as int) =~= Seq::<
            SpecItemOrMacro,
        >::empty());
        assert((seq![SpecItem::Tree(rm.0)] + rm.1) + Seq::<SpecItem>::empty() =~= seq![
            SpecItem::Tree(rm.0),
        ]);
    }
    let flat_root = spec_flat_segments(root2, defs);
    assert(flat_root.len() == 1);
    assert(flat_root[0].body == flat_root_body);
    assert(root2.matched_macro_def == Some(DefinitionId::Root));
    assert(crate::resolver::spec_ok_flat(flat_root, DefinitionId::Root, defs));
    let root_rsegs = crate::resolver::spec_rsegs_flat(flat_root, DefinitionId::Root, defs);
    assert(root_rsegs.len() == 1);
    assert(root_rsegs[0].result == crate::pattern::SpecMatch::Everything(flat_root_body));
    assert(spec_match_items(root_rsegs[0].result) == flat_root_body);
    lemma_opr_single_tree(rm.0);
    assert(crate::builders::spec_root_tree(root_rsegs) == rm.0);
    assert(spec_run_from(spec_root_state(), m, items) == rm.0);
    assert(0 <= j < m.definitions.len() && m.definitions[j].segments.len()
        == d.segments.len() && rsegs.len() == d.segments.len() && (forall|i: int|
        0 <= i < rsegs.len() ==> (#[trigger] rsegs[i]).header == toks[i]) && spec_run_from(
        spec_root_state(),
        m,
        spec_token_items(toks),
    ) == spec_apply_body(m.definitions[j].body, rsegs));
}

/// Registration keeps every filed entry.
pub proof fn lemma_register_monotone(
    m: SpecSegmentMap,
    d: SpecDefinition,
    h: Seq<char>,
    e: SegmentEntry,
)
    requires
        spec_lookup_contains(m.groups, h, e),
    ensures
        spec_lookup_contains(spec_register(m, d).groups, h, e),
{
    lemma_add_entry_monotone(
        m.groups,
        d.segments[0].header,
        SegmentEntry { definition: m.definitions.len() as usize, next_segment: 1 },
        h,
        e,
    );
}

/// A registry built by registering well-formed definitions in order holds
/// exactly those definitions, its groups are well-formed, and each
/// definition's opening entry is filed under its first header — everything
/// [`lemma_header_sequence_resolves`] asks of a registry.
pub proof fn lemma_register_seq_wf(ds: Seq<SpecDefinition>)
    requires
        forall|i: int| 0 <= i < ds.len() ==> (#[trigger] ds[i]).segments.len() >= 1,
        ds.len() < usize::MAX,
    ensures
        ({
            let m = spec_register_seq(spec_empty_segment_map(), ds);
            &&& m.definitions == ds
            &&& spec_groups_wf(m.groups, 1, m.definitions)
            &&& forall|i: int|
                0 <= i < ds.len() ==> spec_lookup_contains(
                    m.groups,
                    (#[trigger] ds[i]).segments[0].header,
                    SegmentEntry { definition: i as usize, next_segment: 1 },
                )
        }),
    decreases ds.len(),
{
    let m = spec_register_seq(spec_empty_segment_map(), ds);
    if ds.len() == 0 {
        assert(m.definitions =~= ds);
    } else {
        let prefix = ds.drop_last();
        let d = ds.last();
        assert(forall|i: int|
            0 <= i < prefix.len() ==> prefix[i] == ds[i] && (#[trigger] prefix[
                i
            ]).segments.len() >= 1);
        lemma_register_seq_wf(prefix);
        let m0 = spec_register_seq(spec_empty_segment_map(), prefix);
        assert(m == spec_register(m0, d));
        assert(m.definitions =~= ds);
        let e_new = SegmentEntry {
            definition: m0.definitions.len() as usize,
            next_segment: 1,
        };
        assert(e_new.definition as int == prefix.len());
        assert(spec_entry_wf(e_new, 1, m.definitions));
        assert(spec_groups_wf(m0.groups, 1, m.definitions)) by {
            assert(forall|g: int, k: int|
                0 <= g < m0.groups.len() && 0 <= k < m0.groups[g].entries.len()
                    ==> spec_entry_wf(#[trigger] m0.groups[g].entries[k], 1, m0.definitions)
                    && (m0.groups[g].entries[k].definition as int) < prefix.len()
                    && m.definitions[m0.groups[g].entries[k].definition as int] == prefix[
                    m0.groups[g].entries[k].definition as int
                ]);
        }
        lemma_add_entry_wf(m0.groups, d.segments[0].header, e_new, 1, m.definitions);
        lemma_add_entry_lookup(m0.groups, d.segments[0].header, e_new);
        assert forall|i: int|
            0 <= i < ds.len() implies spec_lookup_contains(
            m.groups,
            (#[trigger] ds[i]).segments[0].header,
            SegmentEntry { definition: i as usize, next_segment: 1 },
        ) by {
            if i < prefix.len() {
                lemma_add_entry_monotone(
                    m0.groups,
                    d.segments[0].header,
                    e_new,
                    prefix[i].segments[0].header,
                    SegmentEntry { definition: i as usize, next_segment: 1 },
                );
            } else {
                match spec_lookup(m0.groups, d.segments[0].header) {
                    Some(es) => {
                        assert(es.push(e_new)[es.len() as int] == e_new);
                    },
                    None => {
                        assert(seq![e_new][0] == e_new);
                    },
                }
            }
        }
    }
}

} // verus!

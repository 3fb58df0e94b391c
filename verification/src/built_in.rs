//! The built-in macro catalogue.

use vstd::prelude::*;

use crate::definition::BodyBuilder;
use crate::definition::Definition;
use crate::definition::SegmentDefinition;
use crate::definition::SpecDefinition;
use crate::definition::SpecSegmentDefinition;
use crate::definition::segment_defs_vw;
use crate::laws::lemma_register_seq_concat;
use crate::pattern::SpecPattern;
use crate::pattern::block;
use crate::pattern::both;
use crate::pattern::everything;
use crate::pattern::identifier;
use crate::pattern::many;
use crate::pattern::named;
use crate::pattern::nothing;
use crate::resolver::SegmentMap;
use crate::resolver::spec_empty_segment_map;
use crate::resolver::spec_register;
use crate::resolver::spec_register_seq;

verus! {

/// A segment consuming everything after its header.
pub open spec fn spec_open_segment(h: Seq<char>) -> SpecSegmentDefinition {
    SpecSegmentDefinition { header: h, pattern: SpecPattern::Everything }
}

/// A segment whose body must be empty, as closing delimiters require.
pub open spec fn spec_closing_segment(h: Seq<char>) -> SpecSegmentDefinition {
    SpecSegmentDefinition { header: h, pattern: SpecPattern::Nothing }
}

pub open spec fn spec_if_then_def() -> SpecDefinition {
    SpecDefinition {
        segments: seq![spec_open_segment("if"@), spec_open_segment("then"@)],
        body: BodyBuilder::MultiSegmentApp,
    }
}

pub open spec fn spec_if_then_else_def() -> SpecDefinition {
    SpecDefinition {
        segments: seq![
            spec_open_segment("if"@),
            spec_open_segment("then"@),
            spec_open_segment("else"@),
        ],
        body: BodyBuilder::MultiSegmentApp,
    }
}

/// The nine header sequences of the import family, in registration order:
/// optional leading `polyglot` or `from`, a required `import`, optional
/// trailing `as` or `hiding`.
pub open spec fn spec_import_defs() -> Seq<SpecDefinition> {
    seq![
        SpecDefinition {
            segments: seq![spec_open_segment("import"@)],
            body: BodyBuilder::Import,
        },
        SpecDefinition {
            segments: seq![spec_open_segment("import"@), spec_open_segment("as"@)],
            body: BodyBuilder::Import,
        },
        SpecDefinition {
            segments: seq![spec_open_segment("import"@), spec_open_segment("hiding"@)],
            body: BodyBuilder::Import,
        },
        SpecDefinition {
            segments: seq![spec_open_segment("polyglot"@), spec_open_segment("import"@)],
            body: BodyBuilder::Import,
        },
        SpecDefinition {
            segments: seq![
                spec_open_segment("polyglot"@),
                spec_open_segment("import"@),
                spec_open_segment("as"@),
            ],
            body: BodyBuilder::Import,
        },
        SpecDefinition {
            segments: seq![
                spec_open_segment("polyglot"@),
                spec_open_segment("import"@),
                spec_open_segment("hiding"@),
            ],
            body: BodyBuilder::Import,
        },
        SpecDefinition {
            segments: seq![
                spec_open_segment("from"@),
                spec_open_segment("import"@),
                spec_open_segment("hiding"@),
            ],
            body: BodyBuilder::Import,
        },
        SpecDefinition {
            segments: seq![
                spec_open_segment("from"@),
                spec_open_segment("as"@),
                spec_open_segment("import"@),
            ],
            body: BodyBuilder::Import,
        },
        SpecDefinition {
            segments: seq![spec_open_segment("from"@), spec_open_segment("import"@)],
            body: BodyBuilder::Import,
        },
    ]
}

/// The five header sequences of the export family, in registration order,
/// mirroring the import family without `polyglot` and without an import
/// alias.
pub open spec fn spec_export_defs() -> Seq<SpecDefinition> {
    seq![
        SpecDefinition {
            segments: seq![spec_open_segment("export"@)],
            body: BodyBuilder::Export,
        },
        SpecDefinition {
            segments: seq![spec_open_segment("export"@), spec_open_segment("as"@)],
            body: BodyBuilder::Export,
        },
        SpecDefinition {
            segments: seq![spec_open_segment("from"@), spec_open_segment("export"@)],
            body: BodyBuilder::Export,
        },
        SpecDefinition {
            segments: seq![
                spec_open_segment("from"@),
                spec_open_segment("export"@),
                spec_open_segment("hiding"@),
            ],
            body: BodyBuilder::Export,
        },
        SpecDefinition {
            segments: seq![
                spec_open_segment("from"@),
                spec_open_segment("as"@),
                spec_open_segment("export"@),
            ],
            body: BodyBuilder::Export,
        },
    ]
}

pub open spec fn spec_group_def() -> SpecDefinition {
    SpecDefinition {
        segments: seq![spec_open_segment("("@), spec_closing_segment(")"@)],
        body: BodyBuilder::Group,
    }
}

pub open spec fn spec_type_def_def() -> SpecDefinition {
    SpecDefinition {
        segments: seq![
            SpecSegmentDefinition {
                header: "type"@,
                pattern: SpecPattern::Both(
                    Box::new(SpecPattern::Named("name"@, Box::new(SpecPattern::Identifier))),
                    Box::new(
                        SpecPattern::Both(
                            Box::new(
                                SpecPattern::Many(
                                    Box::new(
                                        SpecPattern::Named(
                                            "param"@,
                                            Box::new(SpecPattern::Identifier),
                                        ),
                                    ),
                                ),
                            ),
                            Box::new(
                                SpecPattern::Block(
                                    Box::new(
                                        SpecPattern::Named(
                                            "statements"@,
                                            Box::new(SpecPattern::Everything),
                                        ),
                                    ),
                                ),
                            ),
                        ),
                    ),
                ),
            },
        ],
        body: BodyBuilder::TypeDef,
    }
}

pub open spec fn spec_lambda_def() -> SpecDefinition {
    SpecDefinition { segments: seq![spec_open_segment("\\"@)], body: BodyBuilder::Lambda }
}

pub open spec fn spec_case_def() -> SpecDefinition {
    SpecDefinition {
        segments: seq![spec_open_segment("case"@), spec_open_segment("of"@)],
        body: BodyBuilder::Case,
    }
}

pub open spec fn spec_array_def() -> SpecDefinition {
    SpecDefinition {
        segments: seq![spec_open_segment("["@), spec_closing_segment("]"@)],
        body: BodyBuilder::Array,
    }
}

pub open spec fn spec_tuple_def() -> SpecDefinition {
    SpecDefinition {
        segments: seq![spec_open_segment("{"@), spec_closing_segment("}"@)],
        body: BodyBuilder::Tuple,
    }
}

/// The whole catalogue in registration order: the if/then pair, the nine
/// import and five export shapes, then group, type, lambda, case, array and
/// tuple.
pub open spec fn spec_catalogue() -> Seq<SpecDefinition> {
    seq![spec_if_then_def(), spec_if_then_else_def()] + spec_import_defs()
        + spec_export_defs() + seq![
        spec_group_def(),
        spec_type_def_def(),
        spec_lambda_def(),
        spec_case_def(),
        spec_array_def(),
        spec_tuple_def(),
    ]
}

/// All built-in macro definitions, registered into one fresh registry in
/// catalogue order, definitions and header groups alike.
pub fn all() -> (r: SegmentMap)
    ensures
        r@ == spec_register_seq(spec_empty_segment_map(), spec_catalogue()),
        r@.definitions.len() == 22,
{
    let ghost g_cat = spec_catalogue();
    let mut macro_map = SegmentMap::new();
    proof {
        assert(macro_map@ == spec_empty_segment_map());
        assert(g_cat.take(0) =~= Seq::<SpecDefinition>::empty());
        assert(macro_map@ == spec_register_seq(spec_empty_segment_map(), g_cat.take(0)));
    }
    macro_map.register(if_then());
    proof {
        assert(g_cat.take(1).drop_last() =~= g_cat.take(0));
        assert(g_cat.take(1).last() == spec_if_then_def());
        assert(macro_map@ == spec_register_seq(spec_empty_segment_map(), g_cat.take(1)));
    }
    macro_map.register(if_then_else());
    proof {
        assert(g_cat.take(2).drop_last() =~= g_cat.take(1));
        assert(g_cat.take(2).last() == spec_if_then_else_def());
        assert(macro_map@ == spec_register_seq(spec_empty_segment_map(), g_cat.take(2)));
    }
    register_import_macros(&mut macro_map);
    proof {
        lemma_register_seq_concat(
            spec_empty_segment_map(),
            g_cat.take(2),
            spec_import_defs(),
        );
        assert(g_cat.take(11) =~= g_cat.take(2) + spec_import_defs());
        assert(macro_map@ == spec_register_seq(spec_empty_segment_map(), g_cat.take(11)));
    }
    register_export_macros(&mut macro_map);
    proof {
        lemma_register_seq_concat(
            spec_empty_segment_map(),
            g_cat.take(11),
            spec_export_defs(),
        );
        assert(g_cat.take(16) =~= g_cat.take(11) + spec_export_defs());
        assert(macro_map@ == spec_register_seq(spec_empty_segment_map(), g_cat.take(16)));
    }
    macro_map.register(group());
    proof {
        assert(g_cat.take(17).drop_last() =~= g_cat.take(16));
        assert(g_cat.take(17).last() == spec_group_def());
        assert(macro_map@ == spec_register_seq(spec_empty_segment_map(), g_cat.take(17)));
    }
    macro_map.register(type_def());
    proof {
        assert(g_cat.take(18).drop_last() =~= g_cat.take(17));
        assert(g_cat.take(18).last() == spec_type_def_def());
        assert(macro_map@ == spec_register_seq(spec_empty_segment_map(), g_cat.take(18)));
    }
    macro_map.register(lambda());
    proof {
        assert(g_cat.take(19).drop_last() =~= g_cat.take(18));
        assert(g_cat.take(19).last() == spec_lambda_def());
        assert(macro_map@ == spec_register_seq(spec_empty_segment_map(), g_cat.take(19)));
    }
    macro_map.register(case());
    proof {
        assert(g_cat.take(20).drop_last() =~= g_cat.take(19));
        assert(g_cat.take(20).last() == spec_case_def());
        assert(macro_map@ == spec_register_seq(spec_empty_segment_map(), g_cat.take(20)));
    }
    macro_map.register(array());
    proof {
        assert(g_cat.take(21).drop_last() =~= g_cat.take(20));
        assert(g_cat.take(21).last() == spec_array_def());
        assert(macro_map@ == spec_register_seq(spec_empty_segment_map(), g_cat.take(21)));
    }
    macro_map.register(tuple());
    proof {
        assert(g_cat.take(22).drop_last() =~= g_cat.take(21));
        assert(g_cat.take(22).last() == spec_tuple_def());
        assert(g_cat.take(22) =~= g_cat);
        assert(macro_map@ == spec_register_seq(spec_empty_segment_map(), g_cat));
    }
    macro_map
}

/// A segment consuming everything after its header.
fn open_segment(header: &str) -> (r: SegmentDefinition)
    ensures
        r@ == spec_open_segment(header@),
{
    SegmentDefinition::new(header, everything())
}

/// A segment whose body must be empty, as closing delimiters require.
fn closing_segment(header: &str) -> (r: SegmentDefinition)
    ensures
        r@ == spec_closing_segment(header@),
{
    SegmentDefinition::new(header, nothing())
}

/// Registers the nine import shapes, in the order of [`spec_import_defs`].
pub fn register_import_macros(macros: &mut SegmentMap)
    ensures
        final(macros)@ == spec_register_seq(old(macros)@, spec_import_defs()),
        final(macros)@.definitions.len() == old(macros)@.definitions.len() + 9,
{
    let ghost g_defs = spec_import_defs();
    let ghost g_m0 = macros@;
    proof {
        assert(g_defs.take(0) =~= Seq::<SpecDefinition>::empty());
        assert(macros@ == spec_register_seq(g_m0, g_defs.take(0)));
    }
    let d = Definition::new(vec![open_segment("import")], BodyBuilder::Import);
    proof {
        assert(segment_defs_vw(d.segments@) =~= seq![spec_open_segment("import"@)]);
        assert(d@ == g_defs[0]);
    }
    macros.register(d);
    proof {
        assert(g_defs.take(1).drop_last() =~= g_defs.take(0));
        assert(g_defs.take(1).last() == g_defs[0]);
        assert(macros@ == spec_register_seq(g_m0, g_defs.take(1)));
    }
    let d = Definition::new(vec![open_segment("import"), open_segment("as")], BodyBuilder::Import);
    proof {
        assert(segment_defs_vw(d.segments@) =~= seq![spec_open_segment("import"@), spec_open_segment("as"@)]);
        assert(d@ == g_defs[1]);
    }
    macros.register(d);
    proof {
        assert(g_defs.take(2).drop_last() =~= g_defs.take(1));
        assert(g_defs.take(2).last() == g_defs[1]);
        assert(macros@ == spec_register_seq(g_m0, g_defs.take(2)));
    }
    let d = Definition::new(vec![open_segment("import"), open_segment("hiding")], BodyBuilder::Import);
    proof {
        assert(segment_defs_vw(d.segments@) =~= seq![spec_open_segment("import"@), spec_open_segment("hiding"@)]);
        assert(d@ == g_defs[2]);
    }
    macros.register(d);
    proof {
        assert(g_defs.take(3).drop_last() =~= g_defs.take(2));
        assert(g_defs.take(3).last() == g_defs[2]);
        assert(macros@ == spec_register_seq(g_m0, g_defs.take(3)));
    }
    let d = Definition::new(vec![open_segment("polyglot"), open_segment("import")], BodyBuilder::Import);
    proof {
        assert(segment_defs_vw(d.segments@) =~= seq![spec_open_segment("polyglot"@), spec_open_segment("import"@)]);
        assert(d@ == g_defs[3]);
    }
    macros.register(d);
    proof {
        assert(g_defs.take(4).drop_last() =~= g_defs.take(3));
        assert(g_defs.take(4).last() == g_defs[3]);
        assert(macros@ == spec_register_seq(g_m0, g_defs.take(4)));
    }
    let d = Definition::new(vec![open_segment("polyglot"), open_segment("import"), open_segment("as")], BodyBuilder::Import);
    proof {
        assert(segment_defs_vw(d.segments@) =~= seq![spec_open_segment("polyglot"@), spec_open_segment("import"@), spec_open_segment("as"@)]);
        assert(d@ == g_defs[4]);
    }
    macros.register(d);
    proof {
        assert(g_defs.take(5).drop_last() =~= g_defs.take(4));
        assert(g_defs.take(5).last() == g_defs[4]);
        assert(macros@ == spec_register_seq(g_m0, g_defs.take(5)));
    }
    let d = Definition::new(vec![open_segment("polyglot"), open_segment("import"), open_segment("hiding")], BodyBuilder::Import);
    proof {
        assert(segment_defs_vw(d.segments@) =~= seq![spec_open_segment("polyglot"@), spec_open_segment("import"@), spec_open_segment("hiding"@)]);
        assert(d@ == g_defs[5]);
    }
    macros.register(d);
    proof {
        assert(g_defs.take(6).drop_last() =~= g_defs.take(5));
        assert(g_defs.take(6).last() == g_defs[5]);
        assert(macros@ == spec_register_seq(g_m0, g_defs.take(6)));
    }
    let d = Definition::new(vec![open_segment("from"), open_segment("import"), open_segment("hiding")], BodyBuilder::Import);
    proof {
        assert(segment_defs_vw(d.segments@) =~= seq![spec_open_segment("from"@), spec_open_segment("import"@), spec_open_segment("hiding"@)]);
        assert(d@ == g_defs[6]);
    }
    macros.register(d);
    proof {
        assert(g_defs.take(7).drop_last() =~= g_defs.take(6));
        assert(g_defs.take(7).last() == g_defs[6]);
        assert(macros@ == spec_register_seq(g_m0, g_defs.take(7)));
    }
    let d = Definition::new(vec![open_segment("from"), open_segment("as"), open_segment("import")], BodyBuilder::Import);
    proof {
        assert(segment_defs_vw(d.segments@) =~= seq![spec_open_segment("from"@), spec_open_segment("as"@), spec_open_segment("import"@)]);
        assert(d@ == g_defs[7]);
    }
    macros.register(d);
    proof {
        assert(g_defs.take(8).drop_last() =~= g_defs.take(7));
        assert(g_defs.take(8).last() == g_defs[7]);
        assert(macros@ == spec_register_seq(g_m0, g_defs.take(8)));
    }
    let d = Definition::new(vec![open_segment("from"), open_segment("import")], BodyBuilder::Import);
    proof {
        assert(segment_defs_vw(d.segments@) =~= seq![spec_open_segment("from"@), spec_open_segment("import"@)]);
        assert(d@ == g_defs[8]);
    }
    macros.register(d);
    proof {
        assert(g_defs.take(9).drop_last() =~= g_defs.take(8));
        assert(g_defs.take(9).last() == g_defs[8]);
        assert(macros@ == spec_register_seq(g_m0, g_defs.take(9)));
    }
    proof {
        assert(g_defs.take(9) =~= g_defs);
    }
}

/// Registers the five export shapes, in the order of [`spec_export_defs`].
pub fn register_export_macros(macros: &mut SegmentMap)
    ensures
        final(macros)@ == spec_register_seq(old(macros)@, spec_export_defs()),
        final(macros)@.definitions.len() == old(macros)@.definitions.len() + 5,
{
    let ghost g_defs = spec_export_defs();
    let ghost g_m0 = macros@;
    proof {
        assert(g_defs.take(0) =~= Seq::<SpecDefinition>::empty());
        assert(macros@ == spec_register_seq(g_m0, g_defs.take(0)));
    }
    let d = Definition::new(vec![open_segment("export")], BodyBuilder::Export);
    proof {
        assert(segment_defs_vw(d.segments@) =~= seq![spec_open_segment("export"@)]);
        assert(d@ == g_defs[0]);
    }
    macros.register(d);
    proof {
        assert(g_defs.take(1).drop_last() =~= g_defs.take(0));
        assert(g_defs.take(1).last() == g_defs[0]);
        assert(macros@ == spec_register_seq(g_m0, g_defs.take(1)));
    }
    let d = Definition::new(vec![open_segment("export"), open_segment("as")], BodyBuilder::Export);
    proof {
        assert(segment_defs_vw(d.segments@) =~= seq![spec_open_segment("export"@), spec_open_segment("as"@)]);
        assert(d@ == g_defs[1]);
    }
    macros.register(d);
    proof {
        assert(g_defs.take(2).drop_last() =~= g_defs.take(1));
        assert(g_defs.take(2).last() == g_defs[1]);
        assert(macros@ == spec_register_seq(g_m0, g_defs.take(2)));
    }
    let d = Definition::new(vec![open_segment("from"), open_segment("export")], BodyBuilder::Export);
    proof {
        assert(segment_defs_vw(d.segments@) =~= seq![spec_open_segment("from"@), spec_open_segment("export"@)]);
        assert(d@ == g_defs[2]);
    }
    macros.register(d);
    proof {
        assert(g_defs.take(3).drop_last() =~= g_defs.take(2));
        assert(g_defs.take(3).last() == g_defs[2]);
        assert(macros@ == spec_register_seq(g_m0, g_defs.take(3)));
    }
    let d = Definition::new(vec![open_segment("from"), open_segment("export"), open_segment("hiding")], BodyBuilder::Export);
    proof {
        assert(segment_defs_vw(d.segments@) =~= seq![spec_open_segment("from"@), spec_open_segment("export"@), spec_open_segment("hiding"@)]);
        assert(d@ == g_defs[3]);
    }
    macros.register(d);
    proof {
        assert(g_defs.take(4).drop_last() =~= g_defs.take(3));
        assert(g_defs.take(4).last() == g_defs[3]);
        assert(macros@ == spec_register_seq(g_m0, g_defs.take(4)));
    }
    let d = Definition::new(vec![open_segment("from"), open_segment("as"), open_segment("export")], BodyBuilder::Export);
    proof {
        assert(segment_defs_vw(d.segments@) =~= seq![spec_open_segment("from"@), spec_open_segment("as"@), spec_open_segment("export"@)]);
        assert(d@ == g_defs[4]);
    }
    macros.register(d);
    proof {
        assert(g_defs.take(5).drop_last() =~= g_defs.take(4));
        assert(g_defs.take(5).last() == g_defs[4]);
        assert(macros@ == spec_register_seq(g_m0, g_defs.take(5)));
    }
    proof {
        assert(g_defs.take(5) =~= g_defs);
    }
}

/// If-then-else macro definition.
pub fn if_then_else() -> (r: Definition)
    ensures
        r@ == spec_if_then_else_def(),
{
    let r = Definition::new(vec![open_segment("if"), open_segment("then"), open_segment("else")], BodyBuilder::MultiSegmentApp);
    proof {
        assert(segment_defs_vw(r.segments@) =~= spec_if_then_else_def().segments);
    }
    r
}

/// If-then macro definition; seeing `else` afterwards promotes a match of
/// this definition into the three-segment one.
pub fn if_then() -> (r: Definition)
    ensures
        r@ == spec_if_then_def(),
{
    let r = Definition::new(vec![open_segment("if"), open_segment("then")], BodyBuilder::MultiSegmentApp);
    proof {
        assert(segment_defs_vw(r.segments@) =~= spec_if_then_def().segments);
    }
    r
}

/// Group macro definition.
pub fn group() -> (r: Definition)
    ensures
        r@ == spec_group_def(),
{
    let r = Definition::new(vec![open_segment("("), closing_segment(")")], BodyBuilder::Group);
    proof {
        assert(segment_defs_vw(r.segments@) =~= spec_group_def().segments);
    }
    r
}

/// Type definition macro definition: the keyword, a name, any number of
/// parameters, and a block of statements.
pub fn type_def() -> (r: Definition)
    ensures
        r@ == spec_type_def_def(),
{
    let pattern = both(
        named("name", identifier()),
        both(
            many(named("param", identifier())),
            block(named("statements", everything())),
        ),
    );
    let r = Definition::new(
        vec![SegmentDefinition::new("type", pattern)],
        BodyBuilder::TypeDef,
    );
    proof {
        assert(segment_defs_vw(r.segments@) =~= spec_type_def_def().segments);
    }
    r
}

/// Lambda macro definition: the backslash consumes everything after it.
pub fn lambda() -> (r: Definition)
    ensures
        r@ == spec_lambda_def(),
{
    let r = Definition::new(vec![open_segment("\\")], BodyBuilder::Lambda);
    proof {
        assert(segment_defs_vw(r.segments@) =~= spec_lambda_def().segments);
    }
    r
}

/// Case expression macro definition.
pub fn case() -> (r: Definition)
    ensures
        r@ == spec_case_def(),
{
    let r = Definition::new(vec![open_segment("case"), open_segment("of")], BodyBuilder::Case);
    proof {
        assert(segment_defs_vw(r.segments@) =~= spec_case_def().segments);
    }
    r
}

/// Array literal macro definition.
pub fn array() -> (r: Definition)
    ensures
        r@ == spec_array_def(),
{
    let r = Definition::new(vec![open_segment("["), closing_segment("]")], BodyBuilder::Array);
    proof {
        assert(segment_defs_vw(r.segments@) =~= spec_array_def().segments);
    }
    r
}

/// Tuple literal macro definition.
pub fn tuple() -> (r: Definition)
    ensures
        r@ == spec_tuple_def(),
{
    let r = Definition::new(vec![open_segment("{"), closing_segment("}")], BodyBuilder::Tuple);
    proof {
        assert(segment_defs_vw(r.segments@) =~= spec_tuple_def().segments);
    }
    r
}

} // verus!

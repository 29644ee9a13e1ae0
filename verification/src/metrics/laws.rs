//! Laws of the text rendering: its lines, its headers and its labels.
use crate::metrics::exposition::{
    abort_family, active_family, asp_family, asp_family_sample, asp_family_samples,
    association_family, association_family_sample, association_family_samples, error_family,
    header, hit_family, hit_family_sample, hit_family_samples, invoke_family,
    invoke_family_sample, invoke_family_samples, joined, label_list, label_part,
    link_count_family, link_count_family_sample, link_count_family_samples, link_state_family,
    link_state_family_sample, link_state_family_samples, linkset_family, linkset_family_sample,
    linkset_family_samples, loop_family, management_family, management_family_sample,
    management_family_samples, msu_family, msu_sample, msu_samples, rendered, route_family,
    route_family_sample, route_family_samples, sample, screen_family, timeout_family,
    translation_family,
};
use crate::metrics::lines::{
    decimal_is_digits, decimal_line, free_of_newlines, free_of_stops, is_word, line_of,
    lines_of, one_line, one_line_sum, pieces_of_lines, signed_decimal_line, text_of,
    text_of_sum, word_of,
};
use crate::metrics::{
    abort_source_label, abort_source_slot, dir_label, gtt_error_label, gtt_error_slot,
    gtt_result_label, gtt_result_slot, loop_kind_label, loop_kind_slot, screen_reason_label,
    screen_reason_slot, AbortSource, Dir, GttError, GttResultKind, LoopKind, Metrics, ScreenReason,
};
use crate::sorted_map::Key;
use crate::text::{begins_with, decimal, digit, signed_decimal};
use vstd::prelude::*;
use vstd::string::*;

verus! {

// ── Families ────────────────────────────────────────────────────────────────

/// One sample of a family.
pub struct SampleModel {
    pub labels: Seq<(Seq<char>, Seq<char>)>,
    pub value: Seq<char>,
}

/// A family: its name, its help text, its type and its samples.
pub struct FamilyModel {
    pub name: Seq<char>,
    pub help: Seq<char>,
    pub ty: Seq<char>,
    pub samples: Seq<SampleModel>,
}

/// The line of a sample.
pub open spec fn sample_line(name: Seq<char>, s: SampleModel) -> Seq<char> {
    name + label_part(s.labels) + " "@ + s.value
}

/// The lines of a family: help, type, then its samples.
pub open spec fn family_lines(f: FamilyModel) -> Seq<Seq<char>> {
    seq!["# HELP "@ + f.name + " "@ + f.help, "# TYPE "@ + f.name + " "@ + f.ty]
        + f.samples.map_values(|s: SampleModel| sample_line(f.name, s))
}

/// The lines of the first `n` families.
pub open spec fn lines_upto(fs: Seq<FamilyModel>, n: int) -> Seq<Seq<char>>
    decreases n,
{
    if n <= 0 {
        Seq::empty()
    } else {
        lines_upto(fs, n - 1) + family_lines(fs[n - 1])
    }
}

/// The name of family `i`, counted from 0 in the order of the text.
pub open spec fn family_name(i: int) -> Seq<char> {
    if i == 0 {
        "sigtran_loops_detected_total"@
    } else if i == 1 {
        "sigtran_isup_screened_total"@
    } else if i == 2 {
        "sigtran_msu_total"@
    } else if i == 3 {
        "sigtran_gtt_translations_total"@
    } else if i == 4 {
        "sigtran_gtt_errors_total"@
    } else if i == 5 {
        "sigtran_active_dialogues"@
    } else if i == 6 {
        "sigtran_dialogue_timeouts_total"@
    } else if i == 7 {
        "sigtran_abort_total"@
    } else if i == 8 {
        "sigtran_association_state"@
    } else if i == 9 {
        "sigtran_asp_state"@
    } else if i == 10 {
        "sigtran_linkset_available"@
    } else if i == 11 {
        "sigtran_linkset_active_links"@
    } else if i == 12 {
        "sigtran_m2pa_link_state"@
    } else if i == 13 {
        "sigtran_route_available"@
    } else if i == 14 {
        "sigtran_mtp3mg_events_total"@
    } else if i == 15 {
        "sigtran_content_rule_hits_total"@
    } else {
        "sigtran_invoke_timeouts_total"@
    }
}

/// The help text of family `i`.
pub open spec fn family_help(i: int) -> Seq<char> {
    if i == 0 {
        "MSUs dropped by the MTP3 transfer-path loop guards."@
    } else if i == 1 {
        "ISUP MSUs dropped by the SI=5 transit-path screening rules, by reason."@
    } else if i == 2 {
        "MSUs handled, by direction and Service Indicator."@
    } else if i == 3 {
        "Successful GTT translations, by result kind."@
    } else if i == 4 {
        "Failed GTT lookups, by reason."@
    } else if i == 5 {
        "Currently open TCAP dialogues."@
    } else if i == 6 {
        "Dialogues aged out by the dialogue timer."@
    } else if i == 7 {
        "TCAP aborts, by source."@
    } else if i == 8 {
        "SCTP association state (0 down, 1 up, 2 adaptation active)."@
    } else if i == 9 {
        "M3UA ASP state (0 inactive, 1 active)."@
    } else if i == 10 {
        "M2PA linkset availability (0/1)."@
    } else if i == 11 {
        "In-service links in an M2PA linkset."@
    } else if i == 12 {
        "M2PA link state (0 failed, 1 aligned, 2 in-service)."@
    } else if i == 13 {
        "Whether a DPC currently resolves to an available egress (0/1)."@
    } else if i == 14 {
        "MTP3-management events, by DPC and type."@
    } else if i == 15 {
        "Content-routing rule hits, by rule and action."@
    } else {
        "Invokes aged out awaiting a result, by operation."@
    }
}

/// The name ends in `_total`.
pub open spec fn is_total(name: Seq<char>) -> bool {
    &&& name.len() >= 6
    &&& name[name.len() - 6] == '_'
    &&& name[name.len() - 5] == 't'
    &&& name[name.len() - 4] == 'o'
    &&& name[name.len() - 3] == 't'
    &&& name[name.len() - 2] == 'a'
    &&& name[name.len() - 1] == 'l'
}

/// The type of a family: a counter if its name ends in `_total`, else a gauge.
pub open spec fn type_of(name: Seq<char>) -> Seq<char> {
    if is_total(name) {
        "counter"@
    } else {
        "gauge"@
    }
}

/// The samples of one direction among the first `n` service indicators: those that
/// have been counted.
pub open spec fn counted(m: &Metrics, dir: Dir, n: int) -> Seq<SampleModel>
    decreases n,
{
    if n <= 0 {
        Seq::empty()
    } else if m.msu_cells(dir)[n - 1] > 0 {
        counted(m, dir, n - 1).push(
            SampleModel {
                labels: seq![("dir"@, dir_label(dir)), ("si"@, decimal((n - 1) as nat))],
                value: decimal(m.msu_cells(dir)[n - 1] as nat),
            },
        )
    } else {
        counted(m, dir, n - 1)
    }
}

/// A sample of `sigtran_loops_detected_total`.
pub open spec fn loop_model(m: &Metrics, x: LoopKind) -> SampleModel {
    SampleModel {
        labels: seq![("kind"@, loop_kind_label(x))],
        value: decimal(m.loops@[loop_kind_slot(x)] as nat),
    }
}

/// A sample of `sigtran_isup_screened_total`.
pub open spec fn screen_model(m: &Metrics, x: ScreenReason) -> SampleModel {
    SampleModel {
        labels: seq![("reason"@, screen_reason_label(x))],
        value: decimal(m.screened@[screen_reason_slot(x)] as nat),
    }
}

/// A sample of `sigtran_gtt_translations_total`.
pub open spec fn translation_model(m: &Metrics, x: GttResultKind) -> SampleModel {
    SampleModel {
        labels: seq![("result"@, gtt_result_label(x))],
        value: decimal(m.translations@[gtt_result_slot(x)] as nat),
    }
}

/// A sample of `sigtran_gtt_errors_total`.
pub open spec fn error_model(m: &Metrics, x: GttError) -> SampleModel {
    SampleModel {
        labels: seq![("reason"@, gtt_error_label(x))],
        value: decimal(m.errors@[gtt_error_slot(x)] as nat),
    }
}

/// A sample of `sigtran_abort_total`.
pub open spec fn abort_model(m: &Metrics, x: AbortSource) -> SampleModel {
    SampleModel {
        labels: seq![("source"@, abort_source_label(x))],
        value: decimal(m.abort_counts@[abort_source_slot(x)] as nat),
    }
}

/// A sample of `sigtran_association_state`.
pub open spec fn association_model(m: &Metrics, i: int) -> SampleModel {
    SampleModel {
        labels: seq![("assoc"@, m.association_state.key_at(i).0), ("adaptation"@, m.association_state.key_at(i).1)],
        value: signed_decimal(m.association_state.value_at(i) as int),
    }
}

/// A sample of `sigtran_asp_state`.
pub open spec fn asp_model(m: &Metrics, i: int) -> SampleModel {
    SampleModel {
        labels: seq![("asp"@, m.asp_state.key_at(i).0), ("as"@, m.asp_state.key_at(i).1)],
        value: signed_decimal(m.asp_state.value_at(i) as int),
    }
}

/// A sample of `sigtran_linkset_available`.
pub open spec fn linkset_model(m: &Metrics, i: int) -> SampleModel {
    SampleModel {
        labels: seq![("linkset"@, m.linkset_available.key_at(i))],
        value: signed_decimal(m.linkset_available.value_at(i) as int),
    }
}

/// A sample of `sigtran_linkset_active_links`.
pub open spec fn link_count_model(m: &Metrics, i: int) -> SampleModel {
    SampleModel {
        labels: seq![("linkset"@, m.linkset_active_links.key_at(i))],
        value: signed_decimal(m.linkset_active_links.value_at(i) as int),
    }
}

/// A sample of `sigtran_m2pa_link_state`.
pub open spec fn link_state_model(m: &Metrics, i: int) -> SampleModel {
    SampleModel {
        labels: seq![("link"@, m.m2pa_link_state.key_at(i))],
        value: signed_decimal(m.m2pa_link_state.value_at(i) as int),
    }
}

/// A sample of `sigtran_route_available`.
pub open spec fn route_model(m: &Metrics, i: int) -> SampleModel {
    SampleModel {
        labels: seq![("dpc"@, decimal(m.route_available.key_at(i) as nat))],
        value: signed_decimal(m.route_available.value_at(i) as int),
    }
}

/// A sample of `sigtran_mtp3mg_events_total`.
pub open spec fn management_model(m: &Metrics, i: int) -> SampleModel {
    SampleModel {
        labels: seq![("dpc"@, decimal(m.management_events.key_at(i).0 as nat)), ("type"@, m.management_events.key_at(i).1)],
        value: decimal(m.management_events.value_at(i) as nat),
    }
}

/// A sample of `sigtran_content_rule_hits_total`.
pub open spec fn hit_model(m: &Metrics, i: int) -> SampleModel {
    SampleModel {
        labels: seq![("rule"@, m.rule_hits.key_at(i).0), ("action"@, m.rule_hits.key_at(i).1)],
        value: decimal(m.rule_hits.value_at(i) as nat),
    }
}

/// A sample of `sigtran_invoke_timeouts_total`.
pub open spec fn invoke_model(m: &Metrics, i: int) -> SampleModel {
    SampleModel {
        labels: seq![("operation"@, signed_decimal(m.operation_timeouts.key_at(i) as int))],
        value: decimal(m.operation_timeouts.value_at(i) as nat),
    }
}

/// The samples of family `i`.
pub open spec fn family_samples(m: &Metrics, i: int) -> Seq<SampleModel> {
    if i == 0 {
        seq![loop_model(m, LoopKind::OwnOpc), loop_model(m, LoopKind::RouteReflect), loop_model(m, LoopKind::HopCounter)]
    } else if i == 1 {
        seq![screen_model(m, ScreenReason::Rule), screen_model(m, ScreenReason::Default), screen_model(m, ScreenReason::DecodeError)]
    } else if i == 2 {
        counted(m, Dir::Rx, 16) + counted(m, Dir::Tx, 16)
    } else if i == 3 {
        seq![translation_model(m, GttResultKind::Local), translation_model(m, GttResultKind::Dpc), translation_model(m, GttResultKind::Group), translation_model(m, GttResultKind::Tenant)]
    } else if i == 4 {
        seq![error_model(m, GttError::NoTranslation), error_model(m, GttError::SsnProhibited), error_model(m, GttError::NoRoute)]
    } else if i == 5 {
        seq![SampleModel { labels: seq![], value: signed_decimal(m.active as int) }]
    } else if i == 6 {
        seq![SampleModel { labels: seq![], value: decimal(m.timeouts as nat) }]
    } else if i == 7 {
        seq![abort_model(m, AbortSource::User), abort_model(m, AbortSource::Provider), abort_model(m, AbortSource::Local)]
    } else if i == 8 {
        Seq::new(m.association_state.size(), |j: int| association_model(m, j))
    } else if i == 9 {
        Seq::new(m.asp_state.size(), |j: int| asp_model(m, j))
    } else if i == 10 {
        Seq::new(m.linkset_available.size(), |j: int| linkset_model(m, j))
    } else if i == 11 {
        Seq::new(m.linkset_active_links.size(), |j: int| link_count_model(m, j))
    } else if i == 12 {
        Seq::new(m.m2pa_link_state.size(), |j: int| link_state_model(m, j))
    } else if i == 13 {
        Seq::new(m.route_available.size(), |j: int| route_model(m, j))
    } else if i == 14 {
        Seq::new(m.management_events.size(), |j: int| management_model(m, j))
    } else if i == 15 {
        Seq::new(m.rule_hits.size(), |j: int| hit_model(m, j))
    } else {
        Seq::new(m.operation_timeouts.size(), |j: int| invoke_model(m, j))
    }
}

/// Family `i` of the text.
pub open spec fn family(m: &Metrics, i: int) -> FamilyModel {
    FamilyModel {
        name: family_name(i),
        help: family_help(i),
        ty: type_of(family_name(i)),
        samples: family_samples(m, i),
    }
}

/// The families of the text, in order.
pub open spec fn families(m: &Metrics) -> Seq<FamilyModel> {
    Seq::new(17, |i: int| family(m, i))
}

// ── The text is the text of the families ────────────────────────────────────

spec fn samples_text(name: Seq<char>, ss: Seq<SampleModel>) -> Seq<char>
    decreases ss.len(),
{
    if ss.len() == 0 {
        Seq::empty()
    } else {
        samples_text(name, ss.drop_last()) + sample(name, ss.last().labels, ss.last().value)
    }
}

proof fn samples_text_sum(name: Seq<char>, a: Seq<SampleModel>, b: Seq<SampleModel>)
    ensures
        samples_text(name, a + b) == samples_text(name, a) + samples_text(name, b),
    decreases b.len(),
{
    if b.len() == 0 {
        assert(a + b =~= a);
        assert(samples_text(name, a) + samples_text(name, b) =~= samples_text(name, a));
    } else {
        samples_text_sum(name, a, b.drop_last());
        assert((a + b).drop_last() =~= a + b.drop_last());
        assert(samples_text(name, a + b) =~= samples_text(name, a) + samples_text(name, b));
    }
}

proof fn samples_text_one(name: Seq<char>, a: SampleModel)
    ensures
        samples_text(name, seq![a]) == sample(name, a.labels, a.value),
{
    assert(seq![a].drop_last() =~= Seq::empty());
    assert(samples_text(name, seq![a].drop_last()) =~= Seq::empty());
    assert(samples_text(name, seq![a]) =~= sample(name, a.labels, a.value));
}

proof fn samples_text_three(name: Seq<char>, a: SampleModel, b: SampleModel, c: SampleModel)
    ensures
        samples_text(name, seq![a, b, c]) == sample(name, a.labels, a.value) + sample(
            name,
            b.labels,
            b.value,
        ) + sample(name, c.labels, c.value),
{
    samples_text_one(name, a);
    samples_text_one(name, b);
    samples_text_one(name, c);
    samples_text_sum(name, seq![a], seq![b]);
    samples_text_sum(name, seq![a] + seq![b], seq![c]);
    assert(seq![a] + seq![b] + seq![c] =~= seq![a, b, c]);
}

proof fn samples_text_four(
    name: Seq<char>,
    a: SampleModel,
    b: SampleModel,
    c: SampleModel,
    d: SampleModel,
)
    ensures
        samples_text(name, seq![a, b, c, d]) == sample(name, a.labels, a.value) + sample(
            name,
            b.labels,
            b.value,
        ) + sample(name, c.labels, c.value) + sample(name, d.labels, d.value),
{
    samples_text_three(name, a, b, c);
    samples_text_one(name, d);
    samples_text_sum(name, seq![a, b, c], seq![d]);
    assert(seq![a, b, c] + seq![d] =~= seq![a, b, c, d]);
}

proof fn joined_samples(
    name: Seq<char>,
    f: spec_fn(int) -> Seq<char>,
    g: spec_fn(int) -> SampleModel,
    n: nat,
)
    requires
        forall|i: int| 0 <= i < n ==> #[trigger] f(i) == sample(name, g(i).labels, g(i).value),
    ensures
        joined(f, n as int) == samples_text(name, Seq::new(n, g)),
    decreases n,
{
    let all = Seq::new(n, g);
    if n > 0 {
        joined_samples(name, f, g, (n - 1) as nat);
        assert(all.drop_last() =~= Seq::new((n - 1) as nat, g));
        assert(f(n - 1) == sample(name, g(n - 1).labels, g(n - 1).value));
    }
}

proof fn joined_counted(m: &Metrics, dir: Dir, n: int)
    requires
        0 <= n <= 16,
    ensures
        joined(msu_samples(m, dir), n) == samples_text("sigtran_msu_total"@, counted(m, dir, n)),
    decreases n,
{
    if n > 0 {
        joined_counted(m, dir, n - 1);
        assert(msu_samples(m, dir)(n - 1) == msu_sample(m, dir, n - 1));
        let before = joined(msu_samples(m, dir), n - 1);
        if m.msu_cells(dir)[n - 1] > 0 {
            let s = counted(m, dir, n);
            assert(s.drop_last() =~= counted(m, dir, n - 1));
        } else {
            assert(before + msu_sample(m, dir, n - 1) =~= before);
        }
    }
}

proof fn text_of_family(f: FamilyModel, n: int)
    requires
        0 <= n <= f.samples.len(),
    ensures
        text_of(family_lines(FamilyModel { samples: f.samples.subrange(0, n), ..f })) == header(
            f.name,
            f.help,
            f.ty,
        ) + samples_text(f.name, f.samples.subrange(0, n)),
    decreases n,
{
    let part = FamilyModel { samples: f.samples.subrange(0, n), ..f };
    let ls = family_lines(part);
    if n == 0 {
        let help = "# HELP "@ + f.name + " "@ + f.help;
        let ty = "# TYPE "@ + f.name + " "@ + f.ty;
        reveal_strlit("\n# TYPE ");
        reveal_strlit("# TYPE ");
        reveal_strlit("\n");
        assert(ls =~= seq![help, ty]);
        assert(ls.drop_last() =~= seq![help]);
        assert(ls.drop_last().drop_last() =~= Seq::empty());
        assert("\n# TYPE "@ =~= "\n"@ + "# TYPE "@);
        assert(text_of(ls.drop_last().drop_last()) =~= Seq::empty());
        assert(text_of(ls.drop_last()) == text_of(ls.drop_last().drop_last()) + help + "\n"@);
        assert(text_of(ls.drop_last()) =~= help + "\n"@);
        assert(text_of(ls) =~= help + "\n"@ + ty + "\n"@);
        assert(text_of(ls) =~= header(f.name, f.help, f.ty));
        assert(header(f.name, f.help, f.ty) + samples_text(f.name, f.samples.subrange(0, 0))
            =~= header(f.name, f.help, f.ty));
    } else {
        text_of_family(f, n - 1);
        let less = FamilyModel { samples: f.samples.subrange(0, n - 1), ..f };
        let s = f.samples[n - 1];
        assert(part.samples.drop_last() =~= less.samples);
        assert(part.samples.last() == s);
        assert(ls.drop_last() =~= family_lines(less));
        assert(ls.last() == sample_line(f.name, s));
        assert(sample_line(f.name, s) + "\n"@ =~= sample(f.name, s.labels, s.value));
        assert(text_of(ls) =~= text_of(family_lines(less)) + sample(f.name, s.labels, s.value));
        assert(samples_text(f.name, part.samples) == samples_text(f.name, less.samples) + sample(
            f.name,
            s.labels,
            s.value,
        ));
        assert(text_of(ls) =~= header(f.name, f.help, f.ty) + samples_text(f.name, part.samples));
    }
}

proof fn text_of_whole_family(f: FamilyModel)
    ensures
        text_of(family_lines(f)) == header(f.name, f.help, f.ty) + samples_text(f.name, f.samples),
{
    text_of_family(f, f.samples.len() as int);
    assert(f.samples.subrange(0, f.samples.len() as int) =~= f.samples);
    assert(FamilyModel { samples: f.samples.subrange(0, f.samples.len() as int), ..f } == f);
}

proof fn loop_name()
    ensures
        is_word("sigtran_loops_detected_total"@),
        "sigtran_loops_detected_total"@.len() == 28,
        "sigtran_loops_detected_total"@[0] == 's',
        "sigtran_loops_detected_total"@[13] == '_',
        type_of("sigtran_loops_detected_total"@) == "counter"@,
        one_line("MSUs dropped by the MTP3 transfer-path loop guards."@),
{
    reveal_strlit("sigtran_loops_detected_total");
    reveal_strlit("MSUs dropped by the MTP3 transfer-path loop guards.");
    reveal_with_fuel(free_of_stops, 29);
    reveal_with_fuel(free_of_newlines, 52);
    assert(free_of_stops("sigtran_loops_detected_total"@, 28));
    assert(free_of_newlines("MSUs dropped by the MTP3 transfer-path loop guards."@, 51));
    word_of("sigtran_loops_detected_total"@);
    line_of("MSUs dropped by the MTP3 transfer-path loop guards."@);
}

proof fn screen_name()
    ensures
        is_word("sigtran_isup_screened_total"@),
        "sigtran_isup_screened_total"@.len() == 27,
        "sigtran_isup_screened_total"@[0] == 's',
        "sigtran_isup_screened_total"@[13] == 's',
        type_of("sigtran_isup_screened_total"@) == "counter"@,
        one_line("ISUP MSUs dropped by the SI=5 transit-path screening rules, by reason."@),
{
    reveal_strlit("sigtran_isup_screened_total");
    reveal_strlit("ISUP MSUs dropped by the SI=5 transit-path screening rules, by reason.");
    reveal_with_fuel(free_of_stops, 28);
    reveal_with_fuel(free_of_newlines, 71);
    assert(free_of_stops("sigtran_isup_screened_total"@, 27));
    assert(free_of_newlines("ISUP MSUs dropped by the SI=5 transit-path screening rules, by reason."@, 70));
    word_of("sigtran_isup_screened_total"@);
    line_of("ISUP MSUs dropped by the SI=5 transit-path screening rules, by reason."@);
}

proof fn msu_name()
    ensures
        is_word("sigtran_msu_total"@),
        "sigtran_msu_total"@.len() == 17,
        "sigtran_msu_total"@[0] == 's',
        "sigtran_msu_total"@[13] == 'o',
        type_of("sigtran_msu_total"@) == "counter"@,
        one_line("MSUs handled, by direction and Service Indicator."@),
{
    reveal_strlit("sigtran_msu_total");
    reveal_strlit("MSUs handled, by direction and Service Indicator.");
    reveal_with_fuel(free_of_stops, 18);
    reveal_with_fuel(free_of_newlines, 50);
    assert(free_of_stops("sigtran_msu_total"@, 17));
    assert(free_of_newlines("MSUs handled, by direction and Service Indicator."@, 49));
    word_of("sigtran_msu_total"@);
    line_of("MSUs handled, by direction and Service Indicator."@);
}

proof fn translation_name()
    ensures
        is_word("sigtran_gtt_translations_total"@),
        "sigtran_gtt_translations_total"@.len() == 30,
        "sigtran_gtt_translations_total"@[0] == 's',
        "sigtran_gtt_translations_total"@[13] == 'r',
        type_of("sigtran_gtt_translations_total"@) == "counter"@,
        one_line("Successful GTT translations, by result kind."@),
{
    reveal_strlit("sigtran_gtt_translations_total");
    reveal_strlit("Successful GTT translations, by result kind.");
    reveal_with_fuel(free_of_stops, 31);
    reveal_with_fuel(free_of_newlines, 45);
    assert(free_of_stops("sigtran_gtt_translations_total"@, 30));
    assert(free_of_newlines("Successful GTT translations, by result kind."@, 44));
    word_of("sigtran_gtt_translations_total"@);
    line_of("Successful GTT translations, by result kind."@);
}

proof fn error_name()
    ensures
        is_word("sigtran_gtt_errors_total"@),
        "sigtran_gtt_errors_total"@.len() == 24,
        "sigtran_gtt_errors_total"@[0] == 's',
        "sigtran_gtt_errors_total"@[13] == 'r',
        type_of("sigtran_gtt_errors_total"@) == "counter"@,
        one_line("Failed GTT lookups, by reason."@),
{
    reveal_strlit("sigtran_gtt_errors_total");
    reveal_strlit("Failed GTT lookups, by reason.");
    reveal_with_fuel(free_of_stops, 25);
    reveal_with_fuel(free_of_newlines, 31);
    assert(free_of_stops("sigtran_gtt_errors_total"@, 24));
    assert(free_of_newlines("Failed GTT lookups, by reason."@, 30));
    word_of("sigtran_gtt_errors_total"@);
    line_of("Failed GTT lookups, by reason."@);
}

proof fn active_name()
    ensures
        is_word("sigtran_active_dialogues"@),
        "sigtran_active_dialogues"@.len() == 24,
        "sigtran_active_dialogues"@[0] == 's',
        "sigtran_active_dialogues"@[13] == 'e',
        type_of("sigtran_active_dialogues"@) == "gauge"@,
        one_line("Currently open TCAP dialogues."@),
{
    reveal_strlit("sigtran_active_dialogues");
    reveal_strlit("Currently open TCAP dialogues.");
    reveal_with_fuel(free_of_stops, 25);
    reveal_with_fuel(free_of_newlines, 31);
    assert(free_of_stops("sigtran_active_dialogues"@, 24));
    assert(free_of_newlines("Currently open TCAP dialogues."@, 30));
    word_of("sigtran_active_dialogues"@);
    line_of("Currently open TCAP dialogues."@);
}

proof fn timeout_name()
    ensures
        is_word("sigtran_dialogue_timeouts_total"@),
        "sigtran_dialogue_timeouts_total"@.len() == 31,
        "sigtran_dialogue_timeouts_total"@[0] == 's',
        "sigtran_dialogue_timeouts_total"@[13] == 'g',
        type_of("sigtran_dialogue_timeouts_total"@) == "counter"@,
        one_line("Dialogues aged out by the dialogue timer."@),
{
    reveal_strlit("sigtran_dialogue_timeouts_total");
    reveal_strlit("Dialogues aged out by the dialogue timer.");
    reveal_with_fuel(free_of_stops, 32);
    reveal_with_fuel(free_of_newlines, 42);
    assert(free_of_stops("sigtran_dialogue_timeouts_total"@, 31));
    assert(free_of_newlines("Dialogues aged out by the dialogue timer."@, 41));
    word_of("sigtran_dialogue_timeouts_total"@);
    line_of("Dialogues aged out by the dialogue timer."@);
}

proof fn abort_name()
    ensures
        is_word("sigtran_abort_total"@),
        "sigtran_abort_total"@.len() == 19,
        "sigtran_abort_total"@[0] == 's',
        "sigtran_abort_total"@[13] == '_',
        type_of("sigtran_abort_total"@) == "counter"@,
        one_line("TCAP aborts, by source."@),
{
    reveal_strlit("sigtran_abort_total");
    reveal_strlit("TCAP aborts, by source.");
    reveal_with_fuel(free_of_stops, 20);
    reveal_with_fuel(free_of_newlines, 24);
    assert(free_of_stops("sigtran_abort_total"@, 19));
    assert(free_of_newlines("TCAP aborts, by source."@, 23));
    word_of("sigtran_abort_total"@);
    line_of("TCAP aborts, by source."@);
}

proof fn association_name()
    ensures
        is_word("sigtran_association_state"@),
        "sigtran_association_state"@.len() == 25,
        "sigtran_association_state"@[0] == 's',
        "sigtran_association_state"@[13] == 'i',
        type_of("sigtran_association_state"@) == "gauge"@,
        one_line("SCTP association state (0 down, 1 up, 2 adaptation active)."@),
{
    reveal_strlit("sigtran_association_state");
    reveal_strlit("SCTP association state (0 down, 1 up, 2 adaptation active).");
    reveal_with_fuel(free_of_stops, 26);
    reveal_with_fuel(free_of_newlines, 60);
    assert(free_of_stops("sigtran_association_state"@, 25));
    assert(free_of_newlines("SCTP association state (0 down, 1 up, 2 adaptation active)."@, 59));
    word_of("sigtran_association_state"@);
    line_of("SCTP association state (0 down, 1 up, 2 adaptation active)."@);
}

proof fn asp_name()
    ensures
        is_word("sigtran_asp_state"@),
        "sigtran_asp_state"@.len() == 17,
        "sigtran_asp_state"@[0] == 's',
        "sigtran_asp_state"@[13] == 't',
        type_of("sigtran_asp_state"@) == "gauge"@,
        one_line("M3UA ASP state (0 inactive, 1 active)."@),
{
    reveal_strlit("sigtran_asp_state");
    reveal_strlit("M3UA ASP state (0 inactive, 1 active).");
    reveal_with_fuel(free_of_stops, 18);
    reveal_with_fuel(free_of_newlines, 39);
    assert(free_of_stops("sigtran_asp_state"@, 17));
    assert(free_of_newlines("M3UA ASP state (0 inactive, 1 active)."@, 38));
    word_of("sigtran_asp_state"@);
    line_of("M3UA ASP state (0 inactive, 1 active)."@);
}

proof fn linkset_name()
    ensures
        is_word("sigtran_linkset_available"@),
        "sigtran_linkset_available"@.len() == 25,
        "sigtran_linkset_available"@[0] == 's',
        "sigtran_linkset_available"@[13] == 'e',
        type_of("sigtran_linkset_available"@) == "gauge"@,
        one_line("M2PA linkset availability (0/1)."@),
{
    reveal_strlit("sigtran_linkset_available");
    reveal_strlit("M2PA linkset availability (0/1).");
    reveal_with_fuel(free_of_stops, 26);
    reveal_with_fuel(free_of_newlines, 33);
    assert(free_of_stops("sigtran_linkset_available"@, 25));
    assert(free_of_newlines("M2PA linkset availability (0/1)."@, 32));
    word_of("sigtran_linkset_available"@);
    line_of("M2PA linkset availability (0/1)."@);
}

proof fn link_count_name()
    ensures
        is_word("sigtran_linkset_active_links"@),
        "sigtran_linkset_active_links"@.len() == 28,
        "sigtran_linkset_active_links"@[0] == 's',
        "sigtran_linkset_active_links"@[13] == 'e',
        type_of("sigtran_linkset_active_links"@) == "gauge"@,
        one_line("In-service links in an M2PA linkset."@),
{
    reveal_strlit("sigtran_linkset_active_links");
    reveal_strlit("In-service links in an M2PA linkset.");
    reveal_with_fuel(free_of_stops, 29);
    reveal_with_fuel(free_of_newlines, 37);
    assert(free_of_stops("sigtran_linkset_active_links"@, 28));
    assert(free_of_newlines("In-service links in an M2PA linkset."@, 36));
    word_of("sigtran_linkset_active_links"@);
    line_of("In-service links in an M2PA linkset."@);
}

proof fn link_state_name()
    ensures
        is_word("sigtran_m2pa_link_state"@),
        "sigtran_m2pa_link_state"@.len() == 23,
        "sigtran_m2pa_link_state"@[0] == 's',
        "sigtran_m2pa_link_state"@[13] == 'l',
        type_of("sigtran_m2pa_link_state"@) == "gauge"@,
        one_line("M2PA link state (0 failed, 1 aligned, 2 in-service)."@),
{
    reveal_strlit("sigtran_m2pa_link_state");
    reveal_strlit("M2PA link state (0 failed, 1 aligned, 2 in-service).");
    reveal_with_fuel(free_of_stops, 24);
    reveal_with_fuel(free_of_newlines, 53);
    assert(free_of_stops("sigtran_m2pa_link_state"@, 23));
    assert(free_of_newlines("M2PA link state (0 failed, 1 aligned, 2 in-service)."@, 52));
    word_of("sigtran_m2pa_link_state"@);
    line_of("M2PA link state (0 failed, 1 aligned, 2 in-service)."@);
}

proof fn route_name()
    ensures
        is_word("sigtran_route_available"@),
        "sigtran_route_available"@.len() == 23,
        "sigtran_route_available"@[0] == 's',
        "sigtran_route_available"@[13] == '_',
        type_of("sigtran_route_available"@) == "gauge"@,
        one_line("Whether a DPC currently resolves to an available egress (0/1)."@),
{
    reveal_strlit("sigtran_route_available");
    reveal_strlit("Whether a DPC currently resolves to an available egress (0/1).");
    reveal_with_fuel(free_of_stops, 24);
    reveal_with_fuel(free_of_newlines, 63);
    assert(free_of_stops("sigtran_route_available"@, 23));
    assert(free_of_newlines("Whether a DPC currently resolves to an available egress (0/1)."@, 62));
    word_of("sigtran_route_available"@);
    line_of("Whether a DPC currently resolves to an available egress (0/1)."@);
}

proof fn management_name()
    ensures
        is_word("sigtran_mtp3mg_events_total"@),
        "sigtran_mtp3mg_events_total"@.len() == 27,
        "sigtran_mtp3mg_events_total"@[0] == 's',
        "sigtran_mtp3mg_events_total"@[13] == 'g',
        type_of("sigtran_mtp3mg_events_total"@) == "counter"@,
        one_line("MTP3-management events, by DPC and type."@),
{
    reveal_strlit("sigtran_mtp3mg_events_total");
    reveal_strlit("MTP3-management events, by DPC and type.");
    reveal_with_fuel(free_of_stops, 28);
    reveal_with_fuel(free_of_newlines, 41);
    assert(free_of_stops("sigtran_mtp3mg_events_total"@, 27));
    assert(free_of_newlines("MTP3-management events, by DPC and type."@, 40));
    word_of("sigtran_mtp3mg_events_total"@);
    line_of("MTP3-management events, by DPC and type."@);
}

proof fn hit_name()
    ensures
        is_word("sigtran_content_rule_hits_total"@),
        "sigtran_content_rule_hits_total"@.len() == 31,
        "sigtran_content_rule_hits_total"@[0] == 's',
        "sigtran_content_rule_hits_total"@[13] == 'n',
        type_of("sigtran_content_rule_hits_total"@) == "counter"@,
        one_line("Content-routing rule hits, by rule and action."@),
{
    reveal_strlit("sigtran_content_rule_hits_total");
    reveal_strlit("Content-routing rule hits, by rule and action.");
    reveal_with_fuel(free_of_stops, 32);
    reveal_with_fuel(free_of_newlines, 47);
    assert(free_of_stops("sigtran_content_rule_hits_total"@, 31));
    assert(free_of_newlines("Content-routing rule hits, by rule and action."@, 46));
    word_of("sigtran_content_rule_hits_total"@);
    line_of("Content-routing rule hits, by rule and action."@);
}

proof fn invoke_name()
    ensures
        is_word("sigtran_invoke_timeouts_total"@),
        "sigtran_invoke_timeouts_total"@.len() == 29,
        "sigtran_invoke_timeouts_total"@[0] == 's',
        "sigtran_invoke_timeouts_total"@[13] == 'e',
        type_of("sigtran_invoke_timeouts_total"@) == "counter"@,
        one_line("Invokes aged out awaiting a result, by operation."@),
{
    reveal_strlit("sigtran_invoke_timeouts_total");
    reveal_strlit("Invokes aged out awaiting a result, by operation.");
    reveal_with_fuel(free_of_stops, 30);
    reveal_with_fuel(free_of_newlines, 50);
    assert(free_of_stops("sigtran_invoke_timeouts_total"@, 29));
    assert(free_of_newlines("Invokes aged out awaiting a result, by operation."@, 49));
    word_of("sigtran_invoke_timeouts_total"@);
    line_of("Invokes aged out awaiting a result, by operation."@);
}

/// A key that names a label: one line, and not `tenant`.
pub open spec fn is_key(k: Seq<char>) -> bool {
    one_line(k) && k != "tenant"@
}

proof fn label_keys()
    ensures
        is_key("kind"@),
        is_key("reason"@),
        is_key("dir"@),
        is_key("si"@),
        is_key("result"@),
        is_key("source"@),
        is_key("assoc"@),
        is_key("adaptation"@),
        is_key("asp"@),
        is_key("as"@),
        is_key("linkset"@),
        is_key("link"@),
        is_key("dpc"@),
        is_key("type"@),
        is_key("rule"@),
        is_key("action"@),
        is_key("operation"@),
{
    reveal_strlit("tenant");
    reveal_with_fuel(free_of_newlines, 11);
    reveal_strlit("kind");
    reveal_strlit("reason");
    reveal_strlit("dir");
    reveal_strlit("si");
    reveal_strlit("result");
    reveal_strlit("source");
    reveal_strlit("assoc");
    reveal_strlit("adaptation");
    reveal_strlit("asp");
    reveal_strlit("as");
    reveal_strlit("linkset");
    reveal_strlit("link");
    reveal_strlit("dpc");
    reveal_strlit("type");
    reveal_strlit("rule");
    reveal_strlit("action");
    reveal_strlit("operation");
    assert(free_of_newlines("kind"@, 4));
    line_of("kind"@);
    assert("kind"@.len() != "tenant"@.len());
    assert(free_of_newlines("reason"@, 6));
    line_of("reason"@);
    assert("reason"@[0] != "tenant"@[0]);
    assert(free_of_newlines("dir"@, 3));
    line_of("dir"@);
    assert("dir"@.len() != "tenant"@.len());
    assert(free_of_newlines("si"@, 2));
    line_of("si"@);
    assert("si"@.len() != "tenant"@.len());
    assert(free_of_newlines("result"@, 6));
    line_of("result"@);
    assert("result"@[0] != "tenant"@[0]);
    assert(free_of_newlines("source"@, 6));
    line_of("source"@);
    assert("source"@[0] != "tenant"@[0]);
    assert(free_of_newlines("assoc"@, 5));
    line_of("assoc"@);
    assert("assoc"@.len() != "tenant"@.len());
    assert(free_of_newlines("adaptation"@, 10));
    line_of("adaptation"@);
    assert("adaptation"@.len() != "tenant"@.len());
    assert(free_of_newlines("asp"@, 3));
    line_of("asp"@);
    assert("asp"@.len() != "tenant"@.len());
    assert(free_of_newlines("as"@, 2));
    line_of("as"@);
    assert("as"@.len() != "tenant"@.len());
    assert(free_of_newlines("linkset"@, 7));
    line_of("linkset"@);
    assert("linkset"@.len() != "tenant"@.len());
    assert(free_of_newlines("link"@, 4));
    line_of("link"@);
    assert("link"@.len() != "tenant"@.len());
    assert(free_of_newlines("dpc"@, 3));
    line_of("dpc"@);
    assert("dpc"@.len() != "tenant"@.len());
    assert(free_of_newlines("type"@, 4));
    line_of("type"@);
    assert("type"@.len() != "tenant"@.len());
    assert(free_of_newlines("rule"@, 4));
    line_of("rule"@);
    assert("rule"@.len() != "tenant"@.len());
    assert(free_of_newlines("action"@, 6));
    line_of("action"@);
    assert("action"@[0] != "tenant"@[0]);
    assert(free_of_newlines("operation"@, 9));
    line_of("operation"@);
    assert("operation"@.len() != "tenant"@.len());
}

/// Every label of a sample has a proper key.
pub open spec fn keys_are_known(s: SampleModel) -> bool {
    forall|k: int| 0 <= k < s.labels.len() ==> is_key((#[trigger] s.labels[k]).0)
}

/// Every label value of a sample, and its own value, is one line.
pub open spec fn values_are_lines(s: SampleModel) -> bool {
    &&& forall|k: int| 0 <= k < s.labels.len() ==> one_line((#[trigger] s.labels[k]).1)
    &&& one_line(s.value)
}

proof fn label_list_line(labels: Seq<(Seq<char>, Seq<char>)>, n: int)
    requires
        0 <= n <= labels.len(),
        forall|k: int| 0 <= k < labels.len() ==> one_line((#[trigger] labels[k]).0),
        forall|k: int| 0 <= k < labels.len() ==> one_line((#[trigger] labels[k]).1),
    ensures
        one_line(label_list(labels, n)),
    decreases n,
{
    if n > 0 {
        label_list_line(labels, n - 1);
        reveal_strlit(",");
        reveal_strlit("=\"");
        reveal_strlit("\"");
        let l = labels[n - 1];
        let a = label_list(labels, n - 1);
        let comma = if n > 1 {
            ","@
        } else {
            Seq::empty()
        };
        one_line_sum(a, comma);
        one_line_sum(a + comma, l.0);
        one_line_sum(a + comma + l.0, "=\""@);
        one_line_sum(a + comma + l.0 + "=\""@, l.1);
        one_line_sum(a + comma + l.0 + "=\""@ + l.1, "\""@);
    }
}

proof fn sample_is_line(name: Seq<char>, s: SampleModel)
    requires
        one_line(name),
        keys_are_known(s),
        values_are_lines(s),
    ensures
        one_line(sample_line(name, s)),
{
    reveal_strlit("{");
    reveal_strlit("}");
    reveal_strlit(" ");
    label_list_line(s.labels, s.labels.len() as int);
    let list = label_list(s.labels, s.labels.len() as int);
    one_line_sum("{"@, list);
    one_line_sum("{"@ + list, "}"@);
    one_line_sum(name, label_part(s.labels));
    one_line_sum(name + label_part(s.labels), " "@);
    one_line_sum(name + label_part(s.labels) + " "@, s.value);
}

proof fn loop_labels(x: LoopKind)
    ensures
        one_line(loop_kind_label(x)),
{
    reveal_with_fuel(free_of_newlines, 14);
    reveal_strlit("own-opc");
    reveal_strlit("route-reflect");
    reveal_strlit("hop-counter");
    assert(free_of_newlines("own-opc"@, 7));
    line_of("own-opc"@);
    assert(free_of_newlines("route-reflect"@, 13));
    line_of("route-reflect"@);
    assert(free_of_newlines("hop-counter"@, 11));
    line_of("hop-counter"@);
}

proof fn screen_labels(x: ScreenReason)
    ensures
        one_line(screen_reason_label(x)),
{
    reveal_with_fuel(free_of_newlines, 13);
    reveal_strlit("rule");
    reveal_strlit("default");
    reveal_strlit("decode-error");
    assert(free_of_newlines("rule"@, 4));
    line_of("rule"@);
    assert(free_of_newlines("default"@, 7));
    line_of("default"@);
    assert(free_of_newlines("decode-error"@, 12));
    line_of("decode-error"@);
}

proof fn translation_labels(x: GttResultKind)
    ensures
        one_line(gtt_result_label(x)),
{
    reveal_with_fuel(free_of_newlines, 7);
    reveal_strlit("local");
    reveal_strlit("dpc");
    reveal_strlit("group");
    reveal_strlit("tenant");
    assert(free_of_newlines("local"@, 5));
    line_of("local"@);
    assert(free_of_newlines("dpc"@, 3));
    line_of("dpc"@);
    assert(free_of_newlines("group"@, 5));
    line_of("group"@);
    assert(free_of_newlines("tenant"@, 6));
    line_of("tenant"@);
}

proof fn error_labels(x: GttError)
    ensures
        one_line(gtt_error_label(x)),
{
    reveal_with_fuel(free_of_newlines, 15);
    reveal_strlit("no-translation");
    reveal_strlit("ssn-prohibited");
    reveal_strlit("no-route");
    assert(free_of_newlines("no-translation"@, 14));
    line_of("no-translation"@);
    assert(free_of_newlines("ssn-prohibited"@, 14));
    line_of("ssn-prohibited"@);
    assert(free_of_newlines("no-route"@, 8));
    line_of("no-route"@);
}

proof fn abort_labels(x: AbortSource)
    ensures
        one_line(abort_source_label(x)),
{
    reveal_with_fuel(free_of_newlines, 9);
    reveal_strlit("user");
    reveal_strlit("provider");
    reveal_strlit("local");
    assert(free_of_newlines("user"@, 4));
    line_of("user"@);
    assert(free_of_newlines("provider"@, 8));
    line_of("provider"@);
    assert(free_of_newlines("local"@, 5));
    line_of("local"@);
}

proof fn dir_labels(x: Dir)
    ensures
        one_line(dir_label(x)),
        dir_label(x).len() == 2,
        dir_label(x)[0] == if x == Dir::Rx {
            'r'
        } else {
            't'
        },
{
    reveal_strlit("rx");
    reveal_strlit("tx");
    reveal_with_fuel(free_of_newlines, 3);
    assert(free_of_newlines("rx"@, 2));
    line_of("rx"@);
    assert(free_of_newlines("tx"@, 2));
    line_of("tx"@);
}

/// No stored label value holds a newline.
pub open spec fn labels_are_lines(m: &Metrics) -> bool {
    &&& forall|i: int|
        0 <= i < m.association_state.size() ==> are_lines(
            #[trigger] m.association_state.key_at(i),
        )
    &&& forall|i: int|
        0 <= i < m.asp_state.size() ==> are_lines(#[trigger] m.asp_state.key_at(i))
    &&& forall|i: int|
        0 <= i < m.linkset_available.size() ==> one_line(
            #[trigger] m.linkset_available.key_at(i),
        )
    &&& forall|i: int|
        0 <= i < m.linkset_active_links.size() ==> one_line(
            #[trigger] m.linkset_active_links.key_at(i),
        )
    &&& forall|i: int|
        0 <= i < m.m2pa_link_state.size() ==> one_line(#[trigger] m.m2pa_link_state.key_at(i))
    &&& forall|i: int|
        0 <= i < m.management_events.size() ==> one_line(
            (#[trigger] m.management_events.key_at(i)).1,
        )
    &&& forall|i: int|
        0 <= i < m.rule_hits.size() ==> are_lines(#[trigger] m.rule_hits.key_at(i))
}

/// Both label values hold no newline.
pub open spec fn are_lines(k: (Seq<char>, Seq<char>)) -> bool {
    one_line(k.0) && one_line(k.1)
}

/// A family that can be told apart by its lines.
spec fn is_fine(f: FamilyModel) -> bool {
    &&& is_word(f.name)
    &&& f.name.len() > 0
    &&& f.name[0] == 's'
    &&& one_line("# HELP "@ + f.name + " "@ + f.help)
    &&& one_line("# TYPE "@ + f.name + " "@ + f.ty)
    &&& forall|j: int|
        0 <= j < f.samples.len() ==> one_line(sample_line(f.name, #[trigger] f.samples[j]))
}

proof fn headers_are_lines(name: Seq<char>, help: Seq<char>, ty: Seq<char>)
    requires
        one_line(name),
        one_line(help),
        ty == "counter"@ || ty == "gauge"@,
    ensures
        one_line("# HELP "@ + name + " "@ + help),
        one_line("# TYPE "@ + name + " "@ + ty),
{
    reveal_strlit("# HELP ");
    reveal_strlit("# TYPE ");
    reveal_strlit(" ");
    reveal_strlit("counter");
    reveal_strlit("gauge");
    reveal_with_fuel(free_of_newlines, 8);
    assert(free_of_newlines("# HELP "@, 7));
    line_of("# HELP "@);
    assert(free_of_newlines("# TYPE "@, 7));
    line_of("# TYPE "@);
    assert(free_of_newlines("counter"@, 7));
    line_of("counter"@);
    assert(free_of_newlines("gauge"@, 5));
    line_of("gauge"@);
    one_line_sum("# HELP "@, name);
    one_line_sum("# HELP "@ + name, " "@);
    one_line_sum("# HELP "@ + name + " "@, help);
    one_line_sum("# TYPE "@, name);
    one_line_sum("# TYPE "@ + name, " "@);
    one_line_sum("# TYPE "@ + name + " "@, ty);
}

/// The samples of a family have proper keys, and one-line values if the stored
/// label values are.
spec fn samples_are_proper(m: &Metrics, ss: Seq<SampleModel>) -> bool {
    &&& forall|j: int| 0 <= j < ss.len() ==> keys_are_known(#[trigger] ss[j])
    &&& labels_are_lines(m) ==> forall|j: int|
        0 <= j < ss.len() ==> values_are_lines(#[trigger] ss[j])
}

proof fn counted_are_proper(m: &Metrics, dir: Dir, n: int)
    requires
        0 <= n <= 16,
    ensures
        samples_are_proper(m, counted(m, dir, n)),
    decreases n,
{
    if n > 0 {
        counted_are_proper(m, dir, n - 1);
        label_keys();
        dir_labels(dir);
        decimal_line((n - 1) as nat);
        decimal_line(m.msu_cells(dir)[n - 1] as nat);
    }
}

proof fn loop_proper(m: &Metrics)
    ensures
        samples_are_proper(m, family_samples(m, 0)),
{
    label_keys();
    loop_labels(LoopKind::OwnOpc);
    decimal_line(m.loops@[loop_kind_slot(LoopKind::OwnOpc)] as nat);
    loop_labels(LoopKind::RouteReflect);
    decimal_line(m.loops@[loop_kind_slot(LoopKind::RouteReflect)] as nat);
    loop_labels(LoopKind::HopCounter);
    decimal_line(m.loops@[loop_kind_slot(LoopKind::HopCounter)] as nat);
}

proof fn screen_proper(m: &Metrics)
    ensures
        samples_are_proper(m, family_samples(m, 1)),
{
    label_keys();
    screen_labels(ScreenReason::Rule);
    decimal_line(m.screened@[screen_reason_slot(ScreenReason::Rule)] as nat);
    screen_labels(ScreenReason::Default);
    decimal_line(m.screened@[screen_reason_slot(ScreenReason::Default)] as nat);
    screen_labels(ScreenReason::DecodeError);
    decimal_line(m.screened@[screen_reason_slot(ScreenReason::DecodeError)] as nat);
}

proof fn msu_proper(m: &Metrics)
    ensures
        samples_are_proper(m, family_samples(m, 2)),
{
    label_keys();
    counted_are_proper(m, Dir::Rx, 16);
    counted_are_proper(m, Dir::Tx, 16);
}

proof fn translation_proper(m: &Metrics)
    ensures
        samples_are_proper(m, family_samples(m, 3)),
{
    label_keys();
    translation_labels(GttResultKind::Local);
    decimal_line(m.translations@[gtt_result_slot(GttResultKind::Local)] as nat);
    translation_labels(GttResultKind::Dpc);
    decimal_line(m.translations@[gtt_result_slot(GttResultKind::Dpc)] as nat);
    translation_labels(GttResultKind::Group);
    decimal_line(m.translations@[gtt_result_slot(GttResultKind::Group)] as nat);
    translation_labels(GttResultKind::Tenant);
    decimal_line(m.translations@[gtt_result_slot(GttResultKind::Tenant)] as nat);
}

proof fn error_proper(m: &Metrics)
    ensures
        samples_are_proper(m, family_samples(m, 4)),
{
    label_keys();
    error_labels(GttError::NoTranslation);
    decimal_line(m.errors@[gtt_error_slot(GttError::NoTranslation)] as nat);
    error_labels(GttError::SsnProhibited);
    decimal_line(m.errors@[gtt_error_slot(GttError::SsnProhibited)] as nat);
    error_labels(GttError::NoRoute);
    decimal_line(m.errors@[gtt_error_slot(GttError::NoRoute)] as nat);
}

proof fn active_proper(m: &Metrics)
    ensures
        samples_are_proper(m, family_samples(m, 5)),
{
    label_keys();
    signed_decimal_line(m.active as int);
}

proof fn timeout_proper(m: &Metrics)
    ensures
        samples_are_proper(m, family_samples(m, 6)),
{
    label_keys();
    decimal_line(m.timeouts as nat);
}

proof fn abort_proper(m: &Metrics)
    ensures
        samples_are_proper(m, family_samples(m, 7)),
{
    label_keys();
    abort_labels(AbortSource::User);
    decimal_line(m.abort_counts@[abort_source_slot(AbortSource::User)] as nat);
    abort_labels(AbortSource::Provider);
    decimal_line(m.abort_counts@[abort_source_slot(AbortSource::Provider)] as nat);
    abort_labels(AbortSource::Local);
    decimal_line(m.abort_counts@[abort_source_slot(AbortSource::Local)] as nat);
}

proof fn association_proper(m: &Metrics)
    ensures
        samples_are_proper(m, family_samples(m, 8)),
{
    label_keys();
    let ss = family_samples(m, 8);
    assert forall|j: int| 0 <= j < ss.len() implies keys_are_known(#[trigger] ss[j]) && (
    labels_are_lines(m) ==> values_are_lines(ss[j])) by {
        assert(ss[j] == association_model(m, j));
        if labels_are_lines(m) {
            signed_decimal_line(m.association_state.value_at(j) as int);
        }
    }
}

proof fn asp_proper(m: &Metrics)
    ensures
        samples_are_proper(m, family_samples(m, 9)),
{
    label_keys();
    let ss = family_samples(m, 9);
    assert forall|j: int| 0 <= j < ss.len() implies keys_are_known(#[trigger] ss[j]) && (
    labels_are_lines(m) ==> values_are_lines(ss[j])) by {
        assert(ss[j] == asp_model(m, j));
        if labels_are_lines(m) {
            signed_decimal_line(m.asp_state.value_at(j) as int);
        }
    }
}

proof fn linkset_proper(m: &Metrics)
    ensures
        samples_are_proper(m, family_samples(m, 10)),
{
    label_keys();
    let ss = family_samples(m, 10);
    assert forall|j: int| 0 <= j < ss.len() implies keys_are_known(#[trigger] ss[j]) && (
    labels_are_lines(m) ==> values_are_lines(ss[j])) by {
        assert(ss[j] == linkset_model(m, j));
        if labels_are_lines(m) {
            signed_decimal_line(m.linkset_available.value_at(j) as int);
        }
    }
}

proof fn link_count_proper(m: &Metrics)
    ensures
        samples_are_proper(m, family_samples(m, 11)),
{
    label_keys();
    let ss = family_samples(m, 11);
    assert forall|j: int| 0 <= j < ss.len() implies keys_are_known(#[trigger] ss[j]) && (
    labels_are_lines(m) ==> values_are_lines(ss[j])) by {
        assert(ss[j] == link_count_model(m, j));
        if labels_are_lines(m) {
            signed_decimal_line(m.linkset_active_links.value_at(j) as int);
        }
    }
}

proof fn link_state_proper(m: &Metrics)
    ensures
        samples_are_proper(m, family_samples(m, 12)),
{
    label_keys();
    let ss = family_samples(m, 12);
    assert forall|j: int| 0 <= j < ss.len() implies keys_are_known(#[trigger] ss[j]) && (
    labels_are_lines(m) ==> values_are_lines(ss[j])) by {
        assert(ss[j] == link_state_model(m, j));
        if labels_are_lines(m) {
            signed_decimal_line(m.m2pa_link_state.value_at(j) as int);
        }
    }
}

proof fn route_proper(m: &Metrics)
    ensures
        samples_are_proper(m, family_samples(m, 13)),
{
    label_keys();
    let ss = family_samples(m, 13);
    assert forall|j: int| 0 <= j < ss.len() implies keys_are_known(#[trigger] ss[j]) && (
    labels_are_lines(m) ==> values_are_lines(ss[j])) by {
        assert(ss[j] == route_model(m, j));
        if labels_are_lines(m) {
            decimal_line(m.route_available.key_at(j) as nat);
            signed_decimal_line(m.route_available.value_at(j) as int);
        }
    }
}

proof fn management_proper(m: &Metrics)
    ensures
        samples_are_proper(m, family_samples(m, 14)),
{
    label_keys();
    let ss = family_samples(m, 14);
    assert forall|j: int| 0 <= j < ss.len() implies keys_are_known(#[trigger] ss[j]) && (
    labels_are_lines(m) ==> values_are_lines(ss[j])) by {
        assert(ss[j] == management_model(m, j));
        if labels_are_lines(m) {
            decimal_line(m.management_events.key_at(j).0 as nat);
            decimal_line(m.management_events.value_at(j) as nat);
        }
    }
}

proof fn hit_proper(m: &Metrics)
    ensures
        samples_are_proper(m, family_samples(m, 15)),
{
    label_keys();
    let ss = family_samples(m, 15);
    assert forall|j: int| 0 <= j < ss.len() implies keys_are_known(#[trigger] ss[j]) && (
    labels_are_lines(m) ==> values_are_lines(ss[j])) by {
        assert(ss[j] == hit_model(m, j));
        if labels_are_lines(m) {
            decimal_line(m.rule_hits.value_at(j) as nat);
        }
    }
}

proof fn invoke_proper(m: &Metrics)
    ensures
        samples_are_proper(m, family_samples(m, 16)),
{
    label_keys();
    let ss = family_samples(m, 16);
    assert forall|j: int| 0 <= j < ss.len() implies keys_are_known(#[trigger] ss[j]) && (
    labels_are_lines(m) ==> values_are_lines(ss[j])) by {
        assert(ss[j] == invoke_model(m, j));
        if labels_are_lines(m) {
            signed_decimal_line(m.operation_timeouts.key_at(j) as int);
            decimal_line(m.operation_timeouts.value_at(j) as nat);
        }
    }
}

proof fn family_is_proper(m: &Metrics, i: int)
    requires
        0 <= i < 17,
    ensures
        samples_are_proper(m, family(m, i).samples),
        labels_are_lines(m) ==> is_fine(family(m, i)),
{
    let f = family(m, i);
    if i == 0 {
        loop_name();
        loop_proper(m);
    } else if i == 1 {
        screen_name();
        screen_proper(m);
    } else if i == 2 {
        msu_name();
        msu_proper(m);
    } else if i == 3 {
        translation_name();
        translation_proper(m);
    } else if i == 4 {
        error_name();
        error_proper(m);
    } else if i == 5 {
        active_name();
        active_proper(m);
    } else if i == 6 {
        timeout_name();
        timeout_proper(m);
    } else if i == 7 {
        abort_name();
        abort_proper(m);
    } else if i == 8 {
        association_name();
        association_proper(m);
    } else if i == 9 {
        asp_name();
        asp_proper(m);
    } else if i == 10 {
        linkset_name();
        linkset_proper(m);
    } else if i == 11 {
        link_count_name();
        link_count_proper(m);
    } else if i == 12 {
        link_state_name();
        link_state_proper(m);
    } else if i == 13 {
        route_name();
        route_proper(m);
    } else if i == 14 {
        management_name();
        management_proper(m);
    } else if i == 15 {
        hit_name();
        hit_proper(m);
    } else {
        invoke_name();
        invoke_proper(m);
    }
    if labels_are_lines(m) {
        headers_are_lines(f.name, f.help, f.ty);
        assert forall|j: int| 0 <= j < f.samples.len() implies one_line(
            sample_line(f.name, #[trigger] f.samples[j]),
        ) by {
            sample_is_line(f.name, f.samples[j]);
        }
    }
}

proof fn loop_text(m: &Metrics)
    ensures
        text_of(family_lines(family(m, 0))) == loop_family(m),
{
    let f = family(m, 0);
    let n = "sigtran_loops_detected_total"@;
    loop_name();
    text_of_whole_family(f);
    samples_text_three(n, loop_model(m, LoopKind::OwnOpc), loop_model(m, LoopKind::RouteReflect), loop_model(m, LoopKind::HopCounter));
    assert(text_of(family_lines(f)) =~= loop_family(m));
}

proof fn screen_text(m: &Metrics)
    ensures
        text_of(family_lines(family(m, 1))) == screen_family(m),
{
    let f = family(m, 1);
    let n = "sigtran_isup_screened_total"@;
    screen_name();
    text_of_whole_family(f);
    samples_text_three(n, screen_model(m, ScreenReason::Rule), screen_model(m, ScreenReason::Default), screen_model(m, ScreenReason::DecodeError));
    assert(text_of(family_lines(f)) =~= screen_family(m));
}

proof fn msu_text(m: &Metrics)
    ensures
        text_of(family_lines(family(m, 2))) == msu_family(m),
{
    let f = family(m, 2);
    let n = "sigtran_msu_total"@;
    msu_name();
    text_of_whole_family(f);
    joined_counted(m, Dir::Rx, 16);
    joined_counted(m, Dir::Tx, 16);
    samples_text_sum(n, counted(m, Dir::Rx, 16), counted(m, Dir::Tx, 16));
    assert(text_of(family_lines(f)) =~= msu_family(m));
}

proof fn translation_text(m: &Metrics)
    ensures
        text_of(family_lines(family(m, 3))) == translation_family(m),
{
    let f = family(m, 3);
    let n = "sigtran_gtt_translations_total"@;
    translation_name();
    text_of_whole_family(f);
    samples_text_four(n, translation_model(m, GttResultKind::Local), translation_model(m, GttResultKind::Dpc), translation_model(m, GttResultKind::Group), translation_model(m, GttResultKind::Tenant));
    assert(text_of(family_lines(f)) =~= translation_family(m));
}

proof fn error_text(m: &Metrics)
    ensures
        text_of(family_lines(family(m, 4))) == error_family(m),
{
    let f = family(m, 4);
    let n = "sigtran_gtt_errors_total"@;
    error_name();
    text_of_whole_family(f);
    samples_text_three(n, error_model(m, GttError::NoTranslation), error_model(m, GttError::SsnProhibited), error_model(m, GttError::NoRoute));
    assert(text_of(family_lines(f)) =~= error_family(m));
}

proof fn active_text(m: &Metrics)
    ensures
        text_of(family_lines(family(m, 5))) == active_family(m),
{
    let f = family(m, 5);
    let n = "sigtran_active_dialogues"@;
    active_name();
    text_of_whole_family(f);
    samples_text_one(n, f.samples[0]);
    assert(text_of(family_lines(f)) =~= active_family(m));
}

proof fn timeout_text(m: &Metrics)
    ensures
        text_of(family_lines(family(m, 6))) == timeout_family(m),
{
    let f = family(m, 6);
    let n = "sigtran_dialogue_timeouts_total"@;
    timeout_name();
    text_of_whole_family(f);
    samples_text_one(n, f.samples[0]);
    assert(text_of(family_lines(f)) =~= timeout_family(m));
}

proof fn abort_text(m: &Metrics)
    ensures
        text_of(family_lines(family(m, 7))) == abort_family(m),
{
    let f = family(m, 7);
    let n = "sigtran_abort_total"@;
    abort_name();
    text_of_whole_family(f);
    samples_text_three(n, abort_model(m, AbortSource::User), abort_model(m, AbortSource::Provider), abort_model(m, AbortSource::Local));
    assert(text_of(family_lines(f)) =~= abort_family(m));
}

proof fn association_text(m: &Metrics)
    ensures
        text_of(family_lines(family(m, 8))) == association_family(m),
{
    let f = family(m, 8);
    let n = "sigtran_association_state"@;
    association_name();
    text_of_whole_family(f);
    let g = |j: int| association_model(m, j);
    assert forall|i: int| 0 <= i < m.association_state.size() implies #[trigger] association_family_samples(m)(i) == sample(
        n,
        g(i).labels,
        g(i).value,
    ) by {
        assert(association_family_samples(m)(i) == association_family_sample(m, i));
    }
    joined_samples(n, association_family_samples(m), g, m.association_state.size());
    assert(f.samples =~= Seq::new(m.association_state.size(), g));
    assert(text_of(family_lines(f)) =~= association_family(m));
}

proof fn asp_text(m: &Metrics)
    ensures
        text_of(family_lines(family(m, 9))) == asp_family(m),
{
    let f = family(m, 9);
    let n = "sigtran_asp_state"@;
    asp_name();
    text_of_whole_family(f);
    let g = |j: int| asp_model(m, j);
    assert forall|i: int| 0 <= i < m.asp_state.size() implies #[trigger] asp_family_samples(m)(i) == sample(
        n,
        g(i).labels,
        g(i).value,
    ) by {
        assert(asp_family_samples(m)(i) == asp_family_sample(m, i));
    }
    joined_samples(n, asp_family_samples(m), g, m.asp_state.size());
    assert(f.samples =~= Seq::new(m.asp_state.size(), g));
    assert(text_of(family_lines(f)) =~= asp_family(m));
}

proof fn linkset_text(m: &Metrics)
    ensures
        text_of(family_lines(family(m, 10))) == linkset_family(m),
{
    let f = family(m, 10);
    let n = "sigtran_linkset_available"@;
    linkset_name();
    text_of_whole_family(f);
    let g = |j: int| linkset_model(m, j);
    assert forall|i: int| 0 <= i < m.linkset_available.size() implies #[trigger] linkset_family_samples(m)(i) == sample(
        n,
        g(i).labels,
        g(i).value,
    ) by {
        assert(linkset_family_samples(m)(i) == linkset_family_sample(m, i));
    }
    joined_samples(n, linkset_family_samples(m), g, m.linkset_available.size());
    assert(f.samples =~= Seq::new(m.linkset_available.size(), g));
    assert(text_of(family_lines(f)) =~= linkset_family(m));
}

proof fn link_count_text(m: &Metrics)
    ensures
        text_of(family_lines(family(m, 11))) == link_count_family(m),
{
    let f = family(m, 11);
    let n = "sigtran_linkset_active_links"@;
    link_count_name();
    text_of_whole_family(f);
    let g = |j: int| link_count_model(m, j);
    assert forall|i: int| 0 <= i < m.linkset_active_links.size() implies #[trigger] link_count_family_samples(m)(i) == sample(
        n,
        g(i).labels,
        g(i).value,
    ) by {
        assert(link_count_family_samples(m)(i) == link_count_family_sample(m, i));
    }
    joined_samples(n, link_count_family_samples(m), g, m.linkset_active_links.size());
    assert(f.samples =~= Seq::new(m.linkset_active_links.size(), g));
    assert(text_of(family_lines(f)) =~= link_count_family(m));
}

proof fn link_state_text(m: &Metrics)
    ensures
        text_of(family_lines(family(m, 12))) == link_state_family(m),
{
    let f = family(m, 12);
    let n = "sigtran_m2pa_link_state"@;
    link_state_name();
    text_of_whole_family(f);
    let g = |j: int| link_state_model(m, j);
    assert forall|i: int| 0 <= i < m.m2pa_link_state.size() implies #[trigger] link_state_family_samples(m)(i) == sample(
        n,
        g(i).labels,
        g(i).value,
    ) by {
        assert(link_state_family_samples(m)(i) == link_state_family_sample(m, i));
    }
    joined_samples(n, link_state_family_samples(m), g, m.m2pa_link_state.size());
    assert(f.samples =~= Seq::new(m.m2pa_link_state.size(), g));
    assert(text_of(family_lines(f)) =~= link_state_family(m));
}

proof fn route_text(m: &Metrics)
    ensures
        text_of(family_lines(family(m, 13))) == route_family(m),
{
    let f = family(m, 13);
    let n = "sigtran_route_available"@;
    route_name();
    text_of_whole_family(f);
    let g = |j: int| route_model(m, j);
    assert forall|i: int| 0 <= i < m.route_available.size() implies #[trigger] route_family_samples(m)(i) == sample(
        n,
        g(i).labels,
        g(i).value,
    ) by {
        assert(route_family_samples(m)(i) == route_family_sample(m, i));
    }
    joined_samples(n, route_family_samples(m), g, m.route_available.size());
    assert(f.samples =~= Seq::new(m.route_available.size(), g));
    assert(text_of(family_lines(f)) =~= route_family(m));
}

proof fn management_text(m: &Metrics)
    ensures
        text_of(family_lines(family(m, 14))) == management_family(m),
{
    let f = family(m, 14);
    let n = "sigtran_mtp3mg_events_total"@;
    management_name();
    text_of_whole_family(f);
    let g = |j: int| management_model(m, j);
    assert forall|i: int| 0 <= i < m.management_events.size() implies #[trigger] management_family_samples(m)(i) == sample(
        n,
        g(i).labels,
        g(i).value,
    ) by {
        assert(management_family_samples(m)(i) == management_family_sample(m, i));
    }
    joined_samples(n, management_family_samples(m), g, m.management_events.size());
    assert(f.samples =~= Seq::new(m.management_events.size(), g));
    assert(text_of(family_lines(f)) =~= management_family(m));
}

proof fn hit_text(m: &Metrics)
    ensures
        text_of(family_lines(family(m, 15))) == hit_family(m),
{
    let f = family(m, 15);
    let n = "sigtran_content_rule_hits_total"@;
    hit_name();
    text_of_whole_family(f);
    let g = |j: int| hit_model(m, j);
    assert forall|i: int| 0 <= i < m.rule_hits.size() implies #[trigger] hit_family_samples(m)(i) == sample(
        n,
        g(i).labels,
        g(i).value,
    ) by {
        assert(hit_family_samples(m)(i) == hit_family_sample(m, i));
    }
    joined_samples(n, hit_family_samples(m), g, m.rule_hits.size());
    assert(f.samples =~= Seq::new(m.rule_hits.size(), g));
    assert(text_of(family_lines(f)) =~= hit_family(m));
}

proof fn invoke_text(m: &Metrics)
    ensures
        text_of(family_lines(family(m, 16))) == invoke_family(m),
{
    let f = family(m, 16);
    let n = "sigtran_invoke_timeouts_total"@;
    invoke_name();
    text_of_whole_family(f);
    let g = |j: int| invoke_model(m, j);
    assert forall|i: int| 0 <= i < m.operation_timeouts.size() implies #[trigger] invoke_family_samples(m)(i) == sample(
        n,
        g(i).labels,
        g(i).value,
    ) by {
        assert(invoke_family_samples(m)(i) == invoke_family_sample(m, i));
    }
    joined_samples(n, invoke_family_samples(m), g, m.operation_timeouts.size());
    assert(f.samples =~= Seq::new(m.operation_timeouts.size(), g));
    assert(text_of(family_lines(f)) =~= invoke_family(m));
}

proof fn one_more_family(fs: Seq<FamilyModel>, n: int)
    requires
        0 <= n < fs.len(),
    ensures
        text_of(lines_upto(fs, n + 1)) == text_of(lines_upto(fs, n)) + text_of(
            family_lines(fs[n]),
        ),
{
    text_of_sum(lines_upto(fs, n), family_lines(fs[n]));
}

/// The rendered text is the text of the families, one after the other.
pub proof fn law_text_is_the_families(m: &Metrics)
    ensures
        rendered(m) == text_of(lines_upto(families(m), 17)),
{
    let fs = families(m);
    assert(text_of(lines_upto(fs, 0)) =~= Seq::empty());
    loop_text(m);
    one_more_family(fs, 0);
    assert(text_of(lines_upto(fs, 1)) =~= loop_family(m));
    screen_text(m);
    one_more_family(fs, 1);
    msu_text(m);
    one_more_family(fs, 2);
    translation_text(m);
    one_more_family(fs, 3);
    error_text(m);
    one_more_family(fs, 4);
    active_text(m);
    one_more_family(fs, 5);
    timeout_text(m);
    one_more_family(fs, 6);
    abort_text(m);
    one_more_family(fs, 7);
    association_text(m);
    one_more_family(fs, 8);
    asp_text(m);
    one_more_family(fs, 9);
    linkset_text(m);
    one_more_family(fs, 10);
    link_count_text(m);
    one_more_family(fs, 11);
    link_state_text(m);
    one_more_family(fs, 12);
    route_text(m);
    one_more_family(fs, 13);
    management_text(m);
    one_more_family(fs, 14);
    hit_text(m);
    one_more_family(fs, 15);
    invoke_text(m);
    one_more_family(fs, 16);
}

proof fn placed(fs: Seq<FamilyModel>, n: int, k: int) -> (i: int)
    requires
        0 <= n <= fs.len(),
        0 <= k < lines_upto(fs, n).len(),
    ensures
        0 <= i < n,
        lines_upto(fs, i).len() <= k < lines_upto(fs, i).len() + family_lines(fs[i]).len(),
        lines_upto(fs, n)[k] == family_lines(fs[i])[k - lines_upto(fs, i).len()],
    decreases n,
{
    if k < lines_upto(fs, n - 1).len() {
        placed(fs, n - 1, k)
    } else {
        n - 1
    }
}

proof fn found(fs: Seq<FamilyModel>, n: int, i: int, j: int)
    requires
        0 <= i < n <= fs.len(),
        0 <= j < family_lines(fs[i]).len(),
    ensures
        lines_upto(fs, i).len() + j < lines_upto(fs, n).len(),
        lines_upto(fs, n)[lines_upto(fs, i).len() + j] == family_lines(fs[i])[j],
    decreases n,
{
    if i < n - 1 {
        found(fs, n - 1, i, j);
    }
}

proof fn lines_are_single(fs: Seq<FamilyModel>)
    requires
        forall|i: int| 0 <= i < fs.len() ==> is_fine(#[trigger] fs[i]),
    ensures
        lines_of(text_of(lines_upto(fs, fs.len() as int))) == lines_upto(fs, fs.len() as int),
{
    let n = fs.len() as int;
    let ls = lines_upto(fs, n);
    assert forall|k: int| 0 <= k < ls.len() implies one_line(#[trigger] ls[k]) by {
        let i = placed(fs, n, k);
        let f = fs[i];
        let j = k - lines_upto(fs, i).len();
        assert(is_fine(f));
        if j >= 2 {
            assert(family_lines(f)[j] == sample_line(f.name, f.samples[j - 2]));
        }
    }
    pieces_of_lines(ls);
    assert(ls.push(Seq::empty()).drop_last() =~= ls);
}

proof fn names_differ(i: int, j: int)
    requires
        0 <= i < 17,
        0 <= j < 17,
        family_name(i) == family_name(j),
    ensures
        i == j,
{
    loop_name();
    screen_name();
    msu_name();
    translation_name();
    error_name();
    active_name();
    timeout_name();
    abort_name();
    association_name();
    asp_name();
    linkset_name();
    link_count_name();
    link_state_name();
    route_name();
    management_name();
    hit_name();
    invoke_name();
}

// ── What a line is ──────────────────────────────────────────────────────────

/// The help line of a family.
pub open spec fn is_help(line: Seq<char>, name: Seq<char>) -> bool {
    begins_with(line, "# HELP "@ + name + " "@)
}

/// The type line of a family.
pub open spec fn is_type(line: Seq<char>, name: Seq<char>) -> bool {
    begins_with(line, "# TYPE "@ + name + " "@)
}

/// A sample of a family: its name, then a space or an opening brace.
pub open spec fn is_sample(line: Seq<char>, name: Seq<char>) -> bool {
    begins_with(line, name) && line.len() > name.len() && (line[name.len() as int] == ' '
        || line[name.len() as int] == '{')
}

/// A comment, as both header lines are.
pub open spec fn is_comment(line: Seq<char>) -> bool {
    line.len() > 0 && line[0] == '#'
}

/// Line `h` is the one help line of a family, the line after it the one type line,
/// and every sample of the family follows them before the next header.
pub open spec fn heads(ls: Seq<Seq<char>>, name: Seq<char>, h: int) -> bool {
    &&& 0 <= h < ls.len() - 1
    &&& is_help(ls[h], name)
    &&& ls[h + 1] == "# TYPE "@ + name + " "@ + type_of(name)
    &&& forall|k: int| 0 <= k < ls.len() && is_help(#[trigger] ls[k], name) ==> k == h
    &&& forall|k: int| 0 <= k < ls.len() && is_type(#[trigger] ls[k], name) ==> k == h + 1
    &&& forall|k: int|
        0 <= k < ls.len() && is_sample(#[trigger] ls[k], name) ==> h + 1 < k && forall|j: int|
            h + 1 < j <= k ==> !is_comment(#[trigger] ls[j])
}

proof fn same_word(line: Seq<char>, a: Seq<char>, b: Seq<char>)
    requires
        is_word(a),
        is_word(b),
        is_sample(line, a),
        is_sample(line, b),
    ensures
        a == b,
{
    if a.len() < b.len() {
        assert(line.subrange(0, b.len() as int)[a.len() as int] == line[a.len() as int]);
    }
    if b.len() < a.len() {
        assert(line.subrange(0, a.len() as int)[b.len() as int] == line[b.len() as int]);
    }
    assert(a =~= b);
}

proof fn headed_word(head: Seq<char>, name: Seq<char>, rest: Seq<char>, other: Seq<char>)
    requires
        is_word(name),
        is_word(other),
        begins_with(head + name + " "@ + rest, head + other + " "@),
    ensures
        name == other,
{
    reveal_strlit(" ");
    let line = head + name + " "@ + rest;
    let want = head + other + " "@;
    let tail = name + " "@ + rest;
    assert(line =~= head + tail);
    assert forall|i: int| 0 <= i < want.len() - head.len() implies tail[i] == want[head.len()
        + i] by {
        assert(line[head.len() + i] == tail[i]);
        assert(line.subrange(0, want.len() as int)[head.len() + i] == line[head.len() + i]);
    }
    assert(tail.subrange(0, name.len() as int) =~= name);
    assert(tail[name.len() as int] == ' ');
    assert forall|i: int| 0 <= i < other.len() implies tail[i] == other[i] by {
        assert(want[head.len() + i] == other[i]);
    }
    assert(tail.subrange(0, other.len() as int) =~= other);
    assert(want[(head.len() + other.len()) as int] == ' ');
    assert(tail[other.len() as int] == ' ');
    same_word(tail, name, other);
}

proof fn sample_line_shape(name: Seq<char>, s: SampleModel)
    ensures
        is_sample(sample_line(name, s), name),
{
    reveal_strlit(" ");
    reveal_strlit("{");
    let line = sample_line(name, s);
    let rest = label_part(s.labels) + " "@ + s.value;
    assert(line =~= name + rest);
    assert(line.subrange(0, name.len() as int) =~= name);
    assert(line[name.len() as int] == rest[0]);
}

/// What a line of a family is.
proof fn line_of_family(f: FamilyModel, j: int, name: Seq<char>)
    requires
        is_fine(f),
        is_word(name),
        name.len() > 0,
        name[0] == 's',
        0 <= j < family_lines(f).len(),
    ensures
        is_help(family_lines(f)[j], name) <==> j == 0 && name == f.name,
        is_type(family_lines(f)[j], name) <==> j == 1 && name == f.name,
        is_sample(family_lines(f)[j], name) <==> j >= 2 && name == f.name,
        is_comment(family_lines(f)[j]) <==> j < 2,
{
    let line = family_lines(f)[j];
    let help = "# HELP "@;
    let ty = "# TYPE "@;
    reveal_strlit("# HELP ");
    reveal_strlit("# TYPE ");
    let want_help = help + name + " "@;
    let want_type = ty + name + " "@;
    assert(want_help[0] == '#' && want_help[2] == 'H');
    assert(want_type[0] == '#' && want_type[2] == 'T');
    if is_help(line, name) {
        assert(line.subrange(0, want_help.len() as int)[0] == line[0]);
        assert(line.subrange(0, want_help.len() as int)[2] == line[2]);
    }
    if is_type(line, name) {
        assert(line.subrange(0, want_type.len() as int)[0] == line[0]);
        assert(line.subrange(0, want_type.len() as int)[2] == line[2]);
    }
    if is_sample(line, name) {
        assert(line.subrange(0, name.len() as int)[0] == line[0]);
    }
    if j == 0 {
        assert(line == help + f.name + " "@ + f.help);
        assert(line[0] == '#' && line[2] == 'H');
        if is_help(line, name) {
            headed_word(help, f.name, f.help, name);
        }
        if name == f.name {
            assert(line.subrange(0, want_help.len() as int) =~= want_help);
        }
    } else if j == 1 {
        assert(line == ty + f.name + " "@ + f.ty);
        assert(line[0] == '#' && line[2] == 'T');
        if is_type(line, name) {
            headed_word(ty, f.name, f.ty, name);
        }
        if name == f.name {
            assert(line.subrange(0, want_type.len() as int) =~= want_type);
        }
    } else {
        let s = f.samples[j - 2];
        assert(line == sample_line(f.name, s));
        sample_line_shape(f.name, s);
        assert(line.subrange(0, f.name.len() as int)[0] == line[0]);
        if is_sample(line, name) {
            same_word(line, f.name, name);
        }
    }
}

/// Families that can be told apart by their lines and by their names.
spec fn are_told_apart(fs: Seq<FamilyModel>) -> bool {
    &&& forall|i: int| 0 <= i < fs.len() ==> is_fine(#[trigger] fs[i])
    &&& forall|i: int, j: int|
        0 <= i < fs.len() && 0 <= j < fs.len() && (#[trigger] fs[i]).name == (
        #[trigger] fs[j]).name ==> i == j
}

proof fn one_header(fs: Seq<FamilyModel>, i: int)
    requires
        are_told_apart(fs),
        0 <= i < fs.len(),
        fs[i].ty == type_of(fs[i].name),
    ensures
        heads(
            lines_upto(fs, fs.len() as int),
            fs[i].name,
            lines_upto(fs, i).len() as int,
        ),
{
    let n = fs.len() as int;
    let ls = lines_upto(fs, n);
    let name = fs[i].name;
    let h = lines_upto(fs, i).len() as int;
    assert(is_fine(fs[i]));
    found(fs, n, i, 0);
    found(fs, n, i, 1);
    line_of_family(fs[i], 0, name);
    assert forall|k: int| 0 <= k < ls.len() implies (is_help(#[trigger] ls[k], name) ==> k == h) && (
    is_type(ls[k], name) ==> k == h + 1) && (is_sample(ls[k], name) ==> h + 1 < k && forall|j: int|
        h + 1 < j <= k ==> !is_comment(#[trigger] ls[j])) by {
        let at = placed(fs, n, k);
        let off = lines_upto(fs, at).len() as int;
        assert(is_fine(fs[at]));
        line_of_family(fs[at], k - off, name);
        if is_sample(ls[k], name) {
            assert(at == i);
            assert forall|j: int| h + 1 < j <= k implies !is_comment(#[trigger] ls[j]) by {
                found(fs, n, i, j - h);
                line_of_family(fs[i], j - h, name);
            }
        }
    }
}

proof fn families_are_told_apart(m: &Metrics)
    requires
        labels_are_lines(m),
    ensures
        are_told_apart(families(m)),
{
    let fs = families(m);
    assert forall|i: int| 0 <= i < fs.len() implies is_fine(#[trigger] fs[i]) by {
        family_is_proper(m, i);
    }
    assert forall|i: int, j: int|
        0 <= i < fs.len() && 0 <= j < fs.len() && (#[trigger] fs[i]).name == (
        #[trigger] fs[j]).name implies i == j by {
        names_differ(i, j);
    }
}

/// Each family has exactly one help line and, right after it, exactly one type
/// line: a counter if its name ends in `_total`, else a gauge. All its samples
/// follow that header. A stored label value with a newline in it could begin a line
/// of its own.
pub proof fn law_one_header_per_family(m: &Metrics, i: int)
    requires
        0 <= i < 17,
        labels_are_lines(m),
    ensures
        exists|h: int| heads(lines_of(rendered(m)), family_name(i), h),
{
    let fs = families(m);
    families_are_told_apart(m);
    law_text_is_the_families(m);
    lines_are_single(fs);
    one_header(fs, i);
    assert(fs[i].name == family_name(i));
    assert(heads(lines_of(rendered(m)), family_name(i), lines_upto(fs, i).len() as int));
}

/// No label is called `tenant`.
pub proof fn law_no_tenant_label(m: &Metrics, i: int, j: int, k: int)
    requires
        0 <= i < 17,
        0 <= j < families(m)[i].samples.len(),
        0 <= k < families(m)[i].samples[j].labels.len(),
    ensures
        families(m)[i].samples[j].labels[k].0 != "tenant"@,
{
    family_is_proper(m, i);
    let s = family(m, i).samples[j];
    assert(keys_are_known(s));
    assert(is_key(s.labels[k].0));
}

// ── Which units are shown ───────────────────────────────────────────────────

/// The labels of a sample of units.
pub open spec fn unit_labels(dir: Dir, si: int) -> Seq<(Seq<char>, Seq<char>)> {
    seq![("dir"@, dir_label(dir)), ("si"@, decimal(si as nat))]
}

/// A sample of the units of a direction and service indicator.
pub open spec fn is_unit_sample(line: Seq<char>, dir: Dir, si: int) -> bool {
    begins_with(line, "sigtran_msu_total"@ + label_part(unit_labels(dir, si)) + " "@)
}

spec fn counts(m: &Metrics, dir: Dir, si: int, s: SampleModel) -> bool {
    0 <= si < 16 && m.msu_cells(dir)[si] > 0 && s.labels == unit_labels(dir, si)
}

proof fn counted_sample(m: &Metrics, dir: Dir, n: int, j: int) -> (si: int)
    requires
        0 <= n <= 16,
        0 <= j < counted(m, dir, n).len(),
    ensures
        0 <= si < n,
        counts(m, dir, si, counted(m, dir, n)[j]),
    decreases n,
{
    if m.msu_cells(dir)[n - 1] > 0 && j == counted(m, dir, n).len() - 1 {
        n - 1
    } else {
        counted_sample(m, dir, n - 1, j)
    }
}

proof fn sample_counted(m: &Metrics, dir: Dir, n: int, si: int) -> (j: int)
    requires
        0 <= si < n <= 16,
        m.msu_cells(dir)[si] > 0,
    ensures
        0 <= j < counted(m, dir, n).len(),
        counts(m, dir, si, counted(m, dir, n)[j]),
    decreases n,
{
    if si == n - 1 {
        counted(m, dir, n).len() - 1
    } else {
        sample_counted(m, dir, n - 1, si)
    }
}

proof fn unit_labels_text(dir: Dir, si: int)
    ensures
        label_part(unit_labels(dir, si)) == "{"@ + "dir"@ + "=\""@ + dir_label(dir) + "\""@ + ","@
            + "si"@ + "=\""@ + decimal(si as nat) + "\""@ + "}"@,
{
    let ls = unit_labels(dir, si);
    reveal_with_fuel(label_list, 3);
    assert(label_part(ls) =~= "{"@ + "dir"@ + "=\""@ + dir_label(dir) + "\""@ + ","@ + "si"@
        + "=\""@ + decimal(si as nat) + "\""@ + "}"@);
}

proof fn decimal_differs(a: nat, b: nat)
    requires
        a < 16,
        b < 16,
        decimal(a) == decimal(b),
    ensures
        a == b,
{
    reveal_with_fuel(decimal, 2);
    assert(decimal(a).last() == digit(a % 10));
    assert(decimal(b).last() == digit(b % 10));
    assert(decimal(a).len() == if a < 10 {
        1nat
    } else {
        2
    });
    assert(decimal(b).len() == if b < 10 {
        1nat
    } else {
        2
    });
}

proof fn unit_samples_differ(
    rest: Seq<char>,
    dir: Dir,
    si: int,
    other: Dir,
    other_si: int,
)
    requires
        0 <= si < 16,
        0 <= other_si < 16,
        is_unit_sample(
            "sigtran_msu_total"@ + label_part(unit_labels(other, other_si)) + " "@ + rest,
            dir,
            si,
        ),
    ensures
        dir == other,
        si == other_si,
{
    let name = "sigtran_msu_total"@;
    let line = name + label_part(unit_labels(other, other_si)) + " "@ + rest;
    let want = name + label_part(unit_labels(dir, si)) + " "@;
    msu_name();
    dir_labels(dir);
    dir_labels(other);
    unit_labels_text(dir, si);
    unit_labels_text(other, other_si);
    reveal_strlit("{");
    reveal_strlit("dir");
    reveal_strlit("=\"");
    reveal_strlit("\"");
    reveal_strlit(",");
    reveal_strlit("si");
    assert forall|i: int| 0 <= i < want.len() implies line[i] == want[i] by {
        assert(line.subrange(0, want.len() as int)[i] == line[i]);
    }
    assert(want[23] == dir_label(dir)[0]);
    assert(line[23] == dir_label(other)[0]);
    let a = decimal(si as nat);
    let b = decimal(other_si as nat);
    decimal_is_digits(si as nat);
    decimal_is_digits(other_si as nat);
    let an = a.len() as int;
    let bn = b.len() as int;
    assert(want.subrange(31, 31 + an) =~= a);
    assert(line.subrange(31, 31 + bn) =~= b);
    assert(want[31 + an] == '"');
    assert(line[31 + bn] == '"');
    if an < bn {
        assert(line.subrange(31, 31 + bn)[an] == line[31 + an]);
        assert(line[31 + an] == want[31 + an]);
    }
    if bn < an {
        assert(want.subrange(31, 31 + an)[bn] == want[31 + bn]);
        assert(line[31 + bn] == want[31 + bn]);
    }
    assert(want.subrange(31, 31 + an) =~= line.subrange(31, 31 + bn));
    decimal_differs(si as nat, other_si as nat);
}

spec fn shows_units(ls: Seq<Seq<char>>, dir: Dir, si: int) -> bool {
    exists|k: int| 0 <= k < ls.len() && is_unit_sample(#[trigger] ls[k], dir, si)
}

proof fn counted_units_are_shown(
    m: &Metrics,
    fs: Seq<FamilyModel>,
    at: int,
    dir: Dir,
    si: int,
)
    requires
        0 <= at < fs.len(),
        fs[at].name == "sigtran_msu_total"@,
        fs[at].samples == counted(m, Dir::Rx, 16) + counted(m, Dir::Tx, 16),
        0 <= si < 16,
        m.msu_cells(dir)[si] > 0,
    ensures
        shows_units(lines_upto(fs, fs.len() as int), dir, si),
{
    let f = fs[at];
    let n = fs.len() as int;
    let ls = lines_upto(fs, n);
    let want = f.name + label_part(unit_labels(dir, si)) + " "@;
    let j = sample_counted(m, dir, 16, si);
    let place: int = if dir == Dir::Rx {
        j
    } else {
        counted(m, Dir::Rx, 16).len() + j
    };
    let s = f.samples[place];
    assert(counts(m, dir, si, s));
    found(fs, n, at, place + 2);
    let k = lines_upto(fs, at).len() + place + 2;
    assert(ls[k] == sample_line(f.name, s));
    assert(ls[k] =~= want + s.value);
    assert(ls[k].subrange(0, want.len() as int) =~= want);
    assert(is_unit_sample(ls[k], dir, si));
}

proof fn shown_units_are_counted(
    m: &Metrics,
    fs: Seq<FamilyModel>,
    at: int,
    dir: Dir,
    si: int,
)
    requires
        are_told_apart(fs),
        0 <= at < fs.len(),
        fs[at].name == "sigtran_msu_total"@,
        fs[at].samples == counted(m, Dir::Rx, 16) + counted(m, Dir::Tx, 16),
        0 <= si < 16,
        shows_units(lines_upto(fs, fs.len() as int), dir, si),
    ensures
        m.msu_cells(dir)[si] > 0,
{
    let f = fs[at];
    let n = fs.len() as int;
    let ls = lines_upto(fs, n);
    let name = f.name;
    let rx = counted(m, Dir::Rx, 16);
    let want = name + label_part(unit_labels(dir, si)) + " "@;
    let k = choose|k: int| 0 <= k < ls.len() && is_unit_sample(#[trigger] ls[k], dir, si);
    let line = ls[k];
    let i = placed(fs, n, k);
    let j = k - lines_upto(fs, i).len();
    assert(is_fine(fs[i]));
    assert(is_fine(f));
    reveal_strlit("{");
    assert(want[name.len() as int] == '{');
    assert(line.subrange(0, want.len() as int)[name.len() as int] == line[name.len() as int]);
    assert(line.subrange(0, name.len() as int) =~= line.subrange(0, want.len() as int).subrange(
        0,
        name.len() as int,
    ));
    assert(want.subrange(0, name.len() as int) =~= name);
    assert(is_sample(line, name));
    line_of_family(fs[i], j, name);
    assert(i == at);
    let s = f.samples[j - 2];
    assert(line == sample_line(name, s));
    if j - 2 < rx.len() {
        let other = counted_sample(m, Dir::Rx, 16, j - 2);
        assert(counts(m, Dir::Rx, other, s));
        unit_samples_differ(s.value, dir, si, Dir::Rx, other);
    } else {
        let other = counted_sample(m, Dir::Tx, 16, j - 2 - rx.len());
        assert(counts(m, Dir::Tx, other, s));
        unit_samples_differ(s.value, dir, si, Dir::Tx, other);
    }
}

/// The units of a direction and service indicator are shown exactly if some have
/// been counted.
pub proof fn law_units_are_shown_once_counted(m: &Metrics, dir: Dir, si: int)
    requires
        0 <= si < 16,
        labels_are_lines(m),
    ensures
        (exists|k: int|
            0 <= k < lines_of(rendered(m)).len() && is_unit_sample(
                #[trigger] lines_of(rendered(m))[k],
                dir,
                si,
            )) <==> m.msu_cells(dir)[si] > 0,
{
    let fs = families(m);
    families_are_told_apart(m);
    law_text_is_the_families(m);
    lines_are_single(fs);
    assert(fs[2].name == "sigtran_msu_total"@);
    assert(fs[2].samples == counted(m, Dir::Rx, 16) + counted(m, Dir::Tx, 16));
    if m.msu_cells(dir)[si] > 0 {
        counted_units_are_shown(m, fs, 2, dir, si);
    }
    if shows_units(lines_upto(fs, 17), dir, si) {
        shown_units_are_counted(m, fs, 2, dir, si);
    }
}

} // verus!

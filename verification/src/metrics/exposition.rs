//! Rendering of all metric families in the Prometheus text format.
use crate::metrics::{
    abort_source_label, abort_source_slot, aborts, active_dialogues, dialogue_timeouts, dir_label,
    gtt_error_label, gtt_error_slot, gtt_errors, gtt_result_label, gtt_result_slot,
    gtt_translations, isup_screened, loop_kind_label, loop_kind_slot, loops_detected, msu_total,
    screen_reason_label, screen_reason_slot, AbortSource, Dir, GttError, GttResultKind, LoopKind,
    Metrics, ScreenReason,
};
use crate::sorted_map::Key;
use crate::text::{decimal, decimal_of, signed_decimal, signed_decimal_of};
use vstd::prelude::*;
use vstd::string::*;

verus! {

/// The two header lines of a family.
pub open spec fn header(name: Seq<char>, help: Seq<char>, ty: Seq<char>) -> Seq<char> {
    "# HELP "@ + name + " "@ + help + "\n# TYPE "@ + name + " "@ + ty + "\n"@
}

/// The first `n` labels, each `key="value"`, separated by commas.
pub open spec fn label_list(labels: Seq<(Seq<char>, Seq<char>)>, n: int) -> Seq<char>
    decreases n,
{
    if n <= 0 {
        Seq::empty()
    } else {
        label_list(labels, n - 1) + (if n > 1 {
            ","@
        } else {
            Seq::empty()
        }) + labels[n - 1].0 + "=\""@ + labels[n - 1].1 + "\""@
    }
}

/// The label part of a sample: nothing without labels, else the list in braces.
pub open spec fn label_part(labels: Seq<(Seq<char>, Seq<char>)>) -> Seq<char> {
    if labels.len() == 0 {
        Seq::empty()
    } else {
        "{"@ + label_list(labels, labels.len() as int) + "}"@
    }
}

/// One sample line.
pub open spec fn sample(
    name: Seq<char>,
    labels: Seq<(Seq<char>, Seq<char>)>,
    value: Seq<char>,
) -> Seq<char> {
    name + label_part(labels) + " "@ + value + "\n"@
}

/// `f(0) + f(1) + ... + f(n - 1)`.
pub open spec fn joined(f: spec_fn(int) -> Seq<char>, n: int) -> Seq<char>
    decreases n,
{
    if n <= 0 {
        Seq::empty()
    } else {
        joined(f, n - 1) + f(n - 1)
    }
}

/// The labels as character sequences.
pub open spec fn label_texts(ls: Seq<(&str, &str)>) -> Seq<(Seq<char>, Seq<char>)> {
    ls.map_values(|p: (&str, &str)| (p.0@, p.1@))
}

fn push_header(out: &mut String, name: &str, help: &str, ty: &str)
    ensures
        final(out)@ == old(out)@ + header(name@, help@, ty@),
{
    let ghost before = out@;
    out.append("# HELP ");
    out.append(name);
    out.append(" ");
    out.append(help);
    out.append("\n# TYPE ");
    out.append(name);
    out.append(" ");
    out.append(ty);
    out.append("\n");
    proof {
        assert(out@ =~= before + header(name@, help@, ty@));
    }
}

fn push_labels(out: &mut String, ls: &Vec<(&str, &str)>)
    ensures
        final(out)@ == old(out)@ + label_part(label_texts(ls@)),
{
    let ghost before = out@;
    let ghost all = label_texts(ls@);
    if ls.len() == 0 {
        proof {
            assert(out@ =~= before + label_part(all));
        }
        return;
    }
    out.append("{");
    let ghost opened = out@;
    proof {
        assert(out@ =~= opened + label_list(all, 0));
    }
    let mut i: usize = 0;
    while i < ls.len()
        invariant
            i <= ls@.len(),
            all == label_texts(ls@),
            out@ == opened + label_list(all, i as int),
        decreases ls.len() - i,
    {
        let ghost here = out@;
        if i > 0 {
            out.append(",");
        }
        out.append(ls[i].0);
        out.append("=\"");
        out.append(ls[i].1);
        out.append("\"");
        proof {
            assert(all[i as int] == (ls@[i as int].0@, ls@[i as int].1@));
            assert(out@ =~= opened + label_list(all, i + 1));
        }
        i += 1;
    }
    out.append("}");
    proof {
        assert(out@ =~= before + label_part(all));
    }
}

fn push_sample(out: &mut String, name: &str, ls: &Vec<(&str, &str)>, value: &str)
    ensures
        final(out)@ == old(out)@ + sample(name@, label_texts(ls@), value@),
{
    let ghost before = out@;
    out.append(name);
    push_labels(out, ls);
    out.append(" ");
    out.append(value);
    out.append("\n");
    proof {
        assert(out@ =~= before + sample(name@, label_texts(ls@), value@));
    }
}

fn push_plain(out: &mut String, name: &str, value: &str)
    ensures
        final(out)@ == old(out)@ + sample(name@, seq![], value@),
{
    let ls: Vec<(&str, &str)> = Vec::new();
    push_sample(out, name, &ls, value);
    proof {
        assert(label_texts(ls@) =~= seq![]);
    }
}

fn push_one(out: &mut String, name: &str, k: &str, v: &str, value: &str)
    ensures
        final(out)@ == old(out)@ + sample(name@, seq![(k@, v@)], value@),
{
    let mut ls: Vec<(&str, &str)> = Vec::new();
    ls.push((k, v));
    push_sample(out, name, &ls, value);
    proof {
        assert(label_texts(ls@) =~= seq![(k@, v@)]);
    }
}

fn push_two(out: &mut String, name: &str, k: &str, v: &str, k2: &str, v2: &str, value: &str)
    ensures
        final(out)@ == old(out)@ + sample(name@, seq![(k@, v@), (k2@, v2@)], value@),
{
    let mut ls: Vec<(&str, &str)> = Vec::new();
    ls.push((k, v));
    ls.push((k2, v2));
    push_sample(out, name, &ls, value);
    proof {
        assert(label_texts(ls@) =~= seq![(k@, v@), (k2@, v2@)]);
    }
}

/// The `sigtran_loops_detected_total` family.
pub open spec fn loop_family(m: &Metrics) -> Seq<char> {
    header("sigtran_loops_detected_total"@, "MSUs dropped by the MTP3 transfer-path loop guards."@, "counter"@)
        + loop_family_sample(m, LoopKind::OwnOpc)
        + loop_family_sample(m, LoopKind::RouteReflect)
        + loop_family_sample(m, LoopKind::HopCounter)
}

/// The sample of one [`LoopKind`].
pub open spec fn loop_family_sample(m: &Metrics, x: LoopKind) -> Seq<char> {
    sample("sigtran_loops_detected_total"@, seq![("kind"@, loop_kind_label(x))], decimal(m.loops@[loop_kind_slot(x)] as nat))
}

fn push_loop_family_sample(out: &mut String, m: &Metrics, x: LoopKind)
    ensures
        final(out)@ == old(out)@ + loop_family_sample(m, x),
{
    push_one(out, "sigtran_loops_detected_total", "kind", x.label(), decimal_of(loops_detected(m, x)).as_str());
}

fn push_loop_family(out: &mut String, m: &Metrics)
    ensures
        final(out)@ == old(out)@ + loop_family(m),
{
    let ghost before = out@;
    push_header(out, "sigtran_loops_detected_total", "MSUs dropped by the MTP3 transfer-path loop guards.", "counter");
    push_loop_family_sample(out, m, LoopKind::OwnOpc);
    push_loop_family_sample(out, m, LoopKind::RouteReflect);
    push_loop_family_sample(out, m, LoopKind::HopCounter);
    proof {
        assert(out@ =~= before + loop_family(m));
    }
}

/// The `sigtran_isup_screened_total` family.
pub open spec fn screen_family(m: &Metrics) -> Seq<char> {
    header("sigtran_isup_screened_total"@, "ISUP MSUs dropped by the SI=5 transit-path screening rules, by reason."@, "counter"@)
        + screen_family_sample(m, ScreenReason::Rule)
        + screen_family_sample(m, ScreenReason::Default)
        + screen_family_sample(m, ScreenReason::DecodeError)
}

/// The sample of one [`ScreenReason`].
pub open spec fn screen_family_sample(m: &Metrics, x: ScreenReason) -> Seq<char> {
    sample("sigtran_isup_screened_total"@, seq![("reason"@, screen_reason_label(x))], decimal(m.screened@[screen_reason_slot(x)] as nat))
}

fn push_screen_family_sample(out: &mut String, m: &Metrics, x: ScreenReason)
    ensures
        final(out)@ == old(out)@ + screen_family_sample(m, x),
{
    push_one(out, "sigtran_isup_screened_total", "reason", x.label(), decimal_of(isup_screened(m, x)).as_str());
}

fn push_screen_family(out: &mut String, m: &Metrics)
    ensures
        final(out)@ == old(out)@ + screen_family(m),
{
    let ghost before = out@;
    push_header(out, "sigtran_isup_screened_total", "ISUP MSUs dropped by the SI=5 transit-path screening rules, by reason.", "counter");
    push_screen_family_sample(out, m, ScreenReason::Rule);
    push_screen_family_sample(out, m, ScreenReason::Default);
    push_screen_family_sample(out, m, ScreenReason::DecodeError);
    proof {
        assert(out@ =~= before + screen_family(m));
    }
}

/// The sample of one direction and service indicator; nothing while it is 0.
pub open spec fn msu_sample(m: &Metrics, dir: Dir, si: int) -> Seq<char> {
    if m.msu_cells(dir)[si] > 0 {
        sample(
            "sigtran_msu_total"@,
            seq![("dir"@, dir_label(dir)), ("si"@, decimal(si as nat))],
            decimal(m.msu_cells(dir)[si] as nat),
        )
    } else {
        Seq::empty()
    }
}

pub open spec fn msu_samples(m: &Metrics, dir: Dir) -> spec_fn(int) -> Seq<char> {
    |si: int| msu_sample(m, dir, si)
}

/// The `sigtran_msu_total` family.
pub open spec fn msu_family(m: &Metrics) -> Seq<char> {
    header(
        "sigtran_msu_total"@,
        "MSUs handled, by direction and Service Indicator."@,
        "counter"@,
    ) + joined(msu_samples(m, Dir::Rx), 16) + joined(msu_samples(m, Dir::Tx), 16)
}

fn push_msu_dir(out: &mut String, m: &Metrics, dir: Dir)
    ensures
        final(out)@ == old(out)@ + joined(msu_samples(m, dir), 16),
{
    let ghost before = out@;
    let mut si: u8 = 0;
    proof {
        assert(out@ =~= before + joined(msu_samples(m, dir), 0));
    }
    while si < 16
        invariant
            si <= 16,
            out@ == before + joined(msu_samples(m, dir), si as int),
        decreases 16 - si,
    {
        let v: u64 = msu_total(m, dir, si);
        proof {
            assert(msu_samples(m, dir)(si as int) == msu_sample(m, dir, si as int));
            assert(joined(msu_samples(m, dir), si + 1) == joined(msu_samples(m, dir), si as int)
                + msu_sample(m, dir, si as int));
        }
        if v > 0 {
            push_two(
                out,
                "sigtran_msu_total",
                "dir",
                dir.label(),
                "si",
                decimal_of(si as u64).as_str(),
                decimal_of(v).as_str(),
            );
        }
        proof {
            assert(out@ =~= before + joined(msu_samples(m, dir), si + 1));
        }
        si += 1;
    }
}

fn push_msu_family(out: &mut String, m: &Metrics)
    ensures
        final(out)@ == old(out)@ + msu_family(m),
{
    let ghost before = out@;
    push_header(
        out,
        "sigtran_msu_total",
        "MSUs handled, by direction and Service Indicator.",
        "counter",
    );
    push_msu_dir(out, m, Dir::Rx);
    push_msu_dir(out, m, Dir::Tx);
    proof {
        assert(out@ =~= before + msu_family(m));
    }
}

/// The `sigtran_gtt_translations_total` family.
pub open spec fn translation_family(m: &Metrics) -> Seq<char> {
    header("sigtran_gtt_translations_total"@, "Successful GTT translations, by result kind."@, "counter"@)
        + translation_family_sample(m, GttResultKind::Local)
        + translation_family_sample(m, GttResultKind::Dpc)
        + translation_family_sample(m, GttResultKind::Group)
        + translation_family_sample(m, GttResultKind::Tenant)
}

/// The sample of one [`GttResultKind`].
pub open spec fn translation_family_sample(m: &Metrics, x: GttResultKind) -> Seq<char> {
    sample("sigtran_gtt_translations_total"@, seq![("result"@, gtt_result_label(x))], decimal(m.translations@[gtt_result_slot(x)] as nat))
}

fn push_translation_family_sample(out: &mut String, m: &Metrics, x: GttResultKind)
    ensures
        final(out)@ == old(out)@ + translation_family_sample(m, x),
{
    push_one(out, "sigtran_gtt_translations_total", "result", x.label(), decimal_of(gtt_translations(m, x)).as_str());
}

fn push_translation_family(out: &mut String, m: &Metrics)
    ensures
        final(out)@ == old(out)@ + translation_family(m),
{
    let ghost before = out@;
    push_header(out, "sigtran_gtt_translations_total", "Successful GTT translations, by result kind.", "counter");
    push_translation_family_sample(out, m, GttResultKind::Local);
    push_translation_family_sample(out, m, GttResultKind::Dpc);
    push_translation_family_sample(out, m, GttResultKind::Group);
    push_translation_family_sample(out, m, GttResultKind::Tenant);
    proof {
        assert(out@ =~= before + translation_family(m));
    }
}

/// The `sigtran_gtt_errors_total` family.
pub open spec fn error_family(m: &Metrics) -> Seq<char> {
    header("sigtran_gtt_errors_total"@, "Failed GTT lookups, by reason."@, "counter"@)
        + error_family_sample(m, GttError::NoTranslation)
        + error_family_sample(m, GttError::SsnProhibited)
        + error_family_sample(m, GttError::NoRoute)
}

/// The sample of one [`GttError`].
pub open spec fn error_family_sample(m: &Metrics, x: GttError) -> Seq<char> {
    sample("sigtran_gtt_errors_total"@, seq![("reason"@, gtt_error_label(x))], decimal(m.errors@[gtt_error_slot(x)] as nat))
}

fn push_error_family_sample(out: &mut String, m: &Metrics, x: GttError)
    ensures
        final(out)@ == old(out)@ + error_family_sample(m, x),
{
    push_one(out, "sigtran_gtt_errors_total", "reason", x.label(), decimal_of(gtt_errors(m, x)).as_str());
}

fn push_error_family(out: &mut String, m: &Metrics)
    ensures
        final(out)@ == old(out)@ + error_family(m),
{
    let ghost before = out@;
    push_header(out, "sigtran_gtt_errors_total", "Failed GTT lookups, by reason.", "counter");
    push_error_family_sample(out, m, GttError::NoTranslation);
    push_error_family_sample(out, m, GttError::SsnProhibited);
    push_error_family_sample(out, m, GttError::NoRoute);
    proof {
        assert(out@ =~= before + error_family(m));
    }
}

/// The `sigtran_active_dialogues` family.
pub open spec fn active_family(m: &Metrics) -> Seq<char> {
    header("sigtran_active_dialogues"@, "Currently open TCAP dialogues."@, "gauge"@) + sample("sigtran_active_dialogues"@, seq![], signed_decimal(m.active as int))
}

fn push_active_family(out: &mut String, m: &Metrics)
    ensures
        final(out)@ == old(out)@ + active_family(m),
{
    let ghost before = out@;
    push_header(out, "sigtran_active_dialogues", "Currently open TCAP dialogues.", "gauge");
    push_plain(out, "sigtran_active_dialogues", signed_decimal_of(active_dialogues(m)).as_str());
    proof {
        assert(out@ =~= before + active_family(m));
    }
}

/// The `sigtran_dialogue_timeouts_total` family.
pub open spec fn timeout_family(m: &Metrics) -> Seq<char> {
    header("sigtran_dialogue_timeouts_total"@, "Dialogues aged out by the dialogue timer."@, "counter"@) + sample("sigtran_dialogue_timeouts_total"@, seq![], decimal(m.timeouts as nat))
}

fn push_timeout_family(out: &mut String, m: &Metrics)
    ensures
        final(out)@ == old(out)@ + timeout_family(m),
{
    let ghost before = out@;
    push_header(out, "sigtran_dialogue_timeouts_total", "Dialogues aged out by the dialogue timer.", "counter");
    push_plain(out, "sigtran_dialogue_timeouts_total", decimal_of(dialogue_timeouts(m)).as_str());
    proof {
        assert(out@ =~= before + timeout_family(m));
    }
}

/// The `sigtran_abort_total` family.
pub open spec fn abort_family(m: &Metrics) -> Seq<char> {
    header("sigtran_abort_total"@, "TCAP aborts, by source."@, "counter"@)
        + abort_family_sample(m, AbortSource::User)
        + abort_family_sample(m, AbortSource::Provider)
        + abort_family_sample(m, AbortSource::Local)
}

/// The sample of one [`AbortSource`].
pub open spec fn abort_family_sample(m: &Metrics, x: AbortSource) -> Seq<char> {
    sample("sigtran_abort_total"@, seq![("source"@, abort_source_label(x))], decimal(m.abort_counts@[abort_source_slot(x)] as nat))
}

fn push_abort_family_sample(out: &mut String, m: &Metrics, x: AbortSource)
    ensures
        final(out)@ == old(out)@ + abort_family_sample(m, x),
{
    push_one(out, "sigtran_abort_total", "source", x.label(), decimal_of(aborts(m, x)).as_str());
}

fn push_abort_family(out: &mut String, m: &Metrics)
    ensures
        final(out)@ == old(out)@ + abort_family(m),
{
    let ghost before = out@;
    push_header(out, "sigtran_abort_total", "TCAP aborts, by source.", "counter");
    push_abort_family_sample(out, m, AbortSource::User);
    push_abort_family_sample(out, m, AbortSource::Provider);
    push_abort_family_sample(out, m, AbortSource::Local);
    proof {
        assert(out@ =~= before + abort_family(m));
    }
}

/// The sample of entry `i` of `sigtran_association_state`.
pub open spec fn association_family_sample(m: &Metrics, i: int) -> Seq<char> {
    let k = m.association_state.key_at(i);
    let v = m.association_state.value_at(i);
    sample("sigtran_association_state"@, seq![("assoc"@, k.0), ("adaptation"@, k.1)], signed_decimal(v as int))
}

pub open spec fn association_family_samples(m: &Metrics) -> spec_fn(int) -> Seq<char> {
    |i: int| association_family_sample(m, i)
}

/// The `sigtran_association_state` family, one sample per entry in the order of their labels.
pub open spec fn association_family(m: &Metrics) -> Seq<char> {
    header("sigtran_association_state"@, "SCTP association state (0 down, 1 up, 2 adaptation active)."@, "gauge"@) + joined(association_family_samples(m), m.association_state.size() as int)
}

fn push_association_family(out: &mut String, m: &Metrics)
    ensures
        final(out)@ == old(out)@ + association_family(m),
{
    let ghost before = out@;
    push_header(out, "sigtran_association_state", "SCTP association state (0 down, 1 up, 2 adaptation active).", "gauge");
    let ghost head = out@;
    proof {
        assert(out@ =~= head + joined(association_family_samples(m), 0));
    }
    let mut i: usize = 0;
    while i < m.association_state.len()
        invariant
            i <= m.association_state.size(),
            out@ == head + joined(association_family_samples(m), i as int),
        decreases m.association_state.size() - i,
    {
        proof {
            assert(association_family_samples(m)(i as int) == association_family_sample(m, i as int));
        }
        let k = m.association_state.key(i);
        push_two(out, "sigtran_association_state", "assoc", k.0.as_str(), "adaptation", k.1.as_str(), signed_decimal_of(*m.association_state.value(i)).as_str());
        proof {
            assert(out@ =~= head + joined(association_family_samples(m), i + 1));
        }
        i += 1;
    }
    proof {
        assert(out@ =~= before + association_family(m));
    }
}

/// The sample of entry `i` of `sigtran_asp_state`.
pub open spec fn asp_family_sample(m: &Metrics, i: int) -> Seq<char> {
    let k = m.asp_state.key_at(i);
    let v = m.asp_state.value_at(i);
    sample("sigtran_asp_state"@, seq![("asp"@, k.0), ("as"@, k.1)], signed_decimal(v as int))
}

pub open spec fn asp_family_samples(m: &Metrics) -> spec_fn(int) -> Seq<char> {
    |i: int| asp_family_sample(m, i)
}

/// The `sigtran_asp_state` family, one sample per entry in the order of their labels.
pub open spec fn asp_family(m: &Metrics) -> Seq<char> {
    header("sigtran_asp_state"@, "M3UA ASP state (0 inactive, 1 active)."@, "gauge"@) + joined(asp_family_samples(m), m.asp_state.size() as int)
}

fn push_asp_family(out: &mut String, m: &Metrics)
    ensures
        final(out)@ == old(out)@ + asp_family(m),
{
    let ghost before = out@;
    push_header(out, "sigtran_asp_state", "M3UA ASP state (0 inactive, 1 active).", "gauge");
    let ghost head = out@;
    proof {
        assert(out@ =~= head + joined(asp_family_samples(m), 0));
    }
    let mut i: usize = 0;
    while i < m.asp_state.len()
        invariant
            i <= m.asp_state.size(),
            out@ == head + joined(asp_family_samples(m), i as int),
        decreases m.asp_state.size() - i,
    {
        proof {
            assert(asp_family_samples(m)(i as int) == asp_family_sample(m, i as int));
        }
        let k = m.asp_state.key(i);
        push_two(out, "sigtran_asp_state", "asp", k.0.as_str(), "as", k.1.as_str(), signed_decimal_of(*m.asp_state.value(i)).as_str());
        proof {
            assert(out@ =~= head + joined(asp_family_samples(m), i + 1));
        }
        i += 1;
    }
    proof {
        assert(out@ =~= before + asp_family(m));
    }
}

/// The sample of entry `i` of `sigtran_linkset_available`.
pub open spec fn linkset_family_sample(m: &Metrics, i: int) -> Seq<char> {
    let k = m.linkset_available.key_at(i);
    let v = m.linkset_available.value_at(i);
    sample("sigtran_linkset_available"@, seq![("linkset"@, k)], signed_decimal(v as int))
}

pub open spec fn linkset_family_samples(m: &Metrics) -> spec_fn(int) -> Seq<char> {
    |i: int| linkset_family_sample(m, i)
}

/// The `sigtran_linkset_available` family, one sample per entry in the order of their labels.
pub open spec fn linkset_family(m: &Metrics) -> Seq<char> {
    header("sigtran_linkset_available"@, "M2PA linkset availability (0/1)."@, "gauge"@) + joined(linkset_family_samples(m), m.linkset_available.size() as int)
}

fn push_linkset_family(out: &mut String, m: &Metrics)
    ensures
        final(out)@ == old(out)@ + linkset_family(m),
{
    let ghost before = out@;
    push_header(out, "sigtran_linkset_available", "M2PA linkset availability (0/1).", "gauge");
    let ghost head = out@;
    proof {
        assert(out@ =~= head + joined(linkset_family_samples(m), 0));
    }
    let mut i: usize = 0;
    while i < m.linkset_available.len()
        invariant
            i <= m.linkset_available.size(),
            out@ == head + joined(linkset_family_samples(m), i as int),
        decreases m.linkset_available.size() - i,
    {
        proof {
            assert(linkset_family_samples(m)(i as int) == linkset_family_sample(m, i as int));
        }
        let k = m.linkset_available.key(i);
        push_one(out, "sigtran_linkset_available", "linkset", k.as_str(), signed_decimal_of(*m.linkset_available.value(i)).as_str());
        proof {
            assert(out@ =~= head + joined(linkset_family_samples(m), i + 1));
        }
        i += 1;
    }
    proof {
        assert(out@ =~= before + linkset_family(m));
    }
}

/// The sample of entry `i` of `sigtran_linkset_active_links`.
pub open spec fn link_count_family_sample(m: &Metrics, i: int) -> Seq<char> {
    let k = m.linkset_active_links.key_at(i);
    let v = m.linkset_active_links.value_at(i);
    sample("sigtran_linkset_active_links"@, seq![("linkset"@, k)], signed_decimal(v as int))
}

pub open spec fn link_count_family_samples(m: &Metrics) -> spec_fn(int) -> Seq<char> {
    |i: int| link_count_family_sample(m, i)
}

/// The `sigtran_linkset_active_links` family, one sample per entry in the order of their labels.
pub open spec fn link_count_family(m: &Metrics) -> Seq<char> {
    header("sigtran_linkset_active_links"@, "In-service links in an M2PA linkset."@, "gauge"@) + joined(link_count_family_samples(m), m.linkset_active_links.size() as int)
}

fn push_link_count_family(out: &mut String, m: &Metrics)
    ensures
        final(out)@ == old(out)@ + link_count_family(m),
{
    let ghost before = out@;
    push_header(out, "sigtran_linkset_active_links", "In-service links in an M2PA linkset.", "gauge");
    let ghost head = out@;
    proof {
        assert(out@ =~= head + joined(link_count_family_samples(m), 0));
    }
    let mut i: usize = 0;
    while i < m.linkset_active_links.len()
        invariant
            i <= m.linkset_active_links.size(),
            out@ == head + joined(link_count_family_samples(m), i as int),
        decreases m.linkset_active_links.size() - i,
    {
        proof {
            assert(link_count_family_samples(m)(i as int) == link_count_family_sample(m, i as int));
        }
        let k = m.linkset_active_links.key(i);
        push_one(out, "sigtran_linkset_active_links", "linkset", k.as_str(), signed_decimal_of(*m.linkset_active_links.value(i)).as_str());
        proof {
            assert(out@ =~= head + joined(link_count_family_samples(m), i + 1));
        }
        i += 1;
    }
    proof {
        assert(out@ =~= before + link_count_family(m));
    }
}

/// The sample of entry `i` of `sigtran_m2pa_link_state`.
pub open spec fn link_state_family_sample(m: &Metrics, i: int) -> Seq<char> {
    let k = m.m2pa_link_state.key_at(i);
    let v = m.m2pa_link_state.value_at(i);
    sample("sigtran_m2pa_link_state"@, seq![("link"@, k)], signed_decimal(v as int))
}

pub open spec fn link_state_family_samples(m: &Metrics) -> spec_fn(int) -> Seq<char> {
    |i: int| link_state_family_sample(m, i)
}

/// The `sigtran_m2pa_link_state` family, one sample per entry in the order of their labels.
pub open spec fn link_state_family(m: &Metrics) -> Seq<char> {
    header("sigtran_m2pa_link_state"@, "M2PA link state (0 failed, 1 aligned, 2 in-service)."@, "gauge"@) + joined(link_state_family_samples(m), m.m2pa_link_state.size() as int)
}

fn push_link_state_family(out: &mut String, m: &Metrics)
    ensures
        final(out)@ == old(out)@ + link_state_family(m),
{
    let ghost before = out@;
    push_header(out, "sigtran_m2pa_link_state", "M2PA link state (0 failed, 1 aligned, 2 in-service).", "gauge");
    let ghost head = out@;
    proof {
        assert(out@ =~= head + joined(link_state_family_samples(m), 0));
    }
    let mut i: usize = 0;
    while i < m.m2pa_link_state.len()
        invariant
            i <= m.m2pa_link_state.size(),
            out@ == head + joined(link_state_family_samples(m), i as int),
        decreases m.m2pa_link_state.size() - i,
    {
        proof {
            assert(link_state_family_samples(m)(i as int) == link_state_family_sample(m, i as int));
        }
        let k = m.m2pa_link_state.key(i);
        push_one(out, "sigtran_m2pa_link_state", "link", k.as_str(), signed_decimal_of(*m.m2pa_link_state.value(i)).as_str());
        proof {
            assert(out@ =~= head + joined(link_state_family_samples(m), i + 1));
        }
        i += 1;
    }
    proof {
        assert(out@ =~= before + link_state_family(m));
    }
}

/// The sample of entry `i` of `sigtran_route_available`.
pub open spec fn route_family_sample(m: &Metrics, i: int) -> Seq<char> {
    let k = m.route_available.key_at(i);
    let v = m.route_available.value_at(i);
    sample("sigtran_route_available"@, seq![("dpc"@, decimal(k as nat))], signed_decimal(v as int))
}

pub open spec fn route_family_samples(m: &Metrics) -> spec_fn(int) -> Seq<char> {
    |i: int| route_family_sample(m, i)
}

/// The `sigtran_route_available` family, one sample per entry in the order of their labels.
pub open spec fn route_family(m: &Metrics) -> Seq<char> {
    header("sigtran_route_available"@, "Whether a DPC currently resolves to an available egress (0/1)."@, "gauge"@) + joined(route_family_samples(m), m.route_available.size() as int)
}

fn push_route_family(out: &mut String, m: &Metrics)
    ensures
        final(out)@ == old(out)@ + route_family(m),
{
    let ghost before = out@;
    push_header(out, "sigtran_route_available", "Whether a DPC currently resolves to an available egress (0/1).", "gauge");
    let ghost head = out@;
    proof {
        assert(out@ =~= head + joined(route_family_samples(m), 0));
    }
    let mut i: usize = 0;
    while i < m.route_available.len()
        invariant
            i <= m.route_available.size(),
            out@ == head + joined(route_family_samples(m), i as int),
        decreases m.route_available.size() - i,
    {
        proof {
            assert(route_family_samples(m)(i as int) == route_family_sample(m, i as int));
        }
        let k = m.route_available.key(i);
        push_one(out, "sigtran_route_available", "dpc", decimal_of(*k as u64).as_str(), signed_decimal_of(*m.route_available.value(i)).as_str());
        proof {
            assert(out@ =~= head + joined(route_family_samples(m), i + 1));
        }
        i += 1;
    }
    proof {
        assert(out@ =~= before + route_family(m));
    }
}

/// The sample of entry `i` of `sigtran_mtp3mg_events_total`.
pub open spec fn management_family_sample(m: &Metrics, i: int) -> Seq<char> {
    let k = m.management_events.key_at(i);
    let v = m.management_events.value_at(i);
    sample("sigtran_mtp3mg_events_total"@, seq![("dpc"@, decimal(k.0 as nat)), ("type"@, k.1)], decimal(v as nat))
}

pub open spec fn management_family_samples(m: &Metrics) -> spec_fn(int) -> Seq<char> {
    |i: int| management_family_sample(m, i)
}

/// The `sigtran_mtp3mg_events_total` family, one sample per entry in the order of their labels.
pub open spec fn management_family(m: &Metrics) -> Seq<char> {
    header("sigtran_mtp3mg_events_total"@, "MTP3-management events, by DPC and type."@, "counter"@) + joined(management_family_samples(m), m.management_events.size() as int)
}

fn push_management_family(out: &mut String, m: &Metrics)
    ensures
        final(out)@ == old(out)@ + management_family(m),
{
    let ghost before = out@;
    push_header(out, "sigtran_mtp3mg_events_total", "MTP3-management events, by DPC and type.", "counter");
    let ghost head = out@;
    proof {
        assert(out@ =~= head + joined(management_family_samples(m), 0));
    }
    let mut i: usize = 0;
    while i < m.management_events.len()
        invariant
            i <= m.management_events.size(),
            out@ == head + joined(management_family_samples(m), i as int),
        decreases m.management_events.size() - i,
    {
        proof {
            assert(management_family_samples(m)(i as int) == management_family_sample(m, i as int));
        }
        let k = m.management_events.key(i);
        push_two(out, "sigtran_mtp3mg_events_total", "dpc", decimal_of(k.0 as u64).as_str(), "type", k.1.as_str(), decimal_of(*m.management_events.value(i)).as_str());
        proof {
            assert(out@ =~= head + joined(management_family_samples(m), i + 1));
        }
        i += 1;
    }
    proof {
        assert(out@ =~= before + management_family(m));
    }
}

/// The sample of entry `i` of `sigtran_content_rule_hits_total`.
pub open spec fn hit_family_sample(m: &Metrics, i: int) -> Seq<char> {
    let k = m.rule_hits.key_at(i);
    let v = m.rule_hits.value_at(i);
    sample("sigtran_content_rule_hits_total"@, seq![("rule"@, k.0), ("action"@, k.1)], decimal(v as nat))
}

pub open spec fn hit_family_samples(m: &Metrics) -> spec_fn(int) -> Seq<char> {
    |i: int| hit_family_sample(m, i)
}

/// The `sigtran_content_rule_hits_total` family, one sample per entry in the order of their labels.
pub open spec fn hit_family(m: &Metrics) -> Seq<char> {
    header("sigtran_content_rule_hits_total"@, "Content-routing rule hits, by rule and action."@, "counter"@) + joined(hit_family_samples(m), m.rule_hits.size() as int)
}

fn push_hit_family(out: &mut String, m: &Metrics)
    ensures
        final(out)@ == old(out)@ + hit_family(m),
{
    let ghost before = out@;
    push_header(out, "sigtran_content_rule_hits_total", "Content-routing rule hits, by rule and action.", "counter");
    let ghost head = out@;
    proof {
        assert(out@ =~= head + joined(hit_family_samples(m), 0));
    }
    let mut i: usize = 0;
    while i < m.rule_hits.len()
        invariant
            i <= m.rule_hits.size(),
            out@ == head + joined(hit_family_samples(m), i as int),
        decreases m.rule_hits.size() - i,
    {
        proof {
            assert(hit_family_samples(m)(i as int) == hit_family_sample(m, i as int));
        }
        let k = m.rule_hits.key(i);
        push_two(out, "sigtran_content_rule_hits_total", "rule", k.0.as_str(), "action", k.1.as_str(), decimal_of(*m.rule_hits.value(i)).as_str());
        proof {
            assert(out@ =~= head + joined(hit_family_samples(m), i + 1));
        }
        i += 1;
    }
    proof {
        assert(out@ =~= before + hit_family(m));
    }
}

/// The sample of entry `i` of `sigtran_invoke_timeouts_total`.
pub open spec fn invoke_family_sample(m: &Metrics, i: int) -> Seq<char> {
    let k = m.operation_timeouts.key_at(i);
    let v = m.operation_timeouts.value_at(i);
    sample("sigtran_invoke_timeouts_total"@, seq![("operation"@, signed_decimal(k as int))], decimal(v as nat))
}

pub open spec fn invoke_family_samples(m: &Metrics) -> spec_fn(int) -> Seq<char> {
    |i: int| invoke_family_sample(m, i)
}

/// The `sigtran_invoke_timeouts_total` family, one sample per entry in the order of their labels.
pub open spec fn invoke_family(m: &Metrics) -> Seq<char> {
    header("sigtran_invoke_timeouts_total"@, "Invokes aged out awaiting a result, by operation."@, "counter"@) + joined(invoke_family_samples(m), m.operation_timeouts.size() as int)
}

fn push_invoke_family(out: &mut String, m: &Metrics)
    ensures
        final(out)@ == old(out)@ + invoke_family(m),
{
    let ghost before = out@;
    push_header(out, "sigtran_invoke_timeouts_total", "Invokes aged out awaiting a result, by operation.", "counter");
    let ghost head = out@;
    proof {
        assert(out@ =~= head + joined(invoke_family_samples(m), 0));
    }
    let mut i: usize = 0;
    while i < m.operation_timeouts.len()
        invariant
            i <= m.operation_timeouts.size(),
            out@ == head + joined(invoke_family_samples(m), i as int),
        decreases m.operation_timeouts.size() - i,
    {
        proof {
            assert(invoke_family_samples(m)(i as int) == invoke_family_sample(m, i as int));
        }
        let k = m.operation_timeouts.key(i);
        push_one(out, "sigtran_invoke_timeouts_total", "operation", signed_decimal_of(*k).as_str(), decimal_of(*m.operation_timeouts.value(i)).as_str());
        proof {
            assert(out@ =~= head + joined(invoke_family_samples(m), i + 1));
        }
        i += 1;
    }
    proof {
        assert(out@ =~= before + invoke_family(m));
    }
}

/// The text of all families, in their fixed order.
pub open spec fn rendered(m: &Metrics) -> Seq<char> {
    loop_family(m)
        + screen_family(m)
        + msu_family(m)
        + translation_family(m)
        + error_family(m)
        + active_family(m)
        + timeout_family(m)
        + abort_family(m)
        + association_family(m)
        + asp_family(m)
        + linkset_family(m)
        + link_count_family(m)
        + link_state_family(m)
        + route_family(m)
        + management_family(m)
        + hit_family(m)
        + invoke_family(m)
}

/// Renders every family in the Prometheus text format: each family's header,
/// then its samples.
pub fn render(m: &Metrics) -> (r: String)
    ensures
        r@ == rendered(m),
{
    let mut out = String::new();
    push_loop_family(&mut out, m);
    proof {
        assert(out@ =~= loop_family(m));
    }
    push_screen_family(&mut out, m);
    push_msu_family(&mut out, m);
    push_translation_family(&mut out, m);
    push_error_family(&mut out, m);
    push_active_family(&mut out, m);
    push_timeout_family(&mut out, m);
    push_abort_family(&mut out, m);
    push_association_family(&mut out, m);
    push_asp_family(&mut out, m);
    push_linkset_family(&mut out, m);
    push_link_count_family(&mut out, m);
    push_link_state_family(&mut out, m);
    push_route_family(&mut out, m);
    push_management_family(&mut out, m);
    push_hit_family(&mut out, m);
    push_invoke_family(&mut out, m);
    out
}

} // verus!

//! Choice of the hardware monitor inputs that give the CPU temperature.
use vstd::prelude::*;

use crate::sensors::CpuVariant;
use crate::text::{
    chars_of, contains_run, eq_ascii_case_insensitive, has_prefix, has_run,
    same_ignoring_ascii_case, starts_with, string_of, to_lowercase, trim, trimmed,
    unicode_lowercase, lemma_trim_idempotent,
};

verus! {

/// Whether a hardware monitor's name (trimmed, then lower-cased) marks it as a
/// CPU temperature monitor: it mentions "coretemp", "k10temp", "cpu" or
/// "zenpower".
pub open spec fn is_cpu_monitor_name(name: Seq<char>) -> bool {
    let n = unicode_lowercase(trim(name));
    ||| contains_run(n, "coretemp"@)
    ||| contains_run(n, "k10temp"@)
    ||| contains_run(n, "cpu"@)
    ||| contains_run(n, "zenpower"@)
}

/// Tells whether the monitor called `name` reports CPU temperatures.
pub fn is_cpu_monitor(name: &str) -> (b: bool)
    ensures
        b == is_cpu_monitor_name(name@),
{
    let raw = chars_of(name);
    let t = trimmed(&raw);
    let t_str = string_of(&t);
    let lower = to_lowercase(t_str.as_str());
    let n = chars_of(lower.as_str());
    has_run(&n, &chars_of("coretemp")) || has_run(&n, &chars_of("k10temp")) || has_run(
        &n,
        &chars_of("cpu"),
    ) || has_run(&n, &chars_of("zenpower"))
}

/// What a temperature input's label says it measures.
#[derive(Debug, Clone, Copy, PartialEq, Eq, Structural)]
pub enum SensorLabel {
    /// The die temperature of an AMD CPU.
    Tdie,
    /// The control temperature of an AMD CPU.
    Tctl,
    /// The temperature of an AMD core complex die.
    Ccd,
    /// The temperature of one core or of the package of an Intel CPU.
    Core,
}

/// The kind of a label, judged on the label without surrounding whitespace:
/// "Tdie", "Tctl" or "ccd" in any ASCII case, else a label that begins with
/// "Core" or mentions "Package"; any other label names nothing of interest.
pub open spec fn sensor_label_kind(label: Seq<char>) -> Option<SensorLabel> {
    let t = trim(label);
    if eq_ascii_case_insensitive(t, "Tdie"@) {
        Some(SensorLabel::Tdie)
    } else if eq_ascii_case_insensitive(t, "Tctl"@) {
        Some(SensorLabel::Tctl)
    } else if eq_ascii_case_insensitive(t, "ccd"@) {
        Some(SensorLabel::Ccd)
    } else if starts_with(t, "Core"@) || contains_run(t, "Package"@) {
        Some(SensorLabel::Core)
    } else {
        None
    }
}

/// Classifies the label of a temperature input.
pub fn classify_label(label: &str) -> (k: Option<SensorLabel>)
    ensures
        k == sensor_label_kind(label@),
{
    let raw = chars_of(label);
    let t = trimmed(&raw);
    if same_ignoring_ascii_case(&t, &chars_of("Tdie")) {
        Some(SensorLabel::Tdie)
    } else if same_ignoring_ascii_case(&t, &chars_of("Tctl")) {
        Some(SensorLabel::Tctl)
    } else if same_ignoring_ascii_case(&t, &chars_of("ccd")) {
        Some(SensorLabel::Ccd)
    } else if has_prefix(&t, &chars_of("Core")) || has_run(&t, &chars_of("Package")) {
        Some(SensorLabel::Core)
    } else {
        None
    }
}

/// The inputs and their labels, as (input number, label text).
pub open spec fn label_views(labels: Seq<(usize, String)>) -> Seq<(usize, Seq<char>)> {
    labels.map_values(|p: (usize, String)| (p.0, p.1@))
}

/// The input number of the last label of kind `kind`, if any.
pub open spec fn last_of_kind(labels: Seq<(usize, Seq<char>)>, kind: SensorLabel) -> Option<usize>
    decreases labels.len(),
{
    if labels.len() == 0 {
        None
    } else if sensor_label_kind(labels.last().1) == Some(kind) {
        Some(labels.last().0)
    } else {
        last_of_kind(labels.drop_last(), kind)
    }
}

/// The input numbers of all core and package labels, in order.
pub open spec fn core_inputs(labels: Seq<(usize, Seq<char>)>) -> Seq<usize>
    decreases labels.len(),
{
    if labels.len() == 0 {
        seq![]
    } else {
        let earlier = core_inputs(labels.drop_last());
        if sensor_label_kind(labels.last().1) == Some(SensorLabel::Core) {
            earlier.push(labels.last().0)
        } else {
            earlier
        }
    }
}

/// The inputs to read for the CPU temperature of one monitor: the last Tdie
/// input, else the last ccd input, else the last Tctl input, each as a lone
/// AMD input; failing those, all core and package inputs as Intel inputs;
/// failing those too, none.
pub open spec fn sensor_choice(labels: Seq<(usize, Seq<char>)>) -> Option<(CpuVariant, Seq<usize>)> {
    match last_of_kind(labels, SensorLabel::Tdie) {
        Some(i) => Some((CpuVariant::Amd, seq![i])),
        None => match last_of_kind(labels, SensorLabel::Ccd) {
            Some(i) => Some((CpuVariant::Amd, seq![i])),
            None => match last_of_kind(labels, SensorLabel::Tctl) {
                Some(i) => Some((CpuVariant::Amd, seq![i])),
                None => {
                    let cores = core_inputs(labels);
                    if cores.len() > 0 {
                        Some((CpuVariant::Intel, cores))
                    } else {
                        None
                    }
                },
            },
        },
    }
}

/// Picks, from the labelled temperature inputs of a CPU monitor (input
/// number and label, in increasing input order), the inputs whose maximum is
/// the CPU temperature, and the CPU family they imply.
pub fn choose_cpu_inputs(labels: &Vec<(usize, String)>) -> (r: Option<(CpuVariant, Vec<usize>)>)
    ensures
        match sensor_choice(label_views(labels@)) {
            Some((variant, inputs)) => r matches Some((v, w)) && v == variant && w@ == inputs,
            None => r is None,
        },
{
    let ghost all = label_views(labels@);
    let mut tdie: Option<usize> = None;
    let mut tctl: Option<usize> = None;
    let mut ccd: Option<usize> = None;
    let mut cores: Vec<usize> = Vec::new();
    let mut i: usize = 0;
    while i < labels.len()
        invariant
            i <= labels.len(),
            all == label_views(labels@),
            tdie == last_of_kind(all.take(i as int), SensorLabel::Tdie),
            tctl == last_of_kind(all.take(i as int), SensorLabel::Tctl),
            ccd == last_of_kind(all.take(i as int), SensorLabel::Ccd),
            cores@ == core_inputs(all.take(i as int)),
        decreases labels.len() - i,
    {
        let input = labels[i].0;
        let kind = classify_label(labels[i].1.as_str());
        proof {
            assert(all.take(i + 1).drop_last() =~= all.take(i as int));
            assert(all.take(i + 1).last() == (input, labels@[i as int].1@));
        }
        match kind {
            Some(SensorLabel::Tdie) => {
                tdie = Some(input);
            },
            Some(SensorLabel::Tctl) => {
                tctl = Some(input);
            },
            Some(SensorLabel::Ccd) => {
                ccd = Some(input);
            },
            Some(SensorLabel::Core) => {
                cores.push(input);
            },
            None => {},
        }
        i = i + 1;
    }
    assert(all.take(i as int) =~= all);
    let chosen = match tdie {
        Some(t) => Some(t),
        None => match ccd {
            Some(c) => Some(c),
            None => tctl,
        },
    };
    match chosen {
        Some(input) => {
            let v = vec![input];
            assert(v@ =~= seq![input]);
            Some((CpuVariant::Amd, v))
        },
        None => if cores.len() > 0 {
            Some((CpuVariant::Intel, cores))
        } else {
            None
        },
    }
}

/// A Tdie input, when there is one, wins over every other input; failing
/// that a ccd input wins over Tctl and core inputs, and a Tctl input over core
/// inputs.
pub proof fn lemma_sensor_priority(labels: Seq<(usize, Seq<char>)>)
    ensures
        last_of_kind(labels, SensorLabel::Tdie) matches Some(i) ==> sensor_choice(labels) == Some(
            (CpuVariant::Amd, seq![i]),
        ),
        last_of_kind(labels, SensorLabel::Tdie) is None ==> (last_of_kind(
            labels,
            SensorLabel::Ccd,
        ) matches Some(i) ==> sensor_choice(labels) == Some((CpuVariant::Amd, seq![i]))),
        last_of_kind(labels, SensorLabel::Tdie) is None && last_of_kind(labels, SensorLabel::Ccd)
            is None ==> (last_of_kind(labels, SensorLabel::Tctl) matches Some(i) ==> sensor_choice(
            labels,
        ) == Some((CpuVariant::Amd, seq![i]))),
        sensor_choice(labels) matches Some((CpuVariant::Intel, inputs)) ==> inputs == core_inputs(
            labels,
        ) && inputs.len() > 0,
{
}

/// Whitespace around a label does not change its kind: a label read with its
/// trailing newline (or any surrounding whitespace) is classified as the
/// trimmed label is.
pub proof fn lemma_label_kind_ignores_surrounding_whitespace(label: Seq<char>)
    ensures
        sensor_label_kind(label) == sensor_label_kind(trim(label)),
{
    lemma_trim_idempotent(label);
}

/// A CPU monitor's name is judged without its surrounding whitespace.
pub proof fn lemma_monitor_name_ignores_surrounding_whitespace(name: Seq<char>)
    ensures
        is_cpu_monitor_name(name) == is_cpu_monitor_name(trim(name)),
{
    lemma_trim_idempotent(name);
}

/// `last_of_kind` names the input of the last label of that kind: that label
/// has the kind and no later label has it; and it finds nothing exactly when
/// no label has the kind.
pub proof fn lemma_last_of_kind_is_last(labels: Seq<(usize, Seq<char>)>, kind: SensorLabel)
    ensures
        last_of_kind(labels, kind) is None <==> forall|a: int|
            0 <= a < labels.len() ==> sensor_label_kind(#[trigger] labels[a].1) != Some(kind),
        last_of_kind(labels, kind) matches Some(i) ==> exists|a: int|
            0 <= a < labels.len() && labels[a].0 == i && sensor_label_kind(labels[a].1) == Some(
                kind,
            ) && forall|b: int|
                a < b < labels.len() ==> sensor_label_kind(#[trigger] labels[b].1) != Some(kind),
    decreases labels.len(),
{
    if labels.len() > 0 {
        let rest = labels.drop_last();
        lemma_last_of_kind_is_last(rest, kind);
        let last = labels.len() - 1;
        if sensor_label_kind(labels[last].1) == Some(kind) {
            assert(labels[last].0 == labels.last().0);
        } else {
            assert forall|a: int| 0 <= a < rest.len() implies #[trigger] rest[a] == labels[a] by {}
            if last_of_kind(rest, kind) is None {
                assert forall|a: int| 0 <= a < labels.len() implies sensor_label_kind(
                    #[trigger] labels[a].1,
                ) != Some(kind) by {
                    if a < rest.len() {
                        assert(rest[a] == labels[a]);
                    }
                }
            } else {
                let i = last_of_kind(rest, kind)->0;
                let a = choose|a: int|
                    0 <= a < rest.len() && rest[a].0 == i && sensor_label_kind(rest[a].1) == Some(
                        kind,
                    ) && forall|b: int|
                        a < b < rest.len() ==> sensor_label_kind(#[trigger] rest[b].1) != Some(kind);
                assert(labels[a] == rest[a]);
                assert forall|b: int| a < b < labels.len() implies sensor_label_kind(
                    #[trigger] labels[b].1,
                ) != Some(kind) by {
                    if b < rest.len() {
                        assert(rest[b] == labels[b]);
                    }
                }
                assert(!(forall|c: int|
                    0 <= c < labels.len() ==> sensor_label_kind(#[trigger] labels[c].1) != Some(
                        kind,
                    )));
            }
        }
    }
}

} // verus!

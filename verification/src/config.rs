//! The configuration: what the file holds, what the daemon runs on, and
//! the way from the one to the other.

pub mod app;
pub mod file;

pub use app::{Als, BacklightOutput, Capturer, Config, DdcUtilOutput, Output, Predictor, WaylandProtocol};

use crate::predictor::data::{Entry, EntryView, spec_unique, spec_views};
use crate::text::{equal, parse_u64, parse_u8, spec_parse_decimal};
use std::collections::HashMap;
use vstd::prelude::*;
use vstd::string::StringExecFns;
use vstd::utf8::encode_utf8;

verus! {

/// Why a configuration is refused.
#[derive(Debug, PartialEq, Eq, Clone, Copy, Structural)]
pub enum ConfigError {
    /// No output and no keyboard is configured.
    NoOutput,
    /// Two outputs or keyboards have the same name.
    DuplicateName,
    /// A threshold of the light source is no number.
    InvalidLux,
    /// A screen lightness of a manual predictor is no number up to 255.
    InvalidLuma,
}

impl ConfigError {
    /// What the error says.
    pub open spec fn spec_message(&self) -> Seq<char> {
        match self {
            ConfigError::NoOutput => "No output or keyboard configured"@,
            ConfigError::DuplicateName => "Names of all outputs and keyboards are not unique"@,
            ConfigError::InvalidLux => "Threshold of the light source is no number"@,
            ConfigError::InvalidLuma => "Screen lightness of a manual predictor is no number up to 255"@,
        }
    }

    /// What the error says.
    pub fn message(&self) -> (message: String)
        ensures
            message@ == self.spec_message(),
    {
        match self {
            ConfigError::NoOutput => String::from_str("No output or keyboard configured"),
            ConfigError::DuplicateName => String::from_str(
                "Names of all outputs and keyboards are not unique",
            ),
            ConfigError::InvalidLux => String::from_str("Threshold of the light source is no number"),
            ConfigError::InvalidLuma => String::from_str(
                "Screen lightness of a manual predictor is no number up to 255",
            ),
        }
    }
}

/// The way of capturing that a name of the file stands for.
pub open spec fn spec_match_capturer(capturer: file::Capturer) -> Capturer {
    match capturer {
        file::Capturer::Absent => Capturer::Absent,
        file::Capturer::Wlroots => Capturer::Wayland(WaylandProtocol::Any),
        file::Capturer::Wayland => Capturer::Wayland(WaylandProtocol::Any),
        file::Capturer::ExtImageCopyCaptureV1 => Capturer::Wayland(
            WaylandProtocol::ExtImageCopyCaptureV1,
        ),
        file::Capturer::WlrScreencopyUnstableV1 => Capturer::Wayland(
            WaylandProtocol::WlrScreencopyUnstableV1,
        ),
        file::Capturer::WlrExportDmabufUnstableV1 => Capturer::Wayland(
            WaylandProtocol::WlrExportDmabufUnstableV1,
        ),
    }
}

/// The way of capturing that a name of the file stands for. The old name
/// `wlroots` stands for any protocol, as `wayland` does.
#[verifier::when_used_as_spec(spec_match_capturer)]
pub fn match_capturer(capturer: file::Capturer) -> (matched: Capturer)
    ensures
        matched == spec_match_capturer(capturer),
{
    match capturer {
        file::Capturer::Absent => Capturer::Absent,
        file::Capturer::Wlroots => Capturer::Wayland(WaylandProtocol::Any),
        file::Capturer::Wayland => Capturer::Wayland(WaylandProtocol::Any),
        file::Capturer::ExtImageCopyCaptureV1 => Capturer::Wayland(
            WaylandProtocol::ExtImageCopyCaptureV1,
        ),
        file::Capturer::WlrScreencopyUnstableV1 => Capturer::Wayland(
            WaylandProtocol::WlrScreencopyUnstableV1,
        ),
        file::Capturer::WlrExportDmabufUnstableV1 => Capturer::Wayland(
            WaylandProtocol::WlrExportDmabufUnstableV1,
        ),
    }
}

/// Whether the name `wlroots` is used, which is no longer the one to use.
pub fn is_deprecated(capturer: file::Capturer) -> (deprecated: bool)
    ensures
        deprecated == (capturer == file::Capturer::Wlroots),
{
    match capturer {
        file::Capturer::Wlroots => true,
        _ => false,
    }
}

/// The way of capturing of an output that may not name one.
pub open spec fn spec_capturer_or_default(capturer: Option<file::Capturer>) -> Capturer {
    match capturer {
        Some(capturer) => spec_match_capturer(capturer),
        None => Capturer::Wayland(WaylandProtocol::Any),
    }
}

/// The screen lightness that `text` writes.
pub open spec fn spec_luma(text: Seq<char>) -> Option<u64> {
    spec_parse_decimal(encode_utf8(text), 255)
}

/// `entries` with `entry` put in: in the place of the first entry with
/// its `lux` and `luma`, and at the end where there is none.
pub open spec fn spec_put(entries: Seq<EntryView>, entry: EntryView) -> Seq<EntryView>
    decreases entries.len(),
{
    if entries.len() == 0 {
        seq![entry]
    } else if entries.first().lux == entry.lux && entries.first().luma == entry.luma {
        seq![entry] + entries.drop_first()
    } else {
        seq![entries.first()] + spec_put(entries.drop_first(), entry)
    }
}

/// The entry of a row under a lux label: the label, the screen lightness
/// that the row writes, and its percentage in the place of the brightness.
pub open spec fn spec_row_entry(label: Seq<char>, row: (String, u64)) -> EntryView {
    EntryView { lux: label, luma: spec_luma(row.0@)->0 as u8, brightness: row.1 }
}

/// `entries` after the first `count` rows under a lux label were put in,
/// one after the other.
pub open spec fn spec_put_rows(
    entries: Seq<EntryView>,
    label: Seq<char>,
    rows: Seq<(String, u64)>,
    count: nat,
) -> Seq<EntryView>
    decreases count,
{
    if count == 0 {
        entries
    } else {
        spec_put(
            spec_put_rows(entries, label, rows, (count - 1) as nat),
            spec_row_entry(label, rows[count - 1]),
        )
    }
}

/// The entries of the first `groups` lux labels of a table, put in label
/// by label and row by row: a later row takes the place of an earlier
/// one for the same label and screen lightness.
pub open spec fn spec_table_entries(table: Seq<(String, Vec<(String, u64)>)>, groups: nat) -> Seq<
    EntryView,
>
    decreases groups,
{
    if groups == 0 {
        Seq::empty()
    } else {
        spec_put_rows(
            spec_table_entries(table, (groups - 1) as nat),
            table[groups - 1].0@,
            table[groups - 1].1@,
            table[groups - 1].1@.len(),
        )
    }
}

/// Putting an entry in keeps the entries apart: where no two had `lux`
/// and `luma` in common, no two have.
pub proof fn lemma_put_unique(entries: Seq<EntryView>, entry: EntryView)
    requires
        spec_unique(entries),
    ensures
        spec_unique(spec_put(entries, entry)),
        spec_put(entries, entry).len() >= 1,
        forall|index: int|
            0 <= index < spec_put(entries, entry).len() ==> (#[trigger] spec_put(
                entries,
                entry,
            )[index]) == entry || entries.contains(spec_put(entries, entry)[index]),
        spec_put(entries, entry).contains(entry),
    decreases entries.len(),
{
    let put = spec_put(entries, entry);
    if entries.len() == 0 {
        assert(put[0] == entry);
    } else if entries.first().lux == entry.lux && entries.first().luma == entry.luma {
        assert(put[0] == entry);
        assert forall|index: int| 0 <= index < put.len() implies (#[trigger] put[index]) == entry
            || entries.contains(put[index]) by {
            if index > 0 {
                assert(put[index] == entries[index]);
            }
        }
        assert forall|low: int, high: int| 0 <= low < high < put.len() implies !(put[low].lux
            == put[high].lux && put[low].luma == put[high].luma) by {
            assert(put[high] == entries[high]);
            if low > 0 {
                assert(put[low] == entries[low]);
            }
        }
    } else {
        let rest = entries.drop_first();
        let inner = spec_put(rest, entry);
        assert(spec_unique(rest)) by {
            assert forall|low: int, high: int| 0 <= low < high < rest.len() implies !(
            rest[low].lux == rest[high].lux && rest[low].luma == rest[high].luma) by {
                assert(rest[low] == entries[low + 1]);
                assert(rest[high] == entries[high + 1]);
            }
        }
        lemma_put_unique(rest, entry);
        let at = choose|at: int| 0 <= at < inner.len() && inner[at] == entry;
        assert(put[at + 1] == entry);
        assert forall|index: int| 0 <= index < put.len() implies (#[trigger] put[index]) == entry
            || entries.contains(put[index]) by {
            if index == 0 {
                assert(put[0] == entries[0]);
            } else {
                assert(put[index] == inner[index - 1]);
                if inner[index - 1] != entry {
                    let from = choose|from: int|
                        0 <= from < rest.len() && rest[from] == inner[index - 1];
                    assert(entries[from + 1] == put[index]);
                }
            }
        }
        assert forall|low: int, high: int| 0 <= low < high < put.len() implies !(put[low].lux
            == put[high].lux && put[low].luma == put[high].luma) by {
            assert(put[high] == inner[high - 1]);
            if low > 0 {
                assert(put[low] == inner[low - 1]);
            } else {
                assert(put[0] == entries[0]);
                if inner[high - 1] != entry {
                    let from = choose|from: int|
                        0 <= from < rest.len() && rest[from] == inner[high - 1];
                    assert(entries[from + 1] == put[high]);
                }
            }
        }
    }
}

proof fn lemma_put_rows_unique(
    entries: Seq<EntryView>,
    label: Seq<char>,
    rows: Seq<(String, u64)>,
    count: nat,
)
    requires
        spec_unique(entries),
    ensures
        spec_unique(spec_put_rows(entries, label, rows, count)),
    decreases count,
{
    if count > 0 {
        lemma_put_rows_unique(entries, label, rows, (count - 1) as nat);
        lemma_put_unique(
            spec_put_rows(entries, label, rows, (count - 1) as nat),
            spec_row_entry(label, rows[count - 1]),
        );
    }
}

/// The entries of a table hold one entry at most for each lux label and
/// screen lightness.
pub proof fn lemma_table_entries_unique(table: Seq<(String, Vec<(String, u64)>)>, groups: nat)
    ensures
        spec_unique(spec_table_entries(table, groups)),
    decreases groups,
{
    if groups > 0 {
        lemma_table_entries_unique(table, (groups - 1) as nat);
        lemma_put_rows_unique(
            spec_table_entries(table, (groups - 1) as nat),
            table[groups - 1].0@,
            table[groups - 1].1@,
            table[groups - 1].1@.len(),
        );
    }
}

/// Puts `entry` into `entries`: in the place of the first entry with its
/// `lux` and `luma`, and at the end where there is none.
pub fn put(entries: &mut Vec<Entry>, entry: Entry)
    ensures
        spec_views(final(entries)@) == spec_put(spec_views(old(entries)@), entry@),
{
    let ghost before = spec_views(entries@);
    let mut index: usize = 0;
    assert(before.take(0) + spec_put(before.skip(0), entry@) =~= spec_put(before, entry@)) by {
        assert(before.skip(0) =~= before);
    }
    while index < entries.len()
        invariant
            index <= entries@.len(),
            entries@ == old(entries)@,
            before == spec_views(entries@),
            spec_put(before, entry@) == before.take(index as int) + spec_put(
                before.skip(index as int),
                entry@,
            ),
        decreases entries@.len() - index,
    {
        let ghost rest = before.skip(index as int);
        assert(rest.first() == entries@[index as int]@);
        if equal(entries[index].lux.as_str(), entry.lux.as_str()) && entries[index].luma
            == entry.luma {
            let ghost added = entry@;
            entries.set(index, entry);
            assert(spec_views(entries@) =~= before.take(index as int) + (seq![added]
                + rest.drop_first()));
            return ;
        }
        assert(before.take(index as int) + (seq![rest.first()] + spec_put(
            rest.drop_first(),
            entry@,
        )) =~= before.take(index + 1) + spec_put(before.skip(index + 1), entry@)) by {
            assert(rest.drop_first() =~= before.skip(index + 1));
            assert(before.take(index as int) + seq![rest.first()] =~= before.take(index + 1));
        }
        index += 1;
    }
    let ghost added = entry@;
    entries.push(entry);
    assert(spec_views(entries@) =~= before.take(before.len() as int) + seq![added]) by {
        assert(before.take(before.len() as int) =~= before);
    }
    assert(before.skip(before.len() as int) =~= Seq::<EntryView>::empty());
}

/// Whether every screen lightness of `table` is a number up to 255.
pub open spec fn spec_table_valid(table: Seq<(String, Vec<(String, u64)>)>) -> bool {
    forall|group: int, row: int|
        0 <= group < table.len() && 0 <= row < table[group].1@.len() ==> spec_luma(
            #[trigger] table[group].1@[row].0@,
        ) is Some
}

/// Whether `matched` is the predictor that `predictor` asks for.
pub open spec fn spec_is_predictor(predictor: file::Predictor, matched: Predictor) -> bool {
    match predictor {
        file::Predictor::Adaptive => matched is Adaptive,
        file::Predictor::Manual { thresholds } => matched matches Predictor::Manual {
            thresholds: entries,
        } && spec_views(entries@) == spec_table_entries(thresholds@, thresholds@.len()),
    }
}

/// Whether `predictor` can be matched.
pub open spec fn spec_predictor_valid(predictor: file::Predictor) -> bool {
    predictor matches file::Predictor::Manual { thresholds } ==> spec_table_valid(thresholds@)
}

/// The predictor that the file asks for. The rows of a manual predictor's
/// table become entries, in the order of the file, one for each lux label
/// and screen lightness; a screen lightness that is no number up to 255
/// is an error.
pub fn match_predictor(predictor: file::Predictor) -> (matched: Result<Predictor, ConfigError>)
    ensures
        spec_predictor_valid(predictor) <==> matched is Ok,
        matched is Err ==> matched == Err::<Predictor, ConfigError>(ConfigError::InvalidLuma),
        matched matches Ok(found) ==> spec_is_predictor(predictor, found),
        matched matches Ok(Predictor::Manual { thresholds }) ==> spec_unique(
            spec_views(thresholds@),
        ),
{
    predictor_of(&predictor)
}

fn predictor_of(predictor: &file::Predictor) -> (matched: Result<Predictor, ConfigError>)
    ensures
        spec_predictor_valid(*predictor) <==> matched is Ok,
        matched is Err ==> matched == Err::<Predictor, ConfigError>(ConfigError::InvalidLuma),
        matched matches Ok(found) ==> spec_is_predictor(*predictor, found),
        matched matches Ok(Predictor::Manual { thresholds }) ==> spec_unique(
            spec_views(thresholds@),
        ),
{
    match predictor {
        file::Predictor::Adaptive => Ok(Predictor::Adaptive),
        file::Predictor::Manual { thresholds } => {
            let mut entries: Vec<Entry> = Vec::new();
            let mut group: usize = 0;
            assert(spec_views(entries@) =~= spec_table_entries(thresholds@, 0));
            while group < thresholds.len()
                invariant
                    *predictor == (file::Predictor::Manual { thresholds: *thresholds }),
                    group <= thresholds@.len(),
                    spec_views(entries@) == spec_table_entries(thresholds@, group as nat),
                    forall|done: int, row: int|
                        0 <= done < group && 0 <= row < thresholds@[done].1@.len() ==> spec_luma(
                            #[trigger] thresholds@[done].1@[row].0@,
                        ) is Some,
                decreases thresholds@.len() - group,
            {
                let label = &thresholds[group].0;
                let rows = &thresholds[group].1;
                let mut row: usize = 0;
                while row < rows.len()
                    invariant
                        *predictor == (file::Predictor::Manual { thresholds: *thresholds }),
                        group < thresholds@.len(),
                        row <= rows@.len(),
                        label == thresholds@[group as int].0,
                        rows == thresholds@[group as int].1,
                        spec_views(entries@) == spec_put_rows(
                            spec_table_entries(thresholds@, group as nat),
                            label@,
                            rows@,
                            row as nat,
                        ),
                        forall|done: int|
                            0 <= done < row ==> spec_luma(#[trigger] rows@[done].0@) is Some,
                    decreases rows@.len() - row,
                {
                    let luma = match parse_u8(rows[row].0.as_str()) {
                        Some(luma) => luma,
                        None => {
                            proof {
                                assert(spec_luma(thresholds@[group as int].1@[row as int].0@)
                                    is None);
                            }
                            return Err(ConfigError::InvalidLuma);
                        },
                    };
                    put(&mut entries, Entry::new(label.as_str(), luma, rows[row].1));
                    row += 1;
                }
                group += 1;
            }
            proof {
                lemma_table_entries_unique(thresholds@, thresholds@.len());
            }
            Ok(Predictor::Manual { thresholds: entries })
        },
    }
}

/// The lux threshold that `text` writes.
pub open spec fn spec_lux(text: Seq<char>) -> Option<u64> {
    spec_parse_decimal(encode_utf8(text), u64::MAX)
}

/// Whether every threshold of `thresholds` is a number.
pub open spec fn spec_thresholds_valid(thresholds: Seq<(String, String)>) -> bool {
    forall|index: int|
        0 <= index < thresholds.len() ==> spec_lux((#[trigger] thresholds[index]).0@) is Some
}

/// The thresholds after the first `count` pairs of `thresholds` were put
/// in, one after the other: a later pair takes the place of an earlier
/// one with the same number.
pub open spec fn spec_thresholds(thresholds: Seq<(String, String)>, count: nat) -> Map<u64, String>
    decreases count,
{
    if count == 0 {
        Map::empty()
    } else {
        spec_thresholds(thresholds, (count - 1) as nat).insert(
            spec_lux(thresholds[count - 1].0@)->0,
            thresholds[count - 1].1,
        )
    }
}

/// The thresholds of a light source, with their numbers read. A
/// threshold that is no number is an error.
pub fn parse_als_thresholds(thresholds: &Vec<(String, String)>) -> (parsed: Result<
    HashMap<u64, String>,
    ConfigError,
>)
    ensures
        spec_thresholds_valid(thresholds@) <==> parsed is Ok,
        parsed is Err ==> parsed == Err::<HashMap<u64, String>, ConfigError>(
            ConfigError::InvalidLux,
        ),
        parsed matches Ok(map) ==> map@ == spec_thresholds(thresholds@, thresholds@.len()),
{
    let mut map: HashMap<u64, String> = HashMap::new();
    let mut index: usize = 0;
    while index < thresholds.len()
        invariant
            index <= thresholds@.len(),
            map@ == spec_thresholds(thresholds@, index as nat),
            forall|done: int|
                0 <= done < index ==> spec_lux((#[trigger] thresholds@[done]).0@) is Some,
        decreases thresholds@.len() - index,
    {
        let lux = match parse_u64(thresholds[index].0.as_str()) {
            Some(lux) => lux,
            None => {
                return Err(ConfigError::InvalidLux);
            },
        };
        map.insert(lux, thresholds[index].1.clone());
        index += 1;
    }
    Ok(map)
}

/// The least brightness of a screen for which the file names none.
pub const OUTPUT_MIN_BRIGHTNESS: u64 = 1;

/// The least brightness of a screen.
pub open spec fn spec_min_brightness(min_brightness: Option<u64>) -> u64 {
    match min_brightness {
        Some(min_brightness) => min_brightness,
        None => OUTPUT_MIN_BRIGHTNESS,
    }
}

/// The least brightness of a keyboard.
pub const KEYBOARD_MIN_BRIGHTNESS: u64 = 0;

/// Whether `names` holds no name twice.
pub open spec fn spec_names_unique(names: Seq<Seq<char>>) -> bool {
    forall|first: int, second: int|
        0 <= first < second < names.len() ==> names[first] != names[second]
}

/// The names of `outputs`, in their order.
pub open spec fn spec_names(outputs: Seq<Output>) -> Seq<Seq<char>> {
    Seq::new(outputs.len(), |index: int| outputs[index].spec_name())
}

/// Passes a configuration on that has an output and no name twice, and
/// refuses any other.
pub fn validate(config: Config) -> (validated: Result<Config, ConfigError>)
    ensures
        config.output@.len() == 0 ==> validated is Err && validated->Err_0 == ConfigError::NoOutput,
        config.output@.len() > 0 && !spec_names_unique(spec_names(config.output@)) ==> validated
            is Err && validated->Err_0 == ConfigError::DuplicateName,
        config.output@.len() > 0 && spec_names_unique(spec_names(config.output@)) ==> validated
            is Ok && validated->Ok_0 == config,
{
    if config.output.len() == 0 {
        return Err(ConfigError::NoOutput);
    }
    let ghost names = spec_names(config.output@);
    let mut second: usize = 1;
    while second < config.output.len()
        invariant
            1 <= second <= config.output@.len(),
            names == spec_names(config.output@),
            forall|low: int, high: int| 0 <= low < high < second ==> names[low] != names[high],
        decreases config.output@.len() - second,
    {
        let mut first: usize = 0;
        while first < second
            invariant
                first <= second < config.output@.len(),
                names == spec_names(config.output@),
                forall|low: int| 0 <= low < first ==> names[low] != names[second as int],
            decreases second - first,
        {
            if equal(config.output[first].name().as_str(), config.output[second].name().as_str()) {
                assert(names[first as int] == names[second as int]);
                return Err(ConfigError::DuplicateName);
            }
            first += 1;
        }
        second += 1;
    }
    Ok(config)
}

/// Whether the predictor of an output can be matched.
pub open spec fn spec_optional_predictor_valid(predictor: Option<file::Predictor>) -> bool {
    predictor matches Some(predictor) ==> spec_predictor_valid(predictor)
}

/// Whether `matched` is the predictor of an output that asks for
/// `predictor`: the adaptive one where it asks for none.
pub open spec fn spec_is_optional_predictor(
    predictor: Option<file::Predictor>,
    matched: Predictor,
) -> bool {
    match predictor {
        Some(predictor) => spec_is_predictor(predictor, matched),
        None => matched is Adaptive,
    }
}

fn optional_predictor(predictor: &Option<file::Predictor>) -> (matched: Result<
    Predictor,
    ConfigError,
>)
    ensures
        spec_optional_predictor_valid(*predictor) <==> matched is Ok,
        matched is Err ==> matched == Err::<Predictor, ConfigError>(ConfigError::InvalidLuma),
        matched matches Ok(found) ==> spec_is_optional_predictor(*predictor, found),
{
    match predictor {
        Some(predictor) => predictor_of(predictor),
        None => Ok(Predictor::Adaptive),
    }
}

fn capturer_or_default(capturer: Option<file::Capturer>) -> (matched: Capturer)
    ensures
        matched == spec_capturer_or_default(capturer),
{
    match capturer {
        Some(capturer) => match_capturer(capturer),
        None => Capturer::Wayland(WaylandProtocol::Any),
    }
}

/// Whether the `index`-th output of the file's outputs and keyboards can
/// be taken over.
pub open spec fn spec_output_valid(config: file::Config, index: int) -> bool {
    let backlights = config.output.backlight@;
    let monitors = config.output.ddcutil@;
    if index < backlights.len() {
        spec_optional_predictor_valid(backlights[index].predictor)
    } else if index < backlights.len() + monitors.len() {
        spec_optional_predictor_valid(monitors[index - backlights.len()].predictor)
    } else {
        true
    }
}

/// Whether `output` is the `index`-th of the file's outputs and
/// keyboards: the backlights come first, then the monitors, then the
/// keyboards. A screen is never darker than the file says, or than
/// `OUTPUT_MIN_BRIGHTNESS` where it says nothing; a keyboard is a backlight
/// that may go dark, is not captured, and learns.
pub open spec fn spec_is_output(config: file::Config, index: int, output: Output) -> bool {
    let backlights = config.output.backlight@;
    let monitors = config.output.ddcutil@;
    let keyboards = config.keyboard@;
    if index < backlights.len() {
        let from = backlights[index];
        &&& output matches Output::Backlight(to)
        &&& to.name@ == from.name@
        &&& to.path@ == from.path@
        &&& to.min_brightness == spec_min_brightness(from.min_brightness)
        &&& to.capturer == spec_capturer_or_default(from.capturer)
        &&& spec_is_optional_predictor(from.predictor, to.predictor)
    } else if index < backlights.len() + monitors.len() {
        let from = monitors[index - backlights.len()];
        &&& output matches Output::DdcUtil(to)
        &&& to.name@ == from.name@
        &&& to.min_brightness == spec_min_brightness(from.min_brightness)
        &&& to.capturer == spec_capturer_or_default(from.capturer)
        &&& spec_is_optional_predictor(from.predictor, to.predictor)
    } else {
        let from = keyboards[index - backlights.len() - monitors.len()];
        &&& output matches Output::Backlight(to)
        &&& to.name@ == from.name@
        &&& to.path@ == from.path@
        &&& to.min_brightness == KEYBOARD_MIN_BRIGHTNESS
        &&& to.capturer == Capturer::Absent
        &&& to.predictor is Adaptive
    }
}

/// The number of outputs and keyboards of the file.
pub open spec fn spec_output_count(config: file::Config) -> nat {
    config.output.backlight@.len() + config.output.ddcutil@.len() + config.keyboard@.len()
}

/// Whether every output of the file can be taken over.
pub open spec fn spec_outputs_valid(config: file::Config) -> bool {
    forall|index: int| 0 <= index < spec_output_count(config) ==> spec_output_valid(config, index)
}

/// The thresholds of the file's light source.
pub open spec fn spec_als_thresholds(als: file::Als) -> Seq<(String, String)> {
    match als {
        file::Als::Iio { thresholds, .. } => thresholds@,
        file::Als::Time { thresholds } => thresholds@,
        file::Als::Webcam { thresholds, .. } => thresholds@,
        file::Als::Absent => Seq::empty(),
    }
}

/// Whether `to` is the light source that `from` asks for.
pub open spec fn spec_is_als(from: file::Als, to: Als) -> bool {
    let parsed = spec_thresholds(spec_als_thresholds(from), spec_als_thresholds(from).len());
    match from {
        file::Als::Iio { path, .. } => to matches Als::Iio { path: to_path, thresholds }
            && to_path@ == path@ && thresholds@ == parsed,
        file::Als::Time { .. } => to matches Als::Time { thresholds } && thresholds@ == parsed,
        file::Als::Webcam { video, sleep_ms, .. } => to matches Als::Webcam {
            video: to_video,
            sleep_ms: to_sleep_ms,
            thresholds,
        } && to_video == video && to_sleep_ms == sleep_ms && thresholds@ == parsed,
        file::Als::Absent => to is Absent,
    }
}

fn als_of(als: &file::Als) -> (matched: Result<Als, ConfigError>)
    ensures
        spec_thresholds_valid(spec_als_thresholds(*als)) <==> matched is Ok,
        matched is Err ==> matched == Err::<Als, ConfigError>(ConfigError::InvalidLux),
        matched matches Ok(found) ==> spec_is_als(*als, found),
{
    match als {
        file::Als::Iio { path, thresholds } => {
            match parse_als_thresholds(thresholds) {
                Ok(thresholds) => Ok(Als::Iio { path: path.clone(), thresholds }),
                Err(error) => Err(error),
            }
        },
        file::Als::Time { thresholds } => {
            match parse_als_thresholds(thresholds) {
                Ok(thresholds) => Ok(Als::Time { thresholds }),
                Err(error) => Err(error),
            }
        },
        file::Als::Webcam { video, sleep_ms, thresholds } => {
            match parse_als_thresholds(thresholds) {
                Ok(thresholds) => Ok(
                    Als::Webcam { video: *video, sleep_ms: *sleep_ms, thresholds },
                ),
                Err(error) => Err(error),
            }
        },
        file::Als::Absent => Ok(Als::Absent),
    }
}

/// The configuration that the daemon runs on, from what the file holds.
///
/// The outputs are the file's backlights, monitors and keyboards, in this
/// order; the thresholds of the light source are read as numbers. The
/// first screen lightness or threshold that is no number is an error,
/// those of the outputs before those of the light source.
pub fn parse(file_config: file::Config) -> (parsed: Result<Config, ConfigError>)
    ensures
        spec_outputs_valid(file_config) && spec_thresholds_valid(
            spec_als_thresholds(file_config.als),
        ) <==> parsed is Ok,
        !spec_outputs_valid(file_config) ==> parsed is Err && parsed->Err_0
            == ConfigError::InvalidLuma,
        spec_outputs_valid(file_config) && !spec_thresholds_valid(
            spec_als_thresholds(file_config.als),
        ) ==> parsed is Err && parsed->Err_0 == ConfigError::InvalidLux,
        parsed matches Ok(config) ==> {
            &&& config.output@.len() == spec_output_count(file_config)
            &&& forall|index: int|
                0 <= index < config.output@.len() ==> spec_is_output(
                    file_config,
                    index,
                    #[trigger] config.output@[index],
                )
            &&& spec_is_als(file_config.als, config.als)
        },
{
    let backlights = &file_config.output.backlight;
    let monitors = &file_config.output.ddcutil;
    let keyboards = &file_config.keyboard;
    let mut output: Vec<Output> = Vec::new();
    let mut index: usize = 0;
    while index < backlights.len()
        invariant
            backlights == file_config.output.backlight,
            index <= backlights@.len(),
            output@.len() == index,
            forall|done: int|
                0 <= done < index ==> spec_is_output(file_config, done, #[trigger] output@[done]),
            forall|done: int| 0 <= done < index ==> spec_output_valid(file_config, done),
        decreases backlights@.len() - index,
    {
        let from = &backlights[index];
        let predictor = match optional_predictor(&from.predictor) {
            Ok(predictor) => predictor,
            Err(error) => {
                assert(!spec_output_valid(file_config, index as int));
                return Err(error);
            },
        };
        output.push(
            Output::Backlight(
                BacklightOutput {
                    name: from.name.clone(),
                    path: from.path.clone(),
                    min_brightness: match from.min_brightness {
                        Some(min_brightness) => min_brightness,
                        None => OUTPUT_MIN_BRIGHTNESS,
                    },
                    capturer: capturer_or_default(from.capturer),
                    predictor,
                },
            ),
        );
        index += 1;
    }
    let mut index: usize = 0;
    while index < monitors.len()
        invariant
            backlights == file_config.output.backlight,
            monitors == file_config.output.ddcutil,
            index <= monitors@.len(),
            output@.len() == backlights@.len() + index,
            forall|done: int|
                0 <= done < output@.len() ==> spec_is_output(
                    file_config,
                    done,
                    #[trigger] output@[done],
                ),
            forall|done: int|
                0 <= done < backlights@.len() + index ==> spec_output_valid(file_config, done),
        decreases monitors@.len() - index,
    {
        let from = &monitors[index];
        let predictor = match optional_predictor(&from.predictor) {
            Ok(predictor) => predictor,
            Err(error) => {
                assert(!spec_output_valid(file_config, backlights@.len() + index));
                return Err(error);
            },
        };
        output.push(
            Output::DdcUtil(
                DdcUtilOutput {
                    name: from.name.clone(),
                    min_brightness: match from.min_brightness {
                        Some(min_brightness) => min_brightness,
                        None => OUTPUT_MIN_BRIGHTNESS,
                    },
                    capturer: capturer_or_default(from.capturer),
                    predictor,
                },
            ),
        );
        index += 1;
    }
    let mut index: usize = 0;
    while index < keyboards.len()
        invariant
            backlights == file_config.output.backlight,
            monitors == file_config.output.ddcutil,
            keyboards == file_config.keyboard,
            index <= keyboards@.len(),
            output@.len() == backlights@.len() + monitors@.len() + index,
            forall|done: int|
                0 <= done < output@.len() ==> spec_is_output(
                    file_config,
                    done,
                    #[trigger] output@[done],
                ),
            forall|done: int|
                0 <= done < backlights@.len() + monitors@.len() ==> spec_output_valid(
                    file_config,
                    done,
                ),
        decreases keyboards@.len() - index,
    {
        let from = &keyboards[index];
        output.push(
            Output::Backlight(
                BacklightOutput {
                    name: from.name.clone(),
                    path: from.path.clone(),
                    min_brightness: KEYBOARD_MIN_BRIGHTNESS,
                    capturer: Capturer::Absent,
                    predictor: Predictor::Adaptive,
                },
            ),
        );
        index += 1;
    }
    let als = match als_of(&file_config.als) {
        Ok(als) => als,
        Err(error) => {
            return Err(error);
        },
    };
    Ok(Config { als, output })
}

/// The name of the `index`-th of the file's outputs and keyboards.
pub open spec fn spec_file_name(config: file::Config, index: int) -> Seq<char> {
    let backlights = config.output.backlight@;
    let monitors = config.output.ddcutil@;
    if index < backlights.len() {
        backlights[index].name@
    } else if index < backlights.len() + monitors.len() {
        monitors[index - backlights.len()].name@
    } else {
        config.keyboard@[index - backlights.len() - monitors.len()].name@
    }
}

/// The names of the file's outputs and keyboards, in their order.
pub open spec fn spec_file_names(config: file::Config) -> Seq<Seq<char>> {
    Seq::new(spec_output_count(config), |index: int| spec_file_name(config, index))
}

/// What loading the file comes to: the first of the errors that applies,
/// in the order of the variants below, and the configuration where none
/// does.
pub open spec fn spec_load_error(config: file::Config) -> Option<ConfigError> {
    if !spec_outputs_valid(config) {
        Some(ConfigError::InvalidLuma)
    } else if !spec_thresholds_valid(spec_als_thresholds(config.als)) {
        Some(ConfigError::InvalidLux)
    } else if spec_output_count(config) == 0 {
        Some(ConfigError::NoOutput)
    } else if !spec_names_unique(spec_file_names(config)) {
        Some(ConfigError::DuplicateName)
    } else {
        None
    }
}

/// The configuration that the daemon runs on, from what the file holds:
/// taken over, then checked for an output and for names that occur twice.
pub fn load(file_config: file::Config) -> (loaded: Result<Config, ConfigError>)
    ensures
        match spec_load_error(file_config) {
            Some(error) => loaded == Err::<Config, ConfigError>(error),
            None => loaded is Ok,
        },
        loaded matches Ok(config) ==> {
            &&& config.output@.len() == spec_output_count(file_config)
            &&& forall|index: int|
                0 <= index < config.output@.len() ==> spec_is_output(
                    file_config,
                    index,
                    #[trigger] config.output@[index],
                )
            &&& spec_is_als(file_config.als, config.als)
        },
{
    match parse(file_config) {
        Ok(config) => {
            proof {
                let names = spec_names(config.output@);
                let file_names = spec_file_names(file_config);
                assert forall|index: int| 0 <= index < names.len() implies names[index]
                    == file_names[index] by {
                    assert(spec_is_output(file_config, index, config.output@[index]));
                }
                assert(names =~= file_names);
            }
            validate(config)
        },
        Err(error) => Err(error),
    }
}

} // verus!

use crate::predictor::controller::{
    Debouncer,
    DebouncerView,
    PENDING_COOLDOWN_RESET,
    copy_text,
    interpolate,
    spec_interpolate,
    spec_text,
};
use crate::predictor::data::{Entry, EntryView, spec_views};
use vstd::prelude::*;
use vstd::string::StringExecFns;

verus! {

/// `percent` hundredths of `brightness`, rounded down, and the greatest
/// `u64` where that is too much for one.
pub open spec fn spec_reduction(brightness: u64, percent: u64) -> u64 {
    if brightness * percent / 100 > u64::MAX {
        u64::MAX
    } else {
        (brightness * percent / 100) as u64
    }
}

/// `percent` hundredths of `brightness`.
pub fn reduction(brightness: u64, percent: u64) -> (reduced: u64)
    ensures
        reduced == spec_reduction(brightness, percent),
{
    assert(brightness * percent <= u64::MAX * u64::MAX) by (nonlinear_arith)
        requires
            brightness <= u64::MAX,
            percent <= u64::MAX,
    ;
    let scaled: u128 = brightness as u128 * percent as u128 / 100;
    if scaled > u64::MAX as u128 {
        u64::MAX
    } else {
        scaled as u64
    }
}

/// The percentage by which the table reduces the brightness under `lux`
/// for a screen of lightness `luma`: interpolated between the table's
/// entries under `lux`, and nothing where it has none.
pub open spec fn spec_percentage(thresholds: Seq<EntryView>, lux: Seq<char>, luma: u8) -> u64 {
    match spec_interpolate(thresholds, lux, luma) {
        Some(percent) => percent,
        None => 0,
    }
}

/// The predictor that follows a configured table: for each lux value and
/// screen lightness, a percentage by which the brightness is reduced.
#[derive(Debug, PartialEq, Eq)]
pub struct Controller {
    /// The brightness that the user set last.
    pub last_brightness: Option<u64>,
    /// The table: under `lux`, for a screen of lightness `luma`, the
    /// percentage in `brightness`.
    pub thresholds: Vec<Entry>,
    /// The brightness that the user would have set on a black screen.
    pub pre_reduction_brightness: Option<u64>,
    /// Ticks without an edit that are left before predictions resume.
    pub pending_cooldown: u8,
    pub als: Debouncer,
    pub output_name: String,
}

/// What the predictor holds besides its table, as plain values.
pub struct ControllerView {
    pub last_brightness: Option<u64>,
    pub thresholds: Seq<EntryView>,
    pub pre_reduction_brightness: Option<u64>,
    pub pending_cooldown: u8,
    pub als: DebouncerView,
}

impl View for Controller {
    type V = ControllerView;

    open spec fn view(&self) -> ControllerView {
        ControllerView {
            last_brightness: self.last_brightness,
            thresholds: spec_views(self.thresholds@),
            pre_reduction_brightness: self.pre_reduction_brightness,
            pending_cooldown: self.pending_cooldown,
            als: self.als@,
        }
    }
}

/// `first + second`, and the greatest `u64` where that is too much for one.
pub open spec fn spec_saturating_add(first: u64, second: u64) -> u64 {
    if first + second > u64::MAX {
        u64::MAX
    } else {
        (first + second) as u64
    }
}

/// `first - second`, and zero where `second` is the greater.
pub open spec fn spec_saturating_sub(first: u64, second: u64) -> u64 {
    if first < second {
        0
    } else {
        (first - second) as u64
    }
}

impl ControllerView {
    /// The amount by which `brightness` is reduced under `lux` for a
    /// screen of lightness `luma`.
    pub open spec fn spec_brightness_reduction(self, brightness: u64, lux: Seq<char>, luma: u8) -> u64 {
        spec_reduction(brightness, spec_percentage(self.thresholds, lux, luma))
    }

    /// The predictor after the user set `new_brightness`: the brightness
    /// before reduction is the new one and what it is reduced by.
    pub open spec fn spec_process_brightness_change(
        self,
        new_brightness: u64,
        lux: Seq<char>,
        luma: u8,
    ) -> ControllerView {
        ControllerView {
            pre_reduction_brightness: Some(
                spec_saturating_add(
                    new_brightness,
                    self.spec_brightness_reduction(new_brightness, lux, luma),
                ),
            ),
            last_brightness: Some(new_brightness),
            ..self
        }
    }

    /// The brightness to move to: the brightness before reduction, less
    /// its reduction.
    pub open spec fn spec_predict(self, lux: Seq<char>, luma: u8) -> u64 {
        let before = self.pre_reduction_brightness->0;
        spec_saturating_sub(before, self.spec_brightness_reduction(before, lux, luma))
    }

    /// The predictor after a tick under `lux` with a screen of lightness
    /// `luma`, and the prediction that the tick brings.
    ///
    /// The first brightness to arrive is taken as the user's, and a
    /// prediction follows at once. Later a brightness other than the last
    /// is an edit: it is taken up and starts the cooldown, during which no
    /// prediction is made.
    pub open spec fn spec_process(self, lux: Seq<char>, luma: u8, user_edit: Option<u64>) -> (
        ControllerView,
        Option<u64>,
    ) {
        if self.last_brightness is None {
            let first = self.spec_process_brightness_change(user_edit->0, lux, luma);
            if first.pending_cooldown > 0 {
                (
                    ControllerView {
                        pending_cooldown: (first.pending_cooldown - 1) as u8,
                        ..first
                    },
                    None,
                )
            } else {
                (first, Some(first.spec_predict(lux, luma)))
            }
        } else if user_edit is Some && user_edit != self.last_brightness {
            (
                ControllerView {
                    pending_cooldown: PENDING_COOLDOWN_RESET,
                    ..self.spec_process_brightness_change(user_edit->0, lux, luma)
                },
                None,
            )
        } else if self.pending_cooldown > 0 {
            (ControllerView { pending_cooldown: (self.pending_cooldown - 1) as u8, ..self }, None)
        } else if self.pre_reduction_brightness is Some {
            (self, Some(self.spec_predict(lux, luma)))
        } else {
            (self, None)
        }
    }
}

impl Controller {
    /// A predictor for the output `output_name` that follows `thresholds`.
    pub fn new(thresholds: Vec<Entry>, output_name: &str) -> (controller: Self)
        ensures
            controller@ == (ControllerView {
                last_brightness: None,
                thresholds: spec_views(thresholds@),
                pre_reduction_brightness: None,
                pending_cooldown: 0,
                als: DebouncerView { last_als: None, next_als: None, next_als_cooldown: 0 },
            }),
            controller.output_name@ == output_name@,
    {
        Self {
            last_brightness: None,
            thresholds,
            pre_reduction_brightness: None,
            pending_cooldown: 0,
            als: Debouncer::new(),
            output_name: String::from_str(output_name),
        }
    }

    /// Whether the first lux value was taken up.
    pub fn is_started(&self) -> (started: bool)
        ensures
            started == (self@.als.last_als is Some),
    {
        self.als.last_als.is_some()
    }

    /// Takes up the first lux value.
    pub fn start(&mut self, lux: String)
        ensures
            final(self)@ == (ControllerView {
                als: DebouncerView { last_als: Some(lux@), ..old(self)@.als },
                ..old(self)@
            }),
            final(self).output_name == old(self).output_name,
    {
        self.als.start(lux);
    }

    /// One tick with a screen of lightness `luma`. `arrival` is the newest
    /// lux value that arrived since the last tick, `user_edit` the newest
    /// brightness that the user set since then. The lux value is debounced
    /// first, and the tick goes on under the lux value then in use.
    pub fn adjust(&mut self, luma: u8, arrival: Option<String>, user_edit: Option<u64>) -> (prediction:
        Option<u64>)
        requires
            old(self)@.als.spec_ready(),
            old(self).last_brightness is Some || user_edit is Some,
        ensures
            (final(self)@, prediction) == (ControllerView {
                als: old(self)@.als.spec_observe(spec_text(arrival)),
                ..old(self)@
            }).spec_process(
                old(self)@.als.spec_observe(spec_text(arrival)).last_als->0,
                luma,
                user_edit,
            ),
            final(self)@.als.spec_ready(),
            final(self).last_brightness is Some,
            final(self).output_name == old(self).output_name,
    {
        self.als.observe(arrival);
        let lux = match copy_text(&self.als.last_als) {
            Some(lux) => lux,
            None => String::from_str(""),
        };
        self.process(lux.as_str(), luma, user_edit)
    }

    /// One tick under `lux` with a screen of lightness `luma`.
    pub fn process(&mut self, lux: &str, luma: u8, user_edit: Option<u64>) -> (prediction: Option<
        u64,
    >)
        requires
            old(self).last_brightness is Some || user_edit is Some,
        ensures
            (final(self)@, prediction) == old(self)@.spec_process(lux@, luma, user_edit),
            final(self).last_brightness is Some,
            final(self).output_name == old(self).output_name,
    {
        let current_brightness = match self.last_brightness {
            None => {
                let first = match user_edit {
                    Some(first) => first,
                    None => 0,
                };
                self.process_brightness_change(first, lux, luma);
                first
            },
            Some(last) => match user_edit {
                Some(edit) => {
                    if edit != last {
                        self.process_brightness_change(edit, lux, luma);
                        self.pending_cooldown = PENDING_COOLDOWN_RESET;
                        return None;
                    }
                    edit
                },
                None => last,
            },
        };
        if self.pending_cooldown > 0 {
            self.pending_cooldown -= 1;
            None
        } else {
            self.predict(lux, luma)
        }
    }

    /// The brightness to move to under `lux` with a screen of lightness
    /// `luma`, once the brightness before reduction is known.
    pub fn predict(&self, lux: &str, luma: u8) -> (prediction: Option<u64>)
        ensures
            self.pre_reduction_brightness is None ==> prediction is None,
            self.pre_reduction_brightness is Some ==> prediction == Some(
                self@.spec_predict(lux@, luma),
            ),
    {
        match self.pre_reduction_brightness {
            Some(before) => {
                let brightness_reduction = self.get_brightness_reduction(before, lux, luma);
                Some(before.saturating_sub(brightness_reduction))
            },
            None => None,
        }
    }

    /// The amount by which `brightness` is reduced under `lux` for a
    /// screen of lightness `luma`.
    pub fn get_brightness_reduction(&self, brightness: u64, lux: &str, luma: u8) -> (reduced: u64)
        ensures
            reduced == self@.spec_brightness_reduction(brightness, lux@, luma),
    {
        let percent = match interpolate(self.thresholds.as_slice(), lux, luma) {
            Some(percent) => percent,
            None => 0,
        };
        reduction(brightness, percent)
    }

    /// Takes up a brightness that the user set.
    pub fn process_brightness_change(&mut self, new_brightness: u64, lux: &str, luma: u8)
        ensures
            final(self)@ == old(self)@.spec_process_brightness_change(new_brightness, lux@, luma),
            final(self).output_name == old(self).output_name,
    {
        let brightness_reduction = self.get_brightness_reduction(new_brightness, lux, luma);
        self.pre_reduction_brightness = Some(new_brightness.saturating_add(brightness_reduction));
        self.last_brightness = Some(new_brightness);
    }
}

} // verus!

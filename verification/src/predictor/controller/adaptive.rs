use crate::predictor::controller::{
    Debouncer,
    DebouncerView,
    PENDING_COOLDOWN_RESET,
    copy_text,
    interpolate,
    spec_interpolate,
    spec_text,
};
use crate::predictor::data::{Data, Entry, EntryView, spec_learn};
use vstd::prelude::*;
use vstd::string::StringExecFns;

verus! {

/// What a tick of the predictor came to.
#[derive(Debug, PartialEq, Eq, Clone, Copy, Structural)]
pub enum Outcome {
    /// The user changed the brightness: it is held as pending.
    Edited,
    /// No edit arrived, and the cooldown since the last one is still
    /// running.
    Cooling,
    /// The pending entry was learned; a dataset that is kept on disk is
    /// to be written.
    Learned,
    /// The brightness to move to.
    Predicted(u64),
    /// Nothing is known under the lux value in use.
    Unknown,
}

/// The predictor that learns from the user's edits.
#[derive(Debug, PartialEq, Eq)]
pub struct Controller {
    /// Ticks without an edit that are left before `pending` is learned.
    pub pending_cooldown: u8,
    /// The entry that the user is still adjusting.
    pub pending: Option<Entry>,
    pub data: Data,
    /// Whether the dataset is kept on disk.
    pub stateful: bool,
    /// The brightness found at the start, where nothing was learned yet.
    pub initial_brightness: Option<u64>,
    pub als: Debouncer,
    pub output_name: String,
}

/// What a predictor holds, as plain values.
pub struct ControllerView {
    pub pending_cooldown: u8,
    pub pending: Option<EntryView>,
    pub data: Seq<EntryView>,
    pub initial_brightness: Option<u64>,
    pub als: DebouncerView,
}

impl View for Controller {
    type V = ControllerView;

    open spec fn view(&self) -> ControllerView {
        ControllerView {
            pending_cooldown: self.pending_cooldown,
            pending: match self.pending {
                Some(entry) => Some(entry@),
                None => None,
            },
            data: self.data@,
            initial_brightness: self.initial_brightness,
            als: self.als@,
        }
    }
}

impl ControllerView {
    /// The brightness that counts as the user's on a tick: the newest
    /// edit, and without one the brightness found at the start.
    pub open spec fn spec_edit(self, user_edit: Option<u64>) -> Option<u64> {
        if user_edit is Some {
            user_edit
        } else {
            self.initial_brightness
        }
    }

    /// The cooldown that is left after a tick without an edit.
    pub open spec fn spec_cooldown_left(self) -> u8 {
        if self.pending_cooldown > 0 {
            (self.pending_cooldown - 1) as u8
        } else {
            0
        }
    }

    /// The predictor after a tick under `lux` with a screen of lightness
    /// `luma`.
    ///
    /// An edit is held as pending, with the `lux` and `luma` of the first
    /// edit since the last learning, and starts the cooldown anew. Without
    /// an edit the cooldown runs, and on the tick on which none of it is
    /// left, what is pending is learned. Where nothing is pending, nothing
    /// but the cooldown changes.
    pub open spec fn spec_process(self, lux: Seq<char>, luma: u8, user_edit: Option<u64>) -> ControllerView {
        match self.spec_edit(user_edit) {
            Some(brightness) => ControllerView {
                pending: Some(
                    match self.pending {
                        None => EntryView { lux, luma, brightness },
                        Some(pending) => EntryView {
                            lux: pending.lux,
                            luma: pending.luma,
                            brightness,
                        },
                    },
                ),
                pending_cooldown: PENDING_COOLDOWN_RESET,
                initial_brightness: None,
                ..self
            },
            None => match self.pending {
                Some(pending) if self.spec_cooldown_left() == 0 => ControllerView {
                    pending_cooldown: 0,
                    pending: None,
                    data: spec_learn(self.data, pending),
                    ..self
                },
                _ => ControllerView { pending_cooldown: self.spec_cooldown_left(), ..self },
            },
        }
    }

    /// What the tick comes to: an edit is taken up; without one, what is
    /// pending is learned on the tick on which no cooldown is left, the
    /// cooldown runs while there is any, and else a prediction is made.
    pub open spec fn spec_outcome(self, lux: Seq<char>, luma: u8, user_edit: Option<u64>) -> Outcome {
        if self.spec_edit(user_edit) is Some {
            Outcome::Edited
        } else if self.pending is Some && self.spec_cooldown_left() == 0 {
            Outcome::Learned
        } else if self.pending_cooldown > 0 {
            Outcome::Cooling
        } else {
            match spec_interpolate(self.data, lux, luma) {
                Some(prediction) => Outcome::Predicted(prediction),
                None => Outcome::Unknown,
            }
        }
    }

    /// The predictor after a tick on which `arrival` was the newest lux
    /// value, if any arrived: the lux value is debounced first, and the
    /// tick goes on under the lux value then in use.
    pub open spec fn spec_adjust(
        self,
        luma: u8,
        arrival: Option<Seq<char>>,
        user_edit: Option<u64>,
    ) -> ControllerView {
        let als = self.als.spec_observe(arrival);
        (ControllerView { als, ..self }).spec_process(als.last_als->0, luma, user_edit)
    }

    /// The predictor after ticks without an edit, with the screen
    /// lightness and the lux arrival of each.
    pub open spec fn spec_adjust_quietly(self, ticks: Seq<(u8, Option<Seq<char>>)>) -> ControllerView
        decreases ticks.len(),
    {
        if ticks.len() == 0 {
            self
        } else {
            self.spec_adjust_quietly(ticks.drop_last()).spec_adjust(
                ticks.last().0,
                ticks.last().1,
                None,
            )
        }
    }
}

impl ControllerView {
    /// The predictor after ticks without an edit, with the lux value and
    /// the screen lightness of each.
    pub open spec fn spec_process_quietly(self, ticks: Seq<(Seq<char>, u8)>) -> ControllerView
        decreases ticks.len(),
    {
        if ticks.len() == 0 {
            self
        } else {
            self.spec_process_quietly(ticks.drop_last()).spec_process(
                ticks.last().0,
                ticks.last().1,
                None,
            )
        }
    }
}

/// What is pending is learned when the cooldown has run out: while fewer
/// ticks without an edit have passed than the cooldown has left, it stays
/// pending and the dataset stays; on the tick with which they are as many,
/// it is learned, whatever the screen shows and whichever lux value is in
/// use.
pub proof fn lemma_learned_after_cooldown(state: ControllerView, ticks: Seq<(Seq<char>, u8)>)
    requires
        state.pending is Some,
        state.initial_brightness is None,
        1 <= ticks.len() <= state.pending_cooldown,
    ensures
        ticks.len() < state.pending_cooldown ==> {
            &&& state.spec_process_quietly(ticks).pending == state.pending
            &&& state.spec_process_quietly(ticks).data == state.data
            &&& state.spec_process_quietly(ticks).pending_cooldown == state.pending_cooldown
                - ticks.len()
            &&& state.spec_process_quietly(ticks).initial_brightness is None
        },
        ticks.len() == state.pending_cooldown ==> {
            &&& state.spec_process_quietly(ticks).pending is None
            &&& state.spec_process_quietly(ticks).data == spec_learn(state.data, state.pending->0)
            &&& state.spec_process_quietly(ticks).pending_cooldown == 0
        },
    decreases ticks.len(),
{
    if ticks.len() > 1 {
        lemma_learned_after_cooldown(state, ticks.drop_last());
    } else {
        assert(ticks.drop_last().len() == 0);
        assert(state.spec_process_quietly(ticks.drop_last()) == state);
    }
}

/// Without an edit the dataset stays: where nothing is pending and no
/// brightness from the start is left to be taken up, ticks on which no
/// edit arrives change nothing that was learned, whatever the screen
/// shows and whichever lux values arrive.
pub proof fn lemma_quiet_ticks_keep_data(state: ControllerView, ticks: Seq<(u8, Option<Seq<char>>)>)
    requires
        state.pending is None,
        state.initial_brightness is None,
    ensures
        state.spec_adjust_quietly(ticks).data == state.data,
        state.spec_adjust_quietly(ticks).pending is None,
        state.spec_adjust_quietly(ticks).initial_brightness is None,
    decreases ticks.len(),
{
    if ticks.len() > 0 {
        lemma_quiet_ticks_keep_data(state, ticks.drop_last());
    }
}

impl Controller {
    /// A predictor for the output `output_name`. A dataset that is kept on
    /// disk starts from what was `stored`; any other starts empty.
    pub fn new(stored: Option<Data>, stateful: bool, output_name: &str) -> (controller: Self)
        ensures
            controller@ == (ControllerView {
                pending_cooldown: 0,
                pending: None,
                data: if stateful && stored is Some {
                    stored->0@
                } else {
                    Seq::empty()
                },
                initial_brightness: None,
                als: DebouncerView { last_als: None, next_als: None, next_als_cooldown: 0 },
            }),
            controller.stateful == stateful,
            controller.output_name@ == output_name@,
    {
        let data = match stored {
            Some(stored) => if stateful {
                stored
            } else {
                Data::new(output_name)
            },
            None => Data::new(output_name),
        };
        Self {
            pending_cooldown: 0,
            pending: None,
            data,
            stateful,
            initial_brightness: None,
            als: Debouncer::new(),
            output_name: String::from_str(output_name),
        }
    }

    /// Whether the first lux value was taken up.
    pub fn is_started(&self) -> (started: bool)
        ensures
            started == (self@.als.last_als is Some),
    {
        self.als.last_als.is_some()
    }

    /// Takes up the first lux value and the brightness found at the start.
    /// Where nothing was learned yet, that brightness counts as the user's
    /// choice for the conditions of the first tick.
    pub fn start(&mut self, lux: String, brightness: u64)
        ensures
            final(self)@ == (ControllerView {
                als: DebouncerView { last_als: Some(lux@), ..old(self)@.als },
                initial_brightness: if old(self)@.data.len() == 0 {
                    Some(brightness)
                } else {
                    old(self)@.initial_brightness
                },
                ..old(self)@
            }),
            final(self).stateful == old(self).stateful,
            final(self).output_name == old(self).output_name,
    {
        self.als.start(lux);
        if self.data.entries.len() == 0 {
            self.initial_brightness = Some(brightness);
        }
    }

    /// One tick with a screen of lightness `luma`. `arrival` is the newest
    /// lux value that arrived since the last tick, `user_edit` the newest
    /// brightness that the user set since then.
    pub fn adjust(&mut self, luma: u8, arrival: Option<String>, user_edit: Option<u64>) -> (outcome:
        Outcome)
        requires
            old(self)@.als.spec_ready(),
        ensures
            final(self)@ == old(self)@.spec_adjust(luma, spec_text(arrival), user_edit),
            outcome == (ControllerView {
                als: old(self)@.als.spec_observe(spec_text(arrival)),
                ..old(self)@
            }).spec_outcome(
                old(self)@.als.spec_observe(spec_text(arrival)).last_als->0,
                luma,
                user_edit,
            ),
            final(self)@.als.spec_ready(),
            final(self).stateful == old(self).stateful,
            final(self).output_name == old(self).output_name,
            user_edit is None && old(self)@.pending is None && old(self)@.initial_brightness
                is None ==> final(self)@.data == old(self)@.data,
    {
        self.als.observe(arrival);
        let lux = match copy_text(&self.als.last_als) {
            Some(lux) => lux,
            None => String::from_str(""),
        };
        self.process(lux.as_str(), luma, user_edit)
    }

    /// One tick under `lux` with a screen of lightness `luma`.
    pub fn process(&mut self, lux: &str, luma: u8, user_edit: Option<u64>) -> (outcome: Outcome)
        ensures
            final(self)@ == old(self)@.spec_process(lux@, luma, user_edit),
            outcome == old(self)@.spec_outcome(lux@, luma, user_edit),
            final(self).stateful == old(self).stateful,
            final(self).output_name == old(self).output_name,
    {
        let initial_brightness = self.initial_brightness.take();
        let user_changed_brightness = if user_edit.is_some() {
            user_edit
        } else {
            initial_brightness
        };
        if let Some(brightness) = user_changed_brightness {
            let pending = match &self.pending {
                None => Entry::new(lux, luma, brightness),
                Some(entry) => Entry::new(entry.lux.as_str(), entry.luma, brightness),
            };
            self.pending = Some(pending);
            self.pending_cooldown = PENDING_COOLDOWN_RESET;
            Outcome::Edited
        } else if self.pending.is_some() && self.pending_cooldown <= 1 {
            self.pending_cooldown = 0;
            self.learn();
            Outcome::Learned
        } else if self.pending_cooldown > 0 {
            self.pending_cooldown -= 1;
            Outcome::Cooling
        } else {
            match self.predict(lux, luma) {
                Some(prediction) => Outcome::Predicted(prediction),
                None => Outcome::Unknown,
            }
        }
    }

    /// Learns what is pending.
    pub fn learn(&mut self)
        requires
            old(self).pending is Some,
        ensures
            final(self)@ == (ControllerView {
                pending: None,
                data: spec_learn(old(self)@.data, old(self)@.pending->0),
                ..old(self)@
            }),
            final(self).stateful == old(self).stateful,
            final(self).output_name == old(self).output_name,
    {
        if let Some(pending) = self.pending.take() {
            self.data.learn(pending);
        }
    }

    /// The brightness that the dataset gives under `lux` for a screen of
    /// lightness `luma`.
    pub fn predict(&self, lux: &str, luma: u8) -> (prediction: Option<u64>)
        ensures
            prediction == spec_interpolate(self@.data, lux@, luma),
    {
        interpolate(self.data.entries.as_slice(), lux, luma)
    }
}

} // verus!

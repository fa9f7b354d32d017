use crate::predictor::controller::manual::{
    reduction,
    spec_reduction,
    spec_saturating_add,
    spec_saturating_sub,
};
use vstd::prelude::*;

verus! {

/// The number of ticks that pass after an edit before predictions resume.
pub const COOLDOWN_STEPS: u8 = 10;

/// The percentage of the first step of `steps` that reaches `luma`;
/// nothing where none does.
pub open spec fn spec_step_percentage(steps: Seq<(u8, u64)>, luma: u8) -> u64
    decreases steps.len(),
{
    if steps.len() == 0 {
        0
    } else if luma <= steps.first().0 {
        steps.first().1
    } else {
        spec_step_percentage(steps.drop_first(), luma)
    }
}

/// The predictor that knows the screen only: a list of steps of screen
/// lightness, each with the percentage by which the brightness is
/// reduced up to it.
#[derive(Debug, PartialEq, Eq)]
pub struct LumaOnlyController {
    /// Ticks that are left before predictions resume.
    pub cooldown: u8,
    /// The brightness that the user set last.
    pub last_brightness: Option<u64>,
    pub luma_to_brightness: Vec<(u8, u64)>,
    /// The brightness that the user would have set on a black screen.
    pub pre_reduction_brightness: Option<u64>,
}

impl LumaOnlyController {
    /// A predictor that follows the steps of `luma_to_brightness`.
    pub fn new(luma_to_brightness: Vec<(u8, u64)>) -> (controller: Self)
        ensures
            controller.cooldown == 0,
            controller.last_brightness is None,
            controller.luma_to_brightness == luma_to_brightness,
            controller.pre_reduction_brightness is None,
    {
        Self {
            cooldown: 0,
            last_brightness: None,
            luma_to_brightness,
            pre_reduction_brightness: None,
        }
    }

    /// The amount by which `current_brightness` is reduced for a screen
    /// of lightness `luma`.
    pub open spec fn spec_brightness_reduction(&self, current_brightness: u64, luma: u8) -> u64 {
        spec_reduction(current_brightness, spec_step_percentage(self.luma_to_brightness@, luma))
    }

    /// The amount by which `current_brightness` is reduced for a screen
    /// of lightness `luma`: the percentage of the first step that reaches
    /// `luma`.
    pub fn get_brightness_reduction(&self, current_brightness: u64, luma: u8) -> (reduced: u64)
        ensures
            reduced == self.spec_brightness_reduction(current_brightness, luma),
    {
        let mut index: usize = 0;
        assert(self.luma_to_brightness@.skip(0) =~= self.luma_to_brightness@);
        while index < self.luma_to_brightness.len()
            invariant
                index <= self.luma_to_brightness@.len(),
                spec_step_percentage(self.luma_to_brightness@, luma) == spec_step_percentage(
                    self.luma_to_brightness@.skip(index as int),
                    luma,
                ),
            decreases self.luma_to_brightness@.len() - index,
        {
            let step = self.luma_to_brightness[index];
            let ghost rest = self.luma_to_brightness@.skip(index as int);
            assert(rest.first() == step);
            if luma <= step.0 {
                return reduction(current_brightness, step.1);
            }
            assert(rest.drop_first() =~= self.luma_to_brightness@.skip(index + 1));
            index += 1;
        }
        reduction(current_brightness, 0)
    }

    /// The predictor after a tick, and the prediction that the tick brings.
    ///
    /// While the cooldown runs, nothing else happens. After it, the
    /// brightness that counts is the newest edit, or the last one known.
    /// Where that is the last one known, the prediction is the brightness
    /// before reduction, less the reduction; any other is taken up as
    /// the user's and starts the cooldown.
    pub open spec fn spec_adjust(self, luma: u8, user_edit: Option<u64>) -> (
        LumaOnlyController,
        Option<u64>,
    ) {
        if self.cooldown > 0 {
            (LumaOnlyController { cooldown: (self.cooldown - 1) as u8, ..self }, None)
        } else {
            let current = if user_edit is Some {
                user_edit
            } else {
                self.last_brightness
            };
            let reduced = self.spec_brightness_reduction(current->0, luma);
            let before = if self.pre_reduction_brightness is Some {
                self.pre_reduction_brightness
            } else {
                Some(spec_saturating_add(current->0, reduced))
            };
            if self.last_brightness == current {
                (
                    LumaOnlyController { pre_reduction_brightness: before, ..self },
                    Some(spec_saturating_sub(before->0, reduced)),
                )
            } else {
                (
                    LumaOnlyController {
                        pre_reduction_brightness: Some(spec_saturating_add(current->0, reduced)),
                        cooldown: COOLDOWN_STEPS,
                        last_brightness: current,
                        ..self
                    },
                    None,
                )
            }
        }
    }

    /// One tick with a screen of lightness `luma`. `user_edit` is the
    /// newest brightness that the user set; it is not looked at while
    /// the cooldown runs.
    pub fn adjust(&mut self, luma: u8, user_edit: Option<u64>) -> (prediction: Option<u64>)
        requires
            old(self).cooldown == 0 ==> old(self).last_brightness is Some || user_edit is Some,
        ensures
            (*final(self), prediction) == old(self).spec_adjust(luma, user_edit),
    {
        if self.cooldown > 0 {
            self.cooldown -= 1;
            return None;
        }
        let current_brightness = match user_edit {
            Some(edit) => edit,
            None => match self.last_brightness {
                Some(last) => last,
                None => 0,
            },
        };
        let brightness_reduction = self.get_brightness_reduction(current_brightness, luma);
        let before = match self.pre_reduction_brightness {
            Some(before) => before,
            None => current_brightness.saturating_add(brightness_reduction),
        };
        self.pre_reduction_brightness = Some(before);
        let unchanged = match self.last_brightness {
            Some(last) => last == current_brightness,
            None => false,
        };
        if unchanged {
            Some(before.saturating_sub(brightness_reduction))
        } else {
            self.pre_reduction_brightness = Some(
                current_brightness.saturating_add(brightness_reduction),
            );
            self.cooldown = COOLDOWN_STEPS;
            self.last_brightness = Some(current_brightness);
            None
        }
    }
}

} // verus!

//! On-board piezo buzzer, driven through the PCA9554 expander.
//!
//! The buzzer is left silent at start-up. A flaky bus should not take
//! the rest of the firmware down over a piezo, so how an update of its
//! pin goes makes no difference to what comes next.

use crate::consts::pca9554::BUZZER_BIT;
use crate::pca9554::{
    law_one_bit_changes, law_output_drives_its_pin, register_bit, with_bit, BitUpdate, Chip,
    Pca9554Controller, REG_OUTPUT_PORT,
};
use embassy_time::Duration;
use vstd::prelude::*;

verus! {

/// `embassy_time::Duration`, a span of time. Nothing is claimed of it: a
/// beep hands it on to the timer as it came.
#[verifier::external_type_specification]
#[verifier::external_body]
pub struct ExDuration(Duration);

/// One thing to do for a beep.
#[derive(Debug, Clone, Copy)]
pub enum BeepAction {
    /// Perform an update of the expander, and go on however it ends.
    Update(BitUpdate),
    /// Wait, leaving the expander to others.
    Wait(Duration),
}

/// Where a beep stands.
#[derive(Debug, Clone, Copy, PartialEq, Eq, Structural)]
enum BeepStage {
    /// About to turn the buzzer on.
    On,
    /// Sounding.
    Sounding,
    /// About to turn the buzzer off.
    Off,
    /// Silent again.
    Done,
}

/// A beep, handed out action by action. Its view is what is still to be
/// done.
pub struct Beep {
    controller: Pca9554Controller,
    duration: Duration,
    stage: BeepStage,
}

/// The update that turns the buzzer on or off.
pub open spec fn buzzer_update(controller: Pca9554Controller, on: bool) -> BitUpdate {
    BitUpdate { addr: controller.addr, register: REG_OUTPUT_PORT, bit: BUZZER_BIT, set: on }
}

/// A whole beep: on, wait, off.
pub open spec fn beep_actions(controller: Pca9554Controller, duration: Duration) -> Seq<
    BeepAction,
> {
    seq![
        BeepAction::Update(buzzer_update(controller, true)),
        BeepAction::Wait(duration),
        BeepAction::Update(buzzer_update(controller, false)),
    ]
}

impl View for Beep {
    type V = Seq<BeepAction>;

    closed spec fn view(&self) -> Seq<BeepAction> {
        beep_actions(self.controller, self.duration).skip(
            match self.stage {
                BeepStage::On => 0,
                BeepStage::Sounding => 1,
                BeepStage::Off => 2,
                BeepStage::Done => 3,
            },
        )
    }
}

impl Beep {
    /// What to do next; nothing once the beep is over.
    pub fn action(&self) -> (action: Option<BeepAction>)
        ensures
            action is None <==> self@.len() == 0,
            action matches Some(action) ==> action == self@[0],
    {
        match self.stage {
            BeepStage::On => Some(
                BeepAction::Update(self.controller.set_output(BUZZER_BIT, true)),
            ),
            BeepStage::Sounding => Some(BeepAction::Wait(self.duration)),
            BeepStage::Off => Some(
                BeepAction::Update(self.controller.set_output(BUZZER_BIT, false)),
            ),
            BeepStage::Done => None,
        }
    }

    /// Go on to the next action, however the last one went.
    pub fn advance(&mut self)
        ensures
            final(self)@ == (if old(self)@.len() > 0 {
                old(self)@.drop_first()
            } else {
                old(self)@
            }),
    {
        self.stage = match self.stage {
            BeepStage::On => BeepStage::Sounding,
            BeepStage::Sounding => BeepStage::Off,
            BeepStage::Off => BeepStage::Done,
            BeepStage::Done => BeepStage::Done,
        };
        assert(self@ =~= (if old(self)@.len() > 0 {
            old(self)@.drop_first()
        } else {
            old(self)@
        }));
    }
}

/// Handle to the on-board piezo buzzer.
#[derive(Debug, Clone, Copy, PartialEq, Eq, Structural)]
pub struct Buzzer {
    /// The expander that the buzzer hangs on.
    pub controller: Pca9554Controller,
}

impl Buzzer {
    /// The buzzer on the given expander.
    pub fn new(controller: Pca9554Controller) -> (buzzer: Self)
        ensures
            buzzer == (Buzzer { controller }),
    {
        Buzzer { controller }
    }

    /// Turn the buzzer on.
    pub fn on(&self) -> (update: BitUpdate)
        ensures
            update == buzzer_update(self.controller, true),
    {
        self.controller.set_output(BUZZER_BIT, true)
    }

    /// Turn the buzzer off.
    pub fn off(&self) -> (update: BitUpdate)
        ensures
            update == buzzer_update(self.controller, false),
    {
        self.controller.set_output(BUZZER_BIT, false)
    }

    /// Beep for `duration`, and be silent then.
    pub fn beep_for(&self, duration: Duration) -> (beep: Beep)
        ensures
            beep@ == beep_actions(self.controller, duration),
    {
        let beep = Beep { controller: self.controller, duration, stage: BeepStage::On };
        assert(beep@ =~= beep_actions(self.controller, duration));
        beep
    }
}

/// A beep sounds, then leaves the buzzer silent, and touches no other
/// pin of the expander: `before` is the output register that its first
/// update finds, `waited` the one that its last update finds, with
/// whatever the owners of other pins have done in between.
pub proof fn law_beep_ends_silent(
    controller: Pca9554Controller,
    duration: Duration,
    before: u8,
    waited: u8,
    n: u8,
)
    requires
        n < 8,
    ensures
        ({
            let actions = beep_actions(controller, duration);
            let on = actions.first()->Update_0;
            let off = actions.last()->Update_0;
            let sounding = with_bit(before, on.bit, on.set);
            let silent = with_bit(waited, off.bit, off.set);
            &&& actions.first() is Update && actions.last() is Update
            &&& actions[1] == BeepAction::Wait(duration)
            &&& register_bit(sounding, BUZZER_BIT)
            &&& !register_bit(silent, BUZZER_BIT)
            &&& n != BUZZER_BIT ==> register_bit(sounding, n) == register_bit(before, n)
            &&& n != BUZZER_BIT ==> register_bit(silent, n) == register_bit(waited, n)
        }),
{
    law_one_bit_changes(before, BUZZER_BIT, true, BUZZER_BIT);
    law_one_bit_changes(waited, BUZZER_BIT, false, BUZZER_BIT);
    law_one_bit_changes(before, BUZZER_BIT, true, n);
    law_one_bit_changes(waited, BUZZER_BIT, false, n);
}

/// Turning the buzzer on or off drives its pin high or low, where that is
/// an output. The chip's other pins and the direction of all pins stay as
/// they were.
pub proof fn law_buzzer_drives_its_pin(
    chip: Chip,
    controller: Pca9554Controller,
    on: bool,
    n: u8,
)
    requires
        chip.addr == controller.addr,
        chip.level(BUZZER_BIT) is Some,
        n < 8,
    ensures
        ({
            let after = chip.performed(buzzer_update(controller, on));
            &&& after.level(BUZZER_BIT) == Some(on)
            &&& after.addr == chip.addr
            &&& after.configuration == chip.configuration
            &&& n != BUZZER_BIT ==> after.level(n) == chip.level(n)
        }),
{
    assert(buzzer_update(controller, on) == controller.output_update(BUZZER_BIT, on));
    law_output_drives_its_pin(chip, controller, BUZZER_BIT, on, n);
}

/// A beep is three things: it drives the buzzer's pin high, waits for
/// the duration, and drives the pin low. `before` is the chip that its
/// first update finds, `waited` the one that its last update finds.
pub proof fn law_beep_sounds_once(
    controller: Pca9554Controller,
    duration: Duration,
    before: Chip,
    waited: Chip,
    n: u8,
)
    requires
        before.addr == controller.addr,
        waited.addr == controller.addr,
        before.level(BUZZER_BIT) is Some,
        waited.level(BUZZER_BIT) is Some,
        n < 8,
    ensures
        ({
            let actions = beep_actions(controller, duration);
            let sounding = before.performed(actions[0]->Update_0);
            let silent = waited.performed(actions[2]->Update_0);
            &&& actions.len() == 3
            &&& actions[0] is Update
            &&& actions[1] == BeepAction::Wait(duration)
            &&& actions[2] is Update
            &&& sounding.level(BUZZER_BIT) == Some(true)
            &&& silent.level(BUZZER_BIT) == Some(false)
            &&& sounding.configuration == before.configuration
            &&& silent.configuration == waited.configuration
            &&& n != BUZZER_BIT ==> sounding.level(n) == before.level(n)
            &&& n != BUZZER_BIT ==> silent.level(n) == waited.level(n)
        }),
{
    law_buzzer_drives_its_pin(before, controller, true, n);
    law_buzzer_drives_its_pin(waited, controller, false, n);
}

} // verus!

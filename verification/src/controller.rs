use vstd::prelude::*;

use crate::errors::Error;
use crate::events::{InputEventData, EV_KEY, BTN_TL, BTN_TL2, BTN_TR, BTN_TR2};

verus! {

/// Product id that classifies a device as a left controller half.
pub const LEFT_JOYCON_PRODUCT_ID: u16 = 0x2006;
/// Product id that classifies a device as a right controller half.
pub const RIGHT_JOYCON_PRODUCT_ID: u16 = 0x2007;

/// Handedness of a physical controller half, fixed at construction from
/// the device's product id.
#[derive(Clone, Copy, Debug, PartialEq, Eq, Structural)]
pub enum Model {
    LeftJoycon,
    RightJoycon,
}

impl Model {
    /// Classifies a product id, failing with `UnknownModel` on any id that
    /// names neither half.
    pub fn from_product_id(product_id: u16) -> (r: Result<Model, Error>)
        ensures
            product_id == LEFT_JOYCON_PRODUCT_ID ==> r == Ok::<Model, Error>(Model::LeftJoycon),
            product_id == RIGHT_JOYCON_PRODUCT_ID ==> r == Ok::<Model, Error>(Model::RightJoycon),
            product_id != LEFT_JOYCON_PRODUCT_ID && product_id != RIGHT_JOYCON_PRODUCT_ID
                ==> r == Err::<Model, Error>(Error::UnknownModel),
    {
        if product_id == LEFT_JOYCON_PRODUCT_ID {
            Ok(Model::LeftJoycon)
        } else if product_id == RIGHT_JOYCON_PRODUCT_ID {
            Ok(Model::RightJoycon)
        } else {
            Err(Error::UnknownModel)
        }
    }

    pub fn is_left(&self) -> (r: bool)
        ensures
            r == (self is LeftJoycon),
    {
        matches!(self, Model::LeftJoycon)
    }

    pub fn is_right(&self) -> (r: bool)
        ensures
            r == (self is RightJoycon),
    {
        matches!(self, Model::RightJoycon)
    }
}

/// A product id names one of the two known controller halves.
pub open spec fn known_product(product_id: u16) -> bool {
    product_id == LEFT_JOYCON_PRODUCT_ID || product_id == RIGHT_JOYCON_PRODUCT_ID
}

/// The model a known product id classifies to.
pub open spec fn model_of_product(product_id: u16) -> Model {
    if product_id == LEFT_JOYCON_PRODUCT_ID {
        Model::LeftJoycon
    } else {
        Model::RightJoycon
    }
}

/// Edge-triggered accumulators of the six pairing-relevant buttons.  Only
/// key events touch them; a button counts as held while its last reported
/// value is nonzero.
#[derive(Clone, Copy, Debug, PartialEq, Eq, Structural)]
pub struct ButtonsState {
    pub l: i32,
    pub r: i32,
    pub zl: i32,
    pub zr: i32,
    pub sl: i32,
    pub sr: i32,
}

impl Default for ButtonsState {
    /// All buttons start released.
    fn default() -> (b: ButtonsState)
        ensures
            b == ButtonsState::released(),
    {
        ButtonsState { l: 0, r: 0, zl: 0, zr: 0, sl: 0, sr: 0 }
    }
}

/// A button value counts as held while it is nonzero.
pub open spec fn held(v: i32) -> bool {
    v != 0
}

impl ButtonsState {
    /// The all-released accumulator state.
    pub open spec fn released() -> ButtonsState {
        ButtonsState { l: 0, r: 0, zl: 0, zr: 0, sl: 0, sr: 0 }
    }

    /// How one raw event updates the accumulators.  Non-key events change
    /// nothing.  The raw side-button codes always land in sl/sr; the two
    /// shoulder-trigger codes land in l/zl on a left half and r/zr on a
    /// right half.
    pub open spec fn apply_event(self, model: Model, ev: InputEventData) -> ButtonsState {
        if ev.kind != EV_KEY {
            self
        } else {
            match model {
                Model::LeftJoycon => {
                    if ev.code == BTN_TL {
                        ButtonsState { l: ev.value, ..self }
                    } else if ev.code == BTN_TL2 {
                        ButtonsState { zl: ev.value, ..self }
                    } else if ev.code == BTN_TR {
                        ButtonsState { sl: ev.value, ..self }
                    } else if ev.code == BTN_TR2 {
                        ButtonsState { sr: ev.value, ..self }
                    } else {
                        self
                    }
                }
                Model::RightJoycon => {
                    if ev.code == BTN_TL {
                        ButtonsState { sl: ev.value, ..self }
                    } else if ev.code == BTN_TL2 {
                        ButtonsState { sr: ev.value, ..self }
                    } else if ev.code == BTN_TR {
                        ButtonsState { r: ev.value, ..self }
                    } else if ev.code == BTN_TR2 {
                        ButtonsState { zr: ev.value, ..self }
                    } else {
                        self
                    }
                }
            }
        }
    }

    /// The accumulator state after a whole batch of events, oldest first.
    pub open spec fn apply_events(self, model: Model, evs: Seq<InputEventData>) -> ButtonsState
        decreases evs.len(),
    {
        if evs.len() == 0 {
            self
        } else {
            self.apply_event(model, evs[0]).apply_events(model, evs.skip(1))
        }
    }

    /// Folds one event into the accumulators.
    fn handle_event(&mut self, ev: &InputEventData, model: &Model)
        ensures
            *final(self) == old(self).apply_event(*model, *ev),
    {
        if ev.kind != EV_KEY {
            return;
        }
        match model {
            Model::LeftJoycon => {
                if ev.code == BTN_TL {
                    self.l = ev.value;
                } else if ev.code == BTN_TL2 {
                    self.zl = ev.value;
                } else if ev.code == BTN_TR {
                    self.sl = ev.value;
                } else if ev.code == BTN_TR2 {
                    self.sr = ev.value;
                }
            }
            Model::RightJoycon => {
                if ev.code == BTN_TL {
                    self.sl = ev.value;
                } else if ev.code == BTN_TL2 {
                    self.sr = ev.value;
                } else if ev.code == BTN_TR {
                    self.r = ev.value;
                } else if ev.code == BTN_TR2 {
                    self.zr = ev.value;
                }
            }
        }
    }
}

/// Transient pairing verdict, recomputed fresh from the accumulators after
/// every batch and never persisted.
#[derive(Clone, Copy, Debug, PartialEq, Eq, Structural)]
pub enum PairingState {
    /// Neutral: no gesture recognized.
    Pairing,
    /// Exactly one of the half's own two triggers is held: the half waits
    /// for a partner of the opposite handedness.
    Waiting(Model),
    /// Both own triggers held: the half wants to act alone.
    Lone,
    /// Both side buttons held: the half wants to act alone, horizontally.
    Horizontal,
}

/// The pairing verdict of an accumulator state.  Horizontal takes
/// precedence, then Lone, then Waiting on a strict one-of-two trigger
/// hold, else the neutral Pairing state.
pub open spec fn pairing_state_of(model: Model, b: ButtonsState) -> PairingState {
    match model {
        Model::LeftJoycon => {
            if held(b.sl) && held(b.sr) {
                PairingState::Horizontal
            } else if held(b.l) && held(b.zl) {
                PairingState::Lone
            } else if held(b.l) != held(b.zl) {
                PairingState::Waiting(Model::LeftJoycon)
            } else {
                PairingState::Pairing
            }
        }
        Model::RightJoycon => {
            if held(b.sl) && held(b.sr) {
                PairingState::Horizontal
            } else if held(b.r) && held(b.zr) {
                PairingState::Lone
            } else if held(b.r) != held(b.zr) {
                PairingState::Waiting(Model::RightJoycon)
            } else {
                PairingState::Pairing
            }
        }
    }
}

/// One admitted physical controller half: its open device handle (an
/// opaque descriptor the surrounding binary reads events from), its fixed
/// model, and the pairing-button accumulators.
#[derive(Clone, Copy, Debug, PartialEq, Eq, Structural)]
pub struct Controller {
    pub fd: i32,
    pub model: Model,
    pub buttons_state: ButtonsState,
}

impl Controller {
    /// Admits a device: classifies its product id, failing with
    /// `UnknownModel` on an unrecognized id, and starts with all buttons
    /// released.
    pub fn new(fd: i32, product_id: u16) -> (r: Result<Controller, Error>)
        ensures
            product_id == LEFT_JOYCON_PRODUCT_ID ==> r == Ok::<Controller, Error>(
                Controller { fd, model: Model::LeftJoycon, buttons_state: ButtonsState::released() },
            ),
            product_id == RIGHT_JOYCON_PRODUCT_ID ==> r == Ok::<Controller, Error>(
                Controller { fd, model: Model::RightJoycon, buttons_state: ButtonsState::released() },
            ),
            product_id != LEFT_JOYCON_PRODUCT_ID && product_id != RIGHT_JOYCON_PRODUCT_ID
                ==> r == Err::<Controller, Error>(Error::UnknownModel),
    {
        let model = Model::from_product_id(product_id)?;
        Ok(Controller { fd, model, buttons_state: Default::default() })
    }

    /// Folds a drained batch of pending input events into the button
    /// accumulators and returns the pairing verdict of the new state.
    pub fn handle_pairing_events(&mut self, events: &Vec<InputEventData>) -> (state: PairingState)
        ensures
            final(self).fd == old(self).fd,
            final(self).model == old(self).model,
            final(self).buttons_state
                == old(self).buttons_state.apply_events(old(self).model, events@),
            state == pairing_state_of(final(self).model, final(self).buttons_state),
    {
        let mut i: usize = 0;
        proof {
            assert(events@.skip(0) =~= events@);
        }
        while i < events.len()
            invariant
                i <= events.len(),
                self.fd == old(self).fd,
                self.model == old(self).model,
                old(self).buttons_state.apply_events(old(self).model, events@)
                    == self.buttons_state.apply_events(self.model, events@.skip(i as int)),
            decreases events.len() - i,
        {
            let ev = events[i];
            proof {
                assert(events@.skip(i as int)[0] == events@[i as int]);
                assert(events@.skip(i as int).skip(1) =~= events@.skip(i + 1));
            }
            self.buttons_state.handle_event(&ev, &self.model);
            i = i + 1;
        }
        proof {
            assert(events@.skip(events@.len() as int) =~= Seq::<InputEventData>::empty());
        }
        self.get_pairing_state()
    }

    /// The pairing verdict of the current accumulator state.
    fn get_pairing_state(&self) -> (state: PairingState)
        ensures
            state == pairing_state_of(self.model, self.buttons_state),
    {
        let b = &self.buttons_state;
        match self.model {
            Model::LeftJoycon => {
                if b.sl != 0 && b.sr != 0 {
                    PairingState::Horizontal
                } else if b.l != 0 && b.zl != 0 {
                    PairingState::Lone
                } else if (b.l != 0) != (b.zl != 0) {
                    PairingState::Waiting(Model::LeftJoycon)
                } else {
                    PairingState::Pairing
                }
            }
            Model::RightJoycon => {
                if b.sl != 0 && b.sr != 0 {
                    PairingState::Horizontal
                } else if b.r != 0 && b.zr != 0 {
                    PairingState::Lone
                } else if (b.r != 0) != (b.zr != 0) {
                    PairingState::Waiting(Model::RightJoycon)
                } else {
                    PairingState::Pairing
                }
            }
        }
    }

    pub fn get_model(&self) -> (m: Model)
        ensures
            m == self.model,
    {
        self.model
    }
}

} // verus!

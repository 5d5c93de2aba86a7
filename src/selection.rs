//! Animation selection: which slot of the animation catalog plays, and which
//! playback requests the animation player receives when the user picks one.

use vstd::prelude::*;

verus! {

/// Blend, in milliseconds, of every accepted change of selection.
pub const SWITCH_BLEND_MS: u64 = 250;

/// Blend, in milliseconds, with which a newly ready entity starts playing.
pub const BASELINE_BLEND_MS: u64 = 0;

/// A request to an entity's animation player: start a fresh transition set
/// that crossfades into `clip` (the catalog entry of `slot`) over `blend_ms`.
#[derive(Debug)]
pub struct PlayRequest<C> {
    pub slot: usize,
    pub clip: C,
    pub blend_ms: u64,
    pub looping: bool,
}

/// The state of one selection button in the current tick.
#[derive(Clone, Copy, Debug)]
pub struct ButtonState {
    /// The slot id the button is bound to.
    pub slot: usize,
    /// Whether the button is pressed in this tick.
    pub pressed: bool,
}

/// The two appearances of a selection button.
#[derive(Clone, Copy, Debug, PartialEq, Eq)]
pub enum ButtonLook {
    Normal,
    Pressed,
}

/// What an accepted change of selection asks of the collaborators: the request
/// for every animated entity, and the look of every button, in input order.
#[derive(Debug)]
pub struct SelectionChange<C> {
    pub play: PlayRequest<C>,
    pub looks: Vec<ButtonLook>,
}

/// The slot of the first pressed button, in input order.
pub open spec fn first_pressed(buttons: Seq<ButtonState>) -> Option<usize>
    decreases buttons.len(),
{
    if buttons.len() == 0 {
        None
    } else if buttons[0].pressed {
        Some(buttons[0].slot)
    } else {
        first_pressed(buttons.drop_first())
    }
}

/// The slot that a tick's buttons select, given the active slot: the first
/// pressed one, unless it is already active.
pub open spec fn accepted_slot(active: Option<usize>, buttons: Seq<ButtonState>) -> Option<usize> {
    match first_pressed(buttons) {
        Some(k) => if active == Some(k) {
            None
        } else {
            Some(k)
        },
        None => None,
    }
}

/// The active slot after one tick.
pub open spec fn active_after(active: Option<usize>, buttons: Seq<ButtonState>) -> Option<usize> {
    match accepted_slot(active, buttons) {
        Some(k) => Some(k),
        None => active,
    }
}

/// The active slot after a run of ticks.
pub open spec fn active_after_ticks(
    active: Option<usize>,
    ticks: Seq<Seq<ButtonState>>,
) -> Option<usize>
    decreases ticks.len(),
{
    if ticks.len() == 0 {
        active
    } else {
        active_after_ticks(active_after(active, ticks[0]), ticks.drop_first())
    }
}

/// The request of a switch to slot `k`.
pub open spec fn switch_request<C>(clips: Seq<C>, k: usize) -> PlayRequest<C> {
    PlayRequest { slot: k, clip: clips[k as int], blend_ms: SWITCH_BLEND_MS, looping: true }
}

/// The slot a newly ready entity starts on: the active one, else slot 0.
pub open spec fn baseline_slot(active: Option<usize>) -> usize {
    match active {
        Some(k) => k,
        None => 0,
    }
}

/// The request with which a newly ready entity starts playing.
pub open spec fn baseline_request<C>(clips: Seq<C>, active: Option<usize>) -> PlayRequest<C> {
    PlayRequest {
        slot: baseline_slot(active),
        clip: clips[baseline_slot(active) as int],
        blend_ms: BASELINE_BLEND_MS,
        looping: true,
    }
}

/// The look of a button bound to `bound` while `active` is selected.
pub open spec fn look_for(active: Option<usize>, bound: usize) -> ButtonLook {
    if active == Some(bound) {
        ButtonLook::Pressed
    } else {
        ButtonLook::Normal
    }
}

/// The looks of all buttons while `active` is selected.
pub open spec fn looks_for(active: Option<usize>, buttons: Seq<ButtonState>) -> Seq<ButtonLook> {
    Seq::new(buttons.len(), |i: int| look_for(active, buttons[i].slot))
}

/// Every button is bound to a slot of a catalog of `n` clips.
pub open spec fn buttons_in_range(buttons: Seq<ButtonState>, n: nat) -> bool {
    forall|i: int| 0 <= i < buttons.len() ==> (#[trigger] buttons[i]).slot < n
}

/// Holds the animation catalog (clip handles indexed by slot id) and the
/// active slot, and decides what each tick's button presses change.
pub struct AnimationController<C> {
    clips: Vec<C>,
    active: Option<usize>,
}

impl<C: Copy> AnimationController<C> {
    /// The catalog, indexed by slot id.
    pub closed spec fn clips(&self) -> Seq<C> {
        self.clips@
    }

    /// The slot of the last accepted selection.
    pub closed spec fn active(&self) -> Option<usize> {
        self.active
    }

    /// The catalog is not empty and the active slot indexes it.
    pub open spec fn wf(&self) -> bool {
        &&& self.clips().len() > 0
        &&& match self.active() {
            Some(k) => k < self.clips().len(),
            None => true,
        }
    }

    /// A controller over the catalog `clips`, with no selection made yet.
    pub fn new(clips: Vec<C>) -> (r: Self)
        requires
            clips@.len() > 0,
        ensures
            r.wf(),
            r.clips() == clips@,
            r.active() == None::<usize>,
    {
        AnimationController { clips, active: None }
    }

    /// The number of clips in the catalog.
    pub fn clip_count(&self) -> (r: usize)
        ensures
            r == self.clips().len(),
    {
        self.clips.len()
    }

    /// The clip handle of `slot`.
    pub fn clip(&self, slot: usize) -> (r: C)
        requires
            slot < self.clips().len(),
        ensures
            r == self.clips()[slot as int],
    {
        self.clips[slot]
    }

    /// The slot of the last accepted selection, if any.
    pub fn active_slot(&self) -> (r: Option<usize>)
        ensures
            r == self.active(),
    {
        self.active
    }

    /// The request for an entity whose animation player has just become
    /// ready: the active slot (slot 0 while nothing was selected), looping,
    /// with no blend-in.
    pub fn start_player(&self) -> (r: PlayRequest<C>)
        requires
            self.wf(),
        ensures
            r == baseline_request(self.clips(), self.active()),
    {
        let slot: usize = match self.active {
            Some(k) => k,
            None => 0,
        };
        PlayRequest { slot, clip: self.clips[slot], blend_ms: BASELINE_BLEND_MS, looping: true }
    }

    /// The looks of `buttons` under the current selection.
    pub fn button_looks(&self, buttons: &Vec<ButtonState>) -> (r: Vec<ButtonLook>)
        ensures
            r@ == looks_for(self.active(), buttons@),
    {
        let mut looks: Vec<ButtonLook> = Vec::new();
        let mut i: usize = 0;
        while i < buttons.len()
            invariant
                i <= buttons@.len(),
                looks@ =~= looks_for(self.active(), buttons@).subrange(0, i as int),
            decreases buttons@.len() - i,
        {
            let look = if self.active == Some(buttons[i].slot) {
                ButtonLook::Pressed
            } else {
                ButtonLook::Normal
            };
            looks.push(look);
            i = i + 1;
        }
        looks
    }

    /// Handles one tick of button states. The first pressed button decides;
    /// when its slot is already active nothing changes. Otherwise its slot
    /// becomes active, and the result carries the 250 ms looping crossfade
    /// for every animated entity and the new look of every button.
    pub fn handle_buttons(&mut self, buttons: &Vec<ButtonState>) -> (r: Option<SelectionChange<C>>)
        requires
            old(self).wf(),
            buttons_in_range(buttons@, old(self).clips().len()),
        ensures
            final(self).wf(),
            final(self).clips() == old(self).clips(),
            final(self).active() == active_after(old(self).active(), buttons@),
            match accepted_slot(old(self).active(), buttons@) {
                Some(k) => r is Some && r->0.play == switch_request(old(self).clips(), k)
                    && r->0.looks@ == looks_for(Some(k), buttons@),
                None => r is None,
            },
    {
        let mut i: usize = 0;
        assert(buttons@.subrange(0, buttons@.len() as int) =~= buttons@);
        while i < buttons.len() && !buttons[i].pressed
            invariant
                i <= buttons@.len(),
                first_pressed(buttons@) == first_pressed(buttons@.subrange(i as int, buttons@.len() as int)),
            decreases buttons@.len() - i,
        {
            assert(buttons@.subrange(i as int, buttons@.len() as int).drop_first()
                =~= buttons@.subrange(i + 1, buttons@.len() as int));
            i = i + 1;
        }
        if i == buttons.len() {
            assert(buttons@.subrange(i as int, buttons@.len() as int) =~= Seq::<ButtonState>::empty());
            return None;
        }
        let k = buttons[i].slot;
        assert(buttons@.subrange(i as int, buttons@.len() as int)[0] == buttons@[i as int]);
        if self.active == Some(k) {
            return None;
        }
        self.active = Some(k);
        let play = PlayRequest { slot: k, clip: self.clips[k], blend_ms: SWITCH_BLEND_MS, looping: true };
        let looks = self.button_looks(buttons);
        Some(SelectionChange { play, looks })
    }
}

/// Pressing the active slot, in any number of ticks, never changes the
/// selection and never issues a transition: in every tick whose first pressed
/// button (if any) is bound to the active slot `k`, nothing is accepted, and
/// after all of them `k` is still active.
pub proof fn lemma_active_press_is_idempotent(k: usize, ticks: Seq<Seq<ButtonState>>)
    requires
        forall|t: int|
            0 <= t < ticks.len() ==> (#[trigger] first_pressed(ticks[t])) is None
                || first_pressed(ticks[t]) == Some(k),
    ensures
        forall|t: int| 0 <= t < ticks.len() ==> (#[trigger] accepted_slot(Some(k), ticks[t])) is None,
        active_after_ticks(Some(k), ticks) == Some(k),
    decreases ticks.len(),
{
    if ticks.len() > 0 {
        let rest = ticks.drop_first();
        assert forall|t: int| 0 <= t < rest.len() implies (#[trigger] first_pressed(rest[t])) is None
            || first_pressed(rest[t]) == Some(k) by {
            assert(rest[t] == ticks[t + 1]);
        }
        lemma_active_press_is_idempotent(k, rest);
    }
}

/// An entity that becomes ready before any selection was made starts the
/// clip of slot 0, looping, with no blend-in.
pub proof fn lemma_baseline_starts_slot_zero<C>(clips: Seq<C>)
    requires
        clips.len() > 0,
    ensures
        baseline_request(clips, None).slot == 0,
        baseline_request(clips, None).clip == clips[0],
        baseline_request(clips, None).looping,
        baseline_request(clips, None).blend_ms == 0,
{
}

/// After a change of selection to slot `k`, where every slot has at most one
/// button and `k` has one, exactly that button shows the pressed look and
/// every other button the normal one.
pub proof fn lemma_exclusive_highlight(k: usize, buttons: Seq<ButtonState>)
    requires
        forall|i: int, j: int|
            0 <= i < buttons.len() && 0 <= j < buttons.len() && i != j ==> buttons[i].slot
                != buttons[j].slot,
        exists|i: int| 0 <= i < buttons.len() && buttons[i].slot == k,
    ensures
        exists|i: int|
            0 <= i < buttons.len() && buttons[i].slot == k && looks_for(Some(k), buttons)[i]
                == ButtonLook::Pressed && forall|j: int|
                0 <= j < buttons.len() && j != i ==> looks_for(Some(k), buttons)[j]
                    == ButtonLook::Normal,
{
    let i = choose|i: int| 0 <= i < buttons.len() && buttons[i].slot == k;
    assert forall|j: int| 0 <= j < buttons.len() && j != i implies looks_for(Some(k), buttons)[j]
        == ButtonLook::Normal by {
        assert(buttons[i].slot != buttons[j].slot);
    }
    assert(looks_for(Some(k), buttons)[i] == ButtonLook::Pressed);
}

/// Every accepted change of selection blends over 250 ms; the baseline start
/// of a newly ready entity blends over 0 ms.
pub proof fn lemma_blend_durations<C>(clips: Seq<C>, active: Option<usize>, buttons: Seq<ButtonState>)
    ensures
        accepted_slot(active, buttons) is Some ==> switch_request(
            clips,
            accepted_slot(active, buttons)->0,
        ).blend_ms == 250,
        baseline_request(clips, active).blend_ms == 0,
{
}

} // verus!

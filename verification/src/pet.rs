//! The behaviour of one pet apart from its window: the animation state
//! machine, the mouse interaction and the menu commands. Each step returns
//! what the window side has to do.
use vstd::prelude::*;

use crate::assets::str_eq;
use crate::catalog::{next_anim, next_anim_state, pick_next, pick_result, pick_state, Catalog};
use crate::config::PetEntry;
use crate::rng::Rng;

verus! {

// Menu command ids.
pub const MID_ACT_BASE: usize = 100;
pub const MID_MOVE_BASE: usize = 150;
pub const MID_CLICK_BASE: usize = 160;
pub const MID_IDLE: usize = 170;
pub const MID_TURN: usize = 171;
pub const MID_CORNER: usize = 172;
pub const MID_ONTOP: usize = 173;
pub const MID_NOMOVE: usize = 174;
pub const MID_AUTOSTART: usize = 175;
pub const MID_SCALE_BASE: usize = 180;
pub const MID_SPAWN: usize = 191;
pub const MID_QUIT_PET: usize = 190;

/// The number of size steps of the size menu.
pub const SCALE_STEP_COUNT: usize = 4;

/// The state of one pet that is not its window, its size or its position.
pub struct PetState {
    pub cur_anim: String,
    pub facing_right: bool,
    pub no_move: bool,
    pub win_topmost: bool,
    pub visible: bool,
    pub frame_accum_ms: u64,
    pub anim_ended_fired: bool,
    /// The left button went down on the pet and is not up yet.
    pub pressed: bool,
    pub dragging: bool,
    /// A planned walk is under way.
    pub move_active: bool,
    pub move_accum_ms: u64,
}

/// What the window side does after an animation has played to its end.
pub enum AnimEnd {
    /// The drag animation loops while the drag lasts: rewind it.
    Rewind,
    /// The pet went back to the idle animation, from its first frame; the
    /// flag tells whether the name changed.
    BackToIdle(bool),
    /// The pet may walk: try to plan a walk, then call `finish_anim_ended`.
    ChooseNext,
}

/// What the window side does after a mouse move.
pub enum MouseMove {
    Ignore,
    /// Drag the window along (after switching, where `true`, to the drag
    /// animation).
    Drag(bool),
}

/// What a menu command of a pet asks for.
pub enum PetCommand {
    Idle,
    Turn,
    Corner,
    ToggleTopmost,
    ToggleNoMove,
    Act(usize),
    Move(usize),
    Click(usize),
    Scale(usize),
    Spawn,
    QuitPet,
    ToggleAutostart,
    Nothing,
}

/// The command of the menu id `id` for a catalog with `acts`, `moves` and
/// `clicks` animations.
pub open spec fn command_of(id: usize, acts: nat, moves: nat, clicks: nat) -> PetCommand {
    if id == MID_SPAWN {
        PetCommand::Spawn
    } else if id == MID_QUIT_PET {
        PetCommand::QuitPet
    } else if id == MID_AUTOSTART {
        PetCommand::ToggleAutostart
    } else if id == MID_IDLE {
        PetCommand::Idle
    } else if id == MID_TURN {
        PetCommand::Turn
    } else if id == MID_CORNER {
        PetCommand::Corner
    } else if id == MID_ONTOP {
        PetCommand::ToggleTopmost
    } else if id == MID_NOMOVE {
        PetCommand::ToggleNoMove
    } else if MID_ACT_BASE <= id < MID_ACT_BASE + 42 {
        if id - MID_ACT_BASE < acts {
            PetCommand::Act((id - MID_ACT_BASE) as usize)
        } else {
            PetCommand::Nothing
        }
    } else if MID_MOVE_BASE <= id < MID_MOVE_BASE + 3 {
        if id - MID_MOVE_BASE < moves {
            PetCommand::Move((id - MID_MOVE_BASE) as usize)
        } else {
            PetCommand::Nothing
        }
    } else if MID_CLICK_BASE <= id < MID_CLICK_BASE + 3 {
        if id - MID_CLICK_BASE < clicks {
            PetCommand::Click((id - MID_CLICK_BASE) as usize)
        } else {
            PetCommand::Nothing
        }
    } else if MID_SCALE_BASE <= id < MID_SCALE_BASE + 4 {
        if id - MID_SCALE_BASE < SCALE_STEP_COUNT {
            PetCommand::Scale((id - MID_SCALE_BASE) as usize)
        } else {
            PetCommand::Nothing
        }
    } else {
        PetCommand::Nothing
    }
}

/// Decodes the menu command `id` of a pet's context menu.
pub fn decode_command(id: usize, catalog: &Catalog) -> (c: PetCommand)
    ensures
        c == command_of(id, catalog.acts@.len(), catalog.moves@.len(), catalog.clicks@.len()),
{
    if id == MID_SPAWN {
        PetCommand::Spawn
    } else if id == MID_QUIT_PET {
        PetCommand::QuitPet
    } else if id == MID_AUTOSTART {
        PetCommand::ToggleAutostart
    } else if id == MID_IDLE {
        PetCommand::Idle
    } else if id == MID_TURN {
        PetCommand::Turn
    } else if id == MID_CORNER {
        PetCommand::Corner
    } else if id == MID_ONTOP {
        PetCommand::ToggleTopmost
    } else if id == MID_NOMOVE {
        PetCommand::ToggleNoMove
    } else if id >= MID_ACT_BASE && id < MID_ACT_BASE + 42 {
        if id - MID_ACT_BASE < catalog.acts.len() {
            PetCommand::Act(id - MID_ACT_BASE)
        } else {
            PetCommand::Nothing
        }
    } else if id >= MID_MOVE_BASE && id < MID_MOVE_BASE + 3 {
        if id - MID_MOVE_BASE < catalog.moves.len() {
            PetCommand::Move(id - MID_MOVE_BASE)
        } else {
            PetCommand::Nothing
        }
    } else if id >= MID_CLICK_BASE && id < MID_CLICK_BASE + 3 {
        if id - MID_CLICK_BASE < catalog.clicks.len() {
            PetCommand::Click(id - MID_CLICK_BASE)
        } else {
            PetCommand::Nothing
        }
    } else if id >= MID_SCALE_BASE && id < MID_SCALE_BASE + 4 {
        if id - MID_SCALE_BASE < SCALE_STEP_COUNT {
            PetCommand::Scale(id - MID_SCALE_BASE)
        } else {
            PetCommand::Nothing
        }
    } else {
        PetCommand::Nothing
    }
}

/// `s` with the animation switched to `name`: where it differs from the
/// current one, a walk under way is dropped and the frame clock restarts.
pub open spec fn switched(s: PetState, name: Seq<char>) -> PetState {
    if s.cur_anim@ == name {
        s
    } else {
        PetState {
            cur_anim: s.cur_anim,
            move_active: false,
            move_accum_ms: 0,
            frame_accum_ms: 0,
            anim_ended_fired: false,
            ..s
        }
    }
}

/// Whether two states agree on everything but the animation's name.
pub open spec fn same_but_name(a: PetState, b: PetState) -> bool {
    &&& a.facing_right == b.facing_right
    &&& a.no_move == b.no_move
    &&& a.win_topmost == b.win_topmost
    &&& a.visible == b.visible
    &&& a.frame_accum_ms == b.frame_accum_ms
    &&& a.anim_ended_fired == b.anim_ended_fired
    &&& a.pressed == b.pressed
    &&& a.dragging == b.dragging
    &&& a.move_active == b.move_active
    &&& a.move_accum_ms == b.move_accum_ms
}

/// `s` with the animation switched to `name` and played from its start:
/// as `switched`, and where the name is the current one the frame clock and
/// the end-of-clip flag start over too.
pub open spec fn restarted(s: PetState, name: Seq<char>) -> PetState {
    PetState { frame_accum_ms: 0, anim_ended_fired: false, ..switched(s, name) }
}

/// Whether `b` is `a` after switching to `name` and playing it from its
/// start.
pub open spec fn is_restart(a: PetState, b: PetState, name: Seq<char>) -> bool {
    &&& b.cur_anim@ == name
    &&& same_but_name(b, restarted(a, name))
}

/// Whether `b` is `a` after switching to `name`.
pub open spec fn is_switch(a: PetState, b: PetState, name: Seq<char>) -> bool {
    &&& b.cur_anim@ == (if a.cur_anim@ == name { a.cur_anim@ } else { name })
    &&& same_but_name(b, switched(a, name))
}

impl PetState {
    /// A pet as the config entry describes it, showing nothing yet.
    pub fn new(pc: &PetEntry) -> (s: PetState)
        ensures
            s.cur_anim@ == Seq::<char>::empty(),
            s.facing_right == (pc.facing@ == "right"@),
            s.no_move == pc.no_move,
            s.win_topmost == pc.on_top,
            s.visible,
            s.frame_accum_ms == 0,
            !s.anim_ended_fired,
            !s.pressed,
            !s.dragging,
            !s.move_active,
            s.move_accum_ms == 0,
    {
        PetState {
            cur_anim: String::new(),
            facing_right: str_eq(pc.facing.as_str(), "right"),
            no_move: pc.no_move,
            win_topmost: pc.on_top,
            visible: true,
            frame_accum_ms: 0,
            anim_ended_fired: false,
            pressed: false,
            dragging: false,
            move_active: false,
            move_accum_ms: 0,
        }
    }

    /// Writes the facing and the flags into a config entry.
    pub fn save_into(&self, pc: &mut PetEntry)
        ensures
            final(pc).facing@ == (if self.facing_right { "right"@ } else { "left"@ }),
            final(pc).on_top == self.win_topmost,
            final(pc).no_move == self.no_move,
            final(pc).rx == old(pc).rx,
            final(pc).ry == old(pc).ry,
            final(pc).scale == old(pc).scale,
    {
        pc.facing = if self.facing_right {
            String::from_str("right")
        } else {
            String::from_str("left")
        };
        pc.on_top = self.win_topmost;
        pc.no_move = self.no_move;
    }

    /// Drops a walk under way.
    pub fn cancel_move(&mut self)
        ensures
            *final(self) == (PetState { move_active: false, move_accum_ms: 0, ..*old(self) }),
    {
        self.move_active = false;
        self.move_accum_ms = 0;
    }

    /// Switches to the animation `name`; returns whether it changed, in
    /// which case the clip starts over and the frame is drawn.
    pub fn switch_anim(&mut self, name: &str) -> (changed: bool)
        ensures
            changed == (old(self).cur_anim@ != name@),
            is_switch(*old(self), *final(self), name@),
    {
        if str_eq(self.cur_anim.as_str(), name) {
            return false;
        }
        self.cancel_move();
        self.cur_anim = String::from_str(name);
        self.frame_accum_ms = 0;
        self.anim_ended_fired = false;
        true
    }

    /// Sets the stay-on-top flag.
    pub fn set_topmost(&mut self, on: bool)
        ensures
            *final(self) == (PetState { win_topmost: on, ..*old(self) }),
    {
        self.win_topmost = on;
    }

    /// Shows a hidden pet or hides a shown one; returns whether it is shown.
    pub fn toggle_visible(&mut self) -> (shown: bool)
        ensures
            shown == !old(self).visible,
            *final(self) == (PetState { visible: shown, ..*old(self) }),
    {
        self.visible = !self.visible;
        self.visible
    }

    /// Switches walking off or on; switching it off during a walk sends the
    /// pet back to the idle animation. Returns whether the animation changed.
    pub fn set_no_move(&mut self, on: bool, catalog: &Catalog) -> (changed: bool)
        ensures
            ({
                let s1 = PetState { no_move: on, ..*old(self) };
                if on && old(self).move_active {
                    &&& changed == (old(self).cur_anim@ != catalog.idle@)
                    &&& is_switch(s1, *final(self), catalog.idle@)
                } else {
                    !changed && *final(self) == s1
                }
            }),
    {
        self.no_move = on;
        if on && self.move_active {
            self.switch_anim(catalog.idle.as_str())
        } else {
            false
        }
    }

    /// Whether a walk may be planned: walking is on and none is under way.
    pub fn may_plan_move(&self) -> (r: bool)
        ensures
            r == (!self.no_move && !self.move_active),
    {
        !self.no_move && !self.move_active
    }

    /// Starts the walk that was just planned.
    pub fn start_move(&mut self)
        ensures
            *final(self) == (PetState { move_active: true, move_accum_ms: 0, ..*old(self) }),
    {
        self.move_active = true;
        self.move_accum_ms = 0;
    }

    /// Plays the walk animation `name`: drops a walk under way, switches,
    /// and starts a new walk where one could be planned. Returns whether the
    /// animation changed.
    pub fn trigger_move(&mut self, name: &str, planned: bool) -> (changed: bool)
        ensures
            ({
                let s1 = PetState { move_active: false, move_accum_ms: 0, ..*old(self) };
                &&& changed == (old(self).cur_anim@ != name@)
                &&& final(self).cur_anim@ == (if s1.cur_anim@ == name@ {
                    s1.cur_anim@
                } else {
                    name@
                })
                &&& final(self).move_active == planned
                &&& final(self).move_accum_ms == 0
                &&& final(self).frame_accum_ms == (if changed {
                    0
                } else {
                    old(self).frame_accum_ms
                })
                &&& final(self).anim_ended_fired == (!changed && old(self).anim_ended_fired)
                &&& final(self).facing_right == old(self).facing_right
                &&& final(self).no_move == old(self).no_move
                &&& final(self).win_topmost == old(self).win_topmost
                &&& final(self).visible == old(self).visible
                &&& final(self).pressed == old(self).pressed
                &&& final(self).dragging == old(self).dragging
            }),
    {
        self.cancel_move();
        let changed = self.switch_anim(name);
        if planned {
            self.start_move();
        }
        changed
    }

    /// The frame clock after `dt_ms` milliseconds; returns whether the next
    /// frame is due, in which case the clock starts over. No time passing
    /// changes nothing.
    pub fn tick_frame(&mut self, dt_ms: u64, frame_ms: u64) -> (advance: bool)
        requires
            old(self).frame_accum_ms + dt_ms <= u64::MAX,
        ensures
            ({
                let acc = old(self).frame_accum_ms + dt_ms;
                &&& advance == (dt_ms > 0 && acc >= frame_ms)
                &&& *final(self) == if dt_ms == 0 {
                    *old(self)
                } else {
                    PetState { frame_accum_ms: if advance { 0 } else { acc as u64 }, ..*old(self) }
                }
            }),
    {
        if dt_ms == 0 {
            return false;
        }
        self.frame_accum_ms = self.frame_accum_ms + dt_ms;
        if self.frame_accum_ms >= frame_ms {
            self.frame_accum_ms = 0;
            true
        } else {
            false
        }
    }

    /// The walk clock after `dt_ms` milliseconds: where a walk is under way
    /// and time passed, the time it has run.
    pub fn tick_move(&mut self, dt_ms: u64) -> (elapsed: Option<u64>)
        requires
            old(self).move_accum_ms + dt_ms <= u64::MAX,
        ensures
            if dt_ms > 0 && old(self).move_active {
                &&& elapsed == Some((old(self).move_accum_ms + dt_ms) as u64)
                &&& *final(self) == (PetState {
                    move_accum_ms: (old(self).move_accum_ms + dt_ms) as u64,
                    ..*old(self)
                })
            } else {
                elapsed is None && *final(self) == *old(self)
            },
    {
        if dt_ms == 0 || !self.move_active {
            return None;
        }
        self.move_accum_ms = self.move_accum_ms + dt_ms;
        Some(self.move_accum_ms)
    }

    /// The clip ran out of frames; returns whether this is the first time,
    /// when the end of the animation is handled.
    pub fn frame_ended(&mut self) -> (first: bool)
        ensures
            first == !old(self).anim_ended_fired,
            *final(self) == (PetState { anim_ended_fired: true, ..*old(self) }),
    {
        if !self.anim_ended_fired {
            self.anim_ended_fired = true;
            true
        } else {
            false
        }
    }

    /// The current animation has played to its end: the drag animation
    /// loops while the drag lasts; the turn animation turns the pet round;
    /// after the drag or a click response the pet goes back to idle;
    /// otherwise the next animation is to be chosen.
    pub fn on_anim_ended(&mut self, catalog: &Catalog) -> (r: AnimEnd)
        ensures
            ({
                let name = old(self).cur_anim@;
                if name == catalog.drag@ && old(self).dragging {
                    r == AnimEnd::Rewind && *final(self) == (PetState {
                        anim_ended_fired: false,
                        ..*old(self)
                    })
                } else {
                    let s1 = PetState {
                        facing_right: if name == catalog.turn@ {
                            !old(self).facing_right
                        } else {
                            old(self).facing_right
                        },
                        ..*old(self)
                    };
                    if name == catalog.drag@ || catalog.clicks.deep_view().contains(name) {
                        &&& r == AnimEnd::BackToIdle(name != catalog.idle@)
                        &&& is_restart(s1, *final(self), catalog.idle@)
                    } else {
                        r == AnimEnd::ChooseNext && *final(self) == s1
                    }
                }
            }),
    {
        if str_eq(self.cur_anim.as_str(), catalog.drag.as_str()) && self.dragging {
            self.anim_ended_fired = false;
            return AnimEnd::Rewind;
        }
        let is_turn = str_eq(self.cur_anim.as_str(), catalog.turn.as_str());
        if is_turn {
            self.facing_right = !self.facing_right;
        }
        let is_drag = str_eq(self.cur_anim.as_str(), catalog.drag.as_str());
        if is_drag || crate::catalog::contains_string(&catalog.clicks, &self.cur_anim) {
            let changed = self.restart_anim(catalog.idle.as_str());
            return AnimEnd::BackToIdle(changed);
        }
        AnimEnd::ChooseNext
    }

    /// Switches to the animation `name` and plays it from its first frame,
    /// also where it is the current one; returns whether the name changed.
    /// The clip is rewound and the frame drawn either way.
    pub fn restart_anim(&mut self, name: &str) -> (changed: bool)
        ensures
            changed == (old(self).cur_anim@ != name@),
            is_restart(*old(self), *final(self), name@),
    {
        let changed = self.switch_anim(name);
        self.frame_accum_ms = 0;
        self.anim_ended_fired = false;
        changed
    }

    /// Moves on from the animation `ended` along the chain: the next
    /// animation plays from its first frame, also where the chain picked the
    /// one that just ended. Returns whether the name changed.
    pub fn finish_anim_ended(&mut self, catalog: &Catalog, ended: &str, can_move: bool, rng: &mut Rng) -> (changed: bool)
        ensures
            ({
                let next = next_anim(catalog, ended@, old(self).no_move, can_move, old(rng)@);
                &&& changed == (old(self).cur_anim@ != next)
                &&& is_restart(*old(self), *final(self), next)
                &&& !final(self).anim_ended_fired
                &&& final(self).frame_accum_ms == 0
                &&& final(rng)@ == next_anim_state(catalog, old(self).no_move, can_move, old(rng)@)
            }),
    {
        let next = pick_next(catalog, ended, self.no_move, can_move, rng);
        self.restart_anim(next.as_str())
    }

    /// The left button went down on the pet.
    pub fn on_lbutton_down(&mut self)
        ensures
            *final(self) == (PetState {
                pressed: true,
                dragging: false,
                move_active: false,
                move_accum_ms: 0,
                ..*old(self)
            }),
    {
        self.pressed = true;
        self.dragging = false;
        self.cancel_move();
    }

    /// The mouse moved; `beyond_threshold` tells whether it is far enough
    /// from where the button went down to start a drag.
    pub fn on_mouse_move(&mut self, beyond_threshold: bool, catalog: &Catalog) -> (r: MouseMove)
        ensures
            if !old(self).pressed || (!old(self).dragging && !beyond_threshold) {
                r == MouseMove::Ignore && *final(self) == *old(self)
            } else if old(self).dragging {
                r == MouseMove::Drag(false) && *final(self) == *old(self)
            } else {
                &&& r == MouseMove::Drag(old(self).cur_anim@ != catalog.drag@)
                &&& is_switch(
                    PetState { dragging: true, ..*old(self) },
                    *final(self),
                    catalog.drag@,
                )
            },
    {
        if !self.pressed {
            return MouseMove::Ignore;
        }
        if !self.dragging {
            if !beyond_threshold {
                return MouseMove::Ignore;
            }
            self.dragging = true;
            let changed = self.switch_anim(catalog.drag.as_str());
            return MouseMove::Drag(changed);
        }
        MouseMove::Drag(false)
    }

    /// A click (a press and release without a drag): while idle, the pet
    /// plays a random click response. Returns whether the animation changed.
    fn on_click(&mut self, catalog: &Catalog, rng: &mut Rng) -> (changed: bool)
        ensures
            if old(self).cur_anim@ != catalog.idle@ {
                !changed && *final(self) == *old(self) && final(rng)@ == old(rng)@
            } else {
                let pick = pick_result(catalog.clicks.deep_view(), None, old(rng)@);
                &&& changed == (catalog.idle@ != pick)
                &&& is_switch(
                    PetState { move_active: false, move_accum_ms: 0, ..*old(self) },
                    *final(self),
                    pick,
                )
                &&& final(rng)@ == pick_state(catalog.clicks.deep_view(), old(rng)@)
            },
    {
        if !str_eq(self.cur_anim.as_str(), catalog.idle.as_str()) {
            return false;
        }
        self.cancel_move();
        let pick = Catalog::pick(catalog.clicks.as_slice(), None, rng);
        self.switch_anim(pick.as_str())
    }

    /// The left button went up: a drag ends with the pet back at idle; a
    /// press without a drag is a click, which on the idle pet plays one of
    /// the click responses. Returns whether a drag ended (the window follows
    /// the cursor one last time) and whether the animation changed.
    pub fn on_lbutton_up(&mut self, catalog: &Catalog, rng: &mut Rng) -> (r: (bool, bool))
        ensures
            r.0 == old(self).dragging,
            !final(self).dragging,
            !final(self).pressed,
            old(self).dragging ==> {
                &&& r.1 == (old(self).cur_anim@ != catalog.idle@)
                &&& is_switch(
                    PetState { dragging: false, pressed: false, ..*old(self) },
                    *final(self),
                    catalog.idle@,
                )
                &&& final(rng)@ == old(rng)@
            },
            !old(self).dragging && old(self).cur_anim@ != catalog.idle@ ==> {
                &&& !r.1
                &&& *final(self) == (PetState { pressed: false, ..*old(self) })
                &&& final(rng)@ == old(rng)@
            },
            !old(self).dragging && old(self).cur_anim@ == catalog.idle@ ==> {
                let pick = pick_result(catalog.clicks.deep_view(), None, old(rng)@);
                &&& r.1 == (catalog.idle@ != pick)
                &&& is_switch(
                    PetState { move_active: false, move_accum_ms: 0, pressed: false, ..*old(self) },
                    *final(self),
                    pick,
                )
                &&& !final(self).move_active
                &&& catalog.clicks@.len() > 0 ==> catalog.clicks.deep_view().contains(
                    final(self).cur_anim@,
                )
                &&& final(rng)@ == pick_state(catalog.clicks.deep_view(), old(rng)@)
            },
    {
        let was_dragging = self.dragging;
        let changed;
        if was_dragging {
            changed = self.switch_anim(catalog.idle.as_str());
        } else {
            let ghost s0 = *self;
            let ghost r0 = rng@;
            changed = self.on_click(catalog, rng);
            proof {
                if s0.cur_anim@ == catalog.idle@ && catalog.clicks@.len() > 0 {
                    crate::catalog::lemma_pick_in_pool(catalog.clicks.deep_view(), None, r0);
                }
            }
        }
        self.dragging = false;
        self.pressed = false;
        (was_dragging, changed)
    }

    /// Carries out the menu command `id` as far as it concerns the pet's
    /// own state; a walk command plays its walk, which moves the window
    /// where `planned` says a walk could be planned. Returns the command (the
    /// window side does the rest) and whether the animation changed.
    pub fn apply_command(&mut self, id: usize, catalog: &Catalog, planned: bool) -> (r: (PetCommand, bool))
        ensures
            r.0 == command_of(id, catalog.acts@.len(), catalog.moves@.len(), catalog.clicks@.len()),
            match r.0 {
                PetCommand::Idle => r.1 == (old(self).cur_anim@ != catalog.idle@) && is_switch(
                    *old(self),
                    *final(self),
                    catalog.idle@,
                ),
                PetCommand::Turn => r.1 == (old(self).cur_anim@ != catalog.turn@) && is_switch(
                    *old(self),
                    *final(self),
                    catalog.turn@,
                ),
                PetCommand::Act(i) => r.1 == (old(self).cur_anim@ != catalog.acts@[i as int]@)
                    && is_switch(*old(self), *final(self), catalog.acts@[i as int]@),
                PetCommand::Click(i) => r.1 == (old(self).cur_anim@
                    != catalog.clicks@[i as int]@) && is_switch(
                    *old(self),
                    *final(self),
                    catalog.clicks@[i as int]@,
                ),
                PetCommand::ToggleTopmost => !r.1 && *final(self) == (PetState {
                    win_topmost: !old(self).win_topmost,
                    ..*old(self)
                }),
                PetCommand::ToggleNoMove => {
                    let s1 = PetState { no_move: !old(self).no_move, ..*old(self) };
                    if s1.no_move && old(self).move_active {
                        r.1 == (old(self).cur_anim@ != catalog.idle@) && is_switch(
                            s1,
                            *final(self),
                            catalog.idle@,
                        )
                    } else {
                        !r.1 && *final(self) == s1
                    }
                },
                PetCommand::Move(i) => {
                    let name = catalog.moves@[i as int]@;
                    let s1 = PetState { move_active: false, move_accum_ms: 0, ..*old(self) };
                    &&& r.1 == (old(self).cur_anim@ != name)
                    &&& final(self).cur_anim@ == name
                    &&& final(self).move_active == planned
                    &&& same_but_name(
                        *final(self),
                        PetState { move_active: planned, ..switched(s1, name) },
                    )
                },
                _ => !r.1 && *final(self) == *old(self),
            },
    {
        let cmd = decode_command(id, catalog);
        let changed = match cmd {
            PetCommand::Idle => self.switch_anim(catalog.idle.as_str()),
            PetCommand::Turn => self.switch_anim(catalog.turn.as_str()),
            PetCommand::Act(i) => self.switch_anim(catalog.acts[i].as_str()),
            PetCommand::Click(i) => self.switch_anim(catalog.clicks[i].as_str()),
            PetCommand::Move(i) => self.trigger_move(catalog.moves[i].as_str(), planned),
            PetCommand::ToggleTopmost => {
                let on = !self.win_topmost;
                self.set_topmost(on);
                false
            },
            PetCommand::ToggleNoMove => {
                let on = !self.no_move;
                self.set_no_move(on, catalog)
            },
            _ => false,
        };
        (cmd, changed)
    }
}

} // verus!

verus! {

/// The signed value of a 16-bit word.
pub open spec fn signed16(v: int) -> int {
    if v >= 0x8000 {
        v - 0x10000
    } else {
        v
    }
}

fn word_to_i32(w: u16) -> (r: i32)
    ensures
        r == signed16(w as int),
{
    let r = w as i16 as i32;
    assert(r == if w >= 0x8000 { w as int - 0x10000 } else { w as int }) by (bit_vector)
        requires
            r == w as i16 as i32,
    ;
    r
}

/// The point that a mouse message's `lparam` carries: the low word is `x`,
/// the next word `y`, both signed.
pub fn client_pos(lparam: isize) -> (r: (i32, i32))
    ensures
        r.0 == signed16(((lparam as u64) & 0xFFFF) as int),
        r.1 == signed16((((lparam as u64) >> 16u64) & 0xFFFF) as int),
{
    let u = lparam as u64;
    let lo = u & 0xFFFF;
    let hi = (u >> 16u64) & 0xFFFF;
    assert(lo <= 0xFFFF && hi <= 0xFFFF) by (bit_vector)
        requires
            lo == u & 0xFFFF,
            hi == (u >> 16u64) & 0xFFFF,
    ;
    (word_to_i32(lo as u16), word_to_i32(hi as u16))
}

} // verus!

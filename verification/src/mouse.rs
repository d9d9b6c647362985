//! Decisions taken on mouse events: focus follows the mouse, clicks on
//! partly hidden windows, and resizing a window by dragging with a modifier
//! held.

use vstd::prelude::*;

verus! {

/// The plugin that registers the mouse event handlers.
pub struct MouseEventsPlugin;

/// Whether the mouse handlers for movement, resizing and clicks run: only
/// while Mission Control is not active, that is when its flag `active` is
/// absent or false.
pub fn mission_control_inactive(active: Option<bool>) -> (r: bool)
    ensures
        r == match active {
            Some(is_active) => !is_active,
            None => true,
        },
{
    match active {
        Some(is_active) => !is_active,
        None => true,
    }
}

/// Whether a mouse-moved event should look for the window under the
/// pointer to focus it: only when the resize modifier is not held, focus
/// follows the mouse, and no focus-follows-mouse change is still pending.
pub fn mouse_moved_needs_lookup(
    resize_modifier_held: bool,
    focus_follows_mouse: bool,
    focus_change_pending: bool,
) -> (r: bool)
    ensures
        r == (!resize_modifier_held && focus_follows_mouse && !focus_change_pending),
{
    if resize_modifier_held {
        return false;
    }
    if !focus_follows_mouse {
        return false;
    }
    !focus_change_pending
}

/// The window a mouse-moved event focuses.
#[derive(Debug, PartialEq, Eq)]
pub enum MouseMoveFocus {
    /// Nothing changes.
    Keep,
    /// Focus the window with this id, held by this entity, without
    /// reshuffling the layout.
    Focus { window_id: u32, entity: u64 },
}

/// Given the window under the pointer, the focused window and the entity
/// found for the window under the pointer, decides what to focus: nothing
/// when there is no window under the pointer, when it is already focused,
/// or when it has no entity; otherwise that window.
pub fn mouse_moved_focus(
    window_at_point: Option<u32>,
    focused_window: Option<u32>,
    entity_at_point: Option<u64>,
) -> (r: MouseMoveFocus)
    ensures
        match window_at_point {
            None => r == MouseMoveFocus::Keep,
            Some(window_id) => if focused_window == Some(window_id) {
                r == MouseMoveFocus::Keep
            } else {
                match entity_at_point {
                    None => r == MouseMoveFocus::Keep,
                    Some(entity) => r == (MouseMoveFocus::Focus { window_id, entity }),
                }
            },
        },
{
    let window_id = match window_at_point {
        Some(id) => id,
        None => return MouseMoveFocus::Keep,
    };
    let already_focused = match focused_window {
        Some(id) => id == window_id,
        None => false,
    };
    if already_focused {
        return MouseMoveFocus::Keep;
    }
    match entity_at_point {
        Some(entity) => MouseMoveFocus::Focus { window_id, entity },
        None => MouseMoveFocus::Keep,
    }
}

/// One mouse-moved step of focus-follows-mouse, from the pending focus
/// change and the event's facts to the next pending change and the focus
/// decision: a lookup is only made, and a window only focused, while no
/// change is pending; focusing a window makes its change pending.
pub open spec fn focus_step(
    pending: Option<u32>,
    resize_modifier_held: bool,
    focus_follows_mouse: bool,
    window_at_point: Option<u32>,
    focused_window: Option<u32>,
    entity_at_point: Option<u64>,
) -> (Option<u32>, MouseMoveFocus) {
    if resize_modifier_held || !focus_follows_mouse || pending is Some {
        (pending, MouseMoveFocus::Keep)
    } else {
        match window_at_point {
            None => (pending, MouseMoveFocus::Keep),
            Some(window_id) => if focused_window == Some(window_id) {
                (pending, MouseMoveFocus::Keep)
            } else {
                match entity_at_point {
                    None => (pending, MouseMoveFocus::Keep),
                    Some(entity) => (Some(window_id), MouseMoveFocus::Focus { window_id, entity }),
                }
            },
        }
    }
}

/// The focus-follows-mouse state kept between mouse-moved events: the
/// window whose focus change is pending, and whether the next layout
/// reshuffle is to be skipped.
#[derive(Debug, PartialEq, Eq)]
pub struct FocusFollowsMouse {
    pub pending: Option<u32>,
    pub skip_reshuffle: bool,
}

impl FocusFollowsMouse {
    /// Whether this mouse-moved event should look for the window under the
    /// pointer.
    pub fn needs_lookup(&self, resize_modifier_held: bool, focus_follows_mouse: bool) -> (r: bool)
        ensures
            r == (!resize_modifier_held && focus_follows_mouse && self.pending is None),
    {
        mouse_moved_needs_lookup(resize_modifier_held, focus_follows_mouse, self.pending.is_some())
    }

    /// Takes a mouse-moved event. The window under the pointer, the focused
    /// window and the entity of the window under the pointer are only read
    /// when `needs_lookup` says so. When a window is focused, its change
    /// becomes pending and the next reshuffle is skipped.
    pub fn mouse_moved(
        &mut self,
        resize_modifier_held: bool,
        focus_follows_mouse: bool,
        window_at_point: Option<u32>,
        focused_window: Option<u32>,
        entity_at_point: Option<u64>,
    ) -> (r: MouseMoveFocus)
        ensures
            (final(self).pending, r) == focus_step(old(self).pending, resize_modifier_held,
                focus_follows_mouse, window_at_point, focused_window, entity_at_point),
            final(self).skip_reshuffle == (old(self).skip_reshuffle || r is Focus),
            r is Keep ==> final(self).pending == old(self).pending,
            old(self).pending is Some || resize_modifier_held || !focus_follows_mouse ==> r is Keep,
            r matches MouseMoveFocus::Focus { window_id, entity } ==> {
                &&& window_at_point == Some(window_id)
                &&& focused_window != Some(window_id)
                &&& entity_at_point == Some(entity)
                &&& final(self).pending == Some(window_id)
            },
    {
        proof {
            law_focus_keeps_pending_unless_focusing(old(self).pending, resize_modifier_held,
                focus_follows_mouse, window_at_point, focused_window, entity_at_point);
        }
        if !self.needs_lookup(resize_modifier_held, focus_follows_mouse) {
            return MouseMoveFocus::Keep;
        }
        let r = mouse_moved_focus(window_at_point, focused_window, entity_at_point);
        match r {
            MouseMoveFocus::Focus { window_id, entity: _ } => {
                self.skip_reshuffle = true;
                self.pending = Some(window_id);
            },
            MouseMoveFocus::Keep => {},
        }
        r
    }
}

/// A focus-follows-mouse step changes the pending focus change only by
/// focusing a window: a step that keeps the focus leaves the pending change
/// as it was; nothing is focused while a change is pending, while the
/// resize modifier is held or when focus does not follow the mouse; and a
/// focused window is the one under the pointer, not already focused, with
/// an entity, and becomes the pending change.
pub proof fn law_focus_keeps_pending_unless_focusing(
    pending: Option<u32>,
    resize_modifier_held: bool,
    focus_follows_mouse: bool,
    window_at_point: Option<u32>,
    focused_window: Option<u32>,
    entity_at_point: Option<u64>,
)
    ensures
        ({
            let (next, r) = focus_step(pending, resize_modifier_held, focus_follows_mouse,
                window_at_point, focused_window, entity_at_point);
            &&& r is Keep ==> next == pending
            &&& pending is Some || resize_modifier_held || !focus_follows_mouse ==> r is Keep
            &&& r matches MouseMoveFocus::Focus { window_id, entity } ==> {
                &&& pending is None
                &&& window_at_point == Some(window_id)
                &&& focused_window != Some(window_id)
                &&& entity_at_point == Some(entity)
                &&& next == Some(window_id)
            }
        }),
{
}

/// Focus follows the mouse at most once until the pending change is
/// cleared: after a step that focuses a window, every further step keeps
/// the focus.
pub proof fn law_focus_at_most_once_while_pending(
    pending: Option<u32>,
    held: bool,
    follows: bool,
    window_at_point: Option<u32>,
    focused_window: Option<u32>,
    entity_at_point: Option<u64>,
    held2: bool,
    follows2: bool,
    window_at_point2: Option<u32>,
    focused_window2: Option<u32>,
    entity_at_point2: Option<u64>,
)
    requires
        focus_step(pending, held, follows, window_at_point, focused_window, entity_at_point).1 is Focus,
    ensures
        focus_step(
            focus_step(pending, held, follows, window_at_point, focused_window, entity_at_point).0,
            held2, follows2, window_at_point2, focused_window2, entity_at_point2,
        ).1 == MouseMoveFocus::Keep,
{
}

/// What a mouse-down event does.
#[derive(Debug, PartialEq, Eq)]
pub enum MouseDownAction {
    /// The click is not on a known window: nothing happens.
    Ignore,
    /// Stop any scrolling of the active workspaces, and remember the
    /// clicked window's entity, if given, so that the layout is reshuffled
    /// around it when the button is released.
    StopScrolling { hold: Option<u64> },
}

/// Decides what a mouse-down event does. A click on a window stops
/// scrolling; the clicked window is held for a reshuffle on release unless
/// windows may be fully hidden (the hidden ratio is at its maximum).
pub fn mouse_down_action(clicked_entity: Option<u64>, at_max_hidden_ratio: bool) -> (r: MouseDownAction)
    ensures
        match clicked_entity {
            None => r == MouseDownAction::Ignore,
            Some(entity) => if at_max_hidden_ratio {
                r == (MouseDownAction::StopScrolling { hold: None })
            } else {
                r == (MouseDownAction::StopScrolling { hold: Some(entity) })
            },
        },
{
    match clicked_entity {
        None => MouseDownAction::Ignore,
        Some(entity) => {
            if at_max_hidden_ratio {
                MouseDownAction::StopScrolling { hold: None }
            } else {
                MouseDownAction::StopScrolling { hold: Some(entity) }
            }
        },
    }
}


/// A point in screen coordinates.
#[derive(Debug, Clone, Copy, PartialEq, Eq)]
pub struct Origin {
    pub x: i32,
    pub y: i32,
}

/// A window frame: its top-left corner `min` and its bottom-right corner
/// `max`, in screen coordinates.
#[derive(Debug, Clone, Copy, PartialEq, Eq)]
pub struct Frame {
    pub min: Origin,
    pub max: Origin,
}

/// The horizontal pointer movement, scaled by five, between `last` and
/// `pointer`.
pub open spec fn scaled_dx(last: Origin, pointer: Origin) -> int {
    (pointer.x - last.x) * 5
}

/// The state of a resize by mouse: the last pointer position seen while the
/// resize modifier was held, and the window being resized.
#[derive(Debug, Clone, Copy, PartialEq, Eq)]
pub struct MouseResizeState {
    pub last_point: Option<Origin>,
    pub window_id: Option<u32>,
}

impl MouseResizeState {
    /// No resize in progress.
    pub fn new() -> (s: Self)
        ensures
            s.last_point is None,
            s.window_id is None,
    {
        MouseResizeState { last_point: None, window_id: None }
    }

    /// Takes a pointer movement. Without the resize modifier the state is
    /// reset and nothing is resized. With it, the pointer is remembered; on
    /// the first movement nothing more happens, on later ones the scaled
    /// horizontal movement `dx` is returned unless it is zero.
    pub fn pointer_moved(&mut self, modifier_held: bool, pointer: Origin) -> (dx: Option<i32>)
        requires
            modifier_held ==> match old(self).last_point {
                Some(last) => i32::MIN <= scaled_dx(last, pointer) <= i32::MAX,
                None => true,
            },
        ensures
            !modifier_held ==> {
                &&& dx is None
                &&& final(self).last_point is None
                &&& final(self).window_id is None
            },
            modifier_held ==> {
                &&& final(self).last_point == Some(pointer)
                &&& final(self).window_id == old(self).window_id
                &&& match old(self).last_point {
                    None => dx is None,
                    Some(last) => if scaled_dx(last, pointer) == 0 {
                        dx is None
                    } else {
                        dx == Some(scaled_dx(last, pointer) as i32)
                    },
                }
            },
    {
        if !modifier_held {
            self.last_point = None;
            self.window_id = None;
            return None;
        }
        let last = match self.last_point {
            Some(last) => last,
            None => {
                self.last_point = Some(pointer);
                return None;
            },
        };
        self.last_point = Some(pointer);
        let dx = (pointer.x - last.x) * 5;
        if dx == 0 {
            return None;
        }
        Some(dx)
    }

    /// Claims the window under the pointer for this resize. A resize stays
    /// with the window it started on: another window is refused.
    pub fn claim_window(&mut self, window_id: u32) -> (claimed: bool)
        ensures
            claimed == match old(self).window_id {
                Some(id) => id == window_id,
                None => true,
            },
            claimed ==> final(self).window_id == Some(window_id),
            !claimed ==> final(self).window_id == old(self).window_id,
            final(self).last_point == old(self).last_point,
    {
        match self.window_id {
            Some(id) => {
                if id != window_id {
                    return false;
                }
            },
            None => {},
        }
        self.window_id = Some(window_id);
        true
    }
}

/// A resize to apply: where to move the layout strip, if it moves, and the
/// new size of the window.
#[derive(Debug, Clone, Copy, PartialEq, Eq)]
pub struct ResizePlan {
    pub strip_origin: Option<Origin>,
    pub width: i32,
    pub height: i32,
}

/// The arithmetic of `resize_frame` fits in `i32`: the center and the
/// height always; from the left half also the moved strip, the moved left
/// edge and the new width; from the right half the moved right edge and the
/// new width.
pub open spec fn resize_fits(frame: Frame, strip_origin: Origin, pointer_x: int, dx: int) -> bool {
    &&& i32::MIN <= frame.min.x + frame.max.x <= i32::MAX
    &&& i32::MIN <= frame.max.y - frame.min.y <= i32::MAX
    &&& pointer_x < center_x(frame) ==> {
        &&& i32::MIN <= strip_origin.x + dx <= i32::MAX
        &&& i32::MIN <= frame.min.x + dx <= i32::MAX
        &&& i32::MIN <= frame.max.x - (frame.min.x + dx) <= i32::MAX
    }
    &&& pointer_x >= center_x(frame) ==> {
        &&& i32::MIN <= frame.max.x + dx <= i32::MAX
        &&& i32::MIN <= (frame.max.x + dx) - frame.min.x <= i32::MAX
    }
}

/// The horizontal center of a frame, rounded toward zero.
pub open spec fn center_x(frame: Frame) -> int {
    let sum = frame.min.x + frame.max.x;
    if sum >= 0 { sum / 2 } else { -((-sum) / 2) }
}

/// `plan` resizes `frame` by `dx` for a pointer at `pointer_x`: from the
/// left half, the left edge and the strip move by `dx`; from the right half,
/// the right edge moves by `dx`. The height does not change.
pub open spec fn is_resize_plan(frame: Frame, strip_origin: Origin, pointer_x: i32, dx: i32, plan: ResizePlan) -> bool {
    &&& plan.height == frame.max.y - frame.min.y
    &&& pointer_x < center_x(frame) ==> {
        &&& plan.strip_origin == Some(Origin { x: (strip_origin.x + dx) as i32, y: strip_origin.y })
        &&& plan.width == frame.max.x - (frame.min.x + dx)
    }
    &&& pointer_x >= center_x(frame) ==> {
        &&& plan.strip_origin is None
        &&& plan.width == (frame.max.x + dx) - frame.min.x
    }
}

/// Resizes a window by `dx`. When the pointer is left of the window's
/// center, the left edge moves by `dx` and the strip moves by `dx` so that
/// the right edge stays in place; otherwise the right edge moves by `dx`.
pub fn resize_frame(frame: Frame, strip_origin: Origin, pointer_x: i32, dx: i32) -> (plan: ResizePlan)
    requires
        resize_fits(frame, strip_origin, pointer_x as int, dx as int),
    ensures
        is_resize_plan(frame, strip_origin, pointer_x, dx, plan),
{
    let center = (frame.min.x + frame.max.x) / 2;
    let height = frame.max.y - frame.min.y;
    if pointer_x < center {
        let origin = Origin { x: strip_origin.x + dx, y: strip_origin.y };
        let min_x = frame.min.x + dx;
        ResizePlan { strip_origin: Some(origin), width: frame.max.x - min_x, height }
    } else {
        let max_x = frame.max.x + dx;
        ResizePlan { strip_origin: None, width: max_x - frame.min.x, height }
    }
}

/// Whether a resize may stay with `window_id`: no window is claimed yet, or
/// it is the claimed one.
pub open spec fn window_claimable(claimed: Option<u32>, window_id: u32) -> bool {
    match claimed {
        Some(id) => id == window_id,
        None => true,
    }
}

/// The resize state after a pointer movement to `pointer`, with
/// `window_at_point` the window under the pointer: reset without the
/// modifier; otherwise the pointer is remembered, and when the pointer moved
/// horizontally since the last movement, the window under it is claimed if
/// it may be.
pub open spec fn resize_next_state(
    state: MouseResizeState,
    modifier_held: bool,
    pointer: Origin,
    window_at_point: Option<u32>,
) -> MouseResizeState {
    if !modifier_held {
        MouseResizeState { last_point: None, window_id: None }
    } else {
        let claimed = match state.last_point {
            Some(last) => if scaled_dx(last, pointer) == 0 {
                state.window_id
            } else {
                match window_at_point {
                    Some(window_id) => if window_claimable(state.window_id, window_id) {
                        Some(window_id)
                    } else {
                        state.window_id
                    },
                    None => state.window_id,
                }
            },
            None => state.window_id,
        };
        MouseResizeState { last_point: Some(pointer), window_id: claimed }
    }
}

/// The window frame to resize and by how much, if a pointer movement
/// resizes one: the modifier is held, the pointer moved horizontally since
/// the last movement seen, there is a window under it that the resize may
/// claim, and that window belongs to the active layout strip, with frame
/// `window_frame_in_strip`.
pub open spec fn resize_target(
    state: MouseResizeState,
    modifier_held: bool,
    pointer: Origin,
    window_at_point: Option<u32>,
    window_frame_in_strip: Option<Frame>,
) -> Option<(Frame, int)> {
    if !modifier_held {
        None
    } else {
        match (state.last_point, window_at_point, window_frame_in_strip) {
            (Some(last), Some(window_id), Some(frame)) => if scaled_dx(last, pointer) != 0
                && window_claimable(state.window_id, window_id) {
                Some((frame, scaled_dx(last, pointer)))
            } else {
                None
            },
            _ => None,
        }
    }
}

/// A resize stays with the window it started on: without the modifier the
/// resize is forgotten; with it, the pointer is remembered, a claimed window
/// stays claimed whatever is under the pointer, and an unclaimed resize
/// claims nothing or the window under the pointer. A window is resized only
/// with the modifier held, when it is under the pointer, belongs to the
/// strip, and is the claimed window, if one was claimed.
pub proof fn law_resize_stays_with_claimed_window(
    state: MouseResizeState,
    modifier_held: bool,
    pointer: Origin,
    window_at_point: Option<u32>,
    window_frame_in_strip: Option<Frame>,
)
    ensures
        ({
            let next = resize_next_state(state, modifier_held, pointer, window_at_point);
            &&& !modifier_held ==> next.last_point is None && next.window_id is None
            &&& modifier_held ==> next.last_point == Some(pointer)
            &&& modifier_held ==> match state.window_id {
                Some(w) => next.window_id == Some(w),
                None => next.window_id is None || next.window_id == window_at_point,
            }
        }),
        resize_target(state, modifier_held, pointer, window_at_point, window_frame_in_strip) matches Some(
            (frame, dx),
        ) ==> {
            &&& modifier_held
            &&& state.last_point is Some
            &&& dx != 0
            &&& window_frame_in_strip == Some(frame)
            &&& window_at_point is Some
            &&& resize_next_state(state, modifier_held, pointer, window_at_point).window_id == window_at_point
            &&& match state.window_id {
                Some(w) => window_at_point == Some(w),
                None => true,
            }
        },
{
}

impl MouseResizeState {
    /// Takes a pointer movement and decides the resize it makes, if any.
    /// `window_at_point` is the window under the pointer, and
    /// `window_frame_in_strip` its frame when it belongs to the active layout
    /// strip, whose origin is `strip_origin`. The movement is taken as by
    /// `pointer_moved`; when it yields a horizontal movement, the window
    /// under the pointer is claimed as by `claim_window`, and a window of the
    /// strip that could be claimed is resized as by `resize_frame`.
    pub fn mouse_moved(
        &mut self,
        modifier_held: bool,
        pointer: Origin,
        window_at_point: Option<u32>,
        window_frame_in_strip: Option<Frame>,
        strip_origin: Origin,
    ) -> (plan: Option<ResizePlan>)
        requires
            modifier_held ==> match old(self).last_point {
                Some(last) => i32::MIN <= scaled_dx(last, pointer) <= i32::MAX,
                None => true,
            },
            match resize_target(*old(self), modifier_held, pointer, window_at_point, window_frame_in_strip) {
                Some((frame, dx)) => resize_fits(frame, strip_origin, pointer.x as int, dx),
                None => true,
            },
        ensures
            *final(self) == resize_next_state(*old(self), modifier_held, pointer, window_at_point),
            !modifier_held ==> final(self).last_point is None && final(self).window_id is None && plan is None,
            modifier_held ==> final(self).last_point == Some(pointer),
            modifier_held ==> match old(self).window_id {
                Some(w) => final(self).window_id == Some(w),
                None => final(self).window_id is None || final(self).window_id == window_at_point,
            },
            plan is Some ==> {
                &&& modifier_held
                &&& window_at_point is Some
                &&& final(self).window_id == window_at_point
                &&& window_frame_in_strip is Some
                &&& match old(self).window_id {
                    Some(w) => window_at_point == Some(w),
                    None => true,
                }
            },
            match resize_target(*old(self), modifier_held, pointer, window_at_point, window_frame_in_strip) {
                Some((frame, dx)) => plan matches Some(p) && is_resize_plan(
                    frame,
                    strip_origin,
                    pointer.x,
                    dx as i32,
                    p,
                ),
                None => plan is None,
            },
    {
        proof {
            law_resize_stays_with_claimed_window(*old(self), modifier_held, pointer, window_at_point,
                window_frame_in_strip);
        }
        let dx = match self.pointer_moved(modifier_held, pointer) {
            Some(dx) => dx,
            None => return None,
        };
        let window_id = match window_at_point {
            Some(window_id) => window_id,
            None => return None,
        };
        if !self.claim_window(window_id) {
            return None;
        }
        let frame = match window_frame_in_strip {
            Some(frame) => frame,
            None => return None,
        };
        Some(resize_frame(frame, strip_origin, pointer.x, dx))
    }
}

/// Resizing from the left half keeps the right edge where it was, and
/// resizing from the right half keeps the left edge where it was: the new
/// left edge plus the new width is the old right edge in the first case,
/// the old left edge plus the new width is the old right edge moved by `dx`
/// in the second.
pub proof fn law_resize_keeps_opposite_edge(frame: Frame, strip_origin: Origin, pointer_x: i32, dx: i32, plan: ResizePlan)
    requires
        is_resize_plan(frame, strip_origin, pointer_x, dx, plan),
    ensures
        pointer_x < center_x(frame) ==> (frame.min.x + dx) + plan.width == frame.max.x,
        pointer_x >= center_x(frame) ==> frame.min.x + plan.width == frame.max.x + dx,
        plan.width + (if pointer_x < center_x(frame) { dx as int } else { -dx }) == frame.max.x - frame.min.x,
{
}


/// How long a pressed window waits for the button's release, in
/// milliseconds, before it is forgotten.
pub const MOUSE_HELD_TIMEOUT_MS: u64 = 60000;

/// The window pressed on, waiting for the button's release to reshuffle the
/// layout around it, with the time of the press in milliseconds.
#[derive(Debug, PartialEq, Eq)]
pub struct MouseHeld {
    pub held: Option<(u64, u64)>,
}

impl MouseHeld {
    /// Nothing is held.
    pub fn new() -> (m: Self)
        ensures
            m.held is None,
    {
        MouseHeld { held: None }
    }

    /// Holds the window entity pressed at time `now`.
    pub fn hold(&mut self, entity: u64, now: u64)
        ensures
            final(self).held == Some((entity, now)),
    {
        self.held = Some((entity, now));
    }

    /// Takes the held entity, leaving nothing held.
    pub fn take(&mut self) -> (r: Option<u64>)
        ensures
            final(self).held is None,
            r == match old(self).held {
                Some((entity, _)) => Some(entity),
                None => None::<u64>,
            },
    {
        match self.held.take() {
            Some((entity, _)) => Some(entity),
            None => None,
        }
    }

    /// Forgets a press held for longer than `timeout` at time `now`.
    pub fn clear_if_expired(&mut self, now: u64, timeout: u64)
        ensures
            final(self).held == match old(self).held {
                Some((entity, since)) => if now >= since && now - since > timeout {
                    None
                } else {
                    Some((entity, since))
                },
                None => None,
            },
    {
        match self.held {
            Some((_, since)) => {
                if now >= since && now - since > timeout {
                    self.held = None;
                }
            },
            None => {},
        }
    }
}

/// A mouse-up event: the held window, if any, is taken, and the layout is
/// to be reshuffled around it.
pub fn mouse_up(held: &mut MouseHeld) -> (reshuffle_around: Option<u64>)
    ensures
        final(held).held is None,
        reshuffle_around == match old(held).held {
            Some((entity, _)) => Some(entity),
            None => None::<u64>,
        },
{
    held.take()
}

/// The periodic check: a press held for longer than a minute is forgotten.
pub fn mouse_held_timeout(held: &mut MouseHeld, now: u64)
    ensures
        final(held).held == match old(held).held {
            Some((entity, since)) => if now >= since && now - since > MOUSE_HELD_TIMEOUT_MS {
                None
            } else {
                Some((entity, since))
            },
            None => None,
        },
{
    held.clear_if_expired(now, MOUSE_HELD_TIMEOUT_MS)
}

} // verus!

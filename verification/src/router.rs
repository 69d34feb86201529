//! The input router: one seat's view of keyboards, pointers, touch and
//! gestures. Every event is stamped with the next serial from a process-wide
//! strictly increasing counter; keyboard keys run through the global shortcut
//! table and a suppressed-key set; pointer and touch events recompute the
//! keyboard focus under the grab rules before they are forwarded.

use vstd::prelude::*;

use crate::geometry::Pos;

verus! {

/// The process-wide serial counter. Every input event and interactive
/// request is stamped with the next value.
pub struct SerialCounter {
    pub value: u32,
}

impl SerialCounter {
    /// `post` and `s` are what one `next_serial` call on `pre` produces.
    pub open spec fn spec_issued(pre: SerialCounter, post: SerialCounter, s: u32) -> bool {
        post.value == pre.value + 1 && s == post.value
    }

    pub fn new() -> (r: SerialCounter)
        ensures
            r.value == 0,
    {
        SerialCounter { value: 0 }
    }

    /// Issue the next serial: one more than every serial issued before it.
    pub fn next_serial(&mut self) -> (s: u32)
        requires
            old(self).value < u32::MAX,
        ensures
            SerialCounter::spec_issued(*old(self), *final(self), s),
    {
        self.value = self.value + 1;
        self.value
    }
}

/// Serials are strictly increasing across the process lifetime: of two
/// serials issued one after the other, in any number of steps, the second is
/// strictly larger, and no value is ever issued twice.
pub proof fn lemma_serials_strictly_increase(
    c0: SerialCounter,
    c1: SerialCounter,
    c2: SerialCounter,
    s1: u32,
    s2: u32,
)
    requires
        SerialCounter::spec_issued(c0, c1, s1),
        c1.value <= c2.value,
        SerialCounter::spec_issued(c2, SerialCounter { value: s2 }, s2),
    ensures
        s1 < s2,
{
}

/// Keysym values from the X11 keysym tables, as the shortcut table uses
/// them.
pub const KEYSYM_BACKSPACE: u32 = 0xff08;
pub const KEYSYM_RETURN: u32 = 0xff0d;
pub const KEYSYM_ESCAPE: u32 = 0xff1b;
pub const KEYSYM_LEFT: u32 = 0xff51;
pub const KEYSYM_UP: u32 = 0xff52;
pub const KEYSYM_RIGHT: u32 = 0xff53;
pub const KEYSYM_DOWN: u32 = 0xff54;
pub const KEYSYM_MENU: u32 = 0xff67;
pub const KEYSYM_ALT_R: u32 = 0xffea;
pub const KEYSYM_LOWER_Q: u32 = 0x71;
pub const KEYSYM_UPPER_T: u32 = 0x54;
pub const KEYSYM_VT_1: u32 = 0x1008fe01;
pub const KEYSYM_VT_12: u32 = 0x1008fe0c;

/// Keyboard modifier state.
#[derive(Clone, Copy, Debug, PartialEq, Eq, Structural)]
pub struct Modifiers {
    pub ctrl: bool,
    pub alt: bool,
    pub shift: bool,
    pub logo: bool,
}

/// A program the run-command shortcut launches; the argv lives with the
/// process-spawn collaborator.
#[derive(Clone, Copy, Debug, PartialEq, Eq, Structural)]
pub enum LaunchTarget {
    Terminal,
}

/// What an intercepted keyboard key asks the compositor to do.
#[derive(Clone, Copy, Debug, PartialEq, Eq, Structural)]
pub enum KeyAction {
    /// Quit the compositor.
    Quit,
    /// Switch to the given virtual terminal.
    VtSwitch(i32),
    /// Spawn a program.
    Run(LaunchTarget),
    ToggleTint,
    /// Open the window-switcher menu.
    ToggleMenu,
    ArrowDown,
    ArrowUp,
    ArrowLeft,
    ArrowRight,
    /// Confirm the menu selection.
    Select,
    /// Leave the menu without selecting.
    Back,
    /// Intercepted with nothing more to do.
    NoAction,
}

/// The fixed global shortcut table: quit, VT switch, spawn a terminal,
/// menu toggle, tint toggle.
pub open spec fn spec_shortcut(mods: Modifiers, keysym: u32) -> Option<KeyAction> {
    if (mods.ctrl && mods.alt && keysym == KEYSYM_BACKSPACE) || (mods.logo && keysym
        == KEYSYM_LOWER_Q) {
        Some(KeyAction::Quit)
    } else if KEYSYM_VT_1 <= keysym && keysym <= KEYSYM_VT_12 {
        Some(KeyAction::VtSwitch((keysym - KEYSYM_VT_1 + 1) as i32))
    } else if mods.logo && keysym == KEYSYM_RETURN {
        Some(KeyAction::Run(LaunchTarget::Terminal))
    } else if keysym == KEYSYM_ALT_R || keysym == KEYSYM_MENU {
        Some(KeyAction::ToggleMenu)
    } else if mods.logo && mods.shift && keysym == KEYSYM_UPPER_T {
        Some(KeyAction::ToggleTint)
    } else {
        None
    }
}

/// While the menu is open, the navigation keys are intercepted as menu
/// commands: arrows move the selection, return confirms, escape backs out.
pub open spec fn spec_menu_key(keysym: u32) -> Option<KeyAction> {
    if keysym == KEYSYM_UP {
        Some(KeyAction::ArrowUp)
    } else if keysym == KEYSYM_DOWN {
        Some(KeyAction::ArrowDown)
    } else if keysym == KEYSYM_LEFT {
        Some(KeyAction::ArrowLeft)
    } else if keysym == KEYSYM_RIGHT {
        Some(KeyAction::ArrowRight)
    } else if keysym == KEYSYM_RETURN {
        Some(KeyAction::Select)
    } else if keysym == KEYSYM_ESCAPE {
        Some(KeyAction::Back)
    } else {
        None
    }
}

/// The decision for one pressed key: the global shortcut table first, then,
/// while the menu is open, the menu navigation keys.
pub open spec fn spec_key_decision(mods: Modifiers, keysym: u32, menu_open: bool) -> Option<
    KeyAction,
> {
    match spec_shortcut(mods, keysym) {
        Some(a) => Some(a),
        None => if menu_open {
            spec_menu_key(keysym)
        } else {
            None
        },
    }
}

pub fn shortcut(mods: Modifiers, keysym: u32) -> (r: Option<KeyAction>)
    ensures
        r == spec_shortcut(mods, keysym),
{
    if (mods.ctrl && mods.alt && keysym == KEYSYM_BACKSPACE) || (mods.logo && keysym
        == KEYSYM_LOWER_Q) {
        Some(KeyAction::Quit)
    } else if KEYSYM_VT_1 <= keysym && keysym <= KEYSYM_VT_12 {
        Some(KeyAction::VtSwitch((keysym - KEYSYM_VT_1 + 1) as i32))
    } else if mods.logo && keysym == KEYSYM_RETURN {
        Some(KeyAction::Run(LaunchTarget::Terminal))
    } else if keysym == KEYSYM_ALT_R || keysym == KEYSYM_MENU {
        Some(KeyAction::ToggleMenu)
    } else if mods.logo && mods.shift && keysym == KEYSYM_UPPER_T {
        Some(KeyAction::ToggleTint)
    } else {
        None
    }
}

fn key_decision(mods: Modifiers, keysym: u32, menu_open: bool) -> (r: Option<KeyAction>)
    ensures
        r == spec_key_decision(mods, keysym, menu_open),
{
    match shortcut(mods, keysym) {
        Some(a) => Some(a),
        None => if menu_open {
            if keysym == KEYSYM_UP {
                Some(KeyAction::ArrowUp)
            } else if keysym == KEYSYM_DOWN {
                Some(KeyAction::ArrowDown)
            } else if keysym == KEYSYM_LEFT {
                Some(KeyAction::ArrowLeft)
            } else if keysym == KEYSYM_RIGHT {
                Some(KeyAction::ArrowRight)
            } else if keysym == KEYSYM_RETURN {
                Some(KeyAction::Select)
            } else if keysym == KEYSYM_ESCAPE {
                Some(KeyAction::Back)
            } else {
                None
            }
        } else {
            None
        },
    }
}

/// What became of one keyboard key.
#[derive(Clone, Copy, Debug, PartialEq, Eq, Structural)]
pub enum KeyVerdict {
    /// The key matched and is never forwarded to the focused client.
    Intercepted(KeyAction),
    /// The key goes to the focused surface's keyboard protocol.
    Forwarded,
}

/// Which input capability holds a grab, and what devices the seat has.
#[derive(Clone, Copy, Debug, PartialEq, Eq, Structural)]
pub struct SeatState {
    pub pointer_grabbed: bool,
    pub keyboard_grabbed: bool,
    /// An input method holds the keyboard grab; focus changes stay allowed.
    pub input_method_grabbed: bool,
    pub touch_grabbed: bool,
    pub has_touch: bool,
}

/// Keyboard focus may move only when no interactive grab would be fought:
/// the pointer is not grabbed, the keyboard is not grabbed (unless by the
/// input method), and no touch grab is active.
pub open spec fn spec_focus_may_change(seat: SeatState) -> bool {
    !seat.pointer_grabbed && (!seat.keyboard_grabbed || seat.input_method_grabbed)
        && !seat.touch_grabbed
}

/// Where a pointer axis event came from.
#[derive(Clone, Copy, Debug, PartialEq, Eq, Structural)]
pub enum AxisSource {
    Wheel,
    Finger,
    Continuous,
    WheelTilt,
}

/// One decoded pointer axis event: per axis, an optional smooth amount and
/// an optional discrete amount in 1/120 notch units.
#[derive(Clone, Copy, Debug, PartialEq, Eq, Structural)]
pub struct AxisInput {
    pub time: u32,
    pub source: AxisSource,
    pub h_amount: Option<i64>,
    pub v_amount: Option<i64>,
    pub h_v120: Option<i32>,
    pub v_v120: Option<i32>,
}

/// One axis of the frame the router builds.
#[derive(Clone, Copy, Debug, PartialEq, Eq, Structural)]
pub struct AxisMotion {
    /// Scroll amount; absent when this axis did not move.
    pub value: Option<i64>,
    /// Discrete notch count in 1/120 units, when the device reported one.
    pub v120: Option<i32>,
    /// A deliberate stop, as opposed to below-threshold jitter.
    pub stop: bool,
}

/// A single frame event carrying both axes.
#[derive(Clone, Copy, Debug, PartialEq, Eq, Structural)]
pub struct AxisFrame {
    pub time: u32,
    pub source: AxisSource,
    pub horizontal: AxisMotion,
    pub vertical: AxisMotion,
}

/// One call the router makes on the seat, in order of emission.
#[derive(Clone, Copy, Debug, PartialEq, Eq, Structural)]
pub enum SeatCall {
    /// Keyboard focus moved to the window with this identifier.
    SetFocus { window: Option<u64>, serial: u32 },
    Button { button: u32, pressed: bool, serial: u32, time: u32 },
    PointerFrame,
    Motion { x: i32, y: i32, serial: u32, time: u32 },
    RelativeMotion { dx: i32, dy: i32, utime: u64 },
    Axis(AxisFrame),
    TouchDown { slot: u32, x: i32, y: i32, serial: u32, time: u32 },
    TouchUp { slot: u32, serial: u32, time: u32 },
    TouchMotion { slot: u32, x: i32, y: i32, time: u32 },
    TouchFrame,
    TouchCancel,
    GestureSwipeBegin { serial: u32, time: u32, fingers: u32 },
    GestureSwipeUpdate { time: u32, dx: i32, dy: i32 },
    GestureSwipeEnd { serial: u32, time: u32, cancelled: bool },
    GesturePinchBegin { serial: u32, time: u32, fingers: u32 },
    GesturePinchUpdate { time: u32, dx: i32, dy: i32, scale_millis: u32, rotation_millis: i32 },
    GesturePinchEnd { serial: u32, time: u32, cancelled: bool },
    GestureHoldBegin { serial: u32, time: u32, fingers: u32 },
    GestureHoldEnd { serial: u32, time: u32, cancelled: bool },
}

/// One seat's routing state.
pub struct RouterState {
    pub serials: SerialCounter,
    pub seat: SeatState,
    /// Keysyms whose press was intercepted; their release is intercepted
    /// too.
    pub suppressed_keys: Vec<u32>,
    /// Tracked pointer location in logical coordinates.
    pub pointer: Pos,
}

impl RouterState {
    pub fn new(seat: SeatState) -> (r: RouterState)
        ensures
            r.serials.value == 0,
            r.seat == seat,
            r.suppressed_keys@ =~= Seq::<u32>::empty(),
            r.pointer == (Pos { x: 0, y: 0 }),
    {
        RouterState {
            serials: SerialCounter::new(),
            seat,
            suppressed_keys: Vec::new(),
            pointer: Pos { x: 0, y: 0 },
        }
    }

    /// Route one keyboard key. A pressed key that matches the shortcut table
    /// (or, while the menu is open, a menu navigation key) is intercepted and
    /// its keysym recorded, so that the matching release is intercepted too
    /// and removed from the record; everything else is forwarded to the
    /// focused client.
    pub fn keyboard_key(&mut self, mods: Modifiers, keysym: u32, pressed: bool, menu_open: bool)
        -> (r: KeyVerdict)
        requires
            old(self).serials.value < u32::MAX,
        ensures
            final(self).seat == old(self).seat,
            final(self).pointer == old(self).pointer,
            SerialCounter::spec_issued(old(self).serials, final(self).serials, final(self).serials.value),
            if pressed {
                match spec_key_decision(mods, keysym, menu_open) {
                    Some(a) => r == KeyVerdict::Intercepted(a) && final(self).suppressed_keys@
                        == old(self).suppressed_keys@.push(keysym),
                    None => r == KeyVerdict::Forwarded && final(self).suppressed_keys@ == old(self).suppressed_keys@,
                }
            } else {
                if old(self).suppressed_keys@.contains(keysym) {
                    r == KeyVerdict::Intercepted(KeyAction::NoAction) && final(self).suppressed_keys@ == old(self).suppressed_keys@.filter(
                        |k: u32| k != keysym,
                    )
                } else {
                    r == KeyVerdict::Forwarded && final(self).suppressed_keys@ == old(self).suppressed_keys@
                }
            },
    {
        let _serial = self.serials.next_serial();
        if pressed {
            match key_decision(mods, keysym, menu_open) {
                Some(a) => {
                    self.suppressed_keys.push(keysym);
                    KeyVerdict::Intercepted(a)
                },
                None => KeyVerdict::Forwarded,
            }
        } else {
            if contains_key(&self.suppressed_keys, keysym) {
                remove_key(&mut self.suppressed_keys, keysym);
                KeyVerdict::Intercepted(KeyAction::NoAction)
            } else {
                KeyVerdict::Forwarded
            }
        }
    }

    /// Route a pointer button. A button press always first recomputes the
    /// keyboard focus (click-to-focus) - unless an active grab forbids it -
    /// and only then forwards the button to the pointer focus, ending with a
    /// frame marker.
    pub fn pointer_button(
        &mut self,
        top_window: Option<u64>,
        button: u32,
        pressed: bool,
        time: u32,
    ) -> (r: Vec<SeatCall>)
        requires
            old(self).serials.value < u32::MAX,
        ensures
            final(self).seat == old(self).seat,
            final(self).pointer == old(self).pointer,
            final(self).suppressed_keys@ == old(self).suppressed_keys@,
            SerialCounter::spec_issued(old(self).serials, final(self).serials, final(self).serials.value),
            ({
                let serial = final(self).serials.value;
                r@ == (if pressed && spec_focus_may_change(old(self).seat) {
                    seq![SeatCall::SetFocus { window: top_window, serial }]
                } else {
                    Seq::empty()
                }) + seq![SeatCall::Button { button, pressed, serial, time }, SeatCall::PointerFrame]
            }),
    {
        let serial = self.serials.next_serial();
        let mut out: Vec<SeatCall> = Vec::new();
        if pressed && self.focus_may_change() {
            out.push(SeatCall::SetFocus { window: top_window, serial });
        }
        out.push(SeatCall::Button { button, pressed, serial, time });
        out.push(SeatCall::PointerFrame);
        proof {
            let s = final(self).serials.value;
            assert(out@ =~= (if pressed && spec_focus_may_change(old(self).seat) {
                seq![SeatCall::SetFocus { window: top_window, serial: s }]
            } else {
                Seq::<SeatCall>::empty()
            }) + seq![
                SeatCall::Button { button, pressed, serial: s, time },
                SeatCall::PointerFrame,
            ]);
        }
        out
    }

    /// Route relative pointer motion. A relative-motion event always reaches
    /// the window under the pointer; while a pointer-lock constraint is
    /// active the absolute position is frozen and only the relative motion
    /// goes out. Otherwise the tracked location moves by the delta, clamped
    /// to the current window's bounding box, and a motion event follows.
    pub fn pointer_motion(
        &mut self,
        window_extent: Option<crate::geometry::Extent>,
        locked: bool,
        dx: i32,
        dy: i32,
        time: u32,
        utime: u64,
    ) -> (r: Vec<SeatCall>)
        requires
            old(self).serials.value < u32::MAX,
            match window_extent {
                Some(e) => e.w <= i32::MAX && e.h <= i32::MAX,
                None => true,
            },
        ensures
            final(self).seat == old(self).seat,
            final(self).suppressed_keys@ == old(self).suppressed_keys@,
            SerialCounter::spec_issued(old(self).serials, final(self).serials, final(self).serials.value),
            ({
                let serial = final(self).serials.value;
                let rel: Seq<SeatCall> = match window_extent {
                    Some(_) => seq![SeatCall::RelativeMotion { dx, dy, utime }],
                    None => Seq::empty(),
                };
                if locked {
                    final(self).pointer == old(self).pointer && r@ == rel + seq![
                        SeatCall::PointerFrame,
                    ]
                } else {
                    ({
                        let p = match window_extent {
                            Some(e) => Pos {
                                x: spec_clamp(old(self).pointer.x + dx, e.w as int) as i32,
                                y: spec_clamp(old(self).pointer.y + dy, e.h as int) as i32,
                            },
                            None => Pos {
                                x: (old(self).pointer.x + dx) as i32,
                                y: (old(self).pointer.y + dy) as i32,
                            },
                        };
                        final(self).pointer == p && r@ == rel + seq![
                            SeatCall::Motion { x: p.x, y: p.y, serial, time },
                            SeatCall::PointerFrame,
                        ]
                    })
                }
            }),
    {
        let serial = self.serials.next_serial();
        let mut out: Vec<SeatCall> = Vec::new();
        if window_extent.is_some() {
            out.push(SeatCall::RelativeMotion { dx, dy, utime });
        }
        if locked {
            out.push(SeatCall::PointerFrame);
            return out;
        }
        let nx = self.pointer.x as i64 + dx as i64;
        let ny = self.pointer.y as i64 + dy as i64;
        let p = match window_extent {
            Some(e) => Pos { x: clamp_coord(nx, e.w), y: clamp_coord(ny, e.h) },
            None => Pos { x: nx as i32, y: ny as i32 },
        };
        self.pointer = p;
        out.push(SeatCall::Motion { x: p.x, y: p.y, serial, time });
        out.push(SeatCall::PointerFrame);
        out
    }

    /// Route absolute pointer motion, already transformed into the window's
    /// coordinate space. With no window there is nothing to clamp against or
    /// to deliver to, so only the frame marker goes out.
    pub fn pointer_motion_absolute(
        &mut self,
        window_extent: Option<crate::geometry::Extent>,
        x: i64,
        y: i64,
        time: u32,
    ) -> (r: Vec<SeatCall>)
        requires
            old(self).serials.value < u32::MAX,
            match window_extent {
                Some(e) => e.w <= i32::MAX && e.h <= i32::MAX,
                None => true,
            },
        ensures
            final(self).seat == old(self).seat,
            final(self).suppressed_keys@ == old(self).suppressed_keys@,
            SerialCounter::spec_issued(old(self).serials, final(self).serials, final(self).serials.value),
            ({
                let serial = final(self).serials.value;
                match window_extent {
                    Some(e) => {
                        let p = Pos {
                            x: spec_clamp(x as int, e.w as int) as i32,
                            y: spec_clamp(y as int, e.h as int) as i32,
                        };
                        final(self).pointer == p && r@ == seq![
                            SeatCall::Motion { x: p.x, y: p.y, serial, time },
                            SeatCall::PointerFrame,
                        ]
                    },
                    None => final(self).pointer == old(self).pointer && r@ == seq![
                        SeatCall::PointerFrame,
                    ],
                }
            }),
    {
        let serial = self.serials.next_serial();
        let mut out: Vec<SeatCall> = Vec::new();
        if let Some(e) = window_extent {
            let p = Pos { x: clamp_coord(x, e.w), y: clamp_coord(y, e.h) };
            self.pointer = p;
            out.push(SeatCall::Motion { x: p.x, y: p.y, serial, time });
        }
        out.push(SeatCall::PointerFrame);
        out
    }

    /// Build and route one axis frame. Each axis carries its smooth amount -
    /// or the discrete notch amount converted - only when it moved; a
    /// finger-sourced axis whose amount is exactly zero carries a stop
    /// signal, so clients can tell a deliberate stop from jitter.
    pub fn pointer_axis(&mut self, input: AxisInput) -> (r: Vec<SeatCall>)
        ensures
            *final(self) == *old(self),
            r@ == seq![SeatCall::Axis(spec_axis_frame(input)), SeatCall::PointerFrame],
    {
        let h = effective_amount(input.h_amount, input.h_v120);
        let v = effective_amount(input.v_amount, input.v_v120);
        let horizontal = AxisMotion {
            value: if h != 0 {
                Some(h)
            } else {
                None
            },
            v120: if h != 0 {
                input.h_v120
            } else {
                None
            },
            stop: is_finger(input.source) && is_zero_amount(input.h_amount),
        };
        let vertical = AxisMotion {
            value: if v != 0 {
                Some(v)
            } else {
                None
            },
            v120: if v != 0 {
                input.v_v120
            } else {
                None
            },
            stop: is_finger(input.source) && is_zero_amount(input.v_amount),
        };
        let frame = AxisFrame { time: input.time, source: input.source, horizontal, vertical };
        let mut out: Vec<SeatCall> = Vec::new();
        out.push(SeatCall::Axis(frame));
        out.push(SeatCall::PointerFrame);
        proof {
            assert(out@ =~= seq![
                SeatCall::Axis(spec_axis_frame(input)),
                SeatCall::PointerFrame,
            ]);
        }
        out
    }

    /// Begin a touch sequence: a touch-down always recomputes the keyboard
    /// focus first, under the same grab rules as a pointer click. A seat
    /// without a touch device ignores the event.
    pub fn touch_down(&mut self, top_window: Option<u64>, slot: u32, x: i32, y: i32, time: u32)
        -> (r: Vec<SeatCall>)
        requires
            old(self).serials.value < u32::MAX,
        ensures
            final(self).seat == old(self).seat,
            final(self).pointer == old(self).pointer,
            final(self).suppressed_keys@ == old(self).suppressed_keys@,
            !old(self).seat.has_touch ==> *final(self) == *old(self) && r@ == Seq::<
                SeatCall,
            >::empty(),
            old(self).seat.has_touch ==> SerialCounter::spec_issued(
                old(self).serials,
                final(self).serials,
                final(self).serials.value,
            ) && ({
                let serial = final(self).serials.value;
                r@ == (if spec_focus_may_change(old(self).seat) {
                    seq![SeatCall::SetFocus { window: top_window, serial }]
                } else {
                    Seq::empty()
                }) + seq![SeatCall::TouchDown { slot, x, y, serial, time }]
            }),
    {
        let mut out: Vec<SeatCall> = Vec::new();
        if !self.seat.has_touch {
            return out;
        }
        let serial = self.serials.next_serial();
        if self.focus_may_change() {
            out.push(SeatCall::SetFocus { window: top_window, serial });
        }
        out.push(SeatCall::TouchDown { slot, x, y, serial, time });
        proof {
            let s = final(self).serials.value;
            assert(out@ =~= (if spec_focus_may_change(old(self).seat) {
                seq![SeatCall::SetFocus { window: top_window, serial: s }]
            } else {
                Seq::<SeatCall>::empty()
            }) + seq![SeatCall::TouchDown { slot, x, y, serial: s, time }]);
        }
        out
    }

    /// End a touch point. A seat without a touch device ignores the event.
    pub fn touch_up(&mut self, slot: u32, time: u32) -> (r: Vec<SeatCall>)
        requires
            old(self).serials.value < u32::MAX,
        ensures
            final(self).seat == old(self).seat,
            final(self).pointer == old(self).pointer,
            final(self).suppressed_keys@ == old(self).suppressed_keys@,
            !old(self).seat.has_touch ==> *final(self) == *old(self) && r@ == Seq::<
                SeatCall,
            >::empty(),
            old(self).seat.has_touch ==> SerialCounter::spec_issued(
                old(self).serials,
                final(self).serials,
                final(self).serials.value,
            ) && r@ == seq![
                SeatCall::TouchUp { slot, serial: final(self).serials.value, time },
            ],
    {
        let mut out: Vec<SeatCall> = Vec::new();
        if !self.seat.has_touch {
            return out;
        }
        let serial = self.serials.next_serial();
        out.push(SeatCall::TouchUp { slot, serial, time });
        out
    }

    /// Move a touch point; forwarded by slot, with no serial.
    pub fn touch_motion(&mut self, slot: u32, x: i32, y: i32, time: u32) -> (r: Vec<SeatCall>)
        ensures
            *final(self) == *old(self),
            r@ == if old(self).seat.has_touch {
                seq![SeatCall::TouchMotion { slot, x, y, time }]
            } else {
                Seq::<SeatCall>::empty()
            },
    {
        let mut out: Vec<SeatCall> = Vec::new();
        if self.seat.has_touch {
            out.push(SeatCall::TouchMotion { slot, x, y, time });
        }
        out
    }

    /// End-of-batch marker for the current touch events.
    pub fn touch_frame(&mut self) -> (r: Vec<SeatCall>)
        ensures
            *final(self) == *old(self),
            r@ == if old(self).seat.has_touch {
                seq![SeatCall::TouchFrame]
            } else {
                Seq::<SeatCall>::empty()
            },
    {
        let mut out: Vec<SeatCall> = Vec::new();
        if self.seat.has_touch {
            out.push(SeatCall::TouchFrame);
        }
        out
    }

    /// Cancel the current touch sequence.
    pub fn touch_cancel(&mut self) -> (r: Vec<SeatCall>)
        ensures
            *final(self) == *old(self),
            r@ == if old(self).seat.has_touch {
                seq![SeatCall::TouchCancel]
            } else {
                Seq::<SeatCall>::empty()
            },
    {
        let mut out: Vec<SeatCall> = Vec::new();
        if self.seat.has_touch {
            out.push(SeatCall::TouchCancel);
        }
        out
    }

    /// Gesture begin and end events mint serials; updates do not.
    pub fn gesture_swipe_begin(&mut self, fingers: u32, time: u32) -> (r: Vec<SeatCall>)
        requires
            old(self).serials.value < u32::MAX,
        ensures
            final(self).seat == old(self).seat,
            final(self).pointer == old(self).pointer,
            final(self).suppressed_keys@ == old(self).suppressed_keys@,
            SerialCounter::spec_issued(old(self).serials, final(self).serials, final(self).serials.value),
            r@ == seq![
                SeatCall::GestureSwipeBegin {
                    serial: final(self).serials.value,
                    time,
                    fingers,
                },
            ],
    {
        let serial = self.serials.next_serial();
        let mut out: Vec<SeatCall> = Vec::new();
        out.push(SeatCall::GestureSwipeBegin { serial, time, fingers });
        out
    }

    pub fn gesture_swipe_update(&mut self, dx: i32, dy: i32, time: u32) -> (r: Vec<SeatCall>)
        ensures
            *final(self) == *old(self),
            r@ == seq![SeatCall::GestureSwipeUpdate { time, dx, dy }],
    {
        let mut out: Vec<SeatCall> = Vec::new();
        out.push(SeatCall::GestureSwipeUpdate { time, dx, dy });
        out
    }

    pub fn gesture_swipe_end(&mut self, cancelled: bool, time: u32) -> (r: Vec<SeatCall>)
        requires
            old(self).serials.value < u32::MAX,
        ensures
            final(self).seat == old(self).seat,
            final(self).pointer == old(self).pointer,
            final(self).suppressed_keys@ == old(self).suppressed_keys@,
            SerialCounter::spec_issued(old(self).serials, final(self).serials, final(self).serials.value),
            r@ == seq![
                SeatCall::GestureSwipeEnd {
                    serial: final(self).serials.value,
                    time,
                    cancelled,
                },
            ],
    {
        let serial = self.serials.next_serial();
        let mut out: Vec<SeatCall> = Vec::new();
        out.push(SeatCall::GestureSwipeEnd { serial, time, cancelled });
        out
    }

    pub fn gesture_pinch_begin(&mut self, fingers: u32, time: u32) -> (r: Vec<SeatCall>)
        requires
            old(self).serials.value < u32::MAX,
        ensures
            final(self).seat == old(self).seat,
            final(self).pointer == old(self).pointer,
            final(self).suppressed_keys@ == old(self).suppressed_keys@,
            SerialCounter::spec_issued(old(self).serials, final(self).serials, final(self).serials.value),
            r@ == seq![
                SeatCall::GesturePinchBegin {
                    serial: final(self).serials.value,
                    time,
                    fingers,
                },
            ],
    {
        let serial = self.serials.next_serial();
        let mut out: Vec<SeatCall> = Vec::new();
        out.push(SeatCall::GesturePinchBegin { serial, time, fingers });
        out
    }

    pub fn gesture_pinch_update(
        &mut self,
        dx: i32,
        dy: i32,
        scale_millis: u32,
        rotation_millis: i32,
        time: u32,
    ) -> (r: Vec<SeatCall>)
        ensures
            *final(self) == *old(self),
            r@ == seq![
                SeatCall::GesturePinchUpdate { time, dx, dy, scale_millis, rotation_millis },
            ],
    {
        let mut out: Vec<SeatCall> = Vec::new();
        out.push(SeatCall::GesturePinchUpdate { time, dx, dy, scale_millis, rotation_millis });
        out
    }

    pub fn gesture_pinch_end(&mut self, cancelled: bool, time: u32) -> (r: Vec<SeatCall>)
        requires
            old(self).serials.value < u32::MAX,
        ensures
            final(self).seat == old(self).seat,
            final(self).pointer == old(self).pointer,
            final(self).suppressed_keys@ == old(self).suppressed_keys@,
            SerialCounter::spec_issued(old(self).serials, final(self).serials, final(self).serials.value),
            r@ == seq![
                SeatCall::GesturePinchEnd {
                    serial: final(self).serials.value,
                    time,
                    cancelled,
                },
            ],
    {
        let serial = self.serials.next_serial();
        let mut out: Vec<SeatCall> = Vec::new();
        out.push(SeatCall::GesturePinchEnd { serial, time, cancelled });
        out
    }

    pub fn gesture_hold_begin(&mut self, fingers: u32, time: u32) -> (r: Vec<SeatCall>)
        requires
            old(self).serials.value < u32::MAX,
        ensures
            final(self).seat == old(self).seat,
            final(self).pointer == old(self).pointer,
            final(self).suppressed_keys@ == old(self).suppressed_keys@,
            SerialCounter::spec_issued(old(self).serials, final(self).serials, final(self).serials.value),
            r@ == seq![
                SeatCall::GestureHoldBegin {
                    serial: final(self).serials.value,
                    time,
                    fingers,
                },
            ],
    {
        let serial = self.serials.next_serial();
        let mut out: Vec<SeatCall> = Vec::new();
        out.push(SeatCall::GestureHoldBegin { serial, time, fingers });
        out
    }

    pub fn gesture_hold_end(&mut self, cancelled: bool, time: u32) -> (r: Vec<SeatCall>)
        requires
            old(self).serials.value < u32::MAX,
        ensures
            final(self).seat == old(self).seat,
            final(self).pointer == old(self).pointer,
            final(self).suppressed_keys@ == old(self).suppressed_keys@,
            SerialCounter::spec_issued(old(self).serials, final(self).serials, final(self).serials.value),
            r@ == seq![
                SeatCall::GestureHoldEnd {
                    serial: final(self).serials.value,
                    time,
                    cancelled,
                },
            ],
    {
        let serial = self.serials.next_serial();
        let mut out: Vec<SeatCall> = Vec::new();
        out.push(SeatCall::GestureHoldEnd { serial, time, cancelled });
        out
    }

    /// Tablet tool events are not supported: they are ignored outright
    /// rather than routed through a half-specified path that could corrupt
    /// seat state.
    pub fn tablet_event(&mut self) -> (r: Vec<SeatCall>)
        ensures
            *final(self) == *old(self),
            r@ == Seq::<SeatCall>::empty(),
    {
        Vec::new()
    }

    fn focus_may_change(&self) -> (r: bool)
        ensures
            r == spec_focus_may_change(self.seat),
    {
        !self.seat.pointer_grabbed && (!self.seat.keyboard_grabbed
            || self.seat.input_method_grabbed) && !self.seat.touch_grabbed
    }
}

/// A coordinate clamped to `[0, max]`.
pub open spec fn spec_clamp(v: int, max: int) -> int {
    if v < 0 {
        0
    } else if v > max {
        max
    } else {
        v
    }
}

fn clamp_coord(v: i64, max: u32) -> (r: i32)
    requires
        max <= i32::MAX,
    ensures
        r == spec_clamp(v as int, max as int),
{
    if v < 0 {
        0
    } else if v > max as i64 {
        max as i32
    } else {
        v as i32
    }
}

/// A discrete 1/120-notch amount converted to the smooth-scroll unit:
/// fifteen units per full notch, truncated toward zero.
pub open spec fn spec_v120_amount(v: int) -> int {
    if v >= 0 {
        v * 15 / 120
    } else {
        -((-v) * 15 / 120)
    }
}

/// The scroll amount of one axis: the smooth amount when the device reported
/// one, else the converted discrete amount, else zero.
pub open spec fn spec_effective_amount(amount: Option<i64>, v120: Option<i32>) -> int {
    match amount {
        Some(a) => a as int,
        None => match v120 {
            Some(v) => spec_v120_amount(v as int),
            None => 0,
        },
    }
}

fn effective_amount(amount: Option<i64>, v120: Option<i32>) -> (r: i64)
    ensures
        r == spec_effective_amount(amount, v120),
{
    match amount {
        Some(a) => a,
        None => match v120 {
            Some(v) => {
                if v >= 0 {
                    ((v as u64) * 15 / 120) as i64
                } else {
                    let mag = (-(v as i64)) as u64;
                    -((mag * 15 / 120) as i64)
                }
            },
            None => 0,
        },
    }
}

fn is_finger(s: AxisSource) -> (r: bool)
    ensures
        r == (s == AxisSource::Finger),
{
    match s {
        AxisSource::Finger => true,
        _ => false,
    }
}

fn is_zero_amount(a: Option<i64>) -> (r: bool)
    ensures
        r == (a == Some(0i64)),
{
    match a {
        Some(v) => v == 0,
        None => false,
    }
}

/// The axis frame built from one decoded axis event.
pub open spec fn spec_axis_frame(input: AxisInput) -> AxisFrame {
    let h = spec_effective_amount(input.h_amount, input.h_v120);
    let v = spec_effective_amount(input.v_amount, input.v_v120);
    AxisFrame {
        time: input.time,
        source: input.source,
        horizontal: AxisMotion {
            value: if h != 0 {
                Some(h as i64)
            } else {
                None
            },
            v120: if h != 0 {
                input.h_v120
            } else {
                None
            },
            stop: input.source == AxisSource::Finger && input.h_amount == Some(0i64),
        },
        vertical: AxisMotion {
            value: if v != 0 {
                Some(v as i64)
            } else {
                None
            },
            v120: if v != 0 {
                input.v_v120
            } else {
                None
            },
            stop: input.source == AxisSource::Finger && input.v_amount == Some(0i64),
        },
    }
}

/// Whether the suppressed-key record holds this keysym.
fn contains_key(keys: &Vec<u32>, keysym: u32) -> (r: bool)
    ensures
        r == keys@.contains(keysym),
{
    let mut i: usize = 0;
    while i < keys.len()
        invariant
            i <= keys@.len(),
            forall|j: int| 0 <= j < i ==> keys@[j] != keysym,
        decreases keys@.len() - i,
    {
        if keys[i] == keysym {
            proof {
                assert(keys@[i as int] == keysym);
            }
            return true;
        }
        i += 1;
    }
    false
}

/// Drop every copy of this keysym from the suppressed-key record.
fn remove_key(keys: &mut Vec<u32>, keysym: u32)
    ensures
        final(keys)@ == old(keys)@.filter(|k: u32| k != keysym),
{
    broadcast use vstd::seq_lib::group_seq_lib_default;

    let mut out: Vec<u32> = Vec::new();
    let mut i: usize = 0;
    while i < keys.len()
        invariant
            i <= keys@.len(),
            keys@ == old(keys)@,
            out@ == keys@.take(i as int).filter(|k: u32| k != keysym),
        decreases keys@.len() - i,
    {
        proof {
            assert(keys@.take(i as int + 1) =~= keys@.take(i as int) + seq![keys@[i as int]]);
        }
        let k = keys[i];
        if k != keysym {
            out.push(k);
        }
        proof {
            Seq::filter_distributes_over_add(
                keys@.take(i as int),
                seq![keys@[i as int]],
                |k: u32| k != keysym,
            );
            reveal_with_fuel(Seq::filter, 2);
            assert(seq![keys@[i as int]].filter(|k: u32| k != keysym) =~= if keys@[i as int]
                != keysym {
                seq![keys@[i as int]]
            } else {
                Seq::empty()
            });
        }
        i += 1;
    }
    proof {
        assert(keys@.take(keys@.len() as int) =~= keys@);
    }
    *keys = out;
}

} // verus!

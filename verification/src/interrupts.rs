//! Interrupt bookkeeping: the user-visible interrupt handles, the nesting
//! counter that holds interrupts off, and the legacy PIC's masks.
use vstd::prelude::*;

verus! {

/// The first vector that may carry a device interrupt (0..32 are
/// exceptions, 32..48 possible spurious PIC interrupts).
pub const IRQ_OFFSET: u8 = 49;

/// The vector of the local APIC timer.
pub const LAPIC_INT: u8 = 60;

/// Whether a vector may take a device handler.
pub fn irq_vector_allowed(irq: u8) -> (b: bool)
    ensures
        b == (IRQ_OFFSET <= irq),
{
    IRQ_OFFSET <= irq
}

/// The legacy PIC's interrupt lines.
#[derive(Clone, Copy, Debug, PartialEq, Eq, Structural)]
pub enum HardwareInterruptOffset {
    Timer,
    Keyboard,
    Cascade,
    COM2,
    COM1,
    LPT2,
    Floppy,
    LPT1,
    CMOSClock,
    Free1,
    Free2,
    Free3,
    Mouse,
    FPU,
    ATAPrimary,
    ATASecondary,
}

impl HardwareInterruptOffset {
    /// The line's number on the chained PICs.
    pub open spec fn spec_line(&self) -> u8 {
        match self {
            HardwareInterruptOffset::Timer => 0,
            HardwareInterruptOffset::Keyboard => 1,
            HardwareInterruptOffset::Cascade => 2,
            HardwareInterruptOffset::COM2 => 3,
            HardwareInterruptOffset::COM1 => 4,
            HardwareInterruptOffset::LPT2 => 5,
            HardwareInterruptOffset::Floppy => 6,
            HardwareInterruptOffset::LPT1 => 7,
            HardwareInterruptOffset::CMOSClock => 8,
            HardwareInterruptOffset::Free1 => 9,
            HardwareInterruptOffset::Free2 => 10,
            HardwareInterruptOffset::Free3 => 11,
            HardwareInterruptOffset::Mouse => 12,
            HardwareInterruptOffset::FPU => 13,
            HardwareInterruptOffset::ATAPrimary => 14,
            HardwareInterruptOffset::ATASecondary => 15,
        }
    }

    /// The line's number on the chained PICs.
    pub fn line(&self) -> (n: u8)
        ensures
            n == self.spec_line(),
    {
        match self {
            HardwareInterruptOffset::Timer => 0,
            HardwareInterruptOffset::Keyboard => 1,
            HardwareInterruptOffset::Cascade => 2,
            HardwareInterruptOffset::COM2 => 3,
            HardwareInterruptOffset::COM1 => 4,
            HardwareInterruptOffset::LPT2 => 5,
            HardwareInterruptOffset::Floppy => 6,
            HardwareInterruptOffset::LPT1 => 7,
            HardwareInterruptOffset::CMOSClock => 8,
            HardwareInterruptOffset::Free1 => 9,
            HardwareInterruptOffset::Free2 => 10,
            HardwareInterruptOffset::Free3 => 11,
            HardwareInterruptOffset::Mouse => 12,
            HardwareInterruptOffset::FPU => 13,
            HardwareInterruptOffset::ATAPrimary => 14,
            HardwareInterruptOffset::ATASecondary => 15,
        }
    }
}

impl From<HardwareInterruptOffset> for u8 {
    fn from(val: HardwareInterruptOffset) -> (n: u8)
        ensures
            n == val.spec_line(),
    {
        val.line()
    }
}

impl From<HardwareInterruptOffset> for usize {
    fn from(val: HardwareInterruptOffset) -> (n: usize)
        ensures
            n == val.spec_line(),
    {
        val.line() as usize
    }
}

impl vstd::std_specs::convert::FromSpecImpl<HardwareInterruptOffset> for u8 {
    open spec fn obeys_from_spec() -> bool {
        true
    }

    open spec fn from_spec(v: HardwareInterruptOffset) -> u8 {
        v.spec_line()
    }
}

impl vstd::std_specs::convert::FromSpecImpl<HardwareInterruptOffset> for usize {
    open spec fn obeys_from_spec() -> bool {
        true
    }

    open spec fn from_spec(v: HardwareInterruptOffset) -> usize {
        v.spec_line() as usize
    }
}

/// The PIC masks after enabling line `irq`: lines above 8 clear their bit
/// in the second mask, the others in the first (line 8 cannot be handled).
pub fn enable_irq_mask(mask: [u8; 2], irq: u8) -> (m: [u8; 2])
    requires
        irq < 16,
        irq != 8,
    ensures
        irq > 8 ==> m[0] == mask[0] && m[1] == mask[1] & !(1u8 << (irq - 8) as u8),
        irq < 8 ==> m[0] == mask[0] & !(1u8 << irq) && m[1] == mask[1],
{
    let mut m = mask;
    if irq > 8 {
        m[1] = m[1] & !(1u8 << (irq - 8));
    } else {
        m[0] = m[0] & !(1u8 << irq);
    }
    m
}

/// The PIC masks after disabling line `irq`.
pub fn disable_irq_mask(mask: [u8; 2], irq: u8) -> (m: [u8; 2])
    requires
        irq < 16,
        irq != 8,
    ensures
        irq > 8 ==> m[0] == mask[0] && m[1] == mask[1] | (1u8 << (irq - 8) as u8),
        irq < 8 ==> m[0] == mask[0] | (1u8 << irq) && m[1] == mask[1],
{
    let mut m = mask;
    if irq > 8 {
        m[1] = m[1] | (1u8 << (irq - 8));
    } else {
        m[0] = m[0] | (1u8 << irq);
    }
    m
}

/// Who waits for an interrupt: nobody, a sleeping thread, or a port to be
/// notified with a key.
pub enum InterruptWaiter<T, P> {
    Nobody,
    Thread(T),
    Port { port: P, key: u64 },
}

/// The kind of waiter, without the thread or port itself.
#[derive(Clone, Copy, Debug, PartialEq, Eq, Structural)]
pub enum WaiterKind {
    Nobody,
    Thread,
    Port { key: u64 },
}

/// What the caller must do after a change of an interrupt handle.
pub enum InterruptAction<T> {
    Nothing,
    Wake(T),
    NotifyPort { key: u64 },
}

/// The state of an interrupt handle: whether the last delivery awaits an
/// acknowledgement, whether an interrupt is pending, and who waits.
#[derive(Clone, Copy, Debug, PartialEq, Eq, Structural)]
pub struct InterruptState {
    pub waiting_ack: bool,
    pub pending: bool,
    pub waiter: WaiterKind,
}

/// An interrupt handle that user space holds for one interrupt source.
pub struct KInterruptHandle<T, P> {
    waiting_ack: bool,
    pending: bool,
    waiter: InterruptWaiter<T, P>,
}

/// A trigger: while an interrupt is pending or unacknowledged, it only
/// stays pending. Otherwise with nobody waiting it becomes pending; a
/// waiting thread is woken (and the interrupt stays pending for it); a
/// waiting port is notified.
pub open spec fn trigger_spec(s: InterruptState) -> (InterruptState, WaiterKind) {
    if s.pending || s.waiting_ack {
        (InterruptState { pending: true, ..s }, WaiterKind::Nobody)
    } else {
        match s.waiter {
            WaiterKind::Nobody => (InterruptState { pending: true, ..s }, WaiterKind::Nobody),
            WaiterKind::Thread => (
                InterruptState { pending: true, waiter: WaiterKind::Nobody, ..s },
                WaiterKind::Thread,
            ),
            WaiterKind::Port { key } => (s, WaiterKind::Port { key }),
        }
    }
}

/// An acknowledgement: the handle stops waiting for one; a pending
/// interrupt is then delivered to the waiter (a thread is woken and no
/// longer waits, a port is notified and keeps waiting) and awaits its own
/// acknowledgement.
pub open spec fn ack_spec(s: InterruptState) -> (InterruptState, WaiterKind) {
    if s.pending {
        match s.waiter {
            WaiterKind::Nobody => (InterruptState { waiting_ack: true, ..s }, WaiterKind::Nobody),
            WaiterKind::Thread => (
                InterruptState { waiting_ack: true, waiter: WaiterKind::Nobody, ..s },
                WaiterKind::Thread,
            ),
            WaiterKind::Port { key } => (
                InterruptState { waiting_ack: true, ..s },
                WaiterKind::Port { key },
            ),
        }
    } else {
        (InterruptState { waiting_ack: false, ..s }, WaiterKind::Nobody)
    }
}

impl<T, P> KInterruptHandle<T, P> {
    /// The handle's state.
    pub closed spec fn state(&self) -> InterruptState {
        InterruptState {
            waiting_ack: self.waiting_ack,
            pending: self.pending,
            waiter: match self.waiter {
                InterruptWaiter::Nobody => WaiterKind::Nobody,
                InterruptWaiter::Thread(_) => WaiterKind::Thread,
                InterruptWaiter::Port { key, .. } => WaiterKind::Port { key },
            },
        }
    }

    /// The thread that waits, if a thread waits.
    pub closed spec fn waiting_thread(&self) -> Option<T> {
        match self.waiter {
            InterruptWaiter::Thread(t) => Some(t),
            _ => None,
        }
    }

    /// The port that waits, if a port waits.
    pub closed spec fn waiting_port(&self) -> Option<P> {
        match self.waiter {
            InterruptWaiter::Port { port, .. } => Some(port),
            _ => None,
        }
    }

    /// A thread waits exactly when the state says so, and likewise a port.
    pub proof fn lemma_waiter_agrees(&self)
        ensures
            self.waiting_thread() is Some <==> self.state().waiter is Thread,
            self.waiting_port() is Some <==> self.state().waiter is Port,
    {
    }

    /// A handle with nothing pending and nobody waiting.
    pub fn new() -> (h: Self)
        ensures
            h.state() == (InterruptState {
                waiting_ack: false,
                pending: false,
                waiter: WaiterKind::Nobody,
            }),
            h.waiting_thread() is None,
            h.waiting_port() is None,
    {
        Self { waiting_ack: false, pending: false, waiter: InterruptWaiter::Nobody }
    }

    /// The port that waits, if a port waits.
    pub fn waiter_port(&self) -> (p: Option<&P>)
        ensures
            p is Some <==> self.state().waiter is Port,
            p matches Some(q) ==> self.waiting_port() == Some(*q),
    {
        match &self.waiter {
            InterruptWaiter::Port { port, .. } => Some(port),
            _ => None,
        }
    }

    /// The source fired.
    pub fn trigger(&mut self) -> (a: InterruptAction<T>)
        ensures
            ({
                let (s, told) = trigger_spec(old(self).state());
                &&& final(self).state() == s
                &&& match told {
                    WaiterKind::Nobody => a is Nothing,
                    WaiterKind::Thread => a == InterruptAction::<T>::Wake(
                        old(self).waiting_thread()->0,
                    ),
                    WaiterKind::Port { key } => a == InterruptAction::<T>::NotifyPort { key },
                }
                &&& final(self).waiting_port() == old(self).waiting_port()
                &&& final(self).waiting_thread() == if told is Thread {
                    None
                } else {
                    old(self).waiting_thread()
                }
            }),
    {
        if self.pending || self.waiting_ack {
            self.pending = true;
            return InterruptAction::Nothing;
        }
        let mut waiter = InterruptWaiter::Nobody;
        std::mem::swap(&mut waiter, &mut self.waiter);
        match waiter {
            InterruptWaiter::Nobody => {
                self.pending = true;
                InterruptAction::Nothing
            },
            InterruptWaiter::Thread(t) => {
                self.pending = true;
                InterruptAction::Wake(t)
            },
            InterruptWaiter::Port { port, key } => {
                self.waiter = InterruptWaiter::Port { port, key };
                InterruptAction::NotifyPort { key }
            },
        }
    }

    /// A thread waits: it takes a pending interrupt at once (true), or
    /// becomes the waiter and must sleep (false). Waiting also acknowledges
    /// the previous delivery.
    pub fn wait(&mut self, thread: T) -> (done: bool)
        requires
            old(self).state().waiter == WaiterKind::Nobody,
        ensures
            done == old(self).state().pending,
            done ==> final(self).state() == (InterruptState {
                waiting_ack: false,
                pending: false,
                waiter: WaiterKind::Nobody,
            }),
            !done ==> final(self).state() == (InterruptState {
                waiting_ack: false,
                pending: false,
                waiter: WaiterKind::Thread,
            }) && final(self).waiting_thread() == Some(thread),
    {
        self.waiting_ack = false;
        if self.pending {
            self.pending = false;
            return true;
        }
        self.waiter = InterruptWaiter::Thread(thread);
        false
    }

    /// A port becomes the waiter; if an interrupt is pending and not awaiting
    /// acknowledgement, the port is told at once and the delivery then awaits
    /// acknowledgement.
    pub fn set_port(&mut self, port: P, key: u64) -> (a: InterruptAction<T>)
        ensures
            final(self).state().waiter == (WaiterKind::Port { key }),
            final(self).waiting_port() == Some(port),
            final(self).state().pending == old(self).state().pending,
            (old(self).state().pending && !old(self).state().waiting_ack) ==> (a
                == (InterruptAction::<T>::NotifyPort { key }) && final(self).state().waiting_ack),
            !(old(self).state().pending && !old(self).state().waiting_ack) ==> (a is Nothing
                && final(self).state().waiting_ack == old(self).state().waiting_ack),
    {
        let notify = self.pending && !self.waiting_ack;
        if notify {
            self.waiting_ack = true;
        }
        self.waiter = InterruptWaiter::Port { port, key };
        if notify {
            InterruptAction::NotifyPort { key }
        } else {
            InterruptAction::Nothing
        }
    }

    /// The waiter acknowledges the last delivery.
    pub fn ack(&mut self) -> (a: InterruptAction<T>)
        ensures
            ({
                let (s, told) = ack_spec(old(self).state());
                &&& final(self).state() == s
                &&& match told {
                    WaiterKind::Nobody => a is Nothing,
                    WaiterKind::Thread => a == InterruptAction::<T>::Wake(
                        old(self).waiting_thread()->0,
                    ),
                    WaiterKind::Port { key } => a == InterruptAction::<T>::NotifyPort { key },
                }
                &&& final(self).waiting_port() == old(self).waiting_port()
                &&& final(self).waiting_thread() == if told is Thread {
                    None
                } else {
                    old(self).waiting_thread()
                }
            }),
    {
        self.waiting_ack = false;
        if self.pending {
            let mut waiter = InterruptWaiter::Nobody;
        std::mem::swap(&mut waiter, &mut self.waiter);
            let a = match waiter {
                InterruptWaiter::Nobody => InterruptAction::Nothing,
                InterruptWaiter::Thread(t) => InterruptAction::Wake(t),
                InterruptWaiter::Port { port, key } => {
                    self.waiter = InterruptWaiter::Port { port, key };
                    InterruptAction::NotifyPort { key }
                },
            };
            self.waiting_ack = true;
            a
        } else {
            InterruptAction::Nothing
        }
    }
}

/// A trigger is never lost: afterwards the interrupt is pending, or the
/// waiting port has been told.
pub proof fn lemma_trigger_not_lost(s: InterruptState)
    ensures
        ({
            let (n, told) = trigger_spec(s);
            n.pending || told is Port
        }),
{
}

/// An interrupt that fires while nobody waits is taken by the next wait at
/// once, without sleeping.
pub proof fn lemma_trigger_then_wait_returns(s: InterruptState)
    requires
        s.waiter == WaiterKind::Nobody,
    ensures
        trigger_spec(s).0.pending && trigger_spec(s).0.waiter == WaiterKind::Nobody,
{
}

/// The nesting counter that holds interrupts off on one core, and whether
/// interrupts were enabled when the outermost hold began.
#[derive(Clone, Copy, Debug, PartialEq, Eq, Structural)]
pub struct HoldInterrupts {
    pub depth: u64,
    pub initial: bool,
}

/// What the core must do to its interrupt flag.
#[derive(Clone, Copy, Debug, PartialEq, Eq, Structural)]
pub enum InterruptFlagAction {
    Keep,
    Disable,
    Enable,
}

/// The hold after a core begins one, and what it does to its flag.
pub open spec fn hold_enter(h: HoldInterrupts, enabled: bool) -> (HoldInterrupts, InterruptFlagAction) {
    if h.depth == 0 {
        (
            HoldInterrupts { depth: 1, initial: enabled },
            if enabled {
                InterruptFlagAction::Disable
            } else {
                InterruptFlagAction::Keep
            },
        )
    } else {
        (HoldInterrupts { depth: (h.depth + 1) as u64, initial: h.initial }, InterruptFlagAction::Keep)
    }
}

/// The hold after a core ends one, and what it does to its flag.
pub open spec fn hold_exit(h: HoldInterrupts) -> (HoldInterrupts, InterruptFlagAction) {
    let n = HoldInterrupts { depth: (h.depth - 1) as u64, initial: h.initial };
    if n.depth == 0 && h.initial {
        (n, InterruptFlagAction::Enable)
    } else {
        (n, InterruptFlagAction::Keep)
    }
}

impl HoldInterrupts {
    /// Begins a hold. The outermost hold records whether interrupts were
    /// enabled and disables them if so.
    pub fn inc_hold_interrupts(&mut self, enabled: bool) -> (a: InterruptFlagAction)
        requires
            old(self).depth < u64::MAX,
        ensures
            (*final(self), a) == hold_enter(*old(self), enabled),
    {
        let depth = self.depth;
        let mut a = InterruptFlagAction::Keep;
        if depth == 0 {
            if enabled {
                a = InterruptFlagAction::Disable;
            }
            self.initial = enabled;
        }
        self.depth = depth + 1;
        a
    }

    /// Ends a hold. The outermost hold re-enables interrupts if they were
    /// enabled when it began.
    pub fn dec_hold_interrupts(&mut self) -> (a: InterruptFlagAction)
        requires
            old(self).depth > 0,
        ensures
            (*final(self), a) == hold_exit(*old(self)),
    {
        let depth = self.depth - 1;
        self.depth = depth;
        if depth == 0 && self.initial {
            InterruptFlagAction::Enable
        } else {
            InterruptFlagAction::Keep
        }
    }
}

/// Holds nest: beginning a hold and ending it gives back the counter that
/// was there before, and the outermost pair disables interrupts exactly when
/// they were enabled and re-enables them exactly then, so the flag ends as it
/// began.
pub proof fn lemma_hold_release_restores(h: HoldInterrupts, enabled: bool)
    requires
        h.depth < u64::MAX,
    ensures
        hold_exit(hold_enter(h, enabled).0).0.depth == h.depth,
        h.depth > 0 ==> hold_exit(hold_enter(h, enabled).0) == (h, InterruptFlagAction::Keep)
            && hold_enter(h, enabled).1 == InterruptFlagAction::Keep,
        h.depth == 0 ==> (hold_enter(h, enabled).1 == InterruptFlagAction::Disable) == enabled,
        h.depth == 0 ==> (hold_exit(hold_enter(h, enabled).0).1 == InterruptFlagAction::Enable)
            == enabled,
{
}

/// The port writes that set up and then mask both legacy PICs: the
/// initialization words (edge mode with a fourth word), the vector bases 32
/// and 40, the cascade on line 2, 8086 mode, then all lines masked. Writes
/// to port 0x80 only give the chips time.
pub open spec fn pic_disable_spec() -> Seq<(u16, u8)> {
    seq![
        (0x20u16, 0x11u8),
        (0x80u16, 0u8),
        (0xA0u16, 0x11u8),
        (0x21u16, 32u8),
        (0x80u16, 0u8),
        (0xA1u16, 40u8),
        (0x21u16, 4u8),
        (0x80u16, 0u8),
        (0xA1u16, 2u8),
        (0x80u16, 0u8),
        (0x21u16, 1u8),
        (0x80u16, 0u8),
        (0xA1u16, 1u8),
        (0x80u16, 0u8),
        (0x21u16, 0xFFu8),
        (0xA1u16, 0xFFu8),
    ]
}

/// The port writes that disable the legacy PICs, in order.
pub fn pic_disable_sequence() -> (v: Vec<(u16, u8)>)
    ensures
        v@ == pic_disable_spec(),
{
    let v = vec![
        (0x20u16, 0x11u8),
        (0x80u16, 0u8),
        (0xA0u16, 0x11u8),
        (0x21u16, 32u8),
        (0x80u16, 0u8),
        (0xA1u16, 40u8),
        (0x21u16, 4u8),
        (0x80u16, 0u8),
        (0xA1u16, 2u8),
        (0x80u16, 0u8),
        (0x21u16, 1u8),
        (0x80u16, 0u8),
        (0xA1u16, 1u8),
        (0x80u16, 0u8),
        (0x21u16, 0xFFu8),
        (0xA1u16, 0xFFu8),
    ];
    assert(v@ =~= pic_disable_spec());
    v
}

/// One line of the I/O APIC routed to a vector: the destination
/// processor, the line, the vector, and whether it is enabled.
#[derive(Clone, Copy, Debug, PartialEq, Eq, Structural)]
pub struct ApicRoute {
    pub processor: u8,
    pub irq: u8,
    pub vector: u8,
    pub enable: bool,
}

/// The routes the kernel sets up: the timer (line 2) to vector 49 on all
/// processors, the keyboard (line 1) to 50, the mouse (line 12) to 51 and
/// the PCI lines 10 and 11 to 52, on the first processor.
pub open spec fn apic_routes_spec() -> Seq<ApicRoute> {
    seq![
        ApicRoute { processor: 0xFF, irq: 2, vector: 49, enable: true },
        ApicRoute { processor: 0, irq: 1, vector: 50, enable: true },
        ApicRoute { processor: 0, irq: 12, vector: 51, enable: true },
        ApicRoute { processor: 0, irq: 10, vector: 52, enable: true },
        ApicRoute { processor: 0, irq: 11, vector: 52, enable: true },
    ]
}

/// The routes the kernel sets up, in order.
pub fn apic_routes() -> (v: Vec<ApicRoute>)
    ensures
        v@ == apic_routes_spec(),
{
    let v = vec![
        ApicRoute { processor: 0xFF, irq: 2, vector: 49, enable: true },
        ApicRoute { processor: 0, irq: 1, vector: 50, enable: true },
        ApicRoute { processor: 0, irq: 12, vector: 51, enable: true },
        ApicRoute { processor: 0, irq: 10, vector: 52, enable: true },
        ApicRoute { processor: 0, irq: 11, vector: 52, enable: true },
    ];
    assert(v@ =~= apic_routes_spec());
    v
}

/// The interrupt command that sends `vector` to another processor, with
/// the level bit (14) set.
pub fn ipi_command(vector: u8) -> (v: u32)
    ensures
        v == vector as u32 + 0x4000,
{
    let x = vector as u32;
    assert(x < 256 ==> (x | 0x4000u32) == x + 0x4000) by (bit_vector);
    x | 0x4000u32
}

} // verus!

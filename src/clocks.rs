//! The clock-tree boot sequence: the oscillator, two PLLs and seven derived
//! clocks, brought up in dependency order. The sequence is a state machine
//! that hands out one step at a time; the caller performs it on the hardware
//! and reports whether it worked. The first failure ends the sequence.
use vstd::prelude::*;

verus! {

/// Frequency of the crystal oscillator.
pub const XOSC_FREQ_HZ: u32 = 12_000_000;

/// The watchdog tick generator runs at one tick per microsecond.
pub const WATCHDOG_TICK_HZ: u32 = 1_000_000;

/// Frequency of the RMII reference clock; the peripheral and GPIO-output
/// clocks are set to it.
pub const GPIO_CLOCK_HZ: u32 = 50_000_000;

/// The RTC clock is the USB PLL divided by this.
pub const RTC_DIVIDER: u32 = 1024;

/// Number of steps in the boot sequence.
pub const BOOT_STEPS: usize = 11;

/// The clocks derived from the oscillator and the PLLs.
#[derive(Clone, Copy, Debug, PartialEq, Eq, Structural)]
pub enum DerivedClock {
    Reference,
    System,
    Usb,
    Adc,
    Rtc,
    Peripheral,
    GpioOutput0,
}

/// Where a derived clock takes its input from.
#[derive(Clone, Copy, Debug, PartialEq, Eq, Structural)]
pub enum ClockSource {
    Xosc,
    PllSys,
    PllUsb,
    SystemClock,
}

/// The stage of the boot sequence that failed.
#[derive(Clone, Copy, Debug, PartialEq, Eq, Structural)]
pub enum ClockError {
    /// The crystal oscillator did not start.
    Xosc,
    /// The system PLL did not lock.
    PllSys,
    /// The USB PLL did not lock.
    PllUsb,
    /// The named derived clock could not be configured.
    SubClock(DerivedClock),
}

/// One of the two PLLs.
#[derive(Clone, Copy, Debug, PartialEq, Eq, Structural)]
pub enum Pll {
    System,
    Usb,
}

/// A PLL configuration: the VCO frequency to lock to, and its dividers.
#[derive(Clone, Copy, Debug, PartialEq, Eq, Structural)]
pub struct PllConfig {
    pub vco_freq: u32,
    pub refdiv: u8,
    pub post_div1: u8,
    pub post_div2: u8,
}

impl PllConfig {
    /// No divider is zero.
    pub open spec fn wf(&self) -> bool {
        self.refdiv >= 1 && self.post_div1 >= 1 && self.post_div2 >= 1
    }

    /// Output frequency: the VCO divided by both post-dividers.
    pub open spec fn output_spec(&self) -> nat {
        self.vco_freq as nat / (self.post_div1 as nat * self.post_div2 as nat)
    }

    /// The output frequency in hertz.
    pub fn output_freq(&self) -> (r: u32)
        requires
            self.wf(),
        ensures
            r == self.output_spec(),
    {
        let d1 = self.post_div1 as u32;
        let d2 = self.post_div2 as u32;
        proof {
            vstd::arithmetic::mul::lemma_mul_upper_bound(d1 as int, 255, d2 as int, 255);
            vstd::arithmetic::mul::lemma_mul_strictly_positive(d1 as int, d2 as int);
        }
        let div: u32 = d1 * d2;
        self.vco_freq / div
    }

    /// The system PLL of this board: 1500 MHz VCO, divided by 5 and 3.
    pub fn sys_100mhz() -> (r: PllConfig)
        ensures
            r == (PllConfig { vco_freq: 1_500_000_000, refdiv: 1, post_div1: 5, post_div2: 3 }),
            r.wf(),
    {
        PllConfig { vco_freq: 1_500_000_000, refdiv: 1, post_div1: 5, post_div2: 3 }
    }

    /// The usual USB PLL: 480 MHz VCO, divided by 5 and 2.
    pub fn usb_48mhz() -> (r: PllConfig)
        ensures
            r == (PllConfig { vco_freq: 480_000_000, refdiv: 1, post_div1: 5, post_div2: 2 }),
            r.wf(),
    {
        PllConfig { vco_freq: 480_000_000, refdiv: 1, post_div1: 5, post_div2: 2 }
    }
}

/// What the boot sequence brings up.
#[derive(Clone, Copy, Debug, PartialEq, Eq, Structural)]
pub struct ClockPlan {
    pub xosc_freq: u32,
    pub pll_sys: PllConfig,
    pub pll_usb: PllConfig,
}

impl ClockPlan {
    /// Both PLL configurations have nonzero dividers, and the oscillator runs
    /// at 1 MHz or more with at most 255 whole megahertz, so that the watchdog
    /// divider (its frequency in megahertz, rounded down) is nonzero and fits
    /// its 8-bit register.
    pub open spec fn wf(&self) -> bool {
        &&& self.pll_sys.wf()
        &&& self.pll_usb.wf()
        &&& WATCHDOG_TICK_HZ <= self.xosc_freq
        &&& self.xosc_freq / WATCHDOG_TICK_HZ <= 255
    }

    /// The plan of this board: a 12 MHz crystal, the system PLL at 100 MHz
    /// and the USB PLL at 48 MHz.
    pub fn board_default() -> (r: ClockPlan)
        ensures
            r == (ClockPlan {
                xosc_freq: XOSC_FREQ_HZ,
                pll_sys: PllConfig { vco_freq: 1_500_000_000, refdiv: 1, post_div1: 5, post_div2: 3 },
                pll_usb: PllConfig { vco_freq: 480_000_000, refdiv: 1, post_div1: 5, post_div2: 2 },
            }),
            r.wf(),
    {
        ClockPlan {
            xosc_freq: XOSC_FREQ_HZ,
            pll_sys: PllConfig::sys_100mhz(),
            pll_usb: PllConfig::usb_48mhz(),
        }
    }

    /// Oscillator cycles per watchdog tick: the oscillator frequency in megahertz.
    pub fn watchdog_cycles(&self) -> (r: u8)
        requires
            self.wf(),
        ensures
            r == self.xosc_freq / WATCHDOG_TICK_HZ,
    {
        (self.xosc_freq / WATCHDOG_TICK_HZ) as u8
    }

    /// The frequency a derived clock is set to.
    pub open spec fn derived_spec(&self, clock: DerivedClock) -> nat {
        match clock {
            DerivedClock::Reference => self.xosc_freq as nat,
            DerivedClock::System => self.pll_sys.output_spec(),
            DerivedClock::Usb => self.pll_usb.output_spec(),
            DerivedClock::Adc => self.pll_usb.output_spec(),
            DerivedClock::Rtc => self.pll_usb.output_spec() / RTC_DIVIDER as nat,
            DerivedClock::Peripheral => GPIO_CLOCK_HZ as nat,
            DerivedClock::GpioOutput0 => GPIO_CLOCK_HZ as nat,
        }
    }

    /// The frequency a derived clock is set to, in hertz.
    pub fn derived_freq(&self, clock: DerivedClock) -> (r: u32)
        requires
            self.wf(),
        ensures
            r == self.derived_spec(clock),
    {
        match clock {
            DerivedClock::Reference => self.xosc_freq,
            DerivedClock::System => self.pll_sys.output_freq(),
            DerivedClock::Usb => self.pll_usb.output_freq(),
            DerivedClock::Adc => self.pll_usb.output_freq(),
            DerivedClock::Rtc => self.pll_usb.output_freq() / RTC_DIVIDER,
            DerivedClock::Peripheral => GPIO_CLOCK_HZ,
            DerivedClock::GpioOutput0 => GPIO_CLOCK_HZ,
        }
    }
}

/// The derived clocks in the order they are configured, with their sources.
pub open spec fn derived_order(k: int) -> (DerivedClock, ClockSource) {
    if k == 0 {
        (DerivedClock::Reference, ClockSource::Xosc)
    } else if k == 1 {
        (DerivedClock::System, ClockSource::PllSys)
    } else if k == 2 {
        (DerivedClock::Usb, ClockSource::PllUsb)
    } else if k == 3 {
        (DerivedClock::Adc, ClockSource::PllUsb)
    } else if k == 4 {
        (DerivedClock::Rtc, ClockSource::PllUsb)
    } else if k == 5 {
        (DerivedClock::Peripheral, ClockSource::SystemClock)
    } else {
        (DerivedClock::GpioOutput0, ClockSource::SystemClock)
    }
}

/// One step of the boot sequence, for the caller to perform.
#[derive(Clone, Copy, Debug, PartialEq, Eq, Structural)]
pub enum ClockStep {
    /// Start the crystal oscillator at this frequency.
    StartXosc { freq: u32 },
    /// Make the watchdog tick every `cycles` oscillator cycles. Best effort:
    /// its failure does not stop the sequence.
    WatchdogTick { cycles: u8 },
    /// Start a PLL from the oscillator and wait for it to lock.
    StartPll { pll: Pll, config: PllConfig },
    /// Feed a derived clock from `source` and set it to `freq`.
    Configure { clock: DerivedClock, source: ClockSource, freq: u32 },
}

/// Step `i` of the boot sequence.
pub open spec fn step_spec(plan: ClockPlan, i: nat) -> ClockStep {
    if i == 0 {
        ClockStep::StartXosc { freq: plan.xosc_freq }
    } else if i == 1 {
        ClockStep::WatchdogTick { cycles: (plan.xosc_freq / WATCHDOG_TICK_HZ) as u8 }
    } else if i == 2 {
        ClockStep::StartPll { pll: Pll::System, config: plan.pll_sys }
    } else if i == 3 {
        ClockStep::StartPll { pll: Pll::Usb, config: plan.pll_usb }
    } else {
        let (clock, source) = derived_order(i - 4);
        ClockStep::Configure { clock, source, freq: plan.derived_spec(clock) as u32 }
    }
}

/// The error that a failure of `step` ends the sequence with; `None` for the
/// best-effort watchdog step.
pub open spec fn failure_of(step: ClockStep) -> Option<ClockError> {
    match step {
        ClockStep::StartXosc { .. } => Some(ClockError::Xosc),
        ClockStep::WatchdogTick { .. } => None,
        ClockStep::StartPll { pll, .. } => Some(
            if pll == Pll::System {
                ClockError::PllSys
            } else {
                ClockError::PllUsb
            },
        ),
        ClockStep::Configure { clock, .. } => Some(ClockError::SubClock(clock)),
    }
}

/// Whether a source is running once the first `done` steps have succeeded.
pub open spec fn source_ready(done: nat, source: ClockSource) -> bool {
    match source {
        ClockSource::Xosc => done > 0,
        ClockSource::PllSys => done > 2,
        ClockSource::PllUsb => done > 3,
        ClockSource::SystemClock => done > 5,
    }
}

/// Whether a sequence in state `s` (steps done, error) still has a step to hand out.
pub open spec fn boot_active(s: (nat, Option<ClockError>)) -> bool {
    s.1.is_none() && s.0 < BOOT_STEPS
}

/// The state after the current step of `s` is reported as `ok` or failed.
pub open spec fn boot_next(plan: ClockPlan, s: (nat, Option<ClockError>), ok: bool) -> (
    nat,
    Option<ClockError>,
) {
    let failure = failure_of(step_spec(plan, s.0));
    if ok || failure.is_none() {
        ((s.0 + 1) as nat, None)
    } else {
        (s.0, failure)
    }
}

/// The state after the caller has performed each step handed out and
/// reported the outcomes in order; outcomes after the sequence ended are not
/// asked for and change nothing.
pub open spec fn boot_run(plan: ClockPlan, outcomes: Seq<bool>) -> (nat, Option<ClockError>)
    decreases outcomes.len(),
{
    if outcomes.len() == 0 {
        (0, None)
    } else {
        let s = boot_run(plan, outcomes.drop_last());
        if boot_active(s) {
            boot_next(plan, s, outcomes.last())
        } else {
            s
        }
    }
}

/// The steps handed out over such a run, in order.
pub open spec fn boot_issued(plan: ClockPlan, outcomes: Seq<bool>) -> Seq<ClockStep>
    decreases outcomes.len(),
{
    if outcomes.len() == 0 {
        Seq::empty()
    } else {
        let s = boot_run(plan, outcomes.drop_last());
        let prev = boot_issued(plan, outcomes.drop_last());
        if boot_active(s) {
            prev.push(step_spec(plan, s.0))
        } else {
            prev
        }
    }
}

/// The realized frequency of every clock domain, once the sequence is complete.
#[derive(Clone, Copy, Debug, PartialEq, Eq, Structural)]
pub struct RunningClocks {
    pub reference: u32,
    pub system: u32,
    pub usb: u32,
    pub adc: u32,
    pub rtc: u32,
    pub peripheral: u32,
    pub gpio_output0: u32,
}

impl RunningClocks {
    /// Every domain runs at the frequency that `plan` sets it to.
    pub open spec fn of_plan(&self, plan: ClockPlan) -> bool {
        &&& self.reference == plan.derived_spec(DerivedClock::Reference)
        &&& self.system == plan.derived_spec(DerivedClock::System)
        &&& self.usb == plan.derived_spec(DerivedClock::Usb)
        &&& self.adc == plan.derived_spec(DerivedClock::Adc)
        &&& self.rtc == plan.derived_spec(DerivedClock::Rtc)
        &&& self.peripheral == plan.derived_spec(DerivedClock::Peripheral)
        &&& self.gpio_output0 == plan.derived_spec(DerivedClock::GpioOutput0)
    }
}

/// Step `i` of the boot sequence for `plan`.
fn step_at(plan: &ClockPlan, i: usize) -> (r: ClockStep)
    requires
        plan.wf(),
        i < BOOT_STEPS,
    ensures
        r == step_spec(*plan, i as nat),
{
    if i == 0 {
        ClockStep::StartXosc { freq: plan.xosc_freq }
    } else if i == 1 {
        ClockStep::WatchdogTick { cycles: plan.watchdog_cycles() }
    } else if i == 2 {
        ClockStep::StartPll { pll: Pll::System, config: plan.pll_sys }
    } else if i == 3 {
        ClockStep::StartPll { pll: Pll::Usb, config: plan.pll_usb }
    } else {
        let (clock, source) = if i == 4 {
            (DerivedClock::Reference, ClockSource::Xosc)
        } else if i == 5 {
            (DerivedClock::System, ClockSource::PllSys)
        } else if i == 6 {
            (DerivedClock::Usb, ClockSource::PllUsb)
        } else if i == 7 {
            (DerivedClock::Adc, ClockSource::PllUsb)
        } else if i == 8 {
            (DerivedClock::Rtc, ClockSource::PllUsb)
        } else if i == 9 {
            (DerivedClock::Peripheral, ClockSource::SystemClock)
        } else {
            (DerivedClock::GpioOutput0, ClockSource::SystemClock)
        };
        ClockStep::Configure { clock, source, freq: plan.derived_freq(clock) }
    }
}

/// The boot sequence in progress: the plan, how many steps have succeeded,
/// and the error that ended it, if one did.
pub struct ClockBoot {
    plan: ClockPlan,
    done: usize,
    failed: Option<ClockError>,
}

impl ClockBoot {
    pub closed spec fn plan(&self) -> ClockPlan {
        self.plan
    }

    /// Steps done, and the error that ended the sequence.
    pub closed spec fn state(&self) -> (nat, Option<ClockError>) {
        (self.done as nat, self.failed)
    }

    pub closed spec fn wf(&self) -> bool {
        self.plan.wf() && self.done <= BOOT_STEPS
    }

    /// A sequence that has done nothing yet.
    pub fn new(plan: ClockPlan) -> (r: ClockBoot)
        requires
            plan.wf(),
        ensures
            r.wf(),
            r.plan() == plan,
            r.state() == boot_run(plan, Seq::empty()),
    {
        ClockBoot { plan, done: 0, failed: None }
    }

    /// The next step to perform, or `None` once the sequence is complete or
    /// has failed. A derived clock is only ever fed from a source whose own
    /// step has already succeeded.
    pub fn next_step(&self) -> (r: Option<ClockStep>)
        requires
            self.wf(),
        ensures
            r == (if boot_active(self.state()) {
                Some(step_spec(self.plan(), self.state().0))
            } else {
                None
            }),
            r matches Some(ClockStep::Configure { source, .. }) ==> source_ready(
                self.state().0,
                source,
            ),
    {
        if self.failed.is_none() && self.done < BOOT_STEPS {
            Some(step_at(&self.plan, self.done))
        } else {
            None
        }
    }

    /// Reports the outcome of the step that `next_step` handed out.
    pub fn report(&mut self, ok: bool)
        requires
            old(self).wf(),
            boot_active(old(self).state()),
        ensures
            final(self).wf(),
            final(self).plan() == old(self).plan(),
            final(self).state() == boot_next(old(self).plan(), old(self).state(), ok),
    {
        let step = step_at(&self.plan, self.done);
        let failure = match step {
            ClockStep::StartXosc { .. } => Some(ClockError::Xosc),
            ClockStep::WatchdogTick { .. } => None,
            ClockStep::StartPll { pll, .. } => match pll {
                Pll::System => Some(ClockError::PllSys),
                Pll::Usb => Some(ClockError::PllUsb),
            },
            ClockStep::Configure { clock, .. } => Some(ClockError::SubClock(clock)),
        };
        if ok || failure.is_none() {
            self.done = self.done + 1;
        } else {
            self.failed = failure;
        }
    }

    /// `None` while steps remain; then the error that ended the sequence, or
    /// the frequencies of all domains.
    pub fn result(&self) -> (r: Option<Result<RunningClocks, ClockError>>)
        requires
            self.wf(),
        ensures
            boot_active(self.state()) <==> r is None,
            self.state().1 matches Some(e) ==> r == Some(Err::<RunningClocks, ClockError>(e)),
            r matches Some(Ok(c)) ==> c.of_plan(self.plan()),
            self.state() == (BOOT_STEPS as nat, None::<ClockError>) ==> (r matches Some(Ok(c))
                && c.of_plan(self.plan())),
    {
        match self.failed {
            Some(e) => Some(Err(e)),
            None => if self.done < BOOT_STEPS {
                None
            } else {
                let p = &self.plan;
                Some(
                    Ok(
                        RunningClocks {
                            reference: p.derived_freq(DerivedClock::Reference),
                            system: p.derived_freq(DerivedClock::System),
                            usb: p.derived_freq(DerivedClock::Usb),
                            adc: p.derived_freq(DerivedClock::Adc),
                            rtc: p.derived_freq(DerivedClock::Rtc),
                            peripheral: p.derived_freq(DerivedClock::Peripheral),
                            gpio_output0: p.derived_freq(DerivedClock::GpioOutput0),
                        },
                    ),
                )
            },
        }
    }
}

/// Reporting every step as done runs the whole sequence: after `n` such
/// reports (up to the last step) the first `n` steps are done, each handed out
/// once and in order, and nothing has failed. With all eleven reported, the
/// result is `Ok`, with every domain at its planned frequency.
pub proof fn lemma_boot_succeeds(plan: ClockPlan, outcomes: Seq<bool>)
    requires
        plan.wf(),
        outcomes.len() <= BOOT_STEPS,
        forall|i: int| 0 <= i < outcomes.len() ==> #[trigger] outcomes[i],
    ensures
        boot_run(plan, outcomes) == (outcomes.len(), None::<ClockError>),
        boot_issued(plan, outcomes) == Seq::new(outcomes.len(), |i: int| step_spec(plan, i as nat)),
    decreases outcomes.len(),
{
    if outcomes.len() > 0 {
        let prev = outcomes.drop_last();
        lemma_boot_succeeds(plan, prev);
        assert(outcomes.last() == outcomes[outcomes.len() - 1]);
        assert(boot_issued(plan, outcomes) =~= Seq::new(
            outcomes.len(),
            |i: int| step_spec(plan, i as nat),
        ));
    } else {
        assert(boot_issued(plan, outcomes) =~= Seq::new(
            outcomes.len(),
            |i: int| step_spec(plan, i as nat),
        ));
    }
}

/// A failure of the system PLL ends the boot sequence there, whatever is
/// reported after: the error names the system PLL, and the only steps handed
/// out are the oscillator, the watchdog tick and the system PLL itself, so no
/// derived clock is ever configured.
pub proof fn lemma_pll_sys_failure_stops(plan: ClockPlan, outcomes: Seq<bool>)
    requires
        plan.wf(),
        outcomes.len() >= 3,
        outcomes[0],
        !outcomes[2],
    ensures
        boot_run(plan, outcomes) == (2nat, Some(ClockError::PllSys)),
        boot_issued(plan, outcomes) == seq![
            step_spec(plan, 0),
            step_spec(plan, 1),
            step_spec(plan, 2),
        ],
        forall|i: int|
            0 <= i < boot_issued(plan, outcomes).len() ==> !(#[trigger] boot_issued(
                plan,
                outcomes,
            )[i] is Configure),
    decreases outcomes.len(),
{
    if outcomes.len() == 3 {
        let o0 = outcomes.take(1);
        let o1 = outcomes.take(2);
        assert(outcomes.drop_last() =~= o1);
        assert(o1.drop_last() =~= o0);
        assert(o0.drop_last() =~= Seq::<bool>::empty());
        assert(o0.len() == 1 && o0.last() == outcomes[0]);
        assert(o1.last() == outcomes[1] && outcomes.last() == outcomes[2]);
        assert(boot_run(plan, Seq::<bool>::empty()) == (0nat, None::<ClockError>));
        assert(boot_issued(plan, Seq::<bool>::empty()) == Seq::<ClockStep>::empty());
        assert(boot_run(plan, o0) == (1nat, None::<ClockError>));
        assert(boot_run(plan, o1) == (2nat, None::<ClockError>));
        assert(boot_issued(plan, o0) =~= seq![step_spec(plan, 0)]);
        assert(boot_issued(plan, o1) =~= seq![step_spec(plan, 0), step_spec(plan, 1)]);
        assert(boot_issued(plan, outcomes) =~= seq![
            step_spec(plan, 0),
            step_spec(plan, 1),
            step_spec(plan, 2),
        ]);
    } else {
        lemma_pll_sys_failure_stops(plan, outcomes.drop_last());
    }
    let issued = boot_issued(plan, outcomes);
    assert forall|i: int| 0 <= i < issued.len() implies !(#[trigger] issued[i] is Configure) by {
        assert(issued[i] == step_spec(plan, i as nat));
    }
}

} // verus!

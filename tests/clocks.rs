use eth_phy::clocks::{
    ClockBoot, ClockError, ClockPlan, ClockSource, ClockStep, DerivedClock, Pll, PllConfig,
    RunningClocks,
};

/// Runs the boot sequence, reporting `fail_at` (a step index) as failed and
/// every other step as done. Returns the steps handed out and the result.
fn run_boot(
    plan: ClockPlan,
    fail_at: Option<usize>,
) -> (Vec<ClockStep>, Option<Result<RunningClocks, ClockError>>) {
    let mut boot = ClockBoot::new(plan);
    let mut steps = Vec::new();
    while let Some(step) = boot.next_step() {
        assert_eq!(boot.result(), None);
        let ok = fail_at != Some(steps.len());
        steps.push(step);
        boot.report(ok);
    }
    (steps, boot.result())
}

#[test]
fn pll_output_frequencies() {
    assert_eq!(PllConfig::sys_100mhz().output_freq(), 100_000_000);
    assert_eq!(PllConfig::usb_48mhz().output_freq(), 48_000_000);
    let odd = PllConfig { vco_freq: 1_000_000_000, refdiv: 2, post_div1: 7, post_div2: 3 };
    assert_eq!(odd.output_freq(), 47_619_047);
}

#[test]
fn clock_arithmetic_board_plan() {
    let plan = ClockPlan::board_default();
    assert_eq!(plan.xosc_freq, 12_000_000);
    assert_eq!(plan.derived_freq(DerivedClock::System), 100_000_000);
    assert_eq!(plan.derived_freq(DerivedClock::Rtc), 46_875);
    let (steps, result) = run_boot(plan, None);
    assert_eq!(steps.len(), 11);
    let clocks = result.unwrap().unwrap();
    assert_eq!(clocks.reference, 12_000_000);
    assert_eq!(clocks.system, 100_000_000);
    assert_eq!(clocks.usb, 48_000_000);
    assert_eq!(clocks.adc, 48_000_000);
    assert_eq!(clocks.rtc, 46_875);
    assert_eq!(clocks.peripheral, 50_000_000);
    assert_eq!(clocks.gpio_output0, 50_000_000);
}

#[test]
fn watchdog_ticks_every_microsecond() {
    assert_eq!(ClockPlan::board_default().watchdog_cycles(), 12);
}

#[test]
fn boot_steps_in_dependency_order() {
    let plan = ClockPlan::board_default();
    let (steps, _) = run_boot(plan, None);
    let expected = vec![
        ClockStep::StartXosc { freq: 12_000_000 },
        ClockStep::WatchdogTick { cycles: 12 },
        ClockStep::StartPll { pll: Pll::System, config: PllConfig::sys_100mhz() },
        ClockStep::StartPll { pll: Pll::Usb, config: PllConfig::usb_48mhz() },
        ClockStep::Configure {
            clock: DerivedClock::Reference,
            source: ClockSource::Xosc,
            freq: 12_000_000,
        },
        ClockStep::Configure {
            clock: DerivedClock::System,
            source: ClockSource::PllSys,
            freq: 100_000_000,
        },
        ClockStep::Configure {
            clock: DerivedClock::Usb,
            source: ClockSource::PllUsb,
            freq: 48_000_000,
        },
        ClockStep::Configure {
            clock: DerivedClock::Adc,
            source: ClockSource::PllUsb,
            freq: 48_000_000,
        },
        ClockStep::Configure { clock: DerivedClock::Rtc, source: ClockSource::PllUsb, freq: 46_875 },
        ClockStep::Configure {
            clock: DerivedClock::Peripheral,
            source: ClockSource::SystemClock,
            freq: 50_000_000,
        },
        ClockStep::Configure {
            clock: DerivedClock::GpioOutput0,
            source: ClockSource::SystemClock,
            freq: 50_000_000,
        },
    ];
    assert_eq!(steps, expected);
}

#[test]
fn system_pll_failure_stops_boot() {
    let (steps, result) = run_boot(ClockPlan::board_default(), Some(2));
    assert_eq!(result, Some(Err(ClockError::PllSys)));
    assert_eq!(steps.len(), 3);
    assert!(steps.iter().all(|s| !matches!(s, ClockStep::Configure { .. })));
}

#[test]
fn oscillator_failure_stops_boot() {
    let (steps, result) = run_boot(ClockPlan::board_default(), Some(0));
    assert_eq!(result, Some(Err(ClockError::Xosc)));
    assert_eq!(steps.len(), 1);
}

#[test]
fn usb_pll_failure_stops_boot() {
    let (steps, result) = run_boot(ClockPlan::board_default(), Some(3));
    assert_eq!(result, Some(Err(ClockError::PllUsb)));
    assert_eq!(steps.len(), 4);
}

#[test]
fn derived_clock_failure_names_the_clock() {
    let (steps, result) = run_boot(ClockPlan::board_default(), Some(8));
    assert_eq!(result, Some(Err(ClockError::SubClock(DerivedClock::Rtc))));
    assert_eq!(steps.len(), 9);
    let (_, result) = run_boot(ClockPlan::board_default(), Some(10));
    assert_eq!(result, Some(Err(ClockError::SubClock(DerivedClock::GpioOutput0))));
}

#[test]
fn watchdog_failure_is_not_fatal() {
    let (steps, result) = run_boot(ClockPlan::board_default(), Some(1));
    assert_eq!(steps.len(), 11);
    assert_eq!(result.unwrap().unwrap().system, 100_000_000);
}

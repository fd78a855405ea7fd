use same70_hal::time::{
    cycles_of, Bps, Hertz, KiloHertz, MegaHertz, MicroSeconds, MilliSeconds, NanoSeconds,
    PicoSeconds, U32Ext,
};

#[test]
fn unit_wrappers_keep_the_magnitude() {
    assert_eq!(9600u32.bps(), Bps(9600));
    assert_eq!(50u32.hz(), Hertz(50));
    assert_eq!(12u32.khz(), KiloHertz(12));
    assert_eq!(150u32.mhz(), MegaHertz(150));
    assert_eq!(7u32.ms(), MilliSeconds(7));
    assert_eq!(8u32.us(), MicroSeconds(8));
    assert_eq!(9u32.ns(), NanoSeconds(9));
    assert_eq!(10u32.ps(), PicoSeconds(10));
}

#[test]
fn frequency_units_convert_by_thousands() {
    assert_eq!(12u32.khz().to_hertz(), Hertz(12_000));
    assert_eq!(150u32.mhz().to_hertz(), Hertz(150_000_000));
    assert_eq!(150u32.mhz().to_kilohertz(), KiloHertz(150_000));
    assert_eq!(4_294u32.mhz().to_hertz(), Hertz(4_294_000_000));
}

#[test]
fn duration_units_convert_by_thousands() {
    assert_eq!(70u32.ns().to_picos(), PicoSeconds(70_000));
    assert_eq!(200u32.us().to_picos(), PicoSeconds(200_000_000));
    assert_eq!(4_294u32.us().to_picos(), PicoSeconds(4_294_000_000));
}

#[test]
fn periods_of_frequencies() {
    assert_eq!(Hertz(50).period_ms(), MilliSeconds(20));
    assert_eq!(Hertz(1_000).period_ms(), MilliSeconds(1));
    assert_eq!(Hertz(3).period_ms(), MilliSeconds(333));
    assert_eq!(Hertz(100_000_000).period_ns(), NanoSeconds(10));
    assert_eq!(Hertz(1_000_000_000).period_ns(), NanoSeconds(1));
    assert_eq!(Hertz(100_000_000).period_ps(), PicoSeconds(10_000));
    assert_eq!(Hertz(150_000_000).period_ps(), PicoSeconds(6_666));
    assert_eq!(Hertz(233).period_ps(), PicoSeconds(4_291_845_493));
}

#[test]
fn frequencies_of_periods() {
    assert_eq!(MilliSeconds(20).frequency(), Hertz(50));
    assert_eq!(MilliSeconds(1_000).frequency(), Hertz(1));
    assert_eq!(NanoSeconds(10).frequency(), Hertz(100_000_000));
    assert_eq!(PicoSeconds(10_000).frequency(), Hertz(100_000_000));
    assert_eq!(PicoSeconds(233).frequency(), Hertz(4_291_845_493));
}

#[test]
fn checked_period_refuses_what_does_not_fit() {
    assert_eq!(Hertz(0).checked_period_ps(), None);
    assert_eq!(Hertz(1).checked_period_ps(), None);
    assert_eq!(Hertz(232).checked_period_ps(), None);
    assert_eq!(Hertz(233).checked_period_ps(), Some(PicoSeconds(4_291_845_493)));
    assert_eq!(Hertz(u32::MAX).checked_period_ps(), Some(PicoSeconds(232)));
}

#[test]
fn a_period_longer_than_the_target_takes_one_cycle() {
    assert_eq!(PicoSeconds(10_000).cycles(PicoSeconds(0)), 1);
    assert_eq!(PicoSeconds(10_000).cycles(PicoSeconds(1)), 1);
    assert_eq!(PicoSeconds(10_000).cycles(PicoSeconds(9_999)), 1);
    assert_eq!(PicoSeconds(u32::MAX).cycles(PicoSeconds(5)), 1);
}

#[test]
fn cycles_round_up_beyond_one_nanosecond() {
    assert_eq!(PicoSeconds(10_000).cycles(PicoSeconds(10_000)), 1);
    assert_eq!(PicoSeconds(10_000).cycles(PicoSeconds(20_000)), 2);
    assert_eq!(PicoSeconds(10_000).cycles(PicoSeconds(20_999)), 2);
    assert_eq!(PicoSeconds(10_000).cycles(PicoSeconds(21_000)), 3);
    assert_eq!(PicoSeconds(10_000).cycles(PicoSeconds(25_000)), 3);
    assert_eq!(PicoSeconds(10_000).cycles(PicoSeconds(29_999)), 3);
    assert_eq!(PicoSeconds(6_666).cycles(PicoSeconds(60_000)), 9);
    assert_eq!(PicoSeconds(6_666).cycles(PicoSeconds(70_000)), 11);
}

#[test]
fn cycles_at_the_ends_of_the_range() {
    assert_eq!(PicoSeconds(1).cycles(PicoSeconds(u32::MAX)), u32::MAX);
    assert_eq!(PicoSeconds(1).cycles(PicoSeconds(0)), 1);
    assert_eq!(PicoSeconds(2).cycles(PicoSeconds(u32::MAX)), 2_147_483_647);
    assert_eq!(PicoSeconds(u32::MAX).cycles(PicoSeconds(u32::MAX)), 1);
    assert_eq!(PicoSeconds(2_000).cycles(PicoSeconds(u32::MAX)), 2_147_484);
}

#[test]
fn cycles_never_zero_and_never_fall_as_the_target_grows() {
    let periods = [1u32, 2, 999, 1_000, 1_001, 6_666, 10_000, 123_457];
    for period in periods {
        let mut last = 0u32;
        let mut target = 0u32;
        while target < 400_000 {
            let n = PicoSeconds(period).cycles(PicoSeconds(target));
            assert!(n >= 1);
            assert!(n >= last);
            last = n;
            target += 37;
        }
    }
}

#[test]
fn cycles_of_a_clock() {
    assert_eq!(cycles_of(Hertz(100_000_000), PicoSeconds(1_280_000)), Some(128));
    assert_eq!(cycles_of(Hertz(150_000_000), PicoSeconds(15_625_000)), Some(2_344));
    assert_eq!(cycles_of(Hertz(0), PicoSeconds(1_280_000)), None);
    assert_eq!(cycles_of(Hertz(232), PicoSeconds(1_280_000)), None);
    assert_eq!(cycles_of(Hertz(233), PicoSeconds(1_280_000)), Some(1));
}

#[test]
fn durations_compare_by_magnitude() {
    assert!(PicoSeconds(5) < PicoSeconds(6));
    assert!(NanoSeconds(7) > NanoSeconds(6));
    assert!(MicroSeconds(7) >= MicroSeconds(7));
    assert!(MilliSeconds(1) != MilliSeconds(2));
}

use same70_hal::sdram::{
    bring_up_ops, calc_config_fields, InvalidConfig, Sdram, SdramAlignment, SdramBanks,
    SdramCasLatency, SdramColumns, SdramConfig, SdramConfigFields, SdramMode, SdramOp, SdramPins,
    SdramRows, SdramSequencerState, SdramTiming,
};
use same70_hal::time::{Hertz, PicoSeconds};

const CLK: Hertz = Hertz(150_000_000);

struct MemoryPins;

impl SdramPins for MemoryPins {}

fn plan(config: SdramConfig, clk: Hertz) -> Result<(Sdram, Vec<SdramOp>), InvalidConfig> {
    Sdram::setup(&MemoryPins, config, clk)
}

fn sample_timing() -> SdramTiming {
    SdramTiming {
        twr: PicoSeconds(12_000),
        trc: PicoSeconds(60_000),
        trp: PicoSeconds(18_000),
        trcd: PicoSeconds(18_000),
        tras: PicoSeconds(42_000),
        txsr: PicoSeconds(70_000),
        refresh: PicoSeconds(15_625_000),
    }
}

fn sample_config() -> SdramConfig {
    SdramConfig {
        banks: SdramBanks::Bank4,
        rows: SdramRows::Rows8K,
        columns: SdramColumns::Columns2K,
        alignment: SdramAlignment::Unaligned,
        latency: Some(SdramCasLatency::Latency3),
        timing: sample_timing(),
    }
}

fn sample_fields() -> SdramConfigFields {
    SdramConfigFields {
        nc: SdramColumns::Columns2K,
        nr: SdramRows::Rows8K,
        nb: SdramBanks::Bank4,
        dbw: true,
        cas: Some(SdramCasLatency::Latency3),
        twr: 2,
        trc_trfc: 9,
        trp: 3,
        trcd: 3,
        tras: 7,
        txsr: 11,
    }
}

fn step(mode: SdramMode, payload: u32) -> Vec<SdramOp> {
    vec![
        SdramOp::WriteMode(mode),
        SdramOp::ReadMode,
        SdramOp::Barrier,
        SdramOp::WriteMemory(payload),
        SdramOp::Barrier,
    ]
}

fn expected_bring_up() -> Vec<SdramOp> {
    let mut ops = Vec::new();
    ops.extend(step(SdramMode::Nop, 0));
    ops.extend(step(SdramMode::AllBanksPrecharge, 1));
    for i in 0..8 {
        ops.extend(step(SdramMode::AutoRefresh, i));
    }
    ops.extend(step(SdramMode::LoadModeRegister, 2));
    ops.extend(step(SdramMode::Normal, 3));
    ops
}

#[test]
fn addressing_bits_are_the_logarithms() {
    assert_eq!(SdramColumns::Columns256.addressing_bits(), 8);
    assert_eq!(SdramColumns::Columns512.addressing_bits(), 9);
    assert_eq!(SdramColumns::Columns1K.addressing_bits(), 10);
    assert_eq!(SdramColumns::Columns2K.addressing_bits(), 11);
    assert_eq!(SdramRows::Rows2K.addressing_bits(), 11);
    assert_eq!(SdramRows::Rows4K.addressing_bits(), 12);
    assert_eq!(SdramRows::Rows8K.addressing_bits(), 13);
    assert_eq!(SdramBanks::Bank2.addressing_bits(), 1);
    assert_eq!(SdramBanks::Bank4.addressing_bits(), 2);
}

#[test]
fn largest_memory_has_twenty_six_address_bits() {
    let config = sample_config();
    let bits = config.banks.addressing_bits()
        + config.rows.addressing_bits()
        + config.columns.addressing_bits();
    assert_eq!(bits, 2 + 13 + 11);
    let (sdram, _) = plan(config, CLK).unwrap();
    assert_eq!(sdram.size(), 1 << 26);
    assert_eq!(sdram.size(), 67_108_864);
    assert_eq!(sdram.start_address(), 0x7000_0000);
    assert_eq!(sdram.mode(), SdramMode::Normal);
}

#[test]
fn smallest_memory_has_twenty_address_bits() {
    let config = SdramConfig {
        banks: SdramBanks::Bank2,
        rows: SdramRows::Rows2K,
        columns: SdramColumns::Columns256,
        ..sample_config()
    };
    let (sdram, _) = plan(config, CLK).unwrap();
    assert_eq!(sdram.size(), 1 << 20);
}

#[test]
fn sequencer_states_follow_one_another() {
    let mut state = SdramSequencerState::Idle;
    let mut seen = vec![state];
    while !state.is_terminal() {
        state = state.next();
        seen.push(state);
    }
    let mut expected = vec![
        SdramSequencerState::Idle,
        SdramSequencerState::CommandNop,
        SdramSequencerState::PrechargeAllBanks,
    ];
    for iteration in 0..8 {
        expected.push(SdramSequencerState::AutoRefresh { iteration });
    }
    expected.push(SdramSequencerState::LoadModeRegister);
    expected.push(SdramSequencerState::Normal);
    assert_eq!(seen, expected);
    assert_eq!(SdramSequencerState::Normal.next(), SdramSequencerState::Normal);
    assert!(SdramSequencerState::Normal.is_terminal());
    assert!(!SdramSequencerState::LoadModeRegister.is_terminal());
}

#[test]
fn each_step_is_mode_write_read_back_barrier_dummy_write_and_barrier() {
    assert_eq!(SdramSequencerState::Idle.step_ops(), Vec::new());
    assert_eq!(SdramSequencerState::CommandNop.step_ops(), step(SdramMode::Nop, 0));
    assert_eq!(
        SdramSequencerState::PrechargeAllBanks.step_ops(),
        step(SdramMode::AllBanksPrecharge, 1)
    );
    assert_eq!(
        SdramSequencerState::AutoRefresh { iteration: 5 }.step_ops(),
        step(SdramMode::AutoRefresh, 5)
    );
    assert_eq!(
        SdramSequencerState::LoadModeRegister.step_ops(),
        step(SdramMode::LoadModeRegister, 2)
    );
    assert_eq!(SdramSequencerState::Normal.step_ops(), step(SdramMode::Normal, 3));
}

#[test]
fn bring_up_emits_twelve_dummy_writes_in_the_fixed_order() {
    let ops = bring_up_ops();
    assert_eq!(ops, expected_bring_up());
    assert_eq!(ops.len(), 60);

    let commands: Vec<SdramMode> = ops
        .iter()
        .filter_map(|op| match op {
            SdramOp::WriteMode(mode) => Some(*mode),
            _ => None,
        })
        .collect();
    let mut expected = vec![SdramMode::Nop, SdramMode::AllBanksPrecharge];
    expected.extend([SdramMode::AutoRefresh; 8]);
    expected.push(SdramMode::LoadModeRegister);
    expected.push(SdramMode::Normal);
    assert_eq!(commands, expected);

    let payloads: Vec<u32> = ops
        .iter()
        .filter_map(|op| match op {
            SdramOp::WriteMemory(word) => Some(*word),
            _ => None,
        })
        .collect();
    assert_eq!(payloads, vec![0, 1, 0, 1, 2, 3, 4, 5, 6, 7, 2, 3]);
    assert_eq!(payloads.len(), 1 + 1 + 8 + 1 + 1);

    // every dummy write has its mode write and a barrier before it, and a
    // barrier right after it
    for (i, op) in ops.iter().enumerate() {
        if matches!(op, SdramOp::WriteMemory(_)) {
            assert!(matches!(ops[i - 3], SdramOp::WriteMode(_)));
            assert_eq!(ops[i - 2], SdramOp::ReadMode);
            assert_eq!(ops[i - 1], SdramOp::Barrier);
            assert_eq!(ops[i + 1], SdramOp::Barrier);
        }
    }
}

#[test]
fn no_step_begins_before_the_last_dummy_write_is_behind_a_barrier() {
    let (_, ops) = plan(sample_config(), CLK).unwrap();
    let mut written = false;
    let mut mode_writes = 0;
    for op in ops.iter() {
        match op {
            SdramOp::WriteMemory(_) => written = true,
            SdramOp::Barrier => written = false,
            SdramOp::WriteMode(_) | SdramOp::WriteRefreshTimer(_) | SdramOp::SetAlignment(_) => {
                assert!(!written);
                mode_writes += 1;
            }
            _ => {}
        }
    }
    assert_eq!(mode_writes, 12 + 2);
    assert_eq!(ops[6], SdramOp::WriteMemory(0));
    assert_eq!(ops[7], SdramOp::Barrier);
    assert_eq!(ops[8], SdramOp::WriteMode(SdramMode::AllBanksPrecharge));
}

#[test]
fn config_fields_hold_the_delays_in_cycles() {
    assert_eq!(calc_config_fields(CLK, &sample_config()), Ok(sample_fields()));
    let config = SdramConfig { latency: None, ..sample_config() };
    assert_eq!(
        calc_config_fields(CLK, &config),
        Ok(SdramConfigFields { cas: None, ..sample_fields() })
    );
}

#[test]
fn timing_fields_are_four_bits_wide() {
    let at_most = PicoSeconds(15 * 6_666 + 999);
    let too_long = PicoSeconds(15 * 6_666 + 1_000);
    let config = |timing| SdramConfig { timing, ..sample_config() };
    let fields = calc_config_fields(CLK, &config(SdramTiming { twr: at_most, ..sample_timing() }));
    assert_eq!(fields.map(|f| f.twr), Ok(15));
    for timing in [
        SdramTiming { twr: too_long, ..sample_timing() },
        SdramTiming { trc: too_long, ..sample_timing() },
        SdramTiming { trp: too_long, ..sample_timing() },
        SdramTiming { trcd: too_long, ..sample_timing() },
        SdramTiming { tras: too_long, ..sample_timing() },
        SdramTiming { txsr: too_long, ..sample_timing() },
    ] {
        assert_eq!(calc_config_fields(CLK, &config(timing)), Err(InvalidConfig));
        assert_eq!(plan(config(timing), CLK).map(|_| ()), Err(InvalidConfig));
    }
}

#[test]
fn setup_plans_the_whole_bring_up() {
    let (_, ops) = plan(sample_config(), CLK).unwrap();
    let mut expected = vec![
        SdramOp::WriteConfig(sample_fields()),
        SdramOp::SelectSdramDevice,
        SdramOp::DelayUs(200),
    ];
    expected.extend(expected_bring_up());
    expected.push(SdramOp::WriteRefreshTimer(2_344));
    expected.push(SdramOp::SetAlignment(SdramAlignment::Unaligned));
    assert_eq!(ops, expected);
    assert_eq!(ops.len(), 65);
}

#[test]
fn refresh_count_has_to_fit_sixteen_bits() {
    let config = |refresh| SdramConfig {
        timing: SdramTiming { refresh, ..sample_timing() },
        ..sample_config()
    };
    let (_, ops) = plan(config(PicoSeconds(65_535 * 6_666)), CLK).unwrap();
    assert_eq!(ops[63], SdramOp::WriteRefreshTimer(65_535));
    assert_eq!(
        plan(config(PicoSeconds(65_536 * 6_666)), CLK).map(|_| ()),
        Err(InvalidConfig)
    );
    let (_, ops) = plan(config(PicoSeconds(0)), CLK).unwrap();
    assert_eq!(ops[63], SdramOp::WriteRefreshTimer(1));
}

#[test]
fn setup_refuses_a_clock_without_a_period() {
    assert_eq!(plan(sample_config(), Hertz(0)).map(|_| ()), Err(InvalidConfig));
    assert_eq!(plan(sample_config(), Hertz(232)).map(|_| ()), Err(InvalidConfig));
    assert!(plan(sample_config(), Hertz(233)).is_ok());
}

#[test]
fn alignment_comes_last() {
    let config = SdramConfig { alignment: SdramAlignment::Aligned, ..sample_config() };
    let (_, ops) = plan(config, CLK).unwrap();
    assert_eq!(ops.last(), Some(&SdramOp::SetAlignment(SdramAlignment::Aligned)));
}

#[test]
fn set_mode_records_the_mode_and_gives_the_write() {
    let (mut sdram, _) = plan(sample_config(), CLK).unwrap();
    let op = sdram.set_mode(SdramMode::DeepPowerdown);
    assert_eq!(op, SdramOp::WriteMode(SdramMode::DeepPowerdown));
    assert_eq!(sdram.mode(), SdramMode::DeepPowerdown);
    assert_eq!(sdram.size(), 1 << 26);
    assert_eq!(sdram.start_address(), 0x7000_0000);
}

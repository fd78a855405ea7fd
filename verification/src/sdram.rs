//! SDRAM controller: its configuration fields and the bring-up sequence.

use vstd::prelude::*;
use vstd::arithmetic::power2::pow2;
use vstd::arithmetic::power2::lemma2_to64;
use crate::field::field_mask;
use crate::time::cycles_of;
use crate::time::delay_cycles;
use crate::time::Hertz;
use crate::time::PicoSeconds;

verus! {

/// The address at which the hardware maps the SDRAM.
pub const SDRAM_START_ADDRESS: u32 = 0x7000_0000;

/// Width of each timing field of the configuration register.
pub const TIMING_FIELD_WIDTH: u32 = 4;

/// Width of the count of the refresh timer register.
pub const REFRESH_COUNT_WIDTH: u32 = 16;

/// The pause, in microseconds, between the configuration of the controller
/// and the first command to the memory.
pub const STARTUP_DELAY_US: u32 = 200;

/// The number of auto-refresh cycles that the memory needs before its mode
/// register is loaded.
pub const AUTO_REFRESH_CYCLES: u8 = 8;

/// The number of steps from power-on to normal operation.
pub const BRING_UP_STEPS: u8 = 12;

/// The number of operations of one step.
pub const STEP_OPERATIONS: u8 = 5;

/// The number of columns of the memory.
#[derive(Debug, Copy, Clone, PartialEq, Eq, Structural)]
pub enum SdramColumns {
    Columns256,
    Columns512,
    Columns1K,
    Columns2K,
}

impl SdramColumns {
    /// The number of address bits that select a column.
    pub open spec fn bits(self) -> nat {
        match self {
            SdramColumns::Columns256 => 8,
            SdramColumns::Columns512 => 9,
            SdramColumns::Columns1K => 10,
            SdramColumns::Columns2K => 11,
        }
    }

    /// The number of address bits that select a column: the logarithm of
    /// the number of columns.
    pub fn addressing_bits(&self) -> (bits: u32)
        ensures
            bits == self.bits(),
    {
        match self {
            SdramColumns::Columns256 => 8,
            SdramColumns::Columns512 => 9,
            SdramColumns::Columns1K => 10,
            SdramColumns::Columns2K => 11,
        }
    }
}

/// The number of rows of the memory.
#[derive(Debug, Copy, Clone, PartialEq, Eq, Structural)]
pub enum SdramRows {
    Rows2K,
    Rows4K,
    Rows8K,
}

impl SdramRows {
    /// The number of address bits that select a row.
    pub open spec fn bits(self) -> nat {
        match self {
            SdramRows::Rows2K => 11,
            SdramRows::Rows4K => 12,
            SdramRows::Rows8K => 13,
        }
    }

    /// The number of address bits that select a row: the logarithm of the
    /// number of rows.
    pub fn addressing_bits(&self) -> (bits: u32)
        ensures
            bits == self.bits(),
    {
        match self {
            SdramRows::Rows2K => 11,
            SdramRows::Rows4K => 12,
            SdramRows::Rows8K => 13,
        }
    }
}

/// The number of banks of the memory.
#[derive(Debug, Copy, Clone, PartialEq, Eq, Structural)]
pub enum SdramBanks {
    Bank2,
    Bank4,
}

impl SdramBanks {
    /// The number of address bits that select a bank.
    pub open spec fn bits(self) -> nat {
        match self {
            SdramBanks::Bank2 => 1,
            SdramBanks::Bank4 => 2,
        }
    }

    /// The number of address bits that select a bank: the logarithm of the
    /// number of banks.
    pub fn addressing_bits(&self) -> (bits: u32)
        ensures
            bits == self.bits(),
    {
        match self {
            SdramBanks::Bank2 => 1,
            SdramBanks::Bank4 => 2,
        }
    }
}

/// The number of cycles between a column command and its data.
#[derive(Debug, Copy, Clone, PartialEq, Eq, Structural)]
pub enum SdramCasLatency {
    Latency1,
    Latency2,
    Latency3,
}

/// Whether accesses have to be aligned to their size.
#[derive(Debug, Copy, Clone, PartialEq, Eq, Structural)]
pub enum SdramAlignment {
    Aligned,
    Unaligned,
}

/// The delays that the memory asks for.
#[derive(Debug, Copy, Clone, PartialEq, Eq, Structural)]
pub struct SdramTiming {
    /// Write recovery.
    pub twr: PicoSeconds,
    /// Row cycle.
    pub trc: PicoSeconds,
    /// Row precharge.
    pub trp: PicoSeconds,
    /// Row to column.
    pub trcd: PicoSeconds,
    /// Row active.
    pub tras: PicoSeconds,
    /// Exit from self refresh to active.
    pub txsr: PicoSeconds,
    /// The interval between two refreshes.
    pub refresh: PicoSeconds,
}

/// The configuration of the memory.
#[derive(Debug, Copy, Clone, PartialEq, Eq, Structural)]
pub struct SdramConfig {
    pub banks: SdramBanks,
    pub rows: SdramRows,
    pub columns: SdramColumns,
    pub alignment: SdramAlignment,
    /// `None` leaves the latency of the controller as it is.
    pub latency: Option<SdramCasLatency>,
    pub timing: SdramTiming,
}

impl SdramConfig {
    /// The number of address bits of the memory: those of its banks, rows
    /// and columns.
    pub open spec fn addressing_bits(self) -> nat {
        self.banks.bits() + self.rows.bits() + self.columns.bits()
    }

    /// The number of addresses of the memory.
    pub open spec fn addressable_size(self) -> nat {
        pow2(self.addressing_bits())
    }
}

/// A delay that does not fit its field, or a clock whose period cannot be
/// told in picoseconds.
#[derive(Debug, Copy, Clone, PartialEq, Eq, Structural)]
pub struct InvalidConfig;

/// Trait to implement for Pin Configuration
pub trait SdramPins {

}

/// The commands of the mode register of the controller.
#[derive(Debug, Copy, Clone, PartialEq, Eq, Structural)]
pub enum SdramMode {
    Normal,
    Nop,
    AllBanksPrecharge,
    LoadModeRegister,
    AutoRefresh,
    ExtLoadModeRegister,
    DeepPowerdown,
}

/// The fields of the configuration register of the controller.
#[derive(Debug, Copy, Clone, PartialEq, Eq, Structural)]
pub struct SdramConfigFields {
    pub nc: SdramColumns,
    pub nr: SdramRows,
    pub nb: SdramBanks,
    /// Whether the data bus is 16 bits wide.
    pub dbw: bool,
    /// The latency; `None` leaves the field at its reset value.
    pub cas: Option<SdramCasLatency>,
    pub twr: u8,
    pub trc_trfc: u8,
    pub trp: u8,
    pub trcd: u8,
    pub tras: u8,
    pub txsr: u8,
}

/// One step of the bring-up of the memory. The steps reach the hardware one
/// by one, in the order of the sequence.
#[derive(Debug, Copy, Clone, PartialEq, Eq, Structural)]
pub enum SdramOp {
    /// A write of the configuration register.
    WriteConfig(SdramConfigFields),
    /// A write of the memory device register, which selects SDRAM.
    SelectSdramDevice,
    /// A busy wait of so many microseconds.
    DelayUs(u32),
    /// A write of the mode register.
    WriteMode(SdramMode),
    /// A read of the mode register. What is read is not used: the read
    /// makes the write before it complete.
    ReadMode,
    /// A data memory barrier.
    Barrier,
    /// A write of a 32-bit word to the start address of the memory.
    WriteMemory(u32),
    /// A write of the count of the refresh timer register.
    WriteRefreshTimer(u16),
    /// A change of the alignment mode, all else in its register kept.
    SetAlignment(SdramAlignment),
}

/// How far the bring-up of the memory has come. The states follow one
/// another in the order in which they stand here, the auto-refresh state
/// once for each of its iterations, and there is no way back.
#[derive(Debug, Copy, Clone, PartialEq, Eq, Structural)]
pub enum SdramSequencerState {
    Idle,
    CommandNop,
    PrechargeAllBanks,
    AutoRefresh { iteration: u8 },
    LoadModeRegister,
    Normal,
}

impl SdramSequencerState {
    /// Whether the state is one of the progression: an auto-refresh state
    /// counts one of the iterations that there are.
    pub open spec fn wf(self) -> bool {
        self matches SdramSequencerState::AutoRefresh { iteration } ==> iteration
            < AUTO_REFRESH_CYCLES
    }

    /// The number of steps that lead from `Idle` to the state.
    pub open spec fn rank(self) -> nat {
        match self {
            SdramSequencerState::Idle => 0,
            SdramSequencerState::CommandNop => 1,
            SdramSequencerState::PrechargeAllBanks => 2,
            SdramSequencerState::AutoRefresh { iteration } => 3 + iteration as nat,
            SdramSequencerState::LoadModeRegister => 3 + AUTO_REFRESH_CYCLES as nat,
            SdramSequencerState::Normal => 4 + AUTO_REFRESH_CYCLES as nat,
        }
    }

    /// The state that follows. `Normal` is followed by itself.
    pub open spec fn successor(self) -> Self {
        match self {
            SdramSequencerState::Idle => SdramSequencerState::CommandNop,
            SdramSequencerState::CommandNop => SdramSequencerState::PrechargeAllBanks,
            SdramSequencerState::PrechargeAllBanks => SdramSequencerState::AutoRefresh {
                iteration: 0,
            },
            SdramSequencerState::AutoRefresh { iteration } => if iteration + 1
                < AUTO_REFRESH_CYCLES {
                SdramSequencerState::AutoRefresh { iteration: (iteration + 1) as u8 }
            } else {
                SdramSequencerState::LoadModeRegister
            },
            SdramSequencerState::LoadModeRegister => SdramSequencerState::Normal,
            SdramSequencerState::Normal => SdramSequencerState::Normal,
        }
    }

    /// The command that the step into the state gives to the controller.
    /// No step leads into `Idle`.
    pub open spec fn command(self) -> Option<SdramMode> {
        match self {
            SdramSequencerState::Idle => None,
            SdramSequencerState::CommandNop => Some(SdramMode::Nop),
            SdramSequencerState::PrechargeAllBanks => Some(SdramMode::AllBanksPrecharge),
            SdramSequencerState::AutoRefresh { iteration } => Some(SdramMode::AutoRefresh),
            SdramSequencerState::LoadModeRegister => Some(SdramMode::LoadModeRegister),
            SdramSequencerState::Normal => Some(SdramMode::Normal),
        }
    }

    /// The word that the step into the state writes to the memory. The
    /// auto-refresh steps write the number of their iteration.
    pub open spec fn payload(self) -> u32 {
        match self {
            SdramSequencerState::Idle => 0,
            SdramSequencerState::CommandNop => 0,
            SdramSequencerState::PrechargeAllBanks => 1,
            SdramSequencerState::AutoRefresh { iteration } => iteration as u32,
            SdramSequencerState::LoadModeRegister => 2,
            SdramSequencerState::Normal => 3,
        }
    }

    /// The step into the state: the command is written to the mode
    /// register, the mode register is read back, a barrier makes the write
    /// visible, and one word is written to the memory. A second barrier
    /// closes the step, so that the write to the memory is through before
    /// the next step begins.
    pub open spec fn step(self) -> Seq<SdramOp> {
        match self.command() {
            None => Seq::empty(),
            Some(mode) => seq![
                SdramOp::WriteMode(mode),
                SdramOp::ReadMode,
                SdramOp::Barrier,
                SdramOp::WriteMemory(self.payload()),
                SdramOp::Barrier,
            ],
        }
    }

    /// The steps that lead from the state to `Normal`.
    pub open spec fn remaining_steps(self) -> Seq<SdramOp>
        decreases BRING_UP_STEPS - self.rank(),
    {
        if self.wf() && self != SdramSequencerState::Normal {
            self.successor().step() + self.successor().remaining_steps()
        } else {
            Seq::empty()
        }
    }

    /// Whether the bring-up is over.
    pub fn is_terminal(&self) -> (terminal: bool)
        ensures
            terminal == (*self == SdramSequencerState::Normal),
    {
        match self {
            SdramSequencerState::Normal => true,
            _ => false,
        }
    }

    /// The state that follows.
    pub fn next(self) -> (state: Self)
        ensures
            state == self.successor(),
            state.wf(),
            self.wf() && self != SdramSequencerState::Normal ==> state.rank() == self.rank() + 1,
    {
        match self {
            SdramSequencerState::Idle => SdramSequencerState::CommandNop,
            SdramSequencerState::CommandNop => SdramSequencerState::PrechargeAllBanks,
            SdramSequencerState::PrechargeAllBanks => SdramSequencerState::AutoRefresh {
                iteration: 0,
            },
            SdramSequencerState::AutoRefresh { iteration } => {
                if iteration < AUTO_REFRESH_CYCLES - 1 {
                    SdramSequencerState::AutoRefresh { iteration: iteration + 1 }
                } else {
                    SdramSequencerState::LoadModeRegister
                }
            },
            SdramSequencerState::LoadModeRegister => SdramSequencerState::Normal,
            SdramSequencerState::Normal => SdramSequencerState::Normal,
        }
    }

    /// The step into the state, as the operations to carry out.
    pub fn step_ops(&self) -> (ops: Vec<SdramOp>)
        ensures
            ops@ == self.step(),
    {
        let (mode, payload): (SdramMode, u32) = match self {
            SdramSequencerState::Idle => {
                return Vec::new();
            },
            SdramSequencerState::CommandNop => (SdramMode::Nop, 0),
            SdramSequencerState::PrechargeAllBanks => (SdramMode::AllBanksPrecharge, 1),
            SdramSequencerState::AutoRefresh { iteration } => (
                SdramMode::AutoRefresh,
                *iteration as u32,
            ),
            SdramSequencerState::LoadModeRegister => (SdramMode::LoadModeRegister, 2),
            SdramSequencerState::Normal => (SdramMode::Normal, 3),
        };
        // each step:
        //     set mode
        //     read mode
        //     mem barrier
        //     write to sdram
        //     mem barrier
        let mut ops: Vec<SdramOp> = Vec::new();
        ops.push(SdramOp::WriteMode(mode));
        ops.push(SdramOp::ReadMode);
        ops.push(SdramOp::Barrier);
        ops.push(SdramOp::WriteMemory(payload));
        ops.push(SdramOp::Barrier);
        ops
    }
}

/// The steps that lead the memory from power-on to normal operation.
pub open spec fn bring_up_sequence() -> Seq<SdramOp> {
    SdramSequencerState::Idle.remaining_steps()
}

/// The steps that lead the memory from power-on to normal operation, as the
/// operations to carry out.
pub fn bring_up_ops() -> (ops: Vec<SdramOp>)
    ensures
        ops@ == bring_up_sequence(),
{
    let mut state = SdramSequencerState::Idle;
    let mut ops: Vec<SdramOp> = Vec::new();
    while !state.is_terminal()
        invariant
            state.wf(),
            ops@ + state.remaining_steps() == bring_up_sequence(),
        decreases BRING_UP_STEPS - state.rank(),
    {
        let ghost before = ops@;
        state = state.next();
        let mut step: Vec<SdramOp> = state.step_ops();
        ops.append(&mut step);
        proof {
            assert(ops@ == before + state.step());
            assert((before + state.step()) + state.remaining_steps() == before + (state.step()
                + state.remaining_steps()));
        }
    }
    proof {
        assert(ops@ + Seq::<SdramOp>::empty() == ops@);
    }
    ops
}

/// The state that `rank` steps lead to from `Idle`.
pub open spec fn state_at(rank: nat) -> SdramSequencerState {
    if rank == 0 {
        SdramSequencerState::Idle
    } else if rank == 1 {
        SdramSequencerState::CommandNop
    } else if rank == 2 {
        SdramSequencerState::PrechargeAllBanks
    } else if rank < 3 + AUTO_REFRESH_CYCLES {
        SdramSequencerState::AutoRefresh { iteration: (rank - 3) as u8 }
    } else if rank == 3 + AUTO_REFRESH_CYCLES {
        SdramSequencerState::LoadModeRegister
    } else {
        SdramSequencerState::Normal
    }
}

/// The operation at place `i` of the bring-up: the five operations of the
/// first step, then those of the second, and so on.
pub open spec fn bring_up_op(i: int) -> SdramOp {
    let entered = state_at((i / STEP_OPERATIONS as int + 1) as nat);
    let place = i % STEP_OPERATIONS as int;
    if place == 0 {
        SdramOp::WriteMode(entered.command().unwrap())
    } else if place == 1 {
        SdramOp::ReadMode
    } else if place == 3 {
        SdramOp::WriteMemory(entered.payload())
    } else {
        SdramOp::Barrier
    }
}

/// Every step leads to the next state of the progression, and `Normal` is
/// never left.
pub proof fn lemma_progression_is_one_way(state: SdramSequencerState)
    requires
        state.wf(),
    ensures
        state.successor().wf(),
        state == state_at(state.rank()),
        state != SdramSequencerState::Normal ==> state.successor().rank() == state.rank() + 1,
        state == SdramSequencerState::Normal ==> state.successor() == state,
        state.rank() <= BRING_UP_STEPS,
        state.rank() == BRING_UP_STEPS <==> state == SdramSequencerState::Normal,
{
}

proof fn lemma_remaining_steps(state: SdramSequencerState)
    requires
        state.wf(),
    ensures
        state.remaining_steps().len() == STEP_OPERATIONS * (BRING_UP_STEPS - state.rank()),
        forall|i: int|
            0 <= i < state.remaining_steps().len() ==> #[trigger] state.remaining_steps()[i]
                == bring_up_op(STEP_OPERATIONS * state.rank() + i),
    decreases BRING_UP_STEPS - state.rank(),
{
    lemma_progression_is_one_way(state);
    if state != SdramSequencerState::Normal {
        let next = state.successor();
        lemma_remaining_steps(next);
        lemma_progression_is_one_way(next);
        assert(next.step().len() == STEP_OPERATIONS);
        assert forall|i: int| 0 <= i < state.remaining_steps().len() implies #[trigger] state.remaining_steps()[i]
            == bring_up_op(STEP_OPERATIONS * state.rank() + i) by {
            if i < STEP_OPERATIONS {
                assert(state.remaining_steps()[i] == next.step()[i]);
                assert((5 * state.rank() + i) / 5 == state.rank());
                assert((5 * state.rank() + i) % 5 == i);
            } else {
                assert(state.remaining_steps()[i] == next.remaining_steps()[i - STEP_OPERATIONS]);
            }
        }
    }
}

/// The bring-up is twelve steps of five operations each: a write of the
/// mode register, a read of it, a barrier, one write to the memory, and a
/// barrier. The commands are NOP, all-banks precharge, eight times
/// auto-refresh, load mode register, and normal, in this order. So there
/// are twelve writes to the memory, each with the write of its command
/// three places before it, a barrier right before it and a barrier right
/// after it, and no step begins before the write of the step before it is
/// followed by a barrier.
pub proof fn lemma_bring_up_order()
    ensures
        bring_up_sequence() == Seq::new(
            (STEP_OPERATIONS * BRING_UP_STEPS) as nat,
            |i: int| bring_up_op(i),
        ),
        forall|i: int|
            0 <= i < STEP_OPERATIONS * BRING_UP_STEPS ==> (#[trigger] bring_up_sequence()[i]
                is WriteMemory <==> i % (STEP_OPERATIONS as int) == 3),
        forall|i: int|
            0 <= i < STEP_OPERATIONS * BRING_UP_STEPS && #[trigger] bring_up_sequence()[i]
                is WriteMemory ==> {
                &&& bring_up_sequence()[i - 3] is WriteMode
                &&& bring_up_sequence()[i - 2] == SdramOp::ReadMode
                &&& bring_up_sequence()[i - 1] == SdramOp::Barrier
                &&& bring_up_sequence()[i + 1] == SdramOp::Barrier
            },
        forall|i: int|
            0 < i < STEP_OPERATIONS * BRING_UP_STEPS && #[trigger] bring_up_sequence()[i]
                is WriteMode ==> {
                &&& bring_up_sequence()[i - 1] == SdramOp::Barrier
                &&& bring_up_sequence()[i - 2] is WriteMemory
            },
{
    lemma_remaining_steps(SdramSequencerState::Idle);
}

/// A delay as a number of cycles in a field of `width` bits, if the clock
/// and the delay allow one.
pub open spec fn timing_code(clk: Hertz, delay: PicoSeconds, width: nat) -> Option<int> {
    match delay_cycles(clk, delay) {
        Some(cycles) => if cycles < pow2(width) {
            Some(cycles)
        } else {
            None
        },
        None => None,
    }
}

/// The fields of the configuration register for `config`, if each delay
/// fits its field. The data bus is always 16 bits wide.
pub open spec fn config_fields(clk: Hertz, config: SdramConfig) -> Option<SdramConfigFields> {
    let width = TIMING_FIELD_WIDTH as nat;
    let timing = config.timing;
    if timing_code(clk, timing.twr, width) is Some && timing_code(clk, timing.trc, width) is Some
        && timing_code(clk, timing.trp, width) is Some && timing_code(clk, timing.trcd, width)
        is Some && timing_code(clk, timing.tras, width) is Some && timing_code(
        clk,
        timing.txsr,
        width,
    ) is Some {
        Some(
            SdramConfigFields {
                nc: config.columns,
                nr: config.rows,
                nb: config.banks,
                dbw: true,
                cas: config.latency,
                twr: timing_code(clk, timing.twr, width).unwrap() as u8,
                trc_trfc: timing_code(clk, timing.trc, width).unwrap() as u8,
                trp: timing_code(clk, timing.trp, width).unwrap() as u8,
                trcd: timing_code(clk, timing.trcd, width).unwrap() as u8,
                tras: timing_code(clk, timing.tras, width).unwrap() as u8,
                txsr: timing_code(clk, timing.txsr, width).unwrap() as u8,
            },
        )
    } else {
        None
    }
}

/// The whole bring-up for a configuration: the configuration register is
/// written, SDRAM is selected, and after the pause the steps of the
/// sequence follow. Then the refresh timer is set and the alignment mode.
pub open spec fn setup_sequence(fields: SdramConfigFields, refresh: u16, alignment: SdramAlignment)
    -> Seq<SdramOp> {
    seq![
        SdramOp::WriteConfig(fields),
        SdramOp::SelectSdramDevice,
        SdramOp::DelayUs(STARTUP_DELAY_US),
    ] + bring_up_sequence() + seq![
        SdramOp::WriteRefreshTimer(refresh),
        SdramOp::SetAlignment(alignment),
    ]
}

/// What is to be done for `config`: the operations of the whole bring-up, if
/// every delay of the configuration fits its field.
pub open spec fn setup_plan(clk: Hertz, config: SdramConfig) -> Option<Seq<SdramOp>> {
    if config_fields(clk, config) is Some && timing_code(
        clk,
        config.timing.refresh,
        REFRESH_COUNT_WIDTH as nat,
    ) is Some {
        Some(
            setup_sequence(
                config_fields(clk, config).unwrap(),
                timing_code(clk, config.timing.refresh, REFRESH_COUNT_WIDTH as nat).unwrap() as u16,
                config.alignment,
            ),
        )
    } else {
        None
    }
}

/// A delay as a number of cycles in a field of `width` bits.
fn calc_timing_val(clk: Hertz, delay: PicoSeconds, width: u32) -> (code: Result<u32, InvalidConfig>)
    requires
        1 <= width <= 32,
    ensures
        match code {
            Ok(found) => timing_code(clk, delay, width as nat) == Some(found as int) && found
                < pow2(width as nat),
            Err(_) => timing_code(clk, delay, width as nat) is None,
        },
{
    match cycles_of(clk, delay) {
        Some(cycles) => {
            if cycles > field_mask(width) {
                Err(InvalidConfig)
            } else {
                Ok(cycles)
            }
        },
        None => Err(InvalidConfig),
    }
}

/// The fields of the configuration register for `config`.
pub fn calc_config_fields(clk: Hertz, config: &SdramConfig) -> (fields: Result<
    SdramConfigFields,
    InvalidConfig,
>)
    ensures
        fields == (match config_fields(clk, *config) {
            Some(found) => Ok::<SdramConfigFields, InvalidConfig>(found),
            None => Err(InvalidConfig),
        }),
{
    proof {
        lemma2_to64();
    }
    let twr: u32 = calc_timing_val(clk, config.timing.twr, TIMING_FIELD_WIDTH)?;
    let trc: u32 = calc_timing_val(clk, config.timing.trc, TIMING_FIELD_WIDTH)?;
    let trp: u32 = calc_timing_val(clk, config.timing.trp, TIMING_FIELD_WIDTH)?;
    let trcd: u32 = calc_timing_val(clk, config.timing.trcd, TIMING_FIELD_WIDTH)?;
    let tras: u32 = calc_timing_val(clk, config.timing.tras, TIMING_FIELD_WIDTH)?;
    let txsr: u32 = calc_timing_val(clk, config.timing.txsr, TIMING_FIELD_WIDTH)?;
    Ok(
        SdramConfigFields {
            // configure size specification
            nc: config.columns,
            nr: config.rows,
            nb: config.banks,
            // this architecture only supports 16 bit wide data access
            dbw: true,
            // timing configuration
            cas: config.latency,
            twr: twr as u8,
            trc_trfc: trc as u8,
            trp: trp as u8,
            trcd: trcd as u8,
            tras: tras as u8,
            txsr: txsr as u8,
        },
    )
}

/// The memory behind the controller, once set up.
#[derive(Debug, Copy, Clone, PartialEq, Eq, Structural)]
pub struct Sdram {
    start_address: u32,
    size: u32,
    mode: SdramMode,
}

impl Sdram {
    /// The address of the first byte of the memory.
    pub closed spec fn spec_start_address(self) -> u32 {
        self.start_address
    }

    /// The number of addresses of the memory.
    pub closed spec fn spec_size(self) -> u32 {
        self.size
    }

    /// The command that the mode register of the controller holds.
    pub closed spec fn spec_mode(self) -> SdramMode {
        self.mode
    }

    /// Perform Software Initialisation of the SDRAM, whose pins are bound:
    /// the description of the memory, and the operations that bring it up,
    /// in the order in which they are to be carried out. Where a delay of
    /// the configuration does not fit its field, there is nothing to carry
    /// out.
    pub fn setup<PINS: SdramPins>(_pins: &PINS, config: SdramConfig, clk: Hertz) -> (plan: Result<
        (Sdram, Vec<SdramOp>),
        InvalidConfig,
    >)
        ensures
            match plan {
                Ok((sdram, ops)) => {
                    &&& setup_plan(clk, config) == Some(ops@)
                    &&& sdram.spec_start_address() == SDRAM_START_ADDRESS
                    &&& sdram.spec_size() == config.addressable_size()
                    &&& sdram.spec_mode() == SdramMode::Normal
                },
                Err(_) => setup_plan(clk, config) is None,
            },
    {
        proof {
            lemma2_to64();
        }
        let fields: SdramConfigFields = calc_config_fields(clk, &config)?;
        let refresh: u32 = calc_timing_val(clk, config.timing.refresh, REFRESH_COUNT_WIDTH)?;

        let mut ops: Vec<SdramOp> = Vec::new();
        ops.push(SdramOp::WriteConfig(fields));
        ops.push(SdramOp::SelectSdramDevice);
        ops.push(SdramOp::DelayUs(STARTUP_DELAY_US));

        // Initialisation steps from Datasheet
        let mut steps: Vec<SdramOp> = bring_up_ops();
        ops.append(&mut steps);

        // enable refresh
        ops.push(SdramOp::WriteRefreshTimer(refresh as u16));
        // alignment
        ops.push(SdramOp::SetAlignment(config.alignment));

        let addressing_bits: u32 = config.banks.addressing_bits() + config.rows.addressing_bits()
            + config.columns.addressing_bits();
        proof {
            vstd::bits::lemma_u32_shl_is_mul(1, addressing_bits);
        }
        proof {
            assert(ops@ == setup_sequence(fields, refresh as u16, config.alignment));
        }
        let sdram = Sdram {
            start_address: SDRAM_START_ADDRESS,  // start address defined by the hardware
            size: 1u32 << addressing_bits,
            mode: SdramMode::Normal,
        };
        Ok((sdram, ops))
    }

    /// Records `mode` as the command of the mode register, and gives the
    /// operation that writes it there.
    pub fn set_mode(&mut self, mode: SdramMode) -> (op: SdramOp)
        ensures
            op == SdramOp::WriteMode(mode),
            final(self).spec_mode() == mode,
            final(self).spec_start_address() == old(self).spec_start_address(),
            final(self).spec_size() == old(self).spec_size(),
    {
        self.mode = mode;
        SdramOp::WriteMode(mode)
    }

    /// The command that the mode register of the controller holds.
    #[verifier::when_used_as_spec(spec_mode)]
    pub fn mode(self) -> (mode: SdramMode)
        ensures
            mode == self.spec_mode(),
    {
        self.mode
    }

    /// The address of the first byte of the memory.
    #[verifier::when_used_as_spec(spec_start_address)]
    pub fn start_address(self) -> (address: u32)
        ensures
            address == self.spec_start_address(),
    {
        self.start_address
    }

    /// The number of addresses of the memory.
    #[verifier::when_used_as_spec(spec_size)]
    pub fn size(self) -> (size: u32)
        ensures
            size == self.spec_size(),
    {
        self.size
    }
}

} // verus!

//! Static memory controller: the timing and mode fields of its devices.

use vstd::prelude::*;
use vstd::arithmetic::power2::pow2;
use vstd::arithmetic::power2::lemma2_to64;
use crate::ebi::ExternalBusInterface;
use crate::field::field_at;
use crate::field::field_value;
use crate::field::lemma_field_among_others;
use crate::field::field_mask;
use crate::field::insert_field;
use crate::field::lemma_insert_above;
use crate::time::cycles_of;
use crate::time::delay_cycles;
use crate::time::Hertz;
use crate::time::PicoSeconds;

verus! {

/// Width of the value in a setup field; the carry bit lies above it.
pub const SETUP_VALUE_WIDTH: u32 = 5;

/// The cycles that the carry bit of a setup field stands for.
pub const SETUP_CARRY_CYCLES: u32 = 128;

/// Width of the value in a pulse field; the carry bit lies above it.
pub const PULSE_VALUE_WIDTH: u32 = 6;

/// The cycles that the carry bit of a pulse field stands for.
pub const PULSE_CARRY_CYCLES: u32 = 256;

/// Width of the value in a cycle field; the multiplier lies above it.
pub const CYCLE_VALUE_WIDTH: u32 = 7;

/// Width of the multiplier in a cycle field.
pub const CYCLE_MULTIPLIER_WIDTH: u32 = 2;

/// The cycles that one unit of the multiplier of a cycle field stands for.
pub const CYCLE_MULTIPLIER_CYCLES: u32 = 256;

/// The largest multiplier of a cycle field.
pub const CYCLE_MULTIPLIER_MAX: u32 = 3;

/// One of the four devices of the controller.
#[derive(Debug, Copy, Clone, PartialEq, Eq, Structural)]
pub enum SmcDeviceSelect {
    SmcDevice0,
    SmcDevice1,
    SmcDevice2,
    SmcDevice3,
}

impl SmcDeviceSelect {
    /// The number of the device.
    pub open spec fn number(self) -> nat {
        match self {
            SmcDeviceSelect::SmcDevice0 => 0,
            SmcDeviceSelect::SmcDevice1 => 1,
            SmcDeviceSelect::SmcDevice2 => 2,
            SmcDeviceSelect::SmcDevice3 => 3,
        }
    }

    /// get device number
    pub fn nr(&self) -> (nr: usize)
        ensures
            nr == self.number(),
    {
        match self {
            SmcDeviceSelect::SmcDevice0 => 0,
            SmcDeviceSelect::SmcDevice1 => 1,
            SmcDeviceSelect::SmcDevice2 => 2,
            SmcDeviceSelect::SmcDevice3 => 3,
        }
    }
}

/// The delays of the setup phase.
#[derive(Debug, Copy, Clone, PartialEq, Eq, Structural)]
pub struct SmcDeviceSetupTimings {
    pub read_cs: PicoSeconds,
    pub read: PicoSeconds,
    pub write_cs: PicoSeconds,
    pub write: PicoSeconds,
}

/// The delays of the pulse phase.
#[derive(Debug, Copy, Clone, PartialEq, Eq, Structural)]
pub struct SmcDevicePulseTimings {
    pub read_cs: PicoSeconds,
    pub read: PicoSeconds,
    pub write_cs: PicoSeconds,
    pub write: PicoSeconds,
}

/// The lengths of a whole read and a whole write access.
#[derive(Debug, Copy, Clone, PartialEq, Eq, Structural)]
pub struct SmcDeviceCycleTimings {
    pub read: PicoSeconds,
    pub write: PicoSeconds,
}

/// The signal that controls a write.
#[derive(Debug, Copy, Clone, PartialEq, Eq, Structural)]
pub enum SmcDeviceWriteMode {
    WriteSignalNcs,
    WriteSignalNwe,
}

/// The signal that controls a read.
#[derive(Debug, Copy, Clone, PartialEq, Eq, Structural)]
pub enum SmcDeviceReadMode {
    ReadSignalNcs,
    ReadSignalNrd,
}

/// The width of the data bus.
#[derive(Debug, Copy, Clone, PartialEq, Eq, Structural)]
pub enum SmcDeviceBusWidth {
    Bits8,
    Bits16,
}

/// How single bytes are accessed on a 16-bit bus.
#[derive(Debug, Copy, Clone, PartialEq, Eq, Structural)]
pub enum SmcDeviceByteAccess {
    ByteSelect,
    ByteWrite,
}

/// How the external wait signal is used.
#[derive(Debug, Copy, Clone, PartialEq, Eq, Structural)]
pub enum SmcDeviceNwait {
    Disabled,
    Frozen,
    Ready,
}

/// The page size of a device in page mode.
#[derive(Debug, Copy, Clone, PartialEq, Eq, Structural)]
pub enum SmcDevicePageSize {
    Bytes4,
    Bytes8,
    Bytes16,
    Bytes32,
}

/// The mode of a device.
#[derive(Debug, Copy, Clone, PartialEq, Eq, Structural)]
pub struct SmcDeviceMode {
    pub dbw: SmcDeviceBusWidth,
    /// Only meaningful on a 16-bit bus.
    pub bat: SmcDeviceByteAccess,
    pub nwait: SmcDeviceNwait,
    pub read_mode: SmcDeviceReadMode,
    pub write_mode: SmcDeviceWriteMode,
    /// `None` switches page mode off.
    pub ps: Option<SmcDevicePageSize>,
}

impl Default for SmcDeviceMode {
    fn default() -> (mode: SmcDeviceMode)
        ensures
            mode == (SmcDeviceMode {
                dbw: SmcDeviceBusWidth::Bits8,
                bat: SmcDeviceByteAccess::ByteSelect,
                nwait: SmcDeviceNwait::Disabled,
                read_mode: SmcDeviceReadMode::ReadSignalNcs,
                write_mode: SmcDeviceWriteMode::WriteSignalNcs,
                ps: None,
            }),
    {
        SmcDeviceMode {
            dbw: SmcDeviceBusWidth::Bits8,
            bat: SmcDeviceByteAccess::ByteSelect,
            nwait: SmcDeviceNwait::Disabled,
            read_mode: SmcDeviceReadMode::ReadSignalNcs,
            write_mode: SmcDeviceWriteMode::WriteSignalNcs,
            ps: None,
        }
    }
}

impl SmcDeviceMode {
    /// The mode with a data bus of 16 bits.
    pub fn bus_width_16_bit(self) -> (mode: Self)
        ensures
            mode == (SmcDeviceMode { dbw: SmcDeviceBusWidth::Bits16, ..self }),
    {
        let mut mode = self;
        mode.dbw = SmcDeviceBusWidth::Bits16;
        mode
    }

    /// The mode with a data bus of 8 bits.
    pub fn bus_width_8_bit(self) -> (mode: Self)
        ensures
            mode == (SmcDeviceMode { dbw: SmcDeviceBusWidth::Bits8, ..self }),
    {
        let mut mode = self;
        mode.dbw = SmcDeviceBusWidth::Bits8;
        mode
    }

    /// The mode with the external wait signal used as `x` says.
    pub fn nwait(self, x: SmcDeviceNwait) -> (mode: Self)
        ensures
            mode == (SmcDeviceMode { nwait: x, ..self }),
    {
        let mut mode = self;
        mode.nwait = x;
        mode
    }

    /// The mode with the byte access type `x`.
    pub fn bat(self, x: SmcDeviceByteAccess) -> (mode: Self)
        ensures
            mode == (SmcDeviceMode { bat: x, ..self }),
    {
        let mut mode = self;
        mode.bat = x;
        mode
    }

    /// The mode with reads controlled by the signal `x`.
    pub fn read_mode(self, x: SmcDeviceReadMode) -> (mode: Self)
        ensures
            mode == (SmcDeviceMode { read_mode: x, ..self }),
    {
        let mut mode = self;
        mode.read_mode = x;
        mode
    }

    /// The mode with writes controlled by the signal `x`.
    pub fn write_mode(self, x: SmcDeviceWriteMode) -> (mode: Self)
        ensures
            mode == (SmcDeviceMode { write_mode: x, ..self }),
    {
        let mut mode = self;
        mode.write_mode = x;
        mode
    }

    /// The mode with page mode on, at the page size `x`.
    pub fn ps(self, x: SmcDevicePageSize) -> (mode: Self)
        ensures
            mode == (SmcDeviceMode { ps: Some(x), ..self }),
    {
        let mut mode = self;
        mode.ps = Some(x);
        mode
    }

    /// The mode with page mode off.
    pub fn disable_pages(self) -> (mode: Self)
        ensures
            mode == (SmcDeviceMode { ps: None, ..self }),
    {
        let mut mode = self;
        mode.ps = None;
        mode
    }
}

/// The configuration of a device.
#[derive(Debug, Copy, Clone, PartialEq, Eq, Structural)]
pub struct SmcDeviceConfig {
    pub mode: SmcDeviceMode,
    pub setup: SmcDeviceSetupTimings,
    pub pulse: SmcDevicePulseTimings,
    pub cycle: SmcDeviceCycleTimings,
}

/// A delay that does not fit its field, or a clock whose period cannot be
/// told in picoseconds.
#[derive(Debug, Copy, Clone, PartialEq, Eq, Structural)]
pub struct InvalidConfig;

/// A number of cycles as a field of `value_width` bits with one carry bit
/// above them. A set carry bit stands for `carry_cycles` cycles, and the
/// value bits hold the rest. `None` where the rest does not fit.
pub open spec fn carry_code(cycles: int, value_width: nat, carry_cycles: int) -> Option<int> {
    let carry: nat = if cycles >= carry_cycles { 1 } else { 0 };
    let rest = cycles - carry * carry_cycles;
    if 0 <= rest < pow2(value_width) {
        Some(field_at(carry, value_width) + rest)
    } else {
        None
    }
}

/// The largest multiplier, up to three, whose cycles do not exceed
/// `cycles`.
pub open spec fn cycle_multiplier(cycles: int) -> nat {
    if cycles >= 3 * CYCLE_MULTIPLIER_CYCLES {
        3
    } else if cycles >= 2 * CYCLE_MULTIPLIER_CYCLES {
        2
    } else if cycles >= CYCLE_MULTIPLIER_CYCLES {
        1
    } else {
        0
    }
}

/// A number of cycles as a cycle field: seven value bits with a two-bit
/// multiplier above them. The multiplier is the largest whose cycles do not
/// exceed the number, and the value bits hold the rest. `None` where the
/// rest does not fit.
pub open spec fn multiplier_code(cycles: int) -> Option<int> {
    let multiplier = cycle_multiplier(cycles);
    let rest = cycles - multiplier * CYCLE_MULTIPLIER_CYCLES;
    if 0 <= rest < pow2(CYCLE_VALUE_WIDTH as nat) {
        Some(field_at(multiplier, CYCLE_VALUE_WIDTH as nat) + rest)
    } else {
        None
    }
}

/// A setup delay as a setup field, if the clock and the delay allow one.
pub open spec fn setup_code(clk: Hertz, delay: PicoSeconds) -> Option<int> {
    match delay_cycles(clk, delay) {
        Some(cycles) => carry_code(cycles, SETUP_VALUE_WIDTH as nat, SETUP_CARRY_CYCLES as int),
        None => None,
    }
}

/// A pulse delay as a pulse field, if the clock and the delay allow one.
pub open spec fn pulse_code(clk: Hertz, delay: PicoSeconds) -> Option<int> {
    match delay_cycles(clk, delay) {
        Some(cycles) => carry_code(cycles, PULSE_VALUE_WIDTH as nat, PULSE_CARRY_CYCLES as int),
        None => None,
    }
}

/// The length of an access as a cycle field, if the clock and the length
/// allow one.
pub open spec fn cycle_code(clk: Hertz, delay: PicoSeconds) -> Option<int> {
    match delay_cycles(clk, delay) {
        Some(cycles) => multiplier_code(cycles),
        None => None,
    }
}

/// The cycles that a field with one carry bit stands for: its value bits,
/// and the cycles of the carry bit where that is set.
pub open spec fn carry_code_cycles(code: nat, value_width: nat, carry_cycles: int) -> int {
    field_value(code, 0, value_width) + field_value(code, value_width, 1) * carry_cycles
}

/// The cycles that a cycle field stands for: its value bits, and the
/// cycles of its multiplier.
pub open spec fn multiplier_code_cycles(code: nat) -> int {
    field_value(code, 0, CYCLE_VALUE_WIDTH as nat) + field_value(
        code,
        CYCLE_VALUE_WIDTH as nat,
        CYCLE_MULTIPLIER_WIDTH as nat,
    ) * CYCLE_MULTIPLIER_CYCLES
}

/// A field with a carry bit stands for exactly the cycles that it was made
/// of.
pub proof fn lemma_carry_code_keeps_cycles(cycles: int, value_width: nat, carry_cycles: int)
    requires
        carry_code(cycles, value_width, carry_cycles) is Some,
    ensures
        carry_code(cycles, value_width, carry_cycles).unwrap() >= 0,
        carry_code_cycles(
            carry_code(cycles, value_width, carry_cycles).unwrap() as nat,
            value_width,
            carry_cycles,
        ) == cycles,
{
    let carry: nat = if cycles >= carry_cycles { 1 } else { 0 };
    let rest = (cycles - carry * carry_cycles) as nat;
    lemma2_to64();
    lemma_field_among_others(0, rest, carry, 0, value_width);
    lemma_field_among_others(rest, carry, 0, value_width, 1);
    assert(field_at(rest, 0) == rest);
    assert(field_at(0, value_width + 1) == 0);
}

/// A cycle field stands for exactly the cycles that it was made of.
pub proof fn lemma_multiplier_code_keeps_cycles(cycles: int)
    requires
        multiplier_code(cycles) is Some,
    ensures
        multiplier_code(cycles).unwrap() >= 0,
        multiplier_code_cycles(multiplier_code(cycles).unwrap() as nat) == cycles,
{
    let multiplier = cycle_multiplier(cycles);
    let rest = (cycles - multiplier * CYCLE_MULTIPLIER_CYCLES) as nat;
    lemma2_to64();
    lemma_field_among_others(0, rest, multiplier, 0, CYCLE_VALUE_WIDTH as nat);
    lemma_field_among_others(
        rest,
        multiplier,
        0,
        CYCLE_VALUE_WIDTH as nat,
        CYCLE_MULTIPLIER_WIDTH as nat,
    );
    assert(field_at(rest, 0) == rest);
    assert(field_at(0, (CYCLE_VALUE_WIDTH + CYCLE_MULTIPLIER_WIDTH) as nat) == 0);
}

/// The numbers of cycles that the three kinds of field can hold: a setup
/// field up to 31 or from 128 to 159, a pulse field up to 63 or from 256
/// to 319, and a cycle field up to 127 above a multiple of 256, the
/// multiple being at most three.
pub proof fn lemma_encoding_windows(cycles: int)
    requires
        cycles >= 0,
    ensures
        carry_code(cycles, SETUP_VALUE_WIDTH as nat, SETUP_CARRY_CYCLES as int) is Some <==> (cycles
            <= 31 || 128 <= cycles <= 159),
        carry_code(cycles, PULSE_VALUE_WIDTH as nat, PULSE_CARRY_CYCLES as int) is Some <==> (cycles
            <= 63 || 256 <= cycles <= 319),
        multiplier_code(cycles) is Some <==> (cycles <= 127 || 256 <= cycles <= 256 + 127 || 512
            <= cycles <= 512 + 127 || 768 <= cycles <= 768 + 127),
{
    lemma2_to64();
}

/// Packs a number of cycles into a field of `value_width` bits with one
/// carry bit above them.
fn encode_with_carry(cycles: u32, value_width: u32, carry_cycles: u32) -> (code: Result<
    u32,
    InvalidConfig,
>)
    requires
        1 <= value_width < 31,
    ensures
        match code {
            Ok(found) => carry_code(cycles as int, value_width as nat, carry_cycles as int) == Some(
                found as int,
            ) && found < pow2((value_width + 1) as nat),
            Err(_) => carry_code(cycles as int, value_width as nat, carry_cycles as int) is None,
        },
{
    let mut rest: u32 = cycles;
    let mut carry: u32 = 0;
    if rest >= carry_cycles {
        rest -= carry_cycles;
        carry = 1;
    }
    if rest > field_mask(value_width) {
        return Err(InvalidConfig);
    }
    proof {
        lemma2_to64();
        lemma_insert_above(0, 0, value_width as nat, rest as nat);
        lemma_insert_above(rest as nat, value_width as nat, 1, carry as nat);
    }
    let low: u32 = insert_field(0, 0, value_width, rest);
    Ok(insert_field(low, value_width, 1, carry))
}

/// The setup field for `delay` at the clock `clk`.
///
/// The setup register may only hold values up to including 31 and
/// 128 + 31 = 159 due to how the values are encoded in it. Any other number
/// of cycles is refused, and so is a clock whose period cannot be told in
/// picoseconds.
pub fn calc_setup_val(clk: Hertz, delay: PicoSeconds) -> (code: Result<u8, InvalidConfig>)
    ensures
        match code {
            Ok(found) => setup_code(clk, delay) == Some(found as int),
            Err(_) => setup_code(clk, delay) is None,
        },
{
    proof {
        lemma2_to64();
    }
    let setup: u32 = match cycles_of(clk, delay) {
        Some(cycles) => cycles,
        None => {
            return Err(InvalidConfig);
        },
    };
    match encode_with_carry(setup, SETUP_VALUE_WIDTH, SETUP_CARRY_CYCLES) {
        Ok(v) => Ok(v as u8),
        Err(e) => Err(e),
    }
}

/// The pulse field for `delay` at the clock `clk`.
///
/// The pulse register may only hold values up to including 63 and
/// 256 + 63 = 319 due to how the values are encoded in it. Any other number
/// of cycles is refused, and so is a clock whose period cannot be told in
/// picoseconds.
pub fn calc_pulse_val(clk: Hertz, delay: PicoSeconds) -> (code: Result<u8, InvalidConfig>)
    ensures
        match code {
            Ok(found) => pulse_code(clk, delay) == Some(found as int),
            Err(_) => pulse_code(clk, delay) is None,
        },
{
    proof {
        lemma2_to64();
    }
    let pulse: u32 = match cycles_of(clk, delay) {
        Some(cycles) => cycles,
        None => {
            return Err(InvalidConfig);
        },
    };
    match encode_with_carry(pulse, PULSE_VALUE_WIDTH, PULSE_CARRY_CYCLES) {
        Ok(v) => Ok(v as u8),
        Err(e) => Err(e),
    }
}

/// The cycle field for `delay` at the clock `clk`.
///
/// The cycle register may only hold values up to including 127 or 256+127
/// or 512+127 or 768+127. Any other number of cycles is refused, and so is
/// a clock whose period cannot be told in picoseconds.
pub fn calc_cycle_val(clk: Hertz, delay: PicoSeconds) -> (code: Result<u16, InvalidConfig>)
    ensures
        match code {
            Ok(found) => cycle_code(clk, delay) == Some(found as int),
            Err(_) => cycle_code(clk, delay) is None,
        },
{
    proof {
        lemma2_to64();
    }
    let cycles: u32 = match cycles_of(clk, delay) {
        Some(cycles) => cycles,
        None => {
            return Err(InvalidConfig);
        },
    };
    let mut rest: u32 = cycles;
    let mut multiplier: u32 = 0;
    let mut i: u32 = CYCLE_MULTIPLIER_MAX;
    while i >= 1
        invariant_except_break
            i <= CYCLE_MULTIPLIER_MAX,
            rest == cycles,
            multiplier == 0,
            cycles < (i + 1) * CYCLE_MULTIPLIER_CYCLES || i == CYCLE_MULTIPLIER_MAX,
        ensures
            multiplier == cycle_multiplier(cycles as int),
            rest == cycles - multiplier * CYCLE_MULTIPLIER_CYCLES,
        decreases i,
    {
        if cycles >= CYCLE_MULTIPLIER_CYCLES * i {
            rest -= CYCLE_MULTIPLIER_CYCLES * i;
            multiplier = i;
            break ;
        }
        i -= 1;
    }
    if rest > field_mask(CYCLE_VALUE_WIDTH) {
        return Err(InvalidConfig);
    }
    proof {
        lemma_insert_above(0, 0, CYCLE_VALUE_WIDTH as nat, rest as nat);
        lemma_insert_above(
            rest as nat,
            CYCLE_VALUE_WIDTH as nat,
            CYCLE_MULTIPLIER_WIDTH as nat,
            multiplier as nat,
        );
    }
    let low: u32 = insert_field(0, 0, CYCLE_VALUE_WIDTH, rest);
    Ok(insert_field(low, CYCLE_VALUE_WIDTH, CYCLE_MULTIPLIER_WIDTH, multiplier) as u16)
}

/// The four fields of the setup register of a device.
#[derive(Debug, Copy, Clone, PartialEq, Eq, Structural)]
pub struct SmcSetupFields {
    pub ncs_rd_setup: u8,
    pub nrd_setup: u8,
    pub ncs_wr_setup: u8,
    pub nwe_setup: u8,
}

/// The four fields of the pulse register of a device.
#[derive(Debug, Copy, Clone, PartialEq, Eq, Structural)]
pub struct SmcPulseFields {
    pub ncs_rd_pulse: u8,
    pub nrd_pulse: u8,
    pub ncs_wr_pulse: u8,
    pub nwe_pulse: u8,
}

/// The two fields of the cycle register of a device.
#[derive(Debug, Copy, Clone, PartialEq, Eq, Structural)]
pub struct SmcCycleFields {
    pub nrd_cycle: u16,
    pub nwe_cycle: u16,
}

/// The fields of the mode register of a device.
#[derive(Debug, Copy, Clone, PartialEq, Eq, Structural)]
pub struct SmcModeFields {
    /// The width of the data bus.
    pub dbw: SmcDeviceBusWidth,
    /// The byte access type; `None` leaves the field at its reset value.
    pub bat: Option<SmcDeviceByteAccess>,
    /// The use of the external wait signal.
    pub exnw_mode: SmcDeviceNwait,
    /// The signal that controls a read.
    pub read_mode: SmcDeviceReadMode,
    /// The signal that controls a write.
    pub write_mode: SmcDeviceWriteMode,
    /// Whether page mode is on.
    pub pmen: bool,
    /// The page size; `None` leaves the field at its reset value.
    pub ps: Option<SmcDevicePageSize>,
}

/// What is to be written to the four registers of one device.
#[derive(Debug, Copy, Clone, PartialEq, Eq, Structural)]
pub struct SmcDeviceRegisters {
    /// The number of the device.
    pub device: usize,
    pub setup: SmcSetupFields,
    pub pulse: SmcPulseFields,
    pub cycle: SmcCycleFields,
    pub mode: SmcModeFields,
}

/// The fields of the setup register for the delays of `timings`, if each of
/// them can be encoded.
pub open spec fn setup_fields(clk: Hertz, timings: SmcDeviceSetupTimings) -> Option<SmcSetupFields> {
    if setup_code(clk, timings.read_cs) is Some && setup_code(clk, timings.read) is Some
        && setup_code(clk, timings.write_cs) is Some && setup_code(clk, timings.write) is Some {
        Some(
            SmcSetupFields {
                ncs_rd_setup: setup_code(clk, timings.read_cs).unwrap() as u8,
                nrd_setup: setup_code(clk, timings.read).unwrap() as u8,
                ncs_wr_setup: setup_code(clk, timings.write_cs).unwrap() as u8,
                nwe_setup: setup_code(clk, timings.write).unwrap() as u8,
            },
        )
    } else {
        None
    }
}

/// The fields of the pulse register for the delays of `timings`, if each of
/// them can be encoded.
pub open spec fn pulse_fields(clk: Hertz, timings: SmcDevicePulseTimings) -> Option<SmcPulseFields> {
    if pulse_code(clk, timings.read_cs) is Some && pulse_code(clk, timings.read) is Some
        && pulse_code(clk, timings.write_cs) is Some && pulse_code(clk, timings.write) is Some {
        Some(
            SmcPulseFields {
                ncs_rd_pulse: pulse_code(clk, timings.read_cs).unwrap() as u8,
                nrd_pulse: pulse_code(clk, timings.read).unwrap() as u8,
                ncs_wr_pulse: pulse_code(clk, timings.write_cs).unwrap() as u8,
                nwe_pulse: pulse_code(clk, timings.write).unwrap() as u8,
            },
        )
    } else {
        None
    }
}

/// The fields of the cycle register for the lengths of `timings`, if each
/// of them can be encoded.
pub open spec fn cycle_fields(clk: Hertz, timings: SmcDeviceCycleTimings) -> Option<SmcCycleFields> {
    if cycle_code(clk, timings.read) is Some && cycle_code(clk, timings.write) is Some {
        Some(
            SmcCycleFields {
                nrd_cycle: cycle_code(clk, timings.read).unwrap() as u16,
                nwe_cycle: cycle_code(clk, timings.write).unwrap() as u16,
            },
        )
    } else {
        None
    }
}

/// The fields of the mode register for `mode`. The byte access type is
/// written on a 16-bit bus only, and the page size only with page mode on.
pub open spec fn mode_fields(mode: SmcDeviceMode) -> SmcModeFields {
    SmcModeFields {
        dbw: mode.dbw,
        bat: if mode.dbw == SmcDeviceBusWidth::Bits16 {
            Some(mode.bat)
        } else {
            None
        },
        exnw_mode: mode.nwait,
        read_mode: mode.read_mode,
        write_mode: mode.write_mode,
        pmen: mode.ps is Some,
        ps: mode.ps,
    }
}

/// What is to be written to the registers of `device` for `config`, if
/// every delay of the configuration can be encoded.
pub open spec fn device_registers(clk: Hertz, device: SmcDeviceSelect, config: SmcDeviceConfig)
    -> Option<SmcDeviceRegisters> {
    if setup_fields(clk, config.setup) is Some && pulse_fields(clk, config.pulse) is Some
        && cycle_fields(clk, config.cycle) is Some {
        Some(
            SmcDeviceRegisters {
                device: device.number() as usize,
                setup: setup_fields(clk, config.setup).unwrap(),
                pulse: pulse_fields(clk, config.pulse).unwrap(),
                cycle: cycle_fields(clk, config.cycle).unwrap(),
                mode: mode_fields(config.mode),
            },
        )
    } else {
        None
    }
}

/// The fields of the mode register for `mode`.
pub fn calc_mode_fields(mode: &SmcDeviceMode) -> (fields: SmcModeFields)
    ensures
        fields == mode_fields(*mode),
{
    // bus width parameters
    let bat: Option<SmcDeviceByteAccess> = match mode.dbw {
        SmcDeviceBusWidth::Bits8 => None,
        SmcDeviceBusWidth::Bits16 => Some(mode.bat),
    };
    let pmen: bool = match mode.ps {
        None => false,
        Some(_) => true,
    };
    SmcModeFields {
        dbw: mode.dbw,
        bat,
        exnw_mode: mode.nwait,
        read_mode: mode.read_mode,
        write_mode: mode.write_mode,
        pmen,
        ps: mode.ps,
    }
}

/// The static memory controller, run by a clock of known frequency.
#[derive(Debug, Copy, Clone, PartialEq, Eq, Structural)]
pub struct Smc {
    clk: Hertz,
}

impl Smc {
    /// The frequency of the clock that runs the controller.
    pub closed spec fn clock(self) -> Hertz {
        self.clk
    }

    /// Setup Static Memory Controller, which is run by the clock `clk` and
    /// reaches its devices over the external bus.
    pub fn setup(_ebi: &ExternalBusInterface, clk: Hertz) -> (smc: Self)
        ensures
            smc.clock() == clk,
    {
        Smc { clk }
    }

    /// Setup SMC Device with provided configuration: what is to be written
    /// to the setup, pulse, cycle and mode registers of the device.
    /// Nothing is to be written where one of the delays cannot be encoded.
    pub fn setup_device(&self, device: SmcDeviceSelect, config: SmcDeviceConfig) -> (registers:
        Result<SmcDeviceRegisters, InvalidConfig>)
        ensures
            registers == (match device_registers(self.clock(), device, config) {
                Some(found) => Ok::<SmcDeviceRegisters, InvalidConfig>(found),
                None => Err(InvalidConfig),
            }),
    {
        let setup = SmcSetupFields {
            ncs_rd_setup: calc_setup_val(self.clk, config.setup.read_cs)?,
            nrd_setup: calc_setup_val(self.clk, config.setup.read)?,
            ncs_wr_setup: calc_setup_val(self.clk, config.setup.write_cs)?,
            nwe_setup: calc_setup_val(self.clk, config.setup.write)?,
        };
        let pulse = SmcPulseFields {
            ncs_rd_pulse: calc_pulse_val(self.clk, config.pulse.read_cs)?,
            nrd_pulse: calc_pulse_val(self.clk, config.pulse.read)?,
            ncs_wr_pulse: calc_pulse_val(self.clk, config.pulse.write_cs)?,
            nwe_pulse: calc_pulse_val(self.clk, config.pulse.write)?,
        };
        let cycle = SmcCycleFields {
            nrd_cycle: calc_cycle_val(self.clk, config.cycle.read)?,
            nwe_cycle: calc_cycle_val(self.clk, config.cycle.write)?,
        };
        let mode = calc_mode_fields(&config.mode);
        Ok(SmcDeviceRegisters { device: device.nr(), setup, pulse, cycle, mode })
    }
}

} // verus!

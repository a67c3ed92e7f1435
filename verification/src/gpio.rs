//! GPIO: an ordered bank of digital output pins driven through the sysfs
//! pin-access layer. Logical value 1 is idle and 0 is active (active-low
//! wiring), so a bank signalling a level shows a thermometer-style bar: the
//! contiguous prefix of pins up to the level is active.
//!
//! The bank keeps a ghost record of the state it last observed or drove on
//! each pin (exported, direction, value); the contracts of `init`, `signal`
//! and `test` are stated over that record.

use vstd::prelude::*;

verus! {

/// Direction of a pin, mirroring the four settings the sysfs interface
/// accepts.
#[derive(Clone, Copy, PartialEq, Eq, Structural, Debug)]
pub enum PinDirection {
    In,
    Out,
    High,
    Low,
}

/// The pin operation that failed.
#[derive(Clone, Copy, PartialEq, Eq, Structural, Debug)]
pub enum PinOp {
    Export,
    DirectionGet,
    DirectionSet,
    ValueGet,
    ValueSet,
}

#[verifier::external_type_specification]
#[verifier::external_body]
pub struct ExSysfsGpioError(sysfs_gpio::Error);

/// A failed access to the pin hardware: the pin number, the operation that
/// failed on it, and the underlying cause.
#[derive(Debug)]
pub struct HwError {
    pub pin: u64,
    pub op: PinOp,
    pub cause: sysfs_gpio::Error,
}

/// Relies on sysfs_gpio::Pin::{new, is_exported}: whether /sys/class/gpio
/// currently exposes the pin. Depends on the machine's state, so nothing is
/// promised of the answer.
#[verifier::external_body]
fn pin_is_exported(pin: u64) -> bool {
    sysfs_gpio::Pin::new(pin).is_exported()
}

/// Relies on sysfs_gpio::Pin::{new, export}: asks the kernel to export the
/// pin; a pin that is already exported is not an error.
#[verifier::external_body]
fn pin_export(pin: u64) -> Result<(), sysfs_gpio::Error> {
    sysfs_gpio::Pin::new(pin).export()
}

/// Relies on sysfs_gpio::Pin::{new, get_direction}: reads the pin's direction
/// file; its source returns exactly one of the four settings on success.
/// Which one depends on the hardware, so nothing is promised of it.
#[verifier::external_body]
fn pin_get_direction(pin: u64) -> Result<PinDirection, sysfs_gpio::Error> {
    match sysfs_gpio::Pin::new(pin).get_direction() {
        Ok(sysfs_gpio::Direction::In) => Ok(PinDirection::In),
        Ok(sysfs_gpio::Direction::Out) => Ok(PinDirection::Out),
        Ok(sysfs_gpio::Direction::High) => Ok(PinDirection::High),
        Ok(sysfs_gpio::Direction::Low) => Ok(PinDirection::Low),
        Err(e) => Err(e),
    }
}

/// Relies on sysfs_gpio::Pin::{new, set_direction}: writes the setting to the
/// pin's direction file.
#[verifier::external_body]
fn pin_set_direction(pin: u64, dir: PinDirection) -> Result<(), sysfs_gpio::Error> {
    let d = match dir {
        PinDirection::In => sysfs_gpio::Direction::In,
        PinDirection::Out => sysfs_gpio::Direction::Out,
        PinDirection::High => sysfs_gpio::Direction::High,
        PinDirection::Low => sysfs_gpio::Direction::Low,
    };
    sysfs_gpio::Pin::new(pin).set_direction(d)
}

/// Relies on sysfs_gpio::Pin::{new, get_value}: reads the pin's value file;
/// its source returns only Ok(0) or Ok(1). Which one depends on the hardware.
#[verifier::external_body]
fn pin_get_value(pin: u64) -> (r: Result<u8, sysfs_gpio::Error>)
    ensures
        r matches Ok(v) ==> v == 0 || v == 1,
{
    sysfs_gpio::Pin::new(pin).get_value()
}

/// Relies on sysfs_gpio::Pin::{new, set_value}: writes "0" to the pin's value
/// file for 0, and "1" for any other value.
#[verifier::external_body]
fn pin_set_value(pin: u64, value: u8) -> Result<(), sysfs_gpio::Error> {
    sysfs_gpio::Pin::new(pin).set_value(value)
}

/// The state the bank last observed or drove on one pin.
pub struct PinSnapshot {
    pub exported: bool,
    pub dir_out: bool,
    pub value: u8,
}

/// A pin that `init` has brought to its ready state: exported, set as an
/// output, and idle.
pub open spec fn initialized(p: PinSnapshot) -> bool {
    &&& p.exported
    &&& p.dir_out
    &&& p.value == 1
}

/// The value `signal(level)` drives on pin index `i`: active (0) for indices
/// up to the level, idle (1) above it.
pub open spec fn thermometer_value(i: int, level: int) -> u8 {
    if i <= level {
        0u8
    } else {
        1u8
    }
}

/// The logical value `signal` writes for one pin index.
pub fn pin_value_for(index: usize, level: usize) -> (v: u8)
    ensures
        v == thermometer_value(index as int, level as int),
{
    if index > level {
        1
    } else {
        0
    }
}

/// The error names one of the bank's pins.
pub open spec fn names_bank_pin(g: GPIO, e: HwError) -> bool {
    exists|k: int| 0 <= k < g.pin_ids().len() && e.pin == g.pin_ids()[k]
}

/// An ordered bank of output pins.
pub struct GPIO {
    pins: Vec<u64>,
    state: Ghost<Seq<PinSnapshot>>,
}

impl GPIO {
    /// The pin numbers of the bank, in index order.
    pub closed spec fn pin_ids(self) -> Seq<u64> {
        self.pins@
    }

    /// The last known state of each pin, in index order.
    pub closed spec fn state(self) -> Seq<PinSnapshot> {
        self.state@
    }

    pub open spec fn pin_count_spec(self) -> nat {
        self.pin_ids().len()
    }

    pub open spec fn wf(self) -> bool {
        self.state().len() == self.pin_ids().len()
    }

    /// A bank over the default eight consecutive pins, numbered 11 through
    /// 18.
    pub fn new() -> (g: GPIO)
        ensures
            g.wf(),
            g.pin_count_spec() == 8,
            forall|i: int| 0 <= i < 8 ==> g.pin_ids()[i] == 11 + i,
    {
        let mut pins: Vec<u64> = Vec::new();
        let mut pin_no: u64 = 11;
        while pin_no <= 18
            invariant
                11 <= pin_no <= 19,
                pins@.len() == pin_no - 11,
                forall|i: int| 0 <= i < pins@.len() ==> pins@[i] == 11 + i,
            decreases 19 - pin_no,
        {
            pins.push(pin_no);
            pin_no += 1;
        }
        let ghost n = pins@.len();
        GPIO { pins, state: Ghost(Seq::new(n, |i: int| arbitrary())) }
    }

    /// A bank over the given pin numbers, in order.
    pub fn with_pins(pins: Vec<u64>) -> (g: GPIO)
        ensures
            g.wf(),
            g.pin_ids() == pins@,
    {
        let ghost n = pins@.len();
        GPIO { pins, state: Ghost(Seq::new(n, |i: int| arbitrary())) }
    }

    /// How many pins the bank drives.
    pub fn pin_count(&self) -> (n: usize)
        ensures
            n == self.pin_count_spec(),
    {
        self.pins.len()
    }

    /// The pin number at one index.
    pub fn pin_id(&self, index: usize) -> (p: u64)
        requires
            index < self.pin_count_spec(),
        ensures
            p == self.pin_ids()[index as int],
    {
        self.pins[index]
    }

    /// Drives one pin of the bank to active (0) or idle (1): the single-pin
    /// step of the diagnostic sweep, so that a caller can put its own hold
    /// between a pin's two writes. Only that pin's recorded state changes,
    /// and only its value.
    pub fn drive_pin(&mut self, index: usize, active: bool) -> (r: Result<(), HwError>)
        requires
            old(self).wf(),
            index < old(self).pin_count_spec(),
        ensures
            final(self).wf(),
            final(self).pin_ids() == old(self).pin_ids(),
            r is Ok ==> final(self).state() == old(self).state().update(
                index as int,
                (PinSnapshot {
                    exported: old(self).state()[index as int].exported,
                    dir_out: old(self).state()[index as int].dir_out,
                    value: if active {
                        0u8
                    } else {
                        1u8
                    },
                }),
            ),
            r matches Err(e) ==> {
                &&& final(self).state() == old(self).state()
                &&& e.pin == old(self).pin_ids()[index as int]
                &&& e.op == PinOp::ValueSet
            },
    {
        let pin = self.pins[index];
        let value: u8 = if active {
            0
        } else {
            1
        };
        match pin_set_value(pin, value) {
            Ok(()) => {
                self.state = Ghost(
                    self.state@.update(
                        index as int,
                        PinSnapshot {
                            exported: self.state@[index as int].exported,
                            dir_out: self.state@[index as int].dir_out,
                            value,
                        },
                    ),
                );
                Ok(())
            },
            Err(e) => Err(HwError { pin, op: PinOp::ValueSet, cause: e }),
        }
    }

    /// Brings every pin, in index order, to its ready state: exported, set as
    /// an output, and idle. Each step checks before it sets, so a pin that is
    /// already in the wanted state is left alone. A failure stops the pass:
    /// the pins before the failing one are ready, and the error names the pin
    /// and the operation.
    pub fn init(&mut self) -> (r: Result<(), HwError>)
        requires
            old(self).wf(),
        ensures
            final(self).wf(),
            final(self).pin_ids() == old(self).pin_ids(),
            r is Ok ==> forall|i: int|
                0 <= i < final(self).state().len() ==> initialized(#[trigger] final(self).state()[i]),
            r matches Err(e) ==> names_bank_pin(*final(self), e) && exists|k: int|
                {
                    &&& 0 <= k < final(self).pin_ids().len()
                    &&& e.pin == final(self).pin_ids()[k]
                    &&& forall|i: int| 0 <= i < k ==> initialized(#[trigger] final(self).state()[i])
                    &&& forall|i: int|
                        k <= i < final(self).state().len() ==> #[trigger] final(self).state()[i]
                            == old(self).state()[i]
                },
    {
        let n = self.pins.len();
        let mut idx: usize = 0;
        while idx < n
            invariant
                self.wf(),
                n == self.pin_ids().len(),
                self.pins@ == old(self).pins@,
                idx <= n,
                forall|i: int| 0 <= i < idx ==> initialized(#[trigger] self.state()[i]),
                forall|i: int| idx <= i < n ==> #[trigger] self.state()[i] == old(self).state()[i],
            decreases n - idx,
        {
            let pin = self.pins[idx];
            proof {
                assert(self.pin_ids()[idx as int] == pin);
            }
            if !pin_is_exported(pin) {
                match pin_export(pin) {
                    Ok(()) => {},
                    Err(e) => {
                        return Err(HwError { pin, op: PinOp::Export, cause: e });
                    },
                }
            }
            let dir = match pin_get_direction(pin) {
                Ok(d) => d,
                Err(e) => {
                    return Err(HwError { pin, op: PinOp::DirectionGet, cause: e });
                },
            };
            if dir != PinDirection::Out {
                match pin_set_direction(pin, PinDirection::Out) {
                    Ok(()) => {},
                    Err(e) => {
                        return Err(HwError { pin, op: PinOp::DirectionSet, cause: e });
                    },
                }
            }
            let value = match pin_get_value(pin) {
                Ok(v) => v,
                Err(e) => {
                    return Err(HwError { pin, op: PinOp::ValueGet, cause: e });
                },
            };
            if value != 1 {
                match pin_set_value(pin, 1) {
                    Ok(()) => {},
                    Err(e) => {
                        return Err(HwError { pin, op: PinOp::ValueSet, cause: e });
                    },
                }
            }
            self.state = Ghost(
                self.state@.update(
                    idx as int,
                    PinSnapshot { exported: true, dir_out: true, value: 1 },
                ),
            );
            idx += 1;
        }
        Ok(())
    }

    /// Drives the thermometer pattern for `level`: the pins with index at
    /// most `level` active, the rest idle, written in index order. On a
    /// partial failure the pins already written keep their new value, the
    /// rest keep their old state, and the error names the failing pin.
    pub fn signal(&mut self, level: usize) -> (r: Result<(), HwError>)
        requires
            old(self).wf(),
        ensures
            final(self).wf(),
            final(self).pin_ids() == old(self).pin_ids(),
            forall|i: int|
                0 <= i < final(self).state().len() ==> (#[trigger] final(self).state()[i]).exported
                    == old(self).state()[i].exported && final(self).state()[i].dir_out == old(
                    self,
                ).state()[i].dir_out,
            r is Ok ==> forall|i: int|
                0 <= i < final(self).state().len() ==> (#[trigger] final(self).state()[i]).value
                    == thermometer_value(i, level as int),
            r matches Err(e) ==> names_bank_pin(*final(self), e) && e.op == PinOp::ValueSet
                && exists|k: int|
                {
                    &&& 0 <= k < final(self).pin_ids().len()
                    &&& e.pin == final(self).pin_ids()[k]
                    &&& forall|i: int|
                        0 <= i < k ==> (#[trigger] final(self).state()[i]).value
                            == thermometer_value(i, level as int)
                    &&& forall|i: int|
                        k <= i < final(self).state().len() ==> #[trigger] final(self).state()[i]
                            == old(self).state()[i]
                },
    {
        let n = self.pins.len();
        let mut idx: usize = 0;
        while idx < n
            invariant
                self.wf(),
                n == self.pin_ids().len(),
                self.pins@ == old(self).pins@,
                idx <= n,
                forall|i: int|
                    0 <= i < idx ==> (#[trigger] self.state()[i]).value == thermometer_value(
                        i,
                        level as int,
                    ),
                forall|i: int|
                    0 <= i < idx ==> (#[trigger] self.state()[i]).exported == old(
                        self,
                    ).state()[i].exported && self.state()[i].dir_out == old(self).state()[i].dir_out,
                forall|i: int| idx <= i < n ==> #[trigger] self.state()[i] == old(self).state()[i],
            decreases n - idx,
        {
            let value = pin_value_for(idx, level);
            let pin = self.pins[idx];
            match pin_set_value(pin, value) {
                Ok(()) => {
                    self.state = Ghost(
                        self.state@.update(
                            idx as int,
                            PinSnapshot {
                                exported: self.state@[idx as int].exported,
                                dir_out: self.state@[idx as int].dir_out,
                                value,
                            },
                        ),
                    );
                },
                Err(e) => {
                    return Err(HwError { pin, op: PinOp::ValueSet, cause: e });
                },
            }
            idx += 1;
        }
        Ok(())
    }

    /// Diagnostic sweep: drives each pin active and back to idle, in index
    /// order, to let the wiring be checked visually. The two writes of one
    /// pin follow each other immediately here; a caller that wants a visible
    /// hold between them runs the sweep step by step through `drive_pin`. A
    /// failure stops the sweep: every pin before the failing one is back at
    /// idle, the failing pin is untouched or left mid-pulse (active), and
    /// the pins after it keep their previous recorded state.
    pub fn test(&mut self) -> (r: Result<(), HwError>)
        requires
            old(self).wf(),
        ensures
            final(self).wf(),
            final(self).pin_ids() == old(self).pin_ids(),
            forall|i: int|
                0 <= i < final(self).state().len() ==> (#[trigger] final(self).state()[i]).exported
                    == old(self).state()[i].exported && final(self).state()[i].dir_out == old(
                    self,
                ).state()[i].dir_out,
            r is Ok ==> forall|i: int|
                0 <= i < final(self).state().len() ==> (#[trigger] final(self).state()[i]).value
                    == 1,
            r matches Err(e) ==> names_bank_pin(*final(self), e) && e.op == PinOp::ValueSet
                && exists|k: int|
                {
                    &&& 0 <= k < final(self).pin_ids().len()
                    &&& e.pin == final(self).pin_ids()[k]
                    &&& forall|i: int| 0 <= i < k ==> (#[trigger] final(self).state()[i]).value == 1
                    &&& (final(self).state()[k] == old(self).state()[k]
                        || final(self).state()[k].value == 0)
                    &&& forall|i: int|
                        k < i < final(self).state().len() ==> #[trigger] final(self).state()[i]
                            == old(self).state()[i]
                },
    {
        let n = self.pins.len();
        let mut idx: usize = 0;
        while idx < n
            invariant
                self.wf(),
                n == self.pin_ids().len(),
                self.pins@ == old(self).pins@,
                idx <= n,
                forall|i: int| 0 <= i < idx ==> (#[trigger] self.state()[i]).value == 1,
                forall|i: int|
                    0 <= i < n ==> (#[trigger] self.state()[i]).exported == old(
                        self,
                    ).state()[i].exported && self.state()[i].dir_out == old(self).state()[i].dir_out,
                forall|i: int| idx <= i < n ==> #[trigger] self.state()[i] == old(self).state()[i],
            decreases n - idx,
        {
            let ghost entry = self.state();
            match self.drive_pin(idx, true) {
                Ok(()) => {},
                Err(e) => {
                    proof {
                        assert(e.pin == self.pin_ids()[idx as int]);
                        assert(self.state()[idx as int] == old(self).state()[idx as int]);
                    }
                    return Err(e);
                },
            }
            match self.drive_pin(idx, false) {
                Ok(()) => {},
                Err(e) => {
                    proof {
                        assert(e.pin == self.pin_ids()[idx as int]);
                        assert(self.state() == entry.update(
                            idx as int,
                            (PinSnapshot {
                                exported: entry[idx as int].exported,
                                dir_out: entry[idx as int].dir_out,
                                value: 0u8,
                            }),
                        ));
                        assert(self.state()[idx as int].value == 0);
                        assert(forall|i: int|
                            idx < i < n ==> #[trigger] self.state()[i] == old(self).state()[i]);
                    }
                    return Err(e);
                },
            }
            idx += 1;
        }
        Ok(())
    }
}

/// The pin-sweep mode: builds the default bank over pins 11 through 18,
/// brings every pin to its ready state, and runs the diagnostic sweep.
/// Returns the bank so that its final state is visible: on success every
/// pin is exported, an output, and back at idle; on failure the error names
/// one of the bank's pins.
pub fn cmd_leds_test() -> (r: Result<GPIO, HwError>)
    ensures
        r matches Ok(g) ==> {
            &&& g.wf()
            &&& g.pin_count_spec() == 8
            &&& forall|i: int| 0 <= i < 8 ==> g.pin_ids()[i] == 11 + i
            &&& forall|i: int| 0 <= i < g.state().len() ==> initialized(#[trigger] g.state()[i])
        },
        r matches Err(e) ==> 11 <= e.pin <= 18,
{
    let mut gpio = GPIO::new();
    match gpio.init() {
        Ok(()) => {},
        Err(e) => {
            proof {
                let k = choose|k: int|
                    0 <= k < gpio.pin_ids().len() && e.pin == gpio.pin_ids()[k];
                assert(gpio.pin_ids()[k] == 11 + k);
            }
            return Err(e);
        },
    }
    match gpio.test() {
        Ok(()) => {},
        Err(e) => {
            proof {
                let k = choose|k: int|
                    0 <= k < gpio.pin_ids().len() && e.pin == gpio.pin_ids()[k];
                assert(gpio.pin_ids()[k] == 11 + k);
            }
            return Err(e);
        },
    }
    Ok(gpio)
}

/// How many pins of a bank state are active (logical value 0).
pub open spec fn active_count(s: Seq<PinSnapshot>) -> nat
    decreases s.len(),
{
    if s.len() == 0 {
        0
    } else {
        active_count(s.drop_last()) + if s.last().value == 0 {
            1nat
        } else {
            0nat
        }
    }
}

/// A state whose pins are all active has as many active pins as pins.
proof fn lemma_all_active(s: Seq<PinSnapshot>)
    requires
        forall|i: int| 0 <= i < s.len() ==> (#[trigger] s[i]).value == 0,
    ensures
        active_count(s) == s.len(),
    decreases s.len(),
{
    if s.len() > 0 {
        lemma_all_active(s.drop_last());
    }
}

/// After a thermometer signal of a level in range, exactly `level + 1` pins
/// are active: the contiguous prefix of indices 0 through `level`.
pub proof fn lemma_thermometer_active_count(s: Seq<PinSnapshot>, level: int)
    requires
        0 <= level < s.len(),
        forall|i: int| 0 <= i < s.len() ==> (#[trigger] s[i]).value == thermometer_value(i, level),
    ensures
        active_count(s) == level + 1,
    decreases s.len(),
{
    if level == s.len() - 1 {
        lemma_all_active(s.drop_last());
    } else {
        lemma_thermometer_active_count(s.drop_last(), level);
    }
}

/// Initializing the bank twice in a row yields the same pin states as
/// initializing it once: the ready state that `init` guarantees determines
/// every pin's record, so a second successful pass cannot change anything.
pub proof fn lemma_init_idempotent(once: Seq<PinSnapshot>, twice: Seq<PinSnapshot>)
    requires
        once.len() == twice.len(),
        forall|i: int| 0 <= i < once.len() ==> initialized(#[trigger] once[i]),
        forall|i: int| 0 <= i < twice.len() ==> initialized(#[trigger] twice[i]),
    ensures
        once == twice,
{
    assert(once =~= twice);
}

} // verus!

//! The GPIO peripheral's vocabulary: pins, pin states, per-pin arrays, the
//! errors that reads and writes report, and the [`Gpio`] trait itself.

use vstd::prelude::*;
use core::convert::TryFrom;
use core::ops::{Deref, Index, IndexMut};
use core::sync::atomic::AtomicBool;
use vstd::std_specs::cmp::PartialOrdSpec;

verus! {

/// Number of GPIO pins (G0 - G7).
pub const NUM_GPIO_PINS: usize = 8;

/// A GPIO pin number. Pins are ordered by their number.
#[derive(Debug, Copy, Clone, PartialEq, Eq, Structural, Ord, Hash)]
pub enum GpioPin {
    G0,
    G1,
    G2,
    G3,
    G4,
    G5,
    G6,
    G7,
}

impl GpioPin {
    pub const NUM_PINS: usize = 8;
}

/// The pin that sits at position `i` of a [`GpioPinArr`].
pub open spec fn gpio_pin_at(i: int) -> GpioPin {
    if i == 0 {
        GpioPin::G0
    } else if i == 1 {
        GpioPin::G1
    } else if i == 2 {
        GpioPin::G2
    } else if i == 3 {
        GpioPin::G3
    } else if i == 4 {
        GpioPin::G4
    } else if i == 5 {
        GpioPin::G5
    } else if i == 6 {
        GpioPin::G6
    } else {
        GpioPin::G7
    }
}

/// Position of `pin` in a [`GpioPinArr`].
pub open spec fn gpio_pin_index(pin: GpioPin) -> usize {
    match pin {
        GpioPin::G0 => 0,
        GpioPin::G1 => 1,
        GpioPin::G2 => 2,
        GpioPin::G3 => 3,
        GpioPin::G4 => 4,
        GpioPin::G5 => 5,
        GpioPin::G6 => 6,
        GpioPin::G7 => 7,
    }
}

impl From<GpioPin> for usize {
    fn from(pin: GpioPin) -> (r: usize) {
        match pin {
            GpioPin::G0 => 0,
            GpioPin::G1 => 1,
            GpioPin::G2 => 2,
            GpioPin::G3 => 3,
            GpioPin::G4 => 4,
            GpioPin::G5 => 5,
            GpioPin::G6 => 6,
            GpioPin::G7 => 7,
        }
    }
}

impl vstd::std_specs::convert::FromSpecImpl<GpioPin> for usize {
    open spec fn obeys_from_spec() -> bool {
        true
    }

    open spec fn from_spec(pin: GpioPin) -> usize {
        gpio_pin_index(pin)
    }
}

/// Numbering pins and listing them in order agree: pin `p` sits at
/// position `usize::from(p)`, and position `i` holds the pin numbered `i`.
pub proof fn law_pin_numbering(p: GpioPin, i: int)
    requires
        0 <= i < NUM_GPIO_PINS,
    ensures
        gpio_pin_index(p) < NUM_GPIO_PINS,
        gpio_pin_at(gpio_pin_index(p) as int) == p,
        gpio_pin_index(gpio_pin_at(i)) == i,
        gpio_pin_index(GpioPin::G0) == 0 && gpio_pin_index(GpioPin::G1) == 1 && gpio_pin_index(
            GpioPin::G2,
        ) == 2 && gpio_pin_index(GpioPin::G3) == 3 && gpio_pin_index(GpioPin::G4) == 4
            && gpio_pin_index(GpioPin::G5) == 5 && gpio_pin_index(GpioPin::G6) == 6
            && gpio_pin_index(GpioPin::G7) == 7,
{
}

/// The comparison of two pins: by their numbers.
pub open spec fn gpio_pin_order(p: GpioPin, q: GpioPin) -> core::cmp::Ordering {
    if gpio_pin_index(p) < gpio_pin_index(q) {
        core::cmp::Ordering::Less
    } else if gpio_pin_index(p) == gpio_pin_index(q) {
        core::cmp::Ordering::Equal
    } else {
        core::cmp::Ordering::Greater
    }
}

impl PartialOrd for GpioPin {
    fn partial_cmp(&self, other: &GpioPin) -> (r: Option<core::cmp::Ordering>) {
        let a = usize::from(*self);
        let b = usize::from(*other);
        if a < b {
            Some(core::cmp::Ordering::Less)
        } else if a == b {
            Some(core::cmp::Ordering::Equal)
        } else {
            Some(core::cmp::Ordering::Greater)
        }
    }
}

impl vstd::std_specs::cmp::PartialOrdSpecImpl for GpioPin {
    open spec fn obeys_partial_cmp_spec() -> bool {
        true
    }

    open spec fn partial_cmp_spec(&self, other: &GpioPin) -> Option<core::cmp::Ordering> {
        Some(gpio_pin_order(*self, *other))
    }
}

/// The order of pins is the order of their numbers, and distinct pins have
/// distinct numbers: `p < q` exactly when `usize::from(p) < usize::from(q)`,
/// and `p == q` exactly when their numbers are equal.
pub proof fn law_pin_order(p: GpioPin, q: GpioPin)
    ensures
        (p.partial_cmp_spec(&q) == Some(core::cmp::Ordering::Less)) <==> gpio_pin_index(p)
            < gpio_pin_index(q),
        (p.partial_cmp_spec(&q) == Some(core::cmp::Ordering::Equal)) <==> gpio_pin_index(p)
            == gpio_pin_index(q),
        (p.partial_cmp_spec(&q) == Some(core::cmp::Ordering::Greater)) <==> gpio_pin_index(p)
            > gpio_pin_index(q),
        (p == q) <==> gpio_pin_index(p) == gpio_pin_index(q),
        (p == q) <==> (p.partial_cmp_spec(&q) == Some(core::cmp::Ordering::Equal)),
{
}

/// All the pins, in order: `gpio_pins()[G3] == G3` and so on.
pub fn gpio_pins() -> (r: GpioPinArr<GpioPin>)
    ensures
        forall|i: int| 0 <= i < 8 ==> #[trigger] r.0@[i] == gpio_pin_at(i),
{
    GpioPinArr(
        [
            GpioPin::G0,
            GpioPin::G1,
            GpioPin::G2,
            GpioPin::G3,
            GpioPin::G4,
            GpioPin::G5,
            GpioPin::G6,
            GpioPin::G7,
        ],
    )
}

/// The mode a GPIO pin is in.
#[derive(Debug, Copy, Clone, PartialEq, Eq, Structural, Hash)]
pub enum GpioState {
    Input,
    Output,
    /// Reads are allowed in this mode.
    Interrupt,
    Disabled,
}

/// Reading a pin fails exactly when it is disabled or in output mode.
pub open spec fn gpio_read_fails(state: GpioState) -> bool {
    state == GpioState::Disabled || state == GpioState::Output
}

/// Writing a pin fails exactly when it is not in output mode.
pub open spec fn gpio_write_fails(state: GpioState) -> bool {
    state != GpioState::Output
}

/// One value per GPIO pin, indexed by [`GpioPin`].
#[derive(Debug, Clone, Copy, PartialEq, Eq, Hash)]
pub struct GpioPinArr<T>(pub [T; 8]);

impl<T> GpioPinArr<T> {
    /// The value held for `pin`.
    pub open spec fn at(&self, pin: GpioPin) -> T {
        self.0@[gpio_pin_index(pin) as int]
    }
}

impl<T> Deref for GpioPinArr<T> {
    type Target = [T; 8];

    fn deref(&self) -> (r: &[T; 8])
        ensures
            *r == self.0,
    {
        &self.0
    }
}

impl<T> Index<GpioPin> for GpioPinArr<T> {
    type Output = T;

    fn index(&self, pin: GpioPin) -> (r: &T)
        ensures
            *r == self.at(pin),
    {
        &self.0[usize::from(pin)]
    }
}

impl<T> vstd::std_specs::core::IndexSpecImpl<GpioPin> for GpioPinArr<T> {
    open spec fn index_req(&self, pin: &GpioPin) -> bool {
        true
    }
}

impl<T> IndexMut<GpioPin> for GpioPinArr<T> {
    fn index_mut(&mut self, pin: GpioPin) -> (r: &mut T)
        ensures
            *r == old(self).at(pin),
            final(self).0@ == old(self).0@.update(gpio_pin_index(pin) as int, *final(r)),
    {
        &mut self.0[usize::from(pin)]
    }
}


/// Any error that [`Gpio::set_state`] may report.
#[derive(Debug, Copy, Clone, PartialEq, Eq, Structural, Hash)]
pub struct GpioMiscError;

/// A pin together with the state that made an access to it fail.
pub type GpioStateMismatch = (GpioPin, GpioState);

/// A read of a pin whose state does not allow reads.
#[derive(Debug, Copy, Clone, PartialEq, Eq, Hash)]
pub struct GpioReadError(pub GpioStateMismatch);

/// A write to a pin whose state does not allow writes.
#[derive(Debug, Copy, Clone, PartialEq, Eq, Hash)]
pub struct GpioWriteError(pub GpioStateMismatch);

/// For each pin, the mismatch that an access to it met, if any.
pub type GpioStateMismatches = GpioPinArr<Option<GpioStateMismatch>>;

/// The failed reads among the results of reading every pin.
#[derive(Debug, Copy, Clone, PartialEq, Eq, Hash)]
pub struct GpioReadErrors(pub GpioStateMismatches);

/// The failed writes among the results of writing every pin.
#[derive(Debug, Copy, Clone, PartialEq, Eq, Hash)]
pub struct GpioWriteErrors(pub GpioStateMismatches);

/// The mismatch recorded by the `i`th result, if it is an error.
pub open spec fn read_mismatch_at(v: GpioPinArr<Result<bool, GpioReadError>>, i: int) -> Option<
    GpioStateMismatch,
> {
    match v.0@[i] {
        Ok(_) => None,
        Err(e) => Some(e.0),
    }
}

/// The mismatch recorded by the `i`th result, if it is an error.
pub open spec fn write_mismatch_at(v: GpioPinArr<Result<(), GpioWriteError>>, i: int) -> Option<
    GpioStateMismatch,
> {
    match v.0@[i] {
        Ok(_) => None,
        Err(e) => Some(e.0),
    }
}

/// Pin by pin, the mismatch of each failed read.
pub open spec fn read_mismatches(v: GpioPinArr<Result<bool, GpioReadError>>) -> GpioStateMismatches {
    GpioPinArr(
        [
            read_mismatch_at(v, 0),
            read_mismatch_at(v, 1),
            read_mismatch_at(v, 2),
            read_mismatch_at(v, 3),
            read_mismatch_at(v, 4),
            read_mismatch_at(v, 5),
            read_mismatch_at(v, 6),
            read_mismatch_at(v, 7),
        ],
    )
}

impl TryFrom<GpioPinArr<Result<bool, GpioReadError>>> for GpioReadErrors {
    type Error = ();

    /// Fails when every read succeeded; otherwise keeps, pin by pin, the
    /// mismatch of each failed read.
    fn try_from(read_errors: GpioPinArr<Result<bool, GpioReadError>>) -> (r: Result<
        GpioReadErrors,
        (),
    >) {
        let mut all_ok = true;
        let mut errors: GpioStateMismatches = GpioPinArr([None; 8]);
        let mut i: usize = 0;
        while i < 8
            invariant
                0 <= i <= 8,
                all_ok == (forall|j: int| 0 <= j < i ==> (#[trigger] read_errors.0@[j]) is Ok),
                forall|j: int| 0 <= j < i ==> #[trigger] errors.0@[j] == read_mismatch_at(read_errors, j),
            decreases 8 - i,
        {
            match read_errors.0[i] {
                Ok(_) => {
                    errors.0[i] = None;
                },
                Err(e) => {
                    all_ok = false;
                    errors.0[i] = Some(e.0);
                },
            }
            i += 1;
        }
        if all_ok {
            Err(())
        } else {
            assert(errors.0 =~= read_mismatches(read_errors).0);
            Ok(GpioReadErrors(errors))
        }
    }
}

impl vstd::std_specs::convert::TryFromSpecImpl<GpioPinArr<Result<bool, GpioReadError>>> for GpioReadErrors {
    open spec fn obeys_try_from_spec() -> bool {
        true
    }

    open spec fn try_from_spec(v: GpioPinArr<Result<bool, GpioReadError>>) -> Result<Self, ()> {
        if forall|j: int| 0 <= j < 8 ==> (#[trigger] v.0@[j]) is Ok {
            Err(())
        } else {
            Ok(GpioReadErrors(read_mismatches(v)))
        }
    }
}

/// Pin by pin, the mismatch of each failed write.
pub open spec fn write_mismatches(v: GpioPinArr<Result<(), GpioWriteError>>) -> GpioStateMismatches {
    GpioPinArr(
        [
            write_mismatch_at(v, 0),
            write_mismatch_at(v, 1),
            write_mismatch_at(v, 2),
            write_mismatch_at(v, 3),
            write_mismatch_at(v, 4),
            write_mismatch_at(v, 5),
            write_mismatch_at(v, 6),
            write_mismatch_at(v, 7),
        ],
    )
}

impl TryFrom<GpioPinArr<Result<(), GpioWriteError>>> for GpioWriteErrors {
    type Error = ();

    /// Fails when every write succeeded; otherwise keeps, pin by pin, the
    /// mismatch of each failed write.
    fn try_from(write_errors: GpioPinArr<Result<(), GpioWriteError>>) -> (r: Result<
        GpioWriteErrors,
        (),
    >) {
        let mut all_ok = true;
        let mut errors: GpioStateMismatches = GpioPinArr([None; 8]);
        let mut i: usize = 0;
        while i < 8
            invariant
                0 <= i <= 8,
                all_ok == (forall|j: int| 0 <= j < i ==> (#[trigger] write_errors.0@[j]) is Ok),
                forall|j: int| 0 <= j < i ==> #[trigger] errors.0@[j] == write_mismatch_at(write_errors, j),
            decreases 8 - i,
        {
            match write_errors.0[i] {
                Ok(_) => {
                    errors.0[i] = None;
                },
                Err(e) => {
                    all_ok = false;
                    errors.0[i] = Some(e.0);
                },
            }
            i += 1;
        }
        if all_ok {
            Err(())
        } else {
            assert(errors.0 =~= write_mismatches(write_errors).0);
            Ok(GpioWriteErrors(errors))
        }
    }
}

impl vstd::std_specs::convert::TryFromSpecImpl<GpioPinArr<Result<(), GpioWriteError>>> for GpioWriteErrors {
    open spec fn obeys_try_from_spec() -> bool {
        true
    }

    open spec fn try_from_spec(v: GpioPinArr<Result<(), GpioWriteError>>) -> Result<Self, ()> {
        if forall|j: int| 0 <= j < 8 ==> (#[trigger] v.0@[j]) is Ok {
            Err(())
        } else {
            Ok(GpioWriteErrors(write_mismatches(v)))
        }
    }
}

/// Read errors are reported exactly when some pin could not be read: for
/// the results `v` of reading every pin in `states`, the conversion into
/// [`GpioReadErrors`] succeeds exactly when some pin's state forbids reads,
/// and then records a mismatch for exactly those pins.
pub proof fn law_read_errors_reported(v: GpioPinArr<Result<bool, GpioReadError>>, states: GpioPinArr<GpioState>)
    requires
        forall|pin: GpioPin| #[trigger] v.at(pin) is Err <==> gpio_read_fails(states.at(pin)),
    ensures
        <GpioReadErrors as vstd::std_specs::convert::TryFromSpec<_>>::try_from_spec(v) is Ok <==> exists|pin: GpioPin| gpio_read_fails(#[trigger] states.at(pin)),
        forall|pin: GpioPin| #[trigger] read_mismatches(v).at(pin) is Some <==> gpio_read_fails(states.at(pin)),
{
    assert forall|j: int| 0 <= j < 8 implies (#[trigger] v.0@[j] is Err <==> gpio_read_fails(states.at(gpio_pin_at(j)))) by {
        assert(v.at(gpio_pin_at(j)) == v.0@[j]);
    }
    if exists|pin: GpioPin| gpio_read_fails(#[trigger] states.at(pin)) {
        let pin = choose|pin: GpioPin| gpio_read_fails(#[trigger] states.at(pin));
        assert(v.at(pin) is Err);
        assert(v.0@[gpio_pin_index(pin) as int] is Err);
    }
    if !(forall|j: int| 0 <= j < 8 ==> (#[trigger] v.0@[j]) is Ok) {
        let j = choose|j: int| 0 <= j < 8 && !((#[trigger] v.0@[j]) is Ok);
        assert(gpio_read_fails(states.at(gpio_pin_at(j))));
    }
}

/// Summarising reads keeps every failure where it happened: the summary is
/// refused exactly when every read succeeded, and otherwise holds, for each
/// pin, the mismatch of that pin's failed read, and nothing for a pin read
/// successfully.
pub proof fn law_read_errors_summarised(v: GpioPinArr<Result<bool, GpioReadError>>)
    ensures
        <GpioReadErrors as vstd::std_specs::convert::TryFromSpec<_>>::try_from_spec(v) is Err
            <==> forall|pin: GpioPin| (#[trigger] v.at(pin)) is Ok,
        <GpioReadErrors as vstd::std_specs::convert::TryFromSpec<_>>::try_from_spec(v) matches Ok(
            errs,
        ) ==> forall|pin: GpioPin|
            (#[trigger] v.at(pin) matches Err(e) ==> errs.0.at(pin) == Some(e.0)) && (v.at(pin) is Ok
                ==> errs.0.at(pin) is None),
{
    assert forall|j: int| 0 <= j < 8 implies #[trigger] v.0@[j] == v.at(gpio_pin_at(j)) by {}
    if forall|pin: GpioPin| (#[trigger] v.at(pin)) is Ok {
        assert forall|j: int| 0 <= j < 8 implies (#[trigger] v.0@[j]) is Ok by {
            assert(v.at(gpio_pin_at(j)) is Ok);
        }
    }
    assert forall|pin: GpioPin| #[trigger] read_mismatches(v).at(pin) == read_mismatch_at(
        v,
        gpio_pin_index(pin) as int,
    ) by {}
}

/// Summarising writes keeps every failure where it happened: the summary is
/// refused exactly when every write succeeded, and otherwise holds, for each
/// pin, the mismatch of that pin's failed write, and nothing for a pin
/// written successfully.
pub proof fn law_write_errors_summarised(v: GpioPinArr<Result<(), GpioWriteError>>)
    ensures
        <GpioWriteErrors as vstd::std_specs::convert::TryFromSpec<_>>::try_from_spec(v) is Err
            <==> forall|pin: GpioPin| (#[trigger] v.at(pin)) is Ok,
        <GpioWriteErrors as vstd::std_specs::convert::TryFromSpec<_>>::try_from_spec(v) matches Ok(
            errs,
        ) ==> forall|pin: GpioPin|
            (#[trigger] v.at(pin) matches Err(e) ==> errs.0.at(pin) == Some(e.0)) && (v.at(pin) is Ok
                ==> errs.0.at(pin) is None),
{
    assert forall|j: int| 0 <= j < 8 implies #[trigger] v.0@[j] == v.at(gpio_pin_at(j)) by {}
    if forall|pin: GpioPin| (#[trigger] v.at(pin)) is Ok {
        assert forall|j: int| 0 <= j < 8 implies (#[trigger] v.0@[j]) is Ok by {
            assert(v.at(gpio_pin_at(j)) is Ok);
        }
    }
    assert forall|pin: GpioPin| #[trigger] write_mismatches(v).at(pin) == write_mismatch_at(
        v,
        gpio_pin_index(pin) as int,
    ) by {}
}

/// GPIO access: digital read, digital write and rising-edge interrupts for the
/// eight pins G0 - G7.
///
/// Implementations keep the state of every pin; `get_state` reports it, and
/// only `set_state` changes it. Reading a pin fails exactly when it is
/// disabled or in output mode (reads in interrupt mode are allowed); writing a
/// pin fails exactly when it is not in output mode.
pub trait Gpio<'a>: Default {
    /// The state this implementation holds for `pin`.
    spec fn pin_state(&self, pin: GpioPin) -> GpioState;

    /// The level this implementation drives `pin` to when it is an output.
    spec fn pin_output(&self, pin: GpioPin) -> bool;

    /// Puts `pin` in `state`; may fail when the hardware cannot be
    /// configured so.
    fn set_state(&mut self, pin: GpioPin, state: GpioState) -> (r: Result<(), GpioMiscError>)
        ensures
            r is Ok ==> final(self).pin_state(pin) == state,
    ;

    fn get_state(&self, pin: GpioPin) -> (r: GpioState)
        ensures
            r == self.pin_state(pin),
    ;

    /// The states of all the pins.
    fn get_states(&self) -> (r: GpioPinArr<GpioState>)
        ensures
            forall|pin: GpioPin| #[trigger] r.at(pin) == self.pin_state(pin),
    {
        let mut states = GpioPinArr([GpioState::Disabled; 8]);
        let pins = gpio_pins();
        let mut i: usize = 0;
        while i < 8
            invariant
                0 <= i <= 8,
                forall|j: int| 0 <= j < 8 ==> #[trigger] pins.0@[j] == gpio_pin_at(j),
                forall|j: int| 0 <= j < i ==> #[trigger] states.0@[j] == self.pin_state(gpio_pin_at(j)),
            decreases 8 - i,
        {
            let g = pins.0[i];
            states.0[i] = self.get_state(g);
            i += 1;
        }
        assert forall|pin: GpioPin| #[trigger] states.at(pin) == self.pin_state(pin) by {
            assert(gpio_pin_at(gpio_pin_index(pin) as int) == pin);
        }
        states
    }

    /// Errors on a state mismatch: exactly when the pin is disabled or in
    /// output mode.
    fn read(&self, pin: GpioPin) -> (r: Result<bool, GpioReadError>)
        ensures
            r is Err <==> gpio_read_fails(self.pin_state(pin)),
            r matches Err(e) ==> e.0 == (pin, self.pin_state(pin)),
    ;

    /// Reads every pin: each entry is what a read of that pin returned.
    fn read_all(&self) -> (r: GpioPinArr<Result<bool, GpioReadError>>)
        ensures
            forall|pin: GpioPin| #[trigger] r.at(pin) is Err <==> gpio_read_fails(self.pin_state(pin)),
            forall|pin: GpioPin| call_ensures(Self::read, (self, pin), #[trigger] r.at(pin)),
            forall|pin: GpioPin| #[trigger] r.at(pin) matches Err(e) ==> e.0 == (pin, self.pin_state(pin)),
    {
        let mut readings: GpioPinArr<Result<bool, GpioReadError>> = GpioPinArr([Ok(false); 8]);
        let pins = gpio_pins();
        let mut i: usize = 0;
        while i < 8
            invariant
                0 <= i <= 8,
                forall|j: int| 0 <= j < 8 ==> #[trigger] pins.0@[j] == gpio_pin_at(j),
                forall|j: int|
                    0 <= j < i ==> ((#[trigger] readings.0@[j]) is Err <==> gpio_read_fails(
                        self.pin_state(gpio_pin_at(j)),
                    )),
                forall|j: int|
                    0 <= j < i ==> call_ensures(Self::read, (self, gpio_pin_at(j)), #[trigger] readings.0@[j]),
                forall|j: int|
                    0 <= j < i ==> (#[trigger] readings.0@[j] matches Err(e) ==> e.0 == (
                        gpio_pin_at(j),
                        self.pin_state(gpio_pin_at(j)),
                    )),
            decreases 8 - i,
        {
            let g = pins.0[i];
            readings.0[i] = self.read(g);
            i += 1;
        }
        assert forall|pin: GpioPin| #[trigger] readings.at(pin) is Err <==> gpio_read_fails(self.pin_state(pin)) by {
            assert(gpio_pin_at(gpio_pin_index(pin) as int) == pin);
        }
        assert forall|pin: GpioPin| call_ensures(Self::read, (self, pin), #[trigger] readings.at(pin)) by {
            assert(gpio_pin_at(gpio_pin_index(pin) as int) == pin);
        }
        assert forall|pin: GpioPin| (#[trigger] readings.at(pin) matches Err(e) ==> e.0 == (pin, self.pin_state(pin))) by {
            assert(gpio_pin_at(gpio_pin_index(pin) as int) == pin);
        }
        readings
    }

    /// Errors on a state mismatch: exactly when the pin is not in output
    /// mode. A successful write drives the pin to `bit`; a write leaves the
    /// states of all pins, and the outputs of the other pins, as they were.
    fn write(&mut self, pin: GpioPin, bit: bool) -> (r: Result<(), GpioWriteError>)
        ensures
            r is Err <==> gpio_write_fails(old(self).pin_state(pin)),
            r is Ok ==> final(self).pin_output(pin) == bit,
            r matches Err(e) ==> e.0 == (pin, old(self).pin_state(pin)),
            forall|p: GpioPin| #[trigger] final(self).pin_state(p) == old(self).pin_state(p),
            forall|p: GpioPin| p != pin ==> #[trigger] final(self).pin_output(p) == old(self).pin_output(p),
    ;

    /// Writes each pin its bit; each entry fails or succeeds as a write of
    /// that pin does, and each pin written successfully is driven to its bit.
    fn write_all(&mut self, bits: GpioPinArr<bool>) -> (r: GpioPinArr<Result<(), GpioWriteError>>)
        ensures
            forall|pin: GpioPin| #[trigger] r.at(pin) is Err <==> gpio_write_fails(old(self).pin_state(pin)),
            forall|pin: GpioPin| #[trigger] r.at(pin) is Ok ==> final(self).pin_output(pin) == bits.at(pin),
            forall|pin: GpioPin| #[trigger] r.at(pin) matches Err(e) ==> e.0 == (pin, old(self).pin_state(pin)),
            forall|p: GpioPin| #[trigger] final(self).pin_state(p) == old(self).pin_state(p),
    {
        let mut errors: GpioPinArr<Result<(), GpioWriteError>> = GpioPinArr([Ok(()); 8]);
        let pins = gpio_pins();
        let mut i: usize = 0;
        while i < 8
            invariant
                0 <= i <= 8,
                forall|j: int| 0 <= j < 8 ==> #[trigger] pins.0@[j] == gpio_pin_at(j),
                forall|p: GpioPin| #[trigger] self.pin_state(p) == old(self).pin_state(p),
                forall|j: int|
                    0 <= j < i ==> ((#[trigger] errors.0@[j]) is Err <==> gpio_write_fails(
                        old(self).pin_state(gpio_pin_at(j)),
                    )),
                forall|j: int|
                    0 <= j < i ==> (#[trigger] errors.0@[j]) is Ok ==> self.pin_output(gpio_pin_at(j))
                        == bits.0@[j],
                forall|j: int|
                    0 <= j < i ==> (#[trigger] errors.0@[j] matches Err(e) ==> e.0 == (
                        gpio_pin_at(j),
                        old(self).pin_state(gpio_pin_at(j)),
                    )),
            decreases 8 - i,
        {
            let g = pins.0[i];
            errors.0[i] = self.write(g, bits.0[i]);
            i += 1;
        }
        assert forall|pin: GpioPin| #[trigger] errors.at(pin) is Err <==> gpio_write_fails(old(self).pin_state(pin)) by {
            assert(gpio_pin_at(gpio_pin_index(pin) as int) == pin);
        }
        assert forall|pin: GpioPin| #[trigger] errors.at(pin) is Ok implies self.pin_output(pin) == bits.at(pin) by {
            assert(gpio_pin_at(gpio_pin_index(pin) as int) == pin);
        }
        assert forall|pin: GpioPin| (#[trigger] errors.at(pin) matches Err(e) ==> e.0 == (pin, old(self).pin_state(pin))) by {
            assert(gpio_pin_at(gpio_pin_index(pin) as int) == pin);
        }
        errors
    }

    fn register_interrupt_flags(&mut self, flags: &'a GpioPinArr<AtomicBool>);

    /// Whether a rising edge has raised `pin`'s interrupt; interrupts are
    /// only raised for pins in interrupt mode.
    fn interrupt_occurred(&self, pin: GpioPin) -> (r: bool)
        ensures
            r ==> self.pin_state(pin) == GpioState::Interrupt,
    ;

    fn reset_interrupt_flag(&mut self, pin: GpioPin);

    /// Whether `pin` is in interrupt mode.
    fn interrupts_enabled(&self, pin: GpioPin) -> (r: bool)
        ensures
            r == (self.pin_state(pin) == GpioState::Interrupt),
    {
        let s = self.get_state(pin);
        match s {
            GpioState::Interrupt => true,
            _ => false,
        }
    }
}

} // verus!

use core::convert::TryFrom;
use core::sync::atomic::AtomicBool;
use lc3::gpio::GpioPin::{G0, G1, G2, G3, G4, G5, G6, G7};
use lc3::{
    gpio_pins, timers, Gpio, GpioMiscError, GpioPin, GpioPinArr, GpioReadError, GpioReadErrors,
    GpioState, GpioWriteError, GpioWriteErrors, TimerArr, TimerId, TimerMiscError, TimerState,
    Timers, Word,
};

#[test]
fn pins_are_numbered_in_order() {
    let pins = gpio_pins();
    for (i, p) in pins.iter().enumerate() {
        assert_eq!(usize::from(*p), i);
        assert_eq!(pins[*p], *p);
    }
    assert_eq!(usize::from(G5), 5);
    assert_eq!(GpioPin::NUM_PINS, 8);
}

#[test]
fn pins_are_ordered_by_number() {
    let pins = [G0, G1, G2, G3, G4, G5, G6, G7];
    for p in pins {
        for q in pins {
            assert_eq!(p < q, usize::from(p) < usize::from(q));
            assert_eq!(p == q, usize::from(p) == usize::from(q));
            assert_eq!(p.cmp(&q), usize::from(p).cmp(&usize::from(q)));
        }
    }
}

#[test]
fn pin_arrays_index_by_pin() {
    let mut arr = GpioPinArr([0u8; 8]);
    arr[G3] = 33;
    arr[G7] += 7;
    assert_eq!(arr[G3], 33);
    assert_eq!(arr.0, [0, 0, 0, 33, 0, 0, 0, 7]);
    assert_eq!(arr.len(), 8);
}

#[test]
fn read_errors_only_when_some_read_failed() {
    let all_ok = GpioPinArr([Ok(true); 8]);
    assert_eq!(GpioReadErrors::try_from(all_ok), Err(()));

    let mut readings: GpioPinArr<Result<bool, GpioReadError>> = GpioPinArr([Ok(false); 8]);
    readings[G2] = Err(GpioReadError((G2, GpioState::Output)));
    readings[G6] = Err(GpioReadError((G6, GpioState::Disabled)));
    let errors = GpioReadErrors::try_from(readings).unwrap();
    assert_eq!(
        errors.0 .0,
        [
            None,
            None,
            Some((G2, GpioState::Output)),
            None,
            None,
            None,
            Some((G6, GpioState::Disabled)),
            None
        ]
    );
}

#[test]
fn write_errors_only_when_some_write_failed() {
    let all_ok: GpioPinArr<Result<(), GpioWriteError>> = GpioPinArr([Ok(()); 8]);
    assert_eq!(GpioWriteErrors::try_from(all_ok), Err(()));

    let mut results: GpioPinArr<Result<(), GpioWriteError>> = GpioPinArr([Ok(()); 8]);
    results[G0] = Err(GpioWriteError((G0, GpioState::Input)));
    let errors = GpioWriteErrors::try_from(results).unwrap();
    assert_eq!(errors.0[G0], Some((G0, GpioState::Input)));
    assert_eq!(errors.0[G1], None);
}

#[derive(Default)]
struct PinBoard {
    states: [Option<GpioState>; 8],
    levels: [bool; 8],
}

impl PinBoard {
    fn state(&self, pin: GpioPin) -> GpioState {
        self.states[usize::from(pin)].unwrap_or(GpioState::Disabled)
    }
}

impl<'a> Gpio<'a> for PinBoard {
    fn pin_state(&self, pin: GpioPin) -> GpioState {
        self.state(pin)
    }

    fn pin_output(&self, pin: GpioPin) -> bool {
        self.levels[usize::from(pin)]
    }

    fn set_state(&mut self, pin: GpioPin, state: GpioState) -> Result<(), GpioMiscError> {
        self.states[usize::from(pin)] = Some(state);
        Ok(())
    }

    fn get_state(&self, pin: GpioPin) -> GpioState {
        self.state(pin)
    }

    fn read(&self, pin: GpioPin) -> Result<bool, GpioReadError> {
        match self.state(pin) {
            GpioState::Input | GpioState::Interrupt => Ok(self.levels[usize::from(pin)]),
            s => Err(GpioReadError((pin, s))),
        }
    }

    fn write(&mut self, pin: GpioPin, bit: bool) -> Result<(), GpioWriteError> {
        match self.state(pin) {
            GpioState::Output => {
                self.levels[usize::from(pin)] = bit;
                Ok(())
            }
            s => Err(GpioWriteError((pin, s))),
        }
    }

    fn register_interrupt_flags(&mut self, _flags: &'a GpioPinArr<AtomicBool>) {}

    fn interrupt_occurred(&self, _pin: GpioPin) -> bool {
        false
    }

    fn reset_interrupt_flag(&mut self, _pin: GpioPin) {}
}

#[test]
fn gpio_default_methods_follow_the_pin_states() {
    let mut board = PinBoard::default();
    board.set_state(G0, GpioState::Input).unwrap();
    board.set_state(G1, GpioState::Output).unwrap();
    board.set_state(G2, GpioState::Interrupt).unwrap();

    let states = board.get_states();
    assert_eq!(states[G0], GpioState::Input);
    assert_eq!(states[G1], GpioState::Output);
    assert_eq!(states[G2], GpioState::Interrupt);
    assert_eq!(states[G3], GpioState::Disabled);

    let writes = board.write_all(GpioPinArr([true; 8]));
    assert_eq!(writes[G1], Ok(()));
    assert!(board.pin_output(G1));
    assert!(!board.pin_output(G0));
    assert_eq!(writes[G0], Err(GpioWriteError((G0, GpioState::Input))));
    assert_eq!(writes[G4], Err(GpioWriteError((G4, GpioState::Disabled))));

    let reads = board.read_all();
    assert_eq!(reads[G0], Ok(false));
    assert_eq!(reads[G2], Ok(false));
    assert!(reads[G1].is_err());
    for pin in [G3, G4, G5, G6, G7] {
        assert!(reads[pin].is_err());
    }
    let errors = GpioReadErrors::try_from(reads).unwrap();
    assert_eq!(errors.0[G1], Some((G1, GpioState::Output)));
    assert_eq!(errors.0[G0], None);

    assert!(board.interrupts_enabled(G2));
    assert!(!board.interrupts_enabled(G0));
}

#[test]
fn timers_are_numbered_in_order() {
    let ids = timers();
    assert_eq!(ids.0, [TimerId::T0, TimerId::T1]);
    assert_eq!(usize::from(TimerId::T1), 1);
    assert_eq!(ids[TimerId::T1], TimerId::T1);
    assert_eq!(TimerId::NUM_TIMERS, 2);
    let mut periods = TimerArr([0u16; 2]);
    periods[TimerId::T1] = 500;
    assert_eq!(periods.0, [0, 500]);
}

#[derive(Default)]
struct TwoTimers {
    states: [Option<TimerState>; 2],
    periods: [Word; 2],
}

impl<'a> Timers<'a> for TwoTimers {
    fn timer_state(&self, timer: TimerId) -> TimerState {
        self.get_state(timer)
    }

    fn timer_period(&self, timer: TimerId) -> Word {
        self.get_period(timer)
    }

    fn set_state(&mut self, timer: TimerId, state: TimerState) -> Result<(), TimerMiscError> {
        self.states[usize::from(timer)] = Some(state);
        Ok(())
    }

    fn get_state(&self, timer: TimerId) -> TimerState {
        self.states[usize::from(timer)].unwrap_or(TimerState::Disabled)
    }

    fn set_period(&mut self, timer: TimerId, ms: Word) -> Result<(), TimerMiscError> {
        self.periods[usize::from(timer)] = ms;
        Ok(())
    }

    fn get_period(&self, timer: TimerId) -> Word {
        self.periods[usize::from(timer)]
    }

    fn register_interrupt_flags(&mut self, _flags: &'a TimerArr<AtomicBool>) {}

    fn interrupt_occurred(&self, _timer: TimerId) -> bool {
        false
    }

    fn reset_interrupt_flag(&mut self, _timer: TimerId) {}

    fn interrupts_enabled(&self, timer: TimerId) -> bool {
        self.get_state(timer) != TimerState::Disabled
    }
}

#[test]
fn timer_default_methods_follow_each_timer() {
    let mut t = TwoTimers::default();
    t.set_state(TimerId::T1, TimerState::Repeated).unwrap();
    t.set_period(TimerId::T0, 250).unwrap();
    assert_eq!(t.get_states().0, [TimerState::Disabled, TimerState::Repeated]);
    assert_eq!(t.get_periods().0, [250, 0]);
}

//! Verified building blocks of an LC-3 simulator running on a microcontroller:
//! a fixed-capacity ring buffer, the GPIO and timer peripheral vocabularies,
//! the UART transport framing, and LC-3 instruction construction and encoding.

pub mod fifo;
pub mod gpio;
pub mod isa;
pub mod timers;
pub mod transport;
pub mod varint;

pub use fifo::{Fifo, FIFO_CAPACITY};
pub use gpio::{
    gpio_pins, Gpio, GpioMiscError, GpioPin, GpioPinArr, GpioReadError, GpioReadErrors,
    GpioState, GpioStateMismatch, GpioStateMismatches, GpioWriteError, GpioWriteErrors,
    NUM_GPIO_PINS,
};
pub use isa::{program, Addr, Instruction, PseudoOp, Reg, Word};
pub use timers::{timers, TimerArr, TimerId, TimerMiscError, TimerState, TimerStateMismatch, Timers};
pub use transport::{
    frame_control_message, ControlMailbox, Receiver, RxEvent, RxFault, RxState,
    CONSOLE_INPUT_SLUG, CONTROL_MESSAGE_SLUG, TX_BUF_CAPACITY,
};

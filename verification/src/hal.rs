//! What the hardware of a node is told to do: the words for its LEDs, the
//! bytes that go through its serial ports, its clock, and how it is set up.

pub mod board;
pub mod leds;
pub mod sdi;
pub mod systick;
pub mod usart;

//! How a node is set up, and how it is left: what is written to which part of
//! the chip, and in what order.

use vstd::prelude::*;

use crate::hal::leds::{Leds, LedsModel};
use crate::hal::usart::{RxModel, UsartRx, UsartTx, USART_RX_CAPACITY};

verus! {

/// The frequency of the internal oscillator.
pub const HSI_HZ: u32 = 8_000_000;

/// By how much the oscillator is multiplied.
pub const PLL_MULTIPLIER: u32 = 18;

/// The frequency of the system and of its buses.
pub const HCLK_HZ: u32 = 144_000_000;

/// By what the bus frequency, over sixteen, is divided for the serial ports.
pub const USART_DIVIDER: u32 = 9;

/// How fast the serial ports are.
pub const USART_BAUD: u32 = 1_000_000;

/// The pin that switches the power of the LEDs, at port B.
pub const LED_PWR_PIN: usize = 3;

/// The pin that carries the words for the LEDs, at port B.
pub const LED_DATA_PIN: usize = 5;

/// The first of the registers that disable interrupts.
pub const PFIC_IRER0: u32 = 0xE000_E180;

/// The first of the registers that clear pending interrupts.
pub const PFIC_IPRR0: u32 = 0xE000_E280;

/// A group of pins.
#[derive(Clone, Copy, PartialEq, Eq, Structural, Debug)]
pub enum GpioPort {
    A,
    B,
}

/// How a pin is driven.
#[derive(Clone, Copy, PartialEq, Eq, Structural, Debug)]
pub enum PinMode {
    /// By the program, both ways.
    PushPullOut,
    /// By a peripheral, towards ground.
    AfOpenDrainOut,
}

/// Which half of the configuration registers a pin belongs to, and its place in it.
#[derive(Clone, Copy, PartialEq, Eq, Structural, Debug)]
pub enum PinSlot {
    Low(usize),
    High(usize),
}

/// A serial port.
#[derive(Clone, Copy, PartialEq, Eq, Structural, Debug)]
pub enum Usart {
    Usart1,
    Usart2,
    Usart3,
    Usart4,
}

/// What a serial port is wired to. Channels are counted from zero.
#[derive(Clone, Copy, PartialEq, Eq, Structural, Debug)]
pub struct UsartWiring {
    pub usart: Usart,
    pub gpio_port: GpioPort,
    pub gpio_pin: usize,
    pub dma_tx_channel: usize,
    pub dma_rx_channel: usize,
}

/// The source of an interrupt.
#[derive(Clone, Copy, PartialEq, Eq, Structural, Debug)]
pub enum Interrupt {
    Spi1,
    SysTick,
    Usart(Usart),
    /// A channel, counted from one.
    DmaChannel(usize),
}

/// A part of the chip that has a clock of its own.
#[derive(Clone, Copy, PartialEq, Eq, Structural, Debug)]
pub enum Peripheral {
    GpioA,
    GpioB,
    Afio,
    Spi1,
    Usart(Usart),
    Dma1,
}

/// A step of setting up a node.
#[derive(Clone, Copy, PartialEq, Eq, Structural, Debug)]
pub enum InitStep {
    /// Turn the internal oscillator on, and wait until it is ready.
    StartOscillator,
    /// Multiply the internal oscillator.
    SetPll { multiplier: u32 },
    /// Run all buses at the frequency of the system.
    UndividedBuses,
    /// Turn the multiplier on, and wait until it is ready.
    StartPll,
    /// Run from the multiplier, and wait until that is so.
    SwitchToPll,
    /// Find the interrupt handlers at the start of flash.
    SetTrapVector,
    /// Tell the time driver the frequency of the system.
    StartTimeDriver { hclk: u32 },
    EnableClock(Peripheral),
    /// Make the debug interface available, and give it time.
    StartDebugPrint { delay_cycles: u32 },
    /// Drive a pin high.
    SetPin { port: GpioPort, pin: usize },
    ConfigurePin { port: GpioPort, pin: usize, mode: PinMode },
    /// Let the LED port use the pin that it is wired to.
    RemapSpi1,
    /// Set up the LED port as a master that sends sixteen bits at once, the
    /// highest first.
    ConfigureSpi1 { divider: u32 },
    /// Let urgent interrupts break into others, in two levels.
    NestInterrupts { intsyscr: usize },
    /// Set up a serial port.
    StartUsart(UsartWiring),
    EnableInterrupt { interrupt: Interrupt, priority: u8 },
    /// Let a pending interrupt end a sleep.
    WakeOnPending,
    EnableSpi1,
}

/// A step of setting up a serial port. Channels are counted from zero.
#[derive(Clone, Copy, PartialEq, Eq, Structural, Debug)]
pub enum UsartStep {
    ConfigurePin { port: GpioPort, slot: PinSlot, mode: PinMode },
    /// How fast it is.
    SetDivider(u32),
    /// Eight data bits, both directions, and an interrupt when the line falls silent.
    ConfigureFrame,
    /// One wire for both directions, and channels to move the bytes.
    ConfigureHalfDuplex,
    /// A channel that moves the bytes of a transfer from memory, once.
    ConfigureTxChannel { channel: usize },
    /// A channel that moves bytes to memory, round and round.
    ConfigureRxChannel { channel: usize },
    /// Connect a channel to the port.
    ConnectChannel { channel: usize },
    /// Where a channel puts its bytes, and how many before it comes round.
    SetRxBuffer { channel: usize, len: u16 },
    EnableChannel { channel: usize },
    EnableUsart,
}

/// A step of leaving a node to another program.
#[derive(Clone, Copy, PartialEq, Eq, Structural, Debug)]
pub enum BranchStep {
    /// Set the reset registers of all buses.
    ResetPeripherals { value: u32 },
    /// Run from the internal oscillator, and wait until that is so.
    SwitchToOscillator,
    StopPll,
    UndividedBuses,
    /// Turn the clocks of all peripherals off.
    DisableClocks,
    /// Write a register.
    Write { address: u32, value: u32 },
    /// Go to the other program.
    Jump(Program),
}

/// What a node can be left to.
#[derive(Clone, Copy, PartialEq, Eq, Structural, Debug)]
pub enum Program {
    Bootloader,
    App,
}

/// What a program gets of a node.
pub struct Hardware {
    pub leds: Leds,
    pub led_pwr: LedPwr,
    /// The sending sides of the ports to the north, south, east and west.
    pub usarts_tx: [UsartTx; 4],
    /// The receiving sides of the ports to the north, south, east and west.
    pub usarts_rx: [UsartRx; 4],
}

/// The power of the LEDs.
pub struct LedPwr {}

/// What a pin is to be.
#[derive(Clone, Copy, PartialEq, Eq, Structural, Debug)]
pub enum PinWrite {
    High { port: GpioPort, pin: usize },
    Low { port: GpioPort, pin: usize },
}

impl LedPwr {
    /// Turns the LEDs on or off. The pin that does it is low for on.
    pub fn set_pwr(&mut self, on: bool) -> (write: PinWrite)
        ensures
            on ==> write == (PinWrite::Low { port: GpioPort::B, pin: LED_PWR_PIN }),
            !on ==> write == (PinWrite::High { port: GpioPort::B, pin: LED_PWR_PIN }),
    {
        if on {
            PinWrite::Low { port: GpioPort::B, pin: LED_PWR_PIN }
        } else {
            PinWrite::High { port: GpioPort::B, pin: LED_PWR_PIN }
        }
    }
}

/// Where a pin is configured: eight of them share a register.
pub fn pin_slot(pin: usize) -> (slot: PinSlot)
    ensures
        slot == if pin >= 8 {
            PinSlot::High((pin - 8) as usize)
        } else {
            PinSlot::Low(pin)
        },
{
    if pin >= 8 {
        PinSlot::High(pin - 8)
    } else {
        PinSlot::Low(pin)
    }
}

/// What a serial port is wired to.
pub open spec fn wiring(usart: Usart) -> UsartWiring {
    match usart {
        Usart::Usart1 => UsartWiring {
            usart,
            gpio_port: GpioPort::A,
            gpio_pin: 9,
            dma_tx_channel: 3,
            dma_rx_channel: 4,
        },
        Usart::Usart2 => UsartWiring {
            usart,
            gpio_port: GpioPort::A,
            gpio_pin: 2,
            dma_tx_channel: 6,
            dma_rx_channel: 5,
        },
        Usart::Usart3 => UsartWiring {
            usart,
            gpio_port: GpioPort::B,
            gpio_pin: 10,
            dma_tx_channel: 1,
            dma_rx_channel: 2,
        },
        Usart::Usart4 => UsartWiring {
            usart,
            gpio_port: GpioPort::B,
            gpio_pin: 0,
            dma_tx_channel: 0,
            dma_rx_channel: 7,
        },
    }
}

/// What a serial port is wired to.
pub fn usart_wiring(usart: Usart) -> (wired: UsartWiring)
    ensures
        wired == wiring(usart),
{
    match usart {
        Usart::Usart1 => UsartWiring {
            usart,
            gpio_port: GpioPort::A,
            gpio_pin: 9,
            dma_tx_channel: 3,
            dma_rx_channel: 4,
        },
        Usart::Usart2 => UsartWiring {
            usart,
            gpio_port: GpioPort::A,
            gpio_pin: 2,
            dma_tx_channel: 6,
            dma_rx_channel: 5,
        },
        Usart::Usart3 => UsartWiring {
            usart,
            gpio_port: GpioPort::B,
            gpio_pin: 10,
            dma_tx_channel: 1,
            dma_rx_channel: 2,
        },
        Usart::Usart4 => UsartWiring {
            usart,
            gpio_port: GpioPort::B,
            gpio_pin: 0,
            dma_tx_channel: 0,
            dma_rx_channel: 7,
        },
    }
}

/// The steps that set up a serial port whose circular buffer is `buffer_len` long.
pub open spec fn usart_steps(wired: UsartWiring, buffer_len: usize) -> Seq<UsartStep> {
    let tx = wired.dma_tx_channel;
    let rx = wired.dma_rx_channel;
    seq![
        UsartStep::ConfigurePin {
            port: wired.gpio_port,
            slot: if wired.gpio_pin >= 8 {
                PinSlot::High((wired.gpio_pin - 8) as usize)
            } else {
                PinSlot::Low(wired.gpio_pin)
            },
            mode: PinMode::AfOpenDrainOut,
        },
        UsartStep::SetDivider(USART_DIVIDER),
        UsartStep::ConfigureFrame,
        UsartStep::ConfigureHalfDuplex,
        UsartStep::ConfigureTxChannel { channel: tx },
        UsartStep::ConnectChannel { channel: tx },
        UsartStep::ConfigureRxChannel { channel: rx },
        UsartStep::ConnectChannel { channel: rx },
        UsartStep::SetRxBuffer { channel: rx, len: buffer_len as u16 },
        UsartStep::EnableChannel { channel: rx },
        UsartStep::EnableUsart,
    ]
}

/// Initialize a USART peripheral in half-duplex mode at 1 Mbaud with DMA: the
/// steps to take, where the circular buffer is `buffer_len` long.
pub fn init_usart_halfduplex(wired: UsartWiring, buffer_len: usize) -> (steps: Vec<UsartStep>)
    requires
        wired.dma_tx_channel <= 7,
        wired.dma_rx_channel <= 7,
        buffer_len <= u16::MAX,
    ensures
        steps@ == usart_steps(wired, buffer_len),
{
    let tx: usize = wired.dma_tx_channel;
    let rx: usize = wired.dma_rx_channel;
    let mut steps: Vec<UsartStep> = Vec::new();
    // Configure GPIO pin as alternate function open-drain
    steps.push(
        UsartStep::ConfigurePin {
            port: wired.gpio_port,
            slot: pin_slot(wired.gpio_pin),
            mode: PinMode::AfOpenDrainOut,
        },
    );
    // Configure USART for half-duplex mode at 1 Mbaud
    steps.push(UsartStep::SetDivider(USART_DIVIDER));
    steps.push(UsartStep::ConfigureFrame);
    steps.push(UsartStep::ConfigureHalfDuplex);
    // Configure DMA TX channel (one-shot mode)
    steps.push(UsartStep::ConfigureTxChannel { channel: tx });
    steps.push(UsartStep::ConnectChannel { channel: tx });
    // Configure DMA RX channel (circular buffer mode)
    steps.push(UsartStep::ConfigureRxChannel { channel: rx });
    steps.push(UsartStep::ConnectChannel { channel: rx });
    // Set RX DMA memory address and buffer size
    steps.push(UsartStep::SetRxBuffer { channel: rx, len: buffer_len as u16 });
    steps.push(UsartStep::EnableChannel { channel: rx });
    // Enable USART
    steps.push(UsartStep::EnableUsart);
    assert(steps@ =~= usart_steps(wired, buffer_len));
    steps
}

/// The steps that make the interrupts of a serial port heard.
pub open spec fn usart_interrupt_steps(wired: UsartWiring) -> Seq<InitStep> {
    seq![
        InitStep::EnableInterrupt { interrupt: Interrupt::Usart(wired.usart), priority: 0x80 },
        InitStep::EnableInterrupt {
            interrupt: Interrupt::DmaChannel((wired.dma_tx_channel + 1) as usize),
            priority: 0x80,
        },
        InitStep::EnableInterrupt {
            interrupt: Interrupt::DmaChannel((wired.dma_rx_channel + 1) as usize),
            priority: 0x80,
        },
    ]
}

/// The steps that bring the system to its full frequency.
pub open spec fn clock_steps() -> Seq<InitStep> {
    seq![
        InitStep::StartOscillator,
        InitStep::SetPll { multiplier: PLL_MULTIPLIER },
        InitStep::UndividedBuses,
        InitStep::StartPll,
        InitStep::SwitchToPll,
        InitStep::SetTrapVector,
        InitStep::StartTimeDriver { hclk: HCLK_HZ },
    ]
}

/// The steps that turn on the clocks of what is used.
pub open spec fn peripheral_steps() -> Seq<InitStep> {
    seq![
        InitStep::EnableClock(Peripheral::GpioA),
        InitStep::EnableClock(Peripheral::GpioB),
        InitStep::EnableClock(Peripheral::Afio),
        InitStep::EnableClock(Peripheral::Spi1),
        InitStep::EnableClock(Peripheral::Usart(Usart::Usart1)),
        InitStep::EnableClock(Peripheral::Usart(Usart::Usart2)),
        InitStep::EnableClock(Peripheral::Usart(Usart::Usart3)),
        InitStep::EnableClock(Peripheral::Usart(Usart::Usart4)),
        InitStep::EnableClock(Peripheral::Dma1),
        InitStep::StartDebugPrint { delay_cycles: 100_000 },
    ]
}

/// The steps that set up the LEDs, whose power is off to begin with.
pub open spec fn led_steps() -> Seq<InitStep> {
    seq![
        InitStep::SetPin { port: GpioPort::B, pin: LED_PWR_PIN },
        InitStep::ConfigurePin { port: GpioPort::B, pin: LED_PWR_PIN, mode: PinMode::PushPullOut },
        InitStep::ConfigurePin {
            port: GpioPort::B,
            pin: LED_DATA_PIN,
            mode: PinMode::AfOpenDrainOut,
        },
        InitStep::RemapSpi1,
        InitStep::ConfigureSpi1 { divider: 32 },
        InitStep::NestInterrupts { intsyscr: 0x7 },
    ]
}

/// The steps that set up the serial ports and make all interrupts heard.
pub open spec fn port_steps() -> Seq<InitStep> {
    seq![
        InitStep::StartUsart(wiring(Usart::Usart1)),
        InitStep::StartUsart(wiring(Usart::Usart2)),
        InitStep::StartUsart(wiring(Usart::Usart3)),
        InitStep::StartUsart(wiring(Usart::Usart4)),
        InitStep::EnableInterrupt { interrupt: Interrupt::Spi1, priority: 0x00 },
        InitStep::EnableInterrupt { interrupt: Interrupt::SysTick, priority: 0xFF },
    ] + usart_interrupt_steps(wiring(Usart::Usart1)) + usart_interrupt_steps(wiring(Usart::Usart2))
        + usart_interrupt_steps(wiring(Usart::Usart3)) + usart_interrupt_steps(
        wiring(Usart::Usart4),
    ) + seq![InitStep::WakeOnPending, InitStep::EnableSpi1]
}

/// The steps that set up a node.
pub open spec fn init_steps() -> Seq<InitStep> {
    clock_steps() + peripheral_steps() + led_steps() + port_steps()
}

fn push_clock_steps(steps: &mut Vec<InitStep>)
    ensures
        final(steps)@ == old(steps)@ + clock_steps(),
{
    // Configure system clock to 144 MHz from HSI
    steps.push(InitStep::StartOscillator);
    steps.push(InitStep::SetPll { multiplier: PLL_MULTIPLIER });
    steps.push(InitStep::UndividedBuses);
    steps.push(InitStep::StartPll);
    steps.push(InitStep::SwitchToPll);
    steps.push(InitStep::SetTrapVector);
    // Initialize time driver with SysTick
    steps.push(InitStep::StartTimeDriver { hclk: HCLK_HZ });
    assert(steps@ =~= old(steps)@ + clock_steps());
}

fn push_peripheral_steps(steps: &mut Vec<InitStep>)
    ensures
        final(steps)@ == old(steps)@ + peripheral_steps(),
{
    // Enable peripheral clocks
    steps.push(InitStep::EnableClock(Peripheral::GpioA));
    steps.push(InitStep::EnableClock(Peripheral::GpioB));
    steps.push(InitStep::EnableClock(Peripheral::Afio));
    steps.push(InitStep::EnableClock(Peripheral::Spi1));
    steps.push(InitStep::EnableClock(Peripheral::Usart(Usart::Usart1)));
    steps.push(InitStep::EnableClock(Peripheral::Usart(Usart::Usart2)));
    steps.push(InitStep::EnableClock(Peripheral::Usart(Usart::Usart3)));
    steps.push(InitStep::EnableClock(Peripheral::Usart(Usart::Usart4)));
    steps.push(InitStep::EnableClock(Peripheral::Dma1));
    // Enable SDI print
    steps.push(InitStep::StartDebugPrint { delay_cycles: 100_000 });
    assert(steps@ =~= old(steps)@ + peripheral_steps());
}

fn push_led_steps(steps: &mut Vec<InitStep>)
    ensures
        final(steps)@ == old(steps)@ + led_steps(),
{
    // PB3 enables LED power when low
    // Start with it HIGH (power disabled)
    steps.push(InitStep::SetPin { port: GpioPort::B, pin: LED_PWR_PIN });
    steps.push(
        InitStep::ConfigurePin { port: GpioPort::B, pin: LED_PWR_PIN, mode: PinMode::PushPullOut },
    );
    // Configure SPI1 pins for WS2812 output
    steps.push(
        InitStep::ConfigurePin {
            port: GpioPort::B,
            pin: LED_DATA_PIN,
            mode: PinMode::AfOpenDrainOut,
        },
    );
    steps.push(InitStep::RemapSpi1);
    steps.push(InitStep::ConfigureSpi1 { divider: 32 });
    // Configure interrupt nesting with 2 levels, 1 preemption bit (bit 7)
    steps.push(InitStep::NestInterrupts { intsyscr: 0x7 });
    assert(steps@ =~= old(steps)@ + led_steps());
}

fn push_usart_interrupt_steps(steps: &mut Vec<InitStep>, wired: UsartWiring)
    requires
        wired.dma_tx_channel <= 7,
        wired.dma_rx_channel <= 7,
    ensures
        final(steps)@ == old(steps)@ + usart_interrupt_steps(wired),
{
    // Low preemption priority (bit7=1)
    steps.push(
        InitStep::EnableInterrupt { interrupt: Interrupt::Usart(wired.usart), priority: 0x80 },
    );
    steps.push(
        InitStep::EnableInterrupt {
            interrupt: Interrupt::DmaChannel(wired.dma_tx_channel + 1),
            priority: 0x80,
        },
    );
    steps.push(
        InitStep::EnableInterrupt {
            interrupt: Interrupt::DmaChannel(wired.dma_rx_channel + 1),
            priority: 0x80,
        },
    );
    assert(steps@ =~= old(steps)@ + usart_interrupt_steps(wired));
}

fn push_port_steps(steps: &mut Vec<InitStep>)
    ensures
        final(steps)@ == old(steps)@ + port_steps(),
{
    // Initialize all 4 USARTs in half-duplex mode at 1 Mbaud
    steps.push(InitStep::StartUsart(usart_wiring(Usart::Usart1)));
    steps.push(InitStep::StartUsart(usart_wiring(Usart::Usart2)));
    steps.push(InitStep::StartUsart(usart_wiring(Usart::Usart3)));
    steps.push(InitStep::StartUsart(usart_wiring(Usart::Usart4)));
    // SPI1 has highest priority (can preempt all USART/DMA interrupts)
    steps.push(InitStep::EnableInterrupt { interrupt: Interrupt::Spi1, priority: 0x00 });
    // SysTick has the lowest priority
    steps.push(InitStep::EnableInterrupt { interrupt: Interrupt::SysTick, priority: 0xFF });
    push_usart_interrupt_steps(steps, usart_wiring(Usart::Usart1));
    push_usart_interrupt_steps(steps, usart_wiring(Usart::Usart2));
    push_usart_interrupt_steps(steps, usart_wiring(Usart::Usart3));
    push_usart_interrupt_steps(steps, usart_wiring(Usart::Usart4));
    // Enable SEVONPEND so WFI wakes on pending interrupts even when globally disabled
    steps.push(InitStep::WakeOnPending);
    steps.push(InitStep::EnableSpi1);
    assert(steps@ =~= old(steps)@ + port_steps());
}

/// The order in which a program sees the serial ports.
pub open spec fn neighbour(i: int) -> Usart {
    if i == 0 {
        Usart::Usart3
    } else if i == 1 {
        Usart::Usart1
    } else if i == 2 {
        Usart::Usart4
    } else {
        Usart::Usart2
    }
}

impl Hardware {
    /// Sets a node up: the steps to take, and what a program gets when they
    /// have been taken.
    pub fn init() -> (result: (Vec<InitStep>, Hardware))
        ensures
            result.0@ == init_steps(),
            result.1.leds.inv(),
            result.1.leds@ == (LedsModel { frames: Seq::empty(), sent: None }),
            forall|i: int|
                0 <= i < 4 ==> (#[trigger] result.1.usarts_tx@[i]).dma_ch == wiring(
                    neighbour(i),
                ).dma_tx_channel + 1,
            forall|i: int|
                0 <= i < 4 ==> (#[trigger] result.1.usarts_rx@[i]).inv() && result.1.usarts_rx@[i]@
                    == (RxModel {
                    usart: neighbour(i),
                    bytes: Seq::empty(),
                    run: USART_RX_CAPACITY as nat,
                }),
            forall|i: int, j: int|
                0 <= i < j < 4 ==> (#[trigger] result.1.usarts_rx@[i])@.usart != (
                #[trigger] result.1.usarts_rx@[j])@.usart,
    {
        let mut steps: Vec<InitStep> = Vec::new();
        push_clock_steps(&mut steps);
        push_peripheral_steps(&mut steps);
        push_led_steps(&mut steps);
        push_port_steps(&mut steps);
        assert(steps@ =~= init_steps());
        let hardware = Hardware {
            leds: Leds::new(),
            led_pwr: LedPwr {  },
            // Order: USART3, USART1, USART4, USART2
            usarts_tx: [
                UsartTx { dma_ch: usart_wiring(Usart::Usart3).dma_tx_channel + 1 },
                UsartTx { dma_ch: usart_wiring(Usart::Usart1).dma_tx_channel + 1 },
                UsartTx { dma_ch: usart_wiring(Usart::Usart4).dma_tx_channel + 1 },
                UsartTx { dma_ch: usart_wiring(Usart::Usart2).dma_tx_channel + 1 },
            ],
            usarts_rx: [
                UsartRx::new(Usart::Usart3),
                UsartRx::new(Usart::Usart1),
                UsartRx::new(Usart::Usart4),
                UsartRx::new(Usart::Usart2),
            ],
        };
        (steps, hardware)
    }
}

/// The registers from `first` on, all bits set.
pub open spec fn clear_steps(first: u32) -> Seq<BranchStep> {
    Seq::new(
        4,
        |i: int| BranchStep::Write { address: (first + 4 * i) as u32, value: 0xFFFF_FFFF },
    )
}

/// The steps that leave a node to another program as if it had just been
/// switched on.
pub open spec fn branch_steps(program: Program) -> Seq<BranchStep> {
    seq![
        BranchStep::ResetPeripherals { value: 0xFFFF_FFFF },
        BranchStep::ResetPeripherals { value: 0x0000_0000 },
        BranchStep::SwitchToOscillator,
        BranchStep::StopPll,
        BranchStep::UndividedBuses,
        BranchStep::DisableClocks,
    ] + clear_steps(PFIC_IRER0) + clear_steps(PFIC_IPRR0) + seq![BranchStep::Jump(program)]
}

fn push_clear_steps(steps: &mut Vec<BranchStep>, first: u32)
    requires
        first <= u32::MAX - 16,
    ensures
        final(steps)@ == old(steps)@ + clear_steps(first),
{
    let mut offset: u32 = 0;
    while offset < 4
        invariant
            offset <= 4,
            first <= u32::MAX - 16,
            steps@ == old(steps)@ + clear_steps(first).take(offset as int),
        decreases 4 - offset,
    {
        steps.push(BranchStep::Write { address: first + 4 * offset, value: 0xFFFF_FFFF });
        offset = offset + 1;
        assert(steps@ =~= old(steps)@ + clear_steps(first).take(offset as int));
    }
    assert(clear_steps(first).take(4) =~= clear_steps(first));
}

/// Branch to bootloader or application firmware: the steps to take.
fn branch(program: Program) -> (steps: Vec<BranchStep>)
    ensures
        steps@ == branch_steps(program),
{
    let mut steps: Vec<BranchStep> = Vec::new();
    // Reset all hardware peripherals using RCC reset registers
    steps.push(BranchStep::ResetPeripherals { value: 0xFFFF_FFFF });
    steps.push(BranchStep::ResetPeripherals { value: 0x0000_0000 });
    // Reset clock to default state (HSI only, no PLL)
    // Switch to HSI before disabling PLL
    steps.push(BranchStep::SwitchToOscillator);
    steps.push(BranchStep::StopPll);
    steps.push(BranchStep::UndividedBuses);
    steps.push(BranchStep::DisableClocks);
    // Disable all interrupts in PFIC
    push_clear_steps(&mut steps, PFIC_IRER0);
    // Clear all pending interrupts in PFIC
    push_clear_steps(&mut steps, PFIC_IPRR0);
    // Branch to the program
    steps.push(BranchStep::Jump(program));
    assert(steps@ =~= branch_steps(program));
    steps
}

/// Branch to application firmware: the steps to take.
pub fn branch_to_app() -> (steps: Vec<BranchStep>)
    ensures
        steps@ == branch_steps(Program::App),
{
    branch(Program::App)
}

/// Branch to bootloader: the steps to take.
pub fn branch_to_bootloader() -> (steps: Vec<BranchStep>)
    ensures
        steps@ == branch_steps(Program::Bootloader),
{
    branch(Program::Bootloader)
}

/// The frequencies fit together: the system runs at the multiplied frequency
/// of the oscillator, and the serial ports at one megabaud.
pub proof fn law_frequencies_fit()
    ensures
        HSI_HZ * PLL_MULTIPLIER == HCLK_HZ,
        USART_BAUD * 16 * USART_DIVIDER == HCLK_HZ,
{
}

/// No two serial ports share a channel, and neither do the two sides of one.
pub proof fn law_channels_are_not_shared(a: Usart, b: Usart)
    ensures
        wiring(a).dma_tx_channel != wiring(b).dma_rx_channel,
        a != b ==> wiring(a).dma_tx_channel != wiring(b).dma_tx_channel,
        a != b ==> wiring(a).dma_rx_channel != wiring(b).dma_rx_channel,
        a != b ==> (wiring(a).gpio_port, wiring(a).gpio_pin) != (
            wiring(b).gpio_port,
            wiring(b).gpio_pin,
        ),
        wiring(a).dma_tx_channel <= 7,
        wiring(a).dma_rx_channel <= 7,
{
}

/// The system changes over to the multiplier only once that is running, and
/// nothing that depends on its frequency is set up before.
pub proof fn law_clock_comes_first(i: int)
    requires
        0 <= i < init_steps().len(),
        init_steps()[i] is StartUsart || init_steps()[i] is StartTimeDriver
            || init_steps()[i] is ConfigureSpi1 || init_steps()[i] is EnableInterrupt,
    ensures
        init_steps()[3] is StartPll,
        init_steps()[4] is SwitchToPll,
        i > 4,
{
    assert(init_steps()[0] == InitStep::StartOscillator);
    assert(init_steps()[1] == InitStep::SetPll { multiplier: PLL_MULTIPLIER });
    assert(init_steps()[2] == InitStep::UndividedBuses);
    assert(init_steps()[3] == InitStep::StartPll);
    assert(init_steps()[4] == InitStep::SwitchToPll);
}

/// Only the LED port breaks into other interrupts.
pub proof fn law_leds_come_before_other_interrupts(i: int)
    requires
        0 <= i < init_steps().len(),
        init_steps()[i] is EnableInterrupt,
    ensures
        init_steps()[i]->EnableInterrupt_priority < 0x80 <==> init_steps()[i]->interrupt
            == Interrupt::Spi1,
{
    let s = init_steps();
    let clock = clock_steps() + peripheral_steps();
    assert(s =~= clock + (led_steps() + port_steps()));
    if i < clock_steps().len() {
        assert(s[i] == clock_steps()[i]);
    } else if i < clock.len() {
        assert(s[i] == peripheral_steps()[i - clock_steps().len()]);
    } else if i < clock.len() + led_steps().len() {
        assert(s[i] == led_steps()[i - clock.len()]);
    } else {
        assert(s[i] == port_steps()[i - clock.len() - led_steps().len()]);
    }
}

/// A serial port starts only when its channels are in place.
pub proof fn law_port_starts_last(wired: UsartWiring, buffer_len: usize)
    ensures
        usart_steps(wired, buffer_len).last() is EnableUsart,
        forall|i: int|
            0 <= i < usart_steps(wired, buffer_len).len() - 1 ==> !((#[trigger] usart_steps(
                wired,
                buffer_len,
            )[i]) is EnableUsart),
{
}

/// A node is left by its last step, with nothing running on the multiplier
/// when that stops.
pub proof fn law_jump_comes_last(program: Program, i: int)
    requires
        0 <= i < branch_steps(program).len(),
    ensures
        branch_steps(program)[i] is Jump <==> i == branch_steps(program).len() - 1,
        branch_steps(program).last() == BranchStep::Jump(program),
        branch_steps(program)[i] is StopPll ==> branch_steps(program)[i - 1] is SwitchToOscillator,
{
    let s = branch_steps(program);
    if 6 <= i < 10 {
        assert(s[i] == clear_steps(PFIC_IRER0)[i - 6]);
    } else if 10 <= i < 14 {
        assert(s[i] == clear_steps(PFIC_IPRR0)[i - 10]);
    }
}

/// Which pins and channels the serial ports are wired to.
pub proof fn law_ports_are_wired()
    ensures
        wiring(Usart::Usart1) == (UsartWiring {
            usart: Usart::Usart1,
            gpio_port: GpioPort::A,
            gpio_pin: 9,
            dma_tx_channel: 3,
            dma_rx_channel: 4,
        }),
        wiring(Usart::Usart2) == (UsartWiring {
            usart: Usart::Usart2,
            gpio_port: GpioPort::A,
            gpio_pin: 2,
            dma_tx_channel: 6,
            dma_rx_channel: 5,
        }),
        wiring(Usart::Usart3) == (UsartWiring {
            usart: Usart::Usart3,
            gpio_port: GpioPort::B,
            gpio_pin: 10,
            dma_tx_channel: 1,
            dma_rx_channel: 2,
        }),
        wiring(Usart::Usart4) == (UsartWiring {
            usart: Usart::Usart4,
            gpio_port: GpioPort::B,
            gpio_pin: 0,
            dma_tx_channel: 0,
            dma_rx_channel: 7,
        }),
{
}

/// However a serial port is wired: its pin is driven by the port towards ground,
/// in the slot that the pin belongs to, its two channels are set up and connected,
/// and only the receiving one runs, round and round through the whole buffer.
pub proof fn law_port_is_set_up_as_wired(wired: UsartWiring, buffer_len: usize)
    requires
        buffer_len <= u16::MAX,
    ensures
        usart_steps(wired, buffer_len).len() == 11,
        wired.gpio_pin < 8 ==> usart_steps(wired, buffer_len)[0] == (UsartStep::ConfigurePin {
            port: wired.gpio_port,
            slot: PinSlot::Low(wired.gpio_pin),
            mode: PinMode::AfOpenDrainOut,
        }),
        wired.gpio_pin >= 8 ==> usart_steps(wired, buffer_len)[0] == (UsartStep::ConfigurePin {
            port: wired.gpio_port,
            slot: PinSlot::High((wired.gpio_pin - 8) as usize),
            mode: PinMode::AfOpenDrainOut,
        }),
        usart_steps(wired, buffer_len)[1] == UsartStep::SetDivider(9),
        usart_steps(wired, buffer_len)[2] is ConfigureFrame,
        usart_steps(wired, buffer_len)[3] is ConfigureHalfDuplex,
        usart_steps(wired, buffer_len)[4] == (UsartStep::ConfigureTxChannel {
            channel: wired.dma_tx_channel,
        }),
        usart_steps(wired, buffer_len)[5] == (UsartStep::ConnectChannel {
            channel: wired.dma_tx_channel,
        }),
        usart_steps(wired, buffer_len)[6] == (UsartStep::ConfigureRxChannel {
            channel: wired.dma_rx_channel,
        }),
        usart_steps(wired, buffer_len)[7] == (UsartStep::ConnectChannel {
            channel: wired.dma_rx_channel,
        }),
        usart_steps(wired, buffer_len)[8] is SetRxBuffer,
        usart_steps(wired, buffer_len)[8]->SetRxBuffer_channel == wired.dma_rx_channel,
        usart_steps(wired, buffer_len)[8]->len == buffer_len,
        usart_steps(wired, buffer_len)[9] == (UsartStep::EnableChannel {
            channel: wired.dma_rx_channel,
        }),
{
}

/// Every part of the chip that is used gets its clock, every serial port is
/// started, and its interrupts and those of its channels are heard.
pub proof fn law_everything_is_set_up(usart: Usart)
    ensures
        init_steps().contains(InitStep::EnableClock(Peripheral::GpioA)),
        init_steps().contains(InitStep::EnableClock(Peripheral::GpioB)),
        init_steps().contains(InitStep::EnableClock(Peripheral::Afio)),
        init_steps().contains(InitStep::EnableClock(Peripheral::Spi1)),
        init_steps().contains(InitStep::EnableClock(Peripheral::Dma1)),
        init_steps().contains(InitStep::EnableClock(Peripheral::Usart(usart))),
        init_steps().contains(InitStep::StartUsart(wiring(usart))),
        init_steps().contains(
            InitStep::EnableInterrupt { interrupt: Interrupt::Usart(usart), priority: 0x80 },
        ),
        init_steps().contains(
            InitStep::EnableInterrupt {
                interrupt: Interrupt::DmaChannel((wiring(usart).dma_tx_channel + 1) as usize),
                priority: 0x80,
            },
        ),
        init_steps().contains(
            InitStep::EnableInterrupt {
                interrupt: Interrupt::DmaChannel((wiring(usart).dma_rx_channel + 1) as usize),
                priority: 0x80,
            },
        ),
        init_steps().contains(
            InitStep::EnableInterrupt { interrupt: Interrupt::Spi1, priority: 0x00 },
        ),
        init_steps().contains(
            InitStep::EnableInterrupt { interrupt: Interrupt::SysTick, priority: 0xFF },
        ),
        init_steps().contains(InitStep::StartTimeDriver { hclk: 144_000_000 }),
        init_steps().contains(InitStep::SetPll { multiplier: 18 }),
        init_steps().contains(InitStep::SetPin { port: GpioPort::B, pin: 3 }),
        init_steps().contains(
            InitStep::ConfigurePin { port: GpioPort::B, pin: 3, mode: PinMode::PushPullOut },
        ),
        init_steps().contains(
            InitStep::ConfigurePin { port: GpioPort::B, pin: 5, mode: PinMode::AfOpenDrainOut },
        ),
        init_steps().contains(InitStep::RemapSpi1),
        init_steps().contains(InitStep::ConfigureSpi1 { divider: 32 }),
        init_steps().contains(InitStep::NestInterrupts { intsyscr: 0x7 }),
        init_steps()[41] is WakeOnPending,
        init_steps()[42] is EnableSpi1,
        init_steps().len() == 43,
{
    let s = init_steps();
    let n: int = match usart {
        Usart::Usart1 => 0,
        Usart::Usart2 => 1,
        Usart::Usart3 => 2,
        Usart::Usart4 => 3,
    };
    assert(s[1] == InitStep::SetPll { multiplier: 18 });
    assert(s[6] == InitStep::StartTimeDriver { hclk: 144_000_000 });
    assert(s[7] == InitStep::EnableClock(Peripheral::GpioA));
    assert(s[8] == InitStep::EnableClock(Peripheral::GpioB));
    assert(s[9] == InitStep::EnableClock(Peripheral::Afio));
    assert(s[10] == InitStep::EnableClock(Peripheral::Spi1));
    assert(s[11 + n] == InitStep::EnableClock(Peripheral::Usart(usart)));
    assert(s[15] == InitStep::EnableClock(Peripheral::Dma1));
    assert(s[17] == InitStep::SetPin { port: GpioPort::B, pin: 3 });
    assert(s[18] == InitStep::ConfigurePin {
        port: GpioPort::B,
        pin: 3,
        mode: PinMode::PushPullOut,
    });
    assert(s[19] == InitStep::ConfigurePin {
        port: GpioPort::B,
        pin: 5,
        mode: PinMode::AfOpenDrainOut,
    });
    assert(s[20] == InitStep::RemapSpi1);
    assert(s[21] == InitStep::ConfigureSpi1 { divider: 32 });
    assert(s[22] == InitStep::NestInterrupts { intsyscr: 0x7 });
    assert(s[23 + n] == InitStep::StartUsart(wiring(usart)));
    assert(s[27] == InitStep::EnableInterrupt { interrupt: Interrupt::Spi1, priority: 0x00 });
    assert(s[28] == InitStep::EnableInterrupt { interrupt: Interrupt::SysTick, priority: 0xFF });
    assert(s[29 + 3 * n] == usart_interrupt_steps(wiring(usart))[0]);
    assert(s[30 + 3 * n] == usart_interrupt_steps(wiring(usart))[1]);
    assert(s[31 + 3 * n] == usart_interrupt_steps(wiring(usart))[2]);
}

/// A node is left as it was switched on: peripherals reset and released, running
/// from the oscillator, no clocks, and no interrupt enabled or pending.
pub proof fn law_node_is_left_as_new(program: Program, i: int)
    requires
        0 <= i < 4,
    ensures
        branch_steps(program).len() == 15,
        branch_steps(program)[0] == (BranchStep::ResetPeripherals { value: 0xFFFF_FFFF }),
        branch_steps(program)[1] == (BranchStep::ResetPeripherals { value: 0 }),
        branch_steps(program)[2] is SwitchToOscillator,
        branch_steps(program)[3] is StopPll,
        branch_steps(program)[4] is UndividedBuses,
        branch_steps(program)[5] is DisableClocks,
        branch_steps(program)[6 + i] is Write,
        branch_steps(program)[6 + i]->address == 0xE000_E180 + 4 * i,
        branch_steps(program)[6 + i]->Write_value == 0xFFFF_FFFF,
        branch_steps(program)[10 + i] is Write,
        branch_steps(program)[10 + i]->address == 0xE000_E280 + 4 * i,
        branch_steps(program)[10 + i]->Write_value == 0xFFFF_FFFF,
        branch_steps(program)[14] == BranchStep::Jump(program),
{
    assert(branch_steps(program)[6 + i] == clear_steps(PFIC_IRER0)[i]);
    assert(branch_steps(program)[10 + i] == clear_steps(PFIC_IPRR0)[i]);
}

} // verus!

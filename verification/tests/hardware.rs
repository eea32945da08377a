use kelp::hal::board::{
    branch_to_app, branch_to_bootloader, init_usart_halfduplex, pin_slot, usart_wiring, BranchStep,
    GpioPort, Hardware, InitStep, Interrupt, LedPwr, PinMode, PinSlot, PinWrite, Program, Usart,
    UsartStep,
};
use kelp::hal::leds::{LedFrameBuffer, LedStep, Leds};
use kelp::hal::sdi::SDIPrint;
use kelp::hal::systick::{is_armed, set_alarm, AlarmStep, SystickDriver};
use kelp::hal::usart::{
    handle_usart_rx_copy, handle_usart_tx_dma_interrupt, DmaTransfer, RxCopy, RxDmaStatus,
    TxDmaEvent, UsartRx, UsartTx, USART_RX_DMA_BUFFER_SIZE,
};

#[test]
fn bits_become_pulses() {
    let mut frame = LedFrameBuffer::new();
    frame.fill_from_slice(&[0xFF, 0x00]);
    frame.fill_from_slice(&[0xA5]);
    let mut nibble_index = 0;
    assert_eq!(frame.next_4bits(&mut nibble_index), Some(0xE8E8));
    assert_eq!(frame.next_4bits(&mut nibble_index), Some(0x8E8E));
    assert_eq!(nibble_index, 2);
    assert_eq!(frame.next_4bits(&mut nibble_index), None);
    assert_eq!(nibble_index, 2);
}

// The words that the strip sends until it has none left.
fn drain(leds: &mut Leds) -> Vec<u16> {
    let mut words = Vec::new();
    loop {
        match leds.on_interrupt(true) {
            LedStep::Send(word) => words.push(word),
            LedStep::Disable => return words,
            LedStep::Ignore => panic!("the port was ready"),
        }
    }
}

#[test]
fn frames_go_out_in_order() {
    let mut leds = Leds::new();
    assert_eq!(leds.on_interrupt(true), LedStep::Disable);
    assert_eq!(leds.write_slice(&[0xFF]), Ok(()));
    assert_eq!(leds.write_slice(&[0x00]), Ok(()));
    assert_eq!(leds.write_slice(&[0x11]), Err(()));
    assert_eq!(leds.on_interrupt(false), LedStep::Ignore);
    let words = drain(&mut leds);
    assert_eq!(words.len(), 2 * (2 + 20));
    assert_eq!(&words[..3], &[0xEEEE, 0xEEEE, 0x0000]);
    assert_eq!(&words[22..25], &[0x8888, 0x8888, 0x0000]);
    assert!(words[24..].iter().all(|word| *word == 0));
    assert_eq!(leds.on_interrupt(true), LedStep::Disable);
}

#[test]
fn frame_makes_room_when_it_is_over() {
    let mut leds = Leds::new();
    leds.write_slice(&[0x01]).unwrap();
    leds.write_slice(&[0x02]).unwrap();
    for _ in 0..22 {
        assert!(matches!(leds.on_interrupt(true), LedStep::Send(_)));
        assert_eq!(leds.write_slice(&[0x03]), Err(()));
    }
    assert_eq!(leds.on_interrupt(true), LedStep::Send(0x8888));
    assert_eq!(leds.write_slice(&[0x03]), Ok(()));
    assert_eq!(drain(&mut leds).len(), 43);
}

#[test]
fn oversized_frames_are_refused() {
    let mut leds = Leds::new();
    assert_eq!(leds.write_slice(&[0; 1201]), Err(()));
    assert_eq!(leds.write_slice(&[0xFF; 1200]), Ok(()));
    assert_eq!(drain(&mut leds).len(), 2420);
    // A frame without bytes is nothing but its end.
    assert_eq!(leds.write_slice(&[]), Ok(()));
    assert_eq!(drain(&mut leds), vec![0; 20]);
}

#[test]
fn text_is_packed_by_sevens() {
    let words = SDIPrint {}.write_str("hello world");
    assert_eq!(
        words,
        vec![(0x6c65_6807, 0x7720_6f6c), (0x6c72_6f04, 0x7720_6f64)]
    );
    assert!(SDIPrint {}.write_str("").is_empty());
}

#[test]
fn ticks_are_counted() {
    let mut driver = SystickDriver::new();
    assert_eq!(driver.now(17), 17);
    driver.init(144_000_000, 1_000_000);
    assert_eq!(driver.now(17), 0);
    assert_eq!(driver.now(36), 2);
    assert_eq!(driver.wake_cnt(2), 36);
    assert!(driver.can_wake(u64::MAX / 18));
    assert!(!driver.can_wake(u64::MAX / 18 + 1));
    assert!(driver.can_tell());
    driver.init(7, 1_000_000);
    assert!(!driver.can_tell());
}

#[test]
fn alarms_are_split_in_halves() {
    assert_eq!(set_alarm(5, 5), AlarmStep::Due);
    assert_eq!(
        set_alarm(0x1_2345_6789, 5),
        AlarmStep::Arm {
            high: 1,
            low: 0x2345_6789
        }
    );
    assert!(is_armed(6, 5));
    assert!(!is_armed(6, 6));
}

#[test]
fn ring_comes_round() {
    let mut rx = UsartRx::new(Usart::Usart1);
    assert_eq!(rx.read(10), None);
    assert_eq!(rx.read_until_zero(), None);
    rx.receive(&[1; 1000]);
    assert_eq!(rx.read_nb(2000).len(), 1000);
    rx.receive(&[2; 30]);
    assert_eq!(rx.data_size(), 30);
    // The ring ends after 24 more bytes.
    assert_eq!(rx.read(100), Some(vec![2; 24]));
    assert_eq!(rx.read(4), Some(vec![2; 4]));
    rx.receive(&[3; 1022]);
    rx.receive(&[4; 1023]);
    assert_eq!(rx.data_size(), 1024);
    rx.receive(&[5]);
    assert_eq!(rx.data_size(), 1024);
}

#[test]
fn reading_stops_at_a_zero() {
    let mut rx = UsartRx::new(Usart::Usart2);
    assert_eq!(rx.usart(), Usart::Usart2);
    rx.receive(&[7, 8, 0, 9, 0, 0, 1, 2]);
    assert_eq!(rx.read_until_zero(), Some(vec![7, 8, 0]));
    assert_eq!(rx.read_until_zero(), Some(vec![9, 0]));
    assert_eq!(rx.read_until_zero(), Some(vec![0]));
    // What is there is left alone until the zero comes.
    assert_eq!(rx.read_until_zero(), None);
    assert_eq!(rx.data_size(), 2);
    rx.receive(&[3, 0, 4]);
    assert_eq!(rx.read_until_zero(), Some(vec![1, 2, 3, 0]));
    assert_eq!(rx.read_nb(10), vec![4]);
    assert_eq!(rx.read_until_zero(), None);
}

#[test]
fn reading_up_to_a_zero_comes_round() {
    let mut rx = UsartRx::new(Usart::Usart1);
    rx.receive(&[1; 1020]);
    assert_eq!(rx.read_nb(2000).len(), 1020);
    // The ring ends after four bytes.
    rx.receive(&[5, 6, 7, 8, 9]);
    assert_eq!(rx.read_until_zero(), None);
    rx.receive(&[0, 4, 0, 3]);
    assert_eq!(rx.read_until_zero(), Some(vec![5, 6, 7, 8, 9, 0]));
    assert_eq!(rx.read_until_zero(), Some(vec![4, 0]));
    assert_eq!(rx.read_until_zero(), None);
    assert_eq!(rx.read(10), Some(vec![3]));
}

#[test]
fn full_port_without_a_zero_waits() {
    let mut rx = UsartRx::new(Usart::Usart1);
    rx.receive(&[1; 1024]);
    rx.receive(&[0]);
    assert_eq!(rx.data_size(), 1024);
    assert_eq!(rx.read_until_zero(), None);
    // Room has to be made in another way.
    assert_eq!(rx.read_nb(1), vec![1]);
    rx.receive(&[0]);
    let rest = rx.read_until_zero().unwrap();
    assert_eq!(rest.len(), 1024);
    assert_eq!(rest[1023], 0);
    assert_eq!(rx.data_size(), 0);
}

fn status(ndtr: usize) -> RxDmaStatus {
    RxDmaStatus {
        teif: false,
        htif: false,
        tcif: false,
        ndtr,
    }
}

#[test]
fn circular_buffer_is_copied() {
    let dma_buffer: Vec<u8> = (0..USART_RX_DMA_BUFFER_SIZE as u8).collect();
    let mut rx = UsartRx::new(Usart::Usart1);
    let mut last_pos = 0;
    assert_eq!(
        handle_usart_rx_copy(&mut rx, &dma_buffer, status(64), &mut last_pos),
        RxCopy::Nothing
    );
    assert_eq!(
        handle_usart_rx_copy(&mut rx, &dma_buffer, status(4), &mut last_pos),
        RxCopy::Copied
    );
    assert_eq!(last_pos, 60);
    assert_eq!(rx.read_nb(100), (0..60).collect::<Vec<u8>>());
    assert_eq!(
        handle_usart_rx_copy(&mut rx, &dma_buffer, status(62), &mut last_pos),
        RxCopy::Copied
    );
    assert_eq!(rx.read_nb(100), vec![60, 61, 62, 63, 0, 1]);
    // Both halves were filled: what came in is lost.
    let overrun = RxDmaStatus {
        htif: true,
        tcif: true,
        ..status(50)
    };
    assert_eq!(
        handle_usart_rx_copy(&mut rx, &dma_buffer, overrun, &mut last_pos),
        RxCopy::Nothing
    );
    assert_eq!(last_pos, 14);
    assert_eq!(rx.data_size(), 0);
    let failed = RxDmaStatus {
        teif: true,
        ..status(0)
    };
    assert_eq!(
        handle_usart_rx_copy(&mut rx, &dma_buffer, failed, &mut last_pos),
        RxCopy::TransferError
    );
    assert_eq!(last_pos, 14);
}

#[test]
fn transfers_are_started_and_ended() {
    let tx = UsartTx { dma_ch: 4 };
    assert_eq!(tx.write(&[]), None);
    assert_eq!(
        tx.write(&[0; 300]),
        Some(DmaTransfer {
            channel: 3,
            count: 300
        })
    );
    assert_eq!(handle_usart_tx_dma_interrupt(true, true), TxDmaEvent::TransferError);
    assert_eq!(handle_usart_tx_dma_interrupt(false, true), TxDmaEvent::Complete);
    assert_eq!(handle_usart_tx_dma_interrupt(false, false), TxDmaEvent::Nothing);
}

#[test]
fn power_is_on_when_the_pin_is_low() {
    let mut led_pwr = LedPwr {};
    assert_eq!(
        led_pwr.set_pwr(true),
        PinWrite::Low {
            port: GpioPort::B,
            pin: 3
        }
    );
    assert_eq!(
        led_pwr.set_pwr(false),
        PinWrite::High {
            port: GpioPort::B,
            pin: 3
        }
    );
}

#[test]
fn board_is_set_up() {
    let (steps, mut hardware) = Hardware::init();
    // To the north, south, east and west.
    let neighbours = [Usart::Usart3, Usart::Usart1, Usart::Usart4, Usart::Usart2];
    for i in 0..4 {
        assert_eq!(hardware.usarts_rx[i].usart(), neighbours[i]);
        assert_eq!(hardware.usarts_rx[i].data_size(), 0);
        assert_eq!(
            hardware.usarts_tx[i].dma_ch,
            usart_wiring(neighbours[i]).dma_tx_channel + 1
        );
    }
    assert_eq!(hardware.usarts_tx.map(|tx| tx.dma_ch), [2, 4, 1, 7]);
    assert_eq!(steps.len(), 43);
    assert_eq!(steps[4], InitStep::SwitchToPll);
    assert_eq!(
        steps[6],
        InitStep::StartTimeDriver { hclk: 144_000_000 }
    );
    assert_eq!(steps[23], InitStep::StartUsart(usart_wiring(Usart::Usart1)));
    assert!(steps.contains(&InitStep::EnableInterrupt {
        interrupt: Interrupt::DmaChannel(8),
        priority: 0x80
    }));
    assert_eq!(steps[42], InitStep::EnableSpi1);
    let channels: Vec<usize> = hardware.usarts_tx.iter().map(|tx| tx.dma_ch).collect();
    assert_eq!(channels, vec![2, 4, 1, 7]);
}

#[test]
fn serial_port_is_set_up() {
    assert_eq!(pin_slot(7), PinSlot::Low(7));
    assert_eq!(pin_slot(9), PinSlot::High(1));
    let steps = init_usart_halfduplex(usart_wiring(Usart::Usart1), USART_RX_DMA_BUFFER_SIZE);
    assert_eq!(
        steps[0],
        UsartStep::ConfigurePin {
            port: GpioPort::A,
            slot: PinSlot::High(1),
            mode: PinMode::AfOpenDrainOut
        }
    );
    assert_eq!(steps[1], UsartStep::SetDivider(9));
    assert_eq!(steps[4], UsartStep::ConfigureTxChannel { channel: 3 });
    assert_eq!(
        steps[8],
        UsartStep::SetRxBuffer {
            channel: 4,
            len: 64
        }
    );
    assert_eq!(steps[10], UsartStep::EnableUsart);
}

#[test]
fn board_is_left() {
    let steps = branch_to_app();
    assert_eq!(steps.len(), 15);
    assert_eq!(
        steps[9],
        BranchStep::Write {
            address: 0xE000_E18C,
            value: 0xFFFF_FFFF
        }
    );
    assert_eq!(
        steps[10],
        BranchStep::Write {
            address: 0xE000_E280,
            value: 0xFFFF_FFFF
        }
    );
    assert_eq!(steps[14], BranchStep::Jump(Program::App));
    assert_eq!(branch_to_bootloader()[14], BranchStep::Jump(Program::Bootloader));
}

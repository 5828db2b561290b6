use smart_picture_frame::epd::{
    spi_write_byte_pulses, BusyWait, DriverOp, DriverPhase, EPD13in3e, PollVerdict, SpiPulse,
    BUSY_MAX_POLLS, BUSY_POLL_INTERVAL_MS, DTM, HALF_ROW_BYTES, PANEL_ROWS, PON, ROW_BYTES,
};
use smart_picture_frame::palette::Color;
use smart_picture_frame::receiver::{DeviceAction, PanelStream};

#[test]
fn reset_is_three_pulses_with_30ms_holds() {
    let mut epd = EPD13in3e::new();
    epd.init();
    let expected = [
        DriverOp::Rst(true),
        DriverOp::DelayMs(30),
        DriverOp::Rst(false),
        DriverOp::DelayMs(30),
        DriverOp::Rst(true),
        DriverOp::DelayMs(30),
        DriverOp::Rst(false),
        DriverOp::DelayMs(30),
        DriverOp::Rst(true),
        DriverOp::DelayMs(30),
    ];
    assert_eq!(&epd.ops[..10], &expected);
}

#[test]
fn init_issues_the_vendor_sequence_in_order() {
    let mut epd = EPD13in3e::new();
    epd.init();
    assert_eq!(epd.ops.len(), 123);
    assert_eq!(epd.phase, DriverPhase::Idle);

    // First register write: analog timing on the master alone.
    assert_eq!(epd.ops[10], DriverOp::CsM(false));
    assert_eq!(epd.ops[11], DriverOp::Cmd(0x74));
    let an_tm = [0xC0, 0x1C, 0x1C, 0xCC, 0xCC, 0xCC, 0x15, 0x15, 0x55];
    for (k, b) in an_tm.iter().enumerate() {
        assert_eq!(epd.ops[12 + k], DriverOp::Data(*b));
    }
    assert_eq!(epd.ops[21], DriverOp::CsM(true));
    assert_eq!(epd.ops[22], DriverOp::CsS(true));

    // Second: the vendor extension command to both controllers.
    assert_eq!(epd.ops[23], DriverOp::CsM(false));
    assert_eq!(epd.ops[24], DriverOp::CsS(false));
    assert_eq!(epd.ops[25], DriverOp::Cmd(0xF0));
    assert_eq!(epd.ops[26], DriverOp::Data(0x49));

    // Third block: the panel setting bytes.
    assert_eq!(epd.ops[36], DriverOp::Cmd(0x00));
    assert_eq!(epd.ops[37], DriverOp::Data(0xDF));
    assert_eq!(epd.ops[38], DriverOp::Data(0x69));

    // Last block: TFT VCOM power on the master.
    assert_eq!(epd.ops[118], DriverOp::CsM(false));
    assert_eq!(epd.ops[119], DriverOp::Cmd(0xB1));
    assert_eq!(epd.ops[120], DriverOp::Data(0x02));
    assert_eq!(epd.ops[121], DriverOp::CsM(true));
    assert_eq!(epd.ops[122], DriverOp::CsS(true));
}

#[test]
fn turn_on_display_powers_on_refreshes_and_powers_off() {
    let mut epd = EPD13in3e::new();
    epd.turn_on_display();
    let expected = [
        DriverOp::CsM(false),
        DriverOp::CsS(false),
        DriverOp::Cmd(PON),
        DriverOp::CsM(true),
        DriverOp::CsS(true),
        DriverOp::WaitBusy,
        DriverOp::DelayMs(20),
        DriverOp::DelayMs(50),
        DriverOp::CsM(false),
        DriverOp::CsS(false),
        DriverOp::Cmd(0x12),
        DriverOp::Data(0x00),
        DriverOp::CsM(true),
        DriverOp::CsS(true),
        DriverOp::WaitBusy,
        DriverOp::DelayMs(20),
        DriverOp::CsM(false),
        DriverOp::CsS(false),
        DriverOp::Cmd(0x02),
        DriverOp::Data(0x00),
        DriverOp::CsM(true),
        DriverOp::CsS(true),
    ];
    assert_eq!(epd.ops, expected);
}

#[test]
fn exactly_one_chip_select_during_data_load() {
    let mut epd = EPD13in3e::new();
    epd.init();
    epd.set_left_panel();
    assert_eq!(epd.phase, DriverPhase::LoadingLeft);
    assert!(epd.cs_m_low && !epd.cs_s_low);
    let n = epd.ops.len();
    assert_eq!(
        &epd.ops[n - 3..],
        &[DriverOp::CsS(true), DriverOp::CsM(false), DriverOp::Cmd(DTM)]
    );

    epd.send_data_bytes(&vec![0xAB, 0xCD]);
    let n = epd.ops.len();
    assert_eq!(&epd.ops[n - 2..], &[DriverOp::Data(0xAB), DriverOp::Data(0xCD)]);

    // Switching reissues the data-transfer command on the other side.
    epd.set_right_panel();
    assert_eq!(epd.phase, DriverPhase::LoadingRight);
    assert!(epd.cs_s_low && !epd.cs_m_low);
    let n = epd.ops.len();
    assert_eq!(
        &epd.ops[n - 3..],
        &[DriverOp::CsM(true), DriverOp::CsS(false), DriverOp::Cmd(DTM)]
    );

    epd.end_load();
    assert_eq!(epd.phase, DriverPhase::Idle);
    assert!(!epd.cs_m_low && !epd.cs_s_low);
}

#[test]
fn sleep_powers_off_with_a_long_settle() {
    let mut epd = EPD13in3e::new();
    epd.sleep();
    let expected = [
        DriverOp::CsM(false),
        DriverOp::CsS(false),
        DriverOp::Cmd(0x02),
        DriverOp::Data(0x00),
        DriverOp::CsM(true),
        DriverOp::CsS(true),
        DriverOp::DelayMs(2000),
    ];
    assert_eq!(epd.ops, expected);
    assert_eq!(epd.phase, DriverPhase::Sleeping);
}

#[test]
fn module_exit_cuts_power_and_reset() {
    let mut epd = EPD13in3e::new();
    epd.module_exit();
    assert_eq!(epd.ops, vec![DriverOp::Pwr(false), DriverOp::Rst(false)]);
}

#[test]
fn clear_fills_both_controllers_with_the_solid_byte() {
    let mut epd = EPD13in3e::new();
    epd.init();
    let base = epd.ops.len();
    epd.clear(Color::White);
    // Per controller: select, DTM, 1600 rows of the controller's own 300
    // packed bytes and a delay, deselect both; then the refresh. Each
    // controller receives exactly its 480000-byte half-panel frame.
    let panel = 2 + PANEL_ROWS * (HALF_ROW_BYTES + 1) + 2;
    assert_eq!(epd.ops.len(), base + 2 * panel + 22);
    assert_eq!(epd.ops[base], DriverOp::CsM(false));
    assert_eq!(epd.ops[base + 1], DriverOp::Cmd(DTM));
    // White in both nibbles packs as 0x11.
    assert_eq!(epd.ops[base + 2], DriverOp::Data(0x11));
    assert_eq!(epd.ops[base + HALF_ROW_BYTES + 1], DriverOp::Data(0x11));
    assert_eq!(epd.ops[base + HALF_ROW_BYTES + 2], DriverOp::DelayMs(1));
    // The second controller's fill starts right after the first.
    assert_eq!(epd.ops[base + panel], DriverOp::CsS(false));
}

#[test]
fn display_routes_row_halves_to_each_controller() {
    let mut epd = EPD13in3e::new();
    epd.init();
    let base = epd.ops.len();
    let mut image = vec![0u8; ROW_BYTES * PANEL_ROWS];
    for (i, b) in image.iter_mut().enumerate() {
        *b = (i % 251) as u8;
    }
    epd.display(&image);
    let panel = 2 + PANEL_ROWS * (300 + 1) + 2;
    assert_eq!(epd.ops.len(), base + 2 * panel + 22);
    // Master row 0: bytes 0..300 of the frame.
    assert_eq!(epd.ops[base + 2], DriverOp::Data(image[0]));
    assert_eq!(epd.ops[base + 2 + 299], DriverOp::Data(image[299]));
    assert_eq!(epd.ops[base + 2 + 300], DriverOp::DelayMs(1));
    // Master row 1 starts at frame byte 600.
    assert_eq!(epd.ops[base + 2 + 301], DriverOp::Data(image[600]));
    // Slave row 0: bytes 300..600.
    assert_eq!(epd.ops[base + panel + 2], DriverOp::Data(image[300]));
    assert_eq!(epd.phase, DriverPhase::Idle);
}

#[test]
fn display_part_pads_outside_the_window_with_white() {
    let mut epd = EPD13in3e::new();
    epd.init();
    let base = epd.ops.len();
    // A 4x2-pixel window at (10, 20): two packed bytes per window row.
    let image = vec![0xAB, 0xCD, 0x12, 0x34];
    epd.display_part(&image, 10, 20, 4, 2);
    let panel = 2 + PANEL_ROWS * (300 + 1) + 2;
    assert_eq!(epd.ops.len(), base + 2 * panel + 22);

    // Row 20 of the master panel: white up to byte column 5, then the
    // first window row's two bytes, then white again.
    let row20 = base + 2 + 20 * 301;
    assert_eq!(epd.ops[row20 + 4], DriverOp::Data(0x11));
    assert_eq!(epd.ops[row20 + 5], DriverOp::Data(0xAB));
    assert_eq!(epd.ops[row20 + 6], DriverOp::Data(0xCD));
    assert_eq!(epd.ops[row20 + 7], DriverOp::Data(0x11));
    // Row 21 carries the second window row.
    let row21 = base + 2 + 21 * 301;
    assert_eq!(epd.ops[row21 + 5], DriverOp::Data(0x12));
    assert_eq!(epd.ops[row21 + 6], DriverOp::Data(0x34));
    // Row 19 is entirely white.
    let row19 = base + 2 + 19 * 301;
    assert_eq!(epd.ops[row19 + 5], DriverOp::Data(0x11));
    // The slave panel shows only white.
    assert_eq!(epd.ops[base + panel + 2 + 5], DriverOp::Data(0x11));
}

#[test]
fn busy_wait_is_bounded() {
    let mut w = BusyWait::new();
    assert_eq!(w.step(false), PollVerdict::Released);
    assert_eq!(w.step(true), PollVerdict::PollAgain(BUSY_POLL_INTERVAL_MS));
    let mut w2 = BusyWait::new();
    let mut polls = 0u32;
    loop {
        match w2.step(true) {
            PollVerdict::PollAgain(ms) => {
                assert_eq!(ms, BUSY_POLL_INTERVAL_MS);
                polls += 1;
            }
            PollVerdict::TimedOut => break,
            PollVerdict::Released => unreachable!(),
        }
    }
    assert_eq!(polls, BUSY_MAX_POLLS);
}

#[test]
fn spi_byte_goes_out_most_significant_bit_first() {
    let pulses = spi_write_byte_pulses(0xA5); // 1010_0101
    assert_eq!(pulses.len(), 24);
    let bits = [true, false, true, false, false, true, false, true];
    for (k, bit) in bits.iter().enumerate() {
        assert_eq!(pulses[3 * k], SpiPulse::Mosi(*bit));
        assert_eq!(pulses[3 * k + 1], SpiPulse::SckHigh);
        assert_eq!(pulses[3 * k + 2], SpiPulse::SckLow);
    }
}

#[test]
fn panel_stream_switches_mid_chunk() {
    let mut epd = EPD13in3e::new();
    epd.init();
    let mut s = PanelStream::begin(epd, 5);
    assert_eq!(s.epd.phase, DriverPhase::LoadingLeft);

    assert_eq!(s.on_read(&vec![1, 2, 3]), Ok(DeviceAction::Ack));
    // This chunk straddles the half-point after two of its bytes: the
    // switch and the reissued data-transfer command sit between them.
    assert_eq!(s.on_read(&vec![4, 5, 6, 7]), Ok(DeviceAction::Ack));
    let n = s.epd.ops.len();
    assert_eq!(
        &s.epd.ops[n - 7..],
        &[
            DriverOp::Data(4),
            DriverOp::Data(5),
            DriverOp::CsM(true),
            DriverOp::CsS(false),
            DriverOp::Cmd(DTM),
            DriverOp::Data(6),
            DriverOp::Data(7),
        ]
    );
    assert_eq!(s.epd.phase, DriverPhase::LoadingRight);

    assert_eq!(s.on_read(&vec![8, 9, 10]), Ok(DeviceAction::AckThenComplete));
    let epd = s.finish();
    assert_eq!(epd.phase, DriverPhase::Idle);
    // The finish deselects both controllers and runs the refresh.
    assert_eq!(epd.ops[epd.ops.len() - 1], DriverOp::CsS(true));
}

//! The display driver state machine for the dual-controller 13.3-inch
//! six-color panel.
//!
//! The driver is hardware-agnostic: every method appends the pin and SPI
//! operations it wants performed, in order, to an operation log, and the
//! contracts pin that log down byte for byte. An executor outside the
//! verified core replays the log onto the physical pins. The vendor's
//! register sequence, the reset timing and the chip-select discipline are
//! all stated literally in the specs below; they are a compatibility
//! contract with the hardware and must be reproduced exactly.
//!
//! The two controllers share the SPI wires and differ only in chip
//! select. During a data-load phase exactly one chip select is asserted;
//! the driver's invariant enforces that structurally.

use vstd::prelude::*;

verus! {

/// Panel width in pixels (the panel is mounted taller than wide).
pub const EPD_WIDTH: u16 = 1200;

/// Panel height in pixels.
pub const EPD_HEIGHT: u16 = 1600;

/// Packed bytes per full panel row: two pixels per byte.
pub const ROW_BYTES: usize = 600;

/// Packed bytes per half-panel row.
pub const HALF_ROW_BYTES: usize = 300;

/// Rows of the panel.
pub const PANEL_ROWS: usize = 1600;

/// Milliseconds between two polls of the busy line.
pub const BUSY_POLL_INTERVAL_MS: u32 = 10;

/// How many busy polls are allowed before the wait times out and the
/// session surfaces a hardware timeout instead of hanging forever.
pub const BUSY_MAX_POLLS: u32 = 3000;

// The vendor's command bytes.
/// Panel setting.
pub const PSR: u8 = 0x00;
/// Power setting.
pub const PWR_EPD: u8 = 0x01;
/// Power off.
pub const POF: u8 = 0x02;
/// Power on.
pub const PON: u8 = 0x04;
/// Booster soft start, negative rail.
pub const BTST_N: u8 = 0x05;
/// Booster soft start, positive rail.
pub const BTST_P: u8 = 0x06;
/// Data transmission start.
pub const DTM: u8 = 0x10;
/// Display refresh.
pub const DRF: u8 = 0x12;
/// VCOM and data interval.
pub const CDI: u8 = 0x50;
/// Gate/source timing.
pub const TCON: u8 = 0x60;
/// Resolution setting.
pub const TRES: u8 = 0x61;
/// Analog timing tuning.
pub const AN_TM: u8 = 0x74;
/// Gate image distortion setting.
pub const AGID: u8 = 0x86;
/// Buck/boost converter for the negative supply.
pub const BUCK_BOOST_VDDN: u8 = 0xB0;
/// TFT VCOM power.
pub const TFT_VCOM_POWER: u8 = 0xB1;
/// Buffer enable.
pub const EN_BUF: u8 = 0xB6;
/// Boost for the positive supply.
pub const BOOST_VDDP_EN: u8 = 0xB7;
/// Temperature-compensation setting.
pub const CCSET: u8 = 0xE0;
/// Power saving.
pub const PWS: u8 = 0xE3;
/// Vendor extension command.
pub const CMD66: u8 = 0xF0;

/// One operation the driver wants performed on the hardware, in log
/// order. Levels are `true` for electrically high; both chip selects are
/// active-low.
#[derive(Copy, Clone, Debug, PartialEq, Eq, Structural)]
pub enum DriverOp {
    /// Set the master (left) controller's chip-select level.
    CsM(bool),
    /// Set the slave (right) controller's chip-select level.
    CsS(bool),
    /// Set the reset line's level.
    Rst(bool),
    /// Set the panel power switch's level.
    Pwr(bool),
    /// Busy-wait this many milliseconds.
    DelayMs(u32),
    /// Write one command byte over SPI.
    Cmd(u8),
    /// Write one data byte over SPI.
    Data(u8),
    /// Poll the busy line (active low) until released, at
    /// `BUSY_POLL_INTERVAL_MS` steps, giving up after `BUSY_MAX_POLLS`
    /// polls.
    WaitBusy,
}

/// The driver's externally visible phase, one per power cycle: reset
/// until initialized, then idle between loads; during a load exactly one
/// controller is selected; asleep at the end. Initialization and the
/// refresh are transient within single calls.
#[derive(Copy, Clone, Debug, PartialEq, Eq, Structural)]
pub enum DriverPhase {
    /// Powered up, registers not configured yet.
    Reset,
    /// Configured and between operations.
    Idle,
    /// Loading pixel data into the left controller.
    LoadingLeft,
    /// Loading pixel data into the right controller.
    LoadingRight,
    /// Deep sleep; only a power cycle leaves this phase.
    Sleeping,
}

/// A run of data bytes, one op per byte, as the SPI layer writes them.
pub open spec fn spec_data_run(bytes: Seq<u8>) -> Seq<DriverOp> {
    bytes.map_values(|b: u8| DriverOp::Data(b))
}

/// Chip-select levels for both controllers at once.
pub open spec fn spec_cs_both(level: bool) -> Seq<DriverOp> {
    seq![DriverOp::CsM(level), DriverOp::CsS(level)]
}

/// A register write addressed to both controllers.
pub open spec fn spec_block_both(cmd: u8, data: Seq<u8>) -> Seq<DriverOp> {
    spec_cs_both(false) + seq![DriverOp::Cmd(cmd)] + spec_data_run(data) + spec_cs_both(true)
}

/// A register write addressed to the master controller alone.
pub open spec fn spec_block_master(cmd: u8, data: Seq<u8>) -> Seq<DriverOp> {
    seq![DriverOp::CsM(false), DriverOp::Cmd(cmd)] + spec_data_run(data) + spec_cs_both(true)
}

/// The reset pulse train: the line is driven high and low with fixed
/// 30 ms holds, ending high, to guarantee reset from any prior state.
pub open spec fn spec_reset_ops() -> Seq<DriverOp> {
    seq![
        DriverOp::Rst(true),
        DriverOp::DelayMs(30),
        DriverOp::Rst(false),
        DriverOp::DelayMs(30),
        DriverOp::Rst(true),
        DriverOp::DelayMs(30),
        DriverOp::Rst(false),
        DriverOp::DelayMs(30),
        DriverOp::Rst(true),
        DriverOp::DelayMs(30),
    ]
}

/// The bounded busy wait followed by the fixed settle delay.
pub open spec fn spec_read_busy_ops() -> Seq<DriverOp> {
    seq![DriverOp::WaitBusy, DriverOp::DelayMs(20)]
}

/// The refresh procedure: power on, wait out the busy line, refresh,
/// wait again, power off.
pub open spec fn spec_turn_on_ops() -> Seq<DriverOp> {
    spec_cs_both(false) + seq![DriverOp::Cmd(PON)] + spec_cs_both(true) + spec_read_busy_ops()
        + seq![DriverOp::DelayMs(50)] + spec_block_both(DRF, seq![0x00u8]) + spec_read_busy_ops()
        + spec_block_both(POF, seq![0x00u8])
}

/// The vendor-mandated initialization sequence, in order: reset pulses,
/// analog timing on the master, the shared panel configuration on both
/// controllers, then the power rails on the master. Reordering risks
/// hardware damage; this sequence is a hard external contract.
pub open spec fn spec_init_ops() -> Seq<DriverOp> {
    spec_reset_ops() + spec_block_master(
        AN_TM,
        seq![0xC0u8, 0x1C, 0x1C, 0xCC, 0xCC, 0xCC, 0x15, 0x15, 0x55],
    ) + spec_block_both(CMD66, seq![0x49u8, 0x55, 0x13, 0x5D, 0x05, 0x10]) + spec_block_both(
        PSR,
        seq![0xDFu8, 0x69],
    ) + spec_block_both(CDI, seq![0xF7u8]) + spec_block_both(TCON, seq![0x03u8, 0x03])
        + spec_block_both(AGID, seq![0x10u8]) + spec_block_both(PWS, seq![0x22u8])
        + spec_block_both(CCSET, seq![0x01u8]) + spec_block_both(
        TRES,
        seq![0x04u8, 0xB0, 0x03, 0x20],
    ) + spec_block_master(PWR_EPD, seq![0x0Fu8, 0x00, 0x28, 0x2C, 0x28, 0x38])
        + spec_block_master(EN_BUF, seq![0x07u8]) + spec_block_master(BTST_P, seq![0xE8u8, 0x28])
        + spec_block_master(BOOST_VDDP_EN, seq![0x01u8]) + spec_block_master(
        BTST_N,
        seq![0xE8u8, 0x28],
    ) + spec_block_master(BUCK_BOOST_VDDN, seq![0x01u8]) + spec_block_master(
        TFT_VCOM_POWER,
        seq![0x02u8],
    )
}

/// Selecting one controller for data load: deselect the other, select
/// this one, and issue the data-transfer command it must see before its
/// first byte.
pub open spec fn spec_select_ops(left: bool) -> Seq<DriverOp> {
    if left {
        seq![DriverOp::CsS(true), DriverOp::CsM(false), DriverOp::Cmd(DTM)]
    } else {
        seq![DriverOp::CsM(true), DriverOp::CsS(false), DriverOp::Cmd(DTM)]
    }
}

/// The sleep procedure: power off with a zero payload, then the fixed
/// settle delay.
pub open spec fn spec_sleep_ops() -> Seq<DriverOp> {
    spec_cs_both(false) + seq![DriverOp::Cmd(POF), DriverOp::Data(0x00)] + spec_cs_both(true)
        + seq![DriverOp::DelayMs(2000)]
}

/// The power-down of the module: panel power and reset line low.
pub open spec fn spec_module_exit_ops() -> Seq<DriverOp> {
    seq![DriverOp::Pwr(false), DriverOp::Rst(false)]
}

/// Appending one byte to a data run appends one data op.
proof fn lemma_data_run_push(bytes: Seq<u8>, b: u8)
    ensures
        spec_data_run(bytes.push(b)) =~= spec_data_run(bytes).push(DriverOp::Data(b)),
{
}

/// The packed byte that shows one color in both nibbles.
pub open spec fn spec_solid_byte(code: u8) -> u8 {
    (16 * code + code) as u8
}

/// One solid row: the packed bytes and the per-row settle delay.
pub open spec fn spec_solid_row(buf: Seq<u8>) -> Seq<DriverOp> {
    spec_data_run(buf) + seq![DriverOp::DelayMs(1)]
}

/// The first `n` solid rows.
pub open spec fn spec_solid_rows(buf: Seq<u8>, n: int) -> Seq<DriverOp>
    decreases n,
{
    if n <= 0 {
        Seq::empty()
    } else {
        spec_solid_rows(buf, n - 1) + spec_solid_row(buf)
    }
}

/// One controller's solid fill: select, data-transfer command, all rows,
/// deselect both.
pub open spec fn spec_solid_panel_ops(master: bool, buf: Seq<u8>) -> Seq<DriverOp> {
    (if master {
        seq![DriverOp::CsM(false)]
    } else {
        seq![DriverOp::CsS(false)]
    }) + seq![DriverOp::Cmd(DTM)] + spec_solid_rows(buf, PANEL_ROWS as int) + spec_cs_both(true)
}

/// The whole clear: each controller receives its own half-panel frame
/// of the solid byte -- `HALF_ROW_BYTES` packed bytes per row, 480000
/// bytes in all -- then the refresh runs.
pub open spec fn spec_clear_ops(cb: u8) -> Seq<DriverOp> {
    spec_solid_panel_ops(true, Seq::new(HALF_ROW_BYTES as nat, |k: int| cb))
        + spec_solid_panel_ops(false, Seq::new(HALF_ROW_BYTES as nat, |k: int| cb))
        + spec_turn_on_ops()
}

/// One frame row's half for one controller: the `HALF_ROW_BYTES` bytes
/// at `i * ROW_BYTES + off`, then the settle delay.
pub open spec fn spec_image_row(image: Seq<u8>, off: int, i: int) -> Seq<DriverOp> {
    spec_data_run(image.subrange(i * ROW_BYTES + off, i * ROW_BYTES + off + HALF_ROW_BYTES))
        + seq![DriverOp::DelayMs(1)]
}

/// The first `n` frame rows for one controller.
pub open spec fn spec_image_rows(image: Seq<u8>, off: int, n: int) -> Seq<DriverOp>
    decreases n,
{
    if n <= 0 {
        Seq::empty()
    } else {
        spec_image_rows(image, off, n - 1) + spec_image_row(image, off, n - 1)
    }
}

/// One controller's full-frame load.
pub open spec fn spec_image_panel_ops(master: bool, image: Seq<u8>, off: int) -> Seq<DriverOp> {
    (if master {
        seq![DriverOp::CsM(false)]
    } else {
        seq![DriverOp::CsS(false)]
    }) + seq![DriverOp::Cmd(DTM)] + spec_image_rows(image, off, PANEL_ROWS as int) + spec_cs_both(
        true,
    )
}

/// The whole frame display: left half-rows to the master, right
/// half-rows to the slave, then the refresh.
pub open spec fn spec_display_ops(image: Seq<u8>) -> Seq<DriverOp> {
    spec_image_panel_ops(true, image, 0) + spec_image_panel_ops(false, image, HALF_ROW_BYTES as int)
        + spec_turn_on_ops()
}

/// The byte shown at position (j, i) of one controller during a partial
/// display: inside the window `[xs, xe) x [ys, ye)` the image byte at
/// `(j - xs) + w2 * (i - ys)`, white (0x11) outside the window or off
/// the end of the buffer.
pub open spec fn spec_part_byte(
    image: Seq<u8>,
    xs: int,
    ys: int,
    xe: int,
    ye: int,
    w2: int,
    i: int,
    j: int,
) -> u8 {
    if ys <= i < ye && xs <= j < xe {
        let idx = (j - xs) + w2 * (i - ys);
        if 0 <= idx < image.len() {
            image[idx]
        } else {
            0x11
        }
    } else {
        0x11
    }
}

/// One partial-display row for one controller.
pub open spec fn spec_part_row(
    image: Seq<u8>,
    xs: int,
    ys: int,
    xe: int,
    ye: int,
    w2: int,
    i: int,
) -> Seq<DriverOp> {
    spec_data_run(
        Seq::new(HALF_ROW_BYTES as nat, |j: int| spec_part_byte(image, xs, ys, xe, ye, w2, i, j)),
    ) + seq![DriverOp::DelayMs(1)]
}

/// The first `n` partial-display rows for one controller.
pub open spec fn spec_part_rows(
    image: Seq<u8>,
    xs: int,
    ys: int,
    xe: int,
    ye: int,
    w2: int,
    n: int,
) -> Seq<DriverOp>
    decreases n,
{
    if n <= 0 {
        Seq::empty()
    } else {
        spec_part_rows(image, xs, ys, xe, ye, w2, n - 1) + spec_part_row(
            image, xs, ys, xe, ye, w2, n - 1,
        )
    }
}

/// One controller's partial-display load.
pub open spec fn spec_part_panel_ops(
    master: bool,
    image: Seq<u8>,
    xs: int,
    ys: int,
    xe: int,
    ye: int,
    w2: int,
) -> Seq<DriverOp> {
    (if master {
        seq![DriverOp::CsM(false)]
    } else {
        seq![DriverOp::CsS(false)]
    }) + seq![DriverOp::Cmd(DTM)] + spec_part_rows(image, xs, ys, xe, ye, w2, PANEL_ROWS as int)
        + spec_cs_both(true)
}

/// The whole partial display: the window's end column (in packed bytes,
/// rounded up) and end row decide whether the window sits on the left
/// controller, the right one, or spans both; the controller without
/// image data shows white.
pub open spec fn spec_display_part_ops(
    image: Seq<u8>,
    xstart: int,
    ystart: int,
    img_width: int,
    img_height: int,
) -> Seq<DriverOp> {
    let sum = xstart + img_width;
    let xend = if sum % 2 == 0 {
        sum / 2
    } else {
        sum / 2 + 1
    };
    let yend = ystart + img_height;
    let xs0 = xstart / 2;
    let w2 = img_width / 2;
    (if xs0 > 300 {
        spec_part_panel_ops(true, image, 0, 0, 0, 0, 0) + spec_part_panel_ops(
            false, image, xs0 - 300, ystart, xend - 300, yend, w2,
        )
    } else if xend < 300 {
        spec_part_panel_ops(true, image, xs0, ystart, xend, yend, w2) + spec_part_panel_ops(
            false, image, 0, 0, 0, 0, 0,
        )
    } else {
        spec_part_panel_ops(true, image, xs0, ystart, xend, yend, w2) + spec_part_panel_ops(
            false, image, xs0 - 300, ystart, xend - 300, yend, w2,
        )
    }) + spec_turn_on_ops()
}

/// Reads the partial-display byte for position (j, i) of one controller.
fn part_byte(image: &Vec<u8>, xs: i64, ys: i64, xe: i64, ye: i64, w2: i64, i: i64, j: i64) -> (b:
    u8)
    requires
        0 <= i < PANEL_ROWS,
        0 <= j < HALF_ROW_BYTES,
        -400 <= xs <= 40000,
        0 <= ys <= 70000,
        -400 <= xe <= 70000,
        0 <= ye <= 140000,
        0 <= w2 <= 40000,
    ensures
        b == spec_part_byte(image@, xs as int, ys as int, xe as int, ye as int, w2 as int, i as int, j as int),
{
    if ys <= i && i < ye && xs <= j && j < xe {
        proof {
            assert(0 <= w2 * (i - ys) <= 40000 * 1600) by (nonlinear_arith)
                requires
                    0 <= w2 <= 40000,
                    0 <= i - ys < 1600,
            ;
        }
        let idx: i64 = (j - xs) + w2 * (i - ys);
        if 0 <= idx && (idx as usize) < image.len() {
            image[idx as usize]
        } else {
            0x11
        }
    } else {
        0x11
    }
}

/// Copies bytes `[from, to)` of `src` into a fresh buffer.
fn sub_vec(src: &Vec<u8>, from: usize, to: usize) -> (r: Vec<u8>)
    requires
        from <= to,
        to <= src@.len(),
    ensures
        r@ == src@.subrange(from as int, to as int),
{
    let mut r: Vec<u8> = Vec::new();
    let mut i: usize = from;
    while i < to
        invariant
            from <= i <= to,
            to <= src@.len(),
            r@ =~= src@.subrange(from as int, i as int),
        decreases to - i,
    {
        r.push(src[i]);
        proof {
            assert(src@.subrange(from as int, i + 1) =~= src@.subrange(from as int, i as int)
                + seq![src@[i as int]]);
        }
        i = i + 1;
    }
    r
}

/// The driver for the two-controller panel: a state machine over an
/// operation log.
pub struct EPD13in3e {
    /// The operations requested so far, oldest first.
    pub ops: Vec<DriverOp>,
    /// True while the master (left) chip select is driven low.
    pub cs_m_low: bool,
    /// True while the slave (right) chip select is driven low.
    pub cs_s_low: bool,
    /// The driver's phase.
    pub phase: DriverPhase,
}

impl EPD13in3e {
    /// The chip-select discipline: during a data-load phase exactly one
    /// controller is selected.
    pub open spec fn wf(self) -> bool {
        &&& (self.phase is LoadingLeft ==> self.cs_m_low && !self.cs_s_low)
        &&& (self.phase is LoadingRight ==> self.cs_s_low && !self.cs_m_low)
    }

    /// A fresh driver: nothing requested yet, both controllers
    /// deselected, registers unconfigured.
    pub fn new() -> (r: Self)
        ensures
            r.wf(),
            r.ops@ == Seq::<DriverOp>::empty(),
            !r.cs_m_low,
            !r.cs_s_low,
            r.phase is Reset,
    {
        let r = EPD13in3e {
            ops: Vec::new(),
            cs_m_low: false,
            cs_s_low: false,
            phase: DriverPhase::Reset,
        };
        proof {
            assert(r.ops@ =~= Seq::<DriverOp>::empty());
        }
        r
    }

    /// Drives both chip selects to the same level: `true` deselects both.
    pub fn cs_all(&mut self, high: bool)
        requires
            !(old(self).phase is LoadingLeft),
            !(old(self).phase is LoadingRight),
        ensures
            final (self).wf(),
            final (self).ops@ == old(self).ops@ + spec_cs_both(high),
            final (self).cs_m_low == !high,
            final (self).cs_s_low == !high,
            final (self).phase == old(self).phase,
    {
        self.ops.push(DriverOp::CsM(high));
        self.ops.push(DriverOp::CsS(high));
        self.cs_m_low = !high;
        self.cs_s_low = !high;
        proof {
            assert(self.ops@ =~= old(self).ops@ + spec_cs_both(high));
        }
    }

    /// Emits one data op per byte of `data`, in order.
    fn emit_run(&mut self, data: &Vec<u8>)
        ensures
            final (self).ops@ == old(self).ops@ + spec_data_run(data@),
            unchanged_but_ops(*old(self), *final (self)),
    {
        let mut i: usize = 0;
        while i < data.len()
            invariant
                i <= data@.len(),
                self.ops@ =~= old(self).ops@ + spec_data_run(data@.take(i as int)),
                unchanged_but_ops(*old(self), *self),
            decreases data@.len() - i,
        {
            self.ops.push(DriverOp::Data(data[i]));
            proof {
                assert(data@.take(i + 1) =~= data@.take(i as int).push(data@[i as int]));
                lemma_data_run_push(data@.take(i as int), data@[i as int]);
            }
            i = i + 1;
        }
        proof {
            assert(data@.take(data@.len() as int) =~= data@);
        }
    }

    /// A register write to both controllers.
    fn block_both(&mut self, cmd: u8, data: &Vec<u8>)
        ensures
            final (self).ops@ == old(self).ops@ + spec_block_both(cmd, data@),
            final (self).cs_m_low == false,
            final (self).cs_s_low == false,
            final (self).phase == old(self).phase,
    {
        self.ops.push(DriverOp::CsM(false));
        self.ops.push(DriverOp::CsS(false));
        self.ops.push(DriverOp::Cmd(cmd));
        self.emit_run(data);
        self.ops.push(DriverOp::CsM(true));
        self.ops.push(DriverOp::CsS(true));
        self.cs_m_low = false;
        self.cs_s_low = false;
        proof {
            assert(self.ops@ =~= old(self).ops@ + spec_block_both(cmd, data@));
        }
    }

    /// A register write to the master controller alone.
    fn block_master(&mut self, cmd: u8, data: &Vec<u8>)
        ensures
            final (self).ops@ == old(self).ops@ + spec_block_master(cmd, data@),
            final (self).cs_m_low == false,
            final (self).cs_s_low == false,
            final (self).phase == old(self).phase,
    {
        self.ops.push(DriverOp::CsM(false));
        self.ops.push(DriverOp::Cmd(cmd));
        self.emit_run(data);
        self.ops.push(DriverOp::CsM(true));
        self.ops.push(DriverOp::CsS(true));
        self.cs_m_low = false;
        self.cs_s_low = false;
        proof {
            assert(self.ops@ =~= old(self).ops@ + spec_block_master(cmd, data@));
        }
    }

    /// The software reset pulse train.
    fn reset(&mut self)
        ensures
            final (self).ops@ == old(self).ops@ + spec_reset_ops(),
            unchanged_but_ops(*old(self), *final (self)),
    {
        self.ops.push(DriverOp::Rst(true));
        self.ops.push(DriverOp::DelayMs(30));
        self.ops.push(DriverOp::Rst(false));
        self.ops.push(DriverOp::DelayMs(30));
        self.ops.push(DriverOp::Rst(true));
        self.ops.push(DriverOp::DelayMs(30));
        self.ops.push(DriverOp::Rst(false));
        self.ops.push(DriverOp::DelayMs(30));
        self.ops.push(DriverOp::Rst(true));
        self.ops.push(DriverOp::DelayMs(30));
        proof {
            assert(self.ops@ =~= old(self).ops@ + spec_reset_ops());
        }
    }

    /// The bounded busy wait and settle delay.
    fn read_busy(&mut self)
        ensures
            final (self).ops@ == old(self).ops@ + spec_read_busy_ops(),
            unchanged_but_ops(*old(self), *final (self)),
    {
        self.ops.push(DriverOp::WaitBusy);
        self.ops.push(DriverOp::DelayMs(20));
        proof {
            assert(self.ops@ =~= old(self).ops@ + spec_read_busy_ops());
        }
    }

    /// Powers the panel on, refreshes the display from the loaded data,
    /// and powers it off again, waiting out the busy line in between.
    pub fn turn_on_display(&mut self)
        requires
            !(old(self).phase is LoadingLeft),
            !(old(self).phase is LoadingRight),
        ensures
            final (self).wf(),
            final (self).ops@ == old(self).ops@ + spec_turn_on_ops(),
            final (self).phase is Idle,
            !final (self).cs_m_low,
            !final (self).cs_s_low,
    {
        self.phase = DriverPhase::Idle;
        self.ops.push(DriverOp::CsM(false));
        self.ops.push(DriverOp::CsS(false));
        self.ops.push(DriverOp::Cmd(PON));
        self.ops.push(DriverOp::CsM(true));
        self.ops.push(DriverOp::CsS(true));
        self.ops.push(DriverOp::WaitBusy);
        self.ops.push(DriverOp::DelayMs(20));
        self.ops.push(DriverOp::DelayMs(50));
        self.cs_m_low = false;
        self.cs_s_low = false;
        let zero = byte_vec1(0x00);
        self.block_both(DRF, &zero);
        self.read_busy();
        self.block_both(POF, &zero);
        proof {
            assert(self.ops@ =~= old(self).ops@ + spec_turn_on_ops());
        }
    }

    /// Configures both controllers from scratch: reset pulses, then the
    /// vendor's register sequence, byte for byte and in order.
    pub fn init(&mut self)
        requires
            !(old(self).phase is LoadingLeft),
            !(old(self).phase is LoadingRight),
        ensures
            final (self).wf(),
            final (self).ops@ == old(self).ops@ + spec_init_ops(),
            final (self).phase is Idle,
            !final (self).cs_m_low,
            !final (self).cs_s_low,
    {
        self.phase = DriverPhase::Idle;
        self.reset();
        let an_tm = byte_vec9(0xC0, 0x1C, 0x1C, 0xCC, 0xCC, 0xCC, 0x15, 0x15, 0x55);
        self.block_master(AN_TM, &an_tm);
        let cmd66 = byte_vec6(0x49, 0x55, 0x13, 0x5D, 0x05, 0x10);
        self.block_both(CMD66, &cmd66);
        let psr = byte_vec2(0xDF, 0x69);
        self.block_both(PSR, &psr);
        let cdi = byte_vec1(0xF7);
        self.block_both(CDI, &cdi);
        let tcon = byte_vec2(0x03, 0x03);
        self.block_both(TCON, &tcon);
        let agid = byte_vec1(0x10);
        self.block_both(AGID, &agid);
        let pws = byte_vec1(0x22);
        self.block_both(PWS, &pws);
        let ccset = byte_vec1(0x01);
        self.block_both(CCSET, &ccset);
        let tres = byte_vec4(0x04, 0xB0, 0x03, 0x20);
        self.block_both(TRES, &tres);
        let pwr = byte_vec6(0x0F, 0x00, 0x28, 0x2C, 0x28, 0x38);
        self.block_master(PWR_EPD, &pwr);
        let en_buf = byte_vec1(0x07);
        self.block_master(EN_BUF, &en_buf);
        let btst_p = byte_vec2(0xE8, 0x28);
        self.block_master(BTST_P, &btst_p);
        let boost = byte_vec1(0x01);
        self.block_master(BOOST_VDDP_EN, &boost);
        let btst_n = byte_vec2(0xE8, 0x28);
        self.block_master(BTST_N, &btst_n);
        let buck = byte_vec1(0x01);
        self.block_master(BUCK_BOOST_VDDN, &buck);
        let vcom = byte_vec1(0x02);
        self.block_master(TFT_VCOM_POWER, &vcom);
        proof {
            assert(self.ops@ =~= old(self).ops@ + spec_init_ops());
        }
    }

    /// Selects the left controller for data load: the right controller is
    /// deselected first, then the data-transfer command is issued, so the
    /// controller accepts the bytes that follow.
    pub fn set_left_panel(&mut self)
        requires
            old(self).phase is Idle,
        ensures
            final (self).wf(),
            final (self).ops@ == old(self).ops@ + spec_select_ops(true),
            final (self).phase is LoadingLeft,
            final (self).cs_m_low,
            !final (self).cs_s_low,
    {
        self.ops.push(DriverOp::CsS(true));
        self.ops.push(DriverOp::CsM(false));
        self.ops.push(DriverOp::Cmd(DTM));
        self.cs_s_low = false;
        self.cs_m_low = true;
        self.phase = DriverPhase::LoadingLeft;
        proof {
            assert(self.ops@ =~= old(self).ops@ + spec_select_ops(true));
        }
    }

    /// Switches the data load to the right controller: the left one is
    /// deselected, the right one selected, and the data-transfer command
    /// reissued -- a controller only accepts data right after its own
    /// data-transfer command.
    pub fn set_right_panel(&mut self)
        requires
            old(self).phase is LoadingLeft,
        ensures
            final (self).wf(),
            final (self).ops@ == old(self).ops@ + spec_select_ops(false),
            final (self).phase is LoadingRight,
            final (self).cs_s_low,
            !final (self).cs_m_low,
    {
        self.ops.push(DriverOp::CsM(true));
        self.ops.push(DriverOp::CsS(false));
        self.ops.push(DriverOp::Cmd(DTM));
        self.cs_m_low = false;
        self.cs_s_low = true;
        self.phase = DriverPhase::LoadingRight;
        proof {
            assert(self.ops@ =~= old(self).ops@ + spec_select_ops(false));
        }
    }

    /// Streams packed pixel bytes verbatim to the controller selected by
    /// the current data-load phase.
    pub fn send_data_bytes(&mut self, data: &Vec<u8>)
        requires
            old(self).wf(),
            old(self).phase is LoadingLeft || old(self).phase is LoadingRight,
        ensures
            final (self).wf(),
            final (self).ops@ == old(self).ops@ + spec_data_run(data@),
            final (self).phase == old(self).phase,
            final (self).cs_m_low == old(self).cs_m_low,
            final (self).cs_s_low == old(self).cs_s_low,
    {
        self.emit_run(data);
    }

    /// Finishes a data-load phase without refreshing: both controllers
    /// deselected.
    pub fn end_load(&mut self)
        requires
            old(self).phase is LoadingLeft || old(self).phase is LoadingRight,
        ensures
            final (self).wf(),
            final (self).ops@ == old(self).ops@ + spec_cs_both(true),
            final (self).phase is Idle,
            !final (self).cs_m_low,
            !final (self).cs_s_low,
    {
        self.phase = DriverPhase::Idle;
        self.ops.push(DriverOp::CsM(true));
        self.ops.push(DriverOp::CsS(true));
        self.cs_m_low = false;
        self.cs_s_low = false;
        proof {
            assert(self.ops@ =~= old(self).ops@ + spec_cs_both(true));
        }
    }

    /// Fills the whole panel with one color: each controller gets the
    /// data-transfer command and then its half-panel frame -- every row
    /// as `HALF_ROW_BYTES` packed bytes of that color -- and the display
    /// is refreshed.
    pub fn clear(&mut self, color: crate::palette::Color)
        requires
            old(self).phase is Idle,
        ensures
            final (self).wf(),
            final (self).ops@ == old(self).ops@ + spec_clear_ops(
                spec_solid_byte(color.spec_code()),
            ),
            final (self).phase is Idle,
            !final (self).cs_m_low,
            !final (self).cs_s_low,
    {
        let code = color.code();
        let cb: u8 = code * 16 + code;
        let mut buf: Vec<u8> = Vec::new();
        let mut i: usize = 0;
        while i < HALF_ROW_BYTES
            invariant
                i <= HALF_ROW_BYTES,
                buf@ =~= Seq::new(i as nat, |k: int| cb),
            decreases HALF_ROW_BYTES - i,
        {
            buf.push(cb);
            proof {
                assert(buf@ =~= Seq::new((i + 1) as nat, |k: int| cb));
            }
            i = i + 1;
        }
        self.fill_solid_panel(true, &buf);
        self.fill_solid_panel(false, &buf);
        self.turn_on_display();
        proof {
            assert(self.ops@ =~= old(self).ops@ + spec_clear_ops(spec_solid_byte(color.spec_code())));
        }
    }

    /// One controller's share of a solid fill: select it, issue the
    /// data-transfer command, and send every row of the given packed
    /// bytes with the per-row settle delay.
    fn fill_solid_panel(&mut self, master: bool, buf: &Vec<u8>)
        requires
            buf@.len() == HALF_ROW_BYTES,
        ensures
            final (self).ops@ == old(self).ops@ + spec_solid_panel_ops(master, buf@),
            final (self).cs_m_low == false,
            final (self).cs_s_low == false,
            final (self).phase == old(self).phase,
    {
        if master {
            self.ops.push(DriverOp::CsM(false));
        } else {
            self.ops.push(DriverOp::CsS(false));
        }
        self.ops.push(DriverOp::Cmd(DTM));
        let ghost base = self.ops@;
        let mut row: usize = 0;
        while row < PANEL_ROWS
            invariant
                row <= PANEL_ROWS,
                buf@.len() == HALF_ROW_BYTES,
                self.ops@ =~= base + spec_solid_rows(buf@, row as int),
                unchanged_but_ops(*old(self), *self),
            decreases PANEL_ROWS - row,
        {
            self.emit_run(buf);
            self.ops.push(DriverOp::DelayMs(1));
            row = row + 1;
            proof {
                assert(self.ops@ =~= base + spec_solid_rows(buf@, row as int));
            }
        }
        self.ops.push(DriverOp::CsM(true));
        self.ops.push(DriverOp::CsS(true));
        self.cs_m_low = false;
        self.cs_s_low = false;
        proof {
            assert(self.ops@ =~= old(self).ops@ + spec_solid_panel_ops(master, buf@));
        }
    }

    /// Shows a full pre-packed frame, given as one buffer whose rows hold
    /// the left half's bytes then the right half's: the left controller
    /// receives the first half of every row, the right controller the
    /// second half, and the display is refreshed.
    pub fn display(&mut self, image: &Vec<u8>)
        requires
            old(self).phase is Idle,
            image@.len() == ROW_BYTES * PANEL_ROWS,
        ensures
            final (self).wf(),
            final (self).ops@ == old(self).ops@ + spec_display_ops(image@),
            final (self).phase is Idle,
            !final (self).cs_m_low,
            !final (self).cs_s_low,
    {
        self.fill_image_panel(true, image, 0);
        self.fill_image_panel(false, image, HALF_ROW_BYTES);
        self.turn_on_display();
        proof {
            assert(self.ops@ =~= old(self).ops@ + spec_display_ops(image@));
        }
    }

    /// One controller's share of a full frame: row `i` contributes the
    /// half-row starting at `i * ROW_BYTES + off`.
    fn fill_image_panel(&mut self, master: bool, image: &Vec<u8>, off: usize)
        requires
            image@.len() == ROW_BYTES * PANEL_ROWS,
            off + HALF_ROW_BYTES <= ROW_BYTES,
        ensures
            final (self).ops@ == old(self).ops@ + spec_image_panel_ops(master, image@, off as int),
            final (self).cs_m_low == false,
            final (self).cs_s_low == false,
            final (self).phase == old(self).phase,
    {
        if master {
            self.ops.push(DriverOp::CsM(false));
        } else {
            self.ops.push(DriverOp::CsS(false));
        }
        self.ops.push(DriverOp::Cmd(DTM));
        let ghost base = self.ops@;
        let mut row: usize = 0;
        while row < PANEL_ROWS
            invariant
                row <= PANEL_ROWS,
                image@.len() == ROW_BYTES * PANEL_ROWS,
                off + HALF_ROW_BYTES <= ROW_BYTES,
                self.ops@ =~= base + spec_image_rows(image@, off as int, row as int),
                unchanged_but_ops(*old(self), *self),
            decreases PANEL_ROWS - row,
        {
            proof {
                assert(row * ROW_BYTES + ROW_BYTES <= ROW_BYTES * PANEL_ROWS) by (nonlinear_arith)
                    requires
                        0 <= row < PANEL_ROWS,
                ;
            }
            let start = row * ROW_BYTES + off;
            let chunk = sub_vec(image, start, start + HALF_ROW_BYTES);
            self.emit_run(&chunk);
            self.ops.push(DriverOp::DelayMs(1));
            row = row + 1;
            proof {
                assert(self.ops@ =~= base + spec_image_rows(image@, off as int, row as int));
            }
        }
        self.ops.push(DriverOp::CsM(true));
        self.ops.push(DriverOp::CsS(true));
        self.cs_m_low = false;
        self.cs_s_low = false;
        proof {
            assert(self.ops@ =~= old(self).ops@ + spec_image_panel_ops(master, image@, off as int));
        }
    }

    /// Shows a partial image: the window of packed bytes, `img_width`
    /// pixels wide, whose top-left corner sits `xstart` pixels and
    /// `ystart` rows in; everything outside the window shows white. The
    /// window may fall on the left controller, the right one, or span
    /// both; every position outside the image data is padded white.
    pub fn display_part(
        &mut self,
        image: &Vec<u8>,
        xstart: u16,
        ystart: u16,
        img_width: u16,
        img_height: u16,
    )
        requires
            old(self).phase is Idle,
            xstart + img_width <= u16::MAX,
            ystart + img_height <= u16::MAX,
        ensures
            final (self).wf(),
            final (self).ops@ == old(self).ops@ + spec_display_part_ops(
                image@,
                xstart as int,
                ystart as int,
                img_width as int,
                img_height as int,
            ),
            final (self).phase is Idle,
            !final (self).cs_m_low,
            !final (self).cs_s_low,
    {
        let sum: u32 = xstart as u32 + img_width as u32;
        let xend: i64 = if sum % 2 == 0 {
            (sum / 2) as i64
        } else {
            (sum / 2 + 1) as i64
        };
        let yend: i64 = ystart as i64 + img_height as i64;
        let xs0: i64 = (xstart / 2) as i64;
        let ys: i64 = ystart as i64;
        let w2: i64 = (img_width / 2) as i64;

        if xs0 > 300 {
            // Entirely on the right controller: the left shows white.
            self.fill_part_panel(true, image, 0, 0, 0, 0, 0);
            self.fill_part_panel(false, image, xs0 - 300, ys, xend - 300, yend, w2);
        } else if xend < 300 {
            // Entirely on the left controller: the right shows white.
            self.fill_part_panel(true, image, xs0, ys, xend, yend, w2);
            self.fill_part_panel(false, image, 0, 0, 0, 0, 0);
        } else {
            // The window spans both controllers.
            self.fill_part_panel(true, image, xs0, ys, xend, yend, w2);
            self.fill_part_panel(false, image, xs0 - 300, ys, xend - 300, yend, w2);
        }
        self.turn_on_display();
        proof {
            assert(self.ops@ =~= old(self).ops@ + spec_display_part_ops(
                image@,
                xstart as int,
                ystart as int,
                img_width as int,
                img_height as int,
            ));
        }
    }

    /// One controller's share of a partial image: every row position
    /// inside the window `[xs, xe) x [ys, ye)` shows the image byte at
    /// `(j - xs) + w2 * (i - ys)` (white where the index runs off the
    /// buffer), every position outside it shows white.
    fn fill_part_panel(
        &mut self,
        master: bool,
        image: &Vec<u8>,
        xs: i64,
        ys: i64,
        xe: i64,
        ye: i64,
        w2: i64,
    )
        requires
            -400 <= xs <= 40000,
            0 <= ys <= 70000,
            -400 <= xe <= 70000,
            0 <= ye <= 140000,
            0 <= w2 <= 40000,
        ensures
            final (self).ops@ == old(self).ops@ + spec_part_panel_ops(
                master,
                image@,
                xs as int,
                ys as int,
                xe as int,
                ye as int,
                w2 as int,
            ),
            final (self).cs_m_low == false,
            final (self).cs_s_low == false,
            final (self).phase == old(self).phase,
    {
        if master {
            self.ops.push(DriverOp::CsM(false));
        } else {
            self.ops.push(DriverOp::CsS(false));
        }
        self.ops.push(DriverOp::Cmd(DTM));
        let ghost base = self.ops@;
        let mut i: i64 = 0;
        while i < PANEL_ROWS as i64
            invariant
                0 <= i <= PANEL_ROWS,
                -400 <= xs <= 40000,
                0 <= ys <= 70000,
                -400 <= xe <= 70000,
                0 <= ye <= 140000,
                0 <= w2 <= 40000,
                self.ops@ =~= base + spec_part_rows(
                    image@, xs as int, ys as int, xe as int, ye as int, w2 as int, i as int,
                ),
                unchanged_but_ops(*old(self), *self),
            decreases PANEL_ROWS - i,
        {
            let ghost rowbase = self.ops@;
            let mut j: i64 = 0;
            while j < HALF_ROW_BYTES as i64
                invariant
                    0 <= j <= HALF_ROW_BYTES,
                    0 <= i < PANEL_ROWS,
                    -400 <= xs <= 40000,
                    0 <= ys <= 70000,
                    -400 <= xe <= 70000,
                    0 <= ye <= 140000,
                    0 <= w2 <= 40000,
                    self.ops@ =~= rowbase + spec_data_run(
                        Seq::new(
                            j as nat,
                            |jj: int| spec_part_byte(
                                image@, xs as int, ys as int, xe as int, ye as int, w2 as int,
                                i as int, jj,
                            ),
                        ),
                    ),
                    unchanged_but_ops(*old(self), *self),
                decreases HALF_ROW_BYTES - j,
            {
                let b = part_byte(image, xs, ys, xe, ye, w2, i, j);
                self.ops.push(DriverOp::Data(b));
                proof {
                    let f = |jj: int| spec_part_byte(
                        image@, xs as int, ys as int, xe as int, ye as int, w2 as int, i as int,
                        jj,
                    );
                    assert(Seq::new((j + 1) as nat, f) =~= Seq::new(j as nat, f).push(f(j as int)));
                    lemma_data_run_push(Seq::new(j as nat, f), f(j as int));
                }
                j = j + 1;
            }
            self.ops.push(DriverOp::DelayMs(1));
            i = i + 1;
            proof {
                assert(self.ops@ =~= base + spec_part_rows(
                    image@, xs as int, ys as int, xe as int, ye as int, w2 as int, i as int,
                ));
            }
        }
        self.ops.push(DriverOp::CsM(true));
        self.ops.push(DriverOp::CsS(true));
        self.cs_m_low = false;
        self.cs_s_low = false;
        proof {
            assert(self.ops@ =~= old(self).ops@ + spec_part_panel_ops(
                master, image@, xs as int, ys as int, xe as int, ye as int, w2 as int,
            ));
        }
    }

    /// Puts the panel into deep sleep; only a power cycle wakes it.
    pub fn sleep(&mut self)
        requires
            !(old(self).phase is LoadingLeft),
            !(old(self).phase is LoadingRight),
        ensures
            final (self).wf(),
            final (self).ops@ == old(self).ops@ + spec_sleep_ops(),
            final (self).phase is Sleeping,
    {
        self.phase = DriverPhase::Sleeping;
        self.ops.push(DriverOp::CsM(false));
        self.ops.push(DriverOp::CsS(false));
        self.ops.push(DriverOp::Cmd(POF));
        self.ops.push(DriverOp::Data(0x00));
        self.ops.push(DriverOp::CsM(true));
        self.ops.push(DriverOp::CsS(true));
        self.ops.push(DriverOp::DelayMs(2000));
        self.cs_m_low = false;
        self.cs_s_low = false;
        proof {
            assert(self.ops@ =~= old(self).ops@ + spec_sleep_ops());
        }
    }

    /// Cuts power to the module: panel power and reset line low.
    pub fn module_exit(&mut self)
        requires
            !(old(self).phase is LoadingLeft),
            !(old(self).phase is LoadingRight),
        ensures
            final (self).wf(),
            final (self).ops@ == old(self).ops@ + spec_module_exit_ops(),
            final (self).phase == old(self).phase,
            final (self).cs_m_low == old(self).cs_m_low,
            final (self).cs_s_low == old(self).cs_s_low,
    {
        self.ops.push(DriverOp::Pwr(false));
        self.ops.push(DriverOp::Rst(false));
        proof {
            assert(self.ops@ =~= old(self).ops@ + spec_module_exit_ops());
        }
    }
}

/// Everything but the op log is untouched.
pub open spec fn unchanged_but_ops(a: EPD13in3e, b: EPD13in3e) -> bool {
    &&& a.cs_m_low == b.cs_m_low
    &&& a.cs_s_low == b.cs_s_low
    &&& a.phase == b.phase
}

/// A one-byte payload.
fn byte_vec1(a: u8) -> (r: Vec<u8>)
    ensures
        r@ == seq![a],
{
    let mut v: Vec<u8> = Vec::new();
    v.push(a);
    proof {
        assert(v@ =~= seq![a]);
    }
    v
}

/// A two-byte payload.
fn byte_vec2(a: u8, b: u8) -> (r: Vec<u8>)
    ensures
        r@ == seq![a, b],
{
    let mut v = byte_vec1(a);
    v.push(b);
    proof {
        assert(v@ =~= seq![a, b]);
    }
    v
}

/// A four-byte payload.
fn byte_vec4(a: u8, b: u8, c: u8, d: u8) -> (r: Vec<u8>)
    ensures
        r@ == seq![a, b, c, d],
{
    let mut v = byte_vec2(a, b);
    v.push(c);
    v.push(d);
    proof {
        assert(v@ =~= seq![a, b, c, d]);
    }
    v
}

/// A six-byte payload.
fn byte_vec6(a: u8, b: u8, c: u8, d: u8, e: u8, f: u8) -> (r: Vec<u8>)
    ensures
        r@ == seq![a, b, c, d, e, f],
{
    let mut v = byte_vec4(a, b, c, d);
    v.push(e);
    v.push(f);
    proof {
        assert(v@ =~= seq![a, b, c, d, e, f]);
    }
    v
}

/// A nine-byte payload.
fn byte_vec9(a: u8, b: u8, c: u8, d: u8, e: u8, f: u8, g: u8, h: u8, i: u8) -> (r: Vec<u8>)
    ensures
        r@ == seq![a, b, c, d, e, f, g, h, i],
{
    let mut v = byte_vec6(a, b, c, d, e, f);
    v.push(g);
    v.push(h);
    v.push(i);
    proof {
        assert(v@ =~= seq![a, b, c, d, e, f, g, h, i]);
    }
    v
}

/// One pin edge of the bit-banged SPI write: the data line is set before
/// each rising clock edge, and the clock is pulsed once per bit.
#[derive(Copy, Clone, Debug, PartialEq, Eq, Structural)]
pub enum SpiPulse {
    /// Set the data (MOSI) line to this level.
    Mosi(bool),
    /// Drive the clock high.
    SckHigh,
    /// Drive the clock low.
    SckLow,
}

/// Bit `i` of a byte, bit 0 the least significant.
pub open spec fn spec_bit(data: u8, i: u8) -> bool {
    (data >> i) & 1 == 1
}

/// The 24 pin edges that write one byte: for each bit, most significant
/// first, set MOSI to the bit and pulse the clock high then low.
pub open spec fn spec_byte_pulses(data: u8) -> Seq<SpiPulse> {
    Seq::new(
        24,
        |k: int| if k % 3 == 0 {
            SpiPulse::Mosi(spec_bit(data, (7 - k / 3) as u8))
        } else if k % 3 == 1 {
            SpiPulse::SckHigh
        } else {
            SpiPulse::SckLow
        },
    )
}

/// Lays out the pin edges that write one byte over the bit-banged SPI:
/// eight clock pulses, MOSI carrying the bits most significant first,
/// set before each rising edge.
pub fn spi_write_byte_pulses(data: u8) -> (r: Vec<SpiPulse>)
    ensures
        r@ == spec_byte_pulses(data),
{
    let mut v: Vec<SpiPulse> = Vec::new();
    let mut k: usize = 0;
    while k < 8
        invariant
            k <= 8,
            v@ =~= spec_byte_pulses(data).take(3 * k),
        decreases 8 - k,
    {
        let sh: u8 = (7 - k) as u8;
        let bit = ((data >> sh) & 1) == 1;
        v.push(SpiPulse::Mosi(bit));
        v.push(SpiPulse::SckHigh);
        v.push(SpiPulse::SckLow);
        proof {
            assert(v@ =~= spec_byte_pulses(data).take(3 * (k + 1)));
        }
        k = k + 1;
    }
    proof {
        assert(v@ =~= spec_byte_pulses(data));
    }
    v
}

/// The bounded replacement for the unbounded busy poll: the executor
/// feeds it the busy-line level before each poll, and it answers whether
/// to proceed, wait one interval more, or give up.
pub struct BusyWait {
    /// Polls still allowed before the wait times out.
    pub polls_left: u32,
}

/// What the executor of a busy wait must do next.
#[derive(Copy, Clone, Debug, PartialEq, Eq, Structural)]
pub enum PollVerdict {
    /// The busy line is released; proceed.
    Released,
    /// Wait this many milliseconds and poll again.
    PollAgain(u32),
    /// The line never released within the bound: a hardware timeout.
    TimedOut,
}

impl BusyWait {
    /// Starts a bounded wait of at most `BUSY_MAX_POLLS` polls.
    pub fn new() -> (r: Self)
        ensures
            r.polls_left == BUSY_MAX_POLLS,
    {
        BusyWait { polls_left: BUSY_MAX_POLLS }
    }

    /// One poll of the busy line (active low: `busy_low` means still
    /// busy). Releases as soon as the line goes high; otherwise spends
    /// one poll of the budget, timing out when none is left.
    pub fn step(&mut self, busy_low: bool) -> (v: PollVerdict)
        ensures
            !busy_low ==> v == PollVerdict::Released && *final (self) == *old(self),
            busy_low && old(self).polls_left == 0 ==> v == PollVerdict::TimedOut && *final (self)
                == *old(self),
            busy_low && old(self).polls_left > 0 ==> v == PollVerdict::PollAgain(
                BUSY_POLL_INTERVAL_MS,
            ) && final (self).polls_left == old(self).polls_left - 1,
    {
        if !busy_low {
            PollVerdict::Released
        } else if self.polls_left == 0 {
            PollVerdict::TimedOut
        } else {
            self.polls_left = self.polls_left - 1;
            PollVerdict::PollAgain(BUSY_POLL_INTERVAL_MS)
        }
    }
}

} // verus!

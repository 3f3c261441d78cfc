use vstd::prelude::*;

use crate::display::Display;

verus! {

broadcast use vstd::array::group_array_axioms;

/// The commands of the ST7735 panel controller.
#[allow(non_camel_case_types)]
#[derive(Clone, Copy, Debug, PartialEq, Eq, Structural)]
pub enum Instruction {
    NOP,
    SWRESET,
    RDDID,
    RDDST,
    SLPIN,
    SLPOUT,
    PTLON,
    NORON,
    INVOFF,
    INVON,
    DISPOFF,
    DISPON,
    CASET,
    RASET,
    RAMWR,
    RAMRD,
    PTLAR,
    COLMOD,
    MADCTL,
    FRMCTR1,
    FRMCTR2,
    FRMCTR3,
    INVCTR,
    DISSET5,
    PWCTR1,
    PWCTR2,
    PWCTR3,
    PWCTR4,
    PWCTR5,
    VMCTR1,
    RDID1,
    RDID2,
    RDID3,
    RDID4,
    PWCTR6,
    GMCTRP1,
    GMCTRN1,
}

impl Instruction {
    /// The command byte of the instruction.
    pub open spec fn spec_code(self) -> u8 {
        match self {
            Instruction::NOP => 0x00,
            Instruction::SWRESET => 0x01,
            Instruction::RDDID => 0x04,
            Instruction::RDDST => 0x09,
            Instruction::SLPIN => 0x10,
            Instruction::SLPOUT => 0x11,
            Instruction::PTLON => 0x12,
            Instruction::NORON => 0x13,
            Instruction::INVOFF => 0x20,
            Instruction::INVON => 0x21,
            Instruction::DISPOFF => 0x28,
            Instruction::DISPON => 0x29,
            Instruction::CASET => 0x2a,
            Instruction::RASET => 0x2b,
            Instruction::RAMWR => 0x2c,
            Instruction::RAMRD => 0x2e,
            Instruction::PTLAR => 0x30,
            Instruction::COLMOD => 0x3a,
            Instruction::MADCTL => 0x36,
            Instruction::FRMCTR1 => 0xb1,
            Instruction::FRMCTR2 => 0xb2,
            Instruction::FRMCTR3 => 0xb3,
            Instruction::INVCTR => 0xb4,
            Instruction::DISSET5 => 0xb6,
            Instruction::PWCTR1 => 0xc0,
            Instruction::PWCTR2 => 0xc1,
            Instruction::PWCTR3 => 0xc2,
            Instruction::PWCTR4 => 0xc3,
            Instruction::PWCTR5 => 0xc4,
            Instruction::VMCTR1 => 0xc5,
            Instruction::RDID1 => 0xda,
            Instruction::RDID2 => 0xdb,
            Instruction::RDID3 => 0xdc,
            Instruction::RDID4 => 0xdd,
            Instruction::PWCTR6 => 0xfc,
            Instruction::GMCTRP1 => 0xe0,
            Instruction::GMCTRN1 => 0xe1,
        }
    }

    /// The command byte of the instruction.
    pub fn code(self) -> (res: u8)
        ensures
            res == self.spec_code(),
    {
        match self {
            Instruction::NOP => 0x00,
            Instruction::SWRESET => 0x01,
            Instruction::RDDID => 0x04,
            Instruction::RDDST => 0x09,
            Instruction::SLPIN => 0x10,
            Instruction::SLPOUT => 0x11,
            Instruction::PTLON => 0x12,
            Instruction::NORON => 0x13,
            Instruction::INVOFF => 0x20,
            Instruction::INVON => 0x21,
            Instruction::DISPOFF => 0x28,
            Instruction::DISPON => 0x29,
            Instruction::CASET => 0x2a,
            Instruction::RASET => 0x2b,
            Instruction::RAMWR => 0x2c,
            Instruction::RAMRD => 0x2e,
            Instruction::PTLAR => 0x30,
            Instruction::COLMOD => 0x3a,
            Instruction::MADCTL => 0x36,
            Instruction::FRMCTR1 => 0xb1,
            Instruction::FRMCTR2 => 0xb2,
            Instruction::FRMCTR3 => 0xb3,
            Instruction::INVCTR => 0xb4,
            Instruction::DISSET5 => 0xb6,
            Instruction::PWCTR1 => 0xc0,
            Instruction::PWCTR2 => 0xc1,
            Instruction::PWCTR3 => 0xc2,
            Instruction::PWCTR4 => 0xc3,
            Instruction::PWCTR5 => 0xc4,
            Instruction::VMCTR1 => 0xc5,
            Instruction::RDID1 => 0xda,
            Instruction::RDID2 => 0xdb,
            Instruction::RDID3 => 0xdc,
            Instruction::RDID4 => 0xdd,
            Instruction::PWCTR6 => 0xfc,
            Instruction::GMCTRP1 => 0xe0,
            Instruction::GMCTRN1 => 0xe1,
        }
    }
}

/// How the panel is turned: the memory access control byte sent with `MADCTL`.
#[derive(Clone, Copy, Debug, PartialEq, Eq, Structural)]
pub enum Orientation {
    Portrait,
    Landscape,
    PortraitSwapped,
    LandscapeSwapped,
}

impl Orientation {
    /// The `MADCTL` parameter byte of the orientation.
    pub open spec fn spec_code(self) -> u8 {
        match self {
            Orientation::Portrait => 0x00,
            Orientation::Landscape => 0x60,
            Orientation::PortraitSwapped => 0xc0,
            Orientation::LandscapeSwapped => 0xa0,
        }
    }

    /// The `MADCTL` parameter byte of the orientation.
    pub fn code(self) -> (res: u8)
        ensures
            res == self.spec_code(),
    {
        match self {
            Orientation::Portrait => 0x00,
            Orientation::Landscape => 0x60,
            Orientation::PortraitSwapped => 0xc0,
            Orientation::LandscapeSwapped => 0xa0,
        }
    }
}

/// One step of talking to the panel: setting the data/command line low
/// (command) or high (data), sending one byte over SPI, setting the reset
/// line, or waiting.
#[derive(Clone, Copy, Debug, PartialEq, Eq, Structural)]
pub enum BusOp {
    DcLow,
    DcHigh,
    Write(u8),
    ResetLow,
    ResetHigh,
    DelayMs(u8),
}

/// Sending the bytes of `bytes` in order.
pub open spec fn write_ops(bytes: Seq<u8>) -> Seq<BusOp> {
    Seq::new(bytes.len(), |i: int| BusOp::Write(bytes[i]))
}

/// Sending command `command` and, if there are any, its parameters `params`.
pub open spec fn command_ops(command: Instruction, params: Seq<u8>) -> Seq<BusOp> {
    seq![BusOp::DcLow, BusOp::Write(command.spec_code())] + if params.len() > 0 {
        seq![BusOp::DcHigh] + write_ops(params)
    } else {
        Seq::empty()
    }
}

/// The two bytes of `v`, high byte first.
pub open spec fn word_bytes(v: u16) -> Seq<u8> {
    seq![(v / 256) as u8, (v % 256) as u8]
}

/// Setting the column range `sx..=ex` and the row range `sy..=ey` that pixel
/// data goes to.
pub open spec fn address_window_ops(sx: u16, sy: u16, ex: u16, ey: u16) -> Seq<BusOp> {
    command_ops(Instruction::CASET, Seq::empty()) + seq![BusOp::DcHigh] + write_ops(
        word_bytes(sx),
    ) + write_ops(word_bytes(ex)) + command_ops(Instruction::RASET, Seq::empty()) + seq![
        BusOp::DcHigh,
    ] + write_ops(word_bytes(sy)) + write_ops(word_bytes(ey))
}

/// Pulsing the reset line.
pub open spec fn reset_ops() -> Seq<BusOp> {
    seq![
        BusOp::ResetHigh,
        BusOp::DelayMs(10),
        BusOp::ResetLow,
        BusOp::DelayMs(10),
        BusOp::ResetHigh,
    ]
}

/// Bringing the panel up: reset, wake, frame rate, inversion, power and
/// voltage settings, orientation, 16-bit color, display on.
pub open spec fn init_ops() -> Seq<BusOp> {
    reset_ops() + command_ops(Instruction::SWRESET, Seq::empty()) + seq![BusOp::DelayMs(200)]
        + command_ops(Instruction::SLPOUT, Seq::empty()) + seq![BusOp::DelayMs(200)]
        + command_ops(Instruction::FRMCTR1, seq![0x01u8, 0x2c, 0x2d]) + command_ops(
        Instruction::FRMCTR2,
        seq![0x01u8, 0x2c, 0x2d],
    ) + command_ops(Instruction::FRMCTR3, seq![0x01u8, 0x2c, 0x2d, 0x01, 0x2c, 0x2d])
        + command_ops(Instruction::INVCTR, seq![0x07u8]) + command_ops(
        Instruction::PWCTR1,
        seq![0xa2u8, 0x02, 0x84],
    ) + command_ops(Instruction::PWCTR2, seq![0xc5u8]) + command_ops(
        Instruction::PWCTR3,
        seq![0x0au8, 0x00],
    ) + command_ops(Instruction::PWCTR4, seq![0x8au8, 0x2a]) + command_ops(
        Instruction::PWCTR5,
        seq![0x8au8, 0xee],
    ) + command_ops(Instruction::VMCTR1, seq![0x0eu8]) + command_ops(
        Instruction::INVOFF,
        Seq::empty(),
    ) + command_ops(Instruction::MADCTL, seq![0x00u8]) + command_ops(
        Instruction::COLMOD,
        seq![0x05u8],
    ) + command_ops(Instruction::DISPON, Seq::empty()) + seq![BusOp::DelayMs(200)]
}

/// The bytes of the pixel words of `row`, in order, each high byte first.
pub open spec fn row_bytes(row: Seq<u16>) -> Seq<u8>
    decreases row.len(),
{
    if row.len() == 0 {
        Seq::empty()
    } else {
        row_bytes(row.drop_last()) + word_bytes(row.last())
    }
}

/// The bytes of the pixel words of frame `f`, row after row.
pub open spec fn frame_bytes(f: Seq<Seq<u16>>) -> Seq<u8>
    decreases f.len(),
{
    if f.len() == 0 {
        Seq::empty()
    } else {
        frame_bytes(f.drop_last()) + row_bytes(f.last())
    }
}

/// Sending frame `f` of a `w` x `h` panel: the whole panel as the window,
/// then the pixel bytes.
pub open spec fn draw_ops(f: Seq<Seq<u16>>, w: u16, h: u16) -> Seq<BusOp> {
    address_window_ops(0, 0, (w - 1) as u16, (h - 1) as u16) + command_ops(
        Instruction::RAMWR,
        Seq::empty(),
    ) + seq![BusOp::DcHigh] + write_ops(frame_bytes(f))
}

/// Law of `init`: the bring-up is exactly this sequence of bus steps: the
/// reset pulse; software reset and sleep out, each followed by 200 ms; frame
/// rate control (`0xb1`, `0xb2`, `0xb3`), inversion control `0xb4`, power
/// controls `0xc0` to `0xc4` and VCOM `0xc5` with their parameters; inversion
/// off `0x20`; memory access control `0x36` with `0x00`; pixel format `0x3a`
/// with `0x05`, the 16-bit words that `draw` sends two bytes each; display on
/// `0x29` and 200 ms.
pub proof fn law_init_sequence()
    ensures
        init_ops() == seq![
            BusOp::ResetHigh,
            BusOp::DelayMs(10),
            BusOp::ResetLow,
            BusOp::DelayMs(10),
            BusOp::ResetHigh,
            BusOp::DcLow,
            BusOp::Write(0x01),
            BusOp::DelayMs(200),
            BusOp::DcLow,
            BusOp::Write(0x11),
            BusOp::DelayMs(200),
            BusOp::DcLow,
            BusOp::Write(0xb1),
            BusOp::DcHigh,
            BusOp::Write(0x01),
            BusOp::Write(0x2c),
            BusOp::Write(0x2d),
            BusOp::DcLow,
            BusOp::Write(0xb2),
            BusOp::DcHigh,
            BusOp::Write(0x01),
            BusOp::Write(0x2c),
            BusOp::Write(0x2d),
            BusOp::DcLow,
            BusOp::Write(0xb3),
            BusOp::DcHigh,
            BusOp::Write(0x01),
            BusOp::Write(0x2c),
            BusOp::Write(0x2d),
            BusOp::Write(0x01),
            BusOp::Write(0x2c),
            BusOp::Write(0x2d),
            BusOp::DcLow,
            BusOp::Write(0xb4),
            BusOp::DcHigh,
            BusOp::Write(0x07),
            BusOp::DcLow,
            BusOp::Write(0xc0),
            BusOp::DcHigh,
            BusOp::Write(0xa2),
            BusOp::Write(0x02),
            BusOp::Write(0x84),
            BusOp::DcLow,
            BusOp::Write(0xc1),
            BusOp::DcHigh,
            BusOp::Write(0xc5),
            BusOp::DcLow,
            BusOp::Write(0xc2),
            BusOp::DcHigh,
            BusOp::Write(0x0a),
            BusOp::Write(0x00),
            BusOp::DcLow,
            BusOp::Write(0xc3),
            BusOp::DcHigh,
            BusOp::Write(0x8a),
            BusOp::Write(0x2a),
            BusOp::DcLow,
            BusOp::Write(0xc4),
            BusOp::DcHigh,
            BusOp::Write(0x8a),
            BusOp::Write(0xee),
            BusOp::DcLow,
            BusOp::Write(0xc5),
            BusOp::DcHigh,
            BusOp::Write(0x0e),
            BusOp::DcLow,
            BusOp::Write(0x20),
            BusOp::DcLow,
            BusOp::Write(0x36),
            BusOp::DcHigh,
            BusOp::Write(0x00),
            BusOp::DcLow,
            BusOp::Write(0x3a),
            BusOp::DcHigh,
            BusOp::Write(0x05),
            BusOp::DcLow,
            BusOp::Write(0x29),
            BusOp::DelayMs(200)
        ],
{
}

/// Law of `write_command`: the data/command line goes low, the command byte
/// is sent, and only when there are parameters the line goes high and the
/// parameters are sent, in order.
pub proof fn law_command(command: Instruction, params: Seq<u8>)
    ensures
        command_ops(command, params).len() == if params.len() > 0 {
            3 + params.len()
        } else {
            2
        },
        command_ops(command, params)[0] == BusOp::DcLow,
        command_ops(command, params)[1] == BusOp::Write(command.spec_code()),
        params.len() > 0 ==> command_ops(command, params)[2] == BusOp::DcHigh,
        forall|i: int|
            0 <= i < params.len() ==> #[trigger] command_ops(command, params)[3 + i] == BusOp::Write(
                params[i],
            ),
{
}

/// Law of `set_address_window`: column range command `0x2a` with the start
/// and end columns, then row range command `0x2b` with the start and end
/// rows, each number sent high byte first.
pub proof fn law_address_window(sx: u16, sy: u16, ex: u16, ey: u16)
    ensures
        address_window_ops(sx, sy, ex, ey) == seq![
            BusOp::DcLow,
            BusOp::Write(0x2a),
            BusOp::DcHigh,
            BusOp::Write((sx / 256) as u8),
            BusOp::Write((sx % 256) as u8),
            BusOp::Write((ex / 256) as u8),
            BusOp::Write((ex % 256) as u8),
            BusOp::DcLow,
            BusOp::Write(0x2b),
            BusOp::DcHigh,
            BusOp::Write((sy / 256) as u8),
            BusOp::Write((sy % 256) as u8),
            BusOp::Write((ey / 256) as u8),
            BusOp::Write((ey % 256) as u8)
        ],
{
}

/// The bytes of a row are its pixel words, two bytes each, high byte first.
pub proof fn lemma_row_bytes(row: Seq<u16>)
    ensures
        row_bytes(row).len() == 2 * row.len(),
        forall|i: int|
            0 <= i < row.len() ==> #[trigger] row_bytes(row)[2 * i] == (row[i] / 256) as u8
                && row_bytes(row)[2 * i + 1] == (row[i] % 256) as u8,
    decreases row.len(),
{
    if row.len() > 0 {
        lemma_row_bytes(row.drop_last());
        assert forall|i: int| 0 <= i < row.len() implies #[trigger] row_bytes(row)[2 * i] == (row[i]
            / 256) as u8 && row_bytes(row)[2 * i + 1] == (row[i] % 256) as u8 by {
            if i < row.len() - 1 {
                assert(row.drop_last()[i] == row[i]);
            }
        }
    }
}

/// Law of `draw`: a `w` x `h` frame goes out as `2 * w * h` bytes, pixel
/// `(i, j)` as bytes `2 * (j * w + i)` (high) and `2 * (j * w + i) + 1` (low).
pub proof fn lemma_frame_bytes(f: Seq<Seq<u16>>, w: int, h: int)
    requires
        0 <= w,
        0 <= h,
        f.len() == h,
        forall|j: int| 0 <= j < h ==> #[trigger] f[j].len() == w,
    ensures
        frame_bytes(f).len() == 2 * w * h,
        forall|j: int, i: int|
            0 <= j < h && 0 <= i < w ==> #[trigger] frame_bytes(f)[2 * (j * w + i)] == (f[j][i]
                / 256) as u8 && frame_bytes(f)[2 * (j * w + i) + 1] == (f[j][i] % 256) as u8,
    decreases h,
{
    if h > 0 {
        let g = f.drop_last();
        lemma_frame_bytes(g, w, h - 1);
        lemma_row_bytes(f.last());
        assert(2 * w * h == 2 * w * (h - 1) + 2 * w) by (nonlinear_arith);
        assert forall|j: int, i: int| 0 <= j < h && 0 <= i < w implies #[trigger] frame_bytes(f)[2 * (
        j * w + i)] == (f[j][i] / 256) as u8 && frame_bytes(f)[2 * (j * w + i) + 1] == (f[j][i]
            % 256) as u8 by {
            if j < h - 1 {
                assert(g[j] == f[j]);
                assert(2 * (j * w + i) + 1 < 2 * w * (h - 1)) by (nonlinear_arith)
                    requires
                        0 <= j < h - 1,
                        0 <= i < w,
                ;
            } else {
                assert(j * w == (h - 1) * w);
                assert(2 * (j * w + i) == 2 * w * (h - 1) + 2 * i) by (nonlinear_arith)
                    requires
                        j * w == (h - 1) * w,
                ;
            }
        }
    }
}

/// Law of `draw`: the window is set to columns `0..=w-1` and rows `0..=h-1`,
/// memory write `0x2c` is sent, the line goes high, and then pixel `(i, j)`
/// goes out as steps `17 + 2 * (j * w + i)` (high byte) and the one after it
/// (low byte), two steps per pixel and nothing more.
pub proof fn law_draw(f: Seq<Seq<u16>>, w: u16, h: u16)
    requires
        w >= 1,
        h >= 1,
        f.len() == h,
        forall|j: int| 0 <= j < h ==> #[trigger] f[j].len() == w,
    ensures
        draw_ops(f, w, h).len() == 17 + 2 * w * h,
        draw_ops(f, w, h).subrange(0, 14) == address_window_ops(0, 0, (w - 1) as u16, (h - 1) as u16),
        draw_ops(f, w, h)[14] == BusOp::DcLow,
        draw_ops(f, w, h)[15] == BusOp::Write(0x2c),
        draw_ops(f, w, h)[16] == BusOp::DcHigh,
        forall|j: int, i: int|
            0 <= j < h && 0 <= i < w ==> #[trigger] draw_ops(f, w, h)[17 + 2 * (j * w + i)] == BusOp::Write(
                (f[j][i] / 256) as u8,
            ) && draw_ops(f, w, h)[17 + 2 * (j * w + i) + 1] == BusOp::Write((f[j][i] % 256) as u8),
{
    lemma_frame_bytes(f, w as int, h as int);
    law_address_window(0, 0, (w - 1) as u16, (h - 1) as u16);
    let d = draw_ops(f, w, h);
    let b = frame_bytes(f);
    let pre = address_window_ops(0, 0, (w - 1) as u16, (h - 1) as u16) + command_ops(
        Instruction::RAMWR,
        Seq::empty(),
    ) + seq![BusOp::DcHigh];
    assert(pre.len() == 17);
    assert(d == pre + write_ops(b));
    assert(d.subrange(0, 14) =~= address_window_ops(0, 0, (w - 1) as u16, (h - 1) as u16));
    assert forall|j: int, i: int| 0 <= j < h && 0 <= i < w implies #[trigger] d[17 + 2 * (j * w + i)]
        == BusOp::Write((f[j][i] / 256) as u8) && d[17 + 2 * (j * w + i) + 1] == BusOp::Write(
        (f[j][i] % 256) as u8,
    ) by {
        assert(0 <= j * w + i && 2 * (j * w + i) + 1 < 2 * w * h) by (nonlinear_arith)
            requires
                0 <= j < h,
                0 <= i < w,
        ;
        assert(b[2 * (j * w + i)] == (f[j][i] / 256) as u8);
        assert(d[17 + 2 * (j * w + i)] == BusOp::Write(b[2 * (j * w + i)]));
        assert(d[17 + 2 * (j * w + i) + 1] == BusOp::Write(b[2 * (j * w + i) + 1]));
    }
}

/// Appends the sending of `bytes` to `out`.
fn push_bytes(out: &mut Vec<BusOp>, bytes: &[u8])
    ensures
        final(out)@ == old(out)@ + write_ops(bytes@),
{
    let ghost start = out@;
    let mut i: usize = 0;
    while i < bytes.len()
        invariant
            i <= bytes@.len(),
            out@ == start + write_ops(bytes@.take(i as int)),
        decreases bytes@.len() - i,
    {
        out.push(BusOp::Write(bytes[i]));
        assert(write_ops(bytes@.take(i + 1)) =~= write_ops(bytes@.take(i as int)).push(
            BusOp::Write(bytes@[i as int]),
        ));
        i = i + 1;
    }
    assert(bytes@.take(bytes@.len() as int) =~= bytes@);
}

impl<const W: usize, const H: usize> Display<W, H> {
    /// Appends to `out` the sending of command `command` and then, if there are
    /// any, of its parameters.
    pub fn write_command(&self, out: &mut Vec<BusOp>, command: Instruction, params: &[u8])
        ensures
            final(out)@ == old(out)@ + command_ops(command, params@),
    {
        let ghost start = out@;
        out.push(BusOp::DcLow);
        out.push(BusOp::Write(command.code()));
        if params.len() > 0 {
            self.start_data(out);
            self.write_data(out, params);
        }
        assert(out@ =~= start + command_ops(command, params@));
    }

    /// Appends to `out` the switch to data mode.
    pub fn start_data(&self, out: &mut Vec<BusOp>)
        ensures
            final(out)@ == old(out)@.push(BusOp::DcHigh),
    {
        out.push(BusOp::DcHigh);
    }

    /// Appends to `out` the sending of `data`.
    pub fn write_data(&self, out: &mut Vec<BusOp>, data: &[u8])
        ensures
            final(out)@ == old(out)@ + write_ops(data@),
    {
        push_bytes(out, data);
    }

    /// Appends to `out` the sending of `value`, high byte first.
    pub fn write_word(&self, out: &mut Vec<BusOp>, value: u16)
        ensures
            final(out)@ == old(out)@ + write_ops(word_bytes(value)),
    {
        let hi = (value >> 8) as u8;
        let lo = (value & 0xff) as u8;
        assert(value >> 8u16 == value / 256) by (bit_vector);
        assert(value & 0xffu16 == value % 256) by (bit_vector);
        let ghost start = out@;
        out.push(BusOp::Write(hi));
        out.push(BusOp::Write(lo));
        assert(out@ =~= start + write_ops(word_bytes(value)));
    }

    /// Appends to `out` the setting of the window that pixel data goes to:
    /// columns `sx..=ex`, rows `sy..=ey`.
    pub fn set_address_window(&self, out: &mut Vec<BusOp>, sx: u16, sy: u16, ex: u16, ey: u16)
        ensures
            final(out)@ == old(out)@ + address_window_ops(sx, sy, ex, ey),
    {
        let mut ops: Vec<BusOp> = Vec::new();
        self.write_command(&mut ops, Instruction::CASET, &[]);
        self.start_data(&mut ops);
        self.write_word(&mut ops, sx);
        self.write_word(&mut ops, ex);
        self.write_command(&mut ops, Instruction::RASET, &[]);
        self.start_data(&mut ops);
        self.write_word(&mut ops, sy);
        self.write_word(&mut ops, ey);
        assert(ops@ =~= address_window_ops(sx, sy, ex, ey));
        out.append(&mut ops);
    }

    /// Appends to `out` the setting of the panel orientation.
    pub fn set_orientation(&self, out: &mut Vec<BusOp>, orientation: Orientation)
        ensures
            final(out)@ == old(out)@ + command_ops(Instruction::MADCTL, seq![orientation.spec_code()]),
    {
        let params = [orientation.code()];
        assert(params@ =~= seq![orientation.spec_code()]);
        self.write_command(out, Instruction::MADCTL, &params);
    }

    /// Appends to `out` a pulse of the reset line.
    pub fn hard_reset(&self, out: &mut Vec<BusOp>)
        ensures
            final(out)@ == old(out)@ + reset_ops(),
    {
        let ghost start = out@;
        out.push(BusOp::ResetHigh);
        out.push(BusOp::DelayMs(10));
        out.push(BusOp::ResetLow);
        out.push(BusOp::DelayMs(10));
        out.push(BusOp::ResetHigh);
        assert(out@ =~= start + reset_ops());
    }

    /// Appends to `out` a wait of `ms` milliseconds.
    fn delay_ms(&self, out: &mut Vec<BusOp>, ms: u8)
        ensures
            final(out)@ == old(out)@ + seq![BusOp::DelayMs(ms)],
    {
        let ghost start = out@;
        out.push(BusOp::DelayMs(ms));
        assert(out@ =~= start + seq![BusOp::DelayMs(ms)]);
    }

    /// Appends to `out` the bring-up of the panel: reset, wake, frame rate,
    /// inversion, power and voltage settings, orientation, 16-bit color,
    /// display on, with the waits the controller needs.
    pub fn init(&self, out: &mut Vec<BusOp>)
        ensures
            final(out)@ == old(out)@ + init_ops(),
    {
        let none: [u8; 0] = [];
        let frame_rate: [u8; 3] = [0x01, 0x2c, 0x2d];
        let frame_rate_partial: [u8; 6] = [0x01, 0x2c, 0x2d, 0x01, 0x2c, 0x2d];
        let inversion: [u8; 1] = [0x07];
        let power1: [u8; 3] = [0xa2, 0x02, 0x84];
        let power2: [u8; 1] = [0xc5];
        let power3: [u8; 2] = [0x0a, 0x00];
        let power4: [u8; 2] = [0x8a, 0x2a];
        let power5: [u8; 2] = [0x8a, 0xee];
        let vcom: [u8; 1] = [0x0e];
        let madctl: [u8; 1] = [0x00];
        let colmod: [u8; 1] = [0x05];
        assert(none@ =~= Seq::<u8>::empty());
        assert(frame_rate@ =~= seq![0x01u8, 0x2c, 0x2d]);
        assert(frame_rate_partial@ =~= seq![0x01u8, 0x2c, 0x2d, 0x01, 0x2c, 0x2d]);
        assert(inversion@ =~= seq![0x07u8]);
        assert(power1@ =~= seq![0xa2u8, 0x02, 0x84]);
        assert(power2@ =~= seq![0xc5u8]);
        assert(power3@ =~= seq![0x0au8, 0x00]);
        assert(power4@ =~= seq![0x8au8, 0x2a]);
        assert(power5@ =~= seq![0x8au8, 0xee]);
        assert(vcom@ =~= seq![0x0eu8]);
        assert(madctl@ =~= seq![0x00u8]);
        assert(colmod@ =~= seq![0x05u8]);
        let mut ops: Vec<BusOp> = Vec::new();
        self.hard_reset(&mut ops);
        assert(ops@ =~= reset_ops());
        self.write_command(&mut ops, Instruction::SWRESET, &none);
        self.delay_ms(&mut ops, 200);
        self.write_command(&mut ops, Instruction::SLPOUT, &none);
        self.delay_ms(&mut ops, 200);
        self.write_command(&mut ops, Instruction::FRMCTR1, &frame_rate);
        self.write_command(&mut ops, Instruction::FRMCTR2, &frame_rate);
        self.write_command(&mut ops, Instruction::FRMCTR3, &frame_rate_partial);
        self.write_command(&mut ops, Instruction::INVCTR, &inversion);
        self.write_command(&mut ops, Instruction::PWCTR1, &power1);
        self.write_command(&mut ops, Instruction::PWCTR2, &power2);
        self.write_command(&mut ops, Instruction::PWCTR3, &power3);
        self.write_command(&mut ops, Instruction::PWCTR4, &power4);
        self.write_command(&mut ops, Instruction::PWCTR5, &power5);
        self.write_command(&mut ops, Instruction::VMCTR1, &vcom);
        self.write_command(&mut ops, Instruction::INVOFF, &none);
        self.write_command(&mut ops, Instruction::MADCTL, &madctl);
        self.write_command(&mut ops, Instruction::COLMOD, &colmod);
        self.write_command(&mut ops, Instruction::DISPON, &none);
        self.delay_ms(&mut ops, 200);
        out.append(&mut ops);
    }

    /// Appends to `out` the sending of the whole frame buffer: the window is
    /// set to the whole panel, then every pixel word is sent, row after row,
    /// each high byte first.
    pub fn draw(&self, out: &mut Vec<BusOp>)
        requires
            (W as u16) >= 1,
            (H as u16) >= 1,
        ensures
            final(out)@ == old(out)@ + draw_ops(self.frame(), W as u16, H as u16),
    {
        let none: [u8; 0] = [];
        assert(none@ =~= Seq::<u8>::empty());
        let mut ops: Vec<BusOp> = Vec::new();
        self.set_address_window(&mut ops, 0, 0, W as u16 - 1, H as u16 - 1);
        self.write_command(&mut ops, Instruction::RAMWR, &none);
        self.start_data(&mut ops);
        let ghost prefix = ops@;
        assert(prefix =~= address_window_ops(0, 0, (W as u16 - 1) as u16, (H as u16 - 1) as u16)
            + command_ops(Instruction::RAMWR, Seq::empty()) + seq![BusOp::DcHigh]);
        let ghost f = self.frame();
        let ghost mut bytes: Seq<u8> = Seq::empty();
        proof {
            self.lemma_frame_shape();
            assert(f.take(0) =~= Seq::<Seq<u16>>::empty());
            assert(write_ops(bytes) =~= Seq::<BusOp>::empty());
            assert(ops@ =~= prefix + write_ops(bytes));
        }
        let mut y: usize = 0;
        while y < H
            invariant
                y <= H,
                f == self.frame(),
                f.len() == H,
                forall|j: int| 0 <= j < H ==> #[trigger] f[j].len() == W,
                bytes == frame_bytes(f.take(y as int)),
                ops@ == prefix + write_ops(bytes),
            decreases H - y,
        {
            let ghost row = f[y as int];
            let ghost before_row = bytes;
            assert(row.take(0) =~= Seq::<u16>::empty());
            assert(before_row + row_bytes(row.take(0)) =~= before_row);
            let mut x: usize = 0;
            while x < W
                invariant
                    x <= W,
                    y < H,
                    f == self.frame(),
                    row == f[y as int],
                    row.len() == W,
                    before_row == frame_bytes(f.take(y as int)),
                    bytes == before_row + row_bytes(row.take(x as int)),
                    ops@ == prefix + write_ops(bytes),
                decreases W - x,
            {
                let v = self.data[y][x];
                assert(v == row[x as int]);
                self.write_word(&mut ops, v);
                proof {
                    assert(row.take(x + 1).drop_last() =~= row.take(x as int));
                    assert(row_bytes(row.take(x + 1)) == row_bytes(row.take(x as int)) + word_bytes(v));
                    assert(write_ops(bytes + word_bytes(v)) =~= write_ops(bytes) + write_ops(word_bytes(v)));
                    assert(before_row + row_bytes(row.take(x + 1)) =~= bytes + word_bytes(v));
                    bytes = bytes + word_bytes(v);
                }
                x = x + 1;
            }
            proof {
                assert(row.take(W as int) =~= row);
                assert(f.take(y + 1).drop_last() =~= f.take(y as int));
                assert(f.take(y + 1).last() == row);
            }
            y = y + 1;
        }
        assert(f.take(H as int) =~= f);
        out.append(&mut ops);
    }
}

} // verus!

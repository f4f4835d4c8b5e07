//! HD44780 20x4 LCD over a PCF8574 I2C backpack.
//!
//! The PCF8574 is an 8-bit I2C port expander wired to the LCD's 4-bit bus, so
//! every byte sent to the controller is split into two nibbles and clocked in
//! with the enable line. The low bits of each port write carry the control
//! signals (register select, enable, backlight).
//!
//! This module computes *what* goes over the bus, without any buffer: a
//! plan is a sequence of items (controller bytes, handshake nibbles and
//! pauses), produced one at a time by its index, and each item expands into
//! at most eight port writes and pauses. The firmware performs a plan against
//! one backpack address, item by item, and stops at the first failed write.
use crate::config::{LCD1_ADDR, LCD1_TITLE, LCD2_ADDR, LCD2_TITLE, LCD_SUBTITLE};
use crate::sensor::{Reading, SensorBank};
use crate::units::{min_int, tenths_text, write_tenths};
use vstd::prelude::*;
use vstd::string::StringSliceAdditionalSpecFns;

verus! {

// PCF8574 control bits packed alongside the data nibble.
/// Backlight line of the backpack.
pub const LCD_BACKLIGHT: u8 = 0x08;

/// Enable (clock) line of the LCD.
pub const LCD_ENABLE: u8 = 0x04;

/// RS low: the byte is an instruction.
pub const LCD_COMMAND: u8 = 0x00;

/// RS high: the byte is character data.
pub const LCD_DATA: u8 = 0x01;

// HD44780 instruction set.
/// Clear display, home cursor.
pub const LCD_CLEAR: u8 = 0x01;

/// Increment cursor, no display shift.
pub const LCD_ENTRY_MODE: u8 = 0x06;

/// Display on, cursor off, blink off.
pub const LCD_DISPLAY_ON: u8 = 0x0C;

/// 4-bit bus, 2 lines, 5x8 font.
pub const LCD_FUNCTION_SET: u8 = 0x28;

/// Base address for custom-character RAM.
pub const LCD_SET_CGRAM: u8 = 0x40;

/// Base address for display RAM (cursor move).
pub const LCD_SET_DDRAM: u8 = 0x80;

// CGRAM slots for the custom glyphs created by `init_lcd`.
/// Slot of the pump icon.
pub const GLYPH_PUMP: u8 = 0;

/// Slot of the left spray glyph.
pub const GLYPH_SPRAY_L: u8 = 1;

/// Slot of the right spray glyph.
pub const GLYPH_SPRAY_R: u8 = 2;

/// Slot of the frog glyph.
pub const GLYPH_FROG: u8 = 3;

/// Slot of the fly glyph.
pub const GLYPH_FLY: u8 = 4;

// Custom 5x8 character bitmaps (one byte per row, low 5 bits = pixels).
/// Pump icon bitmap.
pub const PUMP_ICON: [u8; 8] = [0b00000, 0b01110, 0b11111, 0b11111, 0b01010, 0b01010, 0b01010, 0b01110];

/// Left spray bitmap.
pub const PUMP_SPRAY_L: [u8; 8] = [0b00100, 0b00010, 0b01011, 0b00011, 0b00110, 0b01010, 0b00100, 0b00000];

/// Right spray bitmap.
pub const PUMP_SPRAY_R: [u8; 8] = [0b00100, 0b01000, 0b11010, 0b11000, 0b01100, 0b01010, 0b00100, 0b00000];

/// Frog bitmap.
pub const FROG: [u8; 8] = [0b00000, 0b00011, 0b00111, 0b01111, 0b01111, 0b11111, 0b10001, 0b11101];

/// Fly bitmap.
pub const FLY: [u8; 8] = [0b00000, 0b00000, 0b00000, 0b01100, 0b01101, 0b01110, 0b01110, 0b01010];

/// One step of a bus plan: a single-byte write to the backpack, or a pause.
#[derive(Clone, Copy, Debug, PartialEq, Eq, Structural)]
pub enum BusOp {
    /// Write this byte to the backpack's port.
    Write(u8),
    /// Wait this many milliseconds.
    DelayMs(u32),
    /// Wait this many microseconds.
    DelayUs(u32),
}

/// A write, if any, keeps the backlight bit set.
pub open spec fn backlit(op: BusOp) -> bool {
    match op {
        BusOp::Write(b) => b & LCD_BACKLIGHT == LCD_BACKLIGHT,
        _ => true,
    }
}

/// Every write of a plan keeps the backlight on.
pub open spec fn all_backlit(ops: Seq<BusOp>) -> bool {
    forall|i: int| 0 <= i < ops.len() ==> #[trigger] backlit(ops[i])
}

/// Clocks a single nibble into the controller by pulsing the enable line: the
/// data is presented with enable high, then latched on the falling edge. The
/// backlight bit is kept set throughout so the display stays lit.
pub open spec fn nibble_ops(value: u8, mode: u8) -> Seq<BusOp> {
    let data = value | mode | LCD_BACKLIGHT;
    seq![
        BusOp::Write(data | LCD_ENABLE),
        BusOp::DelayUs(1),
        BusOp::Write(data & !LCD_ENABLE),
        BusOp::DelayUs(50),
    ]
}

/// A full byte as two 4-bit nibbles, high nibble first.
pub open spec fn byte_ops(value: u8, mode: u8) -> Seq<BusOp> {
    nibble_ops(value & 0xF0, mode) + nibble_ops((value << 4u8) & 0xF0, mode)
}

/// Start address of each visible row in the controller's display RAM. The
/// 20x4 panel is internally laid out as two 40-char lines, hence the
/// non-contiguous offsets. Rows past the last count as the last.
pub open spec fn row_offset(row: u8) -> u8 {
    if row == 0 {
        0x00
    } else if row == 1 {
        0x40
    } else if row == 2 {
        0x14
    } else {
        0x54
    }
}

/// The display-RAM address of (`col`, `row`), wrapping within a byte.
pub open spec fn cursor_address(col: u8, row: u8) -> u8 {
    ((col as int + row_offset(row) as int) % 256) as u8
}

/// `text` cut or space-padded to exactly `width` characters.
pub open spec fn padded_text(text: Seq<u8>, width: u8) -> Seq<u8> {
    let shown = min_int(text.len() as int, width as int);
    text.take(shown) + Seq::new((width - shown) as nat, |i: int| 32u8)
}

/// One item of a plan: something the controller receives as a unit.
#[derive(Clone, Copy, Debug, PartialEq, Eq, Structural)]
pub enum PlanItem {
    /// A lone instruction nibble (the power-up handshake only).
    Nibble(u8),
    /// An instruction byte.
    Command(u8),
    /// A character-data byte.
    Data(u8),
    /// A pause in milliseconds.
    PauseMs(u32),
    /// A pause in microseconds.
    PauseUs(u32),
}

/// The port writes and pauses an item stands for.
pub open spec fn item_ops(item: PlanItem) -> Seq<BusOp> {
    match item {
        PlanItem::Nibble(v) => nibble_ops(v, LCD_COMMAND),
        PlanItem::Command(v) => byte_ops(v, LCD_COMMAND),
        PlanItem::Data(v) => byte_ops(v, LCD_DATA),
        PlanItem::PauseMs(ms) => seq![BusOp::DelayMs(ms)],
        PlanItem::PauseUs(us) => seq![BusOp::DelayUs(us)],
    }
}

/// The whole bus traffic of a plan: its items' operations, in order.
pub open spec fn plan_ops(items: Seq<PlanItem>) -> Seq<BusOp>
    decreases items.len(),
{
    if items.len() == 0 {
        Seq::empty()
    } else {
        plan_ops(items.drop_last()) + item_ops(items.last())
    }
}

/// Moves the cursor to (`col`, `row`).
pub open spec fn cursor_item(col: u8, row: u8) -> PlanItem {
    PlanItem::Command(LCD_SET_DDRAM | cursor_address(col, row))
}

/// Character data for every byte of `text`, in order.
pub open spec fn text_items(text: Seq<u8>) -> Seq<PlanItem> {
    Seq::new(text.len(), |i: int| PlanItem::Data(text[i]))
}

/// `text` at (`col`, `row`), cut or space-padded to exactly `width`
/// characters so previously drawn content is fully overwritten.
pub open spec fn padded_items(col: u8, row: u8, text: Seq<u8>, width: u8) -> Seq<PlanItem> {
    seq![cursor_item(col, row)] + text_items(padded_text(text, width))
}

/// `text` at (`col`, `row`).
pub open spec fn str_items(col: u8, row: u8, text: Seq<u8>) -> Seq<PlanItem> {
    seq![cursor_item(col, row)] + text_items(text)
}

/// An 8-row bitmap uploaded into a CGRAM custom-character slot.
pub open spec fn glyph_items(slot: u8, glyph: Seq<u8>) -> Seq<PlanItem> {
    seq![PlanItem::Command(LCD_SET_CGRAM | (slot << 3u8))] + text_items(glyph)
}

/// The standard HD44780 4-bit handshake: three "function set" pulses to force
/// 8-bit mode, then the switch to 4-bit operation (each nibble on the LCD's
/// D4-D7, the upper four port bits); then the display mode and a clear.
pub open spec fn handshake_items() -> Seq<PlanItem> {
    seq![
        PlanItem::PauseMs(50),
        PlanItem::Nibble(0x30),
        PlanItem::PauseMs(5),
        PlanItem::Nibble(0x30),
        PlanItem::PauseUs(200),
        PlanItem::Nibble(0x30),
        PlanItem::PauseUs(200),
        PlanItem::Nibble(0x20),
        PlanItem::Command(LCD_FUNCTION_SET),
        PlanItem::Command(LCD_DISPLAY_ON),
        PlanItem::Command(LCD_ENTRY_MODE),
        PlanItem::Command(LCD_CLEAR),
        PlanItem::PauseMs(2),
    ]
}

/// The power-up sequence of one panel: the handshake, then the five custom
/// glyphs uploaded into CGRAM.
pub open spec fn init_items() -> Seq<PlanItem> {
    handshake_items() + (glyph_items(GLYPH_PUMP, PUMP_ICON@) + (glyph_items(
        GLYPH_SPRAY_L,
        PUMP_SPRAY_L@,
    ) + (glyph_items(GLYPH_SPRAY_R, PUMP_SPRAY_R@) + (glyph_items(GLYPH_FROG, FROG@)
        + glyph_items(GLYPH_FLY, FLY@)))))
}

/// Text shown in place of a reading whose probe failed.
pub const ERROR_TEXT: &'static str = "ERROR";

/// Placeholder shown on the first panel until the first sweep completes.
pub const LCD1_WAIT_TEXT: &'static str = "Please Wait";

/// Placeholder shown on the second panel until the first sweep completes.
pub const LCD2_WAIT_TEXT: &'static str = "Loading...";

/// The divider drawn between a panel's two readings.
pub const DIVIDER: u8 = 0x7C;

/// Suffix of a temperature (`F`).
pub const SUFFIX_FAHRENHEIT: u8 = 0x46;

/// Suffix of a humidity (`%`).
pub const SUFFIX_PERCENT: u8 = 0x25;

/// A space, which blanks a cell.
pub const BLANK: u8 = 0x20;

/// A temperature (row 2) and humidity (row 3) pair starting at `col`, each
/// padded to a fixed 7-character field so stale digits get overwritten.
pub open spec fn reading_pair_items(col: u8, reading: Reading) -> Seq<PlanItem> {
    padded_items(col, 2, tenths_text(reading.spec_temp_tenths_f() as int, SUFFIX_FAHRENHEIT), 7)
        + padded_items(col, 3, tenths_text(reading.spec_humi_tenths() as int, SUFFIX_PERCENT), 7)
}

/// The primary reading: the left half (columns 0-5), temperature on row 2
/// and humidity on row 3, or `ERROR` if its probe failed.
pub open spec fn primary_items(reading: Reading) -> Seq<PlanItem> {
    if reading is Error {
        padded_items(0, 2, ERROR_TEXT.spec_bytes(), 5)
    } else {
        reading_pair_items(0, reading)
    }
}

/// The secondary reading: right of a `|` divider (columns 7+), or `ERROR` at
/// the panel's own error position if its probe failed.
pub open spec fn secondary_items(error_col: u8, error_row: u8, reading: Reading) -> Seq<PlanItem> {
    if reading is Error {
        padded_items(error_col, error_row, ERROR_TEXT.spec_bytes(), 5)
    } else {
        seq![
            cursor_item(6, 2),
            PlanItem::Data(DIVIDER),
            cursor_item(6, 3),
            PlanItem::Data(DIVIDER),
        ] + reading_pair_items(7, reading)
    }
}

/// The pump icon, bottom-right.
pub open spec fn pump_items() -> Seq<PlanItem> {
    seq![cursor_item(18, 3), PlanItem::Data(GLYPH_PUMP)]
}

/// A row of `count` frogs on row 2, marching left from column 15.
pub open spec fn frogs_items(count: nat) -> Seq<PlanItem> {
    Seq::new(
        2 * count,
        |m: int|
            if m % 2 == 0 {
                cursor_item((15 - m / 2) as u8, 2)
            } else {
                PlanItem::Data(GLYPH_FROG)
            },
    )
}

/// A fly for the frogs to chase.
pub open spec fn fly_items() -> Seq<PlanItem> {
    seq![cursor_item(17, 2), PlanItem::Data(GLYPH_FLY)]
}

/// The two cells flanking the pump icon: the spray glyphs while it mists,
/// blanks otherwise. The pump's own cell is left alone.
pub open spec fn spray_items(spray_on: bool) -> Seq<PlanItem> {
    if spray_on {
        seq![
            cursor_item(17, 3),
            PlanItem::Data(GLYPH_SPRAY_L),
            cursor_item(19, 3),
            PlanItem::Data(GLYPH_SPRAY_R),
        ]
    } else {
        seq![cursor_item(17, 3), PlanItem::Data(BLANK), cursor_item(19, 3), PlanItem::Data(BLANK)]
    }
}

/// One full panel: title, subtitle, both readings, the pump icon, the frogs,
/// the fly and the spray.
pub open spec fn render_items(
    title: Seq<u8>,
    frog_count: u8,
    error_col: u8,
    error_row: u8,
    primary: Reading,
    secondary: Reading,
    spray_on: bool,
) -> Seq<PlanItem> {
    padded_items(0, 0, title, 20) + (padded_items(0, 1, LCD_SUBTITLE.spec_bytes(), 20) + (
    primary_items(primary) + (secondary_items(error_col, error_row, secondary) + (pump_items() + (
    frogs_items(frog_count as nat) + (fly_items() + spray_items(spray_on)))))))
}

/// The two panels. They differ only in address, title, how many decorative
/// frogs they draw, and where the secondary "ERROR" message lands (a quirk of
/// the panel layout).
#[derive(Clone, Copy, Debug, PartialEq, Eq, Structural)]
pub enum PanelId {
    Lcd1,
    Lcd2,
}

/// The title of a panel.
pub open spec fn panel_title(panel: PanelId) -> Seq<u8> {
    match panel {
        PanelId::Lcd1 => LCD1_TITLE.spec_bytes(),
        PanelId::Lcd2 => LCD2_TITLE.spec_bytes(),
    }
}

/// How many frogs a panel draws.
pub open spec fn panel_frogs(panel: PanelId) -> u8 {
    match panel {
        PanelId::Lcd1 => 2,
        PanelId::Lcd2 => 3,
    }
}

/// Where a panel shows `ERROR` for a failed secondary probe: (column, row).
pub open spec fn panel_error_cell(panel: PanelId) -> (u8, u8) {
    match panel {
        PanelId::Lcd1 => (6, 2),
        PanelId::Lcd2 => (0, 3),
    }
}

/// The drawing of one panel.
pub open spec fn panel_items(panel: PanelId, primary: Reading, secondary: Reading, spray_on: bool) -> Seq<PlanItem> {
    render_items(
        panel_title(panel),
        panel_frogs(panel),
        panel_error_cell(panel).0,
        panel_error_cell(panel).1,
        primary,
        secondary,
        spray_on,
    )
}

/// What one step draws on its panel.
#[derive(Clone, Copy, Debug)]
pub enum StepContent {
    /// The power-up sequence.
    Init,
    /// A text at the top-left corner.
    Message { text: &'static str },
    /// A full panel from two readings.
    Render { panel: PanelId, primary: Reading, secondary: Reading, spray_on: bool },
}

/// One step of a procedure: what to draw at backpack `addr`, and whether a
/// failed write there ends the whole procedure (`required`) or only this
/// step, the procedure moving on to the next.
#[derive(Clone, Copy, Debug)]
pub struct LcdStep {
    pub addr: u8,
    pub content: StepContent,
    pub required: bool,
}

/// The plan of a step.
pub open spec fn step_items(step: LcdStep) -> Seq<PlanItem> {
    match step.content {
        StepContent::Init => init_items(),
        StepContent::Message { text } => str_items(0, 0, text.spec_bytes()),
        StepContent::Render { panel, primary, secondary, spray_on } => panel_items(
            panel,
            primary,
            secondary,
            spray_on,
        ),
    }
}

/// Item `k` of `items`, or `None` past its end.
pub open spec fn item_at(items: Seq<PlanItem>, k: int) -> Option<PlanItem> {
    if 0 <= k < items.len() {
        Some(items[k])
    } else {
        None
    }
}

/// The operations of one item, in a fixed buffer: the first `len` of `ops`.
#[derive(Clone, Copy, Debug)]
pub struct OpBurst {
    pub ops: [BusOp; 8],
    pub len: usize,
}

proof fn lemma_padded_text(text: Seq<u8>, width: u8)
    ensures
        padded_text(text, width).len() == width,
        forall|i: int|
            0 <= i < width ==> #[trigger] padded_text(text, width)[i] == (if i < text.len() {
                text[i]
            } else {
                32u8
            }),
{
    let shown = min_int(text.len() as int, width as int);
    let padded = padded_text(text, width);
    assert forall|i: int| 0 <= i < width implies #[trigger] padded[i] == (if i < text.len() {
        text[i]
    } else {
        32u8
    }) by {
        if i < shown {
            assert(padded[i] == text.take(shown)[i]);
        } else {
            assert(padded[i] == Seq::new((width - shown) as nat, |j: int| 32u8)[i - shown]);
        }
    }
}

/// A pulse for the handshake nibble `value`.
fn nibble_burst(value: u8) -> (burst: OpBurst)
    ensures
        burst.len == 4,
        burst.ops@.take(4) == nibble_ops(value, LCD_COMMAND),
{
    let data = value | LCD_COMMAND | LCD_BACKLIGHT;
    let burst = OpBurst {
        ops: [
            BusOp::Write(data | LCD_ENABLE),
            BusOp::DelayUs(1),
            BusOp::Write(data & !LCD_ENABLE),
            BusOp::DelayUs(50),
            BusOp::DelayUs(0),
            BusOp::DelayUs(0),
            BusOp::DelayUs(0),
            BusOp::DelayUs(0),
        ],
        len: 4,
    };
    assert(burst.ops@.take(4) =~= nibble_ops(value, LCD_COMMAND));
    burst
}

/// A full byte as two 4-bit nibbles (high nibble first), as required by the
/// 4-bit bus wiring.
fn byte_burst(value: u8, mode: u8) -> (burst: OpBurst)
    ensures
        burst.len == 8,
        burst.ops@.take(8) == byte_ops(value, mode),
{
    let high = (value & 0xF0) | mode | LCD_BACKLIGHT;
    let low = ((value << 4u8) & 0xF0) | mode | LCD_BACKLIGHT;
    let burst = OpBurst {
        ops: [
            BusOp::Write(high | LCD_ENABLE),
            BusOp::DelayUs(1),
            BusOp::Write(high & !LCD_ENABLE),
            BusOp::DelayUs(50),
            BusOp::Write(low | LCD_ENABLE),
            BusOp::DelayUs(1),
            BusOp::Write(low & !LCD_ENABLE),
            BusOp::DelayUs(50),
        ],
        len: 8,
    };
    assert(burst.ops@.take(8) =~= byte_ops(value, mode));
    burst
}

/// A lone pause.
fn pause_burst(op: BusOp) -> (burst: OpBurst)
    ensures
        burst.len == 1,
        burst.ops@.take(1) == seq![op],
{
    let burst = OpBurst {
        ops: [
            op,
            BusOp::DelayUs(0),
            BusOp::DelayUs(0),
            BusOp::DelayUs(0),
            BusOp::DelayUs(0),
            BusOp::DelayUs(0),
            BusOp::DelayUs(0),
            BusOp::DelayUs(0),
        ],
        len: 1,
    };
    assert(burst.ops@.take(1) =~= seq![op]);
    burst
}

/// The port writes and pauses of one item, at most eight.
pub fn expand(item: PlanItem) -> (burst: OpBurst)
    ensures
        burst.len <= 8,
        burst.ops@.take(burst.len as int) == item_ops(item),
{
    match item {
        PlanItem::Nibble(v) => nibble_burst(v),
        PlanItem::Command(v) => byte_burst(v, LCD_COMMAND),
        PlanItem::Data(v) => byte_burst(v, LCD_DATA),
        PlanItem::PauseMs(ms) => pause_burst(BusOp::DelayMs(ms)),
        PlanItem::PauseUs(us) => pause_burst(BusOp::DelayUs(us)),
    }
}

/// The display-RAM start address of `row` (rows past the last count as the
/// last).
fn row_start(row: u8) -> (offset: u8)
    ensures
        offset == row_offset(row),
{
    let row = if row > 3 {
        3
    } else {
        row
    };
    if row == 0 {
        0x00
    } else if row == 1 {
        0x40
    } else if row == 2 {
        0x14
    } else {
        0x54
    }
}

/// Moves the cursor to (`col`, `row`) by writing the matching DDRAM address.
fn set_cursor(col: u8, row: u8) -> (item: PlanItem)
    ensures
        item == cursor_item(col, row),
{
    PlanItem::Command(LCD_SET_DDRAM | col.wrapping_add(row_start(row)))
}

/// Item `m` of `text` at (`col`, `row`), truncated or space-padded to exactly
/// `width` characters.
fn write_padded(col: u8, row: u8, text: &[u8], width: u8, m: usize) -> (item: PlanItem)
    requires
        m <= width,
    ensures
        padded_items(col, row, text@, width).len() == width + 1,
        item == padded_items(col, row, text@, width)[m as int],
{
    proof {
        lemma_padded_text(text@, width);
    }
    if m == 0 {
        return set_cursor(col, row);
    }
    let i = m - 1;
    if i < text.len() {
        PlanItem::Data(text[i])
    } else {
        PlanItem::Data(BLANK)
    }
}

/// Item `m` of `value` formatted with `suffix` at (`col`, `row`) in a
/// 7-character field.
fn write_tenths_field(col: u8, row: u8, value: i16, suffix: u8, m: usize) -> (item: PlanItem)
    requires
        m <= 7,
    ensures
        padded_items(col, row, tenths_text(value as int, suffix), 7).len() == 8,
        item == padded_items(col, row, tenths_text(value as int, suffix), 7)[m as int],
{
    let mut buf = [0u8; 12];
    let len = write_tenths(&mut buf, value, suffix);
    proof {
        crate::units::law_tenths_text_fits_eight(value, suffix);
    }
    let text = &buf[0..len];
    assert(text@ =~= tenths_text(value as int, suffix));
    write_padded(col, row, text, 7, m)
}

/// Item `m` of a temperature/humidity pair starting at `col`.
fn write_reading_pair(col: u8, reading: Reading, m: usize) -> (item: PlanItem)
    requires
        m < 16,
    ensures
        reading_pair_items(col, reading).len() == 16,
        item == reading_pair_items(col, reading)[m as int],
{
    let temp = reading.temp_tenths_f();
    let humi = reading.humi_tenths();
    proof {
        lemma_padded_text(tenths_text(temp as int, SUFFIX_FAHRENHEIT), 7);
        lemma_padded_text(tenths_text(humi as int, SUFFIX_PERCENT), 7);
    }
    if m < 8 {
        write_tenths_field(col, 2, temp, SUFFIX_FAHRENHEIT, m)
    } else {
        write_tenths_field(col, 3, humi, SUFFIX_PERCENT, m - 8)
    }
}

/// Item `m` of the primary reading.
fn render_primary(reading: Reading, m: usize) -> (item: PlanItem)
    requires
        m < primary_items(reading).len(),
    ensures
        item == primary_items(reading)[m as int],
{
    if reading.is_error() {
        write_padded(0, 2, ERROR_TEXT.as_bytes(), 5, m)
    } else {
        write_reading_pair(0, reading, m)
    }
}

/// Item `m` of the secondary reading. Its error placement differs per panel.
fn render_secondary(error_col: u8, error_row: u8, reading: Reading, m: usize) -> (item: PlanItem)
    requires
        m < secondary_items(error_col, error_row, reading).len(),
    ensures
        item == secondary_items(error_col, error_row, reading)[m as int],
{
    if reading.is_error() {
        write_padded(error_col, error_row, ERROR_TEXT.as_bytes(), 5, m)
    } else if m == 0 {
        set_cursor(6, 2)
    } else if m == 1 {
        PlanItem::Data(DIVIDER)
    } else if m == 2 {
        set_cursor(6, 3)
    } else if m == 3 {
        PlanItem::Data(DIVIDER)
    } else {
        write_reading_pair(7, reading, m - 4)
    }
}

/// Item `m` of the row of frogs.
fn draw_frog(count: u8, m: usize) -> (item: PlanItem)
    requires
        count <= 15,
        m < 2 * count,
    ensures
        item == frogs_items(count as nat)[m as int],
{
    if m % 2 == 0 {
        set_cursor(15 - (m / 2) as u8, 2)
    } else {
        PlanItem::Data(GLYPH_FROG)
    }
}

/// Item `m` of the spray cells.
fn draw_spray(spray_on: bool, m: usize) -> (item: PlanItem)
    requires
        m < 4,
    ensures
        spray_items(spray_on).len() == 4,
        item == spray_items(spray_on)[m as int],
{
    if m == 0 {
        set_cursor(17, 3)
    } else if m == 1 {
        if spray_on {
            PlanItem::Data(GLYPH_SPRAY_L)
        } else {
            PlanItem::Data(BLANK)
        }
    } else if m == 2 {
        set_cursor(19, 3)
    } else if spray_on {
        PlanItem::Data(GLYPH_SPRAY_R)
    } else {
        PlanItem::Data(BLANK)
    }
}

/// Per-panel configuration.
struct Panel {
    title: &'static str,
    frog_count: u8,
    secondary_error_col: u8,
    secondary_error_row: u8,
}

/// The configuration of a panel.
fn panel_config(panel: PanelId) -> (p: Panel)
    ensures
        p.title.spec_bytes() == panel_title(panel),
        p.frog_count == panel_frogs(panel),
        p.frog_count <= 15,
        (p.secondary_error_col, p.secondary_error_row) == panel_error_cell(panel),
{
    match panel {
        PanelId::Lcd1 => Panel {
            title: LCD1_TITLE,
            frog_count: 2,
            secondary_error_col: 6,
            secondary_error_row: 2,
        },
        PanelId::Lcd2 => Panel {
            title: LCD2_TITLE,
            frog_count: 3,
            secondary_error_col: 0,
            secondary_error_row: 3,
        },
    }
}

/// Item `k` of one full panel: titles, both sensor readings, and the
/// decorative pump/frog/fly/spray glyphs; `None` past the end of the panel.
pub fn render_lcd(panel: PanelId, primary: Reading, secondary: Reading, spray_on: bool, k: usize) -> (item: Option<PlanItem>)
    ensures
        item == item_at(panel_items(panel, primary, secondary, spray_on), k as int),
{
    let p = panel_config(panel);
    let ghost title = p.title.spec_bytes();
    let ghost ec = p.secondary_error_col;
    let ghost er = p.secondary_error_row;
    let ghost s7 = fly_items() + spray_items(spray_on);
    let ghost s6 = frogs_items(p.frog_count as nat) + s7;
    let ghost s5 = pump_items() + s6;
    let ghost s4 = secondary_items(ec, er, secondary) + s5;
    let ghost s3 = primary_items(primary) + s4;
    let ghost s2 = padded_items(0, 1, LCD_SUBTITLE.spec_bytes(), 20) + s3;
    let ghost s1 = padded_items(0, 0, title, 20) + s2;
    assert(s1 == panel_items(panel, primary, secondary, spray_on));
    proof {
        lemma_padded_text(title, 20);
        lemma_padded_text(LCD_SUBTITLE.spec_bytes(), 20);
        lemma_padded_text(ERROR_TEXT.spec_bytes(), 5);
        lemma_padded_text(tenths_text(primary.spec_temp_tenths_f() as int, SUFFIX_FAHRENHEIT), 7);
        lemma_padded_text(tenths_text(primary.spec_humi_tenths() as int, SUFFIX_PERCENT), 7);
        lemma_padded_text(tenths_text(secondary.spec_temp_tenths_f() as int, SUFFIX_FAHRENHEIT), 7);
        lemma_padded_text(tenths_text(secondary.spec_humi_tenths() as int, SUFFIX_PERCENT), 7);
    }
    let mut m = k;
    if m < 21 {
        return Some(write_padded(0, 0, p.title.as_bytes(), 20, m));
    }
    m = m - 21;
    assert(k < s1.len() ==> s1[k as int] == s2[m as int]);
    if m < 21 {
        return Some(write_padded(0, 1, LCD_SUBTITLE.as_bytes(), 20, m));
    }
    let ghost m2 = m;
    m = m - 21;
    assert(m2 < s2.len() ==> s2[m2 as int] == s3[m as int]);
    let primary_len: usize = if primary.is_error() {
        6
    } else {
        16
    };
    assert(primary_len == primary_items(primary).len());
    if m < primary_len {
        return Some(render_primary(primary, m));
    }
    let ghost m3 = m;
    m = m - primary_len;
    assert(m3 < s3.len() ==> s3[m3 as int] == s4[m as int]);
    let secondary_len: usize = if secondary.is_error() {
        6
    } else {
        20
    };
    assert(secondary_len == secondary_items(ec, er, secondary).len());
    if m < secondary_len {
        return Some(render_secondary(p.secondary_error_col, p.secondary_error_row, secondary, m));
    }
    let ghost m4 = m;
    m = m - secondary_len;
    assert(m4 < s4.len() ==> s4[m4 as int] == s5[m as int]);
    if m < 2 {
        let item = if m == 0 {
            set_cursor(18, 3)
        } else {
            PlanItem::Data(GLYPH_PUMP)
        };
        return Some(item);
    }
    let ghost m5 = m;
    m = m - 2;
    assert(m5 < s5.len() ==> s5[m5 as int] == s6[m as int]);
    let frogs_len = 2 * (p.frog_count as usize);
    if m < frogs_len {
        return Some(draw_frog(p.frog_count, m));
    }
    let ghost m6 = m;
    m = m - frogs_len;
    assert(m6 < s6.len() ==> s6[m6 as int] == s7[m as int]);
    if m < 2 {
        let item = if m == 0 {
            set_cursor(17, 2)
        } else {
            PlanItem::Data(GLYPH_FLY)
        };
        return Some(item);
    }
    m = m - 2;
    if m < 4 {
        return Some(draw_spray(spray_on, m));
    }
    None
}

/// Item `k` of the handshake.
fn handshake_item(k: usize) -> (item: PlanItem)
    requires
        k < 13,
    ensures
        item == handshake_items()[k as int],
{
    match k {
        0 => PlanItem::PauseMs(50),
        1 => PlanItem::Nibble(0x30),
        2 => PlanItem::PauseMs(5),
        3 => PlanItem::Nibble(0x30),
        4 => PlanItem::PauseUs(200),
        5 => PlanItem::Nibble(0x30),
        6 => PlanItem::PauseUs(200),
        7 => PlanItem::Nibble(0x20),
        8 => PlanItem::Command(LCD_FUNCTION_SET),
        9 => PlanItem::Command(LCD_DISPLAY_ON),
        10 => PlanItem::Command(LCD_ENTRY_MODE),
        11 => PlanItem::Command(LCD_CLEAR),
        _ => PlanItem::PauseMs(2),
    }
}

/// Item `m` of the upload of a glyph bitmap into its CGRAM slot.
fn create_char(slot: u8, glyph: &[u8; 8], m: usize) -> (item: PlanItem)
    requires
        slot < 8,
        m < 9,
    ensures
        glyph_items(slot, glyph@).len() == 9,
        item == glyph_items(slot, glyph@)[m as int],
{
    if m == 0 {
        PlanItem::Command(LCD_SET_CGRAM | (slot << 3u8))
    } else {
        PlanItem::Data(glyph[m - 1])
    }
}

/// Item `k` of the power-up sequence of one panel; `None` past its end.
pub fn init_lcd(k: usize) -> (item: Option<PlanItem>)
    ensures
        item == item_at(init_items(), k as int),
{
    let ghost g5 = glyph_items(GLYPH_FLY, FLY@);
    let ghost g4 = glyph_items(GLYPH_FROG, FROG@) + g5;
    let ghost g3 = glyph_items(GLYPH_SPRAY_R, PUMP_SPRAY_R@) + g4;
    let ghost g2 = glyph_items(GLYPH_SPRAY_L, PUMP_SPRAY_L@) + g3;
    let ghost g1 = glyph_items(GLYPH_PUMP, PUMP_ICON@) + g2;
    assert(init_items() == handshake_items() + g1);
    assert(PUMP_ICON@.len() == 8 && PUMP_SPRAY_L@.len() == 8 && PUMP_SPRAY_R@.len() == 8
        && FROG@.len() == 8 && FLY@.len() == 8);
    if k < 13 {
        return Some(handshake_item(k));
    }
    let mut m = k - 13;
    if m < 9 {
        return Some(create_char(GLYPH_PUMP, &PUMP_ICON, m));
    }
    m = m - 9;
    if m < 9 {
        return Some(create_char(GLYPH_SPRAY_L, &PUMP_SPRAY_L, m));
    }
    m = m - 9;
    if m < 9 {
        return Some(create_char(GLYPH_SPRAY_R, &PUMP_SPRAY_R, m));
    }
    m = m - 9;
    if m < 9 {
        return Some(create_char(GLYPH_FROG, &FROG, m));
    }
    m = m - 9;
    if m < 9 {
        return Some(create_char(GLYPH_FLY, &FLY, m));
    }
    None
}

/// Item `k` of `text` at (`col`, `row`); `None` past its end.
fn write_str(col: u8, row: u8, text: &str, k: usize) -> (item: Option<PlanItem>)
    ensures
        item == item_at(str_items(col, row, text.spec_bytes()), k as int),
{
    let bytes = text.as_bytes();
    if k == 0 {
        Some(set_cursor(col, row))
    } else if k - 1 < bytes.len() {
        Some(PlanItem::Data(bytes[k - 1]))
    } else {
        None
    }
}

/// Item `k` of a step's plan; `None` past its end.
pub fn step_item(step: &LcdStep, k: usize) -> (item: Option<PlanItem>)
    ensures
        item == item_at(step_items(*step), k as int),
{
    match step.content {
        StepContent::Init => init_lcd(k),
        StepContent::Message { text } => write_str(0, 0, text, k),
        StepContent::Render { panel, primary, secondary, spray_on } => render_lcd(
            panel,
            primary,
            secondary,
            spray_on,
            k,
        ),
    }
}

/// Initialises both panels and shows a placeholder message on each while the
/// first sensor sweep completes. A panel that fails to initialise ends the
/// procedure; a failed placeholder message is ignored.
pub fn init_all() -> (steps: [LcdStep; 4])
    ensures
        steps@ == seq![
            LcdStep { addr: LCD1_ADDR, content: StepContent::Init, required: true },
            LcdStep { addr: LCD1_ADDR, content: StepContent::Message { text: LCD1_WAIT_TEXT }, required: false },
            LcdStep { addr: LCD2_ADDR, content: StepContent::Init, required: true },
            LcdStep { addr: LCD2_ADDR, content: StepContent::Message { text: LCD2_WAIT_TEXT }, required: false },
        ],
{
    let steps = [
        LcdStep { addr: LCD1_ADDR, content: StepContent::Init, required: true },
        LcdStep { addr: LCD1_ADDR, content: StepContent::Message { text: LCD1_WAIT_TEXT }, required: false },
        LcdStep { addr: LCD2_ADDR, content: StepContent::Init, required: true },
        LcdStep { addr: LCD2_ADDR, content: StepContent::Message { text: LCD2_WAIT_TEXT }, required: false },
    ];
    assert(steps@ =~= seq![
        LcdStep { addr: LCD1_ADDR, content: StepContent::Init, required: true },
        LcdStep { addr: LCD1_ADDR, content: StepContent::Message { text: LCD1_WAIT_TEXT }, required: false },
        LcdStep { addr: LCD2_ADDR, content: StepContent::Init, required: true },
        LcdStep { addr: LCD2_ADDR, content: StepContent::Message { text: LCD2_WAIT_TEXT }, required: false },
    ]);
    steps
}

/// What a run does after one port write of a step.
#[derive(Clone, Copy, Debug, PartialEq, Eq, Structural)]
pub enum RunAction {
    /// Go on with the step.
    Continue,
    /// Leave the rest of this step and go on with the next one.
    EndStep,
    /// End the whole procedure with the failed write's error.
    Abort,
}

/// The failure policy of a run: a step goes on while its writes succeed; its
/// first failed write ends it, and ends the whole procedure too if the step
/// is required.
pub open spec fn action_after_write(step: LcdStep, ok: bool) -> RunAction {
    if ok {
        RunAction::Continue
    } else if step.required {
        RunAction::Abort
    } else {
        RunAction::EndStep
    }
}

/// Decides what follows a port write of `step` that succeeded (`ok`) or
/// failed.
pub fn after_write(step: &LcdStep, ok: bool) -> (action: RunAction)
    ensures
        action == action_after_write(*step, ok),
{
    if ok {
        RunAction::Continue
    } else if step.required {
        RunAction::Abort
    } else {
        RunAction::EndStep
    }
}

/// Whether the spray glyphs show: while the pump runs they blink, on during
/// every even second of the clock (non-blocking, keyed off the clock).
pub open spec fn spray_visible(pump_on: bool, now_ms: u32) -> bool {
    pump_on && (now_ms / 1000) % 2 == 0
}

/// Redraws both panels from the latest readings. LCD1 shows sensors 0 and 1,
/// LCD2 shows sensors 2 and 3; a failed write on either ends the procedure.
pub fn update_all(sensors: &SensorBank, pump_on: bool, now_ms: u32) -> (steps: [LcdStep; 2])
    ensures
        steps@ == seq![
            LcdStep {
                addr: LCD1_ADDR,
                content: StepContent::Render {
                    panel: PanelId::Lcd1,
                    primary: sensors@[0],
                    secondary: sensors@[1],
                    spray_on: spray_visible(pump_on, now_ms),
                },
                required: true,
            },
            LcdStep {
                addr: LCD2_ADDR,
                content: StepContent::Render {
                    panel: PanelId::Lcd2,
                    primary: sensors@[2],
                    secondary: sensors@[3],
                    spray_on: spray_visible(pump_on, now_ms),
                },
                required: true,
            },
        ],
{
    proof {
        sensors.lemma_len();
    }
    let readings = sensors.readings();
    // Non-blocking spray animation: while the pump runs, the spray glyphs blink
    // on every other second.
    let spray_on = pump_on && (now_ms / 1_000) % 2 == 0;
    let steps = [
        LcdStep {
            addr: LCD1_ADDR,
            content: StepContent::Render {
                panel: PanelId::Lcd1,
                primary: readings[0],
                secondary: readings[1],
                spray_on,
            },
            required: true,
        },
        LcdStep {
            addr: LCD2_ADDR,
            content: StepContent::Render {
                panel: PanelId::Lcd2,
                primary: readings[2],
                secondary: readings[3],
                spray_on,
            },
            required: true,
        },
    ];
    assert(steps@ =~= seq![steps[0], steps[1]]);
    steps
}

proof fn lemma_backlit_concat(a: Seq<BusOp>, b: Seq<BusOp>)
    requires
        all_backlit(a),
        all_backlit(b),
    ensures
        all_backlit(a + b),
{
    assert forall|i: int| 0 <= i < (a + b).len() implies #[trigger] backlit((a + b)[i]) by {
        if i < a.len() {
            assert((a + b)[i] == a[i]);
        } else {
            assert((a + b)[i] == b[i - a.len()]);
        }
    }
}

proof fn lemma_nibble_backlit(value: u8, mode: u8)
    ensures
        all_backlit(nibble_ops(value, mode)),
{
    let data = value | mode | LCD_BACKLIGHT;
    assert((data | 4u8) & 8u8 == 8u8 && (data & !4u8) & 8u8 == 8u8) by (bit_vector)
        requires
            data == value | mode | 8u8,
    ;
    let ops = nibble_ops(value, mode);
    assert forall|i: int| 0 <= i < ops.len() implies #[trigger] backlit(ops[i]) by {
    }
}

/// Every item of every plan keeps the backlight bit set in each of its port
/// writes, so the display stays lit throughout.
pub proof fn law_plans_keep_backlight(items: Seq<PlanItem>)
    ensures
        all_backlit(plan_ops(items)),
    decreases items.len(),
{
    if items.len() > 0 {
        law_plans_keep_backlight(items.drop_last());
        let ops = item_ops(items.last());
        match items.last() {
            PlanItem::Nibble(v) => lemma_nibble_backlit(v, LCD_COMMAND),
            PlanItem::Command(v) => {
                lemma_nibble_backlit(v & 0xF0, LCD_COMMAND);
                lemma_nibble_backlit((v << 4u8) & 0xF0, LCD_COMMAND);
                lemma_backlit_concat(
                    nibble_ops(v & 0xF0, LCD_COMMAND),
                    nibble_ops((v << 4u8) & 0xF0, LCD_COMMAND),
                );
            },
            PlanItem::Data(v) => {
                lemma_nibble_backlit(v & 0xF0, LCD_DATA);
                lemma_nibble_backlit((v << 4u8) & 0xF0, LCD_DATA);
                lemma_backlit_concat(
                    nibble_ops(v & 0xF0, LCD_DATA),
                    nibble_ops((v << 4u8) & 0xF0, LCD_DATA),
                );
            },
            _ => {
                assert forall|i: int| 0 <= i < ops.len() implies #[trigger] backlit(ops[i]) by {}
            },
        }
        lemma_backlit_concat(plan_ops(items.drop_last()), ops);
    }
}

/// Every item stands for at most eight bus operations, so a plan is performed
/// with a fixed eight-operation buffer.
pub proof fn law_item_at_most_eight_ops(item: PlanItem)
    ensures
        1 <= item_ops(item).len() <= 8,
{
}

/// Each nibble is latched by an enable pulse: the first write presents the
/// data with enable high, the second repeats it with enable low, and both
/// keep the backlight on.
pub proof fn law_nibble_enable_pulse(value: u8, mode: u8)
    ensures
        nibble_ops(value, mode).len() == 4,
        nibble_ops(value, mode)[0] matches BusOp::Write(high) && nibble_ops(value, mode)[2] matches BusOp::Write(
            low,
        ) && high & LCD_ENABLE == LCD_ENABLE && low & LCD_ENABLE == 0 && low == high & !LCD_ENABLE
            && high & LCD_BACKLIGHT == LCD_BACKLIGHT && low & LCD_BACKLIGHT == LCD_BACKLIGHT,
{
    let data = value | mode | LCD_BACKLIGHT;
    assert((data | 4u8) & 4u8 == 4u8 && (data & !4u8) & 4u8 == 0u8 && (data & !4u8) == (data | 4u8)
        & !4u8 && (data | 4u8) & 8u8 == 8u8 && (data & !4u8) & 8u8 == 8u8) by (bit_vector)
        requires
            data == value | mode | 8u8,
    ;
}

/// A byte goes out as two nibbles, high first, each in the upper half of its
/// port write beside the register-select, enable and backlight bits; the two
/// upper halves put back together give the byte.
pub proof fn law_byte_split_into_nibbles(value: u8, mode: u8)
    requires
        mode == LCD_COMMAND || mode == LCD_DATA,
    ensures
        byte_ops(value, mode).len() == 8,
        byte_ops(value, mode)[0] matches BusOp::Write(first) && byte_ops(value, mode)[4] matches BusOp::Write(
            second,
        ) && (first & 0xF0) | ((second & 0xF0) >> 4u8) == value && first & 0x0F == mode
            | LCD_BACKLIGHT | LCD_ENABLE && second & 0x0F == mode | LCD_BACKLIGHT | LCD_ENABLE,
{
    let ops = byte_ops(value, mode);
    assert(ops[0] == nibble_ops(value & 0xF0, mode)[0]);
    assert(ops[4] == nibble_ops((value << 4u8) & 0xF0, mode)[0]);
    assert(((((value & 0xF0) | mode | 8u8) | 4u8) & 0xF0) | ((((((value << 4u8) & 0xF0) | mode
        | 8u8) | 4u8) & 0xF0) >> 4u8) == value) by (bit_vector)
        requires
            mode == 0u8 || mode == 1u8,
    ;
    assert((((value & 0xF0) | mode | 8u8) | 4u8) & 0x0F == mode | 8u8 | 4u8) by (bit_vector)
        requires
            mode == 0u8 || mode == 1u8,
    ;
    assert(((((value << 4u8) & 0xF0) | mode | 8u8) | 4u8) & 0x0F == mode | 8u8 | 4u8) by (bit_vector)
        requires
            mode == 0u8 || mode == 1u8,
    ;
}

/// A padded field is exactly `width` characters after its cursor move: the
/// text, cut at `width`, then spaces.
pub proof fn law_padded_field_exact_width(col: u8, row: u8, text: Seq<u8>, width: u8)
    ensures
        padded_items(col, row, text, width).len() == width + 1,
        padded_items(col, row, text, width)[0] == cursor_item(col, row),
        forall|i: int|
            0 <= i < width ==> #[trigger] padded_items(col, row, text, width)[i + 1]
                == PlanItem::Data(
                if i < text.len() {
                    text[i]
                } else {
                    BLANK
                },
            ),
{
    lemma_padded_text(text, width);
}

/// Distinct visible cells of the 20x4 panel have distinct display-RAM
/// addresses, so no cursor move lands on another cell's position.
pub proof fn law_cursor_cells_distinct(c1: u8, r1: u8, c2: u8, r2: u8)
    requires
        c1 < 20,
        c2 < 20,
        r1 < 4,
        r2 < 4,
        cursor_address(c1, r1) == cursor_address(c2, r2),
    ensures
        c1 == c2,
        r1 == r2,
{
}

/// Rows past the last one land on the last row.
pub proof fn law_cursor_row_clamped(col: u8, row: u8)
    requires
        row > 3,
    ensures
        cursor_item(col, row) == cursor_item(col, 3),
{
}

/// The spray touches only the two cells flanking the pump icon (columns 17
/// and 19 of the last row), one character each: the spray glyphs while it
/// shows, blanks otherwise. The pump's cell (column 18) is never written.
pub proof fn law_spray_only_flanks_the_pump(spray_on: bool)
    ensures
        spray_items(spray_on).len() == 4,
        spray_items(spray_on)[0] == cursor_item(17, 3),
        spray_items(spray_on)[2] == cursor_item(19, 3),
        spray_items(spray_on)[1] is Data,
        spray_items(spray_on)[3] is Data,
        !spray_on ==> spray_items(spray_on)[1] == PlanItem::Data(BLANK) && spray_items(spray_on)[3]
            == PlanItem::Data(BLANK),
        cursor_address(17, 3) + 1 == cursor_address(18, 3),
        cursor_address(18, 3) + 1 == cursor_address(19, 3),
{
}

/// The spray shows only while the pump runs, and then it blinks: shown and
/// hidden in alternate seconds.
pub proof fn law_spray_blinks(pump_on: bool, now_ms: u32)
    ensures
        !pump_on ==> !spray_visible(pump_on, now_ms),
        pump_on && now_ms + 1000 <= u32::MAX ==> spray_visible(pump_on, now_ms) != spray_visible(
            pump_on,
            (now_ms + 1000) as u32,
        ),
{
    assert((now_ms + 1000) / 1000 == now_ms / 1000 + 1);
}

/// A model of what the plans do to the controller, as far as the visible
/// display RAM goes: a state is the address counter, the 128 display-RAM
/// cells, and whether data goes to display RAM (rather than to the
/// custom-character RAM). A DDRAM address command moves the counter; a CGRAM
/// address command diverts data away from the display; a clear blanks every
/// cell and homes the counter; a data byte is stored at the counter, which
/// then advances.
pub open spec fn lcd_step(st: (int, Seq<u8>, bool), item: PlanItem) -> (int, Seq<u8>, bool) {
    match item {
        PlanItem::Command(v) => if v >= 128 {
            ((v - 128) as int, st.1, true)
        } else if v >= 64 {
            (st.0, st.1, false)
        } else if v == LCD_CLEAR {
            (0, Seq::new(128, |i: int| BLANK), true)
        } else {
            st
        },
        PlanItem::Data(b) => if st.2 {
            ((st.0 + 1) % 128, st.1.update(st.0, b), true)
        } else {
            st
        },
        _ => st,
    }
}

/// The model state after every item of `items`, in order.
pub open spec fn lcd_run(st: (int, Seq<u8>, bool), items: Seq<PlanItem>) -> (int, Seq<u8>, bool)
    decreases items.len(),
{
    if items.len() == 0 {
        st
    } else {
        lcd_step(lcd_run(st, items.drop_last()), items.last())
    }
}

/// The display-RAM index of a visible cell.
pub open spec fn cell_index(col: u8, row: u8) -> int {
    cursor_address(col, row) as int
}

proof fn lemma_run_concat(st: (int, Seq<u8>, bool), a: Seq<PlanItem>, b: Seq<PlanItem>)
    ensures
        lcd_run(st, a + b) == lcd_run(lcd_run(st, a), b),
    decreases b.len(),
{
    if b.len() == 0 {
        assert(a + b =~= a);
    } else {
        assert((a + b).drop_last() =~= a + b.drop_last());
        assert((a + b).last() == b.last());
        lemma_run_concat(st, a, b.drop_last());
    }
}

/// A cursor move then `data`: the cells from the cursor on take `data`, the
/// others keep theirs.
proof fn lemma_field(st: (int, Seq<u8>, bool), col: u8, row: u8, data: Seq<u8>)
    requires
        st.1.len() == 128,
        cell_index(col, row) < 128,
        cell_index(col, row) + data.len() <= 128,
    ensures
        ({
            let end = lcd_run(st, seq![cursor_item(col, row)] + text_items(data));
            &&& end.1.len() == 128
            &&& end.0 == (cell_index(col, row) + data.len()) % 128
            &&& end.2
            &&& forall|i: int|
                0 <= i < 128 ==> #[trigger] end.1[i] == (if cell_index(col, row) <= i < cell_index(
                    col,
                    row,
                ) + data.len() {
                    data[i - cell_index(col, row)]
                } else {
                    st.1[i]
                })
        }),
    decreases data.len(),
{
    let a = cursor_address(col, row);
    assert((0x80u8 | a) as int == 128 + a as int) by (bit_vector)
        requires
            a < 128u8,
    ;
    let field = seq![cursor_item(col, row)] + text_items(data);
    if data.len() == 0 {
        assert(field =~= seq![cursor_item(col, row)]);
        assert(field.drop_last() =~= Seq::<PlanItem>::empty());
        assert(lcd_run(st, field.drop_last()) == st);
        assert(lcd_run(st, field) == lcd_step(st, cursor_item(col, row)));
    } else {
        let prev = data.drop_last();
        lemma_field(st, col, row, prev);
        assert(field.drop_last() =~= seq![cursor_item(col, row)] + text_items(prev));
        assert(field.last() == PlanItem::Data(data.last()));
        let mid = lcd_run(st, seq![cursor_item(col, row)] + text_items(prev));
        assert(mid.0 == cell_index(col, row) + prev.len());
        assert(lcd_run(st, field) == lcd_step(mid, PlanItem::Data(data.last())));
        let end = lcd_run(st, field);
        assert forall|i: int| 0 <= i < 128 implies #[trigger] end.1[i] == (if cell_index(col, row)
            <= i < cell_index(col, row) + data.len() {
            data[i - cell_index(col, row)]
        } else {
            st.1[i]
        }) by {
            if i < cell_index(col, row) + prev.len() && cell_index(col, row) <= i {
                assert(prev[i - cell_index(col, row)] == data[i - cell_index(col, row)]);
            }
        }
    }
}

/// The cells a later part of a drawing must leave alone for the title rows,
/// the pump icon and its spray to show as drawn.
pub open spec fn keeps_cells(a: Seq<u8>, b: Seq<u8>, lo: int, hi: int) -> bool {
    forall|i: int| lo <= i < hi ==> #[trigger] b[i] == a[i]
}

/// `b` agrees with `a` on the title rows (row 0 and row 1) and on the last
/// row's pump and spray cells (columns 17 to 19).
pub open spec fn keeps_marked(a: Seq<u8>, b: Seq<u8>) -> bool {
    &&& b.len() == 128
    &&& keeps_cells(a, b, 0, 20)
    &&& keeps_cells(a, b, 64, 84)
    &&& keeps_cells(a, b, 101, 104)
}

proof fn lemma_field_elsewhere(st: (int, Seq<u8>, bool), col: u8, row: u8, data: Seq<u8>)
    requires
        st.1.len() == 128,
        cell_index(col, row) < 128,
        cell_index(col, row) + data.len() <= 128,
        20 <= cell_index(col, row),
        cell_index(col, row) + data.len() <= 64 || (84 <= cell_index(col, row)
            && cell_index(col, row) + data.len() <= 101),
    ensures
        keeps_marked(st.1, lcd_run(st, seq![cursor_item(col, row)] + text_items(data)).1),
{
    lemma_field(st, col, row, data);
}

proof fn lemma_pair_elsewhere(st: (int, Seq<u8>, bool), col: u8, reading: Reading)
    requires
        st.1.len() == 128,
        col <= 7,
    ensures
        keeps_marked(st.1, lcd_run(st, reading_pair_items(col, reading)).1),
{
    let t1 = padded_text(tenths_text(reading.spec_temp_tenths_f() as int, SUFFIX_FAHRENHEIT), 7);
    let t2 = padded_text(tenths_text(reading.spec_humi_tenths() as int, SUFFIX_PERCENT), 7);
    lemma_padded_text(tenths_text(reading.spec_temp_tenths_f() as int, SUFFIX_FAHRENHEIT), 7);
    lemma_padded_text(tenths_text(reading.spec_humi_tenths() as int, SUFFIX_PERCENT), 7);
    let f1 = seq![cursor_item(col, 2)] + text_items(t1);
    let f2 = seq![cursor_item(col, 3)] + text_items(t2);
    lemma_run_concat(st, f1, f2);
    lemma_field_elsewhere(st, col, 2, t1);
    lemma_field_elsewhere(lcd_run(st, f1), col, 3, t2);
}

proof fn lemma_primary_elsewhere(st: (int, Seq<u8>, bool), reading: Reading)
    requires
        st.1.len() == 128,
    ensures
        keeps_marked(st.1, lcd_run(st, primary_items(reading)).1),
{
    if reading is Error {
        lemma_padded_text(ERROR_TEXT.spec_bytes(), 5);
        lemma_field_elsewhere(st, 0, 2, padded_text(ERROR_TEXT.spec_bytes(), 5));
    } else {
        lemma_pair_elsewhere(st, 0, reading);
    }
}

proof fn lemma_secondary_elsewhere(st: (int, Seq<u8>, bool), panel: PanelId, reading: Reading)
    requires
        st.1.len() == 128,
    ensures
        keeps_marked(
            st.1,
            lcd_run(
                st,
                secondary_items(panel_error_cell(panel).0, panel_error_cell(panel).1, reading),
            ).1,
        ),
{
    let (ec, er) = panel_error_cell(panel);
    if reading is Error {
        lemma_padded_text(ERROR_TEXT.spec_bytes(), 5);
        lemma_field_elsewhere(st, ec, er, padded_text(ERROR_TEXT.spec_bytes(), 5));
    } else {
        let f1 = seq![cursor_item(6, 2)] + text_items(seq![DIVIDER]);
        let f2 = seq![cursor_item(6, 3)] + text_items(seq![DIVIDER]);
        let pair = reading_pair_items(7, reading);
        assert(secondary_items(ec, er, reading) =~= f1 + (f2 + pair));
        lemma_run_concat(st, f1, f2 + pair);
        let s1 = lcd_run(st, f1);
        lemma_field_elsewhere(st, 6, 2, seq![DIVIDER]);
        lemma_run_concat(s1, f2, pair);
        lemma_field_elsewhere(s1, 6, 3, seq![DIVIDER]);
        lemma_pair_elsewhere(lcd_run(s1, f2), 7, reading);
    }
}

proof fn lemma_frogs_elsewhere(st: (int, Seq<u8>, bool), count: nat)
    requires
        st.1.len() == 128,
        count <= 15,
    ensures
        keeps_marked(st.1, lcd_run(st, frogs_items(count)).1),
    decreases count,
{
    if count == 0 {
        assert(frogs_items(0) =~= Seq::<PlanItem>::empty());
    } else {
        let last = seq![cursor_item((15 - (count - 1)) as u8, 2)] + text_items(seq![GLYPH_FROG]);
        assert(frogs_items(count) =~= frogs_items((count - 1) as nat) + last);
        lemma_run_concat(st, frogs_items((count - 1) as nat), last);
        lemma_frogs_elsewhere(st, (count - 1) as nat);
        lemma_field_elsewhere(
            lcd_run(st, frogs_items((count - 1) as nat)),
            (15 - (count - 1)) as u8,
            2,
            seq![GLYPH_FROG],
        );
    }
}

/// What a panel shows once its drawing is done, whatever was on it before
/// (display-RAM rows start at 0x00, 0x40, 0x14 and 0x54): its title on row 0
/// (cells 0-19) and the subtitle on row 1 (cells 64-83), each padded to the
/// full width; the pump icon at column 18 of the last row (cell 102), flanked
/// at columns 17 and 19 (cells 101 and 103) by the spray glyphs while the
/// spray shows and by blanks otherwise; the fly at column 17 of row 2 (cell
/// 37) and the panel's frogs at columns 15, 14, ... of row 2 (cells 35, 34,
/// ...), each in the glyph slot uploaded for it.
pub proof fn law_panel_drawing_on_screen(
    panel: PanelId,
    primary: Reading,
    secondary: Reading,
    spray_on: bool,
    st: (int, Seq<u8>, bool),
)
    requires
        st.1.len() == 128,
    ensures
        ({
            let screen = lcd_run(st, panel_items(panel, primary, secondary, spray_on)).1;
            &&& screen.len() == 128
            &&& screen.subrange(0, 20) == padded_text(panel_title(panel), 20)
            &&& screen.subrange(64, 84) == padded_text(LCD_SUBTITLE.spec_bytes(), 20)
            &&& screen[102] == GLYPH_PUMP
            &&& screen[37] == GLYPH_FLY
            &&& forall|i: int| 36 - panel_frogs(panel) <= i < 36 ==> #[trigger] screen[i] == GLYPH_FROG
            &&& screen[101] == (if spray_on {
                GLYPH_SPRAY_L
            } else {
                BLANK
            })
            &&& screen[103] == (if spray_on {
                GLYPH_SPRAY_R
            } else {
                BLANK
            })
        }),
{
    let title = padded_text(panel_title(panel), 20);
    let sub = padded_text(LCD_SUBTITLE.spec_bytes(), 20);
    lemma_padded_text(panel_title(panel), 20);
    lemma_padded_text(LCD_SUBTITLE.spec_bytes(), 20);
    let ft = seq![cursor_item(0, 0)] + text_items(title);
    let fs = seq![cursor_item(0, 1)] + text_items(sub);
    let fp = primary_items(primary);
    let fsec = secondary_items(panel_error_cell(panel).0, panel_error_cell(panel).1, secondary);
    let fpump = seq![cursor_item(18, 3)] + text_items(seq![GLYPH_PUMP]);
    let ffrogs = frogs_items(panel_frogs(panel) as nat);
    let ffly = seq![cursor_item(17, 2)] + text_items(seq![GLYPH_FLY]);
    let left = if spray_on {
        GLYPH_SPRAY_L
    } else {
        BLANK
    };
    let right = if spray_on {
        GLYPH_SPRAY_R
    } else {
        BLANK
    };
    let fl = seq![cursor_item(17, 3)] + text_items(seq![left]);
    let fr = seq![cursor_item(19, 3)] + text_items(seq![right]);
    assert(pump_items() =~= fpump);
    assert(fly_items() =~= ffly);
    assert(spray_items(spray_on) =~= fl + fr);
    let r7 = ffly + (fl + fr);
    let r6 = ffrogs + r7;
    let r5 = fpump + r6;
    let r4 = fsec + r5;
    let r3 = fp + r4;
    let r2 = fs + r3;
    assert(panel_items(panel, primary, secondary, spray_on) == ft + r2);

    lemma_run_concat(st, ft, r2);
    lemma_field(st, 0, 0, title);
    let s1 = lcd_run(st, ft);
    assert(s1.1.subrange(0, 20) =~= title);

    lemma_run_concat(s1, fs, r3);
    lemma_field(s1, 0, 1, sub);
    let s2 = lcd_run(s1, fs);
    assert(s2.1.subrange(64, 84) =~= sub);
    assert(keeps_cells(s1.1, s2.1, 0, 20));

    lemma_run_concat(s2, fp, r4);
    lemma_primary_elsewhere(s2, primary);
    let s3 = lcd_run(s2, fp);

    lemma_run_concat(s3, fsec, r5);
    lemma_secondary_elsewhere(s3, panel, secondary);
    let s4 = lcd_run(s3, fsec);

    lemma_run_concat(s4, fpump, r6);
    lemma_field(s4, 18, 3, seq![GLYPH_PUMP]);
    let s5 = lcd_run(s4, fpump);

    lemma_run_concat(s5, ffrogs, r7);
    lemma_frogs_elsewhere(s5, panel_frogs(panel) as nat);
    lemma_frogs_effect(s5, panel_frogs(panel) as nat);
    let s6 = lcd_run(s5, ffrogs);

    lemma_run_concat(s6, ffly, fl + fr);
    lemma_field_elsewhere(s6, 17, 2, seq![GLYPH_FLY]);
    lemma_field(s6, 17, 2, seq![GLYPH_FLY]);
    let s7 = lcd_run(s6, ffly);

    lemma_run_concat(s7, fl, fr);
    lemma_field(s7, 17, 3, seq![left]);
    let s8 = lcd_run(s7, fl);
    lemma_field(s8, 19, 3, seq![right]);
    let s9 = lcd_run(s8, fr);

    assert(s9.1.subrange(0, 20) =~= title);
    assert(s9.1.subrange(64, 84) =~= sub);
}

proof fn lemma_pair_effect(st: (int, Seq<u8>, bool), col: u8, reading: Reading)
    requires
        st.1.len() == 128,
        col <= 7,
    ensures
        ({
            let t = padded_text(tenths_text(reading.spec_temp_tenths_f() as int, SUFFIX_FAHRENHEIT), 7);
            let h = padded_text(tenths_text(reading.spec_humi_tenths() as int, SUFFIX_PERCENT), 7);
            let e = lcd_run(st, reading_pair_items(col, reading)).1;
            &&& e.len() == 128
            &&& forall|i: int|
                0 <= i < 128 ==> #[trigger] e[i] == (if 20 + col <= i < 27 + col {
                    t[i - 20 - col]
                } else if 84 + col <= i < 91 + col {
                    h[i - 84 - col]
                } else {
                    st.1[i]
                })
        }),
{
    let t1 = padded_text(tenths_text(reading.spec_temp_tenths_f() as int, SUFFIX_FAHRENHEIT), 7);
    let t2 = padded_text(tenths_text(reading.spec_humi_tenths() as int, SUFFIX_PERCENT), 7);
    lemma_padded_text(tenths_text(reading.spec_temp_tenths_f() as int, SUFFIX_FAHRENHEIT), 7);
    lemma_padded_text(tenths_text(reading.spec_humi_tenths() as int, SUFFIX_PERCENT), 7);
    let f1 = seq![cursor_item(col, 2)] + text_items(t1);
    let f2 = seq![cursor_item(col, 3)] + text_items(t2);
    lemma_run_concat(st, f1, f2);
    lemma_field(st, col, 2, t1);
    lemma_field(lcd_run(st, f1), col, 3, t2);
}

proof fn lemma_frogs_effect(st: (int, Seq<u8>, bool), count: nat)
    requires
        st.1.len() == 128,
        count <= 15,
    ensures
        lcd_run(st, frogs_items(count)).1.len() == 128,
        forall|i: int|
            0 <= i < 128 && !(36 - count <= i < 36) ==> #[trigger] lcd_run(st, frogs_items(count)).1[i]
                == st.1[i],
        forall|i: int|
            36 - count <= i < 36 ==> #[trigger] lcd_run(st, frogs_items(count)).1[i] == GLYPH_FROG,
    decreases count,
{
    if count == 0 {
        assert(frogs_items(0) =~= Seq::<PlanItem>::empty());
    } else {
        let last = seq![cursor_item((15 - (count - 1)) as u8, 2)] + text_items(seq![GLYPH_FROG]);
        assert(frogs_items(count) =~= frogs_items((count - 1) as nat) + last);
        lemma_run_concat(st, frogs_items((count - 1) as nat), last);
        lemma_frogs_effect(st, (count - 1) as nat);
        lemma_field(
            lcd_run(st, frogs_items((count - 1) as nat)),
            (15 - (count - 1)) as u8,
            2,
            seq![GLYPH_FROG],
        );
    }
}

/// With both probes answering, a panel shows both readings once its drawing
/// is done: on row 2 the primary temperature (first six cells), the `|`
/// divider and the secondary temperature (next six cells); on row 3 the
/// primary humidity (first six cells), the divider and the secondary
/// humidity (its full seven-cell field). Each is its padded field text. Row 2
/// is display RAM from 0x14 (cell 20), row 3 from 0x54 (cell 84).
#[verifier::rlimit(60)]
pub proof fn law_panel_shows_both_readings(
    panel: PanelId,
    primary: Reading,
    secondary: Reading,
    spray_on: bool,
    st: (int, Seq<u8>, bool),
)
    requires
        st.1.len() == 128,
        !(primary is Error),
        !(secondary is Error),
    ensures
        ({
            let screen = lcd_run(st, panel_items(panel, primary, secondary, spray_on)).1;
            let t1 = padded_text(tenths_text(primary.spec_temp_tenths_f() as int, SUFFIX_FAHRENHEIT), 7);
            let h1 = padded_text(tenths_text(primary.spec_humi_tenths() as int, SUFFIX_PERCENT), 7);
            let t2 = padded_text(tenths_text(secondary.spec_temp_tenths_f() as int, SUFFIX_FAHRENHEIT), 7);
            let h2 = padded_text(tenths_text(secondary.spec_humi_tenths() as int, SUFFIX_PERCENT), 7);
            &&& screen.subrange(20, 26) == t1.take(6)
            &&& screen[26] == DIVIDER
            &&& screen.subrange(27, 33) == t2.take(6)
            &&& screen.subrange(84, 90) == h1.take(6)
            &&& screen[90] == DIVIDER
            &&& screen.subrange(91, 98) == h2
        }),
{
    let title = padded_text(panel_title(panel), 20);
    let sub = padded_text(LCD_SUBTITLE.spec_bytes(), 20);
    lemma_padded_text(panel_title(panel), 20);
    lemma_padded_text(LCD_SUBTITLE.spec_bytes(), 20);
    let t1 = padded_text(tenths_text(primary.spec_temp_tenths_f() as int, SUFFIX_FAHRENHEIT), 7);
    let h1 = padded_text(tenths_text(primary.spec_humi_tenths() as int, SUFFIX_PERCENT), 7);
    let t2 = padded_text(tenths_text(secondary.spec_temp_tenths_f() as int, SUFFIX_FAHRENHEIT), 7);
    let h2 = padded_text(tenths_text(secondary.spec_humi_tenths() as int, SUFFIX_PERCENT), 7);
    let ft = seq![cursor_item(0, 0)] + text_items(title);
    let fs = seq![cursor_item(0, 1)] + text_items(sub);
    let fp = reading_pair_items(0, primary);
    let fd1 = seq![cursor_item(6, 2)] + text_items(seq![DIVIDER]);
    let fd2 = seq![cursor_item(6, 3)] + text_items(seq![DIVIDER]);
    let fq = reading_pair_items(7, secondary);
    let fpump = seq![cursor_item(18, 3)] + text_items(seq![GLYPH_PUMP]);
    let ffrogs = frogs_items(panel_frogs(panel) as nat);
    let ffly = seq![cursor_item(17, 2)] + text_items(seq![GLYPH_FLY]);
    let fspray = spray_items(spray_on);
    assert(pump_items() =~= fpump);
    assert(fly_items() =~= ffly);
    assert(secondary_items(panel_error_cell(panel).0, panel_error_cell(panel).1, secondary)
        =~= fd1 + (fd2 + fq));
    let r8 = ffly + fspray;
    let r7 = ffrogs + r8;
    let r6 = fpump + r7;
    let r5 = fq + r6;
    let r4 = fd2 + r5;
    let r3 = fd1 + r4;
    let r2 = fp + r3;
    let r1 = fs + r2;
    assert(panel_items(panel, primary, secondary, spray_on) == ft + r1);

    lemma_run_concat(st, ft, r1);
    lemma_field(st, 0, 0, title);
    let s1 = lcd_run(st, ft);
    lemma_run_concat(s1, fs, r2);
    lemma_field(s1, 0, 1, sub);
    let s2 = lcd_run(s1, fs);
    lemma_run_concat(s2, fp, r3);
    lemma_pair_effect(s2, 0, primary);
    let s3 = lcd_run(s2, fp);
    lemma_run_concat(s3, fd1, r4);
    lemma_field(s3, 6, 2, seq![DIVIDER]);
    let s4 = lcd_run(s3, fd1);
    lemma_run_concat(s4, fd2, r5);
    lemma_field(s4, 6, 3, seq![DIVIDER]);
    let s5 = lcd_run(s4, fd2);
    lemma_run_concat(s5, fq, r6);
    lemma_pair_effect(s5, 7, secondary);
    let s6 = lcd_run(s5, fq);
    lemma_run_concat(s6, fpump, r7);
    lemma_field(s6, 18, 3, seq![GLYPH_PUMP]);
    let s7 = lcd_run(s6, fpump);
    lemma_run_concat(s7, ffrogs, r8);
    lemma_frogs_effect(s7, panel_frogs(panel) as nat);
    let s8 = lcd_run(s7, ffrogs);
    lemma_run_concat(s8, ffly, fspray);
    lemma_field(s8, 17, 2, seq![GLYPH_FLY]);
    let s9 = lcd_run(s8, ffly);
    let left = if spray_on {
        GLYPH_SPRAY_L
    } else {
        BLANK
    };
    let right = if spray_on {
        GLYPH_SPRAY_R
    } else {
        BLANK
    };
    let fl = seq![cursor_item(17, 3)] + text_items(seq![left]);
    let fr = seq![cursor_item(19, 3)] + text_items(seq![right]);
    assert(fspray =~= fl + fr);
    lemma_run_concat(s9, fl, fr);
    lemma_field(s9, 17, 3, seq![left]);
    let s10 = lcd_run(s9, fl);
    lemma_field(s10, 19, 3, seq![right]);
    let screen = lcd_run(s10, fr).1;

    assert forall|i: int| 20 <= i < 26 implies screen[i] == t1[i - 20] by {
        assert(s3.1[i] == t1[i - 20]);
    }
    assert forall|i: int| 27 <= i < 33 implies screen[i] == t2[i - 27] by {
        assert(s6.1[i] == t2[i - 27]);
    }
    assert forall|i: int| 84 <= i < 90 implies screen[i] == h1[i - 84] by {
        assert(s3.1[i] == h1[i - 84]);
    }
    assert forall|i: int| 91 <= i < 98 implies screen[i] == h2[i - 91] by {
        assert(s6.1[i] == h2[i - 91]);
    }
    assert(screen.subrange(20, 26) =~= t1.take(6));
    assert(screen.subrange(27, 33) =~= t2.take(6));
    assert(screen.subrange(84, 90) =~= h1.take(6));
    assert(screen.subrange(91, 98) =~= h2);
}

/// The power-up plan of a panel: the HD44780 4-bit handshake (function-set
/// nibble 0x3 three times, then 0x2, with the datasheet's pauses), function
/// set 0x28, display on 0x0C, entry mode 0x06, clear 0x01 and a pause; then
/// each of the five bitmaps uploaded into its own CGRAM slot (address
/// command `0x40 | slot << 3` followed by its eight rows): the pump icon, the
/// left and right spray, the frog and the fly, in the slots the drawings use
/// for them.
pub proof fn law_init_uploads_each_glyph_to_its_slot()
    ensures
        init_items().len() == 58,
        init_items().take(13) == seq![
            PlanItem::PauseMs(50),
            PlanItem::Nibble(0x30),
            PlanItem::PauseMs(5),
            PlanItem::Nibble(0x30),
            PlanItem::PauseUs(200),
            PlanItem::Nibble(0x30),
            PlanItem::PauseUs(200),
            PlanItem::Nibble(0x20),
            PlanItem::Command(0x28),
            PlanItem::Command(0x0C),
            PlanItem::Command(0x06),
            PlanItem::Command(0x01),
            PlanItem::PauseMs(2),
        ],
        init_items()[13] == PlanItem::Command(0x40 | (GLYPH_PUMP << 3u8)),
        init_items()[22] == PlanItem::Command(0x40 | (GLYPH_SPRAY_L << 3u8)),
        init_items()[31] == PlanItem::Command(0x40 | (GLYPH_SPRAY_R << 3u8)),
        init_items()[40] == PlanItem::Command(0x40 | (GLYPH_FROG << 3u8)),
        init_items()[49] == PlanItem::Command(0x40 | (GLYPH_FLY << 3u8)),
        forall|j: int|
            0 <= j < 8 ==> {
                &&& #[trigger] init_items()[14 + j] == PlanItem::Data(PUMP_ICON@[j])
                &&& init_items()[23 + j] == PlanItem::Data(PUMP_SPRAY_L@[j])
                &&& init_items()[32 + j] == PlanItem::Data(PUMP_SPRAY_R@[j])
                &&& init_items()[41 + j] == PlanItem::Data(FROG@[j])
                &&& init_items()[50 + j] == PlanItem::Data(FLY@[j])
            },
        GLYPH_PUMP == 0 && GLYPH_SPRAY_L == 1 && GLYPH_SPRAY_R == 2 && GLYPH_FROG == 3 && GLYPH_FLY
            == 4,
{
    let g5 = glyph_items(GLYPH_FLY, FLY@);
    let g4 = glyph_items(GLYPH_FROG, FROG@) + g5;
    let g3 = glyph_items(GLYPH_SPRAY_R, PUMP_SPRAY_R@) + g4;
    let g2 = glyph_items(GLYPH_SPRAY_L, PUMP_SPRAY_L@) + g3;
    let g1 = glyph_items(GLYPH_PUMP, PUMP_ICON@) + g2;
    let all = init_items();
    assert(all == handshake_items() + g1);
    assert(all.take(13) =~= handshake_items());
    assert forall|j: int| 0 <= j < 8 implies {
        &&& #[trigger] all[14 + j] == PlanItem::Data(PUMP_ICON@[j])
        &&& all[23 + j] == PlanItem::Data(PUMP_SPRAY_L@[j])
        &&& all[32 + j] == PlanItem::Data(PUMP_SPRAY_R@[j])
        &&& all[41 + j] == PlanItem::Data(FROG@[j])
        &&& all[50 + j] == PlanItem::Data(FLY@[j])
    } by {
        assert(all[14 + j] == g1[1 + j]);
        assert(all[23 + j] == g2[1 + j]);
        assert(all[32 + j] == g3[1 + j]);
        assert(all[41 + j] == g4[1 + j]);
        assert(all[50 + j] == g5[1 + j]);
    }
}

/// A step is performed in full while its writes succeed; its first failed
/// write ends it, and ends the whole procedure only when the step is
/// required.
pub proof fn law_failed_write_policy(step: LcdStep)
    ensures
        action_after_write(step, true) == RunAction::Continue,
        step.required ==> action_after_write(step, false) == RunAction::Abort,
        !step.required ==> action_after_write(step, false) == RunAction::EndStep,
{
}

/// The spray blinks while the pump runs: shown during every even second of
/// the clock and hidden during every odd one; never shown while the pump is
/// idle.
pub proof fn law_spray_even_seconds(pump_on: bool, now_ms: u32)
    ensures
        spray_visible(pump_on, now_ms) <==> pump_on && (now_ms / 1000) % 2 == 0,
{
}

} // verus!

use vivarium::config::{LCD1_ADDR, LCD2_ADDR};
use vivarium::display::{
    after_write, expand, init_all, step_item, update_all, BusOp, LcdStep, PlanItem, RunAction,
};
use vivarium::sensor::{Reading, SensorBank};

/// A model HD44780 behind a PCF8574: latches nibbles on the falling edge of
/// enable and keeps the 20x4 visible cells.
struct Screen {
    cells: [[u8; 20]; 4],
    addr: u8,
    cgram: bool,
    pending: Option<u8>,
    last: u8,
    commands: Vec<u8>,
    always_lit: bool,
    writes: usize,
}

impl Screen {
    fn new() -> Self {
        Screen {
            cells: [[b'?'; 20]; 4],
            addr: 0,
            cgram: false,
            pending: None,
            last: 0,
            commands: Vec::new(),
            always_lit: true,
            writes: 0,
        }
    }

    fn run(&mut self, ops: &[BusOp]) {
        for op in ops {
            if let BusOp::Write(b) = *op {
                self.port(b);
            }
        }
    }

    fn port(&mut self, b: u8) {
        self.writes += 1;
        if b & 0x08 == 0 {
            self.always_lit = false;
        }
        let falling = self.last & 0x04 != 0 && b & 0x04 == 0;
        self.last = b;
        if !falling {
            return;
        }
        let nibble = b & 0xF0;
        match self.pending.take() {
            None => self.pending = Some(nibble),
            Some(high) => self.byte(high | (nibble >> 4), b & 0x01 == 1),
        }
    }

    fn byte(&mut self, value: u8, data: bool) {
        if !data {
            self.commands.push(value);
            if value & 0x80 != 0 {
                self.addr = value & 0x7F;
                self.cgram = false;
            } else if value & 0x40 != 0 {
                self.cgram = true;
            }
            return;
        }
        if !self.cgram {
            for (row, base) in [0x00u8, 0x40, 0x14, 0x54].iter().enumerate() {
                if self.addr >= *base && self.addr < base + 20 {
                    self.cells[row][(self.addr - base) as usize] = value;
                }
            }
            self.addr = self.addr.wrapping_add(1);
        }
    }

    fn row(&self, r: usize) -> &[u8] {
        &self.cells[r]
    }
}

fn bank(readings: [Reading; 4]) -> SensorBank {
    let mut b = SensorBank::default();
    for (i, r) in readings.iter().enumerate() {
        b.store(i, *r);
    }
    b
}

fn valid(temp: i16, humi: i16) -> Reading {
    Reading::Valid { temp_tenths_f: temp, humi_tenths: humi }
}

/// Every item of a step's plan, in order.
fn items_of(step: &LcdStep) -> Vec<PlanItem> {
    let mut items = Vec::new();
    let mut k = 0;
    while let Some(item) = step_item(step, k) {
        items.push(item);
        k += 1;
    }
    items
}

/// The bus operations of a step's plan, in order.
fn ops_of(step: &LcdStep) -> Vec<BusOp> {
    let mut ops = Vec::new();
    for item in items_of(step) {
        let burst = expand(item);
        assert!(burst.len <= 8);
        ops.extend_from_slice(&burst.ops[..burst.len]);
    }
    ops
}

fn screen_of(step: &LcdStep) -> Screen {
    let mut s = Screen::new();
    s.run(&ops_of(step));
    s
}

#[test]
fn init_plans_both_panels() {
    // The handshake pulses carry 0x3 (then 0x2) on the data lines D4-D7.
    let steps = init_all();
    assert_eq!(steps.len(), 4);
    assert_eq!((steps[0].addr, steps[0].required), (LCD1_ADDR, true));
    assert_eq!((steps[1].addr, steps[1].required), (LCD1_ADDR, false));
    assert_eq!((steps[2].addr, steps[2].required), (LCD2_ADDR, true));
    assert_eq!((steps[3].addr, steps[3].required), (LCD2_ADDR, false));
    // 4 nibble pulses with their pauses, 4 commands, 5 glyph uploads.
    let ops = ops_of(&steps[0]);
    assert_eq!(items_of(&steps[0]).len(), 13 + 5 * 9);
    assert_eq!(ops.len(), 20 + 32 + 1 + 5 * (8 + 64));
    assert_eq!(ops[0], BusOp::DelayMs(50));
    assert_eq!(
        &ops[1..6],
        &[BusOp::Write(0x3C), BusOp::DelayUs(1), BusOp::Write(0x38), BusOp::DelayUs(50), BusOp::DelayMs(5)]
    );
    assert_eq!(ops_of(&steps[2]), ops);
}

#[test]
fn init_commands_in_order() {
    let steps = init_all();
    let mut s = Screen::new();
    s.run(&ops_of(&steps[0])[20..]);
    assert_eq!(&s.commands[..4], &[0x28, 0x0C, 0x06, 0x01]);
    assert_eq!(&s.commands[4..], &[0x40, 0x48, 0x50, 0x58, 0x60]);
}

#[test]
fn init_placeholder_messages() {
    let steps = init_all();
    let s = screen_of(&steps[1]);
    assert_eq!(&s.row(0)[..11], b"Please Wait");
    assert_eq!(s.row(0)[11], b'?');
    let s = screen_of(&steps[3]);
    assert_eq!(&s.row(0)[..10], b"Loading...");
}

#[test]
fn every_write_keeps_the_backlight_on() {
    let sensors = bank([valid(752, 655), Reading::Error, valid(-5, 1000), Reading::Error]);
    let mut steps = init_all().to_vec();
    steps.extend(update_all(&sensors, true, 0));
    steps.extend(update_all(&sensors, false, 1_000));
    for step in &steps {
        assert!(screen_of(step).always_lit);
    }
}

#[test]
fn update_draws_lcd1_with_sensors_zero_and_one() {
    let sensors = bank([valid(752, 655), valid(801, 700), valid(1, 2), valid(3, 4)]);
    let steps = update_all(&sensors, true, 4_000);
    assert_eq!(steps.len(), 2);
    assert_eq!((steps[0].addr, steps[0].required), (LCD1_ADDR, true));
    let s = screen_of(&steps[0]);
    assert_eq!(s.row(0), b"Kin'iro & Gin'iro   ");
    assert_eq!(s.row(1), b"Temp and Humidity:  ");
    assert_eq!(&s.row(2)[..14], b"75.2F |80.1F  ");
    assert_eq!(&s.row(3)[..14], b"65.5% |70.0%  ");
    // Two frogs marching left from column 15, the fly, the pump and its spray.
    assert_eq!((s.row(2)[14], s.row(2)[15], s.row(2)[13]), (3, 3, b' '));
    assert_eq!(s.row(2)[17], 4);
    assert_eq!(&s.row(3)[17..20], &[1, 0, 2]);
    // Titles 2x21 items, readings 16 + 20, pump 2, frogs 4, fly 2, spray 4;
    // eight bus operations each.
    assert_eq!(items_of(&steps[0]).len(), 90);
    assert_eq!(ops_of(&steps[0]).len(), 720);
}

#[test]
fn update_draws_lcd2_with_sensors_two_and_three() {
    let sensors = bank([valid(1, 2), valid(3, 4), valid(-490, 0), valid(2660, 1000)]);
    let steps = update_all(&sensors, false, 0);
    assert_eq!((steps[1].addr, steps[1].required), (LCD2_ADDR, true));
    let s = screen_of(&steps[1]);
    assert_eq!(s.row(0), b"Marble,Granite,Onyx ");
    assert_eq!(&s.row(2)[..13], b"-49.0F|266.0F");
    assert_eq!(&s.row(3)[..14], b"0.0%  |100.0% ");
    // Three frogs, and blanks on both sides of the pump icon.
    assert_eq!(&s.row(2)[13..16], &[3, 3, 3]);
    assert_eq!(&s.row(3)[17..20], &[b' ', 0, b' ']);
}

#[test]
fn failed_probes_show_error_at_panel_positions() {
    let sensors = bank([Reading::Error, Reading::Error, Reading::Error, Reading::Error]);
    let steps = update_all(&sensors, false, 0);
    let s1 = screen_of(&steps[0]);
    assert_eq!(&s1.row(2)[..11], b"ERROR?ERROR");
    let s2 = screen_of(&steps[1]);
    assert_eq!(&s2.row(2)[..5], b"ERROR");
    assert_eq!(&s2.row(3)[..5], b"ERROR");
}

#[test]
fn spray_blinks_while_pumping() {
    let sensors = bank([valid(700, 800); 4]);
    let on_even = screen_of(&update_all(&sensors, true, 2_500)[0]);
    let on_odd = screen_of(&update_all(&sensors, true, 3_500)[0]);
    let off = screen_of(&update_all(&sensors, false, 2_500)[0]);
    assert_eq!(&on_even.row(3)[17..20], &[1, 0, 2]);
    assert_eq!(&on_odd.row(3)[17..20], &[b' ', 0, b' ']);
    assert_eq!(&off.row(3)[17..20], &[b' ', 0, b' ']);
}

#[test]
fn each_byte_is_two_nibbles_high_first() {
    let steps = init_all();
    // The function-set command 0x28 follows the 4 handshake pulses.
    assert_eq!(
        &ops_of(&steps[0])[20..28],
        &[
            BusOp::Write(0x2C),
            BusOp::DelayUs(1),
            BusOp::Write(0x28),
            BusOp::DelayUs(50),
            BusOp::Write(0x8C),
            BusOp::DelayUs(1),
            BusOp::Write(0x88),
            BusOp::DelayUs(50),
        ]
    );
}

#[test]
fn padded_fields_have_fixed_width() {
    // A wide value fills its 7-character field exactly; the divider survives.
    let sensors = bank([valid(-3276, -3276), valid(1, 1), valid(0, 0), valid(0, 0)]);
    let s = screen_of(&update_all(&sensors, false, 0)[0]);
    assert_eq!(&s.row(2)[..14], b"-327.6|0.1F   ");
    assert_eq!(&s.row(3)[..7], b"-327.6|");
}

#[test]
fn idle_spray_clears_a_previous_spray() {
    // Draw with the spray showing, then redraw idle on the same screen: both
    // spray cells are blanked and the pump icon stays.
    let sensors = bank([valid(700, 800); 4]);
    let mut s = Screen::new();
    s.run(&ops_of(&update_all(&sensors, true, 0)[0]));
    assert_eq!(&s.row(3)[17..20], &[1, 0, 2]);
    s.run(&ops_of(&update_all(&sensors, true, 1_000)[0]));
    assert_eq!(&s.row(3)[17..20], &[b' ', 0, b' ']);
}

#[test]
fn every_item_is_at_most_eight_operations() {
    let sensors = bank([valid(752, 655), Reading::Error, valid(-5, 1000), Reading::Error]);
    let mut steps = init_all().to_vec();
    steps.extend(update_all(&sensors, true, 0));
    for step in &steps {
        for item in items_of(step) {
            let burst = expand(item);
            assert!((1..=8).contains(&burst.len));
        }
        assert_eq!(step_item(step, items_of(step).len()), None);
    }
}

#[test]
fn failure_policy_after_a_write() {
    let steps = init_all();
    assert_eq!(after_write(&steps[0], true), RunAction::Continue);
    assert_eq!(after_write(&steps[0], false), RunAction::Abort);
    assert_eq!(after_write(&steps[1], true), RunAction::Continue);
    assert_eq!(after_write(&steps[1], false), RunAction::EndStep);
    let sensors = bank([valid(700, 800); 4]);
    for step in update_all(&sensors, false, 0) {
        assert_eq!(after_write(&step, false), RunAction::Abort);
    }
}

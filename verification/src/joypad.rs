use vstd::prelude::*;

verus! {

/// The abstract joypad: which buttons are held, and the selection bits last
/// written to P1 (0xFF00).
pub struct JoypadView {
    pub right: bool,
    pub left: bool,
    pub up: bool,
    pub down: bool,
    pub a: bool,
    pub b: bool,
    pub select_btn: bool,
    pub start: bool,
    pub select: u8,
}

impl JoypadView {
    /// The joypad at power-on: nothing held, both groups selected.
    pub open spec fn power_on() -> JoypadView {
        JoypadView {
            right: false,
            left: false,
            up: false,
            down: false,
            a: false,
            b: false,
            select_btn: false,
            start: false,
            select: 0,
        }
    }

    /// P1 bit 4 low selects the direction keys.
    pub open spec fn dpad_selected(self) -> bool {
        self.select & 0x10 == 0
    }

    /// P1 bit 5 low selects the action buttons.
    pub open spec fn action_selected(self) -> bool {
        self.select & 0x20 == 0
    }

    /// Input line `i` (0..=3) is pulled low: a held button of a selected group
    /// sits on it (Right/A, Left/B, Up/Select, Down/Start).
    pub open spec fn line_low(self, i: int) -> bool {
        let (dpad, action) = if i == 0 {
            (self.right, self.a)
        } else if i == 1 {
            (self.left, self.b)
        } else if i == 2 {
            (self.up, self.select_btn)
        } else {
            (self.down, self.start)
        };
        (self.dpad_selected() && dpad) || (self.action_selected() && action)
    }

    /// The value P1 reads: bits 6-7 read 1, bits 4-5 the selection, and bit
    /// `i` of the low nibble reads 0 exactly when line `i` is pulled low.
    pub open spec fn read(self) -> u8 {
        (0xC0 + (self.select & 0x30) + (if self.line_low(0) { 0int } else { 1int }) + (if self.line_low(1) {
            0int
        } else {
            2int
        }) + (if self.line_low(2) { 0int } else { 4int }) + (if self.line_low(3) {
            0int
        } else {
            8int
        })) as u8
    }
}

/// The joypad: eight buttons multiplexed onto the four low bits of P1.
pub struct Joypad {
    right: bool,
    left: bool,
    up: bool,
    down: bool,
    a: bool,
    b: bool,
    select_btn: bool,
    start: bool,
    select: u8,
}

impl View for Joypad {
    type V = JoypadView;

    closed spec fn view(&self) -> JoypadView {
        JoypadView {
            right: self.right,
            left: self.left,
            up: self.up,
            down: self.down,
            a: self.a,
            b: self.b,
            select_btn: self.select_btn,
            start: self.start,
            select: self.select,
        }
    }
}

/// Clearing the low-nibble bits of the pulled-low lines from 0x0F, in the
/// order the two groups are scanned, leaves exactly the released lines set.
proof fn lemma_clear_lines(
    dpad: bool,
    action: bool,
    right: bool,
    left: bool,
    up: bool,
    down: bool,
    a: bool,
    b: bool,
    sel: bool,
    start: bool,
    select: u8,
)
    by (bit_vector)
    ensures
        ({
            let x1: u8 = if dpad && right { 0x0Fu8 & !0x01u8 } else { 0x0Fu8 };
            let x2: u8 = if dpad && left { x1 & !0x02u8 } else { x1 };
            let x3: u8 = if dpad && up { x2 & !0x04u8 } else { x2 };
            let x4: u8 = if dpad && down { x3 & !0x08u8 } else { x3 };
            let y1: u8 = if action && a { x4 & !0x01u8 } else { x4 };
            let y2: u8 = if action && b { y1 & !0x02u8 } else { y1 };
            let y3: u8 = if action && sel { y2 & !0x04u8 } else { y2 };
            let y4: u8 = if action && start { y3 & !0x08u8 } else { y3 };
            (select & 0x30) | y4 | 0xC0 == 0xC0u8 + (select & 0x30) + (if (dpad && right) || (action && a) { 0u8 } else { 1u8 }) + (if (dpad && left) || (action && b) { 0u8 } else { 2u8 }) + (if (dpad && up) || (action
                && sel) { 0u8 } else { 4u8 }) + (if (dpad && down) || (action && start) { 0u8 } else { 8u8 })
        }),
{
}

impl Joypad {
    pub fn new() -> (joypad: Self)
        ensures
            joypad@ == JoypadView::power_on(),
    {
        Joypad {
            right: false,
            left: false,
            up: false,
            down: false,
            a: false,
            b: false,
            select_btn: false,
            start: false,
            select: 0,
        }
    }

    /// The value of P1 (0xFF00).
    pub fn read(&self) -> (r: u8)
        ensures
            r == self@.read(),
    {
        let mut buttons: u8 = 0x0F;  // default: all released (high)
        let dpad = self.select & 0x10 == 0;
        let action = self.select & 0x20 == 0;

        if dpad {
            // bit 4 low = D-pad selected
            if self.right {
                buttons = buttons & !0x01;
            }
            if self.left {
                buttons = buttons & !0x02;
            }
            if self.up {
                buttons = buttons & !0x04;
            }
            if self.down {
                buttons = buttons & !0x08;
            }
        }
        if action {
            // bit 5 low = action selected
            if self.a {
                buttons = buttons & !0x01;
            }
            if self.b {
                buttons = buttons & !0x02;
            }
            if self.select_btn {
                buttons = buttons & !0x04;
            }
            if self.start {
                buttons = buttons & !0x08;
            }
        }
        proof {
            lemma_clear_lines(
                dpad,
                action,
                self.right,
                self.left,
                self.up,
                self.down,
                self.a,
                self.b,
                self.select_btn,
                self.start,
                self.select,
            );
        }
        (self.select & 0x30) | buttons | 0xC0
    }

    /// Writes P1: only the selection bits 4-5 are writable.
    pub fn write(&mut self, value: u8)
        ensures
            final(self)@ == (JoypadView { select: value & 0x30, ..old(self)@ }),
    {
        self.select = value & 0x30;  // only bits 4-5 are writable
    }

    pub fn set_buttons(
        &mut self,
        right: bool,
        left: bool,
        up: bool,
        down: bool,
        a: bool,
        b: bool,
        select_btn: bool,
        start: bool,
    )
        ensures
            final(self)@ == (JoypadView {
                right,
                left,
                up,
                down,
                a,
                b,
                select_btn,
                start,
                select: old(self)@.select,
            }),
    {
        self.right = right;
        self.left = left;
        self.up = up;
        self.down = down;
        self.a = a;
        self.b = b;
        self.select_btn = select_btn;
        self.start = start;
    }
}

} // verus!

verus! {

proof fn lemma_read_bits(select: u8, l0: bool, l1: bool, l2: bool, l3: bool)
    by (bit_vector)
    ensures
        ({
            let r = (0xC0u8 + (select & 0x30) + (if l0 { 0u8 } else { 1u8 }) + (if l1 { 0u8 } else { 2u8 }) + (if l2 {
                0u8
            } else {
                4u8
            }) + (if l3 { 0u8 } else { 8u8 })) as u8;
            &&& r & 0xC0 == 0xC0
            &&& r & 0x30 == select & 0x30
            &&& (r & 0x01 == 0) == l0
            &&& (r & 0x02 == 0) == l1
            &&& (r & 0x04 == 0) == l2
            &&& (r & 0x08 == 0) == l3
        }),
{
}

/// P1 reads bits 6-7 as 1 and bits 4-5 as the selection, and bit `i` of the
/// low nibble reads 0 exactly when a held button of a selected group sits on
/// line `i`.
pub proof fn lemma_read_lines(j: JoypadView)
    ensures
        j.read() & 0xC0 == 0xC0,
        j.read() & 0x30 == j.select & 0x30,
        (j.read() & 0x01 == 0) == j.line_low(0),
        (j.read() & 0x02 == 0) == j.line_low(1),
        (j.read() & 0x04 == 0) == j.line_low(2),
        (j.read() & 0x08 == 0) == j.line_low(3),
{
    lemma_read_bits(j.select, j.line_low(0), j.line_low(1), j.line_low(2), j.line_low(3));
}

/// With neither group selected every line reads released: P1 reads 0xFF,
/// whatever is held.
pub proof fn lemma_deselected_reads_ff(j: JoypadView)
    requires
        j.select & 0x30 == 0x30,
    ensures
        j.read() == 0xFF,
{
    let s = j.select;
    assert(s & 0x30 == 0x30 ==> (s & 0x10 != 0 && s & 0x20 != 0)) by (bit_vector);
}

/// Writing P1 keeps only the selection bits, so P1 reads back the selected
/// groups that were written.
pub proof fn lemma_write_selects(j: JoypadView, value: u8)
    ensures
        (JoypadView { select: value & 0x30, ..j }).read() & 0x30 == value & 0x30,
{
    let k = JoypadView { select: value & 0x30, ..j };
    lemma_read_lines(k);
    assert((value & 0x30) & 0x30 == value & 0x30) by (bit_vector);
}

/// What P1 reports, button by button. With only the direction keys selected
/// (P1 bits 5-4 = 10), bits 0..=3 read 0 exactly when Right, Left, Up and Down
/// are held; with only the action buttons selected (01), exactly when A, B,
/// Select and Start are held; with both selected a bit reads 0 when either
/// of its two buttons is held.
pub proof fn lemma_p1_reports_buttons(j: JoypadView)
    ensures
        j.select & 0x30 == 0x20 ==> {
            &&& (j.read() & 0x01 == 0) == j.right
            &&& (j.read() & 0x02 == 0) == j.left
            &&& (j.read() & 0x04 == 0) == j.up
            &&& (j.read() & 0x08 == 0) == j.down
        },
        j.select & 0x30 == 0x10 ==> {
            &&& (j.read() & 0x01 == 0) == j.a
            &&& (j.read() & 0x02 == 0) == j.b
            &&& (j.read() & 0x04 == 0) == j.select_btn
            &&& (j.read() & 0x08 == 0) == j.start
        },
        j.select & 0x30 == 0 ==> {
            &&& (j.read() & 0x01 == 0) == (j.right || j.a)
            &&& (j.read() & 0x02 == 0) == (j.left || j.b)
            &&& (j.read() & 0x04 == 0) == (j.up || j.select_btn)
            &&& (j.read() & 0x08 == 0) == (j.down || j.start)
        },
{
    lemma_read_lines(j);
    let s = j.select;
    assert({
        &&& s & 0x30 == 0x20 ==> (s & 0x10 == 0 && s & 0x20 != 0)
        &&& s & 0x30 == 0x10 ==> (s & 0x10 != 0 && s & 0x20 == 0)
        &&& s & 0x30 == 0 ==> (s & 0x10 == 0 && s & 0x20 == 0)
    }) by (bit_vector);
}

} // verus!

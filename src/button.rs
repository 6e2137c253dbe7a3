use vstd::prelude::*;
use vstd::string::{StrSliceExecFns, StringExecFns, StringSliceAdditionalSpecFns};

verus! {

/// One rectangular, focusable region of the terminal with a label.
pub struct Button {
    pub label: String,
    pub x: u16,
    pub y: u16,
    pub width: u16,
    pub focused: bool,
    pub action_key: Option<char>,
}

/// Number of bytes in the UTF-8 encoding of `s`.
pub open spec fn byte_len(s: &str) -> nat {
    s.spec_bytes().len()
}

/// `c` with `A`..`Z` mapped to `a`..`z`; every other character unchanged.
pub open spec fn ascii_lower(c: char) -> char {
    if 'A' <= c && c <= 'Z' {
        ((c as u32) + 32) as char
    } else {
        c
    }
}

/// The decimal digit character for `d < 10`.
pub open spec fn digit_char(d: nat) -> char {
    (48 + d) as char
}

/// Decimal notation of `n`, without leading zeros.
pub open spec fn decimal(n: nat) -> Seq<char>
    decreases n,
{
    if n < 10 {
        seq![digit_char(n)]
    } else {
        decimal(n / 10).push(digit_char(n % 10))
    }
}

/// `n` copies of `c`.
pub open spec fn repeat(c: char, n: nat) -> Seq<char> {
    Seq::new(n, |i: int| c)
}

/// The escape sequence that moves the cursor to `row`, `col`.
pub open spec fn cursor_to(row: nat, col: nat) -> Seq<char> {
    "\x1B["@ + decimal(row) + ";"@ + decimal(col) + "H"@
}

/// The escape sequence that restores default attributes.
pub open spec fn reset() -> Seq<char> {
    "\x1B[0m"@
}

/// Colour of the top border.
pub open spec fn top_color(focused: bool) -> Seq<char> {
    if focused {
        "\x1B[38;2;74;222;128m"@
    } else {
        "\x1B[38;2;100;116;139m"@
    }
}

/// Colour of the side borders.
pub open spec fn mid_color(focused: bool) -> Seq<char> {
    if focused {
        "\x1B[38;2;34;197;94m"@
    } else {
        "\x1B[38;2;71;85;105m"@
    }
}

/// Colour of the bottom border.
pub open spec fn bottom_color(focused: bool) -> Seq<char> {
    if focused {
        "\x1B[38;2;22;163;74m"@
    } else {
        "\x1B[38;2;51;65;85m"@
    }
}

/// Attributes of the label text.
pub open spec fn text_color(focused: bool) -> Seq<char> {
    if focused {
        "\x1B[1;97m"@
    } else {
        "\x1B[37m"@
    }
}

/// `s` centred in `w` columns with spaces, the odd space going right;
/// `s` itself when it is at least `w` characters long.
pub open spec fn centered(s: Seq<char>, w: nat) -> Seq<char> {
    if s.len() >= w {
        s
    } else {
        let pad = (w - s.len()) as nat;
        repeat(' ', pad / 2) + s + repeat(' ', (pad - pad / 2) as nat)
    }
}

impl Button {
    /// The text shown inside the box: the label, followed by ` (k)` when the
    /// button has the mnemonic `k`.
    pub open spec fn display_label(&self) -> Seq<char> {
        match self.action_key {
            Some(k) => self.label@ + " ("@ + seq![k] + ")"@,
            None => self.label@,
        }
    }

    /// Everything written to the terminal to draw this button: three rows,
    /// each placed by a cursor move and closed by an attribute reset.
    pub open spec fn frame(&self) -> Seq<char> {
        let f = self.focused;
        let w = self.width as nat;
        let x = self.x as nat;
        let y = self.y as nat;
        let top = cursor_to(y, x) + top_color(f) + "┌"@ + repeat('─', w) + "┐"@ + reset();
        let middle = cursor_to(y + 1, x) + mid_color(f) + "│"@ + text_color(f) + centered(
            self.display_label(),
            w,
        ) + mid_color(f) + "│"@ + reset();
        let bottom = cursor_to(y + 2, x) + bottom_color(f) + "└"@ + repeat('─', w) + "┘"@
            + reset();
        top + middle + bottom
    }

    /// Whether `(cx, cy)` lies in the clickable area: columns `x` through
    /// `x + width + 1` and the three rows from `y`.
    pub open spec fn contains(&self, cx: int, cy: int) -> bool {
        self.x <= cx <= self.x + self.width + 1 && self.y <= cy <= self.y + 2
    }

    /// Whether `key`, lowercased, is this button's mnemonic.
    pub open spec fn answers(&self, key: char) -> bool {
        self.action_key == Some(ascii_lower(key))
    }

    /// Creates an unfocused button without a mnemonic; its width is the
    /// label's length in bytes plus two border and two padding columns.
    pub fn new(label: &str, x: u16, y: u16) -> (b: Self)
        requires
            byte_len(label) + 4 <= u16::MAX,
        ensures
            b.label@ == label@,
            b.x == x,
            b.y == y,
            b.width == byte_len(label) + 4,
            !b.focused,
            b.action_key is None,
    {
        let width: u16 = label.len() as u16 + 4;
        Button { label: label.to_owned(), x, y, width, focused: false, action_key: None }
    }

    /// Sets the mnemonic to `key`, as given; everything else is kept.
    pub fn with_action_key(self, key: char) -> (b: Self)
        ensures
            b == (Button { action_key: Some(key), ..self }),
    {
        let mut b = self;
        b.action_key = Some(key);
        b
    }

    /// Sets the focus flag; everything else is kept.
    pub fn set_focus(&mut self, focused: bool)
        ensures
            *final(self) == (Button { focused, ..*old(self) }),
    {
        self.focused = focused;
    }

    /// The escape sequences and glyphs that draw this button, focused in
    /// green, unfocused in slate.
    pub fn draw(&self) -> (r: String)
        ensures
            r@ == self.frame(),
    {
        let f = self.focused;
        let mut out = String::new();
        append_cursor_to(&mut out, self.y as u32, self.x as u32);
        out.append(if f { "\x1B[38;2;74;222;128m" } else { "\x1B[38;2;100;116;139m" });
        out.append("┌");
        append_repeat(&mut out, '─', self.width);
        out.append("┐");
        out.append("\x1B[0m");
        append_cursor_to(&mut out, self.y as u32 + 1, self.x as u32);
        let mid = if f { "\x1B[38;2;34;197;94m" } else { "\x1B[38;2;71;85;105m" };
        out.append(mid);
        out.append("│");
        out.append(if f { "\x1B[1;97m" } else { "\x1B[37m" });
        let text = self.label_text();
        append_centered(&mut out, text.as_str(), self.width);
        out.append(mid);
        out.append("│");
        out.append("\x1B[0m");
        append_cursor_to(&mut out, self.y as u32 + 2, self.x as u32);
        out.append(if f { "\x1B[38;2;22;163;74m" } else { "\x1B[38;2;51;65;85m" });
        out.append("└");
        append_repeat(&mut out, '─', self.width);
        out.append("┘");
        out.append("\x1B[0m");
        assert(out@ =~= self.frame());
        out
    }

    /// The label as displayed, with the mnemonic hint when there is one.
    fn label_text(&self) -> (r: String)
        ensures
            r@ == self.display_label(),
    {
        let mut text = self.label.clone();
        if let Some(k) = self.action_key {
            text.append(" (");
            push_char(&mut text, k);
            text.append(")");
        }
        text
    }

    /// Hit test: whether the point lies in the button's clickable area.
    pub fn is_hovered(&self, cursor_x: u16, cursor_y: u16) -> (r: bool)
        ensures
            r == self.contains(cursor_x as int, cursor_y as int),
    {
        let right: u32 = self.x as u32 + self.width as u32 + 1;
        let bottom: u32 = self.y as u32 + 2;
        cursor_x >= self.x && cursor_x as u32 <= right && cursor_y >= self.y && cursor_y as u32
            <= bottom
    }

    /// Whether `key`, after ASCII lowercasing, equals the mnemonic; false
    /// when the button has none.
    pub fn matches_key(&self, key: char) -> (r: bool)
        ensures
            r == self.answers(key),
    {
        let lower = to_ascii_lower(key);
        match self.action_key {
            Some(k) => k == lower,
            None => false,
        }
    }
}

/// ASCII lowercasing of one character.
fn to_ascii_lower(c: char) -> (r: char)
    ensures
        r == ascii_lower(c),
{
    if 'A' <= c && c <= 'Z' {
        ((c as u8) + 32) as char
    } else {
        c
    }
}

/// Relies on `String::push`: appends the one character at the end.
#[verifier::external_body]
fn push_char(s: &mut String, c: char)
    ensures
        final(s)@ == old(s)@.push(c),
{
    s.push(c)
}

/// Appends the decimal notation of `n`.
fn append_decimal(s: &mut String, n: u32)
    ensures
        final(s)@ == old(s)@ + decimal(n as nat),
    decreases n,
{
    if n >= 10 {
        append_decimal(s, n / 10);
    }
    let d: u8 = (n % 10) as u8;
    push_char(s, (48 + d) as char);
    assert(s@ =~= old(s)@ + decimal(n as nat));
}

/// Appends the cursor move to `row`, `col`.
fn append_cursor_to(s: &mut String, row: u32, col: u32)
    ensures
        final(s)@ == old(s)@ + cursor_to(row as nat, col as nat),
{
    s.append("\x1B[");
    append_decimal(s, row);
    s.append(";");
    append_decimal(s, col);
    s.append("H");
    assert(s@ =~= old(s)@ + cursor_to(row as nat, col as nat));
}

/// Appends `n` copies of `c`.
fn append_repeat(s: &mut String, c: char, n: u16)
    ensures
        final(s)@ == old(s)@ + repeat(c, n as nat),
{
    let ghost start = s@;
    let mut i: u16 = 0;
    while i < n
        invariant
            i <= n,
            s@ == start + repeat(c, i as nat),
        decreases n - i,
    {
        push_char(s, c);
        i = i + 1;
        assert(s@ =~= start + repeat(c, i as nat));
    }
}

/// Appends `text` centred in `w` columns.
fn append_centered(s: &mut String, text: &str, w: u16)
    ensures
        final(s)@ == old(s)@ + centered(text@, w as nat),
{
    let n = text.unicode_len();
    if n >= w as usize {
        s.append(text);
    } else {
        let pad: u16 = w - n as u16;
        append_repeat(s, ' ', pad / 2);
        s.append(text);
        append_repeat(s, ' ', pad - pad / 2);
    }
    assert(s@ =~= old(s)@ + centered(text@, w as nat));
}

} // verus!

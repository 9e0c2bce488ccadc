//! The text-input widget: a single-line value with a cursor, a blink timer
//! and a validity flag, edited one key at a time.
//!
//! Every mutation states exactly how the new value and cursor relate to the
//! old ones, and validity is recomputed against the field's declared input
//! kind after every change.

use vstd::prelude::*;

use crate::codec::{chars_to_string, dig_val, is_digit, string_chars};
use crate::document::TextInputType;

verus! {

/// The current text of a field.
#[derive(Clone, Debug, PartialEq)]
pub struct TextInputValue(pub String);

/// The cursor position of a field, counted in characters, between 0 and the
/// value's length.
#[derive(Clone, Copy, Debug, PartialEq, Eq, Structural)]
pub struct TextInputCursorPos(pub usize);

/// The cursor blink timer: `visible` flips once per period.
#[derive(Clone, Copy, Debug, PartialEq, Eq, Structural)]
pub struct TextInputCursorTimer {
    /// The blink period, in milliseconds; always positive.
    pub period_ms: u64,
    /// Time into the current period, in milliseconds; below the period.
    pub elapsed_ms: u64,
    /// Whether the cursor is currently shown.
    pub visible: bool,
}

/// Placeholder text shown while a field is empty.
#[derive(Clone, Debug, PartialEq)]
pub struct Placeholder(pub String);

/// Where the blink timer lands after `ms` more milliseconds have passed.
pub open spec fn blink(elapsed: int, visible: bool, period: int) -> (int, bool)
    recommends
        period > 0,
        elapsed >= 0,
    decreases elapsed,
{
    if period <= 0 || elapsed < period {
        (elapsed, visible)
    } else {
        blink(elapsed - period, !visible, period)
    }
}

impl TextInputCursorTimer {
    pub open spec fn wf(&self) -> bool {
        0 < self.period_ms && self.elapsed_ms < self.period_ms
    }

    /// A freshly shown cursor at the start of its blink period.
    pub fn new(period_ms: u64) -> (r: Self)
        requires
            period_ms > 0,
        ensures
            r == (TextInputCursorTimer { period_ms, elapsed_ms: 0, visible: true }),
            r.wf(),
    {
        TextInputCursorTimer { period_ms, elapsed_ms: 0, visible: true }
    }

    /// A key press makes the cursor visible and restarts the period.
    pub fn reset(&mut self)
        ensures
            final(self).period_ms == old(self).period_ms,
            final(self).elapsed_ms == 0,
            final(self).visible,
            old(self).wf() ==> final(self).wf(),
    {
        self.elapsed_ms = 0;
        self.visible = true;
    }

    /// Advances the timer by `ms` milliseconds, flipping visibility once per
    /// full period.
    pub fn tick(&mut self, ms: u64)
        requires
            old(self).wf(),
            old(self).elapsed_ms + ms <= u64::MAX,
        ensures
            final(self).period_ms == old(self).period_ms,
            (final(self).elapsed_ms as int, final(self).visible) == blink(
                old(self).elapsed_ms + ms,
                old(self).visible,
                old(self).period_ms as int,
            ),
            final(self).wf(),
    {
        let mut rest: u64 = self.elapsed_ms + ms;
        while rest >= self.period_ms
            invariant
                self.period_ms == old(self).period_ms,
                0 < self.period_ms,
                blink(rest as int, self.visible, self.period_ms as int) == blink(
                    old(self).elapsed_ms + ms,
                    old(self).visible,
                    old(self).period_ms as int,
                ),
            decreases rest,
        {
            rest = rest - self.period_ms;
            self.visible = !self.visible;
        }
        self.elapsed_ms = rest;
    }
}

impl Default for TextInputCursorTimer {
    /// Half a second per blink, cursor shown.
    fn default() -> (r: Self)
        ensures
            r == (TextInputCursorTimer { period_ms: 500u64, elapsed_ms: 0u64, visible: true }),
            r.wf(),
    {
        TextInputCursorTimer { period_ms: 500, elapsed_ms: 0, visible: true }
    }
}

// ------------------------------------------------------------------
// Validity of a value against its declared input kind
// ------------------------------------------------------------------

/// All characters are decimal digits, and there is at least one.
pub open spec fn is_digits(s: Seq<char>) -> bool {
    s.len() > 0 && forall|i: int| 0 <= i < s.len() ==> is_digit(#[trigger] s[i])
}

/// The numeric value of a digit string.
pub open spec fn digits_val(s: Seq<char>) -> nat
    decreases s.len(),
{
    if s.len() == 0 {
        0
    } else {
        digits_val(s.drop_last()) * 10 + dig_val(s.last())
    }
}

/// The body of a signed token: the text after an optional leading sign.
pub open spec fn strip_sign(s: Seq<char>) -> Seq<char> {
    if s.len() > 0 && (s[0] == '+' || s[0] == '-') {
        s.drop_first()
    } else {
        s
    }
}

/// Whether `s` reads as a whole number that a 32-bit signed integer can
/// hold: an optional sign, then digits, within range.
pub open spec fn is_int_str(s: Seq<char>) -> bool {
    is_digits(strip_sign(s)) && digits_val(strip_sign(s)) <= (if s.len() > 0 && s[0] == '-' {
        2147483648nat
    } else {
        2147483647nat
    })
}

/// The scanner states of the decimal-number grammar.
#[derive(Clone, Copy, Debug, PartialEq, Eq, Structural)]
pub enum DecState {
    /// Nothing read past the sign; a digit or a dot must follow.
    Start,
    /// Inside the integer digits.
    IntPart,
    /// Just after a leading dot with no digits before it.
    FracFirst,
    /// Inside the fraction digits.
    FracPart,
    /// Just after the exponent letter.
    ExpSign,
    /// Just after the exponent's sign.
    ExpFirst,
    /// Inside the exponent digits.
    ExpPart,
}

/// Runs the decimal-number scanner from position `i` in state `st`;
/// accepts exactly `sign? (digits ('.' digits*)? | '.' digits) exponent?`
/// with `exponent = (e|E) sign? digits`.
pub open spec fn dec_scan(s: Seq<char>, i: int, st: DecState) -> bool
    decreases s.len() - i,
{
    if i < 0 || i >= s.len() {
        st == DecState::IntPart || st == DecState::FracPart || st == DecState::ExpPart
    } else {
        let c = s[i];
        match st {
            DecState::Start => if is_digit(c) {
                dec_scan(s, i + 1, DecState::IntPart)
            } else if c == '.' {
                dec_scan(s, i + 1, DecState::FracFirst)
            } else {
                false
            },
            DecState::IntPart => if is_digit(c) {
                dec_scan(s, i + 1, DecState::IntPart)
            } else if c == '.' {
                dec_scan(s, i + 1, DecState::FracPart)
            } else if c == 'e' || c == 'E' {
                dec_scan(s, i + 1, DecState::ExpSign)
            } else {
                false
            },
            DecState::FracFirst => if is_digit(c) {
                dec_scan(s, i + 1, DecState::FracPart)
            } else {
                false
            },
            DecState::FracPart => if is_digit(c) {
                dec_scan(s, i + 1, DecState::FracPart)
            } else if c == 'e' || c == 'E' {
                dec_scan(s, i + 1, DecState::ExpSign)
            } else {
                false
            },
            DecState::ExpSign => if is_digit(c) {
                dec_scan(s, i + 1, DecState::ExpPart)
            } else if c == '+' || c == '-' {
                dec_scan(s, i + 1, DecState::ExpFirst)
            } else {
                false
            },
            DecState::ExpFirst => if is_digit(c) {
                dec_scan(s, i + 1, DecState::ExpPart)
            } else {
                false
            },
            DecState::ExpPart => if is_digit(c) {
                dec_scan(s, i + 1, DecState::ExpPart)
            } else {
                false
            },
        }
    }
}

/// Whether `s` reads as a decimal number.
pub open spec fn is_dec_str(s: Seq<char>) -> bool {
    let b = strip_sign(s);
    dec_scan(b, 0, DecState::Start)
}

/// What counts as a valid value for each input kind.
pub open spec fn kind_valid(kind: TextInputType, s: Seq<char>) -> bool {
    match kind {
        TextInputType::Text => true,
        TextInputType::Integer => is_int_str(s),
        TextInputType::Float => is_dec_str(s),
    }
}

/// A longer digit string never shrinks the value.
proof fn lemma_digits_val_prefix_le(s: Seq<char>, k: int)
    requires
        0 <= k <= s.len(),
        forall|i: int| 0 <= i < s.len() ==> is_digit(#[trigger] s[i]),
    ensures
        digits_val(s.subrange(0, k)) <= digits_val(s),
    decreases s.len() - k,
{
    if k < s.len() {
        lemma_digits_val_prefix_le(s, k + 1);
        let a = s.subrange(0, k);
        let b = s.subrange(0, k + 1);
        assert(b.drop_last() =~= a);
        assert(digits_val(b) == digits_val(a) * 10 + dig_val(b.last()));
    } else {
        assert(s.subrange(0, k) =~= s);
    }
}

fn e_is_digit(c: char) -> (r: bool)
    ensures
        r == is_digit(c),
{
    c == '0' || c == '1' || c == '2' || c == '3' || c == '4' || c == '5' || c == '6' || c == '7'
        || c == '8' || c == '9'
}

fn e_dig_val(c: char) -> (r: u64)
    ensures
        r == dig_val(c),
        r < 10,
{
    if c == '0' {
        0
    } else if c == '1' {
        1
    } else if c == '2' {
        2
    } else if c == '3' {
        3
    } else if c == '4' {
        4
    } else if c == '5' {
        5
    } else if c == '6' {
        6
    } else if c == '7' {
        7
    } else if c == '8' {
        8
    } else {
        9
    }
}

/// Whether the characters read as a whole number within 32-bit range.
fn check_int(s: &Vec<char>) -> (r: bool)
    ensures
        r == is_int_str(s@),
{
    let mut i: usize = 0;
    let mut bound: u64 = 2147483647;
    if s.len() > 0 && (s[0] == '+' || s[0] == '-') {
        if s[0] == '-' {
            bound = 2147483648;
        }
        i = 1;
    }
    let ghost body = strip_sign(s@);
    proof {
        assert(body =~= s@.subrange(i as int, s@.len() as int));
    }
    if i >= s.len() {
        return false;
    }
    let start = i;
    let mut acc: u64 = 0;
    let mut over = false;
    while i < s.len()
        invariant
            start <= i <= s.len(),
            start < s@.len(),
            start as int + body.len() == s@.len(),
            body == strip_sign(s@),
            body =~= s@.subrange(start as int, s@.len() as int),
            forall|l: int| start <= l < i ==> is_digit(#[trigger] s@[l]),
            !over ==> acc == digits_val(body.subrange(0, i - start)),
            !over ==> acc <= bound,
            over ==> digits_val(body.subrange(0, i - start)) > bound,
            bound == (if s@.len() > 0 && s@[0] == '-' {
                2147483648u64
            } else {
                2147483647u64
            }),
        decreases s.len() - i,
    {
        let c = s[i];
        if !e_is_digit(c) {
            proof {
                assert(body[i - start] == s@[i as int]);
                assert(!is_digits(body));
            }
            return false;
        }
        proof {
            assert(body.subrange(0, i + 1 - start).drop_last() =~= body.subrange(0, i - start));
            assert(body.subrange(0, i + 1 - start).last() == s@[i as int]);
        }
        if !over {
            let d = e_dig_val(c);
            if acc > (bound - d) / 10 {
                proof {
                    assert(acc * 10 + d > bound) by (nonlinear_arith)
                        requires
                            acc > (bound - d) / 10,
                            d < 10,
                            bound >= d,
                    ;
                }
                over = true;
            } else {
                proof {
                    assert(acc * 10 + d <= bound) by (nonlinear_arith)
                        requires
                            acc <= (bound - d) / 10,
                            d < 10,
                            bound >= d,
                    ;
                }
                acc = acc * 10 + d;
            }
        }
        i += 1;
    }
    proof {
        assert(body.subrange(0, i - start) =~= body);
        assert(forall|l: int| 0 <= l < body.len() ==> is_digit(#[trigger] body[l])) by {
            assert(forall|l: int| 0 <= l < body.len() ==> body[l] == s@[start + l]);
        }
        assert(is_digits(body));
    }
    !over
}

/// Whether the characters read as a decimal number.
fn check_dec(s: &Vec<char>) -> (r: bool)
    ensures
        r == is_dec_str(s@),
{
    let mut i: usize = 0;
    if s.len() > 0 && (s[0] == '+' || s[0] == '-') {
        i = 1;
    }
    let ghost body = strip_sign(s@);
    proof {
        assert(body =~= s@.subrange(i as int, s@.len() as int));
    }
    let start = i;
    let mut st = DecState::Start;
    while i < s.len()
        invariant
            start <= i <= s.len(),
            start as int + body.len() == s@.len(),
            body == strip_sign(s@),
            body =~= s@.subrange(start as int, s@.len() as int),
            dec_scan(body, 0, DecState::Start) == dec_scan(body, i - start, st),
        decreases s.len() - i,
    {
        let c = s[i];
        proof {
            assert(body[i - start] == s@[i as int]);
        }
        let next: Option<DecState> = match st {
            DecState::Start => if e_is_digit(c) {
                Option::Some(DecState::IntPart)
            } else if c == '.' {
                Option::Some(DecState::FracFirst)
            } else {
                Option::None
            },
            DecState::IntPart => if e_is_digit(c) {
                Option::Some(DecState::IntPart)
            } else if c == '.' {
                Option::Some(DecState::FracPart)
            } else if c == 'e' || c == 'E' {
                Option::Some(DecState::ExpSign)
            } else {
                Option::None
            },
            DecState::FracFirst => if e_is_digit(c) {
                Option::Some(DecState::FracPart)
            } else {
                Option::None
            },
            DecState::FracPart => if e_is_digit(c) {
                Option::Some(DecState::FracPart)
            } else if c == 'e' || c == 'E' {
                Option::Some(DecState::ExpSign)
            } else {
                Option::None
            },
            DecState::ExpSign => if e_is_digit(c) {
                Option::Some(DecState::ExpPart)
            } else if c == '+' || c == '-' {
                Option::Some(DecState::ExpFirst)
            } else {
                Option::None
            },
            DecState::ExpFirst => if e_is_digit(c) {
                Option::Some(DecState::ExpPart)
            } else {
                Option::None
            },
            DecState::ExpPart => if e_is_digit(c) {
                Option::Some(DecState::ExpPart)
            } else {
                Option::None
            },
        };
        match next {
            Option::Some(n) => {
                st = n;
            },
            Option::None => {
                proof {
                    assert(!dec_scan(body, i - start, st));
                }
                return false;
            },
        }
        i += 1;
    }
    matches!(st, DecState::IntPart | DecState::FracPart | DecState::ExpPart)
}

impl TextInputType {
    /// Whether `v` is a valid value for this input kind.
    pub fn is_valid(&self, v: &str) -> (r: bool)
        ensures
            r == kind_valid(*self, v@),
    {
        match self {
            TextInputType::Text => true,
            TextInputType::Integer => {
                let chars = string_chars(v);
                check_int(&chars)
            },
            TextInputType::Float => {
                let chars = string_chars(v);
                check_dec(&chars)
            },
        }
    }
}

// ------------------------------------------------------------------
// Editing
// ------------------------------------------------------------------

/// The string with one character inserted at character index `i`.
fn str_insert_char(s: &str, i: usize, c: char) -> (r: String)
    requires
        i <= s@.len(),
    ensures
        r@ == s@.insert(i as int, c),
{
    let mut chars = string_chars(s);
    chars.insert(i, c);
    chars_to_string(chars)
}

/// The string with the character at character index `i` removed.
fn str_remove_char(s: &str, i: usize) -> (r: String)
    requires
        i < s@.len(),
    ensures
        r@ == s@.remove(i as int),
{
    let mut chars = string_chars(s);
    chars.remove(i);
    chars_to_string(chars)
}

/// Whether a value of length `len` is full under the declared bound.
pub open spec fn at_max(len: nat, max_length: Option<usize>) -> bool {
    match max_length {
        Option::Some(l) => len >= l,
        Option::None => false,
    }
}

/// The persistent state of one text-input widget.
#[derive(Clone, Debug, PartialEq)]
pub struct TextInputState {
    pub value: TextInputValue,
    pub cursor: TextInputCursorPos,
    pub timer: TextInputCursorTimer,
    /// What the field accepts; fixed at creation from the document.
    pub kind: TextInputType,
    /// Whether the current value satisfies the kind; recomputed after every
    /// mutation.
    pub valid: bool,
}

impl TextInputState {
    /// The cursor stays inside the value, the timer is sound, and the
    /// validity flag tells the truth about the current value.
    pub open spec fn wf(&self) -> bool {
        self.cursor.0 <= self.value.0@.len() && self.timer.wf() && self.valid == kind_valid(
            self.kind,
            self.value.0@,
        )
    }

    /// Seeds a fresh field from its declared default, truncated to the
    /// length bound, with the cursor after the last character.
    pub fn new(default_value: &str, max_length: Option<usize>, kind: TextInputType) -> (r: Self)
        ensures
            r.value.0@ == (match max_length {
                Option::Some(l) => if default_value@.len() > l {
                    default_value@.subrange(0, l as int)
                } else {
                    default_value@
                },
                Option::None => default_value@,
            }),
            r.cursor.0 == r.value.0@.len(),
            r.kind == kind,
            r.timer == (TextInputCursorTimer { period_ms: 500u64, elapsed_ms: 0u64, visible: true }),
            r.wf(),
    {
        let mut chars = string_chars(default_value);
        if let Option::Some(l) = max_length {
            if chars.len() > l {
                chars.truncate(l);
            }
        }
        let value = chars_to_string(chars);
        let cursor = value.as_str().unicode_len();
        let valid = kind.is_valid(value.as_str());
        TextInputState {
            value: TextInputValue(value),
            cursor: TextInputCursorPos(cursor),
            timer: TextInputCursorTimer::default(),
            kind,
            valid,
        }
    }

    fn revalidate(&mut self)
        ensures
            *final(self) == (TextInputState {
                valid: kind_valid(old(self).kind, old(self).value.0@),
                ..*old(self)
            }),
    {
        self.valid = self.kind.is_valid(self.value.0.as_str());
    }

    /// Inserts a printable character at the cursor. Newlines are ignored,
    /// and once the value is as long as `max_length` allows, further
    /// characters are rejected and nothing changes.
    pub fn insert_char(&mut self, c: char, max_length: Option<usize>)
        requires
            old(self).wf(),
        ensures
            final(self).wf(),
            c == '\n' || at_max(old(self).value.0@.len(), max_length) ==> *final(self) == *old(
                self,
            ),
            c != '\n' && !at_max(old(self).value.0@.len(), max_length) ==> {
                &&& final(self).value.0@ == old(self).value.0@.insert(
                    old(self).cursor.0 as int,
                    c,
                )
                &&& final(self).cursor.0 == old(self).cursor.0 + 1
                &&& final(self).timer.visible && final(self).timer.elapsed_ms == 0
                &&& final(self).timer.period_ms == old(self).timer.period_ms
                &&& final(self).kind == old(self).kind
                &&& final(self).valid == kind_valid(old(self).kind, final(self).value.0@)
            },
    {
        if c == '\n' {
            return ;
        }
        if let Option::Some(l) = max_length {
            if self.value.0.as_str().unicode_len() >= l {
                return ;
            }
        }
        self.value = TextInputValue(str_insert_char(self.value.0.as_str(), self.cursor.0, c));
        let new_len = self.value.0.as_str().unicode_len();
        self.cursor = TextInputCursorPos(self.cursor.0 + 1);
        self.timer.reset();
        self.revalidate();
    }

    /// Deletes the character before the cursor, if any, and moves the
    /// cursor back over it.
    pub fn backspace(&mut self)
        requires
            old(self).wf(),
        ensures
            final(self).wf(),
            old(self).cursor.0 == 0 ==> *final(self) == *old(self),
            old(self).cursor.0 > 0 ==> {
                &&& final(self).value.0@ == old(self).value.0@.remove(old(self).cursor.0 - 1)
                &&& final(self).cursor.0 == old(self).cursor.0 - 1
                &&& final(self).timer.visible && final(self).timer.elapsed_ms == 0
                &&& final(self).timer.period_ms == old(self).timer.period_ms
                &&& final(self).kind == old(self).kind
                &&& final(self).valid == kind_valid(old(self).kind, final(self).value.0@)
            },
    {
        if self.cursor.0 == 0 {
            return ;
        }
        self.value = TextInputValue(str_remove_char(self.value.0.as_str(), self.cursor.0 - 1));
        self.cursor = TextInputCursorPos(self.cursor.0 - 1);
        self.timer.reset();
        self.revalidate();
    }

    /// Deletes the character at the cursor, if any; the cursor stays.
    pub fn delete_forward(&mut self)
        requires
            old(self).wf(),
        ensures
            final(self).wf(),
            old(self).cursor.0 >= old(self).value.0@.len() ==> *final(self) == *old(self),
            old(self).cursor.0 < old(self).value.0@.len() ==> {
                &&& final(self).value.0@ == old(self).value.0@.remove(old(self).cursor.0 as int)
                &&& final(self).cursor.0 == old(self).cursor.0
                &&& final(self).timer.visible && final(self).timer.elapsed_ms == 0
                &&& final(self).timer.period_ms == old(self).timer.period_ms
                &&& final(self).kind == old(self).kind
                &&& final(self).valid == kind_valid(old(self).kind, final(self).value.0@)
            },
    {
        if self.cursor.0 >= self.value.0.as_str().unicode_len() {
            return ;
        }
        self.value = TextInputValue(str_remove_char(self.value.0.as_str(), self.cursor.0));
        self.timer.reset();
        self.revalidate();
    }

    /// Moves the cursor one character left, clamped at the start.
    pub fn move_left(&mut self)
        requires
            old(self).wf(),
        ensures
            final(self).wf(),
            final(self).value == old(self).value,
            final(self).kind == old(self).kind,
            final(self).valid == old(self).valid,
            final(self).cursor.0 == (if old(self).cursor.0 > 0 {
                old(self).cursor.0 - 1
            } else {
                0int
            }),
            final(self).timer.visible && final(self).timer.elapsed_ms == 0,
            final(self).timer.period_ms == old(self).timer.period_ms,
    {
        if self.cursor.0 > 0 {
            self.cursor = TextInputCursorPos(self.cursor.0 - 1);
        }
        self.timer.reset();
    }

    /// Moves the cursor one character right, clamped at the end.
    pub fn move_right(&mut self)
        requires
            old(self).wf(),
        ensures
            final(self).wf(),
            final(self).value == old(self).value,
            final(self).kind == old(self).kind,
            final(self).valid == old(self).valid,
            final(self).cursor.0 == (if old(self).cursor.0 < old(self).value.0@.len() {
                old(self).cursor.0 + 1
            } else {
                old(self).cursor.0 as int
            }),
            final(self).timer.visible && final(self).timer.elapsed_ms == 0,
            final(self).timer.period_ms == old(self).timer.period_ms,
    {
        if self.cursor.0 < self.value.0.as_str().unicode_len() {
            self.cursor = TextInputCursorPos(self.cursor.0 + 1);
        }
        self.timer.reset();
    }

    /// Jumps the cursor to the start of the value.
    pub fn home(&mut self)
        requires
            old(self).wf(),
        ensures
            final(self).wf(),
            final(self).value == old(self).value,
            final(self).kind == old(self).kind,
            final(self).valid == old(self).valid,
            final(self).cursor.0 == 0,
            final(self).timer.visible && final(self).timer.elapsed_ms == 0,
            final(self).timer.period_ms == old(self).timer.period_ms,
    {
        self.cursor = TextInputCursorPos(0);
        self.timer.reset();
    }

    /// Jumps the cursor past the last character of the value.
    pub fn end(&mut self)
        requires
            old(self).wf(),
        ensures
            final(self).wf(),
            final(self).value == old(self).value,
            final(self).kind == old(self).kind,
            final(self).valid == old(self).valid,
            final(self).cursor.0 == old(self).value.0@.len(),
            final(self).timer.visible && final(self).timer.elapsed_ms == 0,
            final(self).timer.period_ms == old(self).timer.period_ms,
    {
        self.cursor = TextInputCursorPos(self.value.0.as_str().unicode_len());
        self.timer.reset();
    }
}

} // verus!

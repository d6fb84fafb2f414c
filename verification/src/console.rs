//! The text of a display of two lines of eight characters that scrolls: the
//! line being written is the lower one, and a line break takes effect only
//! when the next character comes, so that a finished line stays in view.

use vstd::prelude::*;
use vstd::string::StringSliceAdditionalSpecFns;

verus! {

/// The byte of the line break.
pub const NEW_LINE: u8 = 0x0a;

/// A line of blanks.
pub open spec fn blank_line() -> Seq<u8> {
    Seq::new(8, |i: int| 0x20u8)
}

/// The text as the contracts see it.
pub struct ConsoleView {
    /// The upper line: the one written before the present one.
    pub upper: Seq<u8>,
    /// The lower line: the one being written.
    pub lower: Seq<u8>,
    /// The column of the next character in the lower line.
    pub cursor: int,
    /// Whether a line break waits for the next character.
    pub next_new_line: bool,
}

impl ConsoleView {
    /// The text after the character `c`, which is no line break. A waiting
    /// line break first moves the lower line up and starts a blank one; the
    /// character is dropped where the line is full.
    pub open spec fn added(self, c: u8) -> Self {
        let fresh = if self.next_new_line {
            ConsoleView { upper: self.lower, lower: blank_line(), cursor: 0, next_new_line: false }
        } else {
            self
        };
        if fresh.cursor < 8 {
            ConsoleView {
                lower: fresh.lower.update(fresh.cursor, c),
                cursor: fresh.cursor + 1,
                ..fresh
            }
        } else {
            fresh
        }
    }

    /// The text after one byte: a line break waits, any other byte is
    /// added.
    pub open spec fn put(self, b: u8) -> Self {
        if b == 0x0a {
            ConsoleView { next_new_line: true, ..self }
        } else {
            self.added(b)
        }
    }

    /// The text after the bytes of `s`, one after the other.
    pub open spec fn written(self, s: Seq<u8>) -> Self
        decreases s.len(),
    {
        if s.len() == 0 {
            self
        } else {
            self.written(s.drop_last()).put(s.last())
        }
    }
}

/// The text of the two lines.
pub struct Console {
    upper: [u8; 8],
    lower: [u8; 8],
    cursor: usize,
    next_new_line: bool,
}

impl Console {
    /// The text as the contracts see it.
    pub closed spec fn view(&self) -> ConsoleView {
        ConsoleView {
            upper: self.upper@,
            lower: self.lower@,
            cursor: self.cursor as int,
            next_new_line: self.next_new_line,
        }
    }

    #[verifier::type_invariant]
    closed spec fn cursor_in_line(&self) -> bool {
        self.cursor <= 8
    }

    /// Two blank lines, the cursor at the left.
    pub fn new() -> (console: Console)
        ensures
            console@ == (ConsoleView {
                upper: blank_line(),
                lower: blank_line(),
                cursor: 0,
                next_new_line: false,
            }),
    {
        let console = Console { upper: [0x20;8], lower: [0x20;8], cursor: 0, next_new_line: false };
        proof {
            assert(console.upper@ =~= blank_line());
            assert(console.lower@ =~= blank_line());
        }
        console
    }

    /// Adds the character `c`, which is no line break: see
    /// `ConsoleView::added`.
    pub fn add_char(&mut self, c: u8)
        ensures
            final(self)@ == old(self)@.added(c),
    {
        proof {
            use_type_invariant(&*self);
        }
        if self.next_new_line {
            self.upper = self.lower;
            self.lower = [0x20;8];
            self.cursor = 0;
            self.next_new_line = false;
            proof {
                assert(self.lower@ =~= blank_line());
            }
        }
        if self.cursor < 8 {
            self.lower[self.cursor] = c;
            self.cursor = self.cursor + 1;
        }
    }

    /// Writes the bytes of `s`: see `ConsoleView::written`.
    pub fn write_str(&mut self, s: &str)
        ensures
            final(self)@ == old(self)@.written(s.spec_bytes()),
    {
        let bytes = s.as_bytes();
        let mut i: usize = 0;
        while i < bytes.len()
            invariant
                i <= bytes@.len(),
                bytes@ == s.spec_bytes(),
                self@ == old(self)@.written(bytes@.subrange(0, i as int)),
            decreases bytes@.len() - i,
        {
            let c = bytes[i];
            proof {
                let before = bytes@.subrange(0, i as int);
                let after = bytes@.subrange(0, i + 1);
                assert(after.drop_last() =~= before);
                assert(after.last() == c);
            }
            if c == NEW_LINE {
                proof {
                    use_type_invariant(&*self);
                }
                self.next_new_line = true;
            } else {
                self.add_char(c);
            }
            i = i + 1;
        }
        proof {
            assert(bytes@.subrange(0, i as int) =~= s.spec_bytes());
        }
    }

    /// The two lines, the upper one first.
    pub fn lines(&self) -> (lines: ([u8; 8], [u8; 8]))
        ensures
            lines.0@ == self@.upper,
            lines.1@ == self@.lower,
    {
        (self.upper, self.lower)
    }
}

/// A message of up to sixteen bytes as two lines of eight: the first eight
/// bytes, then the next eight, each filled up with blanks. What comes after
/// the sixteenth byte is left out.
pub fn split_lines(message: &[u8]) -> (lines: ([u8; 8], [u8; 8]))
    ensures
        lines.0@ == Seq::new(
            8,
            |i: int|
                if i < message@.len() {
                    message@[i]
                } else {
                    0x20u8
                },
        ),
        lines.1@ == Seq::new(
            8,
            |i: int|
                if i + 8 < message@.len() {
                    message@[i + 8]
                } else {
                    0x20u8
                },
        ),
{
    let mut line0: [u8; 8] = [0x20;8];
    let mut line1: [u8; 8] = [0x20;8];
    let mut index: usize = 0;
    while index < message.len() && index < 16
        invariant
            index <= 16,
            index <= message@.len(),
            forall|i: int|
                0 <= i < 8 ==> #[trigger] line0@[i] == (if i < index {
                    message@[i]
                } else {
                    0x20u8
                }),
            forall|i: int|
                0 <= i < 8 ==> #[trigger] line1@[i] == (if i + 8 < index {
                    message@[i + 8]
                } else {
                    0x20u8
                }),
        decreases 16 - index,
    {
        if index < 8 {
            line0[index] = message[index];
        } else {
            line1[index - 8] = message[index];
        }
        index = index + 1;
    }
    proof {
        assert(line0@ =~= Seq::new(
            8,
            |i: int|
                if i < message@.len() {
                    message@[i]
                } else {
                    0x20u8
                },
        ));
        assert(line1@ =~= Seq::new(
            8,
            |i: int|
                if i + 8 < message@.len() {
                    message@[i + 8]
                } else {
                    0x20u8
                },
        ));
    }
    (line0, line1)
}

} // verus!

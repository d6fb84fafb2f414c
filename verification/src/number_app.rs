//! A small application state: four numbers from 0 to 255 and a cursor that
//! picks the one the up and down keys change.

use vstd::prelude::*;
use vstd::string::StringExecFns;

verus! {

/// A key of the four-way pad.
#[derive(Clone, Copy, PartialEq, Eq, Debug)]
pub enum Key {
    AllowUp,
    AllowDown,
    AllowLeft,
    AllowRight,
}

/// The text of one decimal digit.
pub open spec fn digit(d: int) -> Seq<char> {
    if d == 0 {
        "0"@
    } else if d == 1 {
        "1"@
    } else if d == 2 {
        "2"@
    } else if d == 3 {
        "3"@
    } else if d == 4 {
        "4"@
    } else if d == 5 {
        "5"@
    } else if d == 6 {
        "6"@
    } else if d == 7 {
        "7"@
    } else if d == 8 {
        "8"@
    } else {
        "9"@
    }
}

/// A number below 1000 as three digits, with leading zeros.
pub open spec fn three_digits(n: int) -> Seq<char> {
    digit(n / 100) + digit(n / 10 % 10) + digit(n % 10)
}

/// `n` spaces.
pub open spec fn spaces(n: nat) -> Seq<char>
    decreases n,
{
    if n == 0 {
        Seq::empty()
    } else {
        spaces((n - 1) as nat) + " "@
    }
}

/// The two lines that show the state: the four numbers in brackets, and
/// below them a caret under the last digit of the number the cursor is on.
pub open spec fn rendered(nums: Seq<u8>, cursor: int) -> Seq<char> {
    "["@ + three_digits(nums[0] as int) + ", "@ + three_digits(nums[1] as int) + ", "@
        + three_digits(nums[2] as int) + ", "@ + three_digits(nums[3] as int) + "]\n"@ + spaces(
        (3 + cursor * 5) as nat,
    ) + "^"@
}

/// The state after a key went down: up and down change the number under the
/// cursor and stop at 255 and 0, left and right move the cursor and stop at
/// the first and the last number.
pub open spec fn after_key(nums: Seq<u8>, cursor: int, key: Key) -> (Seq<u8>, int) {
    match key {
        Key::AllowUp => (
            if nums[cursor] < 255 {
                nums.update(cursor, (nums[cursor] + 1) as u8)
            } else {
                nums
            },
            cursor,
        ),
        Key::AllowDown => (
            if nums[cursor] > 0 {
                nums.update(cursor, (nums[cursor] - 1) as u8)
            } else {
                nums
            },
            cursor,
        ),
        Key::AllowLeft => (
            nums,
            if cursor > 0 {
                cursor - 1
            } else {
                cursor
            },
        ),
        Key::AllowRight => (
            nums,
            if cursor < 3 {
                cursor + 1
            } else {
                cursor
            },
        ),
    }
}

/// Four numbers and the cursor.
pub struct App {
    nums: [u8; 4],
    cursor: usize,
}

impl App {
    /// The four numbers.
    pub closed spec fn nums(&self) -> Seq<u8> {
        self.nums@
    }

    /// The place of the number the cursor is on.
    pub closed spec fn cursor(&self) -> int {
        self.cursor as int
    }

    /// The cursor is on one of the four numbers.
    #[verifier::type_invariant]
    closed spec fn cursor_in_range(&self) -> bool {
        self.cursor < 4
    }

    /// All four numbers are 0 and the cursor is on the first.
    pub fn init() -> (app: App)
        ensures
            app.nums() == seq![0u8, 0u8, 0u8, 0u8],
            app.cursor() == 0,
    {
        let app = App { nums: [0;4], cursor: 0 };
        proof {
            assert(app.nums() =~= seq![0u8, 0u8, 0u8, 0u8]);
        }
        app
    }

    /// Takes a key: see `after_key`.
    pub fn on_key_down(&mut self, key: Key)
        ensures
            (final(self).nums(), final(self).cursor()) == after_key(
                old(self).nums(),
                old(self).cursor(),
                key,
            ),
    {
        proof {
            use_type_invariant(&*self);
        }
        match key {
            Key::AllowUp => {
                if self.nums[self.cursor] < 255 {
                    self.nums[self.cursor] = self.nums[self.cursor] + 1;
                }
            },
            Key::AllowDown => {
                if self.nums[self.cursor] > 0 {
                    self.nums[self.cursor] = self.nums[self.cursor] - 1;
                }
            },
            Key::AllowLeft => {
                if self.cursor > 0 {
                    self.cursor = self.cursor - 1;
                }
            },
            Key::AllowRight => {
                if self.cursor < 3 {
                    self.cursor = self.cursor + 1;
                }
            },
        }
    }

    /// The state as two lines of text: see `rendered`.
    pub fn to_string(&self) -> (text: String)
        ensures
            text@ == rendered(self.nums(), self.cursor()),
    {
        proof {
            use_type_invariant(self);
        }
        let mut text = String::new();
        text.append("[");
        append_three_digits(&mut text, self.nums[0]);
        text.append(", ");
        append_three_digits(&mut text, self.nums[1]);
        text.append(", ");
        append_three_digits(&mut text, self.nums[2]);
        text.append(", ");
        append_three_digits(&mut text, self.nums[3]);
        text.append("]\n");
        let ghost head = text@;
        let pad = 3 + self.cursor * 5;
        let mut i: usize = 0;
        while i < pad
            invariant
                i <= pad,
                text@ == head + spaces(i as nat),
            decreases pad - i,
        {
            text.append(" ");
            i = i + 1;
            proof {
                assert(text@ =~= head + spaces(i as nat));
            }
        }
        text.append("^");
        proof {
            assert(text@ =~= rendered(self.nums(), self.cursor()));
        }
        text
    }
}

/// The text of one decimal digit.
fn digit_text(d: u8) -> (s: &'static str)
    requires
        d < 10,
    ensures
        s@ == digit(d as int),
{
    if d == 0 {
        "0"
    } else if d == 1 {
        "1"
    } else if d == 2 {
        "2"
    } else if d == 3 {
        "3"
    } else if d == 4 {
        "4"
    } else if d == 5 {
        "5"
    } else if d == 6 {
        "6"
    } else if d == 7 {
        "7"
    } else if d == 8 {
        "8"
    } else {
        "9"
    }
}

/// Appends `n` as three digits.
fn append_three_digits(text: &mut String, n: u8)
    ensures
        final(text)@ == old(text)@ + three_digits(n as int),
{
    text.append(digit_text(n / 100));
    text.append(digit_text(n / 10 % 10));
    text.append(digit_text(n % 10));
    proof {
        assert(final(text)@ =~= old(text)@ + three_digits(n as int));
    }
}

} // verus!

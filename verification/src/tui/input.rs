//! Key presses, stripped of terminal detail.

use vstd::prelude::*;

verus! {

/// Which way a wrapping cursor moved.
#[derive(Debug, Clone, Copy, PartialEq, Eq, Structural)]
pub enum Direction {
    Forward,
    Backward,
}

impl Direction {
    /// One position on from `at` within `len`, wrapping at both ends.
    pub open spec fn wrapped(self, at: nat, len: nat) -> nat {
        if len == 0 {
            0
        } else {
            let here = at % len;
            match self {
                Direction::Forward => if here + 1 == len {
                    0
                } else {
                    here + 1
                },
                Direction::Backward => if here == 0 {
                    (len - 1) as nat
                } else {
                    (here - 1) as nat
                },
            }
        }
    }

    /// Step `at` one position within `len`, wrapping at both ends. `len` of zero stays
    /// at zero.
    pub fn wrap(self, at: usize, len: usize) -> (r: usize)
        ensures
            r == self.wrapped(at as nat, len as nat),
            len > 0 ==> r < len,
    {
        if len == 0 {
            return 0;
        }
        let here: usize = at % len;
        match self {
            Direction::Forward => if here + 1 == len {
                0
            } else {
                here + 1
            },
            Direction::Backward => if here == 0 {
                len - 1
            } else {
                here - 1
            },
        }
    }
}

/// A wrapping cursor never leaves the list, and a step back undoes a step on.
pub proof fn a_wrapping_cursor_stays(at: nat, len: nat)
    requires
        at < len,
    ensures
        Direction::Forward.wrapped(at, len) < len,
        Direction::Backward.wrapped(at, len) < len,
        Direction::Backward.wrapped(Direction::Forward.wrapped(at, len), len) == at,
        Direction::Forward.wrapped(Direction::Backward.wrapped(at, len), len) == at,
{
    vstd::arithmetic::div_mod::lemma_small_mod(at, len);
    vstd::arithmetic::div_mod::lemma_small_mod(Direction::Forward.wrapped(at, len), len);
    vstd::arithmetic::div_mod::lemma_small_mod(Direction::Backward.wrapped(at, len), len);
}

/// A key of the keyboard, as far as the dashboard tells them apart.
#[derive(Debug, Clone, Copy, PartialEq, Eq, Structural)]
pub enum KeyCode {
    Up,
    Down,
    Left,
    Right,
    Enter,
    Esc,
    Tab,
    BackTab,
    Backspace,
    Char(char),
    /// Any other key.
    Other,
}

/// What the terminal reports of a key.
#[derive(Debug, Clone, Copy, PartialEq, Eq, Structural)]
pub struct KeyPress {
    pub code: KeyCode,
    /// The control key was down.
    pub control: bool,
    /// The key was let go.
    pub release: bool,
}

/// A key press. The reducers speak only this.
#[derive(Debug, Clone, Copy, PartialEq, Eq, Structural)]
pub enum Input {
    Up,
    Down,
    Left,
    Right,
    Enter,
    Escape,
    Tab,
    BackTab,
    Backspace,
    Char(char),
    /// Ctrl+C. Always leaves.
    Interrupt,
}

impl Input {
    /// What a key stands for, if anything: a release stands for nothing, Ctrl+C
    /// interrupts, and no other letter is read with control down.
    pub open spec fn of_key(key: KeyPress) -> Option<Input> {
        if key.release {
            None
        } else if key.control && (key.code == KeyCode::Char('c') || key.code == KeyCode::Char(
            'C',
        )) {
            Some(Input::Interrupt)
        } else {
            match key.code {
                KeyCode::Up => Some(Input::Up),
                KeyCode::Down => Some(Input::Down),
                KeyCode::Left => Some(Input::Left),
                KeyCode::Right => Some(Input::Right),
                KeyCode::Enter => Some(Input::Enter),
                KeyCode::Esc => Some(Input::Escape),
                KeyCode::Tab => Some(Input::Tab),
                KeyCode::BackTab => Some(Input::BackTab),
                KeyCode::Backspace => Some(Input::Backspace),
                KeyCode::Char(c) => if key.control {
                    None
                } else {
                    Some(Input::Char(c))
                },
                KeyCode::Other => None,
            }
        }
    }

    /// Translate a terminal key press.
    pub fn from_key(key: KeyPress) -> (r: Option<Input>)
        ensures
            r == Input::of_key(key),
    {
        if key.release {
            return None;
        }
        match key.code {
            KeyCode::Up => Some(Input::Up),
            KeyCode::Down => Some(Input::Down),
            KeyCode::Left => Some(Input::Left),
            KeyCode::Right => Some(Input::Right),
            KeyCode::Enter => Some(Input::Enter),
            KeyCode::Esc => Some(Input::Escape),
            KeyCode::Tab => Some(Input::Tab),
            KeyCode::BackTab => Some(Input::BackTab),
            KeyCode::Backspace => Some(Input::Backspace),
            KeyCode::Char(c) => {
                if !key.control {
                    Some(Input::Char(c))
                } else if c == 'c' || c == 'C' {
                    Some(Input::Interrupt)
                } else {
                    None
                }
            },
            KeyCode::Other => None,
        }
    }
}

/// A wrapping cursor goes to the place after or before its own, and from the last place to
/// the first and back.
pub proof fn where_a_wrapping_cursor_goes(at: nat, len: nat)
    requires
        at < len,
    ensures
        at + 1 < len ==> Direction::Forward.wrapped(at, len) == at + 1,
        at + 1 == len ==> Direction::Forward.wrapped(at, len) == 0,
        at > 0 ==> Direction::Backward.wrapped(at, len) == at - 1,
        at == 0 ==> Direction::Backward.wrapped(at, len) == len - 1,
{
    assert(at % len == at) by (nonlinear_arith)
        requires
            at < len,
    ;
}

/// What each key means: a key that is let go means nothing, control and C interrupt, no
/// other letter means anything with the control key down, and every other key is itself.
pub proof fn what_each_key_means(key: KeyPress, c: char)
    ensures
        key.release ==> Input::of_key(key) is None,
        !key.release && key.control && key.code == KeyCode::Char(c) ==> Input::of_key(key) == if c
            == 'c' || c == 'C' {
            Some(Input::Interrupt)
        } else {
            None
        },
        !key.release && !key.control && key.code == KeyCode::Char(c) ==> Input::of_key(key)
            == Some(Input::Char(c)),
        !key.release && key.code == KeyCode::Up ==> Input::of_key(key) == Some(Input::Up),
        !key.release && key.code == KeyCode::Down ==> Input::of_key(key) == Some(Input::Down),
        !key.release && key.code == KeyCode::Left ==> Input::of_key(key) == Some(Input::Left),
        !key.release && key.code == KeyCode::Right ==> Input::of_key(key) == Some(Input::Right),
        !key.release && key.code == KeyCode::Enter ==> Input::of_key(key) == Some(Input::Enter),
        !key.release && key.code == KeyCode::Esc ==> Input::of_key(key) == Some(Input::Escape),
        !key.release && key.code == KeyCode::Tab ==> Input::of_key(key) == Some(Input::Tab),
        !key.release && key.code == KeyCode::BackTab ==> Input::of_key(key) == Some(
            Input::BackTab,
        ),
        !key.release && key.code == KeyCode::Backspace ==> Input::of_key(key) == Some(
            Input::Backspace,
        ),
        key.code == KeyCode::Other ==> Input::of_key(key) is None,
{
}

} // verus!

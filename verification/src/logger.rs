//! The plain logger: every record is let through and written as one line.

use vstd::prelude::*;
use vstd::string::*;

verus! {

/// A logger that lets every record through.
#[derive(Debug, Clone, Copy, PartialEq, Eq, Structural)]
pub struct Logger;

/// `count` spaces.
pub open spec fn spaces(count: nat) -> Seq<char> {
    Seq::new(count, |i: int| ' ')
}

/// A level name, filled up with spaces to five characters where it is
/// shorter.
pub open spec fn padded_level(level: Seq<char>) -> Seq<char> {
    if level.len() < 5 {
        level + spaces((5 - level.len()) as nat)
    } else {
        level
    }
}

/// The line that a record is written as: the padded level, the module path
/// in square brackets (empty where the record has none), and the message.
pub open spec fn spec_line(level: Seq<char>, module: Option<&str>, message: Seq<char>) -> Seq<
    char,
> {
    let path = match module {
        Some(path) => path@,
        None => Seq::<char>::empty(),
    };
    padded_level(level) + seq![' ', '['] + path + seq![']', ' '] + message
}

impl Logger {
    /// Whether a record is written: always.
    pub fn enabled(&self) -> (enabled: bool)
        ensures
            enabled,
    {
        true
    }

    /// The line that a record is written as.
    pub fn log(&self, level: &str, module: Option<&str>, message: &str) -> (line: String)
        ensures
            line@ == spec_line(level@, module, message@),
    {
        proof {
            reveal_strlit(" ");
            reveal_strlit(" [");
            reveal_strlit("] ");
        }
        let mut line = String::from_str(level);
        let mut width = level.unicode_len();
        assert(line@ =~= level@ + spaces(0));
        while width < 5
            invariant
                width >= level@.len(),
                width <= 5 || width == level@.len(),
                " "@ == seq![' '],
                line@ == level@ + spaces((width - level@.len()) as nat),
            decreases 5 - width,
        {
            line.append(" ");
            width += 1;
            assert(line@ =~= level@ + spaces((width - level@.len()) as nat));
        }
        assert(line@ =~= padded_level(level@));
        line.append(" [");
        if let Some(path) = module {
            line.append(path);
        }
        line.append("] ");
        line.append(message);
        assert(line@ =~= spec_line(level@, module, message@));
        line
    }

    /// Writes what is buffered: nothing ever is.
    pub fn flush(&self) {
    }
}

} // verus!

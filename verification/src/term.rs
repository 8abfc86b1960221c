//! Text written to the host's own terminal.

use vstd::prelude::*;
use vstd::string::*;

verus! {

/// The prompt shown while the host reads a line.
pub const PROMPT: &'static str = "\x1b[1m> \x1b[0m";

/// Turns on the colour of warnings.
pub const WARN_STYLE: &'static str = "\x1b[92m";

/// Turns on the colour of errors.
pub const ERROR_STYLE: &'static str = "\x1b[91m";

/// Turns on the colour of room notices.
pub const NOTICE_STYLE: &'static str = "\x1b[33m";

/// Turns colours and styles off again.
pub const RESET_STYLE: &'static str = "\x1b[0m";

/// Words that open the notice of a new room name.
pub const ROOM_NOTICE: &'static str = "setting room name to ";

/// `msg` between `style` and the reset sequence.
pub fn styled(style: &str, msg: &str) -> (r: String)
    ensures
        r@ == style@ + msg@ + RESET_STYLE@,
{
    let mut s = String::from_str(style);
    s.append(msg);
    s.append(RESET_STYLE);
    s
}

/// A warning as the host prints it.
pub fn warning_text(msg: &str) -> (r: String)
    ensures
        r@ == WARN_STYLE@ + msg@ + RESET_STYLE@,
{
    styled(WARN_STYLE, msg)
}

/// An error as the host prints it.
pub fn error_text(msg: &str) -> (r: String)
    ensures
        r@ == ERROR_STYLE@ + msg@ + RESET_STYLE@,
{
    styled(ERROR_STYLE, msg)
}

/// The notice that the room name is now `name`.
pub fn room_notice(name: &str) -> (r: String)
    ensures
        r@ == NOTICE_STYLE@ + ROOM_NOTICE@ + name@ + RESET_STYLE@,
{
    let mut s = String::from_str(NOTICE_STYLE);
    s.append(ROOM_NOTICE);
    s.append(name);
    s.append(RESET_STYLE);
    s
}

/// `s` with one trailing line feed removed, if it ends with one.
pub open spec fn without_newline(s: Seq<char>) -> Seq<char> {
    if s.len() > 0 && s.last() == '\n' {
        s.drop_last()
    } else {
        s
    }
}

/// Removing the line feed keeps everything before it: the line as read is
/// the result, or the result followed by one line feed, and it is the
/// latter exactly when the line ends with a line feed.
pub proof fn lemma_trim_keeps_the_rest(s: Seq<char>)
    ensures
        s.len() > 0 && s[s.len() - 1] == '\n' ==> without_newline(s).push('\n') == s,
        !(s.len() > 0 && s[s.len() - 1] == '\n') ==> without_newline(s) == s,
        without_newline(s).len() + 1 == s.len() || without_newline(s).len() == s.len(),
        forall|i: int| 0 <= i < without_newline(s).len() ==> #[trigger] without_newline(s)[i] == s[i],
{
    if s.len() > 0 && s[s.len() - 1] == '\n' {
        assert(s.drop_last().push('\n') =~= s);
    }
}

/// A line as read, with its line feed removed.
pub fn trim_newline(line: String) -> (r: String)
    ensures
        r@ == without_newline(line@),
{
    let n = line.as_str().unicode_len();
    if n > 0 && line.as_str().get_char(n - 1) == '\n' {
        let head = line.as_str().substring_char(0, n - 1).to_owned();
        proof {
            assert(line@.subrange(0, n - 1) =~= line@.drop_last());
        }
        head
    } else {
        line
    }
}

/// The decimal digit `d`.
pub open spec fn digit_char(d: nat) -> char {
    if d == 0 {
        '0'
    } else if d == 1 {
        '1'
    } else if d == 2 {
        '2'
    } else if d == 3 {
        '3'
    } else if d == 4 {
        '4'
    } else if d == 5 {
        '5'
    } else if d == 6 {
        '6'
    } else if d == 7 {
        '7'
    } else if d == 8 {
        '8'
    } else {
        '9'
    }
}

/// `n` written in decimal, without leading zeros.
pub open spec fn decimal(n: nat) -> Seq<char>
    decreases n,
{
    if n < 10 {
        seq![digit_char(n)]
    } else {
        decimal(n / 10).push(digit_char(n % 10))
    }
}

/// The text of one decimal digit.
fn digit_text(d: usize) -> (r: &'static str)
    requires
        d < 10,
    ensures
        r@ == seq![digit_char(d as nat)],
{
    proof {
        reveal_strlit("0");
        reveal_strlit("1");
        reveal_strlit("2");
        reveal_strlit("3");
        reveal_strlit("4");
        reveal_strlit("5");
        reveal_strlit("6");
        reveal_strlit("7");
        reveal_strlit("8");
        reveal_strlit("9");
    }
    if d == 0 {
        "0"
    } else if d == 1 {
        "1"
    } else if d == 2 {
        "2"
    } else if d == 3 {
        "3"
    } else if d == 4 {
        "4"
    } else if d == 5 {
        "5"
    } else if d == 6 {
        "6"
    } else if d == 7 {
        "7"
    } else if d == 8 {
        "8"
    } else {
        "9"
    }
}

/// `n` written in decimal, as `{}` formats it.
pub fn decimal_text(n: usize) -> (r: String)
    ensures
        r@ == decimal(n as nat),
    decreases n,
{
    if n < 10 {
        String::from_str(digit_text(n))
    } else {
        let mut s = decimal_text(n / 10);
        s.append(digit_text(n % 10));
        proof {
            assert(s@ =~= decimal((n / 10) as nat).push(digit_char((n % 10) as nat)));
        }
        s
    }
}

} // verus!

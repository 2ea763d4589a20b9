//! The command vocabulary: what a keybinding or an IPC client can ask
//! the manager to do, and the parsers that turn command tokens and
//! arguments into typed values.
//!
//! A token that does not parse is reported as `None`; the caller
//! treats the command as a no-op, never as a failure.

use vstd::prelude::*;

use crate::layout::Layout;

verus! {

/// A movement direction, parsed case-insensitively from a command
/// argument.
#[derive(Clone, Copy, Debug, PartialEq, Eq, Structural)]
pub enum Movement {
    Left,
    Right,
    Up,
    Down,
}

/// The closed set of command kinds the manager understands.
#[derive(Clone, Copy, Debug, PartialEq, Eq, Structural)]
pub enum WmCommands {
    Focus,
    Move,
    Kill,
    Layout,
    NextLayout,
    GoToWorkspace,
    NewWorkspace,
    Exec,
    ExecAlways,
    Restart,
    Quit,
}

/// A workspace-switch target: a neighbour of the active workspace or
/// an explicit workspace id.
#[derive(Clone, Copy, Debug, PartialEq, Eq, Structural)]
pub enum GoToWorkspace {
    Next,
    Previous,
    Index(u16),
}

/// ASCII lower-casing of a single character; anything outside
/// `'A'..='Z'` is left alone.
pub open spec fn lower_char(c: char) -> char {
    match c {
        'A' => 'a',
        'B' => 'b',
        'C' => 'c',
        'D' => 'd',
        'E' => 'e',
        'F' => 'f',
        'G' => 'g',
        'H' => 'h',
        'I' => 'i',
        'J' => 'j',
        'K' => 'k',
        'L' => 'l',
        'M' => 'm',
        'N' => 'n',
        'O' => 'o',
        'P' => 'p',
        'Q' => 'q',
        'R' => 'r',
        'S' => 's',
        'T' => 't',
        'U' => 'u',
        'V' => 'v',
        'W' => 'w',
        'X' => 'x',
        'Y' => 'y',
        'Z' => 'z',
        _ => c,
    }
}

/// Case-insensitive equality of two character sequences.
pub open spec fn eq_ignore_case(s: Seq<char>, t: Seq<char>) -> bool {
    s.len() == t.len() && forall|i: int|
        0 <= i < s.len() ==> lower_char(s[i]) == lower_char(t[i])
}

/// The movement named by an argument, if any.
pub open spec fn movement_of(s: Seq<char>) -> Option<Movement> {
    if eq_ignore_case(s, seq!['l', 'e', 'f', 't']) {
        Some(Movement::Left)
    } else if eq_ignore_case(s, seq!['r', 'i', 'g', 'h', 't']) {
        Some(Movement::Right)
    } else if eq_ignore_case(s, seq!['u', 'p']) {
        Some(Movement::Up)
    } else if eq_ignore_case(s, seq!['d', 'o', 'w', 'n']) {
        Some(Movement::Down)
    } else {
        None
    }
}

/// The command kind named by a token, if any.
pub open spec fn command_of(s: Seq<char>) -> Option<WmCommands> {
    if eq_ignore_case(s, seq!['f', 'o', 'c', 'u', 's']) {
        Some(WmCommands::Focus)
    } else if eq_ignore_case(s, seq!['m', 'o', 'v', 'e']) {
        Some(WmCommands::Move)
    } else if eq_ignore_case(s, seq!['k', 'i', 'l', 'l']) {
        Some(WmCommands::Kill)
    } else if eq_ignore_case(s, seq!['l', 'a', 'y', 'o', 'u', 't']) {
        Some(WmCommands::Layout)
    } else if eq_ignore_case(s, seq!['n', 'e', 'x', 't', 'l', 'a', 'y', 'o', 'u', 't']) {
        Some(WmCommands::NextLayout)
    } else if eq_ignore_case(s, seq!['g', 'o', 't', 'o', 'w', 'o', 'r', 'k', 's', 'p', 'a', 'c', 'e']) {
        Some(WmCommands::GoToWorkspace)
    } else if eq_ignore_case(s, seq!['n', 'e', 'w', 'w', 'o', 'r', 'k', 's', 'p', 'a', 'c', 'e']) {
        Some(WmCommands::NewWorkspace)
    } else if eq_ignore_case(s, seq!['e', 'x', 'e', 'c']) {
        Some(WmCommands::Exec)
    } else if eq_ignore_case(s, seq!['e', 'x', 'e', 'c', 'a', 'l', 'w', 'a', 'y', 's']) {
        Some(WmCommands::ExecAlways)
    } else if eq_ignore_case(s, seq!['r', 'e', 's', 't', 'a', 'r', 't']) {
        Some(WmCommands::Restart)
    } else if eq_ignore_case(s, seq!['q', 'u', 'i', 't']) {
        Some(WmCommands::Quit)
    } else {
        None
    }
}

/// ASCII lower-casing, executable form.
pub fn lower_char_exec(c: char) -> (r: char)
    ensures
        r == lower_char(c),
{
    match c {
        'A' => 'a',
        'B' => 'b',
        'C' => 'c',
        'D' => 'd',
        'E' => 'e',
        'F' => 'f',
        'G' => 'g',
        'H' => 'h',
        'I' => 'i',
        'J' => 'j',
        'K' => 'k',
        'L' => 'l',
        'M' => 'm',
        'N' => 'n',
        'O' => 'o',
        'P' => 'p',
        'Q' => 'q',
        'R' => 'r',
        'S' => 's',
        'T' => 't',
        'U' => 'u',
        'V' => 'v',
        'W' => 'w',
        'X' => 'x',
        'Y' => 'y',
        'Z' => 'z',
        _ => c,
    }
}

/// Case-insensitive string comparison, executable form.
pub fn eq_ignore_case_str(s: &str, t: &str) -> (r: bool)
    ensures
        r == eq_ignore_case(s@, t@),
{
    let ns = s.unicode_len();
    let nt = t.unicode_len();
    if ns != nt {
        return false;
    }
    for i in 0..ns
        invariant
            ns == s@.len(),
            ns == t@.len(),
            forall|k: int| 0 <= k < i ==> lower_char(s@[k]) == lower_char(t@[k]),
    {
        let cs = s.get_char(i);
        let ct = t.get_char(i);
        if lower_char_exec(cs) != lower_char_exec(ct) {
            return false;
        }
    }
    true
}

/// The layout mode named by an argument, if any.
pub open spec fn layout_of(s: Seq<char>) -> Option<Layout> {
    if eq_ignore_case(s, seq!['t', 'i', 'l', 'i', 'n', 'g']) {
        Some(Layout::Tiling)
    } else {
        None
    }
}

/// True when every character of the sequence is a decimal digit and
/// there is at least one.
pub open spec fn is_digits(s: Seq<char>) -> bool {
    s.len() > 0 && forall|i: int| 0 <= i < s.len() ==> '0' <= #[trigger] s[i] <= '9'
}

/// The number a sequence of decimal digits denotes.
pub open spec fn digits_val(s: Seq<char>) -> int
    decreases s.len(),
{
    if s.len() == 0 {
        0
    } else {
        digits_val(s.drop_last()) * 10 + (s.last() as int - '0' as int)
    }
}

/// The workspace id a numeric argument denotes: all digits, and the
/// value fits a 16-bit id.
pub open spec fn parsed_u16(s: Seq<char>) -> Option<u16> {
    if is_digits(s) && digits_val(s) <= 0xFFFF {
        Some(digits_val(s) as u16)
    } else {
        None
    }
}

/// A digit string's value never shrinks as more digits arrive.
proof fn lemma_digits_val_monotone(s: Seq<char>, i: int)
    requires
        is_digits(s),
        0 <= i <= s.len(),
    ensures
        digits_val(s.take(i)) <= digits_val(s),
        digits_val(s) >= 0,
    decreases s.len() - i,
{
    if i == s.len() {
        assert(s.take(i) =~= s);
        lemma_digits_val_nonneg(s);
    } else {
        lemma_digits_val_monotone(s, i + 1);
        let t = s.take(i + 1);
        assert(t.drop_last() =~= s.take(i));
        assert(t.last() == s[i]);
        lemma_digits_val_nonneg(s.take(i));
        assert(digits_val(s.take(i)) <= digits_val(t)) by {
            assert(digits_val(t) == digits_val(s.take(i)) * 10 + (s[i] as int - '0' as int));
            assert(digits_val(s.take(i)) * 10 >= digits_val(s.take(i))) by (nonlinear_arith)
                requires digits_val(s.take(i)) >= 0;
            assert(s[i] as int - '0' as int >= 0);
        }
    }
}

/// A digit string's value is never negative.
proof fn lemma_digits_val_nonneg(s: Seq<char>)
    requires
        forall|i: int| 0 <= i < s.len() ==> '0' <= #[trigger] s[i] <= '9',
    ensures
        digits_val(s) >= 0,
    decreases s.len(),
{
    if s.len() > 0 {
        lemma_digits_val_nonneg(s.drop_last());
        assert(digits_val(s.drop_last()) * 10 >= 0) by (nonlinear_arith)
            requires digits_val(s.drop_last()) >= 0;
    }
}

/// Parses a decimal workspace id.  Anything that is not all digits,
/// or does not fit a 16-bit id, is `None`.
pub fn parse_u16(s: &str) -> (r: Option<u16>)
    ensures
        r == parsed_u16(s@),
{
    let n = s.unicode_len();
    if n == 0 {
        return None;
    }
    let mut acc: u32 = 0;
    let mut i: usize = 0;
    while i < n
        invariant
            0 < n == s@.len(),
            0 <= i <= n,
            forall|k: int| 0 <= k < i ==> '0' <= #[trigger] s@[k] <= '9',
            acc as int == digits_val(s@.take(i as int)),
            acc <= 0xFFFF,
        decreases n - i,
    {
        let c = s.get_char(i);
        if !(c >= '0' && c <= '9') {
            proof {
                assert(!is_digits(s@));
            }
            return None;
        }
        let d: u32 = (c as u32) - 48;
        let next: u32 = acc * 10 + d;
        proof {
            let t = s@.take(i as int + 1);
            assert(t.drop_last() =~= s@.take(i as int));
            assert(t.last() == s@[i as int]);
            assert(next as int == digits_val(t));
        }
        if next > 0xFFFF {
            proof {
                if is_digits(s@) {
                    lemma_digits_val_monotone(s@, i as int + 1);
                }
            }
            return None;
        }
        acc = next;
        i = i + 1;
    }
    proof {
        assert(s@.take(n as int) =~= s@);
        assert(is_digits(s@));
    }
    Some(acc as u16)
}

impl Layout {
    /// Parses a layout mode from its case-insensitive token.
    pub fn parse(s: &str) -> (l: Option<Layout>)
        ensures
            l == layout_of(s@),
    {
        proof {
            reveal_strlit("tiling");
            assert("tiling"@ =~= seq!['t', 'i', 'l', 'i', 'n', 'g']);
        }
        if eq_ignore_case_str(s, "tiling") {
            Some(Layout::Tiling)
        } else {
            None
        }
    }
}

/// The switch target an optional argument denotes: the token `next`
/// or `previous`, or an explicit decimal workspace id.
pub open spec fn goto_of(s: Option<Seq<char>>) -> Option<GoToWorkspace> {
    match s {
        None => None::<GoToWorkspace>,
        Some(t) => {
            if eq_ignore_case(t, seq!['n', 'e', 'x', 't']) {
                Some(GoToWorkspace::Next)
            } else if eq_ignore_case(t, seq!['p', 'r', 'e', 'v', 'i', 'o', 'u', 's']) {
                Some(GoToWorkspace::Previous)
            } else {
                match parsed_u16(t) {
                    Some(n) => Some(GoToWorkspace::Index(n)),
                    None => None::<GoToWorkspace>,
                }
            }
        },
    }
}

impl GoToWorkspace {
    /// Parses a workspace-switch target from an optional argument.
    /// A missing or unrecognisable argument is `None`.
    pub fn parse(args: &Option<String>) -> (g: Option<GoToWorkspace>)
        ensures
            g == goto_of(
                match *args {
                    Some(ref s) => Some(s@),
                    None => None::<Seq<char>>,
                },
            ),
    {
        let s = match args {
            Some(s) => s,
            None => {
                return None;
            },
        };
        proof {
            reveal_strlit("next");
            reveal_strlit("previous");
            assert("next"@ =~= seq!['n', 'e', 'x', 't']);
            assert("previous"@ =~= seq!['p', 'r', 'e', 'v', 'i', 'o', 'u', 's']);
        }
        if eq_ignore_case_str(s.as_str(), "next") {
            Some(GoToWorkspace::Next)
        } else if eq_ignore_case_str(s.as_str(), "previous") {
            Some(GoToWorkspace::Previous)
        } else {
            match parse_u16(s.as_str()) {
                Some(n) => Some(GoToWorkspace::Index(n)),
                None => None,
            }
        }
    }
}

impl Movement {
    /// Parses a movement direction from a case-insensitive token in
    /// left, right, up, down.  Anything else is `None`.
    pub fn parse(s: &str) -> (m: Option<Movement>)
        ensures
            m == movement_of(s@),
    {
        proof {
            reveal_strlit("left");
            reveal_strlit("right");
            reveal_strlit("up");
            reveal_strlit("down");
            assert("left"@ =~= seq!['l', 'e', 'f', 't']);
            assert("right"@ =~= seq!['r', 'i', 'g', 'h', 't']);
            assert("up"@ =~= seq!['u', 'p']);
            assert("down"@ =~= seq!['d', 'o', 'w', 'n']);
        }
        if eq_ignore_case_str(s, "left") {
            Some(Movement::Left)
        } else if eq_ignore_case_str(s, "right") {
            Some(Movement::Right)
        } else if eq_ignore_case_str(s, "up") {
            Some(Movement::Up)
        } else if eq_ignore_case_str(s, "down") {
            Some(Movement::Down)
        } else {
            None
        }
    }
}

impl WmCommands {
    /// Parses a command kind from its case-insensitive token.
    pub fn parse(s: &str) -> (c: Option<WmCommands>)
        ensures
            c == command_of(s@),
    {
        proof {
            reveal_strlit("focus");
            reveal_strlit("move");
            reveal_strlit("kill");
            reveal_strlit("layout");
            reveal_strlit("nextlayout");
            reveal_strlit("gotoworkspace");
            reveal_strlit("newworkspace");
            reveal_strlit("exec");
            reveal_strlit("execalways");
            reveal_strlit("restart");
            reveal_strlit("quit");
            assert("focus"@ =~= seq!['f', 'o', 'c', 'u', 's']);
            assert("move"@ =~= seq!['m', 'o', 'v', 'e']);
            assert("kill"@ =~= seq!['k', 'i', 'l', 'l']);
            assert("layout"@ =~= seq!['l', 'a', 'y', 'o', 'u', 't']);
            assert("nextlayout"@ =~= seq!['n', 'e', 'x', 't', 'l', 'a', 'y', 'o', 'u', 't']);
            assert("gotoworkspace"@ =~= seq!['g', 'o', 't', 'o', 'w', 'o', 'r', 'k', 's', 'p', 'a', 'c', 'e']);
            assert("newworkspace"@ =~= seq!['n', 'e', 'w', 'w', 'o', 'r', 'k', 's', 'p', 'a', 'c', 'e']);
            assert("exec"@ =~= seq!['e', 'x', 'e', 'c']);
            assert("execalways"@ =~= seq!['e', 'x', 'e', 'c', 'a', 'l', 'w', 'a', 'y', 's']);
            assert("restart"@ =~= seq!['r', 'e', 's', 't', 'a', 'r', 't']);
            assert("quit"@ =~= seq!['q', 'u', 'i', 't']);
        }
        if eq_ignore_case_str(s, "focus") {
            Some(WmCommands::Focus)
        } else if eq_ignore_case_str(s, "move") {
            Some(WmCommands::Move)
        } else if eq_ignore_case_str(s, "kill") {
            Some(WmCommands::Kill)
        } else if eq_ignore_case_str(s, "layout") {
            Some(WmCommands::Layout)
        } else if eq_ignore_case_str(s, "nextlayout") {
            Some(WmCommands::NextLayout)
        } else if eq_ignore_case_str(s, "gotoworkspace") {
            Some(WmCommands::GoToWorkspace)
        } else if eq_ignore_case_str(s, "newworkspace") {
            Some(WmCommands::NewWorkspace)
        } else if eq_ignore_case_str(s, "exec") {
            Some(WmCommands::Exec)
        } else if eq_ignore_case_str(s, "execalways") {
            Some(WmCommands::ExecAlways)
        } else if eq_ignore_case_str(s, "restart") {
            Some(WmCommands::Restart)
        } else {
            if eq_ignore_case_str(s, "quit") {
                Some(WmCommands::Quit)
            } else {
                None
            }
        }
    }
}

} // verus!

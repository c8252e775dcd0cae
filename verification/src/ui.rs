//! Pure projection of controller state into the text the two panes show.
//!
//! Widget construction and drawing live with the host; these functions only
//! compute, per mode, the strings it lays out, as a pure function of the
//! session state at the moment of the draw call.

use vstd::prelude::*;
use vstd::string::StrSliceExecFns;
use vstd::string::StringExecFns;

verus! {

/// The character for one decimal digit.
pub open spec fn digit_char(d: nat) -> char {
    if d == 0 {
        '0'
    } else if d == 1 {
        '1'
    } else if d == 2 {
        '2'
    } else if d == 3 {
        '3'
    } else if d == 4 {
        '4'
    } else if d == 5 {
        '5'
    } else if d == 6 {
        '6'
    } else if d == 7 {
        '7'
    } else if d == 8 {
        '8'
    } else {
        '9'
    }
}

/// The usual decimal rendering of `n`: most significant digit first, no
/// leading zeros (a single zero for zero itself).
pub open spec fn decimal_rep(n: nat) -> Seq<char>
    decreases n,
{
    if n < 10 {
        seq![digit_char(n)]
    } else {
        decimal_rep(n / 10).push(digit_char(n % 10))
    }
}

fn digit_str(d: usize) -> (r: &'static str)
    requires
        d < 10,
    ensures
        r@ =~= seq![digit_char(d as nat)],
{
    proof {
        reveal_strlit("0");
        reveal_strlit("1");
        reveal_strlit("2");
        reveal_strlit("3");
        reveal_strlit("4");
        reveal_strlit("5");
        reveal_strlit("6");
        reveal_strlit("7");
        reveal_strlit("8");
        reveal_strlit("9");
    }
    match d {
        0 => "0",
        1 => "1",
        2 => "2",
        3 => "3",
        4 => "4",
        5 => "5",
        6 => "6",
        7 => "7",
        8 => "8",
        _ => "9",
    }
}

/// Decimal rendering of `n`, digit by digit.
pub fn usize_to_decimal(n: usize) -> (r: String)
    ensures
        r@ == decimal_rep(n as nat),
    decreases n,
{
    if n < 10 {
        let s = digit_str(n);
        let r = s.to_owned();
        proof {
            assert(r@ =~= decimal_rep(n as nat));
        }
        r
    } else {
        let mut s = usize_to_decimal(n / 10);
        let d = digit_str(n % 10);
        s.append(d);
        proof {
            assert(s@ =~= decimal_rep(n as nat));
        }
        s
    }
}

/// The text of one selection row: 1-based position, a separator, the name.
pub open spec fn selection_line(pos: nat, name: Seq<char>) -> Seq<char> {
    decimal_rep(pos) + ": "@ + name
}

/// The rows of the interface list, in order: `i + 1: name` for each entry.
/// The host highlights the row at the selection cursor when it draws them.
pub fn selection_lines(interfaces: &Vec<String>) -> (r: Vec<String>)
    ensures
        r.deep_view() == Seq::new(
            interfaces@.len(),
            |i: int| selection_line((i + 1) as nat, interfaces@[i]@),
        ),
{
    let mut out: Vec<String> = Vec::new();
    let mut i: usize = 0;
    while i < interfaces.len()
        invariant
            i <= interfaces@.len(),
            out@.len() == i,
            forall|j: int| #![auto]
                0 <= j < i ==> out@[j]@ == selection_line((j + 1) as nat, interfaces@[j]@),
        decreases interfaces@.len() - i,
    {
        let mut line = usize_to_decimal(i + 1);
        line.append(": ");
        line.append(interfaces[i].as_str());
        out.push(line);
        i = i + 1;
    }
    proof {
        assert(out.deep_view() =~= Seq::new(
            interfaces@.len(),
            |i: int| selection_line((i + 1) as nat, interfaces@[i]@),
        ));
    }
    out
}

/// The one-line hint below the interface list.
pub fn selection_hint() -> (r: &'static str)
    ensures
        r@ == "\u{2191}\u{2193} to select, Enter to confirm, q to quit"@,
{
    "\u{2191}\u{2193} to select, Enter to confirm, q to quit"
}

/// The status line while capturing on `name`.
pub open spec fn capturing_status_text(name: Seq<char>) -> Seq<char> {
    "interface: "@ + name + "   \u{25cf} capturing"@
}

/// The one-line status while capturing: the active interface name and a
/// capturing indicator. A session without an active interface shows a
/// placeholder name.
pub fn capturing_status(active_interface: &Option<String>) -> (r: String)
    ensures
        active_interface matches Some(name) ==> r@ == capturing_status_text(name@),
        active_interface is None ==> r@ == capturing_status_text("unknown"@),
{
    let mut s = String::from_str("interface: ");
    match active_interface {
        Some(name) => s.append(name.as_str()),
        None => s.append("unknown"),
    }
    s.append("   \u{25cf} capturing");
    s
}

} // verus!

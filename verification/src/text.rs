//! Plain-text forms of phases and contacts.
use crate::contact::TouchPoint;
use crate::state::State;
use vstd::prelude::*;
use vstd::string::StringExecFns;

verus! {

/// The character of a decimal digit.
pub open spec fn digit(d: nat) -> char {
    ((48 + d) as u8) as char
}

/// The decimal digits of `n`, most significant first, without leading zeros.
pub open spec fn digits(n: nat) -> Seq<char>
    decreases n,
{
    if n < 10 {
        seq![digit(n)]
    } else {
        digits(n / 10).push(digit(n % 10))
    }
}

/// `n` in decimal, with a minus sign in front of a negative number.
pub open spec fn decimal(n: int) -> Seq<char> {
    if n < 0 {
        seq!['-'] + digits((-n) as nat)
    } else {
        digits(n as nat)
    }
}

/// The text of a contact: its id, then its position in round brackets.
pub open spec fn contact_text(id: int, x: int, y: int) -> Seq<char> {
    decimal(id) + seq![' ', '('] + decimal(x) + seq![','] + decimal(y) + seq![')']
}

/// The name of a phase.
pub open spec fn phase_name(phase: State) -> Seq<char> {
    match phase {
        State::Idle => "Idle"@,
        State::Preparing => "Preparing"@,
        State::Selecting => "Selecting"@,
        State::Revealing => "Revealing"@,
        State::Resetting => "Resetting"@,
    }
}

/// One decimal digit as text.
fn digit_text(d: u8) -> (text: &'static str)
    requires
        d < 10,
    ensures
        text@ == seq![digit(d as nat)],
{
    proof {
        reveal_strlit("0");
        reveal_strlit("1");
        reveal_strlit("2");
        reveal_strlit("3");
        reveal_strlit("4");
        reveal_strlit("5");
        reveal_strlit("6");
        reveal_strlit("7");
        reveal_strlit("8");
        reveal_strlit("9");
    }
    match d {
        0 => "0",
        1 => "1",
        2 => "2",
        3 => "3",
        4 => "4",
        5 => "5",
        6 => "6",
        7 => "7",
        8 => "8",
        _ => "9",
    }
}

/// The digits of `n`, or nothing where `n` is zero: what is still to come in
/// front of the digits already split off.
spec fn leading(n: nat) -> Seq<char> {
    if n > 0 {
        digits(n)
    } else {
        Seq::empty()
    }
}

/// The characters of the digits in `low`, last digit first.
spec fn trailing(low: Seq<u8>) -> Seq<char> {
    Seq::new(low.len(), |i: int| digit(low[low.len() - 1 - i] as nat))
}

/// Appends `n` in decimal to `out`.
pub fn push_decimal(out: &mut String, n: i32)
    ensures
        final(out)@ == old(out)@ + decimal(n as int),
{
    if n < 0 {
        proof {
            reveal_strlit("-");
        }
        out.append("-");
    }
    let ghost signed = out@;
    let magnitude: u64 = if n < 0 {
        (-(n as i64)) as u64
    } else {
        n as u64
    };
    let mut low: Vec<u8> = Vec::new();
    low.push((magnitude % 10) as u8);
    let mut rest: u64 = magnitude / 10;
    while rest > 0
        invariant
            low.len() > 0,
            forall|i: int| 0 <= i < low.len() ==> low[i] < 10,
            digits(magnitude as nat) == leading(rest as nat) + trailing(low@),
        decreases rest,
    {
        low.push((rest % 10) as u8);
        rest = rest / 10;
    }
    let mut left: usize = low.len();
    while left > 0
        invariant
            left <= low.len(),
            forall|i: int| 0 <= i < low.len() ==> low[i] < 10,
            out@ == signed + trailing(low@).take(low.len() - left),
        decreases left,
    {
        left -= 1;
        out.append(digit_text(low[left]));
    }
}

impl State {
    /// The name of the phase.
    pub fn to_string(&self) -> (name: String)
        ensures
            name@ == phase_name(*self),
    {
        match self {
            State::Idle => String::from_str("Idle"),
            State::Preparing => String::from_str("Preparing"),
            State::Selecting => String::from_str("Selecting"),
            State::Revealing => String::from_str("Revealing"),
            State::Resetting => String::from_str("Resetting"),
        }
    }
}

impl TouchPoint {
    /// The contact as text: `id (x,y)`.
    pub fn to_string(&self) -> (text: String)
        ensures
            text@ == contact_text(self.id as int, self.x as int, self.y as int),
    {
        proof {
            reveal_strlit(" (");
            reveal_strlit(",");
            reveal_strlit(")");
        }
        let mut text = String::new();
        push_decimal(&mut text, self.id);
        text.append(" (");
        push_decimal(&mut text, self.x);
        text.append(",");
        push_decimal(&mut text, self.y);
        text.append(")");
        text
    }
}

} // verus!

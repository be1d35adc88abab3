//! The text that shows the score.
use vstd::prelude::*;
use vstd::string::StringExecFns;

verus! {

/// The character for a digit from 0 to 9.
pub open spec fn digit_char(d: int) -> char {
    if d == 0 {
        '0'
    } else if d == 1 {
        '1'
    } else if d == 2 {
        '2'
    } else if d == 3 {
        '3'
    } else if d == 4 {
        '4'
    } else if d == 5 {
        '5'
    } else if d == 6 {
        '6'
    } else if d == 7 {
        '7'
    } else if d == 8 {
        '8'
    } else {
        '9'
    }
}

/// The decimal digits of a natural number, the most significant first,
/// without leading zeros; "0" for zero.
pub open spec fn digits(n: nat) -> Seq<char>
    decreases n,
{
    if n < 10 {
        seq![digit_char(n as int)]
    } else {
        digits(n / 10).push(digit_char((n % 10) as int))
    }
}

/// A whole number in decimal, with a minus sign in front if it is below
/// zero.
pub open spec fn decimal(i: int) -> Seq<char> {
    if i < 0 {
        seq!['-'] + digits((-i) as nat)
    } else {
        digits(i as nat)
    }
}

/// The digits that are still to come in front of those already split off a
/// number, of which `rest` is what is left: none once nothing is left.
spec fn leading(rest: nat) -> Seq<char> {
    if rest == 0 {
        Seq::empty()
    } else {
        digits(rest)
    }
}

/// The characters of digits that were split off least significant first, in
/// the order in which they are written.
spec fn written(split: Seq<u32>) -> Seq<char> {
    Seq::new(split.len(), |i: int| digit_char(split[split.len() - 1 - i] as int))
}

/// The text of one digit.
fn digit_str(d: u32) -> (s: &'static str)
    requires
        d < 10,
    ensures
        s@ == seq![digit_char(d as int)],
{
    proof {
        reveal_strlit("0");
        reveal_strlit("1");
        reveal_strlit("2");
        reveal_strlit("3");
        reveal_strlit("4");
        reveal_strlit("5");
        reveal_strlit("6");
        reveal_strlit("7");
        reveal_strlit("8");
        reveal_strlit("9");
    }
    let s = if d == 0 {
        "0"
    } else if d == 1 {
        "1"
    } else if d == 2 {
        "2"
    } else if d == 3 {
        "3"
    } else if d == 4 {
        "4"
    } else if d == 5 {
        "5"
    } else if d == 6 {
        "6"
    } else if d == 7 {
        "7"
    } else if d == 8 {
        "8"
    } else {
        "9"
    };
    assert(s@ =~= seq![digit_char(d as int)]);
    s
}

/// The text shown for a score: the word "Score", a colon, a space, and the
/// score in decimal.
pub fn score_text(score: i32) -> (text: String)
    ensures
        text@ == "Score: "@ + decimal(score as int),
{
    let mut text = String::from_str("Score: ");
    let magnitude: u32 = if score < 0 {
        text.append("-");
        proof {
            reveal_strlit("-");
        }
        (0 - score as i64) as u32
    } else {
        score as u32
    };
    let ghost prefix = text@;
    assert(prefix + digits(magnitude as nat) =~= "Score: "@ + decimal(score as int)) by {
        reveal_strlit("-");
        assert("-"@ =~= seq!['-']);
    }

    let mut split: Vec<u32> = Vec::new();
    let mut rest: u32 = magnitude / 10;
    split.push(magnitude % 10);
    assert(leading(rest as nat) + written(split@) =~= digits(magnitude as nat));
    while rest > 0
        invariant
            leading(rest as nat) + written(split@) == digits(magnitude as nat),
            forall|i: int| 0 <= i < split@.len() ==> split@[i] < 10,
        decreases rest,
    {
        let ghost before = split@;
        split.push(rest % 10);
        assert(leading((rest / 10) as nat) + written(split@) =~= leading(rest as nat) + written(
            before,
        ));
        rest = rest / 10;
    }
    assert(written(split@) =~= digits(magnitude as nat));

    let mut i: usize = split.len();
    while i > 0
        invariant
            0 <= i <= split@.len(),
            forall|j: int| 0 <= j < split@.len() ==> split@[j] < 10,
            text@ == prefix + written(split@).take(split@.len() - i),
        decreases i,
    {
        i -= 1;
        text.append(digit_str(split[i]));
        assert(text@ =~= prefix + written(split@).take(split@.len() - i));
    }
    assert(written(split@).take(split@.len() as int) =~= written(split@));
    text
}

} // verus!

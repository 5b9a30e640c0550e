//! Texts that the library writes itself: numbers in decimal and the names of
//! services as they stand in a frame.

use vstd::prelude::*;

verus! {

/// The character of a decimal digit.
pub open spec fn digit_char(digit: nat) -> char {
    if digit == 0 {
        '0'
    } else if digit == 1 {
        '1'
    } else if digit == 2 {
        '2'
    } else if digit == 3 {
        '3'
    } else if digit == 4 {
        '4'
    } else if digit == 5 {
        '5'
    } else if digit == 6 {
        '6'
    } else if digit == 7 {
        '7'
    } else if digit == 8 {
        '8'
    } else {
        '9'
    }
}

/// A number written in decimal, without sign and without leading zeros.
pub open spec fn decimal_text(number: nat) -> Seq<char>
    decreases number,
{
    if number < 10 {
        seq![digit_char(number)]
    } else {
        decimal_text(number / 10).push(digit_char(number % 10))
    }
}

/// The one-character text of a decimal digit.
fn digit_str(digit: u64) -> (text: &'static str)
    requires
        digit < 10,
    ensures
        text@ == seq![digit_char(digit as nat)],
{
    proof {
        reveal_strlit("0");
        reveal_strlit("1");
        reveal_strlit("2");
        reveal_strlit("3");
        reveal_strlit("4");
        reveal_strlit("5");
        reveal_strlit("6");
        reveal_strlit("7");
        reveal_strlit("8");
        reveal_strlit("9");
    }
    let text = if digit == 0 {
        "0"
    } else if digit == 1 {
        "1"
    } else if digit == 2 {
        "2"
    } else if digit == 3 {
        "3"
    } else if digit == 4 {
        "4"
    } else if digit == 5 {
        "5"
    } else if digit == 6 {
        "6"
    } else if digit == 7 {
        "7"
    } else if digit == 8 {
        "8"
    } else {
        "9"
    };
    assert(text@ =~= seq![digit_char(digit as nat)]);
    text
}

/// `number` written in decimal.
pub fn decimal_string(number: u64) -> (text: String)
    ensures
        text@ == decimal_text(number as nat),
{
    let mut text = digit_str(number % 10).to_string();
    let mut rest = number / 10;
    assert(number < 10 ==> text@ =~= decimal_text(number as nat));
    assert(number >= 10 ==> decimal_text(number as nat) =~= decimal_text(rest as nat) + text@);
    while rest > 0
        invariant
            rest > 0 ==> decimal_text(number as nat) == decimal_text(rest as nat) + text@,
            rest == 0 ==> decimal_text(number as nat) == text@,
        decreases rest,
    {
        let ghost before = text@;
        let ghost left = rest;
        text = digit_str(rest % 10).to_string().concat(text.as_str());
        rest = rest / 10;
        proof {
            let digit = seq![digit_char((left % 10) as nat)];
            assert(text@ == digit + before);
            if left < 10 {
                assert(decimal_text(left as nat) =~= digit);
            } else {
                assert(decimal_text(left as nat) =~= decimal_text(rest as nat) + digit);
                assert((decimal_text(rest as nat) + digit) + before =~= decimal_text(rest as nat)
                    + (digit + before));
            }
        }
    }
    text
}

/// The bytes of a list in decimal, separated by a comma and a space.
pub open spec fn list_text(bytes: Seq<u8>) -> Seq<char>
    decreases bytes.len(),
{
    if bytes.len() == 0 {
        Seq::empty()
    } else if bytes.len() == 1 {
        decimal_text(bytes[0] as nat)
    } else {
        list_text(bytes.drop_last()) + ", "@ + decimal_text(bytes.last() as nat)
    }
}

/// How a fault names an identity: `Identity : ` and, in square brackets, the
/// bytes of the identity in decimal.
pub open spec fn identity_text(identity: Seq<u8>) -> Seq<char> {
    "Identity : ["@ + list_text(identity) + "]"@
}

/// The text by which a fault names `identity`.
pub fn identity_string(identity: &[u8]) -> (text: String)
    ensures
        text@ == identity_text(identity@),
{
    let mut text = "Identity : [".to_string();
    let mut at: usize = 0;
    assert(identity@.take(0) =~= Seq::<u8>::empty());
    assert(text@ =~= "Identity : ["@ + list_text(identity@.take(0)));
    while at < identity.len()
        invariant
            at <= identity@.len(),
            text@ == "Identity : ["@ + list_text(identity@.take(at as int)),
        decreases identity@.len() - at,
    {
        let ghost before = identity@.take(at as int);
        let ghost after = identity@.take(at + 1);
        let ghost listed = text@;
        if at > 0 {
            text = text.concat(", ");
        }
        text = text.concat(decimal_string(identity[at] as u64).as_str());
        proof {
            assert(after.drop_last() =~= before);
            assert(after.last() == identity@[at as int]);
            let number = decimal_text(identity@[at as int] as nat);
            if at == 0 {
                assert(list_text(after) == number);
                assert(text@ =~= "Identity : ["@ + list_text(after));
            } else {
                assert(list_text(after) == list_text(before) + ", "@ + number);
                assert(text@ == listed + ", "@ + number);
                assert(text@ =~= "Identity : ["@ + list_text(after));
            }
        }
        at += 1;
    }
    assert(identity@.take(at as int) =~= identity@);
    text.concat("]")
}

/// The character of a hexadecimal digit, in upper case.
pub open spec fn hex_char(digit: nat) -> char {
    if digit < 10 {
        digit_char(digit)
    } else if digit == 10 {
        'A'
    } else if digit == 11 {
        'B'
    } else if digit == 12 {
        'C'
    } else if digit == 13 {
        'D'
    } else if digit == 14 {
        'E'
    } else {
        'F'
    }
}

/// Bytes written in hexadecimal, two digits in upper case for each byte and
/// nothing between them.
pub open spec fn hex_text(bytes: Seq<u8>) -> Seq<char>
    decreases bytes.len(),
{
    if bytes.len() == 0 {
        Seq::empty()
    } else {
        hex_text(bytes.drop_last()) + seq![
            hex_char((bytes.last() / 16) as nat),
            hex_char((bytes.last() % 16) as nat),
        ]
    }
}

/// The one-character text of a hexadecimal digit.
fn hex_str(digit: u8) -> (text: &'static str)
    requires
        digit < 16,
    ensures
        text@ == seq![hex_char(digit as nat)],
{
    if digit < 10 {
        digit_str(digit as u64)
    } else {
        proof {
            reveal_strlit("A");
            reveal_strlit("B");
            reveal_strlit("C");
            reveal_strlit("D");
            reveal_strlit("E");
            reveal_strlit("F");
        }
        let text = if digit == 10 {
            "A"
        } else if digit == 11 {
            "B"
        } else if digit == 12 {
            "C"
        } else if digit == 13 {
            "D"
        } else if digit == 14 {
            "E"
        } else {
            "F"
        };
        assert(text@ =~= seq![hex_char(digit as nat)]);
        text
    }
}

/// The content of a frame in hexadecimal, as it is shown in a log.
pub fn display_content(entry: &[u8]) -> (text: String)
    ensures
        text@ == hex_text(entry@),
{
    let mut text = String::new();
    let mut at: usize = 0;
    assert(entry@.take(0) =~= Seq::<u8>::empty());
    while at < entry.len()
        invariant
            at <= entry@.len(),
            text@ == hex_text(entry@.take(at as int)),
        decreases entry@.len() - at,
    {
        let ghost before = entry@.take(at as int);
        let ghost after = entry@.take(at + 1);
        let ghost shown = text@;
        let byte = entry[at];
        text = text.concat(hex_str(byte / 16)).concat(hex_str(byte % 16));
        proof {
            assert(after.drop_last() =~= before);
            assert(after.last() == byte);
            assert(text@ =~= shown + seq![
                hex_char((byte / 16) as nat),
                hex_char((byte % 16) as nat),
            ]);
        }
        at += 1;
    }
    assert(entry@.take(at as int) =~= entry@);
    text
}

} // verus!

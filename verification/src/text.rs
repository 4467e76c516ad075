use vstd::prelude::*;

verus! {

/// The character that stands for a digit below ten.
pub open spec fn digit_char(digit: nat) -> char {
    if digit == 0 {
        '0'
    } else if digit == 1 {
        '1'
    } else if digit == 2 {
        '2'
    } else if digit == 3 {
        '3'
    } else if digit == 4 {
        '4'
    } else if digit == 5 {
        '5'
    } else if digit == 6 {
        '6'
    } else if digit == 7 {
        '7'
    } else if digit == 8 {
        '8'
    } else {
        '9'
    }
}

/// A number written in base ten, most significant digit first, without
/// leading zeros.
pub open spec fn decimal_digits(n: nat) -> Seq<char>
    decreases n,
{
    if n < 10 {
        seq![digit_char(n)]
    } else {
        decimal_digits(n / 10).push(digit_char(n % 10))
    }
}

/// Appending one character to a sequence adds that character, and nothing
/// else, to what the sequence contains.
pub proof fn lemma_push_contains(s: Seq<char>, last: char, wanted: char)
    ensures
        s.push(last).contains(wanted) <==> s.contains(wanted) || last == wanted,
{
    if s.contains(wanted) {
        let j: int = choose|j: int| 0 <= j < s.len() && s[j] == wanted;
        assert(s.push(last)[j] == wanted);
    }
    if last == wanted {
        assert(s.push(last)[s.len() as int] == wanted);
    }
}

/// Whether a character occurs in a text.
pub fn contains_char(text: &str, wanted: char) -> (found: bool)
    ensures
        found == text@.contains(wanted),
{
    let mut found = false;
    for c in it: text.chars()
        invariant
            it.seq() == text@,
            found == text@.take(it.index()).contains(wanted),
    {
        proof {
            let k: int = it.index();
            assert(text@.take(k + 1) =~= text@.take(k).push(text@[k]));
            lemma_push_contains(text@.take(k), text@[k], wanted);
        }
        if c == wanted {
            found = true;
        }
    }
    proof {
        assert(text@.take(text@.len() as int) =~= text@);
    }
    found
}

fn digit_text(digit: u32) -> (text: &'static str)
    requires
        digit < 10,
    ensures
        text@ == seq![digit_char(digit as nat)],
{
    proof {
        reveal_strlit("0");
        reveal_strlit("1");
        reveal_strlit("2");
        reveal_strlit("3");
        reveal_strlit("4");
        reveal_strlit("5");
        reveal_strlit("6");
        reveal_strlit("7");
        reveal_strlit("8");
        reveal_strlit("9");
    }
    let text = if digit == 0 {
        "0"
    } else if digit == 1 {
        "1"
    } else if digit == 2 {
        "2"
    } else if digit == 3 {
        "3"
    } else if digit == 4 {
        "4"
    } else if digit == 5 {
        "5"
    } else if digit == 6 {
        "6"
    } else if digit == 7 {
        "7"
    } else if digit == 8 {
        "8"
    } else {
        "9"
    };
    assert(text@ =~= seq![digit_char(digit as nat)]);
    text
}

/// A number as text in base ten.
pub fn decimal_string(n: u32) -> (text: String)
    ensures
        text@ == decimal_digits(n as nat),
    decreases n,
{
    if n < 10 {
        digit_text(n).to_string()
    } else {
        let mut text = decimal_string(n / 10);
        text.append(digit_text(n % 10));
        assert(text@ =~= decimal_digits((n / 10) as nat).push(digit_char((n % 10) as nat)));
        text
    }
}

/// Whether a character is one of the ten digits.
pub open spec fn is_digit(c: char) -> bool {
    '0' <= c <= '9'
}

/// The number that a digit stands for.
pub open spec fn digit_value(c: char) -> nat
    recommends
        is_digit(c),
{
    (c as nat - '0' as nat) as nat
}

/// The number that a sequence of digits stands for in base ten; 0 for the
/// empty sequence.
pub open spec fn digits_value(digits: Seq<char>) -> nat
    decreases digits.len(),
{
    if digits.len() == 0 {
        0
    } else {
        digits_value(digits.drop_last()) * 10 + digit_value(digits.last())
    }
}

/// Whether every character of a sequence is a digit.
pub open spec fn all_digits(digits: Seq<char>) -> bool {
    forall|i: int| 0 <= i < digits.len() ==> is_digit(#[trigger] digits[i])
}

/// A text without the `+` that it may start with.
pub open spec fn unsigned_part(text: Seq<char>) -> Seq<char> {
    if text.len() > 0 && text[0] == '+' {
        text.drop_first()
    } else {
        text
    }
}

/// The number that a text stands for, if it is a number up to `max`: an
/// optional `+`, then one digit or more, and nothing else. Leading zeros do
/// not count.
pub open spec fn parsed_number(text: Seq<char>, max: nat) -> Option<nat> {
    let digits = unsigned_part(text);
    if digits.len() > 0 && all_digits(digits) && digits_value(digits) <= max {
        Some(digits_value(digits))
    } else {
        None
    }
}

/// The first digits of a sequence of digits stand for no more than the
/// whole.
pub proof fn lemma_digits_value_grows(digits: Seq<char>, k: int)
    requires
        0 <= k <= digits.len(),
    ensures
        digits_value(digits.take(k)) <= digits_value(digits),
    decreases digits.len() - k,
{
    if k == digits.len() {
        assert(digits.take(k) =~= digits);
    } else {
        let shorter = digits.drop_last();
        assert(shorter.take(k) =~= digits.take(k));
        lemma_digits_value_grows(shorter, k);
    }
}

/// Reads a number up to `max` from a text.
pub fn parse_number(text: &str, max: u32) -> (number: Option<u32>)
    ensures
        match number {
            Some(value) => parsed_number(text@, max as nat) == Some(value as nat),
            None => parsed_number(text@, max as nat) is None,
        },
{
    let mut value: u64 = 0;
    let mut signed = false;
    let mut any = false;
    let ghost digits: Seq<char> = unsigned_part(text@);
    let ghost mut count: int = 0;
    for c in it: text.chars()
        invariant
            it.seq() == text@,
            digits == unsigned_part(text@),
            signed == (it.index() > 0 && text@[0] == '+'),
            count == it.index() - if signed {
                1int
            } else {
                0int
            },
            any == (count > 0),
            0 <= count <= digits.len(),
            all_digits(digits.take(count)),
            value == digits_value(digits.take(count)),
            value <= max,
    {
        if !any && !signed && c == '+' {
            signed = true;
        } else {
            assert(count < digits.len());
            assert(digits[count] == c);
            if c < '0' || c > '9' {
                assert(!is_digit(digits[count]));
                return None;
            }
            let digit: u64 = (c as u32 - '0' as u32) as u64;
            proof {
                assert(digits.take(count + 1).drop_last() =~= digits.take(count));
                assert(digits.take(count + 1).last() == c);
                assert(digit == digit_value(c));
                assert forall|i: int| 0 <= i < count + 1 implies is_digit(
                    #[trigger] digits.take(count + 1)[i],
                ) by {
                    if i < count {
                        assert(digits.take(count)[i] == digits[i]);
                    }
                }
                count = count + 1;
            }
            value = value * 10 + digit;
            any = true;
            if value > max as u64 {
                proof {
                    lemma_digits_value_grows(digits, count);
                }
                return None;
            }
        }
    }
    proof {
        assert(digits.take(digits.len() as int) =~= digits);
    }
    if any {
        Some(value as u32)
    } else {
        None
    }
}

} // verus!

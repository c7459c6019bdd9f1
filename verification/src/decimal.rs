use vstd::prelude::*;

verus! {

/// The character of one decimal digit.
pub open spec fn digit_char(digit: nat) -> char {
    if digit == 0 {
        '0'
    } else if digit == 1 {
        '1'
    } else if digit == 2 {
        '2'
    } else if digit == 3 {
        '3'
    } else if digit == 4 {
        '4'
    } else if digit == 5 {
        '5'
    } else if digit == 6 {
        '6'
    } else if digit == 7 {
        '7'
    } else if digit == 8 {
        '8'
    } else {
        '9'
    }
}

/// The decimal digits of a number, most significant first, without leading
/// zeros; zero is the single digit `0`.
pub open spec fn decimal_digits(n: nat) -> Seq<char>
    decreases n,
{
    if n < 10 {
        seq![digit_char(n)]
    } else {
        decimal_digits(n / 10).push(digit_char(n % 10))
    }
}

/// The decimal text of an integer: its digits, after a minus sign where it is
/// negative.
pub open spec fn signed_decimal(n: int) -> Seq<char> {
    if n < 0 {
        seq!['-'] + decimal_digits((-n) as nat)
    } else {
        decimal_digits(n as nat)
    }
}

/// `text`, with zeros in front of it up to `width` characters. A text that
/// is already that long stays as it is.
pub open spec fn zero_padded(text: Seq<char>, width: nat) -> Seq<char> {
    if text.len() >= width {
        text
    } else {
        Seq::new((width - text.len()) as nat, |i: int| '0') + text
    }
}

/// Whether every character is a decimal digit.
pub open spec fn all_digits(text: Seq<char>) -> bool {
    forall|i: int| 0 <= i < text.len() ==> '0' <= #[trigger] text[i] <= '9'
}

/// How many decimal digits a number has.
pub open spec fn digit_count(n: nat) -> nat
    decreases n,
{
    if n < 10 {
        1
    } else {
        digit_count(n / 10) + 1
    }
}

/// The decimal text of a number consists of `digit_count` digits.
pub proof fn lemma_decimal_digits_shape(n: nat)
    ensures
        decimal_digits(n).len() == digit_count(n),
        all_digits(decimal_digits(n)),
    decreases n,
{
    if n >= 10 {
        lemma_decimal_digits_shape(n / 10);
    }
}

/// A number below `10^2` has at most two digits, one below `10^4` at most four.
pub proof fn lemma_digit_count_small(n: nat)
    ensures
        n < 10 ==> digit_count(n) == 1,
        10 <= n < 100 ==> digit_count(n) == 2,
        100 <= n < 1000 ==> digit_count(n) == 3,
        1000 <= n < 10000 ==> digit_count(n) == 4,
{
    reveal_with_fuel(digit_count, 5);
}

/// Appends one decimal digit.
pub fn push_digit(text: &mut String, digit: u8)
    requires
        digit < 10,
    ensures
        final(text)@ == old(text)@.push(digit_char(digit as nat)),
{
    proof {
        reveal_strlit("0");
        reveal_strlit("1");
        reveal_strlit("2");
        reveal_strlit("3");
        reveal_strlit("4");
        reveal_strlit("5");
        reveal_strlit("6");
        reveal_strlit("7");
        reveal_strlit("8");
        reveal_strlit("9");
    }
    let ghost before = text@;
    if digit == 0 {
        text.append("0");
    } else if digit == 1 {
        text.append("1");
    } else if digit == 2 {
        text.append("2");
    } else if digit == 3 {
        text.append("3");
    } else if digit == 4 {
        text.append("4");
    } else if digit == 5 {
        text.append("5");
    } else if digit == 6 {
        text.append("6");
    } else if digit == 7 {
        text.append("7");
    } else if digit == 8 {
        text.append("8");
    } else {
        text.append("9");
    }
    assert(text@ =~= before.push(digit_char(digit as nat)));
}

/// Appends the decimal text of a number.
pub fn push_decimal(text: &mut String, n: u128)
    ensures
        final(text)@ == old(text)@ + decimal_digits(n as nat),
    decreases n,
{
    let ghost before = text@;
    if n >= 10 {
        push_decimal(text, n / 10);
    }
    push_digit(text, (n % 10) as u8);
    assert(text@ =~= before + decimal_digits(n as nat));
}

/// Appends `body`, with zeros in front of it up to `width` characters.
pub fn push_zero_padded(text: &mut String, body: &str, width: usize)
    ensures
        final(text)@ == old(text)@ + zero_padded(body@, width as nat),
{
    let ghost before = text@;
    let length = body.unicode_len();
    let zeros: usize = if width > length {
        width - length
    } else {
        0
    };
    let mut written: usize = 0;
    while written < zeros
        invariant
            written <= zeros,
            text@ == before + Seq::new(written as nat, |i: int| '0'),
        decreases zeros - written,
    {
        push_digit(text, 0);
        written = written + 1;
        assert(text@ =~= before + Seq::new(written as nat, |i: int| '0'));
    }
    text.append(body);
    assert(text@ =~= before + zero_padded(body@, width as nat));
}

/// Appends the decimal text of a number, with zeros in front of it up to
/// `width` characters.
pub fn push_padded(text: &mut String, n: u128, width: usize)
    ensures
        final(text)@ == old(text)@ + zero_padded(decimal_digits(n as nat), width as nat),
{
    let digits = decimal_string(n);
    push_zero_padded(text, digits.as_str(), width);
}

/// The decimal text of an integer, with a minus sign where it is negative.
pub fn signed_decimal_string(n: i64) -> (text: String)
    ensures
        text@ == signed_decimal(n as int),
{
    let mut text = String::new();
    if n < 0 {
        proof {
            reveal_strlit("-");
        }
        text.append("-");
        let magnitude: u128 = (-(n as i128)) as u128;
        push_decimal(&mut text, magnitude);
        assert(text@ =~= signed_decimal(n as int));
    } else {
        push_decimal(&mut text, n as u128);
        assert(text@ =~= signed_decimal(n as int));
    }
    text
}

/// The decimal text of a number.
pub fn decimal_string(n: u128) -> (text: String)
    ensures
        text@ == decimal_digits(n as nat),
{
    let mut text = String::new();
    push_decimal(&mut text, n);
    assert(text@ =~= decimal_digits(n as nat));
    text
}

} // verus!

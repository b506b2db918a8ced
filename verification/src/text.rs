//! Text as sequences of characters: decimal numerals and searching.

use vstd::prelude::*;

verus! {

/// The character of the decimal digit `digit`.
pub open spec fn digit_char(digit: nat) -> char {
    if digit == 0 {
        '0'
    } else if digit == 1 {
        '1'
    } else if digit == 2 {
        '2'
    } else if digit == 3 {
        '3'
    } else if digit == 4 {
        '4'
    } else if digit == 5 {
        '5'
    } else if digit == 6 {
        '6'
    } else if digit == 7 {
        '7'
    } else if digit == 8 {
        '8'
    } else {
        '9'
    }
}

/// The digit that a character stands for; zero for any other character.
pub open spec fn digit_value(c: char) -> nat {
    if c == '1' {
        1
    } else if c == '2' {
        2
    } else if c == '3' {
        3
    } else if c == '4' {
        4
    } else if c == '5' {
        5
    } else if c == '6' {
        6
    } else if c == '7' {
        7
    } else if c == '8' {
        8
    } else if c == '9' {
        9
    } else {
        0
    }
}

/// The decimal numeral of `n`, without leading zeros.
pub open spec fn decimal(n: nat) -> Seq<char>
    decreases n,
{
    if n < 10 {
        seq![digit_char(n)]
    } else {
        decimal(n / 10).push(digit_char(n % 10))
    }
}

/// The number that a decimal numeral stands for.
pub open spec fn decimal_value(numeral: Seq<char>) -> nat
    decreases numeral.len(),
{
    if numeral.len() == 0 {
        0
    } else {
        decimal_value(numeral.drop_last()) * 10 + digit_value(numeral.last())
    }
}

/// Reading the numeral of a number gives the number back.
proof fn lemma_decimal_value(n: nat)
    ensures
        decimal_value(decimal(n)) == n,
    decreases n,
{
    if n < 10 {
        let numeral = decimal(n);
        assert(numeral.drop_last().len() == 0);
        assert(decimal_value(numeral.drop_last()) == 0);
    } else {
        lemma_decimal_value(n / 10);
        let numeral = decimal(n);
        assert(numeral.drop_last() =~= decimal(n / 10));
        assert(numeral.last() == digit_char(n % 10));
    }
}

/// Two numbers with the same numeral are the same number.
pub proof fn lemma_decimal_injective(a: nat, b: nat)
    requires
        decimal(a) == decimal(b),
    ensures
        a == b,
{
    lemma_decimal_value(a);
    lemma_decimal_value(b);
}

/// The place of the last `c` in `text`, or -1 where there is none.
pub open spec fn last_index_of(text: Seq<char>, c: char) -> int
    decreases text.len(),
{
    if text.len() == 0 {
        -1
    } else if text.last() == c {
        text.len() - 1
    } else {
        last_index_of(text.drop_last(), c)
    }
}

/// `last_index_of` names a place that holds `c` and that no `c` follows.
pub proof fn lemma_last_index_of(text: Seq<char>, c: char)
    ensures
        -1 <= last_index_of(text, c) < text.len(),
        last_index_of(text, c) >= 0 ==> text[last_index_of(text, c)] == c,
        forall|j: int| last_index_of(text, c) < j < text.len() ==> text[j] != c,
    decreases text.len(),
{
    if text.len() > 0 && text.last() != c {
        let shorter = text.drop_last();
        lemma_last_index_of(shorter, c);
        assert forall|j: int| last_index_of(text, c) < j < text.len() implies text[j] != c by {
            if j < shorter.len() {
                assert(shorter[j] == text[j]);
            }
        }
    }
}

fn digit_text(digit: u64) -> (text: &'static str)
    requires
        digit < 10,
    ensures
        text@ == seq![digit_char(digit as nat)],
{
    proof {
        reveal_strlit("0");
        reveal_strlit("1");
        reveal_strlit("2");
        reveal_strlit("3");
        reveal_strlit("4");
        reveal_strlit("5");
        reveal_strlit("6");
        reveal_strlit("7");
        reveal_strlit("8");
        reveal_strlit("9");
    }
    let text = if digit == 0 {
        "0"
    } else if digit == 1 {
        "1"
    } else if digit == 2 {
        "2"
    } else if digit == 3 {
        "3"
    } else if digit == 4 {
        "4"
    } else if digit == 5 {
        "5"
    } else if digit == 6 {
        "6"
    } else if digit == 7 {
        "7"
    } else if digit == 8 {
        "8"
    } else {
        "9"
    };
    assert(text@ =~= seq![digit_char(digit as nat)]);
    text
}

/// Writes `n` as a decimal numeral.
pub fn decimal_text(n: u64) -> (text: String)
    ensures
        text@ == decimal(n as nat),
    decreases n,
{
    if n < 10 {
        String::from_str(digit_text(n))
    } else {
        let mut text = decimal_text(n / 10);
        text.append(digit_text(n % 10));
        assert(text@ =~= decimal(n as nat));
        text
    }
}

/// Finds the last `c` in `text`.
pub fn find_last(text: &str, c: char) -> (place: Option<usize>)
    ensures
        match place {
            Some(index) => index as int == last_index_of(text@, c),
            None => last_index_of(text@, c) == -1,
        },
{
    let length: usize = text.unicode_len();
    let mut place: Option<usize> = None;
    let mut index: usize = 0;
    while index < length
        invariant
            index <= length,
            length == text@.len(),
            match place {
                Some(found) => found as int == last_index_of(text@.subrange(0, index as int), c),
                None => last_index_of(text@.subrange(0, index as int), c) == -1,
            },
        decreases length - index,
    {
        proof {
            let longer = text@.subrange(0, index as int + 1);
            assert(longer.drop_last() =~= text@.subrange(0, index as int));
            assert(longer.last() == text@[index as int]);
        }
        if text.get_char(index) == c {
            place = Some(index);
        }
        index = index + 1;
    }
    assert(text@.subrange(0, index as int) =~= text@);
    place
}

/// Whether `c` occurs in `text`.
pub fn contains_char(text: &str, c: char) -> (found: bool)
    ensures
        found == text@.contains(c),
{
    proof {
        lemma_last_index_of(text@, c);
    }
    let place = find_last(text, c);
    place.is_some()
}

/// The text `first` followed by `second`.
pub fn concat_text(first: &str, second: &str) -> (text: String)
    ensures
        text@ == first@ + second@,
{
    let mut text = String::from_str(first);
    text.append(second);
    text
}

} // verus!

//! Text as sequences of characters.

use vstd::prelude::*;

verus! {

broadcast use vstd::string::group_string_axioms;

/// The code point of `c`, with the capital letters of ASCII taken for the small ones.
pub open spec fn folded(c: char) -> int {
    if 'A' <= c && c <= 'Z' {
        c as int + 32
    } else {
        c as int
    }
}

/// Two texts that differ at most in the case of ASCII letters.
pub open spec fn same_ignoring_case(a: Seq<char>, b: Seq<char>) -> bool {
    &&& a.len() == b.len()
    &&& forall|i: int| 0 <= i < a.len() ==> folded(#[trigger] a[i]) == folded(b[i])
}

/// `s` without the dots at its end.
pub open spec fn without_trailing_dots(s: Seq<char>) -> Seq<char>
    decreases s.len(),
{
    if s.len() > 0 && s.last() == '.' {
        without_trailing_dots(s.drop_last())
    } else {
        s
    }
}

/// The numeral of one decimal digit.
pub open spec fn digit_text(d: nat) -> Seq<char> {
    if d == 0 {
        "0"@
    } else if d == 1 {
        "1"@
    } else if d == 2 {
        "2"@
    } else if d == 3 {
        "3"@
    } else if d == 4 {
        "4"@
    } else if d == 5 {
        "5"@
    } else if d == 6 {
        "6"@
    } else if d == 7 {
        "7"@
    } else if d == 8 {
        "8"@
    } else {
        "9"@
    }
}

/// The decimal numeral of `n`, without leading zeros.
pub open spec fn decimal_text(n: nat) -> Seq<char>
    decreases n,
{
    if n < 10 {
        digit_text(n)
    } else {
        decimal_text(n / 10) + digit_text(n % 10)
    }
}

fn digit(d: u64) -> (text: &'static str)
    requires
        d < 10,
    ensures
        text@ == digit_text(d as nat),
{
    if d == 0 {
        "0"
    } else if d == 1 {
        "1"
    } else if d == 2 {
        "2"
    } else if d == 3 {
        "3"
    } else if d == 4 {
        "4"
    } else if d == 5 {
        "5"
    } else if d == 6 {
        "6"
    } else if d == 7 {
        "7"
    } else if d == 8 {
        "8"
    } else {
        "9"
    }
}

/// Writes `n` in decimal.
pub fn decimal(n: u64) -> (text: String)
    ensures
        text@ == decimal_text(n as nat),
    decreases n,
{
    if n < 10 {
        digit(n).to_owned()
    } else {
        decimal(n / 10).concat(digit(n % 10))
    }
}

/// The characters of `s`, in order.
pub fn characters(s: &str) -> (chars: Vec<char>)
    ensures
        chars@ == s@,
{
    let mut chars: Vec<char> = Vec::new();
    for c in iter: s.chars()
        invariant
            iter.seq() == s@,
            chars@ == s@.take(iter.index()),
    {
        chars.push(c);
        assert(s@.take(iter.index() + 1) == s@.take(iter.index()).push(s@[iter.index()]));
    }
    assert(s@.take(s@.len() as int) == s@);
    chars
}

/// Whether two texts are the same, character for character.
pub fn same_text(a: &str, b: &str) -> (same: bool)
    ensures
        same == (a@ == b@),
{
    let left = characters(a);
    let right = characters(b);
    if left.len() != right.len() {
        return false;
    }
    for i in 0..left.len()
        invariant
            left@ == a@,
            right@ == b@,
            left.len() == right.len(),
            forall|j: int| 0 <= j < i ==> left@[j] == right@[j],
    {
        if left[i] != right[i] {
            return false;
        }
    }
    assert(left@ =~= right@);
    true
}

fn folded_code(c: char) -> (code: u32)
    ensures
        code as int == folded(c),
{
    if 'A' <= c && c <= 'Z' {
        c as u32 + 32
    } else {
        c as u32
    }
}

/// Compares `a` from position `from` on with `b` from position `start` on, ignoring ASCII case.
pub fn tails_match(a: &Vec<char>, from: usize, b: &Vec<char>, start: usize) -> (same: bool)
    requires
        from <= a.len(),
        start <= b.len(),
    ensures
        same == same_ignoring_case(a@.skip(from as int), b@.skip(start as int)),
{
    if a.len() - from != b.len() - start {
        return false;
    }
    let len: usize = a.len() - from;
    let ghost left = a@.skip(from as int);
    let ghost right = b@.skip(start as int);
    for i in 0..len
        invariant
            from + len == a.len(),
            start + len == b.len(),
            left == a@.skip(from as int),
            right == b@.skip(start as int),
            forall|j: int| 0 <= j < i ==> folded(#[trigger] left[j]) == folded(right[j]),
    {
        if folded_code(a[from + i]) != folded_code(b[start + i]) {
            assert(folded(left[i as int]) != folded(right[i as int]));
            return false;
        }
    }
    true
}

/// The characters of `s` without the dots at its end.
pub fn trim_trailing_dots(s: &str) -> (chars: Vec<char>)
    ensures
        chars@ == without_trailing_dots(s@),
{
    let mut chars = characters(s);
    while chars.len() > 0 && chars[chars.len() - 1] == '.'
        invariant
            without_trailing_dots(chars@) == without_trailing_dots(s@),
        decreases chars.len(),
    {
        let _ = chars.pop();
    }
    chars
}

/// Dots appended to a text change nothing in it once the dots at its end are taken off.
pub proof fn law_trailing_dots_are_dropped(s: Seq<char>)
    ensures
        without_trailing_dots(s.push('.')) == without_trailing_dots(s),
{
    assert(s.push('.').drop_last() == s);
}

/// Taking the dots off the end keeps two texts the same up to case.
pub proof fn law_trimming_respects_case(a: Seq<char>, b: Seq<char>)
    requires
        same_ignoring_case(a, b),
    ensures
        same_ignoring_case(without_trailing_dots(a), without_trailing_dots(b)),
    decreases a.len(),
{
    if a.len() > 0 {
        let last = a.len() - 1;
        assert(folded(a[last]) == folded(b[last]));
        if a.last() == '.' {
            assert forall|i: int| 0 <= i < a.drop_last().len() implies folded(
                #[trigger] a.drop_last()[i],
            ) == folded(b.drop_last()[i]) by {
                assert(folded(a[i]) == folded(b[i]));
            }
            law_trimming_respects_case(a.drop_last(), b.drop_last());
        }
    }
}

/// Two characters are taken for the same if and only if they are equal or are the capital and the
/// small form of one ASCII letter.
pub proof fn law_only_letters_have_a_case(a: char, b: char)
    ensures
        folded(a) == folded(b) <==> {
            ||| a == b
            ||| 65 <= a as int <= 90 && b as int == a as int + 32
            ||| 65 <= b as int <= 90 && a as int == b as int + 32
        },
{
}

/// Two texts are the same up to case if and only if they are equally long and agree at each position
/// in the character or in the ASCII letter.
pub proof fn law_same_up_to_case(a: Seq<char>, b: Seq<char>)
    ensures
        same_ignoring_case(a, b) <==> {
            &&& a.len() == b.len()
            &&& forall|i: int|
                0 <= i < a.len() ==> {
                    ||| #[trigger] a[i] == b[i]
                    ||| 65 <= a[i] as int <= 90 && b[i] as int == a[i] as int + 32
                    ||| 65 <= b[i] as int <= 90 && a[i] as int == b[i] as int + 32
                }
        },
{
    if same_ignoring_case(a, b) {
        assert forall|i: int| 0 <= i < a.len() implies {
            ||| #[trigger] a[i] == b[i]
            ||| 65 <= a[i] as int <= 90 && b[i] as int == a[i] as int + 32
            ||| 65 <= b[i] as int <= 90 && a[i] as int == b[i] as int + 32
        } by {
            assert(folded(a[i]) == folded(b[i]));
            law_only_letters_have_a_case(a[i], b[i]);
        }
    }
    if a.len() == b.len() && forall|i: int|
        0 <= i < a.len() ==> {
            ||| #[trigger] a[i] == b[i]
            ||| 65 <= a[i] as int <= 90 && b[i] as int == a[i] as int + 32
            ||| 65 <= b[i] as int <= 90 && a[i] as int == b[i] as int + 32
        } {
        assert forall|i: int| 0 <= i < a.len() implies folded(#[trigger] a[i]) == folded(b[i]) by {
            law_only_letters_have_a_case(a[i], b[i]);
        }
    }
}

/// Two texts without ASCII letters are the same up to case only where they are equal.
pub proof fn law_texts_without_letters_are_compared_exactly(a: Seq<char>, b: Seq<char>)
    requires
        forall|i: int|
            0 <= i < a.len() ==> !(65 <= #[trigger] a[i] as int <= 90) && !(97 <= a[i] as int
                <= 122),
    ensures
        same_ignoring_case(a, b) <==> a == b,
{
    law_same_up_to_case(a, b);
    if same_ignoring_case(a, b) {
        assert forall|i: int| 0 <= i < a.len() implies a[i] == b[i] by {
            assert(!(65 <= a[i] as int <= 90) && !(97 <= a[i] as int <= 122));
        }
        assert(a =~= b);
    }
}

/// What is cut off the end of a text is all dots, and what is left does not end in one.
pub proof fn law_only_dots_are_cut_off(s: Seq<char>)
    ensures
        without_trailing_dots(s).len() <= s.len(),
        without_trailing_dots(s) == s.take(without_trailing_dots(s).len() as int),
        forall|i: int|
            without_trailing_dots(s).len() <= i < s.len() ==> #[trigger] s[i] as int == 46,
        without_trailing_dots(s).len() > 0 ==> without_trailing_dots(s).last() as int != 46,
    decreases s.len(),
{
    let kept = without_trailing_dots(s);
    if s.len() > 0 && s.last() == '.' {
        let front = s.drop_last();
        law_only_dots_are_cut_off(front);
        assert(front.take(kept.len() as int) == s.take(kept.len() as int));
        assert forall|i: int| kept.len() <= i < s.len() implies #[trigger] s[i] as int == 46 by {
            if i < front.len() {
                assert(s[i] == front[i]);
            }
        }
    } else {
        assert(s.take(s.len() as int) == s);
    }
}

/// The number that decimal digits stand for, the last being the units.
pub open spec fn digits_value(digits: Seq<char>) -> int
    decreases digits.len(),
{
    if digits.len() == 0 {
        0
    } else {
        digits_value(digits.drop_last()) * 10 + (digits.last() as int - 48)
    }
}

proof fn lemma_digit_text(d: nat)
    requires
        d < 10,
    ensures
        digit_text(d).len() == 1,
        digit_text(d)[0] as int == 48 + d,
{
    reveal_strlit("0");
    reveal_strlit("1");
    reveal_strlit("2");
    reveal_strlit("3");
    reveal_strlit("4");
    reveal_strlit("5");
    reveal_strlit("6");
    reveal_strlit("7");
    reveal_strlit("8");
    reveal_strlit("9");
}

/// A number is written in decimal digits that stand for it, with no zero in front of others.
pub proof fn law_decimal_digits_stand_for_the_number(n: nat)
    ensures
        decimal_text(n).len() > 0,
        forall|i: int|
            0 <= i < decimal_text(n).len() ==> 48 <= #[trigger] decimal_text(n)[i] as int <= 57,
        digits_value(decimal_text(n)) == n,
        decimal_text(n).len() > 1 ==> decimal_text(n)[0] as int != 48,
        n > 0 ==> decimal_text(n)[0] as int != 48,
    decreases n,
{
    reveal_with_fuel(digits_value, 2);
    if n < 10 {
        lemma_digit_text(n);
        assert(decimal_text(n).drop_last() == Seq::<char>::empty());
    } else {
        law_decimal_digits_stand_for_the_number(n / 10);
        lemma_digit_text(n % 10);
        let text = decimal_text(n);
        assert(text.drop_last() == decimal_text(n / 10));
        assert(text.last() == digit_text(n % 10)[0]);
        assert forall|i: int| 0 <= i < text.len() implies 48 <= #[trigger] text[i] as int <= 57 by {
            if i < text.len() - 1 {
                assert(text[i] == decimal_text(n / 10)[i]);
            }
        }
    }
}

} // verus!

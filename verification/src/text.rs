//! Text as sequences of characters: decimal numerals and substitution into
//! a template.
use vstd::prelude::*;

verus! {

/// `String::push` of the standard library appends one character to the end of
/// the string and leaves the characters before it as they were.
pub assume_specification[ String::push ](text: &mut String, ch: char)
    ensures
        final(text)@ == old(text)@.push(ch),
;

/// The character that writes the decimal digit `d`.
pub open spec fn digit_char(d: nat) -> char
    recommends
        d < 10,
{
    ((48 + d) as u8) as char
}

/// The decimal numeral of `n`, most significant digit first, without leading
/// zeros; zero is written "0".
pub open spec fn decimal_digits(n: nat) -> Seq<char>
    decreases n,
{
    if n < 10 {
        seq![digit_char(n)]
    } else {
        decimal_digits(n / 10).push(digit_char(n % 10))
    }
}

/// `template` with every occurrence of `placeholder` replaced by `with`.
/// Characters that `with` brings in are not looked at again.
pub open spec fn substituted(template: Seq<char>, placeholder: char, with: Seq<char>) -> Seq<char>
    decreases template.len(),
{
    if template.len() == 0 {
        Seq::empty()
    } else if template.last() == placeholder {
        substituted(template.drop_last(), placeholder, with) + with
    } else {
        substituted(template.drop_last(), placeholder, with).push(template.last())
    }
}

/// A character is in a concatenation where it is in one of the two parts.
pub proof fn lemma_concat_contains(front: Seq<char>, back: Seq<char>, c: char)
    ensures
        (front + back).contains(c) <==> front.contains(c) || back.contains(c),
{
    let whole = front + back;
    if whole.contains(c) {
        let i = choose|i: int| 0 <= i < whole.len() && whole[i] == c;
        if i < front.len() {
            assert(front[i] == c);
        } else {
            assert(back[i - front.len()] == c);
        }
    }
    if front.contains(c) {
        let i = choose|i: int| 0 <= i < front.len() && front[i] == c;
        assert(whole[i] == c);
    }
    if back.contains(c) {
        let i = choose|i: int| 0 <= i < back.len() && back[i] == c;
        assert(whole[i + front.len()] == c);
    }
}

/// What a substitution holds: the characters of the template other than the
/// placeholder and, where the template has the placeholder, those of the
/// replacement.
pub proof fn lemma_substituted_contains(
    template: Seq<char>,
    placeholder: char,
    with: Seq<char>,
    c: char,
)
    ensures
        substituted(template, placeholder, with).contains(c) <==> (c != placeholder
            && template.contains(c)) || (template.contains(placeholder) && with.contains(c)),
    decreases template.len(),
{
    if template.len() > 0 {
        let shorter = template.drop_last();
        let last = template.last();
        let before = substituted(shorter, placeholder, with);
        lemma_substituted_contains(shorter, placeholder, with, c);
        assert(template == shorter.push(last));
        lemma_concat_contains(shorter, seq![last], c);
        lemma_concat_contains(shorter, seq![last], placeholder);
        assert(shorter + seq![last] == template);
        assert(seq![last].contains(c) <==> last == c) by {
            if last == c {
                assert(seq![last][0] == c);
            }
        }
        assert(seq![last].contains(placeholder) <==> last == placeholder) by {
            if last == placeholder {
                assert(seq![last][0] == placeholder);
            }
        }
        if last == placeholder {
            lemma_concat_contains(before, with, c);
        } else {
            lemma_concat_contains(before, seq![last], c);
            assert(before.push(last) == before + seq![last]);
        }
    }
}

/// The characters of `text`, in order.
pub fn chars_of(text: &str) -> (chars: Vec<char>)
    ensures
        chars@ == text@,
{
    let mut chars: Vec<char> = Vec::new();
    for c in it: text.chars()
        invariant
            chars@ == it.seq().take(it.index() as int),
    {
        chars.push(c);
    }
    chars
}

/// The string made of `chars`, in order.
pub fn text_of(chars: &Vec<char>) -> (text: String)
    ensures
        text@ == chars@,
{
    let mut text = String::new();
    let mut i: usize = 0;
    while i < chars.len()
        invariant
            i <= chars.len(),
            text@ == chars@.take(i as int),
        decreases chars.len() - i,
    {
        text.push(chars[i]);
        i += 1;
    }
    text
}

/// Whether `a` and `b` hold the same characters.
pub fn same_text(a: &str, b: &str) -> (same: bool)
    ensures
        same == (a@ == b@),
{
    let left = chars_of(a);
    let right = chars_of(b);
    if left.len() != right.len() {
        return false;
    }
    let mut i: usize = 0;
    while i < left.len()
        invariant
            i <= left.len() == right.len(),
            left@ == a@,
            right@ == b@,
            left@.take(i as int) == right@.take(i as int),
        decreases left.len() - i,
    {
        if left[i] != right[i] {
            return false;
        }
        assert(left@.take(i + 1) == left@.take(i as int).push(left@[i as int]));
        assert(right@.take(i + 1) == right@.take(i as int).push(right@[i as int]));
        i += 1;
    }
    assert(left@.take(left@.len() as int) == left@);
    assert(right@.take(right@.len() as int) == right@);
    true
}

/// Appends `from[start..end]` to `out`.
pub fn push_range(out: &mut Vec<char>, from: &Vec<char>, start: usize, end: usize)
    requires
        start <= end <= from.len(),
    ensures
        final(out)@ == old(out)@ + from@.subrange(start as int, end as int),
{
    let mut i: usize = start;
    while i < end
        invariant
            start <= i <= end <= from.len(),
            out@ == old(out)@ + from@.subrange(start as int, i as int),
        decreases end - i,
    {
        out.push(from[i]);
        i += 1;
    }
}

/// Appends the decimal numeral of `n` to `out`.
pub fn push_decimal_digits(out: &mut Vec<char>, n: u64)
    ensures
        final(out)@ == old(out)@ + decimal_digits(n as nat),
    decreases n,
{
    if n >= 10 {
        push_decimal_digits(out, n / 10);
    }
    let d: u8 = (n % 10) as u8;
    out.push((48 + d) as char);
}

/// `template` with every `placeholder` replaced by `with`.
pub fn substitute(template: &Vec<char>, placeholder: char, with: &Vec<char>) -> (out: Vec<char>)
    ensures
        out@ == substituted(template@, placeholder, with@),
{
    let mut out: Vec<char> = Vec::new();
    let mut i: usize = 0;
    while i < template.len()
        invariant
            i <= template.len(),
            out@ == substituted(template@.take(i as int), placeholder, with@),
        decreases template.len() - i,
    {
        assert(template@.take(i + 1).drop_last() == template@.take(i as int));
        if template[i] == placeholder {
            push_range(&mut out, with, 0, with.len());
            assert(with@.subrange(0, with@.len() as int) == with@);
        } else {
            out.push(template[i]);
        }
        i += 1;
    }
    assert(template@.take(template@.len() as int) == template@);
    out
}

} // verus!

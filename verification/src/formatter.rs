//! Writing an amount of minor units as text: grouped digits, decimal mark,
//! symbol and sign.
use vstd::prelude::*;
use crate::arith::{magnitude, magnitude_of};
use crate::text::{
    chars_of, decimal_digits, lemma_concat_contains, lemma_substituted_contains,
    push_decimal_digits, push_range, substitute, substituted, text_of,
};

verus! {

/// What a formatter holds, as plain values.
pub struct FormatterView {
    /// Number of digits after the decimal mark.
    pub fraction: nat,
    /// The decimal mark; only its first character is used.
    pub decimal: Seq<char>,
    /// The separator put between groups of three digits; empty for none.
    pub thousand: Seq<char>,
    /// The currency symbol.
    pub grapheme: Seq<char>,
    /// The pattern in which `1` stands for the number and `$` for the
    /// symbol; empty for the number alone.
    pub template: Seq<char>,
}

/// `digits` with zeros put in front until it has at least `width` characters.
pub open spec fn padded(digits: Seq<char>, width: nat) -> Seq<char> {
    if digits.len() >= width {
        digits
    } else {
        Seq::new((width - digits.len()) as nat, |i: int| '0') + digits
    }
}

/// `digits` with `separator` put in front of every group of three digits,
/// counted from the right, except in front of the leftmost digits.
pub open spec fn grouped(digits: Seq<char>, separator: Seq<char>) -> Seq<char>
    decreases digits.len(),
{
    if digits.len() <= 3 {
        digits
    } else {
        grouped(digits.take(digits.len() - 3), separator) + separator + digits.skip(
            digits.len() - 3,
        )
    }
}

impl FormatterView {
    /// The first character of the decimal mark, or nothing where the mark is empty.
    pub open spec fn decimal_mark(self) -> Seq<char> {
        self.decimal.take(if self.decimal.len() > 0 { 1int } else { 0int })
    }

    /// The digits in front of the decimal mark, grouped.
    pub open spec fn whole_part(self, magnitude: nat) -> Seq<char> {
        let digits = padded(decimal_digits(magnitude), self.fraction + 1);
        let whole = digits.take(digits.len() - self.fraction);
        if self.thousand.len() > 0 {
            grouped(whole, self.thousand)
        } else {
            whole
        }
    }

    /// The digits behind the decimal mark: exactly `fraction` of them.
    pub open spec fn fraction_part(self, magnitude: nat) -> Seq<char> {
        let digits = padded(decimal_digits(magnitude), self.fraction + 1);
        digits.skip(digits.len() - self.fraction)
    }

    /// The pattern into which the number and the symbol are set: the
    /// template or, where the template is empty, the number alone.
    pub open spec fn pattern(self) -> Seq<char> {
        if self.template.len() == 0 {
            seq!['1']
        } else {
            self.template
        }
    }

    /// The number without sign or symbol.
    pub open spec fn numeral(self, magnitude: nat) -> Seq<char> {
        if self.fraction > 0 {
            self.whole_part(magnitude) + self.decimal_mark() + self.fraction_part(magnitude)
        } else {
            self.whole_part(magnitude)
        }
    }

    /// Whether the digits of `size` or the separator between their groups
    /// hold `c`.
    pub open spec fn number_brings(self, size: nat, c: char) -> bool {
        let digits = decimal_digits(size);
        digits.contains(c) || (digits.len() > 3 && self.thousand.contains(c))
    }

    /// Whether the pattern, or the number set into it, holds `c`.
    pub open spec fn pattern_brings(self, size: nat, c: char) -> bool {
        (c != '1' && self.pattern().contains(c)) || (self.pattern().contains('1')
            && self.number_brings(size, c))
    }

    /// Whether the sign, the template, the digits, the group separator or
    /// the symbol put `c` into the text for `amount`: every part but the
    /// decimal mark and the digits behind it.
    pub open spec fn brings(self, amount: int, c: char) -> bool {
        let size = magnitude(amount);
        ||| amount < 0 && c == '-'
        ||| c != '$' && self.pattern_brings(size, c)
        ||| self.pattern_brings(size, '$') && self.grapheme.contains(c)
    }

    /// The text that stands for `amount` minor units.
    pub open spec fn format(self, amount: int) -> Seq<char> {
        let number = self.numeral(magnitude(amount));
        let body = substituted(substituted(self.pattern(), '1', number), '$', self.grapheme);
        if amount < 0 {
            seq!['-'] + body
        } else {
            body
        }
    }
}

/// Turns amounts in minor units into text, for one currency's conventions.
#[derive(Debug)]
pub struct Formatter {
    pub fraction: usize,
    pub decimal: String,
    pub thousand: String,
    pub grapheme: String,
    pub template: String,
}

impl View for Formatter {
    type V = FormatterView;

    open spec fn view(&self) -> FormatterView {
        FormatterView {
            fraction: self.fraction as nat,
            decimal: self.decimal@,
            thousand: self.thousand@,
            grapheme: self.grapheme@,
            template: self.template@,
        }
    }
}

impl Clone for Formatter {
    fn clone(&self) -> (copy: Self)
        ensures
            copy@ == self@,
    {
        Formatter {
            fraction: self.fraction,
            decimal: self.decimal.clone(),
            thousand: self.thousand.clone(),
            grapheme: self.grapheme.clone(),
            template: self.template.clone(),
        }
    }
}

/// Appends `digits`, grouped by `separator`, to `out`.
fn push_grouped(out: &mut Vec<char>, digits: &Vec<char>, start: usize, end: usize, separator: &Vec<char>)
    requires
        start < end <= digits.len(),
    ensures
        final(out)@ == old(out)@ + grouped(digits@.subrange(start as int, end as int), separator@),
{
    let ghost whole = digits@.subrange(start as int, end as int);
    let len: usize = end - start;
    let head: usize = (len - 1) % 3 + 1;
    push_range(out, digits, start, start + head);
    assert(digits@.subrange(start as int, start + head) == whole.take(head as int));
    let mut done: usize = head;
    while done < len
        invariant
            1 <= done <= len,
            len == end - start,
            end <= digits.len(),
            (len - done) % 3 == 0,
            whole == digits@.subrange(start as int, end as int),
            out@ == old(out)@ + grouped(whole.take(done as int), separator@),
        decreases len - done,
    {
        push_range(out, separator, 0, separator.len());
        push_range(out, digits, start + done, start + done + 3);
        proof {
            let next = whole.take(done + 3);
            assert(separator@.subrange(0, separator@.len() as int) == separator@);
            assert(next.take(next.len() - 3) == whole.take(done as int));
            assert(next.skip(next.len() - 3) == digits@.subrange(start + done, start + done + 3));
        }
        done += 3;
    }
    assert(whole.take(len as int) == whole);
}

impl Formatter {
    /// A formatter with the given conventions.
    pub fn new(fraction: usize, decimal: &str, thousand: &str, grapheme: &str, template: &str) -> (formatter: Self)
        ensures
            formatter@ == (FormatterView {
                fraction: fraction as nat,
                decimal: decimal@,
                thousand: thousand@,
                grapheme: grapheme@,
                template: template@,
            }),
    {
        Formatter {
            fraction,
            decimal: decimal.to_owned(),
            thousand: thousand.to_owned(),
            grapheme: grapheme.to_owned(),
            template: template.to_owned(),
        }
    }

    /// The text for `amount` minor units: digits with grouping and decimal
    /// mark, set into the template with the symbol, and a leading `-` for a
    /// negative amount. An empty template gives the bare number.
    pub fn format(&self, amount: i64) -> (text: String)
        ensures
            text@ == self@.format(amount as int),
    {
        let number = self.numeral(self.abs(amount));
        let mut pattern = chars_of(self.template.as_str());
        if pattern.len() == 0 {
            pattern.push('1');
        }
        assert(pattern@ == self@.pattern());
        let grapheme = chars_of(self.grapheme.as_str());
        let with_number = substitute(&pattern, '1', &number);
        let body = substitute(&with_number, '$', &grapheme);
        let mut signed: Vec<char> = Vec::new();
        if amount < 0 {
            signed.push('-');
        }
        push_range(&mut signed, &body, 0, body.len());
        assert(body@.subrange(0, body@.len() as int) == body@);
        text_of(&signed)
    }

    /// The number `magnitude` laid out with grouping and decimal mark.
    fn numeral(&self, magnitude: u64) -> (number: Vec<char>)
        ensures
            number@ == self@.numeral(magnitude as nat),
    {
        let mut digits: Vec<char> = Vec::new();
        push_decimal_digits(&mut digits, magnitude);
        proof {
            lemma_decimal_digits_len(magnitude as nat);
        }
        let thousand = chars_of(self.thousand.as_str());
        let len = digits.len();
        let ghost all = padded(digits@, self@.fraction + 1);
        let mut number: Vec<char> = Vec::new();
        if len > self.fraction {
            let boundary = len - self.fraction;
            assert(digits@.subrange(0, boundary as int) == all.take(all.len() - self@.fraction));
            assert(digits@.subrange(boundary as int, len as int) == all.skip(all.len() - self@.fraction));
            if thousand.len() > 0 {
                push_grouped(&mut number, &digits, 0, boundary, &thousand);
            } else {
                push_range(&mut number, &digits, 0, boundary);
            }
            if self.fraction > 0 {
                self.push_decimal_mark(&mut number);
                push_range(&mut number, &digits, boundary, len);
            }
        } else {
            // A single zero stands in front of the mark.
            number.push('0');
            assert(all.take(all.len() - self@.fraction) == seq!['0']);
            assert(grouped(seq!['0'], thousand@) == seq!['0']);
            if self.fraction > 0 {
                self.push_decimal_mark(&mut number);
                let mut zeros: usize = self.fraction - len;
                let ghost before = number@;
                while zeros > 0
                    invariant
                        number@ == before + Seq::new((self.fraction - len - zeros) as nat, |i: int| '0'),
                        zeros <= self.fraction - len,
                    decreases zeros,
                {
                    number.push('0');
                    zeros -= 1;
                }
                push_range(&mut number, &digits, 0, len);
                assert(digits@.subrange(0, len as int) == digits@);
                assert(Seq::new((self.fraction - len) as nat, |i: int| '0') + digits@
                    == all.skip(all.len() - self@.fraction));
            }
        }
        number
    }

    /// Appends the decimal mark to `out`.
    fn push_decimal_mark(&self, out: &mut Vec<char>)
        ensures
            final(out)@ == old(out)@ + self@.decimal_mark(),
    {
        let decimal = chars_of(self.decimal.as_str());
        if decimal.len() > 0 {
            out.push(decimal[0]);
            assert(self@.decimal_mark() == seq![decimal@[0]]);
        } else {
            assert(self@.decimal_mark() == Seq::<char>::empty());
        }
    }

    /// The absolute value of `amount`, which always fits the unsigned type.
    fn abs(&self, amount: i64) -> (value: u64)
        ensures
            value == magnitude(amount as int),
    {
        magnitude_of(amount)
    }
}

/// The text for a negative amount is `-` and the text for the amount
/// without its sign.
pub proof fn lemma_format_negated(formatter: FormatterView, amount: int)
    requires
        amount > 0,
    ensures
        formatter.format(-amount) == seq!['-'] + formatter.format(amount),
{
}

/// With no digits after the mark, the decimal mark has no part in the text:
/// two formatters that differ in it alone write every amount alike.
pub proof fn lemma_zero_fraction_ignores_decimal(
    formatter: FormatterView,
    other: FormatterView,
    amount: int,
)
    requires
        formatter.fraction == 0,
        other == (FormatterView { decimal: other.decimal, ..formatter }),
    ensures
        formatter.format(amount) == other.format(amount),
{
}

/// What grouping holds: the digits and, where there are more than three of
/// them, the separator.
pub proof fn lemma_grouped_contains(digits: Seq<char>, separator: Seq<char>, c: char)
    ensures
        grouped(digits, separator).contains(c) <==> digits.contains(c) || (digits.len() > 3
            && separator.contains(c)),
    decreases digits.len(),
{
    if digits.len() > 3 {
        let front = digits.take(digits.len() - 3);
        let back = digits.skip(digits.len() - 3);
        lemma_grouped_contains(front, separator, c);
        lemma_concat_contains(grouped(front, separator), separator, c);
        lemma_concat_contains(grouped(front, separator) + separator, back, c);
        lemma_concat_contains(front, back, c);
        assert(front + back == digits);
    }
}

/// With no digits after the mark, a character is in the text exactly where
/// the sign, the template, the digits, the group separator or the symbol
/// bring it.
pub proof fn lemma_zero_fraction_text(formatter: FormatterView, amount: int, c: char)
    requires
        formatter.fraction == 0,
    ensures
        formatter.format(amount).contains(c) <==> formatter.brings(amount, c),
{
    let size = magnitude(amount);
    let digits = decimal_digits(size);
    let number = formatter.numeral(size);
    lemma_decimal_digits_len(size);
    assert(padded(digits, 1).take(digits.len() as int) == digits);
    lemma_grouped_contains(digits, formatter.thousand, c);
    lemma_grouped_contains(digits, formatter.thousand, '$');
    assert(number.contains(c) <==> formatter.number_brings(size, c));
    assert(number.contains('$') <==> formatter.number_brings(size, '$'));
    let pattern = substituted(formatter.pattern(), '1', number);
    lemma_substituted_contains(formatter.pattern(), '1', number, c);
    lemma_substituted_contains(formatter.pattern(), '1', number, '$');
    let body = substituted(pattern, '$', formatter.grapheme);
    lemma_substituted_contains(pattern, '$', formatter.grapheme, c);
    if amount < 0 {
        lemma_concat_contains(seq!['-'], body, c);
        assert(seq!['-'].contains(c) <==> c == '-') by {
            if c == '-' {
                assert(seq!['-'][0] == c);
            }
        }
    }
}

/// A currency without minor-unit digits is written without decimal mark:
/// the mark's character is not in the text unless the sign, the template,
/// the digits, the group separator or the symbol bring it.
pub proof fn lemma_zero_fraction_has_no_decimal_mark(formatter: FormatterView, amount: int)
    requires
        formatter.fraction == 0,
        formatter.decimal.len() > 0,
        !formatter.brings(amount, formatter.decimal[0]),
    ensures
        !formatter.format(amount).contains(formatter.decimal[0]),
{
    lemma_zero_fraction_text(formatter, amount, formatter.decimal[0]);
}

/// A decimal numeral has at least one digit.
pub proof fn lemma_decimal_digits_len(n: nat)
    ensures
        decimal_digits(n).len() >= 1,
    decreases n,
{
    if n >= 10 {
        lemma_decimal_digits_len(n / 10);
    }
}

} // verus!

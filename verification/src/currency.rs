//! Currencies and the registry that holds them by code.
use vstd::prelude::*;
use vstd::hash_map::StringHashMap;
use vstd::utf8::is_ascii_chars;
use crate::formatter::{Formatter, FormatterView};
use crate::table::{default_list, default_rows};
use crate::text::{chars_of, same_text, text_of};

verus! {

/// What `str::to_uppercase` of the standard library returns for `text`: the
/// upper-case form by the Unicode case mapping, which may be longer than `text`.
pub uninterp spec fn unicode_uppercase(text: Seq<char>) -> Seq<char>;

/// `str::to_uppercase` of the standard library: the result is a function of the
/// characters of `text` alone. Nothing more is claimed of it here.
pub assume_specification[ str::to_uppercase ](text: &str) -> (upper: String)
    ensures
        upper@ == unicode_uppercase(text@),
;

/// `c` with the letters `a` to `z` mapped to `A` to `Z`.
pub open spec fn ascii_upper(c: char) -> char {
    if 'a' <= c <= 'z' {
        ((c as u8 - 32) as u8) as char
    } else {
        c
    }
}

/// `c` with the letters `A` to `Z` mapped to `a` to `z`.
pub open spec fn ascii_lower(c: char) -> char {
    if 'A' <= c <= 'Z' {
        ((c as u8 + 32) as u8) as char
    } else {
        c
    }
}

/// `text` with each character mapped by [`ascii_upper`].
pub open spec fn ascii_uppercase(text: Seq<char>) -> Seq<char> {
    Seq::new(text.len(), |i: int| ascii_upper(text[i]))
}

/// `text` with each character mapped by [`ascii_lower`].
pub open spec fn ascii_lowercase(text: Seq<char>) -> Seq<char> {
    Seq::new(text.len(), |i: int| ascii_lower(text[i]))
}

/// The form under which a code is kept and looked up. ASCII text, which
/// covers every code of the bundled table, is folded letter by letter; other
/// text takes the Unicode upper-case form.
pub open spec fn normalized_code(code: Seq<char>) -> Seq<char> {
    if is_ascii_chars(code) {
        ascii_uppercase(code)
    } else {
        unicode_uppercase(code)
    }
}

/// The upper-case form of `code`.
pub fn normalize_code(code: &str) -> (upper: String)
    ensures
        upper@ == normalized_code(code@),
{
    if code.is_ascii() {
        let chars = chars_of(code);
        let mut folded: Vec<char> = Vec::new();
        let mut i: usize = 0;
        while i < chars.len()
            invariant
                i <= chars.len(),
                folded@ == ascii_uppercase(chars@.take(i as int)),
            decreases chars.len() - i,
        {
            let c = chars[i];
            if 'a' <= c && c <= 'z' {
                folded.push((c as u8 - 32) as char);
            } else {
                folded.push(c);
            }
            i += 1;
        }
        assert(chars@.take(chars@.len() as int) == chars@);
        text_of(&folded)
    } else {
        code.to_uppercase()
    }
}

/// What a currency is, as plain values.
pub struct CurrencyView {
    /// The code, in the form under which it is looked up.
    pub code: Seq<char>,
    /// The ISO numeric code; empty where there is none.
    pub numeric_code: Seq<char>,
    /// Number of minor-unit digits.
    pub fraction: nat,
    /// The symbol.
    pub grapheme: Seq<char>,
    /// The display pattern: `1` stands for the number, `$` for the symbol.
    pub template: Seq<char>,
    /// The decimal mark.
    pub decimal: Seq<char>,
    /// The separator between groups of three digits.
    pub thousand: Seq<char>,
}

impl CurrencyView {
    /// The currency that has only a code: no digits after the mark and every
    /// text empty.
    pub open spec fn bare(code: Seq<char>) -> CurrencyView {
        CurrencyView {
            code,
            numeric_code: Seq::empty(),
            fraction: 0,
            grapheme: Seq::empty(),
            template: Seq::empty(),
            decimal: Seq::empty(),
            thousand: Seq::empty(),
        }
    }

    /// The conventions by which amounts in this currency are written.
    pub open spec fn formatter(self) -> FormatterView {
        FormatterView {
            fraction: self.fraction,
            decimal: self.decimal,
            thousand: self.thousand,
            grapheme: self.grapheme,
            template: self.template,
        }
    }

    /// This currency with everything but its code taken from `found`.
    pub open spec fn described_by(self, found: CurrencyView) -> CurrencyView {
        CurrencyView { code: self.code, ..found }
    }

    /// This currency after its code was looked up in `registry`: described by
    /// the entry found, or unchanged where there is none.
    pub open spec fn resolved_in(self, registry: Map<Seq<char>, CurrencyView>) -> CurrencyView {
        match lookup(registry, self.code) {
            Some(found) => self.described_by(found),
            None => self,
        }
    }
}

/// The entry of `registry` for `code`, whatever the case of its letters.
pub open spec fn lookup(registry: Map<Seq<char>, CurrencyView>, code: Seq<char>) -> Option<
    CurrencyView,
> {
    let key = normalized_code(code);
    if registry.contains_key(key) {
        Some(registry[key])
    } else {
        None
    }
}

/// Folding an ASCII code to either case leaves its normal form as it was.
pub proof fn lemma_normalized_code_ignores_case(code: Seq<char>)
    requires
        is_ascii_chars(code),
    ensures
        normalized_code(ascii_uppercase(code)) == normalized_code(code),
        normalized_code(ascii_lowercase(code)) == normalized_code(code),
        normalized_code(normalized_code(code)) == normalized_code(code),
{
    let upper = ascii_uppercase(code);
    let lower = ascii_lowercase(code);
    assert forall|i: int| 0 <= i < code.len() implies ascii_upper(#[trigger] upper[i]) == upper[i]
        && ascii_upper(#[trigger] lower[i]) == upper[i] && '\0' <= upper[i] <= '\u{7f}' && '\0'
        <= lower[i] <= '\u{7f}' by {
        assert('\0' <= code[i] <= '\u{7f}');
    }
    assert(is_ascii_chars(upper));
    assert(is_ascii_chars(lower));
    assert(ascii_uppercase(upper) == upper);
    assert(ascii_uppercase(lower) == upper);
}

/// A lookup does not depend on the case in which the letters of an ASCII
/// code are written.
pub proof fn lemma_lookup_ignores_case(registry: Map<Seq<char>, CurrencyView>, code: Seq<char>)
    requires
        is_ascii_chars(code),
    ensures
        lookup(registry, ascii_uppercase(code)) == lookup(registry, code),
        lookup(registry, ascii_lowercase(code)) == lookup(registry, code),
{
    lemma_normalized_code_ignores_case(code);
}

/// A currency: its code and how amounts in it are written.
#[derive(Debug)]
pub struct Currency {
    code: String,
    numeric_code: &'static str,
    fraction: usize,
    grapheme: &'static str,
    template: &'static str,
    decimal: &'static str,
    thousand: &'static str,
}

impl View for Currency {
    type V = CurrencyView;

    closed spec fn view(&self) -> CurrencyView {
        CurrencyView {
            code: self.code@,
            numeric_code: self.numeric_code@,
            fraction: self.fraction as nat,
            grapheme: self.grapheme@,
            template: self.template@,
            decimal: self.decimal@,
            thousand: self.thousand@,
        }
    }
}

impl Clone for Currency {
    fn clone(&self) -> (copy: Self)
        ensures
            copy@ == self@,
    {
        Currency {
            code: self.code.clone(),
            numeric_code: self.numeric_code,
            fraction: self.fraction,
            grapheme: self.grapheme,
            template: self.template,
            decimal: self.decimal,
            thousand: self.thousand,
        }
    }
}

impl Currency {
    /// The currency known by its code alone.
    pub fn new(code: &str) -> (currency: Self)
        ensures
            currency@ == CurrencyView::bare(normalized_code(code@)),
    {
        proof {
            reveal_strlit("");
            assert(""@ == Seq::<char>::empty());
        }
        Self {
            code: normalize_code(code),
            numeric_code: "",
            fraction: 0,
            grapheme: "",
            template: "",
            decimal: "",
            thousand: "",
        }
    }

    /// A currency with every part given.
    pub fn new_all(
        code: &str,
        grapheme: &'static str,
        numeric_code: &'static str,
        template: &'static str,
        decimal: &'static str,
        thousand: &'static str,
        fraction: usize,
    ) -> (currency: Self)
        ensures
            currency@ == (CurrencyView {
                code: normalized_code(code@),
                numeric_code: numeric_code@,
                fraction: fraction as nat,
                grapheme: grapheme@,
                template: template@,
                decimal: decimal@,
                thousand: thousand@,
            }),
    {
        Self { code: normalize_code(code), numeric_code, fraction, grapheme, template, decimal, thousand }
    }

    /// A row of the bundled table, whose code is written in upper case
    /// already and is kept as it stands.
    pub(crate) fn listed(
        code: &'static str,
        numeric_code: &'static str,
        fraction: usize,
        grapheme: &'static str,
        template: &'static str,
        decimal: &'static str,
        thousand: &'static str,
    ) -> (currency: Self)
        ensures
            currency@ == (CurrencyView {
                code: code@,
                numeric_code: numeric_code@,
                fraction: fraction as nat,
                grapheme: grapheme@,
                template: template@,
                decimal: decimal@,
                thousand: thousand@,
            }),
    {
        Self { code: code.to_owned(), numeric_code, fraction, grapheme, template, decimal, thousand }
    }

    /// The code, in upper case.
    pub fn code(&self) -> (code: &str)
        ensures
            code@ == self@.code,
    {
        self.code.as_str()
    }

    /// The ISO numeric code; empty where there is none.
    pub fn numeric_code(&self) -> (numeric_code: &'static str)
        ensures
            numeric_code@ == self@.numeric_code,
    {
        self.numeric_code
    }

    /// The number of minor-unit digits.
    pub fn fraction(&self) -> (fraction: usize)
        ensures
            fraction == self@.fraction,
    {
        self.fraction
    }

    /// The symbol.
    pub fn grapheme(&self) -> (grapheme: &'static str)
        ensures
            grapheme@ == self@.grapheme,
    {
        self.grapheme
    }

    /// The display pattern: `1` stands for the number, `$` for the symbol.
    pub fn template(&self) -> (template: &'static str)
        ensures
            template@ == self@.template,
    {
        self.template
    }

    /// The decimal mark.
    pub fn decimal(&self) -> (decimal: &'static str)
        ensures
            decimal@ == self@.decimal,
    {
        self.decimal
    }

    /// The separator between groups of three digits.
    pub fn thousand(&self) -> (thousand: &'static str)
        ensures
            thousand@ == self@.thousand,
    {
        self.thousand
    }

    /// Fills in everything but the code from the bundled table's entry for
    /// the code. A code that the table lacks leaves the currency as it is.
    pub fn get(&mut self)
        ensures
            final(self)@ == old(self)@.resolved_in(default_registry()),
    {
        let registry = Currencies::default();
        match registry.get_currency_by_code(self.code.as_str()) {
            None => {},
            Some(found) => {
                self.decimal = found.decimal;
                self.fraction = found.fraction;
                self.numeric_code = found.numeric_code;
                self.grapheme = found.grapheme;
                self.template = found.template;
                self.thousand = found.thousand;
            },
        }
    }

    /// The formatter for amounts in this currency.
    pub fn formatter(&self) -> (formatter: Formatter)
        ensures
            formatter@ == self@.formatter(),
    {
        Formatter::new(self.fraction, self.decimal, self.thousand, self.grapheme, self.template)
    }
}

impl PartialEq for Currency {
    /// Two currencies are the same where their codes are.
    fn eq(&self, other: &Self) -> (same: bool) {
        self.code == other.code
    }
}

impl Eq for Currency {

}

impl vstd::std_specs::cmp::PartialEqSpecImpl for Currency {
    open spec fn obeys_eq_spec() -> bool {
        true
    }

    open spec fn eq_spec(&self, other: &Self) -> bool {
        self@.code == other@.code
    }
}

/// `registry` after `row` was registered under its code, in place of any
/// entry that had the code before.
pub open spec fn with_entry(
    registry: Map<Seq<char>, CurrencyView>,
    row: CurrencyView,
) -> Map<Seq<char>, CurrencyView> {
    registry.insert(row.code, row)
}

/// `order` after `code` was registered: new codes go to the end.
pub open spec fn with_code(order: Seq<Seq<char>>, code: Seq<char>) -> Seq<Seq<char>> {
    if order.contains(code) {
        order
    } else {
        order.push(code)
    }
}

/// `registry` after each of `rows` was registered, the first row first.
pub open spec fn with_entries(
    registry: Map<Seq<char>, CurrencyView>,
    rows: Seq<CurrencyView>,
) -> Map<Seq<char>, CurrencyView>
    decreases rows.len(),
{
    if rows.len() == 0 {
        registry
    } else {
        with_entry(with_entries(registry, rows.drop_last()), rows.last())
    }
}

/// `order` after the codes of `rows` were registered, the first row first.
pub open spec fn with_codes(order: Seq<Seq<char>>, rows: Seq<CurrencyView>) -> Seq<Seq<char>>
    decreases rows.len(),
{
    if rows.len() == 0 {
        order
    } else {
        with_code(with_codes(order, rows.drop_last()), rows.last().code)
    }
}

/// The entry of the first code in `order` whose numeric code is `numeric`.
pub open spec fn first_with_numeric_code(
    registry: Map<Seq<char>, CurrencyView>,
    order: Seq<Seq<char>>,
    numeric: Seq<char>,
) -> Option<CurrencyView>
    decreases order.len(),
{
    if order.len() == 0 {
        None
    } else if registry[order.first()].numeric_code == numeric {
        Some(registry[order.first()])
    } else {
        first_with_numeric_code(registry, order.drop_first(), numeric)
    }
}

/// The registry of the bundled currencies.
pub open spec fn default_registry() -> Map<Seq<char>, CurrencyView> {
    with_entries(Map::empty(), default_rows())
}

/// The codes of the bundled currencies in the order of their registration.
pub open spec fn default_order() -> Seq<Seq<char>> {
    with_codes(Seq::empty(), default_rows())
}

/// The views of `list`, in order.
pub open spec fn views_of(list: Seq<Currency>) -> Seq<CurrencyView> {
    Seq::new(list.len(), |i: int| list[i]@)
}

/// A registry of currencies by code.
pub struct Currencies {
    currencies: StringHashMap<Currency>,
    /// The registered codes, each once, in the order of first registration.
    codes: Vec<String>,
}

impl View for Currencies {
    type V = Map<Seq<char>, CurrencyView>;

    closed spec fn view(&self) -> Map<Seq<char>, CurrencyView> {
        self.currencies@.map_values(|currency: Currency| currency@)
    }
}

impl Currencies {
    /// The registered codes in the order in which each was first registered.
    pub closed spec fn order(&self) -> Seq<Seq<char>> {
        Seq::new(self.codes@.len(), |i: int| self.codes@[i]@)
    }

    /// Every entry stands under its own code, and `order` lists the codes
    /// that have an entry, each once.
    pub open spec fn wf(&self) -> bool {
        &&& forall|code: Seq<char>| #[trigger] self@.contains_key(code) ==> self@[code].code == code
        &&& forall|code: Seq<char>| self@.contains_key(code) <==> #[trigger] self.order().contains(code)
        &&& self.order().no_duplicates()
    }

    /// The empty registry.
    pub fn new() -> (registry: Self)
        ensures
            registry.wf(),
            registry@ == Map::<Seq<char>, CurrencyView>::empty(),
            registry.order() == Seq::<Seq<char>>::empty(),
    {
        let registry = Self { currencies: StringHashMap::new(), codes: Vec::new() };
        assert(registry@ == Map::<Seq<char>, CurrencyView>::empty());
        assert(registry.order() == Seq::<Seq<char>>::empty());
        registry
    }

    /// The first registered currency with the numeric code `code`.
    pub fn currency_by_numeric_code(&self, code: &str) -> (found: Option<&Currency>)
        requires
            self.wf(),
        ensures
            match found {
                Some(currency) => first_with_numeric_code(self@, self.order(), code@) == Some(
                    currency@,
                ),
                None => first_with_numeric_code(self@, self.order(), code@) is None,
            },
    {
        let mut i: usize = 0;
        assert(self.order().skip(0) == self.order());
        while i < self.codes.len()
            invariant
                i <= self.codes.len(),
                self.wf(),
                first_with_numeric_code(self@, self.order(), code@) == first_with_numeric_code(
                    self@,
                    self.order().skip(i as int),
                    code@,
                ),
            decreases self.codes.len() - i,
        {
            let ghost rest = self.order().skip(i as int);
            assert(rest.first() == self.order()[i as int]);
            assert(rest.drop_first() == self.order().skip(i + 1));
            assert(self.order().contains(self.order()[i as int]));
            match self.currencies.get(self.codes[i].as_str()) {
                Some(currency) => {
                    if same_text(currency.numeric_code, code) {
                        return Some(currency);
                    }
                },
                None => {},
            }
            i += 1;
        }
        assert(self.order().skip(i as int).len() == 0);
        None
    }

    /// The currency registered under `code`, whatever the case of its letters.
    pub fn get_currency_by_code(&self, code: &str) -> (found: Option<&Currency>)
        ensures
            match found {
                Some(currency) => lookup(self@, code@) == Some(currency@),
                None => lookup(self@, code@) is None,
            },
    {
        let key = normalize_code(code);
        self.currencies.get(key.as_str())
    }

    /// Registers `currency` under its code, in place of any currency that had
    /// the code before.
    pub fn add(&mut self, currency: Currency)
        requires
            old(self).wf(),
        ensures
            final(self).wf(),
            final(self)@ == with_entry(old(self)@, currency@),
            final(self).order() == with_code(old(self).order(), currency@.code),
    {
        let key = currency.code.clone();
        if !self.currencies.contains_key(key.as_str()) {
            self.codes.push(key.clone());
        }
        self.currencies.insert(key, currency);
        proof {
            let code = currency@.code;
            assert(self@ == with_entry(old(self)@, currency@));
            if old(self)@.contains_key(code) {
                assert(self.order() == old(self).order());
            } else {
                assert(self.order() == old(self).order().push(code));
                assert(!old(self).order().contains(code));
            }
            assert(self.order().no_duplicates());
            assert forall|other: Seq<char>| #[trigger] self@.contains_key(other) implies self@[other].code
                == other by {
                if other != code {
                    assert(old(self)@.contains_key(other));
                }
            }
            assert forall|other: Seq<char>| self@.contains_key(other) <==> #[trigger] self.order().contains(
                other,
            ) by {
                if other != code {
                    assert(old(self)@.contains_key(other) <==> old(self).order().contains(other));
                    if old(self).order().contains(other) {
                        let at = old(self).order().index_of(other);
                        assert(self.order()[at] == other);
                    }
                } else {
                    if old(self)@.contains_key(code) {
                        assert(old(self).order().contains(code));
                    } else {
                        assert(self.order()[old(self).order().len() as int] == code);
                    }
                }
            }
        }
    }

    /// Registers each of `list`, the first first.
    pub fn add_bulk(&mut self, list: Vec<Currency>)
        requires
            old(self).wf(),
        ensures
            final(self).wf(),
            final(self)@ == with_entries(old(self)@, views_of(list@)),
            final(self).order() == with_codes(old(self).order(), views_of(list@)),
    {
        let mut i: usize = 0;
        while i < list.len()
            invariant
                i <= list.len(),
                self.wf(),
                self@ == with_entries(old(self)@, views_of(list@).take(i as int)),
                self.order() == with_codes(old(self).order(), views_of(list@).take(i as int)),
            decreases list.len() - i,
        {
            assert(views_of(list@).take(i + 1).drop_last() == views_of(list@).take(i as int));
            self.add(list[i].clone());
            i += 1;
        }
        assert(views_of(list@).take(list@.len() as int) == views_of(list@));
    }
}

/// A search by numeric code finds an entry of the registry that has the
/// numeric code, and finds none only where no entry has it.
pub proof fn lemma_numeric_code_search(registry: Currencies, numeric: Seq<char>)
    requires
        registry.wf(),
    ensures
        match first_with_numeric_code(registry@, registry.order(), numeric) {
            Some(found) => registry@.contains_key(found.code) && registry@[found.code] == found
                && found.numeric_code == numeric,
            None => forall|code: Seq<char>| #[trigger]
                registry@.contains_key(code) ==> registry@[code].numeric_code != numeric,
        },
{
    lemma_first_with_numeric_code(registry@, registry.order(), numeric);
    let order = registry.order();
    assert forall|i: int| 0 <= i < order.len() implies registry@.contains_key(#[trigger] order[i]) by {
        assert(order.contains(order[i]));
    }
    if first_with_numeric_code(registry@, order, numeric) is None {
        assert forall|code: Seq<char>| #[trigger] registry@.contains_key(code) implies registry@[code].numeric_code
            != numeric by {
            assert(order.contains(code));
            let i = order.index_of(code);
            assert(order[i] == code);
        }
    }
}

/// The search takes the first code in `order` whose entry has the numeric
/// code.
pub proof fn lemma_first_with_numeric_code(
    registry: Map<Seq<char>, CurrencyView>,
    order: Seq<Seq<char>>,
    numeric: Seq<char>,
)
    ensures
        match first_with_numeric_code(registry, order, numeric) {
            Some(found) => exists|i: int|
                {
                    &&& 0 <= i < order.len()
                    &&& found == registry[#[trigger] order[i]]
                    &&& found.numeric_code == numeric
                    &&& forall|j: int| 0 <= j < i ==> registry[#[trigger] order[j]].numeric_code != numeric
                },
            None => forall|i: int|
                0 <= i < order.len() ==> registry[#[trigger] order[i]].numeric_code != numeric,
        },
    decreases order.len(),
{
    if order.len() > 0 && registry[order.first()].numeric_code != numeric {
        let rest = order.drop_first();
        lemma_first_with_numeric_code(registry, rest, numeric);
        match first_with_numeric_code(registry, rest, numeric) {
            Some(found) => {
                let i = choose|i: int|
                    {
                        &&& 0 <= i < rest.len()
                        &&& found == registry[#[trigger] rest[i]]
                        &&& found.numeric_code == numeric
                        &&& forall|j: int| 0 <= j < i ==> registry[#[trigger] rest[j]].numeric_code != numeric
                    };
                assert(order[i + 1] == rest[i]);
                assert forall|j: int| 0 <= j < i + 1 implies registry[#[trigger] order[j]].numeric_code
                    != numeric by {
                    if j > 0 {
                        assert(order[j] == rest[j - 1]);
                    }
                }
            },
            None => {
                assert forall|i: int| 0 <= i < order.len() implies registry[#[trigger] order[i]].numeric_code
                    != numeric by {
                    if i > 0 {
                        assert(order[i] == rest[i - 1]);
                    }
                }
            },
        }
    } else if order.len() > 0 {
        assert(order[0] == order.first());
    }
}

impl Default for Currencies {
    /// The registry of the bundled currencies.
    fn default() -> (registry: Self)
        ensures
            registry.wf(),
            registry@ == default_registry(),
            registry.order() == default_order(),
    {
        let mut currencies = Currencies::new();
        currencies.add_bulk(default_list());
        currencies
    }
}

} // verus!

//! The bundled currency table.
use vstd::prelude::*;
use crate::currency::{views_of, Currency, CurrencyView};

verus! {

/// One row of the table: a code, its numeric code, the number of minor-unit
/// digits, the symbol, the display pattern, the decimal mark and the group
/// separator.
pub open spec fn row(
    code: Seq<char>,
    numeric_code: Seq<char>,
    fraction: nat,
    grapheme: Seq<char>,
    template: Seq<char>,
    decimal: Seq<char>,
    thousand: Seq<char>,
) -> CurrencyView {
    CurrencyView { code, numeric_code, fraction, grapheme, template, decimal, thousand }
}

/// Appends one row to `list`.
fn push_row(
    list: &mut Vec<Currency>,
    code: &'static str,
    numeric_code: &'static str,
    fraction: usize,
    grapheme: &'static str,
    template: &'static str,
    decimal: &'static str,
    thousand: &'static str,
)
    ensures
        views_of(final(list)@) == views_of(old(list)@).push(
            row(code@, numeric_code@, fraction as nat, grapheme@, template@, decimal@, thousand@),
        ),
{
    list.push(Currency::listed(code, numeric_code, fraction, grapheme, template, decimal, thousand));
}

/// The bundled currencies whose codes begin with A.
pub open spec fn rows_a() -> Seq<CurrencyView> {
    seq![
        row("AED"@, "784"@, 2, ".د.إ"@, "1 $"@, "."@, ","@),
        row("AFN"@, "971"@, 2, "؋"@, "1 $"@, "."@, ","@),
        row("ALL"@, "008"@, 2, "L"@, "$1"@, "."@, ","@),
        row("AMD"@, "051"@, 2, "դր."@, "1 $"@, "."@, ","@),
        row("ANG"@, "532"@, 2, "ƒ"@, "$1"@, ","@, "."@),
        row("AOA"@, "973"@, 2, "Kz"@, "1$"@, "."@, ","@),
        row("ARS"@, "032"@, 2, "$"@, "$1"@, ","@, "."@),
        row("AUD"@, "036"@, 2, "$"@, "$1"@, "."@, ","@),
        row("AWG"@, "533"@, 2, "ƒ"@, "1$"@, "."@, ","@),
        row("AZN"@, "944"@, 2, "₼"@, "$1"@, "."@, ","@),
    ]
}

fn push_rows_a(list: &mut Vec<Currency>)
    ensures
        views_of(final(list)@) == views_of(old(list)@) + rows_a(),
{
    push_row(list, "AED", "784", 2, ".د.إ", "1 $", ".", ",");
    push_row(list, "AFN", "971", 2, "؋", "1 $", ".", ",");
    push_row(list, "ALL", "008", 2, "L", "$1", ".", ",");
    push_row(list, "AMD", "051", 2, "դր.", "1 $", ".", ",");
    push_row(list, "ANG", "532", 2, "ƒ", "$1", ",", ".");
    push_row(list, "AOA", "973", 2, "Kz", "1$", ".", ",");
    push_row(list, "ARS", "032", 2, "$", "$1", ",", ".");
    push_row(list, "AUD", "036", 2, "$", "$1", ".", ",");
    push_row(list, "AWG", "533", 2, "ƒ", "1$", ".", ",");
    push_row(list, "AZN", "944", 2, "₼", "$1", ".", ",");
}

/// The bundled currencies whose codes begin with B.
pub open spec fn rows_b() -> Seq<CurrencyView> {
    seq![
        row("BAM"@, "977"@, 2, "KM"@, "$1"@, "."@, ","@),
        row("BBD"@, "052"@, 2, "$"@, "$1"@, "."@, ","@),
        row("BDT"@, "050"@, 2, "৳"@, "$1"@, "."@, ","@),
        row("BGN"@, "975"@, 2, "лв"@, "$1"@, "."@, ","@),
        row("BHD"@, "048"@, 3, ".د.ب"@, "1 $"@, "."@, ","@),
        row("BIF"@, "108"@, 0, "Fr"@, "1$"@, "."@, ","@),
        row("BMD"@, "060"@, 2, "$"@, "$1"@, "."@, ","@),
        row("BND"@, "096"@, 2, "$"@, "$1"@, "."@, ","@),
        row("BOB"@, "068"@, 2, "Bs."@, "$1"@, "."@, ","@),
        row("BRL"@, "986"@, 2, "R$"@, "$1"@, ","@, "."@),
        row("BSD"@, "044"@, 2, "$"@, "$1"@, "."@, ","@),
        row("BTN"@, "064"@, 2, "Nu."@, "1$"@, "."@, ","@),
        row("BWP"@, "072"@, 2, "P"@, "$1"@, "."@, ","@),
        row("BYN"@, "933"@, 2, "р."@, "1 $"@, ","@, " "@),
        row("BYR"@, ""@, 0, "р."@, "1 $"@, ","@, " "@),
        row("BZD"@, "084"@, 2, "BZ$"@, "$1"@, "."@, ","@),
    ]
}

fn push_rows_b(list: &mut Vec<Currency>)
    ensures
        views_of(final(list)@) == views_of(old(list)@) + rows_b(),
{
    push_row(list, "BAM", "977", 2, "KM", "$1", ".", ",");
    push_row(list, "BBD", "052", 2, "$", "$1", ".", ",");
    push_row(list, "BDT", "050", 2, "৳", "$1", ".", ",");
    push_row(list, "BGN", "975", 2, "лв", "$1", ".", ",");
    push_row(list, "BHD", "048", 3, ".د.ب", "1 $", ".", ",");
    push_row(list, "BIF", "108", 0, "Fr", "1$", ".", ",");
    push_row(list, "BMD", "060", 2, "$", "$1", ".", ",");
    push_row(list, "BND", "096", 2, "$", "$1", ".", ",");
    push_row(list, "BOB", "068", 2, "Bs.", "$1", ".", ",");
    push_row(list, "BRL", "986", 2, "R$", "$1", ",", ".");
    push_row(list, "BSD", "044", 2, "$", "$1", ".", ",");
    push_row(list, "BTN", "064", 2, "Nu.", "1$", ".", ",");
    push_row(list, "BWP", "072", 2, "P", "$1", ".", ",");
    push_row(list, "BYN", "933", 2, "р.", "1 $", ",", " ");
    push_row(list, "BYR", "", 0, "р.", "1 $", ",", " ");
    push_row(list, "BZD", "084", 2, "BZ$", "$1", ".", ",");
}

/// The bundled currencies whose codes begin with C.
pub open spec fn rows_c() -> Seq<CurrencyView> {
    seq![
        row("CAD"@, "124"@, 2, "$"@, "$1"@, "."@, ","@),
        row("CDF"@, "976"@, 2, "FC"@, "1$"@, "."@, ","@),
        row("CHF"@, "756"@, 2, "CHF"@, "1 $"@, "."@, ","@),
        row("CLF"@, "990"@, 4, "UF"@, "$1"@, ","@, "."@),
        row("CLP"@, "152"@, 0, "$"@, "$1"@, ","@, "."@),
        row("CNY"@, "156"@, 2, "元"@, "1 $"@, "."@, ","@),
        row("COP"@, "170"@, 2, "$"@, "$1"@, ","@, "."@),
        row("CRC"@, "188"@, 2, "₡"@, "$1"@, "."@, ","@),
        row("CUC"@, "931"@, 2, "$"@, "1$"@, "."@, ","@),
        row("CUP"@, "192"@, 2, "$MN"@, "$1"@, "."@, ","@),
        row("CVE"@, "132"@, 2, "$"@, "1$"@, "."@, ","@),
        row("CZK"@, "203"@, 2, "Kč"@, "1 $"@, "."@, ","@),
    ]
}

fn push_rows_c(list: &mut Vec<Currency>)
    ensures
        views_of(final(list)@) == views_of(old(list)@) + rows_c(),
{
    push_row(list, "CAD", "124", 2, "$", "$1", ".", ",");
    push_row(list, "CDF", "976", 2, "FC", "1$", ".", ",");
    push_row(list, "CHF", "756", 2, "CHF", "1 $", ".", ",");
    push_row(list, "CLF", "990", 4, "UF", "$1", ",", ".");
    push_row(list, "CLP", "152", 0, "$", "$1", ",", ".");
    push_row(list, "CNY", "156", 2, "元", "1 $", ".", ",");
    push_row(list, "COP", "170", 2, "$", "$1", ",", ".");
    push_row(list, "CRC", "188", 2, "₡", "$1", ".", ",");
    push_row(list, "CUC", "931", 2, "$", "1$", ".", ",");
    push_row(list, "CUP", "192", 2, "$MN", "$1", ".", ",");
    push_row(list, "CVE", "132", 2, "$", "1$", ".", ",");
    push_row(list, "CZK", "203", 2, "Kč", "1 $", ".", ",");
}

/// The bundled currencies whose codes begin with D.
pub open spec fn rows_d() -> Seq<CurrencyView> {
    seq![
        row("DJF"@, "262"@, 0, "Fdj"@, "1 $"@, "."@, ","@),
        row("DKK"@, "208"@, 2, "kr"@, "$ 1"@, ","@, "."@),
        row("DOP"@, "214"@, 2, "RD$"@, "$1"@, "."@, ","@),
        row("DZD"@, "012"@, 2, ".د.ج"@, "1 $"@, "."@, ","@),
    ]
}

fn push_rows_d(list: &mut Vec<Currency>)
    ensures
        views_of(final(list)@) == views_of(old(list)@) + rows_d(),
{
    push_row(list, "DJF", "262", 0, "Fdj", "1 $", ".", ",");
    push_row(list, "DKK", "208", 2, "kr", "$ 1", ",", ".");
    push_row(list, "DOP", "214", 2, "RD$", "$1", ".", ",");
    push_row(list, "DZD", "012", 2, ".د.ج", "1 $", ".", ",");
}

/// The bundled currencies whose codes begin with E.
pub open spec fn rows_e() -> Seq<CurrencyView> {
    seq![
        row("EEK"@, ""@, 2, "kr"@, "$1"@, "."@, ","@),
        row("EGP"@, "818"@, 2, "£"@, "$1"@, "."@, ","@),
        row("ERN"@, "232"@, 2, "Nfk"@, "1 $"@, "."@, ","@),
        row("ETB"@, "230"@, 2, "Br"@, "1 $"@, "."@, ","@),
        row("EUR"@, "978"@, 2, "€"@, "$1"@, "."@, ","@),
    ]
}

fn push_rows_e(list: &mut Vec<Currency>)
    ensures
        views_of(final(list)@) == views_of(old(list)@) + rows_e(),
{
    push_row(list, "EEK", "", 2, "kr", "$1", ".", ",");
    push_row(list, "EGP", "818", 2, "£", "$1", ".", ",");
    push_row(list, "ERN", "232", 2, "Nfk", "1 $", ".", ",");
    push_row(list, "ETB", "230", 2, "Br", "1 $", ".", ",");
    push_row(list, "EUR", "978", 2, "€", "$1", ".", ",");
}

/// The bundled currencies whose codes begin with F.
pub open spec fn rows_f() -> Seq<CurrencyView> {
    seq![
        row("FJD"@, "242"@, 2, "$"@, "$1"@, "."@, ","@),
        row("FKP"@, "238"@, 2, "£"@, "$1"@, "."@, ","@),
    ]
}

fn push_rows_f(list: &mut Vec<Currency>)
    ensures
        views_of(final(list)@) == views_of(old(list)@) + rows_f(),
{
    push_row(list, "FJD", "242", 2, "$", "$1", ".", ",");
    push_row(list, "FKP", "238", 2, "£", "$1", ".", ",");
}

/// The bundled currencies whose codes begin with G.
pub open spec fn rows_g() -> Seq<CurrencyView> {
    seq![
        row("GBP"@, "826"@, 2, "£"@, "$1"@, "."@, ","@),
        row("GEL"@, "981"@, 2, "ლ"@, "1 $"@, "."@, ","@),
        row("GGP"@, ""@, 2, "£"@, "$1"@, "."@, ","@),
        row("GHC"@, ""@, 2, "¢"@, "$1"@, "."@, ","@),
        row("GHS"@, "936"@, 2, "₵"@, "$1"@, "."@, ","@),
        row("GIP"@, "292"@, 2, "£"@, "$1"@, "."@, ","@),
        row("GMD"@, "270"@, 2, "D"@, "1 $"@, "."@, ","@),
        row("GNF"@, "324"@, 0, "FG"@, "1 $"@, "."@, ","@),
        row("GTQ"@, "320"@, 2, "Q"@, "$1"@, "."@, ","@),
        row("GYD"@, "328"@, 2, "$"@, "$1"@, "."@, ","@),
    ]
}

fn push_rows_g(list: &mut Vec<Currency>)
    ensures
        views_of(final(list)@) == views_of(old(list)@) + rows_g(),
{
    push_row(list, "GBP", "826", 2, "£", "$1", ".", ",");
    push_row(list, "GEL", "981", 2, "ლ", "1 $", ".", ",");
    push_row(list, "GGP", "", 2, "£", "$1", ".", ",");
    push_row(list, "GHC", "", 2, "¢", "$1", ".", ",");
    push_row(list, "GHS", "936", 2, "₵", "$1", ".", ",");
    push_row(list, "GIP", "292", 2, "£", "$1", ".", ",");
    push_row(list, "GMD", "270", 2, "D", "1 $", ".", ",");
    push_row(list, "GNF", "324", 0, "FG", "1 $", ".", ",");
    push_row(list, "GTQ", "320", 2, "Q", "$1", ".", ",");
    push_row(list, "GYD", "328", 2, "$", "$1", ".", ",");
}

/// The bundled currencies whose codes begin with H.
pub open spec fn rows_h() -> Seq<CurrencyView> {
    seq![
        row("HKD"@, "344"@, 2, "$"@, "$1"@, "."@, ","@),
        row("HNL"@, "340"@, 2, "L"@, "$1"@, "."@, ","@),
        row("HRK"@, "191"@, 2, "kn"@, "1 $"@, ","@, "."@),
        row("HTG"@, "332"@, 2, "G"@, "1 $"@, ","@, "."@),
        row("HUF"@, "348"@, 2, "Ft"@, "1 $"@, ","@, "."@),
    ]
}

fn push_rows_h(list: &mut Vec<Currency>)
    ensures
        views_of(final(list)@) == views_of(old(list)@) + rows_h(),
{
    push_row(list, "HKD", "344", 2, "$", "$1", ".", ",");
    push_row(list, "HNL", "340", 2, "L", "$1", ".", ",");
    push_row(list, "HRK", "191", 2, "kn", "1 $", ",", ".");
    push_row(list, "HTG", "332", 2, "G", "1 $", ",", ".");
    push_row(list, "HUF", "348", 2, "Ft", "1 $", ",", ".");
}

/// The bundled currencies whose codes begin with I.
pub open spec fn rows_i() -> Seq<CurrencyView> {
    seq![
        row("IDR"@, "360"@, 2, "Rp"@, "$1"@, ","@, "."@),
        row("ILS"@, "376"@, 2, "₪"@, "$1"@, "."@, ","@),
        row("IMP"@, ""@, 2, "£"@, "$1"@, "."@, ","@),
        row("INR"@, "356"@, 2, "₹"@, "$1"@, "."@, ","@),
        row("IQD"@, "368"@, 3, ".د.ع"@, "1 $"@, "."@, ","@),
        row("IRR"@, "364"@, 2, "﷼"@, "1 $"@, "."@, ","@),
        row("ISK"@, "352"@, 0, "kr"@, "$1"@, ","@, "."@),
    ]
}

fn push_rows_i(list: &mut Vec<Currency>)
    ensures
        views_of(final(list)@) == views_of(old(list)@) + rows_i(),
{
    push_row(list, "IDR", "360", 2, "Rp", "$1", ",", ".");
    push_row(list, "ILS", "376", 2, "₪", "$1", ".", ",");
    push_row(list, "IMP", "", 2, "£", "$1", ".", ",");
    push_row(list, "INR", "356", 2, "₹", "$1", ".", ",");
    push_row(list, "IQD", "368", 3, ".د.ع", "1 $", ".", ",");
    push_row(list, "IRR", "364", 2, "﷼", "1 $", ".", ",");
    push_row(list, "ISK", "352", 0, "kr", "$1", ",", ".");
}

/// The bundled currencies whose codes begin with J.
pub open spec fn rows_j() -> Seq<CurrencyView> {
    seq![
        row("JEP"@, ""@, 2, "£"@, "$1"@, "."@, ","@),
        row("JMD"@, "388"@, 2, "J$"@, "$1"@, "."@, ","@),
        row("JOD"@, "400"@, 3, ".د.إ"@, "1 $"@, "."@, ","@),
        row("JPY"@, "392"@, 0, "¥"@, "$1"@, "."@, ","@),
    ]
}

fn push_rows_j(list: &mut Vec<Currency>)
    ensures
        views_of(final(list)@) == views_of(old(list)@) + rows_j(),
{
    push_row(list, "JEP", "", 2, "£", "$1", ".", ",");
    push_row(list, "JMD", "388", 2, "J$", "$1", ".", ",");
    push_row(list, "JOD", "400", 3, ".د.إ", "1 $", ".", ",");
    push_row(list, "JPY", "392", 0, "¥", "$1", ".", ",");
}

/// The bundled currencies whose codes begin with K.
pub open spec fn rows_k() -> Seq<CurrencyView> {
    seq![
        row("KES"@, "404"@, 2, "KSh"@, "$1"@, "."@, ","@),
        row("KGS"@, "417"@, 2, "сом"@, "1 $"@, "."@, ","@),
        row("KHR"@, "116"@, 2, "៛"@, "$1"@, "."@, ","@),
        row("KMF"@, "174"@, 0, "CF"@, "$1"@, "."@, ","@),
        row("KPW"@, "408"@, 2, "₩"@, "$1"@, "."@, ","@),
        row("KRW"@, "410"@, 0, "₩"@, "$1"@, "."@, ","@),
        row("KWD"@, "414"@, 3, ".د.ك"@, "1 $"@, "."@, ","@),
        row("KYD"@, "136"@, 2, "$"@, "$1"@, "."@, ","@),
        row("KZT"@, "398"@, 2, "₸"@, "$1"@, "."@, ","@),
    ]
}

fn push_rows_k(list: &mut Vec<Currency>)
    ensures
        views_of(final(list)@) == views_of(old(list)@) + rows_k(),
{
    push_row(list, "KES", "404", 2, "KSh", "$1", ".", ",");
    push_row(list, "KGS", "417", 2, "сом", "1 $", ".", ",");
    push_row(list, "KHR", "116", 2, "៛", "$1", ".", ",");
    push_row(list, "KMF", "174", 0, "CF", "$1", ".", ",");
    push_row(list, "KPW", "408", 2, "₩", "$1", ".", ",");
    push_row(list, "KRW", "410", 0, "₩", "$1", ".", ",");
    push_row(list, "KWD", "414", 3, ".د.ك", "1 $", ".", ",");
    push_row(list, "KYD", "136", 2, "$", "$1", ".", ",");
    push_row(list, "KZT", "398", 2, "₸", "$1", ".", ",");
}

/// The bundled currencies whose codes begin with L.
pub open spec fn rows_l() -> Seq<CurrencyView> {
    seq![
        row("LAK"@, "418"@, 2, "₭"@, "$1"@, "."@, ","@),
        row("LBP"@, "422"@, 2, "£"@, "$1"@, "."@, ","@),
        row("LKR"@, "144"@, 2, "₨"@, "$1"@, "."@, ","@),
        row("LRD"@, "430"@, 2, "$"@, "$1"@, "."@, ","@),
        row("LSL"@, "426"@, 2, "L"@, "$1"@, "."@, ","@),
        row("LTL"@, ""@, 2, "Lt"@, "$1"@, "."@, ","@),
        row("LVL"@, ""@, 2, "Ls"@, "1 $"@, "."@, ","@),
        row("LYD"@, "434"@, 3, ".د.ل"@, "1 $"@, "."@, ","@),
    ]
}

fn push_rows_l(list: &mut Vec<Currency>)
    ensures
        views_of(final(list)@) == views_of(old(list)@) + rows_l(),
{
    push_row(list, "LAK", "418", 2, "₭", "$1", ".", ",");
    push_row(list, "LBP", "422", 2, "£", "$1", ".", ",");
    push_row(list, "LKR", "144", 2, "₨", "$1", ".", ",");
    push_row(list, "LRD", "430", 2, "$", "$1", ".", ",");
    push_row(list, "LSL", "426", 2, "L", "$1", ".", ",");
    push_row(list, "LTL", "", 2, "Lt", "$1", ".", ",");
    push_row(list, "LVL", "", 2, "Ls", "1 $", ".", ",");
    push_row(list, "LYD", "434", 3, ".د.ل", "1 $", ".", ",");
}

/// The bundled currencies whose codes begin with M.
pub open spec fn rows_m() -> Seq<CurrencyView> {
    seq![
        row("MAD"@, "504"@, 2, ".د.م"@, "1 $"@, "."@, ","@),
        row("MDL"@, "498"@, 2, "lei"@, "1 $"@, "."@, ","@),
        row("MGA"@, "969"@, 2, "Ar"@, "1$"@, "."@, ","@),
        row("MKD"@, "807"@, 2, "ден"@, "$1"@, "."@, ","@),
        row("MMK"@, "104"@, 2, "K"@, "$1"@, "."@, ","@),
        row("MNT"@, "496"@, 2, "₮"@, "$1"@, "."@, ","@),
        row("MOP"@, "446"@, 2, "P"@, "1 $"@, "."@, ","@),
        row("MRU"@, "929"@, 2, "UM"@, "$1"@, "."@, ","@),
        row("MUR"@, "480"@, 2, "₨"@, "$1"@, "."@, ","@),
        row("MVR"@, "462"@, 2, "MVR"@, "1 $"@, "."@, ","@),
        row("MWK"@, "454"@, 2, "MK"@, "$1"@, "."@, ","@),
        row("MXN"@, "484"@, 2, "$"@, "$1"@, "."@, ","@),
        row("MYR"@, "458"@, 2, "RM"@, "$1"@, "."@, ","@),
        row("MZN"@, "943"@, 2, "MT"@, "$1"@, "."@, ","@),
    ]
}

fn push_rows_m(list: &mut Vec<Currency>)
    ensures
        views_of(final(list)@) == views_of(old(list)@) + rows_m(),
{
    push_row(list, "MAD", "504", 2, ".د.م", "1 $", ".", ",");
    push_row(list, "MDL", "498", 2, "lei", "1 $", ".", ",");
    push_row(list, "MGA", "969", 2, "Ar", "1$", ".", ",");
    push_row(list, "MKD", "807", 2, "ден", "$1", ".", ",");
    push_row(list, "MMK", "104", 2, "K", "$1", ".", ",");
    push_row(list, "MNT", "496", 2, "₮", "$1", ".", ",");
    push_row(list, "MOP", "446", 2, "P", "1 $", ".", ",");
    push_row(list, "MRU", "929", 2, "UM", "$1", ".", ",");
    push_row(list, "MUR", "480", 2, "₨", "$1", ".", ",");
    push_row(list, "MVR", "462", 2, "MVR", "1 $", ".", ",");
    push_row(list, "MWK", "454", 2, "MK", "$1", ".", ",");
    push_row(list, "MXN", "484", 2, "$", "$1", ".", ",");
    push_row(list, "MYR", "458", 2, "RM", "$1", ".", ",");
    push_row(list, "MZN", "943", 2, "MT", "$1", ".", ",");
}

/// The bundled currencies whose codes begin with N.
pub open spec fn rows_n() -> Seq<CurrencyView> {
    seq![
        row("NAD"@, "516"@, 2, "$"@, "$1"@, "."@, ","@),
        row("NGN"@, "566"@, 2, "₦"@, "$1"@, "."@, ","@),
        row("NIO"@, "558"@, 2, "C$"@, "$1"@, "."@, ","@),
        row("NOK"@, "578"@, 2, "kr"@, "1 $"@, "."@, ","@),
        row("NPR"@, "524"@, 2, "₨"@, "$1"@, "."@, ","@),
        row("NZD"@, "554"@, 2, "$"@, "$1"@, "."@, ","@),
    ]
}

fn push_rows_n(list: &mut Vec<Currency>)
    ensures
        views_of(final(list)@) == views_of(old(list)@) + rows_n(),
{
    push_row(list, "NAD", "516", 2, "$", "$1", ".", ",");
    push_row(list, "NGN", "566", 2, "₦", "$1", ".", ",");
    push_row(list, "NIO", "558", 2, "C$", "$1", ".", ",");
    push_row(list, "NOK", "578", 2, "kr", "1 $", ".", ",");
    push_row(list, "NPR", "524", 2, "₨", "$1", ".", ",");
    push_row(list, "NZD", "554", 2, "$", "$1", ".", ",");
}

/// The bundled currencies whose codes begin with O.
pub open spec fn rows_o() -> Seq<CurrencyView> {
    seq![
        row("OMR"@, "512"@, 3, "﷼"@, "1 $"@, "."@, ","@),
    ]
}

fn push_rows_o(list: &mut Vec<Currency>)
    ensures
        views_of(final(list)@) == views_of(old(list)@) + rows_o(),
{
    push_row(list, "OMR", "512", 3, "﷼", "1 $", ".", ",");
}

/// The bundled currencies whose codes begin with P.
pub open spec fn rows_p() -> Seq<CurrencyView> {
    seq![
        row("PAB"@, "590"@, 2, "B/."@, "$1"@, "."@, ","@),
        row("PEN"@, "604"@, 2, "S/"@, "$1"@, "."@, ","@),
        row("PGK"@, "598"@, 2, "K"@, "1 $"@, "."@, ","@),
        row("PHP"@, "608"@, 2, "₱"@, "$1"@, "."@, ","@),
        row("PKR"@, "586"@, 2, "₨"@, "$1"@, "."@, ","@),
        row("PLN"@, "985"@, 2, "zł"@, "1 $"@, "."@, ","@),
        row("PYG"@, "600"@, 0, "Gs"@, "1$"@, "."@, ","@),
    ]
}

fn push_rows_p(list: &mut Vec<Currency>)
    ensures
        views_of(final(list)@) == views_of(old(list)@) + rows_p(),
{
    push_row(list, "PAB", "590", 2, "B/.", "$1", ".", ",");
    push_row(list, "PEN", "604", 2, "S/", "$1", ".", ",");
    push_row(list, "PGK", "598", 2, "K", "1 $", ".", ",");
    push_row(list, "PHP", "608", 2, "₱", "$1", ".", ",");
    push_row(list, "PKR", "586", 2, "₨", "$1", ".", ",");
    push_row(list, "PLN", "985", 2, "zł", "1 $", ".", ",");
    push_row(list, "PYG", "600", 0, "Gs", "1$", ".", ",");
}

/// The bundled currencies whose codes begin with Q.
pub open spec fn rows_q() -> Seq<CurrencyView> {
    seq![
        row("QAR"@, "634"@, 2, "﷼"@, "1 $"@, "."@, ","@),
    ]
}

fn push_rows_q(list: &mut Vec<Currency>)
    ensures
        views_of(final(list)@) == views_of(old(list)@) + rows_q(),
{
    push_row(list, "QAR", "634", 2, "﷼", "1 $", ".", ",");
}

/// The bundled currencies whose codes begin with R.
pub open spec fn rows_r() -> Seq<CurrencyView> {
    seq![
        row("RON"@, "946"@, 2, "lei"@, "$1"@, "."@, ","@),
        row("RSD"@, "941"@, 2, "дин."@, "$1"@, "."@, ","@),
        row("RUB"@, "643"@, 2, "₽"@, "1 $"@, "."@, ","@),
        row("RUR"@, ""@, 2, "₽"@, "1 $"@, "."@, ","@),
        row("RWF"@, "646"@, 0, "FRw"@, "1 $"@, "."@, ","@),
    ]
}

fn push_rows_r(list: &mut Vec<Currency>)
    ensures
        views_of(final(list)@) == views_of(old(list)@) + rows_r(),
{
    push_row(list, "RON", "946", 2, "lei", "$1", ".", ",");
    push_row(list, "RSD", "941", 2, "дин.", "$1", ".", ",");
    push_row(list, "RUB", "643", 2, "₽", "1 $", ".", ",");
    push_row(list, "RUR", "", 2, "₽", "1 $", ".", ",");
    push_row(list, "RWF", "646", 0, "FRw", "1 $", ".", ",");
}

/// The bundled currencies whose codes begin with S.
pub open spec fn rows_s() -> Seq<CurrencyView> {
    seq![
        row("SAR"@, "682"@, 2, "﷼"@, "1 $"@, "."@, ","@),
        row("SBD"@, "090"@, 2, "$"@, "$1"@, "."@, ","@),
        row("SCR"@, "690"@, 2, "₨"@, "$1"@, "."@, ","@),
        row("SDG"@, "938"@, 2, "£"@, "$1"@, "."@, ","@),
        row("SEK"@, "752"@, 2, "kr"@, "1 $"@, "."@, ","@),
        row("SGD"@, "702"@, 2, "$"@, "$1"@, "."@, ","@),
        row("SHP"@, "654"@, 2, "£"@, "$1"@, "."@, ","@),
        row("SKK"@, ""@, 2, "Sk"@, "$1"@, "."@, ","@),
        row("SLE"@, "925"@, 2, "Le"@, "1 $"@, "."@, ","@),
        row("SLL"@, "694"@, 2, "Le"@, "1 $"@, "."@, ","@),
        row("SOS"@, "706"@, 2, "Sh"@, "1 $"@, "."@, ","@),
        row("SRD"@, "968"@, 2, "$"@, "$1"@, "."@, ","@),
        row("SSP"@, "728"@, 2, "£"@, "1 $"@, "."@, ","@),
        row("STD"@, ""@, 2, "Db"@, "1 $"@, "."@, ","@),
        row("STN"@, "930"@, 2, "Db"@, "1 $"@, "."@, ","@),
        row("SVC"@, "222"@, 2, "₡"@, "$1"@, "."@, ","@),
        row("SYP"@, "760"@, 2, "£"@, "1 $"@, "."@, ","@),
        row("SZL"@, "748"@, 2, "£"@, "$1"@, "."@, ","@),
    ]
}

fn push_rows_s(list: &mut Vec<Currency>)
    ensures
        views_of(final(list)@) == views_of(old(list)@) + rows_s(),
{
    push_row(list, "SAR", "682", 2, "﷼", "1 $", ".", ",");
    push_row(list, "SBD", "090", 2, "$", "$1", ".", ",");
    push_row(list, "SCR", "690", 2, "₨", "$1", ".", ",");
    push_row(list, "SDG", "938", 2, "£", "$1", ".", ",");
    push_row(list, "SEK", "752", 2, "kr", "1 $", ".", ",");
    push_row(list, "SGD", "702", 2, "$", "$1", ".", ",");
    push_row(list, "SHP", "654", 2, "£", "$1", ".", ",");
    push_row(list, "SKK", "", 2, "Sk", "$1", ".", ",");
    push_row(list, "SLE", "925", 2, "Le", "1 $", ".", ",");
    push_row(list, "SLL", "694", 2, "Le", "1 $", ".", ",");
    push_row(list, "SOS", "706", 2, "Sh", "1 $", ".", ",");
    push_row(list, "SRD", "968", 2, "$", "$1", ".", ",");
    push_row(list, "SSP", "728", 2, "£", "1 $", ".", ",");
    push_row(list, "STD", "", 2, "Db", "1 $", ".", ",");
    push_row(list, "STN", "930", 2, "Db", "1 $", ".", ",");
    push_row(list, "SVC", "222", 2, "₡", "$1", ".", ",");
    push_row(list, "SYP", "760", 2, "£", "1 $", ".", ",");
    push_row(list, "SZL", "748", 2, "£", "$1", ".", ",");
}

/// The bundled currencies whose codes begin with T.
pub open spec fn rows_t() -> Seq<CurrencyView> {
    seq![
        row("THB"@, "764"@, 2, "฿"@, "$1"@, "."@, ","@),
        row("TJS"@, "972"@, 2, "SM"@, "1 $"@, "."@, ","@),
        row("TMT"@, "934"@, 2, "T"@, "1 $"@, "."@, ","@),
        row("TND"@, "788"@, 3, ".د.ت"@, "1 $"@, "."@, ","@),
        row("TOP"@, "776"@, 2, "T$"@, "$1"@, "."@, ","@),
        row("TRL"@, ""@, 2, "₤"@, "$1"@, "."@, ","@),
        row("TRY"@, "949"@, 2, "₺"@, "$1"@, "."@, ","@),
        row("TTD"@, "780"@, 2, "TT$"@, "$1"@, "."@, ","@),
        row("TWD"@, "901"@, 2, "NT$"@, "$1"@, "."@, ","@),
        row("TZS"@, "834"@, 0, "TSh"@, "$1"@, "."@, ","@),
    ]
}

fn push_rows_t(list: &mut Vec<Currency>)
    ensures
        views_of(final(list)@) == views_of(old(list)@) + rows_t(),
{
    push_row(list, "THB", "764", 2, "฿", "$1", ".", ",");
    push_row(list, "TJS", "972", 2, "SM", "1 $", ".", ",");
    push_row(list, "TMT", "934", 2, "T", "1 $", ".", ",");
    push_row(list, "TND", "788", 3, ".د.ت", "1 $", ".", ",");
    push_row(list, "TOP", "776", 2, "T$", "$1", ".", ",");
    push_row(list, "TRL", "", 2, "₤", "$1", ".", ",");
    push_row(list, "TRY", "949", 2, "₺", "$1", ".", ",");
    push_row(list, "TTD", "780", 2, "TT$", "$1", ".", ",");
    push_row(list, "TWD", "901", 2, "NT$", "$1", ".", ",");
    push_row(list, "TZS", "834", 0, "TSh", "$1", ".", ",");
}

/// The bundled currencies whose codes begin with U.
pub open spec fn rows_u() -> Seq<CurrencyView> {
    seq![
        row("UAH"@, "980"@, 2, "₴"@, "1 $"@, "."@, ","@),
        row("UGX"@, "800"@, 0, "USh"@, "1 $"@, "."@, ","@),
        row("USD"@, "840"@, 2, "$"@, "$1"@, "."@, ","@),
        row("UYU"@, "858"@, 2, "$U"@, "$1"@, "."@, ","@),
        row("UZS"@, "860"@, 2, "so‘m"@, "$1"@, "."@, ","@),
    ]
}

fn push_rows_u(list: &mut Vec<Currency>)
    ensures
        views_of(final(list)@) == views_of(old(list)@) + rows_u(),
{
    push_row(list, "UAH", "980", 2, "₴", "1 $", ".", ",");
    push_row(list, "UGX", "800", 0, "USh", "1 $", ".", ",");
    push_row(list, "USD", "840", 2, "$", "$1", ".", ",");
    push_row(list, "UYU", "858", 2, "$U", "$1", ".", ",");
    push_row(list, "UZS", "860", 2, "so‘m", "$1", ".", ",");
}

/// The bundled currencies whose codes begin with V.
pub open spec fn rows_v() -> Seq<CurrencyView> {
    seq![
        row("VEF"@, "937"@, 2, "Bs"@, "$1"@, "."@, ","@),
        row("VES"@, "928"@, 2, "Bs.S"@, "$1"@, "."@, ","@),
        row("VND"@, "704"@, 0, "₫"@, "1 $"@, "."@, ","@),
        row("VUV"@, "548"@, 0, "Vt"@, "$1"@, "."@, ","@),
    ]
}

fn push_rows_v(list: &mut Vec<Currency>)
    ensures
        views_of(final(list)@) == views_of(old(list)@) + rows_v(),
{
    push_row(list, "VEF", "937", 2, "Bs", "$1", ".", ",");
    push_row(list, "VES", "928", 2, "Bs.S", "$1", ".", ",");
    push_row(list, "VND", "704", 0, "₫", "1 $", ".", ",");
    push_row(list, "VUV", "548", 0, "Vt", "$1", ".", ",");
}

/// The bundled currencies whose codes begin with W.
pub open spec fn rows_w() -> Seq<CurrencyView> {
    seq![
        row("WST"@, "882"@, 2, "T"@, "1 $"@, "."@, ","@),
    ]
}

fn push_rows_w(list: &mut Vec<Currency>)
    ensures
        views_of(final(list)@) == views_of(old(list)@) + rows_w(),
{
    push_row(list, "WST", "882", 2, "T", "1 $", ".", ",");
}

/// The bundled currencies whose codes begin with X.
pub open spec fn rows_x() -> Seq<CurrencyView> {
    seq![
        row("XAF"@, "950"@, 0, "Fr"@, "1 $"@, "."@, ","@),
        row("XAG"@, "961"@, 0, "oz t"@, "1 $"@, "."@, ","@),
        row("XAU"@, "959"@, 0, "oz t"@, "1 $"@, "."@, ","@),
        row("XCD"@, "951"@, 2, "$"@, "$1"@, "."@, ","@),
        row("XDR"@, "960"@, 0, "SDR"@, "1 $"@, "."@, ","@),
        row("XOF"@, "952"@, 0, "CFA"@, "1 $"@, "."@, ","@),
        row("XPF"@, "953"@, 0, "₣"@, "1 $"@, "."@, ","@),
    ]
}

fn push_rows_x(list: &mut Vec<Currency>)
    ensures
        views_of(final(list)@) == views_of(old(list)@) + rows_x(),
{
    push_row(list, "XAF", "950", 0, "Fr", "1 $", ".", ",");
    push_row(list, "XAG", "961", 0, "oz t", "1 $", ".", ",");
    push_row(list, "XAU", "959", 0, "oz t", "1 $", ".", ",");
    push_row(list, "XCD", "951", 2, "$", "$1", ".", ",");
    push_row(list, "XDR", "960", 0, "SDR", "1 $", ".", ",");
    push_row(list, "XOF", "952", 0, "CFA", "1 $", ".", ",");
    push_row(list, "XPF", "953", 0, "₣", "1 $", ".", ",");
}

/// The bundled currencies whose codes begin with Y.
pub open spec fn rows_y() -> Seq<CurrencyView> {
    seq![
        row("YER"@, "886"@, 2, "﷼"@, "1 $"@, "."@, ","@),
    ]
}

fn push_rows_y(list: &mut Vec<Currency>)
    ensures
        views_of(final(list)@) == views_of(old(list)@) + rows_y(),
{
    push_row(list, "YER", "886", 2, "﷼", "1 $", ".", ",");
}

/// The bundled currencies whose codes begin with Z.
pub open spec fn rows_z() -> Seq<CurrencyView> {
    seq![
        row("ZAR"@, "710"@, 2, "R"@, "$1"@, "."@, ","@),
        row("ZMW"@, "967"@, 2, "ZK"@, "$1"@, "."@, ","@),
        row("ZWD"@, "716"@, 2, "Z$"@, "$1"@, "."@, ","@),
        row("ZWL"@, "932"@, 2, "Z$"@, "$1"@, "."@, ","@),
    ]
}

fn push_rows_z(list: &mut Vec<Currency>)
    ensures
        views_of(final(list)@) == views_of(old(list)@) + rows_z(),
{
    push_row(list, "ZAR", "710", 2, "R", "$1", ".", ",");
    push_row(list, "ZMW", "967", 2, "ZK", "$1", ".", ",");
    push_row(list, "ZWD", "716", 2, "Z$", "$1", ".", ",");
    push_row(list, "ZWL", "932", 2, "Z$", "$1", ".", ",");
}

/// The bundled currencies, in the order in which they are registered.
pub open spec fn default_rows() -> Seq<CurrencyView> {
    rows_a() + rows_b() + rows_c() + rows_d() + rows_e() + rows_f() + rows_g() + rows_h() + rows_i() + rows_j() + rows_k() + rows_l() + rows_m() + rows_n() + rows_o() + rows_p() + rows_q() + rows_r() + rows_s() + rows_t() + rows_u() + rows_v() + rows_w() + rows_x() + rows_y() + rows_z()
}

/// The bundled currencies as values.
pub fn default_list() -> (list: Vec<Currency>)
    ensures
        views_of(list@) == default_rows(),
{
    let mut list: Vec<Currency> = Vec::new();
    push_rows_a(&mut list);
    push_rows_b(&mut list);
    push_rows_c(&mut list);
    push_rows_d(&mut list);
    push_rows_e(&mut list);
    push_rows_f(&mut list);
    push_rows_g(&mut list);
    push_rows_h(&mut list);
    push_rows_i(&mut list);
    push_rows_j(&mut list);
    push_rows_k(&mut list);
    push_rows_l(&mut list);
    push_rows_m(&mut list);
    push_rows_n(&mut list);
    push_rows_o(&mut list);
    push_rows_p(&mut list);
    push_rows_q(&mut list);
    push_rows_r(&mut list);
    push_rows_s(&mut list);
    push_rows_t(&mut list);
    push_rows_u(&mut list);
    push_rows_v(&mut list);
    push_rows_w(&mut list);
    push_rows_x(&mut list);
    push_rows_y(&mut list);
    push_rows_z(&mut list);
    list
}

} // verus!

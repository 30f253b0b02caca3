//! The jurisdiction classifier: a pure, total mapping from a two-letter
//! country code to its transfer classification under a GDPR-style framework,
//! together with a display name for well-known codes.
use vstd::prelude::*;

use crate::text::{lower_char, lower_seq, to_upper, to_upper_char, upper_char, upper_seq};

verus! {

use vstd::string::StrSliceExecFns;
use vstd::string::StringExecFns;

/// The five transfer classifications of a destination country.
#[derive(Clone, Copy, PartialEq, Eq, Structural, Debug)]
pub enum CountryClass {
    EuEea,
    Adequate,
    SccRequired,
    Blocked,
    Unknown,
}

pub open spec fn is_eu_eea_code(a: char, b: char) -> bool {
    ||| (a == 'A' && b == 'T')
    ||| (a == 'B' && b == 'E')
    ||| (a == 'B' && b == 'G')
    ||| (a == 'H' && b == 'R')
    ||| (a == 'C' && b == 'Y')
    ||| (a == 'C' && b == 'Z')
    ||| (a == 'D' && b == 'K')
    ||| (a == 'E' && b == 'E')
    ||| (a == 'F' && b == 'I')
    ||| (a == 'F' && b == 'R')
    ||| (a == 'D' && b == 'E')
    ||| (a == 'G' && b == 'R')
    ||| (a == 'H' && b == 'U')
    ||| (a == 'I' && b == 'E')
    ||| (a == 'I' && b == 'T')
    ||| (a == 'L' && b == 'V')
    ||| (a == 'L' && b == 'T')
    ||| (a == 'L' && b == 'U')
    ||| (a == 'M' && b == 'T')
    ||| (a == 'N' && b == 'L')
    ||| (a == 'P' && b == 'L')
    ||| (a == 'P' && b == 'T')
    ||| (a == 'R' && b == 'O')
    ||| (a == 'S' && b == 'K')
    ||| (a == 'S' && b == 'I')
    ||| (a == 'E' && b == 'S')
    ||| (a == 'S' && b == 'E')
    ||| (a == 'I' && b == 'S')
    ||| (a == 'L' && b == 'I')
    ||| (a == 'N' && b == 'O')
}

pub open spec fn is_adequate_code(a: char, b: char) -> bool {
    ||| (a == 'A' && b == 'D')
    ||| (a == 'A' && b == 'R')
    ||| (a == 'C' && b == 'A')
    ||| (a == 'F' && b == 'O')
    ||| (a == 'G' && b == 'G')
    ||| (a == 'I' && b == 'L')
    ||| (a == 'I' && b == 'M')
    ||| (a == 'J' && b == 'P')
    ||| (a == 'J' && b == 'E')
    ||| (a == 'N' && b == 'Z')
    ||| (a == 'K' && b == 'R')
    ||| (a == 'G' && b == 'B')
    ||| (a == 'U' && b == 'Y')
    ||| (a == 'C' && b == 'H')
}

pub open spec fn is_scc_required_code(a: char, b: char) -> bool {
    ||| (a == 'U' && b == 'S')
    ||| (a == 'A' && b == 'U')
    ||| (a == 'B' && b == 'R')
    ||| (a == 'M' && b == 'X')
    ||| (a == 'S' && b == 'G')
    ||| (a == 'Z' && b == 'A')
}

pub open spec fn is_blocked_code(a: char, b: char) -> bool {
    ||| (a == 'C' && b == 'N')
    ||| (a == 'R' && b == 'U')
    ||| (a == 'K' && b == 'P')
    ||| (a == 'I' && b == 'R')
    ||| (a == 'S' && b == 'Y')
    ||| (a == 'V' && b == 'E')
    ||| (a == 'B' && b == 'Y')
}

pub open spec fn classify_chars(a: char, b: char) -> CountryClass {
    if is_eu_eea_code(a, b) {
        CountryClass::EuEea
    } else if is_adequate_code(a, b) {
        CountryClass::Adequate
    } else if is_scc_required_code(a, b) {
        CountryClass::SccRequired
    } else if is_blocked_code(a, b) {
        CountryClass::Blocked
    } else {
        CountryClass::Unknown
    }
}

pub open spec fn is_ascii_char(c: char) -> bool {
    (c as u32) < 128
}

/// Classification of an arbitrary input: case-insensitive on two-letter
/// ASCII codes; an empty, over-long or non-ASCII code is Unknown.
pub open spec fn spec_classify(s: Seq<char>) -> CountryClass {
    if s.len() == 2 && is_ascii_char(s[0]) && is_ascii_char(s[1]) {
        classify_chars(upper_char(s[0]), upper_char(s[1]))
    } else {
        CountryClass::Unknown
    }
}

/// The wire label of each classification.
pub open spec fn class_label(c: CountryClass) -> Seq<char> {
    match c {
        CountryClass::EuEea => "eu_eea"@,
        CountryClass::Adequate => "adequate_protection"@,
        CountryClass::SccRequired => "scc_required"@,
        CountryClass::Blocked => "blocked"@,
        CountryClass::Unknown => "unknown"@,
    }
}

/// Classifies a destination country code into its transfer class.
pub fn classify_code(code: &str) -> (r: CountryClass)
    ensures
        r == spec_classify(code@),
{
    let n = code.unicode_len();
    if n != 2 {
        return CountryClass::Unknown;
    }
    let c0 = code.get_char(0);
    let c1 = code.get_char(1);
    if (c0 as u32) >= 128 || (c1 as u32) >= 128 {
        return CountryClass::Unknown;
    }
    let a = to_upper_char(c0);
    let b = to_upper_char(c1);
    match (a, b) {
        ('A', 'T') | ('B', 'E') | ('B', 'G') | ('H', 'R') | ('C', 'Y') | ('C', 'Z') | ('D', 'K') | ('E', 'E') | ('F', 'I') | ('F', 'R') | ('D', 'E') | ('G', 'R') | ('H', 'U') | ('I', 'E') | ('I', 'T') | ('L', 'V') | ('L', 'T') | ('L', 'U') | ('M', 'T') | ('N', 'L') | ('P', 'L') | ('P', 'T') | ('R', 'O') | ('S', 'K') | ('S', 'I') | ('E', 'S') | ('S', 'E') | ('I', 'S') | ('L', 'I') | ('N', 'O') => CountryClass::EuEea,
        ('A', 'D') | ('A', 'R') | ('C', 'A') | ('F', 'O') | ('G', 'G') | ('I', 'L') | ('I', 'M') | ('J', 'P') | ('J', 'E') | ('N', 'Z') | ('K', 'R') | ('G', 'B') | ('U', 'Y') | ('C', 'H') => CountryClass::Adequate,
        ('U', 'S') | ('A', 'U') | ('B', 'R') | ('M', 'X') | ('S', 'G') | ('Z', 'A') => CountryClass::SccRequired,
        ('C', 'N') | ('R', 'U') | ('K', 'P') | ('I', 'R') | ('S', 'Y') | ('V', 'E') | ('B', 'Y') => CountryClass::Blocked,
        _ => CountryClass::Unknown,
    }
}

/// The classification as its wire label, e.g. "eu_eea".
pub fn classify_country(code: &str) -> (r: &'static str)
    ensures
        r@ == class_label(spec_classify(code@)),
{
    match classify_code(code) {
        CountryClass::EuEea => "eu_eea",
        CountryClass::Adequate => "adequate_protection",
        CountryClass::SccRequired => "scc_required",
        CountryClass::Blocked => "blocked",
        CountryClass::Unknown => "unknown",
    }
}

/// Display name keyed by the uppercased code; unknown codes fall back to
/// the uppercased code itself.
pub open spec fn name_chars(a: char, b: char) -> Seq<char> {
    if a == 'U' && b == 'S' {
        "United States"@
    } else if a == 'C' && b == 'N' {
        "China"@
    } else if a == 'R' && b == 'U' {
        "Russia"@
    } else if a == 'K' && b == 'P' {
        "North Korea"@
    } else if a == 'I' && b == 'R' {
        "Iran"@
    } else if a == 'S' && b == 'Y' {
        "Syria"@
    } else if a == 'V' && b == 'E' {
        "Venezuela"@
    } else if a == 'B' && b == 'Y' {
        "Belarus"@
    } else if a == 'G' && b == 'B' {
        "United Kingdom"@
    } else if a == 'J' && b == 'P' {
        "Japan"@
    } else if a == 'K' && b == 'R' {
        "South Korea"@
    } else if a == 'A' && b == 'U' {
        "Australia"@
    } else if a == 'B' && b == 'R' {
        "Brazil"@
    } else if a == 'M' && b == 'X' {
        "Mexico"@
    } else if a == 'S' && b == 'G' {
        "Singapore"@
    } else if a == 'Z' && b == 'A' {
        "South Africa"@
    } else if a == 'C' && b == 'A' {
        "Canada"@
    } else if a == 'I' && b == 'L' {
        "Israel"@
    } else if a == 'N' && b == 'Z' {
        "New Zealand"@
    } else if a == 'D' && b == 'E' {
        "Germany"@
    } else if a == 'F' && b == 'R' {
        "France"@
    } else if a == 'N' && b == 'L' {
        "Netherlands"@
    } else if a == 'B' && b == 'E' {
        "Belgium"@
    } else if a == 'A' && b == 'T' {
        "Austria"@
    } else if a == 'I' && b == 'T' {
        "Italy"@
    } else if a == 'E' && b == 'S' {
        "Spain"@
    } else if a == 'P' && b == 'T' {
        "Portugal"@
    } else if a == 'S' && b == 'E' {
        "Sweden"@
    } else if a == 'N' && b == 'O' {
        "Norway"@
    } else if a == 'D' && b == 'K' {
        "Denmark"@
    } else if a == 'F' && b == 'I' {
        "Finland"@
    } else if a == 'P' && b == 'L' {
        "Poland"@
    } else if a == 'C' && b == 'Z' {
        "Czech Republic"@
    } else if a == 'I' && b == 'E' {
        "Ireland"@
    } else if a == 'C' && b == 'H' {
        "Switzerland"@
    } else if a == 'G' && b == 'R' {
        "Greece"@
    } else if a == 'R' && b == 'O' {
        "Romania"@
    } else if a == 'H' && b == 'U' {
        "Hungary"@
    } else if a == 'B' && b == 'G' {
        "Bulgaria"@
    } else if a == 'H' && b == 'R' {
        "Croatia"@
    } else if a == 'S' && b == 'K' {
        "Slovakia"@
    } else if a == 'S' && b == 'I' {
        "Slovenia"@
    } else if a == 'L' && b == 'T' {
        "Lithuania"@
    } else if a == 'L' && b == 'V' {
        "Latvia"@
    } else if a == 'E' && b == 'E' {
        "Estonia"@
    } else if a == 'L' && b == 'U' {
        "Luxembourg"@
    } else if a == 'M' && b == 'T' {
        "Malta"@
    } else if a == 'C' && b == 'Y' {
        "Cyprus"@
    } else if a == 'I' && b == 'S' {
        "Iceland"@
    } else if a == 'L' && b == 'I' {
        "Liechtenstein"@
    } else if a == 'A' && b == 'D' {
        "Andorra"@
    } else if a == 'A' && b == 'R' {
        "Argentina"@
    } else if a == 'F' && b == 'O' {
        "Faroe Islands"@
    } else if a == 'G' && b == 'G' {
        "Guernsey"@
    } else if a == 'I' && b == 'M' {
        "Isle of Man"@
    } else if a == 'J' && b == 'E' {
        "Jersey"@
    } else if a == 'U' && b == 'Y' {
        "Uruguay"@
    } else {
        seq![a, b]
    }
}

pub open spec fn spec_country_name(s: Seq<char>) -> Seq<char> {
    if s.len() == 2 && is_ascii_char(s[0]) && is_ascii_char(s[1]) {
        name_chars(upper_char(s[0]), upper_char(s[1]))
    } else {
        upper_seq(s)
    }
}

/// Human-readable name of a destination country for decision reasons.
pub fn country_name(code: &str) -> (r: String)
    ensures
        r@ == spec_country_name(code@),
{
    let n = code.unicode_len();
    if n == 2 {
        let c0 = code.get_char(0);
        let c1 = code.get_char(1);
        if (c0 as u32) < 128 && (c1 as u32) < 128 {
            let a = to_upper_char(c0);
            let b = to_upper_char(c1);
            let r = match (a, b) {
        ('U', 'S') => String::from_str("United States"),
        ('C', 'N') => String::from_str("China"),
        ('R', 'U') => String::from_str("Russia"),
        ('K', 'P') => String::from_str("North Korea"),
        ('I', 'R') => String::from_str("Iran"),
        ('S', 'Y') => String::from_str("Syria"),
        ('V', 'E') => String::from_str("Venezuela"),
        ('B', 'Y') => String::from_str("Belarus"),
        ('G', 'B') => String::from_str("United Kingdom"),
        ('J', 'P') => String::from_str("Japan"),
        ('K', 'R') => String::from_str("South Korea"),
        ('A', 'U') => String::from_str("Australia"),
        ('B', 'R') => String::from_str("Brazil"),
        ('M', 'X') => String::from_str("Mexico"),
        ('S', 'G') => String::from_str("Singapore"),
        ('Z', 'A') => String::from_str("South Africa"),
        ('C', 'A') => String::from_str("Canada"),
        ('I', 'L') => String::from_str("Israel"),
        ('N', 'Z') => String::from_str("New Zealand"),
        ('D', 'E') => String::from_str("Germany"),
        ('F', 'R') => String::from_str("France"),
        ('N', 'L') => String::from_str("Netherlands"),
        ('B', 'E') => String::from_str("Belgium"),
        ('A', 'T') => String::from_str("Austria"),
        ('I', 'T') => String::from_str("Italy"),
        ('E', 'S') => String::from_str("Spain"),
        ('P', 'T') => String::from_str("Portugal"),
        ('S', 'E') => String::from_str("Sweden"),
        ('N', 'O') => String::from_str("Norway"),
        ('D', 'K') => String::from_str("Denmark"),
        ('F', 'I') => String::from_str("Finland"),
        ('P', 'L') => String::from_str("Poland"),
        ('C', 'Z') => String::from_str("Czech Republic"),
        ('I', 'E') => String::from_str("Ireland"),
        ('C', 'H') => String::from_str("Switzerland"),
        ('G', 'R') => String::from_str("Greece"),
        ('R', 'O') => String::from_str("Romania"),
        ('H', 'U') => String::from_str("Hungary"),
        ('B', 'G') => String::from_str("Bulgaria"),
        ('H', 'R') => String::from_str("Croatia"),
        ('S', 'K') => String::from_str("Slovakia"),
        ('S', 'I') => String::from_str("Slovenia"),
        ('L', 'T') => String::from_str("Lithuania"),
        ('L', 'V') => String::from_str("Latvia"),
        ('E', 'E') => String::from_str("Estonia"),
        ('L', 'U') => String::from_str("Luxembourg"),
        ('M', 'T') => String::from_str("Malta"),
        ('C', 'Y') => String::from_str("Cyprus"),
        ('I', 'S') => String::from_str("Iceland"),
        ('L', 'I') => String::from_str("Liechtenstein"),
        ('A', 'D') => String::from_str("Andorra"),
        ('A', 'R') => String::from_str("Argentina"),
        ('F', 'O') => String::from_str("Faroe Islands"),
        ('G', 'G') => String::from_str("Guernsey"),
        ('I', 'M') => String::from_str("Isle of Man"),
        ('J', 'E') => String::from_str("Jersey"),
        ('U', 'Y') => String::from_str("Uruguay"),
                _ => {
                    let mut two = String::new();
                    two.push(a);
                    two.push(b);
                    proof {
                        assert(two@ =~= seq![a, b]);
                    }
                    two
                },
            };
            return r;
        }
    }
    to_upper(code)
}

/// Every input is classified, and into one of exactly five classes.
pub proof fn lemma_classifier_total(s: Seq<char>)
    ensures
        spec_classify(s) == CountryClass::EuEea || spec_classify(s) == CountryClass::Adequate
            || spec_classify(s) == CountryClass::SccRequired || spec_classify(s)
            == CountryClass::Blocked || spec_classify(s) == CountryClass::Unknown,
{
}

/// The classifier is case-insensitive: uppercasing the code first does not
/// change the classification.
pub proof fn lemma_classifier_case_insensitive(s: Seq<char>)
    ensures
        spec_classify(upper_seq(s)) == spec_classify(s),
        spec_classify(lower_seq(s)) == spec_classify(s),
{
    assert(upper_seq(s).len() == s.len());
    assert(lower_seq(s).len() == s.len());
    if s.len() == 2 {
        assert(upper_seq(s)[0] == upper_char(s[0]));
        assert(upper_seq(s)[1] == upper_char(s[1]));
        assert(lower_seq(s)[0] == lower_char(s[0]));
        assert(lower_seq(s)[1] == lower_char(s[1]));
    }
}

/// One row of the fixed country table: a code with its display name and
/// classification label.
#[derive(Debug)]
pub struct CountryInfo {
    pub code: String,
    pub name: String,
    pub status: String,
}

pub open spec fn country_info_ok(c: CountryInfo) -> bool {
    &&& c.code@.len() == 2
    &&& c.name@ == spec_country_name(c.code@)
    &&& c.status@ == class_label(spec_classify(c.code@))
}

fn country_info(code: &str) -> (c: CountryInfo)
    requires
        code@.len() == 2,
    ensures
        country_info_ok(c),
        c.code@ == code@,
{
    CountryInfo {
        code: String::from_str(code),
        name: country_name(code),
        status: String::from_str(classify_country(code)),
    }
}

/// The codes of the jurisdiction table, in the order it lists them:
/// EU/EEA first, then adequate, SCC-required and blocked destinations.
pub open spec fn known_code_views() -> Seq<Seq<char>> {
    seq![
        "AT"@,
        "BE"@,
        "BG"@,
        "HR"@,
        "CY"@,
        "CZ"@,
        "DK"@,
        "EE"@,
        "FI"@,
        "FR"@,
        "DE"@,
        "GR"@,
        "HU"@,
        "IE"@,
        "IT"@,
        "LV"@,
        "LT"@,
        "LU"@,
        "MT"@,
        "NL"@,
        "PL"@,
        "PT"@,
        "RO"@,
        "SK"@,
        "SI"@,
        "ES"@,
        "SE"@,
        "IS"@,
        "LI"@,
        "NO"@,
        "AD"@,
        "AR"@,
        "CA"@,
        "FO"@,
        "GG"@,
        "IL"@,
        "IM"@,
        "JP"@,
        "JE"@,
        "NZ"@,
        "KR"@,
        "GB"@,
        "UY"@,
        "CH"@,
        "US"@,
        "AU"@,
        "BR"@,
        "MX"@,
        "SG"@,
        "ZA"@,
        "CN"@,
        "RU"@,
        "KP"@,
        "IR"@,
        "SY"@,
        "VE"@,
        "BY"@,
    ]
}

/// The full fixed jurisdiction table: every code the classifier knows, with
/// its name and classification.
pub fn all_country_classifications() -> (r: Vec<CountryInfo>)
    ensures
        r@.len() == 57,
        forall|i: int| 0 <= i < r@.len() ==> country_info_ok(#[trigger] r@[i]),
        forall|i: int| 0 <= i < r@.len() ==> (#[trigger] r@[i]).code@ == known_code_views()[i],
{
    let codes = known_codes();
    let mut r: Vec<CountryInfo> = Vec::new();
    let mut i: usize = 0;
    while i < codes.len()
        invariant
            i <= codes@.len(),
            r@.len() == i,
            codes@.len() == known_code_views().len(),
            forall|j: int|
                0 <= j < codes@.len() ==> (#[trigger] codes@[j])@ == known_code_views()[j],
            forall|j: int| 0 <= j < codes@.len() ==> (#[trigger] codes@[j])@.len() == 2,
            forall|j: int| 0 <= j < i ==> country_info_ok(#[trigger] r@[j]),
            forall|j: int| 0 <= j < i ==> (#[trigger] r@[j]).code@ == known_code_views()[j],
        decreases codes@.len() - i,
    {
        r.push(country_info(codes[i].as_str()));
        i = i + 1;
    }
    proof {
        assert(codes@.len() == 57);
    }
    r
}

fn known_codes() -> (r: Vec<String>)
    ensures
        r@.len() == 57,
        forall|j: int| 0 <= j < r@.len() ==> (#[trigger] r@[j])@ == known_code_views()[j],
        forall|j: int| 0 <= j < r@.len() ==> (#[trigger] r@[j])@.len() == 2,
{
    proof {
        reveal_strlit("AT");
        reveal_strlit("BE");
        reveal_strlit("BG");
        reveal_strlit("HR");
        reveal_strlit("CY");
        reveal_strlit("CZ");
        reveal_strlit("DK");
        reveal_strlit("EE");
        reveal_strlit("FI");
        reveal_strlit("FR");
        reveal_strlit("DE");
        reveal_strlit("GR");
        reveal_strlit("HU");
        reveal_strlit("IE");
        reveal_strlit("IT");
        reveal_strlit("LV");
        reveal_strlit("LT");
        reveal_strlit("LU");
        reveal_strlit("MT");
        reveal_strlit("NL");
        reveal_strlit("PL");
        reveal_strlit("PT");
        reveal_strlit("RO");
        reveal_strlit("SK");
        reveal_strlit("SI");
        reveal_strlit("ES");
        reveal_strlit("SE");
        reveal_strlit("IS");
        reveal_strlit("LI");
        reveal_strlit("NO");
        reveal_strlit("AD");
        reveal_strlit("AR");
        reveal_strlit("CA");
        reveal_strlit("FO");
        reveal_strlit("GG");
        reveal_strlit("IL");
        reveal_strlit("IM");
        reveal_strlit("JP");
        reveal_strlit("JE");
        reveal_strlit("NZ");
        reveal_strlit("KR");
        reveal_strlit("GB");
        reveal_strlit("UY");
        reveal_strlit("CH");
        reveal_strlit("US");
        reveal_strlit("AU");
        reveal_strlit("BR");
        reveal_strlit("MX");
        reveal_strlit("SG");
        reveal_strlit("ZA");
        reveal_strlit("CN");
        reveal_strlit("RU");
        reveal_strlit("KP");
        reveal_strlit("IR");
        reveal_strlit("SY");
        reveal_strlit("VE");
        reveal_strlit("BY");
    }
    let mut r: Vec<String> = Vec::new();
    r.push(String::from_str("AT"));
    r.push(String::from_str("BE"));
    r.push(String::from_str("BG"));
    r.push(String::from_str("HR"));
    r.push(String::from_str("CY"));
    r.push(String::from_str("CZ"));
    r.push(String::from_str("DK"));
    r.push(String::from_str("EE"));
    r.push(String::from_str("FI"));
    r.push(String::from_str("FR"));
    r.push(String::from_str("DE"));
    r.push(String::from_str("GR"));
    r.push(String::from_str("HU"));
    r.push(String::from_str("IE"));
    r.push(String::from_str("IT"));
    r.push(String::from_str("LV"));
    r.push(String::from_str("LT"));
    r.push(String::from_str("LU"));
    r.push(String::from_str("MT"));
    r.push(String::from_str("NL"));
    r.push(String::from_str("PL"));
    r.push(String::from_str("PT"));
    r.push(String::from_str("RO"));
    r.push(String::from_str("SK"));
    r.push(String::from_str("SI"));
    r.push(String::from_str("ES"));
    r.push(String::from_str("SE"));
    r.push(String::from_str("IS"));
    r.push(String::from_str("LI"));
    r.push(String::from_str("NO"));
    r.push(String::from_str("AD"));
    r.push(String::from_str("AR"));
    r.push(String::from_str("CA"));
    r.push(String::from_str("FO"));
    r.push(String::from_str("GG"));
    r.push(String::from_str("IL"));
    r.push(String::from_str("IM"));
    r.push(String::from_str("JP"));
    r.push(String::from_str("JE"));
    r.push(String::from_str("NZ"));
    r.push(String::from_str("KR"));
    r.push(String::from_str("GB"));
    r.push(String::from_str("UY"));
    r.push(String::from_str("CH"));
    r.push(String::from_str("US"));
    r.push(String::from_str("AU"));
    r.push(String::from_str("BR"));
    r.push(String::from_str("MX"));
    r.push(String::from_str("SG"));
    r.push(String::from_str("ZA"));
    r.push(String::from_str("CN"));
    r.push(String::from_str("RU"));
    r.push(String::from_str("KP"));
    r.push(String::from_str("IR"));
    r.push(String::from_str("SY"));
    r.push(String::from_str("VE"));
    r.push(String::from_str("BY"));
    r
}

} // verus!

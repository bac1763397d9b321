use vstd::prelude::*;

use crate::error::Error;
use crate::event::{chars_of, string_of};

verus! {

/// Time zone abbreviations and their offsets from UTC; where an abbreviation
/// stands twice, the first entry is the one used.
pub open spec fn spec_utc_offset_table() -> Seq<(&'static str, &'static str)> {
    seq![
        ("ACDT", "+10:30"),
        ("ACST", "+09:30"),
        ("ACT", "+09:30"),
        ("ACWST", "+08:45"),
        ("ADT", "-03:00"),
        ("AEDT", "+11:00"),
        ("AEST", "+10:00"),
        ("AFT", "+04:30"),
        ("AKDT", "-08:00"),
        ("AKST", "-09:00"),
        ("ALMT", "+06:00"),
        ("AMST", "-03:00"),
        ("AMT", "+04:00"),
        ("ANAT", "+12:00"),
        ("AQTT", "+05:00"),
        ("ART", "-03:00"),
        ("AST", "+03:00"),
        ("AST", "-04:00"),
        ("AWST", "+08:00"),
        ("AZOST", "+00:00"),
        ("AZOT", "-01:00"),
        ("AZT", "+04:00"),
        ("BIOT", "+06:00"),
        ("BIT", "-12:00"),
        ("BNT", "+08:00"),
        ("BOT", "-04:00"),
        ("BRST", "-02:00"),
        ("BRT", "-03:00"),
        ("BST", "+01:00"),
        ("BTT", "+06:00"),
        ("CAT", "+02:00"),
        ("CCT", "+06:30"),
        ("CDT", "-05:00"),
        ("CEST", "+02:00"),
        ("CET", "+01:00"),
        ("CHADT", "+13:45"),
        ("CHAST", "+12:45"),
        ("CHOST", "+09:00"),
        ("CHOT", "+08:00"),
        ("CHST", "+10:00"),
        ("CHUT", "+10:00"),
        ("CIST", "-08:00"),
        ("CKT", "-10:00"),
        ("CLST", "-03:00"),
        ("CLT", "-04:00"),
        ("COST", "-04:00"),
        ("COT", "-05:00"),
        ("CST", "-06:00"),
        ("CVT", "-01:00"),
        ("CWST", "+08:45"),
        ("CXT", "+07:00"),
        ("DAVT", "+07:00"),
        ("DDUT", "+10:00"),
        ("DFT", "+01:00"),
        ("EASST", "-05:00"),
        ("EAST", "-06:00"),
        ("EAT", "+03:00"),
        ("ECT", "-05:00"),
        ("EDT", "-04:00"),
        ("EEST", "+03:00"),
        ("EET", "+02:00"),
        ("EGST", "+00:00"),
        ("EGT", "-01:00"),
        ("EST", "-05:00"),
        ("FET", "+03:00"),
        ("FJT", "+12:00"),
        ("FKST", "-03:00"),
        ("FKT", "-04:00"),
        ("FNT", "-02:00"),
        ("GALT", "-06:00"),
        ("GAMT", "-09:00"),
        ("GET", "+04:00"),
        ("GFT", "-03:00"),
        ("GILT", "+12:00"),
        ("GIT", "-09:00"),
        ("GMT", "+00:00"),
        ("GST", "-02:00"),
        ("GYT", "-04:00"),
        ("HAEC", "+02:00"),
        ("HDT", "-09:00"),
        ("HKT", "+08:00"),
        ("HMT", "+05:00"),
        ("HOVST", "+08:00"),
        ("HOVT", "+07:00"),
        ("HST", "-10:00"),
        ("ICT", "+07:00"),
        ("IDLW", "-12:00"),
        ("IDT", "+03:00"),
        ("IOT", "+06:00"),
        ("IRDT", "+04:30"),
        ("IRKT", "+08:00"),
        ("IRST", "+03:30"),
        ("IST", "+01:00"),
        ("JST", "+09:00"),
        ("KALT", "+02:00"),
        ("KGT", "+06:00"),
        ("KOST", "+11:00"),
        ("KRAT", "+07:00"),
        ("KST", "+09:00"),
        ("LHST", "+10:30"),
        ("LHST", "+11:00"),
        ("LINT", "+14:00"),
        ("MAGT", "+12:00"),
        ("MAWT", "+05:00"),
        ("MDT", "-06:00"),
        ("MEST", "+02:00"),
        ("MET", "+01:00"),
        ("MHT", "+12:00"),
        ("MIST", "+11:00"),
        ("MMT", "+06:30"),
        ("MSK", "+03:00"),
        ("MST", "-07:00"),
        ("MUT", "+04:00"),
        ("MVT", "+05:00"),
        ("MYT", "+08:00"),
        ("NCT", "+11:00"),
        ("NFT", "+11:00"),
        ("NOVT", "+07:00"),
        ("NPT", "+05:45"),
        ("NUT", "-11:00"),
        ("NZDT", "+13:00"),
        ("NZST", "+12:00"),
        ("OMST", "+06:00"),
        ("ORAT", "+05:00"),
        ("PDT", "-07:00"),
        ("PET", "-05:00"),
        ("PETT", "+12:00"),
        ("PGT", "+10:00"),
        ("PHOT", "+13:00"),
        ("PHST", "+08:00"),
        ("PHT", "+08:00"),
        ("PKT", "+05:00"),
        ("PMDT", "-02:00"),
        ("PMST", "-03:00"),
        ("PONT", "+11:00"),
        ("PST", "-08:00"),
        ("PWT", "+09:00"),
        ("PYST", "-03:00"),
        ("PYT", "-04:00"),
        ("RET", "+04:00"),
        ("ROTT", "-03:00"),
        ("SAKT", "+11:00"),
        ("SAMT", "+04:00"),
        ("SAST", "+02:00"),
        ("SBT", "+11:00"),
        ("SCT", "+04:00"),
        ("SDT", "-10:00"),
        ("SGT", "+08:00"),
        ("SLST", "+05:30"),
        ("SRET", "+11:00"),
        ("SRT", "-03:00"),
        ("SST", "+08:00"),
        ("SYOT", "+03:00"),
        ("TAHT", "-10:00"),
        ("TFT", "+05:00"),
        ("THA", "+07:00"),
        ("TJT", "+05:00"),
        ("TKT", "+13:00"),
        ("TLT", "+09:00"),
        ("TMT", "+05:00"),
        ("TOT", "+13:00"),
        ("TRT", "+03:00"),
        ("TST", "+08:00"),
        ("TVT", "+12:00"),
        ("ULAST", "+09:00"),
        ("ULAT", "+08:00"),
        ("UTC", "+00:00"),
        ("UYST", "-02:00"),
        ("UYT", "-03:00"),
        ("UZT", "+05:00"),
        ("VET", "-04:00"),
        ("VLAT", "+10:00"),
        ("VOLT", "+03:00"),
        ("VOST", "+06:00"),
        ("VUT", "+11:00"),
        ("WAKT", "+12:00"),
        ("WAST", "+02:00"),
        ("WAT", "+01:00"),
        ("WEST", "+01:00"),
        ("WET", "+00:00"),
        ("WGST", "-02:00"),
        ("WGT", "-03:00"),
        ("WIB", "+07:00"),
        ("WIT", "+09:00"),
        ("WITA", "+08:00"),
        ("WST", "+08:00"),
        ("YAKT", "+09:00"),
        ("YEKT", "+05:00"),
    ]
}

/// Time zone abbreviations and their offsets from UTC.
pub fn utc_offset_table() -> (r: Vec<(&'static str, &'static str)>)
    ensures
        r@ == spec_utc_offset_table(),
{
    let r: Vec<(&'static str, &'static str)> = vec![
        ("ACDT", "+10:30"),
        ("ACST", "+09:30"),
        ("ACT", "+09:30"),
        ("ACWST", "+08:45"),
        ("ADT", "-03:00"),
        ("AEDT", "+11:00"),
        ("AEST", "+10:00"),
        ("AFT", "+04:30"),
        ("AKDT", "-08:00"),
        ("AKST", "-09:00"),
        ("ALMT", "+06:00"),
        ("AMST", "-03:00"),
        ("AMT", "+04:00"),
        ("ANAT", "+12:00"),
        ("AQTT", "+05:00"),
        ("ART", "-03:00"),
        ("AST", "+03:00"),
        ("AST", "-04:00"),
        ("AWST", "+08:00"),
        ("AZOST", "+00:00"),
        ("AZOT", "-01:00"),
        ("AZT", "+04:00"),
        ("BIOT", "+06:00"),
        ("BIT", "-12:00"),
        ("BNT", "+08:00"),
        ("BOT", "-04:00"),
        ("BRST", "-02:00"),
        ("BRT", "-03:00"),
        ("BST", "+01:00"),
        ("BTT", "+06:00"),
        ("CAT", "+02:00"),
        ("CCT", "+06:30"),
        ("CDT", "-05:00"),
        ("CEST", "+02:00"),
        ("CET", "+01:00"),
        ("CHADT", "+13:45"),
        ("CHAST", "+12:45"),
        ("CHOST", "+09:00"),
        ("CHOT", "+08:00"),
        ("CHST", "+10:00"),
        ("CHUT", "+10:00"),
        ("CIST", "-08:00"),
        ("CKT", "-10:00"),
        ("CLST", "-03:00"),
        ("CLT", "-04:00"),
        ("COST", "-04:00"),
        ("COT", "-05:00"),
        ("CST", "-06:00"),
        ("CVT", "-01:00"),
        ("CWST", "+08:45"),
        ("CXT", "+07:00"),
        ("DAVT", "+07:00"),
        ("DDUT", "+10:00"),
        ("DFT", "+01:00"),
        ("EASST", "-05:00"),
        ("EAST", "-06:00"),
        ("EAT", "+03:00"),
        ("ECT", "-05:00"),
        ("EDT", "-04:00"),
        ("EEST", "+03:00"),
        ("EET", "+02:00"),
        ("EGST", "+00:00"),
        ("EGT", "-01:00"),
        ("EST", "-05:00"),
        ("FET", "+03:00"),
        ("FJT", "+12:00"),
        ("FKST", "-03:00"),
        ("FKT", "-04:00"),
        ("FNT", "-02:00"),
        ("GALT", "-06:00"),
        ("GAMT", "-09:00"),
        ("GET", "+04:00"),
        ("GFT", "-03:00"),
        ("GILT", "+12:00"),
        ("GIT", "-09:00"),
        ("GMT", "+00:00"),
        ("GST", "-02:00"),
        ("GYT", "-04:00"),
        ("HAEC", "+02:00"),
        ("HDT", "-09:00"),
        ("HKT", "+08:00"),
        ("HMT", "+05:00"),
        ("HOVST", "+08:00"),
        ("HOVT", "+07:00"),
        ("HST", "-10:00"),
        ("ICT", "+07:00"),
        ("IDLW", "-12:00"),
        ("IDT", "+03:00"),
        ("IOT", "+06:00"),
        ("IRDT", "+04:30"),
        ("IRKT", "+08:00"),
        ("IRST", "+03:30"),
        ("IST", "+01:00"),
        ("JST", "+09:00"),
        ("KALT", "+02:00"),
        ("KGT", "+06:00"),
        ("KOST", "+11:00"),
        ("KRAT", "+07:00"),
        ("KST", "+09:00"),
        ("LHST", "+10:30"),
        ("LHST", "+11:00"),
        ("LINT", "+14:00"),
        ("MAGT", "+12:00"),
        ("MAWT", "+05:00"),
        ("MDT", "-06:00"),
        ("MEST", "+02:00"),
        ("MET", "+01:00"),
        ("MHT", "+12:00"),
        ("MIST", "+11:00"),
        ("MMT", "+06:30"),
        ("MSK", "+03:00"),
        ("MST", "-07:00"),
        ("MUT", "+04:00"),
        ("MVT", "+05:00"),
        ("MYT", "+08:00"),
        ("NCT", "+11:00"),
        ("NFT", "+11:00"),
        ("NOVT", "+07:00"),
        ("NPT", "+05:45"),
        ("NUT", "-11:00"),
        ("NZDT", "+13:00"),
        ("NZST", "+12:00"),
        ("OMST", "+06:00"),
        ("ORAT", "+05:00"),
        ("PDT", "-07:00"),
        ("PET", "-05:00"),
        ("PETT", "+12:00"),
        ("PGT", "+10:00"),
        ("PHOT", "+13:00"),
        ("PHST", "+08:00"),
        ("PHT", "+08:00"),
        ("PKT", "+05:00"),
        ("PMDT", "-02:00"),
        ("PMST", "-03:00"),
        ("PONT", "+11:00"),
        ("PST", "-08:00"),
        ("PWT", "+09:00"),
        ("PYST", "-03:00"),
        ("PYT", "-04:00"),
        ("RET", "+04:00"),
        ("ROTT", "-03:00"),
        ("SAKT", "+11:00"),
        ("SAMT", "+04:00"),
        ("SAST", "+02:00"),
        ("SBT", "+11:00"),
        ("SCT", "+04:00"),
        ("SDT", "-10:00"),
        ("SGT", "+08:00"),
        ("SLST", "+05:30"),
        ("SRET", "+11:00"),
        ("SRT", "-03:00"),
        ("SST", "+08:00"),
        ("SYOT", "+03:00"),
        ("TAHT", "-10:00"),
        ("TFT", "+05:00"),
        ("THA", "+07:00"),
        ("TJT", "+05:00"),
        ("TKT", "+13:00"),
        ("TLT", "+09:00"),
        ("TMT", "+05:00"),
        ("TOT", "+13:00"),
        ("TRT", "+03:00"),
        ("TST", "+08:00"),
        ("TVT", "+12:00"),
        ("ULAST", "+09:00"),
        ("ULAT", "+08:00"),
        ("UTC", "+00:00"),
        ("UYST", "-02:00"),
        ("UYT", "-03:00"),
        ("UZT", "+05:00"),
        ("VET", "-04:00"),
        ("VLAT", "+10:00"),
        ("VOLT", "+03:00"),
        ("VOST", "+06:00"),
        ("VUT", "+11:00"),
        ("WAKT", "+12:00"),
        ("WAST", "+02:00"),
        ("WAT", "+01:00"),
        ("WEST", "+01:00"),
        ("WET", "+00:00"),
        ("WGST", "-02:00"),
        ("WGT", "-03:00"),
        ("WIB", "+07:00"),
        ("WIT", "+09:00"),
        ("WITA", "+08:00"),
        ("WST", "+08:00"),
        ("YAKT", "+09:00"),
        ("YEKT", "+05:00"),
    ];
    assert(r@ =~= spec_utc_offset_table());
    r
}

/// The offset of the first table entry, from the `k`-th on, for `abbr`.
pub open spec fn offset_by_abbr_from(abbr: Seq<char>, table: Seq<(&'static str, &'static str)>, k: int) -> Option<
    Seq<char>,
>
    decreases table.len() - k,
{
    if 0 <= k < table.len() {
        if table[k].0@ == abbr {
            Some(table[k].1@)
        } else {
            offset_by_abbr_from(abbr, table, k + 1)
        }
    } else {
        None
    }
}

/// `s` without its colons.
pub open spec fn without_colons(s: Seq<char>) -> Seq<char>
    decreases s.len(),
{
    if s.len() == 0 {
        s
    } else if s.last() == ':' {
        without_colons(s.drop_last())
    } else {
        without_colons(s.drop_last()).push(s.last())
    }
}

/// `s` padded on the right with zeros to four characters.
pub open spec fn pad_to_four(s: Seq<char>) -> Seq<char> {
    if s.len() < 4 {
        s + Seq::new((4 - s.len()) as nat, |i: int| '0')
    } else {
        s
    }
}

pub open spec fn is_digit(c: char) -> bool {
    '0' <= c <= '9'
}

pub open spec fn digit(c: char) -> int {
    c as int - '0' as int
}

/// A numeric offset, `+hh`, `+hhmm` or `+hh:mm` (or with `-`), of at most
/// twelve hours, written as `+hh:mm`.
pub open spec fn offset_by_number(v: Seq<char>) -> Option<Seq<char>> {
    if v.len() >= 1 && (v[0] == '+' || v[0] == '-') {
        let p = pad_to_four(without_colons(v.subrange(1, v.len() as int)));
        if p.len() == 4 && is_digit(p[0]) && is_digit(p[1]) && is_digit(p[2]) && is_digit(p[3])
            && 1000 * digit(p[0]) + 100 * digit(p[1]) + 10 * digit(p[2]) + digit(p[3]) <= 1200 {
            Some(seq![v[0], p[0], p[1], ':', p[2], p[3]])
        } else {
            None
        }
    } else {
        None
    }
}

/// The UTC offset of a time zone abbreviation or numeric offset.
pub open spec fn spec_utc_offset(v: Seq<char>) -> Option<Seq<char>> {
    match offset_by_abbr_from(v, spec_utc_offset_table(), 0) {
        Some(o) => Some(o),
        None => offset_by_number(v),
    }
}

fn same_chars(a: &[char], b: &[char]) -> (r: bool)
    ensures
        r == (a@ == b@),
{
    let n = a.len();
    if n != b.len() {
        return false;
    }
    let mut i: usize = 0;
    while i < n
        invariant
            n == a@.len(),
            n == b@.len(),
            i <= n,
            forall|j: int| 0 <= j < i ==> a@[j] == b@[j],
        decreases n - i,
    {
        if a[i] != b[i] {
            return false;
        }
        i = i + 1;
    }
    assert(a@ =~= b@);
    true
}

/// The offset listed for a time zone abbreviation.
fn utc_offset_by_abbr(abbr: &[char]) -> (r: Option<String>)
    ensures
        match offset_by_abbr_from(abbr@, spec_utc_offset_table(), 0) {
            Some(o) => r matches Some(s) && s@ == o,
            None => r is None,
        },
{
    let table = utc_offset_table();
    let n = table.len();
    let mut k: usize = 0;
    while k < n
        invariant
            n == table@.len(),
            table@ == spec_utc_offset_table(),
            k <= n,
            offset_by_abbr_from(abbr@, table@, 0) == offset_by_abbr_from(abbr@, table@, k as int),
        decreases n - k,
    {
        let (a, o) = table[k];
        let ac = chars_of(a);
        if same_chars(ac.as_slice(), abbr) {
            let oc = chars_of(o);
            return Some(string_of(oc.as_slice()));
        }
        k = k + 1;
    }
    None
}

/// A numeric offset written as `+hh:mm`.
fn utc_offset_by_offset(v: &[char]) -> (r: Option<String>)
    ensures
        match offset_by_number(v@) {
            Some(o) => r matches Some(s) && s@ == o,
            None => r is None,
        },
{
    let n = v.len();
    if n < 1 || (v[0] != '+' && v[0] != '-') {
        return None;
    }
    let ghost rest = v@.subrange(1, n as int);
    let mut digits: Vec<char> = Vec::new();
    let mut i: usize = 1;
    while i < n
        invariant
            n == v@.len(),
            1 <= i <= n,
            rest == v@.subrange(1, n as int),
            digits@ == without_colons(v@.subrange(1, i as int)),
        decreases n - i,
    {
        assert(v@.subrange(1, i + 1).drop_last() =~= v@.subrange(1, i as int));
        if v[i] != ':' {
            digits.push(v[i]);
        }
        i = i + 1;
    }
    assert(v@.subrange(1, n as int) =~= rest);
    let ghost unpadded = digits@;
    while digits.len() < 4
        invariant
            unpadded == without_colons(rest),
            digits@.len() <= 4 ==> digits@ == unpadded + Seq::new(
                (digits@.len() - unpadded.len()) as nat,
                |j: int| '0',
            ),
            unpadded.len() <= digits@.len(),
            unpadded.len() >= 4 ==> digits@ == unpadded,
            unpadded.len() < 4 ==> digits@.len() <= 4,
        decreases 4 - digits@.len(),
    {
        let ghost before = digits@;
        digits.push('0');
        assert(digits@ =~= unpadded + Seq::new((digits@.len() - unpadded.len()) as nat, |j: int| '0'));
    }
    assert(digits@ =~= pad_to_four(unpadded));
    if digits.len() != 4 {
        return None;
    }
    let (d0, d1, d2, d3) = (digits[0], digits[1], digits[2], digits[3]);
    if !('0' <= d0 && d0 <= '9' && '0' <= d1 && d1 <= '9' && '0' <= d2 && d2 <= '9' && '0' <= d3
        && d3 <= '9') {
        return None;
    }
    let number = 1000 * (d0 as u32 - '0' as u32) + 100 * (d1 as u32 - '0' as u32) + 10 * (d2 as u32
        - '0' as u32) + (d3 as u32 - '0' as u32);
    if number > 1200 {
        return None;
    }
    let mut out: Vec<char> = Vec::new();
    out.push(v[0]);
    out.push(d0);
    out.push(d1);
    out.push(':');
    out.push(d2);
    out.push(d3);
    assert(out@ =~= seq![v@[0], d0, d1, ':', d2, d3]);
    Some(string_of(out.as_slice()))
}

/// The UTC offset, as `+hh:mm`, of a time zone abbreviation or of a numeric
/// offset (`+hh`, `+hhmm`, `+hh:mm`, or with `-`) of at most twelve hours.
pub fn utc_offset(value: &str) -> (r: Option<String>)
    ensures
        match spec_utc_offset(value@) {
            Some(o) => r matches Some(s) && s@ == o,
            None => r is None,
        },
{
    let chars = chars_of(value);
    if let Some(offset) = utc_offset_by_abbr(chars.as_slice()) {
        return Some(offset);
    }
    utc_offset_by_offset(chars.as_slice())
}

/// Characters of `yyyy-mm-dd hh:mm:ss`.
pub const DATETIME_LEN: usize = 19;

/// A match date with its time zone abbreviation replaced by its offset:
/// `2024-04-02 21:02:17 CEST` becomes `2024-04-02 21:02:17+02:00`.
pub open spec fn spec_replace_tz(v: Seq<char>) -> Option<Seq<char>> {
    if v.len() > DATETIME_LEN {
        match spec_utc_offset(v.subrange(DATETIME_LEN + 1, v.len() as int)) {
            Some(o) => Some(v.subrange(0, DATETIME_LEN as int) + o),
            None => None,
        }
    } else {
        None
    }
}

/// Replaces the time zone abbreviation that ends a match date by its UTC
/// offset; `InvalidTimezone` where it has none.
pub fn replace_tz_abbr_with_offset(timestamp: &str) -> (r: Result<String, Error>)
    ensures
        match spec_replace_tz(timestamp@) {
            Some(t) => r matches Ok(s) && s@ == t,
            None => r == Err::<String, Error>(Error::InvalidTimezone),
        },
{
    let chars = chars_of(timestamp);
    let n = chars.len();
    if n <= DATETIME_LEN {
        return Err(Error::InvalidTimezone);
    }
    let abbr = string_of(&chars.as_slice()[DATETIME_LEN + 1..n]);
    let offset = match utc_offset(abbr.as_str()) {
        Some(o) => o,
        None => {
            return Err(Error::InvalidTimezone);
        },
    };
    let offset_chars = chars_of(offset.as_str());
    let mut out: Vec<char> = vstd::slice::slice_to_vec(&chars.as_slice()[0..DATETIME_LEN]);
    out.extend_from_slice(offset_chars.as_slice());
    Ok(string_of(out.as_slice()))
}

} // verus!

//! Strings as sequences of characters: searching, comparing, joining and
//! writing numbers.
use vstd::prelude::*;

verus! {

/// The views of a sequence of strings.
pub open spec fn texts(v: Seq<String>) -> Seq<Seq<char>> {
    v.map_values(|s: String| s@)
}

/// The number of bytes of a text.
pub open spec fn bytes_of(text: Seq<char>) -> nat {
    vstd::utf8::encode_utf8(text).len()
}

/// Whether `needle` stands in `text` at position `i`.
pub open spec fn occurs_at(needle: Seq<char>, text: Seq<char>, i: int) -> bool {
    0 <= i && i + needle.len() <= text.len() && text.subrange(i, i + needle.len()) == needle
}

/// Whether `needle` stands somewhere in `text`.
pub open spec fn occurs(needle: Seq<char>, text: Seq<char>) -> bool {
    exists|i: int| occurs_at(needle, text, i)
}

/// Whether one of `needles` stands somewhere in `text`.
pub open spec fn any_occurs(needles: Seq<&str>, text: Seq<char>) -> bool {
    exists|k: int| 0 <= k < needles.len() && occurs(#[trigger] needles[k]@, text)
}

/// Whether `text` begins with `prefix`.
pub open spec fn begins(text: Seq<char>, prefix: Seq<char>) -> bool {
    prefix.len() <= text.len() && text.subrange(0, prefix.len() as int) == prefix
}

/// Whether `text` ends in `suffix`.
pub open spec fn ends(text: Seq<char>, suffix: Seq<char>) -> bool {
    suffix.len() <= text.len() && text.subrange(text.len() - suffix.len(), text.len() as int)
        == suffix
}

/// Whether `needle` stands somewhere in `text`.
pub fn contains(text: &str, needle: &str) -> (found: bool)
    ensures
        found == occurs(needle@, text@),
{
    find_in(&characters(needle), &characters(text), 0).is_some()
}

/// Whether `text` begins with `prefix`.
pub fn starts_with(text: &str, prefix: &str) -> (found: bool)
    ensures
        found == begins(text@, prefix@),
{
    stands_at(&characters(prefix), &characters(text), 0)
}

/// Whether `text` ends in `suffix`.
pub fn ends_with(text: &str, suffix: &str) -> (found: bool)
    ensures
        found == ends(text@, suffix@),
{
    let t = characters(text);
    let s = characters(suffix);
    s.len() <= t.len() && stands_at(&s, &t, t.len() - s.len())
}

/// The ASCII letters in lower case, every other character as it is.
pub open spec fn ascii_lower(c: char) -> char {
    if 'A' <= c <= 'Z' {
        (c as u32 + 32) as char
    } else {
        c
    }
}

/// A text with its ASCII letters in lower case.
pub open spec fn ascii_lowered(text: Seq<char>) -> Seq<char> {
    text.map_values(|c: char| ascii_lower(c))
}

/// The ASCII letters in upper case, every other character as it is.
pub open spec fn ascii_upper(c: char) -> char {
    if 'a' <= c <= 'z' {
        (c as u32 - 32) as char
    } else {
        c
    }
}

/// A text with its ASCII letters in upper case.
pub open spec fn ascii_uppered(text: Seq<char>) -> Seq<char> {
    text.map_values(|c: char| ascii_upper(c))
}

/// What `str::to_lowercase` makes of a text.
pub uninterp spec fn lowercase(text: Seq<char>) -> Seq<char>;

/// What `str::to_uppercase` makes of a text.
pub uninterp spec fn uppercase(text: Seq<char>) -> Seq<char>;

/// Calls `str::to_lowercase`. The result is named, since the Unicode case
/// tables decide it. Of a text of ASCII characters alone it is the text with
/// `A` to `Z` replaced by `a` to `z`.
#[verifier::external_body]
pub(crate) fn to_lowercase(text: &str) -> (lower: String)
    ensures
        lower@ == lowercase(text@),
        vstd::utf8::is_ascii_chars(text@) ==> lower@ == ascii_lowered(text@),
{
    text.to_lowercase()
}

/// Calls `str::to_uppercase`. The result is named, since the Unicode case
/// tables decide it. Of a text of ASCII characters alone it is the text with
/// `a` to `z` replaced by `A` to `Z`.
#[verifier::external_body]
pub(crate) fn to_uppercase(text: &str) -> (upper: String)
    ensures
        upper@ == uppercase(text@),
        vstd::utf8::is_ascii_chars(text@) ==> upper@ == ascii_uppered(text@),
{
    text.to_uppercase()
}

/// A text with each `from` replaced by `to`.
pub open spec fn replaced(text: Seq<char>, from: char, to: char) -> Seq<char> {
    text.map_values(
        |c: char|
            if c == from {
                to
            } else {
                c
            },
    )
}

/// A text with each `from` replaced by the one character of `to`.
pub fn replace_char(text: &str, from: char, to: &str) -> (r: String)
    requires
        to@.len() == 1,
    ensures
        r@ == replaced(text@, from, to@[0]),
{
    let chars = characters(text);
    let mut r = String::new();
    let mut start: usize = 0;
    let mut i: usize = 0;
    while i < chars.len()
        invariant
            start <= i <= chars@.len(),
            chars@ == text@,
            to@.len() == 1,
            r@ == replaced(text@.take(start as int), from, to@[0]),
            forall|j: int| start <= j < i ==> text@[j] != from,
        decreases chars@.len() - i,
    {
        if chars[i] == from {
            r.append(text.substring_char(start, i));
            r.append(to);
            assert(r@ =~= replaced(text@.take(i + 1), from, to@[0]));
            start = i + 1;
        }
        i += 1;
    }
    r.append(text.substring_char(start, i));
    assert(r@ =~= replaced(text@, from, to@[0]));
    r
}

/// Whether two strings are equal.
pub fn same(a: &str, b: &str) -> (r: bool)
    ensures
        r == (a@ == b@),
{
    let x = a.as_bytes();
    let y = b.as_bytes();
    proof {
        vstd::utf8::encode_utf8_decode_utf8(a@);
        vstd::utf8::encode_utf8_decode_utf8(b@);
    }
    if x.len() != y.len() {
        return false;
    }
    let mut i: usize = 0;
    while i < x.len()
        invariant
            i <= x@.len(),
            x@.len() == y@.len(),
            x@ == vstd::utf8::encode_utf8(a@),
            y@ == vstd::utf8::encode_utf8(b@),
            forall|j: int| 0 <= j < i ==> x@[j] == y@[j],
        decreases x@.len() - i,
    {
        if x[i] != y[i] {
            return false;
        }
        i += 1;
    }
    assert(x@ =~= y@);
    true
}

/// Whether one of `needles` stands somewhere in `text`.
pub fn contains_any(text: &str, needles: &[&str]) -> (found: bool)
    ensures
        found == any_occurs(needles@, text@),
{
    let mut k: usize = 0;
    while k < needles.len()
        invariant
            k <= needles@.len(),
            forall|j: int| 0 <= j < k ==> !occurs(#[trigger] needles@[j]@, text@),
        decreases needles@.len() - k,
    {
        if contains(text, needles[k]) {
            return true;
        }
        k += 1;
    }
    false
}

/// The digit of value `d`, below sixteen, with the letters in upper case where
/// `upper` holds.
pub open spec fn digit(d: nat, upper: bool) -> Seq<char> {
    if d == 0 {
        "0"@
    } else if d == 1 {
        "1"@
    } else if d == 2 {
        "2"@
    } else if d == 3 {
        "3"@
    } else if d == 4 {
        "4"@
    } else if d == 5 {
        "5"@
    } else if d == 6 {
        "6"@
    } else if d == 7 {
        "7"@
    } else if d == 8 {
        "8"@
    } else if d == 9 {
        "9"@
    } else if d == 10 {
        if upper { "A"@ } else { "a"@ }
    } else if d == 11 {
        if upper { "B"@ } else { "b"@ }
    } else if d == 12 {
        if upper { "C"@ } else { "c"@ }
    } else if d == 13 {
        if upper { "D"@ } else { "d"@ }
    } else if d == 14 {
        if upper { "E"@ } else { "e"@ }
    } else {
        if upper { "F"@ } else { "f"@ }
    }
}

/// `n` written in base `base`, without leading zeros.
pub open spec fn numeral(n: nat, base: nat, upper: bool) -> Seq<char>
    decreases n,
{
    if base < 2 || n < base {
        digit(n, upper)
    } else {
        proof {
            vstd::arithmetic::div_mod::lemma_div_decreases(n as int, base as int);
        }
        numeral(n / base, base, upper) + digit(n % base, upper)
    }
}

/// `n` written in base `base` with at least `width` digits, zeros in front.
pub open spec fn padded(n: nat, base: nat, upper: bool, width: nat) -> Seq<char>
    decreases width,
{
    if width <= 1 {
        numeral(n, base, upper)
    } else if base < 2 || n < base {
        padded(0, base, upper, (width - 1) as nat) + digit(n, upper)
    } else {
        padded(n / base, base, upper, (width - 1) as nat) + digit(n % base, upper)
    }
}

/// `n` in decimal.
pub open spec fn decimal(n: nat) -> Seq<char> {
    numeral(n, 10, false)
}

/// `n` in hexadecimal, with capital letters.
pub open spec fn hex_upper(n: nat) -> Seq<char> {
    numeral(n, 16, true)
}

/// `n` in hexadecimal, with small letters.
pub open spec fn hex_lower(n: nat) -> Seq<char> {
    numeral(n, 16, false)
}

/// A number of hundredths with two decimal places.
pub open spec fn hundredths(n: nat) -> Seq<char> {
    decimal(n / 100) + "."@ + digit((n / 10) % 10, false) + digit(n % 10, false)
}

/// A number of tenths with one decimal place.
pub open spec fn tenths(n: nat) -> Seq<char> {
    decimal(n / 10) + "."@ + digit(n % 10, false)
}

fn digit_text(d: u128, upper: bool) -> (r: &'static str)
    requires
        d < 16,
    ensures
        r@ == digit(d as nat, upper),
{
    match d {
        0 => "0",
        1 => "1",
        2 => "2",
        3 => "3",
        4 => "4",
        5 => "5",
        6 => "6",
        7 => "7",
        8 => "8",
        9 => "9",
        10 => if upper { "A" } else { "a" },
        11 => if upper { "B" } else { "b" },
        12 => if upper { "C" } else { "c" },
        13 => if upper { "D" } else { "d" },
        14 => if upper { "E" } else { "e" },
        _ => if upper { "F" } else { "f" },
    }
}

fn numeral_text(n: u128, base: u128, upper: bool) -> (r: String)
    requires
        2 <= base <= 16,
    ensures
        r@ == numeral(n as nat, base as nat, upper),
    decreases n,
{
    if n < base {
        digit_text(n, upper).to_string()
    } else {
        proof {
            vstd::arithmetic::div_mod::lemma_div_decreases(n as int, base as int);
        }
        numeral_text(n / base, base, upper).concat(digit_text(n % base, upper))
    }
}

fn padded_text(n: u128, base: u128, upper: bool, width: usize) -> (r: String)
    requires
        2 <= base <= 16,
    ensures
        r@ == padded(n as nat, base as nat, upper, width as nat),
    decreases width,
{
    if width <= 1 {
        numeral_text(n, base, upper)
    } else if n < base {
        padded_text(0, base, upper, width - 1).concat(digit_text(n, upper))
    } else {
        padded_text(n / base, base, upper, width - 1).concat(digit_text(n % base, upper))
    }
}

/// `n` in decimal.
pub fn decimal_text(n: u64) -> (r: String)
    ensures
        r@ == decimal(n as nat),
{
    numeral_text(n as u128, 10, false)
}

/// `n` in hexadecimal, with capital letters.
pub fn hex_upper_text(n: u64) -> (r: String)
    ensures
        r@ == hex_upper(n as nat),
{
    numeral_text(n as u128, 16, true)
}

/// `n` in hexadecimal, with small letters.
pub fn hex_lower_text(n: u64) -> (r: String)
    ensures
        r@ == hex_lower(n as nat),
{
    numeral_text(n as u128, 16, false)
}

/// `n` in hexadecimal with capital letters, filled with zeros to `width` digits.
pub fn hex_padded_text(n: u64, width: usize) -> (r: String)
    ensures
        r@ == padded(n as nat, 16, true, width as nat),
{
    padded_text(n as u128, 16, true, width)
}

fn hundredths_of(n: u128) -> (r: String)
    ensures
        r@ == hundredths(n as nat),
{
    numeral_text(n / 100, 10, false).concat(".").concat(digit_text((n / 10) % 10, false)).concat(
        digit_text(n % 10, false),
    )
}

/// A number of hundredths with two decimal places.
pub fn hundredths_text(n: u64) -> (r: String)
    ensures
        r@ == hundredths(n as nat),
{
    hundredths_of(n as u128)
}

/// A number of tenths with one decimal place.
pub fn tenths_text(n: u64) -> (r: String)
    ensures
        r@ == tenths(n as nat),
{
    decimal_text(n / 10).concat(".").concat(digit_text((n % 10) as u128, false))
}

/// A number of millionths as a decimal fraction, without zeros at its end.
pub open spec fn fraction(n: nat) -> Seq<char> {
    if n % 1_000_000 == 0 {
        decimal(n / 1_000_000)
    } else {
        decimal(n / 1_000_000) + "."@ + trimmed_end(padded(n % 1_000_000, 10, false, 6), '0')
    }
}

/// A number of millionths as a decimal fraction, without zeros at its end.
pub fn fraction_text(n: u64) -> (r: String)
    ensures
        r@ == fraction(n as nat),
{
    if n % 1_000_000 == 0 {
        decimal_text(n / 1_000_000)
    } else {
        decimal_text(n / 1_000_000).concat(".").concat(
            trim_end_char(padded_text((n % 1_000_000) as u128, 10, false, 6).as_str(), '0').as_str(),
        )
    }
}

/// The texts one after the other, with `separator` between them.
pub open spec fn joined(parts: Seq<Seq<char>>, separator: Seq<char>) -> Seq<char>
    decreases parts.len(),
{
    if parts.len() == 0 {
        Seq::empty()
    } else if parts.len() == 1 {
        parts[0]
    } else {
        joined(parts.drop_last(), separator) + separator + parts.last()
    }
}

/// The strings one after the other, with `separator` between them.
pub fn join(parts: &Vec<String>, separator: &str) -> (r: String)
    ensures
        r@ == joined(texts(parts@), separator@),
{
    if parts.len() == 0 {
        return String::new();
    }
    let mut out = parts[0].clone();
    let mut i: usize = 1;
    assert(texts(parts@).take(1) =~= seq![parts@[0]@]);
    while i < parts.len()
        invariant
            1 <= i <= parts@.len(),
            out@ == joined(texts(parts@).take(i as int), separator@),
        decreases parts@.len() - i,
    {
        let ghost before = texts(parts@).take(i as int);
        let ghost after = texts(parts@).take(i + 1);
        assert(after.drop_last() =~= before);
        assert(after.last() == parts@[i as int]@);
        out = out.concat(separator).concat(parts[i].as_str());
        i += 1;
    }
    assert(texts(parts@).take(i as int) =~= texts(parts@));
    out
}

/// A copy of each string.
pub fn copies(parts: &Vec<String>) -> (r: Vec<String>)
    ensures
        texts(r@) == texts(parts@),
{
    let r = parts.clone();
    assert(texts(r@) =~= texts(parts@));
    r
}

/// The strings of an array of literals.
pub fn owned(parts: &[&str]) -> (r: Vec<String>)
    ensures
        texts(r@) == str_texts(parts@),
{
    let mut r: Vec<String> = Vec::new();
    let mut i: usize = 0;
    while i < parts.len()
        invariant
            i <= parts@.len(),
            texts(r@) == str_texts(parts@).take(i as int),
        decreases parts@.len() - i,
    {
        let part: &str = parts[i];
        let ghost before = r@;
        r.push(part.to_string());
        assert(texts(r@) =~= texts(before).push(part@));
        assert(str_texts(parts@).take(i + 1) =~= str_texts(parts@).take(i as int).push(part@));
        i += 1;
    }
    assert(str_texts(parts@).take(i as int) =~= str_texts(parts@));
    r
}

/// The views of a sequence of string slices.
pub open spec fn str_texts(parts: Seq<&str>) -> Seq<Seq<char>> {
    parts.map_values(|s: &str| s@)
}

/// Whether a list of strings holds `text`.
pub fn holds(list: &Vec<String>, text: &str) -> (r: bool)
    ensures
        r == texts(list@).contains(text@),
{
    let mut i: usize = 0;
    while i < list.len()
        invariant
            i <= list@.len(),
            forall|j: int| 0 <= j < i ==> texts(list@)[j] != text@,
        decreases list@.len() - i,
    {
        if same(list[i].as_str(), text) {
            assert(texts(list@)[i as int] == text@);
            return true;
        }
        i += 1;
    }
    false
}

/// The characters of a string.
pub fn characters(text: &str) -> (r: Vec<char>)
    ensures
        r@ == text@,
{
    let mut r: Vec<char> = Vec::new();
    for c in it: text.chars()
        invariant
            it.seq() == text@,
            r@ == text@.take(it.index()),
    {
        r.push(c);
    }
    assert(text@.take(text@.len() as int) =~= text@);
    r
}

/// A text without the characters `c` at its end.
pub open spec fn trimmed_end(text: Seq<char>, c: char) -> Seq<char>
    decreases text.len(),
{
    if text.len() > 0 && text.last() == c {
        trimmed_end(text.drop_last(), c)
    } else {
        text
    }
}

/// A string without the characters `c` at its end.
pub fn trim_end_char(text: &str, c: char) -> (r: String)
    ensures
        r@ == trimmed_end(text@, c),
{
    let chars = characters(text);
    let mut n: usize = chars.len();
    assert(text@.take(n as int) =~= text@);
    while n > 0 && chars[n - 1] == c
        invariant
            n <= chars@.len(),
            chars@ == text@,
            trimmed_end(text@.take(n as int), c) == trimmed_end(text@, c),
        decreases n,
    {
        assert(text@.take(n as int).drop_last() =~= text@.take(n - 1));
        n -= 1;
    }
    assert(text@.take(n as int) =~= text@.subrange(0, n as int));
    text.substring_char(0, n).to_string()
}

/// What `String::from_utf8_lossy` makes of bytes.
pub uninterp spec fn utf8_lossy(bytes: Seq<u8>) -> Seq<char>;

/// Calls `String::from_utf8_lossy`. Of valid UTF-8 the result is the text that
/// the bytes encode; of other bytes it is named, since the rules on where
/// replacement characters go decide it.
#[verifier::external_body]
pub(crate) fn from_utf8_lossy(bytes: &[u8]) -> (text: String)
    ensures
        text@ == utf8_lossy(bytes@),
        vstd::utf8::valid_utf8(bytes@) ==> text@ == vstd::utf8::decode_utf8(bytes@),
{
    String::from_utf8_lossy(bytes).into_owned()
}

/// Calls `std::str::from_utf8`: the text that the bytes encode, where they are
/// valid UTF-8.
#[verifier::external_body]
pub(crate) fn from_utf8(bytes: &[u8]) -> (text: Option<String>)
    ensures
        text is Some <==> vstd::utf8::valid_utf8(bytes@),
        text matches Some(s) ==> s@ == vstd::utf8::decode_utf8(bytes@),
{
    std::str::from_utf8(bytes).ok().map(|s| s.to_string())
}

/// `n / unit` to the nearest whole number; halfway between two, the even one.
pub open spec fn rounded(n: nat, unit: nat) -> nat {
    let low = n / unit;
    let rest = n % unit;
    if 2 * rest > unit || (2 * rest == unit && low % 2 == 1) {
        low + 1
    } else {
        low
    }
}

/// `n / unit` to the nearest whole number; halfway between two, the even one.
pub fn round_to(n: u64, unit: u64) -> (r: u64)
    requires
        2 <= unit <= 0x7fff_ffff_ffff_ffff,
    ensures
        r == rounded(n as nat, unit as nat),
{
    let low: u64 = n / unit;
    let rest: u64 = n % unit;
    proof {
        assert(n / unit <= n / 2) by (nonlinear_arith)
            requires
                unit >= 2,
        ;
    }
    if 2 * rest > unit || (2 * rest == unit && low % 2 == 1) {
        low + 1
    } else {
        low
    }
}

/// A signed number of millionths with two decimal places.
pub open spec fn signed_hundredths(n: int) -> Seq<char> {
    if n < 0 {
        "-"@ + hundredths(rounded((-n) as nat, 10_000))
    } else {
        hundredths(rounded(n as nat, 10_000))
    }
}

/// A signed number of millionths with two decimal places.
pub fn signed_hundredths_text(n: i128) -> (r: String)
    ensures
        r@ == signed_hundredths(n as int),
{
    let size: u128 = if n < 0 { (-(n + 1)) as u128 + 1 } else { n as u128 };
    let low: u128 = size / 10_000;
    let rest: u128 = size % 10_000;
    let near: u128 = if 2 * rest > 10_000 || (2 * rest == 10_000 && low % 2 == 1) {
        low + 1
    } else {
        low
    };
    let text = hundredths_of(near);
    if n < 0 {
        "-".to_string().concat(text.as_str())
    } else {
        text
    }
}

/// Whether `needle` stands in `text` twice, the second time behind the first.
pub open spec fn occurs_twice(needle: Seq<char>, text: Seq<char>) -> bool {
    exists|i: int, j: int|
        occurs_at(needle, text, i) && occurs_at(needle, text, j) && i + needle.len() <= j
}

fn stands_at(needle: &Vec<char>, text: &Vec<char>, at: usize) -> (r: bool)
    requires
        at <= text@.len(),
    ensures
        r == occurs_at(needle@, text@, at as int),
{
    if text.len() - at < needle.len() {
        return false;
    }
    let mut k: usize = 0;
    assert(text.len() == text@.len());
    while k < needle.len()
        invariant
            k <= needle@.len(),
            at + needle@.len() <= text@.len() <= usize::MAX,
            forall|m: int| 0 <= m < k ==> text@[at + m] == needle@[m],
        decreases needle@.len() - k,
    {
        if text[at + k] != needle[k] {
            assert(text@.subrange(at as int, at + needle@.len())[k as int] != needle@[k as int]);
            return false;
        }
        k += 1;
    }
    assert(text@.subrange(at as int, at + needle@.len()) =~= needle@);
    true
}

fn find_in(needle: &Vec<char>, text: &Vec<char>, from: usize) -> (r: Option<usize>)
    requires
        from <= text@.len(),
    ensures
        match r {
            Some(i) => from <= i <= text@.len() && occurs_at(needle@, text@, i as int) && (forall|
                j: int,
            |
                from <= j < i ==> !occurs_at(needle@, text@, j)),
            None => forall|j: int| from <= j ==> !occurs_at(needle@, text@, j),
        },
{
    let mut i: usize = from;
    while i < text.len()
        invariant
            from <= i <= text@.len(),
            forall|j: int| from <= j < i ==> !occurs_at(needle@, text@, j),
        decreases text@.len() - i,
    {
        if stands_at(needle, text, i) {
            return Some(i);
        }
        i += 1;
    }
    if stands_at(needle, text, i) {
        return Some(i);
    }
    None
}

/// Whether `needle` stands in `text` twice, the second time behind the first.
pub fn contains_twice(text: &str, needle: &str) -> (r: bool)
    ensures
        r == occurs_twice(needle@, text@),
{
    let t = characters(text);
    let n = characters(needle);
    match find_in(&n, &t, 0) {
        Some(i) => {
            assert(t.len() == t@.len());
            match find_in(&n, &t, i + n.len()) {
                Some(j) => {
                    assert(occurs_at(needle@, text@, i as int) && occurs_at(
                        needle@,
                        text@,
                        j as int,
                    ));
                    true
                },
                None => false,
            }
        },
        None => false,
    }
}

/// Whether `text` ends in one of `suffixes`.
pub open spec fn any_ends(text: Seq<char>, suffixes: Seq<&str>) -> bool {
    exists|k: int| 0 <= k < suffixes.len() && ends(text, #[trigger] suffixes[k]@)
}

/// Whether `text` ends in one of `suffixes`.
pub fn ends_with_any(text: &str, suffixes: &[&str]) -> (r: bool)
    ensures
        r == any_ends(text@, suffixes@),
{
    let mut k: usize = 0;
    while k < suffixes.len()
        invariant
            k <= suffixes@.len(),
            forall|j: int| 0 <= j < k ==> !ends(text@, #[trigger] suffixes@[j]@),
        decreases suffixes@.len() - k,
    {
        if ends_with(text, suffixes[k]) {
            return true;
        }
        k += 1;
    }
    false
}

/// Whether `text` is one of `words`.
pub open spec fn is_one_of(text: Seq<char>, words: Seq<&str>) -> bool {
    exists|k: int| 0 <= k < words.len() && text == #[trigger] words[k]@
}

/// Whether `text` is one of `words`.
pub fn one_of(text: &str, words: &[&str]) -> (r: bool)
    ensures
        r == is_one_of(text@, words@),
{
    let mut k: usize = 0;
    while k < words.len()
        invariant
            k <= words@.len(),
            forall|j: int| 0 <= j < k ==> text@ != #[trigger] words@[j]@,
        decreases words@.len() - k,
    {
        if same(text, words[k]) {
            return true;
        }
        k += 1;
    }
    false
}

/// The view of an optional string.
pub open spec fn opt_text(o: Option<String>) -> Option<Seq<char>> {
    match o {
        Some(s) => Some(s@),
        None => None,
    }
}

/// A copy of an optional string.
pub fn opt_copy(o: &Option<String>) -> (r: Option<String>)
    ensures
        opt_text(r) == opt_text(*o),
{
    match o {
        Some(s) => Some(s.clone()),
        None => None,
    }
}

/// Appends a text to a list.
pub fn push_text(list: &mut Vec<String>, text: String)
    ensures
        texts(final(list)@) == texts(old(list)@).push(text@),
        final(list)@.len() == old(list)@.len() + 1,
{
    list.push(text);
    assert(texts(list@) =~= texts(old(list)@).push(text@));
}

/// Removing a text from a list removes what it says.
pub proof fn lemma_texts_remove(list: Seq<String>, i: int)
    requires
        0 <= i < list.len(),
    ensures
        texts(list.remove(i)) == texts(list).remove(i),
{
    assert(texts(list.remove(i)) =~= texts(list).remove(i));
}

/// A text occurs in another where the other is something, that text, and something more;
/// it is begun by it where nothing stands in front, and ends in it where nothing follows.
pub proof fn law_texts_within_texts(text: Seq<char>, part: Seq<char>)
    ensures
        occurs(part, text) <==> exists|before: Seq<char>, after: Seq<char>|
            text == #[trigger] before.add(part).add(after),
        begins(text, part) <==> exists|after: Seq<char>| text == #[trigger] part.add(after),
        ends(text, part) <==> exists|before: Seq<char>| text == #[trigger] before.add(part),
{
    if occurs(part, text) {
        let i = choose|i: int| occurs_at(part, text, i);
        assert(text =~= text.take(i).add(part).add(text.skip(i + part.len()))) by {
            assert forall|k: int| 0 <= k < part.len() implies text[i + k] == part[k] by {
                assert(text.subrange(i, i + part.len())[k] == part[k]);
            }
        }
    }
    if exists|before: Seq<char>, after: Seq<char>|
        text == #[trigger] before.add(part).add(after) {
        let (before, after) = choose|before: Seq<char>, after: Seq<char>|
            text == #[trigger] before.add(part).add(after);
        let i = before.len() as int;
        assert(text.subrange(i, i + part.len()) =~= part);
        assert(occurs_at(part, text, i));
    }
    if begins(text, part) {
        assert(text =~= part.add(text.skip(part.len() as int))) by {
            assert forall|k: int| 0 <= k < part.len() implies text[k] == part[k] by {
                assert(text.subrange(0, part.len() as int)[k] == part[k]);
            }
        }
    }
    if exists|after: Seq<char>| text == #[trigger] part.add(after) {
        let after = choose|after: Seq<char>| text == #[trigger] part.add(after);
        assert(text.subrange(0, part.len() as int) =~= part);
    }
    if ends(text, part) {
        let n = text.len() - part.len();
        assert(text =~= text.take(n).add(part)) by {
            assert forall|k: int| 0 <= k < part.len() implies text[n + k] == part[k] by {
                assert(text.subrange(n, text.len() as int)[k] == part[k]);
            }
        }
    }
    if exists|before: Seq<char>| text == #[trigger] before.add(part) {
        let before = choose|before: Seq<char>| text == #[trigger] before.add(part);
        assert(text.subrange(text.len() - part.len(), text.len() as int) =~= part);
    }
}

/// The digits are the characters from zero on, with the letters behind nine.
pub proof fn law_digits(d: nat, upper: bool)
    requires
        d < 16,
    ensures
        digit(d, upper).len() == 1,
        d < 10 ==> digit(d, upper)[0] as int == '0' as int + d,
        d >= 10 && upper ==> digit(d, upper)[0] as int == 'A' as int + d - 10,
        d >= 10 && !upper ==> digit(d, upper)[0] as int == 'a' as int + d - 10,
{
    reveal_strlit("0");
    reveal_strlit("1");
    reveal_strlit("2");
    reveal_strlit("3");
    reveal_strlit("4");
    reveal_strlit("5");
    reveal_strlit("6");
    reveal_strlit("7");
    reveal_strlit("8");
    reveal_strlit("9");
    reveal_strlit("A");
    reveal_strlit("B");
    reveal_strlit("C");
    reveal_strlit("D");
    reveal_strlit("E");
    reveal_strlit("F");
    reveal_strlit("a");
    reveal_strlit("b");
    reveal_strlit("c");
    reveal_strlit("d");
    reveal_strlit("e");
    reveal_strlit("f");
}

/// A digit more behind a number, and the number is that many times as great and the digit
/// more.
pub proof fn law_numerals_grow_by_digits(n: nat, base: nat, upper: bool, d: nat)
    requires
        2 <= base <= 16,
        n > 0,
        d < base,
    ensures
        numeral(n * base + d, base, upper) == numeral(n, base, upper) + digit(d, upper),
        numeral(d, base, upper) == digit(d, upper),
{
    let m = (n * base + d) as nat;
    assert(m >= base && m / base == n && m % base == d) by (nonlinear_arith)
        requires
            m == n * base + d,
            d < base,
            n > 0,
            base >= 2,
    ;
}

/// A number of tenths is written as its whole part, a point and the digit behind it; one
/// of hundredths with two digits behind the point.
pub proof fn law_decimal_places(whole: nat, t: nat, h: nat)
    requires
        t < 10,
        h < 10,
    ensures
        tenths(10 * whole + t) == decimal(whole) + "."@ + digit(t, false),
        hundredths(100 * whole + 10 * t + h) == decimal(whole) + "."@ + digit(t, false) + digit(
            h,
            false,
        ),
{
    let n = 10 * whole + t;
    let m = 100 * whole + 10 * t + h;
    assert(n / 10 == whole && n % 10 == t);
    assert(m / 100 == whole && (m / 10) % 10 == t && m % 10 == h);
    assert(tenths(n) == decimal(whole) + "."@ + digit(t, false));
    assert(hundredths(m) == decimal(whole) + "."@ + digit(t, false) + digit(h, false));
}

/// In lower case no capital letter of ASCII is left, in upper case no small one; each is
/// the same letter, and all else stays as it is.
pub proof fn law_letters_of_both_cases(c: char)
    ensures
        !('A' <= ascii_lower(c) <= 'Z'),
        !('a' <= ascii_upper(c) <= 'z'),
        'A' <= c <= 'Z' ==> 'a' <= ascii_lower(c) <= 'z' && ascii_upper(ascii_lower(c)) == c,
        'a' <= c <= 'z' ==> 'A' <= ascii_upper(c) <= 'Z' && ascii_lower(ascii_upper(c)) == c,
        !('A' <= c <= 'Z') ==> ascii_lower(c) == c,
        !('a' <= c <= 'z') ==> ascii_upper(c) == c,
{
}

/// Replacing touches the character to replace, and no other.
pub proof fn law_replacing_touches_one_character(text: Seq<char>, from: char, to: char, i: int)
    requires
        0 <= i < text.len(),
    ensures
        replaced(text, from, to).len() == text.len(),
        text[i] == from ==> replaced(text, from, to)[i] == to,
        text[i] != from ==> replaced(text, from, to)[i] == text[i],
{
}

/// Joining puts the separator between the parts and nowhere else: of one part nothing but
/// the part comes out, and the parts of two lists joined are what each comes to, with the
/// separator between.
pub proof fn law_separators_stand_between_parts(
    a: Seq<Seq<char>>,
    b: Seq<Seq<char>>,
    part: Seq<char>,
    separator: Seq<char>,
)
    requires
        a.len() > 0,
        b.len() > 0,
    ensures
        joined(Seq::<Seq<char>>::empty(), separator).len() == 0,
        joined(seq![part], separator) == part,
        joined(a + b, separator) == joined(a, separator) + separator + joined(b, separator),
    decreases b.len(),
{
    let whole = a + b;
    assert(whole.last() == b.last());
    assert(whole.drop_last() =~= a + b.drop_last());
    if b.len() == 1 {
        assert(a + b.drop_last() =~= a);
        assert(joined(b, separator) == b[0]);
    } else {
        law_separators_stand_between_parts(a, b.drop_last(), part, separator);
        let (x, y) = (joined(a, separator), joined(b.drop_last(), separator));
        assert((x + separator + y) + separator + b.last() =~= x + separator + (y + separator
            + b.last()));
    }
}

/// Rounding goes to the nearest whole number of units; halfway between two, to the even
/// one.
pub proof fn law_rounding_goes_to_the_nearest(n: nat, unit: nat)
    requires
        unit > 0,
    ensures
        2 * (rounded(n, unit) * unit) <= 2 * n + unit,
        2 * n <= 2 * (rounded(n, unit) * unit) + unit,
        2 * n == 2 * (rounded(n, unit) * unit) + unit || 2 * n + unit == 2 * (rounded(n, unit)
            * unit) ==> rounded(n, unit) % 2 == 0,
{
    let low = n / unit;
    let rest = n % unit;
    assert(n == low * unit + rest && rest < unit) by (nonlinear_arith)
        requires
            unit > 0,
            low == n / unit,
            rest == n % unit,
    ;
    assert((low + 1) * unit == low * unit + unit) by (nonlinear_arith);
}

} // verus!

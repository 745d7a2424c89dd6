//! Words: what stands between white space.
use vstd::prelude::*;

use crate::text::{characters, push_text, texts};

verus! {

/// Whether a character is white space.
pub open spec fn whitespace(c: char) -> bool {
    '\u{9}' <= c <= '\u{d}' || c == ' ' || c == '\u{85}' || c == '\u{a0}' || c == '\u{1680}'
        || '\u{2000}' <= c <= '\u{200a}' || c == '\u{2028}' || c == '\u{2029}' || c == '\u{202f}'
        || c == '\u{205f}' || c == '\u{3000}'
}

/// Whether a character is white space.
pub fn is_whitespace(c: char) -> (r: bool)
    ensures
        r == whitespace(c),
{
    ('\u{9}' <= c && c <= '\u{d}') || c == ' ' || c == '\u{85}' || c == '\u{a0}' || c == '\u{1680}'
        || ('\u{2000}' <= c && c <= '\u{200a}') || c == '\u{2028}' || c == '\u{2029}' || c
        == '\u{202f}' || c == '\u{205f}' || c == '\u{3000}'
}

/// Whether a character controls rather than shows.
pub open spec fn control(c: char) -> bool {
    c <= '\u{1f}' || '\u{7f}' <= c <= '\u{9f}'
}

/// Whether a character controls rather than shows.
pub fn is_control(c: char) -> (r: bool)
    ensures
        r == control(c),
{
    c <= '\u{1f}' || ('\u{7f}' <= c && c <= '\u{9f}')
}

/// The first position from `i` on that is not white space, or the length.
pub open spec fn word_start(text: Seq<char>, i: int) -> int
    decreases text.len() - i,
{
    if 0 <= i < text.len() && whitespace(text[i]) {
        word_start(text, i + 1)
    } else {
        i
    }
}

/// The first position from `i` on that is white space, or the length.
pub open spec fn word_end(text: Seq<char>, i: int) -> int
    decreases text.len() - i,
{
    if 0 <= i < text.len() && !whitespace(text[i]) {
        word_end(text, i + 1)
    } else {
        i
    }
}

/// A word starts no earlier than where it is looked for, and within the text.
pub proof fn lemma_word_start(text: Seq<char>, i: int)
    requires
        0 <= i <= text.len(),
    ensures
        i <= word_start(text, i) <= text.len(),
        word_start(text, i) < text.len() ==> !whitespace(text[word_start(text, i)]),
    decreases text.len() - i,
{
    if i < text.len() && whitespace(text[i]) {
        lemma_word_start(text, i + 1);
    }
}

/// A word ends behind where it starts, and within the text.
pub proof fn lemma_word_end(text: Seq<char>, i: int)
    requires
        0 <= i <= text.len(),
    ensures
        i <= word_end(text, i) <= text.len(),
        i < text.len() && !whitespace(text[i]) ==> i < word_end(text, i),
    decreases text.len() - i,
{
    if i < text.len() && !whitespace(text[i]) {
        lemma_word_end(text, i + 1);
    }
}

/// The words from position `i` on.
pub open spec fn words_from(text: Seq<char>, i: int) -> Seq<Seq<char>>
    decreases text.len() - i,
    when 0 <= i <= text.len()
{
    let start = word_start(text, i);
    let end = word_end(text, start);
    if start >= text.len() {
        Seq::empty()
    } else {
        proof {
            lemma_word_start(text, i);
            lemma_word_end(text, start);
        }
        seq![text.subrange(start, end)] + words_from(text, end)
    }
}

/// The words of a text.
pub open spec fn words(text: Seq<char>) -> Seq<Seq<char>> {
    words_from(text, 0)
}

/// The words of a text.
pub fn words_of(text: &str) -> (r: Vec<String>)
    ensures
        texts(r@) == words(text@),
{
    let chars = characters(text);
    let mut r: Vec<String> = Vec::new();
    let mut i: usize = 0;
    let mut more = true;
    assert(texts(r@) =~= Seq::empty());
    assert(texts(r@) + words_from(text@, 0) =~= words(text@));
    while more
        invariant
            i <= chars@.len(),
            chars@ == text@,
            if more {
                texts(r@) + words_from(text@, i as int) == words(text@)
            } else {
                texts(r@) == words(text@)
            },
        decreases chars@.len() - i, (if more { 1int } else { 0 }),
    {
        let mut start: usize = i;
        while start < chars.len() && is_whitespace(chars[start])
            invariant
                i <= start <= chars@.len(),
                chars@ == text@,
                word_start(text@, start as int) == word_start(text@, i as int),
            decreases chars@.len() - start,
        {
            start += 1;
        }
        assert(start == word_start(text@, i as int));
        if start == chars.len() {
            assert(texts(r@) + Seq::<Seq<char>>::empty() =~= texts(r@));
            more = false;
        } else {
            let mut end: usize = start;
            while end < chars.len() && !is_whitespace(chars[end])
                invariant
                    start <= end <= chars@.len(),
                    chars@ == text@,
                    word_end(text@, end as int) == word_end(text@, start as int),
                decreases chars@.len() - end,
            {
                end += 1;
            }
            proof {
                lemma_word_start(text@, i as int);
                lemma_word_end(text@, start as int);
            }
            let ghost before = texts(r@);
            push_text(&mut r, text.substring_char(start, end).to_string());
            assert(texts(r@) + words_from(text@, end as int) =~= before + (seq![
                text@.subrange(start as int, end as int),
            ] + words_from(text@, end as int)));
            i = end;
        }
    }
    r
}

/// Whether nothing but white space stands in a text.
pub open spec fn blank(text: Seq<char>) -> bool {
    forall|i: int| 0 <= i < text.len() ==> whitespace(#[trigger] text[i])
}

/// Whether nothing but white space stands in a text.
pub fn is_blank(text: &str) -> (r: bool)
    ensures
        r == blank(text@),
{
    let chars = characters(text);
    let mut i: usize = 0;
    while i < chars.len()
        invariant
            i <= chars@.len(),
            chars@ == text@,
            forall|j: int| 0 <= j < i ==> whitespace(#[trigger] text@[j]),
        decreases chars@.len() - i,
    {
        if !is_whitespace(chars[i]) {
            return false;
        }
        i += 1;
    }
    true
}

/// How often `c` stands among the first `n` characters.
pub open spec fn char_count(text: Seq<char>, c: char, n: nat) -> nat
    decreases n,
{
    if n == 0 {
        0
    } else {
        char_count(text, c, (n - 1) as nat) + if text[n - 1] == c {
            1nat
        } else {
            0nat
        }
    }
}

/// How often `c` stands in a text.
pub fn count_char(text: &str, c: char) -> (n: usize)
    ensures
        n == char_count(text@, c, text@.len()),
{
    let chars = characters(text);
    let mut n: usize = 0;
    let mut i: usize = 0;
    while i < chars.len()
        invariant
            i <= chars@.len(),
            chars@ == text@,
            n <= i,
            n == char_count(text@, c, i as nat),
        decreases chars@.len() - i,
    {
        if chars[i] == c {
            n += 1;
        }
        i += 1;
    }
    n
}

/// A text without words is blank, and the other way round.
pub proof fn law_blank_text_has_no_words(text: Seq<char>)
    ensures
        blank(text) <==> words(text).len() == 0,
{
    if blank(text) {
        lemma_all_white(text, 0);
    } else {
        lemma_word_start(text, 0);
        let k = choose|k: int| 0 <= k < text.len() && !whitespace(#[trigger] text[k]);
        lemma_start_before(text, 0, k);
        lemma_word_end(text, word_start(text, 0));
    }
}

proof fn lemma_all_white(text: Seq<char>, i: int)
    requires
        blank(text),
        0 <= i <= text.len(),
    ensures
        word_start(text, i) == text.len(),
    decreases text.len() - i,
{
    if i < text.len() {
        assert(whitespace(text[i]));
        lemma_all_white(text, i + 1);
    }
}

proof fn lemma_start_before(text: Seq<char>, i: int, k: int)
    requires
        0 <= i <= k < text.len(),
        !whitespace(text[k]),
    ensures
        word_start(text, i) <= k,
    decreases k - i,
{
    if i < k && whitespace(text[i]) {
        lemma_start_before(text, i + 1, k);
    }
}

/// The pieces of a text between the places where `c` stands, from position `n` on,
/// where the piece at hand began at `start`.
pub open spec fn pieces_from(text: Seq<char>, c: char, n: nat, start: nat) -> Seq<Seq<char>>
    decreases text.len() - n,
    when n <= text.len()
{
    if n == text.len() {
        seq![text.subrange(start as int, n as int)]
    } else if text[n as int] == c {
        seq![text.subrange(start as int, n as int)] + pieces_from(text, c, n + 1, n + 1)
    } else {
        pieces_from(text, c, n + 1, start)
    }
}

/// The pieces of a text between the places where `c` stands: one more than there
/// are such places.
pub open spec fn pieces(text: Seq<char>, c: char) -> Seq<Seq<char>> {
    pieces_from(text, c, 0, 0)
}

/// The pieces of a text between the places where `c` stands.
pub fn pieces_of(text: &str, c: char) -> (r: Vec<String>)
    ensures
        texts(r@) == pieces(text@, c),
{
    let chars = characters(text);
    let mut r: Vec<String> = Vec::new();
    let mut start: usize = 0;
    let mut n: usize = 0;
    assert(texts(r@) =~= Seq::empty());
    assert(texts(r@) + pieces_from(text@, c, 0, 0) =~= pieces(text@, c));
    while n < chars.len()
        invariant
            start <= n <= chars@.len(),
            chars@ == text@,
            texts(r@) + pieces_from(text@, c, n as nat, start as nat) == pieces(text@, c),
        decreases chars@.len() - n,
    {
        if chars[n] == c {
            let ghost before = texts(r@);
            push_text(&mut r, text.substring_char(start, n).to_string());
            assert(texts(r@) + pieces_from(text@, c, (n + 1) as nat, (n + 1) as nat) =~= before
                + pieces_from(text@, c, n as nat, start as nat));
            start = n + 1;
        }
        n += 1;
    }
    let ghost before = texts(r@);
    push_text(&mut r, text.substring_char(start, n).to_string());
    assert(texts(r@) =~= before + pieces_from(text@, c, n as nat, start as nat));
    r
}

/// What the decimal digits of a text are worth.
pub open spec fn digits_value(digits: Seq<char>) -> nat
    decreases digits.len(),
{
    if digits.len() == 0 {
        0
    } else {
        digits_value(digits.drop_last()) * 10 + (digits.last() as nat - '0' as nat) as nat
    }
}

/// Whether a text is made of decimal digits.
pub open spec fn all_digits(text: Seq<char>) -> bool {
    forall|i: int| 0 <= i < text.len() ==> '0' <= #[trigger] text[i] <= '9'
}

/// A text without the plus sign in front of it.
pub open spec fn unsigned(text: Seq<char>) -> Seq<char> {
    if text.len() > 1 && text[0] == '+' {
        text.drop_first()
    } else {
        text
    }
}

/// The number that a text writes out in decimal digits, where it is one that an
/// index can be. A plus sign may stand in front.
pub open spec fn index_number(text: Seq<char>) -> Option<usize> {
    let digits = unsigned(text);
    if digits.len() > 0 && all_digits(digits) && digits_value(digits) <= usize::MAX {
        Some(digits_value(digits) as usize)
    } else {
        None
    }
}

proof fn lemma_digits_grow(digits: Seq<char>, n: int)
    requires
        0 <= n <= digits.len(),
        all_digits(digits),
    ensures
        digits_value(digits.take(n)) <= digits_value(digits),
    decreases digits.len() - n,
{
    if n < digits.len() {
        assert(digits.take(n + 1).drop_last() =~= digits.take(n));
        lemma_digits_grow(digits, n + 1);
        assert('0' <= digits[n] <= '9');
    } else {
        assert(digits.take(n) =~= digits);
    }
}

/// The number that a text writes out, where it is one that an index can be.
pub fn parse_index(text: &str) -> (r: Option<usize>)
    ensures
        r == index_number(text@),
{
    let chars = characters(text);
    let ghost digits = unsigned(text@);
    let first: usize = if chars.len() > 1 && chars[0] == '+' {
        1
    } else {
        0
    };
    if chars.len() == first {
        return None;
    }
    let mut value: u128 = 0;
    let mut i: usize = first;
    assert(digits.take(0) =~= Seq::empty());
    while i < chars.len()
        invariant
            first <= i <= chars@.len(),
            first <= 1,
            chars@ == text@,
            digits == unsigned(text@),
            digits.len() == text@.len() - first,
            forall|j: int| 0 <= j < digits.len() ==> digits[j] == #[trigger] text@[j + first],
            all_digits(digits.take(i - first)),
            value == digits_value(digits.take(i - first)),
            value <= usize::MAX,
        decreases chars@.len() - i,
    {
        let ghost k = i - first;
        let c = chars[i];
        assert(digits[k] == text@[k + first]);
        if c < '0' || c > '9' {
            assert(!all_digits(digits));
            return None;
        }
        let next: u128 = value * 10 + (c as u32 - '0' as u32) as u128;
        proof {
            assert(digits.take(k + 1).drop_last() =~= digits.take(k));
            assert(digits.take(k + 1).last() == c);
            assert(next == digits_value(digits.take(k + 1)));
            assert forall|j: int| 0 <= j < k + 1 implies '0' <= #[trigger] digits.take(k + 1)[j]
                <= '9' by {
                if j < k {
                    assert(digits.take(k + 1)[j] == digits.take(k)[j]);
                }
            }
        }
        if next > usize::MAX as u128 {
            proof {
                if all_digits(digits) {
                    lemma_digits_grow(digits, k + 1);
                }
            }
            return None;
        }
        value = next;
        i += 1;
    }
    assert(digits.take(digits.len() as int) =~= digits);
    Some(value as usize)
}

proof fn lemma_words_shift(front: Seq<char>, text: Seq<char>, i: int)
    requires
        0 <= i <= text.len(),
    ensures
        word_start(front + text, front.len() + i) == front.len() + word_start(text, i),
        word_end(front + text, front.len() + i) == front.len() + word_end(text, i),
    decreases text.len() - i,
{
    if i < text.len() {
        assert((front + text)[front.len() + i] == text[i]);
        lemma_words_shift(front, text, i + 1);
    }
}

proof fn lemma_words_behind(front: Seq<char>, text: Seq<char>, i: int)
    requires
        0 <= i <= text.len(),
    ensures
        words_from(front + text, front.len() + i) == words_from(text, i),
    decreases text.len() - i,
{
    let start = word_start(text, i);
    lemma_word_start(text, i);
    lemma_words_shift(front, text, i);
    if start < text.len() {
        let end = word_end(text, start);
        lemma_word_end(text, start);
        lemma_words_shift(front, text, start);
        lemma_words_behind(front, text, end);
        assert((front + text).subrange(front.len() + start, front.len() + end) =~= text.subrange(
            start,
            end,
        ));
    }
}

proof fn lemma_word_end_at(text: Seq<char>, i: int, k: int)
    requires
        0 <= i <= k <= text.len(),
        forall|j: int| i <= j < k ==> !whitespace(#[trigger] text[j]),
        k < text.len() ==> whitespace(text[k]),
    ensures
        word_end(text, i) == k,
    decreases k - i,
{
    if i < k {
        assert(!whitespace(text[i]));
        lemma_word_end_at(text, i + 1, k);
    }
}

/// White space in front of a text changes none of its words. What stands in front of the
/// first white space is the first word, and the words of what follows are the others.
pub proof fn law_words_stand_between_white_space(word: Seq<char>, space: char, rest: Seq<char>)
    requires
        word.len() > 0,
        forall|i: int| 0 <= i < word.len() ==> !whitespace(#[trigger] word[i]),
        whitespace(space),
    ensures
        words(seq![space] + rest) == words(rest),
        words(word + (seq![space] + rest)) == seq![word] + words(rest),
        words(word) == seq![word],
        words(Seq::<char>::empty()).len() == 0,
{
    let spaced = seq![space] + rest;
    assert(spaced[0] == space);
    lemma_words_behind(seq![space], rest, 0);
    lemma_word_start(rest, 0);
    lemma_words_shift(seq![space], rest, 0);
    assert(word_start(spaced, 0) == word_start(spaced, 1));
    assert(words_from(spaced, 1) == words(rest));
    lemma_word_start(spaced, 0);
    assert(words(spaced) == words_from(spaced, 1));
    let whole = word + spaced;
    let n = word.len() as int;
    assert forall|j: int| 0 <= j < n implies !whitespace(#[trigger] whole[j]) by {
        assert(whole[j] == word[j]);
    }
    assert(whole[n] == spaced[0]);
    lemma_word_end_at(whole, 0, n);
    assert(!whitespace(whole[0]));
    assert(whole.subrange(0, n) =~= word);
    lemma_words_behind(word, spaced, 0);
    assert(words_from(whole, n) == words(spaced));
    lemma_word_end_at(word, 0, n);
    assert(!whitespace(word[0]));
    assert(word.subrange(0, n) =~= word);
    assert(words_from(word, n) =~= Seq::empty());
    assert(words(word) =~= seq![word]);
}

proof fn lemma_pieces_shift(front: Seq<char>, text: Seq<char>, c: char, n: nat, start: nat)
    requires
        start <= n <= text.len(),
    ensures
        pieces_from(front + text, c, front.len() + n, front.len() + start) == pieces_from(
            text,
            c,
            n,
            start,
        ),
    decreases text.len() - n,
{
    let whole = front + text;
    assert(whole.subrange((front.len() + start) as int, (front.len() + n) as int)
        =~= text.subrange(start as int, n as int));
    if n < text.len() {
        assert(whole[(front.len() + n) as int] == text[n as int]);
        if text[n as int] == c {
            lemma_pieces_shift(front, text, c, n + 1, n + 1);
        } else {
            lemma_pieces_shift(front, text, c, n + 1, start);
        }
    }
}

proof fn lemma_first_piece(text: Seq<char>, c: char, n: nat, k: nat)
    requires
        n <= k <= text.len(),
        forall|i: int| n <= i < k ==> (#[trigger] text[i]) != c,
    ensures
        pieces_from(text, c, n, 0) == pieces_from(text, c, k, 0),
    decreases k - n,
{
    if n < k {
        assert(text[n as int] != c);
        lemma_first_piece(text, c, n + 1, k);
    }
}

/// What stands in front of the first separator is the first piece, and the pieces of what
/// follows are the others; a text without separators is one piece.
pub proof fn law_pieces_stand_between_separators(piece: Seq<char>, c: char, rest: Seq<char>)
    requires
        !piece.contains(c),
    ensures
        pieces(piece, c) == seq![piece],
        pieces(piece + (seq![c] + rest), c) == seq![piece] + pieces(rest, c),
{
    let n = piece.len();
    assert forall|i: int| 0 <= i < n implies (#[trigger] piece[i]) != c by {
        assert(piece.contains(piece[i]));
    }
    lemma_first_piece(piece, c, 0, n);
    assert(piece.subrange(0, n as int) =~= piece);
    let whole = piece + (seq![c] + rest);
    assert forall|i: int| 0 <= i < n implies (#[trigger] whole[i]) != c by {
        assert(whole[i] == piece[i]);
    }
    lemma_first_piece(whole, c, 0, n);
    assert(whole[n as int] == c);
    assert(whole.subrange(0, n as int) =~= piece);
    let front = piece + seq![c];
    assert(whole =~= front + rest);
    lemma_pieces_shift(front, rest, c, 0, 0);
}

/// Characters are counted one by one.
pub proof fn law_characters_are_counted(text: Seq<char>, c: char, x: char)
    ensures
        char_count(text.push(x), c, text.len() + 1) == char_count(text, c, text.len()) + if x == c {
            1int
        } else {
            0int
        },
        char_count(text, c, 0) == 0,
{
    lemma_count_of_front(text, x, c, text.len());
}

proof fn lemma_count_of_front(text: Seq<char>, x: char, c: char, n: nat)
    requires
        n <= text.len(),
    ensures
        char_count(text.push(x), c, n) == char_count(text, c, n),
    decreases n,
{
    if n > 0 {
        lemma_count_of_front(text, x, c, (n - 1) as nat);
    }
}

proof fn lemma_decimal_value(n: nat)
    ensures
        all_digits(crate::text::decimal(n)),
        crate::text::decimal(n).len() > 0,
        digits_value(crate::text::decimal(n)) == n,
    decreases n,
{
    let text = crate::text::decimal(n);
    reveal_with_fuel(digits_value, 2);
    if n < 10 {
        crate::text::law_digits(n, false);
        assert(text.drop_last() =~= Seq::<char>::empty());
    } else {
        lemma_decimal_value(n / 10);
        crate::text::law_digits(n % 10, false);
        let front = crate::text::decimal(n / 10);
        assert(text == front + crate::text::digit(n % 10, false));
        assert(text.drop_last() =~= front);
        assert forall|i: int| 0 <= i < text.len() implies '0' <= #[trigger] text[i] <= '9' by {
            if i < front.len() {
                assert(text[i] == front[i]);
            }
        }
    }
}

/// A number that is written out in decimal digits is read back.
pub proof fn law_numbers_are_read_back(n: usize)
    ensures
        index_number(crate::text::decimal(n as nat)) == Some(n),
{
    lemma_decimal_value(n as nat);
    let text = crate::text::decimal(n as nat);
    assert('0' <= text[0]);
}

} // verus!

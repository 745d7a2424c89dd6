//! Byte buffers: searching for patterns and reading little-endian numbers.
use vstd::prelude::*;

verus! {

/// Whether `pattern` stands in `buffer` at position `i`.
pub open spec fn matches_at(buffer: Seq<u8>, pattern: Seq<u8>, i: int) -> bool {
    0 <= i && i + pattern.len() <= buffer.len() && buffer.subrange(i, i + pattern.len()) == pattern
}

/// Whether `pattern` stands somewhere in `buffer`.
pub open spec fn found(buffer: Seq<u8>, pattern: Seq<u8>) -> bool {
    exists|i: int| matches_at(buffer, pattern, i)
}

/// At how many of the first `n` positions of `buffer` the pattern stands.
pub open spec fn occurrences_below(buffer: Seq<u8>, pattern: Seq<u8>, n: nat) -> nat
    decreases n,
{
    if n == 0 {
        0
    } else {
        occurrences_below(buffer, pattern, (n - 1) as nat) + if matches_at(
            buffer,
            pattern,
            n - 1,
        ) {
            1nat
        } else {
            0nat
        }
    }
}

/// At how many positions of `buffer` the pattern stands.
pub open spec fn occurrences(buffer: Seq<u8>, pattern: Seq<u8>) -> nat {
    occurrences_below(buffer, pattern, (buffer.len() + 1) as nat)
}

/// Whether `pattern` stands in `buffer` at position `i`.
pub fn bytes_match_at(buffer: &[u8], pattern: &[u8], i: usize) -> (r: bool)
    ensures
        r == matches_at(buffer@, pattern@, i as int),
{
    if i > buffer.len() || pattern.len() > buffer.len() - i {
        return false;
    }
    let mut k: usize = 0;
    while k < pattern.len()
        invariant
            k <= pattern@.len(),
            i + pattern@.len() <= buffer@.len() <= usize::MAX,
            forall|j: int| 0 <= j < k ==> buffer@[i + j] == pattern@[j],
        decreases pattern@.len() - k,
    {
        if buffer[i + k] != pattern[k] {
            assert(buffer@.subrange(i as int, i + pattern@.len())[k as int] != pattern@[k as int]);
            return false;
        }
        k += 1;
    }
    assert(buffer@.subrange(i as int, i + pattern@.len()) =~= pattern@);
    true
}

/// Whether `pattern` stands somewhere in `buffer`.
pub fn find_bytes(buffer: &[u8], pattern: &[u8]) -> (r: bool)
    ensures
        r == found(buffer@, pattern@),
{
    let mut i: usize = 0;
    while i <= buffer.len() && pattern.len() <= buffer.len() - i
        invariant
            i <= buffer@.len() + 1,
            i > 0 ==> i + pattern@.len() <= buffer@.len() + 1,
            forall|j: int| 0 <= j < i ==> !matches_at(buffer@, pattern@, j),
        decreases buffer@.len() + 1 - i,
    {
        if bytes_match_at(buffer, pattern, i) {
            return true;
        }
        if i == buffer.len() {
            assert(forall|j: int| !matches_at(buffer@, pattern@, j));
            return false;
        }
        i += 1;
    }
    false
}

proof fn lemma_no_occurrences(buffer: Seq<u8>, pattern: Seq<u8>, m: nat, n: nat)
    requires
        m <= n,
        m + pattern.len() > buffer.len(),
    ensures
        occurrences_below(buffer, pattern, m) == occurrences_below(buffer, pattern, n),
    decreases n,
{
    if m < n {
        lemma_no_occurrences(buffer, pattern, m, (n - 1) as nat);
    }
}

/// At how many positions of `buffer` the pattern stands.
pub fn count_bytes(buffer: &[u8], pattern: &[u8]) -> (n: usize)
    requires
        pattern@.len() > 0,
    ensures
        n == occurrences(buffer@, pattern@),
        n <= buffer@.len(),
{
    let mut n: usize = 0;
    let mut i: usize = 0;
    while i < buffer.len() && pattern.len() <= buffer.len() - i
        invariant
            i <= buffer@.len(),
            n == occurrences_below(buffer@, pattern@, i as nat),
            n <= i,
        decreases buffer@.len() - i,
    {
        if bytes_match_at(buffer, pattern, i) {
            n += 1;
        }
        i += 1;
    }
    proof {
        lemma_no_occurrences(buffer@, pattern@, i as nat, (buffer@.len() + 1) as nat);
    }
    n
}

/// A pattern stands in a buffer if and only if it stands there at least once.
pub proof fn law_found_iff_counted(buffer: Seq<u8>, pattern: Seq<u8>)
    ensures
        found(buffer, pattern) <==> occurrences(buffer, pattern) > 0,
{
    if found(buffer, pattern) {
        let i = choose|i: int| matches_at(buffer, pattern, i);
        lemma_occurrences_monotone(buffer, pattern, (i + 1) as nat, (buffer.len() + 1) as nat);
    }
    if occurrences(buffer, pattern) > 0 {
        lemma_counted_is_found(buffer, pattern, (buffer.len() + 1) as nat);
    }
}

proof fn lemma_occurrences_monotone(buffer: Seq<u8>, pattern: Seq<u8>, m: nat, n: nat)
    requires
        m <= n,
    ensures
        occurrences_below(buffer, pattern, m) <= occurrences_below(buffer, pattern, n),
    decreases n,
{
    if m < n {
        lemma_occurrences_monotone(buffer, pattern, m, (n - 1) as nat);
    }
}

proof fn lemma_counted_is_found(buffer: Seq<u8>, pattern: Seq<u8>, n: nat)
    requires
        occurrences_below(buffer, pattern, n) > 0,
    ensures
        found(buffer, pattern),
    decreases n,
{
    if n > 0 && !matches_at(buffer, pattern, n - 1) {
        lemma_counted_is_found(buffer, pattern, (n - 1) as nat);
    }
}

/// The little-endian number in the two bytes from position `i`.
pub open spec fn le16(buffer: Seq<u8>, i: int) -> int {
    buffer[i] + 0x100 * buffer[i + 1]
}

/// The little-endian number in the four bytes from position `i`.
pub open spec fn le32(buffer: Seq<u8>, i: int) -> int {
    le16(buffer, i) + 0x1_0000 * le16(buffer, i + 2)
}

/// Reads the little-endian number in the two bytes from position `i`.
pub fn read_le16(buffer: &[u8], i: usize) -> (n: u16)
    requires
        i + 2 <= buffer@.len(),
    ensures
        n == le16(buffer@, i as int),
{
    (buffer[i] as u16) + 0x100 * (buffer[i + 1] as u16)
}

/// Reads the little-endian number in the four bytes from position `i`.
pub fn read_le32(buffer: &[u8], i: usize) -> (n: u32)
    requires
        i + 4 <= buffer@.len(),
    ensures
        n == le32(buffer@, i as int),
{
    assert(buffer.len() == buffer@.len());
    (read_le16(buffer, i) as u32) + 0x1_0000 * (read_le16(buffer, i + 2) as u32)
}

/// A named byte pattern with the weight that finding it has, in millionths.
pub struct BytePattern {
    pub name: &'static str,
    pub bytes: Vec<u8>,
    pub weight: u32,
}

/// What a byte pattern says.
#[verifier::ext_equal]
pub struct BytePatternModel {
    pub name: Seq<char>,
    pub bytes: Seq<u8>,
    pub weight: u32,
}

impl View for BytePattern {
    type V = BytePatternModel;

    open spec fn view(&self) -> BytePatternModel {
        BytePatternModel { name: self.name@, bytes: self.bytes@, weight: self.weight }
    }
}

/// What a table of byte patterns says.
pub open spec fn patterns_view(v: Seq<BytePattern>) -> Seq<BytePatternModel> {
    v.map_values(|p: BytePattern| p@)
}

/// A pattern is counted once for each position at which it stands, also where it overlaps
/// itself.
pub proof fn law_every_position_counts(buffer: Seq<u8>, pattern: Seq<u8>, n: nat)
    ensures
        ({
            let places = Set::new(|i: int| 0 <= i < n && matches_at(buffer, pattern, i));
            places.finite() && occurrences_below(buffer, pattern, n) == places.len()
        }),
    decreases n,
{
    let places = Set::new(|i: int| 0 <= i < n && matches_at(buffer, pattern, i));
    if n == 0 {
        assert(places =~= Set::<int>::empty());
    } else {
        law_every_position_counts(buffer, pattern, (n - 1) as nat);
        let before = Set::new(|i: int| 0 <= i < n - 1 && matches_at(buffer, pattern, i));
        if matches_at(buffer, pattern, n - 1) {
            assert(places =~= before.insert(n - 1));
        } else {
            assert(places =~= before);
        }
    }
}

/// In a little-endian number each byte counts two hundred and fifty-six times as much as
/// the one in front of it.
pub proof fn law_later_bytes_count_more(buffer: Seq<u8>, i: int)
    ensures
        le16(buffer, i) == buffer[i] + 256 * buffer[i + 1],
        le32(buffer, i) == buffer[i] + 256 * (buffer[i + 1] + 256 * (buffer[i + 2] + 256
            * buffer[i + 3])),
{
}

} // verus!

//! The matcher: tests an encoded address against the prefix table and
//! answers with the first entry that the address starts with.
//!
//! What a match is, is said over text; how it is found, over bytes. The two
//! agree, since both the address and the prefixes are compared in UTF-8.

use crate::prefix::table_texts;
use crate::prefix::PrefixEntry;
use crate::text::lemma_byte_prefix_gives_text_prefix;
use crate::text::lemma_text_prefix_gives_byte_prefix;
use vstd::prelude::*;
use vstd::utf8::encode_utf8;

verus! {

/// An address matches a prefix when the prefix's characters are the first
/// characters of the address, in the same order and the same case.
pub open spec fn prefix_matches(address: Seq<char>, prefix: Seq<char>) -> bool {
    prefix.is_prefix_of(address)
}

/// Entry `i` matches the address and no entry before it does.
pub open spec fn is_first_match(address: Seq<char>, prefixes: Seq<Seq<char>>, i: int) -> bool {
    &&& 0 <= i < prefixes.len()
    &&& prefix_matches(address, prefixes[i])
    &&& forall|j: int| 0 <= j < i ==> !prefix_matches(address, #[trigger] prefixes[j])
}

/// The position of the first entry, in table order, that the address starts
/// with; `None` when it starts with none of them.
pub open spec fn first_match(address: Seq<char>, prefixes: Seq<Seq<char>>) -> Option<int> {
    if exists|i: int| is_first_match(address, prefixes, i) {
        Some(choose|i: int| is_first_match(address, prefixes, i))
    } else {
        None
    }
}

/// The text of the first matching entry: what the matcher hands back.
pub open spec fn matched_text(address: Seq<char>, prefixes: Seq<Seq<char>>) -> Option<Seq<char>> {
    match first_match(address, prefixes) {
        Some(i) => Some(prefixes[i]),
        None => None,
    }
}

/// Width, in bytes, of the blocks in which long prefixes are compared.
pub const CHUNK: usize = 8;

/// Compares `a[from..to]` with `b[from..to]`, byte by byte.
fn range_equal(a: &[u8], b: &[u8], from: usize, to: usize) -> (same: bool)
    requires
        from <= to,
        to <= a@.len(),
        to <= b@.len(),
    ensures
        same == (a@.subrange(from as int, to as int) == b@.subrange(from as int, to as int)),
{
    let mut i: usize = from;
    while i < to
        invariant
            from <= i <= to,
            to <= a@.len(),
            to <= b@.len(),
            a@.subrange(from as int, i as int) == b@.subrange(from as int, i as int),
        decreases to - i,
    {
        if a[i] != b[i] {
            assert(a@.subrange(from as int, to as int)[i - from] != b@.subrange(
                from as int,
                to as int,
            )[i - from]);
            return false;
        }
        assert(a@.subrange(from as int, i + 1) == a@.subrange(from as int, i as int).push(a@[i as int]));
        assert(b@.subrange(from as int, i + 1) == b@.subrange(from as int, i as int).push(b@[i as int]));
        i = i + 1;
    }
    true
}

/// Tells whether `encoded` starts with `prefix`.
///
/// Prefixes of more than [`CHUNK`] bytes are compared block by block, the
/// remainder last; the blocks change how the bytes are walked, never the
/// answer.
pub fn fast_prefix_compare(encoded: &[u8], prefix: &[u8]) -> (matched: bool)
    ensures
        matched == prefix@.is_prefix_of(encoded@),
{
    let n: usize = prefix.len();
    if encoded.len() < n {
        return false;
    }
    if n <= CHUNK {
        let same: bool = range_equal(encoded, prefix, 0, n);
        assert(prefix@.subrange(0, n as int) == prefix@);
        return same;
    }
    let tail_start: usize = n - n % CHUNK;
    let mut done: usize = 0;
    while done < tail_start
        invariant
            n == prefix@.len(),
            n <= encoded@.len(),
            tail_start == n - n % CHUNK,
            done <= tail_start,
            done % CHUNK == 0,
            encoded@.subrange(0, done as int) == prefix@.subrange(0, done as int),
        decreases tail_start - done,
    {
        let next: usize = done + CHUNK;
        if !range_equal(encoded, prefix, done, next) {
            proof {
                lemma_differing_block(encoded@, prefix@, done as int, next as int);
            }
            return false;
        }
        proof {
            lemma_join_ranges(encoded@, prefix@, done as int, next as int);
        }
        done = next;
    }
    let same: bool = range_equal(encoded, prefix, tail_start, n);
    proof {
        if same {
            lemma_join_ranges(encoded@, prefix@, tail_start as int, n as int);
        } else {
            lemma_differing_block(encoded@, prefix@, tail_start as int, n as int);
        }
        assert(prefix@.subrange(0, n as int) == prefix@);
    }
    same
}

/// Finds the first entry of the table that the address starts with.
///
/// The address is encoded once by the caller; every entry is compared with
/// the same bytes. An entry longer than the address cannot match.
pub fn find_match(address: &str, table: &[PrefixEntry]) -> (found: Option<usize>)
    ensures
        match found {
            Some(i) => first_match(address@, table_texts(table@)) == Some(i as int),
            None => first_match(address@, table_texts(table@)) is None,
        },
{
    let encoded: &[u8] = address.as_bytes();
    let ghost prefixes: Seq<Seq<char>> = table_texts(table@);
    let mut i: usize = 0;
    while i < table.len()
        invariant
            i <= table@.len(),
            encoded@ == encode_utf8(address@),
            prefixes == table_texts(table@),
            forall|j: int| 0 <= j < i ==> !prefix_matches(address@, #[trigger] prefixes[j]),
        decreases table@.len() - i,
    {
        let entry: &PrefixEntry = &table[i];
        proof {
            assert(prefixes[i as int] == entry@);
            lemma_match_reads_as_bytes(address@, entry@);
        }
        if encoded.len() >= entry.len() && fast_prefix_compare(encoded, entry.bytes()) {
            proof {
                assert(is_first_match(address@, prefixes, i as int));
                lemma_first_match_is(address@, prefixes, i as int);
            }
            return Some(i);
        }
        i = i + 1;
    }
    proof {
        lemma_no_match(address@, prefixes);
    }
    None
}

/// Finds the first entry that the address starts with and hands back its text.
pub fn matching_prefix(address: &str, table: &[PrefixEntry]) -> (found: Option<String>)
    ensures
        match found {
            Some(text) => matched_text(address@, table_texts(table@)) == Some(text@),
            None => matched_text(address@, table_texts(table@)) is None,
        },
{
    match find_match(address, table) {
        Some(i) => Some(table[i].text().clone()),
        None => None,
    }
}

/// Matching on text is matching on bytes: the characters of a prefix are the
/// first characters of an address exactly when the bytes of the prefix are
/// the first bytes of the address, both taken in UTF-8.
pub proof fn lemma_match_reads_as_bytes(address: Seq<char>, prefix: Seq<char>)
    ensures
        prefix_matches(address, prefix) <==> encode_utf8(prefix).is_prefix_of(
            encode_utf8(address),
        ),
{
    if prefix.is_prefix_of(address) {
        lemma_text_prefix_gives_byte_prefix(prefix, address);
    }
    if encode_utf8(prefix).is_prefix_of(encode_utf8(address)) {
        lemma_byte_prefix_gives_text_prefix(prefix, address);
    }
}

/// At most one position is the first match.
pub proof fn lemma_first_match_unique(address: Seq<char>, prefixes: Seq<Seq<char>>, i: int, j: int)
    requires
        is_first_match(address, prefixes, i),
        is_first_match(address, prefixes, j),
    ensures
        i == j,
{
    if i < j {
        assert(!prefix_matches(address, prefixes[i]));
    } else if j < i {
        assert(!prefix_matches(address, prefixes[j]));
    }
}

/// A position that is the first match is what `first_match` gives.
pub proof fn lemma_first_match_is(address: Seq<char>, prefixes: Seq<Seq<char>>, i: int)
    requires
        is_first_match(address, prefixes, i),
    ensures
        first_match(address, prefixes) == Some(i),
{
    let k = choose|k: int| is_first_match(address, prefixes, k);
    lemma_first_match_unique(address, prefixes, i, k);
}

/// Where no entry matches, `first_match` gives `None`.
pub proof fn lemma_no_match(address: Seq<char>, prefixes: Seq<Seq<char>>)
    requires
        forall|j: int| 0 <= j < prefixes.len() ==> !prefix_matches(address, #[trigger] prefixes[j]),
    ensures
        first_match(address, prefixes) is None,
{
    assert forall|i: int| !is_first_match(address, prefixes, i) by {
        if 0 <= i < prefixes.len() {
            assert(!prefix_matches(address, prefixes[i]));
        }
    }
}

/// What `first_match` gives is a position that matches, with no match before it.
pub proof fn lemma_first_match_matches(address: Seq<char>, prefixes: Seq<Seq<char>>)
    ensures
        first_match(address, prefixes) matches Some(i) ==> is_first_match(address, prefixes, i),
        first_match(address, prefixes) is None ==> forall|j: int|
            0 <= j < prefixes.len() ==> !prefix_matches(address, #[trigger] prefixes[j]),
{
    if first_match(address, prefixes) is None {
        assert forall|j: int| 0 <= j < prefixes.len() implies !prefix_matches(
            address,
            #[trigger] prefixes[j],
        ) by {
            if prefix_matches(address, prefixes[j]) {
                lemma_some_match_has_first(address, prefixes, j);
            }
        }
    }
}

/// Where position `i` matches, some position up to `i` is the first match.
proof fn lemma_some_match_has_first(address: Seq<char>, prefixes: Seq<Seq<char>>, i: int)
    requires
        0 <= i < prefixes.len(),
        prefix_matches(address, prefixes[i]),
    ensures
        exists|k: int| 0 <= k <= i && is_first_match(address, prefixes, k),
    decreases i,
{
    if exists|j: int| 0 <= j < i && prefix_matches(address, #[trigger] prefixes[j]) {
        let j = choose|j: int| 0 <= j < i && prefix_matches(address, #[trigger] prefixes[j]);
        lemma_some_match_has_first(address, prefixes, j);
        let k = choose|k: int| 0 <= k <= j && is_first_match(address, prefixes, k);
        assert(0 <= k <= i && is_first_match(address, prefixes, k));
    } else {
        assert(is_first_match(address, prefixes, i));
    }
}

/// The matcher is a function of the address and the table: two answers for
/// the same address and the same table are the same answer.
pub proof fn lemma_matcher_deterministic(
    address: Seq<char>,
    prefixes: Seq<Seq<char>>,
    first: Option<int>,
    second: Option<int>,
)
    requires
        first == first_match(address, prefixes),
        second == first_match(address, prefixes),
    ensures
        first == second,
{
}

/// Where an address starts with two entries of the table, the matcher picks
/// neither the later one nor anything after the earlier one: its answer is a
/// matching position at or before the earlier of the two.
pub proof fn lemma_earliest_match_wins(
    address: Seq<char>,
    prefixes: Seq<Seq<char>>,
    earlier: int,
    later: int,
)
    requires
        0 <= earlier < later < prefixes.len(),
        prefix_matches(address, prefixes[earlier]),
        prefix_matches(address, prefixes[later]),
    ensures
        first_match(address, prefixes) matches Some(k) && k <= earlier && k != later
            && prefix_matches(address, prefixes[k]),
{
    lemma_some_match_has_first(address, prefixes, earlier);
    let k = choose|k: int| 0 <= k <= earlier && is_first_match(address, prefixes, k);
    lemma_first_match_is(address, prefixes, k);
}

/// An address shorter than a prefix does not match it, whatever it holds,
/// be the lengths counted in characters or in bytes; the matcher therefore
/// never answers with such an entry.
pub proof fn lemma_short_address_never_matches(
    address: Seq<char>,
    prefixes: Seq<Seq<char>>,
    i: int,
)
    requires
        0 <= i < prefixes.len(),
        address.len() < prefixes[i].len() || encode_utf8(address).len() < encode_utf8(
            prefixes[i],
        ).len(),
    ensures
        !prefix_matches(address, prefixes[i]),
        first_match(address, prefixes) != Some(i),
{
    lemma_match_reads_as_bytes(address, prefixes[i]);
    lemma_first_match_matches(address, prefixes);
}

/// Two sequences that agree on `[0, mid)` and on `[mid, end)` agree on `[0, end)`.
proof fn lemma_join_ranges(a: Seq<u8>, b: Seq<u8>, mid: int, end: int)
    requires
        0 <= mid <= end,
        end <= a.len(),
        end <= b.len(),
        a.subrange(0, mid) == b.subrange(0, mid),
        a.subrange(mid, end) == b.subrange(mid, end),
    ensures
        a.subrange(0, end) == b.subrange(0, end),
{
    assert forall|i: int| 0 <= i < end implies a[i] == b[i] by {
        if i < mid {
            assert(a.subrange(0, mid)[i] == a[i]);
            assert(b.subrange(0, mid)[i] == b[i]);
        } else {
            assert(a.subrange(mid, end)[i - mid] == a[i]);
            assert(b.subrange(mid, end)[i - mid] == b[i]);
        }
    }
    assert(a.subrange(0, end) =~= b.subrange(0, end));
}

/// Where `a` and `b` differ somewhere in `[from, to)`, a range that lies
/// within `b`, `b` is not a prefix of `a`.
proof fn lemma_differing_block(a: Seq<u8>, b: Seq<u8>, from: int, to: int)
    requires
        0 <= from <= to,
        to <= b.len(),
        b.len() <= a.len(),
        a.subrange(from, to) != b.subrange(from, to),
    ensures
        !b.is_prefix_of(a),
{
    if b.is_prefix_of(a) {
        assert forall|i: int| 0 <= i < to - from implies a.subrange(from, to)[i] == b.subrange(
            from,
            to,
        )[i] by {
            assert(a.subrange(0, b.len() as int)[from + i] == b[from + i]);
        }
        assert(a.subrange(from, to) =~= b.subrange(from, to));
    }
}

} // verus!

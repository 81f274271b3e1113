//! The prefix table: one entry per target prefix, built once before a search.

use vstd::prelude::*;
use vstd::slice::slice_to_vec;
use vstd::utf8::encode_utf8;

verus! {

/// One target prefix: its text, the bytes of that text and their number.
///
/// The mathematical value of an entry is its text; the bytes and the length
/// are always those of the text's UTF-8 form.
#[derive(Debug)]
pub struct PrefixEntry {
    text: String,
    bytes: Vec<u8>,
    length: usize,
}

impl View for PrefixEntry {
    type V = Seq<char>;

    closed spec fn view(&self) -> Seq<char> {
        self.text@
    }
}

impl PrefixEntry {
    #[verifier::type_invariant]
    spec fn consistent(&self) -> bool {
        &&& self.bytes@ == encode_utf8(self.text@)
        &&& self.length == self.bytes@.len()
    }

    /// Builds the entry for `text`.
    pub fn new(text: &str) -> (entry: PrefixEntry)
        ensures
            entry@ == text@,
    {
        let bytes: Vec<u8> = slice_to_vec(text.as_bytes());
        let length: usize = bytes.len();
        PrefixEntry { text: text.to_owned(), bytes, length }
    }

    /// The prefix as the caller wrote it.
    pub fn text(&self) -> (text: &String)
        ensures
            text@ == self@,
    {
        &self.text
    }

    /// The bytes an address has to start with.
    pub fn bytes(&self) -> (bytes: &[u8])
        ensures
            bytes@ == encode_utf8(self@),
    {
        proof {
            use_type_invariant(self);
        }
        self.bytes.as_slice()
    }

    /// The number of bytes in the prefix.
    pub fn len(&self) -> (length: usize)
        ensures
            length == encode_utf8(self@).len(),
    {
        proof {
            use_type_invariant(self);
        }
        self.length
    }
}

/// The texts of a table's entries, in table order.
pub open spec fn table_texts(table: Seq<PrefixEntry>) -> Seq<Seq<char>> {
    Seq::new(table.len(), |i: int| table[i]@)
}

/// The texts of a list of strings, in order.
pub open spec fn texts_of(prefixes: Seq<String>) -> Seq<Seq<char>> {
    Seq::new(prefixes.len(), |i: int| prefixes[i]@)
}

/// Builds the prefix table: one entry per given prefix, in the order given.
/// Duplicates are kept.
pub fn build_prefix_table(prefixes: &[String]) -> (table: Vec<PrefixEntry>)
    ensures
        table_texts(table@) == texts_of(prefixes@),
{
    let mut table: Vec<PrefixEntry> = Vec::new();
    let mut i: usize = 0;
    while i < prefixes.len()
        invariant
            i <= prefixes@.len(),
            table@.len() == i,
            forall|k: int| 0 <= k < i ==> (#[trigger] table@[k])@ == prefixes@[k]@,
        decreases prefixes@.len() - i,
    {
        table.push(PrefixEntry::new(prefixes[i].as_str()));
        i = i + 1;
    }
    assert(table_texts(table@) =~= texts_of(prefixes@));
    table
}

} // verus!

//! The canonical hash: a digest that does not depend on the order in which
//! the hashed fields are handed over.

use crate::utils::base16;
use crate::utils::base16::hex_text;
use crate::utils::order::{lemma_text_order_total, text_order};
use sha2::Digest;
use vstd::prelude::*;
use vstd::relations::sorted_by;
use vstd::seq_lib::lemma_sorted_unique;

verus! {

/// The SHA-256 digest of the UTF-8 bytes of a text.
pub uninterp spec fn sha256(text: Seq<char>) -> Seq<u8>;

/// The texts held by a sequence of strings.
pub open spec fn texts_of(strings: Seq<String>) -> Seq<Seq<char>> {
    strings.map_values(|s: String| s@)
}

/// The texts with a single space between neighbours.
pub open spec fn space_separated(texts: Seq<Seq<char>>) -> Seq<char>
    decreases texts.len(),
{
    if texts.len() == 0 {
        Seq::empty()
    } else if texts.len() == 1 {
        texts[0]
    } else {
        space_separated(texts.drop_last()) + seq![' '] + texts.last()
    }
}

/// The text that is hashed for a collection of serialized fields: the fields
/// in sorted order, separated by spaces.
pub open spec fn canonical_text(fields: Seq<Seq<char>>) -> Seq<char> {
    space_separated(fields.sort_by(text_order()))
}

/// The canonical hash of a collection of serialized fields: the SHA-256
/// digest of their canonical text, in lower-case hexadecimal.
pub open spec fn canonical_hash(fields: Seq<Seq<char>>) -> Seq<char> {
    hex_text(sha256(canonical_text(fields)))
}

/// Calls `sort` of std on a vector of strings. It reorders the strings into
/// ascending order; strings compare byte by byte, which orders them by code
/// point with a proper prefix first.
#[verifier::external_body]
fn sort_texts(texts: &mut Vec<String>)
    ensures
        texts_of(final(texts)@).to_multiset() == texts_of(old(texts)@).to_multiset(),
        sorted_by(texts_of(final(texts)@), text_order()),
{
    texts.sort();
}

/// Feeds the text to a fresh `sha2::Sha256` hasher and returns what
/// `finalize` gives: the digest, which has thirty-two bytes.
#[verifier::external_body]
fn sha256_digest(text: &str) -> (digest: Vec<u8>)
    ensures
        digest@ == sha256(text@),
        digest@.len() == 32,
{
    let mut hasher = sha2::Sha256::new();
    hasher.update(text);
    hasher.finalize().to_vec()
}

/// Copies a vector of strings.
fn copy_texts(texts: &Vec<String>) -> (copy: Vec<String>)
    ensures
        texts_of(copy@) == texts_of(texts@),
{
    let mut copy: Vec<String> = Vec::new();
    let mut i: usize = 0;
    while i < texts.len()
        invariant
            i <= texts.len(),
            copy.len() == i,
            forall|k: int| 0 <= k < i ==> copy@[k]@ == texts@[k]@,
        decreases texts.len() - i,
    {
        copy.push(texts[i].clone());
        i += 1;
    }
    assert(texts_of(copy@) =~= texts_of(texts@));
    copy
}

/// Joins texts with single spaces.
fn join_with_spaces(texts: &Vec<String>) -> (joined: String)
    ensures
        joined@ == space_separated(texts_of(texts@)),
{
    let mut joined = String::new();
    let mut i: usize = 0;
    while i < texts.len()
        invariant
            i <= texts.len(),
            joined@ == space_separated(texts_of(texts@).take(i as int)),
        decreases texts.len() - i,
    {
        let ghost before = texts_of(texts@).take(i as int);
        let ghost after = texts_of(texts@).take(i + 1);
        proof {
            assert(after.drop_last() =~= before);
            assert(after.last() == texts@[i as int]@);
        }
        if i > 0 {
            joined.append(" ");
            proof {
                reveal_strlit(" ");
                assert(" "@ =~= seq![' ']);
            }
        }
        joined.append(texts[i].as_str());
        i += 1;
    }
    assert(texts_of(texts@).take(texts.len() as int) =~= texts_of(texts@));
    joined
}

/// Hashes a collection of serialized fields. The fields are sorted, joined
/// with single spaces and digested with SHA-256; the digest is returned in
/// sixty-four digits of lower-case hexadecimal. Because of the sorting the result depends on which
/// texts are passed and how often, not on their order.
pub fn crypto_hash(inputs: &Vec<String>) -> (digest: String)
    ensures
        digest@ == canonical_hash(texts_of(inputs@)),
        digest@.len() == 64,
{
    let mut serialized = copy_texts(inputs);
    sort_texts(&mut serialized);
    proof {
        let given = texts_of(inputs@);
        lemma_text_order_total();
        given.lemma_sort_by_ensures(text_order());
        lemma_sorted_unique(texts_of(serialized@), given.sort_by(text_order()), text_order());
    }
    let concatenated = join_with_spaces(&serialized);
    let hash = sha256_digest(concatenated.as_str());
    base16::encode(&hash)
}

/// Reordering the fields does not change the canonical hash.
pub proof fn lemma_canonical_hash_ignores_order(a: Seq<Seq<char>>, b: Seq<Seq<char>>)
    requires
        a.to_multiset() == b.to_multiset(),
    ensures
        canonical_hash(a) == canonical_hash(b),
{
    lemma_text_order_total();
    a.lemma_sort_by_ensures(text_order());
    b.lemma_sort_by_ensures(text_order());
    lemma_sorted_unique(a.sort_by(text_order()), b.sort_by(text_order()), text_order());
}

} // verus!

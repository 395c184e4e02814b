//! In-memory short-link store keyed by a hash-derived short code.

use sha2::{Digest, Sha256};
use vstd::hash_map::StringHashMap;
use vstd::prelude::*;
use vstd::string::*;
use vstd::utf8::encode_utf8;

verus! {

/// The SHA-256 digest of a byte sequence.
pub uninterp spec fn sha256_of(data: Seq<u8>) -> Seq<u8>;

/// Relies on sha2's `Sha256::digest`: the 32-byte SHA-256 digest of `data`.
#[verifier::external_body]
fn sha256(data: &[u8]) -> (r: Vec<u8>)
    ensures
        r@ == sha256_of(data@),
        r@.len() == 32,
{
    Sha256::digest(data).to_vec()
}

/// The sixteen lower-case hexadecimal digits.
pub open spec fn hex_alphabet() -> Seq<char> {
    seq!['0', '1', '2', '3', '4', '5', '6', '7', '8', '9', 'a', 'b', 'c', 'd', 'e', 'f']
}

/// Each byte written as two lower-case hexadecimal digits, high nibble first.
pub open spec fn hex_of(b: Seq<u8>) -> Seq<char>
    decreases b.len(),
{
    if b.len() == 0 {
        Seq::empty()
    } else {
        hex_of(b.drop_last()) + seq![
            hex_alphabet()[(b.last() / 16) as int],
            hex_alphabet()[(b.last() % 16) as int],
        ]
    }
}

/// The short code of a URL: the first four bytes of the SHA-256 digest of its
/// UTF-8 encoding, in hexadecimal (eight characters).
pub open spec fn short_code(url: Seq<char>) -> Seq<char> {
    hex_of(sha256_of(encode_utf8(url)).take(4))
}

/// Writes the first four bytes of a digest as eight hexadecimal digits.
pub fn code_from_digest(digest: &[u8]) -> (r: String)
    requires
        digest@.len() >= 4,
    ensures
        r@ == hex_of(digest@.take(4)),
{
    let digits: &str = "0123456789abcdef";
    proof {
        reveal_strlit("0123456789abcdef");
        assert(digits@ =~= hex_alphabet());
    }
    let mut r = String::new();
    let mut i: usize = 0;
    while i < 4
        invariant
            i <= 4,
            digest@.len() >= 4,
            digits@ == hex_alphabet(),
            r@ == hex_of(digest@.take(i as int)),
        decreases 4 - i,
    {
        let b = digest[i];
        let hi = (b / 16) as usize;
        let lo = (b % 16) as usize;
        r.append(digits.substring_char(hi, hi + 1));
        r.append(digits.substring_char(lo, lo + 1));
        proof {
            let t = digest@.take(i + 1);
            assert(t.drop_last() =~= digest@.take(i as int));
            assert(digits@.subrange(hi as int, hi + 1) =~= seq![hex_alphabet()[hi as int]]);
            assert(digits@.subrange(lo as int, lo + 1) =~= seq![hex_alphabet()[lo as int]]);
        }
        i = i + 1;
    }
    r
}

/// The short code of `url`: eight hexadecimal digits taken from its SHA-256 digest.
pub fn hash_url(url: &str) -> (r: String)
    ensures
        r@ == short_code(url@),
{
    let digest = sha256(url.as_bytes());
    code_from_digest(&digest)
}

/// One shortened link.
pub struct Link {
    pub active: bool,
    pub url: String,
    pub short_url: String,
    pub view_count: u64,
}

/// What an operation of the store hands back.
pub enum LinkManagerResult {
    Link(Link),
    String(String),
    Error(String),
}

/// The store: records by short code, and the codes in the order they were
/// first inserted.
pub struct LinkManager {
    hash_map: StringHashMap<Link>,
    codes: Vec<String>,
}

impl LinkManager {
    /// The records by short code.
    pub closed spec fn links(&self) -> Map<Seq<char>, Link> {
        self.hash_map@
    }

    /// The short codes in order of first insertion.
    pub closed spec fn order(&self) -> Seq<Seq<char>> {
        self.codes@.map_values(|c: String| c@)
    }

    /// Every stored record is filed under its own short code, and the code
    /// list names each stored code exactly once.
    pub closed spec fn wf(&self) -> bool {
        &&& self.order().no_duplicates()
        &&& self.order().to_set() == self.links().dom()
        &&& forall|k: Seq<char>| #[trigger]
            self.links().contains_key(k) ==> self.links()[k].short_url@ == k
    }

    /// An empty store.
    pub fn new() -> (r: LinkManager)
        ensures
            r.wf(),
            r.links() == Map::<Seq<char>, Link>::empty(),
            r.order() == Seq::<Seq<char>>::empty(),
    {
        let r = LinkManager { hash_map: StringHashMap::new(), codes: Vec::new() };
        assert(r.order().to_set() =~= Set::empty());
        r
    }

    /// Files a fresh active record for `url` under its short code. The record
    /// replaces any earlier one under that code; the result is the code, or
    /// `INSERT_UPDATED` when the code was already in use.
    pub fn new_link(&mut self, url: &str) -> (r: LinkManagerResult)
        requires
            old(self).wf(),
        ensures
            final(self).wf(),
            ({
                let code = short_code(url@);
                let rec = final(self).links()[code];
                &&& final(self).links().dom() == old(self).links().dom().insert(code)
                &&& forall|k: Seq<char>| k != code && #[trigger] old(self).links().contains_key(k)
                    ==> final(self).links()[k] == old(self).links()[k]
                &&& rec.active
                &&& rec.url@ == url@
                &&& rec.short_url@ == code
                &&& rec.view_count == 0
                &&& if old(self).links().contains_key(code) {
                    &&& final(self).order() == old(self).order()
                    &&& r matches LinkManagerResult::Error(e) && e@ == "INSERT_UPDATED"@
                } else {
                    &&& final(self).order() == old(self).order().push(code)
                    &&& r matches LinkManagerResult::String(c) && c@ == code
                }
            }),
    {
        let code = hash_url(url);
        let link = Link {
            active: true,
            url: String::from_str(url),
            short_url: code.clone(),
            view_count: 0,
        };
        let existed = self.hash_map.contains_key(code.as_str());
        let ghost old_order = self.order();
        self.hash_map.insert(code.clone(), link);
        proof {
            assert(self.links().dom() =~= old(self).links().dom().insert(code@));
        }
        if existed {
            proof {
                assert(old_order.to_set().contains(code@));
                assert(self.order().to_set() =~= self.links().dom());
            }
            LinkManagerResult::Error(String::from_str("INSERT_UPDATED"))
        } else {
            self.codes.push(code.clone());
            proof {
                assert(self.order() =~= old_order.push(code@));
                assert(!old_order.contains(code@));
                old_order.lemma_push_to_set_commute(code@);
            }
            LinkManagerResult::String(code)
        }
    }

    /// A copy of the record filed under `short_url`, or `NOT_FOUND`.
    pub fn get_link(&self, short_url: &str) -> (r: LinkManagerResult)
        requires
            self.wf(),
        ensures
            match r {
                LinkManagerResult::Link(l) => {
                    &&& self.links().contains_key(short_url@)
                    &&& copies(l, self.links()[short_url@])
                },
                LinkManagerResult::Error(e) => {
                    &&& !self.links().contains_key(short_url@)
                    &&& e@ == "NOT_FOUND"@
                },
                LinkManagerResult::String(_) => false,
            },
    {
        match self.hash_map.get(short_url) {
            Some(obj) => LinkManagerResult::Link(copy_link(obj)),
            None => LinkManagerResult::Error(String::from_str("NOT_FOUND")),
        }
    }

    /// Copies of all records, in the order their codes were first inserted.
    pub fn list(&self) -> (r: Vec<Link>)
        requires
            self.wf(),
        ensures
            r@.len() == self.order().len(),
            forall|i: int|
                0 <= i < r@.len() ==> copies(#[trigger] r@[i], self.links()[self.order()[i]]),
    {
        let mut r: Vec<Link> = Vec::new();
        let mut i: usize = 0;
        while i < self.codes.len()
            invariant
                self.wf(),
                i <= self.codes@.len(),
                r@.len() == i,
                forall|j: int|
                    0 <= j < i ==> copies(#[trigger] r@[j], self.links()[self.order()[j]]),
            decreases self.codes@.len() - i,
        {
            let code = &self.codes[i];
            proof {
                assert(self.order()[i as int] == code@);
                assert(self.order().to_set().contains(code@));
            }
            match self.hash_map.get(code.as_str()) {
                Some(obj) => r.push(copy_link(obj)),
                None => {},
            }
            i = i + 1;
        }
        r
    }
}

/// `a` holds the same values as `b`.
pub open spec fn copies(a: Link, b: Link) -> bool {
    &&& a.active == b.active
    &&& a.url@ == b.url@
    &&& a.short_url@ == b.short_url@
    &&& a.view_count == b.view_count
}

fn copy_link(l: &Link) -> (r: Link)
    ensures
        copies(r, *l),
{
    Link {
        active: l.active,
        url: l.url.clone(),
        short_url: l.short_url.clone(),
        view_count: l.view_count,
    }
}

} // verus!

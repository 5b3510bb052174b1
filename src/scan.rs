//! Results of scanning a directory: which catalog identities were found, and where.
use vstd::prelude::*;

verus! {

/// The lowercase hex MD5 digest of a byte sequence.
pub uninterp spec fn md5_hex_of(data: Seq<u8>) -> Seq<char>;

/// Relies on md5::compute and the digest's LowerHex formatting: the text
/// depends on the bytes alone.
#[verifier::external_body]
pub(crate) fn md5_hex(data: &[u8]) -> (r: String)
    ensures
        r@ == md5_hex_of(data@),
{
    format!("{:x}", md5::compute(data))
}

/// The map that a list of (identity, path) records stands for; a later record
/// of an identity replaces an earlier one.
pub open spec fn found_map(s: Seq<(String, String)>) -> Map<Seq<char>, Seq<char>>
    decreases s.len(),
{
    if s.len() == 0 {
        Map::empty()
    } else {
        found_map(s.drop_last()).insert(s.last().0@, s.last().1@)
    }
}

/// A record of `id` at index `k`, with no later record of it, gives the path.
pub proof fn lemma_found_value(s: Seq<(String, String)>, id: Seq<char>, k: int)
    requires
        0 <= k < s.len(),
        s[k].0@ == id,
        forall|j: int| k < j < s.len() ==> s[j].0@ != id,
    ensures
        found_map(s).contains_key(id),
        found_map(s)[id] == s[k].1@,
    decreases s.len(),
{
    if k < s.len() - 1 {
        let t = s.drop_last();
        assert forall|j: int| k < j < t.len() implies t[j].0@ != id by {
            assert(t[j] == s[j]);
        }
        lemma_found_value(t, id, k);
    }
}

/// A record of `id` at or after `k` has a last such record.
pub proof fn lemma_last_record(s: Seq<(String, String)>, id: Seq<char>, k: int)
    requires
        0 <= k < s.len(),
        s[k].0@ == id,
    ensures
        exists|j: int|
            k <= j < s.len() && s[j].0@ == id && forall|l: int| j < l < s.len() ==> s[l].0@ != id,
    decreases s.len() - k,
{
    if exists|l: int| k < l < s.len() && s[l].0@ == id {
        let l = choose|l: int| k < l < s.len() && s[l].0@ == id;
        lemma_last_record(s, id, l);
    } else {
        assert(forall|l: int| k < l < s.len() ==> s[l].0@ != id);
    }
}

/// With no record of `id`, the map does not hold it.
pub proof fn lemma_found_absent(s: Seq<(String, String)>, id: Seq<char>)
    requires
        forall|k: int| 0 <= k < s.len() ==> s[k].0@ != id,
    ensures
        !found_map(s).contains_key(id),
    decreases s.len(),
{
    if s.len() > 0 {
        let t = s.drop_last();
        assert forall|k: int| 0 <= k < t.len() implies t[k].0@ != id by {
            assert(t[k] == s[k]);
        }
        lemma_found_absent(t, id);
    }
}

/// Identities found by a scan, each with the path of the file that matched it.
pub struct ScanResult {
    found: Vec<(String, String)>,
}

impl View for ScanResult {
    type V = Map<Seq<char>, Seq<char>>;

    closed spec fn view(&self) -> Map<Seq<char>, Seq<char>> {
        found_map(self.found@)
    }
}

impl ScanResult {
    pub fn new() -> (r: ScanResult)
        ensures
            r@ == Map::<Seq<char>, Seq<char>>::empty(),
    {
        ScanResult { found: Vec::new() }
    }

    pub(crate) fn insert(&mut self, id: String, path: String)
        ensures
            final(self)@ == old(self)@.insert(id@, path@),
    {
        let ghost before = self.found@;
        self.found.push((id, path));
        assert(self.found@.drop_last() =~= before);
    }

    /// Whether the scan found a file with identity `id`.
    pub fn contains(&self, id: &String) -> (r: bool)
        ensures
            r == self@.contains_key(id@),
    {
        let mut i: usize = 0;
        while i < self.found.len()
            invariant
                i <= self.found.len(),
                forall|k: int| 0 <= k < i ==> self.found@[k].0@ != id@,
            decreases self.found.len() - i,
        {
            if self.found[i].0 == *id {
                let ghost s = self.found@;
                let ghost last = choose|j: int|
                    i <= j < s.len() && s[j].0@ == id@ && forall|l: int| j < l < s.len() ==> s[l].0@ != id@;
                proof {
                    lemma_last_record(s, id@, i as int);
                    lemma_found_value(s, id@, last);
                }
                return true;
            }
            i = i + 1;
        }
        proof {
            lemma_found_absent(self.found@, id@);
        }
        false
    }

    /// The path recorded for identity `id`, if the scan found it.
    pub fn path_of(&self, id: &String) -> (r: Option<String>)
        ensures
            match r {
                Some(p) => self@.contains_key(id@) && p@ == self@[id@],
                None => !self@.contains_key(id@),
            },
    {
        let mut i: usize = self.found.len();
        while i > 0
            invariant
                i <= self.found.len(),
                forall|k: int| i <= k < self.found.len() ==> self.found@[k].0@ != id@,
            decreases i,
        {
            i = i - 1;
            if self.found[i].0 == *id {
                proof {
                    lemma_found_value(self.found@, id@, i as int);
                }
                return Some(self.found[i].1.clone());
            }
        }
        proof {
            lemma_found_absent(self.found@, id@);
        }
        None
    }
}

} // verus!

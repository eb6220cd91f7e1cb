//! Peer directory: endpoint id -> address string, last write wins.  The
//! address scheme prefix (`ble:` against anything else) later selects the
//! transport.  Stored as an association vector with pairwise-distinct keys
//! and modelled as a map from id characters to address characters.

use vstd::prelude::*;
use vstd::slice::slice_to_vec;
use vstd::utf8::{encode_utf8, encode_utf8_decode_utf8, encode_utf8_valid_utf8, valid_utf8};
use crate::codec::string_from_utf8;

verus! {

/// Map model of an association vector: later entries win, matching
/// insertion order.
pub open spec fn assoc_map(s: Seq<(String, String)>) -> Map<Seq<char>, Seq<char>>
    decreases s.len(),
{
    if s.len() == 0 {
        Map::<Seq<char>, Seq<char>>::empty()
    } else {
        assoc_map(s.drop_last()).insert(s.last().0@, s.last().1@)
    }
}

/// An address selects the short-range radio transport when its UTF-8 form
/// begins with the four bytes of `ble:`.
pub open spec fn is_ble_addr(s: Seq<char>) -> bool {
    let b = encode_utf8(s);
    &&& b.len() >= 4
    &&& b[0] == 0x62u8  // 'b'
    &&& b[1] == 0x6cu8  // 'l'
    &&& b[2] == 0x65u8  // 'e'
    &&& b[3] == 0x3au8  // ':'
}

/// Does the address select the radio transport?
pub fn has_ble_scheme(addr: &String) -> (r: bool)
    ensures
        r == is_ble_addr(addr@),
{
    let b = addr.as_str().as_bytes();
    b.len() >= 4 && b[0] == 0x62 && b[1] == 0x6c && b[2] == 0x65 && b[3] == 0x3a
}

/// The four UTF-8 bytes of the discovery advertisement prefix `DTN:`.
pub open spec fn discovery_prefix() -> Seq<u8> {
    seq![0x44u8, 0x54u8, 0x4eu8, 0x3au8]
}

/// What an advertised device name contributes to discovery, over its UTF-8
/// bytes: the endpoint id after the `DTN:` prefix, unless the advertisement
/// is this node's own.
pub open spec fn candidate_of(nb: Seq<u8>, own: Seq<char>) -> Option<Seq<u8>> {
    let suffix = nb.subrange(4, nb.len() as int);
    if nb.len() >= 4 && nb.subrange(0, 4) == discovery_prefix() && valid_utf8(suffix) && suffix
        != encode_utf8(own) {
        Some(suffix)
    } else {
        None
    }
}

/// Read a BLE advertisement name: an endpoint id is discovered exactly when
/// the name carries the `DTN:` prefix and names someone else.
pub fn discovery_candidate(name: &String, own_eid: &String) -> (r: Option<String>)
    ensures
        match r {
            Some(e) => candidate_of(encode_utf8(name@), own_eid@) == Some(encode_utf8(e@)),
            None => candidate_of(encode_utf8(name@), own_eid@) is None,
        },
{
    let nb = name.as_str().as_bytes();
    if nb.len() < 4 || !(nb[0] == 0x44 && nb[1] == 0x54 && nb[2] == 0x4e && nb[3] == 0x3a) {
        proof {
            if nb@.len() >= 4 && nb@.subrange(0, 4) == discovery_prefix() {
                assert(nb@.subrange(0, 4)[0] == nb@[0]);
                assert(nb@.subrange(0, 4)[1] == nb@[1]);
                assert(nb@.subrange(0, 4)[2] == nb@[2]);
                assert(nb@.subrange(0, 4)[3] == nb@[3]);
                assert(false);
            }
        }
        return None;
    }
    proof {
        assert(nb@.subrange(0, 4) =~= discovery_prefix());
    }
    let suffix = slice_to_vec(&nb[4..nb.len()]);
    let ghost sfx = suffix@;
    match string_from_utf8(suffix) {
        Some(s) => {
            if s == *own_eid {
                proof {
                    encode_utf8_decode_utf8(s@);
                    assert(sfx == encode_utf8(own_eid@));
                }
                None
            } else {
                proof {
                    encode_utf8_valid_utf8(s@);
                    if sfx == encode_utf8(own_eid@) {
                        encode_utf8_decode_utf8(s@);
                        encode_utf8_decode_utf8(own_eid@);
                        assert(false);
                    }
                }
                Some(s)
            }
        },
        None => {
            proof {
                assert(!valid_utf8(sfx));
            }
            None
        },
    }
}

/// Directory of known peers.
pub struct PeerDirectory {
    entries: Vec<(String, String)>,
}

impl View for PeerDirectory {
    type V = Map<Seq<char>, Seq<char>>;

    closed spec fn view(&self) -> Map<Seq<char>, Seq<char>> {
        assoc_map(self.entries@)
    }
}

proof fn lemma_assoc_contains(s: Seq<(String, String)>, k: Seq<char>)
    ensures
        assoc_map(s).dom().contains(k) <==> exists|i: int| 0 <= i < s.len() && s[i].0@ == k,
    decreases s.len(),
{
    if s.len() > 0 {
        lemma_assoc_contains(s.drop_last(), k);
        if s.last().0@ == k {
            assert(s[s.len() - 1].0@ == k);
        } else {
            if assoc_map(s).dom().contains(k) {
                let i = choose|i: int| 0 <= i < s.drop_last().len() && s.drop_last()[i].0@ == k;
                assert(s[i].0@ == k);
            }
            if exists|i: int| 0 <= i < s.len() && s[i].0@ == k {
                let i = choose|i: int| 0 <= i < s.len() && s[i].0@ == k;
                assert(s.drop_last()[i].0@ == k);
            }
        }
    }
}

spec fn unique_keys(s: Seq<(String, String)>) -> bool {
    forall|i: int, j: int| 0 <= i < j < s.len() ==> s[i].0@ != s[j].0@
}

proof fn lemma_assoc_value(s: Seq<(String, String)>, i: int)
    requires
        unique_keys(s),
        0 <= i < s.len(),
    ensures
        assoc_map(s).dom().contains(s[i].0@),
        assoc_map(s)[s[i].0@] == s[i].1@,
    decreases s.len(),
{
    if i == s.len() - 1 {
    } else {
        assert(s.drop_last()[i] == s[i]);
        lemma_assoc_value(s.drop_last(), i);
        assert(s[i].0@ != s.last().0@);
    }
}

proof fn lemma_assoc_remove(s: Seq<(String, String)>, i: int)
    requires
        unique_keys(s),
        0 <= i < s.len(),
    ensures
        assoc_map(s.remove(i)) == assoc_map(s).remove(s[i].0@),
    decreases s.len(),
{
    if i == s.len() - 1 {
        assert(s.remove(i) =~= s.drop_last());
        lemma_assoc_contains(s.drop_last(), s[i].0@);
        assert(!assoc_map(s.drop_last()).dom().contains(s[i].0@));
        assert(assoc_map(s.drop_last()).insert(s.last().0@, s.last().1@).remove(s[i].0@) =~= assoc_map(
            s.drop_last(),
        ));
    } else {
        assert(s.remove(i).drop_last() =~= s.drop_last().remove(i));
        assert(s.remove(i).last() == s.last());
        lemma_assoc_remove(s.drop_last(), i);
        assert(s.drop_last()[i] == s[i]);
        assert(assoc_map(s.remove(i)) =~= assoc_map(s).remove(s[i].0@));
    }
}

impl PeerDirectory {
    /// Keys are pairwise distinct, so the map model is faithful.
    pub closed spec fn wf(&self) -> bool {
        unique_keys(self.entries@)
    }

    /// An empty directory.
    pub fn new() -> (r: PeerDirectory)
        ensures
            r.wf(),
            r@ == Map::<Seq<char>, Seq<char>>::empty(),
    {
        PeerDirectory { entries: Vec::new() }
    }

    /// Index of the entry for `eid`, if one exists.
    fn find(&self, eid: &String) -> (r: Option<usize>)
        ensures
            match r {
                Some(i) => i < self.entries@.len() && self.entries@[i as int].0@ == eid@,
                None => forall|i: int| 0 <= i < self.entries@.len() ==> self.entries@[i].0@ != eid@,
            },
    {
        let mut i: usize = 0;
        while i < self.entries.len()
            invariant
                i <= self.entries@.len(),
                forall|j: int| 0 <= j < i ==> self.entries@[j].0@ != eid@,
            decreases self.entries@.len() - i,
        {
            if self.entries[i].0 == *eid {
                return Some(i);
            }
            i = i + 1;
        }
        None
    }

    /// Insert or overwrite: the directory afterwards maps `eid` to `addr`
    /// and is otherwise unchanged.
    pub fn add(&mut self, eid: String, addr: String)
        requires
            old(self).wf(),
        ensures
            final(self).wf(),
            final(self)@ == old(self)@.insert(eid@, addr@),
    {
        let found = self.find(&eid);
        match found {
            Some(i) => {
                proof {
                    lemma_assoc_remove(self.entries@, i as int);
                }
                let ghost removed = self.entries@.remove(i as int);
                self.entries.remove(i);
                proof {
                    assert forall|a: int, b: int| 0 <= a < b < removed.len() implies removed[a].0@
                        != removed[b].0@ by {
                        let sa = if a < i as int { a } else { a + 1 };
                        let sb = if b < i as int { b } else { b + 1 };
                        assert(old(self).entries@[sa].0@ != old(self).entries@[sb].0@);
                    }
                    assert forall|j: int| 0 <= j < removed.len() implies removed[j].0@ != eid@ by {
                        let sj = if j < i as int { j } else { j + 1 };
                        assert(old(self).entries@[sj] == removed[j]);
                    }
                }
            },
            None => {},
        }
        let ghost before_push = self.entries@;
        let ghost k = eid@;
        let ghost a = addr@;
        self.entries.push((eid, addr));
        proof {
            assert(self.entries@.drop_last() =~= before_push);
            assert(self.entries@.last().0@ == k && self.entries@.last().1@ == a);
            assert(assoc_map(self.entries@) == assoc_map(before_push).insert(k, a));
            assert(assoc_map(before_push).insert(k, a) =~= old(self)@.insert(k, a));
            assert forall|x: int, y: int|
                0 <= x < y < self.entries@.len() implies self.entries@[x].0@
                != self.entries@[y].0@ by {
                if y == self.entries@.len() - 1 {
                    assert(before_push[x].0@ != k);
                }
            }
        }
    }

    /// Look an endpoint up; `None` exactly when it is absent.
    pub fn get(&self, eid: &String) -> (r: Option<String>)
        requires
            self.wf(),
        ensures
            match r {
                Some(a) => self@.dom().contains(eid@) && a@ == self@[eid@],
                None => !self@.dom().contains(eid@),
            },
    {
        proof {
            lemma_assoc_contains(self.entries@, eid@);
        }
        match self.find(eid) {
            Some(i) => {
                proof {
                    lemma_assoc_value(self.entries@, i as int);
                }
                Some(self.entries[i].1.clone())
            },
            None => None,
        }
    }

    /// Snapshot of every known pair, each endpoint exactly once, with the
    /// most recently recorded address.
    pub fn all(&self) -> (r: Vec<(String, String)>)
        requires
            self.wf(),
        ensures
            forall|i: int, j: int| 0 <= i < j < r@.len() ==> r@[i].0@ != r@[j].0@,
            forall|i: int|
                0 <= i < r@.len() ==> self@.dom().contains(#[trigger] r@[i].0@) && self@[r@[i].0@]
                    == r@[i].1@,
            forall|k: Seq<char>|
                self@.dom().contains(k) ==> exists|i: int| 0 <= i < r@.len() && #[trigger] r@[i].0@
                    == k,
    {
        let mut out: Vec<(String, String)> = Vec::new();
        let mut i: usize = 0;
        while i < self.entries.len()
            invariant
                self.wf(),
                i <= self.entries@.len(),
                out@.len() == i,
                forall|j: int| 0 <= j < i ==> out@[j] == self.entries@[j],
            decreases self.entries@.len() - i,
        {
            let e = (self.entries[i].0.clone(), self.entries[i].1.clone());
            proof {
                assert(e.0@ == self.entries@[i as int].0@ && e.1@ == self.entries@[i as int].1@);
            }
            out.push(e);
            i = i + 1;
        }
        proof {
            assert forall|j: int| 0 <= j < out@.len() implies self@.dom().contains(
                #[trigger] out@[j].0@,
            ) && self@[out@[j].0@] == out@[j].1@ by {
                lemma_assoc_value(self.entries@, j);
            }
            assert forall|k: Seq<char>| self@.dom().contains(k) implies exists|j: int|
                0 <= j < out@.len() && #[trigger] out@[j].0@ == k by {
                lemma_assoc_contains(self.entries@, k);
                let j = choose|j: int| 0 <= j < self.entries@.len() && self.entries@[j].0@ == k;
                assert(out@[j].0@ == k);
            }
        }
        out
    }

    /// Discovery-driven insertion: an endpoint named by a discovery event is
    /// added with the given radio-scheme placeholder address only when it is
    /// not already present.
    pub fn record_discovery(&mut self, eid: String, placeholder: String)
        requires
            old(self).wf(),
        ensures
            final(self).wf(),
            final(self)@ == if old(self)@.dom().contains(eid@) {
                old(self)@
            } else {
                old(self)@.insert(eid@, placeholder@)
            },
    {
        proof {
            lemma_assoc_contains(self.entries@, eid@);
        }
        match self.find(&eid) {
            Some(_) => {},
            None => {
                self.add(eid, placeholder);
            },
        }
    }

    /// Address learning on a verified receive: when the sender's current
    /// address still carries the radio-scheme placeholder, it is replaced by
    /// the given learned address; otherwise nothing changes.
    pub fn learn_address(&mut self, eid: &String, learned: String)
        requires
            old(self).wf(),
        ensures
            final(self).wf(),
            final(self)@ == if old(self)@.dom().contains(eid@) && is_ble_addr(old(self)@[eid@]) {
                old(self)@.insert(eid@, learned@)
            } else {
                old(self)@
            },
    {
        proof {
            lemma_assoc_contains(self.entries@, eid@);
        }
        match self.find(eid) {
            Some(i) => {
                proof {
                    lemma_assoc_value(self.entries@, i as int);
                }
                if has_ble_scheme(&self.entries[i].1) {
                    self.add(eid.clone(), learned);
                }
            },
            None => {},
        }
    }
}

/// Law: after `add(e, a)` a `get(e)` yields `Some(a)`; an endpoint never
/// added is absent; a second `add` for the same endpoint overwrites the
/// address and leaves every other entry alone.  (`add` turns model `m` into
/// `m.insert(e, a)`; `get` reads the model.)
pub proof fn lemma_directory_laws(
    m: Map<Seq<char>, Seq<char>>,
    e: Seq<char>,
    a1: Seq<char>,
    a2: Seq<char>,
)
    ensures
        m.insert(e, a1).dom().contains(e),
        m.insert(e, a1)[e] == a1,
        m.insert(e, a1).insert(e, a2)[e] == a2,
        forall|k: Seq<char>|
            k != e ==> (#[trigger] m.insert(e, a1).dom().contains(k) <==> m.dom().contains(k)),
        forall|k: Seq<char>|
            k != e && m.dom().contains(k) ==> #[trigger] m.insert(e, a1)[k] == m[k],
{
}

} // verus!

//! Correlation of outbound queries with inbound responses.
//!
//! The multiplexer owns the outstanding-request table: the set of
//! transaction identifiers with a request in flight.  `send` picks a fresh
//! identifier, stamps it into the outgoing payload and records it;
//! `dispatch` classifies one inbound payload and, at most, resolves the one
//! pending identifier it carries; `cancel` frees an identifier early;
//! `fail_all` empties the table when the transport dies.

use vstd::prelude::*;
use vstd::arithmetic::div_mod::{lemma_mod_multiples_vanish, lemma_small_mod};
use vstd::set_lib::{lemma_int_range, lemma_len_subset, set_int_range};

use crate::codec::{
    encode_query_message, spec_decode, spec_embedded_id, spec_encode, DnsMessage, DnsQuery,
    MessageView,
};

verus! {

/// An optional per-message authentication attachment: an opaque tag
/// appended to every outbound payload and expected, verbatim, at the end
/// of every inbound one.
#[derive(Clone, Debug, PartialEq, Eq)]
pub struct MessageSigner {
    pub tag: Vec<u8>,
}

/// What became of one inbound payload.
#[derive(Debug, PartialEq, Eq)]
pub enum DispatchOutcome {
    /// The payload carried a pending identifier and decoded; that one
    /// request is resolved with the decoded message.
    Resolved { id: u16, message: DnsMessage },
    /// The payload was too short to carry an identifier, or failed the
    /// wire-format decode.
    DroppedMalformed,
    /// The payload's identifier has no pending request: late, duplicated,
    /// or unrelated traffic, discarded silently.
    DroppedUnmatched,
    /// The payload matched a pending request but its signature did not
    /// verify; the request stays pending.
    DroppedBadSignature,
}

/// The tag the multiplexer's signer applies, if one is configured.
pub open spec fn spec_signer_tag(signer: Option<MessageSigner>) -> Option<Seq<u8>> {
    match signer {
        None => None,
        Some(s) => Some(s.tag@),
    }
}

/// A signed outbound payload: the message bytes with the tag appended.
pub open spec fn spec_apply_signer(body: Seq<u8>, tag: Option<Seq<u8>>) -> Seq<u8> {
    match tag {
        None => body,
        Some(t) => body + t,
    }
}

/// Validation of an inbound payload: without a signer the body is the
/// payload itself; with one, the payload must end in the tag, which is
/// stripped.
pub open spec fn spec_strip_signer(b: Seq<u8>, tag: Option<Seq<u8>>) -> Option<Seq<u8>> {
    match tag {
        None => Some(b),
        Some(t) => if b.len() >= t.len() && b.skip(b.len() - t.len()) == t {
            Some(b.take(b.len() - t.len()))
        } else {
            None
        },
    }
}

/// The one request an inbound payload can resolve: its embedded identifier
/// must be pending, its signature must validate, and its body must decode.
pub open spec fn spec_dispatch_resolves(
    pending: Seq<u16>,
    tag: Option<Seq<u8>>,
    b: Seq<u8>,
) -> Option<(u16, MessageView)> {
    match spec_embedded_id(b) {
        None => None,
        Some(id) => if !pending.contains(id) {
            None
        } else {
            match spec_strip_signer(b, tag) {
                None => None,
                Some(body) => match spec_decode(body) {
                    None => None,
                    Some(m) => Some((id, m)),
                },
            }
        },
    }
}

/// The outstanding-request table after one inbound payload: unchanged,
/// unless the payload resolved an identifier, which is then removed.
pub open spec fn spec_dispatch_pending(
    pending: Seq<u16>,
    tag: Option<Seq<u8>>,
    b: Seq<u8>,
) -> Seq<u16> {
    match spec_dispatch_resolves(pending, tag, b) {
        None => pending,
        Some((id, _m)) => pending.remove_value(id),
    }
}

/// The `k`-th identifier tried when allocating, counting up with
/// wrap-around from `start`.
pub open spec fn candidate_id(start: u16, k: int) -> u16 {
    (((start as int) + k) % 0x10000) as u16
}

/// Removing a value from a duplicate-free sequence removes it entirely,
/// keeps everything else, and keeps freedom from duplicates.
pub proof fn lemma_remove_value_distinct(p: Seq<u16>, id: u16)
    requires
        p.no_duplicates(),
    ensures
        !p.remove_value(id).contains(id),
        p.remove_value(id).no_duplicates(),
        forall|x: u16| x != id ==> p.remove_value(id).contains(x) == p.contains(x),
        p.contains(id) ==> p.remove_value(id).len() == p.len() - 1,
        !p.contains(id) ==> p.remove_value(id) == p,
{
    p.index_of_first_ensures(id);
    match p.index_of_first(id) {
        None => {
            assert(!p.contains(id));
        },
        Some(i) => {
            p.remove_ensures(i);
            let q = p.remove_value(id);
            assert forall|j: int| 0 <= j < q.len() implies q[j] != id by {
                if j < i {
                    assert(q[j] == p[j]);
                } else {
                    assert(q[j] == p[j + 1]);
                }
            }
            assert(!q.contains(id));
            assert forall|j1: int, j2: int|
                0 <= j1 < j2 < q.len() implies q[j1] != q[j2] by {
                let o1 = if j1 < i { j1 } else { j1 + 1 };
                let o2 = if j2 < i { j2 } else { j2 + 1 };
                assert(q[j1] == p[o1] && q[j2] == p[o2]);
            }
            assert(q.no_duplicates());
            assert forall|x: u16| x != id && p.contains(x) implies q.contains(x) by {
                let j = choose|j: int| 0 <= j < p.len() && p[j] == x;
                if j < i {
                    assert(q[j] == x);
                } else {
                    assert(q[j - 1] == x);
                }
            }
            assert forall|x: u16| x != id && q.contains(x) implies p.contains(x) by {
                let j = choose|j: int| 0 <= j < q.len() && q[j] == x;
                if j < i {
                    assert(p[j] == x);
                } else {
                    assert(p[j + 1] == x);
                }
            }
        },
    }
}

/// Law: the identifiers pending on one multiplexer are pairwise distinct
/// at any instant.
pub proof fn lemma_pending_pairwise_distinct(m: Multiplexer)
    requires
        m.wf(),
    ensures
        forall|i: int, j: int|
            0 <= i < m.pending@.len() && 0 <= j < m.pending@.len() && i != j ==> m.pending@[i]
                != m.pending@[j],
{
}

/// Law: a request is resolved at most once.  Once a payload resolves a
/// pending identifier, the identifier leaves the table, and no later
/// payload can resolve it again until a new request claims it.
pub proof fn lemma_resolution_is_final(
    pending: Seq<u16>,
    tag: Option<Seq<u8>>,
    b1: Seq<u8>,
    b2: Seq<u8>,
)
    requires
        pending.no_duplicates(),
        spec_dispatch_resolves(pending, tag, b1) is Some,
    ensures
        ({
            let id = spec_dispatch_resolves(pending, tag, b1).unwrap().0;
            let after = spec_dispatch_pending(pending, tag, b1);
            &&& !after.contains(id)
            &&& (spec_dispatch_resolves(after, tag, b2) matches Some(p) ==> p.0 != id)
        }),
{
    let id = spec_dispatch_resolves(pending, tag, b1).unwrap().0;
    lemma_remove_value_distinct(pending, id);
}

/// Law: a response whose identifier was cancelled (or never pending)
/// resolves nothing and leaves the table exactly as it was.
pub proof fn lemma_cancelled_response_is_inert(
    pending: Seq<u16>,
    tag: Option<Seq<u8>>,
    id: u16,
    b: Seq<u8>,
)
    requires
        !pending.contains(id),
        spec_embedded_id(b) == Some(id),
    ensures
        spec_dispatch_resolves(pending, tag, b) is None,
        spec_dispatch_pending(pending, tag, b) == pending,
{
}

/// The correlation layer between an exchange and a raw transport stream.
pub struct Multiplexer {
    /// Identifiers with a request in flight, each at most once.
    pub pending: Vec<u16>,
    /// Where the next identifier search starts; identifiers are handed
    /// out in submission order, wrapping around.
    pub next_id: u16,
    /// The optional per-message signer.
    pub signer: Option<MessageSigner>,
}

impl Multiplexer {
    /// Invariant: pending identifiers are pairwise distinct.
    pub open spec fn wf(self) -> bool {
        self.pending@.no_duplicates()
    }

    /// The signer's tag, if a signer is configured.
    pub open spec fn tag(self) -> Option<Seq<u8>> {
        spec_signer_tag(self.signer)
    }

    /// A fresh multiplexer with an empty outstanding-request table.
    pub fn new(signer: Option<MessageSigner>) -> (r: Self)
        ensures
            r.wf(),
            r.pending@ == Seq::<u16>::empty(),
            r.next_id == 0,
            r.signer == signer,
    {
        Multiplexer { pending: Vec::new(), next_id: 0, signer }
    }

    /// How many requests are outstanding.
    pub fn pending_count(&self) -> (r: usize)
        ensures
            r == self.pending@.len(),
    {
        self.pending.len()
    }

    /// Whether a request with this identifier is outstanding.
    pub fn is_pending(&self, id: u16) -> (r: bool)
        ensures
            r == self.pending@.contains(id),
    {
        let n = self.pending.len();
        let mut i: usize = 0;
        while i < n
            invariant
                n == self.pending@.len(),
                i <= n,
                forall|j: int| 0 <= j < i ==> self.pending@[j] != id,
            decreases n - i,
        {
            if self.pending[i] == id {
                return true;
            }
            i = i + 1;
        }
        false
    }

    /// Index of the first (only) occurrence of a pending identifier.
    fn find_pending(&self, id: u16) -> (r: Option<usize>)
        ensures
            r is Some <==> self.pending@.contains(id),
            r matches Some(i) ==> self.pending@.index_of_first(id) == Some(i as int),
    {
        let n = self.pending.len();
        let mut i: usize = 0;
        while i < n
            invariant
                n == self.pending@.len(),
                i <= n,
                forall|j: int| 0 <= j < i ==> self.pending@[j] != id,
            decreases n - i,
        {
            if self.pending[i] == id {
                proof {
                    self.pending@.index_of_first_ensures(id);
                }
                return Some(i);
            }
            i = i + 1;
        }
        None
    }

    /// Submit one request: allocate the first free identifier at or after
    /// `next_id` (wrapping), stamp it into the encoded query, apply the
    /// signer, and record the identifier as pending.  Returns the
    /// identifier and the payload to write to the transport; `None` only
    /// when every identifier is taken.
    pub fn send(&mut self, query: &DnsQuery) -> (r: Option<(u16, Vec<u8>)>)
        requires
            old(self).wf(),
            query@.wf(),
        ensures
            final(self).wf(),
            final(self).signer == old(self).signer,
            r matches Some(v) ==> {
                &&& !old(self).pending@.contains(v.0)
                &&& final(self).pending@ == old(self).pending@.push(v.0)
                &&& v.1@ == spec_apply_signer(
                    spec_encode(
                        MessageView {
                            id: v.0,
                            response: false,
                            query: query@,
                            answers: Seq::empty(),
                        },
                    ),
                    old(self).tag(),
                )
                &&& spec_embedded_id(v.1@) == Some(v.0)
                &&& exists|k: int|
                    {
                        &&& 0 <= k < 0x10000
                        &&& v.0 == candidate_id(old(self).next_id, k)
                        &&& forall|j: int|
                            0 <= j < k ==> old(self).pending@.contains(
                                #[trigger] candidate_id(old(self).next_id, j),
                            )
                    }
                &&& final(self).next_id == ((v.0 as int + 1) % 0x10000) as u16
            },
            old(self).pending@.len() < 0x10000 ==> r is Some,
            r is None ==> *final(self) == *old(self),
    {
        let start = self.next_id;
        let mut k: u32 = 0;
        while k < 0x10000
            invariant
                self == old(self),
                old(self).wf(),
                query@.wf(),
                start == self.next_id,
                k <= 0x10000,
                forall|j: int|
                    0 <= j < k ==> self.pending@.contains(#[trigger] candidate_id(start, j)),
            decreases 0x10000 - k,
        {
            let cand: u16 = (((start as u32) + k) % 0x10000) as u16;
            assert(cand == candidate_id(start, k as int));
            if !self.is_pending(cand) {
                let id = cand;
                let mut payload = encode_query_message(id, query);
                match &self.signer {
                    None => {},
                    Some(s) => {
                        crate::codec::push_bytes(&mut payload, &s.tag);
                    },
                }
                self.pending.push(id);
                self.next_id = (((id as u32) + 1) % 0x10000) as u16;
                proof {
                    assert(self.pending@.drop_last() =~= old(self).pending@);
                    assert(self.pending@.no_duplicates());
                }
                return Some((id, payload));
            }
            k = k + 1;
        }
        proof {
                    let p = self.pending@;
                    let pi = p.map_values(|x: u16| x as int);
                    assert forall|v: int| 0 <= v < 0x10000 implies pi.to_set().contains(v) by {
                        let s = start as int;
                        let j = if v >= s {
                            v - s
                        } else {
                            v + 0x10000 - s
                        };
                        assert(0 <= j < 0x10000);
                        if v >= s {
                            lemma_small_mod(v as nat, 0x10000);
                        } else {
                            lemma_mod_multiples_vanish(1, v, 0x10000);
                            lemma_small_mod(v as nat, 0x10000);
                        }
                        assert(candidate_id(start, j) as int == v);
                        assert(p.contains(candidate_id(start, j)));
                        let idx = choose|idx: int|
                            0 <= idx < p.len() && p[idx] == candidate_id(start, j);
                        assert(pi[idx] == v);
                        assert(pi.contains(v));
                    }
                    lemma_int_range(0, 0x10000);
                    assert(set_int_range(0, 0x10000).subset_of(pi.to_set()));
                    pi.lemma_cardinality_of_set();
                    lemma_len_subset(set_int_range(0, 0x10000), pi.to_set());
            assert(pi.len() == p.len());
            assert(p.len() >= 0x10000);
        }
        None
    }

    /// Classify one inbound payload and resolve at most the one pending
    /// request whose identifier it carries.
    ///
    /// A payload that cannot carry an identifier or fails the wire-format
    /// decode is dropped as malformed; an identifier with no pending
    /// request is dropped as unmatched; a matched payload whose signature
    /// does not validate is dropped, its request left pending.  Nothing
    /// but a resolution changes the table, and a resolution removes
    /// exactly the resolved identifier.
    pub fn dispatch(&mut self, b: &Vec<u8>) -> (r: DispatchOutcome)
        requires
            old(self).wf(),
        ensures
            final(self).wf(),
            final(self).signer == old(self).signer,
            final(self).next_id == old(self).next_id,
            final(self).pending@ == spec_dispatch_pending(old(self).pending@, old(self).tag(), b@),
            match spec_dispatch_resolves(old(self).pending@, old(self).tag(), b@) {
                Some(p) => r matches DispatchOutcome::Resolved { id, message } && id == p.0
                    && message@ == p.1,
                None => !(r is Resolved) && *final(self) == *old(self),
            },
            r matches DispatchOutcome::Resolved { id, message } ==> {
                &&& old(self).pending@.contains(id)
                &&& !final(self).pending@.contains(id)
                &&& message@.id == id
                &&& forall|x: u16|
                    x != id ==> final(self).pending@.contains(x) == old(
                        self,
                    ).pending@.contains(x)
            },
            spec_embedded_id(b@) is None ==> r is DroppedMalformed,
            (spec_embedded_id(b@) matches Some(id) && !old(self).pending@.contains(id)) ==> r
                is DroppedUnmatched,
            (spec_embedded_id(b@) matches Some(id) && old(self).pending@.contains(id)
                && spec_strip_signer(b@, old(self).tag()) is None) ==> r is DroppedBadSignature,
            (spec_embedded_id(b@) matches Some(id) && old(self).pending@.contains(id) && (
            spec_strip_signer(b@, old(self).tag()) matches Some(body) && spec_decode(body)
                is None)) ==> r is DroppedMalformed,
    {
        if b.len() < 2 {
            return DispatchOutcome::DroppedMalformed;
        }
        let id: u16 = (b[0] as u16) * 256 + (b[1] as u16);
        assert(spec_embedded_id(b@) == Some(id));
        let index = match self.find_pending(id) {
            Some(i) => i,
            None => {
                return DispatchOutcome::DroppedUnmatched;
            },
        };
        let body: Vec<u8> = match &self.signer {
            None => {
                let whole = crate::codec::read_chunk(b, 0, b.len());
                assert(whole@ =~= b@);
                whole
            },
            Some(s) => {
                let tlen = s.tag.len();
                if b.len() < tlen {
                    assert(spec_strip_signer(b@, self.tag()) is None);
                    return DispatchOutcome::DroppedBadSignature;
                }
                let blen = b.len();
                let mut i: usize = 0;
                while i < tlen
                    invariant
                        self == old(self),
                        old(self).wf(),
                        tlen == s.tag@.len(),
                        blen == b@.len(),
                        blen >= 2,
                        tlen <= blen,
                        i <= tlen,
                        self.signer == Some(*s),
                        spec_embedded_id(b@) == Some(id),
                        self.pending@.contains(id),
                        forall|j: int| 0 <= j < i ==> b@[blen - tlen + j] == s.tag@[j],
                    decreases tlen - i,
                {
                    if b[blen - tlen + i] != s.tag[i] {
                        proof {
                            let suf = b@.skip(blen as int - tlen as int);
                            assert(suf[i as int] == b@[blen - tlen + i as int]);
                            assert(suf != s.tag@);
                            assert(spec_strip_signer(b@, spec_signer_tag(self.signer)) is None);
                        }
                        return DispatchOutcome::DroppedBadSignature;
                    }
                    i = i + 1;
                }
                proof {
                    let suf = b@.skip(blen as int - tlen as int);
                    assert forall|j: int| 0 <= j < tlen implies suf[j] == s.tag@[j] by {
                        assert(suf[j] == b@[blen - tlen + j]);
                    }
                    assert(suf =~= s.tag@);
                }
                let body = crate::codec::read_chunk(b, 0, blen - tlen);
                assert(body@ =~= b@.take(blen as int - tlen as int));
                body
            },
        };
        assert(spec_strip_signer(b@, self.tag()) == Some(body@));
        let message = match crate::codec::decode(&body) {
            Ok(m) => m,
            Err(_e) => {
                return DispatchOutcome::DroppedMalformed;
            },
        };
        proof {
            assert(spec_decode(body@) == Some(message@));
            assert(body@.len() >= 2 && body@[0] == b@[0] && body@[1] == b@[1]);
            assert(message@.id == id);
            self.pending@.index_of_first_ensures(id);
            lemma_remove_value_distinct(self.pending@, id);
        }
        self.pending.remove(index);
        DispatchOutcome::Resolved { id, message }
    }

    /// Cancel the request with this identifier, if it is pending: its
    /// entry leaves the table and the identifier is free for reuse.  A
    /// response arriving later is then unmatched, and dropped.
    pub fn cancel(&mut self, id: u16) -> (r: bool)
        requires
            old(self).wf(),
        ensures
            final(self).wf(),
            final(self).signer == old(self).signer,
            final(self).next_id == old(self).next_id,
            r == old(self).pending@.contains(id),
            final(self).pending@ == old(self).pending@.remove_value(id),
            !final(self).pending@.contains(id),
            forall|x: u16|
                x != id ==> final(self).pending@.contains(x) == old(self).pending@.contains(x),
    {
        proof {
            lemma_remove_value_distinct(self.pending@, id);
        }
        match self.find_pending(id) {
            Some(i) => {
                proof {
                    self.pending@.index_of_first_ensures(id);
                }
                self.pending.remove(i);
                true
            },
            None => {
                false
            },
        }
    }

    /// Fail every outstanding request at once: empties the table and
    /// returns exactly the identifiers that were pending, in table order.
    pub fn fail_all(&mut self) -> (r: Vec<u16>)
        requires
            old(self).wf(),
        ensures
            final(self).wf(),
            final(self).signer == old(self).signer,
            final(self).next_id == old(self).next_id,
            r@ == old(self).pending@,
            final(self).pending@ == Seq::<u16>::empty(),
    {
        let n = self.pending.len();
        let mut out: Vec<u16> = Vec::new();
        let mut i: usize = 0;
        while i < n
            invariant
                n == self.pending@.len(),
                self == old(self),
                i <= n,
                out@ == self.pending@.take(i as int),
            decreases n - i,
        {
            out.push(self.pending[i]);
            assert(out@ =~= self.pending@.take(i as int + 1));
            i = i + 1;
        }
        assert(out@ =~= self.pending@);
        self.pending = Vec::new();
        out
    }
}

} // verus!

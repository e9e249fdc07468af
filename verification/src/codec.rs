//! Wire model of a DNS transaction message.
//!
//! The transaction layer needs only a small window into the wire format:
//! the transaction identifier in the first two bytes, a response flag, the
//! question, and the answer records.  Messages are framed with one-byte
//! length-prefixed names, big-endian two-byte integers, and a one-byte
//! answer count; `spec_encode` and `spec_decode` say exactly which byte
//! sequences are well-formed messages.

use vstd::prelude::*;

use crate::error::ClientError;

verus! {

/// A question: a dot-terminated name as raw bytes, a record type and a class.
#[derive(Clone, Debug, PartialEq, Eq)]
pub struct DnsQuery {
    pub name: Vec<u8>,
    pub qtype: u16,
    pub qclass: u16,
}

/// One resource record of an answer section.
#[derive(Clone, Debug, PartialEq, Eq)]
pub struct DnsRecord {
    pub name: Vec<u8>,
    pub rtype: u16,
    pub rclass: u16,
    pub rdata: Vec<u8>,
}

/// A decoded DNS transaction message.
#[derive(Clone, Debug, PartialEq, Eq)]
pub struct DnsMessage {
    pub id: u16,
    pub response: bool,
    pub query: DnsQuery,
    pub answers: Vec<DnsRecord>,
}

/// Mathematical image of a `DnsQuery`.
pub ghost struct QueryView {
    pub name: Seq<u8>,
    pub qtype: u16,
    pub qclass: u16,
}

/// Mathematical image of a `DnsRecord`.
pub ghost struct RecordView {
    pub name: Seq<u8>,
    pub rtype: u16,
    pub rclass: u16,
    pub rdata: Seq<u8>,
}

/// Mathematical image of a `DnsMessage`.
pub ghost struct MessageView {
    pub id: u16,
    pub response: bool,
    pub query: QueryView,
    pub answers: Seq<RecordView>,
}

impl View for DnsQuery {
    type V = QueryView;

    open spec fn view(&self) -> QueryView {
        QueryView { name: self.name@, qtype: self.qtype, qclass: self.qclass }
    }
}

impl View for DnsRecord {
    type V = RecordView;

    open spec fn view(&self) -> RecordView {
        RecordView {
            name: self.name@,
            rtype: self.rtype,
            rclass: self.rclass,
            rdata: self.rdata@,
        }
    }
}

impl View for DnsMessage {
    type V = MessageView;

    open spec fn view(&self) -> MessageView {
        MessageView {
            id: self.id,
            response: self.response,
            query: self.query@,
            answers: self.answers@.map_values(|r: DnsRecord| r@),
        }
    }
}

impl QueryView {
    /// A name must fit its one-byte length prefix.
    pub open spec fn wf(self) -> bool {
        self.name.len() <= 255
    }
}

impl RecordView {
    /// Name and record data must fit their length prefixes.
    pub open spec fn wf(self) -> bool {
        self.name.len() <= 255 && self.rdata.len() <= 0xFFFF
    }
}

impl MessageView {
    /// The answer count must fit one byte and every part must be framable.
    pub open spec fn wf(self) -> bool {
        &&& self.query.wf()
        &&& self.answers.len() <= 255
        &&& forall|i: int| 0 <= i < self.answers.len() ==> #[trigger] self.answers[i].wf()
    }
}

/// Big-endian two-byte encoding of a sixteen-bit integer.
pub open spec fn enc_u16(x: u16) -> Seq<u8> {
    seq![(x / 256) as u8, (x % 256) as u8]
}

/// A name, prefixed by its length in one byte.
pub open spec fn enc_name(name: Seq<u8>) -> Seq<u8> {
    seq![name.len() as u8] + name
}

/// The response flag as one byte.
pub open spec fn enc_flag(response: bool) -> u8 {
    if response { 1u8 } else { 0u8 }
}

/// Encoding of the question section.
pub open spec fn enc_query(q: QueryView) -> Seq<u8> {
    enc_name(q.name) + enc_u16(q.qtype) + enc_u16(q.qclass)
}

/// Encoding of one answer record.
pub open spec fn enc_record(r: RecordView) -> Seq<u8> {
    enc_name(r.name) + enc_u16(r.rtype) + enc_u16(r.rclass) + enc_u16(r.rdata.len() as u16)
        + r.rdata
}

/// Encoding of an answer section, record by record.
pub open spec fn enc_records(rs: Seq<RecordView>) -> Seq<u8>
    decreases rs.len(),
{
    if rs.len() == 0 {
        Seq::empty()
    } else {
        enc_record(rs[0]) + enc_records(rs.drop_first())
    }
}

/// The byte image of a whole message: identifier, flag, question,
/// answer count, answers.
pub open spec fn spec_encode(m: MessageView) -> Seq<u8> {
    enc_u16(m.id) + seq![enc_flag(m.response)] + enc_query(m.query)
        + seq![m.answers.len() as u8] + enc_records(m.answers)
}

/// Reads a big-endian sixteen-bit integer; yields it and the rest.
pub open spec fn dec_u16(b: Seq<u8>) -> Option<(u16, Seq<u8>)> {
    if b.len() >= 2 {
        Some((((b[0] as int) * 256 + (b[1] as int)) as u16, b.skip(2)))
    } else {
        None
    }
}

/// Reads a length-prefixed name.
pub open spec fn dec_name(b: Seq<u8>) -> Option<(Seq<u8>, Seq<u8>)> {
    if b.len() >= 1 && b.len() >= 1 + (b[0] as int) {
        Some((b.subrange(1, 1 + (b[0] as int)), b.skip(1 + (b[0] as int))))
    } else {
        None
    }
}

/// Reads the response flag; any byte other than zero or one is malformed.
pub open spec fn dec_flag(b: Seq<u8>) -> Option<(bool, Seq<u8>)> {
    if b.len() >= 1 && (b[0] == 0 || b[0] == 1) {
        Some((b[0] == 1, b.skip(1)))
    } else {
        None
    }
}

/// Reads the question section.
pub open spec fn dec_query(b: Seq<u8>) -> Option<(QueryView, Seq<u8>)> {
    match dec_name(b) {
        None => None,
        Some((name, b1)) => match dec_u16(b1) {
            None => None,
            Some((qtype, b2)) => match dec_u16(b2) {
                None => None,
                Some((qclass, b3)) => Some((QueryView { name, qtype, qclass }, b3)),
            },
        },
    }
}

/// Reads length-prefixed record data.
pub open spec fn dec_rdata(b: Seq<u8>) -> Option<(Seq<u8>, Seq<u8>)> {
    match dec_u16(b) {
        None => None,
        Some((n, b1)) => if b1.len() >= n as int {
            Some((b1.take(n as int), b1.skip(n as int)))
        } else {
            None
        },
    }
}

/// Reads one answer record.
pub open spec fn dec_record(b: Seq<u8>) -> Option<(RecordView, Seq<u8>)> {
    match dec_name(b) {
        None => None,
        Some((name, b1)) => match dec_u16(b1) {
            None => None,
            Some((rtype, b2)) => match dec_u16(b2) {
                None => None,
                Some((rclass, b3)) => match dec_rdata(b3) {
                    None => None,
                    Some((rdata, b4)) => Some((RecordView { name, rtype, rclass, rdata }, b4)),
                },
            },
        },
    }
}

/// Reads exactly `n` answer records.
pub open spec fn dec_records(b: Seq<u8>, n: nat) -> Option<(Seq<RecordView>, Seq<u8>)>
    decreases n,
{
    if n == 0 {
        Some((Seq::empty(), b))
    } else {
        match dec_record(b) {
            None => None,
            Some((r, b1)) => match dec_records(b1, (n - 1) as nat) {
                None => None,
                Some((rs, b2)) => Some((seq![r] + rs, b2)),
            },
        }
    }
}

/// The unique message a byte sequence stands for, if it is well formed
/// and fully consumed.
pub open spec fn spec_decode(b: Seq<u8>) -> Option<MessageView> {
    match dec_u16(b) {
        None => None,
        Some((id, b1)) => match dec_flag(b1) {
            None => None,
            Some((response, b2)) => match dec_query(b2) {
                None => None,
                Some((query, b3)) => if b3.len() >= 1 {
                    match dec_records(b3.skip(1), b3[0] as nat) {
                        None => None,
                        Some((answers, b4)) => if b4.len() == 0 {
                            Some(MessageView { id, response, query, answers })
                        } else {
                            None
                        },
                    }
                } else {
                    None
                },
            },
        },
    }
}

/// The transaction identifier carried in the first two bytes, if present.
pub open spec fn spec_embedded_id(b: Seq<u8>) -> Option<u16> {
    match dec_u16(b) {
        None => None,
        Some((id, _rest)) => Some(id),
    }
}

fn push_u16(out: &mut Vec<u8>, x: u16)
    ensures
        final(out)@ == old(out)@ + enc_u16(x),
{
    out.push((x / 256) as u8);
    out.push((x % 256) as u8);
    assert(out@ =~= old(out)@ + enc_u16(x));
}

pub(crate) fn push_bytes(out: &mut Vec<u8>, src: &Vec<u8>)
    ensures
        final(out)@ == old(out)@ + src@,
{
    let n = src.len();
    let mut i: usize = 0;
    while i < n
        invariant
            n == src@.len(),
            i <= n,
            out@ == old(out)@ + src@.take(i as int),
        decreases n - i,
    {
        out.push(src[i]);
        assert(out@ =~= old(out)@ + src@.take(i as int + 1));
        i = i + 1;
    }
    assert(out@ =~= old(out)@ + src@);
}

fn push_name(out: &mut Vec<u8>, name: &Vec<u8>)
    requires
        name@.len() <= 255,
    ensures
        final(out)@ == old(out)@ + enc_name(name@),
{
    out.push(name.len() as u8);
    push_bytes(out, name);
    assert(out@ =~= old(out)@ + enc_name(name@));
}

fn push_record(out: &mut Vec<u8>, r: &DnsRecord)
    requires
        r@.wf(),
    ensures
        final(out)@ == old(out)@ + enc_record(r@),
{
    push_name(out, &r.name);
    push_u16(out, r.rtype);
    push_u16(out, r.rclass);
    push_u16(out, r.rdata.len() as u16);
    push_bytes(out, &r.rdata);
    assert(out@ =~= old(out)@ + enc_record(r@));
}

/// Appending one record to an answer section appends its encoding.
pub proof fn lemma_enc_records_snoc(rs: Seq<RecordView>, r: RecordView)
    ensures
        enc_records(rs.push(r)) == enc_records(rs) + enc_record(r),
    decreases rs.len(),
{
    let p = rs.push(r);
    if rs.len() == 0 {
        assert(p[0] == r);
        assert(p.drop_first() =~= Seq::<RecordView>::empty());
        assert(enc_records(p) == enc_record(r) + enc_records(Seq::<RecordView>::empty()));
        assert(enc_records(Seq::<RecordView>::empty()) == Seq::<u8>::empty());
        assert(enc_records(rs) == Seq::<u8>::empty());
        assert(enc_records(p) =~= enc_records(rs) + enc_record(r));
    } else {
        assert(p[0] == rs[0]);
        assert(p.drop_first() =~= rs.drop_first().push(r));
        lemma_enc_records_snoc(rs.drop_first(), r);
        assert(enc_records(p) == enc_record(rs[0]) + (enc_records(rs.drop_first()) + enc_record(
            r,
        )));
        assert(enc_records(rs) == enc_record(rs[0]) + enc_records(rs.drop_first()));
        assert(enc_records(p) =~= enc_records(rs) + enc_record(r));
    }
}

/// Serialize a well-formed message to its byte image.
pub fn encode(m: &DnsMessage) -> (r: Vec<u8>)
    requires
        m@.wf(),
    ensures
        r@ == spec_encode(m@),
{
    let mut out: Vec<u8> = Vec::new();
    push_u16(&mut out, m.id);
    out.push(if m.response { 1u8 } else { 0u8 });
    push_name(&mut out, &m.query.name);
    push_u16(&mut out, m.query.qtype);
    push_u16(&mut out, m.query.qclass);
    out.push(m.answers.len() as u8);
    let ghost head = out@;
    let n = m.answers.len();
    let mut i: usize = 0;
    while i < n
        invariant
            n == m.answers@.len(),
            i <= n,
            m@.wf(),
            out@ == head + enc_records(m@.answers.take(i as int)),
        decreases n - i,
    {
        assert(m@.answers[i as int] == m.answers@[i as int]@);
        assert(m@.answers[i as int].wf());
        push_record(&mut out, &m.answers[i]);
        proof {
            lemma_enc_records_snoc(m@.answers.take(i as int), m@.answers[i as int]);
            assert(m@.answers.take(i as int).push(m@.answers[i as int]) =~= m@.answers.take(
                i as int + 1,
            ));
        }
        i = i + 1;
    }
    assert(m@.answers.take(n as int) =~= m@.answers);
    assert(out@ =~= spec_encode(m@));
    out
}

proof fn lemma_dec_u16_of_enc(x: u16, rest: Seq<u8>)
    ensures
        dec_u16(enc_u16(x) + rest) == Some((x, rest)),
{
    let b = enc_u16(x) + rest;
    vstd::arithmetic::div_mod::lemma_fundamental_div_mod(x as int, 256);
    assert(b[0] == (x / 256) as u8 && b[1] == (x % 256) as u8);
    assert((b[0] as int) * 256 + (b[1] as int) == x as int);
    assert(b.skip(2) =~= rest);
}

proof fn lemma_dec_flag_of_enc(response: bool, rest: Seq<u8>)
    ensures
        dec_flag(seq![enc_flag(response)] + rest) == Some((response, rest)),
{
    let b = seq![enc_flag(response)] + rest;
    assert(b[0] == enc_flag(response));
    assert(b.skip(1) =~= rest);
}

proof fn lemma_dec_name_of_enc(name: Seq<u8>, rest: Seq<u8>)
    requires
        name.len() <= 255,
    ensures
        dec_name(enc_name(name) + rest) == Some((name, rest)),
{
    let b = enc_name(name) + rest;
    assert(b[0] == name.len() as u8);
    assert(b[0] as int == name.len());
    assert(b.subrange(1, 1 + (b[0] as int)) =~= name);
    assert(b.skip(1 + (b[0] as int)) =~= rest);
}

proof fn lemma_dec_record_of_enc(r: RecordView, rest: Seq<u8>)
    requires
        r.wf(),
    ensures
        dec_record(enc_record(r) + rest) == Some((r, rest)),
{
    let b = enc_record(r) + rest;
    let t1 = enc_u16(r.rtype) + (enc_u16(r.rclass) + (enc_u16(r.rdata.len() as u16) + (r.rdata
        + rest)));
    assert(b =~= enc_name(r.name) + t1);
    lemma_dec_name_of_enc(r.name, t1);
    lemma_dec_u16_of_enc(r.rtype, enc_u16(r.rclass) + (enc_u16(r.rdata.len() as u16) + (r.rdata
        + rest)));
    lemma_dec_u16_of_enc(r.rclass, enc_u16(r.rdata.len() as u16) + (r.rdata + rest));
    lemma_dec_u16_of_enc(r.rdata.len() as u16, r.rdata + rest);
    let b4 = r.rdata + rest;
    assert((r.rdata.len() as u16) as int == r.rdata.len());
    assert(b4.take(r.rdata.len() as int) =~= r.rdata);
    assert(b4.skip(r.rdata.len() as int) =~= rest);
}

#[verifier::rlimit(100)]
proof fn lemma_dec_records_of_enc(rs: Seq<RecordView>, rest: Seq<u8>)
    requires
        forall|i: int| 0 <= i < rs.len() ==> #[trigger] rs[i].wf(),
    ensures
        dec_records(enc_records(rs) + rest, rs.len()) == Some((rs, rest)),
    decreases rs.len(),
{
    if rs.len() == 0 {
        assert(enc_records(rs) + rest =~= rest);
    } else {
        let tail = rs.drop_first();
        let b = enc_records(rs) + rest;
        assert(b =~= enc_record(rs[0]) + (enc_records(tail) + rest));
        lemma_dec_record_of_enc(rs[0], enc_records(tail) + rest);
        assert(forall|i: int| 0 <= i < tail.len() ==> #[trigger] tail[i].wf());
        lemma_dec_records_of_enc(tail, rest);
        assert(seq![rs[0]] + tail =~= rs);
    }
}

/// Law: the codec round-trips.  Every well-formed message decodes, from
/// exactly its own encoding, back to itself.
#[verifier::rlimit(100)]
pub proof fn lemma_decode_of_encode(m: MessageView)
    requires
        m.wf(),
    ensures
        spec_decode(spec_encode(m)) == Some(m),
{
    let b = spec_encode(m);
    let t_flag = enc_query(m.query) + (seq![m.answers.len() as u8] + enc_records(m.answers));
    assert(b =~= enc_u16(m.id) + (seq![enc_flag(m.response)] + t_flag));
    lemma_dec_u16_of_enc(m.id, seq![enc_flag(m.response)] + t_flag);
    lemma_dec_flag_of_enc(m.response, t_flag);
    let t_qt = enc_u16(m.query.qtype) + (enc_u16(m.query.qclass) + (seq![m.answers.len() as u8]
        + enc_records(m.answers)));
    assert(t_flag =~= enc_name(m.query.name) + t_qt);
    lemma_dec_name_of_enc(m.query.name, t_qt);
    lemma_dec_u16_of_enc(
        m.query.qtype,
        enc_u16(m.query.qclass) + (seq![m.answers.len() as u8] + enc_records(m.answers)),
    );
    lemma_dec_u16_of_enc(m.query.qclass, seq![m.answers.len() as u8] + enc_records(m.answers));
    let b3 = seq![m.answers.len() as u8] + enc_records(m.answers);
    assert(dec_query(t_flag) == Some((m.query, b3)));
    assert(b3.len() >= 1 && b3[0] == m.answers.len() as u8);
    assert(b3[0] as int == m.answers.len());
    assert(b3.skip(1) =~= enc_records(m.answers));
    lemma_dec_records_of_enc(m.answers, Seq::empty());
    assert(enc_records(m.answers) + Seq::<u8>::empty() =~= enc_records(m.answers));
    assert(dec_records(b3.skip(1), b3[0] as nat) == Some((m.answers, Seq::<u8>::empty())));
}

proof fn lemma_enc_of_dec_u16(b: Seq<u8>)
    requires
        dec_u16(b) is Some,
    ensures
        ({
            let (x, rest) = dec_u16(b).unwrap();
            enc_u16(x) + rest == b
        }),
{
    let (x, rest) = dec_u16(b).unwrap();
    assert(x as int == (b[0] as int) * 256 + (b[1] as int));
    vstd::arithmetic::div_mod::lemma_fundamental_div_mod_converse(
        x as int,
        256,
        b[0] as int,
        b[1] as int,
    );
    assert(enc_u16(x) + rest =~= b);
}

proof fn lemma_enc_of_dec_name(b: Seq<u8>)
    requires
        dec_name(b) is Some,
    ensures
        ({
            let (name, rest) = dec_name(b).unwrap();
            enc_name(name) + rest == b && name.len() <= 255
        }),
{
    let (name, rest) = dec_name(b).unwrap();
    assert(name.len() == b[0] as int);
    assert(name.len() as u8 == b[0]);
    assert(enc_name(name) + rest =~= b);
}

proof fn lemma_enc_of_dec_record(b: Seq<u8>)
    requires
        dec_record(b) is Some,
    ensures
        ({
            let (r, rest) = dec_record(b).unwrap();
            enc_record(r) + rest == b && r.wf()
        }),
{
    let (r, rest) = dec_record(b).unwrap();
    lemma_enc_of_dec_name(b);
    let (_name, b1) = dec_name(b).unwrap();
    lemma_enc_of_dec_u16(b1);
    let (_rtype, b2) = dec_u16(b1).unwrap();
    lemma_enc_of_dec_u16(b2);
    let (_rclass, b3) = dec_u16(b2).unwrap();
    lemma_enc_of_dec_u16(b3);
    let (n, b4) = dec_u16(b3).unwrap();
    assert(r.rdata == b4.take(n as int) && rest == b4.skip(n as int));
    assert(r.rdata.len() == n as int);
    assert(r.rdata.len() as u16 == n);
    assert(r.rdata + rest =~= b4);
    assert(enc_record(r) + rest =~= b);
}

#[verifier::rlimit(100)]
proof fn lemma_enc_of_dec_records(b: Seq<u8>, n: nat)
    requires
        dec_records(b, n) is Some,
    ensures
        ({
            let (rs, rest) = dec_records(b, n).unwrap();
            &&& enc_records(rs) + rest == b
            &&& rs.len() == n
            &&& forall|i: int| 0 <= i < rs.len() ==> #[trigger] rs[i].wf()
        }),
    decreases n,
{
    let (rs, rest) = dec_records(b, n).unwrap();
    if n == 0 {
        assert(enc_records(rs) + rest =~= b);
    } else {
        lemma_enc_of_dec_record(b);
        let (r, b1) = dec_record(b).unwrap();
        lemma_enc_of_dec_records(b1, (n - 1) as nat);
        let (tail, _rest2) = dec_records(b1, (n - 1) as nat).unwrap();
        assert(rs == seq![r] + tail);
        assert(rs[0] == r);
        assert(rs.drop_first() =~= tail);
        assert(enc_records(rs) + rest =~= (enc_record(r) + (enc_records(tail) + rest)));
        assert(enc_record(r) + (enc_records(tail) + rest) =~= b);
        assert forall|i: int| 0 <= i < rs.len() implies #[trigger] rs[i].wf() by {
            if i > 0 {
                assert(rs[i] == tail[i - 1]);
            }
        }
    }
}

/// Law: the codec is exact.  A byte sequence decodes only if it is the
/// encoding of a (well-formed) message, and then of exactly the message
/// it decodes to — together with the round-trip law, `spec_decode` and
/// `spec_encode` are inverse on well-formed messages.
#[verifier::rlimit(100)]
pub proof fn lemma_encode_of_decode(b: Seq<u8>)
    requires
        spec_decode(b) is Some,
    ensures
        spec_decode(b).unwrap().wf(),
        spec_encode(spec_decode(b).unwrap()) == b,
{
    let m = spec_decode(b).unwrap();
    lemma_enc_of_dec_u16(b);
    let (_id, b1) = dec_u16(b).unwrap();
    let (_response, b2) = dec_flag(b1).unwrap();
    assert(seq![enc_flag(m.response)] + b2 =~= b1);
    lemma_enc_of_dec_name(b2);
    let (_qname, q1) = dec_name(b2).unwrap();
    lemma_enc_of_dec_u16(q1);
    let (_qtype, q2) = dec_u16(q1).unwrap();
    lemma_enc_of_dec_u16(q2);
    let (_qclass, b3) = dec_u16(q2).unwrap();
    assert(enc_query(m.query) + b3 =~= b2);
    let n = b3[0] as nat;
    lemma_enc_of_dec_records(b3.skip(1), n);
    let (answers, b4) = dec_records(b3.skip(1), n).unwrap();
    assert(b4.len() == 0);
    assert(enc_records(answers) + b4 =~= enc_records(answers));
    assert(m.answers.len() == n);
    assert(m.answers.len() as u8 == b3[0]);
    assert(seq![m.answers.len() as u8] + enc_records(m.answers) =~= b3);
    assert(spec_encode(m) =~= b);
}

/// Serialize a fresh query under a given transaction identifier: a
/// non-response message with an empty answer section.
pub fn encode_query_message(id: u16, query: &DnsQuery) -> (r: Vec<u8>)
    requires
        query@.wf(),
    ensures
        r@ == spec_encode(
            MessageView { id, response: false, query: query@, answers: Seq::empty() },
        ),
        spec_embedded_id(r@) == Some(id),
{
    let mut out: Vec<u8> = Vec::new();
    push_u16(&mut out, id);
    out.push(0u8);
    push_name(&mut out, &query.name);
    push_u16(&mut out, query.qtype);
    push_u16(&mut out, query.qclass);
    out.push(0u8);
    proof {
        let m = MessageView { id, response: false, query: query@, answers: Seq::empty() };
        assert(enc_records(m.answers) == Seq::<u8>::empty());
        assert(out@ =~= spec_encode(m));
        assert(out@[0] == (id / 256) as u8 && out@[1] == (id % 256) as u8);
        vstd::arithmetic::div_mod::lemma_fundamental_div_mod(id as int, 256);
        assert(out@.len() >= 2);
    }
    out
}

fn read_u16(b: &Vec<u8>, pos: usize) -> (r: Option<(u16, usize)>)
    requires
        pos <= b@.len(),
    ensures
        r is Some <==> dec_u16(b@.skip(pos as int)) is Some,
        r matches Some(v) ==> {
            &&& dec_u16(b@.skip(pos as int)) matches Some(s) && v.0 == s.0 && b@.skip(
                v.1 as int,
            ) == s.1
            &&& pos < v.1 <= b@.len()
        },
{
    if b.len() - pos >= 2 {
        let x: u16 = (b[pos] as u16) * 256 + (b[pos + 1] as u16);
        assert(b@.skip(pos as int)[0] == b@[pos as int]);
        assert(b@.skip(pos as int)[1] == b@[pos as int + 1]);
        assert(b@.skip(pos as int).skip(2) =~= b@.skip(pos as int + 2));
        Some((x, pos + 2))
    } else {
        None
    }
}

fn read_flag(b: &Vec<u8>, pos: usize) -> (r: Option<(bool, usize)>)
    requires
        pos <= b@.len(),
    ensures
        r is Some <==> dec_flag(b@.skip(pos as int)) is Some,
        r matches Some(v) ==> {
            &&& dec_flag(b@.skip(pos as int)) matches Some(s) && v.0 == s.0 && b@.skip(
                v.1 as int,
            ) == s.1
            &&& pos < v.1 <= b@.len()
        },
{
    if b.len() - pos >= 1 && (b[pos] == 0 || b[pos] == 1) {
        assert(b@.skip(pos as int)[0] == b@[pos as int]);
        assert(b@.skip(pos as int).skip(1) =~= b@.skip(pos as int + 1));
        Some((b[pos] == 1, pos + 1))
    } else {
        assert(b@.skip(pos as int).len() >= 1 ==> b@.skip(pos as int)[0] == b@[pos as int]);
        None
    }
}

pub(crate) fn read_chunk(b: &Vec<u8>, pos: usize, len: usize) -> (r: Vec<u8>)
    requires
        pos + len <= b@.len(),
    ensures
        r@ == b@.subrange(pos as int, pos as int + len as int),
{
    let blen: usize = b.len();
    let mut out: Vec<u8> = Vec::new();
    let mut i: usize = 0;
    while i < len
        invariant
            pos + len <= blen,
            blen == b@.len(),
            i <= len,
            out@ == b@.subrange(pos as int, pos as int + i as int),
        decreases len - i,
    {
        out.push(b[pos + i]);
        assert(out@ =~= b@.subrange(pos as int, pos as int + i as int + 1));
        i = i + 1;
    }
    out
}

fn read_name(b: &Vec<u8>, pos: usize) -> (r: Option<(Vec<u8>, usize)>)
    requires
        pos <= b@.len(),
    ensures
        r is Some <==> dec_name(b@.skip(pos as int)) is Some,
        r matches Some(v) ==> {
            &&& dec_name(b@.skip(pos as int)) matches Some(s) && v.0@ == s.0 && b@.skip(
                v.1 as int,
            ) == s.1
            &&& pos < v.1 <= b@.len()
            &&& v.0@.len() <= 255
        },
{
    if b.len() - pos >= 1 {
        let nlen = b[pos] as usize;
        assert(b@.skip(pos as int)[0] == b@[pos as int]);
        if b.len() - pos - 1 >= nlen {
            let name = read_chunk(b, pos + 1, nlen);
            assert(b@.skip(pos as int).subrange(1, 1 + nlen as int) =~= b@.subrange(
                pos as int + 1,
                pos as int + 1 + nlen as int,
            ));
            assert(b@.skip(pos as int).skip(1 + nlen as int) =~= b@.skip(pos as int + 1
                + nlen as int));
            Some((name, pos + 1 + nlen))
        } else {
            None
        }
    } else {
        None
    }
}

fn read_record(b: &Vec<u8>, pos: usize) -> (r: Option<(DnsRecord, usize)>)
    requires
        pos <= b@.len(),
    ensures
        r is Some <==> dec_record(b@.skip(pos as int)) is Some,
        r matches Some(v) ==> {
            &&& dec_record(b@.skip(pos as int)) matches Some(s) && v.0@ == s.0 && b@.skip(
                v.1 as int,
            ) == s.1
            &&& pos < v.1 <= b@.len()
        },
{
    let (name, pos1) = match read_name(b, pos) {
        Some(v) => v,
        None => {
            return None;
        },
    };
    let (rtype, pos2) = match read_u16(b, pos1) {
        Some(v) => v,
        None => {
            return None;
        },
    };
    let (rclass, pos3) = match read_u16(b, pos2) {
        Some(v) => v,
        None => {
            return None;
        },
    };
    let (dlen, pos4) = match read_u16(b, pos3) {
        Some(v) => v,
        None => {
            return None;
        },
    };
    if b.len() - pos4 < dlen as usize {
        assert(dec_rdata(b@.skip(pos3 as int)) is None);
        return None;
    }
    let rdata = read_chunk(b, pos4, dlen as usize);
    let pos5 = pos4 + dlen as usize;
    assert(b@.skip(pos4 as int).take(dlen as int) =~= b@.subrange(
        pos4 as int,
        pos4 as int + dlen as int,
    ));
    assert(b@.skip(pos4 as int).skip(dlen as int) =~= b@.skip(pos4 as int + dlen as int));
    let record = DnsRecord { name, rtype, rclass, rdata };
    Some((record, pos5))
}

fn read_query(b: &Vec<u8>, pos: usize) -> (r: Option<(DnsQuery, usize)>)
    requires
        pos <= b@.len(),
    ensures
        r is Some <==> dec_query(b@.skip(pos as int)) is Some,
        r matches Some(v) ==> {
            &&& dec_query(b@.skip(pos as int)) matches Some(s) && v.0@ == s.0 && b@.skip(
                v.1 as int,
            ) == s.1
            &&& pos < v.1 <= b@.len()
        },
{
    let (name, pos1) = match read_name(b, pos) {
        Some(v) => v,
        None => {
            return None;
        },
    };
    let (qtype, pos2) = match read_u16(b, pos1) {
        Some(v) => v,
        None => {
            return None;
        },
    };
    let (qclass, pos3) = match read_u16(b, pos2) {
        Some(v) => v,
        None => {
            return None;
        },
    };
    Some((DnsQuery { name, qtype, qclass }, pos3))
}

/// Parse a byte payload into the message it encodes.
///
/// Succeeds exactly on the byte sequences that `spec_decode` accepts, and
/// returns exactly the message `spec_decode` assigns to them; everything
/// else is a `Decode` error.
#[verifier::rlimit(60)]
pub fn decode(b: &Vec<u8>) -> (r: Result<DnsMessage, ClientError>)
    ensures
        r is Ok <==> spec_decode(b@) is Some,
        r matches Ok(m) ==> spec_decode(b@) == Some(m@),
        r matches Err(e) ==> e == ClientError::Decode,
{
    assert(b@.skip(0) =~= b@);
    let (id, pos1) = match read_u16(b, 0) {
        Some(v) => v,
        None => {
            return Err(ClientError::Decode);
        },
    };
    let (response, pos2) = match read_flag(b, pos1) {
        Some(v) => v,
        None => {
            return Err(ClientError::Decode);
        },
    };
    let (query, pos5) = match read_query(b, pos2) {
        Some(v) => v,
        None => {
            return Err(ClientError::Decode);
        },
    };
    if b.len() - pos5 < 1 {
        assert(b@.skip(pos5 as int).len() == 0);
        return Err(ClientError::Decode);
    }
    let n = b[pos5] as usize;
    assert(b@.skip(pos5 as int)[0] == b@[pos5 as int]);
    let pos6 = pos5 + 1;
    assert(b@.skip(pos5 as int).skip(1) =~= b@.skip(pos6 as int));
    let ghost tail0 = b@.skip(pos6 as int);
    proof {
        let s3 = b@.skip(pos5 as int);
        assert(s3.len() >= 1 && s3[0] == b@[pos5 as int]);
        assert(spec_decode(b@) == match dec_records(tail0, n as nat) {
            None => None::<MessageView>,
            Some((ans, b4)) => if b4.len() == 0 {
                Some(MessageView { id, response, query: query@, answers: ans })
            } else {
                None::<MessageView>
            },
        });
    }
    let mut answers: Vec<DnsRecord> = Vec::new();
    let mut pos: usize = pos6;
    let mut j: usize = 0;
    while j < n
        invariant
            j <= n,
            pos <= b@.len(),
            tail0 == b@.skip(pos6 as int),
            pos6 <= b@.len(),
            n < 256,
            match dec_records(b@.skip(pos as int), (n - j) as nat) {
                None => dec_records(tail0, n as nat) is None,
                Some((rs, rest)) => dec_records(tail0, n as nat) == Some(
                    (answers@.map_values(|x: DnsRecord| x@) + rs, rest),
                ),
            },
            spec_decode(b@) == match dec_records(tail0, n as nat) {
                None => None::<MessageView>,
                Some((ans, b4)) => if b4.len() == 0 {
                    Some(MessageView { id, response, query: query@, answers: ans })
                } else {
                    None::<MessageView>
                },
            },
        decreases n - j,
    {
        let (rec, npos) = match read_record(b, pos) {
            Some(v) => v,
            None => {
                assert(dec_records(b@.skip(pos as int), (n - j) as nat) is None);
                return Err(ClientError::Decode);
            },
        };
        proof {
            let rtail = b@.skip(pos as int);
            let s = dec_record(rtail).unwrap();
            assert(dec_records(rtail, (n - j) as nat) == match dec_records(
                s.1,
                (n - j - 1) as nat,
            ) {
                None => None::<(Seq<RecordView>, Seq<u8>)>,
                Some((rs, rest)) => Some((seq![s.0] + rs, rest)),
            });
            match dec_records(b@.skip(npos as int), (n - j - 1) as nat) {
                Some((rs, rest)) => {
                    assert(answers@.map_values(|x: DnsRecord| x@) + (seq![rec@] + rs)
                        =~= answers@.push(rec).map_values(|x: DnsRecord| x@) + rs);
                },
                None => {},
            }
        }
        answers.push(rec);
        pos = npos;
        j = j + 1;
    }
    assert(dec_records(b@.skip(pos as int), 0) == Some((Seq::<RecordView>::empty(), b@.skip(
        pos as int,
    ))));
    proof {
        let fin = dec_records(tail0, n as nat).unwrap();
        assert(answers@.map_values(|x: DnsRecord| x@) + Seq::<RecordView>::empty()
            =~= answers@.map_values(|x: DnsRecord| x@));
    }
    if pos < b.len() {
        assert(b@.skip(pos as int).len() > 0);
        return Err(ClientError::Decode);
    }
    assert(b@.skip(pos as int).len() == 0);
    let message = DnsMessage { id, response, query, answers };
    assert(spec_decode(b@) == Some(message@));
    Ok(message)
}

} // verus!

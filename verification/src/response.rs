//! The persisted shape of an HTTP response: status code, ordered header
//! pairs with byte values (duplicate names allowed), and a raw byte body.
//!
//! Replaying a cached response must be byte-identical to the original, so
//! the header list is framed into a single byte column with explicit
//! lengths, and decoding is proved to invert encoding exactly.
use vstd::bytes::*;
use vstd::prelude::*;

verus! {

/// One response header: a name and a value, both raw bytes so that
/// non-text header values survive a round trip.
#[derive(Clone, PartialEq, Eq, Debug)]
pub struct HeaderPair {
    pub name: Vec<u8>,
    pub value: Vec<u8>,
}

/// Mathematical image of a `HeaderPair`.
#[verifier::ext_equal]
pub struct HeaderPairV {
    pub name: Seq<u8>,
    pub value: Seq<u8>,
}

impl View for HeaderPair {
    type V = HeaderPairV;

    open spec fn view(&self) -> HeaderPairV {
        HeaderPairV { name: self.name@, value: self.value@ }
    }
}

impl HeaderPairV {
    /// Lengths small enough for the 8-byte length prefixes of the framing.
    pub open spec fn wf(self) -> bool {
        self.name.len() <= u64::MAX && self.value.len() <= u64::MAX
    }
}

/// An HTTP-like response as a plain tagged value: what the idempotency
/// cache persists and replays.
#[derive(Clone, PartialEq, Eq, Debug)]
pub struct HttpResponse {
    pub status: u16,
    pub headers: Vec<HeaderPair>,
    pub body: Vec<u8>,
}

/// Mathematical image of an `HttpResponse`.
#[verifier::ext_equal]
pub struct HttpResponseV {
    pub status: u16,
    pub headers: Seq<HeaderPairV>,
    pub body: Seq<u8>,
}

/// The view of a header list.
pub open spec fn headers_view(hs: Seq<HeaderPair>) -> Seq<HeaderPairV> {
    hs.map_values(|h: HeaderPair| h@)
}

impl View for HttpResponse {
    type V = HttpResponseV;

    open spec fn view(&self) -> HttpResponseV {
        HttpResponseV { status: self.status, headers: headers_view(self.headers@), body: self.body@ }
    }
}

impl HttpResponseV {
    /// A response the cache will accept: a real HTTP status code and
    /// frameable headers.
    pub open spec fn wf(self) -> bool {
        &&& 100 <= self.status <= 999
        &&& forall|i: int| 0 <= i < self.headers.len() ==> (#[trigger] self.headers[i]).wf()
    }
}

impl HttpResponse {
    /// Executable mirror of `HttpResponseV::wf`.
    pub fn is_wf(&self) -> (r: bool)
        ensures
            r == self@.wf(),
    {
        if !(100 <= self.status && self.status <= 999) {
            return false;
        }
        // Vec lengths always fit in usize, and usize fits in u64, so every
        // header is frameable; nothing to scan at run time.
        proof {
            assert forall|i: int| 0 <= i < self@.headers.len() implies (
            #[trigger] self@.headers[i]).wf() by {
                let h = self.headers@[i];
                vstd::std_specs::vec::axiom_spec_len(&h.name);
                vstd::std_specs::vec::axiom_spec_len(&h.value);
                assert(self@.headers[i] == h@);
            }
        }
        true
    }
}

/// The framed form of one header pair: 8-byte little-endian name length,
/// name bytes, 8-byte little-endian value length, value bytes.
pub open spec fn spec_encode_pair(h: HeaderPairV) -> Seq<u8> {
    spec_u64_to_le_bytes(h.name.len() as u64) + h.name + spec_u64_to_le_bytes(h.value.len() as u64)
        + h.value
}

/// The framed form of a header list: the pairs in order, nothing else.
pub open spec fn spec_encode_headers(hs: Seq<HeaderPairV>) -> Seq<u8>
    decreases hs.len(),
{
    if hs.len() == 0 {
        Seq::empty()
    } else {
        spec_encode_pair(hs[0]) + spec_encode_headers(hs.skip(1))
    }
}

/// Parse a framed header list; `None` on any malformed byte string
/// (truncated length, short payload, trailing garbage).
pub open spec fn spec_decode_headers(b: Seq<u8>) -> Option<Seq<HeaderPairV>>
    decreases b.len(),
{
    if b.len() == 0 {
        Some(Seq::empty())
    } else if b.len() < 8 {
        None
    } else {
        let nlen = spec_u64_from_le_bytes(b.subrange(0, 8)) as int;
        if b.len() < 8 + nlen {
            None
        } else {
            let name = b.subrange(8, 8 + nlen);
            let b2 = b.subrange(8 + nlen, b.len() as int);
            if b2.len() < 8 {
                None
            } else {
                let vlen = spec_u64_from_le_bytes(b2.subrange(0, 8)) as int;
                if b2.len() < 8 + vlen {
                    None
                } else {
                    let value = b2.subrange(8, 8 + vlen);
                    let rest = b2.subrange(8 + vlen, b2.len() as int);
                    match spec_decode_headers(rest) {
                        Some(tail) => Some(seq![HeaderPairV { name, value }] + tail),
                        None => None,
                    }
                }
            }
        }
    }
}

/// Encoding a concatenation frames the two lists back to back.
pub proof fn lemma_encode_headers_append(a: Seq<HeaderPairV>, b: Seq<HeaderPairV>)
    ensures
        spec_encode_headers(a + b) == spec_encode_headers(a) + spec_encode_headers(b),
    decreases a.len(),
{
    if a.len() == 0 {
        assert(a + b =~= b);
        assert(spec_encode_headers(a) + spec_encode_headers(b) =~= spec_encode_headers(b));
    } else {
        lemma_encode_headers_append(a.skip(1), b);
        assert((a + b).skip(1) =~= a.skip(1) + b);
        assert(spec_encode_headers(a + b) =~= spec_encode_headers(a) + spec_encode_headers(b));
    }
}

/// Decoding inverts encoding: the framed form of any well-formed header
/// list parses back to exactly that list, order and duplicates included.
pub proof fn lemma_headers_round_trip(hs: Seq<HeaderPairV>)
    requires
        forall|i: int| 0 <= i < hs.len() ==> (#[trigger] hs[i]).wf(),
    ensures
        spec_decode_headers(spec_encode_headers(hs)) == Some(hs),
    decreases hs.len(),
{
    lemma_auto_spec_u64_to_from_le_bytes();
    if hs.len() == 0 {
    } else {
        let h = hs[0];
        let nlen = h.name.len() as int;
        let vlen = h.value.len() as int;
        let tail_enc = spec_encode_headers(hs.skip(1));
        let e = spec_encode_headers(hs);
        assert(e == spec_encode_pair(h) + tail_enc);
        assert(e.len() == 16 + nlen + vlen + tail_enc.len());
        assert(e.subrange(0, 8) =~= spec_u64_to_le_bytes(h.name.len() as u64));
        assert(spec_u64_from_le_bytes(e.subrange(0, 8)) as int == nlen);
        assert(e.subrange(8, 8 + nlen) =~= h.name);
        let b2 = e.subrange(8 + nlen, e.len() as int);
        assert(b2.subrange(0, 8) =~= spec_u64_to_le_bytes(h.value.len() as u64));
        assert(spec_u64_from_le_bytes(b2.subrange(0, 8)) as int == vlen);
        assert(b2.subrange(8, 8 + vlen) =~= h.value);
        let rest = b2.subrange(8 + vlen, b2.len() as int);
        assert(rest =~= tail_enc);
        lemma_headers_round_trip(hs.skip(1));
        assert(seq![HeaderPairV { name: h.name, value: h.value }] + hs.skip(1) =~= hs);
    }
}

/// Frame a header list into one byte string, the exact bytes of
/// `spec_encode_headers`.
pub fn encode_headers(headers: &Vec<HeaderPair>) -> (r: Vec<u8>)
    ensures
        r@ == spec_encode_headers(headers_view(headers@)),
{
    let ghost hv = headers_view(headers@);
    let mut out: Vec<u8> = Vec::new();
    let mut i: usize = 0;
    while i < headers.len()
        invariant
            0 <= i <= headers@.len(),
            hv == headers_view(headers@),
            out@ == spec_encode_headers(hv.take(i as int)),
        decreases headers@.len() - i,
    {
        let h = &headers[i];
        let mut nb = u64_to_le_bytes(h.name.len() as u64);
        out.append(&mut nb);
        let mut name = vstd::slice::slice_to_vec(h.name.as_slice());
        out.append(&mut name);
        let mut vb = u64_to_le_bytes(h.value.len() as u64);
        out.append(&mut vb);
        let mut value = vstd::slice::slice_to_vec(h.value.as_slice());
        out.append(&mut value);
        proof {
            assert(hv.take(i + 1) =~= hv.take(i as int) + seq![hv[i as int]]);
            lemma_encode_headers_append(hv.take(i as int), seq![hv[i as int]]);
            assert(seq![hv[i as int]].skip(1) =~= Seq::<HeaderPairV>::empty());
            assert(spec_encode_headers(Seq::<HeaderPairV>::empty()) == Seq::<u8>::empty());
            assert(seq![hv[i as int]][0] == hv[i as int]);
            assert(spec_encode_headers(seq![hv[i as int]]) == spec_encode_pair(hv[i as int])
                + spec_encode_headers(Seq::<HeaderPairV>::empty()));
            assert(spec_encode_headers(seq![hv[i as int]]) =~= spec_encode_pair(hv[i as int]));
            assert(out@ =~= spec_encode_headers(hv.take(i + 1)));
        }
        i = i + 1;
    }
    proof {
        assert(hv.take(headers@.len() as int) =~= hv);
    }
    out
}

/// Combine an already-parsed prefix with the parse of the remaining bytes.
spec fn decode_join(acc: Seq<HeaderPairV>, rest: Option<Seq<HeaderPairV>>) -> Option<
    Seq<HeaderPairV>,
> {
    match rest {
        Some(tail) => Some(acc + tail),
        None => None,
    }
}

/// Parse a framed header list; returns `None` exactly when
/// `spec_decode_headers` does.
pub fn decode_headers(b: &[u8]) -> (r: Option<Vec<HeaderPair>>)
    ensures
        match r {
            Some(v) => spec_decode_headers(b@) == Some(headers_view(v@)),
            None => spec_decode_headers(b@) is None,
        },
{
    let mut out: Vec<HeaderPair> = Vec::new();
    let mut i: usize = 0;
    proof {
        assert(b@.skip(0) =~= b@);
        assert(headers_view(out@) =~= Seq::<HeaderPairV>::empty());
        if let Some(t) = spec_decode_headers(b@) {
            assert(Seq::<HeaderPairV>::empty() + t =~= t);
        }
    }
    while i < b.len()
        invariant
            0 <= i <= b@.len(),
            spec_decode_headers(b@) == decode_join(
                headers_view(out@),
                spec_decode_headers(b@.skip(i as int)),
            ),
        decreases b@.len() - i,
    {
        let remaining = b.len() - i;
        let ghost s = b@.skip(i as int);
        assert(s.len() == remaining);
        if remaining < 8 {
            assert(spec_decode_headers(s) is None);
            return None;
        }
        let nlen64 = u64_from_le_bytes(vstd::slice::slice_subrange(b, i, i + 8));
        proof {
            assert(b@.subrange(i as int, i + 8) =~= s.subrange(0, 8));
        }
        if nlen64 > (remaining - 8) as u64 {
            assert(spec_decode_headers(s) is None);
            return None;
        }
        let nlen = nlen64 as usize;
        let name = vstd::slice::slice_to_vec(
            vstd::slice::slice_subrange(b, i + 8, i + 8 + nlen),
        );
        proof {
            assert(b@.subrange(i + 8, i + 8 + nlen) =~= s.subrange(8, 8 + nlen));
        }
        let ghost s2 = s.subrange(8 + nlen, s.len() as int);
        let rem2 = remaining - 8 - nlen;
        assert(s2.len() == rem2);
        if rem2 < 8 {
            assert(spec_decode_headers(s) is None);
            return None;
        }
        let j = i + 8 + nlen;
        let vlen64 = u64_from_le_bytes(vstd::slice::slice_subrange(b, j, j + 8));
        proof {
            assert(b@.subrange(j as int, j + 8) =~= s2.subrange(0, 8));
        }
        if vlen64 > (rem2 - 8) as u64 {
            assert(spec_decode_headers(s) is None);
            return None;
        }
        let vlen = vlen64 as usize;
        let value = vstd::slice::slice_to_vec(
            vstd::slice::slice_subrange(b, j + 8, j + 8 + vlen),
        );
        proof {
            assert(b@.subrange(j + 8, j + 8 + vlen) =~= s2.subrange(8, 8 + vlen));
        }
        let pair = HeaderPair { name, value };
        let ghost i2 = j + 8 + vlen;
        proof {
            assert(s2.subrange(8 + vlen, s2.len() as int) =~= b@.skip(i2 as int));
            assert(spec_decode_headers(s) == decode_join(
                seq![pair@],
                spec_decode_headers(b@.skip(i2 as int)),
            ));
        }
        out.push(pair);
        proof {
            assert(headers_view(out@) =~= headers_view(out@.drop_last()) + seq![pair@]);
            match spec_decode_headers(b@.skip(i2 as int)) {
                Some(tail) => {
                    assert(headers_view(out@.drop_last()) + (seq![pair@] + tail) =~= headers_view(
                        out@,
                    ) + tail);
                },
                None => {},
            }
        }
        i = j + 8 + vlen;
    }
    proof {
        assert(b@.skip(i as int) =~= Seq::<u8>::empty());
        assert(spec_decode_headers(b@) == Some(headers_view(out@) + Seq::<HeaderPairV>::empty()));
        assert(headers_view(out@) + Seq::<HeaderPairV>::empty() =~= headers_view(out@));
    }
    Some(out)
}

} // verus!

//! Incremental UTF-8 decoding of token byte chunks.
//!
//! Token boundaries do not respect character boundaries: a multi-byte
//! character may arrive spread over several tokens. The decoder therefore
//! buffers a trailing incomplete sequence (at most 3 bytes) across calls
//! and emits only well-formed text. An invalid byte — one that can never
//! begin or continue a character — is replaced by U+FFFD, one replacement
//! per offending byte, so no completed character is ever dropped silently.
//! Whatever is still buffered when a generation call ends is discarded:
//! a dangling partial sequence at end-of-stream has no valid resolution.

use vstd::prelude::*;

verus! {

/// A continuation byte of a multi-byte sequence.
pub open spec fn is_cont_byte(b: u8) -> bool {
    0x80 <= b && b < 0xC0
}

/// The length of the encoded sequence a lead byte announces, or 0 when the
/// byte can never start a character (continuation bytes, the overlong
/// leads 0xC0/0xC1, and 0xF5 and above).
pub open spec fn lead_len(b: u8) -> int {
    if b < 0x80 {
        1
    } else if 0xC2 <= b && b < 0xE0 {
        2
    } else if 0xE0 <= b && b < 0xF0 {
        3
    } else if 0xF0 <= b && b < 0xF5 {
        4
    } else {
        0
    }
}

/// Whether `b1` may follow the lead byte `b0`, ruling out overlong forms,
/// surrogates, and code points past U+10FFFF.
pub open spec fn valid_second(b0: u8, b1: u8) -> bool {
    &&& is_cont_byte(b1)
    &&& (b0 == 0xE0 ==> b1 >= 0xA0)
    &&& (b0 == 0xED ==> b1 < 0xA0)
    &&& (b0 == 0xF0 ==> b1 >= 0x90)
    &&& (b0 == 0xF4 ==> b1 < 0x90)
}

/// `s` is exactly one complete, valid encoded character.
pub open spec fn is_complete_seq(s: Seq<u8>) -> bool {
    &&& s.len() >= 1
    &&& s.len() == lead_len(s[0])
    &&& (s.len() >= 2 ==> valid_second(s[0], s[1]))
    &&& (s.len() >= 3 ==> is_cont_byte(s[2]))
    &&& (s.len() >= 4 ==> is_cont_byte(s[3]))
}

/// `s` is a nonempty strict prefix of some complete sequence: more bytes
/// could still turn it into a valid character.
pub open spec fn is_partial_seq(s: Seq<u8>) -> bool {
    &&& s.len() >= 1
    &&& s.len() < lead_len(s[0])
    &&& (s.len() >= 2 ==> valid_second(s[0], s[1]))
    &&& (s.len() >= 3 ==> is_cont_byte(s[2]))
}

/// The UTF-8 encoding of U+FFFD, substituted for each invalid byte.
pub open spec fn replacement_bytes() -> Seq<u8> {
    seq![0xEFu8, 0xBFu8, 0xBDu8]
}

/// What decoding a byte stream yields: the well-formed text emitted, and
/// the trailing incomplete sequence still waiting for more bytes.
pub ghost struct DecodeOutcome {
    pub emitted: Seq<u8>,
    pub pending: Seq<u8>,
}

/// Decodes a whole byte stream: complete characters pass through verbatim,
/// each invalid byte becomes U+FFFD, and a trailing strict prefix of a
/// multi-byte character is withheld as pending rather than emitted.
pub open spec fn utf8_decode(s: Seq<u8>) -> DecodeOutcome
    decreases s.len(),
{
    if s.len() == 0 {
        DecodeOutcome { emitted: Seq::empty(), pending: Seq::empty() }
    } else {
        let k = lead_len(s[0]);
        if 1 <= k && k <= s.len() && is_complete_seq(s.take(k)) {
            let rest = utf8_decode(s.skip(k));
            DecodeOutcome { emitted: s.take(k) + rest.emitted, pending: rest.pending }
        } else if is_partial_seq(s) {
            DecodeOutcome { emitted: Seq::empty(), pending: s }
        } else {
            let rest = utf8_decode(s.skip(1));
            DecodeOutcome { emitted: replacement_bytes() + rest.emitted, pending: rest.pending }
        }
    }
}

/// `s` is a concatenation of complete, valid encoded characters — text
/// safe to hand to any UTF-8 consumer.
pub open spec fn is_valid_utf8(s: Seq<u8>) -> bool
    decreases s.len(),
{
    if s.len() == 0 {
        true
    } else {
        let k = lead_len(s[0]);
        &&& 1 <= k && k <= s.len()
        &&& is_complete_seq(s.take(k))
        &&& is_valid_utf8(s.skip(k))
    }
}

/// One complete character is on its own well-formed text.
proof fn lemma_complete_is_valid(v: Seq<u8>)
    requires
        is_complete_seq(v),
    ensures
        is_valid_utf8(v),
{
    let k = lead_len(v[0]);
    assert(k == v.len());
    assert(v.take(k) =~= v);
    assert(v.skip(k) =~= Seq::<u8>::empty());
    assert(is_valid_utf8(Seq::<u8>::empty()));
}

/// Prepending one complete character keeps a byte sequence valid.
proof fn lemma_valid_prepend(u: Seq<u8>, v: Seq<u8>)
    requires
        is_complete_seq(u),
        is_valid_utf8(v),
    ensures
        is_valid_utf8(u + v),
{
    let s = u + v;
    assert(s[0] == u[0]);
    assert(s.len() == u.len() + v.len());
    assert(s.take(u.len() as int) =~= u);
    assert(s.skip(u.len() as int) =~= v);
}

/// What the decoder emits is always well-formed text: it never emits a
/// malformed byte, whatever the input stream held.
pub proof fn lemma_decode_emits_valid(s: Seq<u8>)
    ensures
        is_valid_utf8(utf8_decode(s).emitted),
    decreases s.len(),
{
    if s.len() == 0 {
    } else {
        let k = lead_len(s[0]);
        if 1 <= k && k <= s.len() && is_complete_seq(s.take(k)) {
            lemma_decode_emits_valid(s.skip(k));
            lemma_valid_prepend(s.take(k), utf8_decode(s.skip(k)).emitted);
        } else if is_partial_seq(s) {
            assert(is_valid_utf8(Seq::<u8>::empty()));
        } else {
            lemma_decode_emits_valid(s.skip(1));
            assert(is_complete_seq(replacement_bytes()));
            lemma_valid_prepend(replacement_bytes(), utf8_decode(s.skip(1)).emitted);
        }
    }
}

/// A pending tail decodes to itself: nothing is emitted for it yet.
proof fn lemma_partial_decodes_to_pending(s: Seq<u8>)
    requires
        s.len() == 0 || is_partial_seq(s),
    ensures
        utf8_decode(s).emitted =~= Seq::<u8>::empty(),
        utf8_decode(s).pending =~= s,
{
    if s.len() > 0 {
        assert(s.len() < lead_len(s[0]));
    }
}

/// What one call of a decoder leaves pending is empty or one incomplete
/// character.
proof fn lemma_decode_pending_partial(s: Seq<u8>)
    ensures
        utf8_decode(s).pending.len() == 0 || is_partial_seq(utf8_decode(s).pending),
    decreases s.len(),
{
    if s.len() == 0 {
    } else {
        let k = lead_len(s[0]);
        if 1 <= k && k <= s.len() && is_complete_seq(s.take(k)) {
            lemma_decode_pending_partial(s.skip(k));
        } else if is_partial_seq(s) {
        } else {
            lemma_decode_pending_partial(s.skip(1));
        }
    }
}

/// A whole session of chunk feeds, as the incremental decoder performs
/// it: each chunk is decoded together with the pending tail the previous
/// chunks left behind.
pub open spec fn decode_stream(pending: Seq<u8>, chunks: Seq<Seq<u8>>) -> DecodeOutcome
    decreases chunks.len(),
{
    if chunks.len() == 0 {
        DecodeOutcome { emitted: Seq::empty(), pending }
    } else {
        let head = utf8_decode(pending + chunks.first());
        let rest = decode_stream(head.pending, chunks.drop_first());
        DecodeOutcome { emitted: head.emitted + rest.emitted, pending: rest.pending }
    }
}

/// Chunk boundaries never change what is decoded: decoding `a` and then
/// feeding its pending tail together with `b` emits exactly what decoding
/// the concatenated stream `a + b` emits at once, and leaves the same
/// pending tail.
pub proof fn lemma_decode_append(a: Seq<u8>, b: Seq<u8>)
    ensures
        utf8_decode(a + b).emitted =~= utf8_decode(a).emitted + utf8_decode(
            utf8_decode(a).pending + b,
        ).emitted,
        utf8_decode(a + b).pending =~= utf8_decode(utf8_decode(a).pending + b).pending,
    decreases a.len(),
{
    if a.len() == 0 {
        assert(a + b =~= b);
        assert(utf8_decode(a).pending + b =~= b);
    } else {
        let s = a + b;
        assert(s[0] == a[0]);
        let k = lead_len(a[0]);
        if 1 <= k && k <= a.len() && is_complete_seq(a.take(k)) {
            // the first character is complete inside `a` already
            assert(s.take(k) =~= a.take(k));
            assert(s.skip(k) =~= a.skip(k) + b);
            lemma_decode_append(a.skip(k), b);
        } else if is_partial_seq(a) {
            // all of `a` is one incomplete character, handed on whole
            assert(utf8_decode(a).emitted =~= Seq::<u8>::empty());
            assert(utf8_decode(a).pending =~= a);
            assert(utf8_decode(a).pending + b =~= a + b);
        } else {
            // `a`'s first byte is invalid, in `a + b` just as in `a` alone
            assert(!(1 <= k && k <= a.len() && is_complete_seq(a.take(k))));
            if 1 <= k && k <= s.len() && is_complete_seq(s.take(k)) {
                // a complete character at the front of `a + b` would make
                // `a` itself complete-led or partial
                if k <= a.len() {
                    assert(a.take(k) =~= s.take(k));
                    assert(false);
                } else {
                    assert(a.len() < k);
                    assert(forall|i: int| 0 <= i < a.len() ==> a[i] == s.take(k)[i]);
                    assert(is_partial_seq(a));
                    assert(false);
                }
            }
            if is_partial_seq(s) {
                assert(a.len() <= s.len());
                assert(a.len() < lead_len(a[0]));
                assert(is_partial_seq(a));
                assert(false);
            }
            assert(s.skip(1) =~= a.skip(1) + b);
            lemma_decode_append(a.skip(1), b);
        }
    }
}

/// The length the lead byte `b` announces, 0 for a byte that starts no
/// character.
fn utf8_lead_len(b: u8) -> (k: usize)
    ensures
        k as int == lead_len(b),
{
    if b < 0x80 {
        1
    } else if 0xC2 <= b && b < 0xE0 {
        2
    } else if 0xE0 <= b && b < 0xF0 {
        3
    } else if 0xF0 <= b && b < 0xF5 {
        4
    } else {
        0
    }
}

/// Whether `b1` may follow the lead byte `b0`.
fn utf8_valid_second(b0: u8, b1: u8) -> (r: bool)
    ensures
        r == valid_second(b0, b1),
{
    if !(0x80 <= b1 && b1 < 0xC0) {
        return false;
    }
    if b0 == 0xE0 && b1 < 0xA0 {
        return false;
    }
    if b0 == 0xED && b1 >= 0xA0 {
        return false;
    }
    if b0 == 0xF0 && b1 < 0x90 {
        return false;
    }
    if b0 == 0xF4 && b1 >= 0x90 {
        return false;
    }
    true
}

/// Appends the UTF-8 encoding of U+FFFD.
fn push_replacement(out: &mut Vec<u8>)
    ensures
        final(out)@ =~= old(out)@ + replacement_bytes(),
{
    out.push(0xEF);
    out.push(0xBF);
    out.push(0xBD);
}

/// Stateful byte-to-text converter. It carries at most 3 buffered bytes of
/// a not-yet-complete multi-byte character between calls; it lives for one
/// generation call and is discarded with whatever is still buffered.
pub struct Utf8Decoder {
    pending: Vec<u8>,
}

impl Utf8Decoder {
    /// The buffered incomplete tail.
    pub closed spec fn view(&self) -> Seq<u8> {
        self.pending@
    }

    /// The buffer is empty or a strict prefix of one valid character — so
    /// it never holds more than 3 bytes.
    pub open spec fn wf(&self) -> bool {
        self@.len() == 0 || is_partial_seq(self@)
    }

    /// A fresh decoder with nothing buffered.
    pub fn new() -> (d: Self)
        ensures
            d@ =~= Seq::<u8>::empty(),
            d.wf(),
    {
        Utf8Decoder { pending: Vec::new() }
    }

    /// Feeds one chunk of raw bytes and returns the well-formed text it
    /// completes: exactly what whole-stream decoding emits for the
    /// buffered tail followed by `chunk`, with the new incomplete tail
    /// buffered for the next call.
    pub fn push(&mut self, chunk: &Vec<u8>) -> (out: Vec<u8>)
        requires
            old(self).wf(),
        ensures
            final(self).wf(),
            out@ =~= utf8_decode(old(self)@ + chunk@).emitted,
            final(self)@ =~= utf8_decode(old(self)@ + chunk@).pending,
            is_valid_utf8(out@),
    {
        let mut combined: Vec<u8> = Vec::new();
        let mut p: usize = 0;
        while p < self.pending.len()
            invariant
                p <= self.pending@.len(),
                combined@ =~= self.pending@.take(p as int),
            decreases self.pending@.len() - p,
        {
            combined.push(self.pending[p]);
            p = p + 1;
        }
        let mut q: usize = 0;
        while q < chunk.len()
            invariant
                q <= chunk@.len(),
                combined@ =~= self.pending@ + chunk@.take(q as int),
            decreases chunk@.len() - q,
        {
            proof {
                assert(self.pending@.take(self.pending@.len() as int) =~= self.pending@);
            }
            combined.push(chunk[q]);
            q = q + 1;
        }
        proof {
            assert(self.pending@.take(self.pending@.len() as int) =~= self.pending@);
            assert(chunk@.take(chunk@.len() as int) =~= chunk@);
            assert(combined@ =~= old(self)@ + chunk@);
        }
        let ghost whole = combined@;
        let n = combined.len();
        let mut out: Vec<u8> = Vec::new();
        let mut i: usize = 0;
        let mut stopped = false;
        proof {
            assert(whole.skip(0) =~= whole);
            assert(out@ =~= Seq::<u8>::empty());
            assert(is_valid_utf8(out@));
        }
        while i < n && !stopped
            invariant
                n == whole.len(),
                whole == combined@,
                i <= n,
                utf8_decode(whole).emitted =~= out@ + utf8_decode(whole.skip(i as int)).emitted,
                utf8_decode(whole).pending =~= utf8_decode(whole.skip(i as int)).pending,
                stopped ==> is_partial_seq(whole.skip(i as int)),
                is_valid_utf8(out@),
            decreases n - i, (if stopped { 0int } else { 1int }),
        {
            let ghost s = whole.skip(i as int);
            proof {
                assert(s.len() == n - i);
                assert(s[0] == whole[i as int]);
            }
            let b0 = combined[i];
            let k = utf8_lead_len(b0);
            let rem = n - i;
            if k >= 1 && rem >= k {
                let ok1 = if k >= 2 {
                    utf8_valid_second(b0, combined[i + 1])
                } else {
                    true
                };
                let ok2 = if k >= 3 {
                    let b2 = combined[i + 2];
                    0x80 <= b2 && b2 < 0xC0
                } else {
                    true
                };
                let ok3 = if k >= 4 {
                    let b3 = combined[i + 3];
                    0x80 <= b3 && b3 < 0xC0
                } else {
                    true
                };
                if ok1 && ok2 && ok3 {
                    // one complete character: pass its bytes through
                    proof {
                        assert(s.take(k as int).len() == k as int);
                        assert(forall|m: int|
                            0 <= m < k as int ==> s.take(k as int)[m] == whole[i as int + m]);
                        assert(is_complete_seq(s.take(k as int)));
                    }
                    let ghost out_before = out@;
                    let mut j: usize = 0;
                    while j < k
                        invariant
                            j <= k,
                            1 <= k,
                            i + k <= n,
                            n == whole.len(),
                            whole == combined@,
                            out@ =~= out_before + whole.skip(i as int).take(k as int).take(
                                j as int,
                            ),
                        decreases k - j,
                    {
                        let by = combined[i + j];
                        proof {
                            assert(whole.skip(i as int).take(k as int)[j as int] == whole[i as int
                                + j as int]);
                            assert(whole.skip(i as int).take(k as int).take(j as int).push(by)
                                =~= whole.skip(i as int).take(k as int).take(j as int + 1));
                        }
                        out.push(by);
                        j = j + 1;
                    }
                    proof {
                        assert(s.take(k as int).take(k as int) =~= s.take(k as int));
                        assert(utf8_decode(s).emitted =~= s.take(k as int) + utf8_decode(
                            s.skip(k as int),
                        ).emitted);
                        assert(utf8_decode(s).pending =~= utf8_decode(s.skip(k as int)).pending);
                        assert(whole.skip(i as int + k as int) =~= s.skip(k as int));
                        assert(out@ + utf8_decode(whole.skip(i as int + k as int)).emitted
                            =~= out_before + utf8_decode(s).emitted);
                        lemma_valid_append_char(out_before, s.take(k as int));
                    }
                    i = i + k;
                } else {
                    // the announced sequence is broken: replace the lead
                    proof {
                        assert(!is_complete_seq(s.take(k as int)));
                        assert(!is_partial_seq(s));
                        lemma_step_replacement(whole, i as int, out@);
                    }
                    push_replacement(&mut out);
                    i = i + 1;
                }
            } else if k >= 2 && rem < k {
                let ok1 = if rem >= 2 {
                    utf8_valid_second(b0, combined[i + 1])
                } else {
                    true
                };
                let ok2 = if rem >= 3 {
                    let b2 = combined[i + 2];
                    0x80 <= b2 && b2 < 0xC0
                } else {
                    true
                };
                if ok1 && ok2 {
                    // a trailing strict prefix of a character: buffer it
                    proof {
                        assert(is_partial_seq(s));
                    }
                    stopped = true;
                } else {
                    proof {
                        assert(!(1 <= lead_len(s[0]) && lead_len(s[0]) <= s.len()));
                        assert(!is_partial_seq(s));
                        lemma_step_replacement(whole, i as int, out@);
                    }
                    push_replacement(&mut out);
                    i = i + 1;
                }
            } else {
                // a byte that can start nothing: replace it
                proof {
                    assert(lead_len(s[0]) == 0);
                    assert(!is_partial_seq(s));
                    lemma_step_replacement(whole, i as int, out@);
                }
                push_replacement(&mut out);
                i = i + 1;
            }
        }
        let mut pend: Vec<u8> = Vec::new();
        let mut t: usize = i;
        while t < n
            invariant
                i <= t <= n,
                n == whole.len(),
                whole == combined@,
                pend@ =~= whole.subrange(i as int, t as int),
            decreases n - t,
        {
            pend.push(combined[t]);
            t = t + 1;
        }
        proof {
            assert(pend@ =~= whole.skip(i as int));
            if stopped {
                lemma_partial_decodes_to_pending(whole.skip(i as int));
            } else {
                assert(i == n);
                assert(whole.skip(i as int) =~= Seq::<u8>::empty());
                lemma_partial_decodes_to_pending(whole.skip(i as int));
            }
            assert(utf8_decode(whole).emitted =~= out@);
            assert(utf8_decode(whole).pending =~= pend@);
        }
        self.pending = pend;
        out
    }
}

/// Appending one complete character to well-formed text keeps it
/// well-formed.
proof fn lemma_valid_append_char(u: Seq<u8>, v: Seq<u8>)
    requires
        is_valid_utf8(u),
        is_complete_seq(v),
    ensures
        is_valid_utf8(u + v),
    decreases u.len(),
{
    if u.len() == 0 {
        assert(u + v =~= v);
        lemma_complete_is_valid(v);
        assert(is_valid_utf8(u + v));
    } else {
        let k = lead_len(u[0]);
        assert((u + v)[0] == u[0]);
        assert((u + v).take(k) =~= u.take(k));
        assert((u + v).skip(k) =~= u.skip(k) + v);
        assert(is_valid_utf8(u.skip(k)));
        lemma_valid_append_char(u.skip(k), v);
        assert(is_valid_utf8((u + v).skip(k)));
        assert(is_complete_seq((u + v).take(k)));
        assert(is_valid_utf8(u + v));
    }
}

/// One replacement step of the decoder: when the byte at `i` neither
/// starts a complete character nor a trailing prefix of one, the stream
/// decodes to U+FFFD followed by the rest.
proof fn lemma_step_replacement(whole: Seq<u8>, i: int, outv: Seq<u8>)
    requires
        0 <= i < whole.len(),
        !(1 <= lead_len(whole.skip(i)[0]) && lead_len(whole.skip(i)[0]) <= whole.skip(i).len()
            && is_complete_seq(whole.skip(i).take(lead_len(whole.skip(i)[0])))),
        !is_partial_seq(whole.skip(i)),
        utf8_decode(whole).emitted =~= outv + utf8_decode(whole.skip(i)).emitted,
        utf8_decode(whole).pending =~= utf8_decode(whole.skip(i)).pending,
        is_valid_utf8(outv),
    ensures
        utf8_decode(whole).emitted =~= (outv + replacement_bytes()) + utf8_decode(
            whole.skip(i + 1),
        ).emitted,
        utf8_decode(whole).pending =~= utf8_decode(whole.skip(i + 1)).pending,
        is_valid_utf8(outv + replacement_bytes()),
{
    let s = whole.skip(i);
    assert(s.len() >= 1);
    assert(utf8_decode(s).emitted =~= replacement_bytes() + utf8_decode(s.skip(1)).emitted);
    assert(utf8_decode(s).pending =~= utf8_decode(s.skip(1)).pending);
    assert(whole.skip(i + 1) =~= s.skip(1));
    assert(is_complete_seq(replacement_bytes()));
    lemma_valid_append_char(outv, replacement_bytes());
    assert((outv + replacement_bytes()) + utf8_decode(s.skip(1)).emitted =~= outv + (
    replacement_bytes() + utf8_decode(s.skip(1)).emitted));
}


/// However a byte stream is cut into chunks, feeding the chunks one by
/// one emits, in total, exactly what decoding the whole concatenated
/// stream at once emits, and leaves the same incomplete tail pending —
/// which is discarded, never emitted, when the call ends.
pub proof fn lemma_chunked_decode_matches_whole_stream(pending: Seq<u8>, chunks: Seq<Seq<u8>>)
    requires
        pending.len() == 0 || is_partial_seq(pending),
    ensures
        decode_stream(pending, chunks).emitted =~= utf8_decode(pending + chunks.flatten()).emitted,
        decode_stream(pending, chunks).pending =~= utf8_decode(pending + chunks.flatten()).pending,
    decreases chunks.len(),
{
    if chunks.len() == 0 {
        assert(pending + chunks.flatten() =~= pending);
        lemma_partial_decodes_to_pending(pending);
    } else {
        let a = pending + chunks.first();
        let b = chunks.drop_first().flatten();
        let head = utf8_decode(a);
        lemma_decode_pending_partial(a);
        lemma_chunked_decode_matches_whole_stream(head.pending, chunks.drop_first());
        lemma_decode_append(a, b);
        assert(pending + chunks.flatten() =~= a + b);
        assert(decode_stream(pending, chunks).emitted =~= head.emitted + decode_stream(
            head.pending,
            chunks.drop_first(),
        ).emitted);
        assert(head.emitted + utf8_decode(head.pending + b).emitted =~= utf8_decode(
            a + b,
        ).emitted);
    }
}

} // verus!
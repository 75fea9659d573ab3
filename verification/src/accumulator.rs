use vstd::prelude::*;
use vstd::slice::slice_subrange;
use crate::ser::spec_ser_bytes;
use crate::roundtrip::lemma_bytes_roundtrip;
use crate::framing::{cobs_decoding, spec_from_bytes_cobs, from_bytes_cobs_byte_vec, zero_free};

verus! {

/// The index of the first zero byte of `s`, if there is one.
pub open spec fn first_zero(s: Seq<u8>) -> Option<nat>
    decreases s.len(),
{
    if s.len() == 0 {
        None
    } else if s[0] == 0 {
        Some(0)
    } else {
        match first_zero(s.drop_first()) {
            Some(i) => Some(i + 1),
            None => None,
        }
    }
}

/// The first zero is inside `s`, is a zero, and no byte before it is one.
pub proof fn lemma_first_zero(s: Seq<u8>)
    ensures
        first_zero(s) matches Some(n) ==> n < s.len() && s[n as int] == 0 && zero_free(s.take(n as int)),
        first_zero(s) is None ==> zero_free(s),
    decreases s.len(),
{
    if s.len() > 0 && s[0] != 0 {
        lemma_first_zero(s.drop_first());
        if let Some(n) = first_zero(s.drop_first()) {
            let t = s.take((n + 1) as int);
            assert forall|i: int| 0 <= i < t.len() implies t[i] != 0 by {
                if i > 0 {
                    assert(t[i] == s.drop_first().take(n as int)[i - 1]);
                }
            }
        } else {
            assert forall|i: int| 0 <= i < s.len() implies s[i] != 0 by {
                if i > 0 {
                    assert(s[i] == s.drop_first()[i - 1]);
                }
            }
        }
    }
}

/// What a call of [`CobsAccumulator::feed`] reports, with slices and vectors taken by
/// their contents.
pub enum FeedOutcome {
    Consumed,
    OverFull(Seq<u8>),
    DeserError(Seq<u8>),
    Success(Seq<u8>, Seq<u8>),
}

/// The result of feeding a chunk of input to a [`CobsAccumulator`].
pub enum FeedResult<'a> {
    /// All the input was buffered; no frame is complete yet.
    Consumed,
    /// The frame did not fit in the buffer and was dropped; the input that followed the
    /// dropped part is returned.
    OverFull(&'a [u8]),
    /// A frame was complete but did not decode; the input after it is returned.
    DeserError(&'a [u8]),
    /// A frame was complete and decoded to `data`; the input after it is returned.
    Success { data: Vec<u8>, remaining: &'a [u8] },
}

impl<'a> FeedResult<'a> {
    /// This result with its slices and vectors taken by their contents.
    pub open spec fn outcome(&self) -> FeedOutcome {
        match self {
            FeedResult::Consumed => FeedOutcome::Consumed,
            FeedResult::OverFull(rest) => FeedOutcome::OverFull(rest@),
            FeedResult::DeserError(rest) => FeedOutcome::DeserError(rest@),
            FeedResult::Success { data, remaining } => FeedOutcome::Success(data@, remaining@),
        }
    }
}

/// What feeding `input` to an accumulator of capacity `cap` that holds `pending` does:
/// the bytes held afterwards and the outcome. Input up to and including the first zero
/// closes a frame; a frame that does not fit in `cap` bytes is dropped whole.
pub open spec fn spec_feed(pending: Seq<u8>, cap: nat, input: Seq<u8>) -> (Seq<u8>, FeedOutcome) {
    if input.len() == 0 {
        (pending, FeedOutcome::Consumed)
    } else {
        match first_zero(input) {
            Some(n) => {
                let take = input.take((n + 1) as int);
                let release = input.skip((n + 1) as int);
                if pending.len() + take.len() <= cap {
                    (
                        Seq::empty(),
                        match spec_from_bytes_cobs(pending + take) {
                            Ok(data) => FeedOutcome::Success(data, release),
                            Err(_) => FeedOutcome::DeserError(release),
                        },
                    )
                } else {
                    (Seq::empty(), FeedOutcome::OverFull(release))
                }
            },
            None => if pending.len() + input.len() > cap {
                (Seq::empty(), FeedOutcome::OverFull(input.skip(cap - pending.len())))
            } else {
                (pending + input, FeedOutcome::Consumed)
            },
        }
    }
}

/// Collects the bytes of COBS frames that arrive in chunks, in a buffer of `N` bytes,
/// and deserializes each complete frame as a `Vec<u8>`.
pub struct CobsAccumulator<const N: usize> {
    buf: [u8; N],
    idx: usize,
}

impl<const N: usize> CobsAccumulator<N> {
    #[verifier::type_invariant]
    spec fn inv(&self) -> bool {
        self.idx <= N
    }

    /// The bytes of the frame received so far.
    pub closed spec fn pending(&self) -> Seq<u8> {
        self.buf@.take(self.idx as int)
    }

    /// An empty accumulator.
    pub fn new() -> (r: Self)
        ensures
            r.pending() == Seq::<u8>::empty(),
    {
        CobsAccumulator { buf: [0u8; N], idx: 0 }
    }

    /// Appends `input` to the held bytes.
    fn extend_unchecked(&mut self, input: &[u8])
        requires
            old(self).pending().len() + input@.len() <= N,
        ensures
            final(self).pending() == old(self).pending() + input@,
    {
        proof {
            use_type_invariant(&*self);
        }
        let ghost start = self.pending();
        let mut i: usize = 0;
        while i < input.len()
            invariant
                i <= input@.len(),
                self.idx + input@.len() <= N,
                self.buf@.len() == N,
                self.buf@.take(self.idx + i) == start + input@.take(i as int),
                start == self.buf@.take(self.idx as int),
            decreases input@.len() - i,
        {
            let ghost before = self.buf@;
            let ghost prev = i;
            self.buf[self.idx + i] = input[i];
            assert(self.buf@ == before.update(self.idx + prev, input@[prev as int]));
            i = i + 1;
            assert(self.buf@.take(self.idx + i) =~= before.take(self.idx + prev).push(input@[prev as int]));
            assert(input@.take(i as int) =~= input@.take(prev as int).push(input@[prev as int]));
            assert(self.buf@.take(self.idx + i) =~= start + input@.take(i as int));
            assert(self.buf@.take(self.idx as int) =~= before.take(self.idx as int));
        }
        self.idx = self.idx + input.len();
        assert(input@.take(i as int) =~= input@);
    }

    /// Feeds a chunk of input. Bytes up to and including the first zero close the frame
    /// being collected: if it fits it is decoded and reported (`Success` or `DeserError`),
    /// otherwise it is dropped (`OverFull`). Without a zero the chunk is buffered
    /// (`Consumed`), unless it does not fit, in which case the frame is dropped and the
    /// part of the chunk beyond the buffer's room is returned (`OverFull`).
    pub fn feed<'a>(&mut self, input: &'a [u8]) -> (r: FeedResult<'a>)
        ensures
            spec_feed(old(self).pending(), N as nat, input@) == (final(self).pending(), r.outcome()),
            final(self).pending().len() <= N,
    {
        proof {
            use_type_invariant(&*self);
        }
        if input.len() == 0 {
            return FeedResult::Consumed;
        }
        proof {
            lemma_first_zero(input@);
        }
        match find_zero(input) {
            Some(n) => {
                let take = slice_subrange(input, 0, n + 1);
                let release = slice_subrange(input, n + 1, input.len());
                if take.len() <= N - self.idx {
                    self.extend_unchecked(take);
                    proof {
                        use_type_invariant(&*self);
                    }
                    let retval = match from_bytes_cobs_byte_vec(&mut self.buf, self.idx) {
                        Ok(t) => FeedResult::Success { data: t, remaining: release },
                        Err(_) => FeedResult::DeserError(release),
                    };
                    self.idx = 0;
                    assert(self.pending() =~= Seq::<u8>::empty());
                    retval
                } else {
                    self.idx = 0;
                    assert(self.pending() =~= Seq::<u8>::empty());
                    FeedResult::OverFull(release)
                }
            },
            None => {
                if input.len() > N - self.idx {
                    let new_start = N - self.idx;
                    self.idx = 0;
                    assert(self.pending() =~= Seq::<u8>::empty());
                    FeedResult::OverFull(slice_subrange(input, new_start, input.len()))
                } else {
                    self.extend_unchecked(input);
                    FeedResult::Consumed
                }
            },
        }
    }
}

/// A complete frame that holds a serialized byte string, fed to an empty accumulator in
/// one chunk, is delivered whole when it fits in `cap` bytes, with nothing left over;
/// otherwise it is dropped, again with nothing left over. The accumulator is empty
/// afterwards either way.
pub proof fn lemma_feed_whole_frame(frame: Seq<u8>, payload: Seq<u8>, cap: nat)
    requires
        frame.len() >= 1,
        frame.last() == 0,
        zero_free(frame.drop_last()),
        cobs_decoding(frame) == Some(spec_ser_bytes(payload)),
        payload.len() <= usize::MAX,
    ensures
        spec_feed(Seq::empty(), cap, frame) == (if frame.len() <= cap {
            (Seq::<u8>::empty(), FeedOutcome::Success(payload, Seq::empty()))
        } else {
            (Seq::<u8>::empty(), FeedOutcome::OverFull(Seq::empty()))
        }),
{
    lemma_first_zero(frame);
    let last = (frame.len() - 1) as nat;
    match first_zero(frame) {
        Some(n) => {
            if n < last {
                assert(frame.drop_last()[n as int] == frame[n as int]);
            }
            assert(n == last);
        },
        None => {
            assert(frame[last as int] == 0);
        },
    }
    assert(frame.take(frame.len() as int) =~= frame);
    assert(frame.skip(frame.len() as int) =~= Seq::<u8>::empty());
    assert(Seq::<u8>::empty() + frame =~= frame);
    lemma_bytes_roundtrip(payload, Seq::empty());
    assert(spec_ser_bytes(payload) + Seq::<u8>::empty() =~= spec_ser_bytes(payload));
}

/// What feeding leaves behind and hands back, for every held prefix and input:
/// - the accumulator never holds more than its capacity;
/// - only `Consumed` keeps bytes: then the input had no zero and is appended to what was
///   held;
/// - `Success`, `DeserError` and `OverFull` leave the accumulator empty;
/// - when the input holds a zero, every outcome but `Consumed` hands back exactly the
///   input after its first zero, and none of it is kept;
/// - when it holds none, `OverFull` hands back a suffix of the input, the part beyond the
///   room that was left.
pub proof fn lemma_feed_laws(pending: Seq<u8>, cap: nat, input: Seq<u8>)
    requires
        pending.len() <= cap,
    ensures
        ({
            let (after, out) = spec_feed(pending, cap, input);
            &&& after.len() <= cap
            &&& out is Consumed ==> after == pending + input && zero_free(input)
            &&& !(out is Consumed) ==> after == Seq::<u8>::empty()
            &&& first_zero(input) matches Some(k) ==> match out {
                FeedOutcome::Consumed => false,
                FeedOutcome::OverFull(rest) => rest == input.skip((k + 1) as int) && input[k as int] == 0
                    && zero_free(input.take(k as int)),
                FeedOutcome::DeserError(rest) => rest == input.skip((k + 1) as int) && input[k as int]
                    == 0 && zero_free(input.take(k as int)),
                FeedOutcome::Success(_, rest) => rest == input.skip((k + 1) as int) && input[k as int]
                    == 0 && zero_free(input.take(k as int)),
            }
            &&& first_zero(input) is None ==> match out {
                FeedOutcome::OverFull(rest) => pending.len() + input.len() > cap && rest
                    == input.skip(cap - pending.len()) && rest.len() == pending.len()
                    + input.len() - cap,
                FeedOutcome::Consumed => pending.len() + input.len() <= cap,
                _ => false,
            }
        }),
{
    lemma_first_zero(input);
    if input.len() == 0 {
        assert(pending + input =~= pending);
    }
}

/// Every frame is delivered on its own: after any call of `feed` that does not just
/// buffer its input (one that reports `Success`, `DeserError` or `OverFull`), a complete
/// frame of a serialized byte string that fits is then delivered whole, with nothing left
/// over.
pub proof fn lemma_feed_after_close(
    pending: Seq<u8>,
    cap: nat,
    input: Seq<u8>,
    frame: Seq<u8>,
    payload: Seq<u8>,
)
    requires
        pending.len() <= cap,
        !(spec_feed(pending, cap, input).1 is Consumed),
        frame.len() >= 1,
        frame.len() <= cap,
        frame.last() == 0,
        zero_free(frame.drop_last()),
        cobs_decoding(frame) == Some(spec_ser_bytes(payload)),
        payload.len() <= usize::MAX,
    ensures
        spec_feed(spec_feed(pending, cap, input).0, cap, frame) == (
            Seq::<u8>::empty(),
            FeedOutcome::Success(payload, Seq::empty()),
        ),
{
    lemma_feed_laws(pending, cap, input);
    lemma_feed_whole_frame(frame, payload, cap);
}

/// Past a stretch without zeros, the first zero is the first zero of what follows.
pub proof fn lemma_first_zero_concat(a: Seq<u8>, b: Seq<u8>)
    requires
        zero_free(a),
    ensures
        first_zero(a + b) == match first_zero(b) {
            Some(n) => Some(n + a.len()),
            None => None::<nat>,
        },
    decreases a.len(),
{
    if a.len() > 0 {
        assert((a + b).drop_first() =~= a.drop_first() + b);
        assert(zero_free(a.drop_first())) by {
            assert forall|i: int| 0 <= i < a.drop_first().len() implies a.drop_first()[i] != 0 by {
                assert(a.drop_first()[i] == a[i + 1]);
            }
        }
        lemma_first_zero_concat(a.drop_first(), b);
    } else {
        assert(a + b =~= b);
    }
}

/// Splitting the input does not matter: feeding a chunk without zeros that fits, then the
/// rest, ends in the same state with the same outcome as feeding both at once; the first
/// chunk is just buffered.
pub proof fn lemma_feed_split(pending: Seq<u8>, cap: nat, a: Seq<u8>, b: Seq<u8>)
    requires
        zero_free(a),
        a.len() > 0,
        b.len() > 0,
        pending.len() + a.len() <= cap,
    ensures
        spec_feed(pending, cap, a) == (pending + a, FeedOutcome::Consumed),
        spec_feed(pending + a, cap, b) == spec_feed(pending, cap, a + b),
{
    lemma_first_zero_concat(a, Seq::empty());
    assert(a + Seq::<u8>::empty() =~= a);
    lemma_first_zero_concat(a, b);
    let ab = a + b;
    match first_zero(b) {
        Some(n) => {
            lemma_first_zero(b);
            assert(ab.take((n + a.len() + 1) as int) =~= a + b.take((n + 1) as int));
            assert(ab.skip((n + a.len() + 1) as int) =~= b.skip((n + 1) as int));
            assert(pending + a + b.take((n + 1) as int) =~= pending + ab.take((n + a.len() + 1) as int));
        },
        None => {
            if pending.len() + ab.len() > cap {
                assert(ab.skip(cap - pending.len()) =~= b.skip(cap - (pending + a).len()));
            }
            assert(pending + a + b =~= pending + ab);
        },
    }
}

/// The index of the first zero byte of `s`, if there is one.
pub fn find_zero(s: &[u8]) -> (r: Option<usize>)
    ensures
        match first_zero(s@) {
            Some(n) => r == Some(n as usize),
            None => r is None,
        },
{
    let mut i: usize = 0;
    assert(s@.skip(0) =~= s@);
    while i < s.len()
        invariant
            i <= s@.len(),
            first_zero(s@) == match first_zero(s@.skip(i as int)) {
                Some(n) => Some((n + i) as nat),
                None => None::<nat>,
            },
        decreases s@.len() - i,
    {
        if s[i] == 0 {
            return Some(i);
        }
        assert(s@.skip(i as int).drop_first() =~= s@.skip(i + 1));
        i = i + 1;
    }
    None
}

} // verus!

//! The text that patterns are matched against, and the way back from its
//! offsets to offsets in the raw output.
//!
//! Output is decoded lossily: each invalid UTF-8 sequence becomes one U+FFFD
//! (three bytes of text), so text offsets drift from raw offsets once the
//! output holds invalid bytes. The decoding is kept as runs, each either
//! valid bytes taken as they are or one replacement, and text offsets are
//! mapped back through them.
use vstd::prelude::*;
use vstd::utf8::{decode_utf8, encode_utf8, valid_utf8};
use crate::encoding::{str_from_utf8, utf8_error_info};
use crate::expect::buffer::slice_to_vec;
use crate::text::{push_char, push_str};

verus! {

/// The replacement character.
pub open spec fn replacement() -> Seq<char> {
    seq!['\u{FFFD}']
}

/// One run of a decoding: whether it is valid bytes taken as they are, how
/// many raw bytes it covers, and its text.
pub type Run = (bool, int, Seq<char>);

/// The runs of the lossy decoding of `b`, following where
/// `std::str::from_utf8` reports each error.
pub open spec fn runs_of(b: Seq<u8>) -> Seq<Run>
    decreases b.len(),
{
    if b.len() == 0 {
        Seq::empty()
    } else {
        match utf8_error_info(b) {
            None => seq![(true, b.len() as int, decode_utf8(b))],
            Some((v, e)) => {
                let pre: Seq<Run> = if 0 < v <= b.len() {
                    seq![(true, v, decode_utf8(b.take(v)))]
                } else {
                    Seq::empty()
                };
                match e {
                    Some(n) => if 1 <= n && 0 <= v && v + n <= b.len() {
                        pre.push((false, n, replacement())) + runs_of(b.skip(v + n))
                    } else {
                        pre.push((false, b.len() - v, replacement()))
                    },
                    None => pre.push((false, b.len() - v, replacement())),
                }
            },
        }
    }
}

/// The text of the runs, in order.
pub open spec fn runs_text(rs: Seq<Run>) -> Seq<char>
    decreases rs.len(),
{
    if rs.len() == 0 {
        Seq::empty()
    } else {
        rs[0].2 + runs_text(rs.drop_first())
    }
}

/// How many bytes of text a run makes.
pub open spec fn run_text_len(r: Run) -> int {
    if r.0 {
        r.1
    } else {
        3
    }
}

/// The raw offset of text offset `d`, for runs starting at text offset
/// `dec` and raw offset `raw`: the start of the last run that begins at or
/// before `d`, moved on by `d` inside valid bytes, or past the bytes a
/// replacement stands for.
pub open spec fn map_offset(rs: Seq<Run>, d: int, dec: int, raw: int) -> int
    decreases rs.len(),
{
    if rs.len() == 0 {
        raw
    } else if rs.len() > 1 && dec + run_text_len(rs[0]) <= d {
        map_offset(rs.drop_first(), d, dec + run_text_len(rs[0]), raw + rs[0].1)
    } else if d == dec {
        raw
    } else if rs[0].0 {
        raw + (d - dec)
    } else {
        raw + rs[0].1
    }
}

/// The text patterns see for raw bytes `b`.
pub open spec fn search_chars(b: Seq<u8>) -> Seq<char> {
    if utf8_error_info(b) is None {
        decode_utf8(b)
    } else {
        runs_text(runs_of(b))
    }
}

/// The raw offset (in a buffer where `b` starts at `base`) of text offset `d`.
pub open spec fn search_offset(b: Seq<u8>, base: int, d: int) -> int {
    if utf8_error_info(b) is None {
        base + if d < b.len() { d } else { b.len() as int }
    } else {
        base + map_offset(runs_of(b), d, 0, 0)
    }
}

/// The raw bytes covered by runs before index `k`.
pub open spec fn raw_before(rs: Seq<Run>, k: int) -> int
    decreases k,
{
    if k <= 0 {
        0
    } else {
        raw_before(rs, k - 1) + rs[k - 1].1
    }
}

/// The text bytes made by runs before index `k`.
pub open spec fn text_before(rs: Seq<Run>, k: int) -> int
    decreases k,
{
    if k <= 0 {
        0
    } else {
        text_before(rs, k - 1) + run_text_len(rs[k - 1])
    }
}

/// A run as recorded: where it starts in the text and in the raw bytes,
/// how many raw bytes it covers, and whether it is taken as it is.
#[derive(Debug, Clone, Copy)]
pub struct Segment {
    /// Start in the text.
    pub decoded_start: usize,
    /// Start in the raw bytes.
    pub raw_start: usize,
    /// Raw bytes covered.
    pub raw_len: usize,
    /// Whether the bytes are taken as they are.
    pub verbatim: bool,
}

/// Whether `segs` record the runs `rs` from the start.
pub open spec fn records(segs: Seq<Segment>, rs: Seq<Run>) -> bool {
    &&& segs.len() == rs.len()
    &&& forall|k: int|
        0 <= k < segs.len() ==> {
            &&& (#[trigger] segs[k]).verbatim == rs[k].0
            &&& segs[k].raw_len == rs[k].1
            &&& segs[k].raw_start == raw_before(rs, k)
            &&& segs[k].decoded_start == text_before(rs, k)
        }
}

/// The encoding of a concatenation is the concatenation of encodings.
pub proof fn lemma_encode_concat(a: Seq<char>, b: Seq<char>)
    ensures
        encode_utf8(a + b) == encode_utf8(a) + encode_utf8(b),
    decreases a.len(),
{
    if a.len() == 0 {
        assert(a + b =~= b);
    } else {
        assert((a + b).drop_first() =~= a.drop_first() + b);
        lemma_encode_concat(a.drop_first(), b);
    }
}

/// The replacement character is three bytes.
pub proof fn lemma_replacement_len()
    ensures
        encode_utf8(replacement()).len() == 3,
{
    reveal_with_fuel(encode_utf8, 2);
    assert(replacement().drop_first() =~= Seq::<char>::empty());
}

/// The text of runs is as long (in bytes) as the runs say, for runs whose
/// valid parts decode valid bytes of their stated length.
pub proof fn lemma_runs_text_len(rs: Seq<Run>, k: int)
    requires
        0 <= k <= rs.len(),
        forall|i: int| 0 <= i < rs.len() ==> #[trigger] run_ok(rs[i]),
    ensures
        encode_utf8(runs_text(rs.take(k))).len() == text_before(rs, k),
    decreases k,
{
    if k > 0 {
        lemma_runs_text_len(rs, k - 1);
        lemma_runs_text_snoc(rs, k - 1);
        lemma_encode_concat(runs_text(rs.take(k - 1)), rs[k - 1].2);
        assert(run_ok(rs[k - 1]));
        if !rs[k - 1].0 {
            lemma_replacement_len();
        }
    } else {
        assert(rs.take(0) =~= Seq::<Run>::empty());
    }
}

/// Adding a run adds its text.
pub proof fn lemma_runs_text_snoc(rs: Seq<Run>, k: int)
    requires
        0 <= k < rs.len(),
    ensures
        runs_text(rs.take(k + 1)) == runs_text(rs.take(k)) + rs[k].2,
{
    lemma_runs_text_append(rs.take(k), seq![rs[k]]);
    assert(rs.take(k) + seq![rs[k]] =~= rs.take(k + 1));
    lemma_runs_text_single(rs[k]);
}

/// The text of joined runs is the joined texts.
pub proof fn lemma_runs_text_append(a: Seq<Run>, b: Seq<Run>)
    ensures
        runs_text(a + b) == runs_text(a) + runs_text(b),
    decreases a.len(),
{
    if a.len() == 0 {
        assert(a + b =~= b);
        assert(runs_text(a) + runs_text(b) =~= runs_text(b));
    } else {
        assert((a + b).drop_first() =~= a.drop_first() + b);
        lemma_runs_text_append(a.drop_first(), b);
        assert(runs_text(a) + runs_text(b) =~= a[0].2 + (runs_text(a.drop_first()) + runs_text(b)));
    }
}

/// A run is well made: valid bytes decode to text of their own length, a
/// replacement is one character for at least one byte.
pub open spec fn run_ok(r: Run) -> bool {
    if r.0 {
        r.1 > 0 && encode_utf8(r.2).len() == r.1
    } else {
        r.1 > 0 && r.2 == replacement()
    }
}

/// Prefix sums only look at the runs before the index.
proof fn lemma_before_push_at(rs: Seq<Run>, x: Run, k: int)
    requires
        0 <= k <= rs.len(),
    ensures
        raw_before(rs.push(x), k) == raw_before(rs, k),
        text_before(rs.push(x), k) == text_before(rs, k),
    decreases k,
{
    if k > 0 {
        lemma_before_push_at(rs, x, k - 1);
    }
}

/// Adding a run keeps what was recorded of the runs before it, and records
/// it where they end.
pub proof fn lemma_before_push(rs: Seq<Run>, x: Run)
    ensures
        forall|k: int| 0 <= k <= rs.len() ==> #[trigger] raw_before(rs.push(x), k) == raw_before(rs, k),
        forall|k: int| 0 <= k <= rs.len() ==> #[trigger] text_before(rs.push(x), k) == text_before(rs, k),
{
    assert forall|k: int| 0 <= k <= rs.len() implies #[trigger] raw_before(rs.push(x), k) == raw_before(rs, k) by {
        lemma_before_push_at(rs, x, k);
    }
    assert forall|k: int| 0 <= k <= rs.len() implies #[trigger] text_before(rs.push(x), k) == text_before(rs, k) by {
        lemma_before_push_at(rs, x, k);
    }
}

/// The text of one run is its own.
pub proof fn lemma_runs_text_single(x: Run)
    ensures
        runs_text(seq![x]) == x.2,
{
    reveal_with_fuel(runs_text, 2);
    assert(seq![x].drop_first() =~= Seq::<Run>::empty());
    assert(x.2 + Seq::<char>::empty() =~= x.2);
}

/// Prefix sums of well-made runs grow.
pub proof fn lemma_before_mono(rs: Seq<Run>, k: int, n: int)
    requires
        0 <= k <= n <= rs.len(),
        forall|i: int| 0 <= i < rs.len() ==> #[trigger] run_ok(rs[i]),
    ensures
        raw_before(rs, k) <= raw_before(rs, n),
        text_before(rs, k) <= text_before(rs, n),
    decreases n - k,
{
    if k < n {
        lemma_before_mono(rs, k, n - 1);
        assert(run_ok(rs[n - 1]));
    }
}

/// Skipping past the first runs carries their sums into the offsets.
pub proof fn lemma_map_offset_skip(rs: Seq<Run>, d: int, k: int)
    requires
        0 <= k < rs.len() - 1,
        text_before(rs, k + 1) <= d,
    ensures
        map_offset(rs.skip(k), d, text_before(rs, k), raw_before(rs, k)) == map_offset(
            rs.skip(k + 1),
            d,
            text_before(rs, k + 1),
            raw_before(rs, k + 1),
        ),
{
    assert(rs.skip(k).drop_first() =~= rs.skip(k + 1));
    assert(rs.skip(k)[0] == rs[k]);
}

/// Where the scan stops, the offset is read off the run found.
pub proof fn lemma_map_offset_last(rs: Seq<Run>, d: int, k: int)
    requires
        0 <= k < rs.len(),
        text_before(rs, k) <= d,
        k + 1 == rs.len() || d < text_before(rs, k + 1),
    ensures
        map_offset(rs.skip(k), d, text_before(rs, k), raw_before(rs, k)) == (if d == text_before(rs, k) {
            raw_before(rs, k)
        } else if rs[k].0 {
            raw_before(rs, k) + (d - text_before(rs, k))
        } else {
            raw_before(rs, k) + rs[k].1
        }),
{
    let t = rs.skip(k);
    assert(t[0] == rs[k]);
    assert(t.len() == rs.len() - k);
}

/// The lossy decoding of some bytes, kept with the way back to raw offsets.
pub struct SearchText {
    text: String,
    segments: Option<Vec<Segment>>,
    base: usize,
    raw_len: usize,
    bytes: Ghost<Seq<u8>>,
}

impl SearchText {
    /// The raw bytes decoded.
    pub closed spec fn spec_bytes(&self) -> Seq<u8> {
        self.bytes@
    }

    /// The decoded text.
    pub closed spec fn spec_text(&self) -> Seq<char> {
        self.text@
    }

    /// Where the bytes start in the buffer.
    pub closed spec fn spec_base(&self) -> int {
        self.base as int
    }

    /// The decoding is that of the bytes, and its record of runs is exact.
    pub closed spec fn wf(&self) -> bool {
        &&& self.spec_text() == search_chars(self.bytes@)
        &&& self.raw_len == self.bytes@.len()
        &&& self.base + self.raw_len <= usize::MAX
        &&& (self.segments is None <==> utf8_error_info(self.bytes@) is None)
        &&& self.segments matches Some(v) ==> {
            let rs = runs_of(self.bytes@);
            &&& records(v@, rs)
            &&& forall|i: int| 0 <= i < rs.len() ==> #[trigger] run_ok(rs[i])
            &&& raw_before(rs, rs.len() as int) == self.bytes@.len()
        }
    }

    /// Decode `bytes`, which start at offset `base` of the buffer.
    pub fn decode(bytes: &[u8], base: usize) -> (r: Self)
        requires
            base + bytes@.len() <= usize::MAX,
        ensures
            r.wf(),
            r.spec_bytes() == bytes@,
            r.spec_base() == base,
            r.spec_text() == search_chars(bytes@),
    {
        match str_from_utf8(bytes) {
            Ok(s) => {
                return SearchText { text: s, segments: None, base, raw_len: bytes.len(), bytes: Ghost(bytes@) };
            },
            Err(_) => {},
        }
        let ghost all = bytes@;
        let mut text = String::new();
        let mut segs: Vec<Segment> = Vec::new();
        let mut pos: usize = 0;
        let ghost mut done: Seq<Run> = Seq::empty();
        assert(all.skip(0) =~= all);
        loop
            invariant_except_break
                pos < all.len(),
                done + runs_of(all.skip(pos as int)) == runs_of(all),
            invariant
                all == bytes@,
                base + all.len() <= usize::MAX,
                text@ == runs_text(done),
                records(segs@, done),
                raw_before(done, done.len() as int) == pos,
                forall|i: int| 0 <= i < done.len() ==> #[trigger] run_ok(done[i]),
            ensures
                done == runs_of(all),
                pos == all.len(),
            decreases all.len() - pos,
        {
            let rest = slice_to_vec(bytes, pos, bytes.len());
            assert(rest@ =~= all.skip(pos as int));
            let dec = text.as_str().as_bytes().len();
            proof {
                assert(done.take(done.len() as int) =~= done);
                lemma_runs_text_len(done, done.len() as int);
            }
            match str_from_utf8(rest.as_slice()) {
                Ok(valid) => {
                    let n = rest.len();
                    let seg = Segment { decoded_start: dec, raw_start: pos, raw_len: n, verbatim: true };
                    let ghost run: Run = (true, n as int, decode_utf8(rest@));
                    proof {
                        vstd::utf8::decode_utf8_encode_utf8(rest@);
                        lemma_before_push(done, run);
                        assert(runs_of(rest@) == seq![run]);
                        lemma_runs_text_append(done, seq![run]);
                        assert(done.push(run) =~= done + seq![run]);
                        lemma_runs_text_single(run);
                    }
                    segs.push(seg);
                    push_str(&mut text, valid.as_str());
                    proof {
                        done = done.push(run);
                        assert(raw_before(done, done.len() as int) == raw_before(done, done.len() - 1) + run.1);
                        assert(text_before(done, done.len() as int) == text_before(done, done.len() - 1) + run_text_len(run));
                        assert(done =~= runs_of(all));
                    }
                    pos = bytes.len();
                    break;
                },
                Err((_, v, e)) => {
                    let ghost before_done = done;
                    if v > 0 {
                        let chunk = slice_to_vec(rest.as_slice(), 0, v);
                        assert(chunk@ =~= rest@.take(v as int));
                        let piece = crate::text::from_utf8_lossy(chunk.as_slice());
                        let seg = Segment { decoded_start: dec, raw_start: pos, raw_len: v, verbatim: true };
                        let ghost run: Run = (true, v as int, decode_utf8(rest@.take(v as int)));
                        proof {
                            vstd::utf8::decode_utf8_encode_utf8(rest@.take(v as int));
                            lemma_before_push(done, run);
                            lemma_runs_text_append(done, seq![run]);
                        assert(done.push(run) =~= done + seq![run]);
                            lemma_runs_text_single(run);
                        }
                        segs.push(seg);
                        push_str(&mut text, piece.as_str());
                        proof {
                            done = done.push(run);
                        assert(raw_before(done, done.len() as int) == raw_before(done, done.len() - 1) + run.1);
                        assert(text_before(done, done.len() as int) == text_before(done, done.len() - 1) + run_text_len(run));
                        }
                    }
                    let dec2 = text.as_str().as_bytes().len();
                    proof {
                        assert(done.take(done.len() as int) =~= done);
                        lemma_runs_text_len(done, done.len() as int);
                    }
                    let invalid_len: usize = match e {
                        Some(n) => n,
                        None => rest.len() - v,
                    };
                    let seg = Segment { decoded_start: dec2, raw_start: pos + v, raw_len: invalid_len, verbatim: false };
                    let ghost run: Run = (false, invalid_len as int, replacement());
                    proof {
                        lemma_before_push(done, run);
                        lemma_runs_text_append(done, seq![run]);
                        assert(done.push(run) =~= done + seq![run]);
                        lemma_runs_text_single(run);
                    }
                    segs.push(seg);
                    push_char(&mut text, '\u{FFFD}');
                    proof {
                        assert(seq!['\u{FFFD}'] =~= replacement());
                        done = done.push(run);
                        assert(raw_before(done, done.len() as int) == raw_before(done, done.len() - 1) + run.1);
                        assert(text_before(done, done.len() as int) == text_before(done, done.len() - 1) + run_text_len(run));
                        let pre: Seq<Run> = if v > 0 {
                            seq![(true, v as int, decode_utf8(rest@.take(v as int)))]
                        } else {
                            Seq::empty()
                        };
                        assert(done =~= before_done + pre.push(run));
                    }
                    match e {
                        Some(n) => {
                            proof {
                                assert(runs_of(rest@) == (if v > 0 {
                                    seq![(true, v as int, decode_utf8(rest@.take(v as int)))]
                                } else {
                                    Seq::<Run>::empty()
                                }).push(run) + runs_of(rest@.skip(v + n)));
                                assert(rest@.skip(v + n) =~= all.skip(pos + v + n));
                                assert(done + runs_of(all.skip(pos + v + n)) =~= before_done + runs_of(rest@));
                            }
                            pos = pos + v + n;
                            if pos >= bytes.len() {
                                proof {
                                    assert(all.skip(pos as int) =~= Seq::<u8>::empty());
                                    assert(done + Seq::<Run>::empty() =~= done);
                                }
                                break;
                            }
                        },
                        None => {
                            proof {
                                assert(done =~= runs_of(all));
                            }
                            pos = bytes.len();
                            break;
                        },
                    }
                },
            }
        }
        SearchText { text, segments: Some(segs), base, raw_len: bytes.len(), bytes: Ghost(bytes@) }
    }

    /// The decoded text.
    pub fn text(&self) -> (r: &str)
        ensures
            r@ == self.spec_text(),
    {
        self.text.as_str()
    }

    /// The raw offset of text offset `d` (see [`search_offset`]).
    #[verifier::rlimit(40)]
    pub fn raw_offset(&self, d: usize) -> (r: usize)
        requires
            self.wf(),
            d <= encode_utf8(self.spec_text()).len(),
        ensures
            r == search_offset(self.spec_bytes(), self.spec_base(), d as int),
            r <= self.spec_base() + self.spec_bytes().len(),
    {
        match &self.segments {
            None => {
                if d < self.raw_len {
                    self.base + d
                } else {
                    self.base + self.raw_len
                }
            },
            Some(segs) => {
                let ghost rs = runs_of(self.bytes@);
                let n = segs.len();
                if n == 0 {
                    return self.base;
                }
                proof {
                    assert(rs.take(rs.len() as int) =~= rs);
                    lemma_runs_text_len(rs, rs.len() as int);
                    assert(rs.skip(0) =~= rs);
                }
                let mut k: usize = 0;
                while k + 1 < n && segs[k + 1].decoded_start <= d
                    invariant
                        0 <= k < n,
                        n == rs.len(),
                        records(segs@, rs),
                        forall|i: int| 0 <= i < rs.len() ==> #[trigger] run_ok(rs[i]),
                        text_before(rs, k as int) <= d,
                        map_offset(rs.skip(k as int), d as int, text_before(rs, k as int), raw_before(rs, k as int))
                            == map_offset(rs, d as int, 0, 0),
                    decreases n - k,
                {
                    proof {
                        lemma_map_offset_skip(rs, d as int, k as int);
                    }
                    k = k + 1;
                }
                let seg = segs[k];
                proof {
                    lemma_before_mono(rs, k + 1, rs.len() as int);
                    if k + 1 < n {
                        assert(segs@[k + 1].decoded_start == text_before(rs, k + 1));
                    }
                    lemma_map_offset_last(rs, d as int, k as int);
                }
                if seg.decoded_start == d {
                    self.base + seg.raw_start
                } else if seg.verbatim {
                    self.base + seg.raw_start + (d - seg.decoded_start)
                } else {
                    self.base + seg.raw_start + seg.raw_len
                }
            },
        }
    }
}

} // verus!

//! The incremental stream decoder: buffers raw bytes until complete
//! `data: <json>` frames (terminated by a blank line) are assembled,
//! then decodes each frame into a response fragment or an
//! `InvalidEventData` error carrying the offending text.  Fragments are
//! independent and never merged.

use vstd::prelude::*;

use vstd::utf8::decode_utf8;
use vstd::utf8::valid_utf8;

use crate::parse::parse_json;
use crate::parse::sp_json;
use crate::request::ApiRequestError;
use crate::response::parse_response;
use crate::response::GenerateContentResponse;
use crate::response::ResponseV;

verus! {

/// The first index at or after `i` where a blank line (two newline
/// bytes) starts, if any.
pub open spec fn find_sep_from(b: Seq<u8>, i: int) -> Option<int>
    decreases b.len() - i,
{
    if i < 0 || i + 1 >= b.len() {
        None
    } else if b[i] == 10 && b[i + 1] == 10 {
        Some(i)
    } else {
        find_sep_from(b, i + 1)
    }
}

/// The complete frames held in `b`, and the incomplete tail that must
/// wait for more bytes.
pub open spec fn split_frames(b: Seq<u8>) -> (Seq<Seq<u8>>, Seq<u8>)
    decreases b.len(),
{
    match find_sep_from(b, 0) {
        None => (Seq::empty(), b),
        Some(i) => if i < 0 || i + 2 > b.len() {
            (Seq::empty(), b)
        } else {
            let rest = split_frames(b.skip(i + 2));
            (seq![b.take(i)] + rest.0, rest.1)
        },
    }
}

/// The bytes of the `data: ` frame prefix.
pub open spec fn data_prefix() -> Seq<u8> {
    seq![100u8, 97u8, 116u8, 97u8, 58u8, 32u8]
}

/// What one complete frame yields: nothing for an empty frame, a
/// decoded fragment for a well-formed `data: ` frame, and an error
/// carrying the frame's text for anything else.
pub open spec fn frame_out(f: Seq<u8>) -> Option<Result<ResponseV, Seq<u8>>> {
    if f.len() == 0 {
        None
    } else if f.len() >= 6 && f.take(6) == data_prefix() {
        let payload = f.skip(6);
        if valid_utf8(payload) {
            match sp_json(decode_utf8(payload)) {
                Some(j) => match parse_response(j) {
                    Some(rv) => Some(Ok(rv)),
                    None => Some(Err(f)),
                },
                None => Some(Err(f)),
            }
        } else {
            Some(Err(f))
        }
    } else {
        Some(Err(f))
    }
}

/// The fragments and errors that a frame list yields, in order.
pub open spec fn frames_out(fs: Seq<Seq<u8>>) -> Seq<Result<ResponseV, Seq<u8>>>
    decreases fs.len(),
{
    if fs.len() == 0 {
        Seq::empty()
    } else {
        match frame_out(fs[0]) {
            None => frames_out(fs.drop_first()),
            Some(e) => seq![e] + frames_out(fs.drop_first()),
        }
    }
}

/// Whether a decoder output matches what the model says a frame yields.
pub open spec fn out_rel(
    o: Result<GenerateContentResponse, ApiRequestError>,
    s: Result<ResponseV, Seq<u8>>,
) -> bool {
    match s {
        Ok(rv) => o matches Ok(resp) && resp.deep() == rv,
        Err(fb) => o matches Err(e) && (e matches ApiRequestError::InvalidEventData(t)
            && (valid_utf8(fb) ==> t@ == decode_utf8(fb))),
    }
}

/// The first separator found in `b` is still the first one after more
/// bytes arrive.
proof fn lemma_find_sep_append(b: Seq<u8>, c: Seq<u8>, k: int)
    requires
        0 <= k,
    ensures
        match find_sep_from(b, k) {
            Some(i) => find_sep_from(b + c, k) == Some(i),
            None => true,
        },
    decreases b.len() - k,
{
    if k + 1 < b.len() {
        if !(b[k] == 10 && b[k + 1] == 10) {
            lemma_find_sep_append(b, c, k + 1);
        }
    }
}

/// A found separator lies within bounds, past the start.
proof fn lemma_find_sep_bounds(b: Seq<u8>, k: int)
    requires
        0 <= k,
    ensures
        match find_sep_from(b, k) {
            Some(i) => k <= i && i + 1 < b.len(),
            None => true,
        },
    decreases b.len() - k,
{
    if k + 1 < b.len() {
        if !(b[k] == 10 && b[k + 1] == 10) {
            lemma_find_sep_bounds(b, k + 1);
        }
    }
}

/// Splitting off frames commutes with appending bytes: the frames of
/// `b + c` are the frames of `b` followed by the frames of `b`'s tail
/// with `c` appended, and the tails agree.
pub proof fn lemma_split_frames_append(b: Seq<u8>, c: Seq<u8>)
    ensures
        split_frames(b + c).0 =~= split_frames(b).0 + split_frames(split_frames(b).1 + c).0,
        split_frames(b + c).1 == split_frames(split_frames(b).1 + c).1,
    decreases b.len(),
{
    match find_sep_from(b, 0) {
        None => {
            assert(split_frames(b) == (Seq::<Seq<u8>>::empty(), b));
            assert(split_frames(b).1 + c == b + c);
            assert(split_frames(b + c).0 =~= Seq::<Seq<u8>>::empty() + split_frames(b + c).0);
        },
        Some(i) => {
            lemma_find_sep_bounds(b, 0);
            lemma_find_sep_append(b, c, 0);
            assert(find_sep_from(b + c, 0) == Some(i));
            assert((b + c).take(i) =~= b.take(i));
            assert((b + c).skip(i + 2) =~= b.skip(i + 2) + c);
            lemma_split_frames_append(b.skip(i + 2), c);
            assert(split_frames(b).1 == split_frames(b.skip(i + 2)).1);
            assert(split_frames(b + c).0 =~= seq![b.take(i)] + split_frames(
                b.skip(i + 2) + c,
            ).0);
            assert(split_frames(b + c).0 =~= (seq![b.take(i)] + split_frames(b.skip(i + 2)).0)
                + split_frames(split_frames(b.skip(i + 2)).1 + c).0);
        },
    }
}

/// Frame outputs distribute over concatenation of frame lists.
pub proof fn lemma_frames_out_append(a: Seq<Seq<u8>>, b: Seq<Seq<u8>>)
    ensures
        frames_out(a + b) =~= frames_out(a) + frames_out(b),
    decreases a.len(),
{
    if a.len() == 0 {
        assert(a + b =~= b);
        assert(frames_out(a) =~= Seq::<Result<ResponseV, Seq<u8>>>::empty());
    } else {
        assert((a + b)[0] == a[0]);
        assert((a + b).drop_first() =~= a.drop_first() + b);
        lemma_frames_out_append(a.drop_first(), b);
        assert(frames_out(a.drop_first() + b) =~= frames_out(a.drop_first()) + frames_out(b));
    }
}

/// Law: decoding is independent of chunk boundaries.  Whatever is
/// buffered, feeding `c1` and then `c2` yields exactly the outputs and
/// the buffered tail of feeding `c1 + c2` at once; in particular a
/// frame split across two arbitrary chunk boundaries reconstructs the
/// same fragment as the unsplit frame.
pub proof fn lemma_chunking_irrelevant(b: Seq<u8>, c1: Seq<u8>, c2: Seq<u8>)
    ensures
        frames_out(split_frames(b + c1).0) + frames_out(
            split_frames(split_frames(b + c1).1 + c2).0,
        ) =~= frames_out(split_frames(b + (c1 + c2)).0),
        split_frames(split_frames(b + c1).1 + c2).1 == split_frames(b + (c1 + c2)).1,
{
    assert((b + c1) + c2 =~= b + (c1 + c2));
    lemma_split_frames_append(b + c1, c2);
    lemma_frames_out_append(
        split_frames(b + c1).0,
        split_frames(split_frames(b + c1).1 + c2).0,
    );
    assert(frames_out(split_frames((b + c1) + c2).0) =~= frames_out(split_frames(b + c1).0)
        + frames_out(split_frames(split_frames(b + c1).1 + c2).0));
}

/// Relies on `String::from_utf8_lossy`: valid UTF-8 bytes decode to
/// exactly their characters.
#[verifier::external_body]
fn bytes_to_text(b: &[u8]) -> (r: String)
    ensures
        valid_utf8(b@) ==> r@ == decode_utf8(b@),
{
    String::from_utf8_lossy(b).into_owned()
}

/// Relies on `core::str::from_utf8`: succeeds exactly on valid UTF-8
/// and decodes it to its characters.
#[verifier::external_body]
fn bytes_to_str(b: &[u8]) -> (r: Option<&str>)
    ensures
        r matches Some(s) ==> valid_utf8(b@) && s@ == decode_utf8(b@),
        r is None ==> !valid_utf8(b@),
{
    core::str::from_utf8(b).ok()
}

/// The bytes of `v` in `[i, j)`, copied out.
fn copy_bytes(v: &Vec<u8>, i: usize, j: usize) -> (r: Vec<u8>)
    requires
        i <= j <= v@.len(),
    ensures
        r@ == v@.subrange(i as int, j as int),
{
    let mut out: Vec<u8> = Vec::new();
    let mut k = i;
    while k < j
        invariant
            i <= k <= j <= v@.len(),
            out@ =~= v@.subrange(i as int, k as int),
        decreases j - k,
    {
        out.push(v[k]);
        proof {
            assert(out@ =~= v@.subrange(i as int, k + 1));
        }
        k = k + 1;
    }
    proof {
        assert(out@ =~= v@.subrange(i as int, j as int));
    }
    out
}

/// `find_sep_from` equals any index with the scanning properties.
proof fn lemma_find_sep_agrees(b: Seq<u8>, i: int, j: int, found: bool)
    requires
        0 <= i <= j,
        found ==> j + 1 < b.len() && b[j] == 10 && b[j + 1] == 10,
        !found ==> j + 1 >= b.len(),
        forall|k: int| i <= k < j ==> !((#[trigger] b[k]) == 10 && b[k + 1] == 10),
    ensures
        found ==> find_sep_from(b, i) == Some(j),
        !found ==> find_sep_from(b, i) is None,
    decreases j - i,
{
    if i < j {
        lemma_find_sep_agrees(b, i + 1, j, found);
    }
}

/// The first blank line at or after `i`, as executable code.
fn scan_sep(buf: &Vec<u8>, i: usize) -> (r: Option<usize>)
    requires
        i <= buf@.len(),
    ensures
        r matches Some(j) ==> find_sep_from(buf@, i as int) == Some(j as int) && i <= j && j + 1
            < buf@.len(),
        r is None ==> find_sep_from(buf@, i as int) is None,
{
    let n = buf.len();
    let mut j = i;
    while n - j > 1 && !(buf[j] == 10 && buf[j + 1] == 10)
        invariant
            i <= j <= n,
            n == buf@.len(),
            forall|k: int| i <= k < j ==> !((#[trigger] buf@[k]) == 10 && buf@[k + 1] == 10),
        decreases n - j,
    {
        j = j + 1;
    }
    if n - j > 1 {
        proof {
            lemma_find_sep_agrees(buf@, i as int, j as int, true);
        }
        Some(j)
    } else {
        proof {
            lemma_find_sep_agrees(buf@, i as int, j as int, false);
        }
        None
    }
}

/// Turns an incremental byte stream into discrete response fragments.
/// The buffer holds bytes of a frame that is not yet complete.
#[derive(Debug)]
pub struct StreamDecoder {
    buf: Vec<u8>,
}

impl StreamDecoder {
    /// The buffered, not yet complete bytes.
    pub closed spec fn buffered(self) -> Seq<u8> {
        self.buf@
    }

    /// A decoder with nothing buffered.
    pub fn new() -> (r: StreamDecoder)
        ensures
            r.buffered() == Seq::<u8>::empty(),
    {
        let r = StreamDecoder { buf: Vec::new() };
        proof {
            assert(r.buffered() =~= Seq::<u8>::empty());
        }
        r
    }

    /// Feeds one chunk of bytes, of arbitrary size and alignment, and
    /// returns what the newly completed frames yield, in order.  The
    /// incomplete tail stays buffered.
    pub fn feed(&mut self, chunk: &[u8]) -> (out: Vec<
        Result<GenerateContentResponse, ApiRequestError>,
    >)
        ensures
            final(self).buffered() == split_frames(old(self).buffered() + chunk@).1,
            out@.len() == frames_out(split_frames(old(self).buffered() + chunk@).0).len(),
            forall|m: int| 0 <= m < out@.len() ==> out_rel(
                #[trigger] out@[m],
                frames_out(split_frames(old(self).buffered() + chunk@).0)[m],
            ),
    {
        let mut k: usize = 0;
        let n = chunk.len();
        while k < n
            invariant
                0 <= k <= n,
                n == chunk@.len(),
                self.buf@ =~= old(self).buf@ + chunk@.subrange(0, k as int),
            decreases n - k,
        {
            self.buf.push(chunk[k]);
            proof {
                assert(self.buf@ =~= old(self).buf@ + chunk@.subrange(0, k + 1));
            }
            k = k + 1;
        }
        proof {
            assert(self.buf@ =~= old(self).buf@ + chunk@);
        }
        let mut out: Vec<Result<GenerateContentResponse, ApiRequestError>> = Vec::new();
        self.drain(&mut out);
        out
    }

    /// Extracts and decodes every complete frame in the buffer.
    fn drain(&mut self, out: &mut Vec<Result<GenerateContentResponse, ApiRequestError>>)
        ensures
            final(self).buffered() == split_frames(old(self).buffered()).1,
            final(out)@.len() == old(out)@.len() + frames_out(
                split_frames(old(self).buffered()).0,
            ).len(),
            forall|m: int| 0 <= m < old(out)@.len() ==> final(out)@[m] == old(out)@[m],
            forall|m: int| 0 <= m < frames_out(split_frames(old(self).buffered()).0).len()
                ==> out_rel(
                final(out)@[old(out)@.len() + m],
                #[trigger] frames_out(split_frames(old(self).buffered()).0)[m],
            ),
        decreases old(self).buf@.len(),
    {
        let ghost b0 = self.buf@;
        match scan_sep(&self.buf, 0) {
            None => {},
            Some(i) => {
                proof {
                    assert(i + 2 <= self.buf@.len());
                }
                let frame = copy_bytes(&self.buf, 0, i);
                let end = self.buf.len();
                let rest = copy_bytes(&self.buf, i + 2, end);
                proof {
                    assert(frame@ =~= b0.take(i as int));
                    assert(rest@ =~= b0.skip(i + 2));
                    assert(split_frames(b0) == (seq![b0.take(i as int)] + split_frames(
                        b0.skip(i + 2),
                    ).0, split_frames(b0.skip(i + 2)).1));
                }
                self.buf = rest;
                let ghost fs_rest = split_frames(b0.skip(i + 2)).0;
                let ghost fs_all = seq![frame@] + fs_rest;
                proof {
                    assert(split_frames(b0).0 == fs_all);
                    assert(fs_all[0] == frame@);
                    assert(fs_all.drop_first() =~= fs_rest);
                    assert(frames_out(fs_all) == (match frame_out(frame@) {
                        None => frames_out(fs_rest),
                        Some(e) => seq![e] + frames_out(fs_rest),
                    }));
                }
                match self.decode_frame(&frame) {
                    Some(e) => {
                        out.push(e);
                    },
                    None => {},
                }
                self.drain(out);
            },
        }
    }

    /// Decodes one complete frame.
    fn decode_frame(&self, frame: &Vec<u8>) -> (r: Option<
        Result<GenerateContentResponse, ApiRequestError>,
    >)
        ensures
            match frame_out(frame@) {
                None => r is None,
                Some(s) => r matches Some(o) && out_rel(o, s),
            },
    {
        let n = frame.len();
        if n == 0 {
            return None;
        }
        let is_data = n >= 6 && frame[0] == 100 && frame[1] == 97 && frame[2] == 116 && frame[3]
            == 97 && frame[4] == 58 && frame[5] == 32;
        proof {
            if n >= 6 {
                if frame@.take(6) == data_prefix() {
                    assert(frame@.take(6)[0] == frame@[0]);
                    assert(frame@.take(6)[1] == frame@[1]);
                    assert(frame@.take(6)[2] == frame@[2]);
                    assert(frame@.take(6)[3] == frame@[3]);
                    assert(frame@.take(6)[4] == frame@[4]);
                    assert(frame@.take(6)[5] == frame@[5]);
                }
                if is_data {
                    assert(frame@.take(6) =~= data_prefix());
                }
            }
        }
        if is_data {
            let payload = copy_bytes(frame, 6, n);
            proof {
                assert(payload@ =~= frame@.skip(6));
            }
            match bytes_to_str(payload.as_slice()) {
                Some(text) => match parse_json(text) {
                    Some(v) => match GenerateContentResponse::from_json(&v) {
                        Some(resp) => Some(Ok(resp)),
                        None => Some(
                            Err(
                                ApiRequestError::InvalidEventData(
                                    bytes_to_text(self.frame_slice(frame)),
                                ),
                            ),
                        ),
                    },
                    None => Some(
                        Err(
                            ApiRequestError::InvalidEventData(
                                bytes_to_text(self.frame_slice(frame)),
                            ),
                        ),
                    ),
                },
                None => Some(
                    Err(
                        ApiRequestError::InvalidEventData(bytes_to_text(self.frame_slice(frame))),
                    ),
                ),
            }
        } else {
            Some(
                Err(ApiRequestError::InvalidEventData(bytes_to_text(self.frame_slice(frame)))),
            )
        }
    }

    /// The frame's bytes as a slice.
    fn frame_slice<'a>(&self, frame: &'a Vec<u8>) -> (r: &'a [u8])
        ensures
            r@ == frame@,
    {
        frame.as_slice()
    }
}

} // verus!
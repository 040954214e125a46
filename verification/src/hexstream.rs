use vstd::prelude::*;
use vstd::string::*;
use crate::error::DmiError;

verus! {

/// True of an ASCII hex digit byte (0-9, a-f, A-F).
pub open spec fn is_hex_digit(b: u8) -> bool {
    (48 <= b && b <= 57) || (97 <= b && b <= 102) || (65 <= b && b <= 70)
}

/// The value of one hex digit byte.
pub open spec fn hex_val(b: u8) -> int
    recommends
        is_hex_digit(b),
{
    if 48 <= b && b <= 57 {
        b - 48
    } else if 97 <= b && b <= 102 {
        b - 87
    } else {
        b - 55
    }
}

/// The byte two hex digits write, high digit first.
pub open spec fn hex_byte(hi: u8, lo: u8) -> u8
    recommends
        is_hex_digit(hi),
        is_hex_digit(lo),
{
    (hex_val(hi) * 16 + hex_val(lo)) as u8
}

/// All bytes of the segment are hex digits.
pub open spec fn all_hex(seg: Seq<u8>) -> bool {
    forall|i: int| 0 <= i < seg.len() ==> is_hex_digit(#[trigger] seg[i])
}

/// The bytes an even-length run of hex digits writes, pair by pair.
pub open spec fn seg_bytes(seg: Seq<u8>) -> Seq<u8> {
    Seq::new((seg.len() / 2) as nat, |i: int| hex_byte(seg[2 * i], seg[2 * i + 1]))
}

/// What one '#'-delimited segment contributes to the pixel buffer: its three
/// RGB bytes plus an implicit alpha of 255 when it has 6 digits, its four
/// RGBA bytes when it has 8, and an error for any other length or a non-hex
/// digit. The length is judged before the digits, as the builder judges it.
pub open spec fn parse_seg(seg: Seq<u8>) -> Result<Seq<u8>, DmiError> {
    if seg.len() != 6 && seg.len() != 8 {
        Err(DmiError::InvalidPngData)
    } else if !all_hex(seg) {
        Err(DmiError::ParseError)
    } else if seg.len() == 6 {
        Ok(seg_bytes(seg).push(255u8))
    } else {
        Ok(seg_bytes(seg))
    }
}

/// Joins two partial results: the first error wins, left to right.
pub open spec fn combine(a: Result<Seq<u8>, DmiError>, b: Result<Seq<u8>, DmiError>) -> Result<
    Seq<u8>,
    DmiError,
> {
    match a {
        Err(e) => Err(e),
        Ok(x) => match b {
            Err(e) => Err(e),
            Ok(y) => Ok(x + y),
        },
    }
}

/// Folds the input that follows the first '#': `seg` is the segment read so
/// far; a '#' closes it and opens the next one; the end of input closes the
/// last one.
pub open spec fn parse_rest(s: Seq<u8>, seg: Seq<u8>) -> Result<Seq<u8>, DmiError>
    decreases s.len(),
{
    if s.len() == 0 {
        parse_seg(seg)
    } else if s[0] == 35 {
        combine(parse_seg(seg), parse_rest(s.drop_first(), Seq::empty()))
    } else {
        parse_rest(s.drop_first(), seg.push(s[0]))
    }
}

/// The whole pixel stream: everything before the first '#' is discarded (it
/// is empty in the expected format); with no '#' at all the stream holds no
/// pixel and parses to an empty buffer.
pub open spec fn parse_stream_spec(s: Seq<u8>) -> Result<Seq<u8>, DmiError>
    decreases s.len(),
{
    if s.len() == 0 {
        Ok(Seq::empty())
    } else if s[0] == 35 {
        parse_rest(s.drop_first(), Seq::empty())
    } else {
        parse_stream_spec(s.drop_first())
    }
}

/// Joins an already-parsed prefix with the rest.
pub open spec fn combine_done(prefix: Seq<u8>, rest: Result<Seq<u8>, DmiError>) -> Result<
    Seq<u8>,
    DmiError,
> {
    match rest {
        Err(e) => Err(e),
        Ok(y) => Ok(prefix + y),
    }
}

proof fn lemma_combine_done_empty(x: Result<Seq<u8>, DmiError>)
    ensures
        combine_done(Seq::<u8>::empty(), x) == x,
{
    match x {
        Ok(y) => {
            assert(Seq::<u8>::empty() + y =~= y);
        },
        Err(_) => {},
    }
}

proof fn lemma_combine_shift(a: Seq<u8>, b: Seq<u8>, r: Result<Seq<u8>, DmiError>)
    ensures
        combine_done(a, combine(Ok(b), r)) == combine_done(a + b, r),
{
    match r {
        Ok(y) => {
            assert(a + (b + y) =~= (a + b) + y);
        },
        Err(_) => {},
    }
}

fn hex_value(b: u8) -> (r: u8)
    requires
        is_hex_digit(b),
    ensures
        r == hex_val(b),
        r <= 15,
{
    if 48 <= b && b <= 57 {
        b - 48
    } else if 97 <= b && b <= 102 {
        b - 87
    } else {
        b - 55
    }
}

/// Parses the segment `data[start..end]` and appends its bytes to `out`.
fn parse_segment(data: &[u8], start: usize, end: usize, out: &mut Vec<u8>) -> (r: Result<
    (),
    DmiError,
>)
    requires
        start <= end <= data@.len(),
    ensures
        r is Ok <==> parse_seg(data@.subrange(start as int, end as int)) is Ok,
        r is Ok ==> final(out)@ == old(out)@ + parse_seg(
            data@.subrange(start as int, end as int),
        )->Ok_0,
        r matches Err(e) ==> parse_seg(data@.subrange(start as int, end as int)) matches Err(e2)
            && e == e2,
{
    let ghost seg = data@.subrange(start as int, end as int);
    let len = end - start;
    if len != 6 && len != 8 {
        return Err(DmiError::InvalidPngData);
    }
    let ghost out0 = out@;
    let mut j = start;
    while j < end
        invariant
            start <= j <= end <= data@.len(),
            end - start == 6 || end - start == 8,
            (j - start) % 2 == 0,
            seg == data@.subrange(start as int, end as int),
            all_hex(seg.take(j - start)),
            out@ == out0 + seg_bytes(seg).take((j - start) / 2),
        decreases end - j,
    {
        let hi = data[j];
        let lo = data[j + 1];
        if !((48 <= hi && hi <= 57) || (97 <= hi && hi <= 102) || (65 <= hi && hi <= 70)) {
            proof {
                assert(seg[j - start] == hi);
                assert(!all_hex(seg));
            }
            return Err(DmiError::ParseError);
        }
        if !((48 <= lo && lo <= 57) || (97 <= lo && lo <= 102) || (65 <= lo && lo <= 70)) {
            proof {
                assert(seg[j + 1 - start] == lo);
                assert(!all_hex(seg));
            }
            return Err(DmiError::ParseError);
        }
        let byte: u8 = hex_value(hi) * 16 + hex_value(lo);
        out.push(byte);
        proof {
            let p = (j - start) / 2;
            assert(seg[2 * p] == hi && seg[2 * p + 1] == lo);
            assert(seg_bytes(seg).take(p + 1) =~= seg_bytes(seg).take(p).push(
                hex_byte(hi, lo),
            ));
            assert(all_hex(seg.take(j + 2 - start)));
            assert(out@ =~= out0 + seg_bytes(seg).take(p + 1));
        }
        j += 2;
    }
    proof {
        assert(seg.take(end - start) =~= seg);
        assert(all_hex(seg));
        assert(seg_bytes(seg).take((end - start) / 2) =~= seg_bytes(seg));
    }
    if len == 6 {
        out.push(255u8);
        proof {
            assert(out@ =~= out0 + seg_bytes(seg).push(255u8));
        }
    }
    Ok(())
}

/// Parses a '#'-delimited hex pixel stream into a flat RGBA byte buffer.
/// Each segment yields R, G, B and, for 6-digit segments, an implicit alpha
/// of 255; a segment of any other length fails the whole parse with
/// `InvalidPngData`, a non-hex digit with `ParseError`, and nothing partial
/// is returned.
pub fn parse_pixel_bytes(data: &[u8]) -> (r: Result<Vec<u8>, DmiError>)
    ensures
        r is Ok <==> parse_stream_spec(data@) is Ok,
        r matches Ok(v) ==> parse_stream_spec(data@) matches Ok(b) && v@ == b,
        r matches Err(e) ==> parse_stream_spec(data@) matches Err(e2) && e == e2,
{
    let n = data.len();
    let mut i: usize = 0;
    proof {
        assert(data@.skip(0) =~= data@);
    }
    while i < n && data[i] != 35u8
        invariant
            0 <= i <= n,
            n == data@.len(),
            parse_stream_spec(data@) == parse_stream_spec(data@.skip(i as int)),
        decreases n - i,
    {
        proof {
            assert(data@.skip(i as int).drop_first() =~= data@.skip(i + 1));
            assert(data@.skip(i as int)[0] == data@[i as int]);
        }
        i += 1;
    }
    if i == n {
        proof {
            assert(data@.skip(n as int).len() == 0);
        }
        let r: Vec<u8> = Vec::new();
        return Ok(r);
    }
    proof {
        assert(data@.skip(i as int)[0] == 35u8);
        assert(data@.skip(i as int).drop_first() =~= data@.skip(i + 1));
    }
    i += 1;
    let mut out: Vec<u8> = Vec::new();
    let mut seg_start = i;
    proof {
        assert(out@ =~= Seq::<u8>::empty());
        assert(data@.subrange(seg_start as int, i as int) =~= Seq::<u8>::empty());
        lemma_combine_done_empty(parse_rest(data@.skip(i as int), Seq::<u8>::empty()));
    }
    while i < n
        invariant
            seg_start <= i <= n,
            n == data@.len(),
            parse_stream_spec(data@) == combine_done(
                out@,
                parse_rest(data@.skip(i as int), data@.subrange(seg_start as int, i as int)),
            ),
        decreases n - i,
    {
        let c = data[i];
        if c == 35u8 {
            let ghost out_before = out@;
            let ghost seg = data@.subrange(seg_start as int, i as int);
            let res = parse_segment(data, seg_start, i, &mut out);
            proof {
                assert(data@.skip(i as int)[0] == 35u8);
                assert(data@.skip(i as int).drop_first() =~= data@.skip(i + 1));
            }
            match res {
                Err(e) => {
                    return Err(e);
                },
                Ok(()) => {},
            }
            proof {
                lemma_combine_shift(
                    out_before,
                    parse_seg(seg)->Ok_0,
                    parse_rest(data@.skip(i + 1), Seq::<u8>::empty()),
                );
            }
            i += 1;
            seg_start = i;
            proof {
                assert(data@.subrange(seg_start as int, i as int) =~= Seq::<u8>::empty());
            }
        } else {
            proof {
                assert(data@.skip(i as int)[0] == c);
                assert(data@.skip(i as int).drop_first() =~= data@.skip(i + 1));
                assert(data@.subrange(seg_start as int, i + 1) =~= data@.subrange(
                    seg_start as int,
                    i as int,
                ).push(c));
            }
            i += 1;
        }
    }
    proof {
        assert(data@.skip(n as int).len() == 0);
    }
    let res = parse_segment(data, seg_start, n, &mut out);
    match res {
        Err(e) => Err(e),
        Ok(()) => Ok(out),
    }
}

/// The alpha byte of pixel `k` in a flat RGBA buffer.
pub open spec fn alpha_at(b: Seq<u8>, k: int) -> u8 {
    b[4 * k + 3]
}

/// True of a token that holds no '#': it stays one segment in the stream.
pub open spec fn hash_free(t: Seq<u8>) -> bool {
    forall|i: int| 0 <= i < t.len() ==> #[trigger] t[i] != 35
}

/// The stream a list of tokens writes: a '#' before each token.
pub open spec fn stream_of_tokens(tokens: Seq<Seq<u8>>) -> Seq<u8>
    decreases tokens.len(),
{
    if tokens.len() == 0 {
        Seq::empty()
    } else {
        seq![35u8] + tokens[0] + stream_of_tokens(tokens.drop_first())
    }
}

/// The parse, token by token.
pub open spec fn parse_token_list(tokens: Seq<Seq<u8>>) -> Result<Seq<u8>, DmiError>
    decreases tokens.len(),
{
    if tokens.len() == 0 {
        Ok(Seq::empty())
    } else {
        combine(parse_seg(tokens[0]), parse_token_list(tokens.drop_first()))
    }
}

/// Reading a '#'-free run moves it from the input into the open segment.
proof fn lemma_parse_rest_prepend(t: Seq<u8>, s: Seq<u8>, seg: Seq<u8>)
    requires
        hash_free(t),
    ensures
        parse_rest(t + s, seg) == parse_rest(s, seg + t),
    decreases t.len(),
{
    if t.len() == 0 {
        assert(t + s =~= s);
        assert(seg + t =~= seg);
    } else {
        assert((t + s)[0] == t[0]);
        assert((t + s).drop_first() =~= t.drop_first() + s);
        assert(hash_free(t.drop_first()));
        lemma_parse_rest_prepend(t.drop_first(), s, seg.push(t[0]));
        assert(seg.push(t[0]) + t.drop_first() =~= seg + t);
    }
}

proof fn lemma_rest_of_tokens(tokens: Seq<Seq<u8>>)
    requires
        tokens.len() >= 1,
        forall|j: int| 0 <= j < tokens.len() ==> hash_free(#[trigger] tokens[j]),
    ensures
        parse_rest(tokens[0] + stream_of_tokens(tokens.drop_first()), Seq::empty())
            == parse_token_list(tokens),
    decreases tokens.len(),
{
    let t0 = tokens[0];
    let rest = tokens.drop_first();
    let s = stream_of_tokens(rest);
    lemma_parse_rest_prepend(t0, s, Seq::empty());
    assert(Seq::<u8>::empty() + t0 =~= t0);
    if rest.len() == 0 {
        assert(parse_rest(s, t0) == parse_seg(t0));
        match parse_seg(t0) {
            Ok(x) => {
                assert(x + Seq::<u8>::empty() =~= x);
            },
            Err(_) => {},
        }
    } else {
        assert(s[0] == 35u8);
        assert(s.drop_first() =~= rest[0] + stream_of_tokens(rest.drop_first()));
        assert(forall|j: int| 0 <= j < rest.len() ==> hash_free(#[trigger] rest[j]));
        lemma_rest_of_tokens(rest);
    }
}

/// The stream written from '#'-free tokens parses token by token.
pub proof fn lemma_parse_stream_of_tokens(tokens: Seq<Seq<u8>>)
    requires
        forall|j: int| 0 <= j < tokens.len() ==> hash_free(#[trigger] tokens[j]),
    ensures
        parse_stream_spec(stream_of_tokens(tokens)) == parse_token_list(tokens),
{
    if tokens.len() == 0 {
    } else {
        let s = stream_of_tokens(tokens);
        assert(s[0] == 35u8);
        assert(s.drop_first() =~= tokens[0] + stream_of_tokens(tokens.drop_first()));
        lemma_rest_of_tokens(tokens);
    }
}

proof fn lemma_token_list_rgb(tokens: Seq<Seq<u8>>)
    requires
        forall|k: int| 0 <= k < tokens.len() ==> (#[trigger] tokens[k]).len() == 6 && all_hex(
            tokens[k],
        ),
    ensures
        parse_token_list(tokens) matches Ok(b) && b.len() == 4 * tokens.len() && (forall|k: int|
            0 <= k < tokens.len() ==> #[trigger] alpha_at(b, k) == 255),
    decreases tokens.len(),
{
    if tokens.len() == 0 {
    } else {
        let t0 = tokens[0];
        assert(t0.len() == 6 && all_hex(t0));
        let b0 = parse_seg(t0)->Ok_0;
        assert(b0 == seg_bytes(t0).push(255u8));
        assert(b0.len() == 4);
        assert(b0[3] == 255);
        let rest = tokens.drop_first();
        assert forall|k: int| #![trigger rest[k]] 0 <= k < rest.len() implies rest[k].len() == 6
            && all_hex(rest[k]) by {
            assert(rest[k] == tokens[k + 1]);
        }
        lemma_token_list_rgb(rest);
        let br = parse_token_list(rest)->Ok_0;
        let b = parse_token_list(tokens)->Ok_0;
        assert(b == b0 + br);
        assert forall|k: int| 0 <= k < tokens.len() implies #[trigger] alpha_at(b, k) == 255 by {
            if k == 0 {
                assert(b[3] == b0[3]);
            } else {
                assert(rest[k - 1] == tokens[k]);
                assert(alpha_at(br, k - 1) == 255);
                assert(b[4 * k + 3] == br[4 * k + 3 - 4]);
            }
        }
    }
}

/// Law: a stream of N valid 6-digit tokens parses to exactly 4·N bytes,
/// with the implicit alpha byte 255 at every fourth position.
pub proof fn lemma_rgb_stream(tokens: Seq<Seq<u8>>)
    requires
        forall|k: int| 0 <= k < tokens.len() ==> (#[trigger] tokens[k]).len() == 6 && all_hex(
            tokens[k],
        ),
    ensures
        parse_stream_spec(stream_of_tokens(tokens)) matches Ok(b) && b.len() == 4 * tokens.len()
            && (forall|k: int| 0 <= k < tokens.len() ==> #[trigger] alpha_at(b, k) == 255),
{
    assert(forall|j: int| 0 <= j < tokens.len() ==> hash_free(#[trigger] tokens[j]));
    lemma_parse_stream_of_tokens(tokens);
    lemma_token_list_rgb(tokens);
}

proof fn lemma_token_list_rgba(tokens: Seq<Seq<u8>>)
    requires
        forall|k: int| 0 <= k < tokens.len() ==> (#[trigger] tokens[k]).len() == 8 && all_hex(
            tokens[k],
        ),
    ensures
        parse_token_list(tokens) matches Ok(b) && b.len() == 4 * tokens.len() && (forall|k: int|
            0 <= k < tokens.len() ==> #[trigger] alpha_at(b, k) == hex_byte(
                tokens[k][6],
                tokens[k][7],
            )),
    decreases tokens.len(),
{
    if tokens.len() == 0 {
    } else {
        let t0 = tokens[0];
        assert(t0.len() == 8 && all_hex(t0));
        let b0 = parse_seg(t0)->Ok_0;
        assert(b0 == seg_bytes(t0));
        assert(b0.len() == 4);
        assert(b0[3] == hex_byte(t0[6], t0[7]));
        let rest = tokens.drop_first();
        assert forall|k: int| #![trigger rest[k]] 0 <= k < rest.len() implies rest[k].len() == 8
            && all_hex(rest[k]) by {
            assert(rest[k] == tokens[k + 1]);
        }
        lemma_token_list_rgba(rest);
        let br = parse_token_list(rest)->Ok_0;
        let b = parse_token_list(tokens)->Ok_0;
        assert(b == b0 + br);
        assert forall|k: int| 0 <= k < tokens.len() implies #[trigger] alpha_at(b, k) == hex_byte(
            tokens[k][6],
            tokens[k][7],
        ) by {
            if k == 0 {
                assert(b[3] == b0[3]);
            } else {
                assert(rest[k - 1] == tokens[k]);
                assert(alpha_at(br, k - 1) == hex_byte(rest[k - 1][6], rest[k - 1][7]));
                assert(b[4 * k + 3] == br[4 * k + 3 - 4]);
            }
        }
    }
}

/// Law: a stream of N valid 8-digit tokens parses to exactly 4·N bytes,
/// with each alpha byte equal to the token's own last hex pair.
pub proof fn lemma_rgba_stream(tokens: Seq<Seq<u8>>)
    requires
        forall|k: int| 0 <= k < tokens.len() ==> (#[trigger] tokens[k]).len() == 8 && all_hex(
            tokens[k],
        ),
    ensures
        parse_stream_spec(stream_of_tokens(tokens)) matches Ok(b) && b.len() == 4 * tokens.len()
            && (forall|k: int|
            0 <= k < tokens.len() ==> #[trigger] alpha_at(b, k) == hex_byte(
                tokens[k][6],
                tokens[k][7],
            )),
{
    assert(forall|j: int| 0 <= j < tokens.len() ==> hash_free(#[trigger] tokens[j]));
    lemma_parse_stream_of_tokens(tokens);
    lemma_token_list_rgba(tokens);
}

proof fn lemma_token_list_bad(tokens: Seq<Seq<u8>>, k: int)
    requires
        0 <= k < tokens.len(),
        tokens[k].len() != 6,
        tokens[k].len() != 8,
    ensures
        parse_token_list(tokens) is Err,
    decreases tokens.len(),
{
    if k == 0 {
    } else {
        let rest = tokens.drop_first();
        assert(rest[k - 1] == tokens[k]);
        lemma_token_list_bad(rest, k - 1);
    }
}

/// Law: one token of a length other than 6 or 8 fails the whole parse, so
/// no partial buffer is ever returned for such a stream.
pub proof fn lemma_bad_token_fails(tokens: Seq<Seq<u8>>, k: int)
    requires
        forall|j: int| 0 <= j < tokens.len() ==> hash_free(#[trigger] tokens[j]),
        0 <= k < tokens.len(),
        tokens[k].len() != 6,
        tokens[k].len() != 8,
    ensures
        parse_stream_spec(stream_of_tokens(tokens)) is Err,
{
    lemma_parse_stream_of_tokens(tokens);
    lemma_token_list_bad(tokens, k);
}

proof fn lemma_rest_err_kind(s: Seq<u8>, seg: Seq<u8>)
    ensures
        parse_rest(s, seg) matches Err(e) ==> (e == DmiError::InvalidPngData || e
            == DmiError::ParseError),
    decreases s.len(),
{
    if s.len() == 0 {
    } else if s[0] == 35 {
        lemma_rest_err_kind(s.drop_first(), Seq::empty());
    } else {
        lemma_rest_err_kind(s.drop_first(), seg.push(s[0]));
    }
}

/// A failed stream parse reports only the two parse errors: a bad segment
/// length or a bad digit.
pub proof fn lemma_stream_err_kind(s: Seq<u8>)
    ensures
        parse_stream_spec(s) matches Err(e) ==> (e == DmiError::InvalidPngData || e
            == DmiError::ParseError),
    decreases s.len(),
{
    if s.len() == 0 {
    } else if s[0] == 35 {
        lemma_rest_err_kind(s.drop_first(), Seq::empty());
    } else {
        lemma_stream_err_kind(s.drop_first());
    }
}

/// Parses a pixel stream given as a string; the contract speaks of its
/// UTF-8 bytes, which the segments' hex digits and the '#' marks live in.
pub fn parse_pixel_stream(data: &str) -> (r: Result<Vec<u8>, DmiError>)
    ensures
        r is Ok <==> parse_stream_spec(data.spec_bytes()) is Ok,
        r matches Ok(v) ==> parse_stream_spec(data.spec_bytes()) matches Ok(b) && v@ == b,
        r matches Err(e) ==> parse_stream_spec(data.spec_bytes()) matches Err(e2) && e == e2,
{
    parse_pixel_bytes(data.as_bytes())
}

} // verus!

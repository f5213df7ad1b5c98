//! Framing of SIP over stream transports: keepalive pings and pongs, and
//! messages made of a header block and the body its Content-Length declares.
use vstd::prelude::*;
use crate::error::Error as CodecError;

verus! {

#[verifier::external_type_specification]
#[verifier::external_body]
pub struct ExSipMessage(rsip::SipMessage);

#[verifier::external_type_specification]
#[verifier::external_body]
pub struct ExBytesMut(bytes::BytesMut);

/// The bytes a buffer holds.
pub uninterp spec fn buffer_bytes(b: bytes::BytesMut) -> Seq<u8>;

/// Relies on `BytesMut`'s `Deref` to `[u8]` and `<[u8]>::to_vec`: a copy of the bytes held.
#[verifier::external_body]
fn buffer_to_vec(b: &bytes::BytesMut) -> (r: Vec<u8>)
    ensures
        r@ == buffer_bytes(*b),
{
    b.to_vec()
}

/// Relies on `Buf::advance` for `BytesMut`: the first `n` bytes go; it panics
/// past the end, which `requires` leaves out.
#[verifier::external_body]
fn buffer_advance(b: &mut bytes::BytesMut, n: usize)
    requires
        n <= buffer_bytes(*old(b)).len(),
    ensures
        buffer_bytes(*final(b)) == buffer_bytes(*old(b)).skip(n as int),
{
    bytes::Buf::advance(b, n)
}

/// Whether rsip accepts the bytes `b` as one SIP message.
pub uninterp spec fn parses(b: Seq<u8>) -> bool;

/// Relies on rsip's `SipMessage::try_from(&[u8])`, the parser of the stack:
/// whether it succeeds depends on the bytes alone.
#[verifier::external_body]
fn parse_message(b: &[u8]) -> (r: Option<rsip::SipMessage>)
    ensures
        r.is_some() == parses(b@),
{
    rsip::SipMessage::try_from(b).ok()
}

/// The most bytes a stream may buffer without holding a whole message.
pub const MAX_SIP_MESSAGE_SIZE: usize = 65535;

/// The keepalive request: CR LF CR LF.
pub open spec fn ping() -> Seq<u8> {
    seq![13u8, 10u8, 13u8, 10u8]
}

/// The keepalive response: CR LF.
pub open spec fn pong() -> Seq<u8> {
    seq![13u8, 10u8]
}

/// The blank line that ends a header block starts at `i`.
pub open spec fn blank_line_at(s: Seq<u8>, i: int) -> bool {
    0 <= i && i + 4 <= s.len() && s.subrange(i, i + 4) == ping()
}

/// What a stream decoder hands up.
pub enum SipCodecType {
    Message(rsip::SipMessage),
    KeepaliveRequest,
    KeepaliveResponse,
}

/// Index of the first blank line (CR LF CR LF) of `b`.
fn find_blank_line(b: &Vec<u8>) -> (r: Option<usize>)
    ensures
        match r {
            Some(e) => blank_line_at(b@, e as int) && forall|j: int| 0 <= j < e ==> !#[trigger] blank_line_at(b@, j),
            None => forall|j: int| !#[trigger] blank_line_at(b@, j),
        },
{
    let n = b.len();
    if n < 4 {
        return None;
    }
    let mut i: usize = 0;
    while i <= n - 4
        invariant
            n == b@.len(),
            n >= 4,
            i <= n - 3,
            forall|j: int| 0 <= j < i ==> !#[trigger] blank_line_at(b@, j),
        decreases n - i,
    {
        let hit = b[i] == 13 && b[i + 1] == 10 && b[i + 2] == 13 && b[i + 3] == 10;
        proof {
            let w = b@.subrange(i as int, i + 4);
            assert(w[0] == b@[i as int] && w[1] == b@[i + 1] && w[2] == b@[i + 2] && w[3] == b@[i + 3]);
            if hit {
                assert(w == ping());
            }
        }
        if hit {
            return Some(i);
        }
        i = i + 1;
    }
    None
}

/// ASCII lower case of a byte.
pub open spec fn lower(b: u8) -> u8 {
    if 65 <= b <= 90 {
        (b + 32) as u8
    } else {
        b
    }
}

/// `content-length`, the header name in lower case.
pub open spec fn long_name() -> Seq<u8> {
    seq![99u8, 111, 110, 116, 101, 110, 116, 45, 108, 101, 110, 103, 116, 104]
}

/// `l`, the compact header name.
pub open spec fn short_name() -> Seq<u8> {
    seq![108u8]
}

/// The bytes at `i` spell `name`, ignoring ASCII case.
pub open spec fn name_at(s: Seq<u8>, i: int, name: Seq<u8>) -> bool {
    0 <= i && i + name.len() <= s.len() && forall|k: int| 0 <= k < name.len() ==> lower(#[trigger] s[i + k]) == name[k]
}

/// The first index at or after `j` that is not a space or tab.
pub open spec fn skip_ws(s: Seq<u8>, j: int) -> int
    decreases s.len() - j,
{
    if 0 <= j < s.len() && (s[j] == 32 || s[j] == 9) {
        skip_ws(s, j + 1)
    } else {
        j
    }
}

pub open spec fn is_digit(b: u8) -> bool {
    48 <= b <= 57
}

/// The first index at or after `j` that is not a digit.
pub open spec fn digits_end(s: Seq<u8>, j: int) -> int
    decreases s.len() - j,
{
    if 0 <= j < s.len() && is_digit(s[j]) {
        digits_end(s, j + 1)
    } else {
        j
    }
}

/// The number that the digits `s[j..k]` spell.
pub open spec fn digits_value(s: Seq<u8>, j: int, k: int) -> nat
    decreases k - j,
{
    if k <= j {
        0
    } else {
        digits_value(s, j, k - 1) * 10 + (s[k - 1] - 48) as nat
    }
}

/// A line starts at `i`: it follows a CR LF.
pub open spec fn line_start(s: Seq<u8>, i: int) -> bool {
    2 <= i <= s.len() && s[i - 2] == 13 && s[i - 1] == 10
}

/// The value of a Content-Length header line starting at `i`, if one does:
/// the name (long or compact, any case), optional blanks, a colon, optional
/// blanks, then at least one digit.
pub open spec fn length_at(s: Seq<u8>, i: int) -> Option<nat> {
    let n = if name_at(s, i, long_name()) {
        i + 14
    } else if name_at(s, i, short_name()) {
        i + 1
    } else {
        -1
    };
    if n < 0 {
        None
    } else {
        let c = skip_ws(s, n);
        if c < s.len() && s[c] == 58 {
            let d = skip_ws(s, c + 1);
            let e = digits_end(s, d);
            if e > d {
                Some(digits_value(s, d, e))
            } else {
                None
            }
        } else {
            None
        }
    }
}

/// A Content-Length header line that carries a value starts at `i`, within the
/// header block that ends at `end`.
pub open spec fn length_line(s: Seq<u8>, i: int, end: int) -> bool {
    2 <= i <= end && line_start(s, i) && length_at(s, i).is_some()
}

/// The body length a header block that ends at `end` declares: the value of its
/// first Content-Length line, else 0.
#[verifier::opaque]
pub open spec fn declared_length(s: Seq<u8>, end: int) -> nat {
    if exists|i: int| #[trigger] length_line(s, i, end) {
        let i = choose|i: int| length_line(s, i, end) && forall|j: int| 2 <= j < i ==> !#[trigger] length_line(s, j, end);
        length_at(s, i).unwrap()
    } else {
        0
    }
}


fn lower_byte(b: u8) -> (r: u8)
    ensures
        r == lower(b),
{
    if 65 <= b && b <= 90 {
        b + 32
    } else {
        b
    }
}

fn name_matches(b: &Vec<u8>, i: usize, name: &Vec<u8>) -> (r: bool)
    ensures
        r == name_at(b@, i as int, name@),
{
    let n = b.len();
    if i > n || name.len() > n - i {
        return false;
    }
    let mut k: usize = 0;
    while k < name.len()
        invariant
            n == b@.len(),
            i + name@.len() <= b@.len(),
            k <= name@.len(),
            forall|m: int| 0 <= m < k ==> lower(#[trigger] b@[i + m]) == name@[m],
        decreases name@.len() - k,
    {
        assert(i + k < b@.len());
        if lower_byte(b[i + k]) != name[k] {
            return false;
        }
        k = k + 1;
    }
    true
}

fn skip_blanks(b: &Vec<u8>, j: usize) -> (r: usize)
    requires
        j <= b@.len(),
    ensures
        r == skip_ws(b@, j as int),
        j <= r <= b@.len(),
    decreases b@.len() - j,
{
    if j < b.len() && (b[j] == 32 || b[j] == 9) {
        skip_blanks(b, j + 1)
    } else {
        j
    }
}

fn read_digits(b: &Vec<u8>, j: usize) -> (r: (usize, Option<u64>))
    requires
        j <= b@.len(),
    ensures
        r.0 == digits_end(b@, j as int),
        j <= r.0 <= b@.len(),
        match r.1 {
            Some(v) => v == digits_value(b@, j as int, r.0 as int),
            None => digits_value(b@, j as int, r.0 as int) > u64::MAX,
        },
{
    let mut k: usize = j;
    let mut v: u64 = 0;
    let mut big = false;
    while k < b.len() && 48 <= b[k] && b[k] <= 57
        invariant
            j <= k <= b@.len(),
            digits_end(b@, j as int) == digits_end(b@, k as int),
            !big ==> v == digits_value(b@, j as int, k as int),
            big ==> digits_value(b@, j as int, k as int) > u64::MAX,
        decreases b@.len() - k,
    {
        let d = (b[k] - 48) as u64;
        proof {
            assert(digits_value(b@, j as int, k + 1) == digits_value(b@, j as int, k as int) * 10 + d);
        }
        if !big {
            if v > (u64::MAX - d) / 10 {
                big = true;
                proof {
                    assert(digits_value(b@, j as int, k as int) * 10 + d > u64::MAX) by (nonlinear_arith)
                        requires
                            v == digits_value(b@, j as int, k as int),
                            v > (u64::MAX - d) / 10,
                            d <= 9,
                    ;
                }
            } else {
                v = v * 10 + d;
            }
        } else {
            proof {
                assert(digits_value(b@, j as int, k as int) * 10 + d > u64::MAX) by (nonlinear_arith)
                    requires
                        digits_value(b@, j as int, k as int) > u64::MAX,
                ;
            }
        }
        k = k + 1;
    }
    if big {
        (k, None)
    } else {
        (k, Some(v))
    }
}

/// The value of a Content-Length line at `i`, read as `length_at` says;
/// `Some(None)` where the value does not fit in a `u64`.
fn length_value_at(b: &Vec<u8>, i: usize, long: &Vec<u8>, short: &Vec<u8>) -> (r: Option<Option<u64>>)
    requires
        i <= b@.len(),
        long@ == long_name(),
        short@ == short_name(),
    ensures
        r.is_some() == length_at(b@, i as int).is_some(),
        r matches Some(Some(v)) ==> length_at(b@, i as int) == Some(v as nat),
        r matches Some(None) ==> length_at(b@, i as int).unwrap() > u64::MAX,
{
    let len = b.len();
    proof {
        assert(long_name().len() == 14);
        assert(short_name().len() == 1);
    }
    let n = if name_matches(b, i, long) {
        i + 14
    } else if name_matches(b, i, short) {
        i + 1
    } else {
        return None;
    };
    let c = skip_blanks(b, n);
    if c < b.len() && b[c] == 58 {
        let d = skip_blanks(b, c + 1);
        let (e, v) = read_digits(b, d);
        if e > d {
            Some(v)
        } else {
            None
        }
    } else {
        None
    }
}

/// The body length declared by the header block that ends at `end`, as
/// `declared_length` says; `None` where it does not fit in a `u64`.
fn find_length(b: &Vec<u8>, end: usize) -> (r: Option<u64>)
    requires
        end + 4 <= b@.len(),
    ensures
        match r {
            Some(v) => v == declared_length(b@, end as int),
            None => declared_length(b@, end as int) > u64::MAX,
        },
{
    let long: Vec<u8> = vec![99u8, 111, 110, 116, 101, 110, 116, 45, 108, 101, 110, 103, 116, 104];
    let short: Vec<u8> = vec![108u8];
    proof {
        assert(long@ == long_name());
        assert(short@ == short_name());
    }
    let len = b.len();
    let mut i: usize = 2;
    while i <= end
        invariant
            2 <= i <= end + 2,
            end + 4 <= b@.len(),
            len == b@.len(),
            long@ == long_name(),
            short@ == short_name(),
            forall|j: int| 2 <= j < i ==> !#[trigger] length_line(b@, j, end as int),
        decreases end + 1 - i,
    {
        if b[i - 2] == 13 && b[i - 1] == 10 {
            match length_value_at(b, i, &long, &short) {
                Some(v) => {
                    proof {
                        reveal(declared_length);
                        assert(length_line(b@, i as int, end as int));
                        let k = choose|k: int| length_line(b@, k, end as int) && forall|j: int| 2 <= j < k ==> !#[trigger] length_line(b@, j, end as int);
                        if k < i {
                        } else if k > i {
                            assert(!length_line(b@, i as int, end as int));
                        }
                    }
                    return v;
                },
                None => {
                    proof {
                        assert(!length_line(b@, i as int, end as int));
                    }
                },
            }
        } else {
            proof {
                assert(!line_start(b@, i as int));
            }
        }
        i = i + 1;
    }
    proof {
        reveal(declared_length);
        assert forall|j: int| !#[trigger] length_line(b@, j, end as int) by {
            if 2 <= j <= end {
                assert(j < i);
            }
        }
    }
    Some(0)
}

/// What decoding does to a buffer `s` that starts with neither ping nor pong.
pub open spec fn message_post(s: Seq<u8>, after: Seq<u8>, r: Result<Option<SipCodecType>, CodecError>) -> bool {
    if exists|i: int| #[trigger] blank_line_at(s, i) {
        let e = choose|e: int|
            blank_line_at(s, e) && forall|j: int| 0 <= j < e ==> !#[trigger] blank_line_at(s, j);
        let total = e + 4 + declared_length(s, e);
        if total > s.len() {
            r is Ok && r->Ok_0.is_none() && after == s
        } else {
            &&& after == s.skip(total)
            &&& (parses(s.take(total)) ==> r is Ok && r->Ok_0 matches Some(SipCodecType::Message(_)))
            &&& (!parses(s.take(total)) ==> r == Err::<Option<SipCodecType>, CodecError>(CodecError::ParseError))
        }
    } else {
        &&& (s.len() > MAX_SIP_MESSAGE_SIZE ==> r == Err::<Option<SipCodecType>, CodecError>(CodecError::MessageTooLarge)
            && after.len() == 0)
        &&& (s.len() <= MAX_SIP_MESSAGE_SIZE ==> r is Ok && r->Ok_0.is_none() && after == s)
    }
            
}

/// Takes the next message off the front of `src`, as `message_post` says.
#[verifier::rlimit(40)]
fn decode_message(src: &mut Vec<u8>) -> (r: Result<Option<SipCodecType>, CodecError>)
    ensures
        message_post(old(src)@, final(src)@, r),
        final(src)@.len() <= old(src)@.len(),
        final(src)@ == old(src)@.skip(old(src)@.len() - final(src)@.len()),
{
    let n = src.len();
    let ghost s = src@;
    match find_blank_line(src) {
        Some(e) => {
            proof {
                let e2 = choose|e2: int| blank_line_at(s, e2) && forall|j: int| 0 <= j < e2 ==> !#[trigger] blank_line_at(s, j);
                if e2 < e {
                } else if e2 > e {
                    assert(!blank_line_at(s, e as int));
                }
            }
            proof {
                assert(blank_line_at(s, e as int));
            }
            let room = (n - e - 4) as u64;
            let body = match find_length(src, e) {
                Some(l) => l,
                None => {
                    return Ok(None);
                },
            };
            proof {
                assert(body == declared_length(s, e as int));
            }
            if body > room {
                return Ok(None);
            }
            let total = e + 4 + body as usize;
            let rest = src.split_off(total);
            let parsed = parse_message(src.as_slice());
            *src = rest;
            match parsed {
                Some(m) => Ok(Some(SipCodecType::Message(m))),
                None => Err(CodecError::ParseError),
            }
        },
        None => {
            if n > MAX_SIP_MESSAGE_SIZE {
                src.clear();
                return Err(CodecError::MessageTooLarge);
            }
            Ok(None)
        },
    }
}

#[verifier::opaque]
/// What decoding does: `s` is the buffer before, `after` the buffer after.
pub open spec fn decode_post(s: Seq<u8>, after: Seq<u8>, r: Result<Option<SipCodecType>, CodecError>) -> bool {
    let is_ping = s.len() >= 4 && s.take(4) == ping();
    let is_pong = s.len() >= 2 && s.take(2) == pong();
    if is_ping {
        r is Ok && r->Ok_0 == Some(SipCodecType::KeepaliveRequest) && after == s.skip(4)
    } else if is_pong {
        r is Ok && r->Ok_0 == Some(SipCodecType::KeepaliveResponse) && after == s.skip(2)
    } else {
        message_post(s, after, r)
    }
}

/// The decoder of a stream connection.
pub struct SipCodec {}

impl SipCodec {
    pub fn new() -> (r: SipCodec) {
        SipCodec {  }
    }

    /// Takes the next item off the front of `src`. A leading ping or pong is a
    /// keepalive. Otherwise a message is its header block, up to and including
    /// the first blank line, and then as many body bytes as its Content-Length
    /// declares (none without one). A whole message leaves the buffer whether
    /// or not it parses; an incomplete one stays. More than
    /// `MAX_SIP_MESSAGE_SIZE` bytes without a blank line is an error that
    /// empties the buffer.
    #[verifier::rlimit(60)]
    pub fn decode_bytes(&mut self, src: &mut Vec<u8>) -> (r: Result<Option<SipCodecType>, CodecError>)
        ensures
            decode_post(old(src)@, final(src)@, r),
            final(src)@.len() <= old(src)@.len(),
            final(src)@ == old(src)@.skip(old(src)@.len() - final(src)@.len()),
    {
        let n = src.len();
        if n >= 4 && src[0] == 13 && src[1] == 10 && src[2] == 13 && src[3] == 10 {
            proof {
                assert(src@.take(4) == ping());
            }
            let rest = src.split_off(4);
            *src = rest;
            proof {
                reveal(decode_post);
            }
            return Ok(Some(SipCodecType::KeepaliveRequest));
        }
        proof {
            assert(!(src@.len() >= 4 && src@.take(4) == ping())) by {
                if n >= 4 && src@.take(4) == ping() {
                    assert(src@.take(4)[0] == src@[0] && src@.take(4)[1] == src@[1]);
                    assert(src@.take(4)[2] == src@[2] && src@.take(4)[3] == src@[3]);
                    assert(ping()[0] == 13 && ping()[1] == 10 && ping()[2] == 13 && ping()[3] == 10);
                }
            }
        }
        if n >= 2 && src[0] == 13 && src[1] == 10 {
            proof {
                assert(src@.take(2) == pong());
            }
            let rest = src.split_off(2);
            *src = rest;
            proof {
                reveal(decode_post);
            }
            return Ok(Some(SipCodecType::KeepaliveResponse));
        }
        proof {
            assert(!(src@.len() >= 2 && src@.take(2) == pong())) by {
                if n >= 2 && src@.take(2) == pong() {
                    assert(src@.take(2)[0] == src@[0] && src@.take(2)[1] == src@[1]);
                    assert(pong()[0] == 13 && pong()[1] == 10);
                }
            }
        }
        let r = decode_message(src);
        proof {
            reveal(decode_post);
        }
        r
    }

    /// Takes the next item off the front of the stream buffer `src`, as
    /// `decode_post` says.
    pub fn decode(&mut self, src: &mut bytes::BytesMut) -> (r: Result<Option<SipCodecType>, CodecError>)
        ensures
            decode_post(buffer_bytes(*old(src)), buffer_bytes(*final(src)), r),
    {
        let mut v = buffer_to_vec(src);
        let n = v.len();
        let ghost before = v@;
        let r = self.decode_bytes(&mut v);
        buffer_advance(src, n - v.len());
        proof {
            assert(buffer_bytes(*src) == v@);
        }
        r
    }
}

} // verus!

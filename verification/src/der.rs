//! DER `Ecdsa-Sig-Value` codec: a SEQUENCE of exactly two positive INTEGERs
//! that consumes the whole input, with minimal-encoding rules enforced.

use vstd::prelude::*;

use crate::errors::DecodeError;
use crate::num::copy_range;

verus! {

/// The DER tag of an ASN.1 SEQUENCE (constructed).
pub const TAG_SEQUENCE: u8 = 0x30;

/// The DER tag of an ASN.1 INTEGER.
pub const TAG_INTEGER: u8 = 0x02;

/// Read a DER length starting at `pos`: the content length and the position
/// just after the length bytes. Only the three minimal forms a signature can
/// use are admitted: one byte below `0x80`, `0x81` followed by a byte of at
/// least `0x80`, or `0x82` followed by two bytes encoding at least `0x100`.
pub open spec fn spec_parse_len(s: Seq<u8>, pos: int) -> Option<(nat, int)> {
    if !(0 <= pos < s.len()) {
        None
    } else if s[pos] < 0x80 {
        Some(((s[pos] as nat), pos + 1))
    } else if s[pos] == 0x81 {
        if pos + 1 < s.len() && s[pos + 1] >= 0x80 {
            Some(((s[pos + 1] as nat), pos + 2))
        } else {
            None
        }
    } else if s[pos] == 0x82 {
        if pos + 2 < s.len() && (s[pos + 1] as nat) * 256 + (s[pos + 2] as nat) >= 0x100 {
            Some(((s[pos + 1] as nat) * 256 + (s[pos + 2] as nat), pos + 3))
        } else {
            None
        }
    } else {
        None
    }
}

/// Whether `c` is the content of a minimally encoded positive DER INTEGER:
/// nonempty, not negative (high bit of the first byte clear), and with a
/// leading zero byte only when the next byte's high bit would otherwise make
/// the value read as negative. This rejects zero, negative values, and any
/// superfluous leading zero.
pub open spec fn is_minimal_positive(c: Seq<u8>) -> bool {
    &&& c.len() >= 1
    &&& c[0] < 0x80
    &&& (c[0] == 0 ==> c.len() >= 2 && c[1] >= 0x80)
}

/// Read one DER INTEGER starting at `pos`: its content bytes and the
/// position just after them. Fails unless the content is a minimally
/// encoded positive integer.
pub open spec fn spec_parse_positive_integer(s: Seq<u8>, pos: int) -> Option<(Seq<u8>, int)> {
    if !(0 <= pos < s.len() && s[pos] == TAG_INTEGER) {
        None
    } else {
        match spec_parse_len(s, pos + 1) {
            None => None,
            Some((len, content_start)) => {
                if len > s.len() - content_start {
                    None
                } else {
                    let content = s.subrange(content_start, content_start + len);
                    if is_minimal_positive(content) {
                        Some((content, content_start + len))
                    } else {
                        None
                    }
                }
            },
        }
    }
}

/// What decoding a DER `Ecdsa-Sig-Value` returns: the contents of the two
/// INTEGERs `(r, s)`, unreduced, when the input is one SEQUENCE holding
/// exactly two minimally encoded positive INTEGERs and nothing else — no
/// trailing bytes after the SEQUENCE, none inside it after the second
/// INTEGER. Every structural violation is the one malformed-signature error.
pub open spec fn spec_decode_der_signature(input: Seq<u8>) -> Result<
    (Seq<u8>, Seq<u8>),
    DecodeError,
> {
    if input.len() == 0 || input[0] != TAG_SEQUENCE {
        Err(DecodeError::MalformedSignature)
    } else {
        match spec_parse_len(input, 1) {
            None => Err(DecodeError::MalformedSignature),
            Some((len, body_start)) => {
                if body_start + len != input.len() {
                    Err(DecodeError::MalformedSignature)
                } else {
                    match spec_parse_positive_integer(input, body_start) {
                        None => Err(DecodeError::MalformedSignature),
                        Some((r, p1)) => match spec_parse_positive_integer(input, p1) {
                            None => Err(DecodeError::MalformedSignature),
                            Some((s, p2)) => {
                                if p2 == input.len() {
                                    Ok((r, s))
                                } else {
                                    Err(DecodeError::MalformedSignature)
                                }
                            },
                        },
                    }
                }
            },
        }
    }
}

/// The minimal DER encoding of a length below `0x10000`.
pub open spec fn spec_len_encoding(n: nat) -> Seq<u8>
    recommends
        n < 0x10000,
{
    if n < 0x80 {
        seq![n as u8]
    } else if n < 0x100 {
        seq![0x81u8, n as u8]
    } else {
        seq![0x82u8, (n / 256) as u8, (n % 256) as u8]
    }
}

/// The DER encoding of an INTEGER with content `c`.
pub open spec fn spec_int_encoding(c: Seq<u8>) -> Seq<u8> {
    seq![TAG_INTEGER] + spec_len_encoding(c.len()) + c
}

/// The DER encoding of a SEQUENCE with content `body`.
pub open spec fn spec_seq_encoding(body: Seq<u8>) -> Seq<u8> {
    seq![TAG_SEQUENCE] + spec_len_encoding(body.len()) + body
}

/// One byte of an embedded sequence: where `e` stands at `pos` inside `s`,
/// the byte at offset `k` is `e[k]`.
proof fn lemma_subrange_index(s: Seq<u8>, pos: int, e: Seq<u8>, k: int)
    requires
        0 <= pos,
        pos + e.len() <= s.len(),
        0 <= k < e.len(),
        s.subrange(pos, pos + e.len() as int) == e,
    ensures
        s[pos + k] == e[k],
{
    assert(s.subrange(pos, pos + e.len() as int)[k] == s[pos + k]);
}

/// Reading a DER length where a minimal length encoding stands gives back
/// exactly that length.
proof fn lemma_parse_len_of_encoding(s: Seq<u8>, pos: int, n: nat)
    requires
        n < 0x10000,
        0 <= pos,
        pos + spec_len_encoding(n).len() <= s.len(),
        s.subrange(pos, pos + spec_len_encoding(n).len() as int) == spec_len_encoding(n),
    ensures
        spec_parse_len(s, pos) == Some((n, pos + spec_len_encoding(n).len() as int)),
{
    let e = spec_len_encoding(n);
    if n < 0x80 {
        lemma_subrange_index(s, pos, e, 0);
        assert(e[0] == n as u8);
        assert(s[pos] == n as u8);
    } else if n < 0x100 {
        lemma_subrange_index(s, pos, e, 0);
        lemma_subrange_index(s, pos, e, 1);
        assert(e[0] == 0x81u8 && e[1] == n as u8);
        assert(s[pos] == 0x81u8);
        assert(s[pos + 1] == n as u8);
    } else {
        lemma_subrange_index(s, pos, e, 0);
        lemma_subrange_index(s, pos, e, 1);
        lemma_subrange_index(s, pos, e, 2);
        vstd::arithmetic::div_mod::lemma_fundamental_div_mod(n as int, 256);
        assert(n / 256 < 0x100) by (nonlinear_arith)
            requires n < 0x10000,
        ;
        assert(e[0] == 0x82u8 && e[1] == (n / 256) as u8 && e[2] == (n % 256) as u8);
        assert(s[pos] == 0x82u8);
        assert(s[pos + 1] == (n / 256) as u8);
        assert(s[pos + 2] == (n % 256) as u8);
        assert((s[pos + 1] as nat) * 256 + (s[pos + 2] as nat) == n);
    }
}

/// Where a whole DER INTEGER encoding stands at `pos` inside `s`, the tag,
/// length and content bytes are laid out as the encoder put them.
proof fn lemma_int_encoding_layout(s: Seq<u8>, pos: int, c: Seq<u8>)
    requires
        c.len() < 0x10000,
        0 <= pos,
        pos + spec_int_encoding(c).len() <= s.len(),
        s.subrange(pos, pos + spec_int_encoding(c).len() as int) == spec_int_encoding(c),
    ensures
        s[pos] == TAG_INTEGER,
        spec_parse_len(s, pos + 1) == Some(
            (c.len(), pos + 1 + spec_len_encoding(c.len()).len() as int),
        ),
        s.subrange(
            pos + 1 + spec_len_encoding(c.len()).len() as int,
            pos + 1 + spec_len_encoding(c.len()).len() + c.len() as int,
        ) == c,
{
    let le = spec_len_encoding(c.len());
    let e = spec_int_encoding(c);
    assert(e.len() == 1 + le.len() + c.len());
    lemma_subrange_index(s, pos, e, 0);
    assert(e[0] == TAG_INTEGER);
    assert forall|i: int| 0 <= i < le.len() implies s.subrange(
        pos + 1,
        pos + 1 + le.len() as int,
    )[i] == le[i] by {
        lemma_subrange_index(s, pos, e, 1 + i);
        assert(e[1 + i] == le[i]);
        assert(s.subrange(pos + 1, pos + 1 + le.len() as int)[i] == s[pos + 1 + i]);
    }
    assert(s.subrange(pos + 1, pos + 1 + le.len() as int) =~= le);
    lemma_parse_len_of_encoding(s, pos + 1, c.len());
    let cs = pos + 1 + le.len() as int;
    assert forall|i: int| 0 <= i < c.len() implies s.subrange(cs, cs + c.len() as int)[i]
        == c[i] by {
        lemma_subrange_index(s, pos, e, 1 + le.len() + i);
        assert(e[1 + le.len() + i] == c[i]);
        assert(s.subrange(cs, cs + c.len() as int)[i] == s[cs + i]);
        assert(s[pos + (1 + le.len() + i)] == s[cs + i]);
    }
    assert(s.subrange(cs, cs + c.len() as int) =~= c);
}

/// Reading a DER INTEGER where the encoding of a minimal positive content
/// stands gives back exactly that content.
proof fn lemma_parse_int_of_encoding(s: Seq<u8>, pos: int, c: Seq<u8>)
    requires
        is_minimal_positive(c),
        c.len() < 0x10000,
        0 <= pos,
        pos + spec_int_encoding(c).len() <= s.len(),
        s.subrange(pos, pos + spec_int_encoding(c).len() as int) == spec_int_encoding(c),
    ensures
        spec_parse_positive_integer(s, pos) == Some(
            (c, pos + spec_int_encoding(c).len() as int),
        ),
{
    lemma_int_encoding_layout(s, pos, c);
}

/// Reading a DER INTEGER whose content is not a minimal positive integer —
/// among them one with a superfluous leading zero — fails.
proof fn lemma_parse_int_of_nonminimal(s: Seq<u8>, pos: int, c: Seq<u8>)
    requires
        !is_minimal_positive(c),
        c.len() < 0x10000,
        0 <= pos,
        pos + spec_int_encoding(c).len() <= s.len(),
        s.subrange(pos, pos + spec_int_encoding(c).len() as int) == spec_int_encoding(c),
    ensures
        spec_parse_positive_integer(s, pos) is None,
{
    lemma_int_encoding_layout(s, pos, c);
}

/// Layout of a SEQUENCE encoding: the tag, the declared length, and each
/// body byte where the encoder put it.
proof fn lemma_seq_encoding_layout(body: Seq<u8>)
    requires
        body.len() < 0x10000,
    ensures
        spec_seq_encoding(body).len() == 1 + spec_len_encoding(body.len()).len() + body.len(),
        spec_seq_encoding(body)[0] == TAG_SEQUENCE,
        spec_parse_len(spec_seq_encoding(body), 1) == Some(
            (body.len(), 1 + spec_len_encoding(body.len()).len() as int),
        ),
        forall|i: int|
            0 <= i < body.len() ==> #[trigger] spec_seq_encoding(body)[1 + spec_len_encoding(
                body.len(),
            ).len() + i] == body[i],
{
    let le = spec_len_encoding(body.len());
    let input = spec_seq_encoding(body);
    assert forall|i: int| 0 <= i < le.len() implies input.subrange(1, 1 + le.len() as int)[i]
        == le[i] by {
        assert(input.subrange(1, 1 + le.len() as int)[i] == input[1 + i]);
        assert(input[1 + i] == le[i]);
    }
    assert(input.subrange(1, 1 + le.len() as int) =~= le);
    lemma_parse_len_of_encoding(input, 1, body.len());
}

/// Where a whole INTEGER encoding stands at offset `off` inside a SEQUENCE
/// body, reading an INTEGER there succeeds exactly on minimal positive
/// content and hands that content back.
proof fn lemma_int_in_body(body: Seq<u8>, off: int, c: Seq<u8>)
    requires
        body.len() < 0x10000,
        c.len() < 0x10000,
        0 <= off,
        off + spec_int_encoding(c).len() <= body.len(),
        body.subrange(off, off + spec_int_encoding(c).len() as int) == spec_int_encoding(c),
    ensures
        spec_parse_positive_integer(
            spec_seq_encoding(body),
            1 + spec_len_encoding(body.len()).len() + off,
        ) == (if is_minimal_positive(c) {
            Some(
                (
                    c,
                    1 + spec_len_encoding(body.len()).len() + off + spec_int_encoding(
                        c,
                    ).len() as int,
                ),
            )
        } else {
            None::<(Seq<u8>, int)>
        }),
{
    let input = spec_seq_encoding(body);
    let ec = spec_int_encoding(c);
    let bs = 1 + spec_len_encoding(body.len()).len() as int;
    lemma_seq_encoding_layout(body);
    assert forall|i: int| 0 <= i < ec.len() implies input.subrange(
        bs + off,
        bs + off + ec.len() as int,
    )[i] == ec[i] by {
        assert(input[1 + spec_len_encoding(body.len()).len() + (off + i)] == body[off + i]);
        lemma_subrange_index(body, off, ec, i);
        assert(input.subrange(bs + off, bs + off + ec.len() as int)[i] == input[bs + off + i]);
    }
    assert(input.subrange(bs + off, bs + off + ec.len() as int) =~= ec);
    if is_minimal_positive(c) {
        lemma_parse_int_of_encoding(input, bs + off, c);
    } else {
        lemma_parse_int_of_nonminimal(input, bs + off, c);
    }
}

/// A DER sequence with bytes after the second INTEGER is rejected: for any
/// two well-formed integer contents, a SEQUENCE whose declared body carries
/// their encodings followed by anything at all decodes to the
/// malformed-signature error.
pub proof fn lemma_trailing_bytes_rejected(r: Seq<u8>, s: Seq<u8>, junk: Seq<u8>)
    requires
        is_minimal_positive(r),
        is_minimal_positive(s),
        junk.len() >= 1,
        spec_int_encoding(r).len() + spec_int_encoding(s).len() + junk.len() < 0x10000,
    ensures
        spec_decode_der_signature(
            spec_seq_encoding(spec_int_encoding(r) + spec_int_encoding(s) + junk),
        ) == Err::<(Seq<u8>, Seq<u8>), _>(DecodeError::MalformedSignature),
{
    let er = spec_int_encoding(r);
    let es = spec_int_encoding(s);
    let body = er + es + junk;
    lemma_seq_encoding_layout(body);
    assert(body.subrange(0, er.len() as int) =~= er);
    lemma_int_in_body(body, 0, r);
    assert(body.subrange(er.len() as int, er.len() + es.len() as int) =~= es);
    lemma_int_in_body(body, er.len() as int, s);
}

/// A DER sequence whose first INTEGER carries an extra leading zero — or any
/// other non-minimal or non-positive content — is rejected, whatever follows
/// it inside the sequence.
pub proof fn lemma_nonminimal_first_integer_rejected(c: Seq<u8>, rest: Seq<u8>)
    requires
        !is_minimal_positive(c),
        spec_int_encoding(c).len() + rest.len() < 0x10000,
    ensures
        spec_decode_der_signature(spec_seq_encoding(spec_int_encoding(c) + rest)) == Err::<
            (Seq<u8>, Seq<u8>),
            _,
        >(DecodeError::MalformedSignature),
{
    let ec = spec_int_encoding(c);
    let body = ec + rest;
    lemma_seq_encoding_layout(body);
    assert(body.subrange(0, ec.len() as int) =~= ec);
    lemma_int_in_body(body, 0, c);
}

/// A DER sequence whose second INTEGER carries an extra leading zero — or
/// any other non-minimal or non-positive content — is rejected.
pub proof fn lemma_nonminimal_second_integer_rejected(r: Seq<u8>, c: Seq<u8>, rest: Seq<u8>)
    requires
        is_minimal_positive(r),
        !is_minimal_positive(c),
        spec_int_encoding(r).len() + spec_int_encoding(c).len() + rest.len() < 0x10000,
    ensures
        spec_decode_der_signature(
            spec_seq_encoding(spec_int_encoding(r) + spec_int_encoding(c) + rest),
        ) == Err::<(Seq<u8>, Seq<u8>), _>(DecodeError::MalformedSignature),
{
    let er = spec_int_encoding(r);
    let ec = spec_int_encoding(c);
    let body = er + ec + rest;
    lemma_seq_encoding_layout(body);
    assert(body.subrange(0, er.len() as int) =~= er);
    lemma_int_in_body(body, 0, r);
    assert(body.subrange(er.len() as int, er.len() + ec.len() as int) =~= ec);
    lemma_int_in_body(body, er.len() as int, c);
}

/// Round trip at the signature level: the canonical DER encoding of two
/// minimal positive integer contents decodes back to exactly those contents.
pub proof fn lemma_der_signature_round_trip(r: Seq<u8>, s: Seq<u8>)
    requires
        is_minimal_positive(r),
        is_minimal_positive(s),
        spec_int_encoding(r).len() + spec_int_encoding(s).len() < 0x10000,
    ensures
        spec_decode_der_signature(spec_seq_encoding(spec_int_encoding(r) + spec_int_encoding(s)))
            == Ok::<_, DecodeError>((r, s)),
{
    let er = spec_int_encoding(r);
    let es = spec_int_encoding(s);
    let body = er + es;
    lemma_seq_encoding_layout(body);
    assert(body.subrange(0, er.len() as int) =~= er);
    lemma_int_in_body(body, 0, r);
    assert(body.subrange(er.len() as int, er.len() + es.len() as int) =~= es);
    lemma_int_in_body(body, er.len() as int, s);
}

/// A length the reader accepts stands in the input as exactly its minimal
/// encoding: the reader admits no other form.
proof fn lemma_parse_len_canonical(s: Seq<u8>, pos: int, l: nat, end: int)
    requires
        spec_parse_len(s, pos) == Some((l, end)),
    ensures
        l < 0x10000,
        0 <= pos < end <= s.len(),
        end - pos == spec_len_encoding(l).len(),
        s.subrange(pos, end) == spec_len_encoding(l),
{
    if s[pos] < 0x80 {
        assert(s.subrange(pos, end) =~= spec_len_encoding(l));
    } else if s[pos] == 0x81 {
        assert(s.subrange(pos, end) =~= spec_len_encoding(l));
    } else {
        vstd::arithmetic::div_mod::lemma_fundamental_div_mod_converse(
            l as int,
            256,
            s[pos + 1] as int,
            s[pos + 2] as int,
        );
        assert(spec_len_encoding(l) == seq![0x82u8, s[pos + 1], s[pos + 2]]);
        assert(s.subrange(pos, end) =~= spec_len_encoding(l));
    }
}

/// An INTEGER the reader accepts stands in the input as exactly the minimal
/// encoding of its content, and that content is a minimal positive integer.
proof fn lemma_parse_int_canonical(s: Seq<u8>, pos: int, c: Seq<u8>, end: int)
    requires
        spec_parse_positive_integer(s, pos) == Some((c, end)),
    ensures
        is_minimal_positive(c),
        c.len() < 0x10000,
        0 <= pos < end <= s.len(),
        end - pos == spec_int_encoding(c).len(),
        s.subrange(pos, end) == spec_int_encoding(c),
{
    let (len, cs) = spec_parse_len(s, pos + 1)->Some_0;
    lemma_parse_len_canonical(s, pos + 1, len, cs);
    let le = spec_len_encoding(len);
    assert(c == s.subrange(cs, cs + len));
    assert(c.len() == len);
    let e = spec_int_encoding(c);
    assert(e.len() == 1 + le.len() + c.len());
    assert forall|i: int| 0 <= i < e.len() implies s.subrange(pos, end)[i] == e[i] by {
        assert(s.subrange(pos, end)[i] == s[pos + i]);
        if i == 0 {
            assert(e[0] == TAG_INTEGER);
        } else if i < 1 + le.len() {
            assert(e[i] == le[i - 1]);
            assert(s.subrange(pos + 1, cs)[i - 1] == s[pos + i]);
        } else {
            assert(e[i] == c[i - 1 - le.len()]);
            assert(s.subrange(cs, cs + len)[i - 1 - le.len()] == s[pos + i]);
        }
    }
    assert(s.subrange(pos, end) =~= e);
}

/// The decoder accepts exactly the canonical encodings: whenever decoding
/// succeeds with `(r, s)`, both contents are minimal positive integers and
/// the whole input is, byte for byte, the one DER encoding of that pair —
/// so no input with a superfluous leading zero, a non-minimal length, or
/// trailing bytes anywhere is ever accepted.
pub proof fn lemma_decode_accepts_only_canonical(input: Seq<u8>, r: Seq<u8>, s: Seq<u8>)
    requires
        spec_decode_der_signature(input) == Ok::<_, DecodeError>((r, s)),
    ensures
        is_minimal_positive(r),
        is_minimal_positive(s),
        input == spec_seq_encoding(spec_int_encoding(r) + spec_int_encoding(s)),
{
    let (len, bs) = spec_parse_len(input, 1)->Some_0;
    lemma_parse_len_canonical(input, 1, len, bs);
    let (r0, p1) = spec_parse_positive_integer(input, bs)->Some_0;
    lemma_parse_int_canonical(input, bs, r0, p1);
    let (s0, p2) = spec_parse_positive_integer(input, p1)->Some_0;
    lemma_parse_int_canonical(input, p1, s0, p2);
    let er = spec_int_encoding(r);
    let es = spec_int_encoding(s);
    let body = er + es;
    assert(body.len() == (p1 - bs) + (p2 - p1));
    assert(body.len() == len);
    let le = spec_len_encoding(len);
    let e = spec_seq_encoding(body);
    assert(e.len() == 1 + le.len() + body.len());
    assert(input.len() == e.len());
    assert forall|i: int| 0 <= i < input.len() implies input[i] == e[i] by {
        if i == 0 {
            assert(e[0] == TAG_SEQUENCE);
        } else if i < 1 + le.len() {
            assert(e[i] == le[i - 1]);
            assert(input.subrange(1, bs)[i - 1] == input[i]);
        } else if i < 1 + le.len() + er.len() {
            assert(e[i] == body[i - 1 - le.len()]);
            assert(body[i - 1 - le.len()] == er[i - 1 - le.len()]);
            assert(input.subrange(bs, p1)[i - 1 - le.len()] == input[i]);
        } else {
            assert(e[i] == body[i - 1 - le.len()]);
            assert(body[i - 1 - le.len()] == es[i - 1 - le.len() - er.len()]);
            assert(input.subrange(p1, p2)[i - 1 - le.len() - er.len()] == input[i]);
        }
    }
    assert(input =~= e);
}

fn parse_len(input: &Vec<u8>, pos: usize) -> (r: Option<(usize, usize)>)
    ensures
        match r {
            Some((len, end)) => {
                &&& spec_parse_len(input@, pos as int) == Some(((len as nat), (end as int)))
                &&& end <= input@.len()
                &&& len <= 0xffff
            },
            None => spec_parse_len(input@, pos as int) is None,
        },
{
    if pos >= input.len() {
        return None;
    }
    let b = input[pos];
    if b < 0x80 {
        Some((b as usize, pos + 1))
    } else if b == 0x81 {
        if input.len() - pos > 1 && input[pos + 1] >= 0x80 {
            Some((input[pos + 1] as usize, pos + 2))
        } else {
            None
        }
    } else if b == 0x82 {
        if input.len() - pos > 2 {
            let len = (input[pos + 1] as usize) * 256 + (input[pos + 2] as usize);
            if len >= 0x100 {
                Some((len, pos + 3))
            } else {
                None
            }
        } else {
            None
        }
    } else {
        None
    }
}

fn parse_positive_integer(input: &Vec<u8>, pos: usize) -> (r: Option<(Vec<u8>, usize)>)
    ensures
        match r {
            Some((content, end)) => {
                &&& spec_parse_positive_integer(input@, pos as int) == Some((content@, end as int))
                &&& end <= input@.len()
            },
            None => spec_parse_positive_integer(input@, pos as int) is None,
        },
{
    if pos >= input.len() || input[pos] != TAG_INTEGER {
        return None;
    }
    let (len, content_start) = match parse_len(input, pos + 1) {
        Some(v) => v,
        None => {
            return None;
        },
    };
    if len > input.len() - content_start {
        return None;
    }
    let end = content_start + len;
    let content = copy_range(input, content_start, end);
    if content.len() == 0 {
        return None;
    }
    if content[0] >= 0x80 {
        return None;
    }
    if content[0] == 0 && (content.len() < 2 || content[1] < 0x80) {
        return None;
    }
    Some((content, end))
}

/// Decode a DER `Ecdsa-Sig-Value` into the raw big-endian contents of its
/// two INTEGERs `(r, s)`, unreduced. Any structural violation — wrong tag,
/// truncated or non-minimal length, non-minimal or non-positive integer,
/// trailing data — is rejected as a malformed signature.
pub fn decode_der_signature(input: &Vec<u8>) -> (res: Result<(Vec<u8>, Vec<u8>), DecodeError>)
    ensures
        match res {
            Ok((r, s)) => spec_decode_der_signature(input@) == Ok::<_, DecodeError>((r@, s@)),
            Err(e) => spec_decode_der_signature(input@) == Err::<(Seq<u8>, Seq<u8>), _>(e),
        },
{
    if input.len() == 0 || input[0] != TAG_SEQUENCE {
        return Err(DecodeError::MalformedSignature);
    }
    let (len, body_start) = match parse_len(input, 1) {
        Some(v) => v,
        None => {
            return Err(DecodeError::MalformedSignature);
        },
    };
    if len != input.len() - body_start {
        return Err(DecodeError::MalformedSignature);
    }
    let (r, p1) = match parse_positive_integer(input, body_start) {
        Some(v) => v,
        None => {
            return Err(DecodeError::MalformedSignature);
        },
    };
    let (s, p2) = match parse_positive_integer(input, p1) {
        Some(v) => v,
        None => {
            return Err(DecodeError::MalformedSignature);
        },
    };
    if p2 != input.len() {
        return Err(DecodeError::MalformedSignature);
    }
    Ok((r, s))
}

} // verus!

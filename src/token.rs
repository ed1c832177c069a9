//! Recognition of a bearer credential in an authorization header value.

use vstd::prelude::*;
use vstd::string::StringSliceAdditionalSpecFns;
use vstd::utf8::*;

verus! {

broadcast use vstd::utf8::group_utf8_lib;

/// The scheme keyword of a bearer credential, with its separating space.
pub open spec fn bearer_scheme() -> Seq<char> {
    seq!['B', 'e', 'a', 'r', 'e', 'r', ' ']
}

/// `s` begins with `p`, character for character.
pub open spec fn has_prefix(s: Seq<char>, p: Seq<char>) -> bool {
    p.len() <= s.len() && s.subrange(0, p.len() as int) == p
}

/// The credential carried by a header value: what follows an exact,
/// case-sensitive `"Bearer "`, or nothing when the value does not open so.
pub open spec fn bearer_token(header: Seq<char>) -> Option<Seq<char>> {
    if has_prefix(header, bearer_scheme()) {
        Some(header.skip(bearer_scheme().len() as int))
    } else {
        None
    }
}

/// Reading an ASCII prefix off UTF-8 bytes: the decoded text starts with `p`
/// exactly when the leading bytes are those of `p`, and the remainder then
/// decodes from the bytes after them.
proof fn lemma_ascii_prefix(b: Seq<u8>, p: Seq<char>)
    requires
        valid_utf8(b),
        is_ascii_chars(p),
    ensures
        has_prefix(decode_utf8(b), p) <==> (p.len() <= b.len() && forall|i: int|
            0 <= i < p.len() ==> b[i] == p[i] as u8),
        has_prefix(decode_utf8(b), p) ==> {
            &&& is_char_boundary(b, p.len() as int)
            &&& decode_utf8(b.skip(p.len() as int)) == decode_utf8(b).skip(p.len() as int)
        },
    decreases p.len(),
{
    let d = decode_utf8(b);
    if p.len() == 0 {
        assert(d.subrange(0, 0) =~= p);
        assert(b.skip(0) =~= b);
        assert(d.skip(0) =~= d);
    } else if b.len() == 0 {
        assert(d.len() == 0);
    } else {
        let rest = pop_first_scalar(b);
        let c0 = decode_first_scalar(b) as char;
        let q = p.drop_first();
        assert(d == seq![c0] + decode_utf8(rest));
        assert(is_ascii_chars(q)) by {
            assert forall|i: int| 0 <= i < q.len() implies '\0' <= #[trigger] q[i] <= '\u{7f}' by {
                assert(q[i] == p[i + 1]);
            }
        }
        lemma_ascii_prefix(rest, q);
        assert('\0' <= p[0] <= '\u{7f}');
        if b[0] <= 0x7f {
            let b0 = b[0];
            assert((b0 & 0x7f) == b0) by (bit_vector)
                requires
                    b0 <= 0x7f,
            ;
            assert(rest =~= b.skip(1));
            assert(c0 as u32 == b0 as u32);
            if has_prefix(d, p) {
                assert(d[0] == p[0]);
                assert(decode_utf8(rest).subrange(0, q.len() as int) =~= d.subrange(0, p.len() as int).drop_first());
                assert(has_prefix(decode_utf8(rest), q));
                assert forall|i: int| 0 <= i < p.len() implies b[i] == p[i] as u8 by {
                    if i > 0 {
                        assert(rest[i - 1] == b[i]);
                        assert(q[i - 1] == p[i]);
                    }
                }
                assert(b.skip(p.len() as int) =~= rest.skip(q.len() as int));
                assert(d.skip(p.len() as int) =~= decode_utf8(rest).skip(q.len() as int));
            }
            if p.len() <= b.len() && forall|i: int| 0 <= i < p.len() ==> b[i] == p[i] as u8 {
                assert(b[0] == p[0] as u8);
                assert forall|i: int| 0 <= i < q.len() implies rest[i] == q[i] as u8 by {
                    assert(rest[i] == b[i + 1]);
                    assert(q[i] == p[i + 1]);
                    assert(b[i + 1] == p[i + 1] as u8);
                }
                assert(has_prefix(decode_utf8(rest), q));
                assert(d.subrange(0, p.len() as int) =~= seq![c0] + decode_utf8(rest).subrange(0, q.len() as int));
                assert(p =~= seq![p[0]] + q);
            }
        } else {
            let y = c0 as u32;
            decode_utf8_first_scalar(b);
            assert(take_first_scalar(b)[0] == b[0]);
            if y <= 0x7f {
                assert(((y & 0x7f) as u8) <= 0x7f) by (bit_vector);
                assert(encode_scalar(y)[0] == leading_byte_width_1(y));
            }
            assert(d[0] != p[0]);
            assert(b[0] != p[0] as u8);
        }
    }
}

/// Whether `s` begins with the ASCII text `prefix`.
pub fn starts_with_ascii(s: &str, prefix: &str) -> (r: bool)
    requires
        is_ascii_chars(prefix@),
    ensures
        r == has_prefix(s@, prefix@),
{
    let sb = s.as_bytes();
    let pb = prefix.as_bytes();
    proof {
        lemma_ascii_prefix(s.spec_bytes(), prefix@);
        is_ascii_chars_encode_utf8(prefix@);
    }
    if pb.len() > sb.len() {
        return false;
    }
    let mut i: usize = 0;
    let mut same = true;
    while i < pb.len() && same
        invariant
            pb.len() <= sb.len(),
            i <= pb.len(),
            pb@.len() == prefix@.len(),
            forall|j: int| 0 <= j < pb@.len() ==> pb@[j] == prefix@[j] as u8,
            same ==> forall|j: int| 0 <= j < i ==> sb@[j] == pb@[j],
            !same ==> exists|j: int| 0 <= j < pb@.len() && sb@[j] != pb@[j],
        decreases pb.len() - i,
    {
        if sb[i] != pb[i] {
            same = false;
        }
        i = i + 1;
    }
    same
}

/// Whether `s` is exactly the ASCII text `t`.
pub fn equals_ascii(s: &str, t: &str) -> (r: bool)
    requires
        is_ascii_chars(t@),
    ensures
        r == (s@ == t@),
{
    let ghost b = s.spec_bytes();
    proof {
        lemma_ascii_prefix(b, t@);
        is_ascii_chars_encode_utf8(t@);
    }
    if !starts_with_ascii(s, t) {
        return false;
    }
    proof {
        assert(decode_utf8(b) == s@);
        assert(s@.subrange(0, t@.len() as int) == t@);
    }
    let r = s.as_bytes().len() == t.as_bytes().len();
    proof {
        assert(t.spec_bytes().len() == t@.len());
        if r {
            assert(b.len() == t@.len());
            assert(b.skip(t@.len() as int).len() == 0);
            assert(s@.skip(t@.len() as int).len() == 0);
            assert(s@ =~= t@);
        }
    }
    r
}

/// The bearer credential in an authorization header value: the text after an
/// exact, case-sensitive `"Bearer "`, or `None` when the value does not begin
/// with it.
pub fn get_token(auth_header: &str) -> (r: Option<&str>)
    ensures
        match r {
            Some(t) => bearer_token(auth_header@) == Some(t@),
            None => bearer_token(auth_header@) is None,
        },
{
    let scheme = "Bearer ";
    proof {
        reveal_strlit("Bearer ");
        assert(scheme@ =~= bearer_scheme());
    }
    if !starts_with_ascii(auth_header, scheme) {
        return None;
    }
    let ghost b = auth_header.spec_bytes();
    proof {
        lemma_ascii_prefix(b, bearer_scheme());
    }
    let (_, rest) = auth_header.split_at(7);
    proof {
        assert(rest.spec_bytes() =~= b.skip(7));
        assert(decode_utf8(rest.spec_bytes()) == rest@);
    }
    Some(rest)
}

} // verus!

//! Text that the renderers are built from: decimal numbers and the text of
//! a run of source bytes.

use vstd::prelude::*;
use vstd::utf8::*;

verus! {

/// The character for one decimal digit.
pub open spec fn digit_char(d: nat) -> char {
    if d == 0 {
        '0'
    } else if d == 1 {
        '1'
    } else if d == 2 {
        '2'
    } else if d == 3 {
        '3'
    } else if d == 4 {
        '4'
    } else if d == 5 {
        '5'
    } else if d == 6 {
        '6'
    } else if d == 7 {
        '7'
    } else if d == 8 {
        '8'
    } else {
        '9'
    }
}

/// `n` in decimal, without sign or leading zeros.
pub open spec fn decimal(n: nat) -> Seq<char>
    decreases n,
{
    if n < 10 {
        seq![digit_char(n)]
    } else {
        decimal(n / 10).push(digit_char(n % 10))
    }
}

/// The text of one decimal digit.
fn digit_text(d: usize) -> (s: &'static str)
    requires
        d < 10,
    ensures
        s@ == seq![digit_char(d as nat)],
{
    proof {
        reveal_strlit("0");
        reveal_strlit("1");
        reveal_strlit("2");
        reveal_strlit("3");
        reveal_strlit("4");
        reveal_strlit("5");
        reveal_strlit("6");
        reveal_strlit("7");
        reveal_strlit("8");
        reveal_strlit("9");
    }
    let s = if d == 0 {
        "0"
    } else if d == 1 {
        "1"
    } else if d == 2 {
        "2"
    } else if d == 3 {
        "3"
    } else if d == 4 {
        "4"
    } else if d == 5 {
        "5"
    } else if d == 6 {
        "6"
    } else if d == 7 {
        "7"
    } else if d == 8 {
        "8"
    } else {
        "9"
    };
    assert(s@ =~= seq![digit_char(d as nat)]);
    s
}

/// Renders `n` in decimal.
pub fn decimal_string(n: usize) -> (s: String)
    ensures
        s@ == decimal(n as nat),
    decreases n,
{
    if n < 10 {
        String::from_str(digit_text(n))
    } else {
        let mut s = decimal_string(n / 10);
        s.append(digit_text(n % 10));
        assert(s@ =~= decimal((n / 10) as nat).push(digit_char((n % 10) as nat)));
        s
    }
}

/// Whether the first `n` bytes of `a` and of `b` are the same.
pub fn bytes_agree(a: &[u8], b: &[u8], n: usize) -> (r: bool)
    requires
        n <= a@.len(),
        n <= b@.len(),
    ensures
        r == (a@.take(n as int) == b@.take(n as int)),
{
    let mut i: usize = 0;
    while i < n
        invariant
            i <= n,
            n <= a@.len(),
            n <= b@.len(),
            a@.take(i as int) == b@.take(i as int),
        decreases n - i,
    {
        if a[i] != b[i] {
            assert(a@.take(n as int)[i as int] != b@.take(n as int)[i as int]);
            return false;
        }
        assert(a@.take(i + 1) =~= a@.take(i as int).push(a@[i as int]));
        assert(b@.take(i + 1) =~= b@.take(i as int).push(b@[i as int]));
        i += 1;
    }
    true
}

/// Two texts with the same encoding are the same text.
pub proof fn lemma_encoding_is_injective(a: Seq<char>, b: Seq<char>)
    requires
        encode_utf8(a) == encode_utf8(b),
    ensures
        a == b,
{
    encode_utf8_decode_utf8(a);
    encode_utf8_decode_utf8(b);
}

/// Whether `a` and `b` are the same text.
pub fn same_text(a: &str, b: &str) -> (r: bool)
    ensures
        r == (a@ == b@),
{
    let x = a.as_bytes();
    let y = b.as_bytes();
    if x.len() != y.len() {
        return false;
    }
    let r = bytes_agree(x, y, x.len());
    proof {
        assert(x@.take(x@.len() as int) =~= x@);
        assert(y@.take(y@.len() as int) =~= y@);
        if r {
            lemma_encoding_is_injective(a@, b@);
        }
    }
    r
}

/// Valid UTF-8 that begins other valid UTF-8 ends at a character boundary
/// of it.
pub proof fn lemma_beginning_ends_at_boundary(a: Seq<u8>, b: Seq<u8>)
    requires
        valid_utf8(a),
        valid_utf8(b),
        a.len() <= b.len(),
        b.take(a.len() as int) == a,
    ensures
        is_char_boundary(b, a.len() as int),
    decreases a.len(),
{
    if a.len() > 0 {
        let n = length_of_first_scalar(a);
        assert(forall|i: int| 0 <= i < a.len() ==> a[i] == b.take(a.len() as int)[i]);
        assert(a[0] == b[0]);
        assert(length_of_first_scalar(b) == n);
        let ra = pop_first_scalar(a);
        let rb = pop_first_scalar(b);
        assert(rb.take(ra.len() as int) =~= ra);
        lemma_beginning_ends_at_boundary(ra, rb);
    }
}

/// The text that is left of `s` after the first `n` bytes of its encoding.
pub open spec fn text_after(s: Seq<char>, n: int) -> Seq<char> {
    decode_utf8(encode_utf8(s).skip(n))
}

/// The text that is left of `s` after `head`, with which it begins.
pub fn text_after_head(s: &str, head: &str) -> (r: String)
    requires
        encode_utf8(head@).len() <= encode_utf8(s@).len(),
        encode_utf8(s@).take(encode_utf8(head@).len() as int) == encode_utf8(head@),
    ensures
        r@ == text_after(s@, encode_utf8(head@).len() as int),
{
    let n = head.as_bytes().len();
    proof {
        encode_utf8_valid_utf8(s@);
        encode_utf8_valid_utf8(head@);
        lemma_beginning_ends_at_boundary(encode_utf8(head@), encode_utf8(s@));
    }
    let (_, rest) = s.split_at(n);
    proof {
        assert(encode_utf8(rest@) =~= encode_utf8(s@).skip(n as int));
        encode_utf8_decode_utf8(rest@);
    }
    String::from_str(rest)
}

/// What `String::from_utf8_lossy` makes of `bytes`.
pub uninterp spec fn utf8_lossy(bytes: Seq<u8>) -> Seq<char>;

/// The text of a run of bytes: the characters they encode where they are
/// valid UTF-8, else what the lossy conversion makes of them.
pub open spec fn text_of(bytes: Seq<u8>) -> Seq<char> {
    if valid_utf8(bytes) {
        decode_utf8(bytes)
    } else {
        utf8_lossy(bytes)
    }
}

/// Calls `String::from_utf8_lossy`. Trusted: the result depends on the
/// bytes alone, and valid UTF-8 comes back as the characters it encodes, as
/// the function's documentation says.
#[verifier::external_body]
pub(crate) fn lossy_string(bytes: &[u8]) -> (s: String)
    ensures
        s@ == utf8_lossy(bytes@),
        valid_utf8(bytes@) ==> s@ == decode_utf8(bytes@),
{
    String::from_utf8_lossy(bytes).into_owned()
}

/// The text of an encoded string is the string.
pub proof fn lemma_text_of_encoded(chars: Seq<char>)
    ensures
        text_of(encode_utf8(chars)) == chars,
{
    encode_utf8_valid_utf8(chars);
    encode_utf8_decode_utf8(chars);
}

} // verus!

//! Plan IDs: 128 random bits spelled as 32 lower-case hex characters.

use rand::RngCore;
use vstd::prelude::*;
use vstd::string::*;
use crate::text::{chars_of, digit_text, hex_char};

verus! {

/// Whether `c` is a lower-case hexadecimal digit.
pub open spec fn is_hex_lower(c: char) -> bool {
    ('0' <= c <= '9') || ('a' <= c <= 'f')
}

/// A plan ID is exactly 32 lower-case hex characters.
pub open spec fn is_valid_id(s: Seq<char>) -> bool {
    &&& s.len() == 32
    &&& forall|i: int| 0 <= i < s.len() ==> is_hex_lower(#[trigger] s[i])
}

/// Lower-case hex spelling of a byte string, two characters per byte, high nibble first.
pub open spec fn hex_of(bytes: Seq<u8>) -> Seq<char>
    decreases bytes.len(),
{
    if bytes.len() == 0 {
        Seq::empty()
    } else {
        hex_of(bytes.drop_last()) + seq![
            hex_char(bytes.last() as int / 16),
            hex_char(bytes.last() as int % 16),
        ]
    }
}

/// Checks a character for being a lower-case hex digit.
pub fn hex_lower_char(c: char) -> (r: bool)
    ensures
        r == is_hex_lower(c),
{
    ('0' <= c && c <= '9') || ('a' <= c && c <= 'f')
}

/// Checks that `s` has exactly 32 characters, all lower-case hex digits.
pub fn is_id_shaped(s: &str) -> (r: bool)
    ensures
        r == is_valid_id(s@),
{
    let cs = chars_of(s);
    let n = cs.len();
    if n != 32 {
        return false;
    }
    let mut i: usize = 0;
    while i < n
        invariant
            cs@ == s@,
            n == s@.len(),
            i <= n,
            forall|j: int| 0 <= j < i ==> is_hex_lower(#[trigger] s@[j]),
        decreases n - i,
    {
        if !hex_lower_char(cs[i]) {
            return false;
        }
        i = i + 1;
    }
    true
}

/// The spelling of each byte value as a two-character hex string is a valid ID piece.
pub proof fn lemma_hex_of_shape(bytes: Seq<u8>)
    ensures
        hex_of(bytes).len() == 2 * bytes.len(),
        forall|i: int| 0 <= i < hex_of(bytes).len() ==> is_hex_lower(#[trigger] hex_of(bytes)[i]),
    decreases bytes.len(),
{
    if bytes.len() > 0 {
        lemma_hex_of_shape(bytes.drop_last());
        let last = bytes.last() as int;
        assert(0 <= last / 16 < 16);
        assert(0 <= last % 16 < 16);
        let prev = hex_of(bytes.drop_last());
        let tail = seq![hex_char(last / 16), hex_char(last % 16)];
        assert forall|i: int| 0 <= i < hex_of(bytes).len() implies is_hex_lower(
            #[trigger] hex_of(bytes)[i],
        ) by {
            if i < prev.len() {
                assert(hex_of(bytes)[i] == prev[i]);
            } else {
                assert(hex_of(bytes)[i] == tail[i - prev.len()]);
            }
        }
    }
}

/// Any 16 bytes spelled in hex form a valid plan ID.
pub proof fn lemma_hex_of_sixteen_bytes_is_valid_id(bytes: Seq<u8>)
    requires
        bytes.len() == 16,
    ensures
        is_valid_id(hex_of(bytes)),
{
    lemma_hex_of_shape(bytes);
}

/// Different bytes are spelled differently: the hex spelling loses
/// nothing, so IDs are as distinct as the random bytes they come from.
pub proof fn law_hex_spelling_is_injective(a: Seq<u8>, b: Seq<u8>)
    requires
        a.len() == b.len(),
        hex_of(a) == hex_of(b),
    ensures
        a == b,
    decreases a.len(),
{
    if a.len() > 0 {
        lemma_hex_of_shape(a.drop_last());
        lemma_hex_of_shape(b.drop_last());
        let n = hex_of(a.drop_last()).len();
        assert(hex_of(a).subrange(0, n as int) =~= hex_of(a.drop_last()));
        assert(hex_of(b).subrange(0, n as int) =~= hex_of(b.drop_last()));
        law_hex_spelling_is_injective(a.drop_last(), b.drop_last());
        let x = a.last() as int;
        let y = b.last() as int;
        assert(hex_of(a)[n as int] == hex_char(x / 16));
        assert(hex_of(b)[n as int] == hex_char(y / 16));
        assert(hex_of(a)[n as int + 1] == hex_char(x % 16));
        assert(hex_of(b)[n as int + 1] == hex_char(y % 16));
        lemma_hex_char_injective(x / 16, y / 16);
        lemma_hex_char_injective(x % 16, y % 16);
        assert(x == (x / 16) * 16 + x % 16);
        assert(y == (y / 16) * 16 + y % 16);
        assert(a =~= a.drop_last().push(a.last()));
        assert(b =~= b.drop_last().push(b.last()));
    }
}

proof fn lemma_hex_char_injective(d: int, e: int)
    requires
        0 <= d < 16,
        0 <= e < 16,
        hex_char(d) == hex_char(e),
    ensures
        d == e,
{
    let cd = if d < 10 { 48 + d } else { 87 + d };
    let ce = if e < 10 { 48 + e } else { 87 + e };
    assert(hex_char(d) as int == cd);
    assert(hex_char(e) as int == ce);
}

/// Spells bytes in lower-case hex, two characters per byte.
pub fn hex_encode(bytes: &[u8]) -> (r: String)
    ensures
        r@ == hex_of(bytes@),
{
    let mut s = String::new();
    let n = bytes.len();
    let mut i: usize = 0;
    while i < n
        invariant
            n == bytes@.len(),
            i <= n,
            s@ == hex_of(bytes@.take(i as int)),
        decreases n - i,
    {
        let b = bytes[i];
        s.append(digit_text(b / 16));
        s.append(digit_text(b % 16));
        assert(bytes@.take(i + 1).drop_last() =~= bytes@.take(i as int));
        i = i + 1;
    }
    assert(bytes@.take(n as int) =~= bytes@);
    s
}

/// Draws 16 bytes from the thread-local random generator of the `rand` crate.
///
/// Calls `rand::rng().fill_bytes` (rand 0.9). Nothing is claimed about the
/// bytes: they are random. The generator panics only if the operating
/// system's entropy source cannot be read.
#[verifier::external_body]
fn random_id_bytes() -> (bytes: [u8; 16]) {
    let mut bytes = [0u8; 16];
    rand::rng().fill_bytes(&mut bytes);
    bytes
}

/// A fresh 128-bit random plan ID as 32 hex characters. Unguessable, so the
/// plan URL doubles as its view capability; and always of the one shape that
/// the store touches on disk.
pub fn new_id() -> (id: String)
    ensures
        is_valid_id(id@),
        exists|bytes: Seq<u8>| bytes.len() == 16 && id@ == hex_of(bytes),
{
    let bytes = random_id_bytes();
    let id = hex_encode(&bytes);
    proof {
        lemma_hex_of_sixteen_bytes_is_valid_id(bytes@);
    }
    id
}

} // verus!

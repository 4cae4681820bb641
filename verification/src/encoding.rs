//! Bytes as text in base64.
use vstd::prelude::*;

verus! {

/// The character that stands for six bits in the standard alphabet.
pub open spec fn base64_char(n: int) -> char {
    if n < 26 {
        (n + 65) as char
    } else if n < 52 {
        (n + 71) as char
    } else if n < 62 {
        (n - 4) as char
    } else if n == 62 {
        '+'
    } else {
        '/'
    }
}

/// The text for bytes in the standard alphabet with padding: four characters for every three bytes,
/// six bits each from the highest on, where missing bytes count as zero and characters that stand
/// for nothing else are padding.
pub open spec fn base64_text(bytes: Seq<u8>) -> Seq<char>
    decreases bytes.len(),
{
    if bytes.len() == 0 {
        Seq::empty()
    } else {
        let a = bytes[0] as int;
        let b = if bytes.len() > 1 {
            bytes[1] as int
        } else {
            0
        };
        let c = if bytes.len() > 2 {
            bytes[2] as int
        } else {
            0
        };
        let first = base64_char(a / 4);
        let second = base64_char(a % 4 * 16 + b / 16);
        let third = base64_char(b % 16 * 4 + c / 64);
        let fourth = base64_char(c % 64);
        if bytes.len() == 1 {
            seq![first, second, '=', '=']
        } else if bytes.len() == 2 {
            seq![first, second, third, '=']
        } else {
            seq![first, second, third, fourth] + base64_text(bytes.skip(3))
        }
    }
}

/// What `base64` reads from a text in the standard alphabet with padding: the bytes, or the message
/// of why it refuses the text.
pub uninterp spec fn base64_bytes(encoded: Seq<char>) -> Result<Seq<u8>, Seq<char>>;

/// Whether the text for so many bytes fits in memory: four characters for every three bytes.
pub open spec fn encodable(length: nat) -> bool {
    4 * (length / 3 + 1) <= isize::MAX
}

/// Whether a character is one of the standard alphabet, or the one that pads.
pub open spec fn is_base64_char(c: char) -> bool {
    'A' <= c <= 'Z' || 'a' <= c <= 'z' || '0' <= c <= '9' || c == '+' || c == '/' || c == '='
}

/// Whether a text has the form of one for so many bytes: it is made of the characters of the
/// alphabet, four for every three bytes that are begun.
pub open spec fn is_base64_form(s: Seq<char>, length: nat) -> bool {
    &&& s.len() == 4 * ((length + 2) / 3)
    &&& forall|i: int| 0 <= i < s.len() ==> is_base64_char(#[trigger] s[i])
}

proof fn lemma_base64_char(n: int)
    requires
        0 <= n < 64,
    ensures
        is_base64_char(base64_char(n)),
{
}

/// The text for bytes has its form.
pub proof fn law_base64_form(bytes: Seq<u8>)
    ensures
        is_base64_form(base64_text(bytes), bytes.len()),
    decreases bytes.len(),
{
    if bytes.len() > 0 {
        let a = bytes[0] as int;
        let b = if bytes.len() > 1 {
            bytes[1] as int
        } else {
            0
        };
        let c = if bytes.len() > 2 {
            bytes[2] as int
        } else {
            0
        };
        lemma_base64_char(a / 4);
        lemma_base64_char(a % 4 * 16 + b / 16);
        lemma_base64_char(b % 16 * 4 + c / 64);
        lemma_base64_char(c % 64);
        if bytes.len() > 2 {
            let rest = base64_text(bytes.skip(3));
            law_base64_form(bytes.skip(3));
            let whole = base64_text(bytes);
            assert forall|i: int| 0 <= i < whole.len() implies is_base64_char(
                #[trigger] whole[i],
            ) by {
                if i >= 4 {
                    assert(whole[i] == rest[i - 4]);
                }
            }
        }
    }
}

/// `general_purpose::STANDARD.encode` of `base64`: the text for bytes, from which the bytes are read
/// back. It panics where the length of the text does not fit in memory.
#[verifier::external_body]
fn write_base64(bytes: &[u8]) -> (r: String)
    requires
        encodable(bytes@.len()),
    ensures
        r@ == base64_text(bytes@),
        base64_bytes(r@) is Ok && base64_bytes(r@)->Ok_0 == bytes@,
{
    base64::Engine::encode(&base64::engine::general_purpose::STANDARD, bytes)
}

/// `general_purpose::STANDARD.decode` of `base64`: the bytes of a text, or the message of its error.
#[verifier::external_body]
fn read_base64(encoded: &str) -> (r: Result<Vec<u8>, String>)
    ensures
        r is Ok ==> base64_bytes(encoded@) is Ok && base64_bytes(encoded@)->Ok_0 == (r->Ok_0)@,
        r is Err ==> base64_bytes(encoded@) is Err && base64_bytes(encoded@)->Err_0 == (r->Err_0)@,
{
    base64::Engine::decode(&base64::engine::general_purpose::STANDARD, encoded)
        .map_err(|error| error.to_string())
}

/// The text for bytes.
pub fn encode(bytes: &[u8]) -> (r: String)
    requires
        encodable(bytes@.len()),
    ensures
        r@ == base64_text(bytes@),
        base64_bytes(r@) == Ok::<Seq<u8>, Seq<char>>(bytes@),
{
    write_base64(bytes)
}

/// The bytes of a text.
pub fn decode(encoded: &str) -> (r: Result<Vec<u8>, String>)
    ensures
        match r {
            Ok(bytes) => base64_bytes(encoded@) == Ok::<Seq<u8>, Seq<char>>(bytes@),
            Err(m) => base64_bytes(encoded@) == Err::<Seq<u8>, Seq<char>>(m@),
        },
{
    read_base64(encoded)
}

} // verus!

//! Checksums of downloaded files: SHA-1 digests, written in hexadecimal.
use sha1::{Digest, Sha1};
use vstd::prelude::*;

verus! {

/// The length, in bytes, of the longest message whose length in bits fits in 64 bits.
pub const MAX_HASHED_LEN: u64 = 0x1fff_ffff_ffff_ffff;

/// Whether a byte is an ASCII hexadecimal digit, in either case.
pub open spec fn is_hex_digit(byte: u8) -> bool {
    0x30 <= byte <= 0x39 || 0x41 <= byte <= 0x46 || 0x61 <= byte <= 0x66
}

/// The value of a hexadecimal digit.
pub open spec fn hex_digit_value(byte: u8) -> int {
    if byte <= 0x39 {
        byte - 0x30
    } else if byte <= 0x46 {
        byte - 0x41 + 10
    } else {
        byte - 0x61 + 10
    }
}

/// Whether a byte sequence is an even number of hexadecimal digits.
pub open spec fn is_hex(digits: Seq<u8>) -> bool {
    &&& digits.len() % 2 == 0
    &&& forall|i: int| 0 <= i < digits.len() ==> is_hex_digit(#[trigger] digits[i])
}

/// The bytes that hexadecimal digits stand for, two digits to a byte, the high one first.
pub open spec fn hex_bytes(digits: Seq<u8>) -> Seq<u8> {
    Seq::new(
        digits.len() / 2,
        |i: int| (16 * hex_digit_value(digits[2 * i]) + hex_digit_value(digits[2 * i + 1])) as u8,
    )
}

/// Why a text is not the hexadecimal form of any bytes.
#[derive(Debug, Clone, Copy, PartialEq, Eq, Structural)]
pub enum HexError {
    /// The byte at `index` is no hexadecimal digit.
    InvalidHexCharacter { c: char, index: usize },
    /// The number of digits is odd.
    OddLength,
    /// The number of digits does not fit the place for the bytes.
    InvalidStringLength,
}

/// Whether `error` is what is wrong with `digits`: an odd length comes before any digit is looked
/// at, and of the bytes that are no digits the first one is reported.
pub open spec fn hex_refused(digits: Seq<u8>, error: HexError) -> bool {
    match error {
        HexError::OddLength => digits.len() % 2 != 0,
        HexError::InvalidHexCharacter { c, index } => {
            &&& digits.len() % 2 == 0
            &&& index < digits.len()
            &&& !is_hex_digit(digits[index as int])
            &&& c == digits[index as int] as char
            &&& forall|j: int| 0 <= j < index ==> is_hex_digit(#[trigger] digits[j])
        },
        HexError::InvalidStringLength => false,
    }
}

/// The lower-case hexadecimal digit of a value below 16.
pub open spec fn lower_hex_digit(value: int) -> char {
    if value < 10 {
        (0x30 + value) as char
    } else {
        (0x61 + value - 10) as char
    }
}

/// The hexadecimal form of bytes, in lower case, the high digit of each byte first.
pub open spec fn hex_text(data: Seq<u8>) -> Seq<char> {
    Seq::new(
        2 * data.len(),
        |i: int|
            lower_hex_digit(
                if i % 2 == 0 {
                    data[i / 2] as int / 16
                } else {
                    data[i / 2] as int % 16
                },
            ),
    )
}

/// The SHA-1 digest of a message, as the `sha1` crate computes it.
pub uninterp spec fn sha1_digest(message: Seq<u8>) -> Seq<u8>;

/// The text that the `hex` crate gives for a byte that is no digit.
pub uninterp spec fn invalid_character_text(c: char, index: usize) -> Seq<char>;

/// Calls `sha1::Sha1`: `new`, one `update` with all of `message`, then `finalize`.
///
/// Claimed: the digest is a function of the message, and is 20 bytes long. The message's length in
/// bits has to fit in the 64-bit counter of the algorithm.
#[verifier::external_body]
fn sha1_of(message: &[u8]) -> (digest: Vec<u8>)
    requires
        message@.len() <= MAX_HASHED_LEN,
    ensures
        digest@ == sha1_digest(message@),
        digest@.len() == 20,
{
    let mut hasher = Sha1::new();
    hasher.update(message);
    hasher.finalize().to_vec()
}

/// Calls `hex::decode` on the UTF-8 bytes of `text`.
///
/// Claimed: an even number of hexadecimal digits, in either case, gives the bytes they stand for;
/// an odd number of bytes is refused as such; otherwise the first byte that is no digit is
/// reported, with its position.
#[verifier::external_body]
fn hex_decode(text: &str) -> (result: Result<Vec<u8>, HexError>)
    ensures
        match result {
            Ok(bytes) => {
                &&& is_hex(vstd::utf8::encode_utf8(text@))
                &&& bytes@ == hex_bytes(vstd::utf8::encode_utf8(text@))
            },
            Err(error) => hex_refused(vstd::utf8::encode_utf8(text@), error),
        },
{
    match hex::decode(text) {
        Ok(bytes) => Ok(bytes),
        Err(hex::FromHexError::InvalidHexCharacter { c, index }) => Err(
            HexError::InvalidHexCharacter { c, index },
        ),
        Err(hex::FromHexError::OddLength) => Err(HexError::OddLength),
        Err(hex::FromHexError::InvalidStringLength) => Err(HexError::InvalidStringLength),
    }
}

/// Calls `hex::encode`.
///
/// Claimed: the result is the lower-case hexadecimal form of the bytes, two digits to a byte. The
/// result has to fit in a string.
#[verifier::external_body]
fn hex_encode(data: &[u8]) -> (text: String)
    requires
        2 * data@.len() <= isize::MAX,
    ensures
        text@ == hex_text(data@),
{
    hex::encode(data)
}

/// Calls the `Display` implementation of `hex::FromHexError`.
///
/// Claimed: the two texts that do not depend on the input, and that the third is a function of the
/// character and its position.
#[verifier::external_body]
fn hex_error_message(error: HexError) -> (text: String)
    ensures
        match error {
            HexError::InvalidHexCharacter { c, index } => text@ == invalid_character_text(
                c,
                index,
            ),
            HexError::OddLength => text@ == "Odd number of digits"@,
            HexError::InvalidStringLength => text@ == "Invalid string length"@,
        },
{
    match error {
        HexError::InvalidHexCharacter { c, index } => {
            hex::FromHexError::InvalidHexCharacter { c, index }.to_string()
        },
        HexError::OddLength => hex::FromHexError::OddLength.to_string(),
        HexError::InvalidStringLength => hex::FromHexError::InvalidStringLength.to_string(),
    }
}

/// What is said of a text that is no hexadecimal form.
pub open spec fn hex_error_text(error: HexError) -> Seq<char> {
    match error {
        HexError::InvalidHexCharacter { c, index } => invalid_character_text(c, index),
        HexError::OddLength => "Odd number of digits"@,
        HexError::InvalidStringLength => "Invalid string length"@,
    }
}

/// Why a file was not accepted.
#[derive(Debug)]
pub enum Sha1Error {
    /// The file is there but could not be read; the text is the operating system's.
    Unreadable(String),
    /// The expected digest is no hexadecimal text.
    InvalidHex(HexError),
    /// The digest of the contents is another one than the expected one.
    Mismatch { message: String },
}

/// What is said of a file whose digest is `digest` and not `expected`.
pub open spec fn mismatch_text(path: Seq<char>, digest: Seq<u8>, expected: Seq<char>) -> Seq<char> {
    "\n"@ + path + " hash don't fit!\nget: "@ + hex_text(digest) + "\nexpected: "@ + expected
        + "\n"@
}

/// What is said of a file that was not accepted.
pub open spec fn sha1_error_text(error: Sha1Error) -> Seq<char> {
    match error {
        Sha1Error::Unreadable(message) => message@,
        Sha1Error::InvalidHex(error) => hex_error_text(error),
        Sha1Error::Mismatch { message } => message@,
    }
}

/// Whether `expected` is the hexadecimal form of `digest`, in either case.
pub open spec fn names_digest(expected: Seq<char>, digest: Seq<u8>) -> bool {
    let digits = vstd::utf8::encode_utf8(expected);
    is_hex(digits) && hex_bytes(digits) == digest
}

/// Whether `result` is the outcome of holding `digest` against `expected`.
pub open spec fn digest_outcome(
    digest: Seq<u8>,
    path: Seq<char>,
    expected: Seq<char>,
    result: Result<(), Sha1Error>,
) -> bool {
    let digits = vstd::utf8::encode_utf8(expected);
    match result {
        Ok(()) => names_digest(expected, digest),
        Err(Sha1Error::InvalidHex(error)) => hex_refused(digits, error),
        Err(Sha1Error::Mismatch { message }) => {
            &&& is_hex(digits)
            &&& !names_digest(expected, digest)
            &&& message@ == mismatch_text(path, digest, expected)
        },
        Err(Sha1Error::Unreadable(_)) => false,
    }
}

/// Whether two byte slices hold the same bytes.
fn same_bytes(left: &[u8], right: &[u8]) -> (same: bool)
    ensures
        same == (left@ == right@),
{
    if left.len() != right.len() {
        return false;
    }
    for i in 0..left.len()
        invariant
            left@.len() == right@.len(),
            forall|j: int| 0 <= j < i ==> left@[j] == right@[j],
    {
        if left[i] != right[i] {
            return false;
        }
    }
    assert(left@ =~= right@);
    true
}

impl Sha1Error {
    /// The text that tells a person what is wrong with the file.
    pub fn message(&self) -> (text: String)
        ensures
            text@ == sha1_error_text(*self),
    {
        match self {
            Sha1Error::Unreadable(message) => message.clone(),
            Sha1Error::InvalidHex(error) => hex_error_message(*error),
            Sha1Error::Mismatch { message } => message.clone(),
        }
    }
}

/// Holds the digest of the file at `file_path` against the expected one, given in hexadecimal.
pub fn compare_digest(digest: &[u8], file_path: &str, sha1: &str) -> (result: Result<
    (),
    Sha1Error,
>)
    requires
        2 * digest@.len() <= isize::MAX,
    ensures
        digest_outcome(digest@, file_path@, sha1@, result),
{
    let expected = match hex_decode(sha1) {
        Ok(bytes) => bytes,
        Err(error) => return Err(Sha1Error::InvalidHex(error)),
    };
    if same_bytes(digest, expected.as_slice()) {
        return Ok(());
    }
    let mut message = "\n".to_owned();
    message.append(file_path);
    message.append(" hash don't fit!\nget: ");
    message.append(hex_encode(digest).as_str());
    message.append("\nexpected: ");
    message.append(sha1);
    message.append("\n");
    Err(Sha1Error::Mismatch { message })
}

/// Checks that the SHA-1 digest of `contents`, read from the file at `file_path`, is `sha1`. Only a
/// text of 40 characters is ever accepted.
pub fn validate_sha1(contents: &[u8], file_path: &str, sha1: &str) -> (result: Result<
    (),
    Sha1Error,
>)
    requires
        contents@.len() <= MAX_HASHED_LEN,
    ensures
        digest_outcome(sha1_digest(contents@), file_path@, sha1@, result),
        sha1_digest(contents@).len() == 20,
        result is Ok ==> sha1@.len() == 40,
{
    let digest = sha1_of(contents);
    let result = compare_digest(digest.as_slice(), file_path, sha1);
    proof {
        if result is Ok {
            law_accepted_texts_differ_in_case_alone(sha1@, sha1@, digest@);
        }
    }
    result
}

/// The upper-case ASCII letters in lower case, every other character as it is.
pub open spec fn ascii_lower(c: char) -> char {
    if 'A' <= c <= 'Z' {
        (c as int + 0x20) as char
    } else {
        c
    }
}

/// The lower-case ASCII letters in upper case, every other character as it is.
pub open spec fn ascii_upper(c: char) -> char {
    if 'a' <= c <= 'z' {
        (c as int - 0x20) as char
    } else {
        c
    }
}

/// The hexadecimal form of a digest names that digest: a digest that was written down is accepted
/// when it is read back.
pub proof fn law_written_digest_is_accepted(digest: Seq<u8>)
    ensures
        names_digest(hex_text(digest), digest),
{
    let text = hex_text(digest);
    assert forall|i: int| 0 <= i < text.len() implies {
        let value = if i % 2 == 0 {
            digest[i / 2] as int / 16
        } else {
            digest[i / 2] as int % 16
        };
        &&& (#[trigger] text[i]) as int <= 0x7f
        &&& is_hex_digit(text[i] as u8)
        &&& hex_digit_value(text[i] as u8) == value
    } by {
        let value = if i % 2 == 0 {
            digest[i / 2] as int / 16
        } else {
            digest[i / 2] as int % 16
        };
        assert(0 <= value < 16);
        assert(text[i] == lower_hex_digit(value));
    }
    assert(vstd::utf8::is_ascii_chars(text));
    vstd::utf8::is_ascii_chars_encode_utf8(text);
    let digits = vstd::utf8::encode_utf8(text);
    assert forall|k: int| 0 <= k < digest.len() implies hex_bytes(digits)[k] == digest[k] by {
        assert(digits[2 * k] == text[2 * k] as u8);
        assert(digits[2 * k + 1] == text[2 * k + 1] as u8);
    }
    assert(hex_bytes(digits) =~= digest);
}

/// A text that encodes to hexadecimal digits alone is made of ASCII characters.
proof fn lemma_hex_is_ascii(text: Seq<char>)
    requires
        forall|i: int|
            0 <= i < vstd::utf8::encode_utf8(text).len() ==> is_hex_digit(
                #[trigger] vstd::utf8::encode_utf8(text)[i],
            ),
    ensures
        vstd::utf8::is_ascii_chars(text),
    decreases text.len(),
{
    if text.len() > 0 {
        let scalar = text[0] as u32;
        vstd::utf8::char_u32_cast(text[0], scalar);
        let head = vstd::utf8::encode_scalar(scalar);
        let tail = vstd::utf8::encode_utf8(text.drop_first());
        let all = vstd::utf8::encode_utf8(text);
        assert(all == head + tail);
        if scalar > 0x7f {
            let low = (scalar & 0x3f) as u8;
            assert(0x80u8 | low >= 0x80) by (bit_vector);
            assert(head[head.len() - 1] == 0x80u8 | low);
            assert(is_hex_digit(all[head.len() - 1]));
        }
        assert forall|i: int| 0 <= i < tail.len() implies is_hex_digit(#[trigger] tail[i]) by {
            assert(all[head.len() + i] == tail[i]);
        }
        lemma_hex_is_ascii(text.drop_first());
        assert forall|i: int| 0 <= i < text.len() implies '\0' <= #[trigger] text[i] <= '\u{7f}' by {
            if i > 0 {
                assert(text[i] == text.drop_first()[i - 1]);
            }
        }
    }
}

/// What names a digest still names it when letters of it change their case.
proof fn lemma_digest_case(left: Seq<char>, right: Seq<char>, digest: Seq<u8>)
    requires
        left.map_values(|c: char| ascii_lower(c)) == right.map_values(|c: char| ascii_lower(c)),
        names_digest(left, digest),
    ensures
        names_digest(right, digest),
{
    let lower = |c: char| ascii_lower(c);
    let a = vstd::utf8::encode_utf8(left);
    let b = vstd::utf8::encode_utf8(right);
    assert(left.map_values(lower).len() == right.map_values(lower).len());
    lemma_hex_is_ascii(left);
    assert forall|i: int| 0 <= i < right.len() implies '\0' <= #[trigger] right[i] <= '\u{7f}' by {
        assert(left.map_values(lower)[i] == right.map_values(lower)[i]);
        assert('\0' <= left[i] <= '\u{7f}');
    }
    vstd::utf8::is_ascii_chars_encode_utf8(left);
    vstd::utf8::is_ascii_chars_encode_utf8(right);
    assert forall|i: int| 0 <= i < b.len() implies {
        &&& is_hex_digit(#[trigger] b[i])
        &&& hex_digit_value(a[i]) == hex_digit_value(b[i])
    } by {
        assert(left.map_values(lower)[i] == right.map_values(lower)[i]);
        assert(is_hex_digit(a[i]));
        assert(a[i] == left[i] as u8 && b[i] == right[i] as u8);
    }
    assert(hex_bytes(a) =~= hex_bytes(b));
}

/// The case of the letters in an expected digest does not matter.
pub proof fn law_digest_case_is_ignored(left: Seq<char>, right: Seq<char>, digest: Seq<u8>)
    requires
        left.map_values(|c: char| ascii_lower(c)) == right.map_values(|c: char| ascii_lower(c)),
    ensures
        names_digest(left, digest) == names_digest(right, digest),
{
    if names_digest(left, digest) {
        lemma_digest_case(left, right, digest);
    }
    if names_digest(right, digest) {
        lemma_digest_case(right, left, digest);
    }
}

/// A text and its upper-case form name the same digest, or neither names it.
pub proof fn law_upper_case_names_the_same_digest(text: Seq<char>, digest: Seq<u8>)
    ensures
        names_digest(text, digest) == names_digest(
            text.map_values(|c: char| ascii_upper(c)),
            digest,
        ),
{
    let upper = text.map_values(|c: char| ascii_upper(c));
    let lower = |c: char| ascii_lower(c);
    assert(text.map_values(lower) =~= upper.map_values(lower));
    law_digest_case_is_ignored(text, upper, digest);
}

/// Whether a file is accepted does not depend on the case of the letters in the expected digest,
/// nor on the path that is shown for it.
pub proof fn law_acceptance_ignores_case(
    digest: Seq<u8>,
    left_path: Seq<char>,
    left: Seq<char>,
    left_result: Result<(), Sha1Error>,
    right_path: Seq<char>,
    right: Seq<char>,
    right_result: Result<(), Sha1Error>,
)
    requires
        left.map_values(|c: char| ascii_lower(c)) == right.map_values(|c: char| ascii_lower(c)),
        digest_outcome(digest, left_path, left, left_result),
        digest_outcome(digest, right_path, right, right_result),
    ensures
        left_result is Ok == right_result is Ok,
{
    law_digest_case_is_ignored(left, right, digest);
}

/// Two texts that name the same digest differ in the case of letters alone, and each has two
/// characters for every byte: no shorter or longer text is accepted.
pub proof fn law_accepted_texts_differ_in_case_alone(
    left: Seq<char>,
    right: Seq<char>,
    digest: Seq<u8>,
)
    requires
        names_digest(left, digest),
        names_digest(right, digest),
    ensures
        left.map_values(|c: char| ascii_lower(c)) == right.map_values(|c: char| ascii_lower(c)),
        left.len() == 2 * digest.len(),
        right.len() == 2 * digest.len(),
{
    let lower = |c: char| ascii_lower(c);
    let a = vstd::utf8::encode_utf8(left);
    let b = vstd::utf8::encode_utf8(right);
    lemma_hex_is_ascii(left);
    lemma_hex_is_ascii(right);
    vstd::utf8::is_ascii_chars_encode_utf8(left);
    vstd::utf8::is_ascii_chars_encode_utf8(right);
    assert(hex_bytes(a).len() == a.len() / 2);
    assert(hex_bytes(b).len() == b.len() / 2);
    assert forall|i: int| 0 <= i < left.len() implies ascii_lower(left[i]) == ascii_lower(
        #[trigger] right[i],
    ) by {
        let k = i / 2;
        assert(is_hex_digit(a[2 * k]) && is_hex_digit(a[2 * k + 1]));
        assert(is_hex_digit(b[2 * k]) && is_hex_digit(b[2 * k + 1]));
        assert(hex_bytes(a)[k] == hex_bytes(b)[k]);
        assert(hex_digit_value(a[i]) == hex_digit_value(b[i]));
        assert(a[i] == left[i] as u8 && b[i] == right[i] as u8);
    }
    assert(left.map_values(lower) =~= right.map_values(lower));
}

/// The digits are the ten decimal ones and the letters up to `f` in both cases, and each has the
/// value of its place among them.
pub proof fn law_hex_digits(byte: u8)
    ensures
        is_hex_digit(byte) <==> exists|v: int|
            0 <= v < 16 && (#[trigger] "0123456789abcdef"@[v] == byte as char
                || "0123456789ABCDEF"@[v] == byte as char),
        is_hex_digit(byte) ==> 0 <= hex_digit_value(byte) < 16 && (
        "0123456789abcdef"@[hex_digit_value(byte)] == byte as char
            || "0123456789ABCDEF"@[hex_digit_value(byte)] == byte as char),
{
    reveal_strlit("0123456789abcdef");
    reveal_strlit("0123456789ABCDEF");
    if is_hex_digit(byte) {
        let v = hex_digit_value(byte);
        assert("0123456789abcdef"@[v] == byte as char || "0123456789ABCDEF"@[v] == byte as char);
    }
}

/// The hexadecimal form of bytes has two digits for each, the high one first, in lower case.
pub proof fn law_hexadecimal_form(data: Seq<u8>)
    ensures
        hex_text(data).len() == 2 * data.len(),
        forall|i: int|
            #![trigger data[i]]
            0 <= i < data.len() ==> {
                &&& hex_text(data)[2 * i] == "0123456789abcdef"@[data[i] as int / 16]
                &&& hex_text(data)[2 * i + 1] == "0123456789abcdef"@[data[i] as int % 16]
            },
{
    reveal_strlit("0123456789abcdef");
    assert forall|v: int| 0 <= v < 16 implies #[trigger] lower_hex_digit(v)
        == "0123456789abcdef"@[v] by {}
    assert forall|i: int|
        #![trigger data[i]]
        0 <= i < data.len() implies {
        &&& hex_text(data)[2 * i] == "0123456789abcdef"@[data[i] as int / 16]
        &&& hex_text(data)[2 * i + 1] == "0123456789abcdef"@[data[i] as int % 16]
    } by {
        assert((2 * i) / 2 == i && (2 * i) % 2 == 0);
        assert((2 * i + 1) / 2 == i && (2 * i + 1) % 2 == 1);
        assert(hex_text(data)[2 * i] == lower_hex_digit(data[i] as int / 16));
        assert(hex_text(data)[2 * i + 1] == lower_hex_digit(data[i] as int % 16));
    }
}

/// A text names a digest exactly when it is, but for the case of its letters, the hexadecimal form
/// of it.
pub proof fn law_named_digest_is_the_hexadecimal_form(text: Seq<char>, digest: Seq<u8>)
    ensures
        names_digest(text, digest) <==> text.map_values(|c: char| ascii_lower(c)) == hex_text(
            digest,
        ),
{
    let lower = |c: char| ascii_lower(c);
    law_written_digest_is_accepted(digest);
    law_hexadecimal_form(digest);
    reveal_strlit("0123456789abcdef");
    assert(hex_text(digest).map_values(lower) =~= hex_text(digest)) by {
        assert forall|j: int| 0 <= j < hex_text(digest).len() implies ascii_lower(
            #[trigger] hex_text(digest)[j],
        ) == hex_text(digest)[j] by {
            let i = j / 2;
            assert(digest[i] == digest[i]);
            assert(j == 2 * i || j == 2 * i + 1);
            let v = if j == 2 * i {
                digest[i] as int / 16
            } else {
                digest[i] as int % 16
            };
            assert(0 <= v < 16);
            assert(hex_text(digest)[j] == "0123456789abcdef"@[v]);
        }
    }
    if names_digest(text, digest) {
        law_accepted_texts_differ_in_case_alone(text, hex_text(digest), digest);
    }
    if text.map_values(lower) == hex_text(digest) {
        law_digest_case_is_ignored(text, hex_text(digest), digest);
    }
}

/// The letters of the Latin alphabet have a lower case, and nothing else changes.
pub proof fn law_lower_case(c: char)
    ensures
        ascii_lower(c) as int == if 0x41 <= c as int <= 0x5a {
            c as int + 0x20
        } else {
            c as int
        },
{
}

/// Whatever comes of holding a digest against an expected text: it is accepted exactly when the
/// text is its hexadecimal form in either case, and otherwise the refusal says what is wrong.
pub proof fn law_every_digest_has_its_outcome(
    digest: Seq<u8>,
    path: Seq<char>,
    expected: Seq<char>,
    result: Result<(), Sha1Error>,
)
    requires
        digest_outcome(digest, path, expected, result),
    ensures
        result is Ok <==> expected.map_values(|c: char| ascii_lower(c)) == hex_text(digest),
        !(result matches Err(Sha1Error::Unreadable(_))),
        result matches Err(Sha1Error::Mismatch { message }) ==> message@ == "\n"@ + path
            + " hash don't fit!\nget: "@ + hex_text(digest) + "\nexpected: "@ + expected + "\n"@,
        (result matches Err(Sha1Error::InvalidHex(HexError::OddLength)))
            <==> vstd::utf8::encode_utf8(expected).len() % 2 != 0,
        !(result matches Err(Sha1Error::InvalidHex(HexError::InvalidStringLength))),
        result matches Err(
            Sha1Error::InvalidHex(HexError::InvalidHexCharacter { c, index }),
        ) ==> {
            let digits = vstd::utf8::encode_utf8(expected);
            &&& index < digits.len()
            &&& c == digits[index as int] as char
            &&& !is_hex_digit(digits[index as int])
            &&& forall|j: int| 0 <= j < index ==> is_hex_digit(#[trigger] digits[j])
        },
        (result matches Err(Sha1Error::Mismatch { .. })) ==> {
            let digits = vstd::utf8::encode_utf8(expected);
            forall|j: int| 0 <= j < digits.len() ==> is_hex_digit(#[trigger] digits[j])
        },
{
    law_named_digest_is_the_hexadecimal_form(expected, digest);
}

/// Each reason for which a file is not accepted is told in its own words.
pub proof fn law_refusals_have_their_texts(message: String, error: HexError, c: char, index: usize)
    ensures
        sha1_error_text(Sha1Error::Unreadable(message)) == message@,
        sha1_error_text(Sha1Error::Mismatch { message }) == message@,
        sha1_error_text(Sha1Error::InvalidHex(HexError::OddLength)) == "Odd number of digits"@,
        sha1_error_text(Sha1Error::InvalidHex(HexError::InvalidStringLength))
            == "Invalid string length"@,
        sha1_error_text(Sha1Error::InvalidHex(HexError::InvalidHexCharacter { c, index }))
            == invalid_character_text(c, index),
{
}

} // verus!

//! Identifiers: the text under which a piece of content is known.
//!
//! An identifier is the lower-case hexadecimal text of a two-byte namespace
//! prefix, high byte first, followed by the content's bytes. The text says
//! everything about what it was made from, so two identifiers are equal only
//! when both the prefix and the content are.

use vstd::prelude::*;

verus! {

/// Why a text is not an identifier of a given namespace.
#[derive(Clone, Copy, Debug, PartialEq, Eq, Structural)]
pub enum IdentifierError {
    /// The text is shorter than a prefix, or holds half a byte.
    InvalidLength,
    /// A character is not a lower-case hexadecimal digit.
    InvalidFormat,
    /// The text carries the prefix of another namespace.
    InvalidPrefix,
}

/// The digit that stands for a value below sixteen.
pub open spec fn hex_digit(value: int) -> u8 {
    if value < 10 {
        (48 + value) as u8
    } else {
        (87 + value) as u8
    }
}

/// Whether a character is one of `0` to `9` or `a` to `f`.
pub open spec fn is_hex_digit(c: u8) -> bool {
    (48 <= c <= 57) || (97 <= c <= 102)
}

/// The value that a hexadecimal digit stands for.
pub open spec fn hex_value(c: u8) -> int {
    if c <= 57 {
        c - 48
    } else {
        c - 87
    }
}

/// The hexadecimal text of a byte string: two digits for each byte, the high
/// half first.
pub open spec fn hex_text(bytes: Seq<u8>) -> Seq<u8> {
    Seq::new(
        2 * bytes.len(),
        |i: int|
            hex_digit(
                if i % 2 == 0 {
                    bytes[i / 2] as int / 16
                } else {
                    bytes[i / 2] as int % 16
                },
            ),
    )
}

/// The bytes that a hexadecimal text stands for.
pub open spec fn hex_bytes(text: Seq<u8>) -> Seq<u8> {
    Seq::new(
        text.len() / 2,
        |i: int| (16 * hex_value(text[2 * i]) + hex_value(text[2 * i + 1])) as u8,
    )
}

/// The two bytes of a namespace prefix, high byte first.
pub open spec fn prefix_bytes(prefix: u16) -> Seq<u8> {
    seq![(prefix as int / 256) as u8, (prefix as int % 256) as u8]
}

/// The identifier of `data` in the namespace `prefix`.
pub open spec fn identifier_of(data: Seq<u8>, prefix: u16) -> Seq<u8> {
    hex_text(prefix_bytes(prefix) + data)
}

/// What checking `text` against the namespace `prefix` gives.
pub open spec fn identifier_check(text: Seq<u8>, prefix: u16) -> Result<(), IdentifierError> {
    if text.len() < 4 || text.len() % 2 != 0 {
        Err(IdentifierError::InvalidLength)
    } else if exists|i: int| 0 <= i < text.len() && !is_hex_digit(#[trigger] text[i]) {
        Err(IdentifierError::InvalidFormat)
    } else if text.take(4) != hex_text(prefix_bytes(prefix)) {
        Err(IdentifierError::InvalidPrefix)
    } else {
        Ok(())
    }
}

/// The content that an identifier was derived from: the bytes that its
/// digits after the prefix stand for.
pub open spec fn content_of(text: Seq<u8>) -> Seq<u8> {
    hex_bytes(text.skip(4))
}

/// Whether `text` is an identifier of the namespace `prefix`.
pub open spec fn is_identifier(text: Seq<u8>, prefix: u16) -> bool {
    identifier_check(text, prefix) is Ok
}

fn hex_char(value: u8) -> (c: u8)
    requires
        value < 16,
    ensures
        c == hex_digit(value as int),
        is_hex_digit(c),
{
    if value < 10 {
        48 + value
    } else {
        87 + value
    }
}

fn push_hex(text: &mut Vec<u8>, byte: u8)
    ensures
        final(text)@ == old(text)@.push(hex_digit(byte as int / 16)).push(
            hex_digit(byte as int % 16),
        ),
{
    text.push(hex_char(byte / 16));
    text.push(hex_char(byte % 16));
}

/// Every second pair of digits of a hexadecimal text is one byte of what it
/// was made from.
proof fn lemma_hex_text_push(bytes: Seq<u8>, byte: u8)
    ensures
        hex_text(bytes.push(byte)) == hex_text(bytes).push(hex_digit(byte as int / 16)).push(
            hex_digit(byte as int % 16),
        ),
{
    let longer = hex_text(bytes.push(byte));
    let built = hex_text(bytes).push(hex_digit(byte as int / 16)).push(
        hex_digit(byte as int % 16),
    );
    assert(longer.len() == built.len());
    assert forall|i: int| 0 <= i < longer.len() implies longer[i] == built[i] by {
        if i < 2 * bytes.len() {
            assert(bytes.push(byte)[i / 2] == bytes[i / 2]);
        } else {
            assert(i / 2 == bytes.len());
            assert(bytes.push(byte)[i / 2] == byte);
        }
    }
    assert(longer =~= built);
}

/// Derives the identifier of `data` in the namespace `prefix`.
pub fn create_identifier(data: &[u8], prefix: u16) -> (identifier: Vec<u8>)
    ensures
        identifier@ == identifier_of(data@, prefix),
{
    let mut identifier: Vec<u8> = Vec::new();
    let high: u8 = (prefix / 256) as u8;
    let low: u8 = (prefix % 256) as u8;
    proof {
        assert(hex_text(Seq::<u8>::empty()) =~= Seq::<u8>::empty());
        lemma_hex_text_push(Seq::<u8>::empty(), high);
        lemma_hex_text_push(seq![high], low);
        assert(Seq::<u8>::empty().push(high) =~= seq![high]);
        assert(seq![high].push(low) =~= prefix_bytes(prefix));
    }
    push_hex(&mut identifier, high);
    push_hex(&mut identifier, low);
    let mut i: usize = 0;
    while i < data.len()
        invariant
            i <= data@.len(),
            identifier@ == hex_text(prefix_bytes(prefix) + data@.take(i as int)),
        decreases data@.len() - i,
    {
        proof {
            lemma_hex_text_push(prefix_bytes(prefix) + data@.take(i as int), data@[i as int]);
            assert((prefix_bytes(prefix) + data@.take(i as int)).push(data@[i as int]) =~= prefix_bytes(
                prefix,
            ) + data@.take(i + 1));
        }
        push_hex(&mut identifier, data[i]);
        i += 1;
    }
    assert(data@.take(data@.len() as int) =~= data@);
    identifier
}

/// Checks that `identifier` is an identifier of the namespace `prefix`.
pub fn is_valid_identifier(identifier: &[u8], prefix: u16) -> (result: Result<
    (),
    IdentifierError,
>)
    ensures
        result == identifier_check(identifier@, prefix),
{
    let length: usize = identifier.len();
    if length < 4 || length % 2 != 0 {
        return Err(IdentifierError::InvalidLength);
    }
    let mut i: usize = 0;
    while i < length
        invariant
            length == identifier@.len(),
            length >= 4,
            length % 2 == 0,
            i <= length,
            forall|j: int| 0 <= j < i ==> is_hex_digit(#[trigger] identifier@[j]),
        decreases length - i,
    {
        let c: u8 = identifier[i];
        if !((48 <= c && c <= 57) || (97 <= c && c <= 102)) {
            assert(!is_hex_digit(identifier@[i as int]));
            return Err(IdentifierError::InvalidFormat);
        }
        i += 1;
    }
    let high: u8 = (prefix / 256) as u8;
    let low: u8 = (prefix % 256) as u8;
    let expected: [u8; 4] = [
        hex_char(high / 16),
        hex_char(high % 16),
        hex_char(low / 16),
        hex_char(low % 16),
    ];
    proof {
        assert(hex_text(prefix_bytes(prefix)) =~= expected@);
    }
    if identifier[0] != expected[0] || identifier[1] != expected[1] || identifier[2] != expected[2]
        || identifier[3] != expected[3] {
        assert(identifier@.take(4)[0] == identifier@[0]);
        assert(identifier@.take(4)[1] == identifier@[1]);
        assert(identifier@.take(4)[2] == identifier@[2]);
        assert(identifier@.take(4)[3] == identifier@[3]);
        return Err(IdentifierError::InvalidPrefix);
    }
    assert(identifier@.take(4) =~= expected@);
    Ok(())
}

/// Two identifiers are equal only if they were derived from the same content
/// in the same namespace.
pub proof fn lemma_identifier_injective(
    first: Seq<u8>,
    first_prefix: u16,
    second: Seq<u8>,
    second_prefix: u16,
)
    requires
        identifier_of(first, first_prefix) == identifier_of(second, second_prefix),
    ensures
        first == second,
        first_prefix == second_prefix,
{
    let a = prefix_bytes(first_prefix) + first;
    let b = prefix_bytes(second_prefix) + second;
    assert(hex_text(a).len() == hex_text(b).len());
    assert(a.len() == b.len());
    assert forall|i: int| 0 <= i < a.len() implies a[i] == b[i] by {
        assert(hex_text(a)[2 * i] == hex_text(b)[2 * i]);
        assert(hex_text(a)[2 * i + 1] == hex_text(b)[2 * i + 1]);
        assert((2 * i) / 2 == i && (2 * i) % 2 == 0);
        assert((2 * i + 1) / 2 == i && (2 * i + 1) % 2 == 1);
    }
    assert(first =~= second) by {
        assert forall|i: int| 0 <= i < first.len() implies first[i] == second[i] by {
            assert(a[i + 2] == first[i]);
            assert(b[i + 2] == second[i]);
        }
    }
    assert(a[0] == b[0] && a[1] == b[1]);
}

/// A derived identifier passes the check of its own namespace.
pub proof fn lemma_derived_is_identifier(data: Seq<u8>, prefix: u16)
    ensures
        is_identifier(identifier_of(data, prefix), prefix),
{
    let text = identifier_of(data, prefix);
    assert forall|i: int| 0 <= i < text.len() implies is_hex_digit(#[trigger] text[i]) by {}
    assert(text.take(4) =~= hex_text(prefix_bytes(prefix))) by {
        assert forall|i: int| 0 <= i < 4 implies text.take(4)[i] == hex_text(prefix_bytes(prefix))[i] by {
            assert((prefix_bytes(prefix) + data)[i / 2] == prefix_bytes(prefix)[i / 2]);
        }
    }
}

/// A text passes the check of a namespace only if it is the identifier of
/// some content in that namespace: of the bytes that its digits after the
/// prefix stand for.
pub proof fn lemma_identifier_is_derived(text: Seq<u8>, prefix: u16)
    requires
        is_identifier(text, prefix),
    ensures
        text == identifier_of(content_of(text), prefix),
{
    let data = content_of(text);
    let derived = identifier_of(data, prefix);
    assert(derived.len() == text.len());
    assert forall|i: int| 0 <= i < text.len() implies derived[i] == text[i] by {
        assert(is_hex_digit(text[i]));
        if i < 4 {
            assert(text.take(4)[i] == text[i]);
            assert((prefix_bytes(prefix) + data)[i / 2] == prefix_bytes(prefix)[i / 2]);
        } else {
            let k = i / 2 - 2;
            assert((prefix_bytes(prefix) + data)[i / 2] == data[k]);
            assert(text.skip(4)[2 * k] == text[2 * k + 4]);
            assert(text.skip(4)[2 * k + 1] == text[2 * k + 5]);
            assert(is_hex_digit(text[2 * k + 4]));
            assert(is_hex_digit(text[2 * k + 5]));
        }
    }
    assert(derived =~= text);
}

/// The content of a derived identifier is what it was derived from.
pub proof fn lemma_content_recovered(data: Seq<u8>, prefix: u16)
    ensures
        content_of(identifier_of(data, prefix)) == data,
{
    let text = identifier_of(data, prefix);
    lemma_derived_is_identifier(data, prefix);
    lemma_identifier_is_derived(text, prefix);
    lemma_identifier_injective(content_of(text), prefix, data, prefix);
}

/// An identifier passes the check of no namespace but its own.
pub proof fn lemma_foreign_prefix_rejected(data: Seq<u8>, prefix: u16, other: u16)
    requires
        prefix != other,
    ensures
        identifier_check(identifier_of(data, prefix), other) == Err::<(), IdentifierError>(
            IdentifierError::InvalidPrefix,
        ),
{
    let text = identifier_of(data, prefix);
    lemma_derived_is_identifier(data, prefix);
    if text.take(4) == hex_text(prefix_bytes(other)) {
        assert(hex_text(prefix_bytes(prefix)) == hex_text(prefix_bytes(other)));
        assert(identifier_of(Seq::<u8>::empty(), prefix) =~= hex_text(prefix_bytes(prefix))) by {
            assert(prefix_bytes(prefix) + Seq::<u8>::empty() =~= prefix_bytes(prefix));
        }
        assert(identifier_of(Seq::<u8>::empty(), other) =~= hex_text(prefix_bytes(other))) by {
            assert(prefix_bytes(other) + Seq::<u8>::empty() =~= prefix_bytes(other));
        }
        lemma_identifier_injective(Seq::<u8>::empty(), prefix, Seq::<u8>::empty(), other);
    }
}

} // verus!

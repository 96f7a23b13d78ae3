//! The fingerprint of a page: a short digest that changes when the page
//! does.

use crate::text::push_char;
use sha2::{Digest, Sha256};
use vstd::prelude::*;
use vstd::string::StringExecFns;
use vstd::utf8::encode_utf8;

verus! {

/// The SHA-256 digest of a sequence of bytes.
pub uninterp spec fn sha256(data: Seq<u8>) -> Seq<u8>;

/// Calls `Sha256::digest`. The digest is a function of the bytes, and 32
/// bytes long.
#[verifier::external_body]
pub(crate) fn sha256_digest(data: &[u8]) -> (digest: Vec<u8>)
    ensures
        digest@ == sha256(data@),
        digest@.len() == 32,
{
    Sha256::digest(data).to_vec()
}

/// The lower-case hexadecimal digit for a number below 16.
pub open spec fn hex_digit(n: int) -> char {
    if n < 10 {
        (('0' as u8) + n) as u8 as char
    } else {
        (('a' as u8) + n - 10) as u8 as char
    }
}

/// Two lower-case hexadecimal digits for each byte, the high one first.
pub open spec fn hex_lower(bytes: Seq<u8>) -> Seq<char> {
    Seq::new(
        2 * bytes.len(),
        |i: int|
            if i % 2 == 0 {
                hex_digit(bytes[i / 2] as int / 16)
            } else {
                hex_digit(bytes[i / 2] as int % 16)
            },
    )
}

/// The lower-case hexadecimal digit for a number below 16.
pub fn hex_char(n: u8) -> (digit: char)
    requires
        n < 16,
    ensures
        digit == hex_digit(n as int),
{
    if n < 10 {
        let code: u8 = 48 + n;
        code as char
    } else {
        let code: u8 = 87 + n;
        code as char
    }
}

/// Writes each byte as two lower-case hexadecimal digits, the high one
/// first.
pub fn hex_encode(bytes: &[u8]) -> (text: String)
    ensures
        text@ == hex_lower(bytes@),
{
    let mut text = String::new();
    let mut i: usize = 0;
    proof {
        assert(hex_lower(bytes@.take(0)) =~= Seq::empty());
    }
    while i < bytes.len()
        invariant
            i <= bytes.len(),
            text@ == hex_lower(bytes@.take(i as int)),
        decreases bytes.len() - i,
    {
        let byte = bytes[i];
        let ghost before = text@;
        push_char(&mut text, hex_char(byte / 16));
        push_char(&mut text, hex_char(byte % 16));
        proof {
            let grown = bytes@.take(i + 1);
            assert(grown.len() == i + 1);
            assert forall|k: int| 0 <= k < 2 * (i + 1) implies #[trigger] text@[k] == hex_lower(
                grown,
            )[k] by {
                if k < 2 * i {
                    assert(text@[k] == before[k]);
                    assert(bytes@.take(i as int)[k / 2] == grown[k / 2]);
                } else {
                    assert(grown[k / 2] == byte);
                }
            }
            assert(text@ =~= hex_lower(grown));
        }
        i += 1;
    }
    proof {
        assert(bytes@.take(i as int) =~= bytes@);
    }
    text
}

/// What changes the markup of a page without changing its source.
#[derive(Debug, Clone)]
pub struct Modifiers {
    /// Whether only the publishing account may change the page.
    pub read_only: Option<bool>,
    /// The text that stands in superscript at the top of the page.
    pub superscript: Option<String>,
}

/// The mathematical value of [`Modifiers`].
pub struct ModifiersView {
    /// Whether only the publishing account may change the page.
    pub read_only: Option<bool>,
    /// The text that stands in superscript at the top of the page.
    pub superscript: Option<Seq<char>>,
}

impl View for Modifiers {
    type V = ModifiersView;

    open spec fn view(&self) -> ModifiersView {
        ModifiersView {
            read_only: self.read_only,
            superscript: match self.superscript {
                Some(text) => Some(text@),
                None => None,
            },
        }
    }
}

/// The fingerprint of a text: the first four bytes of the SHA-256 digest of
/// its UTF-8 encoding, in hexadecimal.
pub open spec fn digest_of(content: Seq<char>) -> Seq<char> {
    hex_lower(sha256(encode_utf8(content)).take(4))
}

/// How the restriction of a page enters its fingerprint.
pub open spec fn flag_text(read_only: Option<bool>) -> Seq<char> {
    match read_only {
        Some(true) => "true"@,
        Some(false) => "false"@,
        None => Seq::empty(),
    }
}

/// How the superscript of a page enters its fingerprint.
pub open spec fn superscript_text(superscript: Option<Seq<char>>) -> Seq<char> {
    match superscript {
        Some(text) => text,
        None => Seq::empty(),
    }
}

/// The text that the fingerprint of a page is taken of: its source, its
/// title, its restriction and its superscript, in that order.
pub open spec fn fingerprint_input(source: Seq<char>, title: Seq<char>, modifiers: ModifiersView) -> Seq<
    char,
> {
    source + title + flag_text(modifiers.read_only) + superscript_text(modifiers.superscript)
}

/// The fingerprint of a page.
pub open spec fn fingerprint_of(source: Seq<char>, title: Seq<char>, modifiers: ModifiersView) -> Seq<
    char,
> {
    digest_of(fingerprint_input(source, title, modifiers))
}

/// The fingerprint of a text: eight hexadecimal digits.
pub fn hash_str(content: &str) -> (sha: String)
    ensures
        sha@ == digest_of(content@),
        sha@.len() == 8,
        forall|i: int| 0 <= i < 8 ==> is_hex_digit(#[trigger] sha@[i]),
{
    let digest = sha256_digest(content.as_bytes());
    let mut head: Vec<u8> = Vec::new();
    let mut i: usize = 0;
    while i < 4
        invariant
            i <= 4,
            digest@.len() == 32,
            head@ == digest@.take(i as int),
        decreases 4 - i,
    {
        head.push(digest[i]);
        proof {
            assert(digest@.take(i + 1) =~= digest@.take(i as int).push(digest@[i as int]));
        }
        i += 1;
    }
    proof {
        lemma_hex_lower_is_hex(head@);
    }
    hex_encode(head.as_slice())
}

/// The fingerprint of a page: of its source, its title and what else
/// changes its markup.
pub fn fingerprint(raw_source: &str, resolved_title: &str, modifiers: &Modifiers) -> (sha: String)
    ensures
        sha@ == fingerprint_of(raw_source@, resolved_title@, modifiers@),
        sha@.len() == 8,
        forall|i: int| 0 <= i < 8 ==> is_hex_digit(#[trigger] sha@[i]),
{
    let mut content = raw_source.to_owned();
    content.append(resolved_title);
    match modifiers.read_only {
        Some(true) => {
            content.append("true");
        },
        Some(false) => {
            content.append("false");
        },
        None => {
            proof {
                assert(content@ + Seq::<char>::empty() =~= content@);
            }
        },
    }
    match &modifiers.superscript {
        Some(text) => {
            content.append(text.as_str());
        },
        None => {
            proof {
                assert(content@ + Seq::<char>::empty() =~= content@);
            }
        },
    }
    hash_str(content.as_str())
}

/// Two runs on the same source, title and modifiers give the same
/// fingerprint.
pub proof fn lemma_fingerprint_deterministic(
    source: Seq<char>,
    title: Seq<char>,
    modifiers: ModifiersView,
    other_source: Seq<char>,
    other_title: Seq<char>,
    other_modifiers: ModifiersView,
)
    requires
        source == other_source,
        title == other_title,
        modifiers == other_modifiers,
    ensures
        fingerprint_of(source, title, modifiers) == fingerprint_of(
            other_source,
            other_title,
            other_modifiers,
        ),
{
}

/// Whether `c` is a lower-case hexadecimal digit.
pub open spec fn is_hex_digit(c: char) -> bool {
    ('0' <= c <= '9') || ('a' <= c <= 'f')
}

/// Bytes written in hexadecimal are hexadecimal digits, two for each byte.
pub proof fn lemma_hex_lower_is_hex(bytes: Seq<u8>)
    ensures
        hex_lower(bytes).len() == 2 * bytes.len(),
        forall|i: int| 0 <= i < hex_lower(bytes).len() ==> is_hex_digit(#[trigger] hex_lower(bytes)[i]),
{
    assert forall|i: int| 0 <= i < hex_lower(bytes).len() implies is_hex_digit(
        #[trigger] hex_lower(bytes)[i],
    ) by {
        let byte = bytes[i / 2] as int;
        assert(0 <= byte / 16 < 16);
        assert(0 <= byte % 16 < 16);
    }
}

} // verus!

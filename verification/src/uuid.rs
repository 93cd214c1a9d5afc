//! Task identifiers: 16-byte UUIDs, their text form and parsing.
use vstd::prelude::*;

verus! {

/// A task identifier, as its 16 bytes.
pub struct Uuid {
    pub v: [u8; 16],
}

/// The value of a hexadecimal digit, in either case.
pub open spec fn hex_digit_value(c: char) -> Option<int> {
    if '0' <= c && c <= '9' {
        Some(c as int - '0' as int)
    } else if 'a' <= c && c <= 'f' {
        Some(c as int - 'a' as int + 10)
    } else if 'A' <= c && c <= 'F' {
        Some(c as int - 'A' as int + 10)
    } else {
        None
    }
}

/// The lower-case hexadecimal digit of a value below sixteen.
pub open spec fn hex_char(d: int) -> char {
    if d < 10 {
        (d + '0' as int) as char
    } else {
        (d - 10 + 'a' as int) as char
    }
}

/// Two lower-case hexadecimal digits for each byte, most significant first.
pub open spec fn bytes_hex(b: Seq<u8>) -> Seq<char> {
    Seq::new(
        2 * b.len(),
        |i: int|
            if i % 2 == 0 {
                hex_char((b[i / 2] / 16) as int)
            } else {
                hex_char((b[i / 2] % 16) as int)
            },
    )
}

/// The bytes that 32 hexadecimal digits stand for, two digits a byte.
pub open spec fn hex_bytes(s: Seq<char>) -> Option<Seq<u8>> {
    if s.len() == 32 && forall|i: int| 0 <= i < 32 ==> (#[trigger] hex_digit_value(s[i])) is Some {
        Some(
            Seq::new(
                16,
                |j: int|
                    (hex_digit_value(s[2 * j])->0 * 16 + hex_digit_value(s[2 * j + 1])->0) as u8,
            ),
        )
    } else {
        None
    }
}

/// The 36-character form `8-4-4-4-12`, read as 16 bytes.
pub open spec fn hyphenated_bytes(s: Seq<char>) -> Option<Seq<u8>> {
    if s.len() == 36 && s[8] == '-' && s[13] == '-' && s[18] == '-' && s[23] == '-' {
        hex_bytes(
            s.subrange(0, 8) + s.subrange(9, 13) + s.subrange(14, 18) + s.subrange(19, 23)
                + s.subrange(24, 36),
        )
    } else {
        None
    }
}

/// An ASCII letter in lower case; any other character unchanged.
pub open spec fn ascii_lower(c: char) -> char {
    if 'A' <= c && c <= 'Z' {
        (c as int + 32) as char
    } else {
        c
    }
}

pub open spec fn urn_prefix() -> Seq<char> {
    seq!['u', 'r', 'n', ':', 'u', 'u', 'i', 'd', ':']
}

/// The UUID that a text stands for: 32 hexadecimal digits; the hyphenated
/// form; the hyphenated form in braces; or the hyphenated form after
/// `urn:uuid:` in any case.
pub open spec fn uuid_text_value(s: Seq<char>) -> Option<Seq<u8>> {
    if s.len() == 32 {
        hex_bytes(s)
    } else if s.len() == 36 {
        hyphenated_bytes(s)
    } else if s.len() == 38 {
        if s[0] == '{' && s[37] == '}' {
            hyphenated_bytes(s.subrange(1, 37))
        } else {
            None
        }
    } else if s.len() == 45 {
        if s.subrange(0, 9).map_values(|c: char| ascii_lower(c)) == urn_prefix() {
            hyphenated_bytes(s.skip(9))
        } else {
            None
        }
    } else {
        None
    }
}

/// The hyphenated lower-case text of 16 bytes.
pub open spec fn uuid_text(b: Seq<u8>) -> Seq<char> {
    bytes_hex(b.subrange(0, 4)) + seq!['-'] + bytes_hex(b.subrange(4, 6)) + seq!['-'] + bytes_hex(
        b.subrange(6, 8),
    ) + seq!['-'] + bytes_hex(b.subrange(8, 10)) + seq!['-'] + bytes_hex(b.subrange(10, 16))
}

/// Parses a UUID with `uuid::Uuid::parse_str` (as re-exported by
/// taskchampion) and hands out its bytes.  The accepted forms are those of
/// `uuid_text_value`, as the parser's source shows them.
#[verifier::external_body]
fn uuid_parse_bytes(s: &str) -> (r: Option<[u8; 16]>)
    ensures
        r matches Some(b) ==> uuid_text_value(s@) == Some(b@),
        r is None ==> uuid_text_value(s@) is None,
{
    match taskchampion::Uuid::parse_str(s) {
        Ok(u) => Some(*u.as_bytes()),
        Err(_) => None,
    }
}

/// Formats 16 bytes with `Display` of `uuid::Uuid`, which writes the
/// hyphenated lower-case form.
#[verifier::external_body]
fn uuid_bytes_text(b: &[u8; 16]) -> (r: String)
    ensures
        r@ == uuid_text(b@),
{
    taskchampion::Uuid::from_bytes(*b).to_string()
}

/// Draws a random UUID with `uuid::Uuid::new_v4`, which sets the version
/// nibble of byte 6 to 4 and the two top bits of byte 8 to `10`.
#[verifier::external_body]
fn uuid_random_bytes() -> (r: [u8; 16])
    ensures
        r@[6] / 16 == 4,
        r@[8] / 64 == 2,
{
    *taskchampion::Uuid::new_v4().as_bytes()
}

/// The bytes of each draw of a list of random UUIDs.
pub open spec fn draws_view(draws: Seq<[u8; 16]>) -> Seq<Seq<u8>> {
    draws.map_values(|b: [u8; 16]| b@)
}

/// The UUID kept from a list of draws: the first one whose first byte is
/// not zero; when there is none, the last one with its first byte set to one.
pub open spec fn kept_draw(draws: Seq<Seq<u8>>) -> Seq<u8>
    decreases draws.len(),
{
    if draws.len() == 0 {
        Seq::empty()
    } else if draws[0][0] != 0 {
        draws[0]
    } else if draws.len() == 1 {
        draws[0].update(0, 1)
    } else {
        kept_draw(draws.drop_first())
    }
}

/// True when 16 bytes carry the version (4) and variant (`10`) bits of a
/// random UUID.
pub open spec fn is_v4_bytes(b: Seq<u8>) -> bool {
    b.len() == 16 && b[6] / 16 == 4 && b[8] / 64 == 2
}

/// The UUID kept from a list of random draws (see `kept_draw`).  Its first
/// byte is not zero, and it keeps the version and variant bits that all the
/// draws carry.
pub fn uuid_from_draws(draws: &Vec<[u8; 16]>) -> (r: Uuid)
    requires
        draws.len() >= 1,
    ensures
        r.v@ == kept_draw(draws_view(draws@)),
        r.v@[0] != 0,
        (forall|i: int| 0 <= i < draws.len() ==> is_v4_bytes(#[trigger] draws@[i]@)) ==> is_v4_bytes(r.v@),
{
    let ghost dv = draws_view(draws@);
    let n = draws.len();
    let mut i: usize = 0;
    assert(dv.skip(0) =~= dv);
    while i + 1 < n
        invariant
            n == draws.len(),
            n >= 1,
            i < n,
            dv == draws_view(draws@),
            kept_draw(dv) == kept_draw(dv.skip(i as int)),
        decreases n - i,
    {
        let b = draws[i];
        assert(dv.skip(i as int)[0] == b@);
        if b[0] != 0 {
            return Uuid { v: b };
        }
        assert(dv.skip(i as int).drop_first() =~= dv.skip(i + 1));
        i = i + 1;
    }
    let mut b = draws[i];
    assert(dv.skip(i as int)[0] == b@);
    assert(dv.skip(i as int).len() == 1);
    if b[0] == 0 {
        b[0] = 1;
        assert(b@ =~= dv.skip(i as int)[0].update(0, 1));
    }
    Uuid { v: b }
}

/// A new random (version 4) UUID whose first byte is not zero.  Draws are
/// taken until one has a non-zero first byte, eight at most, and the UUID
/// is the one that `uuid_from_draws` keeps from them.
pub fn uuid_v4() -> (r: Uuid)
    ensures
        r.v@[0] != 0,
        r.v@[6] / 16 == 4,
        r.v@[8] / 64 == 2,
{
    let mut draws: Vec<[u8; 16]> = Vec::new();
    let first = uuid_random_bytes();
    draws.push(first);
    assert(draws@[0] == first);
    while draws[draws.len() - 1][0] == 0 && draws.len() < 8
        invariant
            1 <= draws.len() <= 8,
            forall|i: int| 0 <= i < draws.len() ==> is_v4_bytes(#[trigger] draws@[i]@),
        decreases 8 - draws.len(),
    {
        let next = uuid_random_bytes();
        draws.push(next);
        assert(draws@[draws.len() - 1] == next);
    }
    uuid_from_draws(&draws)
}

/// Reads a UUID from its text, in any of the forms of `uuid_text_value`.
pub fn parse_uuid(s: &str) -> (r: Option<Uuid>)
    ensures
        r matches Some(u) ==> uuid_text_value(s@) == Some(u.v@),
        r is None ==> uuid_text_value(s@) is None,
{
    match uuid_parse_bytes(s) {
        Some(b) => Some(Uuid { v: b }),
        None => None,
    }
}

impl Uuid {
    /// The hyphenated lower-case text of this UUID.
    pub fn to_string(&self) -> (r: String)
        ensures
            r@ == uuid_text(self.v@),
    {
        uuid_bytes_text(&self.v)
    }
}

proof fn lemma_byte_hex(x: u8)
    ensures
        hex_digit_value(hex_char((x / 16) as int)) == Some((x / 16) as int),
        hex_digit_value(hex_char((x % 16) as int)) == Some((x % 16) as int),
        (x / 16) * 16 + x % 16 == x,
{
}

proof fn lemma_hex_round_trip(b: Seq<u8>)
    requires
        b.len() == 16,
    ensures
        hex_bytes(bytes_hex(b)) == Some(b),
{
    let h = bytes_hex(b);
    assert forall|i: int| 0 <= i < 32 implies (#[trigger] hex_digit_value(h[i])) is Some by {
        lemma_byte_hex(b[i / 2]);
    }
    let r = hex_bytes(h)->0;
    assert forall|j: int| 0 <= j < 16 implies r[j] == b[j] by {
        lemma_byte_hex(b[j]);
        assert(h[2 * j] == hex_char((b[j] / 16) as int));
        assert(h[2 * j + 1] == hex_char((b[j] % 16) as int));
    }
    assert(r =~= b);
}

/// The text of a UUID parses back to the same UUID.
pub proof fn lemma_uuid_text_round_trip(b: Seq<u8>)
    requires
        b.len() == 16,
    ensures
        uuid_text_value(uuid_text(b)) == Some(b),
{
    let t = uuid_text(b);
    assert(t.len() == 36);
    assert(t.subrange(0, 8) + t.subrange(9, 13) + t.subrange(14, 18) + t.subrange(19, 23)
        + t.subrange(24, 36) =~= bytes_hex(b));
    lemma_hex_round_trip(b);
}

} // verus!

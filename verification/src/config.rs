//! Database settings whose password stays private.
use vstd::prelude::*;
use vstd::utf8::{encode_utf8, encode_utf8_decode_utf8};

verus! {

/// Where and how to reach a database.
#[derive(Debug)]
pub struct DatabaseConfig {
    pub host: String,
    pub port: u16,
    password: String,
}

/// Whether the first two bytes of the UTF-8 encoding of `password` end
/// between two characters (or the encoding is shorter): the first character
/// takes two bytes, or the first takes one and the second, if any, one.
pub open spec fn cut_after_two_bytes_ok(password: Seq<char>) -> bool {
    ||| password.len() == 0
    ||| (password[0] as u32) < 0x80 && (password.len() == 1 || (password[1] as u32) < 0x80)
    ||| 0x80 <= (password[0] as u32) < 0x800
}

/// The characters that the first two bytes of the encoding hold: two
/// one-byte characters, or one character of two bytes (or fewer when the
/// password is that short).
pub open spec fn shown_chars(password: Seq<char>) -> int {
    if (password[0] as u32) < 0x80 && password.len() >= 2 {
        2
    } else {
        1
    }
}

/// `masked` shows the first two bytes of `password` followed by `***`, or
/// `(none)` when there is no password.
pub open spec fn masks(password: Seq<char>, masked: Seq<char>) -> bool {
    if password.len() == 0 {
        masked == "(none)"@
    } else {
        masked == password.take(shown_chars(password)) + "***"@
    }
}

/// The first two bytes of the UTF-8 encoding of `password` (all of it when
/// it is shorter).
pub open spec fn first_two_bytes(password: Seq<char>) -> Seq<u8> {
    let b = encode_utf8(password);
    b.take(if b.len() < 2 {
        b.len() as int
    } else {
        2
    })
}

/// Where the cut falls between characters, the first two bytes are exactly
/// the encoding of the characters shown.
proof fn lemma_first_two_bytes(password: Seq<char>)
    requires
        password.len() > 0,
        cut_after_two_bytes_ok(password),
    ensures
        first_two_bytes(password) == encode_utf8(password.take(shown_chars(password))),
{
    let p = password;
    let rest = p.drop_first();
    assert(encode_utf8(p) == encode_scalar_of(p[0]) + encode_utf8(rest));
    if (p[0] as u32) < 0x80 && p.len() >= 2 {
        assert(encode_utf8(rest) == encode_scalar_of(rest[0]) + encode_utf8(rest.drop_first()));
        let t = p.take(2);
        assert(t.drop_first() =~= seq![p[1]]);
        lemma_encode_one(p[1]);
        assert(encode_utf8(t) =~= encode_scalar_of(p[0]) + encode_utf8(t.drop_first()));
        assert(first_two_bytes(p) =~= encode_utf8(t));
    } else {
        let t = p.take(1);
        assert(t =~= seq![p[0]]);
        lemma_encode_one(p[0]);
        assert(first_two_bytes(p) =~= encode_utf8(t));
    }
}

/// A one-character sequence encodes as that character.
proof fn lemma_encode_one(c: char)
    ensures
        encode_utf8(seq![c]) == encode_scalar_of(c),
{
    let s = seq![c];
    assert(s.drop_first() =~= Seq::<char>::empty());
    assert(encode_utf8(Seq::<char>::empty()) =~= Seq::<u8>::empty());
    assert(encode_utf8(s) == encode_scalar_of(s[0]) + encode_utf8(s.drop_first()));
    assert(encode_scalar_of(c) + Seq::<u8>::empty() =~= encode_scalar_of(c));
}

/// The UTF-8 encoding of one character.
spec fn encode_scalar_of(c: char) -> Seq<u8> {
    vstd::utf8::encode_scalar(c as u32)
}

/// Two passwords whose encodings begin with the same (at most two) bytes
/// are masked alike: the mask depends on those bytes alone and shows
/// nothing else of the password.
pub proof fn mask_depends_on_first_two_bytes(p1: Seq<char>, p2: Seq<char>, m1: Seq<char>, m2: Seq<char>)
    requires
        p1.len() > 0,
        p2.len() > 0,
        cut_after_two_bytes_ok(p1),
        cut_after_two_bytes_ok(p2),
        first_two_bytes(p1) == first_two_bytes(p2),
        masks(p1, m1),
        masks(p2, m2),
    ensures
        m1 == m2,
{
    lemma_first_two_bytes(p1);
    lemma_first_two_bytes(p2);
    let c1 = p1.take(shown_chars(p1));
    let c2 = p2.take(shown_chars(p2));
    encode_utf8_decode_utf8(c1);
    encode_utf8_decode_utf8(c2);
    assert(c1 == c2);
}

impl DatabaseConfig {
    /// The host name.
    pub closed spec fn host_view(&self) -> Seq<char> {
        self.host@
    }

    /// The port.
    pub closed spec fn port_view(&self) -> u16 {
        self.port
    }

    /// The password, which only this module reads.
    pub closed spec fn secret(&self) -> Seq<char> {
        self.password@
    }

    pub fn new(host: &str, port: u16, password: &str) -> (r: Self)
        ensures
            r.host_view() == host@,
            r.port_view() == port,
            r.secret() == password@,
    {
        Self { host: host.to_owned(), port, password: password.to_owned() }
    }

    /// Whether a password is set.
    pub fn has_password(&self) -> (r: bool)
        ensures
            r == (self.secret().len() > 0),
    {
        !self.password.as_str().is_empty()
    }

    /// The password with all but its first two bytes hidden. The cut must
    /// fall between two characters, as `str` slicing panics otherwise.
    pub fn masked_password(&self) -> (r: String)
        requires
            cut_after_two_bytes_ok(self.secret()),
        ensures
            masks(self.secret(), r@),
    {
        let p = self.password.as_str();
        let n = p.unicode_len();
        if n == 0 {
            return String::from_str("(none)");
        }
        let first = p.get_char(0);
        let shown: usize = if (first as u32) < 0x80 && n >= 2 {
            2
        } else {
            1
        };
        let mut s = p.substring_char(0, shown).to_owned();
        s.append("***");
        s
    }
}

/// The stage a deployment runs in.
#[derive(Debug, Clone, Copy, PartialEq, Eq)]
pub enum Environment {
    Development,
    Staging,
    Production,
}

} // verus!

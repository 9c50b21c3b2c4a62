//! Identifiers and timestamps carried by events.
//!
//! A `Uuid` is the 128-bit value of a UUID; a `Timestamp` is a point in
//! UTC time, as seconds since the Unix epoch and nanoseconds past them.

use vstd::prelude::*;
use vstd::string::*;

verus! {

/// Lowercase hexadecimal digit for a nibble value.
pub open spec fn hex_char(n: int) -> char {
    if n == 0 { '0' } else if n == 1 { '1' } else if n == 2 { '2' } else if n == 3 { '3' }
    else if n == 4 { '4' } else if n == 5 { '5' } else if n == 6 { '6' } else if n == 7 { '7' }
    else if n == 8 { '8' } else if n == 9 { '9' } else if n == 10 { 'a' } else if n == 11 { 'b' }
    else if n == 12 { 'c' } else if n == 13 { 'd' } else if n == 14 { 'e' } else { 'f' }
}

/// The `k`-th hexadecimal digit (0 = most significant) of a 128-bit value.
pub open spec fn uuid_nibble(v: u128, k: int) -> int {
    ((v as int) / vstd::arithmetic::power2::pow2((124 - 4 * k) as nat) as int) % 16
}

/// Index of the hexadecimal digit shown at position `p` of the hyphenated form.
pub open spec fn hyphenated_digit_index(p: int) -> int {
    if p < 8 { p } else if p < 13 { p - 1 } else if p < 18 { p - 2 } else if p < 23 { p - 3 } else { p - 4 }
}

/// Whether position `p` of the hyphenated form holds a hyphen.
pub open spec fn is_hyphen_position(p: int) -> bool {
    p == 8 || p == 13 || p == 18 || p == 23
}

/// The hyphenated lowercase text of a UUID, such as
/// `67e55044-10b1-426f-9247-bb680e5fe0c8`.
pub open spec fn uuid_text(v: u128) -> Seq<char> {
    Seq::new(36, |p: int| if is_hyphen_position(p) { '-' } else { hex_char(uuid_nibble(v, hyphenated_digit_index(p))) })
}

/// What `uuid::Uuid::parse_str` gives back for a text, as a 128-bit value.
pub uninterp spec fn uuid_parse_result(s: Seq<char>) -> Option<u128>;

/// What `chrono` renders as RFC 3339 for a time given as seconds since the
/// epoch and nanoseconds past them.
pub uninterp spec fn rfc3339_text(secs: i64, nanos: u32) -> Seq<char>;

/// Hexadecimal digits never include a dot or a star.
pub proof fn lemma_hex_char_is_hex(n: int)
    ensures
        hex_char(n) != '.',
        hex_char(n) != '-',
        hex_char(n) != '*',
        hex_char(n) != '>',
{
}

/// The hyphenated UUID text has no dot, so it is a single subject segment.
pub proof fn lemma_uuid_text_has_no_dot(v: u128)
    ensures
        uuid_text(v).len() == 36,
        forall|i: int| 0 <= i < 36 ==> #[trigger] uuid_text(v)[i] != '.',
        forall|i: int| 0 <= i < 36 ==> uuid_text(v)[i] != '*' && uuid_text(v)[i] != '>',
{
    assert forall|i: int| 0 <= i < 36 implies #[trigger] uuid_text(v)[i] != '.' && uuid_text(v)[i] != '*' && uuid_text(v)[i] != '>' by {
        if !is_hyphen_position(i) {
            lemma_hex_char_is_hex(uuid_nibble(v, hyphenated_digit_index(i)));
        }
    }
}

/// A UUID, held as its 128-bit value (big-endian byte order, as `uuid::Uuid::as_u128`).
#[derive(Debug, Clone, Copy, PartialEq, Eq, Structural, Hash)]
pub struct Uuid(pub u128);

impl Uuid {
    /// A new random (version 4) UUID.
    pub fn new_v4() -> (r: Uuid)
        ensures
            uuid_nibble(r.0, 12) == 4,
    {
        Uuid(random_uuid_v4())
    }

    /// A new time-ordered (version 7) UUID.
    pub fn now_v7() -> (r: Uuid)
        ensures
            uuid_nibble(r.0, 12) == 7,
    {
        Uuid(time_ordered_uuid_v7())
    }

    /// The nil UUID (all bits zero).
    pub fn nil() -> (r: Uuid)
        ensures
            r.0 == 0,
    {
        Uuid(0)
    }

    /// Whether this is the nil UUID.
    pub fn is_nil(&self) -> (b: bool)
        ensures
            b == (self.0 == 0),
    {
        self.0 == 0
    }

    /// The hyphenated lowercase text of this UUID.
    pub fn to_string(&self) -> (s: String)
        ensures
            s@ == uuid_text(self.0),
    {
        uuid_hyphenated(self.0)
    }

    /// Parses a UUID from text, in any of the forms that `uuid::Uuid::parse_str` accepts.
    pub fn parse_str(s: &str) -> (r: Option<Uuid>)
        ensures
            r == (match uuid_parse_result(s@) {
                Some(v) => Some(Uuid(v)),
                None => None::<Uuid>,
            }),
            forall|v: u128| s@ == uuid_text(v) ==> r == Some(Uuid(v)),
    {
        match uuid_parse(s) {
            Some(v) => Some(Uuid(v)),
            None => None,
        }
    }
}

/// Calls `uuid::Uuid::new_v4`. Its documentation promises a random UUID of
/// version 4, whose thirteenth hexadecimal digit is `4`; nothing else is stated.
#[verifier::external_body]
fn random_uuid_v4() -> (r: u128)
    ensures
        uuid_nibble(r, 12) == 4,
{
    uuid::Uuid::new_v4().as_u128()
}

/// Calls `uuid::Uuid::now_v7`. Its documentation promises a version 7 UUID,
/// whose thirteenth hexadecimal digit is `7`; the rest depends on the clock and chance.
#[verifier::external_body]
fn time_ordered_uuid_v7() -> (r: u128)
    ensures
        uuid_nibble(r, 12) == 7,
{
    uuid::Uuid::now_v7().as_u128()
}

/// The hyphenated lowercase hexadecimal text of a 128-bit value: its 32
/// digits, most significant first, in groups of 8, 4, 4, 4 and 12.
fn uuid_hyphenated(v: u128) -> (s: String)
    ensures
        s@ == uuid_text(v),
{
    proof { reveal_strlit(""); }
    let mut s = String::from_str("");
    let mut p: usize = 0;
    while p < 36
        invariant
            p <= 36,
            s@ == uuid_text(v).take(p as int),
        decreases 36 - p,
    {
        let ghost before = s@;
        if p == 8 || p == 13 || p == 18 || p == 23 {
            s.append("-");
            proof { reveal_strlit("-"); }
            assert(s@ =~= before.push(uuid_text(v)[p as int]));
        } else {
            let k: u128 = if p < 8 { p as u128 } else if p < 13 { (p - 1) as u128 } else if p < 18 {
                (p - 2) as u128 } else if p < 23 { (p - 3) as u128 } else { (p - 4) as u128 };
            let shift: u128 = 124 - 4 * k;
            proof {
                vstd::bits::lemma_u128_shr_is_div(v, shift);
                assert(k == hyphenated_digit_index(p as int));
            }
            let d = ((v >> shift) % 16) as u64;
            assert(d == uuid_nibble(v, k as int));
            s.append(hex_digit(d));
            assert(uuid_text(v)[p as int] == hex_char(uuid_nibble(v, k as int)));
            assert(s@ =~= before.push(uuid_text(v)[p as int]));
        }
        assert(uuid_text(v).take(p + 1) =~= before.push(uuid_text(v)[p as int]));
        p = p + 1;
    }
    assert(uuid_text(v).take(36) =~= uuid_text(v));
    s
}

/// Calls `uuid::Uuid::parse_str`. The result is named by `uuid_parse_result`;
/// the source accepts the hyphenated lowercase form and gives back its value.
#[verifier::external_body]
fn uuid_parse(s: &str) -> (r: Option<u128>)
    ensures
        r == uuid_parse_result(s@),
        forall|v: u128| s@ == uuid_text(v) ==> r == Some(v),
{
    match uuid::Uuid::parse_str(s) {
        Ok(u) => Some(u.as_u128()),
        Err(_) => None,
    }
}

/// A point in UTC time: seconds since the Unix epoch and nanoseconds past
/// them. Times compare by seconds, then nanoseconds.
#[derive(Debug, Clone, Copy, PartialEq, Eq, Structural, PartialOrd, Ord, Hash)]
pub struct Timestamp {
    /// Whole seconds since the epoch
    pub secs: i64,
    /// Nanoseconds past `secs`
    pub nanos: u32,
}

impl Timestamp {
    /// The current time.
    pub fn now() -> (t: Timestamp) {
        let (secs, nanos) = current_time();
        Timestamp { secs, nanos }
    }

    /// The RFC 3339 text of this time, as `chrono` renders it.
    pub fn to_rfc3339(&self) -> (s: String)
        ensures
            s@ == rfc3339_text(self.secs, self.nanos),
    {
        time_to_rfc3339(self.secs, self.nanos)
    }
}

/// Calls `chrono::Utc::now` and reads its seconds since the epoch and its
/// nanoseconds past them. The result depends on the clock; nothing is
/// stated of it.
#[verifier::external_body]
fn current_time() -> (t: (i64, u32)) {
    let now = chrono::Utc::now();
    (now.timestamp(), now.timestamp_subsec_nanos())
}

/// Calls `chrono::DateTime::from_timestamp` and `to_rfc3339`. The text is
/// named by `rfc3339_text`; for a time outside chrono's range it is empty.
#[verifier::external_body]
fn time_to_rfc3339(secs: i64, nanos: u32) -> (s: String)
    ensures
        s@ == rfc3339_text(secs, nanos),
{
    match chrono::DateTime::from_timestamp(secs, nanos) {
        Some(d) => d.to_rfc3339(),
        None => String::new(),
    }
}

/// The lowercase hexadecimal text of a number, without leading zeros
/// (as `format!("{:x}", n)` writes it).
pub open spec fn lower_hex(n: nat) -> Seq<char>
    decreases n,
{
    if n < 16 {
        seq![hex_char(n as int)]
    } else {
        lower_hex(n / 16) + seq![hex_char((n % 16) as int)]
    }
}

/// The hexadecimal digit for a value below sixteen.
fn hex_digit(d: u64) -> (s: &'static str)
    requires
        d < 16,
    ensures
        s@ == seq![hex_char(d as int)],
{
    proof {
        reveal_strlit("0"); reveal_strlit("1"); reveal_strlit("2"); reveal_strlit("3");
        reveal_strlit("4"); reveal_strlit("5"); reveal_strlit("6"); reveal_strlit("7");
        reveal_strlit("8"); reveal_strlit("9"); reveal_strlit("a"); reveal_strlit("b");
        reveal_strlit("c"); reveal_strlit("d"); reveal_strlit("e"); reveal_strlit("f");
    }
    if d == 0 { "0" } else if d == 1 { "1" } else if d == 2 { "2" } else if d == 3 { "3" }
    else if d == 4 { "4" } else if d == 5 { "5" } else if d == 6 { "6" } else if d == 7 { "7" }
    else if d == 8 { "8" } else if d == 9 { "9" } else if d == 10 { "a" } else if d == 11 { "b" }
    else if d == 12 { "c" } else if d == 13 { "d" } else if d == 14 { "e" } else { "f" }
}

/// The lowercase hexadecimal text of a number, without leading zeros.
pub fn hex_text(n: u64) -> (s: String)
    ensures
        s@ == lower_hex(n as nat),
    decreases n,
{
    let d = hex_digit(n % 16);
    if n < 16 {
        String::from_str(d)
    } else {
        hex_text(n / 16).concat(d)
    }
}

} // verus!

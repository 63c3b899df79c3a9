//! Session identifiers and points in time.
use crate::text::view_opt;
use vstd::prelude::*;

verus! {

// ---------------------------------------------------------------------------
// Identifiers
// ---------------------------------------------------------------------------
/// The identifier of a session: the 128 bits of a UUID.
#[derive(Copy, Clone, Debug, PartialEq, Eq, Structural)]
pub struct SessionId {
    pub value: u128,
}

/// The `k`-th of the 32 hexadecimal digits of 128 bits, the highest first.
pub open spec fn nibble(v: u128, k: int) -> u128 {
    (v >> ((124 - 4 * k) as u128)) & 0xf
}

/// The character of a hexadecimal digit.
pub open spec fn hex_char(d: u128) -> char {
    if d < 10 {
        (('0' as u32) + d) as char
    } else {
        (('a' as u32) + d - 10) as char
    }
}

/// The text of a UUID: 32 lower case hexadecimal digits in groups of 8, 4, 4,
/// 4 and 12, with hyphens between them.
pub open spec fn uuid_text(v: u128) -> Seq<char> {
    Seq::new(
        36,
        |i: int|
            if i < 8 {
                hex_char(nibble(v, i))
            } else if i == 8 || i == 13 || i == 18 || i == 23 {
                '-'
            } else if i < 13 {
                hex_char(nibble(v, i - 1))
            } else if i < 18 {
                hex_char(nibble(v, i - 2))
            } else if i < 23 {
                hex_char(nibble(v, i - 3))
            } else {
                hex_char(nibble(v, i - 4))
            },
    )
}

/// Where the `k`-th hexadecimal digit stands in the text.
spec fn place(k: int) -> int {
    if k < 8 {
        k
    } else if k < 12 {
        k + 1
    } else if k < 16 {
        k + 2
    } else if k < 20 {
        k + 3
    } else {
        k + 4
    }
}

proof fn lemma_hex_char(x: u128, y: u128)
    requires
        x < 16,
        y < 16,
        hex_char(x) == hex_char(y),
    ensures
        x == y,
{
}

proof fn lemma_digits_agree(a: u128, b: u128, k: int)
    requires
        uuid_text(a) == uuid_text(b),
        0 <= k < 32,
    ensures
        nibble(a, k) == nibble(b, k),
{
    let n = (124 - 4 * k) as u128;
    assert((a >> n) & 0xf < 16) by (bit_vector);
    assert((b >> n) & 0xf < 16) by (bit_vector);
    assert(uuid_text(a)[place(k)] == hex_char(nibble(a, k)));
    assert(uuid_text(b)[place(k)] == hex_char(nibble(b, k)));
    lemma_hex_char(nibble(a, k), nibble(b, k));
}

/// Two UUIDs have two texts.
pub proof fn law_uuid_texts_differ(a: u128, b: u128)
    requires
        a != b,
    ensures
        uuid_text(a) != uuid_text(b),
{
    if uuid_text(a) == uuid_text(b) {
        assert forall|k: int| 0 <= k < 32 implies #[trigger] nibble(a, k) == nibble(b, k) by {
            lemma_digits_agree(a, b, k);
        }
        assert(nibble(a, 0) == nibble(b, 0));
        assert(nibble(a, 1) == nibble(b, 1));
        assert(nibble(a, 2) == nibble(b, 2));
        assert(nibble(a, 3) == nibble(b, 3));
        assert(nibble(a, 4) == nibble(b, 4));
        assert(nibble(a, 5) == nibble(b, 5));
        assert(nibble(a, 6) == nibble(b, 6));
        assert(nibble(a, 7) == nibble(b, 7));
        assert(nibble(a, 8) == nibble(b, 8));
        assert(nibble(a, 9) == nibble(b, 9));
        assert(nibble(a, 10) == nibble(b, 10));
        assert(nibble(a, 11) == nibble(b, 11));
        assert(nibble(a, 12) == nibble(b, 12));
        assert(nibble(a, 13) == nibble(b, 13));
        assert(nibble(a, 14) == nibble(b, 14));
        assert(nibble(a, 15) == nibble(b, 15));
        assert(nibble(a, 16) == nibble(b, 16));
        assert(nibble(a, 17) == nibble(b, 17));
        assert(nibble(a, 18) == nibble(b, 18));
        assert(nibble(a, 19) == nibble(b, 19));
        assert(nibble(a, 20) == nibble(b, 20));
        assert(nibble(a, 21) == nibble(b, 21));
        assert(nibble(a, 22) == nibble(b, 22));
        assert(nibble(a, 23) == nibble(b, 23));
        assert(nibble(a, 24) == nibble(b, 24));
        assert(nibble(a, 25) == nibble(b, 25));
        assert(nibble(a, 26) == nibble(b, 26));
        assert(nibble(a, 27) == nibble(b, 27));
        assert(nibble(a, 28) == nibble(b, 28));
        assert(nibble(a, 29) == nibble(b, 29));
        assert(nibble(a, 30) == nibble(b, 30));
        assert(nibble(a, 31) == nibble(b, 31));
        assert(a == b) by (bit_vector)
            requires
                (a >> 124u128) & 0xf == (b >> 124u128) & 0xf,
                (a >> 120u128) & 0xf == (b >> 120u128) & 0xf,
                (a >> 116u128) & 0xf == (b >> 116u128) & 0xf,
                (a >> 112u128) & 0xf == (b >> 112u128) & 0xf,
                (a >> 108u128) & 0xf == (b >> 108u128) & 0xf,
                (a >> 104u128) & 0xf == (b >> 104u128) & 0xf,
                (a >> 100u128) & 0xf == (b >> 100u128) & 0xf,
                (a >> 96u128) & 0xf == (b >> 96u128) & 0xf,
                (a >> 92u128) & 0xf == (b >> 92u128) & 0xf,
                (a >> 88u128) & 0xf == (b >> 88u128) & 0xf,
                (a >> 84u128) & 0xf == (b >> 84u128) & 0xf,
                (a >> 80u128) & 0xf == (b >> 80u128) & 0xf,
                (a >> 76u128) & 0xf == (b >> 76u128) & 0xf,
                (a >> 72u128) & 0xf == (b >> 72u128) & 0xf,
                (a >> 68u128) & 0xf == (b >> 68u128) & 0xf,
                (a >> 64u128) & 0xf == (b >> 64u128) & 0xf,
                (a >> 60u128) & 0xf == (b >> 60u128) & 0xf,
                (a >> 56u128) & 0xf == (b >> 56u128) & 0xf,
                (a >> 52u128) & 0xf == (b >> 52u128) & 0xf,
                (a >> 48u128) & 0xf == (b >> 48u128) & 0xf,
                (a >> 44u128) & 0xf == (b >> 44u128) & 0xf,
                (a >> 40u128) & 0xf == (b >> 40u128) & 0xf,
                (a >> 36u128) & 0xf == (b >> 36u128) & 0xf,
                (a >> 32u128) & 0xf == (b >> 32u128) & 0xf,
                (a >> 28u128) & 0xf == (b >> 28u128) & 0xf,
                (a >> 24u128) & 0xf == (b >> 24u128) & 0xf,
                (a >> 20u128) & 0xf == (b >> 20u128) & 0xf,
                (a >> 16u128) & 0xf == (b >> 16u128) & 0xf,
                (a >> 12u128) & 0xf == (b >> 12u128) & 0xf,
                (a >> 8u128) & 0xf == (b >> 8u128) & 0xf,
                (a >> 4u128) & 0xf == (b >> 4u128) & 0xf,
                (a >> 0u128) & 0xf == (b >> 0u128) & 0xf,
        ;
    }
}

/// The 128 bits that `uuid::Uuid::parse_str` reads from a text, where it is
/// the text of a UUID in one of the forms that it accepts.
pub uninterp spec fn uuid_parse(text: Seq<char>) -> Option<u128>;

/// `uuid::Uuid::parse_str`; nothing is kept of its error.
#[verifier::external_body]
fn parse_uuid(text: &str) -> (r: Option<u128>)
    ensures
        r == uuid_parse(text@),
{
    uuid::Uuid::parse_str(text).ok().map(|u| u.as_u128())
}

/// `uuid::Uuid::to_string`: the hyphenated form, which `Uuid::parse_str` reads
/// back.
#[verifier::external_body]
fn format_uuid(v: u128) -> (r: String)
    ensures
        r@ == uuid_text(v),
        uuid_parse(r@) == Some(v),
{
    uuid::Uuid::from_u128(v).to_string()
}

/// `uuid::Uuid::new_v4`: random bits, except that the version is 4 and the
/// variant is the one of RFC 4122. It panics where the machine has no source of
/// random numbers, which depends on no argument.
#[verifier::external_body]
fn random_uuid() -> (r: u128)
    ensures
        nibble(r, 12) == 4,
        8 <= nibble(r, 16) <= 11,
{
    uuid::Uuid::new_v4().as_u128()
}

impl SessionId {
    /// A new random identifier.
    pub fn fresh() -> (r: SessionId)
        ensures
            nibble(r.value, 12) == 4,
            8 <= nibble(r.value, 16) <= 11,
    {
        SessionId { value: random_uuid() }
    }

    /// Reads an identifier.
    pub fn parse(text: &str) -> (r: Option<SessionId>)
        ensures
            r == (match uuid_parse(text@) {
                Some(v) => Some(SessionId { value: v }),
                None => None,
            }),
    {
        match parse_uuid(text) {
            Some(v) => Some(SessionId { value: v }),
            None => None,
        }
    }

    /// The text of an identifier; reading it gives the identifier back.
    pub fn to_text(&self) -> (r: String)
        ensures
            r@ == uuid_text(self.value),
            uuid_parse(r@) == Some(self.value),
    {
        format_uuid(self.value)
    }
}

// ---------------------------------------------------------------------------
// Times
// ---------------------------------------------------------------------------
/// A point in time: seconds since 1970 and the nanoseconds after them, both
/// without leap seconds.
#[derive(Copy, Clone, Debug, PartialEq, Eq, Structural)]
pub struct Timestamp {
    pub secs: i64,
    pub nanos: u32,
}

/// The text that `chrono` writes for a point in time that it can represent, in
/// the form of RFC 3339.
pub uninterp spec fn rfc3339_text(secs: i64, nanos: u32) -> Option<Seq<char>>;

/// The point in time that `chrono` reads from a text.
pub uninterp spec fn rfc3339_parse(text: Seq<char>) -> Option<(i64, u32)>;

/// What `chrono` writes for a point in time that it can represent, in the given
/// form.
pub uninterp spec fn formatted(secs: i64, nanos: u32, form: Seq<char>) -> Option<Seq<char>>;

/// The form of a date: the year, the month and the day.
pub const DATE_FORM: &'static str = "%Y-%m-%d";

/// The date of a point in time.
pub open spec fn date_text(secs: i64, nanos: u32) -> Option<Seq<char>> {
    formatted(secs, nanos, DATE_FORM@)
}

/// The point in time lies in the years 0 to 9999 and is not within a leap
/// second.
pub open spec fn in_calendar(secs: i64, nanos: u32) -> bool {
    -62_167_219_200 <= secs <= 253_402_300_799 && nanos < 1_000_000_000
}

/// `chrono::Utc::now`: a point in time that `chrono` can represent. It panics
/// where the clock of the machine stands before 1970, which depends on no
/// argument; which point in time it is is left unsaid.
#[verifier::external_body]
fn clock() -> (r: (i64, u32))
    ensures
        rfc3339_text(r.0, r.1) is Some,
        date_text(r.0, r.1) is Some,
{
    let now = chrono::Utc::now();
    (now.timestamp(), now.timestamp_subsec_nanos())
}

/// `chrono::DateTime::to_rfc3339_opts` with automatic fractional seconds and
/// `Z` for the offset: there is a text for every point in time that `chrono`
/// can represent, as it can those in the years 0 to 9999. The text is read back
/// as the same point in time: a year outside 0 to 9999 is written with its sign
/// and read with it, a leap second is written and read as the second 60, and
/// all the digits of a fraction are written.
#[verifier::external_body]
fn format_rfc3339(secs: i64, nanos: u32) -> (r: Option<String>)
    ensures
        view_opt(r) == rfc3339_text(secs, nanos),
        in_calendar(secs, nanos) ==> r is Some,
        r matches Some(text) ==> rfc3339_parse(text@) == Some((secs, nanos)),
{
    chrono::DateTime::from_timestamp(secs, nanos).map(
        |t| t.to_rfc3339_opts(chrono::SecondsFormat::AutoSi, true),
    )
}

/// `str::parse::<chrono::DateTime<chrono::Utc>>`; nothing is kept of its
/// error. `chrono` can represent what it has read.
#[verifier::external_body]
fn parse_rfc3339(text: &str) -> (r: Option<(i64, u32)>)
    ensures
        r == rfc3339_parse(text@),
        r matches Some(t) ==> rfc3339_text(t.0, t.1) is Some,
{
    text.parse::<chrono::DateTime<chrono::Utc>>().ok().map(
        |t| (t.timestamp(), t.timestamp_subsec_nanos()),
    )
}

/// `chrono::DateTime::format`, for a point in time that `chrono` can represent.
/// A form that `chrono` does not know would make it panic.
#[verifier::external_body]
fn format_time(secs: i64, nanos: u32, form: &str) -> (r: Option<String>)
    requires
        form@ == DATE_FORM@,
    ensures
        view_opt(r) == formatted(secs, nanos, form@),
{
    chrono::DateTime::from_timestamp(secs, nanos).map(|t| t.format(form).to_string())
}

impl Timestamp {
    /// The time has a text.
    pub open spec fn has_text(self) -> bool {
        rfc3339_text(self.secs, self.nanos) is Some
    }

    /// The present time.
    pub fn now() -> (r: Timestamp)
        ensures
            r.has_text(),
            date_text(r.secs, r.nanos) is Some,
    {
        let t = clock();
        Timestamp { secs: t.0, nanos: t.1 }
    }

    /// Reads a time.
    pub fn parse(text: &str) -> (r: Option<Timestamp>)
        ensures
            r == (match rfc3339_parse(text@) {
                Some(t) => Some(Timestamp { secs: t.0, nanos: t.1 }),
                None => None,
            }),
            r matches Some(t) ==> t.has_text(),
    {
        match parse_rfc3339(text) {
            Some(t) => Some(Timestamp { secs: t.0, nanos: t.1 }),
            None => None,
        }
    }

    /// The text of a time; reading it gives the time back.
    pub fn to_text(&self) -> (r: Option<String>)
        ensures
            view_opt(r) == rfc3339_text(self.secs, self.nanos),
            in_calendar(self.secs, self.nanos) ==> r is Some,
            r matches Some(text) ==> rfc3339_parse(text@) == Some((self.secs, self.nanos)),
    {
        format_rfc3339(self.secs, self.nanos)
    }

    /// The date of a time.
    pub fn date(&self) -> (r: Option<String>)
        ensures
            view_opt(r) == date_text(self.secs, self.nanos),
    {
        format_time(self.secs, self.nanos, DATE_FORM)
    }
}

/// An identifier is written as 32 hexadecimal digits, the highest first, in groups
/// of 8, 4, 4, 4 and 12 with hyphens between them.
pub proof fn law_uuid_text_is_hexadecimal(v: u128, k: int)
    requires
        0 <= k < 32,
    ensures
        uuid_text(v).len() == 36,
        uuid_text(v)[8] == '-' && uuid_text(v)[13] == '-' && uuid_text(v)[18] == '-' && uuid_text(
            v,
        )[23] == '-',
        nibble(v, k) < 16,
        ({
            let at = if k < 8 {
                k
            } else if k < 12 {
                k + 1
            } else if k < 16 {
                k + 2
            } else if k < 20 {
                k + 3
            } else {
                k + 4
            };
            uuid_text(v)[at] == "0123456789abcdef"@[nibble(v, k) as int]
        }),
{
    reveal_strlit("0123456789abcdef");
    let shift = (124 - 4 * k) as u128;
    let part = v >> shift;
    assert(part & 0xf < 16) by (bit_vector);
    let d = nibble(v, k);
    assert("0123456789abcdef"@ =~= seq![
        '0', '1', '2', '3', '4', '5', '6', '7', '8', '9', 'a', 'b', 'c', 'd', 'e', 'f',
    ]);
    lemma_hex_digit(d);
}

proof fn lemma_hex_digit(d: u128)
    requires
        d < 16,
    ensures
        hex_char(d) == seq![
            '0', '1', '2', '3', '4', '5', '6', '7', '8', '9', 'a', 'b', 'c', 'd', 'e', 'f',
        ][d as int],
{
}

/// A date is written as the year, the month and the day, with hyphens between
/// them.
pub proof fn law_dates_are_year_month_and_day(secs: i64, nanos: u32)
    ensures
        date_text(secs, nanos) == formatted(secs, nanos, "%Y-%m-%d"@),
{
}

} // verus!

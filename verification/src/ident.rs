//! Identifiers and points in time.

use vstd::arithmetic::power::pow;
use vstd::prelude::*;

verus! {

/// A 128-bit identifier.
#[derive(Clone, Copy, Debug, PartialEq, Eq, Hash, Structural)]
pub struct Uuid(pub u128);

/// The lower-case hexadecimal digit for a value below sixteen.
pub open spec fn hex_digit(n: int) -> char {
    if n < 10 {
        ('0' as int + n) as char
    } else {
        ('a' as int + (n - 10)) as char
    }
}

/// The hexadecimal digit at position `k` of thirty-two, most significant first.
pub open spec fn uuid_digit(id: u128, k: int) -> char {
    hex_digit((id as int / pow(16, (31 - k) as nat)) % 16)
}

/// The hyphenated text of an identifier: thirty-two lower-case hexadecimal
/// digits in groups of eight, four, four, four and twelve.
pub open spec fn uuid_text(id: u128) -> Seq<char> {
    Seq::new(
        36,
        |i: int|
            if i == 8 || i == 13 || i == 18 || i == 23 {
                '-'
            } else {
                uuid_digit(
                    id,
                    if i < 8 {
                        i
                    } else if i < 13 {
                        i - 1
                    } else if i < 18 {
                        i - 2
                    } else if i < 23 {
                        i - 3
                    } else {
                        i - 4
                    },
                )
            },
    )
}

/// Identifiers with the same text are the same.
pub proof fn lemma_uuid_text_injective(a: u128, b: u128)
    requires
        uuid_text(a) == uuid_text(b),
    ensures
        a == b,
{
    assert forall|k: int| 0 <= k < 32 implies uuid_digit(a, k) == uuid_digit(b, k) by {
        let i = if k < 8 {
            k
        } else if k < 12 {
            k + 1
        } else if k < 16 {
            k + 2
        } else if k < 20 {
            k + 3
        } else {
            k + 4
        };
        assert(uuid_text(a)[i] == uuid_digit(a, k));
        assert(uuid_text(b)[i] == uuid_digit(b, k));
    }
    lemma_same_digits(a, b, 0);
    assert(pow(16, 0) == 1) by {
        vstd::arithmetic::power::lemma_pow0(16);
    }
}

/// Identifiers whose leading digits agree, agree in what stands before the rest.
proof fn lemma_same_digits(a: u128, b: u128, j: nat)
    requires
        j <= 32,
        forall|k: int| 0 <= k < 32 ==> uuid_digit(a, k) == uuid_digit(b, k),
    ensures
        a as int / pow(16, j) == b as int / pow(16, j),
    decreases 32 - j,
{
    if j == 32 {
        assert(pow(16, 32) > u128::MAX) by {
            vstd::arithmetic::power::lemma_pow_adds(16, 16, 16);
            vstd::arithmetic::power::lemma_pow_adds(16, 8, 8);
            reveal_with_fuel(pow, 9);
            assert(pow(16, 8) == 4294967296);
            assert(pow(16, 16) == 18446744073709551616) by (nonlinear_arith)
                requires
                    pow(16, 8) == 4294967296,
                    pow(16, 16) == pow(16, 8) * pow(16, 8),
            ;
            assert(pow(16, 32) == 340282366920938463463374607431768211456) by (nonlinear_arith)
                requires
                    pow(16, 16) == 18446744073709551616,
                    pow(16, 32) == pow(16, 16) * pow(16, 16),
            ;
        }
        vstd::arithmetic::div_mod::lemma_basic_div(a as int, pow(16, 32));
        vstd::arithmetic::div_mod::lemma_basic_div(b as int, pow(16, 32));
    } else {
        lemma_same_digits(a, b, j + 1);
        let p = pow(16, j);
        vstd::arithmetic::power::lemma_pow_positive(16, j);
        assert(pow(16, j + 1) == p * 16) by {
            vstd::arithmetic::power::lemma_pow_adds(16, j, 1);
            vstd::arithmetic::power::lemma_pow1(16);
        }
        vstd::arithmetic::div_mod::lemma_div_denominator(a as int, p, 16);
        vstd::arithmetic::div_mod::lemma_div_denominator(b as int, p, 16);
        let x = a as int / p;
        let y = b as int / p;
        let k = 31 - j;
        assert(uuid_digit(a, k) == hex_digit(x % 16));
        assert(uuid_digit(b, k) == hex_digit(y % 16));
        lemma_hex_digit_injective(x % 16, y % 16);
        assert(x == 16 * (x / 16) + x % 16);
        assert(y == 16 * (y / 16) + y % 16);
    }
}

/// Hexadecimal digits that are the same stand for the same value.
pub proof fn lemma_hex_digit_injective(m: int, n: int)
    requires
        0 <= m < 16,
        0 <= n < 16,
        hex_digit(m) == hex_digit(n),
    ensures
        m == n,
{
    assert(hex_digit(m) as int == (if m < 10 { 48 + m } else { 87 + m }));
    assert(hex_digit(n) as int == (if n < 10 { 48 + n } else { 87 + n }));
}

/// The identifier that a text spells in one of the forms of the `uuid` crate,
/// or the message of the error.
pub uninterp spec fn uuid_parsed(s: Seq<char>) -> Result<u128, Seq<char>>;

/// Whether an identifier is one of version 4 in the standard layout: its
/// thirteenth digit is a four, and its seventeenth begins with the bits of the
/// layout.
pub open spec fn is_v4(id: u128) -> bool {
    &&& uuid_digit(id, 12) == '4'
    &&& uuid_digit(id, 16) == '8' || uuid_digit(id, 16) == '9' || uuid_digit(id, 16) == 'a'
        || uuid_digit(id, 16) == 'b'
}

/// `uuid::Uuid::new_v4`: a random identifier of version 4, of whose other digits
/// nothing is promised.
#[verifier::external_body]
fn random_uuid() -> (r: u128)
    ensures
        is_v4(r),
{
    uuid::Uuid::new_v4().as_u128()
}

/// `Display` of `uuid::Uuid`: the hyphenated lower-case form.
#[verifier::external_body]
fn print_uuid(id: u128) -> (r: String)
    ensures
        r@ == uuid_text(id),
{
    uuid::Uuid::from_u128(id).to_string()
}

/// `uuid::Uuid::parse_str`: a function of the text, which reads the hyphenated
/// form back.
#[verifier::external_body]
fn read_uuid(s: &str) -> (r: Result<u128, String>)
    ensures
        r is Ok <==> uuid_parsed(s@) is Ok,
        r matches Ok(id) ==> uuid_parsed(s@)->Ok_0 == id,
        r matches Err(e) ==> uuid_parsed(s@)->Err_0 == e@,
        forall|id: u128| s@ == #[trigger] uuid_text(id) ==> r is Ok && r->Ok_0 == id,
{
    uuid::Uuid::parse_str(s).map(|u| u.as_u128()).map_err(|e| e.to_string())
}

impl Uuid {
    /// A fresh random identifier of version 4.
    pub fn new_v4() -> (r: Uuid)
        ensures
            is_v4(r.0),
    {
        Uuid(random_uuid())
    }

    /// The hyphenated text.
    pub open spec fn text(self) -> Seq<char> {
        uuid_text(self.0)
    }

    /// The hyphenated text.
    pub fn to_text(&self) -> (r: String)
        ensures
            r@ == self.text(),
    {
        print_uuid(self.0)
    }

    /// The identifier that a text spells, or the message of the error; the
    /// hyphenated text of an identifier spells that identifier.
    pub fn parse_str(s: &str) -> (r: Result<Uuid, String>)
        ensures
            match r {
                Ok(id) => uuid_parsed(s@) == Ok::<u128, Seq<char>>(id.0),
                Err(e) => uuid_parsed(s@) == Err::<u128, Seq<char>>(e@),
            },
            forall|id: Uuid| s@ == #[trigger] id.text() ==> r == Ok::<Uuid, String>(id),
    {
        match read_uuid(s) {
            Ok(id) => Ok(Uuid(id)),
            Err(e) => Err(e),
        }
    }
}

/// A point in time: seconds since the Unix epoch and nanoseconds within the second.
#[derive(Clone, Copy, Debug, PartialEq, Eq, Hash, Structural)]
pub struct Timestamp {
    pub secs: i64,
    pub nanos: u32,
}

/// The number of nanoseconds in a second.
pub const NANOS_PER_SEC: i128 = 1_000_000_000;

impl Timestamp {
    /// Whether the time lies in the years that the calendar covers, with fewer
    /// than two seconds of nanoseconds.
    pub open spec fn in_range(self) -> bool {
        &&& -9_000_000_000_000 <= self.secs <= 9_000_000_000_000
        &&& self.nanos < 2_000_000_000
    }

    /// What holds of every time that the clock gives.
    pub open spec fn of_clock(self) -> bool {
        &&& self.in_range()
        &&& self.nanos < 1_000_000_000
    }

    /// The number of nanoseconds since the epoch.
    pub open spec fn total_nanos(self) -> int {
        self.secs * NANOS_PER_SEC + self.nanos
    }

    /// Whether this time comes before another.
    pub open spec fn before_spec(self, other: Timestamp) -> bool {
        self.secs < other.secs || (self.secs == other.secs && self.nanos < other.nanos)
    }

    /// Whether this time comes before another.
    pub fn before(&self, other: &Timestamp) -> (r: bool)
        ensures
            r == self.before_spec(*other),
    {
        self.secs < other.secs || (self.secs == other.secs && self.nanos < other.nanos)
    }

    /// Whether the milliseconds since the epoch fit in sixty-four bits.
    pub open spec fn has_millis(self) -> bool {
        &&& -9_200_000_000_000_000 <= self.secs <= 9_200_000_000_000_000
        &&& self.nanos < 2_000_000_000
    }

    /// Whether the milliseconds since the epoch fit in sixty-four bits.
    pub fn fits_millis(&self) -> (r: bool)
        ensures
            r == self.has_millis(),
    {
        -9_200_000_000_000_000 <= self.secs && self.secs <= 9_200_000_000_000_000 && self.nanos
            < 2_000_000_000
    }

    /// The number of whole milliseconds since the epoch.
    pub open spec fn millis_spec(self) -> int {
        self.secs * 1000 + self.nanos / 1_000_000
    }

    /// The number of whole milliseconds since the epoch.
    pub fn millis(&self) -> (r: i64)
        requires
            self.has_millis(),
        ensures
            r == self.millis_spec(),
    {
        self.secs * 1000 + (self.nanos / 1_000_000) as i64
    }

    /// The time a number of nanoseconds later, or earlier where it is negative.
    pub open spec fn later_spec(self, nanos: int) -> Timestamp {
        let total = self.total_nanos() + nanos;
        Timestamp {
            secs: (total / NANOS_PER_SEC as int) as i64,
            nanos: (total % NANOS_PER_SEC as int) as u32,
        }
    }

    /// The time a number of nanoseconds later, or earlier where it is negative.
    pub fn later(&self, nanos: i128) -> (r: Timestamp)
        requires
            self.in_range(),
            -9_000_000_000_000_000_000_000_000 <= nanos <= 9_000_000_000_000_000_000_000_000,
        ensures
            r == self.later_spec(nanos as int),
            r.total_nanos() == self.total_nanos() + nanos,
            r.nanos < 1_000_000_000,
            r.has_millis(),
    {
        let total: i128 = self.secs as i128 * 1_000_000_000 + self.nanos as i128 + nanos;
        let shifted: u128 = (total + 9_200_000_000_000_000_000_000_000) as u128;
        let secs: i64 = (shifted / 1_000_000_000) as i64 - 9_200_000_000_000_000;
        let part: u32 = (shifted % 1_000_000_000) as u32;
        Timestamp { secs, nanos: part }
    }
}

/// `chrono::Utc::now`: the current time, within the calendar's years, with
/// fewer than a second of nanoseconds.
#[verifier::external_body]
pub(crate) fn utc_now() -> (r: Timestamp)
    ensures
        r.of_clock(),
{
    let now = chrono::Utc::now();
    Timestamp { secs: now.timestamp(), nanos: now.timestamp_subsec_nanos() }
}

/// A time moved by a number of nanoseconds lies just that many nanoseconds later.
pub proof fn law_later_is_later(t: Timestamp, nanos: int)
    requires
        t.in_range(),
        -9_000_000_000_000_000_000_000_000 <= nanos <= 9_000_000_000_000_000_000_000_000,
    ensures
        t.later_spec(nanos).total_nanos() == t.total_nanos() + nanos,
        t.later_spec(nanos).nanos < 1_000_000_000,
{
    let total = t.total_nanos() + nanos;
    assert(total == (total / 1_000_000_000) * 1_000_000_000 + total % 1_000_000_000);
}

/// Times that the clock gives are in the order of their nanoseconds.
pub proof fn law_before_is_earlier(a: Timestamp, b: Timestamp)
    requires
        a.of_clock(),
        b.of_clock(),
    ensures
        a.before_spec(b) <==> a.total_nanos() < b.total_nanos(),
{
}

/// The milliseconds of a time that the clock gives are its nanoseconds, rounded down.
pub proof fn law_millis_are_rounded_down(t: Timestamp)
    requires
        t.of_clock(),
    ensures
        t.millis_spec() * 1_000_000 <= t.total_nanos() < (t.millis_spec() + 1) * 1_000_000,
{
}

} // verus!

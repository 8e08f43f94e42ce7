//! Bridge configuration.

use vstd::prelude::*;

use crate::ardupilot_ipc::DEFAULT_SERVO_PORT;

verus! {

/// Settings of the bridge.
#[derive(Debug)]
pub struct Config {
    /// Elodin-DB address
    pub elodin_addr: String,
    /// ArduPilot SITL JSON control interface UDP port (send sensor data here,
    /// receive servo output back on the same socket)
    pub servo_port: u16,
    /// ArduPilot SITL host address
    pub ap_host: String,
    /// Number of motor channels (typically 4 for quadcopter)
    pub num_motors: usize,
    /// HITL TCP listen port (0 = disabled)
    pub hitl_port: u16,
    /// SocketCAN interface for DroneCAN ESC output (empty = disabled)
    pub can_interface: String,
    /// ArduPilot home location as "lat,lon,alt,heading". Must match the
    /// --home flag passed to arducopter so the bridge can convert GPS LLA
    /// to NED position relative to the same origin.
    pub home: String,
}

impl Default for Config {
    fn default() -> (config: Self)
        ensures
            config.elodin_addr@ == "127.0.0.1:2240"@,
            config.servo_port == DEFAULT_SERVO_PORT,
            config.ap_host@ == "127.0.0.1"@,
            config.num_motors == 4,
            config.hitl_port == 0,
            config.can_interface@ == ""@,
            config.home@ == "37.7749,-122.4194,10,270"@,
    {
        Config {
            elodin_addr: "127.0.0.1:2240".to_string(),
            servo_port: DEFAULT_SERVO_PORT,
            ap_host: "127.0.0.1".to_string(),
            num_motors: 4,
            hitl_port: 0,
            can_interface: "".to_string(),
            home: "37.7749,-122.4194,10,270".to_string(),
        }
    }
}

/// Why a home location could not be read.
#[derive(Debug, Clone, Copy, PartialEq, Eq, Structural)]
pub enum HomeError {
    /// There are fewer than the three fields lat,lon,alt.
    TooFewFields { fields: usize },
    /// The field with this index is empty.
    EmptyNumber { field: usize },
    /// The field with this index is not a number.
    InvalidNumber { field: usize },
}

/// The fields of a home location, each of them the text of a number.
#[derive(Debug)]
pub struct HomeLocation {
    pub lat_deg: String,
    pub lon_deg: String,
    pub alt_m: String,
}

/// The fields of a comma-separated text, read from its front. There is always
/// at least one, and a comma starts the next.
pub open spec fn fields(s: Seq<char>) -> Seq<Seq<char>>
    decreases s.len(),
{
    if s.len() == 0 {
        seq![seq![]]
    } else {
        let before = fields(s.drop_last());
        if s.last() == ',' {
            before.push(seq![])
        } else {
            before.drop_last().push(before.last().push(s.last()))
        }
    }
}

/// The contents of a list of strings.
spec fn texts(list: Seq<String>) -> Seq<Seq<char>> {
    list.map_values(|t: String| t@)
}

/// A decimal digit.
pub open spec fn is_digit(c: char) -> bool {
    '0' <= c <= '9'
}

/// The characters from `lo` up to `hi` are digits.
pub open spec fn digits(s: Seq<char>, lo: int, hi: int) -> bool {
    forall|i: int| lo <= i < hi ==> is_digit(#[trigger] s[i])
}

/// The position after the sign, if there is one at `i`.
pub open spec fn after_sign(s: Seq<char>, i: int) -> int {
    if i < s.len() && (s[i] == '+' || s[i] == '-') {
        i + 1
    } else {
        i
    }
}

/// From `lo` up to `hi` there are digits, with at most one point among, before
/// or after them.
pub open spec fn is_mantissa(s: Seq<char>, lo: int, hi: int) -> bool {
    ||| lo < hi && digits(s, lo, hi)
    ||| hi - lo >= 2 && exists|p: int|
        lo <= p < hi && #[trigger] s[p] == '.' && digits(s, lo, p) && digits(s, p + 1, hi)
}

/// From `lo` to the end there is an `e`, perhaps a sign, and digits.
pub open spec fn is_exponent(s: Seq<char>, lo: int) -> bool {
    &&& lo < s.len() && (s[lo] == 'e' || s[lo] == 'E')
    &&& after_sign(s, lo + 1) < s.len()
    &&& digits(s, after_sign(s, lo + 1), s.len() as int)
}

/// A mantissa that ends at `hi`, and then nothing or an exponent.
pub open spec fn is_decimal_split(s: Seq<char>, lo: int, hi: int) -> bool {
    is_mantissa(s, lo, hi) && (hi == s.len() || is_exponent(s, hi))
}

/// From `lo` to the end there is a word, each letter in lower or upper case.
pub open spec fn is_word(s: Seq<char>, lo: int, lower: Seq<char>, upper: Seq<char>) -> bool {
    &&& s.len() - lo == lower.len()
    &&& forall|i: int|
        0 <= i < lower.len() ==> #[trigger] s[lo + i] == lower[i] || s[lo + i] == upper[i]
}

/// The text of a floating-point number: perhaps a sign, then a decimal number
/// with an optional exponent, infinity, or the word for what is not a number.
/// These are the texts that the standard library reads as an `f64`.
pub open spec fn is_number(s: Seq<char>) -> bool {
    let lo = after_sign(s, 0);
    ||| is_word(s, lo, "inf"@, "INF"@)
    ||| is_word(s, lo, "infinity"@, "INFINITY"@)
    ||| is_word(s, lo, "nan"@, "NAN"@)
    ||| exists|hi: int| lo <= hi <= s.len() && #[trigger] is_decimal_split(s, lo, hi)
}

/// What is wrong with a field that has to be a number.
pub open spec fn number_error(text: Seq<char>, field: usize) -> Option<HomeError> {
    if text.len() == 0 {
        Some(HomeError::EmptyNumber { field })
    } else if !is_number(text) {
        Some(HomeError::InvalidNumber { field })
    } else {
        None
    }
}

/// What is wrong with a home location of these fields: the first thing, where
/// there are several.
pub open spec fn home_error(parts: Seq<Seq<char>>) -> Option<HomeError> {
    if parts.len() < 3 {
        Some(HomeError::TooFewFields { fields: parts.len() as usize })
    } else if number_error(parts[0], 0) is Some {
        number_error(parts[0], 0)
    } else if number_error(parts[1], 1) is Some {
        number_error(parts[1], 1)
    } else {
        number_error(parts[2], 2)
    }
}

/// The end of the digits that start at `lo`.
fn skip_digits(s: &str, lo: usize) -> (hi: usize)
    requires
        lo <= s@.len(),
    ensures
        lo <= hi <= s@.len(),
        digits(s@, lo as int, hi as int),
        hi == s@.len() || !is_digit(s@[hi as int]),
{
    let n: usize = s.unicode_len();
    let mut i: usize = lo;
    while i < n
        invariant
            lo <= i <= n == s@.len(),
            digits(s@, lo as int, i as int),
        ensures
            lo <= i <= n,
            digits(s@, lo as int, i as int),
            i == n || !is_digit(s@[i as int]),
        decreases n - i,
    {
        let c = s.get_char(i);
        if !('0' <= c && c <= '9') {
            break;
        }
        i = i + 1;
    }
    i
}

/// The position after the sign, if there is one at `i`.
fn skip_sign(s: &str, i: usize) -> (j: usize)
    requires
        i <= s@.len(),
    ensures
        j == after_sign(s@, i as int),
{
    if i < s.unicode_len() {
        let c = s.get_char(i);
        if c == '+' || c == '-' {
            return i + 1;
        }
    }
    i
}

/// Whether a word stands from `lo` to the end.
fn word_at(s: &str, lo: usize, lower: &str, upper: &str) -> (r: bool)
    requires
        lo <= s@.len(),
        lower@.len() == upper@.len(),
    ensures
        r == is_word(s@, lo as int, lower@, upper@),
{
    let n: usize = lower.unicode_len();
    let total: usize = s.unicode_len();
    if total - lo != n {
        return false;
    }
    let mut i: usize = 0;
    while i < n
        invariant
            i <= n == lower@.len() == upper@.len(),
            total == s@.len() == lo + n,
            forall|j: int|
                0 <= j < i ==> #[trigger] s@[lo + j] == lower@[j] || s@[lo + j] == upper@[j],
        decreases n - i,
    {
        let c = s.get_char(lo + i);
        if c != lower.get_char(i) && c != upper.get_char(i) {
            assert(s@[lo + i] == c);
            return false;
        }
        i = i + 1;
    }
    true
}

/// Whether a decimal number stands from `lo` to the end.
fn decimal_at(s: &str, lo: usize) -> (r: bool)
    requires
        lo <= s@.len(),
    ensures
        r == exists|hi: int| lo <= hi <= s@.len() && #[trigger] is_decimal_split(s@, lo as int, hi),
{
    let n: usize = s.unicode_len();
    let whole: usize = skip_digits(s, lo);
    let end: usize = if whole < n && s.get_char(whole) == '.' {
        skip_digits(s, whole + 1)
    } else {
        whole
    };
    let enough: bool = end - lo >= 2 || (end - lo == 1 && end == whole);
    proof {
        if enough && end != whole {
            assert(s@[whole as int] == '.');
        }
        assert(enough == is_mantissa(s@, lo as int, end as int));
        assert forall|hi: int|
            lo <= hi <= s@.len() && #[trigger] is_decimal_split(s@, lo as int, hi) implies hi
            == end by {
            decimal_split_is_unique(s@, lo as int, whole as int, end as int, hi);
        }
    }
    if !enough {
        return false;
    }
    if end == n {
        assert(is_decimal_split(s@, lo as int, end as int));
        return true;
    }
    let c = s.get_char(end);
    if c != 'e' && c != 'E' {
        return false;
    }
    let start: usize = skip_sign(s, end + 1);
    let stop: usize = skip_digits(s, start);
    let r: bool = start < n && stop == n;
    proof {
        assert(r == is_exponent(s@, end as int));
        if r {
            assert(is_decimal_split(s@, lo as int, end as int));
        }
    }
    r
}

/// A decimal number has only one mantissa: the digits up to `whole`, and those
/// after a point that follows them.
proof fn decimal_split_is_unique(s: Seq<char>, lo: int, whole: int, end: int, hi: int)
    requires
        0 <= lo <= whole <= end <= s.len(),
        digits(s, lo, whole),
        whole == s.len() || !is_digit(s[whole]),
        if whole < s.len() && s[whole] == '.' {
            &&& whole < end
            &&& digits(s, whole + 1, end)
            &&& end == s.len() || !is_digit(s[end])
        } else {
            end == whole
        },
        lo <= hi <= s.len(),
        is_decimal_split(s, lo, hi),
    ensures
        hi == end,
{
    if lo < hi && digits(s, lo, hi) {
        assert(hi == whole) by {
            if hi < whole {
                assert(is_digit(s[hi]));
            } else if whole < hi {
                assert(is_digit(s[whole]));
            }
        }
    } else {
        let p = choose|p: int|
            lo <= p < hi && #[trigger] s[p] == '.' && digits(s, lo, p) && digits(s, p + 1, hi);
        assert(p == whole) by {
            if p < whole {
                assert(is_digit(s[p]));
            } else if whole < p {
                assert(is_digit(s[whole]));
            }
        }
        if hi < end {
            assert(is_digit(s[hi]));
        } else if end < hi {
            assert(is_digit(s[end]));
        }
    }
}

/// Checks that a field is a number.
fn check_number(text: &str, field: usize) -> (r: Result<(), HomeError>)
    ensures
        match r {
            Ok(()) => number_error(text@, field) is None,
            Err(error) => number_error(text@, field) == Some(error),
        },
{
    if text.unicode_len() == 0 {
        return Err(HomeError::EmptyNumber { field });
    }
    proof {
        reveal_strlit("inf");
        reveal_strlit("INF");
        reveal_strlit("infinity");
        reveal_strlit("INFINITY");
        reveal_strlit("nan");
        reveal_strlit("NAN");
    }
    let lo: usize = skip_sign(text, 0);
    if word_at(text, lo, "inf", "INF") || word_at(text, lo, "infinity", "INFINITY") || word_at(
        text,
        lo,
        "nan",
        "NAN",
    ) || decimal_at(text, lo) {
        Ok(())
    } else {
        Err(HomeError::InvalidNumber { field })
    }
}

impl HomeLocation {
    /// Splits a home location into its fields, of which the first three have
    /// to be numbers and the rest are ignored.
    pub fn parse(s: &str) -> (r: Result<Self, HomeError>)
        ensures
            match r {
                Ok(home) => {
                    &&& home_error(fields(s@)) is None
                    &&& home.lat_deg@ == fields(s@)[0]
                    &&& home.lon_deg@ == fields(s@)[1]
                    &&& home.alt_m@ == fields(s@)[2]
                },
                Err(error) => home_error(fields(s@)) == Some(error),
            },
    {
        let n: usize = s.unicode_len();
        let mut parts: Vec<String> = Vec::new();
        let mut start: usize = 0;
        let mut i: usize = 0;
        assert(s@.subrange(0, 0) =~= seq![]);
        assert(fields(s@.take(0)) =~= texts(parts@).push(s@.subrange(0, 0)));
        while i < n
            invariant
                start <= i <= n == s@.len(),
                fields(s@.take(i as int)) == texts(parts@).push(s@.subrange(start as int, i as int)),
            decreases n - i,
        {
            let ghost before = fields(s@.take(i as int));
            assert(s@.take(i + 1).drop_last() =~= s@.take(i as int));
            if s.get_char(i) == ',' {
                parts.push(s.substring_char(start, i).to_string());
                start = i + 1;
                assert(texts(parts@) =~= before);
                assert(s@.subrange(start as int, i + 1) =~= seq![]);
            } else {
                assert(before.drop_last() =~= texts(parts@));
                assert(s@.subrange(start as int, i as int).push(s@[i as int]) =~= s@.subrange(
                    start as int,
                    i + 1,
                ));
            }
            i = i + 1;
        }
        assert(s@.take(i as int) =~= s@);
        parts.push(s.substring_char(start, n).to_string());
        assert(texts(parts@) =~= fields(s@));
        if parts.len() < 3 {
            return Err(HomeError::TooFewFields { fields: parts.len() });
        }
        assert(texts(parts@)[0] == parts@[0]@);
        assert(texts(parts@)[1] == parts@[1]@);
        assert(texts(parts@)[2] == parts@[2]@);
        check_number(parts[0].as_str(), 0)?;
        check_number(parts[1].as_str(), 1)?;
        check_number(parts[2].as_str(), 2)?;
        let lat_deg = parts[0].clone();
        let lon_deg = parts[1].clone();
        let alt_m = parts[2].clone();
        Ok(HomeLocation { lat_deg, lon_deg, alt_m })
    }
}

/// The fields put back together, with a comma between each two.
pub open spec fn join(parts: Seq<Seq<char>>) -> Seq<char>
    decreases parts.len(),
{
    if parts.len() == 0 {
        seq![]
    } else if parts.len() == 1 {
        parts[0]
    } else {
        join(parts.drop_last()) + seq![','] + parts.last()
    }
}

/// Splitting loses nothing and splits everywhere: no field holds a comma, and
/// the fields joined by commas are the text again.
pub proof fn fields_are_the_text_between_commas(s: Seq<char>)
    ensures
        fields(s).len() >= 1,
        forall|i: int| 0 <= i < fields(s).len() ==> !#[trigger] fields(s)[i].contains(','),
        join(fields(s)) == s,
    decreases s.len(),
{
    if s.len() > 0 {
        let before = fields(s.drop_last());
        fields_are_the_text_between_commas(s.drop_last());
        assert(s =~= s.drop_last().push(s.last()));
        if s.last() == ',' {
            let after = before.push(seq![]);
            assert(after.drop_last() =~= before);
            assert(join(after) =~= s);
        } else {
            let last = before.last().push(s.last());
            let after = before.drop_last().push(last);
            assert(after.drop_last() =~= before.drop_last());
            assert forall|i: int| 0 <= i < after.len() implies !#[trigger] after[i].contains(
                ',',
            ) by {
                if i < after.len() - 1 {
                    assert(after[i] == before[i]);
                } else {
                    assert(!before[before.len() - 1].contains(','));
                    if last.contains(',') {
                        let j = choose|j: int| 0 <= j < last.len() && last[j] == ',';
                        assert(before.last()[j] == ',');
                    }
                }
            }
            assert(join(after) =~= s);
        }
    }
}

/// Nothing, a plus or a minus.
pub open spec fn is_sign_text(s: Seq<char>) -> bool {
    s.len() == 0 || s.len() == 1 && (s[0] == '+' || s[0] == '-')
}

/// Digits and nothing else.
pub open spec fn is_digit_text(s: Seq<char>) -> bool {
    forall|i: int| 0 <= i < s.len() ==> '0' <= #[trigger] s[i] <= '9'
}

/// `inf`, `infinity` or `nan`, each letter in lower or upper case.
pub open spec fn is_number_word(w: Seq<char>) -> bool {
    let inf = w.len() >= 3 && (w[0] == 'i' || w[0] == 'I') && (w[1] == 'n' || w[1] == 'N') && (w[2]
        == 'f' || w[2] == 'F');
    let inity = w.len() == 8 && (w[3] == 'i' || w[3] == 'I') && (w[4] == 'n' || w[4] == 'N') && (w[5]
        == 'i' || w[5] == 'I') && (w[6] == 't' || w[6] == 'T') && (w[7] == 'y' || w[7] == 'Y');
    let nan = w.len() == 3 && (w[0] == 'n' || w[0] == 'N') && (w[1] == 'a' || w[1] == 'A') && (w[2]
        == 'n' || w[2] == 'N');
    ||| inf && w.len() == 3
    ||| inf && inity
    ||| nan
}

/// The parts of a decimal number: digits, perhaps a point and more digits, with
/// at least one digit in all, and perhaps an `e`, a sign and digits.
pub struct Decimal {
    pub whole: Seq<char>,
    pub point: Seq<char>,
    pub fraction: Seq<char>,
    pub mark: Seq<char>,
    pub exponent_sign: Seq<char>,
    pub exponent: Seq<char>,
}

impl Decimal {
    /// The parts are what they have to be.
    pub open spec fn spelled(self) -> bool {
        &&& is_digit_text(self.whole) && is_digit_text(self.fraction)
        &&& self.whole.len() + self.fraction.len() > 0
        &&& self.point.len() == 0 && self.fraction.len() == 0 || self.point == seq!['.']
        &&& is_sign_text(self.exponent_sign) && is_digit_text(self.exponent)
        &&& if self.mark.len() == 0 {
            self.exponent_sign.len() == 0 && self.exponent.len() == 0
        } else {
            self.mark.len() == 1 && (self.mark[0] == 'e' || self.mark[0] == 'E')
                && self.exponent.len() > 0
        }
    }

    /// The parts one after the other.
    pub open spec fn text(self) -> Seq<char> {
        self.whole + self.point + self.fraction + self.mark + self.exponent_sign + self.exponent
    }
}

/// Every text that is put together from a sign and the parts of a decimal
/// number, or from a sign and one of the words, is a number.
pub proof fn spelled_numbers_are_numbers(sign: Seq<char>, d: Decimal, word: Seq<char>)
    requires
        is_sign_text(sign),
    ensures
        d.spelled() ==> is_number(sign + d.text()),
        is_number_word(word) ==> is_number(sign + word),
{
    if d.spelled() {
        spelled_decimal_is_number(sign, d);
    }
    if is_number_word(word) {
        let s = sign + word;
        let lo = sign.len() as int;
        reveal_strlit("inf");
        reveal_strlit("INF");
        reveal_strlit("infinity");
        reveal_strlit("INFINITY");
        reveal_strlit("nan");
        reveal_strlit("NAN");
        assert(after_sign(s, 0) == lo) by {
            if lo == 0 {
                assert(s[0] == word[0]);
            } else {
                assert(s[0] == sign[0]);
            }
        }
        assert forall|i: int| 0 <= i < word.len() implies #[trigger] s[lo + i] == word[i] by {}
        if word.len() == 8 {
            assert(is_word(s, lo, "infinity"@, "INFINITY"@));
        } else if word[0] == 'i' || word[0] == 'I' {
            assert(is_word(s, lo, "inf"@, "INF"@));
        } else {
            assert(is_word(s, lo, "nan"@, "NAN"@));
        }
    }
}

proof fn spelled_decimal_is_number(sign: Seq<char>, d: Decimal)
    requires
        is_sign_text(sign),
        d.spelled(),
    ensures
        is_number(sign + d.text()),
{
    let s = sign + d.text();
    let lo = sign.len() as int;
    let p = lo + d.whole.len();
    let f = p + d.point.len();
    let hi = f + d.fraction.len();
    let x = hi + d.mark.len();
    let y = x + d.exponent_sign.len();
    assert(s.subrange(lo, p) =~= d.whole);
    assert(s.subrange(p, f) =~= d.point);
    assert(s.subrange(f, hi) =~= d.fraction);
    assert(s.subrange(hi, x) =~= d.mark);
    assert(s.subrange(x, y) =~= d.exponent_sign);
    assert(s.subrange(y, s.len() as int) =~= d.exponent);
    assert forall|i: int| lo <= i < p implies is_digit(#[trigger] s[i]) by {
        assert(d.whole[i - lo] == s[i]);
    }
    assert forall|i: int| f <= i < hi implies is_digit(#[trigger] s[i]) by {
        assert(d.fraction[i - f] == s[i]);
    }
    assert forall|i: int| y <= i < s.len() implies is_digit(#[trigger] s[i]) by {
        assert(d.exponent[i - y] == s[i]);
    }
    if d.point.len() > 0 {
        assert(s[p] == d.point[0]);
    }
    assert(is_mantissa(s, lo, hi));
    if d.mark.len() > 0 {
        assert(s[hi] == d.mark[0]);
        if d.exponent_sign.len() > 0 {
            assert(s[x] == d.exponent_sign[0]);
        } else {
            assert(is_digit(s[x]));
        }
        assert(after_sign(s, hi + 1) == y);
    }
    assert(after_sign(s, 0) == lo) by {
        if lo == 0 {
            if d.whole.len() > 0 {
                assert(is_digit(s[0]));
            } else {
                assert(s[0] == '.');
            }
        } else {
            assert(s[0] == sign[0]);
        }
    }
    assert(is_decimal_split(s, lo, hi));
}

/// Every number is put together from a sign and the parts of a decimal number,
/// or from a sign and one of the words.
pub proof fn numbers_are_spelled(s: Seq<char>) -> (r: (Seq<char>, Decimal, Seq<char>))
    requires
        is_number(s),
    ensures
        is_sign_text(r.0),
        r.1.spelled() && s == r.0 + r.1.text() || is_number_word(r.2) && s == r.0 + r.2,
{
    let lo = after_sign(s, 0);
    let sign = s.take(lo);
    let rest = s.skip(lo);
    assert(s =~= sign + rest);
    reveal_strlit("inf");
    reveal_strlit("INF");
    reveal_strlit("infinity");
    reveal_strlit("INFINITY");
    reveal_strlit("nan");
    reveal_strlit("NAN");
    assert forall|i: int| 0 <= i < rest.len() implies rest[i] == #[trigger] s[lo + i] by {}
    let none = Seq::<char>::empty();
    let nothing = Decimal {
        whole: none,
        point: none,
        fraction: none,
        mark: none,
        exponent_sign: none,
        exponent: none,
    };
    if exists|hi: int| lo <= hi <= s.len() && #[trigger] is_decimal_split(s, lo, hi) {
        let hi = choose|hi: int| lo <= hi <= s.len() && #[trigger] is_decimal_split(s, lo, hi);
        let d = decimal_is_spelled(s, lo, hi);
        assert(s =~= sign + d.text());
        (sign, d, none)
    } else {
        if is_word(s, lo, "inf"@, "INF"@) {
            assert(rest[0] == s[lo + 0] && rest[1] == s[lo + 1] && rest[2] == s[lo + 2]);
        } else if is_word(s, lo, "infinity"@, "INFINITY"@) {
            assert(rest[0] == s[lo + 0] && rest[1] == s[lo + 1] && rest[2] == s[lo + 2]);
            assert(rest[3] == s[lo + 3] && rest[4] == s[lo + 4] && rest[5] == s[lo + 5]);
            assert(rest[6] == s[lo + 6] && rest[7] == s[lo + 7]);
        } else {
            assert(rest[0] == s[lo + 0] && rest[1] == s[lo + 1] && rest[2] == s[lo + 2]);
        }
        (sign, nothing, rest)
    }
}

proof fn decimal_is_spelled(s: Seq<char>, lo: int, hi: int) -> (d: Decimal)
    requires
        0 <= lo <= hi <= s.len(),
        is_decimal_split(s, lo, hi),
    ensures
        d.spelled(),
        d.text() == s.skip(lo),
{
    let n = s.len() as int;
    let plain = lo < hi && digits(s, lo, hi);
    let p = if plain {
        hi
    } else {
        choose|p: int|
            lo <= p < hi && #[trigger] s[p] == '.' && digits(s, lo, p) && digits(s, p + 1, hi)
    };
    let f = if plain { hi } else { p + 1 };
    let x = if hi < n { hi + 1 } else { hi };
    let y = if hi < n { after_sign(s, hi + 1) } else { hi };
    let d = Decimal {
        whole: s.subrange(lo, p),
        point: s.subrange(p, f),
        fraction: s.subrange(f, hi),
        mark: s.subrange(hi, x),
        exponent_sign: s.subrange(x, y),
        exponent: s.subrange(y, n),
    };
    assert forall|i: int| 0 <= i < d.whole.len() implies '0' <= #[trigger] d.whole[i] <= '9' by {
        assert(is_digit(s[lo + i]));
    }
    assert forall|i: int| 0 <= i < d.fraction.len() implies '0' <= #[trigger] d.fraction[i]
        <= '9' by {
        assert(is_digit(s[f + i]));
    }
    assert forall|i: int| 0 <= i < d.exponent.len() implies '0' <= #[trigger] d.exponent[i]
        <= '9' by {
        assert(is_digit(s[y + i]));
    }
    if !plain {
        assert(d.point =~= seq!['.']);
    }
    assert(d.text() =~= s.skip(lo));
    d
}

/// What is wrong with a home location: too few fields, or else the first of the
/// three that is empty or not a number, whatever the fields after the third.
pub proof fn the_first_wrong_field_is_told(parts: Seq<Seq<char>>)
    requires
        parts.len() <= usize::MAX,
    ensures
        parts.len() < 3 <==> home_error(parts) is Some && home_error(parts)->0 is TooFewFields,
        parts.len() < 3 ==> home_error(parts)->0->fields == parts.len(),
        home_error(parts) is None <==> parts.len() >= 3 && is_number(parts[0]) && is_number(parts[1])
            && is_number(parts[2]),
        home_error(parts) matches Some(HomeError::EmptyNumber { field }) ==> field < 3
            && parts[field as int].len() == 0 && forall|i: int| 0 <= i < field ==> is_number(#[trigger] parts[i]),
        home_error(parts) matches Some(HomeError::InvalidNumber { field }) ==> field < 3
            && parts[field as int].len() > 0 && !is_number(parts[field as int]) && forall|i: int|
            0 <= i < field ==> is_number(#[trigger] parts[i]),
{
    assert forall|t: Seq<char>| t.len() == 0 implies !#[trigger] is_number(t) by {
        if is_number(t) {
            reveal_strlit("inf");
            reveal_strlit("infinity");
            reveal_strlit("nan");
            let hi = choose|hi: int| 0 <= hi <= t.len() && #[trigger] is_decimal_split(t, 0, hi);
            assert(!is_mantissa(t, 0, hi));
        }
    }
}

} // verus!

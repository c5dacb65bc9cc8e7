//! `Age` and `Cache-Control` header values.
use vstd::prelude::*;

use crate::duration::Duration;
use crate::text::{decimal, decimal_string, push_decimal};

verus! {

/// A header value type: its canonical name and the values it serialises to.
pub trait Header: Sized {
    /// The values that `build` produces, as text.
    spec fn header_values(&self) -> Seq<Seq<char>>;

    /// The canonical, lower-case header name.
    spec fn header_name() -> Seq<char>;

    /// The canonical, lower-case header name.
    fn get_headername() -> (r: String)
        ensures
            r@ == Self::header_name(),
    ;

    /// The serialised values, and the value itself handed back.
    fn build(self) -> (r: (Vec<String>, Self))
        ensures
            strings_view(r.0@) == self.header_values(),
            r.1 == self,
    ;
}

/// The text of each string in `v`.
pub open spec fn strings_view(v: Seq<String>) -> Seq<Seq<char>> {
    v.map_values(|s: String| s@)
}

/// The age of a cached response: the time since it was produced at the origin.
#[derive(Debug, Clone, PartialEq, Eq, Structural)]
pub struct Age {
    pub value: Duration,
}

impl Age {
    /// An age of zero.
    pub fn from_origin() -> (r: Age)
        ensures
            r.value == (Duration { secs: 0, nanos: 0 }),
    {
        Age { value: Duration::from_secs(0) }
    }

    pub fn from_duration(value: Duration) -> (r: Age)
        ensures
            r.value == value,
    {
        Age { value }
    }

    /// The age of something produced at `date`, by the clock now.
    pub fn from_date(date: std::time::Instant) -> (r: Age)
        ensures
            r.value.wf(),
    {
        let now = instant_now();
        Age { value: duration_since(&now, date) }
    }

    pub fn get_duration(&self) -> (r: Duration)
        ensures
            r == self.value,
    {
        self.value
    }

    pub fn set_duration(self, value: Duration) -> (r: Age)
        ensures
            r.value == value,
    {
        let mut a = self;
        a.value = value;
        a
    }
}

fn all_visible(value: &[u8]) -> (r: bool)
    ensures
        r == forall|i: int| 0 <= i < value@.len() ==> is_visible(#[trigger] value@[i]),
{
    let n = value.len();
    let mut i: usize = 0;
    while i < n
        invariant
            n == value@.len(),
            i <= n,
            forall|j: int| 0 <= j < i ==> is_visible(#[trigger] value@[j]),
        decreases n - i,
    {
        let b = value[i];
        if !(b == 9 || (32 <= b && b < 127)) {
            assert(!is_visible(value@[i as int]));
            return false;
        }
        i = i + 1;
    }
    true
}

/// The index of the first byte that is not a blank.
fn blank_prefix_end(value: &[u8]) -> (lo: usize)
    ensures
        lo <= value@.len(),
        trim_start(value@) == value@.subrange(lo as int, value@.len() as int),
{
    let n = value.len();
    let mut lo: usize = 0;
    proof {
        assert(value@.subrange(0, n as int) =~= value@);
    }
    while lo < n && (value[lo] == 9 || value[lo] == 32)
        invariant
            n == value@.len(),
            lo <= n,
            trim_start(value@) == trim_start(value@.subrange(lo as int, n as int)),
        decreases n - lo,
    {
        proof {
            assert(value@.subrange(lo as int, n as int).drop_first() =~= value@.subrange(
                lo + 1,
                n as int,
            ));
        }
        lo = lo + 1;
    }
    proof {
        let t = value@.subrange(lo as int, n as int);
        if t.len() > 0 {
            assert(t[0] == value@[lo as int]);
        }
    }
    lo
}

/// The index after the last byte from `lo` on that is not a blank.
fn blank_suffix_start(value: &[u8], lo: usize) -> (hi: usize)
    requires
        lo <= value@.len(),
    ensures
        lo <= hi <= value@.len(),
        trim_end(value@.subrange(lo as int, value@.len() as int)) == value@.subrange(
            lo as int,
            hi as int,
        ),
{
    let n = value.len();
    let mut hi: usize = n;
    while hi > lo && (value[hi - 1] == 9 || value[hi - 1] == 32)
        invariant
            n == value@.len(),
            lo <= hi <= n,
            trim_end(value@.subrange(lo as int, n as int)) == trim_end(
                value@.subrange(lo as int, hi as int),
            ),
        decreases hi,
    {
        proof {
            assert(value@.subrange(lo as int, hi as int).drop_last() =~= value@.subrange(
                lo as int,
                hi - 1,
            ));
        }
        hi = hi - 1;
    }
    proof {
        let u = value@.subrange(lo as int, hi as int);
        if u.len() > 0 {
            assert(u.last() == value@[hi - 1]);
        }
    }
    hi
}

impl Age {
    /// Reads an age from the bytes of a header value: visible text holding
    /// a number of seconds, with blanks around it.
    pub fn try_from_bytes(value: &[u8]) -> (r: Result<Age, InvalidAgeValue>)
        ensures
            match age_seconds(value@) {
                Some(n) => r == Ok::<Age, InvalidAgeValue>(Age { value: Duration { secs: n, nanos: 0 } }),
                None => r == Err::<Age, InvalidAgeValue>(InvalidAgeValue),
            },
    {
        if !all_visible(value) {
            return Err(InvalidAgeValue);
        }
        let lo = blank_prefix_end(value);
        let hi = blank_suffix_start(value, lo);
        match parse_digits(value, lo, hi) {
            Some(secs) => Ok(Age { value: Duration::from_secs(secs) }),
            None => Err(InvalidAgeValue),
        }
    }
}

impl Age {
    /// Reads an age from the values of a header: there must be exactly one,
    /// and it must read as an age.
    pub fn try_from_value(values: &Vec<Vec<u8>>) -> (r: Result<Age, InvalidAgeValue>)
        ensures
            values@.len() != 1 ==> r == Err::<Age, InvalidAgeValue>(InvalidAgeValue),
            values@.len() == 1 ==> match age_seconds(values@[0]@) {
                Some(n) => r == Ok::<Age, InvalidAgeValue>(Age { value: Duration { secs: n, nanos: 0 } }),
                None => r == Err::<Age, InvalidAgeValue>(InvalidAgeValue),
            },
    {
        if values.len() != 1 {
            return Err(InvalidAgeValue);
        }
        Age::try_from_bytes(values[0].as_slice())
    }
}

impl Header for Age {
    open spec fn header_values(&self) -> Seq<Seq<char>> {
        seq![decimal(self.value.secs as nat)]
    }

    open spec fn header_name() -> Seq<char> {
        "age"@
    }

    fn get_headername() -> (r: String) {
        String::from_str("age")
    }

    fn build(self) -> (r: (Vec<String>, Age)) {
        let mut v: Vec<String> = Vec::new();
        v.push(decimal_string(self.value.as_secs()));
        proof {
            assert(strings_view(v@) =~= self.header_values());
        }
        (v, self)
    }
}

#[verifier::external_type_specification]
#[verifier::external_body]
pub struct ExInstant(std::time::Instant);

/// Relies on `std::time::Instant::now`: the current reading of the monotonic clock.
#[verifier::external_body]
fn instant_now() -> (r: std::time::Instant) {
    std::time::Instant::now()
}

/// Relies on `std::time::Instant::saturating_duration_since`: the time from
/// `earlier` to `later`, zero where `earlier` is the later one, never a panic;
/// its fraction of a second (`Duration::subsec_nanos`) is below one second.
#[verifier::external_body]
fn duration_since(later: &std::time::Instant, earlier: std::time::Instant) -> (r: Duration)
    ensures
        r.wf(),
{
    let d = later.saturating_duration_since(earlier);
    Duration { secs: d.as_secs(), nanos: d.subsec_nanos() }
}

/// The header value could not be read as an age.
#[derive(Debug, Clone, Copy, PartialEq, Eq, Structural)]
pub struct InvalidAgeValue;

/// A byte that a header value may hold as text: visible ASCII or tab.
pub open spec fn is_visible(b: u8) -> bool {
    b == 9 || (32 <= b && b < 127)
}

/// Space or tab.
pub open spec fn is_blank(b: u8) -> bool {
    b == 9 || b == 32
}

pub open spec fn is_digit(b: u8) -> bool {
    48 <= b && b <= 57
}

/// `s` without leading blanks.
pub open spec fn trim_start(s: Seq<u8>) -> Seq<u8>
    decreases s.len(),
{
    if s.len() > 0 && is_blank(s[0]) {
        trim_start(s.drop_first())
    } else {
        s
    }
}

/// `s` without trailing blanks.
pub open spec fn trim_end(s: Seq<u8>) -> Seq<u8>
    decreases s.len(),
{
    if s.len() > 0 && is_blank(s.last()) {
        trim_end(s.drop_last())
    } else {
        s
    }
}

/// The number that the decimal digits `s` write.
pub open spec fn digits_value(s: Seq<u8>) -> nat
    decreases s.len(),
{
    if s.len() == 0 {
        0
    } else {
        digits_value(s.drop_last()) * 10 + (s.last() - 48) as nat
    }
}

/// `s` without a leading `+`.
pub open spec fn unsigned_part(s: Seq<u8>) -> Seq<u8> {
    if s.len() > 0 && s[0] == 43 {
        s.drop_first()
    } else {
        s
    }
}

/// The unsigned integer that `s` writes: an optional `+`, then at least one
/// digit and nothing else, of a value that fits in 64 bits.
pub open spec fn parse_u64(s: Seq<u8>) -> Option<u64> {
    let d = unsigned_part(s);
    if d.len() > 0 && (forall|i: int| 0 <= i < d.len() ==> is_digit(#[trigger] d[i]))
        && digits_value(d) <= u64::MAX {
        Some(digits_value(d) as u64)
    } else {
        None
    }
}

/// The age in seconds that a header value holds: visible text, blanks
/// around the number ignored.
pub open spec fn age_seconds(v: Seq<u8>) -> Option<u64> {
    if forall|i: int| 0 <= i < v.len() ==> is_visible(#[trigger] v[i]) {
        parse_u64(trim_end(trim_start(v)))
    } else {
        None
    }
}

proof fn lemma_digits_grow(s: Seq<u8>, k: int)
    requires
        0 <= k <= s.len(),
        forall|i: int| 0 <= i < s.len() ==> is_digit(#[trigger] s[i]),
    ensures
        digits_value(s.take(k)) <= digits_value(s),
    decreases s.len() - k,
{
    if k < s.len() {
        assert(s.take(k + 1).drop_last() =~= s.take(k));
        lemma_digits_grow(s, k + 1);
    } else {
        assert(s.take(k) =~= s);
    }
}

/// Reads the digits `v[lo..hi]`, after an optional `+`, as a `u64`.
fn parse_digits(v: &[u8], lo: usize, hi: usize) -> (r: Option<u64>)
    requires
        lo <= hi <= v@.len(),
    ensures
        r == parse_u64(v@.subrange(lo as int, hi as int)),
{
    let ghost s = v@.subrange(lo as int, hi as int);
    let mut i = lo;
    if i < hi && v[i] == 43 {
        i = i + 1;
    }
    let ghost d = v@.subrange(i as int, hi as int);
    proof {
        if lo < hi && v@[lo as int] == 43 {
            assert(d =~= s.drop_first());
        } else {
            assert(d =~= s);
        }
    }
    if i == hi {
        return None;
    }
    let start = i;
    let mut value: u64 = 0;
    while i < hi
        invariant
            start <= i <= hi <= v@.len(),
            d == v@.subrange(start as int, hi as int),
            d == unsigned_part(s),
            s == v@.subrange(lo as int, hi as int),
            d.len() > 0,
            forall|j: int| 0 <= j < i - start ==> is_digit(#[trigger] d[j]),
            value == digits_value(d.take(i - start)),
        decreases hi - i,
    {
        let b = v[i];
        assert(b == d[i - start]);
        if b < 48 || b > 57 {
            proof {
                assert(!is_digit(d[i - start]));
                assert(parse_u64(s) is None);
            }
            return None;
        }
        proof {
            assert(d.take(i - start + 1).drop_last() =~= d.take(i - start));
            assert(d.take(i - start + 1).last() == b);
        }
        if value > (u64::MAX - (b - 48) as u64) / 10 {
            proof {
                assert(digits_value(d.take(i - start + 1)) > u64::MAX) by (nonlinear_arith)
                    requires
                        value > (u64::MAX - (b - 48) as u64) / 10,
                        digits_value(d.take(i - start + 1)) == value * 10 + (b - 48) as nat,
                        b >= 48,
                        b <= 57,
                ;
                if forall|j: int| 0 <= j < d.len() ==> is_digit(#[trigger] d[j]) {
                    lemma_digits_grow(d, i - start + 1);
                    assert(digits_value(d) > u64::MAX);
                }
                assert(parse_u64(s) is None);
            }
            return None;
        }
        value = value * 10 + (b - 48) as u64;
        i = i + 1;
    }
    proof {
        assert(d.take(d.len() as int) =~= d);
    }
    Some(value)
}

/// A set of `Cache-Control` flag directives, one bit each.
#[derive(Debug, Clone, Copy, PartialEq, Eq, Structural)]
pub struct CacheFlags(pub u16);

/// The number of flag directives that `Cache-Control` knows.
pub const FLAG_COUNT: u16 = 10;

impl CacheFlags {
    pub fn empty() -> (r: CacheFlags)
        ensures
            r.0 == 0,
    {
        CacheFlags(0)
    }

    pub fn no_cache() -> (r: CacheFlags)
        ensures
            r.0 == 1,
    {
        CacheFlags(1)
    }

    pub fn must_revalidate() -> (r: CacheFlags)
        ensures
            r.0 == 2,
    {
        CacheFlags(2)
    }

    pub fn proxy_revalidate() -> (r: CacheFlags)
        ensures
            r.0 == 4,
    {
        CacheFlags(4)
    }

    pub fn no_store() -> (r: CacheFlags)
        ensures
            r.0 == 8,
    {
        CacheFlags(8)
    }

    pub fn private() -> (r: CacheFlags)
        ensures
            r.0 == 16,
    {
        CacheFlags(16)
    }

    pub fn public() -> (r: CacheFlags)
        ensures
            r.0 == 32,
    {
        CacheFlags(32)
    }

    pub fn must_understand() -> (r: CacheFlags)
        ensures
            r.0 == 64,
    {
        CacheFlags(64)
    }

    pub fn no_transform() -> (r: CacheFlags)
        ensures
            r.0 == 128,
    {
        CacheFlags(128)
    }

    pub fn immutable() -> (r: CacheFlags)
        ensures
            r.0 == 256,
    {
        CacheFlags(256)
    }

    pub fn only_if_cached() -> (r: CacheFlags)
        ensures
            r.0 == 512,
    {
        CacheFlags(512)
    }


    /// The union of two flag sets.
    pub fn union(self, rhs: CacheFlags) -> (r: CacheFlags)
        ensures
            r.0 == self.0 | rhs.0,
    {
        CacheFlags(self.0 | rhs.0)
    }
}

impl core::ops::BitOr for CacheFlags {
    type Output = CacheFlags;

    fn bitor(self, rhs: CacheFlags) -> CacheFlags {
        self.union(rhs)
    }
}

impl vstd::std_specs::ops::BitOrSpecImpl for CacheFlags {
    open spec fn obeys_bitor_spec() -> bool {
        true
    }

    open spec fn bitor_req(self, rhs: CacheFlags) -> bool {
        true
    }

    open spec fn bitor_spec(self, rhs: CacheFlags) -> CacheFlags {
        CacheFlags(self.0 | rhs.0)
    }
}

/// Whether bit `n` of `flags` is set.
pub open spec fn bit_set(flags: u16, n: u16) -> bool {
    flags & (1u16 << n) != 0
}

/// The name of flag directive `n`, in serialisation order.
pub open spec fn flag_name(n: u16) -> Seq<char> {
    if n == 0 {
        "no-cache"@
    } else if n == 1 {
        "must-revalidate"@
    } else if n == 2 {
        "proxy-revalidate"@
    } else if n == 3 {
        "no-store"@
    } else if n == 4 {
        "private"@
    } else if n == 5 {
        "public"@
    } else if n == 6 {
        "must-understand"@
    } else if n == 7 {
        "no-transform"@
    } else if n == 8 {
        "immutable"@
    } else {
        "only-if-cached"@
    }
}

fn flag_str(n: u16) -> (r: &'static str)
    ensures
        r@ == flag_name(n),
{
    if n == 0 {
        "no-cache"
    } else if n == 1 {
        "must-revalidate"
    } else if n == 2 {
        "proxy-revalidate"
    } else if n == 3 {
        "no-store"
    } else if n == 4 {
        "private"
    } else if n == 5 {
        "public"
    } else if n == 6 {
        "must-understand"
    } else if n == 7 {
        "no-transform"
    } else if n == 8 {
        "immutable"
    } else {
        "only-if-cached"
    }
}

/// The names of the flags among the first `n` directives that `flags` sets, in order.
pub open spec fn flag_names(flags: u16, n: u16) -> Seq<Seq<char>>
    decreases n,
{
    if n == 0 {
        seq![]
    } else {
        let prev = flag_names(flags, (n - 1) as u16);
        if bit_set(flags, (n - 1) as u16) {
            prev.push(flag_name((n - 1) as u16))
        } else {
            prev
        }
    }
}

/// What a `Cache-Control` value holds.
pub struct CacheControlView {
    pub flags: u16,
    pub max_age: Option<Duration>,
    pub s_maxage: Option<Duration>,
    pub stale_while_revalidate: Option<Duration>,
    pub stale_if_error: Option<Duration>,
    pub max_stale: Option<Duration>,
    pub min_fresh: Option<Duration>,
}

/// `name=secs` for a time directive.
pub open spec fn timed(name: Seq<char>, d: Duration) -> Seq<char> {
    name + decimal(d.secs as nat)
}

/// The one time directive that is serialised: the first that is set, in the
/// order max-age, s-maxage, stale-while-revalidate, stale-if-error,
/// max-stale, min-fresh.
pub open spec fn time_directive(c: CacheControlView) -> Option<Seq<char>> {
    if c.max_age is Some {
        Some(timed("max-age="@, c.max_age->0))
    } else if c.s_maxage is Some {
        Some(timed("s-maxage="@, c.s_maxage->0))
    } else if c.stale_while_revalidate is Some {
        Some(timed("stale-while-revalidate="@, c.stale_while_revalidate->0))
    } else if c.stale_if_error is Some {
        Some(timed("stale-if-error="@, c.stale_if_error->0))
    } else if c.max_stale is Some {
        Some(timed("max-stale="@, c.max_stale->0))
    } else if c.min_fresh is Some {
        Some(timed("min-fresh="@, c.min_fresh->0))
    } else {
        None
    }
}

/// The serialised values of a `Cache-Control` header: the set flags in their
/// fixed order, then the chosen time directive, if any.
pub open spec fn cache_control_values(c: CacheControlView) -> Seq<Seq<char>> {
    let flags = flag_names(c.flags, FLAG_COUNT);
    match time_directive(c) {
        Some(d) => flags.push(d),
        None => flags,
    }
}

/// A `Cache-Control` value: flag directives plus optional time directives.
#[derive(Debug, Clone, Copy, PartialEq, Eq, Structural)]
pub struct CacheControl {
    bitflags: CacheFlags,
    max_age: Option<Duration>,
    s_maxage: Option<Duration>,
    stale_while_revalidate: Option<Duration>,
    stale_if_error: Option<Duration>,
    max_stale: Option<Duration>,
    min_fresh: Option<Duration>,
}

impl View for CacheControl {
    type V = CacheControlView;

    closed spec fn view(&self) -> CacheControlView {
        CacheControlView {
            flags: self.bitflags.0,
            max_age: self.max_age,
            s_maxage: self.s_maxage,
            stale_while_revalidate: self.stale_while_revalidate,
            stale_if_error: self.stale_if_error,
            max_stale: self.max_stale,
            min_fresh: self.min_fresh,
        }
    }
}

impl CacheControl {
    /// A value with no flag and no time directive.
    pub fn new() -> (r: CacheControl)
        ensures
            r@ == (CacheControlView {
                flags: 0,
                max_age: None,
                s_maxage: None,
                stale_while_revalidate: None,
                stale_if_error: None,
                max_stale: None,
                min_fresh: None,
            }),
    {
        CacheControl {
            bitflags: CacheFlags(0),
            max_age: None,
            s_maxage: None,
            stale_while_revalidate: None,
            stale_if_error: None,
            max_stale: None,
            min_fresh: None,
        }
    }

    /// Whether every flag of `flag` is set; for the empty set, whether no flag is set.
    pub fn has_flag(&self, flag: CacheFlags) -> (r: bool)
        ensures
            r == if flag.0 == 0 {
                self@.flags == 0
            } else {
                self@.flags & flag.0 == flag.0
            },
    {
        if flag.0 == 0 {
            self.bitflags.0 == 0
        } else {
            (self.bitflags.0 & flag.0) == flag.0
        }
    }

    pub fn get_flag(&self) -> (r: CacheFlags)
        ensures
            r.0 == self@.flags,
    {
        self.bitflags
    }

    /// Adds the flags of `flag`.
    pub fn set_flag(self, flag: CacheFlags) -> (r: CacheControl)
        ensures
            r@ == (CacheControlView { flags: self@.flags | flag.0, ..self@ }),
    {
        let mut c = self;
        c.bitflags = CacheFlags(self.bitflags.0 | flag.0);
        c
    }

    /// Clears the flags of `flag`.
    pub fn remove_flag(self, flag: CacheFlags) -> (r: CacheControl)
        ensures
            r@ == (CacheControlView { flags: self@.flags & !flag.0, ..self@ }),
    {
        let mut c = self;
        c.bitflags = CacheFlags(self.bitflags.0 & !flag.0);
        c
    }

    pub fn get_max_age(&self) -> (r: Option<Duration>)
        ensures
            r == self@.max_age,
    {
        self.max_age
    }

    pub fn get_s_maxage(&self) -> (r: Option<Duration>)
        ensures
            r == self@.s_maxage,
    {
        self.s_maxage
    }

    pub fn get_stale_while_revalidate(&self) -> (r: Option<Duration>)
        ensures
            r == self@.stale_while_revalidate,
    {
        self.stale_while_revalidate
    }

    pub fn get_stale_if_error(&self) -> (r: Option<Duration>)
        ensures
            r == self@.stale_if_error,
    {
        self.stale_if_error
    }

    pub fn get_max_stale(&self) -> (r: Option<Duration>)
        ensures
            r == self@.max_stale,
    {
        self.max_stale
    }

    pub fn get_min_fresh(&self) -> (r: Option<Duration>)
        ensures
            r == self@.min_fresh,
    {
        self.min_fresh
    }

    pub fn set_max_age(self, value: Duration) -> (r: CacheControl)
        ensures
            r@ == (CacheControlView { max_age: Some(value), ..self@ }),
    {
        let mut c = self;
        c.max_age = Some(value);
        c
    }

    pub fn set_s_maxage(self, value: Duration) -> (r: CacheControl)
        ensures
            r@ == (CacheControlView { s_maxage: Some(value), ..self@ }),
    {
        let mut c = self;
        c.s_maxage = Some(value);
        c
    }

    pub fn set_stale_while_revalidate(self, value: Duration) -> (r: CacheControl)
        ensures
            r@ == (CacheControlView { stale_while_revalidate: Some(value), ..self@ }),
    {
        let mut c = self;
        c.stale_while_revalidate = Some(value);
        c
    }

    pub fn set_stale_if_error(self, value: Duration) -> (r: CacheControl)
        ensures
            r@ == (CacheControlView { stale_if_error: Some(value), ..self@ }),
    {
        let mut c = self;
        c.stale_if_error = Some(value);
        c
    }

    pub fn set_max_stale(self, value: Duration) -> (r: CacheControl)
        ensures
            r@ == (CacheControlView { max_stale: Some(value), ..self@ }),
    {
        let mut c = self;
        c.max_stale = Some(value);
        c
    }

    pub fn set_min_fresh(self, value: Duration) -> (r: CacheControl)
        ensures
            r@ == (CacheControlView { min_fresh: Some(value), ..self@ }),
    {
        let mut c = self;
        c.min_fresh = Some(value);
        c
    }
}

fn timed_string(name: &str, d: Duration) -> (r: String)
    ensures
        r@ == timed(name@, d),
{
    let mut s = String::from_str(name);
    push_decimal(&mut s, d.as_secs());
    s
}

impl Header for CacheControl {
    open spec fn header_values(&self) -> Seq<Seq<char>> {
        cache_control_values(self@)
    }

    open spec fn header_name() -> Seq<char> {
        "cache-control"@
    }

    fn get_headername() -> (r: String) {
        String::from_str("cache-control")
    }

    fn build(self) -> (r: (Vec<String>, CacheControl)) {
        let mut v: Vec<String> = Vec::new();
        let mut n: u16 = 0;
        while n < FLAG_COUNT
            invariant
                n <= FLAG_COUNT,
                strings_view(v@) == flag_names(self@.flags, n),
            decreases FLAG_COUNT - n,
        {
            if (self.bitflags.0 & (1u16 << n)) != 0 {
                v.push(String::from_str(flag_str(n)));
            }
            proof {
                assert(strings_view(v@) =~= flag_names(self@.flags, (n + 1) as u16));
            }
            n = n + 1;
        }
        // The first time directive that is set wins.
        let directive: Option<String> = if let Some(d) = self.max_age {
            Some(timed_string("max-age=", d))
        } else if let Some(d) = self.s_maxage {
            Some(timed_string("s-maxage=", d))
        } else if let Some(d) = self.stale_while_revalidate {
            Some(timed_string("stale-while-revalidate=", d))
        } else if let Some(d) = self.stale_if_error {
            Some(timed_string("stale-if-error=", d))
        } else if let Some(d) = self.max_stale {
            Some(timed_string("max-stale=", d))
        } else if let Some(d) = self.min_fresh {
            Some(timed_string("min-fresh=", d))
        } else {
            None
        };
        if let Some(s) = directive {
            v.push(s);
        }
        proof {
            assert(strings_view(v@) =~= cache_control_values(self@));
        }
        (v, self)
    }
}

} // verus!

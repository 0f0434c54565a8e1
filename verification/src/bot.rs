//! The policy store and its construction from configuration text.
//!
//! The store holds the bot's own identity, the set of monitored (honeypot)
//! channels, and the set of exempt users. A monitored-channel list arrives as
//! one comma-separated string, such as `"100, 200,300"`. Construction parses
//! every token as a decimal channel identifier and fails if any token is
//! malformed, reporting every malformed token rather than only the first.

use vstd::prelude::*;
use vstd::string::StringSliceAdditionalSpecFns;

verus! {

broadcast use vstd::seq_lib::group_seq_properties;

/// The comma that separates channel-id tokens in a channel-list string.
pub open spec fn is_separator(b: u8) -> bool {
    b == 44
}

/// ASCII whitespace, stripped from both ends of a token before parsing.
pub open spec fn is_space(b: u8) -> bool {
    b == 32 || (9 <= b && b <= 13)
}

/// An ASCII decimal digit.
pub open spec fn is_digit(b: u8) -> bool {
    48 <= b && b <= 57
}

pub open spec fn all_digits(s: Seq<u8>) -> bool {
    forall|i: int| 0 <= i < s.len() ==> is_digit(#[trigger] s[i])
}

/// The numeric value of a sequence of ASCII decimal digits, most significant
/// digit first. The empty sequence has value zero.
pub open spec fn digits_value(s: Seq<u8>) -> int
    decreases s.len(),
{
    if s.len() == 0 {
        0
    } else {
        digits_value(s.drop_last()) * 10 + (s.last() - 48)
    }
}

/// `s` without its leading ASCII whitespace.
pub open spec fn trim_front(s: Seq<u8>) -> Seq<u8>
    decreases s.len(),
{
    if s.len() > 0 && is_space(s[0]) {
        trim_front(s.drop_first())
    } else {
        s
    }
}

/// `s` without its trailing ASCII whitespace.
pub open spec fn trim_back(s: Seq<u8>) -> Seq<u8>
    decreases s.len(),
{
    if s.len() > 0 && is_space(s.last()) {
        trim_back(s.drop_last())
    } else {
        s
    }
}

/// `s` without leading or trailing ASCII whitespace.
pub open spec fn trim(s: Seq<u8>) -> Seq<u8> {
    trim_back(trim_front(s))
}

/// `u` without one leading plus sign, if it has one.
pub open spec fn unsigned_body(u: Seq<u8>) -> Seq<u8> {
    if u.len() > 0 && u[0] == 43 {
        u.drop_first()
    } else {
        u
    }
}

/// The identifier a token denotes: its bytes, less surrounding whitespace
/// and one optional leading plus sign, read as a decimal number. `None` when
/// no digit is left, a non-digit remains, or the value exceeds `u64::MAX`.
pub open spec fn token_value(t: Seq<u8>) -> Option<u64> {
    let w = unsigned_body(trim(t));
    if w.len() > 0 && all_digits(w) && digits_value(w) <= u64::MAX {
        Some((digits_value(w)) as u64)
    } else {
        None
    }
}

/// The identifiers of the well-formed tokens of the channel-list bytes `s`,
/// in order, given that the bytes `cur` of the current token were already
/// read before `s`.
pub open spec fn scan_values(s: Seq<u8>, cur: Seq<u8>) -> Seq<u64>
    decreases s.len(),
{
    if s.len() == 0 {
        match token_value(cur) {
            Some(v) => seq![v],
            None => Seq::empty(),
        }
    } else if is_separator(s[0]) {
        match token_value(cur) {
            Some(v) => seq![v] + scan_values(s.drop_first(), Seq::empty()),
            None => scan_values(s.drop_first(), Seq::empty()),
        }
    } else {
        scan_values(s.drop_first(), cur.push(s[0]))
    }
}

/// The malformed tokens of the channel-list bytes `s`, in order, given that
/// the bytes `cur` of the current token were already read before `s`.
pub open spec fn scan_malformed(s: Seq<u8>, cur: Seq<u8>) -> Seq<Seq<u8>>
    decreases s.len(),
{
    if s.len() == 0 {
        match token_value(cur) {
            Some(v) => Seq::empty(),
            None => seq![cur],
        }
    } else if is_separator(s[0]) {
        match token_value(cur) {
            Some(v) => scan_malformed(s.drop_first(), Seq::empty()),
            None => seq![cur] + scan_malformed(s.drop_first(), Seq::empty()),
        }
    } else {
        scan_malformed(s.drop_first(), cur.push(s[0]))
    }
}

/// The channel identifiers of the well-formed tokens of a channel-list
/// string, in order of occurrence, duplicates kept.
pub open spec fn list_values(s: Seq<u8>) -> Seq<u64> {
    scan_values(s, Seq::empty())
}

/// The malformed tokens of a channel-list string, in order of occurrence.
pub open spec fn malformed_tokens(s: Seq<u8>) -> Seq<Seq<u8>> {
    scan_malformed(s, Seq::empty())
}

/// The byte views of a sequence of byte vectors.
pub open spec fn views_of(ts: Seq<Vec<u8>>) -> Seq<Seq<u8>> {
    ts.map_values(|t: Vec<u8>| t@)
}

/// Why a policy store could not be built.
#[derive(Debug, Clone, PartialEq, Eq)]
pub enum ConfigError {
    /// The bot-identity value is not a decimal identifier; its bytes.
    InvalidBotIdentity(Vec<u8>),
    /// Neither a pre-parsed channel set nor a channel-list string was given.
    MissingChannelSource,
    /// The bytes of every malformed token of the channel-list string.
    InvalidChannelIds(Vec<Vec<u8>>),
}

proof fn lemma_trim_front_is_skip(s: Seq<u8>, k: int)
    requires
        0 <= k <= s.len(),
        forall|j: int| 0 <= j < k ==> is_space(#[trigger] s[j]),
        k < s.len() ==> !is_space(s[k]),
    ensures
        trim_front(s) == s.skip(k),
    decreases k,
{
    if k == 0 {
        assert(s.skip(0) =~= s);
    } else {
        assert(is_space(s[0]));
        assert forall|j: int| 0 <= j < k - 1 implies is_space(#[trigger] s.drop_first()[j]) by {
            assert(s.drop_first()[j] == s[j + 1]);
        }
        lemma_trim_front_is_skip(s.drop_first(), k - 1);
        assert(s.drop_first().skip(k - 1) =~= s.skip(k));
    }
}

proof fn lemma_trim_back_is_take(s: Seq<u8>, k: int)
    requires
        0 <= k <= s.len(),
        forall|j: int| k <= j < s.len() ==> is_space(#[trigger] s[j]),
        k > 0 ==> !is_space(s[k - 1]),
    ensures
        trim_back(s) == s.take(k),
    decreases s.len() - k,
{
    if k == s.len() {
        assert(s.take(k) =~= s);
    } else {
        assert(is_space(s.last()));
        assert forall|j: int| k <= j < s.drop_last().len() implies is_space(
            #[trigger] s.drop_last()[j],
        ) by {
            assert(s.drop_last()[j] == s[j]);
        }
        lemma_trim_back_is_take(s.drop_last(), k);
        assert(s.drop_last().take(k) =~= s.take(k));
    }
}

proof fn lemma_digits_value_nonneg(s: Seq<u8>)
    requires
        all_digits(s),
    ensures
        digits_value(s) >= 0,
    decreases s.len(),
{
    if s.len() > 0 {
        assert(forall|i: int| 0 <= i < s.drop_last().len() ==> is_digit(
            #[trigger] s.drop_last()[i],
        ));
        lemma_digits_value_nonneg(s.drop_last());
    }
}

/// Reading more digits never shrinks the value.
proof fn lemma_digits_value_take_le(s: Seq<u8>, k: int)
    requires
        all_digits(s),
        0 <= k <= s.len(),
    ensures
        digits_value(s.take(k)) <= digits_value(s),
    decreases s.len() - k,
{
    if k == s.len() {
        assert(s.take(k) =~= s);
    } else {
        assert(s.take(k + 1).drop_last() =~= s.take(k));
        assert(s.take(k + 1).last() == s[k]);
        assert(forall|i: int| 0 <= i < s.take(k).len() ==> is_digit(#[trigger] s.take(k)[i]));
        lemma_digits_value_nonneg(s.take(k));
        assert(digits_value(s.take(k + 1)) == digits_value(s.take(k)) * 10 + (s[k] - 48));
        lemma_digits_value_take_le(s, k + 1);
    }
}

/// The largest value that can take one more decimal digit: `u64::MAX / 10`.
const DIGIT_LIMIT: u64 = 1844674407370955161;

/// The bounds of `t` with surrounding ASCII whitespace stripped.
fn trim_bounds(t: &[u8]) -> (r: (usize, usize))
    ensures
        r.0 <= r.1 <= t@.len(),
        trim(t@) == t@.subrange(r.0 as int, r.1 as int),
{
    let n: usize = t.len();
    let mut lo: usize = 0;
    while lo < n && (t[lo] == 32 || (9 <= t[lo] && t[lo] <= 13))
        invariant
            0 <= lo <= n,
            n == t@.len(),
            forall|j: int| 0 <= j < lo ==> is_space(#[trigger] t@[j]),
        decreases n - lo,
    {
        lo = lo + 1;
    }
    proof {
        lemma_trim_front_is_skip(t@, lo as int);
    }
    if lo == n {
        proof {
            assert(t@.skip(n as int) =~= Seq::<u8>::empty());
            assert(t@.subrange(n as int, n as int) =~= Seq::<u8>::empty());
        }
        return (n, n);
    }
    let mut hi: usize = n;
    while hi > lo && (t[hi - 1] == 32 || (9 <= t[hi - 1] && t[hi - 1] <= 13))
        invariant
            lo <= hi <= n,
            n == t@.len(),
            forall|j: int| hi <= j < n ==> is_space(#[trigger] t@[j]),
        decreases hi,
    {
        hi = hi - 1;
    }
    proof {
        assert(hi > lo) by {
            if hi == lo {
                assert(is_space(t@[lo as int]));
            }
        }
        let sk = t@.skip(lo as int);
        assert forall|j: int| hi - lo <= j < sk.len() implies is_space(#[trigger] sk[j]) by {
            assert(sk[j] == t@[j + lo]);
        }
        assert(sk[hi - lo - 1] == t@[hi - 1]);
        lemma_trim_back_is_take(sk, hi - lo);
        assert(sk.take(hi - lo) =~= t@.subrange(lo as int, hi as int));
    }
    (lo, hi)
}

/// Reads `t[start..hi]` as a decimal number of at least one digit.
fn parse_digits(t: &[u8], start: usize, hi: usize) -> (r: Option<u64>)
    requires
        start <= hi <= t@.len(),
    ensures
        ({
            let w = t@.subrange(start as int, hi as int);
            r == (if w.len() > 0 && all_digits(w) && digits_value(w) <= u64::MAX {
                Some((digits_value(w)) as u64)
            } else {
                None
            })
        }),
{
    let ghost w = t@.subrange(start as int, hi as int);
    if start == hi {
        return None;
    }
    let mut acc: u64 = 0;
    let mut i: usize = start;
    while i < hi
        invariant
            start <= i <= hi <= t@.len(),
            w == t@.subrange(start as int, hi as int),
            w.len() == hi - start,
            forall|j: int| start <= j < i ==> is_digit(#[trigger] t@[j]),
            acc as int == digits_value(t@.subrange(start as int, i as int)),
        decreases hi - i,
    {
        let b = t[i];
        if !(48 <= b && b <= 57) {
            proof {
                assert(w[i - start] == t@[i as int]);
                assert(!all_digits(w));
            }
            return None;
        }
        let d: u64 = (b - 48) as u64;
        let ghost p = t@.subrange(start as int, i + 1);
        proof {
            assert(p.drop_last() =~= t@.subrange(start as int, i as int));
            assert(p.last() == t@[i as int]);
            assert(digits_value(p) == acc as int * 10 + d);
        }
        if acc > DIGIT_LIMIT || (acc == DIGIT_LIMIT && d > 5) {
            proof {
                assert(acc as int * 10 + d > u64::MAX);
                if all_digits(w) {
                    assert(w.take(i + 1 - start) =~= p);
                    lemma_digits_value_take_le(w, i + 1 - start);
                    assert(digits_value(w) > u64::MAX);
                }
            }
            return None;
        }
        acc = acc * 10 + d;
        i = i + 1;
        proof {
            assert(acc as int == digits_value(t@.subrange(start as int, i as int)));
        }
    }
    proof {
        assert forall|j: int| 0 <= j < w.len() implies is_digit(#[trigger] w[j]) by {
            assert(w[j] == t@[j + start]);
        }
        assert(acc as int == digits_value(w));
    }
    Some(acc)
}

/// Parses one token as a decimal identifier: surrounding ASCII whitespace
/// and one leading plus sign are ignored, and the token is malformed if no
/// digit is left, a non-digit remains, or the value exceeds `u64::MAX`.
pub fn parse_token(t: &[u8]) -> (r: Option<u64>)
    ensures
        r == token_value(t@),
{
    let (lo, hi) = trim_bounds(t);
    let mut start: usize = lo;
    if start < hi && t[start] == 43 {
        start = start + 1;
    }
    proof {
        let u = t@.subrange(lo as int, hi as int);
        if u.len() > 0 && u[0] == 43 {
            assert(u[0] == t@[lo as int]);
            assert(u.drop_first() =~= t@.subrange(lo + 1, hi as int));
        }
        assert(t@.subrange(start as int, hi as int) == unsigned_body(trim(t@)));
    }
    parse_digits(t, start, hi)
}

/// Whether `x` occurs in `v`.
fn vec_contains_u64(v: &Vec<u64>, x: u64) -> (b: bool)
    ensures
        b == v@.contains(x),
{
    let mut i: usize = 0;
    while i < v.len()
        invariant
            0 <= i <= v@.len(),
            forall|j: int| 0 <= j < i ==> v@[j] != x,
        decreases v@.len() - i,
    {
        if v[i] == x {
            return true;
        }
        i = i + 1;
    }
    false
}

/// Copies `v` with every repeated occurrence of a value removed.
fn dedup_u64(v: &Vec<u64>) -> (r: Vec<u64>)
    ensures
        r@.no_duplicates(),
        r@.to_set() == v@.to_set(),
{
    let mut r: Vec<u64> = Vec::new();
    let mut i: usize = 0;
    while i < v.len()
        invariant
            0 <= i <= v@.len(),
            r@.no_duplicates(),
            r@.to_set() == v@.take(i as int).to_set(),
        decreases v@.len() - i,
    {
        let x = v[i];
        proof {
            assert(v@.take(i + 1) =~= v@.take(i as int).push(x));
            v@.take(i as int).lemma_push_to_set_commute(x);
        }
        if !vec_contains_u64(&r, x) {
            let ghost old_r = r@;
            r.push(x);
            proof {
                assert(r@ == old_r.push(x));
                assert forall|p: int, q: int| 0 <= p < q < r@.len() implies r@[p] != r@[q] by {
                    if q == r@.len() - 1 {
                        assert(r@[p] == old_r[p]);
                        assert(old_r.contains(old_r[p]) ==> old_r[p] != x);
                    }
                }
                old_r.lemma_push_to_set_commute(x);
            }
        } else {
            proof {
                assert(v@.take(i as int).to_set().contains(x));
                assert(v@.take(i as int).to_set().insert(x) =~= v@.take(i as int).to_set());
            }
        }
        i = i + 1;
    }
    proof {
        assert(v@.take(v@.len() as int) =~= v@);
    }
    r
}

/// Copies a byte slice into an owned vector.
fn bytes_to_vec(b: &[u8]) -> (r: Vec<u8>)
    ensures
        r@ == b@,
{
    let mut r: Vec<u8> = Vec::new();
    let mut i: usize = 0;
    while i < b.len()
        invariant
            0 <= i <= b@.len(),
            r@ == b@.take(i as int),
        decreases b@.len() - i,
    {
        r.push(b[i]);
        proof {
            assert(b@.take(i + 1) =~= b@.take(i as int).push(b@[i as int]));
        }
        i = i + 1;
    }
    proof {
        assert(b@.take(b@.len() as int) =~= b@);
    }
    r
}

/// Parses a comma-separated channel-list string. Every token must be a
/// decimal channel identifier; when any token is malformed, the whole list is
/// rejected and every malformed token is reported.
pub fn channels_of_interest(list: &str) -> (r: Result<Vec<u64>, ConfigError>)
    ensures
        (r is Ok) <==> malformed_tokens(list.spec_bytes()).len() == 0,
        r matches Ok(v) ==> v@.no_duplicates() && v@.to_set() == list_values(
            list.spec_bytes(),
        ).to_set(),
        r matches Err(e) ==> ({
            &&& e matches ConfigError::InvalidChannelIds(bad)
            &&& views_of(bad@) == malformed_tokens(list.spec_bytes())
        }),
{
    let bytes = list.as_bytes();
    let ghost sb = list.spec_bytes();
    let n: usize = bytes.len();
    let mut cur: Vec<u8> = Vec::new();
    let mut good: Vec<u64> = Vec::new();
    let mut bad: Vec<Vec<u8>> = Vec::new();
    let mut i: usize = 0;
    while i < n
        invariant
            bytes@ == sb,
            n == sb.len(),
            0 <= i <= n,
            list_values(sb) == good@ + scan_values(sb.skip(i as int), cur@),
            malformed_tokens(sb) == views_of(bad@) + scan_malformed(sb.skip(i as int), cur@),
        decreases n - i,
    {
        let b = bytes[i];
        proof {
            assert(sb.skip(i as int).drop_first() =~= sb.skip(i + 1));
            assert(sb.skip(i as int)[0] == sb[i as int]);
        }
        if b == 44 {
            let ghost old_good = good@;
            let ghost old_bad = bad@;
            let ghost old_cur = cur@;
            match parse_token(cur.as_slice()) {
                Some(v) => {
                    good.push(v);
                    proof {
                        assert(scan_values(sb.skip(i as int), old_cur) == seq![v] + scan_values(
                            sb.skip(i + 1),
                            Seq::empty(),
                        ));
                        assert(old_good + (seq![v] + scan_values(sb.skip(i + 1), Seq::empty()))
                            =~= good@ + scan_values(sb.skip(i + 1), Seq::empty()));
                    }
                },
                None => {
                    bad.push(cur);
                    proof {
                        assert(bad@.len() == old_bad.len() + 1);
                        assert(bad@.last()@ == old_cur);
                        assert(views_of(bad@) =~= views_of(old_bad).push(old_cur));
                        assert(scan_malformed(sb.skip(i as int), old_cur) == seq![old_cur]
                            + scan_malformed(sb.skip(i + 1), Seq::empty()));
                        assert(views_of(old_bad) + (seq![old_cur] + scan_malformed(
                            sb.skip(i + 1),
                            Seq::empty(),
                        )) =~= views_of(bad@) + scan_malformed(sb.skip(i + 1), Seq::empty()));
                    }
                },
            }
            cur = Vec::new();
        } else {
            let ghost old_cur = cur@;
            cur.push(b);
            proof {
                assert(cur@ == old_cur.push(sb[i as int]));
                assert(!is_separator(sb[i as int]));
            }
        }
        i = i + 1;
    }
    proof {
        assert(sb.skip(n as int) =~= Seq::<u8>::empty());
    }
    let ghost old_good = good@;
    let ghost old_bad = bad@;
    let ghost old_cur = cur@;
    match parse_token(cur.as_slice()) {
        Some(v) => {
            good.push(v);
            proof {
                assert(scan_values(Seq::empty(), old_cur) == seq![v]);
                assert(old_good + seq![v] =~= good@);
                assert(scan_malformed(Seq::empty(), old_cur) =~= Seq::<Seq<u8>>::empty());
                assert(views_of(old_bad) + Seq::<Seq<u8>>::empty() =~= views_of(bad@));
            }
        },
        None => {
            bad.push(cur);
            proof {
                assert(bad@.len() == old_bad.len() + 1);
                assert(bad@.last()@ == old_cur);
                assert(views_of(bad@) =~= views_of(old_bad).push(old_cur));
                assert(scan_malformed(Seq::empty(), old_cur) == seq![old_cur]);
                assert(views_of(old_bad) + seq![old_cur] =~= views_of(bad@));
                assert(scan_values(Seq::empty(), old_cur) =~= Seq::<u64>::empty());
                assert(old_good + Seq::<u64>::empty() =~= good@);
            }
        },
    }
    if bad.len() == 0 {
        proof {
            assert(views_of(bad@) =~= Seq::<Seq<u8>>::empty());
            assert(malformed_tokens(sb).len() == 0);
            assert(good@ + Seq::<u64>::empty() =~= good@);
        }
        Ok(dedup_u64(&good))
    } else {
        proof {
            assert(views_of(bad@).len() == bad@.len());
        }
        Err(ConfigError::InvalidChannelIds(bad))
    }
}

/// Whether construction was handed a usable monitored-channel source: at
/// least one of the two sources, and no malformed token in the channel-list
/// string if one was given — a malformed list is rejected even when a
/// pre-parsed set is also supplied.
pub open spec fn channel_source_ok(pre: Option<Vec<u64>>, list: Option<&str>) -> bool {
    &&& (pre is Some || list is Some)
    &&& (list matches Some(l) ==> malformed_tokens(l.spec_bytes()).len() == 0)
}

/// The monitored-channel set that a usable source denotes.
pub open spec fn configured_channels(pre: Option<Vec<u64>>, list: Option<&str>) -> Set<u64> {
    match pre {
        Some(v) => v@.to_set(),
        None => match list {
            Some(l) => list_values(l.spec_bytes()).to_set(),
            None => Set::empty(),
        },
    }
}

/// The exempt-user set that the optional allow-list denotes.
pub open spec fn configured_exempt(users: Option<Vec<u64>>) -> Set<u64> {
    match users {
        Some(v) => v@.to_set(),
        None => Set::empty(),
    }
}

/// The immutable policy store: this bot's identity, the monitored (honeypot)
/// channels, and the users exempt from enforcement. Built once at startup;
/// no mutation after construction.
#[derive(Debug)]
pub struct HoneyPotBot {
    bot_id: u64,
    /// Channels of Interest are channels that the bot will operate on.
    coi: Vec<u64>,
    excluded_users: Vec<u64>,
}

impl HoneyPotBot {
    /// The bot's own account identifier.
    pub closed spec fn identity(self) -> u64 {
        self.bot_id
    }

    /// The monitored (honeypot) channel set.
    pub closed spec fn monitored(self) -> Set<u64> {
        self.coi@.to_set()
    }

    /// The exempt-user set.
    pub closed spec fn exempt(self) -> Set<u64> {
        self.excluded_users@.to_set()
    }

    /// Each configured set is stored without duplicates.
    pub closed spec fn wf(self) -> bool {
        self.coi@.no_duplicates() && self.excluded_users@.no_duplicates()
    }

    /// Builds the policy store. The bot identity must be a decimal
    /// identifier. A channel-list string, if given, is always parsed, and
    /// rejected with every malformed token reported if any token is
    /// malformed; the monitored channels come from the pre-parsed set if one
    /// is given, otherwise from the list.
    pub fn new(
        bot_identity: &str,
        honey_pot_channels: Option<Vec<u64>>,
        channel_list: Option<&str>,
        excluded_users: Option<Vec<u64>>,
    ) -> (r: Result<HoneyPotBot, ConfigError>)
        ensures
            (r is Ok) <==> (token_value(bot_identity.spec_bytes()) is Some && channel_source_ok(
                honey_pot_channels,
                channel_list,
            )),
            r matches Ok(b) ==> b.wf() && b.identity() == token_value(
                bot_identity.spec_bytes(),
            ).unwrap() && b.monitored() == configured_channels(honey_pot_channels, channel_list)
                && b.exempt() == configured_exempt(excluded_users),
            token_value(bot_identity.spec_bytes()) is None ==> ({
                &&& r matches Err(e)
                &&& e matches ConfigError::InvalidBotIdentity(t)
                &&& t@ == bot_identity.spec_bytes()
            }),
            (token_value(bot_identity.spec_bytes()) is Some && honey_pot_channels is None
                && channel_list is None) ==> r == Result::<HoneyPotBot, ConfigError>::Err(
                ConfigError::MissingChannelSource,
            ),
            channel_list matches Some(l) ==> ((token_value(bot_identity.spec_bytes()) is Some
                && malformed_tokens(l.spec_bytes()).len() > 0) ==> ({
                &&& r matches Err(e)
                &&& e matches ConfigError::InvalidChannelIds(bad)
                &&& views_of(bad@) == malformed_tokens(l.spec_bytes())
            })),
    {
        let bot_id: u64 = match parse_token(bot_identity.as_bytes()) {
            Some(v) => v,
            None => {
                return Err(ConfigError::InvalidBotIdentity(bytes_to_vec(bot_identity.as_bytes())));
            },
        };
        let parsed_list: Option<Vec<u64>> = match channel_list {
            Some(l) => match channels_of_interest(l) {
                Ok(v) => Some(v),
                Err(e) => {
                    return Err(e);
                },
            },
            None => None,
        };
        let coi: Vec<u64> = match honey_pot_channels {
            Some(v) => dedup_u64(&v),
            None => match parsed_list {
                Some(v) => v,
                None => {
                    return Err(ConfigError::MissingChannelSource);
                },
            },
        };
        let excluded: Vec<u64> = match excluded_users {
            Some(v) => dedup_u64(&v),
            None => Vec::new(),
        };
        proof {
            assert(Seq::<u64>::empty().to_set() =~= Set::<u64>::empty());
        }
        Ok(HoneyPotBot { bot_id, coi, excluded_users: excluded })
    }

    /// The exempt users, without duplicates.
    pub fn excluded_users(&self) -> (r: &Vec<u64>)
        ensures
            r@.to_set() == self.exempt(),
    {
        &self.excluded_users
    }

    /// The monitored channels, without duplicates.
    pub fn honey_potted_channels(&self) -> (r: &Vec<u64>)
        ensures
            r@.to_set() == self.monitored(),
    {
        &self.coi
    }

    /// The bot's own account identifier.
    pub fn bot_id(&self) -> (r: u64)
        ensures
            r == self.identity(),
    {
        self.bot_id
    }

    /// Whether `channel` is a monitored (honeypot) channel.
    pub fn is_monitored(&self, channel: u64) -> (b: bool)
        ensures
            b == self.monitored().contains(channel),
    {
        vec_contains_u64(&self.coi, channel)
    }

    /// Whether `user` is exempt from enforcement.
    pub fn is_exempt(&self, user: u64) -> (b: bool)
        ensures
            b == self.exempt().contains(user),
    {
        vec_contains_u64(&self.excluded_users, user)
    }
}

} // verus!

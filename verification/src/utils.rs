//! Small utilities: clock readings, coded number strings, random identifier
//! strings, text helpers, size formatting and query-parameter lookup.
use vstd::prelude::*;

verus! {

/// Relies on std::time::SystemTime::now and duration_since: seconds since
/// the Unix epoch, or 0 if the clock stands before it. Nothing can be
/// promised of a clock reading.
#[verifier::external_body]
pub fn current_timestamp_secs() -> u64 {
    match std::time::SystemTime::now().duration_since(std::time::UNIX_EPOCH) {
        Ok(d) => d.as_secs(),
        Err(_) => 0,
    }
}

/// Relies on std::time::SystemTime::now and duration_since: milliseconds
/// since the Unix epoch, or 0 if the clock stands before it.
#[verifier::external_body]
pub fn current_timestamp() -> u128 {
    match std::time::SystemTime::now().duration_since(std::time::UNIX_EPOCH) {
        Ok(d) => d.as_millis(),
        Err(_) => 0,
    }
}

/// Relies on rand::random: a value drawn from the standard distribution.
/// Nothing holds of a random value beyond its type.
pub assume_specification<T>[ rand::random::<T> ]() -> (r: T)
    where
        rand::distributions::Standard: rand::distributions::Distribution<T>,
;

/// Relies on Iterator::collect building a String from chars: the collected
/// string holds exactly the characters of the vector, in order.
#[verifier::external_body]
fn chars_to_string(v: &Vec<char>) -> (s: String)
    ensures
        s@ == v@,
{
    v.iter().collect()
}

/// Relies on str::chars and Iterator::collect: the vector holds exactly the
/// characters of the string, in order.
#[verifier::external_body]
fn string_to_chars(s: &str) -> (v: Vec<char>)
    ensures
        v@ == s@,
{
    s.chars().collect()
}

/// The digits of `n` written with the given codec: each base-`codec.len()`
/// digit `d` of `n` stands as `codec[d]`, most significant first, and a
/// value at or below zero has no digits at all.
pub open spec fn coded_digits(codec: Seq<char>, n: int) -> Seq<char>
    decreases n,
    via coded_digits_decreases
{
    if n <= 0 || codec.len() < 2 {
        Seq::empty()
    } else {
        coded_digits(codec, n / codec.len() as int).push(codec[n % codec.len() as int])
    }
}

#[via_fn]
proof fn coded_digits_decreases(codec: Seq<char>, n: int) {
    if !(n <= 0 || codec.len() < 2) {
        assert(0 <= n / (codec.len() as int) < n) by (nonlinear_arith)
            requires
                n > 0,
                codec.len() >= 2,
        ;
    }
}

/// Every character of a coded digit string comes from its codec.
proof fn lemma_coded_digits_chars(codec: Seq<char>, n: int)
    ensures
        forall|i: int|
            0 <= i < coded_digits(codec, n).len() ==> codec.contains(
                #[trigger] coded_digits(codec, n)[i],
            ),
    decreases n,
{
    if n <= 0 || codec.len() < 2 {
    } else {
        let len = codec.len() as int;
        assert(0 <= n / len < n) by (nonlinear_arith)
            requires
                n > 0,
                len >= 2,
        ;
        lemma_coded_digits_chars(codec, n / len);
        let prefix = coded_digits(codec, n / len);
        let k = n % len;
        assert(0 <= k < len);
        assert(codec.contains(codec[k]));
        assert(coded_digits(codec, n) == prefix.push(codec[k]));
        assert forall|i: int| 0 <= i < coded_digits(codec, n).len() implies codec.contains(
            #[trigger] coded_digits(codec, n)[i],
        ) by {
            if i < prefix.len() {
                assert(coded_digits(codec, n)[i] == prefix[i]);
            } else {
                assert(coded_digits(codec, n)[i] == codec[k]);
            }
        }
    }
}

/// The coded digit string of `n`, as a character vector, built least
/// significant digit first and then put in reading order.
fn encode_digits(codec: &Vec<char>, n: u128) -> (v: Vec<char>)
    requires
        codec@.len() >= 2,
    ensures
        v@ == coded_digits(codec@, n as int),
{
    let base_len: usize = codec.len();
    let base: u128 = base_len as u128;
    let mut t: u128 = n;
    let mut rev: Vec<char> = Vec::new();
    while t > 0
        invariant
            codec@.len() >= 2,
            base_len == codec@.len(),
            base == base_len as u128,
            coded_digits(codec@, n as int) == coded_digits(codec@, t as int) + rev_chars(rev@),
        decreases t,
    {
        let dm: u128 = t % base;
        proof {
            assert(dm < base);
            assert(dm as int == (t as int) % (base as int));
            assert(dm <= base_len as u128);
        }
        let d: usize = dm as usize;
        proof {
            assert(d as int == dm as int);
        }
        let c = codec[d];
        let ghost old_rev = rev@;
        let ghost old_t = t as int;
        rev.push(c);
        t = t / base;
        proof {
            assert(d as int == old_t % (base as int));
            assert(c == codec@[old_t % (codec@.len() as int)]);
            assert(rev@.last() == c);
            assert(rev@.drop_last() =~= old_rev);
            assert(rev_chars(rev@) == seq![c] + rev_chars(old_rev));
            assert(t as int == old_t / (base as int));
            assert(coded_digits(codec@, old_t) == coded_digits(codec@, old_t / (base as int)).push(
                c,
            ));
            assert(coded_digits(codec@, old_t / (base as int)).push(c) + rev_chars(old_rev)
                =~= coded_digits(codec@, t as int) + rev_chars(rev@));
        }
    }
    let mut out: Vec<char> = Vec::new();
    while rev.len() > 0
        invariant
            coded_digits(codec@, n as int) == out@ + rev_chars(rev@),
        decreases rev.len(),
    {
        let ghost old_rev = rev@;
        let c = match rev.pop() {
            Some(c) => c,
            None => ' ',
        };
        out.push(c);
        proof {
            assert(old_rev.last() == c);
            assert(old_rev.drop_last() =~= rev@);
            assert(rev_chars(old_rev) == seq![c] + rev_chars(rev@));
            assert(out@ + rev_chars(rev@) =~= out@.drop_last() + rev_chars(old_rev));
        }
    }
    proof {
        assert(coded_digits(codec@, n as int) =~= out@ + rev_chars(rev@));
        assert(out@ + rev_chars(rev@) =~= out@);
    }
    out
}

/// A character sequence read back to front.
pub open spec fn rev_chars(s: Seq<char>) -> Seq<char>
    decreases s.len(),
{
    if s.len() == 0 {
        Seq::empty()
    } else {
        seq![s.last()] + rev_chars(s.drop_last())
    }
}

/// The ten characters that stand for the decimal digits in
/// `number_to_string`: digit `d` is written as the character for `d + 1`,
/// and `9` as `'0'`.
pub open spec fn shifted_decimal_codec() -> Seq<char> {
    seq!['1', '2', '3', '4', '5', '6', '7', '8', '9', '0']
}

/// Writes a positive number with the shifted decimal codec; zero and
/// negative values give the empty string.
pub fn number_to_string(n: i64) -> (r: String)
    ensures
        r@ == coded_digits(shifted_decimal_codec(), n as int),
{
    let codec: Vec<char> = vec!['1', '2', '3', '4', '5', '6', '7', '8', '9', '0'];
    proof {
        assert(codec@ =~= shifted_decimal_codec());
    }
    if n <= 0 {
        let empty: Vec<char> = Vec::new();
        chars_to_string(&empty)
    } else {
        let v = encode_digits(&codec, n as u128);
        chars_to_string(&v)
    }
}

/// The 32 characters used by `num_to_string`: the capital letters without
/// `I`, then the digits 2 to 9 without 6.
pub open spec fn base32_codec() -> Seq<char> {
    seq![
        'A', 'B', 'C', 'D', 'E', 'F', 'G', 'H', 'J', 'K', 'L', 'M', 'N', 'O', 'P', 'Q', 'R', 'S',
        'T', 'U', 'V', 'W', 'X', 'Y', 'Z', '2', '3', '4', '5', '7', '8', '9',
    ]
}

/// Writes a positive number in base 32 with the letter-and-digit codec;
/// zero and negative values give the empty string.
pub fn num_to_string(n: i64) -> (r: String)
    ensures
        r@ == coded_digits(base32_codec(), n as int),
{
    let codec: Vec<char> = vec![
        'A', 'B', 'C', 'D', 'E', 'F', 'G', 'H', 'J', 'K', 'L', 'M', 'N', 'O', 'P', 'Q', 'R', 'S',
        'T', 'U', 'V', 'W', 'X', 'Y', 'Z', '2', '3', '4', '5', '7', '8', '9',
    ];
    proof {
        assert(codec@ =~= base32_codec());
    }
    if n <= 0 {
        let empty: Vec<char> = Vec::new();
        chars_to_string(&empty)
    } else {
        let v = encode_digits(&codec, n as u128);
        chars_to_string(&v)
    }
}

/// True of the characters that `number_to_string` can produce.
pub open spec fn is_shifted_decimal_char(c: char) -> bool {
    shifted_decimal_codec().contains(c)
}

/// True of the characters that `num_to_string` can produce.
pub open spec fn is_base32_char(c: char) -> bool {
    base32_codec().contains(c)
}

/// A random string of decimal digit characters of exactly the asked length,
/// built by concatenating shifted-decimal writings of random draws.
pub fn generate_rand_numberstring(len: usize) -> (r: String)
    ensures
        r@.len() == len,
        forall|i: int| 0 <= i < r@.len() ==> is_shifted_decimal_char(#[trigger] r@[i]),
{
    let mut chars: Vec<char> = Vec::new();
    while chars.len() < len
        invariant
            chars@.len() <= len,
            forall|i: int| 0 <= i < chars@.len() ==> is_shifted_decimal_char(#[trigger] chars@[i]),
        decreases len - chars@.len(),
    {
        let rng: u16 = rand::random::<u16>();
        let key = number_to_string(rng as i64);
        let kc = string_to_chars(key.as_str());
        proof {
            lemma_coded_digits_chars(shifted_decimal_codec(), rng as int);
        }
        if kc.len() == 0 {
            // a draw of zero writes no digits; keep one so the string still fills
            chars.push('1');
            proof {
                assert(shifted_decimal_codec().contains('1'));
            }
        } else {
            let ghost c0 = chars@.len();
            let mut j: usize = 0;
            while j < kc.len() && chars.len() < len
                invariant
                    j <= kc@.len(),
                    chars@.len() == c0 + j || chars@.len() == len,
                    chars@.len() <= len,
                    kc@ == coded_digits(shifted_decimal_codec(), rng as int),
                    forall|i: int|
                        0 <= i < chars@.len() ==> is_shifted_decimal_char(#[trigger] chars@[i]),
                decreases kc@.len() - j,
            {
                proof {
                    lemma_coded_digits_chars(shifted_decimal_codec(), rng as int);
                }
                chars.push(kc[j]);
                j += 1;
            }
        }
    }
    chars.truncate(len);
    proof {
        assert(chars@.len() == len);
    }
    chars_to_string(&chars)
}

/// A random string over the base-32 letter-and-digit codec of exactly the
/// asked length.
pub fn generate_rand_string(len: usize) -> (r: String)
    ensures
        r@.len() == len,
        forall|i: int| 0 <= i < r@.len() ==> is_base32_char(#[trigger] r@[i]),
{
    let mut chars: Vec<char> = Vec::new();
    while chars.len() < len
        invariant
            chars@.len() <= len,
            forall|i: int| 0 <= i < chars@.len() ==> is_base32_char(#[trigger] chars@[i]),
        decreases len - chars@.len(),
    {
        let rng: u16 = rand::random::<u16>();
        let key = num_to_string(rng as i64);
        let kc = string_to_chars(key.as_str());
        proof {
            lemma_coded_digits_chars(base32_codec(), rng as int);
        }
        if kc.len() == 0 {
            // a draw of zero writes no digits; keep one so the string still fills
            chars.push('A');
            proof {
                assert(base32_codec().contains('A'));
            }
        } else {
            let ghost c0 = chars@.len();
            let mut j: usize = 0;
            while j < kc.len() && chars.len() < len
                invariant
                    j <= kc@.len(),
                    chars@.len() == c0 + j || chars@.len() == len,
                    chars@.len() <= len,
                    kc@ == coded_digits(base32_codec(), rng as int),
                    forall|i: int| 0 <= i < chars@.len() ==> is_base32_char(#[trigger] chars@[i]),
                decreases kc@.len() - j,
            {
                proof {
                    lemma_coded_digits_chars(base32_codec(), rng as int);
                }
                chars.push(kc[j]);
                j += 1;
            }
        }
    }
    chars.truncate(len);
    chars_to_string(&chars)
}

/// The 56 characters used by `num_to_string_v2`: both letter cases
/// without the easily mistaken ones, then the digits without 0 and 1.
pub open spec fn base56_codec() -> Seq<char> {
    seq![
        'a', 'b', 'c', 'd', 'e', 'f', 'g', 'h', 'j', 'k', 'l', 'm', 'n', 'p', 'q', 'r', 's', 't',
        'u', 'v', 'w', 'x', 'y', 'z', 'A', 'B', 'C', 'D', 'E', 'F', 'G', 'H', 'J', 'K', 'L', 'M',
        'N', 'P', 'Q', 'R', 'S', 'T', 'U', 'V', 'W', 'X', 'Y', 'Z', '2', '3', '4', '5', '6', '7',
        '8', '9',
    ]
}

/// True of the characters that `num_to_string_v2` can produce.
pub open spec fn is_base56_char(c: char) -> bool {
    base56_codec().contains(c)
}

/// Writes a positive number in base 56 with the mixed-case codec; zero
/// and negative values give the empty string.
pub fn num_to_string_v2(n: i64) -> (r: String)
    ensures
        r@ == coded_digits(base56_codec(), n as int),
{
    let codec: Vec<char> = vec![
        'a', 'b', 'c', 'd', 'e', 'f', 'g', 'h', 'j', 'k', 'l', 'm', 'n', 'p', 'q', 'r', 's', 't',
        'u', 'v', 'w', 'x', 'y', 'z', 'A', 'B', 'C', 'D', 'E', 'F', 'G', 'H', 'J', 'K', 'L', 'M',
        'N', 'P', 'Q', 'R', 'S', 'T', 'U', 'V', 'W', 'X', 'Y', 'Z', '2', '3', '4', '5', '6', '7',
        '8', '9',
    ];
    proof {
        assert(codec@ =~= base56_codec());
    }
    if n <= 0 {
        let empty: Vec<char> = Vec::new();
        chars_to_string(&empty)
    } else {
        let v = encode_digits(&codec, n as u128);
        chars_to_string(&v)
    }
}

/// A random string over the base-56 mixed-case codec of exactly the asked
/// length.
pub fn generate_rand_string_v2(len: usize) -> (r: String)
    ensures
        r@.len() == len,
        forall|i: int| 0 <= i < r@.len() ==> is_base56_char(#[trigger] r@[i]),
{
    let mut chars: Vec<char> = Vec::new();
    while chars.len() < len
        invariant
            chars@.len() <= len,
            forall|i: int| 0 <= i < chars@.len() ==> is_base56_char(#[trigger] chars@[i]),
        decreases len - chars@.len(),
    {
        let rng: u16 = rand::random::<u16>();
        let key = num_to_string_v2(rng as i64);
        let kc = string_to_chars(key.as_str());
        proof {
            lemma_coded_digits_chars(base56_codec(), rng as int);
        }
        if kc.len() == 0 {
            // a draw of zero writes no digits; keep one so the string still fills
            chars.push('a');
            proof {
                assert(base56_codec().contains('a'));
            }
        } else {
            let ghost c0 = chars@.len();
            let mut j: usize = 0;
            while j < kc.len() && chars.len() < len
                invariant
                    j <= kc@.len(),
                    chars@.len() == c0 + j || chars@.len() == len,
                    chars@.len() <= len,
                    kc@ == coded_digits(base56_codec(), rng as int),
                    forall|i: int| 0 <= i < chars@.len() ==> is_base56_char(#[trigger] chars@[i]),
                decreases kc@.len() - j,
            {
                proof {
                    lemma_coded_digits_chars(base56_codec(), rng as int);
                }
                chars.push(kc[j]);
                j += 1;
            }
        }
    }
    chars.truncate(len);
    chars_to_string(&chars)
}

/// Relies on std::time::SystemTime::now and duration_since: milliseconds
/// since the Unix epoch as a machine word, or 0 if the clock stands
/// before the epoch or past the word's range.
#[verifier::external_body]
pub fn get_local_timestamp() -> u64 {
    match std::time::SystemTime::now().duration_since(std::time::UNIX_EPOCH) {
        Ok(d) => u64::try_from(d.as_millis()).unwrap_or(0),
        Err(_) => 0,
    }
}

/// The line-break marker that `text_insert_br` writes between lines.
pub open spec fn br_text() -> Seq<char> {
    seq!['<', 'b', 'r', ' ', '/', '>']
}

/// The text with each line ending replaced by the break marker: a line
/// ending is a newline or a carriage return directly before one, and a
/// trailing line ending is dropped rather than replaced.
pub open spec fn insert_br(s: Seq<char>) -> Seq<char>
    decreases s.len(),
{
    if s.len() == 0 {
        Seq::empty()
    } else if s[0] == '\n' || (s[0] == '\r' && s.len() >= 2 && s[1] == '\n') {
        let rest = if s[0] == '\n' {
            s.skip(1)
        } else {
            s.skip(2)
        };
        if rest.len() == 0 {
            Seq::empty()
        } else {
            br_text() + insert_br(rest)
        }
    } else {
        seq![s[0]] + insert_br(s.skip(1))
    }
}

/// Replaces each line ending of the text by the HTML break marker; absent
/// text stays absent.
pub fn text_insert_br(oldtext: Option<String>) -> (r: Option<String>)
    ensures
        oldtext is None ==> r is None,
        oldtext matches Some(s) ==> r matches Some(t) && t@ == insert_br(s@),
{
    let text = match oldtext {
        None => {
            return None;
        },
        Some(t) => t,
    };
    let cs = string_to_chars(text.as_str());
    let mut out: Vec<char> = Vec::new();
    let n = cs.len();
    proof {
        assert(cs@.skip(0) =~= cs@);
    }
    let mut i: usize = 0;
    while i < n
        invariant
            n == cs@.len(),
            i <= n,
            insert_br(cs@) == out@ + insert_br(cs@.skip(i as int)),
        decreases n - i,
    {
        let ghost pre_out = out@;
        let ghost tail = cs@.skip(i as int);
        let c = cs[i];
        let two = c == '\r' && i + 1 < n && cs[i + 1] == '\n';
        if c == '\n' || two {
            let step: usize = if two {
                2
            } else {
                1
            };
            proof {
                assert(tail[0] == c);
                if two {
                    assert(tail.len() >= 2 && tail[1] == cs@[i + 1]);
                }
                assert(tail.skip(step as int) =~= cs@.skip(i + step));
            }
            if i + step < n {
                out.push('<');
                out.push('b');
                out.push('r');
                out.push(' ');
                out.push('/');
                out.push('>');
                proof {
                    assert(cs@.skip(i + step).len() > 0);
                    assert(insert_br(tail) == br_text() + insert_br(cs@.skip(i + step)));
                    assert(out@ =~= pre_out + br_text());
                    assert(out@ + insert_br(cs@.skip(i + step)) =~= pre_out + insert_br(tail));
                }
            } else {
                proof {
                    assert(cs@.skip(i + step).len() == 0);
                    assert(insert_br(tail) =~= Seq::<char>::empty());
                    assert(insert_br(cs@.skip(i + step)) =~= Seq::<char>::empty());
                }
            }
            i += step;
        } else {
            out.push(c);
            proof {
                assert(tail[0] == c);
                assert(tail.skip(1) =~= cs@.skip(i + 1));
                assert(insert_br(tail) == seq![c] + insert_br(cs@.skip(i + 1)));
                assert(out@ =~= pre_out.push(c));
                assert(out@ + insert_br(cs@.skip(i + 1)) =~= pre_out + insert_br(tail));
            }
            i += 1;
        }
    }
    proof {
        assert(cs@.skip(n as int).len() == 0);
        assert(insert_br(cs@.skip(n as int)) =~= Seq::<char>::empty());
        assert(out@ =~= insert_br(cs@));
    }
    Some(chars_to_string(&out))
}

/// The value under the first pair whose key matches, if any.
pub open spec fn pairs_lookup(s: Seq<(String, String)>, k: Seq<char>) -> Option<Seq<char>>
    decreases s.len(),
{
    if s.len() == 0 {
        Option::None
    } else if s[0].0@ == k {
        Option::Some(s[0].1@)
    } else {
        pairs_lookup(s.drop_first(), k)
    }
}

/// The first match of a scan is what `pairs_lookup` answers.
proof fn lemma_pairs_lookup_at(s: Seq<(String, String)>, k: Seq<char>, i: int)
    requires
        0 <= i < s.len(),
        s[i].0@ == k,
        forall|j: int| 0 <= j < i ==> s[j].0@ != k,
    ensures
        pairs_lookup(s, k) == Option::Some(s[i].1@),
    decreases i,
{
    if i > 0 {
        let rest = s.drop_first();
        assert(rest[i - 1] == s[i]);
        assert(forall|j: int| 0 <= j < i - 1 ==> #[trigger] rest[j].0@ == s[j + 1].0@);
        lemma_pairs_lookup_at(rest, k, i - 1);
    }
}

/// A key no pair carries has no lookup answer.
proof fn lemma_pairs_lookup_absent(s: Seq<(String, String)>, k: Seq<char>)
    requires
        forall|j: int| 0 <= j < s.len() ==> s[j].0@ != k,
    ensures
        pairs_lookup(s, k) is None,
    decreases s.len(),
{
    if s.len() > 0 {
        lemma_pairs_lookup_absent(s.drop_first(), k);
    }
}

/// The value under a key among query parameters, or the empty string when
/// the key is absent.
pub fn get_hash_value(query_params: &Vec<(String, String)>, key: &str) -> (r: String)
    ensures
        pairs_lookup(query_params@, key@) matches Some(v) ==> r@ == v,
        pairs_lookup(query_params@, key@) is None ==> r@.len() == 0,
{
    let k: String = key.to_owned();
    let n = query_params.len();
    let mut i: usize = 0;
    while i < n
        invariant
            n == query_params@.len(),
            k@ == key@,
            i <= n,
            forall|j: int| 0 <= j < i ==> query_params@[j].0@ != key@,
        decreases n - i,
    {
        if query_params[i].0 == k {
            proof {
                lemma_pairs_lookup_at(query_params@, key@, i as int);
            }
            return query_params[i].1.clone();
        }
        i += 1;
    }
    proof {
        lemma_pairs_lookup_absent(query_params@, key@);
    }
    String::new()
}

/// How many bytes a kibibyte, mebibyte, gibibyte and tebibyte hold.
pub const KB: u64 = 1024;

/// See `KB`.
pub const MB: u64 = 1048576;

/// See `KB`.
pub const GB: u64 = 1073741824;

/// See `KB`.
pub const TB: u64 = 1099511627776;

/// The ten decimal digit characters in order.
pub open spec fn decimal_codec() -> Seq<char> {
    seq!['0', '1', '2', '3', '4', '5', '6', '7', '8', '9']
}

/// The plain decimal digits of a positive value; zero has none.
pub open spec fn dec_digits(n: int) -> Seq<char> {
    coded_digits(decimal_codec(), n)
}

/// A value written in decimal, zero as one digit.
pub open spec fn dec_string(n: int) -> Seq<char> {
    if n == 0 {
        seq!['0']
    } else {
        dec_digits(n)
    }
}

/// A fraction of hundredths written with exactly two digits.
pub open spec fn two_digit_frac(f: int) -> Seq<char> {
    if f < 10 {
        seq!['0'] + dec_string(f)
    } else {
        dec_digits(f)
    }
}

/// A size scaled against a unit, in hundredths rounded half up.
pub open spec fn scaled_hundredths(len: int, unit: int) -> int {
    (len * 100 + unit / 2) / unit
}

/// A size against a unit as "whole.fraction" with two fraction digits,
/// followed by the unit's suffix.
pub open spec fn unit_chars(len: int, unit: int, suffix: Seq<char>) -> Seq<char> {
    let h = scaled_hundredths(len, unit);
    dec_string(h / 100) + seq!['.'] + two_digit_frac(h % 100) + suffix
}

/// A byte count written for people: scaled to the largest binary unit it
/// reaches with two rounded fraction digits, or as a plain count of bytes
/// below one kibibyte.
pub open spec fn file_size_text(len: int) -> Seq<char> {
    if len >= TB {
        unit_chars(len, TB as int, seq!['T', 'B'])
    } else if len >= GB {
        unit_chars(len, GB as int, seq!['G', 'B'])
    } else if len >= MB {
        unit_chars(len, MB as int, seq!['M', 'B'])
    } else if len >= KB {
        unit_chars(len, KB as int, seq!['K', 'B'])
    } else {
        dec_string(len) + seq![' ', 'B']
    }
}

/// The decimal digit characters, as a vector for encoding.
fn decimal_codec_vec() -> (v: Vec<char>)
    ensures
        v@ == decimal_codec(),
{
    let v: Vec<char> = vec!['0', '1', '2', '3', '4', '5', '6', '7', '8', '9'];
    proof {
        assert(v@ =~= decimal_codec());
    }
    v
}

/// Appends a value's decimal writing, zero as one digit.
fn push_dec_string(out: &mut Vec<char>, n: u128)
    ensures
        final(out)@ == old(out)@ + dec_string(n as int),
{
    let ghost pre = out@;
    if n == 0 {
        out.push('0');
        proof {
            assert(out@ =~= pre + dec_string(0));
        }
    } else {
        let codec = decimal_codec_vec();
        let digits = encode_digits(&codec, n);
        let m = digits.len();
        let mut j: usize = 0;
        while j < m
            invariant
                m == digits@.len(),
                j <= m,
                out@ == pre + digits@.take(j as int),
            decreases m - j,
        {
            out.push(digits[j]);
            j += 1;
            proof {
                assert(digits@.take(j as int) =~= digits@.take(j - 1).push(digits@[j - 1]));
                assert(out@ =~= pre + digits@.take(j as int));
            }
        }
        proof {
            assert(digits@.take(m as int) =~= digits@);
            assert(out@ =~= pre + dec_string(n as int));
        }
    }
}

/// A size against one unit, as its spec writes it.
fn unit_size_chars(l: u128, unit: u64, u1: char) -> (v: Vec<char>)
    requires
        unit >= 2,
        l <= 0xffff_ffff_ffff_ffff,
    ensures
        v@ == unit_chars(l as int, unit as int, seq![u1, 'B']),
{
    let u: u128 = unit as u128;
    let h: u128 = (l * 100 + u / 2) / u;
    proof {
        assert(h as int == scaled_hundredths(l as int, unit as int));
    }
    let int_part: u128 = h / 100;
    let frac: u128 = h % 100;
    let mut v: Vec<char> = Vec::new();
    push_dec_string(&mut v, int_part);
    v.push('.');
    let ghost before_frac = v@;
    if frac < 10 {
        v.push('0');
        push_dec_string(&mut v, frac);
        proof {
            assert(v@ =~= before_frac + two_digit_frac(frac as int));
        }
    } else {
        let codec = decimal_codec_vec();
        let digits = encode_digits(&codec, frac);
        let m = digits.len();
        let mut j: usize = 0;
        while j < m
            invariant
                m == digits@.len(),
                j <= m,
                v@ == before_frac + digits@.take(j as int),
            decreases m - j,
        {
            v.push(digits[j]);
            j += 1;
            proof {
                assert(digits@.take(j as int) =~= digits@.take(j - 1).push(digits@[j - 1]));
                assert(v@ =~= before_frac + digits@.take(j as int));
            }
        }
        proof {
            assert(digits@.take(m as int) =~= digits@);
            assert(v@ =~= before_frac + two_digit_frac(frac as int));
        }
    }
    v.push(u1);
    v.push('B');
    proof {
        assert(v@ =~= dec_string(int_part as int) + seq!['.'] + two_digit_frac(frac as int) + seq![
            u1,
            'B',
        ]);
        assert(int_part as int == scaled_hundredths(l as int, unit as int) / 100);
        assert(frac as int == scaled_hundredths(l as int, unit as int) % 100);
    }
    v
}

/// A byte count written for people, scaled to its largest binary unit.
pub fn file_size_format(len: usize) -> (r: String)
    ensures
        r@ == file_size_text(len as int),
{
    let l: u128 = len as u128;
    proof {
        assert(l <= 0xffff_ffff_ffff_ffff);
    }
    if l >= TB as u128 {
        let v = unit_size_chars(l, TB, 'T');
        chars_to_string(&v)
    } else if l >= GB as u128 {
        let v = unit_size_chars(l, GB, 'G');
        chars_to_string(&v)
    } else if l >= MB as u128 {
        let v = unit_size_chars(l, MB, 'M');
        chars_to_string(&v)
    } else if l >= KB as u128 {
        let v = unit_size_chars(l, KB, 'K');
        chars_to_string(&v)
    } else {
        let mut v: Vec<char> = Vec::new();
        push_dec_string(&mut v, l);
        v.push(' ');
        v.push('B');
        proof {
            assert(v@ =~= dec_string(len as int) + seq![' ', 'B']);
        }
        chars_to_string(&v)
    }
}

} // verus!

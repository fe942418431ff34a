//! The mount-option mini-language: comma-separated `key` or `key=value` tokens.

use vstd::prelude::*;
use vstd::string::StrSliceExecFns;

verus! {

/// Settings provided with the command-line flag `-o`.
#[derive(Debug)]
pub struct MountOptions {
    /// The initial random number.
    pub seed: u64,
}

/// Errors that may come up when updating `MountOptions` from a string of parameters.
#[derive(PartialEq, Eq, Debug)]
pub enum UpdateError {
    /// Parameter expects a hexadecimal number, but the value contains non-hexadecimal digits.
    NonHexValue { parameter: String, value: String },
    /// Parameter requires a value, but none/empty one was provided.
    NoValue { parameter: String },
    /// The value is longer than the parameter allows.
    ValueTooLong { parameter: String, value: String, max_allowed_length: usize },
    /// No such parameter exists.
    UnsupportedParameter { parameter: String, value: String },
}

/// What an `UpdateError` says, with its strings as character sequences.
pub enum UpdateErrorView {
    NonHexValue { parameter: Seq<char>, value: Seq<char> },
    NoValue { parameter: Seq<char> },
    ValueTooLong { parameter: Seq<char>, value: Seq<char>, max_allowed_length: usize },
    UnsupportedParameter { parameter: Seq<char>, value: Seq<char> },
}

impl View for UpdateError {
    type V = UpdateErrorView;

    open spec fn view(&self) -> UpdateErrorView {
        match self {
            UpdateError::NonHexValue { parameter, value } => UpdateErrorView::NonHexValue {
                parameter: parameter@,
                value: value@,
            },
            UpdateError::NoValue { parameter } => UpdateErrorView::NoValue {
                parameter: parameter@,
            },
            UpdateError::ValueTooLong { parameter, value, max_allowed_length } =>
                UpdateErrorView::ValueTooLong {
                parameter: parameter@,
                value: value@,
                max_allowed_length: *max_allowed_length,
            },
            UpdateError::UnsupportedParameter { parameter, value } =>
                UpdateErrorView::UnsupportedParameter { parameter: parameter@, value: value@ },
        }
    }
}

/// The longest value, in hexadecimal digits, that `seed` takes.
pub const MAX_SEED_DIGITS: usize = 16;

/// Position of the first `c` in `s`, or `s.len()` where there is none.
pub open spec fn index_of(s: Seq<char>, c: char) -> int
    decreases s.len(),
{
    if s.len() == 0 {
        0
    } else if s[0] == c {
        0
    } else {
        1 + index_of(s.drop_first(), c)
    }
}

/// Key and value of one token: split at the first `=`; with none, the value is empty.
pub open spec fn split_kv(kv: Seq<char>) -> (Seq<char>, Seq<char>) {
    let i = index_of(kv, '=');
    if 0 <= i < kv.len() {
        (kv.subrange(0, i), kv.subrange(i + 1, kv.len() as int))
    } else {
        (kv, Seq::empty())
    }
}

/// The name of the one parameter there is.
pub open spec fn seed_key() -> Seq<char> {
    seq!['s', 'e', 'e', 'd']
}

pub open spec fn is_hex_digit(c: char) -> bool {
    ('0' as u32 <= c as u32 <= '9' as u32) || ('a' as u32 <= c as u32 <= 'f' as u32) || (
    'A' as u32 <= c as u32 <= 'F' as u32)
}

pub open spec fn hex_digit_value(c: char) -> nat {
    if '0' as u32 <= c as u32 <= '9' as u32 {
        (c as u32 - '0' as u32) as nat
    } else if 'a' as u32 <= c as u32 <= 'f' as u32 {
        (c as u32 - 'a' as u32 + 10) as nat
    } else {
        (c as u32 - 'A' as u32 + 10) as nat
    }
}

pub open spec fn all_hex(s: Seq<char>) -> bool {
    forall|i: int| 0 <= i < s.len() ==> #[trigger] is_hex_digit(s[i])
}

/// The number that a string of hexadecimal digits denotes.
pub open spec fn hex_value(s: Seq<char>) -> nat
    decreases s.len(),
{
    if s.len() == 0 {
        0
    } else {
        hex_value(s.drop_last()) * 16 + hex_digit_value(s.last())
    }
}

pub open spec fn pow16(n: nat) -> nat
    decreases n,
{
    if n == 0 {
        1
    } else {
        16 * pow16((n - 1) as nat)
    }
}

/// The seed that one token sets, or the error it raises.
pub open spec fn token_result(token: Seq<char>) -> Result<u64, UpdateErrorView> {
    let parameter = split_kv(token).0;
    let value = split_kv(token).1;
    if parameter == seed_key() {
        if value.len() == 0 {
            Err(UpdateErrorView::NoValue { parameter })
        } else if !all_hex(value) {
            Err(UpdateErrorView::NonHexValue { parameter, value })
        } else if value.len() > MAX_SEED_DIGITS {
            Err(UpdateErrorView::ValueTooLong {
                parameter,
                value,
                max_allowed_length: MAX_SEED_DIGITS,
            })
        } else {
            Ok(hex_value(value) as u64)
        }
    } else {
        Err(UpdateErrorView::UnsupportedParameter { parameter, value })
    }
}

/// Applying the tokens of `s` left to right from `seed`: the seed reached,
/// and the error of the first token that fails, where one does.
pub open spec fn apply_options(seed: u64, s: Seq<char>) -> (u64, Option<UpdateErrorView>)
    decreases s.len(),
{
    let i = index_of(s, ',');
    match token_result(s.subrange(0, if 0 <= i <= s.len() { i } else { 0 })) {
        Err(e) => (seed, Some(e)),
        Ok(new_seed) => if 0 <= i < s.len() {
            apply_options(new_seed, s.subrange(i + 1, s.len() as int))
        } else {
            (new_seed, None)
        },
    }
}

proof fn lemma_index_of(s: Seq<char>, c: char)
    ensures
        0 <= index_of(s, c) <= s.len(),
        index_of(s, c) < s.len() ==> s[index_of(s, c)] == c,
        forall|k: int| 0 <= k < index_of(s, c) ==> s[k] != c,
    decreases s.len(),
{
    if s.len() > 0 && s[0] != c {
        lemma_index_of(s.drop_first(), c);
        assert forall|k: int| 0 <= k < index_of(s, c) implies s[k] != c by {
            if k > 0 {
                assert(s[k] == s.drop_first()[k - 1]);
            }
        }
    }
}

/// Where `i` holds a `c`, or is the end, and no `c` comes before it, `i` is where the first `c` is.
proof fn lemma_index_of_is(s: Seq<char>, c: char, i: int)
    requires
        0 <= i <= s.len(),
        i < s.len() ==> s[i] == c,
        forall|k: int| 0 <= k < i ==> s[k] != c,
    ensures
        index_of(s, c) == i,
    decreases s.len(),
{
    if s.len() > 0 && s[0] != c {
        assert forall|k: int| 0 <= k < i - 1 implies s.drop_first()[k] != c by {
            assert(s[k + 1] != c);
        }
        lemma_index_of_is(s.drop_first(), c, i - 1);
    }
}

/// Position of the first `c` in `s`, or its length in characters where there is none.
fn find_char(s: &str, c: char) -> (r: usize)
    ensures
        r == index_of(s@, c),
{
    let n = s.unicode_len();
    let mut i: usize = 0;
    while i < n && s.get_char(i) != c
        invariant
            n == s@.len(),
            i <= n,
            forall|k: int| 0 <= k < i ==> s@[k] != c,
        decreases n - i,
    {
        i += 1;
    }
    proof {
        lemma_index_of_is(s@, c, i as int);
    }
    i
}

/// Split a key-value pair into the key and the value (which are separated by `=`).
///
/// If `kv` contains no separator, the whole input is treated as key, and the value is empty. If
/// `kv` contains multiple equals signs, the first one is treated as separator. If `kv` is empty,
/// both the key and the value are empty.
pub fn split_key_value(kv: &str) -> (r: (&str, &str))
    ensures
        (r.0@, r.1@) == split_kv(kv@),
{
    let n = kv.unicode_len();
    let i = find_char(kv, '=');
    proof {
        lemma_index_of(kv@, '=');
    }
    if i < n {
        let key = kv.substring_char(0, i);
        let value = kv.substring_char(i + 1, n);
        (key, value)
    } else {
        let key = kv.substring_char(0, n);
        let value = kv.substring_char(n, n);
        assert(key@ =~= kv@);
        assert(value@ =~= Seq::<char>::empty());
        (key, value)
    }
}

/// What `parse_token`'s result says, with the error's strings as sequences.
pub open spec fn token_result_view(r: Result<u64, UpdateError>) -> Result<u64, UpdateErrorView> {
    match r {
        Ok(v) => Ok(v),
        Err(e) => Err(e@),
    }
}

proof fn lemma_pow16_le(a: nat, b: nat)
    requires
        a <= b,
    ensures
        pow16(a) <= pow16(b),
    decreases b,
{
    if a < b {
        lemma_pow16_le(a, (b - 1) as nat);
    }
}

fn is_seed_key(p: &str) -> (r: bool)
    ensures
        r == (p@ == seed_key()),
{
    if p.unicode_len() != 4 {
        return false;
    }
    let r = p.get_char(0) == 's' && p.get_char(1) == 'e' && p.get_char(2) == 'e' && p.get_char(3)
        == 'd';
    assert(r ==> p@ =~= seed_key());
    r
}

fn hex_digit(c: char) -> (r: Option<u64>)
    ensures
        r is Some <==> is_hex_digit(c),
        r matches Some(d) ==> d == hex_digit_value(c) && d < 16,
{
    let u = c as u32;
    if '0' as u32 <= u && u <= '9' as u32 {
        Some((u - '0' as u32) as u64)
    } else if 'a' as u32 <= u && u <= 'f' as u32 {
        Some((u - 'a' as u32 + 10) as u64)
    } else if 'A' as u32 <= u && u <= 'F' as u32 {
        Some((u - 'A' as u32 + 10) as u64)
    } else {
        None
    }
}

fn is_all_hex(s: &str) -> (r: bool)
    ensures
        r == all_hex(s@),
{
    let n = s.unicode_len();
    let mut i: usize = 0;
    while i < n
        invariant
            n == s@.len(),
            i <= n,
            forall|k: int| 0 <= k < i ==> #[trigger] is_hex_digit(s@[k]),
        decreases n - i,
    {
        if hex_digit(s.get_char(i)).is_none() {
            return false;
        }
        i += 1;
    }
    true
}

/// The number that a string of at most sixteen hexadecimal digits denotes.
fn parse_hex(s: &str) -> (r: u64)
    requires
        all_hex(s@),
        s@.len() <= MAX_SEED_DIGITS,
    ensures
        r == hex_value(s@),
{
    let n = s.unicode_len();
    let mut acc: u64 = 0;
    let mut i: usize = 0;
    proof {
        reveal_with_fuel(pow16, 17);
        assert(s@.subrange(0, 0) =~= Seq::<char>::empty());
    }
    assert(pow16(16) == 0x1_0000_0000_0000_0000nat);
    while i < n
        invariant
            n == s@.len(),
            n <= 16,
            i <= n,
            all_hex(s@),
            acc == hex_value(s@.subrange(0, i as int)),
            acc < pow16(i as nat),
            pow16(16) == 0x1_0000_0000_0000_0000nat,
        decreases n - i,
    {
        let c = s.get_char(i);
        assert(is_hex_digit(s@[i as int]));
        let d = match hex_digit(c) {
            Some(d) => d,
            None => 0,
        };
        proof {
            lemma_pow16_le((i + 1) as nat, 16);
            assert(s@.subrange(0, i + 1).drop_last() =~= s@.subrange(0, i as int));
            assert(acc * 16 + d < 16 * pow16(i as nat)) by (nonlinear_arith)
                requires
                    acc < pow16(i as nat),
                    d < 16,
            ;
        }
        acc = acc * 16 + d;
        i += 1;
    }
    assert(s@.subrange(0, n as int) =~= s@);
    acc
}

/// The seed that one `key=value` token sets, or the error it raises.
fn parse_token(token: &str) -> (r: Result<u64, UpdateError>)
    ensures
        token_result_view(r) == token_result(token@),
{
    let (parameter, value) = split_key_value(token);
    if is_seed_key(parameter) {
        if value.unicode_len() == 0 {
            return Err(UpdateError::NoValue { parameter: parameter.to_owned() });
        }
        if !is_all_hex(value) {
            return Err(
                UpdateError::NonHexValue { parameter: parameter.to_owned(), value: value.to_owned() },
            );
        }
        if value.unicode_len() > MAX_SEED_DIGITS {
            return Err(
                UpdateError::ValueTooLong {
                    max_allowed_length: MAX_SEED_DIGITS,
                    parameter: parameter.to_owned(),
                    value: value.to_owned(),
                },
            );
        }
        Ok(parse_hex(value))
    } else {
        Err(
            UpdateError::UnsupportedParameter {
                parameter: parameter.to_owned(),
                value: value.to_owned(),
            },
        )
    }
}

impl Default for MountOptions {
    /// Options with seed 0; a program that wants a seed of its own per run
    /// passes one to `MountOptions::new`.
    fn default() -> (r: MountOptions)
        ensures
            r.seed == 0,
    {
        MountOptions { seed: 0 }
    }
}

impl MountOptions {
    /// Options whose seed, until a `seed=` option overrides it, is `default_seed`.
    pub fn new(default_seed: u64) -> (r: MountOptions)
        ensures
            r.seed == default_seed,
    {
        MountOptions { seed: default_seed }
    }

    /// Given a string like "seed=123ff", store the values in the appropriate
    /// fields of `MountOptions`, token by token from the left.
    ///
    /// The seed holds what the tokens before the first bad one set; that
    /// token's error is returned.
    pub fn update_from(&mut self, parameters: &str) -> (r: Result<(), UpdateError>)
        ensures
            final(self).seed == apply_options(old(self).seed, parameters@).0,
            match apply_options(old(self).seed, parameters@).1 {
                None => r is Ok,
                Some(e) => r matches Err(got) && got@ == e,
            },
    {
        let mut rest: &str = parameters;
        loop
            invariant
                apply_options(self.seed, rest@) == apply_options(old(self).seed, parameters@),
            decreases rest@.len(),
        {
            let n = rest.unicode_len();
            let i = find_char(rest, ',');
            proof {
                lemma_index_of(rest@, ',');
            }
            let token = rest.substring_char(0, i);
            match parse_token(token) {
                Err(e) => {
                    return Err(e);
                },
                Ok(seed) => {
                    self.seed = seed;
                },
            }
            if i == n {
                return Ok(());
            }
            rest = rest.substring_char(i + 1, n);
        }
    }
}

} // verus!

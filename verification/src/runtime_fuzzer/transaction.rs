use vstd::prelude::*;

use crate::bytes::{byte_lists, copy_byte_lists};
use crate::decimal::{decimal_string, digit_char};
use crate::fuzzer_engine::{inputs_view, RadixRuntimeFuzzerInput};

pub use crate::fuzzer_common::transaction::RadixRuntimeFuzzerTransaction;

verus! {

/// The prefix of the strings that name a recorded invocation.
pub const INVOKE_MAGIC_STRING: &'static str = "INVOKE";

/// The string with every occurrence of `pattern` removed, scanning from the
/// left and skipping over each match.
pub open spec fn remove_all(s: Seq<char>, pattern: Seq<char>) -> Seq<char>
    decreases s.len(),
{
    if pattern.len() == 0 || s.len() < pattern.len() {
        s
    } else if s.subrange(0, pattern.len() as int) == pattern {
        remove_all(s.skip(pattern.len() as int), pattern)
    } else {
        seq![s[0]] + remove_all(s.drop_first(), pattern)
    }
}

/// Whether a character is an ASCII decimal digit.
pub open spec fn is_digit(c: char) -> bool {
    '0' <= c <= '9'
}

/// The value of a string of decimal digits.
pub open spec fn decimal_value(digits: Seq<char>) -> nat
    decreases digits.len(),
{
    if digits.len() == 0 {
        0
    } else {
        decimal_value(digits.drop_last()) * 10 + (digits.last() as nat - '0' as nat) as nat
    }
}

/// The string without an optional leading `+`.
pub open spec fn unsigned_digits(s: Seq<char>) -> Seq<char> {
    if s.len() > 0 && s[0] == '+' {
        s.drop_first()
    } else {
        s
    }
}

/// The `usize` a string denotes: an optional `+`, then at least one decimal
/// digit, and a value that fits.
pub open spec fn parse_usize(s: Seq<char>) -> Option<nat> {
    let digits = unsigned_digits(s);
    if digits.len() == 0 {
        None
    } else if exists|i: int| 0 <= i < digits.len() && !is_digit(#[trigger] digits[i]) {
        None
    } else if decimal_value(digits) > usize::MAX {
        None
    } else {
        Some(decimal_value(digits))
    }
}

/// The recorded invocations the runtime replays during fuzzing, looked up by
/// the strings that name them.
pub struct RadixRuntimeFuzzingInvokes {
    invokes: Vec<RadixRuntimeFuzzerInput>,
}

/// The answer to a lookup of an invocation by its name.
pub open spec fn invoke_lookup(invokes: Seq<Seq<Seq<u8>>>, name: Seq<char>) -> Result<Seq<Seq<u8>>, Seq<char>> {
    if !(name.len() >= 6 && name.subrange(0, 6) == "INVOKE"@) {
        Err("Invalid invoke string"@)
    } else {
        match parse_usize(remove_all(name, "INVOKE_"@)) {
            None => Err("Invalid invoke, not a number"@),
            Some(id) => if id < invokes.len() {
                Ok(invokes[id as int])
            } else {
                Err("Invalid invoke number"@)
            },
        }
    }
}

impl RadixRuntimeFuzzingInvokes {
    /// The invocations, by number.
    pub closed spec fn entries(&self) -> Seq<Seq<Seq<u8>>> {
        inputs_view(self.invokes@)
    }

    pub fn new() -> (r: Self)
        ensures
            r.entries() == Seq::<Seq<Seq<u8>>>::empty(),
    {
        let r = Self { invokes: Vec::new() };
        assert(r.entries() =~= Seq::<Seq<Seq<u8>>>::empty());
        r
    }

    /// The invocation that a name of the form `INVOKE_<number>` denotes.
    pub fn get_invoke(&self, invoke_string: String) -> (r: Result<RadixRuntimeFuzzerInput, String>)
        ensures
            (match r {
                Ok(v) => Ok(byte_lists(v@)),
                Err(e) => Err(e@),
            }) == invoke_lookup(self.entries(), invoke_string@),
    {
        proof {
            reveal_strlit("INVOKE");
            reveal_strlit("INVOKE_");
            reveal_strlit("Invalid invoke string");
            reveal_strlit("Invalid invoke, not a number");
            reveal_strlit("Invalid invoke number");
        }
        let s = invoke_string.as_str();
        let n = s.unicode_len();
        let magic = INVOKE_MAGIC_STRING;
        if n < 6 || !has_prefix_at(s, 0, magic) {
            return Err(String::from_str("Invalid invoke string"));
        }
        let id_chars = remove_all_exec(s, "INVOKE_");
        match parse_usize_exec(&id_chars) {
            None => Err(String::from_str("Invalid invoke, not a number")),
            Some(id) => {
                if id < self.invokes.len() {
                    Ok(copy_byte_lists(&self.invokes[id]))
                } else {
                    Err(String::from_str("Invalid invoke number"))
                }
            },
        }
    }
}

/// Whether `pattern` occurs in `s` at char position `at`.
fn has_prefix_at(s: &str, at: usize, pattern: &str) -> (r: bool)
    requires
        at <= s@.len(),
    ensures
        r == (at + pattern@.len() <= s@.len() && s@.subrange(at as int, at + pattern@.len()) == pattern@),
{
    let n = s.unicode_len();
    let m = pattern.unicode_len();
    if m > n - at {
        return false;
    }
    let mut k: usize = 0;
    while k < m
        invariant
            k <= m,
            m == pattern@.len(),
            n == s@.len(),
            at + m <= n,
            forall|j: int| 0 <= j < k ==> s@[at + j] == pattern@[j],
        decreases m - k,
    {
        if s.get_char(at + k) != pattern.get_char(k) {
            assert(s@.subrange(at as int, at + m)[k as int] != pattern@[k as int]);
            return false;
        }
        k = k + 1;
    }
    assert(s@.subrange(at as int, at + m) =~= pattern@);
    true
}

/// The chars of `s` with every occurrence of `pattern` removed.
fn remove_all_exec(s: &str, pattern: &str) -> (r: Vec<char>)
    requires
        pattern@.len() > 0,
    ensures
        r@ == remove_all(s@, pattern@),
{
    let n = s.unicode_len();
    let m = pattern.unicode_len();
    let mut out: Vec<char> = Vec::new();
    let mut at: usize = 0;
    assert(s@.skip(0) =~= s@);
    assert(out@ + remove_all(s@, pattern@) =~= remove_all(s@, pattern@));
    while at < n
        invariant
            at <= n,
            n == s@.len(),
            m == pattern@.len(),
            m > 0,
            out@ + remove_all(s@.skip(at as int), pattern@) == remove_all(s@, pattern@),
        decreases n - at,
    {
        let ghost rest = s@.skip(at as int);
        if m <= n - at && has_prefix_at(s, at, pattern) {
            proof {
                assert(rest.subrange(0, m as int) =~= s@.subrange(at as int, at + m));
                assert(rest.skip(m as int) =~= s@.skip(at + m));
            }
            at = at + m;
        } else {
            proof {
                if m <= n - at {
                    assert(rest.subrange(0, m as int) =~= s@.subrange(at as int, at + m));
                }
                assert(rest.drop_first() =~= s@.skip(at + 1));
                assert(rest[0] == s@[at as int]);
            }
            let c = s.get_char(at);
            let ghost before = out@;
            out.push(c);
            assert(out@ + remove_all(s@.skip(at + 1), pattern@) =~= before + (seq![c] + remove_all(
                s@.skip(at + 1),
                pattern@,
            )));
            at = at + 1;
        }
    }
    assert(s@.skip(at as int) =~= Seq::<char>::empty());
    assert(out@ + Seq::<char>::empty() =~= out@);
    out
}

/// The `usize` that a string of chars denotes, if any.
fn parse_usize_exec(chars: &Vec<char>) -> (r: Option<usize>)
    ensures
        (match r {
            Some(v) => Some(v as nat),
            None => None,
        }) == parse_usize(chars@),
{
    let n = chars.len();
    let start: usize = if n > 0 && chars[0] == '+' {
        1
    } else {
        0
    };
    let ghost digits = unsigned_digits(chars@);
    assert(digits =~= chars@.skip(start as int));
    if start == n {
        return None;
    }
    let mut value: usize = 0;
    let mut i: usize = start;
    let mut overflow = false;
    while i < n
        invariant
            start <= i <= n,
            n == chars@.len(),
            digits == chars@.skip(start as int),
            digits == unsigned_digits(chars@),
            forall|j: int| start <= j < i ==> is_digit(#[trigger] chars@[j]),
            !overflow ==> value == decimal_value(chars@.subrange(start as int, i as int)),
            overflow ==> decimal_value(chars@.subrange(start as int, i as int)) > usize::MAX,
        decreases n - i,
    {
        let c = chars[i];
        if !('0' <= c && c <= '9') {
            proof {
                let k = i - start;
                assert(digits[k] == chars@[i as int]);
                assert(!is_digit(digits[k]));
                assert(digits.len() > 0);
            }
            return None;
        }
        let d: usize = ((c as u32) - ('0' as u32)) as usize;
        proof {
            let pre = chars@.subrange(start as int, i as int);
            let now = chars@.subrange(start as int, i + 1);
            assert(now.drop_last() =~= pre);
            assert(now.last() == c);
            lemma_decimal_value_monotone(pre, now);
        }
        if !overflow {
            if value > (usize::MAX - d) / 10 {
                overflow = true;
            } else {
                value = value * 10 + d;
            }
        }
        i = i + 1;
    }
    assert(chars@.subrange(start as int, n as int) =~= digits);
    assert forall|j: int| 0 <= j < digits.len() implies is_digit(#[trigger] digits[j]) by {
        assert(digits[j] == chars@[start + j]);
    }
    if overflow {
        None
    } else {
        Some(value)
    }
}

proof fn lemma_decimal_value_monotone(pre: Seq<char>, now: Seq<char>)
    requires
        now.len() == pre.len() + 1,
        now.drop_last() == pre,
        is_digit(now.last()),
    ensures
        decimal_value(now) >= decimal_value(pre),
        decimal_value(now) == decimal_value(pre) * 10 + (now.last() as nat - '0' as nat),
{
}

/// A decimal representation is a non-empty string of digits whose value is
/// the number.
proof fn lemma_decimal_string_value(n: nat)
    ensures
        decimal_string(n).len() > 0,
        forall|k: int| 0 <= k < decimal_string(n).len() ==> is_digit(#[trigger] decimal_string(n)[k]),
        decimal_value(decimal_string(n)) == n,
    decreases n,
{
    if n >= 10 {
        lemma_decimal_string_value(n / 10);
        lemma_digit_char(n % 10);
        let s = decimal_string(n);
        assert(s.drop_last() =~= decimal_string(n / 10));
        assert(s.last() == digit_char(n % 10));
        assert(decimal_value(s) == decimal_value(s.drop_last()) * 10 + (s.last() as nat
            - '0' as nat) as nat);
        assert(n == (n / 10) * 10 + n % 10);
    } else {
        lemma_digit_char(n);
        let s = decimal_string(n);
        assert(s.drop_last() =~= Seq::<char>::empty());
        assert(s.last() == digit_char(n));
        assert(decimal_value(s) == decimal_value(s.drop_last()) * 10 + (s.last() as nat
            - '0' as nat) as nat);
    }
}

/// A digit character is a digit, and its value is the digit.
proof fn lemma_digit_char(d: nat)
    requires
        d < 10,
    ensures
        is_digit(digit_char(d)),
        digit_char(d) as nat - '0' as nat == d,
{
    if d == 0 {
        assert('0' as nat - '0' as nat == 0);
    } else if d == 1 {
        assert('1' as nat - '0' as nat == 1);
    } else if d == 2 {
        assert('2' as nat - '0' as nat == 2);
    } else if d == 3 {
        assert('3' as nat - '0' as nat == 3);
    } else if d == 4 {
        assert('4' as nat - '0' as nat == 4);
    } else if d == 5 {
        assert('5' as nat - '0' as nat == 5);
    } else if d == 6 {
        assert('6' as nat - '0' as nat == 6);
    } else if d == 7 {
        assert('7' as nat - '0' as nat == 7);
    } else if d == 8 {
        assert('8' as nat - '0' as nat == 8);
    } else {
        assert('9' as nat - '0' as nat == 9);
    }
}

/// Removing a pattern from a string that holds none of the pattern's first
/// character changes nothing.
proof fn lemma_remove_all_absent(s: Seq<char>, pattern: Seq<char>)
    requires
        pattern.len() > 0,
        forall|k: int| 0 <= k < s.len() ==> s[k] != pattern[0],
    ensures
        remove_all(s, pattern) == s,
    decreases s.len(),
{
    if s.len() >= pattern.len() {
        assert(s.subrange(0, pattern.len() as int)[0] == s[0]);
        lemma_remove_all_absent(s.drop_first(), pattern);
        assert(seq![s[0]] + s.drop_first() =~= s);
    }
}

/// The invocation named `INVOKE_<i>`, with `i` in decimal, is the `i`-th
/// recorded invocation; past the last one the name gives
/// `Invalid invoke number`.
pub proof fn lemma_invoke_name_lookup(invokes: Seq<Seq<Seq<u8>>>, i: nat)
    requires
        i <= usize::MAX,
    ensures
        invoke_lookup(invokes, "INVOKE_"@ + decimal_string(i)) == if i < invokes.len() {
            Ok::<Seq<Seq<u8>>, Seq<char>>(invokes[i as int])
        } else {
            Err::<Seq<Seq<u8>>, Seq<char>>("Invalid invoke number"@)
        },
{
    reveal_strlit("INVOKE_");
    reveal_strlit("INVOKE");
    let digits = decimal_string(i);
    let name = "INVOKE_"@ + digits;
    lemma_decimal_string_value(i);
    assert(name.subrange(0, 6) =~= "INVOKE"@);
    assert(name.subrange(0, 7) =~= "INVOKE_"@);
    assert(name.skip(7) =~= digits);
    assert forall|k: int| 0 <= k < digits.len() implies digits[k] != "INVOKE_"@[0] by {
        assert(is_digit(digits[k]));
    }
    lemma_remove_all_absent(digits, "INVOKE_"@);
    assert(remove_all(name, "INVOKE_"@) == digits);
    assert(is_digit(digits[0]));
    assert(unsigned_digits(digits) == digits);
}

impl RadixRuntimeFuzzerTransaction {
    /// Makes this transaction's recorded invocations the ones the runtime
    /// replays.
    pub fn set_global_invokes(&self, global: &mut RadixRuntimeFuzzingInvokes)
        ensures
            final(global).entries() == inputs_view(self.invokes@),
    {
        let mut invokes: Vec<RadixRuntimeFuzzerInput> = Vec::new();
        let mut i: usize = 0;
        while i < self.invokes.len()
            invariant
                i <= self.invokes@.len(),
                invokes@.len() == i,
                forall|k: int| 0 <= k < i ==> #[trigger] byte_lists(invokes@[k]@) == byte_lists(self.invokes@[k]@),
            decreases self.invokes@.len() - i,
        {
            invokes.push(copy_byte_lists(&self.invokes[i]));
            i = i + 1;
        }
        global.invokes = invokes;
        assert(global.entries() =~= inputs_view(self.invokes@));
    }
}

} // verus!

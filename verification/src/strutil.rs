use vstd::prelude::*;
use vstd::string::StrSliceExecFns;
use vstd::string::StringExecFns;

verus! {

// ---------------------------------------------------------------------------
// Suffix test
// ---------------------------------------------------------------------------

/// `s` ends with the suffix `sfx`.
pub open spec fn spec_ends_with(s: Seq<char>, sfx: Seq<char>) -> bool {
    s.len() >= sfx.len() && s.subrange(s.len() - sfx.len(), s.len() as int) == sfx
}

/// Character-exact equality of two string slices.
pub fn str_eq(a: &str, b: &str) -> (r: bool)
    ensures
        r == (a@ == b@),
{
    let la = a.unicode_len();
    let lb = b.unicode_len();
    if la != lb {
        return false;
    }
    let mut i: usize = 0;
    while i < la
        invariant
            i <= la,
            la == a@.len(),
            la == b@.len(),
            forall|j: int| 0 <= j < i ==> a@[j] == b@[j],
        decreases la - i,
    {
        if a.get_char(i) != b.get_char(i) {
            return false;
        }
        i += 1;
    }
    proof {
        assert(a@ =~= b@);
    }
    true
}

/// Whether `s` ends with `sfx`, by characters.
pub fn ends_with(s: &str, sfx: &str) -> (r: bool)
    ensures
        r == spec_ends_with(s@, sfx@),
{
    let n = s.unicode_len();
    let m = sfx.unicode_len();
    if n < m {
        return false;
    }
    let mut i: usize = 0;
    while i < m
        invariant
            i <= m,
            m <= n,
            n == s@.len(),
            m == sfx@.len(),
            forall|j: int| 0 <= j < i ==> s@[n - m + j] == sfx@[j],
        decreases m - i,
    {
        if s.get_char(n - m + i) != sfx.get_char(i) {
            proof {
                assert(s@.subrange(n - m, n as int)[i as int] == s@[n - m + i]);
            }
            return false;
        }
        i += 1;
    }
    proof {
        assert(s@.subrange(n - m, n as int) =~= sfx@);
    }
    true
}

// ---------------------------------------------------------------------------
// Local voice key: the part of a filename before its first '.'
// ---------------------------------------------------------------------------

/// The characters of `s` before the first `'.'`; all of `s` when it has none.
pub open spec fn spec_local_key(s: Seq<char>) -> Seq<char>
    decreases s.len(),
{
    if s.len() == 0 {
        s
    } else if s[0] == '.' {
        Seq::<char>::empty()
    } else {
        seq![s[0]] + spec_local_key(s.skip(1))
    }
}

/// When no `'.'` stands before position `i`, and `i` is the position of the
/// first `'.'` (or the length, when there is none), the key is the prefix of
/// length `i`.
pub proof fn lemma_local_key_at(s: Seq<char>, i: int)
    requires
        0 <= i <= s.len(),
        forall|j: int| 0 <= j < i ==> s[j] != '.',
        i < s.len() ==> s[i] == '.',
    ensures
        spec_local_key(s) == s.take(i),
    decreases i,
{
    if i == 0 {
        if s.len() == 0 {
            assert(s.take(0) =~= s);
        } else {
            assert(s.take(0) =~= Seq::<char>::empty());
        }
    } else {
        assert(s[0] != '.');
        let t = s.skip(1);
        assert(forall|j: int| 0 <= j < i - 1 ==> t[j] == s[j + 1] && t[j] != '.');
        assert(i - 1 < t.len() ==> t[i - 1] == s[i] && t[i - 1] == '.');
        lemma_local_key_at(t, i - 1);
        assert(seq![s[0]] + t.take(i - 1) =~= s.take(i));
    }
}

/// The voice key a local filename stands for: everything before the first
/// `'.'`, so that a model file and its configuration file collapse to the
/// same key.
pub fn local_key(name: &str) -> (r: String)
    ensures
        r@ == spec_local_key(name@),
{
    let n = name.unicode_len();
    let mut i: usize = 0;
    while i < n
        invariant
            i <= n,
            n == name@.len(),
            forall|j: int| 0 <= j < i ==> name@[j] != '.',
        decreases n - i,
    {
        if name.get_char(i) == '.' {
            let pre = name.substring_char(0, i);
            proof {
                lemma_local_key_at(name@, i as int);
                assert(name@.take(i as int) =~= name@.subrange(0, i as int));
            }
            return pre.to_owned();
        }
        i += 1;
    }
    proof {
        lemma_local_key_at(name@, n as int);
        assert(name@.take(n as int) =~= name@);
    }
    name.to_owned()
}

// ---------------------------------------------------------------------------
// Basename: the part of a path after its last '/'
// ---------------------------------------------------------------------------

/// The characters of `s` after the last `'/'`; all of `s` when it has none.
pub open spec fn spec_basename(s: Seq<char>) -> Seq<char>
    decreases s.len(),
{
    if s.len() == 0 {
        s
    } else if s[s.len() - 1] == '/' {
        Seq::<char>::empty()
    } else {
        spec_basename(s.take(s.len() - 1)).push(s[s.len() - 1])
    }
}

/// When no `'/'` stands at or after position `i`, and the character just
/// before `i` is `'/'` (or `i` is zero), the basename is the suffix that
/// starts at `i`.
pub proof fn lemma_basename_after(s: Seq<char>, i: int)
    requires
        0 <= i <= s.len(),
        forall|j: int| i <= j < s.len() ==> s[j] != '/',
        0 < i ==> s[i - 1] == '/',
    ensures
        spec_basename(s) == s.subrange(i, s.len() as int),
    decreases s.len() - i,
{
    if i == s.len() {
        if i == 0 {
            assert(s.subrange(0, 0) =~= s);
        } else {
            assert(s.subrange(i, s.len() as int) =~= Seq::<char>::empty());
        }
    } else {
        assert(s[s.len() - 1] != '/');
        let t = s.take(s.len() - 1);
        assert(forall|j: int| i <= j < t.len() ==> t[j] == s[j] && t[j] != '/');
        lemma_basename_after(t, i);
        assert(t.subrange(i, t.len() as int).push(s[s.len() - 1]) =~= s.subrange(
            i,
            s.len() as int,
        ));
    }
}

/// The basename of a relative path: the filename after the last `'/'`.
pub fn basename(path: &str) -> (r: String)
    ensures
        r@ == spec_basename(path@),
{
    let n = path.unicode_len();
    let mut i: usize = n;
    while i > 0
        invariant
            i <= n,
            n == path@.len(),
            forall|j: int| i <= j < n ==> path@[j] != '/',
        decreases i,
    {
        if path.get_char(i - 1) == '/' {
            let sfx = path.substring_char(i, n);
            proof {
                lemma_basename_after(path@, i as int);
            }
            return sfx.to_owned();
        }
        i -= 1;
    }
    proof {
        lemma_basename_after(path@, 0);
        assert(path@.subrange(0, n as int) =~= path@);
    }
    path.to_owned()
}

// ---------------------------------------------------------------------------
// Decimal numbers
// ---------------------------------------------------------------------------

/// `c` is a decimal digit.
pub open spec fn is_digit(c: char) -> bool {
    ('0' as u32) <= (c as u32) && (c as u32) <= ('9' as u32)
}

/// The value of one decimal digit.
pub open spec fn digit_val(c: char) -> nat {
    ((c as u32) - ('0' as u32)) as nat
}

/// Every character of `s` is a decimal digit.
pub open spec fn is_digits(s: Seq<char>) -> bool {
    forall|i: int| 0 <= i < s.len() ==> is_digit(s[i])
}

/// The value of a digit string, most significant digit first.
pub open spec fn digits_val(s: Seq<char>) -> nat
    decreases s.len(),
{
    if s.len() == 0 {
        0
    } else {
        digits_val(s.drop_last()) * 10 + digit_val(s.last())
    }
}

/// What a size field must parse to: a non-empty digit string whose value
/// fits in a `u64`; anything else is rejected.
pub open spec fn spec_parse_u64(s: Seq<char>) -> Option<u64> {
    if s.len() > 0 && is_digits(s) && digits_val(s) <= u64::MAX {
        Some(digits_val(s) as u64)
    } else {
        None
    }
}

/// A prefix of a digit string never exceeds the whole string's value.
proof fn lemma_digits_val_prefix_le(s: Seq<char>, i: int)
    requires
        0 <= i <= s.len(),
    ensures
        digits_val(s.take(i)) <= digits_val(s),
    decreases s.len() - i,
{
    if i == s.len() {
        assert(s.take(i) =~= s);
    } else {
        assert(s.take(i + 1).drop_last() =~= s.take(i));
        assert(s.take(i + 1).last() == s[i]);
        assert(digits_val(s.take(i)) <= digits_val(s.take(i)) * 10 + digit_val(s[i]));
        lemma_digits_val_prefix_le(s, i + 1);
    }
}

/// Parses a decimal `u64`, rejecting anything that is not a plain digit
/// string or does not fit.
pub fn parse_u64(s: &str) -> (r: Option<u64>)
    ensures
        r == spec_parse_u64(s@),
{
    let n = s.unicode_len();
    if n == 0 {
        return None;
    }
    let mut acc: u64 = 0;
    let mut i: usize = 0;
    while i < n
        invariant
            i <= n,
            n == s@.len(),
            is_digits(s@.take(i as int)),
            acc == digits_val(s@.take(i as int)),
        decreases n - i,
    {
        let c = s.get_char(i);
        let cu = c as u32;
        if cu < '0' as u32 || cu > '9' as u32 {
            assert(!is_digit(s@[i as int]));
            return None;
        }
        let d: u64 = (cu - '0' as u32) as u64;
        proof {
            assert(s@.take(i + 1).drop_last() =~= s@.take(i as int));
            assert(s@.take(i + 1).last() == s@[i as int]);
        }
        let m = match acc.checked_mul(10) {
            Some(m) => m,
            None => {
                proof {
                    assert(digits_val(s@.take(i + 1)) > u64::MAX);
                    lemma_digits_val_prefix_le(s@, i + 1);
                }
                return None;
            },
        };
        acc = match m.checked_add(d) {
            Some(a) => a,
            None => {
                proof {
                    assert(digits_val(s@.take(i + 1)) > u64::MAX);
                    lemma_digits_val_prefix_le(s@, i + 1);
                }
                return None;
            },
        };
        i += 1;
    }
    proof {
        assert(s@.take(n as int) =~= s@);
    }
    Some(acc)
}

/// The decimal rendering of `n`, most significant digit first, no leading
/// zeros (a single `'0'` for zero).
pub open spec fn digit_char(d: nat) -> char {
    if d == 0 {
        '0'
    } else if d == 1 {
        '1'
    } else if d == 2 {
        '2'
    } else if d == 3 {
        '3'
    } else if d == 4 {
        '4'
    } else if d == 5 {
        '5'
    } else if d == 6 {
        '6'
    } else if d == 7 {
        '7'
    } else if d == 8 {
        '8'
    } else {
        '9'
    }
}

/// The decimal digit string of `n`.
pub open spec fn spec_u64_string(n: u64) -> Seq<char>
    decreases n,
{
    if n < 10 {
        seq![digit_char(n as nat)]
    } else {
        spec_u64_string((n / 10) as u64) + seq![digit_char((n % 10) as nat)]
    }
}

fn digit_str(d: u64) -> (r: &'static str)
    requires
        d < 10,
    ensures
        r@ =~= seq![digit_char(d as nat)],
{
    proof {
        reveal_strlit("0");
        reveal_strlit("1");
        reveal_strlit("2");
        reveal_strlit("3");
        reveal_strlit("4");
        reveal_strlit("5");
        reveal_strlit("6");
        reveal_strlit("7");
        reveal_strlit("8");
        reveal_strlit("9");
    }
    match d {
        0 => "0",
        1 => "1",
        2 => "2",
        3 => "3",
        4 => "4",
        5 => "5",
        6 => "6",
        7 => "7",
        8 => "8",
        _ => "9",
    }
}

/// Renders `n` in decimal.
pub fn u64_to_string(n: u64) -> (r: String)
    ensures
        r@ == spec_u64_string(n),
    decreases n,
{
    if n < 10 {
        digit_str(n).to_owned()
    } else {
        let mut s = u64_to_string(n / 10);
        s.append(digit_str(n % 10));
        s
    }
}

/// Printing a `u64` in decimal and parsing the digits back yields the same
/// number: the size fields survive a round trip through the manifest text.
pub proof fn lemma_parse_u64_string(n: u64)
    ensures
        spec_parse_u64(spec_u64_string(n)) == Some(n),
    decreases n,
{
    if n < 10 {
        let s = seq![digit_char(n as nat)];
        assert(s.drop_last() =~= Seq::<char>::empty());
        assert(s.last() == digit_char(n as nat));
        assert(digits_val(s.drop_last()) == 0);
        assert(digits_val(s) == digit_val(digit_char(n as nat)));
        assert(digit_val(digit_char(n as nat)) == n);
        assert(is_digit(s[0]));
    } else {
        lemma_parse_u64_string(n / 10);
        let a = spec_u64_string((n / 10) as u64);
        let c = digit_char((n % 10) as nat);
        let s = a + seq![c];
        assert(s.drop_last() =~= a);
        assert(s.last() == c);
        assert(digit_val(c) == n % 10);
        assert(digits_val(s) == digits_val(a) * 10 + (n % 10));
        assert(digits_val(a) == n / 10);
        assert((n / 10) * 10 + n % 10 == n) by {
            vstd::arithmetic::div_mod::lemma_fundamental_div_mod(n as int, 10);
        }
        assert(forall|j: int| 0 <= j < s.len() ==> is_digit(s[j]));
    }
}

// ---------------------------------------------------------------------------
// Key sets
// ---------------------------------------------------------------------------

/// Some string in `ks` reads as `k`.
pub open spec fn has_key(ks: Seq<String>, k: Seq<char>) -> bool {
    exists|i: int| 0 <= i < ks.len() && ks[i]@ == k
}

/// Whether `ks` holds a string equal to `k`.
pub fn contains_str(ks: &Vec<String>, k: &str) -> (r: bool)
    ensures
        r == has_key(ks@, k@),
{
    let mut i: usize = 0;
    while i < ks.len()
        invariant
            i <= ks@.len(),
            forall|j: int| 0 <= j < i ==> ks@[j]@ != k@,
        decreases ks@.len() - i,
    {
        if str_eq(ks[i].as_str(), k) {
            return true;
        }
        i += 1;
    }
    false
}

} // verus!

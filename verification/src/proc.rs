//! The boot-time reference and the pure parts of process-table
//! inspection: parsing the boot timestamp out of a kernel statistics
//! line, and matching a command line against a pattern.  Reading the
//! files themselves is left to the caller.

use vstd::prelude::*;

verus! {

/// The one-time boot reference: every capture timestamp is relative
/// to it.
#[derive(Clone, Copy, Debug, Default)]
pub struct S {
    /// UNIX timestamp of the device's boot, in seconds, if known.
    pub b_time: Option<u64>,
}

/// The decimal value of `s` read as base-ten digits.
pub open spec fn dec_val(s: Seq<u8>) -> nat
    decreases s.len(),
{
    if s.len() == 0 {
        0
    } else {
        (dec_val(s.drop_last()) * 10 + (s.last() - 48)) as nat
    }
}

/// Every byte of `s` is a decimal digit.
pub open spec fn all_digits(s: Seq<u8>) -> bool {
    forall|i: int| 0 <= i < s.len() ==> 48 <= #[trigger] s[i] <= 57
}

/// A longer digit run never has a smaller value.
proof fn lemma_dec_val_prefix(s: Seq<u8>, i: int)
    requires
        0 <= i <= s.len(),
        all_digits(s),
    ensures
        dec_val(s.subrange(0, i)) <= dec_val(s),
    decreases s.len() - i,
{
    if i < s.len() {
        lemma_dec_val_prefix(s, i + 1);
        assert(s.subrange(0, i + 1).drop_last() =~= s.subrange(0, i));
        assert(s.subrange(0, i + 1).last() == s[i]);
        assert(dec_val(s.subrange(0, i)) <= dec_val(s.subrange(0, i + 1)));
    } else {
        assert(s.subrange(0, i) =~= s);
    }
}

/// What parsing a token as an unsigned decimal number gives: its
/// value exactly when the token is a nonempty digit run whose value
/// fits.
pub open spec fn spec_decimal(s: Seq<u8>) -> Option<u64> {
    if s.len() > 0 && all_digits(s) && dec_val(s) <= u64::MAX {
        Some(dec_val(s) as u64)
    } else {
        None
    }
}

/// Parse `s` as an unsigned decimal number.  Succeeds exactly on a
/// nonempty all-digit run whose value fits.
pub fn parse_decimal(s: &Vec<u8>) -> (r: Option<u64>)
    ensures
        r == spec_decimal(s@),
{
    if s.len() == 0 {
        return None;
    }
    let n = s.len();
    let mut acc: u64 = 0;
    let mut i: usize = 0;
    while i < n
        invariant
            i <= n,
            n == s@.len(),
            all_digits(s@.subrange(0, i as int)),
            acc == dec_val(s@.subrange(0, i as int)),
        decreases n - i,
    {
        let b = s[i];
        if b < 48 || b > 57 {
            return None;
        }
        let d = (b - 48) as u64;
        if acc > (u64::MAX - d) / 10 {
            proof {
                assert(s@.subrange(0, i + 1).drop_last() =~= s@.subrange(0, i as int));
                assert(s@.subrange(0, i + 1).last() == s@[i as int]);
                if all_digits(s@) {
                    lemma_dec_val_prefix(s@, i + 1);
                    assert(dec_val(s@.subrange(0, i + 1)) > u64::MAX) by (nonlinear_arith)
                        requires
                            dec_val(s@.subrange(0, i + 1)) == dec_val(s@.subrange(0, i as int)) * 10
                                + (s@[i as int] - 48),
                            dec_val(s@.subrange(0, i as int)) > (u64::MAX - (s@[i as int] - 48)) / 10,
                            48 <= s@[i as int] <= 57,
                    ;
                }
            }
            return None;
        }
        proof {
            assert(s@.subrange(0, i + 1).drop_last() =~= s@.subrange(0, i as int));
            assert(s@.subrange(0, i + 1).last() == s@[i as int]);
        }
        acc = acc * 10 + d;
        i = i + 1;
    }
    proof {
        assert(s@.subrange(0, n as int) =~= s@);
    }
    Some(acc)
}

/// Whether `content` begins with `pattern`.
pub fn prefix_matches(content: &Vec<u8>, pattern: &Vec<u8>) -> (r: bool)
    ensures
        r == (content@.len() >= pattern@.len() && content@.subrange(0, pattern@.len() as int)
            == pattern@),
{
    if content.len() < pattern.len() {
        return false;
    }
    let n = pattern.len();
    let mut i: usize = 0;
    while i < n
        invariant
            i <= n,
            n == pattern@.len(),
            n <= content@.len(),
            forall|j: int| 0 <= j < i ==> content@[j] == pattern@[j],
        decreases n - i,
    {
        if content[i] != pattern[i] {
            proof {
                assert(content@.subrange(0, n as int)[i as int] != pattern@[i as int]);
            }
            return false;
        }
        i = i + 1;
    }
    proof {
        assert(content@.subrange(0, n as int) =~= pattern@);
    }
    true
}

/// The boot-time tag: the word the line's first token must be.
pub open spec fn btime_word() -> Seq<u8> {
    seq![98u8, 116u8, 105u8, 109u8, 101u8]
}

/// Index of the first space at or after `from`, or the length when
/// none follows.
pub open spec fn token_end(s: Seq<u8>, from: int) -> int
    decreases s.len() - from,
{
    if from < 0 || from >= s.len() {
        s.len() as int
    } else if s[from] == 32 {
        from
    } else {
        token_end(s, from + 1)
    }
}

/// `token_end` is the first space: everything before it is no space.
proof fn lemma_token_end_at(s: Seq<u8>, from: int, k: int)
    requires
        0 <= from <= k <= s.len(),
        forall|j: int| from <= j < k ==> s[j] != 32,
        k == s.len() || s[k] == 32,
    ensures
        token_end(s, from) == k,
    decreases k - from,
{
    if from < k {
        lemma_token_end_at(s, from + 1, k);
    }
}

/// The first space comes no earlier than `from` and no later than the
/// end.
proof fn lemma_token_end_bounds(s: Seq<u8>, from: int)
    requires
        0 <= from <= s.len(),
    ensures
        from <= token_end(s, from) <= s.len(),
    decreases s.len() - from,
{
    if from < s.len() && s[from] != 32 {
        lemma_token_end_bounds(s, from + 1);
    }
}

/// A spaceless stretch does not move the first space.
proof fn lemma_token_end_skip(s: Seq<u8>, from: int, k: int)
    requires
        0 <= from <= k <= s.len(),
        forall|j: int| from <= j < k ==> s[j] != 32,
    ensures
        token_end(s, from) == token_end(s, k),
    decreases k - from,
{
    if from < k {
        lemma_token_end_skip(s, from + 1, k);
    }
}

/// Whether the line's first space-separated token is the boot-time
/// tag.
pub open spec fn spec_is_btime(line: Seq<u8>) -> bool {
    line.len() >= 5 && token_end(line, 0) == 5 && line.subrange(0, 5) == btime_word()
}

/// What the line reports as the boot timestamp: the decimal value of
/// its second space-separated token, when the line is a boot-time
/// line and that token is a digit run whose value fits; nothing
/// otherwise (a missing, empty or malformed second token included).
pub open spec fn spec_btime_value(line: Seq<u8>) -> Option<u64> {
    if spec_is_btime(line) && line.len() >= 6 {
        spec_decimal(line.subrange(6, token_end(line, 6)))
    } else {
        None
    }
}

/// Whether this statistics line is the boot-time line: its first
/// space-separated token is the boot-time tag.
pub fn is_btime_line(line: &Vec<u8>) -> (r: bool)
    ensures
        r == spec_is_btime(line@),
{
    if line.len() < 5 {
        return false;
    }
    let word = vec![98u8, 116u8, 105u8, 109u8, 101u8];
    proof {
        assert(word@ =~= btime_word());
    }
    if !prefix_matches(line, &word) {
        return false;
    }
    let r = line.len() == 5 || line[5] == 32;
    proof {
        assert(line@.subrange(0, 5) == btime_word());
        assert(forall|j: int| 0 <= j < 5 ==> line@[j] == btime_word()[j]
            && #[trigger] btime_word()[j] != 32);
        if r {
            lemma_token_end_at(line@, 0, 5);
        } else {
            lemma_token_end_skip(line@, 0, 6);
            lemma_token_end_bounds(line@, 6);
        }
    }
    r
}

/// Read the boot timestamp out of one statistics line: the decimal
/// value of the second token of a boot-time line, and nothing in
/// every other case.
pub fn parse_btime_line(line: &Vec<u8>) -> (r: Option<u64>)
    ensures
        r == spec_btime_value(line@),
{
    if !is_btime_line(line) {
        return None;
    }
    if line.len() < 6 {
        return None;
    }
    let mut token: Vec<u8> = Vec::new();
    let mut i: usize = 6;
    let n = line.len();
    while i < n
        invariant
            6 <= i <= n,
            n == line@.len(),
            spec_is_btime(line@),
            token@ =~= line@.subrange(6, i as int),
            forall|j: int| 6 <= j < i ==> line@[j] != 32,
        decreases n - i,
    {
        if line[i] == 32 {
            proof {
                lemma_token_end_at(line@, 6, i as int);
            }
            return parse_decimal(&token);
        }
        token.push(line[i]);
        proof {
            assert(token@ =~= line@.subrange(6, i + 1));
        }
        i = i + 1;
    }
    proof {
        lemma_token_end_at(line@, 6, n as int);
        assert(token@ =~= line@.subrange(6, n as int));
    }
    parse_decimal(&token)
}

} // verus!

//! Text operations on character sequences: literal replacement, left
//! zero-padding and decimal rendering of indices.
use vstd::prelude::*;

verus! {

/// Width that padded labels are brought up to.
pub const PAD_WIDTH: usize = 3;

/// `s` with every non-overlapping occurrence of `pat`, scanned from the left,
/// replaced by `rep`.
pub open spec fn replace_all(s: Seq<char>, pat: Seq<char>, rep: Seq<char>) -> Seq<char>
    decreases s.len(),
{
    if pat.len() == 0 || s.len() == 0 {
        s
    } else if s.len() >= pat.len() && s.subrange(0, pat.len() as int) == pat {
        rep + replace_all(s.subrange(pat.len() as int, s.len() as int), pat, rep)
    } else {
        seq![s[0]] + replace_all(s.subrange(1, s.len() as int), pat, rep)
    }
}

/// `k` copies of the character `'0'`.
pub open spec fn zeros(k: nat) -> Seq<char> {
    Seq::new(k, |_i: int| '0')
}

/// Whether every character of `s` is a decimal digit.
pub open spec fn all_digits(s: Seq<char>) -> bool {
    forall|i: int| 0 <= i < s.len() ==> '0' <= #[trigger] s[i] <= '9'
}

/// `s` left-padded with `'0'` to `PAD_WIDTH` characters when it is a short
/// number; any other value is kept as it is.
pub open spec fn zero_pad(s: Seq<char>) -> Seq<char> {
    if s.len() < PAD_WIDTH && all_digits(s) {
        zeros((PAD_WIDTH - s.len()) as nat) + s
    } else {
        s
    }
}

/// The character of a decimal digit.
pub open spec fn digit_char(d: nat) -> char {
    if d == 0 {
        '0'
    } else if d == 1 {
        '1'
    } else if d == 2 {
        '2'
    } else if d == 3 {
        '3'
    } else if d == 4 {
        '4'
    } else if d == 5 {
        '5'
    } else if d == 6 {
        '6'
    } else if d == 7 {
        '7'
    } else if d == 8 {
        '8'
    } else {
        '9'
    }
}

/// The decimal notation of `n`, without leading zeros.
pub open spec fn decimal(n: nat) -> Seq<char>
    decreases n,
{
    if n < 10 {
        seq![digit_char(n)]
    } else {
        decimal(n / 10) + seq![digit_char(n % 10)]
    }
}

/// Copies the characters of `s` into a vector.
pub(crate) fn chars_of(s: &str) -> (r: Vec<char>)
    ensures
        r@ == s@,
{
    let n = s.unicode_len();
    let mut r: Vec<char> = Vec::new();
    let mut i: usize = 0;
    while i < n
        invariant
            n == s@.len(),
            i <= n,
            r@ == s@.subrange(0, i as int),
        decreases n - i,
    {
        r.push(s.get_char(i));
        i = i + 1;
        assert(r@ =~= s@.subrange(0, i as int));
    }
    assert(r@ =~= s@);
    r
}

/// Whether `pat` occurs in `s` at position `i`.
fn occurs_at(s: &Vec<char>, pat: &Vec<char>, i: usize) -> (r: bool)
    requires
        i <= s@.len(),
    ensures
        r == (i + pat@.len() <= s@.len() && s@.subrange(i as int, i + pat@.len()) == pat@),
{
    if pat.len() > s.len() - i {
        return false;
    }
    let sl = s.len();
    let mut j: usize = 0;
    while j < pat.len()
        invariant
            sl == s@.len(),
            i + pat@.len() <= s@.len(),
            j <= pat@.len(),
            forall|k: int| 0 <= k < j ==> s@[i + k] == pat@[k],
        decreases pat@.len() - j,
    {
        if s[i + j] != pat[j] {
            assert(s@.subrange(i as int, i + pat@.len())[j as int] != pat@[j as int]);
            return false;
        }
        j = j + 1;
    }
    assert(s@.subrange(i as int, i + pat@.len()) =~= pat@);
    true
}

/// Replaces every occurrence of `pat` in `s` by `rep`, left to right.
pub fn replace(s: &str, pat: &str, rep: &str) -> (r: String)
    requires
        pat@.len() > 0,
    ensures
        r@ == replace_all(s@, pat@, rep@),
{
    let sv = chars_of(s);
    let pv = chars_of(pat);
    let n = sv.len();
    let m = pv.len();
    let mut out = String::new();
    let mut start: usize = 0;
    let mut i: usize = 0;
    assert(out@ + s@.subrange(0, 0) + replace_all(s@.subrange(0, n as int), pat@, rep@) =~= replace_all(s@, pat@, rep@)) by {
        assert(s@.subrange(0, n as int) =~= s@);
    }
    while i < n
        invariant
            sv@ == s@,
            pv@ == pat@,
            n == s@.len(),
            m == pat@.len(),
            m > 0,
            start <= i <= n,
            out@ + s@.subrange(start as int, i as int) + replace_all(s@.subrange(i as int, n as int), pat@, rep@)
                == replace_all(s@, pat@, rep@),
        decreases n - i,
    {
        let ghost rest = s@.subrange(i as int, n as int);
        if occurs_at(&sv, &pv, i) {
            assert(rest.subrange(0, m as int) =~= s@.subrange(i as int, i + m));
            assert(rest.subrange(m as int, rest.len() as int) =~= s@.subrange(i + m, n as int));
            let ghost a = out@;
            let ghost b = s@.subrange(start as int, i as int);
            let ghost tail = replace_all(s@.subrange(i + m, n as int), pat@, rep@);
            assert(replace_all(rest, pat@, rep@) == rep@ + tail);
            out.append(s.substring_char(start, i));
            out.append(rep);
            i = i + m;
            start = i;
            assert(out@ + s@.subrange(start as int, i as int) + tail =~= a + b + (rep@ + tail));
        } else {
            assert(!(rest.len() >= m && rest.subrange(0, m as int) == pat@)) by {
                if rest.len() >= m {
                    assert(rest.subrange(0, m as int) =~= s@.subrange(i as int, i + m));
                }
            }
            assert(rest.subrange(1, rest.len() as int) =~= s@.subrange(i + 1, n as int));
            assert(s@.subrange(start as int, i + 1) =~= s@.subrange(start as int, i as int) + seq![rest[0]]);
            i = i + 1;
        }
    }
    out.append(s.substring_char(start, n));
    assert(s@.subrange(n as int, n as int) =~= Seq::<char>::empty());
    out
}


/// Whether every character of `s` is a decimal digit.
pub fn is_numeric(s: &str) -> (r: bool)
    ensures
        r == all_digits(s@),
{
    let sv = chars_of(s);
    let mut i: usize = 0;
    while i < sv.len()
        invariant
            sv@ == s@,
            i <= sv@.len(),
            forall|k: int| 0 <= k < i ==> '0' <= #[trigger] s@[k] <= '9',
        decreases sv@.len() - i,
    {
        let c = sv[i];
        if !('0' <= c && c <= '9') {
            return false;
        }
        i = i + 1;
    }
    true
}

/// `s` left-padded with zeros to `PAD_WIDTH` characters when it is a short
/// number, else `s` unchanged.
pub fn pad(s: &str) -> (r: String)
    ensures
        r@ == zero_pad(s@),
{
    let n = s.unicode_len();
    if n >= PAD_WIDTH || !is_numeric(s) {
        return String::from_str(s);
    }
    let mut r = String::new();
    let mut k: usize = n;
    while k < PAD_WIDTH
        invariant
            n == s@.len(),
            n <= k <= PAD_WIDTH,
            r@ == zeros((k - n) as nat),
        decreases PAD_WIDTH - k,
    {
        proof {
            reveal_strlit("0");
        }
        let ghost before = r@;
        r.append("0");
        k = k + 1;
        assert("0"@ =~= seq!['0']);
        assert(r@ =~= zeros((k - n) as nat)) by {
            assert(before =~= zeros((k - 1 - n) as nat));
        }
    }
    r.append(s);
    r
}

/// The one-character text of a decimal digit.
fn digit_str(d: usize) -> (r: &'static str)
    requires
        d < 10,
    ensures
        r@ == seq![digit_char(d as nat)],
{
    proof {
        reveal_strlit("0");
        reveal_strlit("1");
        reveal_strlit("2");
        reveal_strlit("3");
        reveal_strlit("4");
        reveal_strlit("5");
        reveal_strlit("6");
        reveal_strlit("7");
        reveal_strlit("8");
        reveal_strlit("9");
    }
    let r = if d == 0 {
        "0"
    } else if d == 1 {
        "1"
    } else if d == 2 {
        "2"
    } else if d == 3 {
        "3"
    } else if d == 4 {
        "4"
    } else if d == 5 {
        "5"
    } else if d == 6 {
        "6"
    } else if d == 7 {
        "7"
    } else if d == 8 {
        "8"
    } else {
        "9"
    };
    assert(r@ =~= seq![digit_char(d as nat)]);
    r
}

/// Appends the decimal notation of `n` to `out`.
fn append_decimal(out: &mut String, n: usize)
    ensures
        final(out)@ == old(out)@ + decimal(n as nat),
    decreases n,
{
    if n >= 10 {
        append_decimal(out, n / 10);
    }
    out.append(digit_str(n % 10));
    assert(final(out)@ =~= old(out)@ + decimal(n as nat));
}

/// The decimal notation of `n`.
pub fn decimal_string(n: usize) -> (r: String)
    ensures
        r@ == decimal(n as nat),
{
    let mut r = String::new();
    append_decimal(&mut r, n);
    assert(r@ =~= decimal(n as nat));
    r
}

/// Padding changes only short numbers: a value of at least `PAD_WIDTH`
/// characters, or one that is not all digits, is kept as it is; a short
/// number comes out `PAD_WIDTH` digits long; and padding a padded value
/// changes nothing.
pub proof fn lemma_pad_keeps_wide(s: Seq<char>)
    ensures
        s.len() >= PAD_WIDTH ==> zero_pad(s) == s,
        !all_digits(s) ==> zero_pad(s) == s,
        all_digits(s) ==> zero_pad(s).len() >= PAD_WIDTH && all_digits(zero_pad(s)),
        zero_pad(zero_pad(s)) == zero_pad(s),
{
    if s.len() < PAD_WIDTH && all_digits(s) {
        let p = zeros((PAD_WIDTH - s.len()) as nat) + s;
        assert forall|i: int| 0 <= i < p.len() implies '0' <= #[trigger] p[i] <= '9' by {
            if i >= PAD_WIDTH - s.len() {
                assert(p[i] == s[i - (PAD_WIDTH - s.len())]);
            }
        }
    }
}

} // verus!

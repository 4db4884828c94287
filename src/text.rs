//! Small text helpers: decimal numerals, pattern tests and the directory
//! index of an asset file.
use vstd::prelude::*;

verus! {

/// The ten decimal digits, in order.
pub open spec fn digit_chars() -> Seq<char> {
    seq!['0', '1', '2', '3', '4', '5', '6', '7', '8', '9']
}

/// The decimal numeral of `n`, without sign or leading zeros.
pub open spec fn decimal_spec(n: nat) -> Seq<char>
    decreases n,
{
    if n < 10 {
        seq![digit_chars()[n as int]]
    } else {
        decimal_spec(n / 10).push(digit_chars()[(n % 10) as int])
    }
}

fn digit(d: u64) -> (r: &'static str)
    requires
        d < 10,
    ensures
        r@ == seq![digit_chars()[d as int]],
{
    let all = "0123456789";
    proof {
        reveal_strlit("0123456789");
    }
    all.substring_char(d as usize, d as usize + 1)
}

/// The decimal numeral of `n`.
pub fn decimal(n: u64) -> (r: String)
    ensures
        r@ == decimal_spec(n as nat),
    decreases n,
{
    if n < 10 {
        String::from_str(digit(n))
    } else {
        let mut s = decimal(n / 10);
        s.append(digit(n % 10));
        s
    }
}

/// Whether `pat` occurs in `s` starting at position `i`.
pub open spec fn occurs_at(s: Seq<char>, i: int, pat: Seq<char>) -> bool {
    0 <= i && i + pat.len() <= s.len() && s.subrange(i, i + pat.len()) == pat
}

/// Whether `pat` occurs anywhere in `s`.
pub open spec fn contains_spec(s: Seq<char>, pat: Seq<char>) -> bool {
    exists|i: int| occurs_at(s, i, pat)
}

/// Tests whether `pat` occurs in `s` at position `i`.
pub fn occurs_at_exec(s: &str, i: usize, pat: &str) -> (r: bool)
    ensures
        r == occurs_at(s@, i as int, pat@),
{
    let n = s.unicode_len();
    let m = pat.unicode_len();
    if i > n || m > n - i {
        return false;
    }
    let mut k: usize = 0;
    while k < m
        invariant
            i + m <= n,
            n == s@.len(),
            m == pat@.len(),
            k <= m,
            forall|j: int| 0 <= j < k ==> s@[i + j] == pat@[j],
        decreases m - k,
    {
        if s.get_char(i + k) != pat.get_char(k) {
            proof {
                assert(s@.subrange(i as int, i + m)[k as int] != pat@[k as int]);
            }
            return false;
        }
        k = k + 1;
    }
    assert(s@.subrange(i as int, i + m) =~= pat@);
    true
}

/// Tests whether `pat` occurs anywhere in `s`.
pub fn contains_text(s: &str, pat: &str) -> (r: bool)
    ensures
        r == contains_spec(s@, pat@),
{
    let n = s.unicode_len();
    let mut i: usize = 0;
    while i < n
        invariant
            n == s@.len(),
            i <= n,
            forall|j: int| 0 <= j < i ==> !occurs_at(s@, j, pat@),
        decreases n - i,
    {
        if occurs_at_exec(s, i, pat) {
            return true;
        }
        i = i + 1;
    }
    if occurs_at_exec(s, n, pat) {
        return true;
    }
    assert forall|j: int| !occurs_at(s@, j, pat@) by {
        if 0 <= j && j < n as int {
            assert(j < i);
        }
    }
    false
}

/// The file extension removed from map file names in directory indices.
pub open spec fn map_extension() -> Seq<char> {
    seq!['.', 'd', 'm', 'm']
}

/// The directory index of an asset file: every `/` becomes `_` and every
/// `.dmm` is removed, matches taken from left to right.
pub open spec fn file_index_spec(s: Seq<char>) -> Seq<char>
    decreases s.len(),
{
    if s.len() == 0 {
        Seq::empty()
    } else if occurs_at(s, 0, map_extension()) {
        file_index_spec(s.skip(4))
    } else if s[0] == '/' {
        seq!['_'] + file_index_spec(s.skip(1))
    } else {
        seq![s[0]] + file_index_spec(s.skip(1))
    }
}

/// The directory index of the asset file `file`.
pub fn file_index(file: &str) -> (r: String)
    ensures
        r@ == file_index_spec(file@),
{
    let n = file.unicode_len();
    let ext = ".dmm";
    let slash = "_";
    proof {
        reveal_strlit(".dmm");
        reveal_strlit("_");
        assert(ext@ =~= map_extension());
    }
    let mut out = String::new();
    let mut i: usize = 0;
    assert(file@.skip(0) =~= file@);
    assert(out@ + file_index_spec(file@) =~= file_index_spec(file@));
    while i < n
        invariant
            n == file@.len(),
            i <= n,
            ext@ == map_extension(),
            slash@ == seq!['_'],
            out@ + file_index_spec(file@.skip(i as int)) == file_index_spec(file@),
        decreases n - i,
    {
        let rest = Ghost(file@.skip(i as int));
        let at_ext = occurs_at_exec(file, i, ext);
        proof {
            if occurs_at(file@, i as int, map_extension()) {
                assert(rest@.subrange(0, 4) =~= file@.subrange(i as int, i + 4));
            }
            if occurs_at(rest@, 0, map_extension()) {
                assert(rest@.subrange(0, 4) =~= file@.subrange(i as int, i + 4));
            }
        }
        if at_ext {
            proof {
                assert(rest@.skip(4) =~= file@.skip(i + 4));
            }
            i = i + 4;
        } else {
            let c = file.get_char(i);
            proof {
                assert(rest@.skip(1) =~= file@.skip(i + 1));
                assert(rest@[0] == c);
            }
            if c == '/' {
                proof {
                    assert((out@ + slash@) + file_index_spec(rest@.skip(1)) =~= out@ + (
                    seq!['_'] + file_index_spec(rest@.skip(1))));
                }
                out.append(slash);
            } else {
                let one = file.substring_char(i, i + 1);
                proof {
                    assert(one@ =~= seq![c]);
                    assert((out@ + one@) + file_index_spec(rest@.skip(1)) =~= out@ + (seq![c]
                        + file_index_spec(rest@.skip(1))));
                }
                out.append(one);
            }
            i = i + 1;
        }
    }
    proof {
        assert(file_index_spec(file@.skip(i as int)) =~= Seq::<char>::empty());
        assert(out@ + Seq::<char>::empty() =~= out@);
    }
    out
}

} // verus!

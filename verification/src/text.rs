//! Small verified text helpers: string comparison, decimal formatting of
//! ids, and the file-name safety check used by the image pipeline.

use vstd::prelude::*;
use vstd::string::StrSliceExecFns;
use vstd::string::StringExecFns;

verus! {

/// Character-by-character string equality.
pub fn str_eq(a: &str, b: &str) -> (r: bool)
    ensures
        r == (a@ == b@),
{
    let alen = a.unicode_len();
    let blen = b.unicode_len();
    if alen != blen {
        return false;
    }
    let mut i: usize = 0;
    while i < alen
        invariant
            0 <= i <= alen,
            alen == a@.len(),
            alen == b@.len(),
            forall|j: int| 0 <= j < i ==> a@[j] == b@[j],
        decreases alen - i,
    {
        if a.get_char(i) != b.get_char(i) {
            return false;
        }
        i += 1;
    }
    proof {
        assert(a@ =~= b@);
    }
    true
}

/// The character of a single decimal digit.
pub open spec fn digit_char(d: nat) -> char {
    if d == 0 {
        '0'
    } else if d == 1 {
        '1'
    } else if d == 2 {
        '2'
    } else if d == 3 {
        '3'
    } else if d == 4 {
        '4'
    } else if d == 5 {
        '5'
    } else if d == 6 {
        '6'
    } else if d == 7 {
        '7'
    } else if d == 8 {
        '8'
    } else {
        '9'
    }
}

/// The decimal digits of `n`, most significant first, without leading zeros
/// (a single `'0'` for zero).
pub open spec fn dec_digits(n: nat) -> Seq<char>
    decreases n,
{
    if n < 10 {
        seq![digit_char(n)]
    } else {
        dec_digits(n / 10).push(digit_char(n % 10))
    }
}

fn digit_str(d: u64) -> (r: &'static str)
    requires
        d < 10,
    ensures
        r@ == seq![digit_char(d as nat)],
{
    proof {
        reveal_strlit("0");
        reveal_strlit("1");
        reveal_strlit("2");
        reveal_strlit("3");
        reveal_strlit("4");
        reveal_strlit("5");
        reveal_strlit("6");
        reveal_strlit("7");
        reveal_strlit("8");
        reveal_strlit("9");
    }
    match d {
        0 => "0",
        1 => "1",
        2 => "2",
        3 => "3",
        4 => "4",
        5 => "5",
        6 => "6",
        7 => "7",
        8 => "8",
        _ => "9",
    }
}

/// Renders `n` in decimal.
pub fn u64_to_dec(n: u64) -> (r: String)
    ensures
        r@ == dec_digits(n as nat),
    decreases n,
{
    if n < 10 {
        digit_str(n).to_owned()
    } else {
        let mut s = u64_to_dec(n / 10);
        s.append(digit_str(n % 10));
        proof {
            assert(s@ =~= dec_digits((n / 10) as nat).push(digit_char((n % 10) as nat)));
        }
        s
    }
}

/// A decimal rendering never holds a path separator or a dot and is never
/// empty.
pub proof fn lemma_dec_digits_plain(n: nat)
    ensures
        dec_digits(n).len() >= 1,
        forall|i: int|
            0 <= i < dec_digits(n).len() ==> #[trigger] dec_digits(n)[i] != '/' && dec_digits(n)[i]
                != '\\' && dec_digits(n)[i] != '.',
    decreases n,
{
    if n >= 10 {
        lemma_dec_digits_plain(n / 10);
    }
}

/// A path is safe to resolve under the content directory when it is a plain
/// file name: non-empty, free of separators, and not a dot component. Every
/// resolved path then stays inside the directory.
pub open spec fn safe_path(s: Seq<char>) -> bool {
    &&& s.len() > 0
    &&& (forall|i: int| 0 <= i < s.len() ==> s[i] != '/' && s[i] != '\\')
    &&& s != "."@
    &&& s != ".."@
}

/// Checks `safe_path` on a client-supplied path segment.
pub fn is_safe_path(path: &str) -> (r: bool)
    ensures
        r == safe_path(path@),
{
    proof {
        reveal_strlit(".");
        reveal_strlit("..");
    }
    let n = path.unicode_len();
    if n == 0 {
        return false;
    }
    let mut i: usize = 0;
    while i < n
        invariant
            0 <= i <= n,
            n == path@.len(),
            forall|j: int| 0 <= j < i ==> path@[j] != '/' && path@[j] != '\\',
        decreases n - i,
    {
        let c = path.get_char(i);
        if c == '/' || c == '\\' {
            return false;
        }
        i += 1;
    }
    if n == 1 && path.get_char(0) == '.' {
        proof {
            assert(path@ =~= "."@);
        }
        return false;
    }
    if n == 2 && path.get_char(0) == '.' && path.get_char(1) == '.' {
        proof {
            assert(path@ =~= ".."@);
        }
        return false;
    }
    proof {
        assert(path@ != "."@ && path@ != ".."@) by {
            if path@ == "."@ {
                assert(path@[0] == '.');
            }
            if path@ == ".."@ {
                assert(path@[0] == '.' && path@[1] == '.');
            }
        }
    }
    true
}

} // verus!

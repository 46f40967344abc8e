use vstd::prelude::*;

verus! {

pub open spec fn is_prefix(p: Seq<char>, s: Seq<char>) -> bool {
    p.len() <= s.len() && s.subrange(0, p.len() as int) == p
}

pub open spec fn is_suffix(p: Seq<char>, s: Seq<char>) -> bool {
    p.len() <= s.len() && s.subrange(s.len() - p.len(), s.len() as int) == p
}

pub open spec fn occurs_at(p: Seq<char>, s: Seq<char>, i: int) -> bool {
    0 <= i && i + p.len() <= s.len() && s.subrange(i, i + p.len()) == p
}

pub open spec fn contains_seq(s: Seq<char>, p: Seq<char>) -> bool {
    exists|i: int| occurs_at(p, s, i)
}

/// `s` with every leading `c` removed.
pub open spec fn trim_start(s: Seq<char>, c: char) -> Seq<char>
    decreases s.len(),
{
    if s.len() > 0 && s[0] == c {
        trim_start(s.drop_first(), c)
    } else {
        s
    }
}

/// Whether `p` matches `s` at position `at`, compared character by character.
fn matches_at(s: &str, slen: usize, p: &str, plen: usize, at: usize) -> (r: bool)
    requires
        slen == s@.len(),
        plen == p@.len(),
        at + plen <= slen,
    ensures
        r == occurs_at(p@, s@, at as int),
{
    let mut i: usize = 0;
    while i < plen
        invariant
            slen == s@.len(),
            plen == p@.len(),
            at + plen <= slen,
            i <= plen,
            forall|k: int| 0 <= k < i ==> s@[at + k] == p@[k],
        decreases plen - i,
    {
        if s.get_char(at + i) != p.get_char(i) {
            assert(s@.subrange(at as int, at + plen)[i as int] != p@[i as int]);
            return false;
        }
        i = i + 1;
    }
    assert(s@.subrange(at as int, at + plen) =~= p@);
    true
}

pub fn str_eq(a: &str, b: &str) -> (r: bool)
    ensures
        r == (a@ == b@),
{
    let alen = a.unicode_len();
    let blen = b.unicode_len();
    if alen != blen {
        return false;
    }
    let r = matches_at(a, alen, b, blen, 0);
    assert(a@.subrange(0, alen as int) =~= a@);
    r
}

pub fn starts_with(s: &str, p: &str) -> (r: bool)
    ensures
        r == is_prefix(p@, s@),
{
    let slen = s.unicode_len();
    let plen = p.unicode_len();
    if plen > slen {
        return false;
    }
    matches_at(s, slen, p, plen, 0)
}

pub fn ends_with(s: &str, p: &str) -> (r: bool)
    ensures
        r == is_suffix(p@, s@),
{
    let slen = s.unicode_len();
    let plen = p.unicode_len();
    if plen > slen {
        return false;
    }
    matches_at(s, slen, p, plen, slen - plen)
}

pub fn contains(s: &str, p: &str) -> (r: bool)
    ensures
        r == contains_seq(s@, p@),
{
    let slen = s.unicode_len();
    let plen = p.unicode_len();
    if plen > slen {
        assert forall|i: int| !occurs_at(p@, s@, i) by {}
        return false;
    }
    let last = slen - plen;
    let mut at: usize = 0;
    loop
        invariant
            slen == s@.len(),
            plen == p@.len(),
            last == slen - plen,
            at <= last,
            forall|i: int| 0 <= i < at ==> !occurs_at(p@, s@, i),
        decreases last - at,
    {
        if matches_at(s, slen, p, plen, at) {
            return true;
        }
        if at == last {
            assert forall|i: int| !occurs_at(p@, s@, i) by {}
            return false;
        }
        at = at + 1;
    }
}

/// The first position at or after `i` where `p` occurs in `s`, or -1.
pub open spec fn find_from(s: Seq<char>, p: Seq<char>, i: int) -> int
    decreases s.len() + 1 - i,
{
    if i < 0 || i + p.len() > s.len() {
        -1
    } else if occurs_at(p, s, i) {
        i
    } else {
        find_from(s, p, i + 1)
    }
}

/// The first position where `p` occurs in `s`.
pub fn find(s: &str, p: &str) -> (r: Option<usize>)
    ensures
        match r {
            Some(i) => find_from(s@, p@, 0) == i as int,
            None => find_from(s@, p@, 0) == -1,
        },
{
    let slen = s.unicode_len();
    let plen = p.unicode_len();
    if plen > slen {
        return None;
    }
    let last = slen - plen;
    let mut at: usize = 0;
    loop
        invariant
            slen == s@.len(),
            plen == p@.len(),
            last == slen - plen,
            at <= last,
            find_from(s@, p@, 0) == find_from(s@, p@, at as int),
        decreases last - at,
    {
        if matches_at(s, slen, p, plen, at) {
            return Some(at);
        }
        if at == last {
            assert(find_from(s@, p@, at + 1) == -1);
            return None;
        }
        at = at + 1;
    }
}

/// The string with every leading `c` removed.
pub fn trim_start_char(s: &str, c: char) -> (r: &str)
    ensures
        r@ == trim_start(s@, c),
{
    let slen = s.unicode_len();
    let mut i: usize = 0;
    assert(s@.subrange(0, slen as int) =~= s@);
    while i < slen && s.get_char(i) == c
        invariant
            slen == s@.len(),
            i <= slen,
            trim_start(s@, c) == trim_start(s@.subrange(i as int, slen as int), c),
        decreases slen - i,
    {
        let ghost rest = s@.subrange(i as int, slen as int);
        assert(rest.drop_first() =~= s@.subrange(i + 1, slen as int));
        i = i + 1;
    }
    let r = s.substring_char(i, slen);
    r
}

/// The one-character string of a decimal digit.
pub(crate) fn digit_str(d: u64) -> (r: &'static str)
    requires
        d < 10,
    ensures
        r@ == seq![digit_char(d as nat)],
{
        if d == 0 {
            proof {
                reveal_strlit("0");
            }
            "0"
        } else if d == 1 {
            proof {
                reveal_strlit("1");
            }
            "1"
        } else if d == 2 {
            proof {
                reveal_strlit("2");
            }
            "2"
        } else if d == 3 {
            proof {
                reveal_strlit("3");
            }
            "3"
        } else if d == 4 {
            proof {
                reveal_strlit("4");
            }
            "4"
        } else if d == 5 {
            proof {
                reveal_strlit("5");
            }
            "5"
        } else if d == 6 {
            proof {
                reveal_strlit("6");
            }
            "6"
        } else if d == 7 {
            proof {
                reveal_strlit("7");
            }
            "7"
        } else if d == 8 {
            proof {
                reveal_strlit("8");
            }
            "8"
        } else {
            proof {
                reveal_strlit("9");
            }
            "9"
        }
}

/// Appends the decimal digits of `n`.
pub(crate) fn push_decimal(s: &mut String, n: u64)
    ensures
        final(s)@ == old(s)@ + decimal(n as nat),
    decreases n,
{
    if n < 10 {
        s.append(digit_str(n));
    } else {
        push_decimal(s, n / 10);
        s.append(digit_str(n % 10));
        assert(decimal(n as nat) == decimal((n / 10) as nat).push(digit_char((n % 10) as nat)));
        assert(old(s)@ + decimal(n as nat) =~= old(s)@ + decimal((n / 10) as nat) + seq![
            digit_char((n % 10) as nat),
        ]);
    }
}

/// The decimal digits of the number.
pub(crate) fn u64_string(n: u64) -> (r: String)
    ensures
        r@ == decimal(n as nat),
{
    let mut s = String::new();
    push_decimal(&mut s, n);
    assert(s@ =~= decimal(n as nat));
    s
}

/// The decimal digits, with a leading minus sign for a negative number.
pub(crate) fn i32_string(n: i32) -> (r: String)
    ensures
        r@ == signed_decimal(n as int),
{
    let mut s = String::new();
    if n < 0 {
        s.append("-");
        proof {
            reveal_strlit("-");
        }
        let m: u64 = (0i64 - n as i64) as u64;
        push_decimal(&mut s, m);
        assert(s@ =~= seq!['-'] + decimal((-n) as nat));
    } else {
        push_decimal(&mut s, n as u64);
        assert(s@ =~= decimal(n as nat));
    }
    s
}

pub open spec fn digit_char(d: nat) -> char {
    if d == 0 {
        '0'
    } else if d == 1 {
        '1'
    } else if d == 2 {
        '2'
    } else if d == 3 {
        '3'
    } else if d == 4 {
        '4'
    } else if d == 5 {
        '5'
    } else if d == 6 {
        '6'
    } else if d == 7 {
        '7'
    } else if d == 8 {
        '8'
    } else {
        '9'
    }
}

/// Decimal notation of a natural number, without leading zeros.
pub open spec fn decimal(n: nat) -> Seq<char>
    decreases n,
{
    if n < 10 {
        seq![digit_char(n)]
    } else {
        decimal(n / 10).push(digit_char(n % 10))
    }
}

pub open spec fn signed_decimal(n: int) -> Seq<char> {
    if n < 0 {
        seq!['-'] + decimal((-n) as nat)
    } else {
        decimal(n as nat)
    }
}

} // verus!

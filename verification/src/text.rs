use vstd::prelude::*;
use vstd::string::*;

verus! {

/// The decimal digit for `d`.
pub open spec fn digit(d: nat) -> char {
    if d == 0 { '0' }
    else if d == 1 { '1' }
    else if d == 2 { '2' }
    else if d == 3 { '3' }
    else if d == 4 { '4' }
    else if d == 5 { '5' }
    else if d == 6 { '6' }
    else if d == 7 { '7' }
    else if d == 8 { '8' }
    else { '9' }
}

/// The decimal rendering of `n`, without leading zeros.
pub open spec fn decimal(n: nat) -> Seq<char>
    decreases n,
{
    if n < 10 {
        seq![digit(n)]
    } else {
        decimal(n / 10) + seq![digit(n % 10)]
    }
}

fn digit_text(d: u64) -> (text: &'static str)
    requires
        d < 10,
    ensures
        text@ == seq![digit(d as nat)],
{
    if d == 0 {
        proof { reveal_strlit("0"); }
        "0"
    } else if d == 1 {
        proof { reveal_strlit("1"); }
        "1"
    } else if d == 2 {
        proof { reveal_strlit("2"); }
        "2"
    } else if d == 3 {
        proof { reveal_strlit("3"); }
        "3"
    } else if d == 4 {
        proof { reveal_strlit("4"); }
        "4"
    } else if d == 5 {
        proof { reveal_strlit("5"); }
        "5"
    } else if d == 6 {
        proof { reveal_strlit("6"); }
        "6"
    } else if d == 7 {
        proof { reveal_strlit("7"); }
        "7"
    } else if d == 8 {
        proof { reveal_strlit("8"); }
        "8"
    } else {
        proof { reveal_strlit("9"); }
        "9"
    }
}

/// Appends the decimal rendering of `n` to `out`.
pub fn push_decimal(out: &mut String, n: u64)
    ensures
        final(out)@ == old(out)@ + decimal(n as nat),
    decreases n,
{
    if n >= 10 {
        push_decimal(out, n / 10);
    }
    out.append(digit_text(n % 10));
    proof {
        if n >= 10 {
            assert(old(out)@ + decimal((n / 10) as nat) + seq![digit((n % 10) as nat)]
                =~= old(out)@ + decimal(n as nat));
        } else {
            assert(old(out)@ + seq![digit((n % 10) as nat)] =~= old(out)@ + decimal(n as nat));
        }
    }
}

/// Whether two strings hold the same characters.
pub fn same_text(a: &str, b: &str) -> (equal: bool)
    ensures
        equal == (a@ == b@),
{
    a.to_owned() == b.to_owned()
}

/// Whether `text` begins with `prefix`.
pub open spec fn has_prefix(text: Seq<char>, prefix: Seq<char>) -> bool {
    prefix.len() <= text.len() && text.subrange(0, prefix.len() as int) == prefix
}

/// Whether `text` begins with `prefix`.
pub fn starts_with(text: &str, prefix: &str) -> (found: bool)
    ensures
        found == has_prefix(text@, prefix@),
{
    let n = text.unicode_len();
    let m = prefix.unicode_len();
    if m > n {
        return false;
    }
    let mut i: usize = 0;
    while i < m
        invariant
            m == prefix@.len(),
            n == text@.len(),
            m <= n,
            i <= m,
            forall|j: int| 0 <= j < i ==> text@[j] == prefix@[j],
        decreases m - i,
    {
        if text.get_char(i) != prefix.get_char(i) {
            proof {
                assert(text@.subrange(0, m as int)[i as int] != prefix@[i as int]);
            }
            return false;
        }
        i = i + 1;
    }
    proof {
        assert(text@.subrange(0, m as int) =~= prefix@);
    }
    true
}

/// The position of the last `c` in `text`, if any.
pub open spec fn last_index_of(text: Seq<char>, c: char) -> Option<int> {
    if exists|i: int| 0 <= i < text.len() && text[i] == c {
        Some(choose|i: int| 0 <= i < text.len() && text[i] == c
            && forall|j: int| i < j < text.len() ==> text[j] != c)
    } else {
        None
    }
}

/// Returns the position of the last `c` in `text`.
pub fn find_last(text: &str, c: char) -> (found: Option<usize>)
    ensures
        match last_index_of(text@, c) {
            Some(i) => found matches Some(k) && k == i && 0 <= i < text@.len(),
            None => found.is_none(),
        },
{
    let n = text.unicode_len();
    let mut i: usize = n;
    while i > 0
        invariant
            n == text@.len(),
            i <= n,
            forall|j: int| i <= j < n ==> text@[j] != c,
        decreases i,
    {
        i = i - 1;
        if text.get_char(i) == c {
            proof {
                let k = i as int;
                let w = choose|w: int| 0 <= w < text@.len() && text@[w] == c
                    && forall|j: int| w < j < text@.len() ==> text@[j] != c;
                assert(w == k) by {
                    if w < k {
                        assert(text@[k] != c);
                    } else if w > k {
                    }
                }
            }
            return Some(i);
        }
    }
    None
}

} // verus!

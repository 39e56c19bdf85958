use vstd::prelude::*;
use vstd::string::StrSliceExecFns;
use vstd::string::StringExecFns;

verus! {

/// Character-for-character string equality, stated over the views.
pub fn str_eq(a: &str, b: &str) -> (r: bool)
    ensures
        r == (a@ == b@),
{
    let na = a.unicode_len();
    let nb = b.unicode_len();
    if na != nb {
        return false;
    }
    let mut i: usize = 0;
    while i < na
        invariant
            i <= na,
            na == a@.len(),
            na == b@.len(),
            forall|k: int| 0 <= k < i ==> a@[k] == b@[k],
        decreases na - i,
    {
        if a.get_char(i) != b.get_char(i) {
            return false;
        }
        i = i + 1;
    }
    proof {
        assert(a@ =~= b@);
    }
    true
}

/// An ASCII capital letter, `'A'` through `'Z'`.
pub open spec fn is_upper(c: char) -> bool {
    65 <= c as u32 && c as u32 <= 90
}

/// `m` is the start of a parenthesised ticker suffix: the string ends in
/// `" (T)"` where `T = s[m .. s.len() - 1]` is a non-empty run of capital
/// letters.
pub open spec fn ticker_split_at(s: Seq<char>, m: int) -> bool {
    &&& 2 <= m
    &&& m + 1 < s.len()
    &&& s[s.len() - 1] == ')'
    &&& s[m - 1] == '('
    &&& s[m - 2] == ' '
    &&& forall|i: int| m <= i < s.len() - 1 ==> is_upper(#[trigger] s[i])
}

/// The investment name ends in a parenthesised capital-letter ticker.
pub open spec fn has_ticker(s: Seq<char>) -> bool {
    exists|m: int| ticker_split_at(s, m)
}

/// The ticker captured from the suffix, meaningful only when
/// `has_ticker(s)` holds.
pub open spec fn ticker_of(s: Seq<char>) -> Seq<char> {
    s.subrange(choose|m: int| ticker_split_at(s, m), s.len() - 1)
}

/// There is at most one place a ticker suffix can start: the run of
/// capitals is closed on the left by `'('`, which is not a capital.
pub proof fn lemma_ticker_split_unique(s: Seq<char>, m1: int, m2: int)
    requires
        ticker_split_at(s, m1),
        ticker_split_at(s, m2),
    ensures
        m1 == m2,
{
    if m1 < m2 {
        assert(is_upper(s[m2 - 1]));
        assert(s[m2 - 1] == '(');
    }
    if m2 < m1 {
        assert(is_upper(s[m1 - 1]));
        assert(s[m1 - 1] == '(');
    }
}

/// Extract the ticker symbol from an investment name of the form
/// `"<free text> (<TICKER>)"`; `None` when the name lacks that suffix.
pub fn extract_ticker_symbol(name: &str) -> (r: Option<String>)
    ensures
        r is Some <==> has_ticker(name@),
        r matches Some(t) ==> t@ == ticker_of(name@),
{
    let n = name.unicode_len();
    if n < 4 {
        return None;
    }
    if name.get_char(n - 1) != ')' {
        return None;
    }
    // Find the start of the maximal run of capitals ending just before the
    // final ')'.
    let mut m: usize = n - 1;
    loop
        invariant
            1 <= m <= n - 1,
            4 <= n == name@.len(),
            name@[n - 1] == ')',
            forall|i: int| m <= i < n - 1 ==> is_upper(#[trigger] name@[i]),
        ensures
            1 <= m <= n - 1,
            forall|i: int| m <= i < n - 1 ==> is_upper(#[trigger] name@[i]),
            m == 1 || !is_upper(name@[m - 1]),
        decreases m,
    {
        if m == 1 {
            break;
        }
        let c = name.get_char(m - 1);
        let u = c as u32;
        if 65 <= u && u <= 90 {
            m = m - 1;
        } else {
            break;
        }
    }
    // A valid suffix start must coincide with the start of that maximal run.
    proof {
        assert forall|m2: int| ticker_split_at(name@, m2) implies m2 == m as int by {
            if m2 < m {
                assert(is_upper(name@[m as int - 1]));
            }
            if m2 > m {
                assert(is_upper(name@[m2 - 1]));
                assert(name@[m2 - 1] == '(');
            }
        }
    }
    if m + 1 >= n {
        // The run is empty: no non-empty capital run can precede the ')'.
        return None;
    }
    if m < 2 {
        return None;
    }
    if name.get_char(m - 1) != '(' {
        return None;
    }
    if name.get_char(m - 2) != ' ' {
        return None;
    }
    assert(ticker_split_at(name@, m as int));
    let t = name.substring_char(m, n - 1);
    proof {
        lemma_ticker_split_unique(name@, m as int, choose|m2: int| ticker_split_at(name@, m2));
    }
    Some(String::from_str(t))
}

/// `k` is the position of `" (VG"` opening an account identifier.
pub open spec fn acct_open_at(s: Seq<char>, k: int) -> bool {
    &&& 0 <= k
    &&& k + 3 < s.len()
    &&& s[k] == ' '
    &&& s[k + 1] == '('
    &&& s[k + 2] == 'V'
    &&& s[k + 3] == 'G'
}

/// `j` is the position of the last `')'` in `s`.
pub open spec fn is_last_close(s: Seq<char>, j: int) -> bool {
    &&& 0 <= j < s.len()
    &&& s[j] == ')'
    &&& forall|i: int| j < i < s.len() ==> s[i] != ')'
}

/// The capture of the account-id pattern `"<free text> (VG…)"`: the last
/// `" (VG"` opening that still leaves a `')'` to close it, paired with the
/// last `')'` of the string.  The captured identifier is `s[k + 2 .. j]`.
pub open spec fn account_capture_at(s: Seq<char>, k: int, j: int) -> bool {
    &&& is_last_close(s, j)
    &&& acct_open_at(s, k)
    &&& k + 4 <= j
    &&& forall|k2: int| k < k2 && k2 + 4 <= j ==> !acct_open_at(s, k2)
}

/// The text encodes an account identifier `"… (VG…)"`.
pub open spec fn has_account_id(s: Seq<char>) -> bool {
    exists|k: int, j: int| account_capture_at(s, k, j)
}

/// The captured account identifier, meaningful only when
/// `has_account_id(s)` holds.  It always starts with `"VG"`.
pub open spec fn account_id_of(s: Seq<char>) -> Seq<char> {
    let (k, j) = choose|k: int, j: int| account_capture_at(s, k, j);
    s.subrange(k + 2, j)
}

/// The capture positions are unique: the close is the last `')'` and the
/// opening is the last `" (VG"` before it.
pub proof fn lemma_account_capture_unique(s: Seq<char>, k1: int, j1: int, k2: int, j2: int)
    requires
        account_capture_at(s, k1, j1),
        account_capture_at(s, k2, j2),
    ensures
        k1 == k2,
        j1 == j2,
{
    if j1 < j2 {
        assert(s[j2] != ')');
    }
    if j2 < j1 {
        assert(s[j1] != ')');
    }
    if k1 < k2 {
        assert(!acct_open_at(s, k2));
    }
    if k2 < k1 {
        assert(!acct_open_at(s, k1));
    }
}

/// Extract a canonical account identifier from text of the form
/// `"<free text> (VG…)"`; `None` when the pattern is absent.
pub fn extract_account_id(text: &str) -> (r: Option<String>)
    ensures
        r is Some <==> has_account_id(text@),
        r matches Some(id) ==> id@ == account_id_of(text@),
{
    let n = text.unicode_len();
    // Find the last ')'.
    let mut jj: usize = n;
    loop
        invariant
            jj <= n,
            n == text@.len(),
            forall|i: int| jj <= i < n ==> text@[i] != ')',
        ensures
            jj <= n,
            forall|i: int| jj <= i < n ==> text@[i] != ')',
            jj == 0 || text@[jj - 1] == ')',
        decreases jj,
    {
        if jj == 0 {
            break;
        }
        if text.get_char(jj - 1) == ')' {
            break;
        }
        jj = jj - 1;
    }
    if jj == 0 {
        // No ')' at all, so no capture is possible.
        assert(forall|k: int, j: int| !account_capture_at(text@, k, j));
        return None;
    }
    let j = jj - 1;
    assert(is_last_close(text@, j as int));
    if j < 4 {
        // An opening needs four characters before the close.
        proof {
            assert forall|k: int, j2: int| account_capture_at(text@, k, j2) implies false by {
                if j2 < j { assert(text@[j as int] != ')'); }
                if j2 > j { assert(text@[j2] != ')'); }
            }
        }
        return None;
    }
    // Scan down for the last " (VG" that leaves room for the close.
    let mut kk: usize = j - 4;
    let mut found = false;
    loop
        invariant_except_break
            !found,
        invariant
            kk <= j - 4,
            4 <= j < n == text@.len(),
            is_last_close(text@, j as int),
            forall|k2: int| kk < k2 && k2 + 4 <= j ==> !acct_open_at(text@, k2),
        ensures
            kk + 4 <= j,
            found ==> account_capture_at(text@, kk as int, j as int),
            !found ==> forall|k2: int| 0 <= k2 && k2 + 4 <= j ==> !acct_open_at(text@, k2),
        decreases kk,
    {
        let open_here = text.get_char(kk) == ' ' && text.get_char(kk + 1) == '('
            && text.get_char(kk + 2) == 'V' && text.get_char(kk + 3) == 'G';
        if open_here {
            assert(acct_open_at(text@, kk as int));
            found = true;
            break;
        }
        assert(!acct_open_at(text@, kk as int));
        if kk == 0 {
            break;
        }
        kk = kk - 1;
    }
    if !found {
        // Any capture's close would be this `j`, but nothing opens before it.
        assert forall|k2: int, j2: int| account_capture_at(text@, k2, j2) implies false by {
            assert(j2 == j as int) by {
                if j2 < j { assert(text@[j as int] != ')'); }
                if j2 > j { assert(text@[j2] != ')'); }
            }
        }
        return None;
    }
    assert(account_capture_at(text@, kk as int, j as int));
    let id = text.substring_char(kk + 2, j);
    proof {
        let (k3, j3) = choose|k3: int, j3: int| account_capture_at(text@, k3, j3);
        lemma_account_capture_unique(text@, kk as int, j as int, k3, j3);
    }
    Some(String::from_str(id))
}

} // verus!

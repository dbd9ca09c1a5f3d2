//! Character-level text helpers: replacement, prefix/suffix tests,
//! substring search from the right, relative-path computation and decimal
//! rendering. All results are pinned to spec functions over `Seq<char>`.

use vstd::prelude::*;

verus! {

/// `s` with every occurrence of `from` replaced by the character `to`.
pub open spec fn replaced(s: Seq<char>, from: char, to: char) -> Seq<char> {
    Seq::new(s.len(), |i: int| if s[i] == from { to } else { s[i] })
}

/// `s` with every occurrence of `from` expanded to the string `with`.
pub open spec fn expanded(s: Seq<char>, from: char, with: Seq<char>) -> Seq<char>
    decreases s.len(),
{
    if s.len() == 0 {
        Seq::empty()
    } else {
        (if s[0] == from { with } else { seq![s[0]] }) + expanded(s.drop_first(), from, with)
    }
}

/// Expansion of a string grown by one character on the right.
pub proof fn lemma_expanded_push(s: Seq<char>, c: char, from: char, with: Seq<char>)
    ensures
        expanded(s.push(c), from, with)
            == expanded(s, from, with) + (if c == from { with } else { seq![c] }),
    decreases s.len(),
{
    if s.len() == 0 {
        reveal_with_fuel(expanded, 2);
        assert(s.push(c).drop_first() =~= Seq::<char>::empty());
        assert(s.push(c)[0] == c);
        assert(expanded(s.push(c), from, with)
            =~= (if c == from { with } else { seq![c] }));
        assert(expanded(s, from, with) + (if c == from { with } else { seq![c] })
            =~= (if c == from { with } else { seq![c] }));
    } else {
        lemma_expanded_push(s.drop_first(), c, from, with);
        assert(s.push(c).drop_first() =~= s.drop_first().push(c));
        assert(s.push(c)[0] == s[0]);
        assert(expanded(s.push(c), from, with)
            =~= expanded(s, from, with) + (if c == from { with } else { seq![c] }));
    }
}

/// `p` is a prefix of `s`.
pub open spec fn is_prefix(p: Seq<char>, s: Seq<char>) -> bool {
    p.len() <= s.len() && s.subrange(0, p.len() as int) == p
}

/// `p` is a suffix of `s`.
pub open spec fn is_suffix(p: Seq<char>, s: Seq<char>) -> bool {
    p.len() <= s.len() && s.subrange(s.len() - p.len(), s.len() as int) == p
}

/// `pat` occurs in `s` starting at position `i`.
pub open spec fn matches_at(s: Seq<char>, pat: Seq<char>, i: int) -> bool {
    0 <= i && i + pat.len() <= s.len() && s.subrange(i, i + pat.len()) == pat
}

/// The last position `< n` where `pat` occurs in `s`, if any.
pub open spec fn last_match_before(s: Seq<char>, pat: Seq<char>, n: nat) -> Option<int>
    decreases n,
{
    if n == 0 {
        None
    } else if matches_at(s, pat, n - 1) {
        Some(n - 1)
    } else {
        last_match_before(s, pat, (n - 1) as nat)
    }
}

/// The last position where `pat` occurs in `s`, if any.
pub open spec fn last_match(s: Seq<char>, pat: Seq<char>) -> Option<int> {
    if pat.len() <= s.len() {
        last_match_before(s, pat, (s.len() - pat.len() + 1) as nat)
    } else {
        None
    }
}

/// What `last_match_before` returns is the last occurrence below `n`.
pub proof fn lemma_last_match_before(s: Seq<char>, pat: Seq<char>, n: nat)
    ensures
        match last_match_before(s, pat, n) {
            Some(j) => matches_at(s, pat, j) && j < n
                && forall|k: int| j < k < n ==> !matches_at(s, pat, k),
            None => forall|k: int| 0 <= k < n ==> !matches_at(s, pat, k),
        },
    decreases n,
{
    if n > 0 {
        lemma_last_match_before(s, pat, (n - 1) as nat);
    }
}

/// What `last_match` returns is the last occurrence in `s`.
pub proof fn lemma_last_match(s: Seq<char>, pat: Seq<char>)
    ensures
        match last_match(s, pat) {
            Some(j) => matches_at(s, pat, j)
                && forall|k: int| k > j ==> !matches_at(s, pat, k),
            None => forall|k: int| !matches_at(s, pat, k),
        },
{
    if pat.len() <= s.len() {
        lemma_last_match_before(s, pat, (s.len() - pat.len() + 1) as nat);
    }
}

/// The first position `>= from` where character `c` occurs in `s`, if any.
pub open spec fn first_from(s: Seq<char>, c: char, from: int) -> Option<int>
    decreases s.len() - from,
{
    if from < 0 || from >= s.len() {
        None
    } else if s[from] == c {
        Some(from)
    } else {
        first_from(s, c, from + 1)
    }
}

/// What `first_from` returns is the first occurrence at or after `from`.
pub proof fn lemma_first_from(s: Seq<char>, c: char, from: int)
    requires
        0 <= from,
    ensures
        match first_from(s, c, from) {
            Some(j) => from <= j < s.len() && s[j] == c
                && forall|k: int| from <= k < j ==> s[k] != c,
            None => forall|k: int| from <= k < s.len() ==> s[k] != c,
        },
    decreases s.len() - from,
{
    if from < s.len() && s[from] != c {
        lemma_first_from(s, c, from + 1);
    }
}

/// The root-relative form of `path` under `root`, if `path` lies under it:
/// the remainder after the root and a separating `/` (after nothing, when
/// the root is empty).
pub open spec fn rel_path_to(root: Seq<char>, path: Seq<char>) -> Option<Seq<char>> {
    if !is_prefix(root, path) {
        None
    } else if root.len() == 0 {
        Some(path)
    } else if path.len() > root.len() && path[root.len() as int] == '/' {
        Some(path.subrange(root.len() as int + 1, path.len() as int))
    } else {
        None
    }
}

/// The final component of a path: everything after the last `/`.
pub open spec fn file_name_of(path: Seq<char>) -> Seq<char> {
    match last_match(path, seq!['/']) {
        Some(j) => path.subrange(j + 1, path.len() as int),
        None => path,
    }
}

/// The final component of a path: everything after the last `/`.
pub fn file_name(s: &str) -> (r: String)
    ensures
        r@ == file_name_of(s@),
{
    proof {
        reveal_strlit("/");
        assert("/"@ =~= seq!['/']);
        lemma_last_match(s@, seq!['/']);
    }
    match rfind_str(s, "/") {
        Some(j) => {
            let n = s.unicode_len();
            let tail = s.substring_char(j + 1, n);
            let r = tail.to_owned();
            proof {
                assert(r@ =~= file_name_of(s@));
            }
            r
        },
        None => s.to_owned(),
    }
}

/// The decimal digit characters.
pub open spec fn dec_char(n: int) -> char {
    seq!['0', '1', '2', '3', '4', '5', '6', '7', '8', '9'][n]
}

/// The decimal rendering of a number, without leading zeros.
pub open spec fn dec_str(n: nat) -> Seq<char>
    decreases n,
{
    if n < 10 {
        seq![dec_char(n as int)]
    } else {
        dec_str(n / 10) + seq![dec_char((n % 10) as int)]
    }
}

/// Appends the single character `s[i]` to `r`.
pub(crate) fn push_char_from(r: &mut String, s: &str, i: usize)
    requires
        i < s@.len(),
        s@.len() <= usize::MAX,
    ensures
        final(r)@ == old(r)@ + seq![s@[i as int]],
{
    let d = s.substring_char(i, i + 1);
    r.append(d);
    proof {
        assert(d@ =~= seq![s@[i as int]]);
    }
}

/// `s` with every occurrence of `from` replaced by the one-character
/// string `rep`.
pub fn replace_char(s: &str, from: char, rep: &str) -> (r: String)
    requires
        rep@.len() == 1,
    ensures
        r@ == replaced(s@, from, rep@[0]),
{
    let n = s.unicode_len();
    let mut r = String::new();
    let mut i: usize = 0;
    while i < n
        invariant
            i <= n,
            n == s@.len(),
            rep@.len() == 1,
            r@ =~= replaced(s@, from, rep@[0]).subrange(0, i as int),
        decreases n - i,
    {
        let c = s.get_char(i);
        if c == from {
            r.append(rep);
        } else {
            push_char_from(&mut r, s, i);
        }
        proof {
            assert(r@ =~= replaced(s@, from, rep@[0]).subrange(0, i + 1));
        }
        i = i + 1;
    }
    proof {
        assert(r@ =~= replaced(s@, from, rep@[0]));
    }
    r
}

/// `s` with every occurrence of `from` expanded to the string `with`.
pub fn expand_char(s: &str, from: char, with: &str) -> (r: String)
    ensures
        r@ == expanded(s@, from, with@),
{
    let n = s.unicode_len();
    let mut r = String::new();
    let mut i: usize = 0;
    while i < n
        invariant
            i <= n,
            n == s@.len(),
            r@ == expanded(s@.subrange(0, i as int), from, with@),
        decreases n - i,
    {
        let c = s.get_char(i);
        if c == from {
            r.append(with);
        } else {
            push_char_from(&mut r, s, i);
        }
        proof {
            lemma_expanded_push(s@.subrange(0, i as int), s@[i as int], from, with@);
            assert(s@.subrange(0, i + 1) =~= s@.subrange(0, i as int).push(s@[i as int]));
        }
        i = i + 1;
    }
    proof {
        assert(s@.subrange(0, n as int) =~= s@);
    }
    r
}

/// Whether the views of two strings are equal, character by character.
pub fn str_eq(a: &str, b: &str) -> (r: bool)
    ensures
        r == (a@ == b@),
{
    let na = a.unicode_len();
    let nb = b.unicode_len();
    if na != nb {
        proof {
            assert(a@ != b@);
        }
        return false;
    }
    let mut i: usize = 0;
    while i < na
        invariant
            i <= na,
            na == a@.len(),
            na == b@.len(),
            forall|j: int| 0 <= j < i ==> a@[j] == b@[j],
        decreases na - i,
    {
        if a.get_char(i) != b.get_char(i) {
            return false;
        }
        i = i + 1;
    }
    proof {
        assert(a@ =~= b@);
    }
    true
}

/// Whether `pat` occurs in `s` at position `i`.
pub fn range_matches(s: &str, pat: &str, i: usize) -> (r: bool)
    requires
        i + pat@.len() <= s@.len(),
        s@.len() <= usize::MAX,
    ensures
        r == matches_at(s@, pat@, i as int),
{
    let m = pat.unicode_len();
    let mut j: usize = 0;
    while j < m
        invariant
            j <= m,
            m == pat@.len(),
            i + m <= s@.len(),
            s@.len() <= usize::MAX,
            forall|k: int| 0 <= k < j ==> s@[i + k] == pat@[k],
        decreases m - j,
    {
        if s.get_char(i + j) != pat.get_char(j) {
            proof {
                assert(s@.subrange(i as int, i + m) != pat@) by {
                    assert(s@.subrange(i as int, i + m)[j as int] != pat@[j as int]);
                }
            }
            return false;
        }
        j = j + 1;
    }
    proof {
        assert(s@.subrange(i as int, i + m) =~= pat@);
    }
    true
}

/// The last position where `pat` occurs in `s`, if any.
pub fn rfind_str(s: &str, pat: &str) -> (r: Option<usize>)
    ensures
        match r {
            Some(j) => Some(j as int) == last_match(s@, pat@),
            None => last_match(s@, pat@).is_none(),
        },
{
    let n = s.unicode_len();
    let m = pat.unicode_len();
    if m > n {
        return None;
    }
    if m == 0 {
        proof {
            assert(matches_at(s@, pat@, n as int)) by {
                assert(s@.subrange(n as int, n as int) =~= pat@);
            }
        }
        return Some(n);
    }
    let mut i: usize = n - m + 1;
    while i > 0
        invariant
            i <= n - m + 1,
            n == s@.len(),
            m == pat@.len(),
            m <= n,
            last_match_before(s@, pat@, (n - m + 1) as nat)
                == last_match_before(s@, pat@, i as nat),
        decreases i,
    {
        if range_matches(s, pat, i - 1) {
            return Some(i - 1);
        }
        i = i - 1;
    }
    None
}

/// The first position `>= from` where character `c` occurs in `s`, if any.
pub fn find_char_from(s: &str, c: char, from: usize) -> (r: Option<usize>)
    ensures
        match r {
            Some(j) => Some(j as int) == first_from(s@, c, from as int),
            None => first_from(s@, c, from as int).is_none(),
        },
{
    let n = s.unicode_len();
    let mut i: usize = from;
    while i < n
        invariant
            from <= i,
            n == s@.len(),
            first_from(s@, c, from as int) == first_from(s@, c, i as int),
        decreases n - i,
    {
        if s.get_char(i) == c {
            return Some(i);
        }
        i = i + 1;
    }
    None
}

/// Whether `p` is a prefix of `s`.
pub fn has_prefix(s: &str, p: &str) -> (r: bool)
    ensures
        r == is_prefix(p@, s@),
{
    let n = s.unicode_len();
    let m = p.unicode_len();
    if m > n {
        return false;
    }
    range_matches(s, p, 0)
}

/// Whether `p` is a suffix of `s`.
pub fn has_suffix(s: &str, p: &str) -> (r: bool)
    ensures
        r == is_suffix(p@, s@),
{
    let n = s.unicode_len();
    let m = p.unicode_len();
    if m > n {
        return false;
    }
    range_matches(s, p, n - m)
}

/// The root-relative form of `path` under `root`, if `path` lies under it.
pub fn get_path_to(root: &str, path: &str) -> (r: Option<String>)
    ensures
        match r {
            Some(rel) => rel_path_to(root@, path@) == Some(rel@),
            None => rel_path_to(root@, path@).is_none(),
        },
{
    if !has_prefix(path, root) {
        return None;
    }
    let n = path.unicode_len();
    let m = root.unicode_len();
    if m == 0 {
        let rel = path.to_owned();
        return Some(rel);
    }
    if n > m && path.get_char(m) == '/' {
        let rest = path.substring_char(m + 1, n);
        return Some(rest.to_owned());
    }
    None
}

/// The decimal rendering of a number, without leading zeros.
pub fn u32_to_string(x: u32) -> (r: String)
    ensures
        r@ == dec_str(x as nat),
    decreases x,
{
    let table = "0123456789";
    proof {
        reveal_strlit("0123456789");
        assert(forall|n: int| 0 <= n < 10 ==> table@[n] == dec_char(n));
    }
    if x < 10 {
        let d: usize = x as usize;
        let r = table.substring_char(d, d + 1).to_owned();
        proof {
            assert(r@ =~= dec_str(x as nat));
        }
        r
    } else {
        let mut r = u32_to_string(x / 10);
        let d: usize = (x % 10) as usize;
        let t = table.substring_char(d, d + 1);
        r.append(t);
        proof {
            assert(r@ =~= dec_str(x as nat));
        }
        r
    }
}

} // verus!

//! Character-level text helpers shared by the whole library.
//!
//! All executable text processing works on `Vec<char>` so that every
//! function can carry an exact contract over `Seq<char>`.
use vstd::prelude::*;

verus! {

/// The characters of `s` as an owned vector.
pub fn chars_of(s: &str) -> (r: Vec<char>)
    ensures
        r@ == s@,
{
    let n = s.unicode_len();
    let mut r: Vec<char> = Vec::new();
    let mut i: usize = 0;
    while i < n
        invariant
            i <= n,
            n == s@.len(),
            r@ == s@.subrange(0, i as int),
        decreases n - i,
    {
        r.push(s.get_char(i));
        proof {
            assert(r@ =~= s@.subrange(0, i + 1 as int));
        }
        i += 1;
    }
    proof {
        assert(r@ =~= s@);
    }
    r
}

/// Relies on `String: FromIterator<char>`: collecting the characters of `v`
/// yields the string whose characters are exactly `v`.
#[verifier::external_body]
pub fn chars_to_string(v: &Vec<char>) -> (r: String)
    ensures
        r@ == v@,
{
    v.iter().collect()
}

/// First position of `c` in `s`, if any.
pub open spec fn find_char(s: Seq<char>, c: char) -> Option<int> {
    if exists|i: int| 0 <= i < s.len() && s[i] == c {
        Some(choose|i: int|
            0 <= i < s.len() && s[i] == c && forall|j: int| 0 <= j < i ==> s[j] != c)
    } else {
        None
    }
}

/// If `c` occurs in `s`, a first occurrence exists.
proof fn lemma_exists_first(s: Seq<char>, c: char)
    requires
        exists|i: int| 0 <= i < s.len() && s[i] == c,
    ensures
        exists|i: int|
            0 <= i < s.len() && s[i] == c && forall|j: int| 0 <= j < i ==> s[j] != c,
    decreases s.len(),
{
    if s[0] == c {
        assert(0 <= 0 < s.len() && s[0] == c && forall|j: int| 0 <= j < 0 ==> s[j] != c);
    } else {
        let t = s.drop_first();
        let i0 = choose|i: int| 0 <= i < s.len() && s[i] == c;
        assert(t[i0 - 1] == c);
        lemma_exists_first(t, c);
        let w = choose|i: int|
            0 <= i < t.len() && t[i] == c && forall|j: int| 0 <= j < i ==> t[j] != c;
        assert(s[w + 1] == c);
        assert(forall|j: int| 1 <= j < w + 1 ==> s[j] == t[j - 1]);
        assert(forall|j: int| 0 <= j < w + 1 ==> s[j] != c);
    }
}

/// The properties of the first occurrence that `find_char` returns.
pub proof fn lemma_find_char_some(s: Seq<char>, c: char)
    requires
        find_char(s, c) is Some,
    ensures
        ({
            let i = find_char(s, c).unwrap();
            &&& 0 <= i < s.len()
            &&& s[i] == c
            &&& forall|j: int| 0 <= j < i ==> s[j] != c
        }),
{
    lemma_exists_first(s, c);
}

proof fn lemma_find_char_exists(s: Seq<char>, c: char, w: int)
    requires
        0 <= w < s.len(),
        s[w] == c,
        forall|j: int| 0 <= j < w ==> s[j] != c,
    ensures
        find_char(s, c) == Some(w),
{
    let i = choose|i: int|
        0 <= i < s.len() && s[i] == c && forall|j: int| 0 <= j < i ==> s[j] != c;
    assert(0 <= w < s.len() && s[w] == c && forall|j: int| 0 <= j < w ==> s[j] != c);
    assert(!(i < w) && !(w < i));
}

/// Index of the first occurrence of `c` in `v`.
pub fn index_of_char(v: &Vec<char>, c: char) -> (r: Option<usize>)
    ensures
        match r {
            Some(i) => find_char(v@, c) == Some(i as int),
            None => find_char(v@, c) is None,
        },
{
    let n = v.len();
    let mut i: usize = 0;
    while i < n
        invariant
            i <= n,
            n == v@.len(),
            forall|j: int| 0 <= j < i ==> v@[j] != c,
        decreases n - i,
    {
        if v[i] == c {
            proof {
                lemma_find_char_exists(v@, c, i as int);
            }
            return Some(i);
        }
        i += 1;
    }
    None
}

/// Last position of `c` in `s`, if any.
pub open spec fn rfind_char(s: Seq<char>, c: char) -> Option<int> {
    if exists|i: int| 0 <= i < s.len() && s[i] == c {
        Some(choose|i: int|
            0 <= i < s.len() && s[i] == c && forall|j: int| i < j < s.len() ==> s[j] != c)
    } else {
        None
    }
}

/// If `c` occurs in `s`, a last occurrence exists.
proof fn lemma_exists_last(s: Seq<char>, c: char)
    requires
        exists|i: int| 0 <= i < s.len() && s[i] == c,
    ensures
        exists|i: int|
            0 <= i < s.len() && s[i] == c && forall|j: int| i < j < s.len() ==> s[j] != c,
    decreases s.len(),
{
    if s.last() == c {
        assert(0 <= s.len() - 1 < s.len() && s[s.len() - 1] == c && forall|j: int|
            s.len() - 1 < j < s.len() ==> s[j] != c);
    } else {
        let t = s.drop_last();
        let i0 = choose|i: int| 0 <= i < s.len() && s[i] == c;
        assert(t[i0] == c);
        lemma_exists_last(t, c);
        let w = choose|i: int|
            0 <= i < t.len() && t[i] == c && forall|j: int| i < j < t.len() ==> t[j] != c;
        assert(s[w] == c);
        assert(forall|j: int| w < j < s.len() - 1 ==> s[j] == t[j]);
        assert(forall|j: int| w < j < s.len() ==> s[j] != c);
    }
}

/// The properties of the last occurrence that `rfind_char` returns.
pub proof fn lemma_rfind_char_some(s: Seq<char>, c: char)
    requires
        rfind_char(s, c) is Some,
    ensures
        ({
            let i = rfind_char(s, c).unwrap();
            &&& 0 <= i < s.len()
            &&& s[i] == c
            &&& forall|j: int| i < j < s.len() ==> s[j] != c
        }),
{
    lemma_exists_last(s, c);
}

proof fn lemma_rfind_char_exists(s: Seq<char>, c: char, w: int)
    requires
        0 <= w < s.len(),
        s[w] == c,
        forall|j: int| w < j < s.len() ==> s[j] != c,
    ensures
        rfind_char(s, c) == Some(w),
{
    let i = choose|i: int|
        0 <= i < s.len() && s[i] == c && forall|j: int| i < j < s.len() ==> s[j] != c;
    assert(!(i < w) && !(w < i));
}

/// Index of the last occurrence of `c` in `v`.
pub fn rindex_of_char(v: &Vec<char>, c: char) -> (r: Option<usize>)
    ensures
        match r {
            Some(i) => rfind_char(v@, c) == Some(i as int),
            None => rfind_char(v@, c) is None,
        },
{
    let n = v.len();
    let mut i: usize = n;
    while i > 0
        invariant
            i <= n,
            n == v@.len(),
            forall|j: int| i <= j < n ==> v@[j] != c,
        decreases i,
    {
        i -= 1;
        if v[i] == c {
            proof {
                lemma_rfind_char_exists(v@, c, i as int);
            }
            return Some(i);
        }
    }
    None
}

/// The slice of `v` from `from` (inclusive) to `to` (exclusive).
pub fn subrange_chars(v: &Vec<char>, from: usize, to: usize) -> (r: Vec<char>)
    requires
        from <= to <= v@.len(),
    ensures
        r@ == v@.subrange(from as int, to as int),
{
    let mut r: Vec<char> = Vec::new();
    let mut i: usize = from;
    while i < to
        invariant
            from <= i <= to <= v@.len(),
            r@ == v@.subrange(from as int, i as int),
        decreases to - i,
    {
        r.push(v[i]);
        proof {
            assert(r@ =~= v@.subrange(from as int, i + 1 as int));
        }
        i += 1;
    }
    r
}

/// Whether `s` starts with the prefix `p`.
pub open spec fn starts_with(s: Seq<char>, p: Seq<char>) -> bool {
    p.len() <= s.len() && s.subrange(0, p.len() as int) == p
}

/// Whether `v` starts with the single character `c`.
pub fn starts_with_char(v: &Vec<char>, c: char) -> (r: bool)
    ensures
        r == (v@.len() > 0 && v@[0] == c),
{
    v.len() > 0 && v[0] == c
}

/// Splitting `s` on the separator `c`: the parts between occurrences,
/// separators removed.  `"a:b"` gives `["a", "b"]`; a trailing separator
/// yields a final empty part.
pub open spec fn split_on(s: Seq<char>, c: char) -> Seq<Seq<char>>
    decreases s.len(),
{
    match find_char(s, c) {
        None => seq![s],
        Some(i) => if 0 <= i < s.len() {
            seq![s.subrange(0, i)].add(split_on(s.subrange(i + 1, s.len() as int), c))
        } else {
            seq![s]
        },
    }
}

/// Split `v` on the character `c`.
pub fn split_chars(v: &Vec<char>, c: char) -> (r: Vec<Vec<char>>)
    ensures
        r.deep_view() == split_on(v@, c),
        r@.len() >= 1,
    decreases v@.len(),
{
    match index_of_char(v, c) {
        None => {
            let mut r: Vec<Vec<char>> = Vec::new();
            r.push(subrange_chars(v, 0, v.len()));
            proof {
                assert(v@.subrange(0, v@.len() as int) =~= v@);
                assert(r.deep_view() =~~= split_on(v@, c));
            }
            r
        },
        Some(i) => {
            proof {
                lemma_find_char_some(v@, c);
            }
            proof {
                assert((i as int) < v@.len());
            }
            let head = subrange_chars(v, 0, i);
            proof {
                assert(head.deep_view() =~= head@);
            }
            let n = v.len();
            let tail = subrange_chars(v, i + 1, n);
            let rest = split_chars(&tail, c);
            let mut r: Vec<Vec<char>> = Vec::new();
            r.push(head);
            let mut k: usize = 0;
            let ghost rest0 = rest.deep_view();
            while k < rest.len()
                invariant
                    k <= rest@.len(),
                    rest.deep_view() == rest0,
                    rest0.len() == rest@.len(),
                    r@.len() == k + 1,
                    r@[0]@ == head@,
                    forall|j: int| 0 <= j < k ==> #[trigger] r@[j + 1]@ == rest0[j],
                decreases rest@.len() - k,
            {
                let part = subrange_chars(&rest[k], 0, rest[k].len());
                proof {
                    assert(rest0[k as int] == rest@[k as int].deep_view());
                    assert(rest@[k as int].deep_view() =~= rest@[k as int]@);
                    assert(part@ =~= rest0[k as int]);
                }
                r.push(part);
                k += 1;
            }
            proof {
                let target = seq![head@].add(rest0);
                assert forall|j: int| 0 <= j < r@.len() implies #[trigger] r.deep_view()[j]
                    == target[j] by {
                    assert(r.deep_view()[j] == r@[j].deep_view());
                    assert(r@[j].deep_view() =~= r@[j]@);
                    if j > 0 {
                        assert(r@[(j - 1) + 1]@ == rest0[j - 1]);
                    }
                }
                assert(r.deep_view() =~= target);
                assert(split_on(v@, c) == seq![v@.subrange(0, i as int)].add(
                    split_on(v@.subrange(i + 1, v@.len() as int), c),
                ));
            }
            r
        },
    }
}

/// Joining parts with the separator `c`: the inverse shape of `split_on`.
pub open spec fn join_on(parts: Seq<Seq<char>>, c: char) -> Seq<char>
    decreases parts.len(),
{
    if parts.len() == 0 {
        Seq::empty()
    } else if parts.len() == 1 {
        parts[0]
    } else {
        parts[0].push(c).add(join_on(parts.drop_first(), c))
    }
}

/// Join the parts with the character `c` between them.
pub fn join_chars(parts: &Vec<Vec<char>>, c: char) -> (r: Vec<char>)
    ensures
        r@ == join_on(parts.deep_view(), c),
{
    let n = parts.len();
    let mut r: Vec<char> = Vec::new();
    if n == 0 {
        return r;
    }
    let mut i: usize = n;
    let mut acc = subrange_chars(&parts[n - 1], 0, parts[n - 1].len());
    proof {
        assert(acc@ =~= parts.deep_view()[n - 1]);
        assert(parts.deep_view().subrange(n - 1, n as int).len() == 1);
        assert(join_on(parts.deep_view().subrange(n - 1, n as int), c)
            == parts.deep_view()[n - 1]);
    }
    i = n - 1;
    while i > 0
        invariant
            i < n,
            n == parts@.len(),
            acc@ == join_on(parts.deep_view().subrange(i as int, n as int), c),
        decreases i,
    {
        i -= 1;
        let mut next = subrange_chars(&parts[i], 0, parts[i].len());
        next.push(c);
        let mut j: usize = 0;
        let ghost acc0 = acc@;
        let ghost next0 = next@;
        while j < acc.len()
            invariant
                j <= acc@.len(),
                acc@ == acc0,
                next@ == next0.add(acc0.subrange(0, j as int)),
            decreases acc@.len() - j,
        {
            next.push(acc[j]);
            proof {
                assert(next@ =~= next0.add(acc0.subrange(0, j + 1 as int)));
            }
            j += 1;
        }
        proof {
            assert(acc0.subrange(0, acc0.len() as int) =~= acc0);
            let sub = parts.deep_view().subrange(i as int, n as int);
            assert(sub[0] == parts.deep_view()[i as int]);
            assert(sub.drop_first() =~= parts.deep_view().subrange(i + 1, n as int));
            assert(next0 =~= parts.deep_view()[i as int].push(c));
            assert(next@ =~= join_on(sub, c));
        }
        acc = next;
    }
    proof {
        assert(parts.deep_view().subrange(0, n as int) =~= parts.deep_view());
    }
    acc
}

/// The numeric value of a decimal digit sequence (most significant first).
pub open spec fn dec_val(s: Seq<char>) -> nat
    decreases s.len(),
{
    if s.len() == 0 {
        0
    } else {
        dec_val(s.drop_last()) * 10 + digit_val(s.last())
    }
}

pub open spec fn digit_val(c: char) -> nat {
    ((c as u32) - 48) as nat
}

pub open spec fn is_digit(c: char) -> bool {
    48 <= (c as u32) && (c as u32) <= 57
}

pub open spec fn all_digits(s: Seq<char>) -> bool {
    forall|i: int| 0 <= i < s.len() ==> is_digit(#[trigger] s[i])
}

/// Decimal parse of a 32-bit unsigned integer: defined exactly when the
/// text is non-empty, all digits, and the value fits.
pub open spec fn parse_u32_spec(s: Seq<char>) -> Option<u32> {
    if s.len() > 0 && all_digits(s) && dec_val(s) <= u32::MAX {
        Some(dec_val(s) as u32)
    } else {
        None
    }
}

/// Parse a decimal 32-bit unsigned integer.
pub fn parse_u32(v: &Vec<char>) -> (r: Option<u32>)
    ensures
        r == parse_u32_spec(v@),
{
    let n = v.len();
    if n == 0 {
        return None;
    }
    let mut acc: u32 = 0;
    let mut i: usize = 0;
    while i < n
        invariant
            i <= n,
            n == v@.len(),
            all_digits(v@.subrange(0, i as int)),
            acc == dec_val(v@.subrange(0, i as int)),
        decreases n - i,
    {
        let c = v[i];
        let cu = c as u32;
        if !(48 <= cu && cu <= 57) {
            proof {
                assert(!is_digit(v@[i as int]));
            }
            return None;
        }
        let d: u32 = cu - 48;
        if acc > (u32::MAX - d) / 10 {
            proof {
                let sub = v@.subrange(0, i + 1 as int);
                assert(sub.drop_last() =~= v@.subrange(0, i as int));
                assert(dec_val(sub) > u32::MAX);
                lemma_dec_val_prefix_bound(v@, i + 1);
            }
            return None;
        }
        acc = acc * 10 + d;
        proof {
            let sub = v@.subrange(0, i + 1 as int);
            assert(sub.drop_last() =~= v@.subrange(0, i as int));
        }
        i += 1;
    }
    proof {
        assert(v@.subrange(0, n as int) =~= v@);
    }
    Some(acc)
}

/// If a proper prefix of a digit string already exceeds `u32::MAX`, the
/// whole string does too.
proof fn lemma_dec_val_prefix_bound(s: Seq<char>, i: int)
    requires
        0 <= i <= s.len(),
        dec_val(s.subrange(0, i)) > u32::MAX,
    ensures
        dec_val(s) > u32::MAX,
    decreases s.len() - i,
{
    if i == s.len() {
        assert(s.subrange(0, i) =~= s);
    } else {
        let sub = s.subrange(0, i + 1);
        assert(sub.drop_last() =~= s.subrange(0, i));
        assert(dec_val(sub) >= dec_val(s.subrange(0, i)) * 10);
        lemma_dec_val_prefix_bound(s, i + 1);
    }
}

pub open spec fn digit_char(n: nat) -> char
    recommends
        n < 10,
{
    ((48 + n) as u8) as char
}

/// Decimal rendering of an unsigned value, most significant digit first.
pub open spec fn dec_str(n: nat) -> Seq<char>
    decreases n,
{
    if n < 10 {
        seq![digit_char(n)]
    } else {
        dec_str(n / 10).push(digit_char(n % 10))
    }
}

/// Render `n` in decimal.
pub fn u64_to_dec(n: u64) -> (r: Vec<char>)
    ensures
        r@ == dec_str(n as nat),
    decreases n,
{
    if n < 10 {
        let c: char = (48 + (n as u8)) as char;
        let mut r: Vec<char> = Vec::new();
        r.push(c);
        proof {
            assert(r@ =~= dec_str(n as nat));
        }
        r
    } else {
        let mut r = u64_to_dec(n / 10);
        let d: u64 = n % 10;
        let c: char = (48 + (d as u8)) as char;
        r.push(c);
        r
    }
}

/// Render `n` in decimal as a `String`.
pub fn u64_to_string(n: u64) -> (r: String)
    ensures
        r@ == dec_str(n as nat),
{
    let v = u64_to_dec(n);
    chars_to_string(&v)
}


/// `a` followed by `b`.
pub fn concat2(a: &str, b: &str) -> (r: String)
    ensures
        r@ == a@ + b@,
{
    let mut s = a.to_owned();
    s.append(b);
    s
}

/// `a`, a separator, and `b`.
pub fn concat3(a: &str, sep: &str, b: &str) -> (r: String)
    ensures
        r@ == a@ + sep@ + b@,
{
    let mut s = a.to_owned();
    s.append(sep);
    s.append(b);
    s
}


/// Whether `p` occurs in `s` as a contiguous substring.
pub open spec fn contains_sub(s: Seq<char>, p: Seq<char>) -> bool {
    exists|i: int| 0 <= i <= s.len() - p.len() && #[trigger] s.subrange(i, i + p.len()) == p
}

/// Whether the characters of `p` stand at position `i` of `s`.
fn matches_at(s: &Vec<char>, p: &Vec<char>, i: usize) -> (r: bool)
    requires
        i + p@.len() <= s@.len(),
    ensures
        r == (s@.subrange(i as int, i + p@.len()) == p@),
{
    let sl = s.len();
    let mut j: usize = 0;
    while j < p.len()
        invariant
            j <= p@.len(),
            i + p@.len() <= s@.len(),
            s@.len() <= usize::MAX,
            forall|k: int| 0 <= k < j ==> s@[i + k] == p@[k],
        decreases p@.len() - j,
    {
        if s[i + j] != p[j] {
            proof {
                assert(s@.subrange(i as int, i + p@.len())[j as int] != p@[j as int]);
            }
            return false;
        }
        j += 1;
    }
    proof {
        assert(s@.subrange(i as int, i + p@.len()) =~= p@);
    }
    true
}

/// Substring search.
pub fn find_sub(s: &Vec<char>, p: &Vec<char>) -> (r: bool)
    requires
        p@.len() > 0,
    ensures
        r == contains_sub(s@, p@),
{
    if p.len() > s.len() {
        return false;
    }
    let n = s.len() - p.len();
    let mut i: usize = 0;
    while i <= n
        invariant
            i <= n + 1,
            n == s@.len() - p@.len(),
            1 <= p@.len() <= s@.len(),
            s@.len() <= usize::MAX,
            forall|k: int| 0 <= k < i ==> #[trigger] s@.subrange(k, k + p@.len()) != p@,
        decreases n + 1 - i,
    {
        if matches_at(s, p, i) {
            proof {
                assert(0 <= i as int <= s@.len() - p@.len());
            }
            return true;
        }
        i += 1;
    }
    false
}

} // verus!

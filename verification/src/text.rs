//! Small verified string helpers: concatenation, decimal rendering, equality on `&str`, prefix
//! stripping, lexicographic order, and id slugs.
use vstd::prelude::*;
use vstd::set_lib::{lemma_int_range, lemma_len_subset, set_int_range};

verus! {

/// `String::push` (std): appends one char.
#[verifier::external_body]
pub(crate) fn push_char(s: &mut String, c: char)
    ensures
        final(s)@ == old(s)@.push(c),
{
    s.push(c);
}

/// `c` lowered as `char::to_ascii_lowercase` lowers it: `'A'..='Z'` to `'a'..='z'`, every other
/// char kept.
pub(crate) fn ascii_lower(c: char) -> (r: char)
    ensures
        r == spec_ascii_lower(c),
{
    if 'A' <= c && c <= 'Z' {
        let b = c as u8;
        proof {
            assert(b as u32 == c as u32);
        }
        ((b + 32) as u8) as char
    } else {
        c
    }
}

/// What `char::to_ascii_lowercase` returns.
pub open spec fn spec_ascii_lower(c: char) -> char {
    if 'A' <= c <= 'Z' {
        ((c as u32) + 32) as char
    } else {
        c
    }
}

/// `char::is_ascii_alphanumeric`.
pub open spec fn spec_is_ascii_alnum(c: char) -> bool {
    ('0' <= c <= '9') || ('a' <= c <= 'z') || ('A' <= c <= 'Z')
}

pub fn is_ascii_alnum(c: char) -> (r: bool)
    ensures
        r == spec_is_ascii_alnum(c),
{
    ('0' <= c && c <= '9') || ('a' <= c && c <= 'z') || ('A' <= c && c <= 'Z')
}

/// A fresh `String` holding `a` followed by `b`.
pub fn concat(a: &str, b: &str) -> (r: String)
    ensures
        r@ == a@ + b@,
{
    let mut s = String::from_str(a);
    s.append(b);
    s
}

/// A fresh `String` holding `a`, `b`, `c` in order.
pub fn concat3(a: &str, b: &str, c: &str) -> (r: String)
    ensures
        r@ == a@ + b@ + c@,
{
    let mut s = String::from_str(a);
    s.append(b);
    s.append(c);
    s
}

/// A fresh `String` holding `a` through `e` in order.
pub fn concat5(a: &str, b: &str, c: &str, d: &str, e: &str) -> (r: String)
    ensures
        r@ == a@ + b@ + c@ + d@ + e@,
{
    let mut s = concat3(a, b, c);
    s.append(d);
    s.append(e);
    s
}

/// The decimal digit for `d` (`d < 10`).
pub open spec fn digit_char(d: nat) -> char {
    ((d + 48) as u32) as char
}

/// Base-10 rendering of `n` without leading zeros (`"0"` for zero) — what `format!("{n}")` prints.
pub open spec fn decimal(n: nat) -> Seq<char>
    decreases n,
{
    if n < 10 {
        seq![digit_char(n)]
    } else {
        decimal(n / 10).push(digit_char(n % 10))
    }
}

/// `format!("{n}")`.
pub fn decimal_string(n: u128) -> (r: String)
    ensures
        r@ == decimal(n as nat),
    decreases n,
{
    if n < 10 {
        let mut s = String::new();
        push_char(&mut s, char_of_digit(n));
        s
    } else {
        let mut s = decimal_string(n / 10);
        push_char(&mut s, char_of_digit(n % 10));
        s
    }
}

fn char_of_digit(d: u128) -> (c: char)
    requires
        d < 10,
    ensures
        c == digit_char(d as nat),
{
    if d == 0 { '0' }
    else if d == 1 { '1' }
    else if d == 2 { '2' }
    else if d == 3 { '3' }
    else if d == 4 { '4' }
    else if d == 5 { '5' }
    else if d == 6 { '6' }
    else if d == 7 { '7' }
    else if d == 8 { '8' }
    else { '9' }
}

/// `a == b` on string slices.
pub fn str_eq(a: &str, b: &str) -> (r: bool)
    ensures
        r == (a@ == b@),
{
    let la = a.unicode_len();
    let lb = b.unicode_len();
    if la != lb {
        return false;
    }
    let mut i: usize = 0;
    while i < la
        invariant
            la == a@.len(),
            lb == b@.len(),
            la == lb,
            i <= la,
            forall|j: int| 0 <= j < i ==> a@[j] == b@[j],
        decreases la - i,
    {
        if a.get_char(i) != b.get_char(i) {
            return false;
        }
        i = i + 1;
    }
    assert(a@ =~= b@);
    true
}

/// `s` with `prefix` removed when `s` starts with it (`str::strip_prefix`).
pub fn strip_prefix(s: &str, prefix: &str) -> (r: Option<String>)
    ensures
        match r {
            Some(rest) => prefix@.len() <= s@.len() && s@.take(prefix@.len() as int) == prefix@
                && rest@ == s@.skip(prefix@.len() as int),
            None => !(prefix@.len() <= s@.len() && s@.take(prefix@.len() as int) == prefix@),
        },
{
    let ls = s.unicode_len();
    let lp = prefix.unicode_len();
    if lp > ls {
        return None;
    }
    let head = s.substring_char(0, lp);
    if !str_eq(head, prefix) {
        return None;
    }
    let rest = s.substring_char(lp, ls);
    assert(s@.skip(lp as int) =~= s@.subrange(lp as int, ls as int));
    Some(String::from_str(rest))
}

/// Lexicographic `a < b` by character code — the order of `BTreeMap<String, _>` keys.
pub open spec fn seq_lt(a: Seq<char>, b: Seq<char>) -> bool
    decreases a.len(),
{
    if b.len() == 0 {
        false
    } else if a.len() == 0 {
        true
    } else if a[0] != b[0] {
        (a[0] as int) < (b[0] as int)
    } else {
        seq_lt(a.drop_first(), b.drop_first())
    }
}

/// No string sorts before itself.
pub proof fn lemma_seq_lt_irreflexive(a: Seq<char>)
    ensures
        !seq_lt(a, a),
    decreases a.len(),
{
    if a.len() > 0 {
        lemma_seq_lt_irreflexive(a.drop_first());
    }
}

/// The string order is transitive.
pub proof fn lemma_seq_lt_transitive(a: Seq<char>, b: Seq<char>, c: Seq<char>)
    requires
        seq_lt(a, b),
        seq_lt(b, c),
    ensures
        seq_lt(a, c),
    decreases a.len(),
{
    if a.len() > 0 && b.len() > 0 && c.len() > 0 && a[0] == b[0] && b[0] == c[0] {
        lemma_seq_lt_transitive(a.drop_first(), b.drop_first(), c.drop_first());
    }
}

/// Of two strings, one sorts first or they are equal.
pub proof fn lemma_seq_lt_total(a: Seq<char>, b: Seq<char>)
    ensures
        seq_lt(a, b) || seq_lt(b, a) || a == b,
    decreases a.len(),
{
    if a.len() == 0 || b.len() == 0 {
        if a.len() == 0 && b.len() == 0 {
            assert(a =~= b);
        }
    } else if a[0] != b[0] {
        assert((a[0] as int) != (b[0] as int));
    } else {
        lemma_seq_lt_total(a.drop_first(), b.drop_first());
        if a.drop_first() == b.drop_first() {
            assert(a.drop_first().len() == a.len() - 1);
            assert(b.drop_first().len() == b.len() - 1);
            assert(a.len() == b.len());
            assert(a =~= b) by {
                assert forall|i: int| 0 <= i < a.len() implies a[i] == b[i] by {
                    if i > 0 {
                        assert(a[i] == a.drop_first()[i - 1]);
                        assert(b[i] == b.drop_first()[i - 1]);
                    }
                }
            }
        }
    }
}

/// `a < b` in `String`'s `Ord`.
pub fn str_lt(a: &str, b: &str) -> (r: bool)
    ensures
        r == seq_lt(a@, b@),
{
    let la = a.unicode_len();
    let lb = b.unicode_len();
    let mut i: usize = 0;
    proof {
        assert(a@.skip(0) =~= a@);
        assert(b@.skip(0) =~= b@);
    }
    while i < la && i < lb
        invariant
            la == a@.len(),
            lb == b@.len(),
            i <= la,
            i <= lb,
            forall|j: int| 0 <= j < i ==> a@[j] == b@[j],
            seq_lt(a@, b@) == seq_lt(a@.skip(i as int), b@.skip(i as int)),
        decreases la - i,
    {
        let ca = a.get_char(i);
        let cb = b.get_char(i);
        proof {
            assert(a@.skip(i as int)[0] == ca);
            assert(b@.skip(i as int)[0] == cb);
        }
        if ca != cb {
            return (ca as u32) < (cb as u32);
        }
        proof {
            assert(a@.skip(i as int).drop_first() =~= a@.skip(i + 1));
            assert(b@.skip(i as int).drop_first() =~= b@.skip(i + 1));
        }
        i = i + 1;
    }
    i < lb
}

/// `c` is a character a slug may hold: `[a-z0-9_]`.
pub open spec fn slug_char(c: char) -> bool {
    ('0' <= c <= '9') || ('a' <= c <= 'z') || c == '_'
}

/// Shape of every slug: slug characters only, no leading, trailing or doubled `_`.
pub open spec fn is_slug(s: Seq<char>) -> bool {
    &&& forall|i: int| 0 <= i < s.len() ==> slug_char(#[trigger] s[i])
    &&& s.len() > 0 ==> s[0] != '_' && s.last() != '_'
    &&& forall|i: int| 0 <= i < s.len() - 1 ==> !(#[trigger] s[i] == '_' && s[i + 1] == '_')
}

/// The slug of the first `n` characters of `text` before trailing separators are trimmed:
/// lowercased alphanumerics, each run of other characters after an alphanumeric becoming one `_`.
pub open spec fn slug_raw(text: Seq<char>) -> Seq<char>
    decreases text.len(),
{
    if text.len() == 0 {
        seq![]
    } else {
        let prev = slug_raw(text.drop_last());
        let c = text.last();
        if spec_is_ascii_alnum(c) {
            prev.push(spec_ascii_lower(c))
        } else if prev.len() > 0 && prev.last() != '_' {
            prev.push('_')
        } else {
            prev
        }
    }
}

/// `s` with every trailing `_` removed.
pub open spec fn trim_trailing_sep(s: Seq<char>) -> Seq<char>
    decreases s.len(),
{
    if s.len() > 0 && s.last() == '_' {
        trim_trailing_sep(s.drop_last())
    } else {
        s
    }
}

/// The id slug of free-typed text.
pub open spec fn slug(text: Seq<char>) -> Seq<char> {
    trim_trailing_sep(slug_raw(text))
}

proof fn lemma_slug_raw_shape(text: Seq<char>)
    ensures
        forall|i: int| 0 <= i < slug_raw(text).len() ==> slug_char(#[trigger] slug_raw(text)[i]),
        slug_raw(text).len() > 0 ==> slug_raw(text)[0] != '_',
        forall|i: int|
            0 <= i < slug_raw(text).len() - 1 ==> !(#[trigger] slug_raw(text)[i] == '_' && slug_raw(
                text,
            )[i + 1] == '_'),
    decreases text.len(),
{
    if text.len() > 0 {
        lemma_slug_raw_shape(text.drop_last());
        let c = text.last();
        if spec_is_ascii_alnum(c) {
            assert(slug_char(spec_ascii_lower(c))) by {
                if 'A' <= c <= 'Z' {
                    assert((c as u32) + 32 <= 'z' as u32);
                }
            }
        }
    }
}

proof fn lemma_trim_shape(s: Seq<char>)
    requires
        forall|i: int| 0 <= i < s.len() ==> slug_char(#[trigger] s[i]),
        s.len() > 0 ==> s[0] != '_',
        forall|i: int| 0 <= i < s.len() - 1 ==> !(#[trigger] s[i] == '_' && s[i + 1] == '_'),
    ensures
        is_slug(trim_trailing_sep(s)),
        trim_trailing_sep(s).len() <= s.len(),
        trim_trailing_sep(s) =~= s.take(trim_trailing_sep(s).len() as int),
    decreases s.len(),
{
    if s.len() > 0 && s.last() == '_' {
        let t = s.drop_last();
        assert forall|i: int| 0 <= i < t.len() - 1 implies !(#[trigger] t[i] == '_' && t[i + 1]
            == '_') by {
            assert(t[i] == s[i] && t[i + 1] == s[i + 1]);
        }
        lemma_trim_shape(t);
        assert(trim_trailing_sep(s) == trim_trailing_sep(t));
        assert(t.take(trim_trailing_sep(t).len() as int) =~= s.take(
            trim_trailing_sep(t).len() as int,
        ));
    }
}

/// Every slug has the slug shape.
pub proof fn lemma_slug_is_slug(text: Seq<char>)
    ensures
        is_slug(slug(text)),
{
    lemma_slug_raw_shape(text);
    lemma_trim_shape(slug_raw(text));
}

/// Turn free-typed text into an id-safe slug: lowercase, runs of non-alphanumerics collapsed to
/// one `_`, no leading or trailing `_`.
pub fn slugify(text: &str) -> (r: String)
    ensures
        r@ == slug(text@),
        is_slug(r@),
{
    let n = text.unicode_len();
    let mut out = String::new();
    let mut last_was_sep = true;
    let mut i: usize = 0;
    while i < n
        invariant
            n == text@.len(),
            i <= n,
            out@ == slug_raw(text@.take(i as int)),
            last_was_sep == (out@.len() == 0 || out@.last() == '_'),
        decreases n - i,
    {
        let ch = text.get_char(i);
        proof {
            assert(text@.take(i + 1).drop_last() =~= text@.take(i as int));
            assert(text@.take(i + 1).last() == ch);
        }
        if is_ascii_alnum(ch) {
            let low = ascii_lower(ch);
            push_char(&mut out, low);
            last_was_sep = false;
            proof {
                assert(low != '_') by {
                    if 'A' <= ch <= 'Z' {
                        assert((ch as u32) + 32 >= 'a' as u32);
                    }
                }
            }
        } else if !last_was_sep {
            push_char(&mut out, '_');
            last_was_sep = true;
        }
        i = i + 1;
    }
    proof {
        assert(text@.take(n as int) =~= text@);
    }
    let ghost raw = out@;
    while out.unicode_len() > 0 && out.as_str().get_char(out.unicode_len() - 1) == '_'
        invariant
            trim_trailing_sep(out@) == trim_trailing_sep(raw),
        decreases out@.len(),
    {
        pop_char(&mut out);
    }
    proof {
        lemma_slug_is_slug(text@);
    }
    out
}

/// `String::pop` (std): removes the last char, if any.
#[verifier::external_body]
fn pop_char(s: &mut String)
    requires
        old(s)@.len() > 0,
    ensures
        final(s)@ == old(s)@.drop_last(),
{
    s.pop();
}

proof fn lemma_decimal_len(n: nat)
    ensures
        decimal(n).len() >= 1,
        n >= 10 ==> decimal(n).len() >= 2,
    decreases n,
{
    if n >= 10 {
        lemma_decimal_len(n / 10);
    }
}

/// Distinct numbers print differently.
pub proof fn lemma_decimal_injective(a: nat, b: nat)
    requires
        decimal(a) == decimal(b),
    ensures
        a == b,
    decreases a,
{
    lemma_decimal_len(a);
    lemma_decimal_len(b);
    if a < 10 && b < 10 {
        assert(decimal(a)[0] == digit_char(a));
        assert(decimal(b)[0] == digit_char(b));
        assert((digit_char(a) as int) == a + 48);
        assert((digit_char(b) as int) == b + 48);
    } else if a >= 10 && b >= 10 {
        let da = decimal(a / 10);
        let db = decimal(b / 10);
        assert(decimal(a) == da.push(digit_char(a % 10)));
        assert(decimal(b) == db.push(digit_char(b % 10)));
        assert(decimal(a).last() == digit_char(a % 10));
        assert((digit_char(a % 10) as int) == a % 10 + 48);
        assert((digit_char(b % 10) as int) == b % 10 + 48);
        assert(da =~= decimal(a).drop_last());
        assert(db =~= decimal(b).drop_last());
        lemma_decimal_injective(a / 10, b / 10);
    }
}

/// `format!("{base}_{i}")`.
pub open spec fn indexed_id(base: Seq<char>, i: nat) -> Seq<char> {
    base + seq!['_'] + decimal(i)
}

proof fn lemma_indexed_id_injective(base: Seq<char>, i: nat, j: nat)
    requires
        indexed_id(base, i) == indexed_id(base, j),
    ensures
        i == j,
{
    let p = base + seq!['_'];
    assert(indexed_id(base, i).skip(p.len() as int) =~= decimal(i));
    assert(indexed_id(base, j).skip(p.len() as int) =~= decimal(j));
    lemma_decimal_injective(i, j);
}

/// `needle` occurs in `hay`.
pub open spec fn contains_sub(hay: Seq<char>, needle: Seq<char>) -> bool {
    exists|i: int| 0 <= i <= hay.len() - needle.len() && #[trigger] hay.subrange(i, i + needle.len()) == needle
}

/// Whether `needle` occurs in `hay`.
pub fn str_contains(hay: &str, needle: &str) -> (r: bool)
    ensures
        r == contains_sub(hay@, needle@),
{
    let hl = hay.unicode_len();
    let nl = needle.unicode_len();
    if nl == 0 {
        assert(hay@.subrange(0, 0 + needle@.len() as int) =~= needle@);
        return true;
    }
    let mut i: usize = 0;
    while i <= hl && nl <= hl - i
        invariant
            hl == hay@.len(),
            nl == needle@.len(),
            nl > 0,
            i <= hl + 1,
            forall|k: int| 0 <= k < i ==> #[trigger] hay@.subrange(k, k + nl) != needle@,
        decreases hl + 1 - i,
    {
        let sub = hay.substring_char(i, i + nl);
        if str_eq(sub, needle) {
            return true;
        }
        i = i + 1;
    }
    false
}

/// Some string in `taken` equals `s`.
pub open spec fn taken_has(taken: Seq<String>, s: Seq<char>) -> bool {
    exists|k: int| 0 <= k < taken.len() && #[trigger] taken[k]@ == s
}

/// Whether `s` is one of `taken`.
pub fn contains_str(taken: &Vec<String>, s: &str) -> (r: bool)
    ensures
        r == taken_has(taken@, s@),
{
    let n = taken.len();
    let mut k: usize = 0;
    while k < n
        invariant
            n == taken@.len(),
            k <= n,
            forall|m: int| 0 <= m < k ==> #[trigger] taken@[m]@ != s@,
        decreases n - k,
    {
        if str_eq(taken[k].as_str(), s) {
            return true;
        }
        k = k + 1;
    }
    false
}

/// The strings of `taken`, as a set of views.
pub open spec fn taken_set(taken: Seq<String>) -> Set<Seq<char>> {
    Set::new(|s: Seq<char>| taken_has(taken, s))
}

/// `r` is `base` if `base` is not in `used`; otherwise `base_i` for the least `i >= 2` that is
/// not in `used`.
pub open spec fn fresh_in(used: Set<Seq<char>>, base: Seq<char>, r: Seq<char>) -> bool {
    &&& !used.contains(r)
    &&& !used.contains(base) ==> r == base
    &&& used.contains(base) ==> exists|i: nat|
        i >= 2 && r == indexed_id(base, i) && forall|j: nat|
            2 <= j < i ==> used.contains(#[trigger] indexed_id(base, j))
}

/// A name not in `taken`, starting from `base` and appending `_2`, `_3`, ... on collision.
pub fn fresh_id(base: &str, taken: &Vec<String>) -> (r: String)
    ensures
        fresh_in(taken_set(taken@), base@, r@),
{
    if !contains_str(taken, base) {
        return String::from_str(base);
    }
    let n = taken.len();
    let mut i: u128 = 2;
    let ghost mut found: Set<int> = Set::empty();
    loop
        invariant
            n == taken@.len(),
            taken_has(taken@, base@),
            2 <= i,
            found.finite(),
            found.len() == i - 2,
            forall|k: int| #[trigger] found.contains(k) ==> 0 <= k < n,
            forall|k: int|
                #[trigger] found.contains(k) ==> exists|j: nat|
                    2 <= j < i && taken@[k]@ == #[trigger] indexed_id(base@, j),
            forall|j: nat| 2 <= j < i ==> taken_has(taken@, #[trigger] indexed_id(base@, j)),
        decreases n + 2 - i,
    {
        let suffix = decimal_string(i);
        let candidate = concat3(base, "_", suffix.as_str());
        proof {
            reveal_strlit("_");
            assert("_"@ =~= seq!['_']);
            assert(candidate@ == indexed_id(base@, i as nat));
        }
        if !contains_str(taken, candidate.as_str()) {
            proof {
                assert(taken_has(taken@, base@));
            }
            return candidate;
        }
        proof {
            let k = choose|k: int| 0 <= k < n && #[trigger] taken@[k]@ == candidate@;
            if found.contains(k) {
                let j = choose|j: nat| 2 <= j < i && taken@[k]@ == #[trigger] indexed_id(base@, j);
                lemma_indexed_id_injective(base@, j, i as nat);
            }
            let found2 = found.insert(k);
            lemma_int_range(0, n as int);
            assert(found2.subset_of(set_int_range(0, n as int)));
            lemma_len_subset(found2, set_int_range(0, n as int));
            assert forall|kk: int| #[trigger] found2.contains(kk) implies exists|j: nat|
                2 <= j < i + 1 && taken@[kk]@ == #[trigger] indexed_id(base@, j) by {
                if kk == k {
                    assert(taken@[kk]@ == indexed_id(base@, i as nat));
                } else {
                    let j = choose|j: nat| 2 <= j < i && taken@[kk]@ == #[trigger] indexed_id(base@, j);
                    assert(2 <= j < i + 1);
                }
            }
            found = found2;
        }
        i = i + 1;
    }
}

/// `char::is_whitespace`: the Unicode `White_Space` property.
pub open spec fn spec_is_whitespace(c: char) -> bool {
    let u = c as u32;
    ||| 0x09 <= u <= 0x0D
    ||| u == 0x20
    ||| u == 0x85
    ||| u == 0xA0
    ||| u == 0x1680
    ||| 0x2000 <= u <= 0x200A
    ||| u == 0x2028
    ||| u == 0x2029
    ||| u == 0x202F
    ||| u == 0x205F
    ||| u == 0x3000
}

fn is_whitespace(c: char) -> (r: bool)
    ensures
        r == spec_is_whitespace(c),
{
    let u = c as u32;
    (0x09 <= u && u <= 0x0D) || u == 0x20 || u == 0x85 || u == 0xA0 || u == 0x1680 || (0x2000 <= u && u
        <= 0x200A) || u == 0x2028 || u == 0x2029 || u == 0x202F || u == 0x205F || u == 0x3000
}

/// `r` is `s` with its leading and trailing whitespace removed (what `str::trim` gives).
pub open spec fn is_trim_of(r: Seq<char>, s: Seq<char>) -> bool {
    exists|i: int, j: int|
        {
            &&& 0 <= i <= j <= s.len()
            &&& r == s.subrange(i, j)
            &&& forall|k: int| 0 <= k < i ==> spec_is_whitespace(#[trigger] s[k])
            &&& forall|k: int| j <= k < s.len() ==> spec_is_whitespace(#[trigger] s[k])
            &&& i < j ==> !spec_is_whitespace(s[i]) && !spec_is_whitespace(s[j - 1])
        }
}

/// A string has one trim.
pub proof fn lemma_trim_unique(s: Seq<char>, r1: Seq<char>, r2: Seq<char>)
    requires
        is_trim_of(r1, s),
        is_trim_of(r2, s),
    ensures
        r1 == r2,
{
    let (i1, j1) = choose|i: int, j: int|
        {
            &&& 0 <= i <= j <= s.len()
            &&& r1 == s.subrange(i, j)
            &&& forall|k: int| 0 <= k < i ==> spec_is_whitespace(#[trigger] s[k])
            &&& forall|k: int| j <= k < s.len() ==> spec_is_whitespace(#[trigger] s[k])
            &&& i < j ==> !spec_is_whitespace(s[i]) && !spec_is_whitespace(s[j - 1])
        };
    let (i2, j2) = choose|i: int, j: int|
        {
            &&& 0 <= i <= j <= s.len()
            &&& r2 == s.subrange(i, j)
            &&& forall|k: int| 0 <= k < i ==> spec_is_whitespace(#[trigger] s[k])
            &&& forall|k: int| j <= k < s.len() ==> spec_is_whitespace(#[trigger] s[k])
            &&& i < j ==> !spec_is_whitespace(s[i]) && !spec_is_whitespace(s[j - 1])
        };
    if i1 < j1 && i2 < j2 {
        assert(!spec_is_whitespace(s[i1]) && !spec_is_whitespace(s[i2]));
        assert(!spec_is_whitespace(s[j1 - 1]) && !spec_is_whitespace(s[j2 - 1]));
        assert(i1 == i2);
        assert(j1 == j2);
    } else if i1 < j1 {
        assert(!spec_is_whitespace(s[i1]));
        assert(i1 < i2 || j2 <= i1);
    } else if i2 < j2 {
        assert(!spec_is_whitespace(s[i2]));
        assert(i2 < i1 || j1 <= i2);
    } else {
        assert(r1 =~= r2);
    }
}

/// The trim of `s` (see [`is_trim_of`]).
pub open spec fn trimmed(s: Seq<char>) -> Seq<char> {
    choose|r: Seq<char>| is_trim_of(r, s)
}

/// `s` with leading and trailing whitespace removed, as `str::trim` gives it.
pub fn trim_query(s: &str) -> (r: String)
    ensures
        is_trim_of(r@, s@),
        r@ == trimmed(s@),
{
    let n = s.unicode_len();
    let mut i: usize = 0;
    while i < n && is_whitespace(s.get_char(i))
        invariant
            n == s@.len(),
            i <= n,
            forall|k: int| 0 <= k < i ==> spec_is_whitespace(#[trigger] s@[k]),
        decreases n - i,
    {
        i = i + 1;
    }
    let mut j: usize = n;
    while j > i && is_whitespace(s.get_char(j - 1))
        invariant
            n == s@.len(),
            i <= j <= n,
            forall|k: int| j <= k < n ==> spec_is_whitespace(#[trigger] s@[k]),
        decreases j - i,
    {
        j = j - 1;
    }
    let r = String::from_str(s.substring_char(i, j));
    proof {
        assert(i < j ==> !spec_is_whitespace(s@[i as int]));
        assert(r@ == s@.subrange(i as int, j as int));
        assert(is_trim_of(r@, s@));
        lemma_trim_unique(s@, r@, trimmed(s@));
    }
    r
}

/// `parts` with `sep` between each two (`[T]::join`).
pub open spec fn joined(parts: Seq<Seq<char>>, sep: Seq<char>) -> Seq<char>
    decreases parts.len(),
{
    if parts.len() == 0 {
        seq![]
    } else if parts.len() == 1 {
        parts[0]
    } else {
        joined(parts.drop_last(), sep) + sep + parts.last()
    }
}

/// `parts` joined with `sep` between each two.
pub fn join_with(parts: &Vec<String>, sep: &str) -> (r: String)
    ensures
        r@ == joined(parts@.map_values(|s: String| s@), sep@),
{
    let ghost views = parts@.map_values(|s: String| s@);
    let mut out = String::new();
    let n = parts.len();
    let mut i: usize = 0;
    while i < n
        invariant
            n == parts@.len(),
            views == parts@.map_values(|s: String| s@),
            i <= n,
            out@ == joined(views.take(i as int), sep@),
        decreases n - i,
    {
        let next = if i == 0 {
            String::from_str(parts[i].as_str())
        } else {
            concat3(out.as_str(), sep, parts[i].as_str())
        };
        proof {
            let t = views.take(i + 1);
            assert(t.drop_last() =~= views.take(i as int));
            assert(t.last() == parts@[i as int]@);
            if i == 0 {
                assert(t.len() == 1);
            }
        }
        out = next;
        i = i + 1;
    }
    proof {
        assert(views.take(n as int) =~= views);
    }
    out
}

} // verus!

//! Effect preset file names: the on-disk name a preset is saved under, and the preset name a
//! `*.fx.ron` file is loaded as.
use vstd::prelude::*;

use crate::text::{concat, push_char, str_eq};

verus! {

/// A character a file name may not hold (`/ \ : * ? " < > |`).
pub open spec fn is_reserved_char(c: char) -> bool {
    c == '/' || c == '\\' || c == ':' || c == '*' || c == '?' || c == '"' || c == '<' || c == '>' || c == '|'
}

/// `name` with every reserved character replaced by `_`.
pub open spec fn sanitized(name: Seq<char>) -> Seq<char> {
    name.map_values(|c: char| if is_reserved_char(c) { '_' } else { c })
}

/// `name` made safe as a file name (see [`sanitized`]).
pub fn sanitize_filename(name: &str) -> (r: String)
    ensures
        r@ == sanitized(name@),
{
    let n = name.unicode_len();
    let mut out = String::new();
    let mut i: usize = 0;
    while i < n
        invariant
            n == name@.len(),
            i <= n,
            out@ == sanitized(name@.take(i as int)),
        decreases n - i,
    {
        let c = name.get_char(i);
        let reserved = c == '/' || c == '\\' || c == ':' || c == '*' || c == '?' || c == '"' || c == '<' || c == '>'
            || c == '|';
        if reserved {
            push_char(&mut out, '_');
        } else {
            push_char(&mut out, c);
        }
        assert(name@.take(i + 1) =~= name@.take(i as int).push(c));
        assert(out@ =~= sanitized(name@.take(i + 1)));
        i = i + 1;
    }
    assert(name@.take(n as int) =~= name@);
    out
}

/// The file a preset named `name` is saved to: `{sanitized name}.fx.ron`.
pub fn preset_file_name(name: &str) -> (r: String)
    ensures
        r@ == sanitized(name@) + ".fx.ron"@,
{
    let s = sanitize_filename(name);
    concat(s.as_str(), ".fx.ron")
}

/// `s` ends with `suffix`.
pub open spec fn ends_with(s: Seq<char>, suffix: Seq<char>) -> bool {
    suffix.len() <= s.len() && s.subrange(s.len() - suffix.len(), s.len() as int) == suffix
}

/// `s` with every trailing repetition of a non-empty `suffix` removed (`str::trim_end_matches`).
pub open spec fn trim_suffixes(s: Seq<char>, suffix: Seq<char>) -> Seq<char>
    decreases s.len(),
{
    if suffix.len() > 0 && ends_with(s, suffix) {
        trim_suffixes(s.subrange(0, s.len() - suffix.len()), suffix)
    } else {
        s
    }
}

/// The preset a file named `file_name` loads as: only `*.fx.ron` files count, named by what is
/// left once every trailing `.fx.ron` is removed, and never by an empty name.
pub open spec fn preset_name_of(file_name: Seq<char>) -> Option<Seq<char>> {
    let suffix = ".fx.ron"@;
    if !ends_with(file_name, suffix) || trim_suffixes(file_name, suffix).len() == 0 {
        None
    } else {
        Some(trim_suffixes(file_name, suffix))
    }
}

/// The preset name a directory entry named `file_name` loads as (see [`preset_name_of`]).
pub fn preset_name_from_file(file_name: &str) -> (r: Option<String>)
    ensures
        match r {
            Some(n) => preset_name_of(file_name@) == Some(n@),
            None => preset_name_of(file_name@) is None,
        },
{
    let suffix = ".fx.ron";
    proof {
        reveal_strlit(".fx.ron");
    }
    let sl = suffix.unicode_len();
    let n = file_name.unicode_len();
    if n < sl || !str_eq(file_name.substring_char(n - sl, n), suffix) {
        return None;
    }
    let mut end: usize = n;
    assert(file_name@.subrange(0, n as int) =~= file_name@);
    while end >= sl && str_eq(file_name.substring_char(end - sl, end), suffix)
        invariant
            n == file_name@.len(),
            sl == suffix@.len(),
            sl == 7,
            end <= n,
            trim_suffixes(file_name@, suffix@) == trim_suffixes(file_name@.subrange(0, end as int), suffix@),
        decreases end,
    {
        proof {
            let t = file_name@.subrange(0, end as int);
            assert(t.subrange(t.len() - 7, t.len() as int) =~= file_name@.subrange(end - 7, end as int));
            assert(t.subrange(0, t.len() - 7) =~= file_name@.subrange(0, end - 7));
        }
        end = end - sl;
    }
    proof {
        let t = file_name@.subrange(0, end as int);
        if end >= 7 {
            assert(t.subrange(t.len() - 7, t.len() as int) =~= file_name@.subrange(end - 7, end as int));
        }
        assert(!ends_with(t, suffix@));
        assert(file_name@.subrange(0, n as int) =~= file_name@);
    }
    if end == 0 {
        return None;
    }
    Some(String::from_str(file_name.substring_char(0, end)))
}

} // verus!

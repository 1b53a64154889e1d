//! This function parses Accept-Language string into a list of language tags that
//! can be later passed to language negotiation functions.
//!
//! This function ignores the weights associated with the locales, since
//! language negotiation only uses the order of locales, not the weights.

use vstd::prelude::*;
use vstd::string::StrSliceExecFns;
use vstd::std_specs::iter::IteratorSpec;

verus! {

/// `c` is white space: a character with the Unicode property `White_Space`.
pub open spec fn is_whitespace(c: char) -> bool {
    let n = c as u32;
    (0x09 <= n && n <= 0x0d) || n == 0x20 || n == 0x85 || n == 0xa0 || n == 0x1680 || (0x2000 <= n
        && n <= 0x200a) || n == 0x2028 || n == 0x2029 || n == 0x202f || n == 0x205f || n == 0x3000
}

/// The number of characters of `s` from `from` on that stand before the
/// next comma.
pub open spec fn piece_len(s: Seq<char>, from: int) -> nat
    decreases s.len() - from,
{
    if from < 0 || from >= s.len() || s[from] == ',' {
        0
    } else {
        1 + piece_len(s, from + 1)
    }
}

/// The first index in `from..to` at which `s` holds no white space; `to`
/// where there is none.
pub open spec fn skip_whitespace(s: Seq<char>, from: int, to: int) -> int
    decreases to - from,
{
    if from >= to {
        to
    } else if is_whitespace(s[from]) {
        skip_whitespace(s, from + 1, to)
    } else {
        from
    }
}

/// The index behind the last character in `from..to` that is no white
/// space; `from` where there is none.
pub open spec fn drop_whitespace(s: Seq<char>, from: int, to: int) -> int
    decreases to - from,
{
    if from >= to {
        from
    } else if is_whitespace(s[to - 1]) {
        drop_whitespace(s, from, to - 1)
    } else {
        to
    }
}

/// The first index in `from..to` at which `s` holds a semicolon; `to` where
/// there is none.
pub open spec fn weight_start(s: Seq<char>, from: int, to: int) -> int
    decreases to - from,
{
    if from >= to {
        to
    } else if s[from] == ';' {
        from
    } else {
        weight_start(s, from + 1, to)
    }
}

/// The tags of the header `s` from `from` on. The header is split at its
/// commas. Of each piece the white space at both ends is dropped, and then
/// what stands from its first semicolon on. Pieces of which nothing is left
/// are left out.
pub open spec fn tags_from(s: Seq<char>, from: int) -> Seq<Seq<char>>
    decreases s.len() - from,
{
    let end = from + piece_len(s, from);
    let start = skip_whitespace(s, from, end);
    let stop = weight_start(s, start, drop_whitespace(s, start, end));
    let rest = if from < 0 || end >= s.len() {
        Seq::empty()
    } else {
        tags_from(s, end + 1)
    };
    if start < stop {
        seq![s.subrange(start, stop)] + rest
    } else {
        rest
    }
}

/// The tags of the header `s`, in its order.
pub open spec fn tags(s: Seq<char>) -> Seq<Seq<char>> {
    tags_from(s, 0)
}

/// The texts that the strings `v` hold.
pub open spec fn str_views(v: Seq<&str>) -> Seq<Seq<char>> {
    Seq::new(v.len(), |i: int| v[i]@)
}

/// Whether `c` is white space.
pub fn char_is_whitespace(c: char) -> (r: bool)
    ensures
        r == is_whitespace(c),
{
    let n = c as u32;
    (0x09 <= n && n <= 0x0d) || n == 0x20 || n == 0x85 || n == 0xa0 || n == 0x1680 || (0x2000 <= n
        && n <= 0x200a) || n == 0x2028 || n == 0x2029 || n == 0x202f || n == 0x205f || n == 0x3000
}

/// The characters of `s`.
fn chars_of(s: &str) -> (v: Vec<char>)
    ensures
        v@ == s@,
{
    let mut v: Vec<char> = Vec::new();
    let it0 = s.chars();
    for c in it: it0
        invariant
            it.seq() == s@,
            v@ == it.seq().take(it.index() as int),
    {
        v.push(c);
        assert(v@ =~= it.seq().take(it.index() + 1));
    }
    assert(v@ =~= s@);
    v
}

/// Parses an Accept-Language header into the language tags that it lists,
/// in its order and without their weights.
pub fn parse(s: &str) -> (r: Vec<&str>)
    ensures
        str_views(r@) == tags(s@),
{
    let chars = chars_of(s);
    let n = chars.len();
    let mut r: Vec<&str> = Vec::new();
    let mut from: usize = 0;
    assert(str_views(r@) =~= Seq::empty());
    loop
        invariant
            from <= n,
            n == s@.len(),
            chars@ == s@,
            str_views(r@) + tags_from(s@, from as int) == tags(s@),
        decreases n - from,
    {
        let ghost before = str_views(r@);
        let mut end: usize = from;
        while end < n
            invariant
                from <= end <= n,
                n == s@.len(),
            chars@ == s@,
                from + piece_len(s@, from as int) == end + piece_len(s@, end as int),
            ensures
                from <= end <= n,
                end == from + piece_len(s@, from as int),
            decreases n - end,
        {
            if chars[end] == ',' {
                break ;
            }
            end += 1;
        }
        let mut start: usize = from;
        while start < end
            invariant
                from <= start <= end <= n,
                n == s@.len(),
            chars@ == s@,
                skip_whitespace(s@, from as int, end as int) == skip_whitespace(
                    s@,
                    start as int,
                    end as int,
                ),
            ensures
                from <= start <= end,
                start == skip_whitespace(s@, from as int, end as int),
            decreases end - start,
        {
            if !char_is_whitespace(chars[start]) {
                break ;
            }
            start += 1;
        }
        let mut last: usize = end;
        while start < last
            invariant
                start <= last <= end <= n,
                n == s@.len(),
            chars@ == s@,
                drop_whitespace(s@, start as int, end as int) == drop_whitespace(
                    s@,
                    start as int,
                    last as int,
                ),
            ensures
                start <= last <= end,
                last == drop_whitespace(s@, start as int, end as int),
            decreases last - start,
        {
            if !char_is_whitespace(chars[last - 1]) {
                break ;
            }
            last -= 1;
        }
        let mut stop: usize = start;
        while stop < last
            invariant
                start <= stop <= last <= n,
                n == s@.len(),
            chars@ == s@,
                weight_start(s@, start as int, last as int) == weight_start(
                    s@,
                    stop as int,
                    last as int,
                ),
            ensures
                start <= stop <= last,
                stop == weight_start(s@, start as int, last as int),
            decreases last - stop,
        {
            if chars[stop] == ';' {
                break ;
            }
            stop += 1;
        }
        if start < stop {
            let tag = s.substring_char(start, stop);
            r.push(tag);
            assert(str_views(r@) =~= before.push(tag@));
        }
        if end >= n {
            assert(str_views(r@) + Seq::<Seq<char>>::empty() =~= str_views(r@));
            assert(tags_from(s@, from as int) =~= (if start < stop {
                seq![s@.subrange(start as int, stop as int)]
            } else {
                Seq::empty()
            }));
            return r;
        }
        proof {
            let rest = tags_from(s@, end + 1);
            if start < stop {
                let t = s@.subrange(start as int, stop as int);
                assert(before.push(t) + rest =~= before + (seq![t] + rest));
            }
        }
        from = end + 1;
    }
}

} // verus!

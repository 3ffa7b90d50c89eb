//! Character-level text operations with their meaning stated over `Seq<char>`.
use vstd::prelude::*;
use vstd::std_specs::iter::IteratorSpec;
use vstd::utf8::{encode_scalar, encode_utf8};

verus! {

broadcast use vstd::string::group_string_axioms;

/// `String::push` (std) appends one character: the contract claims that the string's characters
/// afterwards are the ones before followed by `ch`, as std's documentation says.
pub assume_specification[ String::push ](s: &mut String, ch: char)
    ensures
        final(s)@ == old(s)@.push(ch),
;

// ---------------------------------------------------------------------------
// Whitespace and trimming
// ---------------------------------------------------------------------------

/// Unicode `White_Space`, the property that `char::is_whitespace` and `str::trim` use.
pub open spec fn is_white(c: char) -> bool {
    let u = c as u32;
    ||| 0x09 <= u <= 0x0D
    ||| u == 0x20
    ||| u == 0x85
    ||| u == 0xA0
    ||| u == 0x1680
    ||| 0x2000 <= u <= 0x200A
    ||| u == 0x2028
    ||| u == 0x2029
    ||| u == 0x202F
    ||| u == 0x205F
    ||| u == 0x3000
}

/// `s` without its leading whitespace.
pub open spec fn trim_start(s: Seq<char>) -> Seq<char>
    decreases s.len(),
{
    if s.len() > 0 && is_white(s[0]) {
        trim_start(s.drop_first())
    } else {
        s
    }
}

/// `s` without its trailing whitespace.
pub open spec fn trim_end(s: Seq<char>) -> Seq<char>
    decreases s.len(),
{
    if s.len() > 0 && is_white(s.last()) {
        trim_end(s.drop_last())
    } else {
        s
    }
}

/// `s` without leading and trailing whitespace, as `str::trim` returns it.
pub open spec fn trim(s: Seq<char>) -> Seq<char> {
    trim_end(trim_start(s))
}

pub fn is_white_char(c: char) -> (res: bool)
    ensures
        res == is_white(c),
{
    let u = c as u32;
    (0x09 <= u && u <= 0x0D) || u == 0x20 || u == 0x85 || u == 0xA0 || u == 0x1680 || (0x2000
        <= u && u <= 0x200A) || u == 0x2028 || u == 0x2029 || u == 0x202F || u == 0x205F || u
        == 0x3000
}

/// The bounds `(lo, hi)` such that `v[lo..hi]` is `v` trimmed.
pub fn trim_bounds(v: &Vec<char>, lo0: usize, hi0: usize) -> (res: (usize, usize))
    requires
        lo0 <= hi0 <= v@.len(),
    ensures
        lo0 <= res.0 <= res.1 <= hi0,
        v@.subrange(res.0 as int, res.1 as int) == trim(v@.subrange(lo0 as int, hi0 as int)),
{
    let mut lo = lo0;
    while lo < hi0 && is_white_char(v[lo])
        invariant
            lo0 <= lo <= hi0 <= v@.len(),
            trim_start(v@.subrange(lo0 as int, hi0 as int)) == trim_start(
                v@.subrange(lo as int, hi0 as int),
            ),
        decreases hi0 - lo,
    {
        assert(v@.subrange(lo as int, hi0 as int).drop_first() =~= v@.subrange(
            lo + 1,
            hi0 as int,
        ));
        lo = lo + 1;
    }
    let ghost started = v@.subrange(lo as int, hi0 as int);
    assert(trim_start(started) == started);
    let mut hi = hi0;
    while hi > lo && is_white_char(v[hi - 1])
        invariant
            lo <= hi <= hi0 <= v@.len(),
            started == v@.subrange(lo as int, hi0 as int),
            trim_end(started) == trim_end(v@.subrange(lo as int, hi as int)),
        decreases hi - lo,
    {
        assert(v@.subrange(lo as int, hi as int).drop_last() =~= v@.subrange(
            lo as int,
            hi - 1,
        ));
        hi = hi - 1;
    }
    (lo, hi)
}

// ---------------------------------------------------------------------------
// Conversions between strings and characters
// ---------------------------------------------------------------------------

/// The characters of `s`, in order.
pub fn chars_of(s: &str) -> (res: Vec<char>)
    ensures
        res@ == s@,
{
    let mut res: Vec<char> = Vec::new();
    let mut it = s.chars();
    loop
        invariant
            res@ + it.remaining() == s@,
            it.decrease() is Some,
        ensures
            res@ == s@,
        decreases it.decrease()->0,
    {
        match it.next() {
            Some(c) => {
                res.push(c);
            },
            None => {
                break ;
            },
        }
    }
    res
}

/// A string holding the characters `v[lo..hi]`.
pub fn string_of(v: &Vec<char>, lo: usize, hi: usize) -> (res: String)
    requires
        lo <= hi <= v@.len(),
    ensures
        res@ == v@.subrange(lo as int, hi as int),
{
    let mut res = String::new();
    let mut i = lo;
    while i < hi
        invariant
            lo <= i <= hi <= v@.len(),
            res@ == v@.subrange(lo as int, i as int),
        decreases hi - i,
    {
        res.push(v[i]);
        assert(res@ =~= v@.subrange(lo as int, i + 1));
        i = i + 1;
    }
    res
}

/// A copy of `s`.
pub fn copy_str(s: &str) -> (res: String)
    ensures
        res@ == s@,
{
    s.to_string()
}

/// Appends `t` to `s`.
pub fn push_str(s: &mut String, t: &str)
    ensures
        final(s)@ == old(s)@ + t@,
{
    let v = chars_of(t);
    let ghost s0 = s@;
    let mut i: usize = 0;
    while i < v.len()
        invariant
            0 <= i <= v@.len(),
            v@ == t@,
            s@ == s0 + v@.subrange(0, i as int),
        decreases v@.len() - i,
    {
        s.push(v[i]);
        assert(s@ =~= s0 + v@.subrange(0, i + 1));
        i = i + 1;
    }
    assert(v@.subrange(0, v@.len() as int) =~= v@);
}

/// `s` trimmed, as a new string.
pub fn trimmed(s: &str) -> (res: String)
    ensures
        res@ == trim(s@),
{
    let v = chars_of(s);
    let (lo, hi) = trim_bounds(&v, 0, v.len());
    assert(v@.subrange(0, v@.len() as int) =~= v@);
    string_of(&v, lo, hi)
}


/// Whether `a` and `b` hold the same characters.
pub fn str_eq(a: &str, b: &str) -> (res: bool)
    ensures
        res == (a@ == b@),
{
    let x = chars_of(a);
    let y = chars_of(b);
    if x.len() != y.len() {
        return false;
    }
    let r = matches_at(&x, &y, 0);
    assert(x@.subrange(0, y@.len() as int) =~= x@);
    r
}

/// A vector holding `v[lo..hi]`.
pub fn sub_chars(v: &Vec<char>, lo: usize, hi: usize) -> (res: Vec<char>)
    requires
        lo <= hi <= v@.len(),
    ensures
        res@ == v@.subrange(lo as int, hi as int),
{
    let mut res: Vec<char> = Vec::new();
    let mut i = lo;
    while i < hi
        invariant
            lo <= i <= hi <= v@.len(),
            res@ == v@.subrange(lo as int, i as int),
        decreases hi - i,
    {
        res.push(v[i]);
        assert(res@ =~= v@.subrange(lo as int, i + 1));
        i = i + 1;
    }
    res
}

/// At most the first `n` items of `s`.
pub open spec fn first_n<A>(s: Seq<A>, n: nat) -> Seq<A> {
    if s.len() <= n {
        s
    } else {
        s.subrange(0, n as int)
    }
}

/// The first `n` characters of `s`, as `s.chars().take(n).collect()`.
pub fn take_chars(s: &str, n: usize) -> (res: String)
    ensures
        res@ == first_n(s@, n as nat),
{
    let v = chars_of(s);
    let end = if v.len() <= n { v.len() } else { n };
    let r = string_of(&v, 0, end);
    assert(v@.len() <= n ==> v@.subrange(0, end as int) =~= v@);
    r
}

/// The items of `items` separated by `sep`, as `join` writes them.
pub open spec fn join(items: Seq<Seq<char>>, sep: Seq<char>) -> Seq<char>
    decreases items.len(),
{
    if items.len() == 0 {
        Seq::empty()
    } else if items.len() == 1 {
        items[0]
    } else {
        join(items.drop_last(), sep) + sep + items.last()
    }
}

/// Joins `items` with `sep`.
pub fn join_strings(items: &Vec<String>, sep: &str) -> (res: String)
    ensures
        res@ == join(items.deep_view(), sep@),
{
    let mut res = String::new();
    let mut i: usize = 0;
    assert(items.deep_view().subrange(0, 0) =~= Seq::<Seq<char>>::empty());
    while i < items.len()
        invariant
            0 <= i <= items@.len(),
            res@ == join(items.deep_view().subrange(0, i as int), sep@),
        decreases items@.len() - i,
    {
        if i > 0 {
            push_str(&mut res, sep);
        }
        push_str(&mut res, items[i].as_str());
        proof {
            let pre = items.deep_view().subrange(0, i as int);
            let post = items.deep_view().subrange(0, i + 1);
            assert(post.drop_last() =~= pre);
            assert(post.last() == items@[i as int]@);
            assert(res@ =~= join(post, sep@));
        }
        i = i + 1;
    }
    assert(items.deep_view().subrange(0, items@.len() as int) =~= items.deep_view());
    res
}


// ---------------------------------------------------------------------------
// UTF-8 lengths
// ---------------------------------------------------------------------------

/// The number of bytes that UTF-8 takes for `c`.
pub open spec fn utf8_width(c: char) -> nat {
    let u = c as u32;
    if u <= 0x7F {
        1
    } else if u <= 0x7FF {
        2
    } else if u <= 0xFFFF {
        3
    } else {
        4
    }
}

pub proof fn lemma_encode_scalar_len(c: char)
    ensures
        encode_scalar(c as u32).len() == utf8_width(c),
{
}

pub proof fn lemma_encode_utf8_push(s: Seq<char>, c: char)
    ensures
        encode_utf8(s.push(c)).len() == encode_utf8(s).len() + utf8_width(c),
    decreases s.len(),
{
    if s.len() == 0 {
        lemma_encode_scalar_len(c);
        assert(s.push(c).drop_first() =~= Seq::<char>::empty());
        assert(encode_utf8(Seq::<char>::empty()).len() == 0);
        assert(s.push(c)[0] == c);
        assert(encode_utf8(s).len() == 0);
    } else {
        lemma_encode_utf8_push(s.drop_first(), c);
        assert(s.push(c).drop_first() =~= s.drop_first().push(c));
        assert(s.push(c)[0] == s[0]);
        assert(encode_utf8(s.push(c)) == encode_scalar(s[0] as u32) + encode_utf8(
            s.drop_first().push(c),
        ));
        assert(encode_utf8(s) == encode_scalar(s[0] as u32) + encode_utf8(s.drop_first()));
    }
}


pub proof fn lemma_encode_utf8_concat(a: Seq<char>, b: Seq<char>)
    ensures
        encode_utf8(a + b).len() == encode_utf8(a).len() + encode_utf8(b).len(),
    decreases b.len(),
{
    if b.len() == 0 {
        assert(a + b =~= a);
        assert(encode_utf8(b).len() == 0);
    } else {
        lemma_encode_utf8_concat(a, b.drop_last());
        lemma_encode_utf8_push(a + b.drop_last(), b.last());
        lemma_encode_utf8_push(b.drop_last(), b.last());
        assert((a + b.drop_last()).push(b.last()) =~= a + b);
        assert(b.drop_last().push(b.last()) =~= b);
    }
}

pub proof fn lemma_encode_utf8_len_monotone(s: Seq<char>, i: int, j: int)
    requires
        0 <= i <= j <= s.len(),
    ensures
        encode_utf8(s.subrange(0, i)).len() <= encode_utf8(s.subrange(0, j)).len(),
    decreases j - i,
{
    if i < j {
        lemma_encode_utf8_len_monotone(s, i, j - 1);
        lemma_encode_utf8_push(s.subrange(0, j - 1), s[j - 1]);
        assert(s.subrange(0, j - 1).push(s[j - 1]) =~= s.subrange(0, j));
    }
}

pub fn utf8_width_of(c: char) -> (res: usize)
    ensures
        res == utf8_width(c),
{
    let u = c as u32;
    if u <= 0x7F {
        1
    } else if u <= 0x7FF {
        2
    } else if u <= 0xFFFF {
        3
    } else {
        4
    }
}

/// Whether `v[lo..hi]` takes more than `limit` bytes in UTF-8.
pub fn utf8_len_exceeds(v: &Vec<char>, lo: usize, hi: usize, limit: usize) -> (res: bool)
    requires
        lo <= hi <= v@.len(),
        limit <= usize::MAX - 4,
    ensures
        res == (encode_utf8(v@.subrange(lo as int, hi as int)).len() > limit),
{
    let ghost w = v@.subrange(lo as int, hi as int);
    let mut n: usize = 0;
    let mut i = lo;
    while i < hi
        invariant
            lo <= i <= hi <= v@.len(),
            limit <= usize::MAX - 4,
            w == v@.subrange(lo as int, hi as int),
            n == encode_utf8(w.subrange(0, i - lo)).len(),
            n <= limit,
        decreases hi - i,
    {
        proof {
            lemma_encode_utf8_push(w.subrange(0, i - lo), v@[i as int]);
            assert(w.subrange(0, i - lo).push(v@[i as int]) =~= w.subrange(0, i + 1 - lo));
        }
        n = n + utf8_width_of(v[i]);
        i = i + 1;
        if n > limit {
            proof {
                lemma_encode_utf8_len_monotone(w, i - lo, w.len() as int);
                assert(w.subrange(0, w.len() as int) =~= w);
            }
            return true;
        }
    }
    assert(w.subrange(0, hi - lo) =~= w);
    false
}

/// The number of bytes that `s` takes in UTF-8, where that fits in `usize`.
pub fn utf8_len(s: &str) -> (res: usize)
    requires
        encode_utf8(s@).len() <= usize::MAX,
    ensures
        res == encode_utf8(s@).len(),
{
    let v = chars_of(s);
    let mut n: usize = 0;
    let mut i: usize = 0;
    while i < v.len()
        invariant
            0 <= i <= v@.len(),
            v@ == s@,
            encode_utf8(v@).len() <= usize::MAX,
            n == encode_utf8(v@.subrange(0, i as int)).len(),
        decreases v@.len() - i,
    {
        proof {
            lemma_encode_utf8_push(v@.subrange(0, i as int), v@[i as int]);
            assert(v@.subrange(0, i as int).push(v@[i as int]) =~= v@.subrange(0, i + 1));
            lemma_encode_utf8_len_monotone(v@, i + 1, v@.len() as int);
            assert(v@.subrange(0, v@.len() as int) =~= v@);
        }
        n = n + utf8_width_of(v[i]);
        i = i + 1;
    }
    assert(v@.subrange(0, v@.len() as int) =~= v@);
    n
}

// ---------------------------------------------------------------------------
// Searching
// ---------------------------------------------------------------------------

/// `needle` occurs in `hay` starting at index `i`.
pub open spec fn occurs_at(hay: Seq<char>, needle: Seq<char>, i: int) -> bool {
    0 <= i && i + needle.len() <= hay.len() && hay.subrange(i, i + needle.len()) == needle
}

/// `needle` occurs somewhere in `hay`.
pub open spec fn contains(hay: Seq<char>, needle: Seq<char>) -> bool {
    exists|i: int| occurs_at(hay, needle, i)
}

/// `hay` starts with `prefix`.
pub open spec fn starts_with(hay: Seq<char>, prefix: Seq<char>) -> bool {
    occurs_at(hay, prefix, 0)
}

/// Whether `needle` occurs in `hay` at index `i`.
pub fn matches_at(hay: &Vec<char>, needle: &Vec<char>, i: usize) -> (res: bool)
    ensures
        res == occurs_at(hay@, needle@, i as int),
{
    if i > hay.len() || needle.len() > hay.len() - i {
        return false;
    }
    let mut j: usize = 0;
    while j < needle.len()
        invariant
            i + needle@.len() <= hay@.len(),
            0 <= j <= needle@.len(),
            forall|k: int| 0 <= k < j ==> hay@[i + k] == needle@[k],
        decreases needle@.len() - j,
    {
        assert(i + j < hay.len());
        if hay[i + j] != needle[j] {
            assert(hay@.subrange(i as int, i + needle@.len())[j as int] != needle@[j as int]);
            return false;
        }
        j = j + 1;
    }
    assert(hay@.subrange(i as int, i + needle@.len()) =~= needle@);
    true
}

/// The first index at or after `from` where `needle` occurs in `hay`.
pub fn find_from(hay: &Vec<char>, needle: &Vec<char>, from: usize) -> (res: Option<usize>)
    ensures
        match res {
            Some(i) => from <= i && occurs_at(hay@, needle@, i as int) && forall|k: int|
                from <= k < i ==> !occurs_at(hay@, needle@, k),
            None => forall|k: int| from <= k ==> !occurs_at(hay@, needle@, k),
        },
{
    if from > hay.len() {
        assert forall|k: int| from <= k implies !occurs_at(hay@, needle@, k) by {}
        return None;
    }
    let mut i = from;
    loop
        invariant
            from <= i <= hay@.len(),
            forall|k: int| from <= k < i ==> !occurs_at(hay@, needle@, k),
        decreases hay@.len() - i,
    {
        if matches_at(hay, needle, i) {
            return Some(i);
        }
        if i == hay.len() {
            assert forall|k: int| from <= k implies !occurs_at(hay@, needle@, k) by {
                if k > i {
                }
            }
            return None;
        }
        i = i + 1;
    }
}


/// The first index at or after `from` where `needle` occurs in `hay`, or -1 where none does.
pub open spec fn find_index_from(hay: Seq<char>, needle: Seq<char>, from: int) -> int
    decreases hay.len() + 1 - from,
{
    if from < 0 || from > hay.len() {
        -1
    } else if occurs_at(hay, needle, from) {
        from
    } else {
        find_index_from(hay, needle, from + 1)
    }
}

pub proof fn lemma_find_index_none(hay: Seq<char>, needle: Seq<char>, from: int)
    requires
        0 <= from,
        forall|k: int| from <= k ==> !occurs_at(hay, needle, k),
    ensures
        find_index_from(hay, needle, from) == -1,
    decreases hay.len() + 1 - from,
{
    if from <= hay.len() {
        lemma_find_index_none(hay, needle, from + 1);
    }
}

pub proof fn lemma_find_index_some(hay: Seq<char>, needle: Seq<char>, from: int, i: int)
    requires
        0 <= from <= i,
        occurs_at(hay, needle, i),
        forall|k: int| from <= k < i ==> !occurs_at(hay, needle, k),
    ensures
        find_index_from(hay, needle, from) == i,
    decreases i - from,
{
    if from < i {
        lemma_find_index_some(hay, needle, from + 1, i);
    }
}

/// The first index at or after `from` where `needle` occurs in `hay`.
pub fn find_index(hay: &Vec<char>, needle: &Vec<char>, from: usize) -> (res: Option<usize>)
    ensures
        match res {
            Some(i) => find_index_from(hay@, needle@, from as int) == i as int && i + needle@.len()
                <= hay@.len(),
            None => find_index_from(hay@, needle@, from as int) == -1,
        },
{
    let r = find_from(hay, needle, from);
    proof {
        match r {
            Some(i) => lemma_find_index_some(hay@, needle@, from as int, i as int),
            None => lemma_find_index_none(hay@, needle@, from as int),
        }
    }
    r
}


/// An item that `f` keeps is in `s.filter_map(f)`.
pub proof fn lemma_filter_map_includes<A, B>(s: Seq<A>, f: spec_fn(A) -> Option<B>, i: int)
    requires
        0 <= i < s.len(),
        f(s[i]) is Some,
    ensures
        s.filter_map(f).contains(f(s[i])->0),
    decreases s.len(),
{
    let x = f(s[i])->0;
    if i == s.len() - 1 {
        assert(s.filter_map(f) == s.drop_last().filter_map(f) + seq![x]);
        assert(s.filter_map(f)[s.drop_last().filter_map(f).len() as int] == x);
    } else {
        let rest = s.drop_last();
        assert(rest[i] == s[i]);
        lemma_filter_map_includes(rest, f, i);
        let j = choose|j: int| 0 <= j < rest.filter_map(f).len() && rest.filter_map(f)[j] == x;
        match f(s.last()) {
            Some(y) => {
                assert(s.filter_map(f) == rest.filter_map(f) + seq![y]);
                assert(s.filter_map(f)[j] == x);
            },
            None => {
                assert(s.filter_map(f) == rest.filter_map(f));
            },
        }
    }
}

/// `needle` occurring in `a` occurs in `a + b`.
pub proof fn lemma_contains_prefix(a: Seq<char>, b: Seq<char>, needle: Seq<char>)
    requires
        contains(a, needle),
    ensures
        contains(a + b, needle),
{
    let p = choose|p: int| occurs_at(a, needle, p);
    assert((a + b).subrange(p, p + needle.len()) =~= a.subrange(p, p + needle.len()));
    assert(occurs_at(a + b, needle, p));
}

/// Every item of a join occurs in it.
pub proof fn lemma_join_contains(items: Seq<Seq<char>>, sep: Seq<char>, k: int)
    requires
        0 <= k < items.len(),
    ensures
        contains(join(items, sep), items[k]),
    decreases items.len(),
{
    if items.len() == 1 {
        assert(join(items, sep).subrange(0, items[0].len() as int) =~= items[0]);
        assert(occurs_at(join(items, sep), items[k], 0));
    } else if k == items.len() - 1 {
        let prefix = join(items.drop_last(), sep) + sep;
        assert(join(items, sep) == prefix + items.last());
        assert((prefix + items.last()).subrange(
            prefix.len() as int,
            (prefix.len() + items.last().len()) as int,
        ) =~= items.last());
        assert(occurs_at(join(items, sep), items[k], prefix.len() as int));
    } else {
        lemma_join_contains(items.drop_last(), sep, k);
        lemma_contains_prefix(join(items.drop_last(), sep), sep + items.last(), items[k]);
        assert(join(items.drop_last(), sep) + (sep + items.last()) =~= join(items, sep));
    }
}

/// Whether `needle` occurs in `hay`.
pub fn contains_str(hay: &str, needle: &str) -> (res: bool)
    ensures
        res == contains(hay@, needle@),
{
    let h = chars_of(hay);
    let n = chars_of(needle);
    match find_from(&h, &n, 0) {
        Some(i) => true,
        None => {
            assert forall|k: int| !occurs_at(hay@, needle@, k) by {
                if k < 0 {
                }
            }
            false
        },
    }
}

/// Whether `hay` starts with `prefix`.
pub fn starts_with_str(hay: &str, prefix: &str) -> (res: bool)
    ensures
        res == starts_with(hay@, prefix@),
{
    let h = chars_of(hay);
    let p = chars_of(prefix);
    matches_at(&h, &p, 0)
}


// ---------------------------------------------------------------------------
// Positions of characters and repeated prefixes
// ---------------------------------------------------------------------------

/// The first index at or after `from` that holds `c`, or `s.len()` where there is none.
pub open spec fn first_index_from(s: Seq<char>, c: char, from: int) -> int
    decreases s.len() - from,
{
    if from < 0 || from >= s.len() {
        s.len() as int
    } else if s[from] == c {
        from
    } else {
        first_index_from(s, c, from + 1)
    }
}

/// The last index before `to` that holds `c`, or -1 where there is none.
pub open spec fn last_index_before(s: Seq<char>, c: char, to: int) -> int
    decreases to,
{
    if to <= 0 || to > s.len() {
        -1
    } else if s[to - 1] == c {
        to - 1
    } else {
        last_index_before(s, c, to - 1)
    }
}

/// The end of `s[..to]` once every trailing `c` is removed, as `trim_end_matches(c)`.
pub open spec fn trim_end_char_to(s: Seq<char>, c: char, to: int) -> int
    decreases to,
{
    if to <= 0 || to > s.len() {
        0
    } else if s[to - 1] == c {
        trim_end_char_to(s, c, to - 1)
    } else {
        to
    }
}

/// Where `s[from..]` starts once every leading copy of `p` is removed, as
/// `trim_start_matches(p)`.
pub open spec fn strip_prefixes_from(s: Seq<char>, p: Seq<char>, from: int) -> int
    decreases s.len() - from,
{
    if p.len() > 0 && from >= 0 && occurs_at(s, p, from) {
        strip_prefixes_from(s, p, from + p.len())
    } else {
        from
    }
}

/// `s` without every leading copy of `p`.
pub open spec fn strip_prefixes(s: Seq<char>, p: Seq<char>) -> Seq<char> {
    s.subrange(strip_prefixes_from(s, p, 0), s.len() as int)
}

pub proof fn lemma_first_index_bounds(s: Seq<char>, c: char, from: int)
    requires
        0 <= from <= s.len(),
    ensures
        from <= first_index_from(s, c, from) <= s.len(),
        first_index_from(s, c, from) < s.len() ==> s[first_index_from(s, c, from)] == c,
    decreases s.len() - from,
{
    if from < s.len() && s[from] != c {
        lemma_first_index_bounds(s, c, from + 1);
    }
}

/// The first index at or after `from` that holds `c`, or `v.len()`.
pub fn first_index_of(v: &Vec<char>, c: char, from: usize) -> (res: usize)
    requires
        from <= v@.len(),
    ensures
        res == first_index_from(v@, c, from as int),
        from <= res <= v@.len(),
{
    let mut i = from;
    while i < v.len() && v[i] != c
        invariant
            from <= i <= v@.len(),
            first_index_from(v@, c, from as int) == first_index_from(v@, c, i as int),
        decreases v@.len() - i,
    {
        i = i + 1;
    }
    i
}

/// The last index before `to` that holds `c`, as a count: `res == last + 1`, 0 where none.
pub fn after_last_index_of(v: &Vec<char>, c: char, to: usize) -> (res: usize)
    requires
        to <= v@.len(),
    ensures
        res == last_index_before(v@, c, to as int) + 1,
        res <= to,
{
    let mut i = to;
    while i > 0 && v[i - 1] != c
        invariant
            0 <= i <= to <= v@.len(),
            last_index_before(v@, c, to as int) == last_index_before(v@, c, i as int),
        decreases i,
    {
        i = i - 1;
    }
    i
}

/// The end of `v[..to]` without its trailing `c`s.
pub fn trim_end_char(v: &Vec<char>, c: char, to: usize) -> (res: usize)
    requires
        to <= v@.len(),
    ensures
        res == trim_end_char_to(v@, c, to as int),
        res <= to,
{
    let mut i = to;
    while i > 0 && v[i - 1] == c
        invariant
            0 <= i <= to <= v@.len(),
            trim_end_char_to(v@, c, to as int) == trim_end_char_to(v@, c, i as int),
        decreases i,
    {
        i = i - 1;
    }
    i
}

/// Where `v[from..]` starts without its leading copies of `p`.
pub fn strip_prefixes_index(v: &Vec<char>, p: &Vec<char>, from: usize) -> (res: usize)
    requires
        from <= v@.len(),
    ensures
        res == strip_prefixes_from(v@, p@, from as int),
        from <= res <= v@.len(),
{
    if p.len() == 0 {
        return from;
    }
    let mut i = from;
    while matches_at(v, p, i)
        invariant
            from <= i <= v@.len(),
            p@.len() > 0,
            strip_prefixes_from(v@, p@, from as int) == strip_prefixes_from(v@, p@, i as int),
        decreases v@.len() - i,
    {
        let n = v.len();
        assert(i + p@.len() <= n);
        i = i + p.len();
    }
    i
}

// ---------------------------------------------------------------------------
// Decimal numerals
// ---------------------------------------------------------------------------

pub open spec fn digit_char(d: nat) -> char {
    (('0' as u32) + d) as char
}

/// The decimal numeral of `n`, as `n.to_string()` writes it.
pub open spec fn decimal(n: nat) -> Seq<char>
    decreases n,
{
    if n < 10 {
        seq![digit_char(n)]
    } else {
        decimal(n / 10).push(digit_char(n % 10))
    }
}

/// Appends the decimal numeral of `n` to `s`.
pub fn push_decimal(s: &mut String, n: u64)
    ensures
        final(s)@ == old(s)@ + decimal(n as nat),
    decreases n,
{
    if n >= 10 {
        push_decimal(s, n / 10);
    }
    let d = n % 10;
    let ch = if d == 0 { '0' } else if d == 1 { '1' } else if d == 2 { '2' } else if d == 3 {
        '3'
    } else if d == 4 { '4' } else if d == 5 { '5' } else if d == 6 { '6' } else if d == 7 {
        '7'
    } else if d == 8 { '8' } else { '9' };
    assert(ch == digit_char((n % 10) as nat));
    s.push(ch);
    if n >= 10 {
        assert(old(s)@ + decimal(n as nat) =~= old(s)@ + decimal((n / 10) as nat) + seq![ch]);
    } else {
        assert(old(s)@ + decimal(n as nat) =~= old(s)@.push(ch));
    }
}

} // verus!

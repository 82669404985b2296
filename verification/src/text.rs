//! Text helpers: splitting, trimming, letter case, search, order, decimal numbers.
//!
//! A string is modelled by the sequence of its characters.

use vstd::prelude::*;

verus! {

/// The contents of a list of strings.
pub open spec fn texts(list: Seq<String>) -> Seq<Seq<char>> {
    list.map_values(|s: String| s@)
}

/// The contents of an optional string.
pub open spec fn opt_text(s: Option<String>) -> Option<Seq<char>> {
    match s {
        Some(t) => Some(t@),
        None => None,
    }
}

/// `String::push` adds the character at the end.
pub assume_specification[ String::push ](s: &mut String, ch: char)
    ensures
        final(s)@ == old(s)@.push(ch),
;

/// The characters of `s`, in order.
pub fn chars_of(s: &str) -> (r: Vec<char>)
    ensures
        r@ == s@,
{
    let mut r: Vec<char> = Vec::new();
    for c in it: s.chars()
        invariant
            it.seq() == s@,
            r@ == s@.take(it.index()),
    {
        r.push(c);
    }
    r
}

/// The string made of the characters `cs[from..to]`.
pub fn string_of(cs: &Vec<char>, from: usize, to: usize) -> (r: String)
    requires
        from <= to <= cs@.len(),
    ensures
        r@ == cs@.subrange(from as int, to as int),
{
    let mut r = String::new();
    let mut i: usize = from;
    while i < to
        invariant
            from <= i <= to <= cs@.len(),
            r@ == cs@.subrange(from as int, i as int),
        decreases to - i,
    {
        r.push(cs[i]);
        i = i + 1;
    }
    r
}

/// Whether two strings hold the same characters.
pub fn text_eq(a: &str, b: &str) -> (r: bool)
    ensures
        r == (a@ == b@),
{
    a.to_owned() == b.to_owned()
}

/// Whether `s` is present and holds the characters of `t`.
pub fn is_text(s: &Option<String>, t: &str) -> (r: bool)
    ensures
        r == (opt_text(*s) == Some(t@)),
{
    match s {
        Some(x) => text_eq(x.as_str(), t),
        None => false,
    }
}

/// Whether `s` holds the character `c`.
pub fn has_char(s: &str, c: char) -> (r: bool)
    ensures
        r == s@.contains(c),
{
    let cs = chars_of(s);
    let mut i: usize = 0;
    while i < cs.len()
        invariant
            i <= cs@.len(),
            cs@ == s@,
            forall|j: int| 0 <= j < i ==> cs@[j] != c,
        decreases cs@.len() - i,
    {
        if cs[i] == c {
            return true;
        }
        i = i + 1;
    }
    false
}

// ---------------------------------------------------------------------------
// Search
// ---------------------------------------------------------------------------

/// Whether `needle` stands in `hay` at position `at`.
pub open spec fn occurs_at(hay: Seq<char>, needle: Seq<char>, at: int) -> bool {
    0 <= at <= hay.len() - needle.len() && hay.subrange(at, at + needle.len()) == needle
}

/// Whether `needle` stands anywhere in `hay`.
pub open spec fn occurs_in(hay: Seq<char>, needle: Seq<char>) -> bool {
    exists|at: int| occurs_at(hay, needle, at)
}

fn occurs_here(hay: &Vec<char>, needle: &Vec<char>, at: usize) -> (r: bool)
    requires
        at + needle@.len() <= hay@.len(),
    ensures
        r == occurs_at(hay@, needle@, at as int),
{
    let len: usize = hay.len();
    let mut k: usize = 0;
    while k < needle.len()
        invariant
            k <= needle@.len(),
            len == hay@.len(),
            at + needle@.len() <= hay@.len(),
            forall|j: int| 0 <= j < k ==> hay@[at + j] == needle@[j],
        decreases needle@.len() - k,
    {
        if hay[at + k] != needle[k] {
            assert(hay@.subrange(at as int, at + needle@.len())[k as int] != needle@[k as int]);
            return false;
        }
        k = k + 1;
    }
    assert(hay@.subrange(at as int, at + needle@.len()) =~= needle@);
    true
}

/// Whether `needle` stands anywhere in `hay`.
pub fn contains_text(hay: &str, needle: &str) -> (r: bool)
    ensures
        r == occurs_in(hay@, needle@),
{
    let h = chars_of(hay);
    let n = chars_of(needle);
    if n.len() > h.len() {
        assert(!occurs_in(hay@, needle@));
        return false;
    }
    let last: usize = h.len() - n.len();
    let mut i: usize = 0;
    while i <= last
        invariant
            h@ == hay@,
            n@ == needle@,
            last == h@.len() - n@.len(),
            i <= last + 1,
            forall|at: int| 0 <= at < i ==> !occurs_at(hay@, needle@, at),
        decreases last + 1 - i,
    {
        if occurs_here(&h, &n, i) {
            return true;
        }
        if i == last {
            assert(!occurs_in(hay@, needle@));
            return false;
        }
        i = i + 1;
    }
    false
}

// ---------------------------------------------------------------------------
// White space
// ---------------------------------------------------------------------------

/// The characters with the Unicode property White_Space.
pub open spec fn is_white(c: char) -> bool {
    let u = c as u32;
    ||| 0x09 <= u <= 0x0d
    ||| u == 0x20
    ||| u == 0x85
    ||| u == 0xa0
    ||| u == 0x1680
    ||| 0x2000 <= u <= 0x200a
    ||| u == 0x2028
    ||| u == 0x2029
    ||| u == 0x202f
    ||| u == 0x205f
    ||| u == 0x3000
}

/// `char::is_whitespace` tells the characters with the property White_Space,
/// as the Unicode Character Database lists them, from the others.
pub assume_specification[ char::is_whitespace ](c: char) -> (r: bool)
    ensures
        r == is_white(c),
;

/// `s` without the white space it starts with.
pub open spec fn trimmed_start(s: Seq<char>) -> Seq<char>
    decreases s.len(),
{
    if s.len() > 0 && is_white(s[0]) {
        trimmed_start(s.drop_first())
    } else {
        s
    }
}

/// `s` without the white space it ends with.
pub open spec fn trimmed_end(s: Seq<char>) -> Seq<char>
    decreases s.len(),
{
    if s.len() > 0 && is_white(s.last()) {
        trimmed_end(s.drop_last())
    } else {
        s
    }
}

/// `s` without the white space at either end.
pub open spec fn trimmed(s: Seq<char>) -> Seq<char> {
    trimmed_end(trimmed_start(s))
}

/// `s` without the white space at either end.
pub fn trim(s: &str) -> (r: String)
    ensures
        r@ == trimmed(s@),
{
    let cs = chars_of(s);
    let mut from: usize = 0;
    assert(cs@.skip(0) =~= cs@);
    while from < cs.len() && cs[from].is_whitespace()
        invariant
            cs@ == s@,
            from <= cs@.len(),
            trimmed_start(cs@.skip(from as int)) == trimmed_start(cs@),
        decreases cs@.len() - from,
    {
        assert(cs@.skip(from as int).drop_first() =~= cs@.skip(from + 1));
        from = from + 1;
    }
    let ghost start = cs@.skip(from as int);
    let mut to: usize = cs.len();
    assert(cs@.subrange(from as int, to as int) =~= start);
    while to > from && cs[to - 1].is_whitespace()
        invariant
            from <= to <= cs@.len(),
            trimmed_end(cs@.subrange(from as int, to as int)) == trimmed_end(start),
        decreases to,
    {
        let ghost cur = cs@.subrange(from as int, to as int);
        assert(cur.last() == cs@[to - 1]);
        assert(cur.drop_last() =~= cs@.subrange(from as int, to - 1));
        to = to - 1;
    }
    let ghost cur = cs@.subrange(from as int, to as int);
    assert(to > from ==> cur.last() == cs@[to - 1]);
    string_of(&cs, from, to)
}

// ---------------------------------------------------------------------------
// Splitting
// ---------------------------------------------------------------------------

/// The pieces of `s` between the separators, empty ones included.
pub open spec fn split(s: Seq<char>, sep: char) -> Seq<Seq<char>>
    decreases s.len(),
{
    if s.len() == 0 {
        seq![Seq::<char>::empty()]
    } else {
        let before = split(s.drop_last(), sep);
        if s.last() == sep {
            before.push(Seq::<char>::empty())
        } else {
            before.drop_last().push(before.last().push(s.last()))
        }
    }
}

/// The pieces of `s` between the separators, trimmed, without the empty ones.
pub open spec fn parts(s: Seq<char>, sep: char) -> Seq<Seq<char>> {
    kept(split(s, sep))
}

/// The pieces, trimmed, without the empty ones.
pub open spec fn kept(pieces: Seq<Seq<char>>) -> Seq<Seq<char>>
    decreases pieces.len(),
{
    if pieces.len() == 0 {
        seq![]
    } else {
        let before = kept(pieces.drop_last());
        let last = trimmed(pieces.last());
        if last.len() == 0 {
            before
        } else {
            before.push(last)
        }
    }
}

pub proof fn lemma_split_nonempty(s: Seq<char>, sep: char)
    ensures
        split(s, sep).len() > 0,
    decreases s.len(),
{
    if s.len() > 0 {
        lemma_split_nonempty(s.drop_last(), sep);
    }
}

/// Text without separators is a single piece.
pub proof fn lemma_split_single(s: Seq<char>, sep: char)
    requires
        !s.contains(sep),
    ensures
        split(s, sep) == seq![s],
    decreases s.len(),
{
    if s.len() > 0 {
        let init = s.drop_last();
        assert(s.contains(s.last()));
        assert forall|i: int| 0 <= i < init.len() implies init[i] != sep by {
            assert(s.contains(s[i]));
        }
        lemma_split_single(init, sep);
        assert(init.push(s.last()) =~= s);
        assert(split(s, sep) =~= seq![s]);
    } else {
        assert(s =~= Seq::<char>::empty());
    }
}

/// The pieces of `s` between the separators, trimmed, without the empty ones.
pub fn split_parts(s: &str, sep: char) -> (r: Vec<String>)
    ensures
        texts(r@) == parts(s@, sep),
{
    let cs = chars_of(s);
    let mut r: Vec<String> = Vec::new();
    let mut start: usize = 0;
    let mut i: usize = 0;
    assert(cs@.take(0) =~= Seq::<char>::empty());
    assert(cs@.subrange(0, 0) =~= Seq::<char>::empty());
    assert(split(cs@.take(0), sep).drop_last() =~= Seq::<Seq<char>>::empty());
    assert(texts(r@) =~= Seq::<Seq<char>>::empty());
    while i < cs.len()
        invariant
            cs@ == s@,
            start <= i <= cs@.len(),
            split(cs@.take(i as int), sep).len() > 0,
            split(cs@.take(i as int), sep).last() == cs@.subrange(start as int, i as int),
            texts(r@) == kept(split(cs@.take(i as int), sep).drop_last()),
        decreases cs@.len() - i,
    {
        let ghost now = cs@.take(i as int);
        let ghost next = cs@.take(i + 1);
        assert(next.drop_last() =~= now);
        assert(next.last() == cs@[i as int]);
        if cs[i] == sep {
            let piece = string_of(&cs, start, i);
            let t = trim(piece.as_str());
            proof {
                let pieces = split(now, sep);
                assert(split(next, sep).drop_last() =~= pieces);
                assert(cs@.subrange(i + 1, i + 1) =~= Seq::<char>::empty());
                if t@.len() > 0 {
                    assert(texts(r@.push(t)) =~= texts(r@).push(t@));
                }
            }
            if !t.as_str().is_empty() {
                r.push(t);
            }
            start = i + 1;
        } else {
            proof {
                let pieces = split(now, sep);
                assert(split(next, sep).drop_last() =~= pieces.drop_last());
                assert(cs@.subrange(start as int, i as int).push(cs@[i as int]) =~= cs@.subrange(
                    start as int,
                    i + 1,
                ));
            }
        }
        i = i + 1;
    }
    assert(cs@.take(i as int) =~= s@);
    let piece = string_of(&cs, start, i);
    let t = trim(piece.as_str());
    proof {
        if t@.len() > 0 {
            assert(texts(r@.push(t)) =~= texts(r@).push(t@));
        }
    }
    if !t.as_str().is_empty() {
        r.push(t);
    }
    r
}

// ---------------------------------------------------------------------------
// Letter case
// ---------------------------------------------------------------------------

/// Whether all characters are ASCII.
pub open spec fn is_ascii_text(s: Seq<char>) -> bool {
    forall|i: int| 0 <= i < s.len() ==> (#[trigger] s[i] as u32) < 0x80
}

/// The lower case of an ASCII character.
pub open spec fn ascii_lower(c: char) -> char {
    if 'A' as u32 <= c as u32 <= 'Z' as u32 {
        (c as u32 + 32) as char
    } else {
        c
    }
}

/// The upper case of an ASCII character.
pub open spec fn ascii_upper(c: char) -> char {
    if 'a' as u32 <= c as u32 <= 'z' as u32 {
        (c as u32 - 32) as char
    } else {
        c
    }
}

/// The text with its ASCII letters in lower case.
pub open spec fn ascii_lowered(s: Seq<char>) -> Seq<char> {
    s.map_values(|c: char| ascii_lower(c))
}

/// The text with its ASCII letters in upper case.
pub open spec fn ascii_uppered(s: Seq<char>) -> Seq<char> {
    s.map_values(|c: char| ascii_upper(c))
}

/// What `str::to_lowercase` makes of a text that is not all ASCII.
pub uninterp spec fn unicode_lower(s: Seq<char>) -> Seq<char>;

/// What `str::to_uppercase` makes of a text that is not all ASCII.
pub uninterp spec fn unicode_upper(s: Seq<char>) -> Seq<char>;

/// The lower case of a text. In which case its ASCII letters are written makes no
/// difference.
pub open spec fn lower(s: Seq<char>) -> Seq<char> {
    if is_ascii_text(s) {
        ascii_lowered(s)
    } else {
        unicode_lower(ascii_lowered(s))
    }
}

/// The upper case of a text. In which case its ASCII letters are written makes no
/// difference.
pub open spec fn upper(s: Seq<char>) -> Seq<char> {
    if is_ascii_text(s) {
        ascii_uppered(s)
    } else {
        unicode_upper(ascii_uppered(s))
    }
}

/// `str::to_lowercase` follows the Unicode mapping: ASCII letters map to their
/// ASCII lower case, other ASCII characters to themselves. What it makes of
/// other text depends on the text alone and is left to a name. There too both cases of
/// an ASCII letter map to the same, so a text with its ASCII letters put in lower case
/// beforehand gives the same result.
pub assume_specification[ str::to_lowercase ](s: &str) -> (r: String)
    ensures
        is_ascii_text(s@) ==> r@ == ascii_lowered(s@),
        !is_ascii_text(s@) ==> r@ == unicode_lower(s@),
        !is_ascii_text(s@) ==> r@ == unicode_lower(ascii_lowered(s@)),
;

/// `str::to_uppercase` follows the Unicode mapping: ASCII letters map to their
/// ASCII upper case, other ASCII characters to themselves. What it makes of
/// other text depends on the text alone and is left to a name. There too both cases of
/// an ASCII letter map to the same, so a text with its ASCII letters put in upper case
/// beforehand gives the same result.
pub assume_specification[ str::to_uppercase ](s: &str) -> (r: String)
    ensures
        is_ascii_text(s@) ==> r@ == ascii_uppered(s@),
        !is_ascii_text(s@) ==> r@ == unicode_upper(s@),
        !is_ascii_text(s@) ==> r@ == unicode_upper(ascii_uppered(s@)),
;

/// Texts that differ in the case of ASCII letters at most have the same lower case and
/// the same upper case.
pub proof fn ascii_case_makes_no_difference(a: Seq<char>, b: Seq<char>)
    requires
        ascii_lowered(a) == ascii_lowered(b),
    ensures
        lower(a) == lower(b),
        upper(a) == upper(b),
{
    assert(a.len() == ascii_lowered(a).len() && b.len() == ascii_lowered(b).len());
    assert forall|i: int| 0 <= i < a.len() implies ascii_lower(#[trigger] a[i]) == ascii_lower(b[i]) by {
        assert(ascii_lowered(a)[i] == ascii_lower(a[i]));
        assert(ascii_lowered(b)[i] == ascii_lower(b[i]));
    }
    assert(ascii_uppered(a) =~= ascii_uppered(b)) by {
        assert forall|i: int| 0 <= i < a.len() implies #[trigger] ascii_uppered(a)[i] == ascii_uppered(
            b,
        )[i] by {
            assert(ascii_lower(a[i]) == ascii_lower(b[i]));
        }
    }
    assert(is_ascii_text(a) == is_ascii_text(b)) by {
        assert forall|i: int| 0 <= i < a.len() implies ((#[trigger] a[i] as u32) < 0x80) == ((b[i] as u32)
            < 0x80) by {
            assert(ascii_lower(a[i]) == ascii_lower(b[i]));
        }
        if is_ascii_text(a) {
            assert forall|i: int| 0 <= i < b.len() implies (#[trigger] b[i] as u32) < 0x80 by {
                assert((a[i] as u32) < 0x80);
            }
        }
        if is_ascii_text(b) {
            assert forall|i: int| 0 <= i < a.len() implies (#[trigger] a[i] as u32) < 0x80 by {
                assert((b[i] as u32) < 0x80);
            }
        }
    }
}

// ---------------------------------------------------------------------------
// Order
// ---------------------------------------------------------------------------

/// The order of strings: by code points, a proper prefix first.
pub open spec fn text_le(a: Seq<char>, b: Seq<char>) -> bool
    decreases a.len(),
{
    if a.len() == 0 {
        true
    } else if b.len() == 0 {
        false
    } else if a[0] != b[0] {
        (a[0] as u32) < (b[0] as u32)
    } else {
        text_le(a.drop_first(), b.drop_first())
    }
}

proof fn lemma_code_points_differ(a: char, b: char)
    requires
        a != b,
    ensures
        a as u32 != b as u32,
{
}

/// The order is total.
pub proof fn text_order_total(a: Seq<char>, b: Seq<char>)
    ensures
        text_le(a, b) || text_le(b, a),
    decreases a.len(),
{
    if a.len() > 0 && b.len() > 0 {
        if a[0] == b[0] {
            text_order_total(a.drop_first(), b.drop_first());
        } else {
            lemma_code_points_differ(a[0], b[0]);
        }
    }
}

/// Texts that precede each other are equal.
pub proof fn text_order_antisymmetric(a: Seq<char>, b: Seq<char>)
    requires
        text_le(a, b),
        text_le(b, a),
    ensures
        a == b,
    decreases a.len(),
{
    if a.len() > 0 && b.len() > 0 {
        text_order_antisymmetric(a.drop_first(), b.drop_first());
        assert(a =~= seq![a[0]] + a.drop_first());
        assert(b =~= seq![b[0]] + b.drop_first());
    } else {
        assert(a =~= b);
    }
}

/// The order is transitive.
pub proof fn text_order_transitive(a: Seq<char>, b: Seq<char>, c: Seq<char>)
    requires
        text_le(a, b),
        text_le(b, c),
    ensures
        text_le(a, c),
    decreases a.len(),
{
    if a.len() > 0 && b.len() > 0 && c.len() > 0 {
        if a[0] == b[0] && b[0] == c[0] {
            text_order_transitive(a.drop_first(), b.drop_first(), c.drop_first());
        }
    }
}

fn char_lt(a: char, b: char) -> (r: bool)
    ensures
        r == ((a as u32) < (b as u32)),
{
    a < b
}

/// Whether `a` precedes `b` or equals it.
pub fn str_le(a: &str, b: &str) -> (r: bool)
    ensures
        r == text_le(a@, b@),
{
    let x = chars_of(a);
    let y = chars_of(b);
    let mut i: usize = 0;
    assert(x@.skip(0) =~= x@);
    assert(y@.skip(0) =~= y@);
    while i < x.len() && i < y.len()
        invariant
            x@ == a@,
            y@ == b@,
            i <= x@.len(),
            i <= y@.len(),
            text_le(x@.skip(i as int), y@.skip(i as int)) == text_le(a@, b@),
        decreases x@.len() - i,
    {
        let p: char = x[i];
        let q: char = y[i];
        if p != q {
            assert(x@.skip(i as int)[0] == p);
            assert(y@.skip(i as int)[0] == q);
            return char_lt(p, q);
        }
        assert(x@.skip(i as int).drop_first() =~= x@.skip(i + 1));
        assert(y@.skip(i as int).drop_first() =~= y@.skip(i + 1));
        i = i + 1;
    }
    i == x.len()
}

/// Whether a list of texts is in ascending order.
pub open spec fn sorted(list: Seq<Seq<char>>) -> bool {
    forall|i: int, j: int| 0 <= i <= j < list.len() ==> text_le(#[trigger] list[i], #[trigger] list[j])
}

/// `list` with `t` put in behind the texts at its end that do not come after `t`.
pub open spec fn put(list: Seq<Seq<char>>, t: Seq<char>) -> Seq<Seq<char>>
    decreases list.len(),
{
    if list.len() == 0 || text_le(list.last(), t) {
        list.push(t)
    } else {
        put(list.drop_last(), t).push(list.last())
    }
}

/// The texts in ascending order.
pub open spec fn ordered(list: Seq<Seq<char>>) -> Seq<Seq<char>>
    decreases list.len(),
{
    if list.len() == 0 {
        seq![]
    } else {
        put(ordered(list.drop_last()), list.last())
    }
}

proof fn lemma_put_members(list: Seq<Seq<char>>, t: Seq<char>)
    ensures
        put(list, t).to_multiset() == list.to_multiset().insert(t),
        forall|i: int|
            0 <= i < put(list, t).len() ==> #[trigger] put(list, t)[i] == t || list.contains(
                put(list, t)[i],
            ),
    decreases list.len(),
{
    broadcast use vstd::seq_lib::group_to_multiset_ensures;

    let r = put(list, t);
    if list.len() == 0 || text_le(list.last(), t) {
        assert forall|i: int| 0 <= i < r.len() implies #[trigger] r[i] == t || list.contains(
            r[i],
        ) by {
            if i < list.len() {
                assert(r[i] == list[i]);
            }
        }
    } else {
        let init = list.drop_last();
        lemma_put_members(init, t);
        assert(list =~= init.push(list.last()));
        assert(r.to_multiset() =~= list.to_multiset().insert(t));
        assert forall|i: int| 0 <= i < r.len() implies #[trigger] r[i] == t || list.contains(
            r[i],
        ) by {
            let before = put(init, t);
            if i < before.len() {
                assert(r[i] == before[i]);
                if before[i] != t {
                    let k = choose|k: int| 0 <= k < init.len() && init[k] == before[i];
                    assert(list[k] == r[i]);
                }
            } else {
                assert(r[i] == list[list.len() - 1]);
            }
        }
    }
}

proof fn lemma_put_sorted(list: Seq<Seq<char>>, t: Seq<char>)
    requires
        sorted(list),
    ensures
        sorted(put(list, t)),
    decreases list.len(),
{
    let r = put(list, t);
    let n = list.len() - 1;
    if list.len() == 0 || text_le(list.last(), t) {
        assert forall|i: int, j: int| 0 <= i <= j < r.len() implies text_le(
            #[trigger] r[i],
            #[trigger] r[j],
        ) by {
            if j < list.len() {
                assert(r[i] == list[i] && r[j] == list[j]);
            } else if i < list.len() {
                assert(text_le(list[i], list[n]));
                text_order_transitive(list[i], list[n], t);
            } else {
                text_order_total(t, t);
            }
        }
    } else {
        let init = list.drop_last();
        assert forall|i: int, j: int| 0 <= i <= j < init.len() implies text_le(
            #[trigger] init[i],
            #[trigger] init[j],
        ) by {
            assert(init[i] == list[i] && init[j] == list[j]);
        }
        lemma_put_sorted(init, t);
        lemma_put_members(init, t);
        text_order_total(list.last(), t);
        let before = put(init, t);
        assert forall|i: int, j: int| 0 <= i <= j < r.len() implies text_le(
            #[trigger] r[i],
            #[trigger] r[j],
        ) by {
            if j < before.len() {
                assert(r[i] == before[i] && r[j] == before[j]);
            } else if i < before.len() {
                assert(r[i] == before[i]);
                if before[i] != t {
                    let k = choose|k: int| 0 <= k < init.len() && init[k] == before[i];
                    assert(list[k] == before[i]);
                    assert(text_le(list[k], list[n]));
                }
            } else {
                text_order_total(list.last(), list.last());
            }
        }
    }
}

/// Ordering a list gives the same texts, each as often as before, in ascending
/// order.
pub proof fn ordered_is_sorted(list: Seq<Seq<char>>)
    ensures
        sorted(ordered(list)),
        ordered(list).to_multiset() == list.to_multiset(),
    decreases list.len(),
{
    broadcast use vstd::seq_lib::group_to_multiset_ensures;

    if list.len() > 0 {
        let init = list.drop_last();
        ordered_is_sorted(init);
        lemma_put_sorted(ordered(init), list.last());
        lemma_put_members(ordered(init), list.last());
        assert(list =~= init.push(list.last()));
    } else {
        assert(ordered(list) =~= list);
    }
}

fn insert_sorted(list: &mut Vec<String>, s: String)
    ensures
        texts(final(list)@) == put(texts(old(list)@), s@),
{
    let ghost before = texts(list@);
    let ghost text = s@;
    let mut at: usize = list.len();
    proof {
        assert(before.take(at as int) =~= before);
        assert(put(before, text) =~= put(before.take(at as int), text) + before.skip(at as int));
    }
    while at > 0 && !str_le(list[at - 1].as_str(), s.as_str())
        invariant
            at <= list@.len(),
            before == texts(list@),
            list@ == old(list)@,
            text == s@,
            put(before, text) == put(before.take(at as int), text) + before.skip(at as int),
        decreases at,
    {
        let ghost head = before.take(at as int);
        assert(head.last() == list@[at - 1]@);
        assert(head.drop_last() =~= before.take(at - 1));
        assert(put(before, text) =~= put(before.take(at - 1), text) + before.skip(at - 1));
        at = at - 1;
    }
    assert(at > 0 ==> before.take(at as int).last() == list@[at - 1]@);
    list.insert(at, s);
    assert(texts(list@) =~= before.insert(at as int, text));
    assert(texts(list@) =~= put(before, text));
}

/// The list in ascending order.
pub fn sort_texts(list: Vec<String>) -> (r: Vec<String>)
    ensures
        texts(r@) == ordered(texts(list@)),
{
    let mut r: Vec<String> = Vec::new();
    let mut i: usize = 0;
    let ghost all = texts(list@);
    assert(texts(r@) =~= ordered(all.take(0)));
    while i < list.len()
        invariant
            i <= list@.len(),
            all == texts(list@),
            texts(r@) == ordered(all.take(i as int)),
        decreases list@.len() - i,
    {
        insert_sorted(&mut r, list[i].clone());
        assert(all.take(i + 1).drop_last() =~= all.take(i as int));
        assert(all.take(i + 1).last() == list@[i as int]@);
        i = i + 1;
    }
    assert(all.take(i as int) =~= all);
    r
}

// ---------------------------------------------------------------------------
// Lists of strings
// ---------------------------------------------------------------------------

/// Whether the list holds the text `s`.
pub fn list_contains(list: &Vec<String>, s: &str) -> (r: bool)
    ensures
        r == texts(list@).contains(s@),
{
    let mut i: usize = 0;
    while i < list.len()
        invariant
            i <= list@.len(),
            forall|j: int| 0 <= j < i ==> texts(list@)[j] != s@,
        decreases list@.len() - i,
    {
        assert(texts(list@)[i as int] == list@[i as int]@);
        if text_eq(list[i].as_str(), s) {
            return true;
        }
        i = i + 1;
    }
    false
}

/// Whether two lists hold the same texts in the same order.
pub fn list_eq(a: &Vec<String>, b: &Vec<String>) -> (r: bool)
    ensures
        r == (texts(a@) == texts(b@)),
{
    if a.len() != b.len() {
        assert(texts(a@).len() != texts(b@).len());
        return false;
    }
    let mut i: usize = 0;
    while i < a.len()
        invariant
            i <= a@.len(),
            a@.len() == b@.len(),
            forall|j: int| 0 <= j < i ==> texts(a@)[j] == texts(b@)[j],
        decreases a@.len() - i,
    {
        assert(texts(a@)[i as int] == a@[i as int]@);
        assert(texts(b@)[i as int] == b@[i as int]@);
        if !text_eq(a[i].as_str(), b[i].as_str()) {
            return false;
        }
        i = i + 1;
    }
    assert(texts(a@) =~= texts(b@));
    true
}

// ---------------------------------------------------------------------------
// Decimal numbers
// ---------------------------------------------------------------------------

/// The decimal digits of `n`, without leading zeros.
pub open spec fn decimal(n: nat) -> Seq<char>
    decreases n,
{
    if n < 10 {
        seq![digit(n)]
    } else {
        decimal(n / 10).push(digit(n % 10))
    }
}

/// The character of a digit.
pub open spec fn digit(d: nat) -> char {
    ('0' as u32 + d) as char
}

/// The value of a decimal number.
pub open spec fn decimal_value(s: Seq<char>) -> int
    decreases s.len(),
{
    if s.len() == 0 {
        0
    } else {
        decimal_value(s.drop_last()) * 10 + (s.last() as u32 - '0' as u32)
    }
}

/// A decimal number reads back as the number it was made from.
pub proof fn decimal_reads_back(n: nat)
    ensures
        decimal_value(decimal(n)) == n,
    decreases n,
{
    reveal_with_fuel(decimal_value, 2);
    if n < 10 {
        assert(decimal(n).drop_last() =~= Seq::<char>::empty());
        assert(decimal(n).last() as u32 == '0' as u32 + n);
    } else {
        decimal_reads_back(n / 10);
        assert(decimal(n).drop_last() =~= decimal(n / 10));
        assert(decimal(n).last() as u32 == '0' as u32 + n % 10);
    }
}

/// The decimal digits of `n`, without leading zeros.
pub fn decimal_text(n: u128) -> (r: String)
    ensures
        r@ == decimal(n as nat),
    decreases n,
{
    let d: u8 = (n % 10) as u8;
    let c: char = (48u8 + d) as char;
    assert(c == digit((n % 10) as nat));
    let mut r = if n < 10 {
        String::new()
    } else {
        decimal_text(n / 10)
    };
    r.push(c);
    assert(n < 10 ==> r@ =~= decimal(n as nat));
    r
}

} // verus!

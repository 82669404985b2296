//! Laws of texts: what trimming, splitting, searching, ordering and writing numbers come
//! to, said of the characters themselves.

use crate::text::{
    ascii_lower, ascii_upper, decimal, digit, is_ascii_text, is_white, kept, lower, occurs_at, occurs_in,
    parts, split, text_le, trimmed, trimmed_end, trimmed_start, upper,
};
use vstd::prelude::*;

verus! {

// ---------------------------------------------------------------------------
// Trimming
// ---------------------------------------------------------------------------

proof fn lemma_start(s: Seq<char>) -> (from: int)
    ensures
        0 <= from <= s.len(),
        trimmed_start(s) == s.skip(from),
        forall|i: int| 0 <= i < from ==> is_white(#[trigger] s[i]),
        from < s.len() ==> !is_white(s[from]),
    decreases s.len(),
{
    if s.len() > 0 && is_white(s[0]) {
        let rest = s.drop_first();
        let k = lemma_start(rest);
        assert(rest.skip(k) =~= s.skip(k + 1));
        assert forall|i: int| 0 <= i < k + 1 implies is_white(#[trigger] s[i]) by {
            if i > 0 {
                assert(rest[i - 1] == s[i]);
            }
        }
        k + 1
    } else {
        assert(s.skip(0) =~= s);
        0
    }
}

proof fn lemma_end(s: Seq<char>) -> (to: int)
    ensures
        0 <= to <= s.len(),
        trimmed_end(s) == s.take(to),
        forall|i: int| to <= i < s.len() ==> is_white(#[trigger] s[i]),
        to > 0 ==> !is_white(s[to - 1]),
    decreases s.len(),
{
    if s.len() > 0 && is_white(s.last()) {
        let rest = s.drop_last();
        let k = lemma_end(rest);
        assert(rest.take(k) =~= s.take(k));
        assert forall|i: int| k <= i < s.len() implies is_white(#[trigger] s[i]) by {
            if i < rest.len() {
                assert(rest[i] == s[i]);
            }
        }
        k
    } else {
        assert(s.take(s.len() as int) =~= s);
        s.len() as int
    }
}

/// Trimming cuts white space off both ends, and nothing else: what is cut off is all
/// white, and what is left neither starts nor ends with white space.
pub proof fn trimming_cuts_off_white_space(s: Seq<char>)
    ensures
        exists|from: int, to: int|
            0 <= from <= to <= s.len() && trimmed(s) == #[trigger] s.subrange(from, to) && (forall|i: int|
                0 <= i < from || to <= i < s.len() ==> is_white(#[trigger] s[i])),
        trimmed(s).len() > 0 ==> !is_white(trimmed(s)[0]) && !is_white(trimmed(s).last()),
        (exists|i: int| 0 <= i < s.len() && !is_white(#[trigger] s[i])) ==> trimmed(s).len() > 0,
{
    let from = lemma_start(s);
    let t = s.skip(from);
    let k = lemma_end(t);
    let to = from + k;
    assert(t.take(k) =~= s.subrange(from, to));
    assert forall|i: int| 0 <= i < from || to <= i < s.len() implies is_white(#[trigger] s[i]) by {
        if to <= i {
            assert(t[i - from] == s[i]);
        }
    }
    if k > 0 {
        assert(trimmed(s)[0] == t[0]);
        assert(trimmed(s).last() == t[k - 1]);
    }
    if exists|i: int| 0 <= i < s.len() && !is_white(#[trigger] s[i]) {
        let i = choose|i: int| 0 <= i < s.len() && !is_white(#[trigger] s[i]);
        assert(from <= i < to);
    }
}

/// The usual spaces are white space; letters, digits and signs are not.
pub proof fn white_space_of_ascii(c: char)
    requires
        (c as u32) < 0x80,
    ensures
        is_white(c) <==> c == ' ' || c == '\t' || c == '\n' || c == '\r' || c as u32 == 0x0b || c as u32
            == 0x0c,
{
}

// ---------------------------------------------------------------------------
// Splitting
// ---------------------------------------------------------------------------

/// The text made of pieces, with the separator between them.
pub open spec fn joined_with(pieces: Seq<Seq<char>>, sep: char) -> Seq<char>
    decreases pieces.len(),
{
    if pieces.len() == 0 {
        seq![]
    } else if pieces.len() == 1 {
        pieces[0]
    } else {
        joined_with(pieces.drop_last(), sep).push(sep) + pieces.last()
    }
}

/// The pieces of a text hold no separator, and put together with separators they are the
/// text again.
pub proof fn pieces_are_the_text(s: Seq<char>, sep: char)
    ensures
        split(s, sep).len() > 0,
        forall|i: int| 0 <= i < split(s, sep).len() ==> !(#[trigger] split(s, sep)[i]).contains(sep),
        joined_with(split(s, sep), sep) == s,
    decreases s.len(),
{
    let r = split(s, sep);
    if s.len() == 0 {
        assert(joined_with(r, sep) =~= s);
    } else {
        let t = s.drop_last();
        let p = split(t, sep);
        pieces_are_the_text(t, sep);
        let n = p.len() - 1;
        if s.last() == sep {
            assert(r.drop_last() =~= p);
            assert(joined_with(r, sep) =~= s);
            assert forall|i: int| 0 <= i < r.len() implies !(#[trigger] r[i]).contains(sep) by {
                if i < p.len() {
                    assert(r[i] == p[i]);
                }
            }
        } else {
            assert(p.last() == p[n]);
            assert(r.drop_last() =~= p.drop_last());
            assert(r.last() == p.last().push(s.last()));
            assert(s =~= t.push(s.last()));
            if n == 0 {
                assert(joined_with(r, sep) =~= s);
            } else {
                assert(joined_with(p, sep) == joined_with(p.drop_last(), sep).push(sep) + p.last());
                assert(joined_with(r, sep) =~= s);
            }
            assert forall|i: int| 0 <= i < r.len() implies !(#[trigger] r[i]).contains(sep) by {
                if i < n {
                    assert(r[i] == p[i]);
                } else {
                    assert(!p[n].contains(sep));
                    if r[i].contains(sep) {
                        let j = choose|j: int| 0 <= j < r[i].len() && r[i][j] == sep;
                        assert(p[n][j] == sep);
                    }
                }
            }
        }
    }
}

/// The words of some pieces are those of the first ones and then those of the others;
/// a single piece is one word, trimmed, or none if it is all white space.
pub proof fn words_come_piece_by_piece(a: Seq<Seq<char>>, b: Seq<Seq<char>>, piece: Seq<char>)
    ensures
        kept(a + b) == kept(a) + kept(b),
        kept(seq![piece]) == if trimmed(piece).len() > 0 {
            seq![trimmed(piece)]
        } else {
            Seq::<Seq<char>>::empty()
        },
    decreases b.len(),
{
    reveal_with_fuel(kept, 2);
    assert(seq![piece].drop_last() =~= Seq::<Seq<char>>::empty());
    assert(kept(seq![piece]) =~= if trimmed(piece).len() > 0 {
        seq![trimmed(piece)]
    } else {
        Seq::<Seq<char>>::empty()
    });
    if b.len() == 0 {
        assert(a + b =~= a);
        assert(kept(a + b) =~= kept(a) + kept(b));
    } else {
        words_come_piece_by_piece(a, b.drop_last(), piece);
        assert((a + b).drop_last() =~= a + b.drop_last());
        assert((a + b).last() == b.last());
        assert(kept(a + b) =~= kept(a) + kept(b));
    }
}

/// The words of a text with one separator more: those before it, and then those behind it.
pub proof fn separators_part_words(a: Seq<char>, sep: char, b: Seq<char>)
    ensures
        parts(a.push(sep) + b, sep) == parts(a, sep) + parts(b, sep),
{
    lemma_split_parts(a, sep, b);
    words_come_piece_by_piece(split(a, sep), split(b, sep), a);
}

proof fn lemma_split_parts(a: Seq<char>, sep: char, b: Seq<char>)
    ensures
        split(a.push(sep) + b, sep) == split(a, sep) + split(b, sep),
    decreases b.len(),
{
    let s = a.push(sep) + b;
    if b.len() == 0 {
        assert(s =~= a.push(sep));
        assert(s.drop_last() =~= a);
        assert(split(s, sep) =~= split(a, sep) + split(b, sep));
    } else {
        assert(s.drop_last() =~= a.push(sep) + b.drop_last());
        lemma_split_parts(a, sep, b.drop_last());
        pieces_are_the_text(b.drop_last(), sep);
        assert(s.last() == b.last());
        assert(split(s, sep) =~= split(a, sep) + split(b, sep));
    }
}

/// A text without separators is one word, trimmed, or none if it is all white space.
pub proof fn a_single_word(s: Seq<char>, sep: char)
    requires
        !s.contains(sep),
    ensures
        parts(s, sep) == if trimmed(s).len() > 0 {
            seq![trimmed(s)]
        } else {
            Seq::<Seq<char>>::empty()
        },
{
    crate::text::lemma_split_single(s, sep);
    words_come_piece_by_piece(seq![], seq![], s);
}

// ---------------------------------------------------------------------------
// Letter case
// ---------------------------------------------------------------------------

/// Of an ASCII text, lower case changes capital letters to small ones, upper case small
/// ones to capitals, and neither changes anything else.
pub proof fn case_of_ascii_text(s: Seq<char>, i: int)
    requires
        forall|j: int| 0 <= j < s.len() ==> (#[trigger] s[j] as u32) < 0x80,
        0 <= i < s.len(),
    ensures
        lower(s).len() == s.len(),
        upper(s).len() == s.len(),
        lower(s)[i] as u32 == (if 'A' as u32 <= s[i] as u32 <= 'Z' as u32 {
            (s[i] as u32 + 32) as u32
        } else {
            s[i] as u32
        }),
        upper(s)[i] as u32 == (if 'a' as u32 <= s[i] as u32 <= 'z' as u32 {
            (s[i] as u32 - 32) as u32
        } else {
            s[i] as u32
        }),
{
    assert(is_ascii_text(s));
    assert(lower(s)[i] == ascii_lower(s[i]));
    assert(upper(s)[i] == ascii_upper(s[i]));
}

// ---------------------------------------------------------------------------
// Search
// ---------------------------------------------------------------------------

/// A text occurs in another exactly if that is made of something, the text, and
/// something else.
pub proof fn occurring_is_being_a_part(hay: Seq<char>, needle: Seq<char>)
    ensures
        occurs_in(hay, needle) <==> exists|a: Seq<char>, b: Seq<char>|
            hay == #[trigger] (a + needle + b),
{
    if occurs_in(hay, needle) {
        let at = choose|at: int| occurs_at(hay, needle, at);
        let a = hay.take(at);
        let b = hay.skip(at + needle.len());
        assert(a + needle + b =~= hay) by {
            assert forall|i: int| 0 <= i < hay.len() implies #[trigger] (a + needle + b)[i] == hay[i] by {
                if at <= i < at + needle.len() {
                    assert(hay.subrange(at, at + needle.len())[i - at] == needle[i - at]);
                }
            }
        }
    }
    if exists|a: Seq<char>, b: Seq<char>| hay == #[trigger] (a + needle + b) {
        let (a, b) = choose|a: Seq<char>, b: Seq<char>| hay == #[trigger] (a + needle + b);
        let at = a.len() as int;
        assert(hay.subrange(at, at + needle.len()) =~= needle);
        assert(occurs_at(hay, needle, at));
    }
}

// ---------------------------------------------------------------------------
// Order
// ---------------------------------------------------------------------------

/// A text comes before another exactly if it is the beginning of the other, or if the
/// first character that differs has the smaller code point.
pub proof fn order_goes_by_the_first_difference(a: Seq<char>, b: Seq<char>)
    ensures
        text_le(a, b) <==> a.is_prefix_of(b) || exists|k: int|
            0 <= k < a.len() && k < b.len() && (a[k] as u32) < (#[trigger] b[k] as u32) && a.take(k)
                == b.take(k),
    decreases a.len(),
{
    if a.len() == 0 {
        assert(b.subrange(0, 0) =~= a);
    } else if b.len() == 0 {
    } else if a[0] != b[0] {
        assert(a.take(0) =~= b.take(0));
        if a.is_prefix_of(b) {
            assert(b.subrange(0, a.len() as int)[0] == a[0]);
        }
        if (a[0] as u32) < (b[0] as u32) {
            assert((a[0] as u32) < (b[0] as u32) && a.take(0) == b.take(0));
        }
        if exists|k: int|
            0 <= k < a.len() && k < b.len() && (a[k] as u32) < (#[trigger] b[k] as u32) && a.take(k)
                == b.take(k) {
            let k = choose|k: int|
                0 <= k < a.len() && k < b.len() && (a[k] as u32) < (#[trigger] b[k] as u32) && a.take(k)
                    == b.take(k);
            if k > 0 {
                assert(a.take(k)[0] == b.take(k)[0]);
            }
        }
    } else {
        let x = a.drop_first();
        let y = b.drop_first();
        order_goes_by_the_first_difference(x, y);
        if a.is_prefix_of(b) {
            assert(a =~= b.subrange(0, a.len() as int));
            assert(y.subrange(0, x.len() as int) =~= x);
        }
        if x.is_prefix_of(y) {
            assert(x =~= y.subrange(0, x.len() as int));
            assert(b.subrange(0, a.len() as int) =~= a) by {
                assert forall|i: int| 0 <= i < a.len() implies #[trigger] b[i] == a[i] by {
                    if i > 0 {
                        assert(x[i - 1] == y.subrange(0, x.len() as int)[i - 1]);
                    }
                }
            }
        }
        if exists|k: int|
            0 <= k < a.len() && k < b.len() && (a[k] as u32) < (#[trigger] b[k] as u32) && a.take(k)
                == b.take(k) {
            let k = choose|k: int|
                0 <= k < a.len() && k < b.len() && (a[k] as u32) < (#[trigger] b[k] as u32) && a.take(k)
                    == b.take(k);
            assert(k > 0);
            assert(x.take(k - 1) =~= a.take(k).drop_first());
            assert(y.take(k - 1) =~= b.take(k).drop_first());
            assert((x[k - 1] as u32) < (y[k - 1] as u32));
        }
        if exists|k: int|
            0 <= k < x.len() && k < y.len() && (x[k] as u32) < (#[trigger] y[k] as u32) && x.take(k)
                == y.take(k) {
            let k = choose|k: int|
                0 <= k < x.len() && k < y.len() && (x[k] as u32) < (#[trigger] y[k] as u32) && x.take(k)
                    == y.take(k);
            assert(a.take(k + 1) =~= seq![a[0]] + x.take(k));
            assert(b.take(k + 1) =~= seq![b[0]] + y.take(k));
            assert((a[k + 1] as u32) < (b[k + 1] as u32));
        }
    }
}

// ---------------------------------------------------------------------------
// Numbers
// ---------------------------------------------------------------------------

/// A number is written with decimal digits only, and only zero starts with a zero.
pub proof fn numbers_are_written_plainly(n: nat)
    ensures
        decimal(n).len() > 0,
        forall|i: int| 0 <= i < decimal(n).len() ==> '0' as u32 <= #[trigger] decimal(n)[i] as u32 <= '9' as u32,
        n > 0 ==> decimal(n)[0] != '0',
        n == 0 ==> decimal(n) == seq!['0'],
    decreases n,
{
    if n < 10 {
        assert(decimal(n)[0] == digit(n));
        assert(digit(n) as u32 == '0' as u32 + n);
    } else {
        numbers_are_written_plainly(n / 10);
        let d = digit(n % 10);
        assert(d as u32 == '0' as u32 + n % 10);
        assert forall|i: int| 0 <= i < decimal(n).len() implies '0' as u32 <= #[trigger] decimal(n)[i] as u32
            <= '9' as u32 by {
            if i < decimal(n / 10).len() {
                assert(decimal(n)[i] == decimal(n / 10)[i]);
            }
        }
    }
}

} // verus!

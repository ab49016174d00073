//! Text as a sequence of characters: the string operations the library needs, each with an
//! exact contract over `Seq<char>`.
use vstd::prelude::*;

verus! {

/// `String::push` appends one character to the end of the string.
pub assume_specification[ String::push ](text: &mut String, c: char)
    ensures
        final(text)@ == old(text)@.push(c),
;

// ---------------------------------------------------------------------------
// Characters and whole texts
// ---------------------------------------------------------------------------
/// Whether `c` has the Unicode property `White_Space`.
pub open spec fn white_space(c: char) -> bool {
    let n = c as int;
    ||| 0x9 <= n <= 0xd
    ||| n == 0x20
    ||| n == 0x85
    ||| n == 0xa0
    ||| n == 0x1680
    ||| 0x2000 <= n <= 0x200a
    ||| n == 0x2028
    ||| n == 0x2029
    ||| n == 0x202f
    ||| n == 0x205f
    ||| n == 0x3000
}

/// Whether every character of `s` is white space; the empty text is blank.
pub open spec fn blank(s: Seq<char>) -> bool {
    forall|i: int| 0 <= i < s.len() ==> white_space(#[trigger] s[i])
}

/// The contents of a list of strings.
pub open spec fn texts(list: Seq<String>) -> Seq<Seq<char>> {
    list.map_values(|s: String| s@)
}

/// `s` without its leading white space.
pub open spec fn trim_front(s: Seq<char>) -> Seq<char>
    decreases s.len(),
{
    if s.len() > 0 && white_space(s[0]) {
        trim_front(s.drop_first())
    } else {
        s
    }
}

/// `s` without its trailing white space.
pub open spec fn trim_back(s: Seq<char>) -> Seq<char>
    decreases s.len(),
{
    if s.len() > 0 && white_space(s.last()) {
        trim_back(s.drop_last())
    } else {
        s
    }
}

/// `s` without white space at either end.
pub open spec fn trimmed(s: Seq<char>) -> Seq<char> {
    trim_back(trim_front(s))
}

/// The length of the longest prefix of `s` that holds no white space.
pub open spec fn word_length(s: Seq<char>) -> nat
    decreases s.len(),
{
    if s.len() > 0 && !white_space(s[0]) {
        1 + word_length(s.drop_first())
    } else {
        0
    }
}

/// The maximal runs of characters of `s` that are not white space, from left to right.
pub open spec fn words(s: Seq<char>) -> Seq<Seq<char>>
    decreases s.len(),
{
    if s.len() == 0 {
        seq![]
    } else if white_space(s[0]) {
        words(s.drop_first())
    } else {
        let n = word_length(s) as int;
        if 0 < n <= s.len() {
            seq![s.take(n)] + words(s.skip(n))
        } else {
            seq![]
        }
    }
}

/// The texts of `parts`, with `separator` between each two neighbours.
pub open spec fn joined(parts: Seq<Seq<char>>, separator: Seq<char>) -> Seq<char>
    decreases parts.len(),
{
    if parts.len() == 0 {
        seq![]
    } else if parts.len() == 1 {
        parts[0]
    } else {
        joined(parts.drop_last(), separator) + separator + parts.last()
    }
}

/// Whether `a` comes strictly before `b` in the lexicographic order of code points, which is
/// the order of strings.
pub open spec fn before(a: Seq<char>, b: Seq<char>) -> bool
    decreases a.len(),
{
    if b.len() == 0 {
        false
    } else if a.len() == 0 {
        true
    } else if a[0] != b[0] {
        (a[0] as int) < (b[0] as int)
    } else {
        before(a.drop_first(), b.drop_first())
    }
}

// ---------------------------------------------------------------------------
// Facts about the order and the shape of texts
// ---------------------------------------------------------------------------
/// No text comes before itself.
pub proof fn before_is_irreflexive(a: Seq<char>)
    ensures
        !before(a, a),
    decreases a.len(),
{
    if a.len() > 0 {
        before_is_irreflexive(a.drop_first());
    }
}

/// The order of texts is transitive.
pub proof fn before_is_transitive(a: Seq<char>, b: Seq<char>, c: Seq<char>)
    requires
        before(a, b),
        before(b, c),
    ensures
        before(a, c),
    decreases a.len(),
{
    if a.len() > 0 && a[0] == b[0] && b[0] == c[0] {
        before_is_transitive(a.drop_first(), b.drop_first(), c.drop_first());
    }
}

/// Of two different texts one comes before the other.
pub proof fn before_is_total(a: Seq<char>, b: Seq<char>)
    requires
        a != b,
    ensures
        before(a, b) || before(b, a),
    decreases a.len(),
{
    if a.len() == 0 {
        assert(b.len() > 0) by {
            if b.len() == 0 {
                assert(a =~= b);
            }
        }
    } else if b.len() > 0 && a[0] == b[0] {
        assert(a.drop_first() != b.drop_first()) by {
            if a.drop_first() == b.drop_first() {
                assert(a =~= seq![a[0]] + a.drop_first());
                assert(b =~= seq![b[0]] + b.drop_first());
            }
        }
        before_is_total(a.drop_first(), b.drop_first());
    }
}

pub proof fn word_length_bounds(s: Seq<char>)
    ensures
        word_length(s) <= s.len(),
        s.len() > 0 && !white_space(s[0]) ==> word_length(s) > 0,
        forall|i: int| 0 <= i < word_length(s) ==> !white_space(#[trigger] s[i]),
        word_length(s) < s.len() ==> white_space(s[word_length(s) as int]),
    decreases s.len(),
{
    if s.len() > 0 && !white_space(s[0]) {
        let rest = s.drop_first();
        word_length_bounds(rest);
        assert forall|i: int| 0 <= i < word_length(s) implies !white_space(#[trigger] s[i]) by {
            if i > 0 {
                assert(s[i] == rest[i - 1]);
            }
        }
        if word_length(s) < s.len() {
            assert(s[word_length(s) as int] == rest[word_length(rest) as int]);
        }
    }
}

/// Every word is non-empty and holds no white space.
pub proof fn words_are_solid(s: Seq<char>)
    ensures
        forall|i: int| 0 <= i < words(s).len() ==> (#[trigger] words(s)[i]).len() > 0,
        forall|i: int, j: int|
            0 <= i < words(s).len() && 0 <= j < words(s)[i].len() ==> !white_space(
                #[trigger] words(s)[i][j],
            ),
    decreases s.len(),
{
    if s.len() > 0 {
        if white_space(s[0]) {
            words_are_solid(s.drop_first());
            assert(words(s) == words(s.drop_first()));
        } else {
            word_length_bounds(s);
            let n = word_length(s) as int;
            let tail = words(s.skip(n));
            words_are_solid(s.skip(n));
            assert forall|i: int| 0 <= i < words(s).len() implies (#[trigger] words(s)[i]).len()
                > 0 by {
                if i > 0 {
                    assert(words(s)[i] == tail[i - 1]);
                }
            }
            assert forall|i: int, j: int|
                0 <= i < words(s).len() && 0 <= j < words(s)[i].len() implies !white_space(
                #[trigger] words(s)[i][j],
            ) by {
                if i > 0 {
                    assert(words(s)[i] == tail[i - 1]);
                    assert(words(s)[i][j] == tail[i - 1][j]);
                } else {
                    assert(words(s)[i][j] == s[j]);
                }
            }
        }
    }
}

/// White space is what ends a line, a tab and the space among the first characters; letters, figures
/// and signs are none, and neither is anything behind the ideographic space.
pub proof fn white_space_is_what_is_not_seen(c: char)
    ensures
        (c as int) < 0x80 ==> (white_space(c) <==> c == ' ' || c == '\t' || c == '\n' || c == '\r'
            || c as int == 0xb || c as int == 0xc),
        0x80 <= c as int <= 0xff ==> (white_space(c) <==> c as int == 0x85 || c as int == 0xa0),
        0x100 <= c as int <= 0x1fff ==> (white_space(c) <==> c as int == 0x1680),
        0x2000 <= c as int <= 0x206f ==> (white_space(c) <==> c as int <= 0x200a || c as int
            == 0x2028 || c as int == 0x2029 || c as int == 0x202f || c as int == 0x205f),
        c as int >= 0x2070 ==> (white_space(c) <==> c as int == 0x3000),
{
}

/// A text is blank where each of its parts is, down to single characters.
pub proof fn a_text_is_blank_part_by_part(a: Seq<char>, b: Seq<char>, c: char)
    ensures
        blank(seq![]),
        blank(seq![c]) <==> white_space(c),
        blank(a + b) <==> blank(a) && blank(b),
{
    assert(seq![c][0] == c);
    if blank(a + b) {
        assert forall|i: int| 0 <= i < a.len() implies white_space(#[trigger] a[i]) by {
            assert((a + b)[i] == a[i]);
        }
        assert forall|i: int| 0 <= i < b.len() implies white_space(#[trigger] b[i]) by {
            assert((a + b)[a.len() + i] == b[i]);
        }
    }
}

/// The texts of a list are those of its entries, one for one.
pub proof fn texts_are_taken_one_for_one(list: Seq<String>, i: int)
    requires
        0 <= i < list.len(),
    ensures
        texts(list).len() == list.len(),
        texts(list)[i] == list[i]@,
{
}

/// A text that is not empty and holds no white space is one word.
pub proof fn a_solid_text_is_one_word(s: Seq<char>)
    requires
        s.len() > 0,
        forall|i: int| 0 <= i < s.len() ==> !white_space(#[trigger] s[i]),
    ensures
        words(s) == seq![s],
{
    word_length_bounds(s);
    let n = word_length(s) as int;
    assert(n == s.len()) by {
        if n < s.len() {
            assert(white_space(s[n]));
        }
    }
    assert(s.take(n) =~= s);
    assert(words(s.skip(n)) =~= seq![]);
    assert(words(s) =~= seq![s]);
}

/// White space separates words: what stands before it and what stands behind it are split on their
/// own.
pub proof fn white_space_separates_words(a: Seq<char>, c: char, b: Seq<char>)
    requires
        white_space(c),
    ensures
        words(a + seq![c] + b) == words(a) + words(b),
    decreases a.len(),
{
    let s = a + seq![c] + b;
    if a.len() == 0 {
        assert(s.drop_first() =~= b);
        assert(words(a) + words(b) =~= words(b));
    } else if white_space(a[0]) {
        assert(s.drop_first() =~= a.drop_first() + seq![c] + b);
        white_space_separates_words(a.drop_first(), c, b);
    } else {
        word_length_bounds(a);
        word_length_bounds(s);
        let n = word_length(a) as int;
        let m = word_length(s) as int;
        assert(m == n) by {
            if m < n {
                assert(s[m] == a[m]);
            } else if n < m {
                assert(n < a.len() ==> s[n] == a[n]);
                assert(n == a.len() ==> s[n] == c);
            }
        }
        assert(s.take(m) =~= a.take(n));
        assert(s.skip(m) =~= a.skip(n) + seq![c] + b);
        white_space_separates_words(a.skip(n), c, b);
        assert(words(s) =~= words(a) + words(b));
    }
}

/// White space at either end of a text does not change its words.
pub proof fn blank_ends_hold_no_words(a: Seq<char>, s: Seq<char>, b: Seq<char>)
    requires
        blank(a),
        blank(b),
    ensures
        words(a + s + b) == words(s),
    decreases a.len(),
{
    if a.len() > 0 {
        let rest = a.drop_first();
        assert(white_space(a[0]));
        assert forall|i: int| 0 <= i < rest.len() implies white_space(#[trigger] rest[i]) by {
            assert(rest[i] == a[i + 1]);
        }
        blank_ends_hold_no_words(rest, s, b);
        assert((a + s + b).drop_first() =~= rest + s + b);
        assert((a + s + b)[0] == a[0]);
    } else if b.len() > 0 {
        let rest = b.drop_first();
        assert(white_space(b[0]));
        assert forall|i: int| 0 <= i < rest.len() implies white_space(#[trigger] rest[i]) by {
            assert(rest[i] == b[i + 1]);
        }
        assert(a + s + b =~= s + seq![b[0]] + rest);
        white_space_separates_words(s, b[0], rest);
        words_of_blank(rest);
        assert(words(s) + words(rest) =~= words(s));
    } else {
        assert(a + s + b =~= s);
    }
}

/// What is trimmed has the words it had.
pub proof fn trimming_keeps_the_words(s: Seq<char>)
    ensures
        words(trimmed(s)) == words(s),
{
    trimming_takes_the_white_space_at_the_ends(s);
    let (i, j) = choose|i: int, j: int|
        #![trigger s.subrange(i, j)]
        0 <= i <= j <= s.len() && trimmed(s) == s.subrange(i, j) && blank(s.take(i)) && blank(
            s.skip(j),
        );
    assert(s.take(i) + s.subrange(i, j) + s.skip(j) =~= s);
    blank_ends_hold_no_words(s.take(i), s.subrange(i, j), s.skip(j));
}

/// White space at either end is taken away, and nothing else: what is left neither begins nor ends
/// with it, and only white space stood around it.
pub proof fn trimming_takes_the_white_space_at_the_ends(s: Seq<char>)
    ensures
        trimmed(s).len() > 0 ==> !white_space(trimmed(s)[0]) && !white_space(trimmed(s).last()),
        exists|i: int, j: int|
            #![trigger s.subrange(i, j)]
            0 <= i <= j <= s.len() && trimmed(s) == s.subrange(i, j) && blank(s.take(i)) && blank(
                s.skip(j),
            ),
{
    let i = front_is_blank(s);
    let t = trim_front(s);
    let n = back_is_blank(t);
    let j = i + n;
    assert(s.skip(i) == t);
    assert(t.take(n) =~= s.subrange(i, j));
    assert(t.skip(n) =~= s.skip(j));
    if n > 0 {
        assert(t.take(n)[0] == t[0]);
    }
}

/// A text without white space at its ends is left as it is.
pub proof fn solid_ends_are_kept(s: Seq<char>)
    requires
        s.len() > 0,
        !white_space(s[0]),
        !white_space(s.last()),
    ensures
        trimmed(s) == s,
{
}

proof fn front_is_blank(s: Seq<char>) -> (i: int)
    ensures
        0 <= i <= s.len(),
        trim_front(s) == s.skip(i),
        blank(s.take(i)),
        i < s.len() ==> !white_space(s[i]),
    decreases s.len(),
{
    if s.len() > 0 && white_space(s[0]) {
        let rest = s.drop_first();
        let k = front_is_blank(rest);
        assert(rest.skip(k) =~= s.skip(k + 1));
        assert forall|n: int| 0 <= n < k + 1 implies white_space(#[trigger] s.take(k + 1)[n]) by {
            if n > 0 {
                assert(s.take(k + 1)[n] == rest.take(k)[n - 1]);
            }
        }
        k + 1
    } else {
        assert(s.skip(0) =~= s);
        0
    }
}

proof fn back_is_blank(s: Seq<char>) -> (n: int)
    ensures
        0 <= n <= s.len(),
        trim_back(s) == s.take(n),
        blank(s.skip(n)),
        n > 0 ==> !white_space(s[n - 1]),
    decreases s.len(),
{
    if s.len() > 0 && white_space(s.last()) {
        let rest = s.drop_last();
        let n = back_is_blank(rest);
        assert(rest.take(n) =~= s.take(n));
        assert forall|i: int| 0 <= i < s.len() - n implies white_space(#[trigger] s.skip(n)[i]) by {
            if i < s.len() - n - 1 {
                assert(s.skip(n)[i] == rest.skip(n)[i]);
            }
        }
        n
    } else {
        assert(s.take(s.len() as int) =~= s);
        s.len() as int
    }
}

/// Texts are joined in order, with one separator between each two and none at the ends: a list that
/// is cut in two is joined part by part.
pub proof fn joining_goes_part_by_part(
    a: Seq<Seq<char>>,
    b: Seq<Seq<char>>,
    separator: Seq<char>,
)
    requires
        a.len() > 0,
        b.len() > 0,
    ensures
        joined(seq![], separator) == Seq::<char>::empty(),
        joined(seq![a[0]], separator) == a[0],
        joined(a + b, separator) == joined(a, separator) + separator + joined(b, separator),
    decreases b.len(),
{
    let all = a + b;
    assert(all.last() == b.last());
    assert(all.drop_last() =~= a + b.drop_last());
    if b.len() == 1 {
        assert(all.drop_last() =~= a);
    } else {
        joining_goes_part_by_part(a, b.drop_last(), separator);
        assert(joined(all, separator) =~= joined(a, separator) + separator + joined(b, separator));
    }
}

/// The order of texts is that of their first characters that differ, and a text comes before what
/// is longer and begins with it.
pub proof fn the_first_difference_decides(front: Seq<char>, a: Seq<char>, b: Seq<char>)
    ensures
        before(front + a, front + b) == before(a, b),
        before(a, seq![]) == false,
        b.len() > 0 ==> before(seq![], b),
        a.len() > 0 && b.len() > 0 && (a[0] as int) < (b[0] as int) ==> before(a, b) && !before(
            b,
            a,
        ),
    decreases front.len(),
{
    if front.len() == 0 {
        assert(front + a =~= a);
        assert(front + b =~= b);
    } else {
        let rest = front.drop_first();
        the_first_difference_decides(rest, a, b);
        assert((front + a).drop_first() =~= rest + a);
        assert((front + b).drop_first() =~= rest + b);
    }
}

/// A text has no words exactly when it is blank.
pub proof fn words_of_blank(s: Seq<char>)
    ensures
        words(s).len() == 0 <==> blank(s),
    decreases s.len(),
{
    if s.len() > 0 {
        if white_space(s[0]) {
            words_of_blank(s.drop_first());
            if blank(s.drop_first()) {
                assert forall|i: int| 0 <= i < s.len() implies white_space(#[trigger] s[i]) by {
                    if i > 0 {
                        assert(s[i] == s.drop_first()[i - 1]);
                    }
                }
            }
            if blank(s) {
                assert forall|i: int| 0 <= i < s.drop_first().len() implies white_space(
                    #[trigger] s.drop_first()[i],
                ) by {
                    assert(s.drop_first()[i] == s[i + 1]);
                }
            }
        } else {
            word_length_bounds(s);
        }
    }
}

// ---------------------------------------------------------------------------
// Executable operations
// ---------------------------------------------------------------------------
pub fn code_point(c: char) -> (n: u32)
    ensures
        n as int == c as int,
{
    c as u32
}

pub fn is_white_space(c: char) -> (r: bool)
    ensures
        r == white_space(c),
{
    let n: u32 = c as u32;
    (0x9 <= n && n <= 0xd) || n == 0x20 || n == 0x85 || n == 0xa0 || n == 0x1680 || (0x2000 <= n
        && n <= 0x200a) || n == 0x2028 || n == 0x2029 || n == 0x202f || n == 0x205f || n == 0x3000
}

/// The characters of `s`.
pub fn characters(s: &str) -> (chars: Vec<char>)
    ensures
        chars@ == s@,
{
    let mut chars: Vec<char> = Vec::new();
    for c in it: s.chars()
        invariant
            it.seq() == s@,
            chars@ == s@.take(it.index()),
    {
        chars.push(c);
    }
    chars
}

/// The string of the characters `chars[from..to]`.
pub fn slice_text(chars: &Vec<char>, from: usize, to: usize) -> (s: String)
    requires
        from <= to <= chars@.len(),
    ensures
        s@ == chars@.subrange(from as int, to as int),
{
    let mut s = String::new();
    let mut i: usize = from;
    while i < to
        invariant
            from <= i <= to <= chars@.len(),
            s@ == chars@.subrange(from as int, i as int),
        decreases to - i,
    {
        s.push(chars[i]);
        i += 1;
    }
    s
}

pub fn same_text(a: &str, b: &str) -> (r: bool)
    ensures
        r == (a@ == b@),
{
    a.to_string() == b.to_string()
}

/// Whether `a` sorts strictly before `b`.
pub fn sorts_before(a: &str, b: &str) -> (r: bool)
    ensures
        r == before(a@, b@),
{
    let x = characters(a);
    let y = characters(b);
    let mut i: usize = 0;
    proof {
        assert(x@.skip(0) =~= x@);
        assert(y@.skip(0) =~= y@);
    }
    while i < x.len() && i < y.len() && x[i] == y[i]
        invariant
            i <= x@.len(),
            i <= y@.len(),
            before(x@, y@) == before(x@.skip(i as int), y@.skip(i as int)),
        decreases x@.len() - i,
    {
        proof {
            assert(x@.skip(i as int).drop_first() =~= x@.skip(i + 1));
            assert(y@.skip(i as int).drop_first() =~= y@.skip(i + 1));
        }
        i += 1;
    }
    proof {
        let p = x@.skip(i as int);
        let q = y@.skip(i as int);
        if p.len() > 0 {
            assert(p[0] == x@[i as int]);
        }
        if q.len() > 0 {
            assert(q[0] == y@[i as int]);
        }
    }
    if i >= y.len() {
        false
    } else if i >= x.len() {
        true
    } else {
        code_point(x[i]) < code_point(y[i])
    }
}

pub fn begins_with(s: &str, prefix: &str) -> (r: bool)
    ensures
        r == prefix@.is_prefix_of(s@),
{
    let x = characters(s);
    let p = characters(prefix);
    if p.len() > x.len() {
        return false;
    }
    let mut i: usize = 0;
    while i < p.len()
        invariant
            i <= p@.len() <= x@.len(),
            x@ == s@,
            p@ == prefix@,
            forall|k: int| 0 <= k < i ==> p@[k] == x@[k],
        decreases p@.len() - i,
    {
        if p[i] != x[i] {
            proof {
                assert(p@[i as int] != x@.subrange(0, p@.len() as int)[i as int]);
            }
            return false;
        }
        i += 1;
    }
    proof {
        assert(p@ =~= x@.subrange(0, p@.len() as int));
    }
    true
}

/// What follows `prefix` in `s`, where `s` begins with it.
pub fn after_prefix(s: &str, prefix: &str) -> (r: Option<String>)
    ensures
        r is Some <==> prefix@.is_prefix_of(s@),
        r is Some ==> r->0@ == s@.skip(prefix@.len() as int),
{
    if begins_with(s, prefix) {
        let x = characters(s);
        let p = characters(prefix);
        let rest = slice_text(&x, p.len(), x.len());
        proof {
            assert(rest@ =~= s@.skip(prefix@.len() as int));
        }
        Some(rest)
    } else {
        None
    }
}

pub fn holds_char(s: &str, c: char) -> (r: bool)
    ensures
        r == s@.contains(c),
{
    let x = characters(s);
    let mut i: usize = 0;
    while i < x.len()
        invariant
            i <= x@.len(),
            x@ == s@,
            forall|k: int| 0 <= k < i ==> x@[k] != c,
        decreases x@.len() - i,
    {
        if x[i] == c {
            return true;
        }
        i += 1;
    }
    false
}

pub fn is_blank(s: &str) -> (r: bool)
    ensures
        r == blank(s@),
{
    let x = characters(s);
    let mut i: usize = 0;
    while i < x.len()
        invariant
            i <= x@.len(),
            x@ == s@,
            forall|k: int| 0 <= k < i ==> white_space(#[trigger] x@[k]),
        decreases x@.len() - i,
    {
        if !is_white_space(x[i]) {
            return false;
        }
        i += 1;
    }
    true
}

/// `s` without white space at either end.
pub fn trim_text(s: &str) -> (r: String)
    ensures
        r@ == trimmed(s@),
{
    let x = characters(s);
    let mut from: usize = 0;
    proof {
        assert(x@.skip(0) =~= x@);
    }
    while from < x.len() && is_white_space(x[from])
        invariant
            from <= x@.len(),
            trim_front(x@) == trim_front(x@.skip(from as int)),
        decreases x@.len() - from,
    {
        proof {
            assert(x@.skip(from as int).drop_first() =~= x@.skip(from + 1));
        }
        from += 1;
    }
    let ghost front = x@.skip(from as int);
    let mut to: usize = x.len();
    proof {
        assert(x@.subrange(from as int, to as int) =~= front);
    }
    while to > from && is_white_space(x[to - 1])
        invariant
            from <= to <= x@.len(),
            trim_back(front) == trim_back(x@.subrange(from as int, to as int)),
        decreases to,
    {
        proof {
            assert(x@.subrange(from as int, to as int).drop_last() =~= x@.subrange(
                from as int,
                to - 1,
            ));
        }
        to -= 1;
    }
    slice_text(&x, from, to)
}

/// The words of `s`.
pub fn split_words(s: &str) -> (r: Vec<String>)
    ensures
        texts(r@) == words(s@),
{
    let x = characters(s);
    let mut r: Vec<String> = Vec::new();
    let mut i: usize = 0;
    proof {
        assert(x@.skip(0) =~= x@);
        assert(texts(r@) + words(x@) =~= words(x@));
    }
    while i < x.len()
        invariant
            i <= x@.len(),
            words(x@) == texts(r@) + words(x@.skip(i as int)),
        decreases x@.len() - i,
    {
        let ghost rest = x@.skip(i as int);
        if is_white_space(x[i]) {
            proof {
                assert(rest.drop_first() =~= x@.skip(i + 1));
            }
            i += 1;
        } else {
            let start: usize = i;
            proof {
                assert(x@.skip(start as int) =~= rest);
            }
            while i < x.len() && !is_white_space(x[i])
                invariant
                    start <= i <= x@.len(),
                    rest == x@.skip(start as int),
                    word_length(rest) == (i - start) + word_length(x@.skip(i as int)),
                decreases x@.len() - i,
            {
                proof {
                    assert(x@.skip(i as int).drop_first() =~= x@.skip(i + 1));
                }
                i += 1;
            }
            let word = slice_text(&x, start, i);
            proof {
                let n = (i - start) as int;
                assert(word_length(rest) == n);
                word_length_bounds(rest);
                assert(word@ =~= rest.take(n));
                assert(rest.skip(n) =~= x@.skip(i as int));
            }
            let ghost earlier = r@;
            r.push(word);
            proof {
                assert(texts(r@) =~= texts(earlier).push(word@));
                assert(texts(r@) + words(x@.skip(i as int)) =~= texts(earlier) + (seq![word@]
                    + words(x@.skip(i as int))));
            }
        }
    }
    proof {
        assert(x@.skip(i as int) =~= seq![]);
        assert(texts(r@) + words(x@.skip(i as int)) =~= texts(r@));
    }
    r
}

/// The texts of `parts`, with `separator` between each two neighbours.
pub fn join_texts(parts: &Vec<String>, separator: &str) -> (r: String)
    ensures
        r@ == joined(texts(parts@), separator@),
{
    let mut r = String::new();
    let mut i: usize = 0;
    let ghost all = texts(parts@);
    while i < parts.len()
        invariant
            i <= parts@.len(),
            all == texts(parts@),
            r@ == joined(all.take(i as int), separator@),
        decreases parts@.len() - i,
    {
        proof {
            assert(all.take(i + 1).drop_last() =~= all.take(i as int));
            assert(all.take(i + 1).last() == parts@[i as int]@);
        }
        if i == 0 {
            r = parts[i].clone();
        } else {
            r.append(separator);
            r.append(parts[i].as_str());
        }
        i += 1;
    }
    proof {
        assert(all.take(i as int) =~= all);
    }
    r
}

/// `list` copied, string for string.
pub fn copy_texts(list: &[String]) -> (r: Vec<String>)
    ensures
        texts(r@) == texts(list@),
{
    let mut r: Vec<String> = Vec::new();
    let mut i: usize = 0;
    while i < list.len()
        invariant
            i <= list@.len(),
            texts(r@) == texts(list@).take(i as int),
        decreases list@.len() - i,
    {
        let ghost earlier = r@;
        r.push(list[i].clone());
        proof {
            assert(texts(r@) =~= texts(earlier).push(list@[i as int]@));
            assert(texts(list@).take(i + 1) =~= texts(list@).take(i as int).push(
                list@[i as int]@,
            ));
        }
        i += 1;
    }
    proof {
        assert(texts(list@).take(i as int) =~= texts(list@));
    }
    r
}

/// Whether `list` holds the text `wanted`.
pub fn holds_text(list: &[String], wanted: &str) -> (r: bool)
    ensures
        r == texts(list@).contains(wanted@),
{
    let mut i: usize = 0;
    while i < list.len()
        invariant
            i <= list@.len(),
            forall|k: int| 0 <= k < i ==> (#[trigger] texts(list@)[k]) != wanted@,
        decreases list@.len() - i,
    {
        if same_text(list[i].as_str(), wanted) {
            proof {
                assert(texts(list@)[i as int] == wanted@);
            }
            return true;
        }
        i += 1;
    }
    false
}

/// What is wrong with `bytes` as UTF-8, in words: what the error of `std::str::from_utf8` shows.
pub uninterp spec fn utf8_fault(bytes: Seq<u8>) -> Seq<char>;

/// `std::str::from_utf8`: the text that `bytes` encode, or else what its error shows, which is
/// named, not described.
#[verifier::external_body]
pub(crate) fn decode_text(bytes: &[u8]) -> (r: Result<String, String>)
    ensures
        match r {
            Ok(text) => vstd::utf8::valid_utf8(bytes@) && text@ == vstd::utf8::decode_utf8(bytes@),
            Err(fault) => !vstd::utf8::valid_utf8(bytes@) && fault@ == utf8_fault(bytes@),
        },
{
    match std::str::from_utf8(bytes) {
        Ok(text) => Ok(text.to_string()),
        Err(e) => Err(e.to_string()),
    }
}

} // verus!

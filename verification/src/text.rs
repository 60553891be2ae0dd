//! Character sequences: the small vocabulary of text operations that the
//! descriptor grammar and the formatters are written in.
//!
//! Every operation has a mathematical definition over `Seq<char>` and an
//! executable counterpart over `Vec<char>` that is proved equal to it.

use vstd::prelude::*;

verus! {

/// `String::push` appends one character.
pub assume_specification[ String::push ](s: &mut String, ch: char)
    ensures
        final(s)@ == old(s)@.push(ch),
;

/// The characters of `s`, in order.
pub fn chars_of(s: &str) -> (v: Vec<char>)
    ensures
        v@ == s@,
{
    let mut v: Vec<char> = Vec::new();
    for c in it: s.chars()
        invariant
            v@ == it.seq().take(it.index()),
            it.seq() == s@,
    {
        v.push(c);
    }
    v
}

/// The string made of the characters of `v`, in order.
pub fn string_of(v: &Vec<char>) -> (s: String)
    ensures
        s@ == v@,
{
    let mut s = String::new();
    let mut i: usize = 0;
    while i < v.len()
        invariant
            i <= v.len(),
            s@ == v@.take(i as int),
        decreases v.len() - i,
    {
        s.push(v[i]);
        proof {
            assert(v@.take(i as int + 1) == v@.take(i as int).push(v@[i as int]));
        }
        i += 1;
    }
    proof {
        assert(v@.take(v.len() as int) == v@);
    }
    s
}

/// The characters `from..to` of `v`.
pub fn slice_of(v: &Vec<char>, from: usize, to: usize) -> (r: Vec<char>)
    requires
        from <= to <= v.len(),
    ensures
        r@ == v@.subrange(from as int, to as int),
{
    let mut r: Vec<char> = Vec::new();
    let mut i: usize = from;
    while i < to
        invariant
            from <= i <= to <= v.len(),
            r@ == v@.subrange(from as int, i as int),
        decreases to - i,
    {
        r.push(v[i]);
        proof {
            assert(v@.subrange(from as int, i as int + 1) == v@.subrange(
                from as int,
                i as int,
            ).push(v@[i as int]));
        }
        i += 1;
    }
    r
}

/// Appends the characters of `tail` to `head`.
pub fn append_chars(head: &mut Vec<char>, tail: &Vec<char>)
    ensures
        final(head)@ == old(head)@ + tail@,
{
    let mut i: usize = 0;
    while i < tail.len()
        invariant
            i <= tail.len(),
            head@ == old(head)@ + tail@.take(i as int),
        decreases tail.len() - i,
    {
        head.push(tail[i]);
        proof {
            assert(tail@.take(i as int + 1) == tail@.take(i as int).push(tail@[i as int]));
            assert(old(head)@ + tail@.take(i as int + 1) == (old(head)@ + tail@.take(
                i as int,
            )).push(tail@[i as int]));
        }
        i += 1;
    }
    proof {
        assert(tail@.take(tail.len() as int) == tail@);
    }
}

/// Whether two character vectors hold the same text.
pub fn same_chars(a: &Vec<char>, b: &Vec<char>) -> (r: bool)
    ensures
        r == (a@ == b@),
{
    if a.len() != b.len() {
        return false;
    }
    let mut i: usize = 0;
    while i < a.len()
        invariant
            i <= a.len(),
            a.len() == b.len(),
            a@.take(i as int) == b@.take(i as int),
        decreases a.len() - i,
    {
        if a[i] != b[i] {
            return false;
        }
        proof {
            assert(a@.take(i as int + 1) == a@.take(i as int).push(a@[i as int]));
            assert(b@.take(i as int + 1) == b@.take(i as int).push(b@[i as int]));
        }
        i += 1;
    }
    proof {
        assert(a@.take(a.len() as int) == a@);
        assert(b@.take(b.len() as int) == b@);
    }
    true
}

/// Whether `a` holds exactly the text of `lit`.
pub fn is_text(a: &Vec<char>, lit: &str) -> (r: bool)
    ensures
        r == (a@ == lit@),
{
    let b = chars_of(lit);
    same_chars(a, &b)
}

/// Whether two strings hold the same text.
pub fn same_str(a: &str, b: &str) -> (r: bool)
    ensures
        r == (a@ == b@),
{
    let x = chars_of(a);
    let y = chars_of(b);
    same_chars(&x, &y)
}

/// The text `head` followed by `tail`.
pub fn join2(head: &str, tail: &str) -> (r: String)
    ensures
        r@ == head@ + tail@,
{
    let mut v = chars_of(head);
    let t = chars_of(tail);
    append_chars(&mut v, &t);
    string_of(&v)
}

/// White space: the characters that separate words and pad lines.
pub open spec fn is_space(c: char) -> bool {
    let n = c as u32;
    (0x09 <= n <= 0x0d) || n == 0x20 || n == 0x85 || n == 0xa0 || n == 0x1680 || (0x2000 <= n
        <= 0x200a) || n == 0x2028 || n == 0x2029 || n == 0x202f || n == 0x205f || n == 0x3000
}

/// Executable form of [`is_space`].
pub fn is_space_char(c: char) -> (r: bool)
    ensures
        r == is_space(c),
{
    let n: u32 = c as u32;
    (0x09 <= n && n <= 0x0d) || n == 0x20 || n == 0x85 || n == 0xa0 || n == 0x1680 || (0x2000 <= n
        && n <= 0x200a) || n == 0x2028 || n == 0x2029 || n == 0x202f || n == 0x205f || n == 0x3000
}

/// How many characters at the start of `s` are white space.
pub open spec fn leading_spaces(s: Seq<char>) -> nat
    decreases s.len(),
{
    if s.len() > 0 && is_space(s[0]) {
        1 + leading_spaces(s.skip(1))
    } else {
        0
    }
}

/// How many characters at the end of `s` are white space.
pub open spec fn trailing_spaces(s: Seq<char>) -> nat
    decreases s.len(),
{
    if s.len() > 0 && is_space(s.last()) {
        1 + trailing_spaces(s.drop_last())
    } else {
        0
    }
}

/// `s` without the white space at its start.
pub open spec fn trim_start(s: Seq<char>) -> Seq<char> {
    s.skip(leading_spaces(s) as int)
}

/// `s` without the white space at its end.
pub open spec fn trim_end(s: Seq<char>) -> Seq<char> {
    s.take(s.len() - trailing_spaces(s))
}

/// `s` without the white space at either end.
pub open spec fn trim(s: Seq<char>) -> Seq<char> {
    trim_end(trim_start(s))
}

/// `leading_spaces` is the one index that has only white space before it and
/// none at it.
pub proof fn lemma_leading_spaces(s: Seq<char>, n: int)
    requires
        0 <= n <= s.len(),
        forall|k: int| 0 <= k < n ==> is_space(#[trigger] s[k]),
        n < s.len() ==> !is_space(s[n]),
    ensures
        leading_spaces(s) == n,
    decreases s.len(),
{
    if n > 0 {
        assert(is_space(s[0]));
        let t = s.skip(1);
        assert forall|k: int| 0 <= k < n - 1 implies is_space(#[trigger] t[k]) by {
            assert(t[k] == s[k + 1]);
        }
        lemma_leading_spaces(t, n - 1);
    }
}

/// `trailing_spaces` is the one count that has only white space in the last
/// `n` places and none before them.
pub proof fn lemma_trailing_spaces(s: Seq<char>, n: int)
    requires
        0 <= n <= s.len(),
        forall|k: int| s.len() - n <= k < s.len() ==> is_space(#[trigger] s[k]),
        n < s.len() ==> !is_space(s[s.len() - n - 1]),
    ensures
        trailing_spaces(s) == n,
    decreases s.len(),
{
    if n > 0 {
        assert(is_space(s[s.len() - 1]));
        let t = s.drop_last();
        assert forall|k: int| t.len() - (n - 1) <= k < t.len() implies is_space(
            #[trigger] t[k],
        ) by {
            assert(t[k] == s[k]);
        }
        lemma_trailing_spaces(t, n - 1);
    }
}

/// The white space at the start of a text: it stays within the text, it is
/// white space, and what follows it is none.
proof fn lemma_leading(s: Seq<char>)
    ensures
        leading_spaces(s) <= s.len(),
        forall|k: int| 0 <= k < leading_spaces(s) ==> is_space(#[trigger] s[k]),
        leading_spaces(s) < s.len() ==> !is_space(s[leading_spaces(s) as int]),
    decreases s.len(),
{
    if s.len() > 0 && is_space(s[0]) {
        let t = s.skip(1);
        lemma_leading(t);
        assert forall|k: int| 0 <= k < leading_spaces(s) implies is_space(#[trigger] s[k]) by {
            if k > 0 {
                assert(t[k - 1] == s[k]);
            }
        }
        if leading_spaces(s) < s.len() {
            assert(t[leading_spaces(t) as int] == s[leading_spaces(s) as int]);
        }
    }
}

/// The white space at the end of a text: it stays within the text, it is
/// white space, and what stands before it is none.
proof fn lemma_trailing(s: Seq<char>)
    ensures
        trailing_spaces(s) <= s.len(),
        forall|k: int| s.len() - trailing_spaces(s) <= k < s.len() ==> is_space(#[trigger] s[k]),
        trailing_spaces(s) < s.len() ==> !is_space(s[s.len() - trailing_spaces(s) - 1]),
    decreases s.len(),
{
    if s.len() > 0 && is_space(s.last()) {
        let t = s.drop_last();
        lemma_trailing(t);
        assert forall|k: int| s.len() - trailing_spaces(s) <= k < s.len() implies is_space(
            #[trigger] s[k],
        ) by {
            if k < s.len() - 1 {
                assert(t[k] == s[k]);
            }
        }
        if trailing_spaces(s) < s.len() {
            assert(t[t.len() - trailing_spaces(t) - 1] == s[s.len() - trailing_spaces(s) - 1]);
        }
    }
}

/// A trimmed text neither begins nor ends with white space, and the text it
/// was trimmed from is the trimmed text with white space before and after
/// it.
pub proof fn lemma_trim(s: Seq<char>)
    ensures
        trim(s).len() > 0 ==> !is_space(trim(s)[0]) && !is_space(trim(s).last()),
        leading_spaces(s) + trim(s).len() + trailing_spaces(trim_start(s)) == s.len(),
        trim(s) == s.subrange(
            leading_spaces(s) as int,
            s.len() - trailing_spaces(trim_start(s)),
        ),
        forall|k: int| 0 <= k < leading_spaces(s) ==> is_space(#[trigger] s[k]),
        forall|k: int|
            s.len() - trailing_spaces(trim_start(s)) <= k < s.len() ==> is_space(#[trigger] s[k]),
{
    lemma_leading(s);
    let t = trim_start(s);
    lemma_trailing(t);
    let n = leading_spaces(s) as int;
    let m = trailing_spaces(t) as int;
    assert(trim(s) =~= s.subrange(n, s.len() - m));
    assert forall|k: int| s.len() - m <= k < s.len() implies is_space(#[trigger] s[k]) by {
        assert(t[k - n] == s[k]);
    }
    if trim(s).len() > 0 {
        assert(trim(s)[0] == t[0]);
        assert(trim(s).last() == t[t.len() - m - 1]);
    }
}

/// The text of `v` without the white space at its start.
pub fn trim_start_chars(v: &Vec<char>) -> (r: Vec<char>)
    ensures
        r@ == trim_start(v@),
{
    let mut i: usize = 0;
    while i < v.len() && is_space_char(v[i])
        invariant
            i <= v.len(),
            forall|k: int| 0 <= k < i ==> is_space(#[trigger] v@[k]),
        decreases v.len() - i,
    {
        i += 1;
    }
    proof {
        lemma_leading_spaces(v@, i as int);
    }
    slice_of(v, i, v.len())
}

/// The text of `v` without the white space at its end.
pub fn trim_end_chars(v: &Vec<char>) -> (r: Vec<char>)
    ensures
        r@ == trim_end(v@),
{
    let mut n: usize = v.len();
    while n > 0 && is_space_char(v[n - 1])
        invariant
            n <= v.len(),
            forall|k: int| n <= k < v.len() ==> is_space(#[trigger] v@[k]),
        decreases n,
    {
        n -= 1;
    }
    proof {
        lemma_trailing_spaces(v@, v.len() - n);
    }
    slice_of(v, 0, n)
}

/// The text of `v` without the white space at either end.
pub fn trim_chars(v: &Vec<char>) -> (r: Vec<char>)
    ensures
        r@ == trim(v@),
{
    let a = trim_start_chars(v);
    trim_end_chars(&a)
}

/// The first place of `c` in `s`, or the length of `s` when `c` does not
/// occur.
pub open spec fn index_of(s: Seq<char>, c: char) -> int
    decreases s.len(),
{
    if s.len() == 0 {
        0
    } else if s[0] == c {
        0
    } else {
        1 + index_of(s.skip(1), c)
    }
}

/// `index_of` is the one index with no `c` before it and `c` at it.
pub proof fn lemma_index_of(s: Seq<char>, c: char, n: int)
    requires
        0 <= n <= s.len(),
        forall|k: int| 0 <= k < n ==> #[trigger] s[k] != c,
        n < s.len() ==> s[n] == c,
    ensures
        index_of(s, c) == n,
    decreases s.len(),
{
    if n > 0 {
        assert(s[0] != c);
        let t = s.skip(1);
        assert forall|k: int| 0 <= k < n - 1 implies #[trigger] t[k] != c by {
            assert(t[k] == s[k + 1]);
        }
        lemma_index_of(t, c, n - 1);
    }
}

/// `index_of` stays within the text, points at `c` when inside it, and has
/// no `c` before it.
pub proof fn lemma_index_of_range(s: Seq<char>, c: char)
    ensures
        0 <= index_of(s, c) <= s.len(),
        index_of(s, c) < s.len() ==> s[index_of(s, c)] == c,
        forall|k: int| 0 <= k < index_of(s, c) ==> #[trigger] s[k] != c,
    decreases s.len(),
{
    if s.len() > 0 && s[0] != c {
        let t = s.skip(1);
        lemma_index_of_range(t, c);
        assert forall|k: int| 0 <= k < index_of(s, c) implies #[trigger] s[k] != c by {
            if k > 0 {
                assert(t[k - 1] == s[k]);
            }
        }
    }
}

/// The first place of `c` in `v` at or after `from`, or the length of `v`.
pub fn find_from(v: &Vec<char>, from: usize, c: char) -> (r: usize)
    requires
        from <= v.len(),
    ensures
        r == from + index_of(v@.skip(from as int), c),
        from <= r <= v.len(),
        r < v.len() ==> v@[r as int] == c,
        forall|k: int| from <= k < r ==> v@[k] != c,
{
    let mut i: usize = from;
    while i < v.len() && v[i] != c
        invariant
            from <= i <= v.len(),
            forall|k: int| from <= k < i ==> #[trigger] v@[k] != c,
        decreases v.len() - i,
    {
        i += 1;
    }
    proof {
        let t = v@.skip(from as int);
        assert forall|k: int| 0 <= k < i - from implies #[trigger] t[k] != c by {
            assert(t[k] == v@[from + k]);
        }
        lemma_index_of(t, c, i - from);
    }
    i
}

/// Whether `c` occurs in `s`.
pub open spec fn has_char(s: Seq<char>, c: char) -> bool {
    index_of(s, c) < s.len()
}

/// The place of the last `c` in `s`, or -1 when `c` does not occur.
pub open spec fn last_index_of(s: Seq<char>, c: char) -> int
    decreases s.len(),
{
    if s.len() == 0 {
        -1
    } else if s.last() == c {
        s.len() - 1
    } else {
        last_index_of(s.drop_last(), c)
    }
}

/// The place of the last `c` in `v`, if `c` occurs.
pub fn find_last(v: &Vec<char>, c: char) -> (r: Option<usize>)
    ensures
        match r {
            Some(i) => i < v.len() && i as int == last_index_of(v@, c),
            None => last_index_of(v@, c) == -1,
        },
{
    let mut n: usize = v.len();
    proof {
        assert(v@.take(n as int) == v@);
    }
    while n > 0
        invariant
            n <= v.len(),
            last_index_of(v@, c) == last_index_of(v@.take(n as int), c),
        decreases n,
    {
        if v[n - 1] == c {
            return Some(n - 1);
        }
        proof {
            assert(v@.take(n as int).drop_last() == v@.take(n - 1));
        }
        n -= 1;
    }
    None
}

/// The texts that a vector of character vectors holds.
pub open spec fn texts(v: Seq<Vec<char>>) -> Seq<Seq<char>> {
    Seq::new(v.len(), |i: int| v[i]@)
}

/// The texts that a vector of strings holds.
pub open spec fn strings(v: Seq<String>) -> Seq<Seq<char>> {
    Seq::new(v.len(), |i: int| v[i]@)
}

/// The text that an optional string holds.
pub open spec fn opt_text(o: Option<String>) -> Option<Seq<char>> {
    match o {
        Some(s) => Some(s@),
        None => None,
    }
}

/// The texts that an optional vector of strings holds.
pub open spec fn opt_strings(o: Option<Vec<String>>) -> Option<Seq<Seq<char>>> {
    match o {
        Some(v) => Some(strings(v@)),
        None => None,
    }
}

/// A copy of the strings of `v`.
pub fn copy_strings(v: &Vec<String>) -> (r: Vec<String>)
    ensures
        strings(r@) == strings(v@),
        r@.len() == v@.len(),
{
    let mut r: Vec<String> = Vec::new();
    let mut i: usize = 0;
    while i < v.len()
        invariant
            i <= v.len(),
            r@.len() == i,
            forall|k: int| 0 <= k < i ==> r@[k]@ == v@[k]@,
        decreases v.len() - i,
    {
        r.push(v[i].clone());
        i += 1;
    }
    proof {
        assert(strings(r@) =~= strings(v@));
    }
    r
}

/// A copy of an optional string.
pub fn copy_opt_string(o: &Option<String>) -> (r: Option<String>)
    ensures
        opt_text(r) == opt_text(*o),
{
    match o {
        Some(s) => Some(s.clone()),
        None => None,
    }
}

/// A copy of an optional vector of strings.
pub fn copy_opt_strings(o: &Option<Vec<String>>) -> (r: Option<Vec<String>>)
    ensures
        opt_strings(r) == opt_strings(*o),
{
    match o {
        Some(v) => Some(copy_strings(v)),
        None => None,
    }
}

/// The strings that hold the texts of `v`.
pub fn strings_of(v: &Vec<Vec<char>>) -> (r: Vec<String>)
    ensures
        strings(r@) == texts(v@),
{
    let mut r: Vec<String> = Vec::new();
    let mut i: usize = 0;
    while i < v.len()
        invariant
            i <= v.len(),
            r@.len() == i,
            forall|k: int| 0 <= k < i ==> r@[k]@ == v@[k]@,
        decreases v.len() - i,
    {
        r.push(string_of(&v[i]));
        i += 1;
    }
    proof {
        assert(strings(r@) =~= texts(v@));
    }
    r
}

/// The character vectors of the strings of `v`.
pub fn chars_of_all(v: &Vec<String>) -> (r: Vec<Vec<char>>)
    ensures
        texts(r@) == strings(v@),
{
    let mut r: Vec<Vec<char>> = Vec::new();
    let mut i: usize = 0;
    while i < v.len()
        invariant
            i <= v.len(),
            r@.len() == i,
            forall|k: int| 0 <= k < i ==> (#[trigger] r@[k])@ == v@[k]@,
        decreases v.len() - i,
    {
        r.push(chars_of(v[i].as_str()));
        i += 1;
    }
    proof {
        assert(texts(r@) =~= strings(v@));
    }
    r
}

/// The pieces of `s` between occurrences of `sep`. A text without `sep` is
/// one piece; the empty text is one empty piece.
pub open spec fn split(s: Seq<char>, sep: char) -> Seq<Seq<char>>
    decreases s.len(),
{
    let i = index_of(s, sep);
    if 0 <= i < s.len() {
        seq![s.take(i)] + split(s.skip(i + 1), sep)
    } else {
        seq![s]
    }
}

/// The lines of `s`: its pieces between line feeds, without the empty piece
/// that a final line feed leaves.
pub open spec fn lines_of(s: Seq<char>) -> Seq<Seq<char>> {
    let p = split(s, '\n');
    if p.len() > 0 && p.last().len() == 0 {
        p.drop_last()
    } else {
        p
    }
}

/// No piece of a split holds the separator.
pub proof fn lemma_split_pieces(s: Seq<char>, sep: char)
    ensures
        split(s, sep).len() > 0,
        forall|k: int| 0 <= k < split(s, sep).len() ==> !has_char(#[trigger] split(s, sep)[k], sep),
    decreases s.len(),
{
    let i = index_of(s, sep);
    lemma_index_of_range(s, sep);
    if 0 <= i < s.len() {
        let rest = split(s.skip(i + 1), sep);
        lemma_split_pieces(s.skip(i + 1), sep);
        let head = s.take(i);
        assert forall|k: int| 0 <= k < head.len() implies #[trigger] head[k] != sep by {
            assert(head[k] == s[k]);
        }
        lemma_index_of(head, sep, head.len() as int);
        assert forall|k: int| 0 <= k < split(s, sep).len() implies !has_char(
            #[trigger] split(s, sep)[k],
            sep,
        ) by {
            if k > 0 {
                assert(split(s, sep)[k] == rest[k - 1]);
            }
        }
    } else {
        lemma_index_of(s, sep, s.len() as int);
    }
}

/// The texts of `items` written one after the other with `sep` between
/// them.
pub open spec fn joined(items: Seq<Seq<char>>, sep: Seq<char>) -> Seq<char>
    decreases items.len(),
{
    if items.len() == 0 {
        Seq::empty()
    } else if items.len() == 1 {
        items[0]
    } else {
        joined(items.drop_last(), sep) + sep + items.last()
    }
}

/// A text with `head` put before `items`, joined.
proof fn lemma_joined_front(head: Seq<char>, items: Seq<Seq<char>>, sep: Seq<char>)
    requires
        items.len() > 0,
    ensures
        joined(seq![head] + items, sep) == head + sep + joined(items, sep),
    decreases items.len(),
{
    let all = seq![head] + items;
    assert(all.drop_last() =~= seq![head] + items.drop_last());
    assert(all.last() == items.last());
    if items.len() == 1 {
        assert(items.drop_last().len() == 0);
        assert(seq![head] + items.drop_last() =~= seq![head]);
        assert(joined(seq![head], sep) == head);
        assert(joined(items, sep) == items[0]);
    } else {
        lemma_joined_front(head, items.drop_last(), sep);
        assert(joined(all, sep) =~= head + sep + joined(items, sep));
    }
}

/// The pieces of a split, joined with the separator between them, are the
/// text again.
pub proof fn lemma_split_join(s: Seq<char>, sep: char)
    ensures
        joined(split(s, sep), seq![sep]) == s,
    decreases s.len(),
{
    let i = index_of(s, sep);
    lemma_index_of_range(s, sep);
    if 0 <= i < s.len() {
        let rest = split(s.skip(i + 1), sep);
        lemma_split_join(s.skip(i + 1), sep);
        lemma_split_pieces(s.skip(i + 1), sep);
        lemma_joined_front(s.take(i), rest, seq![sep]);
        assert(s.take(i) + seq![sep] + s.skip(i + 1) =~= s);
    }
}

/// The pieces of `v` between occurrences of `sep`.
pub fn split_chars(v: &Vec<char>, sep: char) -> (r: Vec<Vec<char>>)
    ensures
        texts(r@) == split(v@, sep),
{
    let mut r: Vec<Vec<char>> = Vec::new();
    let mut pos: usize = 0;
    proof {
        assert(v@.skip(0) == v@);
        assert(texts(r@) + split(v@, sep) =~= split(v@, sep));
    }
    loop
        invariant_except_break
            pos <= v.len(),
            split(v@, sep) == texts(r@) + split(v@.skip(pos as int), sep),
        ensures
            texts(r@) == split(v@, sep),
        decreases v.len() - pos,
    {
        let end = find_from(v, pos, sep);
        let piece = slice_of(v, pos, end);
        let ghost before = texts(r@);
        let ghost t = v@.skip(pos as int);
        proof {
            assert(t.take(end - pos) == v@.subrange(pos as int, end as int));
            if end < v.len() {
                assert(t.skip(end - pos + 1) == v@.skip(end + 1));
            } else {
                assert(t == piece@);
            }
        }
        r.push(piece);
        proof {
            assert(texts(r@) =~= before + seq![piece@]);
            if end < v.len() {
                assert(split(t, sep) == seq![piece@] + split(v@.skip(end + 1), sep));
                assert(texts(r@) + split(v@.skip(end + 1), sep) =~= before + split(t, sep));
            } else {
                assert(split(t, sep) == seq![piece@]);
            }
        }
        if end >= v.len() {
            break;
        }
        pos = end + 1;
    }
    r
}

/// The lines of `v`.
pub fn lines_of_chars(v: &Vec<char>) -> (r: Vec<Vec<char>>)
    ensures
        texts(r@) == lines_of(v@),
{
    let mut r = split_chars(v, '\n');
    let n = r.len();
    if n > 0 && r[n - 1].len() == 0 {
        let ghost before = texts(r@);
        r.pop();
        proof {
            assert(texts(r@) =~= before.drop_last());
        }
    }
    r
}

/// The texts of `items` with `sep` between them.
pub fn join_chars(items: &Vec<Vec<char>>, sep: &Vec<char>) -> (r: Vec<char>)
    ensures
        r@ == joined(texts(items@), sep@),
{
    let ghost all = texts(items@);
    let mut r: Vec<char> = Vec::new();
    let mut i: usize = 0;
    proof {
        assert(all.take(0).len() == 0);
    }
    while i < items.len()
        invariant
            i <= items.len(),
            all == texts(items@),
            r@ == joined(all.take(i as int), sep@),
        decreases items.len() - i,
    {
        proof {
            assert(all.take(i + 1).drop_last() == all.take(i as int));
            assert(all.take(i + 1).last() == items@[i as int]@);
        }
        if i > 0 {
            append_chars(&mut r, sep);
        } else {
            proof {
                assert(r@.len() == 0);
                assert(r@ + items@[0]@ =~= items@[0]@);
                assert(all.take(1)[0] == items@[0]@);
            }
        }
        append_chars(&mut r, &items[i]);
        i += 1;
    }
    proof {
        assert(all.take(items.len() as int) == all);
    }
    r
}

/// Where the reading of words stands: the words that are complete and the
/// one being read.
pub struct WordState {
    pub done: Seq<Seq<char>>,
    pub current: Seq<char>,
}

/// Reading one more character: white space completes the word being read,
/// if there is one; any other character belongs to it.
pub open spec fn word_step(st: WordState, c: char) -> WordState {
    if is_space(c) {
        if st.current.len() > 0 {
            WordState { done: st.done.push(st.current), current: Seq::empty() }
        } else {
            st
        }
    } else {
        WordState { current: st.current.push(c), ..st }
    }
}

/// Reading the characters of `s`, one after the other.
pub open spec fn word_read(s: Seq<char>) -> WordState
    decreases s.len(),
{
    if s.len() == 0 {
        WordState { done: Seq::empty(), current: Seq::empty() }
    } else {
        word_step(word_read(s.drop_last()), s.last())
    }
}

/// The words of `s`: what stands between white space.
pub open spec fn words(s: Seq<char>) -> Seq<Seq<char>> {
    let st = word_read(s);
    if st.current.len() > 0 {
        st.done.push(st.current)
    } else {
        st.done
    }
}

/// The words of the text of `v`.
pub fn words_of(v: &Vec<char>) -> (r: Vec<Vec<char>>)
    ensures
        texts(r@) == words(v@),
{
    let mut r: Vec<Vec<char>> = Vec::new();
    let mut current: Vec<char> = Vec::new();
    let mut i: usize = 0;
    proof {
        assert(texts(r@) =~= Seq::<Seq<char>>::empty());
    }
    while i < v.len()
        invariant
            i <= v.len(),
            word_read(v@.take(i as int)) == (WordState { done: texts(r@), current: current@ }),
        decreases v.len() - i,
    {
        let c = v[i];
        proof {
            assert(v@.take(i + 1).drop_last() == v@.take(i as int));
            assert(v@.take(i + 1).last() == c);
        }
        if is_space_char(c) {
            if current.len() > 0 {
                let ghost before = texts(r@);
                let ghost word = current@;
                r.push(current);
                proof {
                    assert(texts(r@) =~= before.push(word));
                }
                current = Vec::new();
            }
        } else {
            current.push(c);
        }
        i += 1;
    }
    proof {
        assert(v@.take(v.len() as int) == v@);
    }
    if current.len() > 0 {
        let ghost before = texts(r@);
        let ghost word = current@;
        r.push(current);
        proof {
            assert(texts(r@) =~= before.push(word));
        }
    }
    r
}

/// Whether `s` begins with `p`.
pub open spec fn starts_with(s: Seq<char>, p: Seq<char>) -> bool {
    p.len() <= s.len() && s.take(p.len() as int) == p
}

/// Whether the text of `v` begins with the text of `p`.
pub fn has_prefix(v: &Vec<char>, p: &Vec<char>) -> (r: bool)
    ensures
        r == starts_with(v@, p@),
{
    if p.len() > v.len() {
        return false;
    }
    let head = slice_of(v, 0, p.len());
    same_chars(&head, p)
}

/// Whether `s` ends with `p`.
pub open spec fn ends_with(s: Seq<char>, p: Seq<char>) -> bool {
    p.len() <= s.len() && s.skip(s.len() - p.len()) == p
}

/// Whether the text of `v` ends with the text of `p`.
pub fn has_suffix(v: &Vec<char>, p: &Vec<char>) -> (r: bool)
    ensures
        r == ends_with(v@, p@),
{
    if p.len() > v.len() {
        return false;
    }
    let tail = slice_of(v, v.len() - p.len(), v.len());
    proof {
        assert(tail@ == v@.skip(v.len() - p.len()));
    }
    same_chars(&tail, p)
}

/// Whether `pat` stands in `s` at place `i`.
pub open spec fn occurs_at(s: Seq<char>, pat: Seq<char>, i: int) -> bool {
    0 <= i && i + pat.len() <= s.len() && s.subrange(i, i + pat.len()) == pat
}

/// Whether `pat` stands somewhere in `s`.
pub open spec fn contains_text(s: Seq<char>, pat: Seq<char>) -> bool {
    exists|i: int| occurs_at(s, pat, i)
}

/// Whether the text of `pat` stands in the text of `v` at place `i`.
pub fn occurs_in_at(v: &Vec<char>, pat: &Vec<char>, i: usize) -> (r: bool)
    ensures
        r == occurs_at(v@, pat@, i as int),
{
    if pat.len() > v.len() || i > v.len() - pat.len() {
        return false;
    }
    let piece = slice_of(v, i, i + pat.len());
    same_chars(&piece, pat)
}

/// Whether the text of `pat` stands somewhere in the text of `v`.
pub fn contains_chars(v: &Vec<char>, pat: &Vec<char>) -> (r: bool)
    ensures
        r == contains_text(v@, pat@),
{
    if pat.len() > v.len() {
        proof {
            assert forall|i: int| !occurs_at(v@, pat@, i) by {}
        }
        return false;
    }
    if pat.len() == 0 {
        proof {
            assert(v@.subrange(0, 0) =~= pat@);
            assert(occurs_at(v@, pat@, 0));
        }
        return true;
    }
    let last = v.len() - pat.len();
    let mut i: usize = 0;
    while i <= last
        invariant
            i <= last + 1,
            last == v.len() - pat.len(),
            0 < pat.len() <= v.len(),
            forall|k: int| 0 <= k < i ==> !occurs_at(v@, pat@, k),
        decreases last + 1 - i,
    {
        if occurs_in_at(v, pat, i) {
            return true;
        }
        i += 1;
    }
    proof {
        assert forall|k: int| !occurs_at(v@, pat@, k) by {}
    }
    false
}

/// `s` with every occurrence of the two characters `{}` replaced by `x`,
/// read from the left.
pub open spec fn expand(s: Seq<char>, x: Seq<char>) -> Seq<char>
    decreases s.len(),
{
    if s.len() < 2 {
        s
    } else if s[0] == '{' && s[1] == '}' {
        x + expand(s.skip(2), x)
    } else {
        seq![s[0]] + expand(s.skip(1), x)
    }
}

/// The text of `v` with every `{}` replaced by the text of `x`.
pub fn expand_chars(v: &Vec<char>, x: &Vec<char>) -> (r: Vec<char>)
    ensures
        r@ == expand(v@, x@),
{
    let mut r: Vec<char> = Vec::new();
    let mut i: usize = 0;
    proof {
        assert(v@.skip(0) == v@);
    }
    while i < v.len()
        invariant
            i <= v.len(),
            expand(v@, x@) == r@ + expand(v@.skip(i as int), x@),
        decreases v.len() - i,
    {
        let ghost t = v@.skip(i as int);
        let ghost before = r@;
        if i + 1 < v.len() && v[i] == '{' && v[i + 1] == '}' {
            append_chars(&mut r, x);
            proof {
                assert(t.skip(2) == v@.skip(i + 2));
                assert(r@ + expand(v@.skip(i + 2), x@) =~= before + expand(t, x@));
            }
            i += 2;
        } else {
            r.push(v[i]);
            proof {
                assert(t.skip(1) == v@.skip(i + 1));
                if t.len() < 2 {
                    assert(t.skip(1).len() == 0);
                    assert(t =~= seq![t[0]]);
                    assert(r@ + expand(v@.skip(i + 1), x@) =~= before + expand(t, x@));
                } else {
                    assert(r@ + expand(v@.skip(i + 1), x@) =~= before + expand(t, x@));
                }
            }
            i += 1;
        }
    }
    proof {
        assert(expand(v@.skip(i as int), x@).len() == 0);
        assert(r@ + expand(v@.skip(i as int), x@) =~= r@);
    }
    r
}

/// `s` with every occurrence of `pat` replaced by `rep`, read from the
/// left. An empty `pat` occurs nowhere.
pub open spec fn replace_text(s: Seq<char>, pat: Seq<char>, rep: Seq<char>) -> Seq<char>
    decreases s.len(),
{
    if pat.len() == 0 || s.len() < pat.len() {
        s
    } else if starts_with(s, pat) {
        rep + replace_text(s.skip(pat.len() as int), pat, rep)
    } else {
        seq![s[0]] + replace_text(s.skip(1), pat, rep)
    }
}

/// The text of `v` with every occurrence of `pat` replaced by `rep`.
pub fn replace_chars(v: &Vec<char>, pat: &Vec<char>, rep: &Vec<char>) -> (r: Vec<char>)
    ensures
        r@ == replace_text(v@, pat@, rep@),
{
    let mut r: Vec<char> = Vec::new();
    if pat.len() == 0 {
        append_chars(&mut r, v);
        proof {
            assert(r@ =~= v@);
        }
        return r;
    }
    let mut i: usize = 0;
    proof {
        assert(v@.skip(0) == v@);
    }
    while i < v.len() && v.len() - i >= pat.len()
        invariant
            i <= v.len(),
            pat.len() > 0,
            replace_text(v@, pat@, rep@) == r@ + replace_text(v@.skip(i as int), pat@, rep@),
        decreases v.len() - i,
    {
        let ghost t = v@.skip(i as int);
        let ghost before = r@;
        proof {
            assert(t.take(pat.len() as int) == v@.subrange(i as int, i + pat.len()));
        }
        if occurs_in_at(v, pat, i) {
            append_chars(&mut r, rep);
            proof {
                assert(t.skip(pat.len() as int) == v@.skip(i + pat.len()));
                assert(r@ + replace_text(v@.skip(i + pat.len()), pat@, rep@) =~= before
                    + replace_text(t, pat@, rep@));
            }
            i += pat.len();
        } else {
            r.push(v[i]);
            proof {
                assert(t.skip(1) == v@.skip(i + 1));
                assert(r@ + replace_text(v@.skip(i + 1), pat@, rep@) =~= before + replace_text(
                    t,
                    pat@,
                    rep@,
                ));
            }
            i += 1;
        }
    }
    let rest = slice_of(v, i, v.len());
    proof {
        assert(rest@ == v@.skip(i as int));
    }
    append_chars(&mut r, &rest);
    r
}

/// `s` with `to` for every `from`.
pub open spec fn swap_char(s: Seq<char>, from: char, to: char) -> Seq<char> {
    Seq::new(s.len(), |i: int| if s[i] == from { to } else { s[i] })
}

/// The text of `v` with `to` for every `from`.
pub fn swap_chars(v: &Vec<char>, from: char, to: char) -> (r: Vec<char>)
    ensures
        r@ == swap_char(v@, from, to),
{
    let mut r: Vec<char> = Vec::new();
    let mut i: usize = 0;
    while i < v.len()
        invariant
            i <= v.len(),
            r@.len() == i,
            forall|k: int| 0 <= k < i ==> #[trigger] r@[k] == swap_char(v@, from, to)[k],
        decreases v.len() - i,
    {
        if v[i] == from {
            r.push(to);
        } else {
            r.push(v[i]);
        }
        i += 1;
    }
    proof {
        assert(r@ =~= swap_char(v@, from, to));
    }
    r
}

/// The first of `candidates`, in their order, that is among `present`.
pub open spec fn first_present(candidates: Seq<Seq<char>>, present: Seq<Seq<char>>) -> Option<
    Seq<char>,
>
    decreases candidates.len(),
{
    if candidates.len() == 0 {
        None
    } else if present.contains(candidates[0]) {
        Some(candidates[0])
    } else {
        first_present(candidates.skip(1), present)
    }
}

/// Whether one of `list` holds the text `x`.
pub fn holds_text(list: &Vec<String>, x: &str) -> (r: bool)
    ensures
        r == strings(list@).contains(x@),
{
    let ghost all = strings(list@);
    let mut i: usize = 0;
    while i < list.len()
        invariant
            i <= list.len(),
            all == strings(list@),
            forall|k: int| 0 <= k < i ==> all[k] != x@,
        decreases list.len() - i,
    {
        if same_str(list[i].as_str(), x) {
            proof {
                assert(all[i as int] == x@);
            }
            return true;
        }
        i += 1;
    }
    false
}

/// Whether one of `list` holds the text of `x`.
pub fn holds_chars(list: &Vec<Vec<char>>, x: &Vec<char>) -> (r: bool)
    ensures
        r == texts(list@).contains(x@),
{
    let ghost all = texts(list@);
    let mut i: usize = 0;
    while i < list.len()
        invariant
            i <= list.len(),
            all == texts(list@),
            forall|k: int| 0 <= k < i ==> all[k] != x@,
        decreases list.len() - i,
    {
        if same_chars(&list[i], x) {
            proof {
                assert(all[i as int] == x@);
            }
            return true;
        }
        i += 1;
    }
    false
}

/// The first of `candidates`, in their order, that is among `present`.
pub fn pick_present(candidates: &Vec<String>, present: &Vec<String>) -> (r: Option<String>)
    ensures
        opt_text(r) == first_present(strings(candidates@), strings(present@)),
{
    let ghost all = strings(candidates@);
    let mut i: usize = 0;
    proof {
        assert(all.skip(0) == all);
    }
    while i < candidates.len()
        invariant
            i <= candidates.len(),
            all == strings(candidates@),
            first_present(all, strings(present@)) == first_present(
                all.skip(i as int),
                strings(present@),
            ),
        decreases candidates.len() - i,
    {
        proof {
            assert(all.skip(i as int)[0] == candidates@[i as int]@);
            assert(all.skip(i as int).skip(1) == all.skip(i + 1));
        }
        if holds_text(present, candidates[i].as_str()) {
            return Some(candidates[i].clone());
        }
        i += 1;
    }
    None
}

/// The number of bytes that `s` takes in UTF-8.
pub open spec fn byte_len(s: Seq<char>) -> nat {
    vstd::utf8::encode_utf8(s).len()
}

} // verus!

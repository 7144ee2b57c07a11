//! Conversions between strings and sequences of characters, and the few
//! text operations the rest of the library is built from.

use vstd::prelude::*;

verus! {

/// The views of the strings of `v`, in order.
pub open spec fn views(v: Seq<String>) -> Seq<Seq<char>> {
    v.map_values(|s: String| s@)
}

/// The views of a sequence with one more string are the views of the sequence
/// with one more view.
pub proof fn lemma_views_push(v: Seq<String>, s: String)
    ensures
        views(v.push(s)) == views(v).push(s@),
{
    assert(views(v.push(s)) =~= views(v).push(s@));
}

/// The view of an optional string slice.
pub open spec fn opt_view(s: Option<&str>) -> Option<Seq<char>> {
    match s {
        Some(t) => Some(t@),
        None => None,
    }
}

/// The view of an optional string.
pub open spec fn opt_string_view(s: Option<String>) -> Option<Seq<char>> {
    match s {
        Some(t) => Some(t@),
        None => None,
    }
}

/// `parts` written one after another with `sep` between neighbours.
pub open spec fn join_with(parts: Seq<Seq<char>>, sep: Seq<char>) -> Seq<char>
    decreases parts.len(),
{
    if parts.len() == 0 {
        Seq::empty()
    } else if parts.len() == 1 {
        parts[0]
    } else {
        join_with(parts.drop_last(), sep) + sep + parts.last()
    }
}

/// Where part `k` starts in `join_with(parts, sep)`: after the `k` parts before
/// it, each followed by one separator.
pub open spec fn part_offset(parts: Seq<Seq<char>>, sep: Seq<char>, k: int) -> int
    decreases k,
{
    if k <= 0 {
        0
    } else {
        part_offset(parts, sep, k - 1) + parts[k - 1].len() + sep.len()
    }
}

/// No part starts before the text does.
pub proof fn lemma_part_offset_nonnegative(parts: Seq<Seq<char>>, sep: Seq<char>, k: int)
    ensures
        0 <= part_offset(parts, sep, k),
    decreases k,
{
    if k > 0 {
        lemma_part_offset_nonnegative(parts, sep, k - 1);
    }
}

/// The offset of a part does not depend on the parts that follow it.
pub proof fn lemma_part_offset_prefix(parts: Seq<Seq<char>>, sep: Seq<char>, n: int, k: int)
    requires
        0 <= k <= n <= parts.len(),
    ensures
        part_offset(parts.take(n), sep, k) == part_offset(parts, sep, k),
    decreases k,
{
    if k > 0 {
        lemma_part_offset_prefix(parts, sep, n, k - 1);
    }
}

/// Parts start one after another: a later part starts behind the end of an
/// earlier one.
pub proof fn lemma_part_offset_increases(parts: Seq<Seq<char>>, sep: Seq<char>, i: int, j: int)
    requires
        0 <= i < j <= parts.len(),
    ensures
        part_offset(parts, sep, i) + parts[i].len() + sep.len() <= part_offset(parts, sep, j),
    decreases j,
{
    if i < j - 1 {
        lemma_part_offset_increases(parts, sep, i, j - 1);
    }
}

/// The joined text is as long as all parts and the separators between them.
pub proof fn lemma_join_len(parts: Seq<Seq<char>>, sep: Seq<char>)
    requires
        parts.len() > 0,
    ensures
        join_with(parts, sep).len() + sep.len() == part_offset(parts, sep, parts.len() as int),
    decreases parts.len(),
{
    let n = parts.len() as int;
    if n > 1 {
        assert(parts.take(n - 1) == parts.drop_last());
        lemma_join_len(parts.drop_last(), sep);
        lemma_part_offset_prefix(parts, sep, n - 1, n - 1);
    } else {
        reveal_with_fuel(part_offset, 2);
    }
}

/// Each part stands in the joined text, unchanged, at its offset.
pub proof fn lemma_join_holds_part(parts: Seq<Seq<char>>, sep: Seq<char>, k: int)
    requires
        0 <= k < parts.len(),
    ensures
        part_offset(parts, sep, k) + parts[k].len() <= join_with(parts, sep).len(),
        join_with(parts, sep).subrange(
            part_offset(parts, sep, k),
            part_offset(parts, sep, k) + parts[k].len(),
        ) == parts[k],
    decreases parts.len(),
{
    let n = parts.len() as int;
    let whole = join_with(parts, sep);
    let at = part_offset(parts, sep, k);
    lemma_part_offset_nonnegative(parts, sep, k);
    if n == 1 {
        assert(whole.subrange(0, parts[0].len() as int) == parts[0]);
    } else {
        let front = parts.drop_last();
        let head = join_with(front, sep);
        assert(parts.take(n - 1) == front);
        lemma_join_len(front, sep);
        lemma_part_offset_prefix(parts, sep, n - 1, n - 1);
        if k == n - 1 {
            assert(whole.subrange(at, at + parts[k].len()) =~= parts[k]);
        } else {
            lemma_join_holds_part(front, sep, k);
            lemma_part_offset_prefix(parts, sep, n - 1, k);
            assert(whole.subrange(at, at + parts[k].len()) =~= head.subrange(
                at,
                at + parts[k].len(),
            ));
        }
    }
}

/// The characters of `s`, in order.
pub fn chars_of(s: &str) -> (out: Vec<char>)
    ensures
        out@ == s@,
{
    let mut out: Vec<char> = Vec::new();
    for c in it: s.chars()
        invariant
            out@ == it.seq().take(it.index() as int),
            it.seq() == s@,
    {
        out.push(c);
    }
    out
}

/// `String::push`: appends one character to the end of the string.
#[verifier::external_body]
fn push_char(s: &mut String, c: char)
    ensures
        final(s)@ == old(s)@.push(c),
{
    s.push(c);
}

/// The string made of the characters `v[from..to]`, in order.
pub(crate) fn string_of_range(v: &Vec<char>, from: usize, to: usize) -> (out: String)
    requires
        from <= to <= v.len(),
    ensures
        out@ == v@.subrange(from as int, to as int),
{
    let mut out = String::new();
    let mut i: usize = from;
    while i < to
        invariant
            from <= i <= to <= v.len(),
            out@ == v@.subrange(from as int, i as int),
        decreases to - i,
    {
        push_char(&mut out, v[i]);
        i += 1;
    }
    out
}

/// The string made of the characters of `v`, in order.
pub fn string_of(v: &Vec<char>) -> (out: String)
    ensures
        out@ == v@,
{
    let out = string_of_range(v, 0, v.len());
    assert(v@.subrange(0, v.len() as int) == v@);
    out
}

/// Whether two strings hold the same characters.
pub fn text_eq(a: &str, b: &str) -> (same: bool)
    ensures
        same == (a@ == b@),
{
    let x = chars_of(a);
    let y = chars_of(b);
    if x.len() != y.len() {
        return false;
    }
    let mut i: usize = 0;
    while i < x.len()
        invariant
            i <= x.len(),
            x.len() == y.len(),
            x@ == a@,
            y@ == b@,
            x@.take(i as int) == y@.take(i as int),
        decreases x.len() - i,
    {
        if x[i] != y[i] {
            assert(a@[i as int] != b@[i as int]);
            return false;
        }
        assert(x@.take(i + 1) == x@.take(i as int).push(x@[i as int]));
        assert(y@.take(i + 1) == y@.take(i as int).push(y@[i as int]));
        i += 1;
    }
    assert(x@.take(x.len() as int) == x@);
    assert(y@.take(y.len() as int) == y@);
    true
}

/// Appends a copy of `s` to `list`.
pub fn push_text(list: &mut Vec<String>, s: &str)
    ensures
        views(final(list)@) == views(old(list)@).push(s@),
{
    let ghost sofar = list@;
    let owned = s.to_string();
    list.push(owned);
    proof {
        lemma_views_push(sofar, owned);
    }
}

/// Whether `list` holds a string with the characters of `s`.
pub fn contains_text(list: &Vec<String>, s: &str) -> (found: bool)
    ensures
        found == views(list@).contains(s@),
{
    let mut i: usize = 0;
    while i < list.len()
        invariant
            i <= list.len(),
            forall|k: int| 0 <= k < i ==> views(list@)[k] != s@,
        decreases list.len() - i,
    {
        if text_eq(list[i].as_str(), s) {
            assert(views(list@)[i as int] == s@);
            return true;
        }
        i += 1;
    }
    false
}

/// `parts` joined with `sep` between neighbours.
pub fn join(parts: &Vec<String>, sep: &str) -> (out: String)
    ensures
        out@ == join_with(views(parts@), sep@),
{
    let mut out = String::new();
    let mut i: usize = 0;
    while i < parts.len()
        invariant
            i <= parts.len(),
            out@ == join_with(views(parts@).take(i as int), sep@),
        decreases parts.len() - i,
    {
        let ghost before = views(parts@).take(i as int);
        let ghost after = views(parts@).take(i + 1);
        proof {
            assert(after.drop_last() == before);
            assert(after.last() == parts@[i as int]@);
        }
        if i > 0 {
            out.append(sep);
        }
        out.append(parts[i].as_str());
        proof {
            if i == 0 {
                assert(out@ == parts@[0]@);
            }
        }
        i += 1;
    }
    assert(views(parts@).take(parts.len() as int) == views(parts@));
    out
}

/// The views of the character vectors of `v`, in order.
pub open spec fn seqs(v: Seq<Vec<char>>) -> Seq<Seq<char>> {
    v.map_values(|x: Vec<char>| x@)
}

/// The pieces of `s` between the occurrences of `sep`: one piece more than
/// there are separators, empty pieces included.
pub open spec fn split(s: Seq<char>, sep: char) -> Seq<Seq<char>>
    decreases s.len(),
{
    if s.len() == 0 {
        seq![Seq::empty()]
    } else {
        let front = split(s.drop_last(), sep);
        if s.last() == sep {
            front.push(Seq::empty())
        } else {
            front.drop_last().push(front.last().push(s.last()))
        }
    }
}

/// Splitting gives at least one piece, and no piece holds the separator.
pub proof fn lemma_split_pieces(s: Seq<char>, sep: char)
    ensures
        split(s, sep).len() >= 1,
        forall|k: int, j: int|
            0 <= k < split(s, sep).len() && 0 <= j < split(s, sep)[k].len() ==> split(
                s,
                sep,
            )[k][j] != sep,
    decreases s.len(),
{
    if s.len() > 0 {
        lemma_split_pieces(s.drop_last(), sep);
    }
}

/// Splitting loses nothing: the pieces, joined by the separator, are the text.
pub proof fn lemma_split_join(s: Seq<char>, sep: char)
    ensures
        join_with(split(s, sep), seq![sep]) == s,
    decreases s.len(),
{
    if s.len() == 0 {
        assert(join_with(seq![Seq::<char>::empty()], seq![sep]) =~= s);
    } else {
        let short = s.drop_last();
        let front = split(short, sep);
        lemma_split_pieces(short, sep);
        lemma_split_join(short, sep);
        let pieces = split(s, sep);
        if s.last() == sep {
            assert(pieces.drop_last() == front);
            assert(join_with(pieces, seq![sep]) =~= s);
        } else {
            if front.len() == 1 {
                assert(front[0] == short);
                assert(pieces.len() == 1);
                assert(pieces[0] == short.push(s.last()));
                assert(short.push(s.last()) =~= s);
            } else {
                let sp = seq![sep];
                assert(pieces.len() == front.len());
                assert(pieces.drop_last() == front.drop_last());
                assert(pieces.last() == front.last().push(s.last()));
                assert(join_with(front, sp) == join_with(front.drop_last(), sp) + sp
                    + front.last());
                assert(join_with(pieces, sp) == join_with(pieces.drop_last(), sp) + sp
                    + pieces.last());
                assert(join_with(pieces, sp) =~= short.push(s.last()));
                assert(short.push(s.last()) =~= s);
            }
        }
    }
}

/// The pieces of `chars` between the occurrences of `sep`.
pub fn split_chars(chars: &Vec<char>, sep: char) -> (pieces: Vec<Vec<char>>)
    ensures
        seqs(pieces@) == split(chars@, sep),
{
    let mut pieces: Vec<Vec<char>> = Vec::new();
    let mut piece: Vec<char> = Vec::new();
    let mut i: usize = 0;
    assert(seqs(pieces@).push(piece@) =~= split(chars@.take(0), sep));
    while i < chars.len()
        invariant
            i <= chars.len(),
            seqs(pieces@).push(piece@) == split(chars@.take(i as int), sep),
        decreases chars.len() - i,
    {
        let ghost before = seqs(pieces@).push(piece@);
        proof {
            assert(chars@.take(i + 1).drop_last() == chars@.take(i as int));
            assert(before.drop_last() =~= seqs(pieces@));
        }
        if chars[i] == sep {
            pieces.push(piece);
            piece = Vec::new();
            assert(seqs(pieces@).push(piece@) =~= before.push(Seq::empty()));
        } else {
            piece.push(chars[i]);
            assert(seqs(pieces@).push(piece@) =~= before.drop_last().push(
                before.last().push(chars@[i as int]),
            ));
        }
        i += 1;
    }
    assert(chars@.take(chars.len() as int) == chars@);
    let ghost done = seqs(pieces@);
    pieces.push(piece);
    assert(seqs(pieces@) =~= done.push(piece@));
    pieces
}

/// The views of the string slices of `v`, in order.
pub open spec fn strs(v: Seq<&'static str>) -> Seq<Seq<char>> {
    v.map_values(|s: &'static str| s@)
}

/// The lower-case form of an ASCII capital; any other character unchanged.
pub open spec fn ascii_lower(c: char) -> char {
    if 'A' <= c && c <= 'Z' {
        ((c as u8 + 32) as u8) as char
    } else {
        c
    }
}

/// `s` with its ASCII capitals in lower case.
pub open spec fn ascii_lowercase(s: Seq<char>) -> Seq<char> {
    s.map_values(|c: char| ascii_lower(c))
}

/// The lower-case form of an ASCII capital; any other character unchanged.
pub fn to_ascii_lower(c: char) -> (out: char)
    ensures
        out == ascii_lower(c),
{
    if 'A' <= c && c <= 'Z' {
        (c as u8 + 32) as char
    } else {
        c
    }
}

/// `chars` with its ASCII capitals in lower case.
pub fn lowercase_chars(chars: &Vec<char>) -> (out: Vec<char>)
    ensures
        out@ == ascii_lowercase(chars@),
{
    let mut out: Vec<char> = Vec::new();
    let mut i: usize = 0;
    while i < chars.len()
        invariant
            i <= chars.len(),
            out@ == ascii_lowercase(chars@.take(i as int)),
        decreases chars.len() - i,
    {
        out.push(to_ascii_lower(chars[i]));
        assert(out@ =~= ascii_lowercase(chars@.take(i + 1)));
        i += 1;
    }
    assert(chars@.take(chars.len() as int) == chars@);
    out
}

/// Whether `list` holds a string with exactly the characters `chars`.
pub fn list_has(list: &Vec<&'static str>, chars: &Vec<char>) -> (found: bool)
    ensures
        found == strs(list@).contains(chars@),
{
    let mut i: usize = 0;
    while i < list.len()
        invariant
            i <= list.len(),
            forall|k: int| 0 <= k < i ==> strs(list@)[k] != chars@,
        decreases list.len() - i,
    {
        let entry = chars_of(list[i]);
        if entry.len() == chars.len() {
            let mut k: usize = 0;
            let mut same = true;
            while k < entry.len()
                invariant
                    k <= entry.len(),
                    entry.len() == chars.len(),
                    same == (forall|j: int| 0 <= j < k ==> entry@[j] == chars@[j]),
                decreases entry.len() - k,
            {
                if entry[k] != chars[k] {
                    same = false;
                }
                k += 1;
            }
            if same {
                assert(entry@ =~= chars@);
                assert(strs(list@)[i as int] == chars@);
                return true;
            }
        }
        i += 1;
    }
    false
}

/// Whether the character is white space, as Unicode defines it.
pub open spec fn is_whitespace(c: char) -> bool {
    ('\u{9}' <= c && c <= '\u{d}') || c == ' ' || c == '\u{85}' || c == '\u{a0}' || c == '\u{1680}'
        || ('\u{2000}' <= c && c <= '\u{200a}') || c == '\u{2028}' || c == '\u{2029}' || c
        == '\u{202f}' || c == '\u{205f}' || c == '\u{3000}'
}

/// How many characters of white space `s` starts with.
pub open spec fn leading_space(s: Seq<char>) -> nat
    decreases s.len(),
{
    if s.len() == 0 || !is_whitespace(s[0]) {
        0
    } else {
        1 + leading_space(s.skip(1))
    }
}

/// How many characters of white space `s` ends with.
pub open spec fn trailing_space(s: Seq<char>) -> nat
    decreases s.len(),
{
    if s.len() == 0 || !is_whitespace(s.last()) {
        0
    } else {
        1 + trailing_space(s.drop_last())
    }
}

/// `s` without the white space it starts and ends with.
pub open spec fn trimmed(s: Seq<char>) -> Seq<char> {
    if leading_space(s) == s.len() {
        Seq::empty()
    } else {
        s.subrange(leading_space(s) as int, s.len() - trailing_space(s))
    }
}

/// A run of white space at the start, followed by the end of the text or by
/// another character, is all the white space the text starts with.
pub proof fn lemma_leading_space(s: Seq<char>, n: int)
    requires
        0 <= n <= s.len(),
        forall|k: int| 0 <= k < n ==> is_whitespace(s[k]),
        n == s.len() || !is_whitespace(s[n]),
    ensures
        leading_space(s) == n,
    decreases n,
{
    if n > 0 {
        let rest = s.skip(1);
        assert forall|k: int| 0 <= k < n - 1 implies is_whitespace(rest[k]) by {
            assert(rest[k] == s[k + 1]);
        }
        lemma_leading_space(rest, n - 1);
    }
}

/// A run of white space at the end, preceded by the start of the text or by
/// another character, is all the white space the text ends with.
pub proof fn lemma_trailing_space(s: Seq<char>, n: int)
    requires
        0 <= n <= s.len(),
        forall|k: int| s.len() - n <= k < s.len() ==> is_whitespace(s[k]),
        n == s.len() || !is_whitespace(s[s.len() - n - 1]),
    ensures
        trailing_space(s) == n,
    decreases n,
{
    if n > 0 {
        lemma_trailing_space(s.drop_last(), n - 1);
    }
}

/// Whether the character is white space.
pub fn whitespace(c: char) -> (yes: bool)
    ensures
        yes == is_whitespace(c),
{
    ('\u{9}' <= c && c <= '\u{d}') || c == ' ' || c == '\u{85}' || c == '\u{a0}' || c == '\u{1680}'
        || ('\u{2000}' <= c && c <= '\u{200a}') || c == '\u{2028}' || c == '\u{2029}' || c
        == '\u{202f}' || c == '\u{205f}' || c == '\u{3000}'
}

/// `chars` without the white space it starts and ends with.
pub fn trim_chars(chars: &Vec<char>) -> (out: Vec<char>)
    ensures
        out@ == trimmed(chars@),
{
    let n = chars.len();
    let mut from: usize = 0;
    while from < n && whitespace(chars[from])
        invariant
            from <= n,
            n == chars.len(),
            forall|k: int| 0 <= k < from ==> is_whitespace(chars@[k]),
        decreases n - from,
    {
        from += 1;
    }
    proof {
        lemma_leading_space(chars@, from as int);
    }
    if from == n {
        return Vec::new();
    }
    let mut to: usize = n;
    while to > from && whitespace(chars[to - 1])
        invariant
            from <= to <= n,
            n == chars.len(),
            from < n,
            !is_whitespace(chars@[from as int]),
            forall|k: int| to <= k < n ==> is_whitespace(chars@[k]),
        decreases to,
    {
        to -= 1;
    }
    proof {
        lemma_trailing_space(chars@, n - to);
    }
    let mut out: Vec<char> = Vec::new();
    let mut i: usize = from;
    while i < to
        invariant
            from <= i <= to <= n,
            n == chars.len(),
            out@ == chars@.subrange(from as int, i as int),
        decreases to - i,
    {
        out.push(chars[i]);
        i += 1;
    }
    out
}

/// The character of a decimal digit.
pub open spec fn digit_char(d: nat) -> char
    recommends
        d < 10,
{
    (('0' as u8) + (d as u8)) as char
}

/// The number in decimal notation, without leading zeros.
pub open spec fn decimal(n: nat) -> Seq<char>
    decreases n,
{
    if n < 10 {
        seq![digit_char(n)]
    } else {
        decimal(n / 10).push(digit_char(n % 10))
    }
}

/// The number in decimal notation.
pub fn decimal_chars(n: u128) -> (out: Vec<char>)
    ensures
        out@ == decimal(n as nat),
        out.len() >= 1,
{
    let mut rev: Vec<char> = Vec::new();
    let mut rest: u128 = n;
    let ghost mut tail: Seq<char> = Seq::empty();
    while rest >= 10
        invariant
            tail.len() == rev.len(),
            forall|k: int| 0 <= k < rev.len() ==> rev@[k] == tail[tail.len() - 1 - k],
            decimal(n as nat) == decimal(rest as nat) + tail,
        decreases rest,
    {
        let d: u8 = (rest % 10) as u8;
        let c: char = (48u8 + d) as char;
        assert(c == digit_char((rest % 10) as nat));
        proof {
            let before = tail;
            tail = seq![c] + tail;
            assert(decimal(rest as nat) == decimal((rest / 10) as nat).push(c));
            assert(decimal(n as nat) =~= decimal((rest / 10) as nat) + tail);
        }
        rev.push(c);
        rest = rest / 10;
    }
    let last: char = (48u8 + (rest as u8)) as char;
    assert(decimal(rest as nat) =~= seq![last]);
    let mut out: Vec<char> = Vec::new();
    out.push(last);
    let mut i: usize = rev.len();
    while i > 0
        invariant
            i <= rev.len(),
            tail.len() == rev.len(),
            forall|k: int| 0 <= k < rev.len() ==> rev@[k] == tail[tail.len() - 1 - k],
            out@ == seq![last] + tail.take(rev.len() - i),
        decreases i,
    {
        i -= 1;
        out.push(rev[i]);
        assert(out@ =~= seq![last] + tail.take(rev.len() - i));
    }
    assert(tail.take(rev.len() as int) == tail);
    out
}

/// Appends the characters of `chars` to `s`.
pub fn append_chars(s: &mut String, chars: &Vec<char>)
    ensures
        final(s)@ == old(s)@ + chars@,
{
    let ghost before = s@;
    let mut i: usize = 0;
    while i < chars.len()
        invariant
            i <= chars.len(),
            s@ == before + chars@.take(i as int),
        decreases chars.len() - i,
    {
        push_char(s, chars[i]);
        assert(chars@.take(i + 1) == chars@.take(i as int).push(chars@[i as int]));
        i += 1;
    }
    assert(chars@.take(chars.len() as int) == chars@);
}

/// Whether the character is one of the ten decimal digits.
pub open spec fn is_digit(c: char) -> bool {
    '0' <= c && c <= '9'
}

/// Whether every character is a decimal digit.
pub open spec fn all_digits(s: Seq<char>) -> bool {
    forall|i: int| 0 <= i < s.len() ==> is_digit(#[trigger] s[i])
}

/// The number that a run of decimal digits stands for.
pub open spec fn digits_value(s: Seq<char>) -> nat
    decreases s.len(),
{
    if s.len() == 0 {
        0
    } else {
        digits_value(s.drop_last()) * 10 + ((s.last() as u8 - '0' as u8) as nat)
    }
}

/// The digits of a number text: the text without the `+` it may start with.
pub open spec fn unsigned_digits(s: Seq<char>) -> Seq<char> {
    if s.len() > 0 && s[0] == '+' {
        s.skip(1)
    } else {
        s
    }
}

/// The number that the text stands for, if it is a number that fits: an
/// optional `+` and then one or more decimal digits, nothing else.
pub open spec fn parsed_number(s: Seq<char>) -> Option<nat> {
    let d = unsigned_digits(s);
    if d.len() > 0 && all_digits(d) && digits_value(d) <= usize::MAX {
        Some(digits_value(d))
    } else {
        None
    }
}

/// A longer run of digits stands for no smaller a number.
pub proof fn lemma_digits_value_grows(s: Seq<char>, n: int)
    requires
        0 <= n <= s.len(),
    ensures
        digits_value(s.take(n)) <= digits_value(s),
    decreases s.len() - n,
{
    if n < s.len() {
        lemma_digits_value_grows(s, n + 1);
        assert(s.take(n + 1).drop_last() == s.take(n));
    } else {
        assert(s.take(n) == s);
    }
}

/// The number that `chars` stands for, if it is a number that fits.
pub fn parse_number(chars: &Vec<char>) -> (out: Option<usize>)
    ensures
        match out {
            Some(n) => parsed_number(chars@) == Some(n as nat),
            None => parsed_number(chars@) is None,
        },
{
    let start: usize = if chars.len() > 0 && chars[0] == '+' {
        1
    } else {
        0
    };
    let ghost d = unsigned_digits(chars@);
    assert(d == chars@.skip(start as int));
    if start == chars.len() {
        return None;
    }
    let mut value: usize = 0;
    let mut i: usize = start;
    while i < chars.len()
        invariant
            start <= i <= chars.len(),
            d == chars@.skip(start as int),
            d == unsigned_digits(chars@),
            all_digits(d.take(i - start)),
            value == digits_value(d.take(i - start)),
        decreases chars.len() - i,
    {
        let c = chars[i];
        let ghost more = d.take(i - start + 1);
        proof {
            assert(more.drop_last() == d.take(i - start));
            assert(more.last() == c);
        }
        assert(d.len() == chars.len() - start);
        assert(d[i - start] == c);
        if !('0' <= c && c <= '9') {
            assert(!is_digit(d[i - start]));
            assert(!all_digits(d));
            return None;
        }
        let digit: usize = (c as u8 - '0' as u8) as usize;
        if value > (usize::MAX - digit) / 10 {
            proof {
                assert(digits_value(more) == value * 10 + digit);
                assert(digits_value(more) > usize::MAX);
                lemma_digits_value_grows(d, i - start + 1);
            }
            return None;
        }
        value = value * 10 + digit;
        assert(all_digits(more)) by {
            assert forall|k: int| 0 <= k < more.len() implies is_digit(#[trigger] more[k]) by {
                if k < more.len() - 1 {
                    assert(more[k] == d.take(i - start)[k]);
                }
            }
        }
        i += 1;
    }
    assert(d.take(chars.len() - start) == d);
    Some(value)
}

/// Where `c` first stands in `s`, or -1 if it does not occur.
pub open spec fn first_at(s: Seq<char>, c: char) -> int
    decreases s.len(),
{
    if s.len() == 0 {
        -1
    } else if s[0] == c {
        0
    } else if first_at(s.skip(1), c) < 0 {
        -1
    } else {
        first_at(s.skip(1), c) + 1
    }
}

/// A place before which `c` does not occur, and which holds `c` or is the
/// end of the text, is where `c` first stands, or shows that it does not
/// occur.
pub proof fn lemma_first_at(s: Seq<char>, c: char, n: int)
    requires
        0 <= n <= s.len(),
        forall|k: int| 0 <= k < n ==> s[k] != c,
        n == s.len() || s[n] == c,
    ensures
        first_at(s, c) == (if n == s.len() {
            -1
        } else {
            n
        }),
    decreases n,
{
    if n > 0 {
        let rest = s.skip(1);
        assert forall|k: int| 0 <= k < n - 1 implies rest[k] != c by {
            assert(rest[k] == s[k + 1]);
        }
        lemma_first_at(rest, c, n - 1);
    }
}

/// Where `c` first stands in `chars`, if it occurs.
pub fn find_first(chars: &Vec<char>, c: char) -> (at: Option<usize>)
    ensures
        match at {
            Some(i) => i == first_at(chars@, c) && i < chars.len(),
            None => first_at(chars@, c) == -1,
        },
{
    let mut i: usize = 0;
    while i < chars.len() && chars[i] != c
        invariant
            i <= chars.len(),
            forall|k: int| 0 <= k < i ==> chars@[k] != c,
        decreases chars.len() - i,
    {
        i += 1;
    }
    proof {
        lemma_first_at(chars@, c, i as int);
    }
    if i == chars.len() {
        None
    } else {
        Some(i)
    }
}

/// The characters `chars[from..to]`.
pub(crate) fn slice_chars(chars: &Vec<char>, from: usize, to: usize) -> (out: Vec<char>)
    requires
        from <= to <= chars.len(),
    ensures
        out@ == chars@.subrange(from as int, to as int),
{
    let mut out: Vec<char> = Vec::new();
    let mut i: usize = from;
    while i < to
        invariant
            from <= i <= to <= chars.len(),
            out@ == chars@.subrange(from as int, i as int),
        decreases to - i,
    {
        out.push(chars[i]);
        i += 1;
    }
    out
}

/// Whether `needle` stands in `s` at `at`.
pub open spec fn occurs_at(s: Seq<char>, needle: Seq<char>, at: int) -> bool {
    0 <= at && at + needle.len() <= s.len() && s.subrange(at, at + needle.len()) == needle
}

/// Whether `needle` stands somewhere in `s`.
pub open spec fn has_part(s: Seq<char>, needle: Seq<char>) -> bool {
    exists|at: int| occurs_at(s, needle, at)
}

/// Whether `needle` stands in `s` at `at`.
fn stands_at(s: &Vec<char>, needle: &Vec<char>, at: usize) -> (yes: bool)
    requires
        at + needle.len() <= s.len(),
    ensures
        yes == occurs_at(s@, needle@, at as int),
{
    let mut k: usize = 0;
    while k < needle.len()
        invariant
            k <= needle.len(),
            at + needle.len() <= s.len(),
            forall|j: int| 0 <= j < k ==> s@[at + j] == needle@[j],
        decreases needle.len() - k,
    {
        if s[at + k] != needle[k] {
            assert(s@.subrange(at as int, at + needle.len())[k as int] != needle@[k as int]);
            return false;
        }
        k += 1;
    }
    assert(s@.subrange(at as int, at + needle.len()) =~= needle@);
    true
}

/// Whether `needle` stands somewhere in `s`.
pub fn contains_part(s: &Vec<char>, needle: &Vec<char>) -> (found: bool)
    ensures
        found == has_part(s@, needle@),
{
    if needle.len() > s.len() {
        return false;
    }
    let last = s.len() - needle.len();
    let mut at: usize = 0;
    loop
        invariant_except_break
            forall|k: int| 0 <= k < at ==> !occurs_at(s@, needle@, k),
        invariant
            at <= last,
            last == s.len() - needle.len(),
        ensures
            forall|k: int| 0 <= k <= last ==> !occurs_at(s@, needle@, k),
        decreases last - at,
    {
        if stands_at(s, needle, at) {
            return true;
        }
        if at == last {
            break;
        }
        at += 1;
    }
    false
}

/// Whether `s` starts with `prefix`.
pub fn begins_with(s: &Vec<char>, prefix: &Vec<char>) -> (yes: bool)
    ensures
        yes == prefix@.is_prefix_of(s@),
{
    if prefix.len() > s.len() {
        return false;
    }
    let yes = stands_at(s, prefix, 0);
    proof {
        if prefix@.is_prefix_of(s@) {
            assert(s@.subrange(0, prefix.len() as int) == prefix@);
        }
    }
    yes
}

/// `s` in lower case, as Unicode maps it.
pub uninterp spec fn unicode_lowercase(s: Seq<char>) -> Seq<char>;

/// `str::to_lowercase`: the text with every character mapped to its
/// lower-case form by the Unicode tables.
#[verifier::external_body]
pub(crate) fn lowercase(s: &str) -> (out: String)
    ensures
        out@ == unicode_lowercase(s@),
{
    s.to_lowercase()
}

/// The text that bytes are read as where they need not be UTF-8: their
/// decoding where they are valid, else the decoding of their valid parts with
/// a replacement character for each part that is not.
pub uninterp spec fn utf8_lossy(bytes: Seq<u8>) -> Seq<char>;

/// `String::from_utf8_lossy`: the bytes as text, with U+FFFD in place of
/// what is not UTF-8. Valid UTF-8 comes back as it decodes.
#[verifier::external_body]
pub(crate) fn lossy_text(bytes: &[u8]) -> (text: String)
    ensures
        text@ == utf8_lossy(bytes@),
        vstd::utf8::valid_utf8(bytes@) ==> text@ == vstd::utf8::decode_utf8(bytes@),
{
    String::from_utf8_lossy(bytes).into_owned()
}

/// Whether the text is blank: nothing but white space.
pub fn is_blank(s: &str) -> (blank: bool)
    ensures
        blank == (trimmed(s@).len() == 0),
{
    trim_chars(&chars_of(s)).len() == 0
}

/// Whether the characters are those of `s`.
pub fn chars_are(chars: &Vec<char>, s: &str) -> (same: bool)
    ensures
        same == (chars@ == s@),
{
    let other = chars_of(s);
    if chars.len() != other.len() {
        return false;
    }
    let same = stands_at(chars, &other, 0);
    proof {
        assert(chars@.subrange(0, chars.len() as int) == chars@);
    }
    same
}

/// Whether `s` ends with `suffix`.
pub fn ends_with(s: &Vec<char>, suffix: &Vec<char>) -> (yes: bool)
    ensures
        yes == suffix@.is_suffix_of(s@),
{
    if suffix.len() > s.len() {
        return false;
    }
    stands_at(s, suffix, s.len() - suffix.len())
}

/// What a check complains of, if it complains.
pub open spec fn verdict_view(verdict: Result<(), String>) -> Option<Seq<char>> {
    match verdict {
        Ok(_) => None,
        Err(message) => Some(message@),
    }
}

/// The smaller of the two.
pub open spec fn least(a: int, b: int) -> int {
    if a <= b {
        a
    } else {
        b
    }
}

} // verus!

//! Text helpers shared by the rest of the crate.
//!
//! Strings are specified through their view, a sequence of characters.

use vstd::prelude::*;
use vstd::string::*;

verus! {

/// `String::push` appends exactly one character.
pub assume_specification[ String::push ](s: &mut String, c: char)
    ensures
        final(s)@ == old(s)@.push(c),
;

/// What `char::to_uppercase` yields for `c`, collected into a sequence.
pub uninterp spec fn unicode_upper_of_char(c: char) -> Seq<char>;

/// Calls `char::to_uppercase` and collects the characters it yields. The
/// mapping is a fixed table of the standard library, so the result is a
/// function of `c` alone; nothing more is claimed of it.
#[verifier::external_body]
fn std_upper_of_char(c: char) -> (r: String)
    ensures
        r@ == unicode_upper_of_char(c),
{
    c.to_uppercase().collect()
}

/// What `str::to_lowercase` returns for a text.
pub uninterp spec fn unicode_lower_of_text(s: Seq<char>) -> Seq<char>;

/// Calls `str::to_lowercase`, whose result depends on the text alone;
/// nothing more is claimed of it.
#[verifier::external_body]
fn std_lower_of_text(s: &str) -> (r: String)
    ensures
        r@ == unicode_lower_of_text(s@),
{
    s.to_lowercase()
}

/// Always true; the default of switches that are on unless turned off.
pub fn enabled() -> (b: bool)
    ensures
        b,
{
    true
}

pub open spec fn is_ascii_char(c: char) -> bool {
    c <= '\u{7f}'
}

pub open spec fn is_lower(c: char) -> bool {
    'a' <= c <= 'z'
}

pub open spec fn is_upper(c: char) -> bool {
    'A' <= c <= 'Z'
}

pub open spec fn is_digit(c: char) -> bool {
    '0' <= c <= '9'
}

/// The upper-case form of an ASCII character.
pub open spec fn spec_upper_ascii(c: char) -> char {
    if is_lower(c) {
        ((c as u8) - 32) as u8 as char
    } else {
        c
    }
}

/// The upper-case form of any character: the ASCII rule on ASCII, the
/// standard library's table elsewhere.
pub open spec fn spec_upper_char(c: char) -> Seq<char> {
    if is_ascii_char(c) {
        seq![spec_upper_ascii(c)]
    } else {
        unicode_upper_of_char(c)
    }
}

pub open spec fn spec_uppercase(s: Seq<char>) -> Seq<char>
    decreases s.len(),
{
    if s.len() == 0 {
        Seq::<char>::empty()
    } else {
        spec_uppercase(s.drop_last()) + spec_upper_char(s.last())
    }
}

pub open spec fn spec_replace_char(s: Seq<char>, from: char, to: char) -> Seq<char> {
    Seq::new(
        s.len(),
        |i: int|
            if s[i] == from {
                to
            } else {
                s[i]
            },
    )
}

pub open spec fn spec_capitalize(s: Seq<char>) -> Seq<char> {
    if s.len() == 0 {
        s
    } else {
        spec_upper_char(s[0]) + s.subrange(1, s.len() as int)
    }
}

/// A character of a plain name: an ASCII letter, a digit, `_` or `-`.
pub open spec fn is_plain_char(c: char) -> bool {
    is_lower(c) || is_upper(c) || is_digit(c) || c == '_' || c == '-'
}

pub open spec fn is_plain(s: Seq<char>) -> bool {
    forall|i: int| 0 <= i < s.len() ==> is_plain_char(#[trigger] s[i])
}

/// A character of the name of an environment variable: `A` to `Z`, a digit
/// or `_`.
pub open spec fn is_env_char(c: char) -> bool {
    is_upper(c) || is_digit(c) || c == '_'
}

/// A name of an environment variable: one or more of `A` to `Z`, the digits
/// and `_`.
pub open spec fn is_env_key(s: Seq<char>) -> bool {
    s.len() > 0 && forall|i: int| 0 <= i < s.len() ==> is_env_char(#[trigger] s[i])
}

/// Two plain names in a row make a plain name.
pub proof fn lemma_plain_concat(a: Seq<char>, b: Seq<char>)
    requires
        is_plain(a),
        is_plain(b),
    ensures
        is_plain(a + b),
{
    let c = a + b;
    assert forall|i: int| 0 <= i < c.len() implies is_plain_char(#[trigger] c[i]) by {
        if i < a.len() {
            assert(c[i] == a[i]);
        } else {
            assert(c[i] == b[i - a.len()]);
        }
    }
}

/// On a text of ASCII characters upper-casing works character by character.
pub proof fn lemma_uppercase_ascii(s: Seq<char>)
    requires
        forall|i: int| 0 <= i < s.len() ==> is_ascii_char(#[trigger] s[i]),
    ensures
        spec_uppercase(s).len() == s.len(),
        forall|i: int| 0 <= i < s.len() ==> #[trigger] spec_uppercase(s)[i] == spec_upper_ascii(s[i]),
    decreases s.len(),
{
    if s.len() > 0 {
        lemma_uppercase_ascii(s.drop_last());
        assert forall|i: int| 0 <= i < s.len() implies #[trigger] spec_uppercase(s)[i]
            == spec_upper_ascii(s[i]) by {
            if i < s.len() - 1 {
                assert(s.drop_last()[i] == s[i]);
                assert(spec_uppercase(s)[i] == spec_uppercase(s.drop_last())[i]);
            }
        }
    }
}

/// The lower-case form of an ASCII character.
pub open spec fn spec_lower_ascii(c: char) -> char {
    if is_upper(c) {
        ((c as u8) + 32) as u8 as char
    } else {
        c
    }
}

pub open spec fn is_ascii_text(s: Seq<char>) -> bool {
    forall|i: int| 0 <= i < s.len() ==> is_ascii_char(#[trigger] s[i])
}

/// The lower-case form of a text: character by character where the text is
/// ASCII, the standard library's answer elsewhere.
pub open spec fn spec_lowercase(s: Seq<char>) -> Seq<char> {
    if is_ascii_text(s) {
        Seq::new(s.len(), |i: int| spec_lower_ascii(s[i]))
    } else {
        unicode_lower_of_text(s)
    }
}

pub fn lowercase(s: &str) -> (r: String)
    ensures
        r@ == spec_lowercase(s@),
{
    let n = s.unicode_len();
    let mut r = String::new();
    let mut i: usize = 0;
    while i < n
        invariant
            n == s@.len(),
            i <= n,
            forall|j: int| 0 <= j < i ==> is_ascii_char(#[trigger] s@[j]),
            r@ == Seq::new(i as nat, |j: int| spec_lower_ascii(s@[j])),
        decreases n - i,
    {
        let c = s.get_char(i);
        if c > '\u{7f}' {
            return std_lower_of_text(s);
        }
        if 'A' <= c && c <= 'Z' {
            let b: u8 = c as u8;
            r.push((b + 32) as char);
        } else {
            r.push(c);
        }
        assert(r@ =~= Seq::new((i + 1) as nat, |j: int| spec_lower_ascii(s@[j])));
        i += 1;
    }
    r
}

pub fn upper_char(c: char) -> (r: String)
    ensures
        r@ == spec_upper_char(c),
{
    if c <= '\u{7f}' {
        let mut r = String::new();
        if 'a' <= c && c <= 'z' {
            let b: u8 = c as u8;
            r.push((b - 32) as char);
        } else {
            r.push(c);
        }
        r
    } else {
        std_upper_of_char(c)
    }
}

/// Upper-cases a text character by character.
pub fn uppercase(s: &str) -> (r: String)
    ensures
        r@ == spec_uppercase(s@),
{
    let n = s.unicode_len();
    let mut r = String::new();
    let mut i: usize = 0;
    while i < n
        invariant
            n == s@.len(),
            i <= n,
            r@ == spec_uppercase(s@.subrange(0, i as int)),
        decreases n - i,
    {
        let c = s.get_char(i);
        let u = upper_char(c);
        proof {
            let next = s@.subrange(0, i + 1);
            assert(next.drop_last() == s@.subrange(0, i as int));
            assert(next.last() == c);
        }
        r.append(u.as_str());
        i += 1;
    }
    proof {
        assert(s@.subrange(0, n as int) == s@);
    }
    r
}

/// Replaces every occurrence of one character by another.
pub fn replace_char(s: &str, from: char, to: char) -> (r: String)
    ensures
        r@ == spec_replace_char(s@, from, to),
{
    let n = s.unicode_len();
    let mut r = String::new();
    let mut i: usize = 0;
    while i < n
        invariant
            n == s@.len(),
            i <= n,
            r@ == spec_replace_char(s@, from, to).subrange(0, i as int),
        decreases n - i,
    {
        let c = s.get_char(i);
        if c == from {
            r.push(to);
        } else {
            r.push(c);
        }
        i += 1;
    }
    r
}

/// Upper-cases the first character of a text and keeps the rest.
pub fn capitalize_first_letter(s: &str) -> (r: String)
    ensures
        r@ == spec_capitalize(s@),
{
    let n = s.unicode_len();
    if n == 0 {
        return String::from_str(s);
    }
    let mut r = upper_char(s.get_char(0));
    r.append(s.substring_char(1, n));
    r
}

/// Whether two texts are the same.
pub fn same_text(a: &str, b: &str) -> (same: bool)
    ensures
        same == (a@ == b@),
{
    let n = a.unicode_len();
    if n != b.unicode_len() {
        return false;
    }
    let mut i: usize = 0;
    while i < n
        invariant
            n == a@.len(),
            n == b@.len(),
            i <= n,
            a@.subrange(0, i as int) == b@.subrange(0, i as int),
        decreases n - i,
    {
        if a.get_char(i) != b.get_char(i) {
            return false;
        }
        proof {
            assert(a@.subrange(0, i + 1) == a@.subrange(0, i as int).push(a@[i as int]));
            assert(b@.subrange(0, i + 1) == b@.subrange(0, i as int).push(b@[i as int]));
        }
        i += 1;
    }
    proof {
        assert(a@ == a@.subrange(0, n as int));
        assert(b@ == b@.subrange(0, n as int));
    }
    true
}

/// A copy of a list of texts.
pub fn copy_texts(v: &Vec<String>) -> (r: Vec<String>)
    ensures
        r@ == v@,
{
    let mut r: Vec<String> = Vec::new();
    let mut i: usize = 0;
    while i < v.len()
        invariant
            i <= v@.len(),
            r@ == v@.subrange(0, i as int),
        decreases v@.len() - i,
    {
        r.push(v[i].clone());
        assert(r@ =~= v@.subrange(0, i + 1));
        i += 1;
    }
    assert(v@.subrange(0, v@.len() as int) == v@);
    r
}

pub fn concat2(a: &str, b: &str) -> (r: String)
    ensures
        r@ == a@ + b@,
{
    let mut r = String::from_str(a);
    r.append(b);
    r
}

pub fn concat3(a: &str, b: &str, c: &str) -> (r: String)
    ensures
        r@ == a@ + b@ + c@,
{
    let mut r = String::from_str(a);
    r.append(b);
    r.append(c);
    r
}

/// The texts of a sequence of strings.
pub open spec fn texts_of(v: Seq<String>) -> Seq<Seq<char>> {
    Seq::new(v.len(), |i: int| v[i]@)
}

/// The index of the first `c` in `s` from `i` on; the length of `s` if there
/// is none.
pub open spec fn spec_find_char(s: Seq<char>, c: char, i: int) -> int
    decreases s.len() - i,
{
    if i < 0 || i >= s.len() {
        s.len() as int
    } else if s[i] == c {
        i
    } else {
        spec_find_char(s, c, i + 1)
    }
}

pub proof fn lemma_find_char(s: Seq<char>, c: char, i: int)
    requires
        0 <= i <= s.len(),
    ensures
        i <= spec_find_char(s, c, i) <= s.len(),
        spec_find_char(s, c, i) < s.len() ==> s[spec_find_char(s, c, i)] == c,
        forall|j: int| i <= j < spec_find_char(s, c, i) ==> s[j] != c,
    decreases s.len() - i,
{
    if i < s.len() && s[i] != c {
        lemma_find_char(s, c, i + 1);
    }
}

/// The index of the first `c` in `s`, if there is one.
pub fn find_char(s: &str, c: char) -> (r: Option<usize>)
    ensures
        match r {
            Some(i) => i == spec_find_char(s@, c, 0) && i < s@.len(),
            None => spec_find_char(s@, c, 0) == s@.len(),
        },
{
    let n = s.unicode_len();
    let mut i: usize = 0;
    proof {
        lemma_find_char(s@, c, 0);
    }
    while i < n
        invariant
            n == s@.len(),
            i <= n,
            spec_find_char(s@, c, 0) == spec_find_char(s@, c, i as int),
        decreases n - i,
    {
        if s.get_char(i) == c {
            return Some(i);
        }
        i += 1;
    }
    None
}

/// The pieces of `s` between the occurrences of `sep`. There is one piece
/// more than there are separators; a piece may be empty.
pub open spec fn spec_split(s: Seq<char>, sep: char) -> Seq<Seq<char>>
    decreases s.len(),
{
    if s.len() == 0 {
        seq![Seq::<char>::empty()]
    } else {
        let before = spec_split(s.drop_last(), sep);
        if s.last() == sep {
            before.push(Seq::<char>::empty())
        } else {
            before.drop_last().push(before.last().push(s.last()))
        }
    }
}

/// A text has at least one piece.
pub proof fn lemma_split_len(s: Seq<char>, sep: char)
    ensures
        spec_split(s, sep).len() >= 1,
    decreases s.len(),
{
    if s.len() > 0 {
        lemma_split_len(s.drop_last(), sep);
    }
}

/// What follows a text without holding a separator goes on with the last
/// piece of the text.
pub proof fn lemma_split_more(s: Seq<char>, t: Seq<char>, sep: char)
    requires
        forall|i: int| 0 <= i < t.len() ==> t[i] != sep,
    ensures
        spec_split(s, sep).len() >= 1,
        spec_split(s + t, sep) == spec_split(s, sep).drop_last().push(
            spec_split(s, sep).last() + t,
        ),
    decreases t.len(),
{
    lemma_split_len(s, sep);
    let before = spec_split(s, sep);
    if t.len() == 0 {
        assert(s + t =~= s);
        assert(before.last() + t =~= before.last());
        assert(before.drop_last().push(before.last()) =~= before);
    } else {
        let shorter = t.drop_last();
        lemma_split_more(s, shorter, sep);
        assert((s + t).drop_last() =~= s + shorter);
        assert((s + t).last() == t.last());
        let mid = before.drop_last().push(before.last() + shorter);
        assert(mid.drop_last() =~= before.drop_last());
        assert(mid.last().push(t.last()) =~= before.last() + t);
    }
}

/// Texts that hold no separator, joined with the separator and split at it,
/// are the texts again.
pub proof fn lemma_split_join(parts: Seq<Seq<char>>, sep: char)
    requires
        parts.len() >= 1,
        forall|i: int, j: int|
            0 <= i < parts.len() && 0 <= j < parts[i].len() ==> #[trigger] parts[i][j] != sep,
    ensures
        spec_split(spec_join(parts, seq![sep]), sep) == parts,
    decreases parts.len(),
{
    let none = Seq::<char>::empty();
    if parts.len() == 1 {
        lemma_split_more(none, parts[0], sep);
        assert(none + parts[0] =~= parts[0]);
        assert(spec_split(none, sep) =~= seq![none]);
        assert(seq![none].drop_last().push(seq![none].last() + parts[0]) =~= parts);
    } else {
        let front = parts.drop_last();
        let head = spec_join(front, seq![sep]);
        assert forall|i: int, j: int|
            0 <= i < front.len() && 0 <= j < front[i].len() implies #[trigger] front[i][j]
            != sep by {
            assert(front[i][j] == parts[i][j]);
        }
        lemma_split_join(front, sep);
        let ended = head + seq![sep];
        assert(ended.drop_last() =~= head);
        assert(ended.last() == sep);
        assert(spec_split(ended, sep) == front.push(none));
        lemma_split_more(ended, parts.last(), sep);
        assert(front.push(none).drop_last() =~= front);
        assert(none + parts.last() =~= parts.last());
        assert(front.push(parts.last()) =~= parts);
    }
}

/// Splits a text at every occurrence of `sep`.
pub fn split_text(s: &str, sep: char) -> (parts: Vec<String>)
    ensures
        texts_of(parts@) == spec_split(s@, sep),
        parts@.len() >= 1,
{
    let n = s.unicode_len();
    let mut parts: Vec<String> = Vec::new();
    let mut cur = String::new();
    let mut i: usize = 0;
    assert(texts_of(parts@).push(cur@) =~= spec_split(s@.subrange(0, 0), sep));
    while i < n
        invariant
            n == s@.len(),
            i <= n,
            texts_of(parts@).push(cur@) == spec_split(s@.subrange(0, i as int), sep),
        decreases n - i,
    {
        let c = s.get_char(i);
        proof {
            let next = s@.subrange(0, i + 1);
            assert(next.drop_last() == s@.subrange(0, i as int));
            assert(next.last() == c);
            let before = spec_split(s@.subrange(0, i as int), sep);
            assert(before.last() == cur@);
            assert(before.drop_last() == texts_of(parts@));
        }
        if c == sep {
            let ghost done = texts_of(parts@).push(cur@);
            parts.push(cur);
            cur = String::new();
            assert(texts_of(parts@) == done);
        } else {
            cur.push(c);
        }
        i += 1;
    }
    proof {
        assert(s@.subrange(0, n as int) == s@);
    }
    let ghost all = texts_of(parts@).push(cur@);
    parts.push(cur);
    assert(texts_of(parts@) == all);
    parts
}

/// A line without the carriage return that may end it.
pub open spec fn spec_strip_cr(line: Seq<char>) -> Seq<char> {
    if line.len() > 0 && line.last() == '\r' {
        line.drop_last()
    } else {
        line
    }
}

/// The lines of a text. A line ends with a line feed, before which a
/// carriage return is dropped; what follows the last line feed is a line of
/// its own unless it is empty.
pub open spec fn spec_lines(s: Seq<char>) -> Seq<Seq<char>> {
    let pieces = spec_split(s, '\n');
    let ended = Seq::new((pieces.len() - 1) as nat, |i: int| spec_strip_cr(pieces[i]));
    if pieces.last().len() == 0 {
        ended
    } else {
        ended.push(pieces.last())
    }
}

pub fn lines(s: &str) -> (out: Vec<String>)
    ensures
        texts_of(out@) == spec_lines(s@),
{
    let pieces = split_text(s, '\n');
    let n = pieces.len();
    let mut out: Vec<String> = Vec::new();
    let mut i: usize = 0;
    let ghost all = spec_split(s@, '\n');
    let ghost ended = Seq::new((all.len() - 1) as nat, |i: int| spec_strip_cr(all[i]));
    while i + 1 < n
        invariant
            n == pieces@.len(),
            n >= 1,
            i + 1 <= n,
            texts_of(pieces@) == all,
            ended == Seq::new((all.len() - 1) as nat, |i: int| spec_strip_cr(all[i])),
            texts_of(out@) == ended.subrange(0, i as int),
        decreases n - i,
    {
        let piece = pieces[i].as_str();
        let len = piece.unicode_len();
        proof {
            assert(texts_of(pieces@)[i as int] == piece@);
        }
        let ghost before = texts_of(out@);
        if len > 0 && piece.get_char(len - 1) == '\r' {
            out.push(String::from_str(piece.substring_char(0, len - 1)));
        } else {
            out.push(String::from_str(piece));
        }
        proof {
            assert(texts_of(out@) == before.push(ended[i as int]));
            assert(ended.subrange(0, i + 1) == ended.subrange(0, i as int).push(ended[i as int]));
        }
        i += 1;
    }
    proof {
        assert(ended.subrange(0, ended.len() as int) == ended);
        assert(texts_of(pieces@)[n - 1] == pieces@[n - 1]@);
    }
    let last = pieces[n - 1].as_str();
    if last.unicode_len() > 0 {
        let ghost before = texts_of(out@);
        out.push(String::from_str(last));
        assert(texts_of(out@) == before.push(last@));
    }
    out
}

/// `s` without the `c`s at its start, from `i` on.
pub open spec fn spec_skip_char(s: Seq<char>, c: char, i: int) -> int
    decreases s.len() - i,
{
    if i < 0 || i >= s.len() || s[i] != c {
        i
    } else {
        spec_skip_char(s, c, i + 1)
    }
}

/// The end of `s` without the `c`s that close it, not going below `low`.
pub open spec fn spec_skip_char_back(s: Seq<char>, c: char, low: int, end: int) -> int
    decreases end - low,
{
    if end <= low || low < 0 || end > s.len() || s[end - 1] != c {
        end
    } else {
        spec_skip_char_back(s, c, low, end - 1)
    }
}

/// `s` without the `c`s at its start and at its end.
pub open spec fn spec_trim_char(s: Seq<char>, c: char) -> Seq<char> {
    let from = spec_skip_char(s, c, 0);
    let to = spec_skip_char_back(s, c, from, s.len() as int);
    s.subrange(from, to)
}

proof fn lemma_skip_char(s: Seq<char>, c: char, i: int)
    requires
        0 <= i <= s.len(),
    ensures
        i <= spec_skip_char(s, c, i) <= s.len(),
    decreases s.len() - i,
{
    if i < s.len() && s[i] == c {
        lemma_skip_char(s, c, i + 1);
    }
}

proof fn lemma_skip_char_back(s: Seq<char>, c: char, low: int, end: int)
    requires
        0 <= low <= end <= s.len(),
    ensures
        low <= spec_skip_char_back(s, c, low, end) <= end,
    decreases end - low,
{
    if end > low && s[end - 1] == c {
        lemma_skip_char_back(s, c, low, end - 1);
    }
}

/// Strips every `c` from the start and from the end of a text.
pub fn trim_char(s: &str, c: char) -> (r: String)
    ensures
        r@ == spec_trim_char(s@, c),
{
    let n = s.unicode_len();
    let mut from: usize = 0;
    proof {
        lemma_skip_char(s@, c, 0);
    }
    while from < n && s.get_char(from) == c
        invariant
            n == s@.len(),
            from <= n,
            spec_skip_char(s@, c, 0) == spec_skip_char(s@, c, from as int),
        decreases n - from,
    {
        from += 1;
    }
    let mut to: usize = n;
    proof {
        lemma_skip_char_back(s@, c, from as int, n as int);
    }
    while to > from && s.get_char(to - 1) == c
        invariant
            n == s@.len(),
            from <= to <= n,
            spec_skip_char_back(s@, c, from as int, n as int) == spec_skip_char_back(
                s@,
                c,
                from as int,
                to as int,
            ),
        decreases to,
    {
        to -= 1;
    }
    String::from_str(s.substring_char(from, to))
}

/// The texts of `parts` with `sep` between each two of them.
pub open spec fn spec_join(parts: Seq<Seq<char>>, sep: Seq<char>) -> Seq<char>
    decreases parts.len(),
{
    if parts.len() == 0 {
        Seq::<char>::empty()
    } else if parts.len() == 1 {
        parts[0]
    } else {
        spec_join(parts.drop_last(), sep) + sep + parts.last()
    }
}

pub fn join_texts(parts: &Vec<String>, sep: &str) -> (r: String)
    ensures
        r@ == spec_join(texts_of(parts@), sep@),
{
    let mut r = String::new();
    let mut i: usize = 0;
    let ghost all = texts_of(parts@);
    while i < parts.len()
        invariant
            i <= parts@.len(),
            all == texts_of(parts@),
            r@ == spec_join(all.subrange(0, i as int), sep@),
        decreases parts@.len() - i,
    {
        proof {
            let next = all.subrange(0, i + 1);
            assert(next.drop_last() == all.subrange(0, i as int));
            assert(next.last() == parts@[i as int]@);
            if i == 0 {
                assert(next[0] == parts@[0]@);
            }
        }
        if i > 0 {
            r.append(sep);
        }
        r.append(parts[i].as_str());
        i += 1;
    }
    proof {
        assert(all.subrange(0, parts@.len() as int) == all);
    }
    r
}

/// `pat` stands in `s` at position `i`.
pub open spec fn stands_at(s: Seq<char>, i: int, pat: Seq<char>) -> bool {
    0 <= i && i + pat.len() <= s.len() && s.subrange(i, i + pat.len()) == pat
}

/// `s` from position `i` on, with `to` in the place of every occurrence of
/// `from`: the occurrences are taken from left to right and do not overlap.
/// The empty text occurs before every character and at the end.
pub open spec fn spec_replace_from(s: Seq<char>, from: Seq<char>, to: Seq<char>, i: int) -> Seq<
    char,
>
    decreases s.len() - i,
{
    if i < 0 {
        Seq::empty()
    } else if from.len() == 0 {
        if i >= s.len() {
            to
        } else {
            to + seq![s[i]] + spec_replace_from(s, from, to, i + 1)
        }
    } else if i >= s.len() {
        Seq::empty()
    } else if stands_at(s, i, from) {
        to + spec_replace_from(s, from, to, i + from.len())
    } else {
        seq![s[i]] + spec_replace_from(s, from, to, i + 1)
    }
}

/// `s` with `to` in the place of every occurrence of `from`.
pub open spec fn spec_replace(s: Seq<char>, from: Seq<char>, to: Seq<char>) -> Seq<char> {
    spec_replace_from(s, from, to, 0)
}

/// Whether `pat` stands in `s` at position `i`.
pub fn pattern_at(s: &str, i: usize, pat: &str) -> (b: bool)
    ensures
        b == stands_at(s@, i as int, pat@),
{
    let n = s.unicode_len();
    let m = pat.unicode_len();
    if i > n || m > n - i {
        return false;
    }
    let mut j: usize = 0;
    while j < m
        invariant
            n == s@.len(),
            m == pat@.len(),
            i + m <= n,
            j <= m,
            s@.subrange(i as int, i + j) == pat@.subrange(0, j as int),
        decreases m - j,
    {
        if s.get_char(i + j) != pat.get_char(j) {
            proof {
                assert(s@.subrange(i as int, i + m)[j as int] == s@[i + j]);
            }
            return false;
        }
        proof {
            assert(s@.subrange(i as int, i + j + 1) == s@.subrange(i as int, i + j).push(
                s@[i + j],
            ));
            assert(pat@.subrange(0, j + 1) == pat@.subrange(0, j as int).push(pat@[j as int]));
        }
        j += 1;
    }
    proof {
        assert(pat@.subrange(0, m as int) == pat@);
    }
    true
}

/// `to` before every character of `s` and at its end.
fn spread_text(s: &str, to: &str) -> (r: String)
    ensures
        r@ == spec_replace(s@, Seq::<char>::empty(), to@),
{
    let n = s.unicode_len();
    let ghost none = Seq::<char>::empty();
    let mut r = String::new();
    let mut i: usize = 0;
    while i < n
        invariant
            n == s@.len(),
            i <= n,
            none.len() == 0,
            r@ + spec_replace_from(s@, none, to@, i as int) == spec_replace(s@, none, to@),
        decreases n - i,
    {
        let ghost before = r@;
        let c = s.get_char(i);
        r.append(to);
        r.push(c);
        proof {
            assert(before + (to@ + seq![c] + spec_replace_from(s@, none, to@, i + 1)) == (before
                + to@).push(c) + spec_replace_from(s@, none, to@, i + 1));
        }
        i += 1;
    }
    r.append(to);
    r
}

/// Replaces every occurrence of `from` in `s` by `to`, from left to right.
/// An empty `from` occurs before every character and at the end.
pub fn replace_text(s: &str, from: &str, to: &str) -> (r: String)
    ensures
        r@ == spec_replace(s@, from@, to@),
{
    let n = s.unicode_len();
    let m = from.unicode_len();
    if m == 0 {
        proof {
            assert(from@ == Seq::<char>::empty());
        }
        return spread_text(s, to);
    }
    let mut r = String::new();
    let mut i: usize = 0;
    while i < n
        invariant
            n == s@.len(),
            m == from@.len(),
            m > 0,
            i <= n,
            r@ + spec_replace_from(s@, from@, to@, i as int) == spec_replace(s@, from@, to@),
        decreases n - i,
    {
        let ghost before = r@;
        if pattern_at(s, i, from) {
            r.append(to);
            proof {
                assert(before + (to@ + spec_replace_from(s@, from@, to@, i + m)) == (before + to@)
                    + spec_replace_from(s@, from@, to@, i + m));
            }
            i += m;
        } else {
            let c = s.get_char(i);
            r.push(c);
            proof {
                assert(before + (seq![c] + spec_replace_from(s@, from@, to@, i + 1))
                    == before.push(c) + spec_replace_from(s@, from@, to@, i + 1));
            }
            i += 1;
        }
    }
    proof {
        assert(r@ + Seq::<char>::empty() == r@);
    }
    r
}

/// The characters a generated secret is drawn from. All of them may stand
/// between double quotes in a shell assignment.
pub const CHARSET: &'static str =
    "ABCDEFGHIJKLMNOPQRSTUVWXYZabcdefghijklmnopqrstuvwxyz0123456789)(*&^%#@!~";

pub const CHARSET_LEN: usize = 72;

pub open spec fn charset() -> Seq<char> {
    CHARSET@
}

pub proof fn lemma_charset_len()
    ensures
        charset().len() == CHARSET_LEN,
{
    reveal_strlit("ABCDEFGHIJKLMNOPQRSTUVWXYZabcdefghijklmnopqrstuvwxyz0123456789)(*&^%#@!~");
}

/// The secret that a sequence of draws spells: each draw picks one character
/// of the alphabet.
pub open spec fn spec_secret(draws: Seq<usize>) -> Seq<char> {
    Seq::new(draws.len(), |i: int| charset()[draws[i] as int])
}

/// Spells the secret for the values a random number generator drew.
pub fn secret_from_rng(draws: &Vec<usize>) -> (secret: String)
    requires
        forall|i: int| 0 <= i < draws@.len() ==> draws@[i] < CHARSET_LEN,
    ensures
        secret@ == spec_secret(draws@),
{
    let mut secret = String::new();
    let mut i: usize = 0;
    proof {
        lemma_charset_len();
    }
    while i < draws.len()
        invariant
            i <= draws@.len(),
            charset().len() == CHARSET_LEN,
            forall|j: int| 0 <= j < draws@.len() ==> draws@[j] < CHARSET_LEN,
            secret@ == spec_secret(draws@).subrange(0, i as int),
        decreases draws@.len() - i,
    {
        let c = CHARSET.get_char(draws[i]);
        secret.push(c);
        i += 1;
    }
    secret
}

} // verus!

//! Text handling on Unicode scalar values: trimming, splitting, searching,
//! replacing, padding, and decimal numbers.
//!
//! Contracts describe every string by the sequence of its characters.
use vstd::prelude::*;

verus! {

// ── Sequences of strings ─────────────────────────────────────────────────────

/// The characters of each string of a list.
pub open spec fn texts(list: Seq<String>) -> Seq<Seq<char>> {
    list.map_values(|s: String| s@)
}

/// The characters of an optional string.
pub open spec fn optional(text: Option<String>) -> Option<Seq<char>> {
    match text {
        Some(s) => Some(s@),
        None => None,
    }
}

/// The characters of an optional string slice.
pub open spec fn optional_str(text: Option<&str>) -> Option<Seq<char>> {
    match text {
        Some(s) => Some(s@),
        None => None,
    }
}

/// A borrowed view of an optional string.
pub fn as_deref(text: &Option<String>) -> (r: Option<&str>)
    ensures
        optional_str(r) == optional(*text),
{
    match text {
        Some(s) => Some(s.as_str()),
        None => None,
    }
}

/// Appending a string to a list appends its characters.
pub proof fn lemma_texts_push(list: Seq<String>, s: String)
    ensures
        texts(list.push(s)) == texts(list).push(s@),
{
    assert(texts(list.push(s)) =~= texts(list).push(s@));
}

/// The characters of a string, as a vector.
pub fn chars_of(s: &str) -> (r: Vec<char>)
    ensures
        r@ == s@,
{
    let mut r: Vec<char> = Vec::new();
    for c in it: s.chars()
        invariant
            it.seq() == s@,
            r@ == s@.take(it.index()),
    {
        assert(s@.take(it.index() + 1) =~= s@.take(it.index()).push(c));
        r.push(c);
    }
    assert(s@.take(s@.len() as int) =~= s@);
    r
}

/// Whether two strings hold the same characters.
pub fn same(a: &str, b: &str) -> (r: bool)
    ensures
        r == (a@ == b@),
{
    a.to_owned() == b.to_owned()
}


// ── White space ──────────────────────────────────────────────────────────────

/// The Unicode `White_Space` property.
pub open spec fn is_white(c: char) -> bool {
    ||| '\u{9}' <= c <= '\u{d}'
    ||| c == '\u{20}'
    ||| c == '\u{85}'
    ||| c == '\u{a0}'
    ||| c == '\u{1680}'
    ||| '\u{2000}' <= c <= '\u{200a}'
    ||| c == '\u{2028}'
    ||| c == '\u{2029}'
    ||| c == '\u{202f}'
    ||| c == '\u{205f}'
    ||| c == '\u{3000}'
}

/// Decides the Unicode `White_Space` property.
pub fn white(c: char) -> (r: bool)
    ensures
        r == is_white(c),
{
    ('\u{9}' <= c && c <= '\u{d}') || c == '\u{20}' || c == '\u{85}' || c == '\u{a0}' || c
        == '\u{1680}' || ('\u{2000}' <= c && c <= '\u{200a}') || c == '\u{2028}' || c == '\u{2029}'
        || c == '\u{202f}' || c == '\u{205f}' || c == '\u{3000}'
}

/// `s` without its leading white space.
pub open spec fn trimmed_start(s: Seq<char>) -> Seq<char>
    decreases s.len(),
{
    if s.len() > 0 && is_white(s[0]) {
        trimmed_start(s.skip(1))
    } else {
        s
    }
}

/// `s` without its trailing white space.
pub open spec fn trimmed_end(s: Seq<char>) -> Seq<char>
    decreases s.len(),
{
    if s.len() > 0 && is_white(s.last()) {
        trimmed_end(s.drop_last())
    } else {
        s
    }
}

/// `s` without leading and trailing white space.
pub open spec fn trimmed(s: Seq<char>) -> Seq<char> {
    trimmed_end(trimmed_start(s))
}

/// Removes leading and trailing white space.
pub fn trim(s: &str) -> (r: String)
    ensures
        r@ == trimmed(s@),
{
    let chars = chars_of(s);
    let n: usize = chars.len();
    let mut i: usize = 0;
    assert(s@.skip(0) =~= s@);
    while i < n && white(chars[i])
        invariant
            chars@ == s@,
            n == s@.len(),
            i <= n,
            trimmed_start(s@) == trimmed_start(s@.skip(i as int)),
        decreases n - i,
    {
        assert(s@.skip(i as int).skip(1) =~= s@.skip(i + 1));
        i = i + 1;
    }
    let ghost head = s@.skip(i as int);
    assert(trimmed_start(s@) == head);
    let mut j: usize = n;
    assert(s@.subrange(i as int, n as int) =~= head);
    while j > i && white(chars[j - 1])
        invariant
            chars@ == s@,
            n == s@.len(),
            i <= j <= n,
            head == s@.skip(i as int),
            trimmed_end(head) == trimmed_end(s@.subrange(i as int, j as int)),
        decreases j,
    {
        assert(s@.subrange(i as int, j as int).drop_last() =~= s@.subrange(i as int, j - 1));
        j = j - 1;
    }
    s.substring_char(i, j).to_owned()
}

// ── Words and lines ──────────────────────────────────────────────────────────

/// How many characters stand before the first white space of `s`.
pub open spec fn word_len(s: Seq<char>) -> nat
    decreases s.len(),
{
    if s.len() == 0 || is_white(s[0]) {
        0
    } else {
        1 + word_len(s.skip(1))
    }
}

/// The maximal runs of `s` without white space, in order.
pub open spec fn words(s: Seq<char>) -> Seq<Seq<char>>
    decreases s.len(),
{
    if s.len() == 0 {
        Seq::empty()
    } else if is_white(s[0]) {
        words(s.skip(1))
    } else {
        proof {
            lemma_word_len(s);
        }
        seq![s.take(word_len(s) as int)] + words(s.skip(word_len(s) as int))
    }
}

/// The leading run without white space ends in `s`, at its end or at white
/// space, and holds none.
pub proof fn lemma_word_len(s: Seq<char>)
    ensures
        word_len(s) <= s.len(),
        s.len() > 0 && !is_white(s[0]) ==> word_len(s) > 0,
        word_len(s) < s.len() ==> is_white(s[word_len(s) as int]),
        forall|i: int| 0 <= i < word_len(s) ==> !is_white(#[trigger] s[i]),
    decreases s.len(),
{
    if s.len() > 0 && !is_white(s[0]) {
        lemma_word_len(s.skip(1));
        assert forall|i: int| 0 <= i < word_len(s) implies !is_white(#[trigger] s[i]) by {
            if i > 0 {
                assert(s[i] == s.skip(1)[i - 1]);
            }
        }
    }
}

/// Splits at white space.
pub fn split_words(s: &str) -> (r: Vec<String>)
    ensures
        texts(r@) == words(s@),
{
    let chars = chars_of(s);
    let n: usize = chars.len();
    let mut out: Vec<String> = Vec::new();
    let mut i: usize = 0;
    assert(s@.skip(0) =~= s@);
    assert(texts(out@) + words(s@) =~= words(s@));
    while i < n
        invariant
            chars@ == s@,
            n == s@.len(),
            i <= n,
            words(s@) == texts(out@) + words(s@.skip(i as int)),
        decreases n - i,
    {
        let ghost rest = s@.skip(i as int);
        if white(chars[i]) {
            assert(rest.skip(1) =~= s@.skip(i + 1));
            i = i + 1;
        } else {
            let start: usize = i;
            assert(rest.skip(0) =~= rest);
            while i < n && !white(chars[i])
                invariant
                    chars@ == s@,
                    n == s@.len(),
                    start <= i <= n,
                    rest == s@.skip(start as int),
                    word_len(rest) == (i - start) + word_len(s@.skip(i as int)),
                decreases n - i,
            {
                assert(s@.skip(i as int).skip(1) =~= s@.skip(i + 1));
                i = i + 1;
            }
            let ghost before = out@;
            let word = s.substring_char(start, i).to_owned();
            out.push(word);
            proof {
                lemma_word_len(rest);
                lemma_texts_push(before, word);
                assert(word_len(rest) == i - start);
                assert(word@ =~= rest.take(word_len(rest) as int));
                assert(rest.skip(word_len(rest) as int) =~= s@.skip(i as int));
                assert(texts(before) + (seq![word@] + words(s@.skip(i as int))) =~= texts(out@)
                    + words(s@.skip(i as int)));
            }
        }
    }
    assert(words(s@.skip(n as int)) =~= Seq::<Seq<char>>::empty());
    assert(texts(out@) =~= words(s@));
    out
}

/// How many characters stand before the first `c` of `s`.
pub open spec fn run_before(s: Seq<char>, c: char) -> nat
    decreases s.len(),
{
    if s.len() == 0 || s[0] == c {
        0
    } else {
        1 + run_before(s.skip(1), c)
    }
}

/// The run before the first `c` ends in `s`, at its end or at that `c`.
pub proof fn lemma_run_before(s: Seq<char>, c: char)
    ensures
        run_before(s, c) <= s.len(),
        run_before(s, c) < s.len() ==> s[run_before(s, c) as int] == c,
        forall|i: int| 0 <= i < run_before(s, c) ==> #[trigger] s[i] != c,
    decreases s.len(),
{
    if s.len() > 0 && s[0] != c {
        lemma_run_before(s.skip(1), c);
        assert forall|i: int| 0 <= i < run_before(s, c) implies #[trigger] s[i] != c by {
            if i > 0 {
                assert(s[i] == s.skip(1)[i - 1]);
            }
        }
    }
}

/// Finds the first `c` at or after `from`, or the end.
fn index_from(chars: &Vec<char>, from: usize, c: char) -> (r: usize)
    requires
        from <= chars@.len(),
    ensures
        from <= r <= chars@.len(),
        r == from + run_before(chars@.skip(from as int), c),
{
    let mut i: usize = from;
    while i < chars.len() && chars[i] != c
        invariant
            from <= i <= chars@.len(),
            run_before(chars@.skip(from as int), c) == (i - from) + run_before(
                chars@.skip(i as int),
                c,
            ),
        decreases chars@.len() - i,
    {
        assert(chars@.skip(i as int).skip(1) =~= chars@.skip(i + 1));
        i = i + 1;
    }
    i
}

/// A line without the carriage return that ends it.
pub open spec fn without_return(line: Seq<char>) -> Seq<char> {
    if line.len() > 0 && line.last() == '\r' {
        line.drop_last()
    } else {
        line
    }
}

/// The lines of `s`. A line ends at `\n` or `\r\n`; the last needs no ending.
pub open spec fn lines(s: Seq<char>) -> Seq<Seq<char>>
    decreases s.len(),
{
    if s.len() == 0 {
        Seq::empty()
    } else if run_before(s, '\n') < s.len() {
        seq![without_return(s.take(run_before(s, '\n') as int))] + lines(
            s.skip(run_before(s, '\n') as int + 1),
        )
    } else {
        seq![s]
    }
}

/// Splits into lines.
pub fn split_lines(s: &str) -> (r: Vec<String>)
    ensures
        texts(r@) == lines(s@),
{
    let chars = chars_of(s);
    let n: usize = chars.len();
    let mut out: Vec<String> = Vec::new();
    let mut i: usize = 0;
    assert(s@.skip(0) =~= s@);
    assert(texts(out@) + lines(s@) =~= lines(s@));
    while i < n
        invariant
            chars@ == s@,
            n == s@.len(),
            i <= n,
            lines(s@) == texts(out@) + lines(s@.skip(i as int)),
        decreases n - i,
    {
        let ghost rest = s@.skip(i as int);
        let ghost before = out@;
        let end: usize = index_from(&chars, i, '\n');
        if end < n {
            let stop: usize = if end > i && chars[end - 1] == '\r' {
                end - 1
            } else {
                end
            };
            let line = s.substring_char(i, stop).to_owned();
            out.push(line);
            proof {
                let len = run_before(rest, '\n') as int;
                lemma_texts_push(before, line);
                assert(s@.subrange(i as int, end as int) =~= rest.take(len));
                assert(line@ =~= without_return(rest.take(len)));
                assert(rest.skip(len + 1) =~= s@.skip(end + 1));
                assert(texts(before) + (seq![line@] + lines(s@.skip(end + 1))) =~= texts(out@)
                    + lines(s@.skip(end + 1)));
            }
            i = end + 1;
        } else {
            let line = s.substring_char(i, n).to_owned();
            out.push(line);
            proof {
                lemma_texts_push(before, line);
                assert(line@ =~= rest);
                assert(s@.skip(n as int) =~= Seq::<char>::empty());
                assert(texts(before) + seq![line@] =~= texts(out@) + lines(s@.skip(n as int)));
            }
            i = n;
        }
    }
    assert(s@.skip(n as int) =~= Seq::<char>::empty());
    assert(texts(out@) =~= lines(s@));
    out
}

/// The pieces of `s` between the occurrences of `c`.
pub open spec fn pieces(s: Seq<char>, c: char) -> Seq<Seq<char>>
    decreases s.len(),
{
    if run_before(s, c) < s.len() {
        seq![s.take(run_before(s, c) as int)] + pieces(s.skip(run_before(s, c) as int + 1), c)
    } else {
        seq![s]
    }
}

/// Splits at every `c`.
pub fn split_at_char(s: &str, c: char) -> (r: Vec<String>)
    ensures
        texts(r@) == pieces(s@, c),
        r@.len() > 0,
{
    let chars = chars_of(s);
    let n: usize = chars.len();
    let mut out: Vec<String> = Vec::new();
    let mut i: usize = 0;
    assert(s@.skip(0) =~= s@);
    assert(texts(out@) + pieces(s@, c) =~= pieces(s@, c));
    loop
        invariant
            chars@ == s@,
            n == s@.len(),
            i <= n,
            pieces(s@, c) == texts(out@) + pieces(s@.skip(i as int), c),
        decreases n - i,
    {
        let ghost rest = s@.skip(i as int);
        let ghost before = out@;
        let end: usize = index_from(&chars, i, c);
        let piece = s.substring_char(i, end).to_owned();
        out.push(piece);
        proof {
            lemma_run_before(rest, c);
            lemma_texts_push(before, piece);
            assert(piece@ =~= rest.take(run_before(rest, c) as int));
        }
        if end < n {
            proof {
                assert(rest.skip(run_before(rest, c) as int + 1) =~= s@.skip(end + 1));
                assert(texts(before) + (seq![piece@] + pieces(s@.skip(end + 1), c)) =~= texts(out@)
                    + pieces(s@.skip(end + 1), c));
            }
            i = end + 1;
        } else {
            assert(piece@ =~= rest);
            assert(texts(before) + seq![piece@] =~= texts(out@));
            return out;
        }
    }
}

/// How many words stand before the first `word` of a list.
pub open spec fn words_before(list: Seq<Seq<char>>, word: Seq<char>) -> nat
    decreases list.len(),
{
    if list.len() == 0 || list[0] == word {
        0
    } else {
        1 + words_before(list.skip(1), word)
    }
}

/// The word behind the first `word` of a list, if there is one.
pub open spec fn word_after(list: Seq<Seq<char>>, word: Seq<char>) -> Option<Seq<char>> {
    if words_before(list, word) + 1 < list.len() {
        Some(list[words_before(list, word) as int + 1])
    } else {
        None
    }
}

/// Finds the word behind the first `word` of a list.
pub fn find_word_after<'a>(list: &'a Vec<String>, word: &str) -> (r: Option<&'a str>)
    ensures
        optional_str(r) == word_after(texts(list@), word@),
{
    let ghost all = texts(list@);
    let mut i: usize = 0;
    assert(all.skip(0) =~= all);
    while i < list.len() && !same(list[i].as_str(), word)
        invariant
            all == texts(list@),
            i <= list@.len(),
            words_before(all, word@) == i + words_before(all.skip(i as int), word@),
        decreases list@.len() - i,
    {
        assert(all.skip(i as int).skip(1) =~= all.skip(i + 1));
        i = i + 1;
    }
    if i < list.len() && list.len() - i > 1 {
        Some(list[i + 1].as_str())
    } else {
        None
    }
}

// ── Searching and replacing ──────────────────────────────────────────────────

/// Whether `part` stands in `s` at position `i`.
pub open spec fn stands_at(s: Seq<char>, part: Seq<char>, i: int) -> bool {
    0 <= i && i + part.len() <= s.len() && s.subrange(i, i + part.len()) == part
}

/// Whether `part` stands anywhere in `s`.
pub open spec fn occurs(s: Seq<char>, part: Seq<char>) -> bool {
    exists|i: int| stands_at(s, part, i)
}

/// Decides whether `part` stands in `s` at position `i`.
fn matches_at(s: &Vec<char>, part: &Vec<char>, i: usize) -> (r: bool)
    requires
        i <= s@.len(),
    ensures
        r == stands_at(s@, part@, i as int),
{
    if part.len() > s.len() - i {
        return false;
    }
    let ghost here = s@.subrange(i as int, i + part@.len());
    for k in 0..part.len()
        invariant
            i + part.len() <= s.len(),
            here == s@.subrange(i as int, i + part@.len()),
            forall|j: int| 0 <= j < k ==> here[j] == part@[j],
    {
        if s[i + k] != part[k] {
            assert(here[k as int] != part@[k as int]);
            return false;
        }
    }
    assert(here =~= part@);
    true
}

/// Decides whether `part` stands anywhere in `s`.
pub fn contains(s: &str, part: &str) -> (r: bool)
    ensures
        r == occurs(s@, part@),
{
    let chars = chars_of(s);
    let wanted = chars_of(part);
    let mut i: usize = 0;
    while i < chars.len()
        invariant
            chars@ == s@,
            wanted@ == part@,
            i <= s@.len(),
            forall|j: int| 0 <= j < i ==> !stands_at(s@, part@, j),
        decreases s@.len() - i,
    {
        if matches_at(&chars, &wanted, i) {
            return true;
        }
        i = i + 1;
    }
    matches_at(&chars, &wanted, i)
}

/// `s` with every `pattern` in it replaced by `value`: from the left, and not
/// looking into what was put in.
pub open spec fn replaced(s: Seq<char>, pattern: Seq<char>, value: Seq<char>) -> Seq<char>
    decreases s.len(),
{
    if pattern.len() == 0 || s.len() == 0 {
        s
    } else if stands_at(s, pattern, 0) {
        value + replaced(s.skip(pattern.len() as int), pattern, value)
    } else {
        seq![s[0]] + replaced(s.skip(1), pattern, value)
    }
}

/// Replaces every `pattern` by `value`.
pub fn replace(s: &str, pattern: &str, value: &str) -> (r: String)
    requires
        pattern@.len() > 0,
    ensures
        r@ == replaced(s@, pattern@, value@),
{
    let chars = chars_of(s);
    let wanted = chars_of(pattern);
    let n: usize = chars.len();
    let mut out = String::new();
    let mut start: usize = 0;
    let mut i: usize = 0;
    assert(s@.skip(0) =~= s@);
    assert(out@ + s@.subrange(0, 0) + replaced(s@, pattern@, value@) =~= replaced(
        s@,
        pattern@,
        value@,
    ));
    while i < n
        invariant
            chars@ == s@,
            wanted@ == pattern@,
            pattern@.len() > 0,
            n == s@.len(),
            start <= i <= n,
            replaced(s@, pattern@, value@) == out@ + s@.subrange(start as int, i as int) + replaced(
                s@.skip(i as int),
                pattern@,
                value@,
            ),
        decreases n - i,
    {
        let ghost rest = s@.skip(i as int);
        assert(stands_at(rest, pattern@, 0) == stands_at(s@, pattern@, i as int)) by {
            if i + pattern@.len() <= s@.len() {
                assert(rest.subrange(0, pattern@.len() as int) =~= s@.subrange(
                    i as int,
                    i + pattern@.len(),
                ));
            }
        }
        if matches_at(&chars, &wanted, i) {
            let ghost before = out@;
            let ghost kept = s@.subrange(start as int, i as int);
            out.append(s.substring_char(start, i));
            out.append(value);
            i = i + wanted.len();
            start = i;
            proof {
                let tail = replaced(s@.skip(i as int), pattern@, value@);
                assert(rest.skip(pattern@.len() as int) =~= s@.skip(i as int));
                assert(before + kept + (value@ + tail) =~= out@ + s@.subrange(
                    start as int,
                    i as int,
                ) + tail);
            }
        } else {
            proof {
                let tail = replaced(s@.skip(i + 1), pattern@, value@);
                assert(rest.skip(1) =~= s@.skip(i + 1));
                assert(out@ + s@.subrange(start as int, i as int) + (seq![rest[0]] + tail) =~= out@
                    + s@.subrange(start as int, i + 1) + tail);
            }
            i = i + 1;
        }
    }
    assert(s@.skip(n as int) =~= Seq::<char>::empty());
    let ghost before = out@;
    out.append(s.substring_char(start, n));
    assert(out@ =~= before + s@.subrange(start as int, n as int) + Seq::<char>::empty());
    out
}

/// `s` without the `c`s it starts with.
pub open spec fn without_leading(s: Seq<char>, c: char) -> Seq<char>
    decreases s.len(),
{
    if s.len() > 0 && s[0] == c {
        without_leading(s.skip(1), c)
    } else {
        s
    }
}

/// Removes every `c` at the start.
pub fn strip_leading(s: &str, c: char) -> (r: String)
    ensures
        r@ == without_leading(s@, c),
{
    let chars = chars_of(s);
    let mut i: usize = 0;
    assert(s@.skip(0) =~= s@);
    while i < chars.len() && chars[i] == c
        invariant
            chars@ == s@,
            i <= s@.len(),
            without_leading(s@, c) == without_leading(s@.skip(i as int), c),
        decreases s@.len() - i,
    {
        assert(s@.skip(i as int).skip(1) =~= s@.skip(i + 1));
        i = i + 1;
    }
    let r = s.substring_char(i, chars.len()).to_owned();
    assert(r@ =~= s@.skip(i as int));
    r
}

/// `s` without the copies of `suffix` it ends with.
pub open spec fn without_trailing(s: Seq<char>, suffix: Seq<char>) -> Seq<char>
    decreases s.len(),
{
    if suffix.len() > 0 && stands_at(s, suffix, s.len() - suffix.len()) {
        without_trailing(s.take(s.len() - suffix.len()), suffix)
    } else {
        s
    }
}

/// Removes every copy of `suffix` at the end.
pub fn strip_trailing(s: &str, suffix: &str) -> (r: String)
    requires
        suffix@.len() > 0,
    ensures
        r@ == without_trailing(s@, suffix@),
{
    let chars = chars_of(s);
    let wanted = chars_of(suffix);
    let mut n: usize = chars.len();
    assert(s@.take(n as int) =~= s@);
    while n >= wanted.len() && matches_at(&chars, &wanted, n - wanted.len())
        invariant
            chars@ == s@,
            wanted@ == suffix@,
            suffix@.len() > 0,
            n <= s@.len(),
            without_trailing(s@, suffix@) == without_trailing(s@.take(n as int), suffix@),
        decreases n,
    {
        proof {
            let here = s@.take(n as int);
            let cut = n - suffix@.len();
            assert(here.subrange(cut, n as int) =~= s@.subrange(cut, n as int));
            assert(stands_at(here, suffix@, here.len() - suffix@.len()));
            assert(here.take(cut) =~= s@.take(cut));
        }
        n = n - wanted.len();
    }
    proof {
        let here = s@.take(n as int);
        if n >= suffix@.len() {
            let cut = n - suffix@.len();
            assert(here.subrange(cut, n as int) =~= s@.subrange(cut, n as int));
        }
        assert(without_trailing(here, suffix@) == here);
    }
    let r = s.substring_char(0, n).to_owned();
    assert(r@ =~= s@.take(n as int));
    r
}

// ── Formatting ───────────────────────────────────────────────────────────────

/// `s` followed by as many spaces as bring it to `width` characters.
pub open spec fn padded(s: Seq<char>, width: nat) -> Seq<char> {
    if s.len() >= width {
        s
    } else {
        s + Seq::new((width - s.len()) as nat, |i: int| ' ')
    }
}

/// Pads with spaces on the right, up to `width` characters.
pub fn pad(s: &str, width: usize) -> (r: String)
    ensures
        r@ == padded(s@, width as nat),
{
    let mut out = s.to_owned();
    let mut n: usize = s.unicode_len();
    assert(out@ =~= s@ + Seq::new(0, |i: int| ' '));
    while n < width
        invariant
            n == out@.len(),
            s@.len() <= n,
            n <= width || n == s@.len(),
            out@ == s@ + Seq::new((n - s@.len()) as nat, |i: int| ' '),
        decreases width - n,
    {
        proof {
            reveal_strlit(" ");
        }
        out.append(" ");
        n = n + 1;
        assert(out@ =~= s@ + Seq::new((n - s@.len()) as nat, |i: int| ' '));
    }
    assert(out@ =~= padded(s@, width as nat));
    out
}

/// The decimal digit `d`.
pub open spec fn digit(d: nat) -> Seq<char> {
    "0123456789"@.subrange(d as int, d as int + 1)
}

/// `n` in decimal, without leading zeros.
pub open spec fn decimal(n: nat) -> Seq<char>
    decreases n,
{
    if n < 10 {
        digit(n)
    } else {
        decimal(n / 10) + digit(n % 10)
    }
}

/// Writes a number in decimal.
pub fn decimal_text(n: u32) -> (r: String)
    ensures
        r@ == decimal(n as nat),
    decreases n,
{
    proof {
        reveal_strlit("0123456789");
    }
    let last: usize = (n % 10) as usize;
    let unit = "0123456789".substring_char(last, last + 1);
    if n < 10 {
        unit.to_owned()
    } else {
        decimal_text(n / 10).concat(unit)
    }
}

// ── Conversions of std ───────────────────────────────────────────────────────

/// What `str::to_lowercase` makes of a string with these characters.
pub uninterp spec fn lowercase(s: Seq<char>) -> Seq<char>;

/// The lower-case form of an ASCII character; any other stays.
pub open spec fn ascii_lower(c: char) -> char {
    if 'A' <= c <= 'Z' {
        (c as u32 + 32) as char
    } else {
        c
    }
}

/// An ASCII string in lower case.
pub open spec fn ascii_lowercase(s: Seq<char>) -> Seq<char> {
    s.map_values(|c: char| ascii_lower(c))
}

/// Calls `str::to_lowercase`. Claims that the result depends on the characters
/// alone, and that an ASCII string has its letters `A` to `Z` put in lower case
/// and keeps every other character.
#[verifier::external_body]
pub(crate) fn to_lowercase(s: &str) -> (r: String)
    ensures
        r@ == lowercase(s@),
        vstd::utf8::is_ascii_chars(s@) ==> r@ == ascii_lowercase(s@),
{
    s.to_lowercase()
}

/// What `String::from_utf8_lossy` makes of these bytes.
pub uninterp spec fn utf8_lossy(bytes: Seq<u8>) -> Seq<char>;

/// Calls `String::from_utf8_lossy`. Claims that the result depends on the bytes
/// alone, and that valid UTF-8 is decoded unchanged.
#[verifier::external_body]
pub(crate) fn from_utf8_lossy(bytes: &[u8]) -> (r: String)
    ensures
        r@ == utf8_lossy(bytes@),
        vstd::utf8::valid_utf8(bytes@) ==> r@ == vstd::utf8::decode_utf8(bytes@),
{
    String::from_utf8_lossy(bytes).into_owned()
}

} // verus!

//! Texts taken apart and put together again.
use crate::laws;
use crate::net;
use crate::text;
use vstd::prelude::*;

verus! {

// ── White space ──────────────────────────────────────────────────────────────

/// Whether a text is nothing but white space.
pub open spec fn is_blank(s: Seq<char>) -> bool {
    forall|i: int| 0 <= i < s.len() ==> text::is_white(#[trigger] s[i])
}

/// White space around a text is removed, and nothing else: the text stays from
/// its first to its last character that is not white.
pub proof fn trimming_removes_the_surrounding_space(
    lead: Seq<char>,
    s: Seq<char>,
    trail: Seq<char>,
)
    requires
        is_blank(lead),
        is_blank(trail),
        s.len() > 0 ==> !text::is_white(s[0]) && !text::is_white(s.last()),
    ensures
        text::trimmed(lead + s + trail) == s,
{
    lemma_trim_lead(lead, s + trail);
    assert(lead + s + trail =~= lead + (s + trail));
    if s.len() > 0 {
        assert((s + trail)[0] == s[0]);
        assert(text::trimmed_start(s + trail) == s + trail);
        lemma_trim_trail(s, trail);
    } else {
        assert(s + trail =~= trail);
        lemma_trim_lead(trail, Seq::empty());
        assert(trail + Seq::<char>::empty() =~= trail);
        assert(text::trimmed_start(Seq::<char>::empty()) =~= Seq::<char>::empty());
        assert(text::trimmed_end(Seq::<char>::empty()) =~= s);
    }
}

proof fn lemma_trim_lead(lead: Seq<char>, s: Seq<char>)
    requires
        is_blank(lead),
    ensures
        text::trimmed_start(lead + s) == text::trimmed_start(s),
    decreases lead.len(),
{
    if lead.len() == 0 {
        assert(lead + s =~= s);
    } else {
        assert((lead + s)[0] == lead[0]);
        assert((lead + s).skip(1) =~= lead.skip(1) + s);
        assert(is_blank(lead.skip(1))) by {
            assert forall|i: int| 0 <= i < lead.skip(1).len() implies text::is_white(
                #[trigger] lead.skip(1)[i],
            ) by {
                assert(text::is_white(lead[i + 1]));
            }
        }
        lemma_trim_lead(lead.skip(1), s);
    }
}

proof fn lemma_trim_trail(s: Seq<char>, trail: Seq<char>)
    requires
        is_blank(trail),
        s.len() > 0,
        !text::is_white(s.last()),
    ensures
        text::trimmed_end(s + trail) == s,
    decreases trail.len(),
{
    if trail.len() == 0 {
        assert(s + trail =~= s);
    } else {
        assert((s + trail).last() == trail.last());
        assert((s + trail).drop_last() =~= s + trail.drop_last());
        assert(is_blank(trail.drop_last())) by {
            assert forall|i: int| 0 <= i < trail.drop_last().len() implies text::is_white(
                #[trigger] trail.drop_last()[i],
            ) by {
                assert(text::is_white(trail[i]));
            }
        }
        lemma_trim_trail(s, trail.drop_last());
    }
}

/// A word is taken as it is, up to the white space behind it; white space in
/// front of a text adds no word.
pub proof fn words_are_what_stands_between_white_space(
    word: Seq<char>,
    c: char,
    rest: Seq<char>,
)
    requires
        laws::is_word(word),
        text::is_white(c),
    ensures
        text::words(word + seq![c] + rest) == seq![word] + text::words(rest),
        text::words(seq![c] + rest) == text::words(rest),
        text::words(word) == seq![word],
        text::words(Seq::<char>::empty()) == Seq::<Seq<char>>::empty(),
{
    let tail = seq![c] + rest;
    let whole = word + tail;
    assert(word + seq![c] + rest =~= whole);
    laws::lemma_word_len_of(word, tail);
    assert(whole[0] == word[0]);
    assert(whole.take(word.len() as int) =~= word);
    assert(whole.skip(word.len() as int) =~= tail);
    assert(tail.skip(1) =~= rest);
    assert(text::words(tail) == text::words(rest));
    let nothing = Seq::<char>::empty();
    laws::lemma_word_len_of(word, nothing);
    assert(word + nothing =~= word);
    assert(word.take(word.len() as int) =~= word);
    assert(word.skip(word.len() as int) =~= nothing);
    assert(text::words(nothing) =~= Seq::<Seq<char>>::empty());
    assert(text::words(word) =~= seq![word]);
}

// ── Lines ────────────────────────────────────────────────────────────────────

/// Whether a text is part of one line.
pub open spec fn is_line(s: Seq<char>) -> bool {
    forall|i: int| 0 <= i < s.len() ==> #[trigger] s[i] != '\n'
}

/// How far the first `c` is, behind a text without one.
pub proof fn lemma_run_before_of(s: Seq<char>, rest: Seq<char>, c: char)
    requires
        forall|i: int| 0 <= i < s.len() ==> #[trigger] s[i] != c,
        rest.len() > 0 ==> rest[0] == c,
    ensures
        text::run_before(s + rest, c) == s.len(),
    decreases s.len(),
{
    if s.len() == 0 {
        assert(s + rest =~= rest);
    } else {
        assert((s + rest)[0] == s[0]);
        assert((s + rest).skip(1) =~= s.skip(1) + rest);
        assert forall|i: int| 0 <= i < s.skip(1).len() implies #[trigger] s.skip(1)[i] != c by {
            assert(s[i + 1] != c);
        }
        lemma_run_before_of(s.skip(1), rest, c);
    }
}

/// A line ends at the newline behind it, with or without a return, and the
/// lines behind that follow; a text without a newline is a line of its own,
/// unless it is empty.
pub proof fn lines_end_at_newlines(line: Seq<char>, rest: Seq<char>)
    requires
        is_line(line),
        line.len() > 0 ==> line.last() != '\r',
    ensures
        text::lines(line + seq!['\n'] + rest) == seq![line] + text::lines(rest),
        text::lines(line + seq!['\r', '\n'] + rest) == seq![line] + text::lines(rest),
        line.len() > 0 ==> text::lines(line) == seq![line],
        text::lines(Seq::<char>::empty()) == Seq::<Seq<char>>::empty(),
{
    let tail = seq!['\n'] + rest;
    let whole = line + tail;
    assert(line + seq!['\n'] + rest =~= whole);
    lemma_run_before_of(line, tail, '\n');
    assert(whole.take(line.len() as int) =~= line);
    assert(whole.skip(line.len() as int + 1) =~= rest);
    let returned = line + seq!['\r'];
    let other = returned + tail;
    assert(line + seq!['\r', '\n'] + rest =~= other);
    assert(is_line(returned));
    lemma_run_before_of(returned, tail, '\n');
    assert(other.take(returned.len() as int) =~= returned);
    assert(returned.drop_last() =~= line);
    assert(other.skip(returned.len() as int + 1) =~= rest);
    lemma_run_before_of(line, Seq::empty(), '\n');
    assert(line + Seq::<char>::empty() =~= line);
}

/// The lines of a text that ends in a line of its own are those before it, and
/// that line.
pub proof fn the_last_line_stands_behind_the_last_newline(before: Seq<char>, line: Seq<char>)
    requires
        is_line(line),
        line.len() > 0,
    ensures
        text::lines(before + seq!['\n'] + line).len() > 0,
        text::lines(before + seq!['\n'] + line).last() == line,
    decreases before.len(),
{
    let whole = before + seq!['\n'] + line;
    let n = text::run_before(whole, '\n') as int;
    text::lemma_run_before(whole, '\n');
    assert(whole[before.len() as int] == '\n');
    assert(n <= before.len());
    let rest = whole.skip(n + 1);
    if n == before.len() {
        assert(rest =~= line);
        lemma_run_before_of(line, Seq::empty(), '\n');
        assert(line + Seq::<char>::empty() =~= line);
        assert(text::lines(line) == seq![line]);
    } else {
        let shorter = before.skip(n + 1);
        assert(rest =~= shorter + seq!['\n'] + line);
        the_last_line_stands_behind_the_last_newline(shorter, line);
    }
}

/// A text is split at a character: what stands before it, and the pieces of
/// what stands behind it; without the character it is one piece.
pub proof fn pieces_are_what_stands_between(piece: Seq<char>, c: char, rest: Seq<char>)
    requires
        forall|i: int| 0 <= i < piece.len() ==> #[trigger] piece[i] != c,
    ensures
        text::pieces(piece + seq![c] + rest, c) == seq![piece] + text::pieces(rest, c),
        text::pieces(piece, c) == seq![piece],
{
    let tail = seq![c] + rest;
    let whole = piece + tail;
    assert(piece + seq![c] + rest =~= whole);
    lemma_run_before_of(piece, tail, c);
    assert(whole.take(piece.len() as int) =~= piece);
    assert(whole.skip(piece.len() as int + 1) =~= rest);
    lemma_run_before_of(piece, Seq::empty(), c);
    assert(piece + Seq::<char>::empty() =~= piece);
}

// ── Searching ────────────────────────────────────────────────────────────────

/// The word behind the first occurrence of a word is found, and none if there
/// is no such word or nothing behind it.
pub proof fn the_word_behind_is_found(
    before: Seq<Seq<char>>,
    word: Seq<char>,
    value: Seq<char>,
    after: Seq<Seq<char>>,
)
    requires
        !before.contains(word),
    ensures
        text::word_after(before + seq![word, value] + after, word) == Some(value),
        text::word_after(before + seq![word], word) == None::<Seq<char>>,
        text::word_after(before, word) == None::<Seq<char>>,
{
    let nothing = Seq::<Seq<char>>::empty();
    lemma_words_before(before, seq![word, value] + after, word);
    lemma_words_before(before, seq![word], word);
    lemma_words_before(before, nothing, word);
    assert(before + seq![word, value] + after =~= before + (seq![word, value] + after));
    assert(before + nothing =~= before);
}

proof fn lemma_words_before(before: Seq<Seq<char>>, rest: Seq<Seq<char>>, word: Seq<char>)
    requires
        !before.contains(word),
        rest.len() > 0 ==> rest[0] == word,
    ensures
        text::words_before(before + rest, word) == before.len(),
    decreases before.len(),
{
    if before.len() == 0 {
        assert(before + rest =~= rest);
    } else {
        assert(before.contains(before[0]));
        assert((before + rest)[0] == before[0]);
        assert((before + rest).skip(1) =~= before.skip(1) + rest);
        assert(!before.skip(1).contains(word)) by {
            if before.skip(1).contains(word) {
                let i = before.skip(1).index_of(word);
                assert(before[i + 1] == word);
            }
        }
        lemma_words_before(before.skip(1), rest, word);
    }
}

/// A part occurs in a text exactly if the text can be written around it.
pub proof fn a_part_occurs_where_a_text_is_written_around_it(s: Seq<char>, part: Seq<char>)
    ensures
        text::occurs(s, part) <==> exists|a: Seq<char>, b: Seq<char>|
            s == #[trigger] (a + part + b),
{
    if text::occurs(s, part) {
        let i = choose|i: int| text::stands_at(s, part, i);
        let a = s.take(i);
        let b = s.skip(i + part.len());
        assert(s =~= a + part + b);
    }
    if exists|a: Seq<char>, b: Seq<char>| s == #[trigger] (a + part + b) {
        let (a, b) = choose|a: Seq<char>, b: Seq<char>| s == #[trigger] (a + part + b);
        lemma_occurs(a, part, b);
    }
}

/// A part occurs in what is written around it.
pub proof fn lemma_occurs(a: Seq<char>, part: Seq<char>, b: Seq<char>)
    ensures
        text::occurs(a + part + b, part),
{
    let s = a + part + b;
    assert(s.subrange(a.len() as int, (a.len() + part.len()) as int) =~= part);
    assert(text::stands_at(s, part, a.len() as int));
}

/// Copies of a character in front of a text are removed, and nothing else.
pub proof fn leading_copies_are_removed(n: nat, c: char, s: Seq<char>)
    requires
        s.len() > 0 ==> s[0] != c,
    ensures
        text::without_leading(Seq::new(n, |i: int| c) + s, c) == s,
    decreases n,
{
    let whole = Seq::new(n, |i: int| c) + s;
    if n == 0 {
        assert(whole =~= s);
    } else {
        assert(whole.skip(1) =~= Seq::new((n - 1) as nat, |i: int| c) + s);
        leading_copies_are_removed((n - 1) as nat, c, s);
    }
}

/// Copies of a suffix behind a text are removed, and nothing else.
pub proof fn trailing_copies_are_removed(s: Seq<char>, suffix: Seq<char>)
    requires
        suffix.len() > 0,
    ensures
        text::without_trailing(s + suffix, suffix) == text::without_trailing(s, suffix),
        !(exists|a: Seq<char>| s == #[trigger] (a + suffix)) ==> text::without_trailing(s, suffix)
            == s,
{
    let whole = s + suffix;
    assert(whole.subrange(s.len() as int, whole.len() as int) =~= suffix);
    assert(whole.take(s.len() as int) =~= s);
    if text::stands_at(s, suffix, s.len() - suffix.len()) {
        let a = s.take(s.len() - suffix.len());
        assert(s =~= a + suffix);
    }
}

// ── Formatting ───────────────────────────────────────────────────────────────

/// A padded text is the text, and behind it as many spaces as are missing to
/// the width.
pub proof fn padding_adds_spaces_up_to_the_width(s: Seq<char>, width: nat)
    ensures
        text::padded(s, width).len() == (if s.len() < width {
            width
        } else {
            s.len()
        }),
        text::padded(s, width).take(s.len() as int) == s,
        forall|i: int|
            s.len() <= i < text::padded(s, width).len() ==> #[trigger] text::padded(s, width)[i]
                == ' ',
{
    assert(text::padded(s, width).take(s.len() as int) =~= s);
}

/// A number in decimal consists of digits, without a zero in front, and stands
/// for the number.
pub proof fn decimals_stand_for_their_numbers(n: nat)
    ensures
        forall|i: int|
            0 <= i < text::decimal(n).len() ==> '0' <= #[trigger] text::decimal(n)[i] <= '9',
        text::decimal(n).len() > 0,
        text::decimal(n).len() > 1 ==> text::decimal(n)[0] != '0',
        n > 0 ==> text::decimal(n)[0] != '0',
        net::number(text::decimal(n)) == n,
    decreases n,
{
    reveal_strlit("0123456789");
    let digits = "0123456789"@;
    assert(digits.len() == 10);
    assert(forall|d: int| 0 <= d < 10 ==> #[trigger] digits[d] as int == '0' as int + d) by {
        assert(digits[0] == '0' && digits[1] == '1' && digits[2] == '2' && digits[3] == '3'
            && digits[4] == '4' && digits[5] == '5' && digits[6] == '6' && digits[7] == '7'
            && digits[8] == '8' && digits[9] == '9');
    }
    if n < 10 {
        let d = text::decimal(n);
        assert(d.len() == 1 && d[0] == digits[n as int]);
        assert(d.drop_last() =~= Seq::<char>::empty());
        assert(net::number(d.drop_last()) == 0);
    } else {
        let front = text::decimal(n / 10);
        let unit = text::digit(n % 10);
        decimals_stand_for_their_numbers(n / 10);
        assert(unit.len() == 1 && unit[0] == digits[(n % 10) as int]);
        assert(text::decimal(n) =~= front + unit);
        assert((front + unit).drop_last() =~= front);
        assert((front + unit).last() == unit[0]);
    }
}

// ── Addresses ────────────────────────────────────────────────────────────────

/// Four numbers in dotted notation.
pub open spec fn dotted(a: nat, b: nat, c: nat, d: nat) -> Seq<char> {
    text::decimal(a) + seq!['.'] + (text::decimal(b) + seq!['.'] + (text::decimal(c) + seq!['.']
        + text::decimal(d)))
}

proof fn lemma_no_dot(n: nat)
    ensures
        forall|i: int| 0 <= i < text::decimal(n).len() ==> #[trigger] text::decimal(n)[i] != '.',
{
    decimals_stand_for_their_numbers(n);
}

/// A part of a dotted address is a number below 256 in decimal, and nothing
/// else.
pub proof fn octets_are_numbers_below_256(n: nat, part: Seq<char>)
    ensures
        net::is_octet(text::decimal(n)) <==> n < 256,
        net::is_octet(part) ==> net::number(part) < 256 && part == text::decimal(
            net::number(part) as nat,
        ),
{
    decimals_stand_for_their_numbers(n);
    lemma_decimal_len(n);
    if net::is_octet(part) {
        lemma_octet_decimal(part);
    }
}

proof fn lemma_decimal_len(n: nat)
    ensures
        n < 256 ==> text::decimal(n).len() <= 3,
{
    reveal_with_fuel(text::decimal, 4);
    reveal_strlit("0123456789");
}

proof fn lemma_octet_decimal(part: Seq<char>)
    requires
        1 <= part.len() <= 3,
        forall|i: int| 0 <= i < part.len() ==> net::is_digit(#[trigger] part[i]),
        part.len() > 1 ==> part[0] != '0',
    ensures
        net::number(part) >= 0,
        part.len() > 1 ==> net::number(part) >= 10,
        part[0] != '0' ==> net::number(part) >= 1,
        part == text::decimal(net::number(part) as nat),
    decreases part.len(),
{
    reveal_strlit("0123456789");
    let digits = "0123456789"@;
    assert(forall|d: int| 0 <= d < 10 ==> #[trigger] digits[d] as int == '0' as int + d) by {
        assert(digits[0] == '0' && digits[1] == '1' && digits[2] == '2' && digits[3] == '3'
            && digits[4] == '4' && digits[5] == '5' && digits[6] == '6' && digits[7] == '7'
            && digits[8] == '8' && digits[9] == '9');
    }
    let front = part.drop_last();
    let d = part.last() as int - '0' as int;
    assert(net::is_digit(part[part.len() - 1]));
    assert(part.last() == digits[d]);
    if part.len() == 1 {
        assert(net::number(front) == 0);
        assert(text::digit(d as nat) =~= part);
    } else {
        assert(net::is_digit(part[0]));
        assert forall|i: int| 0 <= i < front.len() implies net::is_digit(#[trigger] front[i]) by {
            assert(net::is_digit(part[i]));
        }
        lemma_octet_decimal(front);
        let n = net::number(front);
        assert(n >= 1);
        assert(net::number(part) == n * 10 + d);
        assert((n * 10 + d) / 10 == n && (n * 10 + d) % 10 == d);
        assert(text::digit(d as nat) =~= seq![part.last()]);
        assert(front + seq![part.last()] =~= part);
    }
}

/// Four numbers in dotted notation are an address exactly if each is below
/// 256, and a loopback address exactly if the first is 127.
pub proof fn dotted_numbers_are_addresses(a: nat, b: nat, c: nat, d: nat)
    ensures
        net::is_ipv4(dotted(a, b, c, d)) <==> a < 256 && b < 256 && c < 256 && d < 256,
        net::is_loopback(dotted(a, b, c, d)) <==> a == 127,
{
    let address = dotted(a, b, c, d);
    lemma_no_dot(a);
    lemma_no_dot(b);
    lemma_no_dot(c);
    lemma_no_dot(d);
    let last = text::decimal(d);
    let two = text::decimal(c) + seq!['.'] + last;
    let three = text::decimal(b) + seq!['.'] + two;
    pieces_are_what_stands_between(last, '.', last);
    pieces_are_what_stands_between(text::decimal(c), '.', last);
    pieces_are_what_stands_between(text::decimal(b), '.', two);
    pieces_are_what_stands_between(text::decimal(a), '.', three);
    let parts = text::pieces(address, '.');
    assert(parts =~= seq![text::decimal(a), text::decimal(b), text::decimal(c), text::decimal(d)]);
    octets_are_numbers_below_256(a, parts[0]);
    octets_are_numbers_below_256(b, parts[1]);
    octets_are_numbers_below_256(c, parts[2]);
    octets_are_numbers_below_256(d, parts[3]);
    decimals_stand_for_their_numbers(a);
    reveal_strlit("127");
    if parts[0] == "127"@ {
        let s = parts[0];
        assert(s.drop_last().drop_last().drop_last() =~= Seq::<char>::empty());
        reveal_with_fuel(net::number, 4);
        assert(net::number(s) == 127);
    }
    if a == 127 {
        reveal_with_fuel(text::decimal, 4);
        reveal_strlit("0123456789");
        assert(text::decimal(127) =~= "127"@);
    }
}

/// Every address is four numbers below 256 in dotted notation.
pub proof fn addresses_are_dotted_numbers(address: Seq<char>)
    requires
        net::is_ipv4(address),
    ensures
        exists|a: nat, b: nat, c: nat, d: nat|
            a < 256 && b < 256 && c < 256 && d < 256 && address == #[trigger] dotted(a, b, c, d),
{
    let parts = text::pieces(address, '.');
    assert(net::is_octet(parts[0]) && net::is_octet(parts[1]) && net::is_octet(parts[2])
        && net::is_octet(parts[3]));
    octets_are_numbers_below_256(0, parts[0]);
    octets_are_numbers_below_256(0, parts[1]);
    octets_are_numbers_below_256(0, parts[2]);
    octets_are_numbers_below_256(0, parts[3]);
    lemma_octet_decimal(parts[0]);
    lemma_octet_decimal(parts[1]);
    lemma_octet_decimal(parts[2]);
    lemma_octet_decimal(parts[3]);
    let a = net::number(parts[0]) as nat;
    let b = net::number(parts[1]) as nat;
    let c = net::number(parts[2]) as nat;
    let d = net::number(parts[3]) as nat;
    lemma_pieces_joined(address, '.');
    let r1 = address.skip(parts[0].len() as int + 1);
    let r2 = r1.skip(parts[1].len() as int + 1);
    let r3 = r2.skip(parts[2].len() as int + 1);
    assert(text::pieces(r1, '.') =~= parts.skip(1));
    lemma_pieces_joined(r1, '.');
    assert(text::pieces(r2, '.') =~= parts.skip(2));
    lemma_pieces_joined(r2, '.');
    assert(text::pieces(r3, '.') =~= parts.skip(3));
    lemma_pieces_joined(r3, '.');
    assert(address =~= dotted(a, b, c, d));
}

/// A text is its first piece, and what follows behind it.
proof fn lemma_pieces_joined(s: Seq<char>, c: char)
    ensures
        text::pieces(s, c).len() > 0,
        text::pieces(s, c).len() == 1 ==> s == text::pieces(s, c)[0],
        text::pieces(s, c).len() > 1 ==> {
            let first = text::pieces(s, c)[0];
            let rest = s.skip(first.len() as int + 1);
            &&& s == first + seq![c] + rest
            &&& text::pieces(rest, c) == text::pieces(s, c).skip(1)
        },
{
    text::lemma_run_before(s, c);
    let n = text::run_before(s, c) as int;
    if n < s.len() {
        let first = s.take(n);
        let rest = s.skip(n + 1);
        assert(s =~= first + seq![c] + rest);
        assert((seq![first] + text::pieces(rest, c)).skip(1) =~= text::pieces(rest, c));
        assert(text::pieces(rest, c).len() > 0);
    }
}

/// The first place where a pattern stands gets the value, and what is behind it
/// is searched on its own.
pub proof fn the_first_occurrence_is_replaced(
    before: Seq<char>,
    pattern: Seq<char>,
    after: Seq<char>,
    value: Seq<char>,
)
    requires
        pattern.len() > 0,
        !before.contains(pattern[0]),
    ensures
        text::replaced(before + pattern + after, pattern, value) == before + value
            + text::replaced(after, pattern, value),
    decreases before.len(),
{
    let s = before + pattern + after;
    if before.len() == 0 {
        assert(s.subrange(0, pattern.len() as int) =~= pattern);
        assert(text::stands_at(s, pattern, 0));
        assert(s.skip(pattern.len() as int) =~= after);
        assert(before + value =~= value);
    } else {
        assert(before.contains(before[0]));
        assert(s[0] == before[0]);
        if text::stands_at(s, pattern, 0) {
            assert(s.subrange(0, pattern.len() as int)[0] == s[0]);
        }
        let rest = before.skip(1);
        if rest.contains(pattern[0]) {
            let i = choose|i: int| 0 <= i < rest.len() && rest[i] == pattern[0];
            assert(before[i + 1] == pattern[0]);
        }
        the_first_occurrence_is_replaced(rest, pattern, after, value);
        assert(s.skip(1) =~= rest + pattern + after);
        assert(before + value + text::replaced(after, pattern, value) =~= seq![before[0]] + (rest
            + value + text::replaced(after, pattern, value)));
    }
}

/// Where the beginning of a pattern is nowhere, nothing is replaced.
pub proof fn a_text_without_the_pattern_stays(s: Seq<char>, pattern: Seq<char>, value: Seq<char>)
    requires
        pattern.len() > 0,
        !s.contains(pattern[0]),
    ensures
        text::replaced(s, pattern, value) == s,
    decreases s.len(),
{
    if s.len() > 0 {
        assert(s.contains(s[0]));
        if text::stands_at(s, pattern, 0) {
            assert(s.subrange(0, pattern.len() as int)[0] == s[0]);
        }
        let rest = s.skip(1);
        if rest.contains(pattern[0]) {
            let i = choose|i: int| 0 <= i < rest.len() && rest[i] == pattern[0];
            assert(s[i + 1] == pattern[0]);
        }
        a_text_without_the_pattern_stays(rest, pattern, value);
        assert(seq![s[0]] + rest =~= s);
    }
}

/// Of the ASCII characters, the white ones are the space and those from the tab
/// to the carriage return.
pub proof fn ascii_white_space(c: char)
    requires
        c <= '\u{7f}',
    ensures
        text::is_white(c) <==> c == ' ' || c == '\t' || c == '\n' || c == '\u{b}' || c == '\u{c}'
            || c == '\r',
{
}

/// Beyond ASCII, the white characters are the next line, the no-break space, and
/// the spaces and separators that Unicode counts as white space.
pub proof fn unicode_white_space(c: char)
    requires
        c > '\u{7f}',
    ensures
        text::is_white(c) <==> seq![
            '\u{85}',
            '\u{a0}',
            '\u{1680}',
            '\u{2000}',
            '\u{2001}',
            '\u{2002}',
            '\u{2003}',
            '\u{2004}',
            '\u{2005}',
            '\u{2006}',
            '\u{2007}',
            '\u{2008}',
            '\u{2009}',
            '\u{200a}',
            '\u{2028}',
            '\u{2029}',
            '\u{202f}',
            '\u{205f}',
            '\u{3000}',
        ].contains(c),
{
    let white = seq![
        '\u{85}',
        '\u{a0}',
        '\u{1680}',
        '\u{2000}',
        '\u{2001}',
        '\u{2002}',
        '\u{2003}',
        '\u{2004}',
        '\u{2005}',
        '\u{2006}',
        '\u{2007}',
        '\u{2008}',
        '\u{2009}',
        '\u{200a}',
        '\u{2028}',
        '\u{2029}',
        '\u{202f}',
        '\u{205f}',
        '\u{3000}',
    ];
    if text::is_white(c) {
        let at: int = if c == '\u{85}' {
            0
        } else if c == '\u{a0}' {
            1
        } else if c == '\u{1680}' {
            2
        } else if '\u{2000}' <= c <= '\u{200a}' {
            c as int - 0x2000 + 3
        } else if c == '\u{2028}' {
            14
        } else if c == '\u{2029}' {
            15
        } else if c == '\u{202f}' {
            16
        } else if c == '\u{205f}' {
            17
        } else {
            18
        };
        assert(white[at] == c);
    }
}

} // verus!

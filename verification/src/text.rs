//! Text as sequences of characters: splitting, joining, trimming and decimal
//! numbers, each with the mathematical function it computes.

use vstd::prelude::*;
use vstd::string::StringExecFns;

verus! {

/// `String::push` appends one character to the end of the string.
pub assume_specification[ String::push ](s: &mut String, c: char)
    ensures
        final(s)@ == old(s)@.push(c),
;

/// `String::pop` removes the last character and returns it; an empty string
/// stays empty and gives `None`.
pub assume_specification[ String::pop ](s: &mut String) -> (r: Option<char>)
    ensures
        old(s)@.len() == 0 ==> r is None && final(s)@ == old(s)@,
        old(s)@.len() > 0 ==> r == Some(old(s)@.last()) && final(s)@ == old(s)@.drop_last(),
;

/// The characters with the Unicode property `White_Space`.
pub open spec fn is_whitespace(c: char) -> bool {
    ||| '\u{9}' <= c <= '\u{d}'
    ||| c == ' '
    ||| c == '\u{85}'
    ||| c == '\u{a0}'
    ||| c == '\u{1680}'
    ||| '\u{2000}' <= c <= '\u{200a}'
    ||| c == '\u{2028}'
    ||| c == '\u{2029}'
    ||| c == '\u{202f}'
    ||| c == '\u{205f}'
    ||| c == '\u{3000}'
}

/// `s` without its leading whitespace.
pub open spec fn trim_start(s: Seq<char>) -> Seq<char>
    decreases s.len(),
{
    if s.len() > 0 && is_whitespace(s[0]) {
        trim_start(s.drop_first())
    } else {
        s
    }
}

/// `s` without its trailing whitespace.
pub open spec fn trim_end(s: Seq<char>) -> Seq<char>
    decreases s.len(),
{
    if s.len() > 0 && is_whitespace(s.last()) {
        trim_end(s.drop_last())
    } else {
        s
    }
}

/// `s` without whitespace at either end.
pub open spec fn trim(s: Seq<char>) -> Seq<char> {
    trim_end(trim_start(s))
}

/// Trimming would leave `s` as it is.
pub open spec fn is_trimmed(s: Seq<char>) -> bool {
    s.len() > 0 ==> !is_whitespace(s[0]) && !is_whitespace(s.last())
}

/// The position of the first `c` in `s`, or the length of `s` where there is none.
pub open spec fn first_of(s: Seq<char>, c: char) -> int
    decreases s.len(),
{
    if s.len() == 0 {
        0
    } else if s[0] == c {
        0
    } else {
        1 + first_of(s.drop_first(), c)
    }
}

/// The pieces of `s` between the occurrences of `sep`: one more piece than
/// there are separators.
pub open spec fn split(s: Seq<char>, sep: char) -> Seq<Seq<char>>
    decreases s.len(),
{
    let i = first_of(s, sep);
    if 0 <= i < s.len() {
        seq![s.take(i)] + split(s.skip(i + 1), sep)
    } else {
        seq![s]
    }
}

/// The pieces written one after the other with `sep` between neighbours.
pub open spec fn join(parts: Seq<Seq<char>>, sep: Seq<char>) -> Seq<char>
    decreases parts.len(),
{
    if parts.len() == 0 {
        Seq::empty()
    } else if parts.len() == 1 {
        parts[0]
    } else {
        join(parts.drop_last(), sep) + sep + parts.last()
    }
}

/// The pieces of a text between its commas, each trimmed.
pub open spec fn trimmed_pieces(s: Seq<char>) -> Seq<Seq<char>> {
    split(s, ',').map_values(|p: Seq<char>| trim(p))
}

/// The items of a comma-separated list, each trimmed. A text that holds
/// nothing but whitespace lists nothing.
pub open spec fn list_items(s: Seq<char>) -> Seq<Seq<char>> {
    if trim(s).len() == 0 {
        Seq::empty()
    } else {
        trimmed_pieces(s)
    }
}

/// The items written as a list, with a comma and a space between neighbours.
pub open spec fn list_text(items: Seq<Seq<char>>) -> Seq<char> {
    join(items, seq![',', ' '])
}

/// What `first_of` finds is the first occurrence.
pub proof fn lemma_first_of(s: Seq<char>, c: char)
    ensures
        0 <= first_of(s, c) <= s.len(),
        forall|j: int| 0 <= j < first_of(s, c) ==> s[j] != c,
        first_of(s, c) < s.len() ==> s[first_of(s, c)] == c,
    decreases s.len(),
{
    if s.len() > 0 && s[0] != c {
        let t = s.drop_first();
        lemma_first_of(t, c);
        assert forall|j: int| 0 <= j < first_of(s, c) implies s[j] != c by {
            if j > 0 {
                assert(s[j] == t[j - 1]);
            }
        }
    }
}

/// A position with `c` only from there on is the one `first_of` finds.
pub proof fn lemma_first_of_is(s: Seq<char>, c: char, k: int)
    requires
        0 <= k <= s.len(),
        forall|j: int| 0 <= j < k ==> s[j] != c,
        k < s.len() ==> s[k] == c,
    ensures
        first_of(s, c) == k,
{
    lemma_first_of(s, c);
}

/// A text without the separator is its own single piece.
pub proof fn lemma_split_whole(s: Seq<char>, sep: char)
    requires
        !s.contains(sep),
    ensures
        split(s, sep) == seq![s],
{
    lemma_first_of(s, sep);
}

/// Splitting distributes over a separator between two texts.
pub proof fn lemma_split_concat(a: Seq<char>, b: Seq<char>, sep: char)
    ensures
        split(a + seq![sep] + b, sep) == split(a, sep) + split(b, sep),
    decreases a.len(),
{
    let s = a + seq![sep] + b;
    lemma_first_of(a, sep);
    let i = first_of(a, sep);
    assert(s[a.len() as int] == sep);
    assert forall|j: int| 0 <= j < i implies s[j] != sep by {
        assert(s[j] == a[j]);
    }
    if i < a.len() {
        assert(s[i] == a[i]);
        lemma_first_of_is(s, sep, i);
        assert(s.take(i) == a.take(i));
        assert(s.skip(i + 1) == a.skip(i + 1) + seq![sep] + b);
        lemma_split_concat(a.skip(i + 1), b, sep);
    } else {
        lemma_first_of_is(s, sep, a.len() as int);
        assert(s.take(a.len() as int) == a);
        assert(s.skip(a.len() as int + 1) == b);
    }
}

/// Every piece of a split is free of the separator.
pub proof fn lemma_split_pieces(s: Seq<char>, sep: char)
    ensures
        split(s, sep).len() >= 1,
        forall|i: int| 0 <= i < split(s, sep).len() ==> !(#[trigger] split(s, sep)[i]).contains(sep),
    decreases s.len(),
{
    lemma_first_of(s, sep);
    let k = first_of(s, sep);
    if k < s.len() {
        lemma_split_pieces(s.skip(k + 1), sep);
        let rest = split(s.skip(k + 1), sep);
        assert forall|i: int| 0 <= i < split(s, sep).len() implies !(#[trigger] split(s, sep)[i]).contains(sep) by {
            if i == 0 {
                assert(split(s, sep)[0] == s.take(k));
            } else {
                assert(split(s, sep)[i] == rest[i - 1]);
            }
        }
    } else {
        assert(split(s, sep)[0] == s);
    }
}

/// Joining the pieces of a split with the separator gives the text back.
pub proof fn lemma_join_split(s: Seq<char>, sep: char)
    ensures
        join(split(s, sep), seq![sep]) == s,
    decreases s.len(),
{
    lemma_first_of(s, sep);
    let k = first_of(s, sep);
    if k < s.len() {
        let rest = s.skip(k + 1);
        lemma_join_split(rest, sep);
        lemma_join_front(s.take(k), split(rest, sep), seq![sep]);
        lemma_split_pieces(rest, sep);
        assert(s.take(k) + seq![sep] + rest == s);
    }
}

/// Joining with a piece in front: the piece, the separator, then the rest joined.
pub proof fn lemma_join_front(head: Seq<char>, rest: Seq<Seq<char>>, sep: Seq<char>)
    requires
        rest.len() >= 1,
    ensures
        join(seq![head] + rest, sep) == head + sep + join(rest, sep),
    decreases rest.len(),
{
    let all = seq![head] + rest;
    assert(all.last() == rest.last());
    assert(all.drop_last() == seq![head] + rest.drop_last());
    if rest.len() == 1 {
        assert(all.drop_last() == seq![head]);
        assert(join(all.drop_last(), sep) == head);
    } else {
        lemma_join_front(head, rest.drop_last(), sep);
        assert(join(all, sep) == (head + sep + join(rest.drop_last(), sep)) + sep + rest.last());
        assert(join(all, sep) == head + sep + (join(rest.drop_last(), sep) + sep + rest.last()));
    }
}

/// Pieces free of the separator come back from splitting what joins them.
pub proof fn lemma_split_join(parts: Seq<Seq<char>>, sep: char)
    requires
        parts.len() >= 1,
        forall|i: int| 0 <= i < parts.len() ==> !(#[trigger] parts[i]).contains(sep),
    ensures
        split(join(parts, seq![sep]), sep) == parts,
    decreases parts.len(),
{
    if parts.len() == 1 {
        lemma_split_whole(parts[0], sep);
        assert(parts == seq![parts[0]]);
    } else {
        let front = parts.drop_last();
        lemma_split_join(front, sep);
        lemma_split_concat(join(front, seq![sep]), parts.last(), sep);
        lemma_split_whole(parts.last(), sep);
        assert(front + seq![parts.last()] == parts);
    }
}

/// A trimmed text stays as it is under `trim`.
pub proof fn lemma_trim_trimmed(s: Seq<char>)
    requires
        is_trimmed(s),
    ensures
        trim(s) == s,
{
}

/// What `trim_start` leaves does not begin with whitespace, and it is a tail of `s`.
pub proof fn lemma_trim_start(s: Seq<char>)
    ensures
        trim_start(s).len() <= s.len(),
        trim_start(s) == s.skip(s.len() - trim_start(s).len()),
        trim_start(s).len() > 0 ==> !is_whitespace(trim_start(s)[0]),
    decreases s.len(),
{
    if s.len() > 0 && is_whitespace(s[0]) {
        let t = s.drop_first();
        lemma_trim_start(t);
        assert(t.skip(t.len() - trim_start(t).len()) == s.skip(s.len() - trim_start(t).len()));
    } else {
        assert(s.skip(0) == s);
    }
}

/// What `trim_end` leaves does not end with whitespace, and it is a head of `s`.
pub proof fn lemma_trim_end(s: Seq<char>)
    ensures
        trim_end(s).len() <= s.len(),
        trim_end(s) == s.take(trim_end(s).len() as int),
        trim_end(s).len() > 0 ==> !is_whitespace(trim_end(s).last()),
    decreases s.len(),
{
    if s.len() > 0 && is_whitespace(s.last()) {
        let t = s.drop_last();
        lemma_trim_end(t);
        assert(t.take(trim_end(t).len() as int) == s.take(trim_end(t).len() as int));
    } else {
        assert(s.take(s.len() as int) == s);
    }
}

/// What `trim` leaves is trimmed, and holds only characters of `s`.
pub proof fn lemma_trim(s: Seq<char>)
    ensures
        is_trimmed(trim(s)),
        forall|c: char| trim(s).contains(c) ==> s.contains(c),
{
    let a = trim_start(s);
    let b = trim_end(a);
    lemma_trim_start(s);
    lemma_trim_end(a);
    if b.len() > 0 {
        assert(b[0] == a[0]);
    }
    assert forall|c: char| b.contains(c) implies s.contains(c) by {
        let i = choose|i: int| 0 <= i < b.len() && b[i] == c;
        assert(a[i] == c);
        assert(s[s.len() - a.len() + i] == c);
    }
}

/// A space in front of a trimmed text is trimmed away again.
pub proof fn lemma_trim_padded(s: Seq<char>)
    requires
        is_trimmed(s),
    ensures
        trim(seq![' '] + s) == s,
{
    let p = seq![' '] + s;
    assert(p.drop_first() == s);
    assert(is_whitespace(p[0]));
    assert(trim_start(p) == trim_start(s));
    assert(trim_start(s) == s);
}

/// Every item is trimmed and free of commas.
pub open spec fn items_plain(items: Seq<Seq<char>>) -> bool {
    forall|i: int|
        0 <= i < items.len() ==> is_trimmed(#[trigger] items[i]) && !items[i].contains(',')
}

/// A list that comes back from its text: each item trimmed and free of
/// commas, and not the list of one empty item, whose text is that of the
/// empty list.
pub open spec fn list_safe(items: Seq<Seq<char>>) -> bool {
    &&& items_plain(items)
    &&& !(items.len() == 1 && items[0].len() == 0)
}

/// The trimmed pieces of the text of one plain item or more are the items.
pub proof fn lemma_pieces_of_text(items: Seq<Seq<char>>)
    requires
        items.len() >= 1,
        items_plain(items),
    ensures
        trimmed_pieces(list_text(items)) == items,
        items.len() >= 2 ==> list_text(items).contains(','),
        items.len() == 1 ==> list_text(items) == items[0],
    decreases items.len(),
{
    let last = items.last();
    assert(is_trimmed(last) && !last.contains(','));
    if items.len() == 1 {
        lemma_split_whole(last, ',');
        lemma_trim_trimmed(last);
        assert(trimmed_pieces(list_text(items)) =~= items);
    } else {
        let front = items.drop_last();
        assert(items_plain(front)) by {
            assert forall|i: int| 0 <= i < front.len() implies is_trimmed(#[trigger] front[i])
                && !front[i].contains(',') by {
                assert(front[i] == items[i]);
            }
        }
        lemma_pieces_of_text(front);
        let head = list_text(front);
        let padded = seq![' '] + last;
        assert(list_text(items) == head + seq![','] + padded) by {
            assert(seq![',', ' '] + last =~= seq![','] + padded);
            assert(head + seq![',', ' '] + last =~= head + seq![','] + padded);
        }
        assert(list_text(items)[head.len() as int] == ',');
        lemma_split_concat(head, padded, ',');
        assert(!padded.contains(',')) by {
            assert forall|j: int| 0 <= j < padded.len() implies padded[j] != ',' by {
                if j > 0 {
                    assert(padded[j] == last[j - 1]);
                }
            }
        }
        lemma_split_whole(padded, ',');
        lemma_trim_padded(last);
        assert(trimmed_pieces(list_text(items)) =~= trimmed_pieces(head).push(trim(padded)));
        assert(front.push(last) == items);
    }
}

/// Trimming keeps every character that is no whitespace.
pub proof fn lemma_trim_keeps(s: Seq<char>, c: char)
    requires
        s.contains(c),
        !is_whitespace(c),
    ensures
        trim(s).contains(c),
{
    lemma_trim_start_keeps(s, c);
    lemma_trim_end_keeps(trim_start(s), c);
}

/// Trimming the start keeps every character that is no whitespace.
pub proof fn lemma_trim_start_keeps(s: Seq<char>, c: char)
    requires
        s.contains(c),
        !is_whitespace(c),
    ensures
        trim_start(s).contains(c),
    decreases s.len(),
{
    if s.len() > 0 && is_whitespace(s[0]) {
        let i = choose|i: int| 0 <= i < s.len() && s[i] == c;
        assert(s.drop_first()[i - 1] == c);
        lemma_trim_start_keeps(s.drop_first(), c);
    }
}

/// Trimming the end keeps every character that is no whitespace.
pub proof fn lemma_trim_end_keeps(s: Seq<char>, c: char)
    requires
        s.contains(c),
        !is_whitespace(c),
    ensures
        trim_end(s).contains(c),
    decreases s.len(),
{
    if s.len() > 0 && is_whitespace(s.last()) {
        let i = choose|i: int| 0 <= i < s.len() && s[i] == c;
        assert(s.drop_last()[i] == c);
        lemma_trim_end_keeps(s.drop_last(), c);
    }
}

/// The items of the text of a safe list are the list: of the empty list too.
pub proof fn lemma_list_items_of_text(items: Seq<Seq<char>>)
    requires
        list_safe(items),
    ensures
        list_items(list_text(items)) == items,
{
    let text = list_text(items);
    if items.len() == 0 {
        assert(items =~= Seq::<Seq<char>>::empty());
    } else {
        lemma_pieces_of_text(items);
        if items.len() == 1 {
            lemma_trim_trimmed(items[0]);
        } else {
            lemma_trim_keeps(text, ',');
        }
    }
}

/// A character that is in no piece and not in the separator is not in what
/// joins them.
pub proof fn lemma_join_without(parts: Seq<Seq<char>>, sep: Seq<char>, c: char)
    requires
        !sep.contains(c),
        forall|i: int| 0 <= i < parts.len() ==> !(#[trigger] parts[i]).contains(c),
    ensures
        !join(parts, sep).contains(c),
    decreases parts.len(),
{
    if parts.len() >= 2 {
        let front = parts.drop_last();
        lemma_join_without(front, sep, c);
        let a = join(front, sep);
        let all = a + sep + parts.last();
        assert forall|j: int| 0 <= j < all.len() implies all[j] != c by {
            if j < a.len() {
                assert(all[j] == a[j]);
            } else if j < a.len() + sep.len() {
                assert(all[j] == sep[j - a.len()]);
            } else {
                assert(all[j] == parts.last()[j - a.len() - sep.len()]);
            }
        }
    }
}

/// The items of any list text are a safe list, and hold no character that
/// the text does not hold.
pub proof fn lemma_list_items(s: Seq<char>)
    ensures
        list_safe(list_items(s)),
        forall|i: int, c: char|
            0 <= i < list_items(s).len() && (#[trigger] list_items(s)[i]).contains(c)
                ==> #[trigger] s.contains(c),
{
    lemma_split_pieces(s, ',');
    lemma_split_within(s, ',');
    lemma_first_of(s, ',');
    let pieces = split(s, ',');
    if trim(s).len() > 0 {
        assert forall|i: int| 0 <= i < list_items(s).len() implies is_trimmed(
            #[trigger] list_items(s)[i],
        ) && !list_items(s)[i].contains(',') by {
            lemma_trim(pieces[i]);
            assert(!pieces[i].contains(','));
        }
        assert forall|i: int, c: char|
            0 <= i < list_items(s).len() && (#[trigger] list_items(s)[i]).contains(
                c,
            ) implies #[trigger] s.contains(c) by {
            lemma_trim(pieces[i]);
            assert(pieces[i].contains(c));
        }
        if pieces.len() == 1 {
            if first_of(s, ',') < s.len() {
                lemma_split_pieces(s.skip(first_of(s, ',') + 1), ',');
            }
            assert(pieces[0] == s);
        }
    }
}

/// A piece of a split holds only characters of the text.
pub proof fn lemma_split_within(s: Seq<char>, sep: char)
    ensures
        forall|i: int, c: char|
            0 <= i < split(s, sep).len() && (#[trigger] split(s, sep)[i]).contains(c)
                ==> #[trigger] s.contains(c),
    decreases s.len(),
{
    lemma_first_of(s, sep);
    let k = first_of(s, sep);
    if k < s.len() {
        let rest = s.skip(k + 1);
        lemma_split_within(rest, sep);
        assert forall|i: int, c: char|
            0 <= i < split(s, sep).len() && (#[trigger] split(s, sep)[i]).contains(
                c,
            ) implies #[trigger] s.contains(c) by {
            let piece = split(s, sep)[i];
            let j = choose|j: int| 0 <= j < piece.len() && piece[j] == c;
            if i == 0 {
                assert(piece == s.take(k));
                assert(s[j] == c);
            } else {
                assert(piece == split(rest, sep)[i - 1]);
                assert(rest.contains(c));
                let m = choose|m: int| 0 <= m < rest.len() && rest[m] == c;
                assert(s[k + 1 + m] == c);
            }
        }
    } else {
        assert(split(s, sep)[0] == s);
    }
}

/// The value of a decimal digit, and 0 for any other character.
pub open spec fn digit_of(c: char) -> nat {
    if '0' <= c <= '9' {
        (c as int - '0' as int) as nat
    } else {
        0
    }
}

/// The character that writes the digit `d`.
pub open spec fn digit_char(d: nat) -> char {
    ('0' as int + d) as char
}

/// Every character of `s` is a decimal digit.
pub open spec fn all_digits(s: Seq<char>) -> bool {
    forall|i: int| 0 <= i < s.len() ==> '0' <= #[trigger] s[i] <= '9'
}

/// The number that the digits of `s` write in base ten.
pub open spec fn digits_value(s: Seq<char>) -> nat
    decreases s.len(),
{
    if s.len() == 0 {
        0
    } else {
        digits_value(s.drop_last()) * 10 + digit_of(s.last())
    }
}

/// `n` written in base ten, without leading zeros.
pub open spec fn decimal(n: nat) -> Seq<char>
    decreases n,
{
    if n < 10 {
        seq![digit_char(n)]
    } else {
        decimal(n / 10).push(digit_char(n % 10))
    }
}

/// The number that `s` writes: an optional `+`, then one digit or more, the
/// value within `u64`; `None` for any other text.
pub open spec fn number_of(s: Seq<char>) -> Option<u64> {
    let d = if s.len() > 0 && s[0] == '+' {
        s.drop_first()
    } else {
        s
    };
    if d.len() > 0 && all_digits(d) && digits_value(d) <= u64::MAX {
        Some(digits_value(d) as u64)
    } else {
        None
    }
}

/// The truth value that `s` writes: `true` or `false`, nothing else.
pub open spec fn flag_of(s: Seq<char>) -> Option<bool> {
    if s == seq!['t', 'r', 'u', 'e'] {
        Some(true)
    } else if s == seq!['f', 'a', 'l', 's', 'e'] {
        Some(false)
    } else {
        None
    }
}

/// The text that writes a truth value.
pub open spec fn flag_text(b: bool) -> Seq<char> {
    if b {
        seq!['t', 'r', 'u', 'e']
    } else {
        seq!['f', 'a', 'l', 's', 'e']
    }
}

/// A number written in base ten is digits only, and reads as itself.
pub proof fn lemma_decimal(n: nat)
    ensures
        decimal(n).len() >= 1,
        all_digits(decimal(n)),
        digits_value(decimal(n)) == n,
    decreases n,
{
    if n < 10 {
        let s = decimal(n);
        assert(s.drop_last() =~= Seq::<char>::empty());
        assert(digits_value(s.drop_last()) == 0);
    } else {
        lemma_decimal(n / 10);
        let s = decimal(n);
        assert(s.drop_last() =~= decimal(n / 10));
        assert(s.last() == digit_char(n % 10));
    }
}

/// Reading what writes a number gives the number.
pub proof fn lemma_number_of_decimal(n: u64)
    ensures
        number_of(decimal(n as nat)) == Some(n),
        !decimal(n as nat).contains('\n'),
        is_trimmed(decimal(n as nat)),
{
    lemma_decimal(n as nat);
    let s = decimal(n as nat);
    assert('0' <= s[0] <= '9');
    assert('0' <= s.last() <= '9');
}

/// The value of a head of `s` is at most the value of `s`.
pub proof fn lemma_digits_value_grows(s: Seq<char>, k: int)
    requires
        0 <= k <= s.len(),
    ensures
        digits_value(s.take(k)) <= digits_value(s),
    decreases s.len() - k,
{
    if k < s.len() {
        lemma_digits_value_grows(s, k + 1);
        assert(s.take(k + 1).drop_last() =~= s.take(k));
    } else {
        assert(s.take(k) =~= s);
    }
}

/// The characters of `s`, in order.
pub fn chars_of(s: &str) -> (r: Vec<char>)
    ensures
        r@ == s@,
{
    let mut out: Vec<char> = Vec::new();
    for c in iter: s.chars()
        invariant
            iter.seq() == s@,
            out@ == s@.take(iter.index()),
    {
        out.push(c);
    }
    out
}

/// The string made of the characters `v[from..to]`.
pub fn string_of(v: &Vec<char>, from: usize, to: usize) -> (r: String)
    requires
        from <= to <= v.len(),
    ensures
        r@ == v@.subrange(from as int, to as int),
{
    let mut out = String::new();
    let mut i: usize = from;
    while i < to
        invariant
            from <= i <= to <= v.len(),
            out@ == v@.subrange(from as int, i as int),
        decreases to - i,
    {
        out.push(v[i]);
        i += 1;
        assert(v@.subrange(from as int, i as int) == v@.subrange(from as int, i - 1).push(
            v@[i - 1],
        ));
    }
    out
}

/// Whether `c` occurs in `s`.
pub fn has_char(s: &str, c: char) -> (r: bool)
    ensures
        r == s@.contains(c),
{
    let chars = chars_of(s);
    let mut i: usize = 0;
    while i < chars.len()
        invariant
            i <= chars.len(),
            chars@ == s@,
            forall|j: int| 0 <= j < i ==> chars@[j] != c,
        decreases chars.len() - i,
    {
        if chars[i] == c {
            return true;
        }
        i += 1;
    }
    false
}

/// Whether `a` and `b` hold the same characters.
pub fn same_text(a: &str, b: &str) -> (r: bool)
    ensures
        r == (a@ == b@),
{
    let x = chars_of(a);
    let y = chars_of(b);
    if x.len() != y.len() {
        return false;
    }
    let mut i: usize = 0;
    while i < x.len()
        invariant
            i <= x.len() == y.len(),
            x@ == a@,
            y@ == b@,
            forall|j: int| 0 <= j < i ==> x@[j] == y@[j],
        decreases x.len() - i,
    {
        if x[i] != y[i] {
            return false;
        }
        i += 1;
    }
    assert(a@ =~= b@);
    true
}

/// Whether `c` is whitespace.
pub fn is_space(c: char) -> (r: bool)
    ensures
        r == is_whitespace(c),
{
    ('\u{9}' <= c && c <= '\u{d}') || c == ' ' || c == '\u{85}' || c == '\u{a0}' || c
        == '\u{1680}' || ('\u{2000}' <= c && c <= '\u{200a}') || c == '\u{2028}' || c
        == '\u{2029}' || c == '\u{202f}' || c == '\u{205f}' || c == '\u{3000}'
}

/// `s` without whitespace at either end.
pub fn trimmed(s: &str) -> (r: String)
    ensures
        r@ == trim(s@),
{
    let v = chars_of(s);
    let n = v.len();
    let mut a: usize = 0;
    assert(v@.subrange(0, n as int) == v@);
    while a < n && is_space(v[a])
        invariant
            a <= n == v.len(),
            trim_start(v@) == trim_start(v@.subrange(a as int, n as int)),
        decreases n - a,
    {
        assert(v@.subrange(a as int, n as int).drop_first() == v@.subrange(a + 1, n as int));
        a += 1;
    }
    let mut b: usize = n;
    while a < b && is_space(v[b - 1])
        invariant
            a <= b <= n == v.len(),
            trim_end(v@.subrange(a as int, n as int)) == trim_end(v@.subrange(a as int, b as int)),
        decreases b - a,
    {
        assert(v@.subrange(a as int, b as int).drop_last() == v@.subrange(a as int, b - 1));
        b -= 1;
    }
    string_of(&v, a, b)
}

/// The pieces of `s` between the occurrences of `sep`.
pub fn split_text(s: &str, sep: char) -> (r: Vec<String>)
    ensures
        r.deep_view() == split(s@, sep),
{
    let v = chars_of(s);
    let n = v.len();
    let mut out: Vec<String> = Vec::new();
    let mut start: usize = 0;
    let mut i: usize = 0;
    assert(v@.skip(0) == v@);
    assert(out.deep_view() =~= Seq::<Seq<char>>::empty());
    while i < n
        invariant
            start <= i <= n == v.len(),
            split(v@, sep) == out.deep_view() + split(v@.skip(start as int), sep),
            forall|j: int| start <= j < i ==> v@[j] != sep,
        decreases n - i,
    {
        if v[i] == sep {
            let piece = string_of(&v, start, i);
            proof {
                let rest = v@.skip(start as int);
                lemma_first_of_is(rest, sep, i - start);
                assert(rest.take(i - start) == v@.subrange(start as int, i as int));
                assert(rest.skip(i - start + 1) == v@.skip(i + 1));
            }
            let ghost before = out.deep_view();
            out.push(piece);
            assert(out.deep_view() =~= before.push(piece@));
            start = i + 1;
        }
        i += 1;
    }
    let piece = string_of(&v, start, n);
    proof {
        let rest = v@.skip(start as int);
        lemma_first_of_is(rest, sep, n - start);
        assert(rest == v@.subrange(start as int, n as int));
    }
    let ghost before = out.deep_view();
    out.push(piece);
    assert(out.deep_view() =~= before.push(piece@));
    out
}

/// The pieces from index `from` on, written one after the other with `sep`
/// between neighbours.
pub fn join_from(parts: &Vec<String>, from: usize, sep: &str) -> (r: String)
    requires
        from <= parts.len(),
    ensures
        r@ == join(parts.deep_view().skip(from as int), sep@),
{
    let ghost rest = parts.deep_view().skip(from as int);
    let mut out = String::new();
    let mut i: usize = from;
    assert(rest.take(0) =~= Seq::<Seq<char>>::empty());
    while i < parts.len()
        invariant
            from <= i <= parts.len(),
            rest == parts.deep_view().skip(from as int),
            out@ == join(rest.take(i - from), sep@),
        decreases parts.len() - i,
    {
        if i > from {
            out.append(sep);
        }
        out.append(parts[i].as_str());
        i += 1;
        proof {
            let now = rest.take(i - from);
            assert(now.drop_last() == rest.take(i - from - 1));
            assert(now.last() == parts@[i - 1]@);
        }
    }
    assert(rest.take(i - from) == rest);
    out
}

/// The pieces written one after the other with `sep` between neighbours.
pub fn join_text(parts: &Vec<String>, sep: &str) -> (r: String)
    ensures
        r@ == join(parts.deep_view(), sep@),
{
    assert(parts.deep_view().skip(0) == parts.deep_view());
    join_from(parts, 0, sep)
}

/// A copy of the strings.
pub fn copy_strings(v: &Vec<String>) -> (r: Vec<String>)
    ensures
        r.deep_view() == v.deep_view(),
{
    let mut out: Vec<String> = Vec::new();
    let mut i: usize = 0;
    while i < v.len()
        invariant
            i <= v.len(),
            out.deep_view() == v.deep_view().take(i as int),
        decreases v.len() - i,
    {
        let ghost before = out.deep_view();
        let item = v[i].clone();
        out.push(item);
        i += 1;
        assert(out.deep_view() =~= before.push(item@));
        assert(out.deep_view() =~= v.deep_view().take(i as int));
    }
    assert(v.deep_view().take(i as int) == v.deep_view());
    out
}

/// The items of a comma-separated list, each trimmed; none where the text
/// holds nothing but whitespace.
pub fn list_of(s: &str) -> (r: Vec<String>)
    ensures
        r.deep_view() == list_items(s@),
{
    let mut out: Vec<String> = Vec::new();
    if trimmed(s).as_str().is_empty() {
        assert(out.deep_view() =~= list_items(s@));
        return out;
    }
    let pieces = split_text(s, ',');
    let mut i: usize = 0;
    assert(out.deep_view() =~= trimmed_pieces(s@).take(0));
    while i < pieces.len()
        invariant
            i <= pieces.len(),
            pieces.deep_view() == split(s@, ','),
            out.deep_view() == trimmed_pieces(s@).take(i as int),
        decreases pieces.len() - i,
    {
        let item = trimmed(pieces[i].as_str());
        let ghost before = out.deep_view();
        out.push(item);
        i += 1;
        assert(pieces.deep_view()[i - 1] == pieces@[i - 1]@);
        assert(out.deep_view() =~= before.push(item@));
        assert(out.deep_view() =~= trimmed_pieces(s@).take(i as int));
    }
    assert(trimmed_pieces(s@).take(i as int) == trimmed_pieces(s@));
    out
}

/// The number that `s` writes in base ten, if it writes one that fits.
pub fn parse_number(s: &str) -> (r: Option<u64>)
    ensures
        r == number_of(s@),
{
    let v = chars_of(s);
    let n = v.len();
    let from: usize = if n > 0 && v[0] == '+' {
        1
    } else {
        0
    };
    let ghost d = v@.skip(from as int);
    assert(from == 1 ==> d == v@.drop_first());
    assert(from == 0 ==> d == v@);
    if from == n {
        return None;
    }
    let mut acc: u64 = 0;
    let mut i: usize = from;
    assert(d.take(0) =~= Seq::<char>::empty());
    while i < n
        invariant
            from <= i <= n == v.len(),
            from < n,
            d == v@.skip(from as int),
            d == if s@.len() > 0 && s@[0] == '+' {
                s@.drop_first()
            } else {
                s@
            },
            acc == digits_value(d.take(i - from)),
            all_digits(d.take(i - from)),
        decreases n - i,
    {
        let c = v[i];
        proof {
            assert(d.take(i - from + 1).drop_last() =~= d.take(i - from));
            assert(d.take(i - from + 1).last() == c);
            lemma_digits_value_grows(d, i - from + 1);
        }
        if !('0' <= c && c <= '9') {
            assert(d[i - from] == c);
            assert(!all_digits(d));
            return None;
        }
        let digit: u64 = (c as u32 - '0' as u32) as u64;
        assert(digit == digit_of(c));
        assert(digits_value(d.take(i - from + 1)) == acc * 10 + digit);
        if acc > (u64::MAX - digit) / 10 {
            assert(acc * 10 + digit > u64::MAX);
            return None;
        }
        acc = acc * 10 + digit;
        i += 1;
        assert forall|j: int| 0 <= j < d.take(i - from).len() implies '0' <= #[trigger] d.take(
            i - from,
        )[j] <= '9' by {
            if j < i - from - 1 {
                assert(d.take(i - from - 1)[j] == d.take(i - from)[j]);
            }
        }
    }
    assert(d.take(n - from) == d);
    Some(acc)
}

/// `n` written in base ten.
pub fn decimal_text(n: u64) -> (r: String)
    ensures
        r@ == decimal(n as nat),
    decreases n,
{
    let d: char = ((n % 10) as u8 + 48u8) as char;
    assert(d == digit_char((n % 10) as nat));
    if n < 10 {
        let mut out = String::new();
        out.push(d);
        assert(out@ =~= seq![d]);
        out
    } else {
        let mut out = decimal_text(n / 10);
        out.push(d);
        out
    }
}

/// The truth value that `s` writes, if it writes one.
pub fn parse_flag(s: &str) -> (r: Option<bool>)
    ensures
        r == flag_of(s@),
{
    let v = chars_of(s);
    if v.len() == 4 && v[0] == 't' && v[1] == 'r' && v[2] == 'u' && v[3] == 'e' {
        assert(v@ =~= seq!['t', 'r', 'u', 'e']);
        Some(true)
    } else if v.len() == 5 && v[0] == 'f' && v[1] == 'a' && v[2] == 'l' && v[3] == 's' && v[4]
        == 'e' {
        assert(v@ =~= seq!['f', 'a', 'l', 's', 'e']);
        Some(false)
    } else {
        None
    }
}

/// The text that writes a truth value.
pub fn flag_string(b: bool) -> (r: String)
    ensures
        r@ == flag_text(b),
{
    let mut out = String::new();
    if b {
        out.push('t');
        out.push('r');
        out.push('u');
        out.push('e');
        assert(out@ =~= flag_text(b));
    } else {
        out.push('f');
        out.push('a');
        out.push('l');
        out.push('s');
        out.push('e');
        assert(out@ =~= flag_text(b));
    }
    out
}

} // verus!

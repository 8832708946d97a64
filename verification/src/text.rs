//! Character sequences: conversions between strings and vectors of characters,
//! searching, splitting, trimming and decimal numbers.

use vstd::prelude::*;

verus! {

/// `String::push` appends one character to the string.
pub assume_specification[ String::push ](s: &mut String, c: char)
    ensures
        final(s)@ == old(s)@.push(c),
;

/// The characters of `s`, in order.
pub fn chars_of(s: &str) -> (out: Vec<char>)
    ensures
        out@ == s@,
{
    let mut out: Vec<char> = Vec::new();
    let mut it = s.chars();
    for c in iter: it
        invariant
            out@ == iter.seq().take(iter.index() as int),
            iter.seq() == s@,
    {
        out.push(c);
    }
    out
}

/// The string made of the characters of `chars`, in order.
pub fn string_of(chars: &Vec<char>) -> (out: String)
    ensures
        out@ == chars@,
{
    let mut out = String::new();
    let mut i: usize = 0;
    while i < chars.len()
        invariant
            i <= chars.len(),
            out@ == chars@.take(i as int),
        decreases chars.len() - i,
    {
        out.push(chars[i]);
        i += 1;
    }
    out
}

/// Whether the two vectors hold the same characters.
pub fn same_chars(a: &Vec<char>, b: &Vec<char>) -> (same: bool)
    ensures
        same == (a@ == b@),
{
    if a.len() != b.len() {
        return false;
    }
    let mut i: usize = 0;
    while i < a.len()
        invariant
            i <= a.len(),
            a.len() == b.len(),
            a@.take(i as int) == b@.take(i as int),
        decreases a.len() - i,
    {
        if a[i] != b[i] {
            return false;
        }
        assert(a@.take(i + 1) == a@.take(i as int).push(a@[i as int]));
        assert(b@.take(i + 1) == b@.take(i as int).push(b@[i as int]));
        i += 1;
    }
    assert(a@.take(a.len() as int) == a@);
    assert(b@.take(b.len() as int) == b@);
    true
}

/// The characters of `chars` from index `from` up to, not including, `to`.
pub fn slice(chars: &Vec<char>, from: usize, to: usize) -> (out: Vec<char>)
    requires
        from <= to <= chars.len(),
    ensures
        out@ == chars@.subrange(from as int, to as int),
{
    let mut out: Vec<char> = Vec::new();
    let mut i: usize = from;
    while i < to
        invariant
            from <= i <= to <= chars.len(),
            out@ == chars@.subrange(from as int, i as int),
        decreases to - i,
    {
        out.push(chars[i]);
        i += 1;
    }
    out
}

/// Appends the characters of `tail` to `out`.
pub fn append(out: &mut Vec<char>, tail: &Vec<char>)
    ensures
        final(out)@ == old(out)@ + tail@,
{
    let mut i: usize = 0;
    while i < tail.len()
        invariant
            i <= tail.len(),
            out@ == old(out)@ + tail@.take(i as int),
        decreases tail.len() - i,
    {
        out.push(tail[i]);
        i += 1;
    }
    assert(tail@.take(tail.len() as int) == tail@);
}

/// Appends the characters of the string `tail` to `out`.
pub fn append_str(out: &mut Vec<char>, tail: &str)
    ensures
        final(out)@ == old(out)@ + tail@,
{
    let chars = chars_of(tail);
    append(out, &chars);
}

/// Whether `chars` starts with `prefix`.
pub fn has_prefix(chars: &Vec<char>, prefix: &Vec<char>) -> (has: bool)
    ensures
        has == prefix@.is_prefix_of(chars@),
{
    if prefix.len() > chars.len() {
        return false;
    }
    let head = slice(chars, 0, prefix.len());
    same_chars(&head, prefix)
}

/// Whether `chars` ends with `suffix`.
pub fn has_suffix(chars: &Vec<char>, suffix: &Vec<char>) -> (has: bool)
    ensures
        has == suffix@.is_suffix_of(chars@),
{
    if suffix.len() > chars.len() {
        return false;
    }
    let tail = slice(chars, chars.len() - suffix.len(), chars.len());
    same_chars(&tail, suffix)
}

// ---------------------------------------------------------------------------
// ASCII case

/// The lower-case form of an ASCII capital letter; any other character itself.
pub open spec fn lower(c: char) -> char {
    if 'A' <= c && c <= 'Z' {
        ((c as u8) + 32) as char
    } else {
        c
    }
}

/// `s` with every ASCII capital letter replaced by its lower-case form.
pub open spec fn lowered(s: Seq<char>) -> Seq<char> {
    Seq::new(s.len(), |i: int| lower(s[i]))
}

/// The lower-case form of an ASCII capital letter; any other character itself.
pub fn to_lower(c: char) -> (l: char)
    ensures
        l == lower(c),
{
    if 'A' <= c && c <= 'Z' {
        ((c as u8) + 32) as char
    } else {
        c
    }
}

/// A copy of `chars` with every ASCII capital letter in lower case.
pub fn to_lowered(chars: &Vec<char>) -> (out: Vec<char>)
    ensures
        out@ == lowered(chars@),
{
    let mut out: Vec<char> = Vec::new();
    let mut i: usize = 0;
    while i < chars.len()
        invariant
            i <= chars.len(),
            out@ == lowered(chars@).take(i as int),
        decreases chars.len() - i,
    {
        out.push(to_lower(chars[i]));
        i += 1;
    }
    out
}

// ---------------------------------------------------------------------------
// Decimal numbers

/// Whether `c` is one of the ten decimal digits.
pub open spec fn is_digit(c: char) -> bool {
    '0' <= c && c <= '9'
}

/// The number that the decimal digit `c` stands for.
pub open spec fn digit_value(c: char) -> nat {
    (c as int - '0' as int) as nat
}

/// The decimal digit that stands for `n`, for `n` below ten.
pub open spec fn digit_char(n: int) -> char {
    (n + '0' as int) as char
}

/// Whether `s` holds decimal digits only. The empty sequence does.
pub open spec fn all_digits(s: Seq<char>) -> bool {
    forall|i: int| 0 <= i < s.len() ==> is_digit(#[trigger] s[i])
}

/// The number that the digits of `s` denote in base ten; 0 for the empty
/// sequence. Leading zeros do not change it.
pub open spec fn decimal_value(s: Seq<char>) -> nat
    decreases s.len(),
{
    if s.len() == 0 {
        0
    } else {
        decimal_value(s.drop_last()) * 10 + digit_value(s.last())
    }
}

/// The shortest decimal numeral of `n`: no leading zero, but for `0` itself.
pub open spec fn decimal_text(n: nat) -> Seq<char>
    decreases n,
{
    if n < 10 {
        seq![digit_char(n as int)]
    } else {
        decimal_text(n / 10).push(digit_char((n % 10) as int))
    }
}

/// A numeral's value never falls below that of one of its prefixes.
pub proof fn lemma_decimal_value_grows(s: Seq<char>, k: int)
    requires
        0 <= k <= s.len(),
    ensures
        decimal_value(s.take(k)) <= decimal_value(s),
    decreases s.len() - k,
{
    if k == s.len() {
        assert(s.take(k) == s);
    } else {
        lemma_decimal_value_grows(s, k + 1);
        assert(s.take(k + 1).drop_last() == s.take(k));
    }
}

/// The shortest numeral of `n` holds digits only, denotes `n`, and starts
/// with `0` only where `n` is 0.
pub proof fn lemma_decimal_text(n: nat)
    ensures
        decimal_text(n).len() >= 1,
        all_digits(decimal_text(n)),
        decimal_value(decimal_text(n)) == n,
        n >= 1 ==> decimal_text(n)[0] != '0',
    decreases n,
{
    if n < 10 {
        let s = decimal_text(n);
        assert(s.drop_last().len() == 0);
        assert(decimal_value(s.drop_last()) == 0);
    } else {
        lemma_decimal_text(n / 10);
        let s = decimal_text(n);
        assert(s.drop_last() == decimal_text(n / 10));
        assert(s[0] == decimal_text(n / 10)[0]);
    }
}

/// Whether `c` is one of the ten decimal digits.
pub fn is_digit_char(c: char) -> (digit: bool)
    ensures
        digit == is_digit(c),
{
    '0' <= c && c <= '9'
}

/// Whether `chars` holds decimal digits only.
pub fn is_all_digits(chars: &Vec<char>) -> (all: bool)
    ensures
        all == all_digits(chars@),
{
    let mut i: usize = 0;
    while i < chars.len()
        invariant
            i <= chars.len(),
            forall|k: int| 0 <= k < i ==> is_digit(#[trigger] chars@[k]),
        decreases chars.len() - i,
    {
        if !is_digit_char(chars[i]) {
            return false;
        }
        i += 1;
    }
    true
}

/// The value of the numeral `digits`, where it is at most `max`.
pub fn parse_decimal(digits: &Vec<char>, max: u64) -> (value: Option<u64>)
    requires
        all_digits(digits@),
    ensures
        value == if decimal_value(digits@) <= max {
            Some(decimal_value(digits@) as u64)
        } else {
            None::<u64>
        },
{
    let mut acc: u64 = 0;
    let mut i: usize = 0;
    while i < digits.len()
        invariant
            i <= digits.len(),
            all_digits(digits@),
            acc == decimal_value(digits@.take(i as int)),
            acc <= max,
        decreases digits.len() - i,
    {
        let d: u64 = (digits[i] as u64) - ('0' as u64);
        let wide: u128 = (acc as u128) * 10 + (d as u128);
        proof {
            assert(digits@.take(i + 1).drop_last() == digits@.take(i as int));
            assert(wide == decimal_value(digits@.take(i + 1)));
            lemma_decimal_value_grows(digits@, i + 1);
        }
        if wide > max as u128 {
            return None;
        }
        acc = wide as u64;
        i += 1;
    }
    assert(digits@.take(digits.len() as int) == digits@);
    Some(acc)
}

/// Appends the shortest decimal numeral of `n` to `out`.
pub fn push_decimal(out: &mut Vec<char>, n: u64)
    ensures
        final(out)@ == old(out)@ + decimal_text(n as nat),
    decreases n,
{
    if n >= 10 {
        push_decimal(out, n / 10);
    }
    let d: u8 = (n % 10) as u8;
    out.push((d + 48) as char);
    assert(((d + 48) as char) == digit_char((n % 10) as int));
}

// ---------------------------------------------------------------------------
// Searching and splitting

/// The index of the first `c` in `chars`, if there is one.
pub fn find_first(chars: &Vec<char>, c: char) -> (found: Option<usize>)
    ensures
        match found {
            Some(i) => chars@.index_of_first(c) == Some(i as int),
            None => chars@.index_of_first(c) is None,
        },
{
    proof {
        chars@.index_of_first_ensures(c);
    }
    let mut i: usize = 0;
    while i < chars.len()
        invariant
            i <= chars.len(),
            forall|k: int| 0 <= k < i ==> chars@[k] != c,
        decreases chars.len() - i,
    {
        if chars[i] == c {
            proof {
                lemma_first_index(chars@, c, i as int);
            }
            return Some(i);
        }
        i += 1;
    }
    None
}

/// The index of the last `c` in `chars`, if there is one.
pub fn find_last(chars: &Vec<char>, c: char) -> (found: Option<usize>)
    ensures
        match found {
            Some(i) => chars@.index_of_last(c) == Some(i as int),
            None => chars@.index_of_last(c) is None,
        },
{
    proof {
        chars@.index_of_last_ensures(c);
    }
    let mut i: usize = chars.len();
    while i > 0
        invariant
            i <= chars.len(),
            forall|k: int| i <= k < chars.len() ==> chars@[k] != c,
        decreases i,
    {
        i -= 1;
        if chars[i] == c {
            proof {
                lemma_last_index(chars@, c, i as int);
            }
            return Some(i);
        }
    }
    None
}

/// Where `c` stands at index `i` of `s` and nowhere before, `i` is its first
/// index.
pub proof fn lemma_first_index(s: Seq<char>, c: char, i: int)
    requires
        0 <= i < s.len(),
        s[i] == c,
        forall|k: int| 0 <= k < i ==> s[k] != c,
    ensures
        s.index_of_first(c) == Some(i),
{
    s.index_of_first_ensures(c);
    assert(s.contains(c));
    let found = s.index_of_first(c)->0;
    if found < i {
        assert(s[found] != c);
    }
}

/// Where `c` stands at index `i` of `s` and nowhere after, `i` is its last
/// index.
pub proof fn lemma_last_index(s: Seq<char>, c: char, i: int)
    requires
        0 <= i < s.len(),
        s[i] == c,
        forall|k: int| i < k < s.len() ==> s[k] != c,
    ensures
        s.index_of_last(c) == Some(i),
{
    s.index_of_last_ensures(c);
    assert(s.contains(c));
    let found = s.index_of_last(c)->0;
    if found > i {
        assert(s[found] != c);
    }
}

/// The pieces of `s` between the occurrences of `sep`: one more piece than
/// there are occurrences, none of them holding `sep`. The empty sequence has
/// one piece, itself.
pub open spec fn split_on(s: Seq<char>, sep: char) -> Seq<Seq<char>>
    decreases s.len(),
{
    match s.index_of_first(sep) {
        Some(i) if 0 <= i < s.len() => seq![s.take(i)] + split_on(s.skip(i + 1), sep),
        _ => seq![s],
    }
}

/// A sequence without `sep` is its own single piece.
pub proof fn lemma_split_whole(s: Seq<char>, sep: char)
    requires
        !s.contains(sep),
    ensures
        split_on(s, sep) == seq![s],
{
    s.index_of_first_ensures(sep);
}

/// Splitting `head`, `sep`, `rest` in a row, where `head` holds no `sep`,
/// gives `head` and then the pieces of `rest`.
pub proof fn lemma_split_step(head: Seq<char>, sep: char, rest: Seq<char>)
    requires
        !head.contains(sep),
    ensures
        split_on(head + seq![sep] + rest, sep) == seq![head] + split_on(rest, sep),
{
    let s = head + seq![sep] + rest;
    let i = head.len() as int;
    assert(s[i] == sep);
    assert forall|k: int| 0 <= k < i implies s[k] != sep by {
        assert(s[k] == head[k]);
    }
    lemma_first_index(s, sep, i);
    assert(s.take(i) == head);
    assert(s.skip(i + 1) == rest);
}

/// The character sequences that the vectors of `pieces` hold, in order.
pub open spec fn views_of(pieces: Seq<Vec<char>>) -> Seq<Seq<char>> {
    Seq::new(pieces.len(), |i: int| pieces[i]@)
}

/// The pieces of `chars` between the occurrences of `sep`.
pub fn split(chars: &Vec<char>, sep: char) -> (pieces: Vec<Vec<char>>)
    ensures
        views_of(pieces@) == split_on(chars@, sep),
{
    let mut pieces: Vec<Vec<char>> = Vec::new();
    let mut piece: Vec<char> = Vec::new();
    let mut start: usize = 0;
    let mut i: usize = 0;
    assert(views_of(pieces@) + split_on(chars@.skip(0), sep) == split_on(chars@, sep)) by {
        assert(chars@.skip(0) == chars@);
        assert(views_of(pieces@) == Seq::<Seq<char>>::empty());
    }
    while i < chars.len()
        invariant
            start <= i <= chars.len(),
            piece@ == chars@.subrange(start as int, i as int),
            forall|k: int| start <= k < i ==> chars@[k] != sep,
            split_on(chars@, sep) == views_of(pieces@) + split_on(chars@.skip(start as int), sep),
        decreases chars.len() - i,
    {
        let c = chars[i];
        if c == sep {
            proof {
                let rest = chars@.skip(start as int);
                let at = i - start;
                assert forall|k: int| 0 <= k < at implies rest[k] != sep by {
                    assert(rest[k] == chars@[start + k]);
                }
                lemma_first_index(rest, sep, at);
                assert(rest.take(at) == piece@);
                assert(rest.skip(at + 1) == chars@.skip(i + 1));
                assert(views_of(pieces@.push(piece)) == views_of(pieces@) + seq![piece@]);
            }
            pieces.push(piece);
            piece = Vec::new();
            start = i + 1;
        } else {
            piece.push(c);
        }
        i += 1;
    }
    proof {
        let rest = chars@.skip(start as int);
        assert(rest == piece@);
        assert(!rest.contains(sep)) by {
            if rest.contains(sep) {
                let k = choose|k: int| 0 <= k < rest.len() && rest[k] == sep;
                assert(rest[k] == chars@[start + k]);
            }
        }
        lemma_split_whole(rest, sep);
        assert(views_of(pieces@.push(piece)) == views_of(pieces@) + seq![piece@]);
    }
    pieces.push(piece);
    pieces
}

// ---------------------------------------------------------------------------
// Trimming

/// `s` without the spaces at its start.
pub open spec fn trim_start(s: Seq<char>) -> Seq<char>
    decreases s.len(),
{
    if s.len() > 0 && s[0] == ' ' {
        trim_start(s.drop_first())
    } else {
        s
    }
}

/// `s` without the spaces at its end.
pub open spec fn trim_end(s: Seq<char>) -> Seq<char>
    decreases s.len(),
{
    if s.len() > 0 && s.last() == ' ' {
        trim_end(s.drop_last())
    } else {
        s
    }
}

/// `s` without the spaces at its start and at its end.
pub open spec fn trimmed(s: Seq<char>) -> Seq<char> {
    trim_end(trim_start(s))
}

/// One space before a sequence that neither starts nor ends with a space is
/// trimmed away.
pub proof fn lemma_trimmed_after_space(s: Seq<char>)
    requires
        s.len() > 0 ==> s[0] != ' ' && s.last() != ' ',
    ensures
        trimmed(seq![' '] + s) == s,
{
    let t = seq![' '] + s;
    assert(t.drop_first() == s);
    assert(trim_start(t) == trim_start(s));
}

/// A copy of `chars` without the spaces at its start and at its end.
pub fn trim(chars: &Vec<char>) -> (out: Vec<char>)
    ensures
        out@ == trimmed(chars@),
{
    let mut from: usize = 0;
    assert(chars@.skip(0) == chars@);
    while from < chars.len() && chars[from] == ' '
        invariant
            from <= chars.len(),
            trim_start(chars@) == trim_start(chars@.skip(from as int)),
        decreases chars.len() - from,
    {
        assert(chars@.skip(from as int).drop_first() == chars@.skip(from + 1));
        from += 1;
    }
    assert(trim_start(chars@) == chars@.skip(from as int));
    let mut to: usize = chars.len();
    while to > from && chars[to - 1] == ' '
        invariant
            from <= to <= chars.len(),
            trimmed(chars@) == trim_end(chars@.subrange(from as int, to as int)),
        decreases to,
    {
        assert(chars@.subrange(from as int, to as int).drop_last() == chars@.subrange(
            from as int,
            to - 1,
        ));
        to -= 1;
    }
    slice(chars, from, to)
}

// ---------------------------------------------------------------------------
// Prefixes, words and joining

/// `s` without the pairs of dashes at its start.
pub open spec fn without_dashes(s: Seq<char>) -> Seq<char>
    decreases s.len(),
{
    if s.len() >= 2 && s[0] == '-' && s[1] == '-' {
        without_dashes(s.skip(2))
    } else {
        s
    }
}

/// A copy of `chars` without the pairs of dashes at its start.
pub fn strip_dashes(chars: &Vec<char>) -> (out: Vec<char>)
    ensures
        out@ == without_dashes(chars@),
{
    let mut from: usize = 0;
    assert(chars@.skip(0) == chars@);
    while chars.len() - from >= 2 && chars[from] == '-' && chars[from + 1] == '-'
        invariant
            from <= chars@.len(),
            without_dashes(chars@) == without_dashes(chars@.skip(from as int)),
        decreases chars.len() - from,
    {
        assert(chars@.skip(from as int).skip(2) == chars@.skip(from + 2));
        from += 2;
    }
    slice(chars, from, chars.len())
}

/// The sequences of `parts` in a row, with `sep` between each two.
pub open spec fn joined(parts: Seq<Seq<char>>, sep: Seq<char>) -> Seq<char>
    decreases parts.len(),
{
    if parts.len() == 0 {
        Seq::empty()
    } else if parts.len() == 1 {
        parts[0]
    } else {
        joined(parts.drop_last(), sep) + sep + parts.last()
    }
}

/// The character sequences that the strings of `parts` hold, in order.
pub open spec fn texts_of(parts: Seq<String>) -> Seq<Seq<char>> {
    Seq::new(parts.len(), |i: int| parts[i]@)
}

/// The strings of `parts` in a row, with `sep` between each two.
pub fn join(parts: &Vec<String>, sep: &str) -> (out: Vec<char>)
    ensures
        out@ == joined(texts_of(parts@), sep@),
{
    let mut out: Vec<char> = Vec::new();
    let mut i: usize = 0;
    assert(texts_of(parts@).take(0) == Seq::<Seq<char>>::empty());
    while i < parts.len()
        invariant
            i <= parts@.len(),
            out@ == joined(texts_of(parts@).take(i as int), sep@),
        decreases parts.len() - i,
    {
        let ghost head = texts_of(parts@).take(i as int);
        let ghost next = texts_of(parts@).take(i + 1);
        assert(next.drop_last() == head);
        assert(next.last() == parts@[i as int]@);
        if i > 0 {
            append_str(&mut out, sep);
        }
        append_str(&mut out, parts[i].as_str());
        assert(out@ == joined(next, sep@)) by {
            if i == 0 {
                assert(head.len() == 0);
                assert(next[0] == next.last());
            }
        }
        i += 1;
    }
    assert(texts_of(parts@).take(i as int) == texts_of(parts@));
    out
}

/// `s` without the copies of `prefix` at its start.
pub open spec fn without_prefixes(s: Seq<char>, prefix: Seq<char>) -> Seq<char>
    decreases s.len(),
{
    if prefix.len() > 0 && prefix.is_prefix_of(s) {
        without_prefixes(s.skip(prefix.len() as int), prefix)
    } else {
        s
    }
}

/// A copy of `chars` without the copies of `prefix` at its start.
pub fn strip_prefixes(chars: &Vec<char>, prefix: &str) -> (out: Vec<char>)
    ensures
        out@ == without_prefixes(chars@, prefix@),
{
    let lead = chars_of(prefix);
    if lead.len() == 0 {
        return slice(chars, 0, chars.len());
    }
    let mut rest = slice(chars, 0, chars.len());
    assert(rest@ == chars@);
    while has_prefix(&rest, &lead)
        invariant
            lead@ == prefix@,
            lead@.len() > 0,
            without_prefixes(chars@, prefix@) == without_prefixes(rest@, prefix@),
        decreases rest@.len(),
    {
        rest = slice(&rest, lead.len(), rest.len());
    }
    rest
}

/// The words of `s`: what stands between its spaces, but for what is empty.
pub open spec fn words_of(s: Seq<char>) -> Seq<Seq<char>> {
    nonempty(split_on(s, ' '))
}

/// `pieces` without the empty ones.
pub open spec fn nonempty(pieces: Seq<Seq<char>>) -> Seq<Seq<char>>
    decreases pieces.len(),
{
    if pieces.len() == 0 {
        Seq::empty()
    } else if pieces[0].len() == 0 {
        nonempty(pieces.drop_first())
    } else {
        seq![pieces[0]] + nonempty(pieces.drop_first())
    }
}

/// The words of `chars`.
pub fn words(chars: &Vec<char>) -> (found: Vec<Vec<char>>)
    ensures
        views_of(found@) == words_of(chars@),
{
    let pieces = split(chars, ' ');
    let mut found: Vec<Vec<char>> = Vec::new();
    let mut i: usize = 0;
    assert(views_of(pieces@).skip(0) == views_of(pieces@));
    assert(views_of(found@) == Seq::<Seq<char>>::empty());
    while i < pieces.len()
        invariant
            i <= pieces@.len(),
            words_of(chars@) == views_of(found@) + nonempty(views_of(pieces@).skip(i as int)),
            views_of(pieces@) == split_on(chars@, ' '),
        decreases pieces.len() - i,
    {
        let ghost left = views_of(pieces@).skip(i as int);
        assert(left[0] == pieces@[i as int]@);
        assert(left.drop_first() == views_of(pieces@).skip(i + 1));
        if pieces[i].len() > 0 {
            let piece = slice(&pieces[i], 0, pieces[i].len());
            assert(piece@ == pieces@[i as int]@);
            assert(views_of(found@.push(piece)) == views_of(found@) + seq![piece@]);
            found.push(piece);
        }
        i += 1;
    }
    assert(views_of(pieces@).skip(i as int).len() == 0);
    found
}

} // verus!

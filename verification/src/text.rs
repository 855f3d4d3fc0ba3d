//! Text helpers over sequences of characters: trimming, joining, splitting
//! into lines, and writing numbers in decimal.

use vstd::prelude::*;

verus! {

/// Appends one character to a string.
pub assume_specification[ String::push ](s: &mut String, c: char)
    ensures
        final(s)@ == old(s)@.push(c),
;

/// Removes the last character of a string and returns it; `None` when the
/// string is empty, which it then stays.
pub assume_specification[ String::pop ](s: &mut String) -> (c: Option<char>)
    ensures
        old(s)@.len() == 0 ==> c is None && final(s)@ == old(s)@,
        old(s)@.len() > 0 ==> c == Some(old(s)@.last()) && final(s)@ == old(s)@.drop_last(),
;

/// Removes every character of a string.
pub assume_specification[ String::clear ](s: &mut String)
    ensures
        final(s)@ == Seq::<char>::empty(),
;

/// The Unicode `White_Space` property.
pub open spec fn is_white(c: char) -> bool {
    let n = c as u32;
    ||| 0x09 <= n <= 0x0d
    ||| n == 0x20
    ||| n == 0x85
    ||| n == 0xa0
    ||| n == 0x1680
    ||| 0x2000 <= n <= 0x200a
    ||| n == 0x2028
    ||| n == 0x2029
    ||| n == 0x202f
    ||| n == 0x205f
    ||| n == 0x3000
}

/// `s` without its leading white space.
pub open spec fn trim_start(s: Seq<char>) -> Seq<char>
    decreases s.len(),
{
    if s.len() > 0 && is_white(s[0]) {
        trim_start(s.drop_first())
    } else {
        s
    }
}

/// `s` without its trailing white space.
pub open spec fn trim_end(s: Seq<char>) -> Seq<char>
    decreases s.len(),
{
    if s.len() > 0 && is_white(s.last()) {
        trim_end(s.drop_last())
    } else {
        s
    }
}

/// `s` without leading and trailing white space.
pub open spec fn trimmed(s: Seq<char>) -> Seq<char> {
    trim_end(trim_start(s))
}

/// `parts` one after the other, with `sep` between neighbours.
pub open spec fn joined(parts: Seq<Seq<char>>, sep: Seq<char>) -> Seq<char>
    decreases parts.len(),
{
    if parts.len() == 0 {
        Seq::empty()
    } else if parts.len() == 1 {
        parts[0]
    } else {
        joined(parts.drop_last(), sep) + sep + parts.last()
    }
}

/// The characters of each string of a sequence.
pub open spec fn views(strings: Seq<String>) -> Seq<Seq<char>> {
    strings.map_values(|s: String| s@)
}

/// The characters of an optional string slice.
pub open spec fn optional_str(s: Option<&str>) -> Option<Seq<char>> {
    match s {
        Some(chars) => Some(chars@),
        None => None,
    }
}

/// `part` stands somewhere in `s`.
pub open spec fn has_part(s: Seq<char>, part: Seq<char>) -> bool {
    exists|from: int| has_part_at(s, part, from)
}

/// `part` stands in `s` from this position on.
pub open spec fn has_part_at(s: Seq<char>, part: Seq<char>, from: int) -> bool {
    0 <= from <= s.len() - part.len() && s.subrange(from, from + part.len()) == part
}

/// `s` begins with `prefix`.
pub open spec fn has_prefix(s: Seq<char>, prefix: Seq<char>) -> bool {
    prefix.len() <= s.len() && s.take(prefix.len() as int) == prefix
}

/// `s` ends with `suffix`.
pub open spec fn has_suffix(s: Seq<char>, suffix: Seq<char>) -> bool {
    suffix.len() <= s.len() && s.skip(s.len() - suffix.len()) == suffix
}

/// The lower-case form of an ASCII letter; every other character is itself.
pub open spec fn ascii_lower(c: char) -> char {
    if 'A' <= c <= 'Z' {
        ((c as u32) + 32) as char
    } else {
        c
    }
}

/// The character of a decimal digit.
pub open spec fn digit(d: nat) -> char {
    (48 + d) as char
}

/// A number in decimal notation.
pub open spec fn decimal(n: nat) -> Seq<char>
    decreases n,
{
    if n < 10 {
        seq![digit(n)]
    } else {
        decimal(n / 10).push(digit(n % 10))
    }
}

/// `n` times the character `0`.
pub open spec fn zeros(n: nat) -> Seq<char> {
    Seq::new(n, |i: int| '0')
}

/// A number in decimal notation, with leading zeros up to `width` digits.
pub open spec fn padded(n: nat, width: nat) -> Seq<char> {
    let digits = decimal(n);
    if digits.len() < width {
        zeros((width - digits.len()) as nat) + digits
    } else {
        digits
    }
}

/// Where the first line break of `s` stands; the length of `s` if it has none.
pub open spec fn break_at(s: Seq<char>) -> nat
    decreases s.len(),
{
    if s.len() == 0 || s[0] == '\n' {
        0
    } else {
        1 + break_at(s.drop_first())
    }
}

/// `s` without the carriage return at its end, if there is one.
pub open spec fn without_return(s: Seq<char>) -> Seq<char> {
    if s.len() > 0 && s.last() == '\r' {
        s.drop_last()
    } else {
        s
    }
}

/// The lines of `s`: what stands before each line break, without the carriage
/// return that a break may begin with, and what stands after the last break, if
/// anything does.
pub open spec fn lines_of(s: Seq<char>) -> Seq<Seq<char>>
    decreases s.len(),
{
    if s.len() == 0 {
        Seq::empty()
    } else if break_at(s) < s.len() {
        seq![without_return(s.take(break_at(s) as int))] + lines_of(s.skip(break_at(s) as int + 1))
    } else {
        seq![s]
    }
}

/// The lines one after the other, each followed by a line break.
pub open spec fn line_block(lines: Seq<Seq<char>>) -> Seq<char>
    decreases lines.len(),
{
    if lines.len() == 0 {
        Seq::empty()
    } else {
        lines[0] + "\n"@ + line_block(lines.drop_first())
    }
}

/// No character of `s` is a control character, a line break least of all.
pub open spec fn no_control(s: Seq<char>) -> bool {
    forall|i: int| 0 <= i < s.len() ==> (#[trigger] s[i]) as u32 >= 0x20
}

/// Joining text without control characters brings none in.
pub proof fn lemma_joined_no_control(parts: Seq<Seq<char>>, sep: Seq<char>)
    requires
        forall|i: int| 0 <= i < parts.len() ==> no_control(#[trigger] parts[i]),
        no_control(sep),
    ensures
        no_control(joined(parts, sep)),
    decreases parts.len(),
{
    if parts.len() > 1 {
        lemma_joined_no_control(parts.drop_last(), sep);
    }
}

/// Each part stands in what is joined.
pub proof fn lemma_joined_has_part(parts: Seq<Seq<char>>, sep: Seq<char>, i: int)
    requires
        0 <= i < parts.len(),
    ensures
        has_part(joined(parts, sep), parts[i]),
    decreases parts.len(),
{
    let whole = joined(parts, sep);
    let part = parts[i];
    if parts.len() == 1 {
        assert(whole.subrange(0, part.len() as int) =~= part);
        assert(has_part_at(whole, part, 0));
    } else if i == parts.len() - 1 {
        let from = whole.len() - part.len();
        assert(whole.subrange(from, from + part.len()) =~= part);
        assert(has_part_at(whole, part, from));
    } else {
        let fewer = parts.drop_last();
        lemma_joined_has_part(fewer, sep, i);
        let from = choose|from: int| has_part_at(joined(fewer, sep), part, from);
        assert(whole.subrange(from, from + part.len()) =~= joined(fewer, sep).subrange(
            from,
            from + part.len(),
        ));
        assert(has_part_at(whole, part, from));
    }
}

/// The first line break is the one that no other stands before.
pub proof fn lemma_break_at(s: Seq<char>, n: nat)
    requires
        n <= s.len(),
        forall|i: int| 0 <= i < n ==> s[i] != '\n',
        n < s.len() ==> s[n as int] == '\n',
    ensures
        break_at(s) == n,
    decreases s.len(),
{
    if n > 0 {
        lemma_break_at(s.drop_first(), (n - 1) as nat);
    }
}

/// A block of lines is extended by one line at its end.
pub proof fn lemma_line_block_push(lines: Seq<Seq<char>>, line: Seq<char>)
    ensures
        line_block(lines.push(line)) == line_block(lines) + line + "\n"@,
    decreases lines.len(),
{
    if lines.len() == 0 {
        assert(lines.push(line).drop_first() =~= lines);
        assert(line_block(lines.push(line)) =~= line_block(lines) + line + "\n"@);
    } else {
        lemma_line_block_push(lines.drop_first(), line);
        assert(lines.push(line).drop_first() =~= lines.drop_first().push(line));
        assert(line_block(lines.push(line)) =~= line_block(lines) + line + "\n"@);
    }
}

/// A block of lines without control characters has exactly these lines.
pub proof fn lemma_lines_of_block(lines: Seq<Seq<char>>)
    requires
        forall|i: int| 0 <= i < lines.len() ==> no_control(#[trigger] lines[i]),
    ensures
        lines_of(line_block(lines)) == lines,
    decreases lines.len(),
{
    if lines.len() > 0 {
        let s = line_block(lines);
        let first = lines[0];
        reveal_strlit("\n");
        assert(no_control(first));
        lemma_lines_of_block(lines.drop_first());
        assert forall|i: int| 0 <= i < first.len() implies s[i] != '\n' by {
            assert(s[i] == first[i]);
        }
        lemma_break_at(s, first.len());
        assert(s.take(first.len() as int) =~= first);
        assert(without_return(first) == first);
        assert(s.skip(first.len() as int + 1) =~= line_block(lines.drop_first()));
        assert(seq![first] + lines.drop_first() =~= lines);
    }
}

/// Text with a character that is not white space does not vanish by trimming.
pub proof fn lemma_trimmed_keeps(s: Seq<char>, i: int)
    requires
        0 <= i < s.len(),
        !is_white(s[i]),
    ensures
        trimmed(s).len() > 0,
{
    lemma_trim_start_keeps(s, i);
    let j = choose|j: int| 0 <= j < trim_start(s).len() && !is_white(#[trigger] trim_start(s)[j]);
    lemma_trim_end_keeps(trim_start(s), j);
}

/// White space alone is trimmed away.
pub proof fn lemma_trimmed_blank(s: Seq<char>)
    requires
        forall|i: int| 0 <= i < s.len() ==> is_white(#[trigger] s[i]),
    ensures
        trimmed(s).len() == 0,
    decreases s.len(),
{
    if s.len() > 0 {
        lemma_trimmed_blank(s.drop_first());
    }
}

/// The characters of `s` that are not white space, in their order.
pub open spec fn unspaced(s: Seq<char>) -> Seq<char> {
    s.filter(|c: char| !is_white(c))
}

/// Text without white space is put together piece by piece.
pub proof fn lemma_unspaced_add(a: Seq<char>, b: Seq<char>)
    ensures
        unspaced(a + b) == unspaced(a) + unspaced(b),
{
    Seq::filter_distributes_over_add(a, b, |c: char| !is_white(c));
}

/// One character of white space is nothing without white space.
proof fn lemma_unspaced_white(c: char)
    requires
        is_white(c),
    ensures
        unspaced(seq![c]) == Seq::<char>::empty(),
{
    reveal(Seq::filter);
    let none = seq![c].drop_last();
    assert(none =~= Seq::empty());
    assert(none.filter(|c: char| !is_white(c)) =~= Seq::empty());
}

/// Trimming takes white space alone.
pub proof fn lemma_unspaced_trimmed(s: Seq<char>)
    ensures
        unspaced(trimmed(s)) == unspaced(s),
{
    lemma_unspaced_trim_start(s);
    lemma_unspaced_trim_end(trim_start(s));
}

proof fn lemma_unspaced_trim_start(s: Seq<char>)
    ensures
        unspaced(trim_start(s)) == unspaced(s),
    decreases s.len(),
{
    if s.len() > 0 && is_white(s[0]) {
        let rest = s.drop_first();
        lemma_unspaced_trim_start(rest);
        lemma_unspaced_add(seq![s[0]], rest);
        lemma_unspaced_white(s[0]);
        assert(seq![s[0]] + rest =~= s);
        assert(unspaced(s) =~= unspaced(rest));
    }
}

proof fn lemma_unspaced_trim_end(s: Seq<char>)
    ensures
        unspaced(trim_end(s)) == unspaced(s),
    decreases s.len(),
{
    if s.len() > 0 && is_white(s.last()) {
        let rest = s.drop_last();
        lemma_unspaced_trim_end(rest);
        lemma_unspaced_add(rest, seq![s.last()]);
        lemma_unspaced_white(s.last());
        assert(rest + seq![s.last()] =~= s);
        assert(unspaced(s) =~= unspaced(rest));
    }
}

proof fn lemma_trim_start_keeps(s: Seq<char>, i: int)
    requires
        0 <= i < s.len(),
        !is_white(s[i]),
    ensures
        exists|j: int| 0 <= j < trim_start(s).len() && !is_white(#[trigger] trim_start(s)[j]),
    decreases s.len(),
{
    if is_white(s[0]) {
        let t = s.drop_first();
        lemma_trim_start_keeps(t, i - 1);
        let j = choose|j: int|
            0 <= j < trim_start(t).len() && !is_white(#[trigger] trim_start(t)[j]);
        assert(!is_white(trim_start(s)[j]));
    } else {
        assert(!is_white(trim_start(s)[0]));
    }
}

proof fn lemma_trim_end_keeps(s: Seq<char>, i: int)
    requires
        0 <= i < s.len(),
        !is_white(s[i]),
    ensures
        trim_end(s).len() > 0,
    decreases s.len(),
{
    if is_white(s.last()) {
        lemma_trim_end_keeps(s.drop_last(), i);
    }
}

/// Tells whether a character is white space.
pub fn is_whitespace(c: char) -> (b: bool)
    ensures
        b == is_white(c),
{
    let n: u32 = c as u32;
    (0x09 <= n && n <= 0x0d) || n == 0x20 || n == 0x85 || n == 0xa0 || n == 0x1680 || (0x2000 <= n
        && n <= 0x200a) || n == 0x2028 || n == 0x2029 || n == 0x202f || n == 0x205f || n == 0x3000
}

/// The characters of a string, in order.
pub fn chars_of(s: &str) -> (chars: Vec<char>)
    ensures
        chars@ == s@,
{
    let mut chars: Vec<char> = Vec::new();
    for c in it: s.chars()
        invariant
            it.seq() == s@,
            chars@ == s@.take(it.index() as int),
    {
        chars.push(c);
    }
    chars
}

/// The string made of `chars[from..to]`.
pub fn string_of(chars: &Vec<char>, from: usize, to: usize) -> (s: String)
    requires
        from <= to <= chars@.len(),
    ensures
        s@ == chars@.subrange(from as int, to as int),
{
    let mut s = String::new();
    let mut i: usize = from;
    while i < to
        invariant
            from <= i <= to <= chars@.len(),
            s@ == chars@.subrange(from as int, i as int),
        decreases to - i,
    {
        s.push(chars[i]);
        i = i + 1;
    }
    s
}

/// `s` without leading and trailing white space.
pub fn trim(s: &str) -> (t: String)
    ensures
        t@ == trimmed(s@),
{
    let chars = chars_of(s);
    let mut from: usize = 0;
    assert(chars@.skip(0) =~= s@);
    while from < chars.len() && is_whitespace(chars[from])
        invariant
            from <= chars@.len(),
            trim_start(chars@.skip(from as int)) == trim_start(s@),
        decreases chars@.len() - from,
    {
        assert(chars@.skip(from as int).drop_first() =~= chars@.skip(from + 1));
        from = from + 1;
    }
    let ghost rest = chars@.skip(from as int);
    assert(trim_start(s@) == rest);
    let mut to: usize = chars.len();
    assert(chars@.subrange(from as int, to as int) =~= rest);
    while from < to && is_whitespace(chars[to - 1])
        invariant
            from <= to <= chars@.len(),
            trim_end(chars@.subrange(from as int, to as int)) == trim_end(rest),
        decreases to,
    {
        assert(chars@.subrange(from as int, to as int).drop_last() =~= chars@.subrange(
            from as int,
            to - 1,
        ));
        to = to - 1;
    }
    string_of(&chars, from, to)
}

/// The strings one after the other, with `sep` between neighbours.
pub fn join(parts: &Vec<String>, sep: &str) -> (s: String)
    ensures
        s@ == joined(views(parts@), sep@),
{
    let mut s = String::new();
    let ghost all = views(parts@);
    for i in 0..parts.len()
        invariant
            all == views(parts@),
            s@ == joined(all.take(i as int), sep@),
    {
        if i > 0 {
            s.append(sep);
        }
        s.append(parts[i].as_str());
        assert(all.take(i + 1).drop_last() =~= all.take(i as int));
    }
    assert(all.take(parts@.len() as int) =~= all);
    s
}

/// The lines of `s`.
pub fn lines(s: &str) -> (lines: Vec<String>)
    ensures
        views(lines@) == lines_of(s@),
{
    let chars = chars_of(s);
    let mut lines: Vec<String> = Vec::new();
    let mut from: usize = 0;
    assert(chars@.skip(0) =~= s@);
    assert(views(lines@) + lines_of(s@) =~= lines_of(s@));
    while from < chars.len()
        invariant
            from <= chars@.len(),
            views(lines@) + lines_of(chars@.skip(from as int)) == lines_of(s@),
        decreases chars@.len() - from,
    {
        let ghost rest = chars@.skip(from as int);
        let ghost before = lines@;
        let mut to: usize = from;
        while to < chars.len() && chars[to] != '\n'
            invariant
                from <= to <= chars@.len(),
                forall|i: int| from <= i < to ==> chars@[i] != '\n',
            decreases chars@.len() - to,
        {
            to = to + 1;
        }
        proof {
            lemma_break_at(rest, (to - from) as nat);
            assert(rest.take(to - from) =~= chars@.subrange(from as int, to as int));
        }
        if to < chars.len() {
            let end: usize = if to > from && chars[to - 1] == '\r' {
                to - 1
            } else {
                to
            };
            let line = string_of(&chars, from, end);
            let ghost shown = line@;
            lines.push(line);
            proof {
                assert(shown =~= without_return(rest.take(to - from)));
                assert(chars@.skip(to + 1) =~= rest.skip(to - from + 1));
                assert(views(lines@) =~= views(before).push(shown));
                assert(views(before).push(shown) + lines_of(chars@.skip(to + 1)) =~= views(before)
                    + (seq![shown] + lines_of(chars@.skip(to + 1))));
            }
            from = to + 1;
        } else {
            let line = string_of(&chars, from, to);
            let ghost shown = line@;
            lines.push(line);
            proof {
                assert(shown =~= rest);
                assert(views(lines@) =~= views(before).push(shown));
                assert(chars@.skip(to as int) =~= Seq::<char>::empty());
                assert(views(before).push(shown) + lines_of(chars@.skip(to as int)) =~= views(
                    before,
                ) + seq![rest]);
            }
            from = to;
        }
    }
    assert(chars@.skip(from as int) =~= Seq::<char>::empty());
    assert(views(lines@) + Seq::<Seq<char>>::empty() =~= views(lines@));
    lines
}

/// Tells whether `s` begins with `prefix`.
pub fn starts_with(s: &str, prefix: &str) -> (b: bool)
    ensures
        b == has_prefix(s@, prefix@),
{
    let chars = chars_of(s);
    let head = chars_of(prefix);
    if head.len() > chars.len() {
        return false;
    }
    for i in 0..head.len()
        invariant
            chars@ == s@,
            head@ == prefix@,
            head@.len() <= chars@.len(),
            forall|j: int| 0 <= j < i ==> chars@[j] == head@[j],
    {
        if chars[i] != head[i] {
            assert(s@.take(prefix@.len() as int)[i as int] != prefix@[i as int]);
            return false;
        }
    }
    assert(s@.take(prefix@.len() as int) =~= prefix@);
    true
}

/// Tells whether `s` ends with `suffix`.
pub fn ends_with(s: &str, suffix: &str) -> (b: bool)
    ensures
        b == has_suffix(s@, suffix@),
{
    let chars = chars_of(s);
    let tail = chars_of(suffix);
    if tail.len() > chars.len() {
        return false;
    }
    let len: usize = chars.len();
    let from: usize = len - tail.len();
    for i in 0..tail.len()
        invariant
            chars@ == s@,
            tail@ == suffix@,
            len == chars@.len(),
            from + tail@.len() == len,
            forall|j: int| 0 <= j < i ==> chars@[from + j] == tail@[j],
    {
        if chars[from + i] != tail[i] {
            assert(s@.skip(from as int)[i as int] != suffix@[i as int]);
            return false;
        }
    }
    assert(s@.skip(from as int) =~= suffix@);
    true
}

/// Tells whether `part` stands somewhere in `s`.
pub fn contains(s: &str, part: &str) -> (b: bool)
    ensures
        b == has_part(s@, part@),
{
    let chars = chars_of(s);
    let wanted = chars_of(part);
    if wanted.len() > chars.len() {
        return false;
    }
    let last: usize = chars.len() - wanted.len();
    let mut from: usize = 0;
    loop
        invariant
            chars@ == s@,
            wanted@ == part@,
            last + wanted@.len() == chars@.len(),
            chars@.len() <= usize::MAX,
            from <= last,
            forall|i: int| 0 <= i < from ==> !has_part_at(s@, part@, i),
        decreases last - from,
    {
        let mut n: usize = 0;
        while n < wanted.len() && chars[from + n] == wanted[n]
            invariant
                last + wanted@.len() == chars@.len(),
                chars@.len() <= usize::MAX,
                from <= last,
                n <= wanted@.len(),
                forall|j: int| 0 <= j < n ==> chars@[from + j] == wanted@[j],
            decreases wanted@.len() - n,
        {
            n = n + 1;
        }
        if n == wanted.len() {
            assert(s@.subrange(from as int, from + part@.len()) =~= part@);
            assert(has_part_at(s@, part@, from as int));
            return true;
        }
        assert(!has_part_at(s@, part@, from as int)) by {
            if has_part_at(s@, part@, from as int) {
                assert(s@.subrange(from as int, from + part@.len())[n as int] == part@[n as int]);
            }
        }
        if from == last {
            return false;
        }
        from = from + 1;
    }
}

/// `s` with its ASCII letters in lower case.
pub fn to_ascii_lower(s: &str) -> (lower: String)
    ensures
        lower@ == s@.map_values(|c: char| ascii_lower(c)),
{
    let chars = chars_of(s);
    let mut lower = String::new();
    for i in 0..chars.len()
        invariant
            chars@ == s@,
            lower@ == s@.take(i as int).map_values(|c: char| ascii_lower(c)),
    {
        let c = chars[i];
        let l = if 'A' <= c && c <= 'Z' {
            ((c as u8) + 32) as char
        } else {
            c
        };
        lower.push(l);
        assert(lower@ =~= s@.take(i + 1).map_values(|c: char| ascii_lower(c)));
    }
    assert(s@.take(chars@.len() as int) =~= s@);
    lower
}

/// Tells whether two strings have the same characters.
pub fn equal(a: &str, b: &str) -> (same: bool)
    ensures
        same == (a@ == b@),
{
    a.to_owned() == b.to_owned()
}

/// Appends a number in decimal notation.
pub fn push_decimal(out: &mut String, n: u64)
    ensures
        final(out)@ == old(out)@ + decimal(n as nat),
    decreases n,
{
    if n >= 10 {
        push_decimal(out, n / 10);
    }
    let d: u8 = (n % 10) as u8;
    out.push((48 + d) as char);
}

/// Appends a number in decimal notation, with leading zeros up to `width`
/// digits.
pub fn push_padded(out: &mut String, n: u64, width: usize)
    ensures
        final(out)@ == old(out)@ + padded(n as nat, width as nat),
{
    let mut digits = String::new();
    push_decimal(&mut digits, n);
    let len: usize = chars_of(digits.as_str()).len();
    let ghost before = out@;
    let mut i: usize = len;
    while i < width
        invariant
            digits@ == decimal(n as nat),
            len == digits@.len(),
            len <= i,
            len < width ==> i <= width,
            width <= len ==> i == len,
            out@ == before + zeros((i - len) as nat),
        decreases width - i,
    {
        out.push('0');
        i = i + 1;
    }
    out.append(digits.as_str());
}

/// White space is exactly these characters.
pub proof fn law_white_space(c: char)
    ensures
        is_white(c) <==> seq![
            '\t',
            '\n',
            '\x0b',
            '\x0c',
            '\r',
            ' ',
            '\u{85}',
            '\u{a0}',
            '\u{1680}',
            '\u{2000}',
            '\u{2001}',
            '\u{2002}',
            '\u{2003}',
            '\u{2004}',
            '\u{2005}',
            '\u{2006}',
            '\u{2007}',
            '\u{2008}',
            '\u{2009}',
            '\u{200a}',
            '\u{2028}',
            '\u{2029}',
            '\u{202f}',
            '\u{205f}',
            '\u{3000}',
        ].contains(c),
{
    let all = seq![
        '\t',
        '\n',
        '\x0b',
        '\x0c',
        '\r',
        ' ',
        '\u{85}',
        '\u{a0}',
        '\u{1680}',
        '\u{2000}',
        '\u{2001}',
        '\u{2002}',
        '\u{2003}',
        '\u{2004}',
        '\u{2005}',
        '\u{2006}',
        '\u{2007}',
        '\u{2008}',
        '\u{2009}',
        '\u{200a}',
        '\u{2028}',
        '\u{2029}',
        '\u{202f}',
        '\u{205f}',
        '\u{3000}',
    ];
    let n = c as u32;
    if is_white(c) {
        let i: int = if n <= 0x0d {
            n - 9
        } else if n == 0x20 {
            5
        } else if n == 0x85 {
            6
        } else if n == 0xa0 {
            7
        } else if n == 0x1680 {
            8
        } else if n <= 0x200a {
            9 + n - 0x2000
        } else if n == 0x2028 {
            20
        } else if n == 0x2029 {
            21
        } else if n == 0x202f {
            22
        } else if n == 0x205f {
            23
        } else {
            24
        };
        assert(all[i] as u32 == n);
        assert(all[i] == c);
    }
}

/// Some character of `s` is not white space.
pub open spec fn has_letter(s: Seq<char>) -> bool {
    exists|i: int| 0 <= i < s.len() && !is_white(#[trigger] s[i])
}

/// Trimming cuts white space, and nothing else, off both ends, until neither end
/// is white space. Nothing is left exactly where there was nothing but white
/// space.
pub proof fn law_trimming_cuts_white_space(s: Seq<char>)
    ensures
        exists|before: Seq<char>, after: Seq<char>|
            {
                &&& s == #[trigger] (before + trimmed(s) + after)
                &&& forall|i: int| 0 <= i < before.len() ==> is_white(#[trigger] before[i])
                &&& forall|i: int| 0 <= i < after.len() ==> is_white(#[trigger] after[i])
            },
        trimmed(s).len() > 0 ==> !is_white(trimmed(s)[0]) && !is_white(trimmed(s).last()),
        trimmed(s).len() > 0 <==> has_letter(s),
        unspaced(trimmed(s)) == unspaced(s),
{
    let start = trim_start(s);
    let n = lemma_trim_start_cuts(s);
    let m = lemma_trim_end_cuts(start);
    lemma_unspaced_trimmed(s);
    let before = s.take(n);
    let after = start.skip(m);
    assert forall|i: int| 0 <= i < after.len() implies is_white(#[trigger] after[i]) by {
        assert(after[i] == start[m + i]);
    }
    assert(s =~= before + trimmed(s) + after);
    if trimmed(s).len() > 0 {
        assert(s[n] == start[0]);
        assert(start[m - 1] == trimmed(s).last());
    }
    if has_letter(s) {
        let i = choose|i: int| 0 <= i < s.len() && !is_white(#[trigger] s[i]);
        lemma_trimmed_keeps(s, i);
    }
}

proof fn lemma_trim_start_cuts(s: Seq<char>) -> (n: int)
    ensures
        0 <= n <= s.len(),
        trim_start(s) == s.skip(n),
        forall|i: int| 0 <= i < n ==> is_white(#[trigger] s[i]),
        n < s.len() ==> !is_white(s[n]),
    decreases s.len(),
{
    if s.len() > 0 && is_white(s[0]) {
        let rest = s.drop_first();
        let n = lemma_trim_start_cuts(rest);
        assert(rest.skip(n) =~= s.skip(n + 1));
        assert forall|i: int| 0 <= i < n + 1 implies is_white(#[trigger] s[i]) by {
            if i > 0 {
                assert(rest[i - 1] == s[i]);
            }
        }
        n + 1
    } else {
        assert(s.skip(0) =~= s);
        0
    }
}

proof fn lemma_trim_end_cuts(s: Seq<char>) -> (n: int)
    ensures
        0 <= n <= s.len(),
        trim_end(s) == s.take(n),
        forall|i: int| n <= i < s.len() ==> is_white(#[trigger] s[i]),
        n > 0 ==> !is_white(s[n - 1]),
    decreases s.len(),
{
    if s.len() > 0 && is_white(s.last()) {
        let rest = s.drop_last();
        let n = lemma_trim_end_cuts(rest);
        assert(rest.take(n) =~= s.take(n));
        assert forall|i: int| n <= i < s.len() implies is_white(#[trigger] s[i]) by {
            if i < rest.len() {
                assert(rest[i] == s[i]);
            }
        }
        n
    } else {
        assert(s.take(s.len() as int) =~= s);
        s.len() as int
    }
}

/// Joined parts stand one after the other, with the separator between
/// neighbours and nowhere else: what is joined from two runs of parts is what is
/// joined from each, with one separator between.
pub proof fn law_joining_keeps_the_parts(
    some: Seq<Seq<char>>,
    more: Seq<Seq<char>>,
    part: Seq<char>,
    sep: Seq<char>,
)
    ensures
        joined(Seq::empty(), sep) == Seq::<char>::empty(),
        joined(seq![part], sep) == part,
        some.len() > 0 && more.len() > 0 ==> joined(some + more, sep) == joined(some, sep) + sep
            + joined(more, sep),
    decreases more.len(),
{
    if some.len() > 0 && more.len() > 0 {
        let all = some + more;
        if more.len() == 1 {
            assert(all.drop_last() =~= some);
        } else {
            let fewer = more.drop_last();
            law_joining_keeps_the_parts(some, fewer, part, sep);
            assert(all.drop_last() =~= some + fewer);
        }
        assert(joined(all, sep) =~= joined(some, sep) + sep + joined(more, sep));
    }
}

/// One more digit behind a number makes ten times the number and the digit; a
/// number below ten is its digit.
pub proof fn law_decimal_notation(n: nat, d: nat)
    requires
        d < 10,
    ensures
        decimal(d) == seq![('0' as u32 + d) as char],
        n > 0 ==> decimal(10 * n + d) == decimal(n).push(('0' as u32 + d) as char),
{
    if n > 0 {
        assert((10 * n + d) / 10 == n);
        assert((10 * n + d) % 10 == d);
    }
}

/// Different numbers are written differently.
pub proof fn law_numbers_are_told_apart(a: nat, b: nat)
    requires
        decimal(a) == decimal(b),
    ensures
        a == b,
    decreases a,
{
    lemma_decimal_len(a);
    lemma_decimal_len(b);
    assert(decimal(a).last() == digit(a % 10));
    assert(decimal(b).last() == digit(b % 10));
    assert((48 + a % 10) as char as u32 == 48 + a % 10);
    assert((48 + b % 10) as char as u32 == 48 + b % 10);
    if a >= 10 {
        assert(decimal(a).drop_last() =~= decimal(a / 10));
        assert(decimal(b).drop_last() =~= decimal(b / 10));
        law_numbers_are_told_apart(a / 10, b / 10);
    }
}

proof fn lemma_decimal_len(n: nat)
    ensures
        decimal(n).len() > 0,
        decimal(n).len() == 1 <==> n < 10,
{
    if n >= 10 {
        lemma_decimal_positive(n / 10);
    }
}

proof fn lemma_decimal_positive(n: nat)
    ensures
        decimal(n).len() > 0,
{
}

/// A padded number is the number with zeros, and nothing else, before it, at
/// least as wide as asked for and no wider than it has to be.
pub proof fn law_padding_adds_zeros(n: nat, width: nat)
    ensures
        has_suffix(padded(n, width), decimal(n)),
        padded(n, width).len() >= width,
        padded(n, width).len() == width || padded(n, width) == decimal(n),
        forall|i: int|
            0 <= i < padded(n, width).len() - decimal(n).len() ==> #[trigger] padded(n, width)[i]
                == '0',
{
    let whole = padded(n, width);
    assert(whole.skip(whole.len() - decimal(n).len()) =~= decimal(n));
}

/// A line break ends a line, with or without a carriage return before it, and
/// what follows has the lines that it would have alone. Text without a line
/// break is one line, unless there is none.
pub proof fn law_line_breaks_end_lines(line: Seq<char>, rest: Seq<char>)
    requires
        !line.contains('\n'),
    ensures
        lines_of(Seq::empty()) == Seq::<Seq<char>>::empty(),
        line.len() > 0 ==> lines_of(line) == seq![line],
        line.len() == 0 || line.last() != '\r' ==> lines_of(line + seq!['\n'] + rest) == seq![line]
            + lines_of(rest),
        lines_of(line + seq!['\r', '\n'] + rest) == seq![line] + lines_of(rest),
{
    assert forall|i: int| 0 <= i < line.len() implies line[i] != '\n' by {
        if line[i] == '\n' {
            assert(line.contains('\n'));
        }
    }
    if line.len() > 0 {
        lemma_break_at(line, line.len());
    }
    let plain = line + seq!['\n'] + rest;
    lemma_break_at(plain, line.len());
    assert(plain.take(line.len() as int) =~= line);
    assert(plain.skip(line.len() as int + 1) =~= rest);
    let returned = line + seq!['\r', '\n'] + rest;
    lemma_break_at(returned, line.len() + 1);
    assert(returned.take(line.len() as int + 1) =~= line.push('\r'));
    assert(line.push('\r').drop_last() =~= line);
    assert(returned.skip(line.len() as int + 2) =~= rest);
}

/// What a text begins with, ends with and holds.
pub proof fn law_parts_of_text(before: Seq<char>, part: Seq<char>, after: Seq<char>, s: Seq<char>)
    ensures
        has_prefix(part + after, part),
        has_suffix(before + part, part),
        has_part(before + part + after, part),
        has_prefix(s, part) ==> exists|rest: Seq<char>| s == #[trigger] (part + rest),
        has_suffix(s, part) ==> exists|rest: Seq<char>| s == #[trigger] (rest + part),
        has_part(s, part) ==> exists|front: Seq<char>, back: Seq<char>|
            s == #[trigger] (front + part + back),
{
    assert((part + after).take(part.len() as int) =~= part);
    assert((before + part).skip(before.len() as int) =~= part);
    let whole = before + part + after;
    assert(whole.subrange(before.len() as int, before.len() as int + part.len()) =~= part);
    assert(has_part_at(whole, part, before.len() as int));
    if has_prefix(s, part) {
        assert(s =~= part + s.skip(part.len() as int));
    }
    if has_suffix(s, part) {
        assert(s =~= s.take(s.len() - part.len()) + part);
    }
    if has_part(s, part) {
        let from = choose|from: int| has_part_at(s, part, from);
        assert(s =~= s.take(from) + s.subrange(from, from + part.len()) + s.skip(
            from + part.len(),
        ));
    }
}

/// A capital letter becomes the small letter at its place of the alphabet; no
/// other character changes.
pub proof fn law_lower_case(c: char)
    ensures
        'A' <= c <= 'Z' ==> {
            &&& 'a' <= ascii_lower(c) <= 'z'
            &&& ascii_lower(c) as u32 - 'a' as u32 == c as u32 - 'A' as u32
        },
        !('A' <= c <= 'Z') ==> ascii_lower(c) == c,
{
    if 'A' <= c <= 'Z' {
        let n = c as u32;
        assert(65 <= n <= 90);
        assert(((n + 32) as char) as u32 == n + 32);
    }
}

/// What texts say one after the other, without white space.
pub open spec fn letters_of(texts: Seq<Seq<char>>) -> Seq<char>
    decreases texts.len(),
{
    if texts.len() == 0 {
        Seq::empty()
    } else {
        letters_of(texts.drop_last()) + unspaced(texts.last())
    }
}

/// What is said by one more text.
pub proof fn lemma_letters_of_push(texts: Seq<Seq<char>>, more: Seq<char>)
    ensures
        letters_of(texts.push(more)) == letters_of(texts) + unspaced(more),
{
    assert(texts.push(more).drop_last() =~= texts);
}

/// Joining by white space loses no letter.
pub proof fn lemma_letters_of_joined(texts: Seq<Seq<char>>, sep: Seq<char>)
    requires
        unspaced(sep) == Seq::<char>::empty(),
    ensures
        letters_of(texts) == unspaced(joined(texts, sep)),
    decreases texts.len(),
{
    if texts.len() == 0 {
        lemma_unspaced_empty();
    } else {
        let fewer = texts.drop_last();
        lemma_letters_of_joined(fewer, sep);
        if texts.len() == 1 {
            assert(fewer =~= Seq::empty());
            assert(letters_of(texts) =~= unspaced(texts[0]));
        } else {
            lemma_unspaced_add(joined(fewer, sep), sep);
            lemma_unspaced_add(joined(fewer, sep) + sep, texts.last());
            assert(unspaced(joined(texts, sep)) =~= letters_of(texts));
        }
    }
}

/// Nothing is nothing without white space.
pub proof fn lemma_unspaced_empty()
    ensures
        unspaced(Seq::empty()) == Seq::<char>::empty(),
        unspaced(""@) == Seq::<char>::empty(),
        unspaced(" "@) == Seq::<char>::empty(),
{
    reveal(Seq::filter);
    reveal_strlit("");
    reveal_strlit(" ");
    assert(""@ =~= Seq::empty());
    assert(unspaced(Seq::empty()) =~= Seq::empty());
    lemma_unspaced_white(' ');
    assert(" "@ =~= seq![' ']);
}

/// What is known of strings is their characters, string by string.
pub proof fn law_views_are_the_strings(strings: Seq<String>, i: int, s: &str)
    ensures
        views(strings).len() == strings.len(),
        0 <= i < strings.len() ==> views(strings)[i] == strings[i]@,
        optional_str(Some(s)) == Some(s@),
        optional_str(None) is None,
{
}

/// A block has every line, in order, each followed by a line break.
pub proof fn law_blocks_have_every_line(lines: Seq<Seq<char>>, line: Seq<char>)
    ensures
        line_block(Seq::empty()) == Seq::<char>::empty(),
        line_block(lines.push(line)) == line_block(lines) + line + seq!['\n'],
{
    lemma_line_block_push(lines, line);
    reveal_strlit("\n");
    assert("\n"@ =~= seq!['\n']);
}

} // verus!

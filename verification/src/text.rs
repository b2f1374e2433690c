//! Text helpers with exact contracts over sequences of characters.

use vstd::prelude::*;

verus! {

/// `String::push` appends one character and leaves the rest as it was.
pub assume_specification[ String::push ](s: &mut String, c: char)
    ensures
        final(s)@ == old(s)@.push(c),
;

/// True exactly when both texts hold the same characters.
pub fn same_text(left: &str, right: &str) -> (same: bool)
    ensures
        same == (left@ == right@),
{
    left.to_owned() == right.to_owned()
}

/// The characters of a text, in order.
pub fn chars_of(text: &str) -> (chars: Vec<char>)
    ensures
        chars@ == text@,
{
    let mut chars: Vec<char> = Vec::new();
    for c in iter: text.chars()
        invariant
            iter.seq() == text@,
            chars@ == text@.take(iter.index() as int),
    {
        chars.push(c);
    }
    chars
}

/// The digit `d` as a character: `0..=9`, and `a..=f` above.
pub open spec fn digit_char(d: int) -> char {
    if d < 10 {
        (48 + d) as char
    } else {
        (87 + d) as char
    }
}

/// Decimal notation of `n`, without leading zeros.
pub open spec fn decimal(n: nat) -> Seq<char>
    decreases n,
{
    if n < 10 {
        seq![digit_char(n as int)]
    } else {
        decimal(n / 10).push(digit_char((n % 10) as int))
    }
}

/// One decimal or hexadecimal digit.
pub fn digit(d: u8) -> (c: char)
    requires
        d < 16,
    ensures
        c == digit_char(d as int),
{
    if d < 10 {
        (48u8 + d) as char
    } else {
        (87u8 + d) as char
    }
}

/// Appends `n` in decimal notation.
pub fn push_decimal(out: &mut String, n: u64)
    ensures
        final(out)@ == old(out)@ + decimal(n as nat),
    decreases n,
{
    if n >= 10 {
        push_decimal(out, n / 10);
        let d: u8 = (n % 10) as u8;
        out.push(digit(d));
    } else {
        let d: u8 = n as u8;
        out.push(digit(d));
    }
}

/// A whole number in decimal digits, behind a minus sign where it is negative.
pub open spec fn signed(n: int) -> Seq<char> {
    if n < 0 {
        "-"@ + decimal((-n) as nat)
    } else {
        decimal(n as nat)
    }
}

/// Appends a whole number in decimal digits.
pub fn push_signed(out: &mut String, n: i64)
    ensures
        final(out)@ == old(out)@ + signed(n as int),
{
    if n < 0 {
        push_text(out, "-");
        let magnitude: u64 = (-(n + 1)) as u64 + 1;
        push_decimal(out, magnitude);
        assert(out@ =~= old(out)@ + signed(n as int));
    } else {
        push_decimal(out, n as u64);
    }
}

/// Appends one text to another.
pub fn push_text(out: &mut String, piece: &str)
    ensures
        final(out)@ == old(out)@ + piece@,
{
    out.append(piece);
}

/// Order of texts: character by character, a proper prefix first.
pub open spec fn text_before(left: Seq<char>, right: Seq<char>) -> bool
    decreases left.len(),
{
    if right.len() == 0 {
        false
    } else if left.len() == 0 {
        true
    } else if left[0] == right[0] {
        text_before(left.skip(1), right.skip(1))
    } else {
        left[0] < right[0]
    }
}

/// The characters of an optional text.
pub open spec fn opt_text(text: Option<String>) -> Option<Seq<char>> {
    match text {
        Some(chars) => Some(chars@),
        None => None,
    }
}

/// Whether one text comes before another.
pub fn comes_before(left: &str, right: &str) -> (before: bool)
    ensures
        before == text_before(left@, right@),
{
    let a = chars_of(left);
    let b = chars_of(right);
    let mut i: usize = 0;
    assert(left@.skip(0) =~= left@);
    assert(right@.skip(0) =~= right@);
    while i < a.len() && i < b.len()
        invariant
            a@ == left@,
            b@ == right@,
            i <= a@.len(),
            i <= b@.len(),
            text_before(left@, right@) == text_before(left@.skip(i as int), right@.skip(i as int)),
        decreases a@.len() - i,
    {
        assert(left@.skip(i as int)[0] == a@[i as int]);
        assert(right@.skip(i as int)[0] == b@[i as int]);
        assert(left@.skip(i as int).skip(1) =~= left@.skip(i as int + 1));
        assert(right@.skip(i as int).skip(1) =~= right@.skip(i as int + 1));
        if a[i] != b[i] {
            return a[i] < b[i];
        }
        i += 1;
    }
    i < b.len()
}

pub proof fn lemma_text_before_irreflexive(text: Seq<char>)
    ensures
        !text_before(text, text),
    decreases text.len(),
{
    if text.len() > 0 {
        lemma_text_before_irreflexive(text.skip(1));
    }
}

pub proof fn lemma_text_before_transitive(a: Seq<char>, b: Seq<char>, c: Seq<char>)
    requires
        text_before(a, b),
        text_before(b, c),
    ensures
        text_before(a, c),
    decreases a.len(),
{
    if a.len() > 0 && a[0] == b[0] && b[0] == c[0] {
        lemma_text_before_transitive(a.skip(1), b.skip(1), c.skip(1));
    }
}

pub proof fn lemma_text_before_total(a: Seq<char>, b: Seq<char>)
    ensures
        a == b || text_before(a, b) || text_before(b, a),
    decreases a.len(),
{
    if a.len() > 0 && b.len() > 0 && a[0] == b[0] {
        lemma_text_before_total(a.skip(1), b.skip(1));
        if a.skip(1) == b.skip(1) {
            assert(a =~= seq![a[0]] + a.skip(1));
            assert(b =~= seq![b[0]] + b.skip(1));
        }
    } else if a.len() == 0 && b.len() == 0 {
        assert(a =~= b);
    }
}

/// What two texts begin with alike does not count for their order.
pub proof fn lemma_text_before_prefix(front: Seq<char>, left: Seq<char>, right: Seq<char>)
    ensures
        text_before(front + left, front + right) == text_before(left, right),
    decreases front.len(),
{
    if front.len() == 0 {
        assert(front + left =~= left);
        assert(front + right =~= right);
    } else {
        lemma_text_before_prefix(front.skip(1), left, right);
        assert((front + left).skip(1) =~= front.skip(1) + left);
        assert((front + right).skip(1) =~= front.skip(1) + right);
    }
}

/// What follows two texts of one length does not count for their order where they differ.
pub proof fn lemma_text_before_extends(
    left: Seq<char>,
    right: Seq<char>,
    left_rest: Seq<char>,
    right_rest: Seq<char>,
)
    requires
        left.len() == right.len(),
        text_before(left, right),
    ensures
        text_before(left + left_rest, right + right_rest),
    decreases left.len(),
{
    if left[0] == right[0] {
        lemma_text_before_extends(left.skip(1), right.skip(1), left_rest, right_rest);
        assert((left + left_rest).skip(1) =~= left.skip(1) + left_rest);
        assert((right + right_rest).skip(1) =~= right.skip(1) + right_rest);
    }
}

/// A character with ASCII capitals turned into small letters.
pub open spec fn lower(c: char) -> char {
    if 'A' <= c && c <= 'Z' {
        ((c as u8) + 32) as char
    } else {
        c
    }
}

/// A text with ASCII capitals turned into small letters.
pub open spec fn lowercase(text: Seq<char>) -> Seq<char> {
    Seq::new(text.len(), |i: int| lower(text[i]))
}

fn lower_char(c: char) -> (small: char)
    ensures
        small == lower(c),
{
    if 'A' <= c && c <= 'Z' {
        (c as u8 + 32) as char
    } else {
        c
    }
}

/// The characters of a text with ASCII capitals turned into small letters.
pub fn lower_chars(chars: &Vec<char>) -> (small: Vec<char>)
    ensures
        small@ == lowercase(chars@),
{
    let mut small: Vec<char> = Vec::new();
    let mut i: usize = 0;
    while i < chars.len()
        invariant
            i <= chars@.len(),
            small@ == lowercase(chars@).take(i as int),
        decreases chars@.len() - i,
    {
        small.push(lower_char(chars[i]));
        i += 1;
        assert(small@ =~= lowercase(chars@).take(i as int));
    }
    assert(small@ =~= lowercase(chars@));
    small
}

/// The characters that count as white space.
pub open spec fn is_white(c: char) -> bool {
    let code = c as int;
    ||| 0x9 <= code <= 0xd
    ||| code == 0x20
    ||| code == 0x85
    ||| code == 0xa0
    ||| code == 0x1680
    ||| 0x2000 <= code <= 0x200a
    ||| code == 0x2028
    ||| code == 0x2029
    ||| code == 0x202f
    ||| code == 0x205f
    ||| code == 0x3000
}

/// Whether a character is white space.
pub fn white(c: char) -> (found: bool)
    ensures
        found == is_white(c),
{
    let code: u32 = c as u32;
    (0x9 <= code && code <= 0xd) || code == 0x20 || code == 0x85 || code == 0xa0 || code == 0x1680
        || (0x2000 <= code && code <= 0x200a) || code == 0x2028 || code == 0x2029 || code == 0x202f
        || code == 0x205f || code == 0x3000
}

/// A text without the white space at its beginning.
pub open spec fn trimmed_start(text: Seq<char>) -> Seq<char>
    decreases text.len(),
{
    if text.len() > 0 && is_white(text[0]) {
        trimmed_start(text.skip(1))
    } else {
        text
    }
}

/// A text without the white space at its end.
pub open spec fn trimmed_end(text: Seq<char>) -> Seq<char>
    decreases text.len(),
{
    if text.len() > 0 && is_white(text.last()) {
        trimmed_end(text.drop_last())
    } else {
        text
    }
}

/// A text without the white space around it.
pub open spec fn trimmed(text: Seq<char>) -> Seq<char> {
    trimmed_end(trimmed_start(text))
}

/// The part of a list of characters between two positions.
pub fn part(chars: &Vec<char>, from: usize, to: usize) -> (piece: Vec<char>)
    requires
        from <= to <= chars@.len(),
    ensures
        piece@ == chars@.subrange(from as int, to as int),
{
    let mut piece: Vec<char> = Vec::new();
    let mut i: usize = from;
    while i < to
        invariant
            from <= i <= to <= chars@.len(),
            piece@ == chars@.subrange(from as int, i as int),
        decreases to - i,
    {
        piece.push(chars[i]);
        i += 1;
        assert(piece@ =~= chars@.subrange(from as int, i as int));
    }
    piece
}

/// Takes the white space around a text away.
pub fn trim_chars(chars: &Vec<char>) -> (core: Vec<char>)
    ensures
        core@ == trimmed(chars@),
{
    let mut from: usize = 0;
    assert(chars@.skip(0) =~= chars@);
    while from < chars.len() && white(chars[from])
        invariant
            from <= chars@.len(),
            trimmed_start(chars@) == trimmed_start(chars@.skip(from as int)),
        decreases chars@.len() - from,
    {
        assert(chars@.skip(from as int)[0] == chars@[from as int]);
        assert(chars@.skip(from as int).skip(1) =~= chars@.skip(from as int + 1));
        from += 1;
    }
    let ghost rest = chars@.skip(from as int);
    assert(trimmed_start(chars@) == rest) by {
        if rest.len() > 0 {
            assert(rest[0] == chars@[from as int]);
        }
    }
    let mut to: usize = chars.len();
    assert(rest =~= chars@.subrange(from as int, to as int));
    while to > from && white(chars[to - 1])
        invariant
            from <= to <= chars@.len(),
            trimmed_end(rest) == trimmed_end(chars@.subrange(from as int, to as int)),
        decreases to,
    {
        let ghost cut = chars@.subrange(from as int, to as int);
        assert(cut.last() == chars@[to - 1]);
        assert(cut.drop_last() =~= chars@.subrange(from as int, to - 1));
        to -= 1;
    }
    assert(trimmed(chars@) == chars@.subrange(from as int, to as int)) by {
        let cut = chars@.subrange(from as int, to as int);
        if cut.len() > 0 {
            assert(cut.last() == chars@[to - 1]);
        }
    }
    part(chars, from, to)
}

/// `needle` stands in `hay` at position `i`.
pub open spec fn occurs_at(hay: Seq<char>, needle: Seq<char>, i: int) -> bool {
    0 <= i && i + needle.len() <= hay.len() && hay.subrange(i, i + needle.len()) == needle
}

/// `needle` stands somewhere in `hay`.
pub open spec fn occurs_in(hay: Seq<char>, needle: Seq<char>) -> bool {
    exists|i: int| occurs_at(hay, needle, i)
}

/// Whether `needle` stands in `hay` at position `i`.
pub fn stands_at(hay: &Vec<char>, needle: &Vec<char>, i: usize) -> (found: bool)
    ensures
        found == occurs_at(hay@, needle@, i as int),
{
    let len: usize = hay.len();
    if i > len || needle.len() > len - i {
        return false;
    }
    let mut k: usize = 0;
    while k < needle.len()
        invariant
            len == hay@.len(),
            i + needle@.len() <= len,
            k <= needle@.len(),
            forall|j: int| 0 <= j < k ==> #[trigger] needle@[j] == hay@[i + j],
        decreases needle@.len() - k,
    {
        if hay[i + k] != needle[k] {
            assert(hay@.subrange(i as int, i + needle@.len())[k as int] == hay@[i + k]);
            return false;
        }
        k += 1;
    }
    assert(hay@.subrange(i as int, i + needle@.len()) =~= needle@);
    true
}

/// The first position at or behind `from` at which `needle` stands in `hay`.
pub fn find_from(hay: &Vec<char>, needle: &Vec<char>, from: usize) -> (found: Option<usize>)
    requires
        from <= hay@.len(),
    ensures
        found matches Some(i) ==> from <= i && occurs_at(hay@, needle@, i as int) && forall|j: int|
            from <= j < i ==> !occurs_at(hay@, needle@, j),
        found is None ==> forall|j: int| from <= j ==> !occurs_at(hay@, needle@, j),
{
    let mut i: usize = from;
    while i < hay.len()
        invariant
            from <= i <= hay@.len(),
            forall|j: int| from <= j < i ==> !occurs_at(hay@, needle@, j),
        decreases hay@.len() - i,
    {
        if stands_at(hay, needle, i) {
            return Some(i);
        }
        i += 1;
    }
    if stands_at(hay, needle, i) {
        return Some(i);
    }
    None
}

/// Whether `needle` stands somewhere in `hay`.
pub fn contains_text(hay: &Vec<char>, needle: &Vec<char>) -> (found: bool)
    ensures
        found == occurs_in(hay@, needle@),
{
    find_from(hay, needle, 0).is_some()
}

/// A text that holds the given characters.
pub fn text_of(chars: &Vec<char>) -> (text: String)
    ensures
        text@ == chars@,
{
    let mut text = String::new();
    let mut i: usize = 0;
    while i < chars.len()
        invariant
            i <= chars@.len(),
            text@ == chars@.take(i as int),
        decreases chars@.len() - i,
    {
        text.push(chars[i]);
        i += 1;
        assert(text@ =~= chars@.take(i as int));
    }
    assert(text@ =~= chars@);
    text
}

pub proof fn lemma_trim_blank(text: Seq<char>)
    requires
        forall|i: int| 0 <= i < text.len() ==> is_white(#[trigger] text[i]),
    ensures
        trimmed(text).len() == 0,
    decreases text.len(),
{
    if text.len() > 0 {
        assert(is_white(text[0]));
        assert forall|i: int| 0 <= i < text.skip(1).len() implies is_white(
            #[trigger] text.skip(1)[i],
        ) by {
            assert(text.skip(1)[i] == text[i + 1]);
        }
        lemma_trim_blank(text.skip(1));
    }
}

proof fn lemma_trim_start_lowercase(text: Seq<char>)
    ensures
        trimmed_start(lowercase(text)) == lowercase(trimmed_start(text)),
    decreases text.len(),
{
    if text.len() > 0 && is_white(text[0]) {
        assert(lowercase(text).skip(1) =~= lowercase(text.skip(1)));
        lemma_trim_start_lowercase(text.skip(1));
    }
}

proof fn lemma_trim_end_lowercase(text: Seq<char>)
    ensures
        trimmed_end(lowercase(text)) == lowercase(trimmed_end(text)),
    decreases text.len(),
{
    if text.len() > 0 && is_white(text.last()) {
        assert(lowercase(text).drop_last() =~= lowercase(text.drop_last()));
        lemma_trim_end_lowercase(text.drop_last());
    }
}

/// It makes no difference whether a text is trimmed first or turned into small letters.
pub proof fn lemma_trim_lowercase(text: Seq<char>)
    ensures
        trimmed(lowercase(text)) == lowercase(trimmed(text)),
{
    lemma_trim_start_lowercase(text);
    lemma_trim_end_lowercase(trimmed_start(text));
}

/// The texts of a list of strings.
pub open spec fn texts(list: Seq<String>) -> Seq<Seq<char>> {
    Seq::new(list.len(), |i: int| list[i]@)
}

/// A copy of a list of texts.
pub fn copy_texts(list: &Vec<String>) -> (copy: Vec<String>)
    ensures
        texts(copy@) == texts(list@),
{
    let mut copy: Vec<String> = Vec::new();
    let mut i: usize = 0;
    while i < list.len()
        invariant
            i <= list@.len(),
            texts(copy@) == texts(list@).take(i as int),
        decreases list@.len() - i,
    {
        let ghost before = copy@;
        copy.push(list[i].clone());
        assert(texts(copy@) =~= texts(before).push(list@[i as int]@));
        i += 1;
        assert(texts(copy@) =~= texts(list@).take(i as int));
    }
    assert(texts(copy@) =~= texts(list@));
    copy
}

/// A copy of an optional text.
pub fn copy_opt_text(text: &Option<String>) -> (copy: Option<String>)
    ensures
        opt_text(copy) == opt_text(*text),
{
    match text {
        Some(chars) => Some(chars.clone()),
        None => None,
    }
}

/// Two decimal digits.
pub open spec fn two_digits(n: int) -> Seq<char> {
    seq![digit_char(n / 10), digit_char(n % 10)]
}

/// Appends a number below one hundred as two digits.
pub fn push_two_digits(out: &mut String, n: u64)
    requires
        n < 100,
    ensures
        final(out)@ == old(out)@ + two_digits(n as int),
{
    out.push(digit((n / 10) as u8));
    out.push(digit((n % 10) as u8));
    assert(out@ =~= old(out)@ + two_digits(n as int));
}

/// The position of the first line feed, or the length where there is none.
pub open spec fn line_feed(text: Seq<char>) -> int
    decreases text.len(),
{
    if text.len() == 0 || text[0] == '\n' {
        0
    } else {
        1 + line_feed(text.skip(1))
    }
}

/// A line without the carriage return in front of its line feed.
pub open spec fn without_return(line: Seq<char>) -> Seq<char> {
    if line.len() > 0 && line.last() == '\r' {
        line.drop_last()
    } else {
        line
    }
}

/// The lines of a text, without their ends. Text behind the last line feed is a
/// line too, if there is any.
pub open spec fn lines(text: Seq<char>) -> Seq<Seq<char>>
    decreases text.len(),
{
    if text.len() == 0 {
        Seq::empty()
    } else {
        let end = line_feed(text);
        if 0 <= end < text.len() {
            seq![without_return(text.take(end))] + lines(text.skip(end + 1))
        } else {
            seq![text]
        }
    }
}

proof fn lemma_line_feed(text: Seq<char>)
    ensures
        0 <= line_feed(text) <= text.len(),
        line_feed(text) < text.len() ==> text[line_feed(text)] == '\n',
        forall|i: int| 0 <= i < line_feed(text) ==> text[i] != '\n',
    decreases text.len(),
{
    if text.len() > 0 && text[0] != '\n' {
        let rest = text.skip(1);
        lemma_line_feed(rest);
        assert forall|i: int| 0 <= i < line_feed(text) implies text[i] != '\n' by {
            if i > 0 {
                assert(rest[i - 1] == text[i]);
            }
        }
    }
}

/// The first line feed is where one stands with none before.
pub proof fn lemma_line_feed_is(text: Seq<char>, end: int)
    requires
        0 <= end <= text.len(),
        end < text.len() ==> text[end] == '\n',
        forall|i: int| 0 <= i < end ==> text[i] != '\n',
    ensures
        line_feed(text) == end,
{
    lemma_line_feed(text);
    if line_feed(text) < end {
        assert(text[line_feed(text)] != '\n');
    }
}

/// The lines of a text.
pub fn lines_of(text: &str) -> (list: Vec<String>)
    ensures
        texts(list@) == lines(text@),
{
    let chars = chars_of(text);
    let len: usize = chars.len();
    let mut list: Vec<String> = Vec::new();
    let mut from: usize = 0;
    assert(text@.skip(0) =~= text@);
    assert(texts(list@) + lines(text@.skip(0)) =~= lines(text@));
    while from < len
        invariant
            chars@ == text@,
            len == chars@.len(),
            from <= len,
            texts(list@) + lines(text@.skip(from as int)) == lines(text@),
        decreases len - from,
    {
        let ghost tail = text@.skip(from as int);
        let ghost before = list@;
        let mut end: usize = from;
        while end < len && chars[end] != '\n'
            invariant
                chars@ == text@,
                len == chars@.len(),
                from <= end <= len,
                tail == text@.skip(from as int),
                forall|i: int| 0 <= i < end - from ==> tail[i] != '\n',
            decreases len - end,
        {
            assert(tail[end - from] == chars@[end as int]);
            end += 1;
        }
        proof {
            if end < len {
                assert(tail[end - from] == chars@[end as int]);
            }
            lemma_line_feed_is(tail, end - from);
        }
        if end == len {
            let line = text_of(&part(&chars, from, len));
            assert(line@ =~= tail);
            list.push(line);
            from = len;
            assert(texts(list@) =~= texts(before).push(tail));
            assert(texts(list@) + lines(text@.skip(from as int)) =~= texts(before) + lines(tail));
        } else {
            let cut: usize = if end > from && chars[end - 1] == '\r' {
                end - 1
            } else {
                end
            };
            let line = text_of(&part(&chars, from, cut));
            let ghost whole = tail.take(end - from);
            assert(whole =~= text@.subrange(from as int, end as int));
            assert(line@ =~= without_return(whole)) by {
                if end > from {
                    assert(whole.last() == chars@[end - 1]);
                }
            }
            list.push(line);
            assert(tail.skip(end - from + 1) =~= text@.skip(end as int + 1));
            from = end + 1;
            assert(texts(list@) =~= texts(before).push(without_return(whole)));
            assert(texts(list@) + lines(text@.skip(from as int)) =~= texts(before) + lines(tail));
        }
    }
    assert(lines(text@.skip(from as int)) =~= Seq::<Seq<char>>::empty());
    assert(texts(list@) =~= lines(text@));
    list
}

/// A text that begins with another one.
pub open spec fn begins_with(text: Seq<char>, prefix: Seq<char>) -> bool {
    occurs_at(text, prefix, 0)
}

/// A text that ends with another one.
pub open spec fn ends_with(text: Seq<char>, suffix: Seq<char>) -> bool {
    occurs_at(text, suffix, text.len() - suffix.len())
}

/// What follows a prefix, where the text begins with it.
pub fn strip_prefix(chars: &Vec<char>, prefix: &Vec<char>) -> (rest: Option<Vec<char>>)
    ensures
        rest is Some <==> begins_with(chars@, prefix@),
        rest matches Some(tail) ==> tail@ == chars@.skip(prefix@.len() as int),
{
    if stands_at(chars, prefix, 0) {
        let tail = part(chars, prefix.len(), chars.len());
        assert(tail@ =~= chars@.skip(prefix@.len() as int));
        Some(tail)
    } else {
        None
    }
}

/// The position of the first white space, or the length where there is none.
pub open spec fn word_end(text: Seq<char>) -> int
    decreases text.len(),
{
    if text.len() == 0 || is_white(text[0]) {
        0
    } else {
        1 + word_end(text.skip(1))
    }
}

/// The words of a text: what stands between white space.
pub open spec fn words(text: Seq<char>) -> Seq<Seq<char>>
    decreases text.len(),
{
    if text.len() == 0 {
        Seq::empty()
    } else if is_white(text[0]) {
        words(text.skip(1))
    } else {
        let end = word_end(text);
        if 0 < end <= text.len() {
            seq![text.take(end)] + words(text.skip(end))
        } else {
            Seq::empty()
        }
    }
}

proof fn lemma_word_end_is(text: Seq<char>, end: int)
    requires
        0 <= end <= text.len(),
        end < text.len() ==> is_white(text[end]),
        forall|i: int| 0 <= i < end ==> !is_white(#[trigger] text[i]),
    ensures
        word_end(text) == end,
    decreases text.len(),
{
    if end > 0 {
        assert(!is_white(text[0]));
        let rest = text.skip(1);
        assert forall|i: int| 0 <= i < end - 1 implies !is_white(#[trigger] rest[i]) by {
            assert(rest[i] == text[i + 1]);
        }
        if end < text.len() {
            assert(rest[end - 1] == text[end]);
        }
        lemma_word_end_is(rest, end - 1);
    }
}

/// The words of a list of characters.
pub fn words_of(chars: &Vec<char>) -> (list: Vec<String>)
    ensures
        texts(list@) == words(chars@),
{
    let len: usize = chars.len();
    let mut list: Vec<String> = Vec::new();
    let mut from: usize = 0;
    assert(chars@.skip(0) =~= chars@);
    assert(texts(list@) + words(chars@.skip(0)) =~= words(chars@));
    while from < len
        invariant
            len == chars@.len(),
            from <= len,
            texts(list@) + words(chars@.skip(from as int)) == words(chars@),
        decreases len - from,
    {
        let ghost tail = chars@.skip(from as int);
        assert(tail[0] == chars@[from as int]);
        if white(chars[from]) {
            assert(tail.skip(1) =~= chars@.skip(from as int + 1));
            from += 1;
        } else {
            let ghost before = list@;
            let mut end: usize = from;
            while end < len && !white(chars[end])
                invariant
                    len == chars@.len(),
                    from <= end <= len,
                    tail == chars@.skip(from as int),
                    forall|i: int| 0 <= i < end - from ==> !is_white(#[trigger] tail[i]),
                decreases len - end,
            {
                assert(tail[end - from] == chars@[end as int]);
                end += 1;
            }
            proof {
                if end < len {
                    assert(tail[end - from] == chars@[end as int]);
                }
                lemma_word_end_is(tail, end - from);
            }
            assert(end > from);
            let word = text_of(&part(chars, from, end));
            assert(word@ =~= tail.take(end - from));
            list.push(word);
            assert(tail.skip(end - from) =~= chars@.skip(end as int));
            from = end;
            assert(texts(list@) =~= texts(before).push(tail.take(word_end(tail))));
            assert(texts(list@) + words(chars@.skip(from as int)) =~= texts(before) + words(tail));
        }
    }
    assert(words(chars@.skip(from as int)) =~= Seq::<Seq<char>>::empty());
    assert(texts(list@) =~= words(chars@));
    list
}

/// Texts in a row with a separator between them.
pub open spec fn joined_by(list: Seq<Seq<char>>, separator: Seq<char>) -> Seq<char>
    decreases list.len(),
{
    if list.len() == 0 {
        Seq::empty()
    } else if list.len() == 1 {
        list[0]
    } else {
        joined_by(list.drop_last(), separator) + separator + list.last()
    }
}

/// Joins texts with a separator between them.
pub fn join_texts(list: &Vec<String>, separator: &str) -> (text: String)
    ensures
        text@ == joined_by(texts(list@), separator@),
{
    let mut text = String::new();
    let ghost all = texts(list@);
    let mut i: usize = 0;
    assert(all.take(0) =~= Seq::<Seq<char>>::empty());
    while i < list.len()
        invariant
            i <= list@.len(),
            all == texts(list@),
            text@ == joined_by(all.take(i as int), separator@),
        decreases list@.len() - i,
    {
        let ghost wider = all.take(i as int + 1);
        assert(wider.drop_last() =~= all.take(i as int));
        assert(wider.last() == list@[i as int]@);
        if i > 0 {
            push_text(&mut text, separator);
        }
        push_text(&mut text, list[i].as_str());
        i += 1;
        assert(text@ =~= joined_by(wider, separator@));
    }
    assert(all.take(i as int) =~= all);
    text
}

/// A text of at least one character without white space.
pub open spec fn is_word(text: Seq<char>) -> bool {
    text.len() > 0 && forall|i: int| 0 <= i < text.len() ==> !is_white(#[trigger] text[i])
}

proof fn lemma_word_end(text: Seq<char>)
    ensures
        0 <= word_end(text) <= text.len(),
        word_end(text) < text.len() ==> is_white(text[word_end(text)]),
        forall|i: int| 0 <= i < word_end(text) ==> !is_white(#[trigger] text[i]),
    decreases text.len(),
{
    if text.len() > 0 && !is_white(text[0]) {
        let rest = text.skip(1);
        lemma_word_end(rest);
        assert forall|i: int| 0 <= i < word_end(text) implies !is_white(#[trigger] text[i]) by {
            if i > 0 {
                assert(rest[i - 1] == text[i]);
            }
        }
    }
}

/// What [`words`] finds are words.
pub proof fn lemma_words_are_words(text: Seq<char>, k: int)
    requires
        0 <= k < words(text).len(),
    ensures
        is_word(words(text)[k]),
    decreases text.len(),
{
    if is_white(text[0]) {
        lemma_words_are_words(text.skip(1), k);
    } else {
        lemma_word_end(text);
        let end = word_end(text);
        if k > 0 {
            lemma_words_are_words(text.skip(end), k - 1);
        }
    }
}

proof fn lemma_words_append(text: Seq<char>, word: Seq<char>)
    requires
        is_word(word),
    ensures
        words(text + " "@ + word) == words(text).push(word),
    decreases text.len(),
{
    reveal_strlit(" ");
    let blank = " "@;
    let all = text + blank + word;
    if text.len() == 0 {
        assert(all[0] == ' ');
        assert(all.skip(1) =~= word);
        lemma_word_end_is(word, word.len() as int);
        assert(word.take(word.len() as int) =~= word);
        assert(words(word.skip(word.len() as int)) =~= Seq::<Seq<char>>::empty());
        assert(!is_white(word[0]));
        assert(words(word) =~= seq![word]);
        assert(is_white(all[0]));
        assert(words(all) == words(all.skip(1)));
        assert(words(all) =~= words(text).push(word));
    } else if is_white(text[0]) {
        assert(all[0] == text[0]);
        assert(all.skip(1) =~= text.skip(1) + blank + word);
        lemma_words_append(text.skip(1), word);
    } else {
        lemma_word_end(text);
        lemma_word_end(text.skip(1));
        let end = word_end(text);
        assert(all[0] == text[0]);
        assert(all[end] == if end < text.len() {
            text[end]
        } else {
            ' '
        });
        assert forall|i: int| 0 <= i < end implies !is_white(#[trigger] all[i]) by {
            assert(all[i] == text[i]);
        }
        lemma_word_end_is(all, end);
        assert(all.take(end) =~= text.take(end));
        assert(all.skip(end) =~= text.skip(end) + blank + word);
        lemma_words_append(text.skip(end), word);
        assert(words(all) == seq![all.take(end)] + words(all.skip(end)));
        assert(words(text) == seq![text.take(end)] + words(text.skip(end)));
        assert(words(all) =~= words(text).push(word));
    }
}

/// Words joined by blanks are found again.
pub proof fn lemma_words_of_join(list: Seq<Seq<char>>)
    requires
        forall|k: int| 0 <= k < list.len() ==> is_word(#[trigger] list[k]),
    ensures
        words(joined_by(list, " "@)) == list,
    decreases list.len(),
{
    if list.len() == 0 {
        assert(words(joined_by(list, " "@)) =~= list);
    } else if list.len() == 1 {
        let word = list[0];
        assert(is_word(word));
        lemma_word_end_is(word, word.len() as int);
        assert(word.take(word.len() as int) =~= word);
        assert(words(word.skip(word.len() as int)) =~= Seq::<Seq<char>>::empty());
        assert(words(word) =~= list);
    } else {
        assert forall|k: int| 0 <= k < list.drop_last().len() implies is_word(
            #[trigger] list.drop_last()[k],
        ) by {
            assert(list.drop_last()[k] == list[k]);
        }
        lemma_words_of_join(list.drop_last());
        assert(is_word(list[list.len() - 1]));
        lemma_words_append(joined_by(list.drop_last(), " "@), list.last());
        assert(list.drop_last().push(list.last()) =~= list);
    }
}

/// The number that decimal digits stand for.
pub open spec fn decimal_value(digits: Seq<char>) -> int
    decreases digits.len(),
{
    if digits.len() == 0 {
        0
    } else {
        decimal_value(digits.drop_last()) * 10 + (digits.last() as int - 48)
    }
}

/// A number is read back from its notation, which holds digits only and none too many.
pub proof fn law_decimals_read_back(n: nat)
    ensures
        decimal_value(decimal(n)) == n,
        decimal(n).len() > 0,
        forall|i: int| 0 <= i < decimal(n).len() ==> '0' <= #[trigger] decimal(n)[i] <= '9',
        decimal(n).len() > 1 ==> decimal(n)[0] != '0',
    decreases n,
{
    reveal_with_fuel(decimal_value, 2);
    if n >= 10 {
        law_decimals_read_back(n / 10);
        assert(decimal(n).drop_last() =~= decimal(n / 10));
        assert(decimal(n)[0] == decimal(n / 10)[0]);
        if decimal(n / 10).len() == 1 {
            assert(decimal(n / 10).drop_last() =~= Seq::<char>::empty());
        }
    } else {
        assert(decimal(n).drop_last() =~= Seq::<char>::empty());
    }
}

/// Two digits are two digits, and stand for the number; a sign stands in front of what is
/// below zero and nowhere else.
pub proof fn law_digits_stand_for_the_number(n: int)
    ensures
        0 <= n < 100 ==> two_digits(n).len() == 2 && decimal_value(two_digits(n)) == n,
        n >= 0 ==> decimal_value(signed(n)) == n && signed(n)[0] != '-',
        n < 0 ==> signed(n)[0] == '-' && decimal_value(signed(n).skip(1)) == -n,
{
    reveal_with_fuel(decimal_value, 3);
    if 0 <= n < 100 {
        assert(two_digits(n).drop_last() =~= seq![digit_char(n / 10)]);
        assert(seq![digit_char(n / 10)].drop_last() =~= Seq::<char>::empty());
    }
    if n >= 0 {
        law_decimals_read_back(n as nat);
        assert('0' <= decimal(n as nat)[0]);
    } else {
        reveal_strlit("-");
        law_decimals_read_back((-n) as nat);
        assert(signed(n).skip(1) =~= decimal((-n) as nat));
    }
}

/// Texts are ordered by the first character in which they differ, and one that ends there
/// comes first.
pub proof fn law_first_difference_decides(
    front: Seq<char>,
    a: char,
    b: char,
    left: Seq<char>,
    right: Seq<char>,
)
    ensures
        a != b ==> text_before(front + (seq![a] + left), front + (seq![b] + right)) == (a < b),
        text_before(front, front + (seq![b] + right)),
        !text_before(front + (seq![b] + right), front),
{
    lemma_text_before_prefix(front, seq![a] + left, seq![b] + right);
    lemma_text_before_prefix(front, Seq::empty(), seq![b] + right);
    lemma_text_before_prefix(front, seq![b] + right, Seq::empty());
    assert(front + Seq::<char>::empty() =~= front);
}

/// Small letters stand where the capitals stood, and nothing else changes.
pub proof fn law_capitals_become_small(text: Seq<char>, i: int)
    requires
        0 <= i < text.len(),
    ensures
        lowercase(text).len() == text.len(),
        'A' <= text[i] <= 'Z' ==> lowercase(text)[i] as int == text[i] as int + 32,
        !('A' <= text[i] <= 'Z') ==> lowercase(text)[i] == text[i],
        lowercase(lowercase(text)) == lowercase(text),
{
    assert(lowercase(lowercase(text)) =~= lowercase(text));
}

proof fn lemma_trim_start_cut(text: Seq<char>) -> (from: int)
    ensures
        0 <= from <= text.len(),
        trimmed_start(text) == text.skip(from),
        forall|i: int| 0 <= i < from ==> is_white(#[trigger] text[i]),
        from < text.len() ==> !is_white(text[from]),
    decreases text.len(),
{
    if text.len() > 0 && is_white(text[0]) {
        let from = lemma_trim_start_cut(text.skip(1));
        assert(text.skip(1).skip(from) =~= text.skip(from + 1));
        assert forall|i: int| 0 <= i < from + 1 implies is_white(#[trigger] text[i]) by {
            if i > 0 {
                assert(text.skip(1)[i - 1] == text[i]);
            }
        }
        from + 1
    } else {
        assert(text.skip(0) =~= text);
        0
    }
}

proof fn lemma_trim_end_cut(text: Seq<char>) -> (to: int)
    ensures
        0 <= to <= text.len(),
        trimmed_end(text) == text.take(to),
        forall|i: int| to <= i < text.len() ==> is_white(#[trigger] text[i]),
        to > 0 ==> !is_white(text[to - 1]),
    decreases text.len(),
{
    if text.len() > 0 && is_white(text.last()) {
        let to = lemma_trim_end_cut(text.drop_last());
        assert(text.drop_last().take(to) =~= text.take(to));
        assert forall|i: int| to <= i < text.len() implies is_white(#[trigger] text[i]) by {
            if i < text.len() - 1 {
                assert(text.drop_last()[i] == text[i]);
            }
        }
        to
    } else {
        assert(text.take(text.len() as int) =~= text);
        text.len() as int
    }
}

/// Trimming takes white space away on both sides and nothing else: what is left stands in
/// the text between white space, and neither begins nor ends with any.
pub proof fn law_trimming_takes_white_space(text: Seq<char>) -> (cut: (int, int))
    ensures
        0 <= cut.0 <= cut.1 <= text.len(),
        trimmed(text) == text.subrange(cut.0, cut.1),
        forall|i: int| 0 <= i < cut.0 ==> is_white(#[trigger] text[i]),
        forall|i: int| cut.1 <= i < text.len() ==> is_white(#[trigger] text[i]),
        trimmed(text).len() > 0 ==> !is_white(trimmed(text)[0]) && !is_white(trimmed(text).last()),
        trimmed(trimmed(text)) == trimmed(text),
{
    let from = lemma_trim_start_cut(text);
    let rest = text.skip(from);
    let to = lemma_trim_end_cut(rest);
    assert(rest.take(to) =~= text.subrange(from, from + to));
    assert forall|i: int| from + to <= i < text.len() implies is_white(#[trigger] text[i]) by {
        assert(rest[i - from] == text[i]);
    }
    let core = trimmed(text);
    if core.len() > 0 {
        assert(core[0] == text[from]);
        assert(core.last() == rest[to - 1]);
    }
    (from, from + to)
}

/// A line feed ends a line: what stands before it, without a carriage return at its end, is
/// the first line, and the lines of the rest follow. A text without one is a line by itself,
/// and nothing is none.
pub proof fn law_line_feeds_end_lines(line: Seq<char>, rest: Seq<char>)
    requires
        forall|i: int| 0 <= i < line.len() ==> line[i] != '\n',
    ensures
        lines(line + seq!['\n'] + rest) == seq![without_return(line)] + lines(rest),
        lines(line) == if line.len() == 0 {
            Seq::empty()
        } else {
            seq![line]
        },
        line.len() > 0 && line.last() == '\r' ==> without_return(line) + seq!['\r'] == line,
        line.len() > 0 && line.last() != '\r' ==> without_return(line) == line,
{
    let all = line + seq!['\n'] + rest;
    lemma_line_feed_is(all, line.len() as int);
    lemma_line_feed_is(line, line.len() as int);
    assert(all.take(line.len() as int) =~= line);
    assert(all.skip(line.len() as int + 1) =~= rest);
    if line.len() > 0 && line.last() == '\r' {
        assert(without_return(line) + seq!['\r'] =~= line);
    }
}

/// White space parts words: those before it come first, those behind it follow, and what
/// holds none is a word.
pub proof fn law_white_space_parts_words(left: Seq<char>, gap: char, right: Seq<char>)
    requires
        is_white(gap),
    ensures
        words(left + seq![gap] + right) == words(left) + words(right),
        is_word(left) ==> words(left) == seq![left],
        words(Seq::empty()).len() == 0,
    decreases left.len(),
{
    let all = left + seq![gap] + right;
    if left.len() == 0 {
        assert(all.skip(1) =~= right);
        assert(all[0] == gap);
        assert(words(all) =~= words(left) + words(right));
    } else if is_white(left[0]) {
        assert(all[0] == left[0]);
        assert(all.skip(1) =~= left.skip(1) + seq![gap] + right);
        law_white_space_parts_words(left.skip(1), gap, right);
    } else {
        lemma_word_end(left);
        lemma_word_end(left.skip(1));
        let end = word_end(left);
        assert(all[0] == left[0]);
        assert(all[end] == if end < left.len() {
            left[end]
        } else {
            gap
        });
        assert forall|i: int| 0 <= i < end implies !is_white(#[trigger] all[i]) by {
            assert(all[i] == left[i]);
        }
        lemma_word_end_is(all, end);
        assert(all.take(end) =~= left.take(end));
        assert(all.skip(end) =~= left.skip(end) + seq![gap] + right);
        law_white_space_parts_words(left.skip(end), gap, right);
        assert(words(all) == seq![all.take(end)] + words(all.skip(end)));
        assert(words(left) == seq![left.take(end)] + words(left.skip(end)));
        assert(words(all) =~= words(left) + words(right));
        if is_word(left) {
            lemma_words_of_join(seq![left]);
        }
    }
}

/// Joined texts can be joined in parts: a separator stands between any two and nowhere else.
pub proof fn law_separators_stand_between(
    left: Seq<Seq<char>>,
    right: Seq<Seq<char>>,
    separator: Seq<char>,
)
    ensures
        left.len() > 0 && right.len() > 0 ==> joined_by(left + right, separator) == joined_by(
            left,
            separator,
        ) + separator + joined_by(right, separator),
        left.len() == 1 ==> joined_by(left, separator) == left[0],
        left.len() == 0 ==> joined_by(left, separator).len() == 0,
    decreases right.len(),
{
    if left.len() > 0 && right.len() == 1 {
        assert((left + right).drop_last() =~= left);
    } else if left.len() > 0 && right.len() > 1 {
        law_separators_stand_between(left, right.drop_last(), separator);
        assert((left + right).drop_last() =~= left + right.drop_last());
        assert(joined_by(left + right, separator) =~= joined_by(left, separator) + separator
            + joined_by(right, separator));
    }
}

/// Lines that are joined by line feeds, each with or without a carriage return, and ended by
/// one are found again.
pub proof fn law_joined_lines_are_found(list: Seq<Seq<char>>, end: Seq<char>)
    requires
        end == seq!['\n'] || end == seq!['\r', '\n'],
        list.len() > 0,
        forall|k: int| 0 <= k < list.len() ==> !(#[trigger] list[k]).contains('\n'),
        forall|k: int|
            0 <= k < list.len() ==> (#[trigger] list[k]).len() == 0 || list[k].last() != '\r',
    ensures
        lines(joined_by(list, end) + end) == list,
    decreases list.len(),
{
    let head = list[0];
    let tail = list.skip(1);
    let cut = head + end.drop_last();
    assert forall|i: int| 0 <= i < cut.len() implies cut[i] != '\n' by {
        if i < head.len() {
            assert(head[i] == cut[i]);
        }
    }
    assert(without_return(cut) =~= head) by {
        if end.len() == 2 {
            assert(cut.last() == '\r');
        } else {
            assert(cut =~= head);
        }
    }
    assert(list =~= seq![head] + tail);
    if tail.len() > 0 {
        assert forall|k: int| 0 <= k < tail.len() implies !(#[trigger] tail[k]).contains('\n') by {
            assert(tail[k] == list[k + 1]);
        }
        assert forall|k: int| 0 <= k < tail.len() implies (#[trigger] tail[k]).len() == 0
            || tail[k].last() != '\r' by {
            assert(tail[k] == list[k + 1]);
        }
        law_joined_lines_are_found(tail, end);
        law_separators_stand_between(seq![head], tail, end);
        let rest = joined_by(tail, end) + end;
        assert(joined_by(list, end) + end =~= cut + seq!['\n'] + rest);
        law_line_feeds_end_lines(cut, rest);
        assert(lines(joined_by(list, end) + end) =~= list);
    } else {
        assert(joined_by(list, end) + end =~= cut + seq!['\n'] + Seq::<char>::empty());
        law_line_feeds_end_lines(cut, Seq::empty());
        assert(lines(joined_by(list, end) + end) =~= list);
    }
}

} // verus!

//! Text as sequences of characters: pieces, words and lines.

use vstd::prelude::*;

verus! {

/// `String::push` appends one character to the end of the string.
pub assume_specification[ String::push ](text: &mut String, c: char)
    ensures
        final(text)@ == old(text)@.push(c),
;

/// The characters of `text`, in order.
pub fn chars_of(text: &str) -> (chars: Vec<char>)
    ensures
        chars@ == text@,
{
    let mut chars: Vec<char> = Vec::new();
    for c in it: text.chars()
        invariant
            chars@ == text@.take(it.index() as int),
            it.seq() == text@,
    {
        chars.push(c);
        assert(text@.take(it.index() as int).push(c) == text@.take(it.index() as int + 1));
    }
    assert(text@.take(text@.len() as int) == text@);
    chars
}

/// The text made of `chars[from..to]`.
pub fn text_of(chars: &Vec<char>, from: usize, to: usize) -> (text: String)
    requires
        from <= to <= chars@.len(),
    ensures
        text@ == chars@.subrange(from as int, to as int),
{
    let mut text: String = String::new();
    let mut i: usize = from;
    while i < to
        invariant
            from <= i <= to <= chars@.len(),
            text@ == chars@.subrange(from as int, i as int),
        decreases to - i,
    {
        text.push(chars[i]);
        i = i + 1;
        assert(chars@.subrange(from as int, i as int) == chars@.subrange(
            from as int,
            i - 1,
        ).push(chars@[i - 1]));
    }
    text
}

/// Whether two texts hold the same characters.
pub fn same_text(a: &str, b: &str) -> (same: bool)
    ensures
        same == (a@ == b@),
{
    a.to_owned() == b.to_owned()
}

// ---------------------------------------------------------------------------
// Splitting
// ---------------------------------------------------------------------------

/// The index of the first `c` in `s`, or the length of `s` where there is none.
pub open spec fn position(s: Seq<char>, c: char) -> int
    decreases s.len(),
{
    if s.len() == 0 || s[0] == c {
        0
    } else {
        1 + position(s.skip(1), c)
    }
}

/// The pieces of `s` between the occurrences of `c`: always at least one.
pub open spec fn split(s: Seq<char>, c: char) -> Seq<Seq<char>>
    decreases s.len(),
{
    let i = position(s, c);
    if 0 <= i < s.len() {
        seq![s.take(i)] + split(s.skip(i + 1), c)
    } else {
        seq![s]
    }
}

pub proof fn lemma_position(s: Seq<char>, c: char)
    ensures
        0 <= position(s, c) <= s.len(),
        forall|k: int| 0 <= k < position(s, c) ==> s[k] != c,
        position(s, c) < s.len() ==> s[position(s, c)] == c,
    decreases s.len(),
{
    if s.len() != 0 && s[0] != c {
        lemma_position(s.skip(1), c);
        assert forall|k: int| 0 <= k < position(s, c) implies s[k] != c by {
            if k > 0 {
                assert(s.skip(1)[k - 1] == s[k]);
            }
        }
    }
}

/// `position` is the only index with the properties of `lemma_position`.
pub proof fn lemma_position_is(s: Seq<char>, c: char, i: int)
    requires
        0 <= i <= s.len(),
        forall|k: int| 0 <= k < i ==> s[k] != c,
        i < s.len() ==> s[i] == c,
    ensures
        position(s, c) == i,
{
    lemma_position(s, c);
}

/// The index of the first `c` in `chars[from..]`, counted from the start of
/// `chars`, or the length of `chars` where there is none.
pub fn find(chars: &Vec<char>, from: usize, c: char) -> (at: usize)
    requires
        from <= chars@.len(),
    ensures
        at == from + position(chars@.skip(from as int), c),
        from <= at <= chars@.len(),
{
    let mut at: usize = from;
    while at < chars.len() && chars[at] != c
        invariant
            from <= at <= chars@.len(),
            forall|k: int| from <= k < at ==> chars@[k] != c,
        decreases chars@.len() - at,
    {
        at = at + 1;
    }
    proof {
        lemma_position_is(chars@.skip(from as int), c, at - from);
    }
    at
}

/// Two texts joined by `c` are split into the pieces of the one and then those of
/// the other.
pub proof fn lemma_split_joined(a: Seq<char>, c: char, b: Seq<char>)
    ensures
        split(a.push(c) + b, c) == split(a, c) + split(b, c),
    decreases a.len(),
{
    let whole = a.push(c) + b;
    let i = position(a, c);
    lemma_position(a, c);
    assert forall|k: int| 0 <= k < i implies whole[k] != c by {
        assert(whole[k] == a[k]);
    }
    assert(whole[i] == c);
    lemma_position_is(whole, c, i);
    if i < a.len() {
        assert(whole.take(i) =~= a.take(i));
        assert(whole.skip(i + 1) =~= a.skip(i + 1).push(c) + b);
        lemma_split_joined(a.skip(i + 1), c, b);
        assert(split(whole, c) =~= split(a, c) + split(b, c));
    } else {
        assert(whole.take(i) =~= a);
        assert(whole.skip(i + 1) =~= b);
        assert(split(whole, c) =~= split(a, c) + split(b, c));
    }
}

/// A text without `c` is its only piece.
pub proof fn lemma_split_whole(s: Seq<char>, c: char)
    requires
        !s.contains(c),
    ensures
        split(s, c) == seq![s],
{
    lemma_position(s, c);
    if position(s, c) < s.len() {
        assert(s.contains(s[position(s, c)]));
    }
}

/// A list of texts, each by its characters.
pub open spec fn texts(list: Seq<String>) -> Seq<Seq<char>> {
    list.map_values(|t: String| t@)
}

/// The pieces of `text` between the occurrences of `c`.
pub fn split_text(text: &str, c: char) -> (parts: Vec<String>)
    ensures
        texts(parts@) == split(text@, c),
        parts@.len() > 0,
{
    let chars: Vec<char> = chars_of(text);
    let mut parts: Vec<String> = Vec::new();
    let mut from: usize = 0;
    let mut at: usize = find(&chars, 0, c);
    assert(chars@.skip(0) == chars@);
    while at < chars.len()
        invariant
            from <= at <= chars@.len(),
            at == from + position(chars@.skip(from as int), c),
            texts(parts@) + split(chars@.skip(from as int), c) == split(chars@, c),
        decreases chars@.len() - at,
    {
        let ghost rest = chars@.skip(from as int);
        let ghost before = parts@;
        let piece: String = text_of(&chars, from, at);
        parts.push(piece);
        proof {
            let i = position(rest, c);
            assert(rest.take(i) == chars@.subrange(from as int, at as int));
            assert(rest.skip(i + 1) == chars@.skip(at as int + 1));
            assert(texts(parts@) == texts(before).push(piece@));
            assert(texts(before) + (seq![piece@] + split(rest.skip(i + 1), c)) == texts(parts@)
                + split(rest.skip(i + 1), c));
        }
        from = at + 1;
        at = find(&chars, from, c);
    }
    let ghost before = parts@;
    let piece: String = text_of(&chars, from, at);
    parts.push(piece);
    proof {
        assert(chars@.subrange(from as int, at as int) == chars@.skip(from as int));
        assert(texts(parts@) == texts(before).push(piece@));
        assert(texts(before) + seq![piece@] == texts(parts@));
    }
    parts
}

// ---------------------------------------------------------------------------
// White space and lines
// ---------------------------------------------------------------------------

/// The characters with the Unicode `White_Space` property.
pub open spec fn is_space(c: char) -> bool {
    ||| 0x9 <= c as u32 <= 0xd
    ||| c as u32 == 0x20
    ||| c as u32 == 0x85
    ||| c as u32 == 0xa0
    ||| c as u32 == 0x1680
    ||| 0x2000 <= c as u32 <= 0x200a
    ||| c as u32 == 0x2028
    ||| c as u32 == 0x2029
    ||| c as u32 == 0x202f
    ||| c as u32 == 0x205f
    ||| c as u32 == 0x3000
}

/// Whether `c` has the Unicode `White_Space` property.
pub fn is_white_space(c: char) -> (space: bool)
    ensures
        space == is_space(c),
{
    let n: u32 = c as u32;
    (0x9 <= n && n <= 0xd) || n == 0x20 || n == 0x85 || n == 0xa0 || n == 0x1680 || (0x2000 <= n
        && n <= 0x200a) || n == 0x2028 || n == 0x2029 || n == 0x202f || n == 0x205f || n == 0x3000
}

/// Nothing but white space.
pub open spec fn blank(s: Seq<char>) -> bool {
    forall|i: int| 0 <= i < s.len() ==> is_space(s[i])
}

/// Whether `chars[from..to]` holds nothing but white space.
fn is_blank(chars: &Vec<char>, from: usize, to: usize) -> (is: bool)
    requires
        from <= to <= chars@.len(),
    ensures
        is == blank(chars@.subrange(from as int, to as int)),
{
    let mut i: usize = from;
    while i < to
        invariant
            from <= i <= to <= chars@.len(),
            forall|k: int| from <= k < i ==> is_space(chars@[k]),
        decreases to - i,
    {
        if !is_white_space(chars[i]) {
            assert(chars@.subrange(from as int, to as int)[i - from] == chars@[i as int]);
            return false;
        }
        i = i + 1;
    }
    true
}

/// The number of characters before the first white space.
pub open spec fn word_len(s: Seq<char>) -> int
    decreases s.len(),
{
    if s.len() == 0 || is_space(s[0]) {
        0
    } else {
        1 + word_len(s.skip(1))
    }
}

/// The words of `s`: what lies between white space.
pub open spec fn words(s: Seq<char>) -> Seq<Seq<char>>
    decreases s.len(),
{
    if s.len() == 0 {
        seq![]
    } else if is_space(s[0]) {
        words(s.skip(1))
    } else {
        proof {
            lemma_word_len(s);
        }
        seq![s.take(word_len(s))] + words(s.skip(word_len(s)))
    }
}

pub proof fn lemma_word_len(s: Seq<char>)
    ensures
        0 <= word_len(s) <= s.len(),
        forall|k: int| 0 <= k < word_len(s) ==> !is_space(s[k]),
        word_len(s) < s.len() ==> is_space(s[word_len(s)]),
        s.len() > 0 && !is_space(s[0]) ==> word_len(s) > 0,
    decreases s.len(),
{
    if s.len() > 0 && !is_space(s[0]) {
        lemma_word_len(s.skip(1));
        assert forall|k: int| 0 <= k < word_len(s) implies !is_space(s[k]) by {
            if k > 0 {
                assert(s.skip(1)[k - 1] == s[k]);
            }
        }
    }
}

/// The words of `text`, in order.
pub fn words_of(text: &str) -> (list: Vec<String>)
    ensures
        texts(list@) == words(text@),
{
    let chars: Vec<char> = chars_of(text);
    let mut list: Vec<String> = Vec::new();
    let mut from: usize = 0;
    assert(chars@.skip(0) == chars@);
    assert(texts(list@) + words(chars@) == words(chars@));
    while from < chars.len()
        invariant
            from <= chars@.len(),
            texts(list@) + words(chars@.skip(from as int)) == words(chars@),
        decreases chars@.len() - from,
    {
        let ghost rest = chars@.skip(from as int);
        if is_white_space(chars[from]) {
            assert(rest.skip(1) == chars@.skip(from + 1));
            from = from + 1;
        } else {
            let mut to: usize = from + 1;
            while to < chars.len() && !is_white_space(chars[to])
                invariant
                    from < to <= chars@.len(),
                    forall|k: int| from <= k < to ==> !is_space(chars@[k]),
                decreases chars@.len() - to,
            {
                to = to + 1;
            }
            let ghost done = texts(list@);
            let word: String = text_of(&chars, from, to);
            proof {
                lemma_word_len(rest);
                let n = word_len(rest);
                assert(n == to - from) by {
                    if n < to - from {
                        assert(rest[n] == chars@[from + n]);
                    }
                    if n > to - from {
                        assert(rest[to - from] == chars@[to as int]);
                    }
                }
                assert(rest.take(n) == word@);
                assert(rest.skip(n) == chars@.skip(to as int));
                assert(done + (seq![word@] + words(rest.skip(n))) == done.push(word@) + words(
                    rest.skip(n),
                ));
            }
            list.push(word);
            assert(texts(list@) == done.push(word@));
            from = to;
        }
    }
    proof {
        assert(chars@.skip(from as int) == Seq::<char>::empty());
        assert(texts(list@) + Seq::<Seq<char>>::empty() == texts(list@));
    }
    list
}

/// Whether `text` begins with `prefix`.
pub fn begins_with(text: &str, prefix: &str) -> (is: bool)
    ensures
        is == prefix@.is_prefix_of(text@),
{
    let n: usize = prefix.unicode_len();
    if text.unicode_len() < n {
        return false;
    }
    let head: &str = text.substring_char(0, n);
    assert(head@ == text@.take(n as int));
    same_text(head, prefix)
}

/// A line without the carriage return that belongs to its line ending.
pub open spec fn chomp(line: Seq<char>) -> Seq<char> {
    if line.len() > 0 && line.last() == '\r' {
        line.drop_last()
    } else {
        line
    }
}

/// The lines of `s`: a line ends at a line feed, or at a carriage return and a
/// line feed; what follows the last line feed is a line where it is not empty.
pub open spec fn lines(s: Seq<char>) -> Seq<Seq<char>>
    decreases s.len(),
{
    let i = position(s, '\n');
    if s.len() == 0 {
        seq![]
    } else if 0 <= i < s.len() {
        seq![chomp(s.take(i))] + lines(s.skip(i + 1))
    } else {
        seq![s]
    }
}

/// The lines of `s` that hold more than white space.
pub open spec fn full_lines(s: Seq<char>) -> Seq<Seq<char>> {
    lines(s).filter(|l: Seq<char>| !blank(l))
}

/// The line `rest[..i]` is kept where it holds more than white space.
proof fn lemma_full_lines_step(head: Seq<char>, tail: Seq<Seq<char>>)
    ensures
        (seq![head] + tail).filter(|l: Seq<char>| !blank(l)) == (if blank(head) {
            tail.filter(|l: Seq<char>| !blank(l))
        } else {
            seq![head] + tail.filter(|l: Seq<char>| !blank(l))
        }),
{
    let keep = |l: Seq<char>| !blank(l);
    Seq::filter_distributes_over_add(seq![head], tail, keep);
    reveal_with_fuel(Seq::filter, 2);
    assert(seq![head].drop_last() == Seq::<Seq<char>>::empty());
    assert(seq![head].filter(keep) == (if blank(head) {
        Seq::<Seq<char>>::empty()
    } else {
        seq![head]
    }));
    assert(Seq::<Seq<char>>::empty() + tail.filter(keep) == tail.filter(keep));
}

/// The lines of `text` that hold more than white space, in order.
pub fn full_lines_of(text: &str) -> (out: Vec<String>)
    ensures
        texts(out@) == full_lines(text@),
{
    let chars: Vec<char> = chars_of(text);
    let mut out: Vec<String> = Vec::new();
    let mut from: usize = 0;
    assert(chars@.skip(0) == chars@);
    assert(texts(out@) + full_lines(chars@) == full_lines(chars@));
    while from < chars.len()
        invariant
            from <= chars@.len(),
            texts(out@) + full_lines(chars@.skip(from as int)) == full_lines(chars@),
        decreases chars@.len() - from,
    {
        let ghost rest = chars@.skip(from as int);
        let ghost before = out@;
        let at: usize = find(&chars, from, '\n');
        let mut to: usize = at;
        if at < chars.len() && at > from && chars[at - 1] == '\r' {
            to = at - 1;
        }
        let ghost head = chars@.subrange(from as int, to as int);
        let ghost tail = if at < chars@.len() {
            lines(chars@.skip(at + 1))
        } else {
            seq![]
        };
        proof {
            let i = position(rest, '\n');
            assert(rest.take(i) == chars@.subrange(from as int, at as int));
            if at < chars@.len() {
                assert(rest.skip(i + 1) == chars@.skip(at + 1));
                assert(rest.take(i).len() > 0 ==> rest.take(i).last() == chars@[at - 1]);
                assert(rest.take(i).len() > 0 ==> rest.take(i).drop_last() == chars@.subrange(
                    from as int,
                    at - 1,
                ));
                assert(head == chomp(rest.take(i)));
            } else {
                assert(head == rest);
                assert(seq![rest] + tail == seq![rest]);
            }
            assert(lines(rest) == seq![head] + tail);
            lemma_full_lines_step(head, tail);
        }
        if !is_blank(&chars, from, to) {
            let line: String = text_of(&chars, from, to);
            out.push(line);
            assert(texts(out@) == texts(before).push(line@));
        }
        if at < chars.len() {
            from = at + 1;
        } else {
            from = at;
        }
        proof {
            let kept = tail.filter(|l: Seq<char>| !blank(l));
            assert(full_lines(chars@.skip(from as int)) == kept) by {
                if at == chars@.len() {
                    assert(chars@.skip(from as int) == Seq::<char>::empty());
                    assert(lines(Seq::<char>::empty()) == tail);
                }
            }
            if !blank(head) {
                assert(texts(out@) + kept == texts(before) + (seq![head] + kept));
            }
        }
    }
    proof {
        assert(chars@.skip(from as int) == Seq::<char>::empty());
        assert(lines(Seq::<char>::empty()) == Seq::<Seq<char>>::empty());
        reveal_with_fuel(Seq::filter, 1);
        assert(texts(out@) + Seq::<Seq<char>>::empty() == texts(out@));
    }
    out
}

/// Each line followed by a line feed.
pub open spec fn unlines(list: Seq<Seq<char>>) -> Seq<char>
    decreases list.len(),
{
    if list.len() == 0 {
        seq![]
    } else {
        list[0] + seq!['\n'] + unlines(list.skip(1))
    }
}

/// The text of `list[from..]`, each line followed by a line feed.
pub fn unlines_from(list: &Vec<String>, from: usize) -> (text: String)
    requires
        from <= list@.len(),
    ensures
        text@ == unlines(texts(list@).skip(from as int)),
{
    let mut text: String = String::new();
    let mut i: usize = from;
    let ghost all = texts(list@);
    assert(text@ + unlines(all.skip(from as int)) == unlines(all.skip(from as int)));
    while i < list.len()
        invariant
            from <= i <= list@.len(),
            all == texts(list@),
            text@ + unlines(all.skip(i as int)) == unlines(all.skip(from as int)),
        decreases list@.len() - i,
    {
        let ghost before = text@;
        text.append(list[i].as_str());
        text.push('\n');
        proof {
            assert(all.skip(i as int).skip(1) == all.skip(i + 1));
            assert(all.skip(i as int)[0] == list@[i as int]@);
            assert(before + (all[i as int] + seq!['\n'] + unlines(all.skip(i + 1))) == text@
                + unlines(all.skip(i + 1)));
        }
        i = i + 1;
    }
    proof {
        assert(all.skip(i as int) == Seq::<Seq<char>>::empty());
        assert(text@ + Seq::<char>::empty() == text@);
    }
    text
}

/// A line that reads back as it was written: it holds no line feed, does not
/// end in a carriage return and holds more than white space.
pub open spec fn is_line(s: Seq<char>) -> bool {
    &&& !s.contains('\n')
    &&& s.len() > 0
    &&& s.last() != '\r'
    &&& !blank(s)
}

/// What is written line by line is read back line by line: the lines of
/// `unlines(list)` are those of `list`, none lost, none added, in order.
pub proof fn law_lines_read_back(list: Seq<Seq<char>>)
    requires
        forall|i: int| 0 <= i < list.len() ==> is_line(#[trigger] list[i]),
    ensures
        full_lines(unlines(list)) == list,
    decreases list.len(),
{
    if list.len() == 0 {
        reveal_with_fuel(Seq::filter, 1);
        assert(lines(unlines(list)) == Seq::<Seq<char>>::empty());
        assert(full_lines(unlines(list)) == list);
    } else {
        let s = unlines(list);
        let head = list[0];
        let rest = list.skip(1);
        assert(is_line(head));
        assert forall|k: int| 0 <= k < head.len() implies s[k] != '\n' by {
            assert(s[k] == head[k]);
            assert(head.contains(head[k]));
        }
        lemma_position_is(s, '\n', head.len() as int);
        assert(s.take(head.len() as int) == head);
        assert(s.skip(head.len() as int + 1) == unlines(rest));
        assert(lines(s) == seq![head] + lines(unlines(rest)));
        lemma_full_lines_step(head, lines(unlines(rest)));
        assert forall|i: int| 0 <= i < rest.len() implies is_line(#[trigger] rest[i]) by {
            assert(rest[i] == list[i + 1]);
        }
        law_lines_read_back(rest);
        assert(seq![head] + rest == list);
    }
}

/// Writing one more line adds exactly that line to what is read back.
pub proof fn lemma_unlines_push(list: Seq<Seq<char>>, line: Seq<char>)
    ensures
        unlines(list.push(line)) == unlines(list) + line + seq!['\n'],
    decreases list.len(),
{
    if list.len() == 0 {
        reveal_with_fuel(unlines, 2);
        assert(list.push(line).skip(1) == Seq::<Seq<char>>::empty());
        assert(unlines(list.push(line)) == unlines(list) + line + seq!['\n']);
    } else {
        lemma_unlines_push(list.skip(1), line);
        assert(list.push(line).skip(1) == list.skip(1).push(line));
        assert(unlines(list.push(line)) == unlines(list) + line + seq!['\n']);
    }
}

/// The characters that part words.
pub proof fn law_white_space(c: char)
    ensures
        is_space(c) <==> {
            ||| '\u{9}' <= c <= '\u{d}'
            ||| c == ' '
            ||| c == '\u{85}'
            ||| c == '\u{a0}'
            ||| c == '\u{1680}'
            ||| '\u{2000}' <= c <= '\u{200a}'
            ||| c == '\u{2028}'
            ||| c == '\u{2029}'
            ||| c == '\u{202f}'
            ||| c == '\u{205f}'
            ||| c == '\u{3000}'
        },
{
}

/// Nothing of a word is white space, and there is something of it.
pub open spec fn is_word(w: Seq<char>) -> bool {
    w.len() > 0 && forall|i: int| 0 <= i < w.len() ==> !is_space(#[trigger] w[i])
}

/// A text has the words that white space parts, all of them and in their order:
/// white space before it changes nothing, and a word before white space is the
/// first of them.
pub proof fn law_words_are_parted_by_space(w: Seq<char>, c: char, rest: Seq<char>)
    requires
        is_space(c),
    ensures
        words(Seq::<char>::empty()).len() == 0,
        words(seq![c] + rest) == words(rest),
        is_word(w) ==> words(w) == seq![w],
        is_word(w) ==> words(w + seq![c] + rest) == seq![w] + words(rest),
{
    assert((seq![c] + rest).skip(1) =~= rest);
    if is_word(w) {
        lemma_word_then(w, Seq::<char>::empty());
        assert(w + Seq::<char>::empty() =~= w);
        let all = w + seq![c] + rest;
        let tail = seq![c] + rest;
        assert(all =~= w + tail);
        lemma_word_then(w, tail);
        assert(!is_space(w[0]));
        assert(w.skip(w.len() as int) =~= Seq::<char>::empty());
        assert(w.take(w.len() as int) =~= w);
        assert(words(w.skip(w.len() as int)) =~= Seq::<Seq<char>>::empty());
        assert(words(w) =~= seq![w]);
        assert(all.take(w.len() as int) =~= w);
        assert(all.skip(w.len() as int) =~= tail);
        assert(all[0] == w[0]);
    }
}

proof fn lemma_word_then(w: Seq<char>, tail: Seq<char>)
    requires
        forall|i: int| 0 <= i < w.len() ==> !is_space(#[trigger] w[i]),
        tail.len() == 0 || is_space(tail[0]),
    ensures
        word_len(w + tail) == w.len(),
    decreases w.len(),
{
    let all = w + tail;
    if w.len() == 0 {
        assert(all =~= tail);
    } else {
        let rest = w.skip(1);
        assert(all[0] == w[0]);
        assert(all.skip(1) =~= rest + tail);
        assert forall|i: int| 0 <= i < rest.len() implies !is_space(#[trigger] rest[i]) by {
            assert(rest[i] == w[i + 1]);
        }
        lemma_word_then(rest, tail);
    }
}

/// A text is read line by line: up to a line feed, without the carriage return
/// before it; behind the last line feed there is a line where there is something.
pub proof fn law_lines_are_parted_by_line_feeds(line: Seq<char>, rest: Seq<char>)
    requires
        !line.contains('\n'),
    ensures
        lines(Seq::<char>::empty()).len() == 0,
        line.len() > 0 ==> lines(line) == seq![line],
        line.len() == 0 || line.last() != '\r' ==> lines(line + seq!['\n'] + rest) == seq![line]
            + lines(rest),
        lines(line + seq!['\r', '\n'] + rest) == seq![line] + lines(rest),
{
    let a = line + seq!['\n'] + rest;
    let b = line + seq!['\r', '\n'] + rest;
    let n = line.len() as int;
    assert forall|k: int| 0 <= k < n implies line[k] != '\n' by {
        assert(line.contains(line[k]));
    }
    assert(a[n] == '\n' && b[n] == '\r' && b[n + 1] == '\n');
    lemma_position_is(a, '\n', n);
    assert(a.take(n) =~= line);
    assert(a.skip(n + 1) =~= rest);
    assert forall|k: int| 0 <= k < n + 1 implies b[k] != '\n' by {
        assert(k < n ==> b[k] == line[k]);
    }
    lemma_position_is(b, '\n', n + 1);
    assert(b.take(n + 1) =~= line.push('\r'));
    assert(b.take(n + 1).drop_last() =~= line);
    assert(b.skip(n + 2) =~= rest);
    if n > 0 {
        lemma_position_is(line, '\n', n);
    }
}

/// The lines that count are those with more than white space, all of them and in
/// their order.
pub proof fn law_blank_lines_do_not_count(line: Seq<char>, rest: Seq<char>)
    requires
        !line.contains('\n'),
        line.len() == 0 || line.last() != '\r',
    ensures
        full_lines(Seq::<char>::empty()).len() == 0,
        full_lines(line + seq!['\n'] + rest) == (if exists|i: int|
            0 <= i < line.len() && !is_space(#[trigger] line[i]) {
            seq![line] + full_lines(rest)
        } else {
            full_lines(rest)
        }),
{
    law_lines_are_parted_by_line_feeds(line, rest);
    lemma_full_lines_step(line, lines(rest));
    reveal_with_fuel(Seq::filter, 1);
    if blank(line) {
        assert forall|i: int| 0 <= i < line.len() implies is_space(#[trigger] line[i]) by {}
    }
}

/// A list of texts is seen whole and in its order.
pub proof fn law_texts_are_seen_whole(list: Vec<String>, i: int)
    requires
        0 <= i < list@.len(),
    ensures
        texts(list@).len() == list@.len(),
        texts(list@)[i] == list@[i]@,
{
}

/// Lines are written one after the other, each with a line feed behind it.
pub proof fn law_lines_are_written_in_order(first: Seq<char>, rest: Seq<Seq<char>>)
    ensures
        unlines(Seq::<Seq<char>>::empty()).len() == 0,
        unlines(seq![first] + rest) == first + seq!['\n'] + unlines(rest),
{
    assert((seq![first] + rest).skip(1) =~= rest);
}

/// A line counts the same with a carriage return before its line feed, and at the end
/// of a text without either.
pub proof fn law_endings_of_lines_do_not_count(line: Seq<char>, rest: Seq<char>)
    requires
        !line.contains('\n'),
    ensures
        ({
            let counts = exists|i: int| 0 <= i < line.len() && !is_space(#[trigger] line[i]);
            &&& counts ==> full_lines(line + seq!['\r', '\n'] + rest) == seq![line] + full_lines(rest)
            &&& !counts ==> full_lines(line + seq!['\r', '\n'] + rest) == full_lines(rest)
            &&& counts ==> full_lines(line) == seq![line]
            &&& !counts ==> full_lines(line).len() == 0
        }),
{
    law_lines_are_parted_by_line_feeds(line, rest);
    lemma_full_lines_step(line, lines(rest));
    let none = Seq::<Seq<char>>::empty();
    lemma_full_lines_step(line, none);
    reveal_with_fuel(Seq::filter, 1);
    assert(seq![line] + none =~= seq![line]);
    if blank(line) {
        assert forall|i: int| 0 <= i < line.len() implies is_space(#[trigger] line[i]) by {}
    }
    if line.len() == 0 {
        assert(line =~= Seq::<char>::empty());
        assert(blank(line));
    }
}

}

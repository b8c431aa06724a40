//! Text as sequences of characters: searching and splitting.

use vstd::prelude::*;
use vstd::string::StrSliceExecFns;

verus! {

/// The characters of `text`, in order.
pub fn chars_of(text: &str) -> (chars: Vec<char>)
    ensures
        chars@ == text@,
{
    let mut chars: Vec<char> = Vec::new();
    for c in it: text.chars()
        invariant
            chars@ == it.seq().take(it.index()),
            it.seq() == text@,
    {
        chars.push(c);
    }
    chars
}

/// `c` with an ASCII capital letter replaced by its small letter.
pub open spec fn lowered_char(c: char) -> char {
    if 'A' <= c <= 'Z' {
        (c as u32 + 32) as char
    } else {
        c
    }
}

/// `text` with every ASCII capital letter replaced by its small letter.
pub open spec fn lowered(text: Seq<char>) -> Seq<char> {
    text.map_values(|c: char| lowered_char(c))
}

fn lower_char(c: char) -> (low: char)
    ensures
        low == lowered_char(c),
{
    if 'A' <= c && c <= 'Z' {
        (c as u8 + 32) as char
    } else {
        c
    }
}

/// The characters of `text` with every ASCII capital letter replaced by its
/// small letter.
pub fn lower_chars(text: &str) -> (chars: Vec<char>)
    ensures
        chars@ == lowered(text@),
{
    let mut chars: Vec<char> = Vec::new();
    for c in it: text.chars()
        invariant
            chars@ == lowered(it.seq().take(it.index())),
            it.seq() == text@,
    {
        chars.push(lower_char(c));
    }
    assert(text@.take(text@.len() as int) == text@);
    chars
}

/// `needle` stands in `text` from position `at` on.
pub open spec fn occurs_at(text: Seq<char>, needle: Seq<char>, at: int) -> bool {
    &&& 0 <= at
    &&& at + needle.len() <= text.len()
    &&& text.subrange(at, at + needle.len()) == needle
}

/// `needle` stands somewhere in `text`.
pub open spec fn contains(text: Seq<char>, needle: Seq<char>) -> bool {
    exists|at: int| occurs_at(text, needle, at)
}

/// What stands in a part of a text stands in the text.
pub proof fn part_is_contained(
    before: Seq<char>,
    text: Seq<char>,
    after: Seq<char>,
    needle: Seq<char>,
)
    requires
        contains(text, needle),
    ensures
        contains(before + text + after, needle),
{
    let at = choose|at: int| occurs_at(text, needle, at);
    let whole = before + text + after;
    let from = before.len() + at;
    assert(whole.subrange(from, from + needle.len()) =~= text.subrange(at, at + needle.len()));
    assert(occurs_at(whole, needle, from));
}

/// Letters are replaced one by one.
pub proof fn lowered_part_by_part(a: Seq<char>, b: Seq<char>, c: Seq<char>)
    ensures
        lowered(a + b + c) == lowered(a) + lowered(b) + lowered(c),
{
    assert(lowered(a + b + c) =~= lowered(a) + lowered(b) + lowered(c));
}

/// Text without capital letters stays as it is.
pub proof fn lowered_twice_is_lowered(text: Seq<char>)
    ensures
        lowered(lowered(text)) == lowered(text),
{
    assert forall|c: char| #[trigger] lowered_char(lowered_char(c)) == lowered_char(c) by {}
    assert(lowered(lowered(text)) =~= lowered(text));
}

fn matches_at(text: &Vec<char>, needle: &Vec<char>, at: usize) -> (found: bool)
    requires
        at + needle@.len() <= text@.len(),
    ensures
        found == occurs_at(text@, needle@, at as int),
{
    let end: usize = text.len();
    let mut k: usize = 0;
    while k < needle.len()
        invariant
            at + needle@.len() <= end,
            end == text@.len(),
            k <= needle@.len(),
            forall|j: int| 0 <= j < k ==> text@[at + j] == #[trigger] needle@[j],
        decreases needle@.len() - k,
    {
        if text[at + k] != needle[k] {
            proof {
                let window = text@.subrange(at as int, at + needle@.len());
                assert(window[k as int] == text@[at + k]);
            }
            return false;
        }
        k += 1;
    }
    assert(text@.subrange(at as int, at + needle@.len()) =~= needle@);
    true
}

/// Tells whether `needle` stands somewhere in `text`.
pub fn chars_contain(text: &Vec<char>, needle: &str) -> (found: bool)
    ensures
        found == contains(text@, needle@),
{
    let pattern = chars_of(needle);
    if pattern.len() > text.len() {
        return false;
    }
    let last: usize = text.len() - pattern.len();
    let mut at: usize = 0;
    while at <= last
        invariant
            pattern@ == needle@,
            last + pattern@.len() == text@.len(),
            at <= last + 1,
            forall|i: int| 0 <= i < at ==> !occurs_at(text@, needle@, i),
        decreases last + 1 - at,
    {
        if matches_at(text, &pattern, at) {
            return true;
        }
        if at == last {
            return false;
        }
        at += 1;
    }
    false
}

/// Tells whether two texts are the same.
pub fn same_text(a: &str, b: &str) -> (same: bool)
    ensures
        same == (a@ == b@),
{
    let left = chars_of(a);
    let right = chars_of(b);
    if left.len() != right.len() {
        return false;
    }
    let same = matches_at(&left, &right, 0);
    assert(left@.subrange(0, right@.len() as int) =~= left@);
    same
}

/// What follows `prefix` in `text`, if `text` starts with `prefix`.
pub open spec fn after_prefix(text: Seq<char>, prefix: Seq<char>) -> Option<Seq<char>> {
    if prefix.is_prefix_of(text) {
        Some(text.skip(prefix.len() as int))
    } else {
        None
    }
}

/// Takes `prefix` off the start of `text`, if it stands there.
pub fn strip_text_prefix(text: &str, prefix: &str) -> (rest: Option<String>)
    ensures
        match rest {
            Some(rest) => after_prefix(text@, prefix@) == Some(rest@),
            None => after_prefix(text@, prefix@) is None,
        },
{
    let chars = chars_of(text);
    let head = chars_of(prefix);
    if head.len() <= chars.len() && matches_at(&chars, &head, 0) {
        let rest = text.substring_char(head.len(), chars.len());
        assert(text@.subrange(prefix@.len() as int, text@.len() as int) == text@.skip(
            prefix@.len() as int,
        ));
        Some(rest.to_owned())
    } else {
        None
    }
}

/// The Unicode white space characters.
pub open spec fn is_space(c: char) -> bool {
    ||| '\u{9}' <= c <= '\u{d}'
    ||| c == '\u{20}'
    ||| c == '\u{85}'
    ||| c == '\u{a0}'
    ||| c == '\u{1680}'
    ||| '\u{2000}' <= c <= '\u{200a}'
    ||| c == '\u{2028}'
    ||| c == '\u{2029}'
    ||| c == '\u{202f}'
    ||| c == '\u{205f}'
    ||| c == '\u{3000}'
}

fn space(c: char) -> (yes: bool)
    ensures
        yes == is_space(c),
{
    ('\u{9}' <= c && c <= '\u{d}') || c == '\u{20}' || c == '\u{85}' || c == '\u{a0}'
        || c == '\u{1680}' || ('\u{2000}' <= c && c <= '\u{200a}') || c == '\u{2028}'
        || c == '\u{2029}' || c == '\u{202f}' || c == '\u{205f}' || c == '\u{3000}'
}

/// How many characters of `text` stand before the first that `stop` holds of.
pub open spec fn span(text: Seq<char>, stop: spec_fn(char) -> bool) -> nat
    decreases text.len(),
{
    if text.len() == 0 || stop(text[0]) {
        0
    } else {
        1 + span(text.skip(1), stop)
    }
}

/// `span` counts characters that `stop` does not hold of, and ends at one that
/// it holds of or at the end of the text.
pub proof fn lemma_span(text: Seq<char>, stop: spec_fn(char) -> bool, n: nat)
    requires
        n <= text.len(),
        forall|i: int| 0 <= i < n ==> !stop(#[trigger] text[i]),
        n < text.len() ==> stop(text[n as int]),
    ensures
        span(text, stop) == n,
    decreases n,
{
    if n > 0 {
        assert(!stop(text[0]));
        assert forall|i: int| 0 <= i < n - 1 implies !stop(#[trigger] text.skip(1)[i]) by {
            assert(text.skip(1)[i] == text[i + 1]);
        }
        lemma_span(text.skip(1), stop, (n - 1) as nat);
    }
}

/// `span` counts at least the characters that `stop` is known not to hold of.
pub proof fn lemma_span_at_least(text: Seq<char>, stop: spec_fn(char) -> bool, n: nat)
    requires
        n <= text.len(),
        forall|i: int| 0 <= i < n ==> !stop(#[trigger] text[i]),
    ensures
        span(text, stop) >= n,
    decreases n,
{
    if n > 0 {
        assert(!stop(text[0]));
        assert forall|i: int| 0 <= i < n - 1 implies !stop(#[trigger] text.skip(1)[i]) by {
            assert(text.skip(1)[i] == text[i + 1]);
        }
        lemma_span_at_least(text.skip(1), stop, (n - 1) as nat);
    }
}

/// `span` stays within the text, and is positive where the text does not start
/// with a stop.
pub proof fn lemma_span_bound(text: Seq<char>, stop: spec_fn(char) -> bool)
    ensures
        span(text, stop) <= text.len(),
        text.len() > 0 && !stop(text[0]) ==> span(text, stop) > 0,
    decreases text.len(),
{
    if text.len() > 0 && !stop(text[0]) {
        lemma_span_bound(text.skip(1), stop);
    }
}

/// The longest runs of characters of `text` that are not white space, in order.
pub open spec fn words(text: Seq<char>) -> Seq<Seq<char>>
    decreases text.len(),
{
    if text.len() == 0 {
        Seq::empty()
    } else if is_space(text[0]) {
        words(text.skip(1))
    } else {
        let n = span(text, |c: char| is_space(c)) as int;
        proof {
            lemma_span_bound(text, |c: char| is_space(c));
        }
        seq![text.take(n)] + words(text.skip(n))
    }
}

/// The characters that are `separator`.
pub open spec fn only(separator: char) -> spec_fn(char) -> bool {
    |c: char| c == separator
}

/// The parts of `text` between the places where `separator` stands, in order.
/// There is always at least one.
pub open spec fn fields(text: Seq<char>, separator: char) -> Seq<Seq<char>>
    decreases text.len(),
{
    let n = span(text, only(separator)) as int;
    if n >= text.len() {
        seq![text]
    } else {
        seq![text.take(n)] + fields(text.skip(n + 1), separator)
    }
}

/// The texts that a list of character vectors holds.
pub open spec fn texts(list: Seq<Vec<char>>) -> Seq<Seq<char>> {
    list.map_values(|v: Vec<char>| v@)
}

fn copy_range(text: &Vec<char>, from: usize, to: usize) -> (part: Vec<char>)
    requires
        from <= to <= text@.len(),
    ensures
        part@ == text@.subrange(from as int, to as int),
{
    let mut part: Vec<char> = Vec::new();
    let mut i: usize = from;
    while i < to
        invariant
            from <= i <= to <= text@.len(),
            part@ == text@.subrange(from as int, i as int),
        decreases to - i,
    {
        part.push(text[i]);
        i += 1;
    }
    part
}

/// Splits `text` at white space.
pub fn split_words(text: &Vec<char>) -> (list: Vec<Vec<char>>)
    ensures
        texts(list@) == words(text@),
{
    let ghost stop = |c: char| is_space(c);
    let mut list: Vec<Vec<char>> = Vec::new();
    let mut i: usize = 0;
    assert(text@.skip(0) == text@);
    while i < text.len()
        invariant
            i <= text@.len(),
            stop == (|c: char| is_space(c)),
            texts(list@) + words(text@.skip(i as int)) == words(text@),
        decreases text@.len() - i,
    {
        let ghost rest = text@.skip(i as int);
        if space(text[i]) {
            assert(rest.skip(1) == text@.skip(i + 1));
            i += 1;
        } else {
            let start: usize = i;
            i += 1;
            while i < text.len() && !space(text[i])
                invariant
                    start < i <= text@.len(),
                    forall|j: int| start <= j < i ==> !is_space(#[trigger] text@[j]),
                decreases text@.len() - i,
            {
                i += 1;
            }
            let word = copy_range(text, start, i);
            proof {
                let n = (i - start) as nat;
                assert forall|j: int| 0 <= j < n implies !stop(#[trigger] rest[j]) by {
                    assert(rest[j] == text@[start + j]);
                }
                lemma_span(rest, stop, n);
                assert(rest.take(n as int) == word@);
                assert(rest.skip(n as int) == text@.skip(i as int));
                assert(texts(list@.push(word)) == texts(list@).push(word@));
                assert(texts(list@) + (seq![word@] + words(text@.skip(i as int)))
                    == texts(list@).push(word@) + words(text@.skip(i as int)));
            }
            list.push(word);
        }
    }
    assert(texts(list@) + words(text@.skip(i as int)) == texts(list@));
    list
}

/// Splits `text` wherever `separator` stands.
pub fn split_fields(text: &Vec<char>, separator: char) -> (list: Vec<Vec<char>>)
    ensures
        texts(list@) == fields(text@, separator),
{
    let ghost stop = only(separator);
    let mut list: Vec<Vec<char>> = Vec::new();
    let mut start: usize = 0;
    let mut i: usize = 0;
    assert(text@.skip(0) == text@);
    while i < text.len()
        invariant
            start <= i <= text@.len(),
            stop == only(separator),
            forall|j: int| start <= j < i ==> #[trigger] text@[j] != separator,
            texts(list@) + fields(text@.skip(start as int), separator) == fields(
                text@,
                separator,
            ),
        decreases text@.len() - i,
    {
        if text[i] == separator {
            let field = copy_range(text, start, i);
            proof {
                let rest = text@.skip(start as int);
                let n = (i - start) as nat;
                assert forall|j: int| 0 <= j < n implies !stop(#[trigger] rest[j]) by {
                    assert(rest[j] == text@[start + j]);
                }
                lemma_span(rest, stop, n);
                assert(rest.take(n as int) == field@);
                assert(rest.skip(n as int + 1) == text@.skip(i + 1));
                assert(texts(list@.push(field)) == texts(list@).push(field@));
                assert(texts(list@) + (seq![field@] + fields(text@.skip(i + 1), separator))
                    == texts(list@).push(field@) + fields(text@.skip(i + 1), separator));
            }
            list.push(field);
            start = i + 1;
        }
        i += 1;
    }
    let field = copy_range(text, start, i);
    proof {
        let rest = text@.skip(start as int);
        assert forall|j: int| 0 <= j < rest.len() implies !stop(#[trigger] rest[j]) by {
            assert(rest[j] == text@[start + j]);
        }
        lemma_span(rest, stop, rest.len());
        assert(rest == field@);
        assert(texts(list@.push(field)) == texts(list@) + seq![field@]);
    }
    list.push(field);
    list
}

/// A text is contained in another exactly if the other can be cut into what stands
/// before it, the text itself, and what stands after it.
pub proof fn contained_texts_can_be_cut_out(
    text: Seq<char>,
    needle: Seq<char>,
    before: Seq<char>,
    after: Seq<char>,
)
    ensures
        contains(before + needle + after, needle),
        contains(text, needle) ==> exists|b: Seq<char>, a: Seq<char>|
            text == #[trigger] (b + needle + a),
{
    let whole = before + needle + after;
    assert(whole.subrange(before.len() as int, (before.len() + needle.len()) as int) =~= needle);
    assert(occurs_at(whole, needle, before.len() as int));
    if contains(text, needle) {
        let at = choose|at: int| occurs_at(text, needle, at);
        let b = text.take(at);
        let a = text.skip(at + needle.len());
        assert(text =~= b + needle + a);
    }
}

/// Lowering a text keeps its length, leaves no capital letter, and changes nothing but
/// capital letters, each of which goes to the letter at its place in the alphabet.
pub proof fn lowering_changes_only_capitals(text: Seq<char>, i: int)
    requires
        0 <= i < text.len(),
    ensures
        lowered(text).len() == text.len(),
        !('A' <= lowered(text)[i] <= 'Z'),
        !('A' <= text[i] <= 'Z') ==> lowered(text)[i] == text[i],
        'A' <= text[i] <= 'Z' ==> lowered(text)[i] as int - 'a' as int == text[i] as int
            - 'A' as int,
{
}

/// What is left of a text once its start is taken off makes up the text again behind
/// that start, and a start is found on every text that was put behind it.
pub proof fn prefixes_are_taken_off(prefix: Seq<char>, rest: Seq<char>, text: Seq<char>)
    ensures
        after_prefix(prefix + rest, prefix) == Some(rest),
        after_prefix(text, prefix) matches Some(left) ==> prefix + left == text,
{
    let whole = prefix + rest;
    assert(prefix =~= whole.subrange(0, prefix.len() as int));
    assert(whole.skip(prefix.len() as int) =~= rest);
    if prefix.is_prefix_of(text) {
        assert(prefix + text.skip(prefix.len() as int) =~= text);
    }
}

/// White space is what Unicode calls so, code point by code point.
pub proof fn white_space_is_that_of_unicode(c: char)
    ensures
        is_space(c) <==> {
            let n = c as int;
            ||| n == 0x09
            ||| n == 0x0a
            ||| n == 0x0b
            ||| n == 0x0c
            ||| n == 0x0d
            ||| n == 0x20
            ||| n == 0x85
            ||| n == 0xa0
            ||| n == 0x1680
            ||| 0x2000 <= n <= 0x200a
            ||| n == 0x2028
            ||| n == 0x2029
            ||| n == 0x202f
            ||| n == 0x205f
            ||| n == 0x3000
        },
{
}

/// No character of the text is white space.
pub open spec fn is_spaceless(text: Seq<char>) -> bool {
    forall|i: int| 0 <= i < text.len() ==> !is_space(#[trigger] text[i])
}

/// A word that white space follows is the first word, and the others are those of what
/// follows. White space before a word makes no difference. A word alone is the only one.
pub proof fn words_are_split_off(word: Seq<char>, gap: char, rest: Seq<char>)
    requires
        is_space(gap),
        is_spaceless(word),
    ensures
        words(seq![gap] + rest) == words(rest),
        word.len() > 0 ==> words(word + seq![gap] + rest) == seq![word] + words(rest),
        word.len() > 0 ==> words(word) == seq![word],
        words(Seq::empty()).len() == 0,
{
    let stop = |c: char| is_space(c);
    assert((seq![gap] + rest)[0] == gap);
    assert((seq![gap] + rest).skip(1) =~= rest);
    if word.len() > 0 {
        let whole = word + seq![gap] + rest;
        let n = word.len();
        assert(whole[n as int] == gap);
        assert forall|i: int| 0 <= i < n implies !stop(#[trigger] whole[i]) by {
            assert(whole[i] == word[i]);
        }
        lemma_span(whole, stop, n);
        assert(!is_space(whole[0]));
        assert(whole.take(n as int) =~= word);
        assert(whole.skip(n as int) =~= seq![gap] + rest);
        assert(words(whole) == seq![word] + words(seq![gap] + rest));
        lemma_span(word, stop, n);
        assert(!is_space(word[0]));
        assert(word.take(n as int) =~= word);
        assert(word.skip(n as int) =~= Seq::empty());
        assert(words(word.skip(n as int)) =~= Seq::empty());
        assert(words(word) == seq![word] + words(word.skip(n as int)));
    }
}

/// A field that a separator follows is the first field, and the others are those of what
/// follows. Text without a separator is the only field.
pub proof fn fields_are_split_off(field: Seq<char>, separator: char, rest: Seq<char>)
    requires
        forall|i: int| 0 <= i < field.len() ==> #[trigger] field[i] != separator,
    ensures
        fields(field + seq![separator] + rest, separator) == seq![field] + fields(rest, separator),
        fields(field, separator) == seq![field],
{
    let whole = field + seq![separator] + rest;
    let n = field.len();
    assert(whole[n as int] == separator);
    assert forall|i: int| 0 <= i < n implies !only(separator)(#[trigger] whole[i]) by {
        assert(whole[i] == field[i]);
    }
    lemma_span(whole, only(separator), n);
    assert(whole.take(n as int) =~= field);
    assert(whole.skip(n as int + 1) =~= rest);
    lemma_span(field, only(separator), n);
}

/// Putting texts together lets a text arise at the seams only if it goes on there: not
/// one whose first character stands in the middle part only where its second does not
/// follow, and that holds the first character of the middle part nowhere but in front.
pub proof fn nothing_arises_at_the_seams(
    before: Seq<char>,
    middle: Seq<char>,
    after: Seq<char>,
    needle: Seq<char>,
)
    requires
        2 <= needle.len() <= middle.len(),
        !contains(before, needle),
        !contains(after, needle),
        forall|i: int|
            0 <= i < middle.len() && #[trigger] middle[i] == needle[0] ==> i + 1 < middle.len()
                && middle[i + 1] != needle[1],
        forall|j: int| 1 <= j < needle.len() ==> #[trigger] needle[j] != middle[0],
    ensures
        !contains(before + middle + after, needle),
{
    let whole = before + middle + after;
    assert forall|at: int| !occurs_at(whole, needle, at) by {
        if occurs_at(whole, needle, at) {
            let found = whole.subrange(at, at + needle.len());
            let b = before.len();
            let m = middle.len();
            if at + needle.len() <= b {
                assert(before.subrange(at, at + needle.len()) =~= needle);
                assert(occurs_at(before, needle, at));
            } else if at < b {
                assert(found[b - at] == whole[b as int]);
                assert(needle[b - at] == middle[0]);
            } else if at < b + m {
                assert(found[0] == whole[at]);
                assert(middle[at - b] == needle[0]);
                assert(found[1] == whole[at + 1]);
                assert(whole[at + 1] == middle[at - b + 1]);
            } else {
                let from = at - b - m;
                assert(after.subrange(from, from + needle.len()) =~= needle);
                assert(occurs_at(after, needle, from));
            }
        }
    }
}

} // verus!

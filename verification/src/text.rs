//! Character-level helpers on which the extraction of probe matches rests:
//! splitting a list of tokens at white space, trimming, and taking the parts
//! of qualified names and of scope identifiers.

use vstd::prelude::*;
use vstd::string::StringSliceAdditionalSpecFns;
use vstd::utf8::valid_utf8;

verus! {

/// `String::push` appends one character to the end of the string.
pub assume_specification[ String::push ](s: &mut String, c: char)
    ensures
        final(s)@ == old(s)@.push(c),
;

/// `core::str::from_utf8`: the bytes as text, where they are valid UTF-8,
/// and nothing where they are not.
#[verifier::external_body]
pub(crate) fn utf8_text(bytes: &[u8]) -> (r: Option<&str>)
    ensures
        r is Some <==> valid_utf8(bytes@),
        r matches Some(text) ==> text.spec_bytes() == bytes@,
{
    match core::str::from_utf8(bytes) {
        Ok(text) => Some(text),
        Err(_) => None,
    }
}

/// White space as XML defines it: space, tab, line feed and carriage return.
pub open spec fn is_space(c: char) -> bool {
    c == ' ' || c == '\t' || c == '\n' || c == '\r'
}

/// A word: at least one character, none of them white space.
pub open spec fn is_word(w: Seq<char>) -> bool {
    w.len() > 0 && forall|k: int| 0 <= k < w.len() ==> !is_space(#[trigger] w[k])
}

/// No word for an empty run of characters, one word otherwise.
pub open spec fn flush(pending: Seq<char>) -> Seq<Seq<char>> {
    if pending.len() == 0 {
        Seq::empty()
    } else {
        seq![pending]
    }
}

/// The words of `pending + rest`, where `pending` is the beginning of a word
/// that has been read already.
pub open spec fn words_from(pending: Seq<char>, rest: Seq<char>) -> Seq<Seq<char>>
    decreases rest.len(),
{
    if rest.len() == 0 {
        flush(pending)
    } else if is_space(rest[0]) {
        flush(pending) + words_from(Seq::empty(), rest.drop_first())
    } else {
        words_from(pending.push(rest[0]), rest.drop_first())
    }
}

/// The maximal runs of characters other than white space, in the order in
/// which they occur in `s`.
pub open spec fn words(s: Seq<char>) -> Seq<Seq<char>> {
    words_from(Seq::empty(), s)
}

/// `s` without the white space at its beginning.
pub open spec fn trim_start(s: Seq<char>) -> Seq<char>
    decreases s.len(),
{
    if s.len() > 0 && is_space(s[0]) {
        trim_start(s.drop_first())
    } else {
        s
    }
}

/// `s` without the white space at its end.
pub open spec fn trim_end(s: Seq<char>) -> Seq<char>
    decreases s.len(),
{
    if s.len() > 0 && is_space(s.last()) {
        trim_end(s.drop_last())
    } else {
        s
    }
}

/// `s` without the white space at either end.
pub open spec fn trimmed(s: Seq<char>) -> Seq<char> {
    trim_end(trim_start(s))
}

/// What follows the first occurrence of `sep` in `s`; empty where there is
/// none.
pub open spec fn after_first(s: Seq<char>, sep: char) -> Seq<char>
    decreases s.len(),
{
    if s.len() == 0 {
        s
    } else if s[0] == sep {
        s.drop_first()
    } else {
        after_first(s.drop_first(), sep)
    }
}

/// The local part of a qualified element name: what follows the first colon,
/// or the whole name where it has no prefix.
pub open spec fn local_name(name: Seq<char>) -> Seq<char> {
    if name.contains(':') {
        after_first(name, ':')
    } else {
        name
    }
}

/// What follows the last occurrence of `sep` in `s`; all of `s` where there
/// is none.
pub open spec fn after_last(s: Seq<char>, sep: char) -> Seq<char>
    decreases s.len(),
{
    if s.len() == 0 || s.last() == sep {
        Seq::empty()
    } else {
        after_last(s.drop_last(), sep).push(s.last())
    }
}

/// The final segment of a path whose segments are separated by `/`.
pub open spec fn last_segment(path: Seq<char>) -> Seq<char> {
    after_last(path, '/')
}

/// Decides [`is_space`].
pub fn space(c: char) -> (r: bool)
    ensures
        r == is_space(c),
{
    c == ' ' || c == '\t' || c == '\n' || c == '\r'
}

/// The characters of `s`, in order.
pub fn chars_of(s: &str) -> (r: Vec<char>)
    ensures
        r@ == s@,
{
    let mut out: Vec<char> = Vec::new();
    for c in it: s.chars()
        invariant
            it.seq() == s@,
            out@ == it.seq().take(it.index()),
    {
        out.push(c);
    }
    out
}

/// The text made of `chars[from..to]`.
pub fn text_of(chars: &Vec<char>, from: usize, to: usize) -> (r: String)
    requires
        from <= to <= chars.len(),
    ensures
        r@ == chars@.subrange(from as int, to as int),
{
    let mut out = String::new();
    let mut i: usize = from;
    while i < to
        invariant
            from <= i <= to <= chars.len(),
            out@ == chars@.subrange(from as int, i as int),
        decreases to - i,
    {
        out.push(chars[i]);
        i += 1;
    }
    out
}

/// Whether `s` begins with `prefix`.
pub fn starts_with(s: &Vec<char>, prefix: &Vec<char>) -> (r: bool)
    ensures
        r == prefix@.is_prefix_of(s@),
{
    if prefix.len() > s.len() {
        return false;
    }
    let mut i: usize = 0;
    while i < prefix.len()
        invariant
            i <= prefix.len() <= s.len(),
            forall|k: int| 0 <= k < i ==> s@[k] == prefix@[k],
        decreases prefix.len() - i,
    {
        if s[i] != prefix[i] {
            return false;
        }
        i += 1;
    }
    assert(prefix@ == s@.subrange(0, prefix.len() as int));
    true
}

/// Splits `s` at white space into its words.
pub fn split_words(s: &str) -> (r: Vec<String>)
    ensures
        r.deep_view() == words(s@),
{
    let chars = chars_of(s);
    let mut out: Vec<String> = Vec::new();
    let mut start: usize = 0;
    let mut i: usize = 0;
    assert(chars@.skip(0) == chars@);
    assert(chars@.subrange(0, 0) == Seq::<char>::empty());
    assert(out.deep_view() == Seq::<Seq<char>>::empty());
    while i < chars.len()
        invariant
            start <= i <= chars.len(),
            chars@ == s@,
            words(s@) == out.deep_view() + words_from(
                chars@.subrange(start as int, i as int),
                chars@.skip(i as int),
            ),
        decreases chars.len() - i,
    {
        let ghost rest = chars@.skip(i as int);
        let ghost pending = chars@.subrange(start as int, i as int);
        assert(rest.drop_first() == chars@.skip(i + 1));
        assert(rest[0] == chars@[i as int]);
        if space(chars[i]) {
            if start < i {
                let word = text_of(&chars, start, i);
                let ghost before = out.deep_view();
                out.push(word);
                assert(out.deep_view() == before.push(pending));
                assert(before.push(pending) == before + flush(pending));
            }
            start = i + 1;
            assert(chars@.subrange(start as int, i + 1) == Seq::<char>::empty());
        } else {
            assert(chars@.subrange(start as int, i + 1) == pending.push(rest[0]));
        }
        i += 1;
    }
    assert(chars@.skip(i as int).len() == 0);
    if start < i {
        let word = text_of(&chars, start, i);
        let ghost before = out.deep_view();
        out.push(word);
        assert(out.deep_view() == before.push(word@));
    }
    out
}

/// `s` without the white space at either end.
pub fn trim(s: &str) -> (r: String)
    ensures
        r@ == trimmed(s@),
{
    let chars = chars_of(s);
    let mut from: usize = 0;
    while from < chars.len() && space(chars[from])
        invariant
            from <= chars.len(),
            forall|k: int| 0 <= k < from ==> is_space(#[trigger] chars@[k]),
        decreases chars.len() - from,
    {
        from += 1;
    }
    let mut to: usize = chars.len();
    while to > from && space(chars[to - 1])
        invariant
            from <= to <= chars.len(),
            forall|k: int| to <= k < chars.len() ==> is_space(#[trigger] chars@[k]),
        decreases to,
    {
        to -= 1;
    }
    proof {
        lemma_trim_start_skips(chars@, from as int);
        let rest = chars@.skip(from as int);
        assert forall|k: int| to - from <= k < rest.len() implies is_space(#[trigger] rest[k]) by {
            assert(rest[k] == chars@[k + from]);
        }
        lemma_trim_end_takes(rest, to - from);
        assert(rest.take(to - from) == chars@.subrange(from as int, to as int));
    }
    text_of(&chars, from, to)
}

/// The local part of the qualified name `name`.
pub fn local_part(name: &str) -> (r: String)
    ensures
        r@ == local_name(name@),
{
    let chars = chars_of(name);
    let mut i: usize = 0;
    while i < chars.len() && chars[i] != ':'
        invariant
            i <= chars.len(),
            forall|k: int| 0 <= k < i ==> chars@[k] != ':',
        decreases chars.len() - i,
    {
        i += 1;
    }
    if i < chars.len() {
        proof {
            let head = chars@.take(i as int);
            let tail = chars@.skip(i + 1);
            assert(chars@ == head + seq![':'] + tail);
            lemma_after_first_of_joined(head, ':', tail);
        }
        text_of(&chars, i + 1, chars.len())
    } else {
        assert(chars@.subrange(0, chars.len() as int) == chars@);
        text_of(&chars, 0, chars.len())
    }
}

/// The final segment of `path`.
pub fn final_segment(path: &Vec<char>) -> (r: String)
    ensures
        r@ == last_segment(path@),
{
    let mut from: usize = path.len();
    while from > 0 && path[from - 1] != '/'
        invariant
            from <= path.len(),
            forall|k: int| from <= k < path.len() ==> path@[k] != '/',
        decreases from,
    {
        from -= 1;
    }
    proof {
        let tail = path@.skip(from as int);
        if from > 0 {
            let head = path@.take(from - 1);
            assert(path@ == head + seq!['/'] + tail);
            lemma_after_last_of_joined(head, '/', tail);
        } else {
            assert(tail == path@);
            lemma_after_last_without(path@, '/');
        }
        assert(tail == path@.subrange(from as int, path.len() as int));
    }
    text_of(path, from, path.len())
}

proof fn lemma_trim_start_skips(s: Seq<char>, n: int)
    requires
        0 <= n <= s.len(),
        forall|k: int| 0 <= k < n ==> is_space(#[trigger] s[k]),
        n < s.len() ==> !is_space(s[n]),
    ensures
        trim_start(s) == s.skip(n),
    decreases n,
{
    if n == 0 {
        assert(s.skip(0) == s);
    } else {
        assert(is_space(s[0]));
        let rest = s.drop_first();
        assert forall|k: int| 0 <= k < n - 1 implies is_space(#[trigger] rest[k]) by {
            assert(rest[k] == s[k + 1]);
        }
        lemma_trim_start_skips(rest, n - 1);
        assert(rest.skip(n - 1) == s.skip(n));
    }
}

proof fn lemma_trim_end_takes(s: Seq<char>, n: int)
    requires
        0 <= n <= s.len(),
        forall|k: int| n <= k < s.len() ==> is_space(#[trigger] s[k]),
        n > 0 ==> !is_space(s[n - 1]),
    ensures
        trim_end(s) == s.take(n),
    decreases s.len() - n,
{
    if n == s.len() {
        assert(s.take(n) == s);
    } else {
        assert(is_space(s[s.len() - 1]));
        let rest = s.drop_last();
        lemma_trim_end_takes(rest, n);
        assert(rest.take(n) == s.take(n));
    }
}

/// A text that holds no `sep` is what follows the last `sep`: all of it.
pub proof fn lemma_after_last_without(s: Seq<char>, sep: char)
    requires
        !s.contains(sep),
    ensures
        after_last(s, sep) == s,
    decreases s.len(),
{
    if s.len() > 0 {
        assert(s.last() == s[s.len() - 1]);
        assert forall|k: int| 0 <= k < s.drop_last().len() implies s.drop_last()[k] != sep by {
            assert(s.drop_last()[k] == s[k]);
        }
        lemma_after_last_without(s.drop_last(), sep);
        assert(s.drop_last().push(s.last()) == s);
    }
}

/// After `head`, one `sep` and a `tail` that holds no `sep`, what follows the
/// last `sep` is `tail`.
pub proof fn lemma_after_last_of_joined(head: Seq<char>, sep: char, tail: Seq<char>)
    requires
        !tail.contains(sep),
    ensures
        after_last(head + seq![sep] + tail, sep) == tail,
    decreases tail.len(),
{
    let whole = head + seq![sep] + tail;
    if tail.len() == 0 {
        assert(whole.last() == sep);
    } else {
        assert(whole.last() == tail.last());
        assert(tail.last() == tail[tail.len() - 1]);
        assert(whole.drop_last() == head + seq![sep] + tail.drop_last());
        assert forall|k: int| 0 <= k < tail.drop_last().len() implies tail.drop_last()[k]
            != sep by {
            assert(tail.drop_last()[k] == tail[k]);
        }
        lemma_after_last_of_joined(head, sep, tail.drop_last());
        assert(tail.drop_last().push(tail.last()) == tail);
    }
}

/// After a `head` that holds no `sep`, one `sep` and `tail`, what follows the
/// first `sep` is `tail`.
pub proof fn lemma_after_first_of_joined(head: Seq<char>, sep: char, tail: Seq<char>)
    requires
        !head.contains(sep),
    ensures
        after_first(head + seq![sep] + tail, sep) == tail,
    decreases head.len(),
{
    let whole = head + seq![sep] + tail;
    if head.len() == 0 {
        assert(whole[0] == sep);
        assert(whole.drop_first() == tail);
    } else {
        assert(whole[0] == head[0]);
        assert(whole.drop_first() == head.drop_first() + seq![sep] + tail);
        assert forall|k: int| 0 <= k < head.drop_first().len() implies head.drop_first()[k]
            != sep by {
            assert(head.drop_first()[k] == head[k + 1]);
        }
        lemma_after_first_of_joined(head.drop_first(), sep, tail);
    }
}

/// Every word of a text is non-empty and free of white space.
pub proof fn lemma_words_are_clean(s: Seq<char>)
    ensures
        forall|i: int| 0 <= i < words(s).len() ==> is_word(#[trigger] words(s)[i]),
{
    lemma_words_from_are_clean(Seq::empty(), s);
}

proof fn lemma_words_from_are_clean(pending: Seq<char>, rest: Seq<char>)
    requires
        forall|k: int| 0 <= k < pending.len() ==> !is_space(#[trigger] pending[k]),
    ensures
        forall|i: int|
            0 <= i < words_from(pending, rest).len() ==> is_word(
                #[trigger] words_from(pending, rest)[i],
            ),
    decreases rest.len(),
{
    let all = words_from(pending, rest);
    if rest.len() == 0 {
        assert forall|i: int| 0 <= i < all.len() implies is_word(#[trigger] all[i]) by {
            assert(all[i] == pending);
        }
    } else if is_space(rest[0]) {
        lemma_words_from_are_clean(Seq::empty(), rest.drop_first());
        let tail = words_from(Seq::empty(), rest.drop_first());
        assert forall|i: int| 0 <= i < all.len() implies is_word(#[trigger] all[i]) by {
            if i >= flush(pending).len() {
                assert(all[i] == tail[i - flush(pending).len()]);
            } else {
                assert(all[i] == pending);
            }
        }
    } else {
        let longer = pending.push(rest[0]);
        assert forall|k: int| 0 <= k < longer.len() implies !is_space(#[trigger] longer[k]) by {
            if k < pending.len() {
                assert(longer[k] == pending[k]);
            }
        }
        lemma_words_from_are_clean(longer, rest.drop_first());
        assert(all == words_from(longer, rest.drop_first()));
    }
}

/// A text that is one word already is its own only word.
pub proof fn lemma_word_alone(w: Seq<char>)
    requires
        is_word(w),
    ensures
        words(w) == seq![w],
{
    lemma_words_from_word(Seq::empty(), w);
}

proof fn lemma_words_from_word(pending: Seq<char>, rest: Seq<char>)
    requires
        pending.len() + rest.len() > 0,
        forall|k: int| 0 <= k < rest.len() ==> !is_space(#[trigger] rest[k]),
    ensures
        words_from(pending, rest) == seq![pending + rest],
    decreases rest.len(),
{
    if rest.len() == 0 {
        assert(pending + rest == pending);
    } else {
        assert(!is_space(rest[0]));
        assert forall|k: int| 0 <= k < rest.drop_first().len() implies !is_space(
            #[trigger] rest.drop_first()[k],
        ) by {
            assert(rest.drop_first()[k] == rest[k + 1]);
        }
        lemma_words_from_word(pending.push(rest[0]), rest.drop_first());
        assert(pending.push(rest[0]) + rest.drop_first() == pending + rest);
    }
}

/// The words of two texts joined by one white-space character are the words
/// of the first followed by those of the second.
pub proof fn lemma_words_of_joined(a: Seq<char>, sep: char, b: Seq<char>)
    requires
        is_space(sep),
    ensures
        words(a + seq![sep] + b) == words(a) + words(b),
{
    lemma_words_from_joined(Seq::empty(), a, sep, b);
}

proof fn lemma_words_from_joined(pending: Seq<char>, a: Seq<char>, sep: char, b: Seq<char>)
    requires
        is_space(sep),
    ensures
        words_from(pending, a + seq![sep] + b) == words_from(pending, a) + words(b),
    decreases a.len(),
{
    let whole = a + seq![sep] + b;
    if a.len() == 0 {
        assert(whole[0] == sep);
        assert(whole.drop_first() == b);
    } else {
        assert(whole[0] == a[0]);
        assert(whole.drop_first() == a.drop_first() + seq![sep] + b);
        if is_space(a[0]) {
            lemma_words_from_joined(Seq::empty(), a.drop_first(), sep, b);
        } else {
            lemma_words_from_joined(pending.push(a[0]), a.drop_first(), sep, b);
        }
    }
}

} // verus!

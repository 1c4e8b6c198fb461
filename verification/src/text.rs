use vstd::prelude::*;
use vstd::std_specs::iter::IteratorSpec;

verus! {

/// Whether std counts a character as white space.
pub uninterp spec fn is_whitespace(c: char) -> bool;

/// Calls `char::is_whitespace` of std. The contract only names the outcome.
#[verifier::external_body]
fn whitespace(c: char) -> (white: bool)
    ensures
        white == is_whitespace(c),
{
    c.is_whitespace()
}

/// Calls `String::push` of std, which appends the character to the text.
#[verifier::external_body]
pub(crate) fn push_char(text: &mut String, c: char)
    ensures
        final(text)@ == old(text)@.push(c),
{
    text.push(c)
}

/// The least position from `from` on that holds `c`; the length where there
/// is none.
pub open spec fn first_at(s: Seq<char>, c: char, from: int) -> int
    decreases s.len() - from,
{
    if from < 0 || from >= s.len() {
        s.len() as int
    } else if s[from] == c {
        from
    } else {
        first_at(s, c, from + 1)
    }
}

/// The least position from `from` on that holds white space; the length
/// where there is none.
pub open spec fn next_space(s: Seq<char>, from: int) -> int
    decreases s.len() - from,
{
    if from < 0 || from >= s.len() {
        s.len() as int
    } else if is_whitespace(s[from]) {
        from
    } else {
        next_space(s, from + 1)
    }
}

/// The least position from `from` on that holds no white space; the length
/// where there is none.
pub open spec fn next_word(s: Seq<char>, from: int) -> int
    decreases s.len() - from,
{
    if from < 0 || from >= s.len() {
        s.len() as int
    } else if !is_whitespace(s[from]) {
        from
    } else {
        next_word(s, from + 1)
    }
}

/// The end of the text before `upto` once the white space that ends it is
/// taken off, not going below `low`.
pub open spec fn end_of_text(s: Seq<char>, low: int, upto: int) -> int
    decreases upto,
{
    if upto <= low || upto > s.len() || low < 0 {
        upto
    } else if is_whitespace(s[upto - 1]) {
        end_of_text(s, low, upto - 1)
    } else {
        upto
    }
}

/// The end of the text once every `c` that ends it is taken off.
pub open spec fn end_without(s: Seq<char>, c: char, upto: int) -> int
    decreases upto,
{
    if upto <= 0 || upto > s.len() {
        upto
    } else if s[upto - 1] == c {
        end_without(s, c, upto - 1)
    } else {
        upto
    }
}

/// The text without the white space that begins and ends it.
pub open spec fn trimmed(s: Seq<char>) -> Seq<char> {
    let low = next_word(s, 0);
    s.subrange(low, end_of_text(s, low, s.len() as int))
}

/// The text without the run of `c` that ends it.
pub open spec fn without_trailing(s: Seq<char>, c: char) -> Seq<char> {
    s.take(end_without(s, c, s.len() as int))
}

/// The text before the first `c`; all of it where it holds none.
pub open spec fn before(s: Seq<char>, c: char) -> Seq<char> {
    s.take(first_at(s, c, 0))
}

/// The pieces of the text from `from` on: it is cut at every `sep`, which
/// belongs to no piece. A text with n separators has n + 1 pieces.
pub open spec fn split_from(s: Seq<char>, sep: char, from: int) -> Seq<Seq<char>>
    decreases s.len() - from,
    via split_from_decreases
{
    if from < 0 || from > s.len() {
        Seq::empty()
    } else {
        let end = first_at(s, sep, from);
        if end >= s.len() {
            seq![s.subrange(from, s.len() as int)]
        } else {
            seq![s.subrange(from, end)] + split_from(s, sep, end + 1)
        }
    }
}

#[via_fn]
proof fn split_from_decreases(s: Seq<char>, sep: char, from: int) {
    if 0 <= from <= s.len() {
        lemma_first_at_bounds(s, sep, from);
    }
}

/// The pieces of the text, cut at every `sep`.
pub open spec fn split(s: Seq<char>, sep: char) -> Seq<Seq<char>> {
    split_from(s, sep, 0)
}

/// The words of the text from `from` on: its longest runs without white
/// space.
pub open spec fn words_from(s: Seq<char>, from: int) -> Seq<Seq<char>>
    decreases s.len() - from,
    via words_from_decreases
{
    let start = next_word(s, from);
    if from < 0 || start >= s.len() {
        Seq::empty()
    } else {
        let end = next_space(s, start);
        seq![s.subrange(start, end)] + words_from(s, end)
    }
}

#[via_fn]
proof fn words_from_decreases(s: Seq<char>, from: int) {
    if 0 <= from <= s.len() {
        lemma_next_word_bounds(s, from);
        lemma_next_space_bounds(s, next_word(s, from));
    }
}

/// The words of the text.
pub open spec fn words(s: Seq<char>) -> Seq<Seq<char>> {
    words_from(s, 0)
}

/// The texts of a vector of texts.
pub open spec fn texts(pieces: Seq<Vec<char>>) -> Seq<Seq<char>> {
    Seq::new(pieces.len(), |i: int| pieces[i]@)
}

/// The position found lies from `from` on, holds `c` where it is within
/// the text, and no position before it does.
pub proof fn lemma_first_at_bounds(s: Seq<char>, c: char, from: int)
    requires
        0 <= from <= s.len(),
    ensures
        from <= first_at(s, c, from) <= s.len(),
        first_at(s, c, from) < s.len() ==> s[first_at(s, c, from)] == c,
        forall|i: int| from <= i < first_at(s, c, from) ==> s[i] != c,
    decreases s.len() - from,
{
    if from < s.len() && s[from] != c {
        lemma_first_at_bounds(s, c, from + 1);
    }
}

/// The position found lies from `from` on, holds white space where it is
/// within the text, and no position before it does.
pub proof fn lemma_next_space_bounds(s: Seq<char>, from: int)
    requires
        0 <= from <= s.len(),
    ensures
        from <= next_space(s, from) <= s.len(),
        next_space(s, from) < s.len() ==> is_whitespace(s[next_space(s, from)]),
        forall|i: int| from <= i < next_space(s, from) ==> !is_whitespace(s[i]),
    decreases s.len() - from,
{
    if from < s.len() && !is_whitespace(s[from]) {
        lemma_next_space_bounds(s, from + 1);
    }
}

/// The position found lies from `from` on, holds no white space where it
/// is within the text, and every position before it does.
pub proof fn lemma_next_word_bounds(s: Seq<char>, from: int)
    requires
        0 <= from <= s.len(),
    ensures
        from <= next_word(s, from) <= s.len(),
        next_word(s, from) < s.len() ==> !is_whitespace(s[next_word(s, from)]),
        forall|i: int| from <= i < next_word(s, from) ==> is_whitespace(s[i]),
    decreases s.len() - from,
{
    if from < s.len() && is_whitespace(s[from]) {
        lemma_next_word_bounds(s, from + 1);
    }
}

/// The end that is found lies between `low` and `upto`, and what is taken
/// off is white space; where anything is left, it does not end in white
/// space.
pub proof fn lemma_end_of_text_bounds(s: Seq<char>, low: int, upto: int)
    requires
        0 <= low <= upto <= s.len(),
    ensures
        low <= end_of_text(s, low, upto) <= upto,
        forall|i: int| end_of_text(s, low, upto) <= i < upto ==> is_whitespace(s[i]),
        end_of_text(s, low, upto) > low ==> !is_whitespace(s[end_of_text(s, low, upto) - 1]),
    decreases upto,
{
    if upto > low && is_whitespace(s[upto - 1]) {
        lemma_end_of_text_bounds(s, low, upto - 1);
    }
}

/// A trimmed text neither begins nor ends with white space.
pub proof fn lemma_trimmed_is_bare(s: Seq<char>)
    ensures
        trimmed(s).len() > 0 ==> !is_whitespace(trimmed(s).first()) && !is_whitespace(
            trimmed(s).last(),
        ),
        trimmed(s).len() <= s.len(),
{
    lemma_next_word_bounds(s, 0);
    let low = next_word(s, 0);
    lemma_end_of_text_bounds(s, low, s.len() as int);
}

/// No piece of a text that is cut at a separator holds the separator.
pub proof fn lemma_pieces_hold_no_separator(s: Seq<char>, sep: char, from: int)
    requires
        0 <= from <= s.len(),
    ensures
        forall|k: int|
            0 <= k < split_from(s, sep, from).len() ==> !(#[trigger] split_from(s, sep, from)[k]).contains(
                sep,
            ),
    decreases s.len() - from,
{
    lemma_first_at_bounds(s, sep, from);
    let end = first_at(s, sep, from);
    if end >= s.len() {
        let piece = s.subrange(from, s.len() as int);
        assert(!piece.contains(sep)) by {
            if piece.contains(sep) {
                let i = choose|i: int| 0 <= i < piece.len() && piece[i] == sep;
                assert(s[from + i] == sep);
            }
        }
    } else {
        lemma_pieces_hold_no_separator(s, sep, end + 1);
        let piece = s.subrange(from, end);
        assert(!piece.contains(sep)) by {
            if piece.contains(sep) {
                let i = choose|i: int| 0 <= i < piece.len() && piece[i] == sep;
                assert(s[from + i] == sep);
            }
        }
        let rest = split_from(s, sep, end + 1);
        assert forall|k: int| 0 <= k < split_from(s, sep, from).len() implies !(
        #[trigger] split_from(s, sep, from)[k]).contains(sep) by {
            if k > 0 {
                assert(split_from(s, sep, from)[k] == rest[k - 1]);
            }
        }
    }
}

/// Every word of a text holds a character, and none of its characters is
/// white space.
pub proof fn lemma_words_are_bare(s: Seq<char>, from: int)
    requires
        0 <= from <= s.len(),
    ensures
        forall|k: int|
            0 <= k < words_from(s, from).len() ==> (#[trigger] words_from(s, from)[k]).len() > 0
                && forall|i: int|
                0 <= i < words_from(s, from)[k].len() ==> !is_whitespace(words_from(s, from)[k][i]),
    decreases s.len() - from,
{
    lemma_next_word_bounds(s, from);
    let start = next_word(s, from);
    if start < s.len() {
        lemma_next_space_bounds(s, start);
        let end = next_space(s, start);
        lemma_words_are_bare(s, end);
        let rest = words_from(s, end);
        assert forall|k: int| 0 <= k < words_from(s, from).len() implies (#[trigger] words_from(
            s,
            from,
        )[k]).len() > 0 && forall|i: int|
            0 <= i < words_from(s, from)[k].len() ==> !is_whitespace(words_from(s, from)[k][i]) by {
            if k > 0 {
                assert(words_from(s, from)[k] == rest[k - 1]);
            } else {
                assert(words_from(s, from)[0] == s.subrange(start, end));
            }
        }
    }
}

/// The characters of a text.
pub fn chars_of(text: &str) -> (chars: Vec<char>)
    ensures
        chars@ == text@,
{
    broadcast use vstd::string::axiom_spec_iter, vstd::string::next_postcondition;

    let mut rest = text.chars();
    let mut chars: Vec<char> = Vec::new();
    loop
        invariant
            rest.obeys_prophetic_iter_laws(),
            rest.decrease() is Some,
            chars@ + rest.remaining() == text@,
        decreases rest.decrease()->0,
    {
        match rest.next() {
            Some(c) => {
                chars.push(c);
                assert(chars@ + rest.remaining() =~= text@);
            },
            None => {
                assert(chars@ =~= text@);
                return chars;
            },
        }
    }
}

/// The text of the characters.
pub fn string_of(chars: &Vec<char>) -> (text: String)
    ensures
        text@ == chars@,
{
    let mut text = String::new();
    let mut i: usize = 0;
    while i < chars.len()
        invariant
            0 <= i <= chars.len(),
            text@ == chars@.take(i as int),
        decreases chars.len() - i,
    {
        push_char(&mut text, chars[i]);
        assert(text@ =~= chars@.take(i + 1));
        i += 1;
    }
    assert(text@ =~= chars@);
    text
}

/// The characters from `low` up to `high`.
pub fn slice_of(chars: &Vec<char>, low: usize, high: usize) -> (piece: Vec<char>)
    requires
        low <= high <= chars.len(),
    ensures
        piece@ == chars@.subrange(low as int, high as int),
{
    let mut piece: Vec<char> = Vec::new();
    let mut i: usize = low;
    while i < high
        invariant
            low <= i <= high <= chars.len(),
            piece@ == chars@.subrange(low as int, i as int),
        decreases high - i,
    {
        piece.push(chars[i]);
        assert(piece@ =~= chars@.subrange(low as int, i + 1));
        i += 1;
    }
    piece
}

/// Takes off the white space that begins and ends the text.
pub fn trim(chars: &Vec<char>) -> (out: Vec<char>)
    ensures
        out@ == trimmed(chars@),
{
    let mut low: usize = 0;
    while low < chars.len() && whitespace(chars[low])
        invariant
            0 <= low <= chars.len(),
            next_word(chars@, 0) == next_word(chars@, low as int),
        decreases chars.len() - low,
    {
        low += 1;
    }
    let mut high: usize = chars.len();
    while high > low && whitespace(chars[high - 1])
        invariant
            low <= high <= chars.len(),
            end_of_text(chars@, low as int, chars@.len() as int) == end_of_text(
                chars@,
                low as int,
                high as int,
            ),
        decreases high,
    {
        high -= 1;
    }
    slice_of(chars, low, high)
}

/// Takes off the run of `c` that ends the text.
pub fn trim_end_matches(chars: &Vec<char>, c: char) -> (out: Vec<char>)
    ensures
        out@ == without_trailing(chars@, c),
{
    let mut high: usize = chars.len();
    while high > 0 && chars[high - 1] == c
        invariant
            0 <= high <= chars.len(),
            end_without(chars@, c, chars@.len() as int) == end_without(chars@, c, high as int),
        decreases high,
    {
        high -= 1;
    }
    slice_of(chars, 0, high)
}

/// The position of the first `c` from `from` on, or the length.
pub fn find_from(chars: &Vec<char>, c: char, from: usize) -> (at: usize)
    requires
        from <= chars.len(),
    ensures
        at == first_at(chars@, c, from as int),
        from <= at <= chars.len(),
{
    let mut at: usize = from;
    while at < chars.len() && chars[at] != c
        invariant
            from <= at <= chars.len(),
            first_at(chars@, c, from as int) == first_at(chars@, c, at as int),
        decreases chars.len() - at,
    {
        at += 1;
    }
    at
}

/// The text before the first `c`.
pub fn take_before(chars: &Vec<char>, c: char) -> (out: Vec<char>)
    ensures
        out@ == before(chars@, c),
{
    let end: usize = find_from(chars, c, 0);
    slice_of(chars, 0, end)
}

/// Cuts the text at every `sep`.
pub fn split_on(chars: &Vec<char>, sep: char) -> (pieces: Vec<Vec<char>>)
    ensures
        texts(pieces@) == split(chars@, sep),
{
    let mut pieces: Vec<Vec<char>> = Vec::new();
    let mut from: usize = 0;
    loop
        invariant
            0 <= from <= chars.len(),
            texts(pieces@) + split_from(chars@, sep, from as int) == split(chars@, sep),
        decreases chars.len() - from,
    {
        let end: usize = find_from(chars, sep, from);
        let piece: Vec<char> = slice_of(chars, from, end);
        let ghost before = texts(pieces@);
        pieces.push(piece);
        assert(texts(pieces@) =~= before + seq![chars@.subrange(from as int, end as int)]);
        if end >= chars.len() {
            assert(texts(pieces@) =~= split(chars@, sep));
            return pieces;
        }
        assert(texts(pieces@) + split_from(chars@, sep, end + 1) =~= before + split_from(
            chars@,
            sep,
            from as int,
        ));
        from = end + 1;
    }
}

/// The words of the text.
pub fn split_whitespace(chars: &Vec<char>) -> (pieces: Vec<Vec<char>>)
    ensures
        texts(pieces@) == words(chars@),
{
    let mut pieces: Vec<Vec<char>> = Vec::new();
    let mut from: usize = 0;
    loop
        invariant
            0 <= from <= chars.len(),
            texts(pieces@) + words_from(chars@, from as int) == words(chars@),
        decreases chars.len() - from,
    {
        let mut start: usize = from;
        while start < chars.len() && whitespace(chars[start])
            invariant
                from <= start <= chars.len(),
                next_word(chars@, from as int) == next_word(chars@, start as int),
            decreases chars.len() - start,
        {
            start += 1;
        }
        if start >= chars.len() {
            assert(texts(pieces@) =~= words(chars@));
            return pieces;
        }
        let mut end: usize = start;
        while end < chars.len() && !whitespace(chars[end])
            invariant
                start <= end <= chars.len(),
                next_space(chars@, start as int) == next_space(chars@, end as int),
            decreases chars.len() - end,
        {
            end += 1;
        }
        let piece: Vec<char> = slice_of(chars, start, end);
        let ghost before = texts(pieces@);
        pieces.push(piece);
        proof {
            assert(end > start);
            assert(texts(pieces@) =~= before + seq![chars@.subrange(start as int, end as int)]);
            assert(texts(pieces@) + words_from(chars@, end as int) =~= before + words_from(
                chars@,
                from as int,
            ));
        }
        from = end;
    }
}

} // verus!

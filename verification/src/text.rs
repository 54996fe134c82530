//! Moving between strings and character vectors, and joining words.

use vstd::prelude::*;

verus! {

/// `String::push` appends one character to the end of the string.
pub assume_specification[ String::push ](s: &mut String, ch: char)
    ensures
        final(s)@ == old(s)@.push(ch),
;

/// `words` one after the other, with `sep` between neighbours.
pub open spec fn join(words: Seq<Seq<char>>, sep: Seq<char>) -> Seq<char>
    decreases words.len(),
{
    if words.len() == 0 {
        Seq::empty()
    } else if words.len() == 1 {
        words[0]
    } else {
        words[0] + sep + join(words.skip(1), sep)
    }
}

/// Joining one more word: the word alone after no words, and after the
/// earlier words and a separator otherwise.
pub proof fn lemma_join_push(words: Seq<Seq<char>>, sep: Seq<char>, word: Seq<char>)
    ensures
        join(words.push(word), sep) == if words.len() == 0 {
            word
        } else {
            join(words, sep) + sep + word
        },
    decreases words.len(),
{
    let all = words.push(word);
    if words.len() == 0 {
    } else if words.len() == 1 {
        assert(all.skip(1) =~= seq![word]);
        assert(join(all.skip(1), sep) == word);
    } else {
        assert(all.skip(1) =~= words.skip(1).push(word));
        lemma_join_push(words.skip(1), sep, word);
        assert(join(all, sep) =~= join(words, sep) + sep + word);
    }
}

/// The first character of a joined text is the first character of its first
/// word.
pub proof fn lemma_join_first(words: Seq<Seq<char>>, sep: Seq<char>)
    requires
        words.len() > 0,
        words[0].len() > 0,
    ensures
        join(words, sep).len() > 0,
        join(words, sep)[0] == words[0][0],
{
}

/// Characters added to the last word are added to the joined text.
pub proof fn lemma_join_extend(words: Seq<Seq<char>>, sep: Seq<char>, more: Seq<char>)
    requires
        words.len() >= 1,
    ensures
        join(words.drop_last().push(words.last() + more), sep) == join(words, sep) + more,
{
    let front = words.drop_last();
    lemma_join_push(front, sep, words.last() + more);
    lemma_join_push(front, sep, words.last());
    assert(front.push(words.last()) =~= words);
    if front.len() > 0 {
        assert(join(front, sep) + sep + (words.last() + more) =~= (join(front, sep) + sep
            + words.last()) + more);
    }
}

/// The last character of a joined text is the last character of its last
/// word.
pub proof fn lemma_join_last(words: Seq<Seq<char>>, sep: Seq<char>)
    requires
        words.len() > 0,
        words.last().len() > 0,
    ensures
        join(words, sep).len() > 0,
        join(words, sep).last() == words.last().last(),
    decreases words.len(),
{
    if words.len() > 1 {
        let rest = words.skip(1);
        assert(rest.last() == words.last());
        lemma_join_last(rest, sep);
    }
}

/// What holds of every character of the words and of the separator holds of
/// every character of the joined text.
pub proof fn lemma_join_all(words: Seq<Seq<char>>, sep: Seq<char>, p: spec_fn(char) -> bool)
    requires
        forall|k: int, i: int| 0 <= k < words.len() && 0 <= i < words[k].len() ==> p(#[trigger] words[k][i]),
        forall|i: int| 0 <= i < sep.len() ==> p(#[trigger] sep[i]),
    ensures
        forall|i: int| 0 <= i < join(words, sep).len() ==> p(#[trigger] join(words, sep)[i]),
    decreases words.len(),
{
    if words.len() == 1 {
        assert forall|i: int| 0 <= i < join(words, sep).len() implies p(
            #[trigger] join(words, sep)[i],
        ) by {
            assert(p(words[0][i]));
        }
    } else if words.len() > 1 {
        let rest = words.skip(1);
        assert forall|k: int, i: int| 0 <= k < rest.len() && 0 <= i < rest[k].len() implies p(
            #[trigger] rest[k][i],
        ) by {
            assert(rest[k][i] == words[k + 1][i]);
        }
        lemma_join_all(rest, sep, p);
        let text = join(words, sep);
        let tail = join(rest, sep);
        assert forall|i: int| 0 <= i < text.len() implies p(#[trigger] text[i]) by {
            if i < words[0].len() {
                assert(text[i] == words[0][i]);
            } else if i < words[0].len() + sep.len() {
                assert(text[i] == sep[i - words[0].len()]);
            } else {
                assert(text[i] == tail[i - words[0].len() - sep.len()]);
            }
        }
    }
}

/// The characters of `s`, in order.
pub fn chars_of(s: &str) -> (v: Vec<char>)
    ensures
        v@ == s@,
{
    let mut v: Vec<char> = Vec::new();
    for c in it: s.chars()
        invariant
            v@ == it.seq().take(it.index() as int),
            it.seq() == s@,
    {
        v.push(c);
    }
    v
}

/// The string made of `chars[from..to]`.
pub(crate) fn string_of(chars: &Vec<char>, from: usize, to: usize) -> (s: String)
    requires
        from <= to <= chars.len(),
    ensures
        s@ == chars@.subrange(from as int, to as int),
{
    let mut s = String::new();
    let mut i: usize = from;
    while i < to
        invariant
            from <= i <= to <= chars.len(),
            s@ == chars@.subrange(from as int, i as int),
        decreases to - i,
    {
        s.push(chars[i]);
        i += 1;
    }
    s
}

} // verus!

//! The grammars of the naming conventions, written by their groups.
//!
//! The recogniser decides each grammar by a few tests on the characters of the
//! text.  Here each grammar is written as it is read: a text matches where it
//! is made of groups of a given form, put one after the other or joined by a
//! separator.  The two agree.

use vstd::prelude::*;
use crate::classes::is_upper;
use crate::classifier::{
    is_camel_case, is_head, is_lower_separated, is_pascal_case, is_tail, is_upper_snake_case,
    well_separated,
};
use crate::text::{
    join, lemma_join_all, lemma_join_extend, lemma_join_first, lemma_join_last, lemma_join_push,
};

verus! {

/// `g` is one head character followed by tail characters.
pub open spec fn headed_group(g: Seq<char>, digits: bool) -> bool {
    &&& g.len() >= 1
    &&& is_head(g[0], digits)
    &&& forall|i: int| 1 <= i < g.len() ==> is_tail(#[trigger] g[i], digits)
}

/// `g` is one upper-case letter followed by tail characters.
pub open spec fn capital_group(g: Seq<char>, digits: bool) -> bool {
    &&& g.len() >= 1
    &&& is_upper(g[0])
    &&& forall|i: int| 1 <= i < g.len() ==> is_tail(#[trigger] g[i], digits)
}

/// `g` is one or more tail characters.
pub open spec fn tail_group(g: Seq<char>, digits: bool) -> bool {
    &&& g.len() >= 1
    &&& forall|i: int| 0 <= i < g.len() ==> is_tail(#[trigger] g[i], digits)
}

/// `g` is one or more head characters.
pub open spec fn head_group(g: Seq<char>, digits: bool) -> bool {
    &&& g.len() >= 1
    &&& forall|i: int| 0 <= i < g.len() ==> is_head(#[trigger] g[i], digits)
}

/// The groups of a `PascalCase` text: one or more, each a head character
/// followed by tail characters.
pub open spec fn pascal_groups(groups: Seq<Seq<char>>, digits: bool) -> bool {
    &&& groups.len() >= 1
    &&& forall|k: int| 0 <= k < groups.len() ==> headed_group(#[trigger] groups[k], digits)
}

/// The groups of a `camelCase` text: a first group of tail characters, then
/// groups that are each an upper-case letter followed by tail characters.
pub open spec fn camel_groups(groups: Seq<Seq<char>>, digits: bool) -> bool {
    &&& groups.len() >= 1
    &&& tail_group(groups[0], digits)
    &&& forall|k: int| 1 <= k < groups.len() ==> capital_group(#[trigger] groups[k], digits)
}

/// The groups of a `snake_case` or `kebab-case` text: one or more, each of
/// tail characters.
pub open spec fn lower_groups(groups: Seq<Seq<char>>, digits: bool) -> bool {
    &&& groups.len() >= 1
    &&& forall|k: int| 0 <= k < groups.len() ==> tail_group(#[trigger] groups[k], digits)
}

/// The groups of an `UPPER_SNAKE_CASE` text: one or more, each of head
/// characters.
pub open spec fn upper_groups(groups: Seq<Seq<char>>, digits: bool) -> bool {
    &&& groups.len() >= 1
    &&& forall|k: int| 0 <= k < groups.len() ==> head_group(#[trigger] groups[k], digits)
}

/// `s` cut in front of each upper-case letter: the groups of a text without
/// separators.
pub open spec fn cut_at_capitals(s: Seq<char>) -> Seq<Seq<char>>
    decreases s.len(),
{
    if s.len() == 0 {
        Seq::empty()
    } else {
        let before = cut_at_capitals(s.drop_last());
        if before.len() == 0 || is_upper(s.last()) {
            before.push(seq![s.last()])
        } else {
            before.drop_last().push(before.last().push(s.last()))
        }
    }
}

/// `s` cut at each `sep`, which is dropped: the groups of a text with
/// separators.  A group is empty where `sep` starts or ends the text or
/// stands twice in a row.
pub open spec fn cut_at(s: Seq<char>, sep: char) -> Seq<Seq<char>>
    decreases s.len(),
{
    if s.len() == 0 {
        seq![Seq::empty()]
    } else {
        let before = cut_at(s.drop_last(), sep);
        if s.last() == sep {
            before.push(Seq::empty())
        } else {
            before.drop_last().push(before.last().push(s.last()))
        }
    }
}

/// Groups that are not empty and hold no separator, joined by the separator,
/// make a text in which the separator stands alone between groups.
pub proof fn lemma_join_separated(groups: Seq<Seq<char>>, sep: char)
    requires
        groups.len() >= 1,
        forall|k: int| 0 <= k < groups.len() ==> (#[trigger] groups[k]).len() >= 1,
        forall|k: int, i: int|
            0 <= k < groups.len() && 0 <= i < groups[k].len() ==> #[trigger] groups[k][i] != sep,
    ensures
        well_separated(join(groups, seq![sep]), sep),
    decreases groups.len(),
{
    let text = join(groups, seq![sep]);
    assert(groups[0].len() >= 1);
    assert(groups.last().len() >= 1);
    lemma_join_first(groups, seq![sep]);
    lemma_join_last(groups, seq![sep]);
    assert(groups[0][0] != sep);
    assert(groups.last()[groups.last().len() - 1] != sep);
    if groups.len() == 1 {
        assert forall|i: int| 0 <= i < text.len() - 1 implies !(#[trigger] text[i] == sep && text[i
            + 1] == sep) by {
            assert(groups[0][i] != sep);
        }
    } else {
        let rest = groups.skip(1);
        let tail = join(rest, seq![sep]);
        assert forall|k: int| 0 <= k < rest.len() implies (#[trigger] rest[k]).len() >= 1 by {
            assert(rest[k] == groups[k + 1]);
        }
        assert forall|k: int, i: int|
            0 <= k < rest.len() && 0 <= i < rest[k].len() implies #[trigger] rest[k][i] != sep by {
            assert(rest[k][i] == groups[k + 1][i]);
        }
        lemma_join_separated(rest, sep);
        lemma_join_first(rest, seq![sep]);
        assert(rest[0][0] == groups[1][0]);
        let n = groups[0].len() as int;
        assert forall|i: int| 0 <= i < text.len() - 1 implies !(#[trigger] text[i] == sep && text[i
            + 1] == sep) by {
            if i < n {
                assert(text[i] == groups[0][i]);
            } else if i == n {
                assert(text[i + 1] == tail[0]);
            } else {
                assert(text[i] == tail[i - n - 1]);
                assert(text[i + 1] == tail[i - n]);
            }
        }
    }
}

/// Cutting a text in front of its capitals gives groups that make up the
/// text: none is empty, the first starts as the text does, each other starts
/// with an upper-case letter, and no group holds an upper-case letter behind
/// its first character.  What holds of every character of the text holds of
/// every character of the groups.
pub proof fn lemma_cut_at_capitals(s: Seq<char>, p: spec_fn(char) -> bool)
    requires
        s.len() > 0,
        forall|i: int| 0 <= i < s.len() ==> p(#[trigger] s[i]),
    ensures
        cut_at_capitals(s).len() >= 1,
        join(cut_at_capitals(s), Seq::empty()) == s,
        cut_at_capitals(s)[0].len() >= 1,
        cut_at_capitals(s)[0][0] == s[0],
        forall|k: int|
            0 <= k < cut_at_capitals(s).len() ==> (#[trigger] cut_at_capitals(s)[k]).len() >= 1,
        forall|k: int|
            1 <= k < cut_at_capitals(s).len() ==> is_upper((#[trigger] cut_at_capitals(s)[k])[0]),
        forall|k: int, i: int|
            0 <= k < cut_at_capitals(s).len() && 1 <= i < cut_at_capitals(s)[k].len()
                ==> !is_upper(#[trigger] cut_at_capitals(s)[k][i]),
        forall|k: int, i: int|
            0 <= k < cut_at_capitals(s).len() && 0 <= i < cut_at_capitals(s)[k].len() ==> p(
                #[trigger] cut_at_capitals(s)[k][i],
            ),
    decreases s.len(),
{
    let nothing = Seq::<char>::empty();
    let front = s.drop_last();
    let c = s.last();
    let groups = cut_at_capitals(s);
    assert(p(s[s.len() - 1]));
    if front.len() == 0 {
        assert(cut_at_capitals(front) =~= Seq::<Seq<char>>::empty());
        assert(groups =~= seq![seq![c]]);
        assert(join(groups, nothing) =~= s);
    } else {
        assert forall|i: int| 0 <= i < front.len() implies p(#[trigger] front[i]) by {
            assert(front[i] == s[i]);
        }
        lemma_cut_at_capitals(front, p);
        let before = cut_at_capitals(front);
        assert(front[0] == s[0]);
        if is_upper(c) {
            lemma_join_push(before, nothing, seq![c]);
            assert(join(groups, nothing) =~= s);
            assert forall|k: int| 0 <= k < groups.len() implies (#[trigger] groups[k]).len() >= 1
                && (k >= 1 ==> is_upper(groups[k][0])) by {
                if k < before.len() {
                    assert(groups[k] == before[k]);
                }
            }
            assert forall|k: int, i: int|
                0 <= k < groups.len() && 0 <= i < groups[k].len() implies p(
                #[trigger] groups[k][i],
            ) && (i >= 1 ==> !is_upper(groups[k][i])) by {
                if k < before.len() {
                    assert(groups[k][i] == before[k][i]);
                }
            }
        } else {
            lemma_join_extend(before, nothing, seq![c]);
            assert(before.last() + seq![c] =~= before.last().push(c));
            assert(join(groups, nothing) =~= s);
            assert forall|k: int| 0 <= k < groups.len() implies (#[trigger] groups[k]).len() >= 1
                && (k >= 1 ==> is_upper(groups[k][0])) by {
                if k < before.len() - 1 {
                    assert(groups[k] == before[k]);
                } else {
                    assert(groups[k][0] == before[k][0]);
                }
            }
            assert forall|k: int, i: int|
                0 <= k < groups.len() && 0 <= i < groups[k].len() implies p(
                #[trigger] groups[k][i],
            ) && (i >= 1 ==> !is_upper(groups[k][i])) by {
                if k < before.len() - 1 {
                    assert(groups[k][i] == before[k][i]);
                } else if i < before[k].len() {
                    assert(groups[k][i] == before[k][i]);
                }
            }
            assert(groups[0][0] == before[0][0]);
        }
    }
}

/// Cutting a text at its separators gives groups that, joined by the
/// separator, make up the text, and that hold no separator.  The last group is
/// empty only where the text is empty or ends with the separator; an earlier
/// group is empty only where the text starts with the separator or holds two
/// in a row.  What holds of every character of the text but the separator
/// holds of every character of the groups.
pub proof fn lemma_cut_at(s: Seq<char>, sep: char, p: spec_fn(char) -> bool)
    requires
        forall|i: int| 0 <= i < s.len() ==> #[trigger] s[i] == sep || p(s[i]),
    ensures
        cut_at(s, sep).len() >= 1,
        join(cut_at(s, sep), seq![sep]) == s,
        cut_at(s, sep).last().len() == 0 <==> s.len() == 0 || s.last() == sep,
        s.len() > 0 && s[0] != sep && (forall|i: int|
            0 <= i < s.len() - 1 ==> !(#[trigger] s[i] == sep && s[i + 1] == sep)) ==> forall|
            k: int,
        | 0 <= k < cut_at(s, sep).len() - 1 ==> (#[trigger] cut_at(s, sep)[k]).len() >= 1,
        forall|k: int, i: int|
            0 <= k < cut_at(s, sep).len() && 0 <= i < cut_at(s, sep)[k].len() ==> {
                &&& #[trigger] cut_at(s, sep)[k][i] != sep
                &&& p(cut_at(s, sep)[k][i])
            },
    decreases s.len(),
{
    let groups = cut_at(s, sep);
    let by = seq![sep];
    if s.len() == 0 {
        assert(join(groups, by) =~= s);
    } else {
        let front = s.drop_last();
        let c = s.last();
        let before = cut_at(front, sep);
        assert forall|i: int| 0 <= i < front.len() implies #[trigger] front[i] == sep || p(
            front[i],
        ) by {
            assert(front[i] == s[i]);
        }
        lemma_cut_at(front, sep, p);
        assert(s[s.len() - 1] == sep || p(s[s.len() - 1]));
        if c == sep {
            lemma_join_push(before, by, Seq::empty());
            assert(join(groups, by) =~= s);
            assert forall|k: int, i: int|
                0 <= k < groups.len() && 0 <= i < groups[k].len() implies {
                &&& #[trigger] groups[k][i] != sep
                &&& p(groups[k][i])
            } by {
                assert(groups[k][i] == before[k][i]);
            }
        } else {
            lemma_join_extend(before, by, seq![c]);
            assert(before.last() + seq![c] =~= before.last().push(c));
            assert(join(groups, by) =~= s);
            assert forall|k: int, i: int|
                0 <= k < groups.len() && 0 <= i < groups[k].len() implies {
                &&& #[trigger] groups[k][i] != sep
                &&& p(groups[k][i])
            } by {
                if k < before.len() - 1 {
                    assert(groups[k][i] == before[k][i]);
                } else if i < before[k].len() {
                    assert(groups[k][i] == before[k][i]);
                }
            }
        }
        if s[0] != sep && (forall|i: int|
            0 <= i < s.len() - 1 ==> !(#[trigger] s[i] == sep && s[i + 1] == sep)) {
            if front.len() > 0 {
                assert(front[0] == s[0]);
                assert forall|i: int| 0 <= i < front.len() - 1 implies !(#[trigger] front[i] == sep
                    && front[i + 1] == sep) by {
                    assert(front[i] == s[i]);
                    assert(front[i + 1] == s[i + 1]);
                }
            }
            assert forall|k: int| 0 <= k < groups.len() - 1 implies (#[trigger] groups[k]).len()
                >= 1 by {
                if c == sep {
                    assert(groups[k] == before[k]);
                    if k == before.len() - 1 {
                        assert(front.len() > 0);
                        assert(front.last() == s[s.len() - 2]);
                        assert(!(s[s.len() - 2] == sep && s[s.len() - 2 + 1] == sep));
                    }
                } else {
                    assert(groups[k] == before[k]);
                }
            }
        }
    }
}

/// A text matches the grammar of `PascalCase` exactly where it is made of one
/// or more groups, each a head character followed by tail characters.
pub proof fn lemma_pascal_case_by_groups(s: Seq<char>, digits: bool)
    ensures
        is_pascal_case(s, digits) <==> exists|groups: Seq<Seq<char>>| #[trigger]
            pascal_groups(groups, digits) && join(groups, Seq::empty()) == s,
{
    let nothing = Seq::<char>::empty();
    let p = |c: char| is_head(c, digits) || is_tail(c, digits);
    if is_pascal_case(s, digits) {
        assert forall|i: int| 0 <= i < s.len() implies p(#[trigger] s[i]) by {}
        lemma_cut_at_capitals(s, p);
        let groups = cut_at_capitals(s);
        assert forall|k: int| 0 <= k < groups.len() implies headed_group(
            #[trigger] groups[k],
            digits,
        ) by {
            assert(groups[k].len() >= 1);
            assert(p(groups[k][0]));
            assert forall|i: int| 1 <= i < groups[k].len() implies is_tail(
                #[trigger] groups[k][i],
                digits,
            ) by {
                assert(p(groups[k][i]));
                assert(!is_upper(groups[k][i]));
            }
        }
        assert(pascal_groups(groups, digits) && join(groups, nothing) == s);
    }
    if exists|groups: Seq<Seq<char>>| #[trigger]
        pascal_groups(groups, digits) && join(groups, nothing) == s {
        let groups = choose|groups: Seq<Seq<char>>| #[trigger]
            pascal_groups(groups, digits) && join(groups, nothing) == s;
        assert(headed_group(groups[0], digits));
        lemma_join_first(groups, nothing);
        assert forall|k: int, i: int|
            0 <= k < groups.len() && 0 <= i < groups[k].len() implies p(
            #[trigger] groups[k][i],
        ) by {
            assert(headed_group(groups[k], digits));
        }
        lemma_join_all(groups, nothing, p);
        assert forall|i: int| 0 <= i < s.len() implies is_head(#[trigger] s[i], digits) || is_tail(
            s[i],
            digits,
        ) by {
            assert(p(s[i]));
        }
    }
}

/// A text matches the grammar of `camelCase` exactly where it is made of a
/// first group of tail characters and, behind it, groups that are each an
/// upper-case letter followed by tail characters.
pub proof fn lemma_camel_case_by_groups(s: Seq<char>, digits: bool)
    ensures
        is_camel_case(s, digits) <==> exists|groups: Seq<Seq<char>>| #[trigger]
            camel_groups(groups, digits) && join(groups, Seq::empty()) == s,
{
    let nothing = Seq::<char>::empty();
    let p = |c: char| is_upper(c) || is_tail(c, digits);
    if is_camel_case(s, digits) {
        assert forall|i: int| 0 <= i < s.len() implies p(#[trigger] s[i]) by {}
        lemma_cut_at_capitals(s, p);
        let groups = cut_at_capitals(s);
        assert forall|k: int, i: int|
            0 <= k < groups.len() && 1 <= i < groups[k].len() implies is_tail(
            #[trigger] groups[k][i],
            digits,
        ) by {
            assert(p(groups[k][i]));
            assert(!is_upper(groups[k][i]));
        }
        assert(tail_group(groups[0], digits));
        assert forall|k: int| 1 <= k < groups.len() implies capital_group(
            #[trigger] groups[k],
            digits,
        ) by {
            assert(groups[k].len() >= 1);
        }
        assert(camel_groups(groups, digits) && join(groups, nothing) == s);
    }
    if exists|groups: Seq<Seq<char>>| #[trigger]
        camel_groups(groups, digits) && join(groups, nothing) == s {
        let groups = choose|groups: Seq<Seq<char>>| #[trigger]
            camel_groups(groups, digits) && join(groups, nothing) == s;
        lemma_join_first(groups, nothing);
        assert forall|k: int, i: int|
            0 <= k < groups.len() && 0 <= i < groups[k].len() implies p(
            #[trigger] groups[k][i],
        ) by {
            if k > 0 {
                assert(capital_group(groups[k], digits));
            }
        }
        lemma_join_all(groups, nothing, p);
        assert forall|i: int| 0 <= i < s.len() implies is_upper(#[trigger] s[i]) || is_tail(
            s[i],
            digits,
        ) by {
            assert(p(s[i]));
        }
    }
}

/// A text matches the grammar of `snake_case`, or of `kebab-case`, exactly
/// where it is made of one or more groups of tail characters with one
/// separator between neighbours.
pub proof fn lemma_lower_separated_by_groups(s: Seq<char>, sep: char, digits: bool)
    requires
        sep == '_' || sep == '-',
    ensures
        is_lower_separated(s, sep, digits) <==> exists|groups: Seq<Seq<char>>| #[trigger]
            lower_groups(groups, digits) && join(groups, seq![sep]) == s,
{
    let by = seq![sep];
    let p = |c: char| is_tail(c, digits);
    let q = |c: char| c == sep || is_tail(c, digits);
    if is_lower_separated(s, sep, digits) {
        lemma_cut_at(s, sep, p);
        let groups = cut_at(s, sep);
        assert forall|k: int| 0 <= k < groups.len() implies tail_group(
            #[trigger] groups[k],
            digits,
        ) by {
            assert forall|i: int| 0 <= i < groups[k].len() implies is_tail(
                #[trigger] groups[k][i],
                digits,
            ) by {
                assert(p(groups[k][i]));
            }
        }
        assert(lower_groups(groups, digits) && join(groups, by) == s);
    }
    if exists|groups: Seq<Seq<char>>| #[trigger]
        lower_groups(groups, digits) && join(groups, by) == s {
        let groups = choose|groups: Seq<Seq<char>>| #[trigger]
            lower_groups(groups, digits) && join(groups, by) == s;
        assert forall|k: int| 0 <= k < groups.len() implies (#[trigger] groups[k]).len() >= 1 by {
            assert(tail_group(groups[k], digits));
        }
        assert forall|k: int, i: int|
            0 <= k < groups.len() && 0 <= i < groups[k].len() implies #[trigger] groups[k][i]
            != sep && q(groups[k][i]) by {
            assert(tail_group(groups[k], digits));
        }
        lemma_join_separated(groups, sep);
        lemma_join_all(groups, by, q);
        assert forall|i: int| 0 <= i < s.len() implies #[trigger] s[i] == sep || is_tail(
            s[i],
            digits,
        ) by {
            assert(q(s[i]));
        }
    }
}

/// A text matches the grammar of `UPPER_SNAKE_CASE` exactly where it is made
/// of one or more groups of head characters with one `_` between neighbours.
pub proof fn lemma_upper_snake_case_by_groups(s: Seq<char>, digits: bool)
    ensures
        is_upper_snake_case(s, digits) <==> exists|groups: Seq<Seq<char>>| #[trigger]
            upper_groups(groups, digits) && join(groups, seq!['_']) == s,
{
    let sep = '_';
    let by = seq![sep];
    let p = |c: char| is_head(c, digits);
    let q = |c: char| c == sep || is_head(c, digits);
    if is_upper_snake_case(s, digits) {
        lemma_cut_at(s, sep, p);
        let groups = cut_at(s, sep);
        assert forall|k: int| 0 <= k < groups.len() implies head_group(
            #[trigger] groups[k],
            digits,
        ) by {
            assert forall|i: int| 0 <= i < groups[k].len() implies is_head(
                #[trigger] groups[k][i],
                digits,
            ) by {
                assert(p(groups[k][i]));
            }
        }
        assert(upper_groups(groups, digits) && join(groups, by) == s);
    }
    if exists|groups: Seq<Seq<char>>| #[trigger]
        upper_groups(groups, digits) && join(groups, by) == s {
        let groups = choose|groups: Seq<Seq<char>>| #[trigger]
            upper_groups(groups, digits) && join(groups, by) == s;
        assert forall|k: int| 0 <= k < groups.len() implies (#[trigger] groups[k]).len() >= 1 by {
            assert(head_group(groups[k], digits));
        }
        assert forall|k: int, i: int|
            0 <= k < groups.len() && 0 <= i < groups[k].len() implies #[trigger] groups[k][i]
            != sep && q(groups[k][i]) by {
            assert(head_group(groups[k], digits));
        }
        lemma_join_separated(groups, sep);
        lemma_join_all(groups, by, q);
        assert forall|i: int| 0 <= i < s.len() implies #[trigger] s[i] == sep || is_head(
            s[i],
            digits,
        ) by {
            assert(q(s[i]));
        }
    }
}

} // verus!

//! Texts and their order.

use crate::component_set::{ascending, texts};
use crate::text::{
    after_prefix, before_suffix, lemma_text_less_irreflexive, lemma_text_less_transitive,
    text_less,
};
use vstd::prelude::*;

verus! {

/// Texts are ordered by the first character in which they differ, and a text comes before those that go on
/// where it ends.
pub proof fn lemma_first_difference_decides(a: Seq<char>, b: Seq<char>, k: int)
    requires
        0 <= k <= a.len(),
        k < b.len(),
        a.take(k) == b.take(k),
        k < a.len() ==> a[k] < b[k],
    ensures
        text_less(a, b),
        !text_less(b, a),
    decreases k,
{
    if k > 0 {
        assert(a[0] == a.take(k)[0]);
        assert(b[0] == b.take(k)[0]);
        assert(a.skip(1).take(k - 1) =~= a.take(k).skip(1));
        assert(b.skip(1).take(k - 1) =~= b.take(k).skip(1));
        lemma_first_difference_decides(a.skip(1), b.skip(1), k - 1);
    }
    if text_less(b, a) {
        lemma_text_less_transitive(a, b, a);
        lemma_text_less_irreflexive(a);
    }
}

/// A text starts with a prefix if and only if it is the prefix and what follows it.
pub proof fn lemma_prefix(text: Seq<char>, prefix: Seq<char>, rest: Seq<char>)
    ensures
        after_prefix(text, prefix) == Some(rest) <==> text == prefix + rest,
{
    if text == prefix + rest {
        assert(text.skip(prefix.len() as int) =~= rest);
    }
    if after_prefix(text, prefix) == Some(rest) {
        assert(text =~= prefix + rest);
    }
}

/// A text ends with a suffix if and only if it is what comes before it and the suffix.
pub proof fn lemma_suffix(text: Seq<char>, suffix: Seq<char>, rest: Seq<char>)
    ensures
        before_suffix(text, suffix) == Some(rest) <==> text == rest + suffix,
{
    if text == rest + suffix {
        assert(text.take(text.len() - suffix.len()) =~= rest);
    }
    if before_suffix(text, suffix) == Some(rest) {
        assert(text =~= rest + suffix);
    }
}

/// The texts of strings are those of each, and they ascend if each comes before all that follow.
pub proof fn lemma_texts(strings: Seq<String>, names: Seq<Seq<char>>)
    ensures
        texts(strings).len() == strings.len(),
        forall|i: int| 0 <= i < strings.len() ==> #[trigger] texts(strings)[i] == strings[i]@,
        ascending(names) <==> forall|i: int, j: int|
            0 <= i < j < names.len() ==> #[trigger] text_less(names[i], names[j]),
{
}

} // verus!

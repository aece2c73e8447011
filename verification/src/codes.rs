//! Device codes: trimming them, and keeping lists of them in order.

use crate::text::{
    char_is_whitespace, is_whitespace, lemma_lex_lt_irreflexive, lemma_lex_lt_total,
    lemma_lex_lt_transitive, str_before, str_eq, str_lt,
};
use vstd::prelude::*;
use vstd::string::StringExecFns;
use vstd::utf8::{encode_utf8, encode_utf8_decode_utf8};

verus! {

/// `s` without the white space it begins with.
pub open spec fn trim_start(s: Seq<char>) -> Seq<char>
    decreases s.len(),
{
    if s.len() > 0 && is_whitespace(s[0]) {
        trim_start(s.drop_first())
    } else {
        s
    }
}

/// `s` without the white space it ends with.
pub open spec fn trim_end(s: Seq<char>) -> Seq<char>
    decreases s.len(),
{
    if s.len() > 0 && is_whitespace(s.last()) {
        trim_end(s.drop_last())
    } else {
        s
    }
}

/// `s` without the white space around it.
pub open spec fn trimmed(s: Seq<char>) -> Seq<char> {
    trim_end(trim_start(s))
}

proof fn lemma_trim_start_from(s: Seq<char>, k: int)
    requires
        0 <= k <= s.len(),
        forall|j: int| 0 <= j < k ==> is_whitespace(#[trigger] s[j]),
    ensures
        trim_start(s) == trim_start(s.subrange(k, s.len() as int)),
    decreases k,
{
    if k == 0 {
        assert(s.subrange(0, s.len() as int) =~= s);
    } else {
        let rest = s.drop_first();
        assert forall|j: int| 0 <= j < k - 1 implies is_whitespace(#[trigger] rest[j]) by {
            assert(rest[j] == s[j + 1]);
        }
        lemma_trim_start_from(rest, k - 1);
        assert(rest.subrange(k - 1, rest.len() as int) =~= s.subrange(k, s.len() as int));
    }
}

proof fn lemma_trim_end_upto(s: Seq<char>, k: int)
    requires
        0 <= k <= s.len(),
        forall|j: int| k <= j < s.len() ==> is_whitespace(#[trigger] s[j]),
    ensures
        trim_end(s) == trim_end(s.subrange(0, k)),
    decreases s.len() - k,
{
    if k == s.len() {
        assert(s.subrange(0, k) =~= s);
    } else {
        let rest = s.drop_last();
        assert forall|j: int| k <= j < rest.len() implies is_whitespace(#[trigger] rest[j]) by {
            assert(rest[j] == s[j]);
        }
        lemma_trim_end_upto(rest, k);
        assert(rest.subrange(0, k) =~= s.subrange(0, k));
    }
}

/// The text without the white space around it.
pub fn trim(text: &str) -> (inner: &str)
    ensures
        inner@ == trimmed(text@),
{
    let n: usize = text.unicode_len();
    let mut start: usize = 0;
    while start < n && char_is_whitespace(text.get_char(start))
        invariant
            n == text@.len(),
            start <= n,
            forall|j: int| 0 <= j < start ==> is_whitespace(#[trigger] text@[j]),
        decreases n - start,
    {
        start += 1;
    }
    let mut end: usize = n;
    while end > start && char_is_whitespace(text.get_char(end - 1))
        invariant
            n == text@.len(),
            start <= end <= n,
            forall|j: int| end <= j < n ==> is_whitespace(#[trigger] text@[j]),
        decreases end,
    {
        end -= 1;
    }
    proof {
        let front = text@.subrange(start as int, n as int);
        lemma_trim_start_from(text@, start as int);
        assert(trim_start(text@) == front) by {
            if start < n {
                assert(front[0] == text@[start as int]);
            }
        }
        let keep = end - start;
        assert forall|j: int| keep <= j < front.len() implies is_whitespace(#[trigger] front[j]) by {
            assert(front[j] == text@[start + j]);
        }
        lemma_trim_end_upto(front, keep as int);
        let inner = front.subrange(0, keep as int);
        assert(inner =~= text@.subrange(start as int, end as int));
        assert(trim_end(inner) == inner) by {
            if keep > 0 {
                assert(inner.last() == text@[end - 1]);
            }
        }
    }
    text.substring_char(start, end)
}

/// The texts of a list of strings.
pub open spec fn texts(list: Seq<String>) -> Seq<Seq<char>> {
    Seq::new(list.len(), |i: int| list[i]@)
}

/// Strictly rising texts, in the order of strings.
pub open spec fn strictly_sorted(list: Seq<Seq<char>>) -> bool {
    forall|i: int, j: int| 0 <= i < j < list.len() ==> str_lt(#[trigger] list[i], #[trigger] list[j])
}

proof fn lemma_str_lt_total(a: Seq<char>, b: Seq<char>)
    ensures
        str_lt(a, b) || str_lt(b, a) || a == b,
        !str_lt(a, a),
{
    lemma_lex_lt_total(encode_utf8(a), encode_utf8(b));
    lemma_lex_lt_irreflexive(encode_utf8(a));
    encode_utf8_decode_utf8(a);
    encode_utf8_decode_utf8(b);
}

/// Whether `text` is one of `list`.
pub fn contains_text(list: &[String], text: &str) -> (found: bool)
    ensures
        found == texts(list@).contains(text@),
{
    let mut i: usize = 0;
    while i < list.len()
        invariant
            i <= list@.len(),
            forall|j: int| 0 <= j < i ==> (#[trigger] texts(list@)[j]) != text@,
        decreases list@.len() - i,
    {
        if str_eq(list[i].as_str(), text) {
            assert(texts(list@)[i as int] == text@);
            return true;
        }
        i += 1;
    }
    false
}

/// Puts `text` into a sorted list at the place where it belongs, unless
/// the list holds it already.
pub fn insert_sorted(list: &mut Vec<String>, text: &str)
    requires
        strictly_sorted(texts(old(list)@)),
    ensures
        strictly_sorted(texts(final(list)@)),
        forall|other: Seq<char>|
            texts(final(list)@).contains(other) <==> (other == text@ || texts(
                old(list)@,
            ).contains(other)),
{
    let ghost before = texts(list@);
    let mut i: usize = 0;
    let mut found: bool = false;
    while i < list.len() && !found
        invariant
            list@ == old(list)@,
            before == texts(list@),
            strictly_sorted(before),
            i <= list@.len(),
            forall|j: int| 0 <= j < i ==> str_lt(#[trigger] before[j], text@),
            found ==> i < list@.len() && str_lt(text@, before[i as int]),
        decreases list@.len() - i + (if found { 0int } else { 1int }),
    {
        let held: &str = list[i].as_str();
        assert(held@ == before[i as int]);
        if str_eq(held, text) {
            return ;
        }
        if str_before(text, held) {
            found = true;
        } else {
            proof {
                lemma_str_lt_total(held@, text@);
            }
            i += 1;
        }
    }
    proof {
        assert forall|j: int| i <= j < before.len() implies str_lt(text@, #[trigger] before[j]) by {
            assert(str_lt(text@, before[i as int]));
            if i < j {
                assert(str_lt(before[i as int], before[j]));
                lemma_lex_lt_transitive(
                    encode_utf8(text@),
                    encode_utf8(before[i as int]),
                    encode_utf8(before[j]),
                );
            }
        }
    }
    list.insert(i, String::from_str(text));
    proof {
        let after = texts(list@);
        assert(after =~= before.insert(i as int, text@));
        assert forall|a: int, b: int| 0 <= a < b < after.len() implies str_lt(
            #[trigger] after[a],
            #[trigger] after[b],
        ) by {
            if a < i && b > i {
                if a < b - 1 {
                    assert(str_lt(before[a], before[b - 1]));
                } else {
                    lemma_lex_lt_transitive(
                        encode_utf8(before[a]),
                        encode_utf8(text@),
                        encode_utf8(before[b - 1]),
                    );
                }
            }
        }
        assert forall|other: Seq<char>|
            after.contains(other) <==> (other == text@ || before.contains(other)) by {
            if after.contains(other) {
                let k = choose|k: int| 0 <= k < after.len() && after[k] == other;
                if k < i {
                    assert(before[k] == other);
                } else if k > i {
                    assert(before[k - 1] == other);
                }
            }
            if other == text@ {
                assert(after[i as int] == other);
            }
            if before.contains(other) {
                let k = choose|k: int| 0 <= k < before.len() && before[k] == other;
                if k < i {
                    assert(after[k] == other);
                } else {
                    assert(after[k + 1] == other);
                }
            }
        }
    }
}

/// Takes `text` out of a sorted list.
pub fn remove_sorted(list: &mut Vec<String>, text: &str)
    requires
        strictly_sorted(texts(old(list)@)),
    ensures
        strictly_sorted(texts(final(list)@)),
        forall|other: Seq<char>|
            texts(final(list)@).contains(other) <==> (other != text@ && texts(
                old(list)@,
            ).contains(other)),
{
    let ghost before = texts(list@);
    let mut i: usize = 0;
    while i < list.len()
        invariant
            list@ == old(list)@,
            before == texts(list@),
            strictly_sorted(before),
            i <= list@.len(),
            forall|j: int| 0 <= j < i ==> (#[trigger] before[j]) != text@,
        decreases list@.len() - i,
    {
        if str_eq(list[i].as_str(), text) {
            assert(before[i as int] == text@);
            list.remove(i);
            proof {
                let after = texts(list@);
                assert(after =~= before.remove(i as int));
                lemma_str_lt_total(text@, text@);
                assert forall|a: int, b: int| 0 <= a < b < after.len() implies str_lt(
                    #[trigger] after[a],
                    #[trigger] after[b],
                ) by {
                    let a0 = if a < i {
                        a
                    } else {
                        a + 1
                    };
                    let b0 = if b < i {
                        b
                    } else {
                        b + 1
                    };
                    assert(str_lt(before[a0], before[b0]));
                }
                assert forall|other: Seq<char>|
                    after.contains(other) <==> (other != text@ && before.contains(other)) by {
                    if after.contains(other) {
                        let k = choose|k: int| 0 <= k < after.len() && after[k] == other;
                        let k0 = if k < i {
                            k
                        } else {
                            k + 1
                        };
                        assert(before[k0] == other);
                        if k0 < i {
                            assert(str_lt(before[k0], before[i as int]));
                        } else {
                            assert(str_lt(before[i as int], before[k0]));
                        }
                    }
                    if other != text@ && before.contains(other) {
                        let k = choose|k: int| 0 <= k < before.len() && before[k] == other;
                        if k < i {
                            assert(after[k] == other);
                        } else {
                            assert(after[k - 1] == other);
                        }
                    }
                }
            }
            return ;
        }
        i += 1;
    }
    proof {
        assert forall|other: Seq<char>|
            before.contains(other) <==> (other != text@ && before.contains(other)) by {
            if before.contains(other) {
                let k = choose|k: int| 0 <= k < before.len() && before[k] == other;
            }
        }
    }
}

/// Whether `code` is a target worth keeping among `codes`: it is what is
/// left of one of them after trimming, it is not empty, and it is not the
/// code of the local device.
pub open spec fn is_target(codes: Seq<Seq<char>>, local: Seq<char>, code: Seq<char>) -> bool {
    &&& code.len() > 0
    &&& code != local
    &&& exists|i: int| 0 <= i < codes.len() && trimmed(#[trigger] codes[i]) == code
}

/// Brings the device codes a node is told to connect to into order: every
/// code is trimmed, empty codes and the code of the local device are left
/// out, and what remains is sorted, each code once.
pub fn normalize_targets(codes: &[String], local: &str) -> (targets: Vec<String>)
    ensures
        strictly_sorted(texts(targets@)),
        forall|code: Seq<char>|
            texts(targets@).contains(code) <==> is_target(texts(codes@), local@, code),
{
    let mut targets: Vec<String> = Vec::new();
    let mut i: usize = 0;
    let ghost input = texts(codes@);
    while i < codes.len()
        invariant
            i <= codes@.len(),
            input == texts(codes@),
            strictly_sorted(texts(targets@)),
            forall|code: Seq<char>|
                texts(targets@).contains(code) <==> is_target(input.take(i as int), local@, code),
        decreases codes@.len() - i,
    {
        let inner: &str = trim(codes[i].as_str());
        let ghost held = texts(targets@);
        assert(inner@ == trimmed(input[i as int]));
        let keep: bool = inner.unicode_len() > 0 && !str_eq(inner, local);
        if keep {
            insert_sorted(&mut targets, inner);
        }
        proof {
            let grown = input.take(i + 1);
            let short = input.take(i as int);
            assert forall|code: Seq<char>|
                texts(targets@).contains(code) <==> is_target(grown, local@, code) by {
                if is_target(grown, local@, code) {
                    let k = choose|k: int| 0 <= k < grown.len() && trimmed(#[trigger] grown[k]) == code;
                    if k < i {
                        assert(short[k] == grown[k]);
                        assert(is_target(short, local@, code));
                    }
                }
                if is_target(short, local@, code) {
                    let k = choose|k: int| 0 <= k < short.len() && trimmed(#[trigger] short[k]) == code;
                    assert(grown[k] == short[k]);
                    assert(is_target(grown, local@, code));
                }
                if keep && code == inner@ {
                    assert(grown[i as int] == input[i as int]);
                    assert(is_target(grown, local@, code));
                }
            }
        }
        i += 1;
    }
    assert(input.take(i as int) =~= input);
    targets
}

} // verus!

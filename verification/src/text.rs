//! Character-level helpers shared by the parsers of this crate.
//!
//! Strings are viewed as sequences of characters (`Seq<char>`); every
//! function here states its result over that view.
use vstd::prelude::*;
use vstd::std_specs::iter::IteratorSpec;
use vstd::string::StringExecFns;

verus! {

/// `String::push`: appends one character to the end of the string.
pub assume_specification[ String::push ](s: &mut String, c: char)
    ensures
        final(s)@ == old(s)@.push(c),
;

/// Whether `prefix` stands at the start of `s`.
pub open spec fn has_prefix(s: Seq<char>, prefix: Seq<char>) -> bool {
    &&& prefix.len() <= s.len()
    &&& s.subrange(0, prefix.len() as int) == prefix
}

/// Whether `suffix` stands at the end of `s`.
pub open spec fn has_suffix(s: Seq<char>, suffix: Seq<char>) -> bool {
    &&& suffix.len() <= s.len()
    &&& s.subrange(s.len() - suffix.len(), s.len() as int) == suffix
}

/// `s` without `suffix` at its end, or `s` itself where it does not end so.
pub open spec fn without_suffix(s: Seq<char>, suffix: Seq<char>) -> Seq<char> {
    if has_suffix(s, suffix) {
        s.subrange(0, s.len() - suffix.len())
    } else {
        s
    }
}

/// The part of `s` that follows the last occurrence of `sep`; all of `s`
/// where `sep` does not occur.
pub open spec fn last_segment(s: Seq<char>, sep: char) -> Seq<char>
    decreases s.len(),
{
    if s.len() == 0 || s.last() == sep {
        Seq::empty()
    } else {
        last_segment(s.drop_last(), sep).push(s.last())
    }
}

/// The items written one after the other with `sep` between neighbours.
pub open spec fn joined(items: Seq<Seq<char>>, sep: Seq<char>) -> Seq<char>
    decreases items.len(),
{
    if items.len() == 0 {
        Seq::empty()
    } else if items.len() == 1 {
        items[0]
    } else {
        joined(items.drop_last(), sep) + sep + items.last()
    }
}

/// The last segment holds no separator, and what stands before it in `s`
/// is empty or ends with the separator.
pub proof fn lemma_last_segment(s: Seq<char>, sep: char)
    ensures
        !last_segment(s, sep).contains(sep),
        last_segment(s, sep).len() <= s.len(),
        s.subrange(s.len() - last_segment(s, sep).len(), s.len() as int) == last_segment(s, sep),
        last_segment(s, sep).len() < s.len() ==> s[s.len() - last_segment(s, sep).len() - 1]
            == sep,
    decreases s.len(),
{
    let seg = last_segment(s, sep);
    if s.len() == 0 || s.last() == sep {
        assert(s.subrange(s.len() as int, s.len() as int) =~= seg);
    } else {
        let front = s.drop_last();
        let inner = last_segment(front, sep);
        lemma_last_segment(front, sep);
        assert(seg == inner.push(s.last()));
        assert(s.subrange(s.len() - seg.len(), s.len() as int) =~= front.subrange(
            front.len() - inner.len(),
            front.len() as int,
        ).push(s.last()));
        assert forall|i: int| 0 <= i < seg.len() implies seg[i] != sep by {
            if i < inner.len() {
                assert(inner.contains(inner[i]));
            }
        }
    }
}

/// A tail of `s` that holds no separator and stands at the start of `s` or
/// right behind a separator is the last segment of `s`.
pub proof fn lemma_last_segment_unique(s: Seq<char>, sep: char, start: int)
    requires
        0 <= start <= s.len(),
        forall|i: int| start <= i < s.len() ==> s[i] != sep,
        start == 0 || s[start - 1] == sep,
    ensures
        last_segment(s, sep) == s.subrange(start, s.len() as int),
    decreases s.len(),
{
    if s.len() == 0 {
        assert(s.subrange(start, s.len() as int) =~= Seq::<char>::empty());
    } else if start == s.len() {
        assert(s.subrange(start, s.len() as int) =~= Seq::<char>::empty());
    } else {
        let front = s.drop_last();
        lemma_last_segment_unique(front, sep, start);
        assert(s.subrange(start, s.len() as int) =~= front.subrange(
            start,
            front.len() as int,
        ).push(s.last()));
    }
}

/// The least index at or after `from` at which `flags` holds, or the length
/// of `flags` where it holds at none of them.
pub open spec fn first_true(flags: Seq<bool>, from: int) -> int
    decreases flags.len() - from,
{
    if from >= flags.len() {
        flags.len() as int
    } else if flags[from] {
        from
    } else {
        first_true(flags, from + 1)
    }
}

/// `first_true` names an index at or after `from` and within the length,
/// no flag holds between `from` and it, and the flag at it holds unless it
/// is the length.
pub proof fn lemma_first_true(flags: Seq<bool>, from: int)
    requires
        0 <= from <= flags.len(),
    ensures
        from <= first_true(flags, from) <= flags.len(),
        forall|k: int| from <= k < first_true(flags, from) ==> !flags[k],
        first_true(flags, from) < flags.len() ==> flags[first_true(flags, from)],
    decreases flags.len() - from,
{
    if from < flags.len() && !flags[from] {
        lemma_first_true(flags, from + 1);
    }
}

/// An index that no flag precedes from `from` on, and that is the length or
/// carries a flag, is what `first_true` names.
pub proof fn lemma_first_true_unique(flags: Seq<bool>, from: int, at: int)
    requires
        0 <= from <= at <= flags.len(),
        forall|k: int| from <= k < at ==> !flags[k],
        at < flags.len() ==> flags[at],
    ensures
        first_true(flags, from) == at,
    decreases at - from,
{
    if from < at {
        lemma_first_true_unique(flags, from + 1, at);
    }
}

/// Tests whether `s` begins with `prefix`, character by character.
pub fn starts_with(s: &str, prefix: &str) -> (b: bool)
    ensures
        b == has_prefix(s@, prefix@),
{
    let mut a = s.chars();
    let mut p = prefix.chars();
    let ghost mut i: int = 0;
    loop
        invariant
            0 <= i <= s@.len(),
            i <= prefix@.len(),
            a.remaining() == s@.subrange(i, s@.len() as int),
            p.remaining() == prefix@.subrange(i, prefix@.len() as int),
            s@.subrange(0, i) == prefix@.subrange(0, i),
        decreases prefix@.len() - i,
    {
        match p.next() {
            None => {
                assert(prefix@.subrange(0, i) == prefix@);
                return true;
            },
            Some(pc) => {
                match a.next() {
                    None => {
                        return false;
                    },
                    Some(ac) => {
                        if ac != pc {
                            assert(prefix@.len() <= s@.len() ==> s@.subrange(
                                0,
                                prefix@.len() as int,
                            )[i] == ac);
                            return false;
                        }
                        proof {
                            assert(s@.subrange(0, i + 1) =~= s@.subrange(0, i).push(ac));
                            assert(prefix@.subrange(0, i + 1) =~= prefix@.subrange(0, i).push(pc));
                            i = i + 1;
                        }
                    },
                }
            },
        }
    }
}

/// The characters of `s`, in order.
pub fn chars_of(s: &str) -> (v: Vec<char>)
    ensures
        v@ == s@,
{
    let mut v: Vec<char> = Vec::new();
    let mut it = s.chars();
    loop
        invariant
            v@.len() <= s@.len(),
            it.remaining() == s@.subrange(v@.len() as int, s@.len() as int),
            v@ == s@.subrange(0, v@.len() as int),
        decreases s@.len() - v@.len(),
    {
        match it.next() {
            None => {
                assert(s@.subrange(0, v@.len() as int) == s@);
                return v;
            },
            Some(c) => {
                proof {
                    assert(s@.subrange(0, v@.len() as int + 1) =~= s@.subrange(0, v@.len() as int).push(
                        c,
                    ));
                }
                v.push(c);
            },
        }
    }
}

/// The characters `chars[from..to]` as a string; the empty string where the
/// range is empty or reaches beyond the end.
pub fn string_of(chars: &Vec<char>, from: usize, to: usize) -> (s: String)
    ensures
        from <= to <= chars.len() ==> s@ == chars@.subrange(from as int, to as int),
        !(from <= to <= chars.len()) ==> s@ == Seq::<char>::empty(),
{
    let mut s = String::new();
    if from > to || to > chars.len() {
        return s;
    }
    let mut i: usize = from;
    while i < to
        invariant
            from <= i <= to <= chars.len(),
            s@ == chars@.subrange(from as int, i as int),
        decreases to - i,
    {
        s.push(chars[i]);
        proof {
            assert(chars@.subrange(from as int, i + 1) =~= chars@.subrange(
                from as int,
                i as int,
            ).push(chars@[i as int]));
        }
        i += 1;
    }
    s
}

/// Writes the items one after the other with `sep` between neighbours.
pub fn join(items: &Vec<String>, sep: &str) -> (s: String)
    ensures
        s@ == joined(items.deep_view(), sep@),
{
    let mut s = String::new();
    let mut i: usize = 0;
    while i < items.len()
        invariant
            i <= items.len(),
            s@ == joined(items.deep_view().subrange(0, i as int), sep@),
        decreases items.len() - i,
    {
        let ghost before = items.deep_view().subrange(0, i as int);
        let ghost after = items.deep_view().subrange(0, i + 1);
        proof {
            assert(after.drop_last() =~= before);
            assert(after.last() == items[i as int]@);
        }
        if i > 0 {
            s.append(sep);
        }
        s.append(items[i].as_str());
        proof {
            if i == 0 {
                assert(s@ =~= items[0]@);
            }
        }
        i += 1;
    }
    proof {
        assert(items.deep_view().subrange(0, i as int) =~= items.deep_view());
    }
    s
}

} // verus!

//! Spec-level vocabulary for the line-oriented grammar: prefix matching on
//! character sequences and the position of the first newline.

use vstd::prelude::*;

verus! {

/// True when `p` is a prefix of `s`.
pub open spec fn starts_with(s: Seq<char>, p: Seq<char>) -> bool {
    p.len() <= s.len() && s.subrange(0, p.len() as int) == p
}

/// A concatenation starts with its first part, and skipping that part
/// leaves exactly the second.
pub proof fn lemma_concat_parts(p: Seq<char>, r: Seq<char>)
    ensures
        starts_with(p + r, p),
        (p + r).skip(p.len() as int) == r,
{
    assert((p + r).subrange(0, p.len() as int) =~= p);
    assert((p + r).skip(p.len() as int) =~= r);
}

/// Matching a two-part prefix is the same as matching the first part and
/// then matching the second at the position after it.
pub proof fn lemma_starts_with_split(s: Seq<char>, a: Seq<char>, b: Seq<char>)
    ensures
        starts_with(s, a + b) <==> (starts_with(s, a) && starts_with(
            s.skip(a.len() as int),
            b,
        )),
{
    if starts_with(s, a + b) {
        lemma_starts_with_index(s, a + b);
        assert(s.subrange(0, a.len() as int) =~= a);
        assert(s.skip(a.len() as int).subrange(0, b.len() as int) =~= b);
    }
    if starts_with(s, a) && starts_with(s.skip(a.len() as int), b) {
        assert(s.subrange(0, (a + b).len() as int) =~= a + b);
    }
}

/// Within a matched prefix, the characters of the prefix and of the
/// sequence agree position by position.
pub proof fn lemma_starts_with_index(s: Seq<char>, p: Seq<char>)
    requires
        starts_with(s, p),
    ensures
        forall|j: int| 0 <= j < p.len() ==> p[j] == s[j],
{
    assert forall|j: int| 0 <= j < p.len() implies p[j] == s[j] by {
        assert(s.subrange(0, p.len() as int)[j] == s[j]);
    }
}

/// Two newline-free parts that are each followed by a newline at the start
/// of the same sequence are the same part: the newline pins their length.
pub proof fn lemma_prefix_line_unique(u: Seq<char>, a: Seq<char>, b: Seq<char>)
    requires
        !a.contains('\n'),
        !b.contains('\n'),
        starts_with(u, a + "\n"@),
        starts_with(u, b + "\n"@),
    ensures
        a == b,
{
    reveal_strlit("\n");
    lemma_starts_with_index(u, a + "\n"@);
    lemma_starts_with_index(u, b + "\n"@);
    if a.len() < b.len() {
        assert(u[a.len() as int] == '\n');
        assert(b[a.len() as int] == '\n');
        assert(b.contains('\n'));
    } else if b.len() < a.len() {
        assert(u[b.len() as int] == '\n');
        assert(a[b.len() as int] == '\n');
        assert(a.contains('\n'));
    } else {
        assert forall|j: int| 0 <= j < a.len() implies a[j] == b[j] by {
            assert((a + "\n"@)[j] == u[j]);
            assert((b + "\n"@)[j] == u[j]);
        }
        assert(a =~= b);
    }
}

/// Index of the first newline in `s`, or `s.len()` when `s` has none.
pub open spec fn first_nl(s: Seq<char>) -> int
    decreases s.len(),
{
    if s.len() == 0 {
        0
    } else if s[0] == '\n' {
        0
    } else {
        1 + first_nl(s.skip(1))
    }
}

/// `first_nl` points at the first newline: everything before it is
/// newline-free, and the position itself holds a newline unless `s` has none.
pub proof fn lemma_first_nl(s: Seq<char>)
    ensures
        0 <= first_nl(s) <= s.len(),
        forall|j: int| 0 <= j < first_nl(s) ==> s[j] != '\n',
        first_nl(s) < s.len() ==> s[first_nl(s)] == '\n',
    decreases s.len(),
{
    if s.len() == 0 {
    } else if s[0] == '\n' {
    } else {
        lemma_first_nl(s.skip(1));
        assert forall|j: int| 0 <= j < first_nl(s) implies s[j] != '\n' by {
            if j >= 1 {
                assert(s.skip(1)[j - 1] == s[j]);
            }
        }
        if first_nl(s) < s.len() {
            assert(s.skip(1)[first_nl(s) - 1] == s[first_nl(s)]);
        }
    }
}

/// A position with no newline before it and a newline (or the end) at it
/// is exactly `first_nl`.
pub proof fn lemma_first_nl_unique(s: Seq<char>, k: int)
    requires
        0 <= k <= s.len(),
        forall|j: int| 0 <= j < k ==> s[j] != '\n',
        k < s.len() ==> s[k] == '\n',
    ensures
        first_nl(s) == k,
    decreases s.len(),
{
    if s.len() == 0 {
    } else if s[0] == '\n' {
        if k > 0 {
            assert(s[0] != '\n');
        }
    } else {
        assert(k >= 1) by {
            if k == 0 {
                assert(s[k] == '\n');
            }
        }
        assert forall|j: int| 0 <= j < k - 1 implies s.skip(1)[j] != '\n' by {
            assert(s.skip(1)[j] == s[j + 1]);
        }
        if k - 1 < s.skip(1).len() {
            assert(s.skip(1)[k - 1] == s[k]);
        }
        lemma_first_nl_unique(s.skip(1), k - 1);
    }
}

/// Appending a newline-free part to a remainder that begins with a newline
/// (or is empty) puts the first newline exactly at the boundary.
pub proof fn lemma_first_nl_of_split(v: Seq<char>, r: Seq<char>)
    requires
        !v.contains('\n'),
        r.len() > 0 ==> r[0] == '\n',
    ensures
        first_nl(v + r) == v.len(),
{
    assert forall|j: int| 0 <= j < v.len() implies (v + r)[j] != '\n' by {
        if (v + r)[j] == '\n' {
            assert(v.contains('\n'));
        }
    }
    lemma_first_nl_unique(v + r, v.len() as int);
}

} // verus!

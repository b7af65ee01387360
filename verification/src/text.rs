//! Verified byte-string operations: substring search, prefix/suffix tests,
//! first-and-all replacement, and ASCII whitespace trimming.

use vstd::prelude::*;

verus! {

/// The pattern `pat` occurs in `s` at position `i`.
pub open spec fn match_at(s: Seq<u8>, pat: Seq<u8>, i: int) -> bool {
    0 <= i && i + pat.len() <= s.len() && s.subrange(i, i + pat.len() as int) == pat
}

/// `pat` occurs somewhere in `s`, scanning from the front.
pub open spec fn contains_seq(s: Seq<u8>, pat: Seq<u8>) -> bool
    decreases s.len(),
{
    if pat.len() > s.len() {
        false
    } else if pat.len() == 0 {
        true
    } else if s.take(pat.len() as int) == pat {
        true
    } else {
        contains_seq(s.skip(1), pat)
    }
}

/// `s` begins with `pat`.
pub open spec fn has_prefix(s: Seq<u8>, pat: Seq<u8>) -> bool {
    match_at(s, pat, 0)
}

/// `s` ends with `pat`.
pub open spec fn has_suffix(s: Seq<u8>, pat: Seq<u8>) -> bool {
    pat.len() <= s.len() && match_at(s, pat, s.len() - pat.len())
}

/// `s` with the first occurrence of `pat` (if any) replaced by `repl`.
/// An empty pattern leaves `s` unchanged.
pub open spec fn replace_first(s: Seq<u8>, pat: Seq<u8>, repl: Seq<u8>) -> Seq<u8>
    decreases s.len(),
{
    if pat.len() == 0 || pat.len() > s.len() {
        s
    } else if s.take(pat.len() as int) == pat {
        repl + s.skip(pat.len() as int)
    } else {
        seq![s[0]] + replace_first(s.skip(1), pat, repl)
    }
}

/// `s` with every occurrence of `pat` replaced by `repl`, left to right and
/// without overlap.  An empty pattern leaves `s` unchanged.
pub open spec fn replace_all(s: Seq<u8>, pat: Seq<u8>, repl: Seq<u8>) -> Seq<u8>
    decreases s.len(),
{
    if pat.len() == 0 || pat.len() > s.len() {
        s
    } else if s.take(pat.len() as int) == pat {
        repl + replace_all(s.skip(pat.len() as int), pat, repl)
    } else {
        seq![s[0]] + replace_all(s.skip(1), pat, repl)
    }
}

/// Length of the prefix of `s` before the first occurrence of `b`;
/// `s.len()` when `b` does not occur.
pub open spec fn prefix_until(s: Seq<u8>, b: u8) -> nat
    decreases s.len(),
{
    if s.len() == 0 {
        0
    } else if s[0] == b {
        0
    } else {
        (1 + prefix_until(s.skip(1), b)) as nat
    }
}

/// A scan that stops at position `i` determines `prefix_until`.
pub proof fn lemma_prefix_until_at(s: Seq<u8>, b: u8, i: int)
    requires
        0 <= i <= s.len(),
        forall|k: int| 0 <= k < i ==> s[k] != b,
        i < s.len() ==> s[i] == b,
    ensures
        prefix_until(s, b) == i,
    decreases i,
{
    if i == 0 {
    } else {
        lemma_prefix_until_at(s.skip(1), b, i - 1);
    }
}

/// The position of the first `b` in `v` within `[from, to)`, or `to` when
/// there is none.
pub fn find_byte_in(v: &Vec<u8>, b: u8, from: usize, to: usize) -> (e: usize)
    requires
        from <= to <= v.len(),
    ensures
        from <= e <= to,
        forall|k: int| from <= k < e ==> v@[k] != b,
        e < to ==> v@[e as int] == b,
{
    let mut e: usize = from;
    while e < to && v[e] != b
        invariant
            from <= e <= to <= v@.len(),
            v@.len() == vstd::std_specs::vec::spec_vec_len(v),
            forall|k: int| from <= k < e ==> v@[k] != b,
        decreases to - e,
    {
        e += 1;
    }
    e
}

/// Whether `a` and `b` hold the same bytes.
pub fn bytes_eq(a: &Vec<u8>, b: &Vec<u8>) -> (r: bool)
    ensures
        r == (a@ == b@),
{
    if a.len() != b.len() {
        return false;
    }
    let mut i: usize = 0;
    while i < a.len()
        invariant
            0 <= i <= a@.len(),
            a@.len() == b@.len(),
            a@.len() == vstd::std_specs::vec::spec_vec_len(a),
            forall|k: int| 0 <= k < i ==> a@[k] == b@[k],
        decreases a.len() - i,
    {
        if a[i] != b[i] {
            return false;
        }
        i += 1;
    }
    assert(a@ =~= b@);
    true
}

/// ASCII whitespace, the fragment of Unicode whitespace below 0x80.
pub open spec fn is_ws(b: u8) -> bool {
    b == 9 || b == 10 || b == 11 || b == 12 || b == 13 || b == 32
}

/// `s` without leading whitespace.
pub open spec fn trim_start_seq(s: Seq<u8>) -> Seq<u8>
    decreases s.len(),
{
    if s.len() > 0 && is_ws(s[0]) {
        trim_start_seq(s.skip(1))
    } else {
        s
    }
}

/// `s` without trailing whitespace.
pub open spec fn trim_end_seq(s: Seq<u8>) -> Seq<u8>
    decreases s.len(),
{
    if s.len() > 0 && is_ws(s.last()) {
        trim_end_seq(s.drop_last())
    } else {
        s
    }
}

/// `s` without leading and trailing whitespace.
pub open spec fn trim_seq(s: Seq<u8>) -> Seq<u8> {
    trim_end_seq(trim_start_seq(s))
}

/// A find scanning from the front meets the first occurrence.
proof fn lemma_contains_from_match(s: Seq<u8>, pat: Seq<u8>, i: int)
    requires
        match_at(s, pat, i),
    ensures
        contains_seq(s, pat),
    decreases i,
{
    if i == 0 {
        assert(s.take(pat.len() as int) == pat);
    } else {
        assert(match_at(s.skip(1), pat, i - 1)) by {
            assert(s.skip(1).subrange(i - 1, i - 1 + pat.len() as int) =~= s.subrange(
                i,
                i + pat.len() as int,
            ));
        }
        lemma_contains_from_match(s.skip(1), pat, i - 1);
        if s.take(pat.len() as int) != pat {
        }
    }
}

proof fn lemma_contains_gives_match(s: Seq<u8>, pat: Seq<u8>)
    requires
        contains_seq(s, pat),
    ensures
        exists|i: int| match_at(s, pat, i),
    decreases s.len(),
{
    if pat.len() > s.len() {
    } else if pat.len() == 0 {
        assert(s.subrange(0, 0) =~= pat);
        assert(match_at(s, pat, 0));
    } else if s.take(pat.len() as int) == pat {
        assert(s.take(pat.len() as int) =~= s.subrange(0, pat.len() as int));
        assert(match_at(s, pat, 0));
    } else {
        lemma_contains_gives_match(s.skip(1), pat);
        let i = choose|i: int| match_at(s.skip(1), pat, i);
        assert(match_at(s, pat, i + 1)) by {
            assert(s.subrange(i + 1, i + 1 + pat.len() as int) =~= s.skip(1).subrange(
                i,
                i + pat.len() as int,
            ));
        }
    }
}

/// `contains_seq` holds exactly when some position matches.
pub proof fn lemma_contains_iff(s: Seq<u8>, pat: Seq<u8>)
    ensures
        contains_seq(s, pat) <==> exists|i: int| match_at(s, pat, i),
{
    if contains_seq(s, pat) {
        lemma_contains_gives_match(s, pat);
    }
    if exists|i: int| match_at(s, pat, i) {
        let i = choose|i: int| match_at(s, pat, i);
        lemma_contains_from_match(s, pat, i);
    }
}

/// When `pat` first occurs at `j`, `replace_first` splices `repl` in there.
proof fn lemma_replace_first_at(s: Seq<u8>, pat: Seq<u8>, repl: Seq<u8>, j: int)
    requires
        pat.len() > 0,
        match_at(s, pat, j),
        forall|i: int| 0 <= i < j ==> !match_at(s, pat, i),
    ensures
        replace_first(s, pat, repl) == s.take(j) + repl + s.skip(j + pat.len() as int),
    decreases j,
{
    if j == 0 {
        assert(s.take(pat.len() as int) =~= s.subrange(0, pat.len() as int));
        assert(replace_first(s, pat, repl) =~= s.take(0) + repl + s.skip(pat.len() as int));
    } else {
        assert(!match_at(s, pat, 0));
        assert(s.take(pat.len() as int) != pat) by {
            assert(s.take(pat.len() as int) =~= s.subrange(0, pat.len() as int));
        }
        assert(match_at(s.skip(1), pat, j - 1)) by {
            assert(s.skip(1).subrange(j - 1, j - 1 + pat.len() as int) =~= s.subrange(
                j,
                j + pat.len() as int,
            ));
        }
        assert forall|i: int| 0 <= i < j - 1 implies !match_at(s.skip(1), pat, i) by {
            if match_at(s.skip(1), pat, i) {
                assert(match_at(s, pat, i + 1)) by {
                    assert(s.subrange(i + 1, i + 1 + pat.len() as int) =~= s.skip(1).subrange(
                        i,
                        i + pat.len() as int,
                    ));
                }
            }
        }
        lemma_replace_first_at(s.skip(1), pat, repl, j - 1);
        assert(replace_first(s, pat, repl) =~= s.take(j) + repl + s.skip(j + pat.len() as int)) by {
            assert(s.skip(1).take(j - 1) =~= s.take(j).skip(1));
            assert(s.skip(1).skip(j - 1 + pat.len() as int) =~= s.skip(j + pat.len() as int));
        }
    }
}

/// Without any occurrence of `pat`, `replace_first` is the identity.
proof fn lemma_replace_first_none(s: Seq<u8>, pat: Seq<u8>, repl: Seq<u8>)
    requires
        forall|i: int| !match_at(s, pat, i),
    ensures
        replace_first(s, pat, repl) == s,
    decreases s.len(),
{
    if pat.len() == 0 {
        assert(match_at(s, pat, 0)) by {
            assert(s.subrange(0, 0) =~= pat);
        }
    } else if pat.len() > s.len() {
    } else {
        assert(!match_at(s, pat, 0));
        assert(s.take(pat.len() as int) != pat) by {
            assert(s.take(pat.len() as int) =~= s.subrange(0, pat.len() as int));
        }
        assert forall|i: int| !match_at(s.skip(1), pat, i) by {
            if 0 <= i && match_at(s.skip(1), pat, i) {
                assert(match_at(s, pat, i + 1)) by {
                    assert(s.subrange(i + 1, i + 1 + pat.len() as int) =~= s.skip(1).subrange(
                        i,
                        i + pat.len() as int,
                    ));
                }
            }
        }
        lemma_replace_first_none(s.skip(1), pat, repl);
        assert(seq![s[0]] + s.skip(1) =~= s);
    }
}

/// Compares `pat` against `s` at position `j`.
pub fn is_match_at(s: &Vec<u8>, pat: &Vec<u8>, j: usize) -> (r: bool)
    requires
        j <= s.len(),
    ensures
        r == match_at(s@, pat@, j as int),
{
    if pat.len() > s.len() - j {
        return false;
    }
    let mut k: usize = 0;
    while k < pat.len()
        invariant
            0 <= k <= pat.len(),
            j + pat.len() <= s.len(),
            forall|t: int| 0 <= t < k ==> s@[j + t] == pat@[t],
        decreases pat.len() - k,
    {
        if s[j + k] != pat[k] {
            assert(!match_at(s@, pat@, j as int)) by {
                if s@.subrange(j as int, j + pat@.len() as int) == pat@ {
                    assert(s@.subrange(j as int, j + pat@.len() as int)[k as int] == s@[j + k]);
                }
            }
            return false;
        }
        k += 1;
    }
    assert(s@.subrange(j as int, j + pat@.len() as int) =~= pat@);
    true
}

/// Position of the first occurrence of `pat` in `s`, if there is one.
pub fn find_first(s: &Vec<u8>, pat: &Vec<u8>) -> (r: Option<usize>)
    ensures
        r matches Some(j) ==> match_at(s@, pat@, j as int) && forall|i: int|
            0 <= i < j ==> !match_at(s@, pat@, i),
        r is None ==> forall|i: int| !match_at(s@, pat@, i),
{
    let mut j: usize = 0;
    while j < s.len()
        invariant
            0 <= j <= s.len(),
            forall|i: int| 0 <= i < j ==> !match_at(s@, pat@, i),
        decreases s.len() - j,
    {
        if is_match_at(s, pat, j) {
            return Some(j);
        }
        j += 1;
    }
    if is_match_at(s, pat, s.len()) {
        return Some(s.len());
    }
    assert forall|i: int| !match_at(s@, pat@, i) by {
        if 0 <= i && match_at(s@, pat@, i) {
            assert(i <= s@.len());
        }
    }
    None
}

/// Whether `pat` occurs in `s`.
pub fn contains_bytes(s: &Vec<u8>, pat: &Vec<u8>) -> (r: bool)
    ensures
        r == contains_seq(s@, pat@),
{
    let found = find_first(s, pat);
    proof {
        lemma_contains_iff(s@, pat@);
    }
    found.is_some()
}

/// Whether `s` begins with `pat`.
pub fn has_prefix_bytes(s: &Vec<u8>, pat: &Vec<u8>) -> (r: bool)
    ensures
        r == has_prefix(s@, pat@),
{
    is_match_at(s, pat, 0)
}

/// Whether `s` ends with `pat`.
pub fn has_suffix_bytes(s: &Vec<u8>, pat: &Vec<u8>) -> (r: bool)
    ensures
        r == has_suffix(s@, pat@),
{
    if pat.len() > s.len() {
        return false;
    }
    is_match_at(s, pat, s.len() - pat.len())
}

/// A fresh copy of `v`'s bytes.
pub fn copy_bytes(v: &Vec<u8>) -> (r: Vec<u8>)
    ensures
        r@ == v@,
{
    let mut r: Vec<u8> = Vec::new();
    let mut i: usize = 0;
    while i < v.len()
        invariant
            0 <= i <= v.len(),
            r@ == v@.take(i as int),
        decreases v.len() - i,
    {
        r.push(v[i]);
        assert(r@ =~= v@.take(i + 1));
        i += 1;
    }
    assert(r@ =~= v@);
    r
}

/// Appends `src`'s bytes to `dst`.
pub fn append_bytes(dst: &mut Vec<u8>, src: &Vec<u8>)
    ensures
        final(dst)@ == old(dst)@ + src@,
{
    let ghost orig = dst@;
    let mut i: usize = 0;
    while i < src.len()
        invariant
            0 <= i <= src.len(),
            dst@ == orig + src@.take(i as int),
        decreases src.len() - i,
    {
        dst.push(src[i]);
        assert(dst@ =~= orig + src@.take(i + 1));
        i += 1;
    }
    assert(dst@ =~= orig + src@);
}

/// The bytes of `v` from `from` (inclusive) to `to` (exclusive).
pub fn subvec(v: &Vec<u8>, from: usize, to: usize) -> (r: Vec<u8>)
    requires
        from <= to <= v.len(),
    ensures
        r@ == v@.subrange(from as int, to as int),
{
    let mut r: Vec<u8> = Vec::new();
    let mut i: usize = from;
    while i < to
        invariant
            from <= i <= to <= v.len(),
            r@ == v@.subrange(from as int, i as int),
        decreases to - i,
    {
        r.push(v[i]);
        assert(r@ =~= v@.subrange(from as int, i + 1));
        i += 1;
    }
    r
}

/// `s` with the first occurrence of `pat` replaced by `repl`.
pub fn replace_first_bytes(s: &Vec<u8>, pat: &Vec<u8>, repl: &Vec<u8>) -> (r: Vec<u8>)
    ensures
        r@ == replace_first(s@, pat@, repl@),
{
    if pat.len() == 0 {
        return copy_bytes(s);
    }
    match find_first(s, pat) {
        Some(j) => {
            proof {
                assert(s@.len() == vstd::std_specs::vec::spec_vec_len(s));
                assert(j + pat@.len() <= s@.len());
            }
            let mut out = subvec(s, 0, j);
            append_bytes(&mut out, repl);
            let tail = subvec(s, j + pat.len(), s.len());
            append_bytes(&mut out, &tail);
            proof {
                lemma_replace_first_at(s@, pat@, repl@, j as int);
                assert(s@.take(j as int) =~= s@.subrange(0, j as int));
                assert(s@.skip(j + pat@.len() as int) =~= s@.subrange(
                    j + pat@.len() as int,
                    s@.len() as int,
                ));
            }
            out
        },
        None => {
            proof {
                lemma_replace_first_none(s@, pat@, repl@);
            }
            copy_bytes(s)
        },
    }
}

/// `s` with every occurrence of `pat` replaced by `repl`.
pub fn replace_all_bytes(s: &Vec<u8>, pat: &Vec<u8>, repl: &Vec<u8>) -> (r: Vec<u8>)
    ensures
        r@ == replace_all(s@, pat@, repl@),
{
    if pat.len() == 0 {
        return copy_bytes(s);
    }
    let mut out: Vec<u8> = Vec::new();
    let mut j: usize = 0;
    proof {
        assert(s@.skip(0) =~= s@);
        assert(Seq::<u8>::empty() + replace_all(s@, pat@, repl@) =~= replace_all(
            s@,
            pat@,
            repl@,
        ));
    }
    while j < s.len()
        invariant
            0 <= j <= s.len(),
            pat@.len() > 0,
            replace_all(s@, pat@, repl@) == out@ + replace_all(s@.skip(j as int), pat@, repl@),
        decreases s.len() - j,
    {
        let ghost rest = s@.skip(j as int);
        let ghost out_old = out@;
        if is_match_at(s, pat, j) {
            append_bytes(&mut out, repl);
            proof {
                assert(rest.take(pat@.len() as int) =~= pat@) by {
                    assert(rest.take(pat@.len() as int) =~= s@.subrange(
                        j as int,
                        j + pat@.len() as int,
                    ));
                }
                assert(rest.skip(pat@.len() as int) =~= s@.skip(j + pat@.len() as int));
                assert(out_old + (repl@ + replace_all(s@.skip(j + pat@.len() as int), pat@, repl@))
                    =~= out@ + replace_all(s@.skip(j + pat@.len() as int), pat@, repl@));
            }
            j += pat.len();
        } else {
            if pat.len() > s.len() - j {
                // No further occurrence fits; the rest is kept as it is.
                let tail = subvec(s, j, s.len());
                append_bytes(&mut out, &tail);
                proof {
                    assert(rest =~= s@.subrange(j as int, s@.len() as int));
                }
                return out;
            }
            proof {
                assert(rest.take(pat@.len() as int) != pat@) by {
                    assert(rest.take(pat@.len() as int) =~= s@.subrange(
                        j as int,
                        j + pat@.len() as int,
                    ));
                }
                assert(seq![rest[0]] + rest.skip(1) =~= rest);
                assert(rest.skip(1) =~= s@.skip(j + 1));
            }
            let b = s[j];
            out.push(b);
            proof {
                assert(out@ =~= out_old + seq![rest[0]]);
                assert(out_old + (seq![rest[0]] + replace_all(s@.skip(j + 1), pat@, repl@)) =~= out@
                    + replace_all(s@.skip(j + 1), pat@, repl@));
            }
            j += 1;
        }
    }
    proof {
        assert(s@.skip(j as int) =~= Seq::<u8>::empty());
        assert(out@ + Seq::<u8>::empty() =~= out@);
    }
    out
}

proof fn lemma_trim_start_at(s: Seq<u8>, i: int)
    requires
        0 <= i <= s.len(),
        forall|k: int| 0 <= k < i ==> is_ws(s[k]),
        i < s.len() ==> !is_ws(s[i]),
    ensures
        trim_start_seq(s) == s.skip(i),
    decreases i,
{
    if i == 0 {
        assert(s.skip(0) =~= s);
    } else {
        lemma_trim_start_at(s.skip(1), i - 1);
        assert(s.skip(1).skip(i - 1) =~= s.skip(i));
    }
}

proof fn lemma_trim_end_at(s: Seq<u8>, j: int)
    requires
        0 <= j <= s.len(),
        forall|k: int| j <= k < s.len() ==> is_ws(s[k]),
        j > 0 ==> !is_ws(s[j - 1]),
    ensures
        trim_end_seq(s) == s.take(j),
    decreases s.len() - j,
{
    if j == s.len() {
        assert(s.take(j) =~= s);
    } else {
        lemma_trim_end_at(s.drop_last(), j);
        assert(s.drop_last().take(j) =~= s.take(j));
    }
}

/// Whether `b` is ASCII whitespace.
pub fn is_ws_byte(b: u8) -> (r: bool)
    ensures
        r == is_ws(b),
{
    b == 9 || b == 10 || b == 11 || b == 12 || b == 13 || b == 32
}

/// `v` without leading and trailing ASCII whitespace.
pub fn trim_bytes(v: &Vec<u8>) -> (r: Vec<u8>)
    ensures
        r@ == trim_seq(v@),
{
    let mut i: usize = 0;
    while i < v.len() && is_ws_byte(v[i])
        invariant
            0 <= i <= v.len(),
            forall|k: int| 0 <= k < i ==> is_ws(v@[k]),
        decreases v.len() - i,
    {
        i += 1;
    }
    proof {
        lemma_trim_start_at(v@, i as int);
    }
    let ghost started = v@.skip(i as int);
    let mut j: usize = v.len();
    while j > i && is_ws_byte(v[j - 1])
        invariant
            i <= j <= v.len(),
            forall|k: int| j <= k < v.len() ==> is_ws(v@[k]),
        decreases j,
    {
        j -= 1;
    }
    proof {
        assert forall|k: int| (j - i) <= k < started.len() implies is_ws(started[k]) by {
            assert(started[k] == v@[k + i]);
        }
        lemma_trim_end_at(started, j - i);
        assert(started.take(j - i) =~= v@.subrange(i as int, j as int));
    }
    subvec(v, i, j)
}

} // verus!

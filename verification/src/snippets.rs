//! Snippet derivation: the first three lines of a post's body that are not
//! blank, each trimmed, in order.

use vstd::prelude::*;

use crate::text::{lemma_prefix_until_at, prefix_until, subvec, trim_bytes, trim_seq};

verus! {

/// Up to `k` snippets taken from `s`: split at line feeds, drop blank
/// lines, trim the rest.
pub open spec fn snips_from(s: Seq<u8>, k: nat) -> Seq<Seq<u8>>
    decreases s.len(),
{
    if k == 0 {
        Seq::empty()
    } else {
        let cut = prefix_until(s, 10);
        if cut < s.len() {
            let line = trim_seq(s.take(cut as int));
            let rest = s.skip(cut as int + 1);
            if line.len() > 0 {
                seq![line] + snips_from(rest, (k - 1) as nat)
            } else {
                snips_from(rest, k)
            }
        } else {
            let line = trim_seq(s);
            if line.len() > 0 {
                seq![line]
            } else {
                Seq::empty()
            }
        }
    }
}

/// The snippets of a post body: at most three non-blank lines, trimmed, in
/// their original order.
pub open spec fn spec_snippets(s: Seq<u8>) -> Seq<Seq<u8>> {
    snips_from(s, 3)
}

/// Derives the snippets of `selftext`.
pub fn derive_snippets(selftext: &Vec<u8>) -> (r: Vec<Vec<u8>>)
    ensures
        r.deep_view() == spec_snippets(selftext@),
        r@.len() <= 3,
{
    let mut out: Vec<Vec<u8>> = Vec::new();
    let mut pos: usize = 0;
    proof {
        assert(selftext@.skip(0) =~= selftext@);
        assert(out.deep_view() + snips_from(selftext@, 3) =~= snips_from(selftext@, 3));
    }
    loop
        invariant
            0 <= pos <= selftext@.len(),
            selftext@.len() == vstd::std_specs::vec::spec_vec_len(selftext),
            out@.len() <= 3,
            spec_snippets(selftext@) == out.deep_view() + snips_from(
                selftext@.skip(pos as int),
                (3 - out@.len()) as nat,
            ),
        decreases selftext@.len() - pos + (3 - out@.len()),
    {
        let ghost rest = selftext@.skip(pos as int);
        let ghost budget = (3 - out@.len()) as nat;
        if out.len() == 3 {
            proof {
                assert(out@.len() == 3);
                assert(budget == 0);
                assert(snips_from(rest, budget) =~~= Seq::<Seq<u8>>::empty());
                assert(out.deep_view() + snips_from(rest, budget) =~~= out.deep_view());
            }
            return out;
        }
        // Find the end of the current line.
        let mut e: usize = pos;
        while e < selftext.len() && selftext[e] != 10
            invariant
                pos <= e <= selftext@.len(),
                selftext@.len() == vstd::std_specs::vec::spec_vec_len(selftext),
                forall|k: int| pos <= k < e ==> selftext@[k] != 10,
            decreases selftext@.len() - e,
        {
            e += 1;
        }
        proof {
            assert forall|k: int| 0 <= k < e - pos implies rest[k] != 10 by {
                assert(rest[k] == selftext@[pos + k]);
            }
            lemma_prefix_until_at(rest, 10, e - pos);
        }
        let line_raw = subvec(selftext, pos, e);
        let line = trim_bytes(&line_raw);
        proof {
            assert(rest.take(e - pos) =~= selftext@.subrange(pos as int, e as int));
        }
        let ghost out_old = out.deep_view();
        if e < selftext.len() {
            // An explicit line break: consume the line and the break.
            if line.len() > 0 {
                out.push(line);
                proof {
                    assert(out.deep_view() =~~= out_old.push(trim_seq(rest.take(e - pos))));
                    assert(out_old + (seq![trim_seq(rest.take(e - pos))] + snips_from(
                        selftext@.skip(e + 1),
                        (budget - 1) as nat,
                    )) =~~= out.deep_view() + snips_from(selftext@.skip(e + 1), (budget - 1) as nat));
                }
            }
            proof {
                assert(rest.skip(e - pos + 1) =~= selftext@.skip(e + 1));
            }
            pos = e + 1;
        } else {
            // The last line, with no break after it.
            proof {
                assert(budget >= 1);
                assert(prefix_until(rest, 10) == rest.len());
                assert(rest.take(e - pos) =~= rest);
                assert(line@ == trim_seq(rest));
            }
            if line.len() > 0 {
                let ghost l = line@;
                out.push(line);
                proof {
                    assert(snips_from(rest, budget) =~~= seq![trim_seq(rest)]);
                    assert(out.deep_view() =~~= out_old.push(l));
                    assert(out_old + seq![trim_seq(rest)] =~~= out.deep_view());
                    assert(out.deep_view() =~~= spec_snippets(selftext@));
                }
            } else {
                proof {
                    assert(snips_from(rest, budget) =~~= Seq::<Seq<u8>>::empty());
                    assert(out.deep_view() + snips_from(rest, budget) =~~= out.deep_view());
                    assert(out.deep_view() =~~= spec_snippets(selftext@));
                }
            }
            return out;
        }
    }
}

} // verus!

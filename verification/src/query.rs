//! The endpoint's query string: percent-decoding, the `name`/`limit` pair
//! grammar, decimal parsing of the limit, and the endpoint's decision for a
//! raw query — the limit to fetch with, or the plaintext rejection body.

use vstd::prelude::*;
use vstd::string::{StrSliceExecFns, StringSliceAdditionalSpecFns};

use crate::text::{bytes_eq, find_byte_in, lemma_prefix_until_at, prefix_until, subvec};
use crate::{validate_limit, Params, DEFAULT_LIMIT};

verus! {

/// The mathematical view of the accepted query parameters.
pub struct ParamsView {
    pub name: Option<Seq<u8>>,
    pub limit: Option<i32>,
}

impl View for Params {
    type V = ParamsView;

    open spec fn view(&self) -> ParamsView {
        ParamsView {
            name: match self.name {
                Some(ref v) => Some(v@),
                None => None,
            },
            limit: self.limit,
        }
    }
}

/// An ASCII hexadecimal digit.
pub open spec fn is_hex(b: u8) -> bool {
    (48 <= b <= 57) || (97 <= b <= 102) || (65 <= b <= 70)
}

/// The value of a hexadecimal digit.
pub open spec fn hex_val(b: u8) -> int {
    if 48 <= b <= 57 {
        b - 48
    } else if 97 <= b <= 102 {
        b - 87
    } else {
        b - 55
    }
}

/// Percent-decoding as form decoding does it: `%XX` becomes the byte it
/// names, `+` becomes a space, an ill-formed escape is kept verbatim.
pub open spec fn pct_decode(s: Seq<u8>) -> Seq<u8>
    decreases s.len(),
{
    if s.len() == 0 {
        Seq::empty()
    } else if s[0] == 37 && s.len() >= 3 && is_hex(s[1]) && is_hex(s[2]) {
        seq![(16 * hex_val(s[1]) + hex_val(s[2])) as u8] + pct_decode(s.skip(3))
    } else if s[0] == 43 {
        seq![32u8] + pct_decode(s.skip(1))
    } else {
        seq![s[0]] + pct_decode(s.skip(1))
    }
}

/// An ASCII decimal digit.
pub open spec fn is_digit(b: u8) -> bool {
    48 <= b <= 57
}

pub open spec fn all_digits(s: Seq<u8>) -> bool {
    forall|i: int| 0 <= i < s.len() ==> is_digit(s[i])
}

/// The integer named by a sequence of decimal digits.
pub open spec fn dec_val(s: Seq<u8>) -> int
    decreases s.len(),
{
    if s.len() == 0 {
        0
    } else {
        dec_val(s.drop_last()) * 10 + (s.last() - 48)
    }
}

/// The `i32` a value string names: an optional sign, then decimal digits,
/// within the type's range; anything else fails.
pub open spec fn spec_parse_i32(v: Seq<u8>) -> Option<i32> {
    let signed = v.len() > 0 && (v[0] == 45 || v[0] == 43);
    let neg = v.len() > 0 && v[0] == 45;
    let digits = if signed {
        v.skip(1)
    } else {
        v
    };
    if digits.len() == 0 || !all_digits(digits) {
        None
    } else if !neg && dec_val(digits) <= 2147483647 {
        Some(dec_val(digits) as i32)
    } else if neg && dec_val(digits) <= 2147483648 {
        Some((-dec_val(digits)) as i32)
    } else {
        None
    }
}

/// One `key=value` segment applied to the parameters gathered so far.
/// An empty segment changes nothing; an unknown key is ignored; a repeated
/// known key or an unusable `limit` value fails.
pub open spec fn spec_parse_segment(seg: Seq<u8>, acc: ParamsView) -> Option<ParamsView> {
    if seg.len() == 0 {
        Some(acc)
    } else {
        let cut = prefix_until(seg, 61);
        let key = pct_decode(seg.take(cut as int));
        let val = if cut < seg.len() {
            pct_decode(seg.skip(cut as int + 1))
        } else {
            Seq::empty()
        };
        if key == "name".spec_bytes() {
            if acc.name is Some {
                None
            } else {
                Some(ParamsView { name: Some(val), ..acc })
            }
        } else if key == "limit".spec_bytes() {
            if acc.limit is Some {
                None
            } else {
                match spec_parse_i32(val) {
                    Some(n) => Some(ParamsView { limit: Some(n), ..acc }),
                    None => None,
                }
            }
        } else {
            Some(acc)
        }
    }
}

/// The `&`-separated segments of `q` folded over `acc`, in order.
pub open spec fn spec_parse_pairs(q: Seq<u8>, acc: ParamsView) -> Option<ParamsView>
    decreases q.len(),
{
    let cut = prefix_until(q, 38);
    let step = spec_parse_segment(q.take(cut as int), acc);
    if cut < q.len() {
        match step {
            Some(a) => spec_parse_pairs(q.skip(cut as int + 1), a),
            None => None,
        }
    } else {
        step
    }
}

/// The parameters a raw query string names, if it is well-formed.
pub open spec fn spec_parse_query(q: Seq<u8>) -> Option<ParamsView> {
    spec_parse_pairs(q, ParamsView { name: None, limit: None })
}

/// Whether `b` is an ASCII hexadecimal digit.
fn is_hex_byte(b: u8) -> (r: bool)
    ensures
        r == is_hex(b),
{
    (48 <= b && b <= 57) || (97 <= b && b <= 102) || (65 <= b && b <= 70)
}

/// The value of a hexadecimal digit.
fn hex_val_byte(b: u8) -> (r: u8)
    requires
        is_hex(b),
    ensures
        r as int == hex_val(b),
        r < 16,
{
    if 48 <= b && b <= 57 {
        b - 48
    } else if 97 <= b && b <= 102 {
        b - 87
    } else {
        b - 55
    }
}

/// Percent-decodes `v`.
pub fn pct_decode_bytes(v: &Vec<u8>) -> (r: Vec<u8>)
    ensures
        r@ == pct_decode(v@),
{
    let mut out: Vec<u8> = Vec::new();
    let mut i: usize = 0;
    proof {
        assert(v@.skip(0) =~= v@);
        assert(Seq::<u8>::empty() + pct_decode(v@) =~= pct_decode(v@));
    }
    while i < v.len()
        invariant
            0 <= i <= v@.len(),
            v@.len() == vstd::std_specs::vec::spec_vec_len(v),
            pct_decode(v@) == out@ + pct_decode(v@.skip(i as int)),
        decreases v@.len() - i,
    {
        let ghost rest = v@.skip(i as int);
        let ghost out_old = out@;
        proof {
            assert(rest[0] == v@[i as int]);
        }
        if v[i] == 37 && v.len() - i >= 3 && is_hex_byte(v[i + 1]) && is_hex_byte(v[i + 2]) {
            proof {
                assert(rest.len() >= 3);
                assert(rest[1] == v@[i + 1]);
                assert(rest[2] == v@[i + 2]);
            }
            let h1 = hex_val_byte(v[i + 1]);
            let h2 = hex_val_byte(v[i + 2]);
            out.push(16 * h1 + h2);
            proof {
                assert(rest.skip(3) =~= v@.skip(i + 3));
                assert(out@ =~= out_old + seq![(16 * hex_val(rest[1]) + hex_val(rest[2])) as u8]);
                assert(out_old + (seq![(16 * hex_val(rest[1]) + hex_val(rest[2])) as u8]
                    + pct_decode(v@.skip(i + 3))) =~= out@ + pct_decode(v@.skip(i + 3)));
            }
            i += 3;
        } else if v[i] == 43 {
            out.push(32);
            proof {
                assert(rest.skip(1) =~= v@.skip(i + 1));
                assert(out@ =~= out_old + seq![32u8]);
                assert(out_old + (seq![32u8] + pct_decode(v@.skip(i + 1))) =~= out@ + pct_decode(
                    v@.skip(i + 1),
                ));
            }
            i += 1;
        } else {
            let b = v[i];
            out.push(b);
            proof {
                assert(rest.skip(1) =~= v@.skip(i + 1));
                assert(out@ =~= out_old + seq![rest[0]]);
                assert(out_old + (seq![rest[0]] + pct_decode(v@.skip(i + 1))) =~= out@ + pct_decode(
                    v@.skip(i + 1),
                ));
            }
            i += 1;
        }
    }
    proof {
        assert(v@.skip(v@.len() as int) =~= Seq::<u8>::empty());
        assert(out@ + Seq::<u8>::empty() =~= out@);
    }
    out
}

proof fn lemma_dec_val_bounds(s: Seq<u8>, k: int)
    requires
        0 <= k <= s.len(),
        all_digits(s),
    ensures
        dec_val(s) >= dec_val(s.take(k)),
        dec_val(s) >= 0,
    decreases s.len(),
{
    if s.len() == 0 {
        assert(s.take(k) =~= s);
    } else {
        assert(all_digits(s.drop_last()));
        if k == s.len() {
            assert(s.take(k) =~= s);
            lemma_dec_val_bounds(s.drop_last(), 0);
        } else {
            lemma_dec_val_bounds(s.drop_last(), k);
            assert(s.drop_last().take(k) =~= s.take(k));
        }
    }
}

/// Parses a decimal `i32` from `v`, exactly when the whole of `v` names one
/// in range.
pub fn parse_i32_bytes(v: &Vec<u8>) -> (r: Option<i32>)
    ensures
        r == spec_parse_i32(v@),
{
    let n = v.len();
    let mut start: usize = 0;
    let mut neg = false;
    if n > 0 && (v[0] == 45 || v[0] == 43) {
        neg = v[0] == 45;
        start = 1;
    }
    let ghost digits = if start == 1 {
        v@.skip(1)
    } else {
        v@
    };
    proof {
        if start == 0 {
            assert(v@.skip(0) =~= v@);
        }
    }
    if start >= n {
        return None;
    }
    let mut acc: u64 = 0;
    let mut i: usize = start;
    proof {
        assert(digits.take(0) =~= Seq::<u8>::empty());
    }
    while i < n
        invariant
            start <= i <= n,
            n == vstd::std_specs::vec::spec_vec_len(v),
            start <= 1,
            (start == 1) == (v@.len() > 0 && (v@[0] == 45 || v@[0] == 43)),
            neg == (v@.len() > 0 && v@[0] == 45),
            digits == (if start == 1 {
                v@.skip(1)
            } else {
                v@
            }),
            digits.len() == n - start,
            forall|k: int| 0 <= k < digits.len() ==> digits[k] == v@[k + start],
            acc <= 2147483648,
            all_digits(digits.take(i - start)),
            acc as int == dec_val(digits.take(i - start)),
        decreases n - i,
    {
        let b = v[i];
        proof {
            assert(digits[i - start] == v@[i as int]);
        }
        if !(48 <= b && b <= 57) {
            assert(!all_digits(digits));
            return None;
        }
        let step: u64 = acc * 10 + (b - 48) as u64;
        proof {
            assert(digits.take(i - start + 1) =~= digits.take(i - start).push(digits[i - start]));
            assert(digits.take(i - start + 1).drop_last() =~= digits.take(i - start));
            assert(step as int == dec_val(digits.take(i - start + 1)));
        }
        if step > 2147483648 {
            proof {
                if all_digits(digits) {
                    lemma_dec_val_bounds(digits, i - start + 1);
                }
            }
            return None;
        }
        acc = step;
        proof {
            assert(all_digits(digits.take(i - start + 1)));
        }
        i += 1;
    }
    proof {
        assert(digits.take(n - start) =~= digits);
    }
    if neg {
        let r = (-(acc as i64)) as i32;
        assert(r as int == -dec_val(digits));
        Some(r)
    } else {
        if acc > 2147483647 {
            return None;
        }
        Some(acc as i32)
    }
}

/// Parses a raw query string into the accepted parameters, or fails when it
/// is malformed.
pub fn parse_query(q: &Vec<u8>) -> (r: Option<Params>)
    ensures
        r matches Some(p) ==> spec_parse_query(q@) == Some(p@),
        r is None ==> spec_parse_query(q@) is None,
{
    let mut acc = Params { name: None, limit: None };
    let mut pos: usize = 0;
    proof {
        assert(q@.skip(0) =~= q@);
    }
    loop
        invariant
            0 <= pos <= q@.len(),
            q@.len() == vstd::std_specs::vec::spec_vec_len(q),
            spec_parse_query(q@) == spec_parse_pairs(q@.skip(pos as int), acc@),
        decreases q@.len() - pos,
    {
        let ghost rest = q@.skip(pos as int);
        let ghost acc_old = acc@;
        let seg_end = find_byte_in(q, 38, pos, q.len());
        let ghost cut = (seg_end - pos) as nat;
        let ghost seg = rest.take(cut as int);
        proof {
            assert forall|k: int| 0 <= k < cut implies rest[k] != 38 by {
                assert(rest[k] == q@[pos + k]);
            }
            if cut < rest.len() {
                assert(rest[cut as int] == q@[seg_end as int]);
            }
            lemma_prefix_until_at(rest, 38, cut as int);
        }
        // Process the segment [pos, seg_end).
        if seg_end > pos {
            let eq = find_byte_in(q, 61, pos, seg_end);
            let ghost ecut = (eq - pos) as nat;
            proof {
                assert(seg.len() == cut);
                assert forall|k: int| 0 <= k < ecut implies seg[k] != 61 by {
                    assert(seg[k] == q@[pos + k]);
                }
                if ecut < seg.len() {
                    assert(seg[ecut as int] == q@[eq as int]);
                }
                lemma_prefix_until_at(seg, 61, ecut as int);
            }
            let key_raw = subvec(q, pos, eq);
            let key = pct_decode_bytes(&key_raw);
            proof {
                assert(seg.take(ecut as int) =~= q@.subrange(pos as int, eq as int));
            }
            let val: Vec<u8> = if eq < seg_end {
                let val_raw = subvec(q, eq + 1, seg_end);
                let w = pct_decode_bytes(&val_raw);
                proof {
                    assert(seg.skip(ecut as int + 1) =~= q@.subrange(eq + 1, seg_end as int));
                }
                w
            } else {
                let w: Vec<u8> = Vec::new();
                proof {
                    assert(w@ =~= Seq::<u8>::empty());
                }
                w
            };
            if bytes_eq(&key, &"name".as_bytes_vec()) {
                if acc.name.is_some() {
                    proof {
                        assert(spec_parse_segment(seg, acc_old) is None);
                    }
                    return None;
                }
                acc.name = Some(val);
                proof {
                    assert(spec_parse_segment(seg, acc_old) == Some(acc@));
                }
            } else if bytes_eq(&key, &"limit".as_bytes_vec()) {
                if acc.limit.is_some() {
                    proof {
                        assert(spec_parse_segment(seg, acc_old) is None);
                    }
                    return None;
                }
                match parse_i32_bytes(&val) {
                    Some(l) => {
                        acc.limit = Some(l);
                        proof {
                            assert(spec_parse_segment(seg, acc_old) == Some(acc@));
                        }
                    },
                    None => {
                        proof {
                            assert(spec_parse_segment(seg, acc_old) is None);
                        }
                        return None;
                    },
                }
            } else {
                proof {
                    assert(spec_parse_segment(seg, acc_old) == Some(acc@));
                }
            }
        } else {
            proof {
                assert(seg.len() == 0);
                assert(spec_parse_segment(seg, acc_old) == Some(acc@));
            }
        }
        if seg_end < q.len() {
            proof {
                assert(rest.skip(cut as int + 1) =~= q@.skip(seg_end + 1));
            }
            pos = seg_end + 1;
        } else {
            proof {
                assert(cut == rest.len());
                assert(seg =~= rest);
                assert(spec_parse_pairs(rest, acc_old) == Some(acc@));
            }
            return Some(acc);
        }
    }
}

/// The endpoint's decision for a raw query string: the limit to fetch with,
/// or the plaintext body of the parameter rejection.  A malformed query and
/// an out-of-range limit are both rejected, each with its own text, before
/// anything else happens; an absent limit means the default.
pub fn meme_query_decision(query: &Vec<u8>) -> (r: Result<i32, Vec<u8>>)
    ensures
        spec_parse_query(query@) is None ==> (r matches Err(m) && m@ == "Parâmetros inválidos.".spec_bytes()),
        spec_parse_query(query@) matches Some(p) ==> match p.limit {
            None => r == Ok::<i32, Vec<u8>>(DEFAULT_LIMIT),
            Some(l) => if 1 <= l <= 50 {
                r == Ok::<i32, Vec<u8>>(l)
            } else {
                (r matches Err(m) && m@ == "O limite deve estar entre 1 e 50.".spec_bytes())
            },
        },
        r matches Ok(l) ==> 1 <= l <= 50,
{
    match parse_query(query) {
        None => Err("Parâmetros inválidos.".as_bytes_vec()),
        Some(params) => {
            match validate_limit(params.limit) {
                Ok(l) => Ok(l),
                Err(_) => Err("O limite deve estar entre 1 e 50.".as_bytes_vec()),
            }
        },
    }
}

} // verus!

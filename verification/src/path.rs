//! Derivation paths: an ordered sequence of child indices, hardening encoded
//! by the high bit. A path comes either from the pair (account index, key
//! index), which fixes the five-level payment path, or from a slash-separated
//! string in which a trailing apostrophe marks a hardened level and a leading
//! literal `m` segment is ignored. Every segment must be a decimal number
//! below 2^31; anything else is rejected.

use vstd::prelude::*;

use crate::SignerError;

verus! {

/// Added to a raw index to mark the level as hardened.
pub const HARDENED_OFFSET: u32 = 0x8000_0000;

/// Purpose level of the fixed payment path.
pub const PURPOSE: u32 = 1852;

/// Coin-type level of the fixed payment path.
pub const COIN_TYPE: u32 = 1815;

/// The position right after a segment that starts at `i`: the first `/` at or
/// after `i`, or the end of the string.
pub open spec fn seg_end(s: Seq<char>, i: int) -> int
    recommends
        0 <= i <= s.len(),
    decreases s.len() - i,
{
    if i < 0 || i >= s.len() {
        s.len() as int
    } else if s[i] == '/' {
        i
    } else {
        seg_end(s, i + 1)
    }
}

pub proof fn lemma_seg_end(s: Seq<char>, i: int)
    requires
        0 <= i <= s.len(),
    ensures
        i <= seg_end(s, i) <= s.len(),
        forall|j: int| i <= j < seg_end(s, i) ==> s[j] != '/',
        seg_end(s, i) < s.len() ==> s[seg_end(s, i)] == '/',
    decreases s.len() - i,
{
    if i < s.len() && s[i] != '/' {
        lemma_seg_end(s, i + 1);
    }
}

/// The segments of `s` from position `i` on, split on `/`. Splitting the
/// empty string gives one empty segment, as `str::split` does.
pub open spec fn segments_from(s: Seq<char>, i: int) -> Seq<Seq<char>>
    decreases s.len() - i,
    when 0 <= i <= s.len()
    via segments_from_dec
{
    let e = seg_end(s, i);
    if e >= s.len() {
        seq![s.subrange(i, s.len() as int)]
    } else {
        seq![s.subrange(i, e)] + segments_from(s, e + 1)
    }
}

#[via_fn]
proof fn segments_from_dec(s: Seq<char>, i: int) {
    lemma_seg_end(s, i);
}

/// The segments of the whole string.
pub open spec fn segments(s: Seq<char>) -> Seq<Seq<char>> {
    segments_from(s, 0)
}

/// A decimal digit: 48 is '0', 57 is '9'.
pub open spec fn is_dec_digit(c: char) -> bool {
    48 <= c as u32 && c as u32 <= 57
}

pub open spec fn all_digits(t: Seq<char>) -> bool {
    forall|i: int| 0 <= i < t.len() ==> is_dec_digit(#[trigger] t[i])
}

/// The numeric value of one decimal digit.
pub open spec fn dec_digit_val(c: char) -> nat {
    if is_dec_digit(c) {
        ((c as u32) - 48) as nat
    } else {
        0
    }
}

/// The value of a decimal numeral, most significant digit first.
pub open spec fn dec_value(t: Seq<char>) -> nat
    recommends
        all_digits(t),
    decreases t.len(),
{
    if t.len() == 0 {
        0
    } else {
        dec_value(t.drop_last()) * 10 + dec_digit_val(t.last())
    }
}

/// A prefix of a numeral never exceeds the whole numeral's value.
pub proof fn lemma_dec_value_prefix(t: Seq<char>, k: int)
    requires
        0 <= k <= t.len(),
    ensures
        dec_value(t.subrange(0, k)) <= dec_value(t),
    decreases t.len(),
{
    if k == t.len() {
        assert(t.subrange(0, k) =~= t);
    } else {
        assert(t.drop_last() =~= t.subrange(0, t.len() - 1));
        assert(t.subrange(0, k) =~= t.drop_last().subrange(0, k));
        lemma_dec_value_prefix(t.drop_last(), k);
    }
}

/// One path segment: a decimal index below 2^31, with an optional trailing
/// apostrophe that adds the hardening offset. Anything else is no index.
pub open spec fn parse_segment(t: Seq<char>) -> Option<u32> {
    if t.len() > 0 && t.last() == '\'' {
        let d = t.drop_last();
        if d.len() > 0 && all_digits(d) && dec_value(d) < 0x8000_0000 {
            Some((dec_value(d) + 0x8000_0000) as u32)
        } else {
            None
        }
    } else {
        if t.len() > 0 && all_digits(t) && dec_value(t) < 0x8000_0000 {
            Some(dec_value(t) as u32)
        } else {
            None
        }
    }
}

/// All segments in order; one bad segment spoils the whole path.
pub open spec fn parse_segments(segs: Seq<Seq<char>>) -> Option<Seq<u32>>
    decreases segs.len(),
{
    if segs.len() == 0 {
        Some(Seq::empty())
    } else {
        match parse_segment(segs[0]) {
            Option::None => None,
            Option::Some(v) => match parse_segments(segs.drop_first()) {
                Option::None => None,
                Option::Some(rest) => Some(seq![v] + rest),
            },
        }
    }
}

/// A whole path string: split on `/`, drop a leading literal `m` segment,
/// parse every remaining segment. A path with no segments is no path.
pub open spec fn parse_path_spec(s: Seq<char>) -> Option<Seq<u32>> {
    let all = segments(s);
    let segs = if all.len() > 0 && all[0] == seq!['m'] {
        all.drop_first()
    } else {
        all
    };
    if segs.len() == 0 {
        None
    } else {
        parse_segments(segs)
    }
}

/// The fixed five-level payment path for an account and key index:
/// purpose and coin type hardened, the account hardened, role 0, the key
/// index soft.
pub open spec fn payment_path_spec(account_index: u32, key_index: u32) -> Seq<u32>
    recommends
        account_index < 0x8000_0000,
        key_index < 0x8000_0000,
{
    seq![
        (PURPOSE + 0x8000_0000) as u32,
        (COIN_TYPE + 0x8000_0000) as u32,
        (account_index + 0x8000_0000) as u32,
        0u32,
        key_index,
    ]
}

/// Where a segment ends is determined: the first `/` at or after `i`.
pub proof fn lemma_seg_end_is(s: Seq<char>, i: int, e: int)
    requires
        0 <= i <= e <= s.len(),
        forall|j: int| i <= j < e ==> s[j] != '/',
        e < s.len() ==> s[e] == '/',
    ensures
        seg_end(s, i) == e,
    decreases e - i,
{
    if i < e {
        lemma_seg_end_is(s, i + 1, e);
    }
}

pub proof fn lemma_seg_end_skip(s: Seq<char>, k: int, i: int)
    requires
        0 <= k <= i <= s.len(),
    ensures
        seg_end(s, i) == k + seg_end(s.skip(k), i - k),
    decreases s.len() - i,
{
    if i < s.len() {
        assert(s.skip(k)[i - k] == s[i]);
        if s[i] != '/' {
            lemma_seg_end_skip(s, k, i + 1);
        }
    }
}

/// The segments from position `i` are the segments of the rest of the
/// string.
pub proof fn lemma_segments_from_skip(s: Seq<char>, i: int)
    requires
        0 <= i <= s.len(),
    ensures
        segments_from(s, i) == segments(s.skip(i)),
    decreases s.len() - i,
{
    lemma_seg_end(s, i);
    lemma_seg_end_skip(s, i, i);
    let e = seg_end(s, i);
    let t = s.skip(i);
    assert(seg_end(t, 0) == e - i);
    if e >= s.len() {
        assert(s.subrange(i, s.len() as int) =~= t.subrange(0, t.len() as int));
    } else {
        lemma_segments_from_skip(s, e + 1);
        lemma_segments_from_skip(t, e - i + 1);
        assert(t.skip(e - i + 1) =~= s.skip(e + 1));
        assert(s.subrange(i, e) =~= t.subrange(0, e - i));
    }
}

/// Splitting after a slash-free head: the head is the first segment, and
/// the rest of the string splits on its own.
pub proof fn lemma_segments_cons(x: Seq<char>, y: Seq<char>)
    requires
        forall|i: int| 0 <= i < x.len() ==> x[i] != '/',
    ensures
        segments(x + seq!['/'] + y) == seq![x] + segments(y),
{
    let s = x + seq!['/'] + y;
    assert forall|j: int| 0 <= j < x.len() implies s[j] != '/' by {
        assert(s[j] == x[j]);
    }
    assert(s[x.len() as int] == '/');
    lemma_seg_end_is(s, 0, x.len() as int);
    lemma_segments_from_skip(s, x.len() as int + 1);
    assert(s.skip(x.len() as int + 1) =~= y);
    assert(s.subrange(0, x.len() as int) =~= x);
}

/// A slash-free string is one segment.
pub proof fn lemma_segments_single(x: Seq<char>)
    requires
        forall|i: int| 0 <= i < x.len() ==> x[i] != '/',
    ensures
        segments(x) == seq![x],
{
    lemma_seg_end_is(x, 0, x.len() as int);
    assert(x.subrange(0, x.len() as int) =~= x);
}

/// A plain numeral below 2^31 parses to its value.
pub proof fn lemma_parse_segment_plain(t: Seq<char>)
    requires
        t.len() > 0,
        all_digits(t),
        dec_value(t) < 0x8000_0000,
    ensures
        parse_segment(t) == Some(dec_value(t) as u32),
{
    assert(is_dec_digit(t.last()));
}

/// A numeral below 2^31 with a trailing apostrophe parses to its value plus
/// the hardening offset.
pub proof fn lemma_parse_segment_hardened(t: Seq<char>)
    requires
        t.len() > 0,
        all_digits(t),
        dec_value(t) < 0x8000_0000,
    ensures
        parse_segment(t + seq!['\'']) == Some((dec_value(t) + 0x8000_0000) as u32),
{
    let u = t + seq!['\''];
    assert(u.last() == '\'');
    assert(u.drop_last() =~= t);
}

/// One good segment in front: the path parses exactly when the rest does.
pub proof fn lemma_parse_segments_cons(v: u32, seg: Seq<char>, rest: Seq<Seq<char>>)
    requires
        parse_segment(seg) == Some(v),
    ensures
        parse_segments(seq![seg] + rest) == match parse_segments(rest) {
            Option::Some(vs) => Option::Some(seq![v] + vs),
            Option::None => Option::None::<Seq<u32>>,
        },
{
    assert((seq![seg] + rest)[0] == seg);
    assert((seq![seg] + rest).drop_first() =~= rest);
}

/// The path string `m/1852'/1815'/<sa>'/0/<sk>`, for numerals `sa` and
/// `sk`.
pub open spec fn payment_path_string(sa: Seq<char>, sk: Seq<char>) -> Seq<char> {
    seq!['m'] + seq!['/'] + (seq!['1', '8', '5', '2', '\''] + seq!['/'] + (seq![
        '1',
        '8',
        '1',
        '5',
        '\'',
    ] + seq!['/'] + ((sa + seq!['\'']) + seq!['/'] + (seq!['0'] + seq!['/'] + sk))))
}

/// Path equivalence: the path string `m/1852'/1815'/<a>'/0/<k>` resolves to
/// the same index sequence as the fixed payment path for `(a, k)`, for any
/// decimal spellings of `a` and `k`.
pub proof fn lemma_path_equivalence(sa: Seq<char>, sk: Seq<char>, account_index: u32, key_index: u32)
    requires
        sa.len() > 0,
        all_digits(sa),
        dec_value(sa) == account_index,
        account_index < 0x8000_0000,
        sk.len() > 0,
        all_digits(sk),
        dec_value(sk) == key_index,
        key_index < 0x8000_0000,
    ensures
        parse_path_spec(payment_path_string(sa, sk)) == Some(
            payment_path_spec(account_index, key_index),
        ),
{
    let seg1 = seq!['1', '8', '5', '2', '\''];
    let seg2 = seq!['1', '8', '1', '5', '\''];
    let seg3 = sa + seq!['\''];
    let seg4 = seq!['0'];
    let r4 = seg4 + seq!['/'] + sk;
    let r3 = seg3 + seq!['/'] + r4;
    let r2 = seg2 + seq!['/'] + r3;
    let r1 = seg1 + seq!['/'] + r2;
    let s = seq!['m'] + seq!['/'] + r1;
    assert(s == payment_path_string(sa, sk));
    assert forall|i: int| 0 <= i < seg3.len() implies seg3[i] != '/' by {
        if i < sa.len() {
            assert(seg3[i] == sa[i]);
            assert(is_dec_digit(sa[i]));
        } else {
            assert(seg3[i] == '\'');
        }
    }
    assert forall|i: int| 0 <= i < sk.len() implies sk[i] != '/' by {
        assert(is_dec_digit(sk[i]));
    }
    lemma_segments_cons(seq!['m'], r1);
    lemma_segments_cons(seg1, r2);
    lemma_segments_cons(seg2, r3);
    lemma_segments_cons(seg3, r4);
    lemma_segments_cons(seg4, sk);
    lemma_segments_single(sk);
    let all = segments(s);
    assert(all == seq![seq!['m']] + (seq![seg1] + (seq![seg2] + (seq![seg3] + (seq![seg4]
        + seq![sk])))));
    assert(all[0] == seq!['m']);
    let segs = all.drop_first();
    assert(segs =~= seq![seg1] + (seq![seg2] + (seq![seg3] + (seq![seg4] + seq![sk]))));
    // the values of the literal numerals
    reveal_with_fuel(dec_value, 6);
    assert(all_digits(seq!['1', '8', '5', '2'])) by {
        assert forall|i: int| 0 <= i < 4 implies is_dec_digit(seq!['1', '8', '5', '2'][i]) by {}
    }
    assert(seq!['1', '8', '5', '2'].drop_last() =~= seq!['1', '8', '5']);
    assert(seq!['1', '8', '5'].drop_last() =~= seq!['1', '8']);
    assert(seq!['1', '8'].drop_last() =~= seq!['1']);
    assert(seq!['1'].drop_last() =~= Seq::<char>::empty());
    assert(dec_value(seq!['1', '8', '5', '2']) == 1852);
    assert(all_digits(seq!['1', '8', '1', '5'])) by {
        assert forall|i: int| 0 <= i < 4 implies is_dec_digit(seq!['1', '8', '1', '5'][i]) by {}
    }
    assert(seq!['1', '8', '1', '5'].drop_last() =~= seq!['1', '8', '1']);
    assert(seq!['1', '8', '1'].drop_last() =~= seq!['1', '8']);
    assert(dec_value(seq!['1', '8', '1', '5']) == 1815);
    assert(all_digits(seq!['0'])) by {
        assert(is_dec_digit(seq!['0'][0]));
    }
    assert(seq!['0'].drop_last() =~= Seq::<char>::empty());
    assert(dec_value(seq!['0']) == 0);
    // each segment parses to its index
    lemma_parse_segment_hardened(seq!['1', '8', '5', '2']);
    lemma_parse_segment_hardened(seq!['1', '8', '1', '5']);
    lemma_parse_segment_hardened(sa);
    lemma_parse_segment_plain(seq!['0']);
    lemma_parse_segment_plain(sk);
    lemma_parse_segments_cons((1852 + 0x8000_0000) as u32, seg1, seq![seg2] + (seq![seg3] + (seq![
        seg4,
    ] + seq![sk])));
    lemma_parse_segments_cons((1815 + 0x8000_0000) as u32, seg2, seq![seg3] + (seq![seg4]
        + seq![sk]));
    lemma_parse_segments_cons((account_index + 0x8000_0000) as u32, seg3, seq![seg4] + seq![sk]);
    lemma_parse_segments_cons(0u32, seg4, seq![sk]);
    lemma_parse_segments_cons(key_index, sk, Seq::<Seq<char>>::empty());
    assert(seq![sk] =~= seq![sk] + Seq::<Seq<char>>::empty());
    assert(parse_segments(Seq::<Seq<char>>::empty()) == Some(Seq::<u32>::empty()));
    assert(parse_segments(segs) is Some);
    assert(parse_segments(segs)->0 =~= payment_path_spec(account_index, key_index));
}

/// An ordered sequence of child-derivation indices, hardening encoded by the
/// high bit. Its view is that sequence.
#[derive(Debug)]
pub struct DerivationPath {
    indices: Vec<u32>,
}

impl View for DerivationPath {
    type V = Seq<u32>;

    closed spec fn view(&self) -> Seq<u32> {
        self.indices@
    }
}

fn parse_one_segment(seg: &Vec<char>) -> (r: Option<u32>)
    ensures
        r == parse_segment(seg@),
{
    let len = seg.len();
    let mut dig_len = len;
    let mut hardened = false;
    if len > 0 && seg[len - 1] == '\'' {
        dig_len = len - 1;
        hardened = true;
        proof {
            assert(seg@.drop_last() =~= seg@.subrange(0, dig_len as int));
        }
    }
    let ghost digits: Seq<char> = seg@.subrange(0, dig_len as int);
    proof {
        if !hardened {
            assert(digits =~= seg@);
        }
    }
    if dig_len == 0 {
        return None;
    }
    let mut acc: u32 = 0;
    let mut k: usize = 0;
    while k < dig_len
        invariant
            0 < dig_len <= seg@.len(),
            digits == seg@.subrange(0, dig_len as int),
            hardened == (seg@.len() > 0 && seg@.last() == '\''),
            hardened ==> digits == seg@.drop_last(),
            !hardened ==> digits == seg@,
            k <= dig_len,
            all_digits(digits.subrange(0, k as int)),
            acc == dec_value(digits.subrange(0, k as int)),
            acc < 0x8000_0000,
        decreases dig_len - k,
    {
        let c = seg[k];
        let u = c as u32;
        if !(48 <= u && u <= 57) {
            proof {
                assert(digits[k as int] == seg@[k as int]);
                assert(!is_dec_digit(digits[k as int]));
                assert(!all_digits(digits));
                if hardened {
                    assert(seg@.len() > 0 && seg@.last() == '\'');
                    assert(seg@.drop_last() == digits);
                    assert(parse_segment(seg@) is None);
                } else {
                    assert(parse_segment(seg@) is None);
                }
            }
            return None;
        }
        let d = u - 48;
        let acc64: u64 = (acc as u64) * 10 + (d as u64);
        proof {
            assert(digits.subrange(0, k + 1).drop_last() =~= digits.subrange(0, k as int));
            assert(digits.subrange(0, k + 1).last() == digits[k as int]);
            assert(dec_value(digits.subrange(0, k + 1)) == dec_value(digits.subrange(0, k as int))
                * 10 + dec_digit_val(digits[k as int]));
        }
        if acc64 >= 0x8000_0000 {
            proof {
                if all_digits(digits) {
                    lemma_dec_value_prefix(digits, k + 1);
                }
            }
            return None;
        }
        acc = acc64 as u32;
        k = k + 1;
    }
    proof {
        assert(digits.subrange(0, dig_len as int) =~= digits);
    }
    if hardened {
        Some(acc + 0x8000_0000)
    } else {
        Some(acc)
    }
}

/// Split a character sequence on `/`.
fn split_slash(cs: &Vec<char>) -> (r: Vec<Vec<char>>)
    ensures
        r.deep_view() == segments(cs@),
{
    let n = cs.len();
    let mut r: Vec<Vec<char>> = Vec::new();
    let mut i: usize = 0;
    let mut done: bool = false;
    while !done
        invariant
            n == cs@.len(),
            i <= n,
            !done ==> segments(cs@) == r.deep_view() + segments_from(cs@, i as int),
            done ==> segments(cs@) == r.deep_view(),
        decreases n - i + (if done {
            0int
        } else {
            1int
        }),
    {
        let mut e: usize = i;
        while e < n && cs[e] != '/'
            invariant
                n == cs@.len(),
                i <= e <= n,
                seg_end(cs@, i as int) == seg_end(cs@, e as int),
            decreases n - e,
        {
            e = e + 1;
        }
        proof {
            assert(seg_end(cs@, e as int) == e);
            lemma_seg_end(cs@, i as int);
        }
        let mut seg: Vec<char> = Vec::new();
        let mut j: usize = i;
        while j < e
            invariant
                n == cs@.len(),
                i <= j <= e <= n,
                seg@ == cs@.subrange(i as int, j as int),
            decreases e - j,
        {
            seg.push(cs[j]);
            j = j + 1;
            proof {
                assert(seg@ =~= cs@.subrange(i as int, j as int));
            }
        }
        let ghost old_dv = r.deep_view();
        r.push(seg);
        proof {
            assert(r.deep_view() =~~= old_dv + seq![cs@.subrange(i as int, e as int)]);
            if e < n {
                assert(segments_from(cs@, i as int) == seq![cs@.subrange(i as int, e as int)]
                    + segments_from(cs@, e + 1));
                assert(segments(cs@) =~~= r.deep_view() + segments_from(cs@, e + 1));
            } else {
                assert(cs@.subrange(i as int, e as int) =~= cs@.subrange(i as int, n as int));
                assert(segments_from(cs@, i as int) == seq![cs@.subrange(i as int, n as int)]);
                assert(segments(cs@) =~~= r.deep_view());
            }
        }
        if e == n {
            done = true;
        } else {
            i = e + 1;
        }
    }
    r
}

impl DerivationPath {
    /// Resolve a path string. Fails, and says the path is bad, exactly when
    /// the string holds no segment or any segment is not a valid index.
    pub fn parse(s: &str) -> (r: Result<DerivationPath, SignerError>)
        ensures
            r is Ok <==> parse_path_spec(s@) is Some,
            r is Ok ==> r->Ok_0@ == parse_path_spec(s@)->Some_0,
            r is Err ==> r->Err_0 == SignerError::InvalidDerivationPath,
    {
        let cs = crate::hexcode::chars_of(s);
        let segs = split_slash(&cs);
        let ghost all = segments(s@);
        let first_is_m: bool = segs.len() > 0 && segs[0].len() == 1 && segs[0][0] == 'm';
        proof {
            if segs.deep_view().len() > 0 {
                assert(segs.deep_view()[0] =~= segs@[0]@);
                if first_is_m {
                    assert(all[0] =~= seq!['m']);
                } else if all[0].len() == 1 && all[0][0] == 'm' {
                    assert(all[0] =~= seq!['m']);
                    assert(first_is_m);
                }
            }
        }
        let start: usize = if first_is_m {
            1
        } else {
            0
        };
        let ghost rest = if first_is_m {
            all.drop_first()
        } else {
            all
        };
        proof {
            assert(rest =~= segs.deep_view().skip(start as int));
        }
        let n_segs = segs.len();
        if n_segs - start == 0 {
            proof {
                assert(rest.len() == 0);
                assert(parse_path_spec(s@) is None);
            }
            return Err(SignerError::InvalidDerivationPath);
        }
        proof {
            assert(parse_path_spec(s@) == parse_segments(rest));
        }
        let mut idxs: Vec<u32> = Vec::new();
        let mut j: usize = start;
        while j < n_segs
            invariant
                n_segs == segs.deep_view().len(),
                start <= j <= n_segs,
                rest == segs.deep_view().skip(start as int),
                parse_path_spec(s@) == parse_segments(rest),
                idxs@.len() == j - start,
                parse_segments(segs.deep_view().skip(j as int)) is Some ==> parse_segments(rest)
                    == Some(idxs@ + parse_segments(segs.deep_view().skip(j as int))->Some_0),
                parse_segments(segs.deep_view().skip(j as int)) is None ==> parse_segments(rest)
                    is None,
            decreases n_segs - j,
        {
            let ghost tail = segs.deep_view().skip(j as int);
            proof {
                assert(tail[0] == segs.deep_view()[j as int]);
                assert(segs.deep_view()[j as int] =~= segs@[j as int]@);
                assert(tail.drop_first() =~= segs.deep_view().skip(j + 1));
            }
            match parse_one_segment(&segs[j]) {
                Option::None => {
                    proof {
                        assert(parse_segments(tail) is None);
                    }
                    return Err(SignerError::InvalidDerivationPath);
                },
                Option::Some(v) => {
                    let ghost old_idxs = idxs@;
                    idxs.push(v);
                    proof {
                        if parse_segments(segs.deep_view().skip(j + 1)) is Some {
                            assert(old_idxs + parse_segments(tail)->Some_0 =~= idxs@
                                + parse_segments(segs.deep_view().skip(j + 1))->Some_0);
                        }
                    }
                },
            }
            j = j + 1;
        }
        proof {
            assert(segs.deep_view().skip(n_segs as int) =~= Seq::<Seq<char>>::empty());
            assert(parse_segments(rest) == Some(idxs@ + Seq::<u32>::empty()));
            assert(idxs@ + Seq::<u32>::empty() =~= idxs@);
        }
        Ok(DerivationPath { indices: idxs })
    }

    /// Build the fixed payment path from an account and a key index. Fails,
    /// and says the path is bad, exactly when either index has the hardening
    /// bit already set.
    pub fn from_indices(account_index: u32, key_index: u32) -> (r: Result<
        DerivationPath,
        SignerError,
    >)
        ensures
            r is Ok <==> account_index < 0x8000_0000 && key_index < 0x8000_0000,
            r is Ok ==> r->Ok_0@ == payment_path_spec(account_index, key_index),
            r is Err ==> r->Err_0 == SignerError::InvalidDerivationPath,
    {
        if account_index >= 0x8000_0000 || key_index >= 0x8000_0000 {
            return Err(SignerError::InvalidDerivationPath);
        }
        let indices: Vec<u32> = vec![
            PURPOSE + 0x8000_0000,
            COIN_TYPE + 0x8000_0000,
            account_index + 0x8000_0000,
            0,
            key_index,
        ];
        proof {
            assert(indices@ =~= payment_path_spec(account_index, key_index));
        }
        Ok(DerivationPath { indices })
    }

    /// How many levels the path has.
    pub fn len(&self) -> (r: usize)
        ensures
            r == self@.len(),
    {
        self.indices.len()
    }

    /// The index at one level.
    pub fn index_at(&self, i: usize) -> (r: u32)
        requires
            i < self@.len(),
        ensures
            r == self@[i as int],
    {
        self.indices[i]
    }
}

} // verus!

//! Byte-level parsers for the kernel-exposed per-process records:
//! whitespace-delimited token streams (stat, uptime) and line-oriented
//! `Label: value` tables (status). All parsers are total: malformed
//! input yields `None`, never a panic.

use vstd::prelude::*;

verus! {

/// ASCII whitespace as the kernel records use it.
pub open spec fn is_space(b: u8) -> bool {
    b == 32 || b == 9 || b == 10 || b == 13
}

/// ASCII decimal digit.
pub open spec fn is_digit(b: u8) -> bool {
    48 <= b && b <= 57
}

pub open spec fn all_digits(t: Seq<u8>) -> bool {
    forall|k: int| 0 <= k < t.len() ==> is_digit(#[trigger] t[k])
}

/// Length of the leading run of non-space bytes.
pub open spec fn token_run(s: Seq<u8>) -> nat
    decreases s.len(),
{
    if s.len() == 0 || is_space(s[0]) {
        0
    } else {
        (1 + token_run(s.skip(1))) as nat
    }
}

pub proof fn lemma_token_run_le(s: Seq<u8>)
    ensures
        token_run(s) <= s.len(),
    decreases s.len(),
{
    if s.len() != 0 && !is_space(s[0]) {
        lemma_token_run_le(s.skip(1));
    }
}

/// The whitespace-delimited tokens of a byte sequence, in order.
pub open spec fn tokens(s: Seq<u8>) -> Seq<Seq<u8>>
    decreases s.len(),
    via tokens_decreases
{
    if s.len() == 0 {
        Seq::empty()
    } else if is_space(s[0]) {
        tokens(s.skip(1))
    } else {
        seq![s.take(token_run(s) as int)] + tokens(s.skip(token_run(s) as int))
    }
}

#[via_fn]
proof fn tokens_decreases(s: Seq<u8>) {
    lemma_token_run_le(s);
}

/// The token at position `n`, if the stream has that many.
pub open spec fn nth_token(s: Seq<u8>, n: int) -> Option<Seq<u8>> {
    if 0 <= n < tokens(s).len() {
        Some(tokens(s)[n])
    } else {
        None
    }
}

/// Value of a digit string read in base ten.
pub open spec fn digits_val(t: Seq<u8>) -> nat
    decreases t.len(),
{
    if t.len() == 0 {
        0
    } else {
        digits_val(t.take(t.len() - 1)) * 10 + (t[t.len() - 1] - 48) as nat
    }
}

/// What parsing a token as an unsigned 64-bit decimal yields: the
/// value when the token is a non-empty digit string whose value fits,
/// `None` otherwise.
pub open spec fn u64_from_token(t: Seq<u8>) -> Option<u64> {
    if t.len() > 0 && all_digits(t) && digits_val(t) <= u64::MAX {
        Some(digits_val(t) as u64)
    } else {
        None
    }
}

proof fn lemma_digits_val_monotonic(t: Seq<u8>, k: int)
    requires
        0 <= k <= t.len(),
    ensures
        digits_val(t.take(k)) <= digits_val(t),
    decreases t.len() - k,
{
    if k < t.len() {
        lemma_digits_val_monotonic(t, k + 1);
        assert(t.take(k + 1).take(k) =~= t.take(k));
        assert(digits_val(t.take(k + 1)) == digits_val(t.take(k)) * 10 + (t[k] - 48) as nat);
    } else {
        assert(t.take(k) =~= t);
    }
}

/// Parse a whole byte string as an unsigned decimal number.
pub fn parse_u64_digits(t: &[u8]) -> (r: Option<u64>)
    ensures
        r == u64_from_token(t@),
{
    if t.len() == 0 {
        return None;
    }
    let mut acc: u64 = 0;
    let mut i: usize = 0;
    while i < t.len()
        invariant
            0 <= i <= t@.len(),
            t@.len() > 0,
            all_digits(t@.take(i as int)),
            acc == digits_val(t@.take(i as int)),
        decreases t@.len() - i,
    {
        let b = t[i];
        if b < 48 || b > 57 {
            assert(!is_digit(t@[i as int]));
            return None;
        }
        let d: u64 = (b - 48) as u64;
        let wide: u128 = acc as u128 * 10 + d as u128;
        proof {
            assert(t@.take(i + 1).take(i as int) =~= t@.take(i as int));
            assert(digits_val(t@.take(i + 1)) == digits_val(t@.take(i as int)) * 10 + (t@[i as int]
                - 48) as nat);
        }
        if wide > u64::MAX as u128 {
            proof {
                lemma_digits_val_monotonic(t@, i + 1);
            }
            return None;
        }
        acc = wide as u64;
        i = i + 1;
    }
    proof {
        assert(t@.take(i as int) =~= t@);
    }
    Some(acc)
}

/// Split a byte string into its whitespace-delimited tokens.
pub fn split_tokens(s: &[u8]) -> (r: Vec<Vec<u8>>)
    ensures
        r@.len() == tokens(s@).len(),
        forall|k: int| 0 <= k < r@.len() ==> #[trigger] r@[k]@ == tokens(s@)[k],
{
    let mut out: Vec<Vec<u8>> = Vec::new();
    let mut i: usize = 0;
    proof {
        assert(s@.skip(0) =~= s@);
        assert(views_of(out@) + tokens(s@) =~= tokens(s@));
    }
    while i < s.len()
        invariant
            0 <= i <= s@.len(),
            tokens(s@) == views_of(out@) + tokens(s@.skip(i as int)),
        decreases s@.len() - i,
    {
        if is_space_byte(s[i]) {
            proof {
                assert(s@.skip(i as int).skip(1) =~= s@.skip(i + 1));
            }
            i = i + 1;
        } else {
            let ghost run = token_run(s@.skip(i as int));
            // find the end of the token
            let mut j: usize = i;
            while j < s.len() && !is_space_byte(s[j])
                invariant
                    i <= j <= s@.len(),
                    token_run(s@.skip(i as int)) == (j - i) + token_run(s@.skip(j as int)),
                decreases s@.len() - j,
            {
                proof {
                    assert(s@.skip(j as int)[0] == s@[j as int]);
                    assert(s@.skip(j as int).skip(1) =~= s@.skip(j + 1));
                    assert(token_run(s@.skip(j as int)) == 1 + token_run(s@.skip(j + 1)));
                }
                j = j + 1;
            }
            proof {
                if j < s@.len() {
                    assert(s@.skip(j as int)[0] == s@[j as int]);
                }
                assert(token_run(s@.skip(j as int)) == 0);
                assert(run == j - i);
            }
            // copy the token
            let mut tok: Vec<u8> = Vec::new();
            let mut k: usize = i;
            while k < j
                invariant
                    i <= k <= j <= s@.len(),
                    tok@ == s@.subrange(i as int, k as int),
                decreases j - k,
            {
                tok.push(s[k]);
                proof {
                    assert(tok@ =~= s@.subrange(i as int, k + 1));
                }
                k = k + 1;
            }
            proof {
                assert(s@.skip(i as int).take(run as int) =~= s@.subrange(i as int, j as int));
                assert(s@.skip(i as int).skip(run as int) =~= s@.skip(j as int));
                assert(tokens(s@.skip(i as int)) == seq![tok@] + tokens(s@.skip(j as int)));
                let prev = out@;
                assert(views_of(prev.push(tok)) =~= views_of(prev) + seq![tok@]);
                assert(views_of(prev) + (seq![tok@] + tokens(s@.skip(j as int))) =~= (views_of(prev)
                    + seq![tok@]) + tokens(s@.skip(j as int)));
            }
            out.push(tok);
            i = j;
        }
    }
    proof {
        assert(s@.skip(i as int) =~= Seq::<u8>::empty());
        assert(tokens(s@) =~= views_of(out@));
        assert(forall|k: int|
            0 <= k < out@.len() ==> #[trigger] out@[k]@ == views_of(out@)[k]);
    }
    out
}

/// The views of a sequence of byte vectors.
pub open spec fn views_of(v: Seq<Vec<u8>>) -> Seq<Seq<u8>> {
    v.map_values(|x: Vec<u8>| x@)
}

/// Executable twin of `is_space`.
pub fn is_space_byte(b: u8) -> (r: bool)
    ensures
        r == is_space(b),
{
    b == 32 || b == 9 || b == 10 || b == 13
}

/// Length of the leading run of bytes other than a line feed.
pub open spec fn line_run(s: Seq<u8>) -> nat
    decreases s.len(),
{
    if s.len() == 0 || s[0] == 10 {
        0
    } else {
        (1 + line_run(s.skip(1))) as nat
    }
}

pub proof fn lemma_line_run_le(s: Seq<u8>)
    ensures
        line_run(s) <= s.len(),
    decreases s.len(),
{
    if s.len() != 0 && s[0] != 10 {
        lemma_line_run_le(s.skip(1));
    }
}

/// The lines of a byte sequence: maximal runs split at line feeds,
/// a trailing line feed terminating the last line rather than
/// opening an empty one.
pub open spec fn lines(s: Seq<u8>) -> Seq<Seq<u8>>
    decreases s.len(),
    via lines_decreases
{
    if s.len() == 0 {
        Seq::empty()
    } else {
        let l = line_run(s) as int;
        if l == s.len() {
            seq![s]
        } else {
            seq![s.take(l)] + lines(s.skip(l + 1))
        }
    }
}

#[via_fn]
proof fn lines_decreases(s: Seq<u8>) {
    lemma_line_run_le(s);
}

/// Split a byte string into its lines.
pub fn split_lines(s: &[u8]) -> (r: Vec<Vec<u8>>)
    ensures
        r@.len() == lines(s@).len(),
        forall|k: int| 0 <= k < r@.len() ==> #[trigger] r@[k]@ == lines(s@)[k],
{
    let mut out: Vec<Vec<u8>> = Vec::new();
    let mut i: usize = 0;
    proof {
        assert(s@.skip(0) =~= s@);
        assert(views_of(out@) + lines(s@) =~= lines(s@));
    }
    while i < s.len()
        invariant
            0 <= i <= s@.len(),
            lines(s@) == views_of(out@) + lines(s@.skip(i as int)),
        decreases s@.len() - i,
    {
        let ghost run = line_run(s@.skip(i as int));
        // find the end of the line
        let mut j: usize = i;
        while j < s.len() && s[j] != 10
            invariant
                i <= j <= s@.len(),
                line_run(s@.skip(i as int)) == (j - i) + line_run(s@.skip(j as int)),
            decreases s@.len() - j,
        {
            proof {
                assert(s@.skip(j as int)[0] == s@[j as int]);
                assert(s@.skip(j as int).skip(1) =~= s@.skip(j + 1));
                assert(line_run(s@.skip(j as int)) == 1 + line_run(s@.skip(j + 1)));
            }
            j = j + 1;
        }
        proof {
            if j < s@.len() {
                assert(s@.skip(j as int)[0] == s@[j as int]);
            }
            assert(line_run(s@.skip(j as int)) == 0);
            assert(run == j - i);
        }
        // copy the line
        let mut line: Vec<u8> = Vec::new();
        let mut k: usize = i;
        while k < j
            invariant
                i <= k <= j <= s@.len(),
                line@ == s@.subrange(i as int, k as int),
            decreases j - k,
        {
            line.push(s[k]);
            proof {
                assert(line@ =~= s@.subrange(i as int, k + 1));
            }
            k = k + 1;
        }
        proof {
            let tail = s@.skip(i as int);
            let prev = out@;
            assert(views_of(prev.push(line)) =~= views_of(prev) + seq![line@]);
            if j == s.len() {
                // final, unterminated line
                assert(run == tail.len());
                assert(tail =~= s@.subrange(i as int, j as int));
                assert(line@ == tail);
                assert(lines(tail) == seq![line@]);
                assert(views_of(prev) + seq![line@] =~= views_of(prev.push(line)));
                assert(s@.skip(j as int) =~= Seq::<u8>::empty());
            } else {
                assert(run < tail.len());
                assert(tail.take(run as int) =~= s@.subrange(i as int, j as int));
                assert(tail.skip(run as int + 1) =~= s@.skip(j + 1));
                assert(lines(tail) == seq![line@] + lines(s@.skip(j + 1)));
                assert(views_of(prev) + (seq![line@] + lines(s@.skip(j + 1))) =~= (views_of(prev)
                    + seq![line@]) + lines(s@.skip(j + 1)));
            }
        }
        out.push(line);
        if j == s.len() {
            i = j;
        } else {
            i = j + 1;
        }
    }
    proof {
        assert(s@.skip(i as int) =~= Seq::<u8>::empty());
        assert(lines(s@) =~= views_of(out@));
    }
    out
}

/// Whether `p` is a prefix of `s`.
pub open spec fn has_prefix(s: Seq<u8>, p: Seq<u8>) -> bool {
    p.len() <= s.len() && s.take(p.len() as int) == p
}

/// Executable prefix test.
pub fn starts_with(s: &[u8], p: &[u8]) -> (r: bool)
    ensures
        r == has_prefix(s@, p@),
{
    if p.len() > s.len() {
        assert(!has_prefix(s@, p@));
        return false;
    }
    let mut k: usize = 0;
    while k < p.len()
        invariant
            0 <= k <= p@.len() <= s@.len(),
            forall|m: int| 0 <= m < k ==> s@[m] == p@[m],
        decreases p@.len() - k,
    {
        if s[k] != p[k] {
            assert(s@.take(p@.len() as int)[k as int] != p@[k as int]);
            return false;
        }
        k = k + 1;
    }
    proof {
        assert(s@.take(p@.len() as int) =~= p@);
    }
    true
}

/// The first of the lines that begins with `label`, if any.
pub open spec fn first_labeled(ls: Seq<Seq<u8>>, label: Seq<u8>) -> Option<Seq<u8>>
    decreases ls.len(),
{
    if ls.len() == 0 {
        None
    } else if has_prefix(ls[0], label) {
        Some(ls[0])
    } else {
        first_labeled(ls.skip(1), label)
    }
}

/// The number on the line that begins with `label`: the second
/// whitespace-delimited token of the first such line, read as a
/// decimal.
pub open spec fn labeled_u64(s: Seq<u8>, label: Seq<u8>) -> Option<u64> {
    match first_labeled(lines(s), label) {
        Option::None => None,
        Option::Some(line) => match nth_token(line, 1) {
            Option::None => None,
            Option::Some(t) => u64_from_token(t),
        },
    }
}

/// Find the first line starting with `label` and parse its second
/// token as a decimal number.
pub fn find_labeled_u64(s: &[u8], label: &[u8]) -> (r: Option<u64>)
    ensures
        r == labeled_u64(s@, label@),
{
    let ls = split_lines(s);
    let mut k: usize = 0;
    proof {
        assert(lines(s@).skip(0) =~= lines(s@));
    }
    while k < ls.len()
        invariant
            0 <= k <= ls@.len(),
            ls@.len() == lines(s@).len(),
            forall|m: int| 0 <= m < ls@.len() ==> #[trigger] ls@[m]@ == lines(s@)[m],
            first_labeled(lines(s@), label@) == first_labeled(lines(s@).skip(k as int), label@),
        decreases ls@.len() - k,
    {
        let hit = starts_with(ls[k].as_slice(), label);
        proof {
            assert(lines(s@).skip(k as int)[0] == lines(s@)[k as int]);
        }
        if hit {
            let toks = split_tokens(ls[k].as_slice());
            assert(first_labeled(lines(s@), label@) == Some(lines(s@)[k as int]));
            if toks.len() <= 1 {
                return None;
            }
            return parse_u64_digits(toks[1].as_slice());
        }
        proof {
            assert(lines(s@).skip(k as int).skip(1) =~= lines(s@).skip(k + 1));
        }
        k = k + 1;
    }
    proof {
        assert(lines(s@).skip(k as int) =~= Seq::<Seq<u8>>::empty());
    }
    None
}

/// The label `VmRSS:` as bytes.
pub open spec fn vmrss_label() -> Seq<u8> {
    seq![86u8, 109u8, 82u8, 83u8, 83u8, 58u8]
}

/// The label `Uid:` as bytes.
pub open spec fn uid_label() -> Seq<u8> {
    seq![85u8, 105u8, 100u8, 58u8]
}

/// The label `Threads:` as bytes.
pub open spec fn threads_label() -> Seq<u8> {
    seq![84u8, 104u8, 114u8, 101u8, 97u8, 100u8, 115u8, 58u8]
}

fn vmrss_label_vec() -> (v: Vec<u8>)
    ensures
        v@ == vmrss_label(),
{
    let mut v: Vec<u8> = Vec::new();
    v.push(86);
    v.push(109);
    v.push(82);
    v.push(83);
    v.push(83);
    v.push(58);
    proof {
        assert(v@ =~= vmrss_label());
    }
    v
}

fn uid_label_vec() -> (v: Vec<u8>)
    ensures
        v@ == uid_label(),
{
    let mut v: Vec<u8> = Vec::new();
    v.push(85);
    v.push(105);
    v.push(100);
    v.push(58);
    proof {
        assert(v@ =~= uid_label());
    }
    v
}

fn threads_label_vec() -> (v: Vec<u8>)
    ensures
        v@ == threads_label(),
{
    let mut v: Vec<u8> = Vec::new();
    v.push(84);
    v.push(104);
    v.push(114);
    v.push(101);
    v.push(97);
    v.push(100);
    v.push(115);
    v.push(58);
    proof {
        assert(v@ =~= threads_label());
    }
    v
}

/// Cumulative CPU time of a stat record: the sum of the user-mode
/// tick field (token 13) and the kernel-mode tick field (token 14),
/// when both are present, numeric and the sum fits.
pub open spec fn stat_ticks(s: Seq<u8>) -> Option<u64> {
    match (nth_token(s, 13), nth_token(s, 14)) {
        (Option::Some(ut), Option::Some(st)) => match (u64_from_token(ut), u64_from_token(st)) {
            (Option::Some(u), Option::Some(k)) => if u + k <= u64::MAX {
                Some((u + k) as u64)
            } else {
                None
            },
            _ => None,
        },
        _ => None,
    }
}

/// Parse a stat record into its cumulative CPU tick count.
pub fn parse_stat(s: &[u8]) -> (r: Option<u64>)
    ensures
        r == stat_ticks(s@),
{
    let toks = split_tokens(s);
    if toks.len() <= 14 {
        return None;
    }
    let u = match parse_u64_digits(toks[13].as_slice()) {
        Some(v) => v,
        None => {
            return None;
        },
    };
    let k = match parse_u64_digits(toks[14].as_slice()) {
        Some(v) => v,
        None => {
            return None;
        },
    };
    if u as u128 + k as u128 > u64::MAX as u128 {
        return None;
    }
    Some(u + k)
}

/// The three fields read from a status record.
pub struct StatusFields {
    /// Resident memory in kibibytes (`VmRSS:`).
    pub vm_rss: u64,
    /// Effective owner id: first value after `Uid:`.
    pub uid: u32,
    /// Thread count (`Threads:`).
    pub threads: u32,
}

/// What parsing a status record yields: all three labelled values,
/// each present, numeric, and within its field's range.
pub open spec fn status_fields(s: Seq<u8>) -> Option<StatusFields> {
    match (labeled_u64(s, vmrss_label()), labeled_u64(s, uid_label()), labeled_u64(
        s,
        threads_label(),
    )) {
        (Option::Some(rss), Option::Some(uid), Option::Some(th)) => if uid <= u32::MAX && th
            <= u32::MAX {
            Some(StatusFields { vm_rss: rss, uid: uid as u32, threads: th as u32 })
        } else {
            None
        },
        _ => None,
    }
}

/// Parse a status record into resident memory, owner id and thread
/// count.
pub fn parse_status(s: &[u8]) -> (r: Option<StatusFields>)
    ensures
        r == status_fields(s@),
{
    let rss_label = vmrss_label_vec();
    let rss = match find_labeled_u64(s, rss_label.as_slice()) {
        Some(v) => v,
        None => {
            return None;
        },
    };
    let u_label = uid_label_vec();
    let uid = match find_labeled_u64(s, u_label.as_slice()) {
        Some(v) => v,
        None => {
            return None;
        },
    };
    let t_label = threads_label_vec();
    let th = match find_labeled_u64(s, t_label.as_slice()) {
        Some(v) => v,
        None => {
            return None;
        },
    };
    if uid > u32::MAX as u64 || th > u32::MAX as u64 {
        return None;
    }
    Some(StatusFields { vm_rss: rss, uid: uid as u32, threads: th as u32 })
}

/// Length of the leading run of bytes other than an ASCII dot.
pub open spec fn dot_run(s: Seq<u8>) -> nat
    decreases s.len(),
{
    if s.len() == 0 || s[0] == 46 {
        0
    } else {
        (1 + dot_run(s.skip(1))) as nat
    }
}

pub proof fn lemma_dot_run_le(s: Seq<u8>)
    ensures
        dot_run(s) <= s.len(),
    decreases s.len(),
{
    if s.len() != 0 && s[0] != 46 {
        lemma_dot_run_le(s.skip(1));
    }
}

/// Hundredths encoded by a fractional digit string: the first two
/// digits, short strings padded with zeros.
pub open spec fn frac_hundredths(f: Seq<u8>) -> nat {
    ((if f.len() >= 1 {
        (f[0] - 48) * 10
    } else {
        0
    }) + (if f.len() >= 2 {
        (f[1] - 48) as int
    } else {
        0
    })) as nat
}

/// What parsing a decimal-seconds token as centiseconds yields: the
/// integer part times one hundred plus the first two fractional
/// digits, when the token is well formed and the value fits.
pub open spec fn token_centis(t: Seq<u8>) -> Option<u64> {
    let d = dot_run(t) as int;
    let ip = t.take(d);
    let fp = if d == t.len() {
        Seq::<u8>::empty()
    } else {
        t.skip(d + 1)
    };
    if ip.len() > 0 && all_digits(ip) && all_digits(fp) && digits_val(ip) * 100 + frac_hundredths(
        fp,
    ) <= u64::MAX {
        Some((digits_val(ip) * 100 + frac_hundredths(fp)) as u64)
    } else {
        None
    }
}

/// System uptime in centiseconds: the first token of the uptime
/// record read as decimal seconds.
pub open spec fn uptime_centis(s: Seq<u8>) -> Option<u64> {
    match nth_token(s, 0) {
        Option::None => None,
        Option::Some(t) => token_centis(t),
    }
}

/// Parse the uptime record into whole centiseconds since boot.
#[verifier::loop_isolation(false)]
pub fn parse_uptime_cs(s: &[u8]) -> (r: Option<u64>)
    ensures
        r == uptime_centis(s@),
{
    let toks = split_tokens(s);
    if toks.len() == 0 {
        return None;
    }
    let t = toks[0].as_slice();
    let ghost tv = t@;
    // find the dot
    let mut d: usize = 0;
    proof {
        assert(tv.skip(0) =~= tv);
    }
    while d < t.len() && t[d] != 46
        invariant
            0 <= d <= tv.len(),
            tv == t@,
            dot_run(tv) == d + dot_run(tv.skip(d as int)),
        decreases tv.len() - d,
    {
        proof {
            assert(tv.skip(d as int)[0] == tv[d as int]);
            assert(tv.skip(d as int).skip(1) =~= tv.skip(d + 1));
            assert(dot_run(tv.skip(d as int)) == 1 + dot_run(tv.skip(d + 1)));
        }
        d = d + 1;
    }
    proof {
        if d < tv.len() {
            assert(tv.skip(d as int)[0] == tv[d as int]);
        }
        assert(dot_run(tv.skip(d as int)) == 0);
        assert(dot_run(tv) == d);
    }
    if d == 0 {
        // empty integer part
        assert(tv.take(0).len() == 0);
        return None;
    }
    // integer part
    let mut ipv: Vec<u8> = Vec::new();
    let mut k: usize = 0;
    while k < d
        invariant
            0 <= k <= d <= tv.len(),
            tv == t@,
            ipv@ == tv.subrange(0, k as int),
        decreases d - k,
    {
        ipv.push(t[k]);
        proof {
            assert(ipv@ =~= tv.subrange(0, k + 1));
        }
        k = k + 1;
    }
    proof {
        assert(ipv@ =~= tv.take(d as int));
    }
    let ip = match parse_u64_digits(ipv.as_slice()) {
        Some(v) => v,
        None => {
            return None;
        },
    };
    // fractional part
    let mut fpv: Vec<u8> = Vec::new();
    if d < t.len() {
        let mut m: usize = d + 1;
        while m < t.len()
            invariant
                d + 1 <= m <= tv.len(),
                tv == t@,
                fpv@ == tv.subrange(d + 1, m as int),
            decreases tv.len() - m,
        {
            fpv.push(t[m]);
            proof {
                assert(fpv@ =~= tv.subrange(d + 1, m + 1));
            }
            m = m + 1;
        }
        proof {
            assert(fpv@ =~= tv.skip(d + 1));
        }
    } else {
        proof {
            assert(fpv@ =~= Seq::<u8>::empty());
        }
    }
    // every fractional byte must be a digit; the first two carry the
    // centisecond value
    let mut m: usize = 0;
    while m < fpv.len()
        invariant
            0 <= m <= fpv@.len(),
            forall|q: int| 0 <= q < m ==> is_digit(#[trigger] fpv@[q]),
        decreases fpv@.len() - m,
    {
        let b = fpv.as_slice()[m];
        if b < 48 || b > 57 {
            assert(!is_digit(fpv@[m as int]));
            return None;
        }
        m = m + 1;
    }
    assert(all_digits(fpv@));
    let mut hundredths: u64 = 0;
    if fpv.len() >= 1 {
        hundredths = (fpv.as_slice()[0] - 48) as u64 * 10;
    }
    if fpv.len() >= 2 {
        hundredths = hundredths + (fpv.as_slice()[1] - 48) as u64;
    }
    assert(frac_hundredths(fpv@) == hundredths);
    let wide: u128 = ip as u128 * 100 + hundredths as u128;
    if wide <= u64::MAX as u128 {
        return Some(wide as u64);
    }
    None
}

/// The byte string with ASCII whitespace removed from both ends:
/// first the trailing run, then the leading run of what remains.
pub open spec fn rtrim_len(s: Seq<u8>) -> nat
    decreases s.len(),
{
    if s.len() == 0 || !is_space(s.last()) {
        s.len()
    } else {
        rtrim_len(s.drop_last())
    }
}

pub open spec fn ltrim_start(s: Seq<u8>) -> nat
    decreases s.len(),
{
    if s.len() == 0 || !is_space(s[0]) {
        0
    } else {
        (1 + ltrim_start(s.skip(1))) as nat
    }
}

pub open spec fn trim_spec(s: Seq<u8>) -> Seq<u8> {
    let r = s.take(rtrim_len(s) as int);
    r.skip(ltrim_start(r) as int)
}

proof fn lemma_rtrim_le(s: Seq<u8>)
    ensures
        rtrim_len(s) <= s.len(),
    decreases s.len(),
{
    if s.len() != 0 && is_space(s.last()) {
        lemma_rtrim_le(s.drop_last());
    }
}

proof fn lemma_ltrim_le(s: Seq<u8>)
    ensures
        ltrim_start(s) <= s.len(),
    decreases s.len(),
{
    if s.len() != 0 && is_space(s[0]) {
        lemma_ltrim_le(s.skip(1));
    }
}

/// Strip ASCII whitespace from both ends of a byte string.
pub fn trim_bytes(s: &[u8]) -> (r: Vec<u8>)
    ensures
        r@ == trim_spec(s@),
{
    // trailing whitespace
    let mut e: usize = s.len();
    proof {
        assert(s@.take(s@.len() as int) =~= s@);
    }
    while e > 0 && is_space_byte(s[e - 1])
        invariant
            0 <= e <= s@.len(),
            rtrim_len(s@) == rtrim_len(s@.take(e as int)),
        decreases e,
    {
        proof {
            let cur = s@.take(e as int);
            assert(cur.last() == s@[e - 1]);
            assert(cur.drop_last() =~= s@.take(e - 1));
        }
        e = e - 1;
    }
    proof {
        let cur = s@.take(e as int);
        if e > 0 {
            assert(cur.last() == s@[e - 1]);
        }
        assert(rtrim_len(cur) == cur.len());
        assert(rtrim_len(s@) == e);
    }
    let ghost kept = s@.take(e as int);
    // leading whitespace
    let mut b: usize = 0;
    proof {
        assert(kept.skip(0) =~= kept);
    }
    while b < e && is_space_byte(s[b])
        invariant
            0 <= b <= e <= s@.len(),
            kept == s@.take(e as int),
            ltrim_start(kept) == b + ltrim_start(kept.skip(b as int)),
        decreases e - b,
    {
        proof {
            assert(kept.skip(b as int)[0] == s@[b as int]);
            assert(kept.skip(b as int).skip(1) =~= kept.skip(b + 1));
            assert(ltrim_start(kept.skip(b as int)) == 1 + ltrim_start(kept.skip(b + 1)));
        }
        b = b + 1;
    }
    proof {
        if b < e {
            assert(kept.skip(b as int)[0] == s@[b as int]);
        }
        assert(ltrim_start(kept.skip(b as int)) == 0);
        assert(ltrim_start(kept) == b);
    }
    let mut out: Vec<u8> = Vec::new();
    let mut k: usize = b;
    while k < e
        invariant
            b <= k <= e <= s@.len(),
            out@ == s@.subrange(b as int, k as int),
        decreases e - k,
    {
        out.push(s[k]);
        proof {
            assert(out@ =~= s@.subrange(b as int, k + 1));
        }
        k = k + 1;
    }
    proof {
        assert(out@ =~= kept.skip(b as int));
    }
    out
}

} // verus!

//! The textual log format: one header line naming the fields of the
//! active capability set, then one line per record, fields separated by
//! single spaces, each line ended by a newline. Counters are decimal;
//! a rate is written `amount/time`, its two exact components. Parsing is
//! the exact inverse of rendering, which is proved below.

use vstd::prelude::*;
use vstd::string::StringSliceAdditionalSpecFns;
use vstd::string::StrSliceExecFns;
use vstd::slice::slice_index_get;
use vstd::slice::slice_subrange;
use crate::record::{Capabilities, HeartbeatRecord, Rate, Rates, Sample};
use crate::monitor::{Heartbeat, base_of, slot_of, spec_record};

verus! {

/// A log token: nonempty, and free of the separator and line terminator.
pub open spec fn is_token(t: Seq<u8>) -> bool {
    &&& t.len() > 0
    &&& forall|i: int| 0 <= i < t.len() ==> t[i] != 32 && t[i] != 10
}

/// An ASCII decimal digit.
pub open spec fn is_digit(b: u8) -> bool {
    48 <= b <= 57
}

/// The decimal rendering of a number, most significant digit first.
pub open spec fn dec(n: nat) -> Seq<u8>
    decreases n,
{
    if n < 10 {
        seq![(48 + n) as u8]
    } else {
        dec(n / 10).push((48 + n % 10) as u8)
    }
}

/// The number a run of digit bytes denotes.
pub open spec fn val(t: Seq<u8>) -> int
    decreases t.len(),
{
    if t.len() == 0 {
        0
    } else {
        val(t.drop_last()) * 10 + (t.last() - 48)
    }
}

/// Every byte is a decimal digit.
pub open spec fn all_digits(t: Seq<u8>) -> bool {
    forall|i: int| 0 <= i < t.len() ==> is_digit(#[trigger] t[i])
}

/// The canonical decimal token of a `u64`: nonempty, digits only, no
/// leading zero, value in range. Exactly the strings `dec` produces.
pub open spec fn is_canon_u64(t: Seq<u8>) -> bool {
    &&& t.len() > 0
    &&& all_digits(t)
    &&& (t.len() > 1 ==> t[0] != 48)
    &&& val(t) <= u64::MAX
}

/// What parsing a counter token yields.
pub open spec fn spec_parse_u64(t: Seq<u8>) -> Option<u64> {
    if is_canon_u64(t) {
        Some(val(t) as u64)
    } else {
        None
    }
}

/// A digit string denotes a nonnegative number.
proof fn lemma_val_nonneg(t: Seq<u8>)
    requires
        all_digits(t),
    ensures
        val(t) >= 0,
    decreases t.len(),
{
    if t.len() > 0 {
        assert(all_digits(t.drop_last()));
        lemma_val_nonneg(t.drop_last());
    }
}

/// One more digit extends the denoted value.
proof fn lemma_val_step(t: Seq<u8>, k: int)
    requires
        0 <= k < t.len(),
    ensures
        val(t.take(k + 1)) == val(t.take(k)) * 10 + (t[k] - 48),
{
    assert(t.take(k + 1).drop_last() =~= t.take(k));
    assert(t.take(k + 1).last() == t[k]);
}

/// The value of a digit string only grows as more digits are read.
proof fn lemma_val_mono(t: Seq<u8>, k: int)
    requires
        all_digits(t),
        0 <= k <= t.len(),
    ensures
        val(t.take(k)) <= val(t),
    decreases t.len() - k,
{
    if k == t.len() {
        assert(t.take(k) =~= t);
    } else {
        lemma_val_step(t, k);
        assert(all_digits(t.take(k)));
        lemma_val_nonneg(t.take(k));
        lemma_val_mono(t, k + 1);
    }
}

/// `dec` produces exactly the canonical token of its argument, and `val`
/// reads the number back.
pub proof fn lemma_dec_wf(n: nat)
    ensures
        dec(n).len() > 0,
        all_digits(dec(n)),
        dec(n).len() > 1 ==> dec(n)[0] != 48,
        n >= 10 ==> dec(n).len() > 1,
        val(dec(n)) == n,
    decreases n,
{
    if n < 10 {
        let t = dec(n);
        assert(t.drop_last() =~= Seq::<u8>::empty());
        assert(val(Seq::<u8>::empty()) == 0);
        assert(val(t) == t.last() - 48);
    } else {
        lemma_dec_wf(n / 10);
        vstd::arithmetic::div_mod::lemma_fundamental_div_mod(n as int, 10);
        vstd::arithmetic::div_mod::lemma_div_is_ordered(10, n as int, 10);
        assert(dec(n)[0] == dec(n / 10)[0]);
        if n / 10 < 10 {
            assert(dec(n / 10)[0] == (48 + n / 10) as u8);
        }
        assert(dec(n).drop_last() =~= dec(n / 10));
    }
}

/// Parsing a rendered counter gives the counter back.
pub proof fn lemma_parse_dec(n: u64)
    ensures
        spec_parse_u64(dec(n as nat)) == Some(n),
{
    lemma_dec_wf(n as nat);
}

/// The bytes of an ASCII field name.
pub open spec fn name_bytes(s: &str) -> Seq<u8> {
    Seq::new(s@.len(), |i: int| s@[i] as u8)
}

/// A field name as a token: its ASCII bytes.
fn name_token(s: &str) -> (r: Vec<u8>)
    requires
        s.is_ascii(),
        s@.len() > 0,
        forall|i: int| 0 <= i < s@.len() ==> s@[i] != ' ' && s@[i] != '\n',
    ensures
        r@ == name_bytes(s),
        is_token(r@),
{
    proof {
        vstd::string::is_ascii_spec_bytes(s);
        assert(s.spec_bytes() =~= name_bytes(s));
    }
    s.as_bytes_vec()
}

/// Render a counter as its decimal token.
pub fn fmt_u64(n: u64) -> (r: Vec<u8>)
    ensures
        r@ == dec(n as nat),
    decreases n,
{
    if n < 10 {
        let mut v: Vec<u8> = Vec::new();
        v.push(48 + (n as u8));
        proof {
            assert(v@ =~= dec(n as nat));
        }
        v
    } else {
        let mut v = fmt_u64(n / 10);
        v.push(48 + ((n % 10) as u8));
        proof {
            assert(v@ =~= dec(n as nat));
        }
        v
    }
}

/// Parse a counter token: succeeds exactly on canonical decimal tokens
/// whose value fits, and then returns that value.
pub fn parse_u64(t: &[u8]) -> (r: Option<u64>)
    ensures
        r == spec_parse_u64(t@),
{
    let n = t.len();
    if n == 0 {
        return None;
    }
    if n > 1 && *slice_index_get(t, 0) == 48 {
        return None;
    }
    let mut acc: u64 = 0;
    let mut i: usize = 0;
    while i < n
        invariant
            n == t@.len(),
            0 <= i <= n,
            forall|j: int| 0 <= j < i ==> is_digit(#[trigger] t@[j]),
            acc == val(t@.take(i as int)),
        decreases n - i,
    {
        let b = *slice_index_get(t, i);
        if b < 48 || b > 57 {
            assert(!is_digit(t@[i as int]));
            return None;
        }
        let d = (b - 48) as u64;
        proof {
            lemma_val_step(t@, i as int);
        }
        // acc * 10 + d overflows iff acc > u64::MAX / 10, or acc equals it
        // and d exceeds the last digit of u64::MAX
        if acc > 1844674407370955161 || (acc == 1844674407370955161 && d > 5) {
            proof {
                if all_digits(t@) {
                    lemma_val_mono(t@, i as int + 1);
                }
            }
            return None;
        }
        acc = acc * 10 + d;
        i = i + 1;
    }
    proof {
        assert(t@.take(n as int) =~= t@);
    }
    Some(acc)
}

/// A rate's token: its amount and its elapsed time, both decimal, with a
/// slash between them.
pub open spec fn rate_tok(r: Rate) -> Seq<u8> {
    dec(r.amount as nat) + seq![47u8] + dec(r.time as nat)
}

/// Position of the first slash, `-1` if there is none.
pub open spec fn first_slash(t: Seq<u8>) -> int
    decreases t.len(),
{
    if t.len() == 0 {
        -1
    } else if t[0] == 47 {
        0
    } else {
        let r = first_slash(t.drop_first());
        if r < 0 {
            -1
        } else {
            r + 1
        }
    }
}

/// What parsing a rate token yields: the two counters around the first
/// slash, if both are canonical.
pub open spec fn spec_parse_rate(t: Seq<u8>) -> Option<Rate> {
    let i = first_slash(t);
    if i < 0 {
        None
    } else {
        match (spec_parse_u64(t.take(i)), spec_parse_u64(t.skip(i + 1))) {
            (Some(a), Some(b)) => Some(Rate { amount: a, time: b }),
            _ => None,
        }
    }
}

proof fn lemma_first_slash_at(t: Seq<u8>, i: int)
    requires
        0 <= i < t.len(),
        t[i] == 47,
        forall|j: int| 0 <= j < i ==> t[j] != 47,
    ensures
        first_slash(t) == i,
    decreases i,
{
    if i > 0 {
        lemma_first_slash_at(t.drop_first(), i - 1);
    }
}

proof fn lemma_first_slash_none(t: Seq<u8>)
    requires
        forall|j: int| 0 <= j < t.len() ==> t[j] != 47,
    ensures
        first_slash(t) == -1,
    decreases t.len(),
{
    if t.len() > 0 {
        lemma_first_slash_none(t.drop_first());
    }
}

/// Parsing a rendered rate gives the rate back, and the token is a valid
/// log token.
pub proof fn lemma_parse_rate_tok(r: Rate)
    ensures
        spec_parse_rate(rate_tok(r)) == Some(r),
        is_token(rate_tok(r)),
{
    let a = dec(r.amount as nat);
    let b = dec(r.time as nat);
    let t = rate_tok(r);
    lemma_dec_wf(r.amount as nat);
    lemma_dec_wf(r.time as nat);
    assert(forall|j: int| 0 <= j < a.len() ==> t[j] == a[j]);
    assert(t[a.len() as int] == 47);
    lemma_first_slash_at(t, a.len() as int);
    assert(t.take(a.len() as int) =~= a);
    assert(t.skip(a.len() as int + 1) =~= b);
    lemma_parse_dec(r.amount);
    lemma_parse_dec(r.time);
}

/// Render a rate as its token.
pub fn fmt_rate(r: &Rate) -> (out: Vec<u8>)
    ensures
        out@ == rate_tok(*r),
{
    let mut v = fmt_u64(r.amount);
    v.push(47);
    let mut b = fmt_u64(r.time);
    v.append(&mut b);
    proof {
        assert(v@ =~= rate_tok(*r));
    }
    v
}

/// Parse a rate token: succeeds exactly on rendered rates.
pub fn parse_rate(t: &[u8]) -> (r: Option<Rate>)
    ensures
        r == spec_parse_rate(t@),
{
    let n = t.len();
    let mut i: usize = 0;
    while i < n && *slice_index_get(t, i) != 47
        invariant
            n == t@.len(),
            0 <= i <= n,
            forall|j: int| 0 <= j < i ==> t@[j] != 47,
        decreases n - i,
    {
        i = i + 1;
    }
    if i == n {
        proof {
            lemma_first_slash_none(t@);
        }
        return None;
    }
    proof {
        lemma_first_slash_at(t@, i as int);
    }
    let left = slice_subrange(t, 0, i);
    let right = slice_subrange(t, i + 1, n);
    proof {
        assert(left@ =~= t@.take(i as int));
        assert(right@ =~= t@.skip(i as int + 1));
    }
    match (parse_u64(left), parse_u64(right)) {
        (Some(a), Some(b)) => Some(Rate { amount: a, time: b }),
        _ => None,
    }
}

/// No separator byte anywhere.
pub open spec fn sep_free(t: Seq<u8>) -> bool {
    forall|i: int| 0 <= i < t.len() ==> t[i] != 32
}

/// No line terminator anywhere.
pub open spec fn nl_free(t: Seq<u8>) -> bool {
    forall|i: int| 0 <= i < t.len() ==> t[i] != 10
}

/// Tokens joined by single spaces.
pub open spec fn join(ts: Seq<Seq<u8>>) -> Seq<u8>
    decreases ts.len(),
{
    if ts.len() == 0 {
        Seq::empty()
    } else if ts.len() == 1 {
        ts[0]
    } else {
        ts[0] + seq![32u8] + join(ts.drop_first())
    }
}

/// A whole log line: its tokens joined, plus the terminator.
pub open spec fn line_of(ts: Seq<Seq<u8>>) -> Seq<u8> {
    join(ts) + seq![10u8]
}

/// Split on every separator byte; the pieces between (and around) the
/// separators, in order. Total: every byte string splits.
pub open spec fn spec_split(s: Seq<u8>) -> Seq<Seq<u8>>
    decreases s.len(),
{
    if s.len() == 0 {
        seq![Seq::<u8>::empty()]
    } else if s[0] == 32 {
        seq![Seq::<u8>::empty()] + spec_split(s.drop_first())
    } else {
        let r = spec_split(s.drop_first());
        seq![seq![s[0]] + r[0]] + r.drop_first()
    }
}

proof fn lemma_split_len(s: Seq<u8>)
    ensures
        spec_split(s).len() >= 1,
    decreases s.len(),
{
    if s.len() > 0 {
        lemma_split_len(s.drop_first());
    }
}

proof fn lemma_split_single(t: Seq<u8>)
    requires
        sep_free(t),
    ensures
        spec_split(t) == seq![t],
    decreases t.len(),
{
    if t.len() == 0 {
        assert(t =~= Seq::<u8>::empty());
        assert(spec_split(t) =~~= seq![t]);
    } else {
        assert(sep_free(t.drop_first()));
        lemma_split_single(t.drop_first());
        assert(seq![t[0]] + t.drop_first() =~= t);
        assert(spec_split(t) =~~= seq![t]);
    }
}

/// Splitting undoes joining: tokens free of the separator come back from
/// the joined line exactly as they went in.
pub proof fn lemma_split_join(ts: Seq<Seq<u8>>)
    requires
        ts.len() >= 1,
        forall|k: int| 0 <= k < ts.len() ==> sep_free(#[trigger] ts[k]),
    ensures
        spec_split(join(ts)) == ts,
    decreases ts.len(), ts[0].len(),
{
    if ts.len() == 1 {
        lemma_split_single(ts[0]);
        assert(spec_split(join(ts)) =~~= ts);
    } else if ts[0].len() == 0 {
        lemma_split_join(ts.drop_first());
        let s = join(ts);
        assert(s == ts[0] + seq![32u8] + join(ts.drop_first()));
        assert(s[0] == 32);
        assert(s.drop_first() =~= join(ts.drop_first()));
        assert(spec_split(s) =~~= ts);
    } else {
        let ts2 = ts.update(0, ts[0].drop_first());
        assert(forall|k: int| 0 <= k < ts2.len() ==> sep_free(#[trigger] ts2[k]));
        lemma_split_join(ts2);
        let s = join(ts);
        assert(s == ts[0] + seq![32u8] + join(ts.drop_first()));
        assert(s[0] == ts[0][0]);
        assert(s[0] != 32);
        assert(ts2.drop_first() =~= ts.drop_first());
        assert(s.drop_first() =~= join(ts2)) by {
            assert(join(ts2) == ts2[0] + seq![32u8] + join(ts2.drop_first()));
        }
        lemma_split_len(s.drop_first());
        assert(seq![s[0]] + spec_split(s.drop_first())[0] =~= ts[0]);
        assert(spec_split(s) =~~= ts);
    }
}

proof fn lemma_join_nl_free(ts: Seq<Seq<u8>>)
    requires
        forall|k: int| 0 <= k < ts.len() ==> nl_free(#[trigger] ts[k]),
    ensures
        nl_free(join(ts)),
    decreases ts.len(),
{
    if ts.len() > 1 {
        assert(forall|k: int|
            0 <= k < ts.drop_first().len() ==> nl_free(#[trigger] ts.drop_first()[k]));
        lemma_join_nl_free(ts.drop_first());
    }
}

/// How many lines a byte string holds: its newline count.
pub open spec fn nl_count(s: Seq<u8>) -> int
    decreases s.len(),
{
    if s.len() == 0 {
        0
    } else {
        nl_count(s.drop_last()) + if s.last() == 10 { 1int } else { 0int }
    }
}

proof fn lemma_nl_count_zero(s: Seq<u8>)
    requires
        nl_free(s),
    ensures
        nl_count(s) == 0,
    decreases s.len(),
{
    if s.len() > 0 {
        assert(nl_free(s.drop_last()));
        lemma_nl_count_zero(s.drop_last());
    }
}

proof fn lemma_nl_count_concat(a: Seq<u8>, b: Seq<u8>)
    ensures
        nl_count(a + b) == nl_count(a) + nl_count(b),
    decreases b.len(),
{
    if b.len() == 0 {
        assert(a + b =~= a);
    } else {
        lemma_nl_count_concat(a, b.drop_last());
        assert((a + b).drop_last() =~= a + b.drop_last());
        assert((a + b).last() == b.last());
    }
}

/// Appending one more token extends the joined line by a separator and
/// the token.
proof fn lemma_join_push(ts: Seq<Seq<u8>>, t: Seq<u8>)
    requires
        ts.len() >= 1,
    ensures
        join(ts.push(t)) == join(ts) + seq![32u8] + t,
    decreases ts.len(),
{
    if ts.len() == 1 {
        assert(ts.push(t).drop_first() =~= seq![t]);
        assert(join(seq![t]) == seq![t][0]);
        assert(join(ts.push(t)) == ts[0] + seq![32u8] + join(seq![t]));
        assert(join(ts.push(t)) =~= join(ts) + seq![32u8] + t);
    } else {
        lemma_join_push(ts.drop_first(), t);
        assert(ts.push(t).drop_first() =~= ts.drop_first().push(t));
        assert(join(ts.push(t)) == ts[0] + seq![32u8] + join(ts.drop_first().push(t)));
        assert(join(ts.drop_first().push(t)) == join(ts.drop_first()) + seq![32u8] + t);
        assert(join(ts) == ts[0] + seq![32u8] + join(ts.drop_first()));
        assert(join(ts.push(t)) =~= join(ts) + seq![32u8] + t);
    }
}

/// A line of newline-free tokens is exactly one line.
pub proof fn lemma_line_count(ts: Seq<Seq<u8>>)
    requires
        forall|k: int| 0 <= k < ts.len() ==> nl_free(#[trigger] ts[k]),
    ensures
        nl_count(line_of(ts)) == 1,
{
    lemma_join_nl_free(ts);
    lemma_nl_count_zero(join(ts));
    lemma_nl_count_concat(join(ts), seq![10u8]);
    assert(nl_count(seq![10u8]) == 1) by {
        assert(seq![10u8].drop_last() =~= Seq::<u8>::empty());
        assert(nl_count(Seq::<u8>::empty()) == 0);
    }
}

/// A counter's token.
pub open spec fn u64_tok(n: u64) -> Seq<u8> {
    dec(n as nat)
}

/// The fields every record line carries, in order.
pub open spec fn base_toks(rec: HeartbeatRecord) -> Seq<Seq<u8>> {
    seq![
        u64_tok(rec.id),
        u64_tok(rec.user_tag),
        u64_tok(rec.work),
        u64_tok(rec.start_time),
        u64_tok(rec.end_time),
        rate_tok(rec.perf.global),
        rate_tok(rec.perf.window),
        rate_tok(rec.perf.instant),
    ]
}

/// The accuracy fields, present when the capability is.
pub open spec fn acc_toks(rec: HeartbeatRecord) -> Seq<Seq<u8>> {
    seq![
        u64_tok(rec.accuracy),
        rate_tok(rec.acc.global),
        rate_tok(rec.acc.window),
        rate_tok(rec.acc.instant),
    ]
}

/// The energy and power fields, present when the capability is.
pub open spec fn pow_toks(rec: HeartbeatRecord) -> Seq<Seq<u8>> {
    seq![
        u64_tok(rec.start_energy),
        u64_tok(rec.end_energy),
        rate_tok(rec.pwr.global),
        rate_tok(rec.pwr.window),
        rate_tok(rec.pwr.instant),
    ]
}

/// A record's tokens under a capability set.
pub open spec fn record_toks(rec: HeartbeatRecord, caps: Capabilities) -> Seq<Seq<u8>> {
    base_toks(rec) + (if caps.accuracy {
        acc_toks(rec)
    } else {
        Seq::<Seq<u8>>::empty()
    }) + (if caps.power {
        pow_toks(rec)
    } else {
        Seq::<Seq<u8>>::empty()
    })
}

/// How many columns a capability set writes per line.
pub open spec fn col_count(caps: Capabilities) -> int {
    8 + (if caps.accuracy {
        4int
    } else {
        0int
    }) + (if caps.power {
        5int
    } else {
        0int
    })
}

/// One record, as the line the log holds for it.
pub open spec fn record_line(rec: HeartbeatRecord, caps: Capabilities) -> Seq<u8> {
    line_of(record_toks(rec, caps))
}

/// A usable field name: nonempty ASCII without separator or terminator.
pub open spec fn name_ok(s: &str) -> bool {
    &&& vstd::string::is_ascii(s)
    &&& s@.len() > 0
    &&& forall|i: int| 0 <= i < s@.len() ==> s@[i] != ' ' && s@[i] != '\n'
}

/// An ASCII field name's bytes form a valid log token.
proof fn lemma_name_token_ok(s: &str)
    requires
        name_ok(s),
    ensures
        is_token(name_bytes(s)),
{
    vstd::string::is_ascii_spec_bytes(s);
    assert(s.spec_bytes() =~= name_bytes(s));
}

/// The header names of the always-present fields.
pub open spec fn base_names() -> Seq<Seq<u8>> {
    seq![
        name_bytes("HB"),
        name_bytes("Tag"),
        name_bytes("Work"),
        name_bytes("Start_Time"),
        name_bytes("End_Time"),
        name_bytes("Global_Perf"),
        name_bytes("Window_Perf"),
        name_bytes("Instant_Perf"),
    ]
}

/// The header names of the accuracy fields.
pub open spec fn acc_names() -> Seq<Seq<u8>> {
    seq![
        name_bytes("Accuracy"),
        name_bytes("Global_Acc"),
        name_bytes("Window_Acc"),
        name_bytes("Instant_Acc"),
    ]
}

/// The header names of the energy and power fields.
pub open spec fn pow_names() -> Seq<Seq<u8>> {
    seq![
        name_bytes("Start_Energy"),
        name_bytes("End_Energy"),
        name_bytes("Global_Pwr"),
        name_bytes("Window_Pwr"),
        name_bytes("Instant_Pwr"),
    ]
}

/// The header's tokens under a capability set; one name per record column.
pub open spec fn header_toks(caps: Capabilities) -> Seq<Seq<u8>> {
    base_names() + (if caps.accuracy {
        acc_names()
    } else {
        Seq::<Seq<u8>>::empty()
    }) + (if caps.power {
        pow_names()
    } else {
        Seq::<Seq<u8>>::empty()
    })
}

/// The header line under a capability set.
pub open spec fn header_line(caps: Capabilities) -> Seq<u8> {
    line_of(header_toks(caps))
}

/// Every header field name is usable.
proof fn lemma_header_names()
    ensures
        name_ok("HB"),
        name_ok("Tag"),
        name_ok("Work"),
        name_ok("Start_Time"),
        name_ok("End_Time"),
        name_ok("Global_Perf"),
        name_ok("Window_Perf"),
        name_ok("Instant_Perf"),
        name_ok("Accuracy"),
        name_ok("Global_Acc"),
        name_ok("Window_Acc"),
        name_ok("Instant_Acc"),
        name_ok("Start_Energy"),
        name_ok("End_Energy"),
        name_ok("Global_Pwr"),
        name_ok("Window_Pwr"),
        name_ok("Instant_Pwr"),
{
    reveal_strlit("HB");
    reveal_strlit("Tag");
    reveal_strlit("Work");
    reveal_strlit("Start_Time");
    reveal_strlit("End_Time");
    reveal_strlit("Global_Perf");
    reveal_strlit("Window_Perf");
    reveal_strlit("Instant_Perf");
    reveal_strlit("Accuracy");
    reveal_strlit("Global_Acc");
    reveal_strlit("Window_Acc");
    reveal_strlit("Instant_Acc");
    reveal_strlit("Start_Energy");
    reveal_strlit("End_Energy");
    reveal_strlit("Global_Pwr");
    reveal_strlit("Window_Pwr");
    reveal_strlit("Instant_Pwr");
}

/// Append a separator and one more token to a line under construction.
fn append_tok(line: &mut Vec<u8>, tok: Vec<u8>, toks: Ghost<Seq<Seq<u8>>>) -> (new_toks: Ghost<
    Seq<Seq<u8>>,
>)
    requires
        old(line)@ == join(toks@),
        toks@.len() >= 1,
    ensures
        new_toks@ == toks@.push(tok@),
        final(line)@ == join(new_toks@),
{
    let ghost tv = tok@;
    line.push(32);
    let mut t = tok;
    line.append(&mut t);
    proof {
        lemma_join_push(toks@, tv);
        assert(line@ =~= join(toks@.push(tv)));
    }
    Ghost(toks@.push(tv))
}

/// Render one record as its log line under the given capability set.
pub fn render_record(rec: &HeartbeatRecord, caps: &Capabilities) -> (r: Vec<u8>)
    ensures
        r@ == record_line(*rec, *caps),
{
    let mut line = fmt_u64(rec.id);
    let ghost toks0: Seq<Seq<u8>> = seq![u64_tok(rec.id)];
    let mut toks: Ghost<Seq<Seq<u8>>> = Ghost(toks0);
    proof {
        assert(join(toks@) == u64_tok(rec.id));
    }
    toks = append_tok(&mut line, fmt_u64(rec.user_tag), toks);
    toks = append_tok(&mut line, fmt_u64(rec.work), toks);
    toks = append_tok(&mut line, fmt_u64(rec.start_time), toks);
    toks = append_tok(&mut line, fmt_u64(rec.end_time), toks);
    toks = append_tok(&mut line, fmt_rate(&rec.perf.global), toks);
    toks = append_tok(&mut line, fmt_rate(&rec.perf.window), toks);
    toks = append_tok(&mut line, fmt_rate(&rec.perf.instant), toks);
    if caps.accuracy {
        toks = append_tok(&mut line, fmt_u64(rec.accuracy), toks);
        toks = append_tok(&mut line, fmt_rate(&rec.acc.global), toks);
        toks = append_tok(&mut line, fmt_rate(&rec.acc.window), toks);
        toks = append_tok(&mut line, fmt_rate(&rec.acc.instant), toks);
    }
    if caps.power {
        toks = append_tok(&mut line, fmt_u64(rec.start_energy), toks);
        toks = append_tok(&mut line, fmt_u64(rec.end_energy), toks);
        toks = append_tok(&mut line, fmt_rate(&rec.pwr.global), toks);
        toks = append_tok(&mut line, fmt_rate(&rec.pwr.window), toks);
        toks = append_tok(&mut line, fmt_rate(&rec.pwr.instant), toks);
    }
    proof {
        assert(toks@ =~= record_toks(*rec, *caps));
    }
    line.push(10);
    proof {
        assert(line@ =~= record_line(*rec, *caps));
    }
    line
}

/// The all-zero rate a parser fills untracked quantities with.
pub open spec fn rate_zero() -> Rate {
    Rate { amount: 0u64, time: 0u64 }
}

/// What parsing one line's tokens yields under a capability set: the
/// record whose rendered tokens they are, with untracked quantities zero.
pub open spec fn spec_parse_toks(ts: Seq<Seq<u8>>, caps: Capabilities) -> Option<
    HeartbeatRecord,
> {
    if ts.len() != col_count(caps) {
        None
    } else {
        let na: int = if caps.accuracy {
            4
        } else {
            0
        };
        let id = spec_parse_u64(ts[0]);
        let tag = spec_parse_u64(ts[1]);
        let work = spec_parse_u64(ts[2]);
        let st = spec_parse_u64(ts[3]);
        let et = spec_parse_u64(ts[4]);
        let pg = spec_parse_rate(ts[5]);
        let pw = spec_parse_rate(ts[6]);
        let pi = spec_parse_rate(ts[7]);
        let ac = if caps.accuracy {
            spec_parse_u64(ts[8])
        } else {
            Some(0u64)
        };
        let ag = if caps.accuracy {
            spec_parse_rate(ts[9])
        } else {
            Some(rate_zero())
        };
        let aw = if caps.accuracy {
            spec_parse_rate(ts[10])
        } else {
            Some(rate_zero())
        };
        let ai = if caps.accuracy {
            spec_parse_rate(ts[11])
        } else {
            Some(rate_zero())
        };
        let se = if caps.power {
            spec_parse_u64(ts[8 + na])
        } else {
            Some(0u64)
        };
        let ee = if caps.power {
            spec_parse_u64(ts[9 + na])
        } else {
            Some(0u64)
        };
        let wg = if caps.power {
            spec_parse_rate(ts[10 + na])
        } else {
            Some(rate_zero())
        };
        let ww = if caps.power {
            spec_parse_rate(ts[11 + na])
        } else {
            Some(rate_zero())
        };
        let wi = if caps.power {
            spec_parse_rate(ts[12 + na])
        } else {
            Some(rate_zero())
        };
        if id.is_some() && tag.is_some() && work.is_some() && st.is_some() && et.is_some()
            && pg.is_some() && pw.is_some() && pi.is_some() && ac.is_some() && ag.is_some()
            && aw.is_some() && ai.is_some() && se.is_some() && ee.is_some() && wg.is_some()
            && ww.is_some() && wi.is_some() {
            Some(
                HeartbeatRecord {
                    id: id.unwrap(),
                    user_tag: tag.unwrap(),
                    work: work.unwrap(),
                    start_time: st.unwrap(),
                    end_time: et.unwrap(),
                    perf: Rates { global: pg.unwrap(), window: pw.unwrap(), instant: pi.unwrap() },
                    accuracy: ac.unwrap(),
                    acc: Rates { global: ag.unwrap(), window: aw.unwrap(), instant: ai.unwrap() },
                    start_energy: se.unwrap(),
                    end_energy: ee.unwrap(),
                    pwr: Rates { global: wg.unwrap(), window: ww.unwrap(), instant: wi.unwrap() },
                },
            )
        } else {
            None
        }
    }
}

/// What parsing a whole line yields: the line must end in the terminator,
/// and its tokens must parse.
pub open spec fn spec_parse_record(s: Seq<u8>, caps: Capabilities) -> Option<HeartbeatRecord> {
    if s.len() == 0 || s.last() != 10 {
        None
    } else {
        spec_parse_toks(spec_split(s.drop_last()), caps)
    }
}

/// Split a byte string into its separator-delimited pieces.
pub fn split_line(s: &[u8]) -> (r: Vec<Vec<u8>>)
    ensures
        r.deep_view() == spec_split(s@),
{
    let n = s.len();
    let mut done: Vec<Vec<u8>> = Vec::new();
    let mut cur: Vec<u8> = Vec::new();
    let mut i: usize = 0;
    proof {
        lemma_split_len(s@);
        assert(s@.skip(0) =~= s@);
        assert(spec_split(s@) =~~= done.deep_view() + seq![
            cur@ + spec_split(s@.skip(0))[0],
        ] + spec_split(s@.skip(0)).drop_first());
    }
    while i < n
        invariant
            n == s@.len(),
            0 <= i <= n,
            spec_split(s@) == done.deep_view() + seq![
                cur@ + spec_split(s@.skip(i as int))[0],
            ] + spec_split(s@.skip(i as int)).drop_first(),
        decreases n - i,
    {
        let ghost pre_done = done.deep_view();
        let ghost pre_cur = cur@;
        let ghost rest = s@.skip(i as int);
        let ghost rest2 = s@.skip(i as int + 1);
        proof {
            lemma_split_len(rest2);
            assert(rest.drop_first() =~= rest2);
            assert(rest[0] == s@[i as int]);
        }
        let b = *slice_index_get(s, i);
        if b == 32 {
            done.push(cur);
            cur = Vec::new();
            proof {
                assert(done.deep_view() =~~= pre_done.push(pre_cur));
                assert(spec_split(rest) == seq![Seq::<u8>::empty()] + spec_split(rest2));
                assert(pre_cur + spec_split(rest)[0] =~= pre_cur);
                assert(spec_split(rest).drop_first() =~= spec_split(rest2));
                assert(cur@ + spec_split(rest2)[0] =~= spec_split(rest2)[0]);
                assert(spec_split(rest2) =~~= seq![spec_split(rest2)[0]] + spec_split(
                    rest2,
                ).drop_first());
                assert(spec_split(s@) =~~= done.deep_view() + seq![cur@ + spec_split(rest2)[0]]
                    + spec_split(rest2).drop_first());
            }
        } else {
            cur.push(b);
            proof {
                assert(spec_split(rest) == seq![seq![rest[0]] + spec_split(rest2)[0]]
                    + spec_split(rest2).drop_first());
                assert(pre_cur + spec_split(rest)[0] =~= cur@ + spec_split(rest2)[0]);
                assert(spec_split(rest).drop_first() =~= spec_split(rest2).drop_first());
                assert(spec_split(s@) =~~= done.deep_view() + seq![cur@ + spec_split(rest2)[0]]
                    + spec_split(rest2).drop_first());
            }
        }
        i = i + 1;
    }
    proof {
        assert(s@.skip(n as int) =~= Seq::<u8>::empty());
        assert(spec_split(Seq::<u8>::empty()) == seq![Seq::<u8>::empty()]);
        assert(cur@ + spec_split(s@.skip(n as int))[0] =~= cur@);
        assert(spec_split(s@.skip(n as int)).drop_first() =~= Seq::<Seq<u8>>::empty());
    }
    let ghost pre_done = done.deep_view();
    let ghost pre_cur = cur@;
    done.push(cur);
    proof {
        assert(done.deep_view() =~~= pre_done.push(pre_cur));
        assert(done.deep_view() =~~= spec_split(s@));
    }
    done
}

/// Parse one log line back into a record: succeeds exactly on the lines
/// `render_record` writes under the same capability set, and recovers the
/// rendered fields; untracked quantities come back zero.
pub fn parse_record(line: &[u8], caps: &Capabilities) -> (r: Option<HeartbeatRecord>)
    ensures
        r == spec_parse_record(line@, *caps),
{
    let n = line.len();
    if n == 0 {
        return None;
    }
    if *slice_index_get(line, n - 1) != 10 {
        return None;
    }
    let body = slice_subrange(line, 0, n - 1);
    proof {
        assert(body@ =~= line@.drop_last());
    }
    let ts = split_line(body);
    proof {
        assert(ts.deep_view().len() == ts@.len());
        assert forall|k: int| 0 <= k < ts@.len() implies ts.deep_view()[k] == ts@[k]@ by {
            assert(ts@[k].deep_view() =~= ts@[k]@);
        }
    }
    let na: usize = if caps.accuracy {
        4
    } else {
        0
    };
    let expected: usize = 8 + na + (if caps.power {
        5
    } else {
        0
    });
    if ts.len() != expected {
        return None;
    }
    let id = match parse_u64(ts[0].as_slice()) {
        Some(v) => v,
        None => {
            return None;
        },
    };
    let tag = match parse_u64(ts[1].as_slice()) {
        Some(v) => v,
        None => {
            return None;
        },
    };
    let work = match parse_u64(ts[2].as_slice()) {
        Some(v) => v,
        None => {
            return None;
        },
    };
    let st = match parse_u64(ts[3].as_slice()) {
        Some(v) => v,
        None => {
            return None;
        },
    };
    let et = match parse_u64(ts[4].as_slice()) {
        Some(v) => v,
        None => {
            return None;
        },
    };
    let pg = match parse_rate(ts[5].as_slice()) {
        Some(v) => v,
        None => {
            return None;
        },
    };
    let pw = match parse_rate(ts[6].as_slice()) {
        Some(v) => v,
        None => {
            return None;
        },
    };
    let pi = match parse_rate(ts[7].as_slice()) {
        Some(v) => v,
        None => {
            return None;
        },
    };
    let mut accuracy: u64 = 0;
    let mut acc = Rates { global: Rate::zero(), window: Rate::zero(), instant: Rate::zero() };
    if caps.accuracy {
        accuracy =
        match parse_u64(ts[8].as_slice()) {
            Some(v) => v,
            None => {
                return None;
            },
        };
        let g = match parse_rate(ts[9].as_slice()) {
            Some(v) => v,
            None => {
                return None;
            },
        };
        let w = match parse_rate(ts[10].as_slice()) {
            Some(v) => v,
            None => {
                return None;
            },
        };
        let i = match parse_rate(ts[11].as_slice()) {
            Some(v) => v,
            None => {
                return None;
            },
        };
        acc = Rates { global: g, window: w, instant: i };
    }
    let mut start_energy: u64 = 0;
    let mut end_energy: u64 = 0;
    let mut pwr = Rates { global: Rate::zero(), window: Rate::zero(), instant: Rate::zero() };
    if caps.power {
        start_energy =
        match parse_u64(ts[8 + na].as_slice()) {
            Some(v) => v,
            None => {
                return None;
            },
        };
        end_energy =
        match parse_u64(ts[9 + na].as_slice()) {
            Some(v) => v,
            None => {
                return None;
            },
        };
        let g = match parse_rate(ts[10 + na].as_slice()) {
            Some(v) => v,
            None => {
                return None;
            },
        };
        let w = match parse_rate(ts[11 + na].as_slice()) {
            Some(v) => v,
            None => {
                return None;
            },
        };
        let i = match parse_rate(ts[12 + na].as_slice()) {
            Some(v) => v,
            None => {
                return None;
            },
        };
        pwr = Rates { global: g, window: w, instant: i };
    }
    Some(
        HeartbeatRecord {
            id,
            user_tag: tag,
            work,
            start_time: st,
            end_time: et,
            perf: Rates { global: pg, window: pw, instant: pi },
            accuracy,
            acc,
            start_energy,
            end_energy,
            pwr,
        },
    )
}

/// Render the header line naming every field of the capability set.
pub fn render_header(caps: &Capabilities) -> (r: Vec<u8>)
    ensures
        r@ == header_line(*caps),
{
    proof {
        lemma_header_names();
    }
    let mut line = name_token("HB");
    let ghost toks0: Seq<Seq<u8>> = seq![name_bytes("HB")];
    let mut toks: Ghost<Seq<Seq<u8>>> = Ghost(toks0);
    proof {
        assert(join(toks@) == name_bytes("HB"));
    }
    toks = append_tok(&mut line, name_token("Tag"), toks);
    toks = append_tok(&mut line, name_token("Work"), toks);
    toks = append_tok(&mut line, name_token("Start_Time"), toks);
    toks = append_tok(&mut line, name_token("End_Time"), toks);
    toks = append_tok(&mut line, name_token("Global_Perf"), toks);
    toks = append_tok(&mut line, name_token("Window_Perf"), toks);
    toks = append_tok(&mut line, name_token("Instant_Perf"), toks);
    if caps.accuracy {
        toks = append_tok(&mut line, name_token("Accuracy"), toks);
        toks = append_tok(&mut line, name_token("Global_Acc"), toks);
        toks = append_tok(&mut line, name_token("Window_Acc"), toks);
        toks = append_tok(&mut line, name_token("Instant_Acc"), toks);
    }
    if caps.power {
        toks = append_tok(&mut line, name_token("Start_Energy"), toks);
        toks = append_tok(&mut line, name_token("End_Energy"), toks);
        toks = append_tok(&mut line, name_token("Global_Pwr"), toks);
        toks = append_tok(&mut line, name_token("Window_Pwr"), toks);
        toks = append_tok(&mut line, name_token("Instant_Pwr"), toks);
    }
    proof {
        assert(toks@ =~= header_toks(*caps));
    }
    line.push(10);
    proof {
        assert(line@ =~= header_line(*caps));
    }
    line
}

/// A counter token alone is a valid log token.
proof fn lemma_u64_tok_token(n: u64)
    ensures
        is_token(u64_tok(n)),
{
    lemma_dec_wf(n as nat);
}

/// A rate token alone is a valid log token.
proof fn lemma_rate_tok_token(r: Rate)
    ensures
        is_token(rate_tok(r)),
{
    lemma_dec_wf(r.amount as nat);
    lemma_dec_wf(r.time as nat);
}

/// Every token of a record line is a valid log token.
#[verifier::rlimit(100)]
#[verifier::spinoff_prover]
proof fn lemma_record_toks_ok(rec: HeartbeatRecord, caps: Capabilities)
    ensures
        record_toks(rec, caps).len() == col_count(caps),
        forall|k: int|
            0 <= k < record_toks(rec, caps).len() ==> is_token(
                #[trigger] record_toks(rec, caps)[k],
            ),
{
    lemma_u64_tok_token(rec.id);
    lemma_u64_tok_token(rec.user_tag);
    lemma_u64_tok_token(rec.work);
    lemma_u64_tok_token(rec.start_time);
    lemma_u64_tok_token(rec.end_time);
    lemma_u64_tok_token(rec.accuracy);
    lemma_u64_tok_token(rec.start_energy);
    lemma_u64_tok_token(rec.end_energy);
    lemma_rate_tok_token(rec.perf.global);
    lemma_rate_tok_token(rec.perf.window);
    lemma_rate_tok_token(rec.perf.instant);
    lemma_rate_tok_token(rec.acc.global);
    lemma_rate_tok_token(rec.acc.window);
    lemma_rate_tok_token(rec.acc.instant);
    lemma_rate_tok_token(rec.pwr.global);
    lemma_rate_tok_token(rec.pwr.window);
    lemma_rate_tok_token(rec.pwr.instant);
}

/// Every token of the header line is a valid log token, one per column.
proof fn lemma_header_toks_ok(caps: Capabilities)
    ensures
        header_toks(caps).len() == col_count(caps),
        forall|k: int|
            0 <= k < header_toks(caps).len() ==> is_token(#[trigger] header_toks(caps)[k]),
{
    lemma_header_names();
    lemma_name_token_ok("HB");
    lemma_name_token_ok("Tag");
    lemma_name_token_ok("Work");
    lemma_name_token_ok("Start_Time");
    lemma_name_token_ok("End_Time");
    lemma_name_token_ok("Global_Perf");
    lemma_name_token_ok("Window_Perf");
    lemma_name_token_ok("Instant_Perf");
    lemma_name_token_ok("Accuracy");
    lemma_name_token_ok("Global_Acc");
    lemma_name_token_ok("Window_Acc");
    lemma_name_token_ok("Instant_Acc");
    lemma_name_token_ok("Start_Energy");
    lemma_name_token_ok("End_Energy");
    lemma_name_token_ok("Global_Pwr");
    lemma_name_token_ok("Window_Pwr");
    lemma_name_token_ok("Instant_Pwr");
}

/// Column parity: under one capability set, the header and every record
/// line have exactly one token per column, and splitting either written
/// line yields its tokens back.
#[verifier::spinoff_prover]
pub proof fn lemma_column_parity(rec: HeartbeatRecord, caps: Capabilities)
    ensures
        header_toks(caps).len() == col_count(caps),
        record_toks(rec, caps).len() == col_count(caps),
        spec_split(header_line(caps).drop_last()) == header_toks(caps),
        spec_split(record_line(rec, caps).drop_last()) == record_toks(rec, caps),
{
    lemma_header_toks_ok(caps);
    lemma_record_toks_ok(rec, caps);
    assert(header_line(caps).drop_last() =~= join(header_toks(caps)));
    assert(record_line(rec, caps).drop_last() =~= join(record_toks(rec, caps)));
    lemma_split_join(header_toks(caps));
    lemma_split_join(record_toks(rec, caps));
}

/// Serialization round trip: parsing a rendered record line under the
/// same capability set succeeds, recovers every rendered field exactly,
/// and fills the untracked quantities with zero. With both capabilities
/// enabled, the whole record comes back bit for bit.
#[verifier::rlimit(100)]
#[verifier::spinoff_prover]
pub proof fn lemma_record_round_trip(rec: HeartbeatRecord, caps: Capabilities)
    ensures
        ({
            let p = spec_parse_record(record_line(rec, caps), caps);
            &&& p.is_some()
            &&& p.unwrap().id == rec.id
            &&& p.unwrap().user_tag == rec.user_tag
            &&& p.unwrap().work == rec.work
            &&& p.unwrap().start_time == rec.start_time
            &&& p.unwrap().end_time == rec.end_time
            &&& p.unwrap().perf == rec.perf
            &&& caps.accuracy ==> p.unwrap().accuracy == rec.accuracy && p.unwrap().acc == rec.acc
            &&& caps.power ==> p.unwrap().start_energy == rec.start_energy
                && p.unwrap().end_energy == rec.end_energy && p.unwrap().pwr == rec.pwr
            &&& (caps.accuracy && caps.power) ==> p == Some(rec)
        }),
{
    let ts = record_toks(rec, caps);
    let line = record_line(rec, caps);
    lemma_record_toks_ok(rec, caps);
    assert(line.last() == 10);
    assert(line.drop_last() =~= join(ts));
    lemma_split_join(ts);
    lemma_parse_dec(rec.id);
    lemma_parse_dec(rec.user_tag);
    lemma_parse_dec(rec.work);
    lemma_parse_dec(rec.start_time);
    lemma_parse_dec(rec.end_time);
    lemma_parse_dec(rec.accuracy);
    lemma_parse_dec(rec.start_energy);
    lemma_parse_dec(rec.end_energy);
    lemma_parse_rate_tok(rec.perf.global);
    lemma_parse_rate_tok(rec.perf.window);
    lemma_parse_rate_tok(rec.perf.instant);
    lemma_parse_rate_tok(rec.acc.global);
    lemma_parse_rate_tok(rec.acc.window);
    lemma_parse_rate_tok(rec.acc.instant);
    lemma_parse_rate_tok(rec.pwr.global);
    lemma_parse_rate_tok(rec.pwr.window);
    lemma_parse_rate_tok(rec.pwr.instant);
}

/// The lines of the `count` records beginning at history index `base`,
/// in order.
pub open spec fn record_lines(
    h: Seq<Sample>,
    w: int,
    caps: Capabilities,
    base: int,
    count: int,
) -> Seq<u8>
    decreases count,
{
    if count <= 0 {
        Seq::empty()
    } else {
        record_lines(h, w, caps, base, count - 1) + record_line(
            spec_record(h, w, base + count - 1),
            caps,
        )
    }
}

/// Line accounting: a header followed by `count` record lines holds
/// exactly `count + 1` newline-terminated lines.
pub proof fn lemma_window_log_line_count(
    h: Seq<Sample>,
    w: int,
    caps: Capabilities,
    base: int,
    count: int,
)
    requires
        count >= 0,
    ensures
        nl_count(record_lines(h, w, caps, base, count)) == count,
        nl_count(header_line(caps) + record_lines(h, w, caps, base, count)) == count + 1,
    decreases count,
{
    lemma_header_toks_ok(caps);
    lemma_line_count(header_toks(caps));
    if count == 0 {
        assert(nl_count(Seq::<u8>::empty()) == 0);
        assert(header_line(caps) + Seq::<u8>::empty() =~= header_line(caps));
    } else {
        lemma_window_log_line_count(h, w, caps, base, count - 1);
        let rec = spec_record(h, w, base + count - 1);
        lemma_record_toks_ok(rec, caps);
        lemma_line_count(record_toks(rec, caps));
        lemma_nl_count_concat(record_lines(h, w, caps, base, count - 1), record_line(rec, caps));
        lemma_nl_count_concat(
            header_line(caps),
            record_lines(h, w, caps, base, count),
        );
    }
}

/// Render the valid records of the current window, optionally preceded by
/// the header line: the log text for everything written since the last
/// wrap. Reads only; the monitor is not changed.
pub fn render_window(hb: &Heartbeat, print_header: bool) -> (out: Vec<u8>)
    requires
        hb.wf(),
    ensures
        out@ == (if print_header {
            header_line(hb@.caps)
        } else {
            Seq::<u8>::empty()
        }) + record_lines(hb@.samples, hb@.window_size, hb@.caps, base_of(hb@), slot_of(hb@)),
{
    let caps = hb.capabilities();
    let ghost prefix: Seq<u8> = if print_header {
        header_line(hb@.caps)
    } else {
        Seq::empty()
    };
    let mut out: Vec<u8>;
    if print_header {
        out = render_header(&caps);
    } else {
        out = Vec::new();
    }
    proof {
        assert(out@ =~= prefix + record_lines(
            hb@.samples,
            hb@.window_size,
            hb@.caps,
            base_of(hb@),
            0,
        ));
    }
    let count = hb.valid_count();
    let recs = hb.records();
    proof {
        hb.lemma_wf_shape();
    }
    let mut i: usize = 0;
    while i < count
        invariant
            hb.wf(),
            count as int == slot_of(hb@),
            (count as int) < hb@.window_size,
            recs@.len() == hb@.window_size,
            forall|k: int|
                0 <= k < slot_of(hb@) ==> recs@[k] == spec_record(
                    hb@.samples,
                    hb@.window_size,
                    base_of(hb@) + k,
                ),
            0 <= i <= count,
            caps == hb@.caps,
            prefix == (if print_header {
                header_line(hb@.caps)
            } else {
                Seq::<u8>::empty()
            }),
            out@ == prefix + record_lines(
                hb@.samples,
                hb@.window_size,
                hb@.caps,
                base_of(hb@),
                i as int,
            ),
        decreases count - i,
    {
        let rec = recs[i];
        let mut lb = render_record(&rec, &caps);
        out.append(&mut lb);
        proof {
            assert(out@ =~= prefix + record_lines(
                hb@.samples,
                hb@.window_size,
                hb@.caps,
                base_of(hb@),
                i as int + 1,
            ));
        }
        i = i + 1;
    }
    out
}

} // verus!

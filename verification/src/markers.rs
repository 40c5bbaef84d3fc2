//! Parsing of one marker-span line: five space-separated fields — thread id,
//! name, start time, end time, value — the last taking the rest of the line.
//! Reading the file and turning the times into profile timestamps is the
//! caller's business; this module only decides what a line means.

use vstd::prelude::*;
use vstd::slice::slice_to_vec;

verus! {

pub open spec fn is_ascii_digit(b: u8) -> bool {
    48 <= b && b <= 57
}

/// The number the digit string denotes, most significant digit first.
pub open spec fn digits_val(s: Seq<u8>) -> int
    decreases s.len(),
{
    if s.len() == 0 {
        0
    } else {
        digits_val(s.drop_last()) * 10 + (s.last() - 48)
    }
}

pub open spec fn all_digits(s: Seq<u8>) -> bool {
    forall|i: int| 0 <= i < s.len() ==> is_ascii_digit(s[i])
}

/// What `str::parse::<u64>` accepts: an optional `+`, then one or more
/// digits, denoting a value that fits.
pub open spec fn spec_parse_u64(s: Seq<u8>) -> Option<u64> {
    let body = if s.len() > 0 && s[0] == 43u8 {
        s.drop_first()
    } else {
        s
    };
    if body.len() == 0 || !all_digits(body) {
        None
    } else if digits_val(body) > u64::MAX {
        None
    } else {
        Some(digits_val(body) as u64)
    }
}

/// What `str::parse::<i32>` accepts: an optional sign, then one or more
/// digits, denoting a value in range.
pub open spec fn spec_parse_i32(s: Seq<u8>) -> Option<i32> {
    if s.len() > 0 && s[0] == 45u8 {
        let body = s.drop_first();
        if body.len() > 0 && body[0] == 43u8 {
            None
        } else {
            match spec_parse_u64(body) {
                None => None,
                Some(v) => if v > 0x8000_0000 {
                    None
                } else {
                    Some((-(v as int)) as i32)
                },
            }
        }
    } else {
        match spec_parse_u64(s) {
            None => None,
            Some(v) => if v > 0x7fff_ffff {
                None
            } else {
                Some(v as i32)
            },
        }
    }
}

proof fn lemma_digits_val_nonneg(s: Seq<u8>)
    requires
        all_digits(s),
    ensures
        digits_val(s) >= 0,
    decreases s.len(),
{
    if s.len() > 0 {
        assert(all_digits(s.drop_last()));
        lemma_digits_val_nonneg(s.drop_last());
    }
}

proof fn lemma_digits_val_mono(s: Seq<u8>, k: int)
    requires
        all_digits(s),
        0 <= k <= s.len(),
    ensures
        digits_val(s.take(k)) <= digits_val(s),
    decreases s.len(),
{
    if k == s.len() {
        assert(s.take(k) =~= s);
    } else {
        let q = s.drop_last();
        assert(all_digits(q));
        assert(s.take(k) =~= q.take(k));
        lemma_digits_val_mono(q, k);
        lemma_digits_val_nonneg(q);
    }
}

/// Parse an unsigned decimal, as `str::parse::<u64>` would.
pub fn parse_u64_bytes(s: &[u8]) -> (r: Option<u64>)
    ensures
        r == spec_parse_u64(s@),
{
    let n = s.len();
    let mut i: usize = 0;
    if n > 0 && s[0] == 43 {
        i = 1;
    }
    let start = i;
    let ghost body = if s@.len() > 0 && s@[0] == 43u8 {
        s@.drop_first()
    } else {
        s@
    };
    proof {
        assert(body =~= s@.subrange(start as int, n as int));
    }
    if i == n {
        return None;
    }
    let mut val: u64 = 0;
    while i < n
        invariant
            start <= i <= n,
            n == s@.len(),
            start == (if s@.len() > 0 && s@[0] == 43u8 {
                1int
            } else {
                0int
            }),
            body == s@.subrange(start as int, n as int),
            all_digits(body.take(i - start)),
            val == digits_val(body.take(i - start)),
        decreases n - i,
    {
        let b = s[i];
        if b < 48 || b > 57 {
            proof {
                assert(s@.subrange(0, n as int) =~= s@);
                assert(body[i - start] == s@[i as int]);
            }
            return None;
        }
        let wide: u128 = (val as u128) * 10 + ((b - 48) as u128);
        proof {
            assert((val as int) * 10 + 9 <= 0xffff_ffff_ffff_ffff * 10 + 9) by (nonlinear_arith)
                requires
                    0 <= val as int <= 0xffff_ffff_ffff_ffff,
            ;
            assert(body.take(i - start + 1) =~= body.take(i - start).push(s@[i as int]));
            assert(body.take(i - start + 1).drop_last() =~= body.take(i - start));
        }
        if wide > 0xffff_ffff_ffff_ffff_u128 {
            proof {
                assert(s@.subrange(0, n as int) =~= s@);
                if all_digits(body) {
                    lemma_digits_val_mono(body, i - start + 1);
                }
            }
            return None;
        }
        val = wide as u64;
        i += 1;
    }
    proof {
        assert(s@.subrange(0, n as int) =~= s@);
        assert(body.take(i - start) =~= body);
    }
    Some(val)
}

/// Parse a signed decimal, as `str::parse::<i32>` would.
pub fn parse_i32_bytes(s: &[u8]) -> (r: Option<i32>)
    ensures
        r == spec_parse_i32(s@),
{
    let n = s.len();
    if n > 0 && s[0] == 45 {
        proof {
            assert(s@.subrange(1, n as int) =~= s@.drop_first());
        }
        if n > 1 && s[1] == 43 {
            proof {
                assert(s@.drop_first()[0] == 43u8);
            }
            return None;
        }
        proof {
            if n > 1 {
                assert(s@.drop_first()[0] == s@[1]);
            }
        }
        let mag = match parse_u64_bytes(&s[1..n]) {
            Some(v) => v,
            None => {
                return None;
            },
        };
        if mag > 0x8000_0000 {
            return None;
        }
        if mag == 0x8000_0000 {
            return Some(i32::MIN);
        }
        #[verifier::truncate]
        let v = -(mag as i32);
        Some(v)
    } else {
        let mag = match parse_u64_bytes(s) {
            Some(v) => v,
            None => {
                return None;
            },
        };
        if mag > 0x7fff_ffff {
            return None;
        }
        #[verifier::truncate]
        let v = mag as i32;
        Some(v)
    }
}

/// One parsed marker span.
#[derive(Clone, PartialEq, Eq, Debug)]
pub struct MarkerSpanLine {
    pub tid: i32,
    pub name: Vec<u8>,
    pub start_time: u64,
    pub end_time: u64,
    pub value: Vec<u8>,
}

#[verifier::ext_equal]
pub struct MarkerSpanView {
    pub tid: i32,
    pub name: Seq<u8>,
    pub start_time: u64,
    pub end_time: u64,
    pub value: Seq<u8>,
}

impl View for MarkerSpanLine {
    type V = MarkerSpanView;

    open spec fn view(&self) -> MarkerSpanView {
        MarkerSpanView {
            tid: self.tid,
            name: self.name@,
            start_time: self.start_time,
            end_time: self.end_time,
            value: self.value@,
        }
    }
}

/// Index of the first space of `b`, or `b.len()` when it has none.
pub open spec fn first_space(b: Seq<u8>) -> int
    decreases b.len(),
{
    if b.len() == 0 {
        0
    } else if b[0] == 32u8 {
        0
    } else {
        1 + first_space(b.drop_first())
    }
}

proof fn lemma_first_space_at(b: Seq<u8>, j: int)
    requires
        0 <= j <= b.len(),
        forall|k: int| 0 <= k < j ==> b[k] != 32u8,
        j == b.len() || b[j] == 32u8,
    ensures
        first_space(b) == j,
    decreases j,
{
    if j == 0 {
    } else {
        lemma_first_space_at(b.drop_first(), j - 1);
    }
}

proof fn lemma_tail_of_tail(s: Seq<u8>, a: int, c: int)
    requires
        0 <= a <= s.len(),
        0 <= c <= s.len() - a,
    ensures
        s.subrange(a, s.len() as int).subrange(c, s.len() - a) =~= s.subrange(
            a + c,
            s.len() as int,
        ),
{
    let r = s.subrange(a, s.len() as int);
    assert forall|k: int| 0 <= k < s.len() - a - c implies #[trigger] r.subrange(
        c,
        s.len() - a,
    )[k] == s.subrange(a + c, s.len() as int)[k] by {
        assert(r.subrange(c, s.len() - a)[k] == r[c + k]);
        assert(r[c + k] == s[a + c + k]);
        assert(s.subrange(a + c, s.len() as int)[k] == s[a + c + k]);
    }
    assert(r.subrange(c, s.len() - a) =~= s.subrange(a + c, s.len() as int));
}

/// The next field of the line from `from`: the bytes up to the next space or
/// the line's end. Returns the field and the index one past its delimiter,
/// or the line length when no space follows.
fn next_field(s: &[u8], from: usize) -> (r: (Vec<u8>, usize, bool))
    requires
        from <= s@.len(),
    ensures
        ({
            let rest = s@.subrange(from as int, s@.len() as int);
            let p = first_space(rest);
            &&& 0 <= p <= rest.len()
            &&& r.0@ == rest.take(p)
            &&& r.2 == (p < rest.len())
            &&& (r.2 ==> r.1 == from + p + 1 && r.1 <= s@.len())
            &&& (!r.2 ==> r.1 == s@.len())
        }),
{
    let n = s.len();
    let mut j = from;
    while j < n && s[j] != 32
        invariant
            from <= j <= n,
            n == s@.len(),
            forall|k: int| from <= k < j ==> s@[k] != 32u8,
        decreases n - j,
    {
        j += 1;
    }
    proof {
        let rest = s@.subrange(from as int, n as int);
        lemma_first_space_at(rest, j - from);
        assert(rest.take(j - from) =~= s@.subrange(from as int, j as int));
    }
    let field = slice_to_vec(&s[from..j]);
    if j < n {
        (field, j + 1, true)
    } else {
        (field, n, false)
    }
}

/// What a marker line means, split into at most five space-separated fields:
/// thread id, name, start time, end time, and the value taking the rest.
/// A line with fewer fields, or whose numbers do not parse, means nothing.
pub open spec fn spec_parse_marker_line(s: Seq<u8>) -> Option<MarkerSpanView> {
    let p1 = first_space(s);
    if p1 >= s.len() {
        None
    } else {
        let r1 = s.subrange(p1 + 1, s.len() as int);
        let p2 = first_space(r1);
        if p2 >= r1.len() {
            None
        } else {
            let r2 = r1.subrange(p2 + 1, r1.len() as int);
            let p3 = first_space(r2);
            if p3 >= r2.len() {
                None
            } else {
                let r3 = r2.subrange(p3 + 1, r2.len() as int);
                let p4 = first_space(r3);
                if p4 >= r3.len() {
                    None
                } else {
                    let value = r3.subrange(p4 + 1, r3.len() as int);
                    match spec_parse_i32(s.take(p1)) {
                        None => None,
                        Some(tid) => match spec_parse_u64(r2.take(p3)) {
                            None => None,
                            Some(start_time) => match spec_parse_u64(r3.take(p4)) {
                                None => None,
                                Some(end_time) => Some(
                                    MarkerSpanView {
                                        tid,
                                        name: r1.take(p2),
                                        start_time,
                                        end_time,
                                        value,
                                    },
                                ),
                            },
                        },
                    }
                }
            }
        }
    }
}

/// Parse one marker-span line.
pub fn parse_marker_span_line(line: &[u8]) -> (r: Option<MarkerSpanLine>)
    ensures
        match r {
            Some(m) => spec_parse_marker_line(line@) == Some(m@),
            None => spec_parse_marker_line(line@) is None,
        },
{
    let n = line.len();
    let ghost s = line@;
    let ghost p1 = first_space(s);
    let ghost r1 = s.subrange(p1 + 1, s.len() as int);
    let ghost p2 = first_space(r1);
    let ghost r2 = r1.subrange(p2 + 1, r1.len() as int);
    let ghost p3 = first_space(r2);
    let ghost r3 = r2.subrange(p3 + 1, r2.len() as int);
    let ghost p4 = first_space(r3);
    proof {
        assert(line@.subrange(0, n as int) =~= line@);
    }
    let (f1, q1, more1) = next_field(line, 0);
    if !more1 {
        return None;
    }
    proof {
        assert(s.subrange(q1 as int, n as int) =~= r1);
        assert(forall|j: int| 0 <= j < r1.len() ==> #[trigger] r1[j] == s[q1 + j]);
        assert(s.take(p1) == f1@);
    }
    let (f2, q2, more2) = next_field(line, q1);
    if !more2 {
        return None;
    }
    proof {
        assert(s.subrange(q1 as int, n as int) == r1);
        assert(first_space(s.subrange(q1 as int, n as int)) == p2);
        assert(q2 == q1 + p2 + 1);
        lemma_tail_of_tail(s, q1 as int, p2 + 1);
        assert(s.subrange(q1 as int, s.len() as int).subrange(p2 + 1, s.len() - q1)
            == r1.subrange(p2 + 1, r1.len() as int));
        assert(r1.subrange(p2 + 1, r1.len() as int) =~= s.subrange(q2 as int, n as int));
        assert(r1.take(p2) =~= f2@);
    }
    let (f3, q3, more3) = next_field(line, q2);
    if !more3 {
        return None;
    }
    proof {
        assert(s.subrange(q2 as int, n as int) == r2);
        assert(first_space(s.subrange(q2 as int, n as int)) == p3);
        assert(q3 == q2 + p3 + 1);
        lemma_tail_of_tail(s, q2 as int, p3 + 1);
        assert(s.subrange(q2 as int, s.len() as int).subrange(p3 + 1, s.len() - q2)
            == r2.subrange(p3 + 1, r2.len() as int));
        assert(r2.subrange(p3 + 1, r2.len() as int) =~= s.subrange(q3 as int, n as int));
        assert(r2.take(p3) =~= f3@);
    }
    let (f4, q4, more4) = next_field(line, q3);
    if !more4 {
        return None;
    }
    proof {
        assert(s.subrange(q3 as int, n as int) == r3);
        assert(first_space(s.subrange(q3 as int, n as int)) == p4);
        assert(q4 == q3 + p4 + 1);
        lemma_tail_of_tail(s, q3 as int, p4 + 1);
        assert(s.subrange(q3 as int, s.len() as int).subrange(p4 + 1, s.len() - q3)
            == r3.subrange(p4 + 1, r3.len() as int));
        assert(r3.subrange(p4 + 1, r3.len() as int) =~= s.subrange(q4 as int, n as int));
        assert(r3.take(p4) =~= f4@);
    }
    let value = slice_to_vec(&line[q4..n]);
    let tid = match parse_i32_bytes(f1.as_slice()) {
        Some(v) => v,
        None => {
            return None;
        },
    };
    let start_time = match parse_u64_bytes(f3.as_slice()) {
        Some(v) => v,
        None => {
            return None;
        },
    };
    let end_time = match parse_u64_bytes(f4.as_slice()) {
        Some(v) => v,
        None => {
            return None;
        },
    };
    let m = MarkerSpanLine { tid, name: f2, start_time, end_time, value };
    proof {
        match spec_parse_marker_line(line@) {
            Some(mv) => {
                assert(m@ =~= mv);
            },
            None => {
                assert(false);
            },
        }
    }
    Some(m)
}

} // verus!

//! Derivation of per-job monitoring window capacities from the job's
//! partition name and the GPU inventory reported by the external query tool.
//!
//! The query output is comma-separated, one line per GPU, with the model
//! name as the second field. Each model maps to a sample count; the smallest
//! count across the detected GPUs wins. No usable output at all means no
//! GPUs: GPU monitoring is effectively disabled by an unbounded count.

use vstd::prelude::*;
use vstd::slice::slice_subrange;
use vstd::string::StringSliceAdditionalSpecFns;
use crate::bytes::{upper_bytes, lower_bytes, contains_bytes, contains_bytes_exec, trim_bytes,
    trim_exec, to_upper_vec, to_lower_vec, find_byte};

verus! {

/// Sample count standing for an unbounded window: large enough that the
/// window never fills within a realistic job lifetime, so the signal never
/// evicts.
pub const INFINITE_CHECK_COUNT: i32 = 144000;

/// Sample count for GPU models with no specific entry.
pub const DEFAULT_GPU_CHECK_COUNT: i32 = 60;

/// CPU sample count for jobs outside the special partitions.
pub const DEFAULT_CPU_CHECK_COUNT: i32 = 60;

pub const RTX_5090_CHECK_COUNT: i32 = 20;

pub const RTX_A6000_CHECK_COUNT: i32 = 20;

pub const RTX_4090_CHECK_COUNT: i32 = 20;

pub const RTX_3090_CHECK_COUNT: i32 = 60;

pub const RTX_A10_CHECK_COUNT: i32 = 60;

/// The byte separating fields of a query-output line (a comma).
pub const FIELD_SEP: u8 = 44;

/// The byte separating lines of query output (a line feed).
pub const LINE_SEP: u8 = 10;

/// The bytes of `"5090"`.
pub open spec fn pat_5090() -> Seq<u8> {
    seq![53u8, 48u8, 57u8, 48u8]
}

/// The bytes of `"A6000"`.
pub open spec fn pat_a6000() -> Seq<u8> {
    seq![65u8, 54u8, 48u8, 48u8, 48u8]
}

/// The bytes of `"4090"`.
pub open spec fn pat_4090() -> Seq<u8> {
    seq![52u8, 48u8, 57u8, 48u8]
}

/// The bytes of `"3090"`.
pub open spec fn pat_3090() -> Seq<u8> {
    seq![51u8, 48u8, 57u8, 48u8]
}

/// The bytes of `"A10"`.
pub open spec fn pat_a10() -> Seq<u8> {
    seq![65u8, 49u8, 48u8]
}

/// The bytes of `"debug"`.
pub open spec fn pat_debug() -> Seq<u8> {
    seq![100u8, 101u8, 98u8, 117u8, 103u8]
}

/// The bytes of `"gpu"`.
pub open spec fn pat_gpu() -> Seq<u8> {
    seq![103u8, 112u8, 117u8]
}

/// The sample count for one GPU model name: matched case-insensitively
/// against the known model substrings, in a fixed order, with a default for
/// unrecognized models.
pub open spec fn spec_gpu_check_count(name: Seq<u8>) -> i32 {
    let u = upper_bytes(name);
    if contains_bytes(u, pat_5090()) {
        RTX_5090_CHECK_COUNT
    } else if contains_bytes(u, pat_a6000()) {
        RTX_A6000_CHECK_COUNT
    } else if contains_bytes(u, pat_4090()) {
        RTX_4090_CHECK_COUNT
    } else if contains_bytes(u, pat_3090()) {
        RTX_3090_CHECK_COUNT
    } else if contains_bytes(u, pat_a10()) {
        RTX_A10_CHECK_COUNT
    } else {
        DEFAULT_GPU_CHECK_COUNT
    }
}

/// The fields of `s` separated by `sep`, as the standard splitting produces
/// them: always at least one field, empty fields preserved.
pub open spec fn split_bytes(s: Seq<u8>, sep: u8) -> Seq<Seq<u8>>
    decreases s.len(),
{
    if s.len() == 0 {
        seq![Seq::<u8>::empty()]
    } else if s[0] == sep {
        seq![Seq::<u8>::empty()] + split_bytes(s.drop_first(), sep)
    } else {
        let rest = split_bytes(s.drop_first(), sep);
        seq![seq![s[0]] + rest[0]] + rest.drop_first()
    }
}

pub proof fn lemma_split_len(s: Seq<u8>, sep: u8)
    ensures
        split_bytes(s, sep).len() >= 1,
    decreases s.len(),
{
    if s.len() > 0 {
        lemma_split_len(s.drop_first(), sep);
    }
}

/// Splitting at the first separator: with no separator the whole string is
/// the one field; otherwise the prefix is the first field and the rest
/// splits independently.
pub proof fn lemma_split_first(s: Seq<u8>, sep: u8, i: int)
    requires
        0 <= i <= s.len(),
        forall|t: int| 0 <= t < i ==> s[t] != sep,
        i < s.len() ==> s[i] == sep,
    ensures
        i == s.len() ==> split_bytes(s, sep) =~~= seq![s],
        i < s.len() ==> split_bytes(s, sep) =~~= seq![s.subrange(0, i)] + split_bytes(
            s.subrange(i + 1, s.len() as int),
            sep,
        ),
    decreases s.len(),
{
    lemma_split_len(s, sep);
    if s.len() == 0 {
        assert(s =~= Seq::<u8>::empty());
    } else if s[0] == sep {
        assert(i == 0);
        assert(s.subrange(0, 0) =~= Seq::<u8>::empty());
        assert(s.subrange(1, s.len() as int) =~= s.drop_first());
    } else {
        assert(i >= 1);
        let d = s.drop_first();
        let rest = split_bytes(d, sep);
        lemma_split_len(d, sep);
        assert forall|t: int| 0 <= t < i - 1 implies d[t] != sep by {
            assert(d[t] == s[t + 1]);
        }
        lemma_split_first(d, sep, i - 1);
        if i == s.len() {
            assert(rest =~~= seq![d]);
            assert(seq![s[0]] + d =~= s);
            assert(rest.drop_first() =~~= Seq::<Seq<u8>>::empty());
            assert(split_bytes(s, sep) =~~= seq![s]);
        } else {
            assert(rest =~~= seq![d.subrange(0, i - 1)] + split_bytes(
                d.subrange(i, d.len() as int),
                sep,
            ));
            assert(rest[0] == d.subrange(0, i - 1));
            assert(seq![s[0]] + d.subrange(0, i - 1) =~= s.subrange(0, i));
            assert(rest.drop_first() =~~= split_bytes(d.subrange(i, d.len() as int), sep));
            assert(d.subrange(i, d.len() as int) =~= s.subrange(i + 1, s.len() as int));
        }
    }
}

/// The sample count contributed by one line of query output: the second
/// comma-separated field, trimmed, mapped through the model table; a line
/// without a second field contributes nothing.
pub open spec fn line_count(line: Seq<u8>) -> Option<i32> {
    let fields = split_bytes(line, FIELD_SEP);
    if fields.len() >= 2 {
        Some(spec_gpu_check_count(trim_bytes(fields[1])))
    } else {
        None
    }
}

/// The sample counts of all lines that have one.
pub open spec fn counts_of_lines(lines: Seq<Seq<u8>>) -> Seq<i32>
    decreases lines.len(),
{
    if lines.len() == 0 {
        Seq::empty()
    } else {
        let rest = counts_of_lines(lines.drop_first());
        match line_count(lines[0]) {
            None => rest,
            Some(c) => seq![c] + rest,
        }
    }
}

/// The smallest element of a non-empty sequence.
pub open spec fn seq_min_i32(s: Seq<i32>) -> i32
    recommends
        s.len() > 0,
    decreases s.len(),
{
    if s.len() <= 1 {
        s[0]
    } else {
        let m = seq_min_i32(s.drop_first());
        if s[0] <= m {
            s[0]
        } else {
            m
        }
    }
}

/// The GPU sample count derived from the query tool's full output: the
/// smallest per-model count across the listed GPUs, the default when no line
/// names a model, and the unbounded count when the output is empty (no GPUs
/// detected).
pub open spec fn spec_gpu_count_from_query(out: Seq<u8>) -> i32 {
    if out.len() == 0 {
        INFINITE_CHECK_COUNT
    } else {
        let cs = counts_of_lines(split_bytes(out, LINE_SEP));
        if cs.len() == 0 {
            DEFAULT_GPU_CHECK_COUNT
        } else {
            seq_min_i32(cs)
        }
    }
}

/// The window capacities for a job: an unbounded pair on a debug partition;
/// on a gpu partition, the model-derived GPU count with unbounded CPU; and
/// otherwise the model-derived GPU count with the default CPU count. `None`
/// for the query means the tool failed: treated as no GPUs.
pub open spec fn spec_monitor_counts(partition: Seq<u8>, query: Option<Seq<u8>>) -> (i32, i32) {
    let lp = lower_bytes(partition);
    let gpu_count = match query {
        None => INFINITE_CHECK_COUNT,
        Some(q) => spec_gpu_count_from_query(q),
    };
    if contains_bytes(lp, pat_debug()) {
        (INFINITE_CHECK_COUNT, INFINITE_CHECK_COUNT)
    } else if contains_bytes(lp, pat_gpu()) {
        (gpu_count, INFINITE_CHECK_COUNT)
    } else {
        (gpu_count, DEFAULT_CPU_CHECK_COUNT)
    }
}

fn pat3(a: u8, b: u8, c: u8) -> (r: Vec<u8>)
    ensures
        r@ == seq![a, b, c],
{
    let mut r: Vec<u8> = Vec::new();
    r.push(a);
    r.push(b);
    r.push(c);
    proof {
        assert(r@ =~= seq![a, b, c]);
    }
    r
}

fn pat4(a: u8, b: u8, c: u8, d: u8) -> (r: Vec<u8>)
    ensures
        r@ == seq![a, b, c, d],
{
    let mut r: Vec<u8> = Vec::new();
    r.push(a);
    r.push(b);
    r.push(c);
    r.push(d);
    proof {
        assert(r@ =~= seq![a, b, c, d]);
    }
    r
}

fn pat5(a: u8, b: u8, c: u8, d: u8, e: u8) -> (r: Vec<u8>)
    ensures
        r@ == seq![a, b, c, d, e],
{
    let mut r: Vec<u8> = Vec::new();
    r.push(a);
    r.push(b);
    r.push(c);
    r.push(d);
    r.push(e);
    proof {
        assert(r@ =~= seq![a, b, c, d, e]);
    }
    r
}

fn gpu_check_count_bytes(name: &[u8]) -> (r: i32)
    ensures
        r == spec_gpu_check_count(name@),
{
    let u = to_upper_vec(name);
    let p5090 = pat4(53, 48, 57, 48);
    if contains_bytes_exec(u.as_slice(), p5090.as_slice()) {
        return RTX_5090_CHECK_COUNT;
    }
    let pa6000 = pat5(65, 54, 48, 48, 48);
    if contains_bytes_exec(u.as_slice(), pa6000.as_slice()) {
        return RTX_A6000_CHECK_COUNT;
    }
    let p4090 = pat4(52, 48, 57, 48);
    if contains_bytes_exec(u.as_slice(), p4090.as_slice()) {
        return RTX_4090_CHECK_COUNT;
    }
    let p3090 = pat4(51, 48, 57, 48);
    if contains_bytes_exec(u.as_slice(), p3090.as_slice()) {
        return RTX_3090_CHECK_COUNT;
    }
    let pa10 = pat3(65, 49, 48);
    if contains_bytes_exec(u.as_slice(), pa10.as_slice()) {
        return RTX_A10_CHECK_COUNT;
    }
    DEFAULT_GPU_CHECK_COUNT
}

/// The sample count for one GPU model name, matched case-insensitively
/// against the known models with a default for unrecognized ones.
pub fn get_gpu_check_count(gpu_name: &str) -> (r: i32)
    ensures
        r == spec_gpu_check_count(gpu_name.spec_bytes()),
{
    gpu_check_count_bytes(gpu_name.as_bytes())
}

fn line_count_exec(line: &[u8]) -> (r: Option<i32>)
    ensures
        r == line_count(line@),
{
    match find_byte(line, FIELD_SEP) {
        None => {
            proof {
                lemma_split_first(line@, FIELD_SEP, line@.len() as int);
            }
            None
        },
        Some(i) => {
            let ll = line.len();
            proof {
                lemma_split_first(line@, FIELD_SEP, i as int);
                lemma_split_len(line@.subrange(i + 1, line@.len() as int), FIELD_SEP);
            }
            let after = slice_subrange(line, i + 1, ll);
            let field = match find_byte(after, FIELD_SEP) {
                None => {
                    proof {
                        lemma_split_first(after@, FIELD_SEP, after@.len() as int);
                    }
                    after
                },
                Some(j) => {
                    proof {
                        lemma_split_first(after@, FIELD_SEP, j as int);
                    }
                    slice_subrange(after, 0, j)
                },
            };
            proof {
                let fields = split_bytes(line@, FIELD_SEP);
                assert(fields[1] == split_bytes(after@, FIELD_SEP)[0]);
                assert(fields[1] == field@);
            }
            let trimmed = trim_exec(field);
            Some(gpu_check_count_bytes(trimmed))
        },
    }
}

fn min_count_bytes(out: &[u8]) -> (r: Option<i32>)
    ensures
        ({
            let cs = counts_of_lines(split_bytes(out@, LINE_SEP));
            match r {
                None => cs.len() == 0,
                Some(m) => cs.len() > 0 && m == seq_min_i32(cs),
            }
        }),
    decreases out@.len(),
{
    match find_byte(out, LINE_SEP) {
        None => {
            proof {
                lemma_split_first(out@, LINE_SEP, out@.len() as int);
            }
            match line_count_exec(out) {
                None => {
                    proof {
                        let lines = split_bytes(out@, LINE_SEP);
                        assert(lines.drop_first() =~~= Seq::<Seq<u8>>::empty());
                        assert(lines[0] == out@);
                        assert(counts_of_lines(Seq::<Seq<u8>>::empty()) =~= Seq::<i32>::empty());
                        assert(counts_of_lines(lines).len() == 0);
                    }
                    None
                },
                Some(c) => {
                    proof {
                        let lines = split_bytes(out@, LINE_SEP);
                        assert(lines.drop_first() =~~= Seq::<Seq<u8>>::empty());
                        assert(lines[0] == out@);
                        assert(counts_of_lines(Seq::<Seq<u8>>::empty()) =~= Seq::<i32>::empty());
                        let cs = counts_of_lines(lines);
                        assert(cs =~= seq![c]);
                        assert(seq_min_i32(cs) == c);
                    }
                    Some(c)
                },
            }
        },
        Some(i) => {
            let ol = out.len();
            proof {
                lemma_split_first(out@, LINE_SEP, i as int);
            }
            let line = slice_subrange(out, 0, i);
            let after = slice_subrange(out, i + 1, ol);
            let first = line_count_exec(line);
            let rest = min_count_bytes(after);
            proof {
                let lines = split_bytes(out@, LINE_SEP);
                let tail = split_bytes(after@, LINE_SEP);
                assert(lines =~~= seq![line@] + tail);
                assert(lines[0] == line@);
                assert(lines.drop_first() =~~= tail);
                lemma_split_len(after@, LINE_SEP);
            }
            match (first, rest) {
                (None, rr) => {
                    proof {
                        let lines = split_bytes(out@, LINE_SEP);
                        assert(counts_of_lines(lines) == counts_of_lines(
                            split_bytes(after@, LINE_SEP),
                        ));
                    }
                    rr
                },
                (Some(c), None) => {
                    proof {
                        let lines = split_bytes(out@, LINE_SEP);
                        let cs = counts_of_lines(lines);
                        assert(cs =~= seq![c]);
                    }
                    Some(c)
                },
                (Some(c), Some(m)) => {
                    proof {
                        let lines = split_bytes(out@, LINE_SEP);
                        let tail_counts = counts_of_lines(lines.drop_first());
                        let cs = counts_of_lines(lines);
                        assert(cs == seq![c] + tail_counts);
                        assert(cs.drop_first() =~~= tail_counts);
                        assert(cs[0] == c);
                        assert(cs.len() >= 2);
                        assert(seq_min_i32(cs) == if c <= seq_min_i32(tail_counts) {
                            c
                        } else {
                            seq_min_i32(tail_counts)
                        });
                    }
                    Some(
                        if c <= m {
                            c
                        } else {
                            m
                        },
                    )
                },
            }
        },
    }
}

/// The GPU sample count from the query tool's full output (`None`: the tool
/// failed, treated as no GPUs): the smallest per-model count across the
/// listed GPUs, the default when no line names a model, unbounded when the
/// output is empty.
pub fn determine_gpu_check_count(query: Option<&str>) -> (r: i32)
    ensures
        r == match query {
            None => INFINITE_CHECK_COUNT,
            Some(out) => spec_gpu_count_from_query(out.spec_bytes()),
        },
{
    match query {
        None => INFINITE_CHECK_COUNT,
        Some(out) => {
            let bytes = out.as_bytes();
            if bytes.len() == 0 {
                INFINITE_CHECK_COUNT
            } else {
                match min_count_bytes(bytes) {
                    None => DEFAULT_GPU_CHECK_COUNT,
                    Some(m) => m,
                }
            }
        },
    }
}

/// The window capacities for a job, from its partition name and the GPU
/// query output, as `spec_monitor_counts` lays down.
pub fn derive_monitor_counts(partition: &str, gpu_query: Option<&str>) -> (r: (i32, i32))
    ensures
        ({
            let q = match gpu_query {
                None => None,
                Some(s) => Some(s.spec_bytes()),
            };
            r == spec_monitor_counts(partition.spec_bytes(), q)
        }),
{
    let lp = to_lower_vec(partition.as_bytes());
    let pdebug = pat5(100, 101, 98, 117, 103);
    let pgpu = pat3(103, 112, 117);
    if contains_bytes_exec(lp.as_slice(), pdebug.as_slice()) {
        (INFINITE_CHECK_COUNT, INFINITE_CHECK_COUNT)
    } else {
        let gpu_count = determine_gpu_check_count(gpu_query);
        if contains_bytes_exec(lp.as_slice(), pgpu.as_slice()) {
            (gpu_count, INFINITE_CHECK_COUNT)
        } else {
            (gpu_count, DEFAULT_CPU_CHECK_COUNT)
        }
    }
}

} // verus!

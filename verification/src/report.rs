//! Result accounting and the machine-readable progress protocol: per-file
//! statistics, their saturating aggregation, throughput rates, and the
//! line-oriented JSON events.

use vstd::prelude::*;
use crate::bytes::{lit, push_lit};
use crate::json::{dec_text, int_member, str_member, push_str_member, push_u64_dec};

verus! {

/// One file's reported statistics.
pub struct FileStat {
    pub file_name: Vec<u8>,
    pub records: u64,
    pub ndjson_bytes: u64,
    pub bulk_bytes: u64,
    pub duration_ms: u64,
    pub failed: bool,
}

/// Addition that tops out at `u64::MAX` instead of wrapping.
pub open spec fn sat_add_u64(a: u64, b: u64) -> u64 {
    if a + b > u64::MAX {
        u64::MAX
    } else {
        (a + b) as u64
    }
}

/// Executable saturating addition.
pub fn sat_add(a: u64, b: u64) -> (r: u64)
    ensures
        r == sat_add_u64(a, b),
{
    if a > u64::MAX - b {
        u64::MAX
    } else {
        a + b
    }
}

/// Sum of the record counts, saturating.
pub open spec fn total_records(s: Seq<FileStat>) -> u64
    decreases s.len(),
{
    if s.len() == 0 {
        0
    } else {
        sat_add_u64(total_records(s.drop_last()), s.last().records)
    }
}

/// Sum of the document-store bytes, saturating.
pub open spec fn total_ndjson_bytes(s: Seq<FileStat>) -> u64
    decreases s.len(),
{
    if s.len() == 0 {
        0
    } else {
        sat_add_u64(total_ndjson_bytes(s.drop_last()), s.last().ndjson_bytes)
    }
}

/// Sum of the bulk bytes, saturating.
pub open spec fn total_bulk_bytes(s: Seq<FileStat>) -> u64
    decreases s.len(),
{
    if s.len() == 0 {
        0
    } else {
        sat_add_u64(total_bulk_bytes(s.drop_last()), s.last().bulk_bytes)
    }
}

/// How many files failed.
pub open spec fn error_count(s: Seq<FileStat>) -> nat
    decreases s.len(),
{
    if s.len() == 0 {
        0
    } else {
        error_count(s.drop_last()) + (if s.last().failed {
            1nat
        } else {
            0nat
        })
    }
}

/// The aggregated batch totals.
pub struct Totals {
    pub records: u64,
    pub ndjson_bytes: u64,
    pub bulk_bytes: u64,
    pub errors: usize,
}

/// Aggregates per-file results: sums saturate at `u64::MAX`, errors are
/// counted; collection order does not matter to the caller because every sum
/// is over all entries.
#[verifier::loop_isolation(false)]
pub fn aggregate(results: &Vec<FileStat>) -> (t: Totals)
    ensures
        t.records == total_records(results@),
        t.ndjson_bytes == total_ndjson_bytes(results@),
        t.bulk_bytes == total_bulk_bytes(results@),
        t.errors as nat == error_count(results@),
{
    let n = results.len();
    let mut records: u64 = 0;
    let mut nb: u64 = 0;
    let mut bb: u64 = 0;
    let mut errors: usize = 0;
    let mut i: usize = 0;
    while i < n
        invariant
            0 <= i <= n,
            errors <= i,
            records == total_records(results@.subrange(0, i as int)),
            nb == total_ndjson_bytes(results@.subrange(0, i as int)),
            bb == total_bulk_bytes(results@.subrange(0, i as int)),
            errors as nat == error_count(results@.subrange(0, i as int)),
        decreases n - i,
    {
        let r = &results[i];
        i = i + 1;
        proof {
            assert(results@.subrange(0, i as int).drop_last() =~= results@.subrange(0, i - 1));
            assert(results@.subrange(0, i as int).last() == results@[i - 1]);
        }
        records = sat_add(records, r.records);
        nb = sat_add(nb, r.ndjson_bytes);
        bb = sat_add(bb, r.bulk_bytes);
        if r.failed {
            errors = errors + 1;
        }
    }
    proof {
        assert(results@.subrange(0, n as int) =~= results@);
    }
    Totals { records, ndjson_bytes: nb, bulk_bytes: bb, errors }
}

/// Records per second by integer division; when the elapsed time rounds to
/// zero seconds the rate is the raw record count.
pub open spec fn spec_rate(records: u64, duration_ms: u64) -> u64 {
    if duration_ms / 1000 > 0 {
        (records / (duration_ms / 1000)) as u64
    } else {
        records
    }
}

/// Executable throughput rate.
pub fn rate_per_sec(records: u64, duration_ms: u64) -> (r: u64)
    ensures
        r == spec_rate(records, duration_ms),
{
    let secs = duration_ms / 1000;
    if secs > 0 {
        records / secs
    } else {
        records
    }
}

/// The run-start event line.
pub open spec fn start_event(
    files: u64,
    total_bytes: u64,
    threads: u64,
    input_dir: Seq<u8>,
    output_dir: Seq<u8>,
) -> Seq<u8> {
    lit("{\"event\":\"start\",") + int_member("files", files as nat) + lit(",") + int_member(
        "total_bytes",
        total_bytes as nat,
    ) + lit(",") + int_member("threads", threads as nat) + lit(",") + str_member(
        "input_dir",
        input_dir,
    ) + lit(",") + str_member("output_dir", output_dir) + lit("}")
}

/// Appends `"key":n` for a `u64`.
fn push_u64_member(out: &mut Vec<u8>, key: &str, n: u64)
    ensures
        final(out)@ == old(out)@ + int_member(key, n as nat),
{
    push_lit(out, "\"");
    push_lit(out, key);
    push_lit(out, "\":");
    push_u64_dec(out, n);
    proof {
        assert(out@ =~= old(out)@ + int_member(key, n as nat));
    }
}

/// Builds the run-start event line.
#[verifier::rlimit(60)]
pub fn build_start_event(files: u64, total_bytes: u64, threads: u64, input_dir: &[u8],
    output_dir: &[u8]) -> (r: Vec<u8>)
    ensures
        r@ == start_event(files, total_bytes, threads, input_dir@, output_dir@),
{
    let mut out: Vec<u8> = Vec::new();
    push_lit(&mut out, "{\"event\":\"start\",");
    push_u64_member(&mut out, "files", files);
    push_lit(&mut out, ",");
    push_u64_member(&mut out, "total_bytes", total_bytes);
    push_lit(&mut out, ",");
    push_u64_member(&mut out, "threads", threads);
    push_lit(&mut out, ",");
    push_str_member(&mut out, "input_dir", input_dir);
    push_lit(&mut out, ",");
    push_str_member(&mut out, "output_dir", output_dir);
    push_lit(&mut out, "}");
    proof {
        assert(out@ =~= start_event(files, total_bytes, threads, input_dir@, output_dir@));
    }
    out
}

/// The per-file completion event line, with its `done/total` progress text.
pub open spec fn file_done_event(
    file: Seq<u8>,
    records: u64,
    ndjson_bytes: u64,
    bulk_bytes: u64,
    duration_ms: u64,
    done: u64,
    total: u64,
) -> Seq<u8> {
    lit("{\"event\":\"file_done\",") + str_member("file", file) + lit(",") + int_member(
        "records",
        records as nat,
    ) + lit(",") + int_member("ndjson_bytes", ndjson_bytes as nat) + lit(",") + int_member(
        "bulk_bytes",
        bulk_bytes as nat,
    ) + lit(",") + int_member("duration_ms", duration_ms as nat) + lit(",") + int_member(
        "rate_per_sec",
        spec_rate(records, duration_ms) as nat,
    ) + lit(",\"progress\":\"") + dec_text(done as nat) + lit("/") + dec_text(total as nat) + lit(
        "\"}",
    )
}

/// Builds the per-file completion event line.
#[verifier::rlimit(60)]
pub fn build_file_done_event(file: &[u8], records: u64, ndjson_bytes: u64, bulk_bytes: u64,
    duration_ms: u64, done: u64, total: u64) -> (r: Vec<u8>)
    ensures
        r@ == file_done_event(file@, records, ndjson_bytes, bulk_bytes, duration_ms, done, total),
{
    let mut out: Vec<u8> = Vec::new();
    push_lit(&mut out, "{\"event\":\"file_done\",");
    push_str_member(&mut out, "file", file);
    push_lit(&mut out, ",");
    push_u64_member(&mut out, "records", records);
    push_lit(&mut out, ",");
    push_u64_member(&mut out, "ndjson_bytes", ndjson_bytes);
    push_lit(&mut out, ",");
    push_u64_member(&mut out, "bulk_bytes", bulk_bytes);
    push_lit(&mut out, ",");
    push_u64_member(&mut out, "duration_ms", duration_ms);
    push_lit(&mut out, ",");
    let rate = rate_per_sec(records, duration_ms);
    push_u64_member(&mut out, "rate_per_sec", rate);
    push_lit(&mut out, ",\"progress\":\"");
    push_u64_dec(&mut out, done);
    push_lit(&mut out, "/");
    push_u64_dec(&mut out, total);
    push_lit(&mut out, "\"}");
    proof {
        assert(out@ =~= file_done_event(
            file@,
            records,
            ndjson_bytes,
            bulk_bytes,
            duration_ms,
            done,
            total,
        ));
    }
    out
}

/// The first half of the batch summary line.
pub open spec fn complete_event_head(
    t_records: u64,
    t_ndjson: u64,
    t_bulk: u64,
    t_input: u64,
) -> Seq<u8> {
    lit("{\"event\":\"complete\",") + int_member("total_records", t_records as nat) + lit(",")
        + int_member("total_ndjson_bytes", t_ndjson as nat) + lit(",") + int_member(
        "total_bulk_bytes",
        t_bulk as nat,
    ) + lit(",") + int_member("total_input_bytes", t_input as nat)
}

/// The second half of the batch summary line.
pub open spec fn complete_event_tail(
    duration_ms: u64,
    rate: u64,
    files_processed: u64,
    files_total: u64,
    errors: u64,
    threads: u64,
    index: Seq<u8>,
) -> Seq<u8> {
    lit(",") + int_member("duration_ms", duration_ms as nat) + lit(",") + int_member(
        "rate_per_sec",
        rate as nat,
    ) + lit(",") + int_member("files_processed", files_processed as nat) + lit(",") + int_member(
        "files_total",
        files_total as nat,
    ) + lit(",") + int_member("errors", errors as nat) + lit(",") + int_member(
        "threads",
        threads as nat,
    ) + lit(",") + str_member("es_index", index) + lit("}")
}

/// The batch summary line, emitted exactly once at the end of a run.
pub open spec fn complete_event(
    t_records: u64,
    t_ndjson: u64,
    t_bulk: u64,
    t_input: u64,
    duration_ms: u64,
    files_processed: u64,
    files_total: u64,
    errors: u64,
    threads: u64,
    index: Seq<u8>,
) -> Seq<u8> {
    complete_event_head(t_records, t_ndjson, t_bulk, t_input) + complete_event_tail(
        duration_ms,
        spec_rate(t_records, duration_ms),
        files_processed,
        files_total,
        errors,
        threads,
        index,
    )
}

/// Builds the batch summary line; the rate is derived from the totals.
#[verifier::rlimit(60)]
pub fn build_complete_event(t_records: u64, t_ndjson: u64, t_bulk: u64, t_input: u64,
    duration_ms: u64, files_processed: u64, files_total: u64, errors: u64, threads: u64,
    index: &[u8]) -> (r: Vec<u8>)
    ensures
        r@ == complete_event(
            t_records,
            t_ndjson,
            t_bulk,
            t_input,
            duration_ms,
            files_processed,
            files_total,
            errors,
            threads,
            index@,
        ),
{
    let mut out: Vec<u8> = Vec::new();
    push_lit(&mut out, "{\"event\":\"complete\",");
    push_u64_member(&mut out, "total_records", t_records);
    push_lit(&mut out, ",");
    push_u64_member(&mut out, "total_ndjson_bytes", t_ndjson);
    push_lit(&mut out, ",");
    push_u64_member(&mut out, "total_bulk_bytes", t_bulk);
    push_lit(&mut out, ",");
    push_u64_member(&mut out, "total_input_bytes", t_input);
    proof {
        assert(out@ =~= complete_event_head(t_records, t_ndjson, t_bulk, t_input));
    }
    let ghost head = out@;
    push_lit(&mut out, ",");
    push_u64_member(&mut out, "duration_ms", duration_ms);
    push_lit(&mut out, ",");
    let rate = rate_per_sec(t_records, duration_ms);
    push_u64_member(&mut out, "rate_per_sec", rate);
    push_lit(&mut out, ",");
    push_u64_member(&mut out, "files_processed", files_processed);
    push_lit(&mut out, ",");
    push_u64_member(&mut out, "files_total", files_total);
    push_lit(&mut out, ",");
    push_u64_member(&mut out, "errors", errors);
    push_lit(&mut out, ",");
    push_u64_member(&mut out, "threads", threads);
    push_lit(&mut out, ",");
    push_str_member(&mut out, "es_index", index);
    push_lit(&mut out, "}");
    proof {
        assert(out@ =~= head + complete_event_tail(
            duration_ms,
            spec_rate(t_records, duration_ms),
            files_processed,
            files_total,
            errors,
            threads,
            index@,
        ));
    }
    out
}

/// One error line per failed file: `ERROR: <file>: <message>`.
pub open spec fn error_line(file: Seq<u8>, message: Seq<u8>) -> Seq<u8> {
    lit("ERROR: ") + file + lit(": ") + message
}

/// Builds an error line.
pub fn build_error_line(file: &[u8], message: &[u8]) -> (r: Vec<u8>)
    ensures
        r@ == error_line(file@, message@),
{
    let mut out: Vec<u8> = Vec::new();
    push_lit(&mut out, "ERROR: ");
    crate::bytes::push_all(&mut out, file);
    push_lit(&mut out, ": ");
    crate::bytes::push_all(&mut out, message);
    proof {
        assert(out@ =~= error_line(file@, message@));
    }
    out
}

/// The rejection message for a file without a part-number column.
pub fn missing_part_number_message() -> (r: Vec<u8>)
    ensures
        r@ == lit("no part number column detected"),
{
    let mut out: Vec<u8> = Vec::new();
    push_lit(&mut out, "no part number column detected");
    proof {
        assert(out@ =~= lit("no part number column detected"));
    }
    out
}

} // verus!

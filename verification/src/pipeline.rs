//! The per-file pipeline: delimiter detection, header resolution, streaming
//! row projection and dual serialization, and the per-file outcome.

use vstd::prelude::*;
use crate::coerce::{count_byte, find_byte_from, lemma_find_byte_from_bounds,
    lemma_norm_integer_nonneg};
use crate::csvrows::{csv_rows, parse_csv};
use crate::resolve::{ColumnMap, resolve_headers, norm_header, pred_part_number,
    lemma_part_number_none};
use crate::project::{RunContext, spec_project, project_row, part_view,
    extract_stock_code_from_filename};
use crate::emit::{ndjson_line, bulk_doc_line, action_line, push_ndjson_line, push_bulk_doc_line,
    push_action_line, emittable};

verus! {

/// The first line of a file, up to an exclusive `\n`.
pub open spec fn first_line(content: Seq<u8>) -> Seq<u8> {
    content.subrange(0, find_byte_from(content, 0x0a, 0))
}

/// The delimiter a file is read with: `;` when the first line holds more
/// semicolons than commas, else `,`.
pub open spec fn spec_delim(content: Seq<u8>) -> u8 {
    if count_byte(first_line(content), 0x3b) > count_byte(first_line(content), 0x2c) {
        0x3b
    } else {
        0x2c
    }
}

/// Executable delimiter detection.
#[verifier::loop_isolation(false)]
pub fn detect_delimiter(content: &[u8]) -> (d: u8)
    ensures
        d == spec_delim(content@),
{
    let n = content.len();
    let mut semis: usize = 0;
    let mut commas: usize = 0;
    let mut i: usize = 0;
    proof {
        lemma_find_byte_from_bounds(content@, 0x0a, 0);
    }
    while i < n && content[i] != 0x0a
        invariant
            0 <= i <= n,
            semis <= i,
            commas <= i,
            find_byte_from(content@, 0x0a, 0) == find_byte_from(content@, 0x0a, i as int),
            semis == count_byte(content@.subrange(0, i as int), 0x3b),
            commas == count_byte(content@.subrange(0, i as int), 0x2c),
        decreases n - i,
    {
        let b = content[i];
        proof {
            assert(content@.subrange(0, i + 1).drop_last() =~= content@.subrange(0, i as int));
            assert(content@.subrange(0, i + 1).last() == content@[i as int]);
        }
        if b == 0x3b {
            semis = semis + 1;
        }
        if b == 0x2c {
            commas = commas + 1;
        }
        i = i + 1;
    }
    proof {
        assert(find_byte_from(content@, 0x0a, 0) == i as int);
        assert(first_line(content@) == content@.subrange(0, i as int));
    }
    if semis > commas {
        0x3b
    } else {
        0x2c
    }
}

/// The running totals while a file's rows stream through the projector.
pub struct StreamAcc {
    pub ndjson: Seq<u8>,
    pub bulk: Seq<u8>,
    pub records: nat,
}

/// The accumulated output after the first `n` rows (row 0 is the header and
/// contributes nothing): each accepted row appends one document-store line to
/// the first stream and an action line plus one document line to the second;
/// a row whose part number resolves empty is skipped.
pub open spec fn spec_stream(
    cm: ColumnMap,
    rows: Seq<Seq<Seq<u8>>>,
    n: int,
    integration: Seq<u8>,
    integration_name: Seq<u8>,
    file_name: Seq<u8>,
    imported_at: Seq<u8>,
    index: Seq<u8>,
) -> StreamAcc
    decreases n,
{
    if n <= 1 {
        StreamAcc { ndjson: Seq::empty(), bulk: Seq::empty(), records: 0 }
    } else {
        let prev = spec_stream(
            cm,
            rows,
            n - 1,
            integration,
            integration_name,
            file_name,
            imported_at,
            index,
        );
        match spec_project(cm, rows[n - 1], integration, integration_name, file_name) {
            Some(p) => StreamAcc {
                ndjson: prev.ndjson + ndjson_line(p, imported_at),
                bulk: prev.bulk + action_line(index) + bulk_doc_line(p),
                records: prev.records + 1,
            },
            None => prev,
        }
    }
}

/// The file's header row: the first parsed row, or nothing.
pub open spec fn spec_headers(content: Seq<u8>) -> Seq<Seq<u8>> {
    let rows = csv_rows(content, spec_delim(content));
    if rows.len() > 0 {
        rows[0]
    } else {
        Seq::empty()
    }
}

/// The outcome of one file: both serialized streams, the accepted record
/// count, and whether the file was rejected for want of a part-number column.
pub struct PipeOutcome {
    pub ndjson: Seq<u8>,
    pub bulk: Seq<u8>,
    pub records: nat,
    pub missing_part_number: bool,
}

/// What processing a file's bytes yields: with no resolvable part-number
/// column the file is rejected with empty outputs; otherwise every data row
/// streams through projection and dual serialization.
pub open spec fn spec_process(
    content: Seq<u8>,
    integration: Seq<u8>,
    integration_name: Seq<u8>,
    file_name: Seq<u8>,
    imported_at: Seq<u8>,
    index: Seq<u8>,
) -> PipeOutcome {
    let d = spec_delim(content);
    let rows = csv_rows(content, d);
    let cm = resolve_headers(spec_headers(content));
    if cm.part_number is None {
        PipeOutcome { ndjson: Seq::empty(), bulk: Seq::empty(), records: 0, missing_part_number: true }
    } else {
        let acc = spec_stream(
            cm,
            rows,
            rows.len() as int,
            integration,
            integration_name,
            file_name,
            imported_at,
            index,
        );
        PipeOutcome {
            ndjson: acc.ndjson,
            bulk: acc.bulk,
            records: acc.records,
            missing_part_number: false,
        }
    }
}

/// The per-file result handed back to the caller.
pub struct FileOutputs {
    pub ndjson: Vec<u8>,
    pub bulk: Vec<u8>,
    pub records: u64,
    pub part_number_missing: bool,
}

/// Processes one file's bytes end to end: detects the delimiter, parses the
/// rows, resolves the header, and streams every data row into the two output
/// buffers. Rejects the file (zero records, empty outputs) exactly when no
/// header matches the part-number rule.
#[verifier::loop_isolation(false)]
#[verifier::rlimit(100)]
pub fn process_file_content(content: &[u8], ctx: &RunContext, imported_at: &Vec<u8>,
    index_name: &Vec<u8>) -> (r: FileOutputs)
    ensures
        ({
            let o = spec_process(
                content@,
                ctx.integration@,
                ctx.integration_name@,
                ctx.file_name@,
                imported_at@,
                index_name@,
            );
            &&& r.ndjson@ == o.ndjson
            &&& r.bulk@ == o.bulk
            &&& r.records as nat == o.records
            &&& r.part_number_missing == o.missing_part_number
        }),
{
    let d = detect_delimiter(content);
    let rows = parse_csv(content, d);
    let ghost rowsdv = rows.deep_view();
    let cm;
    if rows.len() > 0 {
        cm = ColumnMap::from_headers(&rows[0]);
        proof {
            assert(rows@[0].deep_view() == rowsdv[0]);
            assert(spec_headers(content@) == rowsdv[0]);
        }
    } else {
        let none_row: Vec<Vec<u8>> = Vec::new();
        cm = ColumnMap::from_headers(&none_row);
        proof {
            assert(none_row.deep_view() =~~= Seq::<Seq<u8>>::empty());
            assert(spec_headers(content@) == Seq::<Seq<u8>>::empty());
        }
    }
    proof {
        assert(cm == resolve_headers(spec_headers(content@)));
    }
    if cm.part_number.is_none() {
        return FileOutputs {
            ndjson: Vec::new(),
            bulk: Vec::new(),
            records: 0,
            part_number_missing: true,
        };
    }
    let filename_code = extract_stock_code_from_filename(ctx.file_name.as_slice());
    let mut ndjson: Vec<u8> = Vec::new();
    let mut bulk: Vec<u8> = Vec::new();
    let mut records: u64 = 0;
    let n = rows.len();
    let mut i: usize = 1;
    while i < n
        invariant
            1 <= i <= n || (n == 0 && i == 1),
            records <= i,
            ({
                let acc = spec_stream(
                    cm,
                    rowsdv,
                    i as int,
                    ctx.integration@,
                    ctx.integration_name@,
                    ctx.file_name@,
                    imported_at@,
                    index_name@,
                );
                ndjson@ == acc.ndjson && bulk@ == acc.bulk && records as nat == acc.records
            }),
        decreases n - i,
    {
        let ghost prev = spec_stream(
            cm,
            rowsdv,
            i as int,
            ctx.integration@,
            ctx.integration_name@,
            ctx.file_name@,
            imported_at@,
            index_name@,
        );
        proof {
            assert(rows@[i as int].deep_view() == rowsdv[i as int]);
        }
        let projected = project_row(&cm, &rows[i], ctx, &filename_code);
        match projected {
            Some(p) => {
                proof {
                    let sp = spec_project(
                        cm,
                        rowsdv[i as int],
                        ctx.integration@,
                        ctx.integration_name@,
                        ctx.file_name@,
                    )->Some_0;
                    assert(part_view(&p) == sp);
                    lemma_norm_integer_nonneg(
                        crate::project::field_of(rowsdv[i as int], cm.quantity),
                    );
                    lemma_norm_integer_nonneg(
                        crate::project::field_of(rowsdv[i as int], cm.delivery_days),
                    );
                    lemma_norm_integer_nonneg(
                        crate::project::field_of(rowsdv[i as int], cm.min_order_qty),
                    );
                    assert(emittable(part_view(&p)));
                }
                push_ndjson_line(&mut ndjson, &p, imported_at.as_slice());
                push_action_line(&mut bulk, index_name.as_slice());
                push_bulk_doc_line(&mut bulk, &p);
                records = records + 1;
                proof {
                    assert(bulk@ =~= prev.bulk + action_line(index_name@) + bulk_doc_line(
                        part_view(&p),
                    ));
                }
            },
            None => {
            },
        }
        i = i + 1;
        proof {
            let acc = spec_stream(
                cm,
                rowsdv,
                i as int,
                ctx.integration@,
                ctx.integration_name@,
                ctx.file_name@,
                imported_at@,
                index_name@,
            );
            assert(ndjson@ == acc.ndjson && bulk@ == acc.bulk && records as nat == acc.records);
        }
    }
    FileOutputs { ndjson, bulk, records, part_number_missing: false }
}

/// Mandatory-field invariant: when no header of a file matches the
/// part-number rule, processing that file yields zero records, empty output
/// streams, and the missing-part-number rejection.
pub proof fn lemma_unresolvable_header_yields_nothing(
    content: Seq<u8>,
    integration: Seq<u8>,
    integration_name: Seq<u8>,
    file_name: Seq<u8>,
    imported_at: Seq<u8>,
    index: Seq<u8>,
)
    requires
        forall|j: int|
            0 <= j < spec_headers(content).len() ==> !pred_part_number(
                norm_header(spec_headers(content)[j]),
            ),
    ensures
        ({
            let o = spec_process(content, integration, integration_name, file_name, imported_at,
                index);
            o.missing_part_number && o.records == 0 && o.ndjson == Seq::<u8>::empty() && o.bulk
                == Seq::<u8>::empty()
        }),
{
    lemma_part_number_none(spec_headers(content));
}

/// With a fixed input the bulk stream, the record count and the rejection
/// flag do not depend on the import timestamp: only the document-store lines
/// carry it. (With the timestamp also fixed, the whole outcome is a function
/// of the input alone, so two runs agree byte for byte.)
pub proof fn lemma_bulk_independent_of_timestamp(
    content: Seq<u8>,
    integration: Seq<u8>,
    integration_name: Seq<u8>,
    file_name: Seq<u8>,
    ts1: Seq<u8>,
    ts2: Seq<u8>,
    index: Seq<u8>,
)
    ensures
        ({
            let r1 = spec_process(content, integration, integration_name, file_name, ts1, index);
            let r2 = spec_process(content, integration, integration_name, file_name, ts2, index);
            r1.bulk == r2.bulk && r1.records == r2.records && r1.missing_part_number
                == r2.missing_part_number
        }),
{
    let d = spec_delim(content);
    let rows = csv_rows(content, d);
    let cm = resolve_headers(spec_headers(content));
    lemma_stream_bulk_ts(
        cm,
        rows,
        rows.len() as int,
        integration,
        integration_name,
        file_name,
        ts1,
        ts2,
        index,
    );
}

proof fn lemma_stream_bulk_ts(
    cm: ColumnMap,
    rows: Seq<Seq<Seq<u8>>>,
    n: int,
    integration: Seq<u8>,
    integration_name: Seq<u8>,
    file_name: Seq<u8>,
    ts1: Seq<u8>,
    ts2: Seq<u8>,
    index: Seq<u8>,
)
    ensures
        ({
            let a1 = spec_stream(cm, rows, n, integration, integration_name, file_name, ts1,
                index);
            let a2 = spec_stream(cm, rows, n, integration, integration_name, file_name, ts2,
                index);
            a1.bulk == a2.bulk && a1.records == a2.records
        }),
    decreases n,
{
    if n > 1 {
        lemma_stream_bulk_ts(
            cm,
            rows,
            n - 1,
            integration,
            integration_name,
            file_name,
            ts1,
            ts2,
            index,
        );
    }
}

} // verus!

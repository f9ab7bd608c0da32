//! The CSV and Markdown views of an M4 benchmark report.
use crate::m4_reports::{M4BenchmarkReport, M4CaseRecord};
use crate::text::{decimal, decimal_text};
use vstd::prelude::*;
use vstd::string::StringExecFns;

verus! {

pub const M4_CSV_HEADER: &'static str = "program,name,pvm_program_commitment,translated_program_commitment,input_commitment,reference_output_hex,proven_output_hex,translation_ns,emission_ns,build_ns,transpile_ns,app_keygen_ns,agg_keygen_ns,keygen_ns,execute_ns,prove_ns,verify_ns,proof_bytes,complete\n";

pub const M4_MARKDOWN_TITLE: &'static str = "# ZK-JAM M4 Proven Translation Benchmark\n\n- Translation version: `";

pub const M4_MARKDOWN_TABLE_HEADER: &'static str = "| Program | Case | Prove ns | Verify ns | Proof bytes | Program bound | Input bound | Output matches | Complete |\n|---|---|---:|---:|---:|:---:|:---:|:---:|:---:|\n";

pub const M4_MARKDOWN_FOOTER: &'static str = "\nM4 proves the checked-in bounded PVM fixtures through deterministic Translation IR and generated OpenVM guest source. Full JAM Refine, Host Calls, GAS, sub-VM, Native AIR, and consensus semantics are outside this milestone.\n";

/// `true` or `false`.
pub open spec fn bool_text(b: bool) -> Seq<char> {
    if b {
        "true"@
    } else {
        "false"@
    }
}

/// One CSV row: the case's text fields, its timings and proof size in decimal, and whether it
/// is complete, separated by commas.
pub open spec fn csv_row(c: M4CaseRecord) -> Seq<char> {
    c.program@ + ","@ + c.name@ + ","@ + c.pvm_program_commitment@ + ","@
        + c.translated_program_commitment@ + ","@ + c.input_commitment@ + ","@
        + c.reference_output_hex@ + ","@ + c.proven_output_hex@ + ","@ + decimal(
        c.translation_ns as nat,
    ) + ","@ + decimal(c.emission_ns as nat) + ","@ + decimal(c.build_ns as nat) + ","@ + decimal(
        c.transpile_ns as nat,
    ) + ","@ + decimal(c.app_keygen_ns as nat) + ","@ + decimal(c.agg_keygen_ns as nat) + ","@
        + decimal(c.keygen_ns as nat) + ","@ + decimal(c.execute_ns as nat) + ","@ + decimal(
        c.prove_ns as nat,
    ) + ","@ + decimal(c.verify_ns as nat) + ","@ + decimal(c.proof_bytes as nat) + ","@
        + bool_text(c.complete) + "\n"@
}

pub open spec fn csv_rows(cs: Seq<M4CaseRecord>) -> Seq<char>
    decreases cs.len(),
{
    if cs.len() == 0 {
        Seq::empty()
    } else {
        csv_rows(cs.drop_last()) + csv_row(cs.last())
    }
}

/// The CSV view of a report: the header, then one row per case.
pub open spec fn m4_csv(r: M4BenchmarkReport) -> Seq<char> {
    M4_CSV_HEADER@ + csv_rows(r.cases@)
}

/// The Markdown summary lines of a report, with the collection time in nanoseconds.
pub open spec fn markdown_summary(r: M4BenchmarkReport, elapsed_ns: u128) -> Seq<char> {
    M4_MARKDOWN_TITLE@ + decimal(r.translation_version as nat) + "`\n- ZK-JAM revision: `"@
        + r.zk_jam_revision@ + "`\n- Git dirty: `"@ + bool_text(r.git_dirty) + "`\n- Jambda: `"@
        + r.jambda_repository@ + "`\n- Jambda revision: `"@ + r.jambda_revision@
        + "`\n- Jambda provenance verified: `"@ + bool_text(r.jambda_provenance_verified)
        + "`\n- OpenVM: `"@ + r.openvm_version@ + "` at `"@ + r.openvm_revision@
        + "`\n- Guest toolchain: `"@ + r.guest_toolchain@ + "`\n- Programs: `"@ + decimal(
        r.programs as nat,
    ) + "`\n- Program reuse verified: `"@ + bool_text(r.program_reuse_verified) + "`\n- Cases: `"@
        + decimal(r.cases@.len()) + "`\n- Complete: `"@ + bool_text(r.complete)
        + "`\n- Publication ready: `"@ + bool_text(r.publication_ready) + "`\n- Collection time: "@
        + decimal(elapsed_ns as nat) + " ns\n\n"@
}

/// One Markdown table row: program, case, proving and verifying time, proof size and the four
/// checks.
pub open spec fn markdown_row(c: M4CaseRecord) -> Seq<char> {
    "| "@ + c.program@ + " | "@ + c.name@ + " | "@ + decimal(c.prove_ns as nat) + " | "@ + decimal(
        c.verify_ns as nat,
    ) + " | "@ + decimal(c.proof_bytes as nat) + " | "@ + bool_text(c.program_binding_verified)
        + " | "@ + bool_text(c.input_binding_verified) + " | "@ + bool_text(
        c.output_matches_reference,
    ) + " | "@ + bool_text(c.complete) + " |\n"@
}

pub open spec fn markdown_rows(cs: Seq<M4CaseRecord>) -> Seq<char>
    decreases cs.len(),
{
    if cs.len() == 0 {
        Seq::empty()
    } else {
        markdown_rows(cs.drop_last()) + markdown_row(cs.last())
    }
}

/// The Markdown view of a report: the summary, the table of cases and the scope note.
pub open spec fn m4_markdown(r: M4BenchmarkReport, elapsed_ns: u128) -> Seq<char> {
    markdown_summary(r, elapsed_ns) + M4_MARKDOWN_TABLE_HEADER@ + markdown_rows(r.cases@)
        + M4_MARKDOWN_FOOTER@
}

fn push_text(out: &mut String, s: &String)
    ensures
        final(out)@ == old(out)@ + s@,
{
    out.append(s.as_str());
}

fn push_decimal(out: &mut String, n: u128)
    ensures
        final(out)@ == old(out)@ + decimal(n as nat),
{
    let digits = decimal_text(n);
    out.append(digits.as_str());
}

fn push_bool(out: &mut String, b: bool)
    ensures
        final(out)@ == old(out)@ + bool_text(b),
{
    if b {
        out.append("true");
    } else {
        out.append("false");
    }
}

fn csv_row_text(c: &M4CaseRecord) -> (r: String)
    ensures
        r@ == csv_row(*c),
{
    let mut row = c.program.clone();
    row.append(",");
    push_text(&mut row, &c.name);
    row.append(",");
    push_text(&mut row, &c.pvm_program_commitment);
    row.append(",");
    push_text(&mut row, &c.translated_program_commitment);
    row.append(",");
    push_text(&mut row, &c.input_commitment);
    row.append(",");
    push_text(&mut row, &c.reference_output_hex);
    row.append(",");
    push_text(&mut row, &c.proven_output_hex);
    row.append(",");
    push_decimal(&mut row, c.translation_ns);
    row.append(",");
    push_decimal(&mut row, c.emission_ns);
    row.append(",");
    push_decimal(&mut row, c.build_ns);
    row.append(",");
    push_decimal(&mut row, c.transpile_ns);
    row.append(",");
    push_decimal(&mut row, c.app_keygen_ns);
    row.append(",");
    push_decimal(&mut row, c.agg_keygen_ns);
    row.append(",");
    push_decimal(&mut row, c.keygen_ns);
    row.append(",");
    push_decimal(&mut row, c.execute_ns);
    row.append(",");
    push_decimal(&mut row, c.prove_ns);
    row.append(",");
    push_decimal(&mut row, c.verify_ns);
    row.append(",");
    push_decimal(&mut row, c.proof_bytes as u128);
    row.append(",");
    push_bool(&mut row, c.complete);
    row.append("\n");
    row
}

fn markdown_row_text(c: &M4CaseRecord) -> (r: String)
    ensures
        r@ == markdown_row(*c),
{
    let mut row = "| ".to_owned();
    push_text(&mut row, &c.program);
    row.append(" | ");
    push_text(&mut row, &c.name);
    row.append(" | ");
    push_decimal(&mut row, c.prove_ns);
    row.append(" | ");
    push_decimal(&mut row, c.verify_ns);
    row.append(" | ");
    push_decimal(&mut row, c.proof_bytes as u128);
    row.append(" | ");
    push_bool(&mut row, c.program_binding_verified);
    row.append(" | ");
    push_bool(&mut row, c.input_binding_verified);
    row.append(" | ");
    push_bool(&mut row, c.output_matches_reference);
    row.append(" | ");
    push_bool(&mut row, c.complete);
    row.append(" |\n");
    row
}

/// The CSV view of `report`.
pub fn render_csv(report: &M4BenchmarkReport) -> (r: String)
    ensures
        r@ == m4_csv(*report),
{
    let ghost cs = report.cases@;
    let mut out = M4_CSV_HEADER.to_owned();
    let mut i: usize = 0;
    while i < report.cases.len()
        invariant
            cs == report.cases@,
            0 <= i <= cs.len(),
            out@ == M4_CSV_HEADER@ + csv_rows(cs.take(i as int)),
        decreases cs.len() - i,
    {
        let row = csv_row_text(&report.cases[i]);
        out.append(row.as_str());
        assert(cs.take(i + 1).drop_last() =~= cs.take(i as int));
        i = i + 1;
        assert(out@ =~= M4_CSV_HEADER@ + csv_rows(cs.take(i as int)));
    }
    assert(cs.take(i as int) =~= cs);
    out
}

fn summary_text(report: &M4BenchmarkReport, elapsed_ns: u128) -> (r: String)
    ensures
        r@ == markdown_summary(*report, elapsed_ns),
{
    let mut text = M4_MARKDOWN_TITLE.to_owned();
    push_decimal(&mut text, report.translation_version as u128);
    text.append("`\n- ZK-JAM revision: `");
    push_text(&mut text, &report.zk_jam_revision);
    text.append("`\n- Git dirty: `");
    push_bool(&mut text, report.git_dirty);
    text.append("`\n- Jambda: `");
    push_text(&mut text, &report.jambda_repository);
    text.append("`\n- Jambda revision: `");
    push_text(&mut text, &report.jambda_revision);
    text.append("`\n- Jambda provenance verified: `");
    push_bool(&mut text, report.jambda_provenance_verified);
    text.append("`\n- OpenVM: `");
    push_text(&mut text, &report.openvm_version);
    text.append("` at `");
    push_text(&mut text, &report.openvm_revision);
    text.append("`\n- Guest toolchain: `");
    push_text(&mut text, &report.guest_toolchain);
    text.append("`\n- Programs: `");
    push_decimal(&mut text, report.programs as u128);
    text.append("`\n- Program reuse verified: `");
    push_bool(&mut text, report.program_reuse_verified);
    text.append("`\n- Cases: `");
    push_decimal(&mut text, report.cases.len() as u128);
    text.append("`\n- Complete: `");
    push_bool(&mut text, report.complete);
    text.append("`\n- Publication ready: `");
    push_bool(&mut text, report.publication_ready);
    text.append("`\n- Collection time: ");
    push_decimal(&mut text, elapsed_ns);
    text.append(" ns\n\n");
    text
}

/// The Markdown view of `report`, with the collection time `elapsed_ns`.
pub fn render_markdown(report: &M4BenchmarkReport, elapsed_ns: u128) -> (r: String)
    ensures
        r@ == m4_markdown(*report, elapsed_ns),
{
    let ghost cs = report.cases@;
    let mut out = summary_text(report, elapsed_ns);
    out.append(M4_MARKDOWN_TABLE_HEADER);
    let ghost head = out@;
    let mut i: usize = 0;
    while i < report.cases.len()
        invariant
            cs == report.cases@,
            0 <= i <= cs.len(),
            head == markdown_summary(*report, elapsed_ns) + M4_MARKDOWN_TABLE_HEADER@,
            out@ == head + markdown_rows(cs.take(i as int)),
        decreases cs.len() - i,
    {
        let row = markdown_row_text(&report.cases[i]);
        out.append(row.as_str());
        assert(cs.take(i + 1).drop_last() =~= cs.take(i as int));
        i = i + 1;
        assert(out@ =~= head + markdown_rows(cs.take(i as int)));
    }
    assert(cs.take(i as int) =~= cs);
    out.append(M4_MARKDOWN_FOOTER);
    assert(out@ =~= m4_markdown(*report, elapsed_ns));
    out
}

} // verus!

use crate::engine::{Results, ShrinkMetrics};
use crate::text::{
    count_char, decimal, lemma_count_absent, lemma_count_concat, lemma_count_single,
    lemma_decimal_digits_only, push_decimal,
};
use vstd::prelude::*;
use vstd::string::*;

verus! {

/// The header columns of the scenarios `rs`, in order.
pub open spec fn header_cells(rs: Seq<Results>) -> Seq<char>
    decreases rs.len(),
{
    if rs.len() == 0 {
        Seq::empty()
    } else {
        header_cells(rs.drop_last()) + rs.last().name@ + "_time_taken_micros\t"@ + rs.last().name@
            + "_iterations\t"@
    }
}

/// The header line, with its newline.
pub open spec fn header_line(rs: Seq<Results>) -> Seq<char> {
    "# "@ + header_cells(rs) + "\n"@
}

/// The two cells of one failure record.
pub open spec fn metric_cells(m: ShrinkMetrics) -> Seq<char> {
    decimal(m.time_taken_micros as nat) + "\t"@ + decimal(m.iterations as nat) + "\t"@
}

/// The cells of data row `k`: the `k`-th failure record of each scenario.
pub open spec fn row_cells(rs: Seq<Results>, k: int) -> Seq<char>
    decreases rs.len(),
{
    if rs.len() == 0 {
        Seq::empty()
    } else {
        row_cells(rs.drop_last(), k) + metric_cells(rs.last().shrink_metrics@[k])
    }
}

/// The first `n` data rows, each with its newline.
pub open spec fn rows(rs: Seq<Results>, n: nat) -> Seq<char>
    decreases n,
{
    if n == 0 {
        Seq::empty()
    } else {
        rows(rs, (n - 1) as nat) + row_cells(rs, n - 1) + "\n"@
    }
}

/// The whole table: a header line, then one row per failure record of the
/// first scenario.
pub open spec fn tsv_text(rs: Seq<Results>) -> Seq<char> {
    header_line(rs) + rows(rs, rs[0].shrink_metrics@.len())
}

/// Every scenario holds at least as many failure records as the first.
pub open spec fn rows_available(rs: Seq<Results>) -> bool {
    &&& rs.len() > 0
    &&& forall|i: int| 0 <= i < rs.len() ==> #[trigger] rs[i].shrink_metrics@.len() >= rs[0].shrink_metrics@.len()
}

/// Appends the tab-separated table of `all_results` to `output`.
pub fn write_tsv(all_results: &[Results], output: &mut String)
    requires
        rows_available(all_results@),
    ensures
        final(output)@ == old(output)@ + tsv_text(all_results@),
{
    let ghost rs = all_results@;
    proof {
        reveal_strlit("# ");
        reveal_strlit("\n");
    }
    output.append("# ");
    let mut i: usize = 0;
    while i < all_results.len()
        invariant
            rs == all_results@,
            0 <= i <= rs.len(),
            output@ == old(output)@ + "# "@ + header_cells(rs.take(i as int)),
        decreases rs.len() - i,
    {
        let result = &all_results[i];
        output.append(result.name);
        output.append("_time_taken_micros\t");
        output.append(result.name);
        output.append("_iterations\t");
        proof {
            assert(rs.take(i + 1).drop_last() =~= rs.take(i as int));
        }
        i = i + 1;
    }
    assert(rs.take(rs.len() as int) =~= rs);
    output.append("\n");
    let row_count = all_results[0].shrink_metrics.len();
    let mut k: usize = 0;
    while k < row_count
        invariant
            rs == all_results@,
            rows_available(rs),
            row_count == rs[0].shrink_metrics@.len(),
            0 <= k <= row_count,
            output@ == old(output)@ + header_line(rs) + rows(rs, k as nat),
        decreases row_count - k,
    {
        let ghost before = output@;
        let mut j: usize = 0;
        while j < all_results.len()
            invariant
                rs == all_results@,
                rows_available(rs),
                row_count == rs[0].shrink_metrics@.len(),
                0 <= k < row_count,
                0 <= j <= rs.len(),
                output@ == before + row_cells(rs.take(j as int), k as int),
            decreases rs.len() - j,
        {
            let result = &all_results[j];
            assert(rs[j as int].shrink_metrics@.len() >= row_count);
            let row = result.shrink_metrics[k];
            push_decimal(output, row.time_taken_micros);
            output.append("\t");
            push_decimal(output, row.iterations as u128);
            output.append("\t");
            proof {
                reveal_strlit("\t");
                assert(rs.take(j + 1).drop_last() =~= rs.take(j as int));
            }
            j = j + 1;
        }
        assert(rs.take(rs.len() as int) =~= rs);
        output.append("\n");
        k = k + 1;
    }
    assert(output@ =~= old(output)@ + tsv_text(rs));
}

proof fn lemma_header_cells_one_line(rs: Seq<Results>)
    requires
        forall|i: int| 0 <= i < rs.len() ==> count_char(#[trigger] rs[i].name@, '\n') == 0,
    ensures
        count_char(header_cells(rs), '\n') == 0,
    decreases rs.len(),
{
    if rs.len() > 0 {
        let name = rs.last().name@;
        assert(count_char(name, '\n') == 0) by {
            assert(rs.last() == rs[rs.len() - 1]);
        }
        lemma_header_cells_one_line(rs.drop_last());
        reveal_strlit("_time_taken_micros\t");
        reveal_strlit("_iterations\t");
        lemma_count_absent("_time_taken_micros\t"@, '\n');
        lemma_count_absent("_iterations\t"@, '\n');
        let a = header_cells(rs.drop_last());
        lemma_count_concat(a, name, '\n');
        lemma_count_concat(a + name, "_time_taken_micros\t"@, '\n');
        lemma_count_concat(a + name + "_time_taken_micros\t"@, name, '\n');
        lemma_count_concat(
            a + name + "_time_taken_micros\t"@ + name,
            "_iterations\t"@,
            '\n',
        );
    }
}

proof fn lemma_metric_cells_shape(m: ShrinkMetrics)
    ensures
        count_char(metric_cells(m), '\t') == 2,
        count_char(metric_cells(m), '\n') == 0,
{
    reveal_strlit("\t");
    let a = decimal(m.time_taken_micros as nat);
    let b = decimal(m.iterations as nat);
    let t = "\t"@;
    assert(t =~= seq!['\t']);
    lemma_count_single('\t', '\t');
    lemma_count_single('\t', '\n');
    lemma_decimal_digits_only(m.time_taken_micros as nat, '\t');
    lemma_decimal_digits_only(m.time_taken_micros as nat, '\n');
    lemma_decimal_digits_only(m.iterations as nat, '\t');
    lemma_decimal_digits_only(m.iterations as nat, '\n');
    lemma_count_concat(a, t, '\t');
    lemma_count_concat(a + t, b, '\t');
    lemma_count_concat(a + t + b, t, '\t');
    lemma_count_concat(a, t, '\n');
    lemma_count_concat(a + t, b, '\n');
    lemma_count_concat(a + t + b, t, '\n');
}

proof fn lemma_row_cells_shape(rs: Seq<Results>, k: int)
    ensures
        count_char(row_cells(rs, k), '\t') == 2 * rs.len(),
        count_char(row_cells(rs, k), '\n') == 0,
    decreases rs.len(),
{
    if rs.len() > 0 {
        lemma_row_cells_shape(rs.drop_last(), k);
        let m = rs.last().shrink_metrics@[k];
        lemma_metric_cells_shape(m);
        lemma_count_concat(row_cells(rs.drop_last(), k), metric_cells(m), '\t');
        lemma_count_concat(row_cells(rs.drop_last(), k), metric_cells(m), '\n');
    }
}

proof fn lemma_rows_lines(rs: Seq<Results>, n: nat)
    ensures
        count_char(rows(rs, n), '\n') == n,
    decreases n,
{
    if n > 0 {
        reveal_strlit("\n");
        lemma_rows_lines(rs, (n - 1) as nat);
        lemma_row_cells_shape(rs, n - 1);
        lemma_count_single('\n', '\n');
        assert("\n"@ =~= seq!['\n']);
        lemma_count_concat(rows(rs, (n - 1) as nat), row_cells(rs, n - 1), '\n');
        lemma_count_concat(rows(rs, (n - 1) as nat) + row_cells(rs, n - 1), "\n"@, '\n');
    }
}

/// The table of `n` scenarios that each hold `m` failure records (names
/// without line breaks) has one header line and `m` data rows after it: it
/// holds `m + 1` line breaks, the header line ends in one, and each data row
/// is `2 * n` cells, each ending in a tab, followed by its line break.
pub proof fn lemma_report_shape(rs: Seq<Results>)
    requires
        rows_available(rs),
        forall|i: int| 0 <= i < rs.len() ==> count_char(#[trigger] rs[i].name@, '\n') == 0,
    ensures
        tsv_text(rs) == header_line(rs) + rows(rs, rs[0].shrink_metrics@.len()),
        count_char(header_line(rs), '\n') == 1,
        header_line(rs).last() == '\n',
        count_char(tsv_text(rs), '\n') == rs[0].shrink_metrics@.len() + 1,
        forall|k: nat|
            k < rs[0].shrink_metrics@.len() ==> rows(rs, k + 1) == rows(rs, k) + row_cells(rs, k as int)
                + "\n"@,
        forall|k: int|
            #![trigger row_cells(rs, k)]
            0 <= k < rs[0].shrink_metrics@.len() ==> count_char(row_cells(rs, k), '\t') == 2
                * rs.len() && count_char(row_cells(rs, k), '\n') == 0,
{
    reveal_strlit("# ");
    reveal_strlit("\n");
    let m = rs[0].shrink_metrics@.len();
    lemma_header_cells_one_line(rs);
    lemma_count_absent("# "@, '\n');
    lemma_count_single('\n', '\n');
    assert("\n"@ =~= seq!['\n']);
    lemma_count_concat("# "@, header_cells(rs), '\n');
    lemma_count_concat("# "@ + header_cells(rs), "\n"@, '\n');
    lemma_rows_lines(rs, m);
    lemma_count_concat(header_line(rs), rows(rs, m), '\n');
    assert forall|k: int| #![trigger row_cells(rs, k)] 0 <= k < m implies count_char(
        row_cells(rs, k),
        '\t',
    ) == 2 * rs.len() && count_char(row_cells(rs, k), '\n') == 0 by {
        lemma_row_cells_shape(rs, k);
    }
}

} // verus!

use shrink_bench::engine::{Results, ShrinkMetrics};
use shrink_bench::report::write_tsv;
use shrink_bench::text::push_decimal;

fn results(name: &'static str, rows: &[(u128, u64)]) -> Results {
    let mut r = Results::new(name);
    for &(time_taken_micros, iterations) in rows {
        r.record(Err(ShrinkMetrics { iterations, time_taken_micros }));
    }
    r
}

#[test]
fn decimal_notation() {
    let mut s = String::from("x=");
    push_decimal(&mut s, 0);
    assert_eq!(s, "x=0");
    let mut t = String::new();
    push_decimal(&mut t, 1234567);
    assert_eq!(t, "1234567");
    let mut u = String::new();
    push_decimal(&mut u, u128::MAX);
    assert_eq!(u, u128::MAX.to_string());
}

#[test]
fn two_scenarios_three_failures() {
    let all = vec![
        results("a", &[(10, 1), (20, 2), (30, 3)]),
        results("b", &[(40, 4), (50, 5), (60, 6)]),
    ];
    let mut out = String::new();
    write_tsv(&all, &mut out);
    assert_eq!(
        out,
        "# a_time_taken_micros\ta_iterations\tb_time_taken_micros\tb_iterations\t\n\
         10\t1\t40\t4\t\n20\t2\t50\t5\t\n30\t3\t60\t6\t\n"
    );
    let lines: Vec<&str> = out.lines().collect();
    assert_eq!(lines.len(), 4);
    for row in &lines[1..] {
        assert_eq!(row.matches('\t').count(), 4);
        assert_eq!(row.trim_end_matches('\t').split('\t').count(), 4);
    }
}

#[test]
fn rows_follow_the_first_scenario() {
    let all = vec![results("x", &[(7, 0)]), results("y", &[(8, 9), (1, 1)])];
    let mut out = String::new();
    write_tsv(&all, &mut out);
    assert_eq!(
        out,
        "# x_time_taken_micros\tx_iterations\ty_time_taken_micros\ty_iterations\t\n7\t0\t8\t9\t\n"
    );
}

#[test]
fn no_failures_gives_header_only() {
    let all = vec![Results::new("only")];
    let mut out = String::new();
    write_tsv(&all, &mut out);
    assert_eq!(out, "# only_time_taken_micros\tonly_iterations\t\n");
}

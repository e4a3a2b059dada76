//! The output table: one row of counts per source, then a row of labels.

use vstd::prelude::*;

use crate::report::{entries_of, get_for_file, report_of, report_pairs, Cli};

verus! {

/// The character of a decimal digit.
pub open spec fn digit_char(d: nat) -> char {
    seq!['0', '1', '2', '3', '4', '5', '6', '7', '8', '9'][d as int]
}

/// The decimal digits of `n`, without leading zeros.
pub open spec fn decimal(n: nat) -> Seq<char>
    decreases n,
{
    if n < 10 {
        seq![digit_char(n)]
    } else {
        decimal(n / 10).push(digit_char(n % 10))
    }
}

/// A row of counts: each value in decimal, followed by a tab.
pub open spec fn row_text(e: Seq<(Seq<char>, usize)>) -> Seq<char>
    decreases e.len(),
{
    if e.len() == 0 {
        seq![]
    } else {
        row_text(e.drop_last()) + decimal(e.last().1 as nat) + seq!['\t']
    }
}

/// The row of labels: the labels, separated by tabs.
pub open spec fn header_text(e: Seq<(Seq<char>, usize)>) -> Seq<char>
    decreases e.len(),
{
    if e.len() == 0 {
        seq![]
    } else if e.len() == 1 {
        e[0].0
    } else {
        header_text(e.drop_last()) + seq!['\t'] + e.last().0
    }
}

/// The name shown after row `i`; empty where there is none (standard input).
pub open spec fn name_at(names: Seq<Seq<char>>, i: int) -> Seq<char> {
    if 0 <= i < names.len() {
        names[i]
    } else {
        seq![]
    }
}

/// The rows of counts, each followed by its source's name and a line feed.
pub open spec fn rows_text(reports: Seq<Seq<(Seq<char>, usize)>>, names: Seq<Seq<char>>) -> Seq<
    char,
>
    decreases reports.len(),
{
    if reports.len() == 0 {
        seq![]
    } else {
        rows_text(reports.drop_last(), names) + row_text(reports.last()) + name_at(
            names,
            reports.len() - 1,
        ) + seq!['\n']
    }
}

/// The whole table: the rows of counts, then the labels of the first report
/// on a last line of their own, with no line feed after it.
pub open spec fn table_text(reports: Seq<Seq<(Seq<char>, usize)>>, names: Seq<Seq<char>>) -> Seq<
    char,
> {
    if reports.len() == 0 {
        seq![]
    } else {
        rows_text(reports, names) + header_text(reports[0])
    }
}

/// Relies on `String: FromIterator<&char>`: the characters, in order.
#[verifier::external_body]
fn chars_to_string(v: &Vec<char>) -> (r: String)
    ensures
        r@ == v@,
{
    v.iter().collect()
}

fn digit(d: usize) -> (c: char)
    requires
        d < 10,
    ensures
        c == digit_char(d as nat),
{
    if d == 0 {
        '0'
    } else if d == 1 {
        '1'
    } else if d == 2 {
        '2'
    } else if d == 3 {
        '3'
    } else if d == 4 {
        '4'
    } else if d == 5 {
        '5'
    } else if d == 6 {
        '6'
    } else if d == 7 {
        '7'
    } else if d == 8 {
        '8'
    } else {
        '9'
    }
}

fn push_decimal(out: &mut Vec<char>, n: usize)
    ensures
        final(out)@ == old(out)@ + decimal(n as nat),
    decreases n,
{
    if n >= 10 {
        push_decimal(out, n / 10);
    }
    out.push(digit(n % 10));
}

fn push_text(out: &mut Vec<char>, s: &String)
    ensures
        final(out)@ == old(out)@ + s@,
{
    let ghost start = out@;
    for c in it: s.chars()
        invariant
            it.seq() == s@,
            it.index() <= s@.len(),
            out@ == start + s@.take(it.index() as int),
    {
        proof {
            assert(s@.take(it.index() + 1) == s@.take(it.index() as int).push(s@[it.index() as int]));
        }
        out.push(c);
    }
    proof {
        assert(s@.take(s@.len() as int) == s@);
    }
}

/// Renders reports as a table: for each report, its counts each followed by
/// a tab, then the name at the same place in `names` if there is one, then a
/// line feed; last, the labels of the first report separated by tabs.
pub fn render_table(reports: &Vec<indexmap::IndexMap<String, usize>>, names: &Vec<String>) -> (r:
    String)
    ensures
        r@ == table_text(reports@.map_values(|m| entries_of(m)), names@.map_values(|s: String| s@)),
{
    let ghost rs = reports@.map_values(|m| entries_of(m));
    let ghost ns = names@.map_values(|s: String| s@);
    let mut out: Vec<char> = Vec::new();
    let mut i: usize = 0;
    while i < reports.len()
        invariant
            i <= reports.len(),
            rs == reports@.map_values(|m| entries_of(m)),
            ns == names@.map_values(|s: String| s@),
            out@ == rows_text(rs.take(i as int), ns),
        decreases reports.len() - i,
    {
        let ghost before = out@;
        let ghost e = rs[i as int];
        let pairs = report_pairs(&reports[i]);
        let mut j: usize = 0;
        while j < pairs.len()
            invariant
                j <= pairs.len(),
                pairs@.len() == e.len(),
                forall|k: int|
                    0 <= k < pairs@.len() ==> (#[trigger] pairs@[k]).0@ == e[k].0 && pairs@[k].1
                        == e[k].1,
                out@ == before + row_text(e.take(j as int)),
            decreases pairs.len() - j,
        {
            push_decimal(&mut out, pairs[j].1);
            out.push('\t');
            proof {
                assert(e.take(j + 1).drop_last() == e.take(j as int));
            }
            j = j + 1;
        }
        proof {
            assert(e.take(e.len() as int) == e);
        }
        if i < names.len() {
            push_text(&mut out, &names[i]);
        }
        out.push('\n');
        proof {
            assert(rs.take(i + 1).drop_last() == rs.take(i as int));
        }
        i = i + 1;
    }
    proof {
        assert(rs.take(rs.len() as int) == rs);
    }
    if reports.len() > 0 {
        let ghost before = out@;
        let ghost e = rs[0];
        let pairs = report_pairs(&reports[0]);
        let mut j: usize = 0;
        while j < pairs.len()
            invariant
                j <= pairs.len(),
                pairs@.len() == e.len(),
                forall|k: int|
                    0 <= k < pairs@.len() ==> (#[trigger] pairs@[k]).0@ == e[k].0 && pairs@[k].1
                        == e[k].1,
                out@ == before + header_text(e.take(j as int)),
            decreases pairs.len() - j,
        {
            if j > 0 {
                out.push('\t');
            }
            push_text(&mut out, &pairs[j].0);
            proof {
                assert(e.take(j + 1).drop_last() == e.take(j as int));
            }
            j = j + 1;
        }
        proof {
            assert(e.take(e.len() as int) == e);
        }
    }
    chars_to_string(&out)
}

/// The table for the sources `sources` under the settings `cli`: one row per
/// source, in the order given, named after the matching entry of
/// `cli.file_path` (no name where there is none, as for standard input), and
/// the labels last.
pub fn report_table(cli: &Cli, sources: &Vec<Vec<u8>>) -> (r: String)
    requires
        forall|i: int| 0 <= i < sources@.len() ==> (#[trigger] sources@[i])@.len() < usize::MAX,
    ensures
        r@ == table_text(
            sources@.map_values(|b: Vec<u8>| report_of(*cli, b@)),
            cli.file_path@.map_values(|s: String| s@),
        ),
{
    let mut reports: Vec<indexmap::IndexMap<String, usize>> = Vec::new();
    let mut i: usize = 0;
    while i < sources.len()
        invariant
            i <= sources.len(),
            forall|k: int| 0 <= k < sources@.len() ==> (#[trigger] sources@[k])@.len() < usize::MAX,
            reports@.len() == i,
            forall|k: int|
                0 <= k < i ==> entries_of(#[trigger] reports@[k]) == report_of(*cli, sources@[k]@),
        decreases sources.len() - i,
    {
        let report = get_for_file(cli, sources[i].as_slice());
        reports.push(report);
        i = i + 1;
    }
    let r = render_table(&reports, &cli.file_path);
    proof {
        assert(reports@.map_values(|m| entries_of(m)) == sources@.map_values(
            |b: Vec<u8>| report_of(*cli, b@),
        ));
    }
    r
}

} // verus!

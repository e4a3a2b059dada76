//! The report of one source: which metrics are wanted, and the ordered map
//! from metric label to count.

use vstd::prelude::*;
use vstd::string::*;
use vstd::utf8::*;

use crate::text::{
    char_count_of, get_char_count, get_line_count, get_word_count, line_count_of, word_count_of,
};

verus! {

/// Which metrics to report, and the files to read (none: standard input).
/// With no metric chosen, all four are reported.
#[derive(Debug, Default, Clone)]
pub struct Cli {
    pub get_byte_count: bool,
    pub get_line_count: bool,
    pub get_word_count: bool,
    pub get_char_count: bool,
    pub file_path: Vec<String>,
}

#[verifier::external_type_specification]
#[verifier::external_body]
#[verifier::reject_recursive_types(K)]
#[verifier::reject_recursive_types(V)]
#[verifier::reject_recursive_types(S)]
pub struct ExIndexMap<K, V, S>(indexmap::IndexMap<K, V, S>);

/// The entries of a report map, in their order.
pub uninterp spec fn entries_of(m: indexmap::IndexMap<String, usize>) -> Seq<(Seq<char>, usize)>;

/// The entries after inserting `(k, v)`: an entry with key `k` keeps its
/// place and takes the new value; otherwise the pair goes last.
pub open spec fn inserted(e: Seq<(Seq<char>, usize)>, k: Seq<char>, v: usize) -> Seq<
    (Seq<char>, usize),
> {
    if exists|i: int| 0 <= i < e.len() && (#[trigger] e[i]).0 == k {
        let i = choose|i: int| 0 <= i < e.len() && (#[trigger] e[i]).0 == k;
        e.update(i, (k, v))
    } else {
        e.push((k, v))
    }
}

/// Relies on `IndexMap::new`: a new map is empty.
#[verifier::external_body]
fn new_report() -> (r: indexmap::IndexMap<String, usize>)
    ensures
        entries_of(r) == Seq::<(Seq<char>, usize)>::empty(),
{
    indexmap::IndexMap::new()
}

/// Relies on `IndexMap::insert`: an equal key keeps its place and gets the
/// new value; a new key goes last.
#[verifier::external_body]
fn report_insert(m: &mut indexmap::IndexMap<String, usize>, k: String, v: usize)
    ensures
        entries_of(*final(m)) == inserted(entries_of(*old(m)), k@, v),
{
    m.insert(k, v);
}

/// Relies on `IndexMap::iter`: the entries in their order, copied out.
#[verifier::external_body]
pub(crate) fn report_pairs(m: &indexmap::IndexMap<String, usize>) -> (r: Vec<(String, usize)>)
    ensures
        r@.len() == entries_of(*m).len(),
        forall|i: int|
            0 <= i < r@.len() ==> (#[trigger] r@[i]).0@ == entries_of(*m)[i].0 && r@[i].1
                == entries_of(*m)[i].1,
{
    m.iter().map(|(k, v)| (k.clone(), *v)).collect()
}

/// The text that lossy decoding makes of some bytes.
pub uninterp spec fn lossy_decode(b: Seq<u8>) -> Seq<char>;

/// Relies on `String::from_utf8_lossy`: valid UTF-8 decodes to its
/// characters, and each invalid sequence, at least one byte long, becomes
/// one U+FFFD, so no more characters come out than bytes went in.
#[verifier::external_body]
fn decode(b: &[u8]) -> (r: String)
    ensures
        r@ == lossy_decode(b@),
        valid_utf8(b@) ==> r@ == decode_utf8(b@),
        r@.len() <= b@.len(),
{
    String::from_utf8_lossy(b).into_owned()
}

/// Counts the bytes of a source: its raw length, whatever decoding makes
/// of it.
pub fn get_byte_count(file: &[u8]) -> (r: Result<usize, std::io::Error>)
    ensures
        r == Ok::<usize, std::io::Error>(file@.len() as usize),
{
    Ok(file.len())
}

/// All four counts of a source: bytes of the raw source, then characters,
/// words and lines of its lossy decoding.
pub fn get_all_count(file: &[u8]) -> (r: Result<(usize, usize, usize, usize), std::io::Error>)
    requires
        file@.len() < usize::MAX,
    ensures
        r == Ok::<(usize, usize, usize, usize), std::io::Error>(
            (
                file@.len() as usize,
                char_count_of(lossy_decode(file@)) as usize,
                word_count_of(lossy_decode(file@)) as usize,
                line_count_of(lossy_decode(file@)) as usize,
            ),
        ),
{
    let text = decode(file);
    let bc = file.len();
    let cc = match get_char_count(&text) {
        Ok(n) => n,
        Err(e) => return Err(e),
    };
    let wc = match get_word_count(&text) {
        Ok(n) => n,
        Err(e) => return Err(e),
    };
    let lc = match get_line_count(&text) {
        Ok(n) => n,
        Err(e) => return Err(e),
    };
    Ok((bc, cc, wc, lc))
}

/// Whether no metric is chosen, in which case all four are reported.
pub open spec fn no_metric_chosen(c: Cli) -> bool {
    !c.get_byte_count && !c.get_char_count && !c.get_word_count && !c.get_line_count
}

/// The entry for a metric that is wanted; nothing for one that is not.
pub open spec fn entry_if(wanted: bool, label: Seq<char>, n: nat) -> Seq<(Seq<char>, usize)> {
    if wanted {
        seq![(label, n as usize)]
    } else {
        seq![]
    }
}

/// The report of the source `b` under the settings `c`: the wanted metrics
/// in the order bytes, characters, words, lines, each under its label; all
/// four when none is chosen. Bytes count the raw source, the others its
/// lossy decoding.
pub open spec fn report_of(c: Cli, b: Seq<u8>) -> Seq<(Seq<char>, usize)> {
    let t = lossy_decode(b);
    let all = no_metric_chosen(c);
    entry_if(c.get_byte_count || all, "Bytes"@, b.len()) + entry_if(
        c.get_char_count || all,
        "Chars"@,
        char_count_of(t),
    ) + entry_if(c.get_word_count || all, "Words"@, word_count_of(t)) + entry_if(
        c.get_line_count || all,
        "Lines"@,
        line_count_of(t),
    )
}

/// Inserting a key that no entry has puts the pair last.
proof fn lemma_insert_new(e: Seq<(Seq<char>, usize)>, k: Seq<char>, v: usize)
    requires
        forall|i: int| 0 <= i < e.len() ==> (#[trigger] e[i]).0 != k,
    ensures
        inserted(e, k, v) == e.push((k, v)),
{
}

/// Builds the report of one source: each wanted metric under its label, in
/// the order bytes, characters, words, lines; all four when none is chosen.
pub fn get_for_file(cli: &Cli, file: &[u8]) -> (r: indexmap::IndexMap<String, usize>)
    requires
        file@.len() < usize::MAX,
    ensures
        entries_of(r) == report_of(*cli, file@),
{
    proof {
        reveal_strlit("Bytes");
        reveal_strlit("Chars");
        reveal_strlit("Words");
        reveal_strlit("Lines");
        assert("Bytes"@[0] == 'B' && "Chars"@[0] == 'C' && "Words"@[0] == 'W' && "Lines"@[0]
            == 'L');
    }
    let ghost c = *cli;
    let ghost b = file@;
    let ghost t = lossy_decode(b);
    let ghost all = no_metric_chosen(c);
    let mut result = new_report();
    let text = decode(file);
    let want_all = !cli.get_byte_count && !cli.get_char_count && !cli.get_word_count
        && !cli.get_line_count;
    let ghost e0 = entries_of(result);
    if cli.get_byte_count || want_all {
        if let Ok(n) = get_byte_count(file) {
            proof {
                lemma_insert_new(entries_of(result), "Bytes"@, n);
            }
            report_insert(&mut result, String::from_str("Bytes"), n);
        }
    }
    let ghost e1 = entries_of(result);
    assert(e1 == e0 + entry_if(c.get_byte_count || all, "Bytes"@, b.len()));
    if cli.get_char_count || want_all {
        if let Ok(n) = get_char_count(&text) {
            proof {
                assert(forall|i: int|
                    0 <= i < entries_of(result).len() ==> entries_of(result)[i].0 == "Bytes"@);
                lemma_insert_new(entries_of(result), "Chars"@, n);
            }
            report_insert(&mut result, String::from_str("Chars"), n);
        }
    }
    let ghost e2 = entries_of(result);
    assert(e2 == e1 + entry_if(c.get_char_count || all, "Chars"@, char_count_of(t)));
    if cli.get_word_count || want_all {
        if let Ok(n) = get_word_count(&text) {
            proof {
                assert(forall|i: int|
                    0 <= i < entries_of(result).len() ==> entries_of(result)[i].0 == "Bytes"@ || entries_of(result)[i].0 == "Chars"@);
                lemma_insert_new(entries_of(result), "Words"@, n);
            }
            report_insert(&mut result, String::from_str("Words"), n);
        }
    }
    let ghost e3 = entries_of(result);
    assert(e3 == e2 + entry_if(c.get_word_count || all, "Words"@, word_count_of(t)));
    if cli.get_line_count || want_all {
        if let Ok(n) = get_line_count(&text) {
            proof {
                assert(forall|i: int|
                    0 <= i < entries_of(result).len() ==> entries_of(result)[i].0 == "Bytes"@ || entries_of(result)[i].0 == "Chars"@ || entries_of(result)[i].0 == "Words"@);
                lemma_insert_new(entries_of(result), "Lines"@, n);
            }
            report_insert(&mut result, String::from_str("Lines"), n);
        }
    }
    let ghost e4 = entries_of(result);
    assert(e4 == e3 + entry_if(c.get_line_count || all, "Lines"@, line_count_of(t)));
    result
}

/// With no metric chosen the report is the one with all four chosen: bytes,
/// characters, words, lines.
pub proof fn law_default_metrics(none: Cli, every: Cli, b: Seq<u8>)
    requires
        no_metric_chosen(none),
        every.get_byte_count && every.get_char_count && every.get_word_count
            && every.get_line_count,
    ensures
        report_of(none, b) == report_of(every, b),
{
}

/// Building the report of the same source under the same settings twice
/// gives the same entries in the same order.
pub proof fn law_report_repeatable(
    c: Cli,
    b: Seq<u8>,
    first: indexmap::IndexMap<String, usize>,
    second: indexmap::IndexMap<String, usize>,
)
    requires
        entries_of(first) == report_of(c, b),
        entries_of(second) == report_of(c, b),
    ensures
        entries_of(first) == entries_of(second),
{
}

} // verus!

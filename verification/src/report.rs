//! The lines of a report, and their counts.

use vstd::prelude::*;
use crate::correlate::{
    correlate, correlated, exported_rows, rows_below, DebugFunction, Exported, Row,
};
use crate::model::Flags;
use crate::nm::{parse, read, NmError};
use crate::serializable::{check, function_serializable};
use crate::table::Table;
use crate::text::{chars_of, find_from, first_match};

verus! {

/// What is reported of one exported symbol.
#[derive(Debug)]
pub struct ReportLine {
    /// The exported name.
    pub name: String,
    /// The signature, printed under the exported name.
    pub signature: String,
    /// Whether the signature may cross a serialization boundary.
    pub serializable: bool,
}

/// How many symbols were found serializable, and how many were not.
#[derive(Clone, Copy, Debug, PartialEq, Eq)]
pub struct Summary {
    pub serializable: usize,
    pub not_serializable: usize,
}

/// A signature with the first occurrence of `from` turned into `to`. This
/// is a change of the text alone: where `from` also occurs earlier in the
/// signature as part of another word, that occurrence is the one changed.
pub open spec fn renamed(signature: Seq<char>, from: Seq<char>, to: Seq<char>) -> Seq<char> {
    match first_match(signature, from, 0) {
        Some(at) => signature.subrange(0, at) + to + signature.subrange(
            at + from.len(),
            signature.len() as int,
        ),
        None => signature,
    }
}

/// The signature that is printed for a function exported as `exported`
/// whose source name is `debug_name`.
pub open spec fn printed_signature(
    signature: Seq<char>,
    debug_name: Seq<char>,
    exported: Seq<char>,
) -> Seq<char> {
    if exported == debug_name {
        signature
    } else {
        renamed(signature, debug_name, exported)
    }
}

/// Whether `line` reports what `row` stands for.
pub open spec fn reports(
    line: ReportLine,
    row: Row,
    debug: Table<DebugFunction>,
    flags: Flags,
) -> bool {
    let found = debug.entries@[row.2].value;
    &&& line.name@ == row.0
    &&& line.signature@ == printed_signature(found.signature@, row.1, row.0)
    &&& line.serializable == function_serializable(found.function, flags)
}

/// Whether `lines` report `rows`, one line for each row, in the same order.
pub open spec fn report_of(
    lines: Seq<ReportLine>,
    rows: Seq<Row>,
    debug: Table<DebugFunction>,
    flags: Flags,
) -> bool {
    &&& lines.len() == rows.len()
    &&& forall|i: int| 0 <= i < lines.len() ==> reports(#[trigger] lines[i], rows[i], debug, flags)
}

/// The number of serializable lines among the first `n`.
pub open spec fn serializable_among(lines: Seq<ReportLine>, n: int) -> nat
    decreases n,
{
    if n <= 0 || n > lines.len() {
        0
    } else {
        serializable_among(lines, n - 1) + if lines[n - 1].serializable { 1nat } else { 0nat }
    }
}

/// Copies the characters of `part` to the end of `s`.
fn append_chars(s: &mut String, part: &Vec<char>, from: usize, to: usize)
    requires
        from <= to <= part.len(),
    ensures
        final(s)@ == old(s)@ + part@.subrange(from as int, to as int),
{
    let mut i: usize = from;
    assert(s@ =~= old(s)@ + part@.subrange(from as int, i as int));
    while i < to
        invariant
            from <= i <= to <= part.len(),
            s@ == old(s)@ + part@.subrange(from as int, i as int),
        decreases to - i,
    {
        s.push(part[i]);
        i = i + 1;
        assert(s@ =~= old(s)@ + part@.subrange(from as int, i as int));
    }
}

/// Turns the first occurrence of `from` in `signature` into `to`.
pub fn rename(signature: &str, from: &str, to: &str) -> (s: String)
    ensures
        s@ == renamed(signature@, from@, to@),
{
    let text = chars_of(signature);
    let old_name = chars_of(from);
    let new_name = chars_of(to);
    let mut s = String::new();
    match find_from(&text, &old_name, 0) {
        Some(at) => {
            append_chars(&mut s, &text, 0, at);
            append_chars(&mut s, &new_name, 0, new_name.len());
            append_chars(&mut s, &text, at + old_name.len(), text.len());
            assert(new_name@.subrange(0, new_name@.len() as int) =~= new_name@);
            assert(s@ =~= renamed(signature@, from@, to@));
        },
        None => {
            append_chars(&mut s, &text, 0, text.len());
            assert(s@ =~= text@);
        },
    }
    s
}

/// Reports each exported symbol: its name, its signature under that name,
/// and whether the signature is serializable.
pub fn report(
    debug_functions: &Table<DebugFunction>,
    exported: &Table<Exported>,
    flags: &Flags,
) -> (lines: Vec<ReportLine>)
    requires
        rows_below(exported_rows(*exported), debug_functions.entries@.len() as int),
    ensures
        report_of(lines@, exported_rows(*exported), *debug_functions, *flags),
{
    let mut lines: Vec<ReportLine> = Vec::new();
    let mut i: usize = 0;
    while i < exported.len()
        invariant
            i <= exported.entries@.len(),
            rows_below(exported_rows(*exported), debug_functions.entries@.len() as int),
            lines@.len() == i,
            forall|k: int|
                0 <= k < i ==> reports(
                    #[trigger] lines@[k],
                    exported_rows(*exported)[k],
                    *debug_functions,
                    *flags,
                ),
        decreases exported.entries@.len() - i,
    {
        let symbol = &exported.entries[i];
        assert(exported_rows(*exported)[i as int].2 == symbol.value.function);
        let found = &debug_functions.entries[symbol.value.function].value;
        let signature = if symbol.key == symbol.value.debug_name {
            found.signature.clone()
        } else {
            rename(found.signature.as_str(), symbol.value.debug_name.as_str(), symbol.key.as_str())
        };
        let line = ReportLine {
            name: symbol.key.clone(),
            signature,
            serializable: check(&found.function, flags),
        };
        lines.push(line);
        i = i + 1;
    }
    lines
}

/// Counts the serializable and the other lines of a report.
pub fn summarize(lines: &Vec<ReportLine>) -> (summary: Summary)
    ensures
        summary.serializable == serializable_among(lines@, lines@.len() as int),
        summary.serializable + summary.not_serializable == lines@.len(),
{
    let mut summary = Summary { serializable: 0, not_serializable: 0 };
    let mut i: usize = 0;
    while i < lines.len()
        invariant
            i <= lines.len(),
            summary.serializable == serializable_among(lines@, i as int),
            summary.serializable + summary.not_serializable == i,
        decreases lines.len() - i,
    {
        if lines[i].serializable {
            summary.serializable = summary.serializable + 1;
        } else {
            summary.not_serializable = summary.not_serializable + 1;
        }
        i = i + 1;
    }
    summary
}

/// Reports the exported symbols of a library from its debug information
/// and the dump of its linkage symbol table.
pub fn analyze(debug_functions: &Table<DebugFunction>, raw_text: &str, flags: &Flags) -> (lines:
    Result<Vec<ReportLine>, NmError>)
    ensures
        match lines {
            Ok(lines) => read(raw_text@) is Ok && report_of(
                lines@,
                correlated(
                    debug_functions.keys(),
                    read(raw_text@)->Ok_0.text,
                    read(raw_text@)->Ok_0.weak,
                    flags.print_reserved,
                ),
                *debug_functions,
                *flags,
            ),
            Err(e) => read(raw_text@) == Err::<crate::nm::Symbols, NmError>(e),
        },
{
    match parse(raw_text) {
        Ok(tables) => {
            let exported = correlate(
                debug_functions,
                &tables.text_symbols,
                &tables.weak_symbols,
                flags,
            );
            Ok(report(debug_functions, &exported, flags))
        },
        Err(e) => Err(e),
    }
}

} // verus!

//! Reading the textual dump of a linkage symbol table.

use vstd::prelude::*;
use crate::table::{
    holds, lemma_placed_map, lemma_placed_ordered, lemma_rank_from, ordered, placed, rank, Entry,
    Table,
};
use crate::text::{chars_of, find_char, find_space, lemma_scan_bounds, scan, scan_space, text_of};

verus! {

/// The two address tables of a linkage symbol table, each from a symbol's
/// name to its address.
#[derive(Debug)]
pub struct SymbolTables {
    /// The strong and local code symbols.
    pub text_symbols: Table<String>,
    /// The weak symbols.
    pub weak_symbols: Table<String>,
}

/// Why a dump could not be read.
#[derive(Clone, Copy, Debug, PartialEq, Eq)]
pub enum NmError {
    /// A line is empty or blank.
    MissingAddress,
    /// A line ends after its address.
    MissingType,
    /// A line for a code or weak symbol ends after its type.
    MissingSymbol,
}

/// Which table a line's symbol belongs to.
#[derive(Clone, Copy, Debug, PartialEq, Eq)]
pub enum SymbolKind {
    Text,
    Weak,
    Other,
}

/// What one line of the dump says, with its columns as positions in the
/// line.
pub enum Line {
    /// A symbol of no interest.
    Skipped,
    /// A code or weak symbol: the two ends of its address and the two ends
    /// of its name.
    Symbol { weak: bool, address_start: int, address_end: int, name_start: int, name_end: int },
    /// A line that lacks a column.
    Broken(NmError),
}

/// The kind that a type column stands for.
pub open spec fn kind_of(column: Seq<char>) -> SymbolKind {
    if column == seq!['T'] || column == seq!['t'] {
        SymbolKind::Text
    } else if column == seq!['W'] {
        SymbolKind::Weak
    } else {
        SymbolKind::Other
    }
}

/// Reads one line: columns are set apart by white space, the first is the
/// address, the second the type, the third the name, and what follows is
/// of no interest.
pub open spec fn read_line(line: Seq<char>) -> Line {
    let address_start = scan_space(line, false, 0);
    let address_end = scan_space(line, true, address_start);
    let kind_start = scan_space(line, false, address_end);
    let kind_end = scan_space(line, true, kind_start);
    let kind = kind_of(line.subrange(kind_start, kind_end));
    let name_start = scan_space(line, false, kind_end);
    let name_end = scan_space(line, true, name_start);
    if address_start >= line.len() {
        Line::Broken(NmError::MissingAddress)
    } else if kind_start >= line.len() {
        Line::Broken(NmError::MissingType)
    } else if kind is Other {
        Line::Skipped
    } else if name_start >= line.len() {
        Line::Broken(NmError::MissingSymbol)
    } else {
        Line::Symbol { weak: kind is Weak, address_start, address_end, name_start, name_end }
    }
}

/// Where the line that starts at `from` ends: at the next line feed, or
/// with the text.
pub open spec fn line_end(text: Seq<char>, from: int) -> int {
    scan(text, '\n', from)
}

/// The two tables as sequences of name and address.
pub struct Symbols {
    pub text: Seq<(Seq<char>, Seq<char>)>,
    pub weak: Seq<(Seq<char>, Seq<char>)>,
}

/// The names of a sequence of symbols.
pub open spec fn names(symbols: Seq<(Seq<char>, Seq<char>)>) -> Seq<Seq<char>> {
    symbols.map_values(|s: (Seq<char>, Seq<char>)| s.0)
}

/// The symbols after one more was read: a later address for a name takes
/// the place of an earlier one.
pub open spec fn with_symbol(
    symbols: Seq<(Seq<char>, Seq<char>)>,
    name: Seq<char>,
    address: Seq<char>,
) -> Seq<(Seq<char>, Seq<char>)> {
    placed(symbols, names(symbols), name, (name, address))
}

/// The symbols after `line` was read, with `so_far` read before it.
pub open spec fn after_line(line: Seq<char>, so_far: Symbols) -> Result<Symbols, NmError> {
    match read_line(line) {
        Line::Broken(e) => Err(e),
        Line::Skipped => Ok(so_far),
        Line::Symbol { weak, address_start, address_end, name_start, name_end } => {
            let address = line.subrange(address_start, address_end);
            let name = line.subrange(name_start, name_end);
            if weak {
                Ok(Symbols { text: so_far.text, weak: with_symbol(so_far.weak, name, address) })
            } else {
                Ok(Symbols { text: with_symbol(so_far.text, name, address), weak: so_far.weak })
            }
        },
    }
}

/// The result of reading the text from position `from` on, with `so_far`
/// read before. A text that ends in a line feed has no line after it.
pub open spec fn read_from(text: Seq<char>, from: int, so_far: Symbols) -> Result<Symbols, NmError>
    decreases text.len() - from,
{
    if from < 0 || from >= text.len() {
        Ok(so_far)
    } else {
        proof {
            lemma_scan_bounds(text, '\n', from);
        }
        match after_line(text.subrange(from, line_end(text, from)), so_far) {
            Err(e) => Err(e),
            Ok(now) => if line_end(text, from) >= text.len() {
                Ok(now)
            } else {
                read_from(text, line_end(text, from) + 1, now)
            },
        }
    }
}

/// Reading a symbol into symbols with ordered names keeps the names
/// ordered, and the name then has the address that was read.
pub proof fn lemma_symbol_placed(
    symbols: Seq<(Seq<char>, Seq<char>)>,
    name: Seq<char>,
    address: Seq<char>,
)
    requires
        ordered(names(symbols)),
    ensures
        ordered(names(with_symbol(symbols, name, address))),
        holds(names(with_symbol(symbols, name, address)), name),
        with_symbol(symbols, name, address)[rank(
            names(with_symbol(symbols, name, address)),
            name,
        )].1 == address,
{
    let keys = names(symbols);
    lemma_placed_ordered(keys, name);
    lemma_rank_from(keys, name, 0);
    lemma_placed_map(symbols, keys, name, (name, address), |s: (Seq<char>, Seq<char>)| s.0);
    assert(symbols.map_values(|s: (Seq<char>, Seq<char>)| s.0) =~= keys);
    assert(names(with_symbol(symbols, name, address)) =~= placed(keys, keys, name, name));
}

/// Reading on from symbols with ordered names gives symbols with ordered
/// names.
pub proof fn lemma_read_from_ordered(text: Seq<char>, from: int, so_far: Symbols)
    requires
        ordered(names(so_far.text)),
        ordered(names(so_far.weak)),
    ensures
        read_from(text, from, so_far) is Ok ==> ordered(
            names(read_from(text, from, so_far)->Ok_0.text),
        ) && ordered(names(read_from(text, from, so_far)->Ok_0.weak)),
    decreases text.len() - from,
{
    if 0 <= from < text.len() {
        lemma_scan_bounds(text, '\n', from);
        let line = text.subrange(from, line_end(text, from));
        match read_line(line) {
            Line::Symbol { weak, address_start, address_end, name_start, name_end } => {
                let address = line.subrange(address_start, address_end);
                let name = line.subrange(name_start, name_end);
                if weak {
                    lemma_symbol_placed(so_far.weak, name, address);
                } else {
                    lemma_symbol_placed(so_far.text, name, address);
                }
            },
            _ => {},
        }
        match after_line(line, so_far) {
            Ok(now) => {
                if line_end(text, from) < text.len() {
                    lemma_read_from_ordered(text, line_end(text, from) + 1, now);
                }
            },
            Err(_) => {},
        }
    }
}

/// In what a dump lists, the names of each table are in order, each name
/// once.
pub proof fn lemma_read_ordered(text: Seq<char>)
    ensures
        read(text) is Ok ==> ordered(names(read(text)->Ok_0.text)) && ordered(
            names(read(text)->Ok_0.weak),
        ),
{
    assert(names(Seq::empty()) =~= Seq::<Seq<char>>::empty());
    lemma_read_from_ordered(text, 0, Symbols { text: Seq::empty(), weak: Seq::empty() });
}

/// The symbols that a dump lists, or the first fault in it.
pub open spec fn read(text: Seq<char>) -> Result<Symbols, NmError> {
    read_from(text, 0, Symbols { text: Seq::empty(), weak: Seq::empty() })
}

/// A table of names and addresses as a sequence of pairs.
pub open spec fn pairs(table: Table<String>) -> Seq<(Seq<char>, Seq<char>)> {
    table.entries@.map_values(|e: Entry<String>| (e.key@, e.value@))
}

/// The names of a table's pairs are the table's keys.
pub proof fn lemma_names_are_keys(table: Table<String>)
    ensures
        names(pairs(table)) == table.keys(),
{
    assert(names(pairs(table)) =~= table.keys());
}

impl SymbolTables {
    /// The two tables as sequences of name and address.
    pub open spec fn view(&self) -> Symbols {
        Symbols { text: pairs(self.text_symbols), weak: pairs(self.weak_symbols) }
    }
}

/// Decides the kind that the type column of `line` between `from` and `to`
/// stands for.
fn classify(line: &Vec<char>, from: usize, to: usize) -> (kind: SymbolKind)
    requires
        from <= to <= line.len(),
    ensures
        kind == kind_of(line@.subrange(from as int, to as int)),
{
    let ghost column = line@.subrange(from as int, to as int);
    if to - from != 1 {
        assert(column.len() != 1);
        return SymbolKind::Other;
    }
    let c = line[from];
    assert(column =~= seq![c]);
    assert(seq![c][0] == c);
    if c == 'T' || c == 't' {
        SymbolKind::Text
    } else if c == 'W' {
        assert(seq!['W'][0] == 'W');
        SymbolKind::Weak
    } else {
        assert(seq!['T'][0] == 'T');
        assert(seq!['t'][0] == 't');
        assert(seq!['W'][0] == 'W');
        SymbolKind::Other
    }
}

/// Places `address` under `name` in a table of symbols.
fn record(table: &mut Table<String>, name: String, address: String)
    ensures
        pairs(*final(table)) == with_symbol(pairs(*old(table)), name@, address@),
{
    proof {
        lemma_names_are_keys(*table);
        lemma_placed_map(
            table.entries@,
            table.keys(),
            name@,
            (Entry { key: name, value: address }),
            |e: Entry<String>| (e.key@, e.value@),
        );
    }
    table.insert(name, address);
}

/// Reads the dump of a linkage symbol table.
///
/// Each line holds an address, a type and a name, set apart by white
/// space. Symbols of type `T` or `t` go to the text table, those of type
/// `W` to the weak table, and the others are left out. A line that lacks a
/// column that is needed ends the reading with an error.
pub fn parse(raw_text: &str) -> (tables: Result<SymbolTables, NmError>)
    ensures
        match tables {
            Ok(t) => read(raw_text@) == Ok::<Symbols, NmError>(t@),
            Err(e) => read(raw_text@) == Err::<Symbols, NmError>(e),
        },
        tables is Ok ==> tables->Ok_0.text_symbols.well_formed()
            && tables->Ok_0.weak_symbols.well_formed(),
{
    let text = chars_of(raw_text);
    let mut tables = SymbolTables { text_symbols: Table::new(), weak_symbols: Table::new() };
    assert(tables@.text =~= Seq::empty());
    assert(tables@.weak =~= Seq::empty());
    let mut from: usize = 0;
    while from < text.len()
        invariant
            text@ == raw_text@,
            read(text@) == read_from(text@, from as int, tables@),
        decreases text.len() - from,
    {
        let end = find_char(&text, '\n', from);
        let line = line_of(&text, from, end);
        let address_start = find_space(&line, false, 0);
        if address_start >= line.len() {
            return Err(NmError::MissingAddress);
        }
        let address_end = find_space(&line, true, address_start);
        let kind_start = find_space(&line, false, address_end);
        if kind_start >= line.len() {
            return Err(NmError::MissingType);
        }
        let kind_end = find_space(&line, true, kind_start);
        let kind = classify(&line, kind_start, kind_end);
        match kind {
            SymbolKind::Other => {},
            _ => {
                let name_start = find_space(&line, false, kind_end);
                if name_start >= line.len() {
                    return Err(NmError::MissingSymbol);
                }
                let name_end = find_space(&line, true, name_start);
                let address = text_of(&line, address_start, address_end);
                let name = text_of(&line, name_start, name_end);
                match kind {
                    SymbolKind::Weak => record(&mut tables.weak_symbols, name, address),
                    _ => record(&mut tables.text_symbols, name, address),
                }
            },
        }
        if end >= text.len() {
            proof {
                lemma_read_ordered(text@);
                lemma_names_are_keys(tables.text_symbols);
                lemma_names_are_keys(tables.weak_symbols);
            }
            return Ok(tables);
        }
        from = end + 1;
    }
    proof {
        lemma_read_ordered(text@);
        lemma_names_are_keys(tables.text_symbols);
        lemma_names_are_keys(tables.weak_symbols);
    }
    Ok(tables)
}

/// The characters of `text` from `from` up to `to`.
fn line_of(text: &Vec<char>, from: usize, to: usize) -> (line: Vec<char>)
    requires
        from <= to <= text.len(),
    ensures
        line@ == text@.subrange(from as int, to as int),
{
    let mut line: Vec<char> = Vec::new();
    let mut i: usize = from;
    while i < to
        invariant
            from <= i <= to <= text.len(),
            line@ == text@.subrange(from as int, i as int),
        decreases to - i,
    {
        line.push(text[i]);
        i = i + 1;
        assert(line@ =~= text@.subrange(from as int, i as int));
    }
    line
}

} // verus!

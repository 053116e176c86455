//! Joining the functions of the debug information to the exported symbols.

use vstd::prelude::*;
use crate::model::{Flags, Function};
use crate::nm::pairs;
use crate::table::{
    holds, lemma_placed_keeps, lemma_placed_map, lemma_placed_ordered, lemma_rank_from, ordered,
    placed, rank, Entry, Table,
};
use crate::text::{chars_of, find_from, first_match, text_of};

verus! {

/// What the debug information holds for one function, under the function's
/// source name.
#[derive(Debug)]
pub struct DebugFunction {
    pub function: Function,
    /// The signature as it is printed, with the source name in it.
    pub signature: String,
}

/// What stands at an address: the name of the symbol that defines it, and
/// the position of its function in the table of debug information.
#[derive(Debug)]
pub struct Located {
    pub name: String,
    pub function: usize,
}

/// What an exported name stands for: the source name of its function, and
/// the position of that function in the table of debug information.
#[derive(Debug)]
pub struct Exported {
    pub debug_name: String,
    pub function: usize,
}

/// A row of a table: its key, a name, and a position in the table of debug
/// information.
pub type Row = (Seq<char>, Seq<char>, int);

/// The keys of a sequence of rows.
pub open spec fn row_keys(rows: Seq<Row>) -> Seq<Seq<char>> {
    rows.map_values(|r: Row| r.0)
}

/// The rows of an address index.
pub open spec fn located_rows(index: Table<Located>) -> Seq<Row> {
    index.entries@.map_values(|e: Entry<Located>| (e.key@, e.value.name@, e.value.function as int))
}

/// The rows of a table of exported symbols.
pub open spec fn exported_rows(symbols: Table<Exported>) -> Seq<Row> {
    symbols.entries@.map_values(
        |e: Entry<Exported>| (e.key@, e.value.debug_name@, e.value.function as int),
    )
}

/// Whether every row points below `limit`.
pub open spec fn rows_below(rows: Seq<Row>, limit: int) -> bool {
    forall|i: int| 0 <= i < rows.len() ==> 0 <= (#[trigger] rows[i]).2 < limit
}

/// The address index after the first `n` text symbols: each symbol that the
/// debug information knows stands at its address, a later one in the place
/// of an earlier one at the same address.
pub open spec fn address_index(
    debug: Seq<Seq<char>>,
    text: Seq<(Seq<char>, Seq<char>)>,
    n: int,
) -> Seq<Row>
    decreases n,
{
    if n <= 0 || n > text.len() {
        Seq::empty()
    } else {
        let before = address_index(debug, text, n - 1);
        let name = text[n - 1].0;
        let address = text[n - 1].1;
        if holds(debug, name) {
            placed(before, row_keys(before), address, (address, name, rank(debug, name)))
        } else {
            before
        }
    }
}

/// Whether a symbol name has no version, or the default version.
pub open spec fn is_default_version(name: Seq<char>) -> bool {
    first_match(name, seq!['@'], 0) is None || first_match(name, seq!['@', '@'], 0) is Some
}

/// The name under which a symbol is exported: its name without the mark of
/// the default version and what follows it.
pub open spec fn exported_name(name: Seq<char>) -> Seq<char> {
    match first_match(name, seq!['@', '@'], 0) {
        Some(i) => name.subrange(0, i),
        None => name,
    }
}

/// Whether a name is reserved to the implementation.
pub open spec fn is_reserved(name: Seq<char>) -> bool {
    name.len() > 0 && name[0] == '_'
}

/// The exported symbols after one more candidate: it is taken if its
/// version is the default, its address is in the index and its exported
/// name is not reserved, or reserved names are shown.
pub open spec fn with_candidate(
    index: Seq<Row>,
    show_reserved: bool,
    so_far: Seq<Row>,
    name: Seq<char>,
    address: Seq<char>,
) -> Seq<Row> {
    let exported = exported_name(name);
    let at = rank(row_keys(index), address);
    if is_default_version(name) && holds(row_keys(index), address) && (show_reserved
        || !is_reserved(exported)) {
        placed(so_far, row_keys(so_far), exported, (exported, index[at].1, index[at].2))
    } else {
        so_far
    }
}

/// The exported symbols after the first `n` of `candidates`.
pub open spec fn with_candidates(
    index: Seq<Row>,
    show_reserved: bool,
    so_far: Seq<Row>,
    candidates: Seq<(Seq<char>, Seq<char>)>,
    n: int,
) -> Seq<Row>
    decreases n,
{
    if n <= 0 || n > candidates.len() {
        so_far
    } else {
        with_candidate(
            index,
            show_reserved,
            with_candidates(index, show_reserved, so_far, candidates, n - 1),
            candidates[n - 1].0,
            candidates[n - 1].1,
        )
    }
}

/// The exported symbols of a library: the text symbols are taken first,
/// then the weak symbols, so that of two symbols with one exported name the
/// later stays.
pub open spec fn correlated(
    debug: Seq<Seq<char>>,
    text: Seq<(Seq<char>, Seq<char>)>,
    weak: Seq<(Seq<char>, Seq<char>)>,
    show_reserved: bool,
) -> Seq<Row> {
    let index = address_index(debug, text, text.len() as int);
    let strong = with_candidates(index, show_reserved, Seq::empty(), text, text.len() as int);
    with_candidates(index, show_reserved, strong, weak, weak.len() as int)
}

/// Placing a row among rows with ordered keys keeps the keys ordered, and
/// the row then stands under its key.
pub proof fn lemma_row_placed(rows: Seq<Row>, row: Row)
    requires
        ordered(row_keys(rows)),
    ensures
        ordered(row_keys(placed(rows, row_keys(rows), row.0, row))),
        holds(row_keys(placed(rows, row_keys(rows), row.0, row)), row.0),
        placed(rows, row_keys(rows), row.0, row)[rank(
            row_keys(placed(rows, row_keys(rows), row.0, row)),
            row.0,
        )] == row,
{
    let keys = row_keys(rows);
    lemma_placed_ordered(keys, row.0);
    lemma_rank_from(keys, row.0, 0);
    lemma_placed_map(rows, keys, row.0, row, |r: Row| r.0);
    assert(rows.map_values(|r: Row| r.0) =~= keys);
    assert(row_keys(placed(rows, keys, row.0, row)) =~= placed(keys, keys, row.0, row.0));
}

/// The keys of the address index are ordered, so that no address has two
/// rows.
pub proof fn lemma_index_ordered(debug: Seq<Seq<char>>, text: Seq<(Seq<char>, Seq<char>)>, n: int)
    ensures
        ordered(row_keys(address_index(debug, text, n))),
    decreases n,
{
    if 0 < n <= text.len() {
        lemma_index_ordered(debug, text, n - 1);
        let before = address_index(debug, text, n - 1);
        lemma_row_placed(before, (text[n - 1].1, text[n - 1].0, rank(debug, text[n - 1].0)));
    }
}

/// Every row of the address index names a function of the debug
/// information and points at it.
pub proof fn lemma_index_points_at_names(
    debug: Seq<Seq<char>>,
    text: Seq<(Seq<char>, Seq<char>)>,
    n: int,
)
    ensures
        forall|i: int|
            0 <= i < address_index(debug, text, n).len() ==> names_function(
                debug,
                #[trigger] address_index(debug, text, n)[i],
            ),
    decreases n,
{
    if 0 < n <= text.len() {
        lemma_index_points_at_names(debug, text, n - 1);
        let before = address_index(debug, text, n - 1);
        let name = text[n - 1].0;
        if holds(debug, name) {
            assert(row_keys(before).len() == before.len());
            lemma_placed_keeps(
                before,
                row_keys(before),
                text[n - 1].1,
                (text[n - 1].1, name, rank(debug, name)),
                |r: Row| names_function(debug, r),
            );
        }
    }
}

/// Whether a row names a function of the debug information and points at
/// it.
pub open spec fn names_function(debug: Seq<Seq<char>>, row: Row) -> bool {
    holds(debug, row.1) && row.2 == rank(debug, row.1)
}

/// A symbol whose version is not the default is never taken.
pub proof fn lemma_other_version_dropped(
    index: Seq<Row>,
    show_reserved: bool,
    so_far: Seq<Row>,
    name: Seq<char>,
    address: Seq<char>,
)
    requires
        !is_default_version(name),
    ensures
        with_candidate(index, show_reserved, so_far, name, address) == so_far,
{
}

/// A symbol whose address is not in the index is never taken.
pub proof fn lemma_unknown_address_dropped(
    index: Seq<Row>,
    show_reserved: bool,
    so_far: Seq<Row>,
    name: Seq<char>,
    address: Seq<char>,
)
    requires
        !holds(row_keys(index), address),
    ensures
        with_candidate(index, show_reserved, so_far, name, address) == so_far,
{
}

/// A symbol whose exported name is reserved is not taken unless reserved
/// names are shown.
pub proof fn lemma_reserved_dropped(
    index: Seq<Row>,
    so_far: Seq<Row>,
    name: Seq<char>,
    address: Seq<char>,
)
    requires
        is_reserved(exported_name(name)),
    ensures
        with_candidate(index, false, so_far, name, address) == so_far,
{
}

/// A symbol of the default version at an address of the index, whose
/// exported name may be shown, is taken: afterwards its exported name
/// stands for the name and the function that the index has at the address.
pub proof fn lemma_candidate_taken(
    index: Seq<Row>,
    show_reserved: bool,
    so_far: Seq<Row>,
    name: Seq<char>,
    address: Seq<char>,
)
    requires
        ordered(row_keys(so_far)),
        is_default_version(name),
        holds(row_keys(index), address),
        show_reserved || !is_reserved(exported_name(name)),
    ensures
        ({
            let after = with_candidate(index, show_reserved, so_far, name, address);
            let found = index[rank(row_keys(index), address)];
            &&& holds(row_keys(after), exported_name(name))
            &&& after[rank(row_keys(after), exported_name(name))] == (
                exported_name(name),
                found.1,
                found.2,
            )
        }),
{
    let found = index[rank(row_keys(index), address)];
    lemma_row_placed(so_far, (exported_name(name), found.1, found.2));
}

/// Taking candidates keeps the exported names ordered. Where every row of
/// the index and every row taken before names a function of the debug
/// information, every row does afterwards; and where no reserved name was
/// taken before unless such names are shown, none is afterwards.
pub proof fn lemma_candidates_keep(
    index: Seq<Row>,
    show_reserved: bool,
    so_far: Seq<Row>,
    candidates: Seq<(Seq<char>, Seq<char>)>,
    n: int,
    debug: Seq<Seq<char>>,
)
    requires
        ordered(row_keys(so_far)),
        forall|i: int| 0 <= i < index.len() ==> names_function(debug, #[trigger] index[i]),
        forall|i: int| 0 <= i < so_far.len() ==> names_function(debug, #[trigger] so_far[i]),
        forall|i: int| 0 <= i < so_far.len() ==> show_reserved || !is_reserved((#[trigger] so_far[i]).0),
    ensures
        ordered(row_keys(with_candidates(index, show_reserved, so_far, candidates, n))),
        forall|i: int|
            0 <= i < with_candidates(index, show_reserved, so_far, candidates, n).len()
                ==> names_function(
                debug,
                #[trigger] with_candidates(index, show_reserved, so_far, candidates, n)[i],
            ),
        forall|i: int|
            0 <= i < with_candidates(index, show_reserved, so_far, candidates, n).len()
                ==> show_reserved || !is_reserved(
                (#[trigger] with_candidates(index, show_reserved, so_far, candidates, n)[i]).0,
            ),
    decreases n,
{
    if 0 < n <= candidates.len() {
        lemma_candidates_keep(index, show_reserved, so_far, candidates, n - 1, debug);
        let before = with_candidates(index, show_reserved, so_far, candidates, n - 1);
        let name = candidates[n - 1].0;
        let address = candidates[n - 1].1;
        let exported = exported_name(name);
        let at = rank(row_keys(index), address);
        if is_default_version(name) && holds(row_keys(index), address) && (show_reserved
            || !is_reserved(exported)) {
            let row = (exported, index[at].1, index[at].2);
            lemma_rank_from(row_keys(index), address, 0);
            assert(names_function(debug, index[at]));
            lemma_row_placed(before, row);
            assert(row_keys(before).len() == before.len());
            lemma_placed_keeps(
                before,
                row_keys(before),
                exported,
                row,
                |r: Row| names_function(debug, r) && (show_reserved || !is_reserved(r.0)),
            );
        }
    }
}

/// The exported symbols are in the order of their names, each name once;
/// each stands for a function of the debug information, under that
/// function's source name; and unless reserved names are shown, none of the
/// names is reserved.
pub proof fn lemma_correlated(
    debug: Seq<Seq<char>>,
    text: Seq<(Seq<char>, Seq<char>)>,
    weak: Seq<(Seq<char>, Seq<char>)>,
    show_reserved: bool,
)
    ensures
        ordered(row_keys(correlated(debug, text, weak, show_reserved))),
        forall|i: int|
            0 <= i < correlated(debug, text, weak, show_reserved).len() ==> names_function(
                debug,
                #[trigger] correlated(debug, text, weak, show_reserved)[i],
            ),
        forall|i: int|
            0 <= i < correlated(debug, text, weak, show_reserved).len() ==> show_reserved
                || !is_reserved((#[trigger] correlated(debug, text, weak, show_reserved)[i]).0),
{
    let index = address_index(debug, text, text.len() as int);
    lemma_index_points_at_names(debug, text, text.len() as int);
    assert(row_keys(Seq::<Row>::empty()) =~= Seq::<Seq<char>>::empty());
    lemma_candidates_keep(index, show_reserved, Seq::empty(), text, text.len() as int, debug);
    let strong = with_candidates(index, show_reserved, Seq::empty(), text, text.len() as int);
    lemma_candidates_keep(index, show_reserved, strong, weak, weak.len() as int, debug);
}

/// Builds the address index from the text symbols that the debug
/// information knows.
fn build_index(debug: &Table<DebugFunction>, text: &Table<String>) -> (index: Table<Located>)
    ensures
        located_rows(index) == address_index(debug.keys(), pairs(*text), text.entries@.len() as int),
        rows_below(located_rows(index), debug.entries@.len() as int),
{
    let mut index: Table<Located> = Table::new();
    let mut i: usize = 0;
    assert(located_rows(index) =~= Seq::empty());
    while i < text.len()
        invariant
            i <= text.entries@.len(),
            located_rows(index) == address_index(debug.keys(), pairs(*text), i as int),
            rows_below(located_rows(index), debug.entries@.len() as int),
        decreases text.entries@.len() - i,
    {
        let symbol = &text.entries[i];
        if let Some(function) = debug.find(symbol.key.as_str()) {
            let address = symbol.value.clone();
            let name = symbol.key.clone();
            proof {
                assert(row_keys(located_rows(index)) =~= index.keys());
                lemma_placed_map(
                    index.entries@,
                    index.keys(),
                    address@,
                    (Entry { key: address, value: Located { name, function } }),
                    |e: Entry<Located>| (e.key@, e.value.name@, e.value.function as int),
                );
                lemma_placed_keeps(
                    located_rows(index),
                    index.keys(),
                    address@,
                    (address@, name@, function as int),
                    |r: Row| 0 <= r.2 < debug.entries@.len() as int,
                );
            }
            index.insert(address, Located { name, function });
        }
        i = i + 1;
    }
    index
}

/// Takes the candidates among `symbols` into `exported`.
fn add_candidates(
    index: &Table<Located>,
    show_reserved: bool,
    exported: &mut Table<Exported>,
    symbols: &Table<String>,
    limit: Ghost<int>,
)
    requires
        rows_below(located_rows(*index), limit@),
        rows_below(exported_rows(*old(exported)), limit@),
    ensures
        exported_rows(*final(exported)) == with_candidates(
            located_rows(*index),
            show_reserved,
            exported_rows(*old(exported)),
            pairs(*symbols),
            symbols.entries@.len() as int,
        ),
        rows_below(exported_rows(*final(exported)), limit@),
{
    let mut at_sign: Vec<char> = Vec::new();
    at_sign.push('@');
    let mut default_mark: Vec<char> = Vec::new();
    default_mark.push('@');
    default_mark.push('@');
    assert(at_sign@ =~= seq!['@']);
    assert(default_mark@ =~= seq!['@', '@']);
    let mut i: usize = 0;
    while i < symbols.len()
        invariant
            i <= symbols.entries@.len(),
            at_sign@ == seq!['@'],
            default_mark@ == seq!['@', '@'],
            rows_below(located_rows(*index), limit@),
            rows_below(exported_rows(*exported), limit@),
            exported_rows(*exported) == with_candidates(
                located_rows(*index),
                show_reserved,
                exported_rows(*old(exported)),
                pairs(*symbols),
                i as int,
            ),
        decreases symbols.entries@.len() - i,
    {
        let symbol = &symbols.entries[i];
        let name = chars_of(symbol.key.as_str());
        let version = find_from(&name, &at_sign, 0);
        let default_version = find_from(&name, &default_mark, 0);
        let end: usize = match default_version {
            Some(at) => at,
            None => name.len(),
        };
        assert(name@.subrange(0, end as int) =~= exported_name(name@));
        let reserved = end > 0 && name[0] == '_';
        if (version.is_none() || default_version.is_some()) && (show_reserved || !reserved) {
            assert(row_keys(located_rows(*index)) =~= index.keys());
            if let Some(at) = index.find(symbol.value.as_str()) {
                let exported_name = text_of(&name, 0, end);
                let debug_name = index.entries[at].value.name.clone();
                let function = index.entries[at].value.function;
                proof {
                    assert(located_rows(*index)[at as int].2 == function);
                    assert(row_keys(exported_rows(*exported)) =~= exported.keys());
                    lemma_placed_map(
                        exported.entries@,
                        exported.keys(),
                        exported_name@,
                        (Entry { key: exported_name, value: Exported { debug_name, function } }),
                        |e: Entry<Exported>| (e.key@, e.value.debug_name@, e.value.function as int),
                    );
                    lemma_placed_keeps(
                        exported_rows(*exported),
                        exported.keys(),
                        exported_name@,
                        (exported_name@, debug_name@, function as int),
                        |r: Row| 0 <= r.2 < limit@,
                    );
                }
                exported.insert(exported_name, Exported { debug_name, function });
            }
        }
        i = i + 1;
    }
}

/// Finds, for each exported symbol of a library, the function that it
/// stands for.
///
/// A text symbol that the debug information knows by name gives its address
/// a function. Every text or weak symbol at such an address is a candidate,
/// but for the versions of a symbol that are not its default. A candidate
/// is exported under its name without the default version's mark, unless
/// that name is reserved and reserved names are not shown. The result is in
/// the order of the exported names.
pub fn correlate(
    debug_functions: &Table<DebugFunction>,
    text_symbols: &Table<String>,
    weak_symbols: &Table<String>,
    flags: &Flags,
) -> (exported: Table<Exported>)
    ensures
        exported_rows(exported) == correlated(
            debug_functions.keys(),
            pairs(*text_symbols),
            pairs(*weak_symbols),
            flags.print_reserved,
        ),
        rows_below(exported_rows(exported), debug_functions.entries@.len() as int),
        exported.well_formed(),
{
    proof {
        lemma_correlated(
            debug_functions.keys(),
            pairs(*text_symbols),
            pairs(*weak_symbols),
            flags.print_reserved,
        );
    }
    let index = build_index(debug_functions, text_symbols);
    let mut exported: Table<Exported> = Table::new();
    assert(exported_rows(exported) =~= Seq::empty());
    let ghost limit = debug_functions.entries@.len() as int;
    add_candidates(&index, flags.print_reserved, &mut exported, text_symbols, Ghost(limit));
    add_candidates(&index, flags.print_reserved, &mut exported, weak_symbols, Ghost(limit));
    assert(row_keys(exported_rows(exported)) =~= exported.keys());
    exported
}

} // verus!

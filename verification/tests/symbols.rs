use serializable_symbols::correlate::{correlate, DebugFunction, Exported};
use serializable_symbols::model::{Flags, Function, Modifier, Parameter, Typed, TypedValue};
use serializable_symbols::nm::{parse, NmError};
use serializable_symbols::report::{analyze, rename, report, summarize, ReportLine, Summary};
use serializable_symbols::table::Table;
use serializable_symbols::text::{
    chars_of, code_point, comes_before, find_from, is_blank, matches_at, same_chars,
};

fn policy(reserved: bool, c: bool) -> Flags {
    Flags {
        print_reserved: reserved,
        print_summary: false,
        omit_headers: false,
        allow_char_str: c,
        allow_void_str: false,
        allow_basic_str: false,
    }
}

fn int_fn(name: &str, pointer_param: bool) -> DebugFunction {
    let mut parameters = Vec::new();
    let mut signature = format!("{} int(", name);
    if pointer_param {
        parameters.push(Parameter {
            name: None,
            typed: Typed { name: "char".to_string(), value: TypedValue::Base, modifiers: vec![Modifier::Pointer] },
        });
        signature.push_str("char*");
    }
    signature.push(')');
    DebugFunction {
        function: Function {
            name: Some(name.to_string()),
            typed: Typed { name: "int".to_string(), value: TypedValue::Base, modifiers: vec![] },
            parameters,
        },
        signature,
    }
}

fn debug_of(names: &[(&str, bool)]) -> Table<DebugFunction> {
    let mut t = Table::new();
    for (name, ptr) in names {
        t.insert(name.to_string(), int_fn(name, *ptr));
    }
    t
}

fn symbols_of(list: &[(&str, &str)]) -> Table<String> {
    let mut t = Table::new();
    for (name, address) in list {
        t.insert(name.to_string(), address.to_string());
    }
    t
}

fn listing(t: &Table<String>) -> Vec<(String, String)> {
    t.entries.iter().map(|e| (e.key.clone(), e.value.clone())).collect()
}

fn exported(t: &Table<Exported>, debug: &Table<DebugFunction>) -> Vec<(String, String, String)> {
    t.entries
        .iter()
        .map(|e| {
            (e.key.clone(), e.value.debug_name.clone(), debug.entries[e.value.function].key.clone())
        })
        .collect()
}

fn pair(a: &str, b: &str) -> (String, String) {
    (a.to_string(), b.to_string())
}

fn triple(a: &str, b: &str, c: &str) -> (String, String, String) {
    (a.to_string(), b.to_string(), c.to_string())
}

#[test]
fn table_keeps_keys_in_order_and_last_value() {
    let t = symbols_of(&[("b", "1"), ("a", "2"), ("c", "3"), ("b", "4"), ("ab", "5"), ("", "6")]);
    assert_eq!(
        listing(&t),
        vec![pair("", "6"), pair("a", "2"), pair("ab", "5"), pair("b", "4"), pair("c", "3")]
    );
    assert_eq!(t.len(), 5);
    assert_eq!(t.find("ab"), Some(2));
    assert_eq!(t.find("abc"), None);
    assert_eq!(t.get("b"), Some(&"4".to_string()));
    assert_eq!(t.get("z"), None);
}

#[test]
fn table_orders_keys_as_strings_are_ordered() {
    let mut keys = vec!["foo@@V", "foo", "Foo", "_foo", "fo", "é", "z", "foo@V", "日本", "a b"];
    let t = symbols_of(&keys.iter().map(|k| (*k, "x")).collect::<Vec<_>>());
    keys.sort();
    let got: Vec<String> = t.entries.iter().map(|e| e.key.clone()).collect();
    assert_eq!(got, keys.iter().map(|k| k.to_string()).collect::<Vec<_>>());
}

#[test]
fn parse_sorts_symbols_into_two_tables() {
    let text = "0000000000001000 T main\n0000000000002000 t helper\n0000000000003000 W alias\n0000000000004000 D data\n                 U printf\n0000000000005000 B bss\n";
    let tables = parse(text).unwrap();
    assert_eq!(
        listing(&tables.text_symbols),
        vec![pair("helper", "0000000000002000"), pair("main", "0000000000001000")]
    );
    assert_eq!(listing(&tables.weak_symbols), vec![pair("alias", "0000000000003000")]);
}

#[test]
fn parse_takes_a_last_line_without_line_feed() {
    let tables = parse("0x2000 T emit").unwrap();
    assert_eq!(listing(&tables.text_symbols), vec![pair("emit", "0x2000")]);
    assert!(tables.weak_symbols.entries.is_empty());
}

#[test]
fn parse_of_nothing_is_empty() {
    let tables = parse("").unwrap();
    assert!(tables.text_symbols.entries.is_empty());
    assert!(tables.weak_symbols.entries.is_empty());
}

#[test]
fn parse_ignores_what_follows_the_name() {
    let tables = parse("10 T f extra columns\n20 W g\tmore\n").unwrap();
    assert_eq!(listing(&tables.text_symbols), vec![pair("f", "10")]);
    assert_eq!(listing(&tables.weak_symbols), vec![pair("g", "20")]);
}

#[test]
fn parse_drops_a_carriage_return_before_the_line_feed() {
    let tables = parse("10 T f\r\n20 W g\r\n30 T h\r").unwrap();
    assert_eq!(listing(&tables.text_symbols), vec![pair("f", "10"), pair("h", "30")]);
    assert_eq!(listing(&tables.weak_symbols), vec![pair("g", "20")]);
}

#[test]
fn parse_keeps_the_last_address_of_a_name() {
    let tables = parse("10 T f\n20 T f\n30 W f\n").unwrap();
    assert_eq!(listing(&tables.text_symbols), vec![pair("f", "20")]);
    assert_eq!(listing(&tables.weak_symbols), vec![pair("f", "30")]);
}

#[test]
fn parse_tells_kinds_by_the_whole_column() {
    let tables = parse("10 TT f\n20 w g\n30 V h\n40 T@ i\n50 Wt j\n").unwrap();
    assert!(tables.text_symbols.entries.is_empty());
    assert!(tables.weak_symbols.entries.is_empty());
}

#[test]
fn parse_fails_on_a_line_without_type() {
    assert_eq!(parse("0x1000").err(), Some(NmError::MissingType));
    assert_eq!(parse("10 T f\n0x1000  \n20 T g\n").err(), Some(NmError::MissingType));
    assert_eq!(parse("  0x1000\n").err(), Some(NmError::MissingType));
}

#[test]
fn parse_fails_on_a_blank_line() {
    assert_eq!(parse("\n").err(), Some(NmError::MissingAddress));
    assert_eq!(parse("10 T f\n\n20 T g\n").err(), Some(NmError::MissingAddress));
    assert_eq!(parse("10 T f\n \t \r\n").err(), Some(NmError::MissingAddress));
    assert_eq!(parse("   ").err(), Some(NmError::MissingAddress));
}

#[test]
fn parse_reports_the_first_fault() {
    assert_eq!(parse("10 T\n\n20\n").err(), Some(NmError::MissingSymbol));
    assert_eq!(parse("20\n10 T\n").err(), Some(NmError::MissingType));
}

#[test]
fn parse_fails_on_a_symbol_line_without_name() {
    assert_eq!(parse("0x1000 T").err(), Some(NmError::MissingSymbol));
    assert_eq!(parse("0x1000 t\n").err(), Some(NmError::MissingSymbol));
    assert_eq!(parse("10 T f\n0x1000 W\n").err(), Some(NmError::MissingSymbol));
    assert_eq!(parse("0x1000 T   \n").err(), Some(NmError::MissingSymbol));
    assert!(parse("0x1000 D").is_ok());
}

#[test]
fn parse_takes_columns_apart_by_any_run_of_white_space() {
    let tables = parse("  10 \t T  f\n\t20\u{a0}W\u{3000}\u{2003}g \n").unwrap();
    assert_eq!(listing(&tables.text_symbols), vec![pair("f", "10")]);
    assert_eq!(listing(&tables.weak_symbols), vec![pair("g", "20")]);
}

#[test]
fn white_space_is_what_the_standard_library_calls_so() {
    for n in 0..=0x10ffffu32 {
        if let Some(c) = char::from_u32(n) {
            assert_eq!(is_blank(c), c.is_whitespace(), "{:x}", n);
        }
    }
}

#[test]
fn order_of_sequences_is_the_order_of_strings() {
    let words = ["", "a", "ab", "b", "B", "a\u{e9}", "\u{e9}", "\u{10000}", "\u{ffff}", "@", "@@", "_"];
    for a in words {
        for b in words {
            let x: Vec<char> = a.chars().collect();
            let y: Vec<char> = b.chars().collect();
            assert_eq!(comes_before(&x, &y), a < b, "{:?} {:?}", a, b);
            assert_eq!(same_chars(&x, &y), a == b);
        }
    }
}

#[test]
fn text_helpers_find_what_they_look_for() {
    let hay = chars_of("a b@@c@d");
    assert_eq!(hay, vec!['a', ' ', 'b', '@', '@', 'c', '@', 'd']);
    assert_eq!(find_from(&hay, &chars_of("@@"), 0), Some(3));
    assert_eq!(find_from(&hay, &chars_of("@@"), 4), None);
    assert_eq!(find_from(&hay, &chars_of("@"), 5), Some(6));
    assert_eq!(find_from(&hay, &chars_of(""), 8), Some(8));
    assert_eq!(find_from(&hay, &chars_of(""), 9), None);
    assert_eq!(find_from(&chars_of("ab"), &chars_of("abc"), 0), None);
    assert!(matches_at(&hay, &chars_of("b@"), 2));
    assert!(!matches_at(&hay, &chars_of("b@"), 3));
    assert!(!matches_at(&hay, &chars_of("d!"), 7));
    assert_eq!(code_point('A'), 65);
}

#[test]
fn default_version_is_reported_and_no_other() {
    let debug = debug_of(&[("foo", false)]);
    let text = symbols_of(&[("foo", "1000"), ("foo@@VERS_1", "1000"), ("foo@VERS_0", "1000")]);
    let weak = symbols_of(&[]);
    let got = correlate(&debug, &text, &weak, &policy(false, false));
    assert_eq!(exported(&got, &debug), vec![triple("foo", "foo", "foo")]);
}

#[test]
fn versioned_weak_symbol_that_is_not_default_is_left_out() {
    let debug = debug_of(&[("foo", false)]);
    let text = symbols_of(&[("foo", "1000")]);
    let weak = symbols_of(&[("bar@VERS_0", "1000"), ("baz@@VERS_1", "1000")]);
    let got = correlate(&debug, &text, &weak, &policy(false, false));
    assert_eq!(exported(&got, &debug), vec![triple("baz", "foo", "foo"), triple("foo", "foo", "foo")]);
}

#[test]
fn versioned_symbols_alone_seed_no_address() {
    let debug = debug_of(&[("foo", false)]);
    let text = symbols_of(&[("foo@@VERS_1", "1000"), ("foo@VERS_0", "1000")]);
    let got = correlate(&debug, &text, &symbols_of(&[]), &policy(false, false));
    assert!(got.entries.is_empty());
}

#[test]
fn weak_alias_gets_the_function_at_its_address() {
    let debug = debug_of(&[("real_name", true)]);
    let text = symbols_of(&[("real_name", "0x1000")]);
    let weak = symbols_of(&[("alias_name", "0x1000")]);
    let flags = policy(false, true);
    let got = correlate(&debug, &text, &weak, &flags);
    assert_eq!(
        exported(&got, &debug),
        vec![triple("alias_name", "real_name", "real_name"), triple("real_name", "real_name", "real_name")]
    );
    let lines = report(&debug, &got, &flags);
    assert_eq!(lines.len(), 2);
    assert_eq!(lines[0].name, "alias_name");
    assert_eq!(lines[0].signature, "alias_name int(char*)");
    assert!(lines[0].serializable);
    assert_eq!(lines[1].name, "real_name");
    assert_eq!(lines[1].signature, "real_name int(char*)");
    assert!(lines[1].serializable);
}

#[test]
fn weak_symbols_seed_no_address() {
    let debug = debug_of(&[("f", false)]);
    let got = correlate(&debug, &symbols_of(&[]), &symbols_of(&[("f", "10")]), &policy(true, false));
    assert!(got.entries.is_empty());
}

#[test]
fn reserved_name_is_shown_only_on_demand() {
    let debug = debug_of(&[("_hidden", false), ("shown", false)]);
    let text = symbols_of(&[("_hidden", "10"), ("shown", "20")]);
    let weak = symbols_of(&[("_alias@@V1", "20")]);
    let got = correlate(&debug, &text, &weak, &policy(false, false));
    assert_eq!(exported(&got, &debug), vec![triple("shown", "shown", "shown")]);
    let got = correlate(&debug, &text, &weak, &policy(true, false));
    assert_eq!(
        exported(&got, &debug),
        vec![
            triple("_alias", "shown", "shown"),
            triple("_hidden", "_hidden", "_hidden"),
            triple("shown", "shown", "shown"),
        ]
    );
}

#[test]
fn symbol_at_an_unknown_address_is_left_out() {
    let debug = debug_of(&[("known", false)]);
    let text = symbols_of(&[("known", "10"), ("stranger", "20")]);
    let weak = symbols_of(&[("weak_stranger", "30")]);
    let got = correlate(&debug, &text, &weak, &policy(true, false));
    assert_eq!(exported(&got, &debug), vec![triple("known", "known", "known")]);
}

#[test]
fn later_symbol_at_an_address_names_the_function() {
    let debug = debug_of(&[("a", false), ("b", true)]);
    let text = symbols_of(&[("a", "10"), ("b", "10"), ("c", "10")]);
    let got = correlate(&debug, &text, &symbols_of(&[]), &policy(false, false));
    assert_eq!(
        exported(&got, &debug),
        vec![triple("a", "b", "b"), triple("b", "b", "b"), triple("c", "b", "b")]
    );
}

#[test]
fn weak_symbol_takes_the_place_of_a_text_symbol_of_its_exported_name() {
    let debug = debug_of(&[("f", false), ("g", true)]);
    let text = symbols_of(&[("f", "10"), ("g", "20")]);
    let weak = symbols_of(&[("f@@V2", "20")]);
    let got = correlate(&debug, &text, &weak, &policy(false, false));
    assert_eq!(exported(&got, &debug), vec![triple("f", "g", "g"), triple("g", "g", "g")]);
}

#[test]
fn result_is_in_the_order_of_exported_names() {
    let debug = debug_of(&[("m", false)]);
    let text = symbols_of(&[("m", "10"), ("z@@V", "10"), ("b", "10")]);
    let weak = symbols_of(&[("a", "10"), ("y", "10")]);
    let got = correlate(&debug, &text, &weak, &policy(false, false));
    let names: Vec<String> = got.entries.iter().map(|e| e.key.clone()).collect();
    assert_eq!(names, vec!["a", "b", "m", "y", "z"]);
}

#[test]
fn rename_changes_the_first_occurrence_only() {
    assert_eq!(rename("foo int(foo_t)", "foo", "bar"), "bar int(foo_t)");
    assert_eq!(rename("xfoo foo(foo)", "foo", "b"), "xb foo(foo)");
    assert_eq!(rename("int f()", "g", "h"), "int f()");
    assert_eq!(rename("abc", "c", "xyz"), "abxyz");
    assert_eq!(rename("abc", "", "-"), "-abc");
    assert_eq!(rename("", "a", "b"), "");
    assert_eq!(rename("aab", "ab", ""), "a");
}

#[test]
fn summary_counts_both_kinds() {
    let line = |s: bool| ReportLine { name: String::new(), signature: String::new(), serializable: s };
    let lines = vec![line(true), line(false), line(true), line(true)];
    assert_eq!(summarize(&lines), Summary { serializable: 3, not_serializable: 1 });
    assert_eq!(summarize(&Vec::new()), Summary { serializable: 0, not_serializable: 0 });
}

#[test]
fn end_to_end_example() {
    let debug = debug_of(&[("emit", true)]);
    let flags = policy(false, true);
    let lines = analyze(&debug, "0x2000 T emit", &flags).unwrap();
    assert_eq!(lines.len(), 1);
    assert_eq!(lines[0].name, "emit");
    assert_eq!(lines[0].signature, "emit int(char*)");
    assert!(lines[0].serializable);
    let lines = analyze(&debug, "0x2000 T emit", &policy(false, false)).unwrap();
    assert_eq!(lines.len(), 1);
    assert!(!lines[0].serializable);
}

#[test]
fn end_to_end_fails_on_a_broken_dump() {
    let debug = debug_of(&[("emit", true)]);
    assert_eq!(analyze(&debug, "0x2000 T emit\nbroken\n", &policy(false, true)).err(), Some(NmError::MissingType));
    assert_eq!(analyze(&debug, "0x2000 T", &policy(false, true)).err(), Some(NmError::MissingSymbol));
}

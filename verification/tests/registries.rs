use modcheck::block::Block;
use modcheck::block::Comparator;
use modcheck::block::EqKind;
use modcheck::block::BV;
use modcheck::config_load::assert_one_key;
use modcheck::config_load::check_for_legacy_ignore;
use modcheck::config_load::load_filter;
use modcheck::config_load::load_rule;
use modcheck::config_load::load_rules;
use modcheck::datafunctions::Datatables;
use modcheck::everything::Everything;
use modcheck::fileset::order_files;
use modcheck::fileset::sort_files;
use modcheck::fileset::FileEntry;
use modcheck::fileset::FileHandler;
use modcheck::filter::FilterRule;
use modcheck::filter::FilterSettings;
use modcheck::item::Item;
use modcheck::localization::Localization;
use modcheck::localization::LocaEntry;
use modcheck::localization::LocaValue;
use modcheck::order::order_of;
use modcheck::provinces::color_code;
use modcheck::provinces::province_color;
use modcheck::provinces::Provinces;
use modcheck::report::Confidence;
use modcheck::report::ErrorKey;
use modcheck::report::Errors;
use modcheck::report::Severity;
use modcheck::scopes::Scopes;
use modcheck::scopes::CHARACTER;
use modcheck::scopes::PROVINCE;
use modcheck::scripted_triggers::read_scopes;
use modcheck::scripted_triggers::split_on;
use modcheck::scripted_triggers::Triggers;
use modcheck::tables::ScriptTables;
use modcheck::text::ends_with;
use modcheck::text::hex_pair;
use modcheck::text::parse_i64;
use modcheck::text::starts_with;
use modcheck::text::str_eq;
use modcheck::text::str_lt;
use modcheck::titles::Tier;
use modcheck::titles::Title;
use modcheck::titles::Titles;
use modcheck::token::FileKind;
use modcheck::token::Loc;
use modcheck::token::Token;

fn rg_loc(line: u32) -> Loc {
    Loc { file: 1, kind: FileKind::Mod, line, column: 1 }
}

fn rg_tok(s: &str, line: u32) -> Token {
    Token::new(s, rg_loc(line))
}

fn rg_pair(key: &str, value: &str, line: u32) -> Block {
    let mut b = Block::new(rg_loc(line));
    b.add_assignment(rg_tok(key, line), rg_tok(value, line));
    b
}

fn rg_file(parts: &[&str], kind: FileKind) -> FileEntry {
    FileEntry::new(parts.iter().map(|s| s.to_string()).collect(), kind)
}

fn rg_msgs(errors: &Errors) -> Vec<&str> {
    errors.reports.iter().map(|r| r.msg.as_str()).collect()
}

fn rg_paths(files: &[FileEntry]) -> Vec<(String, FileKind)> {
    files.iter().map(|f| (f.path().join("/"), f.kind())).collect()
}

#[test]
fn text_comparisons() {
    assert!(str_eq("abc", "abc"));
    assert!(!str_eq("abc", "abd"));
    assert!(!str_eq("abc", "ab"));
    assert!(str_lt("a", "b"));
    assert!(str_lt("a", "ab"));
    assert!(str_lt("", "a"));
    assert!(!str_lt("a", "a"));
    assert!(!str_lt("b", "a"));
    assert!(str_lt("Z", "a"));
    assert!(str_lt("a.b", "a/b"));
    assert!(str_lt("z", "é"));
    assert!(starts_with("b_barony", "b_"));
    assert!(!starts_with("b", "b_"));
    assert!(starts_with("x", ""));
    assert!(ends_with("file.txt", ".txt"));
    assert!(!ends_with("txt", ".txt"));
    assert!(ends_with("é.txt", ".txt"));
}

#[test]
fn whole_numbers_are_read() {
    assert_eq!(parse_i64("0"), Some(0));
    assert_eq!(parse_i64("42"), Some(42));
    assert_eq!(parse_i64("+7"), Some(7));
    assert_eq!(parse_i64("-7"), Some(-7));
    assert_eq!(parse_i64("007"), Some(7));
    assert_eq!(parse_i64("9223372036854775807"), Some(i64::MAX));
    assert_eq!(parse_i64("-9223372036854775808"), Some(i64::MIN));
    assert_eq!(parse_i64("9223372036854775808"), None);
    assert_eq!(parse_i64("-9223372036854775809"), None);
    assert_eq!(parse_i64("99999999999999999999999"), None);
    assert_eq!(parse_i64(""), None);
    assert_eq!(parse_i64("-"), None);
    assert_eq!(parse_i64("+"), None);
    assert_eq!(parse_i64("1x"), None);
    assert_eq!(parse_i64(" 1"), None);
    assert_eq!(parse_i64("1.5"), None);
    assert_eq!(parse_i64("--1"), None);
}

#[test]
fn hex_pairs_are_read() {
    assert_eq!(hex_pair('0', '0'), Some(0));
    assert_eq!(hex_pair('f', 'f'), Some(255));
    assert_eq!(hex_pair('A', '0'), Some(160));
    assert_eq!(hex_pair('1', 'c'), Some(28));
    assert_eq!(hex_pair('+', 'f'), Some(15));
    assert_eq!(hex_pair('g', '0'), None);
    assert_eq!(hex_pair('0', 'g'), None);
    assert_eq!(hex_pair('-', '1'), None);
    assert_eq!(hex_pair('0', '+'), None);
}

#[test]
fn provinces_are_known_by_their_colours() {
    let mut p = Provinces::new();
    // Without the image every province counts as there.
    assert!(p.is_known("anything"));
    let mut errors = Errors::new();
    let image = rg_file(&["map_data", "provinces.png"], FileKind::Vanilla);
    p.handle_file(&image, 0, vec![(0x12, 0x34, 0x56), (255, 0, 10), (0x12, 0x34, 0x56)], &mut errors);
    assert!(p.provinces_png.is_some());
    assert!(p.is_known("x123456"));
    assert!(p.is_known("xFF000A"));
    assert!(p.is_known("xff000a"));
    assert!(!p.is_known("x123457"));
    assert!(!p.is_known("123456"));
    assert!(!p.is_known("y123456"));
    assert!(!p.is_known("x12345"));
    assert!(!p.is_known("x1234567"));
    assert!(!p.is_known("x12345g"));
    assert!(!p.is_known("xé23456"));
    assert_eq!(color_code(0x12, 0x34, 0x56), 0x123456);
    assert_eq!(color_code(255, 255, 255), 0xffffff);
    assert_eq!(province_color("x000001"), Some(1));
    assert_eq!(province_color("x+1+2+3"), Some(0x010203));
    assert_eq!(province_color("x"), None);
    p.verify_exists_implied("x123456", &rg_tok("x123456", 1), &mut errors);
    assert_eq!(errors.len(), 0);
    p.verify_exists_implied("x000000", &rg_tok("x000000", 2), &mut errors);
    assert_eq!(errors.len(), 1);
    assert_eq!(errors.get(0).key, ErrorKey::MissingItem);
    assert_eq!(errors.get(0).severity, Severity::Warning);
    assert_eq!(errors.get(0).msg, "province not found on map");
    assert_eq!(errors.get(0).pointers[0].location, rg_loc(2));
    assert_eq!(p.subpath(), vec!["map_data".to_string(), "provinces.png".to_string()]);
}

#[test]
fn tiers() {
    assert_eq!(Tier::try_from(&rg_tok("b_x", 1)), Ok(Tier::Barony));
    assert_eq!(Tier::try_from(&rg_tok("c_x", 1)), Ok(Tier::County));
    assert_eq!(Tier::try_from(&rg_tok("d_x", 1)), Ok(Tier::Duchy));
    assert_eq!(Tier::try_from(&rg_tok("k_x", 1)), Ok(Tier::Kingdom));
    assert_eq!(Tier::try_from(&rg_tok("e_", 1)), Ok(Tier::Empire));
    assert!(Tier::try_from(&rg_tok("x_x", 1)).is_err());
    assert!(Tier::try_from(&rg_tok("b", 1)).is_err());
    assert!(Tier::Barony.rank() < Tier::County.rank());
    assert!(Tier::Kingdom.rank() < Tier::Empire.rank());
    assert_eq!(Tier::Duchy.name(), "duchy");
}

#[test]
fn new_title_takes_its_tier_from_its_name() {
    let t = Title::new(rg_tok("c_here", 3), Block::new(rg_loc(3)), Some("d_there"), false);
    assert_eq!(t.tier, Tier::County);
    assert_eq!(t.parent.as_deref(), Some("d_there"));
    assert!(!t.is_county_capital);
    assert_eq!(t.capital_of(), None);
    let b = Title::new(rg_tok("b_here", 4), Block::new(rg_loc(4)), Some("c_here"), true);
    assert_eq!(b.capital_of(), Some("c_here"));
    let top = Title::new(rg_tok("e_all", 5), Block::new(rg_loc(5)), None, false);
    assert!(top.parent.is_none());
}

fn rg_barony(province: &str, line: u32) -> Block {
    rg_pair("province", province, line)
}

#[test]
fn titles_are_loaded_with_the_titles_inside_them() {
    let mut titles = Titles::new();
    let mut errors = Errors::new();
    let mut county = Block::new(rg_loc(2));
    county.add_assignment(rg_tok("color", 2), rg_tok("red", 2));
    county.add_definition(rg_tok("b_first", 3), rg_barony("12", 3));
    county.add_definition(rg_tok("b_second", 4), rg_barony("13", 4));
    county.add_definition(rg_tok("cultural_names", 5), Block::new(rg_loc(5)));
    let mut duchy = Block::new(rg_loc(1));
    duchy.add_definition(rg_tok("c_here", 2), county);
    titles.load_item(rg_tok("d_there", 1), &duchy, None, false, &mut errors);
    assert_eq!(errors.len(), 0);
    assert_eq!(titles.items.len(), 4);
    assert!(titles.is_known("d_there"));
    assert!(titles.is_known("b_second"));
    assert!(!titles.is_known("cultural_names"));
    assert_eq!(titles.get("c_here").unwrap().parent.as_deref(), Some("d_there"));
    assert_eq!(titles.get("b_first").unwrap().tier, Tier::Barony);
    assert!(titles.get("b_first").unwrap().is_county_capital);
    assert!(!titles.get("b_second").unwrap().is_county_capital);
    assert_eq!(titles.capital_of(12), Some("c_here"));
    assert_eq!(titles.capital_of(13), None);
    assert_eq!(titles.capital_of(14), None);
}

#[test]
fn title_errors() {
    let mut titles = Titles::new();
    let mut errors = Errors::new();
    let mut county = Block::new(rg_loc(2));
    county.add_definition(rg_tok("d_inside", 3), Block::new(rg_loc(3)));
    titles.load_item(rg_tok("c_odd", 2), &county, None, false, &mut errors);
    titles.load_item(rg_tok("c_empty", 5), &Block::new(rg_loc(5)), None, false, &mut errors);
    titles.load_item(rg_tok("b_none", 6), &Block::new(rg_loc(6)), None, false, &mut errors);
    titles.load_item(rg_tok("b_word", 7), &rg_barony("twelve", 7), None, false, &mut errors);
    titles.load_item(rg_tok("b_neg", 8), &rg_barony("-1", 8), None, false, &mut errors);
    titles.load_item(rg_tok("b_big", 9), &rg_barony("4294967296", 9), None, false, &mut errors);
    titles.load_item(rg_tok("b_max", 10), &rg_barony("4294967295", 10), None, false, &mut errors);
    titles.load_item(rg_tok("b_max", 11), &rg_barony("1", 11), None, false, &mut errors);
    assert_eq!(
        rg_msgs(&errors),
        vec![
            "can't put a duchy inside a county",
            "county with no baronies!",
            "barony without province id",
            "barony without province id",
            "province id out of range",
            "province id out of range",
            "duplicate definition of a title",
        ]
    );
    assert_eq!(errors.get(0).pointers[0].location, rg_loc(3));
    assert_eq!(errors.get(4).pointers[0].location, rg_loc(8));
    assert_eq!(errors.get(6).key, ErrorKey::Duplicate);
    // The duchy inside the county is loaded all the same, and it is no barony.
    assert!(titles.is_known("d_inside"));
    assert_eq!(titles.get("b_max").unwrap().key.loc, rg_loc(11));
}

#[test]
fn title_files_and_capitals() {
    let mut titles = Titles::new();
    let mut errors = Errors::new();
    let mut file = Block::new(rg_loc(0));
    file.add_definition(rg_tok("k_realm", 1), rg_pair("capital", "c_gone", 1));
    file.add_definition(rg_tok("not_a_title", 2), Block::new(rg_loc(2)));
    file.add_assignment(rg_tok("k_other", 3), rg_tok("x", 3));
    let entry = rg_file(&["common", "landed_titles", "00_titles.txt"], FileKind::Vanilla);
    titles.handle_file(&entry, 1, file, &mut errors);
    assert_eq!(rg_msgs(&errors), vec!["expected title", "expected a definition here"]);
    assert_eq!(errors.get(0).severity, Severity::Warning);
    titles.finalize(&mut errors);
    assert_eq!(errors.len(), 3);
    assert_eq!(errors.get(2).msg, "capital is not defined as a title");
    assert_eq!(titles.subpath(), vec!["common".to_string(), "landed_titles".to_string()]);
    // Files that are no script are passed over.
    let mut other = Block::new(rg_loc(0));
    other.add_definition(rg_tok("k_more", 1), Block::new(rg_loc(1)));
    titles.handle_file(&rg_file(&["common", "landed_titles", "notes.md"], FileKind::Vanilla), 2, other, &mut errors);
    assert!(!titles.is_known("k_more"));
}

#[test]
fn titles_must_be_localized() {
    let mut loca = Localization::new();
    loca.mod_langs = vec![0];
    let mut errors = Errors::new();
    loca.insert_entries(
        0,
        FileKind::Mod,
        vec![LocaEntry::new(rg_tok("k_realm", 1), LocaValue::Text(rg_tok("Realm", 1)), None)],
        &mut errors,
    );
    let mut names = Block::new(rg_loc(2));
    names.add_assignment(rg_tok("name_list_a", 2), rg_tok("cn_realm_a", 2));
    names.add_definition(rg_tok("odd", 3), Block::new(rg_loc(3)));
    let mut block = Block::new(rg_loc(1));
    block.add_definition(rg_tok("cultural_names", 2), names);
    let mut titles = Titles::new();
    titles.load_item(rg_tok("k_realm", 1), &block, None, false, &mut errors);
    titles.load_item(rg_tok("k_void", 5), &Block::new(rg_loc(5)), None, false, &mut errors);
    assert_eq!(errors.len(), 0);
    titles.validate(&loca, &mut errors);
    assert_eq!(
        rg_msgs(&errors),
        vec![
            "missing english localization key cn_realm_a",
            "missing english localization key k_void",
        ]
    );
}

#[test]
fn a_title_that_was_defined_again_is_not_checked() {
    let mut loca = Localization::new();
    loca.mod_langs = vec![0];
    let mut errors = Errors::new();
    let mut titles = Titles::new();
    titles.load_item(rg_tok("k_realm", 1), &rg_pair("capital", "c_gone", 1), None, false, &mut errors);
    titles.load_item(rg_tok("k_realm", 5), &Block::new(rg_loc(5)), None, false, &mut errors);
    assert_eq!(rg_msgs(&errors), vec!["duplicate definition of a title"]);
    let mut errors = Errors::new();
    titles.validate(&loca, &mut errors);
    assert_eq!(errors.len(), 1);
    assert_eq!(errors.get(0).pointers[0].location, rg_loc(5));
    // The capital of the replaced definition is not looked at.
    titles.finalize(&mut errors);
    assert_eq!(errors.len(), 1);
}

#[test]
fn files_come_in_load_order_and_the_mod_shadows_the_game() {
    let files = vec![
        rg_file(&["events", "b.txt"], FileKind::Mod),
        rg_file(&["events", "a.txt"], FileKind::Vanilla),
        rg_file(&["common", "x", "z.txt"], FileKind::Vanilla),
        rg_file(&["events", "a.txt"], FileKind::Mod),
        rg_file(&["common.txt"], FileKind::Mod),
        rg_file(&["common", "x.txt"], FileKind::Vanilla),
    ];
    let sorted = sort_files(files.iter().cloned().collect());
    assert_eq!(
        rg_paths(&sorted),
        vec![
            ("common/x/z.txt".to_string(), FileKind::Vanilla),
            ("common/x.txt".to_string(), FileKind::Vanilla),
            ("common.txt".to_string(), FileKind::Mod),
            ("events/a.txt".to_string(), FileKind::Vanilla),
            ("events/a.txt".to_string(), FileKind::Mod),
            ("events/b.txt".to_string(), FileKind::Mod),
        ]
    );
    let ordered = order_files(files);
    assert_eq!(
        rg_paths(&ordered),
        vec![
            ("common/x/z.txt".to_string(), FileKind::Vanilla),
            ("common/x.txt".to_string(), FileKind::Vanilla),
            ("common.txt".to_string(), FileKind::Mod),
            ("events/a.txt".to_string(), FileKind::Mod),
            ("events/b.txt".to_string(), FileKind::Mod),
        ]
    );
}

#[test]
fn every_path_is_kept_once() {
    assert!(order_files(Vec::new()).is_empty());
    let one = order_files(vec![rg_file(&["only.txt"], FileKind::Mod)]);
    assert_eq!(rg_paths(&one), vec![("only.txt".to_string(), FileKind::Mod)]);
    let same = vec![rg_file(&["a.txt"], FileKind::Mod), rg_file(&["a.txt"], FileKind::Vanilla)];
    assert_eq!(rg_paths(&order_files(same)), vec![("a.txt".to_string(), FileKind::Mod)]);
    let game_only = vec![rg_file(&["a.txt"], FileKind::Vanilla), rg_file(&["a.txt"], FileKind::Vanilla)];
    assert_eq!(rg_paths(&order_files(game_only)), vec![("a.txt".to_string(), FileKind::Vanilla)]);
    let two = vec![rg_file(&["b.txt"], FileKind::Mod), rg_file(&["a.txt"], FileKind::Mod)];
    assert_eq!(
        rg_paths(&order_files(two)),
        vec![("a.txt".to_string(), FileKind::Mod), ("b.txt".to_string(), FileKind::Mod)]
    );
    // The last path is kept also where it is the path of the first file.
    let wrap = vec![
        rg_file(&["z.txt"], FileKind::Vanilla),
        rg_file(&["a.txt"], FileKind::Vanilla),
        rg_file(&["z.txt"], FileKind::Mod),
    ];
    assert_eq!(
        rg_paths(&order_files(wrap)),
        vec![("a.txt".to_string(), FileKind::Vanilla), ("z.txt".to_string(), FileKind::Mod)]
    );
}

#[test]
fn one_scanned_file_is_in_the_load_order() {
    let data = Everything::new(
        Vec::new(),
        Vec::new(),
        vec![rg_file(&["events", "a.txt"], FileKind::Vanilla)],
        Block::new(rg_loc(0)),
        ScriptTables::new(),
        Datatables::new(),
    );
    assert_eq!(data.ordered_files.len(), 1);
    assert_eq!(data.ordered_files[0].filename(), "a.txt");
}

#[test]
fn derived_order_of_files_is_the_load_order() {
    let a = rg_file(&["events", "a.txt"], FileKind::Vanilla);
    let a_mod = rg_file(&["events", "a.txt"], FileKind::Mod);
    let b = rg_file(&["events.txt"], FileKind::Vanilla);
    assert!(a < a_mod);
    assert!(a_mod < b);
    assert_eq!(a < b, a.sorts_before(&b));
    assert_eq!(a_mod < a, a_mod.sorts_before(&a));
    assert!(FileKind::Vanilla < FileKind::Mod);
    assert!(Tier::Barony < Tier::County);
    assert!(Tier::Empire >= Tier::Kingdom);
}

#[test]
fn file_entries() {
    let e = rg_file(&["localization", "english", "a_l_english.yml"], FileKind::Mod);
    assert_eq!(e.kind(), FileKind::Mod);
    assert_eq!(e.path(), &vec!["localization".to_string(), "english".to_string(), "a_l_english.yml".to_string()]);
    assert_eq!(e.filename(), "a_l_english.yml");
    assert_eq!(e.depth(), 3);
    assert_eq!(e.component(1), "english");
    assert!(e.starts_with(&vec!["localization".to_string()]));
    assert!(e.starts_with(&Vec::new()));
    assert!(!e.starts_with(&vec!["local".to_string()]));
    assert!(!e.starts_with(&vec!["localization".to_string(), "english".to_string(), "a_l_english.yml".to_string(), "x".to_string()]));
    let other = rg_file(&["localization", "english", "a_l_english.yml"], FileKind::Vanilla);
    assert!(e.same_path(&other));
    assert!(other.sorts_before(&e));
    assert!(!e.sorts_before(&other));
    assert!(!e.sorts_before(&e));
    assert_eq!(e.loc(5), Loc { file: 5, kind: FileKind::Mod, line: 0, column: 0 });
    assert!(e.clone().same_path(&e));
}

#[test]
fn files_under_a_directory_and_whole_paths() {
    let files = vec![
        rg_file(&["events", "b.txt"], FileKind::Mod),
        rg_file(&["events", "a.txt"], FileKind::Vanilla),
        rg_file(&["common", "z.txt"], FileKind::Vanilla),
        rg_file(&["eventsx", "c.txt"], FileKind::Vanilla),
    ];
    let data = Everything::new(
        vec!["game".to_string()],
        vec!["home".to_string(), "mod".to_string()],
        files,
        Block::new(rg_loc(0)),
        ScriptTables::new(),
        Datatables::new(),
    );
    assert_eq!(data.ordered_files.len(), 4);
    let mut under = data.get_files_under(vec!["events".to_string()]);
    let (i, e) = under.next().unwrap();
    assert_eq!((i, e.filename()), (1, "a.txt"));
    assert_eq!(data.fullpath(e), vec!["game".to_string(), "events".to_string(), "a.txt".to_string()]);
    let (i, e) = under.next().unwrap();
    assert_eq!((i, e.filename()), (2, "b.txt"));
    assert_eq!(
        data.fullpath(e),
        vec!["home".to_string(), "mod".to_string(), "events".to_string(), "b.txt".to_string()]
    );
    assert!(under.next().is_none());
    assert!(under.next().is_none());
}

#[test]
fn places_are_ordered_by_file_line_and_column() {
    let at = |file: usize, line: u32, column: u32| Loc { file, kind: FileKind::Mod, line, column };
    let locs = vec![at(1, 5, 1), at(0, 9, 9), at(1, 5, 0), at(1, 4, 7), at(0, 9, 9)];
    assert_eq!(order_of(&locs), vec![1, 4, 3, 2, 0]);
    assert_eq!(order_of(&Vec::new()), Vec::<usize>::new());
}

#[test]
fn ignore_blocks_of_the_older_configuration() {
    let mut first = Block::new(rg_loc(1));
    first.add_assignment(rg_tok("key", 1), rg_tok("missing-item", 1));
    first.add_assignment(rg_tok("key", 2), rg_tok("no-such-key", 2));
    first.add_assignment(rg_tok("key", 3), rg_tok("scopes", 3));
    let mut second = Block::new(rg_loc(4));
    second.add_assignment(rg_tok("key", 4), rg_tok("duplicate-item", 4));
    second.add_assignment(rg_tok("file", 5), rg_tok("events", 5));
    second.add_assignment(rg_tok("file", 6), rg_tok("common/x.txt", 6));
    let third = rg_pair("file", "events", 7);
    let mut config = Block::new(rg_loc(0));
    config.add_definition(rg_tok("ignore", 1), first);
    config.add_definition(rg_tok("other", 4), Block::new(rg_loc(4)));
    config.add_definition(rg_tok("ignore", 4), second);
    config.add_definition(rg_tok("ignore", 7), third);
    let data = Everything::new(Vec::new(), Vec::new(), Vec::new(), config, ScriptTables::new(), Datatables::new());
    let mut errors = Errors::new();
    let rules = data.load_errorkey_config(&mut errors);
    let got: Vec<(ErrorKey, Option<&str>)> = rules.iter().map(|r| (r.key, r.path.as_deref())).collect();
    assert_eq!(
        got,
        vec![
            (ErrorKey::MissingItem, None),
            (ErrorKey::Scopes, None),
            (ErrorKey::Duplicate, Some("events")),
            (ErrorKey::Duplicate, Some("common/x.txt")),
        ]
    );
    assert_eq!(rg_msgs(&errors), vec!["Matching variant not found"]);
    assert_eq!(errors.get(0).severity, Severity::Warning);
    assert_eq!(errors.get(0).key, ErrorKey::Config);
    assert_eq!(errors.get(0).pointers[0].location, rg_loc(2));
}

#[test]
fn items_are_looked_up_in_their_registries() {
    let mut data = Everything::new(
        Vec::new(),
        Vec::new(),
        Vec::new(),
        Block::new(rg_loc(0)),
        ScriptTables::new(),
        Datatables::new(),
    );
    let mut errors = Errors::new();
    data.titles.load_item(rg_tok("k_realm", 1), &Block::new(rg_loc(1)), None, false, &mut errors);
    data.triggers.load_item(&rg_tok("my_trigger", 2), &Block::new(rg_loc(2)), &mut errors);
    data.effects.load_item(&rg_tok("my_effect", 3), &Block::new(rg_loc(3)), &mut errors);
    data.db.add(Item::Sound, rg_tok("click", 4), Block::new(rg_loc(4)), &mut errors);
    assert!(data.item_exists(Item::Title, "k_realm"));
    assert!(!data.item_exists(Item::Title, "k_other"));
    assert!(data.item_exists(Item::ScriptedTrigger, "my_trigger"));
    assert!(!data.item_exists(Item::ScriptedTrigger, "my_effect"));
    assert!(data.item_exists(Item::ScriptedEffect, "my_effect"));
    assert!(data.item_exists(Item::Sound, "click"));
    assert!(!data.item_exists(Item::File, "click"));
    assert!(data.item_exists(Item::Province, "x000000"));
    assert!(!data.item_exists(Item::Event, "test.1"));
    assert!(data.item_exists(Item::Localization, "") == data.localization.is_known(""));
    data.verify_exists(Item::Title, &rg_tok("k_other", 9), &mut errors);
    data.verify_exists(Item::Title, &rg_tok("k_realm", 9), &mut errors);
    assert_eq!(rg_msgs(&errors), vec!["title not defined: k_other"]);
    assert_eq!(errors.get(0).key, ErrorKey::MissingItem);
}

#[test]
fn scope_declarations_are_read() {
    let mut errors = Errors::new();
    assert_eq!(read_scopes(&rg_tok("all", 1), &mut errors), Scopes::all());
    assert_eq!(read_scopes(&rg_tok("ALL", 1), &mut errors), Scopes::all());
    assert_eq!(read_scopes(&rg_tok("All", 1), &mut errors), Scopes::all());
    assert_eq!(read_scopes(&rg_tok("character", 1), &mut errors), Scopes::character());
    assert_eq!(read_scopes(&rg_tok("character|province", 1), &mut errors).bits(), CHARACTER | PROVINCE);
    assert_eq!(errors.len(), 0);
    assert_eq!(read_scopes(&rg_tok("character|wizard|", 2), &mut errors), Scopes::character());
    assert_eq!(rg_msgs(&errors), vec!["unknown scope type `wizard`", "unknown scope type ``"]);
    assert_eq!(errors.get(0).severity, Severity::Warning);
    assert_eq!(errors.get(0).key, ErrorKey::Config);
    assert_eq!(split_on("a|b||c", '|'), vec!["a", "b", "", "c"]);
    assert_eq!(split_on("", '|'), vec![""]);
    assert_eq!(split_on("|", '|'), vec!["", ""]);
    assert_eq!(split_on("abc", '|'), vec!["abc"]);
}

#[test]
fn scope_overrides_come_from_the_configuration() {
    let mut triggers = Triggers::new();
    let mut errors = Errors::new();
    let mut overrides = Block::new(rg_loc(1));
    overrides.add_assignment(rg_tok("my_trigger", 1), rg_tok("character|province", 1));
    overrides.add_assignment(rg_tok("other", 2), rg_tok("all", 2));
    overrides.add_assignment(rg_tok("my_trigger", 3), rg_tok("culture", 3));
    overrides.add_definition(rg_tok("odd", 4), Block::new(rg_loc(4)));
    let mut config = Block::new(rg_loc(0));
    config.add_definition(rg_tok("scope_override", 1), overrides);
    triggers.config(&config, &mut errors);
    assert_eq!(errors.len(), 0);
    // A later declaration takes the place of an earlier one.
    assert_eq!(triggers.get_override("my_trigger"), Some(Scopes::culture()));
    assert_eq!(triggers.get_override("other"), Some(Scopes::all()));
    assert_eq!(triggers.get_override("odd"), None);
    let mut file = Block::new(rg_loc(0));
    file.add_definition(rg_tok("my_trigger", 10), Block::new(rg_loc(10)));
    file.add_assignment(rg_tok("stray", 11), rg_tok("x", 11));
    let entry = rg_file(&["common", "scripted_triggers", "a.txt"], FileKind::Mod);
    triggers.handle_file(&entry, 3, file, &mut errors);
    assert_eq!(rg_msgs(&errors), vec!["expected a definition here"]);
    assert_eq!(triggers.get("my_trigger").unwrap().scope_override, Some(Scopes::culture()));
    assert_eq!(triggers.subpath(), vec!["common".to_string(), "scripted_triggers".to_string()]);
    assert_eq!(Triggers::new_effects().subpath(), vec!["common".to_string(), "scripted_effects".to_string()]);
}

#[test]
fn legacy_ignore_is_reported_once_with_all_places() {
    let mut config = Block::new(rg_loc(0));
    let mut errors = Errors::new();
    check_for_legacy_ignore(&config, &mut errors);
    assert_eq!(errors.len(), 0);
    config.add_definition(rg_tok("ignore", 1), Block::new(rg_loc(1)));
    config.add_definition(rg_tok("filter", 2), Block::new(rg_loc(2)));
    config.add_assignment(rg_tok("ignore", 3), rg_tok("x", 3));
    check_for_legacy_ignore(&config, &mut errors);
    assert_eq!(errors.len(), 1);
    let r = errors.get(0);
    assert_eq!(r.key, ErrorKey::Config);
    assert_eq!(r.confidence, Confidence::Strong);
    assert_eq!(r.msg, "`ignore` is deprecated, consider using `filter` instead.");
    assert_eq!(r.info.as_deref(), Some("Check out the filter.md guide on GitHub for tips on how to migrate."));
    assert_eq!(r.pointers.len(), 2);
    assert_eq!(r.pointers[0].location, rg_loc(1));
    assert_eq!(r.pointers[1].location, rg_loc(3));
    assert!(r.pointers[0].msg.is_none());
}

#[test]
fn a_key_may_occur_once() {
    let mut block = Block::new(rg_loc(0));
    block.add_assignment(rg_tok("trigger", 1), rg_tok("a", 1));
    let mut errors = Errors::new();
    assert_one_key("trigger", &block, &mut errors);
    assert_one_key("absent", &block, &mut errors);
    assert_eq!(errors.len(), 0);
    block.add_assignment(rg_tok("trigger", 2), rg_tok("b", 2));
    block.add_assignment(rg_tok("trigger", 3), rg_tok("c", 3));
    assert_one_key("trigger", &block, &mut errors);
    assert_eq!(errors.len(), 1);
    let r = errors.get(0);
    assert_eq!(r.msg, "Detected more than one `trigger`: there can be only one here!");
    assert_eq!(r.pointers.len(), 3);
    assert_eq!(r.pointers[0].msg.as_deref(), Some("It occurs here"));
    assert_eq!(r.pointers[1].msg.as_deref(), Some("and here"));
    assert_eq!(r.pointers[2].msg.as_deref(), Some("and here"));
    assert_eq!(r.pointers[2].location, rg_loc(3));
    assert_eq!(r.pointers[0].length, 1);
}

fn rg_key_rule(r: &FilterRule) -> ErrorKey {
    match r {
        FilterRule::Key(k) => *k,
        _ => panic!("expected a key rule"),
    }
}

#[test]
fn filter_rules_are_loaded() {
    let mut trigger = Block::new(rg_loc(1));
    trigger.add_item(Some(rg_tok("severity", 1)), Comparator::AtLeast, BV::Value(rg_tok("Warning", 1)));
    trigger.add_item(Some(rg_tok("confidence", 2)), Comparator::GreaterThan, BV::Value(rg_tok("Weak", 2)));
    trigger.add_assignment(rg_tok("key", 3), rg_tok("missing-item", 3));
    trigger.add_assignment(rg_tok("file", 4), rg_tok("common/traits", 4));
    trigger.add_assignment(rg_tok("always", 5), rg_tok("yes", 5));
    trigger.add_assignment(rg_tok("always", 6), rg_tok("no", 6));
    let mut not_one = Block::new(rg_loc(7));
    not_one.add_assignment(rg_tok("key", 7), rg_tok("scopes", 7));
    trigger.add_definition(rg_tok("NOT", 7), not_one);
    let mut not_two = Block::new(rg_loc(8));
    not_two.add_assignment(rg_tok("key", 8), rg_tok("scopes", 8));
    not_two.add_assignment(rg_tok("key", 9), rg_tok("macro", 9));
    trigger.add_definition(rg_tok("NOT", 8), not_two);
    trigger.add_definition(rg_tok("AND", 10), rg_pair("key", "config", 10));
    trigger.add_definition(rg_tok("OR", 11), Block::new(rg_loc(11)));
    trigger.add_definition(rg_tok("NAND", 12), rg_pair("key", "config", 12));
    trigger.add_definition(rg_tok("NOR", 13), rg_pair("key", "config", 13));
    let mut errors = Errors::new();
    let rules = load_rules(&trigger, &mut errors);
    assert_eq!(errors.len(), 0);
    assert_eq!(rules.len(), 12);
    assert!(matches!(rules[0], FilterRule::Severity(Comparator::AtLeast, Severity::Warning)));
    assert!(matches!(rules[1], FilterRule::Confidence(Comparator::GreaterThan, Confidence::Weak)));
    assert_eq!(rg_key_rule(&rules[2]), ErrorKey::MissingItem);
    match &rules[3] {
        FilterRule::File(f) => assert_eq!(f, "common/traits"),
        _ => panic!("expected a file rule"),
    }
    assert!(matches!(rules[4], FilterRule::Tautology));
    assert!(matches!(rules[5], FilterRule::Contradiction));
    match &rules[6] {
        FilterRule::Negation(inner) => assert_eq!(rg_key_rule(inner), ErrorKey::Scopes),
        _ => panic!("expected a negation"),
    }
    match &rules[7] {
        FilterRule::Negation(inner) => match &**inner {
            FilterRule::Disjunction(v) => {
                assert_eq!(v.len(), 2);
                assert_eq!(rg_key_rule(&v[1]), ErrorKey::Macro);
            }
            _ => panic!("expected a disjunction"),
        },
        _ => panic!("expected a negation"),
    }
    match &rules[8] {
        FilterRule::Conjunction(v) => assert_eq!(v.len(), 1),
        _ => panic!("expected a conjunction"),
    }
    match &rules[9] {
        FilterRule::Disjunction(v) => assert!(v.is_empty()),
        _ => panic!("expected a disjunction"),
    }
    match &rules[10] {
        FilterRule::Negation(inner) => assert!(matches!(**inner, FilterRule::Conjunction(_))),
        _ => panic!("expected a negation"),
    }
    match &rules[11] {
        FilterRule::Negation(inner) => assert!(matches!(**inner, FilterRule::Disjunction(_))),
        _ => panic!("expected a negation"),
    }
}

#[test]
fn filter_rule_errors() {
    let mut trigger = Block::new(rg_loc(1));
    trigger.add_value(rg_tok("loose", 1));
    trigger.add_item(Some(rg_tok("key", 2)), Comparator::AtLeast, BV::Value(rg_tok("scopes", 2)));
    trigger.add_item(Some(rg_tok("key", 3)), Comparator::Equals(EqKind::Double), BV::Value(rg_tok("scopes", 3)));
    trigger.add_assignment(rg_tok("severity", 4), rg_tok("Dire", 4));
    trigger.add_definition(rg_tok("severity", 5), Block::new(rg_loc(5)));
    trigger.add_assignment(rg_tok("confidence", 6), rg_tok("Total", 6));
    trigger.add_definition(rg_tok("confidence", 7), Block::new(rg_loc(7)));
    trigger.add_assignment(rg_tok("key", 8), rg_tok("nonsense", 8));
    trigger.add_definition(rg_tok("key", 9), Block::new(rg_loc(9)));
    trigger.add_definition(rg_tok("file", 10), Block::new(rg_loc(10)));
    trigger.add_assignment(rg_tok("always", 11), rg_tok("maybe", 11));
    trigger.add_definition(rg_tok("always", 12), Block::new(rg_loc(12)));
    trigger.add_definition(rg_tok("NOT", 13), Block::new(rg_loc(13)));
    trigger.add_assignment(rg_tok("NOT", 14), rg_tok("x", 14));
    trigger.add_assignment(rg_tok("AND", 15), rg_tok("x", 15));
    trigger.add_assignment(rg_tok("XOR", 16), rg_tok("x", 16));
    let mut errors = Errors::new();
    let rules = load_rules(&trigger, &mut errors);
    assert!(rules.is_empty());
    assert_eq!(
        rg_msgs(&errors),
        vec![
            "Missing key. Loose values are not valid here.",
            "Unexpected operator `>=`, only `=` is valid here.",
            "Unexpected operator `==`, only `=` is valid here.",
            "Invalid Severity value. Valid values: [Tips, Untidy, Warning, Error, Fatal]",
            "`severity` can't open a block. Example usage: `severity >= Warning`",
            "Invalid Confidence value. Valid values: [Weak, Reasonable, Strong]",
            "`confidence` can't open a block. Example usage: `confidence >= Reasonable`",
            "Invalid key. In the output, keys are listed between parentheses on the first line of each report. For example, in `Warning(missing-item)`, the key is `missing-item`.",
            "`key` can't open a block. Example usage: `key = missing-item`",
            "`file` can't open a block. Example usage: `file = common/traits/00_traits.txt`",
            "`always` value not recognised. Valid values are `yes` and `no`.",
            "`always` can't open a block. Valid values are `yes` and `no`.",
            "This NOT block contains no valid triggers. It will be ignored.",
            "Expected a trigger block. Example usage: `AND = { }`",
            "Expected a trigger block. Example usage: `AND = { }`",
            "Unexpected key",
        ]
    );
    for r in errors.reports.iter() {
        assert_eq!(r.key, ErrorKey::Config);
    }
    assert_eq!(errors.get(0).pointers[0].location, rg_loc(1));
    assert_eq!(errors.get(12).pointers[0].location, rg_loc(13));
    let none: Option<Token> = None;
    assert!(load_rule(&none, Comparator::Equals(EqKind::Single), &BV::Value(rg_tok("x", 1)), &mut errors).is_none());
}

fn rg_array(values: &[&str], line: u32) -> Block {
    let mut b = Block::new(rg_loc(line));
    for v in values {
        b.add_value(rg_tok(v, line));
    }
    b
}

#[test]
fn ignore_keys_in_files() {
    let mut good = Block::new(rg_loc(1));
    good.add_definition(rg_tok("keys", 1), rg_array(&["missing-item", "scopes"], 1));
    good.add_definition(rg_tok("files", 2), rg_array(&["common/", "events/"], 2));
    let mut errors = Errors::new();
    let key = Some(rg_tok("ignore_keys_in_files", 1));
    let rule = load_rule(&key, Comparator::Equals(EqKind::Single), &BV::Block(good), &mut errors).unwrap();
    assert_eq!(errors.len(), 0);
    match rule {
        FilterRule::Negation(inner) => match *inner {
            FilterRule::Conjunction(v) => {
                assert_eq!(v.len(), 2);
                match &v[0] {
                    FilterRule::Disjunction(keys) => {
                        assert_eq!(keys.len(), 2);
                        assert_eq!(rg_key_rule(&keys[0]), ErrorKey::MissingItem);
                    }
                    _ => panic!("expected the keys"),
                }
                match &v[1] {
                    FilterRule::Disjunction(files) => {
                        assert_eq!(files.len(), 2);
                        assert!(matches!(&files[1], FilterRule::File(f) if f == "events/"));
                    }
                    _ => panic!("expected the files"),
                }
            }
            _ => panic!("expected a conjunction"),
        },
        _ => panic!("expected a negation"),
    }
}

#[test]
fn ignore_keys_in_files_errors() {
    let key = Some(rg_tok("ignore_keys_in_files", 1));
    let eq = Comparator::Equals(EqKind::Single);
    let mut errors = Errors::new();
    let load = |b: BV, errors: &mut Errors| load_rule(&key, eq, &b, errors).is_none();
    assert!(load(BV::Value(rg_tok("x", 1)), &mut errors));
    let mut b = Block::new(rg_loc(2));
    b.add_value(rg_tok("loose", 2));
    b.add_definition(rg_tok("keys", 3), rg_array(&["scopes"], 3));
    assert!(load(BV::Block(b), &mut errors));
    let mut b = Block::new(rg_loc(4));
    b.add_definition(rg_tok("other", 4), Block::new(rg_loc(4)));
    assert!(load(BV::Block(b), &mut errors));
    let mut b = Block::new(rg_loc(5));
    b.add_item(Some(rg_tok("keys", 5)), Comparator::LessThan, BV::Block(Block::new(rg_loc(5))));
    assert!(load(BV::Block(b), &mut errors));
    let mut b = Block::new(rg_loc(6));
    b.add_assignment(rg_tok("files", 6), rg_tok("x", 6));
    assert!(load(BV::Block(b), &mut errors));
    // No valid key, then no file.
    let mut b = Block::new(rg_loc(7));
    let mut keys = rg_array(&["nonsense"], 7);
    keys.add_assignment(rg_tok("key", 8), rg_tok("scopes", 8));
    keys.add_item(None, Comparator::Equals(EqKind::Single), BV::Block(Block::new(rg_loc(9))));
    b.add_definition(rg_tok("keys", 7), keys);
    b.add_definition(rg_tok("files", 10), rg_array(&["common/"], 10));
    assert!(load(BV::Block(b), &mut errors));
    let mut b = Block::new(rg_loc(11));
    b.add_definition(rg_tok("keys", 11), rg_array(&["scopes"], 11));
    let mut files = Block::new(rg_loc(12));
    files.add_assignment(rg_tok("file", 12), rg_tok("x", 12));
    files.add_item(None, Comparator::Equals(EqKind::Single), BV::Block(Block::new(rg_loc(13))));
    b.add_definition(rg_tok("files", 12), files);
    assert!(load(BV::Block(b), &mut errors));
    assert_eq!(
        rg_msgs(&errors),
        vec![
            "This trigger should open a block.",
            "Didn't expect a loose value here.",
            "This key isn't valid here.",
            "Expected `=` here.",
            "This should open a block.",
            "Invalid key. In the output, keys are listed between parentheses on the first line of each report. For example, in `Warning(missing-item)`, the key is `missing-item`.",
            "Expected a sequence of values here, no need to write `key = `",
            "Expected a sequence of values here, no blocks.",
            "There are no valid keys. This `ignore_keys_in_files` trigger will be ignored.",
            "Expected a sequence of values here, no need to write `file = `",
            "Expected a sequence of values here, no blocks.",
            "There are no valid files. This `ignore_keys_in_files` trigger will be ignored.",
        ]
    );
    assert_eq!(errors.get(1).info.as_deref(), Some("Usage: ignore_keys_in_files = { keys = {} files = {} }"));
    assert_eq!(errors.get(1).confidence, Confidence::Strong);
    assert_eq!(errors.get(6).info.as_deref(), Some("Example: keys = { history unknown-field field-missing }"));
    assert_eq!(errors.get(9).info.as_deref(), Some("Example: files = { common/ history/ }"));
    assert_eq!(errors.get(8).pointers[0].location, rg_loc(7));
}

#[test]
fn filter_is_loaded_into_the_settings() {
    let mut settings = FilterSettings::new();
    assert!(!settings.show_vanilla);
    assert!(matches!(settings.predicate, FilterRule::Tautology));
    let mut errors = Errors::new();
    // Without a filter the settings stay.
    settings.show_vanilla = true;
    load_filter(&Block::new(rg_loc(0)), &mut settings, &mut errors);
    assert!(settings.show_vanilla);
    let mut filter = Block::new(rg_loc(1));
    filter.add_assignment(rg_tok("show_loaded_mods", 1), rg_tok("yes", 1));
    filter.add_definition(rg_tok("trigger", 2), rg_pair("always", "no", 2));
    filter.add_definition(rg_tok("trigger", 3), rg_pair("key", "scopes", 3));
    let mut config = Block::new(rg_loc(0));
    config.add_definition(rg_tok("filter", 1), filter);
    load_filter(&config, &mut settings, &mut errors);
    assert!(!settings.show_vanilla);
    assert!(settings.show_loaded_mods);
    // Of two triggers the last is read, and that there are two is reported.
    match &settings.predicate {
        FilterRule::Conjunction(v) => {
            assert_eq!(v.len(), 1);
            assert_eq!(rg_key_rule(&v[0]), ErrorKey::Scopes);
        }
        _ => panic!("expected a conjunction"),
    }
    assert_eq!(rg_msgs(&errors), vec!["Detected more than one `trigger`: there can be only one here!"]);
    let mut config = Block::new(rg_loc(0));
    config.add_definition(rg_tok("filter", 1), rg_pair("show_vanilla", "yes", 1));
    load_filter(&config, &mut settings, &mut errors);
    assert!(settings.show_vanilla);
    assert!(!settings.show_loaded_mods);
    assert!(matches!(settings.predicate, FilterRule::Tautology));
}

#[test]
fn names_of_keys_and_levels() {
    assert_eq!(ErrorKey::parse("missing-item"), Some(ErrorKey::MissingItem));
    assert_eq!(ErrorKey::parse("unknown-field"), Some(ErrorKey::UnknownField));
    assert_eq!(ErrorKey::parse("field-missing"), Some(ErrorKey::FieldMissing));
    assert_eq!(ErrorKey::parse("duplicate-item"), Some(ErrorKey::Duplicate));
    assert_eq!(ErrorKey::parse("unneeded"), Some(ErrorKey::Unneeded));
    assert_eq!(ErrorKey::parse("Missing-Item"), None);
    assert_eq!(Severity::parse("Warning"), Some(Severity::Warning));
    assert_eq!(Severity::parse("Fatal"), Some(Severity::Fatal));
    assert_eq!(Severity::parse("warning"), None);
    assert_eq!(Confidence::parse("Reasonable"), Some(Confidence::Reasonable));
    assert_eq!(Confidence::parse("Sure"), None);
    assert_eq!(Comparator::AtLeast.symbol(), ">=");
    assert_eq!(Comparator::Equals(EqKind::Question).symbol(), "?=");
    assert!(Comparator::Equals(EqKind::Double).is_equals());
    assert!(!Comparator::Equals(EqKind::Double).is_single_equals());
    assert!(!Comparator::NotEquals.is_equals());
}

#[test]
fn blocks_answer_for_their_fields() {
    let mut b = Block::new(rg_loc(0));
    b.add_assignment(rg_tok("name", 1), rg_tok("first", 1));
    b.add_definition(rg_tok("name", 2), rg_pair("a", "b", 2));
    b.add_assignment(rg_tok("name", 3), rg_tok("last", 3));
    b.add_assignment(rg_tok("flag", 4), rg_tok("yes", 4));
    b.add_assignment(rg_tok("flag2", 5), rg_tok("no", 5));
    b.add_assignment(rg_tok("flag3", 6), rg_tok("si", 6));
    b.add_definition(rg_tok("only_block", 7), Block::new(rg_loc(7)));
    // The last item of a name is the one that a block answers with.
    assert_eq!(b.get_field_value("name").unwrap().as_str(), "last");
    assert!(b.get_field_block("name").is_none());
    assert!(b.get_field("name").unwrap().get_value().is_some());
    assert_eq!(b.get_field_bool("flag"), Some(true));
    assert_eq!(b.get_field_bool("flag2"), Some(false));
    assert_eq!(b.get_field_bool("flag3"), None);
    assert_eq!(b.get_field_bool("absent"), None);
    assert!(b.get_field_block("only_block").is_some());
    assert!(b.get_field_value("only_block").is_none());
    assert!(b.has_key("flag"));
    assert!(!b.has_key("absent"));
    let values: Vec<&str> = b.get_field_values("name").iter().map(|t| t.as_str()).collect();
    assert_eq!(values, vec!["first", "last"]);
    assert_eq!(b.get_field_blocks("name").len(), 1);
    assert_eq!(b.len(), 7);
    let copy = b.duplicate();
    assert_eq!(copy.len(), 7);
    assert_eq!(copy.get_field_value("name").unwrap().loc, rg_loc(3));
    assert!(copy.get_field("only_block").unwrap().is_block());
    assert_eq!(copy.get_field("only_block").unwrap().loc(), rg_loc(7));
    assert!(copy.get_field("name").unwrap().get_block().is_none());
}

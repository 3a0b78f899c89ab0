use modcheck::block::Block;
use modcheck::datafunctions::Datatables;
use modcheck::datatype::Code;
use modcheck::datatype::CodeChain;
use modcheck::db::Db;
use modcheck::everything::Everything;
use modcheck::fileset::FileEntry;
use modcheck::fileset::FileHandler;
use modcheck::item::Item;
use modcheck::localization::get_file_lang;
use modcheck::localization::is_builtin_macro;
use modcheck::localization::language_index;
use modcheck::localization::language_name;
use modcheck::localization::LocaEntry;
use modcheck::localization::LocaTable;
use modcheck::localization::LocaValue;
use modcheck::localization::Localization;
use modcheck::localization::MacroValue;
use modcheck::localization::MACRO_CEILING;
use modcheck::report::ErrorKey;
use modcheck::report::Errors;
use modcheck::report::Severity;
use modcheck::tables::ScriptTables;
use modcheck::token::FileKind;
use modcheck::token::Loc;
use modcheck::token::Token;

fn lo_loc(kind: FileKind, line: u32) -> Loc {
    Loc { file: 4, kind, line, column: 1 }
}

fn lo_tok(s: &str, line: u32) -> Token {
    Token::new(s, lo_loc(FileKind::Mod, line))
}

fn lo_text(key: &str, text: &str, line: u32) -> LocaEntry {
    LocaEntry::new(lo_tok(key, line), LocaValue::Text(lo_tok(text, line)), Some(lo_tok(text, line)))
}

fn lo_macro(key: &str, parts: Vec<MacroValue>, line: u32) -> LocaEntry {
    LocaEntry::new(lo_tok(key, line), LocaValue::Macro(parts), Some(lo_tok("raw", line)))
}

fn lo_path(parts: &[&str]) -> Vec<String> {
    parts.iter().map(|s| s.to_string()).collect()
}

fn lo_entry(parts: &[&str], kind: FileKind) -> FileEntry {
    FileEntry::new(lo_path(parts), kind)
}

#[test]
fn new_entry_holds_what_it_was_given() {
    let e = LocaEntry::new(lo_tok("k", 1), LocaValue::Error, None);
    assert_eq!(e.key.as_str(), "k");
    assert!(matches!(e.value, LocaValue::Error));
    assert!(e.orig.is_none());
}

#[test]
fn macros_expand_through_entries() {
    let mut table = LocaTable::new();
    table.insert(lo_text("NAME", "Ada", 1));
    table.insert(lo_macro(
        "GREETING",
        vec![
            MacroValue::Text(lo_tok("Hello ", 2)),
            MacroValue::Keyword(lo_tok("NAME", 2), None),
        ],
        2,
    ));
    table.insert(lo_macro(
        "LETTER",
        vec![
            MacroValue::Keyword(lo_tok("GREETING", 3), None),
            MacroValue::Text(lo_tok("!", 3)),
        ],
        3,
    ));
    let letter = table.get("LETTER").unwrap();
    let mut out = Vec::new();
    let mut count = 0;
    assert!(letter.expand_macros(&mut out, &table, &mut count));
    let texts: Vec<&str> = out.iter().map(|t| t.as_str()).collect();
    assert_eq!(texts, vec!["Hello ", "Ada", "!"]);
    // One step for each entry that was entered.
    assert_eq!(count, 3);
    let line = letter.expanded(&table).unwrap();
    assert_eq!(line.len(), 3);
}

#[test]
fn self_reference_is_given_up_at_the_ceiling() {
    let mut table = LocaTable::new();
    table.insert(lo_macro(
        "LOOP",
        vec![MacroValue::Text(lo_tok("x", 1)), MacroValue::Keyword(lo_tok("LOOP", 1), None)],
        1,
    ));
    let e = table.get("LOOP").unwrap();
    let mut out = Vec::new();
    let mut count = 0;
    assert!(!e.expand_macros(&mut out, &table, &mut count));
    assert_eq!(count, MACRO_CEILING + 1);
    assert_eq!(out.len(), MACRO_CEILING + 1);
    assert!(e.expanded(&table).is_none());
}

#[test]
fn cycle_of_two_entries_is_given_up() {
    let mut table = LocaTable::new();
    table.insert(lo_macro("A", vec![MacroValue::Keyword(lo_tok("B", 1), None)], 1));
    table.insert(lo_macro("B", vec![MacroValue::Keyword(lo_tok("A", 2), None)], 2));
    assert!(table.get("A").unwrap().expanded(&table).is_none());
    assert!(table.get("B").unwrap().expanded(&table).is_none());
}

#[test]
fn expansion_at_the_ceiling() {
    let mut table = LocaTable::new();
    table.insert(lo_text("NAME", "Ada", 1));
    let e = table.get("NAME").unwrap();
    let mut out = Vec::new();
    let mut count = MACRO_CEILING;
    assert!(e.expand_macros(&mut out, &table, &mut count));
    assert_eq!(count, MACRO_CEILING + 1);
    assert!(!e.expand_macros(&mut out, &table, &mut count));
    assert_eq!(count, MACRO_CEILING + 1);
    assert_eq!(out.len(), 1);
}

#[test]
fn expansion_fails_on_a_missing_entry_or_a_missing_text() {
    let mut table = LocaTable::new();
    table.insert(lo_macro("A", vec![MacroValue::Keyword(lo_tok("GONE", 1), None)], 1));
    table.insert(LocaEntry::new(lo_tok("BARE", 2), LocaValue::Error, None));
    table.insert(lo_macro("B", vec![MacroValue::Keyword(lo_tok("BARE", 3), None)], 3));
    assert!(table.get("A").unwrap().expanded(&table).is_none());
    assert!(table.get("B").unwrap().expanded(&table).is_none());
    assert!(table.get("BARE").unwrap().expanded(&table).is_none());
}

#[test]
fn table_finds_the_entry_added_last() {
    let mut table = LocaTable::new();
    assert!(!table.contains_key("k"));
    table.insert(lo_text("k", "first", 1));
    table.insert(lo_text("k", "second", 2));
    assert!(table.contains_key("k"));
    assert_eq!(table.get("k").unwrap().orig.as_ref().unwrap().as_str(), "second");
    assert!(table.get("K").is_none());
}

#[test]
fn languages() {
    assert_eq!(language_name(0), "english");
    assert_eq!(language_name(6), "simp_chinese");
    assert_eq!(language_index("german"), Some(3));
    assert_eq!(language_index("latin"), None);
    assert_eq!(get_file_lang("events_l_english.yml"), Some(0));
    assert_eq!(get_file_lang("l_korean.yml"), Some(5));
    assert_eq!(get_file_lang("events_l_english.yaml"), None);
    assert_eq!(get_file_lang("english.yml"), None);
}

#[test]
fn builtin_macros() {
    assert!(is_builtin_macro("ACTION"));
    assert!(is_builtin_macro("WINLOSE"));
    assert!(!is_builtin_macro("action"));
    assert!(!is_builtin_macro("SOMETHING_ELSE"));
}

#[test]
fn key_is_known_if_every_checked_language_has_it() {
    let mut loca = Localization::new();
    assert_eq!(loca.check_langs, vec![0, 1, 2, 3, 4, 5, 6]);
    loca.check_langs = vec![0, 2];
    let mut errors = Errors::new();
    loca.insert_entries(0, FileKind::Mod, vec![lo_text("both", "a", 1), lo_text("one", "b", 2)], &mut errors);
    loca.insert_entries(2, FileKind::Mod, vec![lo_text("both", "c", 1)], &mut errors);
    assert!(loca.is_known("both"));
    assert!(!loca.is_known("one"));
    assert!(!loca.is_known("none"));
    assert_eq!(errors.len(), 0);
}

#[test]
fn missing_localization_is_reported_for_each_language_of_the_mod() {
    let mut loca = Localization::new();
    loca.mod_langs = vec![0, 2];
    let mut errors = Errors::new();
    loca.insert_entries(0, FileKind::Mod, vec![lo_text("here", "a", 1)], &mut errors);
    loca.verify_exists(&lo_tok("here", 9), &mut errors);
    assert_eq!(errors.len(), 1);
    assert_eq!(errors.get(0).key, ErrorKey::MissingLocalization);
    assert_eq!(errors.get(0).msg, "missing french localization key here");
    assert_eq!(errors.get(0).pointers[0].location, lo_loc(FileKind::Mod, 9));
    loca.verify_exists_implied("gone", &lo_tok("other", 10), &mut errors);
    assert_eq!(errors.len(), 3);
    assert_eq!(errors.get(1).msg, "missing english localization key gone");
    assert_eq!(errors.get(2).msg, "missing french localization key gone");
    // An empty key needs no text.
    loca.verify_exists_implied("", &lo_tok("other", 10), &mut errors);
    assert_eq!(errors.len(), 3);
}

#[test]
fn duplicate_entry_of_one_layer_with_another_text() {
    let mut loca = Localization::new();
    let mut errors = Errors::new();
    loca.insert_entries(0, FileKind::Mod, vec![lo_text("k", "a", 1), lo_text("k", "a", 2)], &mut errors);
    assert_eq!(errors.len(), 0);
    loca.insert_entries(0, FileKind::Mod, vec![lo_text("k", "b", 3)], &mut errors);
    assert_eq!(errors.len(), 1);
    assert_eq!(errors.get(0).key, ErrorKey::Duplicate);
    assert_eq!(errors.get(0).pointers.len(), 2);
    assert_eq!(errors.get(0).pointers[0].location, lo_loc(FileKind::Mod, 3));
    assert_eq!(errors.get(0).pointers[1].location, lo_loc(FileKind::Mod, 2));
    // Another layer may say something else.
    loca.insert_entries(0, FileKind::Vanilla, vec![lo_text("k", "c", 4)], &mut errors);
    assert_eq!(errors.len(), 1);
    assert_eq!(loca.locas[0].entries.len(), 4);
}

#[test]
fn classify_looks_at_the_path() {
    let mut loca = Localization::new();
    let mut errors = Errors::new();
    // A good file of the mod.
    let e = lo_entry(&["localization", "english", "a_l_english.yml"], FileKind::Mod);
    assert_eq!(loca.classify(&e, 3, &mut errors), Some(0));
    assert_eq!(errors.len(), 0);
    assert_eq!(loca.mod_langs, vec![0]);
    // Not in a directory of a language.
    let e = lo_entry(&["localization", "a_l_english.yml"], FileKind::Vanilla);
    assert_eq!(loca.classify(&e, 4, &mut errors), Some(0));
    assert_eq!(errors.len(), 1);
    assert_eq!(errors.get(0).msg, "file in wrong location");
    assert_eq!(errors.get(0).severity, Severity::Untidy);
    assert_eq!(errors.get(0).key, ErrorKey::Filename);
    assert_eq!(errors.get(0).pointers[0].location, Loc { file: 4, kind: FileKind::Vanilla, line: 0, column: 0 });
    // In the directory of another language.
    let e = lo_entry(&["localization", "french", "a_l_english.yml"], FileKind::Vanilla);
    assert_eq!(loca.classify(&e, 5, &mut errors), Some(0));
    assert_eq!(errors.len(), 2);
    assert_eq!(errors.get(1).msg, "localization file with wrong name or in wrong directory");
    // A name that says no language.
    let e = lo_entry(&["localization", "french", "a.yml"], FileKind::Vanilla);
    assert_eq!(loca.classify(&e, 6, &mut errors), None);
    assert_eq!(errors.len(), 3);
    assert_eq!(errors.get(2).msg, "could not determine language from filename");
    assert_eq!(errors.get(2).severity, Severity::Error);
    // Notes on the side are passed over.
    let e = lo_entry(&["localization", "french", "readme.info"], FileKind::Vanilla);
    assert_eq!(loca.classify(&e, 7, &mut errors), None);
    assert_eq!(errors.len(), 3);
    assert_eq!(loca.mod_langs, vec![0]);
}

#[test]
fn classify_unknown_directory_and_unchecked_language() {
    let mut loca = Localization::new();
    loca.check_langs = vec![0];
    let mut errors = Errors::new();
    // The first file of an unknown directory is only noted, the second is reported.
    let e = lo_entry(&["localization", "klingon", "a_l_english.yml"], FileKind::Mod);
    assert_eq!(loca.classify(&e, 1, &mut errors), Some(0));
    assert_eq!(errors.len(), 0);
    assert_eq!(loca.warned_dirs, vec!["klingon".to_string()]);
    assert_eq!(loca.classify(&e, 2, &mut errors), Some(0));
    assert_eq!(errors.len(), 1);
    assert_eq!(errors.get(0).msg, "unknown subdirectory in localization");
    assert_eq!(errors.get(0).severity, Severity::Warning);
    assert!(loca.mod_langs.is_empty());
    // A language that is not checked is not loaded.
    let e = lo_entry(&["localization", "french", "a_l_french.yml"], FileKind::Mod);
    assert_eq!(loca.classify(&e, 3, &mut errors), None);
    let e = lo_entry(&["localization", "english", "a_l_french.yml"], FileKind::Mod);
    assert_eq!(loca.classify(&e, 4, &mut errors), None);
    assert_eq!(errors.len(), 1);
    assert_eq!(loca.mod_langs, vec![0]);
}

#[test]
fn handle_file_adds_the_entries() {
    let mut loca = Localization::new();
    let mut errors = Errors::new();
    let e = lo_entry(&["localization", "german", "a_l_german.yml"], FileKind::Mod);
    loca.handle_file(&e, 1, vec![lo_text("k", "v", 1)], &mut errors);
    assert!(loca.locas[3].contains_key("k"));
    assert_eq!(loca.mod_langs, vec![3]);
    // A file that does not lie in a directory is passed over.
    let e = lo_entry(&["a_l_german.yml"], FileKind::Mod);
    loca.handle_file(&e, 2, vec![lo_text("other", "v", 1)], &mut errors);
    assert!(!loca.locas[3].contains_key("other"));
    assert_eq!(errors.len(), 0);
    assert_eq!(loca.subpath(), vec!["localization".to_string()]);
}

#[test]
fn config_chooses_the_languages() {
    let mut loca = Localization::new();
    let mut errors = Errors::new();
    let mut langs = Block::new(lo_loc(FileKind::Mod, 1));
    langs.add_assignment(lo_tok("check", 1), lo_tok("german", 1));
    langs.add_assignment(lo_tok("check", 2), lo_tok("english", 2));
    langs.add_assignment(lo_tok("skip", 3), lo_tok("english", 3));
    let mut config = Block::new(lo_loc(FileKind::Mod, 0));
    config.add_definition(lo_tok("languages", 1), langs);
    loca.config(&config, &mut errors);
    assert_eq!(loca.check_langs, vec![0, 3]);

    let mut langs = Block::new(lo_loc(FileKind::Mod, 1));
    langs.add_assignment(lo_tok("skip", 3), lo_tok("english", 3));
    langs.add_assignment(lo_tok("skip", 4), lo_tok("korean", 4));
    let mut config = Block::new(lo_loc(FileKind::Mod, 0));
    config.add_definition(lo_tok("languages", 1), langs);
    loca.config(&config, &mut errors);
    assert_eq!(loca.check_langs, vec![1, 2, 3, 4, 6]);

    // Without the block nothing changes.
    loca.config(&Block::new(lo_loc(FileKind::Mod, 0)), &mut errors);
    assert_eq!(loca.check_langs, vec![1, 2, 3, 4, 6]);
    assert_eq!(errors.len(), 0);
}

#[test]
fn placeholders_must_name_an_entry_or_a_macro_of_the_game() {
    let mut loca = Localization::new();
    let mut errors = Errors::new();
    let vanilla_use = LocaEntry::new(
        Token::new("base", lo_loc(FileKind::Vanilla, 1)),
        LocaValue::Macro(vec![
            MacroValue::Keyword(lo_tok("GAME_MACRO_2", 1), None),
            MacroValue::Keyword(lo_tok("lower_case", 1), None),
        ]),
        None,
    );
    let mod_use = lo_macro(
        "mine",
        vec![
            MacroValue::Keyword(lo_tok("GAME_MACRO_2", 2), None),
            MacroValue::Keyword(lo_tok("ACTION", 2), None),
            MacroValue::Keyword(lo_tok("base", 2), None),
            MacroValue::Keyword(lo_tok("MOD_MACRO", 2), None),
            MacroValue::Text(lo_tok("text", 2)),
        ],
        2,
    );
    loca.insert_entries(0, FileKind::Vanilla, vec![vanilla_use], &mut errors);
    loca.insert_entries(0, FileKind::Mod, vec![mod_use], &mut errors);
    loca.check_macros(&mut errors);
    let msgs: Vec<&str> = errors.reports.iter().map(|r| r.msg.as_str()).collect();
    assert_eq!(
        msgs,
        vec![
            "The substitution parameter $lower_case$ is not defined anywhere as a key.",
            "The substitution parameter $MOD_MACRO$ is not defined anywhere as a key.",
        ]
    );
    assert_eq!(errors.get(0).key, ErrorKey::Localization);
    let before = errors.len();
    loca.finalize(&mut errors);
    assert_eq!(errors.len(), before + 2);
}

#[test]
fn expanded_entry_is_replaced() {
    let mut loca = Localization::new();
    let mut errors = Errors::new();
    loca.insert_entries(
        0,
        FileKind::Mod,
        vec![
            lo_text("NAME", "Ada", 1),
            lo_macro("HI", vec![MacroValue::Keyword(lo_tok("NAME", 2), None)], 2),
        ],
        &mut errors,
    );
    assert!(loca.expand_entry_at(0, 0).is_none());
    let line = loca.expand_entry_at(0, 1).unwrap();
    assert_eq!(line.len(), 1);
    assert_eq!(line[0].as_str(), "Ada");
    loca.replace_value(0, 1, vec![LocaValue::Text(lo_tok("Ada", 2))]);
    assert!(matches!(loca.locas[0].entries[1].value, LocaValue::Text(_)));
    loca.replace_value(0, 1, vec![LocaValue::Text(lo_tok("A", 2)), LocaValue::Text(lo_tok("da", 2))]);
    match &loca.locas[0].entries[1].value {
        LocaValue::Concat(v) => assert_eq!(v.len(), 2),
        _ => panic!("expected a concatenation"),
    }
    loca.replace_value(0, 1, Vec::new());
    match &loca.locas[0].entries[1].value {
        LocaValue::Concat(v) => assert!(v.is_empty()),
        _ => panic!("expected a concatenation"),
    }
    assert_eq!(loca.locas[0].entries[1].key.as_str(), "HI");
}

#[test]
fn expansions_come_from_the_table_as_it_is() {
    let mut loca = Localization::new();
    let mut errors = Errors::new();
    loca.insert_entries(
        0,
        FileKind::Mod,
        vec![
            lo_macro("A", vec![MacroValue::Keyword(lo_tok("B", 1), None), MacroValue::Text(lo_tok("!", 1))], 1),
            lo_macro("B", vec![MacroValue::Text(lo_tok("b", 2))], 2),
            lo_macro("LOOP", vec![MacroValue::Keyword(lo_tok("LOOP", 3), None)], 3),
            lo_macro("X", vec![MacroValue::Keyword(lo_tok("Y", 4), None)], 4),
            lo_macro("Y", vec![MacroValue::Keyword(lo_tok("X", 5), None)], 5),
            lo_text("PLAIN", "p", 6),
            lo_macro("OLD", vec![MacroValue::Text(lo_tok("old", 7))], 7),
            lo_macro("OLD", vec![MacroValue::Text(lo_tok("new", 8))], 8),
        ],
        &mut errors,
    );
    loca.insert_entries(2, FileKind::Mod, vec![lo_macro("F", vec![MacroValue::Text(lo_tok("f", 9))], 9)], &mut errors);
    let got: Vec<(usize, usize, Vec<String>)> = loca
        .expansions()
        .into_iter()
        .map(|(l, i, tokens)| (l, i, tokens.iter().map(|t| t.as_str().to_string()).collect()))
        .collect();
    assert_eq!(
        got,
        vec![
            (0, 0, vec!["b".to_string(), "!".to_string()]),
            (0, 1, vec!["b".to_string()]),
            (0, 7, vec!["new".to_string()]),
            (2, 0, vec!["f".to_string()]),
        ]
    );
    // Entries on a cycle stay as they are.
    assert!(matches!(loca.locas[0].entries[2].value, LocaValue::Macro(_)));
    assert!(loca.locas[0].is_current_at(7));
    assert!(!loca.locas[0].is_current_at(6));
}

#[test]
fn a_localized_text_that_was_replaced_is_not_checked() {
    let mut loca = Localization::new();
    let mut errors = Errors::new();
    loca.insert_entries(
        0,
        FileKind::Vanilla,
        vec![
            lo_macro("K", vec![MacroValue::Keyword(lo_tok("GONE", 1), None)], 1),
            lo_text("K", "plain", 2),
        ],
        &mut errors,
    );
    let mut errors = Errors::new();
    loca.check_macros(&mut errors);
    assert_eq!(errors.len(), 0);
}

#[test]
fn code_in_localized_text_is_checked() {
    let mut data = Everything::new(
        Vec::new(),
        Vec::new(),
        Vec::new(),
        Block::new(lo_loc(FileKind::Mod, 0)),
        ScriptTables::new(),
        Datatables::new(),
    );
    let mut errors = Errors::new();
    data.db.add(Item::GameConcept, lo_tok("vassal", 1), Block::new(lo_loc(FileKind::Mod, 1)), &mut errors);
    data.localization.mod_langs = vec![0];
    let concept = |name: &str, line: u32| {
        LocaValue::Code(
            CodeChain { codes: vec![Code { name: lo_tok(name, line), arguments: Vec::new() }] },
            Some(lo_tok("E", line)),
        )
    };
    let value = LocaValue::Concat(vec![
        concept("vassal", 1),
        concept("serf", 2),
        LocaValue::Code(CodeChain { codes: Vec::new() }, Some(lo_tok("E", 3))),
        LocaValue::Code(
            CodeChain { codes: vec![Code { name: lo_tok("Nobody", 4), arguments: Vec::new() }] },
            None,
        ),
        LocaValue::Tooltip(lo_tok("tip_key", 5)),
        LocaValue::Text(lo_tok("plain", 6)),
    ]);
    Localization::check_loca_code(&value, &data, &mut errors);
    let msgs: Vec<&str> = errors.reports.iter().map(|r| r.msg.as_str()).collect();
    assert_eq!(
        msgs,
        vec![
            "game concept not defined: serf",
            "cannot figure out game concept for this |E",
            "unknown datafunction",
            "missing english localization key tip_key",
        ]
    );
    data.localization.insert_entries(
        0,
        FileKind::Mod,
        vec![LocaEntry::new(lo_tok("k", 9), concept("serf", 9), None)],
        &mut errors,
    );
    let mut errors = Errors::new();
    data.localization.validate(&data, &mut errors);
    assert_eq!(errors.len(), 1);
    assert_eq!(errors.get(0).key, ErrorKey::MissingItem);
    let _ = Db::new();
}

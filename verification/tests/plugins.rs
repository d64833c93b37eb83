use std::path::PathBuf;
use vim_plugin_metadata::plugin::{find_section, select_section, PluginModules};
use vim_plugin_metadata::{
    Error, PluginEntry, VimModule, VimNode, VimParser, VimPlugin, WalkStep,
};

fn named(name: &str) -> VimModule {
    VimModule { path: Some(PathBuf::from(name)), doc: None, nodes: vec![] }
}

fn entry(path: &str, is_file: bool, contents: Result<String, std::io::Error>) -> WalkStep {
    let parts: Vec<&str> = path.split('/').collect();
    WalkStep::Entry(PluginEntry {
        is_file,
        file_name: parts[parts.len() - 1].to_string(),
        section_name: Some(parts[0].to_string()),
        path: PathBuf::from(path),
        contents,
    })
}

fn script_at(path: &str, code: &str) -> WalkStep {
    entry(path, true, Ok(code.to_string()))
}

fn unreadable() -> std::io::Error {
    std::io::Error::new(std::io::ErrorKind::PermissionDenied, "no entry")
}

fn failed_walk() -> WalkStep {
    let first = walkdir::WalkDir::new("a-directory-that-is-not-there").into_iter().next();
    match first {
        Some(Err(e)) => WalkStep::Failed(e),
        _ => panic!("the directory should not be there"),
    }
}

fn paths(plugin: &VimPlugin) -> Vec<String> {
    let path = |m: &VimModule| m.path.as_ref().unwrap().to_string_lossy().to_string();
    plugin.content.iter().map(path).collect()
}

#[test]
fn sections_have_their_places() {
    let names = [
        "plugin", "instant", "autoload", "syntax", "indent", "ftdetect", "ftplugin", "spell",
        "colors",
    ];
    for (i, name) in names.iter().enumerate() {
        assert_eq!(find_section(&name.to_string()), Some(i));
    }
    assert_eq!(find_section(&"after".to_string()), None);
    assert_eq!(find_section(&"plugins".to_string()), None);
    assert_eq!(find_section(&"".to_string()), None);
}

#[test]
fn scripts_in_sections_are_selected() {
    let name = |s: &str| s.to_string();
    let section = |s: &str| Some(s.to_string());
    assert_eq!(select_section(true, &name("x.vim"), &section("plugin")), Some(0));
    assert_eq!(select_section(true, &name(".vim"), &section("colors")), Some(8));
    assert_eq!(select_section(true, &name("x.vim"), &section("x.vim")), None);
    assert_eq!(select_section(true, &name("x.txt"), &section("plugin")), None);
    assert_eq!(select_section(false, &name("x.vim"), &section("plugin")), None);
    assert_eq!(select_section(false, &name("root.vim"), &None), None);
}

#[test]
fn modules_are_listed_section_by_section() {
    let mut modules = PluginModules::new();
    modules.insert(8, named("c1"));
    modules.insert(2, named("a1"));
    modules.insert(0, named("p1"));
    modules.insert(2, named("a2"));
    modules.insert(8, named("c1"));
    let plugin = modules.into_plugin();
    assert_eq!(paths(&plugin), vec!["p1", "a1", "a2", "c1", "c1"]);
    assert_eq!(PluginModules::new().into_plugin().content, vec![]);
}

#[test]
fn plugin_lists_selected_files_and_nothing_else() {
    let mut parser = VimParser::new().unwrap();
    let steps = vec![
        entry("autoload", false, Err(unreadable())),
        script_at("autoload/z.vim", "let g:z = 1"),
        script_at("autoload/a/b.vim", "\"\" Doc."),
        script_at("README.md", "let g:r = 1"),
        script_at("after/plugin/x.vim", "let g:x = 1"),
        entry("plugin/dir.vim", false, Err(unreadable())),
        entry("plugin/notes.txt", true, Err(unreadable())),
        script_at("plugin/x.vim", ""),
    ];
    let plugin = parser.parse_plugin_dir(steps).unwrap();
    assert_eq!(
        plugin.content,
        vec![
            named("plugin/x.vim"),
            VimModule {
                path: Some(PathBuf::from("autoload/z.vim")),
                doc: None,
                nodes: vec![VimNode::Variable {
                    name: "g:z".to_string(),
                    init_value_token: "1".to_string(),
                    doc: None,
                }],
            },
            VimModule {
                path: Some(PathBuf::from("autoload/a/b.vim")),
                doc: Some("Doc.".to_string()),
                nodes: vec![],
            },
        ]
    );
}

#[test]
fn plugin_fails_at_the_first_unreadable_script() {
    let mut parser = VimParser::new().unwrap();
    let steps = vec![
        script_at("plugin/a.vim", ""),
        entry("plugin/b.vim", true, Err(unreadable())),
        failed_walk(),
    ];
    match parser.parse_plugin_dir(steps) {
        Err(Error::IoError(e)) => assert_eq!(e.kind(), std::io::ErrorKind::PermissionDenied),
        _ => panic!("reading should fail"),
    }
}

#[test]
fn plugin_fails_at_a_failed_walk() {
    let mut parser = VimParser::new().unwrap();
    let steps = vec![failed_walk(), entry("plugin/b.vim", true, Err(unreadable()))];
    match parser.parse_plugin_dir(steps) {
        Err(Error::WalkError(e)) => assert_eq!(e.depth(), 0),
        _ => panic!("the walk should fail"),
    }
}

#[test]
fn parser_without_a_grammar_parses_nothing() {
    let mut parser = VimParser::default();
    assert!(matches!(parser.parse_module_str("let g:a = 1"), Err(Error::ParsingFailure)));
    assert!(matches!(
        parser.parse_module_file(PathBuf::from("a.vim"), Ok("".to_string())),
        Err(Error::ParsingFailure)
    ));
    assert!(matches!(
        parser.parse_plugin_dir(vec![script_at("plugin/a.vim", "")]),
        Err(Error::ParsingFailure)
    ));
    assert_eq!(parser.parse_plugin_dir(vec![]).unwrap().content, vec![]);
}

#[test]
fn module_file_has_its_path() {
    let mut parser = VimParser::new().unwrap();
    let code = "\"\" Doc.\n\nlet g:a = 'x'\n";
    let from_file =
        parser.parse_module_file(PathBuf::from("some/a.vim"), Ok(code.to_string())).unwrap();
    let from_text = parser.parse_module_str(code).unwrap();
    assert_eq!(from_text.path, None);
    assert_eq!(from_text.doc, Some("Doc.".to_string()));
    assert_eq!(from_file, VimModule { path: Some(PathBuf::from("some/a.vim")), ..from_text });
}

#[test]
fn module_file_that_cannot_be_read() {
    let mut parser = VimParser::new().unwrap();
    match parser.parse_module_file(PathBuf::from("a.vim"), Err(unreadable())) {
        Err(Error::IoError(e)) => assert_eq!(e.kind(), std::io::ErrorKind::PermissionDenied),
        _ => panic!("reading should fail"),
    }
}

#[test]
fn parser_can_be_used_again() {
    let mut parser = VimParser::new().unwrap();
    let first = parser.parse_module_str("let g:a = 1").unwrap();
    parser.parse_module_str("func! Broken(").unwrap();
    assert_eq!(parser.parse_module_str("let g:a = 1").unwrap(), first);
    assert_eq!(first.nodes.len(), 1);
}

#[test]
fn documented_statements_of_each_kind() {
    let code = r#"
"" Prüfung.

"" Ä function.
function! s:Func(a, ...) abort
endfunction

"" A command.
command! -nargs=1 SomeCommand call s:Func(<q-args>)

"" Some variables.
let [s:a, s:b] = F()

"" A flag.
call s:plugin.Flag("a\"flag", [1, 2])
"#;
    let doc = |s: &str| Some(s.to_string());
    let name = |s: &str| s.to_string();
    let mut parser = VimParser::new().unwrap();
    assert_eq!(
        parser.parse_module_str(code).unwrap(),
        VimModule {
            path: None,
            doc: doc("Prüfung."),
            nodes: vec![
                VimNode::Function {
                    name: name("s:Func"),
                    args: vec![name("a"), name("...")],
                    modifiers: vec![name("!"), name("abort")],
                    doc: doc("Ä function."),
                },
                VimNode::Command {
                    name: name("SomeCommand"),
                    modifiers: vec![name("!"), name("-nargs=1")],
                    doc: doc("A command."),
                },
                VimNode::Variable {
                    name: name("s:a"),
                    init_value_token: name("F()[0]"),
                    doc: doc("Some variables."),
                },
                VimNode::Variable {
                    name: name("s:b"),
                    init_value_token: name("F()[1]"),
                    doc: doc("Some variables."),
                },
                VimNode::Flag {
                    name: name("a\"flag"),
                    default_value_token: doc("[1, 2]"),
                    doc: doc("A flag."),
                },
            ],
        }
    );
}

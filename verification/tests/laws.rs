use std::path::PathBuf;
use vim_plugin_metadata::{PluginEntry, VimModule, VimParser, WalkStep};

const CODE: &str = "\"\" Module.\n\n\"\" Doc.\nfunction F(a) abort\nendfunction\n\"\" Dangling.\n";

fn step(path: &str, contents: Result<String, std::io::Error>) -> WalkStep {
    let parts: Vec<&str> = path.split('/').collect();
    WalkStep::Entry(PluginEntry {
        is_file: true,
        file_name: parts[parts.len() - 1].to_string(),
        section_name: Some(parts[0].to_string()),
        path: PathBuf::from(path),
        contents,
    })
}

fn script(path: &str, code: &str) -> WalkStep {
    step(path, Ok(code.to_string()))
}

fn unreadable() -> std::io::Error {
    std::io::Error::new(std::io::ErrorKind::InvalidData, "not text")
}

#[test]
fn same_code_gives_the_same_module() {
    let mut used = VimParser::new().unwrap();
    used.parse_module_str("let x =<< trim END\n\"\" Open").unwrap();
    used.parse_module_str("s/a/\"\" b").unwrap();
    used.parse_module_str("\"\" Pending.").unwrap();
    let mut fresh = VimParser::new().unwrap();
    let module = used.parse_module_str(CODE).unwrap();
    assert_eq!(module, fresh.parse_module_str(CODE).unwrap());
    assert_eq!(module, used.parse_module_str(CODE).unwrap());
    assert_eq!(module.nodes.len(), 2);
}

#[test]
fn file_gives_what_its_code_gives() {
    let mut parser = VimParser::new().unwrap();
    let path = PathBuf::from("./a/../b.vim");
    let from_file = parser.parse_module_file(path.clone(), Ok(CODE.to_string())).unwrap();
    let from_code = parser.parse_module_str(CODE).unwrap();
    assert_eq!(from_file, VimModule { path: Some(path), ..from_code });
}

#[test]
fn module_of_a_plugin_is_that_of_its_file() {
    let mut parser = VimParser::new().unwrap();
    let steps = vec![script("plugin/a.vim", CODE), script("autoload/b.vim", "let g:b = 1")];
    let plugin = parser.parse_plugin_dir(steps).unwrap();
    let path = PathBuf::from("/root/of/it/plugin/a.vim");
    let alone = parser.parse_module_file(path.clone(), Ok(CODE.to_string())).unwrap();
    assert_eq!(alone.path, Some(path));
    assert_eq!(
        plugin.content[0],
        VimModule { path: Some(PathBuf::from("plugin/a.vim")), ..alone }
    );
}

#[test]
fn failed_read_leaves_the_parser_as_it_was() {
    let mut parser = VimParser::new().unwrap();
    assert!(parser.parse_module_file(PathBuf::from("bad.vim"), Err(unreadable())).is_err());
    assert!(parser.parse_plugin_dir(vec![step("plugin/bad.vim", Err(unreadable()))]).is_err());
    let mut fresh = VimParser::new().unwrap();
    let path = PathBuf::from("a.vim");
    assert_eq!(
        parser.parse_module_file(path.clone(), Ok(CODE.to_string())).unwrap(),
        fresh.parse_module_file(path, Ok(CODE.to_string())).unwrap()
    );
}

#[test]
fn other_files_do_not_matter() {
    let mut parser = VimParser::new().unwrap();
    let few = vec![script("colors/c.vim", "let g:c = 1"), script("plugin/a.vim", CODE)];
    let many = vec![
        step("README.md", Err(unreadable())),
        script("colors/c.vim", "let g:c = 1"),
        step("after/plugin/x.vim", Err(unreadable())),
        script("top.vim", "let g:x = 1"),
        script("plugin/a.vim", CODE),
        step("plugin/a.txt", Err(unreadable())),
    ];
    let plugin = parser.parse_plugin_dir(few).unwrap();
    assert_eq!(parser.parse_plugin_dir(many).unwrap(), plugin);
    assert_eq!(plugin.content.len(), 2);
    let bad = || step("plugin/b.vim", Err(unreadable()));
    assert!(parser.parse_plugin_dir(vec![bad()]).is_err());
    assert!(parser.parse_plugin_dir(vec![script("top.vim", ""), bad()]).is_err());
}

#[test]
fn plugin_is_made_of_its_sections() {
    let mut parser = VimParser::new().unwrap();
    let colors = || script("colors/c.vim", "let g:c = 1");
    let autoload = || vec![script("autoload/z.vim", CODE), script("autoload/a.vim", "let g:a = 1")];
    let plugin = || script("plugin/p.vim", "let g:p = 1");
    let mut steps = vec![colors()];
    steps.extend(autoload());
    steps.push(plugin());
    let whole = parser.parse_plugin_dir(steps).unwrap();
    let mut parts = parser.parse_plugin_dir(vec![plugin()]).unwrap().content;
    parts.extend(parser.parse_plugin_dir(vec![script("instant.vim", "")]).unwrap().content);
    let mut elsewhere = vec![script("notes.vim", "let g:n = 1")];
    elsewhere.extend(autoload());
    parts.extend(parser.parse_plugin_dir(elsewhere).unwrap().content);
    parts.extend(parser.parse_plugin_dir(vec![colors()]).unwrap().content);
    assert_eq!(whole.content, parts);
    assert_eq!(parts.len(), 4);
}

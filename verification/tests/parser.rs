use std::path::PathBuf;
use vim_plugin_metadata::{PluginEntry, VimModule, VimNode, VimParser, VimPlugin, WalkStep};

#[test]
fn parse_module_empty() {
    let mut parser = VimParser::new().unwrap();
    assert_eq!(
        parser.parse_module_str("").unwrap(),
        VimModule {
            path: None,
            doc: None,
            nodes: vec![]
        }
    );
}

#[test]
fn parse_module_one_nondoc_comment() {
    let mut parser = VimParser::new().unwrap();
    assert_eq!(
        parser.parse_module_str("\" A comment").unwrap(),
        VimModule {
            path: None,
            doc: None,
            nodes: vec![]
        }
    );
}

#[test]
fn parse_module_one_doc() {
    let code = r#"
""
" Foo
"#;
    let mut parser = VimParser::new().unwrap();
    assert_eq!(
        parser.parse_module_str(code).unwrap(),
        VimModule {
            path: None,
            doc: "Foo".to_string().into(),
            nodes: vec![]
        }
    );
}

#[test]
fn parse_module_messy_multiline_doc() {
    let code = r#"
"" Foo
"bar
"#;
    let mut parser = VimParser::new().unwrap();
    assert_eq!(
        parser.parse_module_str(code).unwrap(),
        VimModule {
            path: None,
            doc: "Foo\nbar".to_string().into(),
            nodes: vec![]
        }
    );
}

#[test]
fn parse_module_adjacent_docs() {
    let code = r#"
""
" Doc comment.
""
" More doc comment.
"#;
    let mut parser = VimParser::new().unwrap();
    assert_eq!(
        parser.parse_module_str(code).unwrap(),
        VimModule {
            path: None,
            doc: Some("Doc comment.\n\"\nMore doc comment.".into()),
            nodes: vec![],
        },
    );
}

#[test]
fn parse_module_doc_before_statement() {
    let code = r#"
""
" Actually a file header.
echo 'Hi'
func MyFunc() | endfunc
"#;
    let mut parser = VimParser::new().unwrap();
    assert_eq!(
        parser.parse_module_str(code).unwrap(),
        VimModule {
            path: None,
            doc: "Actually a file header.".to_string().into(),
            nodes: vec![
                // Note: echo statement doesn't produce any nodes.
                VimNode::Function {
                    name: "MyFunc".into(),
                    args: vec![],
                    modifiers: vec![],
                    doc: None,
                }
            ],
        }
    );
}

#[test]
fn parse_module_bare_function() {
    let code = r#"
func MyFunc()
  return 1
endfunc
"#;
    let mut parser = VimParser::new().unwrap();
    assert_eq!(
        parser.parse_module_str(code).unwrap(),
        VimModule {
            path: None,
            doc: None,
            nodes: vec![VimNode::Function {
                name: "MyFunc".into(),
                args: vec![],
                modifiers: vec![],
                doc: None
            }]
        }
    );
}

#[test]
fn parse_module_doc_and_function() {
    let code = r#"
""
" Does a thing.
"
" Call and enjoy.
func MyFunc()
  return 1
endfunc
"#;
    let mut parser = VimParser::new().unwrap();
    assert_eq!(
        parser.parse_module_str(code).unwrap(),
        VimModule {
            path: None,
            doc: None,
            nodes: vec![VimNode::Function {
                name: "MyFunc".into(),
                args: vec![],
                modifiers: vec![],
                doc: Some("Does a thing.\n\nCall and enjoy.".into()),
            }]
        }
    );
}

#[test]
fn parse_module_func_with_args() {
    let code = r#"
func MyFunc(arg1, arg2)
  return 1
endfunc
"#;
    let mut parser = VimParser::new().unwrap();
    assert_eq!(
        parser.parse_module_str(code).unwrap(),
        VimModule {
            path: None,
            doc: None,
            nodes: vec![VimNode::Function {
                name: "MyFunc".into(),
                args: vec!["arg1".into(), "arg2".into()],
                modifiers: vec![],
                doc: None
            }]
        }
    );
}

#[test]
fn parse_module_func_with_opt_args_and_modifiers() {
    let code = r#"
func! MyFunc(arg1, ...) range dict abort
  return 1
endfunc
"#;
    let mut parser = VimParser::new().unwrap();
    assert_eq!(
        parser.parse_module_str(code).unwrap(),
        VimModule {
            path: None,
            doc: None,
            nodes: vec![VimNode::Function {
                name: "MyFunc".into(),
                args: vec!["arg1".into(), "...".into()],
                modifiers: vec!["!".into(), "range".into(), "dict".into(), "abort".into()],
                doc: None
            }]
        }
    );
}

#[test]
fn parse_module_two_docs() {
    let code = r#"
"" One doc

"" Another doc
"#;
    let mut parser = VimParser::new().unwrap();
    assert_eq!(
        parser.parse_module_str(code).unwrap(),
        VimModule {
            path: None,
            doc: Some("One doc".into()),
            nodes: vec![VimNode::StandaloneDocComment("Another doc".into()),]
        }
    );
}

#[test]
fn parse_module_comment_then_doc() {
    let code = r#"
" Normal comment

""
" Module doc
"#;
    let mut parser = VimParser::new().unwrap();
    assert_eq!(
        parser.parse_module_str(code).unwrap(),
        VimModule {
            path: None,
            doc: Some("Module doc".into()),
            nodes: vec![]
        }
    );
}

#[test]
fn parse_module_different_doc_indentations() {
    let code = r#"
"" One doc
 " Ignored comment
"#;
    let mut parser = VimParser::new().unwrap();
    assert_eq!(
        parser.parse_module_str(code).unwrap(),
        VimModule {
            path: None,
            doc: Some("One doc".into()),
            nodes: vec![
                // Comment at different indentation is treated as a normal
                // non-doc comment and ignored.
            ],
        }
    );
}

#[test]
fn parse_module_two_funcs() {
    let code = r#"func FuncOne() | endfunc
func FuncTwo() | endfunc"#;
    let mut parser = VimParser::new().unwrap();
    assert_eq!(
        parser.parse_module_str(code).unwrap(),
        VimModule {
            path: None,
            doc: None,
            nodes: vec![
                VimNode::Function {
                    name: "FuncOne".into(),
                    args: vec![],
                    modifiers: vec![],
                    doc: None
                },
                VimNode::Function {
                    name: "FuncTwo".into(),
                    args: vec![],
                    modifiers: vec![],
                    doc: None
                },
            ]
        }
    );
}

#[test]
fn parse_module_autoload_funcname() {
    let code = "func foo#bar#Baz() | endfunc";
    let mut parser = VimParser::new().unwrap();
    assert_eq!(
        parser.parse_module_str(code).unwrap(),
        VimModule {
            path: None,
            doc: None,
            nodes: vec![VimNode::Function {
                name: "foo#bar#Baz".into(),
                args: vec![],
                modifiers: vec![],
                doc: None
            }]
        }
    );
}

#[test]
fn parse_module_scriptlocal_funcname() {
    let code = "func s:SomeFunc() | endfunc";
    let mut parser = VimParser::new().unwrap();
    assert_eq!(
        parser.parse_module_str(code).unwrap(),
        VimModule {
            path: None,
            doc: None,
            nodes: vec![VimNode::Function {
                name: "s:SomeFunc".into(),
                args: vec![],
                modifiers: vec![],
                doc: None
            }]
        }
    );
}

#[test]
fn parse_module_nested_func() {
    let code = r#"
function Outer()
  let l:thing = {}
  function l:thing.Inner()
    return 1
  endfunction
  return l:thing
endfunction
"#;
    let mut parser = VimParser::new().unwrap();
    assert_eq!(
        parser.parse_module_str(code).unwrap(),
        VimModule {
            path: None,
            doc: None,
            nodes: vec![
                VimNode::Function {
                    name: "Outer".into(),
                    args: vec![],
                    modifiers: vec![],
                    doc: None
                },
                // TODO: Should have more nodes for inner function.
            ]
        }
    );
}

#[test]
fn parse_module_one_command() {
    let code = r#"command SomeCommand echo "Hi""#;
    let mut parser = VimParser::new().unwrap();
    assert_eq!(
        parser.parse_module_str(code).unwrap(),
        VimModule {
            path: None,
            doc: None,
            nodes: vec![VimNode::Command {
                name: "SomeCommand".into(),
                modifiers: vec![],
                doc: None
            }],
        }
    );
}

#[test]
fn parse_module_command_with_doc_and_modifiers() {
    let code = r#"
""
" Do a complex thing.
command -range -bang -nargs=+ -bar SomeComplexCommand call SomeHelper() | echo 'Hi'
"#;
    let mut parser = VimParser::new().unwrap();
    assert_eq!(
        parser.parse_module_str(code).unwrap(),
        VimModule {
            path: None,
            doc: None,
            nodes: vec![VimNode::Command {
                name: "SomeComplexCommand".into(),
                modifiers: vec![
                    "-range".into(),
                    "-bang".into(),
                    "-nargs=+".into(),
                    "-bar".into()
                ],
                doc: Some("Do a complex thing.".into()),
            }],
        }
    );
}

#[test]
fn parse_module_one_variable() {
    let code = "let somevar = 1";
    let mut parser = VimParser::new().unwrap();
    assert_eq!(
        parser.parse_module_str(code).unwrap(),
        VimModule {
            path: None,
            doc: None,
            nodes: vec![VimNode::Variable {
                name: "somevar".into(),
                init_value_token: "1".into(),
                doc: None,
            }],
        },
    );
}

#[test]
fn parse_module_variables_with_doc() {
    let code = r#"
""
" Doc for first variable.
let g:somevar = 'xyz' | let s:othervar = system("ls")
"#;
    let mut parser = VimParser::new().unwrap();
    assert_eq!(
        parser.parse_module_str(code).unwrap(),
        VimModule {
            path: None,
            doc: None,
            nodes: vec![
                VimNode::Variable {
                    name: "g:somevar".into(),
                    init_value_token: "'xyz'".into(),
                    doc: Some("Doc for first variable.".into()),
                },
                VimNode::Variable {
                    name: "s:othervar".into(),
                    init_value_token: "system(\"ls\")".into(),
                    doc: None,
                },
            ],
        },
    );
}

#[test]
fn parse_module_one_flag() {
    let code = "call Flag('someflag', 'somedefault')";
    let mut parser = VimParser::new().unwrap();
    assert_eq!(
        parser.parse_module_str(code).unwrap(),
        VimModule {
            path: None,
            doc: None,
            nodes: vec![VimNode::Flag {
                name: "someflag".into(),
                default_value_token: Some("'somedefault'".into()),
                doc: None
            }],
        }
    );
}

#[test]
fn parse_module_flag_without_default() {
    let code = "call Flag('someflag')";
    let mut parser = VimParser::new().unwrap();
    assert_eq!(
        parser.parse_module_str(code).unwrap(),
        VimModule {
            path: None,
            doc: None,
            nodes: vec![VimNode::Flag {
                name: "someflag".into(),
                default_value_token: None,
                doc: None
            }],
        }
    );
}

#[test]
fn parse_module_flag_with_doc() {
    let code = r#"
""
" A flag for the value of a thing.
call Flag('someflag', 'somedefault')
"#;
    let mut parser = VimParser::new().unwrap();
    assert_eq!(
        parser.parse_module_str(code).unwrap(),
        VimModule {
            path: None,
            doc: None,
            nodes: vec![VimNode::Flag {
                name: "someflag".into(),
                default_value_token: Some("'somedefault'".into()),
                doc: Some("A flag for the value of a thing.".into()),
            }],
        }
    );
}

#[test]
fn parse_module_flag_s_plugin() {
    let code = r#"
let [s:plugin, s:enter] = plugin#Enter(expand('<sfile>:p'))
if !s:enter
  finish
endif
call s:plugin.Flag('someflag', 'somedefault')
"#;
    let mut parser = VimParser::new().unwrap();
    assert_eq!(
        parser.parse_module_str(code).unwrap(),
        VimModule {
            path: None,
            doc: None,
            nodes: vec![
                VimNode::Variable {
                    name: "s:plugin".into(),
                    init_value_token: "plugin#Enter(expand('<sfile>:p'))[0]".into(),
                    doc: None,
                },
                VimNode::Variable {
                    name: "s:enter".into(),
                    init_value_token: "plugin#Enter(expand('<sfile>:p'))[1]".into(),
                    doc: None,
                },
                VimNode::Flag {
                    name: "someflag".into(),
                    default_value_token: Some("'somedefault'".into()),
                    doc: None
                },
            ],
        }
    );
}

#[test]
fn parse_module_flag_name_special_chars() {
    let code = r#"call Flag("some\"'flag֎")"#;
    let mut parser = VimParser::new().unwrap();
    assert_eq!(
        parser.parse_module_str(code).unwrap(),
        VimModule {
            path: None,
            doc: None,
            nodes: vec![VimNode::Flag {
                name: r#"some"'flag֎"#.into(),
                default_value_token: None,
                doc: None
            }],
        }
    );
}

#[test]
fn parse_module_comment_and_call() {
    let code = r#"
" Some normal comment.
call SomeFunc()
"#;
    let mut parser = VimParser::new().unwrap();
    assert_eq!(
        parser.parse_module_str(code).unwrap(),
        VimModule {
            path: None,
            doc: None,
            nodes: vec![],
        }
    );
}

#[test]
fn parse_module_unicode() {
    let code = r#"
""
" Fun stuff 🎈 ( ͡° ͜ʖ ͡°)
"#;
    let mut parser = VimParser::new().unwrap();
    assert_eq!(
        parser.parse_module_str(code).unwrap(),
        VimModule {
            path: None,
            doc: Some("Fun stuff 🎈 ( ͡° ͜ʖ ͡°)".into()),
            nodes: vec![],
        }
    );
}

#[test]
fn parse_plugin_dir_empty() {
    let mut parser = VimParser::new().unwrap();
    let plugin = parser.parse_plugin_dir(vec![]).unwrap();
    assert_eq!(plugin, VimPlugin { content: vec![] });
}

#[test]
fn parse_plugin_dir_one_autoload_func() {
    let mut parser = VimParser::new().unwrap();
    let steps = vec![plugin_file(
        "autoload/foo.vim",
        r#"
func foo#Bar()
  sleep 1
endfunc
"#,
    )];
    let plugin = parser.parse_plugin_dir(steps).unwrap();
    assert_eq!(
        plugin,
        VimPlugin {
            content: vec![VimModule {
                path: PathBuf::from("autoload/foo.vim").into(),
                doc: None,
                nodes: vec![VimNode::Function {
                    name: "foo#Bar".into(),
                    args: vec![],
                    modifiers: vec![],
                    doc: None
                }]
            }],
        }
    );
}

#[test]
fn parse_plugin_dir_various_subdirs() {
    let mut parser = VimParser::new().unwrap();
    let steps = vec![
        plugin_file("ignored_not_in_subdir.vim", ""),
        plugin_file("autoload/x.vim", ""),
        plugin_file("instant/x.vim", ""),
        plugin_file("plugin/x.vim", ""),
        plugin_file("colors/x.vim", ""),
        plugin_file("spell/x.vim", ""),
    ];
    assert_eq!(
        parser.parse_plugin_dir(steps).unwrap(),
        VimPlugin {
            content: vec![
                VimModule {
                    path: PathBuf::from("plugin/x.vim").into(),
                    doc: None,
                    nodes: vec![],
                },
                VimModule {
                    path: PathBuf::from("instant/x.vim").into(),
                    doc: None,
                    nodes: vec![],
                },
                VimModule {
                    path: PathBuf::from("autoload/x.vim").into(),
                    doc: None,
                    nodes: vec![],
                },
                VimModule {
                    path: PathBuf::from("spell/x.vim").into(),
                    doc: None,
                    nodes: vec![],
                },
                VimModule {
                    path: PathBuf::from("colors/x.vim").into(),
                    doc: None,
                    nodes: vec![],
                },
            ]
        }
    );
}

/// A file below the root of a plugin, as a walk over the plugin comes across it.
fn plugin_file(subpath: &str, contents: &str) -> WalkStep {
    let path = PathBuf::from(subpath);
    WalkStep::Entry(PluginEntry {
        is_file: true,
        file_name: path.file_name().unwrap().to_string_lossy().into(),
        section_name: path.iter().next().map(|name| name.to_string_lossy().into()),
        contents: Ok(contents.into()),
        path,
    })
}
